//! Flight plan schedules: the times, places and aircraft of a flight.

use crate::ids::{is_uuid, parse_uuid};
use vstd::prelude::*;
use crate::groups::{lemma_insert_by, lemma_sort_by_sorted, sort_by};

verus! {

/// A point of a flight path: latitude and longitude in units of 1e-7 degree,
/// altitude in millimeters.
#[derive(Debug, Copy, Clone, PartialEq, Eq, Structural)]
pub struct PointZ {
    pub latitude_e7: i64,
    pub longitude_e7: i64,
    pub altitude_mm: i64,
}

/// The schedule of one flight.
#[derive(Debug, Clone)]
pub struct FlightPlanSchedule {
    pub origin_vertiport_id: String,
    pub origin_vertipad_id: String,
    pub origin_timeslot_start: i64,
    pub origin_timeslot_end: i64,
    pub target_vertiport_id: String,
    pub target_vertipad_id: String,
    pub target_timeslot_start: i64,
    pub target_timeslot_end: i64,
    pub vehicle_id: String,
    pub path: Option<Vec<PointZ>>,
}

/// The stored form of a flight plan's data, as far as scheduling reads it.
#[derive(Debug, Clone)]
pub struct FlightPlanData {
    pub origin_vertiport_id: Option<String>,
    pub origin_vertipad_id: String,
    pub origin_timeslot_start: Option<i64>,
    pub origin_timeslot_end: Option<i64>,
    pub target_vertiport_id: Option<String>,
    pub target_vertipad_id: String,
    pub target_timeslot_start: Option<i64>,
    pub target_timeslot_end: Option<i64>,
    pub vehicle_id: String,
    pub path: Option<Vec<PointZ>>,
}

/// A stored flight plan: its identifier and its data.
#[derive(Debug, Clone)]
pub struct FlightPlanObject {
    pub id: String,
    pub data: Option<FlightPlanData>,
}

/// Errors on reading flight plans.
#[derive(Debug, Copy, Clone, PartialEq, Eq, Structural)]
pub enum FlightPlanError {
    ClientError,
    Data,
}

impl FlightPlanError {
    pub open spec fn message(&self) -> Seq<char> {
        match self {
            FlightPlanError::ClientError => "ClientError"@,
            FlightPlanError::Data => "InvalidData"@,
        }
    }

    /// The message describing the error.
    pub fn to_string(&self) -> (r: String)
        ensures
            r@ == self.message(),
    {
        match self {
            FlightPlanError::ClientError => "ClientError".to_string(),
            FlightPlanError::Data => "InvalidData".to_string(),
        }
    }
}

/// The path of a flight plan, as a sequence of points.
pub open spec fn path_view(path: Option<Vec<PointZ>>) -> Option<Seq<PointZ>> {
    match path {
        Some(p) => Some(p@),
        None => None,
    }
}

/// What scheduling reads of a flight plan.
pub struct FlightPlanScheduleView {
    pub origin_vertiport_id: Seq<char>,
    pub origin_vertipad_id: Seq<char>,
    pub origin_timeslot_start: i64,
    pub origin_timeslot_end: i64,
    pub target_vertiport_id: Seq<char>,
    pub target_vertipad_id: Seq<char>,
    pub target_timeslot_start: i64,
    pub target_timeslot_end: i64,
    pub vehicle_id: Seq<char>,
    pub path: Option<Seq<PointZ>>,
}

impl View for FlightPlanSchedule {
    type V = FlightPlanScheduleView;

    open spec fn view(&self) -> FlightPlanScheduleView {
        FlightPlanScheduleView {
            origin_vertiport_id: self.origin_vertiport_id@,
            origin_vertipad_id: self.origin_vertipad_id@,
            origin_timeslot_start: self.origin_timeslot_start,
            origin_timeslot_end: self.origin_timeslot_end,
            target_vertiport_id: self.target_vertiport_id@,
            target_vertipad_id: self.target_vertipad_id@,
            target_timeslot_start: self.target_timeslot_start,
            target_timeslot_end: self.target_timeslot_end,
            vehicle_id: self.vehicle_id@,
            path: path_view(self.path),
        }
    }
}

/// Whether stored flight plan data makes a valid schedule: all four times are
/// present, the departure starts before the arrival ends, and the aircraft and
/// both vertiports are named by UUIDs.
pub open spec fn data_is_schedule(d: FlightPlanData) -> bool {
    &&& d.origin_timeslot_start is Some
    &&& d.origin_timeslot_end is Some
    &&& d.target_timeslot_start is Some
    &&& d.target_timeslot_end is Some
    &&& d.origin_timeslot_start->Some_0 < d.target_timeslot_end->Some_0
    &&& is_uuid(d.vehicle_id@)
    &&& d.origin_vertiport_id matches Some(id) && is_uuid(id@)
    &&& d.target_vertiport_id matches Some(id) && is_uuid(id@)
}

/// The schedule read from valid stored data: the same fields, with the
/// optional ones unwrapped.
pub open spec fn data_schedule_view(d: FlightPlanData) -> FlightPlanScheduleView {
    FlightPlanScheduleView {
        origin_vertiport_id: d.origin_vertiport_id->Some_0@,
        origin_vertipad_id: d.origin_vertipad_id@,
        origin_timeslot_start: d.origin_timeslot_start->Some_0,
        origin_timeslot_end: d.origin_timeslot_end->Some_0,
        target_vertiport_id: d.target_vertiport_id->Some_0@,
        target_vertipad_id: d.target_vertipad_id@,
        target_timeslot_start: d.target_timeslot_start->Some_0,
        target_timeslot_end: d.target_timeslot_end->Some_0,
        vehicle_id: d.vehicle_id@,
        path: path_view(d.path),
    }
}

/// Whether a stored flight plan has data that makes a valid schedule.
pub open spec fn object_is_schedule(o: FlightPlanObject) -> bool {
    o.data matches Some(d) && data_is_schedule(d)
}

/// The schedules of the stored flight plans that have valid data, in order.
pub open spec fn schedules_of_objects(objects: Seq<FlightPlanObject>) -> Seq<FlightPlanScheduleView>
    decreases objects.len(),
{
    if objects.len() == 0 {
        Seq::empty()
    } else {
        let rest = schedules_of_objects(objects.drop_last());
        if object_is_schedule(objects.last()) {
            rest.push(data_schedule_view(objects.last().data->Some_0))
        } else {
            rest
        }
    }
}

/// The schedules' views.
pub open spec fn schedule_views(v: Seq<FlightPlanSchedule>) -> Seq<FlightPlanScheduleView> {
    v.map_values(|s: FlightPlanSchedule| s@)
}

/// Whether the schedules are in order of arrival (start of the arrival
/// timeslot).
pub open spec fn sorted_by_arrival(v: Seq<FlightPlanScheduleView>) -> bool {
    forall|i: int, j: int| 0 <= i < j < v.len() ==> v[i].target_timeslot_start <= v[j].target_timeslot_start
}

/// The schedule read from stored data, or `Data` when the data is not a valid
/// schedule.
pub open spec fn schedule_from_data(d: FlightPlanData) -> Result<FlightPlanSchedule, FlightPlanError> {
    if data_is_schedule(d) {
        Ok(FlightPlanSchedule {
            origin_vertiport_id: d.origin_vertiport_id->Some_0,
            origin_vertipad_id: d.origin_vertipad_id,
            origin_timeslot_start: d.origin_timeslot_start->Some_0,
            origin_timeslot_end: d.origin_timeslot_end->Some_0,
            target_vertiport_id: d.target_vertiport_id->Some_0,
            target_vertipad_id: d.target_vertipad_id,
            target_timeslot_start: d.target_timeslot_start->Some_0,
            target_timeslot_end: d.target_timeslot_end->Some_0,
            vehicle_id: d.vehicle_id,
            path: d.path,
        })
    } else {
        Err(FlightPlanError::Data)
    }
}

/// The stored form of a schedule.
pub open spec fn data_from_schedule(s: FlightPlanSchedule) -> FlightPlanData {
    FlightPlanData {
        origin_vertiport_id: Some(s.origin_vertiport_id),
        origin_vertipad_id: s.origin_vertipad_id,
        origin_timeslot_start: Some(s.origin_timeslot_start),
        origin_timeslot_end: Some(s.origin_timeslot_end),
        target_vertiport_id: Some(s.target_vertiport_id),
        target_vertipad_id: s.target_vertipad_id,
        target_timeslot_start: Some(s.target_timeslot_start),
        target_timeslot_end: Some(s.target_timeslot_end),
        vehicle_id: s.vehicle_id,
        path: s.path,
    }
}

impl FlightPlanSchedule {
    /// Reads a schedule from stored flight plan data.
    pub fn try_from_data(data: FlightPlanData) -> (r: Result<FlightPlanSchedule, FlightPlanError>)
        ensures
            r == schedule_from_data(data),
            r is Ok <==> data_is_schedule(data),
            r matches Ok(s) ==> s@ == data_schedule_view(data),
    {
        let origin_timeslot_start = match data.origin_timeslot_start {
            Some(t) => t,
            None => return Err(FlightPlanError::Data),
        };
        let origin_timeslot_end = match data.origin_timeslot_end {
            Some(t) => t,
            None => return Err(FlightPlanError::Data),
        };
        let target_timeslot_start = match data.target_timeslot_start {
            Some(t) => t,
            None => return Err(FlightPlanError::Data),
        };
        let target_timeslot_end = match data.target_timeslot_end {
            Some(t) => t,
            None => return Err(FlightPlanError::Data),
        };
        if origin_timeslot_start >= target_timeslot_end {
            return Err(FlightPlanError::Data);
        }
        if parse_uuid(data.vehicle_id.as_str()).is_none() {
            return Err(FlightPlanError::Data);
        }
        let origin_vertiport_id = match data.origin_vertiport_id {
            Some(id) => id,
            None => return Err(FlightPlanError::Data),
        };
        if parse_uuid(origin_vertiport_id.as_str()).is_none() {
            return Err(FlightPlanError::Data);
        }
        let target_vertiport_id = match data.target_vertiport_id {
            Some(id) => id,
            None => return Err(FlightPlanError::Data),
        };
        if parse_uuid(target_vertiport_id.as_str()).is_none() {
            return Err(FlightPlanError::Data);
        }
        Ok(FlightPlanSchedule {
            origin_vertiport_id,
            origin_vertipad_id: data.origin_vertipad_id,
            origin_timeslot_start,
            origin_timeslot_end,
            target_vertiport_id,
            target_vertipad_id: data.target_vertipad_id,
            target_timeslot_start,
            target_timeslot_end,
            vehicle_id: data.vehicle_id,
            path: data.path,
        })
    }

    /// Reads a schedule from a stored flight plan; one without data is invalid.
    pub fn try_from_object(flight_plan: FlightPlanObject) -> (r: Result<FlightPlanSchedule, FlightPlanError>)
        ensures
            r == (match flight_plan.data {
                Some(data) => schedule_from_data(data),
                None => Err(FlightPlanError::Data),
            }),
            r is Ok <==> (flight_plan.data matches Some(d) && data_is_schedule(d)),
            r matches Ok(s) ==> s@ == data_schedule_view(flight_plan.data->Some_0),
            r matches Err(e) ==> e == FlightPlanError::Data,
    {
        match flight_plan.data {
            Some(data) => FlightPlanSchedule::try_from_data(data),
            None => Err(FlightPlanError::Data),
        }
    }

    /// The stored form of the schedule.
    pub fn to_data(self) -> (r: FlightPlanData)
        ensures
            r == data_from_schedule(self),
            r.origin_vertiport_id matches Some(id) && id@ == self.origin_vertiport_id@,
            r.origin_vertipad_id@ == self.origin_vertipad_id@,
            r.origin_timeslot_start == Some(self.origin_timeslot_start),
            r.origin_timeslot_end == Some(self.origin_timeslot_end),
            r.target_vertiport_id matches Some(id) && id@ == self.target_vertiport_id@,
            r.target_vertipad_id@ == self.target_vertipad_id@,
            r.target_timeslot_start == Some(self.target_timeslot_start),
            r.target_timeslot_end == Some(self.target_timeslot_end),
            r.vehicle_id@ == self.vehicle_id@,
            path_view(r.path) == path_view(self.path),
    {
        FlightPlanData {
            origin_vertiport_id: Some(self.origin_vertiport_id),
            origin_vertipad_id: self.origin_vertipad_id,
            origin_timeslot_start: Some(self.origin_timeslot_start),
            origin_timeslot_end: Some(self.origin_timeslot_end),
            target_vertiport_id: Some(self.target_vertiport_id),
            target_vertipad_id: self.target_vertipad_id,
            target_timeslot_start: Some(self.target_timeslot_start),
            target_timeslot_end: Some(self.target_timeslot_end),
            vehicle_id: self.vehicle_id,
            path: self.path,
        }
    }
}

/// The schedules of the stored flight plans that have valid data, in their
/// stored order; the others are left out.
pub fn schedules_from_objects(objects: Vec<FlightPlanObject>) -> (r: Vec<FlightPlanSchedule>)
    ensures
        schedule_views(r@) == schedules_of_objects(objects@),
{
    let ghost all = objects@;
    let mut r: Vec<FlightPlanSchedule> = Vec::new();
    let n = objects.len();
    let mut objects = objects;
    let mut i: usize = 0;
    proof {
        assert(all.take(0) =~= Seq::<FlightPlanObject>::empty());
        assert(schedule_views(r@) =~= Seq::<FlightPlanScheduleView>::empty());
        assert(all.skip(0) =~= all);
    }
    while i < n
        invariant
            n == all.len(),
            i <= n,
            objects@ == all.skip(i as int),
            schedule_views(r@) == schedules_of_objects(all.take(i as int)),
        decreases n - i,
    {
        let object = objects.remove(0);
        proof {
            assert(object == all[i as int]);
            assert(objects@ =~= all.skip(i + 1));
            assert(all.take(i + 1).drop_last() =~= all.take(i as int));
            assert(all.take(i + 1).last() == all[i as int]);
        }
        let ghost before = r@;
        match FlightPlanSchedule::try_from_object(object) {
            Ok(s) => {
                r.push(s);
                proof {
                    assert(schedule_views(r@) =~= schedule_views(before).push(s@));
                }
            },
            Err(_) => {},
        }
        i = i + 1;
    }
    proof {
        assert(all.take(n as int) =~= all);
    }
    r
}

/// The start of a schedule's arrival timeslot, by which schedules are ordered.
pub open spec fn arrival_key() -> spec_fn(FlightPlanScheduleView) -> int {
    |f: FlightPlanScheduleView| f.target_timeslot_start as int
}

/// Orders flight plan schedules from the earliest to the latest arrival
/// (start of the arrival timeslot); schedules with the same arrival keep their
/// relative order (see [`sort_by`]).
pub fn sort_flight_plans(flight_plans: Vec<FlightPlanSchedule>) -> (r: Vec<FlightPlanSchedule>)
    ensures
        schedule_views(r@) == sort_by(schedule_views(flight_plans@), arrival_key()),
        sorted_by_arrival(schedule_views(r@)),
        schedule_views(r@).to_multiset() == schedule_views(flight_plans@).to_multiset(),
{
    let ghost all = schedule_views(flight_plans@);
    let n = flight_plans.len();
    let mut rest = flight_plans;
    let mut r: Vec<FlightPlanSchedule> = Vec::new();
    let mut i: usize = 0;
    proof {
        assert(all.take(0) =~= Seq::<FlightPlanScheduleView>::empty());
        assert(schedule_views(r@) =~= Seq::<FlightPlanScheduleView>::empty());
        assert(schedule_views(rest@) =~= all.skip(0));
    }
    while i < n
        invariant
            n == all.len(),
            i <= n,
            rest@.len() == n - i,
            schedule_views(rest@) == all.skip(i as int),
            schedule_views(r@) == sort_by(all.take(i as int), arrival_key()),
        decreases n - i,
    {
        let ghost rest_before = rest@;
        let x = rest.remove(0);
        proof {
            assert(x == rest_before[0]);
            assert(x@ == schedule_views(rest_before)[0]);
            assert(x@ == all[i as int]);
            assert forall|k: int| 0 <= k < rest@.len() implies schedule_views(rest@)[k] == all.skip(i + 1)[k] by {
                assert(rest@[k] == rest_before[k + 1]);
                assert(schedule_views(rest_before)[k + 1] == all.skip(i as int)[k + 1]);
            }
            assert(schedule_views(rest@) =~= all.skip(i + 1));
            assert(all.take(i + 1).drop_last() =~= all.take(i as int));
            assert(all.take(i + 1).last() == x@);
        }
        let ghost rv = schedule_views(r@);
        let mut j: usize = r.len();
        while j > 0
            invariant
                rv == schedule_views(r@),
                j <= r@.len(),
                forall|k: int| j <= k < rv.len() ==> arrival_key()(#[trigger] rv[k]) > arrival_key()(x@),
            ensures
                j == 0 || rv[j - 1].target_timeslot_start <= x.target_timeslot_start,
            decreases j,
        {
            if r[j - 1].target_timeslot_start <= x.target_timeslot_start {
                break;
            }
            j = j - 1;
        }
        proof {
            lemma_insert_by(rv, x@, arrival_key(), j as int);
        }
        r.insert(j, x);
        proof {
            assert(schedule_views(r@) =~= rv.take(j as int).push(x@) + rv.skip(j as int));
        }
        i = i + 1;
    }
    proof {
        assert(all.take(n as int) =~= all);
        lemma_sort_by_sorted(all, arrival_key());
        let v = schedule_views(r@);
        assert forall|a: int, b: int| 0 <= a < b < v.len() implies v[a].target_timeslot_start <= v[b].target_timeslot_start by {
            assert(arrival_key()(sort_by(all, arrival_key())[a]) <= arrival_key()(sort_by(all, arrival_key())[b]));
        }
    }
    r
}

impl TryFrom<FlightPlanData> for FlightPlanSchedule {
    type Error = FlightPlanError;

    fn try_from(data: FlightPlanData) -> (r: Result<FlightPlanSchedule, FlightPlanError>) {
        FlightPlanSchedule::try_from_data(data)
    }
}

impl vstd::std_specs::convert::TryFromSpecImpl<FlightPlanData> for FlightPlanSchedule {
    open spec fn obeys_try_from_spec() -> bool {
        true
    }

    open spec fn try_from_spec(data: FlightPlanData) -> Result<FlightPlanSchedule, FlightPlanError> {
        schedule_from_data(data)
    }
}

impl TryFrom<FlightPlanObject> for FlightPlanSchedule {
    type Error = FlightPlanError;

    fn try_from(flight_plan: FlightPlanObject) -> (r: Result<FlightPlanSchedule, FlightPlanError>) {
        FlightPlanSchedule::try_from_object(flight_plan)
    }
}

impl vstd::std_specs::convert::TryFromSpecImpl<FlightPlanObject> for FlightPlanSchedule {
    open spec fn obeys_try_from_spec() -> bool {
        true
    }

    open spec fn try_from_spec(flight_plan: FlightPlanObject) -> Result<FlightPlanSchedule, FlightPlanError> {
        match flight_plan.data {
            Some(data) => schedule_from_data(data),
            None => Err(FlightPlanError::Data),
        }
    }
}

impl From<FlightPlanSchedule> for FlightPlanData {
    fn from(schedule: FlightPlanSchedule) -> (r: FlightPlanData) {
        schedule.to_data()
    }
}

impl vstd::std_specs::convert::FromSpecImpl<FlightPlanSchedule> for FlightPlanData {
    open spec fn obeys_from_spec() -> bool {
        true
    }

    open spec fn from_spec(schedule: FlightPlanSchedule) -> FlightPlanData {
        data_from_schedule(schedule)
    }
}

impl PartialEq for FlightPlanSchedule {
    fn eq(&self, other: &Self) -> (r: bool) {
        self.origin_timeslot_start == other.origin_timeslot_start
    }
}

impl vstd::std_specs::cmp::PartialEqSpecImpl for FlightPlanSchedule {
    /// Flight plan schedules are compared by their departure start alone.
    open spec fn obeys_eq_spec() -> bool {
        true
    }

    open spec fn eq_spec(&self, other: &Self) -> bool {
        self.origin_timeslot_start == other.origin_timeslot_start
    }
}

impl Eq for FlightPlanSchedule {}

impl PartialOrd for FlightPlanSchedule {
    fn partial_cmp(&self, other: &Self) -> (r: Option<core::cmp::Ordering>) {
        if self.origin_timeslot_start < other.origin_timeslot_start {
            Some(core::cmp::Ordering::Less)
        } else if self.origin_timeslot_start == other.origin_timeslot_start {
            Some(core::cmp::Ordering::Equal)
        } else {
            Some(core::cmp::Ordering::Greater)
        }
    }
}

impl vstd::std_specs::cmp::PartialOrdSpecImpl for FlightPlanSchedule {
    /// Flight plan schedules are ordered by their departure start alone.
    open spec fn obeys_partial_cmp_spec() -> bool {
        true
    }

    open spec fn partial_cmp_spec(&self, other: &Self) -> Option<core::cmp::Ordering> {
        if self.origin_timeslot_start < other.origin_timeslot_start {
            Some(core::cmp::Ordering::Less)
        } else if self.origin_timeslot_start == other.origin_timeslot_start {
            Some(core::cmp::Ordering::Equal)
        } else {
            Some(core::cmp::Ordering::Greater)
        }
    }
}

/// A copy of a list of points.
pub fn copy_points(p: &Vec<PointZ>) -> (r: Vec<PointZ>)
    ensures
        r@ == p@,
{
    let mut v: Vec<PointZ> = Vec::new();
    let mut i: usize = 0;
    while i < p.len()
        invariant
            i <= p@.len(),
            v@ == p@.take(i as int),
        decreases p@.len() - i,
    {
        v.push(p[i]);
        proof {
            assert(p@.take(i + 1) =~= p@.take(i as int).push(p@[i as int]));
        }
        i = i + 1;
    }
    proof {
        assert(p@.take(i as int) =~= p@);
    }
    v
}

/// A copy of a path.
pub fn copy_path(path: &Option<Vec<PointZ>>) -> (r: Option<Vec<PointZ>>)
    ensures
        path_view(r) == path_view(*path),
{
    match path {
        None => None,
        Some(p) => Some(copy_points(p)),
    }
}

impl FlightPlanSchedule {
    /// A copy of the schedule.
    pub fn copy(&self) -> (r: FlightPlanSchedule)
        ensures
            r@ == self@,
    {
        FlightPlanSchedule {
            origin_vertiport_id: self.origin_vertiport_id.clone(),
            origin_vertipad_id: self.origin_vertipad_id.clone(),
            origin_timeslot_start: self.origin_timeslot_start,
            origin_timeslot_end: self.origin_timeslot_end,
            target_vertiport_id: self.target_vertiport_id.clone(),
            target_vertipad_id: self.target_vertipad_id.clone(),
            target_timeslot_start: self.target_timeslot_start,
            target_timeslot_end: self.target_timeslot_end,
            vehicle_id: self.vehicle_id.clone(),
            path: copy_path(&self.path),
        }
    }
}

/// A copy of a list of flight plans.
pub fn copy_schedules(v: &Vec<FlightPlanSchedule>) -> (r: Vec<FlightPlanSchedule>)
    ensures
        schedule_views(r@) == schedule_views(v@),
{
    let mut r: Vec<FlightPlanSchedule> = Vec::new();
    let mut i: usize = 0;
    while i < v.len()
        invariant
            i <= v@.len(),
            schedule_views(r@) == schedule_views(v@).take(i as int),
        decreases v@.len() - i,
    {
        let ghost before = r@;
        r.push(v[i].copy());
        proof {
            assert(schedule_views(r@) =~= schedule_views(before).push(v@[i as int]@));
            assert(schedule_views(v@).take(i + 1) =~= schedule_views(v@).take(i as int).push(v@[i as int]@));
        }
        i = i + 1;
    }
    proof {
        assert(schedule_views(v@).take(i as int) =~= schedule_views(v@));
    }
    r
}

} // verus!
