//! Itineraries: checking a chain of flight plans, and building the flight
//! plans that take an aircraft from where it is available through a requested
//! flight and back.

use crate::flight_plan::{copy_path, copy_points, copy_schedules, path_view, FlightPlanSchedule, FlightPlanScheduleView, PointZ, schedule_views};
use crate::schedule::{later, timeslot_overlap, valid_time, Timeslot, MAX_TIME_MS};
use crate::groups::{insert_by, lemma_insert_by, sort_by};
use crate::vehicle::{availability_views, group_views, Availability, AvailabilityView};
use crate::vertiport::{pair_views, TimeslotPair, TimeslotPairView};
use vstd::prelude::*;

verus! {

/// The most itineraries offered for one request.
pub const MAX_ITINERARIES: usize = 2;

/// Errors that may occur while processing an itinerary.
#[derive(Debug, Copy, Clone, PartialEq, Eq, Structural)]
pub enum ItineraryError {
    /// There was an error contacting a dependency
    ClientError,
    /// The provided data was invalid
    Data,
    /// The vehicle id was inconsistent
    VehicleId,
    /// Inconsistent vertipads
    Vertipads,
    /// Invalid time windows
    TimeWindow,
    /// No path provided
    NoPath,
    /// Path is too short
    PathTooShort,
    /// No path could be found between the origin and target vertipads
    NoPathFound,
    /// There was a schedule conflict
    ScheduleConflict,
    /// An internal error occurred
    Internal,
}

impl ItineraryError {
    pub open spec fn message(&self) -> Seq<char> {
        match self {
            ItineraryError::ClientError => "Could not contact dependency."@,
            ItineraryError::Data => "Invalid data."@,
            ItineraryError::VehicleId => "Inconsistent vehicle ID."@,
            ItineraryError::Vertipads => "Inconsistent vertipads."@,
            ItineraryError::TimeWindow => "Invalid time window."@,
            ItineraryError::NoPath => "No path provided."@,
            ItineraryError::PathTooShort => "Path is too short."@,
            ItineraryError::NoPathFound => "No path found."@,
            ItineraryError::ScheduleConflict => "Schedule conflict."@,
            ItineraryError::Internal => "Internal error."@,
        }
    }

    /// The message describing the error.
    pub fn to_string(&self) -> (r: String)
        ensures
            r@ == self.message(),
    {
        match self {
            ItineraryError::ClientError => "Could not contact dependency.".to_string(),
            ItineraryError::Data => "Invalid data.".to_string(),
            ItineraryError::VehicleId => "Inconsistent vehicle ID.".to_string(),
            ItineraryError::Vertipads => "Inconsistent vertipads.".to_string(),
            ItineraryError::TimeWindow => "Invalid time window.".to_string(),
            ItineraryError::NoPath => "No path provided.".to_string(),
            ItineraryError::PathTooShort => "Path is too short.".to_string(),
            ItineraryError::NoPathFound => "No path found.".to_string(),
            ItineraryError::ScheduleConflict => "Schedule conflict.".to_string(),
            ItineraryError::Internal => "Internal error.".to_string(),
        }
    }
}

/// The identifiers held by a list, as a set.
pub open spec fn id_set(v: Seq<String>) -> Set<Seq<char>> {
    Set::new(|s: Seq<char>| exists|i: int| 0 <= i < v.len() && (#[trigger] v[i])@ == s)
}

/// No identifier occurs twice in the list.
pub open spec fn ids_distinct(v: Seq<String>) -> bool {
    forall|i: int, j: int| 0 <= i < j < v.len() ==> (#[trigger] v[i])@ != (#[trigger] v[j])@
}

/// What is wrong with a flight plan's path, if anything: there must be one,
/// with at least the egress and the ingress point.
pub open spec fn path_problem(path: Option<Seq<PointZ>>) -> Option<ItineraryError> {
    match path {
        None => Some(ItineraryError::NoPath),
        Some(p) => if p.len() < 2 { Some(ItineraryError::PathTooShort) } else { None },
    }
}

/// Checks consecutive flight plans from the `k`-th on, collecting their
/// vertipads and the aircraft: what `validate_itinerary` returns, and the
/// vertipads and aircraft it leaves.
pub open spec fn check_connections(
    fps: Seq<FlightPlanScheduleView>,
    k: int,
    pads: Set<Seq<char>>,
    aircraft: Seq<char>,
) -> (Result<(), ItineraryError>, Set<Seq<char>>, Seq<char>)
    decreases fps.len() - k,
{
    if k < 0 || k + 1 >= fps.len() {
        (if aircraft.len() == 0 { Err(ItineraryError::Data) } else { Ok(()) }, pads, aircraft)
    } else {
        let a = fps[k];
        let b = fps[k + 1];
        if a.target_vertipad_id != b.origin_vertipad_id {
            (Err(ItineraryError::Vertipads), pads, aircraft)
        } else {
            let p = pads.insert(a.origin_vertipad_id).insert(a.target_vertipad_id).insert(b.origin_vertipad_id).insert(
                b.target_vertipad_id,
            );
            let ac = if aircraft.len() == 0 { a.vehicle_id } else { aircraft };
            if ac != b.vehicle_id {
                (Err(ItineraryError::VehicleId), p, ac)
            } else if a.origin_timeslot_start >= a.target_timeslot_start {
                (Err(ItineraryError::TimeWindow), p, ac)
            } else if a.target_timeslot_end > b.origin_timeslot_start {
                (Err(ItineraryError::TimeWindow), p, ac)
            } else if path_problem(a.path) is Some {
                (Err(path_problem(a.path)->Some_0), p, ac)
            } else if path_problem(b.path) is Some {
                (Err(path_problem(b.path)->Some_0), p, ac)
            } else {
                check_connections(fps, k + 1, p, ac)
            }
        }
    }
}

/// What `validate_itinerary` returns, and the vertipads and aircraft it leaves.
pub open spec fn check_itinerary(
    fps: Seq<FlightPlanScheduleView>,
    pads: Set<Seq<char>>,
    aircraft: Seq<char>,
) -> (Result<(), ItineraryError>, Set<Seq<char>>, Seq<char>) {
    if fps.len() == 0 {
        (Err(ItineraryError::Data), pads, aircraft)
    } else if fps.len() == 1 {
        (Ok(()), pads.insert(fps[0].origin_vertipad_id).insert(fps[0].target_vertipad_id), fps[0].vehicle_id)
    } else {
        check_connections(fps, 0, pads, aircraft)
    }
}

/// Two consecutive flight plans connect: the second leaves from the vertipad
/// the first lands on, and the first lands after it departs and before the
/// second leaves.
pub open spec fn link_ok(a: FlightPlanScheduleView, b: FlightPlanScheduleView) -> bool {
    &&& a.target_vertipad_id == b.origin_vertipad_id
    &&& a.origin_timeslot_start < a.target_timeslot_start
    &&& a.target_timeslot_end <= b.origin_timeslot_start
}

/// The flight plans from the `k`-th on form an itinerary flown by `aircraft`
/// (or, where it is empty, by the aircraft of the `k`-th): every two
/// consecutive ones connect, every later one is flown by that aircraft, which
/// is named, and each has a path of at least two points.
pub open spec fn itinerary_from(fps: Seq<FlightPlanScheduleView>, k: int, aircraft: Seq<char>) -> bool {
    let ac = if aircraft.len() == 0 { fps[k].vehicle_id } else { aircraft };
    &&& ac.len() > 0
    &&& forall|j: int| k <= j < fps.len() - 1 ==> link_ok(#[trigger] fps[j], fps[j + 1])
    &&& forall|j: int| k < j < fps.len() ==> (#[trigger] fps[j]).vehicle_id == ac
    &&& forall|j: int| k <= j < fps.len() ==> path_problem((#[trigger] fps[j]).path) is None
}

proof fn lemma_check_connections(fps: Seq<FlightPlanScheduleView>, k: int, pads: Set<Seq<char>>, aircraft: Seq<char>)
    requires
        0 <= k < fps.len() - 1,
    ensures
        check_connections(fps, k, pads, aircraft).0 is Ok <==> itinerary_from(fps, k, aircraft),
    decreases fps.len() - k,
{
    let a = fps[k];
    let b = fps[k + 1];
    let ac = if aircraft.len() == 0 { a.vehicle_id } else { aircraft };
    let p = pads.insert(a.origin_vertipad_id).insert(a.target_vertipad_id).insert(b.origin_vertipad_id).insert(b.target_vertipad_id);
    if k + 1 < fps.len() - 1 {
        lemma_check_connections(fps, k + 1, p, ac);
        if itinerary_from(fps, k, aircraft) {
            assert(link_ok(fps[k], fps[k + 1]));
            assert(fps[k + 1].vehicle_id == ac);
            assert(path_problem(fps[k].path) is None);
            assert(path_problem(fps[k + 1].path) is None);
            assert(itinerary_from(fps, k + 1, ac));
            assert(check_connections(fps, k, pads, aircraft) == check_connections(fps, k + 1, p, ac));
        }
        if check_connections(fps, k, pads, aircraft).0 is Ok {
            assert(ac == b.vehicle_id);
            assert(link_ok(a, b));
            assert(path_problem(a.path) is None && path_problem(b.path) is None);
            assert(check_connections(fps, k, pads, aircraft) == check_connections(fps, k + 1, p, ac));
            assert(itinerary_from(fps, k + 1, ac));
            let ac2 = if ac.len() == 0 { fps[k + 1].vehicle_id } else { ac };
            assert(ac2 == ac);
            assert forall|j: int| k < j < fps.len() implies (#[trigger] fps[j]).vehicle_id == ac by {
                if j > k + 1 {
                    assert(fps[j].vehicle_id == ac2);
                }
            }
            assert forall|j: int| k <= j < fps.len() - 1 implies link_ok(#[trigger] fps[j], fps[j + 1]) by {
                if j > k {
                    assert(link_ok(fps[j], fps[j + 1]));
                }
            }
            assert forall|j: int| k <= j < fps.len() implies path_problem((#[trigger] fps[j]).path) is None by {
                if j > k + 1 {
                    assert(path_problem(fps[j].path) is None);
                }
            }
        }
    } else {
        assert(check_connections(fps, k + 1, p, ac).0
            == (if ac.len() == 0 { Err::<(), ItineraryError>(ItineraryError::Data) } else { Ok::<(), ItineraryError>(()) }));
        if itinerary_from(fps, k, aircraft) {
            assert(link_ok(fps[k], fps[k + 1]));
            assert(fps[k + 1].vehicle_id == ac);
            assert(path_problem(fps[k].path) is None);
            assert(path_problem(fps[k + 1].path) is None);
            assert(check_connections(fps, k, pads, aircraft) == check_connections(fps, k + 1, p, ac));
        }
        if check_connections(fps, k, pads, aircraft).0 is Ok {
            assert(check_connections(fps, k, pads, aircraft) == check_connections(fps, k + 1, p, ac));
            assert forall|j: int| k <= j < fps.len() implies path_problem((#[trigger] fps[j]).path) is None by {
                assert(j == k || j == k + 1);
            }
            assert(itinerary_from(fps, k, aircraft));
        }
    }
}

/// Two flight plans or more pass the itinerary check exactly when they form
/// an itinerary (see [`itinerary_from`]); a single one always passes, and
/// none never does.
pub proof fn lemma_itinerary_check(fps: Seq<FlightPlanScheduleView>, pads: Set<Seq<char>>, aircraft: Seq<char>)
    ensures
        fps.len() >= 2 ==> (check_itinerary(fps, pads, aircraft).0 is Ok <==> itinerary_from(fps, 0, aircraft)),
        fps.len() == 1 ==> check_itinerary(fps, pads, aircraft).0 is Ok,
        fps.len() == 0 ==> check_itinerary(fps, pads, aircraft).0 == Err::<(), ItineraryError>(ItineraryError::Data),
{
    if fps.len() >= 2 {
        lemma_check_connections(fps, 0, pads, aircraft);
    }
}

/// Adds an identifier to a list of distinct identifiers.
fn insert_id(ids: &mut Vec<String>, id: &String)
    ensures
        id_set(final(ids)@) == id_set(old(ids)@).insert(id@),
        ids_distinct(old(ids)@) ==> ids_distinct(final(ids)@),
{
    let mut i: usize = 0;
    while i < ids.len()
        invariant
            i <= ids@.len(),
            forall|k: int| 0 <= k < i ==> (#[trigger] ids@[k])@ != id@,
        decreases ids@.len() - i,
    {
        if ids[i] == *id {
            proof {
                assert(id_set(ids@) =~= id_set(ids@).insert(id@)) by {
                    assert(id_set(ids@).contains(id@)) by {
                        assert(ids@[i as int]@ == id@);
                    }
                }
            }
            return;
        }
        i = i + 1;
    }
    let ghost before = ids@;
    ids.push(id.clone());
    proof {
        assert forall|s: Seq<char>| id_set(ids@).contains(s) == id_set(before).insert(id@).contains(s) by {
            if id_set(ids@).contains(s) {
                let k = choose|k: int| 0 <= k < ids@.len() && (#[trigger] ids@[k])@ == s;
                if k < before.len() {
                    assert(before[k] == ids@[k]);
                }
            }
            if id_set(before).contains(s) {
                let k = choose|k: int| 0 <= k < before.len() && (#[trigger] before[k])@ == s;
                assert(ids@[k] == before[k]);
            }
            if s == id@ {
                assert(ids@[before.len() as int]@ == id@);
            }
        }
        assert(id_set(ids@) =~= id_set(before).insert(id@));
        if ids_distinct(before) {
            assert forall|a: int, b: int| 0 <= a < b < ids@.len() implies (#[trigger] ids@[a])@ != (#[trigger] ids@[b])@ by {
                if b < before.len() {
                    assert(ids@[a] == before[a] && ids@[b] == before[b]);
                } else {
                    assert(ids@[a] == before[a]);
                }
            }
        }
    }
}

/// What is wrong with a flight plan's path, if anything.
fn check_path(fp: &FlightPlanSchedule) -> (r: Option<ItineraryError>)
    ensures
        r == path_problem(fp@.path),
{
    match &fp.path {
        None => Some(ItineraryError::NoPath),
        Some(p) => if p.len() < 2 { Some(ItineraryError::PathTooShort) } else { None },
    }
}

/// Checks that flight plans form an itinerary: a single aircraft flies them
/// all, each flight leaves from the vertipad the previous one landed on, and
/// they come in order of time; each needs a path of at least two points. The
/// vertipads of the flight plans are added to `vertipad_ids` and the aircraft
/// is left in `aircraft_id` (see [`check_itinerary`], which also says how far
/// these get when a check fails); a list of distinct vertipads stays so.
pub fn validate_itinerary(
    flight_plans: &[FlightPlanSchedule],
    vertipad_ids: &mut Vec<String>,
    aircraft_id: &mut String,
) -> (r: Result<(), ItineraryError>)
    ensures
        r == check_itinerary(schedule_views(flight_plans@), id_set(old(vertipad_ids)@), old(aircraft_id)@).0,
        id_set(final(vertipad_ids)@) == check_itinerary(schedule_views(flight_plans@), id_set(old(vertipad_ids)@), old(aircraft_id)@).1,
        final(aircraft_id)@ == check_itinerary(schedule_views(flight_plans@), id_set(old(vertipad_ids)@), old(aircraft_id)@).2,
        ids_distinct(old(vertipad_ids)@) ==> ids_distinct(final(vertipad_ids)@),
{
    let ghost fps = schedule_views(flight_plans@);
    let ghost goal = check_itinerary(fps, id_set(vertipad_ids@), aircraft_id@);
    if flight_plans.len() == 0 {
        return Err(ItineraryError::Data);
    }
    if flight_plans.len() == 1 {
        proof {
            assert(fps[0] == flight_plans@[0]@);
        }
        *aircraft_id = flight_plans[0].vehicle_id.clone();
        insert_id(vertipad_ids, &flight_plans[0].origin_vertipad_id);
        insert_id(vertipad_ids, &flight_plans[0].target_vertipad_id);
        return Ok(());
    }
    let last: usize = flight_plans.len() - 1;
    let mut k: usize = 0;
    while k < last
        invariant
            last + 1 == flight_plans@.len(),
            goal == check_itinerary(fps, id_set(old(vertipad_ids)@), old(aircraft_id)@),
            fps == schedule_views(flight_plans@),
            flight_plans@.len() >= 2,
            k + 1 <= flight_plans@.len(),
            goal == check_connections(fps, k as int, id_set(vertipad_ids@), aircraft_id@),
            ids_distinct(old(vertipad_ids)@) ==> ids_distinct(vertipad_ids@),
        decreases flight_plans@.len() - k,
    {
        let fp_1 = &flight_plans[k];
        let fp_2 = &flight_plans[k + 1];
        proof {
            assert(fps[k as int] == fp_1@);
            assert(fps[k + 1] == fp_2@);
        }
        if fp_1.target_vertipad_id != fp_2.origin_vertipad_id {
            return Err(ItineraryError::Vertipads);
        }
        insert_id(vertipad_ids, &fp_1.origin_vertipad_id);
        insert_id(vertipad_ids, &fp_1.target_vertipad_id);
        insert_id(vertipad_ids, &fp_2.origin_vertipad_id);
        insert_id(vertipad_ids, &fp_2.target_vertipad_id);
        if aircraft_id.as_str().is_empty() {
            *aircraft_id = fp_1.vehicle_id.clone();
        }
        if *aircraft_id != fp_2.vehicle_id {
            return Err(ItineraryError::VehicleId);
        }
        if fp_1.origin_timeslot_start >= fp_1.target_timeslot_start {
            return Err(ItineraryError::TimeWindow);
        }
        if fp_1.target_timeslot_end > fp_2.origin_timeslot_start {
            return Err(ItineraryError::TimeWindow);
        }
        match check_path(fp_1) {
            Some(e) => return Err(e),
            None => {},
        }
        match check_path(fp_2) {
            Some(e) => return Err(e),
            None => {},
        }
        k = k + 1;
    }
    if aircraft_id.as_str().is_empty() {
        return Err(ItineraryError::Data);
    }
    Ok(())
}

/// A duration of loading, unloading or flight (ms): not negative, and
/// representable by a calendar date's span.
pub open spec fn is_duration(d: int) -> bool {
    0 <= d <= MAX_TIME_MS
}

/// A flight requested between two vertipads for an aircraft, not yet timed.
#[derive(Debug, Clone)]
pub struct FlightRequest {
    pub origin_vertiport_id: String,
    pub origin_vertipad_id: String,
    pub target_vertiport_id: String,
    pub target_vertipad_id: String,
    pub vehicle_id: String,
    pub path: Option<Vec<PointZ>>,
}

/// The places, aircraft and time limits of a flight without cargo that moves
/// an aircraft to where it is needed.
#[derive(Debug, Clone)]
pub struct DeadheadArgs {
    pub origin_vertiport_id: String,
    pub origin_vertipad_id: String,
    pub target_vertiport_id: String,
    pub target_vertipad_id: String,
    pub vehicle_id: String,
    /// The aircraft cannot leave before this.
    pub aircraft_earliest: i64,
    /// The flight is to land at this time if it can.
    pub vertipad_earliest: i64,
    /// The flight must be over by this time.
    pub arrival_latest: i64,
    pub required_loading_time: i64,
    pub required_unloading_time: i64,
}

/// What the path search answered for a flight without cargo.
pub enum DeadheadPath {
    /// A path (without the vertiports themselves) and the time its flight
    /// takes (ms).
    Found { path: Vec<PointZ>, flight_duration_ms: i64 },
    /// No path between the vertiports within those times.
    NoPathFound,
    /// The path search could not be reached.
    ClientError,
}

/// The flight of a deadhead: it leaves as soon as the aircraft can or just
/// early enough to land at `vertipad_earliest`, whichever is later, and then
/// loads, flies and unloads.
pub open spec fn deadhead_flight(a: DeadheadArgs, path: Seq<PointZ>, duration: i64) -> FlightPlanScheduleView {
    let total = duration + a.required_loading_time + a.required_unloading_time;
    let origin_start = if a.aircraft_earliest >= a.vertipad_earliest - total {
        a.aircraft_earliest as int
    } else {
        a.vertipad_earliest - total
    };
    let origin_end = origin_start + a.required_loading_time;
    let target_start = origin_end + duration;
    let target_end = target_start + a.required_unloading_time;
    FlightPlanScheduleView {
        origin_vertiport_id: a.origin_vertiport_id@,
        origin_vertipad_id: a.origin_vertipad_id@,
        origin_timeslot_start: origin_start as i64,
        origin_timeslot_end: origin_end as i64,
        target_vertiport_id: a.target_vertiport_id@,
        target_vertipad_id: a.target_vertipad_id@,
        target_timeslot_start: target_start as i64,
        target_timeslot_end: target_end as i64,
        vehicle_id: a.vehicle_id@,
        path: Some(path),
    }
}

/// What a deadhead comes to given the path search's answer: its flight, unless
/// that would end after `arrival_latest`.
pub open spec fn deadhead_result(a: DeadheadArgs, outcome: DeadheadPath) -> Result<FlightPlanScheduleView, ItineraryError> {
    match outcome {
        DeadheadPath::NoPathFound => Err(ItineraryError::NoPathFound),
        DeadheadPath::ClientError => Err(ItineraryError::ClientError),
        DeadheadPath::Found { path, flight_duration_ms } => {
            let f = deadhead_flight(a, path@, flight_duration_ms);
            if f.target_timeslot_end > a.arrival_latest {
                Err(ItineraryError::ScheduleConflict)
            } else {
                Ok(f)
            }
        },
    }
}

pub open spec fn deadhead_args_valid(a: DeadheadArgs) -> bool {
    &&& valid_time(a.aircraft_earliest as int)
    &&& valid_time(a.vertipad_earliest as int)
    &&& valid_time(a.arrival_latest as int)
    &&& is_duration(a.required_loading_time as int)
    &&& is_duration(a.required_unloading_time as int)
}

pub open spec fn outcome_valid(outcome: DeadheadPath) -> bool {
    outcome matches DeadheadPath::Found { flight_duration_ms, .. } ==> is_duration(flight_duration_ms as int)
}

/// The flight plan of a deadhead, given the path search's answer (see
/// [`deadhead_result`]).
pub fn deadhead_helper(args: &DeadheadArgs, outcome: DeadheadPath) -> (r: Result<FlightPlanSchedule, ItineraryError>)
    requires
        deadhead_args_valid(*args),
        outcome_valid(outcome),
    ensures
        match r {
            Ok(fp) => deadhead_result(*args, outcome) == Ok::<FlightPlanScheduleView, ItineraryError>(fp@),
            Err(e) => deadhead_result(*args, outcome) == Err::<FlightPlanScheduleView, ItineraryError>(e),
        },
{
    match outcome {
        DeadheadPath::NoPathFound => Err(ItineraryError::NoPathFound),
        DeadheadPath::ClientError => Err(ItineraryError::ClientError),
        DeadheadPath::Found { path, flight_duration_ms } => {
            let total = flight_duration_ms + args.required_loading_time + args.required_unloading_time;
            let latest_start = args.vertipad_earliest - total;
            let origin_timeslot_start = if args.aircraft_earliest >= latest_start {
                args.aircraft_earliest
            } else {
                latest_start
            };
            let origin_timeslot_end = origin_timeslot_start + args.required_loading_time;
            let target_timeslot_start = origin_timeslot_end + flight_duration_ms;
            let target_timeslot_end = target_timeslot_start + args.required_unloading_time;
            if target_timeslot_end > args.arrival_latest {
                return Err(ItineraryError::ScheduleConflict);
            }
            Ok(FlightPlanSchedule {
                origin_vertiport_id: args.origin_vertiport_id.clone(),
                origin_vertipad_id: args.origin_vertipad_id.clone(),
                origin_timeslot_start,
                origin_timeslot_end,
                target_vertiport_id: args.target_vertiport_id.clone(),
                target_vertipad_id: args.target_vertipad_id.clone(),
                target_timeslot_start,
                target_timeslot_end,
                vehicle_id: args.vehicle_id.clone(),
                path: Some(path),
            })
        },
    }
}

/// Where an itinerary's planning stands.
#[derive(Debug, Copy, Clone, PartialEq, Eq, Structural)]
pub enum PlanStage {
    NotStarted,
    /// Waiting for the path of the deadhead to the requested departure.
    ToOrigin,
    /// Waiting for the path of the deadhead back from the requested arrival.
    FromTarget,
    Finished,
}

/// A path search to be made: between two vertiports, within the given times.
#[derive(Debug, Clone)]
pub struct PathQuery {
    pub origin_vertiport_id: String,
    pub target_vertiport_id: String,
    pub time_start: i64,
    pub time_end: i64,
}

/// What the planning of an itinerary asks for next, or its outcome.
pub enum PlanStep {
    FindPath(PathQuery),
    Done(Vec<FlightPlanSchedule>),
    Failed(ItineraryError),
}

pub enum PlanStepView {
    FindPath(Seq<char>, Seq<char>, i64, i64),
    Done(Seq<FlightPlanScheduleView>),
    Failed(ItineraryError),
}

pub open spec fn step_view(s: PlanStep) -> PlanStepView {
    match s {
        PlanStep::FindPath(q) => PlanStepView::FindPath(q.origin_vertiport_id@, q.target_vertiport_id@, q.time_start, q.time_end),
        PlanStep::Done(v) => PlanStepView::Done(schedule_views(v@)),
        PlanStep::Failed(e) => PlanStepView::Failed(e),
    }
}

/// The planning of the flight plans that take an available aircraft through
/// a requested flight: a deadhead to the departure vertiport if the aircraft
/// is elsewhere, the requested flight, and a deadhead back to where the
/// aircraft was available if the flight lands elsewhere. Each deadhead's path
/// is searched by the caller ([`ItineraryPlan::start`],
/// [`ItineraryPlan::on_path`]).
pub struct ItineraryPlan {
    pub flight: FlightRequest,
    pub availability: Availability,
    pub flight_duration: i64,
    pub required_loading_time: i64,
    pub required_unloading_time: i64,
    pub flight_window: Timeslot,
    /// The common part of the availability and the flight window, once
    /// started.
    pub overlap: Timeslot,
    pub stage: PlanStage,
    pub flight_plans: Vec<FlightPlanSchedule>,
}

/// The requested flight, leaving at `origin_start`: loading, flight, unloading.
pub open spec fn main_flight(f: FlightRequest, origin_start: int, duration: i64, loading: i64, unloading: i64) -> FlightPlanScheduleView {
    FlightPlanScheduleView {
        origin_vertiport_id: f.origin_vertiport_id@,
        origin_vertipad_id: f.origin_vertipad_id@,
        origin_timeslot_start: origin_start as i64,
        origin_timeslot_end: (origin_start + loading) as i64,
        target_vertiport_id: f.target_vertiport_id@,
        target_vertipad_id: f.target_vertipad_id@,
        target_timeslot_start: (origin_start + loading + duration) as i64,
        target_timeslot_end: (origin_start + loading + duration + unloading) as i64,
        vehicle_id: f.vehicle_id@,
        path: path_view(f.path),
    }
}

/// The deadhead to the requested departure: from the availability's place,
/// as soon as the aircraft is free, landing when the overlap starts if it can,
/// and over by the overlap's end; no loading.
pub open spec fn to_origin_args(p: ItineraryPlan, overlap: Timeslot) -> DeadheadArgs {
    DeadheadArgs {
        origin_vertiport_id: p.availability.vertiport_id,
        origin_vertipad_id: p.availability.vertipad_id,
        target_vertiport_id: p.flight.origin_vertiport_id,
        target_vertipad_id: p.flight.origin_vertipad_id,
        vehicle_id: p.flight.vehicle_id,
        aircraft_earliest: p.availability.timeslot.time_start,
        vertipad_earliest: overlap.time_start,
        arrival_latest: overlap.time_end,
        required_loading_time: 0,
        required_unloading_time: 0,
    }
}

/// The deadhead back to the availability's place after the requested flight
/// lands at `arrival`, over by the end of the availability; no loading.
pub open spec fn from_target_args(p: ItineraryPlan, arrival: i64) -> DeadheadArgs {
    DeadheadArgs {
        origin_vertiport_id: p.flight.target_vertiport_id,
        origin_vertipad_id: p.flight.target_vertipad_id,
        target_vertiport_id: p.availability.vertiport_id,
        target_vertipad_id: p.availability.vertipad_id,
        vehicle_id: p.flight.vehicle_id,
        aircraft_earliest: arrival,
        vertipad_earliest: arrival,
        arrival_latest: p.availability.timeslot.time_end,
        required_loading_time: 0,
        required_unloading_time: 0,
    }
}

/// The step after the flights so far (`plans`), the requested flight leaving
/// at `origin_start`: it must land and unload by the overlap's end; then the
/// deadhead back, if the flight lands away from the availability's place.
pub open spec fn after_main(p: ItineraryPlan, plans: Seq<FlightPlanScheduleView>, origin_start: int) -> (PlanStepView, PlanStage, Seq<FlightPlanScheduleView>) {
    let m = main_flight(p.flight, origin_start, p.flight_duration, p.required_loading_time, p.required_unloading_time);
    if m.target_timeslot_end > p.overlap.time_end {
        (PlanStepView::Failed(ItineraryError::ScheduleConflict), PlanStage::Finished, plans)
    } else if p.flight.target_vertiport_id@ != p.availability.vertiport_id@ {
        (
            PlanStepView::FindPath(p.flight.target_vertiport_id@, p.availability.vertiport_id@, m.target_timeslot_end, m.target_timeslot_end),
            PlanStage::FromTarget,
            plans.push(m),
        )
    } else {
        (PlanStepView::Done(plans.push(m)), PlanStage::Finished, plans.push(m))
    }
}

/// The first step of the planning: nothing when the availability and the
/// flight window do not overlap; else the deadhead to the departure, or, when
/// the aircraft is already there, the requested flight leaving as early as the
/// window and the availability allow.
pub open spec fn start_step(p: ItineraryPlan) -> (PlanStepView, PlanStage, Seq<FlightPlanScheduleView>) {
    match timeslot_overlap(p.availability.timeslot, p.flight_window) {
        Err(_) => (PlanStepView::Failed(ItineraryError::ScheduleConflict), PlanStage::Finished, Seq::empty()),
        Ok(overlap) => if p.flight.origin_vertiport_id@ != p.availability.vertiport_id@ {
            (
                PlanStepView::FindPath(p.availability.vertiport_id@, p.flight.origin_vertiport_id@, p.availability.timeslot.time_start, overlap.time_start),
                PlanStage::ToOrigin,
                Seq::empty(),
            )
        } else {
            after_main(
                ItineraryPlan { overlap, ..p },
                Seq::empty(),
                later(p.flight_window.time_start, p.availability.timeslot.time_start) as int,
            )
        },
    }
}

/// The step after a deadhead's path search: a deadhead that cannot be flown
/// is a schedule conflict; the deadhead to the departure is followed by the
/// requested flight, leaving when the deadhead is over; the deadhead back
/// completes the itinerary.
pub open spec fn path_step(p: ItineraryPlan, outcome: DeadheadPath) -> (PlanStepView, PlanStage, Seq<FlightPlanScheduleView>) {
    let plans = schedule_views(p.flight_plans@);
    if p.stage == PlanStage::ToOrigin {
        match deadhead_result(to_origin_args(p, p.overlap), outcome) {
            Err(_) => (PlanStepView::Failed(ItineraryError::ScheduleConflict), PlanStage::Finished, plans),
            Ok(d) => after_main(p, plans.push(d), d.target_timeslot_end as int),
        }
    } else {
        let arrival = plans.last().target_timeslot_end;
        match deadhead_result(from_target_args(p, arrival), outcome) {
            Err(_) => (PlanStepView::Failed(ItineraryError::ScheduleConflict), PlanStage::Finished, plans),
            Ok(d) => (PlanStepView::Done(plans.push(d)), PlanStage::Finished, plans.push(d)),
        }
    }
}

/// The deadhead back from the requested flight's target: once the requested
/// flight has landed, a path found for the way back completes the itinerary
/// exactly when the flight back, leaving on arrival, lands by the end of the
/// aircraft's availability (whatever the flight window); it then flies from
/// the flight's target vertipad to the availability's place, leaving on
/// arrival and landing the path's flight time later. Without a path, the
/// itinerary is a schedule conflict.
pub proof fn lemma_deadhead_back(p: ItineraryPlan, path: Vec<PointZ>, flight_duration_ms: i64)
    requires
        p.wf(),
        p.stage == PlanStage::FromTarget,
        is_duration(flight_duration_ms as int),
    ensures
        ({
            let plans = schedule_views(p.flight_plans@);
            let arrival = plans.last().target_timeslot_end;
            let step = path_step(p, DeadheadPath::Found { path, flight_duration_ms });
            &&& (step.0 is Done) <==> arrival + flight_duration_ms <= p.availability.timeslot.time_end
            &&& !(step.0 is Done) ==> step.0 == PlanStepView::Failed(ItineraryError::ScheduleConflict)
            &&& path_step(p, DeadheadPath::NoPathFound).0 == PlanStepView::Failed(ItineraryError::ScheduleConflict)
            &&& path_step(p, DeadheadPath::ClientError).0 == PlanStepView::Failed(ItineraryError::ScheduleConflict)
            &&& step.0 matches PlanStepView::Done(v) ==> {
                &&& v.len() == plans.len() + 1
                &&& v.take(plans.len() as int) == plans
                &&& v.last().origin_vertiport_id == p.flight.target_vertiport_id@
                &&& v.last().origin_vertipad_id == p.flight.target_vertipad_id@
                &&& v.last().target_vertiport_id == p.availability.vertiport_id@
                &&& v.last().target_vertipad_id == p.availability.vertipad_id@
                &&& v.last().origin_timeslot_start == arrival
                &&& v.last().target_timeslot_end == arrival + flight_duration_ms
            }
        }),
{
    let plans = schedule_views(p.flight_plans@);
    assert(plans.last() == p.flight_plans@.last()@);
    let step = path_step(p, DeadheadPath::Found { path, flight_duration_ms });
    assert(path_step(p, DeadheadPath::NoPathFound).0 == PlanStepView::Failed(ItineraryError::ScheduleConflict));
    assert(path_step(p, DeadheadPath::ClientError).0 == PlanStepView::Failed(ItineraryError::ScheduleConflict));
    if step.0 is Done {
        let v = step.0->Done_0;
        assert(v.take(plans.len() as int) =~= plans);
    }
}

impl ItineraryPlan {
    /// The times are instants of calendar dates and the durations are
    /// durations; while a deadhead is pending, the overlap is made of such
    /// instants, and so is the arrival of the flights so far.
    pub open spec fn wf(&self) -> bool {
        &&& self.availability.timeslot.valid()
        &&& self.flight_window.valid()
        &&& is_duration(self.flight_duration as int)
        &&& is_duration(self.required_loading_time as int)
        &&& is_duration(self.required_unloading_time as int)
        &&& (self.stage == PlanStage::ToOrigin || self.stage == PlanStage::FromTarget) ==> self.overlap.valid()
        &&& self.stage == PlanStage::FromTarget ==> self.flight_plans@.len() > 0
            && valid_time(self.flight_plans@.last().target_timeslot_end as int)
    }

    /// A planning not yet started.
    pub fn new(
        flight: FlightRequest,
        availability: Availability,
        flight_duration: i64,
        required_loading_time: i64,
        required_unloading_time: i64,
        flight_window: Timeslot,
    ) -> (r: ItineraryPlan)
        ensures
            r.flight == flight,
            r.availability == availability,
            r.flight_duration == flight_duration,
            r.required_loading_time == required_loading_time,
            r.required_unloading_time == required_unloading_time,
            r.flight_window == flight_window,
            r.stage == PlanStage::NotStarted,
            r.flight_plans@.len() == 0,
    {
        ItineraryPlan {
            flight,
            availability,
            flight_duration,
            required_loading_time,
            required_unloading_time,
            flight_window,
            overlap: flight_window,
            stage: PlanStage::NotStarted,
            flight_plans: Vec::new(),
        }
    }

    /// Schedules the requested flight leaving at `origin_start` (see
    /// [`after_main`]).
    fn plan_main(&mut self, origin_start: i64) -> (r: PlanStep)
        requires
            old(self).wf(),
            old(self).stage == PlanStage::ToOrigin,
            valid_time(origin_start as int),
        ensures
            final(self).wf(),
            final(self).flight == old(self).flight,
            final(self).availability == old(self).availability,
            final(self).overlap == old(self).overlap,
            (step_view(r), final(self).stage, schedule_views(final(self).flight_plans@))
                == after_main(*old(self), schedule_views(old(self).flight_plans@), origin_start as int),
    {
        let origin_timeslot_end = origin_start + self.required_loading_time;
        let target_timeslot_start = origin_timeslot_end + self.flight_duration;
        let target_timeslot_end = target_timeslot_start + self.required_unloading_time;
        if target_timeslot_end > self.overlap.time_end {
            self.stage = PlanStage::Finished;
            return PlanStep::Failed(ItineraryError::ScheduleConflict);
        }
        let main = FlightPlanSchedule {
            origin_vertiport_id: self.flight.origin_vertiport_id.clone(),
            origin_vertipad_id: self.flight.origin_vertipad_id.clone(),
            origin_timeslot_start: origin_start,
            origin_timeslot_end,
            target_vertiport_id: self.flight.target_vertiport_id.clone(),
            target_vertipad_id: self.flight.target_vertipad_id.clone(),
            target_timeslot_start,
            target_timeslot_end,
            vehicle_id: self.flight.vehicle_id.clone(),
            path: copy_path(&self.flight.path),
        };
        let ghost before = self.flight_plans@;
        self.flight_plans.push(main);
        proof {
            assert(schedule_views(self.flight_plans@) =~= schedule_views(before).push(main@));
        }
        if self.flight.target_vertiport_id != self.availability.vertiport_id {
            self.stage = PlanStage::FromTarget;
            PlanStep::FindPath(PathQuery {
                origin_vertiport_id: self.flight.target_vertiport_id.clone(),
                target_vertiport_id: self.availability.vertiport_id.clone(),
                time_start: target_timeslot_end,
                time_end: target_timeslot_end,
            })
        } else {
            self.stage = PlanStage::Finished;
            let plans = copy_schedules(&self.flight_plans);
            PlanStep::Done(plans)
        }
    }

    /// Starts the planning (see [`start_step`]).
    pub fn start(&mut self) -> (r: PlanStep)
        requires
            old(self).wf(),
            old(self).stage == PlanStage::NotStarted,
            old(self).flight_plans@.len() == 0,
        ensures
            final(self).wf(),
            final(self).flight == old(self).flight,
            final(self).availability == old(self).availability,
            final(self).stage != PlanStage::NotStarted,
            (step_view(r), final(self).stage, schedule_views(final(self).flight_plans@)) == start_step(*old(self)),
    {
        let overlap = match self.availability.timeslot.overlap(&self.flight_window) {
            Ok(o) => o,
            Err(_) => {
                self.stage = PlanStage::Finished;
                proof {
                    assert(schedule_views(self.flight_plans@) =~= Seq::<FlightPlanScheduleView>::empty());
                }
                return PlanStep::Failed(ItineraryError::ScheduleConflict);
            },
        };
        self.overlap = overlap;
        if self.flight.origin_vertiport_id != self.availability.vertiport_id {
            self.stage = PlanStage::ToOrigin;
            proof {
                assert(schedule_views(self.flight_plans@) =~= Seq::<FlightPlanScheduleView>::empty());
            }
            return PlanStep::FindPath(PathQuery {
                origin_vertiport_id: self.availability.vertiport_id.clone(),
                target_vertiport_id: self.flight.origin_vertiport_id.clone(),
                time_start: self.availability.timeslot.time_start,
                time_end: overlap.time_start,
            });
        }
        self.stage = PlanStage::ToOrigin;
        let origin_start = if self.flight_window.time_start >= self.availability.timeslot.time_start {
            self.flight_window.time_start
        } else {
            self.availability.timeslot.time_start
        };
        proof {
            assert(schedule_views(self.flight_plans@) =~= Seq::<FlightPlanScheduleView>::empty());
        }
        self.plan_main(origin_start)
    }

    /// Takes the path search's answer for the pending deadhead (see
    /// [`path_step`]).
    pub fn on_path(&mut self, outcome: DeadheadPath) -> (r: PlanStep)
        requires
            old(self).wf(),
            old(self).stage == PlanStage::ToOrigin || old(self).stage == PlanStage::FromTarget,
            outcome_valid(outcome),
        ensures
            final(self).wf(),
            final(self).flight == old(self).flight,
            final(self).availability == old(self).availability,
            final(self).stage != PlanStage::NotStarted,
            (step_view(r), final(self).stage, schedule_views(final(self).flight_plans@)) == path_step(*old(self), outcome),
    {
        let ghost plans = schedule_views(self.flight_plans@);
        if self.stage == PlanStage::ToOrigin {
            let args = DeadheadArgs {
                origin_vertiport_id: self.availability.vertiport_id.clone(),
                origin_vertipad_id: self.availability.vertipad_id.clone(),
                target_vertiport_id: self.flight.origin_vertiport_id.clone(),
                target_vertipad_id: self.flight.origin_vertipad_id.clone(),
                vehicle_id: self.flight.vehicle_id.clone(),
                aircraft_earliest: self.availability.timeslot.time_start,
                vertipad_earliest: self.overlap.time_start,
                arrival_latest: self.overlap.time_end,
                required_loading_time: 0,
                required_unloading_time: 0,
            };
            proof {
                assert(args == to_origin_args(*self, self.overlap));
            }
            match deadhead_helper(&args, outcome) {
                Err(_) => {
                    self.stage = PlanStage::Finished;
                    PlanStep::Failed(ItineraryError::ScheduleConflict)
                },
                Ok(deadhead) => {
                    let arrival = deadhead.target_timeslot_end;
                    let ghost before = self.flight_plans@;
                    self.flight_plans.push(deadhead);
                    proof {
                        assert(schedule_views(self.flight_plans@) =~= plans.push(deadhead@));
                    }
                    self.plan_main(arrival)
                },
            }
        } else {
            let n = self.flight_plans.len();
            let arrival = self.flight_plans[n - 1].target_timeslot_end;
            proof {
                assert(plans.last() == self.flight_plans@[n - 1]@);
            }
            let args = DeadheadArgs {
                origin_vertiport_id: self.flight.target_vertiport_id.clone(),
                origin_vertipad_id: self.flight.target_vertipad_id.clone(),
                target_vertiport_id: self.availability.vertiport_id.clone(),
                target_vertipad_id: self.availability.vertipad_id.clone(),
                vehicle_id: self.flight.vehicle_id.clone(),
                aircraft_earliest: arrival,
                vertipad_earliest: arrival,
                arrival_latest: self.availability.timeslot.time_end,
                required_loading_time: 0,
                required_unloading_time: 0,
            };
            proof {
                assert(args == from_target_args(*self, arrival));
            }
            match deadhead_helper(&args, outcome) {
                Err(_) => {
                    self.stage = PlanStage::Finished;
                    PlanStep::Failed(ItineraryError::ScheduleConflict)
                },
                Ok(deadhead) => {
                    self.flight_plans.push(deadhead);
                    proof {
                        assert(schedule_views(self.flight_plans@) =~= plans.push(deadhead@));
                    }
                    self.stage = PlanStage::Finished;
                    let done = copy_schedules(&self.flight_plans);
                    PlanStep::Done(done)
                },
            }
        }
    }
}

/// The availabilities of all aircraft, each with its aircraft, aircraft by
/// aircraft.
pub open spec fn flatten_availabilities(g: Seq<(Seq<char>, Seq<AvailabilityView>)>) -> Seq<(Seq<char>, AvailabilityView)>
    decreases g.len(),
{
    if g.len() == 0 {
        Seq::empty()
    } else {
        let id = g.last().0;
        flatten_availabilities(g.drop_last()) + g.last().1.map_values(|a: AvailabilityView| (id, a))
    }
}

/// Orders aircraft availabilities by their start.
pub open spec fn availability_start_key() -> spec_fn((Seq<char>, AvailabilityView)) -> int {
    |p: (Seq<char>, AvailabilityView)| p.1.timeslot.time_start as int
}

/// The availabilities of all aircraft, each with its aircraft, in order of
/// their start (aircraft by aircraft where starts are equal).
pub open spec fn ordered_availabilities(g: Seq<(Seq<char>, Seq<AvailabilityView>)>) -> Seq<(Seq<char>, AvailabilityView)> {
    sort_by(flatten_availabilities(g), availability_start_key())
}

pub open spec fn aircraft_availability_views(v: Seq<(String, Availability)>) -> Seq<(Seq<char>, AvailabilityView)> {
    v.map_values(|p: (String, Availability)| (p.0@, p.1@))
}

/// A copy of an availability.
fn clone_availability(a: &Availability) -> (r: Availability)
    ensures
        r@ == a@,
{
    Availability { timeslot: a.timeslot, vertiport_id: a.vertiport_id.clone(), vertipad_id: a.vertipad_id.clone() }
}

fn flatten_availabilities_exec(groups: &Vec<(String, Vec<Availability>)>) -> (r: Vec<(String, Availability)>)
    ensures
        aircraft_availability_views(r@) == flatten_availabilities(group_views(groups@)),
{
    let ghost gv = group_views(groups@);
    let mut r: Vec<(String, Availability)> = Vec::new();
    let mut i: usize = 0;
    proof {
        assert(gv.take(0) =~= Seq::<(Seq<char>, Seq<AvailabilityView>)>::empty());
        assert(aircraft_availability_views(r@) =~= Seq::<(Seq<char>, AvailabilityView)>::empty());
    }
    while i < groups.len()
        invariant
            gv == group_views(groups@),
            i <= groups@.len(),
            aircraft_availability_views(r@) == flatten_availabilities(gv.take(i as int)),
        decreases groups@.len() - i,
    {
        let id = &groups[i].0;
        let avs = &groups[i].1;
        let ghost base = aircraft_availability_views(r@);
        let ghost added = availability_views(avs@).map_values(|a: AvailabilityView| (id@, a));
        let mut j: usize = 0;
        proof {
            assert(aircraft_availability_views(r@) =~= base + added.take(0));
        }
        while j < avs.len()
            invariant
                j <= avs@.len(),
                added == availability_views(avs@).map_values(|a: AvailabilityView| (id@, a)),
                aircraft_availability_views(r@) == base + added.take(j as int),
            decreases avs@.len() - j,
        {
            let ghost before = r@;
            r.push((id.clone(), clone_availability(&avs[j])));
            proof {
                assert(aircraft_availability_views(r@) =~= aircraft_availability_views(before).push(added[j as int]));
                assert(added.take(j + 1) =~= added.take(j as int).push(added[j as int]));
            }
            j = j + 1;
        }
        proof {
            assert(added.take(j as int) =~= added);
            assert(gv.take(i + 1).drop_last() =~= gv.take(i as int));
            assert(gv.take(i + 1).last() == (id@, availability_views(avs@)));
        }
        i = i + 1;
    }
    proof {
        assert(gv.take(i as int) =~= gv);
    }
    r
}

/// Inserts an aircraft availability after the last one that starts no later.
fn insert_availability_by_start(v: &mut Vec<(String, Availability)>, x: (String, Availability))
    ensures
        aircraft_availability_views(final(v)@) == insert_by(aircraft_availability_views(old(v)@), (x.0@, x.1@), availability_start_key()),
{
    let ghost vs = aircraft_availability_views(v@);
    let ghost xv = (x.0@, x.1@);
    let mut j: usize = v.len();
    while j > 0
        invariant
            vs == aircraft_availability_views(v@),
            xv == (x.0@, x.1@),
            j <= v@.len(),
            forall|k: int| j <= k < vs.len() ==> availability_start_key()(#[trigger] vs[k]) > availability_start_key()(xv),
        ensures
            j == 0 || vs[j - 1].1.timeslot.time_start <= xv.1.timeslot.time_start,
        decreases j,
    {
        proof {
            assert(vs[j - 1] == (v@[j - 1].0@, v@[j - 1].1@));
        }
        if v[j - 1].1.timeslot.time_start <= x.1.timeslot.time_start {
            break;
        }
        j = j - 1;
    }
    proof {
        lemma_insert_by(vs, xv, availability_start_key(), j as int);
    }
    v.insert(j, x);
    proof {
        assert(aircraft_availability_views(v@) =~= vs.take(j as int).push(xv) + vs.skip(j as int));
    }
}

/// The availabilities of all aircraft, each with its aircraft, in order of
/// their start (see [`ordered_availabilities`]).
pub fn order_availabilities(aircraft_gaps: &Vec<(String, Vec<Availability>)>) -> (r: Vec<(String, Availability)>)
    ensures
        aircraft_availability_views(r@) == ordered_availabilities(group_views(aircraft_gaps@)),
{
    let flat = flatten_availabilities_exec(aircraft_gaps);
    let ghost fv = aircraft_availability_views(flat@);
    let mut r: Vec<(String, Availability)> = Vec::new();
    let mut i: usize = 0;
    proof {
        assert(fv.take(0) =~= Seq::<(Seq<char>, AvailabilityView)>::empty());
        assert(aircraft_availability_views(r@) =~= Seq::<(Seq<char>, AvailabilityView)>::empty());
    }
    while i < flat.len()
        invariant
            fv == aircraft_availability_views(flat@),
            i <= flat@.len(),
            aircraft_availability_views(r@) == sort_by(fv.take(i as int), availability_start_key()),
        decreases flat@.len() - i,
    {
        let x = (flat[i].0.clone(), clone_availability(&flat[i].1));
        proof {
            assert(fv.take(i + 1).drop_last() =~= fv.take(i as int));
            assert(fv.take(i + 1).last() == (x.0@, x.1@));
        }
        insert_availability_by_start(&mut r, x);
        i = i + 1;
    }
    proof {
        assert(fv.take(i as int) =~= fv);
    }
    r
}

/// What the search for itineraries asks for next, or its outcome.
pub enum SearchStep {
    /// The itinerary of one aircraft availability for one timeslot pair is
    /// to be planned; its outcome goes to [`ItinerarySearch::on_itinerary`].
    Plan(ItineraryPlan),
    Done(Vec<Vec<FlightPlanSchedule>>),
    Failed(ItineraryError),
}

/// The next (timeslot pair, aircraft availability) to plan from `(p, a)` on,
/// as the search for itineraries takes them: pairs in order, and for each
/// the availabilities in order; a pair whose flight time could not be
/// estimated fails the search, and a pair whose departure does not start
/// before its arrival ends is passed over. `None` for the position means the
/// search fails with that error; `p` beyond the pairs means it is over.
pub open spec fn next_plan(
    pairs: Seq<TimeslotPairView>,
    durations: Seq<Option<i64>>,
    n_availabilities: int,
    found: int,
    p: int,
    a: int,
) -> Result<(int, int), ItineraryError>
    decreases pairs.len() - p, n_availabilities + 1 - a,
{
    if found >= MAX_ITINERARIES || p >= pairs.len() {
        Ok((pairs.len() as int, 0))
    } else if a <= 0 && durations[p] is None {
        Err(ItineraryError::Internal)
    } else if a <= 0 && pairs[p].origin_timeslot.time_start >= pairs[p].target_timeslot.time_end {
        next_plan(pairs, durations, n_availabilities, found, p + 1, 0)
    } else if a >= n_availabilities {
        next_plan(pairs, durations, n_availabilities, found, p + 1, 0)
    } else {
        Ok((p, a))
    }
}

/// The search for itineraries: for each timeslot pair in order, each aircraft
/// availability in order of its start is tried, until enough itineraries are
/// found.
pub struct ItinerarySearch {
    pub required_loading_time: i64,
    pub required_unloading_time: i64,
    pub timeslot_pairs: Vec<TimeslotPair>,
    /// The flight time of each pair's path (ms), `None` where it could not be
    /// estimated.
    pub flight_durations: Vec<Option<i64>>,
    pub ordered: Vec<(String, Availability)>,
    pub pair_index: usize,
    pub availability_index: usize,
    pub itineraries: Vec<Vec<FlightPlanSchedule>>,
}

pub open spec fn itinerary_views(v: Seq<Vec<FlightPlanSchedule>>) -> Seq<Seq<FlightPlanScheduleView>> {
    v.map_values(|it: Vec<FlightPlanSchedule>| schedule_views(it@))
}

impl ItinerarySearch {
    pub open spec fn wf(&self) -> bool {
        &&& is_duration(self.required_loading_time as int)
        &&& is_duration(self.required_unloading_time as int)
        &&& self.flight_durations@.len() == self.timeslot_pairs@.len()
        &&& forall|k: int| 0 <= k < self.flight_durations@.len() ==> (#[trigger] self.flight_durations@[k] matches Some(d) ==> is_duration(d as int))
        &&& forall|k: int| 0 <= k < self.timeslot_pairs@.len() ==> (#[trigger] self.timeslot_pairs@[k]).origin_timeslot.valid()
            && self.timeslot_pairs@[k].target_timeslot.valid()
        &&& forall|k: int| 0 <= k < self.ordered@.len() ==> (#[trigger] self.ordered@[k]).1.timeslot.valid()
        &&& self.availability_index <= self.ordered@.len()
        &&& self.pair_index <= self.timeslot_pairs@.len()
        &&& self.availability_index > 0 && self.pair_index < self.timeslot_pairs@.len()
            ==> self.flight_durations@[self.pair_index as int] is Some
    }

    /// A search over the timeslot pairs, with the availabilities of the
    /// aircraft in order of their start.
    pub fn new(
        required_loading_time: i64,
        required_unloading_time: i64,
        timeslot_pairs: Vec<TimeslotPair>,
        flight_durations: Vec<Option<i64>>,
        aircraft_gaps: &Vec<(String, Vec<Availability>)>,
    ) -> (r: ItinerarySearch)
        ensures
            r.required_loading_time == required_loading_time,
            r.required_unloading_time == required_unloading_time,
            r.timeslot_pairs@ == timeslot_pairs@,
            r.flight_durations@ == flight_durations@,
            aircraft_availability_views(r.ordered@) == ordered_availabilities(group_views(aircraft_gaps@)),
            r.pair_index == 0,
            r.availability_index == 0,
            r.itineraries@.len() == 0,
    {
        ItinerarySearch {
            required_loading_time,
            required_unloading_time,
            timeslot_pairs,
            flight_durations,
            ordered: order_availabilities(aircraft_gaps),
            pair_index: 0,
            availability_index: 0,
            itineraries: Vec::new(),
        }
    }

    /// Moves to the next (timeslot pair, availability) to plan (see
    /// [`next_plan`]) and returns its planning: the pair's vertipads and path
    /// flown by the availability's aircraft, within the pair's departure start
    /// and arrival end; or the search's outcome.
    pub fn next(&mut self) -> (r: SearchStep)
        requires
            old(self).wf(),
        ensures
            final(self).wf(),
            final(self).required_loading_time == old(self).required_loading_time,
            final(self).required_unloading_time == old(self).required_unloading_time,
            final(self).timeslot_pairs@ == old(self).timeslot_pairs@,
            final(self).flight_durations@ == old(self).flight_durations@,
            final(self).ordered@ == old(self).ordered@,
            final(self).itineraries@ == old(self).itineraries@,
            ({
                let goal = next_plan(
                    pair_views(old(self).timeslot_pairs@),
                    old(self).flight_durations@,
                    old(self).ordered@.len() as int,
                    old(self).itineraries@.len() as int,
                    old(self).pair_index as int,
                    old(self).availability_index as int,
                );
                match goal {
                    Err(e) => r == SearchStep::Failed(e),
                    Ok((p, a)) => {
                        &&& final(self).pair_index == p
                        &&& final(self).availability_index == a
                        &&& if p >= old(self).timeslot_pairs@.len() {
                            r matches SearchStep::Done(v) && itinerary_views(v@) == itinerary_views(old(self).itineraries@)
                        } else {
                            let pair = old(self).timeslot_pairs@[p];
                            let av = old(self).ordered@[a];
                            r matches SearchStep::Plan(plan) && {
                                &&& plan.flight.origin_vertiport_id@ == pair.origin_vertiport_id@
                                &&& plan.flight.origin_vertipad_id@ == pair.origin_vertipad_id@
                                &&& plan.flight.target_vertiport_id@ == pair.target_vertiport_id@
                                &&& plan.flight.target_vertipad_id@ == pair.target_vertipad_id@
                                &&& plan.flight.vehicle_id@ == av.0@
                                &&& path_view(plan.flight.path) == Some(pair.path@)
                                &&& plan.availability@ == av.1@
                                &&& Some(plan.flight_duration) == old(self).flight_durations@[p]
                                &&& plan.required_loading_time == old(self).required_loading_time
                                &&& plan.required_unloading_time == old(self).required_unloading_time
                                &&& plan.flight_window == Timeslot {
                                    time_start: pair.origin_timeslot.time_start,
                                    time_end: pair.target_timeslot.time_end,
                                }
                                &&& plan.stage == PlanStage::NotStarted
                                &&& plan.flight_plans@.len() == 0
                                &&& plan.wf()
                            }
                        }
                    },
                }
            }),
    {
        let ghost pv = pair_views(self.timeslot_pairs@);
        let ghost goal = next_plan(pv, self.flight_durations@, self.ordered@.len() as int, self.itineraries@.len() as int, self.pair_index as int, self.availability_index as int);
        loop
            invariant
                self.wf(),
                pv == pair_views(self.timeslot_pairs@),
                self.required_loading_time == old(self).required_loading_time,
                self.required_unloading_time == old(self).required_unloading_time,
                self.timeslot_pairs@ == old(self).timeslot_pairs@,
                self.flight_durations@ == old(self).flight_durations@,
                self.ordered@ == old(self).ordered@,
                self.itineraries@ == old(self).itineraries@,
                goal == next_plan(pv, self.flight_durations@, self.ordered@.len() as int, self.itineraries@.len() as int, self.pair_index as int, self.availability_index as int),
                goal == next_plan(pair_views(old(self).timeslot_pairs@), old(self).flight_durations@, old(self).ordered@.len() as int, old(self).itineraries@.len() as int, old(self).pair_index as int, old(self).availability_index as int),
            decreases self.timeslot_pairs@.len() - self.pair_index, self.ordered@.len() + 1 - self.availability_index,
        {
            if self.itineraries.len() >= MAX_ITINERARIES || self.pair_index >= self.timeslot_pairs.len() {
                self.pair_index = self.timeslot_pairs.len();
                self.availability_index = 0;
                let done = clone_itineraries(&self.itineraries);
                return SearchStep::Done(done);
            }
            let p = self.pair_index;
            let a = self.availability_index;
            proof {
                assert(pv[p as int] == self.timeslot_pairs@[p as int]@);
            }
            if a == 0 {
                match self.flight_durations[p] {
                    None => {
                        proof {
                            assert(next_plan(pv, self.flight_durations@, self.ordered@.len() as int, self.itineraries@.len() as int, p as int, a as int)
                                == Err::<(int, int), ItineraryError>(ItineraryError::Internal));
                        }
                        return SearchStep::Failed(ItineraryError::Internal);
                    },
                    Some(_) => {},
                }
                if self.timeslot_pairs[p].origin_timeslot.time_start >= self.timeslot_pairs[p].target_timeslot.time_end {
                    self.pair_index = p + 1;
                    self.availability_index = 0;
                    continue;
                }
            }
            if a >= self.ordered.len() {
                self.pair_index = p + 1;
                self.availability_index = 0;
                continue;
            }
            proof {
                assert(next_plan(pv, self.flight_durations@, self.ordered@.len() as int, self.itineraries@.len() as int, p as int, a as int) == Ok::<(int, int), ItineraryError>((p as int, a as int)));
            }
            let pair = &self.timeslot_pairs[p];
            let duration = match self.flight_durations[p] {
                Some(d) => d,
                None => return SearchStep::Failed(ItineraryError::Internal),
            };
            let flight = FlightRequest {
                origin_vertiport_id: pair.origin_vertiport_id.clone(),
                origin_vertipad_id: pair.origin_vertipad_id.clone(),
                target_vertiport_id: pair.target_vertiport_id.clone(),
                target_vertipad_id: pair.target_vertipad_id.clone(),
                vehicle_id: self.ordered[a].0.clone(),
                path: Some(copy_points(&pair.path)),
            };
            let plan = ItineraryPlan::new(
                flight,
                clone_availability(&self.ordered[a].1),
                duration,
                self.required_loading_time,
                self.required_unloading_time,
                Timeslot { time_start: pair.origin_timeslot.time_start, time_end: pair.target_timeslot.time_end },
            );
            return SearchStep::Plan(plan);
        }
    }

    /// Takes the outcome of the planning asked for by [`ItinerarySearch::next`]:
    /// an itinerary is kept; a planning that could not reach a dependency
    /// fails the search; then the next availability comes.
    pub fn on_itinerary(&mut self, outcome: Result<Vec<FlightPlanSchedule>, ItineraryError>) -> (r: Result<(), ItineraryError>)
        requires
            old(self).wf(),
            old(self).availability_index < old(self).ordered@.len(),
            old(self).pair_index < old(self).timeslot_pairs@.len(),
            old(self).flight_durations@[old(self).pair_index as int] is Some,
        ensures
            final(self).wf(),
            final(self).required_loading_time == old(self).required_loading_time,
            final(self).required_unloading_time == old(self).required_unloading_time,
            final(self).timeslot_pairs@ == old(self).timeslot_pairs@,
            final(self).flight_durations@ == old(self).flight_durations@,
            final(self).ordered@ == old(self).ordered@,
            final(self).pair_index == old(self).pair_index,
            match outcome {
                Ok(it) => r is Ok && final(self).availability_index == old(self).availability_index + 1
                    && itinerary_views(final(self).itineraries@) == itinerary_views(old(self).itineraries@).push(schedule_views(it@)),
                Err(ItineraryError::ClientError) => r == Err::<(), ItineraryError>(ItineraryError::ClientError)
                    && final(self).availability_index == old(self).availability_index
                    && final(self).itineraries@ == old(self).itineraries@,
                Err(_) => r is Ok && final(self).availability_index == old(self).availability_index + 1
                    && final(self).itineraries@ == old(self).itineraries@,
            },
    {
        let n = self.ordered.len();
        match outcome {
            Ok(it) => {
                let ghost before = self.itineraries@;
                let ghost itv = schedule_views(it@);
                self.itineraries.push(it);
                proof {
                    assert(itinerary_views(self.itineraries@) =~= itinerary_views(before).push(itv));
                }
                self.availability_index = self.availability_index + 1;
                Ok(())
            },
            Err(ItineraryError::ClientError) => Err(ItineraryError::ClientError),
            Err(_) => {
                self.availability_index = self.availability_index + 1;
                Ok(())
            },
        }
    }
}

/// A copy of a list of itineraries.
fn clone_itineraries(v: &Vec<Vec<FlightPlanSchedule>>) -> (r: Vec<Vec<FlightPlanSchedule>>)
    ensures
        itinerary_views(r@) == itinerary_views(v@),
{
    let mut r: Vec<Vec<FlightPlanSchedule>> = Vec::new();
    let mut i: usize = 0;
    while i < v.len()
        invariant
            i <= v@.len(),
            itinerary_views(r@) == itinerary_views(v@).take(i as int),
        decreases v@.len() - i,
    {
        let ghost before = r@;
        r.push(copy_schedules(&v[i]));
        proof {
            assert(itinerary_views(r@) =~= itinerary_views(before).push(schedule_views(v@[i as int]@)));
            assert(itinerary_views(v@).take(i + 1) =~= itinerary_views(v@).take(i as int).push(schedule_views(v@[i as int]@)));
        }
        i = i + 1;
    }
    proof {
        assert(itinerary_views(v@).take(i as int) =~= itinerary_views(v@));
    }
    r
}

} // verus!
