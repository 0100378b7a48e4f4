//! Aircraft and their availability.

use crate::flight_plan::{FlightPlanSchedule, FlightPlanScheduleView, schedule_views};
use crate::groups::{find_group, keys_unique, lemma_find_group};
use crate::ids::{parse_uuid, uuid_text};
use crate::schedule::{
    calendar_timeslots, later, lemma_difference_is_set_difference, parse_calendar, timeslot_difference, valid_time, Calendar,
    Timeslot,
};
use vstd::prelude::*;

verus! {

/// Reasons for an aircraft to be unavailable or unusable.
#[derive(Debug, PartialEq, Eq, Copy, Clone, Structural)]
pub enum VehicleError {
    /// Error from the vehicle client
    ClientError,
    /// Vehicle data is corrupt or invalid
    Data,
    /// Vehicle has an invalid UUID
    VehicleId,
    /// Vehicle doesn't have a hangar_id
    HangarId,
    /// Vehicle doesn't have a hangar_bay_id
    HangarBayId,
    /// Vehicle doesn't have a schedule
    NoSchedule,
    /// Vehicle has an invalid schedule
    Schedule,
    /// Internal error
    Internal,
}

impl VehicleError {
    pub open spec fn message(&self) -> Seq<char> {
        match self {
            VehicleError::ClientError => "Vehicle client error"@,
            VehicleError::Data => "Vehicle data is corrupt or invalid"@,
            VehicleError::VehicleId => "Vehicle has an invalid UUID"@,
            VehicleError::HangarId => "Vehicle doesn't have a hangar_id"@,
            VehicleError::HangarBayId => "Vehicle doesn't have a hangar_bay_id"@,
            VehicleError::NoSchedule => "Vehicle doesn't have a schedule"@,
            VehicleError::Schedule => "Vehicle has an invalid schedule"@,
            VehicleError::Internal => "Internal error"@,
        }
    }

    /// The message describing the error.
    pub fn to_string(&self) -> (r: String)
        ensures
            r@ == self.message(),
    {
        match self {
            VehicleError::ClientError => "Vehicle client error".to_string(),
            VehicleError::Data => "Vehicle data is corrupt or invalid".to_string(),
            VehicleError::VehicleId => "Vehicle has an invalid UUID".to_string(),
            VehicleError::HangarId => "Vehicle doesn't have a hangar_id".to_string(),
            VehicleError::HangarBayId => "Vehicle doesn't have a hangar_bay_id".to_string(),
            VehicleError::NoSchedule => "Vehicle doesn't have a schedule".to_string(),
            VehicleError::Schedule => "Vehicle has an invalid schedule".to_string(),
            VehicleError::Internal => "Internal error".to_string(),
        }
    }
}

/// The stored data of a vehicle, as far as scheduling reads it.
#[derive(Debug, Clone)]
pub struct VehicleData {
    pub hangar_id: Option<String>,
    pub hangar_bay_id: Option<String>,
    pub schedule: Option<String>,
}

/// A stored vehicle: its identifier and its data.
#[derive(Debug, Clone)]
pub struct VehicleObject {
    pub id: String,
    pub data: Option<VehicleData>,
}

/// An aircraft that can be scheduled: its identifier, its calendar of
/// availability, and the hangar (vertiport) and bay (vertipad) it rests at.
#[derive(Debug, Clone)]
pub struct Aircraft {
    pub vehicle_uuid: String,
    pub vehicle_calendar: Calendar,
    pub hangar_id: String,
    pub hangar_bay_id: String,
}

/// What scheduling reads of an aircraft.
pub struct AircraftView {
    pub vehicle_uuid: Seq<char>,
    pub vehicle_calendar: Seq<(Seq<char>, i64)>,
    pub hangar_id: Seq<char>,
    pub hangar_bay_id: Seq<char>,
}

impl View for Aircraft {
    type V = AircraftView;

    open spec fn view(&self) -> AircraftView {
        AircraftView {
            vehicle_uuid: self.vehicle_uuid@,
            vehicle_calendar: self.vehicle_calendar@,
            hangar_id: self.hangar_id@,
            hangar_bay_id: self.hangar_bay_id@,
        }
    }
}

/// The aircraft read from a stored vehicle: the vehicle, hangar and bay must
/// be UUIDs (kept in canonical form) and the schedule a valid calendar. The
/// checks are made in this order and the first that fails gives the error.
pub open spec fn aircraft_from_vehicle(v: VehicleObject) -> Result<AircraftView, VehicleError> {
    match uuid_text(v.id@) {
        None => Err(VehicleError::VehicleId),
        Some(vehicle_uuid) => match v.data {
            None => Err(VehicleError::Data),
            Some(data) => match data.hangar_id {
                None => Err(VehicleError::HangarId),
                Some(hangar) => match uuid_text(hangar@) {
                    None => Err(VehicleError::HangarId),
                    Some(hangar_id) => match data.hangar_bay_id {
                        None => Err(VehicleError::HangarBayId),
                        Some(bay) => match uuid_text(bay@) {
                            None => Err(VehicleError::HangarBayId),
                            Some(hangar_bay_id) => match data.schedule {
                                None => Err(VehicleError::NoSchedule),
                                Some(schedule) => match parse_calendar(schedule@) {
                                    Err(_) => Err(VehicleError::Schedule),
                                    Ok(vehicle_calendar) => Ok(AircraftView {
                                        vehicle_uuid,
                                        vehicle_calendar,
                                        hangar_id,
                                        hangar_bay_id,
                                    }),
                                },
                            },
                        },
                    },
                },
            },
        },
    }
}

impl Aircraft {
    /// Reads an aircraft from a stored vehicle.
    pub fn try_from_vehicle(vehicle: VehicleObject) -> (r: Result<Aircraft, VehicleError>)
        ensures
            match r {
                Ok(a) => aircraft_from_vehicle(vehicle) == Ok::<AircraftView, VehicleError>(a@) && a.vehicle_calendar.wf(),
                Err(e) => aircraft_from_vehicle(vehicle) == Err::<AircraftView, VehicleError>(e),
            },
    {
        let vehicle_uuid = match parse_uuid(vehicle.id.as_str()) {
            None => return Err(VehicleError::VehicleId),
            Some(id) => id,
        };
        let data = match vehicle.data {
            None => return Err(VehicleError::Data),
            Some(d) => d,
        };
        let hangar_id = match data.hangar_id {
            None => return Err(VehicleError::HangarId),
            Some(id) => id,
        };
        let hangar_id = match parse_uuid(hangar_id.as_str()) {
            None => return Err(VehicleError::HangarId),
            Some(id) => id,
        };
        let hangar_bay_id = match data.hangar_bay_id {
            None => return Err(VehicleError::HangarBayId),
            Some(id) => id,
        };
        let hangar_bay_id = match parse_uuid(hangar_bay_id.as_str()) {
            None => return Err(VehicleError::HangarBayId),
            Some(id) => id,
        };
        let calendar = match data.schedule {
            None => return Err(VehicleError::NoSchedule),
            Some(s) => s,
        };
        let vehicle_calendar = match Calendar::parse(calendar.as_str()) {
            Err(_) => return Err(VehicleError::Schedule),
            Ok(c) => c,
        };
        Ok(Aircraft { vehicle_uuid, vehicle_calendar, hangar_id, hangar_bay_id })
    }
}

impl TryFrom<VehicleObject> for Aircraft {
    type Error = VehicleError;

    fn try_from(vehicle: VehicleObject) -> (r: Result<Aircraft, VehicleError>)
        ensures
            match r {
                Ok(a) => aircraft_from_vehicle(vehicle) == Ok::<AircraftView, VehicleError>(a@) && a.vehicle_calendar.wf(),
                Err(e) => aircraft_from_vehicle(vehicle) == Err::<AircraftView, VehicleError>(e),
            },
    {
        Aircraft::try_from_vehicle(vehicle)
    }
}

impl vstd::std_specs::convert::TryFromSpecImpl<VehicleObject> for Aircraft {
    /// The generic conversion contract is not used: `try_from_vehicle` states
    /// the result over views.
    open spec fn obeys_try_from_spec() -> bool {
        false
    }

    open spec fn try_from_spec(vehicle: VehicleObject) -> Result<Aircraft, VehicleError> {
        arbitrary()
    }
}

/// A time at which an aircraft is free, and where it is at that time.
#[derive(Clone, Debug)]
pub struct Availability {
    pub timeslot: Timeslot,
    pub vertiport_id: String,
    pub vertipad_id: String,
}

/// What scheduling reads of an availability.
pub struct AvailabilityView {
    pub timeslot: Timeslot,
    pub vertiport_id: Seq<char>,
    pub vertipad_id: Seq<char>,
}

impl View for Availability {
    type V = AvailabilityView;

    open spec fn view(&self) -> AvailabilityView {
        AvailabilityView { timeslot: self.timeslot, vertiport_id: self.vertiport_id@, vertipad_id: self.vertipad_id@ }
    }
}

/// The views of a list of availabilities.
pub open spec fn availability_views(v: Seq<Availability>) -> Seq<AvailabilityView> {
    v.map_values(|a: Availability| a@)
}

/// The time a flight keeps its aircraft busy: from the departure start to the
/// arrival start.
pub open spec fn flight_busy_time(fp: FlightPlanScheduleView) -> Timeslot {
    Timeslot { time_start: fp.origin_timeslot_start, time_end: fp.target_timeslot_start }
}

/// What is left of an availability once a flight is scheduled: the parts of
/// its time outside the flight. A part before the flight keeps the
/// availability's place; a part after it is at the flight's target. A flight
/// whose busy time is empty leaves nothing.
pub open spec fn subtract_flight(a: AvailabilityView, fp: FlightPlanScheduleView) -> Seq<AvailabilityView> {
    let busy = flight_busy_time(fp);
    if busy.time_start >= busy.time_end {
        Seq::empty()
    } else {
        timeslot_difference(a.timeslot, busy).map_values(|t: Timeslot|
            if t.time_start < busy.time_start {
                AvailabilityView { timeslot: t, vertiport_id: a.vertiport_id, vertipad_id: a.vertipad_id }
            } else {
                AvailabilityView { timeslot: t, vertiport_id: fp.target_vertiport_id, vertipad_id: fp.target_vertipad_id }
            }
        )
    }
}

/// Where an aircraft is once a flight is scheduled: what is left of an
/// availability is exactly its instants outside the flight's busy time (from
/// departure to arrival); a part that starts before the departure keeps the
/// availability's place, and every other part starts no earlier than the
/// arrival and is at the flight's target vertiport and vertipad. A flight that
/// does not arrive after it departs leaves nothing.
pub proof fn lemma_subtract_flight_places(a: AvailabilityView, fp: FlightPlanScheduleView)
    requires
        a.timeslot.time_start < a.timeslot.time_end,
    ensures
        fp.origin_timeslot_start >= fp.target_timeslot_start ==> subtract_flight(a, fp).len() == 0,
        fp.origin_timeslot_start < fp.target_timeslot_start ==> {
            let d = subtract_flight(a, fp);
            &&& forall|i: int| 0 <= i < d.len() && (#[trigger] d[i]).timeslot.time_start < fp.origin_timeslot_start
                ==> d[i].vertiport_id == a.vertiport_id && d[i].vertipad_id == a.vertipad_id
            &&& forall|i: int| 0 <= i < d.len() && !((#[trigger] d[i]).timeslot.time_start < fp.origin_timeslot_start)
                ==> d[i].timeslot.time_start >= fp.target_timeslot_start && d[i].vertiport_id == fp.target_vertiport_id
                    && d[i].vertipad_id == fp.target_vertipad_id
            &&& forall|t: int| (exists|i: int| 0 <= i < d.len() && (#[trigger] d[i]).timeslot.contains(t))
                <==> (#[trigger] a.timeslot.contains(t) && !(fp.origin_timeslot_start <= t < fp.target_timeslot_start))
        },
{
    if fp.origin_timeslot_start < fp.target_timeslot_start {
        let busy = flight_busy_time(fp);
        let diff = timeslot_difference(a.timeslot, busy);
        lemma_difference_is_set_difference(a.timeslot, busy);
        let d = subtract_flight(a, fp);
        assert(d.len() == diff.len());
        assert forall|i: int| 0 <= i < d.len() implies (#[trigger] d[i]).timeslot == diff[i] by {}
        assert forall|i: int| 0 <= i < d.len() && !((#[trigger] d[i]).timeslot.time_start < fp.origin_timeslot_start)
            implies d[i].timeslot.time_start >= fp.target_timeslot_start by {
            assert(diff[i].time_start < diff[i].time_end);
            assert(diff[i].contains(diff[i].time_start as int));
        }
        assert forall|t: int| (exists|i: int| 0 <= i < d.len() && (#[trigger] d[i]).timeslot.contains(t))
            <==> (#[trigger] a.timeslot.contains(t) && !(fp.origin_timeslot_start <= t < fp.target_timeslot_start)) by {
            if exists|i: int| 0 <= i < d.len() && (#[trigger] d[i]).timeslot.contains(t) {
                let i = choose|i: int| 0 <= i < d.len() && (#[trigger] d[i]).timeslot.contains(t);
                assert(diff[i].contains(t));
            }
            if a.timeslot.contains(t) && !busy.contains(t) {
                let i = choose|i: int| 0 <= i < diff.len() && (#[trigger] diff[i]).contains(t);
                assert(d[i].timeslot.contains(t));
            }
        }
    }
}

impl Availability {
    /// What is left of this availability once the flight is scheduled.
    pub fn subtract(&self, flight_plan: &FlightPlanSchedule) -> (r: Vec<Availability>)
        ensures
            availability_views(r@) == subtract_flight(self@, flight_plan@),
    {
        let mut slots: Vec<Availability> = Vec::new();
        let flight_plan_timeslot = match Timeslot::new(
            flight_plan.origin_timeslot_start,
            flight_plan.target_timeslot_start,
        ) {
            Ok(t) => t,
            Err(_) => {
                proof {
                    assert(availability_views(slots@) =~= Seq::<AvailabilityView>::empty());
                }
                return slots;
            },
        };
        let timeslots = self.timeslot - flight_plan_timeslot;
        let ghost target = subtract_flight(self@, flight_plan@);
        let mut i: usize = 0;
        while i < timeslots.len()
            invariant
                i <= timeslots@.len(),
                timeslots@ == timeslot_difference(self.timeslot, flight_plan_timeslot),
                flight_plan_timeslot == flight_busy_time(flight_plan@),
                flight_plan_timeslot.time_start < flight_plan_timeslot.time_end,
                target == subtract_flight(self@, flight_plan@),
                target.len() == timeslots@.len(),
                availability_views(slots@) == target.take(i as int),
            decreases timeslots@.len() - i,
        {
            let timeslot = timeslots[i];
            let (vertiport_id, vertipad_id) = if timeslot.time_start < flight_plan_timeslot.time_start {
                (self.vertiport_id.clone(), self.vertipad_id.clone())
            } else {
                (flight_plan.target_vertiport_id.clone(), flight_plan.target_vertipad_id.clone())
            };
            let ghost before = slots@;
            slots.push(Availability { timeslot, vertiport_id, vertipad_id });
            proof {
                assert(availability_views(slots@) =~= availability_views(before).push(slots@.last()@));
                assert(target.take(i + 1) =~= target.take(i as int).push(target[i as int]));
            }
            i = i + 1;
        }
        proof {
            assert(target.take(i as int) =~= target);
        }
        slots
    }
}

/// Time an aircraft needs around a flight for deadhead trips (2 hours, in ms).
pub const DEADHEAD_PADDING_MS: i64 = 7_200_000;

/// Availabilities of one aircraft keyed by its identifier.
pub open spec fn group_views(g: Seq<(String, Vec<Availability>)>) -> Seq<(Seq<char>, Seq<AvailabilityView>)> {
    g.map_values(|p: (String, Vec<Availability>)| (p.0@, availability_views(p.1@)))
}

/// Appends items to the group with the given key, creating the group when
/// there is none yet and there is something to add.
pub open spec fn add_to_group(
    groups: Seq<(Seq<char>, Seq<AvailabilityView>)>,
    key: Seq<char>,
    items: Seq<AvailabilityView>,
) -> Seq<(Seq<char>, Seq<AvailabilityView>)> {
    if items.len() == 0 {
        groups
    } else {
        let k = find_group(groups, key);
        if k < 0 {
            groups.push((key, items))
        } else {
            groups.update(k, (key, groups[k].1 + items))
        }
    }
}

/// The calendar timeslots of an aircraft made availabilities at its hangar:
/// each starts no earlier than `earliest`; those left empty are dropped.
pub open spec fn base_slots(slots: Seq<Timeslot>, earliest: i64, port: Seq<char>, pad: Seq<char>) -> Seq<AvailabilityView>
    decreases slots.len(),
{
    if slots.len() == 0 {
        Seq::empty()
    } else {
        let rest = base_slots(slots.drop_last(), earliest, port, pad);
        let t = slots.last();
        let start = later(t.time_start, earliest);
        if start < t.time_end {
            rest.push(AvailabilityView { timeslot: Timeslot { time_start: start, time_end: t.time_end }, vertiport_id: port, vertipad_id: pad })
        } else {
            rest
        }
    }
}

/// The availabilities of an aircraft before any flight is considered: its
/// calendar around the window (widened by the deadhead padding), at its hangar.
pub open spec fn aircraft_base(a: AircraftView, earliest: i64, window: Timeslot) -> Seq<AvailabilityView> {
    base_slots(
        calendar_timeslots(a.vehicle_calendar, (window.time_start - DEADHEAD_PADDING_MS) as i64, (window.time_end + DEADHEAD_PADDING_MS) as i64),
        earliest,
        a.hangar_id,
        a.hangar_bay_id,
    )
}

/// The availabilities of all aircraft, grouped by aircraft.
pub open spec fn base_groups(aircraft: Seq<AircraftView>, earliest: i64, window: Timeslot) -> Seq<(Seq<char>, Seq<AvailabilityView>)>
    decreases aircraft.len(),
{
    if aircraft.len() == 0 {
        Seq::empty()
    } else {
        add_to_group(base_groups(aircraft.drop_last(), earliest, window), aircraft.last().vehicle_uuid, aircraft_base(aircraft.last(), earliest, window))
    }
}

/// What is left of each availability once the flight is scheduled, in order.
pub open spec fn subtract_all(avs: Seq<AvailabilityView>, fp: FlightPlanScheduleView) -> Seq<AvailabilityView>
    decreases avs.len(),
{
    if avs.len() == 0 {
        Seq::empty()
    } else {
        subtract_all(avs.drop_last(), fp) + subtract_flight(avs.last(), fp)
    }
}

/// The groups once a flight is scheduled: only the flight's own aircraft is
/// affected; flights of unknown aircraft change nothing.
pub open spec fn apply_flight_plan(groups: Seq<(Seq<char>, Seq<AvailabilityView>)>, fp: FlightPlanScheduleView) -> Seq<(Seq<char>, Seq<AvailabilityView>)> {
    let k = find_group(groups, fp.vehicle_id);
    if k < 0 {
        groups
    } else {
        groups.update(k, (groups[k].0, subtract_all(groups[k].1, fp)))
    }
}

/// The groups once all the flights are scheduled, in order.
pub open spec fn apply_flight_plans(groups: Seq<(Seq<char>, Seq<AvailabilityView>)>, fps: Seq<FlightPlanScheduleView>) -> Seq<(Seq<char>, Seq<AvailabilityView>)>
    decreases fps.len(),
{
    if fps.len() == 0 {
        groups
    } else {
        apply_flight_plan(apply_flight_plans(groups, fps.drop_last()), fps.last())
    }
}

/// The availabilities of the aircraft within the window, less the existing
/// flights, grouped by aircraft.
pub open spec fn aircraft_availabilities(
    fps: Seq<FlightPlanScheduleView>,
    earliest: i64,
    aircraft: Seq<AircraftView>,
    window: Timeslot,
) -> Seq<(Seq<char>, Seq<AvailabilityView>)> {
    apply_flight_plans(base_groups(aircraft, earliest, window), fps)
}

/// Adding to a group keeps one group per aircraft.
proof fn lemma_add_to_group_unique(groups: Seq<(Seq<char>, Seq<AvailabilityView>)>, key: Seq<char>, items: Seq<AvailabilityView>)
    requires
        keys_unique(groups),
    ensures
        keys_unique(add_to_group(groups, key, items)),
{
    lemma_find_group(groups, key);
    let g = add_to_group(groups, key, items);
    if items.len() > 0 {
        let k = find_group(groups, key);
        assert forall|i: int, j: int| 0 <= i < j < g.len() implies (#[trigger] g[i]).0 != (#[trigger] g[j]).0 by {
            if k < 0 {
                if j < groups.len() {
                    assert(g[i] == groups[i] && g[j] == groups[j]);
                } else {
                    assert(g[i] == groups[i]);
                }
            } else {
                assert(g[i].0 == groups[i].0 && g[j].0 == groups[j].0);
            }
        }
    }
}

proof fn lemma_base_groups_unique(aircraft: Seq<AircraftView>, earliest: i64, window: Timeslot)
    ensures
        keys_unique(base_groups(aircraft, earliest, window)),
    decreases aircraft.len(),
{
    if aircraft.len() > 0 {
        lemma_base_groups_unique(aircraft.drop_last(), earliest, window);
        lemma_add_to_group_unique(
            base_groups(aircraft.drop_last(), earliest, window),
            aircraft.last().vehicle_uuid,
            aircraft_base(aircraft.last(), earliest, window),
        );
    }
}

/// Scheduling flights changes no group's aircraft.
proof fn lemma_apply_flight_plans_keys(groups: Seq<(Seq<char>, Seq<AvailabilityView>)>, fps: Seq<FlightPlanScheduleView>)
    ensures
        apply_flight_plans(groups, fps).len() == groups.len(),
        forall|i: int| 0 <= i < groups.len() ==> (#[trigger] apply_flight_plans(groups, fps)[i]).0 == groups[i].0,
    decreases fps.len(),
{
    if fps.len() > 0 {
        lemma_apply_flight_plans_keys(groups, fps.drop_last());
        let g = apply_flight_plans(groups, fps.drop_last());
        lemma_find_group(g, fps.last().vehicle_id);
        assert forall|i: int| 0 <= i < groups.len() implies (#[trigger] apply_flight_plans(groups, fps)[i]).0 == groups[i].0 by {
            assert(g[i].0 == groups[i].0);
        }
    }
}

/// Scheduling a flight takes it out of its own aircraft's availabilities
/// only: with one group per aircraft, the group of the flight's aircraft
/// becomes what is left of each of its availabilities, and every other group
/// stays as it was; so flights of other aircraft never change a group.
pub proof fn lemma_flights_affect_their_aircraft(
    groups: Seq<(Seq<char>, Seq<AvailabilityView>)>,
    fps: Seq<FlightPlanScheduleView>,
    k: int,
)
    requires
        keys_unique(groups),
        0 <= k < groups.len(),
    ensures
        fps.len() == 1 && fps[0].vehicle_id == groups[k].0
            ==> apply_flight_plans(groups, fps)[k] == (groups[k].0, subtract_all(groups[k].1, fps[0])),
        (forall|i: int| 0 <= i < fps.len() ==> (#[trigger] fps[i]).vehicle_id != groups[k].0)
            ==> apply_flight_plans(groups, fps)[k] == groups[k],
    decreases fps.len(),
{
    if fps.len() > 0 {
        let d = fps.drop_last();
        lemma_apply_flight_plans_keys(groups, d);
        let g = apply_flight_plans(groups, d);
        assert(g.len() == groups.len());
        assert forall|i: int, j: int| 0 <= i < j < g.len() implies (#[trigger] g[i]).0 != (#[trigger] g[j]).0 by {
            assert(g[i].0 == groups[i].0 && g[j].0 == groups[j].0);
        }
        lemma_find_group(g, fps.last().vehicle_id);
        let f = find_group(g, fps.last().vehicle_id);
        if fps.len() == 1 && fps[0].vehicle_id == groups[k].0 {
            assert(d.len() == 0);
            assert(g == groups);
            assert(f >= 0);
            if f != k {
                if f < k {
                    assert(g[f].0 != g[k].0);
                } else {
                    assert(g[k].0 != g[f].0);
                }
            }
        }
        if forall|i: int| 0 <= i < fps.len() ==> (#[trigger] fps[i]).vehicle_id != groups[k].0 {
            assert forall|i: int| 0 <= i < d.len() implies (#[trigger] d[i]).vehicle_id != groups[k].0 by {
                assert(d[i] == fps[i]);
            }
            lemma_flights_affect_their_aircraft(groups, d, k);
            assert(fps.last() == fps[fps.len() - 1]);
            assert(g[k].0 == groups[k].0);
        }
    }
}

/// The availabilities hold one group per aircraft.
proof fn lemma_aircraft_availabilities_unique(
    fps: Seq<FlightPlanScheduleView>,
    earliest: i64,
    aircraft: Seq<AircraftView>,
    window: Timeslot,
)
    ensures
        keys_unique(aircraft_availabilities(fps, earliest, aircraft, window)),
{
    let b = base_groups(aircraft, earliest, window);
    lemma_base_groups_unique(aircraft, earliest, window);
    lemma_apply_flight_plans_keys(b, fps);
    let a = aircraft_availabilities(fps, earliest, aircraft, window);
    assert forall|i: int, j: int| 0 <= i < j < a.len() implies (#[trigger] a[i]).0 != (#[trigger] a[j]).0 by {
        assert(a[i].0 == b[i].0 && a[j].0 == b[j].0);
    }
}

/// The position of the group with the given key.
fn find_group_exec(groups: &Vec<(String, Vec<Availability>)>, key: &String) -> (r: Option<usize>)
    ensures
        match r {
            None => find_group(group_views(groups@), key@) == -1,
            Some(k) => find_group(group_views(groups@), key@) == k && k < groups@.len(),
        },
{
    let mut found: Option<usize> = None;
    let mut i: usize = 0;
    while i < groups.len()
        invariant
            i <= groups@.len(),
            match found {
                None => find_group(group_views(groups@).take(i as int), key@) == -1,
                Some(k) => find_group(group_views(groups@).take(i as int), key@) == k && k < i,
            },
        decreases groups@.len() - i,
    {
        proof {
            assert(group_views(groups@).take(i + 1).drop_last() =~= group_views(groups@).take(i as int));
            assert(group_views(groups@).take(i + 1).last() == group_views(groups@)[i as int]);
        }
        if groups[i].0 == *key {
            found = Some(i);
        }
        i = i + 1;
    }
    proof {
        assert(group_views(groups@).take(i as int) =~= group_views(groups@));
    }
    found
}

/// Appends the items to the group with the given key (see [`add_to_group`]).
fn add_group(groups: &mut Vec<(String, Vec<Availability>)>, key: &String, items: Vec<Availability>)
    ensures
        group_views(final(groups)@) == add_to_group(group_views(old(groups)@), key@, availability_views(items@)),
{
    if items.len() == 0 {
        return;
    }
    match find_group_exec(groups, key) {
        None => {
            let ghost before = groups@;
            groups.push((key.clone(), items));
            proof {
                assert(group_views(groups@) =~= group_views(before).push((key@, availability_views(items@))));
            }
        },
        Some(k) => {
            let ghost before = groups@;
            let (k_id, mut list) = groups.remove(k);
            let ghost list_before = list@;
            let ghost items_v = items@;
            let mut items = items;
            list.append(&mut items);
            groups.insert(k, (k_id, list));
            proof {
                lemma_find_group(group_views(before), key@);
                assert(k_id@ == key@);
                assert(list_before == before[k as int].1@);
                assert(availability_views(list@) =~= availability_views(list_before) + availability_views(items_v)) by {
                    assert(list@ =~= list_before + items_v);
                }
                assert(group_views(groups@) =~= group_views(before).update(k as int, (key@, group_views(before)[k as int].1 + availability_views(items_v))));
            }
        },
    }
}

/// The views of a list of aircraft.
pub open spec fn aircraft_views(v: Seq<Aircraft>) -> Seq<AircraftView> {
    v.map_values(|a: Aircraft| a@)
}

/// The base availabilities of one aircraft (see [`aircraft_base`]).
fn aircraft_base_exec(a: &Aircraft, earliest_departure_time: i64, timeslot: &Timeslot) -> (r: Result<Vec<Availability>, VehicleError>)
    requires
        valid_time(earliest_departure_time as int),
        timeslot.valid(),
        a.vehicle_calendar.wf(),
    ensures
        r matches Ok(v) && availability_views(v@) == aircraft_base(a@, earliest_departure_time, *timeslot),
{
    let slots = match a.vehicle_calendar.to_timeslots(
        &(timeslot.time_start - DEADHEAD_PADDING_MS),
        &(timeslot.time_end + DEADHEAD_PADDING_MS),
    ) {
        Ok(v) => v,
        Err(_) => return Err(VehicleError::Internal),
    };
    let ghost all = slots@;
    let mut items: Vec<Availability> = Vec::new();
    let mut j: usize = 0;
    proof {
        assert(availability_views(items@) =~= Seq::<AvailabilityView>::empty());
        assert(all.take(0) =~= Seq::<Timeslot>::empty());
    }
    while j < slots.len()
        invariant
            all == slots@,
            j <= slots@.len(),
            availability_views(items@) == base_slots(all.take(j as int), earliest_departure_time, a.hangar_id@, a.hangar_bay_id@),
        decreases slots@.len() - j,
    {
        let t = slots[j];
        let start = if t.time_start >= earliest_departure_time { t.time_start } else { earliest_departure_time };
        proof {
            assert(all.take(j + 1).drop_last() =~= all.take(j as int));
            assert(all.take(j + 1).last() == t);
        }
        if start < t.time_end {
            let ghost before = items@;
            items.push(Availability {
                timeslot: Timeslot { time_start: start, time_end: t.time_end },
                vertiport_id: a.hangar_id.clone(),
                vertipad_id: a.hangar_bay_id.clone(),
            });
            proof {
                assert(availability_views(items@) =~= availability_views(before).push(items@.last()@));
            }
        }
        j = j + 1;
    }
    proof {
        assert(all.take(j as int) =~= all);
    }
    Ok(items)
}

/// What is left of each availability once the flight is scheduled.
fn subtract_all_exec(avs: &Vec<Availability>, fp: &FlightPlanSchedule) -> (r: Vec<Availability>)
    ensures
        availability_views(r@) == subtract_all(availability_views(avs@), fp@),
{
    let mut r: Vec<Availability> = Vec::new();
    let mut i: usize = 0;
    proof {
        assert(availability_views(avs@).take(0) =~= Seq::<AvailabilityView>::empty());
        assert(availability_views(r@) =~= Seq::<AvailabilityView>::empty());
    }
    while i < avs.len()
        invariant
            i <= avs@.len(),
            availability_views(r@) == subtract_all(availability_views(avs@).take(i as int), fp@),
        decreases avs@.len() - i,
    {
        let mut pieces = avs[i].subtract(fp);
        let ghost before = r@;
        let ghost pieces_v = pieces@;
        r.append(&mut pieces);
        proof {
            assert(r@ =~= before + pieces_v);
            assert(availability_views(r@) =~= availability_views(before) + availability_views(pieces_v));
            assert(availability_views(avs@).take(i + 1).drop_last() =~= availability_views(avs@).take(i as int));
            assert(availability_views(avs@).take(i + 1).last() == avs@[i as int]@);
        }
        i = i + 1;
    }
    proof {
        assert(availability_views(avs@).take(i as int) =~= availability_views(avs@));
    }
    r
}

/// The availabilities of the given aircraft for flights within the window:
/// each aircraft's calendar (widened by the deadhead padding) starting no
/// earlier than `earliest_departure_time`, at its hangar, less the existing
/// flights of that aircraft. Grouped by aircraft identifier, one group per
/// aircraft; an aircraft with no availability has no group, and flights of
/// other aircraft are ignored.
pub fn get_aircraft_availabilities(
    existing_flight_plans: &[FlightPlanSchedule],
    earliest_departure_time: &i64,
    aircraft: &[Aircraft],
    timeslot: &Timeslot,
) -> (r: Result<Vec<(String, Vec<Availability>)>, VehicleError>)
    requires
        valid_time(*earliest_departure_time as int),
        timeslot.valid(),
        forall|i: int| 0 <= i < aircraft@.len() ==> (#[trigger] aircraft@[i]).vehicle_calendar.wf(),
    ensures
        r matches Ok(g) && group_views(g@) == aircraft_availabilities(
            schedule_views(existing_flight_plans@),
            *earliest_departure_time,
            aircraft_views(aircraft@),
            *timeslot,
        ),
        r matches Ok(g) ==> keys_unique(group_views(g@)),
{
    let ghost av = aircraft_views(aircraft@);
    let mut groups: Vec<(String, Vec<Availability>)> = Vec::new();
    let mut i: usize = 0;
    proof {
        assert(av.take(0) =~= Seq::<AircraftView>::empty());
        assert(group_views(groups@) =~= Seq::<(Seq<char>, Seq<AvailabilityView>)>::empty());
    }
    while i < aircraft.len()
        invariant
            av == aircraft_views(aircraft@),
            i <= aircraft@.len(),
            valid_time(*earliest_departure_time as int),
            timeslot.valid(),
            forall|i: int| 0 <= i < aircraft@.len() ==> (#[trigger] aircraft@[i]).vehicle_calendar.wf(),
            group_views(groups@) == base_groups(av.take(i as int), *earliest_departure_time, *timeslot),
        decreases aircraft@.len() - i,
    {
        let a = &aircraft[i];
        let items = match aircraft_base_exec(a, *earliest_departure_time, timeslot) {
            Ok(v) => v,
            Err(e) => return Err(e),
        };
        add_group(&mut groups, &a.vehicle_uuid, items);
        proof {
            assert(av.take(i + 1).drop_last() =~= av.take(i as int));
            assert(av.take(i + 1).last() == a@);
        }
        i = i + 1;
    }
    proof {
        assert(av.take(i as int) =~= av);
    }
    let ghost base = group_views(groups@);
    let ghost fv = schedule_views(existing_flight_plans@);
    let mut f: usize = 0;
    proof {
        assert(fv.take(0) =~= Seq::<FlightPlanScheduleView>::empty());
    }
    while f < existing_flight_plans.len()
        invariant
            fv == schedule_views(existing_flight_plans@),
            f <= existing_flight_plans@.len(),
            group_views(groups@) == apply_flight_plans(base, fv.take(f as int)),
        decreases existing_flight_plans@.len() - f,
    {
        let fp = &existing_flight_plans[f];
        proof {
            assert(fv.take(f + 1).drop_last() =~= fv.take(f as int));
            assert(fv.take(f + 1).last() == fp@);
        }
        match find_group_exec(&groups, &fp.vehicle_id) {
            None => {},
            Some(k) => {
                let ghost before = groups@;
                let (id, list) = groups.remove(k);
                let remaining = subtract_all_exec(&list, fp);
                groups.insert(k, (id, remaining));
                proof {
                    assert(group_views(groups@) =~= group_views(before).update(k as int,
                        (group_views(before)[k as int].0, subtract_all(group_views(before)[k as int].1, fp@))));
                }
            },
        }
        f = f + 1;
    }
    proof {
        assert(fv.take(f as int) =~= fv);
        lemma_aircraft_availabilities_unique(fv, *earliest_departure_time, av, *timeslot);
    }
    Ok(groups)
}

} // verus!
