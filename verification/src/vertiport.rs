//! Vertiport and vertipad timeslots, and the pairing of departure and
//! arrival timeslots into possible flights.

use crate::flight_plan::{FlightPlanData, FlightPlanSchedule, FlightPlanScheduleView, PointZ, schedule_views};
use crate::groups::{find_group, insert_by, keys_unique, lemma_find_group, lemma_insert_by, sort_by};
use crate::schedule::{
    calendar_timeslots, earlier, later, lemma_split_pieces_bounded, parse_calendar, split_pieces,
    timeslot_difference, valid_time, Calendar, Timeslot, MAX_TIME_MS,
};
use vstd::prelude::*;

verus! {

/// Chop up larger timeslots into smaller durations (30 minutes, in ms) to
/// avoid temporary no-fly zones.
pub const MAX_DURATION_TIMESLOT_MS: i64 = 1_800_000;

/// Time to block a vertipad for cargo loading and takeoff (ms).
pub const LOADING_AND_TAKEOFF_TIME_MS: i64 = 60_000;

/// Time to block a vertipad for cargo unloading and landing (ms).
pub const LANDING_AND_UNLOADING_TIME_MS: i64 = 60_000;

/// Errors on vertiport data and timeslots.
#[derive(Debug, Copy, Clone, PartialEq, Eq, Structural)]
pub enum VertiportError {
    /// Error communicating with a client
    ClientError,
    /// Invalid data
    InvalidData,
    /// No vertipads found
    NoVertipads,
    /// No schedule found
    NoSchedule,
    /// Invalid schedule
    InvalidSchedule,
    /// Internal error
    Internal,
}

impl VertiportError {
    pub open spec fn message(&self) -> Seq<char> {
        match self {
            VertiportError::ClientError => "Client error"@,
            VertiportError::InvalidData => "Invalid data"@,
            VertiportError::NoVertipads => "No vertipads"@,
            VertiportError::NoSchedule => "No schedule"@,
            VertiportError::InvalidSchedule => "Invalid schedule"@,
            VertiportError::Internal => "Internal error"@,
        }
    }

    /// The message describing the error.
    pub fn to_string(&self) -> (r: String)
        ensures
            r@ == self.message(),
    {
        match self {
            VertiportError::ClientError => "Client error".to_string(),
            VertiportError::InvalidData => "Invalid data".to_string(),
            VertiportError::NoVertipads => "No vertipads".to_string(),
            VertiportError::NoSchedule => "No schedule".to_string(),
            VertiportError::InvalidSchedule => "Invalid schedule".to_string(),
            VertiportError::Internal => "Internal error".to_string(),
        }
    }
}

/// Which vertipads to look up: those of a vertiport, or those with the given
/// identifiers.
pub enum GetVertipadsArg {
    VertiportId(String),
    VertipadIds(Vec<String>),
}

/// The stored data of a vertipad, as far as scheduling reads it.
#[derive(Debug, Clone)]
pub struct VertipadData {
    pub enabled: bool,
}

/// A stored vertipad.
#[derive(Debug, Clone)]
pub struct VertipadObject {
    pub id: String,
    pub data: Option<VertipadData>,
}

/// The stored data of a vertiport, as far as scheduling reads it.
#[derive(Debug, Clone)]
pub struct VertiportData {
    pub schedule: Option<String>,
}

/// A stored vertiport.
#[derive(Debug, Clone)]
pub struct VertiportObject {
    pub id: String,
    pub data: Option<VertiportData>,
}

/// The identifiers of the vertipads that have data and are enabled, in order.
pub open spec fn enabled_vertipads(v: Seq<VertipadObject>) -> Seq<Seq<char>>
    decreases v.len(),
{
    if v.len() == 0 {
        Seq::empty()
    } else {
        let rest = enabled_vertipads(v.drop_last());
        if v.last().data matches Some(d) && d.enabled {
            rest.push(v.last().id@)
        } else {
            rest
        }
    }
}

/// The views of a list of strings.
pub open spec fn string_views(v: Seq<String>) -> Seq<Seq<char>> {
    v.map_values(|s: String| s@)
}

/// The identifiers of the vertipads that have data and are enabled.
pub fn enabled_vertipad_ids(vertipads: Vec<VertipadObject>) -> (r: Vec<String>)
    ensures
        string_views(r@) == enabled_vertipads(vertipads@),
{
    let ghost all = vertipads@;
    let mut rest = vertipads;
    let mut r: Vec<String> = Vec::new();
    let n = rest.len();
    let mut i: usize = 0;
    proof {
        assert(all.take(0) =~= Seq::<VertipadObject>::empty());
        assert(string_views(r@) =~= Seq::<Seq<char>>::empty());
        assert(all.skip(0) =~= all);
    }
    while i < n
        invariant
            n == all.len(),
            i <= n,
            rest@ == all.skip(i as int),
            string_views(r@) == enabled_vertipads(all.take(i as int)),
        decreases n - i,
    {
        let vp = rest.remove(0);
        proof {
            assert(vp == all[i as int]);
            assert(rest@ =~= all.skip(i + 1));
            assert(all.take(i + 1).drop_last() =~= all.take(i as int));
            assert(all.take(i + 1).last() == all[i as int]);
        }
        let ghost before = r@;
        match vp.data {
            Some(d) => {
                if d.enabled {
                    r.push(vp.id);
                    proof {
                        assert(string_views(r@) =~= string_views(before).push(vp.id@));
                    }
                }
            },
            None => {},
        }
        i = i + 1;
    }
    proof {
        assert(all.take(n as int) =~= all);
    }
    r
}

/// The calendar of a stored vertiport.
pub open spec fn vertiport_calendar(v: VertiportObject) -> Result<Seq<(Seq<char>, i64)>, VertiportError> {
    match v.data {
        None => Err(VertiportError::InvalidData),
        Some(d) => match d.schedule {
            None => Err(VertiportError::NoSchedule),
            Some(s) => match parse_calendar(s@) {
                Err(_) => Err(VertiportError::InvalidSchedule),
                Ok(c) => Ok(c),
            },
        },
    }
}

/// Reads the calendar of a stored vertiport.
pub fn get_vertiport_calendar(vertiport: VertiportObject) -> (r: Result<Calendar, VertiportError>)
    ensures
        match r {
            Ok(c) => vertiport_calendar(vertiport) == Ok::<Seq<(Seq<char>, i64)>, VertiportError>(c@) && c.wf(),
            Err(e) => vertiport_calendar(vertiport) == Err::<Seq<(Seq<char>, i64)>, VertiportError>(e),
        },
{
    let data = match vertiport.data {
        None => return Err(VertiportError::InvalidData),
        Some(d) => d,
    };
    let schedule = match data.schedule {
        None => return Err(VertiportError::NoSchedule),
        Some(s) => s,
    };
    match Calendar::parse(schedule.as_str()) {
        Ok(c) => Ok(c),
        Err(_) => Err(VertiportError::InvalidSchedule),
    }
}

/// The vertipad occupied by a flight at the given vertiport, and for how long:
/// from the departure start for the loading time when the flight leaves from
/// the vertiport, else from the arrival start for the unloading time when it
/// lands there.
pub open spec fn occupied_slot(vertiport_id: Seq<char>, fp: FlightPlanScheduleView) -> Option<(Seq<char>, Timeslot)> {
    if vertiport_id == fp.origin_vertiport_id {
        Some((fp.origin_vertipad_id, Timeslot {
            time_start: fp.origin_timeslot_start,
            time_end: (fp.origin_timeslot_start + LOADING_AND_TAKEOFF_TIME_MS) as i64,
        }))
    } else if vertiport_id == fp.target_vertiport_id {
        Some((fp.target_vertipad_id, Timeslot {
            time_start: fp.target_timeslot_start,
            time_end: (fp.target_timeslot_start + LANDING_AND_UNLOADING_TIME_MS) as i64,
        }))
    } else {
        None
    }
}

/// The vertipad timeslots occupied at a vertiport by the flights, in order.
pub open spec fn occupied_slots(vertiport_id: Seq<char>, fps: Seq<FlightPlanScheduleView>) -> Seq<(Seq<char>, Timeslot)>
    decreases fps.len(),
{
    if fps.len() == 0 {
        Seq::empty()
    } else {
        let rest = occupied_slots(vertiport_id, fps.drop_last());
        match occupied_slot(vertiport_id, fps.last()) {
            Some(s) => rest.push(s),
            None => rest,
        }
    }
}

/// The views of a list of (vertipad, timeslot) pairs.
pub open spec fn pad_slot_views(v: Seq<(String, Timeslot)>) -> Seq<(Seq<char>, Timeslot)> {
    v.map_values(|p: (String, Timeslot)| (p.0@, p.1))
}

/// Whether the flights' departure and arrival starts are instants of calendar
/// dates.
pub open spec fn flight_times_valid(fps: Seq<FlightPlanScheduleView>) -> bool {
    forall|i: int| 0 <= i < fps.len() ==> valid_time((#[trigger] fps[i]).origin_timeslot_start as int)
        && valid_time(fps[i].target_timeslot_start as int)
}

/// The vertipad timeslots occupied at the vertiport by the flights.
pub fn build_timeslots_from_flight_plans(vertiport_id: &str, flight_plans: &[FlightPlanSchedule]) -> (r: Result<Vec<(String, Timeslot)>, VertiportError>)
    requires
        flight_times_valid(schedule_views(flight_plans@)),
    ensures
        r matches Ok(v) && pad_slot_views(v@) == occupied_slots(vertiport_id@, schedule_views(flight_plans@)),
{
    let ghost fv = schedule_views(flight_plans@);
    let vid: String = vertiport_id.to_owned();
    let mut r: Vec<(String, Timeslot)> = Vec::new();
    let mut i: usize = 0;
    proof {
        assert(fv.take(0) =~= Seq::<FlightPlanScheduleView>::empty());
        assert(pad_slot_views(r@) =~= Seq::<(Seq<char>, Timeslot)>::empty());
    }
    while i < flight_plans.len()
        invariant
            fv == schedule_views(flight_plans@),
            vid@ == vertiport_id@,
            flight_times_valid(fv),
            i <= flight_plans@.len(),
            pad_slot_views(r@) == occupied_slots(vertiport_id@, fv.take(i as int)),
        decreases flight_plans@.len() - i,
    {
        let fp = &flight_plans[i];
        proof {
            assert(fv.take(i + 1).drop_last() =~= fv.take(i as int));
            assert(fv.take(i + 1).last() == fp@);
            assert(fv[i as int] == fp@);
        }
        let ghost before = r@;
        if vid == fp.origin_vertiport_id {
            r.push((fp.origin_vertipad_id.clone(), Timeslot {
                time_start: fp.origin_timeslot_start,
                time_end: fp.origin_timeslot_start + LOADING_AND_TAKEOFF_TIME_MS,
            }));
            proof {
                assert(pad_slot_views(r@) =~= pad_slot_views(before).push((fp.origin_vertipad_id@, r@.last().1)));
            }
        } else if vid == fp.target_vertiport_id {
            r.push((fp.target_vertipad_id.clone(), Timeslot {
                time_start: fp.target_timeslot_start,
                time_end: fp.target_timeslot_start + LANDING_AND_UNLOADING_TIME_MS,
            }));
            proof {
                assert(pad_slot_views(r@) =~= pad_slot_views(before).push((fp.target_vertipad_id@, r@.last().1)));
            }
        }
        i = i + 1;
    }
    proof {
        assert(fv.take(i as int) =~= fv);
    }
    Ok(r)
}

/// What is left of each timeslot once the occupied timeslot is taken out, in
/// order.
pub open spec fn difference_all(slots: Seq<Timeslot>, occupied: Timeslot) -> Seq<Timeslot>
    decreases slots.len(),
{
    if slots.len() == 0 {
        Seq::empty()
    } else {
        difference_all(slots.drop_last(), occupied) + timeslot_difference(slots.last(), occupied)
    }
}

/// Each timeslot split into pieces of at most `max_duration`, keeping those of
/// at least `min_duration`, in order.
pub open spec fn split_all(slots: Seq<Timeslot>, min_duration: i64, max_duration: i64) -> Seq<Timeslot>
    decreases slots.len(),
{
    if slots.len() == 0 {
        Seq::empty()
    } else {
        split_all(slots.drop_last(), min_duration, max_duration)
            + split_pieces(slots.last().time_start, slots.last().time_end, min_duration, max_duration)
    }
}

/// One entry per distinct vertipad, in the order they first come, each with
/// the same timeslots.
pub open spec fn pad_groups(pads: Seq<Seq<char>>, base: Seq<Timeslot>) -> Seq<(Seq<char>, Seq<Timeslot>)>
    decreases pads.len(),
{
    if pads.len() == 0 {
        Seq::empty()
    } else {
        let rest = pad_groups(pads.drop_last(), base);
        if find_group(rest, pads.last()) >= 0 {
            rest
        } else {
            rest.push((pads.last(), base))
        }
    }
}

/// The vertipad timeslots once each occupied timeslot, in order, is taken out
/// of its vertipad's timeslots and what is left is split again; occupied
/// timeslots of unknown vertipads change nothing.
pub open spec fn remove_occupied(
    groups: Seq<(Seq<char>, Seq<Timeslot>)>,
    occupied: Seq<(Seq<char>, Timeslot)>,
    min_duration: i64,
) -> Seq<(Seq<char>, Seq<Timeslot>)>
    decreases occupied.len(),
{
    if occupied.len() == 0 {
        groups
    } else {
        let g = remove_occupied(groups, occupied.drop_last(), min_duration);
        let k = find_group(g, occupied.last().0);
        if k < 0 {
            g
        } else {
            g.update(k, (g[k].0, split_all(difference_all(g[k].1, occupied.last().1), min_duration, MAX_DURATION_TIMESLOT_MS)))
        }
    }
}

/// The available timeslots of each vertipad within the window: the
/// vertiport's calendar timeslots, less the timeslots occupied by flights.
pub open spec fn available_timeslots(
    calendar: Seq<(Seq<char>, i64)>,
    pads: Seq<Seq<char>>,
    occupied: Seq<(Seq<char>, Timeslot)>,
    window: Timeslot,
    min_duration: i64,
) -> Seq<(Seq<char>, Seq<Timeslot>)> {
    remove_occupied(
        pad_groups(pads, calendar_timeslots(calendar, window.time_start, window.time_end)),
        occupied,
        min_duration,
    )
}

/// Each vertipad has one list of timeslots.
proof fn lemma_pad_groups_unique(pads: Seq<Seq<char>>, base: Seq<Timeslot>)
    ensures
        keys_unique(pad_groups(pads, base)),
    decreases pads.len(),
{
    if pads.len() > 0 {
        let rest = pad_groups(pads.drop_last(), base);
        lemma_pad_groups_unique(pads.drop_last(), base);
        lemma_find_group(rest, pads.last());
        let g = pad_groups(pads, base);
        if find_group(rest, pads.last()) < 0 {
            assert forall|i: int, j: int| 0 <= i < j < g.len() implies (#[trigger] g[i]).0 != (#[trigger] g[j]).0 by {
                if j < rest.len() {
                    assert(g[i] == rest[i] && g[j] == rest[j]);
                } else {
                    assert(g[i] == rest[i]);
                }
            }
        }
    }
}

/// Taking occupied timeslots out changes no vertipad of the lists.
proof fn lemma_remove_occupied_keys(
    groups: Seq<(Seq<char>, Seq<Timeslot>)>,
    occupied: Seq<(Seq<char>, Timeslot)>,
    min_duration: i64,
)
    ensures
        remove_occupied(groups, occupied, min_duration).len() == groups.len(),
        forall|i: int| 0 <= i < groups.len() ==> (#[trigger] remove_occupied(groups, occupied, min_duration)[i]).0 == groups[i].0,
    decreases occupied.len(),
{
    if occupied.len() > 0 {
        lemma_remove_occupied_keys(groups, occupied.drop_last(), min_duration);
        let g = remove_occupied(groups, occupied.drop_last(), min_duration);
        lemma_find_group(g, occupied.last().0);
        assert forall|i: int| 0 <= i < groups.len() implies (#[trigger] remove_occupied(groups, occupied, min_duration)[i]).0 == groups[i].0 by {
            assert(g[i].0 == groups[i].0);
        }
    }
}

/// The available timeslots hold one list for each vertipad.
proof fn lemma_available_timeslots_unique(
    calendar: Seq<(Seq<char>, i64)>,
    pads: Seq<Seq<char>>,
    occupied: Seq<(Seq<char>, Timeslot)>,
    window: Timeslot,
    min_duration: i64,
)
    ensures
        keys_unique(available_timeslots(calendar, pads, occupied, window, min_duration)),
{
    let g = pad_groups(pads, calendar_timeslots(calendar, window.time_start, window.time_end));
    lemma_pad_groups_unique(pads, calendar_timeslots(calendar, window.time_start, window.time_end));
    lemma_remove_occupied_keys(g, occupied, min_duration);
    let a = available_timeslots(calendar, pads, occupied, window, min_duration);
    assert forall|i: int, j: int| 0 <= i < j < a.len() implies (#[trigger] a[i]).0 != (#[trigger] a[j]).0 by {
        assert(a[i].0 == g[i].0 && a[j].0 == g[j].0);
    }
}

/// Some timeslot of the list holds the instant `t`.
pub open spec fn covers(slots: Seq<Timeslot>, t: int) -> bool {
    exists|i: int| 0 <= i < slots.len() && (#[trigger] slots[i]).contains(t)
}

proof fn lemma_difference_all_covers(slots: Seq<Timeslot>, occupied: Timeslot, t: int)
    ensures
        covers(difference_all(slots, occupied), t) ==> covers(slots, t) && !occupied.contains(t),
    decreases slots.len(),
{
    if slots.len() > 0 {
        lemma_difference_all_covers(slots.drop_last(), occupied, t);
        let rest = difference_all(slots.drop_last(), occupied);
        let d = timeslot_difference(slots.last(), occupied);
        let all = difference_all(slots, occupied);
        if covers(all, t) {
            let i = choose|i: int| 0 <= i < all.len() && (#[trigger] all[i]).contains(t);
            if i < rest.len() {
                assert(rest[i] == all[i]);
                let j = choose|j: int| 0 <= j < slots.drop_last().len() && (#[trigger] slots.drop_last()[j]).contains(t);
                assert(slots[j] == slots.drop_last()[j]);
            } else {
                assert(all[i] == d[i - rest.len()]);
                assert(slots.last().contains(t));
                assert(slots[slots.len() - 1].contains(t));
            }
        }
    }
}

proof fn lemma_split_all_covers(slots: Seq<Timeslot>, min_duration: i64, max_duration: i64, t: int)
    ensures
        covers(split_all(slots, min_duration, max_duration), t) ==> covers(slots, t),
    decreases slots.len(),
{
    if slots.len() > 0 {
        lemma_split_all_covers(slots.drop_last(), min_duration, max_duration, t);
        let last = slots.last();
        lemma_split_pieces_bounded(last.time_start, last.time_end, min_duration, max_duration);
        let rest = split_all(slots.drop_last(), min_duration, max_duration);
        let d = split_pieces(last.time_start, last.time_end, min_duration, max_duration);
        let all = split_all(slots, min_duration, max_duration);
        if covers(all, t) {
            let i = choose|i: int| 0 <= i < all.len() && (#[trigger] all[i]).contains(t);
            if i < rest.len() {
                assert(rest[i] == all[i]);
                let j = choose|j: int| 0 <= j < slots.drop_last().len() && (#[trigger] slots.drop_last()[j]).contains(t);
                assert(slots[j] == slots.drop_last()[j]);
            } else {
                assert(all[i] == d[i - rest.len()]);
                assert(slots[slots.len() - 1].contains(t));
            }
        }
    }
}

/// Taking occupied timeslots out of vertipad lists with distinct vertipads
/// adds no instant to any list, and leaves no instant of an occupied timeslot
/// in its vertipad's list.
proof fn lemma_remove_occupied_free(
    groups: Seq<(Seq<char>, Seq<Timeslot>)>,
    occupied: Seq<(Seq<char>, Timeslot)>,
    min_duration: i64,
    t: int,
)
    requires
        keys_unique(groups),
    ensures
        forall|k: int| 0 <= k < groups.len() && covers(#[trigger] remove_occupied(groups, occupied, min_duration)[k].1, t)
            ==> covers(groups[k].1, t),
        forall|k: int, j: int| 0 <= k < groups.len() && 0 <= j < occupied.len()
            && (#[trigger] remove_occupied(groups, occupied, min_duration)[k]).0 == (#[trigger] occupied[j]).0
            && covers(remove_occupied(groups, occupied, min_duration)[k].1, t)
            ==> !occupied[j].1.contains(t),
    decreases occupied.len(),
{
    lemma_remove_occupied_keys(groups, occupied, min_duration);
    if occupied.len() > 0 {
        let prev = occupied.drop_last();
        lemma_remove_occupied_free(groups, prev, min_duration, t);
        lemma_remove_occupied_keys(groups, prev, min_duration);
        let g = remove_occupied(groups, prev, min_duration);
        let o = occupied.last();
        let r = remove_occupied(groups, occupied, min_duration);
        lemma_find_group(g, o.0);
        let f = find_group(g, o.0);
        if f >= 0 {
            lemma_difference_all_covers(g[f].1, o.1, t);
            lemma_split_all_covers(difference_all(g[f].1, o.1), min_duration, MAX_DURATION_TIMESLOT_MS, t);
        }
        assert forall|k: int| 0 <= k < groups.len() && covers(#[trigger] r[k].1, t) implies covers(g[k].1, t) by {
            if k != f {
                assert(r[k] == g[k]);
            }
        }
        assert forall|k: int, j: int| 0 <= k < groups.len() && 0 <= j < occupied.len()
            && (#[trigger] r[k]).0 == (#[trigger] occupied[j]).0 && covers(r[k].1, t)
            implies !occupied[j].1.contains(t) by {
            assert(covers(g[k].1, t));
            assert(g[k].0 == groups[k].0 && r[k].0 == groups[k].0);
            if j < prev.len() {
                assert(occupied[j] == prev[j]);
                assert(g[k].0 == prev[j].0);
            } else {
                assert(occupied[j] == o);
                if f != k {
                    assert(g[f].0 == groups[f].0);
                    assert(groups[f].0 == groups[k].0);
                    if f < k {
                        assert((groups[f]).0 != (groups[k]).0);
                    } else {
                        assert((groups[k]).0 != (groups[f]).0);
                    }
                }
            }
        }
    }
}

/// The entry is what the flight occupies at the vertiport: its departure
/// vertipad from the departure start for the loading and takeoff time when it
/// leaves from there, else its arrival vertipad from the arrival start for the
/// landing and unloading time when it lands there.
pub open spec fn occupied_by(vertiport_id: Seq<char>, fp: FlightPlanScheduleView, entry: (Seq<char>, Timeslot)) -> bool {
    ||| fp.origin_vertiport_id == vertiport_id && entry == (fp.origin_vertipad_id, Timeslot {
        time_start: fp.origin_timeslot_start,
        time_end: (fp.origin_timeslot_start + LOADING_AND_TAKEOFF_TIME_MS) as i64,
    })
    ||| fp.origin_vertiport_id != vertiport_id && fp.target_vertiport_id == vertiport_id && entry == (fp.target_vertipad_id, Timeslot {
        time_start: fp.target_timeslot_start,
        time_end: (fp.target_timeslot_start + LANDING_AND_UNLOADING_TIME_MS) as i64,
    })
}

/// The entry is what one of the flights occupies at the vertiport.
pub open spec fn occupied_by_some(vertiport_id: Seq<char>, fps: Seq<FlightPlanScheduleView>, entry: (Seq<char>, Timeslot)) -> bool {
    exists|i: int| 0 <= i < fps.len() && #[trigger] occupied_by(vertiport_id, fps[i], entry)
}

/// The timeslots occupied at a vertiport hold, for every flight that leaves
/// from it, the departure vertipad from the departure start for the loading
/// and takeoff time, and for every flight that lands there from elsewhere,
/// the arrival vertipad from the arrival start for the landing and unloading
/// time; and nothing else.
pub proof fn lemma_occupied_slots_of_flights(vertiport_id: Seq<char>, fps: Seq<FlightPlanScheduleView>)
    ensures
        forall|i: int| 0 <= i < fps.len() && (#[trigger] fps[i]).origin_vertiport_id == vertiport_id
            ==> occupied_slots(vertiport_id, fps).contains((fps[i].origin_vertipad_id, Timeslot {
                time_start: fps[i].origin_timeslot_start,
                time_end: (fps[i].origin_timeslot_start + LOADING_AND_TAKEOFF_TIME_MS) as i64,
            })),
        forall|i: int| 0 <= i < fps.len() && (#[trigger] fps[i]).origin_vertiport_id != vertiport_id
            && fps[i].target_vertiport_id == vertiport_id
            ==> occupied_slots(vertiport_id, fps).contains((fps[i].target_vertipad_id, Timeslot {
                time_start: fps[i].target_timeslot_start,
                time_end: (fps[i].target_timeslot_start + LANDING_AND_UNLOADING_TIME_MS) as i64,
            })),
        forall|j: int| 0 <= j < occupied_slots(vertiport_id, fps).len()
            ==> #[trigger] occupied_by_some(vertiport_id, fps, occupied_slots(vertiport_id, fps)[j]),
    decreases fps.len(),
{
    if fps.len() > 0 {
        let d = fps.drop_last();
        lemma_occupied_slots_of_flights(vertiport_id, d);
        let rest = occupied_slots(vertiport_id, d);
        let all = occupied_slots(vertiport_id, fps);
        let n = fps.len() - 1;
        assert forall|i: int| 0 <= i < fps.len() && (#[trigger] fps[i]).origin_vertiport_id == vertiport_id
            implies all.contains((fps[i].origin_vertipad_id, Timeslot {
                time_start: fps[i].origin_timeslot_start,
                time_end: (fps[i].origin_timeslot_start + LOADING_AND_TAKEOFF_TIME_MS) as i64,
            })) by {
            if i < n {
                assert(fps[i] == d[i]);
                let x = (fps[i].origin_vertipad_id, Timeslot {
                    time_start: fps[i].origin_timeslot_start,
                    time_end: (fps[i].origin_timeslot_start + LOADING_AND_TAKEOFF_TIME_MS) as i64,
                });
                let m = choose|m: int| 0 <= m < rest.len() && rest[m] == x;
                assert(all[m] == x);
            } else {
                assert(all[all.len() - 1] == occupied_slot(vertiport_id, fps.last())->Some_0);
            }
        }
        assert forall|i: int| 0 <= i < fps.len() && (#[trigger] fps[i]).origin_vertiport_id != vertiport_id
            && fps[i].target_vertiport_id == vertiport_id
            implies all.contains((fps[i].target_vertipad_id, Timeslot {
                time_start: fps[i].target_timeslot_start,
                time_end: (fps[i].target_timeslot_start + LANDING_AND_UNLOADING_TIME_MS) as i64,
            })) by {
            if i < n {
                assert(fps[i] == d[i]);
                let x = (fps[i].target_vertipad_id, Timeslot {
                    time_start: fps[i].target_timeslot_start,
                    time_end: (fps[i].target_timeslot_start + LANDING_AND_UNLOADING_TIME_MS) as i64,
                });
                let m = choose|m: int| 0 <= m < rest.len() && rest[m] == x;
                assert(all[m] == x);
            } else {
                assert(all[all.len() - 1] == occupied_slot(vertiport_id, fps.last())->Some_0);
            }
        }
        assert forall|j: int| 0 <= j < all.len() implies #[trigger] occupied_by_some(vertiport_id, fps, all[j]) by {
            if j < rest.len() {
                assert(all[j] == rest[j]);
                assert(occupied_by_some(vertiport_id, d, rest[j]));
                let i = choose|i: int| 0 <= i < d.len() && #[trigger] occupied_by(vertiport_id, d[i], rest[j]);
                assert(fps[i] == d[i]);
                assert(occupied_by(vertiport_id, fps[i], all[j]));
            } else {
                assert(fps[n] == fps.last());
                assert(occupied_by(vertiport_id, fps[n], all[j]));
            }
        }
    } else {
        assert(occupied_slots(vertiport_id, fps).len() == 0);
    }
}

/// A vertipad is never offered while a flight uses it: no available timeslot
/// of a vertipad holds an instant of a departure from it (from the departure
/// start, for the loading and takeoff time) or of a landing on it (from the
/// arrival start, for the landing and unloading time) by an existing flight at
/// the vertiport.
pub proof fn lemma_available_timeslots_avoid_flights(
    calendar: Seq<(Seq<char>, i64)>,
    pads: Seq<Seq<char>>,
    vertiport_id: Seq<char>,
    fps: Seq<FlightPlanScheduleView>,
    window: Timeslot,
    min_duration: i64,
    i: int,
    t: int,
)
    requires
        0 <= i < fps.len(),
        flight_times_valid(fps),
    ensures
        ({
            let a = available_timeslots(calendar, pads, occupied_slots(vertiport_id, fps), window, min_duration);
            let fp = fps[i];
            &&& fp.origin_vertiport_id == vertiport_id && fp.origin_timeslot_start <= t < fp.origin_timeslot_start + LOADING_AND_TAKEOFF_TIME_MS
                ==> forall|k: int| 0 <= k < a.len() && (#[trigger] a[k]).0 == fp.origin_vertipad_id ==> !covers(a[k].1, t)
            &&& fp.origin_vertiport_id != vertiport_id && fp.target_vertiport_id == vertiport_id
                && fp.target_timeslot_start <= t < fp.target_timeslot_start + LANDING_AND_UNLOADING_TIME_MS
                ==> forall|k: int| 0 <= k < a.len() && (#[trigger] a[k]).0 == fp.target_vertipad_id ==> !covers(a[k].1, t)
        }),
{
    let occ = occupied_slots(vertiport_id, fps);
    let base = calendar_timeslots(calendar, window.time_start, window.time_end);
    let g = pad_groups(pads, base);
    lemma_pad_groups_unique(pads, base);
    lemma_remove_occupied_free(g, occ, min_duration, t);
    lemma_remove_occupied_keys(g, occ, min_duration);
    lemma_occupied_slots_of_flights(vertiport_id, fps);
    let a = available_timeslots(calendar, pads, occ, window, min_duration);
    let fp = fps[i];
    assert(valid_time(fp.origin_timeslot_start as int) && valid_time(fp.target_timeslot_start as int));
    if fp.origin_vertiport_id == vertiport_id && fp.origin_timeslot_start <= t < fp.origin_timeslot_start + LOADING_AND_TAKEOFF_TIME_MS {
        let x = (fp.origin_vertipad_id, Timeslot {
            time_start: fp.origin_timeslot_start,
            time_end: (fp.origin_timeslot_start + LOADING_AND_TAKEOFF_TIME_MS) as i64,
        });
        assert(occ.contains(x));
        let j = choose|j: int| 0 <= j < occ.len() && occ[j] == x;
        assert forall|k: int| 0 <= k < a.len() && (#[trigger] a[k]).0 == fp.origin_vertipad_id implies !covers(a[k].1, t) by {
            assert(a[k].0 == occ[j].0);
            assert(occ[j].1.contains(t));
        }
    }
    if fp.origin_vertiport_id != vertiport_id && fp.target_vertiport_id == vertiport_id
        && fp.target_timeslot_start <= t < fp.target_timeslot_start + LANDING_AND_UNLOADING_TIME_MS {
        let x = (fp.target_vertipad_id, Timeslot {
            time_start: fp.target_timeslot_start,
            time_end: (fp.target_timeslot_start + LANDING_AND_UNLOADING_TIME_MS) as i64,
        });
        assert(occ.contains(x));
        let j = choose|j: int| 0 <= j < occ.len() && occ[j] == x;
        assert forall|k: int| 0 <= k < a.len() && (#[trigger] a[k]).0 == fp.target_vertipad_id implies !covers(a[k].1, t) by {
            assert(a[k].0 == occ[j].0);
            assert(occ[j].1.contains(t));
        }
    }
}

/// Every vertipad is offered: the available timeslots hold one list for each
/// distinct vertipad and none for anything else; with no flights at the
/// vertiport, each list is the calendar's timeslots within the window.
pub proof fn lemma_available_timeslots_pads(
    calendar: Seq<(Seq<char>, i64)>,
    pads: Seq<Seq<char>>,
    occupied: Seq<(Seq<char>, Timeslot)>,
    window: Timeslot,
    min_duration: i64,
)
    ensures
        ({
            let a = available_timeslots(calendar, pads, occupied, window, min_duration);
            &&& forall|i: int| 0 <= i < pads.len() ==> exists|k: int| 0 <= k < a.len() && (#[trigger] a[k]).0 == #[trigger] pads[i]
            &&& forall|k: int| 0 <= k < a.len() ==> pads.contains((#[trigger] a[k]).0)
            &&& occupied.len() == 0 ==> forall|k: int| 0 <= k < a.len()
                ==> (#[trigger] a[k]).1 == calendar_timeslots(calendar, window.time_start, window.time_end)
        }),
{
    let base = calendar_timeslots(calendar, window.time_start, window.time_end);
    let g = pad_groups(pads, base);
    lemma_pad_groups_cover(pads, base);
    lemma_remove_occupied_keys(g, occupied, min_duration);
    let a = available_timeslots(calendar, pads, occupied, window, min_duration);
    assert forall|i: int| 0 <= i < pads.len() implies exists|k: int| 0 <= k < a.len() && (#[trigger] a[k]).0 == #[trigger] pads[i] by {
        let k = choose|k: int| 0 <= k < g.len() && (#[trigger] g[k]).0 == pads[i];
        assert(a[k].0 == g[k].0);
    }
    assert forall|k: int| 0 <= k < a.len() implies pads.contains((#[trigger] a[k]).0) by {
        assert(a[k].0 == g[k].0);
    }
    if occupied.len() == 0 {
        assert(a == g);
        assert forall|k: int| 0 <= k < a.len() implies (#[trigger] a[k]).1 == base by {
            lemma_pad_groups_base(pads, base, k);
        }
    }
}

proof fn lemma_pad_groups_cover(pads: Seq<Seq<char>>, base: Seq<Timeslot>)
    ensures
        forall|i: int| 0 <= i < pads.len() ==> exists|k: int| 0 <= k < pad_groups(pads, base).len()
            && (#[trigger] pad_groups(pads, base)[k]).0 == #[trigger] pads[i],
        forall|k: int| 0 <= k < pad_groups(pads, base).len() ==> pads.contains((#[trigger] pad_groups(pads, base)[k]).0),
    decreases pads.len(),
{
    if pads.len() > 0 {
        let d = pads.drop_last();
        lemma_pad_groups_cover(d, base);
        let rest = pad_groups(d, base);
        let g = pad_groups(pads, base);
        lemma_find_group(rest, pads.last());
        assert forall|i: int| 0 <= i < pads.len() implies exists|k: int| 0 <= k < g.len()
            && (#[trigger] g[k]).0 == #[trigger] pads[i] by {
            if i < d.len() {
                assert(pads[i] == d[i]);
                let k = choose|k: int| 0 <= k < rest.len() && (#[trigger] rest[k]).0 == d[i];
                assert(g[k] == rest[k]);
            } else if find_group(rest, pads.last()) >= 0 {
                let k = find_group(rest, pads.last());
                assert(g[k] == rest[k]);
            } else {
                assert(g[g.len() - 1].0 == pads[i]);
            }
        }
        assert forall|k: int| 0 <= k < g.len() implies pads.contains((#[trigger] g[k]).0) by {
            if k < rest.len() {
                assert(g[k] == rest[k]);
                let i = choose|i: int| 0 <= i < d.len() && d[i] == rest[k].0;
                assert(pads[i] == d[i]);
            } else {
                assert(g[k].0 == pads[pads.len() - 1]);
            }
        }
    }
}

/// The views of vertipad timeslot lists.
pub open spec fn slot_group_views(g: Seq<(String, Vec<Timeslot>)>) -> Seq<(Seq<char>, Seq<Timeslot>)> {
    g.map_values(|p: (String, Vec<Timeslot>)| (p.0@, p.1@))
}

/// Both ends of every timeslot lie within `[lo, hi]`.
pub open spec fn all_within(slots: Seq<Timeslot>, lo: int, hi: int) -> bool {
    forall|i: int| 0 <= i < slots.len() ==> (#[trigger] slots[i]).within(lo, hi)
}

pub open spec fn groups_within(g: Seq<(Seq<char>, Seq<Timeslot>)>, lo: int, hi: int) -> bool {
    forall|k: int| 0 <= k < g.len() ==> all_within(#[trigger] g[k].1, lo, hi)
}

proof fn lemma_difference_all_within(slots: Seq<Timeslot>, occupied: Timeslot, lo: int, hi: int)
    requires
        all_within(slots, lo, hi),
    ensures
        all_within(difference_all(slots, occupied), lo, hi),
    decreases slots.len(),
{
    if slots.len() > 0 {
        lemma_difference_all_within(slots.drop_last(), occupied, lo, hi);
        assert(slots.last() == slots[slots.len() - 1]);
        let rest = difference_all(slots.drop_last(), occupied);
        let d = timeslot_difference(slots.last(), occupied);
        assert forall|i: int| 0 <= i < (rest + d).len() implies (#[trigger] (rest + d)[i]).within(lo, hi) by {
            if i >= rest.len() {
                assert((rest + d)[i] == d[i - rest.len()]);
            }
        }
    }
}

proof fn lemma_split_all_within(slots: Seq<Timeslot>, min_duration: i64, max_duration: i64, lo: int, hi: int)
    requires
        all_within(slots, lo, hi),
    ensures
        all_within(split_all(slots, min_duration, max_duration), lo, hi),
    decreases slots.len(),
{
    if slots.len() > 0 {
        lemma_split_all_within(slots.drop_last(), min_duration, max_duration, lo, hi);
        let t = slots.last();
        assert(t == slots[slots.len() - 1]);
        lemma_split_pieces_bounded(t.time_start, t.time_end, min_duration, max_duration);
        let rest = split_all(slots.drop_last(), min_duration, max_duration);
        let d = split_pieces(t.time_start, t.time_end, min_duration, max_duration);
        assert forall|i: int| 0 <= i < (rest + d).len() implies (#[trigger] (rest + d)[i]).within(lo, hi) by {
            if i >= rest.len() {
                assert((rest + d)[i] == d[i - rest.len()]);
            }
        }
    }
}

/// What is left of each timeslot once the occupied timeslot is taken out.
fn difference_all_exec(slots: &Vec<Timeslot>, occupied: Timeslot) -> (r: Vec<Timeslot>)
    ensures
        r@ == difference_all(slots@, occupied),
{
    let mut r: Vec<Timeslot> = Vec::new();
    let mut i: usize = 0;
    proof {
        assert(slots@.take(0) =~= Seq::<Timeslot>::empty());
    }
    while i < slots.len()
        invariant
            i <= slots@.len(),
            r@ == difference_all(slots@.take(i as int), occupied),
        decreases slots@.len() - i,
    {
        let mut pieces = slots[i] - occupied;
        let ghost before = r@;
        let ghost pieces_v = pieces@;
        r.append(&mut pieces);
        proof {
            assert(slots@.take(i + 1).drop_last() =~= slots@.take(i as int));
            assert(slots@.take(i + 1).last() == slots@[i as int]);
            assert(r@ =~= before + pieces_v);
        }
        i = i + 1;
    }
    proof {
        assert(slots@.take(i as int) =~= slots@);
    }
    r
}

/// Each timeslot split into pieces (see [`split_all`]).
fn split_all_exec(slots: &Vec<Timeslot>, min_duration: i64, max_duration: i64) -> (r: Vec<Timeslot>)
    requires
        forall|i: int| 0 <= i < slots@.len() ==> (#[trigger] slots@[i]).valid(),
        0 < max_duration <= MAX_TIME_MS,
    ensures
        r@ == split_all(slots@, min_duration, max_duration),
{
    let mut r: Vec<Timeslot> = Vec::new();
    let mut i: usize = 0;
    proof {
        assert(slots@.take(0) =~= Seq::<Timeslot>::empty());
    }
    while i < slots.len()
        invariant
            forall|i: int| 0 <= i < slots@.len() ==> (#[trigger] slots@[i]).valid(),
            0 < max_duration <= MAX_TIME_MS,
            i <= slots@.len(),
            r@ == split_all(slots@.take(i as int), min_duration, max_duration),
        decreases slots@.len() - i,
    {
        let slot = slots[i];
        let mut pieces = slot.split(&min_duration, &max_duration);
        let ghost before = r@;
        let ghost pieces_v = pieces@;
        r.append(&mut pieces);
        proof {
            assert(slots@.take(i + 1).drop_last() =~= slots@.take(i as int));
            assert(slots@.take(i + 1).last() == slots@[i as int]);
            assert(r@ =~= before + pieces_v);
        }
        i = i + 1;
    }
    proof {
        assert(slots@.take(i as int) =~= slots@);
    }
    r
}

/// The position of the vertipad's entry.
fn find_pad(groups: &Vec<(String, Vec<Timeslot>)>, key: &String) -> (r: Option<usize>)
    ensures
        match r {
            None => find_group(slot_group_views(groups@), key@) == -1,
            Some(k) => find_group(slot_group_views(groups@), key@) == k && k < groups@.len(),
        },
{
    let mut found: Option<usize> = None;
    let mut i: usize = 0;
    while i < groups.len()
        invariant
            i <= groups@.len(),
            match found {
                None => find_group(slot_group_views(groups@).take(i as int), key@) == -1,
                Some(k) => find_group(slot_group_views(groups@).take(i as int), key@) == k && k < i,
            },
        decreases groups@.len() - i,
    {
        proof {
            assert(slot_group_views(groups@).take(i + 1).drop_last() =~= slot_group_views(groups@).take(i as int));
            assert(slot_group_views(groups@).take(i + 1).last() == slot_group_views(groups@)[i as int]);
        }
        if groups[i].0 == *key {
            found = Some(i);
        }
        i = i + 1;
    }
    proof {
        assert(slot_group_views(groups@).take(i as int) =~= slot_group_views(groups@));
    }
    found
}

/// One entry per distinct vertipad, each with a copy of the timeslots.
fn pad_groups_exec(pads: Vec<String>, base: &Vec<Timeslot>) -> (r: Vec<(String, Vec<Timeslot>)>)
    ensures
        slot_group_views(r@) == pad_groups(string_views(pads@), base@),
{
    let ghost all = string_views(pads@);
    let ghost pads_all = pads@;
    let mut r: Vec<(String, Vec<Timeslot>)> = Vec::new();
    let mut i: usize = 0;
    proof {
        assert(all.take(0) =~= Seq::<Seq<char>>::empty());
        assert(slot_group_views(r@) =~= Seq::<(Seq<char>, Seq<Timeslot>)>::empty());
    }
    while i < pads.len()
        invariant
            pads@ == pads_all,
            all == string_views(pads_all),
            i <= pads@.len(),
            slot_group_views(r@) == pad_groups(all.take(i as int), base@),
        decreases pads@.len() - i,
    {
        let pad = &pads[i];
        proof {
            assert(all.take(i + 1).drop_last() =~= all.take(i as int));
            assert(all.take(i + 1).last() == pad@);
        }
        match find_pad(&r, pad) {
            Some(_) => {},
            None => {
                let ghost before = r@;
                let copy: Vec<Timeslot> = base.clone();
                r.push((pad.clone(), copy));
                proof {
                    assert(copy@ == base@);
                    assert(slot_group_views(r@) =~= slot_group_views(before).push((pad@, base@)));
                }
            },
        }
        i = i + 1;
    }
    proof {
        assert(all.take(i as int) =~= all);
    }
    r
}

/// The available timeslots of each vertipad of the vertiport within the
/// window: the vertiport's calendar timeslots for every enabled vertipad, less
/// the timeslots that the existing flights occupy at the vertiport. Each
/// occupied timeslot is taken out of its vertipad's timeslots, and what is left
/// is split into pieces of at most thirty minutes, keeping those of at least
/// `minimum_duration`. Each vertipad has one list.
pub fn get_available_timeslots(
    vertiport_id: &str,
    vertiport: VertiportObject,
    vertipads: Vec<VertipadObject>,
    existing_flight_plans: &[FlightPlanSchedule],
    timeslot: &Timeslot,
    minimum_duration: &i64,
) -> (r: Result<Vec<(String, Vec<Timeslot>)>, VertiportError>)
    requires
        timeslot.valid(),
        flight_times_valid(schedule_views(existing_flight_plans@)),
    ensures
        match r {
            Ok(g) => vertiport_calendar(vertiport) is Ok && slot_group_views(g@) == available_timeslots(
                vertiport_calendar(vertiport)->Ok_0,
                enabled_vertipads(vertipads@),
                occupied_slots(vertiport_id@, schedule_views(existing_flight_plans@)),
                *timeslot,
                *minimum_duration,
            ),
            Err(e) => vertiport_calendar(vertiport) == Err::<Seq<(Seq<char>, i64)>, VertiportError>(e),
        },
        r matches Ok(g) ==> keys_unique(slot_group_views(g@)),
{
    let ghost lo = earlier(timeslot.time_start, timeslot.time_end) as int;
    let ghost hi = later(timeslot.time_start, timeslot.time_end) as int;
    let calendar = get_vertiport_calendar(vertiport)?;
    let base = match calendar.to_timeslots(&timeslot.time_start, &timeslot.time_end) {
        Ok(v) => v,
        Err(_) => return Err(VertiportError::Internal),
    };
    let pads = enabled_vertipad_ids(vertipads);
    let mut groups = pad_groups_exec(pads, &base);
    let occupied = match build_timeslots_from_flight_plans(vertiport_id, existing_flight_plans) {
        Ok(v) => v,
        Err(e) => return Err(e),
    };
    let ghost occ = pad_slot_views(occupied@);
    let ghost start_groups = slot_group_views(groups@);
    proof {
        assert(all_within(base@, lo, hi));
        assert forall|k: int| 0 <= k < start_groups.len() implies all_within(#[trigger] start_groups[k].1, lo, hi) by {
            lemma_pad_groups_base(string_views(pads@), base@, k);
        }
        assert(occ.take(0) =~= Seq::<(Seq<char>, Timeslot)>::empty());
    }
    let mut i: usize = 0;
    while i < occupied.len()
        invariant
            occ == pad_slot_views(occupied@),
            i <= occupied@.len(),
            timeslot.valid(),
            lo == earlier(timeslot.time_start, timeslot.time_end) as int,
            hi == later(timeslot.time_start, timeslot.time_end) as int,
            groups_within(start_groups, lo, hi),
            slot_group_views(groups@) == remove_occupied(start_groups, occ.take(i as int), *minimum_duration),
            groups_within(slot_group_views(groups@), lo, hi),
        decreases occupied@.len() - i,
    {
        let pad = &occupied[i].0;
        let occupied_slot = occupied[i].1;
        proof {
            assert(occ.take(i + 1).drop_last() =~= occ.take(i as int));
            assert(occ.take(i + 1).last() == (pad@, occupied_slot));
        }
        match find_pad(&groups, pad) {
            None => {},
            Some(k) => {
                let ghost before = slot_group_views(groups@);
                proof {
                    lemma_find_group(before, pad@);
                    assert(all_within(before[k as int].1, lo, hi));
                }
                let (pad_id, slots) = groups.remove(k);
                let left = difference_all_exec(&slots, occupied_slot);
                proof {
                    lemma_difference_all_within(slots@, occupied_slot, lo, hi);
                    assert forall|j: int| 0 <= j < left@.len() implies (#[trigger] left@[j]).valid() by {
                        assert(left@[j].within(lo, hi));
                    }
                }
                let pieces = split_all_exec(&left, *minimum_duration, MAX_DURATION_TIMESLOT_MS);
                proof {
                    lemma_split_all_within(left@, *minimum_duration, MAX_DURATION_TIMESLOT_MS, lo, hi);
                }
                groups.insert(k, (pad_id, pieces));
                proof {
                    assert(slot_group_views(groups@) =~= before.update(k as int, (before[k as int].0, pieces@)));
                    assert forall|m: int| 0 <= m < slot_group_views(groups@).len()
                        implies all_within(#[trigger] slot_group_views(groups@)[m].1, lo, hi) by {
                        if m != k {
                            assert(slot_group_views(groups@)[m] == before[m]);
                        }
                    }
                }
            },
        }
        i = i + 1;
    }
    proof {
        assert(occ.take(i as int) =~= occ);
        lemma_available_timeslots_unique(
            vertiport_calendar(vertiport)->Ok_0,
            enabled_vertipads(vertipads@),
            occupied_slots(vertiport_id@, schedule_views(existing_flight_plans@)),
            *timeslot,
            *minimum_duration,
        );
    }
    Ok(groups)
}

proof fn lemma_pad_groups_base(pads: Seq<Seq<char>>, base: Seq<Timeslot>, k: int)
    requires
        0 <= k < pad_groups(pads, base).len(),
    ensures
        pad_groups(pads, base)[k].1 == base,
    decreases pads.len(),
{
    if pads.len() > 0 {
        let rest = pad_groups(pads.drop_last(), base);
        if k < rest.len() {
            lemma_pad_groups_base(pads.drop_last(), base, k);
        }
    }
}

/// A departure timeslot at an origin vertipad and an arrival timeslot at a
/// target vertipad between which a flight can take place, with its path and the
/// path's length in millimeters.
#[derive(Debug, Clone)]
pub struct TimeslotPair {
    pub origin_vertiport_id: String,
    pub origin_vertipad_id: String,
    pub origin_timeslot: Timeslot,
    pub target_vertiport_id: String,
    pub target_vertipad_id: String,
    pub target_timeslot: Timeslot,
    pub path: Vec<PointZ>,
    pub distance_mm: u64,
}

pub struct TimeslotPairView {
    pub origin_vertiport_id: Seq<char>,
    pub origin_vertipad_id: Seq<char>,
    pub origin_timeslot: Timeslot,
    pub target_vertiport_id: Seq<char>,
    pub target_vertipad_id: Seq<char>,
    pub target_timeslot: Timeslot,
    pub path: Seq<PointZ>,
    pub distance_mm: u64,
}

impl View for TimeslotPair {
    type V = TimeslotPairView;

    open spec fn view(&self) -> TimeslotPairView {
        TimeslotPairView {
            origin_vertiport_id: self.origin_vertiport_id@,
            origin_vertipad_id: self.origin_vertipad_id@,
            origin_timeslot: self.origin_timeslot,
            target_vertiport_id: self.target_vertiport_id@,
            target_vertipad_id: self.target_vertipad_id@,
            target_timeslot: self.target_timeslot,
            path: self.path@,
            distance_mm: self.distance_mm,
        }
    }
}

pub open spec fn pair_views(v: Seq<TimeslotPair>) -> Seq<TimeslotPairView> {
    v.map_values(|p: TimeslotPair| p@)
}

impl From<TimeslotPair> for FlightPlanData {
    fn from(val: TimeslotPair) -> (r: FlightPlanData)
        ensures
            r.origin_vertiport_id matches Some(id) && id@ == val.origin_vertiport_id@,
            r.origin_vertipad_id@ == val.origin_vertipad_id@,
            r.origin_timeslot_start == Some(val.origin_timeslot.time_start),
            r.origin_timeslot_end == Some(val.origin_timeslot.time_end),
            r.target_vertiport_id matches Some(id) && id@ == val.target_vertiport_id@,
            r.target_vertipad_id@ == val.target_vertipad_id@,
            r.target_timeslot_start == Some(val.target_timeslot.time_start),
            r.target_timeslot_end == Some(val.target_timeslot.time_end),
            r.vehicle_id@ == Seq::<char>::empty(),
            r.path matches Some(p) && p@ == val.path@,
    {
        FlightPlanData {
            origin_vertiport_id: Some(val.origin_vertiport_id),
            origin_vertipad_id: val.origin_vertipad_id,
            origin_timeslot_start: Some(val.origin_timeslot.time_start),
            origin_timeslot_end: Some(val.origin_timeslot.time_end),
            target_vertiport_id: Some(val.target_vertiport_id),
            target_vertipad_id: val.target_vertipad_id,
            target_timeslot_start: Some(val.target_timeslot.time_start),
            target_timeslot_end: Some(val.target_timeslot.time_end),
            vehicle_id: String::new(),
            path: Some(val.path),
        }
    }
}

impl vstd::std_specs::convert::FromSpecImpl<TimeslotPair> for FlightPlanData {
    /// The generic conversion contract is not used: `from` states its result itself.
    open spec fn obeys_from_spec() -> bool {
        false
    }

    open spec fn from_spec(v: TimeslotPair) -> FlightPlanData {
        arbitrary()
    }
}

/// The timeslots of all vertipads, each with its vertipad, vertipad by
/// vertipad.
pub open spec fn flatten_slots(g: Seq<(Seq<char>, Seq<Timeslot>)>) -> Seq<(Seq<char>, Timeslot)>
    decreases g.len(),
{
    if g.len() == 0 {
        Seq::empty()
    } else {
        let id = g.last().0;
        flatten_slots(g.drop_last()) + g.last().1.map_values(|t: Timeslot| (id, t))
    }
}

/// Orders vertipad timeslots by their start.
pub open spec fn slot_start_key() -> spec_fn((Seq<char>, Timeslot)) -> int {
    |p: (Seq<char>, Timeslot)| p.1.time_start as int
}

/// Orders timeslot pairs by the length of their path.
pub open spec fn pair_distance_key() -> spec_fn(TimeslotPairView) -> int {
    |p: TimeslotPairView| p.distance_mm as int
}

/// The timeslots of all vertipads, each with its vertipad, in order of their
/// start (vertipad by vertipad where starts are equal).
pub open spec fn sorted_slots(g: Seq<(Seq<char>, Seq<Timeslot>)>) -> Seq<(Seq<char>, Timeslot)> {
    sort_by(flatten_slots(g), slot_start_key())
}

fn flatten_slots_exec(groups: Vec<(String, Vec<Timeslot>)>) -> (r: Vec<(String, Timeslot)>)
    ensures
        pad_slot_views(r@) == flatten_slots(slot_group_views(groups@)),
{
    let ghost gv = slot_group_views(groups@);
    let mut r: Vec<(String, Timeslot)> = Vec::new();
    let mut i: usize = 0;
    proof {
        assert(gv.take(0) =~= Seq::<(Seq<char>, Seq<Timeslot>)>::empty());
        assert(pad_slot_views(r@) =~= Seq::<(Seq<char>, Timeslot)>::empty());
    }
    while i < groups.len()
        invariant
            gv == slot_group_views(groups@),
            i <= groups@.len(),
            pad_slot_views(r@) == flatten_slots(gv.take(i as int)),
        decreases groups@.len() - i,
    {
        let id = &groups[i].0;
        let slots = &groups[i].1;
        let ghost base = pad_slot_views(r@);
        let ghost added = slots@.map_values(|t: Timeslot| (id@, t));
        let mut j: usize = 0;
        proof {
            assert(pad_slot_views(r@) =~= base + added.take(0));
        }
        while j < slots.len()
            invariant
                j <= slots@.len(),
                added == slots@.map_values(|t: Timeslot| (id@, t)),
                pad_slot_views(r@) == base + added.take(j as int),
            decreases slots@.len() - j,
        {
            let ghost before = r@;
            r.push((id.clone(), slots[j]));
            proof {
                assert(pad_slot_views(r@) =~= pad_slot_views(before).push(added[j as int]));
                assert(added.take(j + 1) =~= added.take(j as int).push(added[j as int]));
                assert(pad_slot_views(r@) =~= base + added.take(j + 1));
            }
            j = j + 1;
        }
        proof {
            assert(added.take(j as int) =~= added);
            assert(gv.take(i + 1).drop_last() =~= gv.take(i as int));
            assert(gv.take(i + 1).last() == (id@, slots@));
        }
        i = i + 1;
    }
    proof {
        assert(gv.take(i as int) =~= gv);
    }
    r
}

/// Inserts a vertipad timeslot after the last one that starts no later.
fn insert_slot_by_start(v: &mut Vec<(String, Timeslot)>, x: (String, Timeslot))
    ensures
        pad_slot_views(final(v)@) == insert_by(pad_slot_views(old(v)@), (x.0@, x.1), slot_start_key()),
{
    let ghost vs = pad_slot_views(v@);
    let ghost xv = (x.0@, x.1);
    let mut j: usize = v.len();
    while j > 0
        invariant
            vs == pad_slot_views(v@),
            xv == (x.0@, x.1),
            j <= v@.len(),
            forall|k: int| j <= k < vs.len() ==> slot_start_key()(#[trigger] vs[k]) > slot_start_key()(xv),
        ensures
            j == 0 || vs[j - 1].1.time_start <= xv.1.time_start,
        decreases j,
    {
        proof {
            assert(vs[j - 1] == (v@[j - 1].0@, v@[j - 1].1));
        }
        if v[j - 1].1.time_start <= x.1.time_start {
            break;
        }
        j = j - 1;
    }
    proof {
        if j > 0 {
            assert(vs[j - 1] == (v@[j - 1].0@, v@[j - 1].1));
        }
        lemma_insert_by(vs, xv, slot_start_key(), j as int);
    }
    v.insert(j, x);
    proof {
        assert(pad_slot_views(v@) =~= vs.take(j as int).push(xv) + vs.skip(j as int));
    }
}

/// The timeslots of all vertipads, each with its vertipad, in order of their
/// start.
pub fn sort_slots(groups: Vec<(String, Vec<Timeslot>)>) -> (r: Vec<(String, Timeslot)>)
    ensures
        pad_slot_views(r@) == sorted_slots(slot_group_views(groups@)),
{
    let flat = flatten_slots_exec(groups);
    let ghost fv = pad_slot_views(flat@);
    let mut r: Vec<(String, Timeslot)> = Vec::new();
    let mut i: usize = 0;
    proof {
        assert(fv.take(0) =~= Seq::<(Seq<char>, Timeslot)>::empty());
        assert(pad_slot_views(r@) =~= Seq::<(Seq<char>, Timeslot)>::empty());
    }
    while i < flat.len()
        invariant
            fv == pad_slot_views(flat@),
            i <= flat@.len(),
            pad_slot_views(r@) == sort_by(fv.take(i as int), slot_start_key()),
        decreases flat@.len() - i,
    {
        let x = (flat[i].0.clone(), flat[i].1);
        proof {
            assert(fv.take(i + 1).drop_last() =~= fv.take(i as int));
            assert(fv.take(i + 1).last() == (x.0@, x.1));
        }
        insert_slot_by_start(&mut r, x);
        i = i + 1;
    }
    proof {
        assert(fv.take(i as int) =~= fv);
    }
    r
}

/// The next (departure, arrival) pair of vertipad timeslots to look at, from
/// `(i, j)` on: departure timeslots in order, and for each the arrival
/// timeslots in order, skipping arrival timeslots that end before the
/// departure timeslot starts. `i` is the number of departure timeslots when
/// none is left.
pub open spec fn next_candidate(
    origins: Seq<(Seq<char>, Timeslot)>,
    targets: Seq<(Seq<char>, Timeslot)>,
    i: int,
    j: int,
) -> (int, int)
    decreases origins.len() - i, targets.len() + 1 - j,
{
    if i >= origins.len() {
        (i, j)
    } else if j >= targets.len() {
        next_candidate(origins, targets, i + 1, 0)
    } else if origins[i].1.time_start >= targets[j].1.time_end {
        next_candidate(origins, targets, i, j + 1)
    } else {
        (i, j)
    }
}

/// Whether a flight of `duration` leaving by the end of `ots` can arrive by
/// the start of `tts` or later.
pub open spec fn arrives_in_time(ots: Timeslot, tts: Timeslot, duration: i64) -> bool {
    ots.time_end + duration >= tts.time_start
}

/// The departures within `ots` whose flight of `duration` lands within `tts`.
pub open spec fn departure_window(ots: Timeslot, tts: Timeslot, duration: i64) -> Timeslot {
    Timeslot {
        time_start: later(ots.time_start, (tts.time_start - duration) as i64),
        time_end: earlier(ots.time_end, (tts.time_end - duration) as i64),
    }
}

/// Some departure within `ots` has its flight of `duration` land within
/// `tts`: the departure window is not empty.
pub open spec fn flight_fits(ots: Timeslot, tts: Timeslot, duration: i64) -> bool {
    departure_window(ots, tts, duration).time_start <= departure_window(ots, tts, duration).time_end
}

/// The arrivals within `tts` of a flight of `duration` that leaves within the
/// departure window.
pub open spec fn arrival_window(ots: Timeslot, tts: Timeslot, duration: i64) -> Timeslot {
    let o = departure_window(ots, tts, duration);
    Timeslot {
        time_start: later(tts.time_start, (o.time_start + duration) as i64),
        time_end: earlier(tts.time_end, (o.time_end + duration) as i64),
    }
}

/// The arrival window is the departure window moved by the flight's duration,
/// the departure window lies within the departure timeslot and the arrival
/// window within the arrival timeslot.
pub proof fn lemma_pair_windows(ots: Timeslot, tts: Timeslot, duration: i64)
    requires
        ots.valid(),
        tts.valid(),
        valid_time(duration as int),
    ensures
        arrival_window(ots, tts, duration).time_start == departure_window(ots, tts, duration).time_start + duration,
        arrival_window(ots, tts, duration).time_end == departure_window(ots, tts, duration).time_end + duration,
        ots.time_start <= departure_window(ots, tts, duration).time_start,
        departure_window(ots, tts, duration).time_end <= ots.time_end,
        tts.time_start <= arrival_window(ots, tts, duration).time_start,
        arrival_window(ots, tts, duration).time_end <= tts.time_end,
{
}

/// What the path search answered for a departure and an arrival timeslot.
pub enum PathOutcome {
    /// A path, its length in millimeters, and the time its flight takes (ms).
    Found { path: Vec<PointZ>, distance_mm: u64, flight_duration_ms: i64 },
    /// No path between the vertiports within those times.
    NoPathFound,
    /// The path search could not be reached.
    ClientError,
}

/// The search for pairs of departure and arrival vertipad timeslots between
/// two vertiports. Departure timeslots are taken in order, and for each the
/// arrival timeslots in order; each candidate is answered by a path search
/// made by the caller ([`PairSearch::next_query`], [`PairSearch::on_path`]).
pub struct PairSearch {
    pub origin_vertiport_id: String,
    pub target_vertiport_id: String,
    pub origin_slots: Vec<(String, Timeslot)>,
    pub target_slots: Vec<(String, Timeslot)>,
    pub origin_index: usize,
    pub target_index: usize,
    pub pairs: Vec<TimeslotPair>,
}

impl PairSearch {
    /// All vertipad timeslots are instants of calendar dates, and the position
    /// is within the timeslot lists.
    pub open spec fn wf(&self) -> bool {
        &&& forall|k: int| 0 <= k < self.origin_slots@.len() ==> (#[trigger] self.origin_slots@[k]).1.valid()
        &&& forall|k: int| 0 <= k < self.target_slots@.len() ==> (#[trigger] self.target_slots@[k]).1.valid()
        &&& self.origin_index <= self.origin_slots@.len()
        &&& self.target_index <= self.target_slots@.len()
    }

    pub open spec fn origins(&self) -> Seq<(Seq<char>, Timeslot)> {
        pad_slot_views(self.origin_slots@)
    }

    pub open spec fn targets(&self) -> Seq<(Seq<char>, Timeslot)> {
        pad_slot_views(self.target_slots@)
    }

    /// A search over the vertipad timeslots of the two vertiports, each list in
    /// order of the timeslots' start, with no pair found yet.
    pub fn new(
        origin_vertiport_id: &str,
        target_vertiport_id: &str,
        origin_vertipads: Vec<(String, Vec<Timeslot>)>,
        target_vertipads: Vec<(String, Vec<Timeslot>)>,
    ) -> (r: PairSearch)
        ensures
            r.origin_vertiport_id@ == origin_vertiport_id@,
            r.target_vertiport_id@ == target_vertiport_id@,
            r.origins() == sorted_slots(slot_group_views(origin_vertipads@)),
            r.targets() == sorted_slots(slot_group_views(target_vertipads@)),
            r.origin_index == 0,
            r.target_index == 0,
            r.pairs@.len() == 0,
    {
        PairSearch {
            origin_vertiport_id: origin_vertiport_id.to_owned(),
            target_vertiport_id: target_vertiport_id.to_owned(),
            origin_slots: sort_slots(origin_vertipads),
            target_slots: sort_slots(target_vertipads),
            origin_index: 0,
            target_index: 0,
            pairs: Vec::new(),
        }
    }

    /// Moves to the next candidate (see [`next_candidate`]) and returns the
    /// times the path search is to cover for it: from the start of the
    /// departure timeslot to the end of the arrival timeslot; `None` when no
    /// candidate is left.
    pub fn next_query(&mut self) -> (r: Option<Timeslot>)
        requires
            old(self).wf(),
        ensures
            final(self).wf(),
            (final(self).origin_index as int, final(self).target_index as int)
                == next_candidate(old(self).origins(), old(self).targets(), old(self).origin_index as int, old(self).target_index as int),
            final(self).origin_vertiport_id == old(self).origin_vertiport_id,
            final(self).target_vertiport_id == old(self).target_vertiport_id,
            final(self).origin_slots@ == old(self).origin_slots@,
            final(self).target_slots@ == old(self).target_slots@,
            final(self).pairs@ == old(self).pairs@,
            final(self).origin_index < final(self).origin_slots@.len() ==> final(self).target_index < final(self).target_slots@.len(),
            r == (if final(self).origin_index < final(self).origin_slots@.len() {
                Some(Timeslot {
                    time_start: final(self).origin_slots@[final(self).origin_index as int].1.time_start,
                    time_end: final(self).target_slots@[final(self).target_index as int].1.time_end,
                })
            } else {
                None
            }),
    {
        let ghost ov = self.origins();
        let ghost tv = self.targets();
        let ghost goal = next_candidate(ov, tv, self.origin_index as int, self.target_index as int);
        while self.origin_index < self.origin_slots.len()
            invariant
                self.wf(),
                ov == self.origins(),
                tv == self.targets(),
                ov.len() == self.origin_slots@.len(),
                tv.len() == self.target_slots@.len(),
                self.origin_vertiport_id == old(self).origin_vertiport_id,
                self.target_vertiport_id == old(self).target_vertiport_id,
                self.origin_slots@ == old(self).origin_slots@,
                self.target_slots@ == old(self).target_slots@,
                self.pairs@ == old(self).pairs@,
                next_candidate(ov, tv, self.origin_index as int, self.target_index as int) == goal,
                goal == next_candidate(old(self).origins(), old(self).targets(), old(self).origin_index as int, old(self).target_index as int),
            decreases self.origin_slots@.len() - self.origin_index, self.target_slots@.len() + 1 - self.target_index,
        {
            if self.target_index >= self.target_slots.len() {
                self.origin_index = self.origin_index + 1;
                self.target_index = 0;
            } else {
                let i = self.origin_index;
                let j = self.target_index;
                proof {
                    assert(ov[i as int].1 == self.origin_slots@[i as int].1);
                    assert(tv[j as int].1 == self.target_slots@[j as int].1);
                }
                if self.origin_slots[i].1.time_start >= self.target_slots[j].1.time_end {
                    self.target_index = j + 1;
                } else {
                    proof {
                        assert(next_candidate(ov, tv, i as int, j as int) == (i as int, j as int));
                        assert(goal == (i as int, j as int));
                        assert(ov == old(self).origins());
                        assert(tv == old(self).targets());
                    }
                    return Some(Timeslot {
                        time_start: self.origin_slots[i].1.time_start,
                        time_end: self.target_slots[j].1.time_end,
                    });
                }
            }
        }
        None
    }

    /// Takes the path search's answer for the current candidate. With a path,
    /// a flight that cannot arrive by the start of the arrival timeslot even
    /// when leaving at the end of the departure timeslot ends the look at this
    /// departure timeslot (the arrival timeslots that follow start later);
    /// otherwise, where a flight fits between the two timeslots (see
    /// [`flight_fits`]), the pair of the departure and arrival windows (see
    /// [`departure_window`], [`arrival_window`]) is recorded, and the next
    /// arrival timeslot comes. Without a path the next departure timeslot
    /// comes. A search that cannot be reached fails the whole search.
    pub fn on_path(&mut self, outcome: PathOutcome) -> (r: Result<(), VertiportError>)
        requires
            old(self).wf(),
            old(self).origin_index < old(self).origin_slots@.len(),
            old(self).target_index < old(self).target_slots@.len(),
            outcome matches PathOutcome::Found { flight_duration_ms, .. } ==> valid_time(flight_duration_ms as int),
        ensures
            final(self).wf(),
            final(self).origin_vertiport_id == old(self).origin_vertiport_id,
            final(self).target_vertiport_id == old(self).target_vertiport_id,
            final(self).origin_slots@ == old(self).origin_slots@,
            final(self).target_slots@ == old(self).target_slots@,
            ({
                let ots = old(self).origin_slots@[old(self).origin_index as int];
                let tts = old(self).target_slots@[old(self).target_index as int];
                match outcome {
                    PathOutcome::ClientError => r == Err::<(), VertiportError>(VertiportError::ClientError)
                        && final(self).origin_index == old(self).origin_index
                        && final(self).target_index == old(self).target_index
                        && final(self).pairs@ == old(self).pairs@,
                    PathOutcome::NoPathFound => r is Ok
                        && final(self).origin_index == old(self).origin_index + 1
                        && final(self).target_index == 0
                        && final(self).pairs@ == old(self).pairs@,
                    PathOutcome::Found { path, distance_mm, flight_duration_ms } => r is Ok && if !arrives_in_time(ots.1, tts.1, flight_duration_ms) {
                        &&& final(self).origin_index == old(self).origin_index + 1
                        &&& final(self).target_index == 0
                        &&& final(self).pairs@ == old(self).pairs@
                    } else if !flight_fits(ots.1, tts.1, flight_duration_ms) {
                        &&& final(self).origin_index == old(self).origin_index
                        &&& final(self).target_index == old(self).target_index + 1
                        &&& final(self).pairs@ == old(self).pairs@
                    } else {
                        &&& final(self).origin_index == old(self).origin_index
                        &&& final(self).target_index == old(self).target_index + 1
                        &&& pair_views(final(self).pairs@) == pair_views(old(self).pairs@).push(TimeslotPairView {
                            origin_vertiport_id: old(self).origin_vertiport_id@,
                            origin_vertipad_id: ots.0@,
                            origin_timeslot: departure_window(ots.1, tts.1, flight_duration_ms),
                            target_vertiport_id: old(self).target_vertiport_id@,
                            target_vertipad_id: tts.0@,
                            target_timeslot: arrival_window(ots.1, tts.1, flight_duration_ms),
                            path: path@,
                            distance_mm,
                        })
                    },
                }
            }),
    {
        let i = self.origin_index;
        let j = self.target_index;
        let n = self.origin_slots.len();
        let m = self.target_slots.len();
        match outcome {
            PathOutcome::ClientError => Err(VertiportError::ClientError),
            PathOutcome::NoPathFound => {
                self.origin_index = i + 1;
                self.target_index = 0;
                Ok(())
            },
            PathOutcome::Found { path, distance_mm, flight_duration_ms } => {
                let ots = self.origin_slots[i].1;
                let tts = self.target_slots[j].1;
                let d = flight_duration_ms;
                if ots.time_end + d < tts.time_start {
                    self.origin_index = i + 1;
                    self.target_index = 0;
                    return Ok(());
                }
                let ts = tts.time_start - d;
                let te = tts.time_end - d;
                let origin_timeslot = Timeslot {
                    time_start: if ots.time_start >= ts { ots.time_start } else { ts },
                    time_end: if ots.time_end <= te { ots.time_end } else { te },
                };
                if origin_timeslot.time_start > origin_timeslot.time_end {
                    self.target_index = j + 1;
                    return Ok(());
                }
                let as_ = origin_timeslot.time_start + d;
                let ae = origin_timeslot.time_end + d;
                let target_timeslot = Timeslot {
                    time_start: if tts.time_start >= as_ { tts.time_start } else { as_ },
                    time_end: if tts.time_end <= ae { tts.time_end } else { ae },
                };
                let pair = TimeslotPair {
                    origin_vertiport_id: self.origin_vertiport_id.clone(),
                    origin_vertipad_id: self.origin_slots[i].0.clone(),
                    origin_timeslot,
                    target_vertiport_id: self.target_vertiport_id.clone(),
                    target_vertipad_id: self.target_slots[j].0.clone(),
                    target_timeslot,
                    path,
                    distance_mm,
                };
                let ghost before = self.pairs@;
                self.pairs.push(pair);
                proof {
                    assert(pair_views(self.pairs@) =~= pair_views(before).push(pair@));
                }
                self.target_index = j + 1;
                Ok(())
            },
        }
    }

    /// The pairs found, shortest path first (in the order found where equal).
    pub fn into_pairs(self) -> (r: Vec<TimeslotPair>)
        ensures
            pair_views(r@) == sort_by(pair_views(self.pairs@), pair_distance_key()),
    {
        let ghost all = self.pairs@;
        let ghost pv = pair_views(self.pairs@);
        let mut rest = self.pairs;
        let n = rest.len();
        let mut r: Vec<TimeslotPair> = Vec::new();
        let mut i: usize = 0;
        proof {
            assert(pv.take(0) =~= Seq::<TimeslotPairView>::empty());
            assert(pair_views(r@) =~= Seq::<TimeslotPairView>::empty());
            assert(all.skip(0) =~= all);
        }
        while i < n
            invariant
                n == pv.len(),
                pv == pair_views(all),
                i <= n,
                rest@ == all.skip(i as int),
                pair_views(r@) == sort_by(pv.take(i as int), pair_distance_key()),
            decreases n - i,
        {
            let x = rest.remove(0);
            proof {
                assert(x == all[i as int]);
                assert(x@ == pv[i as int]);
                assert(rest@ =~= all.skip(i + 1));
                assert(pv.take(i + 1).drop_last() =~= pv.take(i as int));
                assert(pv.take(i + 1).last() == x@);
            }
            insert_pair_by_distance(&mut r, x);
            i = i + 1;
        }
        proof {
            assert(pv.take(i as int) =~= pv);
        }
        r
    }
}

/// Inserts a pair after the last one whose path is no longer.
fn insert_pair_by_distance(v: &mut Vec<TimeslotPair>, x: TimeslotPair)
    ensures
        pair_views(final(v)@) == insert_by(pair_views(old(v)@), x@, pair_distance_key()),
{
    let ghost vs = pair_views(v@);
    let ghost xv = x@;
    let mut j: usize = v.len();
    while j > 0
        invariant
            vs == pair_views(v@),
            xv == x@,
            j <= v@.len(),
            forall|k: int| j <= k < vs.len() ==> pair_distance_key()(#[trigger] vs[k]) > pair_distance_key()(xv),
        ensures
            j == 0 || vs[j - 1].distance_mm <= xv.distance_mm,
        decreases j,
    {
        proof {
            assert(vs[j - 1] == v@[j - 1]@);
        }
        if v[j - 1].distance_mm <= x.distance_mm {
            break;
        }
        j = j - 1;
    }
    proof {
        if j > 0 {
            assert(vs[j - 1] == v@[j - 1]@);
        }
        lemma_insert_by(vs, xv, pair_distance_key(), j as int);
    }
    v.insert(j, x);
    proof {
        assert(pair_views(v@) =~= vs.take(j as int).push(xv) + vs.skip(j as int));
    }
}

} // verus!
