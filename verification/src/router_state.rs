//! Flight planning over the stored schedules of vertiports and vehicles: when
//! a vehicle or a vertiport is free, where a vehicle will be, and which
//! flights (with the repositioning flights they need) can be offered within a
//! requested time window.
//!
//! Instants of calendars are milliseconds since the Unix epoch; the scheduled
//! times of stored flights are seconds since the Unix epoch.

use crate::groups::{entries_map, find_group, insert_by, keys_unique, lemma_insert_by, sort_by, lemma_entries_map, lemma_entries_map_push, lemma_entries_map_update, lemma_find_group};
use crate::text::str_eq;
use chrono::{TimeZone, Utc};
use crate::schedule::{available_between, parse_calendar, valid_time, Calendar, CalendarError, MAX_TIME_MS};
use crate::vertiport::{VertipadObject, VertiportObject};
use vstd::prelude::*;

verus! {

/// Time to block a vertiport for cargo loading and takeoff (minutes).
pub const LOADING_AND_TAKEOFF_TIME_MIN: i64 = 10;

/// Time to block a vertiport for cargo unloading and landing (minutes).
pub const LANDING_AND_UNLOADING_TIME_MIN: i64 = 10;

/// Minimum time between suggested flight plans (minutes).
pub const FLIGHT_PLAN_GAP_MINUTES: i64 = 5;

/// The most flight plans offered for one request.
pub const MAX_RETURNED_FLIGHT_PLANS: i64 = 10;

/// Milliseconds in a minute.
pub const MINUTE_MS: i64 = 60_000;

/// The instants that planning works with: far enough within the range of
/// calendar dates for the few hours that planning adds to or takes from them.
pub open spec fn in_horizon(t: int) -> bool {
    -2_000_000_000_000_000 <= t <= 2_000_000_000_000_000
}

/// A flight time (minutes) that planning works with.
pub open spec fn short_minutes(m: int) -> bool {
    0 <= m <= 10_000_000
}

/// A stored vehicle, as far as planning reads it.
#[derive(Debug, Clone)]
pub struct VehicleRecord {
    pub id: String,
    /// The vehicle's calendar, if it has one.
    pub schedule: Option<String>,
    /// The vertiport where the vehicle last landed.
    pub last_vertiport_id: Option<String>,
}

/// A stored flight, as far as planning reads it (times in seconds).
#[derive(Debug, Clone)]
pub struct FlightRecord {
    pub vehicle_id: String,
    pub departure_vertiport_id: String,
    pub destination_vertiport_id: String,
    pub scheduled_departure: i64,
    pub scheduled_arrival: i64,
}

/// A vertiport near another, with the flight time from it (minutes).
#[derive(Debug, Clone)]
pub struct NearbyVertiport {
    pub uid: String,
    pub schedule: Option<String>,
    pub duration_minutes: i64,
}

/// A flight to propose: its vehicle, vertiports and times (ms).
#[derive(Debug, Clone, PartialEq, Eq)]
pub struct FlightPlanDraft {
    pub vehicle_id: String,
    pub departure_vertiport_id: String,
    pub arrival_vertiport_id: String,
    pub departure_time: i64,
    pub arrival_time: i64,
}

pub struct FlightPlanDraftView {
    pub vehicle_id: Seq<char>,
    pub departure_vertiport_id: Seq<char>,
    pub arrival_vertiport_id: Seq<char>,
    pub departure_time: i64,
    pub arrival_time: i64,
}

impl View for FlightPlanDraft {
    type V = FlightPlanDraftView;

    open spec fn view(&self) -> FlightPlanDraftView {
        FlightPlanDraftView {
            vehicle_id: self.vehicle_id@,
            departure_vertiport_id: self.departure_vertiport_id@,
            arrival_vertiport_id: self.arrival_vertiport_id@,
            departure_time: self.departure_time,
            arrival_time: self.arrival_time,
        }
    }
}

/// The second an instant (ms) falls in.
pub open spec fn secs(ms: i64) -> int {
    ms as int / 1000
}

fn seconds_of(ms: i64) -> (r: i64)
    requires
        valid_time(ms as int),
    ensures
        r == secs(ms),
{
    if ms >= 0 {
        ms / 1000
    } else {
        let m: i64 = -ms;
        let q: i64 = (m + 999) / 1000;
        assert(-q == ms as int / 1000) by (nonlinear_arith)
            requires
                m == -ms,
                m > 0,
                q == (m + 999) / 1000,
        ;
        -q
    }
}

/// Whether two spans overlap (touching spans do not).
pub open spec fn overlaps(start1: int, end1: int, start2: int, end2: int) -> bool {
    start1 < end2 && start2 < end1
}

/// Whether a stored flight of the vehicle overlaps the span (seconds).
pub open spec fn vehicle_busy(fps: Seq<FlightRecord>, vehicle_id: Seq<char>, from_s: int, to_s: int) -> bool {
    exists|i: int| 0 <= i < fps.len() && (#[trigger] fps[i]).vehicle_id@ == vehicle_id
        && overlaps(fps[i].scheduled_departure as int, fps[i].scheduled_arrival as int, from_s, to_s)
}

/// Whether the vehicle is free from `date_from` for `minutes`: as its
/// calendar has it (a vehicle without a calendar is always free), and with no
/// stored flight of it overlapping; `Err` for a calendar that cannot be read.
pub open spec fn vehicle_available(v: VehicleRecord, date_from: i64, minutes: i64, fps: Seq<FlightRecord>) -> Result<bool, ()> {
    match v.schedule {
        None => Ok(true),
        Some(s) => match parse_calendar(s@) {
            Err(_) => Err(()),
            Ok(cal) => {
                let date_to = (date_from + minutes * MINUTE_MS) as i64;
                if !available_between(cal, date_from, date_to) {
                    Ok(false)
                } else {
                    Ok(!vehicle_busy(fps, v.id@, secs(date_from), secs(date_to)))
                }
            },
        },
    }
}

/// Whether the vehicle is free from `date_from` for `flight_duration_minutes`
/// (see [`vehicle_available`]).
pub fn is_vehicle_available(
    vehicle: &VehicleRecord,
    date_from: i64,
    flight_duration_minutes: i64,
    existing_flight_plans: &[FlightRecord],
) -> (r: Result<bool, String>)
    requires
        in_horizon(date_from as int),
        short_minutes(flight_duration_minutes as int),
    ensures
        match r {
            Ok(b) => vehicle_available(*vehicle, date_from, flight_duration_minutes, existing_flight_plans@) == Ok::<bool, ()>(b),
            Err(m) => vehicle_available(*vehicle, date_from, flight_duration_minutes, existing_flight_plans@) == Err::<bool, ()>(())
                && m@ == "Invalid schedule for vehicle."@,
        },
{
    let schedule = match &vehicle.schedule {
        None => return Ok(true),
        Some(s) => s,
    };
    let calendar = match Calendar::parse(schedule.as_str()) {
        Ok(c) => c,
        Err(_) => return Err("Invalid schedule for vehicle.".to_string()),
    };
    assert(0 <= flight_duration_minutes * MINUTE_MS <= 600_000_000_000) by (nonlinear_arith)
        requires
            short_minutes(flight_duration_minutes as int),
    ;
    let date_to = date_from + flight_duration_minutes * MINUTE_MS;
    proof {
        assert(vehicle.schedule == Some(*schedule));
        assert(calendar@ == parse_calendar(schedule@)->Ok_0);
        assert(date_to == (date_from + flight_duration_minutes * MINUTE_MS) as i64);
    }
    if !calendar.is_available_between(date_from, date_to) {
        return Ok(false);
    }
    let from_s = seconds_of(date_from);
    let to_s = seconds_of(date_to);
    let mut i: usize = 0;
    while i < existing_flight_plans.len()
        invariant
            i <= existing_flight_plans@.len(),
            vehicle.schedule == Some(*schedule),
            parse_calendar(schedule@) == Ok::<Seq<(Seq<char>, i64)>, CalendarError>(calendar@),
            date_to == (date_from + flight_duration_minutes * MINUTE_MS) as i64,
            available_between(calendar@, date_from, date_to),
            from_s == secs(date_from),
            to_s == secs(date_to),
            forall|k: int| 0 <= k < i ==> !((#[trigger] existing_flight_plans@[k]).vehicle_id@ == vehicle.id@
                && overlaps(existing_flight_plans@[k].scheduled_departure as int, existing_flight_plans@[k].scheduled_arrival as int, from_s as int, to_s as int)),
        decreases existing_flight_plans@.len() - i,
    {
        let fp = &existing_flight_plans[i];
        if fp.vehicle_id == vehicle.id && fp.scheduled_departure < to_s && from_s < fp.scheduled_arrival {
            return Ok(false);
        }
        i = i + 1;
    }
    Ok(true)
}


/// Seconds of loading and takeoff, or of landing and unloading.
pub open spec fn pad_hold_s() -> int {
    LANDING_AND_UNLOADING_TIME_MIN * 60
}

/// A stored flight that lands at the vertiport before `ts_s` plus the landing
/// time (seconds).
pub open spec fn lands_by(fp: FlightRecord, vertiport_id: Seq<char>, ts_s: int) -> bool {
    fp.destination_vertiport_id@ == vertiport_id && fp.scheduled_arrival < ts_s + pad_hold_s()
}

/// The vehicles landing at the vertiport by `ts_s` (see [`lands_by`]), each
/// once, with its latest scheduled arrival (s), in the order in which the
/// vehicles first come up in the stored flights.
pub open spec fn arrival_entries(fps: Seq<FlightRecord>, vertiport_id: Seq<char>, ts_s: int) -> Seq<(Seq<char>, i64)>
    decreases fps.len(),
{
    if fps.len() == 0 {
        Seq::empty()
    } else {
        let e = arrival_entries(fps.drop_last(), vertiport_id, ts_s);
        let fp = fps.last();
        if lands_by(fp, vertiport_id, ts_s) {
            let k = find_group(e, fp.vehicle_id@);
            if k < 0 {
                e.push((fp.vehicle_id@, fp.scheduled_arrival))
            } else if e[k].1 < fp.scheduled_arrival {
                e.update(k, (fp.vehicle_id@, fp.scheduled_arrival))
            } else {
                e
            }
        } else {
            e
        }
    }
}

/// Whole minutes from `ts_s` until `arrival_s`, or 0 once it has passed.
pub open spec fn minutes_until(arrival_s: int, ts_s: int) -> int {
    if arrival_s > ts_s { (arrival_s - ts_s) / 60 } else { 0 }
}

/// The vehicle has left again: a stored flight of it departs after `arrival_s`
/// and by `ts_s`.
pub open spec fn left_since(fps: Seq<FlightRecord>, vehicle_id: Seq<char>, arrival_s: int, ts_s: int) -> bool {
    exists|i: int| 0 <= i < fps.len() && (#[trigger] fps[i]).vehicle_id@ == vehicle_id
        && arrival_s < fps[i].scheduled_departure && fps[i].scheduled_departure <= ts_s
}

/// Of the listed (vehicle, latest landing) entries, those whose vehicle has
/// not left since, each with the minutes until it is there.
pub open spec fn present_vehicles(entries: Seq<(Seq<char>, i64)>, fps: Seq<FlightRecord>, ts_s: int) -> Seq<(Seq<char>, i64)>
    decreases entries.len(),
{
    if entries.len() == 0 {
        Seq::empty()
    } else {
        let rest = present_vehicles(entries.drop_last(), fps, ts_s);
        let e = entries.last();
        if left_since(fps, e.0, e.1 as int, ts_s) {
            rest
        } else {
            rest.push((e.0, minutes_until(e.1 as int, ts_s) as i64))
        }
    }
}

/// The vehicles parked at or flying to the vertiport at `ts_s`: those whose
/// latest landing there comes before `ts_s` plus the landing time and which
/// have not left since, each with the minutes until it is there (0 when it is
/// already parked).
pub open spec fn scheduled_vehicles(fps: Seq<FlightRecord>, vertiport_id: Seq<char>, ts_s: int) -> Seq<(Seq<char>, i64)> {
    present_vehicles(arrival_entries(fps, vertiport_id, ts_s), fps, ts_s)
}

/// For each vehicle landing at the vertiport by `ts_s`, its latest scheduled
/// arrival (s).
pub open spec fn latest_arrivals(fps: Seq<FlightRecord>, vertiport_id: Seq<char>, ts_s: int) -> Map<Seq<char>, i64>
    decreases fps.len(),
{
    if fps.len() == 0 {
        Map::empty()
    } else {
        let m = latest_arrivals(fps.drop_last(), vertiport_id, ts_s);
        let fp = fps.last();
        if lands_by(fp, vertiport_id, ts_s) && !(m.contains_key(fp.vehicle_id@) && m[fp.vehicle_id@] >= fp.scheduled_arrival) {
            m.insert(fp.vehicle_id@, fp.scheduled_arrival)
        } else {
            m
        }
    }
}

pub open spec fn entry_views(v: Seq<(String, i64)>) -> Seq<(Seq<char>, i64)> {
    v.map_values(|e: (String, i64)| (e.0@, e.1))
}

proof fn lemma_arrival_entries(fps: Seq<FlightRecord>, vertiport_id: Seq<char>, ts_s: int)
    ensures
        keys_unique(arrival_entries(fps, vertiport_id, ts_s)),
        entries_map(arrival_entries(fps, vertiport_id, ts_s)) == latest_arrivals(fps, vertiport_id, ts_s),
    decreases fps.len(),
{
    if fps.len() > 0 {
        let d = fps.drop_last();
        lemma_arrival_entries(d, vertiport_id, ts_s);
        let e = arrival_entries(d, vertiport_id, ts_s);
        let m = latest_arrivals(d, vertiport_id, ts_s);
        let fp = fps.last();
        let v = fp.vehicle_id@;
        if lands_by(fp, vertiport_id, ts_s) {
            let k = find_group(e, v);
            lemma_find_group(e, v);
            lemma_entries_map(e, v);
            if k < 0 {
                lemma_entries_map_push(e, v, fp.scheduled_arrival);
                let n = e.push((v, fp.scheduled_arrival));
                assert forall|i: int, j: int| 0 <= i < j < n.len() implies (#[trigger] n[i]).0 != (#[trigger] n[j]).0 by {
                    if j == n.len() - 1 {
                        assert(n[i] == e[i]);
                    } else {
                        assert(n[i] == e[i] && n[j] == e[j]);
                    }
                }
            } else if e[k].1 < fp.scheduled_arrival {
                lemma_entries_map_update(e, v, fp.scheduled_arrival);
                let n = e.update(k, (v, fp.scheduled_arrival));
                assert forall|i: int, j: int| 0 <= i < j < n.len() implies (#[trigger] n[i]).0 != (#[trigger] n[j]).0 by {
                    assert(n[i].0 == e[i].0 && n[j].0 == e[j].0);
                }
            }
        }
    }
}

proof fn lemma_present_vehicles(entries: Seq<(Seq<char>, i64)>, fps: Seq<FlightRecord>, ts_s: int)
    requires
        keys_unique(entries),
    ensures
        keys_unique(present_vehicles(entries, fps, ts_s)),
        forall|k: int| 0 <= k < present_vehicles(entries, fps, ts_s).len() ==> exists|m: int|
            0 <= m < entries.len() && (#[trigger] entries[m]).0 == (#[trigger] present_vehicles(entries, fps, ts_s)[k]).0
            && !left_since(fps, entries[m].0, entries[m].1 as int, ts_s)
            && present_vehicles(entries, fps, ts_s)[k].1 == minutes_until(entries[m].1 as int, ts_s) as i64,
        forall|m: int| 0 <= m < entries.len() && !left_since(fps, (#[trigger] entries[m]).0, entries[m].1 as int, ts_s)
            ==> exists|k: int| 0 <= k < present_vehicles(entries, fps, ts_s).len()
                && (#[trigger] present_vehicles(entries, fps, ts_s)[k]).0 == entries[m].0,
    decreases entries.len(),
{
    if entries.len() > 0 {
        let d = entries.drop_last();
        assert forall|i: int, j: int| 0 <= i < j < d.len() implies (#[trigger] d[i]).0 != (#[trigger] d[j]).0 by {
            assert(d[i] == entries[i] && d[j] == entries[j]);
        }
        lemma_present_vehicles(d, fps, ts_s);
        let rest = present_vehicles(d, fps, ts_s);
        let p = present_vehicles(entries, fps, ts_s);
        let e = entries.last();
        let n = entries.len() - 1;
        assert forall|k: int| 0 <= k < rest.len() implies (#[trigger] rest[k]).0 != e.0 by {
            let m = choose|m: int| 0 <= m < d.len() && (#[trigger] d[m]).0 == rest[k].0
                && !left_since(fps, d[m].0, d[m].1 as int, ts_s) && rest[k].1 == minutes_until(d[m].1 as int, ts_s) as i64;
            assert(entries[m] == d[m]);
            assert(entries[m].0 != entries[n].0);
        }
        assert forall|k: int| 0 <= k < p.len() implies exists|m: int|
            0 <= m < entries.len() && (#[trigger] entries[m]).0 == (#[trigger] p[k]).0
            && !left_since(fps, entries[m].0, entries[m].1 as int, ts_s)
            && p[k].1 == minutes_until(entries[m].1 as int, ts_s) as i64 by {
            if k < rest.len() {
                assert(p[k] == rest[k]);
                let m = choose|m: int| 0 <= m < d.len() && (#[trigger] d[m]).0 == rest[k].0
                    && !left_since(fps, d[m].0, d[m].1 as int, ts_s) && rest[k].1 == minutes_until(d[m].1 as int, ts_s) as i64;
                assert(entries[m] == d[m]);
            } else {
                assert(entries[n] == e);
            }
        }
        assert forall|m: int| 0 <= m < entries.len() && !left_since(fps, (#[trigger] entries[m]).0, entries[m].1 as int, ts_s)
            implies exists|k: int| 0 <= k < p.len() && (#[trigger] p[k]).0 == entries[m].0 by {
            if m < n {
                assert(entries[m] == d[m]);
                let k = choose|k: int| 0 <= k < rest.len() && (#[trigger] rest[k]).0 == d[m].0;
                assert(p[k] == rest[k]);
            } else {
                assert(p[rest.len() as int].0 == e.0);
            }
        }
        assert forall|i: int, j: int| 0 <= i < j < p.len() implies (#[trigger] p[i]).0 != (#[trigger] p[j]).0 by {
            if j < rest.len() {
                assert(p[i] == rest[i] && p[j] == rest[j]);
            } else {
                assert(p[i] == rest[i]);
            }
        }
    }
}

/// The vehicles at or flying to a vertiport are each listed once: exactly
/// those that land there in time and have not left since their latest landing
/// there, each with the minutes until that landing.
pub proof fn lemma_scheduled_vehicles(fps: Seq<FlightRecord>, vertiport_id: Seq<char>, ts_s: int)
    ensures
        keys_unique(scheduled_vehicles(fps, vertiport_id, ts_s)),
        forall|key: Seq<char>| (#[trigger] latest_arrivals(fps, vertiport_id, ts_s).contains_key(key)
            && !left_since(fps, key, latest_arrivals(fps, vertiport_id, ts_s)[key] as int, ts_s))
            <==> exists|k: int| 0 <= k < scheduled_vehicles(fps, vertiport_id, ts_s).len()
                && (#[trigger] scheduled_vehicles(fps, vertiport_id, ts_s)[k]).0 == key,
        forall|k: int| 0 <= k < scheduled_vehicles(fps, vertiport_id, ts_s).len()
            ==> (#[trigger] scheduled_vehicles(fps, vertiport_id, ts_s)[k]).1
                == minutes_until(latest_arrivals(fps, vertiport_id, ts_s)[scheduled_vehicles(fps, vertiport_id, ts_s)[k].0] as int, ts_s),
{
    let s = scheduled_vehicles(fps, vertiport_id, ts_s);
    let m = latest_arrivals(fps, vertiport_id, ts_s);
    lemma_arrival_entries(fps, vertiport_id, ts_s);
    lemma_present_vehicles(arrival_entries(fps, vertiport_id, ts_s), fps, ts_s);
    assert forall|key: Seq<char>| (#[trigger] m.contains_key(key) && !left_since(fps, key, m[key] as int, ts_s))
        <==> exists|k: int| 0 <= k < s.len() && (#[trigger] s[k]).0 == key by {
        lemma_scheduled_key(fps, vertiport_id, ts_s, key);
    }
    assert forall|k: int| 0 <= k < s.len() implies (#[trigger] s[k]).1 == minutes_until(m[s[k].0] as int, ts_s) by {
        lemma_scheduled_minutes(fps, vertiport_id, ts_s, k);
    }
}

proof fn lemma_scheduled_key(fps: Seq<FlightRecord>, vertiport_id: Seq<char>, ts_s: int, key: Seq<char>)
    ensures
        (latest_arrivals(fps, vertiport_id, ts_s).contains_key(key)
            && !left_since(fps, key, latest_arrivals(fps, vertiport_id, ts_s)[key] as int, ts_s))
            <==> exists|k: int| 0 <= k < scheduled_vehicles(fps, vertiport_id, ts_s).len()
                && (#[trigger] scheduled_vehicles(fps, vertiport_id, ts_s)[k]).0 == key,
{
    lemma_arrival_entries(fps, vertiport_id, ts_s);
    let e = arrival_entries(fps, vertiport_id, ts_s);
    lemma_present_vehicles(e, fps, ts_s);
    let s = scheduled_vehicles(fps, vertiport_id, ts_s);
    let m = latest_arrivals(fps, vertiport_id, ts_s);
    lemma_entries_map(e, key);
    lemma_find_group(e, key);
    let f = find_group(e, key);
    if m.contains_key(key) && !left_since(fps, key, m[key] as int, ts_s) {
        assert(e[f].0 == key);
        assert(!left_since(fps, e[f].0, e[f].1 as int, ts_s));
    }
    if exists|k: int| 0 <= k < s.len() && (#[trigger] s[k]).0 == key {
        let k = choose|k: int| 0 <= k < s.len() && (#[trigger] s[k]).0 == key;
        let i = choose|i: int| 0 <= i < e.len() && (#[trigger] e[i]).0 == (#[trigger] s[k]).0
            && !left_since(fps, e[i].0, e[i].1 as int, ts_s) && s[k].1 == minutes_until(e[i].1 as int, ts_s) as i64;
        if f != i {
            if f < i {
                assert(e[f].0 != e[i].0);
            } else {
                assert(e[i].0 != e[f].0);
            }
        }
    }
}

proof fn lemma_scheduled_minutes(fps: Seq<FlightRecord>, vertiport_id: Seq<char>, ts_s: int, k: int)
    requires
        0 <= k < scheduled_vehicles(fps, vertiport_id, ts_s).len(),
    ensures
        scheduled_vehicles(fps, vertiport_id, ts_s)[k].1
            == minutes_until(latest_arrivals(fps, vertiport_id, ts_s)[scheduled_vehicles(fps, vertiport_id, ts_s)[k].0] as int, ts_s),
{
    lemma_arrival_entries(fps, vertiport_id, ts_s);
    let e = arrival_entries(fps, vertiport_id, ts_s);
    lemma_present_vehicles(e, fps, ts_s);
    let s = scheduled_vehicles(fps, vertiport_id, ts_s);
    let i = choose|i: int| 0 <= i < e.len() && (#[trigger] e[i]).0 == (#[trigger] s[k]).0
        && !left_since(fps, e[i].0, e[i].1 as int, ts_s) && s[k].1 == minutes_until(e[i].1 as int, ts_s) as i64;
    let key = e[i].0;
    lemma_entries_map(e, key);
    lemma_find_group(e, key);
    let f = find_group(e, key);
    if f != i {
        if f < i {
            assert(e[f].0 != e[i].0);
        } else {
            assert(e[i].0 != e[f].0);
        }
    }
    lemma_arrival_bounded(fps, vertiport_id, ts_s, i);
}

/// Where in the list the vehicle is (its last entry), as [`find_group`].
fn position_of(entries: &Vec<(String, i64)>, key: &String) -> (r: Option<usize>)
    ensures
        match r {
            Some(k) => find_group(entry_views(entries@), key@) == k && k < entries@.len(),
            None => find_group(entry_views(entries@), key@) == -1,
        },
{
    let ghost ev = entry_views(entries@);
    let mut i: usize = entries.len();
    proof {
        assert(ev.take(i as int) =~= ev);
    }
    while i > 0
        invariant
            ev == entry_views(entries@),
            i <= entries@.len(),
            find_group(ev, key@) == find_group(ev.take(i as int), key@),
        decreases i,
    {
        proof {
            assert(ev.take(i as int).last() == ev[i - 1]);
            assert(ev[i - 1] == (entries@[i - 1].0@, entries@[i - 1].1));
            assert(ev.take(i as int).drop_last() =~= ev.take(i - 1));
        }
        if entries[i - 1].0 == *key {
            return Some(i - 1);
        }
        i = i - 1;
    }
    None
}

/// The vehicles parked at or flying to the vertiport at `timestamp` (ms),
/// each once, with the minutes until it is there (0 when parked); see
/// [`scheduled_vehicles`].
pub fn get_all_vehicles_scheduled_for_vertiport(
    vertiport_id: &str,
    timestamp: i64,
    existing_flight_plans: &[FlightRecord],
) -> (r: Vec<(String, i64)>)
    requires
        valid_time(timestamp as int),
    ensures
        entry_views(r@) == scheduled_vehicles(existing_flight_plans@, vertiport_id@, secs(timestamp)),
{
    let ts = seconds_of(timestamp);
    let limit = ts + 600;
    let ghost fps = existing_flight_plans@;
    let mut acc: Vec<(String, i64)> = Vec::new();
    let mut i: usize = 0;
    proof {
        assert(fps.take(0) =~= Seq::<FlightRecord>::empty());
        assert(entry_views(acc@) =~= Seq::<(Seq<char>, i64)>::empty());
    }
    while i < existing_flight_plans.len()
        invariant
            fps == existing_flight_plans@,
            ts == secs(timestamp),
            limit == ts + pad_hold_s(),
            i <= fps.len(),
            entry_views(acc@) == arrival_entries(fps.take(i as int), vertiport_id@, ts as int),
        decreases fps.len() - i,
    {
        let fp = &existing_flight_plans[i];
        proof {
            assert(fps.take(i + 1).drop_last() =~= fps.take(i as int));
            assert(fps.take(i + 1).last() == fps[i as int]);
        }
        if str_eq(fp.destination_vertiport_id.as_str(), vertiport_id) && fp.scheduled_arrival < limit {
            let ghost before = entry_views(acc@);
            match position_of(&acc, &fp.vehicle_id) {
                None => {
                    acc.push((fp.vehicle_id.clone(), fp.scheduled_arrival));
                    proof {
                        assert(entry_views(acc@) =~= before.push((fp.vehicle_id@, fp.scheduled_arrival)));
                    }
                },
                Some(k) => {
                    proof {
                        assert(before[k as int] == (acc@[k as int].0@, acc@[k as int].1));
                    }
                    if acc[k].1 < fp.scheduled_arrival {
                        acc.set(k, (fp.vehicle_id.clone(), fp.scheduled_arrival));
                        proof {
                            assert(entry_views(acc@) =~= before.update(k as int, (fp.vehicle_id@, fp.scheduled_arrival)));
                        }
                    }
                },
            }
        }
        i = i + 1;
    }
    proof {
        assert(fps.take(i as int) =~= fps);
    }
    let ghost entries = entry_views(acc@);
    let mut r: Vec<(String, i64)> = Vec::new();
    let mut j: usize = 0;
    proof {
        assert(entries.take(0) =~= Seq::<(Seq<char>, i64)>::empty());
        assert(entry_views(r@) =~= Seq::<(Seq<char>, i64)>::empty());
    }
    while j < acc.len()
        invariant
            fps == existing_flight_plans@,
            entries == entry_views(acc@),
            entries == arrival_entries(fps, vertiport_id@, ts as int),
            ts == secs(timestamp),
            valid_time(timestamp as int),
            j <= acc@.len(),
            entry_views(r@) == present_vehicles(entries.take(j as int), fps, ts as int),
        decreases acc@.len() - j,
    {
        let arrival = acc[j].1;
        proof {
            assert(entries[j as int] == (acc@[j as int].0@, acc@[j as int].1));
            assert(entries.take(j + 1).drop_last() =~= entries.take(j as int));
            assert(entries.take(j + 1).last() == entries[j as int]);
        }
        let left = has_left(existing_flight_plans, &acc[j].0, arrival, ts);
        if !left {
            let minutes: i64 = if arrival > ts {
                proof {
                    lemma_arrival_bounded(fps, vertiport_id@, ts as int, j as int);
                }
                (arrival - ts) / 60
            } else {
                0
            };
            let ghost before = entry_views(r@);
            r.push((acc[j].0.clone(), minutes));
            proof {
                assert(entry_views(r@) =~= before.push((acc@[j as int].0@, minutes)));
            }
        }
        j = j + 1;
    }
    proof {
        assert(entries.take(j as int) =~= entries);
    }
    r
}

/// Whether a stored flight of the vehicle departs after `arrival_s` and by
/// `ts_s` (see [`left_since`]).
fn has_left(existing_flight_plans: &[FlightRecord], vehicle_id: &String, arrival_s: i64, ts_s: i64) -> (r: bool)
    ensures
        r == left_since(existing_flight_plans@, vehicle_id@, arrival_s as int, ts_s as int),
{
    let ghost fps = existing_flight_plans@;
    let mut i: usize = 0;
    while i < existing_flight_plans.len()
        invariant
            fps == existing_flight_plans@,
            i <= fps.len(),
            forall|k: int| 0 <= k < i ==> !((#[trigger] fps[k]).vehicle_id@ == vehicle_id@
                && arrival_s < fps[k].scheduled_departure && fps[k].scheduled_departure <= ts_s),
        decreases fps.len() - i,
    {
        let fp = &existing_flight_plans[i];
        if fp.vehicle_id == *vehicle_id && arrival_s < fp.scheduled_departure && fp.scheduled_departure <= ts_s {
            return true;
        }
        i = i + 1;
    }
    false
}

/// Every listed arrival lands before the limit.
proof fn lemma_arrival_bounded(fps: Seq<FlightRecord>, vertiport_id: Seq<char>, ts_s: int, k: int)
    requires
        0 <= k < arrival_entries(fps, vertiport_id, ts_s).len(),
    ensures
        arrival_entries(fps, vertiport_id, ts_s)[k].1 < ts_s + pad_hold_s(),
    decreases fps.len(),
{
    if fps.len() > 0 {
        let d = fps.drop_last();
        let e = arrival_entries(d, vertiport_id, ts_s);
        let fp = fps.last();
        if k < e.len() {
            lemma_arrival_bounded(d, vertiport_id, ts_s, k);
        }
        if lands_by(fp, vertiport_id, ts_s) {
            lemma_find_group(e, fp.vehicle_id@);
        }
    }
}


/// A stored flight of the vehicle that departs by `ts_s`.
pub open spec fn departed_by(fp: FlightRecord, vehicle_id: Seq<char>, ts_s: int) -> bool {
    fp.vehicle_id@ == vehicle_id && fp.scheduled_departure <= ts_s
}

/// The position of the vehicle's stored flight with the latest departure by
/// `ts_s` (the first of several with that departure), or -1.
pub open spec fn last_departure(fps: Seq<FlightRecord>, vehicle_id: Seq<char>, ts_s: int) -> int
    decreases fps.len(),
{
    if fps.len() == 0 {
        -1
    } else {
        let k = last_departure(fps.drop_last(), vehicle_id, ts_s);
        let fp = fps.last();
        if departed_by(fp, vehicle_id, ts_s) && (k < 0 || fp.scheduled_departure > fps[k].scheduled_departure) {
            fps.len() - 1
        } else {
            k
        }
    }
}

/// Where the vehicle is, or is flying to, at `ts_s`: the destination of its
/// last flight departed by then, with the minutes until it lands there, or
/// else the vertiport where it last landed.
pub open spec fn scheduled_location(vehicle: VehicleRecord, ts_s: int, fps: Seq<FlightRecord>) -> (Seq<char>, int) {
    let k = last_departure(fps, vehicle.id@, ts_s);
    if k < 0 {
        (vehicle.last_vertiport_id->0@, 0)
    } else {
        (fps[k].destination_vertiport_id@, minutes_until(fps[k].scheduled_arrival as int, ts_s))
    }
}

/// Whether the vehicle's place at `ts_s` is known: it has flown by then, or
/// it has a last vertiport.
pub open spec fn location_known(vehicle: VehicleRecord, ts_s: int, fps: Seq<FlightRecord>) -> bool {
    last_departure(fps, vehicle.id@, ts_s) >= 0 || vehicle.last_vertiport_id is Some
}

/// Where the vehicle is, or is flying to, at `timestamp` (ms), with the
/// minutes until it is there (see [`scheduled_location`]).
pub fn get_vehicle_scheduled_location(
    vehicle: &VehicleRecord,
    timestamp: i64,
    existing_flight_plans: &[FlightRecord],
) -> (r: (String, i64))
    requires
        valid_time(timestamp as int),
        location_known(*vehicle, secs(timestamp), existing_flight_plans@),
    ensures
        (r.0@, r.1 as int) == scheduled_location(*vehicle, secs(timestamp), existing_flight_plans@),
{
    let ts = seconds_of(timestamp);
    let ghost fps = existing_flight_plans@;
    let mut best: Option<usize> = None;
    let mut i: usize = 0;
    proof {
        assert(fps.take(0) =~= Seq::<FlightRecord>::empty());
    }
    while i < existing_flight_plans.len()
        invariant
            fps == existing_flight_plans@,
            ts == secs(timestamp),
            i <= fps.len(),
            match best {
                None => last_departure(fps.take(i as int), vehicle.id@, ts as int) == -1,
                Some(b) => last_departure(fps.take(i as int), vehicle.id@, ts as int) == b && b < i,
            },
        decreases fps.len() - i,
    {
        let fp = &existing_flight_plans[i];
        proof {
            assert(fps.take(i + 1).drop_last() =~= fps.take(i as int));
            assert(fps.take(i + 1).last() == fps[i as int]);
            if let Some(b) = best {
                assert(fps.take(i + 1)[b as int] == fps[b as int]);
            }
        }
        if fp.vehicle_id == vehicle.id && fp.scheduled_departure <= ts {
            let later = match best {
                None => true,
                Some(b) => fp.scheduled_departure > existing_flight_plans[b].scheduled_departure,
            };
            if later {
                best = Some(i);
            }
        }
        i = i + 1;
    }
    proof {
        assert(fps.take(i as int) =~= fps);
    }
    match best {
        None => {
            let last = vehicle.last_vertiport_id.as_ref().unwrap();
            (last.clone(), 0)
        },
        Some(b) => {
            let fp = &existing_flight_plans[b];
            let minutes: i64 = if fp.scheduled_arrival > ts {
                let d: i128 = fp.scheduled_arrival as i128 - ts as i128;
                (d / 60) as i64
            } else {
                0
            };
            (fp.destination_vertiport_id.clone(), minutes)
        },
    }
}


/// A calendar text is given, and reads as a calendar.
pub open spec fn schedule_readable(schedule: Option<String>) -> bool {
    schedule is Some && parse_calendar(schedule->0@) is Ok
}

/// The events of a readable calendar text.
pub open spec fn schedule_events(schedule: Option<String>) -> Seq<(Seq<char>, i64)> {
    parse_calendar(schedule->0@)->Ok_0
}

/// The number of pads of a vertiport with the given number of vertipads: a
/// vertiport without vertipads counts as one pad.
pub open spec fn pad_count(num_vertipads: nat) -> int {
    if num_vertipads == 0 { 1 } else { num_vertipads as int }
}

/// The span (ms) that a flight holds a vertiport around `at_ms`: the loading
/// and takeoff time after a departure, the landing and unloading time before
/// an arrival.
pub open spec fn hold_window(at_ms: i64, is_departure: bool) -> (i64, i64) {
    if is_departure {
        (at_ms, (at_ms + LOADING_AND_TAKEOFF_TIME_MIN * MINUTE_MS) as i64)
    } else {
        ((at_ms - LANDING_AND_UNLOADING_TIME_MIN * MINUTE_MS) as i64, at_ms)
    }
}

/// A stored flight holds the vertiport within `[from_s, to_s]` (seconds):
/// for a departure check, one of its takeoffs from there overlaps it; for an
/// arrival check, one of its landings there.
pub open spec fn holds_vertiport(fp: FlightRecord, vertiport_id: Seq<char>, from_s: int, to_s: int, is_departure: bool) -> bool {
    if is_departure {
        fp.departure_vertiport_id@ == vertiport_id && fp.scheduled_departure + pad_hold_s() > from_s
            && fp.scheduled_departure < to_s
    } else {
        fp.destination_vertiport_id@ == vertiport_id && fp.scheduled_arrival > from_s
            && fp.scheduled_arrival - pad_hold_s() < to_s
    }
}

/// Some stored flight holds the vertiport within the span.
pub open spec fn vertiport_conflict(fps: Seq<FlightRecord>, vertiport_id: Seq<char>, from_s: int, to_s: int, is_departure: bool) -> bool {
    exists|i: int| 0 <= i < fps.len() && holds_vertiport(#[trigger] fps[i], vertiport_id, from_s, to_s, is_departure)
}

/// Whether the vertiport can take a departure (or an arrival) at `at_ms`, and
/// the vehicles it then holds: the calendar must leave the hold window free;
/// a vertiport with several pads must then hold fewer vehicles than pads, and
/// one with a single pad must have no stored flight holding it.
pub open spec fn vertiport_check(
    events: Seq<(Seq<char>, i64)>,
    num_vertipads: nat,
    vertiport_id: Seq<char>,
    at_ms: i64,
    fps: Seq<FlightRecord>,
    is_departure: bool,
) -> (bool, Seq<(Seq<char>, i64)>) {
    let (from, to) = hold_window(at_ms, is_departure);
    if !available_between(events, from, to) {
        (false, Seq::empty())
    } else if pad_count(num_vertipads) > 1 {
        let v = scheduled_vehicles(fps, vertiport_id, secs(to));
        (v.len() < pad_count(num_vertipads), v)
    } else {
        (!vertiport_conflict(fps, vertiport_id, secs(from), secs(to), is_departure), Seq::empty())
    }
}

/// Whether the vertiport can take a departure (`is_departure_vertiport`) or
/// an arrival at `at_date_time` (ms), and the vehicles it holds then (see
/// [`vertiport_check`]).
pub fn is_vertiport_available(
    vertiport_id: String,
    vertiport_schedule: Option<String>,
    vertipads: &[VertipadObject],
    at_date_time: i64,
    existing_flight_plans: &[FlightRecord],
    is_departure_vertiport: bool,
) -> (r: (bool, Vec<(String, i64)>))
    requires
        schedule_readable(vertiport_schedule),
        in_horizon(at_date_time as int),
    ensures
        (r.0, entry_views(r.1@)) == vertiport_check(
            schedule_events(vertiport_schedule),
            vertipads@.len(),
            vertiport_id@,
            at_date_time,
            existing_flight_plans@,
            is_departure_vertiport,
        ),
{
    let num_vertipads: usize = if vertipads.len() == 0 { 1 } else { vertipads.len() };
    let calendar = match Calendar::parse(vertiport_schedule.as_ref().unwrap().as_str()) {
        Ok(c) => c,
        Err(_) => {
            proof {
                assert(false);
            }
            return (false, Vec::new());
        },
    };
    let (date_from, date_to) = if is_departure_vertiport {
        (at_date_time, at_date_time + LOADING_AND_TAKEOFF_TIME_MIN * MINUTE_MS)
    } else {
        (at_date_time - LANDING_AND_UNLOADING_TIME_MIN * MINUTE_MS, at_date_time)
    };
    proof {
        assert(calendar@ == schedule_events(vertiport_schedule));
        assert((date_from, date_to) == hold_window(at_date_time, is_departure_vertiport));
    }
    if !calendar.is_available_between(date_from, date_to) {
        return (false, Vec::new());
    }
    if num_vertipads > 1 {
        let vehicles = get_all_vehicles_scheduled_for_vertiport(vertiport_id.as_str(), date_to, existing_flight_plans);
        return (vehicles.len() < num_vertipads, vehicles);
    }
    let from_s = seconds_of(date_from);
    let to_s = seconds_of(date_to);
    proof {
        assert(pad_count(vertipads@.len()) <= 1);
    }
    let ghost fps = existing_flight_plans@;
    let mut i: usize = 0;
    while i < existing_flight_plans.len()
        invariant
            fps == existing_flight_plans@,
            i <= fps.len(),
            calendar@ == schedule_events(vertiport_schedule),
            (date_from, date_to) == hold_window(at_date_time, is_departure_vertiport),
            available_between(calendar@, date_from, date_to),
            pad_count(vertipads@.len()) <= 1,
            in_horizon(at_date_time as int),
            from_s == secs(date_from),
            to_s == secs(date_to),
            forall|k: int| 0 <= k < i ==> !holds_vertiport(#[trigger] fps[k], vertiport_id@, from_s as int, to_s as int, is_departure_vertiport),
        decreases fps.len() - i,
    {
        let fp = &existing_flight_plans[i];
        let holds = if is_departure_vertiport {
            str_eq(fp.departure_vertiport_id.as_str(), vertiport_id.as_str()) && fp.scheduled_departure > from_s - 600
                && fp.scheduled_departure < to_s
        } else {
            str_eq(fp.destination_vertiport_id.as_str(), vertiport_id.as_str()) && fp.scheduled_arrival > from_s
                && fp.scheduled_arrival < to_s + 600
        };
        if holds {
            return (false, Vec::new());
        }
        i = i + 1;
    }
    (true, Vec::new())
}


/// The instants that a flight search starts from: far enough within the
/// horizon for the hours that a search adds to or takes from them.
pub open spec fn search_time(t: int) -> bool {
    -1_000_000_000_000_000 <= t <= 1_000_000_000_000_000
}

/// The vertiport can be used at `at_ms` by the vehicle: it is available, or
/// the vehicle is one of those it holds, parked there.
pub open spec fn usable_by(
    events: Seq<(Seq<char>, i64)>,
    num_vertipads: nat,
    vertiport_id: Seq<char>,
    at_ms: i64,
    fps: Seq<FlightRecord>,
    is_departure: bool,
    vehicle_id: Seq<char>,
) -> bool {
    let c = vertiport_check(events, num_vertipads, vertiport_id, at_ms, fps, is_departure);
    c.0 || c.1.contains((vehicle_id, 0i64))
}

/// The `i`-th slot tried for a flight that takes off from the vertiport and
/// lands back there: `i` loading times after `from_ms`.
pub open spec fn reroute_slot(from_ms: i64, i: int) -> i64 {
    (from_ms + i * LOADING_AND_TAKEOFF_TIME_MIN * MINUTE_MS) as i64
}

/// The vehicle can take off from the vertiport at the `i`-th slot and land
/// back there a landing time later.
pub open spec fn reroute_gap_at(
    events: Seq<(Seq<char>, i64)>,
    num_vertipads: nat,
    vertiport_id: Seq<char>,
    from_ms: i64,
    fps: Seq<FlightRecord>,
    vehicle_id: Seq<char>,
    i: int,
) -> bool {
    let t = reroute_slot(from_ms, i);
    usable_by(events, num_vertipads, vertiport_id, t, fps, true, vehicle_id)
        && usable_by(events, num_vertipads, vertiport_id, (t + LANDING_AND_UNLOADING_TIME_MIN * MINUTE_MS) as i64, fps, false, vehicle_id)
}

/// The first of the six slots from the `i`-th on that fits such a flight.
pub open spec fn first_reroute_gap(
    events: Seq<(Seq<char>, i64)>,
    num_vertipads: nat,
    vertiport_id: Seq<char>,
    from_ms: i64,
    fps: Seq<FlightRecord>,
    vehicle_id: Seq<char>,
    i: int,
) -> Option<i64>
    decreases 6 - i,
{
    if i >= 6 {
        None
    } else if reroute_gap_at(events, num_vertipads, vertiport_id, from_ms, fps, vehicle_id, i) {
        Some(reroute_slot(from_ms, i))
    } else {
        first_reroute_gap(events, num_vertipads, vertiport_id, from_ms, fps, vehicle_id, i + 1)
    }
}

proof fn lemma_reroute_gap_bounded(
    events: Seq<(Seq<char>, i64)>,
    num_vertipads: nat,
    vertiport_id: Seq<char>,
    from_ms: i64,
    fps: Seq<FlightRecord>,
    vehicle_id: Seq<char>,
    i: int,
)
    requires
        0 <= i,
        -1_900_000_000_000_000 <= from_ms <= 1_900_000_000_000_000,
    ensures
        first_reroute_gap(events, num_vertipads, vertiport_id, from_ms, fps, vehicle_id, i) matches Some(g)
            ==> from_ms <= g <= from_ms + 5 * LOADING_AND_TAKEOFF_TIME_MIN * MINUTE_MS,
    decreases 6 - i,
{
    if i < 6 {
        lemma_reroute_gap_bounded(events, num_vertipads, vertiport_id, from_ms, fps, vehicle_id, i + 1);
    }
}

/// Whether the list holds the vehicle with no minutes to go.
fn lists_parked(vehicles: &Vec<(String, i64)>, vehicle_id: &String) -> (r: bool)
    ensures
        r == entry_views(vehicles@).contains((vehicle_id@, 0i64)),
{
    let ghost ev = entry_views(vehicles@);
    let mut i: usize = 0;
    while i < vehicles.len()
        invariant
            ev == entry_views(vehicles@),
            i <= vehicles@.len(),
            forall|k: int| 0 <= k < i ==> ev[k] != (vehicle_id@, 0i64),
        decreases vehicles@.len() - i,
    {
        proof {
            assert(ev[i as int] == (vehicles@[i as int].0@, vehicles@[i as int].1));
        }
        if vehicles[i].1 == 0 && vehicles[i].0 == *vehicle_id {
            proof {
                assert(ev[i as int] == (vehicle_id@, 0i64));
            }
            return true;
        }
        i = i + 1;
    }
    false
}

/// The first slot, of six a loading time apart from `date_from`, at which
/// the vehicle can take off from the vertiport and land back there.
fn find_nearest_gap_for_reroute_flight(
    vertiport_id: String,
    vertiport_schedule: Option<String>,
    vertipads: &[VertipadObject],
    date_from: i64,
    vehicle_id: String,
    existing_flight_plans: &[FlightRecord],
) -> (r: Option<i64>)
    requires
        schedule_readable(vertiport_schedule),
        -1_900_000_000_000_000 <= date_from <= 1_900_000_000_000_000,
    ensures
        r == first_reroute_gap(
            schedule_events(vertiport_schedule),
            vertipads@.len(),
            vertiport_id@,
            date_from,
            existing_flight_plans@,
            vehicle_id@,
            0,
        ),
{
    let ghost events = schedule_events(vertiport_schedule);
    let ghost n = vertipads@.len();
    let mut i: i64 = 0;
    while i < 6
        invariant
            0 <= i <= 6,
            schedule_readable(vertiport_schedule),
            events == schedule_events(vertiport_schedule),
            n == vertipads@.len(),
            -1_900_000_000_000_000 <= date_from <= 1_900_000_000_000_000,
            first_reroute_gap(events, n, vertiport_id@, date_from, existing_flight_plans@, vehicle_id@, 0)
                == first_reroute_gap(events, n, vertiport_id@, date_from, existing_flight_plans@, vehicle_id@, i as int),
        decreases 6 - i,
    {
        let added_time = date_from + i * LOADING_AND_TAKEOFF_TIME_MIN * MINUTE_MS;
        let (dep, vehicles_dep) = is_vertiport_available(
            vertiport_id.clone(),
            vertiport_schedule.clone(),
            vertipads,
            added_time,
            existing_flight_plans,
            true,
        );
        let (arr, vehicles_arr) = is_vertiport_available(
            vertiport_id.clone(),
            vertiport_schedule.clone(),
            vertipads,
            added_time + LANDING_AND_UNLOADING_TIME_MIN * MINUTE_MS,
            existing_flight_plans,
            false,
        );
        let dep_ok = dep || lists_parked(&vehicles_dep, &vehicle_id);
        let arr_ok = arr || lists_parked(&vehicles_arr, &vehicle_id);
        proof {
            assert(added_time == reroute_slot(date_from, i as int));
        }
        if dep_ok && arr_ok {
            return Some(added_time);
        }
        i = i + 1;
    }
    None
}

/// A flight to propose, as plain values.
pub open spec fn draft_view(d: Option<FlightPlanDraft>) -> Option<FlightPlanDraftView> {
    match d {
        None => None,
        Some(x) => Some(x@),
    }
}

/// The position of the first listed vehicle that is parked (no minutes to
/// go), from the `i`-th on, or -1.
pub open spec fn first_parked(v: Seq<(Seq<char>, i64)>, i: int) -> int
    decreases v.len() - i,
{
    if i < 0 || i >= v.len() {
        -1
    } else if v[i].1 == 0 {
        i
    } else {
        first_parked(v, i + 1)
    }
}

/// The flight that moves an idle vehicle out of the arrival vertiport to
/// free a pad: the first parked vehicle in the list takes off at the first
/// free slot after the arrival (see [`first_reroute_gap`]) and lands back
/// there after a loading and a landing time.
pub open spec fn rerouted_plan(
    vehicles: Seq<(Seq<char>, i64)>,
    vertiport_arrive: VertiportObject,
    num_vertipads: nat,
    arrival_time: i64,
    fps: Seq<FlightRecord>,
) -> Option<FlightPlanDraftView> {
    let k = first_parked(vehicles, 0);
    if k < 0 {
        None
    } else {
        match first_reroute_gap(
            schedule_events(vertiport_arrive.data->0.schedule),
            num_vertipads,
            vertiport_arrive.id@,
            arrival_time,
            fps,
            vehicles[k].0,
            0,
        ) {
            None => None,
            Some(gap) => Some(FlightPlanDraftView {
                vehicle_id: vehicles[k].0,
                departure_vertiport_id: vertiport_arrive.id@,
                arrival_vertiport_id: vertiport_arrive.id@,
                departure_time: gap,
                arrival_time: (gap + (LANDING_AND_UNLOADING_TIME_MIN + LOADING_AND_TAKEOFF_TIME_MIN) * MINUTE_MS) as i64,
            }),
        }
    }
}

/// With no pad free at the arrival vertiport, a flight that moves a vehicle
/// parked there away (see [`rerouted_plan`]).
pub fn find_rerouted_vehicle_flight_plan(
    vehicles_at_arrival_airport: &[(String, i64)],
    vertiport_arrive: &VertiportObject,
    vertipads_arrive: &[VertipadObject],
    arrival_time: &i64,
    existing_flight_plans: &[FlightRecord],
) -> (r: Option<FlightPlanDraft>)
    requires
        -1_900_000_000_000_000 <= *arrival_time <= 1_900_000_000_000_000,
        first_parked(entry_views(vehicles_at_arrival_airport@), 0) >= 0 ==> vertiport_arrive.data is Some
            && schedule_readable(vertiport_arrive.data->0.schedule),
    ensures
        draft_view(r) == rerouted_plan(
            entry_views(vehicles_at_arrival_airport@),
            *vertiport_arrive,
            vertipads_arrive@.len(),
            *arrival_time,
            existing_flight_plans@,
        ),
{
    let ghost ev = entry_views(vehicles_at_arrival_airport@);
    let mut k: usize = 0;
    proof {
        assert(first_parked(ev, 0) == first_parked(ev, k as int));
    }
    while k < vehicles_at_arrival_airport.len()
        invariant
            ev == entry_views(vehicles_at_arrival_airport@),
            k <= ev.len(),
            first_parked(ev, 0) == first_parked(ev, k as int),
        ensures
            k <= ev.len(),
            first_parked(ev, 0) == first_parked(ev, k as int),
            k < ev.len() ==> ev[k as int].1 == 0,
        decreases ev.len() - k,
    {
        proof {
            assert(ev[k as int] == (vehicles_at_arrival_airport@[k as int].0@, vehicles_at_arrival_airport@[k as int].1));
        }
        if vehicles_at_arrival_airport[k].1 == 0 {
            break;
        }
        k = k + 1;
    }
    if k >= vehicles_at_arrival_airport.len() {
        return None;
    }
    proof {
        assert(ev[k as int] == (vehicles_at_arrival_airport@[k as int].0@, vehicles_at_arrival_airport@[k as int].1));
        assert(first_parked(ev, 0) == k);
    }
    let vehicle_id = vehicles_at_arrival_airport[k].0.clone();
    let data = vertiport_arrive.data.as_ref().unwrap();
    let gap = find_nearest_gap_for_reroute_flight(
        vertiport_arrive.id.clone(),
        data.schedule.clone(),
        vertipads_arrive,
        *arrival_time,
        vehicle_id.clone(),
        existing_flight_plans,
    );
    proof {
        if let Some(g) = gap {
            lemma_reroute_gap_bounded(
                schedule_events(data.schedule), vertipads_arrive@.len(), vertiport_arrive.id@, *arrival_time,
                existing_flight_plans@, vehicle_id@, 0,
            );
        }
    }
    match gap {
        None => None,
        Some(g) => Some(FlightPlanDraft {
            vehicle_id,
            departure_vertiport_id: vertiport_arrive.id.clone(),
            arrival_vertiport_id: vertiport_arrive.id.clone(),
            departure_time: g,
            arrival_time: g + (LANDING_AND_UNLOADING_TIME_MIN + LOADING_AND_TAKEOFF_TIME_MIN) * MINUTE_MS,
        }),
    }
}


impl View for VehicleRecord {
    type V = (Seq<char>, Option<Seq<char>>, Option<Seq<char>>);

    open spec fn view(&self) -> (Seq<char>, Option<Seq<char>>, Option<Seq<char>>) {
        (self.id@, opt_text(self.schedule), opt_text(self.last_vertiport_id))
    }
}

/// The characters of an optional text.
pub open spec fn opt_text(s: Option<String>) -> Option<Seq<char>> {
    match s {
        None => None,
        Some(t) => Some(t@),
    }
}

fn copy_opt_text(s: &Option<String>) -> (r: Option<String>)
    ensures
        opt_text(r) == opt_text(*s),
{
    match s {
        None => None,
        Some(t) => Some(t.clone()),
    }
}

impl VehicleRecord {
    /// A copy of the record.
    pub fn copy(&self) -> (r: VehicleRecord)
        ensures
            r@ == self@,
    {
        VehicleRecord {
            id: self.id.clone(),
            schedule: copy_opt_text(&self.schedule),
            last_vertiport_id: copy_opt_text(&self.last_vertiport_id),
        }
    }
}

/// When a repositioning flight from a nearby vertiport has to leave to reach
/// the departure vertiport by `departure_time`.
pub open spec fn deadhead_departure(n: NearbyVertiport, departure_time: i64) -> i64 {
    (departure_time - n.duration_minutes * MINUTE_MS) as i64
}

/// The vehicle can fly from the nearby vertiport to the departure vertiport
/// in time: it is (or will be) at the nearby vertiport when it has to leave,
/// it is free for the blocked time, the nearby vertiport can take the
/// departure, and the departure vertiport can take the arrival a landing time
/// before `departure_time`.
pub open spec fn deadhead_ok(
    n: NearbyVertiport,
    vehicle: VehicleRecord,
    vertiport_depart: VertiportObject,
    num_vertipads_depart: nat,
    departure_time: i64,
    fps: Seq<FlightRecord>,
    block_minutes: i64,
) -> bool {
    let t0 = deadhead_departure(n, departure_time);
    &&& scheduled_location(vehicle, secs(t0), fps).0 == n.uid@
    &&& vehicle_available(vehicle, t0, block_minutes, fps) == Ok::<bool, ()>(true)
    &&& vertiport_check(schedule_events(n.schedule), 0, n.uid@, t0, fps, true).0
    &&& vertiport_check(
        schedule_events(vertiport_depart.data->0.schedule),
        num_vertipads_depart,
        vertiport_depart.id@,
        (departure_time - LANDING_AND_UNLOADING_TIME_MIN * MINUTE_MS) as i64,
        fps,
        false,
    ).0
}

/// The first (nearby vertiport, vehicle) pair, from `(i, j)` on, that can
/// make a repositioning flight (see [`deadhead_ok`]): nearby vertiports in
/// order, and for each the vehicles in order.
pub open spec fn first_deadhead(
    nearest: Seq<NearbyVertiport>,
    vehicles: Seq<VehicleRecord>,
    vertiport_depart: VertiportObject,
    num_vertipads_depart: nat,
    departure_time: i64,
    fps: Seq<FlightRecord>,
    block_minutes: i64,
    i: int,
    j: int,
) -> Option<(int, int)>
    decreases nearest.len() - i, vehicles.len() - j,
{
    if i < 0 || i >= nearest.len() || j < 0 {
        None
    } else if j >= vehicles.len() {
        first_deadhead(nearest, vehicles, vertiport_depart, num_vertipads_depart, departure_time, fps, block_minutes, i + 1, 0)
    } else if deadhead_ok(nearest[i], vehicles[j], vertiport_depart, num_vertipads_depart, departure_time, fps, block_minutes) {
        Some((i, j))
    } else {
        first_deadhead(nearest, vehicles, vertiport_depart, num_vertipads_depart, departure_time, fps, block_minutes, i, j + 1)
    }
}

/// The repositioning flight of a found pair.
pub open spec fn deadhead_plan(n: NearbyVertiport, vehicle: VehicleRecord, vertiport_depart: VertiportObject, departure_time: i64) -> FlightPlanDraftView {
    FlightPlanDraftView {
        vehicle_id: vehicle.id@,
        departure_vertiport_id: n.uid@,
        arrival_vertiport_id: vertiport_depart.id@,
        departure_time: deadhead_departure(n, departure_time),
        arrival_time: departure_time,
    }
}

/// What a repositioning search needs of its inputs: times and flight
/// durations within range, readable calendars, and a known place for every
/// vehicle at every time it is asked for.
pub open spec fn deadhead_inputs(
    nearest: Seq<NearbyVertiport>,
    vehicles: Seq<VehicleRecord>,
    vertiport_depart: VertiportObject,
    departure_time: i64,
    fps: Seq<FlightRecord>,
    block_minutes: i64,
) -> bool {
    &&& -1_900_000_000_000_000 <= departure_time <= 1_900_000_000_000_000
    &&& short_minutes(block_minutes as int)
    &&& vertiport_depart.data is Some
    &&& schedule_readable(vertiport_depart.data->0.schedule)
    &&& forall|i: int| 0 <= i < nearest.len() ==> short_minutes((#[trigger] nearest[i]).duration_minutes as int)
        && schedule_readable(nearest[i].schedule)
    &&& forall|i: int, j: int| 0 <= i < nearest.len() && 0 <= j < vehicles.len()
        ==> location_known(#[trigger] vehicles[j], secs(deadhead_departure(#[trigger] nearest[i], departure_time)), fps)
}

/// With no vehicle at the departure vertiport, a vehicle at a nearby
/// vertiport that can be flown there in time, and that repositioning flight
/// (see [`first_deadhead`]); `(None, None)` when there is none.
pub fn find_deadhead_flight_plan(
    nearest_vertiports_from_departure: &[NearbyVertiport],
    vehicles: &[VehicleRecord],
    vertiport_depart: &VertiportObject,
    vertipads_depart: &[VertipadObject],
    departure_time: i64,
    existing_flight_plans: &[FlightRecord],
    block_aircraft_and_vertiports_minutes: i64,
) -> (r: (Option<VehicleRecord>, Option<FlightPlanDraft>))
    requires
        deadhead_inputs(
            nearest_vertiports_from_departure@,
            vehicles@,
            *vertiport_depart,
            departure_time,
            existing_flight_plans@,
            block_aircraft_and_vertiports_minutes,
        ),
    ensures
        match first_deadhead(
            nearest_vertiports_from_departure@,
            vehicles@,
            *vertiport_depart,
            vertipads_depart@.len(),
            departure_time,
            existing_flight_plans@,
            block_aircraft_and_vertiports_minutes,
            0,
            0,
        ) {
            None => r.0 is None && r.1 is None,
            Some((i, j)) => r.0 matches Some(v) && v@ == vehicles@[j]@
                && draft_view(r.1) == Some(deadhead_plan(nearest_vertiports_from_departure@[i], vehicles@[j], *vertiport_depart, departure_time)),
        },
{
    let ghost nearest = nearest_vertiports_from_departure@;
    let ghost vs = vehicles@;
    let ghost fps = existing_flight_plans@;
    let ghost np = vertipads_depart@.len();
    let block = block_aircraft_and_vertiports_minutes;
    let no_pads: Vec<VertipadObject> = Vec::new();
    let depart_data = vertiport_depart.data.as_ref().unwrap();
    let mut i: usize = 0;
    while i < nearest_vertiports_from_departure.len()
        invariant
            nearest == nearest_vertiports_from_departure@,
            vs == vehicles@,
            fps == existing_flight_plans@,
            np == vertipads_depart@.len(),
            no_pads@.len() == 0,
            block == block_aircraft_and_vertiports_minutes,
            vertiport_depart.data == Some(*depart_data),
            deadhead_inputs(nearest, vs, *vertiport_depart, departure_time, fps, block),
            i <= nearest.len(),
            first_deadhead(nearest, vs, *vertiport_depart, np, departure_time, fps, block, 0, 0)
                == first_deadhead(nearest, vs, *vertiport_depart, np, departure_time, fps, block, i as int, 0),
        decreases nearest.len() - i,
    {
        let n = &nearest_vertiports_from_departure[i];
        proof {
            assert(short_minutes(nearest[i as int].duration_minutes as int) && schedule_readable(nearest[i as int].schedule));
        }
        assert(0 <= n.duration_minutes * MINUTE_MS <= 600_000_000_000) by (nonlinear_arith)
            requires
                short_minutes(n.duration_minutes as int),
        ;
        let t0 = departure_time - n.duration_minutes * MINUTE_MS;
        let mut j: usize = 0;
        while j < vehicles.len()
            invariant
                nearest == nearest_vertiports_from_departure@,
                vs == vehicles@,
                fps == existing_flight_plans@,
                np == vertipads_depart@.len(),
                no_pads@.len() == 0,
                block == block_aircraft_and_vertiports_minutes,
                vertiport_depart.data == Some(*depart_data),
                deadhead_inputs(nearest, vs, *vertiport_depart, departure_time, fps, block),
                i < nearest.len(),
                *n == nearest[i as int],
                t0 == deadhead_departure(*n, departure_time),
                -2_000_000_000_000_000 <= t0 <= 2_000_000_000_000_000,
                j <= vs.len(),
                first_deadhead(nearest, vs, *vertiport_depart, np, departure_time, fps, block, 0, 0)
                    == first_deadhead(nearest, vs, *vertiport_depart, np, departure_time, fps, block, i as int, j as int),
            decreases vs.len() - j,
        {
            let vehicle = &vehicles[j];
            proof {
                assert(location_known(vs[j as int], secs(deadhead_departure(nearest[i as int], departure_time)), fps));
            }
            let (location, _minutes) = get_vehicle_scheduled_location(vehicle, t0, existing_flight_plans);
            let ok = if location == n.uid {
                match is_vehicle_available(vehicle, t0, block, existing_flight_plans) {
                    Ok(true) => {
                        let (dep, _) = is_vertiport_available(
                            n.uid.clone(),
                            n.schedule.clone(),
                            no_pads.as_slice(),
                            t0,
                            existing_flight_plans,
                            true,
                        );
                        let (arr, _) = is_vertiport_available(
                            vertiport_depart.id.clone(),
                            depart_data.schedule.clone(),
                            vertipads_depart,
                            departure_time - LANDING_AND_UNLOADING_TIME_MIN * MINUTE_MS,
                            existing_flight_plans,
                            false,
                        );
                        dep && arr
                    },
                    _ => false,
                }
            } else {
                false
            };
            proof {
                assert(ok == deadhead_ok(nearest[i as int], vs[j as int], *vertiport_depart, np, departure_time, fps, block));
            }
            if ok {
                let found = vehicle.copy();
                let plan = FlightPlanDraft {
                    vehicle_id: vehicle.id.clone(),
                    departure_vertiport_id: n.uid.clone(),
                    arrival_vertiport_id: vertiport_depart.id.clone(),
                    departure_time: t0,
                    arrival_time: departure_time,
                };
                return (Some(found), Some(plan));
            }
            j = j + 1;
        }
        i = i + 1;
    }
    (None, None)
}


/// The flight time of a nearby vertiport, as the order of nearness.
pub open spec fn duration_key() -> spec_fn(NearbyVertiport) -> int {
    |n: NearbyVertiport| n.duration_minutes as int
}

/// Inserts a nearby vertiport after the last one that is no farther.
fn insert_by_duration(v: &mut Vec<NearbyVertiport>, x: NearbyVertiport)
    ensures
        final(v)@ == insert_by(old(v)@, x, duration_key()),
{
    let ghost vs = v@;
    let mut j: usize = v.len();
    while j > 0
        invariant
            vs == v@,
            j <= v@.len(),
            forall|k: int| j <= k < vs.len() ==> duration_key()(#[trigger] vs[k]) > duration_key()(x),
        ensures
            j == 0 || vs[j - 1].duration_minutes <= x.duration_minutes,
        decreases j,
    {
        if v[j - 1].duration_minutes <= x.duration_minutes {
            break;
        }
        j = j - 1;
    }
    proof {
        lemma_insert_by(vs, x, duration_key(), j as int);
    }
    v.insert(j, x);
    proof {
        assert(v@ =~= vs.take(j as int).push(x) + vs.skip(j as int));
    }
}

/// The vertiports near the departure vertiport, nearest (shortest flight)
/// first; of equally near ones, the one given first comes first.
pub fn get_nearest_vertiports_vertiport_id(vertiport_durations: Vec<NearbyVertiport>) -> (r: Vec<NearbyVertiport>)
    ensures
        r@ == sort_by(vertiport_durations@, duration_key()),
{
    let ghost all = vertiport_durations@;
    let n: usize = vertiport_durations.len();
    let mut rest = vertiport_durations;
    let mut r: Vec<NearbyVertiport> = Vec::new();
    proof {
        assert(all.take(0) =~= Seq::<NearbyVertiport>::empty());
        assert(all.skip(0) =~= all);
    }
    let mut i: usize = 0;
    while rest.len() > 0
        invariant
            all.len() == n,
            i + rest@.len() == all.len(),
            rest@ == all.skip(i as int),
            r@ == sort_by(all.take(i as int), duration_key()),
        decreases rest@.len(),
    {
        let x = rest.remove(0);
        proof {
            assert(x == all[i as int]);
            assert(all.take(i + 1).drop_last() =~= all.take(i as int));
            assert(all.take(i + 1).last() == all[i as int]);
            assert(rest@ =~= all.skip(i + 1));
        }
        insert_by_duration(&mut r, x);
        i = i + 1;
    }
    proof {
        assert(all.take(i as int) =~= all);
    }
    r
}


/// The text that `chrono` gives for the instant (ms) as a UTC date and time,
/// such as `2022-10-25 14:15:00 UTC`.
pub uninterp spec fn utc_text(ms: i64) -> Seq<char>;

/// Formats the instant (ms) with `chrono::Utc.timestamp_millis_opt` and the
/// `Display` of `DateTime<Utc>`; the result is named by [`utc_text`]. Every
/// instant within the range of calendar dates maps to exactly one date.
#[verifier::external_body]
fn format_utc(ms: i64) -> (r: String)
    requires
        valid_time(ms as int),
    ensures
        r@ == utc_text(ms),
{
    match Utc.timestamp_millis_opt(ms).single() {
        Some(d) => d.to_string(),
        None => String::new(),
    }
}

/// Why no flights could be offered.
#[derive(Debug, Clone, Copy, PartialEq, Eq, Structural)]
pub enum PossibleFlightsError {
    /// The request gave no earliest departure time.
    NoEarliestDeparture,
    /// The request gave no latest arrival time.
    NoLatestArrival,
    /// The departure vertiport has no data.
    NoDepartureData,
    /// The arrival vertiport has no data.
    NoArrivalData,
    /// No flight fits the time window (ms).
    NoFlightPlans { earliest: i64, latest: i64 },
}

impl PossibleFlightsError {
    pub open spec fn message(&self) -> Seq<char> {
        match self {
            PossibleFlightsError::NoEarliestDeparture => "No earliest departure time given."@,
            PossibleFlightsError::NoLatestArrival => "No latest arrival time given."@,
            PossibleFlightsError::NoDepartureData => "(get_possible_flights) No data provided for vertiport_depart."@,
            PossibleFlightsError::NoArrivalData => "(get_possible_flights) No data provided for vertiport_arrive."@,
            PossibleFlightsError::NoFlightPlans { earliest, latest } => "No flight plans found for given time window ["@
                + utc_text(*earliest) + "] - ["@ + utc_text(*latest) + "]."@,
        }
    }

    /// The message describing the error.
    pub fn to_string(&self) -> (r: String)
        requires
            self matches PossibleFlightsError::NoFlightPlans { earliest, latest } ==> valid_time(earliest as int)
                && valid_time(latest as int),
        ensures
            r@ == self.message(),
    {
        match self {
            PossibleFlightsError::NoEarliestDeparture => "No earliest departure time given.".to_string(),
            PossibleFlightsError::NoLatestArrival => "No latest arrival time given.".to_string(),
            PossibleFlightsError::NoDepartureData => "(get_possible_flights) No data provided for vertiport_depart.".to_string(),
            PossibleFlightsError::NoArrivalData => "(get_possible_flights) No data provided for vertiport_arrive.".to_string(),
            PossibleFlightsError::NoFlightPlans { earliest, latest } => {
                let mut s = "No flight plans found for given time window [".to_owned();
                let e = format_utc(*earliest);
                s.append(e.as_str());
                s.append("] - [");
                let l = format_utc(*latest);
                s.append(l.as_str());
                s.append("].");
                s
            },
        }
    }
}

/// The requested time window: both ends must be given.
pub fn flight_window(
    earliest_departure_time: Option<i64>,
    latest_arrival_time: Option<i64>,
) -> (r: Result<(i64, i64), PossibleFlightsError>)
    ensures
        match (earliest_departure_time, latest_arrival_time) {
            (None, _) => r == Err::<(i64, i64), PossibleFlightsError>(PossibleFlightsError::NoEarliestDeparture),
            (Some(_), None) => r == Err::<(i64, i64), PossibleFlightsError>(PossibleFlightsError::NoLatestArrival),
            (Some(e), Some(l)) => r == Ok::<(i64, i64), PossibleFlightsError>((e, l)),
        },
{
    let earliest = match earliest_departure_time {
        Some(t) => t,
        None => return Err(PossibleFlightsError::NoEarliestDeparture),
    };
    let latest = match latest_arrival_time {
        Some(t) => t,
        None => return Err(PossibleFlightsError::NoLatestArrival),
    };
    Ok((earliest, latest))
}

/// What a flight search answers (see [`get_possible_flights`]): both ends of
/// the window must be given (checked in that order), then both vertiports
/// must have data; then the flights of [`possible_flights`], each landing by
/// the latest arrival time, or an error where there are none.
pub open spec fn possible_flights_outcome(
    vertiport_depart: VertiportObject,
    vertiport_arrive: VertiportObject,
    num_vertipads_depart: nat,
    num_vertipads_arrive: nat,
    earliest: Option<i64>,
    latest: Option<i64>,
    vehicles: Seq<VehicleRecord>,
    fps: Seq<FlightRecord>,
    nearest: Seq<NearbyVertiport>,
    block_minutes: i64,
    num_flight_options: i64,
    r: Result<Vec<(FlightPlanDraft, Vec<FlightPlanDraft>)>, PossibleFlightsError>,
) -> bool {
    &&& earliest is None ==> r == Err::<Vec<(FlightPlanDraft, Vec<FlightPlanDraft>)>, PossibleFlightsError>(
        PossibleFlightsError::NoEarliestDeparture)
    &&& earliest is Some && latest is None
        ==> r == Err::<Vec<(FlightPlanDraft, Vec<FlightPlanDraft>)>, PossibleFlightsError>(PossibleFlightsError::NoLatestArrival)
    &&& (earliest is Some && latest is Some) ==> {
        let e = earliest->Some_0;
        let l = latest->Some_0;
        &&& vertiport_depart.data is None ==> r == Err::<Vec<(FlightPlanDraft, Vec<FlightPlanDraft>)>, PossibleFlightsError>(
            PossibleFlightsError::NoDepartureData)
        &&& vertiport_depart.data is Some && vertiport_arrive.data is None
            ==> r == Err::<Vec<(FlightPlanDraft, Vec<FlightPlanDraft>)>, PossibleFlightsError>(PossibleFlightsError::NoArrivalData)
        &&& vertiport_depart.data is Some && vertiport_arrive.data is Some ==> {
            let found = possible_flights(
                vertiport_depart,
                vertiport_arrive,
                num_vertipads_depart,
                num_vertipads_arrive,
                vehicles,
                fps,
                nearest,
                e,
                block_minutes,
                num_flight_options as int,
            );
            if found.len() == 0 {
                r == Err::<Vec<(FlightPlanDraft, Vec<FlightPlanDraft>)>, PossibleFlightsError>(
                    PossibleFlightsError::NoFlightPlans { earliest: e, latest: l })
            } else {
                r matches Ok(v) && option_views(v@) == found
            }
        }
        &&& r matches Ok(v) ==> forall|k: int| 0 <= k < v@.len() ==> (#[trigger] v@[k]).0.arrival_time <= l
    }
}

/// The flights that can be offered between two vertiports within the time
/// window (see [`possible_flights_outcome`]). Every offered flight lands by
/// the latest arrival time. [`try_get_possible_flights`] checks the inputs
/// first.
pub fn get_possible_flights(
    vertiport_depart: &VertiportObject,
    vertiport_arrive: &VertiportObject,
    vertipads_depart: &[VertipadObject],
    vertipads_arrive: &[VertipadObject],
    earliest_departure_time: Option<i64>,
    latest_arrival_time: Option<i64>,
    vehicles: &[VehicleRecord],
    existing_flight_plans: &[FlightRecord],
    nearest_vertiports_from_departure: &[NearbyVertiport],
    block_aircraft_and_vertiports_minutes: i64,
    num_flight_options: i64,
) -> (r: Result<Vec<(FlightPlanDraft, Vec<FlightPlanDraft>)>, PossibleFlightsError>)
    requires
        (earliest_departure_time is Some && latest_arrival_time is Some) ==> search_inputs(
            *vertiport_depart,
            *vertiport_arrive,
            vehicles@,
            existing_flight_plans@,
            nearest_vertiports_from_departure@,
            earliest_departure_time->Some_0,
            latest_arrival_time->Some_0,
            block_aircraft_and_vertiports_minutes,
            num_flight_options,
        ),
    ensures
        possible_flights_outcome(
            *vertiport_depart,
            *vertiport_arrive,
            vertipads_depart@.len(),
            vertipads_arrive@.len(),
            earliest_departure_time,
            latest_arrival_time,
            vehicles@,
            existing_flight_plans@,
            nearest_vertiports_from_departure@,
            block_aircraft_and_vertiports_minutes,
            num_flight_options,
            r,
        ),
{
    let (earliest, latest) = flight_window(earliest_departure_time, latest_arrival_time)?;
    let r = search_flights(
        vertiport_depart,
        vertiport_arrive,
        vertipads_depart,
        vertipads_arrive,
        earliest,
        latest,
        vehicles,
        existing_flight_plans,
        nearest_vertiports_from_departure,
        block_aircraft_and_vertiports_minutes,
        num_flight_options,
    );
    proof {
        if r is Ok {
            let v = r->Ok_0;
            let found = possible_flights(
                *vertiport_depart, *vertiport_arrive, vertipads_depart@.len(), vertipads_arrive@.len(), vehicles@,
                existing_flight_plans@, nearest_vertiports_from_departure@, earliest,
                block_aircraft_and_vertiports_minutes, num_flight_options as int);
            lemma_possible_flights_shape(
                *vertiport_depart, *vertiport_arrive, vertipads_depart@.len(), vertipads_arrive@.len(), vehicles@,
                existing_flight_plans@, nearest_vertiports_from_departure@, earliest,
                block_aircraft_and_vertiports_minutes, num_flight_options as int);
            let b = block_aircraft_and_vertiports_minutes;
            assert(0 <= b * MINUTE_MS <= 600_000_000_000) by (nonlinear_arith)
                requires
                    short_minutes(b as int),
            ;
            assert forall|k: int| 0 <= k < v@.len() implies (#[trigger] v@[k]).0.arrival_time <= latest by {
                assert(option_views(v@)[k] == found[k]);
                let p = found[k].0;
                let i = choose|i: int| 0 <= i < num_flight_options && p.departure_time == option_departure(earliest, i);
                assert(i * FLIGHT_PLAN_GAP_MINUTES * MINUTE_MS <= (num_flight_options - 1) * FLIGHT_PLAN_GAP_MINUTES * MINUTE_MS)
                    by (nonlinear_arith)
                    requires
                        0 <= i <= num_flight_options - 1,
                ;
            }
        }
    }
    r
}

/// The departure time of the `i`-th flight option: options are a planning
/// gap apart from the earliest departure.
pub open spec fn option_departure(earliest: i64, i: int) -> i64 {
    (earliest + i * FLIGHT_PLAN_GAP_MINUTES * MINUTE_MS) as i64
}

/// The vehicle is parked at the departure vertiport at `departure_time` and
/// free for the blocked time.
pub open spec fn vehicle_ready(vehicle: VehicleRecord, vertiport_id: Seq<char>, departure_time: i64, fps: Seq<FlightRecord>, block_minutes: i64) -> bool {
    &&& scheduled_location(vehicle, secs(departure_time), fps) == (vertiport_id, 0int)
    &&& vehicle_available(vehicle, departure_time, block_minutes, fps) == Ok::<bool, ()>(true)
}

/// The position of the first ready vehicle (see [`vehicle_ready`]) from the
/// `j`-th on, or -1.
pub open spec fn first_ready(vehicles: Seq<VehicleRecord>, vertiport_id: Seq<char>, departure_time: i64, fps: Seq<FlightRecord>, block_minutes: i64, j: int) -> int
    decreases vehicles.len() - j,
{
    if j < 0 || j >= vehicles.len() {
        -1
    } else if vehicle_ready(vehicles[j], vertiport_id, departure_time, fps, block_minutes) {
        j
    } else {
        first_ready(vehicles, vertiport_id, departure_time, fps, block_minutes, j + 1)
    }
}

/// The flight (and the repositioning flights it needs) offered for a
/// departure at `departure_time`, if any: the departure vertiport must take
/// the departure; the arrival vertiport must take the arrival, or else an idle
/// vehicle there must be moved away first; then the first vehicle ready at the
/// departure vertiport flies, or else one brought in from a nearby vertiport.
pub open spec fn flight_option(
    vertiport_depart: VertiportObject,
    vertiport_arrive: VertiportObject,
    num_vertipads_depart: nat,
    num_vertipads_arrive: nat,
    vehicles: Seq<VehicleRecord>,
    fps: Seq<FlightRecord>,
    nearest: Seq<NearbyVertiport>,
    block_minutes: i64,
    departure_time: i64,
) -> Option<(FlightPlanDraftView, Seq<FlightPlanDraftView>)> {
    let arrival_time = (departure_time + block_minutes * MINUTE_MS) as i64;
    let dep = vertiport_check(
        schedule_events(vertiport_depart.data->0.schedule), num_vertipads_depart, vertiport_depart.id@, departure_time, fps, true);
    let arr = vertiport_check(
        schedule_events(vertiport_arrive.data->0.schedule), num_vertipads_arrive, vertiport_arrive.id@,
        (arrival_time - LANDING_AND_UNLOADING_TIME_MIN * MINUTE_MS) as i64, fps, false);
    let reroute = rerouted_plan(arr.1, vertiport_arrive, num_vertipads_arrive, arrival_time, fps);
    if !dep.0 || (!arr.0 && reroute is None) {
        None
    } else {
        let moves: Seq<FlightPlanDraftView> = if arr.0 { Seq::empty() } else { seq![reroute->0] };
        let k = first_ready(vehicles, vertiport_depart.id@, departure_time, fps, block_minutes, 0);
        let plan = |vehicle_id: Seq<char>| FlightPlanDraftView {
            vehicle_id,
            departure_vertiport_id: vertiport_depart.id@,
            arrival_vertiport_id: vertiport_arrive.id@,
            departure_time,
            arrival_time,
        };
        if k >= 0 {
            Some((plan(vehicles[k].id@), moves))
        } else {
            match first_deadhead(nearest, vehicles, vertiport_depart, num_vertipads_depart, departure_time, fps, block_minutes, 0, 0) {
                None => None,
                Some((i, j)) => Some((plan(vehicles[j].id@), moves.push(deadhead_plan(nearest[i], vehicles[j], vertiport_depart, departure_time)))),
            }
        }
    }
}

/// The flights offered for the first `n` departure options, in order.
pub open spec fn possible_flights(
    vertiport_depart: VertiportObject,
    vertiport_arrive: VertiportObject,
    num_vertipads_depart: nat,
    num_vertipads_arrive: nat,
    vehicles: Seq<VehicleRecord>,
    fps: Seq<FlightRecord>,
    nearest: Seq<NearbyVertiport>,
    earliest: i64,
    block_minutes: i64,
    n: int,
) -> Seq<(FlightPlanDraftView, Seq<FlightPlanDraftView>)>
    decreases n,
{
    if n <= 0 {
        Seq::empty()
    } else {
        let prev = possible_flights(
            vertiport_depart, vertiport_arrive, num_vertipads_depart, num_vertipads_arrive, vehicles, fps, nearest,
            earliest, block_minutes, n - 1);
        match flight_option(
            vertiport_depart, vertiport_arrive, num_vertipads_depart, num_vertipads_arrive, vehicles, fps, nearest,
            block_minutes, option_departure(earliest, n - 1)) {
            None => prev,
            Some(o) => prev.push(o),
        }
    }
}

pub open spec fn draft_views(v: Seq<FlightPlanDraft>) -> Seq<FlightPlanDraftView> {
    v.map_values(|d: FlightPlanDraft| d@)
}

pub open spec fn option_views(v: Seq<(FlightPlanDraft, Vec<FlightPlanDraft>)>) -> Seq<(FlightPlanDraftView, Seq<FlightPlanDraftView>)> {
    v.map_values(|o: (FlightPlanDraft, Vec<FlightPlanDraft>)| (o.0@, draft_views(o.1@)))
}

/// What a flight search needs of its inputs: times and durations within
/// range, between one and the most options, the last of which still lands by
/// the latest arrival, readable calendars, and a known
/// place for every vehicle at every time it is asked for.
pub open spec fn search_inputs(
    vertiport_depart: VertiportObject,
    vertiport_arrive: VertiportObject,
    vehicles: Seq<VehicleRecord>,
    fps: Seq<FlightRecord>,
    nearest: Seq<NearbyVertiport>,
    earliest: i64,
    latest: i64,
    block_minutes: i64,
    num_flight_options: i64,
) -> bool {
    &&& search_time(earliest as int)
    &&& valid_time(latest as int)
    &&& short_minutes(block_minutes as int)
    &&& 1 <= num_flight_options <= MAX_RETURNED_FLIGHT_PLANS
    &&& option_departure(earliest, num_flight_options - 1) + block_minutes * MINUTE_MS <= latest
    &&& vertiport_depart.data is Some ==> schedule_readable(vertiport_depart.data->0.schedule)
    &&& vertiport_arrive.data is Some ==> schedule_readable(vertiport_arrive.data->0.schedule)
    &&& forall|i: int, j: int| 0 <= i < num_flight_options && 0 <= j < vehicles.len()
        ==> location_known(#[trigger] vehicles[j], secs(#[trigger] option_departure(earliest, i)), fps)
    &&& forall|i: int| 0 <= i < num_flight_options && vertiport_depart.data is Some
        ==> deadhead_inputs(nearest, vehicles, vertiport_depart, #[trigger] option_departure(earliest, i), fps, block_minutes)
}

/// The flights (each with the repositioning flights it needs) that can be
/// offered for `num_flight_options` departures a planning gap apart from the
/// earliest departure, each blocking its vehicle and vertiports for
/// `block_aircraft_and_vertiports_minutes` (see [`flight_option`]); an error
/// for a vertiport without data, or when no flight can be offered.
fn search_flights(
    vertiport_depart: &VertiportObject,
    vertiport_arrive: &VertiportObject,
    vertipads_depart: &[VertipadObject],
    vertipads_arrive: &[VertipadObject],
    earliest_departure_time: i64,
    latest_arrival_time: i64,
    vehicles: &[VehicleRecord],
    existing_flight_plans: &[FlightRecord],
    nearest_vertiports_from_departure: &[NearbyVertiport],
    block_aircraft_and_vertiports_minutes: i64,
    num_flight_options: i64,
) -> (r: Result<Vec<(FlightPlanDraft, Vec<FlightPlanDraft>)>, PossibleFlightsError>)
    requires
        search_inputs(
            *vertiport_depart,
            *vertiport_arrive,
            vehicles@,
            existing_flight_plans@,
            nearest_vertiports_from_departure@,
            earliest_departure_time,
            latest_arrival_time,
            block_aircraft_and_vertiports_minutes,
            num_flight_options,
        ),
    ensures
        vertiport_depart.data is None ==> r == Err::<Vec<(FlightPlanDraft, Vec<FlightPlanDraft>)>, PossibleFlightsError>(
            PossibleFlightsError::NoDepartureData),
        vertiport_depart.data is Some && vertiport_arrive.data is None ==> r == Err::<Vec<(FlightPlanDraft, Vec<FlightPlanDraft>)>, PossibleFlightsError>(
            PossibleFlightsError::NoArrivalData),
        vertiport_depart.data is Some && vertiport_arrive.data is Some ==> {
            let found = possible_flights(
                *vertiport_depart,
                *vertiport_arrive,
                vertipads_depart@.len(),
                vertipads_arrive@.len(),
                vehicles@,
                existing_flight_plans@,
                nearest_vertiports_from_departure@,
                earliest_departure_time,
                block_aircraft_and_vertiports_minutes,
                num_flight_options as int,
            );
            if found.len() == 0 {
                r == Err::<Vec<(FlightPlanDraft, Vec<FlightPlanDraft>)>, PossibleFlightsError>(
                    PossibleFlightsError::NoFlightPlans { earliest: earliest_departure_time, latest: latest_arrival_time })
            } else {
                r matches Ok(v) && option_views(v@) == found
            }
        },
{
    let depart_data = match vertiport_depart.data.as_ref() {
        Some(d) => d,
        None => return Err(PossibleFlightsError::NoDepartureData),
    };
    let arrive_data = match vertiport_arrive.data.as_ref() {
        Some(d) => d,
        None => return Err(PossibleFlightsError::NoArrivalData),
    };
    let ghost d = *vertiport_depart;
    let ghost a = *vertiport_arrive;
    let ghost nd = vertipads_depart@.len();
    let ghost na = vertipads_arrive@.len();
    let ghost vs = vehicles@;
    let ghost fps = existing_flight_plans@;
    let ghost nearest = nearest_vertiports_from_departure@;
    let earliest = earliest_departure_time;
    let block = block_aircraft_and_vertiports_minutes;
    assert(0 <= block * MINUTE_MS <= 600_000_000_000) by (nonlinear_arith)
        requires
            short_minutes(block as int),
    ;
    let mut flight_plans: Vec<(FlightPlanDraft, Vec<FlightPlanDraft>)> = Vec::new();
    let mut i: i64 = 0;
    while i < num_flight_options
        invariant
            d == *vertiport_depart,
            a == *vertiport_arrive,
            nd == vertipads_depart@.len(),
            na == vertipads_arrive@.len(),
            vs == vehicles@,
            fps == existing_flight_plans@,
            nearest == nearest_vertiports_from_departure@,
            earliest == earliest_departure_time,
            block == block_aircraft_and_vertiports_minutes,
            0 <= block * MINUTE_MS <= 600_000_000_000,
            vertiport_depart.data == Some(*depart_data),
            vertiport_arrive.data == Some(*arrive_data),
            search_inputs(d, a, vs, fps, nearest, earliest, latest_arrival_time, block, num_flight_options),
            0 <= i <= num_flight_options,
            option_views(flight_plans@) == possible_flights(d, a, nd, na, vs, fps, nearest, earliest, block, i as int),
        decreases num_flight_options - i,
    {
        let departure_time = earliest + i * FLIGHT_PLAN_GAP_MINUTES * MINUTE_MS;
        let arrival_time = departure_time + block * MINUTE_MS;
        proof {
            assert(departure_time == option_departure(earliest, i as int));
        }
        let (dep_ok, _) = is_vertiport_available(
            vertiport_depart.id.clone(),
            depart_data.schedule.clone(),
            vertipads_depart,
            departure_time,
            existing_flight_plans,
            true,
        );
        let (arr_ok, vehicles_at_arrival_airport) = is_vertiport_available(
            vertiport_arrive.id.clone(),
            arrive_data.schedule.clone(),
            vertipads_arrive,
            arrival_time - LANDING_AND_UNLOADING_TIME_MIN * MINUTE_MS,
            existing_flight_plans,
            false,
        );
        let option = plan_option(
            vertiport_depart,
            vertiport_arrive,
            vertipads_depart,
            vertipads_arrive,
            vehicles,
            existing_flight_plans,
            nearest_vertiports_from_departure,
            block,
            departure_time,
            arrival_time,
            dep_ok,
            arr_ok,
            &vehicles_at_arrival_airport,
            i,
            num_flight_options,
            earliest,
            latest_arrival_time,
        );
        let ghost before = option_views(flight_plans@);
        match option {
            None => {},
            Some(o) => {
                flight_plans.push(o);
                proof {
                    assert(option_views(flight_plans@) =~= before.push((o.0@, draft_views(o.1@))));
                }
            },
        }
        i = i + 1;
    }
    if flight_plans.len() == 0 {
        return Err(PossibleFlightsError::NoFlightPlans { earliest: earliest_departure_time, latest: latest_arrival_time });
    }
    Ok(flight_plans)
}


/// The flight offered for one departure option, from the checks of both
/// vertiports (see [`flight_option`]).
fn plan_option(
    vertiport_depart: &VertiportObject,
    vertiport_arrive: &VertiportObject,
    vertipads_depart: &[VertipadObject],
    vertipads_arrive: &[VertipadObject],
    vehicles: &[VehicleRecord],
    existing_flight_plans: &[FlightRecord],
    nearest_vertiports_from_departure: &[NearbyVertiport],
    block: i64,
    departure_time: i64,
    arrival_time: i64,
    dep_ok: bool,
    arr_ok: bool,
    vehicles_at_arrival_airport: &Vec<(String, i64)>,
    i: i64,
    num_flight_options: i64,
    earliest: i64,
    latest: i64,
) -> (r: Option<(FlightPlanDraft, Vec<FlightPlanDraft>)>)
    requires
        search_inputs(
            *vertiport_depart,
            *vertiport_arrive,
            vehicles@,
            existing_flight_plans@,
            nearest_vertiports_from_departure@,
            earliest,
            latest,
            block,
            num_flight_options,
        ),
        vertiport_depart.data is Some,
        vertiport_arrive.data is Some,
        0 <= i < num_flight_options,
        departure_time == option_departure(earliest, i as int),
        arrival_time == departure_time + block * MINUTE_MS,
        dep_ok == vertiport_check(
            schedule_events(vertiport_depart.data->0.schedule), vertipads_depart@.len(), vertiport_depart.id@,
            departure_time, existing_flight_plans@, true).0,
        (arr_ok, entry_views(vehicles_at_arrival_airport@)) == vertiport_check(
            schedule_events(vertiport_arrive.data->0.schedule), vertipads_arrive@.len(), vertiport_arrive.id@,
            (arrival_time - LANDING_AND_UNLOADING_TIME_MIN * MINUTE_MS) as i64, existing_flight_plans@, false),
    ensures
        (match r {
            None => None,
            Some(o) => Some((o.0@, draft_views(o.1@))),
        }) == flight_option(
            *vertiport_depart,
            *vertiport_arrive,
            vertipads_depart@.len(),
            vertipads_arrive@.len(),
            vehicles@,
            existing_flight_plans@,
            nearest_vertiports_from_departure@,
            block,
            departure_time,
        ),
{
    let ghost d = *vertiport_depart;
    let ghost a = *vertiport_arrive;
    let ghost vs = vehicles@;
    let ghost fps = existing_flight_plans@;
    let ghost spec_option = flight_option(
        d, a, vertipads_depart@.len(), vertipads_arrive@.len(), vs, fps, nearest_vertiports_from_departure@, block, departure_time);
    proof {
        assert(0 <= block * MINUTE_MS <= 600_000_000_000) by (nonlinear_arith)
            requires
                short_minutes(block as int),
        ;
        assert(arrival_time == (departure_time + block * MINUTE_MS) as i64);
    }
    if !dep_ok {
        return None;
    }
    let mut moves: Vec<FlightPlanDraft> = Vec::new();
    if !arr_ok {
        match find_rerouted_vehicle_flight_plan(
            vehicles_at_arrival_airport.as_slice(),
            vertiport_arrive,
            vertipads_arrive,
            &arrival_time,
            existing_flight_plans,
        ) {
            Some(p) => {
                moves.push(p);
                proof {
                    assert(draft_views(moves@) =~= seq![p@]);
                }
            },
            None => return None,
        }
    } else {
        proof {
            assert(draft_views(moves@) =~= Seq::<FlightPlanDraftView>::empty());
        }
    }
    let mut k: usize = 0;
    proof {
        assert(search_time(earliest as int));
    }
    while k < vehicles.len()
        invariant
            d == *vertiport_depart,
            a == *vertiport_arrive,
            vs == vehicles@,
            fps == existing_flight_plans@,
            search_inputs(d, a, vs, fps, nearest_vertiports_from_departure@, earliest, latest, block, num_flight_options),
            0 <= i < num_flight_options,
            departure_time == option_departure(earliest, i as int),
            -1_100_000_000_000_000 <= departure_time <= 1_100_000_000_000_000,
            k <= vs.len(),
            first_ready(vs, d.id@, departure_time, fps, block, 0) == first_ready(vs, d.id@, departure_time, fps, block, k as int),
        ensures
            k <= vs.len(),
            first_ready(vs, d.id@, departure_time, fps, block, 0) == first_ready(vs, d.id@, departure_time, fps, block, k as int),
            k < vs.len() ==> vehicle_ready(vs[k as int], d.id@, departure_time, fps, block),
        decreases vs.len() - k,
    {
        let vehicle = &vehicles[k];
        proof {
            assert(location_known(vs[k as int], secs(option_departure(earliest, i as int)), fps));
        }
        let (location, minutes) = get_vehicle_scheduled_location(vehicle, departure_time, existing_flight_plans);
        let at_vertiport = location == vertiport_depart.id && minutes == 0;
        proof {
            assert(at_vertiport == (scheduled_location(vs[k as int], secs(departure_time), fps) == (d.id@, 0int)));
        }
        if at_vertiport {
            let available = is_vehicle_available(vehicle, departure_time, block, existing_flight_plans);
            let ready = match available {
                Ok(b) => b,
                Err(_) => false,
            };
            proof {
                assert(ready == (vehicle_available(vs[k as int], departure_time, block, fps) == Ok::<bool, ()>(true)));
                assert(ready == vehicle_ready(vs[k as int], d.id@, departure_time, fps, block));
            }
            if ready {
                break;
            }
        }
        proof {
            assert(!vehicle_ready(vs[k as int], d.id@, departure_time, fps, block));
        }
        k = k + 1;
    }
    let vehicle_id = if k < vehicles.len() {
        vehicles[k].id.clone()
    } else {
        proof {
            assert(deadhead_inputs(nearest_vertiports_from_departure@, vs, d, option_departure(earliest, i as int), fps, block));
        }
        let (found, deadhead) = find_deadhead_flight_plan(
            nearest_vertiports_from_departure,
            vehicles,
            vertiport_depart,
            vertipads_depart,
            departure_time,
            existing_flight_plans,
            block,
        );
        match (found, deadhead) {
            (Some(v), Some(p)) => {
                let ghost before = draft_views(moves@);
                moves.push(p);
                proof {
                    assert(draft_views(moves@) =~= before.push(p@));
                }
                v.id
            },
            _ => return None,
        }
    };
    let plan = FlightPlanDraft {
        vehicle_id,
        departure_vertiport_id: vertiport_depart.id.clone(),
        arrival_vertiport_id: vertiport_arrive.id.clone(),
        departure_time,
        arrival_time,
    };
    Some((plan, moves))
}


/// Every offered flight goes from the departure to the arrival vertiport,
/// leaves at one of the departure options and lands the blocked time later,
/// with a vehicle of the fleet and at most two repositioning flights; there
/// are at most as many flights as options.
pub proof fn lemma_possible_flights_shape(
    vertiport_depart: VertiportObject,
    vertiport_arrive: VertiportObject,
    num_vertipads_depart: nat,
    num_vertipads_arrive: nat,
    vehicles: Seq<VehicleRecord>,
    fps: Seq<FlightRecord>,
    nearest: Seq<NearbyVertiport>,
    earliest: i64,
    block_minutes: i64,
    n: int,
)
    ensures
        ({
            let found = possible_flights(
                vertiport_depart, vertiport_arrive, num_vertipads_depart, num_vertipads_arrive, vehicles, fps, nearest,
                earliest, block_minutes, n);
            &&& found.len() <= if n < 0 { 0 } else { n }
            &&& forall|k: int| 0 <= k < found.len() ==> {
                let (p, moves) = #[trigger] found[k];
                &&& p.departure_vertiport_id == vertiport_depart.id@
                &&& p.arrival_vertiport_id == vertiport_arrive.id@
                &&& (exists|i: int| 0 <= i < n && p.departure_time == option_departure(earliest, i))
                &&& p.arrival_time == (p.departure_time + block_minutes * MINUTE_MS) as i64
                &&& (exists|j: int| 0 <= j < vehicles.len() && p.vehicle_id == (#[trigger] vehicles[j]).id@)
                &&& moves.len() <= 2
            }
        }),
    decreases n,
{
    if n > 0 {
        lemma_possible_flights_shape(
            vertiport_depart, vertiport_arrive, num_vertipads_depart, num_vertipads_arrive, vehicles, fps, nearest,
            earliest, block_minutes, n - 1);
        let prev = possible_flights(
            vertiport_depart, vertiport_arrive, num_vertipads_depart, num_vertipads_arrive, vehicles, fps, nearest,
            earliest, block_minutes, n - 1);
        let dt = option_departure(earliest, n - 1);
        let found = possible_flights(
            vertiport_depart, vertiport_arrive, num_vertipads_depart, num_vertipads_arrive, vehicles, fps, nearest,
            earliest, block_minutes, n);
        let o = flight_option(
            vertiport_depart, vertiport_arrive, num_vertipads_depart, num_vertipads_arrive, vehicles, fps, nearest,
            block_minutes, dt);
        if let Some(x) = o {
            let k = first_ready(vehicles, vertiport_depart.id@, dt, fps, block_minutes, 0);
            lemma_first_ready(vehicles, vertiport_depart.id@, dt, fps, block_minutes, 0);
            lemma_first_deadhead(nearest, vehicles, vertiport_depart, num_vertipads_depart, dt, fps, block_minutes, 0, 0);
            if k >= 0 {
                assert(x.0.vehicle_id == vehicles[k].id@);
            } else {
                let (i, j) = first_deadhead(nearest, vehicles, vertiport_depart, num_vertipads_depart, dt, fps, block_minutes, 0, 0)->Some_0;
                assert(x.0.vehicle_id == vehicles[j].id@);
            }
            assert forall|k: int| 0 <= k < found.len() implies {
                let (p, moves) = #[trigger] found[k];
                &&& p.departure_vertiport_id == vertiport_depart.id@
                &&& p.arrival_vertiport_id == vertiport_arrive.id@
                &&& (exists|i: int| 0 <= i < n && p.departure_time == option_departure(earliest, i))
                &&& p.arrival_time == (p.departure_time + block_minutes * MINUTE_MS) as i64
                &&& (exists|j: int| 0 <= j < vehicles.len() && p.vehicle_id == (#[trigger] vehicles[j]).id@)
                &&& moves.len() <= 2
            } by {
                if k < prev.len() {
                    assert(found[k] == prev[k]);
                } else {
                    assert(found[k] == x);
                    assert(x.0.departure_time == option_departure(earliest, n - 1));
                }
            }
        }
    }
}

proof fn lemma_first_ready(vehicles: Seq<VehicleRecord>, vertiport_id: Seq<char>, departure_time: i64, fps: Seq<FlightRecord>, block_minutes: i64, j: int)
    requires
        0 <= j,
    ensures
        -1 <= first_ready(vehicles, vertiport_id, departure_time, fps, block_minutes, j) < vehicles.len(),
    decreases vehicles.len() - j,
{
    if j < vehicles.len() {
        lemma_first_ready(vehicles, vertiport_id, departure_time, fps, block_minutes, j + 1);
    }
}

proof fn lemma_first_deadhead(
    nearest: Seq<NearbyVertiport>,
    vehicles: Seq<VehicleRecord>,
    vertiport_depart: VertiportObject,
    num_vertipads_depart: nat,
    departure_time: i64,
    fps: Seq<FlightRecord>,
    block_minutes: i64,
    i: int,
    j: int,
)
    ensures
        first_deadhead(nearest, vehicles, vertiport_depart, num_vertipads_depart, departure_time, fps, block_minutes, i, j) matches Some((a, b))
            ==> 0 <= a < nearest.len() && 0 <= b < vehicles.len(),
    decreases nearest.len() - i, vehicles.len() - j,
{
    if !(i < 0 || i >= nearest.len() || j < 0) {
        if j >= vehicles.len() {
            lemma_first_deadhead(nearest, vehicles, vertiport_depart, num_vertipads_depart, departure_time, fps, block_minutes, i + 1, 0);
        } else {
            lemma_first_deadhead(nearest, vehicles, vertiport_depart, num_vertipads_depart, departure_time, fps, block_minutes, i, j + 1);
        }
    }
}

/// Whether a calendar text is given and reads as a calendar (see
/// [`schedule_readable`]).
pub fn check_schedule(schedule: &Option<String>) -> (r: bool)
    ensures
        r == schedule_readable(*schedule),
{
    match schedule {
        None => false,
        Some(text) => Calendar::parse(text.as_str()).is_ok(),
    }
}

/// The vehicle's place at `timestamp` (ms) is known (see [`location_known`]).
pub fn check_location_known(vehicle: &VehicleRecord, timestamp: i64, existing_flight_plans: &[FlightRecord]) -> (r: bool)
    requires
        valid_time(timestamp as int),
    ensures
        r == location_known(*vehicle, secs(timestamp), existing_flight_plans@),
{
    let ts = seconds_of(timestamp);
    let ghost fps = existing_flight_plans@;
    if vehicle.last_vertiport_id.is_some() {
        return true;
    }
    let mut i: usize = 0;
    while i < existing_flight_plans.len()
        invariant
            fps == existing_flight_plans@,
            i <= fps.len(),
            ts == secs(timestamp),
            vehicle.last_vertiport_id is None,
            forall|k: int| 0 <= k < i ==> !departed_by(#[trigger] fps[k], vehicle.id@, ts as int),
        decreases fps.len() - i,
    {
        let fp = &existing_flight_plans[i];
        if fp.vehicle_id == vehicle.id && fp.scheduled_departure <= ts {
            proof {
                lemma_last_departure_found(fps, vehicle.id@, ts as int);
                assert(departed_by(fps[i as int], vehicle.id@, ts as int));
            }
            return true;
        }
        i = i + 1;
    }
    proof {
        lemma_last_departure_found(fps, vehicle.id@, ts as int);
    }
    false
}

/// Some stored flight of the vehicle departs by `ts_s` exactly when the last
/// such departure is found.
proof fn lemma_last_departure_found(fps: Seq<FlightRecord>, vehicle_id: Seq<char>, ts_s: int)
    ensures
        last_departure(fps, vehicle_id, ts_s) >= 0
            <==> exists|k: int| 0 <= k < fps.len() && departed_by(#[trigger] fps[k], vehicle_id, ts_s),
    decreases fps.len(),
{
    if fps.len() > 0 {
        let d = fps.drop_last();
        lemma_last_departure_found(d, vehicle_id, ts_s);
        if exists|k: int| 0 <= k < d.len() && departed_by(#[trigger] d[k], vehicle_id, ts_s) {
            let k = choose|k: int| 0 <= k < d.len() && departed_by(#[trigger] d[k], vehicle_id, ts_s);
            assert(departed_by(fps[k], vehicle_id, ts_s));
        }
        if exists|k: int| 0 <= k < fps.len() && departed_by(#[trigger] fps[k], vehicle_id, ts_s) {
            let k = choose|k: int| 0 <= k < fps.len() && departed_by(#[trigger] fps[k], vehicle_id, ts_s);
            if k < d.len() {
                assert(departed_by(d[k], vehicle_id, ts_s));
            }
        }
    }
}

/// Whether the inputs of a repositioning search meet what it needs (see
/// [`deadhead_inputs`]).
pub fn check_deadhead_inputs(
    nearest_vertiports_from_departure: &[NearbyVertiport],
    vehicles: &[VehicleRecord],
    vertiport_depart: &VertiportObject,
    departure_time: i64,
    existing_flight_plans: &[FlightRecord],
    block_aircraft_and_vertiports_minutes: i64,
) -> (r: bool)
    ensures
        r == deadhead_inputs(
            nearest_vertiports_from_departure@,
            vehicles@,
            *vertiport_depart,
            departure_time,
            existing_flight_plans@,
            block_aircraft_and_vertiports_minutes,
        ),
{
    let ghost nearest = nearest_vertiports_from_departure@;
    let ghost vs = vehicles@;
    let ghost fps = existing_flight_plans@;
    if departure_time < -1_900_000_000_000_000 || departure_time > 1_900_000_000_000_000
        || block_aircraft_and_vertiports_minutes < 0 || block_aircraft_and_vertiports_minutes > 10_000_000 {
        return false;
    }
    let data = match &vertiport_depart.data {
        None => {
            return false;
        },
        Some(d) => d,
    };
    if !check_schedule(&data.schedule) {
        return false;
    }
    let mut i: usize = 0;
    while i < nearest_vertiports_from_departure.len()
        invariant
            nearest == nearest_vertiports_from_departure@,
            vs == vehicles@,
            fps == existing_flight_plans@,
            i <= nearest.len(),
            -1_900_000_000_000_000 <= departure_time <= 1_900_000_000_000_000,
            forall|k: int| 0 <= k < i ==> short_minutes((#[trigger] nearest[k]).duration_minutes as int)
                && schedule_readable(nearest[k].schedule),
            forall|k: int, m: int| 0 <= k < i && 0 <= m < vs.len()
                ==> location_known(#[trigger] vs[m], secs(deadhead_departure(#[trigger] nearest[k], departure_time)), fps),
        decreases nearest.len() - i,
    {
        let n = &nearest_vertiports_from_departure[i];
        if n.duration_minutes < 0 || n.duration_minutes > 10_000_000 || !check_schedule(&n.schedule) {
            proof {
                assert(!(short_minutes(nearest[i as int].duration_minutes as int) && schedule_readable(nearest[i as int].schedule)));
            }
            return false;
        }
        assert(0 <= n.duration_minutes * MINUTE_MS <= 600_000_000_000) by (nonlinear_arith)
            requires
                0 <= n.duration_minutes <= 10_000_000,
        ;
        let t = departure_time - n.duration_minutes * MINUTE_MS;
        proof {
            assert(t == deadhead_departure(nearest[i as int], departure_time));
        }
        let mut j: usize = 0;
        while j < vehicles.len()
            invariant
                nearest == nearest_vertiports_from_departure@,
                vs == vehicles@,
                fps == existing_flight_plans@,
                i < nearest.len(),
                j <= vs.len(),
                valid_time(t as int),
                t == deadhead_departure(nearest[i as int], departure_time),
                forall|m: int| 0 <= m < j ==> location_known(#[trigger] vs[m], secs(t), fps),
            decreases vs.len() - j,
        {
            if !check_location_known(&vehicles[j], t, existing_flight_plans) {
                proof {
                    assert(!location_known(vs[j as int], secs(deadhead_departure(nearest[i as int], departure_time)), fps));
                }
                return false;
            }
            j = j + 1;
        }
        proof {
            assert forall|k: int, m: int| 0 <= k < i + 1 && 0 <= m < vs.len()
                implies location_known(#[trigger] vs[m], secs(deadhead_departure(#[trigger] nearest[k], departure_time)), fps) by {
                if k == i {
                    assert(location_known(vs[m], secs(t), fps));
                }
            }
        }
        i = i + 1;
    }
    true
}

/// Whether the inputs of a flight search meet what it needs (see
/// [`search_inputs`]).
pub fn check_search_inputs(
    vertiport_depart: &VertiportObject,
    vertiport_arrive: &VertiportObject,
    vehicles: &[VehicleRecord],
    existing_flight_plans: &[FlightRecord],
    nearest_vertiports_from_departure: &[NearbyVertiport],
    earliest: i64,
    latest: i64,
    block_aircraft_and_vertiports_minutes: i64,
    num_flight_options: i64,
) -> (r: bool)
    ensures
        r == search_inputs(
            *vertiport_depart,
            *vertiport_arrive,
            vehicles@,
            existing_flight_plans@,
            nearest_vertiports_from_departure@,
            earliest,
            latest,
            block_aircraft_and_vertiports_minutes,
            num_flight_options,
        ),
{
    let ghost vs = vehicles@;
    let ghost fps = existing_flight_plans@;
    let ghost nearest = nearest_vertiports_from_departure@;
    let block = block_aircraft_and_vertiports_minutes;
    let n = num_flight_options;
    if earliest < -1_000_000_000_000_000 || earliest > 1_000_000_000_000_000 || latest < -MAX_TIME_MS
        || latest > MAX_TIME_MS || block < 0 || block > 10_000_000 || n < 1 || n > MAX_RETURNED_FLIGHT_PLANS {
        return false;
    }
    assert(0 <= (n - 1) * FLIGHT_PLAN_GAP_MINUTES * MINUTE_MS <= 2_700_000 && 0 <= block * MINUTE_MS <= 600_000_000_000)
        by (nonlinear_arith)
        requires
            1 <= n <= 10,
            0 <= block <= 10_000_000,
            FLIGHT_PLAN_GAP_MINUTES == 5,
            MINUTE_MS == 60_000,
    ;
    let last = earliest + (n - 1) * FLIGHT_PLAN_GAP_MINUTES * MINUTE_MS;
    proof {
        assert(last == option_departure(earliest, n - 1));
    }
    if last + block * MINUTE_MS > latest {
        return false;
    }
    if let Some(d) = &vertiport_depart.data {
        if !check_schedule(&d.schedule) {
            return false;
        }
    }
    if let Some(d) = &vertiport_arrive.data {
        if !check_schedule(&d.schedule) {
            return false;
        }
    }
    let mut i: i64 = 0;
    while i < n
        invariant
            vs == vehicles@,
            fps == existing_flight_plans@,
            nearest == nearest_vertiports_from_departure@,
            0 <= i <= n <= 10,
            n == num_flight_options,
            block == block_aircraft_and_vertiports_minutes,
            -1_000_000_000_000_000 <= earliest <= 1_000_000_000_000_000,
            forall|k: int, m: int| 0 <= k < i && 0 <= m < vs.len()
                ==> location_known(#[trigger] vs[m], secs(#[trigger] option_departure(earliest, k)), fps),
            forall|k: int| 0 <= k < i && vertiport_depart.data is Some
                ==> deadhead_inputs(nearest, vs, *vertiport_depart, #[trigger] option_departure(earliest, k), fps, block),
        decreases n - i,
    {
        assert(0 <= i * FLIGHT_PLAN_GAP_MINUTES * MINUTE_MS <= 3_000_000) by (nonlinear_arith)
            requires
                0 <= i <= 10,
                FLIGHT_PLAN_GAP_MINUTES == 5,
                MINUTE_MS == 60_000,
        ;
        let t = earliest + i * FLIGHT_PLAN_GAP_MINUTES * MINUTE_MS;
        proof {
            assert(t == option_departure(earliest, i as int));
        }
        let mut j: usize = 0;
        while j < vehicles.len()
            invariant
                vs == vehicles@,
                fps == existing_flight_plans@,
                j <= vs.len(),
                0 <= i < n,
                n == num_flight_options,
                valid_time(t as int),
                t == option_departure(earliest, i as int),
                forall|m: int| 0 <= m < j ==> location_known(#[trigger] vs[m], secs(t), fps),
            decreases vs.len() - j,
        {
            if !check_location_known(&vehicles[j], t, existing_flight_plans) {
                proof {
                    assert(!location_known(vs[j as int], secs(option_departure(earliest, i as int)), fps));
                }
                return false;
            }
            j = j + 1;
        }
        if vertiport_depart.data.is_some() && !check_deadhead_inputs(
            nearest_vertiports_from_departure,
            vehicles,
            vertiport_depart,
            t,
            existing_flight_plans,
            block,
        ) {
            proof {
                assert(!deadhead_inputs(nearest, vs, *vertiport_depart, option_departure(earliest, i as int), fps, block));
            }
            return false;
        }
        proof {
            assert forall|k: int, m: int| 0 <= k < i + 1 && 0 <= m < vs.len()
                implies location_known(#[trigger] vs[m], secs(#[trigger] option_departure(earliest, k)), fps) by {
                if k == i {
                    assert(location_known(vs[m], secs(t), fps));
                }
            }
        }
        i = i + 1;
    }
    true
}

/// As [`get_possible_flights`], after checking that the inputs meet what the
/// search needs (see [`search_inputs`]); `None`, and no search, where both
/// ends of the window are given and the inputs do not.
pub fn try_get_possible_flights(
    vertiport_depart: &VertiportObject,
    vertiport_arrive: &VertiportObject,
    vertipads_depart: &[VertipadObject],
    vertipads_arrive: &[VertipadObject],
    earliest_departure_time: Option<i64>,
    latest_arrival_time: Option<i64>,
    vehicles: &[VehicleRecord],
    existing_flight_plans: &[FlightRecord],
    nearest_vertiports_from_departure: &[NearbyVertiport],
    block_aircraft_and_vertiports_minutes: i64,
    num_flight_options: i64,
) -> (r: Option<Result<Vec<(FlightPlanDraft, Vec<FlightPlanDraft>)>, PossibleFlightsError>>)
    ensures
        r is None <==> (earliest_departure_time is Some && latest_arrival_time is Some && !search_inputs(
            *vertiport_depart,
            *vertiport_arrive,
            vehicles@,
            existing_flight_plans@,
            nearest_vertiports_from_departure@,
            earliest_departure_time->Some_0,
            latest_arrival_time->Some_0,
            block_aircraft_and_vertiports_minutes,
            num_flight_options,
        )),
        r matches Some(x) ==> possible_flights_outcome(
            *vertiport_depart,
            *vertiport_arrive,
            vertipads_depart@.len(),
            vertipads_arrive@.len(),
            earliest_departure_time,
            latest_arrival_time,
            vehicles@,
            existing_flight_plans@,
            nearest_vertiports_from_departure@,
            block_aircraft_and_vertiports_minutes,
            num_flight_options,
            x,
        ),
{
    if let (Some(earliest), Some(latest)) = (earliest_departure_time, latest_arrival_time) {
        if !check_search_inputs(
            vertiport_depart,
            vertiport_arrive,
            vehicles,
            existing_flight_plans,
            nearest_vertiports_from_departure,
            earliest,
            latest,
            block_aircraft_and_vertiports_minutes,
            num_flight_options,
        ) {
            return None;
        }
    }
    Some(get_possible_flights(
        vertiport_depart,
        vertiport_arrive,
        vertipads_depart,
        vertipads_arrive,
        earliest_departure_time,
        latest_arrival_time,
        vehicles,
        existing_flight_plans,
        nearest_vertiports_from_departure,
        block_aircraft_and_vertiports_minutes,
        num_flight_options,
    ))
}

/// As [`is_vertiport_available`], after checking that the vertiport's
/// calendar is given and readable; `None` where it is not.
pub fn try_is_vertiport_available(
    vertiport_id: String,
    vertiport_schedule: Option<String>,
    vertipads: &[VertipadObject],
    at_date_time: i64,
    existing_flight_plans: &[FlightRecord],
    is_departure_vertiport: bool,
) -> (r: Option<(bool, Vec<(String, i64)>)>)
    requires
        in_horizon(at_date_time as int),
    ensures
        r is None <==> !schedule_readable(vertiport_schedule),
        r matches Some(x) ==> (x.0, entry_views(x.1@)) == vertiport_check(
            schedule_events(vertiport_schedule),
            vertipads@.len(),
            vertiport_id@,
            at_date_time,
            existing_flight_plans@,
            is_departure_vertiport,
        ),
{
    if !check_schedule(&vertiport_schedule) {
        return None;
    }
    Some(is_vertiport_available(
        vertiport_id,
        vertiport_schedule,
        vertipads,
        at_date_time,
        existing_flight_plans,
        is_departure_vertiport,
    ))
}

/// As [`find_deadhead_flight_plan`], after checking that the inputs meet what
/// the search needs (see [`deadhead_inputs`]); `None` where they do not.
pub fn try_find_deadhead_flight_plan(
    nearest_vertiports_from_departure: &[NearbyVertiport],
    vehicles: &[VehicleRecord],
    vertiport_depart: &VertiportObject,
    vertipads_depart: &[VertipadObject],
    departure_time: i64,
    existing_flight_plans: &[FlightRecord],
    block_aircraft_and_vertiports_minutes: i64,
) -> (r: Option<(Option<VehicleRecord>, Option<FlightPlanDraft>)>)
    ensures
        r is None <==> !deadhead_inputs(
            nearest_vertiports_from_departure@,
            vehicles@,
            *vertiport_depart,
            departure_time,
            existing_flight_plans@,
            block_aircraft_and_vertiports_minutes,
        ),
        r matches Some(x) ==> match first_deadhead(
            nearest_vertiports_from_departure@,
            vehicles@,
            *vertiport_depart,
            vertipads_depart@.len(),
            departure_time,
            existing_flight_plans@,
            block_aircraft_and_vertiports_minutes,
            0,
            0,
        ) {
            None => x.0 is None && x.1 is None,
            Some((i, j)) => x.0 matches Some(v) && v@ == vehicles@[j]@
                && draft_view(x.1) == Some(deadhead_plan(nearest_vertiports_from_departure@[i], vehicles@[j], *vertiport_depart, departure_time)),
        },
{
    if !check_deadhead_inputs(
        nearest_vertiports_from_departure,
        vehicles,
        vertiport_depart,
        departure_time,
        existing_flight_plans,
        block_aircraft_and_vertiports_minutes,
    ) {
        return None;
    }
    Some(find_deadhead_flight_plan(
        nearest_vertiports_from_departure,
        vehicles,
        vertiport_depart,
        vertipads_depart,
        departure_time,
        existing_flight_plans,
        block_aircraft_and_vertiports_minutes,
    ))
}

/// As [`find_rerouted_vehicle_flight_plan`], after checking that the arrival
/// vertiport has data with a readable calendar; `None` where it has not.
pub fn try_find_rerouted_vehicle_flight_plan(
    vehicles_at_arrival_airport: &[(String, i64)],
    vertiport_arrive: &VertiportObject,
    vertipads_arrive: &[VertipadObject],
    arrival_time: &i64,
    existing_flight_plans: &[FlightRecord],
) -> (r: Option<Option<FlightPlanDraft>>)
    requires
        -1_900_000_000_000_000 <= *arrival_time <= 1_900_000_000_000_000,
    ensures
        r is None <==> !(vertiport_arrive.data is Some && schedule_readable(vertiport_arrive.data->0.schedule)),
        r matches Some(x) ==> draft_view(x) == rerouted_plan(
            entry_views(vehicles_at_arrival_airport@),
            *vertiport_arrive,
            vertipads_arrive@.len(),
            *arrival_time,
            existing_flight_plans@,
        ),
{
    let readable = match &vertiport_arrive.data {
        None => false,
        Some(d) => check_schedule(&d.schedule),
    };
    if !readable {
        return None;
    }
    Some(find_rerouted_vehicle_flight_plan(
        vehicles_at_arrival_airport,
        vertiport_arrive,
        vertipads_arrive,
        arrival_time,
        existing_flight_plans,
    ))
}

} // verus!
