use chrono::{TimeZone, Utc};
use svc_scheduler::flight_plan::{FlightPlanData, FlightPlanSchedule};
use svc_scheduler::schedule::Timeslot;
use svc_scheduler::vertiport::{
    enabled_vertipad_ids, get_available_timeslots, get_vertiport_calendar, PairSearch, PathOutcome, TimeslotPair,
    VertipadData, VertipadObject, VertiportData, VertiportError, VertiportObject,
};

const HOUR: i64 = 3_600_000;
const MINUTE: i64 = 60_000;

fn at(h: u32) -> i64 {
    Utc.with_ymd_and_hms(2021, 1, 1, h, 0, 0).unwrap().timestamp_millis()
}

fn slot(a: i64, b: i64) -> Timeslot {
    Timeslot { time_start: a, time_end: b }
}

/// Runs the pair search, answering every path search with the same path,
/// length and flight time.
fn pairs(
    origin_vertipads: Vec<(String, Vec<Timeslot>)>,
    target_vertipads: Vec<(String, Vec<Timeslot>)>,
    flight_duration_ms: i64,
) -> Result<Vec<TimeslotPair>, VertiportError> {
    let mut search = PairSearch::new("origin_port", "target_port", origin_vertipads, target_vertipads);
    while let Some(_window) = search.next_query() {
        search.on_path(PathOutcome::Found { path: vec![], distance_mm: 50_000, flight_duration_ms })?;
    }
    Ok(search.into_pairs())
}

#[test]
fn ut_get_vertipad_pairs_no_overlap() {
    let r = pairs(
        vec![("o".to_string(), vec![slot(at(3), at(6))])],
        vec![("t".to_string(), vec![slot(at(10), at(13))])],
        30 * MINUTE,
    )
    .unwrap();
    assert!(r.is_empty());
}

#[test]
fn ut_get_vertipad_pairs_no_overlap_target_lead() {
    let r = pairs(
        vec![("o".to_string(), vec![slot(at(6), at(10))])],
        vec![("t".to_string(), vec![slot(at(3), at(6))])],
        30 * MINUTE,
    )
    .unwrap();
    assert!(r.is_empty());
}

#[test]
fn ut_get_vertipad_pairs_some_overlap() {
    let d = 30 * MINUTE;
    let (origin_start, origin_end, target_start, target_end) = (at(3), at(6), at(6), at(9));
    let r = pairs(
        vec![("o".to_string(), vec![slot(origin_start, origin_end)])],
        vec![("t".to_string(), vec![slot(target_start, target_end)])],
        d,
    )
    .unwrap();
    assert_eq!(r.len(), 1);
    let pair = r.last().unwrap();
    assert_eq!(pair.origin_vertipad_id, "o");
    assert_eq!(pair.target_vertipad_id, "t");
    assert_eq!(pair.origin_timeslot.time_start, target_start - d);
    assert_eq!(pair.origin_timeslot.time_end, origin_end);
    assert_eq!(pair.target_timeslot.time_start, target_start);
    assert_eq!(pair.target_timeslot.time_end, origin_end + d);
}

#[test]
fn ut_get_vertipad_pairs_overlap_nested() {
    let d = 30 * MINUTE;
    let (target_start, target_end) = (at(5), at(7));
    let r = pairs(
        vec![("o".to_string(), vec![slot(at(3), at(9))])],
        vec![("t".to_string(), vec![slot(target_start, target_end)])],
        d,
    )
    .unwrap();
    assert_eq!(r.len(), 1);
    let pair = r.last().unwrap();
    assert_eq!(pair.origin_timeslot.time_start, target_start - d);
    assert_eq!(pair.origin_timeslot.time_end, target_end - d);
    assert_eq!(pair.target_timeslot.time_start, target_start);
    assert_eq!(pair.target_timeslot.time_end, target_end);
}

#[test]
fn ut_get_vertipad_pairs_overlap_target_window_lead() {
    let d = 30 * MINUTE;
    let (origin_start, target_end) = (at(6), at(7));
    let r = pairs(
        vec![("o".to_string(), vec![slot(origin_start, at(9))])],
        vec![("t".to_string(), vec![slot(at(3), target_end)])],
        d,
    )
    .unwrap();
    assert_eq!(r.len(), 1);
    let pair = r.last().unwrap();
    assert_eq!(pair.origin_timeslot.time_start, origin_start);
    assert_eq!(pair.origin_timeslot.time_end, target_end - d);
    assert_eq!(pair.target_timeslot.time_start, origin_start + d);
    assert_eq!(pair.target_timeslot.time_end, target_end);
}

#[test]
fn ut_get_vertipad_pairs_overlap_multiple() {
    let d = 30 * MINUTE;
    let origin_end = at(9);
    let t1 = slot(at(5), at(7));
    let t2 = slot(at(9), at(10));
    let r = pairs(
        vec![("o".to_string(), vec![slot(at(3), origin_end)])],
        vec![("t".to_string(), vec![t1, t2])],
        d,
    )
    .unwrap();
    assert_eq!(r.len(), 2);
    assert_eq!(r[0].origin_timeslot.time_start, t1.time_start - d);
    assert_eq!(r[0].origin_timeslot.time_end, t1.time_end - d);
    assert_eq!(r[0].target_timeslot, t1);
    assert_eq!(r[1].origin_timeslot.time_start, t2.time_start - d);
    assert_eq!(r[1].origin_timeslot.time_end, origin_end);
    assert_eq!(r[1].target_timeslot.time_start, t2.time_start);
    assert_eq!(r[1].target_timeslot.time_end, origin_end + d);
}

#[test]
fn pair_search_stops_on_client_error_and_skips_on_no_path() {
    let mut search = PairSearch::new(
        "a",
        "b",
        vec![("o".to_string(), vec![slot(at(3), at(9)), slot(at(4), at(9))])],
        vec![("t".to_string(), vec![slot(at(5), at(7))])],
    );
    assert_eq!(search.next_query(), Some(slot(at(3), at(7))));
    search.on_path(PathOutcome::NoPathFound).unwrap();
    assert_eq!(search.next_query(), Some(slot(at(4), at(7))));
    assert_eq!(search.on_path(PathOutcome::ClientError), Err(VertiportError::ClientError));
}

#[test]
fn pairs_come_shortest_first() {
    let mut search = PairSearch::new(
        "a",
        "b",
        vec![("o".to_string(), vec![slot(at(3), at(9))])],
        vec![("t".to_string(), vec![slot(at(5), at(6)), slot(at(7), at(8))])],
    );
    let mut lengths = vec![9_000u64, 1_000u64].into_iter();
    while let Some(_) = search.next_query() {
        let distance_mm = lengths.next().unwrap();
        search.on_path(PathOutcome::Found { path: vec![], distance_mm, flight_duration_ms: MINUTE }).unwrap();
    }
    let r = search.into_pairs();
    assert_eq!(r.iter().map(|p| p.distance_mm).collect::<Vec<u64>>(), vec![1_000, 9_000]);
    let data: FlightPlanData = r[0].clone().into();
    assert_eq!(data.origin_vertiport_id, Some("a".to_string()));
    assert_eq!(data.vehicle_id, "");
}

fn vertiport(schedule: Option<&str>) -> VertiportObject {
    VertiportObject { id: "port".to_string(), data: Some(VertiportData { schedule: schedule.map(|s| s.to_string()) }) }
}

#[test]
fn vertiport_calendar_errors() {
    assert_eq!(get_vertiport_calendar(VertiportObject { id: "p".to_string(), data: None }).unwrap_err(), VertiportError::InvalidData);
    assert_eq!(get_vertiport_calendar(vertiport(None)).unwrap_err(), VertiportError::NoSchedule);
    assert_eq!(get_vertiport_calendar(vertiport(Some("nonsense"))).unwrap_err(), VertiportError::InvalidSchedule);
}

#[test]
fn available_timeslots_less_occupied_split() {
    let pads = vec![
        VertipadObject { id: "pad_1".to_string(), data: Some(VertipadData { enabled: true }) },
        VertipadObject { id: "pad_2".to_string(), data: Some(VertipadData { enabled: false }) },
        VertipadObject { id: "pad_3".to_string(), data: None },
        VertipadObject { id: "pad_4".to_string(), data: Some(VertipadData { enabled: true }) },
    ];
    assert_eq!(enabled_vertipad_ids(pads.clone()), vec!["pad_1".to_string(), "pad_4".to_string()]);
    let existing = vec![FlightPlanSchedule {
        origin_vertiport_id: "port".to_string(),
        origin_vertipad_id: "pad_1".to_string(),
        origin_timeslot_start: at(9),
        origin_timeslot_end: at(9) + MINUTE,
        target_vertiport_id: "elsewhere".to_string(),
        target_vertipad_id: "x".to_string(),
        target_timeslot_start: at(10),
        target_timeslot_end: at(10) + MINUTE,
        vehicle_id: "v".to_string(),
        path: None,
    }];
    let groups = get_available_timeslots(
        "port",
        vertiport(Some("DTSTART:20201231T000000Z;DURATION:PT24H\nRRULE:FREQ=DAILY")),
        pads,
        &existing,
        &slot(at(8), at(10)),
        &MINUTE,
    )
    .unwrap();
    assert_eq!(groups.len(), 2);
    assert_eq!(groups[0].0, "pad_1");
    // the departure takes a minute of pad_1 at 9:00; what is left is cut in half hours
    assert_eq!(
        groups[0].1,
        vec![
            slot(at(8), at(8) + 30 * MINUTE),
            slot(at(8) + 30 * MINUTE, at(9)),
            slot(at(9) + MINUTE, at(9) + 31 * MINUTE),
            slot(at(9) + 31 * MINUTE, at(10)),
        ]
    );
    assert_eq!(groups[1].0, "pad_4");
    assert_eq!(groups[1].1, vec![slot(at(8), at(10))]);
}

#[test]
fn no_pair_where_no_flight_fits_between_the_timeslots() {
    // Leaving within 03:00-06:00 with a three hour flight, nothing lands
    // within 04:00-05:00.
    let r = pairs(
        vec![("po".to_string(), vec![slot(at(3), at(6))])],
        vec![("pt".to_string(), vec![slot(at(4), at(5))])],
        3 * HOUR,
    )
    .unwrap();
    assert!(r.is_empty());
}

#[test]
fn a_vertipad_listed_twice_has_one_list() {
    let pads = vec![
        VertipadObject { id: "pad_1".to_string(), data: Some(VertipadData { enabled: true }) },
        VertipadObject { id: "pad_1".to_string(), data: Some(VertipadData { enabled: true }) },
    ];
    let groups = get_available_timeslots(
        "port",
        vertiport(Some("DTSTART:20201231T000000Z;DURATION:PT24H\nRRULE:FREQ=DAILY")),
        pads,
        &vec![],
        &slot(at(8), at(10)),
        &MINUTE,
    )
    .unwrap();
    assert_eq!(groups.len(), 1);
    assert_eq!(groups[0].0, "pad_1");
}
