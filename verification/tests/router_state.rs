use chrono::{TimeZone, Utc};
use svc_scheduler::router_state::{
    find_deadhead_flight_plan, find_rerouted_vehicle_flight_plan, flight_window, get_all_vehicles_scheduled_for_vertiport,
    get_nearest_vertiports_vertiport_id, get_possible_flights, get_vehicle_scheduled_location, is_vehicle_available,
    is_vertiport_available, FlightPlanDraft, FlightRecord, NearbyVertiport, PossibleFlightsError, VehicleRecord,
};
use svc_scheduler::router_state::{
    check_deadhead_inputs, check_location_known, check_schedule, check_search_inputs, try_find_deadhead_flight_plan,
    try_find_rerouted_vehicle_flight_plan, try_get_possible_flights, try_is_vertiport_available,
};
use svc_scheduler::schedule::Calendar;
use svc_scheduler::vertiport::{VertipadData, VertipadObject, VertiportData, VertiportObject};

const WEEKDAY_EVENINGS_BLOCKED: &str =
    "DTSTART:20221020T180000Z;DURATION:PT1H\nRRULE:FREQ=WEEKLY;BYDAY=MO,TU,WE,TH,FR";

const CAL_WORKDAYS_8AM_6PM: &str = "DTSTART:20221020T180000Z;DURATION:PT14H\n\
    RRULE:FREQ=WEEKLY;BYDAY=MO,TU,WE,TH,FR\n\
    DTSTART:20221022T000000Z;DURATION:PT24H\n\
    RRULE:FREQ=WEEKLY;BYDAY=SA,SU";

const WITH_1HR_DAILY_BREAK: &str = "\n\
    DTSTART:20221020T120000Z;DURATION:PT1H\n\
    RRULE:FREQ=WEEKLY;BYDAY=MO,TU,WE,TH,FR";

const WITH_ONE_OFF_BLOCK: &str = "\n\
    DTSTART:20221026T133000Z;DURATION:PT3H\n\
    RDATE:20221026T133000Z";

const INVALID_CALENDAR: &str = "DURATION:PT3H;DTSTART:20221026T133000Z;\n\
    RRULE:FREQ=WEEKLY;BYDAY=SA,SU";

/// Blocked only for an hour days before the dates under test.
const OPEN: &str = "DTSTART:20221001T000000Z;DURATION:PT1H\nRDATE:20221001T000000Z";

const MINUTE: i64 = 60_000;

fn ms(y: i32, mo: u32, d: u32, h: u32, mi: u32, s: u32) -> i64 {
    Utc.with_ymd_and_hms(y, mo, d, h, mi, s).unwrap().timestamp_millis()
}

fn secs(y: i32, mo: u32, d: u32, h: u32, mi: u32) -> i64 {
    ms(y, mo, d, h, mi, 0) / 1000
}

fn vehicle(id: &str, schedule: Option<&str>, last: Option<&str>) -> VehicleRecord {
    VehicleRecord {
        id: id.to_string(),
        schedule: schedule.map(|s| s.to_string()),
        last_vertiport_id: last.map(|s| s.to_string()),
    }
}

fn flight(vehicle_id: &str, from: &str, to: &str, departure: i64, arrival: i64) -> FlightRecord {
    FlightRecord {
        vehicle_id: vehicle_id.to_string(),
        departure_vertiport_id: from.to_string(),
        destination_vertiport_id: to.to_string(),
        scheduled_departure: departure,
        scheduled_arrival: arrival,
    }
}

fn vertiport(id: &str, schedule: &str) -> VertiportObject {
    VertiportObject { id: id.to_string(), data: Some(VertiportData { schedule: Some(schedule.to_string()) }) }
}

fn pads(n: usize) -> Vec<VertipadObject> {
    (0..n)
        .map(|i| VertipadObject { id: format!("pad-{i}"), data: Some(VertipadData { enabled: true }) })
        .collect()
}

fn draft(vehicle_id: &str, from: &str, to: &str, departure: i64, arrival: i64) -> FlightPlanDraft {
    FlightPlanDraft {
        vehicle_id: vehicle_id.to_string(),
        departure_vertiport_id: from.to_string(),
        arrival_vertiport_id: to.to_string(),
        departure_time: departure,
        arrival_time: arrival,
    }
}

#[test]
fn test_is_vehicle_available_per_schedule_true() {
    let vehicle_id = uuid::Uuid::new_v4().to_string();
    let vertiport_id = uuid::Uuid::new_v4().to_string();
    let v = vehicle(&vehicle_id, Some(WEEKDAY_EVENINGS_BLOCKED), Some(&vertiport_id));
    let date_from = ms(2022, 10, 26, 15, 0, 0);
    let res = is_vehicle_available(&v, date_from, 60, &vec![]);
    assert!(res.is_ok());
    assert_eq!(res.unwrap(), true);
}

#[test]
fn test_is_vehicle_available_per_schedule_false() {
    let vehicle_id = uuid::Uuid::new_v4().to_string();
    let vertiport_id = uuid::Uuid::new_v4().to_string();
    let v = vehicle(&vehicle_id, Some(WEEKDAY_EVENINGS_BLOCKED), Some(&vertiport_id));
    let date_from = ms(2022, 10, 26, 18, 0, 0);
    let res = is_vehicle_available(&v, date_from, 60, &vec![]);
    assert!(res.is_ok());
    assert_eq!(res.unwrap(), false);
}

#[test]
fn vehicle_busy_with_an_overlapping_flight() {
    let v = vehicle("v1", Some(WEEKDAY_EVENINGS_BLOCKED), Some("a"));
    let fps = vec![flight("v1", "a", "b", secs(2022, 10, 25, 14, 20), secs(2022, 10, 25, 14, 50))];
    assert_eq!(is_vehicle_available(&v, ms(2022, 10, 25, 14, 15, 0), 60, &fps), Ok(false));
    // A flight that ends as the span starts does not overlap it.
    assert_eq!(is_vehicle_available(&v, ms(2022, 10, 25, 14, 50, 0), 60, &fps), Ok(true));
    // Another vehicle's flight does not count.
    let w = vehicle("v2", Some(WEEKDAY_EVENINGS_BLOCKED), Some("a"));
    assert_eq!(is_vehicle_available(&w, ms(2022, 10, 25, 14, 15, 0), 60, &fps), Ok(true));
}

#[test]
fn vehicle_without_schedule_is_available() {
    let v = vehicle("v1", None, Some("a"));
    let fps = vec![flight("v1", "a", "b", secs(2022, 10, 25, 14, 20), secs(2022, 10, 25, 14, 50))];
    assert_eq!(is_vehicle_available(&v, ms(2022, 10, 25, 14, 15, 0), 60, &fps), Ok(true));
}

#[test]
fn vehicle_with_invalid_schedule() {
    let v = vehicle("v1", Some(INVALID_CALENDAR), Some("a"));
    let res = is_vehicle_available(&v, ms(2022, 10, 25, 14, 15, 0), 60, &vec![]);
    assert_eq!(res, Err("Invalid schedule for vehicle.".to_string()));
}

#[test]
fn calendar_utils_test_parse_calendar() {
    let calendar = Calendar::parse(CAL_WORKDAYS_8AM_6PM).unwrap();
    assert_eq!(calendar.events.len(), 2);
    assert_eq!(calendar.events[0].duration, 14 * 60 * MINUTE);
}

#[test]
fn test_night_unavailable() {
    let calendar = Calendar::parse(CAL_WORKDAYS_8AM_6PM).unwrap();
    let start = ms(2022, 10, 25, 19, 0, 0);
    let end = ms(2022, 10, 25, 20, 0, 0);
    assert_eq!(calendar.is_available_between(start, end), false);
}

#[test]
fn test_weekend_unavailable() {
    let calendar = Calendar::parse(CAL_WORKDAYS_8AM_6PM).unwrap();
    let start = ms(2022, 10, 22, 19, 0, 0);
    let end = ms(2022, 10, 22, 20, 0, 0);
    assert_eq!(calendar.is_available_between(start, end), false);
}

#[test]
fn test_inclusive_boundaries_available() {
    let calendar = Calendar::parse(CAL_WORKDAYS_8AM_6PM).unwrap();
    let mut start = ms(2022, 10, 25, 17, 0, 0);
    let mut end = ms(2022, 10, 25, 18, 0, 0);
    assert_eq!(calendar.is_available_between(start, end), true);

    start = ms(2022, 10, 25, 8, 0, 0);
    end = ms(2022, 10, 25, 9, 0, 0);
    assert_eq!(calendar.is_available_between(start, end), true);
}

#[test]
fn test_calendar_with_day_break() {
    let calendar = Calendar::parse(&(CAL_WORKDAYS_8AM_6PM.to_owned() + WITH_1HR_DAILY_BREAK)).unwrap();

    let mut start = ms(2022, 10, 25, 11, 30, 0);
    let mut end = ms(2022, 10, 25, 12, 30, 0);
    assert_eq!(calendar.is_available_between(start, end), false);

    start = ms(2022, 10, 25, 8, 0, 0);
    end = ms(2022, 10, 25, 12, 0, 0);
    assert_eq!(calendar.is_available_between(start, end), true);

    start = ms(2022, 10, 25, 12, 15, 0);
    end = ms(2022, 10, 25, 12, 30, 0);
    assert_eq!(calendar.is_available_between(start, end), false);

    start = ms(2022, 10, 25, 12, 59, 0);
    end = ms(2022, 10, 25, 13, 30, 0);
    assert_eq!(calendar.is_available_between(start, end), false);
}

#[test]
fn test_calendar_with_one_off_block() {
    let calendar = Calendar::parse(&(CAL_WORKDAYS_8AM_6PM.to_owned() + WITH_ONE_OFF_BLOCK)).unwrap();

    let mut start = ms(2022, 10, 26, 13, 30, 0);
    let mut end = ms(2022, 10, 26, 14, 30, 0);
    assert_eq!(calendar.is_available_between(start, end), false);

    start = ms(2022, 10, 27, 13, 30, 0);
    end = ms(2022, 10, 27, 14, 30, 0);
    assert_eq!(calendar.is_available_between(start, end), true);

    start = ms(2022, 10, 26, 11, 0, 0);
    end = ms(2022, 10, 26, 13, 30, 0);
    assert_eq!(calendar.is_available_between(start, end), true);

    start = ms(2022, 10, 26, 11, 0, 0);
    end = ms(2022, 10, 26, 13, 30, 1);
    assert_eq!(calendar.is_available_between(start, end), false);
}

#[test]
#[should_panic]
fn calendar_utils_test_invalid_input() {
    let _calendar = Calendar::parse(INVALID_CALENDAR).unwrap();
}

#[test]
fn vehicles_scheduled_for_vertiport_keep_latest_arrival() {
    let fps = vec![
        flight("a", "x", "v", secs(2022, 10, 25, 13, 0), secs(2022, 10, 25, 14, 0)),
        flight("b", "x", "v", secs(2022, 10, 25, 14, 30), secs(2022, 10, 25, 15, 5)),
        flight("a", "x", "v", secs(2022, 10, 25, 14, 0), secs(2022, 10, 25, 14, 30)),
        flight("c", "x", "v", secs(2022, 10, 25, 14, 50), secs(2022, 10, 25, 15, 20)),
        flight("d", "x", "w", secs(2022, 10, 25, 14, 0), secs(2022, 10, 25, 14, 30)),
    ];
    let res = get_all_vehicles_scheduled_for_vertiport("v", ms(2022, 10, 25, 15, 0, 0), &fps);
    assert_eq!(res, vec![("a".to_string(), 0), ("b".to_string(), 5)]);
}

#[test]
fn vehicle_location_follows_its_last_departure() {
    let v = vehicle("a", None, Some("home"));
    let fps = vec![
        flight("a", "home", "v2", secs(2022, 10, 25, 10, 0), secs(2022, 10, 25, 10, 30)),
        flight("a", "v2", "v3", secs(2022, 10, 25, 12, 0), secs(2022, 10, 25, 12, 45)),
        flight("b", "v3", "v4", secs(2022, 10, 25, 12, 5), secs(2022, 10, 25, 12, 40)),
    ];
    assert_eq!(get_vehicle_scheduled_location(&v, ms(2022, 10, 25, 12, 15, 0), &fps), ("v3".to_string(), 30));
    assert_eq!(get_vehicle_scheduled_location(&v, ms(2022, 10, 25, 11, 0, 0), &fps), ("v2".to_string(), 0));
    assert_eq!(get_vehicle_scheduled_location(&v, ms(2022, 10, 25, 9, 0, 0), &fps), ("home".to_string(), 0));
}

/// The example of the vertiport check: one arrival at 10:10, one departure at 10:20.
#[test]
fn vertiport_availability_around_arrival_and_departure() {
    let fps = vec![
        flight("v1", "other", "port", secs(2023, 10, 7, 9, 40), secs(2023, 10, 7, 10, 10)),
        flight("v2", "port", "other", secs(2023, 10, 7, 10, 20), secs(2023, 10, 7, 10, 50)),
    ];
    let pad = pads(1);
    let check = |h: u32, m: u32, departure: bool| {
        is_vertiport_available(
            "port".to_string(),
            Some(OPEN.to_string()),
            &pad,
            ms(2023, 10, 7, h, m, 0),
            &fps,
            departure,
        )
        .0
    };
    assert!(check(10, 10, true));
    assert!(!check(10, 15, true));
    assert!(!check(10, 20, true));
    assert!(!check(10, 10, false));
    assert!(!check(10, 15, false));
    assert!(check(10, 20, false));
}

#[test]
fn vertiport_with_pads_counts_vehicles() {
    let fps = vec![
        flight("v1", "other", "port", secs(2023, 10, 7, 9, 0), secs(2023, 10, 7, 9, 30)),
        flight("v2", "other", "port", secs(2023, 10, 7, 9, 10), secs(2023, 10, 7, 9, 40)),
    ];
    let res = is_vertiport_available("port".to_string(), Some(OPEN.to_string()), &pads(2), ms(2023, 10, 7, 10, 0, 0), &fps, true);
    assert_eq!(res, (false, vec![("v1".to_string(), 0), ("v2".to_string(), 0)]));
    let res = is_vertiport_available("port".to_string(), Some(OPEN.to_string()), &pads(3), ms(2023, 10, 7, 10, 0, 0), &fps, true);
    assert_eq!(res.0, true);
    assert_eq!(res.1.len(), 2);
}

#[test]
fn vertiport_closed_by_schedule() {
    let res = is_vertiport_available(
        "port".to_string(),
        Some(CAL_WORKDAYS_8AM_6PM.to_string()),
        &pads(2),
        ms(2022, 10, 25, 19, 0, 0),
        &vec![],
        true,
    );
    assert_eq!(res, (false, vec![]));
}

#[test]
fn rerouted_vehicle_leaves_the_arrival_vertiport() {
    let vehicles = vec![("x".to_string(), 3), ("y".to_string(), 0)];
    let arrive = vertiport("port", OPEN);
    let arrival = ms(2023, 10, 7, 11, 0, 0);
    let res = find_rerouted_vehicle_flight_plan(&vehicles, &arrive, &pads(1), &arrival, &vec![]);
    assert_eq!(res, Some(draft("y", "port", "port", arrival, arrival + 20 * MINUTE)));

    let none_parked = vec![("x".to_string(), 3)];
    assert_eq!(find_rerouted_vehicle_flight_plan(&none_parked, &arrive, &pads(1), &arrival, &vec![]), None);
}

#[test]
fn nearest_vertiports_sorted_by_flight_time() {
    let n = |uid: &str, d: i64| NearbyVertiport { uid: uid.to_string(), schedule: None, duration_minutes: d };
    let sorted = get_nearest_vertiports_vertiport_id(vec![n("a", 30), n("b", 10), n("c", 20), n("d", 10)]);
    let ids: Vec<&str> = sorted.iter().map(|x| x.uid.as_str()).collect();
    assert_eq!(ids, vec!["b", "d", "c", "a"]);
}

#[test]
fn deadhead_brings_a_vehicle_from_a_nearby_vertiport() {
    let nearby = vec![NearbyVertiport { uid: "near".to_string(), schedule: Some(OPEN.to_string()), duration_minutes: 20 }];
    let vehicles = vec![vehicle("v1", None, Some("near"))];
    let depart = vertiport("dep", OPEN);
    let departure = ms(2023, 10, 7, 10, 0, 0);
    let (found, plan) = find_deadhead_flight_plan(&nearby, &vehicles, &depart, &pads(1), departure, &vec![], 30);
    assert_eq!(found.unwrap().id, "v1");
    assert_eq!(plan, Some(draft("v1", "near", "dep", departure - 20 * MINUTE, departure)));

    let elsewhere = vec![vehicle("v1", None, Some("far"))];
    let (found, plan) = find_deadhead_flight_plan(&nearby, &elsewhere, &depart, &pads(1), departure, &vec![], 30);
    assert!(found.is_none());
    assert!(plan.is_none());
}

#[test]
fn possible_flights_with_a_parked_vehicle() {
    let depart = vertiport("dep", OPEN);
    let arrive = vertiport("arr", OPEN);
    let vehicles = vec![vehicle("v1", None, Some("dep"))];
    let earliest = ms(2023, 10, 7, 10, 0, 0);
    let latest = ms(2023, 10, 7, 12, 0, 0);
    let res = get_possible_flights(&depart, &arrive, &pads(1), &pads(1), Some(earliest), Some(latest), &vehicles, &vec![], &vec![], 30, 2)
        .unwrap();
    assert_eq!(
        res,
        vec![
            (draft("v1", "dep", "arr", earliest, earliest + 30 * MINUTE), vec![]),
            (draft("v1", "dep", "arr", earliest + 5 * MINUTE, earliest + 35 * MINUTE), vec![]),
        ]
    );
}

#[test]
fn possible_flights_with_a_deadhead() {
    let depart = vertiport("dep", OPEN);
    let arrive = vertiport("arr", OPEN);
    let vehicles = vec![vehicle("v1", None, Some("near"))];
    let nearby = vec![NearbyVertiport { uid: "near".to_string(), schedule: Some(OPEN.to_string()), duration_minutes: 20 }];
    let earliest = ms(2023, 10, 7, 10, 0, 0);
    let latest = ms(2023, 10, 7, 12, 0, 0);
    let res = get_possible_flights(&depart, &arrive, &pads(1), &pads(1), Some(earliest), Some(latest), &vehicles, &vec![], &nearby, 30, 1)
        .unwrap();
    assert_eq!(
        res,
        vec![(
            draft("v1", "dep", "arr", earliest, earliest + 30 * MINUTE),
            vec![draft("v1", "near", "dep", earliest - 20 * MINUTE, earliest)],
        )]
    );
}

#[test]
fn possible_flights_none_found() {
    let depart = vertiport("dep", OPEN);
    let arrive = vertiport("arr", OPEN);
    let earliest = ms(2022, 10, 25, 14, 15, 0);
    let latest = ms(2022, 10, 25, 15, 0, 0);
    let res = get_possible_flights(&depart, &arrive, &pads(1), &pads(1), Some(earliest), Some(latest), &vec![], &vec![], &vec![], 30, 3);
    let err = res.unwrap_err();
    assert_eq!(err, PossibleFlightsError::NoFlightPlans { earliest, latest });
    assert_eq!(
        err.to_string(),
        "No flight plans found for given time window [2022-10-25 14:15:00 UTC] - [2022-10-25 15:00:00 UTC]."
    );
}

#[test]
fn possible_flights_need_vertiport_data() {
    let depart = VertiportObject { id: "dep".to_string(), data: None };
    let arrive = vertiport("arr", OPEN);
    let e = ms(2022, 10, 25, 14, 15, 0);
    let res = get_possible_flights(&depart, &arrive, &pads(1), &pads(1), Some(e), Some(e + 60 * MINUTE), &vec![], &vec![], &vec![], 30, 1);
    assert_eq!(res.unwrap_err(), PossibleFlightsError::NoDepartureData);
    let res = get_possible_flights(&arrive, &depart, &pads(1), &pads(1), Some(e), Some(e + 60 * MINUTE), &vec![], &vec![], &vec![], 30, 1);
    assert_eq!(res.unwrap_err(), PossibleFlightsError::NoArrivalData);
    assert_eq!(
        PossibleFlightsError::NoArrivalData.to_string(),
        "(get_possible_flights) No data provided for vertiport_arrive."
    );
}

#[test]
fn possible_flights_need_both_ends_of_the_window() {
    let depart = vertiport("dep", OPEN);
    let arrive = vertiport("arr", OPEN);
    let e = ms(2022, 10, 25, 14, 15, 0);
    let res = get_possible_flights(&depart, &arrive, &pads(1), &pads(1), None, None, &vec![], &vec![], &vec![], 30, 1);
    assert_eq!(res.unwrap_err().to_string(), "No earliest departure time given.");
    let res = get_possible_flights(&depart, &arrive, &pads(1), &pads(1), Some(e), None, &vec![], &vec![], &vec![], 30, 1);
    assert_eq!(res.unwrap_err().to_string(), "No latest arrival time given.");
}

#[test]
fn flight_window_needs_both_ends() {
    assert_eq!(flight_window(None, Some(1)), Err(PossibleFlightsError::NoEarliestDeparture));
    assert_eq!(flight_window(Some(1), None), Err(PossibleFlightsError::NoLatestArrival));
    assert_eq!(flight_window(Some(1), Some(2)), Ok((1, 2)));
    assert_eq!(PossibleFlightsError::NoEarliestDeparture.to_string(), "No earliest departure time given.");
}

#[test]
fn vehicle_that_left_the_vertiport_is_not_there() {
    let fps = vec![
        flight("a", "w", "v", secs(2023, 10, 7, 8, 30), secs(2023, 10, 7, 9, 0)),
        flight("a", "v", "x", secs(2023, 10, 7, 9, 30), secs(2023, 10, 7, 9, 50)),
    ];
    assert_eq!(get_all_vehicles_scheduled_for_vertiport("v", ms(2023, 10, 7, 10, 0, 0), &fps), vec![]);
    // Before it leaves, it is still parked there.
    assert_eq!(
        get_all_vehicles_scheduled_for_vertiport("v", ms(2023, 10, 7, 9, 15, 0), &fps),
        vec![("a".to_string(), 0)]
    );
}

#[test]
fn schedules_are_checked_before_use() {
    assert!(check_schedule(&Some(OPEN.to_string())));
    assert!(!check_schedule(&None));
    assert!(!check_schedule(&Some(INVALID_CALENDAR.to_string())));
    let at = ms(2023, 10, 7, 10, 0, 0);
    assert_eq!(
        try_is_vertiport_available("port".to_string(), Some(OPEN.to_string()), &pads(1), at, &vec![], true),
        Some((true, vec![]))
    );
    assert_eq!(
        try_is_vertiport_available("port".to_string(), Some(INVALID_CALENDAR.to_string()), &pads(1), at, &vec![], true),
        None
    );
    let broken = vertiport("port", INVALID_CALENDAR);
    let parked = vec![("y".to_string(), 0)];
    assert_eq!(try_find_rerouted_vehicle_flight_plan(&parked, &broken, &pads(1), &at, &vec![]), None);
    let open = vertiport("port", OPEN);
    assert_eq!(
        try_find_rerouted_vehicle_flight_plan(&parked, &open, &pads(1), &at, &vec![]),
        Some(Some(draft("y", "port", "port", at, at + 20 * MINUTE)))
    );
}

#[test]
fn vehicle_location_is_known_from_its_flights_or_last_vertiport() {
    let fps = vec![flight("a", "w", "v", secs(2023, 10, 7, 9, 0), secs(2023, 10, 7, 9, 30))];
    let unknown = vehicle("a", None, None);
    assert!(!check_location_known(&unknown, ms(2023, 10, 7, 8, 0, 0), &fps));
    assert!(check_location_known(&unknown, ms(2023, 10, 7, 9, 0, 0), &fps));
    assert!(check_location_known(&vehicle("b", None, Some("v")), ms(2023, 10, 7, 8, 0, 0), &fps));
}

#[test]
fn deadhead_search_inputs_are_checked() {
    let nearby = vec![NearbyVertiport { uid: "near".to_string(), schedule: Some(OPEN.to_string()), duration_minutes: 20 }];
    let depart = vertiport("dep", OPEN);
    let departure = ms(2023, 10, 7, 10, 0, 0);
    let known = vec![vehicle("v1", None, Some("near"))];
    let unknown = vec![vehicle("v1", None, None)];
    assert!(check_deadhead_inputs(&nearby, &known, &depart, departure, &vec![], 30));
    assert!(!check_deadhead_inputs(&nearby, &unknown, &depart, departure, &vec![], 30));
    assert!(!check_deadhead_inputs(&nearby, &known, &depart, departure, &vec![], -1));
    let bad_nearby = vec![NearbyVertiport { uid: "near".to_string(), schedule: None, duration_minutes: 20 }];
    assert!(!check_deadhead_inputs(&bad_nearby, &known, &depart, departure, &vec![], 30));
    assert!(try_find_deadhead_flight_plan(&nearby, &unknown, &depart, &pads(1), departure, &vec![], 30).is_none());
    let (found, plan) = try_find_deadhead_flight_plan(&nearby, &known, &depart, &pads(1), departure, &vec![], 30).unwrap();
    assert_eq!(found.unwrap().id, "v1");
    assert_eq!(plan, Some(draft("v1", "near", "dep", departure - 20 * MINUTE, departure)));
}

#[test]
fn flight_search_inputs_are_checked() {
    let depart = vertiport("dep", OPEN);
    let arrive = vertiport("arr", OPEN);
    let vehicles = vec![vehicle("v1", None, Some("dep"))];
    let earliest = ms(2023, 10, 7, 10, 0, 0);
    let latest = ms(2023, 10, 7, 12, 0, 0);
    assert!(check_search_inputs(&depart, &arrive, &vehicles, &vec![], &vec![], earliest, latest, 30, 2));
    // The last option would land after the latest arrival.
    assert!(!check_search_inputs(&depart, &arrive, &vehicles, &vec![], &vec![], earliest, earliest + 30 * MINUTE, 30, 2));
    assert!(!check_search_inputs(&depart, &arrive, &vehicles, &vec![], &vec![], earliest, latest, 30, 0));
    let broken = vertiport("arr", INVALID_CALENDAR);
    assert!(!check_search_inputs(&depart, &broken, &vehicles, &vec![], &vec![], earliest, latest, 30, 2));
    let res = try_get_possible_flights(&depart, &arrive, &pads(1), &pads(1), Some(earliest), Some(latest), &vehicles, &vec![], &vec![], 30, 1);
    assert_eq!(res, Some(Ok(vec![(draft("v1", "dep", "arr", earliest, earliest + 30 * MINUTE), vec![])])));
    let res = try_get_possible_flights(&depart, &broken, &pads(1), &pads(1), Some(earliest), Some(latest), &vehicles, &vec![], &vec![], 30, 1);
    assert_eq!(res, None);
    let res = try_get_possible_flights(&depart, &broken, &pads(1), &pads(1), None, Some(latest), &vehicles, &vec![], &vec![], 30, 1);
    assert_eq!(res, Some(Err(PossibleFlightsError::NoEarliestDeparture)));
}
