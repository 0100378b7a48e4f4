use svc_scheduler::flight_plan::{FlightPlanSchedule, PointZ};
use svc_scheduler::itinerary::{
    deadhead_helper, validate_itinerary, DeadheadArgs, DeadheadPath, FlightRequest, ItineraryError, ItineraryPlan,
    ItinerarySearch, PlanStep, SearchStep,
};
use svc_scheduler::schedule::Timeslot;
use svc_scheduler::vehicle::Availability;
use svc_scheduler::vertiport::TimeslotPair;

const MINUTE: i64 = 60_000;
const NOW: i64 = 1_700_000_000_000;

fn uuid() -> String {
    uuid::Uuid::new_v4().to_string()
}

fn fp(origin_pad: &str, target_pad: &str, vehicle: &str, times: [i64; 4], path: Option<Vec<PointZ>>) -> FlightPlanSchedule {
    FlightPlanSchedule {
        origin_vertiport_id: uuid(),
        origin_vertipad_id: origin_pad.to_string(),
        origin_timeslot_start: NOW + times[0] * MINUTE,
        origin_timeslot_end: NOW + times[1] * MINUTE,
        target_vertiport_id: uuid(),
        target_vertipad_id: target_pad.to_string(),
        target_timeslot_start: NOW + times[2] * MINUTE,
        target_timeslot_end: NOW + times[3] * MINUTE,
        vehicle_id: vehicle.to_string(),
        path,
    }
}

fn two_points() -> Option<Vec<PointZ>> {
    Some(vec![
        PointZ { latitude_e7: 0, longitude_e7: 0, altitude_mm: 20_000 },
        PointZ { latitude_e7: 0, longitude_e7: 0, altitude_mm: 20_000 },
    ])
}

#[test]
fn test_validate_itinerary_not_enough_flight_plans() {
    let mut vertipad_ids: Vec<String> = vec![];
    let mut aircraft_id = String::new();
    let e = validate_itinerary(&[], &mut vertipad_ids, &mut aircraft_id).unwrap_err();
    assert_eq!(e, ItineraryError::Data);

    let vehicle_id = uuid();
    validate_itinerary(
        &[fp(&uuid(), &uuid(), &vehicle_id, [10, 11, 30, 31], Some(vec![]))],
        &mut vertipad_ids,
        &mut aircraft_id,
    )
    .unwrap();
    assert_eq!(vertipad_ids.len(), 2);
    assert_eq!(aircraft_id, vehicle_id);
}

#[test]
fn test_validate_itinerary_inconsistent_aircraft() {
    let mut vertipad_ids: Vec<String> = vec![];
    let mut aircraft_id = String::new();
    let (pad_1, pad_2) = (uuid(), uuid());
    let flight_plans = vec![
        fp(&pad_1, &pad_2, &uuid(), [10, 11, 30, 31], Some(vec![])),
        fp(&pad_2, &uuid(), &uuid(), [10, 11, 30, 31], Some(vec![])),
    ];
    let e = validate_itinerary(&flight_plans, &mut vertipad_ids, &mut aircraft_id).unwrap_err();
    assert_eq!(e, ItineraryError::VehicleId);
}

#[test]
fn test_validate_itinerary_invalid_paths() {
    let mut vertipad_ids: Vec<String> = vec![];
    let mut aircraft_id = String::new();
    let (vehicle_id, pad_1, pad_2) = (uuid(), uuid(), uuid());
    let mut flight_plans = vec![
        fp(&pad_1, &pad_2, &vehicle_id, [10, 11, 30, 31], None),
        fp(&pad_2, &uuid(), &vehicle_id, [31, 32, 33, 34], None),
    ];
    let e = validate_itinerary(&flight_plans, &mut vertipad_ids, &mut aircraft_id).unwrap_err();
    assert_eq!(e, ItineraryError::NoPath);

    flight_plans[0].path = Some(vec![]);
    let e = validate_itinerary(&flight_plans, &mut vertipad_ids, &mut aircraft_id).unwrap_err();
    assert_eq!(e, ItineraryError::PathTooShort);

    flight_plans[0].path = Some(vec![PointZ { latitude_e7: 0, longitude_e7: 0, altitude_mm: 0 }]);
    let e = validate_itinerary(&flight_plans, &mut vertipad_ids, &mut aircraft_id).unwrap_err();
    assert_eq!(e, ItineraryError::PathTooShort);
}

#[test]
fn test_validate_itinerary_inconsistent_vertipads() {
    let mut vertipad_ids: Vec<String> = vec![];
    let mut aircraft_id = String::new();
    let vehicle_id = uuid();
    let flight_plans = vec![
        fp(&uuid(), &uuid(), &vehicle_id, [10, 11, 30, 31], Some(vec![])),
        fp(&uuid(), &uuid(), &vehicle_id, [10, 11, 30, 31], Some(vec![])),
    ];
    let e = validate_itinerary(&flight_plans, &mut vertipad_ids, &mut aircraft_id).unwrap_err();
    assert_eq!(e, ItineraryError::Vertipads);
}

#[test]
fn test_validate_itinerary_invalid_times() {
    let mut vertipad_ids: Vec<String> = vec![];
    let mut aircraft_id = String::new();
    let (vehicle_id, pad_1, pad_2) = (uuid(), uuid(), uuid());
    let flight_plans = vec![
        fp(&pad_1, &pad_2, &vehicle_id, [10, 11, 30, 31], Some(vec![])),
        fp(&pad_2, &uuid(), &vehicle_id, [10, 11, 40, 41], Some(vec![])),
    ];
    let e = validate_itinerary(&flight_plans, &mut vertipad_ids, &mut aircraft_id).unwrap_err();
    assert_eq!(e, ItineraryError::TimeWindow);
}

#[test]
fn test_validate_itinerary_updated_aircraft_and_vertipads() {
    let mut vertipad_ids: Vec<String> = vec![];
    let mut aircraft_id = String::new();
    let (vehicle_id, pad_1, pad_2) = (uuid(), uuid(), uuid());
    let flight_plans = vec![
        fp(&pad_1, &pad_2, &vehicle_id, [10, 11, 30, 31], two_points()),
        fp(&pad_2, &uuid(), &vehicle_id, [31, 32, 40, 41], two_points()),
    ];
    validate_itinerary(&flight_plans, &mut vertipad_ids, &mut aircraft_id).unwrap();
    assert_eq!(vehicle_id, aircraft_id);
    assert!(vertipad_ids.contains(&flight_plans[0].origin_vertipad_id));
    assert!(vertipad_ids.contains(&flight_plans[0].target_vertipad_id));
    assert!(vertipad_ids.contains(&flight_plans[1].origin_vertipad_id));
    assert!(vertipad_ids.contains(&flight_plans[1].target_vertipad_id));
    assert_eq!(vertipad_ids.len(), 3);
}

fn deadhead_args(aircraft_earliest: i64, vertipad_earliest: i64, arrival_latest: i64) -> DeadheadArgs {
    DeadheadArgs {
        origin_vertiport_id: "a".to_string(),
        origin_vertipad_id: "a1".to_string(),
        target_vertiport_id: "b".to_string(),
        target_vertipad_id: "b1".to_string(),
        vehicle_id: "v".to_string(),
        aircraft_earliest,
        vertipad_earliest,
        arrival_latest,
        required_loading_time: 0,
        required_unloading_time: 0,
    }
}

#[test]
fn deadhead_lands_when_needed_or_leaves_when_free() {
    // lands at the requested time when the aircraft is free early enough
    let d = deadhead_helper(&deadhead_args(0, 100 * MINUTE, 200 * MINUTE), DeadheadPath::Found { path: vec![], flight_duration_ms: 10 * MINUTE })
        .unwrap();
    assert_eq!((d.origin_timeslot_start, d.target_timeslot_end), (90 * MINUTE, 100 * MINUTE));
    // leaves as soon as the aircraft is free otherwise
    let d = deadhead_helper(&deadhead_args(95 * MINUTE, 100 * MINUTE, 200 * MINUTE), DeadheadPath::Found { path: vec![], flight_duration_ms: 10 * MINUTE })
        .unwrap();
    assert_eq!((d.origin_timeslot_start, d.target_timeslot_end), (95 * MINUTE, 105 * MINUTE));
    // too late
    let e = deadhead_helper(&deadhead_args(195 * MINUTE, 100 * MINUTE, 200 * MINUTE), DeadheadPath::Found { path: vec![], flight_duration_ms: 10 * MINUTE })
        .unwrap_err();
    assert_eq!(e, ItineraryError::ScheduleConflict);
    assert_eq!(deadhead_helper(&deadhead_args(0, 0, 0), DeadheadPath::NoPathFound).unwrap_err(), ItineraryError::NoPathFound);
    assert_eq!(deadhead_helper(&deadhead_args(0, 0, 0), DeadheadPath::ClientError).unwrap_err(), ItineraryError::ClientError);
}

/// Drives a planning, answering every path search with a path whose flight
/// takes `deadhead_ms`.
fn drive(mut plan: ItineraryPlan, deadhead_ms: i64) -> Result<Vec<FlightPlanSchedule>, ItineraryError> {
    let mut step = plan.start();
    loop {
        match step {
            PlanStep::FindPath(_) => {
                step = plan.on_path(DeadheadPath::Found { path: vec![], flight_duration_ms: deadhead_ms });
            },
            PlanStep::Done(v) => return Ok(v),
            PlanStep::Failed(e) => return Err(e),
        }
    }
}

fn request(origin: &str, target: &str) -> FlightRequest {
    FlightRequest {
        origin_vertiport_id: origin.to_string(),
        origin_vertipad_id: "pad_1".to_string(),
        target_vertiport_id: target.to_string(),
        target_vertipad_id: "pad_2".to_string(),
        vehicle_id: "vehicle".to_string(),
        path: Some(vec![]),
    }
}

fn availability(port: &str, start: i64, end: i64) -> Availability {
    Availability { timeslot: Timeslot { time_start: start, time_end: end }, vertiport_id: port.to_string(), vertipad_id: "pad_0".to_string() }
}

#[test]
fn test_get_itinerary_valid_pre_post_deadheads() {
    let (time_start, time_end) = (NOW, NOW + 1_000_000);
    let flight_duration = 30_000;
    let plan = ItineraryPlan::new(
        request("vertiport_3", "vertiport_2"),
        availability("vertiport_1", time_start - 1_000_000, time_end),
        flight_duration,
        30_000,
        30_000,
        Timeslot { time_start, time_end },
    );
    let itinerary = drive(plan, 20_000).unwrap();
    assert_eq!(itinerary.len(), 3);
    assert_eq!(itinerary[0].origin_vertiport_id, "vertiport_1");
    assert_eq!(itinerary[0].target_vertiport_id, "vertiport_3");
    assert_eq!(itinerary[0].target_vertipad_id, "pad_1");
    assert_eq!(itinerary[1].origin_vertiport_id, "vertiport_3");
    assert_eq!(itinerary[1].target_vertiport_id, "vertiport_2");
    assert_eq!(itinerary[2].origin_vertiport_id, "vertiport_2");
    assert_eq!(itinerary[2].target_vertiport_id, "vertiport_1");
    // the deadhead lands at the start of the flight window
    assert_eq!(itinerary[0].target_timeslot_start, time_start);
    assert_eq!(itinerary[0].target_timeslot_end, time_start);
    // the flight leaves when the deadhead is over
    assert_eq!(itinerary[1].origin_timeslot_start, time_start);
    assert_eq!(itinerary[1].origin_timeslot_end, time_start + 30_000);
    assert_eq!(itinerary[1].target_timeslot_start, time_start + 30_000 + flight_duration);
    assert_eq!(itinerary[1].target_timeslot_end, time_start + 60_000 + flight_duration);
    // the deadhead back leaves when the flight is over
    assert_eq!(itinerary[2].origin_timeslot_start, itinerary[1].target_timeslot_end);
}

#[test]
fn test_get_itinerary_valid_pre_deadhead() {
    let (time_start, time_end) = (NOW, NOW + 1_000_000);
    let plan = ItineraryPlan::new(
        request("vertiport_3", "vertiport_1"),
        availability("vertiport_1", time_start - 1_000_000, time_end),
        30_000,
        30_000,
        30_000,
        Timeslot { time_start, time_end },
    );
    let itinerary = drive(plan, 20_000).unwrap();
    assert_eq!(itinerary.len(), 2);
    assert_eq!(itinerary[0].target_vertiport_id, "vertiport_3");
    assert_eq!(itinerary[1].target_vertiport_id, "vertiport_1");
}

#[test]
fn test_get_itinerary_valid_post_deadhead() {
    let (time_start, time_end) = (NOW, NOW + 1_000_000);
    let plan = ItineraryPlan::new(
        request("vertiport_1", "vertiport_2"),
        availability("vertiport_1", time_start - 1_000_000, time_end),
        30_000,
        30_000,
        30_000,
        Timeslot { time_start, time_end },
    );
    let itinerary = drive(plan, 20_000).unwrap();
    assert_eq!(itinerary.len(), 2);
    // no deadhead first: the flight leaves at the start of the window
    assert_eq!(itinerary[0].origin_timeslot_start, time_start);
    assert_eq!(itinerary[1].origin_vertiport_id, "vertiport_2");
    assert_eq!(itinerary[1].target_vertiport_id, "vertiport_1");
}

#[test]
fn test_get_itinerary_valid_later_flight_window() {
    let (time_start, time_end) = (NOW + 500_000, NOW + 1_500_000);
    let plan = ItineraryPlan::new(
        request("vertiport_1", "vertiport_1"),
        availability("vertiport_1", NOW, NOW + 2_000_000),
        30_000,
        30_000,
        30_000,
        Timeslot { time_start, time_end },
    );
    let itinerary = drive(plan, 20_000).unwrap();
    assert_eq!(itinerary.len(), 1);
    assert_eq!(itinerary[0].origin_timeslot_start, time_start);
}

#[test]
fn test_get_itinerary_valid_incompatible_flight_window() {
    let plan = ItineraryPlan::new(
        request("vertiport_1", "vertiport_1"),
        availability("vertiport_1", NOW, NOW + 1_000_000),
        30_000,
        30_000,
        30_000,
        Timeslot { time_start: NOW + 2_000_000, time_end: NOW + 3_000_000 },
    );
    assert_eq!(drive(plan, 20_000).unwrap_err(), ItineraryError::ScheduleConflict);
    // a flight that does not fit in the window
    let plan = ItineraryPlan::new(
        request("vertiport_1", "vertiport_1"),
        availability("vertiport_1", NOW, NOW + 1_000_000),
        1_000_000,
        30_000,
        30_000,
        Timeslot { time_start: NOW, time_end: NOW + 1_000_000 },
    );
    assert_eq!(drive(plan, 20_000).unwrap_err(), ItineraryError::ScheduleConflict);
}

fn pair(origin: (i64, i64), target: (i64, i64), distance_mm: u64) -> TimeslotPair {
    TimeslotPair {
        origin_vertiport_id: "vertiport_1".to_string(),
        origin_vertipad_id: "pad_1".to_string(),
        origin_timeslot: Timeslot { time_start: origin.0, time_end: origin.1 },
        target_vertiport_id: "vertiport_2".to_string(),
        target_vertipad_id: "pad_2".to_string(),
        target_timeslot: Timeslot { time_start: target.0, time_end: target.1 },
        path: vec![],
        distance_mm,
    }
}

#[test]
fn test_calculate_itineraries() {
    let pairs = vec![
        pair((NOW, NOW + 600_000), (NOW + 60_000, NOW + 900_000), 1000),
        pair((NOW, NOW + 600_000), (NOW + 60_000, NOW + 900_000), 2000),
    ];
    let gaps = vec![
        ("aircraft_b".to_string(), vec![availability("vertiport_1", NOW + 100, NOW + 3_000_000)]),
        ("aircraft_a".to_string(), vec![availability("vertiport_1", NOW, NOW + 3_000_000)]),
    ];
    let mut search = ItinerarySearch::new(30_000, 30_000, pairs, vec![Some(20_000), Some(20_000)], &gaps);
    // availabilities come in order of their start
    assert_eq!(search.ordered[0].0, "aircraft_a");
    let mut found = None;
    for _ in 0..10 {
        match search.next() {
            SearchStep::Plan(plan) => {
                let r = drive(plan, 20_000);
                search.on_itinerary(r).unwrap();
            },
            SearchStep::Done(v) => {
                found = Some(v);
                break;
            },
            SearchStep::Failed(e) => panic!("{:?}", e),
        }
    }
    let itineraries = found.unwrap();
    assert_eq!(itineraries.len(), 2);
    assert_eq!(itineraries[0][0].vehicle_id, "aircraft_a");
    assert_eq!(itineraries[1][0].vehicle_id, "aircraft_b");
}

#[test]
fn calculate_itineraries_fails_without_flight_time() {
    let pairs = vec![pair((NOW, NOW + 600_000), (NOW + 60_000, NOW + 900_000), 1000)];
    let gaps = vec![("aircraft_a".to_string(), vec![availability("vertiport_1", NOW, NOW + 3_000_000)])];
    let mut search = ItinerarySearch::new(30_000, 30_000, pairs, vec![None], &gaps);
    match search.next() {
        SearchStep::Failed(e) => assert_eq!(e, ItineraryError::Internal),
        _ => panic!("expected a failure"),
    }
}

#[test]
fn validated_vertipads_are_listed_once() {
    let vehicle_id = uuid();
    let (pad_1, pad_2, pad_3) = (uuid(), uuid(), uuid());
    let path = Some(vec![
        PointZ { latitude_e7: 0, longitude_e7: 0, altitude_mm: 0 },
        PointZ { latitude_e7: 1, longitude_e7: 1, altitude_mm: 0 },
    ]);
    let flight_plans = vec![
        fp(&pad_1, &pad_2, &vehicle_id, [10, 11, 30, 31], path.clone()),
        fp(&pad_2, &pad_3, &vehicle_id, [40, 41, 60, 61], path.clone()),
        fp(&pad_3, &pad_1, &vehicle_id, [70, 71, 90, 91], path),
    ];
    let mut vertipad_ids: Vec<String> = vec![pad_1.clone()];
    let mut aircraft_id = String::new();
    validate_itinerary(&flight_plans, &mut vertipad_ids, &mut aircraft_id).unwrap();
    assert_eq!(vertipad_ids, vec![pad_1, pad_2, pad_3]);
    assert_eq!(aircraft_id, vehicle_id);
}
