use svc_scheduler::flight_plan::{
    schedules_from_objects, sort_flight_plans, FlightPlanData, FlightPlanError, FlightPlanObject, FlightPlanSchedule,
    PointZ,
};

fn uuid() -> String {
    uuid::Uuid::new_v4().to_string()
}

fn points() -> Vec<PointZ> {
    vec![
        PointZ { latitude_e7: 0, longitude_e7: 0, altitude_mm: 0 },
        PointZ { latitude_e7: 10_000_000, longitude_e7: 10_000_000, altitude_mm: 1000 },
    ]
}

fn valid_data() -> FlightPlanData {
    FlightPlanData {
        origin_vertiport_id: Some(uuid()),
        origin_vertipad_id: uuid(),
        origin_timeslot_start: Some(0),
        origin_timeslot_end: Some(1000),
        target_vertiport_id: Some(uuid()),
        target_vertipad_id: uuid(),
        target_timeslot_start: Some(2000),
        target_timeslot_end: Some(3000),
        vehicle_id: uuid(),
        path: Some(points()),
    }
}

fn schedule(start: i64) -> FlightPlanSchedule {
    FlightPlanSchedule {
        origin_vertiport_id: uuid(),
        origin_vertipad_id: uuid(),
        origin_timeslot_start: start,
        origin_timeslot_end: start + 60_000,
        target_vertiport_id: uuid(),
        target_vertipad_id: uuid(),
        target_timeslot_start: start + 120_000,
        target_timeslot_end: start + 180_000,
        vehicle_id: uuid(),
        path: Some(points()),
    }
}

#[test]
fn test_flight_plan_data_try_from() {
    let flight_plan = schedule(1_700_000_000_000);
    let data: FlightPlanData = flight_plan.clone().into();
    assert_eq!(data.origin_vertiport_id, Some(flight_plan.origin_vertiport_id.clone()));
    assert_eq!(data.origin_vertipad_id, flight_plan.origin_vertipad_id);
    assert_eq!(data.origin_timeslot_start, Some(flight_plan.origin_timeslot_start));
    assert_eq!(data.origin_timeslot_end, Some(flight_plan.origin_timeslot_end));
    assert_eq!(data.target_vertiport_id, Some(flight_plan.target_vertiport_id.clone()));
    assert_eq!(data.target_vertipad_id, flight_plan.target_vertipad_id);
    assert_eq!(data.target_timeslot_start, Some(flight_plan.target_timeslot_start));
    assert_eq!(data.target_timeslot_end, Some(flight_plan.target_timeslot_end));
    assert_eq!(data.vehicle_id, flight_plan.vehicle_id);
    assert_eq!(data.path, Some(points()));
}

#[test]
fn test_flight_plan_schedule_try_from_object() {
    let object = FlightPlanObject { id: uuid(), data: Some(valid_data()) };
    let s = FlightPlanSchedule::try_from(object).unwrap();
    assert_eq!(s.origin_timeslot_end, 1000);
}

#[test]
fn test_flight_plan_schedule_try_from_data() {
    let data = valid_data();
    let object = |d: FlightPlanData| FlightPlanObject { id: uuid(), data: Some(d) };
    let _ = FlightPlanSchedule::try_from(object(data.clone())).unwrap();

    let error = FlightPlanSchedule::try_from(FlightPlanObject { id: uuid(), data: None }).unwrap_err();
    assert_eq!(error, FlightPlanError::Data);

    let result = FlightPlanSchedule::try_from(object(FlightPlanData { path: None, ..data.clone() })).unwrap();
    assert_eq!(result.path, None);

    let bad = vec![
        FlightPlanData { origin_timeslot_start: None, ..data.clone() },
        FlightPlanData { origin_timeslot_end: None, ..data.clone() },
        FlightPlanData { target_timeslot_start: None, ..data.clone() },
        FlightPlanData { target_timeslot_end: None, ..data.clone() },
        FlightPlanData { target_timeslot_end: Some(0), origin_timeslot_start: Some(1000), ..data.clone() },
        FlightPlanData { vehicle_id: "invalid".to_owned(), ..data.clone() },
        FlightPlanData { origin_vertiport_id: None, ..data.clone() },
        FlightPlanData { target_vertiport_id: None, ..data.clone() },
        FlightPlanData { origin_vertiport_id: Some("invalid".to_owned()), ..data.clone() },
        FlightPlanData { target_vertiport_id: Some("invalid".to_owned()), ..data.clone() },
    ];
    for d in bad {
        assert_eq!(FlightPlanSchedule::try_from(object(d)).unwrap_err(), FlightPlanError::Data);
    }
}

#[test]
fn test_flight_plan_schedule_equality() {
    let now = 1_700_000_000_000;
    let f1 = FlightPlanSchedule { path: None, ..schedule(now) };
    let mut f2 = f1.clone();
    assert_eq!(f1, f2);
    f2.origin_timeslot_start = now + 1000;
    assert_ne!(f1, f2);
    assert!(f1 < f2);
}

#[test]
fn schedules_keep_valid_objects_in_order_and_sort_by_arrival() {
    let objects = vec![
        FlightPlanObject {
            id: uuid(),
            data: Some(FlightPlanData { origin_timeslot_start: Some(100), target_timeslot_start: Some(900), ..valid_data() }),
        },
        FlightPlanObject { id: uuid(), data: None },
        FlightPlanObject {
            id: uuid(),
            data: Some(FlightPlanData { origin_timeslot_start: Some(200), target_timeslot_start: Some(700), ..valid_data() }),
        },
    ];
    let schedules = schedules_from_objects(objects);
    assert_eq!(schedules.len(), 2);
    assert_eq!(schedules[0].origin_timeslot_start, 100);
    let sorted = sort_flight_plans(schedules);
    assert_eq!(sorted.iter().map(|s| s.target_timeslot_start).collect::<Vec<i64>>(), vec![700, 900]);
    assert_eq!(sorted.iter().map(|s| s.origin_timeslot_start).collect::<Vec<i64>>(), vec![200, 100]);
}

#[test]
fn sorting_keeps_schedules_with_the_same_arrival_in_order() {
    let mut a = schedule(1_000_000);
    let mut b = schedule(2_000_000);
    let c = schedule(500_000);
    a.target_timeslot_start = 5_000_000;
    b.target_timeslot_start = 5_000_000;
    let (a_id, b_id, c_id) = (a.vehicle_id.clone(), b.vehicle_id.clone(), c.vehicle_id.clone());
    let sorted = sort_flight_plans(vec![b.clone(), a.clone(), c.clone()]);
    let ids: Vec<String> = sorted.iter().map(|s| s.vehicle_id.clone()).collect();
    assert_eq!(ids, vec![c_id.clone(), b_id.clone(), a_id.clone()]);
    let sorted = sort_flight_plans(vec![a, b, c]);
    let ids: Vec<String> = sorted.iter().map(|s| s.vehicle_id.clone()).collect();
    assert_eq!(ids, vec![c_id, a_id, b_id]);
}
