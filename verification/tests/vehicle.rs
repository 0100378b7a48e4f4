use chrono::{Datelike, TimeZone, Utc};
use svc_scheduler::flight_plan::FlightPlanSchedule;
use svc_scheduler::schedule::{Calendar, Timeslot};
use svc_scheduler::vehicle::{get_aircraft_availabilities, Aircraft, Availability, VehicleData, VehicleError, VehicleObject};

const MINUTE: i64 = 60_000;
const HOUR: i64 = 3_600_000;

fn uuid() -> String {
    uuid::Uuid::new_v4().to_string()
}

fn slot(a: i64, b: i64) -> Timeslot {
    Timeslot::new(a, b).unwrap()
}

fn same(a: &Availability, timeslot: Timeslot, port: &str, pad: &str) {
    assert_eq!(a.timeslot, timeslot);
    assert_eq!(a.vertiport_id, port);
    assert_eq!(a.vertipad_id, pad);
}

fn flight(vehicle: &str, from: (&str, &str), to: (&str, &str), dep: i64, arr: i64) -> FlightPlanSchedule {
    FlightPlanSchedule {
        vehicle_id: vehicle.to_string(),
        origin_vertiport_id: from.0.to_string(),
        origin_vertipad_id: from.1.to_string(),
        target_vertiport_id: to.0.to_string(),
        target_vertipad_id: to.1.to_string(),
        origin_timeslot_start: dep,
        origin_timeslot_end: dep,
        target_timeslot_start: arr,
        target_timeslot_end: arr,
        path: Some(vec![]),
    }
}

#[test]
fn test_subtract_flight_plan() {
    let (port_s, pad_s, port_m, pad_m, aircraft_id) = (uuid(), uuid(), uuid(), uuid(), uuid());
    let year = Utc::now().year() + 1;
    let dt_start = Utc.with_ymd_and_hms(year, 10, 20, 0, 0, 0).unwrap().timestamp_millis();
    let availability = Availability {
        timeslot: slot(dt_start, dt_start + 2 * HOUR),
        vertiport_id: port_s.clone(),
        vertipad_id: pad_s.clone(),
    };
    let flight_plans = vec![
        flight(&aircraft_id, (&port_s, &pad_s), (&port_m, &pad_m), dt_start + 10 * MINUTE, dt_start + 20 * MINUTE),
        flight(&aircraft_id, (&port_m, &pad_m), (&port_s, &pad_s), dt_start + 25 * MINUTE, dt_start + 35 * MINUTE),
    ];

    let result = availability.subtract(&flight_plans[0]);
    assert_eq!(result.len(), 2);
    same(&result[0], slot(dt_start, flight_plans[0].origin_timeslot_start), &port_s, &pad_s);
    same(&result[1], slot(flight_plans[0].target_timeslot_start, dt_start + 2 * HOUR), &port_m, &pad_m);

    let result = availability.subtract(&flight_plans[1]);
    assert_eq!(result.len(), 2);
    same(&result[0], slot(dt_start, flight_plans[1].origin_timeslot_start), &port_s, &pad_s);
    same(&result[1], slot(flight_plans[1].target_timeslot_start, dt_start + 2 * HOUR), &port_s, &pad_s);

    let mut availabilities = vec![availability];
    for fp in &flight_plans {
        availabilities = availabilities.iter().flat_map(|a| a.subtract(fp)).collect::<Vec<Availability>>();
    }
    assert_eq!(availabilities.len(), 3);
    same(&availabilities[0], slot(dt_start, flight_plans[0].origin_timeslot_start), &port_s, &pad_s);
    same(
        &availabilities[1],
        slot(flight_plans[0].target_timeslot_start, flight_plans[1].origin_timeslot_start),
        &port_m,
        &pad_m,
    );
    same(&availabilities[2], slot(flight_plans[1].target_timeslot_start, dt_start + 2 * HOUR), &port_s, &pad_s);
}

#[test]
fn test_get_aircraft_availabilities() {
    let vehicle_duration_hours = 3;
    let schedule = Calendar::parse(&format!(
        "DTSTART:20230920T000000Z;DURATION:PT{vehicle_duration_hours}H\n\
        RRULE:FREQ=DAILY;BYDAY=MO,TU,WE,TH,FR,SA,SU"
    ))
    .unwrap();
    let year = Utc::now().year() + 1;
    let dt_start = Utc.with_ymd_and_hms(year, 10, 20, 0, 0, 0).unwrap().timestamp_millis();

    let timeslots = schedule.to_timeslots(&dt_start, &(dt_start + 2 * HOUR)).unwrap();
    assert_eq!(timeslots.len(), 1);
    assert_eq!(timeslots[0], slot(dt_start, dt_start + 2 * HOUR));

    let (port_s, pad_s, port_m, pad_m, aircraft_id) = (uuid(), uuid(), uuid(), uuid(), uuid());
    let aircraft = vec![Aircraft {
        vehicle_uuid: aircraft_id.clone(),
        vehicle_calendar: schedule,
        hangar_id: port_s.clone(),
        hangar_bay_id: pad_s.clone(),
    }];
    let timeslot = slot(dt_start, dt_start + 2 * HOUR);
    let flight_plans = vec![
        flight(&aircraft_id, (&port_s, &pad_s), (&port_m, &pad_m), dt_start + 10 * MINUTE, dt_start + 20 * MINUTE),
        flight(&aircraft_id, (&port_m, &pad_m), (&port_s, &pad_s), dt_start + 25 * MINUTE, dt_start + 35 * MINUTE),
    ];

    let gaps = get_aircraft_availabilities(&flight_plans, &timeslot.time_start(), &aircraft, &timeslot).unwrap();
    assert_eq!(gaps.len(), 1);
    assert_eq!(gaps[0].0, aircraft_id);
    let mut gaps = gaps[0].1.clone();
    assert_eq!(gaps.len(), 3);
    gaps.sort_by(|a, b| b.timeslot.time_start().cmp(&a.timeslot.time_start()));
    same(&gaps.pop().unwrap(), slot(dt_start, flight_plans[0].origin_timeslot_start), &port_s, &pad_s);
    same(
        &gaps.pop().unwrap(),
        slot(flight_plans[0].target_timeslot_start, flight_plans[1].origin_timeslot_start),
        &port_m,
        &pad_m,
    );
    same(
        &gaps.pop().unwrap(),
        slot(flight_plans[1].target_timeslot_start, dt_start + vehicle_duration_hours * HOUR),
        &port_s,
        &pad_s,
    );
}

#[test]
fn test_try_from_vehicle_object_aircraft() {
    let cal_str = "DTSTART:20221020T180000Z;DURATION:PT14H
            RRULE:FREQ=WEEKLY;BYDAY=MO,TU,WE,TH,FR";
    let vehicle_data = VehicleData {
        hangar_id: Some(uuid()),
        hangar_bay_id: Some(uuid()),
        schedule: Some(cal_str.to_owned()),
    };
    let vehicle = VehicleObject { id: uuid(), data: Some(vehicle_data.clone()) };
    let a = Aircraft::try_from(vehicle.clone()).unwrap();
    assert_eq!(a.vehicle_uuid, vehicle.id);

    let e = Aircraft::try_from(VehicleObject { id: "invalid".to_string(), data: None }).unwrap_err();
    assert_eq!(e, VehicleError::VehicleId);

    let e = Aircraft::try_from(VehicleObject { id: uuid(), data: None }).unwrap_err();
    assert_eq!(e, VehicleError::Data);

    let e = Aircraft::try_from(VehicleObject {
        id: uuid(),
        data: Some(VehicleData { hangar_id: None, ..vehicle_data.clone() }),
    })
    .unwrap_err();
    assert_eq!(e, VehicleError::HangarId);

    let e = Aircraft::try_from(VehicleObject {
        id: uuid(),
        data: Some(VehicleData { hangar_bay_id: None, ..vehicle_data.clone() }),
    })
    .unwrap_err();
    assert_eq!(e, VehicleError::HangarBayId);

    let e = Aircraft::try_from(VehicleObject {
        id: uuid(),
        data: Some(VehicleData { schedule: None, ..vehicle_data.clone() }),
    })
    .unwrap_err();
    assert_eq!(e, VehicleError::NoSchedule);

    let e = Aircraft::try_from(VehicleObject {
        id: uuid(),
        data: Some(VehicleData { schedule: Some("invalid".to_string()), ..vehicle_data.clone() }),
    })
    .unwrap_err();
    assert_eq!(e, VehicleError::Schedule);

    let e = Aircraft::try_from(VehicleObject {
        id: uuid(),
        data: Some(VehicleData { hangar_id: Some("invalid".to_string()), ..vehicle_data.clone() }),
    })
    .unwrap_err();
    assert_eq!(e, VehicleError::HangarId);
}

#[test]
fn aircraft_ids_are_canonical() {
    let id = "B0E61EE2-AB2C-4D48-A5C7-39E1CDC8C5A6";
    let vehicle = VehicleObject {
        id: id.to_string(),
        data: Some(VehicleData {
            hangar_id: Some(uuid()),
            hangar_bay_id: Some(uuid()),
            schedule: Some("DTSTART:20221020T180000Z;DURATION:PT14H\nRRULE:FREQ=DAILY".to_string()),
        }),
    };
    let a = Aircraft::try_from(vehicle).unwrap();
    assert_eq!(a.vehicle_uuid, id.to_lowercase());
}

#[test]
fn an_aircraft_listed_twice_has_one_group() {
    let schedule = Calendar::parse("DTSTART:20230920T000000Z;DURATION:PT3H\nRRULE:FREQ=DAILY").unwrap();
    let dt_start = Utc.with_ymd_and_hms(2024, 10, 20, 0, 0, 0).unwrap().timestamp_millis();
    let one = Aircraft {
        vehicle_uuid: "a".to_string(),
        vehicle_calendar: schedule,
        hangar_id: "port".to_string(),
        hangar_bay_id: "bay".to_string(),
    };
    let timeslot = slot(dt_start, dt_start + 2 * HOUR);
    let gaps = get_aircraft_availabilities(&vec![], &dt_start, &vec![one.clone(), one], &timeslot).unwrap();
    assert_eq!(gaps.len(), 1);
    assert_eq!(gaps[0].0, "a");
    assert_eq!(gaps[0].1.len(), 2);
}
