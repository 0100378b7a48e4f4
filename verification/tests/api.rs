use svc_scheduler::api::{
    cancel_itinerary_task, create_itinerary_task, get_draft_fp_by_id, get_draft_itinerary_by_id, unconfirmed_itineraries,
    CancelItineraryError, CancelItineraryRequest, CreateItineraryError, CreateItineraryRequest, DraftCache, FlightQuery,
    FlightQueryError, QueryFlightRequest, ADVANCE_NOTICE_MS, MAX_FLIGHT_QUERY_WINDOW_MS,
};
use svc_scheduler::flight_plan::{FlightPlanData, FlightPlanSchedule};
use svc_scheduler::tasks::{FlightPriority, TaskBody};

const MINUTE: i64 = 60_000;
const NOW: i64 = 1_700_000_000_000;

fn uuid() -> String {
    uuid::Uuid::new_v4().to_string()
}

#[test]
fn test_query_invalid() {
    let mut query = QueryFlightRequest {
        origin_vertiport_id: uuid(),
        target_vertiport_id: uuid(),
        earliest_departure_time: None,
        latest_arrival_time: None,
    };
    assert_eq!(FlightQuery::try_from_request(query.clone(), NOW).unwrap_err(), FlightQueryError::InvalidTime);

    // latest arrival before the earliest departure
    query.earliest_departure_time = Some(NOW);
    query.latest_arrival_time = Some(NOW - 1000);
    assert_eq!(FlightQuery::try_from_request(query.clone(), NOW).unwrap_err(), FlightQueryError::InvalidTime);

    // too large of a time range
    query.latest_arrival_time = Some(NOW + MAX_FLIGHT_QUERY_WINDOW_MS + MINUTE);
    assert_eq!(FlightQuery::try_from_request(query.clone(), NOW).unwrap_err(), FlightQueryError::TimeRangeTooLarge);

    // the earliest departure must leave the advance notice
    query.latest_arrival_time = Some(NOW + MAX_FLIGHT_QUERY_WINDOW_MS - MINUTE);
    assert_eq!(FlightQuery::try_from_request(query.clone(), NOW).unwrap_err(), FlightQueryError::InvalidTime);

    // valid
    query.earliest_departure_time = Some(NOW + ADVANCE_NOTICE_MS + MINUTE);
    let q = FlightQuery::try_from_request(query.clone(), NOW).unwrap();
    assert_eq!(q.required_loading_time, MINUTE);

    query.origin_vertiport_id = "invalid".to_string();
    assert_eq!(FlightQuery::try_from_request(query.clone(), NOW).unwrap_err(), FlightQueryError::InvalidVertiportId);
    query.origin_vertiport_id = uuid();
    query.target_vertiport_id = "invalid".to_string();
    assert_eq!(FlightQuery::try_from_request(query.clone(), NOW).unwrap_err(), FlightQueryError::InvalidVertiportId);
    query.target_vertiport_id = uuid();
    FlightQuery::try_from_request(query, NOW).unwrap();
}

#[test]
fn cancel_itinerary_requests() {
    let request = CancelItineraryRequest { itinerary_id: uuid(), user_id: uuid(), priority: 2 };
    let (task, priority) = cancel_itinerary_task(&request).unwrap();
    assert_eq!(priority, FlightPriority::Emergency);
    assert_eq!(task.metadata.status, 0);
    assert_eq!(task.metadata.action, 1);
    match task.body {
        TaskBody::CancelItinerary(id) => assert_eq!(id, request.itinerary_id),
        _ => panic!("expected a cancellation"),
    }
    let bad = CancelItineraryRequest { itinerary_id: "x".to_string(), ..request.clone() };
    assert_eq!(cancel_itinerary_task(&bad).unwrap_err(), CancelItineraryError::ItineraryId);
    let bad = CancelItineraryRequest { user_id: "x".to_string(), ..request.clone() };
    assert_eq!(cancel_itinerary_task(&bad).unwrap_err(), CancelItineraryError::UserId);
    let bad = CancelItineraryRequest { priority: 9, ..request.clone() };
    assert_eq!(cancel_itinerary_task(&bad).unwrap_err(), CancelItineraryError::Priority(9));
}

fn data(start: i64) -> FlightPlanData {
    FlightPlanData {
        origin_vertiport_id: Some(uuid()),
        origin_vertipad_id: uuid(),
        origin_timeslot_start: Some(start),
        origin_timeslot_end: Some(start + MINUTE),
        target_vertiport_id: Some(uuid()),
        target_vertipad_id: uuid(),
        target_timeslot_start: Some(start + 10 * MINUTE),
        target_timeslot_end: Some(start + 11 * MINUTE),
        vehicle_id: uuid(),
        path: None,
    }
}

#[test]
fn create_itinerary_requests() {
    let request = CreateItineraryRequest {
        priority: 0,
        user_id: uuid(),
        flight_plans: vec![data(NOW + 20 * MINUTE), data(NOW + 5 * MINUTE)],
        expiry: None,
    };
    let (task, priority, expiry) = create_itinerary_task(request.clone()).unwrap();
    assert_eq!(priority, FlightPriority::Low);
    assert_eq!(expiry, NOW + 5 * MINUTE);
    assert_eq!(task.metadata.action, 0);
    let (_, _, expiry) = create_itinerary_task(CreateItineraryRequest { expiry: Some(NOW), ..request.clone() }).unwrap();
    assert_eq!(expiry, NOW);
    let (_, _, expiry) =
        create_itinerary_task(CreateItineraryRequest { expiry: Some(NOW + 60 * MINUTE), ..request.clone() }).unwrap();
    assert_eq!(expiry, NOW + 5 * MINUTE);
    assert_eq!(
        create_itinerary_task(CreateItineraryRequest { priority: -1, ..request.clone() }).unwrap_err(),
        CreateItineraryError::Priority
    );
    assert_eq!(
        create_itinerary_task(CreateItineraryRequest { user_id: "x".to_string(), ..request.clone() }).unwrap_err(),
        CreateItineraryError::UserId
    );
    let mut bad = data(NOW);
    bad.vehicle_id = "x".to_string();
    assert_eq!(
        create_itinerary_task(CreateItineraryRequest { flight_plans: vec![data(NOW), bad], ..request.clone() })
            .unwrap_err(),
        CreateItineraryError::FlightPlans
    );
    assert_eq!(
        create_itinerary_task(CreateItineraryRequest { flight_plans: vec![], ..request.clone() }).unwrap_err(),
        CreateItineraryError::NoFlightPlans
    );
}

fn schedule(start: i64) -> FlightPlanSchedule {
    FlightPlanSchedule::try_from(data(start)).unwrap()
}

#[test]
fn draft_cache_reads_what_was_written() {
    let mut cache = DraftCache::new();
    assert_eq!(get_draft_itinerary_by_id(&cache, "it_1"), None);
    cache.insert_draft_fp("fp_1".to_string(), schedule(NOW));
    cache.insert_draft_fp("fp_2".to_string(), schedule(NOW + MINUTE));
    cache.insert_draft_itinerary("it_1".to_string(), vec!["fp_1".to_string(), "fp_2".to_string()]);
    assert_eq!(get_draft_itinerary_by_id(&cache, "it_1"), Some(vec!["fp_1".to_string(), "fp_2".to_string()]));
    assert_eq!(unconfirmed_itineraries(&cache).len(), 1);
    assert_eq!(get_draft_fp_by_id(&cache, "fp_2").unwrap().origin_timeslot_start, NOW + MINUTE);

    // writing again replaces
    cache.insert_draft_itinerary("it_1".to_string(), vec!["fp_2".to_string()]);
    assert_eq!(get_draft_itinerary_by_id(&cache, "it_1"), Some(vec!["fp_2".to_string()]));
    assert_eq!(unconfirmed_itineraries(&cache).len(), 1);

    // removing an itinerary removes its flight plans
    assert!(cache.remove_draft_itinerary_by_id("it_1"));
    assert_eq!(get_draft_itinerary_by_id(&cache, "it_1"), None);
    assert!(get_draft_fp_by_id(&cache, "fp_2").is_none());
    assert!(get_draft_fp_by_id(&cache, "fp_1").is_some());
    assert!(!cache.remove_draft_itinerary_by_id("it_1"));
    assert!(cache.remove_draft_fp_by_id("fp_1"));
    assert!(!cache.remove_draft_fp_by_id("fp_1"));
}

#[test]
fn test_cancellation_expiry_minutes() {
    assert_eq!(svc_scheduler::api::CANCELLATION_EXPIRY_MS, 60 * 60_000);
    let now = 1_700_000_000_000;
    assert_eq!(svc_scheduler::api::cancellation_expiry(now), now + 60 * 60_000);
}

#[test]
fn flight_query_writes_ids_in_canonical_form() {
    let origin = uuid::Uuid::new_v4().to_string();
    let target = uuid::Uuid::new_v4().to_string();
    let now = 1_700_000_000_000;
    let request = QueryFlightRequest {
        origin_vertiport_id: origin.to_uppercase(),
        target_vertiport_id: target.to_uppercase(),
        earliest_departure_time: Some(now + ADVANCE_NOTICE_MS + 60_000),
        latest_arrival_time: Some(now + ADVANCE_NOTICE_MS + 3_600_000),
    };
    let query = FlightQuery::try_from_request(request, now).unwrap();
    assert_eq!(query.origin_vertiport_id, origin);
    assert_eq!(query.arrival_vertiport_id, target);
}
