use svc_scheduler::api::{CancelItineraryError, CreateItineraryError, FlightQueryError};
use svc_scheduler::flight_plan::FlightPlanError;
use svc_scheduler::itinerary::ItineraryError;
use svc_scheduler::queue::NextTaskError;
use svc_scheduler::router::RouterError;
use svc_scheduler::schedule::CalendarError;
use svc_scheduler::service::{add_one, hello_text};
use svc_scheduler::tasks::{CacheError, TaskError};
use svc_scheduler::vehicle::VehicleError;
use svc_scheduler::vertiport::VertiportError;

#[test]
fn test_cancel_itinerary_error_display() {
    assert_eq!(
        CancelItineraryError::ItineraryId.to_string(),
        "Error cancelling itinerary: Invalid itinerary ID provided."
    );
    assert_eq!(
        CancelItineraryError::UserId.to_string(),
        "Error cancelling itinerary: Invalid user ID provided."
    );
    assert_eq!(
        CancelItineraryError::Priority(1).to_string(),
        "Error cancelling itinerary: Invalid priority provided: 1."
    );
    assert_eq!(
        CancelItineraryError::TimeDelta.to_string(),
        "Error cancelling itinerary: Error creating time delta."
    );
    assert_eq!(
        CancelItineraryError::InternalError.to_string(),
        "Error cancelling itinerary: Internal error."
    );
    assert_eq!(
        CancelItineraryError::RedisPool.to_string(),
        "Error cancelling itinerary: Couldn't get the redis pool."
    );
    assert_eq!(
        CancelItineraryError::TaskCreation.to_string(),
        "Error cancelling itinerary: Could not create new task."
    );
}

#[test]
fn cancel_itinerary_error_priority_numbers() {
    assert_eq!(
        CancelItineraryError::Priority(-17).to_string(),
        "Error cancelling itinerary: Invalid priority provided: -17."
    );
    assert_eq!(
        CancelItineraryError::Priority(i32::MIN).to_string(),
        "Error cancelling itinerary: Invalid priority provided: -2147483648."
    );
    assert_eq!(
        CancelItineraryError::Priority(1234567).to_string(),
        "Error cancelling itinerary: Invalid priority provided: 1234567."
    );
    assert_eq!(
        CancelItineraryError::Priority(0).to_string(),
        "Error cancelling itinerary: Invalid priority provided: 0."
    );
}

#[test]
fn test_task_error_display() {
    assert_eq!(TaskError::NotFound.to_string(), "Task not found.");
    assert_eq!(TaskError::Internal.to_string(), "Internal error.");
    assert_eq!(TaskError::AlreadyProcessed.to_string(), "Task already processed.");
    assert_eq!(TaskError::Metadata.to_string(), "Invalid metadata.");
    assert_eq!(TaskError::Data.to_string(), "Invalid data.");
    assert_eq!(TaskError::ScheduleConflict.to_string(), "Schedule conflict.");
    assert_eq!(TaskError::UserId.to_string(), "Invalid user ID.");
}

#[test]
fn test_cache_error_display() {
    assert_eq!(CacheError::CouldNotConfigure.to_string(), "Could not configure cache.");
    assert_eq!(CacheError::CouldNotConnect.to_string(), "Could not connect to cache.");
    assert_eq!(CacheError::OperationFailed.to_string(), "Cache operation failed.");
    assert_eq!(CacheError::Empty.to_string(), "Cache is empty.");
}

#[test]
fn test_itinerary_error_display() {
    assert_eq!(ItineraryError::ClientError.to_string(), "Could not contact dependency.");
    assert_eq!(ItineraryError::Data.to_string(), "Invalid data.");
    assert_eq!(ItineraryError::VehicleId.to_string(), "Inconsistent vehicle ID.");
    assert_eq!(ItineraryError::NoPath.to_string(), "No path provided.");
    assert_eq!(ItineraryError::PathTooShort.to_string(), "Path is too short.");
    assert_eq!(ItineraryError::TimeWindow.to_string(), "Invalid time window.");
    assert_eq!(ItineraryError::Vertipads.to_string(), "Inconsistent vertipads.");
    assert_eq!(ItineraryError::ScheduleConflict.to_string(), "Schedule conflict.");
    assert_eq!(ItineraryError::Internal.to_string(), "Internal error.");
    assert_eq!(ItineraryError::NoPathFound.to_string(), "No path found.");
}

#[test]
fn test_vehicle_error_display() {
    assert_eq!(VehicleError::ClientError.to_string(), "Vehicle client error");
    assert_eq!(VehicleError::Data.to_string(), "Vehicle data is corrupt or invalid");
    assert_eq!(VehicleError::VehicleId.to_string(), "Vehicle has an invalid UUID");
    assert_eq!(VehicleError::HangarId.to_string(), "Vehicle doesn't have a hangar_id");
    assert_eq!(VehicleError::HangarBayId.to_string(), "Vehicle doesn't have a hangar_bay_id");
    assert_eq!(VehicleError::NoSchedule.to_string(), "Vehicle doesn't have a schedule");
    assert_eq!(VehicleError::Schedule.to_string(), "Vehicle has an invalid schedule");
    assert_eq!(VehicleError::Internal.to_string(), "Internal error");
}

#[test]
fn test_flight_plan_error_display() {
    assert_eq!(FlightPlanError::ClientError.to_string(), "ClientError");
    assert_eq!(FlightPlanError::Data.to_string(), "InvalidData");
}

#[test]
fn other_error_displays() {
    assert_eq!(VertiportError::ClientError.to_string(), "Client error");
    assert_eq!(VertiportError::InvalidData.to_string(), "Invalid data");
    assert_eq!(VertiportError::NoVertipads.to_string(), "No vertipads");
    assert_eq!(VertiportError::NoSchedule.to_string(), "No schedule");
    assert_eq!(VertiportError::InvalidSchedule.to_string(), "Invalid schedule");
    assert_eq!(VertiportError::Internal.to_string(), "Internal error");
    assert_eq!(RouterError::InvalidNodesInPath.to_string(), "Invalid path");
    assert_eq!(FlightQueryError::InvalidVertiportId.to_string(), "Invalid vertiport ID");
    assert_eq!(FlightQueryError::InvalidTime.to_string(), "Invalid time");
    assert_eq!(FlightQueryError::TimeRangeTooLarge.to_string(), "Time range too large");
    assert_eq!(FlightQueryError::Internal.to_string(), "Internal error");
    assert_eq!(CreateItineraryError::Priority.to_string(), "Invalid priority provided.");
    assert_eq!(CreateItineraryError::NoFlightPlans.to_string(), "No flight plans provided.");
    assert_eq!(CalendarError::Rrule.to_string(), "Invalid rrule");
    assert_eq!(CalendarError::RruleSet.to_string(), "Invalid rrule set");
    assert_eq!(CalendarError::HeaderPartsLength.to_string(), "Invalid header parts length");
    assert_eq!(CalendarError::Duration.to_string(), "Invalid duration");
    assert_eq!(CalendarError::Internal.to_string(), "Internal error");
    assert_eq!(
        NextTaskError::QueueNameNotUtf8.to_string(),
        "Invalid queue name, non UTF-8.- TypeError"
    );
}

#[test]
fn ut_add_one() {
    let val: u8 = 1;
    assert_eq!(val + 1, add_one(val));
}

#[test]
fn it_add_one() {
    assert_eq!(2, add_one(1));
}

#[test]
fn hello_greets_by_name() {
    assert_eq!(hello_text("Arrow"), "Hello, Arrow!");
}
