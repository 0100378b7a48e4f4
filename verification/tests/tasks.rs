use svc_scheduler::queue::{NextTask, NextTaskError, RedisValue};
use svc_scheduler::tasks::{
    cancel_task_metadata, dispatch_task, finish_task, new_task_validation, task_queues, FlightPriority, Task,
    TaskAction, TaskBody, TaskDispatch, TaskError, TaskMetadata, TaskStatus, TaskStatusRationale,
};

fn data(s: &str) -> RedisValue {
    RedisValue::Data(s.as_bytes().to_vec())
}

#[test]
fn test_next_task_from_redis_value() {
    let value = RedisValue::Bulk(vec![
        data("scheduler:emergency"),
        RedisValue::Bulk(vec![RedisValue::Bulk(vec![data("1"), data("task data")])]),
    ]);
    let next_task = NextTask::from_redis_value(&value).unwrap();
    assert_eq!(next_task.task_id, 1);
    assert_eq!(next_task.queue_name, "scheduler:emergency");

    // not expected type
    let value = RedisValue::Int(1);
    let error = NextTask::from_redis_value(&value).unwrap_err();
    assert_eq!(error, NextTaskError::NotBulk);

    // bulk doesn't contain expected types
    let value = RedisValue::Bulk(vec![data("scheduler:emergency")]);
    let error = NextTask::from_redis_value(&value).unwrap_err();
    assert_eq!(error, NextTaskError::NotDataAndBulk);

    // invalid queue name, not UTF-8
    let value = RedisValue::Bulk(vec![RedisValue::Data(vec![0xFF]), RedisValue::Bulk(vec![])]);
    let error = NextTask::from_redis_value(&value).unwrap_err();
    assert_eq!(error.to_string(), "Invalid queue name, non UTF-8.- TypeError");

    // invalid task_id, not UTF-8
    let value = RedisValue::Bulk(vec![
        data("scheduler:emergency"),
        RedisValue::Bulk(vec![RedisValue::Bulk(vec![RedisValue::Data(vec![0xFF]), data("task data")])]),
    ]);
    let error = NextTask::from_redis_value(&value).unwrap_err();
    assert_eq!(error.to_string(), "Could not parse task_id to String.- TypeError");

    // invalid task_id, not able to parse to i64
    let value = RedisValue::Bulk(vec![
        data("scheduler:emergency"),
        RedisValue::Bulk(vec![RedisValue::Bulk(vec![data("not a number"), data("task data")])]),
    ]);
    let error = NextTask::from_redis_value(&value).unwrap_err();
    assert_eq!(error.to_string(), "Could not parse task_id to i64.- TypeError");

    // first Bulk value not a Bulk type
    let value = RedisValue::Bulk(vec![
        data("scheduler:emergency"),
        RedisValue::Bulk(vec![data("not a bulk")]),
    ]);
    let error = NextTask::from_redis_value(&value).unwrap_err();
    assert_eq!(error.to_string(), "Unexpected values, first Bulk value not a Bulk type- TypeError");

    // not a data type
    let value = RedisValue::Bulk(vec![
        data("scheduler:emergency"),
        RedisValue::Bulk(vec![RedisValue::Bulk(vec![RedisValue::Bulk(vec![])])]),
    ]);
    let error = NextTask::from_redis_value(&value).unwrap_err();
    assert_eq!(error.to_string(), "Unexpected values, first member not a Data type- TypeError");
}

#[test]
fn next_task_reads_signed_and_large_ids() {
    let value = RedisValue::Bulk(vec![
        data("scheduler:low"),
        RedisValue::Bulk(vec![RedisValue::Bulk(vec![data("-42"), data("x")])]),
    ]);
    assert_eq!(NextTask::from_redis_value(&value).unwrap().task_id, -42);
    let value = RedisValue::Bulk(vec![
        data("scheduler:low"),
        RedisValue::Bulk(vec![RedisValue::Bulk(vec![data("9223372036854775808"), data("x")])]),
    ]);
    assert_eq!(NextTask::from_redis_value(&value).unwrap_err(), NextTaskError::TaskIdNotNumber);
    // Task identifiers are read as `str::parse::<i64>` reads them.
    for id in [
        "0", "+7", "-0", "007", "-9223372036854775808", "9223372036854775807", "-9223372036854775809",
        "99999999999999999999", "", "-", "+", "1-", " 1", "1 ", "1.0", "--1", "+-1", "12a",
    ] {
        let value = RedisValue::Bulk(vec![
            data("scheduler:low"),
            RedisValue::Bulk(vec![RedisValue::Bulk(vec![data(id), data("x")])]),
        ]);
        let read = NextTask::from_redis_value(&value).map(|t| t.task_id);
        assert_eq!(read, id.parse::<i64>().map_err(|_| NextTaskError::TaskIdNotNumber), "{id:?}");
    }
}

#[test]
fn test_task_status_display() {
    assert_eq!(TaskStatus::Queued.as_str_name(), "QUEUED");
    assert_eq!(TaskStatus::Complete.as_str_name(), "COMPLETE");
    assert_eq!(TaskStatus::Rejected.as_str_name(), "REJECTED");
    assert_eq!(TaskStatus::NotFound.as_str_name(), "NOT_FOUND");
    assert_eq!(TaskStatus::from_str_name("QUEUED"), Some(TaskStatus::Queued));
    assert_eq!(TaskStatus::from_str_name("COMPLETE"), Some(TaskStatus::Complete));
    assert_eq!(TaskStatus::from_str_name("REJECTED"), Some(TaskStatus::Rejected));
    assert_eq!(TaskStatus::from_str_name("NOT_FOUND"), Some(TaskStatus::NotFound));
    assert_eq!(TaskStatus::from_str_name("INVALID_STATUS"), None);
}

#[test]
fn test_task_status_rationale_display() {
    assert_eq!(TaskStatusRationale::InvalidAction.as_str_name(), "INVALID_ACTION");
    assert_eq!(TaskStatusRationale::ClientCancelled.as_str_name(), "CLIENT_CANCELLED");
    assert_eq!(TaskStatusRationale::Internal.as_str_name(), "INTERNAL");
    assert_eq!(TaskStatusRationale::PriorityChange.as_str_name(), "PRIORITY_CHANGE");
    assert_eq!(TaskStatusRationale::ScheduleConflict.as_str_name(), "SCHEDULE_CONFLICT");
    assert_eq!(TaskStatusRationale::ItineraryIdNotFound.as_str_name(), "ITINERARY_ID_NOT_FOUND");
    assert_eq!(TaskStatusRationale::Expired.as_str_name(), "EXPIRED");
    assert_eq!(TaskStatusRationale::from_str_name("INVALID_ACTION"), Some(TaskStatusRationale::InvalidAction));
    assert_eq!(TaskStatusRationale::from_str_name("CLIENT_CANCELLED"), Some(TaskStatusRationale::ClientCancelled));
    assert_eq!(TaskStatusRationale::from_str_name("INTERNAL"), Some(TaskStatusRationale::Internal));
    assert_eq!(TaskStatusRationale::from_str_name("PRIORITY_CHANGE"), Some(TaskStatusRationale::PriorityChange));
    assert_eq!(TaskStatusRationale::from_str_name("SCHEDULE_CONFLICT"), Some(TaskStatusRationale::ScheduleConflict));
    assert_eq!(
        TaskStatusRationale::from_str_name("ITINERARY_ID_NOT_FOUND"),
        Some(TaskStatusRationale::ItineraryIdNotFound)
    );
    assert_eq!(TaskStatusRationale::from_str_name("EXPIRED"), Some(TaskStatusRationale::Expired));
    assert_eq!(TaskStatusRationale::from_str_name("INVALID_RATIONALE"), None);
}

#[test]
fn test_task_action_display() {
    assert_eq!(TaskAction::CreateItinerary.as_str_name(), "CREATE_ITINERARY");
    assert_eq!(TaskAction::CancelItinerary.as_str_name(), "CANCEL_ITINERARY");
    assert_eq!(TaskAction::from_str_name("CREATE_ITINERARY"), Some(TaskAction::CreateItinerary));
    assert_eq!(TaskAction::from_str_name("CANCEL_ITINERARY"), Some(TaskAction::CancelItinerary));
    assert_eq!(TaskAction::from_str_name("INVALID_ACTION"), None);
}

fn queued_task() -> Task {
    Task {
        metadata: TaskMetadata {
            status: TaskStatus::Queued.value(),
            status_rationale: None,
            action: TaskAction::CancelItinerary.value(),
            user_id: "b0e61ee2-ab2c-4d48-a5c7-39e1cdc8c5a6".to_string(),
            result: None,
        },
        body: TaskBody::CancelItinerary("2a4e9f5c-52a3-4d4e-8f3e-1d3f6a9b7c21".to_string()),
    }
}

#[test]
fn test_redis_pool_new_task() {
    let now = 1_700_000_000_000i64;
    let task = queued_task();
    // expiry not in the future
    assert_eq!(new_task_validation(&task, now, now), Err(svc_scheduler::tasks::CacheError::OperationFailed));
    // status != Queued
    let mut tmp = queued_task();
    tmp.metadata.status = TaskStatus::Complete.value();
    assert_eq!(
        new_task_validation(&tmp, now + 86_400_000, now),
        Err(svc_scheduler::tasks::CacheError::OperationFailed)
    );
    // status rationale is some
    let mut tmp = queued_task();
    tmp.metadata.status_rationale = Some(TaskStatusRationale::InvalidAction.value());
    assert_eq!(
        new_task_validation(&tmp, now + 86_400_000, now),
        Err(svc_scheduler::tasks::CacheError::OperationFailed)
    );
    assert_eq!(new_task_validation(&task, now + 1, now), Ok(()));
}

#[test]
fn cancel_task_rejects_queued_only() {
    let mut task = queued_task();
    assert_eq!(cancel_task_metadata(&mut task.metadata), Ok(()));
    assert_eq!(task.metadata.status, 2);
    assert_eq!(task.metadata.status_rationale, Some(0));
    assert_eq!(cancel_task_metadata(&mut task.metadata), Err(TaskError::AlreadyProcessed));
}

#[test]
fn dispatch_and_finish_tasks() {
    let mut task = queued_task();
    assert_eq!(dispatch_task(&mut task.metadata), TaskDispatch::CancelItinerary);
    task.metadata.action = 0;
    assert_eq!(dispatch_task(&mut task.metadata), TaskDispatch::CreateItinerary);
    task.metadata.action = 7;
    assert_eq!(dispatch_task(&mut task.metadata), TaskDispatch::Invalid);
    assert_eq!(task.metadata.status, TaskStatus::Rejected.value());
    assert_eq!(task.metadata.status_rationale, Some(TaskStatusRationale::InvalidAction.value()));
    assert_eq!(dispatch_task(&mut task.metadata), TaskDispatch::Skip);
    let mut m = queued_task().metadata;
    finish_task(&mut m, Ok(()));
    assert_eq!(m.status, 1);
    finish_task(&mut m, Err(TaskError::Data));
    assert_eq!(m.status, 2);
}

#[test]
fn priorities_and_queues() {
    assert_eq!(FlightPriority::from_i32(0), Some(FlightPriority::Low));
    assert_eq!(FlightPriority::from_i32(1), Some(FlightPriority::High));
    assert_eq!(FlightPriority::from_i32(2), Some(FlightPriority::Emergency));
    assert_eq!(FlightPriority::from_i32(3), None);
    assert_eq!(FlightPriority::Emergency.queue_name(), "scheduler:emergency");
    assert_eq!(FlightPriority::Low.queue_name(), "scheduler:low");
    assert_eq!(task_queues(), vec!["scheduler:emergency", "scheduler:high", "scheduler:medium", "scheduler:low"]);
    assert_eq!(TaskStatus::from_i32(3), Some(TaskStatus::NotFound));
    assert_eq!(TaskStatus::from_i32(4), None);
    assert_eq!(TaskAction::from_i32(1), Some(TaskAction::CancelItinerary));
}
