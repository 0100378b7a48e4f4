//! Scheduler tasks: their kinds and states, the checks made before a task is
//! queued, and the decisions taken while tasks are processed.

use crate::flight_plan::{copy_schedules, FlightPlanSchedule, FlightPlanScheduleView, schedule_views};
use crate::groups::find_group;
use crate::ids::{is_uuid, parse_uuid, uuid_text};
use crate::itinerary::{check_itinerary, id_set, validate_itinerary};
use crate::schedule::{valid_time, Timeslot};
use crate::text::str_eq;
use crate::vehicle::{availability_views, group_views, Availability, AvailabilityView};
use crate::vertiport::TimeslotPair;
use vstd::prelude::*;

verus! {

/// How long to keep a task in memory after it's been processed (ms).
pub const TASK_KEEPALIVE_DURATION_MS: i64 = 3_600_000;

/// How long to sleep if the queue is empty (ms).
pub const IDLE_DURATION_MS: u64 = 1000;

/// How long a rejected task stays in memory after its cancellation (ms).
pub const CANCELLED_TASK_KEEPALIVE_MS: i64 = 60_000;

/// Errors that can occur when processing a task.
#[derive(Debug, Copy, Clone, PartialEq, Eq, Structural)]
pub enum TaskError {
    /// Task id was not found
    NotFound,
    /// Internal error with updating task
    Internal,
    /// Task was already processed
    AlreadyProcessed,
    /// Invalid metadata provided,
    Metadata,
    /// Invalid User ID provided
    UserId,
    /// Invalid data provided
    Data,
    /// Schedule Conflict
    ScheduleConflict,
}

impl TaskError {
    pub open spec fn message(&self) -> Seq<char> {
        match self {
            TaskError::NotFound => "Task not found."@,
            TaskError::Internal => "Internal error."@,
            TaskError::AlreadyProcessed => "Task already processed."@,
            TaskError::Metadata => "Invalid metadata."@,
            TaskError::Data => "Invalid data."@,
            TaskError::ScheduleConflict => "Schedule conflict."@,
            TaskError::UserId => "Invalid user ID."@,
        }
    }

    /// The message describing the error.
    pub fn to_string(&self) -> (r: String)
        ensures
            r@ == self.message(),
    {
        match self {
            TaskError::NotFound => "Task not found.".to_string(),
            TaskError::Internal => "Internal error.".to_string(),
            TaskError::AlreadyProcessed => "Task already processed.".to_string(),
            TaskError::Metadata => "Invalid metadata.".to_string(),
            TaskError::Data => "Invalid data.".to_string(),
            TaskError::ScheduleConflict => "Schedule conflict.".to_string(),
            TaskError::UserId => "Invalid user ID.".to_string(),
        }
    }
}

/// Errors that can occur during cache operations.
#[derive(Debug, Copy, Clone, PartialEq, Eq, Structural)]
pub enum CacheError {
    /// Could not build configuration for cache.
    CouldNotConfigure,
    /// Could not connect to the Redis pool.
    CouldNotConnect,
    /// No tasks in the cache
    Empty,
    /// The operation on the Redis cache failed.
    OperationFailed,
}

impl CacheError {
    pub open spec fn message(&self) -> Seq<char> {
        match self {
            CacheError::CouldNotConfigure => "Could not configure cache."@,
            CacheError::CouldNotConnect => "Could not connect to cache."@,
            CacheError::OperationFailed => "Cache operation failed."@,
            CacheError::Empty => "Cache is empty."@,
        }
    }

    /// The message describing the error.
    pub fn to_string(&self) -> (r: String)
        ensures
            r@ == self.message(),
    {
        match self {
            CacheError::CouldNotConfigure => "Could not configure cache.".to_string(),
            CacheError::CouldNotConnect => "Could not connect to cache.".to_string(),
            CacheError::OperationFailed => "Cache operation failed.".to_string(),
            CacheError::Empty => "Cache is empty.".to_string(),
        }
    }
}

/// The status of a scheduler task.
#[derive(Debug, Copy, Clone, PartialEq, Eq, Structural)]
pub enum TaskStatus {
    Queued,
    Complete,
    Rejected,
    NotFound,
}

impl TaskStatus {
    /// The number that stands for the status in messages.
    pub open spec fn code(&self) -> i32 {
        match self {
            TaskStatus::Queued => 0,
            TaskStatus::Complete => 1,
            TaskStatus::Rejected => 2,
            TaskStatus::NotFound => 3,
        }
    }

    pub open spec fn name(&self) -> Seq<char> {
        match self {
            TaskStatus::Queued => "QUEUED"@,
            TaskStatus::Complete => "COMPLETE"@,
            TaskStatus::Rejected => "REJECTED"@,
            TaskStatus::NotFound => "NOT_FOUND"@,
        }
    }

    /// The number that stands for the status in messages.
    pub fn value(&self) -> (r: i32)
        ensures
            r == self.code(),
    {
        match self {
            TaskStatus::Queued => 0,
            TaskStatus::Complete => 1,
            TaskStatus::Rejected => 2,
            TaskStatus::NotFound => 3,
        }
    }

    /// The status a number stands for, if any.
    pub fn from_i32(value: i32) -> (r: Option<TaskStatus>)
        ensures
            r matches Some(s) ==> s.code() == value,
            r is None ==> forall|s: TaskStatus| s.code() != value,
    {
        match value {
            0 => Some(TaskStatus::Queued),
            1 => Some(TaskStatus::Complete),
            2 => Some(TaskStatus::Rejected),
            3 => Some(TaskStatus::NotFound),
            _ => None,
        }
    }

    /// The name of the status in the message definitions.
    pub fn as_str_name(&self) -> (r: &'static str)
        ensures
            r@ == self.name(),
    {
        match self {
            TaskStatus::Queued => "QUEUED",
            TaskStatus::Complete => "COMPLETE",
            TaskStatus::Rejected => "REJECTED",
            TaskStatus::NotFound => "NOT_FOUND",
        }
    }

    /// The status with the given name, if any.
    pub fn from_str_name(value: &str) -> (r: Option<TaskStatus>)
        ensures
            r matches Some(s) ==> s.name() == value@,
            r is None ==> forall|s: TaskStatus| s.name() != value@,
    {
        if str_eq(value, "QUEUED") {
            Some(TaskStatus::Queued)
        } else if str_eq(value, "COMPLETE") {
            Some(TaskStatus::Complete)
        } else if str_eq(value, "REJECTED") {
            Some(TaskStatus::Rejected)
        } else if str_eq(value, "NOT_FOUND") {
            Some(TaskStatus::NotFound)
        } else {
            None
        }
    }
}

/// Explanation for a task status.
#[derive(Debug, Copy, Clone, PartialEq, Eq, Structural)]
pub enum TaskStatusRationale {
    ClientCancelled,
    Expired,
    ScheduleConflict,
    ItineraryIdNotFound,
    PriorityChange,
    Internal,
    InvalidAction,
}

impl TaskStatusRationale {
    /// The number that stands for the rationale in messages.
    pub open spec fn code(&self) -> i32 {
        match self {
            TaskStatusRationale::ClientCancelled => 0,
            TaskStatusRationale::Expired => 1,
            TaskStatusRationale::ScheduleConflict => 2,
            TaskStatusRationale::ItineraryIdNotFound => 3,
            TaskStatusRationale::PriorityChange => 4,
            TaskStatusRationale::Internal => 5,
            TaskStatusRationale::InvalidAction => 6,
        }
    }

    pub open spec fn name(&self) -> Seq<char> {
        match self {
            TaskStatusRationale::ClientCancelled => "CLIENT_CANCELLED"@,
            TaskStatusRationale::Expired => "EXPIRED"@,
            TaskStatusRationale::ScheduleConflict => "SCHEDULE_CONFLICT"@,
            TaskStatusRationale::ItineraryIdNotFound => "ITINERARY_ID_NOT_FOUND"@,
            TaskStatusRationale::PriorityChange => "PRIORITY_CHANGE"@,
            TaskStatusRationale::Internal => "INTERNAL"@,
            TaskStatusRationale::InvalidAction => "INVALID_ACTION"@,
        }
    }

    /// The number that stands for the rationale in messages.
    pub fn value(&self) -> (r: i32)
        ensures
            r == self.code(),
    {
        match self {
            TaskStatusRationale::ClientCancelled => 0,
            TaskStatusRationale::Expired => 1,
            TaskStatusRationale::ScheduleConflict => 2,
            TaskStatusRationale::ItineraryIdNotFound => 3,
            TaskStatusRationale::PriorityChange => 4,
            TaskStatusRationale::Internal => 5,
            TaskStatusRationale::InvalidAction => 6,
        }
    }

    /// The name of the rationale in the message definitions.
    pub fn as_str_name(&self) -> (r: &'static str)
        ensures
            r@ == self.name(),
    {
        match self {
            TaskStatusRationale::ClientCancelled => "CLIENT_CANCELLED",
            TaskStatusRationale::Expired => "EXPIRED",
            TaskStatusRationale::ScheduleConflict => "SCHEDULE_CONFLICT",
            TaskStatusRationale::ItineraryIdNotFound => "ITINERARY_ID_NOT_FOUND",
            TaskStatusRationale::PriorityChange => "PRIORITY_CHANGE",
            TaskStatusRationale::Internal => "INTERNAL",
            TaskStatusRationale::InvalidAction => "INVALID_ACTION",
        }
    }

    /// The rationale with the given name, if any.
    pub fn from_str_name(value: &str) -> (r: Option<TaskStatusRationale>)
        ensures
            r matches Some(s) ==> s.name() == value@,
            r is None ==> forall|s: TaskStatusRationale| s.name() != value@,
    {
        if str_eq(value, "CLIENT_CANCELLED") {
            Some(TaskStatusRationale::ClientCancelled)
        } else if str_eq(value, "EXPIRED") {
            Some(TaskStatusRationale::Expired)
        } else if str_eq(value, "SCHEDULE_CONFLICT") {
            Some(TaskStatusRationale::ScheduleConflict)
        } else if str_eq(value, "ITINERARY_ID_NOT_FOUND") {
            Some(TaskStatusRationale::ItineraryIdNotFound)
        } else if str_eq(value, "PRIORITY_CHANGE") {
            Some(TaskStatusRationale::PriorityChange)
        } else if str_eq(value, "INTERNAL") {
            Some(TaskStatusRationale::Internal)
        } else if str_eq(value, "INVALID_ACTION") {
            Some(TaskStatusRationale::InvalidAction)
        } else {
            None
        }
    }
}

/// Types of scheduler tasks.
#[derive(Debug, Copy, Clone, PartialEq, Eq, Structural)]
pub enum TaskAction {
    CreateItinerary,
    CancelItinerary,
}

impl TaskAction {
    /// The number that stands for the action in messages.
    pub open spec fn code(&self) -> i32 {
        match self {
            TaskAction::CreateItinerary => 0,
            TaskAction::CancelItinerary => 1,
        }
    }

    pub open spec fn name(&self) -> Seq<char> {
        match self {
            TaskAction::CreateItinerary => "CREATE_ITINERARY"@,
            TaskAction::CancelItinerary => "CANCEL_ITINERARY"@,
        }
    }

    /// The number that stands for the action in messages.
    pub fn value(&self) -> (r: i32)
        ensures
            r == self.code(),
    {
        match self {
            TaskAction::CreateItinerary => 0,
            TaskAction::CancelItinerary => 1,
        }
    }

    /// The action a number stands for, if any.
    pub open spec fn from_code(value: i32) -> Option<TaskAction> {
        if value == 0 {
            Some(TaskAction::CreateItinerary)
        } else if value == 1 {
            Some(TaskAction::CancelItinerary)
        } else {
            None
        }
    }

    /// The action a number stands for, if any.
    pub fn from_i32(value: i32) -> (r: Option<TaskAction>)
        ensures
            r == TaskAction::from_code(value),
            r matches Some(a) ==> a.code() == value,
            r is None ==> forall|a: TaskAction| a.code() != value,
    {
        match value {
            0 => Some(TaskAction::CreateItinerary),
            1 => Some(TaskAction::CancelItinerary),
            _ => None,
        }
    }

    /// The name of the action in the message definitions.
    pub fn as_str_name(&self) -> (r: &'static str)
        ensures
            r@ == self.name(),
    {
        match self {
            TaskAction::CreateItinerary => "CREATE_ITINERARY",
            TaskAction::CancelItinerary => "CANCEL_ITINERARY",
        }
    }

    /// The action with the given name, if any.
    pub fn from_str_name(value: &str) -> (r: Option<TaskAction>)
        ensures
            r matches Some(a) ==> a.name() == value@,
            r is None ==> forall|a: TaskAction| a.name() != value@,
    {
        if str_eq(value, "CREATE_ITINERARY") {
            Some(TaskAction::CreateItinerary)
        } else if str_eq(value, "CANCEL_ITINERARY") {
            Some(TaskAction::CancelItinerary)
        } else {
            None
        }
    }
}

/// The priority of a request.
#[derive(Debug, Copy, Clone, PartialEq, Eq, Structural)]
pub enum FlightPriority {
    Low,
    High,
    Emergency,
}

impl FlightPriority {
    /// The number that stands for the priority in messages.
    pub open spec fn code(&self) -> i32 {
        match self {
            FlightPriority::Low => 0,
            FlightPriority::High => 1,
            FlightPriority::Emergency => 2,
        }
    }

    /// The priority a number stands for, if any.
    pub open spec fn from_code(value: i32) -> Option<FlightPriority> {
        if value == 0 {
            Some(FlightPriority::Low)
        } else if value == 1 {
            Some(FlightPriority::High)
        } else if value == 2 {
            Some(FlightPriority::Emergency)
        } else {
            None
        }
    }

    /// The priority a number stands for, if any.
    pub fn from_i32(value: i32) -> (r: Option<FlightPriority>)
        ensures
            r == FlightPriority::from_code(value),
            r matches Some(p) ==> p.code() == value,
            r is None ==> forall|p: FlightPriority| p.code() != value,
    {
        match value {
            0 => Some(FlightPriority::Low),
            1 => Some(FlightPriority::High),
            2 => Some(FlightPriority::Emergency),
            _ => None,
        }
    }

    /// The number that stands for the priority in messages.
    pub fn value(&self) -> (r: i32)
        ensures
            r == self.code(),
    {
        match self {
            FlightPriority::Low => 0,
            FlightPriority::High => 1,
            FlightPriority::Emergency => 2,
        }
    }

    pub open spec fn queue(&self) -> Seq<char> {
        match self {
            FlightPriority::Emergency => "scheduler:emergency"@,
            FlightPriority::High => "scheduler:high"@,
            FlightPriority::Low => "scheduler:low"@,
        }
    }

    /// The name of the task queue that takes tasks of this priority.
    pub fn queue_name(&self) -> (r: &'static str)
        ensures
            r@ == self.queue(),
    {
        match self {
            FlightPriority::Emergency => "scheduler:emergency",
            FlightPriority::High => "scheduler:high",
            FlightPriority::Low => "scheduler:low",
        }
    }
}

/// The task queues, in the order they are served.
pub fn task_queues() -> (r: Vec<&'static str>)
    ensures
        r@.len() == 4,
        r@[0]@ == FlightPriority::Emergency.queue(),
        r@[1]@ == FlightPriority::High.queue(),
        r@[2]@ == "scheduler:medium"@,
        r@[3]@ == FlightPriority::Low.queue(),
{
    vec!["scheduler:emergency", "scheduler:high", "scheduler:medium", "scheduler:low"]
}

/// Metadata of a scheduler task.
#[derive(Debug, Clone)]
pub struct TaskMetadata {
    /// Task status (see [`TaskStatus::code`])
    pub status: i32,
    /// Task status rationale (see [`TaskStatusRationale::code`])
    pub status_rationale: Option<i32>,
    /// Task action (see [`TaskAction::code`])
    pub action: i32,
    /// The user who asked for the task
    pub user_id: String,
    /// What the task produced, such as the identifier of a new itinerary
    pub result: Option<String>,
}

/// The required information to complete a task.
#[derive(Debug, Clone)]
pub enum TaskBody {
    /// Cancel the itinerary with this identifier
    CancelItinerary(String),
    /// Create an itinerary of these flights
    CreateItinerary(Vec<FlightPlanSchedule>),
}

/// Complete information about a task.
#[derive(Debug, Clone)]
pub struct Task {
    pub metadata: TaskMetadata,
    pub body: TaskBody,
}

/// Checks a task before it is queued: it must expire after `now_ms`, be
/// queued and have no status rationale.
pub fn new_task_validation(task: &Task, expiry_ms: i64, now_ms: i64) -> (r: Result<(), CacheError>)
    ensures
        r is Ok <==> (expiry_ms > now_ms && task.metadata.status == TaskStatus::Queued.code()
            && task.metadata.status_rationale is None),
        r matches Err(e) ==> e == CacheError::OperationFailed,
{
    if expiry_ms <= now_ms {
        return Err(CacheError::OperationFailed);
    }
    if task.metadata.status != TaskStatus::Queued.value() {
        return Err(CacheError::OperationFailed);
    }
    if task.metadata.status_rationale.is_some() {
        return Err(CacheError::OperationFailed);
    }
    Ok(())
}

/// Marks a queued task as cancelled by its client; a task that is no longer
/// queued cannot be cancelled.
pub fn cancel_task_metadata(metadata: &mut TaskMetadata) -> (r: Result<(), TaskError>)
    ensures
        old(metadata).status != TaskStatus::Queued.code() ==> r == Err::<(), TaskError>(TaskError::AlreadyProcessed)
            && *final(metadata) == *old(metadata),
        old(metadata).status == TaskStatus::Queued.code() ==> r is Ok
            && final(metadata).status == TaskStatus::Rejected.code()
            && final(metadata).status_rationale == Some(TaskStatusRationale::ClientCancelled.code())
            && final(metadata).action == old(metadata).action
            && final(metadata).user_id == old(metadata).user_id
            && final(metadata).result == old(metadata).result,
{
    if metadata.status != TaskStatus::Queued.value() {
        return Err(TaskError::AlreadyProcessed);
    }
    metadata.status = TaskStatus::Rejected.value();
    metadata.status_rationale = Some(TaskStatusRationale::ClientCancelled.value());
    Ok(())
}

/// What the task loop does with a task taken from a queue.
#[derive(Debug, Copy, Clone, PartialEq, Eq, Structural)]
pub enum TaskDispatch {
    /// The task was already processed: leave it.
    Skip,
    /// Create the itinerary.
    CreateItinerary,
    /// Cancel the itinerary.
    CancelItinerary,
    /// The task names no known action: it has been rejected.
    Invalid,
}

/// Decides what to do with a task taken from a queue: a task no longer
/// queued is skipped; a task with an unknown action is rejected as such.
pub fn dispatch_task(metadata: &mut TaskMetadata) -> (r: TaskDispatch)
    ensures
        old(metadata).status != TaskStatus::Queued.code() ==> r == TaskDispatch::Skip && *final(metadata) == *old(metadata),
        old(metadata).status == TaskStatus::Queued.code() ==> match TaskAction::from_code(old(metadata).action) {
            Some(TaskAction::CreateItinerary) => r == TaskDispatch::CreateItinerary && *final(metadata) == *old(metadata),
            Some(TaskAction::CancelItinerary) => r == TaskDispatch::CancelItinerary && *final(metadata) == *old(metadata),
            None => r == TaskDispatch::Invalid
                && final(metadata).status == TaskStatus::Rejected.code()
                && final(metadata).status_rationale == Some(TaskStatusRationale::InvalidAction.code())
                && final(metadata).action == old(metadata).action
                && final(metadata).user_id == old(metadata).user_id
                && final(metadata).result == old(metadata).result,
        },
{
    if metadata.status != TaskStatus::Queued.value() {
        return TaskDispatch::Skip;
    }
    match TaskAction::from_i32(metadata.action) {
        Some(TaskAction::CreateItinerary) => TaskDispatch::CreateItinerary,
        Some(TaskAction::CancelItinerary) => TaskDispatch::CancelItinerary,
        None => {
            metadata.status = TaskStatus::Rejected.value();
            metadata.status_rationale = Some(TaskStatusRationale::InvalidAction.value());
            TaskDispatch::Invalid
        },
    }
}

/// Records the outcome of a processed task: complete on success, rejected
/// otherwise.
pub fn finish_task(metadata: &mut TaskMetadata, result: Result<(), TaskError>)
    ensures
        final(metadata).status == (if result is Ok { TaskStatus::Complete.code() } else { TaskStatus::Rejected.code() }),
        final(metadata).status_rationale == old(metadata).status_rationale,
        final(metadata).action == old(metadata).action,
        final(metadata).user_id == old(metadata).user_id,
        final(metadata).result == old(metadata).result,
{
    match result {
        Ok(_) => metadata.status = TaskStatus::Complete.value(),
        Err(_) => metadata.status = TaskStatus::Rejected.value(),
    }
}

/// The itinerary a cancellation task is about: the task must be a
/// cancellation, with a cancellation body.
pub fn cancel_itinerary_target(task: &Task) -> (r: Result<String, TaskError>)
    ensures
        TaskAction::from_code(task.metadata.action) != Some(TaskAction::CancelItinerary) ==> r == Err::<String, TaskError>(TaskError::Metadata),
        TaskAction::from_code(task.metadata.action) == Some(TaskAction::CancelItinerary) ==> match task.body {
            TaskBody::CancelItinerary(id) => r matches Ok(v) && v@ == id@,
            TaskBody::CreateItinerary(_) => r == Err::<String, TaskError>(TaskError::Data),
        },
{
    match TaskAction::from_i32(task.metadata.action) {
        Some(TaskAction::CancelItinerary) => {},
        _ => return Err(TaskError::Metadata),
    }
    match &task.body {
        TaskBody::CancelItinerary(id) => Ok(id.clone()),
        TaskBody::CreateItinerary(_) => Err(TaskError::Data),
    }
}

/// The state of a stored itinerary.
#[derive(Debug, Copy, Clone, PartialEq, Eq, Structural)]
pub enum ItineraryStatus {
    Active,
    Cancelled,
}

/// Only an active itinerary can be cancelled.
pub fn check_cancellable(status: ItineraryStatus) -> (r: Result<(), TaskError>)
    ensures
        r is Ok <==> status == ItineraryStatus::Active,
        r matches Err(e) ==> e == TaskError::AlreadyProcessed,
{
    match status {
        ItineraryStatus::Active => Ok(()),
        ItineraryStatus::Cancelled => Err(TaskError::AlreadyProcessed),
    }
}

/// What creating an itinerary works from, once the task is checked: the user,
/// the flights, their vertipads and aircraft, and the time the aircraft is
/// needed, from the first departure to the last arrival.
pub struct ItineraryTaskPlan {
    pub user_id: String,
    pub flight_plans: Vec<FlightPlanSchedule>,
    pub vertipad_ids: Vec<String>,
    pub aircraft_id: String,
    pub time_window: Timeslot,
}

/// The checks of an itinerary creation task, in order: its action, its user
/// (a UUID), its body, and the itinerary itself; then the time window of the
/// itinerary.
pub open spec fn create_task_check(task: Task) -> Result<(Seq<char>, Set<Seq<char>>, Seq<char>, Timeslot), TaskError> {
    if TaskAction::from_code(task.metadata.action) != Some(TaskAction::CreateItinerary) {
        Err(TaskError::Metadata)
    } else if !is_uuid(task.metadata.user_id@) {
        Err(TaskError::UserId)
    } else {
        match task.body {
            TaskBody::CancelItinerary(_) => Err(TaskError::Data),
            TaskBody::CreateItinerary(fps) => {
                let v = schedule_views(fps@);
                let c = check_itinerary(v, Set::empty(), Seq::empty());
                if c.0 is Err {
                    Err(TaskError::Data)
                } else {
                    Ok((uuid_text(task.metadata.user_id@)->Some_0, c.1, c.2, Timeslot {
                        time_start: v[0].origin_timeslot_start,
                        time_end: v.last().target_timeslot_end,
                    }))
                }
            },
        }
    }
}

/// Checks an itinerary creation task (see [`create_task_check`]) and gathers
/// what creating the itinerary works from.
pub fn prepare_create_itinerary(task: &Task) -> (r: Result<ItineraryTaskPlan, TaskError>)
    ensures
        match r {
            Ok(p) => {
                &&& create_task_check(*task) matches Ok((user, pads, aircraft, window))
                &&& p.user_id@ == user
                &&& id_set(p.vertipad_ids@) == pads
                &&& p.aircraft_id@ == aircraft
                &&& p.time_window == window
                &&& (task.body matches TaskBody::CreateItinerary(fps) && schedule_views(p.flight_plans@) == schedule_views(fps@))
            },
            Err(e) => create_task_check(*task) == Err::<(Seq<char>, Set<Seq<char>>, Seq<char>, Timeslot), TaskError>(e),
        },
{
    match TaskAction::from_i32(task.metadata.action) {
        Some(TaskAction::CreateItinerary) => {},
        _ => return Err(TaskError::Metadata),
    }
    let user_id = match parse_uuid(task.metadata.user_id.as_str()) {
        Some(u) => u,
        None => return Err(TaskError::UserId),
    };
    let fps = match &task.body {
        TaskBody::CreateItinerary(fps) => fps,
        TaskBody::CancelItinerary(_) => return Err(TaskError::Data),
    };
    let mut vertipad_ids: Vec<String> = Vec::new();
    let mut aircraft_id = String::new();
    proof {
        assert(id_set(vertipad_ids@) =~= Set::<Seq<char>>::empty());
    }
    match validate_itinerary(fps.as_slice(), &mut vertipad_ids, &mut aircraft_id) {
        Ok(_) => {},
        Err(_) => return Err(TaskError::Data),
    }
    let n = fps.len();
    proof {
        assert(schedule_views(fps@)[0] == fps@[0]@);
        assert(schedule_views(fps@).last() == fps@[n - 1]@);
    }
    let time_window = Timeslot { time_start: fps[0].origin_timeslot_start, time_end: fps[n - 1].target_timeslot_end };
    let flight_plans = copy_schedules(fps);
    Ok(ItineraryTaskPlan { user_id, flight_plans, vertipad_ids, aircraft_id, time_window })
}

/// Whether an existing flight concerns the new itinerary: it uses one of its
/// vertipads, or its aircraft.
pub open spec fn concerns(fp: FlightPlanScheduleView, pads: Set<Seq<char>>, aircraft: Seq<char>) -> bool {
    pads.contains(fp.origin_vertipad_id) || pads.contains(fp.target_vertipad_id) || fp.vehicle_id == aircraft
}

/// The flights that concern the new itinerary, in order.
pub open spec fn concerning(fps: Seq<FlightPlanScheduleView>, pads: Set<Seq<char>>, aircraft: Seq<char>) -> Seq<FlightPlanScheduleView>
    decreases fps.len(),
{
    if fps.len() == 0 {
        Seq::empty()
    } else {
        let rest = concerning(fps.drop_last(), pads, aircraft);
        if concerns(fps.last(), pads, aircraft) { rest.push(fps.last()) } else { rest }
    }
}

/// The flights that concern a new itinerary are exactly the existing flights
/// that leave from or land on one of its vertipads or are flown by its
/// aircraft, in their order: every such flight is kept (whatever its
/// vertipads, for a flight of the itinerary's aircraft), and nothing else is.
pub proof fn lemma_concerning_flights(fps: Seq<FlightPlanScheduleView>, pads: Set<Seq<char>>, aircraft: Seq<char>)
    ensures
        forall|i: int| 0 <= i < fps.len() && (pads.contains((#[trigger] fps[i]).origin_vertipad_id)
            || pads.contains(fps[i].target_vertipad_id) || fps[i].vehicle_id == aircraft)
            ==> concerning(fps, pads, aircraft).contains(fps[i]),
        forall|j: int| 0 <= j < concerning(fps, pads, aircraft).len() ==> {
            let x = #[trigger] concerning(fps, pads, aircraft)[j];
            &&& fps.contains(x)
            &&& pads.contains(x.origin_vertipad_id) || pads.contains(x.target_vertipad_id) || x.vehicle_id == aircraft
        },
        concerning(fps, pads, aircraft).len() <= fps.len(),
    decreases fps.len(),
{
    if fps.len() > 0 {
        let d = fps.drop_last();
        lemma_concerning_flights(d, pads, aircraft);
        let rest = concerning(d, pads, aircraft);
        let all = concerning(fps, pads, aircraft);
        let n = fps.len() - 1;
        assert forall|i: int| 0 <= i < fps.len() && (pads.contains((#[trigger] fps[i]).origin_vertipad_id)
            || pads.contains(fps[i].target_vertipad_id) || fps[i].vehicle_id == aircraft)
            implies all.contains(fps[i]) by {
            if i < n {
                assert(fps[i] == d[i]);
                let m = choose|m: int| 0 <= m < rest.len() && rest[m] == d[i];
                assert(all[m] == rest[m]);
            } else {
                assert(all[all.len() - 1] == fps.last());
            }
        }
        assert forall|j: int| 0 <= j < all.len() implies {
            let x = #[trigger] all[j];
            &&& fps.contains(x)
            &&& pads.contains(x.origin_vertipad_id) || pads.contains(x.target_vertipad_id) || x.vehicle_id == aircraft
        } by {
            if j < rest.len() {
                assert(all[j] == rest[j]);
                let m = choose|m: int| 0 <= m < d.len() && d[m] == rest[j];
                assert(fps[m] == d[m]);
            } else {
                assert(all[j] == fps[n]);
            }
        }
    }
}

/// Whether the list holds the identifier.
fn holds_id(ids: &Vec<String>, id: &String) -> (r: bool)
    ensures
        r == id_set(ids@).contains(id@),
{
    let mut i: usize = 0;
    while i < ids.len()
        invariant
            i <= ids@.len(),
            forall|k: int| 0 <= k < i ==> (#[trigger] ids@[k])@ != id@,
        decreases ids@.len() - i,
    {
        if ids[i] == *id {
            proof {
                assert(ids@[i as int]@ == id@);
            }
            return true;
        }
        i = i + 1;
    }
    false
}

/// The existing flights that concern the new itinerary (see [`concerns`]),
/// in order.
pub fn relevant_flight_plans(existing_flight_plans: Vec<FlightPlanSchedule>, plan: &ItineraryTaskPlan) -> (r: Vec<FlightPlanSchedule>)
    ensures
        schedule_views(r@) == concerning(schedule_views(existing_flight_plans@), id_set(plan.vertipad_ids@), plan.aircraft_id@),
{
    let ghost all = existing_flight_plans@;
    let ghost av = schedule_views(all);
    let ghost pads = id_set(plan.vertipad_ids@);
    let mut rest = existing_flight_plans;
    let n = rest.len();
    let mut r: Vec<FlightPlanSchedule> = Vec::new();
    let mut i: usize = 0;
    proof {
        assert(av.take(0) =~= Seq::<FlightPlanScheduleView>::empty());
        assert(schedule_views(r@) =~= Seq::<FlightPlanScheduleView>::empty());
        assert(all.skip(0) =~= all);
    }
    while i < n
        invariant
            n == all.len(),
            av == schedule_views(all),
            pads == id_set(plan.vertipad_ids@),
            i <= n,
            rest@ == all.skip(i as int),
            schedule_views(r@) == concerning(av.take(i as int), pads, plan.aircraft_id@),
        decreases n - i,
    {
        let fp = rest.remove(0);
        proof {
            assert(fp == all[i as int]);
            assert(rest@ =~= all.skip(i + 1));
            assert(av.take(i + 1).drop_last() =~= av.take(i as int));
            assert(av.take(i + 1).last() == fp@);
        }
        let keep = holds_id(&plan.vertipad_ids, &fp.origin_vertipad_id)
            || holds_id(&plan.vertipad_ids, &fp.target_vertipad_id)
            || fp.vehicle_id == plan.aircraft_id;
        if keep {
            let ghost before = r@;
            r.push(fp);
            proof {
                assert(schedule_views(r@) =~= schedule_views(before).push(r@.last()@));
            }
        }
        i = i + 1;
    }
    proof {
        assert(av.take(i as int) =~= av);
    }
    r
}

/// Whether one of the aircraft's availabilities covers the whole itinerary,
/// starting and ending at the itinerary's first and last vertiports.
pub open spec fn covers_itinerary(gaps: Seq<AvailabilityView>, origin: Seq<char>, target: Seq<char>, window: Timeslot) -> bool {
    exists|k: int| 0 <= k < gaps.len() && {
        let g = #[trigger] gaps[k];
        &&& g.vertiport_id == origin
        &&& g.vertiport_id == target
        &&& g.timeslot.time_start <= window.time_start
        &&& g.timeslot.time_end >= window.time_end
    }
}

/// The instant `t` lies within the timeslot, its start and its end included.
pub open spec fn in_span(ts: Timeslot, t: int) -> bool {
    ts.time_start <= t <= ts.time_end
}

/// An aircraft's availabilities cover an itinerary exactly when one of them,
/// at the itinerary's first vertiport which is also its last, holds every
/// instant of the itinerary's time window, its start and its end included.
pub proof fn lemma_covers_itinerary(gaps: Seq<AvailabilityView>, origin: Seq<char>, target: Seq<char>, window: Timeslot)
    requires
        window.time_start <= window.time_end,
    ensures
        covers_itinerary(gaps, origin, target, window) <==> exists|k: int| 0 <= k < gaps.len() && {
            let g = #[trigger] gaps[k];
            &&& g.vertiport_id == origin
            &&& g.vertiport_id == target
            &&& forall|t: int| #[trigger] in_span(window, t) ==> in_span(g.timeslot, t)
        },
{
    if exists|k: int| 0 <= k < gaps.len() && {
        let g = #[trigger] gaps[k];
        &&& g.vertiport_id == origin
        &&& g.vertiport_id == target
        &&& forall|t: int| #[trigger] in_span(window, t) ==> in_span(g.timeslot, t)
    } {
        let k = choose|k: int| 0 <= k < gaps.len() && {
            let g = #[trigger] gaps[k];
            &&& g.vertiport_id == origin
            &&& g.vertiport_id == target
            &&& forall|t: int| #[trigger] in_span(window, t) ==> in_span(g.timeslot, t)
        };
        let g = gaps[k];
        assert(in_span(window, window.time_start as int));
        assert(in_span(window, window.time_end as int));
    }
}

/// Checks that the itinerary's aircraft is available for all of it (see
/// [`covers_itinerary`]); `aircraft_gaps` are the availabilities of the
/// aircraft, grouped by aircraft.
pub fn check_aircraft_gaps(aircraft_gaps: &Vec<(String, Vec<Availability>)>, plan: &ItineraryTaskPlan) -> (r: Result<(), TaskError>)
    requires
        plan.flight_plans@.len() > 0,
    ensures
        r is Ok <==> {
            let k = find_group(group_views(aircraft_gaps@), plan.aircraft_id@);
            &&& k >= 0
            &&& covers_itinerary(
                group_views(aircraft_gaps@)[k].1,
                plan.flight_plans@[0].origin_vertiport_id@,
                plan.flight_plans@.last().target_vertiport_id@,
                plan.time_window,
            )
        },
        r matches Err(e) ==> e == TaskError::ScheduleConflict,
{
    let ghost gv = group_views(aircraft_gaps@);
    let mut found: Option<usize> = None;
    let mut i: usize = 0;
    while i < aircraft_gaps.len()
        invariant
            gv == group_views(aircraft_gaps@),
            i <= aircraft_gaps@.len(),
            match found {
                None => find_group(gv.take(i as int), plan.aircraft_id@) == -1,
                Some(k) => find_group(gv.take(i as int), plan.aircraft_id@) == k && k < i,
            },
        decreases aircraft_gaps@.len() - i,
    {
        proof {
            assert(gv.take(i + 1).drop_last() =~= gv.take(i as int));
            assert(gv.take(i + 1).last() == gv[i as int]);
        }
        if aircraft_gaps[i].0 == plan.aircraft_id {
            found = Some(i);
        }
        i = i + 1;
    }
    proof {
        assert(gv.take(i as int) =~= gv);
    }
    let k = match found {
        None => return Err(TaskError::ScheduleConflict),
        Some(k) => k,
    };
    let gaps = &aircraft_gaps[k].1;
    let n = plan.flight_plans.len();
    let origin = &plan.flight_plans[0].origin_vertiport_id;
    let target = &plan.flight_plans[n - 1].target_vertiport_id;
    let ghost gs = availability_views(gaps@);
    proof {
        assert(gv[k as int].1 == gs);
    }
    let mut j: usize = 0;
    while j < gaps.len()
        invariant
            gs == availability_views(gaps@),
            gv == group_views(aircraft_gaps@),
            find_group(gv, plan.aircraft_id@) == k,
            k < gv.len(),
            gv[k as int].1 == gs,
            n == plan.flight_plans@.len(),
            n > 0,
            origin@ == plan.flight_plans@[0].origin_vertiport_id@,
            target@ == plan.flight_plans@[n - 1].target_vertiport_id@,
            j <= gaps@.len(),
            forall|m: int| 0 <= m < j ==> !({
                let g = #[trigger] gs[m];
                &&& g.vertiport_id == origin@
                &&& g.vertiport_id == target@
                &&& g.timeslot.time_start <= plan.time_window.time_start
                &&& g.timeslot.time_end >= plan.time_window.time_end
            }),
        decreases gaps@.len() - j,
    {
        let gap = &gaps[j];
        proof {
            assert(gs[j as int] == gap@);
        }
        if gap.vertiport_id == *origin && gap.vertiport_id == *target
            && gap.timeslot.time_start <= plan.time_window.time_start
            && gap.timeslot.time_end >= plan.time_window.time_end {
            proof {
                assert(plan.flight_plans@.last() == plan.flight_plans@[n - 1]);
                let g = gs[j as int];
                assert(g.vertiport_id == origin@ && g.vertiport_id == target@);
                assert(covers_itinerary(gs, origin@, target@, plan.time_window));
            }
            return Ok(());
        }
        j = j + 1;
    }
    proof {
        assert(plan.flight_plans@.last() == plan.flight_plans@[n - 1]);
    }
    Err(TaskError::ScheduleConflict)
}

/// What the search for a flight's timeslot pair covers: the flight's own
/// vertipads, loading and unloading times, and its time from departure start
/// to arrival end.
pub struct PairRequest {
    pub origin_vertiport_id: String,
    pub origin_vertipad_id: String,
    pub target_vertiport_id: String,
    pub target_vertipad_id: String,
    pub loading_time: i64,
    pub unloading_time: i64,
    pub timeslot: Timeslot,
}

/// The timeslot pair search for a flight of the itinerary.
pub fn pair_request(fp: &FlightPlanSchedule) -> (r: PairRequest)
    requires
        valid_time(fp.origin_timeslot_start as int),
        valid_time(fp.origin_timeslot_end as int),
        valid_time(fp.target_timeslot_start as int),
        valid_time(fp.target_timeslot_end as int),
    ensures
        r.origin_vertiport_id@ == fp.origin_vertiport_id@,
        r.origin_vertipad_id@ == fp.origin_vertipad_id@,
        r.target_vertiport_id@ == fp.target_vertiport_id@,
        r.target_vertipad_id@ == fp.target_vertipad_id@,
        r.loading_time == fp.origin_timeslot_end - fp.origin_timeslot_start,
        r.unloading_time == fp.target_timeslot_end - fp.target_timeslot_start,
        r.timeslot == (Timeslot { time_start: fp.origin_timeslot_start, time_end: fp.target_timeslot_end }),
{
    PairRequest {
        origin_vertiport_id: fp.origin_vertiport_id.clone(),
        origin_vertipad_id: fp.origin_vertipad_id.clone(),
        target_vertiport_id: fp.target_vertiport_id.clone(),
        target_vertipad_id: fp.target_vertipad_id.clone(),
        loading_time: fp.origin_timeslot_end - fp.origin_timeslot_start,
        unloading_time: fp.target_timeslot_end - fp.target_timeslot_start,
        timeslot: Timeslot { time_start: fp.origin_timeslot_start, time_end: fp.target_timeslot_end },
    }
}

/// The timeslot pair a confirmed flight takes: the first one found (the
/// shortest path); with none, the flight conflicts with the schedule.
pub fn first_pair(pairs: Vec<TimeslotPair>) -> (r: Result<TimeslotPair, TaskError>)
    ensures
        pairs@.len() == 0 ==> r == Err::<TimeslotPair, TaskError>(TaskError::ScheduleConflict),
        pairs@.len() > 0 ==> r == Ok::<TimeslotPair, TaskError>(pairs@[0]),
{
    let mut pairs = pairs;
    if pairs.len() == 0 {
        return Err(TaskError::ScheduleConflict);
    }
    Ok(pairs.remove(0))
}

} // verus!
