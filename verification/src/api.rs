//! Requests of the scheduler service: their checks, the tasks they queue, and
//! the draft itineraries kept until they are confirmed.

use crate::flight_plan::{schedule_from_data, schedule_views, FlightPlanData, FlightPlanSchedule, FlightPlanScheduleView};
use crate::groups::{
    entries_map, find_group, keys_unique, lemma_entries_map, lemma_entries_map_push, lemma_entries_map_remove,
    lemma_entries_map_update, lemma_find_group,
};
use crate::ids::{is_uuid, parse_uuid, uuid_text};
use crate::tasks::{FlightPriority, Task, TaskAction, TaskBody, TaskMetadata, TaskStatus};
use crate::text::{int_text, int_to_text, str_eq};
use crate::schedule::valid_time;
use vstd::prelude::*;

verus! {

/// How long after its creation a cancellation task expires (ms).
pub const CANCELLATION_EXPIRY_MS: i64 = 3_600_000;

/// Time to block a vertiport for cargo loading and takeoff (ms).
pub const LOADING_AND_TAKEOFF_TIME_MS: i64 = 60_000;

/// Time to block a vertiport for cargo unloading and landing (ms).
pub const LANDING_AND_UNLOADING_TIME_MS: i64 = 60_000;

/// Maximum time between departure and arrival times for flight queries (ms).
pub const MAX_FLIGHT_QUERY_WINDOW_MS: i64 = 43_200_000;

/// How long before its earliest departure a flight must be asked for (ms).
pub const ADVANCE_NOTICE_MS: i64 = 180_000;

/// How long a draft itinerary waits for its confirmation (s).
pub const ITINERARY_EXPIRATION_S: u64 = 30;

/// Errors that can occur when cancelling an itinerary.
#[derive(Debug, Copy, Clone, PartialEq, Eq, Structural)]
pub enum CancelItineraryError {
    /// Invalid itinerary ID provided
    ItineraryId,
    /// Invalid user ID provided
    UserId,
    /// Invalid priority provided
    Priority(i32),
    /// Error creating time delta
    TimeDelta,
    /// Internal error
    InternalError,
    /// Error getting the redis pool
    RedisPool,
    /// Error creating a new task
    TaskCreation,
}

impl CancelItineraryError {
    pub open spec fn message(&self) -> Seq<char> {
        "Error cancelling itinerary: "@ + match self {
            CancelItineraryError::ItineraryId => "Invalid itinerary ID provided."@,
            CancelItineraryError::UserId => "Invalid user ID provided."@,
            CancelItineraryError::Priority(p) => "Invalid priority provided: "@ + int_text(*p as int) + "."@,
            CancelItineraryError::TimeDelta => "Error creating time delta."@,
            CancelItineraryError::InternalError => "Internal error."@,
            CancelItineraryError::RedisPool => "Couldn't get the redis pool."@,
            CancelItineraryError::TaskCreation => "Could not create new task."@,
        }
    }

    /// The message describing the error.
    pub fn to_string(&self) -> (r: String)
        ensures
            r@ == self.message(),
    {
        let mut s = "Error cancelling itinerary: ".to_owned();
        match self {
            CancelItineraryError::ItineraryId => s.append("Invalid itinerary ID provided."),
            CancelItineraryError::UserId => s.append("Invalid user ID provided."),
            CancelItineraryError::Priority(p) => {
                s.append("Invalid priority provided: ");
                let n = int_to_text(*p as i64);
                s.append(n.as_str());
                s.append(".");
            },
            CancelItineraryError::TimeDelta => s.append("Error creating time delta."),
            CancelItineraryError::InternalError => s.append("Internal error."),
            CancelItineraryError::RedisPool => s.append("Couldn't get the redis pool."),
            CancelItineraryError::TaskCreation => s.append("Could not create new task."),
        }
        s
    }
}

/// A request to cancel an itinerary.
#[derive(Debug, Clone)]
pub struct CancelItineraryRequest {
    pub itinerary_id: String,
    pub user_id: String,
    pub priority: i32,
}

/// The task that cancels an itinerary, queued under the request's priority:
/// the itinerary and the user must be UUIDs and the priority one of the
/// priorities, checked in that order.
pub fn cancel_itinerary_task(request: &CancelItineraryRequest) -> (r: Result<(Task, FlightPriority), CancelItineraryError>)
    ensures
        !is_uuid(request.itinerary_id@) ==> r == Err::<(Task, FlightPriority), CancelItineraryError>(CancelItineraryError::ItineraryId),
        is_uuid(request.itinerary_id@) && !is_uuid(request.user_id@)
            ==> r == Err::<(Task, FlightPriority), CancelItineraryError>(CancelItineraryError::UserId),
        is_uuid(request.itinerary_id@) && is_uuid(request.user_id@) && FlightPriority::from_code(request.priority) is None
            ==> r == Err::<(Task, FlightPriority), CancelItineraryError>(CancelItineraryError::Priority(request.priority)),
        is_uuid(request.itinerary_id@) && is_uuid(request.user_id@) && FlightPriority::from_code(request.priority) is Some
            ==> r is Ok,
        r matches Ok((task, priority)) ==> {
            &&& is_uuid(request.itinerary_id@) && is_uuid(request.user_id@)
            &&& FlightPriority::from_code(request.priority) == Some(priority)
            &&& task.metadata.status == TaskStatus::Queued.code()
            &&& task.metadata.status_rationale is None
            &&& task.metadata.action == TaskAction::CancelItinerary.code()
            &&& task.metadata.user_id@ == uuid_text(request.user_id@)->Some_0
            &&& task.metadata.result is None
            &&& (task.body matches TaskBody::CancelItinerary(id) && id@ == uuid_text(request.itinerary_id@)->Some_0)
        },
{
    let itinerary_id = match parse_uuid(request.itinerary_id.as_str()) {
        Some(id) => id,
        None => return Err(CancelItineraryError::ItineraryId),
    };
    let user_id = match parse_uuid(request.user_id.as_str()) {
        Some(id) => id,
        None => return Err(CancelItineraryError::UserId),
    };
    let priority = match FlightPriority::from_i32(request.priority) {
        Some(p) => p,
        None => return Err(CancelItineraryError::Priority(request.priority)),
    };
    let task = Task {
        metadata: TaskMetadata {
            status: TaskStatus::Queued.value(),
            status_rationale: None,
            action: TaskAction::CancelItinerary.value(),
            user_id,
            result: None,
        },
        body: TaskBody::CancelItinerary(itinerary_id),
    };
    Ok((task, priority))
}

/// When a cancellation task made at `now_ms` expires.
pub fn cancellation_expiry(now_ms: i64) -> (r: i64)
    requires
        valid_time(now_ms as int),
    ensures
        r == now_ms + CANCELLATION_EXPIRY_MS,
{
    now_ms + CANCELLATION_EXPIRY_MS
}

/// Errors on a request to create an itinerary.
#[derive(Debug, Copy, Clone, PartialEq, Eq, Structural)]
pub enum CreateItineraryError {
    Priority,
    UserId,
    FlightPlans,
    NoFlightPlans,
}

impl CreateItineraryError {
    pub open spec fn message(&self) -> Seq<char> {
        match self {
            CreateItineraryError::Priority => "Invalid priority provided."@,
            CreateItineraryError::UserId => "Invalid user ID provided."@,
            CreateItineraryError::FlightPlans => "Invalid flight plans provided."@,
            CreateItineraryError::NoFlightPlans => "No flight plans provided."@,
        }
    }

    /// The message describing the error.
    pub fn to_string(&self) -> (r: String)
        ensures
            r@ == self.message(),
    {
        match self {
            CreateItineraryError::Priority => "Invalid priority provided.".to_string(),
            CreateItineraryError::UserId => "Invalid user ID provided.".to_string(),
            CreateItineraryError::FlightPlans => "Invalid flight plans provided.".to_string(),
            CreateItineraryError::NoFlightPlans => "No flight plans provided.".to_string(),
        }
    }
}

/// A request to create an itinerary out of flight plans.
#[derive(Debug, Clone)]
pub struct CreateItineraryRequest {
    pub priority: i32,
    pub user_id: String,
    pub flight_plans: Vec<FlightPlanData>,
    /// An expiry for the task, used where earlier than the first departure.
    pub expiry: Option<i64>,
}

/// The schedules of the flight plans, or the first flight plan that makes
/// none.
pub open spec fn schedules_of(data: Seq<FlightPlanData>) -> Option<Seq<FlightPlanScheduleView>>
    decreases data.len(),
{
    if data.len() == 0 {
        Some(Seq::empty())
    } else {
        match (schedules_of(data.drop_last()), schedule_from_data(data.last())) {
            (Some(s), Ok(f)) => Some(s.push(f@)),
            _ => None,
        }
    }
}

/// The earliest departure start of the schedules.
pub open spec fn earliest_departure(s: Seq<FlightPlanScheduleView>) -> i64
    decreases s.len(),
{
    if s.len() <= 1 {
        s[0].origin_timeslot_start
    } else {
        let rest = earliest_departure(s.drop_last());
        if s.last().origin_timeslot_start < rest { s.last().origin_timeslot_start } else { rest }
    }
}

/// The task that creates an itinerary, with its priority and expiry: the
/// priority, the user and the flight plans are checked in that order; the
/// task expires at the earliest departure, or at the request's expiry if that
/// is earlier.
pub fn create_itinerary_task(request: CreateItineraryRequest) -> (r: Result<(Task, FlightPriority, i64), CreateItineraryError>)
    ensures
        FlightPriority::from_code(request.priority) is None ==> r == Err::<(Task, FlightPriority, i64), CreateItineraryError>(CreateItineraryError::Priority),
        FlightPriority::from_code(request.priority) is Some && !is_uuid(request.user_id@)
            ==> r == Err::<(Task, FlightPriority, i64), CreateItineraryError>(CreateItineraryError::UserId),
        FlightPriority::from_code(request.priority) is Some && is_uuid(request.user_id@) && schedules_of(request.flight_plans@) is None
            ==> r == Err::<(Task, FlightPriority, i64), CreateItineraryError>(CreateItineraryError::FlightPlans),
        FlightPriority::from_code(request.priority) is Some && is_uuid(request.user_id@) && schedules_of(request.flight_plans@) == Some(Seq::<FlightPlanScheduleView>::empty())
            ==> r == Err::<(Task, FlightPriority, i64), CreateItineraryError>(CreateItineraryError::NoFlightPlans),
        FlightPriority::from_code(request.priority) is Some && is_uuid(request.user_id@) && schedules_of(request.flight_plans@) is Some
            && schedules_of(request.flight_plans@)->Some_0.len() > 0 ==> r is Ok,
        r matches Ok((task, priority, expiry)) ==> {
            &&& FlightPriority::from_code(request.priority) == Some(priority)
            &&& is_uuid(request.user_id@)
            &&& schedules_of(request.flight_plans@) matches Some(s) && s.len() > 0
                && (task.body matches TaskBody::CreateItinerary(fps) && schedule_views(fps@) == s)
                && expiry == (match request.expiry {
                    Some(e) => if e < earliest_departure(s) { e } else { earliest_departure(s) },
                    None => earliest_departure(s),
                })
            &&& task.metadata.status == TaskStatus::Queued.code()
            &&& task.metadata.status_rationale is None
            &&& task.metadata.action == TaskAction::CreateItinerary.code()
            &&& task.metadata.user_id@ == uuid_text(request.user_id@)->Some_0
            &&& task.metadata.result is None
        },
{
    let priority = match FlightPriority::from_i32(request.priority) {
        Some(p) => p,
        None => return Err(CreateItineraryError::Priority),
    };
    let user_id = match parse_uuid(request.user_id.as_str()) {
        Some(id) => id,
        None => return Err(CreateItineraryError::UserId),
    };
    let ghost all = request.flight_plans@;
    let mut rest = request.flight_plans;
    let n = rest.len();
    let mut schedules: Vec<FlightPlanSchedule> = Vec::new();
    let mut i: usize = 0;
    proof {
        assert(all.take(0) =~= Seq::<FlightPlanData>::empty());
        assert(all.skip(0) =~= all);
        assert(schedule_views(schedules@) =~= Seq::<FlightPlanScheduleView>::empty());
    }
    while i < n
        invariant
            n == all.len(),
            all == request.flight_plans@,
            FlightPriority::from_code(request.priority) is Some,
            is_uuid(request.user_id@),
            i <= n,
            rest@ == all.skip(i as int),
            schedules_of(all.take(i as int)) == Some(schedule_views(schedules@)),
        decreases n - i,
    {
        let d = rest.remove(0);
        proof {
            assert(d == all[i as int]);
            assert(rest@ =~= all.skip(i + 1));
            assert(all.take(i + 1).drop_last() =~= all.take(i as int));
            assert(all.take(i + 1).last() == d);
        }
        match FlightPlanSchedule::try_from_data(d) {
            Ok(f) => {
                let ghost before = schedules@;
                schedules.push(f);
                proof {
                    assert(schedule_views(schedules@) =~= schedule_views(before).push(f@));
                }
            },
            Err(_) => {
                proof {
                    lemma_schedules_of_prefix(all, i as int + 1);
                }
                return Err(CreateItineraryError::FlightPlans);
            },
        }
        i = i + 1;
    }
    proof {
        assert(all.take(i as int) =~= all);
    }
    if schedules.len() == 0 {
        return Err(CreateItineraryError::NoFlightPlans);
    }
    let ghost sv = schedule_views(schedules@);
    let mut earliest = schedules[0].origin_timeslot_start;
    let mut k: usize = 1;
    proof {
        assert(sv.take(1).len() == 1);
        assert(sv.take(1)[0] == sv[0]);
        assert(sv[0] == schedules@[0]@);
    }
    while k < schedules.len()
        invariant
            sv == schedule_views(schedules@),
            1 <= k <= schedules@.len(),
            earliest == earliest_departure(sv.take(k as int)),
        decreases schedules@.len() - k,
    {
        proof {
            assert(sv.take(k + 1).drop_last() =~= sv.take(k as int));
            assert(sv.take(k + 1).last() == schedules@[k as int]@);
        }
        if schedules[k].origin_timeslot_start < earliest {
            earliest = schedules[k].origin_timeslot_start;
        }
        k = k + 1;
    }
    proof {
        assert(sv.take(k as int) =~= sv);
    }
    let expiry = match request.expiry {
        Some(e) => if e < earliest { e } else { earliest },
        None => earliest,
    };
    let task = Task {
        metadata: TaskMetadata {
            status: TaskStatus::Queued.value(),
            status_rationale: None,
            action: TaskAction::CreateItinerary.value(),
            user_id,
            result: None,
        },
        body: TaskBody::CreateItinerary(schedules),
    };
    Ok((task, priority, expiry))
}

/// A prefix that makes no schedule leaves the whole making none.
proof fn lemma_schedules_of_prefix(data: Seq<FlightPlanData>, m: int)
    requires
        0 <= m <= data.len(),
        schedules_of(data.take(m)) is None,
    ensures
        schedules_of(data) is None,
    decreases data.len() - m,
{
    if m < data.len() {
        assert(data.take(m + 1).drop_last() =~= data.take(m));
        lemma_schedules_of_prefix(data, m + 1);
    } else {
        assert(data.take(m) =~= data);
    }
}

/// Errors on a flight query.
#[derive(Debug, Copy, Clone, PartialEq, Eq, Structural)]
pub enum FlightQueryError {
    InvalidVertiportId,
    InvalidTime,
    TimeRangeTooLarge,
    Internal,
}

impl FlightQueryError {
    pub open spec fn message(&self) -> Seq<char> {
        match self {
            FlightQueryError::InvalidVertiportId => "Invalid vertiport ID"@,
            FlightQueryError::InvalidTime => "Invalid time"@,
            FlightQueryError::TimeRangeTooLarge => "Time range too large"@,
            FlightQueryError::Internal => "Internal error"@,
        }
    }

    /// The message describing the error.
    pub fn to_string(&self) -> (r: String)
        ensures
            r@ == self.message(),
    {
        match self {
            FlightQueryError::InvalidVertiportId => "Invalid vertiport ID".to_string(),
            FlightQueryError::InvalidTime => "Invalid time".to_string(),
            FlightQueryError::TimeRangeTooLarge => "Time range too large".to_string(),
            FlightQueryError::Internal => "Internal error".to_string(),
        }
    }
}

/// A request for possible flights between two vertiports.
#[derive(Debug, Clone)]
pub struct QueryFlightRequest {
    pub origin_vertiport_id: String,
    pub target_vertiport_id: String,
    pub earliest_departure_time: Option<i64>,
    pub latest_arrival_time: Option<i64>,
}

/// A checked flight query.
#[derive(Debug, Clone)]
pub struct FlightQuery {
    pub origin_vertiport_id: String,
    pub arrival_vertiport_id: String,
    pub earliest_departure_time: i64,
    pub latest_arrival_time: i64,
    pub required_loading_time: i64,
    pub required_unloading_time: i64,
}

/// The outcome of checking a flight query at `now_ms`, in order: both
/// vertiports are UUIDs, both times are given, the departure comes no later
/// than the arrival, the two are at most the largest window apart, and the
/// departure leaves the advance notice.
pub open spec fn flight_query_check(request: QueryFlightRequest, now_ms: i64) -> Result<(Seq<char>, Seq<char>, i64, i64), FlightQueryError> {
    if !is_uuid(request.origin_vertiport_id@) || !is_uuid(request.target_vertiport_id@) {
        Err(FlightQueryError::InvalidVertiportId)
    } else if request.latest_arrival_time is None || request.earliest_departure_time is None {
        Err(FlightQueryError::InvalidTime)
    } else {
        let latest = request.latest_arrival_time->Some_0;
        let earliest = request.earliest_departure_time->Some_0;
        if earliest > latest {
            Err(FlightQueryError::InvalidTime)
        } else if latest - earliest > MAX_FLIGHT_QUERY_WINDOW_MS {
            Err(FlightQueryError::TimeRangeTooLarge)
        } else if earliest < now_ms + ADVANCE_NOTICE_MS {
            Err(FlightQueryError::InvalidTime)
        } else {
            Ok((uuid_text(request.origin_vertiport_id@)->Some_0, uuid_text(request.target_vertiport_id@)->Some_0, earliest, latest))
        }
    }
}

impl FlightQuery {
    /// Checks a flight query made at `now_ms` (see [`flight_query_check`]);
    /// the loading and unloading times are the vertiports' standard ones.
    pub fn try_from_request(request: QueryFlightRequest, now_ms: i64) -> (r: Result<FlightQuery, FlightQueryError>)
        requires
            valid_time(now_ms as int),
            request.earliest_departure_time matches Some(t) ==> valid_time(t as int),
            request.latest_arrival_time matches Some(t) ==> valid_time(t as int),
        ensures
            match r {
                Ok(q) => flight_query_check(request, now_ms) == Ok::<(Seq<char>, Seq<char>, i64, i64), FlightQueryError>(
                    (q.origin_vertiport_id@, q.arrival_vertiport_id@, q.earliest_departure_time, q.latest_arrival_time),
                ) && q.required_loading_time == LOADING_AND_TAKEOFF_TIME_MS
                    && q.required_unloading_time == LANDING_AND_UNLOADING_TIME_MS,
                Err(e) => flight_query_check(request, now_ms) == Err::<(Seq<char>, Seq<char>, i64, i64), FlightQueryError>(e),
            },
    {
        let origin_vertiport_id = match parse_uuid(request.origin_vertiport_id.as_str()) {
            Some(id) => id,
            None => return Err(FlightQueryError::InvalidVertiportId),
        };
        let arrival_vertiport_id = match parse_uuid(request.target_vertiport_id.as_str()) {
            Some(id) => id,
            None => return Err(FlightQueryError::InvalidVertiportId),
        };
        let latest_arrival_time = match request.latest_arrival_time {
            Some(t) => t,
            None => return Err(FlightQueryError::InvalidTime),
        };
        let earliest_departure_time = match request.earliest_departure_time {
            Some(t) => t,
            None => return Err(FlightQueryError::InvalidTime),
        };
        if earliest_departure_time > latest_arrival_time {
            return Err(FlightQueryError::InvalidTime);
        }
        if latest_arrival_time - earliest_departure_time > MAX_FLIGHT_QUERY_WINDOW_MS {
            return Err(FlightQueryError::TimeRangeTooLarge);
        }
        if earliest_departure_time < now_ms + ADVANCE_NOTICE_MS {
            return Err(FlightQueryError::InvalidTime);
        }
        Ok(FlightQuery {
            origin_vertiport_id,
            arrival_vertiport_id,
            earliest_departure_time,
            latest_arrival_time,
            required_loading_time: LOADING_AND_TAKEOFF_TIME_MS,
            required_unloading_time: LANDING_AND_UNLOADING_TIME_MS,
        })
    }
}

/// The itineraries and flight plans proposed to users and not yet confirmed,
/// each under an identifier: an itinerary is the list of its flight plans'
/// identifiers. Each is a list of entries whose keys are unique: vstd states
/// what std's `HashMap` does only for keys that obey its key model
/// (`obeys_key_model`), which it grants to integer keys and not to `String`.
pub struct DraftCache {
    pub itineraries: Vec<(String, Vec<String>)>,
    pub flight_plans: Vec<(String, FlightPlanSchedule)>,
}

pub open spec fn itinerary_entries(v: Seq<(String, Vec<String>)>) -> Seq<(Seq<char>, Seq<Seq<char>>)> {
    v.map_values(|p: (String, Vec<String>)| (p.0@, p.1@.map_values(|s: String| s@)))
}

pub open spec fn flight_plan_entries(v: Seq<(String, FlightPlanSchedule)>) -> Seq<(Seq<char>, FlightPlanScheduleView)> {
    v.map_values(|p: (String, FlightPlanSchedule)| (p.0@, p.1@))
}

impl DraftCache {
    /// No identifier is used twice.
    pub open spec fn wf(&self) -> bool {
        keys_unique(itinerary_entries(self.itineraries@)) && keys_unique(flight_plan_entries(self.flight_plans@))
    }

    /// The draft itineraries, by identifier.
    pub open spec fn itinerary_map(&self) -> Map<Seq<char>, Seq<Seq<char>>> {
        entries_map(itinerary_entries(self.itineraries@))
    }

    /// The draft flight plans, by identifier.
    pub open spec fn flight_plan_map(&self) -> Map<Seq<char>, FlightPlanScheduleView> {
        entries_map(flight_plan_entries(self.flight_plans@))
    }

    /// An empty cache.
    pub fn new() -> (r: DraftCache)
        ensures
            r.wf(),
            r.itinerary_map() == Map::<Seq<char>, Seq<Seq<char>>>::empty(),
            r.flight_plan_map() == Map::<Seq<char>, FlightPlanScheduleView>::empty(),
    {
        let r = DraftCache { itineraries: Vec::new(), flight_plans: Vec::new() };
        proof {
            assert(itinerary_entries(r.itineraries@) =~= Seq::<(Seq<char>, Seq<Seq<char>>)>::empty());
            assert(flight_plan_entries(r.flight_plans@) =~= Seq::<(Seq<char>, FlightPlanScheduleView)>::empty());
        }
        r
    }

    fn find_itinerary(&self, id: &str) -> (r: Option<usize>)
        ensures
            match r {
                None => find_group(itinerary_entries(self.itineraries@), id@) == -1,
                Some(k) => find_group(itinerary_entries(self.itineraries@), id@) == k && k < self.itineraries@.len(),
            },
    {
        let ghost e = itinerary_entries(self.itineraries@);
        let mut found: Option<usize> = None;
        let mut i: usize = 0;
        while i < self.itineraries.len()
            invariant
                e == itinerary_entries(self.itineraries@),
                i <= self.itineraries@.len(),
                match found {
                    None => find_group(e.take(i as int), id@) == -1,
                    Some(k) => find_group(e.take(i as int), id@) == k && k < i,
                },
            decreases self.itineraries@.len() - i,
        {
            proof {
                assert(e.take(i + 1).drop_last() =~= e.take(i as int));
                assert(e.take(i + 1).last() == e[i as int]);
            }
            if str_eq(self.itineraries[i].0.as_str(), id) {
                found = Some(i);
            }
            i = i + 1;
        }
        proof {
            assert(e.take(i as int) =~= e);
        }
        found
    }

    fn find_flight_plan(&self, id: &str) -> (r: Option<usize>)
        ensures
            match r {
                None => find_group(flight_plan_entries(self.flight_plans@), id@) == -1,
                Some(k) => find_group(flight_plan_entries(self.flight_plans@), id@) == k && k < self.flight_plans@.len(),
            },
    {
        let ghost e = flight_plan_entries(self.flight_plans@);
        let mut found: Option<usize> = None;
        let mut i: usize = 0;
        while i < self.flight_plans.len()
            invariant
                e == flight_plan_entries(self.flight_plans@),
                i <= self.flight_plans@.len(),
                match found {
                    None => find_group(e.take(i as int), id@) == -1,
                    Some(k) => find_group(e.take(i as int), id@) == k && k < i,
                },
            decreases self.flight_plans@.len() - i,
        {
            proof {
                assert(e.take(i + 1).drop_last() =~= e.take(i as int));
                assert(e.take(i + 1).last() == e[i as int]);
            }
            if str_eq(self.flight_plans[i].0.as_str(), id) {
                found = Some(i);
            }
            i = i + 1;
        }
        proof {
            assert(e.take(i as int) =~= e);
        }
        found
    }

    /// Keeps a draft flight plan under its identifier, replacing any before.
    pub fn insert_draft_fp(&mut self, id: String, flight_plan: FlightPlanSchedule)
        requires
            old(self).wf(),
        ensures
            final(self).wf(),
            final(self).flight_plan_map() == old(self).flight_plan_map().insert(id@, flight_plan@),
            final(self).itinerary_map() == old(self).itinerary_map(),
    {
        let ghost e = flight_plan_entries(self.flight_plans@);
        match self.find_flight_plan(id.as_str()) {
            Some(k) => {
                let ghost fv = flight_plan@;
                let ghost idv = id@;
                self.flight_plans.remove(k);
                self.flight_plans.insert(k, (id, flight_plan));
                proof {
                    assert(flight_plan_entries(self.flight_plans@) =~= e.update(k as int, (idv, fv)));
                    lemma_entries_map_update(e, idv, fv);
                    lemma_find_group(e, idv);
                    assert forall|i: int, j: int| 0 <= i < j < flight_plan_entries(self.flight_plans@).len()
                        implies (#[trigger] flight_plan_entries(self.flight_plans@)[i]).0 != (#[trigger] flight_plan_entries(self.flight_plans@)[j]).0 by {
                        assert(e[i].0 != e[j].0);
                    }
                }
            },
            None => {
                let ghost fv = flight_plan@;
                let ghost idv = id@;
                self.flight_plans.push((id, flight_plan));
                proof {
                    assert(flight_plan_entries(self.flight_plans@) =~= e.push((idv, fv)));
                    lemma_entries_map_push(e, idv, fv);
                    lemma_find_group(e, idv);
                    assert forall|i: int, j: int| 0 <= i < j < flight_plan_entries(self.flight_plans@).len()
                        implies (#[trigger] flight_plan_entries(self.flight_plans@)[i]).0 != (#[trigger] flight_plan_entries(self.flight_plans@)[j]).0 by {
                        if j < e.len() {
                            assert(e[i].0 != e[j].0);
                        }
                    }
                }
            },
        }
    }

    /// Keeps a draft itinerary under its identifier, replacing any before.
    pub fn insert_draft_itinerary(&mut self, id: String, flight_plan_ids: Vec<String>)
        requires
            old(self).wf(),
        ensures
            final(self).wf(),
            final(self).itinerary_map() == old(self).itinerary_map().insert(id@, flight_plan_ids@.map_values(|s: String| s@)),
            final(self).flight_plan_map() == old(self).flight_plan_map(),
    {
        let ghost e = itinerary_entries(self.itineraries@);
        let ghost fv = flight_plan_ids@.map_values(|s: String| s@);
        let ghost idv = id@;
        match self.find_itinerary(id.as_str()) {
            Some(k) => {
                self.itineraries.remove(k);
                self.itineraries.insert(k, (id, flight_plan_ids));
                proof {
                    assert(itinerary_entries(self.itineraries@) =~= e.update(k as int, (idv, fv)));
                    lemma_entries_map_update(e, idv, fv);
                    lemma_find_group(e, idv);
                    assert forall|i: int, j: int| 0 <= i < j < itinerary_entries(self.itineraries@).len()
                        implies (#[trigger] itinerary_entries(self.itineraries@)[i]).0 != (#[trigger] itinerary_entries(self.itineraries@)[j]).0 by {
                        assert(e[i].0 != e[j].0);
                    }
                }
            },
            None => {
                self.itineraries.push((id, flight_plan_ids));
                proof {
                    assert(itinerary_entries(self.itineraries@) =~= e.push((idv, fv)));
                    lemma_entries_map_push(e, idv, fv);
                    lemma_find_group(e, idv);
                    assert forall|i: int, j: int| 0 <= i < j < itinerary_entries(self.itineraries@).len()
                        implies (#[trigger] itinerary_entries(self.itineraries@)[i]).0 != (#[trigger] itinerary_entries(self.itineraries@)[j]).0 by {
                        if j < e.len() {
                            assert(e[i].0 != e[j].0);
                        }
                    }
                }
            },
        }
    }

    /// Removes a draft flight plan; whether there was one.
    pub fn remove_draft_fp_by_id(&mut self, id: &str) -> (r: bool)
        requires
            old(self).wf(),
        ensures
            final(self).wf(),
            r == old(self).flight_plan_map().contains_key(id@),
            final(self).flight_plan_map() == old(self).flight_plan_map().remove(id@),
            final(self).itinerary_map() == old(self).itinerary_map(),
    {
        let ghost e = flight_plan_entries(self.flight_plans@);
        proof {
            lemma_entries_map(e, id@);
        }
        match self.find_flight_plan(id) {
            Some(k) => {
                self.flight_plans.remove(k);
                proof {
                    assert(flight_plan_entries(self.flight_plans@) =~= e.remove(k as int));
                    lemma_entries_map_remove(e, id@);
                }
                true
            },
            None => {
                proof {
                    assert(entries_map(e) =~= entries_map(e).remove(id@));
                }
                false
            },
        }
    }

    /// Removes a draft itinerary and its draft flight plans; whether there was
    /// one.
    pub fn remove_draft_itinerary_by_id(&mut self, id: &str) -> (r: bool)
        requires
            old(self).wf(),
        ensures
            final(self).wf(),
            r == old(self).itinerary_map().contains_key(id@),
            final(self).itinerary_map() == old(self).itinerary_map().remove(id@),
            r ==> final(self).flight_plan_map() == old(self).flight_plan_map().remove_keys(old(self).itinerary_map()[id@].to_set()),
            !r ==> final(self).flight_plan_map() == old(self).flight_plan_map(),
    {
        let ghost e = itinerary_entries(self.itineraries@);
        proof {
            lemma_entries_map(e, id@);
        }
        let k = match self.find_itinerary(id) {
            Some(k) => k,
            None => {
                proof {
                    assert(entries_map(e) =~= entries_map(e).remove(id@));
                }
                return false;
            },
        };
        let ghost fps0 = self.flight_plan_map();
        let (it_id, fp_ids) = self.itineraries.remove(k);
        proof {
            assert(itinerary_entries(self.itineraries@) =~= e.remove(k as int));
            lemma_entries_map_remove(e, id@);
            assert(e[k as int].1 == fp_ids@.map_values(|s: String| s@));
        }
        let ghost ids = fp_ids@.map_values(|s: String| s@);
        let ghost its = self.itinerary_map();
        let mut j: usize = 0;
        proof {
            assert(ids.take(0).to_set() =~= Set::<Seq<char>>::empty());
            assert(fps0.remove_keys(Set::<Seq<char>>::empty()) =~= fps0);
        }
        while j < fp_ids.len()
            invariant
                self.wf(),
                ids == fp_ids@.map_values(|s: String| s@),
                j <= fp_ids@.len(),
                self.flight_plan_map() == fps0.remove_keys(ids.take(j as int).to_set()),
                self.itinerary_map() == its,
            decreases fp_ids@.len() - j,
        {
            self.remove_draft_fp_by_id(fp_ids[j].as_str());
            proof {
                assert(ids.take(j + 1) =~= ids.take(j as int).push(ids[j as int]));
                assert(ids.take(j + 1).to_set() =~= ids.take(j as int).to_set().insert(ids[j as int])) by {
                    ids.take(j as int).lemma_push_to_set_commute(ids[j as int]);
                }
                assert(fps0.remove_keys(ids.take(j + 1).to_set()) =~= fps0.remove_keys(ids.take(j as int).to_set()).remove(ids[j as int]));
            }
            j = j + 1;
        }
        proof {
            assert(ids.take(j as int) =~= ids);
        }
        true
    }
}

/// The draft itineraries, each under its identifier.
pub fn unconfirmed_itineraries(cache: &DraftCache) -> (r: &Vec<(String, Vec<String>)>)
    ensures
        r == &cache.itineraries,
{
    &cache.itineraries
}

/// The draft flight plans, each under its identifier.
pub fn unconfirmed_flight_plans(cache: &DraftCache) -> (r: &Vec<(String, FlightPlanSchedule)>)
    ensures
        r == &cache.flight_plans,
{
    &cache.flight_plans
}

/// The flight plan identifiers of a draft itinerary, if there is one.
pub fn get_draft_itinerary_by_id(cache: &DraftCache, id: &str) -> (r: Option<Vec<String>>)
    ensures
        match r {
            Some(v) => cache.itinerary_map().contains_key(id@) && v@.map_values(|s: String| s@) == cache.itinerary_map()[id@],
            None => !cache.itinerary_map().contains_key(id@),
        },
{
    proof {
        lemma_entries_map(itinerary_entries(cache.itineraries@), id@);
    }
    match cache.find_itinerary(id) {
        Some(k) => {
            let v = cache.itineraries[k].1.clone();
            proof {
                assert(v@ == cache.itineraries@[k as int].1@);
                assert(itinerary_entries(cache.itineraries@)[k as int].1 == v@.map_values(|s: String| s@));
            }
            Some(v)
        },
        None => None,
    }
}

/// A copy of a draft flight plan, if there is one.
pub fn get_draft_fp_by_id(cache: &DraftCache, id: &str) -> (r: Option<FlightPlanSchedule>)
    ensures
        match r {
            Some(fp) => cache.flight_plan_map().contains_key(id@) && fp@ == cache.flight_plan_map()[id@],
            None => !cache.flight_plan_map().contains_key(id@),
        },
{
    proof {
        lemma_entries_map(flight_plan_entries(cache.flight_plans@), id@);
    }
    match cache.find_flight_plan(id) {
        Some(k) => Some(cache.flight_plans[k].1.copy()),
        None => None,
    }
}

/// What a read gives back of a write: a draft itinerary kept under an
/// identifier is found under it, whatever was kept before; after its removal
/// it is not found.
pub proof fn lemma_draft_itinerary_read_write(m: Map<Seq<char>, Seq<Seq<char>>>, id: Seq<char>, other: Seq<char>, fps: Seq<Seq<char>>)
    requires
        other != id,
    ensures
        m.insert(id, fps).contains_key(id) && m.insert(id, fps)[id] == fps,
        !m.insert(id, fps).remove(id).contains_key(id),
        m.insert(id, fps).contains_key(other) == m.contains_key(other),
        m.contains_key(other) ==> m.insert(id, fps)[other] == m[other],
{
}

} // verus!
