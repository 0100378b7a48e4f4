//! Flight scheduling library: timeslot algebra, calendars, aircraft and
//! vertipad availability, itinerary construction and validation, and the
//! task queue decisions of the scheduler service.

pub mod api;
pub mod flight_plan;
pub mod groups;
pub mod itinerary;
pub mod queue;
pub mod router;
pub mod router_state;
pub mod ids;
pub mod schedule;
pub mod service;
pub mod tasks;
pub mod vehicle;
pub mod vertiport;
pub mod text;
