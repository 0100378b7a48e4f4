//! The service itself, and the stand-ins used in place of its dependencies
//! when they are not reached.

use vstd::prelude::*;

verus! {

/// The scheduler service.
#[derive(Debug, Copy, Clone)]
pub struct ServerImpl {}

impl ServerImpl {
    /// The service answers that it is ready.
    pub fn is_ready(&self) -> (r: bool)
        ensures
            r,
    {
        true
    }
}

/// The answer to submitting a flight plan for compliance.
#[derive(Debug, Clone)]
pub struct FlightPlanResponse {
    pub flight_plan_id: String,
    pub submitted: bool,
    pub result: Option<String>,
}

/// The answer to asking for a flight's release.
#[derive(Debug, Clone)]
pub struct FlightReleaseResponse {
    pub flight_plan_id: String,
    pub released: bool,
    pub result: Option<String>,
}

/// A compliance service that accepts everything.
#[derive(Debug)]
pub struct ComplianceClientWrapperStub {}

impl ComplianceClientWrapperStub {
    /// Accepts a flight plan, under the identifier given.
    pub fn submit_flight_plan(&self, flight_plan_id: String) -> (r: FlightPlanResponse)
        ensures
            r.flight_plan_id == flight_plan_id,
            r.submitted,
            r.result is None,
    {
        FlightPlanResponse { flight_plan_id, submitted: true, result: None }
    }

    /// Releases a flight, under the identifier given.
    pub fn request_flight_release(&self, flight_plan_id: String) -> (r: FlightReleaseResponse)
        ensures
            r.flight_plan_id == flight_plan_id,
            r.released,
            r.result is None,
    {
        FlightReleaseResponse { flight_plan_id, released: true, result: None }
    }
}

/// A compliance service that accepts everything.
pub fn create_compliance_client_stub() -> (r: ComplianceClientWrapperStub) {
    ComplianceClientWrapperStub {}
}

/// The greeting for a person or entity: `Hello, {name}!`.
pub fn hello_text(name: &str) -> (r: String)
    ensures
        r@ == "Hello, "@ + name@ + "!"@,
{
    let mut s = "Hello, ".to_owned();
    s.append(name);
    s.append("!");
    s
}

/// Adds one to a number.
pub fn add_one(val: u8) -> (r: u8)
    requires
        val < 255,
    ensures
        r == val + 1,
{
    val + 1
}

} // verus!
