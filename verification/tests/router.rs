use svc_scheduler::router::{get_nearest_vertiports, init_router};
use svc_scheduler::service::{create_compliance_client_stub, ServerImpl};

#[test]
fn nearest_vertiports_are_first_minima() {
    let src = [30u64, 10, 20, 10];
    let dst = [5u64, 7, 5, 1];
    assert_eq!(get_nearest_vertiports(&src, &dst), (1, 3));
    assert_eq!(get_nearest_vertiports(&[4], &[4]), (0, 0));
}

#[test]
fn router_setup_messages() {
    assert_eq!(init_router(false, false), Err("Nodes not initialized. Try to get some nodes first."));
    assert_eq!(
        init_router(true, true),
        Err("Router already initialized. Try to use the router instead of initializing it.")
    );
    assert_eq!(init_router(true, false), Ok("Arrow Cargo router initialized."));
}

#[test]
fn stubs_accept() {
    let stub = create_compliance_client_stub();
    let r = stub.submit_flight_plan("id".to_string());
    assert!(r.submitted);
    assert_eq!(r.flight_plan_id, "id");
    assert!(stub.request_flight_release("id".to_string()).released);
    assert!(ServerImpl {}.is_ready());
}
