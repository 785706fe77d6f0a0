use error_rail::tower::{ErrorRailFuture, ErrorRailLayer, ErrorRailService};

#[test]
fn layer_wraps_service_with_context() {
    let layer = ErrorRailLayer::new("in api");
    assert_eq!(*layer.context(), "in api");
    let svc = layer.layer(41u32);
    assert_eq!(*svc.inner(), 41);
    assert_eq!(*svc.context(), "in api");
}

#[test]
fn service_accessors() {
    let mut svc = ErrorRailService::new(1u32, "ctx");
    *svc.inner_mut() += 1;
    assert_eq!(*svc.inner(), 2);
    assert_eq!(svc.into_inner(), 2);
}

#[test]
fn service_ready_errors_carry_context() {
    let svc = ErrorRailService::new((), "svc");
    assert!(svc.map_ready::<&str>(Ok(())).is_ok());
    let e = svc.map_ready(Err("not ready")).unwrap_err();
    assert_eq!(e.error_chain("not ready"), "svc -> not ready");
}

#[test]
fn future_attaches_context_once() {
    let svc = ErrorRailService::new((), "call");
    let mut fut = svc.wrap_call(5u8);
    assert_eq!(*fut.inner_mut(), 5);
    assert!(!fut.is_terminated(false));
    assert_eq!(fut.complete(Ok::<i32, &str>(1)).unwrap(), 1);
    let e = fut.complete(Err::<i32, &str>("boom")).unwrap_err();
    assert_eq!(e.error_chain("boom"), "call -> boom");
    assert!(fut.is_terminated(false));
    let other = ErrorRailFuture::new(0u8, "x");
    assert!(other.is_terminated(true));
}
