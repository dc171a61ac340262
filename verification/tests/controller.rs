use triton_proxy::controller::{
    error_policy, reconcile, Context, Endpoint, EndpointConditions, REQUEUE_SECS,
};

fn endpoint(ready: Option<Option<bool>>, addresses: &[&str]) -> Endpoint {
    Endpoint {
        conditions: ready.map(|ready| EndpointConditions { ready }),
        addresses: addresses.iter().map(|a| a.to_string()).collect(),
    }
}

#[test]
fn requeue_after_five_minutes() {
    assert_eq!(REQUEUE_SECS, 300);
    assert_eq!(error_policy(), 300);
}

#[test]
fn new_context_has_no_peers() {
    let ctx = Context::new("10.0.0.1".to_string());
    assert_eq!(ctx.current_pod_ip(), "10.0.0.1");
    assert!(ctx.nodes().is_empty());
}

#[test]
fn ready_endpoints_become_peers_by_first_address() {
    let mut ctx = Context::new("10.0.0.1".to_string());
    let endpoints = vec![
        endpoint(Some(Some(true)), &["10.0.0.2", "10.0.0.20"]),
        endpoint(Some(Some(true)), &["10.0.0.3"]),
    ];
    assert_eq!(reconcile(&endpoints, &mut ctx), 300);
    assert_eq!(ctx.nodes(), &vec!["10.0.0.2".to_string(), "10.0.0.3".to_string()]);
}

#[test]
fn own_address_is_never_a_peer() {
    let mut ctx = Context::new("10.0.0.1".to_string());
    let endpoints = vec![
        endpoint(Some(Some(true)), &["10.0.0.1"]),
        endpoint(Some(Some(true)), &["10.0.0.2"]),
        endpoint(Some(Some(true)), &["10.0.0.1", "10.0.0.9"]),
    ];
    reconcile(&endpoints, &mut ctx);
    assert_eq!(ctx.nodes(), &vec!["10.0.0.2".to_string()]);
}

#[test]
fn own_address_counts_only_in_first_place() {
    let mut ctx = Context::new("10.0.0.1".to_string());
    let endpoints = vec![endpoint(Some(Some(true)), &["10.0.0.9", "10.0.0.1"])];
    reconcile(&endpoints, &mut ctx);
    assert_eq!(ctx.nodes(), &vec!["10.0.0.9".to_string()]);
}

#[test]
fn endpoints_not_known_to_be_ready_are_left_out() {
    let mut ctx = Context::new("10.0.0.1".to_string());
    let endpoints = vec![
        endpoint(Some(Some(false)), &["10.0.0.2"]),
        endpoint(Some(None), &["10.0.0.3"]),
        endpoint(None, &["10.0.0.4"]),
        endpoint(Some(Some(true)), &["10.0.0.5"]),
    ];
    reconcile(&endpoints, &mut ctx);
    assert_eq!(ctx.nodes(), &vec!["10.0.0.5".to_string()]);
}

#[test]
fn endpoints_without_address_are_left_out() {
    let mut ctx = Context::new("10.0.0.1".to_string());
    let endpoints = vec![endpoint(Some(Some(true)), &[]), endpoint(Some(Some(true)), &["10.0.0.2"])];
    reconcile(&endpoints, &mut ctx);
    assert_eq!(ctx.nodes(), &vec!["10.0.0.2".to_string()]);
}

#[test]
fn reconciling_replaces_the_peers() {
    let mut ctx = Context::new("10.0.0.1".to_string());
    reconcile(&vec![endpoint(Some(Some(true)), &["10.0.0.2"])], &mut ctx);
    reconcile(&vec![endpoint(Some(Some(true)), &["10.0.0.3"])], &mut ctx);
    assert_eq!(ctx.nodes(), &vec!["10.0.0.3".to_string()]);
    reconcile(&Vec::new(), &mut ctx);
    assert!(ctx.nodes().is_empty());
    assert_eq!(ctx.current_pod_ip(), "10.0.0.1");
}
