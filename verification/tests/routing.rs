use triton_proxy::relay::chunk;
use triton_proxy::server::{ProxyServer, DEFAULT_TARGET, LISTEN_ADDRESS};

fn strings(items: &[&str]) -> Vec<String> {
    items.iter().map(|s| s.to_string()).collect()
}

#[test]
fn empty_backend_set_routes_to_default() {
    let server = ProxyServer::new(LISTEN_ADDRESS);
    assert!(server.endpoints().is_empty());
    for _ in 0..50 {
        assert_eq!(server.handle_request(), "127.0.0.1:8000");
    }
    assert_eq!(server.select_target(0), DEFAULT_TARGET);
    assert_eq!(server.select_target(7), "127.0.0.1:8000");
    assert_eq!(server.select_target(usize::MAX), "127.0.0.1:8000");
}

#[test]
fn new_server_keeps_listen_address() {
    let server = ProxyServer::new("0.0.0.0:9999");
    assert_eq!(server.listen_address(), "0.0.0.0:9999");
    assert_eq!(LISTEN_ADDRESS, "0.0.0.0:9999");
}

#[test]
fn route_selection_returns_member_of_set() {
    let mut server = ProxyServer::new(LISTEN_ADDRESS);
    let backends = strings(&["10.0.0.1:9999", "10.0.0.2:9999", "10.0.0.3:9999"]);
    server.update_endpoints(backends.clone());
    for _ in 0..200 {
        let target = server.handle_request();
        assert!(backends.contains(&target));
    }
}

#[test]
fn select_target_takes_draw_modulo_count() {
    let mut server = ProxyServer::new(LISTEN_ADDRESS);
    server.update_endpoints(strings(&["a:1", "b:2", "c:3"]));
    assert_eq!(server.select_target(0), "a:1");
    assert_eq!(server.select_target(1), "b:2");
    assert_eq!(server.select_target(2), "c:3");
    assert_eq!(server.select_target(3), "a:1");
    assert_eq!(server.select_target(10), "b:2");
    assert_eq!(server.select_target(usize::MAX), ["a:1", "b:2", "c:3"][usize::MAX % 3]);
}

#[test]
fn select_target_never_indexes_past_the_end() {
    let mut server = ProxyServer::new(LISTEN_ADDRESS);
    server.update_endpoints(strings(&["only:1"]));
    for draw in [0usize, 1, 2, 3, 1000, usize::MAX - 1, usize::MAX] {
        assert_eq!(server.select_target(draw), "only:1");
    }
}

#[test]
fn update_replaces_the_whole_set() {
    let mut server = ProxyServer::new(LISTEN_ADDRESS);
    server.update_endpoints(strings(&["a:1", "b:2", "c:3"]));
    assert_eq!(server.endpoints(), strings(&["a:1", "b:2", "c:3"]));
    server.update_endpoints(strings(&["d:4"]));
    assert_eq!(server.endpoints(), strings(&["d:4"]));
    for draw in 0..10usize {
        assert_eq!(server.select_target(draw), "d:4");
    }
    server.update_endpoints(Vec::new());
    assert!(server.endpoints().is_empty());
    assert_eq!(server.handle_request(), "127.0.0.1:8000");
}

#[test]
fn update_keeps_order_and_duplicates() {
    let mut server = ProxyServer::new(LISTEN_ADDRESS);
    server.update_endpoints(strings(&["b:2", "a:1", "b:2"]));
    assert_eq!(server.endpoints(), strings(&["b:2", "a:1", "b:2"]));
    assert_eq!(server.select_target(2), "b:2");
}

#[test]
fn single_backend_gets_the_connection_and_the_bytes() {
    let mut server = ProxyServer::new(LISTEN_ADDRESS);
    server.update_endpoints(strings(&["10.0.0.5:9999"]));
    for _ in 0..20 {
        assert_eq!(server.handle_request(), "10.0.0.5:9999");
    }
    let mut buffer = vec![0u8; 16];
    buffer[..5].copy_from_slice(b"hello");
    assert_eq!(chunk(&buffer, 5), b"hello");
}
