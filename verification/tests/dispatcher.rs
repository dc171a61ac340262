use triton_proxy::dispatcher::{dispatch, publish_hardware, DispatchAction};
use triton_proxy::message::Message;
use triton_proxy::server::ProxyServer;
use triton_proxy::string_map::StringMap;
use triton_proxy::watcher::AnnotationsWatcher;
use triton_proxy::{ANNOT_PREFIX, CHANNEL_CAPACITY};

fn pair(key: &str, value: &str) -> (String, String) {
    (key.to_string(), value.to_string())
}

fn state() -> (ProxyServer, AnnotationsWatcher) {
    (
        ProxyServer::new("0.0.0.0:9999"),
        AnnotationsWatcher::new("pod-0".to_string(), ANNOT_PREFIX.to_string()),
    )
}

fn sorted_pairs(map: StringMap<String>) -> Vec<(String, String)> {
    let mut pairs = map.into_pairs();
    pairs.sort();
    pairs
}

#[test]
fn prefix_and_capacity_are_fixed() {
    assert_eq!(ANNOT_PREFIX, "tritonservices.prueba.ucm.es");
    assert_eq!(CHANNEL_CAPACITY, 32);
}

#[test]
fn endpoints_changed_replaces_the_backend_set() {
    let (mut proxy, mut watcher) = state();
    let action = dispatch(
        &mut proxy,
        &mut watcher,
        Some(Message::EndpointsChanged(vec!["10.0.0.5:9999".to_string()])),
    );
    assert!(matches!(action, DispatchAction::EndpointsReplaced));
    assert_eq!(proxy.endpoints(), vec!["10.0.0.5:9999".to_string()]);
    assert_eq!(watcher.published_annotations().len(), 0);
    let action = dispatch(&mut proxy, &mut watcher, Some(Message::EndpointsChanged(Vec::new())));
    assert!(matches!(action, DispatchAction::EndpointsReplaced));
    assert!(proxy.endpoints().is_empty());
}

#[test]
fn annotation_update_is_published() {
    let (mut proxy, mut watcher) = state();
    proxy.update_endpoints(vec!["a:1".to_string()]);
    let action = dispatch(
        &mut proxy,
        &mut watcher,
        Some(Message::AnnotationUpdate(vec![pair("k", "v")])),
    );
    match action {
        DispatchAction::Patch(patch) => assert_eq!(sorted_pairs(patch), vec![pair("k", "v")]),
        _ => panic!("no patch"),
    }
    assert_eq!(proxy.endpoints(), vec!["a:1".to_string()]);
    let action = dispatch(
        &mut proxy,
        &mut watcher,
        Some(Message::AnnotationUpdate(vec![pair("j", "w"), pair("k", "x")])),
    );
    match action {
        DispatchAction::Patch(patch) => {
            assert_eq!(sorted_pairs(patch), vec![pair("j", "w"), pair("k", "x")])
        }
        _ => panic!("no patch"),
    }
    assert_eq!(sorted_pairs(watcher.published_annotations()), vec![pair("j", "w"), pair("k", "x")]);
}

#[test]
fn closed_channel_stops_the_dispatcher() {
    let (mut proxy, mut watcher) = state();
    proxy.update_endpoints(vec!["a:1".to_string()]);
    watcher.add_annot(vec![pair("k", "v")]);
    let action = dispatch(&mut proxy, &mut watcher, None);
    assert!(matches!(action, DispatchAction::Stop));
    assert_eq!(proxy.endpoints(), vec!["a:1".to_string()]);
    assert_eq!(sorted_pairs(watcher.published_annotations()), vec![pair("k", "v")]);
}

#[test]
fn events_take_effect_in_the_order_received() {
    let (mut proxy, mut watcher) = state();
    let events = vec![
        Message::EndpointsChanged(vec!["a:1".to_string(), "b:2".to_string()]),
        Message::AnnotationUpdate(vec![pair("k", "1")]),
        Message::EndpointsChanged(vec!["c:3".to_string()]),
        Message::AnnotationUpdate(vec![pair("k", "2")]),
    ];
    for event in events {
        dispatch(&mut proxy, &mut watcher, Some(event));
    }
    assert_eq!(proxy.endpoints(), vec!["c:3".to_string()]);
    assert_eq!(sorted_pairs(watcher.published_annotations()), vec![pair("k", "2")]);
}

#[test]
fn hardware_report_is_published_under_its_key() {
    let (_, mut watcher) = state();
    let patch = publish_hardware(&mut watcher, ANNOT_PREFIX, "{\"cpu_arch\":\"x86_64\"}".to_string());
    assert_eq!(
        sorted_pairs(patch),
        vec![pair("tritonservices.prueba.ucm.es/hw_info", "{\"cpu_arch\":\"x86_64\"}")]
    );
    let patch = publish_hardware(&mut watcher, ANNOT_PREFIX, "{}".to_string());
    assert_eq!(sorted_pairs(patch), vec![pair("tritonservices.prueba.ucm.es/hw_info", "{}")]);
}

#[test]
fn notifications_between_events_undo_no_publish() {
    let (mut proxy, mut watcher) = state();
    publish_hardware(&mut watcher, ANNOT_PREFIX, "{}".to_string());
    watcher.observe(Some(StringMap::from_pairs(vec![pair("seen", "1")])));
    let action = dispatch(
        &mut proxy,
        &mut watcher,
        Some(Message::AnnotationUpdate(vec![pair("k", "v")])),
    );
    match action {
        DispatchAction::Patch(patch) => assert_eq!(
            sorted_pairs(patch),
            vec![pair("k", "v"), pair("tritonservices.prueba.ucm.es/hw_info", "{}")]
        ),
        _ => panic!("no patch"),
    }
    watcher.observe(Some(StringMap::new()));
    dispatch(&mut proxy, &mut watcher, Some(Message::EndpointsChanged(vec!["a:1".to_string()])));
    assert_eq!(
        sorted_pairs(watcher.published_annotations()),
        vec![pair("k", "v"), pair("tritonservices.prueba.ucm.es/hw_info", "{}")]
    );
    assert_eq!(sorted_pairs(watcher.annotations()), Vec::new());
}

#[test]
fn dispatcher_leaves_what_the_watch_showed() {
    let (mut proxy, mut watcher) = state();
    watcher.observe(Some(StringMap::from_pairs(vec![pair("seen", "1")])));
    dispatch(&mut proxy, &mut watcher, Some(Message::AnnotationUpdate(vec![pair("seen", "2")])));
    dispatch(&mut proxy, &mut watcher, None);
    assert_eq!(sorted_pairs(watcher.annotations()), vec![pair("seen", "1")]);
}
