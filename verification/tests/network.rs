use eoka::network::{
    network_kind, NetworkEvent, NetworkKind, NetworkPayload, NetworkWatcher, EVENT_QUEUE,
    MAX_INFLIGHT_REQUESTS,
};
use eoka::textmap::TextMap;

fn request_will_be_sent(id: &str, url: &str) -> Option<NetworkPayload> {
    Some(NetworkPayload::RequestWillBeSent {
        request_id: id.to_string(),
        url: url.to_string(),
        method: "GET".to_string(),
        headers: TextMap::new(),
        post_data: None,
        resource_type: Some("Document".to_string()),
        timestamp: 1.0f64.to_bits(),
    })
}

fn response_received(id: &str) -> Option<NetworkPayload> {
    Some(NetworkPayload::ResponseReceived {
        request_id: id.to_string(),
        status: 200,
        status_text: "OK".to_string(),
        headers: TextMap::new(),
        mime_type: Some("text/html".to_string()),
    })
}

fn loading_finished(id: &str) -> Option<NetworkPayload> {
    Some(NetworkPayload::LoadingFinished {
        request_id: id.to_string(),
        encoded_data_length: 1234,
    })
}

fn loading_failed(id: &str, canceled: Option<bool>) -> Option<NetworkPayload> {
    Some(NetworkPayload::LoadingFailed {
        request_id: id.to_string(),
        error_text: "net::ERR_FAILED".to_string(),
        canceled,
    })
}

#[test]
fn test_network_watcher_creation() {
    let watcher = NetworkWatcher::new();
    assert!(watcher.get_all_requests().is_empty());
}

#[test]
fn test_completed_request_is_retained() {
    let mut watcher = NetworkWatcher::new();
    let id = "req-1";
    assert!(watcher.process_event(request_will_be_sent(id, "https://example.com/")));
    assert!(watcher.process_event(response_received(id)));
    assert!(watcher.process_event(loading_finished(id)));

    let req = watcher.get_request(id).expect("request retained");
    assert!(req.complete);
    assert_eq!(req.status, Some(200));
    assert_eq!(req.status_text.as_deref(), Some("OK"));
    assert_eq!(req.mime_type.as_deref(), Some("text/html"));
    assert_eq!(req.response_headers.map(|h| h.len()), Some(0));
    assert_eq!(f64::from_bits(req.timestamp), 1.0);
}

#[test]
fn test_redirect_keeps_original_entry() {
    let mut watcher = NetworkWatcher::new();
    let id = "req-redirect";
    assert!(watcher.process_event(request_will_be_sent(id, "https://first.example/")));
    assert!(watcher.try_recv().is_some());
    assert!(watcher.process_event(request_will_be_sent(id, "https://second.example/")));
    assert!(watcher.try_recv().is_none());

    let req = watcher.get_request(id).expect("request present");
    assert_eq!(req.url, "https://first.example/");
    assert_eq!(watcher.get_all_requests().len(), 1);
}

#[test]
fn test_loading_failed_removes_entry() {
    let mut watcher = NetworkWatcher::new();
    let id = "req-fail";
    assert!(watcher.process_event(request_will_be_sent(id, "https://example.com/")));
    assert!(watcher.get_request(id).is_some());
    assert!(watcher.process_event(loading_failed(id, Some(false))));
    assert!(watcher.get_request(id).is_none());
}

#[test]
fn test_pump_does_not_block_when_events_not_drained() {
    let mut watcher = NetworkWatcher::new();
    const N: usize = 300;
    for i in 0..N {
        let id = format!("req-{i}");
        let url = format!("https://example.com/{i}");
        assert!(watcher.process_event(request_will_be_sent(&id, &url)));
    }
    let kept = watcher.get_all_requests();
    assert_eq!(kept.len(), N);
    for (i, request) in kept.iter().enumerate() {
        assert_eq!(request.request_id, format!("req-{i}"));
    }
    assert!(watcher.get_request("req-0").is_some());
    assert!(watcher.get_request(&format!("req-{}", N - 1)).is_some());
}

/// Hands over a message, and fetches what is told of it.
fn told(watcher: &mut NetworkWatcher, payload: Option<NetworkPayload>) -> Option<NetworkEvent> {
    assert!(watcher.process_event(payload));
    watcher.try_recv()
}

#[test]
fn the_first_events_wait_in_order() {
    let mut watcher = NetworkWatcher::new();
    for i in 0..300 {
        assert_eq!(watcher.is_full(), i >= EVENT_QUEUE);
        assert!(watcher.process_event(request_will_be_sent(&format!("req-{i}"), "u")));
    }
    watcher.clear();
    for i in 0..EVENT_QUEUE {
        match watcher.try_recv() {
            Some(NetworkEvent::RequestStarted(r)) => assert_eq!(r.request_id, format!("req-{i}")),
            _ => panic!("a request started"),
        }
    }
    assert!(watcher.try_recv().is_none());
    assert!(told(&mut watcher, loading_finished("x")).is_some());
}

#[test]
fn consumers_are_told_what_happened() {
    let mut watcher = NetworkWatcher::new();
    match told(&mut watcher, request_will_be_sent("a", "u")) {
        Some(NetworkEvent::RequestStarted(r)) => {
            assert_eq!((r.request_id.as_str(), r.url.as_str(), r.method.as_str()), ("a", "u", "GET"));
            assert_eq!(r.resource_type.as_deref(), Some("Document"));
            assert!(!r.complete && r.status.is_none());
        }
        _ => panic!("a request started"),
    }
    match told(&mut watcher, response_received("other")) {
        Some(NetworkEvent::ResponseReceived {
            request_id, status, ..
        }) => assert_eq!((request_id.as_str(), status), ("other", 200)),
        _ => panic!("a response came"),
    }
    match told(&mut watcher, loading_finished("a")) {
        Some(NetworkEvent::RequestCompleted {
            request_id,
            encoded_data_length,
        }) => assert_eq!((request_id.as_str(), encoded_data_length), ("a", 1234)),
        _ => panic!("a response is complete"),
    }
    for (canceled, expected) in [(None, false), (Some(true), true), (Some(false), false)] {
        match told(&mut watcher, loading_failed("b", canceled)) {
            Some(NetworkEvent::RequestFailed {
                error_text,
                canceled,
                ..
            }) => {
                assert_eq!(error_text, "net::ERR_FAILED");
                assert_eq!(canceled, expected);
            }
            _ => panic!("a request failed"),
        }
    }
    assert!(!watcher.process_event(None));
    assert!(watcher.try_recv().is_none());
    assert_eq!(watcher.get_all_requests().len(), 1);
    watcher.clear();
    assert!(watcher.get_all_requests().is_empty());
}

#[test]
fn the_oldest_request_gives_way() {
    let mut watcher = NetworkWatcher::new();
    for i in 0..MAX_INFLIGHT_REQUESTS + 2 {
        assert!(told(&mut watcher, request_will_be_sent(&i.to_string(), "u")).is_some());
    }
    let kept = watcher.get_all_requests();
    assert_eq!(kept.len(), MAX_INFLIGHT_REQUESTS);
    assert_eq!(kept[0].request_id, "2");
    assert!(watcher.get_request("1").is_none());
    assert!(watcher.get_request("10001").is_some());
}

#[test]
fn events_are_known_by_name() {
    assert_eq!(
        network_kind("Network.requestWillBeSent"),
        Some(NetworkKind::RequestWillBeSent)
    );
    assert_eq!(
        network_kind("Network.responseReceived"),
        Some(NetworkKind::ResponseReceived)
    );
    assert_eq!(
        network_kind("Network.loadingFinished"),
        Some(NetworkKind::LoadingFinished)
    );
    assert_eq!(
        network_kind("Network.loadingFailed"),
        Some(NetworkKind::LoadingFailed)
    );
    assert_eq!(network_kind("Network.dataReceived"), None);
}
