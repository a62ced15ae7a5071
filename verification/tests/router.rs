use sse_pubsub::client::Client;
use sse_pubsub::error::ErrorKind;
use sse_pubsub::error::SseError;
use sse_pubsub::registry::Connection;
use sse_pubsub::registry::Health;
use sse_pubsub::registry::Registry;
use sse_pubsub::router::Router;

fn registry_of(capacity: usize, ids: &[u128]) -> Registry {
    let mut registry = Registry::new(capacity);
    for id in ids {
        registry.enroll(Client::from_u128(*id), Connection { token: *id as u64, open: true }).unwrap();
    }
    registry
}

fn text(frame: Option<Vec<u8>>) -> String {
    String::from_utf8(frame.unwrap()).unwrap()
}

#[test]
fn a_new_router_has_published_nothing() {
    let router = Router::new(1024);
    assert_eq!(router.published(), 0);
    assert_eq!(router.max_body(), 1024);
}

#[test]
fn publish_marks_the_body_and_reaches_the_subscriber() {
    let mut registry = registry_of(64, &[1]);
    let mut router = Router::new(1024);
    let published = router.publish(&mut registry, b"{\"original\":\"data\"}").unwrap();
    assert_eq!(published.id, 1);
    assert_eq!(published.body, "{\"original\":\"data\",\"test\":\"test_value\"}");
    assert!(published.dropped.is_empty());
    assert_eq!(
        text(registry.next_frame(1)),
        "id: 1\ndata: {\"original\":\"data\",\"test\":\"test_value\"}\n\n"
    );
    assert_eq!(registry.next_frame(1), None);
    assert_eq!(router.published(), 1);
}

#[test]
fn publish_writes_the_body_compactly() {
    let mut registry = registry_of(64, &[1]);
    let mut router = Router::new(1024);
    let published = router.publish(&mut registry, b"{\"original\": \"data\"}").unwrap();
    assert_eq!(published.body, "{\"original\":\"data\",\"test\":\"test_value\"}");
}

#[test]
fn publish_reaches_every_subscriber_once_and_in_order() {
    let mut registry = registry_of(64, &[3, 1, 2]);
    let mut router = Router::new(1024);
    assert_eq!(router.publish(&mut registry, b"{\"n\":1}").unwrap().id, 1);
    assert_eq!(router.publish(&mut registry, b"{\"n\":2}").unwrap().id, 2);
    assert_eq!(router.published(), 2);
    for id in [1u128, 2, 3] {
        assert_eq!(registry.pending(id), Some(2));
        assert_eq!(text(registry.next_frame(id)), "id: 1\ndata: {\"n\":1,\"test\":\"test_value\"}\n\n");
        assert_eq!(text(registry.next_frame(id)), "id: 2\ndata: {\"n\":2,\"test\":\"test_value\"}\n\n");
        assert_eq!(registry.next_frame(id), None);
    }
}

#[test]
fn publish_without_subscribers_succeeds() {
    let mut registry = Registry::new(64);
    let mut router = Router::new(1024);
    let published = router.publish(&mut registry, b"{}").unwrap();
    assert_eq!(published.id, 1);
    assert_eq!(published.body, "{\"test\":\"test_value\"}");
    assert_eq!(registry.count(), 0);
}

#[test]
fn publish_rejects_what_is_no_json() {
    let mut registry = registry_of(64, &[1]);
    let mut router = Router::new(1024);
    for body in [&b"not json"[..], b"", b"{", b"{\"a\":1} x", b"{\"a\":}", b"\xff"] {
        let r = router.publish(&mut registry, body);
        assert!(matches!(r, Err(SseError::ParseError)));
        assert_eq!(r.unwrap_err().kind(), ErrorKind::Validation);
    }
    assert_eq!(registry.pending(1), Some(0));
    assert_eq!(router.published(), 0);
}

#[test]
fn publish_rejects_json_that_takes_no_member() {
    let mut registry = registry_of(64, &[1]);
    let mut router = Router::new(1024);
    for body in [&b"[1,2]"[..], b"1", b"\"text\"", b"true", b"[]", b"-0.5"] {
        assert!(matches!(router.publish(&mut registry, body), Err(SseError::ParseError)));
    }
    assert_eq!(registry.pending(1), Some(0));
    assert_eq!(router.published(), 0);
}

#[test]
fn publish_takes_null_for_the_empty_object() {
    let mut registry = registry_of(64, &[1]);
    let mut router = Router::new(1024);
    let published = router.publish(&mut registry, b" null ").unwrap();
    assert_eq!(published.body, "{\"test\":\"test_value\"}");
    assert_eq!(text(registry.next_frame(1)), "id: 1\ndata: {\"test\":\"test_value\"}\n\n");
}

#[test]
fn publish_rejects_a_body_over_the_bound() {
    let mut registry = registry_of(64, &[1]);
    let mut router = Router::new(8);
    assert!(router.publish(&mut registry, b"{\"a\":12}").is_ok());
    let r = router.publish(&mut registry, b"{\"a\":123}");
    assert!(matches!(r, Err(SseError::PayloadTooLarge)));
    assert_eq!(r.unwrap_err().kind(), ErrorKind::Validation);
    // Over the bound and no JSON either: the bound is checked first.
    assert!(matches!(router.publish(&mut registry, b"not json!"), Err(SseError::PayloadTooLarge)));
    assert_eq!(registry.pending(1), Some(1));
    assert_eq!(router.published(), 1);
}

#[test]
fn publish_replaces_a_member_with_the_name_of_the_marker() {
    let mut registry = registry_of(64, &[1]);
    let mut router = Router::new(1024);
    let published = router.publish(&mut registry, b"{\"test\":[1,2],\"z\":null}").unwrap();
    assert_eq!(published.body, "{\"test\":\"test_value\",\"z\":null}");
}

#[test]
fn publish_uses_the_configured_marker() {
    let mut registry = registry_of(64, &[1]);
    let mut router = Router::new(1024).with_marker("seen", "by \"broker\"");
    assert_eq!(router.max_body(), 1024);
    let published = router.publish(&mut registry, b"{\"a\":\"line\\nbreak\"}").unwrap();
    assert_eq!(published.body, "{\"a\":\"line\\nbreak\",\"seen\":\"by \\\"broker\\\"\"}");
    assert_eq!(
        text(registry.next_frame(1)),
        "id: 1\ndata: {\"a\":\"line\\nbreak\",\"seen\":\"by \\\"broker\\\"\"}\n\n"
    );
}

#[test]
fn a_slow_subscriber_is_dropped_and_the_others_are_served() {
    let mut registry = registry_of(2, &[1, 2, 3]);
    let mut router = Router::new(1024);
    router.publish(&mut registry, b"{\"n\":1}").unwrap();
    router.publish(&mut registry, b"{\"n\":2}").unwrap();
    // Subscribers 1 and 3 keep up, 2 does not.
    for id in [1u128, 3] {
        registry.next_frame(id).unwrap();
        registry.next_frame(id).unwrap();
    }
    let published = router.publish(&mut registry, b"{\"n\":3}").unwrap();
    assert_eq!(published.id, 3);
    assert_eq!(published.dropped.len(), 1);
    assert_eq!(published.dropped[0].id(), 2);
    assert_eq!(published.dropped[0].health(), Health::Closed);
    assert_eq!(published.dropped[0].connection(), Connection { token: 2, open: true });
    assert_eq!(published.dropped[0].pending(), 2);
    assert_eq!(registry.snapshot(), vec![1, 3]);
    for id in [1u128, 3] {
        assert_eq!(text(registry.next_frame(id)), "id: 3\ndata: {\"n\":3,\"test\":\"test_value\"}\n\n");
    }
    assert_eq!(registry.next_frame(2), None);
}

#[test]
fn deliver_frames_the_payload_as_it_is() {
    let mut registry = registry_of(4, &[1, 2]);
    let mut router = Router::new(0);
    let delivery = router.deliver(&mut registry, b"two\nlines").unwrap();
    assert_eq!(delivery.id, 1);
    assert_eq!(delivery.frame, b"id: 1\ndata: two\ndata: lines\n\n".to_vec());
    assert!(delivery.dropped.is_empty());
    assert_eq!(registry.next_frame(1), Some(delivery.frame.clone()));
    assert_eq!(registry.next_frame(2), Some(delivery.frame.clone()));
    assert_eq!(router.published(), 1);
    let delivery = router.deliver(&mut registry, b"").unwrap();
    assert_eq!(delivery.id, 2);
    assert_eq!(delivery.frame, b"id: 2\ndata: \n\n".to_vec());
}

#[test]
fn deliver_drops_every_full_subscriber() {
    let mut registry = registry_of(1, &[5, 6, 7]);
    let mut router = Router::new(0);
    router.deliver(&mut registry, b"a").unwrap();
    registry.next_frame(6).unwrap();
    let delivery = router.deliver(&mut registry, b"b").unwrap();
    let dropped: Vec<u128> = delivery.dropped.iter().map(|s| s.id()).collect();
    assert_eq!(dropped, vec![5, 7]);
    assert_eq!(registry.snapshot(), vec![6]);
    assert_eq!(registry.next_frame(6), Some(b"id: 2\ndata: b\n\n".to_vec()));
}
