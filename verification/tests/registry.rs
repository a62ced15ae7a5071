use sse_pubsub::client::Client;
use sse_pubsub::error::SseError;
use sse_pubsub::registry::Connection;
use sse_pubsub::registry::Health;
use sse_pubsub::registry::Offer;
use sse_pubsub::registry::Registry;

fn open(token: u64) -> Connection {
    Connection { token, open: true }
}

#[test]
fn a_new_registry_is_empty() {
    let registry = Registry::new(64);
    assert_eq!(registry.count(), 0);
    assert_eq!(registry.capacity(), 64);
    assert!(registry.snapshot().is_empty());
    assert!(!registry.contains(1));
    assert_eq!(registry.pending(1), None);
}

#[test]
fn register_then_deregister_leaves_nobody() {
    let mut registry = Registry::new(64);
    let id = registry.register(open(1)).unwrap();
    assert_eq!(registry.count(), 1);
    assert!(registry.contains(id));
    assert_eq!(registry.pending(id), Some(0));
    let released = registry.deregister(id).unwrap();
    assert_eq!(released.id(), id);
    assert_eq!(released.connection(), open(1));
    assert_eq!(released.health(), Health::Closed);
    assert_eq!(released.pending(), 0);
    assert_eq!(registry.count(), 0);
    assert!(!registry.contains(id));
    assert!(matches!(registry.offer(id, b"frame"), Offer::Absent));
    assert_eq!(registry.next_frame(id), None);
}

#[test]
fn deregister_is_idempotent() {
    let mut registry = Registry::new(4);
    let first = registry.register(open(1)).unwrap();
    let second = registry.register(open(2)).unwrap();
    assert!(registry.deregister(first).is_some());
    assert!(registry.deregister(first).is_none());
    assert!(registry.deregister(first).is_none());
    assert_eq!(registry.snapshot(), vec![second]);
    assert!(registry.deregister(12345).is_none());
    assert_eq!(registry.count(), 1);
}

#[test]
fn register_refuses_a_closed_connection() {
    let mut registry = Registry::new(4);
    let r = registry.register(Connection { token: 9, open: false });
    assert!(matches!(r, Err(SseError::ConnectionError)));
    assert_eq!(registry.count(), 0);
    let r = registry.enroll(Client::from_u128(3), Connection { token: 9, open: false });
    assert!(matches!(r, Err(SseError::ConnectionError)));
    assert_eq!(registry.count(), 0);
}

#[test]
fn register_draws_random_identifiers() {
    let mut registry = Registry::new(4);
    let first = registry.register(open(1)).unwrap();
    let second = registry.register(open(2)).unwrap();
    assert_ne!(first, second);
    for id in [first, second] {
        assert_eq!((id >> 76) & 0xf, 4);
        assert_eq!((id >> 62) & 0x3, 2);
    }
    assert_eq!(registry.snapshot(), vec![first, second]);
}

#[test]
fn client_new_is_a_random_uuid() {
    let a = Client::new();
    let b = Client::new();
    assert_ne!(a, b);
    assert_eq!(
        a.id() & 0x0000_0000_0000_f000_c000_0000_0000_0000,
        0x0000_0000_0000_4000_8000_0000_0000_0000
    );
    assert_eq!(uuid::Uuid::from_u128(a.id()).get_version_num(), 4);
    assert_eq!(Client::from_u128(77).id(), 77);
    assert_eq!(Client::from_u128(77), Client::from_u128(77).clone());
}

#[test]
fn enroll_refuses_an_identifier_twice() {
    let mut registry = Registry::new(4);
    assert_eq!(registry.enroll(Client::from_u128(7), open(1)).unwrap(), 7);
    let again = registry.enroll(Client::from_u128(7), open(2));
    assert!(matches!(again, Err(SseError::InternalError)));
    assert_eq!(registry.count(), 1);
    assert_eq!(registry.deregister(7).unwrap().connection(), open(1));
}

#[test]
fn snapshot_keeps_the_order_of_registration() {
    let mut registry = Registry::new(4);
    for id in [30u128, 10, 20] {
        registry.enroll(Client::from_u128(id), open(id as u64)).unwrap();
    }
    assert_eq!(registry.snapshot(), vec![30, 10, 20]);
    registry.deregister(10);
    assert_eq!(registry.snapshot(), vec![30, 20]);
    registry.enroll(Client::from_u128(10), open(10)).unwrap();
    assert_eq!(registry.snapshot(), vec![30, 20, 10]);
}

#[test]
fn frames_leave_a_queue_in_the_order_they_came() {
    let mut registry = Registry::new(3);
    registry.enroll(Client::from_u128(1), open(1)).unwrap();
    registry.enroll(Client::from_u128(2), open(2)).unwrap();
    assert!(matches!(registry.offer(1, b"one"), Offer::Queued));
    assert!(matches!(registry.offer(1, b"two"), Offer::Queued));
    assert!(matches!(registry.offer(2, b"other"), Offer::Queued));
    assert!(matches!(registry.offer(1, b"three"), Offer::Queued));
    assert_eq!(registry.pending(1), Some(3));
    assert_eq!(registry.pending(2), Some(1));
    assert_eq!(registry.next_frame(1), Some(b"one".to_vec()));
    assert_eq!(registry.next_frame(1), Some(b"two".to_vec()));
    assert_eq!(registry.pending(1), Some(1));
    assert_eq!(registry.next_frame(1), Some(b"three".to_vec()));
    assert_eq!(registry.next_frame(1), None);
    assert_eq!(registry.next_frame(2), Some(b"other".to_vec()));
    assert_eq!(registry.count(), 2);
}

#[test]
fn a_full_queue_drops_its_subscriber() {
    let mut registry = Registry::new(2);
    registry.enroll(Client::from_u128(1), open(11)).unwrap();
    registry.enroll(Client::from_u128(2), open(22)).unwrap();
    assert!(matches!(registry.offer(1, b"a"), Offer::Queued));
    assert!(matches!(registry.offer(1, b"b"), Offer::Queued));
    match registry.offer(1, b"c") {
        Offer::Dropped(subscription) => {
            assert_eq!(subscription.id(), 1);
            assert_eq!(subscription.connection(), open(11));
            assert_eq!(subscription.health(), Health::Closed);
            assert_eq!(subscription.pending(), 2);
        }
        other => panic!("{:?}", other),
    }
    assert_eq!(registry.snapshot(), vec![2]);
    assert!(matches!(registry.offer(1, b"d"), Offer::Absent));
    assert!(matches!(registry.offer(2, b"d"), Offer::Queued));
}

#[test]
fn a_queue_of_no_capacity_takes_nothing() {
    let mut registry = Registry::new(0);
    registry.enroll(Client::from_u128(1), open(1)).unwrap();
    assert!(matches!(registry.offer(1, b"a"), Offer::Dropped(_)));
    assert_eq!(registry.count(), 0);
}

#[test]
fn taking_a_frame_makes_room() {
    let mut registry = Registry::new(1);
    registry.enroll(Client::from_u128(1), open(1)).unwrap();
    assert!(matches!(registry.offer(1, b"a"), Offer::Queued));
    assert_eq!(registry.next_frame(1), Some(b"a".to_vec()));
    assert!(matches!(registry.offer(1, b"b"), Offer::Queued));
    assert_eq!(registry.next_frame(1), Some(b"b".to_vec()));
}

#[test]
fn register_on_an_open_connection_adds_a_member() {
    let mut registry = Registry::new(4);
    for expected in 1..=5usize {
        let id = registry.register(open(expected as u64)).unwrap();
        assert_eq!(registry.count(), expected);
        assert_eq!(registry.snapshot().last(), Some(&id));
    }
}
