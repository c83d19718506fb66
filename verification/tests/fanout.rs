use status_monitor::fanout::{FanOut, OUTBOX_CAPACITY};

#[test]
fn every_subscriber_gets_each_message_once() {
    let mut fanout = FanOut::new();
    let a = fanout.subscribe().unwrap();
    let b = fanout.subscribe().unwrap();
    assert_ne!(a, b);
    assert_eq!(fanout.subscriber_count(), 2);
    assert_eq!(fanout.publish(&"one".to_string()), 2);
    assert_eq!(fanout.publish(&"two".to_string()), 2);
    assert_eq!(fanout.receive(a), Some("one".to_string()));
    assert_eq!(fanout.receive(a), Some("two".to_string()));
    assert_eq!(fanout.receive(a), None);
    assert_eq!(fanout.receive(b), Some("one".to_string()));
    assert_eq!(fanout.receive(b), Some("two".to_string()));
    assert_eq!(fanout.receive(b), None);
}

#[test]
fn publishing_to_nobody_is_fine() {
    let mut fanout = FanOut::new();
    assert_eq!(fanout.publish(&"lost".to_string()), 0);
    assert_eq!(fanout.subscriber_count(), 0);
}

#[test]
fn a_new_subscriber_gets_no_backlog() {
    let mut fanout = FanOut::new();
    let early = fanout.subscribe().unwrap();
    fanout.publish(&"before".to_string());
    let late = fanout.subscribe().unwrap();
    assert_eq!(fanout.receive(late), None);
    fanout.publish(&"after".to_string());
    assert_eq!(fanout.receive(late), Some("after".to_string()));
    assert_eq!(fanout.receive(early), Some("before".to_string()));
    assert_eq!(fanout.receive(early), Some("after".to_string()));
}

#[test]
fn a_detached_subscriber_misses_what_follows() {
    let mut fanout = FanOut::new();
    let a = fanout.subscribe().unwrap();
    let b = fanout.subscribe().unwrap();
    fanout.publish(&"one".to_string());
    assert!(fanout.is_subscribed(a));
    assert!(fanout.unsubscribe(a));
    assert!(!fanout.is_subscribed(a));
    assert!(!fanout.unsubscribe(a));
    assert_eq!(fanout.publish(&"two".to_string()), 1);
    assert_eq!(fanout.receive(a), None);
    assert_eq!(fanout.receive(b), Some("one".to_string()));
    assert_eq!(fanout.receive(b), Some("two".to_string()));
    let c = fanout.subscribe().unwrap();
    assert!(c != a && c != b);
}

#[test]
fn a_slow_subscriber_loses_messages_and_holds_nobody_up() {
    let mut fanout = FanOut::with_capacity(2);
    let slow = fanout.subscribe().unwrap();
    let fast = fanout.subscribe().unwrap();
    assert_eq!(fanout.publish(&"1".to_string()), 2);
    assert_eq!(fanout.receive(fast), Some("1".to_string()));
    assert_eq!(fanout.publish(&"2".to_string()), 2);
    assert_eq!(fanout.receive(fast), Some("2".to_string()));
    assert_eq!(fanout.publish(&"3".to_string()), 1);
    assert_eq!(fanout.receive(fast), Some("3".to_string()));
    assert_eq!(fanout.receive(slow), Some("1".to_string()));
    assert_eq!(fanout.receive(slow), Some("2".to_string()));
    assert_eq!(fanout.receive(slow), None);
    assert_eq!(fanout.publish(&"4".to_string()), 2);
    assert_eq!(fanout.receive(slow), Some("4".to_string()));
}

#[test]
fn the_usual_outbox_holds_a_thousand_messages() {
    assert_eq!(OUTBOX_CAPACITY, 1000);
    let mut fanout = FanOut::new();
    let id = fanout.subscribe().unwrap();
    for n in 0..1000 {
        assert_eq!(fanout.publish(&n.to_string()), 1);
    }
    assert_eq!(fanout.publish(&"late".to_string()), 0);
    assert_eq!(fanout.receive(id), Some("0".to_string()));
}

#[test]
fn unknown_subscribers_receive_nothing() {
    let mut fanout = FanOut::new();
    assert_eq!(fanout.receive(7), None);
    assert!(!fanout.unsubscribe(7));
    assert!(!fanout.is_subscribed(7));
}
