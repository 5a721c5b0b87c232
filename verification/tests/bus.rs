//! Broadcast bus behaviour: delivery order, late attachment, lag.

use chat_core::bus::{Bus, Received};
use chat_core::snapshot::Update;
use chat_core::typing::Typing;
use chat_core::MAX_BROADCAST;

fn start(user_id: i32) -> Update {
    Update::Typing(Typing::Start(user_id))
}

#[test]
fn subscriber_attached_before_sees_all_publishes_in_order() {
    let mut bus: Bus<Update> = Bus::new(MAX_BROADCAST);
    let mut sub = bus.subscribe();
    for user_id in 1..=5 {
        bus.publish(start(user_id));
    }
    let got = bus.drain(&mut sub);
    assert_eq!(got, vec![start(1), start(2), start(3), start(4), start(5)]);
}

#[test]
fn two_subscribers_observe_the_same_order() {
    let mut bus: Bus<Update> = Bus::new(MAX_BROADCAST);
    let mut first = bus.subscribe();
    let mut second = bus.subscribe();
    bus.publish(start(10));
    bus.publish(start(20));
    bus.publish(start(30));
    let seen_first = bus.drain(&mut first);
    let seen_second = bus.drain(&mut second);
    assert_eq!(seen_first, seen_second);
    assert_eq!(seen_first, vec![start(10), start(20), start(30)]);
}

#[test]
fn late_subscriber_never_observes_earlier_publishes() {
    let mut bus: Bus<Update> = Bus::new(MAX_BROADCAST);
    bus.publish(start(1));
    bus.publish(start(2));
    let mut sub = bus.subscribe();
    bus.publish(start(3));
    let got = bus.drain(&mut sub);
    assert_eq!(got, vec![start(3)]);
}

#[test]
fn subscriber_with_nothing_pending_reads_empty() {
    let mut bus: Bus<Update> = Bus::new(MAX_BROADCAST);
    let mut sub = bus.subscribe();
    assert!(matches!(bus.recv(&mut sub), Received::Empty));
    bus.publish(start(1));
    assert!(matches!(bus.recv(&mut sub), Received::Event(_)));
    assert!(matches!(bus.recv(&mut sub), Received::Empty));
}

#[test]
fn publish_with_zero_subscribers_succeeds() {
    let mut bus: Bus<Update> = Bus::new(MAX_BROADCAST);
    for user_id in 0..100 {
        bus.publish(start(user_id));
    }
    assert_eq!(bus.published(), 100);
}

#[test]
fn slow_subscriber_reads_lagged_with_missed_count() {
    let mut bus: Bus<Update> = Bus::new(2);
    let mut sub = bus.subscribe();
    bus.publish(start(1));
    bus.publish(start(2));
    bus.publish(start(3));
    // capacity 2, three publishes: the first event is gone
    match bus.recv(&mut sub) {
        Received::Lagged(missed) => assert_eq!(missed, 1),
        _ => panic!("expected a lag report"),
    }
    // after the lag report the subscriber resumes at the oldest retained event
    assert_eq!(bus.drain(&mut sub), vec![start(2), start(3)]);
}

#[test]
fn subscriber_inside_the_window_is_not_lagged() {
    let mut bus: Bus<Update> = Bus::new(2);
    let mut sub = bus.subscribe();
    bus.publish(start(1));
    bus.publish(start(2));
    assert_eq!(bus.drain(&mut sub), vec![start(1), start(2)]);
    bus.publish(start(3));
    bus.publish(start(4));
    assert_eq!(bus.drain(&mut sub), vec![start(3), start(4)]);
}
