use osc_bridge::bus::{FanoutBus, RecvOutcome};

fn expect_delivered(r: RecvOutcome) -> String {
    match r {
        RecvOutcome::Delivered(s) => s,
        RecvOutcome::Lagged(_) => panic!("expected delivery, got lag"),
        RecvOutcome::Pending => panic!("expected delivery, got pending"),
        RecvOutcome::Closed => panic!("expected delivery, got closed"),
    }
}

#[test]
fn ordering_under_no_lag() {
    let mut bus = FanoutBus::new(16);
    let mut sub = bus.subscribe();
    bus.publish(String::from("one"));
    bus.publish(String::from("two"));
    bus.publish(String::from("three"));
    assert_eq!(expect_delivered(bus.receive(&mut sub)), "one");
    assert_eq!(expect_delivered(bus.receive(&mut sub)), "two");
    assert_eq!(expect_delivered(bus.receive(&mut sub)), "three");
    assert!(matches!(bus.receive(&mut sub), RecvOutcome::Pending));
}

#[test]
fn subscriber_starts_at_now_without_replay() {
    let mut bus = FanoutBus::new(16);
    bus.publish(String::from("before"));
    let mut sub = bus.subscribe();
    assert!(matches!(bus.receive(&mut sub), RecvOutcome::Pending));
    bus.publish(String::from("after"));
    assert_eq!(expect_delivered(bus.receive(&mut sub)), "after");
}

#[test]
fn lag_reports_missed_count_and_resumes_at_oldest() {
    let mut bus = FanoutBus::new(2);
    let mut sub = bus.subscribe();
    for i in 1..=5 {
        bus.publish(format!("m{}", i));
    }
    // Capacity 2 retains m4 and m5; the cursor missed m1..m3.
    match bus.receive(&mut sub) {
        RecvOutcome::Lagged(n) => assert_eq!(n, 3),
        _ => panic!("expected lag"),
    }
    assert_eq!(expect_delivered(bus.receive(&mut sub)), "m4");
    assert_eq!(expect_delivered(bus.receive(&mut sub)), "m5");
    assert!(matches!(bus.receive(&mut sub), RecvOutcome::Pending));
}

#[test]
fn producer_never_blocked_by_idle_subscriber() {
    let mut bus = FanoutBus::new(2);
    let mut idle = bus.subscribe();
    // Far more publishes than the ring holds, with a subscriber that never
    // reads: every publish still succeeds.
    for i in 0..100 {
        bus.publish(format!("m{}", i));
    }
    match bus.receive(&mut idle) {
        RecvOutcome::Lagged(n) => assert_eq!(n, 98),
        _ => panic!("expected lag"),
    }
    assert_eq!(expect_delivered(bus.receive(&mut idle)), "m98");
}

#[test]
fn subscribers_are_isolated_from_each_other() {
    let mut bus = FanoutBus::new(16);
    let mut alpha = bus.subscribe();
    let mut beta = bus.subscribe();
    bus.publish(String::from("first"));
    assert_eq!(expect_delivered(bus.receive(&mut alpha)), "first");
    // One subscriber going away (dropped without reading further) has no
    // effect on the other, nor on publishing.
    drop(alpha);
    bus.publish(String::from("second"));
    assert_eq!(expect_delivered(bus.receive(&mut beta)), "first");
    assert_eq!(expect_delivered(bus.receive(&mut beta)), "second");
    assert!(matches!(bus.receive(&mut beta), RecvOutcome::Pending));
}

#[test]
fn close_signals_every_subscriber_after_drain() {
    let mut bus = FanoutBus::new(4);
    let mut sub = bus.subscribe();
    bus.publish(String::from("last"));
    bus.close();
    // Retained items are still delivered; the terminal signal comes at the head.
    assert_eq!(expect_delivered(bus.receive(&mut sub)), "last");
    assert!(matches!(bus.receive(&mut sub), RecvOutcome::Closed));
    assert!(matches!(bus.receive(&mut sub), RecvOutcome::Closed));
}

#[test]
fn exact_capacity_boundary_has_no_lag() {
    let mut bus = FanoutBus::new(3);
    let mut sub = bus.subscribe();
    bus.publish(String::from("a"));
    bus.publish(String::from("b"));
    bus.publish(String::from("c"));
    // Exactly capacity items since the cursor: nothing lost yet.
    assert_eq!(expect_delivered(bus.receive(&mut sub)), "a");
    assert_eq!(expect_delivered(bus.receive(&mut sub)), "b");
    assert_eq!(expect_delivered(bus.receive(&mut sub)), "c");
}
