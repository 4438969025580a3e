use osc_bridge::bus::RecvOutcome;
use osc_bridge::ingest::{
    after_send_step, ingest_step, subscriber_step, InboundPacket, IngestAction, SubscriberAction,
};
use osc_bridge::types::{OscMessageWrapper, OscTypeWrapper};

#[test]
fn message_is_normalized_and_published() {
    let packet = InboundPacket::Message(OscMessageWrapper::new(
        String::from("/note"),
        vec![OscTypeWrapper::Int32(60)],
    ));
    let (warned, action) = ingest_step(false, &packet);
    assert!(!warned);
    match action {
        IngestAction::Publish(s) => {
            assert_eq!(s, "{\"address\":\"/note\",\"args\":[{\"type\":\"i\",\"value\":60}]}")
        }
        _ => panic!("a message must be published"),
    }
}

#[test]
fn first_bundle_warns_later_bundles_stay_silent() {
    let (warned, action) = ingest_step(false, &InboundPacket::Bundle);
    assert!(warned);
    assert!(matches!(action, IngestAction::WarnUnsupportedBundle));

    let (still_warned, action) = ingest_step(warned, &InboundPacket::Bundle);
    assert!(still_warned);
    assert!(matches!(action, IngestAction::DropSilently));
}

#[test]
fn bundle_never_publishes() {
    for warned in [false, true] {
        let (_, action) = ingest_step(warned, &InboundPacket::Bundle);
        assert!(!matches!(action, IngestAction::Publish(_)));
    }
}

#[test]
fn decode_failure_is_reported_and_loop_continues() {
    let (warned, action) = ingest_step(false, &InboundPacket::Malformed);
    assert!(!warned);
    assert!(matches!(action, IngestAction::ReportDecodeFailure));
    // A decode failure does not consume the bundle warning either.
    let (warned, _) = ingest_step(warned, &InboundPacket::Bundle);
    assert!(warned);
}

#[test]
fn run_of_packets_warns_exactly_once() {
    let packets = vec![
        InboundPacket::Message(OscMessageWrapper::new(String::from("/a"), vec![])),
        InboundPacket::Bundle,
        InboundPacket::Malformed,
        InboundPacket::Bundle,
        InboundPacket::Message(OscMessageWrapper::new(String::from("/b"), vec![])),
        InboundPacket::Bundle,
    ];
    let mut warned = false;
    let mut warnings = 0;
    for p in &packets {
        let (w, action) = ingest_step(warned, p);
        warned = w;
        if matches!(action, IngestAction::WarnUnsupportedBundle) {
            warnings += 1;
        }
    }
    assert_eq!(warnings, 1);
}

#[test]
fn subscriber_forwards_delivered_items_unchanged() {
    let action = subscriber_step(RecvOutcome::Delivered(String::from("payload")));
    match action {
        SubscriberAction::Forward(s) => assert_eq!(s, "payload"),
        _ => panic!("a delivered item must be forwarded"),
    }
}

#[test]
fn subscriber_tolerates_lag_and_empty_polls() {
    assert!(matches!(
        subscriber_step(RecvOutcome::Lagged(7)),
        SubscriberAction::KeepReceiving
    ));
    assert!(matches!(
        subscriber_step(RecvOutcome::Pending),
        SubscriberAction::KeepReceiving
    ));
}

#[test]
fn subscriber_terminates_on_bus_closure() {
    assert!(matches!(
        subscriber_step(RecvOutcome::Closed),
        SubscriberAction::Terminate
    ));
}

#[test]
fn send_failure_ends_only_that_task() {
    assert!(matches!(after_send_step(true), SubscriberAction::KeepReceiving));
    assert!(matches!(after_send_step(false), SubscriberAction::Terminate));
}
