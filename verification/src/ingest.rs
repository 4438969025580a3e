//! Decision logic of the two loops around the bus.
//!
//! The ingest loop turns each decoded datagram into one action: a normalized
//! message is published, the first Bundle draws a single warning and every
//! later one is dropped silently, and a datagram that failed to decode is
//! reported and skipped — none of these is ever fatal. The subscriber loop
//! forwards delivered items, tolerates lag, and terminates only on bus
//! closure (or, separately, on a failed send to its own peer).

use vstd::prelude::*;

use crate::bus::RecvOutcome;
use crate::encode::{encode_message, message_wire};
use crate::types::OscMessageWrapper;

verus! {

/// One decoded inbound datagram, as the external OSC decoder reports it.
pub enum InboundPacket {
    /// A single OSC message.
    Message(OscMessageWrapper),
    /// An OSC bundle; unsupported by this bridge.
    Bundle,
    /// A datagram the decoder could not parse.
    Malformed,
}

/// What the ingest loop does with one inbound packet.
pub enum IngestAction {
    /// Publish this JSON string onto the fan-out bus.
    Publish(String),
    /// Log the one-time warning that bundles are unsupported.
    WarnUnsupportedBundle,
    /// Drop the packet with no output at all.
    DropSilently,
    /// Log a decode failure and carry on.
    ReportDecodeFailure,
}

/// The sticky warning flag after one packet: once set it never clears.
pub open spec fn warned_after(warned: bool, p: InboundPacket) -> bool {
    warned || p is Bundle
}

/// The action owed for one packet under a given warning flag.
pub open spec fn action_matches(warned: bool, p: InboundPacket, a: IngestAction) -> bool {
    match p {
        InboundPacket::Message(m) => a is Publish && a->Publish_0@ == message_wire(m),
        InboundPacket::Bundle => if warned {
            a is DropSilently
        } else {
            a is WarnUnsupportedBundle
        },
        InboundPacket::Malformed => a is ReportDecodeFailure,
    }
}

/// One step of the ingest state machine: from the sticky warning flag and a
/// decoded packet to the new flag and the action to perform. Messages are
/// normalized and published; a Bundle never produces a message, only the
/// one-time warning.
pub fn ingest_step(warned: bool, packet: &InboundPacket) -> (r: (bool, IngestAction))
    ensures
        r.0 == warned_after(warned, *packet),
        action_matches(warned, *packet, r.1),
{
    match packet {
        InboundPacket::Message(m) => (warned, IngestAction::Publish(encode_message(m))),
        InboundPacket::Bundle => {
            if warned {
                (true, IngestAction::DropSilently)
            } else {
                (true, IngestAction::WarnUnsupportedBundle)
            }
        },
        InboundPacket::Malformed => (warned, IngestAction::ReportDecodeFailure),
    }
}

/// How many bundle warnings a run of the ingest loop emits, starting from a
/// given warning flag, over a sequence of inbound packets.
pub open spec fn bundle_warnings(warned: bool, ps: Seq<InboundPacket>) -> nat
    decreases ps.len(),
{
    if ps.len() == 0 {
        0
    } else {
        (if ps[0] is Bundle && !warned {
            1nat
        } else {
            0nat
        }) + bundle_warnings(warned_after(warned, ps[0]), ps.drop_first())
    }
}

/// Once the flag is set, no further warning is ever emitted.
proof fn lemma_no_warnings_once_warned(ps: Seq<InboundPacket>)
    ensures
        bundle_warnings(true, ps) == 0,
    decreases ps.len(),
{
    if ps.len() > 0 {
        lemma_no_warnings_once_warned(ps.drop_first());
    }
}

/// Law (warn once): a run of the ingest loop that starts unwarned emits at
/// most one bundle warning over any sequence of inbound packets, and emits
/// exactly one if and only if at least one Bundle arrives.
pub proof fn lemma_bundle_warned_once(ps: Seq<InboundPacket>)
    ensures
        bundle_warnings(false, ps) <= 1,
        bundle_warnings(false, ps) == 1 <==> exists|i: int| 0 <= i < ps.len() && ps[i] is Bundle,
    decreases ps.len(),
{
    if ps.len() > 0 {
        if ps[0] is Bundle {
            lemma_no_warnings_once_warned(ps.drop_first());
        } else {
            lemma_bundle_warned_once(ps.drop_first());
            if bundle_warnings(false, ps) == 1 {
                let j = choose|j: int|
                    0 <= j < ps.drop_first().len() && ps.drop_first()[j] is Bundle;
                assert(ps[j + 1] is Bundle);
            }
            if exists|i: int| 0 <= i < ps.len() && ps[i] is Bundle {
                let i = choose|i: int| 0 <= i < ps.len() && ps[i] is Bundle;
                assert(ps.drop_first()[i - 1] is Bundle);
            }
        }
    }
}

/// What the subscriber loop does with one receive outcome.
pub enum SubscriberAction {
    /// Send this item to the peer as one text frame.
    Forward(String),
    /// Nothing to send; keep receiving. Lag is tolerated, not fatal.
    KeepReceiving,
    /// Close the connection and end this subscriber's task.
    Terminate,
}

/// One step of a subscriber task: every delivered item is forwarded
/// unchanged, lag and an empty poll are tolerated, and only bus closure ends
/// the task.
pub fn subscriber_step(event: RecvOutcome) -> (a: SubscriberAction)
    ensures
        match event {
            RecvOutcome::Delivered(s) => a is Forward && a->Forward_0@ == s@,
            RecvOutcome::Lagged(_) => a is KeepReceiving,
            RecvOutcome::Pending => a is KeepReceiving,
            RecvOutcome::Closed => a is Terminate,
        },
{
    match event {
        RecvOutcome::Delivered(s) => SubscriberAction::Forward(s),
        RecvOutcome::Lagged(_) => SubscriberAction::KeepReceiving,
        RecvOutcome::Pending => SubscriberAction::KeepReceiving,
        RecvOutcome::Closed => SubscriberAction::Terminate,
    }
}

/// What follows one send to the subscriber's own peer: a failure closes that
/// connection only; the bus, the producer and every other subscriber are
/// untouched, as `FanoutBus::receive` takes the bus by shared reference.
pub fn after_send_step(send_ok: bool) -> (a: SubscriberAction)
    ensures
        send_ok ==> a is KeepReceiving,
        !send_ok ==> a is Terminate,
{
    if send_ok {
        SubscriberAction::KeepReceiving
    } else {
        SubscriberAction::Terminate
    }
}

} // verus!
