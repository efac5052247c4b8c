use rtp_pipeline::gate::{is_idr_unit, GateState, ReferenceFrameGate};
use rtp_pipeline::pli::{PliMessage, RateLimitedPli};

#[test]
fn idr_detection_reads_the_leading_nal() {
    assert!(is_idr_unit(&[0, 0, 0, 1, 0x65, 9]));
    assert!(!is_idr_unit(&[0, 0, 0, 1, 0x41, 9]));
    assert!(!is_idr_unit(&[0, 0, 0, 1]));
}

#[test]
fn non_idr_units_are_discarded_until_a_key_frame() {
    let mut gate = ReferenceFrameGate::new();
    assert_eq!(gate.state, GateState::AwaitingKeyFrame);
    // Non-IDR units are never submitted while awaiting.
    assert!(!gate.on_unit(false));
    assert_eq!(gate.state, GateState::AwaitingKeyFrame);
    assert!(!gate.on_unit(false));
    // An IDR unit transitions to streaming and is submitted.
    assert!(gate.on_unit(true));
    assert_eq!(gate.state, GateState::Streaming);
    // While streaming, every unit is submitted.
    assert!(gate.on_unit(false));
    assert_eq!(gate.state, GateState::Streaming);
}

#[test]
fn loss_closes_the_gate() {
    let mut gate = ReferenceFrameGate::new();
    assert!(gate.on_unit(true));
    gate.on_loss();
    assert_eq!(gate.state, GateState::AwaitingKeyFrame);
    assert!(!gate.on_unit(false));
}

#[test]
fn burst_of_triggers_sends_at_most_one_message() {
    // N triggers within one interval window: exactly 1 message.
    let mut pli = RateLimitedPli::new(0xABCD, 50_000);
    let mut sent = 0;
    for t in [1_000u64, 2_000, 10_000, 30_000, 50_999] {
        if pli.send(t).is_some() {
            sent += 1;
        }
    }
    assert_eq!(sent, 1);
}

#[test]
fn spaced_triggers_all_send() {
    let mut pli = RateLimitedPli::new(7, 50_000);
    let mut sent = 0;
    for t in [0u64, 60_000, 120_001, 200_000] {
        if pli.send(t).is_some() {
            sent += 1;
        }
    }
    assert_eq!(sent, 4);
}

#[test]
fn message_is_addressed_by_the_track_ssrc() {
    let mut pli = RateLimitedPli::new(0xDEAD_BEEF, 50_000);
    let m = pli.send(0).unwrap();
    assert_eq!(
        m,
        PliMessage { sender_ssrc: 0, media_ssrc: 0xDEAD_BEEF }
    );
}

#[test]
fn clock_going_backwards_suppresses_sends() {
    let mut pli = RateLimitedPli::new(1, 50_000);
    assert!(pli.send(100_000).is_some());
    assert!(pli.send(40_000).is_none());
}

#[test]
fn boundary_of_the_interval_is_exclusive() {
    let mut pli = RateLimitedPli::new(1, 50_000);
    assert!(pli.send(0).is_some());
    // Exactly the interval later: still suppressed (strictly more is
    // required).
    assert!(pli.send(50_000).is_none());
    assert!(pli.send(50_001).is_some());
}
