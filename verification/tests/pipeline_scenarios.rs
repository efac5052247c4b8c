use rtp_pipeline::bootstrap::{Bootstrap, BootstrapAction, BootstrapInput};
use rtp_pipeline::gate::GateState;
use rtp_pipeline::pipeline::{
    exit_error, DecoderError, Feeder, FeederAction, FeederInput, PumpAction, PumpEvent, RenderPump,
};
use rtp_pipeline::pli::RateLimitedPli;
use rtp_pipeline::reorder::{RecvStep, ReorderBuffer, ReorderBufferError};

fn datagram(seq: u16, payload: &[u8]) -> Vec<u8> {
    let mut d = vec![0x80u8, 96u8];
    d.extend_from_slice(&seq.to_be_bytes());
    d.extend_from_slice(&0u32.to_be_bytes());
    d.extend_from_slice(&0x1234u32.to_be_bytes());
    d.extend_from_slice(payload);
    d
}

/// Split an IDR NAL into `n` fragment payloads.
fn idr_fragments(n: usize) -> Vec<Vec<u8>> {
    let nal: Vec<u8> = {
        let mut v = vec![0x65u8];
        v.extend((0u8..30).collect::<Vec<u8>>());
        v
    };
    let body = &nal[1..];
    let each = body.len() / n;
    let mut out = Vec::new();
    let mut at = 0;
    for k in 0..n {
        let first = k == 0;
        let last = k == n - 1;
        let end = if last { body.len() } else { at + each };
        let mut fu = vec![
            (nal[0] & 0xE0) | 28,
            (if first { 0x80 } else { 0 }) | (if last { 0x40 } else { 0 }) | (nal[0] & 0x1F),
        ];
        fu.extend_from_slice(&body[at..end]);
        at = end;
        out.push(fu);
    }
    out
}

/// Scenario: the track delivers packets 100, 101, 102 forming one
/// complete NAL marked IDR.  Exactly one decoder submission results and
/// the reference-frame gate transitions to streaming.
#[test]
fn in_order_idr_unit_is_submitted_once() {
    let mut buf = ReorderBuffer::new(128);
    let mut feeder = Feeder::new(250_000);
    let frags = idr_fragments(3);
    let mut submissions = 0;
    let mut requests = 0;
    for (i, frag) in frags.iter().enumerate() {
        let seq = 100u16 + i as u16;
        buf.accept_datagram(&datagram(seq, frag)).unwrap();
        loop {
            match buf.step() {
                RecvStep::Deliver(p) => {
                    match feeder.step(FeederInput::Payload(p.payload)) {
                        FeederAction::SubmitUnit(unit) => {
                            submissions += 1;
                            // The submitted unit is the reassembled NAL
                            // behind a start code, led by the IDR header.
                            assert_eq!(&unit[0..5], &[0, 0, 0, 1, 0x65]);
                        }
                        FeederAction::RequestKeyFrame => requests += 1,
                        FeederAction::Continue => {}
                    }
                }
                RecvStep::NeedRead => break,
                RecvStep::Full => panic!("window cannot fill here"),
            }
        }
    }
    assert_eq!(submissions, 1);
    assert_eq!(requests, 0);
    assert_eq!(feeder.gate_state(), GateState::Streaming);
}

/// Scenario: the track delivers 100 and 102 and the packet for 101 never
/// arrives.  Once the window fills, the full report resets the reference-frame gate and
/// sends one picture-loss indication.
#[test]
fn gap_outliving_the_window_resets_gate_and_sends_one_pli() {
    let capacity = 4;
    let mut buf = ReorderBuffer::new(capacity);
    let mut feeder = Feeder::new(250_000);
    let mut pli = RateLimitedPli::new(9, 50_000);

    // An IDR unit in one packet opens the reference-frame gate.
    let mut idr = vec![0x65u8];
    idr.extend(0u8..10);
    buf.accept_datagram(&datagram(100, &idr)).unwrap();
    match buf.step() {
        RecvStep::Deliver(p) => {
            assert!(matches!(
                feeder.step(FeederInput::Payload(p.payload)),
                FeederAction::SubmitUnit(_)
            ));
        }
        _ => panic!("expected delivery"),
    }
    assert_eq!(feeder.gate_state(), GateState::Streaming);

    // 101 is lost; later packets fill the window.
    let mut pli_messages = 0;
    for seq in [102u16, 103, 104, 105] {
        buf.accept_datagram(&datagram(seq, &idr)).unwrap();
    }
    let mut full_reports = 0;
    loop {
        match buf.step() {
            RecvStep::Full => {
                full_reports += 1;
                match feeder.step(FeederInput::Error(ReorderBufferError::BufferFull)) {
                    FeederAction::RequestKeyFrame => {
                        if pli.send(1_000).is_some() {
                            pli_messages += 1;
                        }
                    }
                    _ => panic!("loss must request a key frame"),
                }
                // The reference-frame gate is closed again after the loss.
                assert_eq!(feeder.gate_state(), GateState::AwaitingKeyFrame);
            }
            RecvStep::Deliver(p) => {
                let _ = feeder.step(FeederInput::Payload(p.payload));
            }
            RecvStep::NeedRead => break,
        }
    }
    assert_eq!(full_reports, 1);
    assert_eq!(pli_messages, 1);
}

/// Scenario: the surface is destroyed mid-stream.  The pump disables
/// rendering, output buffers are still released with render off, and a
/// new surface re-enables rendering and rebinds the output.
#[test]
fn surface_lifecycle_controls_rendering() {
    let mut pump = RenderPump::new();
    assert_eq!(pump.step(PumpEvent::ChannelEmpty), PumpAction::Release(true));
    assert_eq!(pump.step(PumpEvent::SurfaceDestroyed), PumpAction::Idle);
    // Decoder output is still drained, just not rendered.
    assert_eq!(pump.step(PumpEvent::ChannelEmpty), PumpAction::Release(false));
    assert_eq!(pump.step(PumpEvent::ChannelEmpty), PumpAction::Release(false));
    // A new surface rebinds the output and re-enables rendering.
    assert_eq!(pump.step(PumpEvent::SurfaceCreated(0x55)), PumpAction::Rebind(0x55));
    assert_eq!(pump.step(PumpEvent::ChannelEmpty), PumpAction::Release(true));
}

/// Scenario: the application shuts down.  The pump exits, the terminal
/// error is the designed close signal, and the feeder observes the exit
/// request at its next timeout without treating it as loss.
#[test]
fn application_destroyed_terminates_the_pipeline() {
    let mut pump = RenderPump::new();
    assert_eq!(pump.step(PumpEvent::MainActivityDestroyed), PumpAction::Exit);
    assert_eq!(
        exit_error(PumpEvent::MainActivityDestroyed),
        Some(DecoderError::ApplicationClosed)
    );
    // The feeder's read timeout is benign: it returns to the loop (which
    // then checks the exit flag) without resetting the reference-frame gate.
    let mut feeder = Feeder::new(250_000);
    assert!(matches!(
        feeder.step(FeederInput::Error(ReorderBufferError::TrackRemoteReadTimeout)),
        FeederAction::Continue
    ));
}

#[test]
fn peer_disconnect_is_its_own_terminal_error() {
    assert_eq!(
        exit_error(PumpEvent::PeerDisconnected),
        Some(DecoderError::WebRtcDisconnected)
    );
    assert_eq!(exit_error(PumpEvent::ChannelEmpty), None);
}

fn sps_320x240() -> Vec<u8> {
    vec![0x67, 0x42, 0x00, 0x1E, 0xF8, 0x28, 0x3E, 0x40]
}

/// The bootstrap races surface and configuration: ready exactly when
/// both have arrived, whichever comes last.
#[test]
fn bootstrap_becomes_ready_when_surface_and_config_exist() {
    let mut b = Bootstrap::new(250_000);
    // A parameter-set unit arrives first (single NAL payloads).
    assert_eq!(b.step(BootstrapInput::Payload(sps_320x240())), BootstrapAction::Continue);
    assert_eq!(
        b.step(BootstrapInput::Payload(vec![0x68, 0xCE, 0x38, 0x80])),
        BootstrapAction::Continue
    );
    assert_eq!(b.resolution(), Some((320, 240)));
    // Still no surface.
    assert!(!b.ready());
    // The surface arrives: both prerequisites met.
    assert_eq!(
        b.step(BootstrapInput::Event(PumpEvent::SurfaceCreated(0x77))),
        BootstrapAction::Ready
    );
    assert_eq!(b.window(), Some(0x77));
    let config = b.codec_config().unwrap();
    assert_eq!(&config[0..4], &[0, 0, 0, 1]);
}

#[test]
fn bootstrap_requests_key_frame_on_unusable_unit() {
    let mut b = Bootstrap::new(250_000);
    // A frame-data unit cannot configure the decoder.
    assert_eq!(
        b.step(BootstrapInput::Payload(vec![0x65, 1, 2, 3])),
        BootstrapAction::RequestKeyFrame
    );
    assert_eq!(
        b.step(BootstrapInput::ReorderError(ReorderBufferError::BufferFull)),
        BootstrapAction::RequestKeyFrame
    );
    assert_eq!(
        b.step(BootstrapInput::ReorderError(ReorderBufferError::PacketTooShort)),
        BootstrapAction::Continue
    );
}

#[test]
fn bootstrap_aborts_on_lifecycle_end() {
    let mut b = Bootstrap::new(250_000);
    assert_eq!(
        b.step(BootstrapInput::Event(PumpEvent::MainActivityDestroyed)),
        BootstrapAction::Fail(DecoderError::ApplicationClosed)
    );
    let mut b2 = Bootstrap::new(250_000);
    assert_eq!(
        b2.step(BootstrapInput::Event(PumpEvent::PeerDisconnected)),
        BootstrapAction::Fail(DecoderError::WebRtcDisconnected)
    );
}

#[test]
fn bootstrap_loses_surface_and_waits_again() {
    let mut b = Bootstrap::new(250_000);
    b.step(BootstrapInput::Payload(sps_320x240()));
    b.step(BootstrapInput::Payload(vec![0x68, 0xCE, 0x38, 0x80]));
    assert_eq!(
        b.step(BootstrapInput::Event(PumpEvent::SurfaceCreated(1))),
        BootstrapAction::Ready
    );
    assert_eq!(
        b.step(BootstrapInput::Event(PumpEvent::SurfaceDestroyed)),
        BootstrapAction::Continue
    );
    assert!(!b.ready());
    assert_eq!(
        b.step(BootstrapInput::Event(PumpEvent::SurfaceCreated(2))),
        BootstrapAction::Ready
    );
}
