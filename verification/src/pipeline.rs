//! The steady-state pipeline: the decode feeder and the render pump.
//!
//! The feeder runs the reorder-buffer, depacketizer and reference-frame
//! gate chain and decides, for each delivered payload or error, whether a
//! finished access unit goes to the decoder input or a key frame is
//! requested.  The render pump consumes platform lifecycle events and
//! decides how decoder output is released and where it is rendered.  Both
//! are pure state machines: the loops that block on the network, the
//! hardware codec and the event channel run outside and feed them plain
//! values.

use vstd::prelude::*;
use crate::depacketizer::{spec_push, H264Depacketizer, DepacketizerError};
use crate::gate::{is_idr_unit, unit_is_idr, GateState, ReferenceFrameGate};
use crate::reorder::ReorderBufferError;
use crate::status::MediaStatus;

verus! {

/// Failures that end the pipeline or one of its operations.
#[derive(Debug, Clone, Copy, PartialEq, Eq, Structural)]
pub enum DecoderError {
    /// The hardware decoder session failed.
    MediaEngine(MediaStatus),
    /// Writing the loss-recovery message to the peer failed.
    RtcpSend,
    /// The platform thread could not be attached.
    AttachThread,
    /// Propagating the aspect ratio to the platform failed.
    SetAspectRatio,
    /// The negotiated MIME type is not understood.
    UnknownMimeType,
    /// The lifecycle event channel was already claimed.
    FailedToGetReceiver,
    /// A native window could not be derived from the platform surface.
    NativeWindowCreate,
    /// No hardware decoder exists for the negotiated codec.
    NoDecoderFound,
    /// The application shut down; the designed termination signal.
    ApplicationClosed,
    /// The peer connection left the connected state.
    WebRtcDisconnected,
}

/// What the feeder is handed each iteration: a payload delivered in
/// order, or a reorder-buffer error.
pub enum FeederInput {
    /// The next payload, in sequence order.
    Payload(Vec<u8>),
    /// A delivery failure; the kind decides whether it implies loss.
    Error(ReorderBufferError),
}

/// What the feeder asks the surrounding loop to do.
pub enum FeederAction {
    /// Submit this finished access unit to the decoder input.
    SubmitUnit(Vec<u8>),
    /// Discard state was lost: send a (rate-limited) key-frame request.
    RequestKeyFrame,
    /// Nothing to submit; pull the next input.
    Continue,
}

/// Whether a reorder-buffer error implies data loss.  Loss resets the
/// gate and triggers recovery; the benign kinds are skipped over.
pub open spec fn reorder_error_is_loss(e: ReorderBufferError) -> bool {
    match e {
        ReorderBufferError::HeaderParsingError => true,
        ReorderBufferError::TrackRemoteReadError => true,
        ReorderBufferError::BufferFull => true,
        ReorderBufferError::PacketTooShort => false,
        ReorderBufferError::TrackRemoteReadTimeout => false,
    }
}

/// The decode feeder: depacketizer scratch state, the access-unit buffer
/// and the reference-frame gate.
pub struct Feeder {
    gate: ReferenceFrameGate,
    depacketizer: H264Depacketizer,
    unit: Vec<u8>,
}

/// The mathematical state of the feeder.
pub ghost struct FeederModel {
    /// Gate state.
    pub gate: GateState,
    /// Whether a fragmented NAL unit is open.
    pub in_fragment: bool,
    /// Bound on the access-unit buffer.
    pub max: int,
    /// Bytes accumulated for the unit under reassembly.
    pub unit: Seq<u8>,
}

impl View for Feeder {
    type V = FeederModel;

    closed spec fn view(&self) -> FeederModel {
        FeederModel {
            gate: self.gate.state,
            in_fragment: self.depacketizer@.in_fragment,
            max: self.depacketizer@.max,
            unit: self.unit@,
        }
    }
}

impl Feeder {
    /// Arithmetic stays in bounds.
    pub closed spec fn wf(&self) -> bool {
        self.depacketizer.wf()
    }

    /// A fresh feeder: gate closed, no unit under reassembly.
    pub fn new(max_unit_size: usize) -> (r: Feeder)
        requires
            max_unit_size <= 0x4000_0000,
        ensures
            r.wf(),
            r@.gate == GateState::AwaitingKeyFrame,
            !r@.in_fragment,
            r@.max == max_unit_size,
            r@.unit.len() == 0,
    {
        Feeder {
            gate: ReferenceFrameGate::new(),
            depacketizer: H264Depacketizer::new(max_unit_size),
            unit: Vec::new(),
        }
    }

    /// The reference-frame gate state, for the surrounding loop's bookkeeping.
    pub fn gate_state(&self) -> (r: GateState)
        ensures
            r == self@.gate,
    {
        self.gate.state
    }

    /// Process one reorder-buffer outcome.
    ///
    /// A payload feeds the depacketizer: a completed unit is judged by
    /// the reference-frame gate and either submitted or discarded with a key-frame
    /// request; a non-terminal fragment just continues.  A depacketizer
    /// hard error or a loss-class reorder error resets gate and unit and
    /// requests a key frame; benign errors continue.
    pub fn step(&mut self, input: FeederInput) -> (r: FeederAction)
        requires
            old(self).wf(),
        ensures
            final(self).wf(),
            final(self)@.max == old(self)@.max,
            input matches FeederInput::Payload(p) ==> ({
                let o = spec_push(old(self)@.unit, old(self)@.in_fragment, old(self)@.max, p@);
                let submit = old(self)@.gate == GateState::Streaming || unit_is_idr(o.acc);
                &&& (o.result == Ok::<(), DepacketizerError>(()) && submit ==> (r matches
                    FeederAction::SubmitUnit(u) && u@ == o.acc) && final(self)@.gate
                    == GateState::Streaming && final(self)@.unit.len() == 0
                    && !final(self)@.in_fragment)
                &&& (o.result == Ok::<(), DepacketizerError>(()) && !submit ==> r
                    is RequestKeyFrame && final(self)@.gate == GateState::AwaitingKeyFrame
                    && final(self)@.unit.len() == 0 && !final(self)@.in_fragment)
                &&& (o.result == Err::<(), DepacketizerError>(DepacketizerError::NeedMoreInput)
                    ==> r is Continue && final(self)@.unit == o.acc && final(self)@.in_fragment
                    == o.in_fragment && final(self)@.gate == old(self)@.gate)
                &&& (o.result is Err && o.result != Err::<(), DepacketizerError>(
                    DepacketizerError::NeedMoreInput,
                ) ==> r is RequestKeyFrame && final(self)@.gate == GateState::AwaitingKeyFrame
                    && final(self)@.unit.len() == 0 && !final(self)@.in_fragment)
            }),
            input matches FeederInput::Error(e) ==> ({
                &&& (reorder_error_is_loss(e) ==> r is RequestKeyFrame && final(self)@.gate
                    == GateState::AwaitingKeyFrame && final(self)@.unit.len() == 0
                    && !final(self)@.in_fragment)
                &&& (!reorder_error_is_loss(e) ==> r is Continue && final(self)@ == old(self)@)
            }),
    {
        match input {
            FeederInput::Payload(p) => {
                let res = self.depacketizer.push(&mut self.unit, p.as_slice());
                match res {
                    Ok(_) => {
                        let _n = self.depacketizer.finish(&self.unit);
                        let idr = is_idr_unit(self.unit.as_slice());
                        let submit = self.gate.on_unit(idr);
                        if submit {
                            let mut taken: Vec<u8> = Vec::new();
                            core::mem::swap(&mut taken, &mut self.unit);
                            FeederAction::SubmitUnit(taken)
                        } else {
                            self.unit.clear();
                            FeederAction::RequestKeyFrame
                        }
                    },
                    Err(DepacketizerError::NeedMoreInput) => FeederAction::Continue,
                    Err(_) => {
                        self.reset();
                        FeederAction::RequestKeyFrame
                    },
                }
            },
            FeederInput::Error(e) => {
                match e {
                    ReorderBufferError::HeaderParsingError
                    | ReorderBufferError::TrackRemoteReadError
                    | ReorderBufferError::BufferFull => {
                        self.reset();
                        FeederAction::RequestKeyFrame
                    },
                    ReorderBufferError::PacketTooShort
                    | ReorderBufferError::TrackRemoteReadTimeout => FeederAction::Continue,
                }
            },
        }
    }

    /// Drop whatever was accumulated and close the reference-frame gate.
    fn reset(&mut self)
        requires
            old(self).wf(),
        ensures
            final(self).wf(),
            final(self)@.max == old(self)@.max,
            final(self)@.gate == GateState::AwaitingKeyFrame,
            final(self)@.unit.len() == 0,
            !final(self)@.in_fragment,
    {
        self.gate.on_loss();
        let _ = self.depacketizer.finish(&self.unit);
        self.unit.clear();
    }
}

/// A platform lifecycle or channel event, as the render pump sees it.
/// The surface is an opaque window token minted by the platform layer.
#[derive(Debug, Clone, Copy, PartialEq, Eq, Structural)]
pub enum PumpEvent {
    /// A new rendering surface exists.
    SurfaceCreated(u64),
    /// The rendering surface is gone.
    SurfaceDestroyed,
    /// The hosting activity shut down.
    MainActivityDestroyed,
    /// No event pending: drain one decoder output buffer.
    ChannelEmpty,
    /// The event channel closed.
    ChannelClosed,
    /// The peer connection left the connected state.
    PeerDisconnected,
}

/// What the render pump asks the surrounding loop to do.
#[derive(Debug, Clone, Copy, PartialEq, Eq, Structural)]
pub enum PumpAction {
    /// Bind decoder output to this window token.
    Rebind(u64),
    /// Release one decoder output buffer; render it iff the flag is set.
    Release(bool),
    /// Nothing to do for this event.
    Idle,
    /// Terminate the pipeline.
    Exit,
}

/// The render pump: tracks whether a surface exists to render to.
#[derive(Debug, Clone, Copy, PartialEq, Eq, Structural)]
pub struct RenderPump {
    /// Whether released output buffers are rendered.
    pub render: bool,
}

impl RenderPump {
    /// A fresh pump; rendering is enabled until a surface is lost.
    pub fn new() -> (r: RenderPump)
        ensures
            r.render,
    {
        RenderPump { render: true }
    }

    /// Decide what to do with one event.  A new surface re-enables
    /// rendering and rebinds the decoder output; a destroyed surface
    /// only disables rendering, so output buffers are still drained but
    /// not shown; an empty channel drains one output buffer; terminal
    /// events end the pipeline.
    pub fn step(&mut self, event: PumpEvent) -> (r: PumpAction)
        ensures
            event matches PumpEvent::SurfaceCreated(w) ==> r == PumpAction::Rebind(w)
                && final(self).render,
            event is SurfaceDestroyed ==> r == PumpAction::Idle && !final(self).render,
            event is ChannelEmpty ==> r == PumpAction::Release(old(self).render) && *final(self)
                == *old(self),
            event is MainActivityDestroyed || event is ChannelClosed || event
                is PeerDisconnected ==> r == PumpAction::Exit && *final(self) == *old(self),
    {
        match event {
            PumpEvent::SurfaceCreated(w) => {
                self.render = true;
                PumpAction::Rebind(w)
            },
            PumpEvent::SurfaceDestroyed => {
                self.render = false;
                PumpAction::Idle
            },
            PumpEvent::ChannelEmpty => PumpAction::Release(self.render),
            PumpEvent::MainActivityDestroyed | PumpEvent::ChannelClosed
            | PumpEvent::PeerDisconnected => PumpAction::Exit,
        }
    }
}

/// The terminal error the coordinator reports for the event that ended
/// the pipeline: the designed termination signal, not a crash.
pub fn exit_error(event: PumpEvent) -> (r: Option<DecoderError>)
    ensures
        r == (match event {
            PumpEvent::MainActivityDestroyed | PumpEvent::ChannelClosed => Some(
                DecoderError::ApplicationClosed,
            ),
            PumpEvent::PeerDisconnected => Some(DecoderError::WebRtcDisconnected),
            _ => None::<DecoderError>,
        }),
{
    match event {
        PumpEvent::MainActivityDestroyed | PumpEvent::ChannelClosed => Some(
            DecoderError::ApplicationClosed,
        ),
        PumpEvent::PeerDisconnected => Some(DecoderError::WebRtcDisconnected),
        _ => None,
    }
}

} // verus!
