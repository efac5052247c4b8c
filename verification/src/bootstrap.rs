//! The decoder bootstrap sequencer.
//!
//! Before the steady-state pipeline can run, two things must both exist:
//! the stream configuration (resolution and codec-specific data, learned
//! from the first parameter-set NALs) and a rendering surface (delivered
//! asynchronously by the platform).  The sequencer races lifecycle
//! events, reordered payloads and the connection state until both are
//! ready, then hands over to the decoder session construction; this is a
//! one-shot terminal transition.

use vstd::prelude::*;
use crate::depacketizer::{spec_push, H264Depacketizer, DepacketizerError};
use crate::h264::{model_read_payload, H264Decoder, H264DecoderModel};
use crate::pipeline::{reorder_error_is_loss, DecoderError, PumpEvent};
use crate::reorder::ReorderBufferError;

verus! {

/// What the sequencer is handed each iteration.
pub enum BootstrapInput {
    /// A lifecycle or channel event.
    Event(PumpEvent),
    /// A payload delivered in order by the reorder buffer.
    Payload(Vec<u8>),
    /// A delivery failure.
    ReorderError(ReorderBufferError),
}

/// What the sequencer asks the surrounding loop to do.
#[derive(Debug, Clone, Copy, PartialEq, Eq, Structural)]
pub enum BootstrapAction {
    /// Keep racing the event sources.
    Continue,
    /// Parameter data was lost or unusable: send a (rate-limited)
    /// key-frame request.
    RequestKeyFrame,
    /// Both surface and configuration are known: construct the decoder
    /// session.
    Ready,
    /// Abort the pipeline with this terminal error.
    Fail(DecoderError),
}

/// The mathematical state of the sequencer.
pub ghost struct BootstrapModel {
    /// The platform window token, while a surface exists.
    pub window: Option<u64>,
    /// The stream-configuration accumulator.
    pub dec: H264DecoderModel,
    /// Whether a fragmented NAL unit is open.
    pub in_fragment: bool,
    /// Bound on the access-unit buffer.
    pub max: int,
    /// Bytes accumulated for the unit under reassembly.
    pub unit: Seq<u8>,
}

/// Both prerequisites of decoder construction are met.
pub open spec fn bootstrap_ready(m: BootstrapModel) -> bool {
    m.window is Some && m.dec.codec_config is Some && m.dec.resolution is Some
}

/// The action of a step that neither failed nor lost data: hand over
/// exactly when both prerequisites are met.
pub open spec fn continue_or_ready_spec(m: BootstrapModel) -> BootstrapAction {
    if bootstrap_ready(m) {
        BootstrapAction::Ready
    } else {
        BootstrapAction::Continue
    }
}

/// The decoder bootstrap sequencer.
pub struct Bootstrap {
    window: Option<u64>,
    decoder: H264Decoder,
    depacketizer: H264Depacketizer,
    unit: Vec<u8>,
}

impl View for Bootstrap {
    type V = BootstrapModel;

    closed spec fn view(&self) -> BootstrapModel {
        BootstrapModel {
            window: self.window,
            dec: self.decoder@,
            in_fragment: self.depacketizer@.in_fragment,
            max: self.depacketizer@.max,
            unit: self.unit@,
        }
    }
}

impl Bootstrap {
    /// Arithmetic stays in bounds.
    pub closed spec fn wf(&self) -> bool {
        self.depacketizer.wf()
    }

    /// A fresh sequencer: no surface, nothing of the stream seen.
    pub fn new(max_unit_size: usize) -> (r: Bootstrap)
        requires
            max_unit_size <= 0x4000_0000,
        ensures
            r.wf(),
            r@.window is None,
            r@.dec.sps is None && r@.dec.pps is None && r@.dec.codec_config is None
                && r@.dec.resolution is None,
            !r@.in_fragment,
            r@.max == max_unit_size,
            r@.unit.len() == 0,
    {
        Bootstrap {
            window: None,
            decoder: H264Decoder::new(),
            depacketizer: H264Depacketizer::new(max_unit_size),
            unit: Vec::new(),
        }
    }

    /// The window token, while a surface exists.
    pub fn window(&self) -> (r: Option<u64>)
        ensures
            r == self@.window,
    {
        self.window
    }

    /// The picture size, once known.
    pub fn resolution(&self) -> (r: Option<(u32, u32)>)
        ensures
            r == self@.dec.resolution,
    {
        self.decoder.resolution()
    }

    /// The assembled configuration unit, once known.
    pub fn codec_config(&self) -> (r: Option<&Vec<u8>>)
        ensures
            r matches Some(v) ==> self@.dec.codec_config == Some(v@),
            r is Some <==> self@.dec.codec_config is Some,
    {
        self.decoder.codec_config()
    }

    /// Whether both surface and configuration are known.
    pub fn ready(&self) -> (r: bool)
        ensures
            r == bootstrap_ready(self@),
    {
        self.window.is_some() && self.decoder.init_done()
    }

    /// Race one input.
    ///
    /// Lifecycle events update the surface or abort; a payload feeds the
    /// depacketizer and a finished unit feeds the configuration
    /// accumulator, requesting a key frame when it is unusable; loss
    /// resets the reassembly and requests a key frame.  Once the surface
    /// and the configuration are both known the step reports `Ready`.
    pub fn step(&mut self, input: BootstrapInput) -> (r: BootstrapAction)
        requires
            old(self).wf(),
        ensures
            final(self).wf(),
            final(self)@.max == old(self)@.max,
            input matches BootstrapInput::Event(e) ==> ({
                &&& (e matches PumpEvent::SurfaceCreated(w) ==> final(self)@ == (BootstrapModel {
                    window: Some(w),
                    ..old(self)@
                }) && r == continue_or_ready_spec(final(self)@))
                &&& (e is SurfaceDestroyed ==> final(self)@ == (BootstrapModel {
                    window: None::<u64>,
                    ..old(self)@
                }) && r == BootstrapAction::Continue)
                &&& (e is MainActivityDestroyed || e is ChannelClosed ==> r
                    == BootstrapAction::Fail(DecoderError::ApplicationClosed) && final(self)@ == old(self)@)
                &&& (e is PeerDisconnected ==> r == BootstrapAction::Fail(
                    DecoderError::WebRtcDisconnected,
                ) && final(self)@ == old(self)@)
                &&& (e is ChannelEmpty ==> final(self)@ == old(self)@ && r
                    == continue_or_ready_spec(final(self)@))
            }),
            input matches BootstrapInput::Payload(p) ==> ({
                let o = spec_push(old(self)@.unit, old(self)@.in_fragment, old(self)@.max, p@);
                &&& (o.result == Ok::<(), DepacketizerError>(()) ==> ({
                    let rd = model_read_payload(old(self)@.dec, o.acc);
                    &&& final(self)@.dec == rd.0
                    &&& final(self)@.window == old(self)@.window
                    &&& final(self)@.unit.len() == 0
                    &&& !final(self)@.in_fragment
                    &&& (!rd.1 ==> r == BootstrapAction::RequestKeyFrame)
                    &&& (rd.1 ==> r == continue_or_ready_spec(final(self)@))
                }))
                &&& (o.result == Err::<(), DepacketizerError>(DepacketizerError::NeedMoreInput)
                    ==> final(self)@ == (BootstrapModel {
                    unit: o.acc,
                    in_fragment: o.in_fragment,
                    ..old(self)@
                }) && r == continue_or_ready_spec(final(self)@))
                &&& ((o.result is Err && o.result != Err::<(), DepacketizerError>(
                    DepacketizerError::NeedMoreInput,
                )) ==> final(self)@.dec == old(self)@.dec && final(self)@.window == old(self)@.window && final(self)@.unit.len() == 0 && !final(self)@.in_fragment && r
                    == BootstrapAction::RequestKeyFrame)
            }),
            input matches BootstrapInput::ReorderError(e) ==> ({
                &&& (reorder_error_is_loss(e) ==> final(self)@.dec == old(self)@.dec && final(self)@.window == old(self)@.window && final(self)@.unit.len() == 0 && !final(self)@.in_fragment && r == BootstrapAction::RequestKeyFrame)
                &&& (!reorder_error_is_loss(e) ==> final(self)@ == old(self)@ && r
                    == continue_or_ready_spec(final(self)@))
            }),
    {
        match input {
            BootstrapInput::Event(e) => {
                match e {
                    PumpEvent::SurfaceCreated(w) => {
                        self.window = Some(w);
                        self.continue_or_ready()
                    },
                    PumpEvent::SurfaceDestroyed => {
                        self.window = None;
                        BootstrapAction::Continue
                    },
                    PumpEvent::MainActivityDestroyed | PumpEvent::ChannelClosed => {
                        BootstrapAction::Fail(DecoderError::ApplicationClosed)
                    },
                    PumpEvent::PeerDisconnected => BootstrapAction::Fail(
                        DecoderError::WebRtcDisconnected,
                    ),
                    PumpEvent::ChannelEmpty => self.continue_or_ready(),
                }
            },
            BootstrapInput::Payload(p) => {
                let res = self.depacketizer.push(&mut self.unit, p.as_slice());
                match res {
                    Ok(_) => {
                        let _n = self.depacketizer.finish(&self.unit);
                        let accepted = self.decoder.read_payload(self.unit.as_slice());
                        self.unit.clear();
                        match accepted {
                            Ok(_) => self.continue_or_ready(),
                            Err(_) => BootstrapAction::RequestKeyFrame,
                        }
                    },
                    Err(DepacketizerError::NeedMoreInput) => self.continue_or_ready(),
                    Err(_) => {
                        let _n = self.depacketizer.finish(&self.unit);
                        self.unit.clear();
                        BootstrapAction::RequestKeyFrame
                    },
                }
            },
            BootstrapInput::ReorderError(e) => {
                match e {
                    ReorderBufferError::HeaderParsingError
                    | ReorderBufferError::TrackRemoteReadError
                    | ReorderBufferError::BufferFull => {
                        let _n = self.depacketizer.finish(&self.unit);
                        self.unit.clear();
                        BootstrapAction::RequestKeyFrame
                    },
                    ReorderBufferError::PacketTooShort
                    | ReorderBufferError::TrackRemoteReadTimeout => self.continue_or_ready(),
                }
            },
        }
    }

    /// `Ready` when both prerequisites hold, else `Continue`.
    fn continue_or_ready(&self) -> (r: BootstrapAction)
        ensures
            r == (if bootstrap_ready(self@) {
                BootstrapAction::Ready
            } else {
                BootstrapAction::Continue
            }),
    {
        if self.ready() {
            BootstrapAction::Ready
        } else {
            BootstrapAction::Continue
        }
    }
}

} // verus!
