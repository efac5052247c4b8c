//! The reference-frame gate.
//!
//! No inter-coded data may reach the hardware decoder before a valid
//! intra-coded (IDR) frame has been seen: a decoder fed a partial group of
//! pictures produces corrupted output with no visible error.  The reference-frame gate
//! starts out awaiting a key frame, opens when a finished access unit
//! leads with an IDR NAL, and falls back to awaiting on any loss.

use vstd::prelude::*;
use crate::depacketizer::nal_type;

verus! {

/// The NAL type marking an instantaneous decoder refresh picture.
pub const NALU_TYPE_IDR_PIC: u8 = 5;

/// The two states of the reference-frame gate.
#[derive(Debug, Clone, Copy, PartialEq, Eq, Structural)]
pub enum GateState {
    /// Discard inter-coded units and keep requesting a key frame.
    AwaitingKeyFrame,
    /// A reference frame is established; units flow to the decoder.
    Streaming,
}

/// Whether a finished access unit leads with an IDR NAL: four start-code
/// bytes, then a NAL header whose type field is the IDR marker.
pub open spec fn unit_is_idr(unit: Seq<u8>) -> bool {
    unit.len() >= 5 && nal_type(unit[4]) == NALU_TYPE_IDR_PIC
}

/// Decide whether a finished access unit leads with an IDR NAL.
pub fn is_idr_unit(unit: &[u8]) -> (r: bool)
    ensures
        r == unit_is_idr(unit@),
{
    unit.len() >= 5 && unit[4] & 0x1F == NALU_TYPE_IDR_PIC
}

/// The stateful gatekeeper.
#[derive(Debug, Clone, Copy, PartialEq, Eq, Structural)]
pub struct ReferenceFrameGate {
    /// Current state.
    pub state: GateState,
}

impl ReferenceFrameGate {
    /// A fresh gate, awaiting a key frame.
    pub fn new() -> (r: ReferenceFrameGate)
        ensures
            r.state == GateState::AwaitingKeyFrame,
    {
        ReferenceFrameGate { state: GateState::AwaitingKeyFrame }
    }

    /// Judge a finished access unit: `true` means submit it to the
    /// decoder, `false` means discard it (and request a key frame).
    /// While awaiting, exactly an IDR unit is submitted and opens the
    /// gate; while streaming, every unit is submitted.
    pub fn on_unit(&mut self, is_idr: bool) -> (submit: bool)
        ensures
            submit == (old(self).state == GateState::Streaming || is_idr),
            final(self).state == (if old(self).state == GateState::Streaming || is_idr {
                GateState::Streaming
            } else {
                GateState::AwaitingKeyFrame
            }),
    {
        match self.state {
            GateState::Streaming => true,
            GateState::AwaitingKeyFrame => {
                if is_idr {
                    self.state = GateState::Streaming;
                    true
                } else {
                    false
                }
            },
        }
    }

    /// Any loss or parsing failure invalidates the reference frame.
    pub fn on_loss(&mut self)
        ensures
            final(self).state == GateState::AwaitingKeyFrame,
    {
        self.state = GateState::AwaitingKeyFrame;
    }
}

} // verus!
