//! Client-side real-time video receive path: the RTP-to-decoder pipeline.
//!
//! The crate reassembles an RTP video track into decodable access units and
//! drives a rate-limited loss-recovery feedback loop.  Packets are reordered
//! by 16-bit sequence number inside a bounded window, depacketized into H.264
//! access units, gated on a reference frame, and handed to a hardware decoder
//! session whose usage protocol is modelled as explicit state machines.  All
//! decisions are verified; the platform adapters (network track, codec
//! bindings, surface lifecycle) live outside and drive the state machines
//! with plain values.

pub mod bootstrap;
pub mod depacketizer;
pub mod depacketizer_laws;
pub mod gate;
pub mod h264;
pub mod media;
pub mod mime;
pub mod pipeline;
pub mod pli;
pub mod reorder;
pub mod reorder_laws;
pub mod rtp;
pub mod seqnum;
pub mod signaling;
pub mod sps;
pub mod status;
pub mod util;
