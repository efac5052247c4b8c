//! Parsing of RTP datagrams into packets.
//!
//! A packet carries the 16-bit sequence number, the media timestamp and the
//! payload bytes; header extensions and padding are stripped.  Parsing
//! follows the fixed RTP header layout: version, padding and extension
//! flags, a count of contributing sources, then the extension block and the
//! trailing padding when their flags are set.

use vstd::prelude::*;

verus! {

/// One network packet after header parsing.  Immutable once received.
pub struct Packet {
    /// RTP sequence number (16-bit, wraps).
    pub seq: u16,
    /// RTP media timestamp.
    pub timestamp: u32,
    /// Payload bytes, with header, extension and padding removed.
    pub payload: Vec<u8>,
}

/// The mathematical content of a packet.
pub ghost struct PacketModel {
    /// Sequence number.
    pub seq: u16,
    /// Media timestamp.
    pub timestamp: u32,
    /// Payload bytes.
    pub payload: Seq<u8>,
}

impl View for Packet {
    type V = PacketModel;

    open spec fn view(&self) -> PacketModel {
        PacketModel { seq: self.seq, timestamp: self.timestamp, payload: self.payload@ }
    }
}

/// Big-endian pairing of two bytes.
pub open spec fn be16(hi: u8, lo: u8) -> int {
    hi * 0x100 + lo
}

/// Big-endian combination of four bytes.
pub open spec fn be32(b0: u8, b1: u8, b2: u8, b3: u8) -> int {
    ((b0 * 0x100 + b1) * 0x100 + b2) * 0x100 + b3
}

/// Where the payload of a well-formed datagram starts: the fixed header,
/// the contributing-source list, and the extension block when present.
pub open spec fn header_len(b: Seq<u8>) -> int {
    let base = 12 + 4 * (b[0] & 0x0F);
    if (b[0] >> 4) & 1 == 1 {
        base + 4 + 4 * be16(b[base + 2], b[base + 3])
    } else {
        base
    }
}

/// How many trailing padding bytes a well-formed datagram carries.
pub open spec fn padding_len(b: Seq<u8>) -> int {
    if (b[0] >> 5) & 1 == 1 {
        b[b.len() - 1] as int
    } else {
        0
    }
}

/// Whether the datagram is a well-formed RTP packet: version 2, room for
/// the contributing-source list and the extension block, and padding that
/// fits between the header and the end.
pub open spec fn rtp_well_formed(b: Seq<u8>) -> bool {
    &&& b.len() >= 12
    &&& (b[0] >> 6) == 2
    &&& 12 + 4 * (b[0] & 0x0F) <= b.len()
    &&& ((b[0] >> 4) & 1 == 1 ==> 12 + 4 * (b[0] & 0x0F) + 4 <= b.len())
    &&& header_len(b) <= b.len()
    &&& padding_len(b) >= 0
    &&& header_len(b) + padding_len(b) <= b.len()
    &&& ((b[0] >> 5) & 1 == 1 ==> b[b.len() - 1] >= 1)
}

/// What parsing a well-formed datagram yields.
pub open spec fn parse_rtp_spec(b: Seq<u8>) -> PacketModel {
    PacketModel {
        seq: be16(b[2], b[3]) as u16,
        timestamp: be32(b[4], b[5], b[6], b[7]) as u32,
        payload: b.subrange(header_len(b), b.len() - padding_len(b)),
    }
}

/// Parse an RTP datagram.  Succeeds exactly on well-formed datagrams and
/// then yields the sequence number, timestamp and stripped payload.
pub fn parse_rtp(b: &[u8]) -> (r: Result<Packet, ()>)
    ensures
        r is Ok <==> rtp_well_formed(b@),
        r matches Ok(p) ==> p@ == parse_rtp_spec(b@),
{
    if b.len() < 12 {
        return Err(());
    }
    let b0 = b[0];
    if (b0 >> 6) != 2 {
        return Err(());
    }
    let cc = (b0 & 0x0F) as usize;
    let base: usize = 12 + 4 * cc;
    if base > b.len() {
        return Err(());
    }
    let has_ext = (b0 >> 4) & 1 == 1;
    let hdr: usize = if has_ext {
        if base + 4 > b.len() {
            return Err(());
        }
        let words = (b[base + 2] as usize) * 0x100 + (b[base + 3] as usize);
        assert(words == be16(b@[base + 2], b@[base + 3]));
        base + 4 + 4 * words
    } else {
        base
    };
    assert(hdr == header_len(b@));
    if hdr > b.len() {
        return Err(());
    }
    let has_pad = (b0 >> 5) & 1 == 1;
    let pad: usize = if has_pad {
        let p = b[b.len() - 1] as usize;
        if p < 1 {
            return Err(());
        }
        p
    } else {
        0
    };
    assert(pad == padding_len(b@));
    if pad > b.len() - hdr {
        return Err(());
    }
    let seq = (b[2] as u16) * 0x100 + (b[3] as u16);
    let timestamp = (((b[4] as u32) * 0x100 + (b[5] as u32)) * 0x100 + (b[6] as u32)) * 0x100 + (
    b[7] as u32);
    let payload_end = b.len() - pad;
    let mut payload: Vec<u8> = Vec::new();
    let mut i: usize = hdr;
    while i < payload_end
        invariant
            hdr <= i <= payload_end <= b.len(),
            payload@ == b@.subrange(hdr as int, i as int),
        decreases payload_end - i,
    {
        payload.push(b[i]);
        proof {
            assert(payload@ =~= b@.subrange(hdr as int, i + 1));
        }
        i += 1;
    }
    proof {
        assert(payload@ =~= b@.subrange(header_len(b@), b@.len() - padding_len(b@)));
    }
    Ok(Packet { seq, timestamp, payload })
}

} // verus!
