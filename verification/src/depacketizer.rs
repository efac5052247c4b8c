//! Reassembly of H.264 access units from RTP payloads.
//!
//! Each payload is a single NAL unit, an aggregate of small NAL units, or
//! one fragment of a large NAL unit.  The depacketizer appends the
//! reassembled unit, each NAL prefixed with the four-byte start code, to a
//! caller-owned output buffer, and reports when a unit is complete or when
//! more fragments are needed.  Malformed fragment sequences, unsupported
//! payload kinds and output overflow are hard errors that leave the output
//! buffer untouched; the caller is expected to reset and re-synchronize.

use vstd::prelude::*;
use crate::rtp::be16;

verus! {

/// Generous upper bound for one reassembled access unit, in bytes.
pub const MAX_NALU_SIZE: usize = 250000;

/// The NAL type carried in the low five bits of a NAL header byte.
pub open spec fn nal_type(b: u8) -> u8 {
    b & 0x1F
}

/// The four-byte start code put in front of every reassembled NAL.
pub open spec fn start_code() -> Seq<u8> {
    seq![0u8, 0u8, 0u8, 1u8]
}

/// Payload kind carrying a single NAL unit (types 1 through 23).
pub open spec fn is_single_nal(t: u8) -> bool {
    1 <= t <= 23
}

/// Payload kind aggregating several NAL units with two-byte length
/// prefixes.
pub const NAL_TYPE_STAP_A: u8 = 24;

/// Payload kind carrying one fragment of a larger NAL unit.
pub const NAL_TYPE_FU_A: u8 = 28;

/// How a `push` can fail, and the request for further fragments.
#[derive(Debug, Clone, Copy, PartialEq, Eq, Structural)]
pub enum DepacketizerError {
    /// The payload was a non-terminal fragment; feed the next one.
    NeedMoreInput,
    /// The payload is too short for its kind.
    PayloadTooShort,
    /// A start fragment arrived while a fragmented unit was already open.
    UnexpectedStartFragment,
    /// A non-start fragment arrived with no fragmented unit open.
    MissingStartFragment,
    /// A complete payload arrived while a fragmented unit was open.
    InterruptedFragment,
    /// A payload kind this depacketizer does not support.
    UnsupportedNalType,
    /// An aggregate whose length prefixes do not add up.
    MalformedAggregate,
    /// The reassembled unit would exceed the output buffer bound.
    OutputBufferFull,
}

/// The mathematical state of a depacketizer together with its bound
/// output buffer.
pub ghost struct DepackModel {
    /// A fragmented NAL unit is open and awaiting its end fragment.
    pub in_fragment: bool,
    /// Upper bound on the output buffer length.
    pub max: int,
}

/// What one `push` leaves behind: the new output buffer contents, the new
/// fragment flag, and the reported result.
pub ghost struct PushOutcome {
    /// Output buffer contents after the push.
    pub acc: Seq<u8>,
    /// Whether a fragmented unit is open after the push.
    pub in_fragment: bool,
    /// What the push reported.
    pub result: Result<(), DepacketizerError>,
}

/// Walk the entries of an aggregate payload: each is a two-byte length
/// followed by that many NAL bytes.  Yields the reassembled bytes, each
/// entry behind a start code, or the first failure: a malformed entry, or
/// an entry that no longer fits in `room`.
pub open spec fn stap_scan(p: Seq<u8>, room: int) -> Result<Seq<u8>, DepacketizerError>
    decreases p.len(),
{
    if p.len() == 0 {
        Ok(Seq::empty())
    } else if p.len() < 2 {
        Err(DepacketizerError::MalformedAggregate)
    } else {
        let n = be16(p[0], p[1]);
        if n < 1 || 2 + n > p.len() {
            Err(DepacketizerError::MalformedAggregate)
        } else if n + 4 > room {
            Err(DepacketizerError::OutputBufferFull)
        } else {
            match stap_scan(p.skip(2 + n), room - (n + 4)) {
                Ok(rest) => Ok(start_code() + p.subrange(2, 2 + n) + rest),
                Err(e) => Err(e),
            }
        }
    }
}

/// The meaning of one `push`: how the payload kind, the open-fragment
/// flag and the output bound decide what is appended and what is
/// reported.
pub open spec fn spec_push(acc: Seq<u8>, in_frag: bool, max: int, p: Seq<u8>) -> PushOutcome {
    if p.len() == 0 {
        PushOutcome { acc, in_fragment: in_frag, result: Err(DepacketizerError::PayloadTooShort) }
    } else {
        let t = nal_type(p[0]);
        if is_single_nal(t) {
            if in_frag {
                PushOutcome {
                    acc,
                    in_fragment: in_frag,
                    result: Err(DepacketizerError::InterruptedFragment),
                }
            } else if acc.len() + 4 + p.len() > max {
                PushOutcome {
                    acc,
                    in_fragment: in_frag,
                    result: Err(DepacketizerError::OutputBufferFull),
                }
            } else {
                PushOutcome { acc: acc + start_code() + p, in_fragment: false, result: Ok(()) }
            }
        } else if t == NAL_TYPE_STAP_A {
            if in_frag {
                PushOutcome {
                    acc,
                    in_fragment: in_frag,
                    result: Err(DepacketizerError::InterruptedFragment),
                }
            } else if p.len() == 1 {
                PushOutcome {
                    acc,
                    in_fragment: in_frag,
                    result: Err(DepacketizerError::MalformedAggregate),
                }
            } else {
                let room = if acc.len() > max {
                    0
                } else {
                    max - acc.len()
                };
                match stap_scan(p.skip(1), room) {
                    Ok(flat) => PushOutcome {
                        acc: acc + flat,
                        in_fragment: false,
                        result: Ok(()),
                    },
                    Err(e) => PushOutcome { acc, in_fragment: in_frag, result: Err(e) },
                }
            }
        } else if t == NAL_TYPE_FU_A {
            if p.len() < 2 {
                PushOutcome {
                    acc,
                    in_fragment: in_frag,
                    result: Err(DepacketizerError::PayloadTooShort),
                }
            } else {
                let start = p[1] & 0x80 != 0;
                let end = p[1] & 0x40 != 0;
                if start {
                    if in_frag {
                        PushOutcome {
                            acc,
                            in_fragment: in_frag,
                            result: Err(DepacketizerError::UnexpectedStartFragment),
                        }
                    } else if acc.len() + 3 + p.len() > max {
                        PushOutcome {
                            acc,
                            in_fragment: in_frag,
                            result: Err(DepacketizerError::OutputBufferFull),
                        }
                    } else {
                        let hdr = (p[0] & 0xE0) | (p[1] & 0x1F);
                        let appended = acc + start_code() + seq![hdr] + p.skip(2);
                        if end {
                            PushOutcome { acc: appended, in_fragment: false, result: Ok(()) }
                        } else {
                            PushOutcome {
                                acc: appended,
                                in_fragment: true,
                                result: Err(DepacketizerError::NeedMoreInput),
                            }
                        }
                    }
                } else {
                    if !in_frag {
                        PushOutcome {
                            acc,
                            in_fragment: in_frag,
                            result: Err(DepacketizerError::MissingStartFragment),
                        }
                    } else if acc.len() + (p.len() - 2) > max {
                        PushOutcome {
                            acc,
                            in_fragment: in_frag,
                            result: Err(DepacketizerError::OutputBufferFull),
                        }
                    } else {
                        let appended = acc + p.skip(2);
                        if end {
                            PushOutcome { acc: appended, in_fragment: false, result: Ok(()) }
                        } else {
                            PushOutcome {
                                acc: appended,
                                in_fragment: true,
                                result: Err(DepacketizerError::NeedMoreInput),
                            }
                        }
                    }
                }
            }
        } else {
            PushOutcome {
                acc,
                in_fragment: in_frag,
                result: Err(DepacketizerError::UnsupportedNalType),
            }
        }
    }
}

/// Reassembles H.264 access units into a caller-owned buffer.
pub struct H264Depacketizer {
    in_fragment: bool,
    max_size: usize,
}

impl View for H264Depacketizer {
    type V = DepackModel;

    closed spec fn view(&self) -> DepackModel {
        DepackModel { in_fragment: self.in_fragment, max: self.max_size as int }
    }
}

/// Append `data[from..to]` to `out`.
fn append_slice(out: &mut Vec<u8>, data: &[u8], from: usize, to: usize)
    requires
        from <= to <= data.len(),
    ensures
        final(out)@ == old(out)@ + data@.subrange(from as int, to as int),
{
    let mut i = from;
    while i < to
        invariant
            from <= i <= to <= data.len(),
            out@ == old(out)@ + data@.subrange(from as int, i as int),
        decreases to - i,
    {
        out.push(data[i]);
        proof {
            assert(out@ =~= old(out)@ + data@.subrange(from as int, i + 1));
        }
        i += 1;
    }
    proof {
        assert(out@ =~= old(out)@ + data@.subrange(from as int, to as int));
    }
}

/// Append the four-byte start code to `out`.
fn append_start_code(out: &mut Vec<u8>)
    ensures
        final(out)@ == old(out)@ + start_code(),
{
    out.push(0);
    out.push(0);
    out.push(0);
    out.push(1);
    proof {
        assert(out@ =~= old(out)@ + start_code());
    }
}

impl H264Depacketizer {
    /// A fresh depacketizer bound to output buffers of at most `max_size`
    /// bytes.
    pub fn new(max_size: usize) -> (r: H264Depacketizer)
        requires
            max_size <= 0x4000_0000,
        ensures
            r@.max == max_size,
            !r@.in_fragment,
            r.wf(),
    {
        H264Depacketizer { in_fragment: false, max_size }
    }

    /// The output bound stays small enough that length arithmetic cannot
    /// overflow.
    pub closed spec fn wf(&self) -> bool {
        self.max_size <= 0x4000_0000
    }

    /// Feed one reordered payload.  `Ok` reports a complete access unit
    /// in `out`; `NeedMoreInput` asks for the next fragment; any other
    /// result is a hard error that leaves `out` untouched.
    pub fn push(&mut self, out: &mut Vec<u8>, payload: &[u8]) -> (r: Result<(), DepacketizerError>)
        requires
            old(self).wf(),
        ensures
            final(self).wf(),
            final(self)@.max == old(self)@.max,
            final(out)@ == spec_push(old(out)@, old(self)@.in_fragment, old(self)@.max, payload@).acc,
            final(self)@.in_fragment == spec_push(
                old(out)@,
                old(self)@.in_fragment,
                old(self)@.max,
                payload@,
            ).in_fragment,
            r == spec_push(old(out)@, old(self)@.in_fragment, old(self)@.max, payload@).result,
    {
        if payload.len() == 0 {
            return Err(DepacketizerError::PayloadTooShort);
        }
        let t = payload[0] & 0x1F;
        if 1 <= t && t <= 23 {
            if self.in_fragment {
                return Err(DepacketizerError::InterruptedFragment);
            }
            let room = if out.len() > self.max_size {
                0
            } else {
                self.max_size - out.len()
            };
            if room < 4 || payload.len() > room - 4 {
                return Err(DepacketizerError::OutputBufferFull);
            }
            append_start_code(out);
            append_slice(out, payload, 0, payload.len());
            proof {
                assert(payload@.subrange(0, payload@.len() as int) =~= payload@);
            }
            return Ok(());
        } else if t == NAL_TYPE_STAP_A {
            if self.in_fragment {
                return Err(DepacketizerError::InterruptedFragment);
            }
            if payload.len() == 1 {
                return Err(DepacketizerError::MalformedAggregate);
            }
            let room = if out.len() > self.max_size {
                0
            } else {
                self.max_size - out.len()
            };
            let r = self.push_aggregate(out, payload, room);
            proof {
                match r {
                    Ok(u) => {
                        assert(u == ());
                    },
                    Err(_) => {},
                }
            }
            return r;
        } else if t == NAL_TYPE_FU_A {
            if payload.len() < 2 {
                return Err(DepacketizerError::PayloadTooShort);
            }
            let start = payload[1] & 0x80 != 0;
            let end = payload[1] & 0x40 != 0;
            let room = if out.len() > self.max_size {
                0
            } else {
                self.max_size - out.len()
            };
            if start {
                if self.in_fragment {
                    return Err(DepacketizerError::UnexpectedStartFragment);
                }
                if room < 3 || payload.len() > room - 3 {
                    return Err(DepacketizerError::OutputBufferFull);
                }
                let hdr = (payload[0] & 0xE0) | (payload[1] & 0x1F);
                append_start_code(out);
                out.push(hdr);
                append_slice(out, payload, 2, payload.len());
                proof {
                    assert(out@ =~= old(out)@ + start_code() + seq![hdr] + payload@.skip(2));
                }
                if end {
                    self.in_fragment = false;
                    return Ok(());
                } else {
                    self.in_fragment = true;
                    return Err(DepacketizerError::NeedMoreInput);
                }
            } else {
                if !self.in_fragment {
                    return Err(DepacketizerError::MissingStartFragment);
                }
                if out.len() > self.max_size || payload.len() - 2 > room {
                    return Err(DepacketizerError::OutputBufferFull);
                }
                append_slice(out, payload, 2, payload.len());
                proof {
                    assert(out@ =~= old(out)@ + payload@.skip(2));
                }
                if end {
                    self.in_fragment = false;
                    return Ok(());
                } else {
                    return Err(DepacketizerError::NeedMoreInput);
                }
            }
        } else {
            return Err(DepacketizerError::UnsupportedNalType);
        }
    }

    /// Walk and append the entries of an aggregate payload.
    #[verifier::loop_isolation(false)]
    fn push_aggregate(&mut self, out: &mut Vec<u8>, payload: &[u8], room: usize) -> (r: Result<
        (),
        DepacketizerError,
    >)
        requires
            old(self).wf(),
            payload.len() >= 2,
            room == if old(out)@.len() > old(self)@.max {
                0
            } else {
                old(self)@.max - old(out)@.len()
            },
            !old(self)@.in_fragment,
        ensures
            final(self).wf(),
            final(self)@ == old(self)@,
            match r {
                Ok(_) => stap_scan(payload@.skip(1), room as int) matches Ok(flat) && final(out)@
                    == old(out)@ + flat,
                Err(e) => stap_scan(payload@.skip(1), room as int) == Err::<Seq<u8>,
                DepacketizerError>(e) && final(out)@ == old(out)@,
            },
    {
        // First pass: validate every entry and make sure the total fits.
        let ghost whole = payload@.skip(1);
        let mut idx: usize = 1;
        let mut left: usize = room;
        while idx < payload.len()
            invariant
                1 <= idx <= payload.len(),
                left <= room,
                self == old(self),
                out@ == old(out)@,
                stap_scan(whole, room as int) is Ok <==> stap_scan(
                    payload@.skip(idx as int),
                    left as int,
                ) is Ok,
                stap_scan(whole, room as int) is Err ==> stap_scan(
                    payload@.skip(idx as int),
                    left as int,
                ) == stap_scan(whole, room as int),
            decreases payload.len() - idx,
        {
            let ghost rest = payload@.skip(idx as int);
            if payload.len() - idx < 2 {
                return Err(DepacketizerError::MalformedAggregate);
            }
            let n = (payload[idx] as usize) * 0x100 + (payload[idx + 1] as usize);
            proof {
                assert(rest[0] == payload@[idx as int]);
                assert(rest[1] == payload@[idx as int + 1]);
                assert(n == be16(rest[0], rest[1]));
            }
            if n < 1 || n > payload.len() - idx - 2 {
                return Err(DepacketizerError::MalformedAggregate);
            }
            if left < 4 || n > left - 4 {
                return Err(DepacketizerError::OutputBufferFull);
            }
            proof {
                assert(rest.skip(2 + n) =~= payload@.skip(idx + 2 + n));
            }
            idx = idx + 2 + n;
            left = left - 4 - n;
        }
        proof {
            assert(payload@.skip(idx as int) =~= Seq::<u8>::empty());
            assert(stap_scan(whole, room as int) is Ok);
        }
        // Second pass: append each entry behind a start code.
        let ghost flat = stap_scan(whole, room as int)->Ok_0;
        let ghost out0 = out@;
        let mut idx2: usize = 1;
        let mut left2: usize = room;
        while idx2 < payload.len()
            invariant
                1 <= idx2 <= payload.len(),
                left2 <= room,
                self == old(self),
                payload@.len() >= 2,
                stap_scan(payload@.skip(idx2 as int), left2 as int) is Ok,
                out0 + flat == out@ + stap_scan(payload@.skip(idx2 as int), left2 as int)->Ok_0,
            decreases payload.len() - idx2,
        {
            let ghost rest = payload@.skip(idx2 as int);
            proof {
                assert(rest.len() >= 2) by {
                    if rest.len() < 2 {
                        assert(stap_scan(rest, left2 as int) is Err);
                    }
                }
            }
            let n = (payload[idx2] as usize) * 0x100 + (payload[idx2 + 1] as usize);
            proof {
                assert(rest[0] == payload@[idx2 as int]);
                assert(rest[1] == payload@[idx2 as int + 1]);
                assert(n == be16(rest[0], rest[1]));
                assert(1 <= n && 2 + n <= rest.len() && n + 4 <= left2) by {
                    if n < 1 || 2 + n > rest.len() || n + 4 > left2 {
                        assert(stap_scan(rest, left2 as int) is Err);
                    }
                }
            }
            append_start_code(out);
            append_slice(out, payload, idx2 + 2, idx2 + 2 + n);
            proof {
                assert(payload@.subrange(idx2 + 2, idx2 + 2 + n) =~= rest.subrange(2, 2 + n));
                assert(rest.skip(2 + n) =~= payload@.skip(idx2 + 2 + n));
                assert(stap_scan(rest, left2 as int)->Ok_0 == start_code() + rest.subrange(2, 2 + n)
                    + stap_scan(rest.skip(2 + n), left2 - (n + 4))->Ok_0);
                assert(out0 + flat =~= out@ + stap_scan(
                    payload@.skip(idx2 + 2 + n),
                    (left2 - (n + 4)) as int,
                )->Ok_0);
            }
            idx2 = idx2 + 2 + n;
            left2 = left2 - 4 - n;
        }
        proof {
            assert(payload@.skip(idx2 as int) =~= Seq::<u8>::empty());
            assert(stap_scan(payload@.skip(idx2 as int), left2 as int)->Ok_0 =~= Seq::<u8>::empty());
            assert(out0 + flat =~= out@);
            assert(out@ =~= out0 + flat);
        }
        Ok(())
    }

    /// Close the current unit: report how many bytes stand in `out` and
    /// forget any half-open fragment.  The caller clears `out` before the
    /// next unit.
    pub fn finish(&mut self, out: &Vec<u8>) -> (n: usize)
        ensures
            old(self).wf() ==> final(self).wf(),
            final(self)@.max == old(self)@.max,
            !final(self)@.in_fragment,
            n == out@.len(),
    {
        self.in_fragment = false;
        out.len()
    }
}

} // verus!
