//! The round-trip guarantee of the depacketizer: a NAL unit split into
//! fragments and fed fragment by fragment reassembles to exactly the bytes
//! that feeding the whole unit in one payload produces.

use vstd::prelude::*;
use crate::depacketizer::{
    is_single_nal, nal_type, spec_push, start_code, DepacketizerError, PushOutcome, NAL_TYPE_FU_A,
};

verus! {

/// All parts, joined in order.
pub open spec fn concat_parts(parts: Seq<Seq<u8>>) -> Seq<u8>
    decreases parts.len(),
{
    if parts.len() == 0 {
        Seq::empty()
    } else {
        parts[0] + concat_parts(parts.skip(1))
    }
}

/// The fragment indicator byte: the priority bits of the original header,
/// with the fragmented payload kind.
pub open spec fn fu_indicator(hdr: u8) -> u8 {
    (hdr & 0xE0) | NAL_TYPE_FU_A
}

/// The fragment header byte: start and end flags plus the original NAL
/// type.
pub open spec fn fu_header(hdr: u8, first: bool, last: bool) -> u8 {
    (if first {
        0x80u8
    } else {
        0u8
    }) | (if last {
        0x40u8
    } else {
        0u8
    }) | (hdr & 0x1F)
}

/// The fragment payload carrying one part of a NAL unit.
pub open spec fn fu_payload(hdr: u8, part: Seq<u8>, first: bool, last: bool) -> Seq<u8> {
    seq![fu_indicator(hdr), fu_header(hdr, first, last)] + part
}

/// The fragment payloads that carry a NAL unit with header `hdr` split
/// into `parts`.
pub open spec fn fu_payloads(hdr: u8, parts: Seq<Seq<u8>>) -> Seq<Seq<u8>> {
    Seq::new(parts.len(), |i: int| fu_payload(hdr, parts[i], i == 0, i == parts.len() - 1))
}

/// The state after feeding a list of payloads one by one.
pub open spec fn push_run(acc: Seq<u8>, in_frag: bool, max: int, ps: Seq<Seq<u8>>) -> PushOutcome
    decreases ps.len(),
{
    if ps.len() == 0 {
        PushOutcome { acc, in_fragment: in_frag, result: Ok(()) }
    } else {
        let o = spec_push(acc, in_frag, max, ps[0]);
        if ps.len() == 1 {
            o
        } else {
            push_run(o.acc, o.in_fragment, max, ps.skip(1))
        }
    }
}

/// Every payload before the last one asks for more input.
pub open spec fn run_asks_more(acc: Seq<u8>, in_frag: bool, max: int, ps: Seq<Seq<u8>>) -> bool
    decreases ps.len(),
{
    if ps.len() <= 1 {
        true
    } else {
        let o = spec_push(acc, in_frag, max, ps[0]);
        o.result == Err::<(), DepacketizerError>(DepacketizerError::NeedMoreInput)
            && run_asks_more(o.acc, o.in_fragment, max, ps.skip(1))
    }
}

/// The bit-level facts about fragment bytes: the indicator is recognized
/// as a fragment, the flags land in the right bits, and indicator and
/// fragment header together restore the original NAL header.
proof fn lemma_fu_bits(hdr: u8, first: bool, last: bool)
    ensures
        nal_type(fu_indicator(hdr)) == NAL_TYPE_FU_A,
        (fu_header(hdr, first, last) & 0x80 != 0) == first,
        (fu_header(hdr, first, last) & 0x40 != 0) == last,
        (fu_indicator(hdr) & 0xE0) | (fu_header(hdr, first, last) & 0x1F) == hdr,
{
    assert(((hdr & 0xE0) | 28) & 0x1F == 28) by (bit_vector);
    let f: u8 = if first {
        0x80
    } else {
        0
    };
    let l: u8 = if last {
        0x40
    } else {
        0
    };
    assert(fu_header(hdr, first, last) == f | l | (hdr & 0x1F));
    assert((f | l | (hdr & 0x1F)) & 0x80 == f && (f | l | (hdr & 0x1F)) & 0x40 == l && ((hdr
        & 0xE0) | 28) & 0xE0 == hdr & 0xE0 && (f | l | (hdr & 0x1F)) & 0x1F == hdr & 0x1F && (hdr
        & 0xE0) | (hdr & 0x1F) == hdr) by (bit_vector)
        requires
            f == 0x80 || f == 0,
            l == 0x40 || l == 0,
    ;
}

/// The continuation fragments of a unit whose start fragment has been
/// absorbed: each one appends its part, the last one closes the unit.
proof fn lemma_fu_continuations(
    acc: Seq<u8>,
    max: int,
    hdr: u8,
    parts: Seq<Seq<u8>>,
    ps: Seq<Seq<u8>>,
)
    requires
        parts.len() >= 1,
        ps.len() == parts.len(),
        forall|i: int| 0 <= i < ps.len() ==> #[trigger] ps[i] == fu_payload(
            hdr,
            parts[i],
            false,
            i == ps.len() - 1,
        ),
        acc.len() + concat_parts(parts).len() <= max,
    ensures
        push_run(acc, true, max, ps) == (PushOutcome {
            acc: acc + concat_parts(parts),
            in_fragment: false,
            result: Ok(()),
        }),
        run_asks_more(acc, true, max, ps),
    decreases parts.len(),
{
    let p0 = ps[0];
    lemma_fu_bits(hdr, false, parts.len() == 1);
    assert(p0.len() >= 2);
    assert(p0[0] == fu_indicator(hdr));
    assert(p0[1] == fu_header(hdr, false, parts.len() == 1));
    assert(p0.skip(2) =~= parts[0]);
    assert(concat_parts(parts).len() == parts[0].len() + concat_parts(parts.skip(1)).len());
    let o = spec_push(acc, true, max, p0);
    assert(concat_parts(parts.skip(1)).len() >= 0) by {
        lemma_concat_len_nonneg(parts.skip(1));
    }
    assert(acc.len() + (p0.len() - 2) <= max);
    if parts.len() == 1 {
        assert(concat_parts(parts.skip(1)) =~= Seq::<u8>::empty());
        assert(o.acc =~= acc + concat_parts(parts));
        assert(o.result == Ok::<(), DepacketizerError>(()));
        assert(!o.in_fragment);
    } else {
        assert(o.result == Err::<(), DepacketizerError>(DepacketizerError::NeedMoreInput));
        assert(o.in_fragment);
        assert(o.acc =~= acc + parts[0]);
        assert forall|i: int| 0 <= i < ps.skip(1).len() implies #[trigger] ps.skip(1)[i]
            == fu_payload(hdr, parts.skip(1)[i], false, i == ps.skip(1).len() - 1) by {
            assert(ps.skip(1)[i] == ps[i + 1]);
            assert(parts.skip(1)[i] == parts[i + 1]);
        }
        assert((acc + parts[0]).len() + concat_parts(parts.skip(1)).len() <= max);
        lemma_fu_continuations(acc + parts[0], max, hdr, parts.skip(1), ps.skip(1));
        assert(acc + parts[0] + concat_parts(parts.skip(1)) =~= acc + concat_parts(parts));
    }
}

/// Concatenation length is the sum of the part lengths; in particular it
/// is never negative.
proof fn lemma_concat_len_nonneg(parts: Seq<Seq<u8>>)
    ensures
        concat_parts(parts).len() >= 0,
{
}

/// Depacketizer round trip: a NAL unit split into any fragments and fed
/// via `push` in order asks for more input on every non-terminal
/// fragment, completes on the last one, and leaves in the output buffer
/// exactly the bytes that pushing the unit as one payload leaves.
pub proof fn lemma_fragment_round_trip(acc: Seq<u8>, max: int, nal: Seq<u8>, parts: Seq<Seq<u8>>)
    requires
        nal.len() >= 1,
        is_single_nal(nal_type(nal[0])),
        parts.len() >= 1,
        concat_parts(parts) == nal.skip(1),
        acc.len() + 4 + nal.len() <= max,
    ensures
        push_run(acc, false, max, fu_payloads(nal[0], parts)) == (PushOutcome {
            acc: spec_push(acc, false, max, nal).acc,
            in_fragment: false,
            result: Ok(()),
        }),
        run_asks_more(acc, false, max, fu_payloads(nal[0], parts)),
        spec_push(acc, false, max, nal) == (PushOutcome {
            acc: acc + start_code() + nal,
            in_fragment: false,
            result: Ok(()),
        }),
{
    let hdr = nal[0];
    let ps = fu_payloads(hdr, parts);
    let p0 = ps[0];
    lemma_fu_bits(hdr, true, parts.len() == 1);
    assert(p0 == fu_payload(hdr, parts[0], true, parts.len() == 1));
    assert(p0.len() >= 2);
    assert(p0[0] == fu_indicator(hdr));
    assert(p0[1] == fu_header(hdr, true, parts.len() == 1));
    assert(p0.skip(2) =~= parts[0]);
    assert(!is_single_nal(nal_type(p0[0])));
    assert(concat_parts(parts).len() == nal.len() - 1);
    assert(parts[0].len() + concat_parts(parts.skip(1)).len() == nal.len() - 1);
    assert(acc.len() + 3 + p0.len() <= max);
    let o = spec_push(acc, false, max, p0);
    let rebuilt = (fu_indicator(hdr) & 0xE0) | (fu_header(hdr, true, parts.len() == 1) & 0x1F);
    assert(rebuilt == hdr);
    assert(o.acc =~= acc + start_code() + seq![hdr] + parts[0]);
    if parts.len() == 1 {
        assert(o.result == Ok::<(), DepacketizerError>(()));
        assert(!o.in_fragment);
        assert(parts[0] =~= nal.skip(1));
        assert(o.acc =~= acc + start_code() + nal);
        assert(push_run(acc, false, max, ps) == o);
    } else {
        assert(o.result == Err::<(), DepacketizerError>(DepacketizerError::NeedMoreInput));
        assert(o.in_fragment);
        assert forall|i: int| 0 <= i < ps.skip(1).len() implies #[trigger] ps.skip(1)[i]
            == fu_payload(hdr, parts.skip(1)[i], false, i == ps.skip(1).len() - 1) by {
            assert(ps.skip(1)[i] == ps[i + 1]);
            assert(parts.skip(1)[i] == parts[i + 1]);
        }
        assert(o.acc.len() + concat_parts(parts.skip(1)).len() <= max);
        lemma_fu_continuations(o.acc, max, hdr, parts.skip(1), ps.skip(1));
        assert(o.acc + concat_parts(parts.skip(1)) =~= acc + start_code() + seq![hdr] + (parts[0]
            + concat_parts(parts.skip(1))));
        assert(parts[0] + concat_parts(parts.skip(1)) =~= nal.skip(1));
        assert(acc + start_code() + seq![hdr] + nal.skip(1) =~= acc + start_code() + nal);
        assert(push_run(acc, false, max, ps) == push_run(o.acc, o.in_fragment, max, ps.skip(1)));
    }
    assert(spec_push(acc, false, max, nal).acc =~= acc + start_code() + nal);
}

} // verus!
