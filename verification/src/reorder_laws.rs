//! Delivery guarantees of the sequence reorder buffer, proved on its
//! mathematical model.
//!
//! The laws cover the three behaviours the buffer owes its consumer: an
//! in-order stream passes through unchanged, any arrival order within the
//! window is delivered in ascending sequence order, and an unrecoverable
//! gap is reported exactly once.

use vstd::prelude::*;
use crate::reorder::{
    is_min_ahead, model_insert, model_pop, model_recover, rb_inv, step_is_full, RbModel,
};
use crate::rtp::PacketModel;
use crate::seqnum::{
    lemma_ahead_after_next, lemma_ahead_seq_add, lemma_ahead_transfer, lemma_ahead_zero,
    lemma_seq_add_assoc, lemma_seq_add_one, lemma_seq_add_zero, seq_add, seq_ahead, seq_next,
};

verus! {

/// The delivered packets of one delivery attempt, as a sequence.
pub open spec fn opt_seq(o: Option<PacketModel>) -> Seq<PacketModel> {
    match o {
        Some(p) => seq![p],
        None => Seq::empty(),
    }
}

/// Feeding a stream packet by packet, attempting one delivery after each
/// arrival, and collecting what was delivered.
pub open spec fn run_in_order(m: RbModel, pkts: Seq<PacketModel>) -> (RbModel, Seq<PacketModel>)
    decreases pkts.len(),
{
    if pkts.len() == 0 {
        (m, Seq::empty())
    } else {
        let m1 = model_insert(m, pkts[0]).0;
        let m2 = model_pop(m1).0;
        let d = model_pop(m1).1;
        let r = run_in_order(m2, pkts.skip(1));
        (r.0, opt_seq(d) + r.1)
    }
}

/// Feeding a burst of packets without attempting delivery.
pub open spec fn insert_all(m: RbModel, pkts: Seq<PacketModel>) -> RbModel
    decreases pkts.len(),
{
    if pkts.len() == 0 {
        m
    } else {
        insert_all(model_insert(m, pkts[0]).0, pkts.skip(1))
    }
}

/// Delivering everything that is ready, in order.
pub open spec fn drain(m: RbModel) -> (RbModel, Seq<PacketModel>)
    decreases m.pending.dom().len()
        when m.pending.dom().finite()
{
    if m.started && m.pending.dom().contains(m.next) {
        let r = drain(model_pop(m).0);
        (r.0, seq![m.pending[m.next]] + r.1)
    } else {
        (m, Seq::empty())
    }
}

/// A packet list whose entries carry pairwise distinct sequence numbers.
pub open spec fn pkts_distinct(pkts: Seq<PacketModel>) -> bool {
    forall|i: int, j: int| 0 <= i < j < pkts.len() ==> pkts[i].seq != pkts[j].seq
}

/// Popping preserves validity of the model.
pub proof fn lemma_pop_inv(m: RbModel)
    requires
        rb_inv(m),
    ensures
        rb_inv(model_pop(m).0),
        model_pop(m).1 is Some ==> model_pop(m).0.pending.dom().len() == m.pending.dom().len() - 1,
        model_pop(m).1 is Some ==> model_pop(m).0.next == seq_add(m.next, 1),
{
    broadcast use vstd::set::group_set_axioms;

    if m.started && m.pending.dom().contains(m.next) {
        let m1 = model_pop(m).0;
        assert(m1.pending.dom() =~= m.pending.dom().remove(m.next));
        assert forall|k: u16| #[trigger] m1.pending.dom().contains(k) implies seq_ahead(m1.next, k)
            < 0x8000 by {
            assert(m.pending.dom().contains(k));
            lemma_ahead_zero(m.next, k);
            lemma_ahead_after_next(m.next, k);
        }
        lemma_seq_add_one(m.next);
    } else {
        lemma_seq_add_zero(m.next);
    }
}

/// For all sequences of packets delivered in order with no gaps, the
/// buffer yields the payloads back in exactly the same order with no
/// omissions.
pub proof fn lemma_in_order_delivery(m: RbModel, pkts: Seq<PacketModel>)
    requires
        rb_inv(m),
        m.started,
        m.pending.dom().len() == 0,
        forall|i: int| 0 <= i < pkts.len() ==> (#[trigger] pkts[i]).seq == seq_add(m.next, i),
    ensures
        run_in_order(m, pkts).1 == pkts,
        rb_inv(run_in_order(m, pkts).0),
        run_in_order(m, pkts).0.started,
        run_in_order(m, pkts).0.pending.dom().len() == 0,
        run_in_order(m, pkts).0.next == seq_add(m.next, pkts.len() as int),
        run_in_order(m, pkts).0.capacity == m.capacity,
    decreases pkts.len(),
{
    broadcast use vstd::set::group_set_axioms;

    m.pending.dom().lemma_len0_is_empty();
    if pkts.len() == 0 {
        lemma_seq_add_zero(m.next);
        assert(run_in_order(m, pkts).1 =~= pkts);
    } else {
        let p = pkts[0];
        lemma_seq_add_zero(m.next);
        assert(p.seq == m.next);
        assert(seq_ahead(m.next, p.seq) == 0);
        assert(!m.pending.dom().contains(p.seq));
        let m1 = model_insert(m, p).0;
        assert(m1.pending =~= m.pending.insert(p.seq, p));
        assert(m1.pending.dom() =~= m.pending.dom().insert(p.seq));
        assert(m1.pending.dom().contains(m.next));
        let m2 = model_pop(m1).0;
        assert(model_pop(m1).1 == Some(p));
        assert(m2.pending.dom() =~= Set::<u16>::empty());
        assert(m2.pending.dom().len() == 0);
        assert(m2.next == seq_next(m.next));
        lemma_seq_add_one(m.next);
        assert forall|i: int| 0 <= i < pkts.skip(1).len() implies (#[trigger] pkts.skip(1)[i]).seq
            == seq_add(m2.next, i) by {
            assert(pkts.skip(1)[i] == pkts[i + 1]);
            lemma_seq_add_assoc(m.next, 1, i);
        }
        lemma_in_order_delivery(m2, pkts.skip(1));
        assert(run_in_order(m, pkts).1 =~= seq![p] + run_in_order(m2, pkts.skip(1)).1);
        assert(run_in_order(m, pkts).1 =~= pkts) by {
            assert(run_in_order(m2, pkts.skip(1)).1 == pkts.skip(1));
        }
        lemma_seq_add_assoc(m.next, 1, pkts.len() - 1);
    }
}

/// Feeding a burst of fresh in-window packets stores every one of them
/// and nothing else changes: the cursor stays put and the window holds
/// exactly the burst on top of what was already pending.
pub proof fn lemma_insert_all_pending(m: RbModel, pkts: Seq<PacketModel>)
    requires
        rb_inv(m),
        m.started,
        pkts_distinct(pkts),
        m.pending.dom().len() + pkts.len() <= m.capacity,
        forall|i: int| 0 <= i < pkts.len() ==> !m.pending.dom().contains(
            (#[trigger] pkts[i]).seq,
        ),
        forall|i: int| 0 <= i < pkts.len() ==> seq_ahead(m.next, (#[trigger] pkts[i]).seq) < 0x8000,
    ensures
        rb_inv(insert_all(m, pkts)),
        insert_all(m, pkts).started,
        insert_all(m, pkts).next == m.next,
        insert_all(m, pkts).capacity == m.capacity,
        insert_all(m, pkts).pending.dom().len() == m.pending.dom().len() + pkts.len(),
        forall|k: u16| #[trigger] insert_all(m, pkts).pending.dom().contains(k) <==> (
        m.pending.dom().contains(k) || exists|i: int|
            0 <= i < pkts.len() && (#[trigger] pkts[i]).seq == k),
        forall|k: u16| m.pending.dom().contains(k) ==> #[trigger] insert_all(m, pkts).pending[k]
            == m.pending[k],
        forall|i: int| 0 <= i < pkts.len() ==> #[trigger] insert_all(m, pkts).pending[pkts[i].seq]
            == pkts[i],
    decreases pkts.len(),
{
    broadcast use vstd::set::group_set_axioms;

    if pkts.len() > 0 {
        let p = pkts[0];
        let m1 = model_insert(m, p).0;
        assert(model_insert(m, p).1 == crate::reorder::InsertOutcome::Stored);
        assert(m1.pending =~= m.pending.insert(p.seq, p));
        assert(m1.pending.dom() =~= m.pending.dom().insert(p.seq));
        assert(rb_inv(m1));
        assert forall|i: int| 0 <= i < pkts.skip(1).len() implies !m1.pending.dom().contains(
            (#[trigger] pkts.skip(1)[i]).seq,
        ) by {
            assert(pkts.skip(1)[i] == pkts[i + 1]);
        }
        assert forall|i: int| 0 <= i < pkts.skip(1).len() implies seq_ahead(
            m1.next,
            (#[trigger] pkts.skip(1)[i]).seq,
        ) < 0x8000 by {
            assert(pkts.skip(1)[i] == pkts[i + 1]);
        }
        assert(pkts_distinct(pkts.skip(1))) by {
            assert forall|i: int, j: int| 0 <= i < j < pkts.skip(1).len() implies pkts.skip(
                1,
            )[i].seq != pkts.skip(1)[j].seq by {
                assert(pkts.skip(1)[i] == pkts[i + 1]);
                assert(pkts.skip(1)[j] == pkts[j + 1]);
            }
        }
        lemma_insert_all_pending(m1, pkts.skip(1));
        let mf = insert_all(m, pkts);
        assert forall|k: u16| #[trigger] mf.pending.dom().contains(k) implies (
        m.pending.dom().contains(k) || exists|i: int|
            0 <= i < pkts.len() && (#[trigger] pkts[i]).seq == k) by {
            if m1.pending.dom().contains(k) && !m.pending.dom().contains(k) {
                assert(pkts[0].seq == k);
            } else if !m1.pending.dom().contains(k) {
                let i = choose|i: int|
                    0 <= i < pkts.skip(1).len() && (#[trigger] pkts.skip(1)[i]).seq == k;
                assert(pkts[i + 1].seq == k);
            }
        }
        assert forall|k: u16| (m.pending.dom().contains(k) || exists|i: int|
            0 <= i < pkts.len() && (#[trigger] pkts[i]).seq == k) implies
            #[trigger] mf.pending.dom().contains(k) by {
            if m.pending.dom().contains(k) {
                assert(m1.pending.dom().contains(k));
            } else {
                let i = choose|i: int| 0 <= i < pkts.len() && (#[trigger] pkts[i]).seq == k;
                if i == 0 {
                    assert(m1.pending.dom().contains(k));
                } else {
                    assert(pkts.skip(1)[i - 1].seq == k);
                }
            }
        }
        assert forall|i: int| 0 <= i < pkts.len() implies #[trigger] mf.pending[pkts[i].seq]
            == pkts[i] by {
            if i == 0 {
                assert(m1.pending.dom().contains(p.seq));
                assert(m1.pending[p.seq] == p);
            } else {
                assert(pkts.skip(1)[i - 1] == pkts[i]);
            }
        }
    }
}

/// Two arrival orders of the same packet burst leave the buffer in the
/// same state.
pub proof fn lemma_insert_all_permutation(
    m: RbModel,
    arrival1: Seq<PacketModel>,
    arrival2: Seq<PacketModel>,
)
    requires
        rb_inv(m),
        m.started,
        m.pending.dom().len() == 0,
        pkts_distinct(arrival1),
        arrival1.len() <= m.capacity,
        forall|i: int| 0 <= i < arrival1.len() ==> seq_ahead(m.next, (#[trigger] arrival1[i]).seq)
            < 0x8000,
        arrival1.to_multiset() == arrival2.to_multiset(),
    ensures
        insert_all(m, arrival1) == insert_all(m, arrival2),
{
    broadcast use vstd::set::group_set_axioms;
    broadcast use vstd::seq_lib::group_to_multiset_ensures;

    m.pending.dom().lemma_len0_is_empty();
    assert(arrival1.len() == arrival2.len()) by {
        assert(arrival1.to_multiset().len() == arrival1.len());
        assert(arrival2.to_multiset().len() == arrival2.len());
    }
    assert forall|i: int| 0 <= i < arrival2.len() implies arrival1.contains(
        #[trigger] arrival2[i],
    ) by {
        assert(arrival2.to_multiset().count(arrival2[i]) > 0);
    }
    assert(pkts_distinct(arrival2)) by {
        assert forall|i: int, j: int| 0 <= i < j < arrival2.len() implies arrival2[i].seq
            != arrival2[j].seq by {
            if arrival2[i].seq == arrival2[j].seq {
                if arrival2[i] == arrival2[j] {
                    let x = arrival2[i];
                    lemma_duplicate_count(arrival2, i, j);
                    assert(arrival1.to_multiset().count(x) >= 2);
                    let a = choose|a: int| 0 <= a < arrival1.len() && arrival1[a] == x;
                    assert(arrival1.remove(a).to_multiset() =~= arrival1.to_multiset().remove(x));
                    assert(arrival1.remove(a).to_multiset().count(x) > 0);
                    assert(arrival1.remove(a).contains(x));
                    let b = choose|b: int| 0 <= b < arrival1.remove(a).len() && arrival1.remove(
                        a,
                    )[b] == x;
                    if b < a {
                        assert(arrival1[b] == x);
                    } else {
                        assert(arrival1[b + 1] == x);
                    }
                } else {
                    assert(arrival1.contains(arrival2[i]));
                    assert(arrival1.contains(arrival2[j]));
                    let a = choose|a: int| 0 <= a < arrival1.len() && arrival1[a] == arrival2[i];
                    let b = choose|b: int| 0 <= b < arrival1.len() && arrival1[b] == arrival2[j];
                    assert(a != b);
                }
            }
        }
    }
    assert forall|i: int| 0 <= i < arrival2.len() implies seq_ahead(
        m.next,
        (#[trigger] arrival2[i]).seq,
    ) < 0x8000 by {
        let j = choose|j: int| 0 <= j < arrival1.len() && arrival1[j] == arrival2[i];
    }
    lemma_insert_all_pending(m, arrival1);
    lemma_insert_all_pending(m, arrival2);
    let m1 = insert_all(m, arrival1);
    let m2 = insert_all(m, arrival2);
    assert forall|k: u16| #[trigger] m1.pending.dom().contains(k) implies
        m2.pending.dom().contains(k) && m2.pending[k] == m1.pending[k] by {
        let i = choose|i: int| 0 <= i < arrival1.len() && (#[trigger] arrival1[i]).seq == k;
        let x = arrival1[i];
        assert(arrival1.to_multiset().count(x) > 0);
        assert(arrival2.contains(x));
        let j = choose|j: int| 0 <= j < arrival2.len() && arrival2[j] == x;
        assert(m2.pending[x.seq] == x);
        assert(m1.pending[x.seq] == x);
    }
    assert forall|k: u16| #[trigger] m2.pending.dom().contains(k) implies
        m1.pending.dom().contains(k) by {
        let i = choose|i: int| 0 <= i < arrival2.len() && (#[trigger] arrival2[i]).seq == k;
        let x = arrival2[i];
        let j = choose|j: int| 0 <= j < arrival1.len() && arrival1[j] == x;
    }
    assert(m1.pending =~= m2.pending);
}

/// A value occurring at two positions of a list is counted at least twice
/// in its multiset.
proof fn lemma_duplicate_count(s: Seq<PacketModel>, i: int, j: int)
    requires
        0 <= i < j < s.len(),
        s[i] == s[j],
    ensures
        s.to_multiset().count(s[i]) >= 2,
{
    broadcast use vstd::seq_lib::group_to_multiset_ensures;
    broadcast use vstd::multiset::group_multiset_axioms;

    let x = s[i];
    let t = s.remove(j);
    assert(t.to_multiset() =~= s.to_multiset().remove(x));
    assert(t[i] == x);
    assert(t.contains(x));
    assert(t.to_multiset().count(x) > 0);
    assert(s.to_multiset().count(x) == t.to_multiset().count(x) + 1);
}

/// Whatever the buffer holds, a drain delivers consecutive sequence
/// numbers starting at the cursor: delivery is always in ascending order.
pub proof fn lemma_drain_consecutive(m: RbModel)
    requires
        rb_inv(m),
    ensures
        forall|i: int| 0 <= i < drain(m).1.len() ==> (#[trigger] drain(m).1[i]).seq == seq_add(
            m.next,
            i,
        ),
        forall|i: int| 0 <= i < drain(m).1.len() ==> m.pending.dom().contains(
            #[trigger] seq_add(m.next, i),
        ),
        forall|i: int| 0 <= i < drain(m).1.len() ==> #[trigger] drain(m).1[i] == m.pending[seq_add(
            m.next,
            i,
        )],
        rb_inv(drain(m).0),
        drain(m).0.pending.dom().len() == m.pending.dom().len() - drain(m).1.len(),
        drain(m).0.started == m.started,
        drain(m).0.capacity == m.capacity,
        drain(m).1.len() <= m.pending.dom().len(),
    decreases m.pending.dom().len(),
{
    broadcast use vstd::set::group_set_axioms;

    if m.started && m.pending.dom().contains(m.next) {
        lemma_pop_inv(m);
        let m1 = model_pop(m).0;
        lemma_drain_consecutive(m1);
        let out = drain(m).1;
        let out1 = drain(m1).1;
        assert(out =~= seq![m.pending[m.next]] + out1);
        lemma_seq_add_zero(m.next);
        lemma_seq_add_one(m.next);
        assert forall|i: int| 0 <= i < out.len() implies (#[trigger] out[i]).seq == seq_add(
            m.next,
            i,
        ) by {
            if i > 0 {
                assert(out[i] == out1[i - 1]);
                assert(out1[i - 1].seq == seq_add(m1.next, i - 1));
                lemma_seq_add_assoc(m.next, 1, i - 1);
            }
        }
        assert forall|i: int| 0 <= i < drain(m).1.len() implies m.pending.dom().contains(
            #[trigger] seq_add(m.next, i),
        ) && drain(m).1[i] == m.pending[seq_add(m.next, i)] by {
            if i == 0 {
                assert(seq_add(m.next, 0) == m.next);
                assert(out[0] == m.pending[m.next]);
            }
            if i > 0 {
                assert(out[i] == out1[i - 1]);
                assert(m1.pending.dom().contains(seq_add(m1.next, i - 1)));
                assert(out1[i - 1] == m1.pending[seq_add(m1.next, i - 1)]);
                lemma_seq_add_assoc(m.next, 1, i - 1);
                assert(m1.pending =~= m.pending.remove(m.next));
            }
        }
    }
}

/// When the window holds exactly a contiguous run starting at the cursor,
/// a drain delivers all of it and empties the window.
pub proof fn lemma_drain_complete(m: RbModel, k: int)
    requires
        rb_inv(m),
        m.started,
        0 <= k < 0x8000,
        m.pending.dom().len() == k,
        forall|i: int| 0 <= i < k ==> m.pending.dom().contains(#[trigger] seq_add(m.next, i)),
    ensures
        drain(m).1.len() == k,
        drain(m).0.pending.dom().len() == 0,
    decreases k,
{
    broadcast use vstd::set::group_set_axioms;

    if k == 0 {
        m.pending.dom().lemma_len0_is_empty();
    } else {
        lemma_seq_add_zero(m.next);
        assert(m.pending.dom().contains(seq_add(m.next, 0)));
        assert(m.pending.dom().contains(m.next));
        lemma_pop_inv(m);
        let m1 = model_pop(m).0;
        assert(m1.pending =~= m.pending.remove(m.next));
        assert forall|i: int| 0 <= i < k - 1 implies m1.pending.dom().contains(
            #[trigger] seq_add(m1.next, i),
        ) by {
            lemma_seq_add_assoc(m.next, 1, i);
            assert(seq_add(m1.next, i) == seq_add(m.next, i + 1));
            assert(m.pending.dom().contains(seq_add(m.next, i + 1)));
            lemma_ahead_seq_add(m.next, i + 1);
            lemma_ahead_zero(m.next, seq_add(m.next, i + 1));
            assert(seq_add(m.next, i + 1) != m.next);
        }
        lemma_drain_complete(m1, k - 1);
    }
}

/// For any arrival order of a contiguous packet burst within the window,
/// the buffer yields exactly the burst, in ascending sequence order.
pub proof fn lemma_permutation_delivery(
    m: RbModel,
    pkts: Seq<PacketModel>,
    arrival: Seq<PacketModel>,
)
    requires
        rb_inv(m),
        m.started,
        m.pending.dom().len() == 0,
        forall|i: int| 0 <= i < pkts.len() ==> (#[trigger] pkts[i]).seq == seq_add(m.next, i),
        pkts.len() <= m.capacity,
        arrival.to_multiset() == pkts.to_multiset(),
    ensures
        drain(insert_all(m, arrival)).1 == pkts,
        drain(insert_all(m, arrival)).0.pending.dom().len() == 0,
{
    broadcast use vstd::set::group_set_axioms;

    assert(pkts_distinct(pkts)) by {
        assert forall|i: int, j: int| 0 <= i < j < pkts.len() implies pkts[i].seq
            != pkts[j].seq by {
            lemma_ahead_seq_add(m.next, i);
            lemma_ahead_seq_add(m.next, j);
            assert(pkts[i].seq == seq_add(m.next, i));
        }
    }
    assert forall|i: int| 0 <= i < pkts.len() implies seq_ahead(m.next, (#[trigger] pkts[i]).seq)
        < 0x8000 by {
        lemma_ahead_seq_add(m.next, i);
    }
    m.pending.dom().lemma_len0_is_empty();
    lemma_insert_all_permutation(m, pkts, arrival);
    lemma_insert_all_pending(m, pkts);
    let mm = insert_all(m, pkts);
    assert forall|i: int| 0 <= i < pkts.len() implies mm.pending.dom().contains(
        #[trigger] seq_add(m.next, i),
    ) by {
        assert(pkts[i].seq == seq_add(m.next, i));
    }
    lemma_drain_complete(mm, pkts.len() as int);
    lemma_drain_consecutive(mm);
    let out = drain(mm).1;
    assert forall|i: int| 0 <= i < out.len() implies #[trigger] out[i] == pkts[i] by {
        assert(out[i] == mm.pending[seq_add(mm.next, i)]);
        assert(mm.pending[pkts[i].seq] == pkts[i]);
    }
    assert(out =~= pkts);
}

/// A full window with a missing cursor packet is reported exactly once:
/// the report itself moves the cursor to the closest buffered packet, so
/// the very next delivery attempt yields a packet, and nothing buffered
/// is dropped on the way.
pub proof fn lemma_full_reported_once(m: RbModel)
    requires
        rb_inv(m),
        step_is_full(m),
    ensures
        model_recover(m).pending == m.pending,
        rb_inv(model_recover(m)),
        model_pop(model_recover(m)).1 is Some,
        !step_is_full(model_recover(m)),
{
    broadcast use vstd::set::group_set_axioms;

    assert(m.pending.dom().len() > 0);
    lemma_set_min_ahead(m.pending.dom(), m.next);
    let k0 = choose|k: u16| is_min_ahead(m, k);
    assert(is_min_ahead(m, k0)) by {
        let w = choose|w: u16|
            m.pending.dom().contains(w) && forall|j: u16|
                #[trigger] m.pending.dom().contains(j) ==> seq_ahead(m.next, w) <= seq_ahead(
                    m.next,
                    j,
                );
        assert(is_min_ahead(m, w));
    }
    let mr = model_recover(m);
    assert(mr.next == k0);
    assert(mr.pending.dom().contains(mr.next));
    assert forall|k: u16| #[trigger] mr.pending.dom().contains(k) implies seq_ahead(mr.next, k)
        < 0x8000 by {
        lemma_ahead_transfer(m.next, k0, k);
    }
}

/// Every finite non-empty set of sequence numbers has a member closest
/// ahead of a base.
proof fn lemma_set_min_ahead(s: Set<u16>, base: u16)
    requires
        s.finite(),
        s.len() > 0,
    ensures
        exists|k: u16|
            s.contains(k) && forall|j: u16| #[trigger] s.contains(j) ==> seq_ahead(base, k)
                <= seq_ahead(base, j),
    decreases s.len(),
{
    broadcast use vstd::set::group_set_axioms;

    let x = s.choose();
    assert(s.contains(x));
    let s2 = s.remove(x);
    if s2.len() == 0 {
        s2.lemma_len0_is_empty();
        assert(s.contains(x) && forall|j: u16| #[trigger] s.contains(j) ==> seq_ahead(base, x)
            <= seq_ahead(base, j)) by {
            assert forall|j: u16| #[trigger] s.contains(j) implies seq_ahead(base, x) <= seq_ahead(
                base,
                j,
            ) by {
                if j != x {
                    assert(s2.contains(j));
                }
            }
        }
    } else {
        lemma_set_min_ahead(s2, base);
        let k2 = choose|k: u16|
            s2.contains(k) && forall|j: u16| #[trigger] s2.contains(j) ==> seq_ahead(base, k)
                <= seq_ahead(base, j);
        if seq_ahead(base, x) < seq_ahead(base, k2) {
            assert(s.contains(x) && forall|j: u16| #[trigger] s.contains(j) ==> seq_ahead(base, x)
                <= seq_ahead(base, j)) by {
                assert forall|j: u16| #[trigger] s.contains(j) implies seq_ahead(base, x)
                    <= seq_ahead(base, j) by {
                    if j != x {
                        assert(s2.contains(j));
                    }
                }
            }
        } else {
            assert(s.contains(k2) && forall|j: u16| #[trigger] s.contains(j) ==> seq_ahead(base, k2)
                <= seq_ahead(base, j)) by {
                assert forall|j: u16| #[trigger] s.contains(j) implies seq_ahead(base, k2)
                    <= seq_ahead(base, j) by {
                    if j != x {
                        assert(s2.contains(j));
                    }
                }
            }
        }
    }
}

} // verus!
