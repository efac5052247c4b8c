//! The sequence reorder buffer.
//!
//! Incoming packets of one track are held in a bounded window keyed by
//! their 16-bit sequence number and released in strictly increasing
//! wraparound order.  When the window fills without the next expected
//! number being present, the gap is unrecoverable: the buffer reports it
//! once and restarts delivery at the closest buffered packet.

use vstd::prelude::*;
use crate::rtp::{Packet, PacketModel, parse_rtp, parse_rtp_spec, rtp_well_formed};
use crate::seqnum::{
    lemma_ahead_after_next, lemma_ahead_injective, lemma_ahead_transfer, lemma_ahead_zero,
    seq_ahead, seq_ahead_exec, seq_next, seq_next_exec,
};

verus! {

/// Errors of the reorder buffer, as the feeder loop sees them.
#[derive(Debug, Clone, Copy, PartialEq, Eq, Structural)]
pub enum ReorderBufferError {
    /// A pulled datagram was not a well-formed RTP packet.
    HeaderParsingError,
    /// The track read failed or the track disconnected.
    TrackRemoteReadError,
    /// The track read timed out; benign, lets the caller re-check its exit
    /// flag.
    TrackRemoteReadTimeout,
    /// The delivered packet carries no payload; benign, not loss.
    PacketTooShort,
    /// The window filled without the next expected sequence number: data
    /// was lost and delivery restarts past the gap.
    BufferFull,
}

/// What an insertion did.
#[derive(Debug, Clone, Copy, PartialEq, Eq, Structural)]
pub enum InsertOutcome {
    /// The packet was added to the window.
    Stored,
    /// A packet with the same sequence number was replaced.
    Replaced,
    /// The packet lies behind the delivery cursor and was dropped.
    Stale,
    /// The window is at capacity; the packet was not stored.
    WindowExhausted,
}

/// What one delivery attempt yielded.
pub enum RecvStep {
    /// The next expected packet, in order.
    Deliver(Packet),
    /// Nothing deliverable yet: pull another packet from the track.
    NeedRead,
    /// The window is full and the next expected number is missing: an
    /// unrecoverable gap.  Delivery has been restarted at the closest
    /// buffered packet.
    Full,
}

/// The mathematical state of a reorder buffer.
pub ghost struct RbModel {
    /// Window capacity.
    pub capacity: int,
    /// Whether the first packet has arrived and fixed the cursor.
    pub started: bool,
    /// The next sequence number owed to the consumer.
    pub next: u16,
    /// The buffered packets, keyed by sequence number.
    pub pending: Map<u16, PacketModel>,
}

/// Validity of a model state: a positive capacity below half the sequence
/// circle, a window within capacity whose keys match their packets, and no
/// buffered packet behind the cursor.
pub open spec fn rb_inv(m: RbModel) -> bool {
    &&& 0 < m.capacity < 0x8000
    &&& m.pending.dom().finite()
    &&& m.pending.dom().len() <= m.capacity
    &&& forall|k: u16| #[trigger] m.pending.dom().contains(k) ==> m.pending[k].seq == k
    &&& (m.started ==> forall|k: u16|
        #[trigger] m.pending.dom().contains(k) ==> seq_ahead(m.next, k) < 0x8000)
    &&& (!m.started ==> m.pending.dom().len() == 0)
}

/// Inserting a packet: the first packet fixes the cursor; packets behind
/// the cursor are stale; a duplicate sequence number replaces; a full
/// window refuses.
pub open spec fn model_insert(m: RbModel, p: PacketModel) -> (RbModel, InsertOutcome) {
    if !m.started {
        (
            RbModel {
                started: true,
                next: p.seq,
                pending: Map::empty().insert(p.seq, p),
                ..m
            },
            InsertOutcome::Stored,
        )
    } else if seq_ahead(m.next, p.seq) >= 0x8000 {
        (m, InsertOutcome::Stale)
    } else if m.pending.dom().contains(p.seq) {
        (RbModel { pending: m.pending.insert(p.seq, p), ..m }, InsertOutcome::Replaced)
    } else if m.pending.dom().len() >= m.capacity {
        (m, InsertOutcome::WindowExhausted)
    } else {
        (RbModel { pending: m.pending.insert(p.seq, p), ..m }, InsertOutcome::Stored)
    }
}

/// Delivering: exactly the packet at the cursor leaves the window, and the
/// cursor advances by one.
pub open spec fn model_pop(m: RbModel) -> (RbModel, Option<PacketModel>) {
    if m.started && m.pending.dom().contains(m.next) {
        (
            RbModel { next: seq_next(m.next), pending: m.pending.remove(m.next), ..m },
            Some(m.pending[m.next]),
        )
    } else {
        (m, None)
    }
}

/// `k` is the buffered sequence number closest ahead of the cursor.
pub open spec fn is_min_ahead(m: RbModel, k: u16) -> bool {
    &&& m.pending.dom().contains(k)
    &&& forall|j: u16| #[trigger] m.pending.dom().contains(j) ==> seq_ahead(m.next, k) <= seq_ahead(
        m.next,
        j,
    )
}

/// Restarting after an unrecoverable gap: the cursor jumps to the closest
/// buffered packet.  Nothing buffered is dropped.
pub open spec fn model_recover(m: RbModel) -> RbModel {
    RbModel { next: choose|k: u16| is_min_ahead(m, k), ..m }
}

/// The condition under which a delivery attempt reports the full window.
pub open spec fn step_is_full(m: RbModel) -> bool {
    m.started && !m.pending.dom().contains(m.next) && m.pending.dom().len() >= m.capacity
}

/// Whether some slot holds the sequence number `k`.
pub open spec fn has_seq(s: Seq<Packet>, k: u16) -> bool {
    exists|i: int| 0 <= i < s.len() && s[i].seq == k
}

/// All slots hold distinct sequence numbers.
pub open spec fn seqs_distinct(s: Seq<Packet>) -> bool {
    forall|i: int, j: int| 0 <= i < j < s.len() ==> s[i].seq != s[j].seq
}

/// The window as a map from sequence number to packet.
pub open spec fn slots_to_map(s: Seq<Packet>) -> Map<u16, PacketModel>
    decreases s.len(),
{
    if s.len() == 0 {
        Map::empty()
    } else {
        slots_to_map(s.drop_last()).insert(s.last().seq, s.last()@)
    }
}

/// Core facts about the window map of a duplicate-free slot vector: its
/// domain is finite, exactly as large as the vector, holds exactly the
/// stored sequence numbers, and maps each to its packet.
proof fn lemma_slots_map_props(s: Seq<Packet>)
    requires
        seqs_distinct(s),
    ensures
        slots_to_map(s).dom().finite(),
        slots_to_map(s).dom().len() == s.len(),
        forall|k: u16| #[trigger] slots_to_map(s).dom().contains(k) <==> has_seq(s, k),
        forall|i: int| 0 <= i < s.len() ==> #[trigger] slots_to_map(s)[s[i].seq] == s[i]@,
    decreases s.len(),
{
    if s.len() > 0 {
        let s0 = s.drop_last();
        assert(seqs_distinct(s0));
        lemma_slots_map_props(s0);
        assert(!has_seq(s0, s.last().seq)) by {
            if has_seq(s0, s.last().seq) {
                let i = choose|i: int| 0 <= i < s0.len() && s0[i].seq == s.last().seq;
                assert(s[i].seq == s[s.len() - 1].seq);
            }
        }
        assert forall|k: u16| #[trigger] slots_to_map(s).dom().contains(k) <==> has_seq(s, k) by {
            if slots_to_map(s).dom().contains(k) {
                if k == s.last().seq {
                    assert(s[s.len() - 1].seq == k);
                } else {
                    let i = choose|i: int| 0 <= i < s0.len() && s0[i].seq == k;
                    assert(s[i].seq == k);
                }
            }
            if has_seq(s, k) {
                let i = choose|i: int| 0 <= i < s.len() && s[i].seq == k;
                if i < s.len() - 1 {
                    assert(s0[i].seq == k);
                }
            }
        }
        assert forall|i: int| 0 <= i < s.len() implies #[trigger] slots_to_map(s)[s[i].seq]
            == s[i]@ by {
            if i < s.len() - 1 {
                assert(s0[i].seq == s[i].seq && s0[i] == s[i]);
                assert(s[i].seq != s.last().seq);
            }
        }
    }
}

/// Replacing the packet in one slot replaces one map entry.
proof fn lemma_slots_map_update(s: Seq<Packet>, i: int, p: Packet)
    requires
        seqs_distinct(s),
        0 <= i < s.len(),
        s[i].seq == p.seq,
    ensures
        slots_to_map(s.update(i, p)) =~= slots_to_map(s).insert(p.seq, p@),
    decreases s.len(),
{
    lemma_slots_map_props(s);
    let su = s.update(i, p);
    if i == s.len() - 1 {
        assert(su.drop_last() =~= s.drop_last());
        assert(su.last() == p);
    } else {
        let s0 = s.drop_last();
        assert(su.drop_last() =~= s0.update(i, p));
        assert(seqs_distinct(s0));
        assert(s0[i] == s[i]);
        lemma_slots_map_update(s0, i, p);
        assert(su.last() == s.last());
        assert(s.last().seq != p.seq);
    }
}

/// Removing one slot removes one map entry.
proof fn lemma_slots_map_remove(s: Seq<Packet>, i: int)
    requires
        seqs_distinct(s),
        0 <= i < s.len(),
    ensures
        slots_to_map(s.remove(i)) =~= slots_to_map(s).remove(s[i].seq),
    decreases s.len(),
{
    lemma_slots_map_props(s);
    let sr = s.remove(i);
    s.remove_ensures(i);
    if i == s.len() - 1 {
        assert(sr =~= s.drop_last());
        assert(!has_seq(s.drop_last(), s[i].seq)) by {
            if has_seq(s.drop_last(), s[i].seq) {
                let j = choose|j: int|
                    0 <= j < s.drop_last().len() && s.drop_last()[j].seq == s[i].seq;
                assert(s[j].seq == s[i].seq);
            }
        }
        assert(seqs_distinct(s.drop_last()));
        lemma_slots_map_props(s.drop_last());
    } else {
        let s0 = s.drop_last();
        assert(sr.drop_last() =~= s0.remove(i));
        assert(seqs_distinct(s0));
        assert(s0[i] == s[i]);
        lemma_slots_map_remove(s0, i);
        assert(sr.last() == s.last());
        assert(s.last().seq != s[i].seq);
    }
}

/// The sequence reorder buffer of one track.
pub struct ReorderBuffer {
    capacity: usize,
    started: bool,
    next_seq: u16,
    slots: Vec<Packet>,
}

impl View for ReorderBuffer {
    type V = RbModel;

    closed spec fn view(&self) -> RbModel {
        RbModel {
            capacity: self.capacity as int,
            started: self.started,
            next: self.next_seq,
            pending: slots_to_map(self.slots@),
        }
    }
}

impl ReorderBuffer {
    /// Concrete well-formedness: the window respects capacity, holds
    /// distinct sequence numbers, and never holds a packet behind the
    /// cursor.
    pub closed spec fn wf(&self) -> bool {
        &&& 0 < self.capacity < 0x8000
        &&& self.slots@.len() <= self.capacity
        &&& seqs_distinct(self.slots@)
        &&& (self.started ==> forall|i: int|
            0 <= i < self.slots@.len() ==> seq_ahead(self.next_seq, #[trigger] self.slots@[i].seq)
                < 0x8000)
        &&& (!self.started ==> self.slots@.len() == 0)
    }

    /// A well-formed buffer denotes a valid model state.
    pub proof fn lemma_wf_inv(&self)
        requires
            self.wf(),
        ensures
            rb_inv(self@),
    {
        lemma_slots_map_props(self.slots@);
        assert forall|k: u16| #[trigger] self@.pending.dom().contains(k) implies self@.pending[k].seq
            == k by {
            let i = choose|i: int| 0 <= i < self.slots@.len() && self.slots@[i].seq == k;
            assert(self@.pending[self.slots@[i].seq] == self.slots@[i]@);
        }
        if self.started {
            assert forall|k: u16| #[trigger] self@.pending.dom().contains(k) implies seq_ahead(
                self@.next,
                k,
            ) < 0x8000 by {
                let i = choose|i: int| 0 <= i < self.slots@.len() && self.slots@[i].seq == k;
            }
        }
    }

    /// Create an empty buffer with the given window capacity.
    pub fn new(capacity: usize) -> (r: ReorderBuffer)
        requires
            0 < capacity < 0x8000,
        ensures
            r.wf(),
            r@.capacity == capacity,
            !r@.started,
            r@.pending.dom().len() == 0,
    {
        let r = ReorderBuffer { capacity, started: false, next_seq: 0, slots: Vec::new() };
        proof {
            lemma_slots_map_props(r.slots@);
        }
        r
    }

    /// The window capacity.
    pub fn capacity(&self) -> (r: usize)
        ensures
            r == self@.capacity,
    {
        self.capacity
    }

    /// The index of the slot holding `seq`, if any.
    fn find_seq(&self, seq: u16) -> (r: Option<usize>)
        ensures
            match r {
                Some(i) => i < self.slots@.len() && self.slots@[i as int].seq == seq,
                None => !has_seq(self.slots@, seq),
            },
    {
        let mut i: usize = 0;
        while i < self.slots.len()
            invariant
                i <= self.slots@.len(),
                forall|j: int| 0 <= j < i ==> self.slots@[j].seq != seq,
            decreases self.slots@.len() - i,
        {
            if self.slots[i].seq == seq {
                return Some(i);
            }
            i += 1;
        }
        None
    }

    /// Insert a packet pulled from the track.
    pub fn insert(&mut self, p: Packet) -> (r: InsertOutcome)
        requires
            old(self).wf(),
        ensures
            final(self).wf(),
            final(self)@ == model_insert(old(self)@, p@).0,
            r == model_insert(old(self)@, p@).1,
    {
        proof {
            lemma_slots_map_props(self.slots@);
        }
        if !self.started {
            self.started = true;
            self.next_seq = p.seq;
            let ghost oldslots = self.slots@;
            self.slots.push(p);
            proof {
                assert(self.slots@.drop_last() =~= oldslots);
                assert(slots_to_map(self.slots@) =~= Map::empty().insert(p.seq, p@));
            }
            return InsertOutcome::Stored;
        }
        let d = seq_ahead_exec(self.next_seq, p.seq);
        if d >= 0x8000 {
            return InsertOutcome::Stale;
        }
        match self.find_seq(p.seq) {
            Some(i) => {
                let ghost oldslots = self.slots@;
                let _replaced = self.slots.remove(i);
                self.slots.push(p);
                proof {
                    oldslots.remove_ensures(i as int);
                    assert(seqs_distinct(oldslots.remove(i as int)));
                    assert(self.slots@.drop_last() =~= oldslots.remove(i as int));
                    lemma_slots_map_remove(oldslots, i as int);
                    assert(slots_to_map(self.slots@) =~= slots_to_map(oldslots).insert(
                        p.seq,
                        p@,
                    ));
                    assert(seqs_distinct(self.slots@)) by {
                        assert(forall|j: int|
                            0 <= j < oldslots.remove(i as int).len() ==> #[trigger] oldslots.remove(
                                i as int,
                            )[j].seq != p.seq);
                    }
                    if self.started {
                        assert(forall|j: int|
                            0 <= j < self.slots@.len() ==> seq_ahead(
                                self.next_seq,
                                #[trigger] self.slots@[j].seq,
                            ) < 0x8000);
                    }
                }
                InsertOutcome::Replaced
            },
            None => {
                if self.slots.len() >= self.capacity {
                    return InsertOutcome::WindowExhausted;
                }
                let ghost oldslots = self.slots@;
                self.slots.push(p);
                proof {
                    assert(self.slots@.drop_last() =~= oldslots);
                    assert(slots_to_map(self.slots@) =~= slots_to_map(oldslots).insert(
                        p.seq,
                        p@,
                    ));
                }
                InsertOutcome::Stored
            },
        }
    }

    /// Deliver the packet at the cursor, if it has arrived.
    pub fn pop_ready(&mut self) -> (r: Option<Packet>)
        requires
            old(self).wf(),
        ensures
            final(self).wf(),
            final(self)@ == model_pop(old(self)@).0,
            r is Some <==> model_pop(old(self)@).1 is Some,
            r matches Some(p) ==> model_pop(old(self)@).1 == Some(p@),
    {
        proof {
            lemma_slots_map_props(self.slots@);
        }
        if !self.started {
            return None;
        }
        match self.find_seq(self.next_seq) {
            None => None,
            Some(i) => {
                let ghost oldslots = self.slots@;
                let ghost oldnext = self.next_seq;
                let p = self.slots.remove(i);
                self.next_seq = seq_next_exec(self.next_seq);
                proof {
                    lemma_slots_map_remove(oldslots, i as int);
                    oldslots.remove_ensures(i as int);
                    assert(seqs_distinct(self.slots@));
                    assert forall|j: int| 0 <= j < self.slots@.len() implies seq_ahead(
                        self.next_seq,
                        #[trigger] self.slots@[j].seq,
                    ) < 0x8000 by {
                        assert(seq_ahead(oldnext, self.slots@[j].seq) < 0x8000);
                        assert(self.slots@[j].seq != oldnext) by {
                            if self.slots@[j].seq == oldnext {
                                if j < i {
                                    assert(oldslots[j].seq == oldnext);
                                } else {
                                    assert(oldslots[j + 1].seq == oldnext);
                                }
                            }
                        }
                        lemma_ahead_zero(oldnext, self.slots@[j].seq);
                        lemma_ahead_after_next(oldnext, self.slots@[j].seq);
                    }
                }
                Some(p)
            },
        }
    }

    /// Restart delivery at the buffered packet closest ahead of the
    /// cursor.  Nothing buffered is dropped.
    fn recover(&mut self)
        requires
            old(self).wf(),
            old(self).started,
            old(self).slots@.len() > 0,
        ensures
            final(self).wf(),
            final(self)@ == model_recover(old(self)@),
    {
        let ghost m = self@;
        proof {
            lemma_slots_map_props(self.slots@);
        }
        let mut best: usize = 0;
        let mut best_d: u32 = seq_ahead_exec(self.next_seq, self.slots[0].seq);
        let mut i: usize = 1;
        while i < self.slots.len()
            invariant
                best < self.slots@.len(),
                i <= self.slots@.len(),
                best_d == seq_ahead(self.next_seq, self.slots@[best as int].seq),
                forall|j: int| 0 <= j < i ==> seq_ahead(self.next_seq, #[trigger] self.slots@[j].seq)
                    >= best_d,
            decreases self.slots@.len() - i,
        {
            let d = seq_ahead_exec(self.next_seq, self.slots[i].seq);
            if d < best_d {
                best = i;
                best_d = d;
            }
            i += 1;
        }
        let k = self.slots[best].seq;
        proof {
            assert(is_min_ahead(m, k)) by {
                assert forall|j: u16| #[trigger] m.pending.dom().contains(j) implies seq_ahead(
                    m.next,
                    k,
                ) <= seq_ahead(m.next, j) by {
                    let jj = choose|jj: int| 0 <= jj < self.slots@.len() && self.slots@[jj].seq == j;
                }
            }
            let k0 = choose|k0: u16| is_min_ahead(m, k0);
            assert(is_min_ahead(m, k0));
            let jj = choose|jj: int| 0 <= jj < self.slots@.len() && self.slots@[jj].seq == k0;
            assert(seq_ahead(m.next, k0) <= seq_ahead(m.next, k));
            assert(seq_ahead(m.next, k) <= seq_ahead(m.next, k0));
            lemma_ahead_injective(m.next, k, k0);
        }
        self.next_seq = k;
        proof {
            assert forall|j: int| 0 <= j < self.slots@.len() implies seq_ahead(
                self.next_seq,
                #[trigger] self.slots@[j].seq,
            ) < 0x8000 by {
                assert(m.pending.dom().contains(self.slots@[j].seq));
                lemma_ahead_transfer(m.next, k, self.slots@[j].seq);
            }
        }
    }

    /// One delivery attempt: the next packet in order, a request for more
    /// input, or the full-window report.  The full window is reported
    /// exactly once per gap: the cursor has already been moved past it
    /// when `Full` is returned.
    pub fn step(&mut self) -> (r: RecvStep)
        requires
            old(self).wf(),
        ensures
            final(self).wf(),
            r matches RecvStep::Deliver(p) ==> model_pop(old(self)@).1 == Some(p@) && final(self)@
                == model_pop(old(self)@).0,
            (r is Deliver) == (model_pop(old(self)@).1 is Some),
            (r is Full) == step_is_full(old(self)@),
            r is Full ==> final(self)@ == model_recover(old(self)@),
            r is NeedRead ==> final(self)@ == old(self)@,
    {
        proof {
            lemma_slots_map_props(self.slots@);
        }
        let popped = self.pop_ready();
        match popped {
            Some(p) => RecvStep::Deliver(p),
            None => {
                if self.started && self.slots.len() >= self.capacity {
                    proof {
                        lemma_slots_map_props(self.slots@);
                    }
                    self.recover();
                    RecvStep::Full
                } else {
                    proof {
                        lemma_slots_map_props(self.slots@);
                    }
                    RecvStep::NeedRead
                }
            },
        }
    }

    /// Parse a datagram pulled from the track and insert the packet.
    /// Fails exactly on datagrams that are not well-formed RTP, leaving
    /// the buffer unchanged.
    pub fn accept_datagram(&mut self, datagram: &[u8]) -> (r: Result<
        InsertOutcome,
        ReorderBufferError,
    >)
        requires
            old(self).wf(),
        ensures
            final(self).wf(),
            r is Ok <==> rtp_well_formed(datagram@),
            r is Err ==> r == Err::<InsertOutcome, ReorderBufferError>(
                ReorderBufferError::HeaderParsingError,
            ) && final(self)@ == old(self)@,
            r matches Ok(o) ==> final(self)@ == model_insert(old(self)@, parse_rtp_spec(datagram@)).0
                && o == model_insert(old(self)@, parse_rtp_spec(datagram@)).1,
    {
        match parse_rtp(datagram) {
            Ok(p) => Ok(self.insert(p)),
            Err(_) => Err(ReorderBufferError::HeaderParsingError),
        }
    }
}

} // verus!
