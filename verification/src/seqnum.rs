//! Wraparound-aware ordering of 16-bit RTP sequence numbers.
//!
//! Sequence numbers live on a circle of 2^16 values.  A packet `a` is older
//! than `b` exactly when the signed 16-bit difference `(a - b) as i16` is
//! negative; the specifications below express the same ordering through the
//! forward distance on the circle, which keeps all reasoning in plain
//! non-negative arithmetic.

use vstd::prelude::*;

verus! {

/// How many steps forward along the sequence-number circle it takes to walk
/// from `base` to `s`.  The result lies in `[0, 0xFFFF]`.
pub open spec fn seq_ahead(base: u16, s: u16) -> int {
    if s >= base {
        s - base
    } else {
        s + 0x10000 - base
    }
}

/// `a` comes strictly before `b` on the circle.  This matches the signed
/// 16-bit difference test `((a - b) as i16) < 0` used for RTP reordering.
pub open spec fn seq_before(a: u16, b: u16) -> bool {
    1 <= seq_ahead(a, b) <= 0x8000
}

/// The sequence number one step after `s`, wrapping at 2^16.
pub open spec fn seq_next(s: u16) -> u16 {
    if s == 0xFFFF {
        0
    } else {
        (s + 1) as u16
    }
}

/// Computes the forward distance from `base` to `s`.
pub fn seq_ahead_exec(base: u16, s: u16) -> (d: u32)
    ensures
        d == seq_ahead(base, s),
{
    if s >= base {
        (s - base) as u32
    } else {
        s as u32 + 0x10000 - base as u32
    }
}

/// Decides whether `a` comes strictly before `b` on the circle.
pub fn seq_before_exec(a: u16, b: u16) -> (r: bool)
    ensures
        r == seq_before(a, b),
{
    let d = seq_ahead_exec(a, b);
    1 <= d && d <= 0x8000
}

/// Computes the successor of `s`, wrapping at 2^16.
pub fn seq_next_exec(s: u16) -> (r: u16)
    ensures
        r == seq_next(s),
{
    if s == 0xFFFF {
        0
    } else {
        s + 1
    }
}

/// Walking one step forward shortens the distance to every strictly-ahead
/// sequence number by exactly one.
pub proof fn lemma_ahead_after_next(base: u16, s: u16)
    requires
        seq_ahead(base, s) >= 1,
    ensures
        seq_ahead(seq_next(base), s) == seq_ahead(base, s) - 1,
{
}

/// The distance from a number to itself is zero, and zero distance means
/// equality.
pub proof fn lemma_ahead_zero(base: u16, s: u16)
    ensures
        seq_ahead(base, s) == 0 <==> base == s,
{
}

/// Two sequence numbers at the same distance from a common base are equal.
pub proof fn lemma_ahead_injective(base: u16, a: u16, b: u16)
    requires
        seq_ahead(base, a) == seq_ahead(base, b),
    ensures
        a == b,
{
}

/// Rebasing: walking from `a` to `b` covers the distance that separates
/// their distances from a common base, provided `a` is not further out
/// than `b`.
pub proof fn lemma_ahead_transfer(base: u16, a: u16, b: u16)
    requires
        seq_ahead(base, a) <= seq_ahead(base, b),
    ensures
        seq_ahead(a, b) == seq_ahead(base, b) - seq_ahead(base, a),
{
}

/// The sequence number `k` steps forward of `s`.
pub open spec fn seq_add(s: u16, k: int) -> u16 {
    (((s + k) % 0x10000 + 0x10000) % 0x10000) as u16
}

/// Stepping forward is walking a distance of one.
pub proof fn lemma_seq_add_one(s: u16)
    ensures
        seq_add(s, 1) == seq_next(s),
{
}

/// Walking zero steps stays put.
pub proof fn lemma_seq_add_zero(s: u16)
    ensures
        seq_add(s, 0) == s,
{
}

/// Walking forward by `k` steps lands at distance `k`, for distances that
/// fit on the circle.
pub proof fn lemma_ahead_seq_add(s: u16, k: int)
    requires
        0 <= k < 0x10000,
    ensures
        seq_ahead(s, seq_add(s, k)) == k,
{
}

/// Walks compose additively.
pub proof fn lemma_seq_add_assoc(s: u16, i: int, j: int)
    ensures
        seq_add(seq_add(s, i), j) == seq_add(s, i + j),
{
    vstd::arithmetic::div_mod::lemma_mod_mod(s + i, 0x10000, 0x10000);
    vstd::arithmetic::div_mod::lemma_add_mod_noop(((s + i) % 0x10000 + 0x10000) % 0x10000, j, 0x10000);
    vstd::arithmetic::div_mod::lemma_add_mod_noop(s + i, j, 0x10000);
}

} // verus!
