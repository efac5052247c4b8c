//! Small arithmetic helpers shared by the pipeline.

use vstd::prelude::*;

verus! {

/// Greatest common divisor, by Euclid's recursion.
pub open spec fn gcd_spec(a: nat, b: nat) -> nat
    decreases b,
{
    if b == 0 {
        a
    } else {
        gcd_spec(b, a % b)
    }
}

/// The greatest common divisor of two numbers that are not both zero is
/// positive.
pub proof fn lemma_gcd_pos(a: nat, b: nat)
    requires
        a > 0 || b > 0,
    ensures
        gcd_spec(a, b) > 0,
    decreases b,
{
    if b > 0 {
        lemma_gcd_pos(b, a % b);
    }
}

/// Compute the greatest common divisor of two numbers.
pub fn gcd(u: i32, v: i32) -> (r: i32)
    requires
        0 <= u,
        0 <= v,
    ensures
        r == gcd_spec(u as nat, v as nat),
{
    let mut a = u;
    let mut b = v;
    while b != 0
        invariant
            0 <= a,
            0 <= b,
            gcd_spec(a as nat, b as nat) == gcd_spec(u as nat, v as nat),
        decreases b,
    {
        let t = a % b;
        a = b;
        b = t;
    }
    a
}

/// Reduce the given width:height ratio to its lowest terms.
pub fn ratio_to_lowest_terms(width: i32, height: i32) -> (r: (i32, i32))
    requires
        0 < width,
        0 < height,
    ensures
        r.0 == width as int / gcd_spec(width as nat, height as nat) as int,
        r.1 == height as int / gcd_spec(width as nat, height as nat) as int,
{
    proof {
        lemma_gcd_pos(width as nat, height as nat);
    }
    let divisor = gcd(width, height);
    (width / divisor, height / divisor)
}

} // verus!
