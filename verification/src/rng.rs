//! Deterministic pseudo-random generator (xorshift on a 64-bit word).
//!
//! The generator is a pure mixing function: the same input word always
//! yields the same output word, with no hidden entropy source. Iterating
//! it from a seed gives the reproducible stream that populates a fresh
//! field.

use vstd::prelude::*;

verus! {

/// One xorshift round: left-shift-13/XOR, right-shift-7/XOR,
/// left-shift-17/XOR, in that fixed order.
pub open spec fn xorshift_step(x: u64) -> u64 {
    let a = x ^ (x << 13);
    let b = a ^ (a >> 7);
    b ^ (b << 17)
}

/// The `i`-th word of the stream drawn from `seed`: the seed put through
/// `i + 1` xorshift rounds. The seed itself is never emitted.
pub open spec fn stream(seed: u64, i: nat) -> u64
    decreases i,
{
    if i == 0 {
        xorshift_step(seed)
    } else {
        xorshift_step(stream(seed, (i - 1) as nat))
    }
}

/// One xorshift round of the 64-bit word `x`.
pub fn xorshift64(x: u64) -> (r: u64)
    ensures
        r == xorshift_step(x),
{
    let mut y = x;
    y ^= y << 13;
    y ^= y >> 7;
    y ^= y << 17;
    y
}

/// The seed is used verbatim: no external identity is mixed in, so that
/// the stream is reproducible across deployments.
pub fn seed_to_u64(seed: u64) -> (r: u64)
    ensures
        r == seed,
{
    seed
}

} // verus!
