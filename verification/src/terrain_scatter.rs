//! Seeded xorshift32 hash used to scatter scenery (trees, rocks) across
//! the terrain reproducibly.

use vstd::prelude::*;

verus! {

/// One xorshift32 step: x ^= x << 13; x ^= x >> 17; x ^= x << 5.
pub open spec fn xorshift32_spec(x: u32) -> u32 {
    let a = x ^ ((x << 13u32) as u32);
    let b = a ^ (a >> 17u32);
    b ^ ((b << 5u32) as u32)
}

/// Advance the scatter hash state by one xorshift32 step.
pub fn xorshift32(x: u32) -> (next: u32)
    ensures
        next == xorshift32_spec(x),
{
    let a = x ^ (x << 13u32);
    let b = a ^ (a >> 17u32);
    b ^ (b << 5u32)
}

/// A nonzero state never steps to zero, so a nonzero seed keeps producing
/// fresh values.
pub proof fn lemma_xorshift32_nonzero(x: u32)
    requires
        x != 0,
    ensures
        xorshift32_spec(x) != 0,
{
    let a = x ^ ((x << 13u32) as u32);
    assert(a != 0) by (bit_vector)
        requires
            x != 0,
            a == x ^ ((x << 13u32) as u32),
    ;
    let b = a ^ (a >> 17u32);
    assert(b != 0) by (bit_vector)
        requires
            a != 0,
            b == a ^ (a >> 17u32),
    ;
    let c = b ^ ((b << 5u32) as u32);
    assert(c != 0) by (bit_vector)
        requires
            b != 0,
            c == b ^ ((b << 5u32) as u32),
    ;
}

/// One xorshift move: `v` XOR `v` shifted left by `s` bits.
pub open spec fn xor_shl(v: u32, s: u32) -> u32 {
    v ^ ((v << s) as u32)
}

/// One xorshift move: `v` XOR `v` shifted right by `s` bits.
pub open spec fn xor_shr(v: u32, s: u32) -> u32 {
    v ^ (v >> s)
}

/// The step is the standard (13, 17, 5) xorshift32 triple: a left move by
/// 13 bits, a right move by 17 bits, then a left move by 5 bits.
pub proof fn lemma_xorshift32_is_13_17_5(x: u32)
    ensures
        xorshift32_spec(x) == xor_shl(xor_shr(xor_shl(x, 13), 17), 5),
{
}

/// The step is linear over bits: stepping the XOR of two states gives the
/// XOR of their steps.
pub proof fn lemma_xorshift32_linear(x: u32, y: u32)
    ensures
        xorshift32_spec(x ^ y) == xorshift32_spec(x) ^ xorshift32_spec(y),
{
    assert(xorshift32_spec(x ^ y) == xorshift32_spec(x) ^ xorshift32_spec(y)) by (bit_vector);
}

/// Distinct states step to distinct states, so the scatter sequence never
/// merges two histories.
pub proof fn lemma_xorshift32_injective(x: u32, y: u32)
    requires
        x != y,
    ensures
        xorshift32_spec(x) != xorshift32_spec(y),
{
    assert((x ^ y) != 0) by (bit_vector)
        requires
            x != y,
    ;
    lemma_xorshift32_nonzero(x ^ y);
    lemma_xorshift32_linear(x, y);
    assert(xorshift32_spec(x) != xorshift32_spec(y)) by (bit_vector)
        requires
            xorshift32_spec(x) ^ xorshift32_spec(y) != 0,
    ;
}

/// The scatter streams of the viewer's two seeds (42 for trees, 137 for
/// rocks) start where the (13, 17, 5) step takes them.
pub proof fn lemma_xorshift32_viewer_seeds()
    ensures
        xorshift32_spec(42) == 11355432,
        xorshift32_spec(11355432) == 2836018348,
        xorshift32_spec(137) == 37040289,
{
    assert(xorshift32_spec(42) == 11355432) by (bit_vector);
    assert(xorshift32_spec(11355432) == 2836018348) by (bit_vector);
    assert(xorshift32_spec(137) == 37040289) by (bit_vector);
}

} // verus!
