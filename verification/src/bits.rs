//! Bit-level primitives: GF(2) parity, Hamming weight, and the 17-bit cyclic
//! rotation used by the decoder's stepping loop.

use vstd::prelude::*;

verus! {

/// GF(2) parity of `w`: 1 if an odd number of bits are set, 0 otherwise,
/// computed as the XOR-fold of all 32 bits.
pub open spec fn parity(w: u32) -> u32 {
    let a = w ^ (w >> 16);
    let b = a ^ (a >> 8);
    let c = b ^ (b >> 4);
    let d = c ^ (c >> 2);
    let e = d ^ (d >> 1);
    e & 1
}

/// Hamming weight (number of set bits) of `w`, computed by summing adjacent
/// bits, then adjacent 2-bit fields, and so on up to the two half-words.
pub open spec fn weight(w: u32) -> u32 {
    let a = ((w & 0x55555555) + ((w >> 1) & 0x55555555)) as u32;
    let b = ((a & 0x33333333) + ((a >> 2) & 0x33333333)) as u32;
    let c = ((b & 0x0F0F0F0F) + ((b >> 4) & 0x0F0F0F0F)) as u32;
    let d = ((c & 0x00FF00FF) + ((c >> 8) & 0x00FF00FF)) as u32;
    ((d & 0x0000FFFF) + ((d >> 16) & 0x0000FFFF)) as u32
}

/// The weight of a word with no bit set is 0, with one bit set is 1, and
/// with two distinct bits set is 2.
pub proof fn lemma_weight_small(i: u32, j: u32)
    requires
        i < 32,
        j < 32,
        i != j,
    ensures
        weight(0) == 0,
        weight(1u32 << i) == 1,
        weight((1u32 << i) | (1u32 << j)) == 2,
{
    assert(weight(0) == 0) by (bit_vector);
    assert(i < 32 ==> weight(1u32 << i) == 1) by (bit_vector);
    assert(i < 32 && j < 32 && i != j ==> weight((1u32 << i) | (1u32 << j)) == 2)
        by (bit_vector);
}

/// One cyclic rotation of a 17-bit value toward the low end: bit 0 moves to
/// bit 16 and every other bit shifts down one position.
pub open spec fn rotate_17_spec(w: u32) -> u32 {
    (w >> 1) | ((w & 1) << 16)
}

/// `w` rotated `n` times.
pub open spec fn rotate_17_iter(w: u32, n: nat) -> u32
    decreases n,
{
    if n == 0 {
        w
    } else {
        rotate_17_spec(rotate_17_iter(w, (n - 1) as nat))
    }
}

/// Rotating `m` times and then `n` more is rotating `m + n` times.
pub proof fn lemma_rotate_17_iter_compose(w: u32, m: nat, n: nat)
    ensures
        rotate_17_iter(rotate_17_iter(w, m), n) == rotate_17_iter(w, m + n),
    decreases n,
{
    if n > 0 {
        lemma_rotate_17_iter_compose(w, m, (n - 1) as nat);
        assert(m + n == (m + (n - 1) as nat) + 1);
    }
}

/// Cyclically rotate the word right as if it were 17 bits long.
pub fn rotate_17(word: u32) -> (r: u32)
    ensures
        r == rotate_17_spec(word),
{
    let lsb = word & 1;
    word >> 1 | lsb << 16
}

/// Rotating a 17-bit value 17 times returns the original value.
pub proof fn lemma_rotate_17_cycle(w: u32)
    requires
        w >> 17 == 0,
    ensures
        rotate_17_iter(w, 17) == w,
{
    let s1 = rotate_17_spec(w);
    let s2 = rotate_17_spec(s1);
    let s3 = rotate_17_spec(s2);
    let s4 = rotate_17_spec(s3);
    let s5 = rotate_17_spec(s4);
    let s6 = rotate_17_spec(s5);
    let s7 = rotate_17_spec(s6);
    let s8 = rotate_17_spec(s7);
    let s9 = rotate_17_spec(s8);
    let s10 = rotate_17_spec(s9);
    let s11 = rotate_17_spec(s10);
    let s12 = rotate_17_spec(s11);
    let s13 = rotate_17_spec(s12);
    let s14 = rotate_17_spec(s13);
    let s15 = rotate_17_spec(s14);
    let s16 = rotate_17_spec(s15);
    let s17 = rotate_17_spec(s16);
    assert(rotate_17_iter(w, 17) == s17) by {
        reveal_with_fuel(rotate_17_iter, 18);
    }
    assert(s17 == w) by (bit_vector)
        requires
            w >> 17 == 0,
            s1 == (w >> 1) | ((w & 1) << 16),
            s2 == (s1 >> 1) | ((s1 & 1) << 16),
            s3 == (s2 >> 1) | ((s2 & 1) << 16),
            s4 == (s3 >> 1) | ((s3 & 1) << 16),
            s5 == (s4 >> 1) | ((s4 & 1) << 16),
            s6 == (s5 >> 1) | ((s5 & 1) << 16),
            s7 == (s6 >> 1) | ((s6 & 1) << 16),
            s8 == (s7 >> 1) | ((s7 & 1) << 16),
            s9 == (s8 >> 1) | ((s8 & 1) << 16),
            s10 == (s9 >> 1) | ((s9 & 1) << 16),
            s11 == (s10 >> 1) | ((s10 & 1) << 16),
            s12 == (s11 >> 1) | ((s11 & 1) << 16),
            s13 == (s12 >> 1) | ((s12 & 1) << 16),
            s14 == (s13 >> 1) | ((s13 & 1) << 16),
            s15 == (s14 >> 1) | ((s14 & 1) << 16),
            s16 == (s15 >> 1) | ((s15 & 1) << 16),
            s17 == (s16 >> 1) | ((s16 & 1) << 16),
    ;
}

/// One rotation moves bit 0 to bit 16 and every bit `i + 1` down to bit `i`.
pub proof fn lemma_rotate_17_moves_bits(w: u32, i: u32)
    requires
        w >> 17 == 0,
        i < 16,
    ensures
        (rotate_17_spec(w) >> 16) & 1 == w & 1,
        (rotate_17_spec(w) >> i) & 1 == (w >> ((i + 1) as u32)) & 1,
{
    assert(w >> 17 == 0 ==> (((w >> 1) | ((w & 1) << 16)) >> 16) & 1 == w & 1) by (bit_vector);
    assert(i < 16 ==> (((w >> 1) | ((w & 1) << 16)) >> i) & 1 == (w >> ((i + 1) as u32)) & 1)
        by (bit_vector);
}

/// Count the set bits of `word`.
pub fn hamming_weight(word: u32) -> (c: u32)
    ensures
        c == weight(word),
{
    proof {
        assert((word & 0x55555555) + ((word >> 1) & 0x55555555) < 0x100000000) by (bit_vector);
    }
    let a = (word & 0x55555555) + ((word >> 1) & 0x55555555);
    proof {
        assert((a & 0x33333333) + ((a >> 2) & 0x33333333) < 0x100000000) by (bit_vector);
    }
    let b = (a & 0x33333333) + ((a >> 2) & 0x33333333);
    proof {
        assert((b & 0x0F0F0F0F) + ((b >> 4) & 0x0F0F0F0F) < 0x100000000) by (bit_vector);
    }
    let c = (b & 0x0F0F0F0F) + ((b >> 4) & 0x0F0F0F0F);
    proof {
        assert((c & 0x00FF00FF) + ((c >> 8) & 0x00FF00FF) < 0x100000000) by (bit_vector);
    }
    let d = (c & 0x00FF00FF) + ((c >> 8) & 0x00FF00FF);
    proof {
        assert((d & 0x0000FFFF) + ((d >> 16) & 0x0000FFFF) < 0x100000000) by (bit_vector);
    }
    (d & 0x0000FFFF) + ((d >> 16) & 0x0000FFFF)
}

} // verus!
