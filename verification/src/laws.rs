//! Proved laws of the code: the encoder is linear and its output cyclic, a
//! clean codeword decodes to its own data with no corrections, and the
//! decoder repairs every single- and double-bit error on any codeword.

use vstd::prelude::*;
use crate::bits::lemma_rotate_17_cycle;
use crate::bits::lemma_rotate_17_iter_compose;
use crate::bits::lemma_weight_small;
use crate::bits::rotate_17_iter;
use crate::bits::rotate_17_spec;
use crate::codec::codeword_of;
use crate::codec::decode_of;
use crate::codec::lemma_codeword_facts;
use crate::codec::step_of;
use crate::codec::syndrome_of;
use crate::codec::walk_of;
use crate::tables::pattern_for;

verus! {

/// The syndrome is linear over GF(2): the syndrome of an XOR is the XOR of
/// the syndromes.
pub proof fn lemma_syndrome_linear(x: u32, y: u32)
    ensures
        syndrome_of(x ^ y) == syndrome_of(x) ^ syndrome_of(y),
{
    assert(syndrome_of(x ^ y) == syndrome_of(x) ^ syndrome_of(y)) by (bit_vector);
}

/// The code is cyclic: any rotation of a valid codeword is a valid codeword.
pub proof fn lemma_code_cyclic(w: u32)
    requires
        w >> 17 == 0,
        syndrome_of(w) == 0,
    ensures
        rotate_17_spec(w) >> 17 == 0,
        syndrome_of(rotate_17_spec(w)) == 0,
{
    assert(w >> 17 == 0 && syndrome_of(w) == 0 ==> ((w >> 1) | ((w & 1) << 16)) >> 17 == 0
        && syndrome_of((w >> 1) | ((w & 1) << 16)) == 0) by (bit_vector);
}

/// Walking `m + n` steps is walking `m` steps, then `n` more.
proof fn lemma_walk_compose(f: Option<u32>, w: u32, m: nat, n: nat)
    ensures
        walk_of(f, w, m + n) == walk_of(walk_of(f, w, m).0, walk_of(f, w, m).1, n),
    decreases n,
{
    if n > 0 {
        lemma_walk_compose(f, w, m, (n - 1) as nat);
        assert(m + n == (m + (n - 1) as nat) + 1);
    }
}

/// From a valid codeword, every step of the walk sees a zero syndrome and
/// only rotates: the accumulator never changes.
proof fn lemma_walk_clean(f: Option<u32>, c: u32, n: nat)
    requires
        c >> 17 == 0,
        syndrome_of(c) == 0,
    ensures
        walk_of(f, c, n).0 == f,
        walk_of(f, c, n).1 == rotate_17_iter(c, n),
        rotate_17_iter(c, n) >> 17 == 0,
        syndrome_of(rotate_17_iter(c, n)) == 0,
    decreases n,
{
    if n > 0 {
        lemma_walk_clean(f, c, (n - 1) as nat);
        lemma_code_cyclic(rotate_17_iter(c, (n - 1) as nat));
    }
}

/// Decoding an error-free codeword returns its data word and a correction
/// count of zero.
pub proof fn lemma_round_trip(data: u16)
    requires
        data >> 9 == 0,
    ensures
        decode_of(codeword_of(data as u32)) == Some((data, 0usize)),
{
    let d = data as u32;
    assert(data >> 9 == 0 ==> d >> 9 == 0 && (d as u16) == data) by (bit_vector)
        requires
            d == data as u32,
    ;
    lemma_codeword_facts(d);
    let c = codeword_of(d);
    lemma_walk_clean(Some(0u32), c, 17);
    lemma_rotate_17_cycle(c);
}

/// After `k` steps of the walk on a codeword carrying one bit error `k`
/// positions above the trap, the error bit has reached the trap; every
/// syndrome seen so far was off-trap, so for `k > 0` the accumulator has
/// been marked undefined.
proof fn lemma_walk_single_descent(f: Option<u32>, c: u32, k: u32)
    requires
        c >> 17 == 0,
        syndrome_of(c) == 0,
        k < 17,
    ensures
        walk_of(f, c ^ (1u32 << k), k as nat) == ((
        if k == 0 {
            f
        } else {
            None::<u32>
        }), rotate_17_iter(c, k as nat) ^ 1u32),
    decreases k,
{
    if k == 0 {
        assert(1u32 << 0 == 1) by (bit_vector);
    } else {
        let w0 = c ^ (1u32 << k);
        lemma_syndrome_linear(c, 1u32 << k);
        assert(0u32 ^ syndrome_of(1u32 << k) == syndrome_of(1u32 << k)) by (bit_vector);
        assert(1 <= k && k < 17 ==> pattern_for(syndrome_of(1u32 << k)) == 0 && syndrome_of(
            1u32 << k,
        ) != 0) by (bit_vector);
        assert(step_of(f, w0) == (None::<u32>, rotate_17_spec(w0)));
        assert(1 <= k && k < 17 ==> ((c ^ (1u32 << k)) >> 1) | (((c ^ (1u32 << k)) & 1) << 16) == ((
        (c >> 1) | ((c & 1) << 16)) ^ (1u32 << ((k - 1) as u32)))) by (bit_vector);
        lemma_walk_compose(f, w0, 1, (k - 1) as nat);
        assert(walk_of(f, w0, 1) == step_of(f, w0)) by {
            reveal_with_fuel(walk_of, 2);
        }
        lemma_code_cyclic(c);
        lemma_walk_single_descent(None::<u32>, rotate_17_spec(c), (k - 1) as u32);
        lemma_rotate_17_iter_compose(c, 1, (k - 1) as nat);
        assert(rotate_17_iter(c, 1) == rotate_17_spec(c)) by {
            reveal_with_fuel(rotate_17_iter, 2);
        }
    }
}

/// The full 17-step walk on a codeword with one bit error: the error is
/// repaired the moment it reaches the trap, and the walk ends on the
/// original codeword with one correction counted.
proof fn lemma_walk_single(f: Option<u32>, c: u32, i: u32)
    requires
        c >> 17 == 0,
        syndrome_of(c) == 0,
        i < 17,
    ensures
        walk_of(f, c ^ (1u32 << i), 17) == (Some(1u32), c),
{
    let w0 = c ^ (1u32 << i);
    lemma_walk_single_descent(f, c, i);
    lemma_walk_clean(f, c, i as nat);
    let g = walk_of(f, w0, i as nat).0;
    let ci = rotate_17_iter(c, i as nat);
    let v = ci ^ 1u32;
    lemma_syndrome_linear(ci, 1u32);
    assert(0u32 ^ syndrome_of(1u32) == syndrome_of(1u32)) by (bit_vector);
    assert(pattern_for(syndrome_of(1u32)) == 1 && syndrome_of(1u32) != 0) by (bit_vector);
    lemma_weight_small(0, 1);
    assert(1u32 << 0 == 1) by (bit_vector);
    assert((ci ^ 1u32) ^ 1u32 == ci) by (bit_vector);
    assert(step_of(g, v) == (Some(1u32), rotate_17_spec(ci)));
    lemma_walk_compose(f, w0, i as nat, 1);
    assert(walk_of(g, v, 1) == step_of(g, v)) by {
        reveal_with_fuel(walk_of, 2);
    }
    lemma_rotate_17_iter_compose(c, i as nat, 1);
    assert(rotate_17_iter(ci, 1) == rotate_17_spec(ci)) by {
        reveal_with_fuel(rotate_17_iter, 2);
    }
    assert(walk_of(f, w0, (i + 1) as nat) == (Some(1u32), rotate_17_iter(c, (i + 1) as nat)));
    lemma_walk_clean(f, c, (i + 1) as nat);
    lemma_walk_compose(f, w0, (i + 1) as nat, (16 - i) as nat);
    lemma_walk_clean(Some(1u32), rotate_17_iter(c, (i + 1) as nat), (16 - i) as nat);
    lemma_rotate_17_iter_compose(c, (i + 1) as nat, (16 - i) as nat);
    lemma_rotate_17_cycle(c);
    assert((i + 1) as nat + (16 - i) as nat == 17nat);
}

/// Decoding a codeword with any single bit error returns the original data
/// word and a correction count of one.
pub proof fn lemma_single_error_corrected(data: u16, i: u32)
    requires
        data >> 9 == 0,
        i < 17,
    ensures
        decode_of(codeword_of(data as u32) ^ (1u32 << i)) == Some((data, 1usize)),
{
    let d = data as u32;
    assert(data >> 9 == 0 ==> d >> 9 == 0 && (d as u16) == data) by (bit_vector)
        requires
            d == data as u32,
    ;
    lemma_codeword_facts(d);
    lemma_walk_single(Some(0u32), codeword_of(d), i);
}

/// After `a` steps of the walk on a codeword carrying two bit errors, `a`
/// and `b` positions above the trap, the lower error bit has reached the
/// trap; every syndrome seen so far was off-trap, so for `a > 0` the
/// accumulator has been marked undefined.
proof fn lemma_walk_double_descent(f: Option<u32>, c: u32, a: u32, b: u32)
    requires
        c >> 17 == 0,
        syndrome_of(c) == 0,
        a < b,
        b < 17,
    ensures
        walk_of(f, c ^ (1u32 << a) ^ (1u32 << b), a as nat) == ((
        if a == 0 {
            f
        } else {
            None::<u32>
        }), rotate_17_iter(c, a as nat) ^ 1u32 ^ (1u32 << ((b - a) as u32))),
    decreases a,
{
    if a == 0 {
        assert(1u32 << 0 == 1) by (bit_vector);
    } else {
        let w0 = c ^ (1u32 << a) ^ (1u32 << b);
        let e = (1u32 << a) ^ (1u32 << b);
        assert(c ^ (1u32 << a) ^ (1u32 << b) == c ^ e) by (bit_vector)
            requires
                e == (1u32 << a) ^ (1u32 << b),
        ;
        lemma_syndrome_linear(c, e);
        assert(0u32 ^ syndrome_of(e) == syndrome_of(e)) by (bit_vector);
        assert(1 <= a && a < b && b < 17 ==> pattern_for(
            syndrome_of((1u32 << a) ^ (1u32 << b)),
        ) == 0 && syndrome_of((1u32 << a) ^ (1u32 << b)) != 0) by (bit_vector);
        assert(step_of(f, w0) == (None::<u32>, rotate_17_spec(w0)));
        assert(1 <= a && a < b && b < 17 ==> ((c ^ (1u32 << a) ^ (1u32 << b)) >> 1) | (((c ^ (1u32
            << a) ^ (1u32 << b)) & 1) << 16) == (((c >> 1) | ((c & 1) << 16)) ^ (1u32 << ((a
            - 1) as u32)) ^ (1u32 << ((b - 1) as u32)))) by (bit_vector);
        lemma_walk_compose(f, w0, 1, (a - 1) as nat);
        assert(walk_of(f, w0, 1) == step_of(f, w0)) by {
            reveal_with_fuel(walk_of, 2);
        }
        lemma_code_cyclic(c);
        lemma_walk_double_descent(None::<u32>, rotate_17_spec(c), (a - 1) as u32, (b - 1) as u32);
        lemma_rotate_17_iter_compose(c, 1, (a - 1) as nat);
        assert(rotate_17_iter(c, 1) == rotate_17_spec(c)) by {
            reveal_with_fuel(rotate_17_iter, 2);
        }
    }
}

/// The full 17-step walk on a codeword with two bit errors: both are
/// repaired together the moment the lower one reaches the trap, and the walk
/// ends on the original codeword with two corrections counted.
proof fn lemma_walk_double(f: Option<u32>, c: u32, i: u32, j: u32)
    requires
        c >> 17 == 0,
        syndrome_of(c) == 0,
        i < j,
        j < 17,
    ensures
        walk_of(f, c ^ (1u32 << i) ^ (1u32 << j), 17) == (Some(2u32), c),
{
    let w0 = c ^ (1u32 << i) ^ (1u32 << j);
    lemma_walk_double_descent(f, c, i, j);
    lemma_walk_clean(f, c, i as nat);
    let g = walk_of(f, w0, i as nat).0;
    let ci = rotate_17_iter(c, i as nat);
    let m = (j - i) as u32;
    let v = ci ^ 1u32 ^ (1u32 << m);
    let e = 1u32 ^ (1u32 << m);
    assert(ci ^ 1u32 ^ (1u32 << m) == ci ^ e) by (bit_vector)
        requires
            e == 1u32 ^ (1u32 << m),
    ;
    lemma_syndrome_linear(ci, e);
    assert(0u32 ^ syndrome_of(e) == syndrome_of(e)) by (bit_vector);
    assert(1 <= m && m < 17 ==> pattern_for(syndrome_of(1u32 ^ (1u32 << m))) == (1u32 | (1u32
        << m)) && syndrome_of(1u32 ^ (1u32 << m)) != 0 && (1u32 | (1u32 << m)) != 0)
        by (bit_vector);
    lemma_weight_small(0, m);
    assert(1u32 << 0 == 1) by (bit_vector);
    assert(1 <= m && m < 17 ==> (ci ^ 1u32 ^ (1u32 << m)) ^ (1u32 | (1u32 << m)) == ci)
        by (bit_vector);
    assert(step_of(g, v) == (Some(2u32), rotate_17_spec(ci)));
    lemma_walk_compose(f, w0, i as nat, 1);
    assert(walk_of(g, v, 1) == step_of(g, v)) by {
        reveal_with_fuel(walk_of, 2);
    }
    lemma_rotate_17_iter_compose(c, i as nat, 1);
    assert(rotate_17_iter(ci, 1) == rotate_17_spec(ci)) by {
        reveal_with_fuel(rotate_17_iter, 2);
    }
    assert(walk_of(f, w0, (i + 1) as nat) == (Some(2u32), rotate_17_iter(c, (i + 1) as nat)));
    lemma_walk_clean(f, c, (i + 1) as nat);
    lemma_walk_compose(f, w0, (i + 1) as nat, (16 - i) as nat);
    lemma_walk_clean(Some(2u32), rotate_17_iter(c, (i + 1) as nat), (16 - i) as nat);
    lemma_rotate_17_iter_compose(c, (i + 1) as nat, (16 - i) as nat);
    lemma_rotate_17_cycle(c);
    assert((i + 1) as nat + (16 - i) as nat == 17nat);
}

/// Decoding a codeword with errors in any two distinct bit positions
/// returns the original data word and a correction count of two.
pub proof fn lemma_double_error_corrected(data: u16, i: u32, j: u32)
    requires
        data >> 9 == 0,
        i < 17,
        j < 17,
        i != j,
    ensures
        decode_of(codeword_of(data as u32) ^ (1u32 << i) ^ (1u32 << j)) == Some((data, 2usize)),
{
    let d = data as u32;
    assert(data >> 9 == 0 ==> d >> 9 == 0 && (d as u16) == data) by (bit_vector)
        requires
            d == data as u32,
    ;
    lemma_codeword_facts(d);
    let c = codeword_of(d);
    if i < j {
        lemma_walk_double(Some(0u32), c, i, j);
    } else {
        lemma_walk_double(Some(0u32), c, j, i);
        assert(c ^ (1u32 << i) ^ (1u32 << j) == c ^ (1u32 << j) ^ (1u32 << i)) by (bit_vector);
    }
}

/// The encoder is linear over GF(2): the codeword of an XOR of two data
/// words is the XOR of their codewords.
pub proof fn lemma_encode_linear(a: u16, b: u16)
    ensures
        codeword_of((a ^ b) as u32) == codeword_of(a as u32) ^ codeword_of(b as u32),
{
    assert(codeword_of((a ^ b) as u32) == codeword_of(a as u32) ^ codeword_of(b as u32))
        by (bit_vector);
}

} // verus!
