//! The encoder and the Meggitt-style syndrome decoder for the (17, 9, 5)
//! cyclic code.

use vstd::prelude::*;
use crate::bits::rotate_17;
use crate::bits::rotate_17_spec;
use crate::bits::hamming_weight;
use crate::bits::weight;
use crate::matrix::dot;
use crate::matrix::lemma_mat_mul_unroll8;
use crate::matrix::mul_rows;
use crate::matrix::mul_rows_systematic;
use crate::tables::gen_matrix;
use crate::tables::gen_rows;
use crate::tables::par_matrix;
use crate::tables::par_rows;
use crate::tables::pattern_for;
use crate::tables::pattern_lookup;
use crate::tables::lemma_pattern_shape;
use crate::tables::GEN_0;
use crate::tables::GEN_1;
use crate::tables::GEN_2;
use crate::tables::GEN_3;
use crate::tables::GEN_4;
use crate::tables::GEN_5;
use crate::tables::GEN_6;
use crate::tables::GEN_7;
use crate::tables::PAR_0;
use crate::tables::PAR_1;
use crate::tables::PAR_2;
use crate::tables::PAR_3;
use crate::tables::PAR_4;
use crate::tables::PAR_5;
use crate::tables::PAR_6;
use crate::tables::PAR_7;

verus! {

/// The 8-bit syndrome of a 17-bit word: one GF(2) dot product per row of the
/// parity-check matrix, most significant bit first. It is zero exactly on
/// valid codewords.
pub open spec fn syndrome_of(w: u32) -> u32 {
    (dot(w, PAR_0) << 7) | (dot(w, PAR_1) << 6) | (dot(w, PAR_2) << 5) | (dot(w, PAR_3) << 4) | (
    dot(w, PAR_4) << 3) | (dot(w, PAR_5) << 2) | (dot(w, PAR_6) << 1) | dot(w, PAR_7)
}

/// The 17-bit systematic codeword for a 9-bit data word: the data bits as
/// the high 9 bits, followed by one generator-matrix parity bit for each of
/// the low 8 bits.
pub open spec fn codeword_of(d: u32) -> u32 {
    (d << 8) | (dot(d, GEN_0) << 7) | (dot(d, GEN_1) << 6) | (dot(d, GEN_2) << 5) | (dot(
        d,
        GEN_3,
    ) << 4) | (dot(d, GEN_4) << 3) | (dot(d, GEN_5) << 2) | (dot(d, GEN_6) << 1) | dot(d, GEN_7)
}

/// The row-by-row product with the parity-check matrix is the syndrome.
pub proof fn lemma_syndrome_unroll(w: u32)
    ensures
        crate::matrix::mat_mul(w, par_rows(), 0) == syndrome_of(w),
{
    lemma_mat_mul_unroll8(w, par_rows(), 0);
    let m = crate::matrix::mat_mul(w, par_rows(), 0);
    assert(m == syndrome_of(w)) by (bit_vector)
        requires
            m == (0u32 << 8) | (dot(w, PAR_0) << 7) | (dot(w, PAR_1) << 6) | (dot(w, PAR_2) << 5)
                | (dot(w, PAR_3) << 4) | (dot(w, PAR_4) << 3) | (dot(w, PAR_5) << 2) | (dot(
                w,
                PAR_6,
            ) << 1) | dot(w, PAR_7),
    ;
}

/// The systematic row-by-row product with the generator matrix is the
/// codeword.
pub proof fn lemma_codeword_unroll(d: u32)
    ensures
        crate::matrix::mat_mul(d, gen_rows(), d) == codeword_of(d),
{
    lemma_mat_mul_unroll8(d, gen_rows(), d);
}

/// One step of the decoder's walk. `fixed` is the correction accumulator:
/// `Some(count)` when the walk so far can explain every syndrome it has
/// seen, `None` when some syndrome could not be trapped. A zero syndrome
/// leaves the accumulator alone; an untrappable one marks it undefined; a
/// trapped pattern overwrites it with the pattern's weight and repairs the
/// word. In every case the word then rotates one position.
pub open spec fn step_of(fixed: Option<u32>, w: u32) -> (Option<u32>, u32) {
    let s = syndrome_of(w);
    if s == 0 {
        (fixed, rotate_17_spec(w))
    } else {
        let pat = pattern_for(s);
        if pat == 0 {
            (None, rotate_17_spec(w))
        } else {
            (Some(weight(pat)), rotate_17_spec(w ^ pat))
        }
    }
}

/// The decoder state after `n` steps of the walk that starts at `(fixed, w)`.
pub open spec fn walk_of(fixed: Option<u32>, w: u32, n: nat) -> (Option<u32>, u32)
    decreases n,
{
    if n == 0 {
        (fixed, w)
    } else {
        let prev = walk_of(fixed, w, (n - 1) as nat);
        step_of(prev.0, prev.1)
    }
}

/// The full decode of a received word: walk one entire cyclic period, so
/// every bit visits the trap position once and the word returns to its
/// original alignment, then read the data bits out of the high end.
pub open spec fn decode_of(w: u32) -> Option<(u16, usize)> {
    let end = walk_of(Some(0u32), w, 17);
    match end.0 {
        Some(e) => Some((((end.1 >> 8) as u16), e as usize)),
        None => None,
    }
}

/// A codeword keeps its data word in its high 9 bits, fits in 17 bits, and
/// has a zero syndrome.
pub proof fn lemma_codeword_facts(d: u32)
    requires
        d >> 9 == 0,
    ensures
        codeword_of(d) >> 8 == d,
        codeword_of(d) >> 17 == 0,
        syndrome_of(codeword_of(d)) == 0,
{
    assert(d >> 9 == 0 ==> codeword_of(d) >> 8 == d && codeword_of(d) >> 17 == 0) by (bit_vector);
    assert(d >> 9 == 0 ==> syndrome_of(codeword_of(d)) == 0) by (bit_vector);
}

/// Encode the given 9 data bits into a 17-bit codeword.
pub fn encode(data: u16) -> (cw: u32)
    requires
        data >> 9 == 0,
    ensures
        cw == codeword_of(data as u32),
        cw >> 8 == data,
        cw >> 17 == 0,
        syndrome_of(cw) == 0,
{
    let gen = gen_matrix();
    let cw = mul_rows_systematic(data as u32, &gen);
    proof {
        lemma_codeword_unroll(data as u32);
        assert(data >> 9 == 0 ==> (data as u32) >> 9 == 0) by (bit_vector);
        lemma_codeword_facts(data as u32);
    }
    cw
}

/// Try to decode the given 17-bit word to the nearest codeword, correcting
/// up to 2 errors.
///
/// If decoding was successful, return `Some((data, err))`, where `data` is
/// the 9 data bits and `err` is the number of corrected bits. Otherwise,
/// return `None` to indicate an unrecoverable error.
pub fn decode(word: u32) -> (result: Option<(u16, usize)>)
    requires
        word >> 17 == 0,
    ensures
        result == decode_of(word),
        match result {
            Some((data, err)) => data >> 9 == 0 && err <= 2,
            None => true,
        },
{
    let par = par_matrix();
    let mut w = word;
    let mut fixed: Option<u32> = Some(0);
    let mut i: usize = 0;
    while i < 17
        invariant
            i <= 17,
            par@ == par_rows(),
            fixed == walk_of(Some(0u32), word, i as nat).0,
            w == walk_of(Some(0u32), word, i as nat).1,
            w >> 17 == 0,
            match fixed {
                Some(e) => e <= 2,
                None => true,
            },
        decreases 17 - i,
    {
        let ghost fixed0 = fixed;
        let ghost w0 = w;
        let s = mul_rows(w, &par);
        proof {
            lemma_syndrome_unroll(w);
        }
        if s == 0 {
            w = rotate_17(w);
        } else {
            let pat = pattern_lookup(s);
            if pat == 0 {
                fixed = None;
                w = rotate_17(w);
            } else {
                let e = hamming_weight(pat);
                proof {
                    lemma_pattern_shape(s);
                }
                fixed = Some(e);
                w = rotate_17(w ^ pat);
            }
        }
        proof {
            assert((fixed, w) == step_of(fixed0, w0));
            assert(walk_of(Some(0u32), word, (i + 1) as nat) == step_of(fixed0, w0));
            lemma_pattern_shape(syndrome_of(w0));
            assert(w0 >> 17 == 0 && pattern_for(syndrome_of(w0)) >> 17 == 0 ==> ((w0 ^ pattern_for(
                syndrome_of(w0),
            )) >> 1 | (((w0 ^ pattern_for(syndrome_of(w0))) & 1) << 16)) >> 17 == 0 && (w0 >> 1 | ((
            w0 & 1) << 16)) >> 17 == 0) by (bit_vector);
        }
        i = i + 1;
    }
    match fixed {
        Some(e) => {
            proof {
                assert(w >> 17 == 0 ==> (w >> 8) >> 9 == 0 && ((w >> 8) as u16) >> 9 == 0)
                    by (bit_vector);
            }
            Some(((w >> 8) as u16, e as usize))
        },
        None => None,
    }
}

} // verus!
