//! Bit-field vector-matrix multiplication over GF(2), the linear-algebra
//! primitive behind both the encoder and the syndrome computation.

use vstd::prelude::*;
use crate::bits::parity;

verus! {

/// GF(2) dot product of two bit vectors: the parity of the bits they share.
pub open spec fn dot(word: u32, row: u32) -> u32 {
    parity(word & row)
}

/// Multiply the bit vector `word` by the matrix whose rows are `rows`,
/// starting from the accumulator `init`: each row in turn shifts its GF(2)
/// dot product with `word` into the low end of the accumulator. With
/// `init == 0` this is the plain product; with `init == word` it is the
/// systematic product, the parity bits appended below the word itself.
pub open spec fn mat_mul(word: u32, rows: Seq<u32>, init: u32) -> u32
    decreases rows.len(),
{
    if rows.len() == 0 {
        init
    } else {
        (mat_mul(word, rows.drop_last(), init) << 1) | dot(word, rows.last())
    }
}

/// Relies on `binfield_matrix::matrix_mul`: starting from a zero accumulator,
/// each matrix row shifts the GF(2) dot product of `word` and that row into
/// the accumulator's low end.
#[verifier::external_body]
pub(crate) fn mul_rows(word: u32, mat: &Vec<u32>) -> (r: u32)
    ensures
        r == mat_mul(word, mat@, 0),
{
    binfield_matrix::matrix_mul(word, mat)
}

/// Relies on `binfield_matrix::matrix_mul_systematic`: the same fold as
/// `matrix_mul`, but the accumulator starts as `word` itself, so the parity
/// bits end up appended below the input word.
#[verifier::external_body]
pub(crate) fn mul_rows_systematic(word: u32, mat: &Vec<u32>) -> (r: u32)
    ensures
        r == mat_mul(word, mat@, word),
{
    binfield_matrix::matrix_mul_systematic(word, mat)
}

/// Unrolled form of an 8-row product: the accumulator shifted up by 8,
/// followed by the 8 dot-product bits, most significant first.
pub proof fn lemma_mat_mul_unroll8(w: u32, rows: Seq<u32>, init: u32)
    requires
        rows.len() == 8,
    ensures
        mat_mul(w, rows, init) == (init << 8) | (dot(w, rows[0]) << 7) | (dot(w, rows[1]) << 6)
            | (dot(w, rows[2]) << 5) | (dot(w, rows[3]) << 4) | (dot(w, rows[4]) << 3) | (dot(
            w,
            rows[5],
        ) << 2) | (dot(w, rows[6]) << 1) | dot(w, rows[7]),
{
    reveal_with_fuel(mat_mul, 9);
    let b0 = dot(w, rows[0]);
    let b1 = dot(w, rows[1]);
    let b2 = dot(w, rows[2]);
    let b3 = dot(w, rows[3]);
    let b4 = dot(w, rows[4]);
    let b5 = dot(w, rows[5]);
    let b6 = dot(w, rows[6]);
    let b7 = dot(w, rows[7]);
    let m = mat_mul(w, rows, init);
    assert(m == ((((((((init << 1 | b0) << 1 | b1) << 1 | b2) << 1 | b3) << 1 | b4) << 1 | b5) << 1
        | b6) << 1 | b7));
    assert(m == (init << 8) | (b0 << 7) | (b1 << 6) | (b2 << 5) | (b3 << 4) | (b4 << 3) | (b5
        << 2) | (b6 << 1) | b7) by (bit_vector)
        requires
            m == ((((((((init << 1 | b0) << 1 | b1) << 1 | b2) << 1 | b3) << 1 | b4) << 1 | b5)
                << 1 | b6) << 1 | b7),
    ;
}

} // verus!
