//! The constant tables that define the (17, 9, 5) code: the generator matrix
//! (parity part only), the parity-check matrix, and the syndrome-to-pattern
//! table used by the Meggitt decoder.

use vstd::prelude::*;

verus! {

/// Row 0 of the transposed generator matrix, without the identity part. Each
/// row is 9 bits wide; row 0 produces the most significant parity bit.
pub const GEN_0: u32 = 0b100111100;

pub const GEN_1: u32 = 0b010011110;

pub const GEN_2: u32 = 0b001001111;

pub const GEN_3: u32 = 0b100011011;

pub const GEN_4: u32 = 0b110110001;

pub const GEN_5: u32 = 0b111100100;

pub const GEN_6: u32 = 0b011110010;

pub const GEN_7: u32 = 0b001111001;

/// Row 0 of the transposed parity-check matrix, derived from the generator
/// matrix by the standard systematic-code construction. Each row is 17 bits
/// wide; row 0 produces the most significant syndrome bit.
pub const PAR_0: u32 = 0b10011110010000000;

pub const PAR_1: u32 = 0b01001111001000000;

pub const PAR_2: u32 = 0b00100111100100000;

pub const PAR_3: u32 = 0b10001101100010000;

pub const PAR_4: u32 = 0b11011000100001000;

pub const PAR_5: u32 = 0b11110010000000100;

pub const PAR_6: u32 = 0b01111001000000010;

pub const PAR_7: u32 = 0b00111100100000001;

/// The rows of the transposed generator matrix, in order.
pub open spec fn gen_rows() -> Seq<u32> {
    seq![GEN_0, GEN_1, GEN_2, GEN_3, GEN_4, GEN_5, GEN_6, GEN_7]
}

/// The rows of the transposed parity-check matrix, in order.
pub open spec fn par_rows() -> Seq<u32> {
    seq![PAR_0, PAR_1, PAR_2, PAR_3, PAR_4, PAR_5, PAR_6, PAR_7]
}

/// Maps an 8-bit syndrome to the 17-bit error pattern that explains it, or to
/// zero when no correctable pattern does. Because the code is cyclic, only
/// patterns whose lowest bit is set are stored: every other correctable error
/// is reached through rotation during the decoder's 17-step walk.
pub open spec fn pattern_for(s: u32) -> u32 {
    if s == 1 {
        0b00000000000000001u32
    } else if s == 3 {
        0b00000000000000011u32
    } else if s == 5 {
        0b00000000000000101u32
    } else if s == 9 {
        0b00000000000001001u32
    } else if s == 17 {
        0b00000000000010001u32
    } else if s == 33 {
        0b00000000000100001u32
    } else if s == 38 {
        0b00100000000000001u32
    } else if s == 56 {
        0b00000000100000001u32
    } else if s == 65 {
        0b00000000001000001u32
    } else if s == 79 {
        0b01000000000000001u32
    } else if s == 115 {
        0b00000001000000001u32
    } else if s == 129 {
        0b00000000010000001u32
    } else if s == 142 {
        0b00010000000000001u32
    } else if s == 157 {
        0b10000000000000001u32
    } else if s == 218 {
        0b00001000000000001u32
    } else if s == 229 {
        0b00000010000000001u32
    } else if s == 240 {
        0b00000100000000001u32
    } else {
        0u32
    }
}

/// Build the generator matrix rows as a vector.
pub fn gen_matrix() -> (m: Vec<u32>)
    ensures
        m@ == gen_rows(),
{
    let mut m: Vec<u32> = Vec::new();
    m.push(GEN_0);
    m.push(GEN_1);
    m.push(GEN_2);
    m.push(GEN_3);
    m.push(GEN_4);
    m.push(GEN_5);
    m.push(GEN_6);
    m.push(GEN_7);
    proof {
        assert(m@ =~= gen_rows());
    }
    m
}

/// Build the parity-check matrix rows as a vector.
pub fn par_matrix() -> (m: Vec<u32>)
    ensures
        m@ == par_rows(),
{
    let mut m: Vec<u32> = Vec::new();
    m.push(PAR_0);
    m.push(PAR_1);
    m.push(PAR_2);
    m.push(PAR_3);
    m.push(PAR_4);
    m.push(PAR_5);
    m.push(PAR_6);
    m.push(PAR_7);
    proof {
        assert(m@ =~= par_rows());
    }
    m
}

/// Look up the error pattern for a syndrome.
pub fn pattern_lookup(s: u32) -> (pat: u32)
    ensures
        pat == pattern_for(s),
{
    match s {
        1 => 0b00000000000000001,
        3 => 0b00000000000000011,
        5 => 0b00000000000000101,
        9 => 0b00000000000001001,
        17 => 0b00000000000010001,
        33 => 0b00000000000100001,
        38 => 0b00100000000000001,
        56 => 0b00000000100000001,
        65 => 0b00000000001000001,
        79 => 0b01000000000000001,
        115 => 0b00000001000000001,
        129 => 0b00000000010000001,
        142 => 0b00010000000000001,
        157 => 0b10000000000000001,
        218 => 0b00001000000000001,
        229 => 0b00000010000000001,
        240 => 0b00000100000000001,
        _ => 0,
    }
}

/// Every stored error pattern fits in 17 bits and flips at most 2 of them.
pub proof fn lemma_pattern_shape(s: u32)
    ensures
        pattern_for(s) >> 17 == 0,
        crate::bits::weight(pattern_for(s)) <= 2,
{
    assert(pattern_for(s) >> 17 == 0) by (bit_vector);
    assert(crate::bits::weight(pattern_for(s)) <= 2) by (bit_vector);
}

} // verus!
