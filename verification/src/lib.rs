//! Encoding and decoding of a (17, 9, 5) binary cyclic error-correcting code.
//!
//! The code maps 9 data bits to a 17-bit systematic codeword (the data bits
//! form the high 9 bits, followed by 8 parity bits) and can correct up to 2
//! bit errors in a received word using a Meggitt-style syndrome decoder.

pub mod bits;
pub mod matrix;
pub mod tables;
pub mod codec;
pub mod laws;

pub use bits::rotate_17;
pub use codec::decode;
pub use codec::encode;
