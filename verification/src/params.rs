//! Sizes of the ML-KEM-1024 parameter set.

use vstd::prelude::*;

verus! {

/// The modulus of the ML-KEM base field.
pub const Q: u16 = 3329;

/// Number of coefficients of a polynomial.
pub const NUM_COEFFICIENTS: usize = 256;

/// Number of polynomials of a vector.
pub const K: usize = 4;

/// Number of coefficients of a vector: `K * NUM_COEFFICIENTS`.
pub const VECTOR_LEN: usize = 1024;

/// Length of the seed from which the public matrix is derived.
pub const RHO_LEN: usize = 32;

/// Length of a vector that is packed with 12 bits per coefficient.
pub const T_HAT_BYTES_LEN: usize = 1536;

/// Length of an encapsulation key: a packed vector, followed by `rho`.
pub const ENCAPSULATION_KEY_LEN: usize = 1568;

/// Length of a decapsulation key.
pub const DECAPSULATION_KEY_LEN: usize = 3168;

/// Length of a ciphertext.
pub const CIPHERTEXT_LEN: usize = 1568;

/// Length of the key that an encapsulation shares.
pub const SHARED_KEY_LEN: usize = 32;

/// Length of an oblivious transfer key.
pub const BLOCK_LEN: usize = 16;

/// The seed of a public matrix.
pub type Rho = [u8; RHO_LEN];

/// The key that an encapsulation shares.
pub type SharedKey = [u8; SHARED_KEY_LEN];

/// An oblivious transfer key.
pub type Block = [u8; BLOCK_LEN];

} // verus!
