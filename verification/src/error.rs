//! What can go wrong in a transfer.

use vstd::prelude::*;

verus! {

/// An error of a transfer.
#[derive(Clone, Copy, Debug, PartialEq, Eq)]
pub enum Error {
    /// A message holds a number of keys or ciphertexts that is not the number of
    /// transfers.
    InvalidDataCount { expected: usize, actual0: usize, actual1: usize },
    /// A message was expected, but the stream is closed.
    ClosedStream,
    /// The decapsulation of a ciphertext failed.
    Decapsulation,
    /// As much of an output stream as can be read holds too few values for a
    /// polynomial.
    SamplingExhausted,
}

} // verus!
