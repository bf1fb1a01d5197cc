//! Oblivious transfer from the ML-KEM key encapsulation mechanism.
//!
//! The protocol is that of Masny and Rindal, instantiated with ML-KEM-1024. In each
//! transfer the receiver has a choice bit. It sends two keys: its own encapsulation
//! key, less the hash of a random key, in the position that it chose, and the random
//! key in the other. The sender adds to each of them the hash of the other,
//! encapsulates to both, and sends the two ciphertexts back. The receiver can
//! decapsulate the one that it chose, so that it gets one of the two keys that the
//! sender gets.

pub mod codec;
pub mod error;
pub mod generator;
pub mod kem;
pub mod laws;
pub mod message;
pub mod oracle;
pub mod ot;
pub mod params;
pub mod receiver;
pub mod sample;
pub mod sender;
pub mod vector;
pub mod xof;
