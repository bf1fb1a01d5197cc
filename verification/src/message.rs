//! The two messages of the protocol.

use crate::kem::{CtBytes, EncapKeyBytes};
use vstd::prelude::*;

verus! {

/// Message from the receiver to the sender: two keys for every transfer.
#[derive(Debug)]
pub struct EncapsulationKeysMessage {
    pub eks0: Vec<EncapKeyBytes>,
    pub eks1: Vec<EncapKeyBytes>,
}

/// Message from the sender to the receiver: two ciphertexts for every transfer.
#[derive(Debug)]
pub struct CiphertextsMessage {
    pub cts0: Vec<CtBytes>,
    pub cts1: Vec<CtBytes>,
}

impl EncapsulationKeysMessage {
    /// Whether the message holds two keys for each of `count` transfers.
    pub open spec fn has_count(&self, count: nat) -> bool {
        self.eks0@.len() == count && self.eks1@.len() == count
    }
}

impl CiphertextsMessage {
    /// Whether the message holds two ciphertexts for each of `count` transfers.
    pub open spec fn has_count(&self, count: nat) -> bool {
        self.cts0@.len() == count && self.cts1@.len() == count
    }
}

/// A message has the count of its transfers if both of its lists have.
pub proof fn counts_are_those_of_both_lists(
    keys: EncapsulationKeysMessage,
    cts: CiphertextsMessage,
    count: nat,
)
    ensures
        keys.has_count(count) <==> keys.eks0@.len() == count && keys.eks1@.len() == count,
        cts.has_count(count) <==> cts.cts0@.len() == count && cts.cts1@.len() == count,
{
}

} // verus!
