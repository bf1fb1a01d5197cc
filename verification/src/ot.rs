//! The party of an oblivious transfer.

use crate::generator::{Draw, Generator};
use rand::rngs::StdRng;
use vstd::prelude::*;

verus! {

/// A party of oblivious transfers, sender or receiver.
///
/// It computes what is sent and what is kept; the messages are carried by the
/// caller. The protocol is secure against semi-honest parties only.
pub struct MlKemOt {
    pub(crate) generator: Generator,
}

impl MlKemOt {
    /// The generator from which the party draws its randomness.
    pub open(crate) spec fn rng(&self) -> StdRng {
        self.generator.rng()
    }

    /// What the party has drawn from its generator so far.
    pub open(crate) spec fn drawn(&self) -> Seq<Draw> {
        self.generator.drawn()
    }

    /// A party that draws its randomness from `rng`.
    pub fn new_with_rng(rng: StdRng) -> (r: MlKemOt)
        ensures
            r.rng() == rng,
            r.drawn() == Seq::<Draw>::empty(),
    {
        MlKemOt { generator: Generator::new(rng) }
    }
}

/// What a party has drawn is what was drawn from its generator.
pub(crate) proof fn parties_draw_from_their_generators(party: MlKemOt)
    ensures
        party.rng() == party.generator.rng(),
        party.drawn() == party.generator.drawn(),
{
}

} // verus!
