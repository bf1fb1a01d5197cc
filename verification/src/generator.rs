//! The source of randomness, with a record of what was drawn from it.

use rand::rngs::StdRng;
use rand::{Rng, RngExt};
use vstd::prelude::*;

verus! {

/// What is drawn at a time.
pub type Draw = [u8; 32];

/// The generator from which all randomness is drawn: `StdRng` of the `rand` crate.
#[verifier::external_type_specification]
#[verifier::external_body]
pub struct ExStdRng(rand::rngs::StdRng);

/// Whether the record `after` is the record `before` and `count` draws more.
pub open spec fn continues(before: Seq<Draw>, after: Seq<Draw>, count: nat) -> bool {
    &&& after.len() == before.len() + count
    &&& after.take(before.len() as int) =~= before
}

/// What the record `after` holds beyond the record `before`.
pub open spec fn new_draws(before: Seq<Draw>, after: Seq<Draw>) -> Seq<Draw> {
    after.skip(before.len() as int)
}

/// Draws follow each other in the record.
pub proof fn draws_follow(
    start: Seq<Draw>,
    before: Seq<Draw>,
    count: nat,
    after: Seq<Draw>,
    more: nat,
)
    requires
        continues(start, before, count),
        continues(before, after, more),
    ensures
        continues(start, after, count + more),
        new_draws(start, after) == new_draws(start, before) + new_draws(before, after),
{
    assert forall|n: int| 0 <= n < before.len() implies #[trigger] after[n] == before[n] by {
        assert(after.take(before.len() as int)[n] == after[n]);
    }
    assert forall|n: int| 0 <= n < start.len() implies #[trigger] before[n] == start[n] by {
        assert(before.take(start.len() as int)[n] == before[n]);
    }
    assert(after.take(start.len() as int) =~= start);
    assert(new_draws(start, after) =~= new_draws(start, before) + new_draws(before, after));
}

/// `Rng::fill_bytes` of the `rand` crate on 32 bytes. Nothing is claimed of the
/// bytes.
#[verifier::external_body]
fn random_bytes(rng: &mut StdRng) -> (r: Draw) {
    let mut bytes = [0u8; 32];
    rng.fill_bytes(&mut bytes);
    bytes
}

/// `RngExt::random` of the `rand` crate for a 32-byte array. Nothing is claimed of
/// the bytes.
#[verifier::external_body]
fn random_seed(rng: &mut StdRng) -> (r: Draw) {
    rng.random()
}

/// A generator that keeps a record of its draws. The record is there for proofs only.
pub struct Generator {
    rng: StdRng,
    drawn: Ghost<Seq<Draw>>,
}

impl Generator {
    /// The underlying generator.
    pub closed spec fn rng(&self) -> StdRng {
        self.rng
    }

    /// What was drawn so far.
    pub closed spec fn drawn(&self) -> Seq<Draw> {
        self.drawn@
    }

    /// Starts the record of `rng`.
    pub fn new(rng: StdRng) -> (r: Generator)
        ensures
            r.rng() == rng,
            r.drawn() == Seq::<Draw>::empty(),
    {
        Generator { rng, drawn: Ghost(Seq::empty()) }
    }

    /// Draws the bytes with which a buffer is filled.
    pub fn draw_bytes(&mut self) -> (r: Draw)
        ensures
            final(self).drawn() == old(self).drawn().push(r),
    {
        let bytes: Draw = random_bytes(&mut self.rng);
        self.drawn = Ghost(self.drawn@.push(bytes));
        bytes
    }

    /// Draws a random array.
    pub fn draw_seed(&mut self) -> (r: Draw)
        ensures
            final(self).drawn() == old(self).drawn().push(r),
    {
        let seed: Draw = random_seed(&mut self.rng);
        self.drawn = Ghost(self.drawn@.push(seed));
        seed
    }
}

/// A record only grows: what was drawn before stays where it was, and what was drawn
/// since then follows in the order of the draws. Draw number `k` of the new ones is
/// entry number `before.len() + k` of the record.
pub proof fn records_only_grow(before: Seq<Draw>, after: Seq<Draw>, count: nat, n: int, k: int)
    requires
        continues(before, after, count),
    ensures
        after.len() == before.len() + count,
        new_draws(before, after).len() == count,
        0 <= n < before.len() ==> after[n] == before[n],
        0 <= k < count ==> new_draws(before, after)[k] == after[before.len() + k],
{
    if 0 <= n < before.len() {
        assert(after.take(before.len() as int)[n] == after[n]);
    }
}

/// What is new in a record is what was added at its end.
pub proof fn added_draws_are_new(before: Seq<Draw>, added: Seq<Draw>)
    ensures
        continues(before, before + added, added.len()),
        new_draws(before, before + added) == added,
{
    assert((before + added).take(before.len() as int) =~= before);
    assert(new_draws(before, before + added) =~= added);
}

} // verus!
