//! The receiver's side of a transfer.

use crate::codec::{
    is_canonical_key, key_bytes, key_rho, key_vector, parse_ek, serialize_ek,
};
use crate::error::Error;
use crate::generator::{continues, draws_follow, new_draws, Draw};
use crate::kem::{
    decapsulate, generate, ml_kem_decapsulation, ml_kem_key_pair, random_ek, CtBytes,
    DecapKeyBytes, EncapKeyBytes,
};
use crate::message::{CiphertextsMessage, EncapsulationKeysMessage};
use crate::ot::MlKemOt;
use crate::oracle::{accepts_all, answers, hash, oracle_input};
use crate::params::{Block, SharedKey};
use crate::sample::{hash_to_key, key_hash, sample_vector};
use crate::vector::{vector_difference, NttVector};
use vstd::prelude::*;

verus! {

/// The two keys of a transfer if the receiver's own key is `ek`, the random vector
/// is `random`, and `mask` is its hash: the own key, less the mask, in the chosen
/// position, and the random vector in the other. Both have the `rho` of `ek`.
pub open spec fn masked_keys(
    ek: Seq<u8>,
    random: Seq<u16>,
    mask: Seq<u16>,
    choice: bool,
) -> (Seq<u8>, Seq<u8>) {
    let correlated = key_bytes(vector_difference(key_vector(ek), mask), key_rho(ek));
    let other = key_bytes(random, key_rho(ek));
    if choice {
        (other, correlated)
    } else {
        (correlated, other)
    }
}

/// The two keys of a transfer if the receiver's own key is `ek` and the random
/// vector is `random`.
pub open spec fn offered_keys(ek: Seq<u8>, random: Seq<u16>, choice: bool) -> Option<
    (Seq<u8>, Seq<u8>),
> {
    match key_hash(random) {
        Some(mask) => Some(masked_keys(ek, random, mask, choice)),
        None => None,
    }
}

/// Whether `r0` and `r1` are what the receiver may send for `choice` if its own key
/// is `ek` and the random vector is sampled from `seed`.
pub open spec fn is_offered(
    ek: Seq<u8>,
    seed: Seq<u8>,
    choice: bool,
    r0: Seq<u8>,
    r1: Seq<u8>,
) -> bool {
    match sample_vector(seed) {
        Some(random) => offered_keys(ek, random, choice) == Some((r0, r1)),
        None => false,
    }
}

/// The key pair of transfer number `i`: the decapsulation key and the encapsulation
/// key that the first two of its three draws give.
pub open spec fn drawn_pair(draws: Seq<Draw>, i: int) -> (Seq<u8>, Seq<u8>) {
    ml_kem_key_pair(draws[3 * i]@, draws[3 * i + 1]@)
}

/// The seed of the random vector of transfer number `i`: the last of its three draws.
pub open spec fn drawn_seed(draws: Seq<Draw>, i: int) -> Seq<u8> {
    draws[3 * i + 2]@
}

/// Whether the receiver keeps `dk` and sends `r0` and `r1` for `choice` if `draws` are
/// its draws, and the transfer is number `i`.
pub open spec fn is_drawn_offer(
    draws: Seq<Draw>,
    i: int,
    choice: bool,
    dk: Seq<u8>,
    r0: Seq<u8>,
    r1: Seq<u8>,
) -> bool {
    &&& dk == drawn_pair(draws, i).0
    &&& is_canonical_key(drawn_pair(draws, i).1)
    &&& is_offered(drawn_pair(draws, i).1, drawn_seed(draws, i), choice, r0, r1)
}

/// Whether the keys that the receiver sends for `choices`, and the decapsulation
/// keys that it keeps, are those that `draws` gives: three draws for each transfer.
pub open spec fn all_offered(
    choices: Seq<bool>,
    draws: Seq<Draw>,
    decap_keys: Seq<DecapKeyBytes>,
    eks0: Seq<EncapKeyBytes>,
    eks1: Seq<EncapKeyBytes>,
) -> bool {
    &&& draws.len() == 3 * choices.len()
    &&& decap_keys.len() == choices.len()
    &&& eks0.len() == choices.len()
    &&& eks1.len() == choices.len()
    &&& forall|i: int|
        0 <= i < choices.len() ==> is_drawn_offer(
            draws,
            i,
            #[trigger] choices[i],
            decap_keys[i].0@,
            eks0[i].0@,
            eks1[i].0@,
        )
}

/// Whether `seed` gives a random vector, and one with a hash.
pub open spec fn has_offer(seed: Seq<u8>) -> bool {
    match sample_vector(seed) {
        Some(random) => key_hash(random) is Some,
        None => false,
    }
}

/// Whether `draws` are the draws for at most `count` transfers, of which the last has
/// a seed that gives no offer, and the others do not.
pub open spec fn fails_at_last(draws: Seq<Draw>, count: nat) -> bool {
    let last = draws.len() as int / 3 - 1;
    &&& draws.len() % 3 == 0
    &&& 0 <= last < count
    &&& !has_offer(drawn_seed(draws, last))
    &&& forall|i: int| 0 <= i < last ==> has_offer(#[trigger] drawn_seed(draws, i))
}

/// Whether `block` is what the receiver may get in transfer number `i` from the two
/// ciphertexts.
pub open spec fn is_received<O: Fn(Vec<u8>) -> Block>(
    oracle: O,
    dk: Seq<u8>,
    choice: bool,
    ct0: Seq<u8>,
    ct1: Seq<u8>,
    i: int,
    block: Block,
) -> bool {
    let ct = if choice {
        ct1
    } else {
        ct0
    };
    answers(oracle, oracle_input(ml_kem_decapsulation(dk, ct), i as usize), block)
}

/// Whether `ots` is what the receiver may get from the first transfers of `cts`.
pub open spec fn all_received<O: Fn(Vec<u8>) -> Block>(
    oracle: O,
    decap_keys: Seq<DecapKeyBytes>,
    choices: Seq<bool>,
    cts: CiphertextsMessage,
    ots: Seq<Block>,
) -> bool {
    forall|i: int|
        0 <= i < ots.len() ==> is_received(
            oracle,
            decap_keys[i].0@,
            choices[i],
            cts.cts0@[i].0@,
            cts.cts1@[i].0@,
            i,
            #[trigger] ots[i],
        )
}

/// Masks the receiver's own key, and orders it and the random vector by the choice
/// in constant time.
pub fn mask_key(ek: &EncapKeyBytes, random: &NttVector, mask: &NttVector, choice: bool) -> (r: (
    EncapKeyBytes,
    EncapKeyBytes,
))
    ensures
        (r.0.0@, r.1.0@) == masked_keys(ek.0@, random@, mask@, choice),
{
    let (own, rho) = parse_ek(&ek.0);
    let correlated = EncapKeyBytes(serialize_ek(&own.minus(mask), &rho));
    let other = EncapKeyBytes(serialize_ek(random, &rho));
    let r0 = EncapKeyBytes::conditional_select(&correlated, &other, choice);
    let r1 = EncapKeyBytes::conditional_select(&other, &correlated, choice);
    (r0, r1)
}

/// Masks the receiver's own key with the hash of the random vector, and orders the
/// two by the choice.
pub fn offer_keys(ek: &EncapKeyBytes, random: &NttVector, choice: bool) -> (r: Option<
    (EncapKeyBytes, EncapKeyBytes),
>)
    ensures
        r is Some <==> offered_keys(ek.0@, random@, choice) is Some,
        r is Some ==> ((r->0).0.0@, (r->0).1.0@) == offered_keys(ek.0@, random@, choice)->0,
{
    match hash_to_key(random) {
        Some(mask) => Some(mask_key(ek, random, &mask, choice)),
        None => None,
    }
}

/// What the receiver keeps between its message and the sender's.
pub struct PendingReceive {
    decap_keys: Vec<DecapKeyBytes>,
    choices: Vec<bool>,
}

impl PendingReceive {
    /// There is one decapsulation key for every choice.
    #[verifier::type_invariant]
    spec fn well_formed(self) -> bool {
        self.decap_keys().len() == self.choices().len()
    }

    /// The decapsulation keys, one for every transfer.
    pub closed spec fn decap_keys(&self) -> Seq<DecapKeyBytes> {
        self.decap_keys@
    }

    /// The choices, one for every transfer.
    pub closed spec fn choices(&self) -> Seq<bool> {
        self.choices@
    }

    /// Decapsulates the chosen ciphertext of each transfer. `ots` has one entry for
    /// each transfer, which gets the key of the receiver; `message` is what came
    /// from the sender, if anything came.
    pub fn receive_into<O: Fn(Vec<u8>) -> Block>(
        &self,
        ots: &mut Vec<Block>,
        message: Option<CiphertextsMessage>,
        oracle: &O,
    ) -> (r: Result<(), Error>)
        requires
            accepts_all(*oracle),
            old(ots)@.len() == self.choices().len(),
        ensures
            message is None ==> r == Err::<(), Error>(Error::ClosedStream),
            message is Some && !(message->0).has_count(old(ots)@.len()) ==> r == Err::<(), Error>(
                Error::InvalidDataCount {
                    expected: old(ots)@.len() as usize,
                    actual0: (message->0).cts0@.len() as usize,
                    actual1: (message->0).cts1@.len() as usize,
                },
            ),
            message is Some && (message->0).has_count(old(ots)@.len()) ==> {
                &&& r is Ok
                &&& final(ots)@.len() == old(ots)@.len()
                &&& all_received(
                    *oracle,
                    self.decap_keys(),
                    self.choices(),
                    message->0,
                    final(ots)@,
                )
            },
            r is Err ==> final(ots)@ == old(ots)@,
    {
        proof {
            use_type_invariant(self);
        }
        let count: usize = ots.len();
        let cts = match message {
            None => {
                return Err(Error::ClosedStream);
            },
            Some(cts) => cts,
        };
        if cts.cts0.len() != count || cts.cts1.len() != count {
            return Err(
                Error::InvalidDataCount {
                    expected: count,
                    actual0: cts.cts0.len(),
                    actual1: cts.cts1.len(),
                },
            );
        }
        let mut blocks: Vec<Block> = Vec::with_capacity(count);
        let mut i: usize = 0;
        while i < count
            invariant
                accepts_all(*oracle),
                message == Some(cts),
                cts.has_count(count as nat),
                count == self.choices@.len(),
                count == self.decap_keys@.len(),
                i <= count,
                blocks@.len() == i,
                all_received(*oracle, self.decap_keys@, self.choices@, cts, blocks@),
            decreases count - i,
        {
            let ct = CtBytes::conditional_select(&cts.cts0[i], &cts.cts1[i], self.choices[i]);
            let shared = decapsulate(&self.decap_keys[i], &ct);
            match receiver_key(oracle, shared, i) {
                Ok(block) => {
                    blocks.push(block);
                },
                Err(error) => {
                    return Err(error);
                },
            }
            i = i + 1;
        }
        *ots = blocks;
        Ok(())
    }
}

/// Derives the receiver's key of transfer number `i` from the outcome of the
/// decapsulation.
pub fn receiver_key<O: Fn(Vec<u8>) -> Block>(
    oracle: &O,
    shared: Result<SharedKey, ()>,
    i: usize,
) -> (r: Result<Block, Error>)
    requires
        accepts_all(*oracle),
    ensures
        shared is Err ==> r == Err::<Block, Error>(Error::Decapsulation),
        shared is Ok ==> r is Ok && answers(
            *oracle,
            oracle_input((shared->Ok_0)@, i),
            r->Ok_0,
        ),
{
    match shared {
        Ok(key) => Ok(hash(oracle, &key, i)),
        Err(_) => Err(Error::Decapsulation),
    }
}

impl MlKemOt {
    /// Generates the receiver's keys, and the message that offers them to the sender.
    /// Nothing is drawn from the generator where there are no choices.
    pub fn receive_begin(&mut self, choices: &Vec<bool>) -> (r: Result<
        (PendingReceive, EncapsulationKeysMessage),
        Error,
    >)
        ensures
            r is Ok ==> {
                let (pending, message) = r->Ok_0;
                &&& pending.choices() == choices@
                &&& all_offered(
                    choices@,
                    new_draws(old(self).drawn(), final(self).drawn()),
                    pending.decap_keys(),
                    message.eks0@,
                    message.eks1@,
                )
            },
            r is Err ==> r->Err_0 == Error::SamplingExhausted && fails_at_last(
                new_draws(old(self).drawn(), final(self).drawn()),
                choices@.len(),
            ),
            choices@.len() == 0 ==> *final(self) == *old(self),
            old(self).drawn().is_prefix_of(final(self).drawn()),
    {
        let count: usize = choices.len();
        let mut decap_keys: Vec<DecapKeyBytes> = Vec::with_capacity(count);
        let mut eks0: Vec<EncapKeyBytes> = Vec::with_capacity(count);
        let mut eks1: Vec<EncapKeyBytes> = Vec::with_capacity(count);
        let mut kept: Vec<bool> = Vec::with_capacity(count);
        let mut i: usize = 0;
        while i < count
            invariant
                count == choices@.len(),
                i <= count,
                i == 0 ==> *self == *old(self),
                continues(old(self).drawn(), self.drawn(), 3 * i as nat),
                kept@ == choices@.take(i as int),
                all_offered(
                    kept@,
                    new_draws(old(self).drawn(), self.drawn()),
                    decap_keys@,
                    eks0@,
                    eks1@,
                ),
            decreases count - i,
        {
            let choice: bool = choices[i];
            let ghost drawn = self.drawn();
            let (dk, ek) = generate(&mut self.generator);
            let ghost drawn_keys = self.drawn();
            let random = random_ek(&mut self.generator);
            proof {
                draws_follow(drawn, drawn_keys, 2, self.drawn(), 1);
                draws_follow(old(self).drawn(), drawn, 3 * i as nat, self.drawn(), 3);
                let before = new_draws(old(self).drawn(), drawn);
                let after = new_draws(old(self).drawn(), self.drawn());
                assert((dk.0@, ek.0@) == drawn_pair(after, i as int));
                assert forall|n: int| 0 <= n < i implies has_offer(
                    #[trigger] drawn_seed(after, n),
                ) by {
                    assert(is_drawn_offer(
                        before,
                        n,
                        kept@[n],
                        decap_keys@[n].0@,
                        eks0@[n].0@,
                        eks1@[n].0@,
                    ));
                }
            }
            let random = match random {
                None => {
                    return Err(Error::SamplingExhausted);
                },
                Some(random) => random,
            };
            let (ek0, ek1) = match offer_keys(&ek, &random, choice) {
                None => {
                    return Err(Error::SamplingExhausted);
                },
                Some(keys) => keys,
            };
            decap_keys.push(dk);
            eks0.push(ek0);
            eks1.push(ek1);
            kept.push(choice);
            i = i + 1;
            proof {
                assert(kept@ =~= choices@.take(i as int));
                let before = new_draws(old(self).drawn(), drawn);
                let after = new_draws(old(self).drawn(), self.drawn());
                assert forall|n: int| 0 <= n < i implies is_drawn_offer(
                    after,
                    n,
                    #[trigger] kept@[n],
                    decap_keys@[n].0@,
                    eks0@[n].0@,
                    eks1@[n].0@,
                ) by {
                    if n < i - 1 {
                        assert(is_drawn_offer(
                            before,
                            n,
                            choices@.take(i - 1)[n],
                            decap_keys@[n].0@,
                            eks0@[n].0@,
                            eks1@[n].0@,
                        ));
                    }
                }
            }
        }
        assert(kept@ =~= choices@);
        Ok((PendingReceive { decap_keys, choices: kept }, EncapsulationKeysMessage { eks0, eks1 }))
    }
}

} // verus!
