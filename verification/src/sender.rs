//! The sender's side of a transfer.

use crate::codec::{key_bytes, key_rho, key_vector, parse_ek, serialize_ek};
use crate::error::Error;
use crate::generator::{continues, draws_follow, new_draws, Draw};
use crate::kem::{encapsulate, ml_kem_encapsulation, CtBytes, EncapKeyBytes};
use crate::message::{CiphertextsMessage, EncapsulationKeysMessage};
use crate::ot::MlKemOt;
use crate::oracle::{accepts_all, answers, hash, oracle_input};
use crate::params::Block;
use crate::sample::{hash_to_key, key_hash};
use crate::vector::{vector_sum, NttVector};
use vstd::prelude::*;

verus! {

/// The encapsulation keys that the sender gets from the two keys `r0` and `r1` of a
/// transfer, if `h0` and `h1` are the hashes of their vectors. Both have the `rho`
/// of `r0`.
pub open spec fn unmasked_keys(
    r0: Seq<u8>,
    r1: Seq<u8>,
    h0: Seq<u16>,
    h1: Seq<u16>,
) -> (Seq<u8>, Seq<u8>) {
    (
        key_bytes(vector_sum(key_vector(r0), h1), key_rho(r0)),
        key_bytes(vector_sum(key_vector(r1), h0), key_rho(r0)),
    )
}

/// The encapsulation keys that the sender gets from the two keys of a transfer.
pub open spec fn reconstructed_keys(r0: Seq<u8>, r1: Seq<u8>) -> Option<(Seq<u8>, Seq<u8>)> {
    match (key_hash(key_vector(r0)), key_hash(key_vector(r1))) {
        (Some(h0), Some(h1)) => Some(unmasked_keys(r0, r1, h0, h1)),
        _ => None,
    }
}

/// Whether `ct` is the ciphertext and `block` a key of the sender when the message
/// `m` is encapsulated to `ek` in transfer number `i`.
pub open spec fn is_encapsulated<O: Fn(Vec<u8>) -> Block>(
    oracle: O,
    ek: Seq<u8>,
    m: Seq<u8>,
    i: int,
    ct: Seq<u8>,
    block: Block,
) -> bool {
    let encapsulation = ml_kem_encapsulation(ek, m);
    &&& ct == encapsulation.0
    &&& answers(oracle, oracle_input(encapsulation.1, i as usize), block)
}

/// Whether `ct0`, `ct1` and `blocks` are what the sender may get from the keys `r0`
/// and `r1` in transfer number `i` when it encapsulates `m0` and `m1`.
pub open spec fn is_sent<O: Fn(Vec<u8>) -> Block>(
    oracle: O,
    r0: Seq<u8>,
    r1: Seq<u8>,
    m0: Seq<u8>,
    m1: Seq<u8>,
    i: int,
    ct0: Seq<u8>,
    ct1: Seq<u8>,
    blocks: [Block; 2],
) -> bool {
    match reconstructed_keys(r0, r1) {
        Some(eks) => {
            &&& is_encapsulated(oracle, eks.0, m0, i, ct0, blocks@[0])
            &&& is_encapsulated(oracle, eks.1, m1, i, ct1, blocks@[1])
        },
        None => false,
    }
}

/// Whether the ciphertexts and `ots` are what the sender may get from the first
/// `count` transfers of `keys` when it draws `draws`: two messages for each transfer.
pub open spec fn all_sent<O: Fn(Vec<u8>) -> Block>(
    oracle: O,
    keys: EncapsulationKeysMessage,
    count: nat,
    draws: Seq<Draw>,
    cts0: Seq<CtBytes>,
    cts1: Seq<CtBytes>,
    ots: Seq<[Block; 2]>,
) -> bool {
    &&& draws.len() == 2 * count
    &&& cts0.len() == count
    &&& cts1.len() == count
    &&& ots.len() == count
    &&& forall|i: int|
        0 <= i < count ==> is_sent(
            oracle,
            keys.eks0@[i].0@,
            keys.eks1@[i].0@,
            draws[2 * i]@,
            draws[2 * i + 1]@,
            i,
            cts0[i].0@,
            cts1[i].0@,
            #[trigger] ots[i],
        )
}

/// Whether the two keys of transfer number `k`, and of no transfer before it, give no
/// encapsulation keys.
pub open spec fn fails_first_at(keys: EncapsulationKeysMessage, k: int) -> bool {
    &&& 0 <= k < keys.eks0@.len()
    &&& reconstructed_keys(keys.eks0@[k].0@, keys.eks1@[k].0@) is None
    &&& forall|i: int|
        0 <= i < k ==> reconstructed_keys(
            #[trigger] keys.eks0@[i].0@,
            keys.eks1@[i].0@,
        ) is Some
}

/// Adds to each key of a transfer the hash of the other: `h0` belongs to `r0`, and
/// `h1` to `r1`.
pub fn unmask_keys(
    r0: &EncapKeyBytes,
    r1: &EncapKeyBytes,
    h0: &NttVector,
    h1: &NttVector,
) -> (r: (EncapKeyBytes, EncapKeyBytes))
    ensures
        (r.0.0@, r.1.0@) == unmasked_keys(r0.0@, r1.0@, h0@, h1@),
{
    let (t0, rho) = parse_ek(&r0.0);
    let (t1, _rho1) = parse_ek(&r1.0);
    let ek0 = EncapKeyBytes(serialize_ek(&t0.plus(h1), &rho));
    let ek1 = EncapKeyBytes(serialize_ek(&t1.plus(h0), &rho));
    (ek0, ek1)
}

/// Reconstructs the encapsulation keys from the two keys of a transfer.
pub fn reconstruct_keys(r0: &EncapKeyBytes, r1: &EncapKeyBytes) -> (r: Option<
    (EncapKeyBytes, EncapKeyBytes),
>)
    ensures
        r is Some <==> reconstructed_keys(r0.0@, r1.0@) is Some,
        r is Some ==> ((r->0).0.0@, (r->0).1.0@) == reconstructed_keys(r0.0@, r1.0@)->0,
{
    let (t0, _rho0) = parse_ek(&r0.0);
    let (t1, _rho1) = parse_ek(&r1.0);
    let h0 = hash_to_key(&t0);
    let h1 = hash_to_key(&t1);
    match (h0, h1) {
        (Some(h0), Some(h1)) => Some(unmask_keys(r0, r1, &h0, &h1)),
        _ => None,
    }
}

impl MlKemOt {
    /// Encapsulates to both keys of each transfer. `ots` has one entry for each
    /// transfer, which gets the two keys of the sender; `message` is what came from the
    /// receiver, if anything came. Nothing is drawn from the generator where there is
    /// nothing to encapsulate to.
    pub fn send_into<O: Fn(Vec<u8>) -> Block>(
        &mut self,
        ots: &mut Vec<[Block; 2]>,
        message: Option<EncapsulationKeysMessage>,
        oracle: &O,
    ) -> (r: Result<CiphertextsMessage, Error>)
        requires
            accepts_all(*oracle),
        ensures
            message is None ==> r == Err::<CiphertextsMessage, Error>(Error::ClosedStream),
            message is Some && !(message->0).has_count(old(ots)@.len()) ==> r == Err::<
                CiphertextsMessage,
                Error,
            >(
                Error::InvalidDataCount {
                    expected: old(ots)@.len() as usize,
                    actual0: (message->0).eks0@.len() as usize,
                    actual1: (message->0).eks1@.len() as usize,
                },
            ),
            message is Some && (message->0).has_count(old(ots)@.len()) ==> {
                let keys = message->0;
                let samples = forall|i: int|
                    0 <= i < old(ots)@.len() ==> reconstructed_keys(
                        #[trigger] keys.eks0@[i].0@,
                        keys.eks1@[i].0@,
                    ) is Some;
                let draws = new_draws(old(self).drawn(), final(self).drawn());
                &&& samples ==> r is Ok && all_sent(
                    *oracle,
                    keys,
                    old(ots)@.len(),
                    draws,
                    (r->Ok_0).cts0@,
                    (r->Ok_0).cts1@,
                    final(ots)@,
                )
                &&& !samples ==> {
                    &&& r == Err::<CiphertextsMessage, Error>(Error::SamplingExhausted)
                    &&& draws.len() % 2 == 0
                    &&& fails_first_at(keys, draws.len() as int / 2)
                }
            },
            r is Err ==> final(ots)@ == old(ots)@,
            message is None || !(message->0).has_count(old(ots)@.len()) || old(ots)@.len() == 0
                ==> *final(self) == *old(self),
            old(self).drawn().is_prefix_of(final(self).drawn()),
    {
        let count: usize = ots.len();
        let keys = match message {
            None => {
                return Err(Error::ClosedStream);
            },
            Some(keys) => keys,
        };
        if keys.eks0.len() != count || keys.eks1.len() != count {
            return Err(
                Error::InvalidDataCount {
                    expected: count,
                    actual0: keys.eks0.len(),
                    actual1: keys.eks1.len(),
                },
            );
        }
        let mut cts0: Vec<CtBytes> = Vec::with_capacity(count);
        let mut cts1: Vec<CtBytes> = Vec::with_capacity(count);
        let mut blocks: Vec<[Block; 2]> = Vec::with_capacity(count);
        let mut i: usize = 0;
        while i < count
            invariant
                accepts_all(*oracle),
                message == Some(keys),
                keys.has_count(count as nat),
                count == ots@.len(),
                ots@ == old(ots)@,
                i <= count,
                i == 0 ==> *self == *old(self),
                continues(old(self).drawn(), self.drawn(), 2 * i as nat),
                all_sent(
                    *oracle,
                    keys,
                    i as nat,
                    new_draws(old(self).drawn(), self.drawn()),
                    cts0@,
                    cts1@,
                    blocks@,
                ),
                forall|n: int|
                    0 <= n < i ==> reconstructed_keys(
                        #[trigger] keys.eks0@[n].0@,
                        keys.eks1@[n].0@,
                    ) is Some,
            decreases count - i,
        {
            let (ek0, ek1) = match reconstruct_keys(&keys.eks0[i], &keys.eks1[i]) {
                None => {
                    assert(reconstructed_keys(
                        keys.eks0@[i as int].0@,
                        keys.eks1@[i as int].0@,
                    ) is None);
                    return Err(Error::SamplingExhausted);
                },
                Some(eks) => eks,
            };
            let ghost drawn = self.drawn();
            let (ct0, shared0) = encapsulate(&ek0, &mut self.generator);
            let key0: Block = hash(oracle, &shared0, i);
            let ghost drawn0 = self.drawn();
            let (ct1, shared1) = encapsulate(&ek1, &mut self.generator);
            let key1: Block = hash(oracle, &shared1, i);
            cts0.push(ct0);
            cts1.push(ct1);
            blocks.push([key0, key1]);
            i = i + 1;
            proof {
                draws_follow(drawn, drawn0, 1, self.drawn(), 1);
                draws_follow(old(self).drawn(), drawn, (2 * (i - 1)) as nat, self.drawn(), 2);
            }
        }
        *ots = blocks;
        Ok(CiphertextsMessage { cts0, cts1 })
    }
}

} // verus!
