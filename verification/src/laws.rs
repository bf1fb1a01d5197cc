//! What holds of the protocol as a whole.

use crate::codec::{
    is_canonical_key, key_bytes, key_rho, key_vector, pack, parse_after_serialize,
    serialize_after_parse,
};
use crate::generator::Draw;
use crate::kem::{
    ml_kem_decapsulation, ml_kem_encapsulation, ml_kem_key_pair, DecapKeyBytes,
};
use crate::message::{CiphertextsMessage, EncapsulationKeysMessage};
use crate::oracle::{
    answers, answers_are_values, is_function, oracle_input, transfers_ask_differently,
};
use crate::params::{Block, Rho, ENCAPSULATION_KEY_LEN};
use crate::receiver::{
    all_offered, all_received, drawn_pair, drawn_seed, fails_at_last, has_offer, is_drawn_offer,
    is_offered, is_received, masked_keys, offered_keys,
};
use crate::sample::{key_hash, sample_vector, samples_are_vectors, sha3_256_digest};
use crate::sender::{all_sent, fails_first_at, is_sent, reconstructed_keys, unmasked_keys};
use crate::vector::{
    arithmetic_keeps_vectors, coefficients_are_congruent, is_vector, sum_undoes_difference,
    vector_difference, vector_sum,
};
use vstd::prelude::*;

verus! {

/// The member of a pair that a choice names.
pub open spec fn chosen<T>(pair: (T, T), choice: bool) -> T {
    if choice {
        pair.1
    } else {
        pair.0
    }
}

/// Whether `dk` gets back the key that the encapsulation of `m` to `ek` shares.
pub open spec fn decapsulates(dk: Seq<u8>, ek: Seq<u8>, m: Seq<u8>) -> bool {
    ml_kem_decapsulation(dk, ml_kem_encapsulation(ek, m).0) == ml_kem_encapsulation(ek, m).1
}

/// The hash of a vector is a vector.
pub proof fn hashes_are_vectors(t_hat: Seq<u16>)
    ensures
        key_hash(t_hat) is Some ==> is_vector(key_hash(t_hat)->0),
{
    samples_are_vectors(sha3_256_digest(pack(t_hat)));
}

/// The two keys of an offer are canonical, have the `rho` of the receiver's own
/// key, and hold the random vector in the position that was not chosen.
pub proof fn offers_are_canonical(ek: Seq<u8>, random: Seq<u16>, choice: bool)
    requires
        ek.len() == ENCAPSULATION_KEY_LEN,
        is_vector(random),
    ensures
        offered_keys(ek, random, choice) is Some ==> {
            let offer = offered_keys(ek, random, choice)->0;
            &&& is_canonical_key(offer.0)
            &&& is_canonical_key(offer.1)
            &&& key_rho(offer.0) == key_rho(ek)
            &&& key_rho(offer.1) == key_rho(ek)
            &&& key_vector(chosen(offer, !choice)) == random
        },
{
    if offered_keys(ek, random, choice) is Some {
        let mask = key_hash(random)->0;
        hashes_are_vectors(random);
        serialize_after_parse(ek);
        arithmetic_keeps_vectors(key_vector(ek), mask);
        parse_after_serialize(vector_difference(key_vector(ek), mask), key_rho(ek));
        parse_after_serialize(random, key_rho(ek));
    }
}

/// The choice only decides the order of the two keys of an offer.
pub proof fn choice_orders_offer(ek: Seq<u8>, random: Seq<u16>)
    ensures
        offered_keys(ek, random, true) is Some <==> offered_keys(ek, random, false) is Some,
        offered_keys(ek, random, true) is Some ==> {
            let offer0 = offered_keys(ek, random, false)->0;
            let offer1 = offered_keys(ek, random, true)->0;
            offer1 == (offer0.1, offer0.0)
        },
{
}

/// The choices only decide the order of the keys in the receiver's message: if the
/// receiver draws the same for two lists of choices, it keeps the same decapsulation
/// keys, and sends the same two keys in each transfer, in the same order where the
/// choices are the same, and in the opposite order where they are not.
pub proof fn choices_order_message(
    draws: Seq<Draw>,
    choices1: Seq<bool>,
    decap_keys1: Seq<DecapKeyBytes>,
    keys1: EncapsulationKeysMessage,
    choices2: Seq<bool>,
    decap_keys2: Seq<DecapKeyBytes>,
    keys2: EncapsulationKeysMessage,
)
    requires
        all_offered(choices1, draws, decap_keys1, keys1.eks0@, keys1.eks1@),
        all_offered(choices2, draws, decap_keys2, keys2.eks0@, keys2.eks1@),
    ensures
        choices1.len() == choices2.len(),
        forall|i: int|
            0 <= i < choices1.len() ==> (#[trigger] decap_keys1[i]).0@ == decap_keys2[i].0@,
        forall|i: int|
            0 <= i < choices1.len() ==> (keys2.eks0@[i].0@, keys2.eks1@[i].0@) == (if choices1[i]
                == #[trigger] choices2[i] {
                (keys1.eks0@[i].0@, keys1.eks1@[i].0@)
            } else {
                (keys1.eks1@[i].0@, keys1.eks0@[i].0@)
            }),
{
    assert forall|i: int| 0 <= i < choices1.len() implies (#[trigger] decap_keys1[i]).0@
        == decap_keys2[i].0@ by {
        assert(is_drawn_offer(
            draws,
            i,
            choices1[i],
            decap_keys1[i].0@,
            keys1.eks0@[i].0@,
            keys1.eks1@[i].0@,
        ));
        assert(is_drawn_offer(
            draws,
            i,
            choices2[i],
            decap_keys2[i].0@,
            keys2.eks0@[i].0@,
            keys2.eks1@[i].0@,
        ));
    }
    assert forall|i: int|
        0 <= i < choices1.len() implies (keys2.eks0@[i].0@, keys2.eks1@[i].0@) == (if choices1[i]
                == #[trigger] choices2[i] {
                (keys1.eks0@[i].0@, keys1.eks1@[i].0@)
            } else {
                (keys1.eks1@[i].0@, keys1.eks0@[i].0@)
            }) by {
        let random = sample_vector(drawn_seed(draws, i))->0;
        choice_orders_offer(drawn_pair(draws, i).1, random);
    }
}

/// Every seed that the receiver drew for its message gives an offer, whatever the
/// choices.
pub proof fn message_seeds_have_offers(
    choices: Seq<bool>,
    draws: Seq<Draw>,
    decap_keys: Seq<DecapKeyBytes>,
    keys: EncapsulationKeysMessage,
)
    requires
        all_offered(choices, draws, decap_keys, keys.eks0@, keys.eks1@),
    ensures
        forall|i: int| 0 <= i < choices.len() ==> has_offer(#[trigger] drawn_seed(draws, i)),
{
    assert forall|i: int| 0 <= i < choices.len() implies has_offer(
        #[trigger] drawn_seed(draws, i),
    ) by {
        assert(is_drawn_offer(
            draws,
            i,
            choices[i],
            decap_keys[i].0@,
            keys.eks0@[i].0@,
            keys.eks1@[i].0@,
        ));
    }
}

/// A slot of the sender depends on its own two keys, its number and its own two
/// messages only: the same of them give the same ciphertexts and the same blocks.
pub proof fn slot_is_determined<O: Fn(Vec<u8>) -> Block>(
    oracle: O,
    r0: Seq<u8>,
    r1: Seq<u8>,
    m0: Seq<u8>,
    m1: Seq<u8>,
    i: int,
    ct0: Seq<u8>,
    ct1: Seq<u8>,
    blocks: [Block; 2],
    other_ct0: Seq<u8>,
    other_ct1: Seq<u8>,
    other_blocks: [Block; 2],
)
    requires
        is_function(oracle),
        is_sent(oracle, r0, r1, m0, m1, i, ct0, ct1, blocks),
        is_sent(oracle, r0, r1, m0, m1, i, other_ct0, other_ct1, other_blocks),
    ensures
        ct0 == other_ct0,
        ct1 == other_ct1,
        blocks@ == other_blocks@,
{
    assert(blocks@ =~= other_blocks@);
}

/// The slots of the sender are independent of each other: if two messages agree in
/// the two keys of transfer number `i`, and the sender draws the same two messages for
/// it, its two ciphertexts and its two blocks are the same, whatever is in the other
/// transfers.
pub proof fn slots_are_independent<O: Fn(Vec<u8>) -> Block>(
    oracle: O,
    i: int,
    keys1: EncapsulationKeysMessage,
    count1: nat,
    draws1: Seq<Draw>,
    cts1: CiphertextsMessage,
    ots1: Seq<[Block; 2]>,
    keys2: EncapsulationKeysMessage,
    count2: nat,
    draws2: Seq<Draw>,
    cts2: CiphertextsMessage,
    ots2: Seq<[Block; 2]>,
)
    requires
        is_function(oracle),
        all_sent(oracle, keys1, count1, draws1, cts1.cts0@, cts1.cts1@, ots1),
        all_sent(oracle, keys2, count2, draws2, cts2.cts0@, cts2.cts1@, ots2),
        0 <= i < count1,
        i < count2,
        keys1.eks0@[i].0@ == keys2.eks0@[i].0@,
        keys1.eks1@[i].0@ == keys2.eks1@[i].0@,
        draws1[2 * i] == draws2[2 * i],
        draws1[2 * i + 1] == draws2[2 * i + 1],
    ensures
        cts1.cts0@[i].0@ == cts2.cts0@[i].0@,
        cts1.cts1@[i].0@ == cts2.cts1@[i].0@,
        ots1[i]@ == ots2[i]@,
{
    slot_is_determined(
        oracle,
        keys1.eks0@[i].0@,
        keys1.eks1@[i].0@,
        draws1[2 * i]@,
        draws1[2 * i + 1]@,
        i,
        cts1.cts0@[i].0@,
        cts1.cts1@[i].0@,
        ots1[i],
        cts2.cts0@[i].0@,
        cts2.cts1@[i].0@,
        ots2[i],
    );
}

/// The sender treats both positions alike: if the two keys have the same `rho`, the
/// keys that it reconstructs change places with them.
pub proof fn positions_are_alike(r0: Seq<u8>, r1: Seq<u8>)
    requires
        key_rho(r0) == key_rho(r1),
    ensures
        reconstructed_keys(r1, r0) is Some <==> reconstructed_keys(r0, r1) is Some,
        reconstructed_keys(r0, r1) is Some ==> {
            let eks = reconstructed_keys(r0, r1)->0;
            reconstructed_keys(r1, r0) == Some((eks.1, eks.0))
        },
{
}

/// The keys to which the sender encapsulates are canonical, and have the `rho` of
/// the first of the two keys that it got.
pub proof fn reconstructions_are_canonical(r0: Seq<u8>, r1: Seq<u8>)
    requires
        r0.len() == ENCAPSULATION_KEY_LEN,
        r1.len() == ENCAPSULATION_KEY_LEN,
    ensures
        reconstructed_keys(r0, r1) is Some ==> {
            let eks = reconstructed_keys(r0, r1)->0;
            &&& is_canonical_key(eks.0)
            &&& is_canonical_key(eks.1)
            &&& key_rho(eks.0) == key_rho(r0)
            &&& key_rho(eks.1) == key_rho(r0)
        },
{
    if reconstructed_keys(r0, r1) is Some {
        let h0 = key_hash(key_vector(r0))->0;
        let h1 = key_hash(key_vector(r1))->0;
        hashes_are_vectors(key_vector(r0));
        hashes_are_vectors(key_vector(r1));
        serialize_after_parse(r0);
        serialize_after_parse(r1);
        arithmetic_keeps_vectors(key_vector(r0), h1);
        arithmetic_keeps_vectors(key_vector(r1), h0);
        parse_after_serialize(vector_sum(key_vector(r0), h1), key_rho(r0));
        parse_after_serialize(vector_sum(key_vector(r1), h0), key_rho(r0));
    }
}

/// From the two keys of an offer the sender reconstructs the receiver's own key in
/// the chosen position. It can do so exactly if the masked key has a hash.
pub proof fn sender_recovers_own_key(ek: Seq<u8>, random: Seq<u16>, choice: bool)
    requires
        is_canonical_key(ek),
        is_vector(random),
    ensures
        offered_keys(ek, random, choice) is Some ==> {
            let offer = offered_keys(ek, random, choice)->0;
            let masked = vector_difference(key_vector(ek), key_hash(random)->0);
            &&& reconstructed_keys(offer.0, offer.1) is Some <==> key_hash(masked) is Some
            &&& reconstructed_keys(offer.0, offer.1) is Some ==> chosen(
                reconstructed_keys(offer.0, offer.1)->0,
                choice,
            ) == ek
        },
{
    if offered_keys(ek, random, choice) is Some {
        let mask = key_hash(random)->0;
        hashes_are_vectors(random);
        serialize_after_parse(ek);
        arithmetic_keeps_vectors(key_vector(ek), mask);
        let correlated = vector_difference(key_vector(ek), mask);
        parse_after_serialize(correlated, key_rho(ek));
        parse_after_serialize(random, key_rho(ek));
        sum_undoes_difference(key_vector(ek), mask);
    }
}

/// The keys of a transfer agree: what the receiver gets is what the sender gets for
/// the chosen position, if ML-KEM decapsulates what the sender encapsulated there.
pub proof fn transfer_agrees<O: Fn(Vec<u8>) -> Block>(
    oracle: O,
    dk: Seq<u8>,
    ek: Seq<u8>,
    seed: Seq<u8>,
    choice: bool,
    r0: Seq<u8>,
    r1: Seq<u8>,
    m0: Seq<u8>,
    m1: Seq<u8>,
    i: int,
    ct0: Seq<u8>,
    ct1: Seq<u8>,
    blocks: [Block; 2],
    block: Block,
)
    requires
        is_function(oracle),
        is_canonical_key(ek),
        is_offered(ek, seed, choice, r0, r1),
        is_sent(oracle, r0, r1, m0, m1, i, ct0, ct1, blocks),
        is_received(oracle, dk, choice, ct0, ct1, i, block),
        decapsulates(dk, ek, chosen((m0, m1), choice)),
    ensures
        block == chosen((blocks@[0], blocks@[1]), choice),
{
    let random = sample_vector(seed)->0;
    samples_are_vectors(seed);
    sender_recovers_own_key(ek, random, choice);
}

/// The two parties of a run agree in every transfer in which ML-KEM decapsulates what
/// was encapsulated to the receiver's own key: what the receiver gets is what the
/// sender gets for the chosen position. The receiver draws `receiver_draws`, and the
/// sender `sender_draws`; `keys` and `cts` are the messages.
pub proof fn run_agrees<O: Fn(Vec<u8>) -> Block>(
    oracle: O,
    choices: Seq<bool>,
    receiver_draws: Seq<Draw>,
    decap_keys: Seq<DecapKeyBytes>,
    keys: EncapsulationKeysMessage,
    sender_draws: Seq<Draw>,
    cts: CiphertextsMessage,
    sender_ots: Seq<[Block; 2]>,
    receiver_ots: Seq<Block>,
)
    requires
        is_function(oracle),
        all_offered(choices, receiver_draws, decap_keys, keys.eks0@, keys.eks1@),
        all_sent(
            oracle,
            keys,
            choices.len(),
            sender_draws,
            cts.cts0@,
            cts.cts1@,
            sender_ots,
        ),
        all_received(oracle, decap_keys, choices, cts, receiver_ots),
        receiver_ots.len() == choices.len(),
    ensures
        forall|i: int|
            0 <= i < choices.len() && decapsulates(
                drawn_pair(receiver_draws, i).0,
                drawn_pair(receiver_draws, i).1,
                chosen((sender_draws[2 * i], sender_draws[2 * i + 1]), choices[i])@,
            ) ==> #[trigger] receiver_ots[i] == chosen(
                (sender_ots[i]@[0], sender_ots[i]@[1]),
                choices[i],
            ),
{
    assert forall|i: int|
        0 <= i < choices.len() && decapsulates(
            drawn_pair(receiver_draws, i).0,
            drawn_pair(receiver_draws, i).1,
            chosen((sender_draws[2 * i], sender_draws[2 * i + 1]), choices[i])@,
        ) implies #[trigger] receiver_ots[i] == chosen(
        (sender_ots[i]@[0], sender_ots[i]@[1]),
        choices[i],
    ) by {
        let choice = choices[i];
        transfer_agrees(
            oracle,
            drawn_pair(receiver_draws, i).0,
            drawn_pair(receiver_draws, i).1,
            drawn_seed(receiver_draws, i),
            choice,
            keys.eks0@[i].0@,
            keys.eks1@[i].0@,
            sender_draws[2 * i]@,
            sender_draws[2 * i + 1]@,
            i,
            cts.cts0@[i].0@,
            cts.cts1@[i].0@,
            sender_ots[i],
            receiver_ots[i],
        );
    }
}

/// Whether every seed gives a vector, and every vector has a hash.
pub open spec fn sampling_succeeds() -> bool {
    &&& forall|seed: Rho| #[trigger] sample_vector(seed@) is Some
    &&& forall|t_hat: Seq<u16>| is_vector(t_hat) ==> #[trigger] key_hash(t_hat) is Some
}

/// The receiver has keys to offer whatever it draws if sampling succeeds.
pub proof fn receiver_succeeds(seed: Draw)
    requires
        sampling_succeeds(),
    ensures
        has_offer(seed@),
{
    samples_are_vectors(seed@);
    assert(sample_vector(seed@) is Some);
}

/// The sender can reconstruct the keys of every transfer that the receiver offers if
/// sampling succeeds.
pub proof fn sender_succeeds(
    choices: Seq<bool>,
    draws: Seq<Draw>,
    decap_keys: Seq<DecapKeyBytes>,
    keys: EncapsulationKeysMessage,
)
    requires
        sampling_succeeds(),
        all_offered(choices, draws, decap_keys, keys.eks0@, keys.eks1@),
    ensures
        keys.has_count(choices.len()),
        forall|i: int|
            0 <= i < choices.len() ==> reconstructed_keys(
                #[trigger] keys.eks0@[i].0@,
                keys.eks1@[i].0@,
            ) is Some,
{
    assert forall|i: int| 0 <= i < choices.len() implies reconstructed_keys(
        #[trigger] keys.eks0@[i].0@,
        keys.eks1@[i].0@,
    ) is Some by {
        let r0 = keys.eks0@[i].0@;
        let r1 = keys.eks1@[i].0@;
        serialize_after_parse(r0);
        serialize_after_parse(r1);
    }
}

/// Masking subtracts the mask from the receiver's own vector modulo 3329, coefficient by
/// coefficient, and leaves the random vector as it is. The masked key stands second if
/// the choice is set, and first if not; both keys have the own `rho`. `c` is any
/// coefficient.
pub proof fn masking_subtracts(
    ek: Seq<u8>,
    random: Seq<u16>,
    mask: Seq<u16>,
    choice: bool,
    c: int,
)
    requires
        ek.len() == 1568,
        is_vector(random),
        is_vector(mask),
        0 <= c < 1024,
    ensures
        ({
            let (r0, r1) = masked_keys(ek, random, mask, choice);
            let masked = if choice { r1 } else { r0 };
            let other = if choice { r0 } else { r1 };
            &&& is_canonical_key(masked)
            &&& is_canonical_key(other)
            &&& key_rho(masked) == key_rho(ek)
            &&& key_rho(other) == key_rho(ek)
            &&& (key_vector(masked)[c] + mask[c] - key_vector(ek)[c]) % 3329 == 0
            &&& key_vector(other) == random
        }),
{
    serialize_after_parse(ek);
    arithmetic_keeps_vectors(key_vector(ek), mask);
    coefficients_are_congruent(key_vector(ek), mask, c);
    let difference = vector_difference(key_vector(ek), mask);
    parse_after_serialize(difference, key_rho(ek));
    parse_after_serialize(random, key_rho(ek));
    let masked = key_bytes(difference, key_rho(ek));
    let other = key_bytes(random, key_rho(ek));
    assert(masked_keys(ek, random, mask, choice) == (if choice {
        (other, masked)
    } else {
        (masked, other)
    }));
    assert(key_vector(masked)[c] == difference[c]);
}

/// An offer is masked with the hash of the random vector, which stands in the position
/// that was not chosen: the masked coefficient, the hash of the other key and the own
/// coefficient add up modulo 3329. There is an offer if and only if there is a hash.
pub proof fn offers_are_masked_with_the_other_key(
    ek: Seq<u8>,
    random: Seq<u16>,
    choice: bool,
    c: int,
)
    requires
        ek.len() == 1568,
        is_vector(random),
        0 <= c < 1024,
    ensures
        offered_keys(ek, random, choice) is Some <==> key_hash(random) is Some,
        offered_keys(ek, random, choice) is Some ==> {
            let (r0, r1) = offered_keys(ek, random, choice)->0;
            let masked = if choice { r1 } else { r0 };
            let other = if choice { r0 } else { r1 };
            &&& is_canonical_key(masked)
            &&& is_canonical_key(other)
            &&& key_rho(masked) == key_rho(ek)
            &&& key_rho(other) == key_rho(ek)
            &&& (key_vector(masked)[c] + key_hash(key_vector(other))->0[c] - key_vector(ek)[c])
                % 3329 == 0
            &&& key_vector(other) == random
        },
{
    if key_hash(random) is Some {
        hashes_are_vectors(random);
        masking_subtracts(ek, random, key_hash(random)->0, choice, c);
        assert(offered_keys(ek, random, choice) == Some(
            masked_keys(ek, random, key_hash(random)->0, choice),
        ));
    }
}

/// Unmasking adds to each vector the hash of the other modulo 3329, coefficient by
/// coefficient. Both keys have the `rho` of the first. `c` is any coefficient.
pub proof fn unmasking_adds(
    r0: Seq<u8>,
    r1: Seq<u8>,
    h0: Seq<u16>,
    h1: Seq<u16>,
    c: int,
)
    requires
        r0.len() == 1568,
        r1.len() == 1568,
        is_vector(h0),
        is_vector(h1),
        0 <= c < 1024,
    ensures
        ({
            let (ek0, ek1) = unmasked_keys(r0, r1, h0, h1);
            &&& is_canonical_key(ek0)
            &&& is_canonical_key(ek1)
            &&& key_rho(ek0) == key_rho(r0)
            &&& key_rho(ek1) == key_rho(r0)
            &&& (key_vector(ek0)[c] - (key_vector(r0)[c] + h1[c])) % 3329 == 0
            &&& (key_vector(ek1)[c] - (key_vector(r1)[c] + h0[c])) % 3329 == 0
        }),
{
    serialize_after_parse(r0);
    serialize_after_parse(r1);
    arithmetic_keeps_vectors(key_vector(r0), h1);
    arithmetic_keeps_vectors(key_vector(r1), h0);
    coefficients_are_congruent(key_vector(r0), h1, c);
    coefficients_are_congruent(key_vector(r1), h0, c);
    parse_after_serialize(vector_sum(key_vector(r0), h1), key_rho(r0));
    parse_after_serialize(vector_sum(key_vector(r1), h0), key_rho(r0));
}

/// The sender reconstructs two keys if and only if both keys that it got have hashes,
/// and then each of them is the key in its position with the hash of the other key
/// added to it modulo 3329.
pub proof fn reconstruction_adds_the_other_hash(r0: Seq<u8>, r1: Seq<u8>, c: int)
    requires
        r0.len() == 1568,
        r1.len() == 1568,
        0 <= c < 1024,
    ensures
        reconstructed_keys(r0, r1) is Some <==> key_hash(key_vector(r0)) is Some && key_hash(
            key_vector(r1),
        ) is Some,
        reconstructed_keys(r0, r1) is Some ==> {
            let (ek0, ek1) = reconstructed_keys(r0, r1)->0;
            let h0 = key_hash(key_vector(r0))->0;
            let h1 = key_hash(key_vector(r1))->0;
            &&& is_canonical_key(ek0)
            &&& is_canonical_key(ek1)
            &&& key_rho(ek0) == key_rho(r0)
            &&& key_rho(ek1) == key_rho(r0)
            &&& (key_vector(ek0)[c] - (key_vector(r0)[c] + h1[c])) % 3329 == 0
            &&& (key_vector(ek1)[c] - (key_vector(r1)[c] + h0[c])) % 3329 == 0
        },
{
    if key_hash(key_vector(r0)) is Some && key_hash(key_vector(r1)) is Some {
        hashes_are_vectors(key_vector(r0));
        hashes_are_vectors(key_vector(r1));
        unmasking_adds(
            r0,
            r1,
            key_hash(key_vector(r0))->0,
            key_hash(key_vector(r1))->0,
            c,
        );
    }
}

/// Every transfer of the receiver has three draws of its own. Draws number `3 * i` and
/// `3 * i + 1` are the seeds of the key pair of transfer number `i`: the receiver keeps
/// its decapsulation key. Draw number `3 * i + 2` is the seed of the random vector: it
/// stands in the position that was not chosen, and its hash masks the encapsulation key
/// in the other. `c` is any coefficient.
pub proof fn transfers_have_draws_of_their_own(
    choices: Seq<bool>,
    draws: Seq<Draw>,
    decap_keys: Seq<DecapKeyBytes>,
    keys: EncapsulationKeysMessage,
    i: int,
    c: int,
)
    requires
        all_offered(choices, draws, decap_keys, keys.eks0@, keys.eks1@),
        0 <= i < choices.len(),
        0 <= c < 1024,
    ensures
        draws.len() == 3 * choices.len(),
        decap_keys.len() == choices.len(),
        keys.eks0@.len() == choices.len(),
        keys.eks1@.len() == choices.len(),
        ({
            let (dk, ek) = ml_kem_key_pair(draws[3 * i]@, draws[3 * i + 1]@);
            let random = sample_vector(draws[3 * i + 2]@);
            let masked = if choices[i] { keys.eks1@[i].0@ } else { keys.eks0@[i].0@ };
            let other = if choices[i] { keys.eks0@[i].0@ } else { keys.eks1@[i].0@ };
            &&& decap_keys[i].0@ == dk
            &&& is_canonical_key(ek)
            &&& is_canonical_key(masked)
            &&& is_canonical_key(other)
            &&& key_rho(masked) == key_rho(ek)
            &&& key_rho(other) == key_rho(ek)
            &&& random == Some(key_vector(other))
            &&& key_hash(key_vector(other)) is Some
            &&& (key_vector(masked)[c] + key_hash(key_vector(other))->0[c] - key_vector(ek)[c])
                % 3329 == 0
        }),
{
    let choice = choices[i];
    let ek = ml_kem_key_pair(draws[3 * i]@, draws[3 * i + 1]@).1;
    let seed = draws[3 * i + 2]@;
    assert(is_drawn_offer(
        draws,
        i,
        choice,
        decap_keys[i].0@,
        keys.eks0@[i].0@,
        keys.eks1@[i].0@,
    ));
    samples_are_vectors(seed);
    offers_are_masked_with_the_other_key(ek, sample_vector(seed)->0, choice, c);
}

/// Every transfer of the sender has two draws of its own: draw number `2 * i` is
/// encapsulated to the first key that is reconstructed in transfer number `i`, and draw
/// number `2 * i + 1` to the second. If the oracle computes `f`, the two blocks are its
/// values for the two shared keys and the number of the transfer.
pub proof fn slots_have_draws_of_their_own<O: Fn(Vec<u8>) -> Block>(
    oracle: O,
    f: spec_fn(Seq<u8>) -> Block,
    keys: EncapsulationKeysMessage,
    count: nat,
    draws: Seq<Draw>,
    cts: CiphertextsMessage,
    ots: Seq<[Block; 2]>,
    i: int,
)
    requires
        forall|query: Vec<u8>, answer: Block| #[trigger]
            call_ensures(oracle, (query,), answer) ==> answer == f(query@),
        all_sent(oracle, keys, count, draws, cts.cts0@, cts.cts1@, ots),
        0 <= i < count,
    ensures
        draws.len() == 2 * count,
        cts.cts0@.len() == count,
        cts.cts1@.len() == count,
        ots.len() == count,
        reconstructed_keys(keys.eks0@[i].0@, keys.eks1@[i].0@) is Some,
        ({
            let (ek0, ek1) = reconstructed_keys(keys.eks0@[i].0@, keys.eks1@[i].0@)->0;
            let (ct0, shared0) = ml_kem_encapsulation(ek0, draws[2 * i]@);
            let (ct1, shared1) = ml_kem_encapsulation(ek1, draws[2 * i + 1]@);
            &&& cts.cts0@[i].0@ == ct0
            &&& cts.cts1@[i].0@ == ct1
            &&& ots[i]@[0] == f(oracle_input(shared0, i as usize))
            &&& ots[i]@[1] == f(oracle_input(shared1, i as usize))
        }),
{
    let (ek0, ek1) = reconstructed_keys(keys.eks0@[i].0@, keys.eks1@[i].0@)->0;
    let shared0 = ml_kem_encapsulation(ek0, draws[2 * i]@).1;
    let shared1 = ml_kem_encapsulation(ek1, draws[2 * i + 1]@).1;
    assert(is_sent(
        oracle,
        keys.eks0@[i].0@,
        keys.eks1@[i].0@,
        draws[2 * i]@,
        draws[2 * i + 1]@,
        i,
        cts.cts0@[i].0@,
        cts.cts1@[i].0@,
        ots[i],
    ));
    answers_are_values(oracle, f, oracle_input(shared0, i as usize), ots[i]@[0]);
    answers_are_values(oracle, f, oracle_input(shared1, i as usize), ots[i]@[1]);
}

/// In every transfer the receiver decapsulates the second ciphertext if the choice is
/// set, and the first if not, with the key that it keeps for that transfer. If the
/// oracle computes `f`, its block is the value for the shared key and the number of the
/// transfer.
pub proof fn receiver_gets_the_chosen_ciphertext<O: Fn(Vec<u8>) -> Block>(
    oracle: O,
    f: spec_fn(Seq<u8>) -> Block,
    decap_keys: Seq<DecapKeyBytes>,
    choices: Seq<bool>,
    cts: CiphertextsMessage,
    ots: Seq<Block>,
    i: int,
)
    requires
        forall|query: Vec<u8>, answer: Block| #[trigger]
            call_ensures(oracle, (query,), answer) ==> answer == f(query@),
        all_received(oracle, decap_keys, choices, cts, ots),
        0 <= i < ots.len(),
    ensures
        choices[i] ==> ots[i] == f(
            oracle_input(ml_kem_decapsulation(decap_keys[i].0@, cts.cts1@[i].0@), i as usize),
        ),
        !choices[i] ==> ots[i] == f(
            oracle_input(ml_kem_decapsulation(decap_keys[i].0@, cts.cts0@[i].0@), i as usize),
        ),
{
    let ct = if choices[i] {
        cts.cts1@[i].0@
    } else {
        cts.cts0@[i].0@
    };
    let input = oracle_input(ml_kem_decapsulation(decap_keys[i].0@, ct), i as usize);
    assert(is_received(
        oracle,
        decap_keys[i].0@,
        choices[i],
        cts.cts0@[i].0@,
        cts.cts1@[i].0@,
        i,
        ots[i],
    ));
    answers_are_values(oracle, f, input, ots[i]);
}

/// Two transfers of a run never ask the oracle the same: each of their blocks is the
/// answer to an input that ends with the number of its own transfer.
pub proof fn transfers_of_a_run_ask_differently<O: Fn(Vec<u8>) -> Block>(
    oracle: O,
    keys: EncapsulationKeysMessage,
    count: nat,
    draws: Seq<Draw>,
    cts: CiphertextsMessage,
    ots: Seq<[Block; 2]>,
    i: int,
    j: int,
)
    requires
        all_sent(oracle, keys, count, draws, cts.cts0@, cts.cts1@, ots),
        count <= usize::MAX,
        0 <= i < count,
        0 <= j < count,
        i != j,
    ensures
        exists|key_i0: Seq<u8>, key_i1: Seq<u8>, key_j0: Seq<u8>, key_j1: Seq<u8>|
            {
                &&& #[trigger] answers(oracle, oracle_input(key_i0, i as usize), ots[i]@[0])
                &&& #[trigger] answers(oracle, oracle_input(key_i1, i as usize), ots[i]@[1])
                &&& #[trigger] answers(oracle, oracle_input(key_j0, j as usize), ots[j]@[0])
                &&& #[trigger] answers(oracle, oracle_input(key_j1, j as usize), ots[j]@[1])
                &&& oracle_input(key_i0, i as usize) != oracle_input(key_j0, j as usize)
                &&& oracle_input(key_i0, i as usize) != oracle_input(key_j1, j as usize)
                &&& oracle_input(key_i1, i as usize) != oracle_input(key_j0, j as usize)
                &&& oracle_input(key_i1, i as usize) != oracle_input(key_j1, j as usize)
            },
{
    let eks_i = reconstructed_keys(keys.eks0@[i].0@, keys.eks1@[i].0@)->0;
    let eks_j = reconstructed_keys(keys.eks0@[j].0@, keys.eks1@[j].0@)->0;
    let key_i0 = ml_kem_encapsulation(eks_i.0, draws[2 * i]@).1;
    let key_i1 = ml_kem_encapsulation(eks_i.1, draws[2 * i + 1]@).1;
    let key_j0 = ml_kem_encapsulation(eks_j.0, draws[2 * j]@).1;
    let key_j1 = ml_kem_encapsulation(eks_j.1, draws[2 * j + 1]@).1;
    transfers_ask_differently(key_i0, i as usize, key_j0, j as usize);
    transfers_ask_differently(key_i0, i as usize, key_j1, j as usize);
    transfers_ask_differently(key_i1, i as usize, key_j0, j as usize);
    transfers_ask_differently(key_i1, i as usize, key_j1, j as usize);
    assert(answers(oracle, oracle_input(key_i0, i as usize), ots[i]@[0]));
    assert(answers(oracle, oracle_input(key_i1, i as usize), ots[i]@[1]));
    assert(answers(oracle, oracle_input(key_j0, j as usize), ots[j]@[0]));
    assert(answers(oracle, oracle_input(key_j1, j as usize), ots[j]@[1]));
}

/// The receiver gives up exactly at a seed that gives no vector, or one without a hash:
/// the draws are three for each transfer up to that one, and the seeds of the transfers
/// before it, of which `i` is any, do give one.
pub proof fn receiver_stops_at_the_first_bad_seed(draws: Seq<Draw>, count: nat, i: int)
    requires
        fails_at_last(draws, count),
    ensures
        draws.len() % 3 == 0,
        3 <= draws.len() <= 3 * count,
        ({
            let last = sample_vector(draws[draws.len() - 1]@);
            last is None || key_hash(last->0) is None
        }),
        0 <= i && 3 * i + 3 < draws.len() ==> {
            &&& sample_vector(draws[3 * i + 2]@) is Some
            &&& key_hash(sample_vector(draws[3 * i + 2]@)->0) is Some
        },
{
    if 0 <= i && 3 * i + 3 < draws.len() {
        assert(has_offer(drawn_seed(draws, i)));
    }
}

/// The sender gives up exactly at the first transfer of which a key has no hash: the
/// keys of the transfers before it, of which `i` is any, have hashes.
pub proof fn sender_stops_at_the_first_bad_keys(keys: EncapsulationKeysMessage, k: int, i: int)
    requires
        fails_first_at(keys, k),
    ensures
        0 <= k < keys.eks0@.len(),
        key_hash(key_vector(keys.eks0@[k].0@)) is None || key_hash(
            key_vector(keys.eks1@[k].0@),
        ) is None,
        0 <= i < k ==> {
            &&& key_hash(key_vector(keys.eks0@[i].0@)) is Some
            &&& key_hash(key_vector(keys.eks1@[i].0@)) is Some
        },
{
    if 0 <= i < k {
        assert(reconstructed_keys(keys.eks0@[i].0@, keys.eks1@[i].0@) is Some);
    }
}

} // verus!
