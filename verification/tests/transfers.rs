//! Whole runs of the protocol.

use mlkem_ot::error::Error;
use mlkem_ot::kem::{encapsulate_with, generate_with, CtBytes, EncapKeyBytes};
use mlkem_ot::message::{CiphertextsMessage, EncapsulationKeysMessage};
use mlkem_ot::oracle::hash_input;
use mlkem_ot::ot::MlKemOt;
use mlkem_ot::params::Block;
use mlkem_ot::receiver::{offer_keys, receiver_key};
use mlkem_ot::sample::sample_ntt_vector;
use mlkem_ot::sender::reconstruct_keys;
use rand::rngs::StdRng;
use rand::{Rng, RngExt, SeedableRng};
use sha3::digest::{ExtendableOutput, Update, XofReader};

const ZERO: Block = [0u8; 16];

fn oracle(input: Vec<u8>) -> Block {
    let mut hasher = sha3::Shake128::default();
    hasher.update(b"oracle");
    hasher.update(&input);
    let mut block = ZERO;
    hasher.finalize_xof().read(&mut block);
    block
}

fn run(rng1: StdRng, rng2: StdRng, choices: &Vec<bool>) -> (Vec<[Block; 2]>, Vec<Block>) {
    let count = choices.len();
    let mut sender = MlKemOt::new_with_rng(rng1);
    let mut receiver = MlKemOt::new_with_rng(rng2);
    let mut s_ot = vec![[ZERO; 2]; count];
    let mut r_ot = vec![ZERO; count];
    let (pending, keys) = receiver.receive_begin(choices).unwrap();
    let cts = sender.send_into(&mut s_ot, Some(keys), &oracle).unwrap();
    pending.receive_into(&mut r_ot, Some(cts), &oracle).unwrap();
    (s_ot, r_ot)
}

#[test]
fn mlkem_base_rot_random_choices() {
    let mut rng1 = StdRng::seed_from_u64(42);
    let rng2 = StdRng::seed_from_u64(42 * 42);
    let count = 128;
    let choices: Vec<bool> = (0..count).map(|_| rng1.random()).collect();
    assert!(choices.contains(&true) && choices.contains(&false));
    let (s_ot, r_ot) = run(rng1, rng2, &choices);
    assert_eq!(r_ot.len(), count);
    for ((r, s), c) in r_ot.into_iter().zip(s_ot).zip(choices) {
        assert_eq!(r, s[c as usize]);
        assert_ne!(r, s[1 - c as usize]);
    }
}

#[test]
fn mlkem_base_rot_zero_choices() {
    let rng1 = StdRng::seed_from_u64(123);
    let rng2 = StdRng::seed_from_u64(456);
    let count = 128;
    let choices: Vec<bool> = (0..count).map(|_| false).collect();
    let (s_ot, r_ot) = run(rng1, rng2, &choices);
    for ((r, s), c) in r_ot.into_iter().zip(s_ot).zip(choices) {
        assert_eq!(r, s[c as usize]);
    }
}

#[test]
fn mlkem_base_rot_one_choices() {
    let rng1 = StdRng::seed_from_u64(789);
    let rng2 = StdRng::seed_from_u64(101112);
    let count = 128;
    let choices: Vec<bool> = (0..count).map(|_| true).collect();
    let (s_ot, r_ot) = run(rng1, rng2, &choices);
    for ((r, s), c) in r_ot.into_iter().zip(s_ot).zip(choices) {
        assert_eq!(r, s[c as usize]);
    }
}

#[test]
fn system_randomness_gives_different_keys() {
    let mut sender = MlKemOt::new_with_rng(rand::make_rng());
    let mut receiver = MlKemOt::new_with_rng(rand::make_rng());
    let choices = vec![false, true, true];
    let mut s_ot = vec![[ZERO; 2]; 3];
    let mut r_ot = vec![ZERO; 3];
    let (pending, keys) = receiver.receive_begin(&choices).unwrap();
    let cts = sender.send_into(&mut s_ot, Some(keys), &oracle).unwrap();
    pending.receive_into(&mut r_ot, Some(cts), &oracle).unwrap();
    let mut all: Vec<Block> = Vec::new();
    for (i, pair) in s_ot.iter().enumerate() {
        assert_eq!(r_ot[i], pair[choices[i] as usize]);
        all.push(pair[0]);
        all.push(pair[1]);
    }
    all.sort();
    all.dedup();
    assert_eq!(all.len(), 6);
}

#[test]
fn no_transfers() {
    let (s_ot, r_ot) = run(StdRng::seed_from_u64(1), StdRng::seed_from_u64(2), &Vec::new());
    assert!(s_ot.is_empty());
    assert!(r_ot.is_empty());
}

#[test]
fn sender_refuses_wrong_counts() {
    let mut sender = MlKemOt::new_with_rng(StdRng::seed_from_u64(1));
    let key = EncapKeyBytes([0u8; 1568]);
    let marked = vec![[[7u8; 16]; 2]; 2];
    for (n0, n1) in [(1, 2), (2, 3), (0, 0), (3, 3)] {
        let mut ots = marked.clone();
        let keys = EncapsulationKeysMessage { eks0: vec![key; n0], eks1: vec![key; n1] };
        let error = sender.send_into(&mut ots, Some(keys), &oracle).unwrap_err();
        assert_eq!(
            error,
            Error::InvalidDataCount { expected: 2, actual0: n0, actual1: n1 }
        );
        assert_eq!(ots, marked);
    }
}

#[test]
fn sender_refuses_closed_stream() {
    let mut sender = MlKemOt::new_with_rng(StdRng::seed_from_u64(1));
    let mut ots = vec![[[7u8; 16]; 2]; 2];
    let error = sender.send_into(&mut ots, None, &oracle).unwrap_err();
    assert_eq!(error, Error::ClosedStream);
    assert_eq!(ots, vec![[[7u8; 16]; 2]; 2]);
}

#[test]
fn receiver_refuses_wrong_counts_and_closed_stream() {
    let mut receiver = MlKemOt::new_with_rng(StdRng::seed_from_u64(1));
    let (pending, keys) = receiver.receive_begin(&vec![true, false]).unwrap();
    assert_eq!((keys.eks0.len(), keys.eks1.len()), (2, 2));
    let ct = CtBytes([0u8; 1568]);
    let mut ots = vec![[7u8; 16]; 2];
    for (n0, n1) in [(1, 2), (2, 3), (0, 0), (3, 3)] {
        let cts = CiphertextsMessage { cts0: vec![ct; n0], cts1: vec![ct; n1] };
        assert_eq!(
            pending.receive_into(&mut ots, Some(cts), &oracle),
            Err(Error::InvalidDataCount { expected: 2, actual0: n0, actual1: n1 })
        );
    }
    assert_eq!(pending.receive_into(&mut ots, None, &oracle), Err(Error::ClosedStream));
    assert_eq!(ots, vec![[7u8; 16]; 2]);
}

#[test]
fn receiver_ignores_other_ciphertext() {
    let mut sender = MlKemOt::new_with_rng(StdRng::seed_from_u64(5));
    let mut receiver = MlKemOt::new_with_rng(StdRng::seed_from_u64(6));
    let choices = vec![false, true];
    let mut s_ot = vec![[ZERO; 2]; 2];
    let mut r_ot = vec![ZERO; 2];
    let (pending, keys) = receiver.receive_begin(&choices).unwrap();
    let mut cts = sender.send_into(&mut s_ot, Some(keys), &oracle).unwrap();
    cts.cts1[0].0 = [1u8; 1568];
    cts.cts0[1].0 = [1u8; 1568];
    pending.receive_into(&mut r_ot, Some(cts), &oracle).unwrap();
    assert_eq!(r_ot, vec![s_ot[0][0], s_ot[1][1]]);
}

#[test]
fn swapped_ciphertexts_break_agreement() {
    let mut sender = MlKemOt::new_with_rng(StdRng::seed_from_u64(5));
    let mut receiver = MlKemOt::new_with_rng(StdRng::seed_from_u64(6));
    let mut s_ot = vec![[ZERO; 2]; 1];
    let mut r_ot = vec![ZERO; 1];
    let (pending, keys) = receiver.receive_begin(&vec![false]).unwrap();
    let cts = sender.send_into(&mut s_ot, Some(keys), &oracle).unwrap();
    let swapped = CiphertextsMessage { cts0: cts.cts1, cts1: cts.cts0 };
    pending.receive_into(&mut r_ot, Some(swapped), &oracle).unwrap();
    assert_ne!(r_ot[0], s_ot[0][0]);
    assert_ne!(r_ot[0], s_ot[0][1]);
}

#[test]
fn failed_decapsulation_is_an_error() {
    assert_eq!(receiver_key(&oracle, Err(()), 3), Err(Error::Decapsulation));
    assert_eq!(
        receiver_key(&oracle, Ok([9u8; 32]), 3),
        Ok(oracle(hash_input(&[9u8; 32], 3)))
    );
}

#[test]
fn oracle_is_asked_for_domain_key_and_tweak() {
    let mut key = [0u8; 32];
    for i in 0..32 {
        key[i] = i as u8;
    }
    let mut expected = b"MlKemOt".to_vec();
    expected.extend_from_slice(&key);
    expected.extend_from_slice(&0x0102usize.to_le_bytes());
    assert_eq!(hash_input(&key, 0x0102), expected);
    let mut last = b"MlKemOt".to_vec();
    last.extend_from_slice(&key);
    last.extend_from_slice(&usize::MAX.to_le_bytes());
    assert_eq!(hash_input(&key, usize::MAX), last);
    assert_ne!(hash_input(&key, 1), hash_input(&key, 256));
    assert_eq!(mlkem_ot::oracle::hash(&oracle, &key, 0x0102), oracle(expected));
}

#[test]
fn refused_messages_leave_the_generators() {
    let mut sender = MlKemOt::new_with_rng(StdRng::seed_from_u64(11));
    let mut receiver = MlKemOt::new_with_rng(StdRng::seed_from_u64(12));
    let ek = EncapKeyBytes([0u8; 1568]);
    let mut ots = vec![[ZERO; 2]; 2];
    assert!(sender.send_into(&mut ots, None, &oracle).is_err());
    let keys = EncapsulationKeysMessage { eks0: vec![ek; 2], eks1: vec![ek; 1] };
    assert!(sender.send_into(&mut ots, Some(keys), &oracle).is_err());
    let none = EncapsulationKeysMessage { eks0: Vec::new(), eks1: Vec::new() };
    let cts = sender.send_into(&mut Vec::new(), Some(none), &oracle).unwrap();
    assert!(cts.cts0.is_empty() && cts.cts1.is_empty());
    let (_, keys) = receiver.receive_begin(&Vec::new()).unwrap();
    assert!(keys.eks0.is_empty() && keys.eks1.is_empty());

    let choices = vec![true, false];
    let mut s_ot = vec![[ZERO; 2]; 2];
    let mut r_ot = vec![ZERO; 2];
    let (pending, keys) = receiver.receive_begin(&choices).unwrap();
    let cts = sender.send_into(&mut s_ot, Some(keys), &oracle).unwrap();
    pending.receive_into(&mut r_ot, Some(cts), &oracle).unwrap();
    let fresh = run(StdRng::seed_from_u64(11), StdRng::seed_from_u64(12), &choices);
    assert_eq!((s_ot, r_ot), fresh);
}

#[test]
fn choices_order_the_keys_of_a_message() {
    let choices1 = vec![false, false, true, true];
    let choices2 = vec![false, true, false, true];
    let mut receiver1 = MlKemOt::new_with_rng(StdRng::seed_from_u64(21));
    let mut receiver2 = MlKemOt::new_with_rng(StdRng::seed_from_u64(21));
    let (_, keys1) = receiver1.receive_begin(&choices1).unwrap();
    let (_, keys2) = receiver2.receive_begin(&choices2).unwrap();
    for i in 0..4 {
        let pair1 = (keys1.eks0[i].0, keys1.eks1[i].0);
        let pair2 = (keys2.eks0[i].0, keys2.eks1[i].0);
        if choices1[i] == choices2[i] {
            assert!(pair1 == pair2);
        } else {
            assert!(pair1 == (pair2.1, pair2.0));
        }
        assert!(pair1.0 != pair1.1);
    }
}

#[test]
fn every_transfer_has_draws_of_its_own() {
    let choices = vec![true, false];
    let mut receiver = MlKemOt::new_with_rng(StdRng::seed_from_u64(31));
    let mut sender = MlKemOt::new_with_rng(StdRng::seed_from_u64(32));
    let (_, keys) = receiver.receive_begin(&choices).unwrap();
    let pairs: Vec<(EncapKeyBytes, EncapKeyBytes)> =
        (0..2).map(|i| (keys.eks0[i], keys.eks1[i])).collect();
    let mut ots = vec![[ZERO; 2]; 2];
    let cts = sender.send_into(&mut ots, Some(keys), &oracle).unwrap();

    let mut receiver_copy = StdRng::seed_from_u64(31);
    let mut sender_copy = StdRng::seed_from_u64(32);
    for i in 0..2 {
        let mut d = [0u8; 32];
        let mut z = [0u8; 32];
        receiver_copy.fill_bytes(&mut d);
        receiver_copy.fill_bytes(&mut z);
        let seed: [u8; 32] = receiver_copy.random();
        let (_, ek) = generate_with(&d, &z);
        let random = sample_ntt_vector(&seed).unwrap();
        let (r0, r1) = offer_keys(&ek, &random, choices[i]).unwrap();
        assert_eq!(pairs[i].0 .0, r0.0);
        assert_eq!(pairs[i].1 .0, r1.0);

        let (ek0, ek1) = reconstruct_keys(&r0, &r1).unwrap();
        let mut m0 = [0u8; 32];
        let mut m1 = [0u8; 32];
        sender_copy.fill_bytes(&mut m0);
        sender_copy.fill_bytes(&mut m1);
        let (ct0, shared0) = encapsulate_with(&ek0, &m0);
        let (ct1, shared1) = encapsulate_with(&ek1, &m1);
        assert_eq!(cts.cts0[i].0, ct0.0);
        assert_eq!(cts.cts1[i].0, ct1.0);
        assert_eq!(ots[i][0], oracle(hash_input(&shared0, i)));
        assert_eq!(ots[i][1], oracle(hash_input(&shared1, i)));
    }
}

#[test]
fn slots_do_not_depend_on_each_other() {
    let choices = vec![false, true, false];
    let mut receiver = MlKemOt::new_with_rng(StdRng::seed_from_u64(41));
    let (_, keys) = receiver.receive_begin(&choices).unwrap();
    let mut changed = EncapsulationKeysMessage {
        eks0: keys.eks0.clone(),
        eks1: keys.eks1.clone(),
    };
    changed.eks0[1] = keys.eks0[0];
    let mut ots1 = vec![[ZERO; 2]; 3];
    let mut ots2 = vec![[ZERO; 2]; 3];
    let mut sender1 = MlKemOt::new_with_rng(StdRng::seed_from_u64(42));
    let mut sender2 = MlKemOt::new_with_rng(StdRng::seed_from_u64(42));
    let cts1 = sender1.send_into(&mut ots1, Some(keys), &oracle).unwrap();
    let cts2 = sender2.send_into(&mut ots2, Some(changed), &oracle).unwrap();
    for i in [0, 2] {
        assert_eq!(cts1.cts0[i].0, cts2.cts0[i].0);
        assert_eq!(cts1.cts1[i].0, cts2.cts1[i].0);
        assert_eq!(ots1[i], ots2[i]);
    }
    assert_ne!(cts1.cts0[1].0, cts2.cts0[1].0);
    assert_ne!(ots1[1], ots2[1]);
}
