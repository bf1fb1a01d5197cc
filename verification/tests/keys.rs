//! Key pairs, and the keys of a single transfer.

use ml_kem::kem::Decapsulate;
use ml_kem::{EncapsulateDeterministic, EncodedSizeUser, KemCore, MlKem1024};
use mlkem_ot::codec::{parse_ek, serialize_ek};
use mlkem_ot::generator::Generator;
use mlkem_ot::kem::{
    decapsulate, encapsulate, encapsulate_with, generate, generate_with, random_ek, CtBytes,
    EncapKeyBytes,
};
use mlkem_ot::receiver::{mask_key, offer_keys};
use mlkem_ot::sample::{hash_to_key, sample_ntt_vector};
use mlkem_ot::sender::{reconstruct_keys, unmask_keys};
use mlkem_ot::vector::NttVector;
use rand::rngs::StdRng;
use rand::{Rng, RngExt, SeedableRng};

#[test]
fn selection_follows_choice() {
    let a = EncapKeyBytes([1; 1568]);
    let b = EncapKeyBytes([2; 1568]);
    assert_eq!(EncapKeyBytes::conditional_select(&a, &b, false).0, a.0);
    assert_eq!(EncapKeyBytes::conditional_select(&a, &b, true).0, b.0);
    let c = CtBytes([3; 1568]);
    let d = CtBytes([4; 1568]);
    assert_eq!(CtBytes::conditional_select(&c, &d, false).0, c.0);
    assert_eq!(CtBytes::conditional_select(&c, &d, true).0, d.0);
}

#[test]
fn key_pairs_match_ml_kem() {
    let d = [11u8; 32];
    let z = [22u8; 32];
    let m = [33u8; 32];
    let (dk, ek) = generate_with(&d, &z);
    let (outer_dk, outer_ek) = MlKem1024::generate_deterministic(&d.into(), &z.into());
    assert_eq!(&ek.0[..], outer_ek.as_bytes().as_slice());
    assert_eq!(&dk.0[..], outer_dk.as_bytes().as_slice());
    assert_eq!(&dk.0[3136..], &z[..]);
    let (ct, shared) = encapsulate_with(&ek, &m);
    let (outer_ct, outer_shared) = outer_ek.encapsulate_deterministic(&m.into()).unwrap();
    assert_eq!(&ct.0[..], outer_ct.as_slice());
    assert_eq!(&shared[..], outer_shared.as_slice());
    assert_ne!(shared, m);
    assert_eq!(decapsulate(&dk, &ct), Ok(shared));
    let other = CtBytes([5; 1568]);
    let rejected = outer_dk.decapsulate(&[5u8; 1568].into()).unwrap();
    assert_eq!(&decapsulate(&dk, &other).unwrap()[..], rejected.as_slice());
}

#[test]
fn generated_keys_are_canonical() {
    for n in 0..20u8 {
        let (_, ek) = generate_with(&[n; 32], &[100 + n; 32]);
        let (t_hat, rho) = parse_ek(&ek.0);
        assert_eq!(serialize_ek(&t_hat, &rho), ek.0);
    }
}

#[test]
fn randomness_comes_from_the_generator() {
    let mut generator = Generator::new(StdRng::seed_from_u64(7));
    let mut copy = StdRng::seed_from_u64(7);
    let (dk, ek) = generate(&mut generator);
    let random = random_ek(&mut generator).unwrap();
    let (ct, shared) = encapsulate(&ek, &mut generator);
    let mut d = [0u8; 32];
    let mut z = [0u8; 32];
    let mut m = [0u8; 32];
    copy.fill_bytes(&mut d);
    copy.fill_bytes(&mut z);
    let seed: [u8; 32] = copy.random();
    copy.fill_bytes(&mut m);
    let (expected_dk, expected_ek) = generate_with(&d, &z);
    assert_eq!(dk.0, expected_dk.0);
    assert_eq!(ek.0, expected_ek.0);
    assert_eq!(random.coeffs(), sample_ntt_vector(&seed).unwrap().coeffs());
    let (expected_ct, expected_shared) = encapsulate_with(&ek, &m);
    assert_eq!(ct.0, expected_ct.0);
    assert_eq!(shared, expected_shared);
}

fn key(value: u16, rho: u8) -> EncapKeyBytes {
    EncapKeyBytes(serialize_ek(&constant(value), &[rho; 32]))
}

fn constant(value: u16) -> NttVector {
    NttVector::new(vec![value; 1024]).unwrap()
}

#[test]
fn masks_are_subtracted_from_the_own_key() {
    let ek = key(5, 9);
    let (r0, r1) = mask_key(&ek, &constant(1000), &constant(7), false);
    assert_eq!(r0.0, key(3327, 9).0);
    assert_eq!(r1.0, key(1000, 9).0);
    let (s0, s1) = mask_key(&ek, &constant(1000), &constant(7), true);
    assert_eq!(s0.0, r1.0);
    assert_eq!(s1.0, r0.0);
}

#[test]
fn masks_are_added_to_the_other_key() {
    let (ek0, ek1) = unmask_keys(&key(3327, 9), &key(1000, 8), &constant(30), &constant(7));
    assert_eq!(ek0.0, key(5, 9).0);
    assert_eq!(ek1.0, key(1030, 9).0);
}

#[test]
fn sender_reconstructs_the_own_key_in_the_chosen_position() {
    let (_, ek) = generate_with(&[1; 32], &[2; 32]);
    let random = sample_ntt_vector(&[3; 32]).unwrap();
    for choice in [false, true] {
        let (r0, r1) = offer_keys(&ek, &random, choice).unwrap();
        let (ek0, ek1) = reconstruct_keys(&r0, &r1).unwrap();
        let (chosen, other) = if choice { (ek1, ek0) } else { (ek0, ek1) };
        assert_eq!(chosen.0, ek.0);
        assert_ne!(other.0, ek.0);
        assert_eq!(&other.0[1536..], &ek.0[1536..]);
        let unchosen = if choice { r0 } else { r1 };
        assert_eq!(parse_ek(&unchosen.0).0.coeffs(), random.coeffs());
    }
}

#[test]
fn offers_are_ordered_by_the_choice() {
    let (_, ek) = generate_with(&[4; 32], &[5; 32]);
    let random = sample_ntt_vector(&[6; 32]).unwrap();
    let (r0, r1) = offer_keys(&ek, &random, false).unwrap();
    let (s0, s1) = offer_keys(&ek, &random, true).unwrap();
    assert_eq!(r0.0, s1.0);
    assert_eq!(r1.0, s0.0);
    let mask = hash_to_key(&random).unwrap();
    let (t0, _) = mask_key(&ek, &random, &mask, false);
    assert_eq!(t0.0, r0.0);
}

#[test]
fn sender_treats_positions_alike() {
    let r0 = key(17, 1);
    let r1 = key(23, 1);
    let (ek0, ek1) = reconstruct_keys(&r0, &r1).unwrap();
    let (swapped0, swapped1) = reconstruct_keys(&r1, &r0).unwrap();
    assert_eq!(ek0.0, swapped1.0);
    assert_eq!(ek1.0, swapped0.0);
    let h1 = hash_to_key(&constant(23)).unwrap();
    assert_eq!(parse_ek(&ek0.0).0.coeffs(), constant(17).plus(&h1).coeffs());
}

fn is_canonical(key: &EncapKeyBytes) -> bool {
    let (t_hat, rho) = parse_ek(&key.0);
    serialize_ek(&t_hat, &rho) == key.0
}

#[test]
fn offered_and_reconstructed_keys_are_canonical() {
    let (_, ek) = generate_with(&[7; 32], &[8; 32]);
    let random = sample_ntt_vector(&[9; 32]).unwrap();
    let (r0, r1) = offer_keys(&ek, &random, true).unwrap();
    assert!(is_canonical(&r0) && is_canonical(&r1));
    assert_eq!(&r0.0[1536..], &ek.0[1536..]);
    assert_eq!(&r1.0[1536..], &ek.0[1536..]);
    let other = EncapKeyBytes([0xff; 1568]);
    assert!(!is_canonical(&other));
    let (ek0, ek1) = reconstruct_keys(&r0, &other).unwrap();
    assert!(is_canonical(&ek0) && is_canonical(&ek1));
    assert_eq!(&ek0.0[1536..], &r0.0[1536..]);
    assert_eq!(&ek1.0[1536..], &r0.0[1536..]);
}
