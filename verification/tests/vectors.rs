//! Vectors, their byte form, and sampling.

use hybrid_array::typenum::{U12, U4};
use hybrid_array::Array;
use mlkem_ot::codec::{encode, parse_ek, serialize_ek, unpack_pair};
use mlkem_ot::sample::{accept_block, hash_to_key, sample_ntt_poly, sample_ntt_vector};
use mlkem_ot::vector::NttVector;
use mlkem_ot::xof::xof;
use module_lattice::{Elem, Encode, Field, NttPolynomial};

#[derive(Copy, Clone, Default, Debug, Eq, PartialEq)]
struct MlKemField;

impl Field for MlKemField {
    type Int = u16;
    type Long = u32;
    type LongLong = u64;

    const Q: u16 = 3329;
    const QL: u32 = 3329;
    const QLL: u64 = 3329;
    const BARRETT_SHIFT: usize = 24;
    const BARRETT_MULTIPLIER: u64 = 5039;

    fn small_reduce(x: u16) -> u16 {
        if x < 3329 {
            x
        } else {
            x - 3329
        }
    }

    fn barrett_reduce(x: u32) -> u16 {
        (x % 3329) as u16
    }
}

type LatticeVector = module_lattice::NttVector<MlKemField, U4>;

fn lattice(values: &[u16]) -> LatticeVector {
    LatticeVector::new(Array::from_fn(|j| {
        NttPolynomial::new(Array::from_fn(|i| Elem::new(values[256 * j + i])))
    }))
}

fn flat(vector: &LatticeVector) -> Vec<u16> {
    vector.0.iter().flat_map(|poly| poly.0.iter().map(|x| x.0)).collect()
}

fn quadratic() -> Vec<u16> {
    (0..1024u32).map(|i| ((7 * i * i + 3 * i + 1) % 3329) as u16).collect()
}

fn linear() -> Vec<u16> {
    (0..1024u32).map(|i| ((3328 + 1721 * i) % 3329) as u16).collect()
}

fn counting_seed() -> [u8; 32] {
    let mut seed = [0u8; 32];
    for i in 0..32 {
        seed[i] = i as u8;
    }
    seed
}

fn check_vector(vector: &NttVector, first: [[u16; 4]; 4], last: [[u16; 4]; 4], sums: [u32; 4]) {
    for j in 0..4 {
        let poly = &vector.coeffs()[256 * j..256 * (j + 1)];
        assert_eq!(&poly[..4], &first[j][..]);
        assert_eq!(&poly[252..], &last[j][..]);
        assert_eq!(poly.iter().map(|x| *x as u32).sum::<u32>(), sums[j]);
    }
}

#[test]
fn vectors_have_reduced_coefficients() {
    assert!(NttVector::new(vec![0; 1023]).is_none());
    assert!(NttVector::new(vec![0; 1025]).is_none());
    assert!(NttVector::new(Vec::new()).is_none());
    let mut values = vec![3328; 1024];
    assert_eq!(NttVector::new(values.clone()).unwrap().coeffs(), &values);
    values[1023] = 3329;
    assert!(NttVector::new(values).is_none());
}

#[test]
fn arithmetic_matches_module_lattice() {
    let a = NttVector::new(quadratic()).unwrap();
    let b = NttVector::new(linear()).unwrap();
    let la = lattice(&quadratic());
    let lb = lattice(&linear());
    assert_eq!(a.plus(&b).coeffs(), &flat(&(&la + &lb)));
    assert_eq!(a.minus(&b).coeffs(), &flat(&(&la - &lb)));
    assert_eq!(b.minus(&a).coeffs(), &flat(&(&lb - &la)));
}

#[test]
fn sum_takes_back_difference() {
    let a = NttVector::new(quadratic()).unwrap();
    let b = NttVector::new(linear()).unwrap();
    assert_eq!(a.minus(&b).plus(&b).coeffs(), &quadratic());
    assert_eq!(a.plus(&b).minus(&b).coeffs(), &quadratic());
    let small = NttVector::new(vec![1; 1024]).unwrap();
    let large = NttVector::new(vec![3328; 1024]).unwrap();
    assert_eq!(small.plus(&large).coeffs(), &vec![0; 1024]);
    assert_eq!(small.minus(&large).coeffs(), &vec![2; 1024]);
}

#[test]
fn encoding_matches_module_lattice() {
    for values in [quadratic(), linear(), vec![3328; 1024]] {
        let expected = <LatticeVector as Encode<U12>>::encode(&lattice(&values));
        let vector = NttVector::new(values).unwrap();
        assert_eq!(encode(&vector).as_slice(), expected.as_slice());
    }
    let bytes = encode(&NttVector::new(quadratic()).unwrap());
    assert_eq!(
        &bytes[..12],
        &[0x01, 0xb0, 0x00, 0x23, 0x90, 0x04, 0x7d, 0xf0, 0x0b, 0x0f, 0xd1, 0x16]
    );
    assert_eq!(&bytes[1530..], &[0xd9, 0x77, 0xba, 0x82, 0xc2, 0x66]);
}

#[test]
fn parsing_matches_module_lattice() {
    let mut state = 12345u32;
    for _ in 0..8 {
        let mut bytes = [0u8; 1568];
        for byte in bytes.iter_mut() {
            state = state.wrapping_mul(1664525).wrapping_add(1013904223);
            *byte = (state >> 24) as u8;
        }
        let encoded = Array::from_fn(|i| bytes[i]);
        let expected = <LatticeVector as Encode<U12>>::decode(&encoded);
        let (t_hat, rho) = parse_ek(&bytes);
        assert_eq!(t_hat.coeffs(), &flat(&expected));
        assert_eq!(&rho[..], &bytes[1536..]);
    }
}

#[test]
fn parsing_reduces_coefficients() {
    let (t_hat, rho) = parse_ek(&[0xff; 1568]);
    assert_eq!(t_hat.coeffs(), &vec![4095 - 3329; 1024]);
    assert_eq!(rho, [0xff; 32]);
    assert_ne!(serialize_ek(&t_hat, &rho), [0xff; 1568]);
}

#[test]
fn keys_split_into_their_parts() {
    let vector = NttVector::new(quadratic()).unwrap();
    let rho = counting_seed();
    let bytes = serialize_ek(&vector, &rho);
    assert_eq!(&bytes[..1536], &encode(&vector)[..]);
    assert_eq!(&bytes[1536..], &rho[..]);
    let (t_hat, parsed_rho) = parse_ek(&bytes);
    assert_eq!(t_hat.coeffs(), &quadratic());
    assert_eq!(parsed_rho, rho);
    assert_eq!(serialize_ek(&t_hat, &parsed_rho), bytes);
}

#[test]
fn three_bytes_hold_two_integers() {
    assert_eq!(unpack_pair(0x23, 0x61, 0x45), (0x123, 0x456));
    assert_eq!(unpack_pair(0xff, 0xff, 0xff), (4095, 4095));
    assert_eq!(unpack_pair(0, 0, 0), (0, 0));
}

#[test]
fn blocks_give_reduced_values_only() {
    let mut block = [0xffu8; 96];
    block[0] = 0x01;
    block[1] = 0xf0;
    block[2] = 0xff;
    block[93] = 0xff;
    block[94] = 0x2f;
    block[95] = 0x00;
    block[45] = 0x01;
    block[46] = 0x0d;
    block[47] = 0xd0;
    let mut coeffs = vec![5];
    accept_block(&mut coeffs, &block);
    assert_eq!(coeffs, vec![5, 1, 3328, 2]);
}

#[test]
fn rejected_groups_give_nothing() {
    let mut plain = [0xffu8; 96];
    let mut inserted = [0xffu8; 96];
    for n in 0..10 {
        let group = [n as u8, 0x10, 0x0c];
        plain[3 * n..3 * n + 3].copy_from_slice(&group);
        inserted[9 * n + 3..9 * n + 6].copy_from_slice(&group);
    }
    inserted[0] = 0x01;
    inserted[1] = 0x1d;
    inserted[2] = 0xd0;
    let mut from_plain = Vec::new();
    let mut from_inserted = Vec::new();
    accept_block(&mut from_plain, &plain);
    accept_block(&mut from_inserted, &inserted);
    let expected: Vec<u16> = (0..10).flat_map(|n| [n, 193]).collect();
    assert_eq!(from_plain, expected);
    assert_eq!(from_inserted, expected);
}

#[test]
fn blocks_fill_up_to_a_polynomial() {
    let block = [0u8; 96];
    let mut coeffs = vec![9; 255];
    accept_block(&mut coeffs, &block);
    assert_eq!(coeffs.len(), 256);
    assert_eq!(coeffs[255], 0);
    accept_block(&mut coeffs, &block);
    assert_eq!(coeffs.len(), 256);
    let mut few = Vec::new();
    accept_block(&mut few, &block);
    assert_eq!(few, vec![0; 64]);
}

#[test]
fn column_comes_before_row() {
    let stream = xof(&counting_seed(), 2, 5);
    let block0 = stream.read_block(0);
    let block1 = stream.read_block(1);
    assert_eq!(&block0[..8], &[0x9e, 0x1c, 0x2b, 0xcb, 0x3c, 0xfd, 0xfe, 0xae]);
    assert_eq!(&block1[..8], &[0xaf, 0xd5, 0x4d, 0xb8, 0xfd, 0xac, 0x53, 0x02]);
    assert_ne!(block0, xof(&counting_seed(), 5, 2).read_block(0));
}

#[test]
fn polynomials_are_sampled_from_streams() {
    let poly = sample_ntt_poly(&xof(&counting_seed(), 1, 0)).unwrap();
    assert_eq!(poly.len(), 256);
    assert_eq!(&poly[..4], &[797, 993, 161, 6]);
    assert_eq!(&poly[252..], &[1419, 79, 5, 2013]);
    assert_eq!(poly.iter().map(|x| *x as u32).sum::<u32>(), 375544);
}

#[test]
fn vectors_are_sampled_from_seeds() {
    let vector = sample_ntt_vector(&counting_seed()).unwrap();
    check_vector(
        &vector,
        [
            [481, 1919, 1434, 2359],
            [797, 993, 161, 6],
            [346, 2006, 2853, 1737],
            [1028, 3193, 1404, 354],
        ],
        [
            [1926, 2513, 2367, 3216],
            [1419, 79, 5, 2013],
            [253, 415, 3070, 1107],
            [3291, 2560, 1227, 2939],
        ],
        [428176, 375544, 430851, 410256],
    );
}

#[test]
fn zero_vector_is_hashed() {
    let hashed = hash_to_key(&NttVector::new(vec![0; 1024]).unwrap()).unwrap();
    check_vector(
        &hashed,
        [
            [543, 3258, 595, 2320],
            [2538, 2908, 2876, 2694],
            [1916, 901, 1958, 3173],
            [2340, 2368, 1713, 1751],
        ],
        [
            [1848, 1372, 1659, 612],
            [934, 2080, 454, 887],
            [643, 538, 778, 519],
            [820, 2081, 3249, 995],
        ],
        [424713, 416684, 429121, 448465],
    );
}

#[test]
fn vector_is_hashed() {
    let hashed = hash_to_key(&NttVector::new(quadratic()).unwrap()).unwrap();
    check_vector(
        &hashed,
        [
            [242, 331, 193, 11],
            [1627, 2447, 2513, 1896],
            [1058, 2571, 1153, 615],
            [492, 351, 605, 2114],
        ],
        [
            [2366, 2637, 1947, 1608],
            [628, 1183, 2052, 3107],
            [637, 1325, 3186, 1408],
            [2036, 294, 2787, 980],
        ],
        [420330, 409794, 399958, 425425],
    );
}
