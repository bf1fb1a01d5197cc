//! ML-KEM-1024, and the byte strings that it works on.

use crate::codec::is_canonical_key;
use crate::generator::{continues, new_draws, Generator};
use crate::params::{
    SharedKey, CIPHERTEXT_LEN, DECAPSULATION_KEY_LEN, ENCAPSULATION_KEY_LEN,
};
use crate::sample::{sample_ntt_vector, sample_vector};
use crate::vector::{vector_view, NttVector};
use ml_kem::kem::{Decapsulate, DecapsulationKey, EncapsulationKey};
use ml_kem::{EncapsulateDeterministic, EncodedSizeUser, KemCore, MlKem1024, MlKem1024Params};
use subtle::{Choice, ConditionallySelectable};
use vstd::prelude::*;

verus! {

/// An encapsulation key.
#[derive(Clone, Copy, Debug)]
pub struct EncapKeyBytes(pub [u8; ENCAPSULATION_KEY_LEN]);

/// A decapsulation key.
pub struct DecapKeyBytes(pub [u8; DECAPSULATION_KEY_LEN]);

/// A ciphertext.
#[derive(Clone, Copy, Debug)]
pub struct CtBytes(pub [u8; CIPHERTEXT_LEN]);

/// The decapsulation key and the encapsulation key that ML-KEM derives from the
/// seeds `d` and `z`.
pub uninterp spec fn ml_kem_key_pair(d: Seq<u8>, z: Seq<u8>) -> (Seq<u8>, Seq<u8>);

/// The ciphertext and the shared key of the encapsulation of the message `m` to
/// the encapsulation key `ek`.
pub uninterp spec fn ml_kem_encapsulation(ek: Seq<u8>, m: Seq<u8>) -> (Seq<u8>, Seq<u8>);

/// The shared key that the decapsulation key `dk` gets from the ciphertext `ct`.
pub uninterp spec fn ml_kem_decapsulation(dk: Seq<u8>, ct: Seq<u8>) -> Seq<u8>;

/// `KemCore::generate_deterministic` of the `ml-kem` crate for `MlKem1024`, with
/// both keys in the form that `EncodedSizeUser::as_bytes` gives them. The claim is
/// that the keys depend on the seeds alone, and that the coefficients in the
/// encapsulation key are reduced, as the field arithmetic leaves them.
#[verifier::external_body]
fn generate_deterministic(d: &[u8; 32], z: &[u8; 32]) -> (r: (
    [u8; DECAPSULATION_KEY_LEN],
    [u8; ENCAPSULATION_KEY_LEN],
))
    ensures
        (r.0@, r.1@) == ml_kem_key_pair(d@, z@),
        is_canonical_key(r.1@),
{
    let (dk, ek) = MlKem1024::generate_deterministic(&(*d).into(), &(*z).into());
    (dk.as_bytes().into(), ek.as_bytes().into())
}

/// `EncapsulateDeterministic::encapsulate_deterministic` of the `ml-kem` crate for
/// the key that `EncodedSizeUser::from_bytes` reads from `ek`; it never fails. The
/// claim is that the ciphertext and the shared key depend on the two arguments
/// alone.
#[verifier::external_body]
fn encapsulate_deterministic(ek: &[u8; ENCAPSULATION_KEY_LEN], m: &[u8; 32]) -> (r: (
    [u8; CIPHERTEXT_LEN],
    SharedKey,
))
    ensures
        (r.0@, r.1@) == ml_kem_encapsulation(ek@, m@),
{
    let key = EncapsulationKey::<MlKem1024Params>::from_bytes(&(*ek).into());
    let (ct, shared) = key.encapsulate_deterministic(&(*m).into()).unwrap();
    (ct.into(), shared.into())
}

/// `Decapsulate::decapsulate` of the `ml-kem` crate for the key that
/// `EncodedSizeUser::from_bytes` reads from `dk`. The claim is that it succeeds on
/// every ciphertext, and that the shared key depends on the two arguments alone.
#[verifier::external_body]
fn decapsulate_bytes(dk: &[u8; DECAPSULATION_KEY_LEN], ct: &[u8; CIPHERTEXT_LEN]) -> (r: Result<
    SharedKey,
    (),
>)
    ensures
        r is Ok,
        r->Ok_0@ == ml_kem_decapsulation(dk@, ct@),
{
    let key = DecapsulationKey::<MlKem1024Params>::from_bytes(&(*dk).into());
    key.decapsulate(&(*ct).into()).map(|shared| shared.into())
}

/// `ConditionallySelectable::conditional_select` of the `subtle` crate on arrays:
/// `b` if `choice` is set, else `a`, in constant time.
#[verifier::external_body]
fn select_bytes<const N: usize>(a: &[u8; N], b: &[u8; N], choice: bool) -> (r: [u8; N])
    ensures
        r == (if choice {
            *b
        } else {
            *a
        }),
{
    <[u8; N]>::conditional_select(a, b, Choice::from(choice as u8))
}

impl EncapKeyBytes {
    /// Selects `b` if `choice` is set, else `a`, in constant time.
    pub fn conditional_select(
        a: &EncapKeyBytes,
        b: &EncapKeyBytes,
        choice: bool,
    ) -> (r: EncapKeyBytes)
        ensures
            r == (if choice {
                *b
            } else {
                *a
            }),
    {
        EncapKeyBytes(select_bytes(&a.0, &b.0, choice))
    }
}

impl CtBytes {
    /// Selects `b` if `choice` is set, else `a`, in constant time.
    pub fn conditional_select(a: &CtBytes, b: &CtBytes, choice: bool) -> (r: CtBytes)
        ensures
            r == (if choice {
                *b
            } else {
                *a
            }),
    {
        CtBytes(select_bytes(&a.0, &b.0, choice))
    }
}

/// Derives a key pair from two seeds.
pub fn generate_with(d: &[u8; 32], z: &[u8; 32]) -> (r: (DecapKeyBytes, EncapKeyBytes))
    ensures
        (r.0.0@, r.1.0@) == ml_kem_key_pair(d@, z@),
        is_canonical_key(r.1.0@),
{
    let (dk, ek) = generate_deterministic(d, z);
    (DecapKeyBytes(dk), EncapKeyBytes(ek))
}

/// Derives a key pair from two seeds that it draws.
pub fn generate(generator: &mut Generator) -> (r: (DecapKeyBytes, EncapKeyBytes))
    ensures
        continues(old(generator).drawn(), final(generator).drawn(), 2),
        ({
            let draws = new_draws(old(generator).drawn(), final(generator).drawn());
            (r.0.0@, r.1.0@) == ml_kem_key_pair(draws[0]@, draws[1]@)
        }),
        is_canonical_key(r.1.0@),
{
    let d: [u8; 32] = generator.draw_bytes();
    let z: [u8; 32] = generator.draw_bytes();
    generate_with(&d, &z)
}

/// Encapsulates the message `m` to a key.
pub fn encapsulate_with(ek: &EncapKeyBytes, m: &[u8; 32]) -> (r: (CtBytes, SharedKey))
    ensures
        (r.0.0@, r.1@) == ml_kem_encapsulation(ek.0@, m@),
{
    let (ct, shared) = encapsulate_deterministic(&ek.0, m);
    (CtBytes(ct), shared)
}

/// Encapsulates a message that it draws to a key, and gives the ciphertext and the
/// shared key.
pub fn encapsulate(ek: &EncapKeyBytes, generator: &mut Generator) -> (r: (CtBytes, SharedKey))
    ensures
        continues(old(generator).drawn(), final(generator).drawn(), 1),
        (r.0.0@, r.1@) == ml_kem_encapsulation(ek.0@, final(generator).drawn().last()@),
{
    let m: [u8; 32] = generator.draw_bytes();
    encapsulate_with(ek, &m)
}

/// Decapsulates a ciphertext.
pub fn decapsulate(dk: &DecapKeyBytes, ct: &CtBytes) -> (r: Result<SharedKey, ()>)
    ensures
        r is Ok,
        r->Ok_0@ == ml_kem_decapsulation(dk.0@, ct.0@),
{
    decapsulate_bytes(&dk.0, &ct.0)
}

/// A vector that is sampled from a seed that it draws.
pub fn random_ek(generator: &mut Generator) -> (r: Option<NttVector>)
    ensures
        continues(old(generator).drawn(), final(generator).drawn(), 1),
        vector_view(r) == sample_vector(final(generator).drawn().last()@),
{
    let seed: [u8; 32] = generator.draw_seed();
    sample_ntt_vector(&seed)
}

} // verus!
