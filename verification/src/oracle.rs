//! Derivation of oblivious transfer keys with a random oracle.
//!
//! The oracle is an argument: a function from byte strings to blocks.

use crate::params::{Block, SharedKey, SHARED_KEY_LEN};

use vstd::arithmetic::div_mod::lemma_div_denominator;
use vstd::arithmetic::power::{lemma_pow0, lemma_pow1, lemma_pow_adds, lemma_pow_positive, pow};
use vstd::prelude::*;

verus! {

/// The bytes of `"MlKemOt"`, which start every oracle input.
pub open spec fn domain_separator() -> Seq<u8> {
    seq![0x4du8, 0x6c, 0x4b, 0x65, 0x6d, 0x4f, 0x74]
}

/// The `len` least significant bytes of `value`, least significant byte first.
pub open spec fn le_bytes(value: nat, len: nat) -> Seq<u8>
    decreases len,
{
    if len == 0 {
        seq![]
    } else {
        seq![(value % 256) as u8] + le_bytes(value / 256, (len - 1) as nat)
    }
}

/// Number of bytes of a machine word.
pub open spec fn word_len() -> nat {
    (usize::BITS / 8) as nat
}

/// What the oracle is asked for a shared key: the domain separator, the key, and
/// the number of the transfer as a machine word.
pub open spec fn oracle_input(key: Seq<u8>, tweak: usize) -> Seq<u8> {
    domain_separator() + key + le_bytes(tweak as nat, word_len())
}

/// Whether `oracle` may be asked anything.
pub open spec fn accepts_all<O: Fn(Vec<u8>) -> Block>(oracle: O) -> bool {
    forall|input: Vec<u8>| call_requires(oracle, (input,))
}

/// Whether `oracle` may answer `input` with `block`.
pub open spec fn answers<O: Fn(Vec<u8>) -> Block>(
    oracle: O,
    input: Seq<u8>,
    block: Block,
) -> bool {
    exists|query: Vec<u8>| query@ == input && #[trigger] call_ensures(oracle, (query,), block)
}

/// Whether `oracle` answers the same input always with the same block.
pub open spec fn is_function<O: Fn(Vec<u8>) -> Block>(oracle: O) -> bool {
    forall|input: Seq<u8>, block1: Block, block2: Block| #[trigger]
        answers(oracle, input, block1) && #[trigger] answers(oracle, input, block2) ==> block1
            == block2
}

proof fn le_bytes_len(value: nat, len: nat)
    ensures
        le_bytes(value, len).len() == len,
    decreases len,
{
    if len > 0 {
        le_bytes_len(value / 256, (len - 1) as nat);
    }
}


/// What the oracle is asked for the shared key of transfer number `tweak`.
pub fn hash_input(key: &SharedKey, tweak: usize) -> (r: Vec<u8>)
    ensures
        r@ == oracle_input(key@, tweak),
{
    let mut input: Vec<u8> = vec![0x4d, 0x6c, 0x4b, 0x65, 0x6d, 0x4f, 0x74];
    assert(input@ =~= domain_separator());
    let mut i: usize = 0;
    while i < SHARED_KEY_LEN
        invariant
            i <= SHARED_KEY_LEN,
            input@ == domain_separator() + key@.take(i as int),
        decreases SHARED_KEY_LEN - i,
    {
        input.push(key[i]);
        i = i + 1;
        assert(input@ =~= domain_separator() + key@.take(i as int));
    }
    assert(key@.take(SHARED_KEY_LEN as int) =~= key@);
    let words: u32 = usize::BITS / 8;
    let mut left: u32 = words;
    let mut rest: usize = tweak;
    while left > 0
        invariant
            left <= words,
            words == usize::BITS / 8,
            input@ + le_bytes(rest as nat, left as nat) == oracle_input(key@, tweak),
        decreases left,
    {
        let ghost before = input@;
        let ghost value = rest as nat;
        input.push((rest % 256) as u8);
        rest = rest / 256;
        left = left - 1;
        assert(input@ + le_bytes(rest as nat, left as nat) =~= before + le_bytes(
            value,
            (left + 1) as nat,
        ));
    }
    assert(input@ + le_bytes(rest as nat, 0) =~= input@);
    input
}

/// Derives an oblivious transfer key from the shared key of transfer number
/// `tweak`.
pub fn hash<O: Fn(Vec<u8>) -> Block>(oracle: &O, key: &SharedKey, tweak: usize) -> (r: Block)
    requires
        accepts_all(*oracle),
    ensures
        answers(*oracle, oracle_input(key@, tweak), r),
{
    let input = hash_input(key, tweak);
    oracle(input)
}

/// Whether `len` bytes are enough for `value`.
spec fn fits(value: nat, len: nat) -> bool
    decreases len,
{
    if len == 0 {
        value == 0
    } else {
        fits(value / 256, (len - 1) as nat)
    }
}

proof fn words_fit(value: usize)
    ensures
        fits(value as nat, word_len()),
{
    reveal_with_fuel(fits, 9);
    assert(usize::BITS == 32 || usize::BITS == 64);
}

proof fn le_bytes_injective(a: nat, b: nat, len: nat)
    requires
        fits(a, len),
        fits(b, len),
        le_bytes(a, len) == le_bytes(b, len),
    ensures
        a == b,
    decreases len,
{
    if len > 0 {
        let rest = (len - 1) as nat;
        let bytes_a = le_bytes(a, len);
        let bytes_b = le_bytes(b, len);
        assert(bytes_a[0] == a % 256);
        assert(bytes_b[0] == b % 256);
        assert(bytes_a.skip(1) =~= le_bytes(a / 256, rest));
        assert(bytes_b.skip(1) =~= le_bytes(b / 256, rest));
        le_bytes_injective(a / 256, b / 256, rest);
    }
}

/// Different shared keys or different transfers ask the oracle different things.
pub proof fn oracle_inputs_differ(key1: Seq<u8>, tweak1: usize, key2: Seq<u8>, tweak2: usize)
    requires
        key1.len() == SHARED_KEY_LEN,
        key2.len() == SHARED_KEY_LEN,
        oracle_input(key1, tweak1) == oracle_input(key2, tweak2),
    ensures
        key1 == key2,
        tweak1 == tweak2,
{
    let a = oracle_input(key1, tweak1);
    let b = oracle_input(key2, tweak2);
    le_bytes_len(tweak1 as nat, word_len());
    le_bytes_len(tweak2 as nat, word_len());
    assert(a.subrange(7, 39) =~= key1);
    assert(b.subrange(7, 39) =~= key2);
    assert(a.skip(39) =~= le_bytes(tweak1 as nat, word_len()));
    assert(b.skip(39) =~= le_bytes(tweak2 as nat, word_len()));
    words_fit(tweak1);
    words_fit(tweak2);
    le_bytes_injective(tweak1 as nat, tweak2 as nat, word_len());
}

proof fn le_bytes_at(value: nat, len: nat, k: nat)
    requires
        k < len,
    ensures
        le_bytes(value, len).len() == len,
        le_bytes(value, len)[k as int] == (value as int / pow(256, k)) % 256,
    decreases len,
{
    le_bytes_len(value, len);
    lemma_pow0(256);
    if k > 0 {
        let before = (k - 1) as nat;
        le_bytes_at(value / 256, (len - 1) as nat, before);
        let rest = le_bytes(value / 256, (len - 1) as nat);
        assert(le_bytes(value, len)[k as int] == rest[before as int]);
        lemma_pow_adds(256, 1, before);
        lemma_pow1(256);
        lemma_pow_positive(256, before);
        lemma_div_denominator(value as int, 256, pow(256, before));
    }
}

/// The oracle is asked for the seven letters of `MlKemOt`, the key, and the number of
/// the transfer in base 256, least significant digit first, with as many digits as a
/// machine word has bytes. `n` is a position in the key, and `k` a digit.
pub proof fn oracle_inputs_hold_name_key_and_number(key: Seq<u8>, tweak: usize, n: int, k: nat)
    requires
        8 * k < usize::BITS,
    ensures
        8 * (oracle_input(key, tweak).len() - 7 - key.len()) == usize::BITS,
        oracle_input(key, tweak).take(7) == seq![77u8, 108, 75, 101, 109, 79, 116],
        0 <= n < key.len() ==> oracle_input(key, tweak)[7 + n] == key[n],
        oracle_input(key, tweak)[7int + key.len() + k] == (tweak as int / pow(256, k)) % 256,
{
    assert(usize::BITS == 32 || usize::BITS == 64);
    le_bytes_at(tweak as nat, word_len(), k);
    assert(oracle_input(key, tweak).take(7) =~= seq![77u8, 108, 75, 101, 109, 79, 116]);
}

/// Different transfers ask the oracle different things, whatever the shared keys.
pub proof fn transfers_ask_differently(key1: Seq<u8>, tweak1: usize, key2: Seq<u8>, tweak2: usize)
    requires
        tweak1 != tweak2,
    ensures
        oracle_input(key1, tweak1) != oracle_input(key2, tweak2),
{
    let a = oracle_input(key1, tweak1);
    let b = oracle_input(key2, tweak2);
    le_bytes_len(tweak1 as nat, word_len());
    le_bytes_len(tweak2 as nat, word_len());
    assert(a.skip((7 + key1.len()) as int) =~= le_bytes(tweak1 as nat, word_len()));
    assert(b.skip((7 + key2.len()) as int) =~= le_bytes(tweak2 as nat, word_len()));
    if a == b {
        assert(key1.len() == key2.len());
        words_fit(tweak1);
        words_fit(tweak2);
        le_bytes_injective(tweak1 as nat, tweak2 as nat, word_len());
    }
}

/// What an oracle that computes `f` answers is the value of `f`.
pub proof fn answers_are_values<O: Fn(Vec<u8>) -> Block>(
    oracle: O,
    f: spec_fn(Seq<u8>) -> Block,
    input: Seq<u8>,
    block: Block,
)
    requires
        forall|query: Vec<u8>, answer: Block| #[trigger]
            call_ensures(oracle, (query,), answer) ==> answer == f(query@),
        answers(oracle, input, block),
    ensures
        block == f(input),
{
}

/// An oracle that takes every input accepts all, and one that computes a function
/// answers the same always.
pub proof fn functions_are_oracles<O: Fn(Vec<u8>) -> Block>(
    oracle: O,
    f: spec_fn(Seq<u8>) -> Block,
)
    requires
        forall|query: Vec<u8>| #[trigger] call_requires(oracle, (query,)),
        forall|query: Vec<u8>, answer: Block| #[trigger]
            call_ensures(oracle, (query,), answer) ==> answer == f(query@),
    ensures
        accepts_all(oracle),
        is_function(oracle),
{
}

} // verus!
