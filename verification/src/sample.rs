//! Pseudorandom vectors.

use crate::codec::{encode, pack, unpack, unpack_pair};
use crate::params::{Rho, K, NUM_COEFFICIENTS, Q, VECTOR_LEN};
use crate::vector::{is_vector, vector_view, NttVector};
use crate::xof::{
    shake128_byte, xof, xof_input, xof_stream, Xof, XOF_BLOCKS, XOF_BLOCK_LEN,
};
use sha3::Digest;
use vstd::prelude::*;

verus! {

/// The 12-bit integers that `bytes` packs, without those that are not reduced.
pub open spec fn accepted(bytes: Seq<u8>) -> Seq<u16> {
    unpack(bytes).filter(|x: u16| x < Q)
}

/// The first `NUM_COEFFICIENTS` values of `values`, or all of them if there are
/// fewer.
pub open spec fn first_coefficients(values: Seq<u16>) -> Seq<u16> {
    if values.len() > NUM_COEFFICIENTS {
        values.take(NUM_COEFFICIENTS as int)
    } else {
        values
    }
}

/// The polynomial that `bytes` gives: its first accepted values. There is none if it
/// holds too few of them.
pub open spec fn polynomial_of(bytes: Seq<u8>) -> Option<Seq<u16>> {
    let values = accepted(bytes);
    if values.len() >= NUM_COEFFICIENTS {
        Some(values.take(NUM_COEFFICIENTS as int))
    } else {
        None
    }
}

/// The polynomial that the output stream for `input` gives, as far as its blocks can
/// be read.
pub open spec fn sample_polynomial(input: Seq<u8>) -> Option<Seq<u16>> {
    polynomial_of(xof_stream(input, (XOF_BLOCK_LEN * XOF_BLOCKS) as nat))
}

/// The vector that `seed` gives: polynomial `j` comes from the output stream for
/// the seed, `j` and 0.
pub open spec fn sample_vector(seed: Seq<u8>) -> Option<Seq<u16>> {
    if forall|j: int|
        0 <= j < K ==> sample_polynomial(#[trigger] xof_input(seed, j as u8, 0)) is Some {
        Some(
            Seq::new(
                VECTOR_LEN as nat,
                |c: int|
                    {
                        let j = c / (NUM_COEFFICIENTS as int);
                        let i = c % (NUM_COEFFICIENTS as int);
                        sample_polynomial(xof_input(seed, j as u8, 0))->0[i]
                    },
            ),
        )
    } else {
        None
    }
}

/// The SHA3-256 digest of `data`.
pub uninterp spec fn sha3_256_digest(data: Seq<u8>) -> Seq<u8>;

/// The vector to which `t_hat` is hashed.
pub open spec fn key_hash(t_hat: Seq<u16>) -> Option<Seq<u16>> {
    sample_vector(sha3_256_digest(pack(t_hat)))
}

/// `Sha3_256::digest` of the `sha3` crate. The claim is that the digest depends
/// on the data alone.
#[verifier::external_body]
fn sha3_256(data: &[u8]) -> (r: [u8; 32])
    ensures
        r@ == sha3_256_digest(data@),
{
    sha3::Sha3_256::digest(data).into()
}

proof fn accepted_of_concatenation(a: Seq<u8>, b: Seq<u8>)
    requires
        a.len() % 3 == 0,
    ensures
        accepted(a + b) == accepted(a) + accepted(b),
{
    assert(unpack(a + b) =~= unpack(a) + unpack(b)) by {
        assert((a + b).len() / 3 == a.len() / 3 + b.len() / 3);
    }
    Seq::filter_distributes_over_add(unpack(a), unpack(b), |x: u16| x < Q);
}

proof fn accepted_of_triple(b0: u8, b1: u8, b2: u8, d1: u16, d2: u16)
    requires
        d1 == b0 + 256 * (b1 % 16),
        d2 == b1 / 16 + 16 * b2,
    ensures
        accepted(seq![b0, b1, b2]) == (if d1 < Q {
            seq![d1]
        } else {
            seq![]
        }) + (if d2 < Q {
            seq![d2]
        } else {
            seq![]
        }),
{
    assert(unpack(seq![b0, b1, b2]) =~= seq![d1].push(d2));
    reveal_with_fuel(Seq::filter, 3);
    assert(seq![d1].push(d2).drop_last() =~= seq![d1]);
    assert(seq![d1].drop_last() =~= Seq::<u16>::empty());
    assert(accepted(seq![b0, b1, b2]) =~= (if d1 < Q {
        seq![d1]
    } else {
        seq![]
    }) + (if d2 < Q {
        seq![d2]
    } else {
        seq![]
    }));
}

proof fn accepted_are_reduced(bytes: Seq<u8>)
    ensures
        forall|i: int|
            0 <= i < accepted(bytes).len() ==> #[trigger] accepted(bytes)[i] < Q,
{
    let pred = |x: u16| x < Q;
    assert forall|i: int| 0 <= i < accepted(bytes).len() implies #[trigger] accepted(bytes)[i]
        < Q by {
        unpack(bytes).lemma_filter_pred(pred, i);
    }
}

/// Appends the accepted values of a block to `coeffs`, up to
/// `NUM_COEFFICIENTS` values in all.
pub fn accept_block(coeffs: &mut Vec<u16>, block: &[u8; XOF_BLOCK_LEN])
    requires
        old(coeffs)@.len() <= NUM_COEFFICIENTS,
    ensures
        final(coeffs)@ == first_coefficients(old(coeffs)@ + accepted(block@)),
{
    let ghost before = coeffs@;
    let mut pos: usize = 0;
    proof {
        reveal(Seq::filter);
        assert(before + accepted(block@.take(0)) =~= before);
    }
    while pos < XOF_BLOCK_LEN && coeffs.len() < NUM_COEFFICIENTS
        invariant
            pos <= XOF_BLOCK_LEN,
            pos % 3 == 0,
            coeffs@ == first_coefficients(before + accepted(block@.take(pos as int))),
        decreases XOF_BLOCK_LEN - pos,
    {
        let ghost at = pos as int;
        let (d1, d2) = unpack_pair(block[pos], block[pos + 1], block[pos + 2]);
        proof {
            let triple = seq![block@[at], block@[at + 1], block@[at + 2]];
            assert(block@.take(at + 3) =~= block@.take(at) + triple);
            accepted_of_concatenation(block@.take(at), triple);
            accepted_of_triple(block@[at], block@[at + 1], block@[at + 2], d1, d2);
        }
        pos = pos + 3;
        if d1 < Q {
            coeffs.push(d1);
        }
        if coeffs.len() < NUM_COEFFICIENTS && d2 < Q {
            coeffs.push(d2);
        }
        assert(coeffs@ =~= first_coefficients(before + accepted(block@.take(pos as int))));
    }
    proof {
        let rest = block@.skip(pos as int);
        assert(block@ =~= block@.take(pos as int) + rest);
        accepted_of_concatenation(block@.take(pos as int), rest);
        if pos == XOF_BLOCK_LEN {
            assert(block@.take(pos as int) =~= block@);
        }
        assert(coeffs@ =~= first_coefficients(before + accepted(block@)));
    }
}

/// SampleNTT of ML-KEM: collects accepted values from an output stream until a
/// polynomial is complete.
#[verifier::rlimit(40)]
pub fn sample_ntt_poly(stream: &Xof) -> (r: Option<Vec<u16>>)
    ensures
        r is Some <==> sample_polynomial(stream@) is Some,
        r is Some ==> r->0@ == sample_polynomial(stream@)->0,
{
    let ghost all = (XOF_BLOCK_LEN * XOF_BLOCKS) as nat;
    let mut coeffs: Vec<u16> = Vec::with_capacity(NUM_COEFFICIENTS);
    let mut index: usize = 0;
    proof {
        reveal(Seq::filter);
        assert(coeffs@ =~= first_coefficients(accepted(xof_stream(stream@, 0))));
    }
    while coeffs.len() < NUM_COEFFICIENTS && index < XOF_BLOCKS
        invariant
            index <= XOF_BLOCKS,
            coeffs@ == first_coefficients(
                accepted(xof_stream(stream@, (XOF_BLOCK_LEN * index) as nat)),
            ),
        decreases XOF_BLOCKS - index,
    {
        let block = stream.read_block(index);
        proof {
            let read = xof_stream(stream@, (XOF_BLOCK_LEN * index) as nat);
            assert(xof_stream(stream@, (XOF_BLOCK_LEN * (index + 1)) as nat) =~= read + block@);
            accepted_of_concatenation(read, block@);
        }
        accept_block(&mut coeffs, &block);
        index = index + 1;
    }
    proof {
        let read = xof_stream(stream@, (XOF_BLOCK_LEN * index) as nat);
        let rest = xof_stream(stream@, all).skip(XOF_BLOCK_LEN * index);
        assert(xof_stream(stream@, all) =~= read + rest);
        accepted_of_concatenation(read, rest);
    }
    if coeffs.len() == NUM_COEFFICIENTS {
        assert(coeffs@ =~= sample_polynomial(stream@)->0);
        Some(coeffs)
    } else {
        None
    }
}

/// Samples a vector from a seed, polynomial after polynomial.
pub fn sample_ntt_vector(seed: &Rho) -> (r: Option<NttVector>)
    ensures
        vector_view(r) == sample_vector(seed@),
{
    let mut coeffs: Vec<u16> = Vec::with_capacity(VECTOR_LEN);
    let mut j: usize = 0;
    while j < K
        invariant
            j <= K,
            coeffs@.len() == 256 * j,
            forall|n: int|
                0 <= n < j ==> sample_polynomial(#[trigger] xof_input(seed@, n as u8, 0)) is Some,
            forall|c: int|
                0 <= c < 256 * j ==> #[trigger] coeffs@[c] == sample_polynomial(
                    xof_input(seed@, (c / 256) as u8, 0),
                )->0[c % 256],
            forall|c: int| 0 <= c < 256 * j ==> #[trigger] coeffs@[c] < Q,
        decreases K - j,
    {
        let stream = xof(seed, j as u8, 0);
        proof {
            accepted_are_reduced(xof_stream(stream@, (XOF_BLOCK_LEN * XOF_BLOCKS) as nat));
        }
        match sample_ntt_poly(&stream) {
            None => {
                assert(sample_polynomial(xof_input(seed@, j as u8, 0)) is None);
                return None;
            },
            Some(mut poly) => {
                coeffs.append(&mut poly);
            },
        }
        j = j + 1;
    }
    assert(coeffs@ =~= sample_vector(seed@)->0);
    NttVector::new(coeffs)
}

/// Hashes a vector to a vector.
pub fn hash_to_key(t_hat: &NttVector) -> (r: Option<NttVector>)
    ensures
        vector_view(r) == key_hash(t_hat@),
{
    let encoded = encode(t_hat);
    let seed: Rho = sha3_256(encoded.as_slice());
    sample_ntt_vector(&seed)
}

/// Whether `bytes` is made of groups of three bytes of which no value is accepted.
pub open spec fn is_rejected(bytes: Seq<u8>) -> bool {
    &&& bytes.len() % 3 == 0
    &&& forall|i: int| 0 <= i < unpack(bytes).len() ==> #[trigger] unpack(bytes)[i] >= Q
}

/// The pieces one after the other, each without what follows it.
pub open spec fn without_insertions(pieces: Seq<(Seq<u8>, Seq<u8>)>) -> Seq<u8>
    decreases pieces.len(),
{
    if pieces.len() == 0 {
        seq![]
    } else {
        without_insertions(pieces.drop_last()) + pieces.last().0
    }
}

/// The pieces one after the other, each with what follows it.
pub open spec fn with_insertions(pieces: Seq<(Seq<u8>, Seq<u8>)>) -> Seq<u8>
    decreases pieces.len(),
{
    if pieces.len() == 0 {
        seq![]
    } else {
        with_insertions(pieces.drop_last()) + pieces.last().0 + pieces.last().1
    }
}

proof fn rejected_gives_nothing(bytes: Seq<u8>)
    requires
        is_rejected(bytes),
    ensures
        accepted(bytes) == Seq::<u16>::empty(),
{
    if accepted(bytes).len() > 0 {
        let value = accepted(bytes)[0];
        accepted_are_reduced(bytes);
        unpack(bytes).lemma_filter_contains_rev(|x: u16| x < Q, value);
        assert(unpack(bytes).contains(value));
    }
}

proof fn insertions_give_nothing(pieces: Seq<(Seq<u8>, Seq<u8>)>)
    requires
        forall|n: int| 0 <= n < pieces.len() ==> (#[trigger] pieces[n]).0.len() % 3 == 0,
        forall|n: int| 0 <= n < pieces.len() ==> is_rejected((#[trigger] pieces[n]).1),
    ensures
        without_insertions(pieces).len() % 3 == 0,
        with_insertions(pieces).len() % 3 == 0,
        accepted(with_insertions(pieces)) == accepted(without_insertions(pieces)),
    decreases pieces.len(),
{
    if pieces.len() > 0 {
        let before = pieces.drop_last();
        let (piece, inserted) = pieces[pieces.len() - 1];
        insertions_give_nothing(before);
        rejected_gives_nothing(inserted);
        accepted_of_concatenation(without_insertions(before), piece);
        accepted_of_concatenation(with_insertions(before), piece);
        accepted_of_concatenation(with_insertions(before) + piece, inserted);
    }
}

/// Groups of rejected values change nothing: wherever they are inserted between the
/// groups of a stream, it gives the same polynomial. Each of `pieces` is a part of
/// the stream and what is inserted after it, and `rest` is what follows the last
/// insertion.
pub proof fn rejected_groups_change_nothing(pieces: Seq<(Seq<u8>, Seq<u8>)>, rest: Seq<u8>)
    requires
        forall|n: int| 0 <= n < pieces.len() ==> (#[trigger] pieces[n]).0.len() % 3 == 0,
        forall|n: int| 0 <= n < pieces.len() ==> is_rejected((#[trigger] pieces[n]).1),
    ensures
        polynomial_of(with_insertions(pieces) + rest) == polynomial_of(
            without_insertions(pieces) + rest,
        ),
{
    insertions_give_nothing(pieces);
    accepted_of_concatenation(with_insertions(pieces), rest);
    accepted_of_concatenation(without_insertions(pieces), rest);
}

/// Reading on changes nothing: once a stream gave a polynomial, more of the stream
/// gives the same.
pub proof fn reading_on_changes_nothing(input: Seq<u8>, len: nat)
    requires
        len >= XOF_BLOCK_LEN * XOF_BLOCKS,
        sample_polynomial(input) is Some,
    ensures
        polynomial_of(xof_stream(input, len)) == sample_polynomial(input),
{
    let read = xof_stream(input, (XOF_BLOCK_LEN * XOF_BLOCKS) as nat);
    let rest = xof_stream(input, len).skip(read.len() as int);
    assert(xof_stream(input, len) =~= read + rest);
    accepted_of_concatenation(read, rest);
    assert((accepted(read) + accepted(rest)).take(NUM_COEFFICIENTS as int) =~= accepted(
        read,
    ).take(NUM_COEFFICIENTS as int));
}

/// A sampled vector is a vector.
pub proof fn samples_are_vectors(seed: Seq<u8>)
    ensures
        sample_vector(seed) is Some ==> is_vector(sample_vector(seed)->0),
{
    if sample_vector(seed) is Some {
        assert forall|c: int| 0 <= c < VECTOR_LEN implies #[trigger] sample_vector(seed)->0[c]
            < Q by {
            let j = c / 256;
            let input = xof_input(seed, j as u8, 0);
            accepted_are_reduced(xof_stream(input, (XOF_BLOCK_LEN * XOF_BLOCKS) as nat));
            assert(sample_polynomial(input) is Some);
        }
    }
}

/// A group of three bytes, which is two numbers of 12 bits, adds to the accepted values
/// its first number and then its second, each of them if it is below 3329.
pub proof fn groups_add_what_is_reduced(bytes: Seq<u8>, b0: u8, b1: u8, b2: u8)
    requires
        bytes.len() % 3 == 0,
    ensures
        ({
            let group = b0 + 256 * b1 + 65536 * b2;
            let low = (group % 4096) as u16;
            let high = (group / 4096) as u16;
            accepted(bytes + seq![b0, b1, b2]) == accepted(bytes) + (if low < 3329 {
                seq![low]
            } else {
                seq![]
            }) + (if high < 3329 {
                seq![high]
            } else {
                seq![]
            })
        }),
{
    let group = b0 + 256 * b1 + 65536 * b2;
    let low = (group % 4096) as u16;
    let high = (group / 4096) as u16;
    assert(low == b0 + 256 * (b1 % 16));
    assert(high == b1 / 16 + 16 * b2);
    accepted_of_concatenation(bytes, seq![b0, b1, b2]);
    accepted_of_triple(b0, b1, b2, low, high);
    assert(accepted(bytes + seq![b0, b1, b2]) =~= accepted(bytes) + (if low < 3329 {
        seq![low]
    } else {
        seq![]
    }) + (if high < 3329 {
        seq![high]
    } else {
        seq![]
    }));
}

/// One or two bytes that do not fill a group add nothing to the accepted values, and
/// nothing is accepted from no bytes.
pub proof fn short_ends_add_nothing(bytes: Seq<u8>, rest: Seq<u8>)
    requires
        bytes.len() % 3 == 0,
        rest.len() < 3,
    ensures
        accepted(bytes + rest) == accepted(bytes),
        accepted(rest) == Seq::<u16>::empty(),
{
    accepted_of_concatenation(bytes, rest);
    assert(unpack(rest) =~= Seq::<u16>::empty());
    reveal(Seq::filter);
    assert(accepted(rest) =~= Seq::<u16>::empty());
    assert(accepted(bytes) + accepted(rest) =~= accepted(bytes));
}

/// The first coefficients of a list are its values, in their order, up to 256 of them.
pub proof fn first_coefficients_keep_their_order(values: Seq<u16>, i: int)
    ensures
        first_coefficients(values).len() == (if values.len() < 256 {
            values.len()
        } else {
            256
        }),
        0 <= i < 256 && i < values.len() ==> first_coefficients(values)[i] == values[i],
{
}

/// Coefficient number `i` of a polynomial is accepted value number `i` of its bytes,
/// and there is a polynomial if and only if 256 values are accepted.
pub proof fn coefficients_are_accepted_in_order(bytes: Seq<u8>, i: int)
    requires
        0 <= i < 256,
    ensures
        polynomial_of(bytes) is Some <==> accepted(bytes).len() >= 256,
        polynomial_of(bytes) is Some ==> {
            &&& polynomial_of(bytes)->0.len() == 256
            &&& polynomial_of(bytes)->0[i] == accepted(bytes)[i]
        },
{
}

/// As soon as the first bytes of the SHAKE128 output for `input` hold 256 accepted
/// values, the stream gives a polynomial, and its coefficient number `i` is accepted
/// value number `i`. That is so for as many bytes as can be held.
pub proof fn streams_give_their_accepted_values(input: Seq<u8>, bytes: Seq<u8>, i: int)
    requires
        bytes.len() + 96 <= usize::MAX / 2,
        forall|k: int|
            0 <= k < bytes.len() ==> #[trigger] bytes[k] == shake128_byte(input, k as nat),
        accepted(bytes).len() >= 256,
        0 <= i < 256,
    ensures
        sample_polynomial(input) is Some,
        sample_polynomial(input)->0.len() == 256,
        sample_polynomial(input)->0[i] == accepted(bytes)[i],
{
    let all = xof_stream(input, (XOF_BLOCK_LEN * XOF_BLOCKS) as nat);
    let groups = bytes.take(3 * (bytes.len() as int / 3));
    let end = bytes.skip(groups.len() as int);
    assert(bytes =~= groups + end);
    short_ends_add_nothing(groups, end);
    assert(groups.len() <= all.len());
    let rest = all.skip(groups.len() as int);
    assert forall|k: int| 0 <= k < groups.len() implies groups[k] == all[k] by {
        assert(bytes[k] == shake128_byte(input, k as nat));
    }
    assert(all =~= groups + rest);
    accepted_of_concatenation(groups, rest);
}

/// A stream gives a polynomial only from 256 accepted values of its output: there is
/// some number of its first bytes that holds them.
pub proof fn polynomials_need_accepted_values(input: Seq<u8>)
    ensures
        sample_polynomial(input) is Some ==> exists|len: nat|
            accepted(#[trigger] xof_stream(input, len)).len() >= 256,
{
    let len = (XOF_BLOCK_LEN * XOF_BLOCKS) as nat;
    assert(sample_polynomial(input) is Some ==> accepted(xof_stream(input, len)).len() >= 256);
}

/// A seed gives a vector if and only if each of its four streams gives a polynomial.
/// Stream number `j` absorbs the seed, the byte `j` and the byte 0, and its polynomial
/// is the coefficients from number `256 * j` on.
pub proof fn vectors_join_four_streams(seed: Seq<u8>, j: int, i: int)
    requires
        0 <= j < 4,
        0 <= i < 256,
    ensures
        sample_vector(seed) is Some <==> {
            &&& sample_polynomial(seed + seq![0u8, 0u8]) is Some
            &&& sample_polynomial(seed + seq![1u8, 0u8]) is Some
            &&& sample_polynomial(seed + seq![2u8, 0u8]) is Some
            &&& sample_polynomial(seed + seq![3u8, 0u8]) is Some
        },
        sample_vector(seed) is Some ==> {
            &&& sample_vector(seed)->0.len() == 1024
            &&& sample_vector(seed)->0[256 * j + i] == sample_polynomial(
                seed + seq![j as u8, 0u8],
            )->0[i]
        },
{
    assert(xof_input(seed, 0, 0) == seed + seq![0u8, 0u8]);
    assert(xof_input(seed, 1, 0) == seed + seq![1u8, 0u8]);
    assert(xof_input(seed, 2, 0) == seed + seq![2u8, 0u8]);
    assert(xof_input(seed, 3, 0) == seed + seq![3u8, 0u8]);
    if sample_vector(seed) is Some {
        assert forall|n: int| 0 <= n < 4 implies sample_polynomial(
            #[trigger] xof_input(seed, n as u8, 0),
        ) is Some by {}
        assert(sample_polynomial(xof_input(seed, 0int as u8, 0)) is Some);
        assert(sample_polynomial(xof_input(seed, 1int as u8, 0)) is Some);
        assert(sample_polynomial(xof_input(seed, 2int as u8, 0)) is Some);
        assert(sample_polynomial(xof_input(seed, 3int as u8, 0)) is Some);
        assert((256 * j + i) / 256 == j);
        assert((256 * j + i) % 256 == i);
        assert(xof_input(seed, j as u8, 0) == seed + seq![j as u8, 0u8]);
    } else if sample_polynomial(seed + seq![0u8, 0u8]) is Some && sample_polynomial(
        seed + seq![1u8, 0u8],
    ) is Some && sample_polynomial(seed + seq![2u8, 0u8]) is Some && sample_polynomial(
        seed + seq![3u8, 0u8],
    ) is Some {
        assert forall|n: int| 0 <= n < 4 implies sample_polynomial(
            #[trigger] xof_input(seed, n as u8, 0),
        ) is Some by {
            assert(n == 0 || n == 1 || n == 2 || n == 3);
        }
    }
}

/// A vector is hashed to what the SHA3-256 digest of all of its packed bytes gives as a
/// seed: `bytes` are the first bytes of the SHAKE128 output for the digest, the byte `j`
/// and the byte 0, and the hash has their accepted values as its coefficients from
/// number `256 * j` on.
pub proof fn hashes_are_sampled_from_digests(t_hat: Seq<u16>, j: int, bytes: Seq<u8>, i: int)
    requires
        is_vector(t_hat),
        0 <= j < 4,
        bytes.len() + 96 <= usize::MAX / 2,
        forall|k: int|
            0 <= k < bytes.len() ==> #[trigger] bytes[k] == shake128_byte(
                sha3_256_digest(pack(t_hat)) + seq![j as u8, 0u8],
                k as nat,
            ),
        accepted(bytes).len() >= 256,
        0 <= i < 256,
    ensures
        key_hash(t_hat) == sample_vector(sha3_256_digest(pack(t_hat))),
        key_hash(t_hat) is Some ==> key_hash(t_hat)->0[256 * j + i] == accepted(bytes)[i],
{
    let seed = sha3_256_digest(pack(t_hat));
    vectors_join_four_streams(seed, j, i);
    streams_give_their_accepted_values(seed + seq![j as u8, 0u8], bytes, i);
}

/// Every vector is hashed to the sample of its own digest, so that two vectors have the
/// same hash if they have the same digest, and are sampled from different seeds if not.
pub proof fn hashes_depend_on_digests(a: Seq<u16>, b: Seq<u16>)
    requires
        is_vector(a),
        is_vector(b),
    ensures
        key_hash(a) == sample_vector(sha3_256_digest(pack(a))),
        key_hash(b) == sample_vector(sha3_256_digest(pack(b))),
        sha3_256_digest(pack(a)) == sha3_256_digest(pack(b)) ==> key_hash(a) == key_hash(b),
{
}

} // verus!
