//! The byte form of vectors and of encapsulation keys.
//!
//! A coefficient takes 12 bits, least significant bits first, so that two
//! coefficients fill three bytes.

use crate::params::{Q, Rho, ENCAPSULATION_KEY_LEN, RHO_LEN, T_HAT_BYTES_LEN, VECTOR_LEN};
use crate::vector::{is_vector, NttVector};
use vstd::prelude::*;

verus! {

/// The 12-bit integers that `bytes` packs; one or two bytes left over at the end
/// count for nothing.
pub open spec fn unpack(bytes: Seq<u8>) -> Seq<u16> {
    Seq::new(
        2 * (bytes.len() / 3),
        |i: int|
            {
                let at = 3 * (i / 2);
                if i % 2 == 0 {
                    (bytes[at] + 256 * (bytes[at + 1] % 16)) as u16
                } else {
                    (bytes[at + 1] / 16 + 16 * bytes[at + 2]) as u16
                }
            },
    )
}

/// The bytes that pack `values`, two of them in every three bytes.
pub open spec fn pack(values: Seq<u16>) -> Seq<u8> {
    Seq::new(
        3 * (values.len() / 2),
        |i: int|
            {
                let low = values[2 * (i / 3)];
                let high = values[2 * (i / 3) + 1];
                if i % 3 == 0 {
                    (low % 256) as u8
                } else if i % 3 == 1 {
                    (low / 256 + 16 * (high % 16)) as u8
                } else {
                    (high / 16) as u8
                }
            },
    )
}

/// The vector that `bytes` packs: its 12-bit integers, reduced.
pub open spec fn decode(bytes: Seq<u8>) -> Seq<u16> {
    unpack(bytes).map_values(|x: u16| x % Q)
}

/// The vector part of an encapsulation key.
pub open spec fn key_vector(key: Seq<u8>) -> Seq<u16> {
    decode(key.take(T_HAT_BYTES_LEN as int))
}

/// The `rho` part of an encapsulation key.
pub open spec fn key_rho(key: Seq<u8>) -> Seq<u8> {
    key.skip(T_HAT_BYTES_LEN as int)
}

/// The encapsulation key with the given parts.
pub open spec fn key_bytes(t_hat: Seq<u16>, rho: Seq<u8>) -> Seq<u8> {
    pack(t_hat) + rho
}

/// Whether every 12-bit integer of the vector part of `key` is reduced.
pub open spec fn is_canonical_key(key: Seq<u8>) -> bool {
    &&& key.len() == ENCAPSULATION_KEY_LEN
    &&& is_vector(unpack(key.take(T_HAT_BYTES_LEN as int)))
}

/// The two 12-bit integers that three bytes pack.
pub fn unpack_pair(b0: u8, b1: u8, b2: u8) -> (r: (u16, u16))
    ensures
        r.0 == b0 + 256 * (b1 % 16),
        r.1 == b1 / 16 + 16 * b2,
        r.0 < 4096,
        r.1 < 4096,
{
    assert((b0 as u16) | (((b1 as u16) & 0x0f) << 8) == b0 + 256 * (b1 % 16)) by (bit_vector);
    assert(((b1 as u16) >> 4) | ((b2 as u16) << 4) == b1 / 16 + 16 * b2) by (bit_vector);
    let d1: u16 = (b0 as u16) | (((b1 as u16) & 0x0f) << 8);
    let d2: u16 = ((b1 as u16) >> 4) | ((b2 as u16) << 4);
    (d1, d2)
}

/// The three bytes that pack two 12-bit integers.
fn pack_pair(low: u16, high: u16) -> (r: (u8, u8, u8))
    requires
        low < 4096,
        high < 4096,
    ensures
        r.0 == low % 256,
        r.1 == low / 256 + 16 * (high % 16),
        r.2 == high / 16,
{
    let b0: u8 = (low % 256) as u8;
    let b1: u8 = (low / 256 + 16 * (high % 16)) as u8;
    let b2: u8 = (high / 16) as u8;
    (b0, b1, b2)
}

/// Packs a vector.
pub fn encode(t_hat: &NttVector) -> (r: Vec<u8>)
    ensures
        r@ == pack(t_hat@),
        r@.len() == T_HAT_BYTES_LEN,
{
    let coeffs = t_hat.coeffs();
    let mut out: Vec<u8> = Vec::with_capacity(T_HAT_BYTES_LEN);
    let mut p: usize = 0;
    while p < VECTOR_LEN / 2
        invariant
            is_vector(coeffs@),
            p <= VECTOR_LEN / 2,
            out@ == pack(coeffs@).take(3 * p),
        decreases VECTOR_LEN / 2 - p,
    {
        let (b0, b1, b2) = pack_pair(coeffs[2 * p], coeffs[2 * p + 1]);
        out.push(b0);
        out.push(b1);
        out.push(b2);
        p = p + 1;
        assert(out@ =~= pack(coeffs@).take(3 * p));
    }
    assert(out@ =~= pack(coeffs@));
    out
}

/// Splits an encapsulation key into its vector and `rho`. Coefficients that are
/// not reduced are reduced.
pub fn parse_ek(bytes: &[u8; ENCAPSULATION_KEY_LEN]) -> (r: (NttVector, Rho))
    ensures
        r.0@ == key_vector(bytes@),
        r.1@ == key_rho(bytes@),
{
    let ghost packed = bytes@.take(T_HAT_BYTES_LEN as int);
    let mut coeffs: Vec<u16> = Vec::with_capacity(VECTOR_LEN);
    let mut p: usize = 0;
    while p < VECTOR_LEN / 2
        invariant
            packed == bytes@.take(T_HAT_BYTES_LEN as int),
            p <= VECTOR_LEN / 2,
            coeffs@ == decode(packed).take(2 * p),
        decreases VECTOR_LEN / 2 - p,
    {
        let (d1, d2) = unpack_pair(bytes[3 * p], bytes[3 * p + 1], bytes[3 * p + 2]);
        coeffs.push(d1 % Q);
        coeffs.push(d2 % Q);
        p = p + 1;
        assert(coeffs@ =~= decode(packed).take(2 * p));
    }
    assert(coeffs@ =~= decode(packed));
    let mut rho: Rho = [0u8; 32];
    let mut i: usize = 0;
    while i < RHO_LEN
        invariant
            i <= RHO_LEN,
            forall|k: int| 0 <= k < i ==> rho@[k] == bytes@[T_HAT_BYTES_LEN + k],
        decreases RHO_LEN - i,
    {
        rho[i] = bytes[T_HAT_BYTES_LEN + i];
        i = i + 1;
    }
    assert(rho@ =~= key_rho(bytes@));
    let t_hat = NttVector::new(coeffs);
    (t_hat.unwrap(), rho)
}

/// Joins a vector and `rho` to an encapsulation key.
pub fn serialize_ek(t_hat: &NttVector, rho: &Rho) -> (r: [u8; ENCAPSULATION_KEY_LEN])
    ensures
        r@ == key_bytes(t_hat@, rho@),
{
    let encoded = encode(t_hat);
    let mut out: [u8; ENCAPSULATION_KEY_LEN] = [0u8; 1568];
    let mut i: usize = 0;
    while i < T_HAT_BYTES_LEN
        invariant
            encoded@.len() == T_HAT_BYTES_LEN,
            i <= T_HAT_BYTES_LEN,
            forall|k: int| 0 <= k < i ==> out@[k] == encoded@[k],
        decreases T_HAT_BYTES_LEN - i,
    {
        out[i] = encoded[i];
        i = i + 1;
    }
    let mut j: usize = 0;
    while j < RHO_LEN
        invariant
            encoded@.len() == T_HAT_BYTES_LEN,
            j <= RHO_LEN,
            forall|k: int| 0 <= k < T_HAT_BYTES_LEN ==> out@[k] == encoded@[k],
            forall|k: int| 0 <= k < j ==> out@[T_HAT_BYTES_LEN + k] == rho@[k],
        decreases RHO_LEN - j,
    {
        out[T_HAT_BYTES_LEN + j] = rho[j];
        j = j + 1;
    }
    assert forall|k: int| 0 <= k < ENCAPSULATION_KEY_LEN implies out@[k] == key_bytes(
        t_hat@,
        rho@,
    )[k] by {
        if k >= T_HAT_BYTES_LEN {
            assert(out@[T_HAT_BYTES_LEN + (k - T_HAT_BYTES_LEN)] == rho@[k - T_HAT_BYTES_LEN]);
        }
    }
    assert(out@ =~= key_bytes(t_hat@, rho@));
    out
}

/// Unpacking gives back the 12-bit integers that were packed.
proof fn unpack_after_pack(values: Seq<u16>)
    requires
        values.len() % 2 == 0,
        forall|i: int| 0 <= i < values.len() ==> #[trigger] values[i] < 4096,
    ensures
        unpack(pack(values)) == values,
{
    let packed = pack(values);
    assert forall|i: int| 0 <= i < values.len() implies unpack(packed)[i] == values[i] by {
        let low = values[2 * (i / 2)];
        let high = values[2 * (i / 2) + 1];
        let at = 3 * (i / 2);
        assert(packed[at] == low % 256);
        assert(packed[at + 1] == low / 256 + 16 * (high % 16));
        assert(packed[at + 2] == high / 16);
    }
    assert(unpack(packed) =~= values);
}

/// Packing gives back the bytes that were unpacked.
proof fn pack_after_unpack(bytes: Seq<u8>)
    requires
        bytes.len() % 3 == 0,
    ensures
        pack(unpack(bytes)) == bytes,
{
    let values = unpack(bytes);
    assert forall|i: int| 0 <= i < bytes.len() implies pack(values)[i] == bytes[i] by {
        let at = 3 * (i / 3);
        assert(values[2 * (i / 3)] == bytes[at] + 256 * (bytes[at + 1] % 16));
        assert(values[2 * (i / 3) + 1] == bytes[at + 1] / 16 + 16 * bytes[at + 2]);
    }
    assert(pack(values) =~= bytes);
}

/// Decoding leaves reduced integers as they are.
proof fn decode_of_reduced(bytes: Seq<u8>)
    requires
        is_vector(unpack(bytes)),
    ensures
        decode(bytes) == unpack(bytes),
{
    assert(decode(bytes) =~= unpack(bytes));
}

/// An encapsulation key that is joined from a vector and `rho` splits into them
/// again, and is canonical.
pub proof fn parse_after_serialize(t_hat: Seq<u16>, rho: Seq<u8>)
    requires
        is_vector(t_hat),
        rho.len() == RHO_LEN,
    ensures
        key_vector(key_bytes(t_hat, rho)) == t_hat,
        key_rho(key_bytes(t_hat, rho)) == rho,
        is_canonical_key(key_bytes(t_hat, rho)),
{
    let key = key_bytes(t_hat, rho);
    unpack_after_pack(t_hat);
    assert(key.take(T_HAT_BYTES_LEN as int) =~= pack(t_hat));
    assert(key.skip(T_HAT_BYTES_LEN as int) =~= rho);
    decode_of_reduced(pack(t_hat));
}

/// Splitting an encapsulation key and joining its parts gives the key back if and
/// only if the key is canonical.
pub proof fn serialize_after_parse(key: Seq<u8>)
    requires
        key.len() == ENCAPSULATION_KEY_LEN,
    ensures
        is_vector(key_vector(key)),
        key_rho(key).len() == RHO_LEN,
        key_bytes(key_vector(key), key_rho(key)) == key <==> is_canonical_key(key),
{
    let packed = key.take(T_HAT_BYTES_LEN as int);
    assert(key =~= packed + key_rho(key));
    if is_canonical_key(key) {
        decode_of_reduced(packed);
        pack_after_unpack(packed);
    } else if key_bytes(key_vector(key), key_rho(key)) == key {
        parse_after_serialize(key_vector(key), key_rho(key));
    }
}

/// Three bytes, taken as a number of 24 bits with the least significant byte first,
/// are two numbers of 12 bits with the least significant number first.
pub proof fn groups_hold_two_numbers(bytes: Seq<u8>, k: int)
    requires
        0 <= k,
        3 * k + 3 <= bytes.len(),
    ensures
        unpack(bytes).len() == 2 * (bytes.len() / 3),
        unpack(bytes)[2 * k] < 4096,
        unpack(bytes)[2 * k + 1] < 4096,
        unpack(bytes)[2 * k] + 4096 * unpack(bytes)[2 * k + 1] == bytes[3 * k] + 256
            * bytes[3 * k + 1] + 65536 * bytes[3 * k + 2],
{
    let (b0, b1, b2) = (bytes[3 * k], bytes[3 * k + 1], bytes[3 * k + 2]);
    assert(unpack(bytes)[2 * k] == b0 + 256 * (b1 % 16));
    assert(unpack(bytes)[2 * k + 1] == b1 / 16 + 16 * b2);
}

/// Two numbers of 12 bits are packed into the three bytes that are the same number of
/// 24 bits.
pub proof fn numbers_fill_groups(values: Seq<u16>, k: int)
    requires
        0 <= k,
        2 * k + 2 <= values.len(),
        values[2 * k] < 4096,
        values[2 * k + 1] < 4096,
    ensures
        pack(values).len() == 3 * (values.len() / 2),
        ({
            let packed = pack(values);
            packed[3 * k] + 256 * packed[3 * k + 1] + 65536 * packed[3 * k + 2] == values[2 * k]
                + 4096 * values[2 * k + 1]
        }),
{
    let (low, high) = (values[2 * k], values[2 * k + 1]);
    let packed = pack(values);
    assert(packed[3 * k] == low % 256);
    assert(packed[3 * k + 1] == low / 256 + 16 * (high % 16));
    assert(packed[3 * k + 2] == high / 16);
}

/// Different vectors are packed into different bytes.
pub proof fn packings_differ(a: Seq<u16>, b: Seq<u16>)
    requires
        is_vector(a),
        is_vector(b),
        a != b,
    ensures
        pack(a) != pack(b),
{
    unpack_after_pack(a);
    unpack_after_pack(b);
}

/// The vector of a key comes from its first 1536 bytes: coefficients number `2 * k`
/// and `2 * k + 1` are the residues modulo 3329 of the two numbers in group number
/// `k`. Its `rho` is the 32 bytes after them, of which `n` is one.
pub proof fn keys_split_into_groups_and_rho(key: Seq<u8>, k: int, n: int)
    requires
        key.len() == 1568,
        0 <= k < 512,
        0 <= n < 32,
    ensures
        key_vector(key).len() == 1024,
        key_vector(key)[2 * k] < 3329,
        key_vector(key)[2 * k + 1] < 3329,
        ({
            let group = key[3 * k] + 256 * key[3 * k + 1] + 65536 * key[3 * k + 2];
            &&& (key_vector(key)[2 * k] - group % 4096) % 3329 == 0
            &&& (key_vector(key)[2 * k + 1] - group / 4096) % 3329 == 0
        }),
        key_rho(key).len() == 32,
        key_rho(key)[n] == key[1536 + n],
{
    let packed = key.take(T_HAT_BYTES_LEN as int);
    groups_hold_two_numbers(packed, k);
    let low = unpack(packed)[2 * k];
    let high = unpack(packed)[2 * k + 1];
    assert(key_vector(key)[2 * k] == low % Q);
    assert(key_vector(key)[2 * k + 1] == high % Q);
}

/// A key that is joined from a vector and `rho` holds two coefficients in each of its
/// first 512 groups of three bytes, and `rho` after them.
pub proof fn keys_hold_their_parts(t_hat: Seq<u16>, rho: Seq<u8>, k: int, n: int)
    requires
        is_vector(t_hat),
        rho.len() == 32,
        0 <= k < 512,
        0 <= n < 32,
    ensures
        key_bytes(t_hat, rho).len() == 1568,
        ({
            let key = key_bytes(t_hat, rho);
            key[3 * k] + 256 * key[3 * k + 1] + 65536 * key[3 * k + 2] == t_hat[2 * k]
                + 4096 * t_hat[2 * k + 1]
        }),
        key_bytes(t_hat, rho)[1536 + n] == rho[n],
{
    numbers_fill_groups(t_hat, k);
}

/// A key is canonical if its length is that of a key and all of the 1024 numbers that
/// it holds are below 3329.
pub proof fn canonical_keys_hold_residues(key: Seq<u8>)
    ensures
        is_canonical_key(key) <==> key.len() == 1568 && forall|c: int|
            0 <= c < 1024 ==> #[trigger] unpack(key)[c] < 3329,
{
    let packed = key.take(T_HAT_BYTES_LEN as int);
    if key.len() == 1568 {
        assert forall|c: int| 0 <= c < 1024 implies #[trigger] unpack(key)[c] == unpack(
            packed,
        )[c] by {}
        if is_canonical_key(key) {
            assert forall|c: int| 0 <= c < 1024 implies #[trigger] unpack(key)[c] < 3329 by {
                assert(unpack(packed)[c] < Q);
            }
        } else if forall|c: int| 0 <= c < 1024 ==> #[trigger] unpack(key)[c] < 3329 {
            assert forall|c: int| 0 <= c < 1024 implies #[trigger] unpack(packed)[c] < Q by {
                assert(unpack(key)[c] < 3329);
            }
        }
    }
}

} // verus!
