//! The extendable output function SHAKE128.

use crate::params::{Rho, RHO_LEN};
use sha3::digest::{ExtendableOutput, Update, XofReader};
use vstd::prelude::*;

verus! {

/// Length of a block of the output stream: 32 groups of three bytes.
pub const XOF_BLOCK_LEN: usize = 96;

/// Number of blocks that are read from an output stream at most: as many as a
/// byte vector can hold.
pub const XOF_BLOCKS: usize = usize::MAX / 192;

/// The byte at position `index` of the SHAKE128 output stream for `input`.
pub uninterp spec fn shake128_byte(input: Seq<u8>, index: nat) -> u8;

/// The first `len` bytes of the SHAKE128 output stream for `input`.
pub open spec fn xof_stream(input: Seq<u8>, len: nat) -> Seq<u8> {
    Seq::new(len, |k: int| shake128_byte(input, k as nat))
}

/// What `xof` absorbs: the seed, then `j` as byte 32, then `i` as byte 33.
pub open spec fn xof_input(seed: Seq<u8>, j: u8, i: u8) -> Seq<u8> {
    seed + seq![j, i]
}

/// `Shake128` of the `sha3` crate: absorbs `input`, then reads `len` bytes from
/// the reader that `finalize_xof` gives. The claim is that the byte at a position
/// of the output depends on the input and on the position alone, and not on how
/// many bytes are read after it.
#[verifier::external_body]
fn shake128(input: &[u8], len: usize) -> (r: Vec<u8>)
    requires
        len <= isize::MAX,
    ensures
        r@.len() == len,
        forall|k: int| 0 <= k < len ==> #[trigger] r@[k] == shake128_byte(input@, k as nat),
{
    let mut hasher = sha3::Shake128::default();
    hasher.update(input);
    let mut out = vec![0u8; len];
    hasher.finalize_xof().read(&mut out);
    out
}

/// An output stream, of which any block can be read.
#[derive(Debug)]
pub struct Xof {
    input: [u8; 34],
}

impl View for Xof {
    type V = Seq<u8>;

    /// What the stream has absorbed.
    closed spec fn view(&self) -> Seq<u8> {
        self.input@
    }
}

/// XOF(rho, j, i) of ML-KEM: `j` is the column index and `i` the row index.
pub fn xof(seed: &Rho, j: u8, i: u8) -> (r: Xof)
    ensures
        r@ == xof_input(seed@, j, i),
{
    let mut input: [u8; 34] = [0u8; 34];
    let mut k: usize = 0;
    while k < RHO_LEN
        invariant
            k <= RHO_LEN,
            forall|n: int| 0 <= n < k ==> input@[n] == seed@[n],
        decreases RHO_LEN - k,
    {
        input[k] = seed[k];
        k = k + 1;
    }
    input[32] = j;
    input[33] = i;
    assert(input@ =~= xof_input(seed@, j, i));
    Xof { input }
}

impl Xof {
    /// Reads block number `index` of the stream.
    pub fn read_block(&self, index: usize) -> (r: [u8; XOF_BLOCK_LEN])
        requires
            index < XOF_BLOCKS,
        ensures
            r@ == xof_stream(self@, (XOF_BLOCK_LEN * (index + 1)) as nat).skip(
                XOF_BLOCK_LEN * index,
            ),
            forall|k: int|
                0 <= k < 96 ==> #[trigger] r@[k] == shake128_byte(self@, (96 * index + k) as nat),
    {
        let start: usize = XOF_BLOCK_LEN * index;
        let bytes = shake128(self.input.as_slice(), start + XOF_BLOCK_LEN);
        let mut block: [u8; XOF_BLOCK_LEN] = [0u8; 96];
        let mut k: usize = 0;
        while k < XOF_BLOCK_LEN
            invariant
                bytes@.len() == start + XOF_BLOCK_LEN,
                start + XOF_BLOCK_LEN <= usize::MAX,
                k <= XOF_BLOCK_LEN,
                forall|n: int| 0 <= n < k ==> block@[n] == bytes@[start + n],
            decreases XOF_BLOCK_LEN - k,
        {
            block[k] = bytes[start + k];
            k = k + 1;
        }
        assert(block@ =~= xof_stream(self@, (XOF_BLOCK_LEN * (index + 1)) as nat).skip(
            XOF_BLOCK_LEN * index,
        ));
        block
    }
}

/// Streams for different seeds or different indices absorb different inputs.
pub proof fn xof_inputs_differ(seed1: Seq<u8>, j1: u8, i1: u8, seed2: Seq<u8>, j2: u8, i2: u8)
    requires
        seed1.len() == RHO_LEN,
        seed2.len() == RHO_LEN,
        xof_input(seed1, j1, i1) == xof_input(seed2, j2, i2),
    ensures
        seed1 == seed2,
        j1 == j2,
        i1 == i2,
{
    let a = xof_input(seed1, j1, i1);
    let b = xof_input(seed2, j2, i2);
    assert(a.take(RHO_LEN as int) =~= seed1);
    assert(b.take(RHO_LEN as int) =~= seed2);
    assert(a[32] == j1 && a[33] == i1);
    assert(b[32] == j2 && b[33] == i2);
}

/// A stream absorbs 34 bytes: the seed, the column, and the row. `n` is a position in
/// the seed.
pub proof fn streams_absorb_seed_column_and_row(seed: Seq<u8>, j: u8, i: u8, n: int)
    requires
        seed.len() == 32,
        0 <= n < 32,
    ensures
        xof_input(seed, j, i).len() == 34,
        xof_input(seed, j, i)[n] == seed[n],
        xof_input(seed, j, i)[32] == j,
        xof_input(seed, j, i)[33] == i,
{
}

/// The bytes of a stream come one after the other, however many are read.
pub proof fn streams_give_byte_after_byte(input: Seq<u8>, len: nat, k: int)
    requires
        0 <= k < len,
    ensures
        xof_stream(input, len).len() == len,
        xof_stream(input, len)[k] == shake128_byte(input, k as nat),
{
}

} // verus!
