//! The cipher built on the ChaCha permutation: a 16 x 32-bit state holding
//! constants, the key, a 64-bit block counter and an 8-byte context identifier,
//! and 64-byte keystream blocks.
use crate::keystream::{
    apply_stream, fill_stream, keystream, range_fits, xor_bytes, KeystreamBlocks, OverflowError,
};
use crate::lanes::{bytes_of_u32s, le_u32, load_u32, rotate_left_u32, rotl32, store_u32s};
use vstd::prelude::*;

verus! {

/// Number of keystream bytes per block.
pub const RATE: usize = 64;

/// Number of double rounds (a column round, then a diagonal round) per block.
pub const DOUBLE_ROUNDS: usize = 10;

/// Addition modulo 2^32.
pub open spec fn add32(x: u32, y: u32) -> u32 {
    ((x + y) % 0x1_0000_0000) as u32
}

/// The ChaCha quarter round on lanes `a`, `b`, `c` and `d`.
pub open spec fn quarter_round(x: Seq<u32>, a: int, b: int, c: int, d: int) -> Seq<u32> {
    let a1 = add32(x[a], x[b]);
    let d1 = rotl32(x[d] ^ a1, 16);
    let c1 = add32(x[c], d1);
    let b1 = rotl32(x[b] ^ c1, 12);
    let a2 = add32(a1, b1);
    let d2 = rotl32(d1 ^ a2, 8);
    let c2 = add32(c1, d2);
    let b2 = rotl32(b1 ^ c2, 7);
    x.update(a, a2).update(b, b2).update(c, c2).update(d, d2)
}

/// A column round followed by a diagonal round.
pub open spec fn double_round(x: Seq<u32>) -> Seq<u32> {
    let x = quarter_round(x, 0, 4, 8, 12);
    let x = quarter_round(x, 1, 5, 9, 13);
    let x = quarter_round(x, 2, 6, 10, 14);
    let x = quarter_round(x, 3, 7, 11, 15);
    let x = quarter_round(x, 0, 5, 10, 15);
    let x = quarter_round(x, 1, 6, 11, 12);
    let x = quarter_round(x, 2, 7, 8, 13);
    quarter_round(x, 3, 4, 9, 14)
}

/// `n` double rounds.
pub open spec fn double_rounds(x: Seq<u32>, n: nat) -> Seq<u32>
    decreases n,
{
    if n == 0 {
        x
    } else {
        double_round(double_rounds(x, (n - 1) as nat))
    }
}

/// The ChaCha permutation with feed-forward: 20 rounds, then the input added
/// lane by lane to their result.
pub open spec fn chacha_permutation(x: Seq<u32>) -> Seq<u32> {
    let y = double_rounds(x, DOUBLE_ROUNDS as nat);
    Seq::new(16, |i: int| add32(y[i], x[i]))
}

/// Block `index` of the keystream of state `x`: the low and high halves of the
/// index go into lanes 12 and 13, the permutation runs, and its sixteen lanes
/// are written out little-endian.
pub open spec fn chacha_block(x: Seq<u32>, index: u64) -> Seq<u8> {
    let m = x.update(12, (index % 0x1_0000_0000) as u32).update(
        13,
        (index / 0x1_0000_0000) as u32,
    );
    bytes_of_u32s(chacha_permutation(m))
}

/// The state of a cipher made from `key` and the context identifier `id`: the
/// four constants, the key as eight little-endian lanes, a zero counter, and
/// the identifier as two little-endian lanes.
pub open spec fn setup(key: Seq<u8>, id: Seq<u8>) -> Seq<u32> {
    seq![
        0x61707865u32,
        0x3320646e,
        0x79622d32,
        0x6b206574,
        le_u32(key, 0),
        le_u32(key, 4),
        le_u32(key, 8),
        le_u32(key, 12),
        le_u32(key, 16),
        le_u32(key, 20),
        le_u32(key, 24),
        le_u32(key, 28),
        0,
        0,
        le_u32(id, 0),
        le_u32(id, 4),
    ]
}

fn add_u32(x: u32, y: u32) -> (r: u32)
    ensures
        r == add32(x, y),
{
    x.wrapping_add(y)
}

/// A ChaCha-based seekable stream cipher: the permutation state made from a key
/// and a context identifier, with the counter lanes left at zero. It is never
/// changed after construction.
#[derive(Clone, Copy)]
pub struct StreamCipher {
    st: [u32; 16],
}

impl StreamCipher {
    /// The key length in bytes.
    pub const KEY_LENGTH: usize = 32;

    /// The state, lane by lane.
    pub closed spec fn state(&self) -> Seq<u32> {
        self.st@
    }

    /// Creates a cipher from a 32-byte secret key and an 8-byte public context identifier.
    ///
    /// The key must be drawn at random. The identifier separates domains: the
    /// same key with two different identifiers gives unrelated keystreams.
    pub fn new(key: &[u8; 32], id: &[u8; 8]) -> (r: Self)
        ensures
            r.state() == setup(key@, id@),
    {
        let k = key.as_slice();
        let c = id.as_slice();
        let st = [
            0x61707865u32,
            0x3320646e,
            0x79622d32,
            0x6b206574,
            load_u32(k, 0),
            load_u32(k, 4),
            load_u32(k, 8),
            load_u32(k, 12),
            load_u32(k, 16),
            load_u32(k, 20),
            load_u32(k, 24),
            load_u32(k, 28),
            0,
            0,
            load_u32(c, 0),
            load_u32(c, 4),
        ];
        assert(st@ =~= setup(key@, id@));
        StreamCipher { st }
    }

    /// Fills `out` with the keystream bytes that start at byte offset `start_offset`.
    ///
    /// The same key, identifier and offset always give the same bytes. Fails,
    /// and leaves `out` untouched, when the range would end past `u64::MAX`.
    pub fn fill(&self, out: &mut [u8], start_offset: u64) -> (r: Result<(), OverflowError>)
        ensures
            final(out)@.len() == old(out)@.len(),
            r is Ok <==> range_fits(start_offset, old(out)@.len()),
            r is Ok ==> final(out)@ == keystream(*self, start_offset as int, old(out)@.len()),
            r is Err ==> final(out)@ == old(out)@,
    {
        fill_stream(self, out, start_offset)
    }

    /// Encrypts or decrypts `out` in place: XORs into it the keystream bytes that
    /// start at byte offset `start_offset`.
    ///
    /// This equals a `fill` at the same offset followed by a XOR. There is no
    /// integrity: a flipped ciphertext bit flips the same plaintext bit. Fails,
    /// and leaves `out` untouched, when the range would end past `u64::MAX`.
    pub fn apply_keystream(&self, out: &mut [u8], start_offset: u64) -> (r: Result<
        (),
        OverflowError,
    >)
        ensures
            final(out)@.len() == old(out)@.len(),
            r is Ok <==> range_fits(start_offset, old(out)@.len()),
            r is Ok ==> final(out)@ == xor_bytes(
                old(out)@,
                keystream(*self, start_offset as int, old(out)@.len()),
            ),
            r is Err ==> final(out)@ == old(out)@,
    {
        apply_stream(self, out, start_offset)
    }

    fn quarter_round(x: &mut [u32; 16], a: usize, b: usize, c: usize, d: usize)
        requires
            a < 16,
            b < 16,
            c < 16,
            d < 16,
            a != b && a != c && a != d && b != c && b != d && c != d,
        ensures
            final(x)@ == quarter_round(old(x)@, a as int, b as int, c as int, d as int),
    {
        let ghost s = x@;
        x[a] = add_u32(x[a], x[b]);
        x[d] = rotate_left_u32(x[d] ^ x[a], 16);
        x[c] = add_u32(x[c], x[d]);
        x[b] = rotate_left_u32(x[b] ^ x[c], 12);
        x[a] = add_u32(x[a], x[b]);
        x[d] = rotate_left_u32(x[d] ^ x[a], 8);
        x[c] = add_u32(x[c], x[d]);
        x[b] = rotate_left_u32(x[b] ^ x[c], 7);
        assert(x@ =~= quarter_round(s, a as int, b as int, c as int, d as int));
    }

    /// Applies the permutation, feed-forward included, to the state.
    fn permute(&mut self)
        ensures
            final(self).st@ == chacha_permutation(old(self).st@),
    {
        let mask = self.st;
        let x = &mut self.st;
        let mut n: usize = 0;
        while n < DOUBLE_ROUNDS
            invariant
                n <= DOUBLE_ROUNDS,
                x@ == double_rounds(mask@, n as nat),
            decreases DOUBLE_ROUNDS - n,
        {
            Self::quarter_round(x, 0, 4, 8, 12);
            Self::quarter_round(x, 1, 5, 9, 13);
            Self::quarter_round(x, 2, 6, 10, 14);
            Self::quarter_round(x, 3, 7, 11, 15);
            Self::quarter_round(x, 0, 5, 10, 15);
            Self::quarter_round(x, 1, 6, 11, 12);
            Self::quarter_round(x, 2, 7, 8, 13);
            Self::quarter_round(x, 3, 4, 9, 14);
            n += 1;
        }
        let ghost y = x@;
        let mut i: usize = 0;
        while i < 16
            invariant
                i <= 16,
                y == double_rounds(mask@, DOUBLE_ROUNDS as nat),
                forall|j: int| 0 <= j < i ==> x@[j] == add32(y[j], mask@[j]),
                forall|j: int| i <= j < 16 ==> x@[j] == y[j],
            decreases 16 - i,
        {
            x[i] = add_u32(x[i], mask[i]);
            i += 1;
        }
        assert(x@ =~= chacha_permutation(mask@));
    }
}

impl KeystreamBlocks for StreamCipher {
    open spec fn spec_rate() -> nat {
        RATE as nat
    }

    open spec fn spec_block(&self, index: u64) -> Seq<u8> {
        chacha_block(self.state(), index)
    }

    fn rate() -> (r: usize) {
        RATE
    }

    fn write_block(&self, index: u64, out: &mut [u8], at: usize) {
        let mut s = *self;
        s.st[12] = index as u32;
        s.st[13] = (index >> 32u64) as u32;
        proof {
            assert(index as u32 == index % 0x1_0000_0000) by (bit_vector);
            assert((index >> 32u64) as u32 == index / 0x1_0000_0000) by (bit_vector);
            assert(s.st@ =~= self.st@.update(12, (index % 0x1_0000_0000) as u32).update(
                13,
                (index / 0x1_0000_0000) as u32,
            ));
        }
        s.permute();
        let lanes = s.st.as_slice();
        store_u32s(out, at, lanes);
        assert forall|j: int| 0 <= j < RATE implies out@[at + j] == #[trigger] self.spec_block(
            index,
        )[j] by {
            assert(out@[at + j] == bytes_of_u32s(lanes@)[j]);
        }
    }
}

} // verus!
