//! The cipher built on the Keccak-p[1600] permutation, reduced to 12 rounds: a
//! 25 x 64-bit state, 168-byte context chunks and 160-byte keystream blocks.
//!
//! Absorption and output use different lane ranges: a context chunk covers
//! lanes 4 to 24, while a block index goes into lane 4 and a block is read
//! from lanes 5 to 24.
use crate::keystream::{
    apply_stream, fill_stream, keystream, range_fits, xor_bytes, KeystreamBlocks, OverflowError,
};
use crate::lanes::{bytes_of_u64s, le_u64, load_u64, store_u64s};
use vstd::prelude::*;

verus! {

/// Initial value of lane 0, before the key is absorbed.
pub const IV: u64 = 0x20a08c0000000000;

/// Number of Keccak rounds per permutation call.
pub const ROUNDS: usize = 12;

/// Number of context bytes absorbed per permutation call.
pub const CHUNK: usize = 168;

/// Number of keystream bytes per block.
pub const RATE: usize = 160;

/// The state that `keccak::p1600` leaves when it applies Keccak-p[1600] with
/// `rounds` rounds to `state`.
pub uninterp spec fn keccak_p1600(state: Seq<u64>, rounds: nat) -> Seq<u64>;

/// Relies on `keccak::p1600`: applies the last `rounds` rounds of Keccak-f[1600]
/// to the state in place. The result depends on the state and the round count
/// alone; the function panics for more than 24 rounds.
#[verifier::external_body]
fn p1600(state: &mut [u64; 25], rounds: usize)
    requires
        rounds <= 24,
    ensures
        final(state)@ == keccak_p1600(old(state)@, rounds as nat),
{
    ::keccak::p1600(state, rounds)
}

/// The permutation this cipher uses.
pub open spec fn permutation(x: Seq<u64>) -> Seq<u64> {
    keccak_p1600(x, ROUNDS as nat)
}

/// The key XORed, as four little-endian lanes, into lanes 1 to 4.
pub open spec fn xor_key(x: Seq<u64>, key: Seq<u8>) -> Seq<u64> {
    x.update(1, x[1] ^ le_u64(key, 0)).update(2, x[2] ^ le_u64(key, 8)).update(
        3,
        x[3] ^ le_u64(key, 16),
    ).update(4, x[4] ^ le_u64(key, 24))
}

/// A 168-byte context chunk XORed, as 21 little-endian lanes, into lanes 4 to 24.
pub open spec fn xor_chunk(x: Seq<u64>, chunk: Seq<u8>) -> Seq<u64> {
    Seq::new(
        25,
        |i: int|
            if 4 <= i {
                x[i] ^ le_u64(chunk, 8 * (i - 4))
            } else {
                x[i]
            },
    )
}

/// The last context chunk (at most 168 bytes) followed by zeros up to 168 bytes.
pub open spec fn pad_chunk(rest: Seq<u8>) -> Seq<u8> {
    rest + Seq::new((CHUNK - rest.len()) as nat, |i: int| 0u8)
}

/// Absorbs the context: each full chunk that is not the last one is XORed in and
/// followed by the permutation; the last, zero-padded chunk is XORed in together
/// with the domain-separation bit in lane 0, then the permutation runs once more.
pub open spec fn absorb(x: Seq<u64>, context: Seq<u8>) -> Seq<u64>
    decreases context.len(),
{
    if context.len() > CHUNK {
        absorb(
            permutation(xor_chunk(x, context.take(CHUNK as int))),
            context.skip(CHUNK as int),
        )
    } else {
        let y = xor_chunk(x, pad_chunk(context));
        permutation(y.update(0, y[0] ^ 1))
    }
}

/// The initial state: `IV` in lane 0, zeros elsewhere.
pub open spec fn initial_state() -> Seq<u64> {
    Seq::new(
        25,
        |i: int|
            if i == 0 {
                IV
            } else {
                0u64
            },
    )
}

/// The state of a cipher made from `key` and `context`: the key is XORed into
/// the initial state, the permutation runs, the context is absorbed, and the key
/// is XORed in again.
pub open spec fn setup(key: Seq<u8>, context: Seq<u8>) -> Seq<u64> {
    xor_key(absorb(permutation(xor_key(initial_state(), key)), context), key)
}

/// Block `index` of the keystream of state `x`: the index is XORed into lane 4,
/// the permutation runs, and lanes 5 to 24 are written out little-endian.
pub open spec fn keccak_block(x: Seq<u64>, index: u64) -> Seq<u8> {
    bytes_of_u64s(permutation(x.update(4, x[4] ^ index)).subrange(5, 25))
}

/// A Keccak-based seekable stream cipher: the permutation state left by
/// absorbing a key and a context. It is never changed after construction.
#[derive(Clone, Copy)]
pub struct StreamCipher {
    st: [u64; 25],
}

impl StreamCipher {
    /// The key length in bytes.
    pub const KEY_LENGTH: usize = 32;

    /// The state, lane by lane.
    pub closed spec fn state(&self) -> Seq<u64> {
        self.st@
    }

    /// Creates a cipher from a 32-byte secret key and a public context of any length.
    ///
    /// The key must be drawn at random. The context separates domains: the same
    /// key with two different contexts gives unrelated keystreams.
    pub fn new(key: &[u8; 32], context: &[u8]) -> (r: Self)
        ensures
            r.state() == setup(key@, context@),
    {
        let mut st = [0u64; 25];
        st[0] = IV;
        let mut state = StreamCipher { st };
        assert(state.st@ =~= initial_state());
        state.add_key(key);
        state.permute();
        assert(context@.skip(0) =~= context@);
        let len = context.len();
        let mut pos: usize = 0;
        while len - pos > CHUNK
            invariant
                len == context@.len(),
                pos <= len,
                absorb(state.st@, context@.skip(pos as int)) == absorb(
                    permutation(xor_key(initial_state(), key@)),
                    context@,
                ),
            decreases len - pos,
        {
            let ghost rest = context@.skip(pos as int);
            state.add_chunk(&context[pos..pos + CHUNK]);
            state.permute();
            assert(rest.take(CHUNK as int) =~= context@.subrange(pos as int, pos + CHUNK));
            assert(rest.skip(CHUNK as int) =~= context@.skip(pos + CHUNK));
            pos = pos + CHUNK;
        }
        let mut buf = [0u8; 168];
        let mut k: usize = 0;
        while k < len - pos
            invariant
                len == context@.len(),
                pos <= len,
                len - pos <= CHUNK,
                k <= len - pos,
                forall|j: int| 0 <= j < k ==> buf@[j] == context@[pos + j],
                forall|j: int| k <= j < CHUNK ==> buf@[j] == 0u8,
            decreases len - pos - k,
        {
            buf[k] = context[pos + k];
            k += 1;
        }
        assert(buf@ =~= pad_chunk(context@.skip(pos as int)));
        state.add_chunk(buf.as_slice());
        state.st[0] = state.st[0] ^ 1;
        state.permute();
        state.add_key(key);
        state
    }

    /// Fills `out` with the keystream bytes that start at byte offset `start_offset`.
    ///
    /// The same key, context and offset always give the same bytes. Fails, and
    /// leaves `out` untouched, when the range would end past `u64::MAX`.
    pub fn fill(&self, out: &mut [u8], start_offset: u64) -> (r: Result<(), OverflowError>)
        ensures
            final(out)@.len() == old(out)@.len(),
            r is Ok <==> range_fits(start_offset, old(out)@.len()),
            r is Ok ==> final(out)@ == keystream(*self, start_offset as int, old(out)@.len()),
            r is Err ==> final(out)@ == old(out)@,
    {
        fill_stream(self, out, start_offset)
    }

    /// Encrypts or decrypts `out` in place: XORs into it the keystream bytes that
    /// start at byte offset `start_offset`.
    ///
    /// This equals a `fill` at the same offset followed by a XOR. There is no
    /// integrity: a flipped ciphertext bit flips the same plaintext bit. Fails,
    /// and leaves `out` untouched, when the range would end past `u64::MAX`.
    pub fn apply_keystream(&self, out: &mut [u8], start_offset: u64) -> (r: Result<
        (),
        OverflowError,
    >)
        ensures
            final(out)@.len() == old(out)@.len(),
            r is Ok <==> range_fits(start_offset, old(out)@.len()),
            r is Ok ==> final(out)@ == xor_bytes(
                old(out)@,
                keystream(*self, start_offset as int, old(out)@.len()),
            ),
            r is Err ==> final(out)@ == old(out)@,
    {
        apply_stream(self, out, start_offset)
    }

    /// XORs the key into lanes 1 to 4.
    fn add_key(&mut self, key: &[u8; 32])
        ensures
            final(self).st@ == xor_key(old(self).st@, key@),
    {
        let k = key.as_slice();
        self.st[1] = self.st[1] ^ load_u64(k, 0);
        self.st[2] = self.st[2] ^ load_u64(k, 8);
        self.st[3] = self.st[3] ^ load_u64(k, 16);
        self.st[4] = self.st[4] ^ load_u64(k, 24);
        assert(self.st@ =~= xor_key(old(self).st@, key@));
    }

    /// XORs a 168-byte context chunk into lanes 4 to 24.
    fn add_chunk(&mut self, chunk: &[u8])
        requires
            chunk@.len() == CHUNK,
        ensures
            final(self).st@ == xor_chunk(old(self).st@, chunk@),
    {
        let mut i: usize = 0;
        while i < 21
            invariant
                chunk@.len() == CHUNK,
                i <= 21,
                forall|j: int| 4 <= j < 4 + i ==> self.st@[j] == old(self).st@[j] ^ le_u64(chunk@, 8 * (j - 4)),
                forall|j: int| 0 <= j < 25 && !(4 <= j < 4 + i) ==> self.st@[j] == old(self).st@[j],
            decreases 21 - i,
        {
            self.st[4 + i] = self.st[4 + i] ^ load_u64(chunk, 8 * i);
            i += 1;
        }
        assert(self.st@ =~= xor_chunk(old(self).st@, chunk@));
    }

    fn permute(&mut self)
        ensures
            final(self).st@ == permutation(old(self).st@),
    {
        p1600(&mut self.st, ROUNDS);
    }
}

impl KeystreamBlocks for StreamCipher {
    open spec fn spec_rate() -> nat {
        RATE as nat
    }

    open spec fn spec_block(&self, index: u64) -> Seq<u8> {
        keccak_block(self.state(), index)
    }

    fn rate() -> (r: usize) {
        RATE
    }

    fn write_block(&self, index: u64, out: &mut [u8], at: usize) {
        let mut s = *self;
        s.st[4] = s.st[4] ^ index;
        assert(s.st@ =~= self.st@.update(4, self.st@[4] ^ index));
        s.permute();
        let lanes = &s.st[5..25];
        store_u64s(out, at, lanes);
        assert forall|j: int| 0 <= j < RATE implies out@[at + j] == #[trigger] self.spec_block(
            index,
        )[j] by {
            assert(out@[at + j] == bytes_of_u64s(lanes@)[j]);
        }
    }
}

} // verus!
