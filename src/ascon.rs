//! The cipher built on the Ascon permutation: a 5 x 64-bit state, 40-byte
//! keystream blocks and 32-byte context chunks.
use crate::keystream::{
    apply_stream, fill_stream, keystream, range_fits, xor_bytes, KeystreamBlocks, OverflowError,
};
use crate::lanes::{bytes_of_u64s, le_u64, load_u64, rotate_right_u64, rotr64, store_u64s};
use vstd::prelude::*;

verus! {

/// Constant of round `i` (of 12).
pub open spec fn round_constant(i: nat) -> u64 {
    (0xf0 - 0x0f * i) as u64
}

/// One Ascon round: constant addition, the 5-bit S-box applied bitsliced
/// across the lanes, and the linear diffusion layer.
pub open spec fn ascon_round(x: Seq<u64>, c: u64) -> Seq<u64> {
    let a0 = x[0] ^ x[4];
    let a1 = x[1];
    let a2 = (x[2] ^ c) ^ x[1];
    let a3 = x[3];
    let a4 = x[4] ^ x[3];
    let t0 = a0 ^ (!a1 & a2);
    let t1 = a1 ^ (!a2 & a3);
    let t2 = a2 ^ (!a3 & a4);
    let t3 = a3 ^ (!a4 & a0);
    let t4 = a4 ^ (!a0 & a1);
    let s0 = t0 ^ t4;
    let s1 = t1 ^ t0;
    let s2 = !t2;
    let s3 = t3 ^ t2;
    let s4 = t4;
    seq![
        s0 ^ rotr64(s0, 19) ^ rotr64(s0, 28),
        s1 ^ rotr64(s1, 61) ^ rotr64(s1, 39),
        s2 ^ rotr64(s2, 1) ^ rotr64(s2, 6),
        s3 ^ rotr64(s3, 10) ^ rotr64(s3, 17),
        s4 ^ rotr64(s4, 7) ^ rotr64(s4, 41),
    ]
}

/// The first `n` rounds of the permutation.
pub open spec fn ascon_rounds(x: Seq<u64>, n: nat) -> Seq<u64>
    decreases n,
{
    if n == 0 {
        x
    } else {
        ascon_round(ascon_rounds(x, (n - 1) as nat), round_constant((n - 1) as nat))
    }
}

/// The 12-round Ascon permutation.
pub open spec fn ascon_permutation(x: Seq<u64>) -> Seq<u64> {
    ascon_rounds(x, 12)
}

/// Initial value of lane 0, before the key is absorbed.
pub const IV: u64 = 0x010080cc00000000;

/// Number of context bytes absorbed per permutation call.
pub const CHUNK: usize = 32;

/// The key XORed, as four little-endian lanes, into lanes 1 to 4.
pub open spec fn xor_key(x: Seq<u64>, key: Seq<u8>) -> Seq<u64> {
    seq![
        x[0],
        x[1] ^ le_u64(key, 0),
        x[2] ^ le_u64(key, 8),
        x[3] ^ le_u64(key, 16),
        x[4] ^ le_u64(key, 24),
    ]
}

/// A 32-byte context chunk XORed, as four little-endian lanes, into lanes 0 to 3.
pub open spec fn xor_chunk(x: Seq<u64>, chunk: Seq<u8>) -> Seq<u64> {
    seq![
        x[0] ^ le_u64(chunk, 0),
        x[1] ^ le_u64(chunk, 8),
        x[2] ^ le_u64(chunk, 16),
        x[3] ^ le_u64(chunk, 24),
        x[4],
    ]
}

/// The last context chunk (at most 32 bytes) followed by zeros up to 32 bytes.
pub open spec fn pad_chunk(rest: Seq<u8>) -> Seq<u8> {
    rest + Seq::new((CHUNK - rest.len()) as nat, |i: int| 0u8)
}

/// Absorbs the context: each full chunk that is not the last one is XORed in and
/// followed by the permutation; the last, zero-padded chunk is XORed in together
/// with the domain-separation bit in lane 4, then the permutation runs once more.
pub open spec fn absorb(x: Seq<u64>, context: Seq<u8>) -> Seq<u64>
    decreases context.len(),
{
    if context.len() > CHUNK {
        absorb(
            ascon_permutation(xor_chunk(x, context.take(CHUNK as int))),
            context.skip(CHUNK as int),
        )
    } else {
        let y = xor_chunk(x, pad_chunk(context));
        ascon_permutation(y.update(4, y[4] ^ 1))
    }
}

/// The state of a cipher made from `key` and `context`: the key is XORed into
/// the initial state, the permutation runs, the context is absorbed, and the key
/// is XORed in again.
pub open spec fn setup(key: Seq<u8>, context: Seq<u8>) -> Seq<u64> {
    let start = xor_key(seq![IV, 0, 0, 0, 0], key);
    xor_key(absorb(ascon_permutation(start), context), key)
}

/// Number of keystream bytes per block.
pub const RATE: usize = 40;

/// Block `index` of the keystream of state `x`: the index is XORed into lane 4,
/// the permutation runs, the state from before the permutation is XORed into
/// its result, and the five lanes are written out little-endian.
pub open spec fn ascon_block(x: Seq<u64>, index: u64) -> Seq<u8> {
    let m = x.update(4, x[4] ^ index);
    let p = ascon_permutation(m);
    bytes_of_u64s(Seq::new(5, |i: int| p[i] ^ m[i]))
}

/// Diffusion of one lane as the round computes it: `t ^ rotr(t ^ rotr(t, a), b)`
/// equals `t ^ rotr(t, b) ^ rotr(t, a + b)`.
proof fn lemma_diffusion(t: u64)
    by (bit_vector)
    ensures
        t ^ rotr64(t ^ rotr64(t, 9), 19) == t ^ rotr64(t, 19) ^ rotr64(t, 28),
        t ^ rotr64(t ^ rotr64(t, 22), 39) == t ^ rotr64(t, 61) ^ rotr64(t, 39),
        !(t ^ rotr64(t ^ rotr64(t, 5), 1)) == !t ^ rotr64(!t, 1) ^ rotr64(!t, 6),
        t ^ rotr64(t ^ rotr64(t, 7), 10) == t ^ rotr64(t, 10) ^ rotr64(t, 17),
        t ^ rotr64(t ^ rotr64(t, 34), 7) == t ^ rotr64(t, 7) ^ rotr64(t, 41),
{
}

/// An Ascon-based seekable stream cipher: the permutation state left by absorbing
/// a key and a context. It is never changed after construction.
#[derive(Clone, Copy)]
pub struct StreamCipher {
    st: [u64; 5],
}

impl StreamCipher {
    /// The key length in bytes.
    pub const KEY_LENGTH: usize = 32;

    /// The state, lane by lane.
    pub closed spec fn state(&self) -> Seq<u64> {
        self.st@
    }

    /// Creates a cipher from a 32-byte secret key and a public context of any length.
    ///
    /// The key must be drawn at random. The context separates domains: the same
    /// key with two different contexts gives unrelated keystreams.
    pub fn new(key: &[u8; 32], context: &[u8]) -> (r: Self)
        ensures
            r.state() == setup(key@, context@),
    {
        let mut state = StreamCipher { st: [IV, 0, 0, 0, 0] };
        assert(state.st@ =~= seq![IV, 0, 0, 0, 0]);
        state.add_key(key);
        state.permute();
        assert(context@.skip(0) =~= context@);
        let len = context.len();
        let mut pos: usize = 0;
        while len - pos > CHUNK
            invariant
                len == context@.len(),
                pos <= len,
                absorb(state.st@, context@.skip(pos as int)) == absorb(
                    ascon_permutation(xor_key(seq![IV, 0, 0, 0, 0], key@)),
                    context@,
                ),
            decreases len - pos,
        {
            let ghost rest = context@.skip(pos as int);
            state.add_chunk(&context[pos..pos + CHUNK]);
            state.permute();
            assert(rest.take(CHUNK as int) =~= context@.subrange(pos as int, pos + CHUNK));
            assert(rest.skip(CHUNK as int) =~= context@.skip(pos + CHUNK));
            pos = pos + CHUNK;
        }
        let mut buf = [0u8; 32];
        let mut k: usize = 0;
        while k < len - pos
            invariant
                len == context@.len(),
                pos <= len,
                len - pos <= CHUNK,
                k <= len - pos,
                forall|j: int| 0 <= j < k ==> buf@[j] == context@[pos + j],
                forall|j: int| k <= j < CHUNK ==> buf@[j] == 0u8,
            decreases len - pos - k,
        {
            buf[k] = context[pos + k];
            k += 1;
        }
        assert(buf@ =~= pad_chunk(context@.skip(pos as int)));
        state.add_chunk(buf.as_slice());
        state.st[4] = state.st[4] ^ 1;
        state.permute();
        state.add_key(key);
        state
    }

    /// Fills `out` with the keystream bytes that start at byte offset `start_offset`.
    ///
    /// The same key, context and offset always give the same bytes. Fails, and
    /// leaves `out` untouched, when the range would end past `u64::MAX`.
    pub fn fill(&self, out: &mut [u8], start_offset: u64) -> (r: Result<(), OverflowError>)
        ensures
            final(out)@.len() == old(out)@.len(),
            r is Ok <==> range_fits(start_offset, old(out)@.len()),
            r is Ok ==> final(out)@ == keystream(*self, start_offset as int, old(out)@.len()),
            r is Err ==> final(out)@ == old(out)@,
    {
        fill_stream(self, out, start_offset)
    }

    /// Encrypts or decrypts `out` in place: XORs into it the keystream bytes that
    /// start at byte offset `start_offset`.
    ///
    /// This equals a `fill` at the same offset followed by a XOR. There is no
    /// integrity: a flipped ciphertext bit flips the same plaintext bit. Fails,
    /// and leaves `out` untouched, when the range would end past `u64::MAX`.
    pub fn apply_keystream(&self, out: &mut [u8], start_offset: u64) -> (r: Result<
        (),
        OverflowError,
    >)
        ensures
            final(out)@.len() == old(out)@.len(),
            r is Ok <==> range_fits(start_offset, old(out)@.len()),
            r is Ok ==> final(out)@ == xor_bytes(
                old(out)@,
                keystream(*self, start_offset as int, old(out)@.len()),
            ),
            r is Err ==> final(out)@ == old(out)@,
    {
        apply_stream(self, out, start_offset)
    }

    /// XORs the key into lanes 1 to 4.
    fn add_key(&mut self, key: &[u8; 32])
        ensures
            final(self).st@ == xor_key(old(self).st@, key@),
    {
        let k = key.as_slice();
        self.st[1] = self.st[1] ^ load_u64(k, 0);
        self.st[2] = self.st[2] ^ load_u64(k, 8);
        self.st[3] = self.st[3] ^ load_u64(k, 16);
        self.st[4] = self.st[4] ^ load_u64(k, 24);
        assert(self.st@ =~= xor_key(old(self).st@, key@));
    }

    /// XORs a 32-byte context chunk into lanes 0 to 3.
    fn add_chunk(&mut self, chunk: &[u8])
        requires
            chunk@.len() == CHUNK,
        ensures
            final(self).st@ == xor_chunk(old(self).st@, chunk@),
    {
        self.st[0] = self.st[0] ^ load_u64(chunk, 0);
        self.st[1] = self.st[1] ^ load_u64(chunk, 8);
        self.st[2] = self.st[2] ^ load_u64(chunk, 16);
        self.st[3] = self.st[3] ^ load_u64(chunk, 24);
        assert(self.st@ =~= xor_chunk(old(self).st@, chunk@));
    }

    fn round(&mut self, rk: u64)
        ensures
            final(self).st@ == ascon_round(old(self).st@, rk),
    {
        let ghost x = self.st@;
        let x0 = self.st[0] ^ self.st[4];
        let x4 = self.st[4] ^ self.st[3];
        let x2 = (self.st[2] ^ rk) ^ self.st[1];
        let x1 = self.st[1];
        let x3 = self.st[3];
        let t0 = x0 ^ (!x1 & x2);
        let t1 = x1 ^ (!x2 & x3);
        let t2 = x2 ^ (!x3 & x4);
        let t3 = x3 ^ (!x4 & x0);
        let t4 = x4 ^ (!x0 & x1);
        let t1 = t1 ^ t0;
        let t3 = t3 ^ t2;
        let t0 = t0 ^ t4;
        let y2 = t2 ^ rotate_right_u64(t2, 6 - 1);
        let y3 = t3 ^ rotate_right_u64(t3, 17 - 10);
        let y4 = t4 ^ rotate_right_u64(t4, 41 - 7);
        let y0 = t0 ^ rotate_right_u64(t0, 28 - 19);
        let y1 = t1 ^ rotate_right_u64(t1, 61 - 39);
        self.st[2] = !(t2 ^ rotate_right_u64(y2, 1));
        self.st[3] = t3 ^ rotate_right_u64(y3, 10);
        self.st[4] = t4 ^ rotate_right_u64(y4, 7);
        self.st[0] = t0 ^ rotate_right_u64(y0, 19);
        self.st[1] = t1 ^ rotate_right_u64(y1, 39);
        proof {
            lemma_diffusion(t0);
            lemma_diffusion(t1);
            lemma_diffusion(t2);
            lemma_diffusion(t3);
            lemma_diffusion(t4);
            assert(self.st@ =~= ascon_round(x, rk));
        }
    }

    fn permute(&mut self)
        ensures
            final(self).st@ == ascon_permutation(old(self).st@),
    {
        let ghost x = self.st@;
        let mut i: u64 = 0;
        while i < 12
            invariant
                i <= 12,
                self.st@ == ascon_rounds(x, i as nat),
            decreases 12 - i,
        {
            self.round(0xf0 - 0x0f * i);
            i += 1;
        }
    }
}

impl KeystreamBlocks for StreamCipher {
    open spec fn spec_rate() -> nat {
        RATE as nat
    }

    open spec fn spec_block(&self, index: u64) -> Seq<u8> {
        ascon_block(self.state(), index)
    }

    fn rate() -> (r: usize) {
        RATE
    }

    fn write_block(&self, index: u64, out: &mut [u8], at: usize) {
        let mut s = *self;
        s.st[4] = s.st[4] ^ index;
        let mask = s.st;
        s.permute();
        s.st[0] = s.st[0] ^ mask[0];
        s.st[1] = s.st[1] ^ mask[1];
        s.st[2] = s.st[2] ^ mask[2];
        s.st[3] = s.st[3] ^ mask[3];
        s.st[4] = s.st[4] ^ mask[4];
        let lanes = s.st.as_slice();
        proof {
            let m = self.st@.update(4, self.st@[4] ^ index);
            assert(mask@ =~= m);
            let p = ascon_permutation(m);
            assert(lanes@ =~= Seq::new(5, |i: int| p[i] ^ m[i]));
        }
        store_u64s(out, at, lanes);
        assert forall|j: int| 0 <= j < RATE implies out@[at + j] == #[trigger] self.spec_block(
            index,
        )[j] by {
            assert(out@[at + j] == bytes_of_u64s(lanes@)[j]);
        }
    }
}

} // verus!
