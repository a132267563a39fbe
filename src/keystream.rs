//! The construction shared by every cipher: a keystream made of fixed-size
//! blocks, each a function of the cipher state and its index, and the offset
//! arithmetic that assembles arbitrary byte ranges from those blocks.
use vstd::arithmetic::div_mod::{lemma_fundamental_div_mod, lemma_fundamental_div_mod_converse};
use vstd::prelude::*;

verus! {

/// The single error of the stream operations: the requested range would end
/// past the 64-bit byte-address space.
#[derive(Debug, Clone, Copy, PartialEq, Eq)]
pub struct OverflowError;

/// A source of keystream blocks: a fixed number of bytes for each 64-bit block index.
pub trait KeystreamBlocks: Sized {
    /// Number of bytes in one block.
    spec fn spec_rate() -> nat;

    /// The bytes of block `index`.
    spec fn spec_block(&self, index: u64) -> Seq<u8>;

    /// Number of bytes in one block.
    fn rate() -> (r: usize)
        ensures
            r as nat == Self::spec_rate(),
            0 < r,
    ;

    /// Writes block `index` into `out[at..at + rate]`, leaving the other bytes alone.
    fn write_block(&self, index: u64, out: &mut [u8], at: usize)
        requires
            at + Self::spec_rate() <= old(out)@.len(),
        ensures
            final(out)@.len() == old(out)@.len(),
            forall|j: int|
                0 <= j < old(out)@.len() && !(at <= j < at + Self::spec_rate())
                    ==> final(out)@[j] == old(out)@[j],
            forall|j: int|
                0 <= j < Self::spec_rate() ==> final(out)@[at + j] == #[trigger] self.spec_block(
                    index,
                )[j],
    ;
}

/// Byte `pos` of the infinite keystream.
pub open spec fn stream_byte<S: KeystreamBlocks>(src: S, pos: int) -> u8 {
    src.spec_block((pos / S::spec_rate() as int) as u64)[pos % S::spec_rate() as int]
}

/// Bytes `[start, start + len)` of the keystream.
pub open spec fn keystream<S: KeystreamBlocks>(src: S, start: int, len: nat) -> Seq<u8> {
    Seq::new(len, |i: int| stream_byte(src, start + i))
}

/// Elementwise XOR of two byte sequences of the same length.
pub open spec fn xor_bytes(a: Seq<u8>, b: Seq<u8>) -> Seq<u8> {
    Seq::new(a.len(), |i: int| a[i] ^ b[i])
}

/// Whether `len` bytes starting at byte offset `start` fit in the 64-bit address space.
pub open spec fn range_fits(start: u64, len: nat) -> bool {
    start + len <= u64::MAX
}

/// Byte `abs + k` lies in the block of byte `abs`, `k` places further on, as
/// long as that stays inside the block.
proof fn lemma_same_block(abs: int, k: int, rate: int)
    requires
        0 <= abs,
        0 < rate,
        0 <= k,
        abs % rate + k < rate,
    ensures
        (abs + k) / rate == abs / rate,
        (abs + k) % rate == abs % rate + k,
{
    lemma_fundamental_div_mod(abs, rate);
    lemma_fundamental_div_mod_converse(abs + k, rate, abs / rate, abs % rate + k);
}

/// Whether `len` bytes starting at `start` stay inside the 64-bit address space.
pub fn fits(start: u64, len: usize) -> (r: bool)
    ensures
        r == range_fits(start, len as nat),
{
    start.checked_add(len as u64).is_some()
}

/// Writes keystream bytes `[start, start + out.len())` into `out`.
///
/// Fails, leaving `out` untouched, when that range ends past `u64::MAX`.
pub fn fill_stream<S: KeystreamBlocks>(src: &S, out: &mut [u8], start: u64) -> (r: Result<
    (),
    OverflowError,
>)
    ensures
        final(out)@.len() == old(out)@.len(),
        r is Ok <==> range_fits(start, old(out)@.len()),
        r is Ok ==> final(out)@ == keystream(*src, start as int, old(out)@.len()),
        r is Err ==> final(out)@ == old(out)@,
{
    let len = out.len();
    if !fits(start, len) {
        return Err(OverflowError);
    }
    let rate = S::rate();
    let mut scratch: Vec<u8> = vec![0u8; rate];
    let mut pos: usize = 0;
    while pos < len
        invariant
            len == out@.len(),
            rate == S::spec_rate(),
            0 < rate,
            scratch@.len() == rate,
            start + len <= u64::MAX,
            pos <= len,
            forall|j: int| 0 <= j < pos ==> out@[j] == stream_byte(*src, start + j),
        decreases len - pos,
    {
        let abs: u64 = start + pos as u64;
        let index: u64 = abs / rate as u64;
        let skip: usize = (abs % rate as u64) as usize;
        let avail: usize = rate - skip;
        let n: usize = if avail < len - pos {
            avail
        } else {
            len - pos
        };
        proof {
            assert forall|k: int| 0 <= k < n implies #[trigger] stream_byte(*src, abs + k)
                == src.spec_block(index)[skip + k] by {
                lemma_same_block(abs as int, k, rate as int);
            }
        }
        if skip == 0 && n == rate {
            src.write_block(index, out, pos);
        } else {
            src.write_block(index, scratch.as_mut_slice(), 0);
            let mut k: usize = 0;
            while k < n
                invariant
                    len == out@.len(),
                    scratch@.len() == rate,
                    0 < rate,
                    skip + n <= rate,
                    pos + n <= len,
                    k <= n,
                    forall|j: int| 0 <= j < rate ==> scratch@[j] == src.spec_block(index)[j],
                    forall|j: int| 0 <= j < pos ==> out@[j] == stream_byte(*src, start + j),
                    forall|j: int|
                        0 <= j < k ==> #[trigger] out@[pos + j] == src.spec_block(index)[skip + j],
                    forall|j: int|
                        0 <= j < n ==> #[trigger] stream_byte(*src, abs + j) == src.spec_block(
                            index,
                        )[skip + j],
                    abs == start + pos,
                decreases n - k,
            {
                out[pos + k] = scratch[skip + k];
                k += 1;
            }
        }
        assert forall|j: int| pos <= j < pos + n implies out@[j] == stream_byte(
            *src,
            start + j,
        ) by {
            let k = j - pos;
            assert(out@[pos + k] == src.spec_block(index)[skip + k]);
            assert(stream_byte(*src, abs + k) == src.spec_block(index)[skip + k]);
        }
        pos = pos + n;
    }
    assert(out@ =~= keystream(*src, start as int, len as nat));
    Ok(())
}

/// XORs keystream bytes `[start, start + out.len())` into `out`.
///
/// Fails, leaving `out` untouched, when that range ends past `u64::MAX`.
pub fn apply_stream<S: KeystreamBlocks>(src: &S, out: &mut [u8], start: u64) -> (r: Result<
    (),
    OverflowError,
>)
    ensures
        final(out)@.len() == old(out)@.len(),
        r is Ok <==> range_fits(start, old(out)@.len()),
        r is Ok ==> final(out)@ == xor_bytes(
            old(out)@,
            keystream(*src, start as int, old(out)@.len()),
        ),
        r is Err ==> final(out)@ == old(out)@,
{
    let ghost input = out@;
    let len = out.len();
    if !fits(start, len) {
        return Err(OverflowError);
    }
    let rate = S::rate();
    let mut scratch: Vec<u8> = vec![0u8; rate];
    let mut pos: usize = 0;
    while pos < len
        invariant
            len == out@.len(),
            input.len() == len,
            rate == S::spec_rate(),
            0 < rate,
            scratch@.len() == rate,
            start + len <= u64::MAX,
            pos <= len,
            forall|j: int| 0 <= j < pos ==> out@[j] == input[j] ^ stream_byte(*src, start + j),
            forall|j: int| pos <= j < len ==> out@[j] == input[j],
        decreases len - pos,
    {
        let abs: u64 = start + pos as u64;
        let index: u64 = abs / rate as u64;
        let skip: usize = (abs % rate as u64) as usize;
        let avail: usize = rate - skip;
        let n: usize = if avail < len - pos {
            avail
        } else {
            len - pos
        };
        proof {
            assert forall|k: int| 0 <= k < n implies #[trigger] stream_byte(*src, abs + k)
                == src.spec_block(index)[skip + k] by {
                lemma_same_block(abs as int, k, rate as int);
            }
        }
        src.write_block(index, scratch.as_mut_slice(), 0);
        let mut k: usize = 0;
        while k < n
            invariant
                len == out@.len(),
                input.len() == len,
                scratch@.len() == rate,
                0 < rate,
                skip + n <= rate,
                pos + n <= len,
                k <= n,
                forall|j: int| 0 <= j < rate ==> scratch@[j] == src.spec_block(index)[j],
                forall|j: int| 0 <= j < pos ==> out@[j] == input[j] ^ stream_byte(*src, start + j),
                forall|j: int|
                    0 <= j < k ==> #[trigger] out@[pos + j] == input[pos + j] ^ src.spec_block(
                        index,
                    )[skip + j],
                forall|j: int| pos + k <= j < len ==> out@[j] == input[j],
            decreases n - k,
        {
            out[pos + k] = out[pos + k] ^ scratch[skip + k];
            k += 1;
        }
        assert forall|j: int| pos <= j < pos + n implies out@[j] == input[j] ^ stream_byte(
            *src,
            start + j,
        ) by {
            let k = j - pos;
            assert(out@[pos + k] == input[pos + k] ^ src.spec_block(index)[skip + k]);
            assert(stream_byte(*src, abs + k) == src.spec_block(index)[skip + k]);
        }
        pos = pos + n;
    }
    assert(out@ =~= xor_bytes(input, keystream(*src, start as int, len as nat)));
    Ok(())
}

/// Two fills of the same range from the same cipher give the same bytes.
pub proof fn lemma_fill_deterministic<S: KeystreamBlocks>(
    src: S,
    start: u64,
    first: Seq<u8>,
    second: Seq<u8>,
)
    requires
        first == keystream(src, start as int, first.len()),
        second == keystream(src, start as int, second.len()),
        first.len() == second.len(),
    ensures
        first == second,
{
}

/// Dropping the first byte of the range that starts at
/// `start` gives the range that starts at `start + 1`.
pub proof fn lemma_shift<S: KeystreamBlocks>(src: S, start: u64, len: nat)
    requires
        1 <= len,
        range_fits(start, len),
    ensures
        keystream(src, start as int, len).subrange(1, len as int) == keystream(
            src,
            start + 1,
            (len - 1) as nat,
        ),
{
    assert(keystream(src, start as int, len).subrange(1, len as int) =~= keystream(
        src,
        start + 1,
        (len - 1) as nat,
    ));
}

/// The range `[start, start + len)` computed directly equals
/// the same bytes taken out of the range that starts at offset 0.
pub proof fn lemma_seek<S: KeystreamBlocks>(src: S, start: u64, len: nat)
    requires
        range_fits(start, len),
    ensures
        keystream(src, start as int, len) == keystream(src, 0, (start + len) as nat).subrange(
            start as int,
            start + len,
        ),
{
    assert(keystream(src, start as int, len) =~= keystream(
        src,
        0,
        (start + len) as nat,
    ).subrange(start as int, start + len));
}

/// XORing the same keystream range into a buffer twice restores it.
pub proof fn lemma_apply_twice<S: KeystreamBlocks>(src: S, start: u64, buf: Seq<u8>)
    ensures
        xor_bytes(
            xor_bytes(buf, keystream(src, start as int, buf.len())),
            keystream(src, start as int, buf.len()),
        ) == buf,
{
    let ks = keystream(src, start as int, buf.len());
    assert forall|i: int| 0 <= i < buf.len() implies #[trigger] xor_bytes(
        xor_bytes(buf, ks),
        ks,
    )[i] == buf[i] by {
        let (b, k) = (buf[i], ks[i]);
        assert(b ^ k ^ k == b) by (bit_vector);
    }
    assert(xor_bytes(xor_bytes(buf, ks), ks) =~= buf);
}

/// XORing a keystream range into a zeroed buffer gives
/// exactly the bytes that a fill of that range gives.
pub proof fn lemma_apply_to_zeros<S: KeystreamBlocks>(src: S, start: u64, len: nat)
    ensures
        xor_bytes(Seq::new(len, |i: int| 0u8), keystream(src, start as int, len)) == keystream(
            src,
            start as int,
            len,
        ),
{
    let ks = keystream(src, start as int, len);
    let zeros = Seq::new(len, |i: int| 0u8);
    assert forall|i: int| 0 <= i < len implies #[trigger] xor_bytes(zeros, ks)[i] == ks[i] by {
        let k = ks[i];
        assert(0u8 ^ k == k) by (bit_vector);
    }
    assert(xor_bytes(zeros, ks) =~= ks);
}

/// What an in-place XOR leaves in a buffer is the buffer XORed with what a fill
/// of the same range writes.
pub proof fn lemma_apply_is_fill_xor<S: KeystreamBlocks>(
    src: S,
    start: u64,
    buf: Seq<u8>,
    filled: Seq<u8>,
    applied: Seq<u8>,
)
    requires
        filled == keystream(src, start as int, buf.len()),
        applied == xor_bytes(buf, keystream(src, start as int, buf.len())),
    ensures
        applied == xor_bytes(buf, filled),
{
}

} // verus!
