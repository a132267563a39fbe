//! Little-endian conversion between bytes and 32- or 64-bit lanes, and lane rotations.
use vstd::arithmetic::div_mod::lemma_fundamental_div_mod_converse;
use vstd::prelude::*;

verus! {

/// The 64-bit lane stored little-endian in `b[at..at + 8]`.
pub open spec fn le_u64(b: Seq<u8>, at: int) -> u64 {
    (b[at] as u64) | ((b[at + 1] as u64) << 8u64) | ((b[at + 2] as u64) << 16u64) | ((b[at
        + 3] as u64) << 24u64) | ((b[at + 4] as u64) << 32u64) | ((b[at + 5] as u64) << 40u64)
        | ((b[at + 6] as u64) << 48u64) | ((b[at + 7] as u64) << 56u64)
}

/// The 32-bit lane stored little-endian in `b[at..at + 4]`.
pub open spec fn le_u32(b: Seq<u8>, at: int) -> u32 {
    (b[at] as u32) | ((b[at + 1] as u32) << 8u32) | ((b[at + 2] as u32) << 16u32) | ((b[at
        + 3] as u32) << 24u32)
}

/// Byte `k` (least significant first) of a 64-bit lane.
pub open spec fn byte_of_u64(x: u64, k: int) -> u8 {
    (#[verifier::truncate] (((x >> (8 * k) as u64) & 0xffu64) as u8))
}

/// Byte `k` (least significant first) of a 32-bit lane.
pub open spec fn byte_of_u32(x: u32, k: int) -> u8 {
    (#[verifier::truncate] (((x >> (8 * k) as u32) & 0xffu32) as u8))
}

/// The lanes written out one after another, each little-endian.
pub open spec fn bytes_of_u64s(lanes: Seq<u64>) -> Seq<u8> {
    Seq::new(8 * lanes.len(), |j: int| byte_of_u64(lanes[j / 8], j % 8))
}

/// The lanes written out one after another, each little-endian.
pub open spec fn bytes_of_u32s(lanes: Seq<u32>) -> Seq<u8> {
    Seq::new(4 * lanes.len(), |j: int| byte_of_u32(lanes[j / 4], j % 4))
}

/// `x` rotated right by `n` bits, for `0 < n < 64`.
pub open spec fn rotr64(x: u64, n: u64) -> u64 {
    (x >> n) | (x << (64 - n) as u64)
}

/// `x` rotated left by `n` bits, for `0 < n < 32`.
pub open spec fn rotl32(x: u32, n: u32) -> u32 {
    (x << n) | (x >> (32 - n) as u32)
}

pub fn load_u64(b: &[u8], at: usize) -> (r: u64)
    requires
        at + 8 <= b@.len(),
    ensures
        r == le_u64(b@, at as int),
{
    (b[at] as u64) | ((b[at + 1] as u64) << 8u64) | ((b[at + 2] as u64) << 16u64) | ((b[at
        + 3] as u64) << 24u64) | ((b[at + 4] as u64) << 32u64) | ((b[at + 5] as u64) << 40u64)
        | ((b[at + 6] as u64) << 48u64) | ((b[at + 7] as u64) << 56u64)
}

pub fn load_u32(b: &[u8], at: usize) -> (r: u32)
    requires
        at + 4 <= b@.len(),
    ensures
        r == le_u32(b@, at as int),
{
    (b[at] as u32) | ((b[at + 1] as u32) << 8u32) | ((b[at + 2] as u32) << 16u32) | ((b[at
        + 3] as u32) << 24u32)
}

/// Writes `x` little-endian into `out[at..at + 8]`, leaving the other bytes alone.
pub fn store_u64(out: &mut [u8], at: usize, x: u64)
    requires
        at + 8 <= old(out)@.len(),
    ensures
        final(out)@.len() == old(out)@.len(),
        forall|j: int|
            0 <= j < old(out)@.len() && !(at <= j < at + 8) ==> final(out)@[j] == old(out)@[j],
        forall|k: int| 0 <= k < 8 ==> final(out)@[at + k] == byte_of_u64(x, k),
{
    let len = out.len();
    let mut k: usize = 0;
    while k < 8
        invariant
            len == out@.len(),
            at + 8 <= out@.len(),
            out@.len() == old(out)@.len(),
            k <= 8,
            forall|j: int|
                0 <= j < out@.len() && !(at <= j < at + k) ==> out@[j] == old(out)@[j],
            forall|i: int| 0 <= i < k ==> out@[at + i] == byte_of_u64(x, i),
        decreases 8 - k,
    {
        out[at + k] = (#[verifier::truncate] (((x >> (8 * k) as u64) & 0xffu64) as u8));
        k += 1;
    }
}

/// Writes `x` little-endian into `out[at..at + 4]`, leaving the other bytes alone.
pub fn store_u32(out: &mut [u8], at: usize, x: u32)
    requires
        at + 4 <= old(out)@.len(),
    ensures
        final(out)@.len() == old(out)@.len(),
        forall|j: int|
            0 <= j < old(out)@.len() && !(at <= j < at + 4) ==> final(out)@[j] == old(out)@[j],
        forall|k: int| 0 <= k < 4 ==> final(out)@[at + k] == byte_of_u32(x, k),
{
    let len = out.len();
    let mut k: usize = 0;
    while k < 4
        invariant
            len == out@.len(),
            at + 4 <= out@.len(),
            out@.len() == old(out)@.len(),
            k <= 4,
            forall|j: int|
                0 <= j < out@.len() && !(at <= j < at + k) ==> out@[j] == old(out)@[j],
            forall|i: int| 0 <= i < k ==> out@[at + i] == byte_of_u32(x, i),
        decreases 4 - k,
    {
        out[at + k] = (#[verifier::truncate] (((x >> (8 * k) as u32) & 0xffu32) as u8));
        k += 1;
    }
}

pub fn rotate_right_u64(x: u64, n: u64) -> (r: u64)
    requires
        0 < n < 64,
    ensures
        r == rotr64(x, n),
{
    (x >> n) | (x << (64 - n))
}

pub fn rotate_left_u32(x: u32, n: u32) -> (r: u32)
    requires
        0 < n < 32,
    ensures
        r == rotl32(x, n),
{
    (x << n) | (x >> (32 - n))
}

/// Byte `w * i + k` of a row of `w`-byte lanes is byte `k` of lane `i`.
proof fn lemma_lane_position(j: int, w: int, i: int, k: int)
    requires
        0 < w,
        0 <= k < w,
        j == i * w + k,
    ensures
        j / w == i,
        j % w == k,
{
    lemma_fundamental_div_mod_converse(j, w, i, k);
}

/// Writes `lanes` little-endian, one after another, into `out[at..at + 8 * lanes.len()]`,
/// leaving the other bytes alone.
pub fn store_u64s(out: &mut [u8], at: usize, lanes: &[u64])
    requires
        at + 8 * lanes@.len() <= old(out)@.len(),
    ensures
        final(out)@.len() == old(out)@.len(),
        forall|j: int|
            0 <= j < old(out)@.len() && !(at <= j < at + 8 * lanes@.len()) ==> final(out)@[j]
                == old(out)@[j],
        forall|j: int|
            0 <= j < 8 * lanes@.len() ==> final(out)@[at + j] == #[trigger] bytes_of_u64s(lanes@)[j],
{
    let len = out.len();
    let count = lanes.len();
    let mut i: usize = 0;
    while i < count
        invariant
            len == out@.len(),
            count == lanes@.len(),
            at + 8 * count <= out@.len(),
            out@.len() == old(out)@.len(),
            i <= count,
            forall|j: int|
                0 <= j < out@.len() && !(at <= j < at + 8 * i) ==> out@[j] == old(out)@[j],
            forall|j: int| 0 <= j < 8 * i ==> out@[at + j] == #[trigger] bytes_of_u64s(lanes@)[j],
        decreases count - i,
    {
        store_u64(out, at + 8 * i, lanes[i]);
        assert forall|j: int| 8 * i <= j < 8 * i + 8 implies out@[at + j] == #[trigger] bytes_of_u64s(
            lanes@,
        )[j] by {
            lemma_lane_position(j, 8, i as int, j - 8 * i);
        }
        i += 1;
    }
}

/// Writes `lanes` little-endian, one after another, into `out[at..at + 4 * lanes.len()]`,
/// leaving the other bytes alone.
pub fn store_u32s(out: &mut [u8], at: usize, lanes: &[u32])
    requires
        at + 4 * lanes@.len() <= old(out)@.len(),
    ensures
        final(out)@.len() == old(out)@.len(),
        forall|j: int|
            0 <= j < old(out)@.len() && !(at <= j < at + 4 * lanes@.len()) ==> final(out)@[j]
                == old(out)@[j],
        forall|j: int|
            0 <= j < 4 * lanes@.len() ==> final(out)@[at + j] == #[trigger] bytes_of_u32s(lanes@)[j],
{
    let len = out.len();
    let count = lanes.len();
    let mut i: usize = 0;
    while i < count
        invariant
            len == out@.len(),
            count == lanes@.len(),
            at + 4 * count <= out@.len(),
            out@.len() == old(out)@.len(),
            i <= count,
            forall|j: int|
                0 <= j < out@.len() && !(at <= j < at + 4 * i) ==> out@[j] == old(out)@[j],
            forall|j: int| 0 <= j < 4 * i ==> out@[at + j] == #[trigger] bytes_of_u32s(lanes@)[j],
        decreases count - i,
    {
        store_u32(out, at + 4 * i, lanes[i]);
        assert forall|j: int| 4 * i <= j < 4 * i + 4 implies out@[at + j] == #[trigger] bytes_of_u32s(
            lanes@,
        )[j] by {
            lemma_lane_position(j, 4, i as int, j - 4 * i);
        }
        i += 1;
    }
}

} // verus!
