//! Byte-level building blocks shared by the row codec and the pager: the
//! little-endian layout of a 32-bit integer, zero padding, and copying
//! between fixed-size buffers.

use binary_serde::{BinarySerde, DeserializeError, Endianness};
use vstd::prelude::*;

verus! {

/// The error type of `binary_serde`'s deserializers. Nothing in this crate
/// looks inside it.
#[verifier::external_type_specification]
#[verifier::external_body]
pub struct ExDeserializeError(DeserializeError);

/// The four bytes of `x`, least significant first.
pub open spec fn u32_le_bytes(x: u32) -> Seq<u8> {
    seq![
        (x % 256) as u8,
        ((x / 256) % 256) as u8,
        ((x / 65536) % 256) as u8,
        ((x / 16777216) % 256) as u8,
    ]
}

/// The integer whose little-endian bytes are the first four bytes of `b`.
pub open spec fn u32_from_le_bytes(b: Seq<u8>) -> u32
    recommends
        b.len() >= 4,
{
    (b[0] as int + 256 * (b[1] as int) + 65536 * (b[2] as int) + 16777216 * (b[3] as int)) as u32
}

/// The first `n` bytes of `bytes`, followed by zeros where `bytes` is
/// shorter than `n`.
pub open spec fn zero_padded(bytes: Seq<u8>, n: nat) -> Seq<u8> {
    Seq::new(
        n,
        |i: int|
            if i < bytes.len() {
                bytes[i]
            } else {
                0u8
            },
    )
}

/// `base` with the bytes from position `at` on replaced by `patch`.
pub open spec fn overwritten(base: Seq<u8>, at: int, patch: Seq<u8>) -> Seq<u8>
    recommends
        0 <= at,
        at + patch.len() <= base.len(),
{
    Seq::new(
        base.len(),
        |i: int|
            if at <= i < at + patch.len() {
                patch[i - at]
            } else {
                base[i]
            },
    )
}

/// Encoding a 32-bit integer and decoding it again gives the integer back.
pub proof fn lemma_u32_le_round_trip(x: u32)
    ensures
        u32_le_bytes(x).len() == 4,
        u32_from_le_bytes(u32_le_bytes(x)) == x,
{
}

/// Four digits to the base 256 are recovered from their number by division
/// and remainder.
proof fn lemma_digits(b0: int, b1: int, b2: int, b3: int)
    requires
        0 <= b0 < 256,
        0 <= b1 < 256,
        0 <= b2 < 256,
        0 <= b3 < 256,
    ensures
        ({
            let v = b0 + 256 * b1 + 65536 * b2 + 16777216 * b3;
            &&& v % 256 == b0
            &&& (v / 256) % 256 == b1
            &&& (v / 65536) % 256 == b2
            &&& (v / 16777216) % 256 == b3
        }),
{
}

/// Every four bytes are the little-endian encoding of the integer they
/// decode to: no bit pattern is lost or rejected.
pub proof fn lemma_u32_le_bytes_exact(b: Seq<u8>)
    requires
        b.len() == 4,
    ensures
        u32_le_bytes(u32_from_le_bytes(b)) == b,
{
    lemma_digits(b[0] as int, b[1] as int, b[2] as int, b[3] as int);
}

/// Calls `binary_serde`'s `BinarySerde::binary_serialize` on a `u32` with
/// `Endianness::Little` and a four-byte buffer. The crate copies
/// `u32::to_le_bytes` into the buffer, so the result is taken to be the
/// integer's bytes, least significant first.
#[verifier::external_body]
pub(crate) fn serialize_u32(value: u32) -> (out: [u8; 4])
    ensures
        out@ == u32_le_bytes(value),
{
    let mut out = [0u8; 4];
    value.binary_serialize(&mut out, Endianness::Little);
    out
}

/// Calls `binary_serde`'s `BinarySerde::binary_deserialize` for `u32` with
/// `Endianness::Little`. The crate panics unless the buffer holds exactly
/// four bytes, hence the precondition; on four bytes it cannot fail and
/// returns `u32::from_le_bytes` of them.
#[verifier::external_body]
pub(crate) fn deserialize_u32(buf: &[u8]) -> (r: Result<u32, DeserializeError>)
    requires
        buf@.len() == 4,
    ensures
        r is Ok,
        r->Ok_0 == u32_from_le_bytes(buf@),
{
    u32::binary_deserialize(buf, Endianness::Little)
}

/// Copies `N` bytes out of `src`, starting at `at`.
pub(crate) fn read_bytes<const N: usize>(src: &[u8], at: usize) -> (out: [u8; N])
    requires
        at + N <= src@.len(),
    ensures
        out@ == src@.subrange(at as int, at + N),
{
    let len: usize = src.len();
    let mut out: [u8; N] = [0u8; N];
    let mut i: usize = 0;
    while i < N
        invariant
            i <= N,
            len == src@.len(),
            at + N <= len,
            forall|k: int| 0 <= k < i ==> out@[k] == src@[at + k],
        decreases N - i,
    {
        out[i] = src[at + i];
        i += 1;
    }
    out
}

/// Copies `src` into `dst`, starting at `at`; the rest of `dst` stays.
pub(crate) fn write_bytes<const N: usize>(dst: &mut [u8; N], at: usize, src: &[u8])
    requires
        at + src@.len() <= N,
    ensures
        final(dst)@ == overwritten(old(dst)@, at as int, src@),
{
    let len: usize = src.len();
    let mut i: usize = 0;
    while i < len
        invariant
            i <= len,
            len == src@.len(),
            at + len <= N,
            forall|k: int| 0 <= k < i ==> dst@[at + k] == src@[k],
            forall|k: int| 0 <= k < N && !(at <= k < at + i) ==> dst@[k] == old(dst)@[k],
        decreases len - i,
    {
        dst[at + i] = src[i];
        i += 1;
    }
}

/// The first `N` bytes of `src`, zero-filled where `src` is shorter.
pub(crate) fn pad_bytes<const N: usize>(src: &[u8]) -> (out: [u8; N])
    ensures
        out@ == zero_padded(src@, N as nat),
{
    let mut out: [u8; N] = [0u8; N];
    let mut i: usize = 0;
    while i < N && i < src.len()
        invariant
            i <= N,
            i <= src@.len(),
            forall|k: int| 0 <= k < i ==> out@[k] == src@[k],
            forall|k: int| i <= k < N ==> out@[k] == 0,
        decreases N - i,
    {
        out[i] = src[i];
        i += 1;
    }
    out
}

} // verus!
