//! The byte buffers of the `bytes` crate, as the encoders use them.
//!
//! A `BytesMut` is a growable byte buffer and a `Bytes` its frozen, shareable
//! form. Their contents are named by `buffered` and `frozen`; every operation
//! below states what it does to those contents.
use bytes::{BufMut, Bytes, BytesMut};
use vstd::prelude::*;

verus! {

#[verifier::external_type_specification]
#[verifier::external_body]
pub struct ExBytesMut(BytesMut);

#[verifier::external_type_specification]
#[verifier::external_body]
pub struct ExBytes(Bytes);

/// The bytes held by a `BytesMut`, in order.
pub uninterp spec fn buffered(b: BytesMut) -> Seq<u8>;

/// The bytes held by a `Bytes`, in order.
pub uninterp spec fn frozen(b: Bytes) -> Seq<u8>;

/// The `n` low-order bytes of `v`, least significant first.
pub open spec fn le_bytes(v: nat, n: nat) -> Seq<u8>
    decreases n,
{
    if n == 0 {
        seq![]
    } else {
        seq![(v % 256) as u8] + le_bytes(v / 256, (n - 1) as nat)
    }
}

/// `le_bytes` gives exactly the number of bytes asked for.
pub broadcast proof fn lemma_le_bytes_len(v: nat, n: nat)
    ensures
        #[trigger] le_bytes(v, n).len() == n,
    decreases n,
{
    if n > 0 {
        lemma_le_bytes_len(v / 256, (n - 1) as nat);
    }
}

/// Little-endian form of a `u16`.
pub open spec fn le_u16(v: u16) -> Seq<u8> {
    le_bytes(v as nat, 2)
}

/// Little-endian form of a `u32`.
pub open spec fn le_u32(v: u32) -> Seq<u8> {
    le_bytes(v as nat, 4)
}

/// Little-endian two's complement form of an `i32`.
pub open spec fn le_i32(v: i32) -> Seq<u8> {
    le_bytes((if v >= 0 { v as int } else { v + 0x1_0000_0000 }) as nat, 4)
}

/// Little-endian two's complement form of an `i64`.
pub open spec fn le_i64(v: i64) -> Seq<u8> {
    le_bytes((if v >= 0 { v as int } else { v + 0x1_0000_0000_0000_0000 }) as nat, 8)
}

/// Whether a buffer of `n` bytes can be allocated at all.
pub open spec fn allocatable(n: nat) -> bool {
    n <= isize::MAX
}

/// Relies on `BytesMut::with_capacity`: an empty buffer (capacity is no content).
#[verifier::external_body]
pub(crate) fn new_buffer(capacity: usize) -> (r: BytesMut)
    requires
        allocatable(capacity as nat),
    ensures
        buffered(r) == Seq::<u8>::empty(),
{
    BytesMut::with_capacity(capacity)
}

/// Relies on `BufMut::put_u8` for `BytesMut`: appends the byte.
#[verifier::external_body]
pub(crate) fn put_u8(b: &mut BytesMut, n: u8)
    requires
        allocatable(buffered(*old(b)).len() + 1),
    ensures
        buffered(*final(b)) == buffered(*old(b)).push(n),
{
    b.put_u8(n)
}

/// Relies on `BufMut::put_u16_le` for `BytesMut`: appends `n.to_le_bytes()`.
#[verifier::external_body]
pub(crate) fn put_u16_le(b: &mut BytesMut, n: u16)
    requires
        allocatable(buffered(*old(b)).len() + 2),
    ensures
        buffered(*final(b)) == buffered(*old(b)) + le_u16(n),
{
    b.put_u16_le(n)
}

/// Relies on `BufMut::put_u32_le` for `BytesMut`: appends `n.to_le_bytes()`.
#[verifier::external_body]
pub(crate) fn put_u32_le(b: &mut BytesMut, n: u32)
    requires
        allocatable(buffered(*old(b)).len() + 4),
    ensures
        buffered(*final(b)) == buffered(*old(b)) + le_u32(n),
{
    b.put_u32_le(n)
}

/// Relies on `BufMut::put_i32_le` for `BytesMut`: appends `n.to_le_bytes()`.
#[verifier::external_body]
pub(crate) fn put_i32_le(b: &mut BytesMut, n: i32)
    requires
        allocatable(buffered(*old(b)).len() + 4),
    ensures
        buffered(*final(b)) == buffered(*old(b)) + le_i32(n),
{
    b.put_i32_le(n)
}

/// Relies on `BufMut::put_i64_le` for `BytesMut`: appends `n.to_le_bytes()`.
#[verifier::external_body]
pub(crate) fn put_i64_le(b: &mut BytesMut, n: i64)
    requires
        allocatable(buffered(*old(b)).len() + 8),
    ensures
        buffered(*final(b)) == buffered(*old(b)) + le_i64(n),
{
    b.put_i64_le(n)
}

/// Relies on `BufMut::put_slice` for `BytesMut` (`extend_from_slice`): appends the slice.
#[verifier::external_body]
pub(crate) fn put_slice(b: &mut BytesMut, src: &[u8])
    requires
        allocatable(buffered(*old(b)).len() + src@.len()),
    ensures
        buffered(*final(b)) == buffered(*old(b)) + src@,
{
    b.put_slice(src)
}

/// Relies on `BytesMut::freeze`: the same bytes, now immutable.
#[verifier::external_body]
pub(crate) fn freeze(b: BytesMut) -> (r: Bytes)
    ensures
        frozen(r) == buffered(b),
{
    b.freeze()
}

} // verus!
