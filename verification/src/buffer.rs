//! The byte buffers of the `bytes` crate, and what this library relies on of them.
//!
//! Every function here makes one call into `bytes`. Their contracts are not proved: they say, over
//! the contents of a buffer, what the sources of that crate show. As for the collections of the
//! standard library, memory that cannot be had is left aside. That includes the room which a buffer
//! asks for when it grows: up to twice what it has allocated, bytes that were read included.
use bytes::{Buf, BufMut, Bytes, BytesMut};
use vstd::prelude::*;

verus! {

/// The type `bytes::Bytes`: a shared, immutable run of bytes.
#[verifier::external_type_specification]
#[verifier::external_body]
pub struct ExBytes(bytes::Bytes);

/// The type `bytes::BytesMut`: a growable buffer that can be consumed from the front.
#[verifier::external_type_specification]
#[verifier::external_body]
pub struct ExBytesMut(bytes::BytesMut);

/// The bytes that a `Bytes` holds, in order.
pub uninterp spec fn bytes_of(b: Bytes) -> Seq<u8>;

/// The unread bytes that a `BytesMut` holds, in order.
pub uninterp spec fn buffered(b: BytesMut) -> Seq<u8>;

/// The four bytes of `n`, most significant first.
pub open spec fn be_bytes(n: u32) -> Seq<u8> {
    seq![
        (n / 0x100_0000) as u8,
        (n / 0x1_0000 % 0x100) as u8,
        (n / 0x100 % 0x100) as u8,
        (n % 0x100) as u8,
    ]
}

/// `Bytes::len`: the number of bytes held.
#[verifier::external_body]
pub(crate) fn bytes_len(b: &Bytes) -> (r: usize)
    ensures
        r == bytes_of(*b).len(),
{
    b.len()
}

/// `Bytes::new`: holds nothing. It is also what `Bytes::default` returns.
#[verifier::external_body]
pub(crate) fn bytes_empty() -> (r: Bytes)
    ensures
        bytes_of(r) == Seq::<u8>::empty(),
{
    Bytes::new()
}

/// `Bytes::clone`: another handle on the same bytes.
#[verifier::external_body]
pub(crate) fn bytes_clone(b: &Bytes) -> (r: Bytes)
    ensures
        bytes_of(r) == bytes_of(*b),
{
    b.clone()
}

/// `Buf::copy_to_bytes` of a `Bytes`: takes the first `len` bytes out and leaves the rest. It
/// panics where fewer than `len` bytes are held.
#[verifier::external_body]
pub(crate) fn bytes_copy_to_bytes(b: &mut Bytes, len: usize) -> (r: Bytes)
    requires
        len <= bytes_of(*old(b)).len(),
    ensures
        bytes_of(r) == bytes_of(*old(b)).take(len as int),
        bytes_of(*final(b)) == bytes_of(*old(b)).skip(len as int),
{
    b.copy_to_bytes(len)
}

/// `BytesMut::with_capacity`: an empty buffer, whatever the capacity. It panics where the capacity
/// is over `isize::MAX`.
#[verifier::external_body]
pub(crate) fn buffer_with_capacity(capacity: usize) -> (r: BytesMut)
    requires
        capacity <= isize::MAX,
    ensures
        buffered(r) == Seq::<u8>::empty(),
{
    BytesMut::with_capacity(capacity)
}

/// `BytesMut::new`: an empty buffer.
#[verifier::external_body]
pub(crate) fn buffer_new() -> (r: BytesMut)
    ensures
        buffered(r) == Seq::<u8>::empty(),
{
    BytesMut::new()
}

/// `BytesMut::len`: the number of unread bytes.
#[verifier::external_body]
pub(crate) fn buffer_len(b: &BytesMut) -> (r: usize)
    ensures
        r == buffered(*b).len(),
{
    b.len()
}

/// Indexing a `BytesMut`, which goes through its `Deref` to a slice: the byte at a position.
#[verifier::external_body]
pub(crate) fn buffer_at(b: &BytesMut, i: usize) -> (r: u8)
    requires
        i < buffered(*b).len(),
    ensures
        r == buffered(*b)[i as int],
{
    b[i]
}

/// `BytesMut::extend_from_slice` on the slice of a `Bytes`: appends its bytes. A buffer cannot
/// hold more than `isize::MAX` bytes.
#[verifier::external_body]
pub(crate) fn buffer_extend(b: &mut BytesMut, chunk: &Bytes)
    requires
        buffered(*old(b)).len() + bytes_of(*chunk).len() <= isize::MAX,
    ensures
        buffered(*final(b)) == buffered(*old(b)) + bytes_of(*chunk),
{
    b.extend_from_slice(chunk)
}

/// `BufMut::put_u8` of a `BytesMut`: appends one byte.
#[verifier::external_body]
pub(crate) fn buffer_put_u8(b: &mut BytesMut, n: u8)
    requires
        buffered(*old(b)).len() + 1 <= isize::MAX,
    ensures
        buffered(*final(b)) == buffered(*old(b)).push(n),
{
    b.put_u8(n)
}

/// `BufMut::put_u32` of a `BytesMut`: appends the four bytes of `n` in big-endian order.
#[verifier::external_body]
pub(crate) fn buffer_put_u32(b: &mut BytesMut, n: u32)
    requires
        buffered(*old(b)).len() + 4 <= isize::MAX,
    ensures
        buffered(*final(b)) == buffered(*old(b)) + be_bytes(n),
{
    b.put_u32(n)
}

/// `Buf::advance` of a `BytesMut`: drops the first `cnt` bytes. It panics where fewer are held.
#[verifier::external_body]
pub(crate) fn buffer_advance(b: &mut BytesMut, cnt: usize)
    requires
        cnt <= buffered(*old(b)).len(),
    ensures
        buffered(*final(b)) == buffered(*old(b)).skip(cnt as int),
{
    b.advance(cnt)
}

/// `BytesMut::split_to`: takes the first `at` bytes out and leaves the rest. It panics where fewer
/// than `at` bytes are held.
#[verifier::external_body]
pub(crate) fn buffer_split_to(b: &mut BytesMut, at: usize) -> (r: BytesMut)
    requires
        at <= buffered(*old(b)).len(),
    ensures
        buffered(r) == buffered(*old(b)).take(at as int),
        buffered(*final(b)) == buffered(*old(b)).skip(at as int),
{
    b.split_to(at)
}

/// `BytesMut::freeze`: the same bytes, now immutable.
#[verifier::external_body]
pub(crate) fn buffer_freeze(b: BytesMut) -> (r: Bytes)
    ensures
        bytes_of(r) == buffered(b),
{
    b.freeze()
}

} // verus!
