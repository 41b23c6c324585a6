//! The byte buffers of the `bytes` crate, as the codec uses them.
//!
//! Verus cannot look inside a `Bytes` or a `BytesMut`. What each holds is
//! named by a spec function, and every call into the crate goes through one
//! of the functions below, whose contract is taken on trust from the crate's
//! source.

use bytes::{Buf, BufMut, Bytes, BytesMut};
use vstd::prelude::*;

verus! {

/// `bytes::Bytes`, a read-only buffer with a cursor. Nothing is claimed of
/// what is inside it but through `contents`.
#[verifier::external_type_specification]
#[verifier::external_body]
pub struct ExBytes(bytes::Bytes);

/// `bytes::BytesMut`, a buffer that grows as bytes are put into it.
/// Nothing is claimed of what is inside it but through `written`.
#[verifier::external_type_specification]
#[verifier::external_body]
pub struct ExBytesMut(bytes::BytesMut);

/// The bytes that a `Bytes` holds, from its cursor to its end.
pub uninterp spec fn contents(b: Bytes) -> Seq<u8>;

/// The bytes written so far into a `BytesMut`.
pub uninterp spec fn written(b: BytesMut) -> Seq<u8>;

/// The longest buffer that can be allocated.
pub open spec fn max_len() -> int {
    isize::MAX as int
}

/// The number that two bytes spell in network byte order.
pub open spec fn be16(hi: u8, lo: u8) -> u16 {
    (hi as int * 256 + lo as int) as u16
}

/// The two bytes that spell a number in network byte order.
pub open spec fn be16_bytes(n: u16) -> Seq<u8> {
    seq![(n / 256) as u8, (n % 256) as u8]
}

/// `Bytes::len`: the number of bytes between the cursor and the end.
#[verifier::external_body]
pub(crate) fn len(b: &Bytes) -> (n: usize)
    ensures
        n == contents(*b).len(),
{
    b.len()
}

/// `Bytes::as_ref`: the bytes between the cursor and the end, as a slice.
#[verifier::external_body]
pub(crate) fn as_slice(b: &Bytes) -> (s: &[u8])
    ensures
        s@ == contents(*b),
{
    b.as_ref()
}

/// `Buf::get_u16` on a `Bytes`: reads the first two bytes as a big-endian
/// number and moves the cursor past them. The call panics on fewer than two
/// bytes, which the precondition excludes.
#[verifier::external_body]
pub(crate) fn get_u16(b: &mut Bytes) -> (n: u16)
    requires
        contents(*old(b)).len() >= 2,
    ensures
        n == be16(contents(*old(b))[0], contents(*old(b))[1]),
        contents(*final(b)) == contents(*old(b)).skip(2),
{
    b.get_u16()
}

/// `BytesMut::new`: an empty buffer.
#[verifier::external_body]
pub(crate) fn new_buffer() -> (b: BytesMut)
    ensures
        written(b) == Seq::<u8>::empty(),
{
    BytesMut::new()
}

/// `BufMut::put_u8` on a `BytesMut`: appends one byte.
#[verifier::external_body]
pub(crate) fn put_u8(b: &mut BytesMut, n: u8)
    requires
        written(*old(b)).len() + 1 <= max_len(),
    ensures
        written(*final(b)) == written(*old(b)).push(n),
{
    b.put_u8(n)
}

/// `BufMut::put_u16` on a `BytesMut`: appends a number as two bytes in
/// network byte order.
#[verifier::external_body]
pub(crate) fn put_u16(b: &mut BytesMut, n: u16)
    requires
        written(*old(b)).len() + 2 <= max_len(),
    ensures
        written(*final(b)) == written(*old(b)) + be16_bytes(n),
{
    b.put_u16(n)
}

/// `BufMut::put` on a `BytesMut`, with a slice as the source: appends the
/// slice. The buffer grows as needed, up to the allocation limit.
#[verifier::external_body]
pub(crate) fn put(b: &mut BytesMut, src: &[u8])
    requires
        written(*old(b)).len() + src@.len() <= max_len(),
    ensures
        written(*final(b)) == written(*old(b)) + src@,
{
    b.put(src)
}

/// `BytesMut::freeze`: the same bytes, read-only.
#[verifier::external_body]
pub(crate) fn freeze(b: BytesMut) -> (r: Bytes)
    ensures
        contents(r) == written(b),
{
    b.freeze()
}

} // verus!
