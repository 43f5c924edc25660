//! Byte buffers of the `bytes` crate: a growing one to write frames into, and
//! slices to read them from.
use bytes::{Buf, BufMut, BytesMut};
use vstd::prelude::*;

use crate::wire::{be_bytes, be_value};

verus! {

/// The most bytes that a buffer is asked to hold. A buffer at most doubles its
/// allocation when it grows, and no allocation exceeds half the address space.
pub const MAX_BUFFER_LEN: usize = usize::MAX / 4;

/// The growing buffer of the `bytes` crate.
#[verifier::external_type_specification]
#[verifier::external_body]
pub struct ExBytesMut(BytesMut);

/// The bytes that a buffer holds.
pub uninterp spec fn written(buf: BytesMut) -> Seq<u8>;

/// `BytesMut::new`: a new buffer holds nothing.
#[verifier::external_body]
pub(crate) fn new_buffer() -> (buf: BytesMut)
    ensures
        written(buf) == Seq::<u8>::empty(),
{
    BytesMut::new()
}

/// `BufMut::put_slice` on `BytesMut` appends the bytes of the slice.
#[verifier::external_body]
pub(crate) fn put_slice(buf: &mut BytesMut, src: &[u8])
    requires
        written(*old(buf)).len() + src@.len() <= MAX_BUFFER_LEN,
    ensures
        written(*final(buf)) == written(*old(buf)) + src@,
{
    buf.put_slice(src)
}

/// `BufMut::put_u8` on `BytesMut` appends one byte.
#[verifier::external_body]
pub(crate) fn put_u8(buf: &mut BytesMut, n: u8)
    requires
        written(*old(buf)).len() + 1 <= MAX_BUFFER_LEN,
    ensures
        written(*final(buf)) == written(*old(buf)).push(n),
{
    buf.put_u8(n)
}

/// `BufMut::put_u16` on `BytesMut` appends two bytes, most significant first.
#[verifier::external_body]
pub(crate) fn put_u16(buf: &mut BytesMut, n: u16)
    requires
        written(*old(buf)).len() + 2 <= MAX_BUFFER_LEN,
    ensures
        written(*final(buf)) == written(*old(buf)) + be_bytes(n as nat, 2),
{
    buf.put_u16(n)
}

/// `BufMut::put_u32` on `BytesMut` appends four bytes, most significant first.
#[verifier::external_body]
pub(crate) fn put_u32(buf: &mut BytesMut, n: u32)
    requires
        written(*old(buf)).len() + 4 <= MAX_BUFFER_LEN,
    ensures
        written(*final(buf)) == written(*old(buf)) + be_bytes(n as nat, 4),
{
    buf.put_u32(n)
}

/// `to_vec` through the `Deref` of `BytesMut` copies the bytes that it holds.
#[verifier::external_body]
pub(crate) fn to_vec(buf: &BytesMut) -> (bytes: Vec<u8>)
    ensures
        bytes@ == written(*buf),
{
    buf.to_vec()
}

/// `Buf::remaining` on a slice is the slice's length.
#[verifier::external_body]
pub(crate) fn remaining(buf: &&[u8]) -> (n: usize)
    ensures
        n == buf@.len(),
{
    buf.remaining()
}

/// `Buf::advance` on a slice drops bytes from its front. It panics when there
/// are too few.
#[verifier::external_body]
pub(crate) fn advance(buf: &mut &[u8], n: usize)
    requires
        n <= old(buf)@.len(),
    ensures
        final(buf)@ == old(buf)@.skip(n as int),
{
    buf.advance(n)
}

/// `Buf::get_u8` on a slice reads one byte and drops it. It panics when there
/// is none.
#[verifier::external_body]
pub(crate) fn get_u8(buf: &mut &[u8]) -> (n: u8)
    requires
        old(buf)@.len() >= 1,
    ensures
        n == old(buf)@[0],
        final(buf)@ == old(buf)@.skip(1),
{
    buf.get_u8()
}

/// `Buf::get_u16` on a slice reads two bytes, most significant first, and drops
/// them. It panics when there are fewer.
#[verifier::external_body]
pub(crate) fn get_u16(buf: &mut &[u8]) -> (n: u16)
    requires
        old(buf)@.len() >= 2,
    ensures
        n as nat == be_value(old(buf)@.take(2)),
        final(buf)@ == old(buf)@.skip(2),
{
    buf.get_u16()
}

/// `Buf::get_u32` on a slice reads four bytes, most significant first, and
/// drops them. It panics when there are fewer.
#[verifier::external_body]
pub(crate) fn get_u32(buf: &mut &[u8]) -> (n: u32)
    requires
        old(buf)@.len() >= 4,
    ensures
        n as nat == be_value(old(buf)@.take(4)),
        final(buf)@ == old(buf)@.skip(4),
{
    buf.get_u32()
}

} // verus!
