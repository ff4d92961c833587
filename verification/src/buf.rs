//! Byte buffers of the `bytes` crate, as verified code sees them.
//!
//! `Bytes` and `BytesMut` are opaque here. What a buffer holds is named by
//! [`bytes_seq`] and [`bytes_mut_seq`]; the functions below call the crate
//! and say, over those names, what its source shows of each call. None of
//! these contracts is proved.

use bytes::{Buf, BufMut, Bytes, BytesMut};
use vstd::prelude::*;

verus! {

/// `bytes::Bytes`: a shared, immutable byte buffer.
#[verifier::external_type_specification]
#[verifier::external_body]
pub struct ExBytes(bytes::Bytes);

/// `bytes::BytesMut`: a byte buffer that grows as it is written to.
#[verifier::external_type_specification]
#[verifier::external_body]
pub struct ExBytesMut(bytes::BytesMut);

/// The bytes that a `Bytes` holds, from its current position to its end.
pub uninterp spec fn bytes_seq(b: Bytes) -> Seq<u8>;

/// The bytes that a `BytesMut` holds, from its current position to its end.
pub uninterp spec fn bytes_mut_seq(b: BytesMut) -> Seq<u8>;

/// `Bytes::new`: a buffer that holds nothing.
#[verifier::external_body]
pub(crate) fn bytes_new() -> (b: Bytes)
    ensures
        bytes_seq(b) == Seq::<u8>::empty(),
{
    Bytes::new()
}

/// `Bytes::len`: the number of bytes left in the buffer.
#[verifier::external_body]
pub(crate) fn bytes_len(b: &Bytes) -> (n: usize)
    ensures
        n == bytes_seq(*b).len(),
{
    b.len()
}

/// `Buf::get_u8` on `Bytes`: hands out the first byte and moves past it. The
/// crate panics on an empty buffer, which `requires` leaves out.
#[verifier::external_body]
pub(crate) fn bytes_get_u8(b: &mut Bytes) -> (byte: u8)
    requires
        bytes_seq(*old(b)).len() >= 1,
    ensures
        byte == bytes_seq(*old(b))[0],
        bytes_seq(*final(b)) == bytes_seq(*old(b)).skip(1),
{
    b.get_u8()
}

/// `AsRef<[u8]>` for `Bytes`: the bytes left in the buffer, as a slice.
#[verifier::external_body]
pub(crate) fn bytes_as_slice(b: &Bytes) -> (s: &[u8])
    ensures
        s@ == bytes_seq(*b),
{
    b.as_ref()
}

/// `Bytes::copy_from_slice`: a new buffer holding a copy of `data`.
#[verifier::external_body]
pub(crate) fn bytes_copy_from_slice(data: &[u8]) -> (b: Bytes)
    ensures
        bytes_seq(b) == data@,
{
    Bytes::copy_from_slice(data)
}

/// `Clone` for `Bytes`: another handle on the same bytes.
#[verifier::external_body]
pub(crate) fn bytes_clone(b: &Bytes) -> (c: Bytes)
    ensures
        bytes_seq(c) == bytes_seq(*b),
{
    b.clone()
}

/// `From<Bytes>` for `Vec<u8>`: the bytes left in the buffer, as a vector.
#[verifier::external_body]
pub(crate) fn bytes_into_vec(b: Bytes) -> (v: Vec<u8>)
    ensures
        v@ == bytes_seq(b),
{
    Vec::from(b)
}

/// `BytesMut::new`: a buffer that holds nothing.
#[verifier::external_body]
pub(crate) fn bytes_mut_new() -> (b: BytesMut)
    ensures
        bytes_mut_seq(b) == Seq::<u8>::empty(),
{
    BytesMut::new()
}

/// `BufMut::put_u8` on `BytesMut`: appends one byte, growing the buffer as
/// needed. The crate panics where no byte remains of the `isize::MAX` that
/// a buffer can hold.
#[verifier::external_body]
pub(crate) fn bytes_mut_put_u8(b: &mut BytesMut, byte: u8)
    requires
        bytes_mut_seq(*old(b)).len() < isize::MAX,
    ensures
        bytes_mut_seq(*final(b)) == bytes_mut_seq(*old(b)).push(byte),
{
    b.put_u8(byte)
}

/// `BufMut::put_slice` on `BytesMut`: appends `src`, growing the buffer as
/// needed. The crate panics where fewer bytes than `src` has remain of the
/// `isize::MAX` that a buffer can hold.
#[verifier::external_body]
pub(crate) fn bytes_mut_put_slice(b: &mut BytesMut, src: &[u8])
    requires
        bytes_mut_seq(*old(b)).len() + src@.len() <= isize::MAX,
    ensures
        bytes_mut_seq(*final(b)) == bytes_mut_seq(*old(b)) + src@,
{
    b.put_slice(src)
}

/// `BufMut::put` on `BytesMut`, for a `Bytes`: appends what `src` holds. The
/// crate panics where fewer bytes than `src` holds remain of the
/// `isize::MAX` that a buffer can hold.
#[verifier::external_body]
pub(crate) fn bytes_mut_put(b: &mut BytesMut, src: Bytes)
    requires
        bytes_mut_seq(*old(b)).len() + bytes_seq(src).len() <= isize::MAX,
    ensures
        bytes_mut_seq(*final(b)) == bytes_mut_seq(*old(b)) + bytes_seq(src),
{
    b.put(src)
}

/// `BytesMut::freeze`: the bytes that the buffer holds, as an immutable
/// buffer.
#[verifier::external_body]
pub(crate) fn bytes_mut_freeze(b: BytesMut) -> (frozen: Bytes)
    ensures
        bytes_seq(frozen) == bytes_mut_seq(b),
{
    b.freeze()
}

} // verus!
