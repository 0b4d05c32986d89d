//! The byte buffers that frames and messages are read from and written to,
//! and what this library relies on of them.
//!
//! `BytesMut` and `Bytes` are opaque to the verifier. Their contents are
//! named by [`buffered`] and [`frozen`], and every operation the library
//! performs on one goes through a function of this module whose contract
//! is taken on trust from the `bytes` crate.

use bytes::{Buf, BufMut, Bytes, BytesMut};
use vstd::prelude::*;

verus! {

/// `bytes::BytesMut`, a growable byte buffer, as a type that the verifier
/// carries through without looking inside.
#[verifier::external_type_specification]
#[verifier::external_body]
pub struct ExBytesMut(bytes::BytesMut);

/// `bytes::Bytes`, an immutable byte buffer, as a type that the verifier
/// carries through without looking inside.
#[verifier::external_type_specification]
#[verifier::external_body]
pub struct ExBytes(bytes::Bytes);

/// The bytes that a `BytesMut` holds, front first.
pub uninterp spec fn buffered(b: BytesMut) -> Seq<u8>;

/// The bytes that a `Bytes` holds, front first.
pub uninterp spec fn frozen(b: Bytes) -> Seq<u8>;

/// The big-endian bytes of a 16-bit value.
pub open spec fn be16(n: u16) -> Seq<u8> {
    seq![(n >> 8) as u8, (n & 0xFF) as u8]
}

/// The 16-bit value that two bytes spell, most significant first.
pub open spec fn from_be16(s: Seq<u8>) -> u16
    recommends
        s.len() == 2,
{
    ((s[0] as u16) << 8) | (s[1] as u16)
}

/// The big-endian bytes of a 64-bit value.
pub open spec fn be64(n: u64) -> Seq<u8> {
    seq![
        (n >> 56) as u8,
        ((n >> 48) & 0xFF) as u8,
        ((n >> 40) & 0xFF) as u8,
        ((n >> 32) & 0xFF) as u8,
        ((n >> 24) & 0xFF) as u8,
        ((n >> 16) & 0xFF) as u8,
        ((n >> 8) & 0xFF) as u8,
        (n & 0xFF) as u8,
    ]
}

/// The 64-bit value that eight bytes spell, most significant first.
pub open spec fn from_be64(s: Seq<u8>) -> u64
    recommends
        s.len() == 8,
{
    ((s[0] as u64) << 56) | ((s[1] as u64) << 48) | ((s[2] as u64) << 40) | ((s[3] as u64) << 32)
        | ((s[4] as u64) << 24) | ((s[5] as u64) << 16) | ((s[6] as u64) << 8) | (s[7] as u64)
}

/// `BytesMut::new`: a buffer that holds nothing.
#[verifier::external_body]
pub(crate) fn new_buffer() -> (b: BytesMut)
    ensures
        buffered(b) == Seq::<u8>::empty(),
{
    BytesMut::new()
}

/// `BytesMut::len`: the number of bytes held.
#[verifier::external_body]
pub(crate) fn buffer_len(b: &BytesMut) -> (n: usize)
    ensures
        n == buffered(*b).len(),
{
    b.len()
}

/// `Buf::get_u8` on a `BytesMut`: hands out the first byte and removes it.
/// The call panics on an empty buffer, which `requires` rules out.
#[verifier::external_body]
pub(crate) fn take_u8(b: &mut BytesMut) -> (byte: u8)
    requires
        buffered(*old(b)).len() >= 1,
    ensures
        byte == buffered(*old(b))[0],
        buffered(*final(b)) == buffered(*old(b)).skip(1),
{
    b.get_u8()
}

/// `Buf::get_u16` on a `BytesMut`: reads the first two bytes as a big-endian
/// value and removes them. The call panics on fewer than two bytes.
#[verifier::external_body]
pub(crate) fn take_u16(b: &mut BytesMut) -> (n: u16)
    requires
        buffered(*old(b)).len() >= 2,
    ensures
        n == from_be16(buffered(*old(b)).take(2)),
        buffered(*final(b)) == buffered(*old(b)).skip(2),
{
    b.get_u16()
}

/// `Buf::get_u64` on a `BytesMut`: reads the first eight bytes as a
/// big-endian value and removes them. The call panics on fewer than eight.
#[verifier::external_body]
pub(crate) fn take_u64(b: &mut BytesMut) -> (n: u64)
    requires
        buffered(*old(b)).len() >= 8,
    ensures
        n == from_be64(buffered(*old(b)).take(8)),
        buffered(*final(b)) == buffered(*old(b)).skip(8),
{
    b.get_u64()
}

/// `BufMut::put_u8` on a `BytesMut`: appends one byte, growing the buffer.
#[verifier::external_body]
pub(crate) fn put_u8(b: &mut BytesMut, byte: u8)
    ensures
        buffered(*final(b)) == buffered(*old(b)).push(byte),
{
    b.put_u8(byte)
}

/// `BufMut::put_u16` on a `BytesMut`: appends the two big-endian bytes of `n`.
#[verifier::external_body]
pub(crate) fn put_u16(b: &mut BytesMut, n: u16)
    ensures
        buffered(*final(b)) == buffered(*old(b)) + be16(n),
{
    b.put_u16(n)
}

/// `BufMut::put_u64` on a `BytesMut`: appends the eight big-endian bytes of `n`.
#[verifier::external_body]
pub(crate) fn put_u64(b: &mut BytesMut, n: u64)
    ensures
        buffered(*final(b)) == buffered(*old(b)) + be64(n),
{
    b.put_u64(n)
}

/// `BufMut::put_slice` on a `BytesMut`: appends the bytes of `src` in order.
#[verifier::external_body]
pub(crate) fn put_slice(b: &mut BytesMut, src: &[u8])
    ensures
        buffered(*final(b)) == buffered(*old(b)) + src@,
{
    b.put_slice(src)
}

/// `BytesMut::split`: hands out everything held and leaves the buffer empty.
#[verifier::external_body]
pub(crate) fn split_off_all(b: &mut BytesMut) -> (taken: BytesMut)
    ensures
        buffered(taken) == buffered(*old(b)),
        buffered(*final(b)) == Seq::<u8>::empty(),
{
    b.split()
}

/// `BytesMut::freeze`: the same bytes, no longer writable.
#[verifier::external_body]
pub(crate) fn freeze(b: BytesMut) -> (f: Bytes)
    ensures
        frozen(f) == buffered(b),
{
    b.freeze()
}

/// The `Deref` of a `BytesMut`: its bytes as a slice.
#[verifier::external_body]
pub(crate) fn buffer_slice(b: &BytesMut) -> (s: &[u8])
    ensures
        s@ == buffered(*b),
{
    &b[..]
}

/// The `Deref` of a `Bytes`: its bytes as a slice.
#[verifier::external_body]
pub(crate) fn frozen_slice(b: &Bytes) -> (s: &[u8])
    ensures
        s@ == frozen(*b),
{
    &b[..]
}

/// `Bytes::clone`: a second handle on the same bytes.
#[verifier::external_body]
pub(crate) fn clone_frozen(b: &Bytes) -> (c: Bytes)
    ensures
        frozen(c) == frozen(*b),
{
    b.clone()
}

/// `Bytes::from` on a `String`: the UTF-8 bytes of the text.
#[verifier::external_body]
pub(crate) fn bytes_of_string(text: String) -> (b: Bytes)
    ensures
        frozen(b) == vstd::utf8::encode_utf8(text@),
{
    Bytes::from(text)
}

} // verus!
