//! The byte buffer of the framer: `bytes::BytesMut`, and what is known of the
//! methods that the framer calls on it.
//!
//! Nothing here is proved. A buffer is opaque to the verifier; `contents`
//! names the bytes that it holds, and each item below states, in terms of
//! that name, what the `bytes` crate documents of one of its methods.

use bytes::{Buf, Bytes, BytesMut};
use vstd::prelude::*;

verus! {

/// `bytes::BytesMut`, a growable buffer of bytes. Nothing is known of its
/// fields.
#[verifier::external_type_specification]
#[verifier::external_body]
pub struct ExBytesMut(BytesMut);

/// `bytes::Bytes`, an immutable chunk of bytes. Nothing is known of its
/// fields.
#[verifier::external_type_specification]
#[verifier::external_body]
pub struct ExBytes(Bytes);

/// The bytes that a buffer holds, first to last.
pub uninterp spec fn contents(buffer: &BytesMut) -> Seq<u8>;

/// The bytes that an immutable chunk of bytes holds, first to last.
pub uninterp spec fn payload(chunk: &Bytes) -> Seq<u8>;

/// `BytesMut::new`: a buffer that holds no bytes.
pub assume_specification[ BytesMut::new ]() -> (buffer: BytesMut)
    ensures
        contents(&buffer) == Seq::<u8>::empty(),
;

/// `BytesMut::len`: the number of bytes that the buffer holds.
pub assume_specification[ BytesMut::len ](buffer: &BytesMut) -> (len: usize)
    ensures
        len == contents(buffer).len(),
;

/// `BytesMut::extend_from_slice`: the bytes of the slice are appended to the
/// buffer.
pub assume_specification[ BytesMut::extend_from_slice ](buffer: &mut BytesMut, extend: &[u8])
    ensures
        contents(final(buffer)) == contents(old(buffer)) + extend@,
;

/// `Extend::<u8>::extend` of `BytesMut`, called with a `Bytes`, which
/// iterates over its bytes in order: they are appended to the buffer.
#[verifier::external_body]
pub(crate) fn buffer_extend(buffer: &mut BytesMut, chunk: Bytes)
    ensures
        contents(final(buffer)) == contents(old(buffer)) + payload(&chunk),
{
    buffer.extend(chunk)
}

/// `Buf::advance` of `BytesMut`: the first `cnt` bytes leave the buffer. It
/// panics if the buffer holds fewer.
pub assume_specification[ <BytesMut as Buf>::advance ](buffer: &mut BytesMut, cnt: usize)
    requires
        cnt <= contents(old(buffer)).len(),
    ensures
        contents(final(buffer)) == contents(old(buffer)).skip(cnt as int),
;

/// `BytesMut::split_to`: afterwards the buffer holds the bytes from index
/// `at` on, and the buffer returned holds the bytes before it. It panics if
/// `at` is beyond the end.
pub assume_specification[ BytesMut::split_to ](buffer: &mut BytesMut, at: usize) -> (head:
    BytesMut)
    requires
        at <= contents(old(buffer)).len(),
    ensures
        contents(&head) == contents(old(buffer)).take(at as int),
        contents(final(buffer)) == contents(old(buffer)).skip(at as int),
;

/// Indexing a `BytesMut` by a range, through its `Deref` to a slice: the
/// bytes from index `start` up to, not including, index `end`.
#[verifier::external_body]
pub(crate) fn buffer_range(buffer: &BytesMut, start: usize, end: usize) -> (span: &[u8])
    requires
        start <= end <= contents(buffer).len(),
    ensures
        span@ == contents(buffer).subrange(start as int, end as int),
{
    &buffer[start..end]
}

} // verus!
