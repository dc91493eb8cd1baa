//! The byte containers of the `bytes` crate, as far as the bus uses them.
//!
//! `Bytes` carries payloads and replies; `BytesMut` is the inbound buffer of
//! a connection. Verus does not look inside either. What they hold is named
//! here, and each call that the bus makes is given a contract over those
//! names. The contracts in this file are believed, not proved.

use bytes::{Buf, Bytes, BytesMut};
use vstd::prelude::*;
use vstd::utf8::encode_utf8;

verus! {

/// An immutable, cheaply cloned run of bytes. Opaque; what it holds is
/// [`bytes_content`].
#[verifier::external_type_specification]
#[verifier::external_body]
pub struct ExBytes(bytes::Bytes);

/// A growable run of bytes. Opaque; what it holds is [`buffer_content`].
#[verifier::external_type_specification]
#[verifier::external_body]
pub struct ExBytesMut(bytes::BytesMut);

/// The bytes that an immutable `Bytes` holds, first to last.
pub uninterp spec fn bytes_content(b: Bytes) -> Seq<u8>;

/// The bytes that a growable `BytesMut` holds, first to last.
pub uninterp spec fn buffer_content(b: BytesMut) -> Seq<u8>;

/// `Bytes::clone`: a second handle on the same bytes.
pub assume_specification[ <Bytes as Clone>::clone ](b: &Bytes) -> (copy: Bytes)
    ensures
        bytes_content(copy) == bytes_content(*b),
;

/// `Bytes::len`: the number of bytes held.
#[verifier::external_body]
pub(crate) fn bytes_len(b: &Bytes) -> (n: usize)
    ensures
        n == bytes_content(*b).len(),
{
    b.len()
}

/// `Bytes::as_ref`: the held bytes as a slice.
#[verifier::external_body]
pub(crate) fn bytes_as_slice(b: &Bytes) -> (s: &[u8])
    ensures
        s@ == bytes_content(*b),
{
    b.as_ref()
}

/// `Bytes::from(String)`: takes over the string's bytes, which are its
/// UTF-8 encoding.
#[verifier::external_body]
pub(crate) fn bytes_from_string(s: String) -> (b: Bytes)
    ensures
        bytes_content(b) == encode_utf8(s@),
{
    Bytes::from(s)
}

/// `BytesMut::with_capacity`: an empty buffer. The capacity only sizes the
/// first allocation, which std refuses above `isize::MAX` bytes.
#[verifier::external_body]
pub(crate) fn buffer_with_capacity(capacity: usize) -> (b: BytesMut)
    requires
        capacity <= isize::MAX,
    ensures
        buffer_content(b) == Seq::<u8>::empty(),
{
    BytesMut::with_capacity(capacity)
}

/// `BytesMut::from(&[u8])`: a buffer holding a copy of the slice.
#[verifier::external_body]
pub(crate) fn buffer_from_slice(src: &[u8]) -> (b: BytesMut)
    ensures
        buffer_content(b) == src@,
{
    BytesMut::from(src)
}

/// `BytesMut::freeze`: the same bytes, now immutable.
#[verifier::external_body]
pub(crate) fn buffer_freeze(b: BytesMut) -> (frozen: Bytes)
    ensures
        bytes_content(frozen) == buffer_content(b),
{
    b.freeze()
}

/// `BytesMut::len`: the number of bytes held.
#[verifier::external_body]
pub(crate) fn buffer_len(b: &BytesMut) -> (n: usize)
    ensures
        n == buffer_content(*b).len(),
{
    b.len()
}

/// `BytesMut::as_ref`: the held bytes as a slice.
#[verifier::external_body]
pub(crate) fn buffer_as_slice(b: &BytesMut) -> (s: &[u8])
    ensures
        s@ == buffer_content(*b),
{
    b.as_ref()
}

/// `Buf::advance` on a `BytesMut`: drops the first `cnt` bytes. The crate
/// panics when asked to drop more than it holds.
#[verifier::external_body]
pub(crate) fn buffer_advance(b: &mut BytesMut, cnt: usize)
    requires
        cnt <= buffer_content(*old(b)).len(),
    ensures
        buffer_content(*final(b)) == buffer_content(*old(b)).skip(cnt as int),
{
    b.advance(cnt)
}

/// `BytesMut::extend_from_slice`: appends a copy of the slice. The crate
/// panics when the new length cannot be allocated.
#[verifier::external_body]
pub(crate) fn buffer_extend(b: &mut BytesMut, extend: &[u8])
    requires
        buffer_content(*old(b)).len() + extend@.len() <= isize::MAX,
    ensures
        buffer_content(*final(b)) == buffer_content(*old(b)) + extend@,
{
    b.extend_from_slice(extend)
}

} // verus!
