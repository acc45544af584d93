//! The byte buffer that the framed codecs read from and write to.
//!
//! `bytes::BytesMut` is kept as it is; its contents are named by
//! [`bytes_view`], and each method that the codecs call has a trusted wrapper
//! that states what the method does to the contents.

use vstd::prelude::*;

verus! {

/// `bytes::BytesMut`, carried through verified code as an opaque value.
#[verifier::external_type_specification]
#[verifier::external_body]
pub struct ExBytesMut(bytes::BytesMut);

/// The bytes that a `BytesMut` currently holds (its `[0, len)` region).
pub uninterp spec fn bytes_view(b: bytes::BytesMut) -> Seq<u8>;

/// `BytesMut::len`: the number of bytes held.
#[verifier::external_body]
pub(crate) fn bytes_len(b: &bytes::BytesMut) -> (n: usize)
    ensures
        n == bytes_view(*b).len(),
{
    b.len()
}

/// `BytesMut::reserve`: grows the capacity, leaving the held bytes unchanged.
/// The crate panics when the new capacity overflows; the bound here keeps the
/// request within the largest allocation.
#[verifier::external_body]
pub(crate) fn bytes_reserve(b: &mut bytes::BytesMut, additional: usize)
    requires
        bytes_view(*old(b)).len() + additional <= isize::MAX,
    ensures
        bytes_view(*final(b)) == bytes_view(*old(b)),
{
    b.reserve(additional)
}

/// `BufMut::put_u32` on a `BytesMut`: appends the four big-endian bytes of `n`.
#[verifier::external_body]
pub(crate) fn bytes_put_u32(b: &mut bytes::BytesMut, n: u32)
    requires
        bytes_view(*old(b)).len() + 4 <= isize::MAX,
    ensures
        bytes_view(*final(b)) == bytes_view(*old(b)) + seq![
            (n / 16777216) as u8,
            ((n / 65536) % 256) as u8,
            ((n / 256) % 256) as u8,
            (n % 256) as u8,
        ],
{
    bytes::BufMut::put_u32(b, n)
}

/// `BytesMut::extend_from_slice`: appends `s`.
#[verifier::external_body]
pub(crate) fn bytes_extend_from_slice(b: &mut bytes::BytesMut, s: &[u8])
    requires
        bytes_view(*old(b)).len() + s@.len() <= isize::MAX,
    ensures
        bytes_view(*final(b)) == bytes_view(*old(b)) + s@,
{
    b.extend_from_slice(s)
}

/// `BytesMut::split_to`: hands out the first `at` bytes and keeps the rest.
/// The crate panics when `at` exceeds the length.
#[verifier::external_body]
pub(crate) fn bytes_split_to(b: &mut bytes::BytesMut, at: usize) -> (head: bytes::BytesMut)
    requires
        at <= bytes_view(*old(b)).len(),
    ensures
        bytes_view(head) == bytes_view(*old(b)).take(at as int),
        bytes_view(*final(b)) == bytes_view(*old(b)).skip(at as int),
{
    b.split_to(at)
}

/// Indexing a `BytesMut` through its slice view: the byte at position `i`.
#[verifier::external_body]
pub(crate) fn bytes_index(b: &bytes::BytesMut, i: usize) -> (v: u8)
    requires
        i < bytes_view(*b).len(),
    ensures
        v == bytes_view(*b)[i as int],
{
    b[i]
}

/// `From<BytesMut> for Vec<u8>`: the held bytes as a vector.
#[verifier::external_body]
pub(crate) fn bytes_into_vec(b: bytes::BytesMut) -> (v: Vec<u8>)
    ensures
        v@ == bytes_view(b),
{
    Vec::from(b)
}

} // verus!
