//! The byte buffers of the `bytes` crate, as the library uses them.
//!
//! `Bytes` and `BytesMut` are held as opaque values; what they hold is
//! named by [`bytes_view`] and [`bytes_mut_view`], and each method the
//! library calls has a wrapper below whose contract states, over those
//! names, what the method does to the contents.
use bytes::{Buf, BufMut, Bytes, BytesMut};
use vstd::prelude::*;

verus! {

/// `bytes::Bytes`, held opaque.
#[verifier::external_type_specification]
#[verifier::external_body]
pub struct ExBytes(Bytes);

/// `bytes::BytesMut`, held opaque.
#[verifier::external_type_specification]
#[verifier::external_body]
pub struct ExBytesMut(BytesMut);

/// The bytes held by a `Bytes`.
pub uninterp spec fn bytes_view(b: Bytes) -> Seq<u8>;

/// The bytes held by a `BytesMut`.
pub uninterp spec fn bytes_mut_view(b: BytesMut) -> Seq<u8>;

/// `Bytes::from(Vec<u8>)`: takes over the vector; holds its bytes.
#[verifier::external_body]
pub(crate) fn bytes_from_vec(v: Vec<u8>) -> (r: Bytes)
    ensures
        bytes_view(r) == v@,
{
    Bytes::from(v)
}

/// `Bytes::copy_from_slice`: a `Bytes` holding a copy of the slice.
#[verifier::external_body]
pub(crate) fn bytes_copy_from_slice(s: &[u8]) -> (r: Bytes)
    ensures
        bytes_view(r) == s@,
{
    Bytes::copy_from_slice(s)
}

/// `Bytes::clone`: another handle on the same bytes.
#[verifier::external_body]
pub(crate) fn bytes_clone(b: &Bytes) -> (r: Bytes)
    ensures
        bytes_view(r) == bytes_view(*b),
{
    b.clone()
}

/// `<[u8]>::to_vec` on the slice a `Bytes` dereferences to: a copy of its bytes.
#[verifier::external_body]
pub(crate) fn bytes_to_vec(b: &Bytes) -> (r: Vec<u8>)
    ensures
        r@ == bytes_view(*b),
{
    b.to_vec()
}

/// `BytesMut::new`: an empty buffer.
#[verifier::external_body]
pub(crate) fn bytes_mut_new() -> (r: BytesMut)
    ensures
        bytes_mut_view(r) == Seq::<u8>::empty(),
{
    BytesMut::new()
}

/// `BytesMut::with_capacity`: an empty buffer; the capacity is not modelled.
/// It panics for a capacity beyond `isize::MAX`.
#[verifier::external_body]
pub(crate) fn bytes_mut_with_capacity(cap: usize) -> (r: BytesMut)
    requires
        cap <= isize::MAX,
    ensures
        bytes_mut_view(r) == Seq::<u8>::empty(),
{
    BytesMut::with_capacity(cap)
}

/// `BytesMut::from(&[u8])`: a buffer holding a copy of the slice.
#[verifier::external_body]
pub(crate) fn bytes_mut_from_slice(s: &[u8]) -> (r: BytesMut)
    ensures
        bytes_mut_view(r) == s@,
{
    BytesMut::from(s)
}

/// `Buf::remaining` of a `BytesMut`: its length.
#[verifier::external_body]
pub(crate) fn bytes_mut_remaining(b: &BytesMut) -> (r: usize)
    ensures
        r == bytes_mut_view(*b).len(),
{
    b.remaining()
}

/// `Buf::copy_to_bytes` of a `BytesMut`: splits off and returns the first
/// `n` bytes. It panics when fewer than `n` bytes are held.
#[verifier::external_body]
pub(crate) fn bytes_mut_copy_to_bytes(b: &mut BytesMut, n: usize) -> (r: Bytes)
    requires
        n <= bytes_mut_view(*old(b)).len(),
    ensures
        bytes_view(r) == bytes_mut_view(*old(b)).take(n as int),
        bytes_mut_view(*final(b)) == bytes_mut_view(*old(b)).skip(n as int),
{
    b.copy_to_bytes(n)
}

/// `BufMut::put_slice` of a `BytesMut`: appends the slice. Running out of
/// memory, as for any growing buffer, is left unsaid.
#[verifier::external_body]
pub(crate) fn bytes_mut_put_slice(b: &mut BytesMut, s: &[u8])
    ensures
        bytes_mut_view(*final(b)) == bytes_mut_view(*old(b)) + s@,
{
    b.put_slice(s)
}

/// `BufMut::put_u8` of a `BytesMut`: appends one byte. Running out of
/// memory is left unsaid.
#[verifier::external_body]
pub(crate) fn bytes_mut_put_u8(b: &mut BytesMut, x: u8)
    ensures
        bytes_mut_view(*final(b)) == bytes_mut_view(*old(b)).push(x),
{
    b.put_u8(x)
}

/// `BytesMut::freeze`: a `Bytes` holding the same bytes.
#[verifier::external_body]
pub(crate) fn bytes_mut_freeze(b: BytesMut) -> (r: Bytes)
    ensures
        bytes_view(r) == bytes_mut_view(b),
{
    b.freeze()
}

/// `Bytes::len`: the number of bytes held.
#[verifier::external_body]
pub(crate) fn bytes_len(b: &Bytes) -> (r: usize)
    ensures
        r == bytes_view(*b).len(),
{
    b.len()
}

/// The slice a `Bytes` dereferences to: the bytes held.
#[verifier::external_body]
pub(crate) fn bytes_as_slice(b: &Bytes) -> (r: &[u8])
    ensures
        r@ == bytes_view(*b),
{
    b.as_ref()
}

/// The slice a `BytesMut` dereferences to: the bytes held.
#[verifier::external_body]
pub(crate) fn bytes_mut_as_slice(b: &BytesMut) -> (r: &[u8])
    ensures
        r@ == bytes_mut_view(*b),
{
    b.as_ref()
}

} // verus!
