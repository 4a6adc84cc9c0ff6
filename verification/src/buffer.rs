//! Shared byte buffers: the `Bytes` type of the `bytes` crate.
use bytes::Bytes;
use vstd::prelude::*;

verus! {

/// Declares `bytes::Bytes`, an immutable buffer of bytes.
#[verifier::external_type_specification]
#[verifier::external_body]
pub struct ExBytes(Bytes);

/// The bytes that a buffer holds, in order.
pub uninterp spec fn octets(buffer: Bytes) -> Seq<u8>;

/// Calls `Bytes::new`: a buffer without bytes.
#[verifier::external_body]
pub(crate) fn empty_buffer() -> (r: Bytes)
    ensures
        octets(r) == Seq::<u8>::empty(),
{
    Bytes::new()
}

/// Calls `Bytes`'s `From<Vec<u8>>`: the buffer holds the bytes of the vector.
#[verifier::external_body]
pub(crate) fn buffer_from_vec(bytes: Vec<u8>) -> (r: Bytes)
    ensures
        octets(r) == bytes@,
{
    Bytes::from(bytes)
}

/// Calls `Bytes`'s `Clone::clone`: another handle on the same bytes.
#[verifier::external_body]
pub(crate) fn share_buffer(buffer: &Bytes) -> (r: Bytes)
    ensures
        octets(r) == octets(*buffer),
{
    buffer.clone()
}

/// Calls `Bytes::len`: the number of bytes.
#[verifier::external_body]
pub(crate) fn buffer_len(buffer: &Bytes) -> (r: usize)
    ensures
        r == octets(*buffer).len(),
{
    buffer.len()
}

/// Calls `Bytes::is_empty`: whether the buffer holds no byte.
#[verifier::external_body]
pub(crate) fn buffer_is_empty(buffer: &Bytes) -> (r: bool)
    ensures
        r == (octets(*buffer).len() == 0),
{
    buffer.is_empty()
}

/// Calls `Bytes`'s `AsRef<[u8]>::as_ref`: the bytes as a slice.
#[verifier::external_body]
pub(crate) fn buffer_as_slice(buffer: &Bytes) -> (r: &[u8])
    ensures
        r@ == octets(*buffer),
{
    buffer.as_ref()
}

} // verus!
