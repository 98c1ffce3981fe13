//! The trusted interface to the `bytes` crate's shared byte container.
//!
//! A [`bytes::Bytes`] value is a cheaply cloneable, reference-counted chunk
//! of bytes; the transport hands received fragments to this crate in that
//! form, and takes outbound frames back in it. The container is opaque here:
//! [`bytes_view`] names the byte sequence it holds, and the few operations
//! the engine needs are wrapped below with contracts over that view.

use vstd::prelude::*;

use bytes::Bytes;

verus! {

#[verifier::external_type_specification]
#[verifier::external_body]
pub struct ExBytes(Bytes);

/// The sequence of bytes a [`bytes::Bytes`] container holds.
pub uninterp spec fn bytes_view(b: Bytes) -> Seq<u8>;

/// The byte sequences a sequence of chunks holds, chunk by chunk.
pub open spec fn spec_chunk_views(chunks: Seq<Bytes>) -> Seq<Seq<u8>> {
    chunks.map_values(|b: Bytes| bytes_view(b))
}

/// Relies on `bytes::Bytes::len`: the length of the held byte slice.
#[verifier::external_body]
pub(crate) fn bytes_len(b: &Bytes) -> (n: usize)
    ensures
        n == bytes_view(*b).len(),
{
    b.len()
}

/// Relies on `From<Vec<u8>> for bytes::Bytes`: the container takes over
/// exactly the vector's bytes.
#[verifier::external_body]
pub(crate) fn bytes_from_vec(v: Vec<u8>) -> (b: Bytes)
    ensures
        bytes_view(b) == v@,
{
    Bytes::from(v)
}

/// Relies on `bytes::Bytes`'s deref to a byte slice: `b[start..end]` is that
/// range of the held bytes, in bounds by the precondition.
#[verifier::external_body]
pub(crate) fn bytes_range_to_vec(b: &Bytes, start: usize, end: usize) -> (v: Vec<u8>)
    requires
        start <= end <= bytes_view(*b).len(),
    ensures
        v@ == bytes_view(*b).subrange(start as int, end as int),
{
    b[start..end].to_vec()
}

} // verus!
