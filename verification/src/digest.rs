//! Streaming SHA-256, as the `sha2` crate computes it.
//!
//! The hash function itself is not modelled: [`sha256_of`] names the digest of
//! a message, and [`absorbed`] names the bytes a hasher has taken in so far.

use sha2::Digest;
use vstd::prelude::*;

verus! {

/// A SHA-256 computation in progress, held by the `sha2` crate.
#[verifier::external_body]
pub struct Sha256Stream {
    inner: sha2::Sha256,
}

/// The bytes that `stream` has absorbed since it was created, in order.
pub uninterp spec fn absorbed(stream: Sha256Stream) -> Seq<u8>;

/// The SHA-256 digest of `message`.
pub uninterp spec fn sha256_of(message: Seq<u8>) -> Seq<u8>;

/// `sha2::Sha256::new`: a fresh hasher has absorbed nothing.
#[verifier::external_body]
pub(crate) fn sha256_new() -> (stream: Sha256Stream)
    ensures
        absorbed(stream) == Seq::<u8>::empty(),
{
    Sha256Stream { inner: sha2::Sha256::new() }
}

/// `sha2::Digest::update`: the bytes handed in follow the bytes already
/// absorbed.
#[verifier::external_body]
pub(crate) fn sha256_update(stream: &mut Sha256Stream, data: &[u8])
    ensures
        absorbed(*final(stream)) == absorbed(*old(stream)) + data@,
{
    stream.inner.update(data);
}

/// `sha2::Digest::finalize`: the digest depends on the absorbed bytes alone.
#[verifier::external_body]
pub(crate) fn sha256_finalize(stream: Sha256Stream) -> (digest: [u8; 32])
    ensures
        digest@ == sha256_of(absorbed(stream)),
{
    stream.inner.finalize().into()
}

} // verus!
