//! Random bytes.

use vstd::prelude::*;

verus! {

/// An error of the random number source, carried along as it came.
#[verifier::external_type_specification]
#[verifier::external_body]
pub struct ExRandomError(getrandom::Error);

/// Calls `getrandom::fill`, which fills a buffer from the random number source
/// of the operating system, on a buffer of `count` bytes. Of the bytes nothing
/// is stated but how many they are, since they are random; nor is it stated when
/// the source fails.
#[verifier::external_body]
pub(crate) fn random_bytes(count: usize) -> (bytes: Result<Vec<u8>, getrandom::Error>)
    ensures
        bytes matches Ok(drawn) ==> drawn@.len() == count,
{
    let mut buffer = vec![0u8; count];
    getrandom::fill(&mut buffer)?;
    Ok(buffer)
}

} // verus!
