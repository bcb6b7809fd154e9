//! SHA-256 through the SGX trusted crypto library.
use vstd::prelude::*;

verus! {

/// The SHA-256 digest that the SGX crypto library computes for a message.
pub uninterp spec fn sgx_sha256_digest(data: Seq<u8>) -> Seq<u8>;

/// Hashes `data` with `sgx_tcrypto::rsgx_sha256_slice`, `None` where that
/// function returns an error.
///
/// Trusted: a digest, when there is one, is `sgx_sha256_digest` of the
/// message and holds 32 bytes (the function returns an `sgx_sha256_hash_t`,
/// a `[u8; 32]`); an empty message, or one longer than `u32::MAX` bytes,
/// gets no digest. Whether the SDK's C routine fails on other messages is
/// not stated: it depends on that library, not on the message.
#[verifier::external_body]
pub(crate) fn sha256(data: &[u8]) -> (res: Option<Vec<u8>>)
    ensures
        res matches Some(h) ==> h@ == sgx_sha256_digest(data@) && h@.len() == 32,
        data@.len() == 0 ==> res is None,
        data@.len() > u32::MAX ==> res is None,
{
    match sgx_tcrypto::rsgx_sha256_slice(data) {
        Ok(h) => Some(h.to_vec()),
        Err(_) => None,
    }
}

} // verus!
