//! SHA-256 and HMAC-SHA256, as the `sha2` and `hmac` crates compute them.
//!
//! Nothing in this module is proved: each contract below is taken from the
//! source of the crate that does the work.

use hmac::digest::InvalidLength;
use hmac::{Hmac, Mac};
use sha2::{Digest, Sha256};
use vstd::prelude::*;

verus! {

/// The SHA-256 digest of `data`.
pub uninterp spec fn sha256(data: Seq<u8>) -> Seq<u8>;

/// The HMAC-SHA256 authentication code of `data` under `key`.
pub uninterp spec fn hmac_sha256(key: Seq<u8>, data: Seq<u8>) -> Seq<u8>;

/// The error that `hmac` reports for a key of a length it cannot take.
#[verifier::external_type_specification]
#[verifier::external_body]
pub struct ExInvalidLength(InvalidLength);

/// Calls `sha2::Sha256::digest`. The digest depends on the bytes alone and
/// is 32 bytes long, the output size that `sha2` fixes for SHA-256.
#[verifier::external_body]
pub(crate) fn sha256_digest(data: &[u8]) -> (out: Vec<u8>)
    ensures
        out@ == sha256(data@),
        out@.len() == 32,
{
    Sha256::digest(data).to_vec()
}

/// Runs one `hmac::Hmac<Sha256>` over `data`: `new_from_slice`, `update`,
/// `finalize`. The code depends on key and data alone and is 32 bytes long.
/// `new_from_slice` pads a short key and hashes a long one, and has no
/// failing branch for this MAC, so the result is always `Ok`.
#[verifier::external_body]
pub(crate) fn hmac_sha256_code(key: &[u8], data: &[u8]) -> (r: Result<Vec<u8>, InvalidLength>)
    ensures
        r is Ok,
        r matches Ok(code) ==> code@ == hmac_sha256(key@, data@) && code@.len() == 32,
{
    let mut mac = Hmac::<Sha256>::new_from_slice(key)?;
    mac.update(data);
    Ok(mac.finalize().into_bytes().to_vec())
}

} // verus!
