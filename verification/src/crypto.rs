//! Digests and keys.

use vstd::prelude::*;
use hmac::{Hmac, Mac};
use hkdf::Hkdf;
use sha2::{Digest, Sha256};

verus! {

/// The SHA-256 digest of a byte string.
pub uninterp spec fn sha256_digest(data: Seq<u8>) -> Seq<u8>;

/// `sha2::Sha256::digest`. Its result is a function of the data and 32 bytes long.
#[verifier::external_body]
pub(crate) fn sha256(data: &[u8]) -> (digest: Vec<u8>)
    ensures
        digest@ == sha256_digest(data@),
        digest@.len() == 32,
{
    Sha256::digest(data).to_vec()
}

/// The key of 42 bytes that HKDF over SHA-256 derives from a salt, input key material and a context.
pub uninterp spec fn hkdf_sha256(salt: Seq<u8>, ikm: Seq<u8>, info: Seq<u8>) -> Seq<u8>;

/// `hkdf::Hkdf::<Sha256>::new` and `expand` into 42 bytes. The key is a function of the three
/// arguments; 42 bytes are within what the algorithm can give.
#[verifier::external_body]
pub(crate) fn hkdf_expand(salt: &[u8], ikm: &[u8], info: &[u8]) -> (key: [u8; 42])
    ensures
        key@ == hkdf_sha256(salt@, ikm@, info@),
{
    let mut key = [0u8; 42];
    Hkdf::<Sha256>::new(Some(salt), ikm).expand(info, &mut key).expect("42 bytes can be derived");
    key
}

/// The authentication code of HMAC over SHA-256.
pub uninterp spec fn hmac_sha256(key: Seq<u8>, data: Seq<u8>) -> Seq<u8>;

/// `hmac::Hmac::<Sha256>` with a key of any length, updated once and finalized. The code is a
/// function of key and data and 32 bytes long.
#[verifier::external_body]
pub(crate) fn hmac_code(key: &[u8], data: &[u8]) -> (code: Vec<u8>)
    ensures
        code@ == hmac_sha256(key@, data@),
        code@.len() == 32,
{
    let mut mac = Hmac::<Sha256>::new_from_slice(key).expect("a key of any length is accepted");
    mac.update(data);
    mac.finalize().into_bytes().to_vec()
}

} // verus!
