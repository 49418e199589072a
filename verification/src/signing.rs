//! ECDSA signing and verification over 32-byte message digests.
//!
//! Signing uses the deterministic RFC 6979 nonce, so a signature is a
//! function of the scalar and the digest alone; verification is a pure
//! predicate over public-key bytes, digest and signature bytes.

use vstd::prelude::*;
use k256::ecdsa::signature::hazmat::{PrehashSigner, PrehashVerifier};
use crate::errors::EngineError;
use crate::keys::{
    valid_scalar_bytes, pub_compressed_of, pub_uncompressed_of, PrivateKey,
};

verus! {

/// The DER-encoded RFC 6979 ECDSA signature of a digest under a scalar,
/// `None` where signing fails; a function of the two inputs alone.
pub uninterp spec fn sig_der_of(k: Seq<u8>, digest: Seq<u8>) -> Option<Seq<u8>>;

/// Whether SEC1 public-key bytes parse as a curve point.
pub uninterp spec fn pubkey_parses(pub_bytes: Seq<u8>) -> bool;

/// Whether signature bytes parse as a DER `(r, s)` pair.
pub uninterp spec fn sig_der_parses(sig: Seq<u8>) -> bool;

/// Whether a parsed signature passes ECDSA verification against a
/// parsed public key and a 32-byte digest.
pub uninterp spec fn verifies(pub_bytes: Seq<u8>, digest: Seq<u8>, sig: Seq<u8>) -> bool;

/// Relies on k256::ecdsa::SigningKey::sign_prehash (RFC 6979) and
/// Signature::to_der: deterministic in the scalar and digest; a
/// produced signature verifies under the corresponding public key in
/// either SEC1 serialization.
#[verifier::external_body]
fn ecdsa_sign_der(k: &[u8], digest: &[u8]) -> (r: Option<Vec<u8>>)
    requires
        valid_scalar_bytes(k@),
        digest@.len() == 32,
    ensures
        r.is_some() == sig_der_of(k@, digest@).is_some(),
        r matches Some(s) ==> {
            &&& Some(s@) == sig_der_of(k@, digest@)
            &&& sig_der_parses(s@)
            &&& verifies(pub_compressed_of(k@), digest@, s@)
            &&& verifies(pub_uncompressed_of(k@), digest@, s@)
        },
{
    let sk = match k256::ecdsa::SigningKey::from_slice(k) {
        Ok(sk) => sk,
        Err(_) => return None,
    };
    let sig: k256::ecdsa::Signature = match sk.sign_prehash(digest) {
        Ok(sig) => sig,
        Err(_) => return None,
    };
    Some(sig.to_der().as_bytes().to_vec())
}

/// Relies on k256::ecdsa::VerifyingKey::from_sec1_bytes,
/// Signature::from_der and verify_prehash: parsing either input fails
/// exactly on malformed bytes, and verification of parsed inputs is a
/// pure predicate of the three byte strings.
#[verifier::external_body]
fn ecdsa_verify(pub_bytes: &[u8], digest: &[u8], sig: &[u8]) -> (r: Result<bool, EngineError>)
    requires
        digest@.len() == 32,
    ensures
        r.is_ok() == (pubkey_parses(pub_bytes@) && sig_der_parses(sig@)),
        r matches Ok(b) ==> b == verifies(pub_bytes@, digest@, sig@),
        r matches Err(e) ==> e == EngineError::SignatureFormat,
{
    let vk = match k256::ecdsa::VerifyingKey::from_sec1_bytes(pub_bytes) {
        Ok(vk) => vk,
        Err(_) => return Err(EngineError::SignatureFormat),
    };
    let parsed = match k256::ecdsa::Signature::from_der(sig) {
        Ok(parsed) => parsed,
        Err(_) => return Err(EngineError::SignatureFormat),
    };
    Ok(vk.verify_prehash(digest, &parsed).is_ok())
}

/// Signs a 32-byte digest with a private key. A produced signature
/// verifies against both serializations of the derived public key for
/// this digest (the sign/verify round trip); a wrong digest length is
/// `Signing`, as is an internal signing failure.
pub fn sign_digest(key: &PrivateKey, digest: &[u8]) -> (r: Result<Vec<u8>, EngineError>)
    requires
        key.wf(),
    ensures
        digest@.len() == 32 ==> r.is_ok() == sig_der_of(key.scalar(), digest@).is_some(),
        r matches Ok(s) ==> {
            &&& digest@.len() == 32
            &&& Some(s@) == sig_der_of(key.scalar(), digest@)
            &&& sig_der_parses(s@)
            &&& verifies(pub_compressed_of(key.scalar()), digest@, s@)
            &&& verifies(pub_uncompressed_of(key.scalar()), digest@, s@)
        },
        r matches Err(e) ==> e == EngineError::Signing,
{
    if digest.len() != 32 {
        return Err(EngineError::Signing);
    }
    match ecdsa_sign_der(key.as_bytes(), digest) {
        Some(s) => Ok(s),
        None => Err(EngineError::Signing),
    }
}

/// Verifies a signature against SEC1 public-key bytes and a 32-byte
/// digest. `Ok(false)` is a well-formed but non-matching signature;
/// `SignatureFormat` comes exactly when the key or signature bytes do
/// not parse.
pub fn verify_digest(pub_bytes: &[u8], digest: &[u8], sig: &[u8]) -> (r: Result<
    bool,
    EngineError,
>)
    requires
        digest@.len() == 32,
    ensures
        r.is_ok() <==> pubkey_parses(pub_bytes@) && sig_der_parses(sig@),
        r matches Ok(b) ==> b == verifies(pub_bytes@, digest@, sig@),
        r matches Err(e) ==> e == EngineError::SignatureFormat,
{
    ecdsa_verify(pub_bytes, digest, sig)
}

} // verus!
