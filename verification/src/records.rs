//! The result records of the engine operations, with every byte value
//! rendered in the textual forms callers consume.

use vstd::prelude::*;
use crate::address::{p2pkh, p2pkh_payload, wif, wif_payload};
use crate::base58::b58_encodes;
use crate::digests::{hash256, spec_hash256};
use crate::errors::EngineError;
use crate::keys::{pem_scalar_of, pub_compressed_of, pub_uncompressed_of, PrivateKey};
use crate::signing::{
    pubkey_parses, sig_der_of, sig_der_parses, sign_digest, verifies, verify_digest,
};
use crate::textcodec::{
    b64_matches, base64_encode, debug_bytes, hex_decode, hex_encode, hex_valid,
    spec_debug_bytes, spec_hex, spec_hex_decode,
};

verus! {

/// The public-key record: both serializations in hex, Base64 and raw
/// decimal form, and the P2PKH address.
#[derive(Debug)]
pub struct PubKeyRecord {
    pub uncompressed_hex: String,
    pub uncompressed_b64: String,
    pub uncompressed_raw: String,
    pub compressed_hex: String,
    pub compressed_b64: String,
    pub compressed_raw: String,
    pub p2pkh: String,
}

/// The private-key record: the scalar in hex, Base64 and raw decimal
/// form, and its WIF encoding.
#[derive(Debug)]
pub struct PrvKeyRecord {
    pub hex: String,
    pub b64: String,
    pub raw: String,
    pub wif: String,
}

/// The signing record: the message digest and the signature, in hex.
#[derive(Debug)]
pub struct SignRecord {
    pub digest_hex: String,
    pub signature_hex: String,
}

/// Derives the public key of a PEM-encoded private key and renders
/// every serialization, exactly when the PEM text parses.
pub fn pubkey_record(pem: &str) -> (r: Result<PubKeyRecord, EngineError>)
    ensures
        r.is_ok() == pem_scalar_of(pem@).is_some(),
        r matches Ok(rec) ==> pem_scalar_of(pem@) matches Some(k) && {
            let unc = pub_uncompressed_of(k);
            let comp = pub_compressed_of(k);
            &&& rec.uncompressed_hex@ == spec_hex(unc)
            &&& b64_matches(rec.uncompressed_b64@, unc)
            &&& rec.uncompressed_raw@ == spec_debug_bytes(unc)
            &&& rec.compressed_hex@ == spec_hex(comp)
            &&& b64_matches(rec.compressed_b64@, comp)
            &&& rec.compressed_raw@ == spec_debug_bytes(comp)
            &&& b58_encodes(p2pkh_payload(comp), rec.p2pkh@)
        },
        r matches Err(e) ==> e == EngineError::KeyFormat,
{
    let key = match PrivateKey::from_pem(pem) {
        Ok(key) => key,
        Err(e) => return Err(e),
    };
    let unc = key.public_uncompressed();
    let comp = key.public_compressed();
    Ok(PubKeyRecord {
        uncompressed_hex: hex_encode(unc.as_slice()),
        uncompressed_b64: base64_encode(unc.as_slice()),
        uncompressed_raw: debug_bytes(unc.as_slice()),
        compressed_hex: hex_encode(comp.as_slice()),
        compressed_b64: base64_encode(comp.as_slice()),
        compressed_raw: debug_bytes(comp.as_slice()),
        p2pkh: p2pkh(comp.as_slice()),
    })
}

/// Renders a PEM-encoded private key's scalar and its WIF encoding,
/// exactly when the PEM text parses.
pub fn prvkey_record(pem: &str) -> (r: Result<PrvKeyRecord, EngineError>)
    ensures
        r.is_ok() == pem_scalar_of(pem@).is_some(),
        r matches Ok(rec) ==> pem_scalar_of(pem@) matches Some(k) && {
            &&& rec.hex@ == spec_hex(k)
            &&& b64_matches(rec.b64@, k)
            &&& rec.raw@ == spec_debug_bytes(k)
            &&& b58_encodes(wif_payload(k), rec.wif@)
        },
        r matches Err(e) ==> e == EngineError::KeyFormat,
{
    let key = match PrivateKey::from_pem(pem) {
        Ok(key) => key,
        Err(e) => return Err(e),
    };
    let raw = key.to_bytes();
    Ok(PrvKeyRecord {
        hex: hex_encode(raw.as_slice()),
        b64: base64_encode(raw.as_slice()),
        raw: debug_bytes(raw.as_slice()),
        wif: wif(raw.as_slice()),
    })
}

/// Signs the double digest of a message with a PEM-encoded private key:
/// `KeyFormat` exactly when the PEM text does not parse, `Signing`
/// exactly when the signature computation fails.
pub fn sign_record(pem: &str, msg: &[u8]) -> (r: Result<SignRecord, EngineError>)
    ensures
        r.is_ok() == (pem_scalar_of(pem@) matches Some(k)
            && sig_der_of(k, spec_hash256(msg@)).is_some()),
        r matches Ok(rec) ==> pem_scalar_of(pem@) matches Some(k) && {
            &&& rec.digest_hex@ == spec_hex(spec_hash256(msg@))
            &&& sig_der_of(k, spec_hash256(msg@)) matches Some(s)
                && rec.signature_hex@ == spec_hex(s)
        },
        r matches Err(e) ==> {
            &&& (e == EngineError::KeyFormat || e == EngineError::Signing)
            &&& (e == EngineError::KeyFormat <==> pem_scalar_of(pem@).is_none())
        },
{
    let key = match PrivateKey::from_pem(pem) {
        Ok(key) => key,
        Err(e) => return Err(e),
    };
    let digest = hash256(msg);
    let sig = match sign_digest(&key, digest.as_slice()) {
        Ok(sig) => sig,
        Err(e) => return Err(e),
    };
    Ok(SignRecord {
        digest_hex: hex_encode(digest.as_slice()),
        signature_hex: hex_encode(sig.as_slice()),
    })
}

/// Verifies a hex-encoded signature over the double digest of a message
/// against a hex-encoded public key. `Ok(false)` is a well-formed but
/// non-matching signature; `SignatureFormat` comes exactly when the hex
/// text, the key bytes or the signature bytes do not parse.
pub fn verify_record(msg: &[u8], pubkey_hex: &str, sig_hex: &str) -> (r: Result<
    bool,
    EngineError,
>)
    ensures
        r.is_ok() == {
            &&& hex_valid(pubkey_hex@)
            &&& hex_valid(sig_hex@)
            &&& pubkey_parses(spec_hex_decode(pubkey_hex@))
            &&& sig_der_parses(spec_hex_decode(sig_hex@))
        },
        r matches Ok(b) ==> b == verifies(
            spec_hex_decode(pubkey_hex@),
            spec_hash256(msg@),
            spec_hex_decode(sig_hex@),
        ),
        r matches Err(e) ==> e == EngineError::SignatureFormat,
{
    let pub_bytes = match hex_decode(pubkey_hex) {
        Some(b) => b,
        None => return Err(EngineError::SignatureFormat),
    };
    let sig_bytes = match hex_decode(sig_hex) {
        Some(b) => b,
        None => return Err(EngineError::SignatureFormat),
    };
    let digest = hash256(msg);
    verify_digest(pub_bytes.as_slice(), digest.as_slice(), sig_bytes.as_slice())
}

} // verus!
