//! Private-key material: parsing, validity, and public-key derivation.
//!
//! A private key is a 256-bit scalar that must be nonzero and below the
//! secp256k1 group order; anything else is rejected at construction.

use vstd::prelude::*;
use k256::elliptic_curve::pkcs8::DecodePrivateKey;
use k256::elliptic_curve::sec1::ToEncodedPoint;
use crate::bytevals::{be_val, bytes_to_vec};
use crate::errors::EngineError;

verus! {

/// The order of the secp256k1 group.
pub open spec fn secp256k1_order() -> nat {
    0xFFFFFFFFFFFFFFFFFFFFFFFFFFFFFFFEBAAEDCE6AF48A03BBFD25E8CD0364141nat
}

/// A well-formed private-key scalar: 32 big-endian bytes, nonzero, and
/// below the curve order.
pub open spec fn valid_scalar_bytes(k: Seq<u8>) -> bool {
    &&& k.len() == 32
    &&& be_val(k) != 0
    &&& be_val(k) < secp256k1_order()
}

/// The scalar a SEC1 or PKCS#8 PEM private-key container holds, if the
/// text parses; a function of the text alone.
pub uninterp spec fn pem_scalar_of(pem: Seq<char>) -> Option<Seq<u8>>;

/// The SEC1 uncompressed serialization (marker byte 0x04, then both
/// coordinates) of the public point of a scalar.
pub uninterp spec fn pub_uncompressed_of(k: Seq<u8>) -> Seq<u8>;

/// The SEC1 compressed serialization (parity marker byte, then the x
/// coordinate) of the public point of a scalar.
pub uninterp spec fn pub_compressed_of(k: Seq<u8>) -> Seq<u8>;

/// Relies on k256::SecretKey::from_sec1_pem and from_pkcs8_pem, then
/// to_bytes: parsing an EC private-key PEM container is a function of
/// the text alone, and an accepted key is a nonzero scalar below the
/// curve order, returned as 32 big-endian bytes.
#[verifier::external_body]
fn pem_to_scalar(pem: &str) -> (r: Option<Vec<u8>>)
    ensures
        r.is_some() == pem_scalar_of(pem@).is_some(),
        r matches Some(k) ==> Some(k@) == pem_scalar_of(pem@) && valid_scalar_bytes(k@),
{
    k256::SecretKey::from_sec1_pem(pem)
        .or_else(|_| k256::SecretKey::from_pkcs8_pem(pem))
        .map(|sk| sk.to_bytes().to_vec())
        .ok()
}

/// Relies on k256::SecretKey::from_slice: a 32-byte big-endian scalar is
/// accepted exactly when it is nonzero and below the curve order.
#[verifier::external_body]
fn scalar_is_valid(k: &[u8]) -> (r: bool)
    requires
        k@.len() == 32,
    ensures
        r == valid_scalar_bytes(k@),
{
    k256::SecretKey::from_slice(k).is_ok()
}

/// Relies on k256::SecretKey::public_key and to_encoded_point(false):
/// the 65-byte uncompressed SEC1 serialization, marker byte 0x04, a
/// function of the scalar alone.
#[verifier::external_body]
fn derive_uncompressed(k: &[u8]) -> (r: Vec<u8>)
    requires
        valid_scalar_bytes(k@),
    ensures
        r@ == pub_uncompressed_of(k@),
        r@.len() == 65,
        r@[0] == 4u8,
{
    match k256::SecretKey::from_slice(k) {
        Ok(sk) => sk.public_key().to_encoded_point(false).as_bytes().to_vec(),
        Err(_) => Vec::new(),
    }
}

/// Relies on k256::SecretKey::public_key and to_encoded_point(true):
/// the 33-byte compressed SEC1 serialization, marker byte 0x02 or 0x03,
/// a function of the scalar alone.
#[verifier::external_body]
fn derive_compressed(k: &[u8]) -> (r: Vec<u8>)
    requires
        valid_scalar_bytes(k@),
    ensures
        r@ == pub_compressed_of(k@),
        r@.len() == 33,
        r@[0] == 2u8 || r@[0] == 3u8,
{
    match k256::SecretKey::from_slice(k) {
        Ok(sk) => sk.public_key().to_encoded_point(true).as_bytes().to_vec(),
        Err(_) => Vec::new(),
    }
}

/// A validated private-key scalar.
#[derive(Debug)]
pub struct PrivateKey {
    bytes: Vec<u8>,
}

impl PrivateKey {
    /// The scalar as 32 big-endian bytes.
    pub closed spec fn scalar(self) -> Seq<u8> {
        self.bytes@
    }

    /// Constructors only produce keys whose scalar is well formed.
    pub open spec fn wf(self) -> bool {
        valid_scalar_bytes(self.scalar())
    }

    /// Parses a PEM-encoded EC private key; rejects a malformed
    /// container with `KeyFormat`.
    pub fn from_pem(pem: &str) -> (r: Result<PrivateKey, EngineError>)
        ensures
            r.is_ok() == pem_scalar_of(pem@).is_some(),
            r matches Ok(k) ==> k.wf() && Some(k.scalar()) == pem_scalar_of(pem@),
            r matches Err(e) ==> e == EngineError::KeyFormat,
    {
        match pem_to_scalar(pem) {
            Some(bytes) => Ok(PrivateKey { bytes }),
            None => Err(EngineError::KeyFormat),
        }
    }

    /// Accepts exactly the 32-byte scalars that are nonzero and below
    /// the curve order; anything else is `KeyFormat`.
    pub fn from_bytes(bytes: Vec<u8>) -> (r: Result<PrivateKey, EngineError>)
        ensures
            r.is_ok() == valid_scalar_bytes(bytes@),
            r matches Ok(k) ==> k.wf() && k.scalar() == bytes@,
            r matches Err(e) ==> e == EngineError::KeyFormat,
    {
        if bytes.len() != 32 {
            return Err(EngineError::KeyFormat);
        }
        if scalar_is_valid(bytes.as_slice()) {
            Ok(PrivateKey { bytes })
        } else {
            Err(EngineError::KeyFormat)
        }
    }

    /// The fixed-width big-endian scalar encoding.
    pub fn to_bytes(&self) -> (r: Vec<u8>)
        ensures
            r@ == self.scalar(),
    {
        bytes_to_vec(self.bytes.as_slice())
    }

    /// Borrows the scalar bytes.
    pub fn as_bytes(&self) -> (r: &[u8])
        ensures
            r@ == self.scalar(),
    {
        self.bytes.as_slice()
    }

    /// The uncompressed public-key serialization of this key. Its
    /// contract makes derivation deterministic: two calls on equal
    /// scalars return identical bytes.
    pub fn public_uncompressed(&self) -> (r: Vec<u8>)
        requires
            self.wf(),
        ensures
            r@ == pub_uncompressed_of(self.scalar()),
            r@.len() == 65,
            r@[0] == 4u8,
    {
        derive_uncompressed(self.bytes.as_slice())
    }

    /// The compressed public-key serialization of this key; equally
    /// deterministic.
    pub fn public_compressed(&self) -> (r: Vec<u8>)
        requires
            self.wf(),
        ensures
            r@ == pub_compressed_of(self.scalar()),
            r@.len() == 33,
            r@[0] == 2u8 || r@[0] == 3u8,
    {
        derive_compressed(self.bytes.as_slice())
    }
}

/// Serializing a derived public key is deterministic: any two
/// serializations of keys with the same scalar agree, in both formats.
pub proof fn lemma_serialization_deterministic(k1: PrivateKey, k2: PrivateKey)
    requires
        k1.scalar() == k2.scalar(),
    ensures
        pub_compressed_of(k1.scalar()) == pub_compressed_of(k2.scalar()),
        pub_uncompressed_of(k1.scalar()) == pub_uncompressed_of(k2.scalar()),
{
}

} // verus!
