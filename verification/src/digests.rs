//! The two digest pipelines: a short commitment digest
//! (RIPEMD-160 over SHA-256) and a double-round message digest
//! (SHA-256 over SHA-256).

use vstd::prelude::*;
use crate::textcodec::{hex_encode, spec_hex};

verus! {

/// The SHA-256 digest of a byte sequence. 32 bytes; stated nowhere on
/// given values, only applied by the trusted wrapper below.
pub uninterp spec fn sha256_of(data: Seq<u8>) -> Seq<u8>;

/// The RIPEMD-160 digest of a byte sequence. 20 bytes.
pub uninterp spec fn ripemd160_of(data: Seq<u8>) -> Seq<u8>;

/// Relies on sha2::Sha256 (FIPS 180-4): a 32-byte digest that depends on
/// the input bytes alone.
#[verifier::external_body]
fn sha256(data: &[u8]) -> (r: Vec<u8>)
    ensures
        r@ == sha256_of(data@),
        r@.len() == 32,
{
    <sha2::Sha256 as sha2::Digest>::digest(data).to_vec()
}

/// Relies on ripemd::Ripemd160 (ISO/IEC 10118-3): a 20-byte digest that
/// depends on the input bytes alone.
#[verifier::external_body]
fn ripemd160(data: &[u8]) -> (r: Vec<u8>)
    ensures
        r@ == ripemd160_of(data@),
        r@.len() == 20,
{
    <ripemd::Ripemd160 as ripemd::Digest>::digest(data).to_vec()
}

/// The short commitment digest used for address derivation.
pub open spec fn spec_hash160(data: Seq<u8>) -> Seq<u8> {
    ripemd160_of(sha256_of(data))
}

/// The double-round message digest used for checksums and signing.
pub open spec fn spec_hash256(data: Seq<u8>) -> Seq<u8> {
    sha256_of(sha256_of(data))
}

/// `RIPEMD160(SHA256(data))`: the 20-byte short commitment digest.
pub fn hash160(data: &[u8]) -> (r: Vec<u8>)
    ensures
        r@ == spec_hash160(data@),
        r@.len() == 20,
{
    let first = sha256(data);
    ripemd160(first.as_slice())
}

/// `SHA256(SHA256(data))`: the 32-byte double-round digest.
pub fn hash256(data: &[u8]) -> (r: Vec<u8>)
    ensures
        r@ == spec_hash256(data@),
        r@.len() == 32,
{
    let first = sha256(data);
    sha256(first.as_slice())
}

/// The short commitment digest, rendered as lowercase hex.
pub fn hash160_hex(data: &[u8]) -> (r: String)
    ensures
        r@ == spec_hex(spec_hash160(data@)),
{
    let d = hash160(data);
    hex_encode(d.as_slice())
}

/// The double-round digest, rendered as lowercase hex.
pub fn hash256_hex(data: &[u8]) -> (r: String)
    ensures
        r@ == spec_hex(spec_hash256(data@)),
{
    let d = hash256(data);
    hex_encode(d.as_slice())
}

} // verus!
