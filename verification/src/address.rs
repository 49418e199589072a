//! The two checksum-protected external encodings: the P2PKH address of
//! a public key and the WIF form of a private key, both Base58Check.

use vstd::prelude::*;
use crate::base58::{b58_encodes, base58_encode, lemma_b58_unique};
use crate::bytevals::bytes_to_vec;
use crate::digests::{hash160, hash256, spec_hash160, spec_hash256};

verus! {

/// The P2PKH payload: version byte 0x00, the short digest of the public
/// key, and a 4-byte checksum over the versioned part.
pub open spec fn p2pkh_payload(pub_bytes: Seq<u8>) -> Seq<u8> {
    let versioned = seq![0u8] + spec_hash160(pub_bytes);
    versioned + spec_hash256(versioned).take(4)
}

/// The WIF payload: version byte 0x80, the raw key, the compression
/// flag 0x01, and a 4-byte checksum over the versioned part.
pub open spec fn wif_payload(key_bytes: Seq<u8>) -> Seq<u8> {
    let versioned = seq![0x80u8] + key_bytes + seq![0x01u8];
    versioned + spec_hash256(versioned).take(4)
}

/// Appends a byte slice to a vector.
fn append_bytes(v: &mut Vec<u8>, b: &[u8])
    ensures
        final(v)@ == old(v)@ + b@,
{
    let mut i: usize = 0;
    while i < b.len()
        invariant
            0 <= i <= b@.len(),
            v@ =~= old(v)@ + b@.take(i as int),
        decreases b@.len() - i,
    {
        v.push(b[i]);
        proof {
            assert(v@ =~= old(v)@ + b@.take(i + 1));
        }
        i = i + 1;
    }
    proof {
        assert(b@.take(b@.len() as int) =~= b@);
    }
}

/// Appends the first four bytes of the double digest of `v` to `v`.
fn append_checksum(v: &mut Vec<u8>)
    requires
        old(v)@.len() >= 1,
    ensures
        final(v)@ == old(v)@ + spec_hash256(old(v)@).take(4),
{
    let digest = hash256(v.as_slice());
    let mut i: usize = 0;
    while i < 4
        invariant
            0 <= i <= 4,
            digest@ == spec_hash256(old(v)@) && digest@.len() == 32,
            v@ =~= old(v)@ + digest@.take(i as int),
        decreases 4 - i,
    {
        v.push(digest[i]);
        proof {
            assert(v@ =~= old(v)@ + digest@.take(i + 1));
        }
        i = i + 1;
    }
}

/// The Base58Check P2PKH address of a (compressed) public-key
/// serialization: version 0x00, its short digest, and the checksum.
pub fn p2pkh(pub_bytes: &[u8]) -> (r: String)
    ensures
        b58_encodes(p2pkh_payload(pub_bytes@), r@),
{
    let mut payload: Vec<u8> = Vec::new();
    payload.push(0u8);
    let h = hash160(pub_bytes);
    append_bytes(&mut payload, h.as_slice());
    proof {
        assert(payload@ =~= seq![0u8] + spec_hash160(pub_bytes@));
    }
    append_checksum(&mut payload);
    proof {
        assert(payload@ =~= p2pkh_payload(pub_bytes@));
    }
    base58_encode(payload.as_slice())
}

/// The Base58Check WIF encoding of raw private-key bytes: version 0x80,
/// the key, the compression flag 0x01, and the checksum.
pub fn wif(key_bytes: &[u8]) -> (r: String)
    ensures
        b58_encodes(wif_payload(key_bytes@), r@),
{
    let mut payload: Vec<u8> = Vec::new();
    payload.push(0x80u8);
    append_bytes(&mut payload, key_bytes);
    payload.push(0x01u8);
    proof {
        assert(payload@ =~= seq![0x80u8] + key_bytes@ + seq![0x01u8]);
    }
    append_checksum(&mut payload);
    proof {
        assert(payload@ =~= wif_payload(key_bytes@));
    }
    base58_encode(payload.as_slice())
}

/// Base58Check round trip for addresses: the payload a Base58 decoder
/// recovers from a generated P2PKH address is the generated payload,
/// and its trailing 4 bytes equal the first 4 bytes of the double
/// digest of the 21 bytes before them. The digest lengths are the ones
/// every digest call establishes.
pub proof fn lemma_p2pkh_checksum(pub_bytes: Seq<u8>, addr: Seq<char>, decoded: Seq<u8>)
    requires
        b58_encodes(p2pkh_payload(pub_bytes), addr),
        b58_encodes(decoded, addr),
        spec_hash160(pub_bytes).len() == 20,
        spec_hash256(seq![0u8] + spec_hash160(pub_bytes)).len() == 32,
    ensures
        decoded =~= p2pkh_payload(pub_bytes),
        decoded.len() == 25,
        decoded.skip(21) =~= spec_hash256(decoded.take(21)).take(4),
{
    lemma_b58_unique(decoded, p2pkh_payload(pub_bytes), addr);
    let versioned = seq![0u8] + spec_hash160(pub_bytes);
    assert(versioned.len() == 21);
    assert(decoded.take(21) =~= versioned);
    assert(decoded.skip(21) =~= spec_hash256(versioned).take(4));
}

/// Base58Check round trip for WIF strings: the payload a Base58 decoder
/// recovers from a generated WIF encoding of a 32-byte key is the
/// generated payload, whose trailing 4 bytes equal the first 4 bytes of
/// the double digest of the 34 bytes before them.
pub proof fn lemma_wif_checksum(key_bytes: Seq<u8>, s: Seq<char>, decoded: Seq<u8>)
    requires
        b58_encodes(wif_payload(key_bytes), s),
        b58_encodes(decoded, s),
        key_bytes.len() == 32,
        spec_hash256(seq![0x80u8] + key_bytes + seq![0x01u8]).len() == 32,
    ensures
        decoded =~= wif_payload(key_bytes),
        decoded.len() == 38,
        decoded.skip(34) =~= spec_hash256(decoded.take(34)).take(4),
{
    lemma_b58_unique(decoded, wif_payload(key_bytes), s);
    let versioned = seq![0x80u8] + key_bytes + seq![0x01u8];
    assert(versioned.len() == 34);
    assert(decoded.take(34) =~= versioned);
    assert(decoded.skip(34) =~= spec_hash256(versioned).take(4));
}

} // verus!
