//! End-to-end tests of the engine: digests against published vectors,
//! address encodings, sign/verify round trips, and the vanity search.

use crypto_engine::digests::{hash160, hash160_hex, hash256, hash256_hex};
use crypto_engine::errors::EngineError;
use crypto_engine::keys::PrivateKey;
use crypto_engine::records::{prvkey_record, pubkey_record, sign_record, verify_record};

fn key_one_pem() -> String {
    // The scalar 1, encoded as a SEC1 PEM container.
    let mut bytes = [0u8; 32];
    bytes[31] = 1;
    let sk = k256::SecretKey::from_slice(&bytes).unwrap();
    sk.to_sec1_pem(k256::pkcs8::LineEnding::LF).unwrap().to_string()
}

#[test]
fn double_digest_of_empty_matches_published_vector() {
    assert_eq!(
        hash256_hex(b""),
        "5df6e0e2761359d30a8275058e299fcc0381534545f55cf43e41983f5d4c9456"
    );
}

#[test]
fn short_digest_of_empty_matches_published_vector() {
    assert_eq!(hash160_hex(b""), "b472a266d0bd89c13706a4132ccfb16f7c3b9fcb");
}

#[test]
fn digest_lengths() {
    assert_eq!(hash160(b"abc").len(), 20);
    assert_eq!(hash256(b"abc").len(), 32);
}

#[test]
fn derivation_is_deterministic() {
    let pem = key_one_pem();
    let a = pubkey_record(&pem).unwrap();
    let b = pubkey_record(&pem).unwrap();
    assert_eq!(a.compressed_hex, b.compressed_hex);
    assert_eq!(a.uncompressed_hex, b.uncompressed_hex);
    assert_eq!(a.compressed_b64, b.compressed_b64);
    assert_eq!(a.p2pkh, b.p2pkh);
}

#[test]
fn generator_point_for_scalar_one() {
    let pem = key_one_pem();
    let rec = pubkey_record(&pem).unwrap();
    // The compressed generator point of secp256k1.
    assert_eq!(
        rec.compressed_hex,
        "0279be667ef9dcbbac55a06295ce870b07029bfcdb2dce28d959f2815b16f81798"
    );
    assert!(rec.uncompressed_hex.starts_with(
        "0479be667ef9dcbbac55a06295ce870b07029bfcdb2dce28d959f2815b16f81798"
    ));
    assert_eq!(rec.uncompressed_hex.len(), 130);
}

#[test]
fn known_address_and_wif_for_scalar_one() {
    let pem = key_one_pem();
    let pubrec = pubkey_record(&pem).unwrap();
    let prvrec = prvkey_record(&pem).unwrap();
    // Published vectors for the key whose scalar is 1 (compressed).
    assert_eq!(pubrec.p2pkh, "1BgGZ9tcN4rm9KBzDn7KprQz87SZ26SAMH");
    assert_eq!(
        prvrec.wif,
        "KwDiBf89QgGbjEhKnhXJuH7LrciVrZi3qYjgd9M7rFU73sVHnoWn"
    );
    assert_eq!(
        prvrec.hex,
        "0000000000000000000000000000000000000000000000000000000000000001"
    );
    assert_eq!(prvrec.b64, "AAAAAAAAAAAAAAAAAAAAAAAAAAAAAAAAAAAAAAAAAAE=");
    assert!(prvrec.raw.starts_with("[0, 0, "));
    assert!(prvrec.raw.ends_with(", 1]"));
}

#[test]
fn malformed_pem_is_key_format_error() {
    assert_eq!(pubkey_record("not a pem").unwrap_err(), EngineError::KeyFormat);
    assert_eq!(prvkey_record("not a pem").unwrap_err(), EngineError::KeyFormat);
    assert_eq!(
        sign_record("not a pem", b"msg").unwrap_err(),
        EngineError::KeyFormat
    );
}

#[test]
fn sign_verify_round_trip() {
    let pem = key_one_pem();
    let msg = b"ECDSA proves knowledge of a secret number";
    let signed = sign_record(&pem, msg).unwrap();
    let pubrec = pubkey_record(&pem).unwrap();
    assert_eq!(signed.digest_hex, hash256_hex(msg));
    let ok = verify_record(msg, &pubrec.compressed_hex, &signed.signature_hex).unwrap();
    assert!(ok);
    let ok_unc = verify_record(msg, &pubrec.uncompressed_hex, &signed.signature_hex).unwrap();
    assert!(ok_unc);
}

#[test]
fn verify_rejects_wrong_digest_and_wrong_key() {
    let pem = key_one_pem();
    let msg = b"the signed message";
    let signed = sign_record(&pem, msg).unwrap();
    let pubrec = pubkey_record(&pem).unwrap();
    // Same signature, different message digest.
    let other = verify_record(b"another message", &pubrec.compressed_hex, &signed.signature_hex)
        .unwrap();
    assert!(!other);
    // Same message, different key.
    let mut bytes = [0u8; 32];
    bytes[31] = 2;
    let sk2 = k256::SecretKey::from_slice(&bytes).unwrap();
    let pem2 = sk2.to_sec1_pem(k256::pkcs8::LineEnding::LF).unwrap().to_string();
    let pubrec2 = pubkey_record(&pem2).unwrap();
    let wrong_key = verify_record(msg, &pubrec2.compressed_hex, &signed.signature_hex).unwrap();
    assert!(!wrong_key);
}

#[test]
fn verify_malformed_input_is_signature_format_error() {
    let msg = b"msg";
    // Odd-length hex.
    assert_eq!(
        verify_record(msg, "abc", "3044").unwrap_err(),
        EngineError::SignatureFormat
    );
    // Valid hex, but not a curve point.
    assert_eq!(
        verify_record(msg, "ffff", "3044").unwrap_err(),
        EngineError::SignatureFormat
    );
    // Valid point, signature bytes that are not DER.
    let pem = key_one_pem();
    let pubrec = pubkey_record(&pem).unwrap();
    assert_eq!(
        verify_record(msg, &pubrec.compressed_hex, "deadbeef").unwrap_err(),
        EngineError::SignatureFormat
    );
}

#[test]
fn private_key_scalar_range_is_enforced() {
    assert_eq!(
        PrivateKey::from_bytes(vec![0u8; 32]).unwrap_err(),
        EngineError::KeyFormat
    );
    assert_eq!(
        PrivateKey::from_bytes(vec![0xffu8; 32]).unwrap_err(),
        EngineError::KeyFormat
    );
    assert_eq!(PrivateKey::from_bytes(vec![1u8; 31]).unwrap_err(), EngineError::KeyFormat);
    let mut one = vec![0u8; 32];
    one[31] = 1;
    let key = PrivateKey::from_bytes(one.clone()).unwrap();
    assert_eq!(key.to_bytes(), one);
}
