//! Tests of the textual codecs and the Base58Check structure: encoding
//! vectors, and the checksum round trip on generated addresses.

use crypto_engine::address::{p2pkh, wif};
use crypto_engine::base58::{base58_decode, base58_encode};
use crypto_engine::digests::hash256;
use crypto_engine::textcodec::{base64_encode, debug_bytes, hex_decode, hex_encode};

/// A plain reference Base58 decoder for checking the library's output:
/// counts leading ones, then rebuilds the big-endian payload bytes.
fn base58_decode_ref(s: &str) -> Option<Vec<u8>> {
    const ALPHABET: &str = "123456789ABCDEFGHJKLMNPQRSTUVWXYZabcdefghijkmnopqrstuvwxyz";
    let mut zeros = 0usize;
    let chars: Vec<char> = s.chars().collect();
    while zeros < chars.len() && chars[zeros] == '1' {
        zeros += 1;
    }
    let mut bytes: Vec<u8> = Vec::new();
    for &c in &chars[zeros..] {
        let d = ALPHABET.find(c)? as u32;
        let mut carry = d;
        for b in bytes.iter_mut() {
            let cur = (*b as u32) * 58 + carry;
            *b = (cur % 256) as u8;
            carry = cur / 256;
        }
        while carry > 0 {
            bytes.push((carry % 256) as u8);
            carry /= 256;
        }
    }
    let mut out = vec![0u8; zeros];
    out.extend(bytes.iter().rev());
    Some(out)
}

#[test]
fn hex_encode_vectors() {
    assert_eq!(hex_encode(b""), "");
    assert_eq!(hex_encode(&[0xde, 0xad, 0xbe, 0xef]), "deadbeef");
    assert_eq!(hex_encode(&[0x00, 0x0f]), "000f");
}

#[test]
fn hex_decode_vectors() {
    assert_eq!(hex_decode("deadbeef"), Some(vec![0xde, 0xad, 0xbe, 0xef]));
    assert_eq!(hex_decode("DEADbeef"), Some(vec![0xde, 0xad, 0xbe, 0xef]));
    assert_eq!(hex_decode(""), Some(vec![]));
    assert_eq!(hex_decode("abc"), None);
    assert_eq!(hex_decode("zz"), None);
}

#[test]
fn base64_encode_vectors() {
    assert_eq!(base64_encode(b""), "");
    assert_eq!(base64_encode(b"f"), "Zg==");
    assert_eq!(base64_encode(b"fo"), "Zm8=");
    assert_eq!(base64_encode(b"foo"), "Zm9v");
    assert_eq!(base64_encode(b"foobar"), "Zm9vYmFy");
}

#[test]
fn debug_bytes_renders_like_std() {
    assert_eq!(debug_bytes(&[]), "[]");
    assert_eq!(debug_bytes(&[5]), "[5]");
    assert_eq!(debug_bytes(&[0, 37, 255]), "[0, 37, 255]");
    assert_eq!(debug_bytes(&[1, 2, 3]), format!("{:?}", vec![1u8, 2, 3]));
}

#[test]
fn base58_vectors() {
    assert_eq!(base58_encode(b""), "");
    assert_eq!(base58_encode(&[0]), "1");
    assert_eq!(base58_encode(&[0, 0]), "11");
    assert_eq!(base58_encode(b"a"), "2g");
    assert_eq!(base58_encode(&[0, 0, 1]), "112");
    assert_eq!(base58_encode(&[0x27, 0x0f]), "3yQ");
}

#[test]
fn base58_round_trips_through_reference_decoder() {
    for payload in [
        vec![],
        vec![0u8],
        vec![0, 0, 0, 7],
        vec![255u8; 10],
        b"The quick brown fox".to_vec(),
    ] {
        let encoded = base58_encode(&payload);
        assert_eq!(base58_decode_ref(&encoded).unwrap(), payload);
    }
}

#[test]
fn base58_decode_inverts_encode() {
    for payload in [
        vec![],
        vec![0u8],
        vec![0, 0, 58, 58],
        vec![255u8; 6],
        b"round trip".to_vec(),
    ] {
        let encoded = base58_encode(&payload);
        assert_eq!(base58_decode(&encoded).unwrap(), payload);
    }
    assert_eq!(base58_decode("2g"), Some(b"a".to_vec()));
    assert_eq!(base58_decode("0"), None);
    assert_eq!(base58_decode("I"), None);
    assert_eq!(base58_decode("1l1"), None);
}

#[test]
fn p2pkh_checksum_round_trip() {
    let pubkey = [2u8; 33];
    let addr = p2pkh(&pubkey);
    assert!(addr.starts_with('1'));
    let payload = base58_decode_ref(&addr).unwrap();
    assert_eq!(payload.len(), 25);
    assert_eq!(payload[0], 0);
    let checksum = &hash256(&payload[..21])[..4];
    assert_eq!(&payload[21..], checksum);
}

#[test]
fn wif_checksum_round_trip() {
    let key = [7u8; 32];
    let encoded = wif(&key);
    let payload = base58_decode_ref(&encoded).unwrap();
    assert_eq!(payload.len(), 38);
    assert_eq!(payload[0], 0x80);
    assert_eq!(&payload[1..33], &key);
    assert_eq!(payload[33], 0x01);
    let checksum = &hash256(&payload[..34])[..4];
    assert_eq!(&payload[34..], checksum);
}
