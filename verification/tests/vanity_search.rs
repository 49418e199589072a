//! Tests of the vanity search: parameter validation, the trivial empty
//! pattern, and distinct ordinals.

use crypto_engine::errors::EngineError;
use crypto_engine::vanity::{address_matches, vanity_search};

#[test]
fn empty_pattern_first_match_is_immediate() {
    let workers = 4usize;
    let rec = vanity_search("", 1, workers).unwrap();
    assert!(rec.address.starts_with('1'));
    assert!(rec.tries >= workers as u64);
    assert_eq!(rec.key_hex.len(), 64);
    assert_eq!(rec.tries_text, rec.tries.to_string());
}

#[test]
fn ordinals_are_distinct_keys_with_increasing_tries() {
    let r1 = vanity_search("", 1, 1).unwrap();
    let r2 = vanity_search("", 2, 1).unwrap();
    let r3 = vanity_search("", 3, 1).unwrap();
    assert_ne!(r1.key_hex, r2.key_hex);
    assert_ne!(r1.key_hex, r3.key_hex);
    assert_ne!(r2.key_hex, r3.key_hex);
    assert!(r1.tries < r2.tries);
    assert!(r2.tries < r3.tries);
}

#[test]
fn short_pattern_is_found_and_satisfied() {
    let rec = vanity_search("A", 1, 2).unwrap();
    let chars: Vec<char> = rec.address.chars().collect();
    assert_eq!(chars[0], '1');
    assert_eq!(chars[1], 'A');
}

#[test]
fn out_of_range_parameters_are_rejected() {
    assert_eq!(vanity_search("x", 0, 1).unwrap_err(), EngineError::InvalidParameter);
    assert_eq!(vanity_search("x", 1, 0).unwrap_err(), EngineError::InvalidParameter);
    assert_eq!(vanity_search("x", 1, 257).unwrap_err(), EngineError::InvalidParameter);
}

#[test]
fn pattern_matching_skips_version_character() {
    assert!(address_matches("1BgGZ9tcN4rm", "BgG"));
    assert!(address_matches("1BgGZ9tcN4rm", ""));
    assert!(!address_matches("1BgGZ9tcN4rm", "1Bg"));
    assert!(!address_matches("1", "a"));
    assert!(!address_matches("", ""));
}
