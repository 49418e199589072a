//! Verified core of an ECDSA (secp256k1) key and address toolkit.
//!
//! The crate parses private keys, derives public keys, computes the two
//! digest pipelines used for addresses and message commitments, encodes
//! P2PKH addresses and WIF private keys (Base58Check), signs and verifies
//! message digests, and runs a brute-force vanity-address search.
//!
//! Cryptographic primitives (SHA-256, RIPEMD-160, curve arithmetic, PEM
//! parsing, randomness) are supplied by outside crates behind small trusted
//! wrappers; everything composed on top of them is verified.

pub mod errors;
pub mod digests;
pub mod bytevals;
pub mod textcodec;
pub mod base58;
pub mod keys;
pub mod address;
pub mod signing;
pub mod records;
pub mod vanity;

pub use errors::EngineError;
