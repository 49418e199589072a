//! Error taxonomy of the engine.

use vstd::prelude::*;

verus! {

/// Every failure an engine operation can report.
///
/// `verify` returns `Ok(false)` for a well-formed but non-matching
/// signature; `SignatureFormat` is reserved for input that cannot be
/// parsed at all.
#[derive(Clone, Copy, Debug, PartialEq, Eq, Structural)]
pub enum EngineError {
    /// Malformed or unsupported private-key encoding, or a scalar outside
    /// the curve order.
    KeyFormat,
    /// Signature bytes that are not a DER `(r, s)` pair, or an invalid
    /// public-key point handed to `verify`.
    SignatureFormat,
    /// Internal failure while computing a signature.
    Signing,
    /// An out-of-range match ordinal or worker count for the vanity search.
    InvalidParameter,
    /// Internal cryptographic failure during vanity-key generation.
    Search,
}

impl EngineError {
    /// A short human-readable description, for callers that render errors.
    pub fn message(&self) -> (r: &'static str)
        ensures
            r@.len() > 0,
    {
        proof {
            reveal_strlit("malformed private key");
            reveal_strlit("malformed signature or public key");
            reveal_strlit("signing failed");
            reveal_strlit("invalid parameter");
            reveal_strlit("vanity search failed");
        }
        match self {
            EngineError::KeyFormat => "malformed private key",
            EngineError::SignatureFormat => "malformed signature or public key",
            EngineError::Signing => "signing failed",
            EngineError::InvalidParameter => "invalid parameter",
            EngineError::Search => "vanity search failed",
        }
    }
}

} // verus!
