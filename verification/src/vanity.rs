//! Brute-force vanity-address search: generate fresh random keys,
//! derive their P2PKH addresses, and keep the Nth one whose address,
//! after the fixed leading version character, starts with the wanted
//! pattern.
//!
//! The search has no timeout: a pattern that can never match keeps it
//! running, by design; cancellation belongs to the caller. Worker
//! rounds are scheduled fairly: every worker finishes the generation it
//! has in flight when the winning ordinal is claimed, and those late
//! candidates are counted and discarded, never claimed.

use vstd::prelude::*;
use vstd::string::StrSliceExecFns;
use crate::address::{p2pkh, p2pkh_payload, wif, wif_payload};
use crate::base58::b58_encodes;
use crate::bytevals::{leading_zeros, lemma_leading_zeros_bounds};
use crate::errors::EngineError;
use crate::keys::{pub_compressed_of, valid_scalar_bytes, PrivateKey};
use crate::textcodec::{hex_encode, spec_dec_digits, spec_hex, u64_to_decimal};

verus! {

/// Relies on k256::SecretKey::random over rand_core::OsRng: whatever
/// comes back is a 32-byte nonzero scalar below the curve order;
/// nothing else is assumed of it.
#[verifier::external_body]
fn random_scalar() -> (r: Vec<u8>)
    ensures
        r@.len() == 32,
        valid_scalar_bytes(r@),
{
    k256::SecretKey::random(&mut rand_core::OsRng).to_bytes().to_vec()
}

/// Whether an address satisfies the pattern: the characters after the
/// leading version character start with it.
pub open spec fn vanity_matches(addr: Seq<char>, pattern: Seq<char>) -> bool {
    &&& addr.len() >= pattern.len() + 1
    &&& forall|i: int| 0 <= i < pattern.len() ==> addr[i + 1] == pattern[i]
}

/// Tests the pattern against an address.
pub fn address_matches(addr: &str, pattern: &str) -> (r: bool)
    ensures
        r == vanity_matches(addr@, pattern@),
{
    let plen = pattern.unicode_len();
    let alen = addr.unicode_len();
    if alen <= plen {
        return false;
    }
    let mut i: usize = 0;
    while i < plen
        invariant
            0 <= i <= plen,
            plen == pattern@.len(),
            alen == addr@.len(),
            alen > plen,
            forall|j: int| 0 <= j < i ==> addr@[j + 1] == pattern@[j],
        decreases plen - i,
    {
        if addr.get_char(i + 1) != pattern.get_char(i) {
            return false;
        }
        i = i + 1;
    }
    true
}

/// Every P2PKH address matches the empty pattern: its payload starts
/// with the zero version byte, so the address has at least the one
/// leading version character.
pub proof fn lemma_empty_pattern_always_matches(pub_bytes: Seq<u8>, addr: Seq<char>)
    requires
        b58_encodes(p2pkh_payload(pub_bytes), addr),
    ensures
        vanity_matches(addr, Seq::<char>::empty()),
{
    let payload = p2pkh_payload(pub_bytes);
    assert(payload[0] == 0);
    lemma_leading_zeros_bounds(payload.skip(1));
    assert(leading_zeros(payload) == 1 + leading_zeros(payload.skip(1)));
    assert(addr.len() >= leading_zeros(payload));
}

/// What a completed search returns: the key, its renderings, and the
/// total number of keys generated across all workers.
#[derive(Debug)]
pub struct VanityRecord {
    pub key_bytes: Vec<u8>,
    pub key_hex: String,
    pub address: String,
    pub wif: String,
    pub tries: u64,
    pub tries_text: String,
}

/// A well-formed search result for a pattern: a valid scalar whose
/// P2PKH address matches the pattern, with its hex, WIF and decimal
/// renderings.
pub open spec fn vanity_result_ok(rec: VanityRecord, pattern: Seq<char>) -> bool {
    &&& valid_scalar_bytes(rec.key_bytes@)
    &&& rec.key_hex@ == spec_hex(rec.key_bytes@)
    &&& b58_encodes(p2pkh_payload(pub_compressed_of(rec.key_bytes@)), rec.address@)
    &&& b58_encodes(wif_payload(rec.key_bytes@), rec.wif@)
    &&& vanity_matches(rec.address@, pattern)
    &&& rec.tries_text@ == spec_dec_digits(rec.tries as int)
}

/// Searches for the `nth` key whose address matches `pattern`, running
/// `workers` generation slots per round. The match ordinal and the
/// worker count are validated before any work begins; a success has
/// counted at least `nth` attempts, and at least one attempt per
/// worker, since every worker's in-flight generation completes.
///
/// The search runs until the ordinal is claimed: an unsatisfiable
/// pattern keeps it running for as long as the caller lets it. Only
/// after an infeasible 2^64 - 1 rounds does it stop with `Search`.
pub fn vanity_search(pattern: &str, nth: usize, workers: usize) -> (r: Result<
    VanityRecord,
    EngineError,
>)
    ensures
        (nth < 1 || workers < 1 || workers > 256) == (r matches Err(e)
            && e == EngineError::InvalidParameter),
        r matches Ok(rec) ==> {
            &&& vanity_result_ok(rec, pattern@)
            &&& rec.tries >= nth
            &&& rec.tries >= workers
        },
        r matches Err(e) ==> e == EngineError::InvalidParameter || e == EngineError::Search,
{
    if nth < 1 || workers < 1 || workers > 256 {
        return Err(EngineError::InvalidParameter);
    }
    let mut tries: u64 = 0;
    let mut claimed: usize = 0;
    let mut found: Option<(Vec<u8>, String)> = None;
    let mut rounds: u64 = 0;
    while rounds < u64::MAX
        invariant
            1 <= nth,
            1 <= workers <= 256,
            claimed <= nth,
            claimed as int <= tries as int,
            found is None ==> claimed < nth,
            found matches Some(f) ==> {
                &&& claimed == nth
                &&& valid_scalar_bytes(f.0@)
                &&& b58_encodes(p2pkh_payload(pub_compressed_of(f.0@)), f.1@)
                &&& vanity_matches(f.1@, pattern@)
            },
        decreases u64::MAX - rounds,
    {
        rounds = rounds + 1;
        let ghost round_start: u64 = tries;
        let mut w: usize = 0;
        while w < workers
            invariant
                0 <= w <= workers,
                1 <= nth,
                1 <= workers <= 256,
                claimed <= nth,
                claimed as int <= tries as int,
                tries as int >= round_start + w || tries == u64::MAX,
                found is None ==> claimed < nth,
                found matches Some(f) ==> {
                    &&& claimed == nth
                    &&& valid_scalar_bytes(f.0@)
                    &&& b58_encodes(p2pkh_payload(pub_compressed_of(f.0@)), f.1@)
                    &&& vanity_matches(f.1@, pattern@)
                },
            decreases workers - w,
        {
            let kb = random_scalar();
            let key = match PrivateKey::from_bytes(kb) {
                Ok(key) => key,
                Err(_) => {
                    proof {
                        assert(false);
                    }
                    return Err(EngineError::InvalidParameter);
                },
            };
            let comp = key.public_compressed();
            let addr = p2pkh(comp.as_slice());
            tries = tries.saturating_add(1);
            if found.is_none() && address_matches(addr.as_str(), pattern) {
                claimed = claimed + 1;
                if claimed == nth {
                    found = Some((key.to_bytes(), addr));
                }
            }
            w = w + 1;
        }
        if found.is_some() {
            let f = found.unwrap();
            let (key_bytes, address) = f;
            let key_hex = hex_encode(key_bytes.as_slice());
            let wif_text = wif(key_bytes.as_slice());
            let tries_text = u64_to_decimal(tries);
            return Ok(VanityRecord {
                key_bytes,
                key_hex,
                address,
                wif: wif_text,
                tries,
                tries_text,
            });
        }
    }
    Err(EngineError::Search)
}

} // verus!
