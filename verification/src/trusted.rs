//! The crate's boundary to outside libraries: hashing, randomness, fresh
//! identifiers and the clock.  Every function here is trusted; everything
//! built on top of it is verified against the contracts stated here.

use vstd::prelude::*;

use rand::Rng;
use sha2::Digest;

verus! {

/// An ASCII letter or digit, the alphabet of salts and session tokens.
pub open spec fn is_alnum_char(c: char) -> bool {
    ('0' as int) <= (c as int) <= ('9' as int) || ('a' as int) <= (c as int) <= ('z' as int) || (
    'A' as int) <= (c as int) <= ('Z' as int)
}

/// A lowercase hexadecimal digit, the alphabet of rendered digests.
pub open spec fn is_hex_char(c: char) -> bool {
    ('0' as int) <= (c as int) <= ('9' as int) || ('a' as int) <= (c as int) <= ('f' as int)
}

pub open spec fn all_alnum(s: Seq<char>) -> bool {
    forall|i: int| 0 <= i < s.len() ==> is_alnum_char(#[trigger] s[i])
}

/// The lowercase-hex rendering of the SHA-256 digest of a string's bytes.
/// The outside library computes it; this crate only names it.
pub uninterp spec fn sha256_hex_of(s: Seq<char>) -> Seq<char>;

/// Relies on sha2::Sha256 and generic-array's lowercase-hex formatting:
/// the digest depends on the input characters alone and is rendered as
/// exactly 64 lowercase hexadecimal digits (two per digest byte).
#[verifier::external_body]
pub fn sha256_hex(s: &str) -> (r: String)
    ensures
        r@ == sha256_hex_of(s@),
        r@.len() == 64,
        forall|i: int| 0 <= i < r@.len() ==> is_hex_char(#[trigger] r@[i]),
{
    let mut hasher = sha2::Sha256::new();
    hasher.update(s.as_bytes());
    format!("{:x}", hasher.finalize())
}

/// Relies on rand's Alphanumeric distribution, which samples uniformly
/// from the ASCII letters and digits; `take(len)` fixes the length.
/// Nothing is promised about which characters come out.
#[verifier::external_body]
pub fn random_alphanumeric(len: usize) -> (r: String)
    ensures
        r@.len() == len as nat,
        all_alnum(r@),
{
    rand::thread_rng().sample_iter(&rand::distributions::Alphanumeric).take(len).map(
        char::from,
    ).collect()
}

/// Relies on uuid::Uuid::new_v4 for a freshly drawn random 128-bit
/// identifier.  Nothing is promised about the value.
#[verifier::external_body]
pub fn fresh_id() -> (r: u128) {
    uuid::Uuid::new_v4().as_u128()
}

/// Relies on std::time::SystemTime for the wall clock: seconds since the
/// Unix epoch, or zero should the clock stand before it.  Nothing is
/// promised about the value.
#[verifier::external_body]
pub fn now_secs() -> (r: u64) {
    match std::time::SystemTime::now().duration_since(std::time::UNIX_EPOCH) {
        Ok(d) => d.as_secs(),
        Err(_) => 0,
    }
}

} // verus!
