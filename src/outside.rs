//! Calls into code that is not verified here, each with the contract it is
//! trusted to meet.
use vstd::prelude::*;

verus! {

/// What `str::to_lowercase` makes of a string.
pub uninterp spec fn lower_of(s: Seq<char>) -> Seq<char>;

/// What `sha256::digest` makes of a byte string: its SHA-256 digest in hex.
pub uninterp spec fn sha256_hex_of(b: Seq<u8>) -> Seq<char>;

/// Relies on `uuid::Uuid::new_v4` and its `Display`: a random identifier,
/// written as 36 characters (hyphenated lower-case hex).
#[verifier::external_body]
pub(crate) fn fresh_id() -> (r: String)
    ensures
        r@.len() == 36,
{
    uuid::Uuid::new_v4().to_string()
}

/// Relies on `str::to_lowercase`: the result depends on the characters alone.
#[verifier::external_body]
pub(crate) fn lowercase(s: &str) -> (r: String)
    ensures
        r@ == lower_of(s@),
{
    s.to_lowercase()
}

/// Relies on `sha256::digest` over bytes: the hex digest, 64 characters.
#[verifier::external_body]
pub(crate) fn sha256_hex(b: &Vec<u8>) -> (r: String)
    ensures
        r@ == sha256_hex_of(b@),
        r@.len() == 64,
{
    sha256::digest(b.as_slice())
}

} // verus!
