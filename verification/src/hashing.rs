//! The content hash that every other component builds on.

use crate::ledger::Blockchain;
use sha2::Digest;
use vstd::prelude::*;

verus! {

/// Number of characters in a digest.
pub const HASH_LENGTH: usize = 64;

/// The lowercase hexadecimal SHA-256 digest of the UTF-8 encoding of `data`.
pub uninterp spec fn sha256_hex(data: Seq<char>) -> Seq<char>;

/// Whether `c` is one of the sixteen lowercase hexadecimal digits.
pub open spec fn is_lower_hex_char(c: char) -> bool {
    ('0' <= c && c <= '9') || ('a' <= c && c <= 'f')
}

/// Whether `s` has the shape of a digest: sixty-four lowercase hexadecimal
/// digits.
pub open spec fn is_digest(s: Seq<char>) -> bool {
    &&& s.len() == HASH_LENGTH
    &&& forall|i: int| 0 <= i < s.len() ==> is_lower_hex_char(#[trigger] s[i])
}

/// The sentinel that stands where no digest applies: sixty-four zeros. It is
/// the predecessor of the first block and the commitment to no transactions.
pub open spec fn zero_hash() -> Seq<char> {
    Seq::new(HASH_LENGTH as nat, |i: int| '0')
}

/// Calls `sha2::Sha256` on the bytes of `data` and formats the 32-byte output
/// with `{:x}`. Trusted: the result is the digest named by [`sha256_hex`], and
/// it is sixty-four lowercase hexadecimal digits long.
#[verifier::external_body]
fn sha256_hex_digest(data: &str) -> (digest: String)
    ensures
        digest@ == sha256_hex(data@),
        is_digest(digest@),
{
    let mut hasher = sha2::Sha256::new();
    hasher.update(data.as_bytes());
    format!("{:x}", hasher.finalize())
}

/// The sentinel as a string.
pub fn zero_hash_string() -> (sentinel: String)
    ensures
        sentinel@ == zero_hash(),
        is_digest(sentinel@),
{
    let text = "0000000000000000000000000000000000000000000000000000000000000000";
    proof {
        reveal_strlit("0000000000000000000000000000000000000000000000000000000000000000");
    }
    text.to_owned()
}

impl Blockchain {
    /// Hashes `data`: its SHA-256 digest in lowercase hexadecimal.
    pub fn generate_hash(data: &str) -> (digest: String)
        ensures
            digest@ == sha256_hex(data@),
            is_digest(digest@),
    {
        sha256_hex_digest(data)
    }
}

} // verus!
