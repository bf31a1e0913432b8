//! SHA-256 content digests and UUID text forms, computed by the `sha2` and
//! `uuid` crates.

use vstd::prelude::*;
use vstd::arithmetic::power::pow;
use crate::text::{hex_lower, is_lower_hex, lemma_hex_lower_shape, to_hex_lower};
use sha2::{Digest, Sha256};

verus! {

/// The SHA-256 digest of `data`, as computed by `sha2::Sha256::digest`.
pub uninterp spec fn sha256(data: Seq<u8>) -> Seq<u8>;

/// The sixteen bytes of the UUID whose big-endian value is `id`.
pub open spec fn uuid_bytes(id: u128) -> Seq<u8> {
    Seq::new(16, |i: int| ((id as int / pow(256, (15 - i) as nat)) % 256) as u8)
}

/// The lower-case hyphenated text of a UUID: the hexadecimal of its bytes
/// in groups of 8, 4, 4, 4 and 12 digits.
pub open spec fn uuid_text(id: u128) -> Seq<char> {
    let h = hex_lower(uuid_bytes(id));
    h.subrange(0, 8) + seq!['-'] + h.subrange(8, 12) + seq!['-'] + h.subrange(12, 16) + seq!['-']
        + h.subrange(16, 20) + seq!['-'] + h.subrange(20, 32)
}

/// The UUID that `uuid::Uuid::parse_str` reads from `text`, as its
/// big-endian value, or `None` when it rejects the text.
pub uninterp spec fn parse_uuid_text(text: Seq<char>) -> Option<u128>;

/// Calls `sha2::Sha256::digest`. Claims that the result is the 32-byte
/// SHA-256 output named `sha256(data)`; the digest itself is not proved.
#[verifier::external_body]
fn sha256_bytes(data: &[u8]) -> (d: Vec<u8>)
    ensures
        d@ == sha256(data@),
        d@.len() == 32,
{
    Sha256::digest(data).to_vec()
}

/// Calls `uuid::Uuid::from_u128` and its `Display`. Claims, as the crate's
/// source shows, that the text is the lower-case hyphenated form
/// `uuid_text(id)` of the big-endian bytes of `id`.
#[verifier::external_body]
pub(crate) fn uuid_to_string(id: u128) -> (s: String)
    ensures
        s@ == uuid_text(id),
{
    uuid::Uuid::from_u128(id).to_string()
}

/// Calls `uuid::Uuid::parse_str`. Claims only that the outcome is the one
/// named `parse_uuid_text(text)`, taken as a big-endian value.
#[verifier::external_body]
pub(crate) fn parse_uuid(text: &str) -> (r: Option<u128>)
    ensures
        r == parse_uuid_text(text@),
{
    match uuid::Uuid::parse_str(text) {
        Ok(id) => Some(id.as_u128()),
        Err(_) => None,
    }
}

/// The lower-case hexadecimal SHA-256 digest of a byte sequence.
pub open spec fn digest_text(data: Seq<u8>) -> Seq<char> {
    hex_lower(sha256(data))
}

/// A 64-character lower-case hexadecimal string.
pub open spec fn is_sha256_text(s: Seq<char>) -> bool {
    s.len() == 64 && forall|i: int| 0 <= i < s.len() ==> is_lower_hex(#[trigger] s[i])
}

/// Lower-case hexadecimal SHA-256 digest of `content`.
pub fn digest(content: &[u8]) -> (s: String)
    ensures
        s@ == digest_text(content@),
        is_sha256_text(s@),
{
    let bytes = sha256_bytes(content);
    let s = to_hex_lower(bytes.as_slice());
    proof {
        lemma_hex_lower_shape(bytes@);
    }
    s
}

} // verus!
