//! Random bytes from the operating system, and random (version 4) UUIDs
//! made from them.

use vstd::prelude::*;
use crate::digest::uuid_bytes;

verus! {

/// Calls `getrandom::fill` on a buffer of `len` bytes and hands the bytes
/// back, or `None` when the source of randomness failed. Claims only their
/// number; their values are random.
#[verifier::external_body]
pub(crate) fn random_bytes(len: usize) -> (r: Option<Vec<u8>>)
    ensures
        r matches Some(b) ==> b@.len() == len,
{
    let mut bytes: Vec<u8> = Vec::new();
    bytes.resize(len, 0u8);
    match getrandom::fill(&mut bytes) {
        Ok(()) => Some(bytes),
        Err(_) => None,
    }
}

/// The bytes of the version 4 UUID made from sixteen random bytes: the
/// high nibble of byte 6 becomes the version, 4, and the two high bits of
/// byte 8 the RFC 4122 variant, `10`.
pub open spec fn random_uuid_bytes(b: Seq<u8>) -> Seq<u8> {
    b.update(6, (b[6] & 0x0f) | 0x40).update(8, (b[8] & 0x3f) | 0x80)
}

/// A version 4 UUID: made from some sixteen random bytes.
pub open spec fn is_random_uuid(id: u128) -> bool {
    exists|b: Seq<u8>| b.len() == 16 && uuid_bytes(id) == random_uuid_bytes(b)
}

/// Calls `uuid::Builder::from_random_bytes(..).into_uuid()`. Claims, as
/// its source shows, that the UUID's bytes are `bytes` with the version
/// and variant bits set, and gives its big-endian value.
#[verifier::external_body]
fn uuid_from_random_bytes(bytes: [u8; 16]) -> (id: u128)
    ensures
        uuid_bytes(id) == random_uuid_bytes(bytes@),
{
    uuid::Builder::from_random_bytes(bytes).into_uuid().as_u128()
}

/// A fresh random (version 4) UUID, as its big-endian value, or `None`
/// when the source of randomness failed.
pub fn new_random_id() -> (r: Option<u128>)
    ensures
        r matches Some(id) ==> is_random_uuid(id),
{
    match random_bytes(16) {
        None => None,
        Some(b) => {
            let bytes: [u8; 16] = [
                b[0], b[1], b[2], b[3], b[4], b[5], b[6], b[7],
                b[8], b[9], b[10], b[11], b[12], b[13], b[14], b[15],
            ];
            let id = uuid_from_random_bytes(bytes);
            proof {
                assert(bytes@.len() == 16);
            }
            Some(id)
        },
    }
}

} // verus!
