//! The two outside services that the library computes with: SHA-256 and random
//! identifiers.

use sha2::Digest;
use vstd::prelude::*;

verus! {

/// The SHA-256 digest of a byte string.
pub uninterp spec fn sha256(bytes: Seq<u8>) -> Seq<u8>;

/// Calls `sha2::Sha256::digest`. The digest is a function of the bytes alone,
/// named by `sha256`, and the fixed output size of the algorithm makes it
/// thirty-two bytes long.
#[verifier::external_body]
pub(crate) fn sha256_digest(bytes: &[u8]) -> (digest: [u8; 32])
    ensures
        digest@ == sha256(bytes@),
{
    sha2::Sha256::digest(bytes).into()
}

/// Whether the identifier has the version and the variant of a random one.
pub open spec fn drawn(id: [u8; 16]) -> bool {
    id@[6] & 0xf0 == 0x40 && id@[8] & 0xc0 == 0x80
}

/// Whether each of the identifiers has the version and the variant of a random
/// one.
pub open spec fn all_drawn(ids: Seq<[u8; 16]>) -> bool {
    forall|i: int| 0 <= i < ids.len() ==> drawn(#[trigger] ids[i])
}

/// Calls `uuid::Uuid::new_v4` and returns its sixteen bytes. The value is drawn
/// at random; only the version and variant bits of a random identifier are
/// fixed.
#[verifier::external_body]
pub(crate) fn random_id() -> (id: [u8; 16])
    ensures
        drawn(id),
{
    *uuid::Uuid::new_v4().as_bytes()
}

} // verus!
