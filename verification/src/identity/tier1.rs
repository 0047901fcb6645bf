//! Tier 1 identity: the SHA-1 of the normalised text's UTF-8 bytes.

use vstd::prelude::*;

verus! {

/// The SHA-1 digest of a byte sequence (20 bytes).
pub uninterp spec fn sha1(data: Seq<u8>) -> Seq<u8>;

/// `sha1::Sha1::digest`: the 20-byte SHA-1 digest. The digest is named, not
/// described; its length is fixed by the array type.
#[verifier::external_body]
fn sha1_digest(data: &[u8]) -> (h: [u8; 20])
    ensures
        h@ == sha1(data@),
{
    <sha1::Sha1 as sha1::Digest>::digest(data).into()
}

/// The Tier 1 hash of an (already normalised) text: SHA-1 of its UTF-8
/// bytes. Equal texts give equal hashes.
pub fn tier1_hash(normalized: &str) -> (h: [u8; 20])
    ensures
        h@ == sha1(vstd::utf8::encode_utf8(normalized@)),
{
    sha1_digest(normalized.as_bytes())
}

} // verus!
