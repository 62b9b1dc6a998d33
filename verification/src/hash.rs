//! Content digests.

use sha2::Digest;
use vstd::prelude::*;

use crate::text::{concat, format_hex, hex};

verus! {

/// SHA-256 of a byte string, as the digest crate computes it.
pub uninterp spec fn sha256_digest(bytes: Seq<u8>) -> Seq<u8>;

/// `Sha256::digest`: the thirty-two bytes of the digest.
#[verifier::external_body]
fn sha256(bytes: &[u8]) -> (digest: Vec<u8>)
    ensures
        digest@ == sha256_digest(bytes@),
        digest@.len() == 32,
{
    sha2::Sha256::digest(bytes).to_vec()
}

/// Lower-case hexadecimal SHA-256 of a byte string.
pub fn sha256_hex(bytes: &[u8]) -> (r: String)
    ensures
        r@ == hex(sha256_digest(bytes@)),
        r@.len() == 64,
{
    let digest = sha256(bytes);
    format_hex(digest.as_slice())
}

/// Digest with the algorithm's name before it.
pub open spec fn tagged_digest(bytes: Seq<u8>) -> Seq<char> {
    "sha256:"@ + hex(sha256_digest(bytes))
}

/// Whether a text is the algorithm's name and sixty-four lower-case hexadecimal
/// digits.
pub open spec fn well_tagged(text: Seq<char>) -> bool {
    &&& text.len() == 71
    &&& text.take(7) == "sha256:"@
    &&& forall|i: int|
        7 <= i < 71 ==> '0' <= (#[trigger] text[i]) <= '9' || 'a' <= text[i] <= 'f'
}

/// SHA-256 of a byte string with the algorithm's name before it.
pub fn sha256_tagged(bytes: &[u8]) -> (r: String)
    ensures
        r@ == tagged_digest(bytes@),
        well_tagged(r@),
{
    let digest = sha256_hex(bytes);
    let r = concat("sha256:", digest.as_str());
    proof {
        reveal_strlit("sha256:");
        assert(r@.take(7) =~= "sha256:"@);
        assert forall|i: int| 7 <= i < 71 implies '0' <= (#[trigger] r@[i]) <= '9' || 'a' <= r@[i]
            <= 'f' by {
            assert(r@[i] == digest@[i - 7]);
        }
    }
    r
}

/// Appends the bytes of a text.
pub fn append_text(bytes: &mut Vec<u8>, text: &str)
    ensures
        final(bytes)@ == old(bytes)@ + vstd::utf8::encode_utf8(text@),
{
    let tail = text.as_bytes();
    let mut i: usize = 0;
    assert(bytes@ =~= old(bytes)@ + tail@.take(0));
    while i < tail.len()
        invariant
            i <= tail@.len(),
            bytes@ == old(bytes)@ + tail@.take(i as int),
        decreases tail@.len() - i,
    {
        bytes.push(tail[i]);
        i += 1;
        assert(bytes@ =~= old(bytes)@ + tail@.take(i as int));
    }
    assert(tail@.take(tail@.len() as int) =~= tail@);
}

} // verus!
