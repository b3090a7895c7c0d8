//! MD5 digests of received datagrams, as the lower-case hex text that acknowledgements carry.
use vstd::prelude::*;
use crate::text::{hex_lower, to_hex_lower};

verus! {

/// The 16-byte MD5 digest of a byte string, as `md5::compute` returns it.
pub uninterp spec fn md5_digest(bytes: Seq<u8>) -> Seq<u8>;

/// `md5::compute`, its `Digest` taken apart into its 16 bytes.
///
/// The contract claims that the bytes are the name `md5_digest` of the input, and that
/// there are 16 of them, the length of the array in `md5::Digest`.
#[verifier::external_body]
fn md5_compute(bytes: &[u8]) -> (r: Vec<u8>)
    ensures
        r@ == md5_digest(bytes@),
        r@.len() == 16,
{
    md5::compute(bytes).0.to_vec()
}

/// The MD5 digest of a byte string in lower-case hex, as `{:?}` prints an `md5::Digest`.
pub fn md5_hex(bytes: &[u8]) -> (s: String)
    ensures
        s@ == hex_lower(md5_digest(bytes@)),
        s@.len() == 32,
{
    let d = md5_compute(bytes);
    proof {
        lemma_hex_lower_len(d@);
    }
    to_hex_lower(d.as_slice())
}

/// Hex text has two characters per byte.
pub proof fn lemma_hex_lower_len(bytes: Seq<u8>)
    ensures
        hex_lower(bytes).len() == 2 * bytes.len(),
    decreases bytes.len(),
{
    if bytes.len() > 0 {
        lemma_hex_lower_len(bytes.drop_last());
    }
}

} // verus!
