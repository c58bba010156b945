//! Content commitments: the BLAKE3 digest of a byte string, written in
//! lowercase hexadecimal.

use vstd::prelude::*;
use crate::hexcode::{hex_encoding, is_hex_text, lemma_hex_encoding_is_ascii, lemma_hex_round_trip};

verus! {

/// The 32-byte BLAKE3 digest of `data`, as `blake3::hash` computes it.
pub uninterp spec fn blake3_digest(data: Seq<u8>) -> Seq<u8>;

/// The commitment to `data`: its BLAKE3 digest in lowercase hexadecimal.
pub open spec fn commitment(data: Seq<u8>) -> Seq<char> {
    hex_encoding(blake3_digest(data))
}

/// `blake3::hash` followed by `Hash::to_hex`: the digest has 32 bytes, and
/// `to_hex` writes them as 64 lowercase hexadecimal digits.
#[verifier::external_body]
pub(crate) fn commit(data: &[u8]) -> (r: String)
    ensures
        r@ == hex_encoding(blake3_digest(data@)),
        r@.len() == 64,
{
    blake3::hash(data).to_hex().to_string()
}

/// The commitment to `data`.
pub fn commitment_of(data: &[u8]) -> (r: String)
    ensures
        r@ == commitment(data@),
        r@.len() == 64,
{
    commit(data)
}

/// A commitment of 64 characters takes 64 bytes and decodes as
/// hexadecimal text.
pub proof fn lemma_commitment_shape(data: Seq<u8>)
    requires
        commitment(data).len() == 64,
    ensures
        vstd::utf8::encode_utf8(commitment(data)).len() == 64,
        is_hex_text(commitment(data)),
{
    lemma_hex_round_trip(blake3_digest(data));
    lemma_hex_encoding_is_ascii(blake3_digest(data));
}

} // verus!
