//! Ed25519 signatures over byte strings. Keys travel as their 32-byte
//! encodings; the arithmetic is `ed25519-dalek`'s.

use vstd::prelude::*;

verus! {

/// The public key that belongs to a 32-byte secret key.
pub uninterp spec fn ed25519_public_key(secret: Seq<u8>) -> Seq<u8>;

/// The signature that a secret key puts on a message.
pub uninterp spec fn ed25519_signature(secret: Seq<u8>, message: Seq<u8>) -> Seq<u8>;

/// The outcome of checking a 64-byte signature on a message against 32
/// bytes offered as a public key: `None` where the bytes are no public key,
/// else whether the signature is accepted.
pub uninterp spec fn ed25519_check(public: Seq<u8>, message: Seq<u8>, signature: Seq<u8>) -> Option<
    bool,
>;

/// `SigningKey::from_bytes` and `SigningKey::verifying_key`: the encoding of
/// the public key derived from `secret`.
#[verifier::external_body]
pub(crate) fn derive_public_key(secret: &[u8; 32]) -> (r: [u8; 32])
    ensures
        r@ == ed25519_public_key(secret@),
{
    ed25519_dalek::SigningKey::from_bytes(secret).verifying_key().to_bytes()
}

/// `Signer::sign` on the key made from `secret`. Signing is deterministic,
/// and the crate documents that the key's own verifying key accepts what it
/// signed.
#[verifier::external_body]
pub(crate) fn sign_message(secret: &[u8; 32], message: &[u8]) -> (r: [u8; 64])
    ensures
        r@ == ed25519_signature(secret@, message@),
        ed25519_check(ed25519_public_key(secret@), message@, r@) == Some(true),
{
    ed25519_dalek::Signer::sign(&ed25519_dalek::SigningKey::from_bytes(secret), message).to_bytes()
}

/// `Verifier::verify` on the key that `VerifyingKey::try_from` decodes from
/// `public`; `None` where that decoding fails.
#[verifier::external_body]
pub(crate) fn check_signature(public: &[u8], message: &[u8], signature: &[u8]) -> (r: Option<bool>)
    requires
        public@.len() == 32,
        signature@.len() == 64,
    ensures
        r == ed25519_check(public@, message@, signature@),
{
    let signature = ed25519_dalek::Signature::from_slice(signature).unwrap();
    match ed25519_dalek::VerifyingKey::try_from(public) {
        Ok(key) => Some(ed25519_dalek::Verifier::verify(&key, message, &signature).is_ok()),
        Err(_) => None,
    }
}

/// `SigningKey::generate` with the operating system's random source: 32
/// fresh secret bytes, of which nothing is known beforehand.
#[verifier::external_body]
pub(crate) fn generate_secret_key() -> (r: [u8; 32])
{
    ed25519_dalek::SigningKey::generate(&mut rand::rngs::OsRng).to_bytes()
}

} // verus!
