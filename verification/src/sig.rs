//! Detached-signature checking for the signature authorization strategy.
//!
//! The registry never interprets key or signature bytes itself; it hands
//! them to Ed25519 verification and uses only the boolean outcome. That
//! outcome is a pure function of the key bytes, the message bytes and the
//! signature bytes, which `ed25519_verifies` names; everything the registry
//! proves about signature authorization is stated over that name.

use vstd::prelude::*;

verus! {

/// Whether `sig` is a valid strict Ed25519 signature by the key `key` over
/// the message `msg`. The outcome is a mathematical function of the three
/// byte strings alone.
pub uninterp spec fn ed25519_verifies(key: Seq<u8>, msg: Seq<u8>, sig: Seq<u8>) -> bool;

/// Relies on `ed25519_dalek::VerifyingKey::from_bytes` and
/// `ed25519_dalek::VerifyingKey::verify_strict` (with
/// `ed25519_dalek::Signature::from_bytes`, which never fails): verification
/// is deterministic over the key, message and signature bytes, and no
/// signature is valid under 32 bytes that are not a valid verifying key.
#[verifier::external_body]
pub(crate) fn ed25519_verify(key: &[u8; 32], msg: &Vec<u8>, sig: &[u8; 64]) -> (r: bool)
    ensures
        r == ed25519_verifies(key@, msg@, sig@),
{
    match ed25519_dalek::VerifyingKey::from_bytes(key) {
        Ok(vk) => {
            let signature = ed25519_dalek::Signature::from_bytes(sig);
            vk.verify_strict(msg.as_slice(), &signature).is_ok()
        },
        Err(_) => false,
    }
}

} // verus!
