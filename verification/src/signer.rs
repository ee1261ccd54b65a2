//! The intent signer: wraps a payload, a timestamp and a scope into a signed
//! envelope using the enclave's Ed25519 signing key.
//!
//! What is signed is always the canonical serialization of the full intent
//! message (see `codec`), never the payload alone.

use vstd::prelude::*;
use ed25519_dalek::{Signer, Verifier};
use crate::codec::{enc_message, encode_message};
use crate::message::{IntentMessage, IntentScope, MyMetrics, SignedEnvelope};

verus! {

/// The Ed25519 signature that the key with this seed produces over this
/// message. Ed25519 signing is deterministic: the bytes depend on the seed
/// and the message alone.
pub uninterp spec fn ed25519_sig_of(seed: Seq<u8>, msg: Seq<u8>) -> Seq<u8>;

/// The Ed25519 public key derived from this seed.
pub uninterp spec fn ed25519_pub_of(seed: Seq<u8>) -> Seq<u8>;

/// Relies on ed25519_dalek::SigningKey::{from_bytes, sign}: signing is a
/// deterministic function of the 32-byte seed and the message (RFC 8032),
/// and a signature is 64 bytes.
#[verifier::external_body]
fn ed25519_sign(seed: &Vec<u8>, msg: &Vec<u8>) -> (r: Vec<u8>)
    requires
        seed@.len() == 32,
    ensures
        r@ == ed25519_sig_of(seed@, msg@),
        r@.len() == 64,
{
    let arr: [u8; 32] = seed.as_slice().try_into().unwrap();
    let key = ed25519_dalek::SigningKey::from_bytes(&arr);
    key.sign(msg.as_slice()).to_bytes().to_vec()
}

/// Relies on ed25519_dalek::SigningKey::verifying_key: the public key is a
/// deterministic function of the 32-byte seed, 32 bytes long.
#[verifier::external_body]
fn ed25519_public(seed: &Vec<u8>) -> (r: Vec<u8>)
    requires
        seed@.len() == 32,
    ensures
        r@ == ed25519_pub_of(seed@),
        r@.len() == 32,
{
    let arr: [u8; 32] = seed.as_slice().try_into().unwrap();
    let key = ed25519_dalek::SigningKey::from_bytes(&arr);
    key.verifying_key().to_bytes().to_vec()
}

/// Relies on ed25519_dalek::VerifyingKey::verify: a signature produced by
/// the signing key of some seed over this same message is always accepted by
/// the public key of that seed. Nothing is assumed about any other input.
#[verifier::external_body]
fn ed25519_verify(pubkey: &Vec<u8>, msg: &Vec<u8>, sig: &Vec<u8>) -> (r: bool)
    ensures
        forall|seed: Seq<u8>|
            pubkey@ == ed25519_pub_of(seed) && sig@ == #[trigger] ed25519_sig_of(seed, msg@)
                ==> r,
{
    let Ok(key_arr) = <&[u8; 32]>::try_from(pubkey.as_slice()) else { return false };
    let Ok(key) = ed25519_dalek::VerifyingKey::from_bytes(key_arr) else { return false };
    let Ok(signature) = ed25519_dalek::Signature::from_slice(sig.as_slice()) else { return false };
    key.verify(msg.as_slice(), &signature).is_ok()
}

/// The enclave's signing identity: process-lifetime state, generated once at
/// startup and never persisted or exported.
pub struct EnclaveKey {
    seed: Vec<u8>,
}

impl EnclaveKey {
    /// The seed this key was built from.
    pub closed spec fn seed_view(&self) -> Seq<u8> {
        self.seed@
    }

    /// A usable key holds exactly a 32-byte seed.
    pub open spec fn wf(&self) -> bool {
        self.seed_view().len() == 32
    }

    /// Builds the key from a 32-byte seed; any other length is refused.
    pub fn from_seed(seed: Vec<u8>) -> (r: Option<EnclaveKey>)
        ensures
            match r {
                Some(k) => seed@.len() == 32 && k.wf() && k.seed_view() == seed@,
                None => seed@.len() != 32,
            },
    {
        if seed.len() == 32 {
            Some(EnclaveKey { seed })
        } else {
            None
        }
    }

    /// The public half of this key, handed to remote verifiers.
    pub fn public_key(&self) -> (r: Vec<u8>)
        requires
            self.wf(),
        ensures
            r@ == ed25519_pub_of(self.seed_view()),
            r@.len() == 32,
    {
        ed25519_public(&self.seed)
    }
}

/// Signs the payload under the given scope and timestamp: the signature
/// covers the canonical serialization of the whole intent message, so it can
/// never be replayed for another scope or moment.
pub fn to_signed_response(
    key: &EnclaveKey,
    payload: MyMetrics,
    timestamp_ms: u64,
    scope: IntentScope,
) -> (r: SignedEnvelope)
    requires
        key.wf(),
    ensures
        r.response.scope == scope,
        r.response.timestamp_ms == timestamp_ms,
        r.response.payload@ == payload@,
        r.signature@ == ed25519_sig_of(key.seed_view(), enc_message(r.response@)),
        r.signature@.len() == 64,
{
    let message = IntentMessage { scope, timestamp_ms, payload };
    let bytes = encode_message(&message);
    let signature = ed25519_sign(&key.seed, &bytes);
    SignedEnvelope { response: message, signature }
}

/// Checks an envelope against a public key: the canonical serialization of
/// the embedded message is recomputed and the signature is verified over it.
/// An envelope that `to_signed_response` produced with the matching key is
/// always accepted.
pub fn verify_envelope(pubkey: &Vec<u8>, envelope: &SignedEnvelope) -> (r: bool)
    ensures
        (exists|seed: Seq<u8>|
            pubkey@ == ed25519_pub_of(seed) && envelope.signature@ == #[trigger] ed25519_sig_of(
                seed,
                enc_message(envelope.response@),
            )) ==> r,
{
    let bytes = encode_message(&envelope.response);
    ed25519_verify(pubkey, &bytes, &envelope.signature)
}

/// Checks a signature against a caller-built intent message rather than the
/// one embedded in an envelope: the tool a remote verifier uses to see that
/// a signature does not transfer to a message with another scope or
/// timestamp.
pub fn verify_message(pubkey: &Vec<u8>, message: &IntentMessage, signature: &Vec<u8>) -> (r: bool)
    ensures
        (exists|seed: Seq<u8>|
            pubkey@ == ed25519_pub_of(seed) && signature@ == #[trigger] ed25519_sig_of(
                seed,
                enc_message(message@),
            )) ==> r,
{
    let bytes = encode_message(message);
    ed25519_verify(pubkey, &bytes, signature)
}

} // verus!
