//! Ed25519 identity signing and strict verification.
use vstd::prelude::*;

use ed25519_dalek::Signer;

use crate::crypto::random_bytes;
use crate::{MefError, Result};

verus! {

/// Fixed byte length of Ed25519 identity keys and seeds.
pub const IDENTITY_KEY_LEN: usize = 32;

/// The Ed25519 verification key of a 32-byte signing seed.
pub uninterp spec fn ed25519_public(seed: Seq<u8>) -> Seq<u8>;

/// The Ed25519 signature of `message` under the signing seed.
pub uninterp spec fn ed25519_sign(seed: Seq<u8>, message: Seq<u8>) -> Seq<u8>;

/// Whether 32 bytes decode to an Ed25519 verification key.
pub uninterp spec fn ed25519_key_valid(public: Seq<u8>) -> bool;

/// Whether strict Ed25519 verification accepts `signature` on `message` under `public`.
pub uninterp spec fn ed25519_verify(public: Seq<u8>, message: Seq<u8>, signature: Seq<u8>) -> bool;

/// Computes `SigningKey::from_bytes(seed).verifying_key().to_bytes()`.
///
/// Claims that the result is `ed25519_public` of the seed and decodes to a valid verification key.
#[verifier::external_body]
fn ed25519_public_key(seed: &[u8; 32]) -> (public: [u8; 32])
    ensures
        public@ == ed25519_public(seed@),
        ed25519_key_valid(public@),
{
    ed25519_dalek::SigningKey::from_bytes(seed).verifying_key().to_bytes()
}

/// Computes `SigningKey::from_bytes(seed).sign(message).to_bytes()`.
///
/// Claims only that the result is `ed25519_sign` of the arguments. The crate's documentation
/// does not promise that `verify_strict` accepts every signature it makes (a signature whose
/// nonce point has small order is rejected there), so that is left unsaid.
#[verifier::external_body]
fn ed25519_sign_bytes(seed: &[u8; 32], message: &[u8]) -> (signature: [u8; 64])
    ensures
        signature@ == ed25519_sign(seed@, message@),
{
    ed25519_dalek::SigningKey::from_bytes(seed).sign(message).to_bytes()
}

/// Tests whether `VerifyingKey::from_bytes(public)` succeeds; claims only that the result is
/// `ed25519_key_valid` of the bytes.
#[verifier::external_body]
fn ed25519_check_key(public: &[u8; 32]) -> (valid: bool)
    ensures
        valid == ed25519_key_valid(public@),
{
    ed25519_dalek::VerifyingKey::from_bytes(public).is_ok()
}

/// Runs `VerifyingKey::verify_strict` on `Signature::from_bytes(signature)`; claims only that
/// the result is `ed25519_verify` of the arguments.
#[verifier::external_body]
fn ed25519_verify_strict(public: &[u8; 32], message: &[u8], signature: &[u8; 64]) -> (accepted: bool)
    requires
        ed25519_key_valid(public@),
    ensures
        accepted == ed25519_verify(public@, message@, signature@),
{
    match ed25519_dalek::VerifyingKey::from_bytes(public) {
        Ok(key) => key.verify_strict(message, &ed25519_dalek::Signature::from_bytes(signature)).is_ok(),
        Err(_) => false,
    }
}

/// What strict signature verification returns: [`MefError::InvalidFrame`] for bytes that are no
/// verification key, [`MefError::AuthenticationFailed`] for a rejected signature, else success.
pub open spec fn verification(public: Seq<u8>, message: Seq<u8>, signature: Seq<u8>) -> core::result::Result<(), MefError> {
    if !ed25519_key_valid(public) {
        Err(MefError::InvalidFrame)
    } else if !ed25519_verify(public, message, signature) {
        Err(MefError::AuthenticationFailed)
    } else {
        Ok(())
    }
}

/// An Ed25519 public verification key.
#[derive(Debug, Clone, Copy, PartialEq, Eq, Hash)]
pub struct IdentityPublicKey([u8; 32]);

impl View for IdentityPublicKey {
    type V = Seq<u8>;

    closed spec fn view(&self) -> Seq<u8> {
        self.0@
    }
}

/// Every identity public key holds exactly 32 bytes.
pub broadcast proof fn lemma_identity_public_len(key: IdentityPublicKey)
    ensures
        #[trigger] key@.len() == IDENTITY_KEY_LEN,
{
}

impl IdentityPublicKey {
    /// Parses an Ed25519 public key from its 32-byte canonical encoding.
    ///
    /// Returns [`MefError::InvalidFrame`] exactly when the bytes are no verification key.
    pub fn from_bytes(bytes: [u8; 32]) -> (res: Result<Self>)
        ensures
            res is Ok <==> ed25519_key_valid(bytes@),
            res matches Ok(k) ==> k@ == bytes@,
            res matches Err(e) ==> e == MefError::InvalidFrame,
    {
        if !ed25519_check_key(&bytes) {
            return Err(MefError::InvalidFrame);
        }
        Ok(IdentityPublicKey(bytes))
    }

    /// Returns the canonical 32-byte public-key encoding.
    pub fn to_bytes(self) -> (bytes: [u8; 32])
        ensures
            bytes@ == self@,
    {
        self.0
    }

    /// Strictly verifies an application-defined protocol transcript signature.
    ///
    /// Returns [`MefError::InvalidFrame`] for an invalid public key encoding and
    /// [`MefError::AuthenticationFailed`] for an invalid signature.
    pub fn verify(&self, message: &[u8], signature: &[u8; 64]) -> (res: Result<()>)
        ensures
            res == verification(self@, message@, signature@),
    {
        if !ed25519_check_key(&self.0) {
            return Err(MefError::InvalidFrame);
        }
        if !ed25519_verify_strict(&self.0, message, signature) {
            return Err(MefError::AuthenticationFailed);
        }
        Ok(())
    }

    /// Strictly verifies a signed-prekey transcript signature.
    pub(crate) fn verify_prekey(&self, message: &[u8], signature: &[u8; 64]) -> (res: Result<()>)
        ensures
            res == verification(self@, message@, signature@),
    {
        self.verify(message, signature)
    }
}

/// An Ed25519 identity signing key, held as its 32-byte seed; its view is the seed.
pub struct IdentityKeyPair {
    seed: [u8; 32],
    public: IdentityPublicKey,
}

impl View for IdentityKeyPair {
    type V = Seq<u8>;

    closed spec fn view(&self) -> Seq<u8> {
        self.seed@
    }
}

/// Every identity signing key holds a 32-byte seed.
pub broadcast proof fn lemma_identity_seed_len(pair: IdentityKeyPair)
    ensures
        #[trigger] pair@.len() == IDENTITY_KEY_LEN,
{
}

impl IdentityKeyPair {
    #[verifier::type_invariant]
    spec fn inv(self) -> bool {
        &&& self.public@ == ed25519_public(self.seed@)
        &&& ed25519_key_valid(self.public@)
    }

    /// Generates a fresh identity key from the operating-system CSPRNG.
    ///
    /// Fails only with [`MefError::RandomnessUnavailable`].
    pub fn generate() -> (res: Result<Self>)
        ensures
            res matches Err(e) ==> e == MefError::RandomnessUnavailable,
    {
        Ok(Self::from_seed(random_bytes::<32>()?))
    }

    /// Rehydrates an identity key from a 32-byte seed held in an approved secure store.
    pub fn from_seed(seed: [u8; 32]) -> (pair: Self)
        ensures
            pair@ == seed@,
    {
        let public = IdentityPublicKey(ed25519_public_key(&seed));
        IdentityKeyPair { seed, public }
    }

    /// Returns the public identity key.
    pub fn public(&self) -> (public: IdentityPublicKey)
        ensures
            public@ == ed25519_public(self@),
            ed25519_key_valid(public@),
    {
        proof { use_type_invariant(self); }
        self.public
    }

    /// Signs an application-defined protocol transcript using Ed25519.
    pub fn sign(&self, message: &[u8]) -> (signature: [u8; 64])
        ensures
            signature@ == ed25519_sign(self@, message@),
            ed25519_key_valid(ed25519_public(self@)),
    {
        proof { use_type_invariant(self); }
        ed25519_sign_bytes(&self.seed, message)
    }
}

} // verus!
