//! Signed X25519 prekeys for asynchronous session establishment.
use vstd::prelude::*;

use vstd::string::StringSliceAdditionalSpecFns;

use super::dh::{lemma_dh_public_len, DhPublicKey};
use super::identity::{
    ed25519_key_valid, ed25519_public, ed25519_sign, ed25519_verify, lemma_identity_public_len, verification, IdentityKeyPair,
    IdentityPublicKey,
};
use crate::bytes::{extend_bytes, push_u32_be, push_u64_be, u32_be, u64_be};
use crate::crypto::{blake3, blake3_id, blake3_id_input, parts_view, protocol_id_bytes, push_protocol_id};
use crate::{MefError, Result};

verus! {

broadcast use {lemma_dh_public_len, lemma_identity_public_len};

/// Fixed byte length of an Ed25519 signature.
pub const SIGNATURE_LEN: usize = 64;

/// The label under which identity fingerprints are derived.
pub const FINGERPRINT_LABEL: &'static str = "identity-fingerprint-v1";

/// The bytes of the signed-prekey transcript label "signed-prekey-v1".
pub open spec fn signed_prekey_label() -> Seq<u8> {
    seq![0x73u8, 0x69u8, 0x67u8, 0x6eu8, 0x65u8, 0x64u8, 0x2du8, 0x70u8, 0x72u8, 0x65u8, 0x6bu8, 0x65u8, 0x79u8, 0x2du8, 0x76u8, 0x31u8]
}

/// The transcript that a signed prekey's signature covers.
pub open spec fn prekey_transcript(key_id: u32, prekey: Seq<u8>, expires_at_unix: u64) -> Seq<u8> {
    protocol_id_bytes() + seq![0u8] + signed_prekey_label() + u32_be(key_id) + prekey + u64_be(expires_at_unix)
}

/// Builds the signed-prekey transcript.
pub(crate) fn transcript(key_id: u32, prekey: DhPublicKey, expires_at_unix: u64) -> (out: Vec<u8>)
    ensures
        out@ == prekey_transcript(key_id, prekey@, expires_at_unix),
{
    let label: [u8; 16] = [0x73, 0x69, 0x67, 0x6e, 0x65, 0x64, 0x2d, 0x70, 0x72, 0x65, 0x6b, 0x65, 0x79, 0x2d, 0x76, 0x31];
    assert(label@ =~= signed_prekey_label());
    let mut out: Vec<u8> = Vec::new();
    push_protocol_id(&mut out);
    out.push(0);
    extend_bytes(&mut out, &label);
    push_u32_be(&mut out, key_id);
    let public = prekey.to_bytes();
    extend_bytes(&mut out, &public);
    push_u64_be(&mut out, expires_at_unix);
    assert(out@ =~= prekey_transcript(key_id, prekey@, expires_at_unix));
    out
}

/// The abstract content of a signed prekey record.
pub struct SignedPrekeyView {
    /// The stable prekey identifier.
    pub key_id: u32,
    /// The X25519 public prekey.
    pub public: Seq<u8>,
    /// The exclusive expiration timestamp in Unix seconds.
    pub expires_at_unix: u64,
    /// The detached Ed25519 signature.
    pub signature: Seq<u8>,
}

/// What verifying a signed prekey at `now_unix` returns: [`MefError::AuthenticationFailed`]
/// from its (exclusive) expiry on, otherwise the strict verification of its transcript signature.
pub open spec fn prekey_verification(identity: Seq<u8>, record: SignedPrekeyView, now_unix: u64) -> core::result::Result<(), MefError> {
    if now_unix >= record.expires_at_unix {
        Err(MefError::AuthenticationFailed)
    } else {
        verification(identity, prekey_transcript(record.key_id, record.public, record.expires_at_unix), record.signature)
    }
}

/// A signed X25519 prekey for asynchronous session establishment.
#[derive(Debug, Clone, Copy, PartialEq, Eq)]
pub struct SignedPrekey {
    key_id: u32,
    public: DhPublicKey,
    expires_at_unix: u64,
    signature: [u8; 64],
}

impl View for SignedPrekey {
    type V = SignedPrekeyView;

    closed spec fn view(&self) -> SignedPrekeyView {
        SignedPrekeyView {
            key_id: self.key_id,
            public: self.public@,
            expires_at_unix: self.expires_at_unix,
            signature: self.signature@,
        }
    }
}

/// Every signed prekey record holds a 32-byte key and a 64-byte signature.
pub broadcast proof fn lemma_signed_prekey_len(record: SignedPrekey)
    ensures
        #[trigger] record@.public.len() == 32 && record@.signature.len() == SIGNATURE_LEN,
{
}

impl SignedPrekey {
    /// Reconstructs a signed-prekey record from canonical authenticated wire fields.
    pub fn from_parts(key_id: u32, public: DhPublicKey, expires_at_unix: u64, signature: [u8; 64]) -> (record: Self)
        ensures
            record@ == (SignedPrekeyView { key_id, public: public@, expires_at_unix, signature: signature@ }),
    {
        SignedPrekey { key_id, public, expires_at_unix, signature }
    }

    /// Creates and signs a prekey from an X25519 public key.
    ///
    /// Before its expiry the record verifies under the identity's public key exactly when
    /// strict verification accepts the signature on the transcript.
    pub fn issue(identity: &IdentityKeyPair, key_id: u32, public: DhPublicKey, expires_at_unix: u64) -> (record: Self)
        ensures
            record@ == (SignedPrekeyView {
                key_id,
                public: public@,
                expires_at_unix,
                signature: ed25519_sign(identity@, prekey_transcript(key_id, public@, expires_at_unix)),
            }),
            forall|now: u64| now < expires_at_unix ==> (#[trigger] prekey_verification(ed25519_public(identity@), record@, now) is Ok
                <==> ed25519_verify(ed25519_public(identity@), prekey_transcript(key_id, public@, expires_at_unix), record@.signature)),
    {
        let signature = identity.sign_prekey(key_id, public, expires_at_unix);
        SignedPrekey { key_id, public, expires_at_unix, signature }
    }

    /// Verifies the record signature and validity window against an identity public key.
    ///
    /// Returns [`MefError::AuthenticationFailed`] after expiry or for an invalid signature, and
    /// [`MefError::InvalidFrame`] for an identity key that does not decode.
    pub fn verify(&self, identity: IdentityPublicKey, now_unix: u64) -> (res: Result<()>)
        ensures
            res == prekey_verification(identity@, self@, now_unix),
    {
        if now_unix >= self.expires_at_unix {
            return Err(MefError::AuthenticationFailed);
        }
        let message = transcript(self.key_id, self.public, self.expires_at_unix);
        identity.verify_prekey(message.as_slice(), &self.signature)
    }

    /// Returns the stable prekey identifier.
    pub fn key_id(&self) -> (id: u32)
        ensures
            id == self@.key_id,
    {
        self.key_id
    }

    /// Returns the X25519 public prekey.
    pub fn public(&self) -> (public: DhPublicKey)
        ensures
            public@ == self@.public,
    {
        self.public
    }

    /// Returns the exclusive expiration timestamp in Unix seconds.
    pub fn expires_at_unix(&self) -> (t: u64)
        ensures
            t == self@.expires_at_unix,
    {
        self.expires_at_unix
    }

    /// Returns the detached Ed25519 signature.
    pub fn signature(&self) -> (signature: [u8; 64])
        ensures
            signature@ == self@.signature,
    {
        self.signature
    }
}

impl IdentityKeyPair {
    /// Signs a signed-prekey record using Ed25519.
    pub fn sign_prekey(&self, key_id: u32, prekey: DhPublicKey, expires_at_unix: u64) -> (signature: [u8; 64])
        ensures
            signature@ == ed25519_sign(self@, prekey_transcript(key_id, prekey@, expires_at_unix)),
            ed25519_key_valid(ed25519_public(self@)),
    {
        let message = transcript(key_id, prekey, expires_at_unix);
        self.sign(message.as_slice())
    }
}

/// Produces a stable, domain-separated 32-byte identity fingerprint.
///
/// The fingerprint is the BLAKE3 identifier of the key bytes under "identity-fingerprint-v1".
pub fn identity_fingerprint(identity: IdentityPublicKey) -> (res: Result<[u8; 32]>)
    ensures
        res matches Ok(d) ==> d@ == blake3(blake3_id_input(FINGERPRINT_LABEL.spec_bytes(), seq![identity@])),
        res is Ok,
{
    let bytes = identity.to_bytes();
    let parts: [&[u8]; 1] = [bytes.as_slice()];
    assert(parts_view(parts@) =~= seq![identity@]);
    proof {
        reveal_strlit("identity-fingerprint-v1");
        crate::crypto::lemma_ascii_label_len(FINGERPRINT_LABEL);
    }
    blake3_id(FINGERPRINT_LABEL, &parts)
}

} // verus!
