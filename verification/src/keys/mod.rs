//! X25519 and Ed25519 key wrappers used by MEF-26.
mod dh;
mod identity;
mod prekey;

pub use dh::{
    accepted_by_every_secret, lemma_pair_agreement, zero_public_key, agreement, agrees_symmetrically, lemma_dh_pair_len, lemma_dh_public_len, lemma_dh_secret_len, shared_result, x25519_agree,
    x25519_public, DhKeyPair, DhPublicKey, DhSecretKey, DH_KEY_LEN,
};
pub use identity::{
    ed25519_key_valid, ed25519_public, ed25519_sign, ed25519_verify, lemma_identity_public_len,
    lemma_identity_seed_len,
    verification, IdentityKeyPair, IdentityPublicKey, IDENTITY_KEY_LEN,
};
pub use prekey::{
    identity_fingerprint, lemma_signed_prekey_len, prekey_transcript, prekey_verification, signed_prekey_label,
    SignedPrekey, SignedPrekeyView, FINGERPRINT_LABEL, SIGNATURE_LEN,
};
pub(crate) use prekey::transcript;
