//! Typed wrappers around audited cryptographic primitives.
mod aead;
mod kdf;
mod random;
mod secret;

pub use aead::{
    aead_open, aead_seal, aes256gcm_open, aes256gcm_seal, aes256gcmsiv_open, aes256gcmsiv_seal, chacha20poly1305_open,
    chacha20poly1305_seal, inputs_oversized, lemma_suite_id_round_trip, open, open_spec, seal,
    seal_with_nonce, xchacha20poly1305_open, xchacha20poly1305_seal, AeadSuite, Ciphertext,
    CiphertextView, AEAD_TAG_LEN,
};
pub use kdf::{
    blake3, blake3_id, blake3_id_input, blake3_id_kind, blake3_request_invalid, ct_eq,
    derive_aead_key, derive_secret, domain_label_spec, encode_parts, hkdf_sha256, kdf, kdf_kind,
    kdf_request_invalid, lemma_ascii_label_len, lemma_encode_parts_injective, parts_view, protocol_id_bytes,
    zero_extended, SHA256_BLOCK_LEN,
};
pub(crate) use kdf::push_protocol_id;
pub(crate) use random::fill_secure;
pub(crate) use secret::{wipe_bytes, wipe_vec};
pub use random::random_bytes;
pub use secret::{lemma_aead_key_len, lemma_secret_len, AeadKey, Secret, KEY_LEN};
