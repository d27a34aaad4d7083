use mef_26::crypto::{
    blake3_id, ct_eq, derive_aead_key, derive_secret, open, random_bytes, seal, seal_with_nonce,
    AeadKey, AeadSuite, Ciphertext,
};
use mef_26::{MefError, Result, MAX_AAD_LEN, MAX_CIPHERTEXT_LEN};

const KEY: [u8; 32] = [7_u8; 32];

fn tampered(ciphertext: &Ciphertext) -> Result<Ciphertext> {
    let mut body = ciphertext.body().to_vec();
    body[0] ^= 1;
    Ciphertext::from_parts(ciphertext.suite(), ciphertext.nonce().to_vec(), body)
}

#[test]
fn every_aead_suite_round_trips() -> Result<()> {
    let key = AeadKey::from_bytes(KEY);
    for suite in [
        AeadSuite::Aes256Gcm,
        AeadSuite::Aes256GcmSiv,
        AeadSuite::ChaCha20Poly1305,
        AeadSuite::XChaCha20Poly1305,
    ] {
        let ciphertext = seal(&key, suite, b"mef aad", b"confidential payload")?;
        assert_eq!(open(&key, &ciphertext, b"mef aad")?, b"confidential payload");
    }
    Ok(())
}

#[test]
fn aes_gcm_siv_rejects_tampering_and_wrong_aad() -> Result<()> {
    let key = AeadKey::from_bytes(KEY);
    let ciphertext = seal_with_nonce(&key, AeadSuite::Aes256GcmSiv, &[9_u8; 12], b"correct aad", b"payload")?;
    assert_eq!(open(&key, &ciphertext, b"wrong aad"), Err(MefError::AuthenticationFailed));
    let ciphertext = tampered(&ciphertext)?;
    assert_eq!(open(&key, &ciphertext, b"correct aad"), Err(MefError::AuthenticationFailed));
    Ok(())
}

#[test]
fn authentication_failure_is_uniform_for_tampering_and_wrong_aad() -> Result<()> {
    let key = AeadKey::from_bytes(KEY);
    let ciphertext =
        seal_with_nonce(&key, AeadSuite::XChaCha20Poly1305, &[9_u8; 24], b"correct aad", b"payload")?;
    assert_eq!(open(&key, &ciphertext, b"wrong aad"), Err(MefError::AuthenticationFailed));
    let ciphertext = tampered(&ciphertext)?;
    assert_eq!(open(&key, &ciphertext, b"correct aad"), Err(MefError::AuthenticationFailed));
    Ok(())
}

#[test]
fn hkdf_labels_are_domain_separated() -> Result<()> {
    let first = derive_aead_key(b"salt", "chain-a", b"input")?;
    let second = derive_aead_key(b"salt", "chain-b", b"input")?;
    assert!(!ct_eq(first.as_bytes(), second.as_bytes()));
    Ok(())
}

#[test]
fn blake3_identifier_is_length_delimited_and_domain_separated() -> Result<()> {
    let one = blake3_id("sid", &[b"ab", b"c"])?;
    let two = blake3_id("sid", &[b"a", b"bc"])?;
    let three = blake3_id("other", &[b"ab", b"c"])?;
    assert_ne!(one, two);
    assert_ne!(one, three);
    Ok(())
}

#[test]
fn explicit_nonce_must_match_suite() {
    let key = AeadKey::from_bytes(KEY);
    assert_eq!(
        seal_with_nonce(&key, AeadSuite::Aes256GcmSiv, &[0_u8; 24], b"", b"payload"),
        Err(MefError::InvalidLength)
    );
}

#[test]
fn sealing_with_a_fixed_nonce_is_deterministic_and_opaque() -> Result<()> {
    let key = AeadKey::from_bytes(KEY);
    for (suite, nonce_len) in [
        (AeadSuite::Aes256Gcm, 12),
        (AeadSuite::Aes256GcmSiv, 12),
        (AeadSuite::ChaCha20Poly1305, 12),
        (AeadSuite::XChaCha20Poly1305, 24),
    ] {
        let nonce = vec![5_u8; nonce_len];
        let first = seal_with_nonce(&key, suite, &nonce, b"aad", b"payload bytes")?;
        let second = seal_with_nonce(&key, suite, &nonce, b"aad", b"payload bytes")?;
        assert_eq!(first, second);
        assert_eq!(first.body().len(), b"payload bytes".len() + 16);
        assert_ne!(&first.body()[..13], b"payload bytes");
        assert_eq!(first.nonce(), nonce.as_slice());
        assert_eq!(first.suite(), suite);
    }
    Ok(())
}

#[test]
fn suites_produce_distinct_ciphertexts_and_reject_each_others_bodies() -> Result<()> {
    let key = AeadKey::from_bytes(KEY);
    let gcm = seal_with_nonce(&key, AeadSuite::Aes256Gcm, &[1_u8; 12], b"", b"same plaintext")?;
    let siv = seal_with_nonce(&key, AeadSuite::Aes256GcmSiv, &[1_u8; 12], b"", b"same plaintext")?;
    let chacha = seal_with_nonce(&key, AeadSuite::ChaCha20Poly1305, &[1_u8; 12], b"", b"same plaintext")?;
    assert_ne!(gcm.body(), siv.body());
    assert_ne!(gcm.body(), chacha.body());
    assert_ne!(siv.body(), chacha.body());
    let relabelled = Ciphertext::from_parts(AeadSuite::Aes256GcmSiv, gcm.nonce().to_vec(), gcm.body().to_vec())?;
    assert_eq!(open(&key, &relabelled, b""), Err(MefError::AuthenticationFailed));
    Ok(())
}

#[test]
fn wrong_key_fails_authentication() -> Result<()> {
    let key = AeadKey::from_bytes(KEY);
    let other = AeadKey::from_bytes([8_u8; 32]);
    let ciphertext = seal(&key, AeadSuite::ChaCha20Poly1305, b"aad", b"secret")?;
    assert_eq!(open(&other, &ciphertext, b"aad"), Err(MefError::AuthenticationFailed));
    Ok(())
}

#[test]
fn oversized_inputs_are_rejected_with_invalid_length() {
    let key = AeadKey::from_bytes(KEY);
    let big_aad = vec![0_u8; MAX_AAD_LEN + 1];
    assert_eq!(
        seal(&key, AeadSuite::XChaCha20Poly1305, &big_aad, b"payload").map(|_| ()),
        Err(MefError::InvalidLength)
    );
    let big_plaintext = vec![0_u8; MAX_CIPHERTEXT_LEN - 15];
    assert_eq!(
        seal(&key, AeadSuite::XChaCha20Poly1305, b"", &big_plaintext).map(|_| ()),
        Err(MefError::InvalidLength)
    );
    let ciphertext = seal(&key, AeadSuite::XChaCha20Poly1305, b"", b"x").unwrap();
    assert_eq!(open(&key, &ciphertext, &big_aad), Err(MefError::InvalidLength));
}

#[test]
fn ciphertext_parts_are_validated() {
    assert_eq!(
        Ciphertext::from_parts(AeadSuite::Aes256Gcm, vec![0_u8; 24], vec![0_u8; 16]).map(|_| ()),
        Err(MefError::InvalidLength)
    );
    assert_eq!(
        Ciphertext::from_parts(AeadSuite::XChaCha20Poly1305, vec![0_u8; 24], vec![0_u8; 15]).map(|_| ()),
        Err(MefError::InvalidLength)
    );
    assert!(Ciphertext::from_parts(AeadSuite::XChaCha20Poly1305, vec![0_u8; 24], vec![0_u8; 16]).is_ok());
}

#[test]
fn suite_identifiers_round_trip_and_unknown_ones_are_rejected() {
    for (suite, id, nonce_len) in [
        (AeadSuite::Aes256Gcm, 1_u8, 12_usize),
        (AeadSuite::ChaCha20Poly1305, 2, 12),
        (AeadSuite::XChaCha20Poly1305, 3, 24),
        (AeadSuite::Aes256GcmSiv, 4, 12),
    ] {
        assert_eq!(suite.id(), id);
        assert_eq!(suite.nonce_len(), nonce_len);
        assert_eq!(AeadSuite::from_id(id), Ok(suite));
    }
    assert_eq!(AeadSuite::from_id(0), Err(MefError::UnsupportedSuite));
    assert_eq!(AeadSuite::from_id(5), Err(MefError::UnsupportedSuite));
}

#[test]
fn key_derivation_is_deterministic_and_rejects_bad_labels() -> Result<()> {
    let first = derive_aead_key(b"salt", "label", b"input")?;
    let again = derive_aead_key(b"salt", "label", b"input")?;
    assert!(ct_eq(first.as_bytes(), again.as_bytes()));
    let other_salt = derive_aead_key(b"pepper", "label", b"input")?;
    assert!(!ct_eq(first.as_bytes(), other_salt.as_bytes()));
    assert_eq!(derive_secret(b"salt", "", b"input").map(|_| ()), Err(MefError::InvalidLength));
    let long_label = "x".repeat(256);
    assert_eq!(derive_aead_key(b"salt", &long_label, b"input").map(|_| ()), Err(MefError::InvalidLength));
    let big_input = vec![0_u8; MAX_CIPHERTEXT_LEN + 1];
    assert_eq!(derive_secret(b"salt", "label", &big_input).map(|_| ()), Err(MefError::InvalidLength));
    Ok(())
}

#[test]
fn blake3_identifier_is_stable_and_rejects_bad_labels() -> Result<()> {
    let one = blake3_id("sid", &[b"ab", b"c"])?;
    assert_eq!(one, blake3_id("sid", &[b"ab", b"c"])?);
    assert_ne!(one, blake3_id("sid", &[b"abc"])?);
    assert_eq!(blake3_id("", &[b"ab"]), Err(MefError::InvalidLength));
    assert_eq!(blake3_id(&"y".repeat(256), &[b"ab"]), Err(MefError::InvalidLength));
    Ok(())
}

#[test]
fn constant_time_comparison_matches_equality() {
    assert!(ct_eq(b"same", b"same"));
    assert!(!ct_eq(b"same", b"sane"));
    assert!(!ct_eq(b"short", b"longer"));
    assert!(ct_eq(b"", b""));
}

#[test]
fn random_bytes_differ_between_calls() -> Result<()> {
    let first = random_bytes::<32>()?;
    let second = random_bytes::<32>()?;
    assert_ne!(first, second);
    Ok(())
}
