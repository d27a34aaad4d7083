use mef_26::crypto::{AeadKey, AeadSuite};
use mef_26::envelope::{
    envelope_label, protocol_id, MailboxCapability, OuterEnvelope, ReplayCache, TransportMessageId,
};
use mef_26::frame::{FrameHeader, FrameKind, InnerFrame};
use mef_26::keys::DhKeyPair;
use mef_26::{MefError, Result};

fn inner_frame() -> Result<InnerFrame> {
    InnerFrame::seal(
        &AeadKey::from_bytes([4_u8; 32]),
        AeadSuite::XChaCha20Poly1305,
        FrameHeader::new(FrameKind::Message, [8_u8; 32], [7_u8; 32], 0, 1),
        b"inner",
    )
}

#[test]
fn envelope_round_trips_with_padding_and_canonical_encoding() -> Result<()> {
    let recipient = DhKeyPair::generate()?;
    let mailbox = MailboxCapability::generate()?;
    let inner = inner_frame()?;
    let public = recipient.public();
    let secret = recipient.into_secret();
    let envelope = OuterEnvelope::seal(public, mailbox, 1_800_000_000, &inner, 32)?;
    let decoded = OuterEnvelope::decode(&envelope.encode()?)?;
    let plaintext = decoded.open(&secret, 1_700_000_000)?;
    let expected = inner.encode()?;
    assert_eq!(&plaintext[..expected.len()], expected.as_slice());
    assert_eq!(&plaintext[expected.len()..], &[0_u8; 32]);
    Ok(())
}

#[test]
fn envelope_rejects_expiration_and_header_tampering() -> Result<()> {
    let recipient = DhKeyPair::generate()?;
    let mailbox = MailboxCapability::generate()?;
    let inner = inner_frame()?;
    let public = recipient.public();
    let secret = recipient.into_secret();
    let envelope = OuterEnvelope::seal(public, mailbox, 1_700_000_000, &inner, 0)?;
    assert_eq!(envelope.open(&secret, 1_700_000_001), Err(MefError::EnvelopeExpired));
    assert_eq!(envelope.open(&secret, 1_700_000_000), Err(MefError::EnvelopeExpired));
    let mut bytes = envelope.encode()?;
    bytes[60] ^= 1;
    assert_eq!(
        OuterEnvelope::decode(&bytes)?.open(&secret, 1_600_000_000),
        Err(MefError::AuthenticationFailed)
    );
    Ok(())
}

#[test]
fn open_inner_removes_padding_and_replay_cache_rejects_duplicates() -> Result<()> {
    let recipient = DhKeyPair::generate()?;
    let public = recipient.public();
    let secret = recipient.into_secret();
    let inner = inner_frame()?;
    let envelope = OuterEnvelope::seal(public, MailboxCapability::generate()?, 1_800_000_000, &inner, 64)?;
    let decoded = OuterEnvelope::decode(&envelope.encode()?)?;
    assert_eq!(decoded.open_inner(&secret, 1_700_000_000)?, inner);
    let mut replay_cache = ReplayCache::new(8)?;
    assert_eq!(decoded.open_inner_once(&secret, 1_700_000_000, &mut replay_cache)?, inner);
    assert!(matches!(
        decoded.open_inner_once(&secret, 1_700_000_000, &mut replay_cache),
        Err(MefError::ReplayDetected)
    ));
    Ok(())
}

#[test]
fn storage_identifier_is_stable_but_capability_is_random() -> Result<()> {
    let first = MailboxCapability::generate()?;
    let second = MailboxCapability::generate()?;
    assert_ne!(first, second);
    assert_eq!(first.storage_id()?, first.storage_id()?);
    assert_ne!(first.storage_id()?, second.storage_id()?);
    Ok(())
}

#[test]
fn wrong_recipient_cannot_open_an_envelope() -> Result<()> {
    let recipient = DhKeyPair::generate()?;
    let other = DhKeyPair::generate()?;
    let envelope = OuterEnvelope::seal(recipient.public(), MailboxCapability::generate()?, 100, &inner_frame()?, 0)?;
    assert_eq!(envelope.open(&other.into_secret(), 50), Err(MefError::AuthenticationFailed));
    Ok(())
}

#[test]
fn envelope_accessors_report_the_sealed_header() -> Result<()> {
    let recipient = DhKeyPair::generate()?;
    let mailbox = MailboxCapability::from_bytes([6_u8; 32]);
    let envelope = OuterEnvelope::seal(recipient.public(), mailbox, 777, &inner_frame()?, 3)?;
    assert_eq!(envelope.mailbox(), mailbox);
    assert_eq!(envelope.expires_at_unix(), 777);
    let decoded = OuterEnvelope::decode(&envelope.encode()?)?;
    assert_eq!(decoded, envelope);
    assert_eq!(decoded.message_id(), envelope.message_id());
    Ok(())
}

#[test]
fn open_inner_returns_the_frame_until_expiry() -> Result<()> {
    let recipient = DhKeyPair::generate()?;
    let inner = inner_frame()?;
    let envelope = OuterEnvelope::seal(recipient.public(), MailboxCapability::generate()?, 100, &inner, 4)?;
    let decoded = OuterEnvelope::decode(&envelope.encode()?)?;
    let secret = recipient.into_secret();
    assert_eq!(decoded.open_inner(&secret, 99)?, inner);
    assert_eq!(decoded.open_inner(&secret, 100), Err(MefError::EnvelopeExpired));
    assert_eq!(decoded.open_inner(&secret, 101), Err(MefError::EnvelopeExpired));
    Ok(())
}

#[test]
fn oversized_padding_is_rejected() -> Result<()> {
    let recipient = DhKeyPair::generate()?;
    let result = OuterEnvelope::seal(
        recipient.public(),
        MailboxCapability::generate()?,
        100,
        &inner_frame()?,
        mef_26::MAX_CIPHERTEXT_LEN,
    );
    assert_eq!(result.map(|_| ()), Err(MefError::InvalidLength));
    Ok(())
}

#[test]
fn decoder_rejects_bad_magic_version_and_suite() -> Result<()> {
    let recipient = DhKeyPair::generate()?;
    let envelope = OuterEnvelope::seal(recipient.public(), MailboxCapability::generate()?, 100, &inner_frame()?, 0)?;
    let bytes = envelope.encode()?;
    let mut bad_magic = bytes.clone();
    bad_magic[0] = b'X';
    assert_eq!(OuterEnvelope::decode(&bad_magic), Err(MefError::InvalidFrame));
    let mut bad_version = bytes.clone();
    bad_version[3] = 2;
    assert_eq!(OuterEnvelope::decode(&bad_version), Err(MefError::InvalidFrame));
    let mut unknown_suite = bytes.clone();
    unknown_suite[4] = 99;
    assert_eq!(OuterEnvelope::decode(&unknown_suite), Err(MefError::UnsupportedSuite));
    let mut other_suite = bytes;
    other_suite[4] = AeadSuite::Aes256Gcm.id();
    assert_eq!(OuterEnvelope::decode(&other_suite), Err(MefError::InvalidFrame));
    Ok(())
}

#[test]
fn replay_cache_expires_entries_and_enforces_capacity() -> Result<()> {
    assert_eq!(ReplayCache::new(0).map(|_| ()), Err(MefError::InvalidLength));
    let mut cache = ReplayCache::new(2)?;
    assert!(cache.is_empty());
    let first = TransportMessageId::from_bytes([1_u8; 16]);
    let second = TransportMessageId::from_bytes([2_u8; 16]);
    let third = TransportMessageId::from_bytes([3_u8; 16]);
    assert_eq!(cache.check_and_insert(first, 10, 5), Ok(()));
    assert_eq!(cache.check_and_insert(first, 10, 6), Err(MefError::ReplayDetected));
    assert_eq!(cache.check_and_insert(second, 20, 6), Ok(()));
    assert_eq!(cache.len(), 2);
    assert_eq!(cache.check_and_insert(third, 30, 7), Err(MefError::InvalidState));
    assert_eq!(cache.check_and_insert(third, 30, 11), Ok(()));
    assert_eq!(cache.len(), 2);
    assert_eq!(cache.check_and_insert(first, 40, 12), Err(MefError::InvalidState));
    assert_eq!(cache.check_and_insert(first, 40, 21), Ok(()));
    Ok(())
}

#[test]
fn transport_identifiers_are_random_and_round_trip() -> Result<()> {
    let first = TransportMessageId::generate()?;
    let second = TransportMessageId::generate()?;
    assert_ne!(first, second);
    assert_eq!(TransportMessageId::from_bytes(first.to_bytes()), first);
    let capability = MailboxCapability::generate()?;
    assert_eq!(MailboxCapability::from_bytes(capability.to_bytes()), capability);
    Ok(())
}

#[test]
fn envelope_labels_name_the_protocol() {
    assert_eq!(envelope_label(), "MEF-26/outer-envelope-v1");
    assert_eq!(protocol_id(), "MEF-26");
}

#[test]
fn envelope_expiry_is_exclusive() -> Result<()> {
    let pair = DhKeyPair::generate()?;
    let public = pair.public();
    let secret = pair.into_secret();
    let inner = inner_frame()?;
    let envelope = OuterEnvelope::seal(public, MailboxCapability::generate()?, 1_700_000_000, &inner, 0)?;
    assert_eq!(envelope.open(&secret, 1_699_999_999)?, inner.encode()?);
    assert_eq!(envelope.open(&secret, 1_700_000_000), Err(MefError::EnvelopeExpired));
    let mut bytes = envelope.encode()?;
    bytes[60] ^= 1;
    let tampered = OuterEnvelope::decode(&bytes)?;
    assert_eq!(tampered.expires_at_unix(), 1_700_000_001);
    assert_eq!(tampered.open(&secret, 1_700_000_001), Err(MefError::EnvelopeExpired));
    assert_eq!(tampered.open(&secret, 1_600_000_000), Err(MefError::AuthenticationFailed));
    Ok(())
}

#[test]
fn envelope_encoding_has_header_nonce_padded_frame_and_tag() -> Result<()> {
    let recipient = DhKeyPair::generate()?;
    let inner = inner_frame()?;
    let frame_len = inner.encode()?.len();
    let mailbox = MailboxCapability::generate()?;
    let envelope = OuterEnvelope::seal(recipient.public(), mailbox, 1_700_000_000, &inner, 40)?;
    assert_eq!(envelope.mailbox(), mailbox);
    assert_eq!(envelope.expires_at_unix(), 1_700_000_000);
    assert_eq!(envelope.encode()?.len(), 98 + 24 + frame_len + 40 + 16);
    Ok(())
}

#[test]
fn sealing_to_the_all_zero_key_is_refused() -> Result<()> {
    let result = OuterEnvelope::seal(
        mef_26::keys::DhPublicKey::from_bytes([0_u8; 32]),
        MailboxCapability::generate()?,
        100,
        &inner_frame()?,
        0,
    );
    assert_eq!(result.map(|_| ()), Err(MefError::NonContributoryKeyAgreement));
    Ok(())
}

#[test]
fn inner_frame_encoding_has_header_nonce_plaintext_and_tag() -> Result<()> {
    for suite in [AeadSuite::Aes256Gcm, AeadSuite::Aes256GcmSiv, AeadSuite::ChaCha20Poly1305, AeadSuite::XChaCha20Poly1305] {
        let frame = InnerFrame::seal(
            &AeadKey::from_bytes([4_u8; 32]),
            suite,
            FrameHeader::new(FrameKind::Message, [8_u8; 32], [7_u8; 32], 0, 1),
            b"twelve bytes",
        )?;
        assert_eq!(frame.suite(), suite);
        assert_eq!(frame.encode()?.len(), 83 + suite.nonce_len() + 12 + 16);
    }
    Ok(())
}
