use mef_26::crypto::AeadSuite;
use mef_26::frame::{FrameKind, InnerFrame};
use mef_26::handshake::{accept, initiate, LocalIdentity, ResponderPrekeyMaterial};
use mef_26::ratchet::{RatchetState, StateSealKey};
use mef_26::{MefError, Result, MAX_AAD_LEN};

fn pair() -> Result<(RatchetState, RatchetState)> {
    pair_with_suite(AeadSuite::XChaCha20Poly1305)
}

fn pair_with_suite(suite: AeadSuite) -> Result<(RatchetState, RatchetState)> {
    let alice_identity = LocalIdentity::generate()?;
    let mut bob_material = ResponderPrekeyMaterial::generate(7, 2_000)?;
    bob_material.add_one_time_prekey(19)?;
    let (message, alice_handshake) = initiate(&alice_identity, &bob_material.bundle(), 1_000)?;
    let bob_handshake = accept(&mut bob_material, &message)?;
    Ok((
        RatchetState::from_authenticated_handshake_with_suite(alice_handshake, suite)?,
        RatchetState::from_authenticated_handshake_with_suite(bob_handshake, suite)?,
    ))
}

#[test]
fn aes_gcm_siv_ratchet_round_trip_and_snapshot_restore() -> Result<()> {
    let (mut alice, mut bob) = pair_with_suite(AeadSuite::Aes256GcmSiv)?;
    assert_eq!(alice.suite(), AeadSuite::Aes256GcmSiv);
    assert_eq!(bob.decrypt(&alice.encrypt(FrameKind::Message, b"siv payload")?)?, b"siv payload");
    let key = StateSealKey::from_bytes([17_u8; 32]);
    let blob = bob.seal_state(&key, b"v011/aes-siv")?;
    let restored = RatchetState::restore_state(&key, b"v011/aes-siv", bob.generation(), &blob)?;
    assert_eq!(restored.suite(), AeadSuite::Aes256GcmSiv);
    Ok(())
}

#[test]
fn bidirectional_messages_round_trip() -> Result<()> {
    let (mut alice, mut bob) = pair()?;
    assert_eq!(bob.decrypt(&alice.encrypt(FrameKind::Message, b"from alice")?)?, b"from alice");
    assert_eq!(alice.decrypt(&bob.encrypt(FrameKind::Message, b"from bob")?)?, b"from bob");
    Ok(())
}

#[test]
fn out_of_order_messages_use_and_consume_skipped_keys() -> Result<()> {
    let (mut alice, mut bob) = pair()?;
    let one = alice.encrypt(FrameKind::Message, b"one")?;
    let two = alice.encrypt(FrameKind::Message, b"two")?;
    let three = alice.encrypt(FrameKind::Message, b"three")?;
    assert_eq!(bob.decrypt(&three)?, b"three");
    assert_eq!(bob.skipped_key_count(), 2);
    assert_eq!(bob.decrypt(&one)?, b"one");
    assert_eq!(bob.decrypt(&two)?, b"two");
    assert_eq!(bob.skipped_key_count(), 0);
    assert_eq!(bob.decrypt(&one), Err(MefError::MessageKeyConsumed));
    Ok(())
}

#[test]
fn failed_authentication_does_not_advance_state() -> Result<()> {
    let (mut alice, mut bob) = pair()?;
    let frame = alice.encrypt(FrameKind::Message, b"valid")?;
    let mut bytes = frame.encode()?;
    let last = bytes.len().checked_sub(1).ok_or(MefError::InvalidFrame)?;
    bytes[last] ^= 1;
    let tampered = InnerFrame::decode(&bytes)?;
    assert_eq!(bob.decrypt(&tampered), Err(MefError::AuthenticationFailed));
    assert_eq!(bob.decrypt(&frame)?, b"valid");
    Ok(())
}

#[test]
fn proactive_dh_rotation_is_processed_by_peer() -> Result<()> {
    let (mut alice, mut bob) = pair()?;
    let old_public = alice.current_public_key();
    alice.rotate_sending_ratchet()?;
    assert_ne!(alice.current_public_key(), old_public);
    assert_eq!(bob.decrypt(&alice.encrypt(FrameKind::Control, b"new ratchet")?)?, b"new ratchet");
    Ok(())
}

#[test]
fn encrypted_snapshot_restores_full_out_of_order_state() -> Result<()> {
    let key = StateSealKey::from_bytes([9_u8; 32]);
    let (mut alice, mut bob) = pair()?;
    let first = alice.encrypt(FrameKind::Message, b"first")?;
    let second = alice.encrypt(FrameKind::Message, b"second")?;
    assert_eq!(bob.decrypt(&second)?, b"second");
    let blob = bob.seal_state(&key, b"account/device/session")?;
    let mut restored = RatchetState::restore_state(&key, b"account/device/session", bob.generation(), &blob)?;
    assert_eq!(restored.decrypt(&first)?, b"first");
    Ok(())
}

#[test]
fn snapshot_is_context_bound_and_rollback_checked() -> Result<()> {
    let key = StateSealKey::from_bytes([3_u8; 32]);
    let (state, _) = pair()?;
    let blob = state.seal_state(&key, b"context-a")?;
    assert!(matches!(
        RatchetState::restore_state(&key, b"context-b", 0, &blob),
        Err(MefError::AuthenticationFailed)
    ));
    assert!(matches!(
        RatchetState::restore_state(&key, b"context-a", 1, &blob),
        Err(MefError::StateRollbackDetected)
    ));
    Ok(())
}

#[test]
fn first_messages_flow_in_both_directions_after_the_handshake() -> Result<()> {
    let (mut alice, mut bob) = pair()?;
    assert_eq!(alice.session_id(), bob.session_id());
    assert_eq!(alice.generation(), 0);
    let from_bob = bob.encrypt(FrameKind::Message, b"bob speaks first")?;
    assert_eq!(alice.decrypt(&from_bob)?, b"bob speaks first");
    for round in 0..5_u8 {
        let frame = alice.encrypt(FrameKind::Message, &[round; 3])?;
        assert_eq!(frame.header().message_number(), u32::from(round));
        assert_eq!(bob.decrypt(&frame)?, vec![round; 3]);
    }
    assert_eq!(alice.generation(), 6);
    assert_eq!(bob.skipped_key_count(), 0);
    Ok(())
}

#[test]
fn wrong_suite_frames_are_rejected_as_mismatched() -> Result<()> {
    let (mut alice, _) = pair_with_suite(AeadSuite::Aes256Gcm)?;
    let (_, mut bob) = pair()?;
    let frame = alice.encrypt(FrameKind::Message, b"x")?;
    assert_eq!(bob.decrypt(&frame), Err(MefError::RatchetStateMismatch));
    Ok(())
}

#[test]
fn snapshot_restores_every_field_and_rejects_tampering() -> Result<()> {
    let key = StateSealKey::from_bytes([5_u8; 32]);
    let (mut alice, mut bob) = pair_with_suite(AeadSuite::ChaCha20Poly1305)?;
    let skipped = alice.encrypt(FrameKind::Message, b"skipped")?;
    let delivered = alice.encrypt(FrameKind::Message, b"delivered")?;
    assert_eq!(bob.decrypt(&delivered)?, b"delivered");
    let blob = bob.seal_state(&key, b"slot")?;
    assert_eq!(&blob[..4], b"MRS\x02");
    assert_eq!(&blob[4..12], &bob.generation().to_be_bytes());
    let restored = RatchetState::restore_state(&key, b"slot", 0, &blob)?;
    assert_eq!(restored.session_id(), bob.session_id());
    assert_eq!(restored.current_public_key(), bob.current_public_key());
    assert_eq!(restored.suite(), AeadSuite::ChaCha20Poly1305);
    assert_eq!(restored.skipped_key_count(), 1);
    assert_eq!(restored.generation(), bob.generation());
    let mut restored = restored;
    assert_eq!(restored.decrypt(&skipped)?, b"skipped");
    let reply = restored.encrypt(FrameKind::Message, b"reply")?;
    assert_eq!(alice.decrypt(&reply)?, b"reply");

    let other_key = StateSealKey::from_bytes([6_u8; 32]);
    assert!(matches!(RatchetState::restore_state(&other_key, b"slot", 0, &blob), Err(MefError::AuthenticationFailed)));
    let mut tampered = blob.clone();
    let last = tampered.len() - 1;
    tampered[last] ^= 1;
    assert!(matches!(RatchetState::restore_state(&key, b"slot", 0, &tampered), Err(MefError::AuthenticationFailed)));
    let mut bad_version = blob.clone();
    bad_version[3] = 3;
    assert!(matches!(RatchetState::restore_state(&key, b"slot", 0, &bad_version), Err(MefError::InvalidFrame)));
    let mut truncated = blob.clone();
    truncated.pop();
    assert!(matches!(RatchetState::restore_state(&key, b"slot", 0, &truncated), Err(MefError::InvalidFrame)));
    assert!(matches!(RatchetState::restore_state(&key, b"slot", 0, &blob[..20]), Err(MefError::InvalidFrame)));
    Ok(())
}

#[test]
fn oversized_snapshot_context_is_rejected() -> Result<()> {
    let key = StateSealKey::from_bytes([5_u8; 32]);
    let (state, _) = pair()?;
    let context = vec![1_u8; MAX_AAD_LEN];
    assert_eq!(state.seal_state(&key, &context), Err(MefError::InvalidLength));
    let one_too_many = vec![1_u8; MAX_AAD_LEN - 23];
    assert_eq!(state.seal_state(&key, &one_too_many), Err(MefError::InvalidLength));
    let fits = vec![1_u8; MAX_AAD_LEN - 24];
    let blob = state.seal_state(&key, &fits)?;
    assert!(RatchetState::restore_state(&key, &fits, 0, &blob).is_ok());
    Ok(())
}

#[test]
fn oversized_and_exhausted_encryptions_fail_cleanly() -> Result<()> {
    let (mut alice, mut bob) = pair()?;
    let oversized = vec![0_u8; mef_26::MAX_CIPHERTEXT_LEN];
    assert_eq!(alice.encrypt(FrameKind::Message, &oversized).map(|_| ()), Err(MefError::InvalidLength));
    assert_eq!(alice.generation(), 0);
    let frame = alice.encrypt(FrameKind::Message, b"after failure")?;
    assert_eq!(frame.header().message_number(), 0);
    assert_eq!(bob.decrypt(&frame)?, b"after failure");
    Ok(())
}

const LEGACY_KEY: [u8; 32] = [12_u8; 32];

fn snapshot_aad(context: &[u8]) -> Vec<u8> {
    let mut aad = b"MEF-26/ratchet-state-v1\0".to_vec();
    aad.extend_from_slice(context);
    aad
}

/// Opens a current-version record and returns the state encoding after the header copy.
fn open_snapshot(blob: &[u8], context: &[u8]) -> Result<Vec<u8>> {
    let ciphertext = mef_26::crypto::Ciphertext::from_parts(
        AeadSuite::XChaCha20Poly1305,
        blob[17..41].to_vec(),
        blob[41..].to_vec(),
    )?;
    let plaintext = mef_26::crypto::open(&mef_26::crypto::AeadKey::from_bytes(LEGACY_KEY), &ciphertext, &snapshot_aad(context))?;
    assert_eq!(&plaintext[..17], &blob[..17]);
    Ok(plaintext[17..].to_vec())
}

fn build_snapshot(version: u8, generation: &[u8], state: &[u8], context: &[u8]) -> Result<Vec<u8>> {
    let header_copy = if version == 1 { 0 } else { 17 };
    let mut blob = b"MRS".to_vec();
    blob.push(version);
    blob.extend_from_slice(generation);
    blob.push(24);
    blob.extend_from_slice(&((header_copy + state.len() + 16) as u32).to_be_bytes());
    let mut plaintext = blob[..header_copy].to_vec();
    plaintext.extend_from_slice(state);
    let sealed = mef_26::crypto::seal_with_nonce(
        &mef_26::crypto::AeadKey::from_bytes(LEGACY_KEY),
        AeadSuite::XChaCha20Poly1305,
        &[1_u8; 24],
        &snapshot_aad(context),
        &plaintext,
    )?;
    blob.extend_from_slice(sealed.nonce());
    blob.extend_from_slice(sealed.body());
    Ok(blob)
}

#[test]
fn snapshot_header_is_authenticated() -> Result<()> {
    let key = StateSealKey::from_bytes(LEGACY_KEY);
    let (mut alice, mut bob) = pair()?;
    assert_eq!(bob.decrypt(&alice.encrypt(FrameKind::Message, b"advance")?)?, b"advance");
    let generation = bob.generation();
    let blob = bob.seal_state(&key, b"slot")?;
    assert!(RatchetState::restore_state(&key, b"slot", generation, &blob).is_ok());
    for forged in [generation + 1, generation + 1_000, u64::MAX] {
        let mut tampered = blob.clone();
        tampered[4..12].copy_from_slice(&forged.to_be_bytes());
        assert!(matches!(
            RatchetState::restore_state(&key, b"slot", generation, &tampered),
            Err(MefError::AuthenticationFailed)
        ));
    }
    let mut downgraded = blob.clone();
    downgraded[3] = 1;
    assert!(matches!(
        RatchetState::restore_state(&key, b"slot", 0, &downgraded),
        Err(MefError::InvalidFrame) | Err(MefError::InvalidState)
    ));
    let plaintext = open_snapshot(&blob, b"slot")?;
    let rebuilt = build_snapshot(2, &blob[4..12], &plaintext, b"slot")?;
    assert_eq!(RatchetState::restore_state(&key, b"slot", 0, &rebuilt)?.generation(), generation);
    Ok(())
}

#[test]
fn late_frame_opens_after_a_dh_ratchet_step() -> Result<()> {
    let (mut alice, mut bob) = pair()?;
    let zero = alice.encrypt(FrameKind::Message, b"zero")?;
    alice.rotate_sending_ratchet()?;
    let one = alice.encrypt(FrameKind::Message, b"one")?;
    assert_eq!(bob.decrypt(&one)?, b"one");
    assert_eq!(bob.skipped_key_count(), 1);
    assert_eq!(bob.decrypt(&zero)?, b"zero");
    assert_eq!(bob.skipped_key_count(), 0);
    assert_eq!(bob.decrypt(&zero), Err(MefError::RatchetStateMismatch));
    let reply = bob.encrypt(FrameKind::Message, b"reply")?;
    assert_eq!(alice.decrypt(&reply)?, b"reply");
    Ok(())
}

#[test]
fn first_version_snapshots_restore_as_xchacha_ratchets() -> Result<()> {
    let key = StateSealKey::from_bytes(LEGACY_KEY);
    let (mut alice, mut bob) = pair()?;
    let early = alice.encrypt(FrameKind::Message, b"early")?;
    let later = alice.encrypt(FrameKind::Message, b"later")?;
    assert_eq!(bob.decrypt(&later)?, b"later");
    let blob = bob.seal_state(&key, b"legacy")?;
    let mut plaintext = open_snapshot(&blob, b"legacy")?;
    assert_eq!(plaintext.len(), 207 + 68);
    assert_eq!(plaintext[206], AeadSuite::XChaCha20Poly1305.id());
    plaintext.remove(206);
    let legacy = build_snapshot(1, &blob[4..12], &plaintext, b"legacy")?;
    let mut restored = RatchetState::restore_state(&key, b"legacy", 0, &legacy)?;
    assert_eq!(restored.suite(), AeadSuite::XChaCha20Poly1305);
    assert_eq!(restored.generation(), bob.generation());
    assert_eq!(restored.decrypt(&early)?, b"early");
    Ok(())
}

#[test]
fn snapshot_with_unknown_suite_or_duplicate_keys_is_refused() -> Result<()> {
    let key = StateSealKey::from_bytes(LEGACY_KEY);
    let (mut alice, mut bob) = pair()?;
    let _first = alice.encrypt(FrameKind::Message, b"first")?;
    let second = alice.encrypt(FrameKind::Message, b"second")?;
    assert_eq!(bob.decrypt(&second)?, b"second");
    let blob = bob.seal_state(&key, b"slot")?;
    let plaintext = open_snapshot(&blob, b"slot")?;

    let mut unknown_suite = plaintext.clone();
    unknown_suite[206] = 9;
    let record = build_snapshot(2, &blob[4..12], &unknown_suite, b"slot")?;
    assert!(matches!(RatchetState::restore_state(&key, b"slot", 0, &record), Err(MefError::UnsupportedSuite)));

    let mut duplicated = plaintext.clone();
    let entry = plaintext[207..275].to_vec();
    duplicated.extend_from_slice(&entry);
    duplicated[205] = 2;
    let record = build_snapshot(2, &blob[4..12], &duplicated, b"slot")?;
    assert!(matches!(RatchetState::restore_state(&key, b"slot", 0, &record), Err(MefError::InvalidState)));

    let mut miscounted = plaintext.clone();
    miscounted[205] = 2;
    let record = build_snapshot(2, &blob[4..12], &miscounted, b"slot")?;
    assert!(matches!(RatchetState::restore_state(&key, b"slot", 0, &record), Err(MefError::InvalidFrame)));

    let mut over_limit = plaintext;
    over_limit[204] = 0x04;
    over_limit[205] = 0x01;
    let record = build_snapshot(2, &blob[4..12], &over_limit, b"slot")?;
    assert!(matches!(RatchetState::restore_state(&key, b"slot", 0, &record), Err(MefError::InvalidState)));
    Ok(())
}

#[test]
fn dh_ratchet_turns_alternate_between_both_sides() -> Result<()> {
    let (mut alice, mut bob) = pair()?;
    alice.rotate_sending_ratchet()?;
    for round in 0..4_u8 {
        let alice_key = alice.current_public_key();
        let frame = alice.encrypt(FrameKind::Message, &[round, 1])?;
        assert_eq!(frame.header().ratchet_public(), alice_key.to_bytes());
        assert_eq!(frame.header().message_number(), 0);
        let bob_key = bob.current_public_key();
        assert_eq!(bob.decrypt(&frame)?, vec![round, 1]);
        assert_ne!(bob.current_public_key(), bob_key);
        let reply = bob.encrypt(FrameKind::Message, &[round, 2])?;
        assert_eq!(reply.header().ratchet_public(), bob.current_public_key().to_bytes());
        assert_eq!(alice.decrypt(&reply)?, vec![round, 2]);
        assert_ne!(alice.current_public_key(), alice_key);
        assert_eq!(alice.skipped_key_count(), 0);
        assert_eq!(bob.skipped_key_count(), 0);
    }
    Ok(())
}
