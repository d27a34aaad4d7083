use mef_26::handshake::{
    accept, initiate, InitiatorHandshake, LocalIdentity, ResponderPrekeyBundle, ResponderPrekeyMaterial,
    BUNDLE_LEN, HANDSHAKE_MESSAGE_LEN,
};
use mef_26::ratchet::RatchetState;
use mef_26::{MefError, Result};

#[test]
fn one_time_prekey_handshake_derives_matching_ratchet_material() -> Result<()> {
    let mut responder = ResponderPrekeyMaterial::generate(7, 2_000)?;
    responder.add_one_time_prekey(19)?;
    let bundle = ResponderPrekeyBundle::decode(&responder.bundle().encode())?;
    assert_eq!(bundle.one_time_prekey().map(|entry| entry.id()), Some(19));
    let initiator = LocalIdentity::generate()?;
    let (message, initiator_handshake) = initiate(&initiator, &bundle, 1_000)?;
    let responder_handshake = accept(&mut responder, &InitiatorHandshake::decode(&message.encode())?)?;
    assert_eq!(initiator_handshake.session_id(), responder_handshake.session_id());
    assert_eq!(responder.available_one_time_prekeys(), 0);
    let _initiator_state = RatchetState::from_authenticated_handshake(initiator_handshake)?;
    let _responder_state = RatchetState::from_authenticated_handshake(responder_handshake)?;
    Ok(())
}

#[test]
fn tampered_identity_binding_is_rejected_before_one_time_prekey_consumption() -> Result<()> {
    let mut responder = ResponderPrekeyMaterial::generate(7, 2_000)?;
    responder.add_one_time_prekey(19)?;
    let initiator = LocalIdentity::generate()?;
    let (message, _) = initiate(&initiator, &responder.bundle(), 1_000)?;
    let mut wire = message.encode();
    wire[68] ^= 1;
    assert_eq!(InitiatorHandshake::decode(&wire).map(|_| ()), Err(MefError::AuthenticationFailed));
    assert_eq!(responder.available_one_time_prekeys(), 1);
    Ok(())
}

#[test]
fn retained_signed_prekey_accepts_delayed_initial_message() -> Result<()> {
    let initiator = LocalIdentity::generate()?;
    let mut responder = ResponderPrekeyMaterial::generate(7, 2_000)?;
    let (delayed, _) = initiate(&initiator, &responder.bundle(), 1_000)?;
    responder.rotate_signed_prekey(8, 3_000)?;
    let _accepted = accept(&mut responder, &delayed)?;
    responder.retire_signed_prekey(7)?;
    Ok(())
}

#[test]
fn handshake_without_one_time_prekey_agrees() -> Result<()> {
    let mut responder = ResponderPrekeyMaterial::generate(1, 50)?;
    let bundle = responder.bundle();
    assert!(bundle.one_time_prekey().is_none());
    let initiator = LocalIdentity::generate()?;
    let (message, initiator_handshake) = initiate(&initiator, &bundle, 49)?;
    let responder_handshake = accept(&mut responder, &message)?;
    assert_eq!(initiator_handshake.session_id(), responder_handshake.session_id());
    Ok(())
}

#[test]
fn expired_bundle_is_rejected() -> Result<()> {
    let responder = ResponderPrekeyMaterial::generate(1, 50)?;
    let initiator = LocalIdentity::generate()?;
    assert_eq!(initiate(&initiator, &responder.bundle(), 50).map(|_| ()), Err(MefError::AuthenticationFailed));
    assert_eq!(initiate(&initiator, &responder.bundle(), 51).map(|_| ()), Err(MefError::AuthenticationFailed));
    assert_eq!(responder.bundle().verify(49), Ok(()));
    assert_eq!(responder.bundle().verify(50), Err(MefError::AuthenticationFailed));
    assert_eq!(responder.bundle().verify(51), Err(MefError::AuthenticationFailed));
    Ok(())
}

#[test]
fn accepting_consumes_only_the_named_one_time_prekey_and_only_once() -> Result<()> {
    let mut responder = ResponderPrekeyMaterial::generate(1, 50)?;
    responder.add_one_time_prekey(10)?;
    responder.add_one_time_prekey(11)?;
    assert_eq!(responder.add_one_time_prekey(10), Err(MefError::InvalidState));
    assert_eq!(responder.available_one_time_prekeys(), 2);
    let initiator = LocalIdentity::generate()?;
    let (message, _) = initiate(&initiator, &responder.bundle(), 10)?;
    let _ = accept(&mut responder, &message)?;
    assert_eq!(responder.available_one_time_prekeys(), 1);
    assert_eq!(responder.bundle().one_time_prekey().map(|entry| entry.id()), Some(11));
    assert_eq!(accept(&mut responder, &message).map(|_| ()), Err(MefError::RatchetStateMismatch));
    assert_eq!(responder.available_one_time_prekeys(), 1);
    Ok(())
}

#[test]
fn signed_prekey_rotation_rejects_known_identifiers_and_retirement_needs_a_retained_one() -> Result<()> {
    let mut responder = ResponderPrekeyMaterial::generate(7, 2_000)?;
    assert_eq!(responder.rotate_signed_prekey(7, 3_000), Err(MefError::InvalidState));
    responder.rotate_signed_prekey(8, 3_000)?;
    assert_eq!(responder.rotate_signed_prekey(7, 3_000), Err(MefError::InvalidState));
    assert_eq!(responder.bundle().signed_prekey().key_id(), 8);
    assert_eq!(responder.retire_signed_prekey(8), Err(MefError::InvalidState));
    responder.retire_signed_prekey(7)?;
    assert_eq!(responder.retire_signed_prekey(7), Err(MefError::InvalidState));
    let initiator = LocalIdentity::generate()?;
    let mut stale = ResponderPrekeyMaterial::generate(7, 2_000)?;
    let (message, _) = initiate(&initiator, &stale.bundle(), 1_000)?;
    stale.rotate_signed_prekey(8, 3_000)?;
    stale.retire_signed_prekey(7)?;
    assert_eq!(accept(&mut stale, &message).map(|_| ()), Err(MefError::RatchetStateMismatch));
    Ok(())
}

#[test]
fn bundle_and_message_encodings_are_canonical() -> Result<()> {
    let mut responder = ResponderPrekeyMaterial::generate(3, 99)?;
    let plain = responder.bundle().encode();
    assert_eq!(plain.len(), BUNDLE_LEN);
    assert_eq!(ResponderPrekeyBundle::decode(&plain)?, responder.bundle());
    responder.add_one_time_prekey(4)?;
    let with_one_time = responder.bundle().encode();
    assert_eq!(ResponderPrekeyBundle::decode(&with_one_time)?.encode(), with_one_time);
    let mut bad_flag = with_one_time.clone();
    bad_flag[240] = 2;
    assert_eq!(ResponderPrekeyBundle::decode(&bad_flag).map(|_| ()), Err(MefError::InvalidFrame));
    let mut nonzero_absent = plain.clone();
    nonzero_absent[250] = 1;
    assert_eq!(ResponderPrekeyBundle::decode(&nonzero_absent).map(|_| ()), Err(MefError::InvalidFrame));
    let mut tampered = plain;
    tampered[40] ^= 1;
    assert_eq!(ResponderPrekeyBundle::decode(&tampered).map(|_| ()), Err(MefError::AuthenticationFailed));

    let initiator = LocalIdentity::generate()?;
    let (message, _) = initiate(&initiator, &responder.bundle(), 1)?;
    let wire = message.encode();
    assert_eq!(wire.len(), HANDSHAKE_MESSAGE_LEN);
    assert_eq!(&wire[..4], b"MEH\x01");
    assert_eq!(InitiatorHandshake::decode(&wire)?, message);
    let mut trailing = wire.clone();
    trailing.push(0);
    assert_eq!(InitiatorHandshake::decode(&trailing).map(|_| ()), Err(MefError::InvalidFrame));
    let mut bad_flag = wire;
    bad_flag[200] = 7;
    assert_eq!(InitiatorHandshake::decode(&bad_flag).map(|_| ()), Err(MefError::InvalidFrame));
    Ok(())
}

#[test]
fn identity_record_verifies_and_exposes_its_keys() -> Result<()> {
    let identity = LocalIdentity::generate()?;
    let record = identity.public();
    assert_eq!(record.verify(), Ok(()));
    assert_eq!(identity.public(), record);
    assert_ne!(record.signing_identity().to_bytes(), record.dh_identity().to_bytes());
    Ok(())
}

#[test]
fn initiator_message_encoding_lays_out_every_field() -> Result<()> {
    let mut responder = ResponderPrekeyMaterial::generate(7, 2_000)?;
    let initiator = LocalIdentity::generate()?;
    let (without, _) = initiate(&initiator, &responder.bundle(), 1_000)?;
    responder.add_one_time_prekey(0x0102_0304)?;
    let (with, _) = initiate(&initiator, &responder.bundle(), 1_000)?;
    for (message, one_time) in [(without, [0_u8, 0, 0, 0, 0]), (with, [1_u8, 1, 2, 3, 4])] {
        let wire = message.encode();
        assert_eq!(wire.len(), HANDSHAKE_MESSAGE_LEN);
        assert_eq!(&wire[..4], b"MEH\x01");
        let identity = message.initiator_identity();
        assert_eq!(&wire[4..36], &identity.signing_identity().to_bytes());
        assert_eq!(&wire[36..68], &identity.dh_identity().to_bytes());
        assert_eq!(&wire[132..164], &message.initiator_ephemeral().to_bytes());
        assert_eq!(&wire[196..200], &7_u32.to_be_bytes());
        assert_eq!(&wire[200..205], &one_time);
    }
    Ok(())
}
