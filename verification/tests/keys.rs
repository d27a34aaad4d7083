use mef_26::keys::{
    identity_fingerprint, DhKeyPair, DhPublicKey, DhSecretKey, IdentityKeyPair, IdentityPublicKey,
    SignedPrekey,
};
use mef_26::{MefError, Result};

#[test]
fn x25519_agreement_is_symmetric() -> Result<()> {
    let alice = DhKeyPair::generate()?;
    let bob = DhKeyPair::generate()?;
    assert_eq!(alice.diffie_hellman(bob.public())?, bob.diffie_hellman(alice.public())?);
    Ok(())
}

#[test]
fn non_contributory_x25519_input_is_rejected() -> Result<()> {
    let pair = DhKeyPair::generate()?;
    assert_eq!(
        pair.diffie_hellman(DhPublicKey::from_bytes([0_u8; 32])),
        Err(MefError::NonContributoryKeyAgreement)
    );
    Ok(())
}

#[test]
fn signed_prekey_requires_correct_identity_and_freshness() -> Result<()> {
    let identity = IdentityKeyPair::generate()?;
    let other_identity = IdentityKeyPair::generate()?;
    let prekey = DhKeyPair::generate()?;
    let record = SignedPrekey::issue(&identity, 17, prekey.public(), 1_800_000_000);
    assert_eq!(record.verify(identity.public(), 1_700_000_000), Ok(()));
    assert_eq!(
        record.verify(other_identity.public(), 1_700_000_000),
        Err(MefError::AuthenticationFailed)
    );
    assert_eq!(record.verify(identity.public(), 1_900_000_000), Err(MefError::AuthenticationFailed));
    assert_eq!(record.verify(identity.public(), 1_800_000_000), Err(MefError::AuthenticationFailed));
    assert_eq!(record.verify(identity.public(), 1_799_999_999), Ok(()));
    Ok(())
}

#[test]
fn identity_fingerprint_changes_with_key() -> Result<()> {
    let first = IdentityKeyPair::generate()?;
    let second = IdentityKeyPair::generate()?;
    assert_ne!(identity_fingerprint(first.public())?, identity_fingerprint(second.public())?);
    Ok(())
}

#[test]
fn x25519_public_key_is_derived_deterministically_from_the_secret() {
    let secret = DhSecretKey::from_bytes([0x42_u8; 32]);
    let public = secret.public_key();
    assert_ne!(public.to_bytes(), [0x42_u8; 32]);
    assert_eq!(DhSecretKey::from_bytes([0x42_u8; 32]).public_key(), public);
    let pair = DhKeyPair::from_secret(DhSecretKey::from_bytes([0x42_u8; 32]));
    assert_eq!(pair.public(), public);
}

#[test]
fn x25519_matches_the_rfc7748_test_vector() -> Result<()> {
    let alice_secret: [u8; 32] = [
        0x77, 0x07, 0x6d, 0x0a, 0x73, 0x18, 0xa5, 0x7d, 0x3c, 0x16, 0xc1, 0x72, 0x51, 0xb2, 0x66, 0x45,
        0xdf, 0x4c, 0x2f, 0x87, 0xeb, 0xc0, 0x99, 0x2a, 0xb1, 0x77, 0xfb, 0xa5, 0x1d, 0xb9, 0x2c, 0x2a,
    ];
    let alice_public: [u8; 32] = [
        0x85, 0x20, 0xf0, 0x09, 0x89, 0x30, 0xa7, 0x54, 0x74, 0x8b, 0x7d, 0xdc, 0xb4, 0x3e, 0xf7, 0x5a,
        0x0d, 0xbf, 0x3a, 0x0d, 0x26, 0x38, 0x1a, 0xf4, 0xeb, 0xa4, 0xa9, 0x8e, 0xaa, 0x9b, 0x4e, 0x6a,
    ];
    let bob_secret: [u8; 32] = [
        0x5d, 0xab, 0x08, 0x7e, 0x62, 0x4a, 0x8a, 0x4b, 0x79, 0xe1, 0x7f, 0x8b, 0x83, 0x80, 0x0e, 0xe6,
        0x6f, 0x3b, 0xb1, 0x29, 0x26, 0x18, 0xb6, 0xfd, 0x1c, 0x2f, 0x8b, 0x27, 0xff, 0x88, 0xe0, 0xeb,
    ];
    let bob_public: [u8; 32] = [
        0xde, 0x9e, 0xdb, 0x7d, 0x7b, 0x7d, 0xc1, 0xb4, 0xd3, 0x5b, 0x61, 0xc2, 0xec, 0xe4, 0x35, 0x37,
        0x3f, 0x83, 0x43, 0xc8, 0x5b, 0x78, 0x67, 0x4d, 0xad, 0xfc, 0x7e, 0x14, 0x6f, 0x88, 0x2b, 0x4f,
    ];
    let shared: [u8; 32] = [
        0x4a, 0x5d, 0x9d, 0x5b, 0xa4, 0xce, 0x2d, 0xe1, 0x72, 0x8e, 0x3b, 0xf4, 0x80, 0x35, 0x0f, 0x25,
        0xe0, 0x7e, 0x21, 0xc9, 0x47, 0xd1, 0x9e, 0x33, 0x76, 0xf0, 0x9b, 0x3c, 0x1e, 0x16, 0x17, 0x42,
    ];
    let alice = DhSecretKey::from_bytes(alice_secret);
    assert_eq!(alice.public_key().to_bytes(), alice_public);
    let bob = DhSecretKey::from_bytes(bob_secret);
    assert_eq!(bob.public_key().to_bytes(), bob_public);
    assert_eq!(bob.diffie_hellman(DhPublicKey::from_bytes(alice_public))?, shared);
    assert_eq!(alice.diffie_hellman(bob.public_key())?, shared);
    Ok(())
}

#[test]
fn identity_signatures_verify_only_for_the_signed_message() -> Result<()> {
    let identity = IdentityKeyPair::from_seed([3_u8; 32]);
    let signature = identity.sign(b"transcript");
    assert_eq!(identity.public().verify(b"transcript", &signature), Ok(()));
    assert_eq!(identity.public().verify(b"transcripT", &signature), Err(MefError::AuthenticationFailed));
    let mut flipped = signature;
    flipped[0] ^= 1;
    assert_eq!(identity.public().verify(b"transcript", &flipped), Err(MefError::AuthenticationFailed));
    assert_eq!(IdentityKeyPair::from_seed([3_u8; 32]).public(), identity.public());
    assert_eq!(identity.sign(b"transcript"), signature);
    Ok(())
}

#[test]
fn ed25519_matches_the_rfc8032_empty_message_vector() -> Result<()> {
    let seed: [u8; 32] = [
        0x9d, 0x61, 0xb1, 0x9d, 0xef, 0xfd, 0x5a, 0x60, 0xba, 0x84, 0x4a, 0xf4, 0x92, 0xec, 0x2c, 0xc4,
        0x44, 0x49, 0xc5, 0x69, 0x7b, 0x32, 0x69, 0x19, 0x70, 0x3b, 0xac, 0x03, 0x1c, 0xae, 0x7f, 0x60,
    ];
    let public: [u8; 32] = [
        0xd7, 0x5a, 0x98, 0x01, 0x82, 0xb1, 0x0a, 0xb7, 0xd5, 0x4b, 0xfe, 0xd3, 0xc9, 0x64, 0x07, 0x3a,
        0x0e, 0xe1, 0x72, 0xf3, 0xda, 0xa6, 0x23, 0x25, 0xaf, 0x02, 0x1a, 0x68, 0xf7, 0x07, 0x51, 0x1a,
    ];
    let identity = IdentityKeyPair::from_seed(seed);
    assert_eq!(identity.public().to_bytes(), public);
    let signature = identity.sign(b"");
    assert_eq!(identity.public().verify(b"", &signature), Ok(()));
    assert_eq!(IdentityPublicKey::from_bytes(public)?.verify(b"", &signature), Ok(()));
    Ok(())
}

#[test]
fn signed_prekey_record_round_trips_through_its_parts() -> Result<()> {
    let identity = IdentityKeyPair::generate()?;
    let prekey = DhKeyPair::generate()?;
    let record = SignedPrekey::issue(&identity, 5, prekey.public(), 100);
    let rebuilt = SignedPrekey::from_parts(record.key_id(), record.public(), record.expires_at_unix(), record.signature());
    assert_eq!(rebuilt, record);
    assert_eq!(rebuilt.verify(identity.public(), 99), Ok(()));
    assert_eq!(rebuilt.verify(identity.public(), 100), Err(MefError::AuthenticationFailed));
    let forged = SignedPrekey::from_parts(6, record.public(), record.expires_at_unix(), record.signature());
    assert_eq!(forged.verify(identity.public(), 50), Err(MefError::AuthenticationFailed));
    assert_eq!(identity.sign_prekey(5, prekey.public(), 100), record.signature());
    Ok(())
}

#[test]
fn fingerprint_is_stable_for_one_key() -> Result<()> {
    let identity = IdentityKeyPair::from_seed([9_u8; 32]);
    let fingerprint = identity_fingerprint(identity.public())?;
    assert_eq!(fingerprint, identity_fingerprint(identity.public())?);
    assert_ne!(fingerprint, identity.public().to_bytes());
    Ok(())
}

#[test]
fn identity_key_parsing_rejects_non_points() {
    let mut rejected = 0;
    for byte in 0..=255_u8 {
        match IdentityPublicKey::from_bytes([byte; 32]) {
            Ok(key) => assert_eq!(key.to_bytes(), [byte; 32]),
            Err(error) => {
                assert_eq!(error, MefError::InvalidFrame);
                rejected += 1;
            },
        }
    }
    assert!(rejected > 0);
}

#[test]
fn generated_key_pairs_agree_and_refuse_the_all_zero_key() -> Result<()> {
    let alice = DhKeyPair::generate()?;
    let bob = DhKeyPair::generate()?;
    let forward = alice.diffie_hellman(bob.public());
    assert!(forward.is_ok());
    assert_eq!(forward, bob.diffie_hellman(alice.public()));
    assert_eq!(
        alice.diffie_hellman(DhPublicKey::from_bytes([0_u8; 32])),
        Err(MefError::NonContributoryKeyAgreement)
    );
    Ok(())
}

#[test]
fn signed_prekey_expiry_is_exclusive() -> Result<()> {
    let identity = IdentityKeyPair::generate()?;
    let record = SignedPrekey::issue(&identity, 17, DhKeyPair::generate()?.public(), 1_800_000_000);
    assert_eq!(record.verify(identity.public(), 1_799_999_999), Ok(()));
    assert_eq!(record.verify(identity.public(), 1_800_000_000), Err(MefError::AuthenticationFailed));
    Ok(())
}
