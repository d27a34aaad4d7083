use mef_26::crypto::ct_eq;
use mef_26::pq::MlKem768KeyPair;

#[test]
fn ml_kem_768_round_trips_and_randomizes_ciphertexts() {
    let keypair = MlKem768KeyPair::generate();
    assert!(keypair.is_ok());
    if let Ok(keypair) = keypair {
        let public = keypair.public();
        let first = public.encapsulate();
        let second = public.encapsulate();
        assert!(first.is_ok());
        assert!(second.is_ok());
        if let (Some((first_ciphertext, first_secret)), Some((second_ciphertext, second_secret))) =
            (first.ok(), second.ok())
        {
            let first_received = keypair.decapsulate(&first_ciphertext);
            let second_received = keypair.decapsulate(&second_ciphertext);
            assert!(ct_eq(first_secret.as_bytes(), first_received.as_bytes()));
            assert!(ct_eq(second_secret.as_bytes(), second_received.as_bytes()));
            assert!(!ct_eq(first_secret.as_bytes(), second_secret.as_bytes()));
        }
    }
}

#[test]
fn ml_kem_768_public_key_is_stable_and_distinct_per_key_pair() {
    let first = MlKem768KeyPair::generate().unwrap();
    let second = MlKem768KeyPair::generate().unwrap();
    assert_eq!(first.public(), first.public());
    assert_ne!(first.public(), second.public());
}

#[test]
fn ml_kem_768_wrong_key_pair_recovers_a_different_secret() {
    let first = MlKem768KeyPair::generate().unwrap();
    let second = MlKem768KeyPair::generate().unwrap();
    let (ciphertext, secret) = first.public().encapsulate().unwrap();
    assert!(!ct_eq(second.decapsulate(&ciphertext).as_bytes(), secret.as_bytes()));
    assert!(ct_eq(first.decapsulate(&ciphertext).as_bytes(), secret.as_bytes()));
}
