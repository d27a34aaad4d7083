//! Optional ML-KEM-768 (FIPS 203) primitive adapter.
//!
//! This module wraps the ML-KEM-768 primitive of the RustCrypto `ml-kem` crate. It does not
//! claim that any higher-level handshake composition is PQXDH-compatible. Key pairs are held as
//! their 64-byte seeds, public keys and ciphertexts as their canonical encodings.
use vstd::prelude::*;

use kem::{Decapsulate, KeyExport};
use ml_kem::ml_kem_768::{DecapsulationKey, EncapsulationKey};

use crate::crypto::{fill_secure, random_bytes, wipe_bytes};
use crate::{MefError, Result};

verus! {

/// Length of an ML-KEM-768 encapsulation key.
pub const ML_KEM_768_PUBLIC_LEN: usize = 1184;

/// Length of an ML-KEM-768 ciphertext.
pub const ML_KEM_768_CIPHERTEXT_LEN: usize = 1088;

/// Length of an ML-KEM-768 decapsulation-key seed.
pub const ML_KEM_768_SEED_LEN: usize = 64;

/// Length of an ML-KEM-768 shared secret.
pub const ML_KEM_768_SHARED_LEN: usize = 32;

/// The encoded ML-KEM-768 encapsulation key of a 64-byte decapsulation-key seed.
pub uninterp spec fn ml_kem768_public(seed: Seq<u8>) -> Seq<u8>;

/// Whether an encoded encapsulation key passes the FIPS 203 encapsulation-key check.
pub uninterp spec fn ml_kem768_key_valid(public: Seq<u8>) -> bool;

/// The ciphertext and shared secret that encapsulation under `public` yields with the
/// 32-byte message `randomness`.
pub uninterp spec fn ml_kem768_encapsulate(public: Seq<u8>, randomness: Seq<u8>) -> (Seq<u8>, Seq<u8>);

/// The shared secret that the decapsulation key of `seed` recovers from `ciphertext`.
pub uninterp spec fn ml_kem768_decapsulate(seed: Seq<u8>, ciphertext: Seq<u8>) -> Seq<u8>;

/// Computes `DecapsulationKey::from_seed(seed).encapsulation_key().to_bytes()`.
///
/// Claims that the result is `ml_kem768_public` of the seed and that it passes the
/// encapsulation-key check of `EncapsulationKey::new`: the key is the 12-bit encoding of
/// coefficients the crate keeps reduced modulo q, which is what that check re-encodes and
/// compares.
#[verifier::external_body]
fn ml_kem768_public_key(seed: &[u8; 64]) -> (public: [u8; 1184])
    ensures
        public@ == ml_kem768_public(seed@),
        ml_kem768_key_valid(public@),
{
    DecapsulationKey::from_seed((*seed).into()).encapsulation_key().to_bytes().into()
}

/// Runs `EncapsulationKey::new` on the encoded key and, when it is accepted,
/// `EncapsulationKey::encapsulate_deterministic` with the 32-byte message.
///
/// Claims that the key is accepted exactly when `ml_kem768_key_valid` holds of it, and that
/// the ciphertext and shared secret are `ml_kem768_encapsulate` of the arguments.
#[verifier::external_body]
fn ml_kem768_encapsulate_with(public: &[u8; 1184], randomness: &[u8; 32]) -> (res: Option<([u8; 1088], [u8; 32])>)
    ensures
        res is Some <==> ml_kem768_key_valid(public@),
        res matches Some(r) ==> (r.0@, r.1@) == ml_kem768_encapsulate(public@, randomness@),
{
    let key = EncapsulationKey::new(&(*public).into()).ok()?;
    let (ciphertext, shared) = key.encapsulate_deterministic(&(*randomness).into());
    Some((ciphertext.into(), shared.into()))
}

/// Computes `DecapsulationKey::from_seed(seed).decapsulate(ciphertext)`; claims only that the
/// result is `ml_kem768_decapsulate` of the arguments.
#[verifier::external_body]
fn ml_kem768_decapsulate_with(seed: &[u8; 64], ciphertext: &[u8; 1088]) -> (shared: [u8; 32])
    ensures
        shared@ == ml_kem768_decapsulate(seed@, ciphertext@),
{
    DecapsulationKey::from_seed((*seed).into()).decapsulate(&(*ciphertext).into()).into()
}

/// An ML-KEM-768 encapsulation public key, held in its canonical encoding.
#[derive(Debug, PartialEq, Eq)]
pub struct MlKem768PublicKey([u8; 1184]);

impl View for MlKem768PublicKey {
    type V = Seq<u8>;

    closed spec fn view(&self) -> Seq<u8> {
        self.0@
    }
}

impl Clone for MlKem768PublicKey {
    fn clone(&self) -> (key: Self)
        ensures
            key@ == self@,
    {
        proof { use_type_invariant(self); }
        MlKem768PublicKey(self.0)
    }
}

/// An ML-KEM-768 ciphertext carrying an encapsulated shared secret.
#[derive(Debug, Clone, PartialEq, Eq)]
pub struct MlKem768Ciphertext([u8; 1088]);

impl View for MlKem768Ciphertext {
    type V = Seq<u8>;

    closed spec fn view(&self) -> Seq<u8> {
        self.0@
    }
}

/// A 32-byte ML-KEM-768 shared secret.
pub struct MlKem768SharedSecret([u8; 32]);

impl View for MlKem768SharedSecret {
    type V = Seq<u8>;

    closed spec fn view(&self) -> Seq<u8> {
        self.0@
    }
}

impl MlKem768SharedSecret {
    /// Exposes the shared-secret bytes, for key derivation and comparison.
    pub fn as_bytes(&self) -> (bytes: &[u8; 32])
        ensures
            bytes@ == self@,
    {
        &self.0
    }
}

/// A locally held ML-KEM-768 decapsulation key (as its seed) plus its encapsulation key.
pub struct MlKem768KeyPair {
    seed: [u8; 64],
    public: MlKem768PublicKey,
}

impl View for MlKem768KeyPair {
    type V = Seq<u8>;

    closed spec fn view(&self) -> Seq<u8> {
        self.seed@
    }
}

impl MlKem768PublicKey {
    #[verifier::type_invariant]
    spec fn inv(self) -> bool {
        ml_kem768_key_valid(self.0@)
    }

    /// Encapsulates a fresh 32-byte secret using operating-system randomness.
    ///
    /// Fails only with [`MefError::RandomnessUnavailable`]; on success the ciphertext and the
    /// shared secret are the ML-KEM-768 encapsulation under this key with some 32-byte message.
    pub fn encapsulate(&self) -> (res: Result<(MlKem768Ciphertext, MlKem768SharedSecret)>)
        ensures
            res matches Err(e) ==> e == MefError::RandomnessUnavailable,
            res matches Ok(r) ==> exists|randomness: Seq<u8>| randomness.len() == 32
                && #[trigger] ml_kem768_encapsulate(self@, randomness) == (r.0@, r.1@),
    {
        proof { use_type_invariant(self); }
        let mut randomness = [0u8; 32];
        fill_secure(&mut randomness)?;
        let encapsulated = ml_kem768_encapsulate_with(&self.0, &randomness);
        let ghost message = randomness@;
        wipe_bytes(&mut randomness);
        match encapsulated {
            Some((ciphertext, shared)) => {
                assert(ml_kem768_encapsulate(self@, message) == (ciphertext@, shared@));
                Ok((MlKem768Ciphertext(ciphertext), MlKem768SharedSecret(shared)))
            },
            None => Err(MefError::RandomnessUnavailable),
        }
    }
}

impl MlKem768KeyPair {
    #[verifier::type_invariant]
    spec fn inv(self) -> bool {
        self.public@ == ml_kem768_public(self.seed@)
    }

    /// Generates a key pair from a 64-byte operating-system random seed.
    ///
    /// Fails only with [`MefError::RandomnessUnavailable`].
    pub fn generate() -> (res: Result<Self>)
        ensures
            res matches Err(e) ==> e == MefError::RandomnessUnavailable,
            res matches Ok(p) ==> p@.len() == ML_KEM_768_SEED_LEN,
    {
        let seed = random_bytes::<64>()?;
        let public = MlKem768PublicKey(ml_kem768_public_key(&seed));
        Ok(MlKem768KeyPair { seed, public })
    }

    /// Returns the public encapsulation key.
    pub fn public(&self) -> (public: MlKem768PublicKey)
        ensures
            public@ == ml_kem768_public(self@),
    {
        proof { use_type_invariant(self); }
        self.public.clone()
    }

    /// Decapsulates a shared secret from an ML-KEM-768 ciphertext; always succeeds (an invalid
    /// ciphertext yields the implicit-rejection secret).
    pub fn decapsulate(&self, ciphertext: &MlKem768Ciphertext) -> (shared: MlKem768SharedSecret)
        ensures
            shared@ == ml_kem768_decapsulate(self@, ciphertext@),
    {
        MlKem768SharedSecret(ml_kem768_decapsulate_with(&self.seed, &ciphertext.0))
    }
}

} // verus!
