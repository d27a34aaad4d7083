//! Authenticated encryption over the RustCrypto AES-256-GCM, AES-256-GCM-SIV and (X)ChaCha20-Poly1305 ciphers.
use vstd::prelude::*;

use aes_gcm::aead::{AeadInOut, KeyInit};
use aes_gcm::{Aes256Gcm, Nonce as AesNonce};
use aes_gcm_siv::{Aes256GcmSiv, Nonce as SivNonce};
use chacha20poly1305::{ChaCha20Poly1305, Nonce as ChaChaNonce, XChaCha20Poly1305, XNonce};

use super::random::fill_secure;
use super::secret::{lemma_aead_key_len, AeadKey};
use crate::{MefError, Result, MAX_AAD_LEN, MAX_CIPHERTEXT_LEN};

verus! {

broadcast use lemma_aead_key_len;

/// Nonce length of AES-256-GCM and ChaCha20-Poly1305.
pub const AES_CHACHA_NONCE_LEN: usize = 12;

/// Nonce length of XChaCha20-Poly1305.
pub const XCHACHA_NONCE_LEN: usize = 24;

/// Length of the authentication tag appended by every suite.
pub const AEAD_TAG_LEN: usize = 16;

/// Supported authenticated-encryption suites for application payloads.
#[derive(Debug, Clone, Copy, PartialEq, Eq, Hash, Structural)]
pub enum AeadSuite {
    /// AES-256-GCM with a 96-bit nonce and a 128-bit authentication tag.
    Aes256Gcm,
    /// AES-256-GCM-SIV (RFC 8452) with a 96-bit nonce and a 128-bit authentication tag.
    Aes256GcmSiv,
    /// ChaCha20-Poly1305 with a 96-bit nonce and a 128-bit authentication tag.
    ChaCha20Poly1305,
    /// XChaCha20-Poly1305 with a 192-bit nonce and a 128-bit authentication tag.
    XChaCha20Poly1305,
}

impl AeadSuite {
    /// The stable wire identifier of the suite.
    pub open spec fn spec_id(self) -> u8 {
        match self {
            AeadSuite::Aes256Gcm => 1,
            AeadSuite::ChaCha20Poly1305 => 2,
            AeadSuite::XChaCha20Poly1305 => 3,
            AeadSuite::Aes256GcmSiv => 4,
        }
    }

    /// The nonce length the suite requires.
    pub open spec fn spec_nonce_len(self) -> nat {
        match self {
            AeadSuite::XChaCha20Poly1305 => 24,
            _ => 12,
        }
    }

    /// The suite whose wire identifier is `value`, if any.
    pub open spec fn spec_from_id(value: u8) -> Option<AeadSuite> {
        if value == 1 {
            Some(AeadSuite::Aes256Gcm)
        } else if value == 2 {
            Some(AeadSuite::ChaCha20Poly1305)
        } else if value == 3 {
            Some(AeadSuite::XChaCha20Poly1305)
        } else if value == 4 {
            Some(AeadSuite::Aes256GcmSiv)
        } else {
            None
        }
    }

    /// Parses a stable wire identifier into an AEAD suite.
    ///
    /// Returns [`MefError::UnsupportedSuite`] for an unknown identifier.
    pub fn from_id(value: u8) -> (res: Result<Self>)
        ensures
            res == (match Self::spec_from_id(value) {
                Some(s) => Ok(s),
                None => Err(MefError::UnsupportedSuite),
            }),
    {
        match value {
            1 => Ok(AeadSuite::Aes256Gcm),
            2 => Ok(AeadSuite::ChaCha20Poly1305),
            3 => Ok(AeadSuite::XChaCha20Poly1305),
            4 => Ok(AeadSuite::Aes256GcmSiv),
            _ => Err(MefError::UnsupportedSuite),
        }
    }

    /// Returns the stable wire identifier for this suite.
    pub fn id(self) -> (id: u8)
        ensures
            id == self.spec_id(),
            Self::spec_from_id(id) == Some(self),
    {
        match self {
            AeadSuite::Aes256Gcm => 1,
            AeadSuite::ChaCha20Poly1305 => 2,
            AeadSuite::XChaCha20Poly1305 => 3,
            AeadSuite::Aes256GcmSiv => 4,
        }
    }

    /// Returns the nonce length required by this suite.
    pub fn nonce_len(self) -> (len: usize)
        ensures
            len == self.spec_nonce_len(),
    {
        match self {
            AeadSuite::Aes256Gcm | AeadSuite::Aes256GcmSiv | AeadSuite::ChaCha20Poly1305 => AES_CHACHA_NONCE_LEN,
            AeadSuite::XChaCha20Poly1305 => XCHACHA_NONCE_LEN,
        }
    }
}

/// Decoding the identifier of a suite gives back the suite.
pub proof fn lemma_suite_id_round_trip(suite: AeadSuite)
    ensures
        AeadSuite::spec_from_id(suite.spec_id()) == Some(suite),
{
}

/// Ciphertext bytes that AES-256-GCM produces (ciphertext followed by the tag).
pub uninterp spec fn aes256gcm_seal(key: Seq<u8>, nonce: Seq<u8>, aad: Seq<u8>, plaintext: Seq<u8>) -> Seq<u8>;

/// Plaintext that AES-256-GCM authenticates and recovers, `None` when authentication fails.
pub uninterp spec fn aes256gcm_open(key: Seq<u8>, nonce: Seq<u8>, aad: Seq<u8>, body: Seq<u8>) -> Option<Seq<u8>>;

/// Ciphertext bytes that AES-256-GCM-SIV produces (ciphertext followed by the tag).
pub uninterp spec fn aes256gcmsiv_seal(key: Seq<u8>, nonce: Seq<u8>, aad: Seq<u8>, plaintext: Seq<u8>) -> Seq<u8>;

/// Plaintext that AES-256-GCM-SIV authenticates and recovers, `None` when authentication fails.
pub uninterp spec fn aes256gcmsiv_open(key: Seq<u8>, nonce: Seq<u8>, aad: Seq<u8>, body: Seq<u8>) -> Option<Seq<u8>>;

/// Ciphertext bytes that ChaCha20-Poly1305 produces (ciphertext followed by the tag).
pub uninterp spec fn chacha20poly1305_seal(key: Seq<u8>, nonce: Seq<u8>, aad: Seq<u8>, plaintext: Seq<u8>) -> Seq<u8>;

/// Plaintext that ChaCha20-Poly1305 authenticates and recovers, `None` when authentication fails.
pub uninterp spec fn chacha20poly1305_open(key: Seq<u8>, nonce: Seq<u8>, aad: Seq<u8>, body: Seq<u8>) -> Option<Seq<u8>>;

/// Ciphertext bytes that XChaCha20-Poly1305 produces (ciphertext followed by the tag).
pub uninterp spec fn xchacha20poly1305_seal(key: Seq<u8>, nonce: Seq<u8>, aad: Seq<u8>, plaintext: Seq<u8>) -> Seq<u8>;

/// Plaintext that XChaCha20-Poly1305 authenticates and recovers, `None` when authentication fails.
pub uninterp spec fn xchacha20poly1305_open(key: Seq<u8>, nonce: Seq<u8>, aad: Seq<u8>, body: Seq<u8>) -> Option<Seq<u8>>;

/// The ciphertext body that `suite` produces.
pub open spec fn aead_seal(suite: AeadSuite, key: Seq<u8>, nonce: Seq<u8>, aad: Seq<u8>, plaintext: Seq<u8>) -> Seq<u8> {
    match suite {
        AeadSuite::Aes256Gcm => aes256gcm_seal(key, nonce, aad, plaintext),
        AeadSuite::Aes256GcmSiv => aes256gcmsiv_seal(key, nonce, aad, plaintext),
        AeadSuite::ChaCha20Poly1305 => chacha20poly1305_seal(key, nonce, aad, plaintext),
        AeadSuite::XChaCha20Poly1305 => xchacha20poly1305_seal(key, nonce, aad, plaintext),
    }
}

/// The plaintext that `suite` authenticates and recovers from a ciphertext body.
pub open spec fn aead_open(suite: AeadSuite, key: Seq<u8>, nonce: Seq<u8>, aad: Seq<u8>, body: Seq<u8>) -> Option<Seq<u8>> {
    match suite {
        AeadSuite::Aes256Gcm => aes256gcm_open(key, nonce, aad, body),
        AeadSuite::Aes256GcmSiv => aes256gcmsiv_open(key, nonce, aad, body),
        AeadSuite::ChaCha20Poly1305 => chacha20poly1305_open(key, nonce, aad, body),
        AeadSuite::XChaCha20Poly1305 => xchacha20poly1305_open(key, nonce, aad, body),
    }
}


/// Encrypts with `aes_gcm::Aes256Gcm` (`KeyInit::new_from_slice`, `AeadInOut::encrypt_in_place`).
///
/// Claims: for a 12-byte nonce and inputs within the crate's size limits the call succeeds
/// (the source rejects only inputs far above those limits), the body is `aes256gcm_seal` of the
/// arguments and 16 bytes longer than the plaintext, and opening that body with the same key,
/// nonce and associated data gives back the plaintext (AEAD correctness).
#[verifier::external_body]
fn aes256gcm_encrypt(key: &[u8; 32], nonce: &[u8], aad: &[u8], plaintext: &[u8]) -> (body: Option<Vec<u8>>)
    requires
        nonce@.len() == 12,
        aad@.len() <= MAX_AAD_LEN,
        plaintext@.len() <= MAX_CIPHERTEXT_LEN,
    ensures
        body is Some,
        body matches Some(b) ==> b@ == aes256gcm_seal(key@, nonce@, aad@, plaintext@),
        body matches Some(b) ==> b@.len() == plaintext@.len() + AEAD_TAG_LEN,
        body matches Some(b) ==> aes256gcm_open(key@, nonce@, aad@, b@) == Some(plaintext@),
{
    let cipher = Aes256Gcm::new_from_slice(key).ok()?;
    let nonce = AesNonce::try_from(nonce).ok()?;
    let mut body = plaintext.to_vec();
    cipher.encrypt_in_place(&nonce, aad, &mut body).ok()?;
    Some(body)
}

/// Authenticates and decrypts with `aes_gcm::Aes256Gcm` (`AeadInOut::decrypt_in_place`).
///
/// Claims only that the result is `aes256gcm_open` of the arguments.
#[verifier::external_body]
fn aes256gcm_decrypt(key: &[u8; 32], nonce: &[u8], aad: &[u8], body: &[u8]) -> (plaintext: Option<Vec<u8>>)
    requires
        nonce@.len() == 12,
    ensures
        (match plaintext {
            Some(p) => aes256gcm_open(key@, nonce@, aad@, body@) == Some(p@),
            None => aes256gcm_open(key@, nonce@, aad@, body@) is None,
        }),
{
    let cipher = Aes256Gcm::new_from_slice(key).ok()?;
    let nonce = AesNonce::try_from(nonce).ok()?;
    let mut plaintext = body.to_vec();
    cipher.decrypt_in_place(&nonce, aad, &mut plaintext).ok()?;
    Some(plaintext)
}

/// Encrypts with `aes_gcm_siv::Aes256GcmSiv` (`KeyInit::new_from_slice`, `AeadInOut::encrypt_in_place`).
///
/// Claims: for a 12-byte nonce and inputs within the crate's size limits the call succeeds
/// (the source rejects only inputs far above those limits), the body is `aes256gcmsiv_seal` of the
/// arguments and 16 bytes longer than the plaintext, and opening that body with the same key,
/// nonce and associated data gives back the plaintext (AEAD correctness).
#[verifier::external_body]
fn aes256gcmsiv_encrypt(key: &[u8; 32], nonce: &[u8], aad: &[u8], plaintext: &[u8]) -> (body: Option<Vec<u8>>)
    requires
        nonce@.len() == 12,
        aad@.len() <= MAX_AAD_LEN,
        plaintext@.len() <= MAX_CIPHERTEXT_LEN,
    ensures
        body is Some,
        body matches Some(b) ==> b@ == aes256gcmsiv_seal(key@, nonce@, aad@, plaintext@),
        body matches Some(b) ==> b@.len() == plaintext@.len() + AEAD_TAG_LEN,
        body matches Some(b) ==> aes256gcmsiv_open(key@, nonce@, aad@, b@) == Some(plaintext@),
{
    let cipher = Aes256GcmSiv::new_from_slice(key).ok()?;
    let nonce = SivNonce::try_from(nonce).ok()?;
    let mut body = plaintext.to_vec();
    cipher.encrypt_in_place(&nonce, aad, &mut body).ok()?;
    Some(body)
}

/// Authenticates and decrypts with `aes_gcm_siv::Aes256GcmSiv` (`AeadInOut::decrypt_in_place`).
///
/// Claims only that the result is `aes256gcmsiv_open` of the arguments.
#[verifier::external_body]
fn aes256gcmsiv_decrypt(key: &[u8; 32], nonce: &[u8], aad: &[u8], body: &[u8]) -> (plaintext: Option<Vec<u8>>)
    requires
        nonce@.len() == 12,
    ensures
        (match plaintext {
            Some(p) => aes256gcmsiv_open(key@, nonce@, aad@, body@) == Some(p@),
            None => aes256gcmsiv_open(key@, nonce@, aad@, body@) is None,
        }),
{
    let cipher = Aes256GcmSiv::new_from_slice(key).ok()?;
    let nonce = SivNonce::try_from(nonce).ok()?;
    let mut plaintext = body.to_vec();
    cipher.decrypt_in_place(&nonce, aad, &mut plaintext).ok()?;
    Some(plaintext)
}

/// Encrypts with `chacha20poly1305::ChaCha20Poly1305` (`KeyInit::new_from_slice`, `AeadInOut::encrypt_in_place`).
///
/// Claims: for a 12-byte nonce and inputs within the crate's size limits the call succeeds
/// (the source rejects only inputs far above those limits), the body is `chacha20poly1305_seal` of the
/// arguments and 16 bytes longer than the plaintext, and opening that body with the same key,
/// nonce and associated data gives back the plaintext (AEAD correctness).
#[verifier::external_body]
fn chacha20poly1305_encrypt(key: &[u8; 32], nonce: &[u8], aad: &[u8], plaintext: &[u8]) -> (body: Option<Vec<u8>>)
    requires
        nonce@.len() == 12,
        aad@.len() <= MAX_AAD_LEN,
        plaintext@.len() <= MAX_CIPHERTEXT_LEN,
    ensures
        body is Some,
        body matches Some(b) ==> b@ == chacha20poly1305_seal(key@, nonce@, aad@, plaintext@),
        body matches Some(b) ==> b@.len() == plaintext@.len() + AEAD_TAG_LEN,
        body matches Some(b) ==> chacha20poly1305_open(key@, nonce@, aad@, b@) == Some(plaintext@),
{
    let cipher = ChaCha20Poly1305::new_from_slice(key).ok()?;
    let nonce = ChaChaNonce::try_from(nonce).ok()?;
    let mut body = plaintext.to_vec();
    cipher.encrypt_in_place(&nonce, aad, &mut body).ok()?;
    Some(body)
}

/// Authenticates and decrypts with `chacha20poly1305::ChaCha20Poly1305` (`AeadInOut::decrypt_in_place`).
///
/// Claims only that the result is `chacha20poly1305_open` of the arguments.
#[verifier::external_body]
fn chacha20poly1305_decrypt(key: &[u8; 32], nonce: &[u8], aad: &[u8], body: &[u8]) -> (plaintext: Option<Vec<u8>>)
    requires
        nonce@.len() == 12,
    ensures
        (match plaintext {
            Some(p) => chacha20poly1305_open(key@, nonce@, aad@, body@) == Some(p@),
            None => chacha20poly1305_open(key@, nonce@, aad@, body@) is None,
        }),
{
    let cipher = ChaCha20Poly1305::new_from_slice(key).ok()?;
    let nonce = ChaChaNonce::try_from(nonce).ok()?;
    let mut plaintext = body.to_vec();
    cipher.decrypt_in_place(&nonce, aad, &mut plaintext).ok()?;
    Some(plaintext)
}

/// Encrypts with `chacha20poly1305::XChaCha20Poly1305` (`KeyInit::new_from_slice`, `AeadInOut::encrypt_in_place`).
///
/// Claims: for a 24-byte nonce and inputs within the crate's size limits the call succeeds
/// (the source rejects only inputs far above those limits), the body is `xchacha20poly1305_seal` of the
/// arguments and 16 bytes longer than the plaintext, and opening that body with the same key,
/// nonce and associated data gives back the plaintext (AEAD correctness).
#[verifier::external_body]
fn xchacha20poly1305_encrypt(key: &[u8; 32], nonce: &[u8], aad: &[u8], plaintext: &[u8]) -> (body: Option<Vec<u8>>)
    requires
        nonce@.len() == 24,
        aad@.len() <= MAX_AAD_LEN,
        plaintext@.len() <= MAX_CIPHERTEXT_LEN,
    ensures
        body is Some,
        body matches Some(b) ==> b@ == xchacha20poly1305_seal(key@, nonce@, aad@, plaintext@),
        body matches Some(b) ==> b@.len() == plaintext@.len() + AEAD_TAG_LEN,
        body matches Some(b) ==> xchacha20poly1305_open(key@, nonce@, aad@, b@) == Some(plaintext@),
{
    let cipher = XChaCha20Poly1305::new_from_slice(key).ok()?;
    let nonce = XNonce::try_from(nonce).ok()?;
    let mut body = plaintext.to_vec();
    cipher.encrypt_in_place(&nonce, aad, &mut body).ok()?;
    Some(body)
}

/// Authenticates and decrypts with `chacha20poly1305::XChaCha20Poly1305` (`AeadInOut::decrypt_in_place`).
///
/// Claims only that the result is `xchacha20poly1305_open` of the arguments.
#[verifier::external_body]
fn xchacha20poly1305_decrypt(key: &[u8; 32], nonce: &[u8], aad: &[u8], body: &[u8]) -> (plaintext: Option<Vec<u8>>)
    requires
        nonce@.len() == 24,
    ensures
        (match plaintext {
            Some(p) => xchacha20poly1305_open(key@, nonce@, aad@, body@) == Some(p@),
            None => xchacha20poly1305_open(key@, nonce@, aad@, body@) is None,
        }),
{
    let cipher = XChaCha20Poly1305::new_from_slice(key).ok()?;
    let nonce = XNonce::try_from(nonce).ok()?;
    let mut plaintext = body.to_vec();
    cipher.decrypt_in_place(&nonce, aad, &mut plaintext).ok()?;
    Some(plaintext)
}

} // verus!

verus! {

/// The abstract content of a ciphertext: its suite, nonce and body (ciphertext and tag).
pub struct CiphertextView {
    /// The suite that produced the body.
    pub suite: AeadSuite,
    /// The public nonce.
    pub nonce: Seq<u8>,
    /// The ciphertext followed by its authentication tag.
    pub body: Seq<u8>,
}

impl CiphertextView {
    /// The nonce fits the suite and the body holds a tag and fits the size limit.
    pub open spec fn wf(self) -> bool {
        &&& self.nonce.len() == self.suite.spec_nonce_len()
        &&& AEAD_TAG_LEN <= self.body.len() <= MAX_CIPHERTEXT_LEN
    }
}

/// An AEAD ciphertext with its nonce and selected suite.
#[derive(Debug, PartialEq, Eq)]
pub struct Ciphertext {
    suite: AeadSuite,
    nonce: Vec<u8>,
    body: Vec<u8>,
}

impl View for Ciphertext {
    type V = CiphertextView;

    closed spec fn view(&self) -> CiphertextView {
        CiphertextView { suite: self.suite, nonce: self.nonce@, body: self.body@ }
    }
}

impl Clone for Ciphertext {
    fn clone(&self) -> (c: Self)
        ensures
            c@ == self@,
    {
        proof { use_type_invariant(self); }
        Ciphertext {
            suite: self.suite,
            nonce: crate::bytes::to_vec(self.nonce.as_slice()),
            body: crate::bytes::to_vec(self.body.as_slice()),
        }
    }
}

impl Ciphertext {
    #[verifier::type_invariant]
    spec fn inv(self) -> bool {
        self@.wf()
    }

    /// Validates and constructs a ciphertext parsed from a canonical frame.
    ///
    /// Returns [`MefError::InvalidLength`] for a nonce that does not fit the suite or a body
    /// shorter than a tag or longer than [`MAX_CIPHERTEXT_LEN`].
    pub fn from_parts(suite: AeadSuite, nonce: Vec<u8>, body: Vec<u8>) -> (res: Result<Self>)
        ensures
            res matches Ok(c) ==> c@ == (CiphertextView { suite, nonce: nonce@, body: body@ }),
            res is Ok <==> (CiphertextView { suite, nonce: nonce@, body: body@ }).wf(),
            res matches Err(e) ==> e == MefError::InvalidLength,
    {
        if nonce.len() != suite.nonce_len() || body.len() < AEAD_TAG_LEN || body.len() > MAX_CIPHERTEXT_LEN {
            return Err(MefError::InvalidLength);
        }
        Ok(Ciphertext { suite, nonce, body })
    }

    /// Returns the suite used for this ciphertext.
    pub fn suite(&self) -> (suite: AeadSuite)
        ensures
            suite == self@.suite,
            self@.wf(),
    {
        proof { use_type_invariant(self); }
        self.suite
    }

    /// Returns the public nonce authenticated by AEAD usage.
    pub fn nonce(&self) -> (nonce: &[u8])
        ensures
            nonce@ == self@.nonce,
            self@.wf(),
    {
        proof { use_type_invariant(self); }
        self.nonce.as_slice()
    }

    /// Returns ciphertext concatenated with its authentication tag.
    pub fn body(&self) -> (body: &[u8])
        ensures
            body@ == self@.body,
            self@.wf(),
    {
        proof { use_type_invariant(self); }
        self.body.as_slice()
    }
}

/// The inputs exceed the associated-data or plaintext size limits.
pub open spec fn inputs_oversized(aad: Seq<u8>, plaintext: Seq<u8>) -> bool {
    aad.len() > MAX_AAD_LEN || plaintext.len() > MAX_CIPHERTEXT_LEN - AEAD_TAG_LEN
}

fn validate_inputs(aad: &[u8], plaintext: &[u8]) -> (res: Result<()>)
    ensures
        res is Ok <==> !inputs_oversized(aad@, plaintext@),
        res matches Err(e) ==> e == MefError::InvalidLength,
{
    if aad.len() > MAX_AAD_LEN || plaintext.len() > MAX_CIPHERTEXT_LEN - AEAD_TAG_LEN {
        return Err(MefError::InvalidLength);
    }
    Ok(())
}

/// Encrypts plaintext with a caller-supplied nonce for deterministic test-vector verification.
///
/// Production code must use [`seal`] because this function cannot enforce nonce uniqueness.
/// Succeeds exactly when the inputs are within the size limits and the nonce fits the suite;
/// otherwise returns [`MefError::InvalidLength`]. Opening the result with the same key and
/// associated data gives back the plaintext.
pub fn seal_with_nonce(key: &AeadKey, suite: AeadSuite, nonce: &[u8], aad: &[u8], plaintext: &[u8]) -> (res: Result<Ciphertext>)
    ensures
        res is Ok <==> !inputs_oversized(aad@, plaintext@) && nonce@.len() == suite.spec_nonce_len(),
        res matches Err(e) ==> e == MefError::InvalidLength,
        res matches Ok(c) ==> c@ == (CiphertextView {
            suite,
            nonce: nonce@,
            body: aead_seal(suite, key@, nonce@, aad@, plaintext@),
        }),
        res matches Ok(c) ==> c@.body.len() == plaintext@.len() + AEAD_TAG_LEN,
        res matches Ok(c) ==> aead_open(suite, key@, nonce@, aad@, c@.body) == Some(plaintext@),
{
    validate_inputs(aad, plaintext)?;
    if nonce.len() != suite.nonce_len() {
        return Err(MefError::InvalidLength);
    }
    let body = match suite {
        AeadSuite::Aes256Gcm => aes256gcm_encrypt(key.as_bytes(), nonce, aad, plaintext),
        AeadSuite::Aes256GcmSiv => aes256gcmsiv_encrypt(key.as_bytes(), nonce, aad, plaintext),
        AeadSuite::ChaCha20Poly1305 => chacha20poly1305_encrypt(key.as_bytes(), nonce, aad, plaintext),
        AeadSuite::XChaCha20Poly1305 => xchacha20poly1305_encrypt(key.as_bytes(), nonce, aad, plaintext),
    };
    match body {
        Some(body) => Ciphertext::from_parts(suite, crate::bytes::to_vec(nonce), body),
        None => Err(MefError::AuthenticationFailed),
    }
}

/// Encrypts plaintext with a fresh random nonce generated internally.
///
/// Returns [`MefError::InvalidLength`] exactly when the inputs exceed the size limits; otherwise
/// the only possible failure is [`MefError::RandomnessUnavailable`]. On success the result is
/// [`seal_with_nonce`] under some nonce of the suite's length, and opening it with the same key
/// and associated data gives back the plaintext.
pub fn seal(key: &AeadKey, suite: AeadSuite, aad: &[u8], plaintext: &[u8]) -> (res: Result<Ciphertext>)
    ensures
        inputs_oversized(aad@, plaintext@) ==> res == Err::<Ciphertext, MefError>(MefError::InvalidLength),
        !inputs_oversized(aad@, plaintext@) ==> (res matches Err(e) ==> e == MefError::RandomnessUnavailable),
        res matches Ok(c) ==> c@.suite == suite && c@.nonce.len() == suite.spec_nonce_len()
            && c@.body == aead_seal(suite, key@, c@.nonce, aad@, plaintext@),
        res matches Ok(c) ==> c@.body.len() == plaintext@.len() + AEAD_TAG_LEN,
        res matches Ok(c) ==> aead_open(suite, key@, c@.nonce, aad@, c@.body) == Some(plaintext@),
{
    validate_inputs(aad, plaintext)?;
    let mut nonce: Vec<u8> = Vec::new();
    let mut i: usize = 0;
    while i < suite.nonce_len()
        invariant
            nonce@.len() == i,
            i <= suite.spec_nonce_len(),
        decreases suite.spec_nonce_len() - i,
    {
        nonce.push(0u8);
        i = i + 1;
    }
    fill_secure(nonce.as_mut_slice())?;
    seal_with_nonce(key, suite, nonce.as_slice(), aad, plaintext)
}

/// What [`open`] returns: the size check on the associated data, then the suite's verdict.
pub open spec fn open_spec(key: Seq<u8>, ciphertext: CiphertextView, aad: Seq<u8>) -> core::result::Result<Seq<u8>, MefError> {
    if aad.len() > MAX_AAD_LEN {
        Err(MefError::InvalidLength)
    } else {
        match aead_open(ciphertext.suite, key, ciphertext.nonce, aad, ciphertext.body) {
            Some(p) => Ok(p),
            None => Err(MefError::AuthenticationFailed),
        }
    }
}

/// Decrypts and authenticates a ciphertext using exact associated data.
///
/// Returns [`MefError::InvalidLength`] for associated data above [`MAX_AAD_LEN`] and
/// [`MefError::AuthenticationFailed`] when the suite's authentication rejects the input;
/// otherwise the recovered plaintext.
pub fn open(key: &AeadKey, ciphertext: &Ciphertext, aad: &[u8]) -> (res: Result<Vec<u8>>)
    ensures
        crate::bytes_result(&res) == open_spec(key@, ciphertext@, aad@),
{
    if aad.len() > MAX_AAD_LEN {
        return Err(MefError::InvalidLength);
    }
    let suite = ciphertext.suite();
    let nonce = ciphertext.nonce();
    let body = ciphertext.body();
    let plaintext = match suite {
        AeadSuite::Aes256Gcm => aes256gcm_decrypt(key.as_bytes(), nonce, aad, body),
        AeadSuite::Aes256GcmSiv => aes256gcmsiv_decrypt(key.as_bytes(), nonce, aad, body),
        AeadSuite::ChaCha20Poly1305 => chacha20poly1305_decrypt(key.as_bytes(), nonce, aad, body),
        AeadSuite::XChaCha20Poly1305 => xchacha20poly1305_decrypt(key.as_bytes(), nonce, aad, body),
    };
    match plaintext {
        Some(p) => Ok(p),
        None => Err(MefError::AuthenticationFailed),
    }
}

} // verus!
