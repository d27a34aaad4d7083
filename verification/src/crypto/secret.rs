//! Fixed-size secret byte wrappers.
use vstd::prelude::*;

use zeroize::Zeroize;

use super::random::random_bytes;
use crate::Result;

verus! {

/// Runs `zeroize::Zeroize::zeroize` on a byte vector, which overwrites its elements and spare
/// capacity with zeros and then clears it; claims that the vector is empty afterwards.
#[verifier::external_body]
pub(crate) fn wipe_vec(buffer: &mut Vec<u8>)
    ensures
        final(buffer)@ == Seq::<u8>::empty(),
{
    buffer.zeroize();
}

/// Runs `zeroize::Zeroize::zeroize` on a byte slice, which overwrites every byte with zero
/// through volatile writes; claims that the slice keeps its length and holds only zeros.
#[verifier::external_body]
pub(crate) fn wipe_bytes(buffer: &mut [u8])
    ensures
        final(buffer)@ == Seq::new(old(buffer)@.len(), |i: int| 0u8),
{
    buffer.zeroize();
}

/// Fixed byte length of MEF-26 symmetric secrets.
pub const KEY_LEN: usize = 32;

/// A 256-bit AEAD key.
pub struct AeadKey([u8; 32]);

impl View for AeadKey {
    type V = Seq<u8>;

    closed spec fn view(&self) -> Seq<u8> {
        self.0@
    }
}

/// Every AEAD key holds exactly 32 bytes.
pub broadcast proof fn lemma_aead_key_len(key: AeadKey)
    ensures
        #[trigger] key@.len() == KEY_LEN,
{
}

impl AeadKey {
    /// Creates an AEAD key from exactly 32 bytes.
    pub fn from_bytes(bytes: [u8; 32]) -> (key: Self)
        ensures
            key@ == bytes@,
    {
        AeadKey(bytes)
    }

    /// Generates a fresh key from the operating-system CSPRNG.
    ///
    /// Fails only with [`crate::MefError::RandomnessUnavailable`].
    pub fn generate() -> (res: Result<Self>)
        ensures
            res matches Err(e) ==> e == crate::MefError::RandomnessUnavailable,
    {
        let bytes = random_bytes::<32>()?;
        Ok(AeadKey(bytes))
    }

    /// Exposes the key bytes for comparison and for the primitive wrappers.
    pub fn as_bytes(&self) -> (bytes: &[u8; 32])
        ensures
            bytes@ == self@,
    {
        &self.0
    }
}

/// A domain-separated 32-byte secret used by internal key schedules.
pub struct Secret([u8; 32]);

impl View for Secret {
    type V = Seq<u8>;

    closed spec fn view(&self) -> Seq<u8> {
        self.0@
    }
}

/// Every secret holds exactly 32 bytes.
pub broadcast proof fn lemma_secret_len(secret: Secret)
    ensures
        #[trigger] secret@.len() == KEY_LEN,
{
}

impl Secret {
    /// Creates a secret from exactly 32 bytes.
    pub fn from_bytes(bytes: [u8; 32]) -> (secret: Self)
        ensures
            secret@ == bytes@,
    {
        Secret(bytes)
    }

    /// Returns a copy of the secret bytes for a downstream primitive wrapper.
    pub(crate) fn copy_bytes(&self) -> (bytes: [u8; 32])
        ensures
            bytes@ == self@,
    {
        self.0
    }
}

} // verus!
