//! X25519 key material and fail-closed key agreement.
use vstd::prelude::*;

use crate::crypto::random_bytes;
use crate::{MefError, Result};

verus! {

/// Fixed byte length of X25519 keys and shared secrets.
pub const DH_KEY_LEN: usize = 32;

/// The X25519 public key of a 32-byte secret.
pub uninterp spec fn x25519_public(secret: Seq<u8>) -> Seq<u8>;

/// The X25519 shared secret of a secret and a peer public key, `None` when the agreement is
/// non-contributory (the shared point is the identity).
pub uninterp spec fn x25519_agree(secret: Seq<u8>, peer: Seq<u8>) -> Option<Seq<u8>>;

/// Both parties of an X25519 agreement compute the same result: agreeing with `public`, the
/// public key of `secret`, from any other 32-byte secret gives what `secret` gets from the
/// other secret's public key.
pub open spec fn agrees_symmetrically(secret: Seq<u8>, public: Seq<u8>) -> bool {
    forall|other: Seq<u8>| other.len() == DH_KEY_LEN ==> #[trigger] x25519_agree(other, public) == x25519_agree(secret, x25519_public(other))
}

/// Every 32-byte secret reaches a contributory agreement with `public`.
pub open spec fn accepted_by_every_secret(public: Seq<u8>) -> bool {
    forall|other: Seq<u8>| other.len() == DH_KEY_LEN ==> (#[trigger] x25519_agree(other, public)) is Some
}

/// The all-zero X25519 public key, a low-order point.
pub open spec fn zero_public_key() -> Seq<u8> {
    Seq::new(32, |i: int| 0u8)
}

/// Computes `x25519_dalek::PublicKey::from(&StaticSecret::from(secret))`.
///
/// Claims that the result is `x25519_public` of the secret, that Diffie-Hellman agreement
/// with it is symmetric (both clamped scalar multiplications of the base point commute, which
/// is the documented purpose of the crate), and that every secret's agreement with it is
/// contributory: the key is a clamped, nonzero multiple of the prime-order base point, and a
/// second clamped scalar (a nonzero residue modulo the prime order) keeps it off the identity
/// that `SharedSecret::was_contributory` tests for.
#[verifier::external_body]
fn x25519_base(secret: &[u8; 32]) -> (public: [u8; 32])
    ensures
        public@ == x25519_public(secret@),
        agrees_symmetrically(secret@, public@),
        accepted_by_every_secret(public@),
{
    let secret = x25519_dalek::StaticSecret::from(*secret);
    x25519_dalek::PublicKey::from(&secret).to_bytes()
}

/// Computes `StaticSecret::diffie_hellman` and tests `SharedSecret::was_contributory`;
/// claims that the result is `x25519_agree` of the arguments, and that the all-zero peer key
/// is refused (the Montgomery ladder maps u = 0 to u = 0, which `was_contributory` rejects as
/// the identity `MontgomeryPoint([0; 32])`).
#[verifier::external_body]
fn x25519_dh(secret: &[u8; 32], peer: &[u8; 32]) -> (shared: Option<[u8; 32]>)
    ensures
        (match shared {
            Some(s) => x25519_agree(secret@, peer@) == Some(s@),
            None => x25519_agree(secret@, peer@) is None,
        }),
        peer@ == zero_public_key() ==> shared is None,
{
    let secret = x25519_dalek::StaticSecret::from(*secret);
    let shared = secret.diffie_hellman(&x25519_dalek::PublicKey::from(*peer));
    if shared.was_contributory() { Some(shared.to_bytes()) } else { None }
}

/// Two key pairs agree: each side's agreement with the other's public key succeeds, and both
/// obtain the same shared secret.
pub proof fn lemma_pair_agreement(a: Seq<u8>, b: Seq<u8>)
    requires
        a.len() == DH_KEY_LEN,
        b.len() == DH_KEY_LEN,
        agrees_symmetrically(a, x25519_public(a)),
        accepted_by_every_secret(x25519_public(a)),
        accepted_by_every_secret(x25519_public(b)),
    ensures
        agreement(a, x25519_public(b)) is Ok,
        agreement(a, x25519_public(b)) == agreement(b, x25519_public(a)),
{
    assert(x25519_agree(b, x25519_public(a)) == x25519_agree(a, x25519_public(b)));
    assert(x25519_agree(a, x25519_public(b)) is Some);
}

/// Public half of an X25519 key pair.
#[derive(Debug, Clone, Copy, PartialEq, Eq, Hash)]
pub struct DhPublicKey([u8; 32]);

impl View for DhPublicKey {
    type V = Seq<u8>;

    closed spec fn view(&self) -> Seq<u8> {
        self.0@
    }
}

/// Every X25519 public key holds exactly 32 bytes.
pub broadcast proof fn lemma_dh_public_len(key: DhPublicKey)
    ensures
        #[trigger] key@.len() == DH_KEY_LEN,
{
}

impl DhPublicKey {
    /// Creates a public key from exactly 32 canonical wire bytes.
    pub fn from_bytes(bytes: [u8; 32]) -> (key: Self)
        ensures
            key@ == bytes@,
    {
        DhPublicKey(bytes)
    }

    /// Returns the canonical 32-byte public-key encoding.
    pub fn to_bytes(self) -> (bytes: [u8; 32])
        ensures
            bytes@ == self@,
    {
        self.0
    }

    /// Compares two public keys; true exactly when their bytes are equal.
    pub(crate) fn same_as(&self, other: &DhPublicKey) -> (eq: bool)
        ensures
            eq == (self@ == other@),
    {
        let mut i: usize = 0;
        while i < 32
            invariant
                i <= 32,
                self@.len() == 32,
                other@.len() == 32,
                forall|j: int| 0 <= j < i ==> self@[j] == other@[j],
            decreases 32 - i,
        {
            if self.0[i] != other.0[i] {
                return false;
            }
            i = i + 1;
        }
        assert(self@ =~= other@);
        true
    }
}

/// Secret half of an X25519 key pair.
pub struct DhSecretKey([u8; 32]);

impl View for DhSecretKey {
    type V = Seq<u8>;

    closed spec fn view(&self) -> Seq<u8> {
        self.0@
    }
}

/// Every X25519 secret key holds exactly 32 bytes.
pub broadcast proof fn lemma_dh_secret_len(key: DhSecretKey)
    ensures
        #[trigger] key@.len() == DH_KEY_LEN,
{
}

/// What a fail-closed agreement returns: the shared secret, or
/// [`MefError::NonContributoryKeyAgreement`] for a low-order peer key.
pub open spec fn agreement(secret: Seq<u8>, peer: Seq<u8>) -> core::result::Result<Seq<u8>, MefError> {
    match x25519_agree(secret, peer) {
        Some(s) => Ok(s),
        None => Err(MefError::NonContributoryKeyAgreement),
    }
}

/// A 32-byte agreement result viewed as a result over byte sequences.
pub open spec fn shared_result(r: &Result<[u8; 32]>) -> core::result::Result<Seq<u8>, MefError> {
    match r {
        Ok(s) => Ok(s@),
        Err(e) => Err(*e),
    }
}

impl DhSecretKey {
    /// Generates a new X25519 secret using the operating-system CSPRNG.
    ///
    /// Fails only with [`MefError::RandomnessUnavailable`].
    pub fn generate() -> (res: Result<Self>)
        ensures
            res matches Err(e) ==> e == MefError::RandomnessUnavailable,
    {
        Ok(DhSecretKey(random_bytes::<32>()?))
    }

    /// Constructs a secret key from serialization material held by an approved secure store.
    pub fn from_bytes(bytes: [u8; 32]) -> (key: Self)
        ensures
            key@ == bytes@,
    {
        DhSecretKey(bytes)
    }

    /// Returns a copy for encrypted-state persistence.
    pub(crate) fn copy_bytes(&self) -> (bytes: [u8; 32])
        ensures
            bytes@ == self@,
    {
        self.0
    }

    /// Derives the corresponding X25519 public key.
    pub fn public_key(&self) -> (public: DhPublicKey)
        ensures
            public@ == x25519_public(self@),
            agrees_symmetrically(self@, public@),
            accepted_by_every_secret(public@),
    {
        DhPublicKey(x25519_base(&self.0))
    }

    /// Performs a fail-closed X25519 agreement and rejects a non-contributory result.
    pub fn diffie_hellman(&self, peer: DhPublicKey) -> (res: Result<[u8; 32]>)
        ensures
            shared_result(&res) == agreement(self@, peer@),
            peer@ == zero_public_key() ==> res == Err::<[u8; 32], MefError>(MefError::NonContributoryKeyAgreement),
    {
        match x25519_dh(&self.0, &peer.0) {
            Some(shared) => Ok(shared),
            None => Err(MefError::NonContributoryKeyAgreement),
        }
    }
}

/// An X25519 key pair held by one protocol endpoint; its view is the secret key bytes.
pub struct DhKeyPair {
    secret: DhSecretKey,
    public: DhPublicKey,
}

impl View for DhKeyPair {
    type V = Seq<u8>;

    closed spec fn view(&self) -> Seq<u8> {
        self.secret@
    }
}

/// Every X25519 key pair holds a 32-byte secret.
pub broadcast proof fn lemma_dh_pair_len(pair: DhKeyPair)
    ensures
        #[trigger] pair@.len() == DH_KEY_LEN,
{
}

impl DhKeyPair {
    #[verifier::type_invariant]
    spec fn inv(self) -> bool {
        &&& self.public@ == x25519_public(self.secret@)
        &&& agrees_symmetrically(self.secret@, self.public@)
        &&& accepted_by_every_secret(self.public@)
    }

    /// Generates a fresh X25519 key pair.
    ///
    /// Fails only with [`MefError::RandomnessUnavailable`].
    pub fn generate() -> (res: Result<Self>)
        ensures
            res matches Err(e) ==> e == MefError::RandomnessUnavailable,
            res matches Ok(p) ==> p@.len() == DH_KEY_LEN,
    {
        let secret = DhSecretKey::generate()?;
        Ok(Self::from_secret(secret))
    }

    /// Rehydrates a key pair from a secret-key record held in an approved secure store.
    pub fn from_secret(secret: DhSecretKey) -> (pair: Self)
        ensures
            pair@ == secret@,
    {
        let public = secret.public_key();
        DhKeyPair { secret, public }
    }

    /// Returns the X25519 secret bytes for encrypted-state persistence.
    pub(crate) fn secret_bytes(&self) -> (bytes: [u8; 32])
        ensures
            bytes@ == self@,
    {
        self.secret.copy_bytes()
    }

    /// Returns the public half of this pair.
    pub fn public(&self) -> (public: DhPublicKey)
        ensures
            public@ == x25519_public(self@),
            agrees_symmetrically(self@, public@),
            accepted_by_every_secret(public@),
    {
        proof { use_type_invariant(self); }
        self.public
    }

    /// Performs a fail-closed agreement with a peer public key.
    pub fn diffie_hellman(&self, peer: DhPublicKey) -> (res: Result<[u8; 32]>)
        ensures
            shared_result(&res) == agreement(self@, peer@),
            peer@ == zero_public_key() ==> res == Err::<[u8; 32], MefError>(MefError::NonContributoryKeyAgreement),
    {
        self.secret.diffie_hellman(peer)
    }

    /// Consumes the pair and returns its secret half for transfer to an approved secure store.
    pub fn into_secret(self) -> (secret: DhSecretKey)
        ensures
            secret@ == self@,
    {
        self.secret
    }
}

} // verus!
