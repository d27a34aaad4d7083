//! Error type returned by MEF-26 public APIs.
use vstd::prelude::*;

verus! {

/// Errors returned by MEF-26 public APIs.
#[derive(Debug, Clone, Copy, PartialEq, Eq, Structural)]
pub enum MefError {
    /// An AEAD authentication tag failed verification or input was malformed.
    AuthenticationFailed,
    /// A protocol frame was malformed, noncanonical, oversized, or used an unsupported version.
    InvalidFrame,
    /// A caller supplied an unsupported AEAD suite identifier.
    UnsupportedSuite,
    /// A supplied value had an invalid length.
    InvalidLength,
    /// An X25519 exchange produced a non-contributory shared secret.
    NonContributoryKeyAgreement,
    /// An HKDF expansion request was rejected.
    KeyDerivationFailed,
    /// The operating-system cryptographic random-number generator failed.
    RandomnessUnavailable,
    /// A ratchet message counter cannot advance without overflow.
    CounterExhausted,
    /// The allowed skipped-message-key resource limit was exceeded.
    SkippedKeyLimitExceeded,
    /// A transport envelope exceeded its declared expiration timestamp.
    EnvelopeExpired,
    /// A replayed outer transport message was rejected.
    ReplayDetected,
    /// A requested message key has already been consumed.
    MessageKeyConsumed,
    /// The current session state cannot decrypt the received message.
    RatchetStateMismatch,
    /// A persisted ratchet state is older than the durable rollback floor.
    StateRollbackDetected,
    /// The operation would violate a protocol state-machine invariant.
    InvalidState,
}

impl MefError {
    /// Returns the human-readable description of the error.
    pub fn message(self) -> (message: &'static str)
        ensures
            (match self {
            MefError::AuthenticationFailed => message@ == "authentication failed"@,
            MefError::InvalidFrame => message@ == "invalid frame"@,
            MefError::UnsupportedSuite => message@ == "unsupported cipher suite"@,
            MefError::InvalidLength => message@ == "invalid length"@,
            MefError::NonContributoryKeyAgreement => message@ == "non-contributory key agreement"@,
            MefError::KeyDerivationFailed => message@ == "key derivation failed"@,
            MefError::RandomnessUnavailable => message@ == "secure randomness unavailable"@,
            MefError::CounterExhausted => message@ == "message counter exhausted"@,
            MefError::SkippedKeyLimitExceeded => message@ == "skipped-message limit exceeded"@,
            MefError::EnvelopeExpired => message@ == "envelope expired"@,
            MefError::ReplayDetected => message@ == "replay detected"@,
            MefError::MessageKeyConsumed => message@ == "message key already consumed"@,
            MefError::RatchetStateMismatch => message@ == "ratchet state mismatch"@,
            MefError::StateRollbackDetected => message@ == "persisted state rollback detected"@,
            MefError::InvalidState => message@ == "invalid state transition"@,
            }),
    {
        match self {
            MefError::AuthenticationFailed => "authentication failed",
            MefError::InvalidFrame => "invalid frame",
            MefError::UnsupportedSuite => "unsupported cipher suite",
            MefError::InvalidLength => "invalid length",
            MefError::NonContributoryKeyAgreement => "non-contributory key agreement",
            MefError::KeyDerivationFailed => "key derivation failed",
            MefError::RandomnessUnavailable => "secure randomness unavailable",
            MefError::CounterExhausted => "message counter exhausted",
            MefError::SkippedKeyLimitExceeded => "skipped-message limit exceeded",
            MefError::EnvelopeExpired => "envelope expired",
            MefError::ReplayDetected => "replay detected",
            MefError::MessageKeyConsumed => "message key already consumed",
            MefError::RatchetStateMismatch => "ratchet state mismatch",
            MefError::StateRollbackDetected => "persisted state rollback detected",
            MefError::InvalidState => "invalid state transition",
        }
    }
}

} // verus!
