//! MEF-26: a security-focused core library for 1:1 end-to-end encrypted messaging.
//!
//! The crate wraps vetted cryptographic implementations and provides strict types, domain
//! separation, canonical wire encodings, bounded message processing and a ratchet state machine.
use vstd::prelude::*;

pub mod bytes;
pub mod crypto;
pub mod envelope;
pub mod keys;
pub mod ratchet;
pub mod error;
pub mod frame;
pub mod handshake;
pub mod pq;

pub use error::MefError;

verus! {

/// The protocol identifier used for all MEF-26 domain-separation labels.
pub const PROTOCOL_ID: &'static str = "MEF-26";

/// Version of the additive language-binding ABI exposed by MEF-26 packages.
pub const ABI_VERSION: u32 = 1;

/// The maximum number of skipped message keys retained by the ratchet.
pub const MAX_SKIPPED_KEYS: usize = 1024;

/// The maximum accepted ciphertext body size in bytes.
pub const MAX_CIPHERTEXT_LEN: usize = 1048576;

/// The maximum accepted associated-data size in bytes.
pub const MAX_AAD_LEN: usize = 65536;

/// Convenience result type used throughout this crate.
pub type Result<T> = core::result::Result<T, MefError>;

/// A byte-vector result viewed as a result over byte sequences.
pub open spec fn bytes_result(r: &Result<Vec<u8>>) -> core::result::Result<Seq<u8>, MefError> {
    match r {
        Ok(v) => Ok(v@),
        Err(e) => Err(*e),
    }
}

} // verus!
