//! Fallible operating-system CSPRNG access.
use vstd::prelude::*;

use getrandom::rand_core::TryRng;

use crate::{MefError, Result};

verus! {

/// Fills `destination` from the operating system's random source through
/// `getrandom::SysRng::try_fill_bytes`; returns whether the source succeeded.
///
/// The contract states only that the buffer keeps its length: the bytes are random.
#[verifier::external_body]
fn os_fill(destination: &mut [u8]) -> (ok: bool)
    ensures
        final(destination)@.len() == old(destination)@.len(),
{
    getrandom::SysRng.try_fill_bytes(destination).is_ok()
}

/// Fills a caller-owned buffer from the operating-system CSPRNG.
///
/// Fails only with [`MefError::RandomnessUnavailable`]; the buffer keeps its length.
pub(crate) fn fill_secure(destination: &mut [u8]) -> (res: Result<()>)
    ensures
        final(destination)@.len() == old(destination)@.len(),
        res matches Err(e) ==> e == MefError::RandomnessUnavailable,
{
    if os_fill(destination) {
        Ok(())
    } else {
        Err(MefError::RandomnessUnavailable)
    }
}

/// Generates a fixed-size byte array using the operating-system CSPRNG.
///
/// Fails only with [`MefError::RandomnessUnavailable`].
pub fn random_bytes<const N: usize>() -> (res: Result<[u8; N]>)
    ensures
        res matches Err(e) ==> e == MefError::RandomnessUnavailable,
{
    let mut bytes = [0u8; N];
    fill_secure(&mut bytes)?;
    Ok(bytes)
}

} // verus!
