//! Domain-separated ratchet key schedule and bounded skipped-key derivation.
use vstd::prelude::*;

use vstd::string::StringSliceAdditionalSpecFns;

use crate::crypto::{
    derive_aead_key, derive_secret, kdf, lemma_aead_key_len, lemma_ascii_label_len,
    lemma_secret_len, AeadKey, Secret,
};
use crate::{MefError, Result, MAX_SKIPPED_KEYS};

verus! {

broadcast use {lemma_aead_key_len, lemma_secret_len};

/// Label of the root-key derivation.
pub const ROOT_LABEL: &'static str = "ratchet-root-v1";

/// Label of the chain key derived from a new root key.
pub const ROOT_CHAIN_LABEL: &'static str = "ratchet-root-chain-v1";

/// Label of the next chain key.
pub const CHAIN_KEY_LABEL: &'static str = "ratchet-chain-next-v1";

/// Label of a message key.
pub const MESSAGE_KEY_LABEL: &'static str = "ratchet-message-key-v1";

/// The chain key that follows `chain_key`.
pub open spec fn chain_next(chain_key: Seq<u8>) -> Seq<u8> {
    kdf(chain_key, CHAIN_KEY_LABEL.spec_bytes(), seq![2u8])
}

/// The message key that `chain_key` yields.
pub open spec fn message_key(chain_key: Seq<u8>) -> Seq<u8> {
    kdf(chain_key, MESSAGE_KEY_LABEL.spec_bytes(), seq![1u8])
}

/// The chain key after `steps` advances of `chain_key`.
pub open spec fn chain_after(chain_key: Seq<u8>, steps: nat) -> Seq<u8>
    decreases steps,
{
    if steps == 0 {
        chain_key
    } else {
        chain_next(chain_after(chain_key, (steps - 1) as nat))
    }
}

/// The root key that follows `root_key` after a DH output.
pub open spec fn root_next(root_key: Seq<u8>, dh_output: Seq<u8>) -> Seq<u8> {
    kdf(root_key, ROOT_LABEL.spec_bytes(), dh_output)
}

/// The chain key started by a DH output.
pub open spec fn root_chain(root_key: Seq<u8>, dh_output: Seq<u8>) -> Seq<u8> {
    kdf(root_next(root_key, dh_output), ROOT_CHAIN_LABEL.spec_bytes(), dh_output)
}

/// The message keys of messages `start`, `start + 1`, ... of a chain whose key at `start` is
/// `chain_key`, each with its message number.
pub open spec fn range_keys(chain_key: Seq<u8>, start: u32, count: nat) -> Seq<(u32, Seq<u8>)> {
    Seq::new(count, |j: int| ((start + j) as u32, message_key(chain_after(chain_key, j as nat))))
}

/// A list of numbered message keys viewed as numbered byte sequences.
pub open spec fn keys_view(keys: Seq<(u32, AeadKey)>) -> Seq<(u32, Seq<u8>)> {
    Seq::new(keys.len(), |j: int| (keys[j].0, keys[j].1@))
}

proof fn lemma_schedule_labels()
    ensures
        1 <= ROOT_LABEL.spec_bytes().len() <= 255,
        1 <= ROOT_CHAIN_LABEL.spec_bytes().len() <= 255,
        1 <= CHAIN_KEY_LABEL.spec_bytes().len() <= 255,
        1 <= MESSAGE_KEY_LABEL.spec_bytes().len() <= 255,
{
    reveal_strlit("ratchet-root-v1");
    reveal_strlit("ratchet-root-chain-v1");
    reveal_strlit("ratchet-chain-next-v1");
    reveal_strlit("ratchet-message-key-v1");
    lemma_ascii_label_len(ROOT_LABEL);
    lemma_ascii_label_len(ROOT_CHAIN_LABEL);
    lemma_ascii_label_len(CHAIN_KEY_LABEL);
    lemma_ascii_label_len(MESSAGE_KEY_LABEL);
}

/// Advances a symmetric chain exactly once and derives one message key; always succeeds.
pub(crate) fn chain_step(chain_key: &Secret) -> (res: Result<(Secret, AeadKey)>)
    ensures
        res matches Ok((next, key)) && next@ == chain_next(chain_key@) && key@ == message_key(chain_key@),
{
    proof { lemma_schedule_labels(); }
    let bytes = chain_key.copy_bytes();
    let two: [u8; 1] = [2];
    let one: [u8; 1] = [1];
    assert(two@ =~= seq![2u8]);
    assert(one@ =~= seq![1u8]);
    let next = derive_secret(&bytes, CHAIN_KEY_LABEL, &two)?;
    let key = derive_aead_key(&bytes, MESSAGE_KEY_LABEL, &one)?;
    Ok((next, key))
}

/// Advances the root key using a contributory X25519 output; always succeeds.
pub(crate) fn root_step(root_key: &Secret, dh_output: &[u8; 32]) -> (res: Result<(Secret, Secret)>)
    ensures
        res matches Ok((root, chain)) && root@ == root_next(root_key@, dh_output@)
            && chain@ == root_chain(root_key@, dh_output@),
{
    proof { lemma_schedule_labels(); }
    let root_bytes = root_key.copy_bytes();
    let next_root = derive_secret(&root_bytes, ROOT_LABEL, dh_output)?;
    let next_root_bytes = next_root.copy_bytes();
    let chain_key = derive_secret(&next_root_bytes, ROOT_CHAIN_LABEL, dh_output)?;
    Ok((next_root, chain_key))
}

/// What [`derive_range`] rejects: a range running backwards, or more skipped keys than the
/// limit allows.
pub open spec fn range_error(start: u32, end_exclusive: u32, existing_skipped: nat) -> Option<MefError> {
    if end_exclusive < start {
        Some(MefError::RatchetStateMismatch)
    } else if existing_skipped + (end_exclusive - start) > MAX_SKIPPED_KEYS {
        Some(MefError::SkippedKeyLimitExceeded)
    } else {
        None
    }
}

/// Advances a chain until `end_exclusive`, retaining the message keys of the skipped messages.
///
/// Returns [`MefError::RatchetStateMismatch`] for a backwards range and
/// [`MefError::SkippedKeyLimitExceeded`] when the retained keys would exceed
/// [`MAX_SKIPPED_KEYS`].
pub(crate) fn derive_range(chain_key: &Secret, start: u32, end_exclusive: u32, existing_skipped: usize) -> (res: Result<(Secret, Vec<(u32, AeadKey)>)>)
    ensures
        (match range_error(start, end_exclusive, existing_skipped as nat) {
            Some(e) => res == Err::<(Secret, Vec<(u32, AeadKey)>), MefError>(e),
            None => res matches Ok((chain, keys))
                && chain@ == chain_after(chain_key@, (end_exclusive - start) as nat)
                && keys_view(keys@) == range_keys(chain_key@, start, (end_exclusive - start) as nat),
        }),
{
    if end_exclusive < start {
        return Err(MefError::RatchetStateMismatch);
    }
    let additional = (end_exclusive - start) as usize;
    match existing_skipped.checked_add(additional) {
        Some(total) => {
            if total > MAX_SKIPPED_KEYS {
                return Err(MefError::SkippedKeyLimitExceeded);
            }
        },
        None => return Err(MefError::SkippedKeyLimitExceeded),
    }
    let mut current = Secret::from_bytes(chain_key.copy_bytes());
    let mut skipped: Vec<(u32, AeadKey)> = Vec::new();
    let mut number = start;
    while number < end_exclusive
        invariant
            start <= number <= end_exclusive,
            current@ == chain_after(chain_key@, (number - start) as nat),
            keys_view(skipped@) == range_keys(chain_key@, start, (number - start) as nat),
        decreases end_exclusive - number,
    {
        let (next, key) = chain_step(&current)?;
        let ghost before = skipped@;
        skipped.push((number, key));
        assert(keys_view(skipped@) =~= range_keys(chain_key@, start, (number + 1 - start) as nat)) by {
            assert(keys_view(skipped@) =~= keys_view(before).push((number, key@)));
        }
        current = next;
        number = number + 1;
    }
    Ok((current, skipped))
}

/// Derives the key of message `target` and the skipped keys before it.
///
/// Fails as [`derive_range`] from `current_count` to `target`.
pub(crate) fn derive_for_message(chain_key: &Secret, current_count: u32, target: u32, existing_skipped: usize) -> (res: Result<(Secret, AeadKey, Vec<(u32, AeadKey)>)>)
    ensures
        (match range_error(current_count, target, existing_skipped as nat) {
            Some(e) => res == Err::<(Secret, AeadKey, Vec<(u32, AeadKey)>), MefError>(e),
            None => res matches Ok((next, key, keys))
                && next@ == chain_after(chain_key@, (target - current_count + 1) as nat)
                && key@ == message_key(chain_after(chain_key@, (target - current_count) as nat))
                && keys_view(keys@) == range_keys(chain_key@, current_count, (target - current_count) as nat),
        }),
{
    let (before_target, skipped) = derive_range(chain_key, current_count, target, existing_skipped)?;
    let (next_chain, message_key) = chain_step(&before_target)?;
    Ok((next_chain, message_key, skipped))
}

} // verus!
