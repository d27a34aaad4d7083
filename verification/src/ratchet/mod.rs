//! A bounded 1:1 DH and symmetric ratchet state machine.
mod schedule;

pub use schedule::{
    chain_after, chain_next, keys_view, message_key, range_error, range_keys, root_chain,
    root_next, CHAIN_KEY_LABEL, MESSAGE_KEY_LABEL, ROOT_CHAIN_LABEL, ROOT_LABEL,
};
mod state;

pub use state::{
    encrypted_n, initial_a_to_b, initial_b_to_a, initial_state, lemma_in_order_delivery,
    lemma_initial_states_paired, lemma_out_of_order_delivery, lemma_ratchet_round_trip, lemma_rotation_delivery, sends_to, INIT_A_TO_B_LABEL,
    INIT_B_TO_A_LABEL, decrypt_spec, find_skipped, is_first_match, lemma_failed_decrypt_keeps_state,
    new_ratchet_spec, next_generation, same_ratchet_spec, tag_keys, RatchetRole,
    RatchetStateView, SkippedView, encrypt_header, encrypted_state, rotated_state,
    RatchetState,
};
pub(crate) use state::skipped_view;
pub(crate) use state::{lemma_view_is_model, SkippedMessageKey};
mod persistence;

pub use persistence::{
    context_oversized, decode_entries, decode_state_spec, lemma_state_plaintext_round_trip,
    restore_spec, skipped_bytes, skipped_distinct, skipped_entry_bytes, state_aad_spec,
    lemma_legacy_blob_restores, lemma_legacy_state_plaintext_round_trip, legacy_state_blob, legacy_state_plaintext,
    sealed_plaintext, state_blob, state_header, state_label, state_magic, state_plaintext, StateSealKey,
    LEGACY_STATE_FIXED_LEN, SKIPPED_ENTRY_LEN, STATE_FIXED_LEN, STATE_HEADER_LEN, STATE_VERSION,
};
