//! Transport-facing opaque envelopes with minimal recipient metadata.
use vstd::prelude::*;

mod capability;
mod outer;
mod replay;

pub use capability::{
    lemma_capability_len, lemma_transport_id_len, MailboxCapability, TransportMessageId,
    CAPABILITY_LEN, STORAGE_ID_LABEL, TRANSPORT_ID_LEN,
};
pub use outer::{
    envelope_decode_spec, envelope_key, lemma_envelope_decode_canonical,
    lemma_envelope_replay_rejected, lemma_envelope_round_trip, envelope_open_inner_spec, envelope_open_spec, outer_aad,
    outer_magic, zero_from, zeros, OuterEnvelope, OuterEnvelopeView, OUTER_FIXED_LEN, OUTER_LABEL,
};
pub use replay::{
    lemma_replay_detected_iff_live_duplicate, lemma_replay_recorded, lemma_replay_rejected, live_entries, records, replay_step, ReplayCache, ReplayCacheView,
};

use crate::PROTOCOL_ID;

verus! {

/// Returns the versioned envelope framing label.
pub fn envelope_label() -> (label: &'static str)
    ensures
        label@ == "MEF-26/outer-envelope-v1"@,
{
    "MEF-26/outer-envelope-v1"
}

/// Returns the protocol identifier used by the envelope format.
pub fn protocol_id() -> (id: &'static str)
    ensures
        id@ == PROTOCOL_ID@,
{
    PROTOCOL_ID
}

} // verus!
