//! Canonical, bounded wire frames for MEF-26 inner messages.
use vstd::prelude::*;

mod header;
mod wire;

pub use header::{
    lemma_header_wf, lemma_kind_id_round_trip, FrameHeader, FrameHeaderView, FrameKind,
    RATCHET_PUBLIC_LEN, SESSION_ID_LEN,
};
pub use wire::{
    decode_prefix_spec, decode_spec, frame_aad, frame_magic, lemma_frame_decode_canonical,
    lemma_frame_prefix_round_trip, lemma_frame_round_trip, InnerFrame, InnerFrameView,
    FIXED_HEADER_LEN,
};

use crate::PROTOCOL_ID;

verus! {

/// Returns the versioned framing label for external transcript construction.
pub fn framing_label() -> (label: &'static str)
    ensures
        label@ == "MEF-26/inner-frame-v1"@,
{
    "MEF-26/inner-frame-v1"
}

/// Returns the protocol identifier used by this frame format.
pub fn protocol_id() -> (id: &'static str)
    ensures
        id@ == PROTOCOL_ID@,
{
    PROTOCOL_ID
}

} // verus!
