//! Immutable authenticated fields of an MEF-26 inner frame.
use vstd::prelude::*;

use crate::{MefError, Result};

verus! {

/// Wire length of a session identifier.
pub const SESSION_ID_LEN: usize = 32;

/// Wire length of an X25519 ratchet public key.
pub const RATCHET_PUBLIC_LEN: usize = 32;

/// Semantic type of an authenticated MEF-26 inner frame.
#[derive(Debug, Clone, Copy, PartialEq, Eq, Hash, Structural)]
pub enum FrameKind {
    /// The first ratchet message sent alongside an asynchronous handshake.
    Init,
    /// A regular encrypted application message.
    Message,
    /// An encrypted delivery acknowledgement.
    Ack,
    /// An encrypted protocol control message.
    Control,
    /// An authenticated request to discard and re-establish a session.
    Reset,
}

impl FrameKind {
    /// The stable wire identifier of the kind.
    pub open spec fn spec_id(self) -> u8 {
        match self {
            FrameKind::Init => 1,
            FrameKind::Message => 2,
            FrameKind::Ack => 3,
            FrameKind::Control => 4,
            FrameKind::Reset => 5,
        }
    }

    /// The kind whose wire identifier is `value`, if any.
    pub open spec fn spec_from_id(value: u8) -> Option<FrameKind> {
        if value == 1 {
            Some(FrameKind::Init)
        } else if value == 2 {
            Some(FrameKind::Message)
        } else if value == 3 {
            Some(FrameKind::Ack)
        } else if value == 4 {
            Some(FrameKind::Control)
        } else if value == 5 {
            Some(FrameKind::Reset)
        } else {
            None
        }
    }

    /// Parses a stable wire identifier into a frame kind.
    ///
    /// Returns [`MefError::InvalidFrame`] for an unknown kind.
    pub fn from_id(value: u8) -> (res: Result<Self>)
        ensures
            res == (match Self::spec_from_id(value) {
                Some(k) => Ok(k),
                None => Err(MefError::InvalidFrame),
            }),
    {
        match value {
            1 => Ok(FrameKind::Init),
            2 => Ok(FrameKind::Message),
            3 => Ok(FrameKind::Ack),
            4 => Ok(FrameKind::Control),
            5 => Ok(FrameKind::Reset),
            _ => Err(MefError::InvalidFrame),
        }
    }

    /// Returns the stable wire identifier for this kind.
    pub fn id(self) -> (id: u8)
        ensures
            id == self.spec_id(),
            Self::spec_from_id(id) == Some(self),
    {
        match self {
            FrameKind::Init => 1,
            FrameKind::Message => 2,
            FrameKind::Ack => 3,
            FrameKind::Control => 4,
            FrameKind::Reset => 5,
        }
    }
}

/// Decoding the identifier of a kind gives back the kind.
pub proof fn lemma_kind_id_round_trip(kind: FrameKind)
    ensures
        FrameKind::spec_from_id(kind.spec_id()) == Some(kind),
{
}

/// The abstract content of a frame header.
pub struct FrameHeaderView {
    /// The authenticated semantic kind of the frame.
    pub kind: FrameKind,
    /// The session identifier.
    pub session_id: Seq<u8>,
    /// The sender ratchet public key.
    pub ratchet_public: Seq<u8>,
    /// The previous sending-chain length declared by the sender.
    pub previous_chain_len: u32,
    /// The message sequence number within the sender chain.
    pub message_number: u32,
}

impl FrameHeaderView {
    /// Both keys have their wire length.
    pub open spec fn wf(self) -> bool {
        self.session_id.len() == SESSION_ID_LEN && self.ratchet_public.len() == RATCHET_PUBLIC_LEN
    }
}

/// All non-secret fields authenticated in an MEF-26 inner frame header.
#[derive(Debug, Clone, Copy, PartialEq, Eq, Hash)]
pub struct FrameHeader {
    kind: FrameKind,
    session_id: [u8; 32],
    ratchet_public: [u8; 32],
    previous_chain_len: u32,
    message_number: u32,
}

impl View for FrameHeader {
    type V = FrameHeaderView;

    closed spec fn view(&self) -> FrameHeaderView {
        FrameHeaderView {
            kind: self.kind,
            session_id: self.session_id@,
            ratchet_public: self.ratchet_public@,
            previous_chain_len: self.previous_chain_len,
            message_number: self.message_number,
        }
    }
}

/// Every header's keys have their wire length.
pub broadcast proof fn lemma_header_wf(header: FrameHeader)
    ensures
        #[trigger] header@.wf(),
{
}

impl FrameHeader {
    /// Creates an immutable frame header that is bound as AEAD associated data.
    pub fn new(
        kind: FrameKind,
        session_id: [u8; 32],
        ratchet_public: [u8; 32],
        previous_chain_len: u32,
        message_number: u32,
    ) -> (header: Self)
        ensures
            header@ == (FrameHeaderView {
                kind,
                session_id: session_id@,
                ratchet_public: ratchet_public@,
                previous_chain_len,
                message_number,
            }),
    {
        FrameHeader { kind, session_id, ratchet_public, previous_chain_len, message_number }
    }

    /// Returns the session identifier bound to this header.
    pub fn session_id(self) -> (id: [u8; 32])
        ensures
            id@ == self@.session_id,
    {
        self.session_id
    }

    /// Returns the sender ratchet public key bound to this header.
    pub fn ratchet_public(self) -> (key: [u8; 32])
        ensures
            key@ == self@.ratchet_public,
    {
        self.ratchet_public
    }

    /// Returns the previous sending-chain length declared by the sender.
    pub fn previous_chain_len(self) -> (n: u32)
        ensures
            n == self@.previous_chain_len,
    {
        self.previous_chain_len
    }

    /// Returns the message sequence number within the sender chain.
    pub fn message_number(self) -> (n: u32)
        ensures
            n == self@.message_number,
    {
        self.message_number
    }

    /// Returns the authenticated semantic kind of the frame.
    pub fn kind(self) -> (kind: FrameKind)
        ensures
            kind == self@.kind,
    {
        self.kind
    }
}

} // verus!
