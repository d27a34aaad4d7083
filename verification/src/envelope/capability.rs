//! Opaque recipient routing and replay identifiers.
use vstd::prelude::*;

use vstd::string::StringSliceAdditionalSpecFns;

use crate::crypto::{blake3, blake3_id, blake3_id_input, parts_view, random_bytes};
use crate::{MefError, Result};

verus! {

/// Wire length of a mailbox routing capability.
pub const CAPABILITY_LEN: usize = 32;

/// Wire length of a transport replay identifier.
pub const TRANSPORT_ID_LEN: usize = 16;

/// The label under which mailbox storage identifiers are derived.
pub const STORAGE_ID_LABEL: &'static str = "mailbox-capability-v1";

/// A random, unlinkable recipient routing capability for a delivery mailbox.
#[derive(Debug, Clone, Copy, PartialEq, Eq, Hash)]
pub struct MailboxCapability([u8; 32]);

impl View for MailboxCapability {
    type V = Seq<u8>;

    closed spec fn view(&self) -> Seq<u8> {
        self.0@
    }
}

/// Every mailbox capability holds exactly 32 bytes.
pub broadcast proof fn lemma_capability_len(c: MailboxCapability)
    ensures
        #[trigger] c@.len() == CAPABILITY_LEN,
{
}

impl MailboxCapability {
    /// Generates a fresh random mailbox capability.
    ///
    /// Fails only with [`MefError::RandomnessUnavailable`].
    pub fn generate() -> (res: Result<Self>)
        ensures
            res matches Err(e) ==> e == MefError::RandomnessUnavailable,
    {
        Ok(MailboxCapability(random_bytes::<32>()?))
    }

    /// Constructs a capability from an already authenticated out-of-band record.
    pub fn from_bytes(bytes: [u8; 32]) -> (c: Self)
        ensures
            c@ == bytes@,
    {
        MailboxCapability(bytes)
    }

    /// Returns the opaque random routing capability bytes.
    pub fn to_bytes(self) -> (bytes: [u8; 32])
        ensures
            bytes@ == self@,
    {
        self.0
    }

    /// Returns a BLAKE3 storage identifier suitable for server-side lookup; always succeeds.
    ///
    /// The identifier depends on the capability bytes alone.
    pub fn storage_id(self) -> (res: Result<[u8; 32]>)
        ensures
            res matches Ok(d) && d@ == blake3(blake3_id_input(STORAGE_ID_LABEL.spec_bytes(), seq![self@])),
    {
        let parts: [&[u8]; 1] = [self.0.as_slice()];
        assert(parts_view(parts@) =~= seq![self@]);
        proof {
            reveal_strlit("mailbox-capability-v1");
            crate::crypto::lemma_ascii_label_len(STORAGE_ID_LABEL);
        }
        blake3_id(STORAGE_ID_LABEL, &parts)
    }
}

/// A unique opaque identifier used for recipient-side replay detection.
#[derive(Debug, Clone, Copy, PartialEq, Eq, Hash)]
pub struct TransportMessageId([u8; 16]);

impl View for TransportMessageId {
    type V = Seq<u8>;

    closed spec fn view(&self) -> Seq<u8> {
        self.0@
    }
}

/// Every transport identifier holds exactly 16 bytes.
pub broadcast proof fn lemma_transport_id_len(id: TransportMessageId)
    ensures
        #[trigger] id@.len() == TRANSPORT_ID_LEN,
{
}

impl TransportMessageId {
    /// Generates a fresh transport message identifier.
    ///
    /// Fails only with [`MefError::RandomnessUnavailable`].
    pub fn generate() -> (res: Result<Self>)
        ensures
            res matches Err(e) ==> e == MefError::RandomnessUnavailable,
    {
        Ok(TransportMessageId(random_bytes::<16>()?))
    }

    /// Parses an identifier from canonical wire bytes.
    pub fn from_bytes(bytes: [u8; 16]) -> (id: Self)
        ensures
            id@ == bytes@,
    {
        TransportMessageId(bytes)
    }

    /// Returns canonical identifier bytes.
    pub fn to_bytes(self) -> (bytes: [u8; 16])
        ensures
            bytes@ == self@,
    {
        self.0
    }

    /// Compares two identifiers; true exactly when their bytes are equal.
    pub(crate) fn same_as(&self, other: &TransportMessageId) -> (eq: bool)
        ensures
            eq == (self@ == other@),
    {
        let mut i: usize = 0;
        while i < 16
            invariant
                i <= 16,
                self@.len() == 16,
                other@.len() == 16,
                forall|j: int| 0 <= j < i ==> self@[j] == other@[j],
            decreases 16 - i,
        {
            if self.0[i] != other.0[i] {
                return false;
            }
            i = i + 1;
        }
        assert(self@ =~= other@);
        true
    }
}

} // verus!
