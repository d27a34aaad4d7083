//! Stateful 1:1 ratchet transitions independent of transport and parsing.
use vstd::prelude::*;

use super::schedule::{
    chain_after, chain_next, chain_step, derive_for_message, derive_range, keys_view, message_key,
    range_error, range_keys, root_chain, root_next, root_step,
};
use crate::crypto::{
    aead_seal, lemma_aead_key_len, lemma_secret_len, open_spec, AeadKey, AeadSuite, Secret,
    AEAD_TAG_LEN,
};
use crate::frame::{lemma_header_wf, FrameHeader, FrameKind, InnerFrame, InnerFrameView, FrameHeaderView};
use crate::keys::{
    agrees_symmetrically, lemma_dh_public_len, lemma_dh_secret_len, x25519_agree, x25519_public, DhKeyPair,
    DhPublicKey, DH_KEY_LEN,
};
use crate::bytes::bytes32_eq;
use crate::crypto::{derive_secret, kdf};
use crate::handshake::{AuthenticatedHandshake, AuthenticatedHandshakeView};
use vstd::string::StringSliceAdditionalSpecFns;
use crate::{bytes_result, MefError, Result, MAX_CIPHERTEXT_LEN, MAX_SKIPPED_KEYS};

verus! {

broadcast use {lemma_aead_key_len, lemma_secret_len, lemma_dh_public_len, lemma_dh_secret_len, lemma_header_wf, crate::keys::lemma_dh_pair_len};

/// Direction used to derive the initial sending and receiving chains.
#[derive(Debug, Clone, Copy, PartialEq, Eq, Structural)]
pub enum RatchetRole {
    /// The endpoint that initiated the asynchronous session.
    Initiator,
    /// The endpoint that accepted the asynchronous session.
    Responder,
}

/// A retained message key: the sender ratchet key, the message number and the key.
pub type SkippedView = (Seq<u8>, u32, Seq<u8>);

/// The abstract content of a ratchet state.
pub struct RatchetStateView {
    /// The session identifier bound to every frame.
    pub session_id: Seq<u8>,
    /// The root key.
    pub root_key: Seq<u8>,
    /// The sending chain key.
    pub sending_chain: Seq<u8>,
    /// The receiving chain key.
    pub receiving_chain: Seq<u8>,
    /// The secret of the local ratchet key pair.
    pub dh_secret: Seq<u8>,
    /// The peer's current ratchet public key.
    pub remote_dh: Seq<u8>,
    /// The length of the previous sending chain.
    pub previous_sending_chain_len: u32,
    /// The number of messages sent on the current sending chain.
    pub sending_count: u32,
    /// The number of messages received on the current receiving chain.
    pub receiving_count: u32,
    /// The transaction generation used for rollback checks.
    pub generation: u64,
    /// The payload AEAD suite.
    pub suite: AeadSuite,
    /// The retained skipped message keys, oldest first.
    pub skipped: Seq<SkippedView>,
}

/// Numbered message keys tagged with the sender ratchet key they belong to.
pub open spec fn tag_keys(remote: Seq<u8>, keys: Seq<(u32, Seq<u8>)>) -> Seq<SkippedView> {
    Seq::new(keys.len(), |j: int| (remote, keys[j].0, keys[j].1))
}

/// `i` is the first retained key for message `number` of ratchet key `remote`.
pub open spec fn is_first_match(skipped: Seq<SkippedView>, remote: Seq<u8>, number: u32, i: int) -> bool {
    &&& 0 <= i < skipped.len()
    &&& skipped[i].0 == remote && skipped[i].1 == number
    &&& forall|j: int| 0 <= j < i ==> !(skipped[j].0 == remote && skipped[j].1 == number)
}

/// The position of the first retained key for message `number` of ratchet key `remote`.
pub open spec fn find_skipped(skipped: Seq<SkippedView>, remote: Seq<u8>, number: u32) -> Option<int> {
    if exists|i: int| is_first_match(skipped, remote, number, i) {
        Some(choose|i: int| is_first_match(skipped, remote, number, i))
    } else {
        None
    }
}

/// Adds one to a generation, saturating at the maximum.
pub open spec fn next_generation(g: u64) -> u64 {
    if g == u64::MAX { g } else { (g + 1) as u64 }
}

/// What decrypting a frame with the retained key at position `i` does: on success that key
/// is consumed.
pub open spec fn skipped_spec(s: RatchetStateView, f: InnerFrameView, i: int) -> (RatchetStateView, core::result::Result<Seq<u8>, MefError>) {
    match open_spec(s.skipped[i].2, f.ciphertext, f.aad()) {
        Err(e) => (s, Err(e)),
        Ok(p) => (RatchetStateView { skipped: s.skipped.remove(i), generation: next_generation(s.generation), ..s }, Ok(p)),
    }
}

/// What decrypting a frame of the current receiving ratchet, for which no key is retained,
/// does: an earlier message number was consumed already.
pub open spec fn same_ratchet_spec(s: RatchetStateView, f: InnerFrameView) -> (RatchetStateView, core::result::Result<Seq<u8>, MefError>) {
    let target = f.header.message_number;
    let remote = f.header.ratchet_public;
    if target < s.receiving_count {
        (s, Err(MefError::MessageKeyConsumed))
    } else {
        match range_error(s.receiving_count, target, s.skipped.len()) {
            Some(e) => (s, Err(e)),
            None => {
                let steps = (target - s.receiving_count) as nat;
                match open_spec(message_key(chain_after(s.receiving_chain, steps)), f.ciphertext, f.aad()) {
                    Err(e) => (s, Err(e)),
                    Ok(p) => {
                        let advanced = RatchetStateView { receiving_chain: chain_after(s.receiving_chain, steps + 1), ..s };
                        if target == u32::MAX {
                            (advanced, Err(MefError::CounterExhausted))
                        } else {
                            (RatchetStateView {
                                receiving_count: (target + 1) as u32,
                                skipped: s.skipped + tag_keys(remote, range_keys(s.receiving_chain, s.receiving_count, steps)),
                                generation: next_generation(s.generation),
                                ..advanced
                            }, Ok(p))
                        }
                    },
                }
            },
        }
    }
}

/// What decrypting a frame of a new peer ratchet key does, with `fresh` the secret of the new
/// local ratchet key pair.
pub open spec fn new_ratchet_spec(s: RatchetStateView, f: InnerFrameView, fresh: Seq<u8>) -> (RatchetStateView, core::result::Result<Seq<u8>, MefError>) {
    let remote = f.header.ratchet_public;
    let previous = f.header.previous_chain_len;
    let target = f.header.message_number;
    match range_error(s.receiving_count, previous, s.skipped.len()) {
        Some(e) => (s, Err(e)),
        None => {
            let old_keys = range_keys(s.receiving_chain, s.receiving_count, (previous - s.receiving_count) as nat);
            match x25519_agree(s.dh_secret, remote) {
                None => (s, Err(MefError::NonContributoryKeyAgreement)),
                Some(dh_receive) => {
                    let root_after_receive = root_next(s.root_key, dh_receive);
                    let receiving = root_chain(s.root_key, dh_receive);
                    match x25519_agree(fresh, remote) {
                        None => (s, Err(MefError::NonContributoryKeyAgreement)),
                        Some(dh_send) => match range_error(0, target, s.skipped.len() + old_keys.len()) {
                            Some(e) => (s, Err(e)),
                            None => match open_spec(message_key(chain_after(receiving, target as nat)), f.ciphertext, f.aad()) {
                                Err(e) => (s, Err(e)),
                                Ok(p) => {
                                    let advanced = RatchetStateView {
                                        skipped: s.skipped + tag_keys(s.remote_dh, old_keys) + tag_keys(remote, range_keys(receiving, 0, target as nat)),
                                        root_key: root_next(root_after_receive, dh_send),
                                        receiving_chain: chain_after(receiving, (target + 1) as nat),
                                        sending_chain: root_chain(root_after_receive, dh_send),
                                        dh_secret: fresh,
                                        remote_dh: remote,
                                        previous_sending_chain_len: s.sending_count,
                                        sending_count: 0,
                                        ..s
                                    };
                                    if target == u32::MAX {
                                        (advanced, Err(MefError::CounterExhausted))
                                    } else {
                                        (RatchetStateView {
                                            receiving_count: (target + 1) as u32,
                                            generation: next_generation(s.generation),
                                            ..advanced
                                        }, Ok(p))
                                    }
                                },
                            },
                        },
                    }
                },
            }
        },
    }
}

/// What [`RatchetState::decrypt`] does, with `fresh` the secret of the new local ratchet key
/// pair generated when the frame starts a new peer ratchet. A retained key for the frame's
/// ratchet key and message number is used first, whichever ratchet the frame belongs to, so
/// late frames of a previous peer ratchet still open after a DH step.
pub open spec fn decrypt_spec(s: RatchetStateView, f: InnerFrameView, fresh: Seq<u8>) -> (RatchetStateView, core::result::Result<Seq<u8>, MefError>) {
    if f.header.session_id != s.session_id || f.ciphertext.suite != s.suite {
        (s, Err(MefError::RatchetStateMismatch))
    } else {
        match find_skipped(s.skipped, f.header.ratchet_public, f.header.message_number) {
            Some(i) => skipped_spec(s, f, i),
            None => if f.header.ratchet_public == s.remote_dh {
                same_ratchet_spec(s, f)
            } else {
                new_ratchet_spec(s, f, fresh)
            },
        }
    }
}

/// The frames on which decryption draws a fresh ratchet key pair, and so the only ones on
/// which unavailable randomness can fail it: a matching session and suite, no retained key, a
/// new peer ratchet key, an acceptable previous-chain length and a contributory agreement.
pub open spec fn draws_fresh_ratchet(s: RatchetStateView, f: InnerFrameView) -> bool {
    &&& f.header.session_id == s.session_id
    &&& f.ciphertext.suite == s.suite
    &&& find_skipped(s.skipped, f.header.ratchet_public, f.header.message_number) is None
    &&& f.header.ratchet_public != s.remote_dh
    &&& range_error(s.receiving_count, f.header.previous_chain_len, s.skipped.len()) is None
    &&& x25519_agree(s.dh_secret, f.header.ratchet_public) is Some
}

/// A failed decryption leaves the state untouched, except that exhausting the receiving counter
/// still advances the receiving chain.
pub proof fn lemma_failed_decrypt_keeps_state(s: RatchetStateView, f: InnerFrameView, fresh: Seq<u8>)
    ensures
        decrypt_spec(s, f, fresh).1 matches Err(e) && e != MefError::CounterExhausted ==> decrypt_spec(s, f, fresh).0 == s,
{
}

} // verus!

verus! {

/// A retained message key.
pub(crate) struct SkippedMessageKey {
    pub(crate) remote_dh: DhPublicKey,
    pub(crate) message_number: u32,
    pub(crate) key: AeadKey,
}

/// The retained message keys viewed as abstract entries.
pub(crate) open spec fn skipped_view(keys: Seq<SkippedMessageKey>) -> Seq<SkippedView> {
    Seq::new(keys.len(), |i: int| (keys[i].remote_dh@, keys[i].message_number, keys[i].key@))
}

/// A bounded, stateful ratchet for a single 1:1 device session.
pub struct RatchetState {
    pub(crate) session_id: [u8; 32],
    pub(crate) root_key: Secret,
    pub(crate) sending_chain: Secret,
    pub(crate) receiving_chain: Secret,
    pub(crate) dh_pair: DhKeyPair,
    pub(crate) remote_dh: DhPublicKey,
    pub(crate) previous_sending_chain_len: u32,
    pub(crate) sending_count: u32,
    pub(crate) receiving_count: u32,
    pub(crate) generation: u64,
    pub(crate) suite: AeadSuite,
    pub(crate) skipped: Vec<SkippedMessageKey>,
}

impl RatchetState {
    /// The abstract content of the state, as seen inside this crate.
    pub(crate) open spec fn model(&self) -> RatchetStateView {
        RatchetStateView {
            session_id: self.session_id@,
            root_key: self.root_key@,
            sending_chain: self.sending_chain@,
            receiving_chain: self.receiving_chain@,
            dh_secret: self.dh_pair@,
            remote_dh: self.remote_dh@,
            previous_sending_chain_len: self.previous_sending_chain_len,
            sending_count: self.sending_count,
            receiving_count: self.receiving_count,
            generation: self.generation,
            suite: self.suite,
            skipped: skipped_view(self.skipped@),
        }
    }
}

impl View for RatchetState {
    type V = RatchetStateView;

    closed spec fn view(&self) -> RatchetStateView {
        self.model()
    }
}

/// Inside this crate the view of a state is its model.
pub(crate) broadcast proof fn lemma_view_is_model(s: RatchetState)
    ensures
        #[trigger] s@ == s.model(),
{
}

impl RatchetStateView {
    /// Key lengths are those of the wire format and at most [`MAX_SKIPPED_KEYS`] keys are retained.
    pub open spec fn wf(self) -> bool {
        &&& self.session_id.len() == 32
        &&& self.root_key.len() == 32
        &&& self.sending_chain.len() == 32
        &&& self.receiving_chain.len() == 32
        &&& self.dh_secret.len() == 32
        &&& self.remote_dh.len() == 32
        &&& self.skipped.len() <= MAX_SKIPPED_KEYS
        &&& forall|i: int| 0 <= i < self.skipped.len() ==> #[trigger] self.skipped[i].0.len() == 32 && self.skipped[i].2.len() == 32
    }
}

/// The header that the next encrypted frame carries.
pub open spec fn encrypt_header(s: RatchetStateView, kind: FrameKind) -> FrameHeaderView {
    FrameHeaderView {
        kind,
        session_id: s.session_id,
        ratchet_public: x25519_public(s.dh_secret),
        previous_chain_len: s.previous_sending_chain_len,
        message_number: s.sending_count,
    }
}

/// The state after a successful encryption.
pub open spec fn encrypted_state(s: RatchetStateView) -> RatchetStateView {
    RatchetStateView {
        sending_chain: chain_after(s.sending_chain, 1),
        sending_count: (s.sending_count + 1) as u32,
        generation: next_generation(s.generation),
        ..s
    }
}

/// The state after a proactive rotation to the ratchet key pair with secret `fresh`, whose
/// agreement with the peer's ratchet key gave `dh`.
pub open spec fn rotated_state(s: RatchetStateView, fresh: Seq<u8>, dh: Seq<u8>) -> RatchetStateView {
    RatchetStateView {
        root_key: root_next(s.root_key, dh),
        sending_chain: root_chain(s.root_key, dh),
        dh_secret: fresh,
        previous_sending_chain_len: s.sending_count,
        sending_count: 0,
        generation: next_generation(s.generation),
        ..s
    }
}

impl RatchetState {
    #[verifier::type_invariant]
    spec fn inv(self) -> bool {
        self.skipped@.len() <= MAX_SKIPPED_KEYS
    }

    /// Establishes for proofs that every ratchet state is well formed; does nothing at run time.
    pub fn check_wf(&self)
        ensures
            self@.wf(),
    {
        proof {
            use_type_invariant(self);
            assert forall|i: int| 0 <= i < self@.skipped.len() implies #[trigger] self@.skipped[i].0.len() == 32 && self@.skipped[i].2.len() == 32 by {
                assert(self@.skipped[i] == (self.skipped@[i].remote_dh@, self.skipped@[i].message_number, self.skipped@[i].key@));
            }
        }
    }

    /// Builds a state from its parts.
    pub(crate) fn assemble(
        session_id: [u8; 32],
        root_key: Secret,
        sending_chain: Secret,
        receiving_chain: Secret,
        dh_pair: DhKeyPair,
        remote_dh: DhPublicKey,
        previous_sending_chain_len: u32,
        sending_count: u32,
        receiving_count: u32,
        generation: u64,
        suite: AeadSuite,
        skipped: Vec<SkippedMessageKey>,
    ) -> (s: Self)
        requires
            skipped@.len() <= MAX_SKIPPED_KEYS,
        ensures
            s@ == (RatchetStateView {
                session_id: session_id@,
                root_key: root_key@,
                sending_chain: sending_chain@,
                receiving_chain: receiving_chain@,
                dh_secret: dh_pair@,
                remote_dh: remote_dh@,
                previous_sending_chain_len,
                sending_count,
                receiving_count,
                generation,
                suite,
                skipped: skipped_view(skipped@),
            }),
    {
        RatchetState {
            session_id,
            root_key,
            sending_chain,
            receiving_chain,
            dh_pair,
            remote_dh,
            previous_sending_chain_len,
            sending_count,
            receiving_count,
            generation,
            suite,
            skipped,
        }
    }

    /// Returns the session identifier bound to every emitted frame.
    pub fn session_id(&self) -> (id: [u8; 32])
        ensures
            id@ == self@.session_id,
    {
        self.session_id
    }

    /// Returns the public ratchet key advertised by newly encrypted frames.
    pub fn current_public_key(&self) -> (key: DhPublicKey)
        ensures
            key@ == x25519_public(self@.dh_secret),
    {
        self.dh_pair.public()
    }

    /// Returns the payload AEAD suite selected for this ratchet.
    pub fn suite(&self) -> (suite: AeadSuite)
        ensures
            suite == self@.suite,
    {
        self.suite
    }

    /// Returns the number of currently retained skipped message keys.
    pub fn skipped_key_count(&self) -> (n: usize)
        ensures
            n == self@.skipped.len(),
    {
        self.skipped.len()
    }

    /// Returns the monotonic in-memory transaction generation for persistence rollback checks.
    pub fn generation(&self) -> (g: u64)
        ensures
            g == self@.generation,
    {
        self.generation
    }
}

} // verus!

verus! {

impl RatchetState {
    /// Encrypts a message and commits the next sending-chain state only after successful framing.
    ///
    /// The frame carries [`encrypt_header`] and the ciphertext of the plaintext under the
    /// current sending message key; opening it with that key gives back the plaintext. A
    /// failure leaves the state untouched, except that exhausting the sending counter still
    /// advances the sending chain.
    pub fn encrypt(&mut self, kind: FrameKind, plaintext: &[u8]) -> (res: Result<InnerFrame>)
        ensures
            plaintext@.len() > MAX_CIPHERTEXT_LEN - AEAD_TAG_LEN ==> res is Err,
            res matches Err(e) ==> e == MefError::InvalidLength || e == MefError::RandomnessUnavailable || e == MefError::CounterExhausted,
            res matches Err(e) ==> (e == MefError::InvalidLength <==> plaintext@.len() > MAX_CIPHERTEXT_LEN - AEAD_TAG_LEN),
            res matches Err(e) && e != MefError::CounterExhausted ==> final(self)@ == old(self)@,
            res matches Err(e) && e == MefError::CounterExhausted ==> old(self)@.sending_count == u32::MAX
                && final(self)@ == (RatchetStateView { sending_chain: chain_after(old(self)@.sending_chain, 1), ..old(self)@ }),
            res matches Ok(f) ==> f@.wf() && f@.header == encrypt_header(old(self)@, kind)
                && f@.ciphertext.suite == old(self)@.suite
                && f@.ciphertext.body == aead_seal(old(self)@.suite, message_key(old(self)@.sending_chain), f@.ciphertext.nonce, f@.aad(), plaintext@)
                && open_spec(message_key(old(self)@.sending_chain), f@.ciphertext, f@.aad()) == Ok::<Seq<u8>, MefError>(plaintext@),
            res matches Ok(f) ==> old(self)@.sending_count < u32::MAX && final(self)@ == encrypted_state(old(self)@),
    {
        proof { use_type_invariant(&*self); }
        let message_number = self.sending_count;
        let (next_chain, message_key) = chain_step(&self.sending_chain)?;
        proof {
            assert(chain_after(self@.sending_chain, 0) == self@.sending_chain);
            assert(chain_after(self@.sending_chain, 1) == next_chain@);
        }
        let header = FrameHeader::new(
            kind,
            self.session_id,
            self.dh_pair.public().to_bytes(),
            self.previous_sending_chain_len,
            message_number,
        );
        let frame = InnerFrame::seal(&message_key, self.suite, header, plaintext)?;
        self.sending_chain = next_chain;
        if self.sending_count == u32::MAX {
            return Err(MefError::CounterExhausted);
        }
        self.sending_count = self.sending_count + 1;
        self.generation = if self.generation == u64::MAX { self.generation } else { self.generation + 1 };
        Ok(frame)
    }

    /// Proactively starts a new sending DH ratchet step.
    ///
    /// A failure leaves the state untouched: unavailable randomness, or a non-contributory
    /// agreement of the fresh key pair with the peer's ratchet key (always for the all-zero
    /// key); on success the state is [`rotated_state`] for the fresh key pair.
    pub fn rotate_sending_ratchet(&mut self) -> (res: Result<()>)
        ensures
            res matches Err(e) ==> final(self)@ == old(self)@
                && (e == MefError::RandomnessUnavailable || e == MefError::NonContributoryKeyAgreement),
            res matches Err(e) && e == MefError::NonContributoryKeyAgreement ==> exists|fresh: Seq<u8>|
                fresh.len() == DH_KEY_LEN && #[trigger] x25519_agree(fresh, old(self)@.remote_dh) is None,
            old(self)@.remote_dh == crate::keys::zero_public_key() ==> res is Err,
            res is Ok ==> exists|fresh: Seq<u8>, dh: Seq<u8>|
                fresh.len() == DH_KEY_LEN && x25519_agree(fresh, old(self)@.remote_dh) == Some(dh)
                && #[trigger] rotated_state(old(self)@, fresh, dh) == final(self)@,
    {
        proof { use_type_invariant(&*self); }
        let next_pair = DhKeyPair::generate()?;
        let dh = next_pair.diffie_hellman(self.remote_dh)?;
        let (next_root, next_sending_chain) = root_step(&self.root_key, &dh)?;
        let ghost fresh = next_pair@;
        self.root_key = next_root;
        self.sending_chain = next_sending_chain;
        self.dh_pair = next_pair;
        self.previous_sending_chain_len = self.sending_count;
        self.sending_count = 0;
        self.generation = if self.generation == u64::MAX { self.generation } else { self.generation + 1 };
        assert(rotated_state(old(self)@, fresh, dh@) == self@);
        Ok(())
    }
}

} // verus!

verus! {

/// The first match found by a search is the one [`find_skipped`] names.
proof fn lemma_first_match_unique(skipped: Seq<SkippedView>, remote: Seq<u8>, number: u32, i: int)
    requires
        is_first_match(skipped, remote, number, i),
    ensures
        find_skipped(skipped, remote, number) == Some(i),
{
    let k = choose|k: int| is_first_match(skipped, remote, number, k);
    assert(is_first_match(skipped, remote, number, k));
    if k < i {
        assert(!(skipped[k].0 == remote && skipped[k].1 == number));
    }
    if i < k {
        assert(!(skipped[i].0 == remote && skipped[i].1 == number));
    }
}

impl RatchetState {
    fn add_skipped(&mut self, remote_dh: DhPublicKey, keys: Vec<(u32, AeadKey)>)
        requires
            old(self)@.skipped.len() + keys@.len() <= MAX_SKIPPED_KEYS,
        ensures
            final(self)@ == (RatchetStateView {
                skipped: old(self)@.skipped + tag_keys(remote_dh@, keys_view(keys@)),
                ..old(self)@
            }),
            final(self).skipped@.len() == old(self).skipped@.len() + keys@.len(),
    {
        let ghost start = self@;
        let ghost all = keys_view(keys@);
        let mut keys = keys;
        let mut skipped: Vec<SkippedMessageKey> = Vec::new();
        std::mem::swap(&mut skipped, &mut self.skipped);
        let ghost mut taken: nat = 0;
        while keys.len() > 0
            invariant
                taken <= all.len(),
                keys_view(keys@) == all.skip(taken as int),
                start.skipped.len() + all.len() <= MAX_SKIPPED_KEYS,
                skipped_view(skipped@) == start.skipped + tag_keys(remote_dh@, all.take(taken as int)),
            decreases keys@.len(),
        {
            let ghost before = keys_view(keys@);
            let ghost raw = keys@;
            let ghost old_view = skipped_view(skipped@);
            let (message_number, key) = keys.remove(0);
            assert(message_number == raw[0].0 && key@ == raw[0].1@);
            assert(keys_view(keys@) =~= before.drop_first());
            let entry = SkippedMessageKey { remote_dh, message_number, key };
            skipped.push(entry);
            proof {
                assert(skipped_view(skipped@) =~= old_view.push((remote_dh@, message_number, key@)));
                assert(before[0] == all[taken as int]);
                assert(tag_keys(remote_dh@, all.take((taken + 1) as int)) =~= tag_keys(remote_dh@, all.take(taken as int)).push((remote_dh@, message_number, key@)));
                taken = taken + 1;
                assert(all.skip(taken as int) =~= before.drop_first());
                assert(skipped_view(skipped@) =~= start.skipped + tag_keys(remote_dh@, all.take(taken as int)));
            }
        }
        assert(all.take(all.len() as int) =~= all);
        self.skipped = skipped;
        assert(all.take(all.len() as int) =~= all);
    }

    fn find_skipped_index(&self, remote_dh: DhPublicKey, message_number: u32) -> (index: Option<usize>)
        ensures
            (match index {
                Some(i) => find_skipped(self@.skipped, remote_dh@, message_number) == Some(i as int),
                None => find_skipped(self@.skipped, remote_dh@, message_number) is None,
            }),
    {
        let mut index: usize = 0;
        while index < self.skipped.len()
            invariant
                index <= self.skipped@.len(),
                forall|j: int| 0 <= j < index ==> !(self@.skipped[j].0 == remote_dh@ && self@.skipped[j].1 == message_number),
            decreases self.skipped@.len() - index,
        {
            let entry = &self.skipped[index];
            if entry.remote_dh.same_as(&remote_dh) && entry.message_number == message_number {
                proof { lemma_first_match_unique(self@.skipped, remote_dh@, message_number, index as int); }
                return Some(index);
            }
            index = index + 1;
        }
        assert(!exists|i: int| is_first_match(self@.skipped, remote_dh@, message_number, i));
        None
    }

    fn decrypt_skipped(&mut self, index: usize, frame: &InnerFrame) -> (res: Result<Vec<u8>>)
        requires
            index < old(self)@.skipped.len(),
        ensures
            (final(self)@, bytes_result(&res)) == skipped_spec(old(self)@, frame@, index as int),
    {
        proof { use_type_invariant(&*self); }
        let plaintext = frame.open(&self.skipped[index].key)?;
        let mut skipped: Vec<SkippedMessageKey> = Vec::new();
        std::mem::swap(&mut skipped, &mut self.skipped);
        let ghost before = skipped@;
        let _removed = skipped.remove(index);
        assert(skipped_view(skipped@) =~= skipped_view(before).remove(index as int));
        self.skipped = skipped;
        self.generation = if self.generation == u64::MAX { self.generation } else { self.generation + 1 };
        Ok(plaintext)
    }
}

} // verus!

verus! {

impl RatchetState {
    fn decrypt_same_ratchet(&mut self, remote_dh: DhPublicKey, frame: &InnerFrame) -> (res: Result<Vec<u8>>)
        requires
            remote_dh@ == frame@.header.ratchet_public,
        ensures
            (final(self)@, bytes_result(&res)) == same_ratchet_spec(old(self)@, frame@),
    {
        proof { use_type_invariant(&*self); }
        let target = frame.header().message_number();
        if target < self.receiving_count {
            return Err(MefError::MessageKeyConsumed);
        }
        let (next_chain, message_key, newly_skipped) =
            derive_for_message(&self.receiving_chain, self.receiving_count, target, self.skipped.len())?;
        assert(keys_view(newly_skipped@).len() == newly_skipped@.len());
        let plaintext = frame.open(&message_key)?;
        self.receiving_chain = next_chain;
        if target == u32::MAX {
            return Err(MefError::CounterExhausted);
        }
        self.receiving_count = target + 1;
        self.add_skipped(remote_dh, newly_skipped);
        self.generation = if self.generation == u64::MAX { self.generation } else { self.generation + 1 };
        Ok(plaintext)
    }

    fn decrypt_new_ratchet(&mut self, remote_dh: DhPublicKey, frame: &InnerFrame) -> (res: Result<Vec<u8>>)
        requires
            remote_dh@ == frame@.header.ratchet_public,
        ensures
            res matches Err(e) && e == MefError::RandomnessUnavailable ==> final(self)@ == old(self)@
                && range_error(old(self)@.receiving_count, frame@.header.previous_chain_len, old(self)@.skipped.len()) is None
                && x25519_agree(old(self)@.dh_secret, frame@.header.ratchet_public) is Some,
            !(res matches Err(e) && e == MefError::RandomnessUnavailable) ==> exists|fresh: Seq<u8>|
                fresh.len() == DH_KEY_LEN && #[trigger] new_ratchet_spec(old(self)@, frame@, fresh) == (final(self)@, bytes_result(&res)),
    {
        proof { use_type_invariant(&*self); }
        let header = frame.header();
        let ghost w = Seq::new(32, |i: int| 0u8);
        let (_old_chain_after_skips, old_skipped) =
            match derive_range(&self.receiving_chain, self.receiving_count, header.previous_chain_len(), self.skipped.len()) {
                Ok(v) => v,
                Err(e) => {
                    assert(new_ratchet_spec(old(self)@, frame@, w) == (self@, bytes_result(&Err::<Vec<u8>, MefError>(e))));
                    return Err(e);
                },
            };
        assert(keys_view(old_skipped@).len() == old_skipped@.len());
        let dh_receive = match self.dh_pair.diffie_hellman(remote_dh) {
            Ok(d) => d,
            Err(e) => {
                assert(new_ratchet_spec(old(self)@, frame@, w) == (self@, bytes_result(&Err::<Vec<u8>, MefError>(e))));
                return Err(e);
            },
        };
        let (root_after_receive, next_receiving_chain) = root_step(&self.root_key, &dh_receive)?;
        let next_pair = DhKeyPair::generate()?;
        let ghost fresh = next_pair@;
        let dh_send = match next_pair.diffie_hellman(remote_dh) {
            Ok(d) => d,
            Err(e) => {
                assert(new_ratchet_spec(old(self)@, frame@, fresh) == (self@, bytes_result(&Err::<Vec<u8>, MefError>(e))));
                return Err(e);
            },
        };
        let (root_after_send, next_sending_chain) = root_step(&root_after_receive, &dh_send)?;
        let extra_capacity = match self.skipped.len().checked_add(old_skipped.len()) {
            Some(n) => n,
            None => return Err(MefError::SkippedKeyLimitExceeded),
        };
        let target = header.message_number();
        let (receiving_chain, message_key, new_skipped) =
            match derive_for_message(&next_receiving_chain, 0, target, extra_capacity) {
                Ok(v) => v,
                Err(e) => {
                    assert(new_ratchet_spec(old(self)@, frame@, fresh) == (self@, bytes_result(&Err::<Vec<u8>, MefError>(e))));
                    return Err(e);
                },
            };
        assert(keys_view(new_skipped@).len() == new_skipped@.len());
        let plaintext = match frame.open(&message_key) {
            Ok(p) => p,
            Err(e) => {
                assert(new_ratchet_spec(old(self)@, frame@, fresh) == (self@, bytes_result(&Err::<Vec<u8>, MefError>(e))));
                return Err(e);
            },
        };
        let old_remote = self.remote_dh;
        self.add_skipped(old_remote, old_skipped);
        self.add_skipped(remote_dh, new_skipped);
        self.root_key = root_after_send;
        self.receiving_chain = receiving_chain;
        self.sending_chain = next_sending_chain;
        self.dh_pair = next_pair;
        self.remote_dh = remote_dh;
        self.previous_sending_chain_len = self.sending_count;
        self.sending_count = 0;
        if target == u32::MAX {
            assert(new_ratchet_spec(old(self)@, frame@, fresh) == (self@, bytes_result(&Err::<Vec<u8>, MefError>(MefError::CounterExhausted))));
            return Err(MefError::CounterExhausted);
        }
        self.receiving_count = target + 1;
        self.generation = if self.generation == u64::MAX { self.generation } else { self.generation + 1 };
        assert(new_ratchet_spec(old(self)@, frame@, fresh) == (self@, bytes_result(&Ok::<Vec<u8>, MefError>(plaintext))));
        Ok(plaintext)
    }

    /// Decrypts an authenticated frame and commits state only after AEAD verification succeeds.
    ///
    /// The result and the new state are exactly [`decrypt_spec`] for the secret of the fresh
    /// ratchet key pair generated when the frame starts a new peer ratchet; the only other
    /// outcome is [`MefError::RandomnessUnavailable`] with the state untouched, and only on a
    /// frame that [`draws_fresh_ratchet`]. By [`lemma_failed_decrypt_keeps_state`], every
    /// failure but counter exhaustion leaves the state untouched.
    pub fn decrypt(&mut self, frame: &InnerFrame) -> (res: Result<Vec<u8>>)
        ensures
            res matches Err(e) && e == MefError::RandomnessUnavailable ==> final(self)@ == old(self)@
                && draws_fresh_ratchet(old(self)@, frame@),
            !(res matches Err(e) && e == MefError::RandomnessUnavailable) ==> exists|fresh: Seq<u8>|
                fresh.len() == DH_KEY_LEN && #[trigger] decrypt_spec(old(self)@, frame@, fresh) == (final(self)@, bytes_result(&res)),
    {
        let header = frame.header();
        let session_id = header.session_id();
        let ghost w = Seq::new(32, |i: int| 0u8);
        if !bytes32_eq(&session_id, &self.session_id) || frame.suite() != self.suite {
            assert(decrypt_spec(old(self)@, frame@, w) == (self@, bytes_result(&Err::<Vec<u8>, MefError>(MefError::RatchetStateMismatch))));
            return Err(MefError::RatchetStateMismatch);
        }
        let remote_dh = DhPublicKey::from_bytes(header.ratchet_public());
        if let Some(index) = self.find_skipped_index(remote_dh, header.message_number()) {
            let res = self.decrypt_skipped(index, frame);
            assert(decrypt_spec(old(self)@, frame@, w) == (self@, bytes_result(&res)));
            return res;
        }
        if remote_dh.same_as(&self.remote_dh) {
            let res = self.decrypt_same_ratchet(remote_dh, frame);
            assert(decrypt_spec(old(self)@, frame@, w) == (self@, bytes_result(&res)));
            res
        } else {
            let res = self.decrypt_new_ratchet(remote_dh, frame);
            proof {
                if !(res matches Err(e) && e == MefError::RandomnessUnavailable) {
                    let fresh = choose|fresh: Seq<u8>| fresh.len() == DH_KEY_LEN
                        && #[trigger] new_ratchet_spec(old(self)@, frame@, fresh) == (self@, bytes_result(&res));
                    assert(decrypt_spec(old(self)@, frame@, fresh) == (self@, bytes_result(&res)));
                }
            }
            res
        }
    }
}

} // verus!

verus! {

/// Label of the initial chain from the initiator to the responder.
pub const INIT_A_TO_B_LABEL: &'static str = "ratchet-init-a-to-b-v1";

/// Label of the initial chain from the responder to the initiator.
pub const INIT_B_TO_A_LABEL: &'static str = "ratchet-init-b-to-a-v1";

/// The initial chain from the initiator to the responder.
pub open spec fn initial_a_to_b(h: AuthenticatedHandshakeView) -> Seq<u8> {
    kdf(h.root_secret, INIT_A_TO_B_LABEL.spec_bytes(), h.session_id)
}

/// The initial chain from the responder to the initiator.
pub open spec fn initial_b_to_a(h: AuthenticatedHandshakeView) -> Seq<u8> {
    kdf(h.root_secret, INIT_B_TO_A_LABEL.spec_bytes(), h.session_id)
}

/// The ratchet state that authenticated handshake material initializes with a payload suite.
pub open spec fn initial_state(h: AuthenticatedHandshakeView, suite: AeadSuite) -> RatchetStateView {
    let initiator = h.role == RatchetRole::Initiator;
    RatchetStateView {
        session_id: h.session_id,
        root_key: h.root_secret,
        sending_chain: if initiator { initial_a_to_b(h) } else { initial_b_to_a(h) },
        receiving_chain: if initiator { initial_b_to_a(h) } else { initial_a_to_b(h) },
        dh_secret: h.local_ratchet,
        remote_dh: h.remote_ratchet,
        previous_sending_chain_len: 0,
        sending_count: 0,
        receiving_count: 0,
        generation: 0,
        suite,
        skipped: Seq::empty(),
    }
}

impl RatchetState {
    /// Initializes a ratchet from one validated, transcript-bound handshake result, with the
    /// default XChaCha20-Poly1305 payload suite.
    ///
    /// The handshake value is consumed so that its root secret cannot be reused for another
    /// session. Always succeeds, with [`initial_state`].
    pub fn from_authenticated_handshake(handshake: AuthenticatedHandshake) -> (res: Result<Self>)
        ensures
            res matches Ok(s) && s@ == initial_state(handshake@, AeadSuite::XChaCha20Poly1305),
    {
        Self::from_authenticated_handshake_with_suite(handshake, AeadSuite::XChaCha20Poly1305)
    }

    /// Initializes a ratchet with an explicit payload AEAD suite.
    ///
    /// The selected suite is authenticated in every frame header and persisted in snapshots;
    /// use only suites supported by both endpoints. Always succeeds, with [`initial_state`].
    pub fn from_authenticated_handshake_with_suite(handshake: AuthenticatedHandshake, suite: AeadSuite) -> (res: Result<Self>)
        ensures
            res matches Ok(s) && s@ == initial_state(handshake@, suite),
    {
        let ghost h = handshake@;
        let (session_id, root_key, role, local_dh, remote_dh) = handshake.into_ratchet_parts();
        proof {
            reveal_strlit("ratchet-init-a-to-b-v1");
            reveal_strlit("ratchet-init-b-to-a-v1");
            crate::crypto::lemma_ascii_label_len(INIT_A_TO_B_LABEL);
            crate::crypto::lemma_ascii_label_len(INIT_B_TO_A_LABEL);
        }
        let root_bytes = root_key.copy_bytes();
        let a_to_b = derive_secret(&root_bytes, INIT_A_TO_B_LABEL, &session_id)?;
        let b_to_a = derive_secret(&root_bytes, INIT_B_TO_A_LABEL, &session_id)?;
        let (sending_chain, receiving_chain) = match role {
            RatchetRole::Initiator => (a_to_b, b_to_a),
            RatchetRole::Responder => (b_to_a, a_to_b),
        };
        let state = RatchetState {
            session_id,
            root_key,
            sending_chain,
            receiving_chain,
            dh_pair: local_dh,
            remote_dh,
            previous_sending_chain_len: 0,
            sending_count: 0,
            receiving_count: 0,
            generation: 0,
            suite,
            skipped: Vec::new(),
        };
        assert(skipped_view(state.skipped@) =~= Seq::<SkippedView>::empty());
        assert(state@ == initial_state(h, suite));
        Ok(state)
    }
}

/// `a` sends on the chain `b` receives on: both share the session and suite, `b` records
/// `a`'s current ratchet key, and `b` expects `a`'s next message on `a`'s sending chain.
pub open spec fn sends_to(a: RatchetStateView, b: RatchetStateView) -> bool {
    &&& a.session_id == b.session_id
    &&& a.suite == b.suite
    &&& x25519_public(a.dh_secret) == b.remote_dh
    &&& a.sending_chain == b.receiving_chain
    &&& a.sending_count == b.receiving_count
}

/// The two sides of an agreed handshake, initialized with the same suite, each send on the
/// chain the other receives on.
pub proof fn lemma_initial_states_paired(initiator: AuthenticatedHandshakeView, responder: AuthenticatedHandshakeView, suite: AeadSuite)
    requires
        initiator.role == RatchetRole::Initiator,
        responder.role == RatchetRole::Responder,
        initiator.session_id == responder.session_id,
        initiator.root_secret == responder.root_secret,
        responder.remote_ratchet == x25519_public(initiator.local_ratchet),
        initiator.remote_ratchet == x25519_public(responder.local_ratchet),
    ensures
        sends_to(initial_state(initiator, suite), initial_state(responder, suite)),
        sends_to(initial_state(responder, suite), initial_state(initiator, suite)),
{
}

/// A frame that `a` encrypts is decrypted by a well-formed `b` that `a` sends to, in order,
/// to the same plaintext; afterwards `a` still sends to `b`, and `b` has only advanced its
/// receiving chain by one message; a second delivery of the same frame is rejected as
/// consumed and changes nothing. This holds where `b` retains no key for that ratchet key and
/// message number (which only a peer reusing an earlier ratchet key could cause).
pub proof fn lemma_in_order_delivery(a: RatchetStateView, b: RatchetStateView, kind: FrameKind, frame: InnerFrameView, plaintext: Seq<u8>, fresh: Seq<u8>)
    requires
        sends_to(a, b),
        b.wf(),
        find_skipped(b.skipped, b.remote_dh, b.receiving_count) is None,
        a.sending_count < u32::MAX,
        frame.header == encrypt_header(a, kind),
        frame.ciphertext.suite == a.suite,
        open_spec(message_key(a.sending_chain), frame.ciphertext, frame.aad()) == Ok::<Seq<u8>, MefError>(plaintext),
    ensures
        decrypt_spec(b, frame, fresh).1 == Ok::<Seq<u8>, MefError>(plaintext),
        decrypt_spec(b, frame, fresh).0 == (RatchetStateView {
            receiving_chain: chain_after(b.receiving_chain, 1),
            receiving_count: (b.receiving_count + 1) as u32,
            generation: next_generation(b.generation),
            ..b
        }),
        sends_to(encrypted_state(a), decrypt_spec(b, frame, fresh).0),
        decrypt_spec(decrypt_spec(b, frame, fresh).0, frame, fresh)
            == (decrypt_spec(b, frame, fresh).0, Err::<Seq<u8>, MefError>(MefError::MessageKeyConsumed)),
{
    assert(chain_after(b.receiving_chain, 0) == b.receiving_chain);
    assert(range_keys(b.receiving_chain, b.receiving_count, 0) =~= Seq::<(u32, Seq<u8>)>::empty());
    assert(tag_keys(b.remote_dh, range_keys(b.receiving_chain, b.receiving_count, 0)) =~= Seq::<SkippedView>::empty());
    assert(b.skipped + Seq::<SkippedView>::empty() =~= b.skipped);
}

/// A full DH ratchet round trip: after `b` has processed `a`'s rotation as in
/// [`lemma_rotation_delivery`] (with its own fresh key pair), the first reply `b` encrypts
/// is decrypted by `a` to the same plaintext, provided `b` also sends to `a`, `a` is well
/// formed, `a`'s fresh agreement is symmetric, `b`'s fresh public key differs from the one `a`
/// records, neither side retains a key for the other's new ratchet key, and `a`'s next fresh
/// key pair does not give a non-contributory agreement. Afterwards `b` sends to `a` on the
/// reply chain.
pub proof fn lemma_ratchet_round_trip(
    a: RatchetStateView,
    b: RatchetStateView,
    fresh: Seq<u8>,
    dh: Seq<u8>,
    kind: FrameKind,
    frame: InnerFrameView,
    plaintext: Seq<u8>,
    responder_fresh: Seq<u8>,
    reply_kind: FrameKind,
    reply: InnerFrameView,
    reply_plaintext: Seq<u8>,
    initiator_fresh: Seq<u8>,
)
    requires
        sends_to(a, b),
        sends_to(b, a),
        a.root_key == b.root_key,
        a.wf(),
        b.wf(),
        agrees_symmetrically(b.dh_secret, x25519_public(b.dh_secret)),
        fresh.len() == DH_KEY_LEN,
        agrees_symmetrically(fresh, x25519_public(fresh)),
        x25519_agree(fresh, a.remote_dh) == Some(dh),
        x25519_public(fresh) != b.remote_dh,
        find_skipped(b.skipped, x25519_public(fresh), 0) is None,
        frame.header == encrypt_header(rotated_state(a, fresh, dh), kind),
        frame.ciphertext.suite == a.suite,
        open_spec(message_key(rotated_state(a, fresh, dh).sending_chain), frame.ciphertext, frame.aad()) == Ok::<Seq<u8>, MefError>(plaintext),
        responder_fresh.len() == DH_KEY_LEN,
        x25519_agree(responder_fresh, x25519_public(fresh)) is Some,
        x25519_public(responder_fresh) != a.remote_dh,
        find_skipped(a.skipped, x25519_public(responder_fresh), 0) is None,
        reply.header == encrypt_header(decrypt_spec(b, frame, responder_fresh).0, reply_kind),
        reply.ciphertext.suite == a.suite,
        open_spec(message_key(decrypt_spec(b, frame, responder_fresh).0.sending_chain), reply.ciphertext, reply.aad())
            == Ok::<Seq<u8>, MefError>(reply_plaintext),
        x25519_agree(initiator_fresh, x25519_public(responder_fresh)) is Some,
    ensures
        ({
            let sender = encrypted_state(rotated_state(a, fresh, dh));
            let (responder, result) = decrypt_spec(b, frame, responder_fresh);
            let (initiator, reply_result) = decrypt_spec(sender, reply, initiator_fresh);
            &&& result == Ok::<Seq<u8>, MefError>(plaintext)
            &&& reply_result == Ok::<Seq<u8>, MefError>(reply_plaintext)
            &&& initiator.skipped == a.skipped
            &&& sends_to(encrypted_state(responder), initiator)
        }),
{
    lemma_rotation_delivery(a, b, fresh, dh, kind, frame, plaintext, responder_fresh);
    let sender = encrypted_state(rotated_state(a, fresh, dh));
    let responder = decrypt_spec(b, frame, responder_fresh).0;
    let dh_receive = x25519_agree(b.dh_secret, x25519_public(fresh)).unwrap();
    assert(x25519_agree(fresh, x25519_public(b.dh_secret)) == x25519_agree(b.dh_secret, x25519_public(fresh)));
    assert(dh_receive == dh);
    let dh_send = x25519_agree(responder_fresh, x25519_public(fresh)).unwrap();
    assert(x25519_agree(fresh, x25519_public(responder_fresh)) == x25519_agree(responder_fresh, x25519_public(fresh)));
    assert(responder.root_key == root_next(root_next(b.root_key, dh), dh_send));
    assert(responder.sending_chain == root_chain(root_next(b.root_key, dh), dh_send));
    assert(sender.root_key == root_next(a.root_key, dh));
    let receiving = root_chain(sender.root_key, dh_send);
    assert(receiving == responder.sending_chain);
    assert(chain_after(receiving, 0) == receiving);
    assert(chain_after(responder.sending_chain, 1) == chain_after(receiving, 1));
    assert(range_keys(sender.receiving_chain, sender.receiving_count, 0) =~= Seq::<(u32, Seq<u8>)>::empty());
    assert(range_keys(receiving, 0, 0) =~= Seq::<(u32, Seq<u8>)>::empty());
    assert(tag_keys(sender.remote_dh, Seq::<(u32, Seq<u8>)>::empty()) =~= Seq::<SkippedView>::empty());
    assert(tag_keys(x25519_public(responder_fresh), Seq::<(u32, Seq<u8>)>::empty()) =~= Seq::<SkippedView>::empty());
    assert(a.skipped + Seq::<SkippedView>::empty() + Seq::<SkippedView>::empty() =~= a.skipped);
}

/// The state after `count` successful encryptions.
pub open spec fn encrypted_n(s: RatchetStateView, count: nat) -> RatchetStateView
    decreases count,
{
    if count == 0 {
        s
    } else {
        encrypted_state(encrypted_n(s, (count - 1) as nat))
    }
}

/// After `count` encryptions the sending chain has advanced `count` steps and the message
/// counter by `count`; everything a frame header carries besides the counter is unchanged.
proof fn lemma_encrypted_n(s: RatchetStateView, count: nat)
    requires
        s.sending_count + count <= u32::MAX,
    ensures
        encrypted_n(s, count).sending_chain == chain_after(s.sending_chain, count),
        encrypted_n(s, count).sending_count == s.sending_count + count,
        encrypted_n(s, count).session_id == s.session_id,
        encrypted_n(s, count).suite == s.suite,
        encrypted_n(s, count).dh_secret == s.dh_secret,
        encrypted_n(s, count).previous_sending_chain_len == s.previous_sending_chain_len,
    decreases count,
{
    if count > 0 {
        let previous = encrypted_n(s, (count - 1) as nat);
        lemma_encrypted_n(s, (count - 1) as nat);
        assert(chain_after(previous.sending_chain, 0) == previous.sending_chain);
        assert(chain_after(previous.sending_chain, 1) == chain_next(previous.sending_chain));
    }
}

/// Out-of-order delivery: when `a` sends to a well-formed `b`, a frame that `a` encrypts
/// `gap` messages ahead of what `b` expects is decrypted to its plaintext, and `b` retains the
/// keys of the `gap` messages in between (room permitting). Every earlier frame of that gap,
/// for which `b` held no retained key before (nor for the later frame), is then decrypted from
/// its retained key to its
/// plaintext, which consumes exactly that key; a second delivery of it is rejected as
/// consumed. Afterwards `a` still sends to `b`.
pub proof fn lemma_out_of_order_delivery(
    a: RatchetStateView,
    b: RatchetStateView,
    gap: nat,
    index: nat,
    late_kind: FrameKind,
    late: InnerFrameView,
    late_plaintext: Seq<u8>,
    early_kind: FrameKind,
    early: InnerFrameView,
    early_plaintext: Seq<u8>,
    fresh: Seq<u8>,
)
    requires
        sends_to(a, b),
        b.wf(),
        index < gap,
        b.skipped.len() + gap <= MAX_SKIPPED_KEYS,
        a.sending_count + gap < u32::MAX,
        find_skipped(b.skipped, b.remote_dh, (b.receiving_count + index) as u32) is None,
        find_skipped(b.skipped, b.remote_dh, (b.receiving_count + gap) as u32) is None,
        late.header == encrypt_header(encrypted_n(a, gap), late_kind),
        late.ciphertext.suite == a.suite,
        open_spec(message_key(encrypted_n(a, gap).sending_chain), late.ciphertext, late.aad()) == Ok::<Seq<u8>, MefError>(late_plaintext),
        early.header == encrypt_header(encrypted_n(a, index), early_kind),
        early.ciphertext.suite == a.suite,
        open_spec(message_key(encrypted_n(a, index).sending_chain), early.ciphertext, early.aad()) == Ok::<Seq<u8>, MefError>(early_plaintext),
    ensures
        ({
            let (after_late, late_result) = decrypt_spec(b, late, fresh);
            let (after_early, early_result) = decrypt_spec(after_late, early, fresh);
            &&& late_result == Ok::<Seq<u8>, MefError>(late_plaintext)
            &&& after_late.skipped == b.skipped + tag_keys(b.remote_dh, range_keys(b.receiving_chain, b.receiving_count, gap))
            &&& sends_to(encrypted_n(a, gap + 1), after_late)
            &&& early_result == Ok::<Seq<u8>, MefError>(early_plaintext)
            &&& after_early == (RatchetStateView {
                skipped: after_late.skipped.remove(b.skipped.len() + index as int),
                generation: next_generation(after_late.generation),
                ..after_late
            })
            &&& decrypt_spec(after_early, early, fresh) == (after_early, Err::<Seq<u8>, MefError>(MefError::MessageKeyConsumed))
        }),
{
    let chain = b.receiving_chain;
    let count = b.receiving_count;
    let remote = b.remote_dh;
    let number = (count + index) as u32;
    lemma_encrypted_n(a, gap);
    lemma_encrypted_n(a, index);
    lemma_encrypted_n(a, gap + 1);
    let keys = range_keys(chain, count, gap);
    let tagged = tag_keys(remote, keys);
    let after_late = decrypt_spec(b, late, fresh).0;
    assert(after_late.skipped == b.skipped + tagged);
    let all = b.skipped + tagged;
    let i = (b.skipped.len() + index) as int;
    assert(all[i] == (remote, number, message_key(chain_after(chain, index))));
    assert forall|k: int| 0 <= k < i implies !(all[k].0 == remote && all[k].1 == number) by {
        if k < b.skipped.len() {
            assert(all[k] == b.skipped[k]);
            if all[k].0 == remote && all[k].1 == number {
                lemma_some_first_match(b.skipped, remote, number, k);
            }
        } else {
            assert(all[k] == tagged[k - b.skipped.len()]);
        }
    }
    assert(is_first_match(all, remote, number, i));
    lemma_first_match_unique(all, remote, number, i);
    let after_early = decrypt_spec(after_late, early, fresh).0;
    let rest = all.remove(i);
    assert forall|k: int| 0 <= k < rest.len() implies !(rest[k].0 == remote && rest[k].1 == number) by {
        if k < i {
            assert(rest[k] == all[k]);
        } else {
            assert(rest[k] == all[k + 1]);
            if k + 1 >= b.skipped.len() {
                assert(all[k + 1] == tagged[k + 1 - b.skipped.len()]);
            } else {
                assert(all[k + 1] == b.skipped[k + 1]);
                if all[k + 1].0 == remote && all[k + 1].1 == number {
                    lemma_some_first_match(b.skipped, remote, number, k + 1);
                }
            }
        }
    }
    assert(!exists|k: int| is_first_match(rest, remote, number, k));
}

/// Some retained key matching a ratchet key and message number implies a first one.
proof fn lemma_some_first_match(skipped: Seq<SkippedView>, remote: Seq<u8>, number: u32, j: int)
    requires
        0 <= j < skipped.len(),
        skipped[j].0 == remote && skipped[j].1 == number,
    ensures
        exists|k: int| is_first_match(skipped, remote, number, k),
    decreases j,
{
    if forall|l: int| 0 <= l < j ==> !(skipped[l].0 == remote && skipped[l].1 == number) {
        assert(is_first_match(skipped, remote, number, j));
    } else {
        let l = choose|l: int| 0 <= l < j && skipped[l].0 == remote && skipped[l].1 == number;
        lemma_some_first_match(skipped, remote, number, l);
    }
}

/// A proactive rotation is processed by the peer: when `a` sends to `b`, `b` records `a`'s
/// current ratchet key as theirs, both hold the same root key and `b`'s ratchet agreement is
/// symmetric, then after `a` rotates to a fresh key pair (whose public key differs from the
/// one `b` records, and for which `b` retains no key) the first frame `a` encrypts is
/// decrypted by `b` to the same plaintext,
/// unless `b`'s own fresh key pair happens to give a non-contributory agreement. Afterwards
/// `a` sends to `b` on the new chain and `b` keeps its retained keys.
pub proof fn lemma_rotation_delivery(
    a: RatchetStateView,
    b: RatchetStateView,
    fresh: Seq<u8>,
    dh: Seq<u8>,
    kind: FrameKind,
    frame: InnerFrameView,
    plaintext: Seq<u8>,
    responder_fresh: Seq<u8>,
)
    requires
        sends_to(a, b),
        a.remote_dh == x25519_public(b.dh_secret),
        a.root_key == b.root_key,
        b.wf(),
        agrees_symmetrically(b.dh_secret, x25519_public(b.dh_secret)),
        fresh.len() == DH_KEY_LEN,
        x25519_agree(fresh, a.remote_dh) == Some(dh),
        x25519_public(fresh) != b.remote_dh,
        find_skipped(b.skipped, x25519_public(fresh), 0) is None,
        frame.header == encrypt_header(rotated_state(a, fresh, dh), kind),
        frame.ciphertext.suite == a.suite,
        open_spec(message_key(rotated_state(a, fresh, dh).sending_chain), frame.ciphertext, frame.aad()) == Ok::<Seq<u8>, MefError>(plaintext),
        x25519_agree(responder_fresh, x25519_public(fresh)) is Some,
    ensures
        decrypt_spec(b, frame, responder_fresh).1 == Ok::<Seq<u8>, MefError>(plaintext),
        decrypt_spec(b, frame, responder_fresh).0.skipped == b.skipped,
        sends_to(encrypted_state(rotated_state(a, fresh, dh)), decrypt_spec(b, frame, responder_fresh).0),
{
    let rotated = rotated_state(a, fresh, dh);
    assert(x25519_agree(fresh, x25519_public(b.dh_secret)) == x25519_agree(b.dh_secret, x25519_public(fresh)));
    let receiving = root_chain(b.root_key, dh);
    assert(receiving == rotated.sending_chain);
    assert(chain_after(receiving, 0) == receiving);
    assert(chain_after(rotated.sending_chain, 1) == chain_after(receiving, 1));
    assert(range_keys(b.receiving_chain, b.receiving_count, 0) =~= Seq::<(u32, Seq<u8>)>::empty());
    assert(range_keys(receiving, 0, 0) =~= Seq::<(u32, Seq<u8>)>::empty());
    assert(tag_keys(b.remote_dh, Seq::<(u32, Seq<u8>)>::empty()) =~= Seq::<SkippedView>::empty());
    assert(tag_keys(x25519_public(fresh), Seq::<(u32, Seq<u8>)>::empty()) =~= Seq::<SkippedView>::empty());
    assert(b.skipped + Seq::<SkippedView>::empty() + Seq::<SkippedView>::empty() =~= b.skipped);
}

/// Out-of-order delivery across a DH step: when `a` sends to `b` as in
/// [`lemma_rotation_delivery`], encrypts one frame, then rotates and encrypts another, `b`
/// decrypts the later frame first, retaining the key of the earlier one under `a`'s previous
/// ratchet key (room permitting), and then decrypts the earlier frame from that retained key,
/// which consumes it. Afterwards `b` retains what it retained before and `a` sends to `b` on
/// the new chain. This holds where `b` retains no key for either frame before.
pub proof fn lemma_late_delivery_across_rotation(
    a: RatchetStateView,
    b: RatchetStateView,
    early_kind: FrameKind,
    early: InnerFrameView,
    early_plaintext: Seq<u8>,
    fresh: Seq<u8>,
    dh: Seq<u8>,
    kind: FrameKind,
    frame: InnerFrameView,
    plaintext: Seq<u8>,
    responder_fresh: Seq<u8>,
)
    requires
        sends_to(a, b),
        a.remote_dh == x25519_public(b.dh_secret),
        a.root_key == b.root_key,
        b.wf(),
        b.skipped.len() < MAX_SKIPPED_KEYS,
        a.sending_count < u32::MAX,
        agrees_symmetrically(b.dh_secret, x25519_public(b.dh_secret)),
        find_skipped(b.skipped, b.remote_dh, b.receiving_count) is None,
        early.header == encrypt_header(a, early_kind),
        early.ciphertext.suite == a.suite,
        open_spec(message_key(a.sending_chain), early.ciphertext, early.aad()) == Ok::<Seq<u8>, MefError>(early_plaintext),
        fresh.len() == DH_KEY_LEN,
        x25519_agree(fresh, a.remote_dh) == Some(dh),
        x25519_public(fresh) != b.remote_dh,
        find_skipped(b.skipped, x25519_public(fresh), 0) is None,
        frame.header == encrypt_header(rotated_state(encrypted_state(a), fresh, dh), kind),
        frame.ciphertext.suite == a.suite,
        open_spec(message_key(rotated_state(encrypted_state(a), fresh, dh).sending_chain), frame.ciphertext, frame.aad())
            == Ok::<Seq<u8>, MefError>(plaintext),
        x25519_agree(responder_fresh, x25519_public(fresh)) is Some,
    ensures
        ({
            let (after, result) = decrypt_spec(b, frame, responder_fresh);
            let (after_early, early_result) = decrypt_spec(after, early, responder_fresh);
            &&& result == Ok::<Seq<u8>, MefError>(plaintext)
            &&& after.skipped == b.skipped.push((b.remote_dh, b.receiving_count, message_key(b.receiving_chain)))
            &&& early_result == Ok::<Seq<u8>, MefError>(early_plaintext)
            &&& after_early.skipped == b.skipped
            &&& sends_to(encrypted_state(rotated_state(encrypted_state(a), fresh, dh)), after_early)
        }),
{
    let sent = encrypted_state(a);
    let rotated = rotated_state(sent, fresh, dh);
    assert(x25519_agree(fresh, x25519_public(b.dh_secret)) == x25519_agree(b.dh_secret, x25519_public(fresh)));
    let receiving = root_chain(b.root_key, dh);
    assert(receiving == rotated.sending_chain);
    assert(chain_after(receiving, 0) == receiving);
    assert(chain_after(rotated.sending_chain, 1) == chain_after(receiving, 1));
    assert(chain_after(b.receiving_chain, 0) == b.receiving_chain);
    let old_keys = range_keys(b.receiving_chain, b.receiving_count, 1);
    assert(old_keys =~= seq![(b.receiving_count, message_key(b.receiving_chain))]);
    assert(range_keys(receiving, 0, 0) =~= Seq::<(u32, Seq<u8>)>::empty());
    assert(tag_keys(x25519_public(fresh), Seq::<(u32, Seq<u8>)>::empty()) =~= Seq::<SkippedView>::empty());
    let entry = (b.remote_dh, b.receiving_count, message_key(b.receiving_chain));
    assert(tag_keys(b.remote_dh, old_keys) =~= seq![entry]);
    let all = b.skipped.push(entry);
    assert(b.skipped + tag_keys(b.remote_dh, old_keys) + Seq::<SkippedView>::empty() =~= all);
    let after = decrypt_spec(b, frame, responder_fresh).0;
    assert(after.skipped == all);
    let i = b.skipped.len() as int;
    assert forall|k: int| 0 <= k < i implies !(all[k].0 == b.remote_dh && all[k].1 == b.receiving_count) by {
        assert(all[k] == b.skipped[k]);
        if all[k].0 == b.remote_dh && all[k].1 == b.receiving_count {
            lemma_some_first_match(b.skipped, b.remote_dh, b.receiving_count, k);
        }
    }
    assert(is_first_match(all, b.remote_dh, b.receiving_count, i));
    lemma_first_match_unique(all, b.remote_dh, b.receiving_count, i);
    assert(all.remove(i) =~= b.skipped);
}

/// Out-of-order delivery on a new peer chain: when `a` sends to `b` as in
/// [`lemma_rotation_delivery`], rotates and then encrypts frames on the new chain, and `b`
/// first receives the frame `gap` messages into that chain, `b` retains the keys of the
/// earlier messages of the new chain under `a`'s new ratchet key, so an earlier frame of the
/// new chain (number `index`) is then decrypted from its retained key to its plaintext, which
/// consumes that key. This holds where `b` retains no key for either frame before and has room
/// for the skipped keys.
pub proof fn lemma_late_delivery_on_new_chain(
    a: RatchetStateView,
    b: RatchetStateView,
    fresh: Seq<u8>,
    dh: Seq<u8>,
    gap: nat,
    index: nat,
    late_kind: FrameKind,
    late: InnerFrameView,
    late_plaintext: Seq<u8>,
    early_kind: FrameKind,
    early: InnerFrameView,
    early_plaintext: Seq<u8>,
    responder_fresh: Seq<u8>,
)
    requires
        sends_to(a, b),
        a.remote_dh == x25519_public(b.dh_secret),
        a.root_key == b.root_key,
        b.wf(),
        agrees_symmetrically(b.dh_secret, x25519_public(b.dh_secret)),
        fresh.len() == DH_KEY_LEN,
        x25519_agree(fresh, a.remote_dh) == Some(dh),
        x25519_public(fresh) != b.remote_dh,
        index < gap,
        gap < u32::MAX,
        b.skipped.len() + gap <= MAX_SKIPPED_KEYS,
        find_skipped(b.skipped, x25519_public(fresh), gap as u32) is None,
        find_skipped(b.skipped, x25519_public(fresh), index as u32) is None,
        late.header == encrypt_header(encrypted_n(rotated_state(a, fresh, dh), gap), late_kind),
        late.ciphertext.suite == a.suite,
        open_spec(message_key(encrypted_n(rotated_state(a, fresh, dh), gap).sending_chain), late.ciphertext, late.aad())
            == Ok::<Seq<u8>, MefError>(late_plaintext),
        early.header == encrypt_header(encrypted_n(rotated_state(a, fresh, dh), index), early_kind),
        early.ciphertext.suite == a.suite,
        open_spec(message_key(encrypted_n(rotated_state(a, fresh, dh), index).sending_chain), early.ciphertext, early.aad())
            == Ok::<Seq<u8>, MefError>(early_plaintext),
        x25519_agree(responder_fresh, x25519_public(fresh)) is Some,
    ensures
        ({
            let (after_late, late_result) = decrypt_spec(b, late, responder_fresh);
            let (after_early, early_result) = decrypt_spec(after_late, early, responder_fresh);
            &&& late_result == Ok::<Seq<u8>, MefError>(late_plaintext)
            &&& after_late.remote_dh == x25519_public(fresh)
            &&& after_late.skipped.len() == b.skipped.len() + gap
            &&& (forall|k: int| 0 <= k < gap ==> (#[trigger] after_late.skipped[b.skipped.len() + k]).0 == x25519_public(fresh)
                && after_late.skipped[b.skipped.len() + k].1 == k)
            &&& early_result == Ok::<Seq<u8>, MefError>(early_plaintext)
            &&& after_early.skipped == after_late.skipped.remove(b.skipped.len() + index as int)
        }),
{
    let rotated = rotated_state(a, fresh, dh);
    let remote = x25519_public(fresh);
    lemma_encrypted_n(rotated, gap);
    lemma_encrypted_n(rotated, index);
    assert(x25519_agree(fresh, x25519_public(b.dh_secret)) == x25519_agree(b.dh_secret, x25519_public(fresh)));
    let receiving = root_chain(b.root_key, dh);
    assert(receiving == rotated.sending_chain);
    assert(range_keys(b.receiving_chain, b.receiving_count, 0) =~= Seq::<(u32, Seq<u8>)>::empty());
    assert(tag_keys(b.remote_dh, Seq::<(u32, Seq<u8>)>::empty()) =~= Seq::<SkippedView>::empty());
    let keys = range_keys(receiving, 0, gap);
    let tagged = tag_keys(remote, keys);
    let all = b.skipped + tagged;
    assert(b.skipped + Seq::<SkippedView>::empty() + tagged =~= all);
    let after_late = decrypt_spec(b, late, responder_fresh).0;
    assert(after_late.skipped == all);
    let number = index as u32;
    let i = (b.skipped.len() + index) as int;
    assert(all[i] == (remote, number, message_key(chain_after(receiving, index))));
    assert forall|k: int| 0 <= k < i implies !(all[k].0 == remote && all[k].1 == number) by {
        if k < b.skipped.len() {
            assert(all[k] == b.skipped[k]);
            if all[k].0 == remote && all[k].1 == number {
                lemma_some_first_match(b.skipped, remote, number, k);
            }
        } else {
            assert(all[k] == tagged[k - b.skipped.len()]);
        }
    }
    assert(is_first_match(all, remote, number, i));
    lemma_first_match_unique(all, remote, number, i);
    assert forall|k: int| 0 <= k < gap implies (#[trigger] all[b.skipped.len() + k]).0 == remote
        && all[b.skipped.len() + k].1 == k by {
        assert(all[b.skipped.len() + k] == tagged[k]);
    }
}

} // verus!
