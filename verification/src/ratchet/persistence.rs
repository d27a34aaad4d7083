//! Versioned encrypted persistence for ratchet state.
//!
//! The host supplies a 256-bit key from a platform secure store and a stable
//! per-account/per-device context. The record carries a monotonic generation that the host
//! compares against durable trusted metadata to detect rollback.
use vstd::prelude::*;

use super::state::{
    lemma_view_is_model, skipped_view, RatchetState, RatchetStateView, SkippedMessageKey,
    SkippedView,
};
use crate::bytes::{
    copy_array, copy_range, extend_bytes, push_u16_be, push_u32_be, push_u64_be, read_u16_be,
    read_u32_be, read_u64_be, u16_be, u16_of_be, u32_be, u32_of_be, u64_be, u64_of_be,
};
use crate::crypto::{
    aead_seal, lemma_aead_key_len, lemma_secret_len, open, open_spec, seal, wipe_vec, AeadKey,
    AeadSuite, Ciphertext, CiphertextView, Secret, AEAD_TAG_LEN,
};
use crate::keys::{lemma_dh_pair_len, lemma_dh_public_len, DhKeyPair, DhPublicKey, DhSecretKey};
use crate::{MefError, Result, MAX_AAD_LEN, MAX_CIPHERTEXT_LEN, MAX_SKIPPED_KEYS};

verus! {

broadcast use {lemma_view_is_model, lemma_aead_key_len, lemma_secret_len, lemma_dh_pair_len, lemma_dh_public_len};

/// Length of the snapshot header: magic, version, generation, nonce length and body length.
pub const STATE_HEADER_LEN: usize = 17;

/// Length of one encoded skipped message key: ratchet key, message number and key.
pub const SKIPPED_ENTRY_LEN: usize = 68;

/// Fixed plaintext length of a current-version snapshot, before the skipped keys.
pub const STATE_FIXED_LEN: usize = 207;

/// Fixed plaintext length of a first-version snapshot, which records no suite.
pub const LEGACY_STATE_FIXED_LEN: usize = 206;

/// The snapshot version written by [`RatchetState::seal_state`].
pub const STATE_VERSION: u8 = 2;

/// The snapshot magic "MRS".
pub open spec fn state_magic() -> Seq<u8> {
    seq![0x4du8, 0x52u8, 0x53u8]
}

/// The associated-data label "MEF-26/ratchet-state-v1" followed by a zero byte.
pub open spec fn state_label() -> Seq<u8> {
    seq![
        0x4du8, 0x45u8, 0x46u8, 0x2du8, 0x32u8, 0x36u8, 0x2fu8, 0x72u8, 0x61u8, 0x74u8, 0x63u8,
        0x68u8, 0x65u8, 0x74u8, 0x2du8, 0x73u8, 0x74u8, 0x61u8, 0x74u8, 0x65u8, 0x2du8, 0x76u8,
        0x31u8, 0x00u8,
    ]
}

/// The record header: magic, version, generation, nonce length and body length.
pub open spec fn state_header(version: u8, generation: u64, body_len: nat) -> Seq<u8> {
    state_magic() + seq![version] + u64_be(generation) + seq![24u8] + u32_be(body_len as u32)
}

/// The associated data binding a snapshot to its storage context.
pub open spec fn state_aad_spec(context: Seq<u8>) -> Seq<u8> {
    state_label() + context
}

/// The context is too long for the associated-data limit.
pub open spec fn context_oversized(context: Seq<u8>) -> bool {
    state_label().len() + context.len() > MAX_AAD_LEN
}

/// What a current-version record encrypts: a copy of its header, which authenticates the
/// header, followed by the state encoding. First-version records encrypt the state encoding
/// alone, so their header (and with it their generation) is not authenticated.
pub open spec fn sealed_plaintext(header: Seq<u8>, s: RatchetStateView) -> Seq<u8> {
    header + state_plaintext(s)
}

/// The encoding of one retained message key.
pub open spec fn skipped_entry_bytes(entry: SkippedView) -> Seq<u8> {
    entry.0 + u32_be(entry.1) + entry.2
}

/// The encodings of the retained message keys, oldest first.
pub open spec fn skipped_bytes(entries: Seq<SkippedView>) -> Seq<u8>
    decreases entries.len(),
{
    if entries.len() == 0 {
        Seq::empty()
    } else {
        skipped_bytes(entries.drop_last()) + skipped_entry_bytes(entries.last())
    }
}

/// No two retained keys belong to the same ratchet key and message number.
pub open spec fn skipped_distinct(entries: Seq<SkippedView>) -> bool {
    forall|i: int, j: int| 0 <= i < j < entries.len() ==> !(#[trigger] entries[i].0 == #[trigger] entries[j].0 && entries[i].1 == entries[j].1)
}

/// The plaintext of a current-version snapshot of `s`.
pub open spec fn state_plaintext(s: RatchetStateView) -> Seq<u8> {
    s.session_id + s.root_key + s.sending_chain + s.receiving_chain + s.dh_secret + s.remote_dh
        + u32_be(s.previous_sending_chain_len) + u32_be(s.sending_count) + u32_be(s.receiving_count)
        + u16_be(s.skipped.len() as u16) + seq![s.suite.spec_id()] + skipped_bytes(s.skipped)
}

/// The plaintext of a first-version snapshot of `s`: the current encoding without the suite
/// byte.
pub open spec fn legacy_state_plaintext(s: RatchetStateView) -> Seq<u8> {
    s.session_id + s.root_key + s.sending_chain + s.receiving_chain + s.dh_secret + s.remote_dh
        + u32_be(s.previous_sending_chain_len) + u32_be(s.sending_count) + u32_be(s.receiving_count)
        + u16_be(s.skipped.len() as u16) + skipped_bytes(s.skipped)
}

/// A first-version snapshot record: header, nonce and sealed body.
pub open spec fn legacy_state_blob(generation: u64, nonce: Seq<u8>, body: Seq<u8>) -> Seq<u8> {
    state_header(1u8, generation, body.len()) + nonce + body
}

/// A current-version snapshot record: header, nonce and sealed body.
pub open spec fn state_blob(generation: u64, nonce: Seq<u8>, body: Seq<u8>) -> Seq<u8> {
    state_header(STATE_VERSION, generation, body.len()) + nonce + body
}

/// The retained keys encoded from offset `start` of `p`.
pub open spec fn decode_entries(p: Seq<u8>, start: int, count: nat) -> Seq<SkippedView> {
    Seq::new(count, |i: int| {
        let o = start + 68 * i;
        (p.subrange(o, o + 32), u32_of_be(p.subrange(o + 32, o + 36)), p.subrange(o + 36, o + 68))
    })
}

/// What decoding a snapshot plaintext of the given version gives, with the generation read from
/// the record header.
pub open spec fn decode_state_spec(p: Seq<u8>, generation: u64, version: u8) -> core::result::Result<RatchetStateView, MefError> {
    let fixed: nat = if version == 1 { LEGACY_STATE_FIXED_LEN as nat } else { STATE_FIXED_LEN as nat };
    if p.len() < fixed {
        Err(MefError::InvalidFrame)
    } else {
        let count = u16_of_be(p.subrange(204, 206)) as nat;
        if count > MAX_SKIPPED_KEYS {
            Err(MefError::InvalidState)
        } else if p.len() != fixed + 68 * count {
            Err(MefError::InvalidFrame)
        } else {
            let suite = if version == 1 { Some(AeadSuite::XChaCha20Poly1305) } else { AeadSuite::spec_from_id(p[206]) };
            match suite {
                None => Err(MefError::UnsupportedSuite),
                Some(suite) => {
                    let entries = decode_entries(p, fixed as int, count);
                    if !skipped_distinct(entries) {
                        Err(MefError::InvalidState)
                    } else {
                        Ok(RatchetStateView {
                            session_id: p.subrange(0, 32),
                            root_key: p.subrange(32, 64),
                            sending_chain: p.subrange(64, 96),
                            receiving_chain: p.subrange(96, 128),
                            dh_secret: p.subrange(128, 160),
                            remote_dh: p.subrange(160, 192),
                            previous_sending_chain_len: u32_of_be(p.subrange(192, 196)),
                            sending_count: u32_of_be(p.subrange(196, 200)),
                            receiving_count: u32_of_be(p.subrange(200, 204)),
                            generation,
                            suite,
                            skipped: entries,
                        })
                    }
                },
            }
        }
    }
}

/// What [`RatchetState::restore_state`] returns.
pub open spec fn restore_spec(key: Seq<u8>, context: Seq<u8>, minimum_generation: u64, blob: Seq<u8>) -> core::result::Result<RatchetStateView, MefError> {
    if blob.len() < STATE_HEADER_LEN + 24 + AEAD_TAG_LEN || !(blob.subrange(0, 3) == state_magic()) || !(blob[3] == 1u8 || blob[3] == 2u8) {
        Err(MefError::InvalidFrame)
    } else {
        let generation = u64_of_be(blob.subrange(4, 12));
        let nonce_len = blob[12] as nat;
        let body_len = u32_of_be(blob.subrange(13, 17)) as nat;
        if generation < minimum_generation {
            Err(MefError::StateRollbackDetected)
        } else if nonce_len != 24 || STATE_HEADER_LEN + nonce_len + body_len != blob.len() {
            Err(MefError::InvalidFrame)
        } else if body_len > MAX_CIPHERTEXT_LEN || context_oversized(context) {
            Err(MefError::InvalidLength)
        } else {
            let ciphertext = CiphertextView {
                suite: AeadSuite::XChaCha20Poly1305,
                nonce: blob.subrange(17, 41),
                body: blob.subrange(41, blob.len() as int),
            };
            match open_spec(key, ciphertext, state_aad_spec(context)) {
                Err(e) => Err(e),
                Ok(p) => if blob[3] == 1u8 {
                    decode_state_spec(p, generation, 1u8)
                } else if p.len() < STATE_HEADER_LEN || !(p.subrange(0, 17) == blob.subrange(0, 17)) {
                    Err(MefError::AuthenticationFailed)
                } else {
                    decode_state_spec(p.subrange(17, p.len() as int), generation, 2u8)
                },
            }
        }
    }
}

/// The encodings of well-sized retained keys lie back to back, 68 bytes each.
proof fn lemma_skipped_bytes_layout(entries: Seq<SkippedView>)
    requires
        forall|i: int| 0 <= i < entries.len() ==> #[trigger] entries[i].0.len() == 32 && entries[i].2.len() == 32,
    ensures
        skipped_bytes(entries).len() == 68 * entries.len(),
        forall|i: int| 0 <= i < entries.len() ==> skipped_bytes(entries).subrange(68 * i, 68 * i + 68) == #[trigger] skipped_entry_bytes(entries[i]),
    decreases entries.len(),
{
    if entries.len() > 0 {
        let init = entries.drop_last();
        assert forall|i: int| 0 <= i < init.len() implies #[trigger] init[i].0.len() == 32 && init[i].2.len() == 32 by {
            assert(init[i] == entries[i]);
        }
        lemma_skipped_bytes_layout(init);
        let a = skipped_bytes(init);
        let b = skipped_entry_bytes(entries.last());
        assert(skipped_bytes(entries) == a + b);
        assert(b.len() == 68);
        assert forall|i: int| 0 <= i < entries.len() implies skipped_bytes(entries).subrange(68 * i, 68 * i + 68) == #[trigger] skipped_entry_bytes(entries[i]) by {
            if i < init.len() {
                assert(init[i] == entries[i]);
                assert(a.subrange(68 * i, 68 * i + 68) == skipped_entry_bytes(init[i]));
                assert((a + b).subrange(68 * i, 68 * i + 68) =~= a.subrange(68 * i, 68 * i + 68));
            } else {
                assert((a + b).subrange(68 * i, 68 * i + 68) =~= b);
            }
        }
    }
}

/// The plaintext of a well-formed state has a fixed part and 68 bytes per retained key.
proof fn lemma_state_plaintext_len(s: RatchetStateView)
    requires
        s.wf(),
    ensures
        state_plaintext(s).len() == STATE_FIXED_LEN + SKIPPED_ENTRY_LEN * s.skipped.len(),
{
    lemma_skipped_bytes_layout(s.skipped);
}

/// Decoding the plaintext of a well-formed state whose retained keys are distinct gives back
/// the state, with the generation taken from the record header.
pub proof fn lemma_state_plaintext_round_trip(s: RatchetStateView)
    requires
        s.wf(),
        skipped_distinct(s.skipped),
    ensures
        state_plaintext(s).len() == STATE_FIXED_LEN + SKIPPED_ENTRY_LEN * s.skipped.len(),
        decode_state_spec(state_plaintext(s), s.generation, STATE_VERSION) == Ok::<RatchetStateView, MefError>(s),
{
    let p = state_plaintext(s);
    let n = s.skipped.len();
    lemma_skipped_bytes_layout(s.skipped);
    crate::bytes::lemma_u32_be_roundtrip(s.previous_sending_chain_len);
    crate::bytes::lemma_u32_be_roundtrip(s.sending_count);
    crate::bytes::lemma_u32_be_roundtrip(s.receiving_count);
    crate::bytes::lemma_u16_be_roundtrip(n as u16);
    crate::crypto::lemma_suite_id_round_trip(s.suite);
    let tail = skipped_bytes(s.skipped);
    assert(p.len() == 207 + 68 * n);
    assert(p.subrange(0, 32) =~= s.session_id);
    assert(p.subrange(32, 64) =~= s.root_key);
    assert(p.subrange(64, 96) =~= s.sending_chain);
    assert(p.subrange(96, 128) =~= s.receiving_chain);
    assert(p.subrange(128, 160) =~= s.dh_secret);
    assert(p.subrange(160, 192) =~= s.remote_dh);
    assert(p.subrange(192, 196) =~= u32_be(s.previous_sending_chain_len));
    assert(p.subrange(196, 200) =~= u32_be(s.sending_count));
    assert(p.subrange(200, 204) =~= u32_be(s.receiving_count));
    assert(p.subrange(204, 206) =~= u16_be(n as u16));
    assert(p[206] == s.suite.spec_id());
    assert(p.subrange(207, p.len() as int) =~= tail);
    let entries = decode_entries(p, 207, n);
    assert forall|i: int| 0 <= i < n implies #[trigger] entries[i] == s.skipped[i] by {
        let e = s.skipped[i];
        let o = 207 + 68 * i;
        assert(tail.subrange(68 * i, 68 * i + 68) == skipped_entry_bytes(e));
        let eb = skipped_entry_bytes(e);
        assert(e.0.len() == 32 && e.2.len() == 32);
        crate::bytes::lemma_u32_be_roundtrip(e.1);
        assert(p.subrange(o, o + 68) =~= eb);
        assert(eb.subrange(0, 32) =~= e.0);
        assert(eb.subrange(32, 36) =~= u32_be(e.1));
        assert(eb.subrange(36, 68) =~= e.2);
        assert(p.subrange(o, o + 32) =~= eb.subrange(0, 32));
        assert(p.subrange(o + 32, o + 36) =~= eb.subrange(32, 36));
        assert(p.subrange(o + 36, o + 68) =~= eb.subrange(36, 68));
    }
    assert(entries =~= s.skipped);
}

/// Decoding the first-version plaintext of a well-formed state whose retained keys are distinct
/// gives back the state with the XChaCha20-Poly1305 suite, each field read from its place.
pub proof fn lemma_legacy_state_plaintext_round_trip(s: RatchetStateView)
    requires
        s.wf(),
        skipped_distinct(s.skipped),
    ensures
        legacy_state_plaintext(s).len() == LEGACY_STATE_FIXED_LEN + SKIPPED_ENTRY_LEN * s.skipped.len(),
        decode_state_spec(legacy_state_plaintext(s), s.generation, 1u8)
            == Ok::<RatchetStateView, MefError>(RatchetStateView { suite: AeadSuite::XChaCha20Poly1305, ..s }),
{
    let p = legacy_state_plaintext(s);
    let n = s.skipped.len();
    lemma_skipped_bytes_layout(s.skipped);
    crate::bytes::lemma_u32_be_roundtrip(s.previous_sending_chain_len);
    crate::bytes::lemma_u32_be_roundtrip(s.sending_count);
    crate::bytes::lemma_u32_be_roundtrip(s.receiving_count);
    crate::bytes::lemma_u16_be_roundtrip(n as u16);
    let tail = skipped_bytes(s.skipped);
    assert(p.len() == 206 + 68 * n);
    assert(p.subrange(0, 32) =~= s.session_id);
    assert(p.subrange(32, 64) =~= s.root_key);
    assert(p.subrange(64, 96) =~= s.sending_chain);
    assert(p.subrange(96, 128) =~= s.receiving_chain);
    assert(p.subrange(128, 160) =~= s.dh_secret);
    assert(p.subrange(160, 192) =~= s.remote_dh);
    assert(p.subrange(192, 196) =~= u32_be(s.previous_sending_chain_len));
    assert(p.subrange(196, 200) =~= u32_be(s.sending_count));
    assert(p.subrange(200, 204) =~= u32_be(s.receiving_count));
    assert(p.subrange(204, 206) =~= u16_be(n as u16));
    assert(p.subrange(206, p.len() as int) =~= tail);
    let entries = decode_entries(p, 206, n);
    assert forall|i: int| 0 <= i < n implies #[trigger] entries[i] == s.skipped[i] by {
        let e = s.skipped[i];
        let o = 206 + 68 * i;
        assert(tail.subrange(68 * i, 68 * i + 68) == skipped_entry_bytes(e));
        let eb = skipped_entry_bytes(e);
        assert(e.0.len() == 32 && e.2.len() == 32);
        crate::bytes::lemma_u32_be_roundtrip(e.1);
        assert(p.subrange(o, o + 68) =~= eb);
        assert(eb.subrange(0, 32) =~= e.0);
        assert(eb.subrange(32, 36) =~= u32_be(e.1));
        assert(eb.subrange(36, 68) =~= e.2);
        assert(p.subrange(o, o + 32) =~= eb.subrange(0, 32));
        assert(p.subrange(o + 32, o + 36) =~= eb.subrange(32, 36));
        assert(p.subrange(o + 36, o + 68) =~= eb.subrange(36, 68));
    }
    assert(entries =~= s.skipped);
}

/// A first-version record holding the sealed first-version plaintext of a well-formed state
/// with distinct retained keys restores, for every floor up to its generation, to that state
/// with the XChaCha20-Poly1305 suite.
pub proof fn lemma_legacy_blob_restores(key: Seq<u8>, context: Seq<u8>, s: RatchetStateView, nonce: Seq<u8>, body: Seq<u8>)
    requires
        s.wf(),
        skipped_distinct(s.skipped),
        !context_oversized(context),
        nonce.len() == 24,
        AEAD_TAG_LEN <= body.len() <= MAX_CIPHERTEXT_LEN,
        crate::crypto::aead_open(AeadSuite::XChaCha20Poly1305, key, nonce, state_aad_spec(context), body)
            == Some(legacy_state_plaintext(s)),
    ensures
        forall|minimum_generation: u64| minimum_generation <= s.generation
            ==> #[trigger] restore_spec(key, context, minimum_generation, legacy_state_blob(s.generation, nonce, body))
                == Ok::<RatchetStateView, MefError>(RatchetStateView { suite: AeadSuite::XChaCha20Poly1305, ..s }),
{
    let blob = legacy_state_blob(s.generation, nonce, body);
    lemma_legacy_state_plaintext_round_trip(s);
    crate::bytes::lemma_u64_be_roundtrip(s.generation);
    crate::bytes::lemma_u32_be_roundtrip(body.len() as u32);
    assert(blob.subrange(0, 3) =~= state_magic());
    assert(blob[3] == 1u8);
    assert(blob.subrange(4, 12) =~= u64_be(s.generation));
    assert(blob.subrange(13, 17) =~= u32_be(body.len() as u32));
    assert(blob.subrange(17, 41) =~= nonce);
    assert(blob.subrange(41, blob.len() as int) =~= body);
    let c = CiphertextView { suite: AeadSuite::XChaCha20Poly1305, nonce, body };
    assert(open_spec(key, c, state_aad_spec(context)) == Ok::<Seq<u8>, MefError>(legacy_state_plaintext(s)));
    assert((CiphertextView { suite: AeadSuite::XChaCha20Poly1305, nonce: blob.subrange(17, 41), body: blob.subrange(41, blob.len() as int) }) == c);
}

/// A record holding the sealed plaintext of a well-formed state with distinct retained keys
/// restores to that state for every floor up to its generation.
proof fn lemma_state_blob_restores(key: Seq<u8>, context: Seq<u8>, s: RatchetStateView, c: CiphertextView)
    requires
        s.wf(),
        skipped_distinct(s.skipped),
        !context_oversized(context),
        c.suite == AeadSuite::XChaCha20Poly1305,
        c.nonce.len() == 24,
        AEAD_TAG_LEN <= c.body.len() <= MAX_CIPHERTEXT_LEN,
        crate::crypto::aead_open(AeadSuite::XChaCha20Poly1305, key, c.nonce, state_aad_spec(context), c.body)
            == Some(sealed_plaintext(state_header(STATE_VERSION, s.generation, c.body.len()), s)),
    ensures
        forall|minimum_generation: u64| minimum_generation <= s.generation
            ==> #[trigger] restore_spec(key, context, minimum_generation, state_blob(s.generation, c.nonce, c.body)) == Ok::<RatchetStateView, MefError>(s),
{
    let blob = state_blob(s.generation, c.nonce, c.body);
    lemma_state_plaintext_round_trip(s);
    crate::bytes::lemma_u64_be_roundtrip(s.generation);
    crate::bytes::lemma_u32_be_roundtrip(c.body.len() as u32);
    assert(blob.subrange(0, 3) =~= state_magic());
    assert(blob.subrange(4, 12) =~= u64_be(s.generation));
    assert(blob.subrange(13, 17) =~= u32_be(c.body.len() as u32));
    assert(blob.subrange(17, 41) =~= c.nonce);
    assert(blob.subrange(41, blob.len() as int) =~= c.body);
    let header = state_header(STATE_VERSION, s.generation, c.body.len());
    let p = sealed_plaintext(header, s);
    assert(blob.subrange(0, 17) =~= header);
    assert(open_spec(key, c, state_aad_spec(context)) == Ok::<Seq<u8>, MefError>(p));
    assert(p.subrange(0, 17) =~= header);
    assert(p.subrange(17, p.len() as int) =~= state_plaintext(s));
    assert((CiphertextView { suite: AeadSuite::XChaCha20Poly1305, nonce: blob.subrange(17, 41), body: blob.subrange(41, blob.len() as int) }) == c);
}

/// A well-formed record is refused for every floor above the generation in its header.
proof fn lemma_state_blob_generation(generation: u64, c: CiphertextView)
    requires
        c.nonce.len() == 24,
        AEAD_TAG_LEN <= c.body.len() <= MAX_CIPHERTEXT_LEN,
    ensures
        forall|key: Seq<u8>, context: Seq<u8>, minimum_generation: u64| minimum_generation > generation
            ==> #[trigger] restore_spec(key, context, minimum_generation, state_blob(generation, c.nonce, c.body)) == Err::<RatchetStateView, MefError>(MefError::StateRollbackDetected),
{
    let blob = state_blob(generation, c.nonce, c.body);
    crate::bytes::lemma_u64_be_roundtrip(generation);
    assert(blob.subrange(0, 3) =~= state_magic());
    assert(blob.subrange(4, 12) =~= u64_be(generation));
}

/// A 256-bit key used only to seal and restore one ratchet-state record.
pub struct StateSealKey(AeadKey);

impl View for StateSealKey {
    type V = Seq<u8>;

    closed spec fn view(&self) -> Seq<u8> {
        self.0@
    }
}

impl StateSealKey {
    /// Constructs a persistence key loaded from an approved platform secure store.
    pub fn from_bytes(bytes: [u8; 32]) -> (key: Self)
        ensures
            key@ == bytes@,
    {
        StateSealKey(AeadKey::from_bytes(bytes))
    }
}

fn state_header_bytes(version: u8, generation: u64, body_len: u32) -> (out: Vec<u8>)
    ensures
        out@ == state_header(version, generation, body_len as nat),
        out@.len() == STATE_HEADER_LEN,
{
    let magic: [u8; 3] = [0x4d, 0x52, 0x53];
    let mut output: Vec<u8> = Vec::new();
    extend_bytes(&mut output, &magic);
    output.push(version);
    push_u64_be(&mut output, generation);
    output.push(24u8);
    push_u32_be(&mut output, body_len);
    assert(magic@ =~= state_magic());
    assert(output@ =~= state_header(version, generation, body_len as nat));
    output
}

/// Whether `plaintext` begins with the 17 bytes of `header`.
fn header_matches(plaintext: &[u8], header: &[u8]) -> (matches: bool)
    requires
        plaintext@.len() >= STATE_HEADER_LEN,
        header@.len() == STATE_HEADER_LEN,
    ensures
        matches == (plaintext@.subrange(0, 17) == header@),
{
    let mut i: usize = 0;
    while i < STATE_HEADER_LEN
        invariant
            i <= STATE_HEADER_LEN,
            plaintext@.len() >= STATE_HEADER_LEN,
            header@.len() == STATE_HEADER_LEN,
            forall|j: int| 0 <= j < i ==> plaintext@[j] == header@[j],
        decreases STATE_HEADER_LEN - i,
    {
        if plaintext[i] != header[i] {
            assert(plaintext@.subrange(0, 17)[i as int] != header@[i as int]);
            return false;
        }
        i = i + 1;
    }
    assert(plaintext@.subrange(0, 17) =~= header@);
    true
}

fn state_aad(context: &[u8]) -> (res: Result<Vec<u8>>)
    ensures
        context_oversized(context@) ==> res == Err::<Vec<u8>, MefError>(MefError::InvalidLength),
        !context_oversized(context@) ==> (res matches Ok(v) && v@ == state_aad_spec(context@)),
{
    let label: [u8; 24] = [
        0x4d, 0x45, 0x46, 0x2d, 0x32, 0x36, 0x2f, 0x72, 0x61, 0x74, 0x63, 0x68, 0x65, 0x74, 0x2d,
        0x73, 0x74, 0x61, 0x74, 0x65, 0x2d, 0x76, 0x31, 0x00,
    ];
    assert(label@ =~= state_label());
    if context.len() > MAX_AAD_LEN - 24 {
        return Err(MefError::InvalidLength);
    }
    let mut output: Vec<u8> = Vec::new();
    extend_bytes(&mut output, &label);
    extend_bytes(&mut output, context);
    Ok(output)
}

fn encode_skipped_entry(out: &mut Vec<u8>, entry: &SkippedMessageKey)
    ensures
        final(out)@ == old(out)@ + skipped_entry_bytes((entry.remote_dh@, entry.message_number, entry.key@)),
{
    let remote = entry.remote_dh.to_bytes();
    extend_bytes(out, &remote);
    push_u32_be(out, entry.message_number);
    let key = entry.key.as_bytes();
    extend_bytes(out, key);
    assert(out@ =~= old(out)@ + skipped_entry_bytes((entry.remote_dh@, entry.message_number, entry.key@)));
}

fn encode_state(state: &RatchetState) -> (out: Vec<u8>)
    ensures
        out@ == state_plaintext(state@),
{
    state.check_wf();
    let mut output: Vec<u8> = Vec::new();
    extend_bytes(&mut output, &state.session_id);
    extend_bytes(&mut output, &state.root_key.copy_bytes());
    extend_bytes(&mut output, &state.sending_chain.copy_bytes());
    extend_bytes(&mut output, &state.receiving_chain.copy_bytes());
    extend_bytes(&mut output, &state.dh_pair.secret_bytes());
    extend_bytes(&mut output, &state.remote_dh.to_bytes());
    push_u32_be(&mut output, state.previous_sending_chain_len);
    push_u32_be(&mut output, state.sending_count);
    push_u32_be(&mut output, state.receiving_count);
    push_u16_be(&mut output, state.skipped.len() as u16);
    output.push(state.suite.id());
    let ghost prefix = output@;
    let ghost entries = state@.skipped;
    let mut index: usize = 0;
    while index < state.skipped.len()
        invariant
            index <= state.skipped@.len(),
            entries == skipped_view(state.skipped@),
            output@ == prefix + skipped_bytes(entries.take(index as int)),
        decreases state.skipped@.len() - index,
    {
        encode_skipped_entry(&mut output, &state.skipped[index]);
        proof {
            assert(entries.take(index + 1).drop_last() =~= entries.take(index as int));
            assert(entries.take(index + 1).last() == entries[index as int]);
        }
        index = index + 1;
    }
    assert(entries.take(entries.len() as int) =~= entries);
    assert(output@ =~= state_plaintext(state@));
    output
}

fn decode_skipped(bytes: &[u8], start: usize, count: usize) -> (res: Result<Vec<SkippedMessageKey>>)
    requires
        start + SKIPPED_ENTRY_LEN * count == bytes@.len(),
        count <= MAX_SKIPPED_KEYS,
    ensures
        (match res {
            Ok(v) => skipped_distinct(decode_entries(bytes@, start as int, count as nat))
                && skipped_view(v@) == decode_entries(bytes@, start as int, count as nat)
                && v@.len() == count,
            Err(e) => e == MefError::InvalidState && !skipped_distinct(decode_entries(bytes@, start as int, count as nat)),
        }),
{
    let ghost entries = decode_entries(bytes@, start as int, count as nat);
    let mut skipped: Vec<SkippedMessageKey> = Vec::new();
    let mut index: usize = 0;
    assert(bytes@.len() == bytes.len());
    while index < count
        invariant
            index <= count,
            start + SKIPPED_ENTRY_LEN * count == bytes@.len(),
            bytes@.len() <= usize::MAX,
            count <= MAX_SKIPPED_KEYS,
            entries == decode_entries(bytes@, start as int, count as nat),
            skipped@.len() == index,
            skipped_view(skipped@) == entries.take(index as int),
            skipped_distinct(skipped_view(skipped@)),
        decreases count - index,
    {
        assert(68 * index + 68 <= 68 * count) by (nonlinear_arith)
            requires
                index < count,
        ;
        let offset = start + 68 * index;
        let remote_dh = DhPublicKey::from_bytes(copy_array::<32>(bytes, offset));
        let message_number = read_u32_be(bytes, offset + 32);
        assert(entries[index as int].0 == remote_dh@ && entries[index as int].1 == message_number);
        let mut j: usize = 0;
        while j < skipped.len()
            invariant
                j <= skipped@.len(),
                index < count,
                skipped@.len() == index,
                entries == decode_entries(bytes@, start as int, count as nat),
                skipped_view(skipped@) == entries.take(index as int),
                entries[index as int].0 == remote_dh@ && entries[index as int].1 == message_number,
                forall|k: int| 0 <= k < j ==> !(#[trigger] skipped_view(skipped@)[k].0 == remote_dh@ && skipped_view(skipped@)[k].1 == message_number),
            decreases skipped@.len() - j,
        {
            if skipped[j].remote_dh.same_as(&remote_dh) && skipped[j].message_number == message_number {
                proof {
                    assert(skipped_view(skipped@)[j as int] == entries[j as int]);
                    assert(entries[j as int].0 == entries[index as int].0 && entries[j as int].1 == entries[index as int].1);
                }
                return Err(MefError::InvalidState);
            }
            j = j + 1;
        }
        let key = AeadKey::from_bytes(copy_array::<32>(bytes, offset + 36));
        let ghost before = skipped_view(skipped@);
        skipped.push(SkippedMessageKey { remote_dh, message_number, key });
        proof {
            assert(skipped_view(skipped@) =~= before.push(entries[index as int]));
            assert(entries.take(index + 1) =~= entries.take(index as int).push(entries[index as int]));
            let v = skipped_view(skipped@);
            assert forall|a: int, b: int| 0 <= a < b < v.len() implies !(#[trigger] v[a].0 == #[trigger] v[b].0 && v[a].1 == v[b].1) by {
                if b < index {
                    assert(v[a] == before[a] && v[b] == before[b]);
                } else {
                    assert(v[a] == before[a]);
                    assert(!(before[a].0 == remote_dh@ && before[a].1 == message_number));
                }
            }
        }
        index = index + 1;
    }
    assert(entries.take(count as int) =~= entries);
    Ok(skipped)
}

fn decode_state(bytes: &[u8], generation: u64, version: u8) -> (res: Result<RatchetState>)
    ensures
        (match res {
            Ok(s) => decode_state_spec(bytes@, generation, version) == Ok::<RatchetStateView, MefError>(s@),
            Err(e) => decode_state_spec(bytes@, generation, version) == Err::<RatchetStateView, MefError>(e),
        }),
{
    let fixed: usize = if version == 1 { LEGACY_STATE_FIXED_LEN } else { STATE_FIXED_LEN };
    if bytes.len() < fixed {
        return Err(MefError::InvalidFrame);
    }
    let count = read_u16_be(bytes, 204) as usize;
    if count > MAX_SKIPPED_KEYS {
        return Err(MefError::InvalidState);
    }
    if bytes.len() != fixed + SKIPPED_ENTRY_LEN * count {
        return Err(MefError::InvalidFrame);
    }
    let suite = if version == 1 { AeadSuite::XChaCha20Poly1305 } else { AeadSuite::from_id(bytes[206])? };
    let session_id = copy_array::<32>(bytes, 0);
    let root_key = Secret::from_bytes(copy_array::<32>(bytes, 32));
    let sending_chain = Secret::from_bytes(copy_array::<32>(bytes, 64));
    let receiving_chain = Secret::from_bytes(copy_array::<32>(bytes, 96));
    let dh_pair = DhKeyPair::from_secret(DhSecretKey::from_bytes(copy_array::<32>(bytes, 128)));
    let remote_dh = DhPublicKey::from_bytes(copy_array::<32>(bytes, 160));
    let previous_sending_chain_len = read_u32_be(bytes, 192);
    let sending_count = read_u32_be(bytes, 196);
    let receiving_count = read_u32_be(bytes, 200);
    let skipped = decode_skipped(bytes, fixed, count)?;
    let state = RatchetState::assemble(
        session_id,
        root_key,
        sending_chain,
        receiving_chain,
        dh_pair,
        remote_dh,
        previous_sending_chain_len,
        sending_count,
        receiving_count,
        generation,
        suite,
        skipped,
    );
    Ok(state)
}

impl RatchetState {
    /// Encrypts a complete ratchet snapshot bound to a caller-defined storage context.
    ///
    /// The context should uniquely identify the account, device and session storage slot.
    /// Returns [`MefError::InvalidLength`] exactly when the context is too long for the
    /// associated-data limit; otherwise the only possible failure is unavailable randomness.
    /// The record is [`state_blob`] of the XChaCha20-Poly1305 sealing of [`sealed_plaintext`]
    /// (a copy of the record header, then [`state_plaintext`]) under some nonce, with the
    /// context as associated data. When no
    /// two retained keys coincide, restoring it with the same key and context and any floor up
    /// to the state's generation gives back exactly this state; any floor above the generation
    /// is refused as a rollback.
    pub fn seal_state(&self, key: &StateSealKey, context: &[u8]) -> (res: Result<Vec<u8>>)
        ensures
            context_oversized(context@) ==> res == Err::<Vec<u8>, MefError>(MefError::InvalidLength),
            !context_oversized(context@) ==> (res matches Err(e) ==> e == MefError::RandomnessUnavailable),
            res matches Ok(blob) ==> exists|nonce: Seq<u8>| nonce.len() == 24 && blob@ == #[trigger] state_blob(
                self@.generation,
                nonce,
                aead_seal(
                    AeadSuite::XChaCha20Poly1305,
                    key@,
                    nonce,
                    state_aad_spec(context@),
                    sealed_plaintext(
                        state_header(STATE_VERSION, self@.generation, (STATE_HEADER_LEN + state_plaintext(self@).len() + AEAD_TAG_LEN) as nat),
                        self@,
                    ),
                ),
            ),
            res is Ok && skipped_distinct(self@.skipped) ==> forall|minimum_generation: u64| minimum_generation <= self@.generation
                ==> #[trigger] restore_spec(key@, context@, minimum_generation, res->Ok_0@) == Ok::<RatchetStateView, MefError>(self@),
            res is Ok ==> forall|minimum_generation: u64| minimum_generation > self@.generation
                ==> #[trigger] restore_spec(key@, context@, minimum_generation, res->Ok_0@) == Err::<RatchetStateView, MefError>(MefError::StateRollbackDetected),
    {
        self.check_wf();
        let aad = state_aad(context)?;
        proof { lemma_state_plaintext_len(self@); }
        let body_len = STATE_HEADER_LEN + STATE_FIXED_LEN + SKIPPED_ENTRY_LEN * self.skipped.len() + AEAD_TAG_LEN;
        let ghost header_view = state_header(STATE_VERSION, self@.generation, (STATE_HEADER_LEN + state_plaintext(self@).len() + AEAD_TAG_LEN) as nat);
        let mut output = state_header_bytes(STATE_VERSION, self.generation, body_len as u32);
        let mut plaintext = state_header_bytes(STATE_VERSION, self.generation, body_len as u32);
        let mut encoded = encode_state(self);
        extend_bytes(&mut plaintext, encoded.as_slice());
        wipe_vec(&mut encoded);
        assert(plaintext@ =~= sealed_plaintext(header_view, self@));
        let sealed = seal(&key.0, AeadSuite::XChaCha20Poly1305, aad.as_slice(), plaintext.as_slice());
        wipe_vec(&mut plaintext);
        let ciphertext = sealed?;
        let nonce = ciphertext.nonce();
        let body = ciphertext.body();
        extend_bytes(&mut output, nonce);
        extend_bytes(&mut output, body);
        proof {
            let c = ciphertext@;
            assert(c.body.len() == body_len);
            assert(output@ =~= state_blob(self@.generation, c.nonce, c.body));
            assert(output@ == state_blob(self@.generation, c.nonce,
                aead_seal(AeadSuite::XChaCha20Poly1305, key@, c.nonce, state_aad_spec(context@), sealed_plaintext(header_view, self@))));
            lemma_state_blob_generation(self@.generation, c);
            if skipped_distinct(self@.skipped) {
                lemma_state_blob_restores(key@, context@, self@, c);
            }
        }
        Ok(output)
    }

    /// Restores a ratchet snapshot and rejects records below a durable rollback floor.
    ///
    /// The caller keeps `minimum_generation` in storage that cannot be rolled back together
    /// with the record. Returns exactly [`restore_spec`]: [`MefError::StateRollbackDetected`]
    /// for a generation below the floor, the AEAD verdict for a wrong key, context or tampered
    /// ciphertext, and [`MefError::AuthenticationFailed`] for a current-version record whose
    /// header differs from the authenticated copy it encrypts. Records of the first version,
    /// which record no suite and whose header is not authenticated, restore as
    /// XChaCha20-Poly1305 ratchets.
    pub fn restore_state(key: &StateSealKey, context: &[u8], minimum_generation: u64, blob: &[u8]) -> (res: Result<Self>)
        ensures
            (match res {
                Ok(s) => restore_spec(key@, context@, minimum_generation, blob@) == Ok::<RatchetStateView, MefError>(s@),
                Err(e) => restore_spec(key@, context@, minimum_generation, blob@) == Err::<RatchetStateView, MefError>(e),
            }),
    {
        if blob.len() < STATE_HEADER_LEN + 24 + AEAD_TAG_LEN || !(blob[0] == 0x4d && blob[1] == 0x52 && blob[2] == 0x53)
            || !(blob[3] == 1 || blob[3] == 2) {
            proof {
                if blob@.len() >= 57 && blob@.subrange(0, 3) == state_magic() {
                    assert(blob@.subrange(0, 3)[0] == blob@[0]);
                    assert(blob@.subrange(0, 3)[1] == blob@[1]);
                    assert(blob@.subrange(0, 3)[2] == blob@[2]);
                }
            }
            return Err(MefError::InvalidFrame);
        }
        assert(blob@.subrange(0, 3) =~= state_magic());
        let generation = read_u64_be(blob, 4);
        if generation < minimum_generation {
            return Err(MefError::StateRollbackDetected);
        }
        let nonce_len = blob[12];
        let body_len = read_u32_be(blob, 13);
        if nonce_len != 24 || 17u64 + nonce_len as u64 + body_len as u64 != blob.len() as u64 {
            return Err(MefError::InvalidFrame);
        }
        let ciphertext = Ciphertext::from_parts(
            AeadSuite::XChaCha20Poly1305,
            copy_range(blob, STATE_HEADER_LEN, STATE_HEADER_LEN + 24),
            copy_range(blob, STATE_HEADER_LEN + 24, blob.len()),
        )?;
        let header = copy_range(blob, 0, STATE_HEADER_LEN);
        let aad = state_aad(context)?;
        let mut plaintext = open(&key.0, &ciphertext, aad.as_slice())?;
        if blob[3] == 1 {
            let state = decode_state(plaintext.as_slice(), generation, 1);
            wipe_vec(&mut plaintext);
            return state;
        }
        if plaintext.len() < STATE_HEADER_LEN || !header_matches(plaintext.as_slice(), header.as_slice()) {
            wipe_vec(&mut plaintext);
            return Err(MefError::AuthenticationFailed);
        }
        let mut encoded = copy_range(plaintext.as_slice(), STATE_HEADER_LEN, plaintext.len());
        wipe_vec(&mut plaintext);
        let state = decode_state(encoded.as_slice(), generation, 2);
        wipe_vec(&mut encoded);
        state
    }
}

} // verus!
