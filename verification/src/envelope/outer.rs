//! Canonical opaque delivery envelope with encrypted padding.
use vstd::prelude::*;

use vstd::string::StringSliceAdditionalSpecFns;

use super::capability::{
    lemma_capability_len, lemma_transport_id_len, MailboxCapability, TransportMessageId,
};
use super::replay::{replay_step, ReplayCache, ReplayCacheView};
use crate::bytes::{
    copy_array, copy_range, extend_bytes, push_u32_be, push_u64_be, read_u32_be, read_u64_be,
    u32_be, u32_of_be, u64_be, u64_of_be,
};
use crate::crypto::{
    aead_seal, derive_aead_key, kdf, open, open_spec, seal, AeadSuite, Ciphertext, CiphertextView,
    AEAD_TAG_LEN,
};
use crate::frame::{decode_prefix_spec, InnerFrame, InnerFrameView};
use crate::keys::{
    lemma_dh_public_len, lemma_dh_secret_len, x25519_agree, x25519_public, zero_public_key,
    DhKeyPair, DhPublicKey, DhSecretKey, DH_KEY_LEN,
};
use crate::{bytes_result, MefError, Result, MAX_CIPHERTEXT_LEN};

verus! {

broadcast use {lemma_capability_len, lemma_transport_id_len, lemma_dh_public_len, lemma_dh_secret_len};

/// Length of the fixed envelope header that precedes the nonce and body.
pub const OUTER_FIXED_LEN: usize = 98;

/// The label under which envelope keys are derived.
pub const OUTER_LABEL: &'static str = "outer-envelope-v1";

/// The envelope magic "MEO".
pub open spec fn outer_magic() -> Seq<u8> {
    seq![0x4du8, 0x45u8, 0x4fu8]
}

/// The canonical envelope header bytes, which are also the envelope's associated data.
pub open spec fn outer_aad(mailbox: Seq<u8>, message_id: Seq<u8>, expires_at_unix: u64, sender_ephemeral: Seq<u8>, body_len: nat) -> Seq<u8> {
    outer_magic() + seq![1u8, 3u8] + mailbox + message_id + u64_be(expires_at_unix) + sender_ephemeral
        + seq![24u8] + u32_be(body_len as u32)
}

/// The abstract content of an outer envelope.
pub struct OuterEnvelopeView {
    /// The recipient routing capability.
    pub mailbox: Seq<u8>,
    /// The opaque replay identifier.
    pub message_id: Seq<u8>,
    /// The exclusive expiration timestamp in Unix seconds.
    pub expires_at_unix: u64,
    /// The sender's ephemeral X25519 public key.
    pub sender_ephemeral: Seq<u8>,
    /// The XChaCha20-Poly1305 ciphertext of the padded inner frame.
    pub ciphertext: CiphertextView,
}

impl OuterEnvelopeView {
    /// All fields have their wire lengths and the ciphertext uses XChaCha20-Poly1305.
    pub open spec fn wf(self) -> bool {
        &&& self.mailbox.len() == 32
        &&& self.message_id.len() == 16
        &&& self.sender_ephemeral.len() == 32
        &&& self.ciphertext.wf()
        &&& self.ciphertext.suite == AeadSuite::XChaCha20Poly1305
    }

    /// The associated data bound to the envelope's ciphertext.
    pub open spec fn aad(self) -> Seq<u8> {
        outer_aad(self.mailbox, self.message_id, self.expires_at_unix, self.sender_ephemeral, self.ciphertext.body.len())
    }

    /// The canonical wire encoding: header, nonce, body.
    pub open spec fn bytes(self) -> Seq<u8> {
        self.aad() + self.ciphertext.nonce + self.ciphertext.body
    }
}

/// The envelope key derived from the mailbox capability and the X25519 shared secret.
pub open spec fn envelope_key(mailbox: Seq<u8>, shared: Seq<u8>) -> Seq<u8> {
    kdf(mailbox, OUTER_LABEL.spec_bytes(), shared)
}

/// The envelope that sealing `plaintext` for `recipient` produces with the sender ephemeral
/// secret `ephemeral`, the transport identifier `message_id` and the nonce `nonce`: the
/// XChaCha20-Poly1305 encryption under the [`envelope_key`] of the agreed secret, with the
/// canonical header as associated data.
pub open spec fn sealed_envelope(
    recipient: Seq<u8>,
    mailbox: Seq<u8>,
    expires_at_unix: u64,
    plaintext: Seq<u8>,
    ephemeral: Seq<u8>,
    message_id: Seq<u8>,
    nonce: Seq<u8>,
) -> OuterEnvelopeView {
    let sender_ephemeral = x25519_public(ephemeral);
    let key = envelope_key(mailbox, x25519_agree(ephemeral, recipient).unwrap());
    let aad = outer_aad(mailbox, message_id, expires_at_unix, sender_ephemeral, (plaintext.len() + AEAD_TAG_LEN) as nat);
    OuterEnvelopeView {
        mailbox,
        message_id,
        expires_at_unix,
        sender_ephemeral,
        ciphertext: CiphertextView {
            suite: AeadSuite::XChaCha20Poly1305,
            nonce,
            body: aead_seal(AeadSuite::XChaCha20Poly1305, key, nonce, aad, plaintext),
        },
    }
}

/// What [`OuterEnvelope::seal`] returns for a frame encoding and padding length, given the
/// sender ephemeral secret, transport identifier and nonce it draws: a non-contributory
/// agreement with the recipient key is refused, then a padded frame too long for one
/// ciphertext, and otherwise the envelope is [`sealed_envelope`] of the padded frame.
pub open spec fn seal_spec(
    recipient: Seq<u8>,
    mailbox: Seq<u8>,
    expires_at_unix: u64,
    frame: Seq<u8>,
    padding_len: nat,
    ephemeral: Seq<u8>,
    message_id: Seq<u8>,
    nonce: Seq<u8>,
) -> core::result::Result<OuterEnvelopeView, MefError> {
    if x25519_agree(ephemeral, recipient) is None {
        Err(MefError::NonContributoryKeyAgreement)
    } else if frame.len() + padding_len > MAX_CIPHERTEXT_LEN - AEAD_TAG_LEN {
        Err(MefError::InvalidLength)
    } else {
        Ok(sealed_envelope(recipient, mailbox, expires_at_unix, frame + zeros(padding_len), ephemeral, message_id, nonce))
    }
}

/// An envelope result viewed abstractly.
pub open spec fn envelope_result(res: &Result<OuterEnvelope>) -> core::result::Result<OuterEnvelopeView, MefError> {
    match res {
        Ok(env) => Ok(env@),
        Err(e) => Err(*e),
    }
}

/// What [`OuterEnvelope::open`] returns with a recipient secret at `now_unix`.
pub open spec fn envelope_open_spec(env: OuterEnvelopeView, secret: Seq<u8>, now_unix: u64) -> core::result::Result<Seq<u8>, MefError> {
    if now_unix >= env.expires_at_unix {
        Err(MefError::EnvelopeExpired)
    } else {
        match x25519_agree(secret, env.sender_ephemeral) {
            None => Err(MefError::NonContributoryKeyAgreement),
            Some(shared) => open_spec(envelope_key(env.mailbox, shared), env.ciphertext, env.aad()),
        }
    }
}

/// Every byte of `s` from index `start` on is zero.
pub open spec fn zero_from(s: Seq<u8>, start: int) -> bool {
    forall|i: int| start <= i < s.len() ==> s[i] == 0u8
}

/// What [`OuterEnvelope::open_inner`] returns: the one canonical frame at the start of the
/// opened plaintext, provided only zero bytes follow it.
pub open spec fn envelope_open_inner_spec(env: OuterEnvelopeView, secret: Seq<u8>, now_unix: u64) -> core::result::Result<InnerFrameView, MefError> {
    match envelope_open_spec(env, secret, now_unix) {
        Err(e) => Err(e),
        Ok(p) => match decode_prefix_spec(p) {
            Err(e) => Err(e),
            Ok((f, n)) => if zero_from(p, n as int) { Ok(f) } else { Err(MefError::InvalidFrame) },
        },
    }
}

/// `n` zero bytes.
pub open spec fn zeros(n: nat) -> Seq<u8> {
    Seq::new(n, |i: int| 0u8)
}

/// What [`OuterEnvelope::decode`] returns for `b`.
pub open spec fn envelope_decode_spec(b: Seq<u8>) -> core::result::Result<OuterEnvelopeView, MefError> {
    if b.len() < OUTER_FIXED_LEN || b.len() > MAX_CIPHERTEXT_LEN + OUTER_FIXED_LEN + 24 {
        Err(MefError::InvalidFrame)
    } else if !(b[0] == 0x4du8 && b[1] == 0x45u8 && b[2] == 0x4fu8) || b[3] != 1u8 {
        Err(MefError::InvalidFrame)
    } else if AeadSuite::spec_from_id(b[4]) is None {
        Err(MefError::UnsupportedSuite)
    } else if b[4] != 3u8 {
        Err(MefError::InvalidFrame)
    } else {
        let nonce_len = b[93] as nat;
        let body_len = u32_of_be(b.subrange(94, 98)) as nat;
        if nonce_len != 24 || body_len < AEAD_TAG_LEN || body_len > MAX_CIPHERTEXT_LEN {
            Err(MefError::InvalidFrame)
        } else if b.len() != OUTER_FIXED_LEN + nonce_len + body_len {
            Err(MefError::InvalidFrame)
        } else {
            Ok(OuterEnvelopeView {
                mailbox: b.subrange(5, 37),
                message_id: b.subrange(37, 53),
                expires_at_unix: u64_of_be(b.subrange(53, 61)),
                sender_ephemeral: b.subrange(61, 93),
                ciphertext: CiphertextView {
                    suite: AeadSuite::XChaCha20Poly1305,
                    nonce: b.subrange(98, 122),
                    body: b.subrange(122, b.len() as int),
                },
            })
        }
    }
}

fn encode_aad(
    mailbox: MailboxCapability,
    message_id: TransportMessageId,
    expires_at_unix: u64,
    sender_ephemeral: DhPublicKey,
    body_len: usize,
) -> (res: Result<Vec<u8>>)
    ensures
        body_len > u32::MAX ==> res == Err::<Vec<u8>, MefError>(MefError::InvalidLength),
        body_len <= u32::MAX ==> (res matches Ok(v) && v@ == outer_aad(mailbox@, message_id@, expires_at_unix, sender_ephemeral@, body_len as nat)),
        body_len <= u32::MAX ==> outer_aad(mailbox@, message_id@, expires_at_unix, sender_ephemeral@, body_len as nat).len() == OUTER_FIXED_LEN,
{
    if body_len > 0xffff_ffffusize {
        return Err(MefError::InvalidLength);
    }
    let magic: [u8; 3] = [0x4d, 0x45, 0x4f];
    let mut aad: Vec<u8> = Vec::new();
    extend_bytes(&mut aad, &magic);
    aad.push(1);
    aad.push(AeadSuite::XChaCha20Poly1305.id());
    let mailbox_bytes = mailbox.to_bytes();
    extend_bytes(&mut aad, &mailbox_bytes);
    let id_bytes = message_id.to_bytes();
    extend_bytes(&mut aad, &id_bytes);
    push_u64_be(&mut aad, expires_at_unix);
    let ephemeral_bytes = sender_ephemeral.to_bytes();
    extend_bytes(&mut aad, &ephemeral_bytes);
    aad.push(AeadSuite::XChaCha20Poly1305.nonce_len() as u8);
    push_u32_be(&mut aad, body_len as u32);
    assert(magic@ =~= outer_magic());
    assert(aad@ =~= outer_aad(mailbox@, message_id@, expires_at_unix, sender_ephemeral@, body_len as nat));
    Ok(aad)
}

/// A sealed opaque payload addressed to one mailbox capability.
#[derive(Debug, PartialEq, Eq)]
pub struct OuterEnvelope {
    mailbox: MailboxCapability,
    message_id: TransportMessageId,
    expires_at_unix: u64,
    sender_ephemeral: DhPublicKey,
    ciphertext: Ciphertext,
}

impl View for OuterEnvelope {
    type V = OuterEnvelopeView;

    closed spec fn view(&self) -> OuterEnvelopeView {
        OuterEnvelopeView {
            mailbox: self.mailbox@,
            message_id: self.message_id@,
            expires_at_unix: self.expires_at_unix,
            sender_ephemeral: self.sender_ephemeral@,
            ciphertext: self.ciphertext@,
        }
    }
}

} // verus!

verus! {

impl Clone for OuterEnvelope {
    fn clone(&self) -> (env: Self)
        ensures
            env@ == self@,
    {
        proof { use_type_invariant(self); }
        OuterEnvelope {
            mailbox: self.mailbox,
            message_id: self.message_id,
            expires_at_unix: self.expires_at_unix,
            sender_ephemeral: self.sender_ephemeral,
            ciphertext: self.ciphertext.clone(),
        }
    }
}

impl OuterEnvelope {
    #[verifier::type_invariant]
    spec fn inv(self) -> bool {
        self.ciphertext@.suite == AeadSuite::XChaCha20Poly1305
    }

    /// Seals a complete MEF-26 inner frame for one delivery recipient.
    ///
    /// `padding_len` zero bytes are encrypted after the frame. Unavailable randomness can fail
    /// the call; otherwise the result is exactly [`seal_spec`] for the fresh ephemeral secret,
    /// transport identifier and nonce: [`MefError::NonContributoryKeyAgreement`] when the
    /// ephemeral agreement with the recipient key is non-contributory (always for the all-zero
    /// key), [`MefError::InvalidLength`] when the padded frame exceeds [`MAX_CIPHERTEXT_LEN`]
    /// minus the tag, and otherwise [`sealed_envelope`] of the padded frame, whose body is the
    /// padded frame plus the tag. The recipient
    /// holding the secret of `recipient_delivery_key` opens the envelope, before its
    /// (exclusive) expiry, to exactly the frame's encoding followed by the padding, and
    /// [`Self::open_inner`] returns exactly the frame.
    pub fn seal(
        recipient_delivery_key: DhPublicKey,
        mailbox: MailboxCapability,
        expires_at_unix: u64,
        inner_frame: &InnerFrame,
        padding_len: usize,
    ) -> (res: Result<Self>)
        ensures
            !(res matches Err(e) && e == MefError::RandomnessUnavailable) ==> exists|ephemeral: Seq<u8>, message_id: Seq<u8>, nonce: Seq<u8>|
                ephemeral.len() == DH_KEY_LEN && message_id.len() == 16 && nonce.len() == 24
                && #[trigger] seal_spec(recipient_delivery_key@, mailbox@, expires_at_unix, inner_frame@.bytes(),
                    padding_len as nat, ephemeral, message_id, nonce) == envelope_result(&res),
            inner_frame@.bytes().len() + padding_len > MAX_CIPHERTEXT_LEN - AEAD_TAG_LEN ==> res is Err,
            recipient_delivery_key@ == zero_public_key() ==> (res matches Err(e)
                && (e == MefError::NonContributoryKeyAgreement || e == MefError::RandomnessUnavailable)),
            res matches Ok(env) ==> env@.wf() && env@.mailbox == mailbox@ && env@.expires_at_unix == expires_at_unix,
            res matches Ok(env) ==> env@.ciphertext.body.len() == inner_frame@.bytes().len() + padding_len + AEAD_TAG_LEN,
            res matches Ok(env) ==> exists|ephemeral: Seq<u8>, message_id: Seq<u8>, nonce: Seq<u8>|
                ephemeral.len() == DH_KEY_LEN && message_id.len() == 16 && nonce.len() == 24
                && x25519_agree(ephemeral, recipient_delivery_key@) is Some
                && #[trigger] sealed_envelope(recipient_delivery_key@, mailbox@, expires_at_unix,
                    inner_frame@.bytes() + zeros(padding_len as nat), ephemeral, message_id, nonce) == env@,
            res matches Ok(env) ==> forall|secret: Seq<u8>, now: u64|
                secret.len() == DH_KEY_LEN && x25519_public(secret) == recipient_delivery_key@ && now < expires_at_unix
                ==> #[trigger] envelope_open_spec(env@, secret, now)
                    == Ok::<Seq<u8>, MefError>(inner_frame@.bytes() + zeros(padding_len as nat))
                    && envelope_open_inner_spec(env@, secret, now) == Ok::<InnerFrameView, MefError>(inner_frame@),
    {
        let sender_ephemeral = DhKeyPair::generate()?;
        let ghost no_id = Seq::new(16, |i: int| 0u8);
        let ghost no_nonce = Seq::new(24, |i: int| 0u8);
        let ghost frame = inner_frame@.bytes();
        let shared = match sender_ephemeral.diffie_hellman(recipient_delivery_key) {
            Ok(d) => d,
            Err(e) => {
                assert(seal_spec(recipient_delivery_key@, mailbox@, expires_at_unix, frame, padding_len as nat, sender_ephemeral@, no_id, no_nonce)
                    == envelope_result(&Err::<OuterEnvelope, MefError>(e)));
                return Err(e);
            },
        };
        proof {
            reveal_strlit("outer-envelope-v1");
            crate::crypto::lemma_ascii_label_len(OUTER_LABEL);
        }
        let mailbox_bytes = mailbox.to_bytes();
        let key = derive_aead_key(&mailbox_bytes, OUTER_LABEL, &shared)?;
        let message_id = TransportMessageId::generate()?;
        let inner_bytes = inner_frame.encode()?;
        let plaintext_len = match inner_bytes.len().checked_add(padding_len) {
            Some(n) => n,
            None => {
                assert(seal_spec(recipient_delivery_key@, mailbox@, expires_at_unix, frame, padding_len as nat, sender_ephemeral@, message_id@, no_nonce)
                    == envelope_result(&Err::<OuterEnvelope, MefError>(MefError::InvalidLength)));
                return Err(MefError::InvalidLength);
            },
        };
        if plaintext_len > MAX_CIPHERTEXT_LEN - AEAD_TAG_LEN {
            assert(seal_spec(recipient_delivery_key@, mailbox@, expires_at_unix, frame, padding_len as nat, sender_ephemeral@, message_id@, no_nonce)
                == envelope_result(&Err::<OuterEnvelope, MefError>(MefError::InvalidLength)));
            return Err(MefError::InvalidLength);
        }
        let body_len = plaintext_len + AEAD_TAG_LEN;
        let mut plaintext = inner_bytes;
        let ghost frame_bytes = plaintext@;
        while plaintext.len() < plaintext_len
            invariant
                frame_bytes.len() <= plaintext@.len() <= plaintext_len,
                plaintext@ == frame_bytes + zeros((plaintext@.len() - frame_bytes.len()) as nat),
            decreases plaintext_len - plaintext@.len(),
        {
            plaintext.push(0u8);
            assert(plaintext@ =~= frame_bytes + zeros((plaintext@.len() - frame_bytes.len()) as nat));
        }
        let ephemeral_public = sender_ephemeral.public();
        let aad = encode_aad(mailbox, message_id, expires_at_unix, ephemeral_public, body_len)?;
        let ciphertext = seal(&key, AeadSuite::XChaCha20Poly1305, aad.as_slice(), plaintext.as_slice())?;
        let env = Self::from_ciphertext(mailbox, message_id, expires_at_unix, ephemeral_public, ciphertext)?;
        proof {
            let v = env@;
            let p = frame_bytes + zeros(padding_len as nat);
            assert(plaintext@ =~= p);
            crate::frame::lemma_frame_prefix_round_trip(inner_frame@, zeros(padding_len as nat));
            assert(sealed_envelope(recipient_delivery_key@, mailbox@, expires_at_unix, p, sender_ephemeral@, message_id@, v.ciphertext.nonce) == v);
            assert(seal_spec(recipient_delivery_key@, mailbox@, expires_at_unix, frame, padding_len as nat, sender_ephemeral@, message_id@, v.ciphertext.nonce)
                == envelope_result(&Ok::<OuterEnvelope, MefError>(env)));
            assert forall|secret: Seq<u8>, now: u64|
                secret.len() == DH_KEY_LEN && x25519_public(secret) == recipient_delivery_key@ && now < expires_at_unix
                implies #[trigger] envelope_open_spec(v, secret, now) == Ok::<Seq<u8>, MefError>(p)
                    && envelope_open_inner_spec(v, secret, now) == Ok::<InnerFrameView, MefError>(inner_frame@) by {
                assert(x25519_agree(secret, ephemeral_public@) == x25519_agree(sender_ephemeral@, x25519_public(secret)));
                assert(zero_from(p, frame_bytes.len() as int));
            }
        }
        Ok(env)
    }

    fn aad(&self) -> (res: Result<Vec<u8>>)
        ensures
            res matches Ok(v) && v@ == self@.aad(),
            self@.wf(),
            self@.aad().len() == OUTER_FIXED_LEN,
    {
        proof { use_type_invariant(self); }
        let body = self.ciphertext.body();
        encode_aad(self.mailbox, self.message_id, self.expires_at_unix, self.sender_ephemeral, body.len())
    }

    /// Opens an envelope and returns encoded inner frame bytes followed by encrypted padding.
    ///
    /// Returns exactly [`envelope_open_spec`]: [`MefError::EnvelopeExpired`] from the
    /// (exclusive) expiry on,
    /// [`MefError::NonContributoryKeyAgreement`] for a low-order ephemeral key, or the verdict
    /// of XChaCha20-Poly1305 under the envelope key with the header as associated data.
    pub fn open(&self, recipient_delivery_secret: &DhSecretKey, now_unix: u64) -> (res: Result<Vec<u8>>)
        ensures
            bytes_result(&res) == envelope_open_spec(self@, recipient_delivery_secret@, now_unix),
    {
        if now_unix >= self.expires_at_unix {
            return Err(MefError::EnvelopeExpired);
        }
        let shared = recipient_delivery_secret.diffie_hellman(self.sender_ephemeral)?;
        proof {
            reveal_strlit("outer-envelope-v1");
            crate::crypto::lemma_ascii_label_len(OUTER_LABEL);
        }
        let mailbox_bytes = self.mailbox.to_bytes();
        let key = derive_aead_key(&mailbox_bytes, OUTER_LABEL, &shared)?;
        let aad = self.aad()?;
        open(&key, &self.ciphertext, aad.as_slice())
    }

    /// Opens one canonical inner frame and rejects nonzero or malformed authenticated padding.
    ///
    /// Returns exactly [`envelope_open_inner_spec`].
    pub fn open_inner(&self, recipient_delivery_secret: &DhSecretKey, now_unix: u64) -> (res: Result<InnerFrame>)
        ensures
            (match res {
                Ok(f) => envelope_open_inner_spec(self@, recipient_delivery_secret@, now_unix) == Ok::<InnerFrameView, MefError>(f@),
                Err(e) => envelope_open_inner_spec(self@, recipient_delivery_secret@, now_unix) == Err::<InnerFrameView, MefError>(e),
            }),
    {
        let plaintext = self.open(recipient_delivery_secret, now_unix)?;
        let (frame, consumed) = InnerFrame::decode_prefix(plaintext.as_slice())?;
        let mut i = consumed;
        while i < plaintext.len()
            invariant
                consumed <= i <= plaintext@.len(),
                forall|j: int| consumed <= j < i ==> plaintext@[j] == 0u8,
                envelope_open_spec(self@, recipient_delivery_secret@, now_unix) == Ok::<Seq<u8>, MefError>(plaintext@),
                decode_prefix_spec(plaintext@) == Ok::<(InnerFrameView, nat), MefError>((frame@, consumed as nat)),
            decreases plaintext@.len() - i,
        {
            if plaintext[i] != 0 {
                assert(!zero_from(plaintext@, consumed as int));
                return Err(MefError::InvalidFrame);
            }
            i = i + 1;
        }
        Ok(frame)
    }

    /// Opens one inner frame and records its authenticated transport identifier against replay.
    ///
    /// The cache is consulted and updated only after [`Self::open_inner`] succeeds; then the
    /// result and the new cache are exactly [`replay_step`] for the envelope's identifier.
    pub fn open_inner_once(&self, recipient_delivery_secret: &DhSecretKey, now_unix: u64, replay_cache: &mut ReplayCache) -> (res: Result<InnerFrame>)
        ensures
            (match envelope_open_inner_spec(self@, recipient_delivery_secret@, now_unix) {
                Err(e) => res == Err::<InnerFrame, MefError>(e) && final(replay_cache)@ == old(replay_cache)@,
                Ok(f) => {
                    let step = replay_step(old(replay_cache)@, self@.message_id, self@.expires_at_unix, now_unix);
                    &&& final(replay_cache)@ == step.0
                    &&& (match res {
                        Ok(g) => step.1 is Ok && g@ == f,
                        Err(e) => step.1 == Err::<(), MefError>(e),
                    })
                },
            }),
    {
        let frame = self.open_inner(recipient_delivery_secret, now_unix)?;
        replay_cache.check_and_insert(self.message_id, self.expires_at_unix, now_unix)?;
        Ok(frame)
    }

    /// Constructs an envelope from parsed and validated wire components.
    ///
    /// Returns [`MefError::InvalidFrame`] exactly when the ciphertext does not use
    /// XChaCha20-Poly1305.
    pub fn from_ciphertext(
        mailbox: MailboxCapability,
        message_id: TransportMessageId,
        expires_at_unix: u64,
        sender_ephemeral: DhPublicKey,
        ciphertext: Ciphertext,
    ) -> (res: Result<Self>)
        ensures
            res is Ok <==> ciphertext@.suite == AeadSuite::XChaCha20Poly1305,
            res matches Err(e) ==> e == MefError::InvalidFrame,
            res matches Ok(env) ==> env@ == (OuterEnvelopeView {
                mailbox: mailbox@,
                message_id: message_id@,
                expires_at_unix,
                sender_ephemeral: sender_ephemeral@,
                ciphertext: ciphertext@,
            }),
            res matches Ok(env) ==> env@.wf(),
    {
        if ciphertext.suite() != AeadSuite::XChaCha20Poly1305 {
            return Err(MefError::InvalidFrame);
        }
        let aad = encode_aad(mailbox, message_id, expires_at_unix, sender_ephemeral, ciphertext.body().len())?;
        if aad.len() != OUTER_FIXED_LEN {
            return Err(MefError::InvalidFrame);
        }
        Ok(OuterEnvelope { mailbox, message_id, expires_at_unix, sender_ephemeral, ciphertext })
    }

    /// Returns recipient routing capability required for queued delivery.
    pub fn mailbox(&self) -> (m: MailboxCapability)
        ensures
            m@ == self@.mailbox,
    {
        self.mailbox
    }

    /// Returns opaque replay identifier.
    pub fn message_id(&self) -> (id: TransportMessageId)
        ensures
            id@ == self@.message_id,
    {
        self.message_id
    }

    /// Returns exclusive envelope expiration timestamp in Unix seconds.
    pub fn expires_at_unix(&self) -> (t: u64)
        ensures
            t == self@.expires_at_unix,
    {
        self.expires_at_unix
    }

    /// Returns the complete canonical outer-envelope wire encoding; always succeeds.
    pub fn encode(&self) -> (res: Result<Vec<u8>>)
        ensures
            res matches Ok(b) && b@ == self@.bytes(),
            self@.wf(),
    {
        let mut output = self.aad()?;
        extend_bytes(&mut output, self.ciphertext.nonce());
        extend_bytes(&mut output, self.ciphertext.body());
        Ok(output)
    }

    /// Parses a complete canonical envelope and rejects malformed or trailing data.
    ///
    /// Returns exactly [`envelope_decode_spec`] of the input.
    pub fn decode(bytes: &[u8]) -> (res: Result<Self>)
        ensures
            (match res {
                Ok(env) => envelope_decode_spec(bytes@) == Ok::<OuterEnvelopeView, MefError>(env@),
                Err(e) => envelope_decode_spec(bytes@) == Err::<OuterEnvelopeView, MefError>(e),
            }),
    {
        if bytes.len() < OUTER_FIXED_LEN || bytes.len() > MAX_CIPHERTEXT_LEN + (OUTER_FIXED_LEN + 24) {
            return Err(MefError::InvalidFrame);
        }
        if !(bytes[0] == 0x4d && bytes[1] == 0x45 && bytes[2] == 0x4f) || bytes[3] != 1 {
            return Err(MefError::InvalidFrame);
        }
        let suite = AeadSuite::from_id(bytes[4])?;
        if suite != AeadSuite::XChaCha20Poly1305 {
            return Err(MefError::InvalidFrame);
        }
        let mailbox = MailboxCapability::from_bytes(copy_array::<32>(bytes, 5));
        let message_id = TransportMessageId::from_bytes(copy_array::<16>(bytes, 37));
        let expires_at_unix = read_u64_be(bytes, 53);
        let sender_ephemeral = DhPublicKey::from_bytes(copy_array::<32>(bytes, 61));
        let nonce_len = bytes[93] as usize;
        let body_len = read_u32_be(bytes, 94) as usize;
        if nonce_len != 24 || body_len < AEAD_TAG_LEN || body_len > MAX_CIPHERTEXT_LEN {
            return Err(MefError::InvalidFrame);
        }
        let expected = OUTER_FIXED_LEN + nonce_len + body_len;
        if bytes.len() != expected {
            return Err(MefError::InvalidFrame);
        }
        let nonce_end = OUTER_FIXED_LEN + nonce_len;
        let ciphertext = Ciphertext::from_parts(
            AeadSuite::XChaCha20Poly1305,
            copy_range(bytes, OUTER_FIXED_LEN, nonce_end),
            copy_range(bytes, nonce_end, bytes.len()),
        )?;
        Self::from_ciphertext(mailbox, message_id, expires_at_unix, sender_ephemeral, ciphertext)
    }
}

} // verus!

verus! {

/// Decoding a well-formed envelope's canonical encoding recovers the envelope.
pub proof fn lemma_envelope_round_trip(env: OuterEnvelopeView)
    requires
        env.wf(),
    ensures
        envelope_decode_spec(env.bytes()) == Ok::<OuterEnvelopeView, MefError>(env),
{
    let b = env.bytes();
    let c = env.ciphertext;
    crate::bytes::lemma_u64_be_roundtrip(env.expires_at_unix);
    crate::bytes::lemma_u32_be_roundtrip(c.body.len() as u32);
    assert(b.subrange(0, 98) =~= env.aad());
    assert(b.subrange(5, 37) =~= env.mailbox);
    assert(b.subrange(37, 53) =~= env.message_id);
    assert(b.subrange(53, 61) =~= u64_be(env.expires_at_unix));
    assert(b.subrange(61, 93) =~= env.sender_ephemeral);
    assert(b.subrange(94, 98) =~= u32_be(c.body.len() as u32));
    assert(b.subrange(98, 122) =~= c.nonce);
    assert(b.subrange(122, b.len() as int) =~= c.body);
    match envelope_decode_spec(b) {
        Ok(g) => {
            assert(g.ciphertext =~= c);
            assert(g =~= env);
        },
        Err(_) => {},
    }
}

/// Whatever the envelope decoder accepts is canonical: re-encoding gives back the input.
pub proof fn lemma_envelope_decode_canonical(b: Seq<u8>)
    requires
        envelope_decode_spec(b) is Ok,
    ensures
        envelope_decode_spec(b).unwrap().bytes() == b,
        envelope_decode_spec(b).unwrap().wf(),
{
    let env = envelope_decode_spec(b).unwrap();
    crate::bytes::lemma_u32_of_be_canonical(b.subrange(94, 98));
    assert(u64_be(u64_of_be(b.subrange(53, 61))) =~= b.subrange(53, 61)) by {
        crate::bytes::lemma_u64_of_be_canonical(b.subrange(53, 61));
    }
    assert(env.bytes() =~= b);
}

/// Opening the same envelope a second time, at any time before its expiry, after a successful
/// once-only opening is rejected as a replay.
pub proof fn lemma_envelope_replay_rejected(env: OuterEnvelopeView, secret: Seq<u8>, cache: ReplayCacheView, now_unix: u64, later_unix: u64)
    requires
        envelope_open_inner_spec(env, secret, now_unix) is Ok,
        replay_step(cache, env.message_id, env.expires_at_unix, now_unix).1 is Ok,
        later_unix < env.expires_at_unix,
    ensures
        envelope_open_inner_spec(env, secret, later_unix) == envelope_open_inner_spec(env, secret, now_unix),
        replay_step(replay_step(cache, env.message_id, env.expires_at_unix, now_unix).0, env.message_id, env.expires_at_unix, later_unix).1
            == Err::<(), MefError>(MefError::ReplayDetected),
{
    super::replay::lemma_replay_rejected(cache, env.message_id, env.expires_at_unix, now_unix, env.expires_at_unix, later_unix);
}

} // verus!
