//! Authenticated asynchronous X25519 prekey handshake profile.
//!
//! A conventional prekey profile for initializing the ratchet. It is classical only: no
//! post-quantum key encapsulation is composed here.
use vstd::prelude::*;

use vstd::string::StringSliceAdditionalSpecFns;

use crate::bytes::{
    copy_array, extend_bytes, push_u32_be, push_u64_be, read_u32_be, read_u64_be, u32_be,
    u32_of_be, u64_be, u64_of_be,
};
use crate::crypto::{blake3, blake3_id, blake3_id_input, derive_secret, kdf, lemma_secret_len, parts_view, Secret};
use crate::envelope::zeros;
use crate::keys::{
    agrees_symmetrically, ed25519_key_valid, ed25519_public, ed25519_sign, ed25519_verify, lemma_dh_pair_len,
    lemma_dh_public_len, lemma_identity_public_len, lemma_identity_seed_len, lemma_signed_prekey_len, prekey_transcript, prekey_verification,
    verification, x25519_agree, x25519_public, DhKeyPair, DhPublicKey, DhSecretKey,
    IdentityKeyPair, IdentityPublicKey, SignedPrekey, SignedPrekeyView, DH_KEY_LEN,
};
use crate::ratchet::RatchetRole;
use crate::{MefError, Result};

verus! {

broadcast use {lemma_dh_pair_len, lemma_dh_public_len, lemma_identity_public_len, lemma_identity_seed_len, lemma_secret_len, lemma_signed_prekey_len};

/// Length of a canonical initiator handshake message.
pub const HANDSHAKE_MESSAGE_LEN: usize = 205;

/// Length of a canonical responder prekey bundle.
pub const BUNDLE_LEN: usize = 277;

/// Label of the identifier binding a handshake transcript into a session identifier.
pub const SESSION_LABEL: &'static str = "handshake-session-v1";

/// Label of the root secret derived from the handshake agreements.
pub const HANDSHAKE_ROOT_LABEL: &'static str = "handshake-x3dh-root-v1";

/// The handshake message magic "MEH".
pub open spec fn handshake_magic() -> Seq<u8> {
    seq![0x4du8, 0x45u8, 0x48u8]
}

/// The prekey bundle magic "MEB".
pub open spec fn bundle_magic() -> Seq<u8> {
    seq![0x4du8, 0x45u8, 0x42u8]
}

/// The bytes of the identity binding label "handshake-identity-dh-v1".
pub open spec fn identity_binding_label() -> Seq<u8> {
    seq![
        0x68u8, 0x61u8, 0x6eu8, 0x64u8, 0x73u8, 0x68u8, 0x61u8, 0x6bu8, 0x65u8, 0x2du8, 0x69u8,
        0x64u8, 0x65u8, 0x6eu8, 0x74u8, 0x69u8, 0x74u8, 0x79u8, 0x2du8, 0x64u8, 0x68u8, 0x2du8,
        0x76u8, 0x31u8,
    ]
}

/// The transcript signed to bind an X25519 identity key to an Ed25519 identity.
pub open spec fn binding_transcript(dh: Seq<u8>) -> Seq<u8> {
    identity_binding_label() + seq![0u8] + dh
}

/// The abstract content of a bound identity record.
pub struct IdentityDhPublicView {
    /// The Ed25519 identity key.
    pub signing: Seq<u8>,
    /// The X25519 identity key.
    pub dh: Seq<u8>,
    /// The signature binding the two.
    pub signature: Seq<u8>,
}

impl IdentityDhPublicView {
    /// Every field has its wire length.
    pub open spec fn wf(self) -> bool {
        self.signing.len() == 32 && self.dh.len() == 32 && self.signature.len() == 64
    }
}

/// What verifying a bound identity record returns.
pub open spec fn identity_verification(identity: IdentityDhPublicView) -> core::result::Result<(), MefError> {
    verification(identity.signing, binding_transcript(identity.dh), identity.signature)
}

/// The wire form of a bound identity record: signing key, X25519 key, signature.
pub open spec fn identity_wire(identity: IdentityDhPublicView) -> Seq<u8> {
    identity.signing + identity.dh + identity.signature
}

/// The abstract content of a local identity: the Ed25519 seed and the X25519 secret.
pub struct LocalIdentityView {
    /// The Ed25519 signing seed.
    pub signing_seed: Seq<u8>,
    /// The X25519 identity secret.
    pub dh_secret: Seq<u8>,
}

/// The public identity record of a local identity.
pub open spec fn identity_public_of(identity: LocalIdentityView) -> IdentityDhPublicView {
    let dh = x25519_public(identity.dh_secret);
    IdentityDhPublicView {
        signing: ed25519_public(identity.signing_seed),
        dh,
        signature: ed25519_sign(identity.signing_seed, binding_transcript(dh)),
    }
}

impl LocalIdentityView {
    /// The secrets have their lengths, the signing key's public half decodes and the X25519
    /// agreement of the identity secret is symmetric.
    pub open spec fn wf(self) -> bool {
        &&& self.signing_seed.len() == 32
        &&& self.dh_secret.len() == DH_KEY_LEN
        &&& identity_public_of(self).wf()
        &&& ed25519_key_valid(ed25519_public(self.signing_seed))
        &&& agrees_symmetrically(self.dh_secret, x25519_public(self.dh_secret))
    }
}

fn identity_binding_transcript(dh: DhPublicKey) -> (out: Vec<u8>)
    ensures
        out@ == binding_transcript(dh@),
{
    let label: [u8; 24] = [
        0x68, 0x61, 0x6e, 0x64, 0x73, 0x68, 0x61, 0x6b, 0x65, 0x2d, 0x69, 0x64, 0x65, 0x6e, 0x74,
        0x69, 0x74, 0x79, 0x2d, 0x64, 0x68, 0x2d, 0x76, 0x31,
    ];
    assert(label@ =~= identity_binding_label());
    let mut out: Vec<u8> = Vec::new();
    extend_bytes(&mut out, &label);
    out.push(0);
    let bytes = dh.to_bytes();
    extend_bytes(&mut out, &bytes);
    assert(out@ =~= binding_transcript(dh@));
    out
}

/// A signing identity, X25519 identity key and signature binding the two together.
#[derive(Debug, Clone, Copy, PartialEq, Eq)]
pub struct IdentityDhPublic {
    signing: IdentityPublicKey,
    dh: DhPublicKey,
    signature: [u8; 64],
}

impl View for IdentityDhPublic {
    type V = IdentityDhPublicView;

    closed spec fn view(&self) -> IdentityDhPublicView {
        IdentityDhPublicView { signing: self.signing@, dh: self.dh@, signature: self.signature@ }
    }
}

impl IdentityDhPublic {
    /// Returns the Ed25519 identity key used to sign this record.
    pub fn signing_identity(self) -> (key: IdentityPublicKey)
        ensures
            key@ == self@.signing,
    {
        self.signing
    }

    /// Returns the X25519 identity key used by the handshake.
    pub fn dh_identity(self) -> (key: DhPublicKey)
        ensures
            key@ == self@.dh,
    {
        self.dh
    }

    /// Verifies the signature binding the Ed25519 and X25519 identities.
    ///
    /// Returns exactly [`identity_verification`]: [`MefError::AuthenticationFailed`] for an
    /// invalid binding.
    pub fn verify(&self) -> (res: Result<()>)
        ensures
            res == identity_verification(self@),
    {
        let transcript = identity_binding_transcript(self.dh);
        self.signing.verify(transcript.as_slice(), &self.signature)
    }
}

fn identity_public_wire(identity: IdentityDhPublic) -> (out: Vec<u8>)
    ensures
        out@ == identity_wire(identity@),
{
    let mut out: Vec<u8> = Vec::new();
    let signing = identity.signing.to_bytes();
    extend_bytes(&mut out, &signing);
    let dh = identity.dh.to_bytes();
    extend_bytes(&mut out, &dh);
    extend_bytes(&mut out, &identity.signature);
    assert(out@ =~= identity_wire(identity@));
    out
}

/// A local long-term identity with separate signing and X25519 authentication keys.
pub struct LocalIdentity {
    signing: IdentityKeyPair,
    dh: DhKeyPair,
    binding_signature: [u8; 64],
}

impl View for LocalIdentity {
    type V = LocalIdentityView;

    closed spec fn view(&self) -> LocalIdentityView {
        LocalIdentityView { signing_seed: self.signing@, dh_secret: self.dh@ }
    }
}

impl LocalIdentity {
    #[verifier::type_invariant]
    spec fn inv(self) -> bool {
        &&& self.binding_signature@ == identity_public_of(self@).signature
        &&& self@.wf()
    }

    /// Establishes for proofs that every local identity is well formed; does nothing at run
    /// time.
    pub fn check_wf(&self)
        ensures
            self@.wf(),
    {
        proof { use_type_invariant(self); }
    }

    /// Generates a fresh local identity using the operating-system CSPRNG.
    ///
    /// Fails only with [`MefError::RandomnessUnavailable`].
    pub fn generate() -> (res: Result<Self>)
        ensures
            res matches Err(e) ==> e == MefError::RandomnessUnavailable,
    {
        let signing = IdentityKeyPair::generate()?;
        let dh = DhKeyPair::generate()?;
        let public = dh.public();
        let transcript = identity_binding_transcript(public);
        let binding_signature = signing.sign(transcript.as_slice());
        let signing_public = signing.public();
        assert(signing_public@.len() == 32);
        Ok(LocalIdentity { signing, dh, binding_signature })
    }

    /// Returns the public identity record authenticated by the local signing key.
    pub fn public(&self) -> (record: IdentityDhPublic)
        ensures
            record@ == identity_public_of(self@),
    {
        proof { use_type_invariant(self); }
        IdentityDhPublic { signing: self.signing.public(), dh: self.dh.public(), signature: self.binding_signature }
    }
}

} // verus!

verus! {

/// Public one-time X25519 prekey included in a responder prekey bundle; its view is the
/// identifier and the public key.
#[derive(Debug, Clone, Copy, PartialEq, Eq)]
pub struct OneTimePrekeyPublic {
    id: u32,
    public: DhPublicKey,
}

impl View for OneTimePrekeyPublic {
    type V = (u32, Seq<u8>);

    closed spec fn view(&self) -> (u32, Seq<u8>) {
        (self.id, self.public@)
    }
}

impl OneTimePrekeyPublic {
    /// Returns the stable server-side prekey identifier.
    pub fn id(self) -> (id: u32)
        ensures
            id == self@.0,
    {
        self.id
    }

    /// Returns the X25519 public key.
    pub fn public(self) -> (public: DhPublicKey)
        ensures
            public@ == self@.1,
    {
        self.public
    }
}

/// The abstract content of a responder prekey bundle.
pub struct BundleView {
    /// The responder's bound identity record.
    pub identity: IdentityDhPublicView,
    /// The responder's signed prekey record.
    pub signed_prekey: SignedPrekeyView,
    /// The optional one-time prekey: identifier and public key.
    pub one_time_prekey: Option<(u32, Seq<u8>)>,
}

impl BundleView {
    /// Every key and signature has its wire length.
    pub open spec fn wf(self) -> bool {
        &&& self.identity.wf()
        &&& self.signed_prekey.public.len() == 32
        &&& self.signed_prekey.signature.len() == 64
        &&& (self.one_time_prekey matches Some(ot) ==> ot.1.len() == 32)
    }
}

/// The wire form of an optional one-time prekey: a presence flag, the identifier and the key,
/// all zero when absent.
pub open spec fn one_time_wire(one_time_prekey: Option<(u32, Seq<u8>)>) -> Seq<u8> {
    match one_time_prekey {
        Some(ot) => seq![1u8] + u32_be(ot.0) + ot.1,
        None => seq![0u8] + zeros(36),
    }
}

/// The canonical encoding of a prekey bundle.
pub open spec fn bundle_bytes(b: BundleView) -> Seq<u8> {
    bundle_magic() + seq![1u8] + identity_wire(b.identity) + u32_be(b.signed_prekey.key_id)
        + b.signed_prekey.public + u64_be(b.signed_prekey.expires_at_unix) + b.signed_prekey.signature
        + one_time_wire(b.one_time_prekey)
}

/// What verifying a bundle at `now_unix` returns: the identity binding, then the signed prekey.
pub open spec fn bundle_verification(b: BundleView, now_unix: u64) -> core::result::Result<(), MefError> {
    match identity_verification(b.identity) {
        Err(e) => Err(e),
        Ok(_) => prekey_verification(b.identity.signing, b.signed_prekey, now_unix),
    }
}

/// What [`ResponderPrekeyBundle::decode`] returns for `b`.
pub open spec fn bundle_decode_spec(b: Seq<u8>) -> core::result::Result<BundleView, MefError> {
    if b.len() != BUNDLE_LEN || !(b.subrange(0, 3) == bundle_magic()) || b[3] != 1u8 {
        Err(MefError::InvalidFrame)
    } else if !ed25519_key_valid(b.subrange(4, 36)) {
        Err(MefError::InvalidFrame)
    } else {
        let identity = IdentityDhPublicView { signing: b.subrange(4, 36), dh: b.subrange(36, 68), signature: b.subrange(68, 132) };
        match identity_verification(identity) {
            Err(e) => Err(e),
            Ok(_) => {
                let signed_prekey = SignedPrekeyView {
                    key_id: u32_of_be(b.subrange(132, 136)),
                    public: b.subrange(136, 168),
                    expires_at_unix: u64_of_be(b.subrange(168, 176)),
                    signature: b.subrange(176, 240),
                };
                if b[240] == 0u8 {
                    if b.subrange(241, 277) == zeros(36) {
                        Ok(BundleView { identity, signed_prekey, one_time_prekey: None })
                    } else {
                        Err(MefError::InvalidFrame)
                    }
                } else if b[240] == 1u8 {
                    Ok(BundleView { identity, signed_prekey, one_time_prekey: Some((u32_of_be(b.subrange(241, 245)), b.subrange(245, 277))) })
                } else {
                    Err(MefError::InvalidFrame)
                }
            },
        }
    }
}

/// The encoding of zero is four zero bytes.
proof fn lemma_u32_be_zero()
    ensures
        u32_be(0u32) == zeros(4),
{
    assert((0u32 >> 24u32) as u8 == 0u8 && (0u32 >> 16u32) as u8 == 0u8 && (0u32 >> 8u32) as u8 == 0u8 && 0u32 as u8 == 0u8) by (bit_vector);
    assert(u32_be(0u32) =~= zeros(4));
}

/// `bytes[start..end]` is all zero.
fn all_zero(bytes: &[u8], start: usize, end: usize) -> (zero: bool)
    requires
        start <= end <= bytes@.len(),
    ensures
        zero == (bytes@.subrange(start as int, end as int) == zeros((end - start) as nat)),
{
    let mut i = start;
    while i < end
        invariant
            start <= i <= end,
            end <= bytes@.len(),
            forall|j: int| start <= j < i ==> bytes@[j] == 0u8,
        decreases end - i,
    {
        if bytes[i] != 0 {
            assert(bytes@.subrange(start as int, end as int)[i - start] != zeros((end - start) as nat)[i - start]);
            return false;
        }
        i = i + 1;
    }
    assert(bytes@.subrange(start as int, end as int) =~= zeros((end - start) as nat));
    true
}

/// A responder prekey bundle suitable for an asynchronous initiator.
#[derive(Debug, Clone, PartialEq, Eq)]
pub struct ResponderPrekeyBundle {
    identity: IdentityDhPublic,
    signed_prekey: SignedPrekey,
    one_time_prekey: Option<OneTimePrekeyPublic>,
}

impl View for ResponderPrekeyBundle {
    type V = BundleView;

    closed spec fn view(&self) -> BundleView {
        BundleView {
            identity: self.identity@,
            signed_prekey: self.signed_prekey@,
            one_time_prekey: match self.one_time_prekey {
                Some(ot) => Some(ot@),
                None => None,
            },
        }
    }
}

impl ResponderPrekeyBundle {
    /// Returns the responder's bound identity record.
    pub fn identity(&self) -> (identity: IdentityDhPublic)
        ensures
            identity@ == self@.identity,
    {
        self.identity
    }

    /// Returns the responder signed prekey record.
    pub fn signed_prekey(&self) -> (record: &SignedPrekey)
        ensures
            record@ == self@.signed_prekey,
    {
        &self.signed_prekey
    }

    /// Returns the optional one-time prekey offered by the delivery service.
    pub fn one_time_prekey(&self) -> (ot: Option<OneTimePrekeyPublic>)
        ensures
            (match ot {
                Some(p) => self@.one_time_prekey == Some(p@),
                None => self@.one_time_prekey is None,
            }),
    {
        self.one_time_prekey
    }

    /// Encodes a canonical public prekey bundle for directory delivery.
    pub fn encode(&self) -> (out: Vec<u8>)
        ensures
            out@ == bundle_bytes(self@),
            out@.len() == BUNDLE_LEN,
            self@.wf(),
    {
        let magic: [u8; 3] = [0x4d, 0x45, 0x42];
        let mut output: Vec<u8> = Vec::new();
        extend_bytes(&mut output, &magic);
        output.push(1);
        let identity = identity_public_wire(self.identity);
        extend_bytes(&mut output, identity.as_slice());
        push_u32_be(&mut output, self.signed_prekey.key_id());
        let public = self.signed_prekey.public().to_bytes();
        extend_bytes(&mut output, &public);
        push_u64_be(&mut output, self.signed_prekey.expires_at_unix());
        let signature = self.signed_prekey.signature();
        extend_bytes(&mut output, &signature);
        let ghost prefix = output@;
        match self.one_time_prekey {
            Some(prekey) => {
                output.push(1);
                push_u32_be(&mut output, prekey.id);
                let key = prekey.public.to_bytes();
                extend_bytes(&mut output, &key);
                assert(output@ =~= prefix + one_time_wire(self@.one_time_prekey));
            },
            None => {
                output.push(0);
                push_u32_be(&mut output, 0);
                let zero: [u8; 32] = [0u8; 32];
                extend_bytes(&mut output, &zero);
                proof { lemma_u32_be_zero(); }
                assert(output@ =~= prefix + one_time_wire(self@.one_time_prekey));
            },
        }
        assert(magic@ =~= bundle_magic());
        assert(output@ =~= bundle_bytes(self@));
        output
    }

    /// Decodes one complete canonical public prekey bundle from a directory service.
    ///
    /// Returns exactly [`bundle_decode_spec`]: [`MefError::InvalidFrame`] for malformed or
    /// noncanonical encoding, and the verdict of [`identity_verification`] for the identity
    /// binding.
    pub fn decode(bytes: &[u8]) -> (res: Result<Self>)
        ensures
            (match res {
                Ok(b) => bundle_decode_spec(bytes@) == Ok::<BundleView, MefError>(b@),
                Err(e) => bundle_decode_spec(bytes@) == Err::<BundleView, MefError>(e),
            }),
    {
        if bytes.len() != BUNDLE_LEN || !(bytes[0] == 0x4d && bytes[1] == 0x45 && bytes[2] == 0x42) || bytes[3] != 1 {
            proof {
                if bytes@.len() == BUNDLE_LEN && bytes@.subrange(0, 3) == bundle_magic() {
                    assert(bytes@.subrange(0, 3)[0] == bytes@[0] && bytes@.subrange(0, 3)[1] == bytes@[1] && bytes@.subrange(0, 3)[2] == bytes@[2]);
                }
            }
            return Err(MefError::InvalidFrame);
        }
        assert(bytes@.subrange(0, 3) =~= bundle_magic());
        let signing = IdentityPublicKey::from_bytes(copy_array::<32>(bytes, 4))?;
        let dh = DhPublicKey::from_bytes(copy_array::<32>(bytes, 36));
        let signature = copy_array::<64>(bytes, 68);
        let identity = IdentityDhPublic { signing, dh, signature };
        identity.verify()?;
        let signed_prekey = SignedPrekey::from_parts(
            read_u32_be(bytes, 132),
            DhPublicKey::from_bytes(copy_array::<32>(bytes, 136)),
            read_u64_be(bytes, 168),
            copy_array::<64>(bytes, 176),
        );
        let one_time_prekey = if bytes[240] == 0 {
            if !all_zero(bytes, 241, 277) {
                return Err(MefError::InvalidFrame);
            }
            None
        } else if bytes[240] == 1 {
            Some(OneTimePrekeyPublic { id: read_u32_be(bytes, 241), public: DhPublicKey::from_bytes(copy_array::<32>(bytes, 245)) })
        } else {
            return Err(MefError::InvalidFrame);
        };
        Ok(ResponderPrekeyBundle { identity, signed_prekey, one_time_prekey })
    }

    /// Verifies identity binding, signed-prekey signature and expiry before use.
    ///
    /// Returns exactly [`bundle_verification`].
    pub fn verify(&self, now_unix: u64) -> (res: Result<()>)
        ensures
            res == bundle_verification(self@, now_unix),
    {
        self.identity.verify()?;
        self.signed_prekey.verify(self.identity.signing_identity(), now_unix)
    }
}

/// Decoding the canonical encoding of a bundle whose identity key decodes and whose binding
/// verifies gives back the bundle.
pub proof fn lemma_bundle_round_trip(b: BundleView)
    requires
        b.wf(),
        ed25519_key_valid(b.identity.signing),
        identity_verification(b.identity) is Ok,
    ensures
        bundle_decode_spec(bundle_bytes(b)) == Ok::<BundleView, MefError>(b),
{
    let bytes = bundle_bytes(b);
    let sp = b.signed_prekey;
    crate::bytes::lemma_u32_be_roundtrip(sp.key_id);
    crate::bytes::lemma_u64_be_roundtrip(sp.expires_at_unix);
    assert(bytes.len() == BUNDLE_LEN);
    assert(bytes.subrange(0, 3) =~= bundle_magic());
    assert(bytes.subrange(4, 36) =~= b.identity.signing);
    assert(bytes.subrange(36, 68) =~= b.identity.dh);
    assert(bytes.subrange(68, 132) =~= b.identity.signature);
    assert(bytes.subrange(132, 136) =~= u32_be(sp.key_id));
    assert(bytes.subrange(136, 168) =~= sp.public);
    assert(bytes.subrange(168, 176) =~= u64_be(sp.expires_at_unix));
    assert(bytes.subrange(176, 240) =~= sp.signature);
    match b.one_time_prekey {
        Some(ot) => {
            crate::bytes::lemma_u32_be_roundtrip(ot.0);
            assert(bytes.subrange(241, 245) =~= u32_be(ot.0));
            assert(bytes.subrange(245, 277) =~= ot.1);
        },
        None => {
            assert(bytes.subrange(241, 277) =~= zeros(36));
        },
    }
    let identity = IdentityDhPublicView { signing: bytes.subrange(4, 36), dh: bytes.subrange(36, 68), signature: bytes.subrange(68, 132) };
    assert(identity == b.identity);
}

/// Whatever the bundle decoder accepts is canonical: re-encoding gives back the input.
pub proof fn lemma_bundle_decode_canonical(bytes: Seq<u8>)
    requires
        bundle_decode_spec(bytes) is Ok,
    ensures
        bundle_bytes(bundle_decode_spec(bytes).unwrap()) == bytes,
        bundle_decode_spec(bytes).unwrap().wf(),
{
    let b = bundle_decode_spec(bytes).unwrap();
    crate::bytes::lemma_u32_of_be_canonical(bytes.subrange(132, 136));
    crate::bytes::lemma_u64_of_be_canonical(bytes.subrange(168, 176));
    if bytes[240] == 1u8 {
        crate::bytes::lemma_u32_of_be_canonical(bytes.subrange(241, 245));
        assert(one_time_wire(b.one_time_prekey) =~= bytes.subrange(240, 277));
    } else {
        assert(one_time_wire(b.one_time_prekey) =~= bytes.subrange(240, 277));
    }
    assert(bundle_bytes(b) =~= bytes);
}

} // verus!

verus! {

/// An X25519 secret of the right length whose agreement is symmetric.
pub open spec fn dh_secret_ok(secret: Seq<u8>) -> bool {
    secret.len() == DH_KEY_LEN && agrees_symmetrically(secret, x25519_public(secret))
}

/// The signed prekey record carries the signature that the identity with this seed makes on
/// its transcript.
pub open spec fn signed_by(seed: Seq<u8>, record: SignedPrekeyView) -> bool {
    &&& record.public.len() == 32
    &&& record.signature.len() == 64
    &&& record.signature == ed25519_sign(seed, prekey_transcript(record.key_id, record.public, record.expires_at_unix))
}

/// Strict verification accepts the material's identity binding and its current signed prekey
/// signature.
pub open spec fn signatures_verify(m: ResponderMaterialView) -> bool {
    &&& identity_verification(identity_public_of(m.identity)) is Ok
    &&& ed25519_verify(
        ed25519_public(m.identity.signing_seed),
        prekey_transcript(m.signed_record.key_id, m.signed_record.public, m.signed_record.expires_at_unix),
        m.signed_record.signature,
    )
}

/// The abstract content of responder prekey material.
pub struct ResponderMaterialView {
    /// The responder's long-term identity.
    pub identity: LocalIdentityView,
    /// The secret of the current signed prekey.
    pub signed_secret: Seq<u8>,
    /// The current signed prekey record.
    pub signed_record: SignedPrekeyView,
    /// Rotated signed prekeys kept for delayed initial messages, with their secrets, oldest first.
    pub retired: Seq<(SignedPrekeyView, Seq<u8>)>,
    /// Unconsumed one-time prekeys: identifier and secret, oldest first.
    pub one_time: Seq<(u32, Seq<u8>)>,
}

impl ResponderMaterialView {
    /// Every secret matches its published key and agrees symmetrically, every record is signed
    /// by the identity, and prekey identifiers are unique.
    pub open spec fn wf(self) -> bool {
        &&& self.identity.wf()
        &&& dh_secret_ok(self.signed_secret)
        &&& self.signed_record.public == x25519_public(self.signed_secret)
        &&& signed_by(self.identity.signing_seed, self.signed_record)
        &&& forall|i: int| 0 <= i < self.retired.len() ==> {
            let r = #[trigger] self.retired[i];
            dh_secret_ok(r.1) && r.0.public == x25519_public(r.1) && signed_by(self.identity.signing_seed, r.0)
                && r.0.key_id != self.signed_record.key_id
        }
        &&& forall|i: int, j: int| 0 <= i < j < self.retired.len() ==> #[trigger] self.retired[i].0.key_id != #[trigger] self.retired[j].0.key_id
        &&& forall|i: int| 0 <= i < self.one_time.len() ==> dh_secret_ok(#[trigger] self.one_time[i].1)
        &&& forall|i: int, j: int| 0 <= i < j < self.one_time.len() ==> #[trigger] self.one_time[i].0 != #[trigger] self.one_time[j].0
    }
}

/// The bundle that responder material publishes.
pub open spec fn bundle_of(m: ResponderMaterialView) -> BundleView {
    BundleView {
        identity: identity_public_of(m.identity),
        signed_prekey: m.signed_record,
        one_time_prekey: if m.one_time.len() > 0 { Some((m.one_time[0].0, x25519_public(m.one_time[0].1))) } else { None },
    }
}

/// `i` is the first unconsumed one-time prekey with identifier `id`.
pub open spec fn is_first_one_time(one_time: Seq<(u32, Seq<u8>)>, id: u32, i: int) -> bool {
    &&& 0 <= i < one_time.len()
    &&& one_time[i].0 == id
    &&& forall|j: int| 0 <= j < i ==> one_time[j].0 != id
}

/// The position of the first unconsumed one-time prekey with identifier `id`.
pub open spec fn one_time_index(one_time: Seq<(u32, Seq<u8>)>, id: u32) -> Option<int> {
    if exists|i: int| is_first_one_time(one_time, id, i) {
        Some(choose|i: int| is_first_one_time(one_time, id, i))
    } else {
        None
    }
}

/// `i` is the first retained signed prekey with identifier `id`.
pub open spec fn is_first_retired(retired: Seq<(SignedPrekeyView, Seq<u8>)>, id: u32, i: int) -> bool {
    &&& 0 <= i < retired.len()
    &&& retired[i].0.key_id == id
    &&& forall|j: int| 0 <= j < i ==> retired[j].0.key_id != id
}

/// The position of the first retained signed prekey with identifier `id`.
pub open spec fn retired_index(retired: Seq<(SignedPrekeyView, Seq<u8>)>, id: u32) -> Option<int> {
    if exists|i: int| is_first_retired(retired, id, i) {
        Some(choose|i: int| is_first_retired(retired, id, i))
    } else {
        None
    }
}

proof fn lemma_first_one_time_unique(one_time: Seq<(u32, Seq<u8>)>, id: u32, i: int)
    requires
        is_first_one_time(one_time, id, i),
    ensures
        one_time_index(one_time, id) == Some(i),
{
    let k = choose|k: int| is_first_one_time(one_time, id, k);
    assert(is_first_one_time(one_time, id, k));
    if k < i {
        assert(one_time[k].0 != id);
    }
    if i < k {
        assert(one_time[i].0 != id);
    }
}

proof fn lemma_first_retired_unique(retired: Seq<(SignedPrekeyView, Seq<u8>)>, id: u32, i: int)
    requires
        is_first_retired(retired, id, i),
    ensures
        retired_index(retired, id) == Some(i),
{
    let k = choose|k: int| is_first_retired(retired, id, k);
    assert(is_first_retired(retired, id, k));
    if k < i {
        assert(retired[k].0.key_id != id);
    }
    if i < k {
        assert(retired[i].0.key_id != id);
    }
}

struct OneTimePrekey {
    public: OneTimePrekeyPublic,
    key: DhKeyPair,
}

/// Responder-held private material for publishing and consuming prekeys.
pub struct ResponderPrekeyMaterial {
    identity: LocalIdentity,
    signed: (SignedPrekey, DhKeyPair),
    retired_signed_prekeys: Vec<(SignedPrekey, DhKeyPair)>,
    one_time_prekeys: Vec<OneTimePrekey>,
}

spec fn retired_view(retired: Seq<(SignedPrekey, DhKeyPair)>) -> Seq<(SignedPrekeyView, Seq<u8>)> {
    Seq::new(retired.len(), |i: int| (retired[i].0@, retired[i].1@))
}

spec fn one_time_view(one_time: Seq<OneTimePrekey>) -> Seq<(u32, Seq<u8>)> {
    Seq::new(one_time.len(), |i: int| (one_time[i].public.id, one_time[i].key@))
}

impl View for ResponderPrekeyMaterial {
    type V = ResponderMaterialView;

    closed spec fn view(&self) -> ResponderMaterialView {
        ResponderMaterialView {
            identity: self.identity@,
            signed_secret: self.signed.1@,
            signed_record: self.signed.0@,
            retired: retired_view(self.retired_signed_prekeys@),
            one_time: one_time_view(self.one_time_prekeys@),
        }
    }
}

impl ResponderPrekeyMaterial {
    #[verifier::type_invariant]
    spec fn inv(self) -> bool {
        &&& self@.wf()
        &&& forall|i: int| 0 <= i < self.one_time_prekeys@.len()
            ==> (#[trigger] self.one_time_prekeys@[i]).public.public@ == x25519_public(self.one_time_prekeys@[i].key@)
    }

    /// Establishes for proofs that all responder material is well formed; does nothing at run
    /// time.
    pub fn check_wf(&self)
        ensures
            self@.wf(),
    {
        proof { use_type_invariant(self); }
    }

    /// Creates private responder material and an initial signed prekey.
    ///
    /// Fails only with [`MefError::RandomnessUnavailable`]. The material holds no one-time and
    /// no retained prekeys, and its signed prekey record is the one its fresh identity issues
    /// for its fresh prekey secret with the given identifier and expiry.
    pub fn generate(signed_prekey_id: u32, expires_at_unix: u64) -> (res: Result<Self>)
        ensures
            res matches Err(e) ==> e == MefError::RandomnessUnavailable,
            res matches Ok(m) ==> m@.signed_record == issued_record(m@.identity.signing_seed, signed_prekey_id, m@.signed_secret, expires_at_unix)
                && m@.retired.len() == 0 && m@.one_time.len() == 0,
            res matches Ok(m) ==> m@.signed_record.key_id == signed_prekey_id && m@.signed_record.expires_at_unix == expires_at_unix
                && m@.signed_record.public == x25519_public(m@.signed_secret),
    {
        let identity = LocalIdentity::generate()?;
        let key = DhKeyPair::generate()?;
        identity.check_wf();
        let public = key.public();
        let record = SignedPrekey::issue(&identity.signing, signed_prekey_id, public, expires_at_unix);
        let retired_signed_prekeys: Vec<(SignedPrekey, DhKeyPair)> = Vec::new();
        let one_time_prekeys: Vec<OneTimePrekey> = Vec::new();
        proof {
            assert(retired_view(retired_signed_prekeys@).len() == 0);
            assert(one_time_view(one_time_prekeys@).len() == 0);
        }
        let material = ResponderPrekeyMaterial {
            identity,
            signed: (record, key),
            retired_signed_prekeys,
            one_time_prekeys,
        };
        proof {
            assert(material@.retired =~= Seq::<(SignedPrekeyView, Seq<u8>)>::empty());
            assert(material@.one_time =~= Seq::<(u32, Seq<u8>)>::empty());
        }
        Ok(material)
    }

    /// Returns the current public bundle, including the oldest available one-time prekey.
    ///
    /// The bundle is [`bundle_of`] the material. Where strict verification accepts the
    /// material's signatures, the bundle verifies at every time before the signed prekey's
    /// (exclusive) expiry.
    pub fn bundle(&self) -> (b: ResponderPrekeyBundle)
        ensures
            b@ == bundle_of(self@),
            signatures_verify(self@) ==> forall|now: u64| now < self@.signed_record.expires_at_unix
                ==> #[trigger] bundle_verification(b@, now) == Ok::<(), MefError>(()),
    {
        proof { use_type_invariant(self); }
        let one_time_prekey = if self.one_time_prekeys.len() > 0 {
            let entry = &self.one_time_prekeys[0];
            Some(entry.public)
        } else {
            None
        };
        let b = ResponderPrekeyBundle { identity: self.identity.public(), signed_prekey: self.signed.0, one_time_prekey };
        assert(b@ == bundle_of(self@));
        b
    }

    /// Returns the number of unconsumed one-time prekeys.
    pub fn available_one_time_prekeys(&self) -> (n: usize)
        ensures
            n == self@.one_time.len(),
    {
        self.one_time_prekeys.len()
    }
}

/// The material after adding a one-time prekey with identifier `id` and secret `secret`.
pub open spec fn with_one_time(m: ResponderMaterialView, id: u32, secret: Seq<u8>) -> ResponderMaterialView {
    ResponderMaterialView { one_time: m.one_time.push((id, secret)), ..m }
}

/// The signed prekey record that the identity with this seed issues for a prekey secret.
pub open spec fn issued_record(seed: Seq<u8>, id: u32, secret: Seq<u8>, expires_at_unix: u64) -> SignedPrekeyView {
    let public = x25519_public(secret);
    SignedPrekeyView {
        key_id: id,
        public,
        expires_at_unix,
        signature: ed25519_sign(seed, prekey_transcript(id, public, expires_at_unix)),
    }
}

/// The material after rotating to a new signed prekey: the current one is retained.
pub open spec fn rotated_material(m: ResponderMaterialView, id: u32, secret: Seq<u8>, expires_at_unix: u64) -> ResponderMaterialView {
    ResponderMaterialView {
        signed_secret: secret,
        signed_record: issued_record(m.identity.signing_seed, id, secret, expires_at_unix),
        retired: m.retired.push((m.signed_record, m.signed_secret)),
        ..m
    }
}

/// After a rotation the published bundle offers the new signed prekey: its identifier and
/// expiry are the ones asked for and its key is the public key of the new secret, while the
/// identity and the offered one-time prekey stay the same.
pub proof fn lemma_rotation_publishes(m: ResponderMaterialView, id: u32, secret: Seq<u8>, expires_at_unix: u64)
    ensures
        bundle_of(rotated_material(m, id, secret, expires_at_unix)).signed_prekey.key_id == id,
        bundle_of(rotated_material(m, id, secret, expires_at_unix)).signed_prekey.expires_at_unix == expires_at_unix,
        bundle_of(rotated_material(m, id, secret, expires_at_unix)).signed_prekey.public == x25519_public(secret),
        bundle_of(rotated_material(m, id, secret, expires_at_unix)).identity == bundle_of(m).identity,
        bundle_of(rotated_material(m, id, secret, expires_at_unix)).one_time_prekey == bundle_of(m).one_time_prekey,
{
}

/// The identifier is the current signed prekey's or a retained one's.
pub open spec fn signed_id_taken(m: ResponderMaterialView, id: u32) -> bool {
    id == m.signed_record.key_id || retired_index(m.retired, id) is Some
}

impl ResponderPrekeyMaterial {
    fn find_one_time(&self, id: u32) -> (index: Option<usize>)
        ensures
            (match index {
                Some(i) => one_time_index(self@.one_time, id) == Some(i as int),
                None => one_time_index(self@.one_time, id) is None
                    && forall|j: int| 0 <= j < self@.one_time.len() ==> self@.one_time[j].0 != id,
            }),
    {
        let ghost v = self@.one_time;
        let mut i: usize = 0;
        while i < self.one_time_prekeys.len()
            invariant
                i <= self.one_time_prekeys@.len(),
                v == one_time_view(self.one_time_prekeys@),
                forall|j: int| 0 <= j < i ==> v[j].0 != id,
            decreases self.one_time_prekeys@.len() - i,
        {
            if self.one_time_prekeys[i].public.id == id {
                proof { lemma_first_one_time_unique(v, id, i as int); }
                return Some(i);
            }
            i = i + 1;
        }
        assert(!exists|k: int| is_first_one_time(v, id, k));
        None
    }

    fn find_retired(&self, id: u32) -> (index: Option<usize>)
        ensures
            (match index {
                Some(i) => retired_index(self@.retired, id) == Some(i as int),
                None => retired_index(self@.retired, id) is None
                    && forall|j: int| 0 <= j < self@.retired.len() ==> self@.retired[j].0.key_id != id,
            }),
    {
        let ghost v = self@.retired;
        let mut i: usize = 0;
        while i < self.retired_signed_prekeys.len()
            invariant
                i <= self.retired_signed_prekeys@.len(),
                v == retired_view(self.retired_signed_prekeys@),
                forall|j: int| 0 <= j < i ==> v[j].0.key_id != id,
            decreases self.retired_signed_prekeys@.len() - i,
        {
            if self.retired_signed_prekeys[i].0.key_id() == id {
                proof { lemma_first_retired_unique(v, id, i as int); }
                return Some(i);
            }
            i = i + 1;
        }
        assert(!exists|k: int| is_first_retired(v, id, k));
        None
    }

    /// Adds a one-time prekey that is consumed only by a matching accepted handshake.
    ///
    /// Returns [`MefError::InvalidState`] exactly when the identifier is already present, and
    /// otherwise fails only with [`MefError::RandomnessUnavailable`]; a failure leaves the
    /// material untouched. On success the new prekey is appended to the one-time prekeys.
    pub fn add_one_time_prekey(&mut self, id: u32) -> (res: Result<()>)
        ensures
            one_time_index(old(self)@.one_time, id) is Some ==> res == Err::<(), MefError>(MefError::InvalidState) && final(self)@ == old(self)@,
            one_time_index(old(self)@.one_time, id) is None ==> (match res {
                Err(e) => e == MefError::RandomnessUnavailable && final(self)@ == old(self)@,
                Ok(_) => exists|secret: Seq<u8>| dh_secret_ok(secret) && #[trigger] with_one_time(old(self)@, id, secret) == final(self)@,
            }),
    {
        proof { use_type_invariant(&*self); }
        if self.find_one_time(id).is_some() {
            return Err(MefError::InvalidState);
        }
        let ghost fresh_id = forall|j: int| 0 <= j < self@.one_time.len() ==> self@.one_time[j].0 != id;
        assert(fresh_id);
        let key = DhKeyPair::generate()?;
        let public = OneTimePrekeyPublic { id, public: key.public() };
        let ghost secret = key@;
        let ghost before = self@;
        let mut entries: Vec<OneTimePrekey> = Vec::new();
        assert(one_time_view(entries@) =~= Seq::<(u32, Seq<u8>)>::empty());
        assert(self@.wf());
        assert((ResponderMaterialView { one_time: one_time_view(entries@), ..self@ }).wf());
        std::mem::swap(&mut entries, &mut self.one_time_prekeys);
        let ghost old_entries = entries@;
        entries.push(OneTimePrekey { public, key });
        proof {
            let v = one_time_view(entries@);
            assert(v =~= before.one_time.push((id, secret)));
            assert forall|i: int, j: int| 0 <= i < j < v.len() implies #[trigger] v[i].0 != #[trigger] v[j].0 by {
                if j == v.len() - 1 {
                    assert(v[i] == before.one_time[i]);
                } else {
                    assert(v[i] == before.one_time[i] && v[j] == before.one_time[j]);
                }
            }
            assert forall|i: int| 0 <= i < entries@.len()
                implies (#[trigger] entries@[i]).public.public@ == x25519_public(entries@[i].key@) by {
                if i < old_entries.len() {
                    assert(entries@[i] == old_entries[i]);
                }
            }
        }
        self.one_time_prekeys = entries;
        assert(with_one_time(before, id, secret) == self@);
        Ok(())
    }
}

impl ResponderPrekeyMaterial {
    /// Rotates the signed prekey and retains the old private key for delayed initial messages.
    ///
    /// Call [`Self::retire_signed_prekey`] only after the deployment delay window has elapsed.
    /// Returns [`MefError::InvalidState`] exactly when the identifier is the current or a
    /// retained one, and otherwise fails only with [`MefError::RandomnessUnavailable`]; a
    /// failure leaves the material untouched. On success the material is
    /// [`rotated_material`] for the fresh prekey secret.
    pub fn rotate_signed_prekey(&mut self, id: u32, expires_at_unix: u64) -> (res: Result<()>)
        ensures
            signed_id_taken(old(self)@, id) ==> res == Err::<(), MefError>(MefError::InvalidState) && final(self)@ == old(self)@,
            !signed_id_taken(old(self)@, id) ==> (match res {
                Err(e) => e == MefError::RandomnessUnavailable && final(self)@ == old(self)@,
                Ok(_) => exists|secret: Seq<u8>| dh_secret_ok(secret)
                    && #[trigger] rotated_material(old(self)@, id, secret, expires_at_unix) == final(self)@,
            }),
            res is Ok ==> final(self)@.signed_record.key_id == id
                && final(self)@.signed_record.expires_at_unix == expires_at_unix
                && final(self)@.signed_record.public == x25519_public(final(self)@.signed_secret)
                && final(self)@.retired == old(self)@.retired.push((old(self)@.signed_record, old(self)@.signed_secret))
                && final(self)@.identity == old(self)@.identity
                && final(self)@.one_time == old(self)@.one_time,
    {
        proof { use_type_invariant(&*self); }
        if self.signed.0.key_id() == id || self.find_retired(id).is_some() {
            return Err(MefError::InvalidState);
        }
        let ghost before = self@;
        assert(forall|j: int| 0 <= j < before.retired.len() ==> before.retired[j].0.key_id != id);
        let key = DhKeyPair::generate()?;
        let public = key.public();
        let record = SignedPrekey::issue(&self.identity.signing, id, public, expires_at_unix);
        let ghost secret = key@;
        proof {
            assert(record@ == issued_record(before.identity.signing_seed, id, secret, expires_at_unix));
        }
        let mut retired: Vec<(SignedPrekey, DhKeyPair)> = Vec::new();
        assert(retired_view(retired@) =~= Seq::<(SignedPrekeyView, Seq<u8>)>::empty());
        assert((ResponderMaterialView { retired: retired_view(retired@), ..self@ }).wf());
        std::mem::swap(&mut retired, &mut self.retired_signed_prekeys);
        let ghost old_retired = retired@;
        let mut current = (record, key);
        assert((ResponderMaterialView { signed_record: record@, signed_secret: secret, ..self@ }).wf());
        std::mem::swap(&mut current, &mut self.signed);
        retired.push(current);
        proof {
            let v = retired_view(retired@);
            assert(v =~= before.retired.push((before.signed_record, before.signed_secret)));
            let after = rotated_material(before, id, secret, expires_at_unix);
            assert(after.retired == v);
            assert forall|i: int| 0 <= i < v.len() implies {
                let r = #[trigger] v[i];
                dh_secret_ok(r.1) && r.0.public == x25519_public(r.1) && signed_by(before.identity.signing_seed, r.0)
                    && r.0.key_id != id
            } by {
                if i < before.retired.len() {
                    assert(v[i] == before.retired[i]);
                }
            }
            assert forall|i: int, j: int| 0 <= i < j < v.len() implies #[trigger] v[i].0.key_id != #[trigger] v[j].0.key_id by {
                assert(v[i] == before.retired[i]);
                if j < before.retired.len() {
                    assert(v[j] == before.retired[j]);
                }
            }
            assert(after.wf());
        }
        self.retired_signed_prekeys = retired;
        assert(rotated_material(before, id, secret, expires_at_unix) == self@);
        Ok(())
    }

    /// Deletes one retained signed prekey after the deployment's delayed-delivery window.
    ///
    /// Returns [`MefError::InvalidState`], leaving the material untouched, exactly when no
    /// retained prekey has the identifier (the current one cannot be retired); otherwise the
    /// first retained prekey with it is removed.
    pub fn retire_signed_prekey(&mut self, id: u32) -> (res: Result<()>)
        ensures
            (match retired_index(old(self)@.retired, id) {
                None => res == Err::<(), MefError>(MefError::InvalidState) && final(self)@ == old(self)@,
                Some(i) => res is Ok && final(self)@ == (ResponderMaterialView { retired: old(self)@.retired.remove(i), ..old(self)@ }),
            }),
    {
        proof { use_type_invariant(&*self); }
        let index = match self.find_retired(id) {
            Some(i) => i,
            None => return Err(MefError::InvalidState),
        };
        let ghost before = self@;
        let mut retired: Vec<(SignedPrekey, DhKeyPair)> = Vec::new();
        assert(retired_view(retired@) =~= Seq::<(SignedPrekeyView, Seq<u8>)>::empty());
        assert((ResponderMaterialView { retired: retired_view(retired@), ..self@ }).wf());
        std::mem::swap(&mut retired, &mut self.retired_signed_prekeys);
        let ghost old_retired = retired@;
        let _removed = retired.remove(index);
        proof {
            let v = retired_view(retired@);
            assert(v =~= before.retired.remove(index as int));
            assert forall|i: int| 0 <= i < v.len() implies #[trigger] v[i] == before.retired[if i < index { i } else { i + 1 }] by {}
            assert forall|i: int, j: int| 0 <= i < j < v.len() implies #[trigger] v[i].0.key_id != #[trigger] v[j].0.key_id by {
                assert(v[i] == before.retired[if i < index { i } else { i + 1 }]);
                assert(v[j] == before.retired[if j < index { j } else { j + 1 }]);
            }
            assert((ResponderMaterialView { retired: v, ..before }).wf());
        }
        self.retired_signed_prekeys = retired;
        Ok(())
    }
}

} // verus!

verus! {

/// The abstract content of an initiator handshake message.
pub struct HandshakeMessageView {
    /// The initiator's bound identity record.
    pub initiator_identity: IdentityDhPublicView,
    /// The initiator's fresh X25519 ephemeral public key.
    pub initiator_ephemeral: Seq<u8>,
    /// The initiator's first ratchet public key.
    pub initiator_ratchet: Seq<u8>,
    /// The identifier of the responder signed prekey used.
    pub signed_prekey_id: u32,
    /// The identifier of the responder one-time prekey used, if any.
    pub one_time_prekey_id: Option<u32>,
}

impl HandshakeMessageView {
    /// Every key and signature has its wire length.
    pub open spec fn wf(self) -> bool {
        &&& self.initiator_identity.wf()
        &&& self.initiator_ephemeral.len() == 32
        &&& self.initiator_ratchet.len() == 32
    }
}

/// The wire form of an optional one-time prekey identifier.
pub open spec fn one_time_id_wire(id: Option<u32>) -> Seq<u8> {
    match id {
        Some(id) => seq![1u8] + u32_be(id),
        None => seq![0u8] + zeros(4),
    }
}

/// The canonical encoding of an initiator handshake message.
pub open spec fn message_bytes(m: HandshakeMessageView) -> Seq<u8> {
    handshake_magic() + seq![1u8] + identity_wire(m.initiator_identity) + m.initiator_ephemeral
        + m.initiator_ratchet + u32_be(m.signed_prekey_id) + one_time_id_wire(m.one_time_prekey_id)
}

/// What [`InitiatorHandshake::decode`] returns for `b`.
pub open spec fn message_decode_spec(b: Seq<u8>) -> core::result::Result<HandshakeMessageView, MefError> {
    if b.len() != HANDSHAKE_MESSAGE_LEN || !(b.subrange(0, 3) == handshake_magic()) || b[3] != 1u8 {
        Err(MefError::InvalidFrame)
    } else if !ed25519_key_valid(b.subrange(4, 36)) {
        Err(MefError::InvalidFrame)
    } else if !(b[200] == 0u8 || b[200] == 1u8) || (b[200] == 0u8 && !(b.subrange(201, 205) == zeros(4))) {
        Err(MefError::InvalidFrame)
    } else {
        let identity = IdentityDhPublicView { signing: b.subrange(4, 36), dh: b.subrange(36, 68), signature: b.subrange(68, 132) };
        match identity_verification(identity) {
            Err(e) => Err(e),
            Ok(_) => Ok(HandshakeMessageView {
                initiator_identity: identity,
                initiator_ephemeral: b.subrange(132, 164),
                initiator_ratchet: b.subrange(164, 196),
                signed_prekey_id: u32_of_be(b.subrange(196, 200)),
                one_time_prekey_id: if b[200] == 1u8 { Some(u32_of_be(b.subrange(201, 205))) } else { None },
            }),
        }
    }
}

/// Canonical public initial-handshake message delivered to the responder.
#[derive(Debug, Clone, PartialEq, Eq)]
pub struct InitiatorHandshake {
    initiator_identity: IdentityDhPublic,
    initiator_ephemeral: DhPublicKey,
    initiator_ratchet: DhPublicKey,
    signed_prekey_id: u32,
    one_time_prekey_id: Option<u32>,
}

impl View for InitiatorHandshake {
    type V = HandshakeMessageView;

    closed spec fn view(&self) -> HandshakeMessageView {
        HandshakeMessageView {
            initiator_identity: self.initiator_identity@,
            initiator_ephemeral: self.initiator_ephemeral@,
            initiator_ratchet: self.initiator_ratchet@,
            signed_prekey_id: self.signed_prekey_id,
            one_time_prekey_id: self.one_time_prekey_id,
        }
    }
}

impl InitiatorHandshake {
    /// Returns the initiating party's bound identity record.
    pub fn initiator_identity(&self) -> (identity: IdentityDhPublic)
        ensures
            identity@ == self@.initiator_identity,
    {
        self.initiator_identity
    }

    /// Returns the fresh X25519 ephemeral public key.
    pub fn initiator_ephemeral(&self) -> (key: DhPublicKey)
        ensures
            key@ == self@.initiator_ephemeral,
    {
        self.initiator_ephemeral
    }

    /// Encodes one canonical handshake message for transport.
    pub fn encode(&self) -> (out: Vec<u8>)
        ensures
            out@ == message_bytes(self@),
            out@.len() == HANDSHAKE_MESSAGE_LEN,
            self@.wf(),
    {
        let magic: [u8; 3] = [0x4d, 0x45, 0x48];
        let mut output: Vec<u8> = Vec::new();
        extend_bytes(&mut output, &magic);
        output.push(1);
        let identity = identity_public_wire(self.initiator_identity);
        extend_bytes(&mut output, identity.as_slice());
        let ephemeral = self.initiator_ephemeral.to_bytes();
        extend_bytes(&mut output, &ephemeral);
        let ratchet = self.initiator_ratchet.to_bytes();
        extend_bytes(&mut output, &ratchet);
        push_u32_be(&mut output, self.signed_prekey_id);
        let ghost prefix = output@;
        match self.one_time_prekey_id {
            Some(id) => {
                output.push(1);
                push_u32_be(&mut output, id);
            },
            None => {
                output.push(0);
                push_u32_be(&mut output, 0);
                proof { lemma_u32_be_zero(); }
            },
        }
        assert(output@ =~= prefix + one_time_id_wire(self@.one_time_prekey_id));
        assert(magic@ =~= handshake_magic());
        assert(output@ =~= message_bytes(self@));
        output
    }

    /// Parses a complete canonical handshake message.
    ///
    /// Returns exactly [`message_decode_spec`]: [`MefError::InvalidFrame`] for malformed,
    /// unknown-version or noncanonical input, and the verdict of [`identity_verification`]
    /// for the initiator's identity binding.
    pub fn decode(bytes: &[u8]) -> (res: Result<Self>)
        ensures
            (match res {
                Ok(m) => message_decode_spec(bytes@) == Ok::<HandshakeMessageView, MefError>(m@),
                Err(e) => message_decode_spec(bytes@) == Err::<HandshakeMessageView, MefError>(e),
            }),
    {
        if bytes.len() != HANDSHAKE_MESSAGE_LEN || !(bytes[0] == 0x4d && bytes[1] == 0x45 && bytes[2] == 0x48) || bytes[3] != 1 {
            proof {
                if bytes@.len() == HANDSHAKE_MESSAGE_LEN && bytes@.subrange(0, 3) == handshake_magic() {
                    assert(bytes@.subrange(0, 3)[0] == bytes@[0] && bytes@.subrange(0, 3)[1] == bytes@[1] && bytes@.subrange(0, 3)[2] == bytes@[2]);
                }
            }
            return Err(MefError::InvalidFrame);
        }
        assert(bytes@.subrange(0, 3) =~= handshake_magic());
        let signing = IdentityPublicKey::from_bytes(copy_array::<32>(bytes, 4))?;
        let dh = DhPublicKey::from_bytes(copy_array::<32>(bytes, 36));
        let signature = copy_array::<64>(bytes, 68);
        let initiator_ephemeral = DhPublicKey::from_bytes(copy_array::<32>(bytes, 132));
        let initiator_ratchet = DhPublicKey::from_bytes(copy_array::<32>(bytes, 164));
        let signed_prekey_id = read_u32_be(bytes, 196);
        let one_time_prekey_id = if bytes[200] == 0 {
            if !all_zero(bytes, 201, 205) {
                return Err(MefError::InvalidFrame);
            }
            None
        } else if bytes[200] == 1 {
            Some(read_u32_be(bytes, 201))
        } else {
            return Err(MefError::InvalidFrame);
        };
        let initiator_identity = IdentityDhPublic { signing, dh, signature };
        initiator_identity.verify()?;
        Ok(InitiatorHandshake { initiator_identity, initiator_ephemeral, initiator_ratchet, signed_prekey_id, one_time_prekey_id })
    }
}

/// Decoding the canonical encoding of a message whose identity key decodes and whose binding
/// verifies gives back the message.
pub proof fn lemma_message_round_trip(m: HandshakeMessageView)
    requires
        m.wf(),
        ed25519_key_valid(m.initiator_identity.signing),
        identity_verification(m.initiator_identity) is Ok,
    ensures
        message_decode_spec(message_bytes(m)) == Ok::<HandshakeMessageView, MefError>(m),
{
    let bytes = message_bytes(m);
    crate::bytes::lemma_u32_be_roundtrip(m.signed_prekey_id);
    assert(bytes.len() == HANDSHAKE_MESSAGE_LEN);
    assert(bytes.subrange(0, 3) =~= handshake_magic());
    assert(bytes.subrange(4, 36) =~= m.initiator_identity.signing);
    assert(bytes.subrange(36, 68) =~= m.initiator_identity.dh);
    assert(bytes.subrange(68, 132) =~= m.initiator_identity.signature);
    assert(bytes.subrange(132, 164) =~= m.initiator_ephemeral);
    assert(bytes.subrange(164, 196) =~= m.initiator_ratchet);
    assert(bytes.subrange(196, 200) =~= u32_be(m.signed_prekey_id));
    match m.one_time_prekey_id {
        Some(id) => {
            crate::bytes::lemma_u32_be_roundtrip(id);
            assert(bytes.subrange(201, 205) =~= u32_be(id));
        },
        None => {
            assert(bytes.subrange(201, 205) =~= zeros(4));
        },
    }
    let identity = IdentityDhPublicView { signing: bytes.subrange(4, 36), dh: bytes.subrange(36, 68), signature: bytes.subrange(68, 132) };
    assert(identity == m.initiator_identity);
}

/// Whatever the message decoder accepts is canonical: re-encoding gives back the input.
pub proof fn lemma_message_decode_canonical(bytes: Seq<u8>)
    requires
        message_decode_spec(bytes) is Ok,
    ensures
        message_bytes(message_decode_spec(bytes).unwrap()) == bytes,
        message_decode_spec(bytes).unwrap().wf(),
{
    let m = message_decode_spec(bytes).unwrap();
    crate::bytes::lemma_u32_of_be_canonical(bytes.subrange(196, 200));
    if bytes[200] == 1u8 {
        crate::bytes::lemma_u32_of_be_canonical(bytes.subrange(201, 205));
    }
    assert(one_time_id_wire(m.one_time_prekey_id) =~= bytes.subrange(200, 205));
    assert(message_bytes(m) =~= bytes);
}

} // verus!

verus! {

/// The abstract content of authenticated handshake material.
pub struct AuthenticatedHandshakeView {
    /// The transcript-bound session identifier.
    pub session_id: Seq<u8>,
    /// The root secret that initializes the ratchet.
    pub root_secret: Seq<u8>,
    /// Which side of the handshake this is.
    pub role: RatchetRole,
    /// The secret of the local first ratchet key pair.
    pub local_ratchet: Seq<u8>,
    /// The peer's first ratchet public key.
    pub remote_ratchet: Seq<u8>,
}

/// Validated secret state consumed exactly once to initialize a ratchet.
pub struct AuthenticatedHandshake {
    session_id: [u8; 32],
    root_secret: Secret,
    role: RatchetRole,
    local_ratchet: DhKeyPair,
    remote_ratchet: DhPublicKey,
}

impl View for AuthenticatedHandshake {
    type V = AuthenticatedHandshakeView;

    closed spec fn view(&self) -> AuthenticatedHandshakeView {
        AuthenticatedHandshakeView {
            session_id: self.session_id@,
            root_secret: self.root_secret@,
            role: self.role,
            local_ratchet: self.local_ratchet@,
            remote_ratchet: self.remote_ratchet@,
        }
    }
}

impl AuthenticatedHandshake {
    /// Returns the transcript-bound session identifier.
    pub fn session_id(&self) -> (id: [u8; 32])
        ensures
            id@ == self@.session_id,
    {
        self.session_id
    }

    /// Hands the parts over to ratchet initialization.
    pub(crate) fn into_ratchet_parts(self) -> (parts: ([u8; 32], Secret, RatchetRole, DhKeyPair, DhPublicKey))
        ensures
            parts.0@ == self@.session_id,
            parts.1@ == self@.root_secret,
            parts.2 == self@.role,
            parts.3@ == self@.local_ratchet,
            parts.4@ == self@.remote_ratchet,
    {
        (self.session_id, self.root_secret, self.role, self.local_ratchet, self.remote_ratchet)
    }
}

/// The session identifier bound to a handshake message and the responder's identity.
pub open spec fn session_id_spec(message: HandshakeMessageView, responder: IdentityDhPublicView) -> Seq<u8> {
    blake3(blake3_id_input(SESSION_LABEL.spec_bytes(), seq![message_bytes(message), identity_wire(responder)]))
}

/// The bytes of an optional agreement output, empty when absent.
pub open spec fn optional_bytes(value: Option<Seq<u8>>) -> Seq<u8> {
    match value {
        Some(v) => v,
        None => Seq::empty(),
    }
}

/// The root secret derived from the session identifier and the agreement outputs.
pub open spec fn handshake_root(session_id: Seq<u8>, dh1: Seq<u8>, dh2: Seq<u8>, dh3: Seq<u8>, dh4: Option<Seq<u8>>) -> Seq<u8> {
    kdf(session_id, HANDSHAKE_ROOT_LABEL.spec_bytes(), dh1 + dh2 + dh3 + optional_bytes(dh4))
}

fn derive_handshake_values(
    message: &InitiatorHandshake,
    responder_identity: IdentityDhPublic,
    dh1: &[u8; 32],
    dh2: &[u8; 32],
    dh3: &[u8; 32],
    dh4: &Option<[u8; 32]>,
) -> (res: Result<([u8; 32], Secret)>)
    ensures
        res matches Ok(v) && v.0@ == session_id_spec(message@, responder_identity@)
            && v.1@ == handshake_root(v.0@, dh1@, dh2@, dh3@, match dh4 { Some(d) => Some(d@), None => None }),
{
    let message_wire = message.encode();
    let responder_wire = identity_public_wire(responder_identity);
    let parts: [&[u8]; 2] = [message_wire.as_slice(), responder_wire.as_slice()];
    assert(parts_view(parts@) =~= seq![message_bytes(message@), identity_wire(responder_identity@)]);
    proof {
        reveal_strlit("handshake-session-v1");
        crate::crypto::lemma_ascii_label_len(SESSION_LABEL);
        reveal_strlit("handshake-x3dh-root-v1");
        crate::crypto::lemma_ascii_label_len(HANDSHAKE_ROOT_LABEL);
    }
    let session_id = blake3_id(SESSION_LABEL, &parts)?;
    let mut material: Vec<u8> = Vec::new();
    extend_bytes(&mut material, dh1);
    extend_bytes(&mut material, dh2);
    extend_bytes(&mut material, dh3);
    match dh4 {
        Some(value) => extend_bytes(&mut material, value),
        None => {},
    }
    assert(material@ =~= dh1@ + dh2@ + dh3@ + optional_bytes(match dh4 { Some(d) => Some(d@), None => None }));
    let root_secret = derive_secret(&session_id, HANDSHAKE_ROOT_LABEL, material.as_slice())?;
    Ok((session_id, root_secret))
}

/// The agreement of `secret` with an optional one-time prekey.
pub open spec fn one_time_agreement(secret: Seq<u8>, one_time_prekey: Option<(u32, Seq<u8>)>) -> core::result::Result<Option<Seq<u8>>, MefError> {
    match one_time_prekey {
        None => Ok(None),
        Some(ot) => match x25519_agree(secret, ot.1) {
            None => Err(MefError::NonContributoryKeyAgreement),
            Some(d) => Ok(Some(d)),
        },
    }
}

/// The message an initiator sends for a bundle, with ephemeral and first ratchet secrets.
pub open spec fn initiator_message(identity: LocalIdentityView, bundle: BundleView, ephemeral: Seq<u8>, ratchet: Seq<u8>) -> HandshakeMessageView {
    HandshakeMessageView {
        initiator_identity: identity_public_of(identity),
        initiator_ephemeral: x25519_public(ephemeral),
        initiator_ratchet: x25519_public(ratchet),
        signed_prekey_id: bundle.signed_prekey.key_id,
        one_time_prekey_id: match bundle.one_time_prekey {
            Some(ot) => Some(ot.0),
            None => None,
        },
    }
}

/// What [`initiate`] returns with the fresh ephemeral and first ratchet secrets.
pub open spec fn initiate_spec(identity: LocalIdentityView, bundle: BundleView, now_unix: u64, ephemeral: Seq<u8>, ratchet: Seq<u8>)
    -> core::result::Result<(HandshakeMessageView, AuthenticatedHandshakeView), MefError>
{
    match bundle_verification(bundle, now_unix) {
        Err(e) => Err(e),
        Ok(_) => match x25519_agree(identity.dh_secret, bundle.signed_prekey.public) {
            None => Err(MefError::NonContributoryKeyAgreement),
            Some(dh1) => match x25519_agree(ephemeral, bundle.identity.dh) {
                None => Err(MefError::NonContributoryKeyAgreement),
                Some(dh2) => match x25519_agree(ephemeral, bundle.signed_prekey.public) {
                    None => Err(MefError::NonContributoryKeyAgreement),
                    Some(dh3) => match one_time_agreement(ephemeral, bundle.one_time_prekey) {
                        Err(e) => Err(e),
                        Ok(dh4) => {
                            let message = initiator_message(identity, bundle, ephemeral, ratchet);
                            let session_id = session_id_spec(message, bundle.identity);
                            Ok((message, AuthenticatedHandshakeView {
                                session_id,
                                root_secret: handshake_root(session_id, dh1, dh2, dh3, dh4),
                                role: RatchetRole::Initiator,
                                local_ratchet: ratchet,
                                remote_ratchet: bundle.signed_prekey.public,
                            }))
                        },
                    },
                },
            },
        },
    }
}

/// An initiation result viewed abstractly.
pub open spec fn initiate_result(res: &Result<(InitiatorHandshake, AuthenticatedHandshake)>)
    -> core::result::Result<(HandshakeMessageView, AuthenticatedHandshakeView), MefError>
{
    match res {
        Ok(v) => Ok((v.0@, v.1@)),
        Err(e) => Err(*e),
    }
}

/// Starts a verified asynchronous prekey handshake as the initiating party.
///
/// The returned message must be delivered to the responder; the returned material is consumed
/// by [`crate::ratchet::RatchetState::from_authenticated_handshake`]. Unavailable randomness
/// can only fail the call once the bundle has verified; otherwise the result is exactly
/// [`initiate_spec`] for the fresh ephemeral and first ratchet secrets.
pub fn initiate(identity: &LocalIdentity, bundle: &ResponderPrekeyBundle, now_unix: u64) -> (res: Result<(InitiatorHandshake, AuthenticatedHandshake)>)
    ensures
        res matches Err(e) && e == MefError::RandomnessUnavailable ==> bundle_verification(bundle@, now_unix) is Ok,
        !(res matches Err(e) && e == MefError::RandomnessUnavailable) ==> exists|ephemeral: Seq<u8>, ratchet: Seq<u8>|
            ephemeral.len() == DH_KEY_LEN && ratchet.len() == DH_KEY_LEN
                && #[trigger] initiate_spec(identity@, bundle@, now_unix, ephemeral, ratchet) == initiate_result(&res),
{
    let ghost w = zeros(32);
    if let Err(e) = bundle.verify(now_unix) {
        assert(initiate_spec(identity@, bundle@, now_unix, w, w) == initiate_result(&Err::<(InitiatorHandshake, AuthenticatedHandshake), MefError>(e)));
        return Err(e);
    }
    let ephemeral = DhKeyPair::generate()?;
    let ratchet = DhKeyPair::generate()?;
    let ghost eph = ephemeral@;
    let ghost rat = ratchet@;
    let signed_public = bundle.signed_prekey.public();
    let dh1 = match identity.dh.diffie_hellman(signed_public) {
        Ok(d) => d,
        Err(e) => {
            assert(initiate_spec(identity@, bundle@, now_unix, eph, rat) == initiate_result(&Err::<(InitiatorHandshake, AuthenticatedHandshake), MefError>(e)));
            return Err(e);
        },
    };
    let dh2 = match ephemeral.diffie_hellman(bundle.identity.dh_identity()) {
        Ok(d) => d,
        Err(e) => {
            assert(initiate_spec(identity@, bundle@, now_unix, eph, rat) == initiate_result(&Err::<(InitiatorHandshake, AuthenticatedHandshake), MefError>(e)));
            return Err(e);
        },
    };
    let dh3 = match ephemeral.diffie_hellman(signed_public) {
        Ok(d) => d,
        Err(e) => {
            assert(initiate_spec(identity@, bundle@, now_unix, eph, rat) == initiate_result(&Err::<(InitiatorHandshake, AuthenticatedHandshake), MefError>(e)));
            return Err(e);
        },
    };
    let dh4 = match bundle.one_time_prekey {
        Some(prekey) => match ephemeral.diffie_hellman(prekey.public()) {
            Ok(d) => Some(d),
            Err(e) => {
                assert(initiate_spec(identity@, bundle@, now_unix, eph, rat) == initiate_result(&Err::<(InitiatorHandshake, AuthenticatedHandshake), MefError>(e)));
                return Err(e);
            },
        },
        None => None,
    };
    let one_time_prekey_id = match bundle.one_time_prekey {
        Some(prekey) => Some(prekey.id()),
        None => None,
    };
    let message = InitiatorHandshake {
        initiator_identity: identity.public(),
        initiator_ephemeral: ephemeral.public(),
        initiator_ratchet: ratchet.public(),
        signed_prekey_id: bundle.signed_prekey.key_id(),
        one_time_prekey_id,
    };
    assert(message@ == initiator_message(identity@, bundle@, eph, rat));
    let (session_id, root_secret) = derive_handshake_values(&message, bundle.identity, &dh1, &dh2, &dh3, &dh4)?;
    let handshake = AuthenticatedHandshake {
        session_id,
        root_secret,
        role: RatchetRole::Initiator,
        local_ratchet: ratchet,
        remote_ratchet: signed_public,
    };
    let res = Ok((message, handshake));
    assert(initiate_spec(identity@, bundle@, now_unix, eph, rat) == initiate_result(&res));
    res
}

} // verus!

verus! {

/// The secret of the signed prekey that a message names: the current one or a retained one.
pub open spec fn named_signed_secret(m: ResponderMaterialView, id: u32) -> Option<Seq<u8>> {
    if id == m.signed_record.key_id {
        Some(m.signed_secret)
    } else {
        match retired_index(m.retired, id) {
            Some(i) => Some(m.retired[i].1),
            None => None,
        }
    }
}

/// The position of the one-time prekey that a message names, if it names one.
pub open spec fn named_one_time(m: ResponderMaterialView, id: Option<u32>) -> core::result::Result<Option<int>, MefError> {
    match id {
        None => Ok(None),
        Some(id) => match one_time_index(m.one_time, id) {
            Some(i) => Ok(Some(i)),
            None => Err(MefError::RatchetStateMismatch),
        },
    }
}

/// The material after a one-time prekey, if any, is consumed.
pub open spec fn consume_one_time(m: ResponderMaterialView, index: Option<int>) -> ResponderMaterialView {
    match index {
        Some(i) => ResponderMaterialView { one_time: m.one_time.remove(i), ..m },
        None => m,
    }
}

/// What [`accept`] does: the new material and the authenticated result. The material changes
/// only on success, and then only by consuming the named one-time prekey.
pub open spec fn accept_spec(m: ResponderMaterialView, message: HandshakeMessageView)
    -> (ResponderMaterialView, core::result::Result<AuthenticatedHandshakeView, MefError>)
{
    match identity_verification(message.initiator_identity) {
        Err(e) => (m, Err(e)),
        Ok(_) => match named_signed_secret(m, message.signed_prekey_id) {
            None => (m, Err(MefError::RatchetStateMismatch)),
            Some(signed) => match named_one_time(m, message.one_time_prekey_id) {
                Err(e) => (m, Err(e)),
                Ok(index) => match x25519_agree(signed, message.initiator_identity.dh) {
                    None => (m, Err(MefError::NonContributoryKeyAgreement)),
                    Some(dh1) => match x25519_agree(m.identity.dh_secret, message.initiator_ephemeral) {
                        None => (m, Err(MefError::NonContributoryKeyAgreement)),
                        Some(dh2) => match x25519_agree(signed, message.initiator_ephemeral) {
                            None => (m, Err(MefError::NonContributoryKeyAgreement)),
                            Some(dh3) => {
                                let dh4 = match index {
                                    None => Ok(None),
                                    Some(i) => match x25519_agree(m.one_time[i].1, message.initiator_ephemeral) {
                                        None => Err(MefError::NonContributoryKeyAgreement),
                                        Some(d) => Ok(Some(d)),
                                    },
                                };
                                match dh4 {
                                    Err(e) => (m, Err(e)),
                                    Ok(dh4) => {
                                        let session_id = session_id_spec(message, identity_public_of(m.identity));
                                        (consume_one_time(m, index), Ok(AuthenticatedHandshakeView {
                                            session_id,
                                            root_secret: handshake_root(session_id, dh1, dh2, dh3, dh4),
                                            role: RatchetRole::Responder,
                                            local_ratchet: signed,
                                            remote_ratchet: message.initiator_ratchet,
                                        }))
                                    },
                                }
                            },
                        },
                    },
                },
            },
        },
    }
}

/// An acceptance result viewed abstractly.
pub open spec fn accept_result(res: &Result<AuthenticatedHandshake>) -> core::result::Result<AuthenticatedHandshakeView, MefError> {
    match res {
        Ok(h) => Ok(h@),
        Err(e) => Err(*e),
    }
}

impl ResponderPrekeyMaterial {
    fn named_signed_pair(&self, id: u32) -> (res: Option<DhKeyPair>)
        ensures
            (match res {
                Some(p) => named_signed_secret(self@, id) == Some(p@),
                None => named_signed_secret(self@, id) is None,
            }),
    {
        if id == self.signed.0.key_id() {
            Some(DhKeyPair::from_secret(DhSecretKey::from_bytes(self.signed.1.secret_bytes())))
        } else {
            match self.find_retired(id) {
                Some(i) => {
                    let entry = &self.retired_signed_prekeys[i];
                    Some(DhKeyPair::from_secret(DhSecretKey::from_bytes(entry.1.secret_bytes())))
                },
                None => None,
            }
        }
    }

    fn remove_one_time(&mut self, index: usize)
        requires
            index < old(self)@.one_time.len(),
        ensures
            final(self)@ == consume_one_time(old(self)@, Some(index as int)),
    {
        proof { use_type_invariant(&*self); }
        let ghost before = self@;
        let mut entries: Vec<OneTimePrekey> = Vec::new();
        assert(one_time_view(entries@) =~= Seq::<(u32, Seq<u8>)>::empty());
        assert(self@.wf());
        assert((ResponderMaterialView { one_time: one_time_view(entries@), ..self@ }).wf());
        std::mem::swap(&mut entries, &mut self.one_time_prekeys);
        let ghost old_entries = entries@;
        let _consumed = entries.remove(index);
        proof {
            let v = one_time_view(entries@);
            assert(v =~= before.one_time.remove(index as int));
            assert forall|i: int, j: int| 0 <= i < j < v.len() implies #[trigger] v[i].0 != #[trigger] v[j].0 by {
                assert(v[i] == before.one_time[if i < index { i } else { i + 1 }]);
                assert(v[j] == before.one_time[if j < index { j } else { j + 1 }]);
            }
            assert forall|i: int| 0 <= i < v.len() implies dh_secret_ok(#[trigger] v[i].1) by {
                assert(v[i] == before.one_time[if i < index { i } else { i + 1 }]);
            }
            assert forall|i: int| 0 <= i < entries@.len()
                implies (#[trigger] entries@[i]).public.public@ == x25519_public(entries@[i].key@) by {
                assert(entries@[i] == old_entries[if i < index { i } else { i + 1 }]);
            }
            assert((ResponderMaterialView { one_time: v, ..before }).wf());
        }
        self.one_time_prekeys = entries;
    }
}

/// Validates and accepts an initiator message as the responder.
///
/// A matching one-time prekey is removed only after the complete message has been verified
/// and all handshake computations succeed. The new material and the result are exactly
/// [`accept_spec`].
pub fn accept(material: &mut ResponderPrekeyMaterial, message: &InitiatorHandshake) -> (res: Result<AuthenticatedHandshake>)
    ensures
        (final(material)@, accept_result(&res)) == accept_spec(old(material)@, message@),
{
    message.initiator_identity.verify()?;
    let signed_prekey = match material.named_signed_pair(message.signed_prekey_id) {
        Some(p) => p,
        None => return Err(MefError::RatchetStateMismatch),
    };
    let one_time_index = match message.one_time_prekey_id {
        Some(id) => match material.find_one_time(id) {
            Some(i) => Some(i),
            None => return Err(MefError::RatchetStateMismatch),
        },
        None => None,
    };
    let ghost index_view: Option<int> = match one_time_index { Some(i) => Some(i as int), None => None };
    assert(named_one_time(material@, message@.one_time_prekey_id) == Ok::<Option<int>, MefError>(index_view));
    let dh1 = signed_prekey.diffie_hellman(message.initiator_identity.dh_identity())?;
    let dh2 = material.identity.dh.diffie_hellman(message.initiator_ephemeral)?;
    let dh3 = signed_prekey.diffie_hellman(message.initiator_ephemeral)?;
    let dh4 = match one_time_index {
        Some(index) => {
            let entry = &material.one_time_prekeys[index];
            assert(entry.key@ == material@.one_time[index as int].1);
            Some(entry.key.diffie_hellman(message.initiator_ephemeral)?)
        },
        None => None,
    };
    let (session_id, root_secret) = derive_handshake_values(message, material.identity.public(), &dh1, &dh2, &dh3, &dh4)?;
    match one_time_index {
        Some(index) => material.remove_one_time(index),
        None => {},
    }
    Ok(AuthenticatedHandshake {
        session_id,
        root_secret,
        role: RatchetRole::Responder,
        local_ratchet: signed_prekey,
        remote_ratchet: message.initiator_ratchet,
    })
}

} // verus!

verus! {

/// A responder accepts the message of every successful initiation against its own bundle:
/// both sides derive the same session identifier and root secret, each side's first ratchet
/// key is the one the other records for it, and the offered one-time prekey (the oldest, if
/// any) is consumed. This holds where strict verification accepts the initiator's own binding
/// signature.
pub proof fn lemma_handshake_agreement(identity: LocalIdentityView, m: ResponderMaterialView, now_unix: u64, ephemeral: Seq<u8>, ratchet: Seq<u8>)
    requires
        identity.wf(),
        identity_verification(identity_public_of(identity)) is Ok,
        m.wf(),
        ephemeral.len() == DH_KEY_LEN,
        ratchet.len() == DH_KEY_LEN,
        initiate_spec(identity, bundle_of(m), now_unix, ephemeral, ratchet) is Ok,
    ensures
        ({
            let (message, initiator) = initiate_spec(identity, bundle_of(m), now_unix, ephemeral, ratchet).unwrap();
            let (after, responder) = accept_spec(m, message);
            &&& responder is Ok
            &&& responder.unwrap().session_id == initiator.session_id
            &&& responder.unwrap().root_secret == initiator.root_secret
            &&& responder.unwrap().role == RatchetRole::Responder && initiator.role == RatchetRole::Initiator
            &&& responder.unwrap().remote_ratchet == x25519_public(initiator.local_ratchet)
            &&& initiator.remote_ratchet == x25519_public(responder.unwrap().local_ratchet)
            &&& after == consume_one_time(m, if m.one_time.len() > 0 { Some(0int) } else { None })
        }),
{
    let bundle = bundle_of(m);
    let signed = m.signed_secret;
    let id_secret = identity.dh_secret;
    assert(x25519_agree(id_secret, x25519_public(signed)) == x25519_agree(signed, x25519_public(id_secret)));
    assert(x25519_agree(ephemeral, x25519_public(m.identity.dh_secret)) == x25519_agree(m.identity.dh_secret, x25519_public(ephemeral)));
    assert(x25519_agree(ephemeral, x25519_public(signed)) == x25519_agree(signed, x25519_public(ephemeral)));
    if m.one_time.len() > 0 {
        let ot = m.one_time[0];
        assert(dh_secret_ok(ot.1));
        assert(x25519_agree(ephemeral, x25519_public(ot.1)) == x25519_agree(ot.1, x25519_public(ephemeral)));
        lemma_first_one_time_unique(m.one_time, ot.0, 0);
    }
}

} // verus!
