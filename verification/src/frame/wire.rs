//! Canonical bounded serialization and parsing of MEF-26 inner frames.
use vstd::prelude::*;

use super::header::{lemma_header_wf, FrameHeader, FrameHeaderView, FrameKind};
use crate::bytes::{copy_array, copy_range, extend_bytes, push_u32_be, read_u32_be, u32_be, u32_of_be};
use crate::crypto::{
    aead_open, aead_seal, inputs_oversized, lemma_aead_key_len, open, open_spec, seal, AeadKey,
    AeadSuite, Ciphertext, CiphertextView, AEAD_TAG_LEN,
};
use crate::{bytes_result, MefError, Result, MAX_CIPHERTEXT_LEN};

verus! {

broadcast use lemma_header_wf;

/// Length of the fixed frame header that precedes the nonce and body.
pub const FIXED_HEADER_LEN: usize = 83;

/// The frame magic "MEF".
pub open spec fn frame_magic() -> Seq<u8> {
    seq![0x4du8, 0x45u8, 0x46u8]
}

/// The canonical header bytes, which are also the frame's associated data.
pub open spec fn frame_aad(suite: AeadSuite, header: FrameHeaderView, body_len: nat) -> Seq<u8> {
    frame_magic() + seq![1u8, suite.spec_id(), header.kind.spec_id()] + header.session_id
        + header.ratchet_public + u32_be(header.previous_chain_len) + u32_be(header.message_number)
        + seq![suite.spec_nonce_len() as u8] + u32_be(body_len as u32)
}

/// The abstract content of an inner frame.
pub struct InnerFrameView {
    /// The authenticated header.
    pub header: FrameHeaderView,
    /// The AEAD ciphertext.
    pub ciphertext: CiphertextView,
}

impl InnerFrameView {
    /// The header keys have their wire lengths and the ciphertext is well formed.
    pub open spec fn wf(self) -> bool {
        self.header.wf() && self.ciphertext.wf()
    }

    /// The associated data bound to the frame's ciphertext.
    pub open spec fn aad(self) -> Seq<u8> {
        frame_aad(self.ciphertext.suite, self.header, self.ciphertext.body.len())
    }

    /// The canonical wire encoding: header, nonce, body.
    pub open spec fn bytes(self) -> Seq<u8> {
        self.aad() + self.ciphertext.nonce + self.ciphertext.body
    }
}

/// What [`InnerFrame::decode_prefix`] returns for `b`: the frame at the start of `b` and its
/// encoding length, or the error for the first check that fails.
pub open spec fn decode_prefix_spec(b: Seq<u8>) -> core::result::Result<(InnerFrameView, nat), MefError> {
    if b.len() < FIXED_HEADER_LEN || b.len() > MAX_CIPHERTEXT_LEN + FIXED_HEADER_LEN + 24 {
        Err(MefError::InvalidFrame)
    } else if !(b[0] == 0x4du8 && b[1] == 0x45u8 && b[2] == 0x46u8) || b[3] != 1u8 {
        Err(MefError::InvalidFrame)
    } else {
        match AeadSuite::spec_from_id(b[4]) {
            None => Err(MefError::UnsupportedSuite),
            Some(suite) => match FrameKind::spec_from_id(b[5]) {
                None => Err(MefError::InvalidFrame),
                Some(kind) => {
                    let nonce_len = b[78] as nat;
                    let body_len = u32_of_be(b.subrange(79, 83)) as nat;
                    let end: nat = (FIXED_HEADER_LEN as nat) + nonce_len + body_len;
                    if nonce_len != suite.spec_nonce_len() || body_len < AEAD_TAG_LEN || body_len > MAX_CIPHERTEXT_LEN {
                        Err(MefError::InvalidFrame)
                    } else if b.len() < end {
                        Err(MefError::InvalidFrame)
                    } else {
                        Ok((InnerFrameView {
                            header: FrameHeaderView {
                                kind,
                                session_id: b.subrange(6, 38),
                                ratchet_public: b.subrange(38, 70),
                                previous_chain_len: u32_of_be(b.subrange(70, 74)),
                                message_number: u32_of_be(b.subrange(74, 78)),
                            },
                            ciphertext: CiphertextView {
                                suite,
                                nonce: b.subrange(FIXED_HEADER_LEN as int, FIXED_HEADER_LEN + nonce_len),
                                body: b.subrange(FIXED_HEADER_LEN + nonce_len, end as int),
                            },
                        }, end))
                    }
                },
            },
        }
    }
}

/// What [`InnerFrame::decode`] returns for `b`: the prefix decoding, rejecting trailing bytes.
pub open spec fn decode_spec(b: Seq<u8>) -> core::result::Result<InnerFrameView, MefError> {
    match decode_prefix_spec(b) {
        Ok((f, n)) => if n == b.len() { Ok(f) } else { Err(MefError::InvalidFrame) },
        Err(e) => Err(e),
    }
}

fn encode_aad(suite: AeadSuite, header: FrameHeader, body_len: usize) -> (res: Result<Vec<u8>>)
    ensures
        body_len > u32::MAX ==> res == Err::<Vec<u8>, MefError>(MefError::InvalidLength),
        body_len <= u32::MAX ==> (res matches Ok(v) && v@ == frame_aad(suite, header@, body_len as nat)),
{
    if body_len > 0xffff_ffffusize {
        return Err(MefError::InvalidLength);
    }
    let magic: [u8; 3] = [0x4d, 0x45, 0x46];
    let mut output: Vec<u8> = Vec::new();
    extend_bytes(&mut output, &magic);
    output.push(1);
    output.push(suite.id());
    output.push(header.kind().id());
    let session_id = header.session_id();
    extend_bytes(&mut output, &session_id);
    let ratchet_public = header.ratchet_public();
    extend_bytes(&mut output, &ratchet_public);
    push_u32_be(&mut output, header.previous_chain_len());
    push_u32_be(&mut output, header.message_number());
    output.push(suite.nonce_len() as u8);
    push_u32_be(&mut output, body_len as u32);
    assert(magic@ =~= frame_magic());
    assert(output@ =~= frame_aad(suite, header@, body_len as nat));
    Ok(output)
}

/// A canonical authenticated inner message frame.
#[derive(Debug, Clone, PartialEq, Eq)]
pub struct InnerFrame {
    header: FrameHeader,
    ciphertext: Ciphertext,
}

impl View for InnerFrame {
    type V = InnerFrameView;

    closed spec fn view(&self) -> InnerFrameView {
        InnerFrameView { header: self.header@, ciphertext: self.ciphertext@ }
    }
}

} // verus!

verus! {

/// The frame's associated data stays within the associated-data size limit.
proof fn lemma_frame_aad_len(suite: AeadSuite, header: FrameHeaderView, body_len: nat)
    requires
        header.wf(),
    ensures
        frame_aad(suite, header, body_len).len() == FIXED_HEADER_LEN,
{
}

impl InnerFrame {
    /// Encrypts a plaintext into a canonical frame using a fresh AEAD nonce.
    ///
    /// Returns [`MefError::InvalidLength`] exactly for a plaintext longer than
    /// [`MAX_CIPHERTEXT_LEN`] minus the tag; otherwise the only possible failure is
    /// [`MefError::RandomnessUnavailable`]. Opening the frame with the same key gives back the
    /// plaintext.
    pub fn seal(key: &AeadKey, suite: AeadSuite, header: FrameHeader, plaintext: &[u8]) -> (res: Result<Self>)
        ensures
            plaintext@.len() > MAX_CIPHERTEXT_LEN - AEAD_TAG_LEN ==> res == Err::<InnerFrame, MefError>(MefError::InvalidLength),
            plaintext@.len() <= MAX_CIPHERTEXT_LEN - AEAD_TAG_LEN ==> (res matches Err(e) ==> e == MefError::RandomnessUnavailable),
            res matches Ok(f) ==> f@.header == header@ && f@.ciphertext.suite == suite
                && f@.ciphertext.nonce.len() == suite.spec_nonce_len()
                && f@.ciphertext.body == aead_seal(suite, key@, f@.ciphertext.nonce, f@.aad(), plaintext@),
            res matches Ok(f) ==> f@.ciphertext.body.len() == plaintext@.len() + AEAD_TAG_LEN,
            res matches Ok(f) ==> f@.wf() && open_spec(key@, f@.ciphertext, f@.aad()) == Ok::<Seq<u8>, MefError>(plaintext@),
    {
        let body_len = match plaintext.len().checked_add(AEAD_TAG_LEN) {
            Some(n) => n,
            None => return Err(MefError::InvalidLength),
        };
        let aad = encode_aad(suite, header, body_len)?;
        proof { lemma_frame_aad_len(suite, header@, body_len as nat); }
        let ciphertext = seal(key, suite, aad.as_slice(), plaintext)?;
        Self::from_ciphertext(header, ciphertext)
    }

    /// Constructs a frame from an already authenticated ciphertext; always succeeds.
    pub fn from_ciphertext(header: FrameHeader, ciphertext: Ciphertext) -> (res: Result<Self>)
        ensures
            res matches Ok(f) && f@ == (InnerFrameView { header: header@, ciphertext: ciphertext@ }),
            ciphertext@.wf(),
    {
        let suite = ciphertext.suite();
        let aad = encode_aad(suite, header, ciphertext.body().len())?;
        proof { lemma_frame_aad_len(suite, header@, ciphertext@.body.len()); }
        if aad.len() != FIXED_HEADER_LEN {
            return Err(MefError::InvalidFrame);
        }
        Ok(InnerFrame { header, ciphertext })
    }

    fn aad(&self) -> (res: Result<Vec<u8>>)
        ensures
            res matches Ok(v) && v@ == self@.aad(),
            self@.wf(),
    {
        let body = self.ciphertext.body();
        encode_aad(self.ciphertext.suite(), self.header, body.len())
    }

    /// Authenticates and decrypts this frame with the supplied message key.
    ///
    /// Returns exactly what [`crate::crypto::open`] returns for the frame's ciphertext under its
    /// canonical header as associated data.
    pub fn open(&self, key: &AeadKey) -> (res: Result<Vec<u8>>)
        ensures
            bytes_result(&res) == open_spec(key@, self@.ciphertext, self@.aad()),
    {
        let aad = self.aad()?;
        open(key, &self.ciphertext, aad.as_slice())
    }

    /// Returns the complete canonical wire encoding; always succeeds.
    pub fn encode(&self) -> (res: Result<Vec<u8>>)
        ensures
            res matches Ok(b) && b@ == self@.bytes(),
            self@.wf(),
    {
        let mut output = self.aad()?;
        extend_bytes(&mut output, self.ciphertext.nonce());
        extend_bytes(&mut output, self.ciphertext.body());
        Ok(output)
    }

    /// Parses a complete canonical wire encoding and rejects trailing data.
    ///
    /// Returns exactly [`decode_spec`] of the input: [`MefError::InvalidFrame`] for
    /// noncanonical, unknown-version, malformed or trailing input and
    /// [`MefError::UnsupportedSuite`] for an unknown suite identifier.
    pub fn decode(bytes: &[u8]) -> (res: Result<Self>)
        ensures
            (match res {
                Ok(f) => decode_spec(bytes@) == Ok::<InnerFrameView, MefError>(f@),
                Err(e) => decode_spec(bytes@) == Err::<InnerFrameView, MefError>(e),
            }),
    {
        let (frame, consumed) = Self::decode_prefix(bytes)?;
        if consumed != bytes.len() {
            return Err(MefError::InvalidFrame);
        }
        Ok(frame)
    }

    /// Parses one canonical frame from the beginning of a larger authenticated byte sequence.
    ///
    /// Returns exactly [`decode_prefix_spec`] of the input: the frame and its exact encoding
    /// length, or the error of the first failing check.
    pub fn decode_prefix(bytes: &[u8]) -> (res: Result<(Self, usize)>)
        ensures
            (match res {
                Ok((f, n)) => decode_prefix_spec(bytes@) == Ok::<(InnerFrameView, nat), MefError>((f@, n as nat)),
                Err(e) => decode_prefix_spec(bytes@) == Err::<(InnerFrameView, nat), MefError>(e),
            }),
    {
        if bytes.len() < FIXED_HEADER_LEN || bytes.len() > MAX_CIPHERTEXT_LEN + (FIXED_HEADER_LEN + 24) {
            return Err(MefError::InvalidFrame);
        }
        if !(bytes[0] == 0x4d && bytes[1] == 0x45 && bytes[2] == 0x46) || bytes[3] != 1 {
            return Err(MefError::InvalidFrame);
        }
        let suite = AeadSuite::from_id(bytes[4])?;
        let kind = FrameKind::from_id(bytes[5])?;
        let session_id = copy_array::<32>(bytes, 6);
        let ratchet_public = copy_array::<32>(bytes, 38);
        let previous_chain_len = read_u32_be(bytes, 70);
        let message_number = read_u32_be(bytes, 74);
        let nonce_len = bytes[78] as usize;
        let body_len = read_u32_be(bytes, 79) as usize;
        if nonce_len != suite.nonce_len() || body_len < AEAD_TAG_LEN || body_len > MAX_CIPHERTEXT_LEN {
            return Err(MefError::InvalidFrame);
        }
        let expected_len = FIXED_HEADER_LEN + nonce_len + body_len;
        if bytes.len() < expected_len {
            return Err(MefError::InvalidFrame);
        }
        let nonce_end = FIXED_HEADER_LEN + nonce_len;
        let ciphertext = Ciphertext::from_parts(
            suite,
            copy_range(bytes, FIXED_HEADER_LEN, nonce_end),
            copy_range(bytes, nonce_end, expected_len),
        )?;
        let header = FrameHeader::new(kind, session_id, ratchet_public, previous_chain_len, message_number);
        let frame = Self::from_ciphertext(header, ciphertext)?;
        Ok((frame, expected_len))
    }

    /// Returns the authenticated header.
    pub fn header(&self) -> (header: FrameHeader)
        ensures
            header@ == self@.header,
    {
        self.header
    }

    /// Returns the selected AEAD suite.
    pub fn suite(&self) -> (suite: AeadSuite)
        ensures
            suite == self@.ciphertext.suite,
    {
        self.ciphertext.suite()
    }
}

} // verus!

verus! {

/// Decoding a well-formed frame's canonical encoding, followed by any bytes that keep the
/// input within the size bound, recovers the frame and its exact encoding length.
pub proof fn lemma_frame_prefix_round_trip(f: InnerFrameView, rest: Seq<u8>)
    requires
        f.wf(),
        f.bytes().len() + rest.len() <= MAX_CIPHERTEXT_LEN + FIXED_HEADER_LEN + 24,
    ensures
        decode_prefix_spec(f.bytes() + rest) == Ok::<(InnerFrameView, nat), MefError>((f, f.bytes().len())),
{
    let b = f.bytes() + rest;
    let c = f.ciphertext;
    let h = f.header;
    lemma_frame_aad_len(c.suite, h, c.body.len());
    crate::crypto::lemma_suite_id_round_trip(c.suite);
    super::header::lemma_kind_id_round_trip(h.kind);
    crate::bytes::lemma_u32_be_roundtrip(h.previous_chain_len);
    crate::bytes::lemma_u32_be_roundtrip(h.message_number);
    crate::bytes::lemma_u32_be_roundtrip(c.body.len() as u32);
    let aad = f.aad();
    assert(b.subrange(0, 83) =~= aad);
    assert(b.subrange(6, 38) =~= h.session_id);
    assert(b.subrange(38, 70) =~= h.ratchet_public);
    assert(b.subrange(70, 74) =~= u32_be(h.previous_chain_len));
    assert(b.subrange(74, 78) =~= u32_be(h.message_number));
    assert(b.subrange(79, 83) =~= u32_be(c.body.len() as u32));
    let n = c.nonce.len() as int;
    assert(b.subrange(83, 83 + n) =~= c.nonce);
    assert(b.subrange(83 + n, 83 + n + c.body.len()) =~= c.body);
    match decode_prefix_spec(b) {
        Ok((g, m)) => {
            assert(g.header =~= h);
            assert(g.ciphertext =~= c);
        },
        Err(_) => {},
    }
}

/// Decoding a well-formed frame's canonical encoding recovers the frame.
pub proof fn lemma_frame_round_trip(f: InnerFrameView)
    requires
        f.wf(),
    ensures
        decode_spec(f.bytes()) == Ok::<InnerFrameView, MefError>(f),
{
    assert(f.bytes() + Seq::<u8>::empty() =~= f.bytes());
    lemma_frame_prefix_round_trip(f, Seq::empty());
}

/// Whatever the decoder accepts is canonical: re-encoding the decoded frame gives back the
/// input bytes exactly.
pub proof fn lemma_frame_decode_canonical(b: Seq<u8>)
    requires
        decode_spec(b) is Ok,
    ensures
        decode_spec(b).unwrap().bytes() == b,
        decode_spec(b).unwrap().wf(),
{
    let f = decode_spec(b).unwrap();
    let c = f.ciphertext;
    let h = f.header;
    crate::bytes::lemma_u32_of_be_canonical(b.subrange(70, 74));
    crate::bytes::lemma_u32_of_be_canonical(b.subrange(74, 78));
    crate::bytes::lemma_u32_of_be_canonical(b.subrange(79, 83));
    assert(f.bytes() =~= b);
}

} // verus!
