//! Domain-separated BLAKE3 identifiers, HKDF-SHA-256 key derivation and constant-time comparison.
use vstd::prelude::*;

use subtle::ConstantTimeEq;
use vstd::string::StringSliceAdditionalSpecFns;

use super::secret::{AeadKey, Secret};
use crate::bytes::{extend_bytes, push_u64_be, u64_be};
use crate::{MefError, Result, MAX_CIPHERTEXT_LEN};

verus! {

/// HKDF-SHA-256 with the given salt and input keying material, expanded to 32 bytes under `info`.
pub uninterp spec fn hkdf_sha256(salt: Seq<u8>, ikm: Seq<u8>, info: Seq<u8>) -> Seq<u8>;

/// The 32-byte BLAKE3 hash of `data`.
pub uninterp spec fn blake3(data: Seq<u8>) -> Seq<u8>;

/// `bytes` followed by `n` zero bytes.
pub open spec fn zero_extended(bytes: Seq<u8>, n: nat) -> Seq<u8> {
    bytes + Seq::new(n, |i: int| 0u8)
}

/// The SHA-256 block length, up to which HMAC pads its key with zero bytes.
pub const SHA256_BLOCK_LEN: usize = 64;

/// Runs `hkdf::Hkdf::<sha2::Sha256>::new(Some(salt), ikm)` and `expand(info, ..)` into 32 bytes.
///
/// Claims that the expansion succeeds (the source rejects only outputs longer than 255 hash
/// blocks) and that the output is `hkdf_sha256` of the arguments. The salt is the HMAC key of
/// the extract step, which HMAC pads with zero bytes to the 64-byte SHA-256 block (hmac's
/// `get_der_key`); so the output is also `hkdf_sha256` of the salt extended by zero bytes up to
/// that block length. No such claim is made of the input keying material.
#[verifier::external_body]
fn hkdf_sha256_expand(salt: &[u8], ikm: &[u8], info: &[u8]) -> (okm: Option<[u8; 32]>)
    ensures
        okm is Some,
        okm matches Some(k) ==> k@ == hkdf_sha256(salt@, ikm@, info@),
        okm matches Some(k) ==> forall|n: nat| salt@.len() + n <= SHA256_BLOCK_LEN
            ==> #[trigger] hkdf_sha256(zero_extended(salt@, n), ikm@, info@) == k@,
{
    let hkdf = hkdf::Hkdf::<sha2::Sha256>::new(Some(salt), ikm);
    let mut okm = [0u8; 32];
    hkdf.expand(info, &mut okm).ok()?;
    Some(okm)
}

/// Computes `blake3::hash(data)`; claims only that the result is `blake3` of the data.
#[verifier::external_body]
fn blake3_hash(data: &[u8]) -> (digest: [u8; 32])
    ensures
        digest@ == blake3(data@),
{
    *blake3::hash(data).as_bytes()
}

/// Compares two slices with `subtle::ConstantTimeEq::ct_eq`; the source returns true exactly
/// when the slices have the same length and the same bytes.
#[verifier::external_body]
fn subtle_ct_eq(left: &[u8], right: &[u8]) -> (eq: bool)
    ensures
        eq == (left@ == right@),
{
    bool::from(left.ct_eq(right))
}

/// The bytes of the protocol identifier "MEF-26".
pub open spec fn protocol_id_bytes() -> Seq<u8> {
    seq![0x4du8, 0x45u8, 0x46u8, 0x2du8, 0x32u8, 0x36u8]
}

/// The bytes of the HKDF domain kind "kdf".
pub open spec fn kdf_kind() -> Seq<u8> {
    seq![0x6bu8, 0x64u8, 0x66u8]
}

/// The bytes of the identifier domain kind "blake3-id".
pub open spec fn blake3_id_kind() -> Seq<u8> {
    seq![0x62u8, 0x6cu8, 0x61u8, 0x6bu8, 0x65u8, 0x33u8, 0x2du8, 0x69u8, 0x64u8]
}

/// The domain label "MEF-26" 0 kind 0 label.
pub open spec fn domain_label_spec(kind: Seq<u8>, label: Seq<u8>) -> Seq<u8> {
    protocol_id_bytes() + seq![0u8] + kind + seq![0u8] + label
}

pub(crate) fn push_protocol_id(out: &mut Vec<u8>)
    ensures
        final(out)@ == old(out)@ + protocol_id_bytes(),
{
    let id: [u8; 6] = [0x4d, 0x45, 0x46, 0x2d, 0x32, 0x36];
    extend_bytes(out, &id);
    assert(id@ =~= protocol_id_bytes());
}

fn domain_label(kind: &[u8], label: &str) -> (info: Vec<u8>)
    ensures
        info@ == domain_label_spec(kind@, label.spec_bytes()),
{
    let mut info: Vec<u8> = Vec::new();
    push_protocol_id(&mut info);
    info.push(0);
    extend_bytes(&mut info, kind);
    info.push(0);
    extend_bytes(&mut info, label.as_bytes());
    assert(info@ =~= domain_label_spec(kind@, label.spec_bytes()));
    info
}

/// The key that [`derive_secret`] derives from a salt, label bytes and input.
pub open spec fn kdf(salt: Seq<u8>, label: Seq<u8>, input: Seq<u8>) -> Seq<u8> {
    hkdf_sha256(salt, input, domain_label_spec(kdf_kind(), label))
}

/// The label is empty or longer than 255 bytes, or the input exceeds the size limit.
pub open spec fn kdf_request_invalid(label: Seq<u8>, input: Seq<u8>) -> bool {
    label.len() == 0 || label.len() > 255 || input.len() > MAX_CIPHERTEXT_LEN
}

/// Derives a 32-byte secret through HKDF-SHA-256 with a mandatory MEF-26 label.
///
/// Returns [`MefError::InvalidLength`] exactly for an empty or over-long label or oversized
/// input; otherwise the HKDF output under the domain label "MEF-26" 0 "kdf" 0 label, with
/// `salt` as the HKDF-Extract salt and `input` as the input keying material. As the salt is
/// the extract step's HMAC key, extending it by zero bytes up to the SHA-256 block length
/// derives the same secret.
pub fn derive_secret(salt: &[u8], label: &str, input: &[u8]) -> (res: Result<Secret>)
    ensures
        res is Ok <==> !kdf_request_invalid(label.spec_bytes(), input@),
        res matches Err(e) ==> e == MefError::InvalidLength,
        res matches Ok(s) ==> s@ == kdf(salt@, label.spec_bytes(), input@),
        res matches Ok(s) ==> s@ == hkdf_sha256(salt@, input@, domain_label_spec(kdf_kind(), label.spec_bytes())),
        res matches Ok(s) ==> forall|n: nat| salt@.len() + n <= SHA256_BLOCK_LEN
            ==> #[trigger] kdf(zero_extended(salt@, n), label.spec_bytes(), input@) == s@,
{
    let label_bytes = label.as_bytes();
    if label_bytes.len() == 0 || label_bytes.len() > 255 || input.len() > MAX_CIPHERTEXT_LEN {
        return Err(MefError::InvalidLength);
    }
    let kind: [u8; 3] = [0x6b, 0x64, 0x66];
    assert(kind@ =~= kdf_kind());
    let info = domain_label(&kind, label);
    match hkdf_sha256_expand(salt, input, info.as_slice()) {
        Some(output) => Ok(Secret::from_bytes(output)),
        None => Err(MefError::KeyDerivationFailed),
    }
}

/// Derives a typed AEAD key through HKDF-SHA-256, exactly as [`derive_secret`].
pub fn derive_aead_key(salt: &[u8], label: &str, input: &[u8]) -> (res: Result<AeadKey>)
    ensures
        res is Ok <==> !kdf_request_invalid(label.spec_bytes(), input@),
        res matches Err(e) ==> e == MefError::InvalidLength,
        res matches Ok(k) ==> k@ == kdf(salt@, label.spec_bytes(), input@),
        res matches Ok(k) ==> forall|n: nat| salt@.len() + n <= SHA256_BLOCK_LEN
            ==> #[trigger] kdf(zero_extended(salt@, n), label.spec_bytes(), input@) == k@,
{
    let secret = derive_secret(salt, label, input)?;
    Ok(AeadKey::from_bytes(secret.copy_bytes()))
}

/// Compares equal-length sensitive values in constant time; true exactly when they are equal.
pub fn ct_eq(left: &[u8], right: &[u8]) -> (eq: bool)
    ensures
        eq == (left@ == right@),
{
    left.len() == right.len() && subtle_ct_eq(left, right)
}

/// The byte contents of a list of byte slices.
pub open spec fn parts_view(parts: Seq<&[u8]>) -> Seq<Seq<u8>> {
    Seq::new(parts.len(), |i: int| parts[i]@)
}

/// Each part preceded by its length as a big-endian 64-bit integer.
pub open spec fn encode_parts(parts: Seq<Seq<u8>>) -> Seq<u8>
    decreases parts.len(),
{
    if parts.len() == 0 {
        Seq::empty()
    } else {
        u64_be(parts[0].len() as u64) + parts[0] + encode_parts(parts.drop_first())
    }
}

/// The bytes that [`blake3_id`] hashes.
pub open spec fn blake3_id_input(label: Seq<u8>, parts: Seq<Seq<u8>>) -> Seq<u8> {
    domain_label_spec(blake3_id_kind(), label) + encode_parts(parts)
}

/// The label is empty or longer than 255 bytes, or some part exceeds the size limit.
pub open spec fn blake3_request_invalid(label: Seq<u8>, parts: Seq<Seq<u8>>) -> bool {
    label.len() == 0 || label.len() > 255 || exists|i: int| 0 <= i < parts.len() && parts[i].len() > MAX_CIPHERTEXT_LEN
}

/// Computes a 32-byte BLAKE3 identifier bound to a MEF-26 domain label.
///
/// Returns [`MefError::InvalidLength`] exactly for an empty or over-long label or an oversized
/// part; otherwise BLAKE3 of "MEF-26" 0 "blake3-id" 0 label followed by every part preceded
/// by its big-endian 64-bit length.
pub fn blake3_id(label: &str, parts: &[&[u8]]) -> (res: Result<[u8; 32]>)
    ensures
        res is Ok <==> !blake3_request_invalid(label.spec_bytes(), parts_view(parts@)),
        res matches Err(e) ==> e == MefError::InvalidLength,
        res matches Ok(d) ==> d@ == blake3(blake3_id_input(label.spec_bytes(), parts_view(parts@))),
{
    let ghost pv = parts_view(parts@);
    let label_bytes = label.as_bytes();
    if label_bytes.len() == 0 || label_bytes.len() > 255 {
        return Err(MefError::InvalidLength);
    }
    let mut i: usize = 0;
    while i < parts.len()
        invariant
            i <= parts@.len(),
            pv == parts_view(parts@),
            forall|j: int| 0 <= j < i ==> pv[j].len() <= MAX_CIPHERTEXT_LEN,
        decreases parts@.len() - i,
    {
        if parts[i].len() > MAX_CIPHERTEXT_LEN {
            assert(pv[i as int].len() > MAX_CIPHERTEXT_LEN);
            return Err(MefError::InvalidLength);
        }
        i = i + 1;
    }
    let kind: [u8; 9] = [0x62, 0x6c, 0x61, 0x6b, 0x65, 0x33, 0x2d, 0x69, 0x64];
    assert(kind@ =~= blake3_id_kind());
    let mut input = domain_label(&kind, label);
    let ghost prefix = input@;
    let mut k: usize = 0;
    assert(pv.skip(0) =~= pv);
    while k < parts.len()
        invariant
            k <= parts@.len(),
            pv == parts_view(parts@),
            input@ + encode_parts(pv.skip(k as int)) == prefix + encode_parts(pv),
        decreases parts@.len() - k,
    {
        let part: &[u8] = parts[k];
        assert(pv.skip(k as int).drop_first() =~= pv.skip(k + 1));
        push_u64_be(&mut input, part.len() as u64);
        extend_bytes(&mut input, part);
        assert(input@ + encode_parts(pv.skip(k + 1)) =~= prefix + encode_parts(pv));
        k = k + 1;
    }
    assert(pv.skip(parts@.len() as int) =~= Seq::<Seq<u8>>::empty());
    assert(input@ =~= prefix + encode_parts(pv));
    Ok(blake3_hash(input.as_slice()))
}

} // verus!

verus! {

/// A short ASCII label: its bytes are its characters, so the label is non-empty and at most
/// 255 bytes long.
pub proof fn lemma_ascii_label_len(label: &str)
    requires
        vstd::string::is_ascii(label),
        1 <= label@.len() <= 255,
    ensures
        1 <= label.spec_bytes().len() <= 255,
{
    vstd::string::is_ascii_spec_bytes(label);
}

/// The part encoding is length-delimited: two lists of parts within the size limit that
/// encode to the same bytes are the same list, so a fixed label never identifies two
/// different part lists by the same hash input.
pub proof fn lemma_encode_parts_injective(a: Seq<Seq<u8>>, b: Seq<Seq<u8>>)
    requires
        forall|i: int| 0 <= i < a.len() ==> (#[trigger] a[i]).len() <= MAX_CIPHERTEXT_LEN,
        forall|i: int| 0 <= i < b.len() ==> (#[trigger] b[i]).len() <= MAX_CIPHERTEXT_LEN,
        encode_parts(a) == encode_parts(b),
    ensures
        a == b,
    decreases a.len(),
{
    let ea = encode_parts(a);
    let eb = encode_parts(b);
    if a.len() == 0 {
        if b.len() > 0 {
            crate::bytes::lemma_u64_be_roundtrip(b[0].len() as u64);
            assert(eb.len() >= 8);
        }
        assert(a =~= b);
    } else if b.len() == 0 {
        crate::bytes::lemma_u64_be_roundtrip(a[0].len() as u64);
        assert(ea.len() >= 8);
    } else {
        let la = a[0].len() as u64;
        let lb = b[0].len() as u64;
        crate::bytes::lemma_u64_be_roundtrip(la);
        crate::bytes::lemma_u64_be_roundtrip(lb);
        assert(ea.subrange(0, 8) =~= u64_be(la));
        assert(eb.subrange(0, 8) =~= u64_be(lb));
        assert(la == lb);
        let n = a[0].len() as int;
        assert(ea.subrange(8, 8 + n) =~= a[0]);
        assert(eb.subrange(8, 8 + n) =~= b[0]);
        assert(ea.subrange(8 + n, ea.len() as int) =~= encode_parts(a.drop_first()));
        assert(eb.subrange(8 + n, eb.len() as int) =~= encode_parts(b.drop_first()));
        assert forall|i: int| 0 <= i < a.drop_first().len() implies (#[trigger] a.drop_first()[i]).len() <= MAX_CIPHERTEXT_LEN by {
            assert(a.drop_first()[i] == a[i + 1]);
        }
        assert forall|i: int| 0 <= i < b.drop_first().len() implies (#[trigger] b.drop_first()[i]).len() <= MAX_CIPHERTEXT_LEN by {
            assert(b.drop_first()[i] == b[i + 1]);
        }
        lemma_encode_parts_injective(a.drop_first(), b.drop_first());
        assert(a[0] == b[0]);
        assert forall|i: int| 0 <= i < a.len() implies a[i] == b[i] by {
            if i > 0 {
                assert(a[i] == a.drop_first()[i - 1]);
                assert(b[i] == b.drop_first()[i - 1]);
            }
        }
        assert(a =~= b);
    }
}

} // verus!
