//! Big-endian integer encodings and byte-buffer helpers shared by the wire formats.
use vstd::prelude::*;

verus! {

/// Big-endian encoding of a 16-bit integer.
pub open spec fn u16_be(x: u16) -> Seq<u8> {
    seq![(x >> 8u16) as u8, x as u8]
}

/// Big-endian encoding of a 32-bit integer.
pub open spec fn u32_be(x: u32) -> Seq<u8> {
    seq![(x >> 24u32) as u8, (x >> 16u32) as u8, (x >> 8u32) as u8, x as u8]
}

/// Big-endian encoding of a 64-bit integer.
pub open spec fn u64_be(x: u64) -> Seq<u8> {
    seq![
        (x >> 56u64) as u8,
        (x >> 48u64) as u8,
        (x >> 40u64) as u8,
        (x >> 32u64) as u8,
        (x >> 24u64) as u8,
        (x >> 16u64) as u8,
        (x >> 8u64) as u8,
        x as u8,
    ]
}

/// The 16-bit integer whose big-endian encoding is the first two bytes of `s`.
pub open spec fn u16_of_be(s: Seq<u8>) -> u16 {
    ((s[0] as u16) << 8u16) | (s[1] as u16)
}

/// The 32-bit integer whose big-endian encoding is the first four bytes of `s`.
pub open spec fn u32_of_be(s: Seq<u8>) -> u32 {
    ((s[0] as u32) << 24u32) | ((s[1] as u32) << 16u32) | ((s[2] as u32) << 8u32) | (s[3] as u32)
}

/// The 64-bit integer whose big-endian encoding is the first eight bytes of `s`.
pub open spec fn u64_of_be(s: Seq<u8>) -> u64 {
    ((s[0] as u64) << 56u64) | ((s[1] as u64) << 48u64) | ((s[2] as u64) << 40u64) | ((s[3] as u64)
        << 32u64) | ((s[4] as u64) << 24u64) | ((s[5] as u64) << 16u64) | ((s[6] as u64) << 8u64)
        | (s[7] as u64)
}

/// Decoding a big-endian 16-bit encoding gives back the integer.
pub proof fn lemma_u16_be_roundtrip(x: u16)
    ensures
        u16_be(x).len() == 2,
        u16_of_be(u16_be(x)) == x,
{
    assert((((x >> 8u16) as u8) as u16) << 8u16 | ((x as u8) as u16) == x) by (bit_vector);
}

/// Decoding a big-endian 32-bit encoding gives back the integer.
pub proof fn lemma_u32_be_roundtrip(x: u32)
    ensures
        u32_be(x).len() == 4,
        u32_of_be(u32_be(x)) == x,
{
    assert((((x >> 24u32) as u8) as u32) << 24u32 | (((x >> 16u32) as u8) as u32) << 16u32 | (((x
        >> 8u32) as u8) as u32) << 8u32 | ((x as u8) as u32) == x) by (bit_vector);
}

/// Decoding a big-endian 64-bit encoding gives back the integer.
pub proof fn lemma_u64_be_roundtrip(x: u64)
    ensures
        u64_be(x).len() == 8,
        u64_of_be(u64_be(x)) == x,
{
    assert((((x >> 56u64) as u8) as u64) << 56u64 | (((x >> 48u64) as u8) as u64) << 48u64 | (((x
        >> 40u64) as u8) as u64) << 40u64 | (((x >> 32u64) as u8) as u64) << 32u64 | (((x
        >> 24u64) as u8) as u64) << 24u64 | (((x >> 16u64) as u8) as u64) << 16u64 | (((x
        >> 8u64) as u8) as u64) << 8u64 | ((x as u8) as u64) == x) by (bit_vector);
}

/// Encoding the integer read from four bytes gives back those bytes.
pub proof fn lemma_u32_of_be_canonical(s: Seq<u8>)
    requires
        s.len() == 4,
    ensures
        u32_be(u32_of_be(s)) == s,
{
    let (b0, b1, b2, b3) = (s[0], s[1], s[2], s[3]);
    let v = u32_of_be(s);
    assert(v == ((b0 as u32) << 24u32) | ((b1 as u32) << 16u32) | ((b2 as u32) << 8u32) | (b3 as u32));
    assert(((((b0 as u32) << 24u32) | ((b1 as u32) << 16u32) | ((b2 as u32) << 8u32) | (b3 as u32))
        >> 24u32) as u8 == b0) by (bit_vector);
    assert(((((b0 as u32) << 24u32) | ((b1 as u32) << 16u32) | ((b2 as u32) << 8u32) | (b3 as u32))
        >> 16u32) as u8 == b1) by (bit_vector);
    assert(((((b0 as u32) << 24u32) | ((b1 as u32) << 16u32) | ((b2 as u32) << 8u32) | (b3 as u32))
        >> 8u32) as u8 == b2) by (bit_vector);
    assert(((((b0 as u32) << 24u32) | ((b1 as u32) << 16u32) | ((b2 as u32) << 8u32) | (b3 as u32))) as u8
        == b3) by (bit_vector);
    assert(u32_be(v) =~= s);
}

/// Encoding the integer read from eight bytes gives back those bytes.
pub proof fn lemma_u64_of_be_canonical(s: Seq<u8>)
    requires
        s.len() == 8,
    ensures
        u64_be(u64_of_be(s)) == s,
{
    let (b0, b1, b2, b3, b4, b5, b6, b7) = (s[0], s[1], s[2], s[3], s[4], s[5], s[6], s[7]);
    let v = u64_of_be(s);
    assert(v == ((b0 as u64) << 56u64) | ((b1 as u64) << 48u64) | ((b2 as u64) << 40u64) | ((b3 as u64) << 32u64)
        | ((b4 as u64) << 24u64) | ((b5 as u64) << 16u64) | ((b6 as u64) << 8u64) | (b7 as u64));
    assert(
        (v >> 56u64) as u8 == b0 && (v >> 48u64) as u8 == b1 && (v >> 40u64) as u8 == b2 && (v >> 32u64) as u8 == b3
        && (v >> 24u64) as u8 == b4 && (v >> 16u64) as u8 == b5 && (v >> 8u64) as u8 == b6 && v as u8 == b7
    ) by (bit_vector)
        requires
            v == ((b0 as u64) << 56u64) | ((b1 as u64) << 48u64) | ((b2 as u64) << 40u64) | ((b3 as u64) << 32u64)
                | ((b4 as u64) << 24u64) | ((b5 as u64) << 16u64) | ((b6 as u64) << 8u64) | (b7 as u64);
    assert(u64_be(v) =~= s);
}

/// Appends `src` to `out`.
pub fn extend_bytes(out: &mut Vec<u8>, src: &[u8])
    ensures
        final(out)@ == old(out)@ + src@,
{
    let ghost start = out@;
    let mut i: usize = 0;
    while i < src.len()
        invariant
            i <= src@.len(),
            out@ == start + src@.subrange(0, i as int),
        decreases src@.len() - i,
    {
        out.push(src[i]);
        i = i + 1;
        assert(out@ =~= start + src@.subrange(0, i as int));
    }
    assert(src@.subrange(0, src@.len() as int) =~= src@);
}

/// Appends the big-endian encoding of a 16-bit integer.
pub fn push_u16_be(out: &mut Vec<u8>, x: u16)
    ensures
        final(out)@ == old(out)@ + u16_be(x),
{
    out.push((x >> 8u16) as u8);
    out.push(x as u8);
    assert(out@ =~= old(out)@ + u16_be(x));
}

/// Appends the big-endian encoding of a 32-bit integer.
pub fn push_u32_be(out: &mut Vec<u8>, x: u32)
    ensures
        final(out)@ == old(out)@ + u32_be(x),
{
    out.push((x >> 24u32) as u8);
    out.push((x >> 16u32) as u8);
    out.push((x >> 8u32) as u8);
    out.push(x as u8);
    assert(out@ =~= old(out)@ + u32_be(x));
}

/// Appends the big-endian encoding of a 64-bit integer.
pub fn push_u64_be(out: &mut Vec<u8>, x: u64)
    ensures
        final(out)@ == old(out)@ + u64_be(x),
{
    out.push((x >> 56u64) as u8);
    out.push((x >> 48u64) as u8);
    out.push((x >> 40u64) as u8);
    out.push((x >> 32u64) as u8);
    out.push((x >> 24u64) as u8);
    out.push((x >> 16u64) as u8);
    out.push((x >> 8u64) as u8);
    out.push(x as u8);
    assert(out@ =~= old(out)@ + u64_be(x));
}

/// Reads a big-endian 16-bit integer at `offset`.
pub fn read_u16_be(bytes: &[u8], offset: usize) -> (r: u16)
    requires
        offset + 2 <= bytes@.len(),
    ensures
        r == u16_of_be(bytes@.subrange(offset as int, offset + 2)),
{
    ((bytes[offset] as u16) << 8u16) | (bytes[offset + 1] as u16)
}

/// Reads a big-endian 32-bit integer at `offset`.
pub fn read_u32_be(bytes: &[u8], offset: usize) -> (r: u32)
    requires
        offset + 4 <= bytes@.len(),
    ensures
        r == u32_of_be(bytes@.subrange(offset as int, offset + 4)),
{
    ((bytes[offset] as u32) << 24u32) | ((bytes[offset + 1] as u32) << 16u32) | ((bytes[offset
        + 2] as u32) << 8u32) | (bytes[offset + 3] as u32)
}

/// Reads a big-endian 64-bit integer at `offset`.
pub fn read_u64_be(bytes: &[u8], offset: usize) -> (r: u64)
    requires
        offset + 8 <= bytes@.len(),
    ensures
        r == u64_of_be(bytes@.subrange(offset as int, offset + 8)),
{
    ((bytes[offset] as u64) << 56u64) | ((bytes[offset + 1] as u64) << 48u64) | ((bytes[offset
        + 2] as u64) << 40u64) | ((bytes[offset + 3] as u64) << 32u64) | ((bytes[offset + 4] as u64)
        << 24u64) | ((bytes[offset + 5] as u64) << 16u64) | ((bytes[offset + 6] as u64) << 8u64)
        | (bytes[offset + 7] as u64)
}

/// Copies `N` bytes starting at `offset` into a fixed-size array.
pub fn copy_array<const N: usize>(bytes: &[u8], offset: usize) -> (r: [u8; N])
    requires
        offset + N <= bytes@.len(),
    ensures
        r@ == bytes@.subrange(offset as int, offset + N),
{
    let mut out = [0u8; N];
    let mut i: usize = 0;
    while i < N
        invariant
            i <= N,
            offset + N <= bytes.len(),
            out@.len() == N,
            forall|j: int| 0 <= j < i ==> out@[j] == bytes@[offset + j],
        decreases N - i,
    {
        out[i] = bytes[offset + i];
        i = i + 1;
    }
    assert(out@ =~= bytes@.subrange(offset as int, offset + N));
    out
}

/// Copies a byte slice into a new vector.
pub fn to_vec(bytes: &[u8]) -> (r: Vec<u8>)
    ensures
        r@ == bytes@,
{
    let mut out = Vec::new();
    extend_bytes(&mut out, bytes);
    assert(out@ =~= bytes@);
    out
}

} // verus!

verus! {

/// Copies `bytes[start..end]` into a new vector.
pub fn copy_range(bytes: &[u8], start: usize, end: usize) -> (r: Vec<u8>)
    requires
        start <= end <= bytes@.len(),
    ensures
        r@ == bytes@.subrange(start as int, end as int),
{
    let mut out: Vec<u8> = Vec::new();
    let mut i: usize = start;
    while i < end
        invariant
            start <= i <= end,
            end <= bytes@.len(),
            out@ == bytes@.subrange(start as int, i as int),
        decreases end - i,
    {
        out.push(bytes[i]);
        i = i + 1;
        assert(out@ =~= bytes@.subrange(start as int, i as int));
    }
    out
}

} // verus!

verus! {

/// Compares two 32-byte arrays; true exactly when they are equal.
pub fn bytes32_eq(a: &[u8; 32], b: &[u8; 32]) -> (eq: bool)
    ensures
        eq == (a@ == b@),
{
    let mut i: usize = 0;
    while i < 32
        invariant
            i <= 32,
            a@.len() == 32,
            b@.len() == 32,
            forall|j: int| 0 <= j < i ==> a@[j] == b@[j],
        decreases 32 - i,
    {
        if a[i] != b[i] {
            return false;
        }
        i = i + 1;
    }
    assert(a@ =~= b@);
    true
}

} // verus!
