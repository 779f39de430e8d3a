//! Byte-level helpers shared by every decoder: the error type, the
//! little-endian field readers and a few slice utilities.

use vstd::prelude::*;
use vstd::utf8::*;
use vstd::string::StringSliceAdditionalSpecFns;

verus! {

/// Errors raised while decoding a binary member.
#[derive(Debug, Clone, Copy, PartialEq, Eq)]
pub enum NdsError {
    /// The data ends before a field the format requires.
    Truncated {
        /// What was being read.
        what: &'static str,
        /// Bytes the read needed.
        need: usize,
        /// Bytes that were there.
        got: usize,
    },
    /// A field holds a value the format does not allow.
    Invalid {
        /// What was wrong.
        what: &'static str,
    },
}

/// The little-endian `u16` at `off` of `s`.
pub open spec fn spec_u16le(s: Seq<u8>, off: int) -> u16 {
    (s[off] as int + s[off + 1] as int * 0x100) as u16
}

/// The little-endian `u32` at `off` of `s`.
pub open spec fn spec_u32le(s: Seq<u8>, off: int) -> u32 {
    (s[off] as int + s[off + 1] as int * 0x100 + s[off + 2] as int * 0x10000 + s[off + 3] as int
        * 0x1000000) as u32
}

/// Whether the four bytes at `off` of `s` are `m0 m1 m2 m3`.
pub open spec fn spec_magic(s: Seq<u8>, off: int, m0: u8, m1: u8, m2: u8, m3: u8) -> bool {
    &&& 0 <= off
    &&& off + 4 <= s.len()
    &&& s[off] == m0
    &&& s[off + 1] == m1
    &&& s[off + 2] == m2
    &&& s[off + 3] == m3
}

/// Reads the little-endian `u16` at `off`; fails when the field runs
/// past the data.
pub fn u16le(data: &[u8], off: usize) -> (res: Result<u16, NdsError>)
    ensures
        off + 2 <= data@.len() ==> res == Ok::<u16, NdsError>(spec_u16le(data@, off as int)),
        off + 2 > data@.len() ==> res is Err,
{
    if off > data.len() || data.len() - off < 2 {
        return Err(NdsError::Truncated { what: "u16 field", need: off.saturating_add(2), got: data.len() });
    }
    let v: u16 = data[off] as u16 + data[off + 1] as u16 * 0x100;
    Ok(v)
}

/// Reads the little-endian `u32` at `off`; fails when the field runs
/// past the data.
pub fn u32le(data: &[u8], off: usize) -> (res: Result<u32, NdsError>)
    ensures
        off + 4 <= data@.len() ==> res == Ok::<u32, NdsError>(spec_u32le(data@, off as int)),
        off + 4 > data@.len() ==> res is Err,
{
    if off > data.len() || data.len() - off < 4 {
        return Err(NdsError::Truncated { what: "u32 field", need: off.saturating_add(4), got: data.len() });
    }
    let v: u32 = data[off] as u32 + data[off + 1] as u32 * 0x100 + data[off + 2] as u32 * 0x10000
        + data[off + 3] as u32 * 0x1000000;
    Ok(v)
}

/// Whether the four bytes at `off` are `m0 m1 m2 m3` (false when they
/// run past the data).
pub fn has_magic(data: &[u8], off: usize, m0: u8, m1: u8, m2: u8, m3: u8) -> (res: bool)
    ensures
        res == spec_magic(data@, off as int, m0, m1, m2, m3),
{
    if off > data.len() || data.len() - off < 4 {
        return false;
    }
    data[off] == m0 && data[off + 1] == m1 && data[off + 2] == m2 && data[off + 3] == m3
}

/// The bytes `data[start..end]`.
pub fn slice_range<'a, T>(data: &'a [T], start: usize, end: usize) -> (res: &'a [T])
    requires
        start <= end <= data@.len(),
    ensures
        res@ == data@.subrange(start as int, end as int),
{
    vstd::slice::slice_subrange(data, start, end)
}

/// Whether two byte strings are equal.
pub fn bytes_eq(a: &[u8], b: &[u8]) -> (res: bool)
    ensures
        res == (a@ == b@),
{
    if a.len() != b.len() {
        return false;
    }
    let mut i: usize = 0;
    while i < a.len()
        invariant
            a@.len() == b@.len(),
            i <= a@.len(),
            forall|k: int| 0 <= k < i ==> a@[k] == b@[k],
        decreases a@.len() - i,
    {
        if a[i] != b[i] {
            return false;
        }
        i += 1;
    }
    assert(a@ =~= b@);
    true
}

/// Whether two strings are equal.
pub fn str_eq(a: &str, b: &str) -> (res: bool)
    ensures
        res == (a@ == b@),
{
    proof {
        encode_utf8_decode_utf8(a@);
        encode_utf8_decode_utf8(b@);
    }
    bytes_eq(a.as_bytes(), b.as_bytes())
}

/// The little-endian bytes of a `u16`.
pub open spec fn le16(v: u16) -> Seq<u8> {
    seq![(v % 0x100) as u8, (v / 0x100) as u8]
}

/// The little-endian bytes of a `u32`.
pub open spec fn le32(v: u32) -> Seq<u8> {
    seq![
        (v % 0x100) as u8,
        ((v / 0x100) % 0x100) as u8,
        ((v / 0x10000) % 0x100) as u8,
        (v / 0x1000000) as u8,
    ]
}

/// Reading back a written `u16` gives the value.
pub proof fn lemma_le16_read(a: Seq<u8>, v: u16, b: Seq<u8>)
    ensures
        spec_u16le(a + le16(v) + b, a.len() as int) == v,
        (a + le16(v) + b).subrange(a.len() as int, a.len() as int + 2) == le16(v),
{
    let s = a + le16(v) + b;
    assert(s[a.len() as int] == le16(v)[0]);
    assert(s[a.len() as int + 1] == le16(v)[1]);
    assert(s.subrange(a.len() as int, a.len() as int + 2) =~= le16(v));
}

/// Reading back a written `u32` gives the value.
pub proof fn lemma_le32_read(a: Seq<u8>, v: u32, b: Seq<u8>)
    ensures
        spec_u32le(a + le32(v) + b, a.len() as int) == v,
        (a + le32(v) + b).subrange(a.len() as int, a.len() as int + 4) == le32(v),
{
    let s = a + le32(v) + b;
    assert(s[a.len() as int] == le32(v)[0]);
    assert(s[a.len() as int + 1] == le32(v)[1]);
    assert(s[a.len() as int + 2] == le32(v)[2]);
    assert(s[a.len() as int + 3] == le32(v)[3]);
    assert(s.subrange(a.len() as int, a.len() as int + 4) =~= le32(v));
}

/// The two bytes at `off` are the little-endian form of the `u16` read
/// there.
pub proof fn lemma_u16le_bytes(s: Seq<u8>, off: int)
    requires
        0 <= off,
        off + 2 <= s.len(),
    ensures
        s.subrange(off, off + 2) == le16(spec_u16le(s, off)),
{
    let v = spec_u16le(s, off);
    assert(s.subrange(off, off + 2) =~= le16(v));
}

/// The four bytes at `off` are the little-endian form of the `u32` read
/// there.
pub proof fn lemma_u32le_bytes(s: Seq<u8>, off: int)
    requires
        0 <= off,
        off + 4 <= s.len(),
    ensures
        s.subrange(off, off + 4) == le32(spec_u32le(s, off)),
{
    let v = spec_u32le(s, off);
    let (b0, b1, b2, b3) = (s[off], s[off + 1], s[off + 2], s[off + 3]);
    let w: u32 = (b0 as u32 + b1 as u32 * 0x100 + b2 as u32 * 0x10000 + b3 as u32 * 0x1000000) as u32;
    assert(w == v);
    assert((w % 0x100) as u8 == b0 && ((w / 0x100) % 0x100) as u8 == b1 && ((w / 0x10000) % 0x100)
        as u8 == b2 && (w / 0x1000000) as u8 == b3) by (bit_vector)
        requires
            w == (b0 as u32 + b1 as u32 * 0x100 + b2 as u32 * 0x10000 + b3 as u32 * 0x1000000) as u32,
    ;
    assert(s.subrange(off, off + 4) =~= le32(v));
}

/// Two adjacent subranges join into one.
pub proof fn lemma_subrange_concat(s: Seq<u8>, a: int, m: int, b: int)
    requires
        0 <= a <= m <= b <= s.len(),
    ensures
        s.subrange(a, m) + s.subrange(m, b) == s.subrange(a, b),
{
    assert(s.subrange(a, m) + s.subrange(m, b) =~= s.subrange(a, b));
}

/// Appends the little-endian bytes of `v`.
pub fn push_le16(out: &mut Vec<u8>, v: u16)
    ensures
        final(out)@ == old(out)@ + le16(v),
{
    out.push((v % 0x100) as u8);
    out.push((v / 0x100) as u8);
    assert(final(out)@ =~= old(out)@ + le16(v));
}

/// Appends the little-endian bytes of `v`.
pub fn push_le32(out: &mut Vec<u8>, v: u32)
    ensures
        final(out)@ == old(out)@ + le32(v),
{
    out.push((v % 0x100) as u8);
    out.push(((v / 0x100) % 0x100) as u8);
    out.push(((v / 0x10000) % 0x100) as u8);
    out.push((v / 0x1000000) as u8);
    assert(final(out)@ =~= old(out)@ + le32(v));
}

/// Four bytes, as a new vector.
pub fn magic_vec(m0: u8, m1: u8, m2: u8, m3: u8) -> (res: Vec<u8>)
    ensures
        res@ == seq![m0, m1, m2, m3],
{
    let mut v: Vec<u8> = Vec::new();
    v.push(m0);
    v.push(m1);
    v.push(m2);
    v.push(m3);
    assert(v@ =~= seq![m0, m1, m2, m3]);
    v
}

/// Appends four bytes.
pub fn push_magic(out: &mut Vec<u8>, m0: u8, m1: u8, m2: u8, m3: u8)
    ensures
        final(out)@ == old(out)@ + seq![m0, m1, m2, m3],
{
    out.push(m0);
    out.push(m1);
    out.push(m2);
    out.push(m3);
    assert(final(out)@ =~= old(out)@ + seq![m0, m1, m2, m3]);
}

/// Appends `bytes`.
pub fn push_bytes(out: &mut Vec<u8>, bytes: &[u8])
    ensures
        final(out)@ == old(out)@ + bytes@,
{
    let ghost start = out@;
    let mut i: usize = 0;
    while i < bytes.len()
        invariant
            i <= bytes@.len(),
            out@ == start + bytes@.subrange(0, i as int),
        decreases bytes@.len() - i,
    {
        out.push(bytes[i]);
        i = i + 1;
        assert(out@ =~= start + bytes@.subrange(0, i as int));
    }
    assert(bytes@.subrange(0, i as int) =~= bytes@);
}

/// Decodes `bytes` as UTF-8 (`core::str::from_utf8`): `None` exactly
/// when the bytes are not valid UTF-8, else the string they encode.
#[verifier::external_body]
pub fn utf8<'a>(bytes: &'a [u8]) -> (res: Option<&'a str>)
    ensures
        res is Some <==> valid_utf8(bytes@),
        res matches Some(s) ==> s@ == decode_utf8(bytes@),
{
    core::str::from_utf8(bytes).ok()
}

} // verus!
