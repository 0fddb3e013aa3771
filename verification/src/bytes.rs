//! Big-endian integers inside byte sequences.
use crate::error::ParseError;
use vstd::prelude::*;

verus! {

/// The value of the two bytes of `s` that start at `off`, most significant first.
pub open spec fn be16(s: Seq<u8>, off: int) -> int {
    s[off] as int * 256 + s[off + 1] as int
}

/// The value of the four bytes of `s` that start at `off`, most significant first.
pub open spec fn be32(s: Seq<u8>, off: int) -> int {
    be16(s, off) * 65536 + be16(s, off + 2)
}

/// The two bytes that stand for `v`, most significant first.
pub open spec fn u16_bytes(v: u16) -> Seq<u8> {
    seq![(v / 256) as u8, (v % 256) as u8]
}

/// The four bytes that stand for `v`, most significant first.
pub open spec fn u32_bytes(v: u32) -> Seq<u8> {
    u16_bytes((v / 65536) as u16) + u16_bytes((v % 65536) as u16)
}

/// The value of the eight bytes of `s` that start at `off`, most significant first.
pub open spec fn be64(s: Seq<u8>, off: int) -> int {
    be32(s, off) * 0x1_0000_0000 + be32(s, off + 4)
}

/// The eight bytes that stand for `v`, most significant first.
pub open spec fn u64_bytes(v: u64) -> Seq<u8> {
    u32_bytes((v / 0x1_0000_0000) as u32) + u32_bytes((v % 0x1_0000_0000) as u32)
}

/// The signed reading of a 32-bit pattern: patterns from 2^31 on stand for negative numbers.
pub open spec fn signed32(v: u32) -> i32 {
    if v < 0x8000_0000 {
        v as i32
    } else {
        (v - 0x1_0000_0000) as i32
    }
}

/// The 32-bit pattern of a signed number.
pub open spec fn unsigned32(v: i32) -> u32 {
    if v >= 0 {
        v as u32
    } else {
        (v + 0x1_0000_0000) as u32
    }
}

/// The signed reading of a 64-bit pattern.
pub open spec fn signed64(v: u64) -> i64 {
    if v < 0x8000_0000_0000_0000 {
        v as i64
    } else {
        (v - 0x1_0000_0000_0000_0000) as i64
    }
}

/// The 64-bit pattern of a signed number.
pub open spec fn unsigned64(v: i64) -> u64 {
    if v >= 0 {
        v as u64
    } else {
        (v + 0x1_0000_0000_0000_0000) as u64
    }
}

/// What a reader returned, held against what the format says of the same bytes.
pub open spec fn agrees<T: View>(
    r: Result<(T, usize), ParseError>,
    m: Result<(T::V, int), ParseError>,
) -> bool {
    match r {
        Ok((v, next)) => m == Ok::<(T::V, int), ParseError>((v@, next as int)),
        Err(e) => m == Err::<(T::V, int), ParseError>(e),
    }
}

/// Whether `n` more bytes can be read at `off`.
pub fn has_bytes(bytes: &[u8], off: usize, n: usize) -> (r: bool)
    ensures
        r == (off + n <= bytes@.len()),
        bytes@.len() <= usize::MAX,
{
    off <= bytes.len() && n <= bytes.len() - off
}

/// A copy of the bytes from `from` up to `to`.
pub fn copy_range(bytes: &[u8], from: usize, to: usize) -> (r: Vec<u8>)
    requires
        from <= to <= bytes@.len(),
    ensures
        r@ == bytes@.subrange(from as int, to as int),
{
    let mut out: Vec<u8> = Vec::new();
    let mut i: usize = from;
    while i < to
        invariant
            from <= i <= to <= bytes@.len(),
            out@ == bytes@.subrange(from as int, i as int),
        decreases to - i,
    {
        out.push(bytes[i]);
        i = i + 1;
        assert(out@ =~= bytes@.subrange(from as int, i as int));
    }
    out
}

/// Appends all of `src` to `out`.
pub fn push_all(out: &mut Vec<u8>, src: &[u8])
    ensures
        final(out)@ == old(out)@ + src@,
{
    let mut i: usize = 0;
    while i < src.len()
        invariant
            i <= src@.len(),
            out@ == old(out)@ + src@.subrange(0, i as int),
        decreases src@.len() - i,
    {
        out.push(src[i]);
        i = i + 1;
        assert(out@ =~= old(out)@ + src@.subrange(0, i as int));
    }
    assert(src@.subrange(0, src@.len() as int) =~= src@);
}

/// Whether two byte strings hold the same bytes.
pub fn bytes_eq(a: &[u8], b: &[u8]) -> (r: bool)
    ensures
        r == (a@ == b@),
{
    if a.len() != b.len() {
        return false;
    }
    let mut i: usize = 0;
    while i < a.len()
        invariant
            i <= a@.len(),
            a@.len() == b@.len(),
            a@.subrange(0, i as int) == b@.subrange(0, i as int),
        decreases a@.len() - i,
    {
        if a[i] != b[i] {
            assert(a@[i as int] != b@[i as int]);
            return false;
        }
        i = i + 1;
        assert(a@.subrange(0, i as int) =~= a@.subrange(0, i - 1).push(a@[i - 1]));
        assert(b@.subrange(0, i as int) =~= b@.subrange(0, i - 1).push(b@[i - 1]));
    }
    assert(a@ =~= a@.subrange(0, a@.len() as int));
    assert(b@ =~= b@.subrange(0, b@.len() as int));
    true
}

/// The signed number that the pattern `v` stands for.
pub fn to_i32(v: u32) -> (r: i32)
    ensures
        r == signed32(v),
{
    if v < 0x8000_0000 {
        v as i32
    } else {
        let low: i32 = (v - 0x8000_0000) as i32;
        low - 0x7fff_ffff - 1
    }
}

/// The pattern of the signed number `v`.
pub fn from_i32(v: i32) -> (r: u32)
    ensures
        r == unsigned32(v),
{
    if v >= 0 {
        v as u32
    } else {
        let low: u32 = (v + 0x7fff_ffff + 1) as u32;
        low + 0x8000_0000
    }
}

/// The signed number that the pattern `v` stands for.
pub fn to_i64(v: u64) -> (r: i64)
    ensures
        r == signed64(v),
{
    if v < 0x8000_0000_0000_0000 {
        v as i64
    } else {
        let low: i64 = (v - 0x8000_0000_0000_0000) as i64;
        low - 0x7fff_ffff_ffff_ffff - 1
    }
}

/// The pattern of the signed number `v`.
pub fn from_i64(v: i64) -> (r: u64)
    ensures
        r == unsigned64(v),
{
    if v >= 0 {
        v as u64
    } else {
        let low: u64 = (v + 0x7fff_ffff_ffff_ffff + 1) as u64;
        low + 0x8000_0000_0000_0000
    }
}

/// The two readings of a pattern undo each other.
pub proof fn lemma_signed_unsigned(a: u32, b: u64, c: i32, d: i64)
    ensures
        unsigned32(signed32(a)) == a,
        unsigned64(signed64(b)) == b,
        signed32(unsigned32(c)) == c,
        signed64(unsigned64(d)) == d,
{
}

/// Reads one byte at `off`.
pub fn read_u8(bytes: &[u8], off: usize) -> (r: Result<u8, ParseError>)
    ensures
        off < bytes@.len() ==> r == Ok::<u8, ParseError>(bytes@[off as int]),
        off >= bytes@.len() ==> r == Err::<u8, ParseError>(ParseError::TruncatedInput),
{
    if off < bytes.len() {
        Ok(bytes[off])
    } else {
        Err(ParseError::TruncatedInput)
    }
}

/// Reads a 16-bit big-endian integer at `off`.
pub fn read_u16(bytes: &[u8], off: usize) -> (r: Result<u16, ParseError>)
    ensures
        off + 2 <= bytes@.len() ==> r == Ok::<u16, ParseError>(be16(bytes@, off as int) as u16)
            && be16(bytes@, off as int) <= u16::MAX,
        off + 2 > bytes@.len() ==> r == Err::<u16, ParseError>(ParseError::TruncatedInput),
{
    if bytes.len() >= 2 && off <= bytes.len() - 2 {
        let hi: u16 = bytes[off] as u16;
        let lo: u16 = bytes[off + 1] as u16;
        Ok(hi * 256 + lo)
    } else {
        Err(ParseError::TruncatedInput)
    }
}

/// Reads a 32-bit big-endian integer at `off`.
pub fn read_u32(bytes: &[u8], off: usize) -> (r: Result<u32, ParseError>)
    ensures
        off + 4 <= bytes@.len() ==> r == Ok::<u32, ParseError>(be32(bytes@, off as int) as u32)
            && be32(bytes@, off as int) <= u32::MAX,
        off + 4 > bytes@.len() ==> r == Err::<u32, ParseError>(ParseError::TruncatedInput),
{
    if bytes.len() >= 4 && off <= bytes.len() - 4 {
        let b0: u32 = bytes[off] as u32;
        let b1: u32 = bytes[off + 1] as u32;
        let b2: u32 = bytes[off + 2] as u32;
        let b3: u32 = bytes[off + 3] as u32;
        Ok((b0 * 256 + b1) * 65536 + (b2 * 256 + b3))
    } else {
        Err(ParseError::TruncatedInput)
    }
}

/// Reads a 64-bit big-endian integer at `off`.
pub fn read_u64(bytes: &[u8], off: usize) -> (r: Result<u64, ParseError>)
    ensures
        off + 8 <= bytes@.len() ==> r == Ok::<u64, ParseError>(be64(bytes@, off as int) as u64)
            && be64(bytes@, off as int) <= u64::MAX,
        off + 8 > bytes@.len() ==> r == Err::<u64, ParseError>(ParseError::TruncatedInput),
{
    if bytes.len() >= 8 && off <= bytes.len() - 8 {
        let hi: u64 = match read_u32(bytes, off) {
            Ok(v) => v as u64,
            Err(e) => {
                return Err(e);
            },
        };
        let lo: u64 = match read_u32(bytes, off + 4) {
            Ok(v) => v as u64,
            Err(e) => {
                return Err(e);
            },
        };
        Ok(hi * 0x1_0000_0000 + lo)
    } else {
        Err(ParseError::TruncatedInput)
    }
}

/// Appends the two bytes of `v`, most significant first.
pub fn push_u16(out: &mut Vec<u8>, v: u16)
    ensures
        final(out)@ == old(out)@ + u16_bytes(v),
{
    out.push((v / 256) as u8);
    out.push((v % 256) as u8);
    assert(out@ =~= old(out)@ + u16_bytes(v));
}

/// Appends the four bytes of `v`, most significant first.
pub fn push_u32(out: &mut Vec<u8>, v: u32)
    ensures
        final(out)@ == old(out)@ + u32_bytes(v),
{
    push_u16(out, (v / 65536) as u16);
    push_u16(out, (v % 65536) as u16);
    assert(out@ =~= old(out)@ + u32_bytes(v));
}

/// Appends the eight bytes of `v`, most significant first.
pub fn push_u64(out: &mut Vec<u8>, v: u64)
    ensures
        final(out)@ == old(out)@ + u64_bytes(v),
{
    push_u32(out, (v / 0x1_0000_0000) as u32);
    push_u32(out, (v % 0x1_0000_0000) as u32);
    assert(out@ =~= old(out)@ + u64_bytes(v));
}

/// Writing the 16-bit value found at `off` gives back the two bytes found there.
pub proof fn lemma_be16_bytes(s: Seq<u8>, off: int)
    requires
        0 <= off,
        off + 2 <= s.len(),
    ensures
        0 <= be16(s, off) <= u16::MAX,
        u16_bytes(be16(s, off) as u16) == s.subrange(off, off + 2),
{
    assert(u16_bytes(be16(s, off) as u16) =~= s.subrange(off, off + 2));
}

/// Writing the 32-bit value found at `off` gives back the four bytes found there.
pub proof fn lemma_be32_bytes(s: Seq<u8>, off: int)
    requires
        0 <= off,
        off + 4 <= s.len(),
    ensures
        0 <= be32(s, off) <= u32::MAX,
        u32_bytes(be32(s, off) as u32) == s.subrange(off, off + 4),
{
    lemma_be16_bytes(s, off);
    lemma_be16_bytes(s, off + 2);
    let v = be32(s, off) as u32;
    assert((v / 65536) as int == be16(s, off));
    assert((v % 65536) as int == be16(s, off + 2));
    assert(u32_bytes(v) =~= s.subrange(off, off + 4));
}

/// Writing the 64-bit value found at `off` gives back the eight bytes found there.
pub proof fn lemma_be64_bytes(s: Seq<u8>, off: int)
    requires
        0 <= off,
        off + 8 <= s.len(),
    ensures
        0 <= be64(s, off) <= u64::MAX,
        u64_bytes(be64(s, off) as u64) == s.subrange(off, off + 8),
{
    lemma_be32_bytes(s, off);
    lemma_be32_bytes(s, off + 4);
    let v = be64(s, off) as u64;
    assert((v / 0x1_0000_0000) as int == be32(s, off));
    assert((v % 0x1_0000_0000) as int == be32(s, off + 4));
    assert(u64_bytes(v) =~= s.subrange(off, off + 4) + s.subrange(off + 4, off + 8));
    assert(u64_bytes(v) =~= s.subrange(off, off + 8));
}

/// Reading back what `u16_bytes` wrote gives the value written.
pub proof fn lemma_bytes_be16(v: u16)
    ensures
        be16(u16_bytes(v), 0) == v,
        u16_bytes(v).len() == 2,
{
}

/// Reading back what `u32_bytes` wrote gives the value written.
pub proof fn lemma_bytes_be32(v: u32)
    ensures
        be32(u32_bytes(v), 0) == v,
        u32_bytes(v).len() == 4,
{
    lemma_bytes_be16((v / 65536) as u16);
    lemma_bytes_be16((v % 65536) as u16);
    let s = u32_bytes(v);
    assert(s[0] == u16_bytes((v / 65536) as u16)[0]);
    assert(s[1] == u16_bytes((v / 65536) as u16)[1]);
    assert(s[2] == u16_bytes((v % 65536) as u16)[0]);
    assert(s[3] == u16_bytes((v % 65536) as u16)[1]);
}

} // verus!
