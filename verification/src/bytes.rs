//! Little-endian fields of byte buffers filled by the system, and the
//! UTF-16 text inside them.

use vstd::prelude::*;

use crate::text::{chars_of, from_utf16_lossy, string_from, trim_chars, trim_spec, utf16_lossy};

verus! {

/// The unsigned little-endian number of `n` bytes at `b[off..off + n]`.
pub open spec fn le(b: Seq<u8>, off: int, n: nat) -> int
    decreases n,
{
    if n == 0 {
        0
    } else {
        b[off] as int + 256 * le(b, off + 1, (n - 1) as nat)
    }
}

pub open spec fn le16(b: Seq<u8>, off: int) -> u16 {
    le(b, off, 2) as u16
}

pub open spec fn le32(b: Seq<u8>, off: int) -> u32 {
    le(b, off, 4) as u32
}

pub open spec fn le64(b: Seq<u8>, off: int) -> u64 {
    le(b, off, 8) as u64
}

/// Two's complement: the signed reading of an unsigned 64-bit pattern.
pub open spec fn signed64(v: u64) -> i64 {
    if v < 0x8000_0000_0000_0000 {
        v as i64
    } else {
        (v - 0x1_0000_0000_0000_0000) as i64
    }
}

/// Little-endian `i64` at `b[off..off + 8]`.
pub open spec fn lei64(b: Seq<u8>, off: int) -> i64 {
    signed64(le64(b, off))
}

proof fn lemma_le_bound(b: Seq<u8>, off: int, n: nat)
    ensures
        0 <= le(b, off, n) < pow256(n),
    decreases n,
{
    if n > 0 {
        lemma_le_bound(b, off + 1, (n - 1) as nat);
    }
}

pub open spec fn pow256(n: nat) -> int
    decreases n,
{
    if n == 0 {
        1
    } else {
        256 * pow256((n - 1) as nat)
    }
}

/// Little-endian `u16` at `b[off..off + 2]`.
pub fn read_u16(b: &[u8], off: usize) -> (r: u16)
    requires
        off + 2 <= b@.len(),
    ensures
        r == le16(b@, off as int),
        r as int == le(b@, off as int, 2),
{
    proof {
        reveal_with_fuel(le, 3);
    }
    (b[off] as u16) + (b[off + 1] as u16) * 256
}

/// Little-endian `u32` at `b[off..off + 4]`.
pub fn read_u32(b: &[u8], off: usize) -> (r: u32)
    requires
        off + 4 <= b@.len(),
    ensures
        r == le32(b@, off as int),
        r as int == le(b@, off as int, 4),
{
    proof {
        reveal_with_fuel(le, 5);
    }
    (b[off] as u32) + (b[off + 1] as u32) * 0x100 + (b[off + 2] as u32) * 0x1_0000 + (b[off
        + 3] as u32) * 0x100_0000
}

/// Little-endian `u64` at `b[off..off + 8]`.
pub fn read_u64(b: &[u8], off: usize) -> (r: u64)
    requires
        off + 8 <= b@.len(),
    ensures
        r == le64(b@, off as int),
        r as int == le(b@, off as int, 8),
{
    assert(b@.len() == b.len());
    let lo = read_u32(b, off) as u64;
    let hi = read_u32(b, off + 4) as u64;
    proof {
        lemma_le_split(b@, off as int);
    }
    lo + hi * 0x1_0000_0000
}

proof fn lemma_le_split(b: Seq<u8>, off: int)
    ensures
        le(b, off, 8) == le(b, off, 4) + 0x1_0000_0000 * le(b, off + 4, 4),
{
    reveal_with_fuel(le, 9);
}

/// The signed reading of an unsigned 64-bit pattern.
pub fn to_signed(v: u64) -> (r: i64)
    ensures
        r == signed64(v),
{
    if v < 0x8000_0000_0000_0000 {
        v as i64
    } else {
        let m = u64::MAX - v;
        -(m as i64) - 1
    }
}

/// Little-endian `i64` at `b[off..off + 8]`.
pub fn read_i64(b: &[u8], off: usize) -> (r: i64)
    requires
        off + 8 <= b@.len(),
    ensures
        r == lei64(b@, off as int),
{
    to_signed(read_u64(b, off))
}

/// The code units of little-endian UTF-16 bytes, pair by pair (a last odd
/// byte is dropped).
pub open spec fn le_units(b: Seq<u8>) -> Seq<u16> {
    Seq::new(b.len() / 2, |i: int| le16(b, 2 * i))
}

/// `bytes.chunks_exact(2).map(u16::from_le_bytes)`.
pub fn units_from_le(b: &[u8]) -> (r: Vec<u16>)
    ensures
        r@ == le_units(b@),
{
    let n = b.len() / 2;
    let mut r: Vec<u16> = Vec::new();
    let mut i: usize = 0;
    while i < n
        invariant
            n == b@.len() / 2,
            b@.len() == b.len(),
            i <= n,
            r@ == le_units(b@).take(i as int),
        decreases n - i,
    {
        r.push(read_u16(b, 2 * i));
        i = i + 1;
        assert(r@ =~= le_units(b@).take(i as int));
    }
    assert(r@ =~= le_units(b@));
    r
}

/// The units before the first NUL (all of them without one).
pub open spec fn until_nul(u: Seq<u16>) -> Seq<u16>
    decreases u.len(),
{
    if u.len() == 0 {
        u
    } else if u[0] == 0 {
        Seq::empty()
    } else {
        seq![u[0]] + until_nul(u.drop_first())
    }
}

proof fn lemma_until_nul_prefix(u: Seq<u16>, i: int)
    requires
        0 <= i <= u.len(),
        forall|j: int| 0 <= j < i ==> u[j] != 0,
        i == u.len() || u[i] == 0,
    ensures
        until_nul(u) == u.take(i),
    decreases u.len(),
{
    if u.len() > 0 {
        if i == 0 {
            assert(u.take(0) =~= Seq::<u16>::empty());
        } else {
            lemma_until_nul_prefix(u.drop_first(), i - 1);
            assert(seq![u[0]] + u.drop_first().take(i - 1) =~= u.take(i));
        }
    } else {
        assert(u.take(0) =~= u);
    }
}

/// `units[..position(0).unwrap_or(len)]`.
pub fn cut_at_nul(u: &[u16]) -> (r: Vec<u16>)
    ensures
        r@ == until_nul(u@),
{
    let mut r: Vec<u16> = Vec::new();
    let mut i: usize = 0;
    while i < u.len() && u[i] != 0
        invariant
            i <= u.len(),
            r@ == u@.take(i as int),
            forall|j: int| 0 <= j < i ==> u@[j] != 0,
        decreases u.len() - i,
    {
        r.push(u[i]);
        i = i + 1;
        assert(r@ =~= u@.take(i as int));
    }
    proof {
        lemma_until_nul_prefix(u@, i as int);
    }
    r
}

/// The text of a NUL-terminated UTF-16 buffer.
pub open spec fn wide_text(u: Seq<u16>) -> Seq<char> {
    utf16_lossy(until_nul(u))
}

/// `String::from_utf16_lossy(&buf[..end])` with `end` the first NUL.
pub fn text_of_units(u: &[u16]) -> (s: String)
    ensures
        s@ == wide_text(u@),
{
    let cut = cut_at_nul(u);
    from_utf16_lossy(&cut)
}

/// Trimmed text of a NUL-terminated UTF-16 buffer.
pub fn trimmed_text_of_units(u: &[u16]) -> (s: String)
    ensures
        s@ == trim_spec(wide_text(u@)),
{
    let t = text_of_units(u);
    string_from(&trim_chars(&chars_of(t.as_str())))
}

/// The trimmed text of little-endian UTF-16 bytes, up to the first NUL —
/// a `REG_SZ`, or the first item of a `REG_MULTI_SZ`.
pub open spec fn wide_bytes_text(b: Seq<u8>) -> Seq<char> {
    trim_spec(wide_text(le_units(b)))
}

/// UTF-16 text from a byte buffer (`REG_SZ`, or the first item of a
/// `REG_MULTI_SZ`), trimmed.
pub fn wide_from_bytes(buf: &[u8]) -> (s: String)
    ensures
        s@ == wide_bytes_text(buf@),
{
    let units = units_from_le(buf);
    trimmed_text_of_units(&units)
}


/// The UTF-16 code units of one character.
pub open spec fn utf16_of_char(c: char) -> Seq<u16> {
    let v = c as u32;
    if v < 0x10000 {
        seq![v as u16]
    } else {
        let u = (v - 0x10000) as int;
        seq![(0xD800 + u / 0x400) as u16, (0xDC00 + u % 0x400) as u16]
    }
}

/// `str::encode_utf16`: the code units of a text.
pub open spec fn utf16_of(s: Seq<char>) -> Seq<u16>
    decreases s.len(),
{
    if s.len() == 0 {
        Seq::empty()
    } else {
        utf16_of(s.drop_last()) + utf16_of_char(s.last())
    }
}

/// The UTF-16 code units of a text (`str::encode_utf16`).
pub fn encode_utf16(s: &str) -> (r: Vec<u16>)
    ensures
        r@ == utf16_of(s@),
{
    let cs = chars_of(s);
    let mut r: Vec<u16> = Vec::new();
    let mut i: usize = 0;
    while i < cs.len()
        invariant
            i <= cs.len(),
            cs@ == s@,
            r@ == utf16_of(cs@.take(i as int)),
        decreases cs.len() - i,
    {
        let v = cs[i] as u32;
        proof {
            assert(cs@.take(i as int + 1).drop_last() =~= cs@.take(i as int));
            assert(cs@.take(i as int + 1).last() == cs@[i as int]);
        }
        if v < 0x10000 {
            r.push(v as u16);
        } else {
            let u = v - 0x10000;
            r.push((0xD800 + u / 0x400) as u16);
            r.push((0xDC00 + u % 0x400) as u16);
        }
        i = i + 1;
        assert(r@ =~= utf16_of(cs@.take(i as int)));
    }
    assert(cs@.take(cs@.len() as int) =~= cs@);
    r
}

/// A text as a NUL-terminated UTF-16 string for Win32.
pub fn wide(s: &str) -> (r: Vec<u16>)
    ensures
        r@ == utf16_of(s@).push(0u16),
{
    let mut r = encode_utf16(s);
    r.push(0);
    r
}

} // verus!
