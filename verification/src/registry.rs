//! Registry values as the read calls return them: UTF-16 text, numbers
//! of 4 or 8 bytes, raw binary. The calls themselves live outside this
//! crate; what their buffers hold is read here. Read only — writes to
//! the registry belong behind the validation layer alone.

use vstd::prelude::*;

use crate::bytes::{le32, le64, le_units, read_u32, read_u64, text_of_units, until_nul, units_from_le, wide_text};
use crate::text::{chars_of, string_from, trim_chars, trim_spec, utf16_lossy, from_utf16_lossy};

verus! {

/// `REG_SZ`.
pub const REG_SZ: u32 = 1u32;

/// `REG_EXPAND_SZ`.
pub const REG_EXPAND_SZ: u32 = 2u32;

/// The most characters of one enumerated value that are kept.
pub const MAX_VALUE_CHARS: usize = 1024usize;

/// The text of a `REG_SZ` buffer: up to the first NUL, trimmed; `None`
/// when empty.
pub open spec fn sz_spec(units: Seq<u16>) -> Option<Seq<char>> {
    let s = trim_spec(wide_text(units));
    if s.len() == 0 {
        None
    } else {
        Some(s)
    }
}

/// The text of a `REG_SZ` value (`RegGetValueW` expands `REG_EXPAND_SZ`).
pub fn sz_value(units: &[u16]) -> (r: Option<String>)
    ensures
        match r {
            Some(s) => sz_spec(units@) == Some(s@),
            None => sz_spec(units@) is None,
        },
{
    let t = trim_chars(&chars_of(text_of_units(units).as_str()));
    if t.len() == 0 {
        None
    } else {
        Some(string_from(&t))
    }
}

/// A number of `len` bytes: a REG_DWORD (4) or REG_QWORD / 8-byte
/// REG_BINARY (8) — `HardwareInformation.qwMemorySize` is any of these,
/// by vendor; other lengths are not numbers.
pub open spec fn number_spec(buf: Seq<u8>, len: u32) -> Option<u64> {
    if len == 4 {
        Some(le32(buf, 0) as u64)
    } else if len == 8 {
        Some(le64(buf, 0))
    } else {
        None
    }
}

/// The number a value's 8-byte buffer holds, by the length reported.
pub fn number_value(buf: &[u8], len: u32) -> (r: Option<u64>)
    requires
        8 <= buf.len(),
    ensures
        r == number_spec(buf@, len),
{
    if len == 4 {
        Some(read_u32(buf, 0) as u64)
    } else if len == 8 {
        Some(read_u64(buf, 0))
    } else {
        None
    }
}

/// Only string values (REG_SZ, REG_EXPAND_SZ) are listed; the startup
/// `Run` keys hold those.
pub fn is_text_value(kind: u32) -> (b: bool)
    ensures
        b == (kind == REG_SZ || kind == REG_EXPAND_SZ),
{
    kind == REG_SZ || kind == REG_EXPAND_SZ
}

/// The text of an enumerated value's data: its UTF-16 units (at most
/// 1024 of the `data_len` bytes) up to the first NUL.
pub open spec fn value_data_spec(data: Seq<u8>, data_len: u32) -> Seq<char> {
    let chars = if (data_len / 2) < MAX_VALUE_CHARS {
        (data_len / 2) as int
    } else {
        MAX_VALUE_CHARS as int
    };
    utf16_lossy(until_nul(le_units(data.take(chars * 2))))
}

/// The text of an enumerated value's data (2048-byte buffer).
pub fn value_data_text(data: &[u8], data_len: u32) -> (r: String)
    requires
        2 * MAX_VALUE_CHARS <= data.len(),
    ensures
        r@ == value_data_spec(data@, data_len),
{
    let chars: usize = if ((data_len / 2) as usize) < MAX_VALUE_CHARS {
        (data_len / 2) as usize
    } else {
        MAX_VALUE_CHARS
    };
    let part = vstd::slice::slice_subrange(data, 0, chars * 2);
    assert(part@ =~= data@.take(chars * 2));
    let units = units_from_le(part);
    text_of_units(&units)
}

/// The name of an enumerated value: its first `len` units.
pub fn value_name(name: &[u16], len: u32) -> (r: String)
    requires
        len <= name.len(),
    ensures
        r@ == utf16_lossy(name@.take(len as int)),
{
    let part = vstd::slice::slice_subrange(name, 0, len as usize);
    assert(part@ =~= name@.take(len as int));
    from_utf16_lossy(part)
}

/// The first `len` bytes of a binary value.
pub fn binary_value(buf: &[u8], len: u32) -> (r: Vec<u8>)
    requires
        len <= buf.len(),
    ensures
        r@ == buf@.take(len as int),
{
    let mut out: Vec<u8> = Vec::new();
    let mut i: usize = 0;
    while i < len as usize
        invariant
            i <= len,
            len <= buf.len(),
            out@ == buf@.take(i as int),
        decreases len - i,
    {
        out.push(buf[i]);
        i = i + 1;
        assert(out@ =~= buf@.take(i as int));
    }
    out
}

} // verus!
