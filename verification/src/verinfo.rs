//! VERSIONINFO resources of a binary: ProductName and CompanyName. The
//! version calls live outside this crate; the query strings and the
//! values they return are handled here.

use vstd::prelude::*;

use crate::bytes::wide_text;
use crate::text::{append_str, chars_of, string_from, trim_chars, trim_spec};

verus! {

/// ProductName and CompanyName from VERSIONINFO (what the file carries).
#[derive(Debug, Clone, Default, PartialEq, Eq)]
pub struct VersionStrings {
    pub product_name: Option<String>,
    pub company_name: Option<String>,
}

/// The query of the translation table.
pub const TRANSLATION_QUERY: &'static str = "\\VarFileInfo\\Translation";

/// The language and code page to read: the first translation pair, else
/// en-US / Unicode.
pub fn translation(first_pair: Option<(u16, u16)>) -> (r: (u16, u16))
    ensures
        r == match first_pair {
            Some(p) => p,
            None => (0x0409u16, 0x04B0u16),
        },
{
    match first_pair {
        Some(p) => p,
        None => (0x0409, 0x04B0),
    }
}

/// A lower-case hexadecimal digit.
pub open spec fn hex_lower(d: int) -> char {
    if d < 10 {
        (48 + d) as char
    } else {
        (87 + d) as char
    }
}

/// `{:04x}` of a 16-bit number.
pub open spec fn hex4(v: u16) -> Seq<char> {
    seq![
        hex_lower(v as int / 4096),
        hex_lower((v as int / 256) % 16),
        hex_lower((v as int / 16) % 16),
        hex_lower(v as int % 16),
    ]
}

fn hex_digit_lower(d: u16) -> (c: char)
    requires
        d < 16,
    ensures
        c == hex_lower(d as int),
{
    let b = d as u8;
    if b < 10 {
        (48u8 + b) as char
    } else {
        (87u8 + b) as char
    }
}

/// `\StringFileInfo\{lang:04x}{cp:04x}\{name}`.
pub open spec fn string_query_spec(lang: u16, cp: u16, name: Seq<char>) -> Seq<char> {
    "\\StringFileInfo\\"@ + hex4(lang) + hex4(cp) + seq!['\\'] + name
}

fn push_hex4(cs: &mut Vec<char>, v: u16)
    ensures
        final(cs)@ == old(cs)@ + hex4(v),
{
    cs.push(hex_digit_lower(v / 4096));
    cs.push(hex_digit_lower((v / 256) % 16));
    cs.push(hex_digit_lower((v / 16) % 16));
    cs.push(hex_digit_lower(v % 16));
    assert(cs@ =~= old(cs)@ + hex4(v));
}

/// The query of one version string in one translation.
pub fn string_query(lang: u16, cp: u16, name: &str) -> (r: String)
    ensures
        r@ == string_query_spec(lang, cp, name@),
{
    let mut cs = chars_of("\\StringFileInfo\\");
    push_hex4(&mut cs, lang);
    push_hex4(&mut cs, cp);
    cs.push('\\');
    append_str(&mut cs, name);
    proof {
        assert(cs@ =~= string_query_spec(lang, cp, name@));
    }
    string_from(&cs)
}

/// A version string as returned: more than the terminator, up to the
/// first NUL, trimmed; `None` when empty.
pub open spec fn version_value_spec(units: Seq<u16>, len: u32) -> Option<Seq<char>> {
    if len <= 1 {
        None
    } else {
        let s = trim_spec(wide_text(units));
        if s.len() == 0 {
            None
        } else {
            Some(s)
        }
    }
}

/// The text of one version string (`VerQueryValueW` output of `len`
/// units).
pub fn version_value(units: &[u16], len: u32) -> (r: Option<String>)
    ensures
        match r {
            Some(s) => version_value_spec(units@, len) == Some(s@),
            None => version_value_spec(units@, len) is None,
        },
{
    if len <= 1 {
        return None;
    }
    let t = trim_chars(&chars_of(crate::bytes::text_of_units(units).as_str()));
    if t.len() == 0 {
        None
    } else {
        Some(string_from(&t))
    }
}

} // verus!
