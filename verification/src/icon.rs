//! App icons as raw RGBA pixels (the UI draws them on a canvas).
//!
//! The PE resources, the shell and GDI are reached outside this crate;
//! this module reads the `DisplayIcon` value, expands its environment
//! variables, checks the bitmap size and turns GDI's BGRA pixels into
//! RGBA.

use vstd::prelude::*;

use crate::text::{
    chars_of, find_from, find_spec, is_last_at, lemma_find_spec, occurs_at, occurs_from,
    parse_i32, parse_i32_spec, rfind, slice_chars, string_from, trim_chars, trim_spec,
    unquote_chars, unquote_spec,
};

verus! {

/// An icon as RGBA (width, height, bytes top-down RGBA).
#[derive(Debug, Clone, Default, PartialEq, Eq)]
pub struct IconRgba {
    pub w: u32,
    pub h: u32,
    pub rgba: Vec<u8>,
}

/// The largest icon side that is read.
pub const MAX_ICON_SIDE: u32 = 512u32;

/// A bitmap is usable as an icon: not empty and at most 512 on a side.
pub fn icon_size_ok(w: u32, h: u32) -> (b: bool)
    ensures
        b == (0 < w <= MAX_ICON_SIDE && 0 < h <= MAX_ICON_SIDE),
{
    w != 0 && h != 0 && w <= MAX_ICON_SIDE && h <= MAX_ICON_SIDE
}

/// The byte size of a 32-bit bitmap of a usable size.
pub fn pixel_bytes(w: u32, h: u32) -> (n: usize)
    requires
        w <= MAX_ICON_SIDE,
        h <= MAX_ICON_SIDE,
    ensures
        n == w * h * 4,
{
    assert(w * h <= 512 * 512) by (nonlinear_arith)
        requires
            w <= 512,
            h <= 512,
    ;
    (w * h * 4) as usize
}

/// Some pixel of the bitmap has a non-zero alpha.
pub open spec fn has_alpha(b: Seq<u8>) -> bool {
    exists|k: int| 0 <= k < b.len() / 4 && #[trigger] b[4 * k + 3] != 0
}

/// Byte `i` after the conversion: in each whole pixel blue and red trade
/// places; without any alpha in the bitmap (old icons) every pixel is
/// made opaque; a trailing partial pixel is left as it was.
pub open spec fn rgba_byte(b: Seq<u8>, i: int, alpha: bool) -> u8 {
    if i >= (b.len() / 4) * 4 {
        b[i]
    } else {
        let k = i % 4;
        let base = i - k;
        if k == 0 {
            b[base + 2]
        } else if k == 2 {
            b[base]
        } else if k == 3 && !alpha {
            255
        } else {
            b[i]
        }
    }
}

/// BGRA → RGBA.
pub fn bgra_to_rgba(buf: &[u8]) -> (r: Vec<u8>)
    ensures
        r@.len() == buf@.len(),
        forall|i: int| 0 <= i < buf@.len() ==> #[trigger] r@[i] == rgba_byte(buf@, i, has_alpha(buf@)),
{
    let n = buf.len() / 4;
    let mut alpha = false;
    let mut k: usize = 0;
    while k < n
        invariant
            k <= n,
            n == buf@.len() / 4,
            buf@.len() == buf.len(),
            alpha == exists|j: int| 0 <= j < k && #[trigger] buf@[4 * j + 3] != 0,
        decreases n - k,
    {
        if buf[4 * k + 3] != 0 {
            alpha = true;
        }
        k = k + 1;
    }
    let mut out: Vec<u8> = Vec::new();
    let mut i: usize = 0;
    while i < buf.len()
        invariant
            i <= buf.len(),
            n == buf@.len() / 4,
            alpha == has_alpha(buf@),
            out@.len() == i,
            forall|j: int| 0 <= j < i ==> #[trigger] out@[j] == rgba_byte(buf@, j, alpha),
        decreases buf.len() - i,
    {
        let b = if i >= n * 4 {
            buf[i]
        } else {
            let k = i % 4;
            let base = i - k;
            if k == 0 {
                buf[base + 2]
            } else if k == 2 {
                buf[base]
            } else if k == 3 && !alpha {
                255u8
            } else {
                buf[i]
            }
        };
        out.push(b);
        i = i + 1;
    }
    out
}

/// A `DisplayIcon` value split into path and icon index: the index
/// follows the last comma; when it is not a number, the whole value is
/// the path and the index is 0.
pub open spec fn icon_spec_parts(spec: Seq<char>) -> (Seq<char>, i32) {
    if occurs_from(spec, seq![','], 0) {
        let i = choose|i: int| is_last_at(spec, seq![','], i);
        match parse_i32_spec(trim_spec(spec.skip(i + 1))) {
            Some(n) => (spec.take(i), n),
            None => (spec, 0i32),
        }
    } else {
        (spec, 0i32)
    }
}

/// Splits a `DisplayIcon` value (`path[,index]`) into the raw path and
/// the index.
pub fn split_icon_spec(spec: &str) -> (r: (String, i32))
    ensures
        (r.0@, r.1) == icon_spec_parts(spec@),
{
    let cs = chars_of(spec);
    let comma: Vec<char> = vec![','];
    assert(comma@ =~= seq![',']);
    match rfind(&cs, &comma) {
        Some(i) => {
            proof {
                let j = choose|j: int| is_last_at(cs@, comma@, j);
                assert(j == i);
                assert(occurs_from(cs@, comma@, 0));
                assert(cs@.len() == cs.len());
            }
            let idx = slice_chars(&cs, i + 1, cs.len());
            assert(idx@ =~= cs@.skip(i + 1));
            match parse_i32(&trim_chars(&idx)) {
                Some(n) => {
                    let p = slice_chars(&cs, 0, i);
                    assert(p@ =~= cs@.take(i as int));
                    (string_from(&p), n)
                },
                None => (string_from(&cs), 0),
            }
        },
        None => (string_from(&cs), 0),
    }
}

/// The raw path of a spec, trimmed of blanks and quotes.
pub fn icon_raw_path(raw: &str) -> (r: String)
    ensures
        r@ == unquote_spec(trim_spec(raw@)),
{
    string_from(&unquote_chars(&trim_chars(&chars_of(raw))))
}

/// The names of the `%NAME%` variables in a path, in order.
pub open spec fn env_names_spec(rest: Seq<char>) -> Seq<Seq<char>>
    decreases rest.len(),
    via env_names_decreases
{
    match find_spec(rest, seq!['%'], 0) {
        None => Seq::empty(),
        Some(s) => {
            let after = rest.skip(s + 1);
            match find_spec(after, seq!['%'], 0) {
                Some(e) => seq![after.take(e)] + env_names_spec(after.skip(e + 1)),
                None => env_names_spec(after),
            }
        },
    }
}

#[via_fn]
proof fn env_names_decreases(rest: Seq<char>) {
    lemma_find_spec(rest, seq!['%'], 0);
    if let Some(s) = find_spec(rest, seq!['%'], 0) {
        let after = rest.skip(s + 1);
        lemma_find_spec(after, seq!['%'], 0);
    }
}

/// The value for the `k`-th variable, if it was found.
pub open spec fn value_at(vals: Seq<Option<Seq<char>>>, k: int) -> Option<Seq<char>> {
    if 0 <= k < vals.len() {
        vals[k]
    } else {
        None
    }
}

/// A path with its `%NAME%` variables replaced by the values found for
/// them, from the `k`-th variable on: an unknown variable stays as it
/// was, a lone `%` too.
pub open spec fn expand_spec(rest: Seq<char>, vals: Seq<Option<Seq<char>>>, k: int) -> Seq<char>
    decreases rest.len(),
    via expand_decreases
{
    match find_spec(rest, seq!['%'], 0) {
        None => rest,
        Some(s) => {
            let after = rest.skip(s + 1);
            match find_spec(after, seq!['%'], 0) {
                Some(e) => {
                    let name = after.take(e);
                    rest.take(s) + match value_at(vals, k) {
                        Some(v) => v,
                        None => seq!['%'] + name + seq!['%'],
                    } + expand_spec(after.skip(e + 1), vals, k + 1)
                },
                None => rest.take(s) + seq!['%'] + expand_spec(after, vals, k),
            }
        },
    }
}

#[via_fn]
proof fn expand_decreases(rest: Seq<char>, vals: Seq<Option<Seq<char>>>, k: int) {
    lemma_find_spec(rest, seq!['%'], 0);
    if let Some(s) = find_spec(rest, seq!['%'], 0) {
        let after = rest.skip(s + 1);
        lemma_find_spec(after, seq!['%'], 0);
    }
}

fn append(out: &mut Vec<char>, s: &[char])
    ensures
        final(out)@ == old(out)@ + s@,
{
    let mut k: usize = 0;
    while k < s.len()
        invariant
            k <= s.len(),
            out@ == old(out)@ + s@.take(k as int),
        decreases s.len() - k,
    {
        out.push(s[k]);
        k = k + 1;
        assert(out@ =~= old(out)@ + s@.take(k as int));
    }
    assert(s@.take(s@.len() as int) =~= s@);
}

/// The names of the environment variables a path refers to.
pub fn env_names(path: &str) -> (r: Vec<String>)
    ensures
        r@.map_values(|s: String| s@) == env_names_spec(path@),
{
    let pct: Vec<char> = vec!['%'];
    assert(pct@ =~= seq!['%']);
    let mut rest = chars_of(path);
    let mut out: Vec<String> = Vec::new();
    loop
        invariant
            pct@ == seq!['%'],
            out@.map_values(|s: String| s@) + env_names_spec(rest@) == env_names_spec(path@),
        decreases rest@.len(),
    {
        proof {
            lemma_find_spec(rest@, pct@, 0);
        }
        match find_from(&rest, &pct, 0) {
            None => {
                assert(out@.map_values(|s: String| s@) + Seq::<Seq<char>>::empty() =~= out@.map_values(|s: String| s@));
                return out;
            },
            Some(s) => {
                proof {
                    assert(occurs_at(rest@, pct@, s as int));
                    assert(rest@.len() == rest.len());
                }
                let after = slice_chars(&rest, s + 1, rest.len());
                assert(after@ =~= rest@.skip(s + 1));
                proof {
                    lemma_find_spec(after@, pct@, 0);
                }
                match find_from(&after, &pct, 0) {
                    Some(e) => {
                        proof {
                            assert(occurs_at(after@, pct@, e as int));
                            assert(after@.len() == after.len());
                        }
                        let name = slice_chars(&after, 0, e);
                        assert(name@ =~= after@.take(e as int));
                        let ghost before = out@.map_values(|s: String| s@);
                        out.push(string_from(&name));
                        assert(out@.map_values(|s: String| s@) =~= before.push(name@));
                        let next = slice_chars(&after, e + 1, after.len());
                        assert(next@ =~= after@.skip(e + 1));
                        proof {
                            assert(env_names_spec(rest@) == seq![name@] + env_names_spec(next@));
                            assert(before.push(name@) + env_names_spec(next@) =~= before + (seq![name@]
                                + env_names_spec(next@)));
                        }
                        rest = next;
                    },
                    None => {
                        rest = after;
                    },
                }
            },
        }
    }
}

/// Expands the `%NAME%` variables of a path with the values found for
/// the names `env_names` listed (in that order; `None` where a variable
/// is not set).
pub fn expand_env(path: &str, values: &[Option<String>]) -> (r: String)
    ensures
        r@ == expand_spec(path@, values@.map_values(|v: Option<String>| match v {
            Some(s) => Some(s@),
            None => None,
        }), 0),
{
    let ghost vals = values@.map_values(|v: Option<String>| match v {
        Some(s) => Some(s@),
        None => None,
    });
    let pct: Vec<char> = vec!['%'];
    assert(pct@ =~= seq!['%']);
    let mut rest = chars_of(path);
    let total = rest.len();
    let mut out: Vec<char> = Vec::new();
    let mut k: usize = 0;
    loop
        invariant
            pct@ == seq!['%'],
            vals == values@.map_values(|v: Option<String>| match v {
                Some(s) => Some(s@),
                None => None,
            }),
            out@ + expand_spec(rest@, vals, k as int) == expand_spec(path@, vals, 0),
            k + rest@.len() <= total,
        decreases rest@.len(),
    {
        proof {
            lemma_find_spec(rest@, pct@, 0);
        }
        match find_from(&rest, &pct, 0) {
            None => {
                append(&mut out, &rest);
                return string_from(&out);
            },
            Some(s) => {
                proof {
                    assert(occurs_at(rest@, pct@, s as int));
                    assert(rest@.len() == rest.len());
                }
                let head = slice_chars(&rest, 0, s);
                assert(head@ =~= rest@.take(s as int));
                let after = slice_chars(&rest, s + 1, rest.len());
                assert(after@ =~= rest@.skip(s + 1));
                proof {
                    lemma_find_spec(after@, pct@, 0);
                }
                let ghost before = out@;
                append(&mut out, &head);
                match find_from(&after, &pct, 0) {
                    Some(e) => {
                        proof {
                            assert(occurs_at(after@, pct@, e as int));
                            assert(after@.len() == after.len());
                        }
                        let name = slice_chars(&after, 0, e);
                        assert(name@ =~= after@.take(e as int));
                        let ghost mid = out@;
                        if k < values.len() {
                            match &values[k] {
                                Some(v) => append(&mut out, &chars_of(v.as_str())),
                                None => {
                                    out.push('%');
                                    append(&mut out, &name);
                                    out.push('%');
                                },
                            }
                        } else {
                            out.push('%');
                            append(&mut out, &name);
                            out.push('%');
                        }
                        proof {
                            let ins = match value_at(vals, k as int) {
                                Some(v) => v,
                                None => seq!['%'] + name@ + seq!['%'],
                            };
                            assert(out@ =~= mid + ins);
                        }
                        let next = slice_chars(&after, e + 1, after.len());
                        assert(next@ =~= after@.skip(e + 1));
                        proof {
                            let ins = match value_at(vals, k as int) {
                                Some(v) => v,
                                None => seq!['%'] + name@ + seq!['%'],
                            };
                            assert(expand_spec(rest@, vals, k as int) == rest@.take(s as int) + ins
                                + expand_spec(next@, vals, k + 1));
                            assert(out@ + expand_spec(next@, vals, k + 1) =~= before + (rest@.take(
                                s as int,
                            ) + ins + expand_spec(next@, vals, k + 1)));
                        }
                        rest = next;
                        k = k + 1;
                    },
                    None => {
                        out.push('%');
                        proof {
                            assert(expand_spec(rest@, vals, k as int) == rest@.take(s as int) + seq!['%']
                                + expand_spec(after@, vals, k as int));
                            assert(out@ + expand_spec(after@, vals, k as int) =~= before + (rest@.take(
                                s as int,
                            ) + seq!['%'] + expand_spec(after@, vals, k as int)));
                        }
                        rest = after;
                    },
                }
            },
        }
    }
}

} // verus!
