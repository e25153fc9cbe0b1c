//! Reading the Windows event log: the values an event carries.
//!
//! Events come rendered as XML from the system itself. Two things are
//! taken from it — the creation time and the `<Data>` values in the
//! order the system wrote them — without an XML library: there is a
//! single producer and a fixed shape.

use vstd::prelude::*;

use crate::text::{
    chars_of, find_from, find_spec, parse_i64, parse_i64_spec, replace_chars, replace_spec,
    slice_chars, string_from,
};

verus! {

/// One event as read, without interpretation.
#[derive(Debug, Clone, Default)]
pub struct Event {
    /// When it happened (unix). 0 = the time could not be read.
    pub ts: i64,
    /// The `<EventData>` values in the order the system wrote them.
    pub data: Vec<String>,
}

/// An event as mathematical values.
pub struct EventView {
    pub ts: i64,
    pub data: Seq<Seq<char>>,
}

impl View for Event {
    type V = EventView;

    open spec fn view(&self) -> EventView {
        EventView { ts: self.ts, data: self.data@.map_values(|s: String| s@) }
    }
}

/// The decimal field `b[a..e]` of a timestamp, read as `i64`; `None` when
/// it lies past the end or is not a number.
pub open spec fn field(b: Seq<u8>, a: int, e: int) -> Option<i64> {
    if e <= b.len() {
        parse_i64_spec(b.subrange(a, e).map_values(|c: u8| c as char))
    } else {
        None
    }
}

/// Days from 1970-01-01 to a civil date (proleptic Gregorian), after
/// Howard Hinnant: the year is counted from March so that the leap day
/// falls last.
pub open spec fn civil_days(y: int, m: int, d: int) -> int {
    let y2 = if m <= 2 { y - 1 } else { y };
    let era = y2 / 400;
    let yoe = y2 - era * 400;
    let mp = (m + 9) % 12;
    let doy = (153 * mp + 2) / 5 + d - 1;
    let doe = yoe * 365 + yoe / 4 - yoe / 100 + doy;
    era * 146097 + doe - 719468
}

/// `YYYY-MM-DDTHH:MM:SS…` (bytes) to unix seconds; 0 when a field is not
/// a number.
pub open spec fn iso_spec(b: Seq<u8>) -> i64 {
    match (field(b, 0, 4), field(b, 5, 7), field(b, 8, 10), field(b, 11, 13), field(b, 14, 16), field(b, 17, 19)) {
        (Some(y), Some(mo), Some(d), Some(h), Some(mi), Some(sec)) => (civil_days(
            y as int,
            mo as int,
            d as int,
        ) * 86400 + h * 3600 + mi * 60 + sec) as i64,
        _ => 0,
    }
}

fn field_at(b: &[u8], a: usize, e: usize) -> (r: Option<i64>)
    requires
        a <= e,
    ensures
        r == field(b@, a as int, e as int),
{
    if e > b.len() {
        return None;
    }
    let mut cs: Vec<char> = Vec::new();
    let mut k: usize = a;
    while k < e
        invariant
            a <= k <= e <= b@.len(),
            cs@ == b@.subrange(a as int, k as int).map_values(|c: u8| c as char),
        decreases e - k,
    {
        cs.push(b[k] as char);
        k = k + 1;
        assert(cs@ =~= b@.subrange(a as int, k as int).map_values(|c: u8| c as char));
    }
    parse_i64(&cs)
}

proof fn lemma_field_range(b: Seq<u8>, a: int, e: int)
    requires
        0 <= a <= e,
        field(b, a, e) is Some,
        e - a == 2 || e - a == 4,
    ensures
        e - a == 2 ==> -9 <= field(b, a, e)->0 <= 99,
        e - a == 4 ==> -999 <= field(b, a, e)->0 <= 9999,
{
    let s = b.subrange(a, e).map_values(|c: u8| c as char);
    let neg = s[0] == '-';
    let rest = if s[0] == '+' || neg { s.drop_first() } else { s };
    crate::text::lemma_digits_bound(rest);
    assert(crate::text::pow10(0) == 1);
    assert(crate::text::pow10(1) == 10);
    assert(crate::text::pow10(2) == 100);
    assert(crate::text::pow10(3) == 1000);
    assert(crate::text::pow10(4) == 10000);
}

/// Seconds since the epoch of a civil date and time whose fields are in
/// the ranges two- and four-character decimal fields allow.
fn civil_seconds(y: i64, mo: i64, d: i64, h: i64, mi: i64, sec: i64) -> (r: i64)
    requires
        -999 <= y <= 9999,
        -9 <= mo <= 99,
        -9 <= d <= 99,
        -9 <= h <= 99,
        -9 <= mi <= 99,
        -9 <= sec <= 99,
    ensures
        r == civil_days(y as int, mo as int, d as int) * 86400 + h * 3600 + mi * 60 + sec,
{
    let y2 = if mo <= 2 { y - 1 } else { y };
    let era = if y2 >= 0 { y2 / 400 } else { (y2 - 399) / 400 };
    assert(era == y2 as int / 400) by {
        if y2 < 0 {
            assert(-3 <= era <= 0);
        }
    }
    let yoe = y2 - era * 400;
    assert(0 <= yoe < 400);
    let mp = (mo + 9) % 12;
    let doy = (153 * mp + 2) / 5 + d - 1;
    let doe = yoe * 365 + yoe / 4 - yoe / 100 + doy;
    let days = era * 146_097 + doe - 719_468;
    days * 86_400 + h * 3600 + mi * 60 + sec
}

/// `2026-08-03T20:26:39.1234567Z` to unix seconds — fixed format, whole
/// seconds only. 0 when a field cannot be read.
pub fn iso_to_unix(s: &str) -> (r: i64)
    ensures
        r == iso_spec(vstd::utf8::encode_utf8(s@)),
{
    let b = s.as_bytes();
    let y = field_at(b, 0, 4);
    let mo = field_at(b, 5, 7);
    let d = field_at(b, 8, 10);
    let h = field_at(b, 11, 13);
    let mi = field_at(b, 14, 16);
    let sec = field_at(b, 17, 19);
    match (y, mo, d, h, mi, sec) {
        (Some(y), Some(mo), Some(d), Some(h), Some(mi), Some(sec)) => {
            proof {
                lemma_field_range(b@, 0, 4);
                lemma_field_range(b@, 5, 7);
                lemma_field_range(b@, 8, 10);
                lemma_field_range(b@, 11, 13);
                lemma_field_range(b@, 14, 16);
                lemma_field_range(b@, 17, 19);
            }
            civil_seconds(y, mo, d, h, mi, sec)
        },
        _ => 0,
    }
}


/// The five XML entities the system writes into event data, decoded in
/// the order `&lt;`, `&gt;`, `&quot;`, `&apos;`, `&amp;`.
pub open spec fn unescape_spec(s: Seq<char>) -> Seq<char> {
    replace_spec(
        replace_spec(
            replace_spec(
                replace_spec(replace_spec(s, "&lt;"@, "<"@), "&gt;"@, ">"@),
                "&quot;"@,
                "\""@,
            ),
            "&apos;"@,
            "'"@,
        ),
        "&amp;"@,
        "&"@,
    )
}

fn unescape_chars(s: &[char]) -> (r: Vec<char>)
    ensures
        r@ == unescape_spec(s@),
{
    let lt = chars_of("&lt;");
    let gt = chars_of("&gt;");
    let quot = chars_of("&quot;");
    let apos = chars_of("&apos;");
    let amp = chars_of("&amp;");
    proof {
        reveal_strlit("&lt;");
        reveal_strlit("&gt;");
        reveal_strlit("&quot;");
        reveal_strlit("&apos;");
        reveal_strlit("&amp;");
    }
    let a = replace_chars(s, &lt, &chars_of("<"));
    let b = replace_chars(&a, &gt, &chars_of(">"));
    let c = replace_chars(&b, &quot, &chars_of("\""));
    let d = replace_chars(&c, &apos, &chars_of("'"));
    replace_chars(&d, &amp, &chars_of("&"))
}

/// Decodes the basic XML entities — the only ones the system puts into
/// event data.
pub fn unescape(s: &str) -> (r: String)
    ensures
        r@ == unescape_spec(s@),
{
    let cs = chars_of(s);
    let u = unescape_chars(&cs);
    string_from(&u)
}

/// The event time: the timestamp after `SystemTime='` up to the closing
/// quote; 0 without one.
pub open spec fn event_time(x: Seq<char>) -> i64 {
    match find_spec(x, "SystemTime='"@, 0) {
        Some(p) => {
            let from = p + "SystemTime='"@.len();
            match find_spec(x, seq!['\''], from) {
                Some(e) => iso_spec(vstd::utf8::encode_utf8(x.subrange(from, e))),
                None => 0,
            }
        },
        None => 0,
    }
}

/// The `<Data>` values from position `pos` on: from each `<Data` the
/// value runs after the next `>` up to the next `</Data>`; reading stops
/// at the first element that is not closed.
pub open spec fn data_values(x: Seq<char>, pos: int) -> Seq<Seq<char>>
    decreases x.len() - pos,
    via data_values_decreases
{
    if pos < 0 || pos > x.len() {
        seq![]
    } else {
        match find_spec(x, "<Data"@, pos) {
            None => seq![],
            Some(p) => match find_spec(x, seq!['>'], p) {
                None => seq![],
                Some(gt) => match find_spec(x, "</Data>"@, gt + 1) {
                    None => seq![],
                    Some(e) => seq![unescape_spec(x.subrange(gt + 1, e))] + data_values(x, e),
                },
            },
        }
    }
}

#[via_fn]
proof fn data_values_decreases(x: Seq<char>, pos: int) {
    if 0 <= pos <= x.len() {
        crate::text::lemma_find_spec(x, "<Data"@, pos);
        if let Some(p) = find_spec(x, "<Data"@, pos) {
            crate::text::lemma_find_spec(x, seq!['>'], p);
            if let Some(gt) = find_spec(x, seq!['>'], p) {
                crate::text::lemma_find_spec(x, "</Data>"@, gt + 1);
            }
        }
    }
}

/// The time and the data values of a rendered event.
pub open spec fn parse_spec(x: Seq<char>) -> EventView {
    EventView { ts: event_time(x), data: data_values(x, 0) }
}

/// Takes the time and the `Data` values out of an event's XML.
pub fn parse(xml: &str) -> (ev: Event)
    ensures
        ev@ == parse_spec(xml@),
{
    let x = chars_of(xml);
    let mut ts: i64 = 0;
    let st = chars_of("SystemTime='");
    let quote = chars_of("'");
    proof {
        reveal_strlit("'");
        assert(quote@ =~= seq!['\'']);
    }
    match find_from(&x, &st, 0) {
        Some(p) => {
            proof {
                crate::text::lemma_find_spec(x@, st@, 0);
                assert(crate::text::occurs_at(x@, st@, p as int));
                assert(p + st@.len() <= x@.len());
                assert(x@.len() == x.len());
                assert(st@.len() == st.len());
            }
            let from = p + st.len();
            match find_from(&x, &quote, from) {
                Some(e) => {
                    proof {
                        crate::text::lemma_find_spec(x@, quote@, from as int);
                    }
                    let part = string_from(&slice_chars(&x, from, e));
                    ts = iso_to_unix(part.as_str());
                },
                None => {},
            }
        },
        None => {},
    }
    let open = chars_of("<Data");
    let close = chars_of("</Data>");
    let gtc = chars_of(">");
    proof {
        reveal_strlit(">");
        assert(gtc@ =~= seq!['>']);
    }
    let mut data: Vec<String> = Vec::new();
    let mut pos: usize = 0;
    loop
        invariant_except_break
            pos <= x@.len(),
            open@ == "<Data"@,
            close@ == "</Data>"@,
            gtc@ == seq!['>'],
            data@.map_values(|s: String| s@) + data_values(x@, pos as int) == data_values(x@, 0),
        ensures
            data@.map_values(|s: String| s@) == data_values(x@, 0),
        decreases x@.len() - pos,
    {
        let ghost prev = data@.map_values(|s: String| s@);
        let p = match find_from(&x, &open, pos) {
            Some(p) => p,
            None => {
                assert(find_spec(x@, "<Data"@, pos as int) is None);
                assert(data_values(x@, pos as int) =~= seq![]);
                assert(prev + seq![] =~= prev);
                break;
            },
        };
        proof {
            crate::text::lemma_find_spec(x@, open@, pos as int);
        }
        let gt = match find_from(&x, &gtc, p) {
            Some(g) => g,
            None => {
                assert(prev + seq![] =~= prev);
                break;
            },
        };
        proof {
            crate::text::lemma_find_spec(x@, gtc@, p as int);
            assert(crate::text::occurs_at(x@, gtc@, gt as int));
            assert(gt + 1 <= x@.len());
            assert(x@.len() == x.len());
        }
        let e = match find_from(&x, &close, gt + 1) {
            Some(e) => e,
            None => {
                assert(prev + seq![] =~= prev);
                break;
            },
        };
        proof {
            crate::text::lemma_find_spec(x@, close@, gt + 1);
        }
        let body = slice_chars(&x, gt + 1, e);
        let v = unescape_chars(&body);
        data.push(string_from(&v));
        proof {
            let now = data@.map_values(|s: String| s@);
            assert(now =~= prev.push(unescape_spec(x@.subrange(gt + 1, e as int))));
            assert(now + data_values(x@, e as int) =~= prev + data_values(x@, pos as int));
        }
        pos = e;
    }
    Event { ts, data }
}


/// How many event handles one `EvtNext` call returns at most.
pub const BATCH: usize = 16usize;

/// How long one `EvtNext` call waits (ms).
pub const NEXT_TIMEOUT_MS: u32 = 2000u32;

/// The XML of a rendered event: UTF-16 with a terminating NUL.
pub fn rendered_xml(buf: &[u8]) -> (r: String)
    ensures
        r@ == crate::bytes::wide_text(crate::bytes::le_units(buf@)),
{
    let units = crate::bytes::units_from_le(buf);
    crate::bytes::text_of_units(&units)
}

/// Whether reading goes on: the limit is a ceiling — a log can hold tens
/// of thousands of records and nobody wants all of them.
pub fn wants_more(read: usize, limit: usize) -> (b: bool)
    ensures
        b == (read < limit),
{
    read < limit
}

} // verus!
