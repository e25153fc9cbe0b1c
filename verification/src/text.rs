//! Text primitives shared by the parsers: character sequences, trimming,
//! integer parsing with the standard library's rules, search and replace.

use vstd::prelude::*;

verus! {

/// Appends one character (`String::push`).
#[verifier::external_body]
fn push_char(s: &mut String, c: char)
    ensures
        final(s)@ == old(s)@.push(c),
{
    s.push(c);
}

/// The characters of a string slice.
pub fn chars_of(s: &str) -> (v: Vec<char>)
    ensures
        v@ == s@,
{
    let n = s.unicode_len();
    let mut v: Vec<char> = Vec::new();
    let mut i: usize = 0;
    while i < n
        invariant
            n == s@.len(),
            i <= n,
            v@ == s@.take(i as int),
        decreases n - i,
    {
        let c = s.get_char(i);
        v.push(c);
        i = i + 1;
        assert(v@ =~= s@.take(i as int));
    }
    assert(v@ =~= s@);
    v
}

/// Appends the characters of `s`.
pub fn append_str(cs: &mut Vec<char>, s: &str)
    ensures
        final(cs)@ == old(cs)@ + s@,
{
    let p = chars_of(s);
    let mut k: usize = 0;
    while k < p.len()
        invariant
            k <= p.len(),
            p@ == s@,
            cs@ == old(cs)@ + p@.take(k as int),
        decreases p.len() - k,
    {
        cs.push(p[k]);
        k = k + 1;
        assert(cs@ =~= old(cs)@ + p@.take(k as int));
    }
    assert(p@.take(p@.len() as int) =~= p@);
}


/// A string holding exactly the given characters.
pub fn string_from(v: &[char]) -> (s: String)
    ensures
        s@ == v@,
{
    let mut s = String::new();
    let mut i: usize = 0;
    while i < v.len()
        invariant
            i <= v.len(),
            s@ == v@.take(i as int),
        decreases v.len() - i,
    {
        push_char(&mut s, v[i]);
        i = i + 1;
        assert(s@ =~= v@.take(i as int));
    }
    assert(v@ =~= v@.take(v@.len() as int));
    s
}


/// The Unicode `White_Space` property, the set `char::is_whitespace`
/// and `str::trim` go by.
pub open spec fn is_ws(c: char) -> bool {
    let u = c as u32;
    ||| 0x09 <= u <= 0x0D
    ||| u == 0x20
    ||| u == 0x85
    ||| u == 0xA0
    ||| u == 0x1680
    ||| 0x2000 <= u <= 0x200A
    ||| u == 0x2028
    ||| u == 0x2029
    ||| u == 0x202F
    ||| u == 0x205F
    ||| u == 0x3000
}

/// `char::is_whitespace`.
pub fn is_whitespace(c: char) -> (b: bool)
    ensures
        b == is_ws(c),
{
    let u = c as u32;
    (0x09 <= u && u <= 0x0D) || u == 0x20 || u == 0x85 || u == 0xA0 || u == 0x1680
        || (0x2000 <= u && u <= 0x200A) || u == 0x2028 || u == 0x2029 || u == 0x202F
        || u == 0x205F || u == 0x3000
}

/// Drops the leading characters that satisfy `p`.
pub open spec fn strip_start(s: Seq<char>, p: spec_fn(char) -> bool) -> Seq<char>
    decreases s.len(),
{
    if s.len() > 0 && p(s[0]) {
        strip_start(s.drop_first(), p)
    } else {
        s
    }
}

/// Drops the trailing characters that satisfy `p`.
pub open spec fn strip_end(s: Seq<char>, p: spec_fn(char) -> bool) -> Seq<char>
    decreases s.len(),
{
    if s.len() > 0 && p(s.last()) {
        strip_end(s.drop_last(), p)
    } else {
        s
    }
}

/// Both ends stripped of the characters that satisfy `p`.
pub open spec fn strip(s: Seq<char>, p: spec_fn(char) -> bool) -> Seq<char> {
    strip_end(strip_start(s, p), p)
}

/// `str::trim`: both ends stripped of white space.
pub open spec fn trim_spec(s: Seq<char>) -> Seq<char> {
    strip(s, |c: char| is_ws(c))
}

/// `str::trim_matches('"')`.
pub open spec fn unquote_spec(s: Seq<char>) -> Seq<char> {
    strip(s, |c: char| c == '"')
}

proof fn lemma_strip_start_skip(s: Seq<char>, p: spec_fn(char) -> bool, i: int)
    requires
        0 <= i <= s.len(),
        forall|j: int| 0 <= j < i ==> p(#[trigger] s[j]),
    ensures
        strip_start(s, p) == strip_start(s.skip(i), p),
    decreases i,
{
    if i > 0 {
        assert(s.skip(1) =~= s.drop_first());
        assert forall|j: int| 0 <= j < i - 1 implies p(#[trigger] s.drop_first()[j]) by {
            assert(s.drop_first()[j] == s[j + 1]);
        }
        lemma_strip_start_skip(s.drop_first(), p, i - 1);
        assert(s.drop_first().skip(i - 1) =~= s.skip(i));
    } else {
        assert(s.skip(0) =~= s);
    }
}

proof fn lemma_strip_end_take(s: Seq<char>, p: spec_fn(char) -> bool, i: int)
    requires
        0 <= i <= s.len(),
        forall|j: int| i <= j < s.len() ==> p(#[trigger] s[j]),
    ensures
        strip_end(s, p) == strip_end(s.take(i), p),
    decreases s.len() - i,
{
    if i < s.len() {
        assert(s.take(s.len() - 1) =~= s.drop_last());
        assert forall|j: int| i <= j < s.drop_last().len() implies p(#[trigger] s.drop_last()[j]) by {
            assert(s.drop_last()[j] == s[j]);
        }
        lemma_strip_end_take(s.drop_last(), p, i);
        assert(s.drop_last().take(i) =~= s.take(i));
    } else {
        assert(s.take(s.len() as int) =~= s);
    }
}

proof fn lemma_strip_start_first(s: Seq<char>, p: spec_fn(char) -> bool)
    ensures
        strip_start(s, p).len() <= s.len(),
        strip_start(s, p) == s.skip(s.len() - strip_start(s, p).len()),
        strip_start(s, p).len() > 0 ==> !p(strip_start(s, p)[0]),
    decreases s.len(),
{
    if s.len() > 0 && p(s[0]) {
        lemma_strip_start_first(s.drop_first(), p);
        let r = strip_start(s.drop_first(), p);
        assert(s.drop_first().skip(s.drop_first().len() - r.len()) =~= s.skip(s.len() - r.len()));
    } else {
        assert(s.skip(0) =~= s);
    }
}

proof fn lemma_strip_end_last(s: Seq<char>, p: spec_fn(char) -> bool)
    ensures
        strip_end(s, p).len() <= s.len(),
        strip_end(s, p) == s.take(strip_end(s, p).len() as int),
        strip_end(s, p).len() > 0 ==> !p(strip_end(s, p).last()),
    decreases s.len(),
{
    if s.len() > 0 && p(s.last()) {
        lemma_strip_end_last(s.drop_last(), p);
        let r = strip_end(s.drop_last(), p);
        assert(s.drop_last().take(r.len() as int) =~= s.take(r.len() as int));
    } else {
        assert(s.take(s.len() as int) =~= s);
    }
}

/// Trimming what is already trimmed changes nothing.
pub proof fn lemma_trim_idempotent(s: Seq<char>)
    ensures
        trim_spec(trim_spec(s)) == trim_spec(s),
{
    let p = |c: char| is_ws(c);
    let a = strip_start(s, p);
    let t = strip_end(a, p);
    lemma_strip_start_first(s, p);
    lemma_strip_end_last(a, p);
    assert(t == trim_spec(s));
    if t.len() > 0 {
        assert(t[0] == a[0]);
    }
    assert(strip_start(t, p) == t);
    assert(strip_end(t, p) == t);
}

/// `str::trim` on a character sequence.
pub fn trim_chars(s: &[char]) -> (r: Vec<char>)
    ensures
        r@ == trim_spec(s@),
{
    let ghost p = |c: char| is_ws(c);
    let mut a: usize = 0;
    while a < s.len() && is_whitespace(s[a])
        invariant
            a <= s.len(),
            forall|j: int| 0 <= j < a ==> is_ws(#[trigger] s@[j]),
        decreases s.len() - a,
    {
        a = a + 1;
    }
    proof {
        lemma_strip_start_skip(s@, p, a as int);
    }
    let ghost t = s@.skip(a as int);
    assert(strip_start(t, p) == t);
    let mut b: usize = s.len();
    while b > a && is_whitespace(s[b - 1])
        invariant
            a <= b <= s.len(),
            forall|j: int| b <= j < s.len() ==> is_ws(#[trigger] s@[j]),
        decreases b - a,
    {
        b = b - 1;
    }
    let mut r: Vec<char> = Vec::new();
    let mut k: usize = a;
    while k < b
        invariant
            a <= k <= b <= s.len(),
            r@ == s@.subrange(a as int, k as int),
        decreases b - k,
    {
        r.push(s[k]);
        k = k + 1;
        assert(r@ =~= s@.subrange(a as int, k as int));
    }
    proof {
        let ba = (b - a) as int;
        assert forall|j: int| ba <= j < t.len() implies p(#[trigger] t[j]) by {
            assert(t[j] == s@[j + a]);
        }
        lemma_strip_end_take(t, p, ba);
        assert(t.take(ba) =~= s@.subrange(a as int, b as int));
        let u = t.take(ba);
        if u.len() > 0 {
            assert(u.last() == s@[b - 1]);
        }
    }
    r
}

/// `str::trim_matches([a, b])` on a character sequence.
pub fn strip_chars(s: &[char], a: char, b: char) -> (r: Vec<char>)
    ensures
        r@ == strip(s@, |c: char| c == a || c == b),
{
    let ghost p = |c: char| c == a || c == b;
    let mut i: usize = 0;
    while i < s.len() && (s[i] == a || s[i] == b)
        invariant
            i <= s.len(),
            forall|j: int| 0 <= j < i ==> #[trigger] s@[j] == a || s@[j] == b,
        decreases s.len() - i,
    {
        i = i + 1;
    }
    proof {
        lemma_strip_start_skip(s@, p, i as int);
    }
    let ghost t = s@.skip(i as int);
    let mut e: usize = s.len();
    while e > i && (s[e - 1] == a || s[e - 1] == b)
        invariant
            i <= e <= s.len(),
            forall|j: int| e <= j < s.len() ==> #[trigger] s@[j] == a || s@[j] == b,
        decreases e - i,
    {
        e = e - 1;
    }
    let r = slice_chars(s, i, e);
    proof {
        let ba = (e - i) as int;
        assert forall|j: int| ba <= j < t.len() implies p(#[trigger] t[j]) by {
            assert(t[j] == s@[j + i]);
        }
        lemma_strip_end_take(t, p, ba);
        assert(t.take(ba) =~= s@.subrange(i as int, e as int));
        let u = t.take(ba);
        if u.len() > 0 {
            assert(u.last() == s@[e - 1]);
        }
    }
    r
}


/// `str::trim_matches('"')` on a character sequence.
pub fn unquote_chars(s: &[char]) -> (r: Vec<char>)
    ensures
        r@ == unquote_spec(s@),
{
    let ghost p = |c: char| c == '"';
    let mut a: usize = 0;
    while a < s.len() && s[a] == '"'
        invariant
            a <= s.len(),
            forall|j: int| 0 <= j < a ==> #[trigger] s@[j] == '"',
        decreases s.len() - a,
    {
        a = a + 1;
    }
    proof {
        lemma_strip_start_skip(s@, p, a as int);
    }
    let ghost t = s@.skip(a as int);
    assert(strip_start(t, p) == t);
    let mut b: usize = s.len();
    while b > a && s[b - 1] == '"'
        invariant
            a <= b <= s.len(),
            forall|j: int| b <= j < s.len() ==> #[trigger] s@[j] == '"',
        decreases b - a,
    {
        b = b - 1;
    }
    let mut r: Vec<char> = Vec::new();
    let mut k: usize = a;
    while k < b
        invariant
            a <= k <= b <= s.len(),
            r@ == s@.subrange(a as int, k as int),
        decreases b - k,
    {
        r.push(s[k]);
        k = k + 1;
        assert(r@ =~= s@.subrange(a as int, k as int));
    }
    proof {
        let ba = (b - a) as int;
        assert forall|j: int| ba <= j < t.len() implies p(#[trigger] t[j]) by {
            assert(t[j] == s@[j + a]);
        }
        lemma_strip_end_take(t, p, ba);
        assert(t.take(ba) =~= s@.subrange(a as int, b as int));
        let u = t.take(ba);
        if u.len() > 0 {
            assert(u.last() == s@[b - 1]);
        }
    }
    r
}


pub open spec fn is_digit(c: char) -> bool {
    '0' <= c <= '9'
}

pub open spec fn digit_val(c: char) -> int {
    (c as u32) - ('0' as u32)
}

pub open spec fn all_digits(s: Seq<char>) -> bool {
    forall|i: int| 0 <= i < s.len() ==> is_digit(#[trigger] s[i])
}

/// The number a run of decimal digits spells.
pub open spec fn digits_value(s: Seq<char>) -> int
    decreases s.len(),
{
    if s.len() == 0 {
        0
    } else {
        digits_value(s.drop_last()) * 10 + digit_val(s.last())
    }
}

/// What the standard library's integer `from_str` reads, before the range
/// check of the target type: an optional `+` (or `-` for signed types)
/// followed by at least one decimal digit and nothing else.
pub open spec fn int_text(s: Seq<char>, signed: bool) -> Option<int> {
    if s.len() == 0 {
        None
    } else {
        let neg = signed && s[0] == '-';
        let rest = if s[0] == '+' || neg { s.drop_first() } else { s };
        if rest.len() == 0 || !all_digits(rest) {
            None
        } else if neg {
            Some(-digits_value(rest))
        } else {
            Some(digits_value(rest))
        }
    }
}

/// `str::parse::<u64>`.
pub open spec fn parse_u64_spec(s: Seq<char>) -> Option<u64> {
    match int_text(s, false) {
        Some(v) => if v <= u64::MAX { Some(v as u64) } else { None },
        None => None,
    }
}

/// `str::parse::<u32>`.
pub open spec fn parse_u32_spec(s: Seq<char>) -> Option<u32> {
    match int_text(s, false) {
        Some(v) => if v <= u32::MAX { Some(v as u32) } else { None },
        None => None,
    }
}

/// `str::parse::<i64>`.
pub open spec fn parse_i64_spec(s: Seq<char>) -> Option<i64> {
    match int_text(s, true) {
        Some(v) => if i64::MIN <= v <= i64::MAX { Some(v as i64) } else { None },
        None => None,
    }
}

proof fn lemma_digits_nonneg(s: Seq<char>)
    requires
        all_digits(s),
    ensures
        digits_value(s) >= 0,
    decreases s.len(),
{
    if s.len() > 0 {
        assert(is_digit(s[s.len() - 1]));
        assert(all_digits(s.drop_last())) by {
            assert forall|i: int| 0 <= i < s.drop_last().len() implies is_digit(
                #[trigger] s.drop_last()[i],
            ) by {
                assert(s.drop_last()[i] == s[i]);
            }
        }
        lemma_digits_nonneg(s.drop_last());
    }
}

proof fn lemma_digits_monotone(s: Seq<char>, i: int)
    requires
        all_digits(s),
        0 <= i <= s.len(),
    ensures
        digits_value(s.take(i)) <= digits_value(s),
    decreases s.len() - i,
{
    if i < s.len() {
        let t = s.take(i + 1);
        assert(all_digits(t)) by {
            assert forall|k: int| 0 <= k < t.len() implies is_digit(#[trigger] t[k]) by {
                assert(t[k] == s[k]);
            }
        }
        assert(t.drop_last() =~= s.take(i));
        assert(is_digit(t.last()));
        assert(all_digits(t.drop_last())) by {
            assert forall|k: int| 0 <= k < t.drop_last().len() implies is_digit(
                #[trigger] t.drop_last()[k],
            ) by {
                assert(t.drop_last()[k] == s[k]);
            }
        }
        lemma_digits_nonneg(t.drop_last());
        lemma_digits_monotone(s, i + 1);
    } else {
        assert(s.take(i) =~= s);
    }
}

/// Value of the digits `s[start..]` when every one is a digit, there is
/// at least one, and the value is at most `limit`.
fn digits_at_most(s: &[char], start: usize, limit: u64) -> (r: Option<u64>)
    requires
        start <= s.len(),
    ensures
        ({
            let rest = s@.skip(start as int);
            match r {
                Some(v) => rest.len() > 0 && all_digits(rest) && v == digits_value(rest)
                    && v <= limit,
                None => !(rest.len() > 0 && all_digits(rest) && digits_value(rest) <= limit),
            }
        }),
{
    let ghost rest = s@.skip(start as int);
    if start == s.len() {
        return None;
    }
    let mut acc: u64 = 0;
    let mut i: usize = start;
    while i < s.len()
        invariant
            start <= i <= s.len(),
            rest == s@.skip(start as int),
            all_digits(rest.take(i - start)),
            acc == digits_value(rest.take(i - start)),
            acc <= limit,
        decreases s.len() - i,
    {
        let c = s[i];
        if !('0' <= c && c <= '9') {
            proof {
                assert(rest[i - start] == c);
                assert(!is_digit(rest[i - start]));
            }
            return None;
        }
        let d = (c as u32 - '0' as u32) as u64;
        let ghost t = rest.take(i - start + 1);
        proof {
            assert(t.drop_last() =~= rest.take(i - start));
            assert(t.last() == c);
            assert(all_digits(t)) by {
                assert forall|k: int| 0 <= k < t.len() implies is_digit(#[trigger] t[k]) by {
                    if k < t.len() - 1 {
                        assert(t[k] == rest.take(i - start)[k]);
                    }
                }
            }
        }
        let nv: u128 = acc as u128 * 10 + d as u128;
        if nv > limit as u128 {
            proof {
                if all_digits(rest) {
                    lemma_digits_monotone(rest, i - start + 1);
                }
            }
            return None;
        }
        acc = nv as u64;
        i = i + 1;
    }
    assert(rest.take(s.len() - start) =~= rest);
    Some(acc)
}


/// `10^n`.
pub open spec fn pow10(n: nat) -> int
    decreases n,
{
    if n == 0 {
        1
    } else {
        10 * pow10((n - 1) as nat)
    }
}

/// A run of `n` digits spells a number below `10^n`.
pub proof fn lemma_digits_bound(s: Seq<char>)
    requires
        all_digits(s),
    ensures
        0 <= digits_value(s) < pow10(s.len()),
    decreases s.len(),
{
    if s.len() > 0 {
        assert(is_digit(s[s.len() - 1]));
        assert(all_digits(s.drop_last())) by {
            assert forall|i: int| 0 <= i < s.drop_last().len() implies is_digit(
                #[trigger] s.drop_last()[i],
            ) by {
                assert(s.drop_last()[i] == s[i]);
            }
        }
        lemma_digits_bound(s.drop_last());
    }
}

/// `str::parse::<i32>`.
pub open spec fn parse_i32_spec(s: Seq<char>) -> Option<i32> {
    match int_text(s, true) {
        Some(v) => if i32::MIN <= v <= i32::MAX { Some(v as i32) } else { None },
        None => None,
    }
}

/// `str::parse::<i32>` on a character sequence.
pub fn parse_i32(s: &[char]) -> (r: Option<i32>)
    ensures
        r == parse_i32_spec(s@),
{
    if s.len() == 0 {
        return None;
    }
    let neg = s[0] == '-';
    let start: usize = if s[0] == '+' || neg { 1 } else { 0 };
    proof {
        if start == 1 {
            assert(s@.skip(1) =~= s@.drop_first());
        } else {
            assert(s@.skip(0) =~= s@);
        }
    }
    if neg {
        match digits_at_most(s, start, 0x8000_0000u64) {
            Some(v) => {
                if v == 0x8000_0000u64 {
                    Some(i32::MIN)
                } else {
                    Some(-(v as i32))
                }
            },
            None => None,
        }
    } else {
        match digits_at_most(s, start, i32::MAX as u64) {
            Some(v) => Some(v as i32),
            None => {
                proof {
                    let rest = s@.skip(start as int);
                    if rest.len() > 0 && all_digits(rest) {
                        lemma_digits_nonneg(rest);
                    }
                }
                None
            },
        }
    }
}


/// `str::parse::<u64>` on a character sequence.
pub fn parse_u64(s: &[char]) -> (r: Option<u64>)
    ensures
        r == parse_u64_spec(s@),
{
    if s.len() == 0 {
        return None;
    }
    let start: usize = if s[0] == '+' { 1 } else { 0 };
    let r = digits_at_most(s, start, u64::MAX);
    proof {
        if start == 1 {
            assert(s@.skip(1) =~= s@.drop_first());
        } else {
            assert(s@.skip(0) =~= s@);
        }
    }
    r
}

/// `str::parse::<u32>` on a character sequence.
pub fn parse_u32(s: &[char]) -> (r: Option<u32>)
    ensures
        r == parse_u32_spec(s@),
{
    if s.len() == 0 {
        return None;
    }
    let start: usize = if s[0] == '+' { 1 } else { 0 };
    let r = digits_at_most(s, start, u32::MAX as u64);
    proof {
        if start == 1 {
            assert(s@.skip(1) =~= s@.drop_first());
        } else {
            assert(s@.skip(0) =~= s@);
        }
    }
    match r {
        Some(v) => Some(v as u32),
        None => None,
    }
}

/// `str::parse::<i64>` on a character sequence.
pub fn parse_i64(s: &[char]) -> (r: Option<i64>)
    ensures
        r == parse_i64_spec(s@),
{
    if s.len() == 0 {
        return None;
    }
    let neg = s[0] == '-';
    let start: usize = if s[0] == '+' || neg { 1 } else { 0 };
    proof {
        if start == 1 {
            assert(s@.skip(1) =~= s@.drop_first());
        } else {
            assert(s@.skip(0) =~= s@);
        }
    }
    if neg {
        match digits_at_most(s, start, 0x8000_0000_0000_0000u64) {
            Some(v) => {
                if v == 0x8000_0000_0000_0000u64 {
                    Some(i64::MIN)
                } else {
                    Some(-(v as i64))
                }
            },
            None => None,
        }
    } else {
        match digits_at_most(s, start, i64::MAX as u64) {
            Some(v) => Some(v as i64),
            None => {
                proof {
                    let rest = s@.skip(start as int);
                    if rest.len() > 0 && all_digits(rest) {
                        lemma_digits_nonneg(rest);
                    }
                }
                None
            },
        }
    }
}


/// `p` occurs in `s` at position `i`.
pub open spec fn occurs_at(s: Seq<char>, p: Seq<char>, i: int) -> bool {
    0 <= i && i + p.len() <= s.len() && s.subrange(i, i + p.len()) == p
}

/// The first position at or after `from` where `p` occurs.
pub open spec fn is_first_at(s: Seq<char>, p: Seq<char>, from: int, i: int) -> bool {
    from <= i && occurs_at(s, p, i) && forall|j: int| from <= j < i ==> !occurs_at(s, p, j)
}

/// The last position where `p` occurs.
pub open spec fn is_last_at(s: Seq<char>, p: Seq<char>, i: int) -> bool {
    occurs_at(s, p, i) && forall|j: int| i < j <= s.len() ==> !occurs_at(s, p, j)
}

/// `p` occurs somewhere at or after `from`.
pub open spec fn occurs_from(s: Seq<char>, p: Seq<char>, from: int) -> bool {
    exists|j: int| from <= j && occurs_at(s, p, j)
}

fn matches_at(s: &[char], p: &[char], i: usize) -> (b: bool)
    ensures
        b == occurs_at(s@, p@, i as int),
{
    if i > s.len() || p.len() > s.len() - i {
        return false;
    }
    let mut k: usize = 0;
    while k < p.len()
        invariant
            i + p.len() <= s.len(),
            k <= p.len(),
            forall|m: int| 0 <= m < k ==> s@[i + m] == p@[m],
        decreases p.len() - k,
    {
        if s[i + k] != p[k] {
            proof {
                assert(s@.subrange(i as int, i + p.len())[k as int] != p@[k as int]);
            }
            return false;
        }
        k = k + 1;
    }
    assert(s@.subrange(i as int, i + p.len()) =~= p@);
    true
}

/// The first position at or after `from` where `p` occurs, if any,
/// found by scanning left to right.
pub open spec fn find_spec(s: Seq<char>, p: Seq<char>, from: int) -> Option<int>
    decreases s.len() + 1 - from,
{
    if from < 0 || from > s.len() {
        None
    } else if occurs_at(s, p, from) {
        Some(from)
    } else {
        find_spec(s, p, from + 1)
    }
}

/// What the scan finds is the first occurrence.
pub proof fn lemma_find_spec(s: Seq<char>, p: Seq<char>, from: int)
    requires
        0 <= from,
    ensures
        match find_spec(s, p, from) {
            Some(i) => is_first_at(s, p, from, i),
            None => !occurs_from(s, p, from),
        },
    decreases s.len() + 1 - from,
{
    if from > s.len() {
        assert forall|j: int| from <= j implies !occurs_at(s, p, j) by {}
    } else if !occurs_at(s, p, from) {
        lemma_find_spec(s, p, from + 1);
    }
}

/// `str::find` from a starting position: the first occurrence of `p` at
/// or after `from`.
pub fn find_from(s: &[char], p: &[char], from: usize) -> (r: Option<usize>)
    ensures
        match r {
            Some(i) => find_spec(s@, p@, from as int) == Some(i as int),
            None => find_spec(s@, p@, from as int) is None,
        },
{
    if from > s.len() {
        return None;
    }
    let mut i: usize = from;
    while i < s.len()
        invariant
            from <= i <= s.len(),
            find_spec(s@, p@, from as int) == find_spec(s@, p@, i as int),
        decreases s.len() - i,
    {
        if matches_at(s, p, i) {
            return Some(i);
        }
        i = i + 1;
    }
    if matches_at(s, p, i) {
        return Some(i);
    }
    assert(find_spec(s@, p@, i + 1) is None);
    None
}

/// `str::rfind`: the last occurrence of `p`.
pub fn rfind(s: &[char], p: &[char]) -> (r: Option<usize>)
    ensures
        match r {
            Some(i) => is_last_at(s@, p@, i as int),
            None => !occurs_from(s@, p@, 0),
        },
{
    if matches_at(s, p, s.len()) {
        return Some(s.len());
    }
    let mut i: usize = s.len();
    while i > 0
        invariant
            i <= s.len(),
            forall|j: int| i <= j <= s.len() ==> !occurs_at(s@, p@, j),
        decreases i,
    {
        i = i - 1;
        if matches_at(s, p, i) {
            return Some(i);
        }
    }
    assert forall|j: int| 0 <= j implies !occurs_at(s@, p@, j) by {
        if j > s@.len() {
            assert(j + p@.len() > s@.len());
        }
    }
    None
}

/// `str::contains`.
pub fn contains(s: &[char], p: &[char]) -> (b: bool)
    ensures
        b == occurs_from(s@, p@, 0),
{
    proof {
        lemma_find_spec(s@, p@, 0);
    }
    find_from(s, p, 0).is_some()
}

/// `str::starts_with`.
pub fn starts_with(s: &[char], p: &[char]) -> (b: bool)
    ensures
        b == occurs_at(s@, p@, 0),
{
    matches_at(s, p, 0)
}

/// `str::ends_with`.
pub fn ends_with(s: &[char], p: &[char]) -> (b: bool)
    ensures
        b == (p@.len() <= s@.len() && occurs_at(s@, p@, s@.len() - p@.len())),
{
    if p.len() > s.len() {
        return false;
    }
    matches_at(s, p, s.len() - p.len())
}

/// The characters `s[a..b]`.
pub fn slice_chars(s: &[char], a: usize, b: usize) -> (r: Vec<char>)
    requires
        a <= b <= s.len(),
    ensures
        r@ == s@.subrange(a as int, b as int),
{
    let mut r: Vec<char> = Vec::new();
    let mut k: usize = a;
    while k < b
        invariant
            a <= k <= b <= s.len(),
            r@ == s@.subrange(a as int, k as int),
        decreases b - k,
    {
        r.push(s[k]);
        k = k + 1;
        assert(r@ =~= s@.subrange(a as int, k as int));
    }
    r
}


/// The `n`-th piece (from 0) of `str::split(c)`; `None` when there are
/// fewer pieces.
pub open spec fn piece_at(s: Seq<char>, c: char, n: nat) -> Option<Seq<char>>
    decreases n,
{
    match find_spec(s, seq![c], 0) {
        Some(i) => if n == 0 {
            Some(s.take(i))
        } else {
            piece_at(s.skip(i + 1), c, (n - 1) as nat)
        },
        None => if n == 0 {
            Some(s)
        } else {
            None
        },
    }
}

/// The `n`-th piece of `str::split(c)`.
pub fn split_piece(s: &[char], c: char, n: usize) -> (r: Option<Vec<char>>)
    ensures
        match r {
            Some(v) => piece_at(s@, c, n as nat) == Some(v@),
            None => piece_at(s@, c, n as nat) is None,
        },
{
    let sep: Vec<char> = vec![c];
    let mut rest: Vec<char> = slice_chars(s, 0, s.len());
    assert(s@.subrange(0, s@.len() as int) =~= s@);
    let mut k: usize = 0;
    loop
        invariant
            k <= n,
            sep@ == seq![c],
            piece_at(s@, c, n as nat) == piece_at(rest@, c, (n - k) as nat),
        decreases n - k,
    {
        match find_from(&rest, &sep, 0) {
            Some(i) => {
                proof {
                    lemma_find_spec(rest@, sep@, 0);
                    assert(occurs_at(rest@, sep@, i as int));
                    assert(rest@.len() == rest.len());
                }
                if k == n {
                    let v = slice_chars(&rest, 0, i);
                    assert(v@ =~= rest@.take(i as int));
                    return Some(v);
                }
                let nr = slice_chars(&rest, i + 1, rest.len());
                assert(nr@ =~= rest@.skip(i + 1));
                rest = nr;
                k = k + 1;
            },
            None => {
                if k == n {
                    return Some(rest);
                }
                return None;
            },
        }
    }
}

/// `str::split_once(c)`: the text before and after the first `c`.
pub open spec fn split_once_spec(s: Seq<char>, c: char) -> Option<(Seq<char>, Seq<char>)> {
    match find_spec(s, seq![c], 0) {
        Some(i) => Some((s.take(i), s.skip(i + 1))),
        None => None,
    }
}

/// `str::split_once(c)` on a character sequence.
pub fn split_once(s: &[char], c: char) -> (r: Option<(Vec<char>, Vec<char>)>)
    ensures
        match r {
            Some((a, b)) => split_once_spec(s@, c) == Some((a@, b@)),
            None => split_once_spec(s@, c) is None,
        },
{
    let sep: Vec<char> = vec![c];
    assert(sep@ =~= seq![c]);
    match find_from(s, &sep, 0) {
        Some(i) => {
            proof {
                lemma_find_spec(s@, sep@, 0);
                assert(occurs_at(s@, sep@, i as int));
                assert(s@.len() == s.len());
            }
            let a = slice_chars(s, 0, i);
            let b = slice_chars(s, i + 1, s.len());
            assert(a@ =~= s@.take(i as int));
            assert(b@ =~= s@.skip(i + 1));
            Some((a, b))
        },
        None => None,
    }
}


/// The decimal digit character of `d` (0 to 9).
pub open spec fn digit_char(d: int) -> char {
    (48 + d) as char
}

/// The decimal representation of `n`, as `Display` writes it.
pub open spec fn dec_digits(n: nat) -> Seq<char>
    decreases n,
{
    if n < 10 {
        seq![digit_char(n as int)]
    } else {
        dec_digits(n / 10) + seq![digit_char((n % 10) as int)]
    }
}

/// Appends the decimal representation of `n`.
pub fn push_decimal(out: &mut Vec<char>, n: u64)
    ensures
        final(out)@ == old(out)@ + dec_digits(n as nat),
    decreases n,
{
    if n >= 10 {
        push_decimal(out, n / 10);
    }
    let d = (n % 10) as u8;
    let c = (48u8 + d) as char;
    assert(c == digit_char(d as int));
    out.push(c);
    proof {
        if n >= 10 {
            assert(old(out)@ + dec_digits(n as nat) =~= old(out)@ + dec_digits((n / 10) as nat)
                + seq![digit_char((n % 10) as int)]);
        } else {
            assert(old(out)@ + dec_digits(n as nat) =~= old(out)@ + seq![digit_char(n as int)]);
        }
    }
}


/// The decimal representation of a signed number, as `Display` writes it.
pub open spec fn signed_digits(v: int) -> Seq<char> {
    if v < 0 {
        seq!['-'] + dec_digits((-v) as nat)
    } else {
        dec_digits(v as nat)
    }
}

/// Appends the decimal representation of a signed number.
pub fn push_signed(out: &mut Vec<char>, v: i64)
    ensures
        final(out)@ == old(out)@ + signed_digits(v as int),
{
    if v < 0 {
        out.push('-');
        let m: u64 = if v == i64::MIN {
            0x8000_0000_0000_0000u64
        } else {
            (-v) as u64
        };
        push_decimal(out, m);
        assert(out@ =~= old(out)@ + signed_digits(v as int));
    } else {
        push_decimal(out, v as u64);
    }
}


/// `str::replace(p, r)` for a non-empty pattern: every non-overlapping
/// occurrence of `p`, scanning from the left, becomes `r`.
pub open spec fn replace_spec(s: Seq<char>, p: Seq<char>, r: Seq<char>) -> Seq<char>
    decreases s.len(),
{
    if s.len() == 0 || p.len() == 0 {
        s
    } else if occurs_at(s, p, 0) {
        r + replace_spec(s.skip(p.len() as int), p, r)
    } else {
        seq![s[0]] + replace_spec(s.drop_first(), p, r)
    }
}

proof fn lemma_skip_occurs(s: Seq<char>, p: Seq<char>, i: int)
    requires
        0 <= i <= s.len(),
    ensures
        occurs_at(s.skip(i), p, 0) == occurs_at(s, p, i),
{
    if occurs_at(s, p, i) {
        assert(s.skip(i).subrange(0, p.len() as int) =~= s.subrange(i, i + p.len()));
    }
    if occurs_at(s.skip(i), p, 0) {
        assert(s.skip(i).subrange(0, p.len() as int) =~= s.subrange(i, i + p.len()));
    }
}

/// `str::replace` for a non-empty pattern.
pub fn replace_chars(s: &[char], p: &[char], r: &[char]) -> (out: Vec<char>)
    requires
        p@.len() > 0,
    ensures
        out@ == replace_spec(s@, p@, r@),
{
    let mut out: Vec<char> = Vec::new();
    let mut i: usize = 0;
    assert(s@.skip(0) =~= s@);
    while i < s.len()
        invariant
            i <= s.len(),
            p@.len() > 0,
            out@ + replace_spec(s@.skip(i as int), p@, r@) == replace_spec(s@, p@, r@),
        decreases s.len() - i,
    {
        let ghost t = s@.skip(i as int);
        proof {
            lemma_skip_occurs(s@, p@, i as int);
        }
        if matches_at(s, p, i) {
            let mut k: usize = 0;
            let ghost o = out@;
            while k < r.len()
                invariant
                    k <= r.len(),
                    out@ == o + r@.take(k as int),
                decreases r.len() - k,
            {
                out.push(r[k]);
                k = k + 1;
                assert(out@ =~= o + r@.take(k as int));
            }
            assert(r@.take(r@.len() as int) =~= r@);
            assert(t.skip(p@.len() as int) =~= s@.skip(i + p@.len()));
            assert(o + (r@ + replace_spec(t.skip(p@.len() as int), p@, r@)) =~= out@
                + replace_spec(s@.skip(i + p@.len()), p@, r@));
            i = i + p.len();
        } else {
            let ghost o = out@;
            out.push(s[i]);
            assert(t.drop_first() =~= s@.skip(i + 1));
            assert(t[0] == s@[i as int]);
            assert(o + (seq![t[0]] + replace_spec(t.drop_first(), p@, r@)) =~= out@
                + replace_spec(s@.skip(i + 1), p@, r@));
            i = i + 1;
        }
    }
    assert(s@.skip(s@.len() as int) =~= Seq::<char>::empty());
    assert(out@ + Seq::<char>::empty() =~= out@);
    out
}


/// UTF-16 decoding with replacement, as `String::from_utf16_lossy`
/// documents it: a unit outside the surrogate range is that character; a
/// high surrogate followed by a low one is the character the two encode;
/// any other surrogate becomes U+FFFD and decoding goes on with the next
/// unit.
#[verifier::opaque]
pub open spec fn utf16_lossy(units: Seq<u16>) -> Seq<char>
    decreases units.len(),
{
    if units.len() == 0 {
        Seq::empty()
    } else if is_bmp_scalar(units[0]) {
        seq![units[0] as char] + utf16_lossy(units.skip(1))
    } else if 0xD800 <= units[0] <= 0xDBFF && units.len() >= 2 && 0xDC00 <= units[1] <= 0xDFFF {
        seq![(0x10000 + (units[0] - 0xD800) * 0x400 + (units[1] - 0xDC00)) as char] + utf16_lossy(
            units.skip(2),
        )
    } else {
        seq!['\u{FFFD}'] + utf16_lossy(units.skip(1))
    }
}

/// What `String::from_utf8_lossy` makes of a run of bytes.
pub uninterp spec fn utf8_lossy(bytes: Seq<u8>) -> Seq<char>;

/// What `str::to_lowercase` makes of a string.
pub uninterp spec fn lowercase(s: Seq<char>) -> Seq<char>;

/// A code unit that stands for one character by itself in UTF-16.
pub open spec fn is_bmp_scalar(u: u16) -> bool {
    u < 0xD800 || u > 0xDFFF
}

/// An ASCII character.
pub open spec fn is_ascii_char(c: char) -> bool {
    (c as u32) < 0x80
}

/// `char::to_ascii_lowercase`.
pub open spec fn ascii_lower(c: char) -> char {
    if 'A' <= c <= 'Z' {
        ((c as u32) + 32) as char
    } else {
        c
    }
}

/// `char::from_u32`: the character with code `u` when `u` is a Unicode
/// scalar value (below 0x110000 and outside the surrogates
/// 0xD800–0xDFFF), else nothing.
#[verifier::external_body]
fn char_from_u32(u: u32) -> (r: Option<char>)
    ensures
        r == if u < 0xD800 || (0xE000 <= u && u < 0x110000) {
            Some(u as char)
        } else {
            None
        },
{
    char::from_u32(u)
}

/// `String::from_utf16_lossy`: UTF-16 decoding in which every ill-formed
/// surrogate becomes U+FFFD (see `utf16_lossy`); a run without surrogates
/// is its units taken as characters.
pub(crate) fn from_utf16_lossy(units: &[u16]) -> (s: String)
    ensures
        s@ == utf16_lossy(units@),
        (forall|i: int| 0 <= i < units@.len() ==> is_bmp_scalar(#[trigger] units@[i])) ==> s@
            == units@.map_values(|u: u16| u as char),
{
    let mut out: Vec<char> = Vec::new();
    let mut i: usize = 0;
    proof {
        assert(units@.skip(0) =~= units@);
    }
    while i < units.len()
        invariant
            i <= units.len(),
            out@ + utf16_lossy(units@.skip(i as int)) == utf16_lossy(units@),
            (forall|j: int| 0 <= j < i ==> is_bmp_scalar(#[trigger] units@[j])) ==> out@
                == units@.take(i as int).map_values(|u: u16| u as char),
        decreases units.len() - i,
    {
        let ghost rest = units@.skip(i as int);
        let ghost before = out@;
        let u = units[i];
        proof {
            reveal(utf16_lossy);
            assert(rest[0] == u);
        }
        if u < 0xD800 || u > 0xDFFF {
            let c = match char_from_u32(u as u32) {
                Some(c) => c,
                None => '\u{FFFD}',
            };
            out.push(c);
            proof {
                assert(rest.skip(1) =~= units@.skip(i as int + 1));
                assert(c == u as char);
                assert(out@ + utf16_lossy(rest.skip(1)) =~= before + utf16_lossy(rest));
                assert(units@.take(i as int + 1).map_values(|u: u16| u as char) =~= units@.take(
                    i as int,
                ).map_values(|u: u16| u as char).push(u as char));
            }
            i = i + 1;
        } else if u <= 0xDBFF && i + 1 < units.len() && 0xDC00 <= units[i + 1] && units[i + 1]
            <= 0xDFFF {
            let v = units[i + 1];
            let code: u32 = 0x10000 + (u as u32 - 0xD800) * 0x400 + (v as u32 - 0xDC00);
            let c = match char_from_u32(code) {
                Some(c) => c,
                None => '\u{FFFD}',
            };
            out.push(c);
            proof {
                assert(rest[1] == v);
                assert(rest.skip(2) =~= units@.skip(i as int + 2));
                assert(out@ + utf16_lossy(rest.skip(2)) =~= before + utf16_lossy(rest));
                assert(!is_bmp_scalar(units@[i as int]));
            }
            i = i + 2;
        } else {
            out.push('\u{FFFD}');
            proof {
                assert(rest.skip(1) =~= units@.skip(i as int + 1));
                assert(out@ + utf16_lossy(rest.skip(1)) =~= before + utf16_lossy(rest));
                assert(!is_bmp_scalar(units@[i as int]));
            }
            i = i + 1;
        }
    }
    proof {
        reveal(utf16_lossy);
        assert(units@.skip(i as int).len() == 0);
        assert(out@ + Seq::<char>::empty() =~= out@);
        assert(units@.take(i as int) =~= units@);
    }
    string_from(&out)
}

/// `String::from_utf8_lossy`: valid UTF-8 comes back as the characters it
/// encodes.
#[verifier::external_body]
pub(crate) fn from_utf8_lossy(bytes: &[u8]) -> (s: String)
    ensures
        s@ == utf8_lossy(bytes@),
        vstd::utf8::valid_utf8(bytes@) ==> s@ == vstd::utf8::decode_utf8(bytes@),
{
    String::from_utf8_lossy(bytes).into_owned()
}

/// `str::to_lowercase`. On ASCII text it lowers `A`–`Z` and keeps every
/// other character.
#[verifier::external_body]
pub(crate) fn to_lowercase(s: &str) -> (r: String)
    ensures
        r@ == lowercase(s@),
        (forall|i: int| 0 <= i < s@.len() ==> is_ascii_char(#[trigger] s@[i])) ==> r@
            == s@.map_values(|c: char| ascii_lower(c)),
{
    s.to_lowercase()
}

/// `char::to_ascii_lowercase`.
pub fn to_ascii_lower(c: char) -> (r: char)
    ensures
        r == ascii_lower(c),
{
    if 'A' <= c && c <= 'Z' {
        let b = c as u8;
        (b + 32) as char
    } else {
        c
    }
}

/// `str::to_ascii_lowercase` on a character sequence.
pub fn ascii_lowercase(s: &[char]) -> (r: Vec<char>)
    ensures
        r@ == s@.map_values(|c: char| ascii_lower(c)),
{
    let mut r: Vec<char> = Vec::new();
    let mut i: usize = 0;
    while i < s.len()
        invariant
            i <= s.len(),
            r@ == s@.take(i as int).map_values(|c: char| ascii_lower(c)),
        decreases s.len() - i,
    {
        r.push(to_ascii_lower(s[i]));
        i = i + 1;
        assert(r@ =~= s@.take(i as int).map_values(|c: char| ascii_lower(c)));
    }
    assert(s@.take(s@.len() as int) =~= s@);
    r
}

/// `str::eq_ignore_ascii_case`.
pub open spec fn eq_ignore_ascii_case_spec(a: Seq<char>, b: Seq<char>) -> bool {
    a.len() == b.len() && forall|i: int| 0 <= i < a.len() ==> ascii_lower(#[trigger] a[i])
        == ascii_lower(b[i])
}

/// `str::eq_ignore_ascii_case` on character sequences.
pub fn eq_ignore_ascii_case(a: &[char], b: &[char]) -> (r: bool)
    ensures
        r == eq_ignore_ascii_case_spec(a@, b@),
{
    if a.len() != b.len() {
        return false;
    }
    let mut i: usize = 0;
    while i < a.len()
        invariant
            a@.len() == b@.len(),
            i <= a.len(),
            forall|k: int| 0 <= k < i ==> ascii_lower(#[trigger] a@[k]) == ascii_lower(b@[k]),
        decreases a.len() - i,
    {
        if to_ascii_lower(a[i]) != to_ascii_lower(b[i]) {
            return false;
        }
        i = i + 1;
    }
    true
}

/// Characters equal as sequences.
pub fn chars_eq(a: &[char], b: &[char]) -> (r: bool)
    ensures
        r == (a@ == b@),
{
    if a.len() != b.len() {
        return false;
    }
    let mut i: usize = 0;
    while i < a.len()
        invariant
            a@.len() == b@.len(),
            i <= a.len(),
            forall|k: int| 0 <= k < i ==> a@[k] == b@[k],
        decreases a.len() - i,
    {
        if a[i] != b[i] {
            return false;
        }
        i = i + 1;
    }
    assert(a@ =~= b@);
    true
}

} // verus!
