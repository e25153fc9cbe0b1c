//! Windows version and update state ("am I protected?").
//!
//! Everything comes from the registry: the build number, the product
//! name, the feature-update label and the times of the last successful
//! update search and install. The values are read elsewhere and handed
//! in as they were found; this module decides what they mean.

use vstd::prelude::*;

use crate::evtlog::civil_days;
use crate::text::{
    chars_of, contains, occurs_from, parse_i64, parse_i64_spec, parse_u32, parse_u32_spec,
    piece_at, replace_chars, replace_spec, split_once, split_once_spec, split_piece,
    string_from, trim_chars, trim_spec,
};

verus! {

/// System version and update state.
#[derive(Debug, Clone, Default, PartialEq)]
pub struct OsInfo {
    /// "Windows 11 Pro" — the marketing name including the edition.
    pub product: String,
    /// "24H2" — the feature-update label.
    pub display_version: Option<String>,
    /// Build and revision: 26100.4652.
    pub build: u32,
    pub ubr: u32,
    /// When the system was installed (unix).
    pub install_ts: Option<i64>,
    /// Architecture: "x64", "ARM64", "x86".
    pub arch: String,
    /// When the last successful update search ran (unix).
    pub update_last_search: Option<i64>,
    /// When the last successful update install ran (unix).
    pub update_last_install: Option<i64>,
    /// Start type of the Windows Update service (2 = automatic,
    /// 3 = manual, 4 = disabled). `None` = the key could not be read.
    pub update_service_start: Option<u32>,
    /// Is automatic updating switched off by policy?
    pub update_disabled_by_policy: bool,
}

/// The registry values the version and update state are made of, as
/// read: `None` where a value is missing.
#[derive(Debug, Clone, Default)]
pub struct OsRegistry {
    /// `CurrentVersion\CurrentBuildNumber`.
    pub current_build: Option<String>,
    /// `CurrentVersion\ProductName`.
    pub product_name: Option<String>,
    /// `CurrentVersion\DisplayVersion`.
    pub display_version: Option<String>,
    /// `CurrentVersion\ReleaseId` (older builds).
    pub release_id: Option<String>,
    /// `CurrentVersion\UBR`.
    pub ubr: Option<u64>,
    /// `CurrentVersion\InstallDate`.
    pub install_date: Option<u64>,
    /// The `PROCESSOR_ARCHITECTURE` environment variable.
    pub processor_architecture: Option<String>,
    /// `Auto Update\Results\Detect\LastSuccessTime`.
    pub wu_detect: Option<String>,
    /// `Auto Update\Results\Install\LastSuccessTime`.
    pub wu_install: Option<String>,
    /// The string values under `Auto Update\LastOnlineScanTimeForAppCategory`,
    /// category by category, in registry order.
    pub online_scan_times: Vec<String>,
    /// `Services\wuauserv\Start`.
    pub wu_start: Option<u64>,
    /// `Policies\...\WindowsUpdate\AU\NoAutoUpdate`.
    pub no_auto_update: Option<u64>,
}

/// `OsInfo` as mathematical values.
pub struct OsInfoView {
    pub product: Seq<char>,
    pub display_version: Option<Seq<char>>,
    pub build: u32,
    pub ubr: u32,
    pub install_ts: Option<i64>,
    pub arch: Seq<char>,
    pub update_last_search: Option<i64>,
    pub update_last_install: Option<i64>,
    pub update_service_start: Option<u32>,
    pub update_disabled_by_policy: bool,
}

impl View for OsInfo {
    type V = OsInfoView;

    open spec fn view(&self) -> OsInfoView {
        OsInfoView {
            product: self.product@,
            display_version: opt_view(self.display_version),
            build: self.build,
            ubr: self.ubr,
            install_ts: self.install_ts,
            arch: self.arch@,
            update_last_search: self.update_last_search,
            update_last_install: self.update_last_install,
            update_service_start: self.update_service_start,
            update_disabled_by_policy: self.update_disabled_by_policy,
        }
    }
}

/// The characters of an optional string.
pub open spec fn opt_view(s: Option<String>) -> Option<Seq<char>> {
    match s {
        Some(v) => Some(v@),
        None => None,
    }
}

/// A piece of text read as `i64`; a missing piece reads as nothing.
pub open spec fn parse_piece(p: Option<Seq<char>>) -> Option<i64> {
    match p {
        Some(x) => parse_i64_spec(x),
        None => None,
    }
}

/// The six numbers of `YYYY-MM-DD HH:MM[:SS]` (after trimming): the date
/// and the time are split at the first space, their parts at `-` and `:`;
/// missing seconds read as 0 and further parts are ignored.
pub open spec fn utc_fields(s: Seq<char>) -> Option<(i64, i64, i64, i64, i64, i64)> {
    match split_once_spec(trim_spec(s), ' ') {
        None => None,
        Some((date, time)) => {
            let y = parse_piece(piece_at(date, '-', 0));
            let mo = parse_piece(piece_at(date, '-', 1));
            let da = parse_piece(piece_at(date, '-', 2));
            let h = parse_piece(piece_at(time, ':', 0));
            let mi = parse_piece(piece_at(time, ':', 1));
            let se = match piece_at(time, ':', 2) {
                Some(x) => parse_i64_spec(x),
                None => Some(0i64),
            };
            match (y, mo, da, h, mi, se) {
                (Some(y), Some(mo), Some(da), Some(h), Some(mi), Some(se)) => Some(
                    (y, mo, da, h, mi, se),
                ),
                _ => None,
            }
        },
    }
}

/// The date lies in the accepted calendar range.
pub open spec fn utc_date_ok(y: i64, mo: i64, da: i64) -> bool {
    1970 <= y <= 3000 && 1 <= mo <= 12 && 1 <= da <= 31
}

pub open spec fn in_i64(v: int) -> bool {
    i64::MIN <= v <= i64::MAX
}

/// Unix seconds of a registry UTC timestamp, as an integer; `None` when
/// the text is not such a timestamp or the date is out of range.
pub open spec fn utc_value(s: Seq<char>) -> Option<int> {
    match utc_fields(s) {
        Some((y, mo, da, h, mi, se)) => if utc_date_ok(y, mo, da) {
            Some(civil_days(y as int, mo as int, da as int) * 86400 + h * 3600 + mi * 60 + se)
        } else {
            None
        },
        None => None,
    }
}

/// Every step of the sum of a timestamp's seconds stays within `i64`
/// (hours, minutes and seconds are not range-checked, so an absurd value
/// there would overflow).
pub open spec fn utc_fits(s: Seq<char>) -> bool {
    match utc_fields(s) {
        Some((y, mo, da, h, mi, se)) => utc_date_ok(y, mo, da) ==> {
            let d = civil_days(y as int, mo as int, da as int) * 86400;
            &&& in_i64(h * 3600)
            &&& in_i64(mi * 60)
            &&& in_i64(d + h * 3600)
            &&& in_i64(d + h * 3600 + mi * 60)
            &&& in_i64(d + h * 3600 + mi * 60 + se)
        },
        None => true,
    }
}

/// `parse_utc`: the timestamp's unix seconds.
pub open spec fn parse_utc_spec(s: Seq<char>) -> Option<i64> {
    match utc_value(s) {
        Some(v) => Some(v as i64),
        None => None,
    }
}

/// An optional registry string holds a timestamp whose sum fits.
pub open spec fn opt_utc_fits(s: Option<String>) -> bool {
    match s {
        Some(v) => utc_fits(v@),
        None => true,
    }
}

fn parse_field(p: Option<Vec<char>>) -> (r: Option<i64>)
    ensures
        r == parse_piece(match p {
            Some(v) => Some(v@),
            None => None,
        }),
{
    match p {
        Some(v) => parse_i64(&v),
        None => None,
    }
}

fn utc_fields_of(cs: &[char]) -> (r: Option<(i64, i64, i64, i64, i64, i64)>)
    ensures
        r == utc_fields(cs@),
{
    let t = trim_chars(cs);
    let (date, time) = match split_once(&t, ' ') {
        Some(p) => p,
        None => return None,
    };
    let y = parse_field(split_piece(&date, '-', 0));
    let mo = parse_field(split_piece(&date, '-', 1));
    let da = parse_field(split_piece(&date, '-', 2));
    let h = parse_field(split_piece(&time, ':', 0));
    let mi = parse_field(split_piece(&time, ':', 1));
    let se = match split_piece(&time, ':', 2) {
        Some(x) => parse_i64(&x),
        None => Some(0i64),
    };
    match (y, mo, da, h, mi, se) {
        (Some(y), Some(mo), Some(da), Some(h), Some(mi), Some(se)) => Some((y, mo, da, h, mi, se)),
        _ => None,
    }
}

/// Days since 1970-01-01 of a civil date (Howard Hinnant's algorithm).
fn days_from_civil(y: i64, m: i64, d: i64) -> (r: i64)
    requires
        1970 <= y <= 3000,
        1 <= m <= 12,
        1 <= d <= 31,
    ensures
        r == civil_days(y as int, m as int, d as int),
        0 <= r <= 400_000,
{
    let y = if m <= 2 { y - 1 } else { y };
    let era = y / 400;
    let yoe = y - era * 400;
    let doy = (153 * (if m > 2 { m - 3 } else { m + 9 }) + 2) / 5 + d - 1;
    let doe = yoe * 365 + yoe / 4 - yoe / 100 + doy;
    assert((m + 9) % 12 == (if m > 2 { m - 3 } else { m + 9 }));
    era * 146097 + doe - 719468
}

/// "YYYY-MM-DD HH:MM:SS" (UTC) to unix seconds — the format Windows
/// Update writes into the registry.
pub fn parse_utc(s: &str) -> (r: Option<i64>)
    requires
        utc_fits(s@),
    ensures
        r == parse_utc_spec(s@),
        r is Some ==> utc_value(s@) == Some(r->0 as int),
{
    let cs = chars_of(s);
    let (y, mo, da, h, mi, se) = match utc_fields_of(&cs) {
        Some(f) => f,
        None => return None,
    };
    if !(1970 <= y && y <= 3000) || !(1 <= mo && mo <= 12) || !(1 <= da && da <= 31) {
        return None;
    }
    let days = days_from_civil(y, mo, da);
    let hs = h * 3600;
    let ms = mi * 60;
    let a = days * 86400 + hs;
    let b = a + ms;
    Some(b + se)
}

/// Whether `parse_utc` can read `s` without its sum leaving `i64`.
pub fn utc_sum_fits(s: &str) -> (b: bool)
    ensures
        b == utc_fits(s@),
{
    let cs = chars_of(s);
    let (y, mo, da, h, mi, se) = match utc_fields_of(&cs) {
        Some(f) => f,
        None => return true,
    };
    if !(1970 <= y && y <= 3000) || !(1 <= mo && mo <= 12) || !(1 <= da && da <= 31) {
        return true;
    }
    let d = days_from_civil(y, mo, da) as i128 * 86400;
    let hs = h as i128 * 3600;
    let ms = mi as i128 * 60;
    let lo = i64::MIN as i128;
    let hi = i64::MAX as i128;
    let in_range = |v: i128| -> (r: bool)
        ensures
            r == (lo <= v <= hi),
        { lo <= v && v <= hi };
    in_range(hs) && in_range(ms) && in_range(d + hs) && in_range(d + hs + ms) && in_range(
        d + hs + ms + se as i128,
    )
}

/// The time a Windows Update result key records, if it holds one.
pub open spec fn wu_time_spec(raw: Option<String>) -> Option<i64> {
    match raw {
        Some(s) => parse_utc_spec(s@),
        None => None,
    }
}

/// `LastSuccessTime` of a Windows Update result, read as a timestamp.
pub fn wu_time(raw: &Option<String>) -> (r: Option<i64>)
    requires
        opt_utc_fits(*raw),
    ensures
        r == wu_time_spec(*raw),
{
    match raw {
        Some(s) => parse_utc(s.as_str()),
        None => None,
    }
}

/// The latest of the timestamps among `vals` that can be read.
pub open spec fn latest_utc(vals: Seq<Seq<char>>) -> Option<i64>
    decreases vals.len(),
{
    if vals.len() == 0 {
        None
    } else {
        let rest = latest_utc(vals.drop_last());
        match (rest, parse_utc_spec(vals.last())) {
            (Some(a), Some(b)) => Some(if b >= a { b } else { a }),
            (None, c) => c,
            (a, None) => a,
        }
    }
}

/// The latest readable timestamp is the newest: when any value reads as
/// a timestamp, the result is one of them and no readable one is later,
/// whatever their order; when none does, there is none.
pub proof fn lemma_latest_is_newest(vals: Seq<Seq<char>>)
    ensures
        latest_utc(vals) is None <==> forall|i: int|
            0 <= i < vals.len() ==> parse_utc_spec(#[trigger] vals[i]) is None,
        latest_utc(vals) is Some ==> exists|i: int|
            0 <= i < vals.len() && parse_utc_spec(#[trigger] vals[i]) == latest_utc(vals),
        latest_utc(vals) is Some ==> forall|i: int|
            0 <= i < vals.len() && parse_utc_spec(#[trigger] vals[i]) is Some ==> parse_utc_spec(
                vals[i],
            )->0 <= latest_utc(vals)->0,
    decreases vals.len(),
{
    if vals.len() > 0 {
        let pre = vals.drop_last();
        let n = vals.len() - 1;
        lemma_latest_is_newest(pre);
        assert(vals[n] == vals.last());
        assert forall|i: int| 0 <= i < n implies #[trigger] vals[i] == pre[i] by {}
        let rest = latest_utc(pre);
        if rest is Some {
            let w = choose|i: int| 0 <= i < pre.len() && parse_utc_spec(#[trigger] pre[i]) == rest;
            assert(vals[w] == pre[w]);
        }
        if parse_utc_spec(vals.last()) is None && rest is None {
            assert forall|i: int| 0 <= i < vals.len() implies parse_utc_spec(#[trigger] vals[i]) is None by {
                if i < n {
                    assert(vals[i] == pre[i]);
                }
            }
        }
        if latest_utc(vals) is Some {
            assert forall|i: int|
                0 <= i < vals.len() && parse_utc_spec(#[trigger] vals[i]) is Some implies parse_utc_spec(
                vals[i],
            )->0 <= latest_utc(vals)->0 by {
                if i < n {
                    assert(vals[i] == pre[i]);
                }
            }
        }
    }
}

proof fn lemma_scan_is_newest(values: Seq<String>)
    ensures
        latest_utc(texts(values)) is None <==> forall|i: int|
            0 <= i < values.len() ==> parse_utc_spec(#[trigger] values[i]@) is None,
        latest_utc(texts(values)) is Some ==> exists|i: int|
            0 <= i < values.len() && parse_utc_spec(#[trigger] values[i]@) == latest_utc(texts(values)),
        latest_utc(texts(values)) is Some ==> forall|i: int|
            0 <= i < values.len() && parse_utc_spec(#[trigger] values[i]@) is Some ==> parse_utc_spec(
                values[i]@,
            )->0 <= latest_utc(texts(values))->0,
{
    let t = texts(values);
    lemma_latest_is_newest(t);
    assert forall|i: int| 0 <= i < values.len() implies #[trigger] t[i] == values[i]@ by {}
    if latest_utc(t) is Some {
        let w = choose|i: int| 0 <= i < t.len() && parse_utc_spec(#[trigger] t[i]) == latest_utc(t);
        assert(t[w] == values[w]@);
    }
    if latest_utc(t) is None {
        assert forall|i: int| 0 <= i < values.len() implies parse_utc_spec(#[trigger] values[i]@) is None by {
            assert(t[i] == values[i]@);
        }
    } else {
        assert forall|i: int|
            0 <= i < values.len() && parse_utc_spec(#[trigger] values[i]@) is Some implies parse_utc_spec(
            values[i]@,
        )->0 <= latest_utc(t)->0 by {
            assert(t[i] == values[i]@);
        }
    }
}

/// The strings of a list of values.
pub open spec fn texts(v: Seq<String>) -> Seq<Seq<char>> {
    v.map_values(|s: String| s@)
}

/// All values hold timestamps whose sums fit.
pub open spec fn all_utc_fit(v: Seq<String>) -> bool {
    forall|i: int| 0 <= i < v.len() ==> utc_fits(#[trigger] v[i]@)
}

/// The newest time of a last online scan, over all categories.
///
/// The `Auto Update\Results` key is missing on newer builds; the scan
/// times per category and GUID remain, and the newest of them is what
/// the user knows as "last checked".
pub fn last_online_scan(values: &[String]) -> (r: Option<i64>)
    requires
        all_utc_fit(values@),
    ensures
        r == latest_utc(texts(values@)),
        r is None <==> forall|i: int| 0 <= i < values@.len() ==> parse_utc_spec(#[trigger] values@[i]@) is None,
        r is Some ==> exists|i: int| 0 <= i < values@.len() && parse_utc_spec(#[trigger] values@[i]@) == r,
        r is Some ==> forall|i: int|
            0 <= i < values@.len() && parse_utc_spec(#[trigger] values@[i]@) is Some ==> parse_utc_spec(
                values@[i]@,
            )->0 <= r->0,
{
    proof {
        lemma_scan_is_newest(values@);
    }
    let mut best: Option<i64> = None;
    let mut i: usize = 0;
    while i < values.len()
        invariant
            i <= values.len(),
            all_utc_fit(values@),
            best == latest_utc(texts(values@.take(i as int))),
        decreases values.len() - i,
    {
        let cur = parse_utc(values[i].as_str());
        proof {
            let t = texts(values@.take(i as int + 1));
            assert(t.drop_last() =~= texts(values@.take(i as int)));
            assert(t.last() == values@[i as int]@);
        }
        best = match (best, cur) {
            (Some(a), Some(b)) => Some(if b >= a { b } else { a }),
            (None, c) => c,
            (a, None) => a,
        };
        i = i + 1;
    }
    assert(values@.take(values@.len() as int) =~= values@);
    best
}

/// The system's name: the registry still says "Windows 10" on
/// Windows 11, so build 22000 and later gets the right number.
pub open spec fn product_name_spec(build: u32, raw: Option<Seq<char>>) -> Seq<char> {
    let name = match raw {
        Some(r) => if r.len() == 0 {
            "Windows"@
        } else {
            r
        },
        None => "Windows"@,
    };
    if build >= 22000 && occurs_from(name, "Windows 10"@, 0) {
        replace_spec(name, "Windows 10"@, "Windows 11"@)
    } else {
        name
    }
}

/// The product name corrected by the build number; an empty or missing
/// `ProductName` reads as "Windows", so the name is never empty.
pub fn product_name(build: u32, raw: &Option<String>) -> (r: String)
    ensures
        r@ == product_name_spec(build, opt_view(*raw)),
        r@.len() > 0,
{
    let name = match raw {
        Some(r) => {
            let cs = chars_of(r.as_str());
            if cs.len() == 0 {
                chars_of("Windows")
            } else {
                cs
            }
        },
        None => chars_of("Windows"),
    };
    let old = chars_of("Windows 10");
    let new = chars_of("Windows 11");
    proof {
        reveal_strlit("Windows");
        reveal_strlit("Windows 10");
        reveal_strlit("Windows 11");
        assert(name@.len() > 0);
        if name@.len() > 0 && old@.len() > 0 {
            if crate::text::occurs_at(name@, old@, 0) {
                assert(replace_spec(name@, old@, new@).len() >= new@.len());
            } else {
                assert(replace_spec(name@, old@, new@).len() >= 1);
            }
        }
    }
    if build >= 22000 && contains(&name, &old) {
        return string_from(&replace_chars(&name, &old, &new));
    }
    string_from(&name)
}

/// The architecture the `PROCESSOR_ARCHITECTURE` variable names, in
/// the words users know; other values pass through, a missing one is
/// empty.
pub open spec fn arch_spec(env: Option<Seq<char>>) -> Seq<char> {
    match env {
        Some(v) => if v == "AMD64"@ {
            "x64"@
        } else if v == "ARM64"@ {
            "ARM64"@
        } else if v == "x86"@ {
            "x86"@
        } else {
            v
        },
        None => Seq::empty(),
    }
}

/// The machine architecture from the process environment — the service
/// runs natively, so this is the machine's.
pub fn arch(env: &Option<String>) -> (r: String)
    ensures
        r@ == arch_spec(opt_view(*env)),
{
    match env {
        Some(v) => {
            let cs = chars_of(v.as_str());
            let amd = chars_of("AMD64");
            let arm = chars_of("ARM64");
            let x86 = chars_of("x86");
            if crate::text::chars_eq(&cs, &amd) {
                string_from(&chars_of("x64"))
            } else if crate::text::chars_eq(&cs, &arm) {
                string_from(&arm)
            } else if crate::text::chars_eq(&cs, &x86) {
                string_from(&x86)
            } else {
                string_from(&cs)
            }
        },
        None => String::new(),
    }
}

/// The inputs on which reading them adds no sum that leaves `i64`.
pub open spec fn os_registry_ok(raw: OsRegistry) -> bool {
    &&& opt_utc_fits(raw.wu_detect)
    &&& opt_utc_fits(raw.wu_install)
    &&& wu_time_spec(raw.wu_detect) is None ==> all_utc_fit(raw.online_scan_times@)
}

/// The version and update state the registry values describe.
pub open spec fn os_info_spec(raw: OsRegistry) -> OsInfoView {
    let build = match raw.current_build {
        Some(b) => match parse_u32_spec(b@) {
            Some(n) => n,
            None => 0u32,
        },
        None => 0u32,
    };
    OsInfoView {
        product: product_name_spec(build, opt_view(raw.product_name)),
        display_version: match raw.display_version {
            Some(v) => Some(v@),
            None => opt_view(raw.release_id),
        },
        build,
        ubr: match raw.ubr {
            Some(v) => v as u32,
            None => 0u32,
        },
        install_ts: match raw.install_date {
            Some(v) => Some(v as i64),
            None => None,
        },
        arch: arch_spec(opt_view(raw.processor_architecture)),
        update_last_search: match wu_time_spec(raw.wu_detect) {
            Some(t) => Some(t),
            None => latest_utc(texts(raw.online_scan_times@)),
        },
        update_last_install: wu_time_spec(raw.wu_install),
        update_service_start: match raw.wu_start {
            Some(v) => Some(v as u32),
            None => None,
        },
        update_disabled_by_policy: match raw.no_auto_update {
            Some(v) => v != 0,
            None => false,
        },
    }
}

/// Whether `os_info` can read these values (no timestamp sum overflows).
pub fn os_registry_readable(raw: &OsRegistry) -> (b: bool)
    ensures
        b == os_registry_ok(*raw),
{
    let d = match &raw.wu_detect {
        Some(s) => utc_sum_fits(s.as_str()),
        None => true,
    };
    let i = match &raw.wu_install {
        Some(s) => utc_sum_fits(s.as_str()),
        None => true,
    };
    if !d || !i {
        return false;
    }
    if wu_time(&raw.wu_detect).is_some() {
        return true;
    }
    let mut k: usize = 0;
    while k < raw.online_scan_times.len()
        invariant
            k <= raw.online_scan_times@.len(),
            forall|j: int| 0 <= j < k ==> utc_fits(#[trigger] raw.online_scan_times@[j]@),
            opt_utc_fits(raw.wu_detect),
            opt_utc_fits(raw.wu_install),
            wu_time_spec(raw.wu_detect) is None,
        decreases raw.online_scan_times.len() - k,
    {
        if !utc_sum_fits(raw.online_scan_times[k].as_str()) {
            assert(!utc_fits(raw.online_scan_times@[k as int]@));
            assert(!all_utc_fit(raw.online_scan_times@));
            return false;
        }
        k = k + 1;
    }
    true
}

/// Assembles the version and update state from the registry values.
pub fn os_info(raw: &OsRegistry) -> (r: OsInfo)
    requires
        os_registry_ok(*raw),
    ensures
        r@ == os_info_spec(*raw),
        r.product@.len() > 0,
{
    let build = match &raw.current_build {
        Some(b) => match parse_u32(&chars_of(b.as_str())) {
            Some(n) => n,
            None => 0u32,
        },
        None => 0u32,
    };
    let display_version = match &raw.display_version {
        Some(v) => Some(v.clone()),
        None => match &raw.release_id {
            Some(v) => Some(v.clone()),
            None => None,
        },
    };
    let update_last_search = match wu_time(&raw.wu_detect) {
        Some(t) => Some(t),
        None => last_online_scan(raw.online_scan_times.as_slice()),
    };
    OsInfo {
        product: product_name(build, &raw.product_name),
        display_version,
        build,
        ubr: match raw.ubr {
            Some(v) => v as u32,
            None => 0u32,
        },
        install_ts: match raw.install_date {
            Some(v) => Some(v as i64),
            None => None,
        },
        arch: arch(&raw.processor_architecture),
        update_last_search,
        update_last_install: wu_time(&raw.wu_install),
        update_service_start: match raw.wu_start {
            Some(v) => Some(v as u32),
            None => None,
        },
        update_disabled_by_policy: match raw.no_auto_update {
            Some(v) => v != 0,
            None => false,
        },
    }
}


/// The character of the decimal digit `d`.
pub open spec fn digit_char(d: int) -> char {
    (d + 48) as char
}

/// `n` written with two digits, zero-padded (`{:02}`).
pub open spec fn dec2(n: int) -> Seq<char> {
    seq![digit_char(n / 10), digit_char(n % 10)]
}

/// `n` written with four digits, zero-padded (`{:04}`).
pub open spec fn dec4(n: int) -> Seq<char> {
    seq![digit_char(n / 1000), digit_char(n / 100 % 10), digit_char(n / 10 % 10), digit_char(n % 10)]
}

proof fn lemma_digit_char(d: int)
    requires
        0 <= d <= 9,
    ensures
        crate::text::is_digit(digit_char(d)),
        crate::text::digit_val(digit_char(d)) == d,
        !crate::text::is_ws(digit_char(d)),
        digit_char(d) != '-' && digit_char(d) != '+' && digit_char(d) != ':' && digit_char(d) != ' ',
{
}

proof fn lemma_dec2(n: int)
    requires
        0 <= n <= 99,
    ensures
        parse_i64_spec(dec2(n)) == Some(n as i64),
{
    let s = dec2(n);
    lemma_digit_char(n / 10);
    lemma_digit_char(n % 10);
    assert(crate::text::all_digits(s));
    assert(s.drop_last().drop_last().len() == 0);
    reveal_with_fuel(crate::text::digits_value, 3);
}

proof fn lemma_dec4(n: int)
    requires
        0 <= n <= 9999,
    ensures
        parse_i64_spec(dec4(n)) == Some(n as i64),
{
    let s = dec4(n);
    lemma_digit_char(n / 1000);
    lemma_digit_char(n / 100 % 10);
    lemma_digit_char(n / 10 % 10);
    lemma_digit_char(n % 10);
    assert(crate::text::all_digits(s));
    assert(s.drop_last().drop_last().drop_last().drop_last().len() == 0);
    reveal_with_fuel(crate::text::digits_value, 5);
}

/// The first `c` in `s` is at `i`.
proof fn lemma_find_char(s: Seq<char>, c: char, i: int)
    requires
        0 <= i < s.len(),
        s[i] == c,
        forall|j: int| 0 <= j < i ==> s[j] != c,
    ensures
        crate::text::find_spec(s, seq![c], 0) == Some(i),
{
    crate::text::lemma_find_spec(s, seq![c], 0);
    assert(s.subrange(i, i + 1) =~= seq![c]);
    assert(crate::text::occurs_at(s, seq![c], i));
    match crate::text::find_spec(s, seq![c], 0) {
        Some(k) => {
            assert(s.subrange(k, k + 1)[0] == s[k]);
            if k > i {
                assert(!crate::text::occurs_at(s, seq![c], i));
            }
        },
        None => {
            assert(crate::text::occurs_from(s, seq![c], 0));
        },
    }
}

/// `s` holds no `c`.
proof fn lemma_no_char(s: Seq<char>, c: char)
    requires
        forall|j: int| 0 <= j < s.len() ==> s[j] != c,
    ensures
        crate::text::find_spec(s, seq![c], 0) is None,
{
    crate::text::lemma_find_spec(s, seq![c], 0);
    match crate::text::find_spec(s, seq![c], 0) {
        Some(k) => {
            assert(s.subrange(k, k + 1)[0] == s[k]);
        },
        None => {},
    }
}

/// The three pieces of `a<sep>b<sep>c`, none of which holds `sep`.
proof fn lemma_three_pieces(a: Seq<char>, b: Seq<char>, c: Seq<char>, sep: char)
    requires
        forall|j: int| 0 <= j < a.len() ==> a[j] != sep,
        forall|j: int| 0 <= j < b.len() ==> b[j] != sep,
        forall|j: int| 0 <= j < c.len() ==> c[j] != sep,
    ensures
        piece_at(a + seq![sep] + b + seq![sep] + c, sep, 0) == Some(a),
        piece_at(a + seq![sep] + b + seq![sep] + c, sep, 1) == Some(b),
        piece_at(a + seq![sep] + b + seq![sep] + c, sep, 2) == Some(c),
{
    let s = a + seq![sep] + b + seq![sep] + c;
    let t = b + seq![sep] + c;
    assert(s[a.len() as int] == sep);
    assert forall|j: int| 0 <= j < a.len() implies s[j] != sep by {
        assert(s[j] == a[j]);
    }
    lemma_find_char(s, sep, a.len() as int);
    assert(s.take(a.len() as int) =~= a);
    assert(s.skip(a.len() as int + 1) =~= t);
    assert(t[b.len() as int] == sep);
    assert forall|j: int| 0 <= j < b.len() implies t[j] != sep by {
        assert(t[j] == b[j]);
    }
    lemma_find_char(t, sep, b.len() as int);
    assert(t.take(b.len() as int) =~= b);
    assert(t.skip(b.len() as int + 1) =~= c);
    lemma_no_char(c, sep);
    reveal_with_fuel(piece_at, 3);
}

/// A registry UTC timestamp, `YYYY-MM-DD HH:MM:SS`.
pub open spec fn utc_text(y: int, mo: int, d: int, h: int, mi: int, se: int) -> Seq<char> {
    dec4(y) + seq!['-'] + dec2(mo) + seq!['-'] + dec2(d) + seq![' '] + (dec2(h) + seq![':'] + dec2(
        mi,
    ) + seq![':'] + dec2(se))
}

/// An event-log time, `YYYY-MM-DDTHH:MM:SS.0000000Z`.
pub open spec fn iso_text(y: int, mo: int, d: int, h: int, mi: int, se: int) -> Seq<char> {
    dec4(y) + seq!['-'] + dec2(mo) + seq!['-'] + dec2(d) + seq!['T'] + dec2(h) + seq![':'] + dec2(mi)
        + seq![':'] + dec2(se) + seq!['.', '0', '0', '0', '0', '0', '0', '0', 'Z']
}

/// The decimal fields of a time read back from its event-log bytes.
proof fn lemma_iso_field(a: Seq<char>, at: int, f: Seq<char>)
    requires
        vstd::utf8::is_ascii_chars(a),
        0 <= at,
        at + f.len() <= a.len(),
        a.subrange(at, at + f.len()) == f,
    ensures
        crate::evtlog::field(vstd::utf8::encode_utf8(a), at, at + f.len()) == parse_i64_spec(f),
{
    let b = vstd::utf8::encode_utf8(a);
    vstd::utf8::is_ascii_chars_encode_utf8(a);
    let g = b.subrange(at, at + f.len()).map_values(|c: u8| c as char);
    assert forall|k: int| 0 <= k < f.len() implies g[k] == f[k] by {
        assert(f[k] == a[at + k]);
        assert(b[at + k] == a[at + k] as u8);
        assert('\0' <= a[at + k] <= '\u{7f}');
    }
    assert(g =~= f);
}

/// A time reads the same from the event log and from the registry: for
/// the years 1970 to 3000, any month and day of month, and any
/// two-digit hour, minute and second, the event-log form
/// `YYYY-MM-DDTHH:MM:SS.0000000Z` (read by `iso_to_unix`) and the
/// registry form `YYYY-MM-DD HH:MM:SS` (read by `parse_utc`) of one date
/// and time give the same unix seconds.
pub proof fn lemma_iso_matches_utc(y: int, mo: int, d: int, h: int, mi: int, se: int)
    requires
        1970 <= y <= 3000,
        1 <= mo <= 12,
        1 <= d <= 31,
        0 <= h <= 99,
        0 <= mi <= 99,
        0 <= se <= 99,
    ensures
        Some(
            crate::evtlog::iso_spec(vstd::utf8::encode_utf8(iso_text(y, mo, d, h, mi, se))),
        ) == parse_utc_spec(utc_text(y, mo, d, h, mi, se)),
{
    lemma_digit_char(y / 1000);
    lemma_digit_char(y / 100 % 10);
    lemma_digit_char(y / 10 % 10);
    lemma_digit_char(y % 10);
    lemma_digit_char(mo / 10);
    lemma_digit_char(mo % 10);
    lemma_digit_char(d / 10);
    lemma_digit_char(d % 10);
    lemma_digit_char(h / 10);
    lemma_digit_char(h % 10);
    lemma_digit_char(mi / 10);
    lemma_digit_char(mi % 10);
    lemma_digit_char(se / 10);
    lemma_digit_char(se % 10);
    lemma_dec4(y);
    lemma_dec2(mo);
    lemma_dec2(d);
    lemma_dec2(h);
    lemma_dec2(mi);
    lemma_dec2(se);
    // The registry form.
    let u = utc_text(y, mo, d, h, mi, se);
    let date = dec4(y) + seq!['-'] + dec2(mo) + seq!['-'] + dec2(d);
    let time = dec2(h) + seq![':'] + dec2(mi) + seq![':'] + dec2(se);
    assert(u == date + seq![' '] + time);
    assert(trim_spec(u) == u) by {
        assert(!crate::text::is_ws(u[0]));
        assert(!crate::text::is_ws(u.last()));
        assert(crate::text::strip_start(u, |c: char| crate::text::is_ws(c)) == u);
    }
    assert forall|j: int| 0 <= j < 10 implies u[j] != ' ' by {
        assert(u[j] == date[j]);
    }
    lemma_find_char(u, ' ', 10);
    assert(u.take(10) =~= date);
    assert(u.skip(11) =~= time);
    lemma_three_pieces(dec4(y), dec2(mo), dec2(d), '-');
    lemma_three_pieces(dec2(h), dec2(mi), dec2(se), ':');
    assert(utc_fields(u) == Some((y as i64, mo as i64, d as i64, h as i64, mi as i64, se as i64)));
    // The event-log form.
    let a = iso_text(y, mo, d, h, mi, se);
    assert(vstd::utf8::is_ascii_chars(a));
    assert(a.subrange(0, 4) =~= dec4(y));
    assert(a.subrange(5, 7) =~= dec2(mo));
    assert(a.subrange(8, 10) =~= dec2(d));
    assert(a.subrange(11, 13) =~= dec2(h));
    assert(a.subrange(14, 16) =~= dec2(mi));
    assert(a.subrange(17, 19) =~= dec2(se));
    lemma_iso_field(a, 0, dec4(y));
    lemma_iso_field(a, 5, dec2(mo));
    lemma_iso_field(a, 8, dec2(d));
    lemma_iso_field(a, 11, dec2(h));
    lemma_iso_field(a, 14, dec2(mi));
    lemma_iso_field(a, 17, dec2(se));
}

} // verus!
