//! App permissions from the CapabilityAccessManager consent store — who
//! may use the camera, the microphone, the location… and who uses it
//! right now.
//!
//! Source: `...\CapabilityAccessManager\ConsentStore\<capability>` in each
//! real user's hive — packaged apps as PackageFamilyName subkeys, classic
//! ones under `NonPackaged\<path with # for \>`. `LastUsedTimeStop == 0`
//! with a non-zero start means "in use right now" (what drives the dot by
//! the camera in Windows).
//!
//! The service runs as SYSTEM, so HKCU is SYSTEM's hive — the consents of
//! real users are read from HKU\<SID>. The registry keys are read
//! elsewhere and handed in; this module decides what they say.
//!
//! Enforcement: for packaged apps Windows enforces Deny through the
//! broker; for Win32 apps it is only a declaration that can be bypassed.
//! `packaged` carries that on — the UI must never show a hard lock where
//! there is none.

use vstd::prelude::*;

use crate::text::{
    chars_eq, chars_of, ends_with, occurs_at, replace_chars, replace_spec, starts_with,
    string_from,
};

verus! {

/// One permission record: app × capability.
#[derive(Debug, Clone, Default, PartialEq, Eq)]
pub struct Consent {
    /// webcam | microphone | location | …
    pub capability: String,
    /// PackageFamilyName, or the path of the .exe for classic apps.
    pub app: String,
    /// Packaged (MSIX/UWP) app? Only for these Windows ENFORCES Deny.
    pub packaged: bool,
    /// "Allow" | "Deny" (other values are skipped).
    pub allow: bool,
    /// In use right now (stop == 0 and start != 0).
    pub in_use: bool,
    /// End of the last use (unix), when known.
    pub last_used: Option<i64>,
    /// Start of the last use (unix). With the end it gives how long the
    /// app really held the camera or microphone.
    pub last_start: Option<i64>,
}

/// A per-exe key under `NonPackaged`: its name (the path with `#` for
/// `\`), its `Value` and its usage times, as read.
#[derive(Debug, Clone, Default)]
pub struct ConsentLeaf {
    pub name: String,
    pub value: Option<String>,
    pub start: Option<u64>,
    pub stop: Option<u64>,
}

/// A key directly under a capability: a package family, or `NonPackaged`
/// with its per-exe keys in `children`.
#[derive(Debug, Clone, Default)]
pub struct ConsentEntry {
    pub name: String,
    pub value: Option<String>,
    pub start: Option<u64>,
    pub stop: Option<u64>,
    pub children: Vec<ConsentLeaf>,
}

/// The consent store of one user hive: for each capability of
/// `capabilities()`, in that order, the keys under it in registry order
/// (empty where the capability key is missing).
#[derive(Debug, Clone, Default)]
pub struct UserConsentHive {
    pub sid: String,
    pub capabilities: Vec<Vec<ConsentEntry>>,
}

/// `Consent` as mathematical values.
pub struct ConsentView {
    pub capability: Seq<char>,
    pub app: Seq<char>,
    pub packaged: bool,
    pub allow: bool,
    pub in_use: bool,
    pub last_used: Option<i64>,
    pub last_start: Option<i64>,
}

impl View for Consent {
    type V = ConsentView;

    open spec fn view(&self) -> ConsentView {
        ConsentView {
            capability: self.capability@,
            app: self.app@,
            packaged: self.packaged,
            allow: self.allow,
            in_use: self.in_use,
            last_used: self.last_used,
            last_start: self.last_start,
        }
    }
}

/// The number of capabilities that matter to the user.
pub const CAPABILITY_COUNT: usize = 14;

/// The capabilities that matter to the user, in the order they are read.
/// The other consent-store keys are low-level noise.
pub open spec fn capability_names() -> Seq<Seq<char>> {
    seq![
        "webcam"@,
        "microphone"@,
        "location"@,
        "contacts"@,
        "appointments"@,
        "email"@,
        "phoneCall"@,
        "documentsLibrary"@,
        "picturesLibrary"@,
        "videosLibrary"@,
        "musicLibrary"@,
        "downloadsFolder"@,
        "broadFileSystemAccess"@,
        "screenCapture"@,
    ]
}

/// The capabilities that matter to the user, in the order they are read.
pub fn capabilities() -> (r: Vec<&'static str>)
    ensures
        r@.len() == CAPABILITY_COUNT,
        forall|i: int| 0 <= i < r@.len() ==> (#[trigger] r@[i])@ == capability_names()[i],
{
    let r: Vec<&'static str> = vec![
        "webcam",
        "microphone",
        "location",
        "contacts",
        "appointments",
        "email",
        "phoneCall",
        "documentsLibrary",
        "picturesLibrary",
        "videosLibrary",
        "musicLibrary",
        "downloadsFolder",
        "broadFileSystemAccess",
        "screenCapture",
    ];
    proof {
        assert(r@[0]@ == "webcam"@);
        assert(r@[13]@ == "screenCapture"@);
    }
    r
}

/// FILETIME (100 ns since 1601) to unix seconds; 0 means "never".
pub open spec fn filetime_unix_spec(ft: u64) -> Option<i64> {
    if ft == 0 {
        None
    } else {
        Some((ft / 10_000_000 - 11_644_473_600) as i64)
    }
}

/// FILETIME (100 ns since 1601) to unix seconds.
pub fn filetime_to_unix(ft: u64) -> (r: Option<i64>)
    ensures
        r == filetime_unix_spec(ft),
        r is Some ==> r->0 == ft / 10_000_000 - 11_644_473_600,
{
    if ft == 0 {
        return None;
    }
    Some((ft / 10_000_000) as i64 - 11_644_473_600)
}

/// What a `Value` of `Allow`/`Deny` says; anything else defers to the
/// inherited permission, and without one the record is skipped.
pub open spec fn allow_spec(value: Option<Seq<char>>, inherited: Option<bool>) -> Option<bool> {
    if value == Some("Allow"@) {
        Some(true)
    } else if value == Some("Deny"@) {
        Some(false)
    } else {
        inherited
    }
}

pub open spec fn opt_text(s: Option<String>) -> Option<Seq<char>> {
    match s {
        Some(v) => Some(v@),
        None => None,
    }
}

/// A usage time as read; a missing one counts as zero ("never").
pub open spec fn or_zero(t: Option<u64>) -> u64 {
    match t {
        Some(v) => v,
        None => 0u64,
    }
}

/// The record one consent key makes.
pub open spec fn read_entry_spec(
    value: Option<Seq<char>>,
    start: Option<u64>,
    stop: Option<u64>,
    capability: Seq<char>,
    app: Seq<char>,
    packaged: bool,
    inherited_allow: Option<bool>,
) -> Option<ConsentView> {
    let st = or_zero(start);
    let sp = or_zero(stop);
    match allow_spec(value, inherited_allow) {
        None => None,
        Some(allow) => Some(
            ConsentView {
                capability,
                app,
                packaged,
                allow,
                in_use: st != 0 && sp == 0,
                last_used: filetime_unix_spec(if sp >= st { sp } else { st }),
                last_start: filetime_unix_spec(st),
            },
        ),
    }
}

fn is_text(v: &Option<String>, lit: &str) -> (b: bool)
    ensures
        b == (opt_text(*v) == Some(lit@)),
{
    match v {
        Some(s) => chars_eq(&chars_of(s.as_str()), &chars_of(lit)),
        None => false,
    }
}

/// Reads one record. `inherited_allow` is the collective permission of
/// `NonPackaged` — per-exe keys usually carry no `Value` of their own.
pub fn read_entry(
    value: &Option<String>,
    start: Option<u64>,
    stop: Option<u64>,
    capability: &str,
    app: &str,
    packaged: bool,
    inherited_allow: Option<bool>,
) -> (r: Option<Consent>)
    ensures
        match r {
            Some(c) => read_entry_spec(
                opt_text(*value),
                start,
                stop,
                capability@,
                app@,
                packaged,
                inherited_allow,
            ) == Some(c@),
            None => read_entry_spec(
                opt_text(*value),
                start,
                stop,
                capability@,
                app@,
                packaged,
                inherited_allow,
            ) is None,
        },
        r is Some && r->0.in_use ==> r->0.last_used is Some,
{
    proof {
        reveal_strlit("Allow");
        reveal_strlit("Deny");
    }
    let allow = if is_text(value, "Allow") {
        true
    } else if is_text(value, "Deny") {
        false
    } else {
        match inherited_allow {
            Some(a) => a,
            None => return None,
        }
    };
    let st = match start {
        Some(v) => v,
        None => 0u64,
    };
    let sp = match stop {
        Some(v) => v,
        None => 0u64,
    };
    Some(
        Consent {
            capability: string_from(&chars_of(capability)),
            app: string_from(&chars_of(app)),
            packaged,
            allow,
            in_use: st != 0 && sp == 0,
            last_used: filetime_to_unix(if sp >= st { sp } else { st }),
            last_start: filetime_to_unix(st),
        },
    )
}

/// The records of an optional one.
pub open spec fn opt_seq(c: Option<ConsentView>) -> Seq<ConsentView> {
    match c {
        Some(v) => seq![v],
        None => Seq::empty(),
    }
}

/// The collective permission of classic apps under `NonPackaged\Value`:
/// `Allow` allows, any other value denies, none allows.
pub open spec fn np_allow_spec(value: Option<Seq<char>>) -> bool {
    match value {
        Some(v) => v == "Allow"@,
        None => true,
    }
}

/// The path a `NonPackaged` key name stands for (`#` back to `\`).
pub open spec fn exe_path(name: Seq<char>) -> Seq<char> {
    replace_spec(name, seq!['#'], seq!['\\'])
}

/// The records of the per-exe keys under `NonPackaged`.
pub open spec fn leaf_consents(cap: Seq<char>, leaves: Seq<ConsentLeaf>, allow: bool) -> Seq<
    ConsentView,
>
    decreases leaves.len(),
{
    if leaves.len() == 0 {
        Seq::empty()
    } else {
        let l = leaves.last();
        leaf_consents(cap, leaves.drop_last(), allow) + opt_seq(
            read_entry_spec(
                opt_text(l.value),
                l.start,
                l.stop,
                cap,
                exe_path(l.name@),
                false,
                Some(allow),
            ),
        )
    }
}

/// The records one key under a capability makes.
pub open spec fn entry_consents(cap: Seq<char>, e: ConsentEntry) -> Seq<ConsentView> {
    if e.name@ == "NonPackaged"@ {
        leaf_consents(cap, e.children@, np_allow_spec(opt_text(e.value)))
    } else {
        opt_seq(read_entry_spec(opt_text(e.value), e.start, e.stop, cap, e.name@, true, None))
    }
}

/// The records of the keys under one capability.
pub open spec fn cap_consents(cap: Seq<char>, entries: Seq<ConsentEntry>) -> Seq<ConsentView>
    decreases entries.len(),
{
    if entries.len() == 0 {
        Seq::empty()
    } else {
        cap_consents(cap, entries.drop_last()) + entry_consents(cap, entries.last())
    }
}

/// The records of the first `k` capabilities of a hive.
pub open spec fn hive_consents(caps: Seq<Vec<ConsentEntry>>, k: nat) -> Seq<ConsentView>
    decreases k,
{
    if k == 0 {
        Seq::empty()
    } else {
        hive_consents(caps, (k - 1) as nat) + cap_consents(
            capability_names()[k - 1],
            caps[k - 1]@,
        )
    }
}

/// The hive of a real user: `S-1-5-21-…`, not its `_Classes` companion.
pub open spec fn is_user_hive(sid: Seq<char>) -> bool {
    &&& occurs_at(sid, "S-1-5-21"@, 0)
    &&& !("_Classes"@.len() <= sid.len() && occurs_at(sid, "_Classes"@, sid.len() - "_Classes"@.len()))
}

/// All records of the real users' hives, hive by hive.
pub open spec fn consents_spec(hives: Seq<UserConsentHive>) -> Seq<ConsentView>
    decreases hives.len(),
{
    if hives.len() == 0 {
        Seq::empty()
    } else {
        let h = hives.last();
        consents_spec(hives.drop_last()) + if is_user_hive(h.sid@) {
            hive_consents(h.capabilities@, CAPABILITY_COUNT as nat)
        } else {
            Seq::empty()
        }
    }
}

/// Every hive holds one key list per capability.
pub open spec fn hives_well_formed(hives: Seq<UserConsentHive>) -> bool {
    forall|i: int| 0 <= i < hives.len() ==> (#[trigger] hives[i]).capabilities@.len() == CAPABILITY_COUNT
}

pub open spec fn views(v: Seq<Consent>) -> Seq<ConsentView> {
    v.map_values(|c: Consent| c@)
}

fn push_opt(out: &mut Vec<Consent>, c: Option<Consent>)
    ensures
        views(final(out)@) == views(old(out)@) + opt_seq(
            match c {
                Some(v) => Some(v@),
                None => None,
            },
        ),
{
    match c {
        Some(v) => {
            out.push(v);
            assert(views(out@) =~= views(old(out)@) + seq![v@]);
        },
        None => {
            assert(views(out@) =~= views(old(out)@) + Seq::<ConsentView>::empty());
        },
    }
}

fn read_leaves(out: &mut Vec<Consent>, cap: &str, leaves: &[ConsentLeaf], allow: bool)
    ensures
        views(final(out)@) == views(old(out)@) + leaf_consents(cap@, leaves@, allow),
{
    let hash: Vec<char> = vec!['#'];
    let back: Vec<char> = vec!['\\'];
    let mut i: usize = 0;
    while i < leaves.len()
        invariant
            i <= leaves.len(),
            hash@ == seq!['#'],
            back@ == seq!['\\'],
            views(out@) == views(old(out)@) + leaf_consents(cap@, leaves@.take(i as int), allow),
        decreases leaves.len() - i,
    {
        let l = &leaves[i];
        let path = string_from(&replace_chars(&chars_of(l.name.as_str()), &hash, &back));
        let c = read_entry(&l.value, l.start, l.stop, cap, path.as_str(), false, Some(allow));
        push_opt(out, c);
        proof {
            assert(leaves@.take(i as int + 1).drop_last() =~= leaves@.take(i as int));
        }
        i = i + 1;
    }
    assert(leaves@.take(leaves@.len() as int) =~= leaves@);
}

fn read_capability(out: &mut Vec<Consent>, cap: &str, entries: &[ConsentEntry])
    ensures
        views(final(out)@) == views(old(out)@) + cap_consents(cap@, entries@),
{
    let np = chars_of("NonPackaged");
    proof {
        reveal_strlit("NonPackaged");
        reveal_strlit("Allow");
    }
    let mut i: usize = 0;
    while i < entries.len()
        invariant
            i <= entries.len(),
            np@ == "NonPackaged"@,
            views(out@) == views(old(out)@) + cap_consents(cap@, entries@.take(i as int)),
        decreases entries.len() - i,
    {
        let e = &entries[i];
        let ghost before = views(out@);
        if chars_eq(&chars_of(e.name.as_str()), &np) {
            let allow = match &e.value {
                Some(v) => chars_eq(&chars_of(v.as_str()), &chars_of("Allow")),
                None => true,
            };
            read_leaves(out, cap, e.children.as_slice(), allow);
        } else {
            let c = read_entry(&e.value, e.start, e.stop, cap, e.name.as_str(), true, None);
            push_opt(out, c);
        }
        proof {
            assert(views(out@) == before + entry_consents(cap@, entries@[i as int]));
            assert(entries@.take(i as int + 1).drop_last() =~= entries@.take(i as int));
        }
        i = i + 1;
    }
    assert(entries@.take(entries@.len() as int) =~= entries@);
}

/// Whether a HKU subkey is a real user's hive (`S-1-5-21-…`, not the
/// `_Classes` companion).
pub fn is_user_sid(sid: &str) -> (b: bool)
    ensures
        b == is_user_hive(sid@),
{
    let cs = chars_of(sid);
    let pre = chars_of("S-1-5-21");
    let suf = chars_of("_Classes");
    starts_with(&cs, &pre) && !ends_with(&cs, &suf)
}

/// The consents of all real users, hive by hive, capability by
/// capability, key by key in registry order.
pub fn consents(hives: &[UserConsentHive]) -> (r: Vec<Consent>)
    requires
        hives_well_formed(hives@),
    ensures
        views(r@) == consents_spec(hives@),
        forall|i: int| 0 <= i < r@.len() && (#[trigger] r@[i]).in_use ==> r@[i].last_used is Some,
        forall|i: int| 0 <= i < r@.len() ==> times_ok((#[trigger] r@[i])@),
{
    let caps = capabilities();
    let mut out: Vec<Consent> = Vec::new();
    let mut h: usize = 0;
    while h < hives.len()
        invariant
            h <= hives.len(),
            hives_well_formed(hives@),
            caps@.len() == CAPABILITY_COUNT,
            forall|i: int| 0 <= i < caps@.len() ==> (#[trigger] caps@[i])@ == capability_names()[i],
            views(out@) == consents_spec(hives@.take(h as int)),
        decreases hives.len() - h,
    {
        let hive = &hives[h];
        let ghost before = views(out@);
        if is_user_sid(hive.sid.as_str()) {
            let mut k: usize = 0;
            while k < CAPABILITY_COUNT
                invariant
                    k <= CAPABILITY_COUNT,
                    hive.capabilities@.len() == CAPABILITY_COUNT,
                    caps@.len() == CAPABILITY_COUNT,
                    forall|i: int| 0 <= i < caps@.len() ==> (#[trigger] caps@[i])@ == capability_names()[i],
                    views(out@) == before + hive_consents(hive.capabilities@, k as nat),
                decreases CAPABILITY_COUNT - k,
            {
                assert(caps@[k as int]@ == capability_names()[k as int]);
                read_capability(&mut out, caps[k], hive.capabilities[k].as_slice());
                k = k + 1;
            }
        }
        proof {
            assert(hives@.take(h as int + 1).drop_last() =~= hives@.take(h as int));
            assert(hives@[h as int].capabilities@.len() == CAPABILITY_COUNT);
        }
        h = h + 1;
    }
    assert(hives@.take(hives@.len() as int) =~= hives@);
    proof {
        lemma_consents_consistent(hives@);
        assert forall|i: int| 0 <= i < out@.len() implies times_ok((#[trigger] out@[i])@) by {
            assert(views(out@)[i] == out@[i]@);
        }
    }
    out
}

/// The times of a record agree: a record in use has started and not
/// ended, so its last use is its start; a record that has started has a
/// last use, no earlier than its start.
pub open spec fn times_ok(c: ConsentView) -> bool {
    &&& c.in_use ==> c.last_start is Some && c.last_used == c.last_start
    &&& c.last_start is Some ==> c.last_used is Some && c.last_start->0 <= c.last_used->0
}

/// Every record's times agree.
pub open spec fn consistent(s: Seq<ConsentView>) -> bool {
    forall|i: int| 0 <= i < s.len() ==> times_ok(#[trigger] s[i])
}

proof fn lemma_concat_consistent(a: Seq<ConsentView>, b: Seq<ConsentView>)
    requires
        consistent(a),
        consistent(b),
    ensures
        consistent(a + b),
{
    assert forall|i: int| 0 <= i < (a + b).len() implies times_ok(#[trigger] (a + b)[i]) by {
        if i < a.len() {
            assert((a + b)[i] == a[i]);
        } else {
            assert((a + b)[i] == b[i - a.len()]);
        }
    }
}

/// A later FILETIME is no earlier in unix seconds.
proof fn lemma_filetime_ordered(a: u64, b: u64)
    requires
        0 < a <= b,
    ensures
        filetime_unix_spec(a) is Some,
        filetime_unix_spec(b) is Some,
        filetime_unix_spec(a)->0 <= filetime_unix_spec(b)->0,
{
    vstd::arithmetic::div_mod::lemma_div_is_ordered(a as int, b as int, 10_000_000);
    assert(b / 10_000_000 <= 0xffff_ffff_ffff_ffffu64 / 10_000_000) by {
        vstd::arithmetic::div_mod::lemma_div_is_ordered(b as int, 0xffff_ffff_ffff_ffff, 10_000_000);
    }
}

/// The rules of one consent key. A record is made exactly when the
/// key's `Value` is `Allow` or `Deny` or a permission is inherited;
/// `Allow` allows, `Deny` denies, and any other value takes the
/// inherited permission. The record is in use exactly when its start is
/// non-zero and its stop is zero (a missing time counts as zero); its
/// last start is the start, its last use the later of start and stop;
/// and its times agree.
pub proof fn lemma_record_rules(
    value: Option<Seq<char>>,
    start: Option<u64>,
    stop: Option<u64>,
    capability: Seq<char>,
    app: Seq<char>,
    packaged: bool,
    inherited_allow: Option<bool>,
)
    ensures
        read_entry_spec(value, start, stop, capability, app, packaged, inherited_allow) is Some
            <==> (value == Some("Allow"@) || value == Some("Deny"@) || inherited_allow is Some),
        read_entry_spec(value, start, stop, capability, app, packaged, inherited_allow) matches Some(
            c,
        ) ==> {
            &&& c.capability == capability
            &&& c.app == app
            &&& c.packaged == packaged
            &&& c.allow == if value == Some("Allow"@) {
                true
            } else if value == Some("Deny"@) {
                false
            } else {
                inherited_allow->0
            }
            &&& c.in_use == (or_zero(start) != 0 && or_zero(stop) == 0)
            &&& c.last_start == filetime_unix_spec(or_zero(start))
            &&& c.last_used == filetime_unix_spec(
                if or_zero(stop) >= or_zero(start) {
                    or_zero(stop)
                } else {
                    or_zero(start)
                },
            )
            &&& times_ok(c)
        },
{
    let st = or_zero(start);
    let sp = or_zero(stop);
    let later = if sp >= st {
        sp
    } else {
        st
    };
    if st != 0 {
        lemma_filetime_ordered(st, later);
    }
}

proof fn lemma_entry_spec_consistent(
    value: Option<Seq<char>>,
    start: Option<u64>,
    stop: Option<u64>,
    capability: Seq<char>,
    app: Seq<char>,
    packaged: bool,
    inherited_allow: Option<bool>,
)
    ensures
        consistent(
            opt_seq(
                read_entry_spec(value, start, stop, capability, app, packaged, inherited_allow),
            ),
        ),
{
    lemma_record_rules(value, start, stop, capability, app, packaged, inherited_allow);
}

proof fn lemma_leaves_consistent(cap: Seq<char>, leaves: Seq<ConsentLeaf>, allow: bool)
    ensures
        consistent(leaf_consents(cap, leaves, allow)),
    decreases leaves.len(),
{
    if leaves.len() > 0 {
        let l = leaves.last();
        lemma_leaves_consistent(cap, leaves.drop_last(), allow);
        lemma_entry_spec_consistent(
            opt_text(l.value),
            l.start,
            l.stop,
            cap,
            exe_path(l.name@),
            false,
            Some(allow),
        );
        lemma_concat_consistent(
            leaf_consents(cap, leaves.drop_last(), allow),
            opt_seq(
                read_entry_spec(
                    opt_text(l.value),
                    l.start,
                    l.stop,
                    cap,
                    exe_path(l.name@),
                    false,
                    Some(allow),
                ),
            ),
        );
    }
}

proof fn lemma_cap_consistent(cap: Seq<char>, entries: Seq<ConsentEntry>)
    ensures
        consistent(cap_consents(cap, entries)),
    decreases entries.len(),
{
    if entries.len() > 0 {
        let e = entries.last();
        lemma_cap_consistent(cap, entries.drop_last());
        lemma_leaves_consistent(cap, e.children@, np_allow_spec(opt_text(e.value)));
        lemma_entry_spec_consistent(opt_text(e.value), e.start, e.stop, cap, e.name@, true, None);
        lemma_concat_consistent(cap_consents(cap, entries.drop_last()), entry_consents(cap, e));
    }
}

proof fn lemma_hive_consistent(caps: Seq<Vec<ConsentEntry>>, k: nat)
    ensures
        consistent(hive_consents(caps, k)),
    decreases k,
{
    if k > 0 {
        lemma_hive_consistent(caps, (k - 1) as nat);
        lemma_cap_consistent(capability_names()[k - 1], caps[k - 1]@);
        lemma_concat_consistent(
            hive_consents(caps, (k - 1) as nat),
            cap_consents(capability_names()[k - 1], caps[k - 1]@),
        );
    }
}

/// The times of every record agree: a record in use has a last use,
/// equal to its start, and a record that has started was last used no
/// earlier than it started.
pub proof fn lemma_consents_consistent(hives: Seq<UserConsentHive>)
    ensures
        consistent(consents_spec(hives)),
    decreases hives.len(),
{
    if hives.len() > 0 {
        let h = hives.last();
        lemma_consents_consistent(hives.drop_last());
        lemma_hive_consistent(h.capabilities@, CAPABILITY_COUNT as nat);
        let tail = if is_user_hive(h.sid@) {
            hive_consents(h.capabilities@, CAPABILITY_COUNT as nat)
        } else {
            Seq::empty()
        };
        lemma_concat_consistent(consents_spec(hives.drop_last()), tail);
    }
}

/// `c` is the record of one of the per-exe keys `leaves`, read with the
/// inherited permission `allow` and the path its name stands for.
pub open spec fn leaf_source(cap: Seq<char>, leaves: Seq<ConsentLeaf>, allow: bool, c: ConsentView) -> bool {
    exists|l: int|
        #![trigger leaves[l]]
        0 <= l < leaves.len() && read_entry_spec(
            opt_text(leaves[l].value),
            leaves[l].start,
            leaves[l].stop,
            cap,
            exe_path(leaves[l].name@),
            false,
            Some(allow),
        ) == Some(c)
}

/// `c` is a record that the key `e` under capability `cap` makes: a
/// per-exe key under it when it is `NonPackaged` (inheriting the
/// permission of `NonPackaged\Value`), else the packaged app `e` itself.
pub open spec fn entry_source(cap: Seq<char>, e: ConsentEntry, c: ConsentView) -> bool {
    if e.name@ == "NonPackaged"@ {
        leaf_source(cap, e.children@, np_allow_spec(opt_text(e.value)), c)
    } else {
        read_entry_spec(opt_text(e.value), e.start, e.stop, cap, e.name@, true, None) == Some(c)
    }
}

/// `c` is a record of one of the keys `entries` under capability `cap`.
pub open spec fn cap_source(cap: Seq<char>, entries: Seq<ConsentEntry>, c: ConsentView) -> bool {
    exists|j: int| #![trigger entries[j]] 0 <= j < entries.len() && entry_source(cap, entries[j], c)
}

/// `c` is a record under one of the first `k` listed capabilities.
pub open spec fn hive_source(caps: Seq<Vec<ConsentEntry>>, k: nat, c: ConsentView) -> bool {
    exists|m: int|
        #![trigger caps[m]]
        0 <= m < k && cap_source(capability_names()[m], caps[m]@, c)
}

/// `c` was read from a key of a real user's hive (SID `S-1-5-21-…`, not
/// `_Classes`), under one of the listed capabilities.
pub open spec fn consent_source(hives: Seq<UserConsentHive>, c: ConsentView) -> bool {
    exists|h: int|
        #![trigger hives[h]]
        0 <= h < hives.len() && is_user_hive(hives[h].sid@) && hive_source(
            hives[h].capabilities@,
            CAPABILITY_COUNT as nat,
            c,
        )
}

/// The capability is one of those listed.
pub open spec fn listed_capability(cap: Seq<char>) -> bool {
    exists|m: int| 0 <= m < CAPABILITY_COUNT && #[trigger] capability_names()[m] == cap
}

proof fn lemma_leaves_source(cap: Seq<char>, leaves: Seq<ConsentLeaf>, allow: bool)
    ensures
        forall|i: int|
            0 <= i < leaf_consents(cap, leaves, allow).len() ==> leaf_source(
                cap,
                leaves,
                allow,
                #[trigger] leaf_consents(cap, leaves, allow)[i],
            ),
    decreases leaves.len(),
{
    if leaves.len() > 0 {
        let pre = leaves.drop_last();
        let n = leaves.len() - 1;
        let l = leaves.last();
        lemma_leaves_source(cap, pre, allow);
        let a = leaf_consents(cap, pre, allow);
        let b = opt_seq(
            read_entry_spec(
                opt_text(l.value),
                l.start,
                l.stop,
                cap,
                exe_path(l.name@),
                false,
                Some(allow),
            ),
        );
        assert(leaf_consents(cap, leaves, allow) == a + b);
        assert forall|i: int| 0 <= i < (a + b).len() implies leaf_source(
            cap,
            leaves,
            allow,
            #[trigger] (a + b)[i],
        ) by {
            if i < a.len() {
                assert((a + b)[i] == a[i]);
                assert(leaf_source(cap, pre, allow, a[i]));
                let w = choose|w: int|
                    #![trigger pre[w]]
                    0 <= w < pre.len() && read_entry_spec(
                        opt_text(pre[w].value),
                        pre[w].start,
                        pre[w].stop,
                        cap,
                        exe_path(pre[w].name@),
                        false,
                        Some(allow),
                    ) == Some(a[i]);
                assert(pre[w] == leaves[w]);
            } else {
                assert((a + b)[i] == b[i - a.len()]);
                assert(leaves[n] == l);
            }
        }
    }
}

proof fn lemma_cap_source(cap: Seq<char>, entries: Seq<ConsentEntry>)
    ensures
        forall|i: int|
            0 <= i < cap_consents(cap, entries).len() ==> cap_source(
                cap,
                entries,
                #[trigger] cap_consents(cap, entries)[i],
            ),
    decreases entries.len(),
{
    if entries.len() > 0 {
        let pre = entries.drop_last();
        let n = entries.len() - 1;
        let e = entries.last();
        lemma_cap_source(cap, pre);
        lemma_leaves_source(cap, e.children@, np_allow_spec(opt_text(e.value)));
        let a = cap_consents(cap, pre);
        let b = entry_consents(cap, e);
        assert(cap_consents(cap, entries) == a + b);
        assert forall|i: int| 0 <= i < (a + b).len() implies cap_source(
            cap,
            entries,
            #[trigger] (a + b)[i],
        ) by {
            if i < a.len() {
                assert((a + b)[i] == a[i]);
                assert(cap_source(cap, pre, a[i]));
                let w = choose|w: int|
                    #![trigger pre[w]]
                    0 <= w < pre.len() && entry_source(cap, pre[w], a[i]);
                assert(pre[w] == entries[w]);
            } else {
                let x = (a + b)[i];
                assert(x == b[i - a.len()]);
                assert(entries[n] == e);
                assert(entry_source(cap, e, x));
            }
        }
    }
}

proof fn lemma_hive_source(caps: Seq<Vec<ConsentEntry>>, k: nat)
    ensures
        forall|i: int|
            0 <= i < hive_consents(caps, k).len() ==> hive_source(
                caps,
                k,
                #[trigger] hive_consents(caps, k)[i],
            ),
    decreases k,
{
    if k > 0 {
        let m = k - 1;
        lemma_hive_source(caps, m as nat);
        lemma_cap_source(capability_names()[m], caps[m]@);
        let a = hive_consents(caps, m as nat);
        let b = cap_consents(capability_names()[m], caps[m]@);
        assert(hive_consents(caps, k) == a + b);
        assert forall|i: int| 0 <= i < (a + b).len() implies hive_source(
            caps,
            k,
            #[trigger] (a + b)[i],
        ) by {
            if i < a.len() {
                assert((a + b)[i] == a[i]);
                assert(hive_source(caps, m as nat, a[i]));
                let w = choose|w: int|
                    #![trigger caps[w]]
                    0 <= w < m && cap_source(capability_names()[w], caps[w]@, a[i]);
                assert(cap_source(capability_names()[w], caps[w]@, a[i]));
            } else {
                assert((a + b)[i] == b[i - a.len()]);
                assert(cap_source(capability_names()[m], caps[m]@, (a + b)[i]));
            }
        }
    }
}

proof fn lemma_all_source(hives: Seq<UserConsentHive>)
    ensures
        forall|i: int|
            0 <= i < consents_spec(hives).len() ==> consent_source(
                hives,
                #[trigger] consents_spec(hives)[i],
            ),
    decreases hives.len(),
{
    if hives.len() > 0 {
        let pre = hives.drop_last();
        let n = hives.len() - 1;
        let h = hives.last();
        lemma_all_source(pre);
        lemma_hive_source(h.capabilities@, CAPABILITY_COUNT as nat);
        let a = consents_spec(pre);
        let b = if is_user_hive(h.sid@) {
            hive_consents(h.capabilities@, CAPABILITY_COUNT as nat)
        } else {
            Seq::empty()
        };
        assert(consents_spec(hives) == a + b);
        assert forall|i: int| 0 <= i < (a + b).len() implies consent_source(
            hives,
            #[trigger] (a + b)[i],
        ) by {
            if i < a.len() {
                assert((a + b)[i] == a[i]);
                assert(consent_source(pre, a[i]));
                let w = choose|w: int|
                    #![trigger pre[w]]
                    0 <= w < pre.len() && is_user_hive(pre[w].sid@) && hive_source(
                        pre[w].capabilities@,
                        CAPABILITY_COUNT as nat,
                        a[i],
                    );
                assert(pre[w] == hives[w]);
            } else {
                assert((a + b)[i] == b[i - a.len()]);
                assert(hives[n] == h);
            }
        }
    }
}

/// A record's capability is the one it was read under.
proof fn lemma_source_capability(hives: Seq<UserConsentHive>, c: ConsentView)
    requires
        consent_source(hives, c),
    ensures
        listed_capability(c.capability),
{
    let h = choose|h: int|
        #![trigger hives[h]]
        0 <= h < hives.len() && is_user_hive(hives[h].sid@) && hive_source(
            hives[h].capabilities@,
            CAPABILITY_COUNT as nat,
            c,
        );
    let caps = hives[h].capabilities@;
    let m = choose|m: int|
        #![trigger caps[m]]
        0 <= m < CAPABILITY_COUNT && cap_source(capability_names()[m], caps[m]@, c);
    let cap = capability_names()[m];
    let entries = caps[m]@;
    let j = choose|j: int| #![trigger entries[j]] 0 <= j < entries.len() && entry_source(cap, entries[j], c);
    let e = entries[j];
    if e.name@ == "NonPackaged"@ {
        let leaves = e.children@;
        let allow = np_allow_spec(opt_text(e.value));
        let l = choose|l: int|
            #![trigger leaves[l]]
            0 <= l < leaves.len() && read_entry_spec(
                opt_text(leaves[l].value),
                leaves[l].start,
                leaves[l].stop,
                cap,
                exe_path(leaves[l].name@),
                false,
                Some(allow),
            ) == Some(c);
        lemma_record_rules(
            opt_text(leaves[l].value),
            leaves[l].start,
            leaves[l].stop,
            cap,
            exe_path(leaves[l].name@),
            false,
            Some(allow),
        );
    } else {
        lemma_record_rules(opt_text(e.value), e.start, e.stop, cap, e.name@, true, None);
    }
    assert(capability_names()[m] == c.capability);
}

/// Where each consent comes from. Every record was read from a key of
/// a real user's hive (SID `S-1-5-21-…`, not its `_Classes` companion),
/// under one of the listed capabilities, which is the record's
/// capability. A packaged app's key makes a record with the key's name
/// as the app; a `NonPackaged` key makes one record per exe key under
/// it, with the exe's path (`#` back to `\`) as the app and
/// `NonPackaged\Value` as the inherited permission. What each key makes
/// is `read_entry_spec`, whose rules `lemma_record_rules` states: `Allow`
/// and `Deny` decide, in use exactly when started and not stopped. And
/// every record's times agree.
pub proof fn lemma_consents_from_keys(hives: Seq<UserConsentHive>)
    ensures
        forall|i: int|
            0 <= i < consents_spec(hives).len() ==> consent_source(
                hives,
                #[trigger] consents_spec(hives)[i],
            ),
        forall|i: int|
            0 <= i < consents_spec(hives).len() ==> listed_capability(
                (#[trigger] consents_spec(hives)[i]).capability,
            ),
        consistent(consents_spec(hives)),
{
    lemma_all_source(hives);
    lemma_consents_consistent(hives);
    assert forall|i: int| 0 <= i < consents_spec(hives).len() implies listed_capability(
        (#[trigger] consents_spec(hives)[i]).capability,
    ) by {
        lemma_source_capability(hives, consents_spec(hives)[i]);
    }
}

/// The HKU subkeys that are real users' hives, in order.
pub open spec fn user_hives_spec(subkeys: Seq<Seq<char>>) -> Seq<Seq<char>>
    decreases subkeys.len(),
{
    if subkeys.len() == 0 {
        Seq::empty()
    } else if is_user_hive(subkeys.last()) {
        user_hives_spec(subkeys.drop_last()).push(subkeys.last())
    } else {
        user_hives_spec(subkeys.drop_last())
    }
}

/// The SIDs of the real users whose consents are read.
///
/// The service runs as SYSTEM, so its `HKEY_CURRENT_USER` is SYSTEM's
/// hive and knows nothing of people's consents; watching for changes
/// needs to know which hives to look into.
pub fn user_hives(subkeys: &[String]) -> (r: Vec<String>)
    ensures
        r@.map_values(|s: String| s@) == user_hives_spec(subkeys@.map_values(|s: String| s@)),
{
    let mut out: Vec<String> = Vec::new();
    let ghost all = subkeys@.map_values(|s: String| s@);
    let mut i: usize = 0;
    while i < subkeys.len()
        invariant
            i <= subkeys.len(),
            all == subkeys@.map_values(|s: String| s@),
            out@.map_values(|s: String| s@) == user_hives_spec(all.take(i as int)),
        decreases subkeys.len() - i,
    {
        proof {
            assert(all.take(i as int + 1).drop_last() =~= all.take(i as int));
            assert(all.take(i as int + 1).last() == subkeys@[i as int]@);
        }
        if is_user_sid(subkeys[i].as_str()) {
            let s = string_from(&chars_of(subkeys[i].as_str()));
            out.push(s);
            assert(out@.map_values(|s: String| s@) =~= user_hives_spec(all.take(i as int)).push(
                subkeys@[i as int]@,
            ));
        }
        i = i + 1;
    }
    assert(all.take(all.len() as int) =~= all);
    out
}

} // verus!
