//! Where an app lives: shortcuts and the registry's `App Paths`.
//!
//! A `.lnk` is not a PE file, so no icon can be read from its resources
//! — and the shell in session 0 returns a generic one. So a shortcut is
//! resolved to its target and the icon is read from the target `.exe`.
//! The COM and registry calls and the file checks live outside this
//! crate; the paths they return are cleaned and chosen here.

use vstd::prelude::*;

use crate::bytes::{text_of_units, wide_text};
use crate::text::{chars_of, lowercase, string_from, to_lowercase, trim_chars, trim_spec, unquote_chars, unquote_spec};

verus! {

/// The registry key of the registered app paths.
pub const APP_PATHS: &'static str = "SOFTWARE\\Microsoft\\Windows\\CurrentVersion\\App Paths";

/// The path a shell buffer holds (`IShellLinkW::GetPath`,
/// `GetIconLocation`): the text up to the first NUL; `None` when empty.
pub fn shell_path(units: &[u16]) -> (r: Option<String>)
    ensures
        match r {
            Some(p) => p@ == wide_text(units@) && p@.len() > 0,
            None => wide_text(units@).len() == 0,
        },
{
    let s = text_of_units(units);
    if s.unicode_len() == 0 {
        None
    } else {
        Some(s)
    }
}

/// The key of one app's registered path.
pub fn app_path_key(exe_name: &str) -> (r: String)
    ensures
        r@ == APP_PATHS@ + seq!['\\'] + exe_name@,
{
    let mut cs = chars_of(APP_PATHS);
    cs.push('\\');
    let name = chars_of(exe_name);
    let mut i: usize = 0;
    let ghost start = cs@;
    while i < name.len()
        invariant
            i <= name.len(),
            cs@ == start + name@.take(i as int),
        decreases name.len() - i,
    {
        cs.push(name[i]);
        i = i + 1;
        assert(cs@ =~= start + name@.take(i as int));
    }
    assert(name@.take(name@.len() as int) =~= name@);
    string_from(&cs)
}

/// A registered path cleaned of blanks and quotes — the form whose
/// existence is checked and which is returned.
pub open spec fn clean_path_spec(raw: Seq<char>) -> Seq<char> {
    unquote_spec(trim_spec(raw))
}

/// Cleans a registered path (`trim().trim_matches('"')`).
pub fn clean_path(raw: &str) -> (r: String)
    ensures
        r@ == clean_path_spec(raw@),
{
    string_from(&unquote_chars(&trim_chars(&chars_of(raw))))
}

/// What was found for one registry root: the default value of the app's
/// key (`None` when missing) and whether its cleaned path is a file.
#[derive(Debug, Clone, Default)]
pub struct AppPathProbe {
    pub value: Option<String>,
    pub is_file: bool,
}

/// The first root (HKLM, then HKCU) whose registered path is a file.
pub open spec fn app_path_spec(probes: Seq<AppPathProbe>) -> Option<Seq<char>>
    decreases probes.len(),
{
    if probes.len() == 0 {
        None
    } else {
        match probes[0].value {
            Some(v) => if probes[0].is_file {
                Some(clean_path_spec(v@))
            } else {
                app_path_spec(probes.drop_first())
            },
            None => app_path_spec(probes.drop_first()),
        }
    }
}

/// The path of an `.exe` from `App Paths` (apps register it there to be
/// started by name — a reliable source also for apps not running).
pub fn app_path(probes: &[AppPathProbe]) -> (r: Option<String>)
    ensures
        match r {
            Some(p) => app_path_spec(probes@) == Some(p@),
            None => app_path_spec(probes@) is None,
        },
{
    let mut i: usize = 0;
    assert(probes@.skip(0) =~= probes@);
    while i < probes.len()
        invariant
            i <= probes.len(),
            app_path_spec(probes@) == app_path_spec(probes@.skip(i as int)),
        decreases probes.len() - i,
    {
        assert(probes@.skip(i as int)[0] == probes@[i as int]);
        assert(probes@.skip(i as int).drop_first() =~= probes@.skip(i as int + 1));
        match &probes[i].value {
            Some(v) => if probes[i].is_file {
                return Some(clean_path(v.as_str()));
            },
            None => {},
        }
        i = i + 1;
    }
    None
}

/// One subkey of `App Paths` under one root: its name, its default value
/// and whether its cleaned path is a file.
#[derive(Debug, Clone, Default)]
pub struct AppPathEntry {
    pub subkey: String,
    pub value: Option<String>,
    pub is_file: bool,
}

/// The registered paths that are files: (exe name in lower case, path),
/// in the order given (HKLM entries, then HKCU).
pub open spec fn all_app_paths_spec(entries: Seq<AppPathEntry>) -> Seq<(Seq<char>, Seq<char>)>
    decreases entries.len(),
{
    if entries.len() == 0 {
        Seq::empty()
    } else {
        let rest = all_app_paths_spec(entries.drop_last());
        let e = entries.last();
        match e.value {
            Some(v) => if e.is_file {
                rest.push((lowercase(e.subkey@), clean_path_spec(v@)))
            } else {
                rest
            },
            None => rest,
        }
    }
}

/// Lists the registered app paths (exe name → full path).
pub fn all_app_paths(entries: &[AppPathEntry]) -> (r: Vec<(String, String)>)
    ensures
        r@.map_values(|p: (String, String)| (p.0@, p.1@)) == all_app_paths_spec(entries@),
{
    let mut out: Vec<(String, String)> = Vec::new();
    let mut i: usize = 0;
    while i < entries.len()
        invariant
            i <= entries.len(),
            out@.map_values(|p: (String, String)| (p.0@, p.1@)) == all_app_paths_spec(entries@.take(i as int)),
        decreases entries.len() - i,
    {
        proof {
            assert(entries@.take(i as int + 1).drop_last() =~= entries@.take(i as int));
        }
        let e = &entries[i];
        match &e.value {
            Some(v) => if e.is_file {
                let ghost before = out@.map_values(|p: (String, String)| (p.0@, p.1@));
                let pair = (to_lowercase(e.subkey.as_str()), clean_path(v.as_str()));
                let ghost pv = (pair.0@, pair.1@);
                out.push(pair);
                assert(out@.map_values(|p: (String, String)| (p.0@, p.1@)) =~= before.push(pv));
            },
            None => {},
        }
        i = i + 1;
    }
    assert(entries@.take(entries@.len() as int) =~= entries@);
    out
}

/// A root whose registered path was found and is a file.
pub open spec fn usable_probe(pr: AppPathProbe) -> bool {
    pr.value is Some && pr.is_file
}

/// Which path `app_path` gives: the cleaned path of the first root (in
/// the order given: HKLM, then HKCU) whose registered path is a file;
/// nothing when no root has one.
pub proof fn lemma_app_path_first(probes: Seq<AppPathProbe>)
    ensures
        match app_path_spec(probes) {
            Some(p) => exists|i: int|
                0 <= i < probes.len() && usable_probe(#[trigger] probes[i]) && p == clean_path_spec(
                    probes[i].value->0@,
                ) && forall|j: int| 0 <= j < i ==> !usable_probe(#[trigger] probes[j]),
            None => forall|j: int| 0 <= j < probes.len() ==> !usable_probe(#[trigger] probes[j]),
        },
    decreases probes.len(),
{
    if probes.len() > 0 {
        let rest = probes.drop_first();
        lemma_app_path_first(rest);
        assert forall|j: int| 0 <= j < rest.len() implies #[trigger] rest[j] == probes[j + 1] by {}
        if !usable_probe(probes[0]) {
            match app_path_spec(rest) {
                Some(p) => {
                    let i = choose|i: int|
                        0 <= i < rest.len() && usable_probe(#[trigger] rest[i]) && p
                            == clean_path_spec(rest[i].value->0@) && forall|j: int|
                            0 <= j < i ==> !usable_probe(#[trigger] rest[j]);
                    assert(usable_probe(probes[i + 1]));
                    assert forall|j: int| 0 <= j < i + 1 implies !usable_probe(
                        #[trigger] probes[j],
                    ) by {
                        if j > 0 {
                            assert(probes[j] == rest[j - 1]);
                        }
                    }
                },
                None => {
                    assert forall|j: int| 0 <= j < probes.len() implies !usable_probe(
                        #[trigger] probes[j],
                    ) by {
                        if j > 0 {
                            assert(probes[j] == rest[j - 1]);
                        }
                    }
                },
            }
        } else {
            assert(usable_probe(probes[0]));
        }
    }
}

/// An `App Paths` subkey whose registered path was found and is a file.
pub open spec fn usable_entry(e: AppPathEntry) -> bool {
    e.value is Some && e.is_file
}

/// The pair such a subkey gives: its name in lower case and its cleaned
/// path.
pub open spec fn entry_pair(e: AppPathEntry) -> (Seq<char>, Seq<char>) {
    (lowercase(e.subkey@), clean_path_spec(e.value->0@))
}

/// `pair` is what some usable subkey of `entries` gives.
pub open spec fn from_usable(entries: Seq<AppPathEntry>, pair: (Seq<char>, Seq<char>)) -> bool {
    exists|i: int|
        0 <= i < entries.len() && usable_entry(#[trigger] entries[i]) && pair == entry_pair(
            entries[i],
        )
}

/// `pair` is listed in `out`.
pub open spec fn listed(out: Seq<(Seq<char>, Seq<char>)>, pair: (Seq<char>, Seq<char>)) -> bool {
    exists|k: int| 0 <= k < out.len() && #[trigger] out[k] == pair
}

/// What `all_app_paths` lists: every pair is the lower-cased name and
/// the cleaned path of a subkey whose path is a file, and every such
/// subkey gives a listed pair.
pub proof fn lemma_all_app_paths_files(entries: Seq<AppPathEntry>)
    ensures
        forall|k: int|
            0 <= k < all_app_paths_spec(entries).len() ==> from_usable(
                entries,
                #[trigger] all_app_paths_spec(entries)[k],
            ),
        forall|i: int|
            0 <= i < entries.len() && usable_entry(#[trigger] entries[i]) ==> listed(
                all_app_paths_spec(entries),
                entry_pair(entries[i]),
            ),
    decreases entries.len(),
{
    if entries.len() > 0 {
        let pre = entries.drop_last();
        let n = entries.len() - 1;
        let e = entries.last();
        lemma_all_app_paths_files(pre);
        let a = all_app_paths_spec(pre);
        let out = all_app_paths_spec(entries);
        assert(entries[n] == e);
        assert(usable_entry(e) ==> out == a.push(entry_pair(e)));
        assert(!usable_entry(e) ==> out == a);
        assert forall|k: int| 0 <= k < out.len() implies from_usable(entries, #[trigger] out[k]) by {
            if k < a.len() {
                assert(out[k] == a[k]);
                assert(from_usable(pre, a[k]));
                let i = choose|i: int|
                    0 <= i < pre.len() && usable_entry(#[trigger] pre[i]) && a[k] == entry_pair(
                        pre[i],
                    );
                assert(pre[i] == entries[i]);
            } else {
                assert(out[k] == entry_pair(entries[n]));
            }
        }
        assert forall|i: int| 0 <= i < entries.len() && usable_entry(#[trigger] entries[i]) implies listed(
            out,
            entry_pair(entries[i]),
        ) by {
            if i < n {
                assert(pre[i] == entries[i]);
                assert(listed(a, entry_pair(pre[i])));
                let k = choose|k: int| 0 <= k < a.len() && #[trigger] a[k] == entry_pair(pre[i]);
                assert(out[k] == a[k]);
            } else {
                assert(out[a.len() as int] == entry_pair(entries[n]));
            }
        }
    }
}

} // verus!
