//! MSI inventory: installed products (`MsiEnumProductsW` +
//! `MsiGetProductInfoW`) and the file map through components
//! (`MsiEnumComponentsW` → `MsiEnumClientsW` → `MsiGetComponentPathW`).
//! The Installer calls live outside this crate; their buffers and the
//! grouping of paths by product are handled here.

use vstd::prelude::*;

use crate::text::{chars_eq, chars_of, from_utf16_lossy, string_from, trim_chars, trim_spec, utf16_lossy};

verus! {

/// `ERROR_MORE_DATA`.
pub const ERROR_MORE_DATA: u32 = 234u32;

/// `INSTALLSTATE_LOCAL`.
pub const INSTALLSTATE_LOCAL: i32 = 3i32;

/// Length of a `{GUID}` product or component code.
pub const GUID_CHARS: usize = 38usize;

/// One installed MSI product.
#[derive(Debug, Clone, Default, PartialEq, Eq)]
pub struct MsiProduct {
    /// ProductCode `{GUID}` — matched to the Uninstall keys.
    pub code: String,
    pub name: Option<String>,
    pub version: Option<String>,
    pub publisher: Option<String>,
    pub install_date: Option<String>,
    pub install_location: Option<String>,
}

/// The product (or component) code of a 39-unit GUID buffer.
pub fn guid_code(buf: &[u16]) -> (r: String)
    requires
        GUID_CHARS <= buf.len(),
    ensures
        r@ == utf16_lossy(buf@.take(GUID_CHARS as int)),
{
    let part = vstd::slice::slice_subrange(buf, 0, GUID_CHARS);
    assert(part@ =~= buf@.take(GUID_CHARS as int));
    from_utf16_lossy(part)
}

/// The first `MsiGetProductInfoW` answer lets the read go on: a size
/// (`ERROR_MORE_DATA`) or success.
pub fn info_status_ok(rc: u32) -> (b: bool)
    ensures
        b == (rc == ERROR_MORE_DATA || rc == 0),
{
    rc == ERROR_MORE_DATA || rc == 0
}

/// A product property: the first `len` units, trimmed; `None` when empty.
pub open spec fn info_spec(buf: Seq<u16>, len: u32) -> Option<Seq<char>> {
    let s = trim_spec(utf16_lossy(buf.take(len as int)));
    if s.len() == 0 {
        None
    } else {
        Some(s)
    }
}

/// The text of one product property.
pub fn info_value(buf: &[u16], len: u32) -> (r: Option<String>)
    requires
        len <= buf.len(),
    ensures
        match r {
            Some(s) => info_spec(buf@, len) == Some(s@),
            None => info_spec(buf@, len) is None,
        },
{
    let part = vstd::slice::slice_subrange(buf, 0, len as usize);
    assert(part@ =~= buf@.take(len as int));
    let t = trim_chars(&chars_of(from_utf16_lossy(part).as_str()));
    if t.len() == 0 {
        None
    } else {
        Some(string_from(&t))
    }
}

/// A key path that is a file: a drive letter and a colon. Registry key
/// paths start with a number ("02:\…") and are skipped.
pub open spec fn is_file_path_spec(path: Seq<char>) -> bool {
    let b = vstd::utf8::encode_utf8(path);
    b.len() > 2 && b[1] == 58u8 && ((65 <= b[0] <= 90) || (97 <= b[0] <= 122))
}

/// Whether a component key path is a file on a drive.
pub fn is_file_path(path: &str) -> (r: bool)
    ensures
        r == is_file_path_spec(path@),
{
    let b = path.as_bytes();
    b.len() > 2 && b[1] == 58u8 && ((65 <= b[0] && b[0] <= 90) || (97 <= b[0] && b[0] <= 122))
}

/// One component path as found: the owning product's code, the install
/// state and the path.
#[derive(Debug, Clone, Default)]
pub struct ComponentPath {
    pub product: String,
    pub state: i32,
    pub path: String,
}

/// The group of `code` in the list so far.
pub open spec fn group_of(groups: Seq<(Seq<char>, Seq<Seq<char>>)>, code: Seq<char>) -> Option<int>
    decreases groups.len(),
{
    if groups.len() == 0 {
        None
    } else {
        match group_of(groups.drop_last(), code) {
            Some(i) => Some(i),
            None => if groups.last().0 == code {
                Some(groups.len() - 1)
            } else {
                None
            },
        }
    }
}

/// The file map: product code → the key paths of its components that
/// are installed locally and are files, each product once, in the order
/// first seen, its paths in the order found.
pub open spec fn groups_spec(entries: Seq<ComponentPath>) -> Seq<(Seq<char>, Seq<Seq<char>>)>
    decreases entries.len(),
{
    if entries.len() == 0 {
        Seq::empty()
    } else {
        let g = groups_spec(entries.drop_last());
        let e = entries.last();
        if e.state != INSTALLSTATE_LOCAL || !is_file_path_spec(e.path@) {
            g
        } else {
            match group_of(g, e.product@) {
                Some(i) => g.update(i, (g[i].0, g[i].1.push(e.path@))),
                None => g.push((e.product@, seq![e.path@])),
            }
        }
    }
}

proof fn lemma_group_of(groups: Seq<(Seq<char>, Seq<Seq<char>>)>, code: Seq<char>)
    ensures
        match group_of(groups, code) {
            Some(i) => 0 <= i < groups.len() && groups[i].0 == code && forall|j: int| 0 <= j < i ==> groups[j].0 != code,
            None => forall|j: int| 0 <= j < groups.len() ==> groups[j].0 != code,
        },
    decreases groups.len(),
{
    if groups.len() > 0 {
        let d = groups.drop_last();
        lemma_group_of(d, code);
        assert forall|j: int| 0 <= j < d.len() implies d[j] == groups[j] by {}
    }
}

pub open spec fn group_views(v: Seq<(String, Vec<String>)>) -> Seq<(Seq<char>, Seq<Seq<char>>)> {
    v.map_values(|g: (String, Vec<String>)| (g.0@, g.1@.map_values(|s: String| s@)))
}

fn find_group(groups: &Vec<(String, Vec<String>)>, code: &[char]) -> (r: Option<usize>)
    ensures
        match r {
            Some(j) => j < groups@.len() && groups@[j as int].0@ == code@ && forall|m: int| 0 <= m < j ==> (#[trigger] groups@[m]).0@ != code@,
            None => forall|m: int| 0 <= m < groups@.len() ==> (#[trigger] groups@[m]).0@ != code@,
        },
{
    let mut j: usize = 0;
    while j < groups.len()
        invariant
            j <= groups@.len(),
            forall|m: int| 0 <= m < j ==> (#[trigger] groups@[m]).0@ != code@,
        decreases groups@.len() - j,
    {
        if chars_eq(&chars_of(groups[j].0.as_str()), code) {
            return Some(j);
        }
        j = j + 1;
    }
    None
}

/// No product code heads two groups.
pub open spec fn codes_distinct(groups: Seq<(Seq<char>, Seq<Seq<char>>)>) -> bool {
    forall|a: int, b: int| 0 <= a < b < groups.len() ==> (#[trigger] groups[a]).0 != (#[trigger] groups[b]).0
}

/// Each product has one group: the codes of the file map are pairwise
/// distinct.
pub proof fn lemma_groups_distinct(entries: Seq<ComponentPath>)
    ensures
        codes_distinct(groups_spec(entries)),
    decreases entries.len(),
{
    if entries.len() > 0 {
        let g = groups_spec(entries.drop_last());
        let e = entries.last();
        lemma_groups_distinct(entries.drop_last());
        if e.state == INSTALLSTATE_LOCAL && is_file_path_spec(e.path@) {
            lemma_group_of(g, e.product@);
            match group_of(g, e.product@) {
                Some(i) => {
                    let ng = g.update(i, (g[i].0, g[i].1.push(e.path@)));
                    assert forall|a: int, b: int| 0 <= a < b < ng.len() implies (#[trigger] ng[a]).0
                        != (#[trigger] ng[b]).0 by {
                        assert(ng[a].0 == g[a].0);
                        assert(ng[b].0 == g[b].0);
                    }
                },
                None => {
                    let ng = g.push((e.product@, seq![e.path@]));
                    assert forall|a: int, b: int| 0 <= a < b < ng.len() implies (#[trigger] ng[a]).0
                        != (#[trigger] ng[b]).0 by {
                        if b < g.len() {
                            assert(ng[a] == g[a] && ng[b] == g[b]);
                        } else {
                            assert(ng[a] == g[a]);
                        }
                    }
                },
            }
        }
    }
}

/// Groups the component paths by product; each product code heads one
/// group only.
pub fn component_paths(entries: &[ComponentPath]) -> (r: Vec<(String, Vec<String>)>)
    ensures
        group_views(r@) == groups_spec(entries@),
        codes_distinct(group_views(r@)),
{
    proof {
        lemma_groups_distinct(entries@);
    }
    let mut groups: Vec<(String, Vec<String>)> = Vec::new();
    let mut i: usize = 0;
    while i < entries.len()
        invariant
            i <= entries.len(),
            group_views(groups@) == groups_spec(entries@.take(i as int)),
        decreases entries.len() - i,
    {
        proof {
            assert(entries@.take(i as int + 1).drop_last() =~= entries@.take(i as int));
        }
        let e = &entries[i];
        let ghost g = group_views(groups@);
        if e.state == INSTALLSTATE_LOCAL && is_file_path(e.path.as_str()) {
            let code = chars_of(e.product.as_str());
            match find_group(&groups, &code) {
                Some(j) => {
                    proof {
                        lemma_group_of(g, e.product@);
                        assert(g[j as int].0 == groups@[j as int].0@);
                        match group_of(g, e.product@) {
                            Some(k) => {
                                if k < j {
                                    assert(g[k].0 == groups@[k].0@);
                                }
                                if k > j {
                                    assert(g[j as int].0 != e.product@);
                                }
                            },
                            None => {
                                assert(g[j as int].0 != e.product@);
                            },
                        }
                        assert(group_of(g, e.product@) == Some(j as int));
                    }
                    let mut paths: Vec<String> = Vec::new();
                    let (code0, mut old_paths) = groups.remove(j);
                    let ghost old_view = old_paths@.map_values(|s: String| s@);
                    let ghost code_view = code0@;
                    assert(g[j as int] == (code_view, old_view));
                    paths.append(&mut old_paths);
                    paths.push(string_from(&chars_of(e.path.as_str())));
                    assert(paths@.map_values(|s: String| s@) =~= old_view.push(e.path@));
                    groups.insert(j, (code0, paths));
                    proof {
                        let ng = group_views(groups@);
                        assert(ng =~= g.update(j as int, (g[j as int].0, g[j as int].1.push(e.path@))));
                    }
                },
                None => {
                    proof {
                        lemma_group_of(g, e.product@);
                        match group_of(g, e.product@) {
                            Some(k) => {
                                assert(g[k].0 == groups@[k].0@);
                            },
                            None => {},
                        }
                    }
                    let mut paths: Vec<String> = Vec::new();
                    paths.push(string_from(&chars_of(e.path.as_str())));
                    assert(paths@.map_values(|s: String| s@) =~= seq![e.path@]);
                    groups.push((string_from(&code), paths));
                    assert(group_views(groups@) =~= g.push((e.product@, seq![e.path@])));
                },
            }
        }
        i = i + 1;
    }
    assert(entries@.take(entries@.len() as int) =~= entries@);
    groups
}

} // verus!
