//! Per-PID information for identity: the image path, the MSIX package
//! family and the protection class of a process.
//!
//! The process queries (PROCESS_QUERY_LIMITED_INFORMATION, token, NT
//! information classes) live outside this crate and hand in what they
//! found; the protection class is decided here.

use vstd::prelude::*;

use crate::text::{chars_eq, chars_of, eq_ignore_ascii_case, eq_ignore_ascii_case_spec, from_utf16_lossy, utf16_lossy};
use crate::bytes::{text_of_units, wide_text};

verus! {

/// `ProcessBreakOnTermination`.
pub const PROCESS_BREAK_ON_TERMINATION: u32 = 29u32;

/// `ProcessBasicInformation`.
pub const PROCESS_BASIC_INFORMATION_CLASS: u32 = 0u32;

/// The protection class of a process — for display for now.
#[derive(Debug, Clone, Copy, PartialEq, Eq)]
pub enum Protection {
    /// Ending it causes a BSOD. Forbidden, grey + lock.
    Critical,
    /// PPL — ending it is technically impossible.
    Protected,
    /// Runs under a SYSTEM/SERVICE account — end only with confirmation.
    System,
    /// An ordinary user process.
    User,
}

/// The names kept as a fallback when the criticality query fails (not
/// relied on alone).
pub open spec fn critical_names() -> Seq<Seq<char>> {
    seq![
        "csrss.exe"@,
        "wininit.exe"@,
        "winlogon.exe"@,
        "smss.exe"@,
        "services.exe"@,
        "System"@,
        "Registry"@,
        "Memory Compression"@,
    ]
}

/// The name is one of the critical names (ASCII case-insensitively).
pub open spec fn is_critical_name(name: Seq<char>) -> bool {
    exists|i: int| 0 <= i < critical_names().len() && eq_ignore_ascii_case_spec(#[trigger] critical_names()[i], name)
}

/// Whether a process name is one of the critical names.
pub fn critical_name(name: &str) -> (b: bool)
    ensures
        b == is_critical_name(name@),
{
    let names: Vec<&'static str> = vec![
        "csrss.exe",
        "wininit.exe",
        "winlogon.exe",
        "smss.exe",
        "services.exe",
        "System",
        "Registry",
        "Memory Compression",
    ];
    assert(names@.len() == 8);
    assert forall|i: int| 0 <= i < 8 implies (#[trigger] names@[i])@ == critical_names()[i] by {}
    let n = chars_of(name);
    let mut i: usize = 0;
    while i < names.len()
        invariant
            i <= names@.len(),
            names@.len() == 8,
            n@ == name@,
            forall|k: int| 0 <= k < 8 ==> (#[trigger] names@[k])@ == critical_names()[k],
            forall|k: int| 0 <= k < i ==> !eq_ignore_ascii_case_spec(#[trigger] critical_names()[k], name@),
        decreases names@.len() - i,
    {
        if eq_ignore_ascii_case(&chars_of(names[i]), &n) {
            assert(eq_ignore_ascii_case_spec(critical_names()[i as int], name@));
            return true;
        }
        i = i + 1;
    }
    false
}

/// The SIDs of SYSTEM, LOCAL SERVICE and NETWORK SERVICE.
pub open spec fn is_service_sid_spec(sid: Seq<char>) -> bool {
    sid == "S-1-5-18"@ || sid == "S-1-5-19"@ || sid == "S-1-5-20"@
}

/// Is the token owner SYSTEM, LocalService or NetworkService?
pub fn is_service_sid(sid: &str) -> (b: bool)
    ensures
        b == is_service_sid_spec(sid@),
{
    let s = chars_of(sid);
    chars_eq(&s, &chars_of("S-1-5-18")) || chars_eq(&s, &chars_of("S-1-5-19")) || chars_eq(
        &s,
        &chars_of("S-1-5-20"),
    )
}

/// What the queries of an open process found: `BreakOnTermination`
/// (`None` when the query failed), the extended basic flags (`None` when
/// that query failed) and whether the token belongs to a service account.
#[derive(Debug, Clone, Copy, Default, PartialEq, Eq)]
pub struct ProcessFacts {
    pub break_on_termination: Option<u32>,
    pub extended_flags: Option<u32>,
    pub service_token: bool,
}

/// The protection class: PIDs 0 and 4 are critical; a process that
/// cannot be opened is judged by its name (critical, else system);
/// otherwise BreakOnTermination or a critical name make it critical, the
/// protected flag (bit 1) PPL, a service token system, anything else user.
pub open spec fn protection_spec(pid: u32, name: Seq<char>, facts: Option<ProcessFacts>) -> Protection {
    if pid == 0 || pid == 4 {
        Protection::Critical
    } else {
        match facts {
            None => if is_critical_name(name) {
                Protection::Critical
            } else {
                Protection::System
            },
            Some(f) => if f.break_on_termination is Some && f.break_on_termination->0 != 0 {
                Protection::Critical
            } else if is_critical_name(name) {
                Protection::Critical
            } else if f.extended_flags is Some && f.extended_flags->0 & 2 != 0 {
                Protection::Protected
            } else if f.service_token {
                Protection::System
            } else {
                Protection::User
            },
        }
    }
}

/// Determines the protection class of a process (`facts` is `None` when
/// the process could not be opened).
pub fn protection(pid: u32, name: &str, facts: Option<ProcessFacts>) -> (p: Protection)
    ensures
        p == protection_spec(pid, name@, facts),
{
    if pid == 0 || pid == 4 {
        return Protection::Critical;
    }
    match facts {
        None => if critical_name(name) {
            Protection::Critical
        } else {
            Protection::System
        },
        Some(f) => {
            match f.break_on_termination {
                Some(b) => if b != 0 {
                    return Protection::Critical;
                },
                None => {},
            }
            if critical_name(name) {
                return Protection::Critical;
            }
            match f.extended_flags {
                Some(fl) => if fl & 2 != 0 {
                    return Protection::Protected;
                },
                None => {},
            }
            if f.service_token {
                Protection::System
            } else {
                Protection::User
            }
        },
    }
}

/// The image path from `QueryFullProcessImageNameW`: the first `len` units.
pub fn image_path_text(buf: &[u16], len: u32) -> (r: String)
    requires
        len <= buf.len(),
    ensures
        r@ == utf16_lossy(buf@.take(len as int)),
{
    let part = vstd::slice::slice_subrange(buf, 0, len as usize);
    assert(part@ =~= buf@.take(len as int));
    from_utf16_lossy(part)
}

/// The package family from `GetPackageFamilyName`: up to the first NUL;
/// `None` when empty (not a packaged process).
pub fn package_family_text(buf: &[u16]) -> (r: Option<String>)
    ensures
        match r {
            Some(s) => s@ == wide_text(buf@) && s@.len() > 0,
            None => wide_text(buf@).len() == 0,
        },
{
    let s = text_of_units(buf);
    if s.unicode_len() == 0 {
        None
    } else {
        Some(s)
    }
}

} // verus!
