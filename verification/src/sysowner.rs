//! "Did the Windows servicing stack put this file on disk?"
//!
//! One question: is the owner `NT SERVICE\TrustedInstaller`? A
//! third-party installer does not set that ownership — even running as
//! administrator it leaves `BUILTIN\Administrators` or
//! `NT AUTHORITY\SYSTEM`.
//!
//! Ownership alone does not mean "made by Microsoft" — System32 holds
//! NVIDIA or HP files the servicing stack put there too. So this is ONE
//! input to a decision, not the answer. The owner SID is read elsewhere
//! and handed in.

use vstd::prelude::*;

use crate::text::{chars_of, eq_ignore_ascii_case, eq_ignore_ascii_case_spec, string_from, trim_chars, trim_spec};

verus! {

/// The SID of `NT SERVICE\TrustedInstaller`. It is well known — the same
/// on every Windows installation — so it is compared as text.
pub const TRUSTED_INSTALLER_SID: &'static str =
    "S-1-5-80-956008885-3418522649-1831038044-1853292631-2271478464";

/// The path whose owner is asked for: trimmed, `None` when empty.
pub open spec fn owner_path_spec(path: Seq<char>) -> Option<Seq<char>> {
    if trim_spec(path).len() == 0 {
        None
    } else {
        Some(trim_spec(path))
    }
}

/// The path to query the owner of, trimmed; `None` (do not ask) when it
/// is empty.
pub fn owner_query_path(path: &str) -> (r: Option<String>)
    ensures
        match r {
            Some(p) => owner_path_spec(path@) == Some(p@),
            None => owner_path_spec(path@) is None,
        },
{
    let t = trim_chars(&chars_of(path));
    if t.len() == 0 {
        None
    } else {
        Some(string_from(&t))
    }
}

/// Does TrustedInstaller own the file? `None` = it could not be found out
/// (the caller must not read that as "no").
pub fn owned_by_trusted_installer(owner_sid: &Option<String>) -> (r: Option<bool>)
    ensures
        match *owner_sid {
            Some(s) => r == Some(eq_ignore_ascii_case_spec(s@, TRUSTED_INSTALLER_SID@)),
            None => r is None,
        },
{
    match owner_sid {
        Some(s) => Some(eq_ignore_ascii_case(&chars_of(s.as_str()), &chars_of(TRUSTED_INSTALLER_SID))),
        None => None,
    }
}

} // verus!
