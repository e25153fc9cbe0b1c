//! System restore point before an IRREVERSIBLE action
//! (`SRSetRestorePoint`). srclient.dll is loaded outside this crate —
//! System Restore is often off and must not bring the service down; the
//! failure is reported to the caller, who decides whether to stop the
//! action.

use vstd::prelude::*;

use crate::bytes::{encode_utf16, utf16_of};
use crate::Error;

verus! {

/// `BEGIN_SYSTEM_CHANGE`.
pub const BEGIN_SYSTEM_CHANGE: u32 = 100u32;

/// `END_SYSTEM_CHANGE`.
pub const END_SYSTEM_CHANGE: u32 = 101u32;

/// `MODIFY_SETTINGS`.
pub const MODIFY_SETTINGS: u32 = 12u32;

/// Characters of `szDescription` (257 with the terminator).
pub const DESCRIPTION_UNITS: usize = 257usize;

/// The description field: the first 256 UTF-16 units of the text, the
/// rest zero.
pub open spec fn description_spec(desc: Seq<char>) -> Seq<u16> {
    let u = utf16_of(desc);
    Seq::new(
        DESCRIPTION_UNITS as nat,
        |i: int| if i < 256 && i < u.len() {
            u[i]
        } else {
            0u16
        },
    )
}

/// The `szDescription` field of `RESTOREPOINTINFOW`.
pub fn description_field(desc: &str) -> (r: Vec<u16>)
    ensures
        r@ == description_spec(desc@),
{
    let u = encode_utf16(desc);
    let mut out: Vec<u16> = Vec::new();
    let mut i: usize = 0;
    while i < DESCRIPTION_UNITS
        invariant
            i <= DESCRIPTION_UNITS,
            u@ == utf16_of(desc@),
            out@ == description_spec(desc@).take(i as int),
        decreases DESCRIPTION_UNITS - i,
    {
        let v = if i < 256 && i < u.len() {
            u[i]
        } else {
            0
        };
        out.push(v);
        i = i + 1;
        assert(out@ =~= description_spec(desc@).take(i as int));
    }
    assert(out@ =~= description_spec(desc@));
    out
}

/// The outcome of `SRSetRestorePointW`: non-zero is success, otherwise
/// the status it left is the error.
pub fn restore_result(ok: i32, status: u32) -> (r: Result<(), Error>)
    ensures
        ok != 0 ==> r is Ok,
        ok == 0 ==> r == Err::<(), Error>(Error::Win32 { call: "SRSetRestorePointW", code: status as i32 }),
{
    if ok != 0 {
        Ok(())
    } else {
        Err(Error::Win32 { call: "SRSetRestorePointW", code: status as i32 })
    }
}

} // verus!
