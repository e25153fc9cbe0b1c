//! Deleting INTO THE RECYCLE BIN — the only way of removal allowed.
//!
//! `SHFileOperationW` with `FOF_ALLOWUNDO` = the file can be restored
//! from the bin, so even an "irreversible" action has a way back. The
//! shell call lives outside this crate; its inputs and outcome are
//! handled here.

use vstd::prelude::*;

use crate::bytes::{encode_utf16, utf16_of};
use crate::Error;

verus! {

/// `FOF_ALLOWUNDO | FOF_NOCONFIRMATION | FOF_SILENT | FOF_NOERRORUI`:
/// the bin (without it the delete would be final), and no dialogs in a
/// service.
pub const DELETE_FLAGS: u16 = 0x0454u16;

/// The paths as the double-NUL-terminated list `SHFileOperation` wants.
pub open spec fn path_list_spec(paths: Seq<String>) -> Seq<u16>
    decreases paths.len(),
{
    if paths.len() == 0 {
        seq![0u16]
    } else {
        let rest = path_list_spec(paths.drop_last());
        rest.take(rest.len() - 1) + utf16_of(paths.last()@) + seq![0u16, 0u16]
    }
}

/// The double-NUL-terminated list of the paths.
pub fn path_list(paths: &[String]) -> (r: Vec<u16>)
    ensures
        r@ == path_list_spec(paths@),
{
    let mut out: Vec<u16> = Vec::new();
    let mut i: usize = 0;
    while i < paths.len()
        invariant
            i <= paths.len(),
            out@ + seq![0u16] == path_list_spec(paths@.take(i as int)),
        decreases paths.len() - i,
    {
        proof {
            assert(paths@.take(i as int + 1).drop_last() =~= paths@.take(i as int));
        }
        let ghost before = out@;
        let mut u = encode_utf16(paths[i].as_str());
        out.append(&mut u);
        out.push(0);
        proof {
            let prev = path_list_spec(paths@.take(i as int));
            assert(prev.take(prev.len() - 1) =~= before);
            assert(out@ + seq![0u16] =~= path_list_spec(paths@.take(i as int + 1)));
        }
        i = i + 1;
    }
    assert(paths@.take(paths@.len() as int) =~= paths@);
    out.push(0);
    out
}

/// The outcome of the shell operation: a non-zero code, or an operation
/// the user aborted, is an error.
pub fn recycle_result(rc: i32, aborted: bool) -> (r: Result<(), Error>)
    ensures
        rc != 0 ==> r == Err::<(), Error>(Error::Win32 { call: "SHFileOperationW(FO_DELETE)", code: rc }),
        rc == 0 && aborted ==> r == Err::<(), Error>(Error::Win32 { call: "SHFileOperationW(přerušeno)", code: -1i32 }),
        rc == 0 && !aborted ==> r is Ok,
{
    if rc != 0 {
        return Err(Error::Win32 { call: "SHFileOperationW(FO_DELETE)", code: rc });
    }
    if aborted {
        return Err(Error::Win32 { call: "SHFileOperationW(přerušeno)", code: -1 });
    }
    Ok(())
}

} // verus!
