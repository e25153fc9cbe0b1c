//! Listing the MFT through the USN journal: `FSCTL_ENUM_USN_DATA` returns
//! a record for EVERY file of an NTFS volume within seconds — no indexing
//! of our own, the file system's structure is read directly.
//!
//! The volume handle and the control calls live outside this crate; each
//! batch the call returns is handed here and read into entries.

use vstd::prelude::*;

use crate::bytes::{le16, le32, le64, le_units, read_u16, read_u32, read_u64, units_from_le};
use crate::text::{from_utf16_lossy, utf16_lossy};

verus! {

/// `FSCTL_ENUM_USN_DATA` (winioctl.h).
pub const FSCTL_ENUM_USN_DATA: u32 = 0x0009_00b3u32;

/// Size of the fixed part of a `USN_RECORD_V2`.
pub const USN_RECORD_HEAD: usize = 60usize;

/// One file or directory from the MFT.
#[derive(Debug, Clone)]
pub struct UsnEntry {
    /// FileReferenceNumber (identity in the MFT).
    pub file_ref: u64,
    /// The parent directory (FileReferenceNumber).
    pub parent_ref: u64,
    /// FILE_ATTRIBUTE_* bits.
    pub attrs: u32,
    pub name: String,
}

/// `UsnEntry` as mathematical values.
pub struct UsnEntryView {
    pub file_ref: u64,
    pub parent_ref: u64,
    pub attrs: u32,
    pub name: Seq<char>,
}

impl View for UsnEntry {
    type V = UsnEntryView;

    open spec fn view(&self) -> UsnEntryView {
        UsnEntryView {
            file_ref: self.file_ref,
            parent_ref: self.parent_ref,
            attrs: self.attrs,
            name: self.name@,
        }
    }
}

/// The entry of the record at `off` (fixed `USN_RECORD_V2` offsets), when
/// its name lies inside the record.
pub open spec fn usn_entry(b: Seq<u8>, off: int) -> Option<UsnEntryView> {
    let rec_len = le32(b, off);
    let name_len = le16(b, off + 56);
    let name_off = le16(b, off + 58);
    if name_off + name_len <= rec_len {
        Some(
            UsnEntryView {
                file_ref: le64(b, off + 8),
                parent_ref: le64(b, off + 16),
                attrs: le32(b, off + 52),
                name: utf16_lossy(le_units(b.subrange(off + name_off, off + name_off + name_len))),
            },
        )
    } else {
        None
    }
}

/// The entries of the records from `off` on within the first `returned`
/// bytes. Reading stops at a record shorter than its fixed part or one
/// that runs past the returned bytes.
pub open spec fn usn_records(b: Seq<u8>, returned: int, off: int) -> Seq<UsnEntryView>
    decreases returned - off,
{
    if off < 0 || off + USN_RECORD_HEAD > returned {
        Seq::empty()
    } else {
        let rec_len = le32(b, off);
        if rec_len < USN_RECORD_HEAD || off + rec_len > returned {
            Seq::empty()
        } else {
            let here = match usn_entry(b, off) {
                Some(e) => seq![e],
                None => Seq::empty(),
            };
            here + usn_records(b, returned, off + rec_len)
        }
    }
}

pub open spec fn views(v: Seq<UsnEntry>) -> Seq<UsnEntryView> {
    v.map_values(|e: UsnEntry| e@)
}

fn read_record(buf: &[u8], off: usize) -> (r: Option<UsnEntry>)
    requires
        off + USN_RECORD_HEAD <= buf.len(),
        off + le32(buf@, off as int) <= buf.len(),
    ensures
        match r {
            Some(e) => usn_entry(buf@, off as int) == Some(e@),
            None => usn_entry(buf@, off as int) is None,
        },
{
    let rec_len = read_u32(buf, off) as usize;
    let name_len = read_u16(buf, off + 56) as usize;
    let name_off = read_u16(buf, off + 58) as usize;
    if name_off + name_len > rec_len {
        return None;
    }
    let a = off + name_off;
    let e = a + name_len;
    let bytes = vstd::slice::slice_subrange(buf, a, e);
    let units = units_from_le(bytes);
    Some(
        UsnEntry {
            file_ref: read_u64(buf, off + 8),
            parent_ref: read_u64(buf, off + 16),
            attrs: read_u32(buf, off + 52),
            name: from_utf16_lossy(&units),
        },
    )
}

/// Reads one batch of `FSCTL_ENUM_USN_DATA` output: the first 8 bytes
/// hold the next StartFileReferenceNumber, the records follow. Returns
/// that number and the entries in order.
pub fn parse_usn_batch(buf: &[u8], returned: u32) -> (r: (u64, Vec<UsnEntry>))
    requires
        8 <= returned <= buf.len(),
    ensures
        r.0 == le64(buf@, 0),
        views(r.1@) == usn_records(buf@, returned as int, 8),
{
    let next = read_u64(buf, 0);
    let ret = returned as usize;
    let mut out: Vec<UsnEntry> = Vec::new();
    let mut off: usize = 8;
    while off <= ret && ret - off >= USN_RECORD_HEAD
        invariant
            8 <= off,
            next == le64(buf@, 0),
            ret == returned,
            ret <= buf.len(),
            views(out@) + usn_records(buf@, ret as int, off as int) == usn_records(
                buf@,
                ret as int,
                8,
            ),
        decreases ret - off,
    {
        let rec_len = read_u32(buf, off) as usize;
        if rec_len < USN_RECORD_HEAD || rec_len > ret - off {
            assert(views(out@) + Seq::<UsnEntryView>::empty() =~= views(out@));
            return (next, out);
        }
        let ghost before = views(out@);
        let ghost rest = usn_records(buf@, ret as int, off + rec_len);
        match read_record(buf, off) {
            Some(e) => {
                let ghost ev = e@;
                out.push(e);
                assert(views(out@) =~= before + seq![ev]);
                assert(views(out@) + rest =~= before + (seq![ev] + rest));
            },
            None => {
                assert(before + (Seq::<UsnEntryView>::empty() + rest) =~= before + rest);
            },
        }
        off = off + rec_len;
    }
    assert(views(out@) + Seq::<UsnEntryView>::empty() =~= views(out@));
    (next, out)
}

} // verus!
