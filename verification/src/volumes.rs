//! Logical volumes: letters, label, file system, capacity and free
//! space. The calls live outside this crate; which drives are listed and
//! what their answers hold is decided here.

use vstd::prelude::*;

use crate::bytes::{le32, read_u32, text_of_units, wide_text};

verus! {

/// IOCTL_VOLUME_GET_VOLUME_DISK_EXTENTS.
pub const IOCTL_GET_EXTENTS: u32 = 0x0056_0000u32;

/// `DRIVE_REMOVABLE`.
pub const DRIVE_REMOVABLE: u32 = 2u32;

/// `DRIVE_FIXED`.
pub const DRIVE_FIXED: u32 = 3u32;

/// One logical volume.
#[derive(Debug, Clone, PartialEq, Eq)]
pub struct Volume {
    pub letter: char,
    pub label: String,
    pub fs: String,
    pub total_bytes: u64,
    pub free_bytes: u64,
    /// Only fixed disks (DRIVE_FIXED) are true — network/USB look
    /// different in the UI.
    pub fixed: bool,
    /// Index of the physical disk (IOCTL extents) — links to the SMART card.
    pub disk_index: Option<u32>,
}

/// The drive letters present in a `GetLogicalDrives` mask, A to Z.
pub open spec fn letters_spec(mask: u32, n: int) -> Seq<char>
    decreases n,
{
    if n <= 0 {
        Seq::empty()
    } else {
        let i = n - 1;
        let rest = letters_spec(mask, i);
        if mask & (1u32 << (i as u32)) != 0 {
            rest.push((65 + i) as char)
        } else {
            rest
        }
    }
}

/// The letters of the drives in the mask.
pub fn drive_letters(mask: u32) -> (r: Vec<char>)
    ensures
        r@ == letters_spec(mask, 26),
{
    let mut out: Vec<char> = Vec::new();
    let mut i: u32 = 0;
    while i < 26
        invariant
            i <= 26,
            out@ == letters_spec(mask, i as int),
        decreases 26 - i,
    {
        if mask & (1u32 << i) != 0 {
            let c = (65u8 + i as u8) as char;
            out.push(c);
        }
        i = i + 1;
    }
    out
}

/// Only fixed and removable drives are listed; CD and RAM disks are not.
pub fn listed_drive_type(dtype: u32) -> (b: bool)
    ensures
        b == (dtype == DRIVE_FIXED || dtype == DRIVE_REMOVABLE),
{
    dtype == DRIVE_FIXED || dtype == DRIVE_REMOVABLE
}

/// The physical disk under a volume from a VOLUME_DISK_EXTENTS answer:
/// the DiskNumber of the first extent (spanned volumes are rare), when
/// there is one.
pub fn disk_of_extents(buf: &[u8]) -> (r: Option<u32>)
    requires
        12 <= buf.len(),
    ensures
        r == if le32(buf@, 0) >= 1 {
            Some(le32(buf@, 8))
        } else {
            None
        },
{
    let n = read_u32(buf, 0);
    if n >= 1 {
        Some(read_u32(buf, 8))
    } else {
        None
    }
}

/// One listed volume from what was read of it.
pub fn volume_from(
    letter: char,
    label: &[u16],
    fs: &[u16],
    total: u64,
    free: u64,
    dtype: u32,
    disk_index: Option<u32>,
) -> (v: Volume)
    ensures
        v.letter == letter,
        v.label@ == wide_text(label@),
        v.fs@ == wide_text(fs@),
        v.total_bytes == total,
        v.free_bytes == free,
        v.fixed == (dtype == DRIVE_FIXED),
        v.disk_index == disk_index,
{
    Volume {
        letter,
        label: text_of_units(label),
        fs: text_of_units(fs),
        total_bytes: total,
        free_bytes: free,
        fixed: dtype == DRIVE_FIXED,
        disk_index,
    }
}

} // verus!
