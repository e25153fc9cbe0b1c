//! Physical disks: cumulative read/write counters (IOCTL_DISK_PERFORMANCE)
//! and the disk model (IOCTL_STORAGE_QUERY_PROPERTY). The handles and the
//! control calls live outside this crate; this module reads their answers.

use vstd::prelude::*;

use crate::bytes::{le32, read_u32};
use crate::text::{
    chars_of, from_utf8_lossy, push_decimal, dec_digits, string_from, trim_chars, trim_spec,
    utf8_lossy,
};

verus! {

/// IOCTL_DISK_PERFORMANCE (winioctl.h).
pub const IOCTL_DISK_PERFORMANCE: u32 = 0x0007_0020u32;

/// IOCTL_STORAGE_QUERY_PROPERTY (winioctl.h).
pub const IOCTL_STORAGE_QUERY_PROPERTY: u32 = 0x002d_1400u32;

/// How many physical drives are tried (PhysicalDrive0–15).
pub const MAX_DISKS: u32 = 16u32;

/// Cumulative bytes of a disk.
#[derive(Debug, Clone, Copy, Default, PartialEq, Eq)]
pub struct DiskCounters {
    pub read_bytes: u64,
    pub write_bytes: u64,
}

/// The counters of a DISK_PERFORMANCE answer; negative values read as 0.
pub fn disk_counters(bytes_read: i64, bytes_written: i64) -> (r: DiskCounters)
    ensures
        r.read_bytes == if bytes_read < 0 { 0 } else { bytes_read as int },
        r.write_bytes == if bytes_written < 0 { 0 } else { bytes_written as int },
{
    DiskCounters {
        read_bytes: if bytes_read < 0 { 0 } else { bytes_read as u64 },
        write_bytes: if bytes_written < 0 { 0 } else { bytes_written as u64 },
    }
}

/// The first position at or after `i` holding a 0 byte.
pub open spec fn zero_from(b: Seq<u8>, i: int) -> Option<int>
    decreases b.len() - i,
{
    if i < 0 || i >= b.len() {
        None
    } else if b[i] == 0 {
        Some(i)
    } else {
        zero_from(b, i + 1)
    }
}

/// The product id of a STORAGE_DEVICE_DESCRIPTOR: the NUL-terminated text
/// at the ProductIdOffset stored at 12, trimmed; `None` when the offset is
/// 0 or past the buffer, the text is not terminated or it is empty.
pub open spec fn model_spec(b: Seq<u8>) -> Option<Seq<char>> {
    let off = le32(b, 12);
    if off == 0 || off >= b.len() {
        None
    } else {
        match zero_from(b, off as int) {
            None => None,
            Some(end) => {
                let s = trim_spec(utf8_lossy(b.subrange(off as int, end)));
                if s.len() == 0 {
                    None
                } else {
                    Some(s)
                }
            },
        }
    }
}

/// The disk model (ProductId) from a StorageDeviceProperty answer.
pub fn model_from_descriptor(buf: &[u8]) -> (r: Option<String>)
    requires
        16 <= buf.len(),
    ensures
        match r {
            Some(s) => model_spec(buf@) == Some(s@),
            None => model_spec(buf@) is None,
        },
{
    let off = read_u32(buf, 12) as usize;
    if off == 0 || off >= buf.len() {
        return None;
    }
    let mut end = off;
    while end < buf.len() && buf[end] != 0
        invariant
            off <= end <= buf.len(),
            zero_from(buf@, off as int) == zero_from(buf@, end as int),
        decreases buf.len() - end,
    {
        end = end + 1;
    }
    if end == buf.len() {
        return None;
    }
    let text = from_utf8_lossy(vstd::slice::slice_subrange(buf, off, end));
    let t = trim_chars(&chars_of(text.as_str()));
    if t.len() == 0 {
        return None;
    }
    Some(string_from(&t))
}

/// "Disk {index}" — the name of a disk whose model cannot be read.
pub open spec fn disk_label_spec(index: u32) -> Seq<char> {
    "Disk "@ + dec_digits(index as nat)
}

/// The name of a disk whose model cannot be read.
pub fn disk_label(index: u32) -> (r: String)
    ensures
        r@ == disk_label_spec(index),
{
    let mut cs = chars_of("Disk ");
    push_decimal(&mut cs, index as u64);
    string_from(&cs)
}

/// The model to show for disk `index`: its own, else "Disk {index}".
pub fn disk_model(index: u32, descriptor: Option<&[u8]>) -> (r: String)
    requires
        match descriptor {
            Some(b) => 16 <= b.len(),
            None => true,
        },
    ensures
        r@ == match descriptor {
            Some(b) => match model_spec(b@) {
                Some(m) => m,
                None => disk_label_spec(index),
            },
            None => disk_label_spec(index),
        },
{
    match descriptor {
        Some(b) => match model_from_descriptor(b) {
            Some(m) => m,
            None => disk_label(index),
        },
        None => disk_label(index),
    }
}

} // verus!
