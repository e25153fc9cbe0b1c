//! GPU through NVML — the official NVIDIA API. nvml.dll is loaded and
//! called outside this crate (its readings are floating point and stay
//! there); the GPU name buffer is read here.

use vstd::prelude::*;

use crate::disk::zero_from;
use crate::text::{chars_of, from_utf8_lossy, string_from, trim_chars, trim_spec, utf8_lossy};

verus! {

/// `NVML_TEMPERATURE_GPU`.
pub const NVML_TEMPERATURE_GPU: u32 = 0u32;

/// `NVML_CLOCK_GRAPHICS`.
pub const NVML_CLOCK_GRAPHICS: u32 = 0u32;

/// Size of the name buffer handed to `nvmlDeviceGetName`.
pub const NAME_BUFFER: usize = 96usize;

/// The GPU name in a NUL-terminated buffer, trimmed.
pub open spec fn gpu_name_spec(buf: Seq<u8>) -> Seq<char> {
    let end = match zero_from(buf, 0) {
        Some(e) => e,
        None => buf.len() as int,
    };
    trim_spec(utf8_lossy(buf.take(end)))
}

/// The GPU name (e.g. "NVIDIA GeForce RTX 3070").
pub fn gpu_name(buf: &[u8]) -> (r: String)
    ensures
        r@ == gpu_name_spec(buf@),
{
    let mut end: usize = 0;
    while end < buf.len() && buf[end] != 0
        invariant
            end <= buf.len(),
            zero_from(buf@, 0) == zero_from(buf@, end as int),
        decreases buf.len() - end,
    {
        end = end + 1;
    }
    let part = vstd::slice::slice_subrange(buf, 0, end);
    assert(part@ =~= buf@.take(end as int));
    string_from(&trim_chars(&chars_of(from_utf8_lossy(part).as_str())))
}

/// Bytes to MiB.
pub fn bytes_to_mb(bytes: u64) -> (r: u64)
    ensures
        r == bytes / 1048576,
{
    bytes / 1048576
}

} // verus!
