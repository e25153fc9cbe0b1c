//! CPU temperature — a cascade of sources.
//!
//! Windows gives no CPU temperature from user space directly. There are
//! paths that need no kernel driver of our own, tried from the most
//! precise to the most available:
//!
//! 1. **HWiNFO** shared memory — when the user runs it.
//! 2. **LibreHardwareMonitor / OpenHardwareMonitor** through WMI.
//! 3. **ACPI thermal zone** (`root\WMI`) — often the chipset, not the cores.
//! 4. **Clocks + throttling** — always available.
//!
//! Iron rule: never pretend a number you do not have. The readings are
//! floating point and the cascade over them runs outside this crate;
//! what is decided about the sources' layout and labels is here.

use vstd::prelude::*;

use crate::text::{ascii_lowercase, ascii_lower, chars_of, contains, occurs_at, occurs_from, starts_with};

verus! {

/// Where the temperature came from. Shown next to the number in the UI —
/// the user always sees what they are trusting.
#[derive(Debug, Clone, Copy, PartialEq, Eq)]
pub enum TempSource {
    /// HWiNFO (runs at the user's, we only read its shared memory).
    Hwinfo,
    /// LibreHardwareMonitor / OpenHardwareMonitor through WMI.
    Lhm,
    /// ACPI thermal zone — often the chipset, not the cores.
    Acpi,
    /// Nobody reports a temperature; only clocks and throttling remain.
    Unavailable,
}

impl TempSource {
    /// The name shown for the source.
    pub open spec fn name(self) -> Seq<char> {
        match self {
            TempSource::Hwinfo => "HWiNFO"@,
            TempSource::Lhm => "LibreHardwareMonitor"@,
            TempSource::Acpi => "ACPI"@,
            TempSource::Unavailable => "nedostupné"@,
        }
    }

    /// The name shown for the source.
    pub fn as_str(self) -> (r: &'static str)
        ensures
            r@ == self.name(),
    {
        match self {
            TempSource::Hwinfo => "HWiNFO",
            TempSource::Lhm => "LibreHardwareMonitor",
            TempSource::Acpi => "ACPI",
            TempSource::Unavailable => "nedostupné",
        }
    }
}

/// The name of HWiNFO's shared memory.
pub const HWINFO_SHM: &'static str = "Global\\HWiNFO_SENS_SM2";

/// "HWiS" read as a little-endian `u32` — the header signature.
pub const HWINFO_SIGNATURE: u32 = 0x5369_5748u32;

/// Header offsets of `HWiNFO_SENSORS_SHARED_MEM2` that are read.
pub const HDR_SIGNATURE: usize = 0x00usize;
pub const HDR_READING_OFFSET: usize = 0x20usize;
pub const HDR_READING_SIZE: usize = 0x24usize;
pub const HDR_READING_COUNT: usize = 0x28usize;

/// Reading type 1 = temperature.
pub const READING_TYPE_TEMP: u32 = 1u32;

/// Offset of the label (`szLabelOrig`, 128 bytes) in a reading.
pub const READ_LABEL: usize = 12usize;

/// Length of the label field.
pub const LABEL_LEN: usize = 128usize;

/// The reading elements are usable: each holds more than the label and
/// the four trailing doubles, and their number is sane.
pub open spec fn hwinfo_layout_ok_spec(size: usize, count: usize) -> bool {
    size > 32 + READ_LABEL && count > 0 && count < 10_000
}

/// Whether the readings of a valid header can be walked.
pub fn hwinfo_layout_ok(size: usize, count: usize) -> (b: bool)
    ensures
        b == hwinfo_layout_ok_spec(size, count),
{
    size > 32 + READ_LABEL && count > 0 && count < 10_000
}

/// Offset of the value in a reading: the first of the four doubles at
/// the end of the element, computed from its size so that alignment
/// does not matter.
pub fn hwinfo_value_offset(size: usize) -> (r: usize)
    requires
        hwinfo_layout_ok_spec(size, 1),
    ensures
        r == size - 32,
{
    size - 32
}

/// How well a lower-cased sensor label names the CPU temperature: "CPU
/// Package" is the whole package — what people mean by "processor
/// temperature" (3); a CPU die (2); a core or anything CPU (1); else 0.
pub open spec fn label_score_spec(label: Seq<char>) -> u8 {
    if occurs_from(label, "cpu package"@, 0) {
        3
    } else if occurs_from(label, "cpu"@, 0) && occurs_from(label, "die"@, 0) {
        2
    } else if occurs_at(label, "core "@, 0) || occurs_from(label, "cpu"@, 0) {
        1
    } else {
        0
    }
}

/// The score of a HWiNFO label, compared ASCII case-insensitively.
pub fn label_score(label: &str) -> (r: u8)
    ensures
        r == label_score_spec(label@.map_values(|c: char| ascii_lower(c))),
{
    let l = ascii_lowercase(&chars_of(label));
    if contains(&l, &chars_of("cpu package")) {
        3
    } else if contains(&l, &chars_of("cpu")) && contains(&l, &chars_of("die")) {
        2
    } else if starts_with(&l, &chars_of("core ")) || contains(&l, &chars_of("cpu")) {
        1
    } else {
        0
    }
}

/// What a LibreHardwareMonitor sensor name stands for.
#[derive(Debug, Clone, Copy, PartialEq, Eq)]
pub enum SensorKind {
    /// The whole package — taken as soon as it is seen.
    Package,
    /// A core or CPU sensor — the highest counts when there is no package.
    Core,
    /// Something else.
    Other,
}

/// The kind of a lower-cased LHM sensor name.
pub open spec fn sensor_kind_spec(name: Seq<char>) -> SensorKind {
    if occurs_from(name, "package"@, 0) {
        SensorKind::Package
    } else if occurs_from(name, "cpu"@, 0) || occurs_from(name, "core"@, 0) {
        SensorKind::Core
    } else {
        SensorKind::Other
    }
}

/// The kind of an LHM sensor, its name compared ASCII case-insensitively.
pub fn sensor_kind(name: &str) -> (r: SensorKind)
    ensures
        r == sensor_kind_spec(name@.map_values(|c: char| ascii_lower(c))),
{
    let l = ascii_lowercase(&chars_of(name));
    if contains(&l, &chars_of("package")) {
        SensorKind::Package
    } else if contains(&l, &chars_of("cpu")) || contains(&l, &chars_of("core")) {
        SensorKind::Core
    } else {
        SensorKind::Other
    }
}

} // verus!
