//! Disk health: the NVMe health log through `IOCTL_STORAGE_QUERY_PROPERTY`
//! (protocol-specific, log page 0x02) — no vendor SDK, the standard NVMe
//! specification. SATA/ATA SMART is honestly `None` for now; the UI shows
//! only what is known.
//!
//! The device handle and the control call live outside this crate; this
//! module builds the query and reads the answer.

use vstd::prelude::*;

use crate::bytes::{le16, le32, le64, read_u16, read_u32, read_u64};

verus! {

/// IOCTL_STORAGE_QUERY_PROPERTY (winioctl.h).
pub const IOCTL_STORAGE_QUERY_PROPERTY: u32 = 0x002d_1400u32;

/// Size of the query buffer: STORAGE_PROPERTY_QUERY head (8 bytes),
/// STORAGE_PROTOCOL_SPECIFIC_DATA (40 bytes) and the 512-byte log.
pub const NVME_QUERY_LEN: usize = 560usize;

/// NVMe SMART / health information.
#[derive(Debug, Clone, Copy, PartialEq, Eq)]
pub struct NvmeHealth {
    pub temp_c: i32,
    /// Remaining spare blocks (%).
    pub spare_pct: u8,
    /// Wear estimate (0 = new, 100+ = past the design life).
    pub used_pct: u8,
    pub power_on_hours: u64,
    /// Bit field of critical warnings (0 = OK).
    pub critical_warning: u8,
}

/// Byte `i` of the health-log query: StorageDeviceProtocolSpecificProperty
/// (50) with PropertyStandardQuery, then ProtocolTypeNvme (3),
/// NVMeDataTypeLogPage (2), log page 2 (health), data offset 40 and data
/// length 512, all little-endian; every other byte is 0.
pub open spec fn query_byte(i: int) -> u8 {
    if i == 0 {
        50
    } else if i == 8 {
        3
    } else if i == 12 || i == 16 || i == 29 {
        2
    } else if i == 24 {
        40
    } else {
        0
    }
}

/// The query buffer for the NVMe health log page.
pub fn nvme_query() -> (r: Vec<u8>)
    ensures
        r@.len() == NVME_QUERY_LEN,
        forall|i: int| 0 <= i < NVME_QUERY_LEN ==> #[trigger] r@[i] == query_byte(i),
        le32(r@, 0) == 50 && le32(r@, 4) == 0,
        le32(r@, 8) == 3 && le32(r@, 12) == 2 && le32(r@, 16) == 2 && le32(r@, 20) == 0,
        le32(r@, 24) == 40 && le32(r@, 28) == 512,
{
    let mut v: Vec<u8> = Vec::new();
    let mut i: usize = 0;
    while i < NVME_QUERY_LEN
        invariant
            i <= NVME_QUERY_LEN,
            v@.len() == i,
            forall|j: int| 0 <= j < i ==> #[trigger] v@[j] == query_byte(j),
        decreases NVME_QUERY_LEN - i,
    {
        let b: u8 = if i == 0 {
            50
        } else if i == 8 {
            3
        } else if i == 12 || i == 16 || i == 29 {
            2
        } else if i == 24 {
            40
        } else {
            0
        };
        v.push(b);
        i = i + 1;
    }
    proof {
        reveal_with_fuel(crate::bytes::le, 5);
        assert(v@[0] == 50 && v@[1] == 0 && v@[2] == 0 && v@[3] == 0);
        assert(v@[4] == 0 && v@[5] == 0 && v@[6] == 0 && v@[7] == 0);
        assert(v@[8] == 3 && v@[9] == 0 && v@[10] == 0 && v@[11] == 0);
        assert(v@[12] == 2 && v@[13] == 0 && v@[14] == 0 && v@[15] == 0);
        assert(v@[16] == 2 && v@[17] == 0 && v@[18] == 0 && v@[19] == 0);
        assert(v@[20] == 0 && v@[21] == 0 && v@[22] == 0 && v@[23] == 0);
        assert(v@[24] == 40 && v@[25] == 0 && v@[26] == 0 && v@[27] == 0);
        assert(v@[28] == 0 && v@[29] == 2 && v@[30] == 0 && v@[31] == 0);
    }
    v
}

/// The health the answer describes. The log lies at 8 + the
/// ProtocolDataOffset stored at 24; `None` when it does not fit in the
/// buffer or the temperature is 0 (an empty log: not an NVMe disk).
pub open spec fn nvme_health_spec(b: Seq<u8>) -> Option<NvmeHealth> {
    let log = 8 + le32(b, 24);
    if log + 512 > b.len() {
        None
    } else if le16(b, log + 1) == 0 {
        None
    } else {
        Some(
            NvmeHealth {
                temp_c: (le16(b, log + 1) - 273) as i32,
                spare_pct: b[log + 3],
                used_pct: b[log + 5],
                power_on_hours: le64(b, log + 128),
                critical_warning: b[log],
            },
        )
    }
}

/// Reads the NVMe health log out of the answer to `nvme_query`.
pub fn nvme_health_from(buf: &[u8]) -> (r: Option<NvmeHealth>)
    requires
        28 <= buf.len(),
    ensures
        r == nvme_health_spec(buf@),
{
    let data_off = read_u32(buf, 24) as usize;
    if data_off > buf.len() || buf.len() - data_off < 8 + 512 {
        return None;
    }
    let log = 8 + data_off;
    let kelvin = read_u16(buf, log + 1);
    if kelvin == 0 {
        return None;
    }
    Some(
        NvmeHealth {
            temp_c: kelvin as i32 - 273,
            spare_pct: buf[log + 3],
            used_pct: buf[log + 5],
            power_on_hours: read_u64(buf, log + 128),
            critical_warning: buf[log],
        },
    )
}

} // verus!
