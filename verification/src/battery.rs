//! Battery: power state and cell wear.
//!
//! Two sources, each answering another question: `GetSystemPowerStatus`
//! (charge %, on battery or mains, remaining time) and the battery IOCTL
//! through SetupAPI (design vs. actual capacity and cycle count). The
//! calls live outside this crate; what their answers mean is decided
//! here. A desktop without a battery gives `None` — 100 % is never
//! pretended.

use vstd::prelude::*;

verus! {

/// `IOCTL_BATTERY_QUERY_TAG`.
pub const IOCTL_BATTERY_QUERY_TAG: u32 = 0x294040u32;

/// `IOCTL_BATTERY_QUERY_INFORMATION`.
pub const IOCTL_BATTERY_QUERY_INFORMATION: u32 = 0x294044u32;

/// GUID_DEVICE_BATTERY — the interface class of batteries.
pub const GUID_DEVICE_BATTERY: u128 = 0x72631e54_78a4_11d0_bcf7_00aa00b7b32au128;

/// Battery state. `None` for what the device does not report — never a
/// number worked out from nothing.
#[derive(Debug, Clone, Copy, Default, PartialEq, Eq)]
pub struct Battery {
    /// Charge 0–100 %.
    pub percent: Option<u8>,
    /// Is the machine on mains power?
    pub ac_online: bool,
    /// Charging right now?
    pub charging: bool,
    /// Estimated remaining time on battery (s).
    pub remaining_s: Option<u32>,
    /// Design capacity of the cell (mWh).
    pub design_mwh: Option<u32>,
    /// Actual capacity of the fully charged cell today (mWh).
    pub full_mwh: Option<u32>,
    /// Charge cycles, when the firmware reports them.
    pub cycles: Option<u32>,
}

/// `SYSTEM_POWER_STATUS` as read.
#[derive(Debug, Clone, Copy, Default, PartialEq, Eq)]
pub struct PowerStatus {
    pub ac_line_status: u8,
    pub battery_flag: u8,
    pub battery_life_percent: u8,
    pub battery_life_time: u32,
}

/// A reported value, with 0 meaning "not reported".
pub open spec fn nonzero(v: u32) -> Option<u32> {
    if v > 0 {
        Some(v)
    } else {
        None
    }
}

/// The battery state from the power status and, when the battery device
/// answered, its (design, full, cycles). BatteryFlag 128 means no battery.
pub open spec fn battery_spec(st: PowerStatus, wear: Option<(u32, u32, u32)>) -> Option<Battery> {
    if st.battery_flag == 128 {
        None
    } else {
        Some(
            Battery {
                percent: if st.battery_life_percent <= 100 {
                    Some(st.battery_life_percent)
                } else {
                    None
                },
                ac_online: st.ac_line_status == 1,
                charging: st.battery_flag & 8 != 0,
                remaining_s: if st.battery_life_time != u32::MAX {
                    Some(st.battery_life_time)
                } else {
                    None
                },
                design_mwh: match wear {
                    Some(w) => nonzero(w.0),
                    None => None,
                },
                full_mwh: match wear {
                    Some(w) => nonzero(w.1),
                    None => None,
                },
                cycles: match wear {
                    Some(w) => nonzero(w.2),
                    None => None,
                },
            },
        )
    }
}

fn nonzero_of(v: u32) -> (r: Option<u32>)
    ensures
        r == nonzero(v),
{
    if v > 0 {
        Some(v)
    } else {
        None
    }
}

/// The battery state (see `battery_spec`).
pub fn battery(st: PowerStatus, wear: Option<(u32, u32, u32)>) -> (r: Option<Battery>)
    ensures
        r == battery_spec(st, wear),
{
    if st.battery_flag == 128 {
        return None;
    }
    let mut b = Battery {
        percent: if st.battery_life_percent <= 100 {
            Some(st.battery_life_percent)
        } else {
            None
        },
        ac_online: st.ac_line_status == 1,
        charging: st.battery_flag & 8 != 0,
        remaining_s: if st.battery_life_time != u32::MAX {
            Some(st.battery_life_time)
        } else {
            None
        },
        design_mwh: None,
        full_mwh: None,
        cycles: None,
    };
    match wear {
        Some((design, full, cycles)) => {
            b.design_mwh = nonzero_of(design);
            b.full_mwh = nonzero_of(full);
            b.cycles = nonzero_of(cycles);
        },
        None => {},
    }
    Some(b)
}

} // verus!
