//! Inventory of all devices through SetupAPI.
//!
//! The same source Device Manager reads: the whole tree of present
//! devices, each with what it reports about itself — name, manufacturer,
//! class, driver and its version. The SetupAPI calls live outside this
//! crate and hand in one row per device; which devices are listed and in
//! what order is decided here.
//!
//! An empty field means "the device does not report it" — nothing is
//! filled in by guesswork. A broken device is recognised by
//! `problem_code`, not by missing data.

use vstd::prelude::*;

use crate::bytes::le64;
use crate::order::{is_stable_order, key_views, stable_order, text_key, text_key_of};
use crate::text::{chars_of, dec_digits, lowercase, push_decimal, strip, string_from, to_lowercase};

verus! {

/// One device of the system tree.
#[derive(Debug, Clone, Default, PartialEq, Eq)]
pub struct Device {
    /// The name as Device Manager shows it (FriendlyName, else the description).
    pub name: String,
    /// The manufacturer as the driver reports it.
    pub manufacturer: String,
    /// The device class ("Display", "Net", "DiskDrive"…).
    pub class: String,
    /// The human description of the class, when Windows has one.
    pub class_desc: String,
    /// The first hardware ID — it holds VID/PID, the real model.
    pub hardware_id: String,
    /// Driver version and date, when the device reports them.
    pub driver_version: String,
    pub driver_date: String,
    /// Problem code from CM_Get_DevNode_Status (0 = runs fine) — exactly
    /// what Device Manager draws an exclamation mark for.
    pub problem_code: u32,
}

impl Device {
    /// Does the device have a problem (missing driver, disabled, conflict)?
    pub fn has_problem(&self) -> (b: bool)
        ensures
            b == (self.problem_code != 0),
    {
        self.problem_code != 0
    }
}

/// What SetupAPI reports of one device, decoded: `problem_code` is `None`
/// when the node status could not be read.
#[derive(Debug, Clone, Default)]
pub struct DeviceRow {
    pub friendly_name: String,
    pub description: String,
    pub manufacturer: String,
    pub class: String,
    pub class_desc: String,
    pub hardware_id: String,
    pub driver_version: String,
    pub driver_date: String,
    pub problem_code: Option<u32>,
}

/// `Device` as mathematical values.
pub struct DeviceView {
    pub name: Seq<char>,
    pub manufacturer: Seq<char>,
    pub class: Seq<char>,
    pub class_desc: Seq<char>,
    pub hardware_id: Seq<char>,
    pub driver_version: Seq<char>,
    pub driver_date: Seq<char>,
    pub problem_code: u32,
}

impl View for Device {
    type V = DeviceView;

    open spec fn view(&self) -> DeviceView {
        DeviceView {
            name: self.name@,
            manufacturer: self.manufacturer@,
            class: self.class@,
            class_desc: self.class_desc@,
            hardware_id: self.hardware_id@,
            driver_version: self.driver_version@,
            driver_date: self.driver_date@,
            problem_code: self.problem_code,
        }
    }
}

/// `DEVPROP_TYPE_FILETIME`.
pub const DEVPROP_TYPE_FILETIME: u32 = 0x10u32;

/// A driver property holds a FILETIME (the driver date) rather than text.
pub fn is_filetime_prop(kind: u32, needed: u32) -> (b: bool)
    ensures
        b == (kind == DEVPROP_TYPE_FILETIME && needed >= 8),
{
    kind == DEVPROP_TYPE_FILETIME && needed >= 8
}

/// The FILETIME of a property buffer: its first 8 bytes, little-endian.
pub fn filetime_of(buf: &[u8]) -> (ft: u64)
    requires
        8 <= buf.len(),
    ensures
        ft == le64(buf@, 0),
{
    crate::bytes::read_u64(buf, 0)
}

/// "D. M. YYYY" — the driver date is only exact to the day.
pub open spec fn date_text_spec(day: u16, month: u16, year: u16) -> Seq<char> {
    dec_digits(day as nat) + ". "@ + dec_digits(month as nat) + ". "@ + dec_digits(year as nat)
}

/// The driver date as text.
pub fn date_text(day: u16, month: u16, year: u16) -> (r: String)
    ensures
        r@ == date_text_spec(day, month, year),
{
    let mut cs: Vec<char> = Vec::new();
    push_decimal(&mut cs, day as u64);
    cs.push('.');
    cs.push(' ');
    push_decimal(&mut cs, month as u64);
    cs.push('.');
    cs.push(' ');
    push_decimal(&mut cs, year as u64);
    proof {
        reveal_strlit(". ");
        assert(cs@ =~= date_text_spec(day, month, year));
    }
    string_from(&cs)
}

/// The registry gives the class GUID in braces; the parser wants it bare.
pub open spec fn bare_guid_spec(s: Seq<char>) -> Seq<char> {
    strip(s, |c: char| c == '{' || c == '}')
}

/// The class GUID without its braces (`trim_matches(['{', '}'])`).
pub fn bare_guid(s: &str) -> (r: String)
    ensures
        r@ == bare_guid_spec(s@),
{
    let cs = chars_of(s);
    let r = crate::text::strip_chars(&cs, '{', '}');
    string_from(&r)
}

/// The device a row describes: named by its FriendlyName, else its
/// description; a device without a name is left out — it is of no use.
pub open spec fn device_spec(r: DeviceRow) -> Option<DeviceView> {
    let name = if r.friendly_name@.len() > 0 {
        r.friendly_name@
    } else {
        r.description@
    };
    if name.len() == 0 {
        None
    } else {
        Some(
            DeviceView {
                name,
                manufacturer: r.manufacturer@,
                class: r.class@,
                class_desc: r.class_desc@,
                hardware_id: r.hardware_id@,
                driver_version: r.driver_version@,
                driver_date: r.driver_date@,
                problem_code: match r.problem_code {
                    Some(p) => p,
                    None => 0u32,
                },
            },
        )
    }
}

fn copy(s: &String) -> (r: String)
    ensures
        r@ == s@,
{
    string_from(&chars_of(s.as_str()))
}

fn device_of(r: &DeviceRow) -> (d: Option<Device>)
    ensures
        match d {
            Some(v) => device_spec(*r) == Some(v@),
            None => device_spec(*r) is None,
        },
{
    let name = if r.friendly_name.unicode_len() > 0 {
        copy(&r.friendly_name)
    } else {
        copy(&r.description)
    };
    if name.unicode_len() == 0 {
        return None;
    }
    Some(
        Device {
            name,
            manufacturer: copy(&r.manufacturer),
            class: copy(&r.class),
            class_desc: copy(&r.class_desc),
            hardware_id: copy(&r.hardware_id),
            driver_version: copy(&r.driver_version),
            driver_date: copy(&r.driver_date),
            problem_code: match r.problem_code {
                Some(p) => p,
                None => 0,
            },
        },
    )
}

/// The devices of the rows, in row order.
pub open spec fn listed_devices(rows: Seq<DeviceRow>) -> Seq<DeviceView>
    decreases rows.len(),
{
    if rows.len() == 0 {
        Seq::empty()
    } else {
        match device_spec(rows.last()) {
            Some(d) => listed_devices(rows.drop_last()).push(d),
            None => listed_devices(rows.drop_last()),
        }
    }
}

/// The sort keys: the class, then the name in lower case.
pub open spec fn device_keys(s: Seq<DeviceView>) -> Seq<Seq<u64>> {
    Seq::new(s.len(), |i: int| text_key(s[i].class) + seq![0u64] + text_key(lowercase(s[i].name)))
}

fn copy_device(d: &Device) -> (r: Device)
    ensures
        r@ == d@,
{
    Device {
        name: copy(&d.name),
        manufacturer: copy(&d.manufacturer),
        class: copy(&d.class),
        class_desc: copy(&d.class_desc),
        hardware_id: copy(&d.hardware_id),
        driver_version: copy(&d.driver_version),
        driver_date: copy(&d.driver_date),
        problem_code: d.problem_code,
    }
}

/// The present devices, sorted by class and then by name without regard
/// to case; ties keep the enumeration order.
pub fn devices(rows: &[DeviceRow]) -> (r: Vec<Device>)
    ensures
        exists|p: Seq<usize>|
            #[trigger] is_stable_order(device_keys(listed_devices(rows@)), p) && r@.len() == p.len()
                && forall|i: int| 0 <= i < p.len() ==> (#[trigger] r@[i])@ == listed_devices(rows@)[p[i] as int],
{
    let mut kept: Vec<Device> = Vec::new();
    let mut i: usize = 0;
    while i < rows.len()
        invariant
            i <= rows.len(),
            kept@.len() == listed_devices(rows@.take(i as int)).len(),
            forall|k: int| 0 <= k < kept@.len() ==> (#[trigger] kept@[k])@ == listed_devices(rows@.take(i as int))[k],
        decreases rows.len() - i,
    {
        proof {
            assert(rows@.take(i as int + 1).drop_last() =~= rows@.take(i as int));
        }
        match device_of(&rows[i]) {
            Some(d) => kept.push(d),
            None => {},
        }
        i = i + 1;
    }
    assert(rows@.take(rows@.len() as int) =~= rows@);
    let ghost sv = listed_devices(rows@);
    let mut keys: Vec<Vec<u64>> = Vec::new();
    let mut k: usize = 0;
    while k < kept.len()
        invariant
            k <= kept@.len(),
            kept@.len() == sv.len(),
            forall|j: int| 0 <= j < kept@.len() ==> (#[trigger] kept@[j])@ == sv[j],
            keys@.len() == k,
            forall|j: int| 0 <= j < k ==> (#[trigger] keys@[j])@ == device_keys(sv)[j],
        decreases kept@.len() - k,
    {
        let mut key = text_key_of(kept[k].class.as_str());
        key.push(0u64);
        let low = to_lowercase(kept[k].name.as_str());
        let mut nk = text_key_of(low.as_str());
        key.append(&mut nk);
        keys.push(key);
        k = k + 1;
    }
    assert(key_views(keys@) =~= device_keys(sv));
    let p = stable_order(keys.as_slice());
    let mut out: Vec<Device> = Vec::new();
    let mut q: usize = 0;
    while q < p.len()
        invariant
            q <= p@.len(),
            is_stable_order(device_keys(sv), p@),
            kept@.len() == sv.len(),
            forall|j: int| 0 <= j < kept@.len() ==> (#[trigger] kept@[j])@ == sv[j],
            out@.len() == q,
            forall|j: int| 0 <= j < q ==> (#[trigger] out@[j])@ == sv[p@[j] as int],
        decreases p@.len() - q,
    {
        out.push(copy_device(&kept[p[q]]));
        q = q + 1;
    }
    assert(is_stable_order(device_keys(listed_devices(rows@)), p@));
    out
}

} // verus!
