//! Windows services: the automatically starting ones, and switching the
//! start type (auto ↔ manual — NEVER deleting a service).
//!
//! The service manager calls and the registry reads live outside this
//! crate; they hand in one row per service. Which services are shown, and
//! in what order, is decided here.

use vstd::prelude::*;

use crate::order::{is_stable_order, key_views, stable_order, text_key, text_key_of};
use crate::text::{chars_of, lowercase, string_from, to_lowercase};

verus! {

/// `SERVICE_AUTO_START`.
pub const SERVICE_AUTO_START: u32 = 2u32;

/// `SERVICE_DEMAND_START`.
pub const SERVICE_DEMAND_START: u32 = 3u32;

/// `SERVICE_RUNNING`.
pub const SERVICE_RUNNING: u32 = 4u32;

/// One service that starts with the system (or was switched to manual).
#[derive(Debug, Clone)]
pub struct AutoService {
    pub name: String,
    pub display_name: String,
    /// Running right now? (SERVICE_RUNNING = 4)
    pub running: bool,
    /// Automatic start (otherwise it is already switched to manual).
    pub auto_start: bool,
}

/// One `ENUM_SERVICE_STATUS_PROCESSW` entry as read, with the `Start`
/// value of its registry key (`None` when unreadable) and its display
/// name (`None` when it could not be converted).
#[derive(Debug, Clone, Default)]
pub struct ServiceRow {
    pub name: String,
    pub display_name: Option<String>,
    pub current_state: u32,
    pub start: Option<u64>,
}

/// `AutoService` as mathematical values.
pub struct AutoServiceView {
    pub name: Seq<char>,
    pub display_name: Seq<char>,
    pub running: bool,
    pub auto_start: bool,
}

impl View for AutoService {
    type V = AutoServiceView;

    open spec fn view(&self) -> AutoServiceView {
        AutoServiceView {
            name: self.name@,
            display_name: self.display_name@,
            running: self.running,
            auto_start: self.auto_start,
        }
    }
}

/// The service a row describes: only named services with start type 2
/// (automatic) or 3 (manual) — disabled services and boot/system
/// drivers are not shown. The display name falls back to the name.
pub open spec fn service_spec(r: ServiceRow) -> Option<AutoServiceView> {
    let auto = r.start == Some(2u64);
    if r.name@.len() == 0 || (!auto && r.start != Some(3u64)) {
        None
    } else {
        Some(
            AutoServiceView {
                name: r.name@,
                display_name: match r.display_name {
                    Some(d) => d@,
                    None => r.name@,
                },
                running: r.current_state == SERVICE_RUNNING,
                auto_start: auto,
            },
        )
    }
}

/// The services of the rows that are shown, in row order.
pub open spec fn shown_services(rows: Seq<ServiceRow>) -> Seq<AutoServiceView>
    decreases rows.len(),
{
    if rows.len() == 0 {
        Seq::empty()
    } else {
        match service_spec(rows.last()) {
            Some(s) => shown_services(rows.drop_last()).push(s),
            None => shown_services(rows.drop_last()),
        }
    }
}

/// The sort keys: the display name in lower case.
pub open spec fn service_keys(s: Seq<AutoServiceView>) -> Seq<Seq<u64>> {
    Seq::new(s.len(), |i: int| text_key(lowercase(s[i].display_name)))
}

fn service_of(r: &ServiceRow) -> (s: Option<AutoService>)
    ensures
        match s {
            Some(v) => service_spec(*r) == Some(v@),
            None => service_spec(*r) is None,
        },
{
    let auto = r.start == Some(2u64);
    if r.name.unicode_len() == 0 || (!auto && r.start != Some(3u64)) {
        return None;
    }
    let name = string_from(&chars_of(r.name.as_str()));
    Some(
        AutoService {
            display_name: match &r.display_name {
                Some(d) => string_from(&chars_of(d.as_str())),
                None => string_from(&chars_of(r.name.as_str())),
            },
            running: r.current_state == SERVICE_RUNNING,
            auto_start: auto,
            name,
        },
    )
}

/// The automatically (or manually) starting services, sorted by display
/// name without regard to case; ties keep the system's order.
pub fn auto_services(rows: &[ServiceRow]) -> (r: Vec<AutoService>)
    ensures
        exists|p: Seq<usize>|
            #[trigger] is_stable_order(service_keys(shown_services(rows@)), p) && r@.len() == p.len()
                && forall|i: int| 0 <= i < p.len() ==> (#[trigger] r@[i])@ == shown_services(rows@)[p[i] as int],
{
    let mut kept: Vec<AutoService> = Vec::new();
    let mut i: usize = 0;
    while i < rows.len()
        invariant
            i <= rows.len(),
            kept@.len() == shown_services(rows@.take(i as int)).len(),
            forall|k: int| 0 <= k < kept@.len() ==> (#[trigger] kept@[k])@ == shown_services(rows@.take(i as int))[k],
        decreases rows.len() - i,
    {
        proof {
            assert(rows@.take(i as int + 1).drop_last() =~= rows@.take(i as int));
        }
        match service_of(&rows[i]) {
            Some(s) => kept.push(s),
            None => {},
        }
        i = i + 1;
    }
    assert(rows@.take(rows@.len() as int) =~= rows@);
    let ghost sv = shown_services(rows@);
    let mut keys: Vec<Vec<u64>> = Vec::new();
    let mut k: usize = 0;
    while k < kept.len()
        invariant
            k <= kept@.len(),
            kept@.len() == sv.len(),
            forall|j: int| 0 <= j < kept@.len() ==> (#[trigger] kept@[j])@ == sv[j],
            keys@.len() == k,
            forall|j: int| 0 <= j < k ==> (#[trigger] keys@[j])@ == service_keys(sv)[j],
        decreases kept@.len() - k,
    {
        let low = to_lowercase(kept[k].display_name.as_str());
        keys.push(text_key_of(low.as_str()));
        k = k + 1;
    }
    assert(key_views(keys@) =~= service_keys(sv));
    let p = stable_order(keys.as_slice());
    let mut out: Vec<AutoService> = Vec::new();
    let mut q: usize = 0;
    while q < p.len()
        invariant
            q <= p@.len(),
            is_stable_order(service_keys(sv), p@),
            kept@.len() == sv.len(),
            forall|j: int| 0 <= j < kept@.len() ==> (#[trigger] kept@[j])@ == sv[j],
            out@.len() == q,
            forall|j: int| 0 <= j < q ==> (#[trigger] out@[j])@ == sv[p@[j] as int],
        decreases p@.len() - q,
    {
        let s = &kept[p[q]];
        out.push(
            AutoService {
                name: string_from(&chars_of(s.name.as_str())),
                display_name: string_from(&chars_of(s.display_name.as_str())),
                running: s.running,
                auto_start: s.auto_start,
            },
        );
        q = q + 1;
    }
    assert(is_stable_order(service_keys(shown_services(rows@)), p@));
    out
}

/// The start type a switch asks for: automatic or manual (demand).
pub fn start_type_for(auto: bool) -> (t: u32)
    ensures
        t == if auto {
            SERVICE_AUTO_START
        } else {
            SERVICE_DEMAND_START
        },
{
    if auto {
        SERVICE_AUTO_START
    } else {
        SERVICE_DEMAND_START
    }
}

} // verus!
