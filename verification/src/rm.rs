//! Restart Manager: who holds a file.
//!
//! The official Windows mechanism — Windows Update uses it too.
//! `RmGetList` returns the holders INCLUDING their classification
//! (`RM_APP_TYPE`), so it is known right away whether a holder is a
//! critical system process, a service or an ordinary windowed app. The
//! session calls live outside this crate; their records are read here.

use vstd::prelude::*;

use crate::bytes::{text_of_units, wide_text};

verus! {

/// `ERROR_MORE_DATA`: the first `RmGetList` call only reports the size.
pub const ERROR_MORE_DATA: u32 = 234u32;

/// How Restart Manager classifies a holder.
#[derive(Debug, Clone, Copy, PartialEq, Eq)]
pub enum HolderKind {
    /// Critical system process — actions must be locked.
    Critical,
    /// A Windows service.
    Service,
    /// An app with a window (can be closed properly).
    Window,
    /// A console app.
    Console,
    /// Explorer — special handling, never end it blindly.
    Explorer,
    Unknown,
}

impl HolderKind {
    /// The kind an `RM_APP_TYPE` value stands for.
    pub open spec fn from_raw_spec(t: u32) -> HolderKind {
        if t == 1 || t == 2 {
            HolderKind::Window
        } else if t == 3 {
            HolderKind::Service
        } else if t == 4 {
            HolderKind::Explorer
        } else if t == 5 {
            HolderKind::Console
        } else if t == 1000 {
            HolderKind::Critical
        } else {
            HolderKind::Unknown
        }
    }

    /// The kind of an `RM_APP_TYPE` value: RmMainWindow and RmOtherWindow
    /// are windows, RmService a service, RmExplorer Explorer, RmConsole a
    /// console app, RmCritical critical.
    pub fn from_raw(t: u32) -> (k: HolderKind)
        ensures
            k == HolderKind::from_raw_spec(t),
    {
        if t == 1 || t == 2 {
            HolderKind::Window
        } else if t == 3 {
            HolderKind::Service
        } else if t == 4 {
            HolderKind::Explorer
        } else if t == 5 {
            HolderKind::Console
        } else if t == 1000 {
            HolderKind::Critical
        } else {
            HolderKind::Unknown
        }
    }

    /// The kind's name.
    pub open spec fn name(self) -> Seq<char> {
        match self {
            HolderKind::Critical => "critical"@,
            HolderKind::Service => "service"@,
            HolderKind::Window => "window"@,
            HolderKind::Console => "console"@,
            HolderKind::Explorer => "explorer"@,
            HolderKind::Unknown => "unknown"@,
        }
    }

    /// The kind's name.
    pub fn as_str(&self) -> (r: &'static str)
        ensures
            r@ == self.name(),
    {
        match self {
            HolderKind::Critical => "critical",
            HolderKind::Service => "service",
            HolderKind::Window => "window",
            HolderKind::Console => "console",
            HolderKind::Explorer => "explorer",
            HolderKind::Unknown => "unknown",
        }
    }
}

/// One process that holds the file.
#[derive(Debug, Clone)]
pub struct Holder {
    pub pid: u32,
    /// The app name as Restart Manager reports it.
    pub name: String,
    pub kind: HolderKind,
    /// The service name (only when it is a service).
    pub service: Option<String>,
}

/// One `RM_PROCESS_INFO` as read: the pid, the `strAppName` and
/// `strServiceShortName` buffers and the `ApplicationType`.
#[derive(Debug, Clone, Default)]
pub struct RmProcessInfo {
    pub pid: u32,
    pub app_name: Vec<u16>,
    pub service_short_name: Vec<u16>,
    pub app_type: u32,
}

/// `Holder` as mathematical values.
pub struct HolderView {
    pub pid: u32,
    pub name: Seq<char>,
    pub kind: HolderKind,
    pub service: Option<Seq<char>>,
}

impl View for Holder {
    type V = HolderView;

    open spec fn view(&self) -> HolderView {
        HolderView {
            pid: self.pid,
            name: self.name@,
            kind: self.kind,
            service: match self.service {
                Some(s) => Some(s@),
                None => None,
            },
        }
    }
}

/// The holder one record describes; an empty service name means none.
pub open spec fn holder_spec(i: RmProcessInfo) -> HolderView {
    let service = wide_text(i.service_short_name@);
    HolderView {
        pid: i.pid,
        name: wide_text(i.app_name@),
        kind: HolderKind::from_raw_spec(i.app_type),
        service: if service.len() == 0 {
            None
        } else {
            Some(service)
        },
    }
}

/// The holder one `RM_PROCESS_INFO` describes.
pub fn holder_from(info: &RmProcessInfo) -> (h: Holder)
    ensures
        h@ == holder_spec(*info),
{
    let service = text_of_units(info.service_short_name.as_slice());
    Holder {
        pid: info.pid,
        name: text_of_units(info.app_name.as_slice()),
        kind: HolderKind::from_raw(info.app_type),
        service: if service.unicode_len() == 0 {
            None
        } else {
            Some(service)
        },
    }
}

/// The holders of the first `count` records.
pub fn holders_from(infos: &[RmProcessInfo], count: u32) -> (r: Vec<Holder>)
    ensures
        r@.len() == if count < infos@.len() {
            count as int
        } else {
            infos@.len() as int
        },
        forall|i: int| 0 <= i < r@.len() ==> (#[trigger] r@[i])@ == holder_spec(infos@[i]),
{
    let n = if (count as usize) < infos.len() {
        count as usize
    } else {
        infos.len()
    };
    let mut out: Vec<Holder> = Vec::new();
    let mut i: usize = 0;
    while i < n
        invariant
            i <= n,
            n <= infos.len(),
            out@.len() == i,
            forall|j: int| 0 <= j < i ==> (#[trigger] out@[j])@ == holder_spec(infos@[j]),
        decreases n - i,
    {
        out.push(holder_from(&infos[i]));
        i = i + 1;
    }
    out
}

/// Whether the first `RmGetList` answer lets the listing go on: success,
/// or `ERROR_MORE_DATA` asking for a buffer.
pub fn list_status_ok(rc: u32) -> (b: bool)
    ensures
        b == (rc == 0 || rc == ERROR_MORE_DATA),
{
    rc == 0 || rc == ERROR_MORE_DATA
}

} // verus!
