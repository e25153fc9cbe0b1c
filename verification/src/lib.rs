//! Safe, verified core of a Windows system-information layer.
//!
//! Every function here works on plain values (bytes, strings, integers
//! and the records read from the system); the Win32 calls that produce
//! those values live outside this crate.

use vstd::prelude::*;

pub mod battery;
pub mod bytes;
pub mod caps;
pub mod conns;
pub mod consent;
pub mod cpuinfo;
pub mod devices;
pub mod disk;
pub mod etw;
pub mod evtlog;
pub mod gpu;
pub mod gpubasic;
pub mod gpuproc;
pub mod http;
pub mod icon;
pub mod ipcfg;
pub mod msi;
pub mod msix;
pub mod net;
pub mod order;
pub mod osinfo;
pub mod proc;
pub mod procinfo;
pub mod rdns;
pub mod recycle;
pub mod registry;
pub mod restore;
pub mod rm;
pub mod security;
pub mod services;
pub mod shortcut;
pub mod smart;
pub mod sysinfo;
pub mod sysowner;
pub mod smbios;
pub mod tasksched;
pub mod text;
pub mod thermal;
pub mod trust;
pub mod users;
pub mod usn;
pub mod verinfo;
pub mod volumes;
pub mod wic;
pub mod wlan;

verus! {

/// Errors of the Win32 layer. Every failed call carries its code;
/// nothing fails silently.
#[derive(Debug, Clone, Copy, PartialEq, Eq)]
pub enum Error {
    Win32 { call: &'static str, code: i32 },
}

/// The message of an error: "Win32 volání `{call}` selhalo: {code}".
pub open spec fn error_message(e: Error) -> Seq<char> {
    match e {
        Error::Win32 { call, code } => "Win32 volání `"@ + call@ + "` selhalo: "@
            + text::signed_digits(code as int),
    }
}

impl Error {
    /// What the error says.
    pub fn message(&self) -> (r: String)
        ensures
            r@ == error_message(*self),
    {
        match self {
            Error::Win32 { call, code } => {
                let mut cs = text::chars_of("Win32 volání `");
                text::append_str(&mut cs, call);
                text::append_str(&mut cs, "` selhalo: ");
                text::push_signed(&mut cs, *code as i64);
                text::string_from(&cs)
            },
        }
    }
}

} // verus!
