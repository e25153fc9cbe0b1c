//! ETW: what the kernel's process and network events say.
//!
//! The realtime session consumes Microsoft-Windows-Kernel-Process
//! (ProcessStart/Stop with the exit code and the true parent PID — no
//! other API gives that) and Microsoft-Windows-Kernel-Network (bytes per
//! PID). Sessions, the consumer thread and the callback live outside this
//! crate; each event record is handed here as its provider, id, version
//! and payload bytes, and this module decides what it means.
//!
//! Network events are not kept one by one: they are summed per PID right
//! away, so the totals hold only what arrived since they were last taken.

use std::collections::HashMap;

use vstd::prelude::*;

use crate::bytes::{le32, read_u32};

verus! {

/// Microsoft-Windows-Kernel-Process.
pub const KERNEL_PROCESS: u128 = 0x22FB2CD6_0E7B_422B_A0C7_2FAD1FD0E716u128;

/// Microsoft-Windows-Kernel-Disk.
pub const KERNEL_DISK: u128 = 0xC7BDE69A_E1E0_4177_B6EF_283AD1525271u128;

/// Microsoft-Windows-Kernel-Network.
pub const KERNEL_NETWORK: u128 = 0x7DD42A49_5329_4832_8DFD_43D979153A88u128;

/// WINEVENT_KEYWORD_PROCESS.
pub const KW_PROCESS: u64 = 0x10u64;

/// KERNEL_NETWORK_KEYWORD_IPV4 | IPV6 — the data events of both families.
pub const KW_NET: u64 = 0x30u64;

/// TRACE_LEVEL_INFORMATION.
pub const LEVEL_INFO: u8 = 4u8;

/// A process event from ETW.
#[derive(Debug, Clone, Copy, PartialEq, Eq)]
pub enum ProcEvent {
    /// A new process: (ts unix, pid, parent pid).
    Start { ts: i64, pid: u32, parent: u32 },
    /// A process ended: (ts unix, pid, exit code).
    Stop { ts: i64, pid: u32, exit_code: u32 },
}

/// What one event record amounts to.
#[derive(Debug, Clone, Copy, PartialEq, Eq)]
pub enum EtwRecord {
    /// Network data of a process: `bytes` received (or sent).
    Net { pid: u32, bytes: u64, received: bool },
    /// A process started or stopped.
    Process(ProcEvent),
    /// Nothing this layer follows.
    Ignored,
}

/// Event ids of TCP/UDP v4/v6 sends in the Kernel-Network manifest.
pub open spec fn is_send_id(id: u16) -> bool {
    id == 10 || id == 26 || id == 42 || id == 58
}

/// Event ids of TCP/UDP v4/v6 receives in the Kernel-Network manifest.
pub open spec fn is_recv_id(id: u16) -> bool {
    id == 11 || id == 27 || id == 43 || id == 59
}

/// Offset of the parent PID in ProcessStart: version 3 and later put the
/// 8-byte ProcessSequenceNumber after the ProcessID.
pub open spec fn start_parent_offset(version: u8) -> int {
    if version >= 3 {
        20
    } else {
        12
    }
}

/// Offset of the exit code in ProcessStop: version 2 and later put the
/// ProcessSequenceNumber after the ProcessID.
pub open spec fn stop_code_offset(version: u8) -> int {
    if version >= 2 {
        28
    } else {
        20
    }
}

/// The meaning of an event record of `provider` with event `id` and
/// `version`, payload `data`, seen at `ts`.
pub open spec fn decode_spec(provider: u128, id: u16, version: u8, data: Seq<u8>, ts: i64) -> EtwRecord {
    if provider == KERNEL_NETWORK {
        if (is_send_id(id) || is_recv_id(id)) && data.len() >= 8 {
            EtwRecord::Net { pid: le32(data, 0), bytes: le32(data, 4) as u64, received: is_recv_id(id) }
        } else {
            EtwRecord::Ignored
        }
    } else if provider != KERNEL_PROCESS {
        EtwRecord::Ignored
    } else if id == 1 && data.len() >= start_parent_offset(version) + 4 {
        EtwRecord::Process(
            ProcEvent::Start {
                ts,
                pid: le32(data, 0),
                parent: le32(data, start_parent_offset(version)),
            },
        )
    } else if id == 2 && data.len() >= stop_code_offset(version) + 4 {
        EtwRecord::Process(
            ProcEvent::Stop {
                ts,
                pid: le32(data, 0),
                exit_code: le32(data, stop_code_offset(version)),
            },
        )
    } else {
        EtwRecord::Ignored
    }
}

/// The Kernel-Network events. The manifest's data events are TCP and
/// UDP over IPv4 and IPv6: sends with ids 10, 26, 42 and 58, receives
/// with ids 11, 27, 43 and 59. Each of them with a payload of at least 8
/// bytes is the traffic of the PID in its first 4 bytes, of the size in
/// the next 4, received or sent by its id; a shorter payload and every
/// other id of the provider count nothing.
pub proof fn lemma_network_events(id: u16, version: u8, data: Seq<u8>, ts: i64)
    ensures
        (id == 11 || id == 27 || id == 43 || id == 59) && data.len() >= 8 ==> decode_spec(
            KERNEL_NETWORK,
            id,
            version,
            data,
            ts,
        ) == (EtwRecord::Net { pid: le32(data, 0), bytes: le32(data, 4) as u64, received: true }),
        (id == 10 || id == 26 || id == 42 || id == 58) && data.len() >= 8 ==> decode_spec(
            KERNEL_NETWORK,
            id,
            version,
            data,
            ts,
        ) == (EtwRecord::Net { pid: le32(data, 0), bytes: le32(data, 4) as u64, received: false }),
        !(id == 10 || id == 11 || id == 26 || id == 27 || id == 42 || id == 43 || id == 58 || id
            == 59) || data.len() < 8 ==> decode_spec(KERNEL_NETWORK, id, version, data, ts)
            == EtwRecord::Ignored,
{
}

/// The Kernel-Process events. ProcessStart (id 1) carries the PID in its
/// first 4 bytes and the parent PID at 12, or at 20 from version 3 on,
/// where the 8-byte ProcessSequenceNumber comes first; ProcessStop (id 2)
/// carries the exit code at 20, or at 28 from version 2 on. A payload
/// too short for its field, and every other id, count nothing.
pub proof fn lemma_process_events(id: u16, version: u8, data: Seq<u8>, ts: i64)
    ensures
        id == 1 && version < 3 && data.len() >= 16 ==> decode_spec(
            KERNEL_PROCESS,
            id,
            version,
            data,
            ts,
        ) == EtwRecord::Process(ProcEvent::Start { ts, pid: le32(data, 0), parent: le32(data, 12) }),
        id == 1 && version >= 3 && data.len() >= 24 ==> decode_spec(
            KERNEL_PROCESS,
            id,
            version,
            data,
            ts,
        ) == EtwRecord::Process(ProcEvent::Start { ts, pid: le32(data, 0), parent: le32(data, 20) }),
        id == 2 && version < 2 && data.len() >= 24 ==> decode_spec(
            KERNEL_PROCESS,
            id,
            version,
            data,
            ts,
        ) == EtwRecord::Process(ProcEvent::Stop { ts, pid: le32(data, 0), exit_code: le32(data, 20) }),
        id == 2 && version >= 2 && data.len() >= 32 ==> decode_spec(
            KERNEL_PROCESS,
            id,
            version,
            data,
            ts,
        ) == EtwRecord::Process(ProcEvent::Stop { ts, pid: le32(data, 0), exit_code: le32(data, 28) }),
        id != 1 && id != 2 ==> decode_spec(KERNEL_PROCESS, id, version, data, ts)
            == EtwRecord::Ignored,
        id == 1 && data.len() < 16 ==> decode_spec(KERNEL_PROCESS, id, version, data, ts)
            == EtwRecord::Ignored,
        id == 2 && data.len() < 24 ==> decode_spec(KERNEL_PROCESS, id, version, data, ts)
            == EtwRecord::Ignored,
{
}

/// Decodes one event record. The payloads are a fixed prefix whose
/// offsets depend on the event version; the image name and the rest
/// lie further on and are not read.
pub fn decode_event(provider: u128, id: u16, version: u8, data: &[u8], ts: i64) -> (r: EtwRecord)
    ensures
        r == decode_spec(provider, id, version, data@, ts),
{
    if provider == KERNEL_NETWORK {
        let sent = id == 10 || id == 26 || id == 42 || id == 58;
        let recv = id == 11 || id == 27 || id == 43 || id == 59;
        if !sent && !recv {
            return EtwRecord::Ignored;
        }
        if data.len() < 8 {
            return EtwRecord::Ignored;
        }
        let pid = read_u32(data, 0);
        let size = read_u32(data, 4) as u64;
        return EtwRecord::Net { pid, bytes: size, received: recv };
    }
    if provider != KERNEL_PROCESS {
        return EtwRecord::Ignored;
    }
    if id == 1 {
        let off: usize = if version >= 3 {
            20
        } else {
            12
        };
        if data.len() >= off + 4 {
            let pid = read_u32(data, 0);
            let parent = read_u32(data, off);
            return EtwRecord::Process(ProcEvent::Start { ts, pid, parent });
        }
    } else if id == 2 {
        let off: usize = if version >= 2 {
            28
        } else {
            20
        };
        if data.len() >= off + 4 {
            let pid = read_u32(data, 0);
            let exit_code = read_u32(data, off);
            return EtwRecord::Process(ProcEvent::Stop { ts, pid, exit_code });
        }
    }
    EtwRecord::Ignored
}

/// The per-PID totals (received, sent) after adding `bytes`.
pub open spec fn add_net_spec(m: Map<u32, (u64, u64)>, pid: u32, bytes: u64, received: bool) -> Map<
    u32,
    (u64, u64),
> {
    let e = if m.contains_key(pid) {
        m[pid]
    } else {
        (0u64, 0u64)
    };
    if received {
        m.insert(pid, ((e.0 + bytes) as u64, e.1))
    } else {
        m.insert(pid, (e.0, (e.1 + bytes) as u64))
    }
}

/// The sum for `pid` stays within `u64`.
pub open spec fn add_net_fits(m: Map<u32, (u64, u64)>, pid: u32, bytes: u64, received: bool) -> bool {
    m.contains_key(pid) ==> if received {
        m[pid].0 + bytes <= u64::MAX
    } else {
        m[pid].1 + bytes <= u64::MAX
    }
}

/// Adds the bytes of one network event to the totals of its process.
pub fn add_net(totals: &mut HashMap<u32, (u64, u64)>, pid: u32, bytes: u64, received: bool)
    requires
        add_net_fits(old(totals)@, pid, bytes, received),
    ensures
        final(totals)@ == add_net_spec(old(totals)@, pid, bytes, received),
{
    proof {
        broadcast use vstd::std_specs::hash::group_hash_axioms;
    }
    let e = match totals.get(&pid) {
        Some(v) => *v,
        None => (0u64, 0u64),
    };
    if received {
        totals.insert(pid, (e.0 + bytes, e.1));
    } else {
        totals.insert(pid, (e.0, e.1 + bytes));
    }
}

/// Whether `add_net` can add these bytes without leaving `u64`.
pub fn net_sum_fits(totals: &HashMap<u32, (u64, u64)>, pid: u32, bytes: u64, received: bool) -> (b: bool)
    ensures
        b == add_net_fits(totals@, pid, bytes, received),
{
    proof {
        broadcast use vstd::std_specs::hash::group_hash_axioms;
    }
    match totals.get(&pid) {
        Some(v) => if received {
            v.0 <= u64::MAX - bytes
        } else {
            v.1 <= u64::MAX - bytes
        },
        None => true,
    }
}

/// Taking the totals leaves none behind: the map holds only what arrived
/// since the last take, and so cannot grow without end.
pub fn take_net(totals: &mut HashMap<u32, (u64, u64)>) -> (r: HashMap<u32, (u64, u64)>)
    ensures
        r@ == old(totals)@,
        final(totals)@ == Map::<u32, (u64, u64)>::empty(),
{
    proof {
        broadcast use vstd::std_specs::hash::group_hash_axioms;
    }
    let mut fresh: HashMap<u32, (u64, u64)> = HashMap::new();
    std::mem::swap(totals, &mut fresh);
    fresh
}


/// The totals restart from nothing after a take: one event added to the
/// emptied totals leaves exactly that event's bytes, under its process.
pub proof fn lemma_totals_restart(pid: u32, bytes: u64, received: bool)
    ensures
        add_net_fits(Map::empty(), pid, bytes, received),
        add_net_spec(Map::empty(), pid, bytes, received) == Map::<u32, (u64, u64)>::empty().insert(
            pid,
            if received {
                (bytes, 0u64)
            } else {
                (0u64, bytes)
            },
        ),
{
}

/// `EVENT_TRACE_FILE_MODE_CIRCULAR`.
pub const EVENT_TRACE_FILE_MODE_CIRCULAR: u32 = 0x0000_0002u32;

/// `EVENT_TRACE_REAL_TIME_MODE`.
pub const EVENT_TRACE_REAL_TIME_MODE: u32 = 0x0000_0100u32;

/// `ERROR_ALREADY_EXISTS`: a session of that name survived a crash.
pub const ERROR_ALREADY_EXISTS: u32 = 183u32;

/// Characters reserved for the session name and for the file name.
pub const MAX_NAME_CHARS: usize = 512usize;

/// How a session writes: its log mode, how often buffers are flushed
/// (s), the ring size (MB, file sessions) and the buffer size (KB).
#[derive(Debug, Clone, Copy, PartialEq, Eq)]
pub struct SessionSettings {
    pub log_file_mode: u32,
    pub flush_timer_s: u32,
    pub maximum_file_size_mb: u32,
    pub buffer_size_kb: u32,
}

/// The settings of a realtime session (no file) or of the black box
/// (circular file).
///
/// Nobody reads the black box while it runs — only after an incident. A
/// one-second flush there would write a half-empty 64 kB buffer per core
/// every second, so its buffers are written when full (60 s). A realtime
/// session delivers within a second and writes nothing to disk.
pub open spec fn settings_spec(to_file: bool) -> SessionSettings {
    if to_file {
        SessionSettings {
            log_file_mode: EVENT_TRACE_FILE_MODE_CIRCULAR,
            flush_timer_s: 60,
            maximum_file_size_mb: 64,
            buffer_size_kb: 64,
        }
    } else {
        SessionSettings {
            log_file_mode: EVENT_TRACE_REAL_TIME_MODE,
            flush_timer_s: 1,
            maximum_file_size_mb: 0,
            buffer_size_kb: 64,
        }
    }
}

/// The settings of a session.
pub fn session_settings(to_file: bool) -> (s: SessionSettings)
    ensures
        s == settings_spec(to_file),
{
    if to_file {
        SessionSettings {
            log_file_mode: EVENT_TRACE_FILE_MODE_CIRCULAR,
            flush_timer_s: 60,
            maximum_file_size_mb: 64,
            buffer_size_kb: 64,
        }
    } else {
        SessionSettings {
            log_file_mode: EVENT_TRACE_REAL_TIME_MODE,
            flush_timer_s: 1,
            maximum_file_size_mb: 0,
            buffer_size_kb: 64,
        }
    }
}

/// Where the session name and the file name lie in the properties buffer
/// after a header of `head` bytes, and the buffer's total size.
pub fn props_layout(head: usize) -> (r: (usize, usize, usize))
    requires
        head <= usize::MAX - 4 * MAX_NAME_CHARS,
    ensures
        r.0 == head,
        r.1 == head + 2 * MAX_NAME_CHARS,
        r.2 == head + 4 * MAX_NAME_CHARS,
{
    (head, head + 2 * MAX_NAME_CHARS, head + 4 * MAX_NAME_CHARS)
}

/// The file name as written into the properties: at most 511 UTF-16
/// units, the rest stays zero.
pub fn file_name_units(path: &str) -> (r: Vec<u16>)
    ensures
        r@ == crate::bytes::utf16_of(path@).take(
            if crate::bytes::utf16_of(path@).len() < MAX_NAME_CHARS - 1 {
                crate::bytes::utf16_of(path@).len() as int
            } else {
                MAX_NAME_CHARS - 1
            },
        ),
{
    let u = crate::bytes::encode_utf16(path);
    let n = if u.len() < MAX_NAME_CHARS - 1 {
        u.len()
    } else {
        MAX_NAME_CHARS - 1
    };
    let mut out: Vec<u16> = Vec::new();
    let mut i: usize = 0;
    while i < n
        invariant
            i <= n,
            n <= u@.len(),
            out@ == u@.take(i as int),
        decreases n - i,
    {
        out.push(u[i]);
        i = i + 1;
        assert(out@ =~= u@.take(i as int));
    }
    out
}

/// The providers of the daemon's realtime session: Kernel-Process
/// (process start/stop) and Kernel-Network (traffic per PID).
pub fn realtime_providers() -> (r: Vec<(u128, u64)>)
    ensures
        r@ == seq![(KERNEL_PROCESS, KW_PROCESS), (KERNEL_NETWORK, KW_NET)],
{
    let r: Vec<(u128, u64)> = vec![(KERNEL_PROCESS, KW_PROCESS), (KERNEL_NETWORK, KW_NET)];
    assert(r@ =~= seq![(KERNEL_PROCESS, KW_PROCESS), (KERNEL_NETWORK, KW_NET)]);
    r
}

/// The providers of the black box: Kernel-Process and Kernel-Disk.
pub fn blackbox_providers() -> (r: Vec<(u128, u64)>)
    ensures
        r@ == seq![(KERNEL_PROCESS, KW_PROCESS), (KERNEL_DISK, 0u64)],
{
    let r: Vec<(u128, u64)> = vec![(KERNEL_PROCESS, KW_PROCESS), (KERNEL_DISK, 0u64)];
    assert(r@ =~= seq![(KERNEL_PROCESS, KW_PROCESS), (KERNEL_DISK, 0u64)]);
    r
}

/// Whether a failed start is retried once after stopping the old session
/// of the same name.
pub fn retry_after_collision(rc: u32, retried: bool) -> (b: bool)
    ensures
        b == (rc == ERROR_ALREADY_EXISTS && !retried),
{
    rc == ERROR_ALREADY_EXISTS && !retried
}

} // verus!
