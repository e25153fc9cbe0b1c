//! Snapshot of all processes from `NtQuerySystemInformation(SystemProcessInformation)`.
//! One call returns every process in one buffer; the buffer is allocated
//! once and grown only on `STATUS_INFO_LENGTH_MISMATCH`.
//!
//! The API is undocumented, so every step of the walk through the buffer
//! is checked against the length the kernel reported: a bad offset ends
//! the read with an error, never with a read outside the buffer.
//!
//! The call itself is made elsewhere; this module decides how the buffer
//! grows between attempts and reads the records out of the bytes.

use vstd::prelude::*;

use crate::bytes::{le, le16, le32, le64, lei64, read_i64, read_u16, read_u32, read_u64};
use crate::text::{chars_of, from_utf16_lossy, string_from, utf16_lossy};
use crate::Error;

verus! {

/// The buffer size a snapshot starts from: 512 KiB.
pub const INITIAL_BUFFER: usize = 524288usize;

/// Above this the kernel is not describing processes but a fault: 64 MiB.
pub const MAX_BUFFER: usize = 67108864usize;

/// Room added to what the kernel asked for, since processes come and go
/// between two attempts: 128 KiB.
pub const GROWTH_SLACK: usize = 131072usize;

/// `STATUS_INFO_LENGTH_MISMATCH` (0xC0000004).
pub const STATUS_INFO_LENGTH_MISMATCH: i32 = -1073741820i32;

/// Size of one `SYSTEM_PROCESS_INFORMATION` record on x64.
pub const ENTRY_SIZE: usize = 256usize;

/// Raw data of one process from the snapshot (no derived values such as
/// CPU %).
#[derive(Debug, Clone)]
pub struct RawProc {
    pub pid: u32,
    pub parent_pid: u32,
    pub name: String,
    /// Cumulative CPU time (kernel + user) in units of 100 ns.
    pub cpu_time_100ns: u64,
    /// Creation time (FILETIME) — with the PID an identity that survives
    /// PID reuse.
    pub create_time: i64,
    /// The whole working set, including pages shared with other processes.
    pub ws_bytes: u64,
    /// The private part of the working set — what Task Manager shows as
    /// "Memory", and the only part that may be summed over processes.
    pub ws_priv_bytes: u64,
    /// Private committed memory.
    pub priv_bytes: u64,
    pub threads: u32,
    pub session_id: u32,
    pub hard_faults: u32,
    pub handles: u32,
    /// Cumulative bytes transferred by I/O reads and writes.
    pub io_read_bytes: u64,
    pub io_write_bytes: u64,
}

/// `RawProc` as mathematical values.
pub struct RawProcView {
    pub pid: u32,
    pub parent_pid: u32,
    pub name: Seq<char>,
    pub cpu_time_100ns: u64,
    pub create_time: i64,
    pub ws_bytes: u64,
    pub ws_priv_bytes: u64,
    pub priv_bytes: u64,
    pub threads: u32,
    pub session_id: u32,
    pub hard_faults: u32,
    pub handles: u32,
    pub io_read_bytes: u64,
    pub io_write_bytes: u64,
}

impl View for RawProc {
    type V = RawProcView;

    open spec fn view(&self) -> RawProcView {
        RawProcView {
            pid: self.pid,
            parent_pid: self.parent_pid,
            name: self.name@,
            cpu_time_100ns: self.cpu_time_100ns,
            create_time: self.create_time,
            ws_bytes: self.ws_bytes,
            ws_priv_bytes: self.ws_priv_bytes,
            priv_bytes: self.priv_bytes,
            threads: self.threads,
            session_id: self.session_id,
            hard_faults: self.hard_faults,
            handles: self.handles,
            io_read_bytes: self.io_read_bytes,
            io_write_bytes: self.io_write_bytes,
        }
    }
}

/// Twice `n`, or `usize::MAX` when that does not fit.
pub open spec fn saturating_double(n: usize) -> int {
    if 2 * n <= usize::MAX {
        2 * n
    } else {
        usize::MAX as int
    }
}

/// The next buffer size: what the kernel asked for plus slack, and at
/// least twice the current size. Growing only to the reported need would
/// let one new process between two attempts keep the loop going forever
/// in small steps.
pub open spec fn grown_len_spec(need: int, current: usize) -> int {
    let a = need + GROWTH_SLACK;
    let b = saturating_double(current);
    if a >= b {
        a
    } else {
        b
    }
}

/// The next buffer size after the kernel asked for `need` bytes.
pub fn grown_len(need: usize, current: usize) -> (r: usize)
    requires
        need <= usize::MAX - GROWTH_SLACK,
    ensures
        r == grown_len_spec(need as int, current),
{
    let a = need + GROWTH_SLACK;
    let b = if current > usize::MAX / 2 {
        usize::MAX
    } else {
        current * 2
    };
    if a >= b {
        a
    } else {
        b
    }
}

/// The buffer always grows when the kernel asks for more, and it then
/// holds what was asked for.
pub proof fn lemma_buffer_grows(need: usize, current: usize)
    requires
        need <= usize::MAX - GROWTH_SLACK,
        current < usize::MAX,
    ensures
        grown_len_spec(need as int, current) > current,
        grown_len_spec(need as int, current) >= need,
{
}

/// The size the buffer starts a snapshot with: at least the initial
/// size, and otherwise the size it already has.
pub open spec fn initial_len_spec(current: usize) -> usize {
    if current < INITIAL_BUFFER {
        INITIAL_BUFFER
    } else {
        current
    }
}

/// The size the buffer starts a snapshot with.
pub fn initial_len(current: usize) -> (r: usize)
    ensures
        r == initial_len_spec(current),
{
    if current < INITIAL_BUFFER {
        INITIAL_BUFFER
    } else {
        current
    }
}

/// What to do after one query of the process list.
#[derive(Debug, Clone, Copy, PartialEq, Eq)]
pub enum QueryStep {
    /// The buffer holds this many bytes of records.
    Filled(usize),
    /// Resize the buffer to this many bytes and ask again.
    Grow(usize),
    /// Give up with this error.
    Fail(Error),
}

/// The decision after a query that returned `status` with `ret_len`
/// bytes needed, on a buffer of `buf_len` bytes.
pub open spec fn query_step_spec(status: i32, ret_len: u32, buf_len: usize) -> QueryStep {
    if status == 0 {
        QueryStep::Filled(ret_len as usize)
    } else if status == STATUS_INFO_LENGTH_MISMATCH {
        let want = grown_len_spec(ret_len as int, buf_len);
        if want > MAX_BUFFER {
            QueryStep::Fail(
                Error::Win32 {
                    call: "NtQuerySystemInformation(SystemProcessInformation) — buffer přes 64 MB",
                    code: STATUS_INFO_LENGTH_MISMATCH,
                },
            )
        } else {
            QueryStep::Grow(want as usize)
        }
    } else {
        QueryStep::Fail(
            Error::Win32 { call: "NtQuerySystemInformation(SystemProcessInformation)", code: status },
        )
    }
}

/// Decides what follows one query: done, grow and retry, or fail.
pub fn query_step(status: i32, ret_len: u32, buf_len: usize) -> (r: QueryStep)
    ensures
        r == query_step_spec(status, ret_len, buf_len),
{
    if status == 0 {
        QueryStep::Filled(ret_len as usize)
    } else if status == STATUS_INFO_LENGTH_MISMATCH {
        let a = ret_len as u64 + GROWTH_SLACK as u64;
        let b = if buf_len > usize::MAX / 2 {
            usize::MAX as u64
        } else {
            buf_len as u64 * 2
        };
        let want = if a >= b {
            a
        } else {
            b
        };
        if want > MAX_BUFFER as u64 {
            QueryStep::Fail(
                Error::Win32 {
                    call: "NtQuerySystemInformation(SystemProcessInformation) — buffer přes 64 MB",
                    code: STATUS_INFO_LENGTH_MISMATCH,
                },
            )
        } else {
            QueryStep::Grow(want as usize)
        }
    } else {
        QueryStep::Fail(
            Error::Win32 { call: "NtQuerySystemInformation(SystemProcessInformation)", code: status },
        )
    }
}

/// Repeated snapshots reuse the buffer: a buffer that already has the
/// initial size keeps its size when a snapshot starts, and a query that
/// succeeds never resizes it.
pub proof fn lemma_buffer_reused(current: usize, ret_len: u32)
    ensures
        initial_len_spec(initial_len_spec(current)) == initial_len_spec(current),
        current >= INITIAL_BUFFER ==> initial_len_spec(current) == current,
        query_step_spec(0, ret_len, current) == QueryStep::Filled(ret_len as usize),
{
}

/// Why a walk through the records stopped early.
#[derive(Debug, Clone, Copy, PartialEq, Eq)]
pub enum WalkFault {
    /// A record (or the name it points to) does not lie in the buffer.
    Outside,
    /// The offset of the next record leaves the filled part.
    BadNext,
}

/// The error a fault is reported as.
pub open spec fn fault_error_spec(f: WalkFault) -> Error {
    match f {
        WalkFault::Outside => Error::Win32 {
            call: "SystemProcessInformation walk (offset mimo buffer)",
            code: STATUS_INFO_LENGTH_MISMATCH,
        },
        WalkFault::BadNext => Error::Win32 {
            call: "SystemProcessInformation walk (vadný next_entry_offset)",
            code: STATUS_INFO_LENGTH_MISMATCH,
        },
    }
}

fn fault_error(f: WalkFault) -> (e: Error)
    ensures
        e == fault_error_spec(f),
{
    match f {
        WalkFault::Outside => Error::Win32 {
            call: "SystemProcessInformation walk (offset mimo buffer)",
            code: STATUS_INFO_LENGTH_MISMATCH,
        },
        WalkFault::BadNext => Error::Win32 {
            call: "SystemProcessInformation walk (vadný next_entry_offset)",
            code: STATUS_INFO_LENGTH_MISMATCH,
        },
    }
}

/// The `n` UTF-16 code units at `b[off..off + 2n]`.
pub open spec fn units_at(b: Seq<u8>, off: int, n: nat) -> Seq<u16> {
    Seq::new(n, |k: int| le16(b, off + 2 * k))
}

/// The image name of the record at `off`. Its `UNICODE_STRING` holds a
/// byte length (at 56) and an address (at 64) inside the same buffer,
/// whose first byte lies at address `base`. An empty name (the idle
/// process) reads as "System Idle Process"; `None` when the name does
/// not lie inside the buffer.
pub open spec fn entry_name(b: Seq<u8>, off: int, base: u64) -> Option<Seq<char>> {
    let len = le16(b, off + 56);
    let ptr = le64(b, off + 64);
    if ptr == 0 || len == 0 {
        Some("System Idle Process"@)
    } else if ptr < base || (ptr - base) + 2 * (len / 2) > b.len() {
        None
    } else {
        Some(utf16_lossy(units_at(b, ptr - base, (len / 2) as nat)))
    }
}

/// A signed counter with negative values read as 0.
pub open spec fn nonneg(v: i64) -> int {
    if v < 0 {
        0
    } else {
        v as int
    }
}

/// The process the x64 record at `off` describes.
pub open spec fn entry_spec(b: Seq<u8>, off: int, name: Seq<char>) -> RawProcView {
    RawProcView {
        pid: le32(b, off + 80),
        parent_pid: le32(b, off + 88),
        name,
        cpu_time_100ns: (nonneg(lei64(b, off + 48)) + nonneg(lei64(b, off + 40))) as u64,
        create_time: lei64(b, off + 32),
        ws_bytes: le64(b, off + 144),
        ws_priv_bytes: nonneg(lei64(b, off + 8)) as u64,
        priv_bytes: le64(b, off + 200),
        threads: le32(b, off + 4),
        session_id: le32(b, off + 100),
        hard_faults: le32(b, off + 16),
        handles: le32(b, off + 96),
        io_read_bytes: nonneg(lei64(b, off + 232)) as u64,
        io_write_bytes: nonneg(lei64(b, off + 240)) as u64,
    }
}

/// The fields of the x64 `SYSTEM_PROCESS_INFORMATION` record.
pub enum SpiField {
    NextEntryOffset,
    NumberOfThreads,
    WorkingSetPrivateSize,
    HardFaultCount,
    NumberOfThreadsHighWatermark,
    CycleTime,
    CreateTime,
    UserTime,
    KernelTime,
    ImageName,
    BasePriority,
    UniqueProcessId,
    InheritedFromUniqueProcessId,
    HandleCount,
    SessionId,
    UniqueProcessKey,
    PeakVirtualSize,
    VirtualSize,
    PageFaultCount,
    PeakWorkingSetSize,
    WorkingSetSize,
    QuotaPeakPagedPoolUsage,
    QuotaPagedPoolUsage,
    QuotaPeakNonPagedPoolUsage,
    QuotaNonPagedPoolUsage,
    PagefileUsage,
    PeakPagefileUsage,
    PrivatePageCount,
    ReadOperationCount,
    WriteOperationCount,
    OtherOperationCount,
    ReadTransferCount,
    WriteTransferCount,
    OtherTransferCount,
}

/// The number of fields of the record.
pub open spec fn spi_field_count() -> nat {
    34
}

/// The `k`-th field in the order the structure declares them.
pub open spec fn spi_field(k: int) -> Option<SpiField> {
    if k == 0 {
        Some(SpiField::NextEntryOffset)
    } else if k == 1 {
        Some(SpiField::NumberOfThreads)
    } else if k == 2 {
        Some(SpiField::WorkingSetPrivateSize)
    } else if k == 3 {
        Some(SpiField::HardFaultCount)
    } else if k == 4 {
        Some(SpiField::NumberOfThreadsHighWatermark)
    } else if k == 5 {
        Some(SpiField::CycleTime)
    } else if k == 6 {
        Some(SpiField::CreateTime)
    } else if k == 7 {
        Some(SpiField::UserTime)
    } else if k == 8 {
        Some(SpiField::KernelTime)
    } else if k == 9 {
        Some(SpiField::ImageName)
    } else if k == 10 {
        Some(SpiField::BasePriority)
    } else if k == 11 {
        Some(SpiField::UniqueProcessId)
    } else if k == 12 {
        Some(SpiField::InheritedFromUniqueProcessId)
    } else if k == 13 {
        Some(SpiField::HandleCount)
    } else if k == 14 {
        Some(SpiField::SessionId)
    } else if k == 15 {
        Some(SpiField::UniqueProcessKey)
    } else if k == 16 {
        Some(SpiField::PeakVirtualSize)
    } else if k == 17 {
        Some(SpiField::VirtualSize)
    } else if k == 18 {
        Some(SpiField::PageFaultCount)
    } else if k == 19 {
        Some(SpiField::PeakWorkingSetSize)
    } else if k == 20 {
        Some(SpiField::WorkingSetSize)
    } else if k == 21 {
        Some(SpiField::QuotaPeakPagedPoolUsage)
    } else if k == 22 {
        Some(SpiField::QuotaPagedPoolUsage)
    } else if k == 23 {
        Some(SpiField::QuotaPeakNonPagedPoolUsage)
    } else if k == 24 {
        Some(SpiField::QuotaNonPagedPoolUsage)
    } else if k == 25 {
        Some(SpiField::PagefileUsage)
    } else if k == 26 {
        Some(SpiField::PeakPagefileUsage)
    } else if k == 27 {
        Some(SpiField::PrivatePageCount)
    } else if k == 28 {
        Some(SpiField::ReadOperationCount)
    } else if k == 29 {
        Some(SpiField::WriteOperationCount)
    } else if k == 30 {
        Some(SpiField::OtherOperationCount)
    } else if k == 31 {
        Some(SpiField::ReadTransferCount)
    } else if k == 32 {
        Some(SpiField::WriteTransferCount)
    } else if k == 33 {
        Some(SpiField::OtherTransferCount)
    } else {
        None
    }
}

/// The size of a field on x64: `ULONG` and `KPRIORITY` take 4 bytes, a
/// `UNICODE_STRING` 16 (two `USHORT`s, padding, a pointer), the
/// `LARGE_INTEGER`s, `ULONGLONG`s, handles and `SIZE_T`s 8.
pub open spec fn spi_size(f: SpiField) -> int {
    match f {
        SpiField::NextEntryOffset | SpiField::NumberOfThreads | SpiField::HardFaultCount | SpiField::NumberOfThreadsHighWatermark | SpiField::BasePriority | SpiField::HandleCount | SpiField::SessionId | SpiField::PageFaultCount => 4,
        SpiField::ImageName => 16,
        _ => 8,
    }
}

/// The alignment of a field on x64: its size, and 8 for the
/// `UNICODE_STRING`, whose pointer is its widest member.
pub open spec fn spi_align(f: SpiField) -> int {
    if spi_size(f) == 4 {
        4
    } else {
        8
    }
}

/// `n` rounded up to a multiple of `a`, for the alignments a field can
/// have (4 or 8).
pub open spec fn align_up(n: int, a: int) -> int {
    if a == 4 {
        (n + 3) / 4 * 4
    } else {
        (n + 7) / 8 * 8
    }
}

/// Where the first `k` declared fields end, each placed at the next
/// offset its alignment allows (`#[repr(C)]`).
pub open spec fn spi_end(k: nat) -> int
    decreases k,
{
    if k == 0 {
        0
    } else {
        match spi_field(k - 1) {
            Some(f) => align_up(spi_end((k - 1) as nat), spi_align(f)) + spi_size(f),
            None => spi_end((k - 1) as nat),
        }
    }
}

/// The first position at or after `k` of the field `f`.
pub open spec fn position_from(f: SpiField, k: nat) -> int
    decreases spi_field_count() - k,
{
    if k >= spi_field_count() {
        spi_field_count() as int
    } else if spi_field(k as int) == Some(f) {
        k as int
    } else {
        position_from(f, k + 1)
    }
}

/// The position of a field in the declaration.
pub open spec fn spi_position(f: SpiField) -> int {
    position_from(f, 0)
}

/// The offset of a field in the record.
pub open spec fn spi_offset(f: SpiField) -> int {
    align_up(spi_end(spi_position(f) as nat), spi_align(f))
}

proof fn lemma_spi_ends()
    ensures
        spi_end(spi_field_count()) == 256,
        spi_end(0) == 0,
        spi_end(1) == 4,
        spi_end(2) == 8,
        spi_end(3) == 16,
        spi_end(4) == 20,
        spi_end(5) == 24,
        spi_end(6) == 32,
        spi_end(7) == 40,
        spi_end(8) == 48,
        spi_end(9) == 56,
        spi_end(10) == 72,
        spi_end(11) == 76,
        spi_end(12) == 88,
        spi_end(13) == 96,
        spi_end(14) == 100,
        spi_end(15) == 104,
        spi_end(16) == 112,
        spi_end(17) == 120,
        spi_end(18) == 128,
        spi_end(19) == 132,
        spi_end(20) == 144,
        spi_end(21) == 152,
        spi_end(22) == 160,
        spi_end(23) == 168,
        spi_end(24) == 176,
        spi_end(25) == 184,
        spi_end(26) == 192,
        spi_end(27) == 200,
        spi_end(28) == 208,
        spi_end(29) == 216,
        spi_end(30) == 224,
        spi_end(31) == 232,
        spi_end(32) == 240,
        spi_end(33) == 248,
        spi_end(34) == 256,
{
    assert(spi_end(0) == 0);
    assert(spi_end(1) == 4);
    assert(spi_end(2) == 8);
    assert(spi_end(3) == 16);
    assert(spi_end(4) == 20);
    assert(spi_end(5) == 24);
    assert(spi_end(6) == 32);
    assert(spi_end(7) == 40);
    assert(spi_end(8) == 48);
    assert(spi_end(9) == 56);
    assert(spi_end(10) == 72);
    assert(spi_end(11) == 76);
    assert(spi_end(12) == 88);
    assert(spi_end(13) == 96);
    assert(spi_end(14) == 100);
    assert(spi_end(15) == 104);
    assert(spi_end(16) == 112);
    assert(spi_end(17) == 120);
    assert(spi_end(18) == 128);
    assert(spi_end(19) == 132);
    assert(spi_end(20) == 144);
    assert(spi_end(21) == 152);
    assert(spi_end(22) == 160);
    assert(spi_end(23) == 168);
    assert(spi_end(24) == 176);
    assert(spi_end(25) == 184);
    assert(spi_end(26) == 192);
    assert(spi_end(27) == 200);
    assert(spi_end(28) == 208);
    assert(spi_end(29) == 216);
    assert(spi_end(30) == 224);
    assert(spi_end(31) == 232);
    assert(spi_end(32) == 240);
    assert(spi_end(33) == 248);
    assert(spi_end(34) == 256);
}

proof fn lemma_position_from(f: SpiField, j: nat, k: nat)
    requires
        j <= k < spi_field_count(),
        spi_field(k as int) == Some(f),
        forall|m: int| j <= m < k ==> spi_field(m) != Some(f),
    ensures
        position_from(f, j) == k,
    decreases k - j,
{
    if j < k {
        lemma_position_from(f, j + 1, k);
    }
}

proof fn lemma_spi_position(f: SpiField, k: nat)
    requires
        k < spi_field_count(),
        spi_field(k as int) == Some(f),
        forall|m: int| 0 <= m < k ==> spi_field(m) != Some(f),
    ensures
        spi_position(f) == k,
        spi_offset(f) == align_up(spi_end(k), spi_align(f)),
{
    lemma_position_from(f, 0, k);
}

/// The offsets the declaration gives the fields that are read.
proof fn lemma_spi_offsets()
    ensures
        spi_end(spi_field_count()) == 256,
        spi_offset(SpiField::WorkingSetSize) == 144,
        spi_offset(SpiField::WorkingSetPrivateSize) == 8,
        spi_offset(SpiField::PrivatePageCount) == 200,
        spi_offset(SpiField::UniqueProcessId) == 80,
        spi_offset(SpiField::InheritedFromUniqueProcessId) == 88,
        spi_offset(SpiField::KernelTime) == 48,
        spi_offset(SpiField::UserTime) == 40,
        spi_offset(SpiField::CreateTime) == 32,
        spi_offset(SpiField::NumberOfThreads) == 4,
        spi_offset(SpiField::SessionId) == 100,
        spi_offset(SpiField::HardFaultCount) == 16,
        spi_offset(SpiField::HandleCount) == 96,
        spi_offset(SpiField::ReadTransferCount) == 232,
        spi_offset(SpiField::WriteTransferCount) == 240,
        spi_offset(SpiField::NextEntryOffset) == 0,
        spi_offset(SpiField::ImageName) == 56,
{
    lemma_spi_ends();
    lemma_spi_position(SpiField::WorkingSetSize, 20);
    lemma_spi_position(SpiField::WorkingSetPrivateSize, 2);
    lemma_spi_position(SpiField::PrivatePageCount, 27);
    lemma_spi_position(SpiField::UniqueProcessId, 11);
    lemma_spi_position(SpiField::InheritedFromUniqueProcessId, 12);
    lemma_spi_position(SpiField::KernelTime, 8);
    lemma_spi_position(SpiField::UserTime, 7);
    lemma_spi_position(SpiField::CreateTime, 6);
    lemma_spi_position(SpiField::NumberOfThreads, 1);
    lemma_spi_position(SpiField::SessionId, 14);
    lemma_spi_position(SpiField::HardFaultCount, 3);
    lemma_spi_position(SpiField::HandleCount, 13);
    lemma_spi_position(SpiField::ReadTransferCount, 31);
    lemma_spi_position(SpiField::WriteTransferCount, 32);
    lemma_spi_position(SpiField::NextEntryOffset, 0);
    lemma_spi_position(SpiField::ImageName, 9);
}

/// Where each value of a process is read: `WorkingSetSize` (not
/// `PeakWorkingSetSize`) for the working set, `WorkingSetPrivateSize`
/// for its private part, `PrivatePageCount` for the commit, the low half
/// of `UniqueProcessId` and `InheritedFromUniqueProcessId` for the PIDs,
/// `UserTime` plus `KernelTime` for the CPU time, and so on, each at the
/// offset the structure's declaration gives it; and a record takes 256
/// bytes.
pub proof fn lemma_entry_layout(b: Seq<u8>, off: int, name: Seq<char>)
    ensures
        entry_spec(b, off, name).ws_bytes == le64(b, off + spi_offset(SpiField::WorkingSetSize)),
        entry_spec(b, off, name).ws_priv_bytes == nonneg(
            lei64(b, off + spi_offset(SpiField::WorkingSetPrivateSize)),
        ) as u64,
        entry_spec(b, off, name).priv_bytes == le64(b, off + spi_offset(SpiField::PrivatePageCount)),
        entry_spec(b, off, name).pid == le32(b, off + spi_offset(SpiField::UniqueProcessId)),
        entry_spec(b, off, name).parent_pid == le32(
            b,
            off + spi_offset(SpiField::InheritedFromUniqueProcessId),
        ),
        entry_spec(b, off, name).cpu_time_100ns == (nonneg(
            lei64(b, off + spi_offset(SpiField::KernelTime)),
        ) + nonneg(lei64(b, off + spi_offset(SpiField::UserTime)))) as u64,
        entry_spec(b, off, name).create_time == lei64(b, off + spi_offset(SpiField::CreateTime)),
        entry_spec(b, off, name).threads == le32(b, off + spi_offset(SpiField::NumberOfThreads)),
        entry_spec(b, off, name).session_id == le32(b, off + spi_offset(SpiField::SessionId)),
        entry_spec(b, off, name).hard_faults == le32(b, off + spi_offset(SpiField::HardFaultCount)),
        entry_spec(b, off, name).handles == le32(b, off + spi_offset(SpiField::HandleCount)),
        entry_spec(b, off, name).io_read_bytes == nonneg(
            lei64(b, off + spi_offset(SpiField::ReadTransferCount)),
        ) as u64,
        entry_spec(b, off, name).io_write_bytes == nonneg(
            lei64(b, off + spi_offset(SpiField::WriteTransferCount)),
        ) as u64,
        spi_end(spi_field_count()) == ENTRY_SIZE,
        spi_offset(SpiField::NextEntryOffset) == 0,
        spi_offset(SpiField::ImageName) == 56,
{
    lemma_spi_offsets();
}

/// The processes of the records from `off` on, following
/// `NextEntryOffset` (0 ends the list) within the first `filled` bytes.
pub open spec fn walk(b: Seq<u8>, filled: int, base: u64, off: int) -> Result<
    Seq<RawProcView>,
    WalkFault,
>
    decreases filled - off,
{
    if off < 0 || off + ENTRY_SIZE > filled {
        Err(WalkFault::Outside)
    } else {
        match entry_name(b, off, base) {
            None => Err(WalkFault::Outside),
            Some(name) => {
                let p = entry_spec(b, off, name);
                let n = le32(b, off);
                if n == 0 {
                    Ok(seq![p])
                } else if off + n > filled {
                    Err(WalkFault::BadNext)
                } else {
                    match walk(b, filled, base, off + n) {
                        Ok(rest) => Ok(seq![p] + rest),
                        Err(e) => Err(e),
                    }
                }
            },
        }
    }
}

pub open spec fn views(v: Seq<RawProc>) -> Seq<RawProcView> {
    v.map_values(|p: RawProc| p@)
}

/// `pre` in front of a successful walk.
pub open spec fn after(pre: Seq<RawProcView>, r: Result<Seq<RawProcView>, WalkFault>) -> Result<
    Seq<RawProcView>,
    WalkFault,
> {
    match r {
        Ok(s) => Ok(pre + s),
        Err(e) => Err(e),
    }
}

fn nonneg_u64(v: i64) -> (r: u64)
    ensures
        r == nonneg(v),
{
    if v < 0 {
        0
    } else {
        v as u64
    }
}

fn read_name(buf: &[u8], off: usize, base: u64) -> (r: Option<String>)
    requires
        off + ENTRY_SIZE <= buf.len(),
    ensures
        match r {
            Some(s) => entry_name(buf@, off as int, base) == Some(s@),
            None => entry_name(buf@, off as int, base) is None,
        },
{
    let len = read_u16(buf, off + 56);
    let ptr = read_u64(buf, off + 64);
    if ptr == 0 || len == 0 {
        proof {
            reveal_strlit("System Idle Process");
        }
        return Some(string_from(&chars_of("System Idle Process")));
    }
    let n = (len / 2) as usize;
    if ptr < base || ptr - base > buf.len() as u64 || 2 * n > buf.len() - (ptr - base) as usize {
        return None;
    }
    let start = (ptr - base) as usize;
    let mut units: Vec<u16> = Vec::new();
    let mut k: usize = 0;
    while k < n
        invariant
            k <= n,
            start + 2 * n <= buf.len(),
            units@ == units_at(buf@, start as int, n as nat).take(k as int),
        decreases n - k,
    {
        units.push(read_u16(buf, start + 2 * k));
        k = k + 1;
        assert(units@ =~= units_at(buf@, start as int, n as nat).take(k as int));
    }
    assert(units@ =~= units_at(buf@, start as int, n as nat));
    Some(from_utf16_lossy(&units))
}

fn read_entry(buf: &[u8], off: usize, name: String) -> (p: RawProc)
    requires
        off + ENTRY_SIZE <= buf.len(),
    ensures
        p@ == entry_spec(buf@, off as int, name@),
{
    let kernel = nonneg_u64(read_i64(buf, off + 48));
    let user = nonneg_u64(read_i64(buf, off + 40));
    RawProc {
        pid: read_u32(buf, off + 80),
        parent_pid: read_u32(buf, off + 88),
        name,
        cpu_time_100ns: kernel + user,
        create_time: read_i64(buf, off + 32),
        ws_bytes: read_u64(buf, off + 144),
        ws_priv_bytes: nonneg_u64(read_i64(buf, off + 8)),
        priv_bytes: read_u64(buf, off + 200),
        threads: read_u32(buf, off + 4),
        session_id: read_u32(buf, off + 100),
        hard_faults: read_u32(buf, off + 16),
        handles: read_u32(buf, off + 96),
        io_read_bytes: nonneg_u64(read_i64(buf, off + 232)),
        io_write_bytes: nonneg_u64(read_i64(buf, off + 240)),
    }
}

/// Reads the process records out of a filled snapshot buffer whose
/// first byte lies at address `base`.
pub fn parse_processes(buf: &[u8], filled: usize, base: u64) -> (r: Result<Vec<RawProc>, Error>)
    requires
        filled <= buf@.len(),
    ensures
        match walk(buf@, filled as int, base, 0) {
            Ok(s) => r is Ok && views(r->Ok_0@) == s,
            Err(f) => r == Err::<Vec<RawProc>, Error>(fault_error_spec(f)),
        },
{
    let mut procs: Vec<RawProc> = Vec::new();
    let mut off: usize = 0;
    loop
        invariant
            filled <= buf.len(),
            off <= filled,
            walk(buf@, filled as int, base, 0) == after(
                views(procs@),
                walk(buf@, filled as int, base, off as int),
            ),
        decreases filled - off,
    {
        if off > filled || ENTRY_SIZE > filled - off {
            return Err(fault_error(WalkFault::Outside));
        }
        let name = match read_name(buf, off, base) {
            Some(n) => n,
            None => return Err(fault_error(WalkFault::Outside)),
        };
        let p = read_entry(buf, off, name);
        let ghost pv = p@;
        let ghost before = views(procs@);
        procs.push(p);
        assert(views(procs@) =~= before + seq![pv]);
        let n = read_u32(buf, off);
        if n == 0 {
            assert(views(procs@) =~= before + seq![pv]);
            return Ok(procs);
        }
        if n as usize > filled - off {
            return Err(fault_error(WalkFault::BadNext));
        }
        proof {
            let rest = walk(buf@, filled as int, base, off + n);
            match rest {
                Ok(s) => {
                    assert(before + (seq![pv] + s) =~= (before + seq![pv]) + s);
                },
                Err(e) => {},
            }
        }
        off = off + n as usize;
    }
}

} // verus!
