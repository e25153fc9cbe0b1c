//! System metrics: total CPU times, per-core times, clocks and memory.
//! The calls (GetSystemTimes, NtQuerySystemInformation,
//! CallNtPowerInformation, GlobalMemoryStatusEx) live outside this crate;
//! their answers are read here.

use vstd::prelude::*;

verus! {

/// Cumulative system times in units of 100 ns (since boot). `kernel`
/// INCLUDES `idle` — busy = (kernel - idle) + user.
#[derive(Debug, Clone, Copy, Default, PartialEq, Eq)]
pub struct SystemTimes {
    pub idle: u64,
    pub kernel: u64,
    pub user: u64,
}

/// Cumulative times of one core (100 ns). `kernel` includes `idle`.
#[derive(Debug, Clone, Copy, Default, PartialEq, Eq)]
pub struct CoreTimes {
    pub idle: u64,
    pub kernel: u64,
    pub user: u64,
}

/// Size of one SYSTEM_PROCESSOR_PERFORMANCE_INFORMATION record.
pub const PROCESSOR_PERF_SIZE: u32 = 48u32;

/// The most cores the per-core query is sized for.
pub const MAX_CORES: usize = 2048usize;

/// How many times the per-core query is tried.
pub const CORE_QUERY_ATTEMPTS: u32 = 6u32;

/// System uptime in seconds from the millisecond tick count.
pub fn system_uptime_s(ticks_ms: u64) -> (r: u64)
    ensures
        r == ticks_ms / 1000,
{
    ticks_ms / 1000
}

/// A FILETIME's two halves as one number.
pub fn filetime_u64(high: u32, low: u32) -> (r: u64)
    ensures
        r == high as int * 0x1_0000_0000 + low as int,
{
    (high as u64) * 0x1_0000_0000 + low as u64
}

/// The system times from the three FILETIMEs (high, low) of
/// `GetSystemTimes`.
pub fn system_times(idle: (u32, u32), kernel: (u32, u32), user: (u32, u32)) -> (r: SystemTimes)
    ensures
        r.idle == idle.0 as int * 0x1_0000_0000 + idle.1 as int,
        r.kernel == kernel.0 as int * 0x1_0000_0000 + kernel.1 as int,
        r.user == user.0 as int * 0x1_0000_0000 + user.1 as int,
{
    SystemTimes {
        idle: filetime_u64(idle.0, idle.1),
        kernel: filetime_u64(kernel.0, kernel.1),
        user: filetime_u64(user.0, user.1),
    }
}

/// The sum of the current clocks.
pub open spec fn clock_sum(cpus: Seq<(u32, u32)>) -> int
    decreases cpus.len(),
{
    if cpus.len() == 0 {
        0
    } else {
        clock_sum(cpus.drop_last()) + cpus.last().0
    }
}

/// The highest maximum clock (0 without processors).
pub open spec fn clock_max(cpus: Seq<(u32, u32)>) -> u32
    decreases cpus.len(),
{
    if cpus.len() == 0 {
        0
    } else {
        let m = clock_max(cpus.drop_last());
        if cpus.last().1 > m {
            cpus.last().1
        } else {
            m
        }
    }
}

proof fn lemma_clock_sum_bound(cpus: Seq<(u32, u32)>)
    ensures
        0 <= clock_sum(cpus) <= cpus.len() * u32::MAX,
    decreases cpus.len(),
{
    if cpus.len() > 0 {
        lemma_clock_sum_bound(cpus.drop_last());
    }
}

/// The CPU clocks (current average MHz, maximum MHz) from the
/// (CurrentMhz, MaxMhz) of each processor.
pub fn cpu_clocks(cpus: &[(u32, u32)]) -> (r: (u32, u32))
    requires
        clock_sum(cpus@) <= u64::MAX,
    ensures
        r.0 == (clock_sum(cpus@) / if cpus@.len() > 0 { cpus@.len() as int } else { 1 }) as u32,
        r.1 == clock_max(cpus@),
{
    let mut sum: u64 = 0;
    let mut max: u32 = 0;
    let mut i: usize = 0;
    while i < cpus.len()
        invariant
            i <= cpus.len(),
            clock_sum(cpus@) <= u64::MAX,
            sum == clock_sum(cpus@.take(i as int)),
            max == clock_max(cpus@.take(i as int)),
        decreases cpus.len() - i,
    {
        proof {
            assert(cpus@.take(i as int + 1).drop_last() =~= cpus@.take(i as int));
            lemma_sum_prefix(cpus@, i as int + 1);
        }
        sum = sum + cpus[i].0 as u64;
        if cpus[i].1 > max {
            max = cpus[i].1;
        }
        i = i + 1;
    }
    assert(cpus@.take(cpus@.len() as int) =~= cpus@);
    let n: u64 = if cpus.len() > 0 {
        cpus.len() as u64
    } else {
        1
    };
    ((sum / n) as u32, max)
}

proof fn lemma_sum_prefix(cpus: Seq<(u32, u32)>, k: int)
    requires
        0 <= k <= cpus.len(),
    ensures
        clock_sum(cpus.take(k)) <= clock_sum(cpus),
    decreases cpus.len() - k,
{
    if k < cpus.len() {
        lemma_sum_prefix(cpus, k + 1);
        assert(cpus.take(k + 1).drop_last() =~= cpus.take(k));
    } else {
        assert(cpus.take(k) =~= cpus);
    }
}

/// The number of cores to size the next per-core query for: twice as
/// many, at most 2048.
pub fn next_core_count(want: usize) -> (r: usize)
    ensures
        r == if 2 * want <= MAX_CORES { 2 * want } else { MAX_CORES as int },
{
    if want <= MAX_CORES / 2 {
        want * 2
    } else {
        MAX_CORES
    }
}

/// A signed counter with negative values read as 0.
pub open spec fn nonneg(v: i64) -> u64 {
    if v < 0 {
        0
    } else {
        v as u64
    }
}

/// The per-core times of the records the kernel filled (`ret_len` bytes
/// of (idle, kernel, user) records).
pub fn core_times(perf: &[(i64, i64, i64)], ret_len: u32) -> (r: Vec<CoreTimes>)
    ensures
        r@.len() == if (ret_len / PROCESSOR_PERF_SIZE) < perf@.len() {
            (ret_len / PROCESSOR_PERF_SIZE) as int
        } else {
            perf@.len() as int
        },
        forall|i: int| 0 <= i < r@.len() ==> #[trigger] r@[i] == (CoreTimes {
            idle: nonneg(perf@[i].0),
            kernel: nonneg(perf@[i].1),
            user: nonneg(perf@[i].2),
        }),
{
    let filled = (ret_len / PROCESSOR_PERF_SIZE) as usize;
    let n = if filled < perf.len() {
        filled
    } else {
        perf.len()
    };
    let mut out: Vec<CoreTimes> = Vec::new();
    let mut i: usize = 0;
    while i < n
        invariant
            i <= n,
            n <= perf.len(),
            out@.len() == i,
            forall|j: int| 0 <= j < i ==> #[trigger] out@[j] == (CoreTimes {
                idle: nonneg(perf@[j].0),
                kernel: nonneg(perf@[j].1),
                user: nonneg(perf@[j].2),
            }),
        decreases n - i,
    {
        let (idle, kernel, user) = perf[i];
        out.push(
            CoreTimes {
                idle: if idle < 0 { 0 } else { idle as u64 },
                kernel: if kernel < 0 { 0 } else { kernel as u64 },
                user: if user < 0 { 0 } else { user as u64 },
            },
        );
        i = i + 1;
    }
    out
}

/// The physical memory (used MB, total MB) from its total and available
/// bytes.
pub fn memory_status_mb(total: u64, avail: u64) -> (r: (u64, u64))
    requires
        avail <= total,
    ensures
        r.0 == (total - avail) / 1048576,
        r.1 == total / 1048576,
{
    ((total - avail) / 1048576, total / 1048576)
}

} // verus!
