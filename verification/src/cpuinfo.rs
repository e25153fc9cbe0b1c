//! Static CPU information: name and base clock from the registry,
//! physical cores and caches from `GetLogicalProcessorInformationEx`.
//! Read once when the service starts; the calls are made elsewhere and
//! their results handed in.

use vstd::prelude::*;

use crate::bytes::{le32, read_u32};

verus! {

/// Static description of the CPU.
#[derive(Debug, Clone, Default)]
pub struct CpuStatic {
    pub name: String,
    pub base_mhz: u32,
    pub physical_cores: u32,
    pub logical_cores: u32,
    /// Cache sizes summed over all cores (as Task Manager shows them), kB.
    pub l1_kb: u32,
    pub l2_kb: u32,
    pub l3_kb: u32,
}

/// Physical cores and L1/L2/L3 cache totals (kB).
#[derive(Debug, Clone, Copy, Default, PartialEq, Eq)]
pub struct CpuTopology {
    pub physical_cores: u32,
    pub l1_kb: u32,
    pub l2_kb: u32,
    pub l3_kb: u32,
}

/// One record added to the totals: a processor core (relationship 0)
/// counts, a cache (relationship 2) adds its size in kB to its level;
/// `None` when a total would leave `u32`.
pub open spec fn topo_add(t: CpuTopology, rel: u32, level: u8, cache_kb: u32) -> Option<CpuTopology> {
    if rel == 0 {
        if t.physical_cores + 1 > u32::MAX {
            None
        } else {
            Some(CpuTopology { physical_cores: (t.physical_cores + 1) as u32, ..t })
        }
    } else if rel == 2 {
        if level == 1 {
            if t.l1_kb + cache_kb > u32::MAX {
                None
            } else {
                Some(CpuTopology { l1_kb: (t.l1_kb + cache_kb) as u32, ..t })
            }
        } else if level == 2 {
            if t.l2_kb + cache_kb > u32::MAX {
                None
            } else {
                Some(CpuTopology { l2_kb: (t.l2_kb + cache_kb) as u32, ..t })
            }
        } else if level == 3 {
            if t.l3_kb + cache_kb > u32::MAX {
                None
            } else {
                Some(CpuTopology { l3_kb: (t.l3_kb + cache_kb) as u32, ..t })
            }
        } else {
            Some(t)
        }
    } else {
        Some(t)
    }
}

/// The totals of the records from `off` on, within the first `len` bytes.
/// Each record starts with its relationship (u32) and size (u32); a cache
/// record holds its level at 8 and its size in bytes at 12. The walk
/// stops at a record of size 0 or one that runs past `len`. `None` marks
/// the inputs on which the reading would leave the buffer `b` or a total
/// would overflow.
pub open spec fn topo_from(b: Seq<u8>, len: int, off: int, t: CpuTopology) -> Option<CpuTopology>
    decreases len - off,
{
    if off < 0 || off + 8 > len {
        Some(t)
    } else if off + 8 > b.len() {
        None
    } else {
        let rel = le32(b, off);
        let size = le32(b, off + 4);
        if size == 0 || off + size > len {
            Some(t)
        } else {
            let step = if rel == 2 {
                if off + 16 > b.len() {
                    None
                } else {
                    topo_add(t, rel, b[off + 8], le32(b, off + 12) / 1024)
                }
            } else {
                topo_add(t, rel, 0, 0)
            };
            match step {
                None => None,
                Some(t2) => topo_from(b, len, off + size, t2),
            }
        }
    }
}

pub open spec fn empty_topology() -> CpuTopology {
    CpuTopology { physical_cores: 0, l1_kb: 0, l2_kb: 0, l3_kb: 0 }
}

/// The topology a `SYSTEM_LOGICAL_PROCESSOR_INFORMATION_EX` buffer
/// (`RelationAll`) describes, from its first `len` bytes; `None` on the
/// inputs where the reading would leave the buffer or a total overflow.
pub fn try_topology(buf: &[u8], len: u32) -> (r: Option<CpuTopology>)
    ensures
        r == topo_from(buf@, len as int, 0, empty_topology()),
{
    let mut t = CpuTopology { physical_cores: 0, l1_kb: 0, l2_kb: 0, l3_kb: 0 };
    let mut off: u64 = 0;
    while off + 8 <= len as u64
        invariant
            off <= len as u64 + 8,
            topo_from(buf@, len as int, 0, empty_topology()) == topo_from(
                buf@,
                len as int,
                off as int,
                t,
            ),
        decreases len - off,
    {
        if off + 8 > buf.len() as u64 {
            return None;
        }
        let o = off as usize;
        let rel = read_u32(buf, o);
        let size = read_u32(buf, o + 4);
        if size == 0 || off + size as u64 > len as u64 {
            return Some(t);
        }
        if rel == 0 {
            if t.physical_cores == u32::MAX {
                return None;
            }
            t = CpuTopology { physical_cores: t.physical_cores + 1, ..t };
        } else if rel == 2 {
            if off + 16 > buf.len() as u64 {
                return None;
            }
            let level = buf[o + 8];
            let kb = read_u32(buf, o + 12) / 1024;
            if level == 1 {
                if t.l1_kb > u32::MAX - kb {
                    return None;
                }
                t = CpuTopology { l1_kb: t.l1_kb + kb, ..t };
            } else if level == 2 {
                if t.l2_kb > u32::MAX - kb {
                    return None;
                }
                t = CpuTopology { l2_kb: t.l2_kb + kb, ..t };
            } else if level == 3 {
                if t.l3_kb > u32::MAX - kb {
                    return None;
                }
                t = CpuTopology { l3_kb: t.l3_kb + kb, ..t };
            }
        }
        off = off + size as u64;
    }
    Some(t)
}

/// The topology `cpu_static` reports for a buffer: what the buffer
/// describes, or nothing when it cannot be read to the end.
pub open spec fn topology_or_empty(b: Seq<u8>, len: u32) -> CpuTopology {
    match topo_from(b, len as int, 0, empty_topology()) {
        Some(t) => t,
        None => empty_topology(),
    }
}

/// Assembles the static CPU description from its sources: the number of
/// logical processors the process may use (1 when unknown), the
/// registry's name and clock, and the processor-information buffer with
/// its length (`None` when the call failed). Missing or unreadable sources
/// degrade to empty values — they never stop the service from starting.
pub fn cpu_static(
    parallelism: Option<usize>,
    name: Option<String>,
    base_mhz: Option<u32>,
    info: Option<(&[u8], u32)>,
) -> (r: CpuStatic)
    ensures
        r.logical_cores == match parallelism {
            Some(n) => n as u32,
            None => 1u32,
        },
        r.name@ == match name {
            Some(n) => n@,
            None => Seq::<char>::empty(),
        },
        r.base_mhz == match base_mhz {
            Some(m) => m,
            None => 0u32,
        },
        (CpuTopology { physical_cores: r.physical_cores, l1_kb: r.l1_kb, l2_kb: r.l2_kb, l3_kb: r.l3_kb })
            == match info {
            Some((b, len)) => topology_or_empty(b@, len),
            None => empty_topology(),
        },
{
    let t = match info {
        Some((b, len)) => match try_topology(b, len) {
            Some(t) => t,
            None => CpuTopology { physical_cores: 0, l1_kb: 0, l2_kb: 0, l3_kb: 0 },
        },
        None => CpuTopology { physical_cores: 0, l1_kb: 0, l2_kb: 0, l3_kb: 0 },
    };
    CpuStatic {
        name: match name {
            Some(n) => n,
            None => String::new(),
        },
        base_mhz: match base_mhz {
            Some(m) => m,
            None => 0,
        },
        physical_cores: t.physical_cores,
        logical_cores: match parallelism {
            Some(n) => n as u32,
            None => 1,
        },
        l1_kb: t.l1_kb,
        l2_kb: t.l2_kb,
        l3_kb: t.l3_kb,
    }
}

} // verus!
