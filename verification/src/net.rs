//! Total network traffic: cumulative bytes through `GetIfTable2`. The
//! call lives outside this crate; the interface rows are summed here —
//! the per-second rate is the collector's business.

use vstd::prelude::*;

verus! {

/// IANA ifType of the software loopback.
pub const IF_TYPE_SOFTWARE_LOOPBACK: u32 = 24u32;

/// `IfOperStatusUp`.
pub const IF_OPER_STATUS_UP: i32 = 1i32;

/// Cumulative bytes over all physical interfaces (no loopback, none
/// that is not up).
#[derive(Debug, Clone, Copy, Default, PartialEq, Eq)]
pub struct NetTotals {
    pub rx_bytes: u64,
    pub tx_bytes: u64,
}

/// One `MIB_IF_ROW2` as read.
#[derive(Debug, Clone, Copy, Default, PartialEq, Eq)]
pub struct IfRow {
    pub if_type: u32,
    pub oper_status: i32,
    pub in_octets: u64,
    pub out_octets: u64,
}

/// `a + b`, or `u64::MAX` when that does not fit.
pub open spec fn sat_add(a: u64, b: u64) -> u64 {
    if a + b > u64::MAX {
        u64::MAX
    } else {
        (a + b) as u64
    }
}

/// The rows counted: up and not loopback.
pub open spec fn counted(r: IfRow) -> bool {
    r.if_type != IF_TYPE_SOFTWARE_LOOPBACK && r.oper_status == IF_OPER_STATUS_UP
}

/// The totals of the rows, summed in order without overflow.
pub open spec fn totals_spec(rows: Seq<IfRow>) -> NetTotals
    decreases rows.len(),
{
    if rows.len() == 0 {
        NetTotals { rx_bytes: 0, tx_bytes: 0 }
    } else {
        let t = totals_spec(rows.drop_last());
        let r = rows.last();
        if counted(r) {
            NetTotals { rx_bytes: sat_add(t.rx_bytes, r.in_octets), tx_bytes: sat_add(t.tx_bytes, r.out_octets) }
        } else {
            t
        }
    }
}

/// Sums InOctets/OutOctets of all active non-loopback interfaces.
pub fn net_totals(rows: &[IfRow]) -> (r: NetTotals)
    ensures
        r == totals_spec(rows@),
{
    let mut t = NetTotals { rx_bytes: 0, tx_bytes: 0 };
    let mut i: usize = 0;
    while i < rows.len()
        invariant
            i <= rows.len(),
            t == totals_spec(rows@.take(i as int)),
        decreases rows.len() - i,
    {
        proof {
            assert(rows@.take(i as int + 1).drop_last() =~= rows@.take(i as int));
        }
        let r = rows[i];
        if r.if_type != IF_TYPE_SOFTWARE_LOOPBACK && r.oper_status == IF_OPER_STATUS_UP {
            t = NetTotals {
                rx_bytes: t.rx_bytes.saturating_add(r.in_octets),
                tx_bytes: t.tx_bytes.saturating_add(r.out_octets),
            };
        }
        i = i + 1;
    }
    assert(rows@.take(rows@.len() as int) =~= rows@);
    t
}

} // verus!
