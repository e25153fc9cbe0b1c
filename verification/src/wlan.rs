//! Wi-Fi through WlanAPI — READ ONLY.
//!
//! The interfaces, their current connection (SSID, signal, rates) and
//! the networks visible in the system's last scan cache. The WlanAPI
//! calls live outside this crate and hand in what they return; how the
//! records read and how the visible networks are merged and ordered is
//! decided here. A machine without a Wi-Fi adapter gives an empty list
//! — the section says so plainly.

use vstd::prelude::*;

use crate::order::{is_stable_order, key_views, stable_order};
use crate::text::{chars_eq, chars_of, from_utf8_lossy, string_from, utf8_lossy};

verus! {

/// `WLAN_AVAILABLE_NETWORK_CONNECTED`.
pub const NETWORK_CONNECTED: u32 = 1u32;

/// The current connection of one Wi-Fi interface.
#[derive(Debug, Clone, Default, PartialEq, Eq)]
pub struct WifiConnection {
    pub ssid: String,
    /// Signal quality 0–100 as the driver reports it.
    pub signal_pct: u32,
    /// Negotiated rates in Mb/s.
    pub rx_mbps: u32,
    pub tx_mbps: u32,
    pub secured: bool,
}

/// A Wi-Fi interface (a physical card).
#[derive(Debug, Clone, Default, PartialEq, Eq)]
pub struct WifiInterface {
    pub description: String,
    /// The current connection; `None` = the card is there but not connected.
    pub connection: Option<WifiConnection>,
}

/// A network visible in the system's last scan cache.
#[derive(Debug, Clone, Default, PartialEq, Eq)]
pub struct WifiNetwork {
    pub ssid: String,
    pub signal_pct: u32,
    pub secured: bool,
    pub connected: bool,
}

/// The text of a DOT11_SSID: its first `len` bytes (at most 32).
pub open spec fn ssid_spec(bytes: Seq<u8>, len: u32) -> Seq<char> {
    let n = if len < 32 {
        len as int
    } else {
        32
    };
    let m = if n < bytes.len() {
        n
    } else {
        bytes.len() as int
    };
    utf8_lossy(bytes.take(m))
}

/// The SSID of a `DOT11_SSID` (`ucSSID`, `uSSIDLength`).
pub fn ssid_text(bytes: &[u8], len: u32) -> (r: String)
    ensures
        r@ == ssid_spec(bytes@, len),
{
    let n: usize = if len < 32 {
        len as usize
    } else {
        32
    };
    let m = if n < bytes.len() {
        n
    } else {
        bytes.len()
    };
    let part = vstd::slice::slice_subrange(bytes, 0, m);
    assert(part@ =~= bytes@.take(m as int));
    from_utf8_lossy(part)
}

/// The current connection from `WLAN_CONNECTION_ATTRIBUTES`: the rates
/// are reported in kb/s.
pub fn connection_from(ssid: &[u8], ssid_len: u32, signal: u32, rx_rate: u32, tx_rate: u32, secured: bool) -> (c: WifiConnection)
    ensures
        c.ssid@ == ssid_spec(ssid@, ssid_len),
        c.signal_pct == signal,
        c.rx_mbps == rx_rate / 1000,
        c.tx_mbps == tx_rate / 1000,
        c.secured == secured,
{
    WifiConnection {
        ssid: ssid_text(ssid, ssid_len),
        signal_pct: signal,
        rx_mbps: rx_rate / 1000,
        tx_mbps: tx_rate / 1000,
        secured,
    }
}

/// `WifiNetwork` as mathematical values.
pub struct WifiNetworkView {
    pub ssid: Seq<char>,
    pub signal_pct: u32,
    pub secured: bool,
    pub connected: bool,
}

impl View for WifiNetwork {
    type V = WifiNetworkView;

    open spec fn view(&self) -> WifiNetworkView {
        WifiNetworkView {
            ssid: self.ssid@,
            signal_pct: self.signal_pct,
            secured: self.secured,
            connected: self.connected,
        }
    }
}

/// One entry of `WLAN_AVAILABLE_NETWORK_LIST` as read.
#[derive(Debug, Clone, Default)]
pub struct NetworkEntry {
    pub ssid: String,
    pub signal: u32,
    pub secured: bool,
    pub flags: u32,
}

/// The first network with this SSID.
pub open spec fn find_ssid(ns: Seq<WifiNetworkView>, ssid: Seq<char>) -> Option<int>
    decreases ns.len(),
{
    if ns.len() == 0 {
        None
    } else {
        match find_ssid(ns.drop_last(), ssid) {
            Some(i) => Some(i),
            None => if ns.last().ssid == ssid {
                Some(ns.len() - 1)
            } else {
                None
            },
        }
    }
}

/// One entry merged into the list: the same network is often listed more
/// than once (profiles, BSS types) — the strongest signal is kept and it
/// counts as connected when any entry is; entries without an SSID are
/// skipped.
pub open spec fn merge_spec(ns: Seq<WifiNetworkView>, e: NetworkEntry) -> Seq<WifiNetworkView> {
    let connected = e.flags & NETWORK_CONNECTED != 0;
    if e.ssid@.len() == 0 {
        ns
    } else {
        match find_ssid(ns, e.ssid@) {
            Some(i) => ns.update(
                i,
                WifiNetworkView {
                    ssid: ns[i].ssid,
                    signal_pct: if ns[i].signal_pct >= e.signal {
                        ns[i].signal_pct
                    } else {
                        e.signal
                    },
                    secured: ns[i].secured,
                    connected: ns[i].connected || connected,
                },
            ),
            None => ns.push(
                WifiNetworkView { ssid: e.ssid@, signal_pct: e.signal, secured: e.secured, connected },
            ),
        }
    }
}

/// All entries merged, in order.
pub open spec fn merged(entries: Seq<NetworkEntry>) -> Seq<WifiNetworkView>
    decreases entries.len(),
{
    if entries.len() == 0 {
        Seq::empty()
    } else {
        merge_spec(merged(entries.drop_last()), entries.last())
    }
}

pub open spec fn views(v: Seq<WifiNetwork>) -> Seq<WifiNetworkView> {
    v.map_values(|n: WifiNetwork| n@)
}

proof fn lemma_find_ssid(ns: Seq<WifiNetworkView>, ssid: Seq<char>)
    ensures
        match find_ssid(ns, ssid) {
            Some(i) => 0 <= i < ns.len() && ns[i].ssid == ssid && forall|j: int| 0 <= j < i ==> ns[j].ssid != ssid,
            None => forall|j: int| 0 <= j < ns.len() ==> ns[j].ssid != ssid,
        },
    decreases ns.len(),
{
    if ns.len() > 0 {
        let d = ns.drop_last();
        lemma_find_ssid(d, ssid);
        assert forall|j: int| 0 <= j < d.len() implies d[j] == ns[j] by {}
    }
}

/// Merges one visible-network entry into the list.
pub fn merge_network(networks: &mut Vec<WifiNetwork>, e: &NetworkEntry)
    ensures
        views(final(networks)@) == merge_spec(views(old(networks)@), *e),
{
    let connected = e.flags & NETWORK_CONNECTED != 0;
    let ssid = chars_of(e.ssid.as_str());
    if ssid.len() == 0 {
        return;
    }
    let ghost ns = views(networks@);
    proof {
        lemma_find_ssid(ns, e.ssid@);
    }
    let mut i: usize = 0;
    while i < networks.len()
        invariant
            i <= networks@.len(),
            ns == views(networks@),
            ns == views(old(networks)@),
            e.ssid@.len() > 0,
            connected == (e.flags & NETWORK_CONNECTED != 0),
            ssid@ == e.ssid@,
            forall|j: int| 0 <= j < i ==> (#[trigger] networks@[j]).ssid@ != e.ssid@,
        decreases networks@.len() - i,
    {
        if chars_eq(&chars_of(networks[i].ssid.as_str()), &ssid) {
            proof {
                lemma_find_ssid(ns, e.ssid@);
                assert(ns[i as int] == networks@[i as int]@);
                assert(ns[i as int].ssid == e.ssid@);
                match find_ssid(ns, e.ssid@) {
                    Some(k) => {
                        assert(ns[k] == networks@[k]@);
                        if k < i {
                            assert(networks@[k].ssid@ != e.ssid@);
                        }
                        if k > i {
                            assert(ns[i as int].ssid != e.ssid@);
                        }
                    },
                    None => {
                        assert(ns[i as int].ssid != e.ssid@);
                    },
                }
                assert(find_ssid(ns, e.ssid@) == Some(i as int));
            }
            let old_net = &networks[i];
            let updated = WifiNetwork {
                ssid: string_from(&ssid),
                signal_pct: if old_net.signal_pct >= e.signal {
                    old_net.signal_pct
                } else {
                    e.signal
                },
                secured: old_net.secured,
                connected: old_net.connected || connected,
            };
            let ghost uv = updated@;
            let ghost before_set = networks@;
            proof {
                assert(uv == WifiNetworkView {
                    ssid: ns[i as int].ssid,
                    signal_pct: if ns[i as int].signal_pct >= e.signal {
                        ns[i as int].signal_pct
                    } else {
                        e.signal
                    },
                    secured: ns[i as int].secured,
                    connected: ns[i as int].connected || connected,
                });
            }
            networks.set(i, updated);
            proof {
                let m = merge_spec(ns, *e);
                assert(m == ns.update(i as int, uv));
                assert forall|j: int| 0 <= j < networks@.len() implies views(networks@)[j] == m[j] by {
                    if j != i {
                        assert(networks@[j] == before_set[j]);
                    }
                }
                assert(views(networks@) =~= m);
            }
            return;
        }
        i = i + 1;
    }
    proof {
        match find_ssid(ns, e.ssid@) {
            Some(k) => {
                assert(ns[k] == networks@[k]@);
                assert(networks@[k].ssid@ != e.ssid@);
            },
            None => {},
        }
    }
    networks.push(
        WifiNetwork { ssid: string_from(&ssid), signal_pct: e.signal, secured: e.secured, connected },
    );
    assert(views(networks@) =~= merge_spec(ns, *e));
}

/// The sort keys: stronger signal first.
pub open spec fn network_keys(s: Seq<WifiNetworkView>) -> Seq<Seq<u64>> {
    Seq::new(s.len(), |i: int| seq![(u32::MAX - s[i].signal_pct) as u64])
}

/// The visible networks of all entries, one per SSID, strongest signal
/// first; ties keep the order in which they were first seen.
pub fn visible_networks(entries: &[NetworkEntry]) -> (r: Vec<WifiNetwork>)
    ensures
        exists|p: Seq<usize>|
            #[trigger] is_stable_order(network_keys(merged(entries@)), p) && r@.len() == p.len()
                && forall|i: int| 0 <= i < p.len() ==> (#[trigger] r@[i])@ == merged(entries@)[p[i] as int],
{
    let mut nets: Vec<WifiNetwork> = Vec::new();
    let mut i: usize = 0;
    while i < entries.len()
        invariant
            i <= entries.len(),
            views(nets@) == merged(entries@.take(i as int)),
        decreases entries.len() - i,
    {
        proof {
            assert(entries@.take(i as int + 1).drop_last() =~= entries@.take(i as int));
        }
        merge_network(&mut nets, &entries[i]);
        i = i + 1;
    }
    assert(entries@.take(entries@.len() as int) =~= entries@);
    let ghost sv = merged(entries@);
    let mut keys: Vec<Vec<u64>> = Vec::new();
    let mut k: usize = 0;
    while k < nets.len()
        invariant
            k <= nets@.len(),
            views(nets@) == sv,
            keys@.len() == k,
            forall|j: int| 0 <= j < k ==> (#[trigger] keys@[j])@ == network_keys(sv)[j],
        decreases nets@.len() - k,
    {
        let weakness = (u32::MAX - nets[k].signal_pct) as u64;
        let key: Vec<u64> = vec![weakness];
        assert(nets@[k as int]@ == sv[k as int]);
        assert(key@ =~= network_keys(sv)[k as int]);
        keys.push(key);
        k = k + 1;
    }
    assert(key_views(keys@) =~= network_keys(sv));
    let p = stable_order(keys.as_slice());
    let mut out: Vec<WifiNetwork> = Vec::new();
    let mut q: usize = 0;
    while q < p.len()
        invariant
            q <= p@.len(),
            is_stable_order(network_keys(sv), p@),
            views(nets@) == sv,
            out@.len() == q,
            forall|j: int| 0 <= j < q ==> (#[trigger] out@[j])@ == sv[p@[j] as int],
        decreases p@.len() - q,
    {
        let n = &nets[p[q]];
        assert(nets@[p@[q as int] as int]@ == sv[p@[q as int] as int]);
        out.push(
            WifiNetwork {
                ssid: string_from(&chars_of(n.ssid.as_str())),
                signal_pct: n.signal_pct,
                secured: n.secured,
                connected: n.connected,
            },
        );
        q = q + 1;
    }
    assert(is_stable_order(network_keys(merged(entries@)), p@));
    out
}

/// No two merged networks share an SSID, and none has an empty one.
pub open spec fn distinct_ssids(ns: Seq<WifiNetworkView>) -> bool {
    &&& forall|i: int| 0 <= i < ns.len() ==> (#[trigger] ns[i]).ssid.len() > 0
    &&& forall|i: int, j: int| 0 <= i < j < ns.len() ==> (#[trigger] ns[i]).ssid != (#[trigger] ns[j]).ssid
}

/// However many entries repeat a network, the merged list holds each SSID
/// once and never an empty one.
pub proof fn lemma_merged_distinct(entries: Seq<NetworkEntry>)
    ensures
        distinct_ssids(merged(entries)),
    decreases entries.len(),
{
    if entries.len() > 0 {
        lemma_merged_distinct(entries.drop_last());
        let ns = merged(entries.drop_last());
        let e = entries.last();
        lemma_find_ssid(ns, e.ssid@);
        let r = merged(entries);
        assert(r == merge_spec(ns, e));
        if e.ssid@.len() > 0 {
            match find_ssid(ns, e.ssid@) {
                Some(k) => {
                    assert forall|i: int, j: int| 0 <= i < j < r.len() implies (#[trigger] r[i]).ssid != (#[trigger] r[j]).ssid by {
                        assert(r[i].ssid == ns[i].ssid);
                        assert(r[j].ssid == ns[j].ssid);
                    }
                    assert forall|i: int| 0 <= i < r.len() implies (#[trigger] r[i]).ssid.len() > 0 by {
                        assert(r[i].ssid == ns[i].ssid);
                    }
                },
                None => {
                    assert forall|i: int, j: int| 0 <= i < j < r.len() implies (#[trigger] r[i]).ssid != (#[trigger] r[j]).ssid by {
                        if j == ns.len() {
                            assert(r[i] == ns[i]);
                        } else {
                            assert(r[i] == ns[i] && r[j] == ns[j]);
                        }
                    }
                    assert forall|i: int| 0 <= i < r.len() implies (#[trigger] r[i]).ssid.len() > 0 by {
                        if i < ns.len() {
                            assert(r[i] == ns[i]);
                        }
                    }
                },
            }
        }
    }
}

} // verus!
