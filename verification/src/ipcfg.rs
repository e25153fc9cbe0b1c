//! Network adapters and their IP configuration.
//!
//! `GetAdaptersAddresses` — the same source as `ipconfig /all`: name,
//! MAC, state, link speed, addresses, gateway, DNS, DHCP. The call and
//! the walk through its linked lists live outside this crate; each
//! adapter is handed in as the values it holds. Read only; this tool
//! does not change network settings.

use vstd::prelude::*;

use crate::bytes::{le16, read_u16};
use crate::conns::IpAddress;
use crate::order::{is_stable_order, key_views, stable_order, text_key, text_key_of};
use crate::text::{chars_of, string_from};

verus! {

/// `AF_INET`.
pub const AF_INET: u16 = 2u16;

/// `AF_INET6`.
pub const AF_INET6: u16 = 23u16;

/// `IP_ADAPTER_DHCP_ENABLED`.
pub const IP_ADAPTER_DHCP_ENABLED: u32 = 0x4u32;

/// How many nodes of one address list are followed at most.
pub const MAX_ADDRESS_NODES: u32 = 64u32;

/// One network adapter as the system sees it.
#[derive(Debug, Clone, Default, PartialEq, Eq)]
pub struct Adapter {
    /// Friendly name ("Ethernet", "Wi-Fi").
    pub name: String,
    /// The hardware description.
    pub description: String,
    /// MAC address "AA:BB:…"; virtual adapters need not have one.
    pub mac: String,
    /// "ethernet" | "wifi" | "loopback" | "virtual" | "other".
    pub kind: &'static str,
    /// Is the link up (OperStatus == Up)?
    pub up: bool,
    /// Link speed in Mb/s (0 = not reported).
    pub link_mbps: u64,
    pub ips: Vec<IpAddress>,
    pub gateways: Vec<IpAddress>,
    pub dns: Vec<IpAddress>,
    pub dhcp: bool,
}

/// One `IP_ADAPTER_ADDRESSES_LH` as read: the address lists hold the raw
/// bytes of each `SOCKET_ADDRESS` (`None` for a null address).
#[derive(Debug, Clone, Default)]
pub struct AdapterRow {
    pub if_type: u32,
    pub friendly_name: String,
    pub description: String,
    pub physical_address: Vec<u8>,
    pub physical_length: u32,
    pub oper_status: i32,
    pub transmit_link_speed: u64,
    pub flags: u32,
    pub unicast: Vec<Option<Vec<u8>>>,
    pub gateways: Vec<Option<Vec<u8>>>,
    pub dns: Vec<Option<Vec<u8>>>,
}

/// Whether the walk through an address list goes on after `visited` nodes.
pub fn address_walk_continues(visited: u32) -> (b: bool)
    ensures
        b == (visited < MAX_ADDRESS_NODES),
{
    visited < MAX_ADDRESS_NODES
}

/// The kind of an adapter by its IANA ifType.
pub open spec fn kind_spec(if_type: u32) -> Seq<char> {
    if if_type == 6 {
        "ethernet"@
    } else if if_type == 71 {
        "wifi"@
    } else if if_type == 24 {
        "loopback"@
    } else if if_type == 131 || if_type == 53 {
        "virtual"@
    } else {
        "other"@
    }
}

/// The kind of an adapter: Ethernet, Wi-Fi, loopback, tunnels and
/// virtual adapters (Teredo, VPN, Hyper-V…), or other.
pub fn adapter_kind(if_type: u32) -> (r: &'static str)
    ensures
        r@ == kind_spec(if_type),
{
    match if_type {
        6 => "ethernet",
        71 => "wifi",
        24 => "loopback",
        131 | 53 => "virtual",
        _ => "other",
    }
}

/// The address a sockaddr holds, by its family; `None` for another
/// family or bytes too short for it.
pub open spec fn sockaddr_spec(b: Seq<u8>) -> Option<IpAddress> {
    if b.len() < 2 {
        None
    } else if le16(b, 0) == AF_INET && b.len() >= 8 {
        Some(IpAddress::V4([b[4], b[5], b[6], b[7]]))
    } else if le16(b, 0) == AF_INET6 && b.len() >= 24 {
        Some(
            IpAddress::V6(
                [
                    b[8],
                    b[9],
                    b[10],
                    b[11],
                    b[12],
                    b[13],
                    b[14],
                    b[15],
                    b[16],
                    b[17],
                    b[18],
                    b[19],
                    b[20],
                    b[21],
                    b[22],
                    b[23],
                ],
            ),
        )
    } else {
        None
    }
}

/// sockaddr → address by family.
pub fn sockaddr_to_ip(b: &[u8]) -> (r: Option<IpAddress>)
    ensures
        r == sockaddr_spec(b@),
{
    if b.len() < 2 {
        return None;
    }
    let family = read_u16(b, 0);
    if family == AF_INET && b.len() >= 8 {
        Some(IpAddress::V4([b[4], b[5], b[6], b[7]]))
    } else if family == AF_INET6 && b.len() >= 24 {
        Some(
            IpAddress::V6(
                [
                    b[8],
                    b[9],
                    b[10],
                    b[11],
                    b[12],
                    b[13],
                    b[14],
                    b[15],
                    b[16],
                    b[17],
                    b[18],
                    b[19],
                    b[20],
                    b[21],
                    b[22],
                    b[23],
                ],
            ),
        )
    } else {
        None
    }
}

/// The addresses of a list, skipping null and unknown ones.
pub open spec fn addresses_spec(list: Seq<Option<Vec<u8>>>) -> Seq<IpAddress>
    decreases list.len(),
{
    if list.len() == 0 {
        Seq::empty()
    } else {
        let rest = addresses_spec(list.drop_last());
        match list.last() {
            Some(b) => match sockaddr_spec(b@) {
                Some(ip) => rest.push(ip),
                None => rest,
            },
            None => rest,
        }
    }
}

/// The addresses of a list of sockaddrs.
pub fn collect_addresses(list: &[Option<Vec<u8>>]) -> (r: Vec<IpAddress>)
    ensures
        r@ == addresses_spec(list@),
{
    let mut out: Vec<IpAddress> = Vec::new();
    let mut i: usize = 0;
    while i < list.len()
        invariant
            i <= list.len(),
            out@ == addresses_spec(list@.take(i as int)),
        decreases list.len() - i,
    {
        proof {
            assert(list@.take(i as int + 1).drop_last() =~= list@.take(i as int));
        }
        match &list[i] {
            Some(b) => match sockaddr_to_ip(b.as_slice()) {
                Some(ip) => out.push(ip),
                None => {},
            },
            None => {},
        }
        i = i + 1;
    }
    assert(list@.take(list@.len() as int) =~= list@);
    out
}

/// The upper-case hexadecimal digit of `d` (0 to 15).
pub open spec fn hex_digit(d: int) -> char {
    if d < 10 {
        (48 + d) as char
    } else {
        (55 + d) as char
    }
}

/// "AA:BB:…": the bytes as two upper-case hex digits each, joined by `:`.
pub open spec fn mac_spec(bytes: Seq<u8>) -> Seq<char>
    decreases bytes.len(),
{
    if bytes.len() == 0 {
        Seq::empty()
    } else {
        let last = bytes.last();
        let pair = seq![hex_digit(last as int / 16), hex_digit(last as int % 16)];
        if bytes.len() == 1 {
            pair
        } else {
            mac_spec(bytes.drop_last()) + seq![':'] + pair
        }
    }
}

fn hex_char(d: u8) -> (c: char)
    requires
        d < 16,
    ensures
        c == hex_digit(d as int),
{
    if d < 10 {
        (48u8 + d) as char
    } else {
        (55u8 + d) as char
    }
}

/// The MAC text of the first `len` (at most 8) bytes of the address.
pub fn mac_text(addr: &[u8], len: u32) -> (r: String)
    ensures
        r@ == mac_spec(
            addr@.take(
                if (len as int) < 8 {
                    if (len as int) < addr@.len() {
                        len as int
                    } else {
                        addr@.len() as int
                    }
                } else if 8 < addr@.len() {
                    8
                } else {
                    addr@.len() as int
                },
            ),
        ),
{
    let n0: usize = if len < 8 {
        len as usize
    } else {
        8
    };
    let n = if n0 < addr.len() {
        n0
    } else {
        addr.len()
    };
    let ghost bytes = addr@.take(n as int);
    let mut cs: Vec<char> = Vec::new();
    let mut i: usize = 0;
    while i < n
        invariant
            i <= n,
            n <= addr.len(),
            bytes == addr@.take(n as int),
            cs@ == mac_spec(bytes.take(i as int)),
        decreases n - i,
    {
        if i > 0 {
            cs.push(':');
        }
        let b = addr[i];
        cs.push(hex_char(b / 16));
        cs.push(hex_char(b % 16));
        proof {
            assert(bytes.take(i as int + 1).drop_last() =~= bytes.take(i as int));
            assert(bytes.take(i as int + 1).last() == b);
            if i == 0 {
                assert(bytes.take(0) =~= Seq::<u8>::empty());
            }
        }
        i = i + 1;
        assert(cs@ =~= mac_spec(bytes.take(i as int)));
    }
    assert(bytes.take(n as int) =~= bytes);
    string_from(&cs)
}

/// `Adapter` as mathematical values.
pub struct AdapterView {
    pub name: Seq<char>,
    pub description: Seq<char>,
    pub mac: Seq<char>,
    pub kind: Seq<char>,
    pub up: bool,
    pub link_mbps: u64,
    pub ips: Seq<IpAddress>,
    pub gateways: Seq<IpAddress>,
    pub dns: Seq<IpAddress>,
    pub dhcp: bool,
}

impl View for Adapter {
    type V = AdapterView;

    open spec fn view(&self) -> AdapterView {
        AdapterView {
            name: self.name@,
            description: self.description@,
            mac: self.mac@,
            kind: self.kind@,
            up: self.up,
            link_mbps: self.link_mbps,
            ips: self.ips@,
            gateways: self.gateways@,
            dns: self.dns@,
            dhcp: self.dhcp,
        }
    }
}

/// The number of MAC bytes shown: the reported length, at most 8 and at
/// most what the buffer holds.
pub open spec fn mac_len(r: AdapterRow) -> int {
    let n = if (r.physical_length as int) < 8 {
        r.physical_length as int
    } else {
        8
    };
    if n < r.physical_address@.len() {
        n
    } else {
        r.physical_address@.len() as int
    }
}

/// The adapter a row describes; loopback adapters (ifType 24) are left out.
pub open spec fn adapter_spec(r: AdapterRow) -> Option<AdapterView> {
    if r.if_type == 24 {
        None
    } else {
        Some(
            AdapterView {
                name: r.friendly_name@,
                description: r.description@,
                mac: mac_spec(r.physical_address@.take(mac_len(r))),
                kind: kind_spec(r.if_type),
                up: r.oper_status == 1,
                link_mbps: if r.transmit_link_speed == u64::MAX {
                    0
                } else {
                    r.transmit_link_speed / 1_000_000
                },
                ips: addresses_spec(r.unicast@),
                gateways: addresses_spec(r.gateways@),
                dns: addresses_spec(r.dns@),
                dhcp: r.flags & IP_ADAPTER_DHCP_ENABLED != 0,
            },
        )
    }
}

fn adapter_of(r: &AdapterRow) -> (a: Option<Adapter>)
    ensures
        match a {
            Some(v) => adapter_spec(*r) == Some(v@),
            None => adapter_spec(*r) is None,
        },
{
    let kind = adapter_kind(r.if_type);
    if r.if_type == 24 {
        return None;
    }
    Some(
        Adapter {
            name: string_from(&chars_of(r.friendly_name.as_str())),
            description: string_from(&chars_of(r.description.as_str())),
            mac: mac_text(r.physical_address.as_slice(), r.physical_length),
            kind,
            up: r.oper_status == 1,
            link_mbps: if r.transmit_link_speed == u64::MAX {
                0
            } else {
                r.transmit_link_speed / 1_000_000
            },
            ips: collect_addresses(r.unicast.as_slice()),
            gateways: collect_addresses(r.gateways.as_slice()),
            dns: collect_addresses(r.dns.as_slice()),
            dhcp: r.flags & IP_ADAPTER_DHCP_ENABLED != 0,
        },
    )
}

/// Active physical adapters first, virtual ones down.
pub open spec fn rank_spec(up: bool, kind: Seq<char>) -> u64 {
    let physical = kind == "ethernet"@ || kind == "wifi"@;
    if up && physical {
        0
    } else if up {
        1
    } else if physical {
        2
    } else {
        3
    }
}

/// The adapters of the rows, in the system's order.
pub open spec fn listed_adapters(rows: Seq<AdapterRow>) -> Seq<AdapterView>
    decreases rows.len(),
{
    if rows.len() == 0 {
        Seq::empty()
    } else {
        match adapter_spec(rows.last()) {
            Some(a) => listed_adapters(rows.drop_last()).push(a),
            None => listed_adapters(rows.drop_last()),
        }
    }
}

/// The sort keys: the rank, then the name.
pub open spec fn adapter_keys(s: Seq<AdapterView>) -> Seq<Seq<u64>> {
    Seq::new(s.len(), |i: int| seq![rank_spec(s[i].up, s[i].kind)] + text_key(s[i].name))
}

fn copy_adapter(a: &Adapter) -> (r: Adapter)
    ensures
        r@ == a@,
{
    Adapter {
        name: string_from(&chars_of(a.name.as_str())),
        description: string_from(&chars_of(a.description.as_str())),
        mac: string_from(&chars_of(a.mac.as_str())),
        kind: a.kind,
        up: a.up,
        link_mbps: a.link_mbps,
        ips: copy_ips(&a.ips),
        gateways: copy_ips(&a.gateways),
        dns: copy_ips(&a.dns),
        dhcp: a.dhcp,
    }
}

fn copy_ips(v: &Vec<IpAddress>) -> (r: Vec<IpAddress>)
    ensures
        r@ == v@,
{
    let mut out: Vec<IpAddress> = Vec::new();
    let mut i: usize = 0;
    while i < v.len()
        invariant
            i <= v.len(),
            out@ == v@.take(i as int),
        decreases v.len() - i,
    {
        out.push(v[i]);
        i = i + 1;
        assert(out@ =~= v@.take(i as int));
    }
    assert(v@.take(v@.len() as int) =~= v@);
    out
}

fn rank_of(up: bool, kind: &str) -> (r: u64)
    ensures
        r == rank_spec(up, kind@),
{
    let k = chars_of(kind);
    let physical = crate::text::chars_eq(&k, &chars_of("ethernet")) || crate::text::chars_eq(
        &k,
        &chars_of("wifi"),
    );
    if up && physical {
        0
    } else if up {
        1
    } else if physical {
        2
    } else {
        3
    }
}

/// An adapter that is up and physical: Ethernet or Wi-Fi.
pub open spec fn active_physical(a: AdapterView) -> bool {
    a.up && (a.kind == "ethernet"@ || a.kind == "wifi"@)
}

/// The rank of an adapter is 0 exactly when it is up and physical
/// (Ethernet or Wi-Fi), at most 1 exactly when it is up, and 2 exactly
/// when it is down and physical.
pub proof fn lemma_rank_classes(up: bool, kind: Seq<char>)
    ensures
        (rank_spec(up, kind) == 0) <==> (up && (kind == "ethernet"@ || kind == "wifi"@)),
        (rank_spec(up, kind) <= 1) <==> up,
        (rank_spec(up, kind) == 2) <==> (!up && (kind == "ethernet"@ || kind == "wifi"@)),
        rank_spec(up, kind) <= 3,
{
}

/// In the order of the adapters, every active physical adapter (Ethernet
/// or Wi-Fi that is up) comes before every other adapter, and every
/// adapter that is up before every one that is down, and among those that
/// are down every physical one before every other, whatever the names.
pub proof fn lemma_adapter_order(s: Seq<AdapterView>, p: Seq<usize>)
    requires
        is_stable_order(adapter_keys(s), p),
    ensures
        forall|i: int, j: int|
            0 <= i < j < p.len() && active_physical(#[trigger] s[p[j] as int]) ==> active_physical(
                #[trigger] s[p[i] as int],
            ),
        forall|i: int, j: int|
            0 <= i < j < p.len() && (#[trigger] s[p[j] as int]).up ==> (#[trigger] s[p[i] as int]).up,
        forall|i: int, j: int|
            0 <= i < j < p.len() && !(#[trigger] s[p[i] as int]).up && (s[p[j] as int].kind
                == "ethernet"@ || s[p[j] as int].kind == "wifi"@) ==> (#[trigger] s[p[j] as int]).up
                || s[p[i] as int].kind == "ethernet"@ || s[p[i] as int].kind == "wifi"@,
{
    let keys = adapter_keys(s);
    assert forall|i: int, j: int| 0 <= i < j < p.len() implies rank_spec(
        s[p[i] as int].up,
        s[p[i] as int].kind,
    ) <= rank_spec(s[p[j] as int].up, s[p[j] as int].kind) by {
        let x = p[i] as int;
        let y = p[j] as int;
        assert(crate::order::precedes(keys, x, y));
        assert(keys[x][0] == rank_spec(s[x].up, s[x].kind));
        assert(keys[y][0] == rank_spec(s[y].up, s[y].kind));
        assert(keys[x].len() > 0 && keys[y].len() > 0);
    }
    assert forall|i: int, j: int|
        0 <= i < j < p.len() && active_physical(#[trigger] s[p[j] as int]) implies active_physical(
        #[trigger] s[p[i] as int],
    ) by {
        lemma_rank_classes(s[p[i] as int].up, s[p[i] as int].kind);
        lemma_rank_classes(s[p[j] as int].up, s[p[j] as int].kind);
    }
    assert forall|i: int, j: int|
        0 <= i < j < p.len() && (#[trigger] s[p[j] as int]).up implies (#[trigger] s[p[i] as int]).up by {
        lemma_rank_classes(s[p[i] as int].up, s[p[i] as int].kind);
        lemma_rank_classes(s[p[j] as int].up, s[p[j] as int].kind);
    }
    assert forall|i: int, j: int|
        0 <= i < j < p.len() && !(#[trigger] s[p[i] as int]).up && (s[p[j] as int].kind
            == "ethernet"@ || s[p[j] as int].kind == "wifi"@) implies (#[trigger] s[p[j] as int]).up
        || s[p[i] as int].kind == "ethernet"@ || s[p[i] as int].kind == "wifi"@ by {
        lemma_rank_classes(s[p[i] as int].up, s[p[i] as int].kind);
        lemma_rank_classes(s[p[j] as int].up, s[p[j] as int].kind);
    }
}

/// All adapters but loopback: active physical adapters first, then other
/// active ones, inactive physical ones, the rest; by name within a rank,
/// ties in the system's order.
pub fn adapters(rows: &[AdapterRow]) -> (r: Vec<Adapter>)
    ensures
        exists|p: Seq<usize>|
            #[trigger] is_stable_order(adapter_keys(listed_adapters(rows@)), p) && r@.len() == p.len()
                && forall|i: int| 0 <= i < p.len() ==> (#[trigger] r@[i])@ == listed_adapters(rows@)[p[i] as int],
        forall|i: int, j: int|
            0 <= i < j < r@.len() && active_physical((#[trigger] r@[j])@) ==> active_physical(
                (#[trigger] r@[i])@,
            ),
        forall|i: int, j: int| 0 <= i < j < r@.len() && (#[trigger] r@[j])@.up ==> (#[trigger] r@[i])@.up,
{
    let mut kept: Vec<Adapter> = Vec::new();
    let mut i: usize = 0;
    while i < rows.len()
        invariant
            i <= rows.len(),
            kept@.len() == listed_adapters(rows@.take(i as int)).len(),
            forall|k: int| 0 <= k < kept@.len() ==> (#[trigger] kept@[k])@ == listed_adapters(rows@.take(i as int))[k],
        decreases rows.len() - i,
    {
        proof {
            assert(rows@.take(i as int + 1).drop_last() =~= rows@.take(i as int));
        }
        match adapter_of(&rows[i]) {
            Some(a) => kept.push(a),
            None => {},
        }
        i = i + 1;
    }
    assert(rows@.take(rows@.len() as int) =~= rows@);
    let ghost sv = listed_adapters(rows@);
    let mut keys: Vec<Vec<u64>> = Vec::new();
    let mut k: usize = 0;
    while k < kept.len()
        invariant
            k <= kept@.len(),
            kept@.len() == sv.len(),
            forall|j: int| 0 <= j < kept@.len() ==> (#[trigger] kept@[j])@ == sv[j],
            keys@.len() == k,
            forall|j: int| 0 <= j < k ==> (#[trigger] keys@[j])@ == adapter_keys(sv)[j],
        decreases kept@.len() - k,
    {
        let mut key: Vec<u64> = vec![rank_of(kept[k].up, kept[k].kind)];
        let mut nk = text_key_of(kept[k].name.as_str());
        key.append(&mut nk);
        keys.push(key);
        k = k + 1;
    }
    assert(key_views(keys@) =~= adapter_keys(sv));
    let p = stable_order(keys.as_slice());
    let mut out: Vec<Adapter> = Vec::new();
    let mut q: usize = 0;
    while q < p.len()
        invariant
            q <= p@.len(),
            is_stable_order(adapter_keys(sv), p@),
            kept@.len() == sv.len(),
            forall|j: int| 0 <= j < kept@.len() ==> (#[trigger] kept@[j])@ == sv[j],
            out@.len() == q,
            forall|j: int| 0 <= j < q ==> (#[trigger] out@[j])@ == sv[p@[j] as int],
        decreases p@.len() - q,
    {
        out.push(copy_adapter(&kept[p[q]]));
        q = q + 1;
    }
    assert(is_stable_order(adapter_keys(listed_adapters(rows@)), p@));
    proof {
        lemma_adapter_order(sv, p@);
        assert forall|i: int, j: int|
            0 <= i < j < out@.len() && active_physical((#[trigger] out@[j])@) implies active_physical(
            (#[trigger] out@[i])@,
        ) by {
            assert(active_physical(sv[p@[j] as int]));
        }
        assert forall|i: int, j: int|
            0 <= i < j < out@.len() && (#[trigger] out@[j])@.up implies (#[trigger] out@[i])@.up by {
            assert(sv[p@[j] as int].up);
        }
    }
    out
}

} // verus!
