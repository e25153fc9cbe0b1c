//! TCP/UDP connection tables with their owners.
//!
//! `GetExtendedTcpTable` / `GetExtendedUdpTable` with `*_OWNER_PID` —
//! each connection carries the PID of the process that holds it. That
//! is the whole base of the Network section. The tables are read
//! elsewhere and their rows handed in as the raw numbers they hold;
//! packet contents are NEVER read — where and how much, not what.

use vstd::prelude::*;

verus! {

/// The TCP state (MIB_TCP_STATE) as text — the UI only shows it, and
/// the numbers are a stable documented constant.
pub open spec fn tcp_state_spec(state: u32) -> Seq<char> {
    if state == 1 {
        "closed"@
    } else if state == 2 {
        "listen"@
    } else if state == 3 {
        "syn-sent"@
    } else if state == 4 {
        "syn-received"@
    } else if state == 5 {
        "established"@
    } else if state == 6 {
        "fin-wait-1"@
    } else if state == 7 {
        "fin-wait-2"@
    } else if state == 8 {
        "close-wait"@
    } else if state == 9 {
        "closing"@
    } else if state == 10 {
        "last-ack"@
    } else if state == 11 {
        "time-wait"@
    } else if state == 12 {
        "delete-tcb"@
    } else {
        "?"@
    }
}

/// The TCP state as text.
pub fn tcp_state_str(state: u32) -> (r: &'static str)
    ensures
        r@ == tcp_state_spec(state),
{
    match state {
        1 => "closed",
        2 => "listen",
        3 => "syn-sent",
        4 => "syn-received",
        5 => "established",
        6 => "fin-wait-1",
        7 => "fin-wait-2",
        8 => "close-wait",
        9 => "closing",
        10 => "last-ack",
        11 => "time-wait",
        12 => "delete-tcb",
        _ => "?",
    }
}

/// `MIB_TCP_STATE_CLOSED`.
pub const MIB_TCP_STATE_CLOSED: u32 = 1;
/// `MIB_TCP_STATE_LISTEN`.
pub const MIB_TCP_STATE_LISTEN: u32 = 2;
/// `MIB_TCP_STATE_SYN_SENT`.
pub const MIB_TCP_STATE_SYN_SENT: u32 = 3;
/// `MIB_TCP_STATE_SYN_RCVD`.
pub const MIB_TCP_STATE_SYN_RCVD: u32 = 4;
/// `MIB_TCP_STATE_ESTAB`.
pub const MIB_TCP_STATE_ESTAB: u32 = 5;
/// `MIB_TCP_STATE_FIN_WAIT1`.
pub const MIB_TCP_STATE_FIN_WAIT1: u32 = 6;
/// `MIB_TCP_STATE_FIN_WAIT2`.
pub const MIB_TCP_STATE_FIN_WAIT2: u32 = 7;
/// `MIB_TCP_STATE_CLOSE_WAIT`.
pub const MIB_TCP_STATE_CLOSE_WAIT: u32 = 8;
/// `MIB_TCP_STATE_CLOSING`.
pub const MIB_TCP_STATE_CLOSING: u32 = 9;
/// `MIB_TCP_STATE_LAST_ACK`.
pub const MIB_TCP_STATE_LAST_ACK: u32 = 10;
/// `MIB_TCP_STATE_TIME_WAIT`.
pub const MIB_TCP_STATE_TIME_WAIT: u32 = 11;
/// `MIB_TCP_STATE_DELETE_TCB`.
pub const MIB_TCP_STATE_DELETE_TCB: u32 = 12;

/// Every documented `MIB_TCP_STATE` has a name of its own: each state
/// reads as the name of its constant, no two documented states read
/// alike, none reads as the "?" of an undocumented value, and only
/// undocumented values read as "?".
pub proof fn lemma_tcp_state_names(a: u32, b: u32)
    ensures
        tcp_state_spec(MIB_TCP_STATE_CLOSED) == "closed"@,
        tcp_state_spec(MIB_TCP_STATE_LISTEN) == "listen"@,
        tcp_state_spec(MIB_TCP_STATE_SYN_SENT) == "syn-sent"@,
        tcp_state_spec(MIB_TCP_STATE_SYN_RCVD) == "syn-received"@,
        tcp_state_spec(MIB_TCP_STATE_ESTAB) == "established"@,
        tcp_state_spec(MIB_TCP_STATE_FIN_WAIT1) == "fin-wait-1"@,
        tcp_state_spec(MIB_TCP_STATE_FIN_WAIT2) == "fin-wait-2"@,
        tcp_state_spec(MIB_TCP_STATE_CLOSE_WAIT) == "close-wait"@,
        tcp_state_spec(MIB_TCP_STATE_CLOSING) == "closing"@,
        tcp_state_spec(MIB_TCP_STATE_LAST_ACK) == "last-ack"@,
        tcp_state_spec(MIB_TCP_STATE_TIME_WAIT) == "time-wait"@,
        tcp_state_spec(MIB_TCP_STATE_DELETE_TCB) == "delete-tcb"@,
        1 <= a <= 12 && 1 <= b <= 12 && a != b ==> tcp_state_spec(a) != tcp_state_spec(b),
        (tcp_state_spec(a) == "?"@) <==> !(1 <= a <= 12),
{
    reveal_strlit("closed");
    reveal_strlit("listen");
    reveal_strlit("syn-sent");
    reveal_strlit("syn-received");
    reveal_strlit("established");
    reveal_strlit("fin-wait-1");
    reveal_strlit("fin-wait-2");
    reveal_strlit("close-wait");
    reveal_strlit("closing");
    reveal_strlit("last-ack");
    reveal_strlit("time-wait");
    reveal_strlit("delete-tcb");
    reveal_strlit("?");
    let sa = tcp_state_spec(a);
    let sb = tcp_state_spec(b);
    if 1 <= a <= 12 && 1 <= b <= 12 && a != b {
        if sa.len() == sb.len() {
            assert(sa[0] != sb[0] || sa[sa.len() - 1] != sb[sb.len() - 1]);
        }
    }
    if 1 <= a <= 12 {
        assert(sa.len() > 1);
    }
}

/// An IP address as its octets in network order.
#[derive(Debug, Clone, Copy, PartialEq, Eq)]
pub enum IpAddress {
    V4([u8; 4]),
    V6([u8; 16]),
}

/// One connection or listening port.
#[derive(Debug, Clone, Copy, PartialEq, Eq)]
pub struct Conn {
    /// "tcp" | "udp".
    pub proto: &'static str,
    pub local: IpAddress,
    pub local_port: u16,
    /// Missing for UDP and for listening TCP.
    pub remote: Option<IpAddress>,
    pub remote_port: u16,
    /// The TCP state; UDP has none — "udp".
    pub state: &'static str,
    pub pid: u32,
}

impl Conn {
    /// Is this a listening record (an open door inward)?
    pub fn listening(&self) -> (b: bool)
        ensures
            b == (self.state@ == "listen"@ || (self.proto@ == "udp"@ && self.remote is None)),
    {
        let s = crate::text::chars_of(self.state);
        let p = crate::text::chars_of(self.proto);
        crate::text::chars_eq(&s, &crate::text::chars_of("listen")) || (crate::text::chars_eq(
            &p,
            &crate::text::chars_of("udp"),
        ) && self.remote.is_none())
    }
}

/// The port of a table's `dw*Port` field: the port sits in network byte
/// order in the low two bytes of the little-endian field.
pub open spec fn port_spec(raw: u32) -> u16 {
    ((raw % 256) * 256 + (raw / 256) % 256) as u16
}

/// The port of a `dw*Port` field.
pub fn port_from_raw(raw: u32) -> (r: u16)
    ensures
        r == port_spec(raw),
{
    ((raw % 256) * 256 + (raw / 256) % 256) as u16
}

/// The octets of an IPv4 `dw*Addr` field: the address is stored in
/// network byte order, so its bytes in memory (little-endian) are the
/// octets in order.
pub open spec fn ipv4_spec(raw: u32) -> [u8; 4] {
    [(raw % 256) as u8, ((raw / 256) % 256) as u8, ((raw / 65536) % 256) as u8, (raw / 16777216) as u8]
}

/// The address of an IPv4 `dw*Addr` field.
pub fn ipv4_from_raw(raw: u32) -> (r: IpAddress)
    ensures
        r == IpAddress::V4(ipv4_spec(raw)),
{
    IpAddress::V4(
        [(raw % 256) as u8, ((raw / 256) % 256) as u8, ((raw / 65536) % 256) as u8, (raw / 16777216) as u8],
    )
}

/// One row of `MIB_TCPTABLE_OWNER_PID`.
pub fn tcp4_conn(local_addr: u32, local_port: u32, remote_addr: u32, remote_port: u32, state: u32, pid: u32) -> (c: Conn)
    ensures
        c.proto@ == "tcp"@,
        c.local == IpAddress::V4(ipv4_spec(local_addr)),
        c.local_port == port_spec(local_port),
        c.remote == if state != 2 {
            Some(IpAddress::V4(ipv4_spec(remote_addr)))
        } else {
            None
        },
        c.remote_port == port_spec(remote_port),
        c.state@ == tcp_state_spec(state),
        c.pid == pid,
{
    Conn {
        proto: "tcp",
        local: ipv4_from_raw(local_addr),
        local_port: port_from_raw(local_port),
        remote: if state != 2 {
            Some(ipv4_from_raw(remote_addr))
        } else {
            None
        },
        remote_port: port_from_raw(remote_port),
        state: tcp_state_str(state),
        pid,
    }
}

/// One row of `MIB_TCP6TABLE_OWNER_PID`.
pub fn tcp6_conn(local_addr: [u8; 16], local_port: u32, remote_addr: [u8; 16], remote_port: u32, state: u32, pid: u32) -> (c: Conn)
    ensures
        c.proto@ == "tcp"@,
        c.local == IpAddress::V6(local_addr),
        c.local_port == port_spec(local_port),
        c.remote == if state != 2 {
            Some(IpAddress::V6(remote_addr))
        } else {
            None
        },
        c.remote_port == port_spec(remote_port),
        c.state@ == tcp_state_spec(state),
        c.pid == pid,
{
    Conn {
        proto: "tcp",
        local: IpAddress::V6(local_addr),
        local_port: port_from_raw(local_port),
        remote: if state != 2 {
            Some(IpAddress::V6(remote_addr))
        } else {
            None
        },
        remote_port: port_from_raw(remote_port),
        state: tcp_state_str(state),
        pid,
    }
}

/// One row of `MIB_UDPTABLE_OWNER_PID`: UDP has no peer and no state.
pub fn udp4_conn(local_addr: u32, local_port: u32, pid: u32) -> (c: Conn)
    ensures
        c.proto@ == "udp"@,
        c.local == IpAddress::V4(ipv4_spec(local_addr)),
        c.local_port == port_spec(local_port),
        c.remote is None,
        c.remote_port == 0,
        c.state@ == "udp"@,
        c.pid == pid,
{
    Conn {
        proto: "udp",
        local: ipv4_from_raw(local_addr),
        local_port: port_from_raw(local_port),
        remote: None,
        remote_port: 0,
        state: "udp",
        pid,
    }
}

/// One row of `MIB_UDP6TABLE_OWNER_PID`.
pub fn udp6_conn(local_addr: [u8; 16], local_port: u32, pid: u32) -> (c: Conn)
    ensures
        c.proto@ == "udp"@,
        c.local == IpAddress::V6(local_addr),
        c.local_port == port_spec(local_port),
        c.remote is None,
        c.remote_port == 0,
        c.state@ == "udp"@,
        c.pid == pid,
{
    Conn {
        proto: "udp",
        local: IpAddress::V6(local_addr),
        local_port: port_from_raw(local_port),
        remote: None,
        remote_port: 0,
        state: "udp",
        pid,
    }
}

} // verus!
