//! Reverse DNS — "where does that connection really go".
//!
//! `GetNameInfoW` with NI_NAMEREQD: a real PTR name, or nothing. Without
//! a name the IP is shown — nothing is ever made up. The lookup itself
//! lives outside this crate; which addresses are worth it, the socket
//! address handed to it and the name it returns are handled here.

use vstd::prelude::*;

use crate::bytes::wide_text;
use crate::conns::IpAddress;
use crate::text::trim_spec;

verus! {

/// `AF_INET`.
pub const AF_INET: u16 = 2u16;

/// `AF_INET6`.
pub const AF_INET6: u16 = 23u16;

/// Loopback (127.0.0.0/8, ::1) and unspecified (0.0.0.0, ::) addresses.
pub open spec fn local_or_unspecified(ip: IpAddress) -> bool {
    match ip {
        IpAddress::V4(o) => o[0] == 127 || (o[0] == 0 && o[1] == 0 && o[2] == 0 && o[3] == 0),
        IpAddress::V6(o) => (forall|i: int| 0 <= i < 15 ==> o@[i] == 0) && (o@[15] == 0 || o@[15] == 1),
    }
}

/// Loopback and unspecified addresses make no sense to look up.
pub fn worth_resolving(ip: IpAddress) -> (b: bool)
    ensures
        b == !local_or_unspecified(ip),
{
    match ip {
        IpAddress::V4(o) => !(o[0] == 127 || (o[0] == 0 && o[1] == 0 && o[2] == 0 && o[3] == 0)),
        IpAddress::V6(o) => {
            let mut i: usize = 0;
            while i < 15
                invariant
                    i <= 15,
                    ip == IpAddress::V6(o),
                    forall|j: int| 0 <= j < i ==> o@[j] == 0,
                decreases 15 - i,
            {
                if o[i] != 0 {
                    assert(o@[i as int] != 0);
                    assert(!local_or_unspecified(ip));
                    return true;
                }
                i = i + 1;
            }
            !(o[15] == 0 || o[15] == 1)
        },
    }
}

/// The bytes of the socket address for a lookup: SOCKADDR_IN (16 bytes)
/// or SOCKADDR_IN6 (28 bytes), port 0.
pub open spec fn sockaddr_spec(ip: IpAddress) -> Seq<u8> {
    match ip {
        IpAddress::V4(o) => seq![2u8, 0, 0, 0, o[0], o[1], o[2], o[3], 0, 0, 0, 0, 0, 0, 0, 0],
        IpAddress::V6(o) => seq![23u8, 0, 0, 0, 0, 0, 0, 0] + Seq::new(16, |i: int| o[i]) + seq![0u8, 0, 0, 0],
    }
}

/// The socket address of an IP for `GetNameInfoW`.
pub fn sockaddr_bytes(ip: IpAddress) -> (r: Vec<u8>)
    ensures
        r@ == sockaddr_spec(ip),
{
    match ip {
        IpAddress::V4(o) => {
            let r: Vec<u8> = vec![2u8, 0, 0, 0, o[0], o[1], o[2], o[3], 0, 0, 0, 0, 0, 0, 0, 0];
            assert(r@ =~= sockaddr_spec(ip));
            r
        },
        IpAddress::V6(o) => {
            let mut r: Vec<u8> = vec![23u8, 0, 0, 0, 0, 0, 0, 0];
            let mut i: usize = 0;
            while i < 16
                invariant
                    i <= 16,
                    r@ == seq![23u8, 0, 0, 0, 0, 0, 0, 0] + Seq::new(i as nat, |k: int| o[k]),
                decreases 16 - i,
            {
                r.push(o[i]);
                i = i + 1;
                assert(r@ =~= seq![23u8, 0, 0, 0, 0, 0, 0, 0] + Seq::new(i as nat, |k: int| o[k]));
            }
            r.push(0);
            r.push(0);
            r.push(0);
            r.push(0);
            assert(r@ =~= sockaddr_spec(ip));
            r
        },
    }
}

/// The host name a lookup returned: up to the first NUL, trimmed; `None`
/// when empty.
pub fn host_name(units: &[u16]) -> (r: Option<String>)
    ensures
        match r {
            Some(s) => s@ == trim_spec(wide_text(units@)) && s@.len() > 0,
            None => trim_spec(wide_text(units@)).len() == 0,
        },
{
    let s = crate::bytes::trimmed_text_of_units(units);
    if s.unicode_len() == 0 {
        None
    } else {
        Some(s)
    }
}

} // verus!
