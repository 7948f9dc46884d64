//! Network addresses.

use vstd::prelude::*;

use crate::table::Key;

verus! {

/// An IP address, as the number that its octets spell.
#[derive(Debug, Clone, Copy, PartialEq, Eq, Structural)]
pub enum Ip {
    V4(u32),
    V6(u128),
}

/// The address of a TCP or UDP endpoint.
#[derive(Debug, Clone, Copy, PartialEq, Eq, Structural)]
pub enum Addr {
    V4 { ip: u32, port: u16 },
    V6 { ip: u128, port: u16, flowinfo: u32, scope_id: u32 },
}

impl View for Ip {
    type V = Ip;

    open spec fn view(&self) -> Ip {
        *self
    }
}

impl View for Addr {
    type V = Addr;

    open spec fn view(&self) -> Addr {
        *self
    }
}

impl Key for Ip {
    fn same(&self, other: &Self) -> (r: bool) {
        *self == *other
    }

    fn duplicate(&self) -> (r: Self) {
        *self
    }
}

impl Key for Addr {
    fn same(&self, other: &Self) -> (r: bool) {
        *self == *other
    }

    fn duplicate(&self) -> (r: Self) {
        *self
    }
}

/// The IPv4 address behind an IPv4-mapped IPv6 address (`::ffff:a.b.c.d`);
/// any other address as it is.
pub open spec fn canonical(ip: Ip) -> Ip {
    match ip {
        Ip::V6(n) if n / 0x1_0000_0000 == 0xffff => Ip::V4((n % 0x1_0000_0000) as u32),
        _ => ip,
    }
}

/// The IP address of an endpoint.
pub open spec fn ip_of(addr: Addr) -> Ip {
    match addr {
        Addr::V4 { ip, .. } => Ip::V4(ip),
        Addr::V6 { ip, .. } => Ip::V6(ip),
    }
}

impl Ip {
    /// The canonical form: an IPv4-mapped IPv6 address becomes IPv4.
    pub fn to_canonical(self) -> (ip: Ip)
        ensures
            ip == canonical(self),
    {
        match self {
            Ip::V4(_) => self,
            Ip::V6(n) => {
                if n / 0x1_0000_0000 == 0xffff {
                    Ip::V4((n % 0x1_0000_0000) as u32)
                } else {
                    self
                }
            },
        }
    }
}

impl Addr {
    /// The IP address of the endpoint.
    pub fn ip(self) -> (ip: Ip)
        ensures
            ip == ip_of(self),
    {
        match self {
            Addr::V4 { ip, .. } => Ip::V4(ip),
            Addr::V6 { ip, .. } => Ip::V6(ip),
        }
    }
}

/// The address that no datagram comes from: `0.0.0.0:0`.
pub open spec fn nowhere() -> Addr {
    Addr::V4 { ip: 0, port: 0 }
}

/// An IPv4 address and its IPv6 form are the same address, other IPv4
/// addresses are other ones, and the canonical form is a fixed point.
pub proof fn law_canonical(a: u32, b: u32, ip: Ip)
    ensures
        canonical(Ip::V6((0xffff_0000_0000 + a) as u128)) == canonical(Ip::V4(a)),
        canonical(Ip::V4(a)) == Ip::V4(a),
        a != b ==> canonical(Ip::V4(a)) != canonical(Ip::V4(b)),
        canonical(canonical(ip)) == canonical(ip),
{
}

} // verus!
