//! UDP socket addresses as plain values, and the choice between server and
//! client addressing.
use vstd::prelude::*;

verus! {

/// A UDP socket address: the IP address as an integer (an IPv4 address in
/// its low 32 bits), the port, and for IPv6 the scope id.
#[derive(Clone, Copy, Debug, PartialEq, Eq, Structural, Hash)]
pub struct PeerAddr {
    pub ipv6: bool,
    pub ip: u128,
    pub port: u16,
    pub scope_id: u32,
}

impl PeerAddr {
    /// Well-formed: an IPv4 address fits in 32 bits and has no scope.
    pub open spec fn wf(self) -> bool {
        !self.ipv6 ==> self.ip < 0x1_0000_0000 && self.scope_id == 0
    }

    /// An IPv4 address from its four octets, `a.b.c.d`.
    pub fn v4(a: u8, b: u8, c: u8, d: u8, port: u16) -> (r: PeerAddr)
        ensures
            r.wf(),
            !r.ipv6,
            r.ip == a as int * 0x100_0000 + b as int * 0x1_0000 + c as int * 0x100 + d as int,
            r.port == port,
            r.scope_id == 0,
    {
        let ip: u128 = (a as u128) * 0x100_0000 + (b as u128) * 0x1_0000 + (c as u128) * 0x100
            + d as u128;
        PeerAddr { ipv6: false, ip, port, scope_id: 0 }
    }

    /// An IPv6 address from its 128-bit value, with its scope id.
    pub fn v6(ip: u128, port: u16, scope_id: u32) -> (r: PeerAddr)
        ensures
            r.wf(),
            r == (PeerAddr { ipv6: true, ip, port, scope_id }),
    {
        PeerAddr { ipv6: true, ip, port, scope_id }
    }
}

/// The loopback addresses: `127.0.0.0/8` and `::1`.
pub open spec fn spec_is_loopback(a: PeerAddr) -> bool {
    if a.ipv6 {
        a.ip == 1
    } else {
        a.ip / 0x100_0000 == 127
    }
}

/// The unspecified addresses: `0.0.0.0` and `::`.
pub open spec fn spec_is_unspecified(a: PeerAddr) -> bool {
    a.ip == 0
}

pub fn is_loopback(a: &PeerAddr) -> (r: bool)
    ensures
        r == spec_is_loopback(*a),
{
    if a.ipv6 {
        a.ip == 1
    } else {
        a.ip / 0x100_0000 == 127
    }
}

pub fn is_unspecified(a: &PeerAddr) -> (r: bool)
    ensures
        r == spec_is_unspecified(*a),
{
    a.ip == 0
}

/// How the UDP side is addressed, fixed for the life of the bridge.
#[derive(Clone, Copy, Debug, PartialEq, Eq, Structural)]
pub enum AddressingMode {
    /// Bound to the configured address; peers are discovered as they send.
    Server,
    /// Bound locally; every datagram goes to the one remote address.
    Client { remote: PeerAddr },
}

/// The mode for a configured UDP address: a loopback or unspecified address
/// means server mode, any other means client mode towards that address.
pub open spec fn spec_mode_for(a: PeerAddr) -> AddressingMode {
    if spec_is_loopback(a) || spec_is_unspecified(a) {
        AddressingMode::Server
    } else {
        AddressingMode::Client { remote: a }
    }
}

pub fn resolve_mode(configured: PeerAddr) -> (r: AddressingMode)
    ensures
        r == spec_mode_for(configured),
{
    if is_loopback(&configured) || is_unspecified(&configured) {
        AddressingMode::Server
    } else {
        AddressingMode::Client { remote: configured }
    }
}

/// Total order on addresses, used to break ties between peers seen at the
/// same instant: IPv4 before IPv6, then by IP, then by port, then by scope
/// id.
pub open spec fn spec_addr_lt(a: PeerAddr, b: PeerAddr) -> bool {
    if a.ipv6 != b.ipv6 {
        !a.ipv6
    } else if a.ip != b.ip {
        a.ip < b.ip
    } else if a.port != b.port {
        a.port < b.port
    } else {
        a.scope_id < b.scope_id
    }
}

pub fn addr_lt(a: &PeerAddr, b: &PeerAddr) -> (r: bool)
    ensures
        r == spec_addr_lt(*a, *b),
{
    if a.ipv6 != b.ipv6 {
        !a.ipv6
    } else if a.ip != b.ip {
        a.ip < b.ip
    } else if a.port != b.port {
        a.port < b.port
    } else {
        a.scope_id < b.scope_id
    }
}

} // verus!
