//! [`SocketAddr`], the address of a peer candidate as plain numbers.

use vstd::prelude::*;
use vstd::std_specs::cmp::PartialEqSpecImpl;

verus! {

/// An IPv4 address and a port.
#[derive(Debug, Clone, Copy, Eq)]
pub struct SocketAddrV4 {
    /// The address, as it is written in dotted form.
    pub octets: [u8; 4],
    /// The port.
    pub port: u16,
}

impl PartialEq for SocketAddrV4 {
    fn eq(&self, other: &Self) -> (equal: bool) {
        let equal = self.octets[0] == other.octets[0] && self.octets[1] == other.octets[1]
            && self.octets[2] == other.octets[2] && self.octets[3] == other.octets[3] && self.port
            == other.port;
        assert(equal ==> self.octets =~= other.octets);
        equal
    }
}

impl PartialEqSpecImpl for SocketAddrV4 {
    open spec fn obeys_eq_spec() -> bool {
        true
    }

    open spec fn eq_spec(&self, other: &Self) -> bool {
        *self == *other
    }
}

/// An IPv6 address, a port, and the flow and scope that go with them.
#[derive(Debug, Clone, Copy, Eq)]
pub struct SocketAddrV6 {
    /// The address, as eight 16-bit groups.
    pub segments: [u16; 8],
    /// The port.
    pub port: u16,
    /// The flow information.
    pub flowinfo: u32,
    /// The scope id.
    pub scope_id: u32,
}

impl PartialEq for SocketAddrV6 {
    fn eq(&self, other: &Self) -> (equal: bool) {
        let mut i: usize = 0;
        while i < 8
            invariant
                i <= 8,
                forall|j: int| 0 <= j < i ==> self.segments@[j] == other.segments@[j],
            decreases 8 - i,
        {
            if self.segments[i] != other.segments[i] {
                return false;
            }
            i += 1;
        }
        assert(self.segments =~= other.segments);
        self.port == other.port && self.flowinfo == other.flowinfo && self.scope_id
            == other.scope_id
    }
}

impl PartialEqSpecImpl for SocketAddrV6 {
    open spec fn obeys_eq_spec() -> bool {
        true
    }

    open spec fn eq_spec(&self, other: &Self) -> bool {
        *self == *other
    }
}

/// The address of a peer.
#[derive(Debug, Clone, Copy, Eq)]
pub enum SocketAddr {
    /// An IPv4 peer.
    V4(SocketAddrV4),
    /// An IPv6 peer.
    V6(SocketAddrV6),
}

impl PartialEq for SocketAddr {
    fn eq(&self, other: &Self) -> (equal: bool) {
        match (self, other) {
            (SocketAddr::V4(a), SocketAddr::V4(b)) => *a == *b,
            (SocketAddr::V6(a), SocketAddr::V6(b)) => *a == *b,
            _ => false,
        }
    }
}

impl PartialEqSpecImpl for SocketAddr {
    open spec fn obeys_eq_spec() -> bool {
        true
    }

    open spec fn eq_spec(&self, other: &Self) -> bool {
        *self == *other
    }
}

impl SocketAddr {
    /// An IPv4 address with a port.
    pub fn v4(octets: [u8; 4], port: u16) -> (addr: Self)
        ensures
            addr == SocketAddr::V4(SocketAddrV4 { octets, port }),
    {
        SocketAddr::V4(SocketAddrV4 { octets, port })
    }

    /// An IPv6 address with a port, in no particular flow or scope.
    pub fn v6(segments: [u16; 8], port: u16) -> (addr: Self)
        ensures
            addr == SocketAddr::V6(SocketAddrV6 { segments, port, flowinfo: 0, scope_id: 0 }),
    {
        SocketAddr::V6(SocketAddrV6 { segments, port, flowinfo: 0, scope_id: 0 })
    }

    /// Whether this is an IPv4 address.
    pub fn is_ipv4(&self) -> (v4: bool)
        ensures
            v4 == (self is V4),
    {
        match self {
            SocketAddr::V4(_) => true,
            SocketAddr::V6(_) => false,
        }
    }

    /// Whether this is an IPv6 address.
    pub fn is_ipv6(&self) -> (v6: bool)
        ensures
            v6 == (self is V6),
    {
        match self {
            SocketAddr::V4(_) => false,
            SocketAddr::V6(_) => true,
        }
    }

    /// The address belongs to the machine itself: `127.0.0.0/8`, or `::1`.
    pub open spec fn loopback(self) -> bool {
        match self {
            SocketAddr::V4(addr) => addr.octets@[0] == 127,
            SocketAddr::V6(addr) => addr.segments@ == seq![0u16, 0, 0, 0, 0, 0, 0, 1],
        }
    }

    /// Whether the address belongs to the machine itself.
    pub fn is_loopback(&self) -> (loopback: bool)
        ensures
            loopback == self.loopback(),
    {
        match self {
            SocketAddr::V4(addr) => addr.octets[0] == 127,
            SocketAddr::V6(addr) => {
                let s = &addr.segments;
                let loopback = s[0] == 0 && s[1] == 0 && s[2] == 0 && s[3] == 0 && s[4] == 0 && s[5]
                    == 0 && s[6] == 0 && s[7] == 1;
                proof {
                    let one = seq![0u16, 0, 0, 0, 0, 0, 0, 1];
                    if loopback {
                        assert(addr.segments@ =~= one);
                    }
                    if addr.segments@ == one {
                        assert(forall|i: int| 0 <= i < 8 ==> addr.segments@[i] == one[i]);
                    }
                }
                loopback
            },
        }
    }
}

/// An address belongs to the machine itself if it is `::1`, or if its first octet is 127.
pub proof fn law_which_addresses_are_loopback(addr: SocketAddr)
    ensures
        addr is V4 ==> (addr.loopback() <==> addr->V4_0.octets@[0] == 127),
        addr is V6 ==> (addr.loopback() <==> addr->V6_0.segments@ == seq![
            0u16,
            0,
            0,
            0,
            0,
            0,
            0,
            1,
        ]),
{
}

} // verus!
