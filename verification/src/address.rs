//! Socket addresses, as they are handed over by the embedder.
use crate::nsresult::NsResult;
use vstd::prelude::*;

verus! {

/// An IP address, by its bytes.
#[derive(Clone, Copy, Debug)]
pub enum IpAddress {
    V4([u8; 4]),
    V6([u8; 16]),
}

/// An IP address and a port.
#[derive(Clone, Copy, Debug)]
pub struct SocketAddress {
    pub ip: IpAddress,
    pub port: u16,
}

/// The parts of an address of the embedder: its family, and the bytes of port and address in
/// the order in which they stand in memory.
#[derive(Clone, Copy, Debug)]
pub struct NetAddr {
    pub family: u16,
    pub port: [u8; 2],
    pub ipv4: [u8; 4],
    pub ipv6: [u8; 16],
}

/// The port that two bytes in network order denote.
pub open spec fn network_port(bytes: [u8; 2]) -> u16 {
    (bytes[0] * 256 + bytes[1]) as u16
}

/// The socket address that an address of the embedder denotes. `af_inet` and `af_inet6` are the
/// numbers of the two families.
pub open spec fn socket_address(addr: NetAddr, af_inet: u16, af_inet6: u16) -> Option<
    SocketAddress,
> {
    if addr.family == af_inet {
        Some(SocketAddress { ip: IpAddress::V4(addr.ipv4), port: network_port(addr.port) })
    } else if addr.family == af_inet6 {
        Some(SocketAddress { ip: IpAddress::V6(addr.ipv6), port: network_port(addr.port) })
    } else {
        None
    }
}

/// The socket address that an address of the embedder denotes, where there is one and its family
/// is known.
pub fn netaddr_to_socket_addr(addr: Option<NetAddr>, af_inet: u16, af_inet6: u16) -> (converted:
    Result<SocketAddress, NsResult>)
    ensures
        match addr {
            None => converted == Err::<SocketAddress, NsResult>(NsResult::NS_ERROR_INVALID_ARG),
            Some(a) => match socket_address(a, af_inet, af_inet6) {
                Some(s) => converted == Ok::<SocketAddress, NsResult>(s),
                None => converted == Err::<SocketAddress, NsResult>(NsResult::NS_ERROR_UNEXPECTED),
            },
        },
{
    match addr {
        None => Err(NsResult::NS_ERROR_INVALID_ARG),
        Some(a) => {
            let port: u16 = a.port[0] as u16 * 256 + a.port[1] as u16;
            if a.family == af_inet {
                Ok(SocketAddress { ip: IpAddress::V4(a.ipv4), port })
            } else if a.family == af_inet6 {
                Ok(SocketAddress { ip: IpAddress::V6(a.ipv6), port })
            } else {
                Err(NsResult::NS_ERROR_UNEXPECTED)
            }
        },
    }
}

/// Whether an address is the loopback address of IPv6.
pub open spec fn is_ipv6_loopback(ip: IpAddress) -> bool {
    match ip {
        IpAddress::V4(_) => false,
        IpAddress::V6(bytes) => bytes[15] == 1 && forall|i: int| 0 <= i < 15 ==> bytes[i] == 0,
    }
}

/// Whether an address is the loopback address of IPv6.
pub fn ipv6_loopback(ip: &IpAddress) -> (loopback: bool)
    ensures
        loopback == is_ipv6_loopback(*ip),
{
    match ip {
        IpAddress::V4(_) => false,
        IpAddress::V6(bytes) => {
            let mut i: usize = 0;
            while i < 15
                invariant
                    i <= 15,
                    *ip == IpAddress::V6(*bytes),
                    forall|j: int| 0 <= j < i ==> bytes[j] == 0,
                decreases 15 - i,
            {
                if bytes[i] != 0 {
                    return false;
                }
                i += 1;
            }
            bytes[15] == 1
        },
    }
}

/// The port stands in network order and the address of the family is taken: what is handed over
/// of an address and a port gives that address and port back. Another family is refused, and so is
/// no address.
pub proof fn law_addresses_are_read(
    addr: Option<NetAddr>,
    port: u16,
    af_inet: u16,
    af_inet6: u16,
    converted: Result<SocketAddress, NsResult>,
)
    requires
        af_inet != af_inet6,
        call_ensures(netaddr_to_socket_addr, (addr, af_inet, af_inet6), converted),
        addr matches Some(a) ==> a.port[0] == port / 256 && a.port[1] == port % 256,
    ensures
        converted == Err::<SocketAddress, NsResult>(NsResult::NS_ERROR_INVALID_ARG) <==> addr
            is None,
        converted == Err::<SocketAddress, NsResult>(NsResult::NS_ERROR_UNEXPECTED) <==> (addr
            matches Some(a) && a.family != af_inet && a.family != af_inet6),
        converted matches Ok(s) ==> {
            &&& s.port == port
            &&& s.ip is V4 <==> addr->0.family == af_inet
            &&& s.ip is V6 <==> addr->0.family == af_inet6
            &&& s.ip matches IpAddress::V4(bytes) ==> bytes == addr->0.ipv4
            &&& s.ip matches IpAddress::V6(bytes) ==> bytes == addr->0.ipv6
        },
{
}

/// There is one loopback address of IPv6, the one whose bytes are the number one.
pub proof fn law_one_loopback(ip: IpAddress, loopback: bool)
    requires
        call_ensures(ipv6_loopback, (&ip,), loopback),
    ensures
        loopback <==> (ip matches IpAddress::V6(bytes) && bytes@ == Seq::new(
            16,
            |i: int| if i == 15 { 1u8 } else { 0u8 },
        )),
{
    if let IpAddress::V6(bytes) = ip {
        let one = Seq::new(16, |i: int| if i == 15 { 1u8 } else { 0u8 });
        assert(bytes@.len() == 16);
        if loopback {
            assert forall|i: int| 0 <= i < 16 implies bytes@[i] == one[i] by {
                assert(bytes[i] == bytes@[i]);
            }
            assert(bytes@ =~= one);
        }
        if bytes@ == one {
            assert forall|i: int| 0 <= i < 16 implies bytes[i] == one[i] by {
                assert(bytes@[i] == one[i]);
            }
        }
    }
}

}
