//! Ethernet, IPv4 and transport headers of a packet.
use crate::byte_order::{native_word16, native_word32, HostOrderPort};
#[allow(unused_imports)]
use crate::byte_order::{
    be16, law_wire_port_is_machine_independent, native16, native32, network16,
};
use crate::overlay::REFUSED;
use vstd::prelude::*;

verus! {

/// Length of an Ethernet header.
pub const ETH_LEN: usize = 14;

/// Length of an IPv4 header without options.
pub const IP_LEN: usize = 20;

/// EtherType of IPv4.
pub const ETHERTYPE_IPV4: u16 = 0x0800;

/// Protocol number of TCP.
pub const PROTO_TCP: u8 = 6;

/// Protocol number of UDP.
pub const PROTO_UDP: u8 = 17;

/// An Ethernet header as it lies in memory: `h_proto` is in network order.
#[derive(Copy, Clone, Debug, PartialEq, Eq)]
pub struct EthHdr {
    pub h_dest: [u8; 6],
    pub h_source: [u8; 6],
    pub h_proto: u16,
}

/// An IPv4 header as it lies in memory: all words are in network order.
#[derive(Copy, Clone, Debug, PartialEq, Eq, Structural)]
pub struct Ipv4Hdr {
    pub ihl_version: u8,
    pub tos: u8,
    pub tot_len: u16,
    pub id: u16,
    pub frag_off: u16,
    pub ttl: u8,
    pub protocol: u8,
    pub saddr: u32,
    pub daddr: u32,
}

/// Loads the word at `at`.
fn load16(packet: &[u8], at: usize) -> (r: u16)
    requires
        at + 2 <= packet@.len(),
    ensures
        r == native16(packet@[at as int], packet@[at + 1]),
{
    native_word16([packet[at], packet[at + 1]])
}

/// Loads the word at `at`.
fn load32(packet: &[u8], at: usize) -> (r: u32)
    requires
        at + 4 <= packet@.len(),
    ensures
        r == native32(packet@[at as int], packet@[at + 1], packet@[at + 2], packet@[at + 3]),
{
    native_word32([packet[at], packet[at + 1], packet[at + 2], packet[at + 3]])
}

impl EthHdr {
    /// Reads the header at the start of a packet.
    pub fn read(packet: &[u8]) -> (hdr: Self)
        requires
            packet@.len() >= ETH_LEN,
        ensures
            hdr.h_dest@ == packet@.subrange(0, 6),
            hdr.h_source@ == packet@.subrange(6, 12),
            hdr.h_proto == native16(packet@[12], packet@[13]),
    {
        let p = packet;
        let h_dest: [u8; 6] = [p[0], p[1], p[2], p[3], p[4], p[5]];
        let h_source: [u8; 6] = [p[6], p[7], p[8], p[9], p[10], p[11]];
        assert(h_dest@ =~= packet@.subrange(0, 6));
        assert(h_source@ =~= packet@.subrange(6, 12));
        EthHdr { h_dest, h_source, h_proto: load16(packet, 12) }
    }
}

impl Ipv4Hdr {
    /// The header that starts at `at`.
    pub open spec fn at(packet: Seq<u8>, at: int) -> Self {
        let p = packet.skip(at);
        Ipv4Hdr {
            ihl_version: p[0],
            tos: p[1],
            tot_len: native16(p[2], p[3]),
            id: native16(p[4], p[5]),
            frag_off: native16(p[6], p[7]),
            ttl: p[8],
            protocol: p[9],
            saddr: native32(p[12], p[13], p[14], p[15]),
            daddr: native32(p[16], p[17], p[18], p[19]),
        }
    }

    /// Reads the header that starts at `at`.
    pub fn read(packet: &[u8], at: usize) -> (hdr: Self)
        requires
            at + IP_LEN <= packet@.len(),
        ensures
            hdr == Self::at(packet@, at as int),
    {
        Ipv4Hdr {
            ihl_version: packet[at],
            tos: packet[at + 1],
            tot_len: load16(packet, at + 2),
            id: load16(packet, at + 4),
            frag_off: load16(packet, at + 6),
            ttl: packet[at + 8],
            protocol: packet[at + 9],
            saddr: load32(packet, at + 12),
            daddr: load32(packet, at + 16),
        }
    }

    /// Length of the header, options and all, in units of four bytes.
    pub open spec fn ihl(self) -> int {
        (self.ihl_version % 0x10) as int
    }

    /// Whether the header is followed by a transport header with ports.
    pub open spec fn has_ports(self) -> bool {
        self.protocol == PROTO_TCP || self.protocol == PROTO_UDP
    }
}

/// The destination port of a packet whose IPv4 header, `ip`, starts at `eth_len`. A header
/// length below the minimum and a transport header that ends too early are refused. A protocol
/// without ports has port 0. Otherwise the port stands in the third and fourth byte after the
/// header and its options.
pub open spec fn dst_port_of(
    ip: Ipv4Hdr,
    packet: Seq<u8>,
    eth_len: int,
) -> Result<HostOrderPort, i64> {
    let port_off = eth_len + ip.ihl() * 4 + 2;
    if ip.ihl() < 5 {
        Err(REFUSED)
    } else if !ip.has_ports() {
        Ok(HostOrderPort(0))
    } else if packet.len() < port_off + 2 {
        Err(REFUSED)
    } else {
        Ok(HostOrderPort(be16(packet[port_off], packet[port_off + 1])))
    }
}

/// Finds the destination port of a packet whose IPv4 header, `ip`, starts at `eth_len`.
pub fn parse_dst_port(ip: &Ipv4Hdr, packet: &[u8], eth_len: usize) -> (r: Result<
    HostOrderPort,
    i64,
>)
    ensures
        r == dst_port_of(*ip, packet@, eth_len as int),
{
    let first: u8 = ip.ihl_version;
    assert(first & 0x0f == first % 0x10) by (bit_vector);
    let ihl: usize = (ip.ihl_version & 0x0f) as usize;
    if ihl < 5 {
        return Err(REFUSED);
    }
    if ip.protocol != PROTO_TCP && ip.protocol != PROTO_UDP {
        return Ok(HostOrderPort(0));
    }
    if packet.len() < eth_len || packet.len() - eth_len < ihl * 4 + 4 {
        return Err(REFUSED);
    }
    let port_off: usize = eth_len + ihl * 4 + 2;
    let port_be: u16 = load16(packet, port_off);
    proof {
        law_wire_port_is_machine_independent(packet@[port_off as int], packet@[port_off + 1]);
    }
    Ok(HostOrderPort::from_network(port_be))
}

/// Offset of a fragment, in units of eight bytes, from the header word that holds it.
pub open spec fn fragment_offset(frag_off: u16) -> u16 {
    network16(frag_off) % 0x2000
}

/// Whether a packet is a fragment other than the first. Such a fragment has no transport header.
pub(crate) fn is_later_fragment(ip: &Ipv4Hdr) -> (r: bool)
    ensures
        r == (fragment_offset(ip.frag_off) != 0),
{
    let frag_off: u16 = u16::from_be(ip.frag_off);
    assert(frag_off & 0x1fff == frag_off % 0x2000) by (bit_vector);
    (frag_off & 0x1fff) != 0
}

} // verus!
