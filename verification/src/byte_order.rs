//! Network byte order: how the two newtypes over wire integers are read and written.
use vstd::endian::{endianness, Endian};
use vstd::prelude::*;

verus! {

/// The number that two bytes spell, most significant byte first.
pub open spec fn be16(b0: u8, b1: u8) -> u16 {
    (b0 * 0x100 + b1) as u16
}

/// The number that four bytes spell, most significant byte first.
pub open spec fn be32(b0: u8, b1: u8, b2: u8, b3: u8) -> u32 {
    (b0 * 0x100_0000 + b1 * 0x1_0000 + b2 * 0x100 + b3) as u32
}

/// `x` with its two bytes in the opposite order.
pub open spec fn swapped16(x: u16) -> u16 {
    be16((x % 0x100) as u8, (x / 0x100) as u8)
}

/// `x` with its four bytes in the opposite order.
pub open spec fn swapped32(x: u32) -> u32 {
    be32(
        (x % 0x100) as u8,
        (x / 0x100 % 0x100) as u8,
        (x / 0x1_0000 % 0x100) as u8,
        (x / 0x100_0000) as u8,
    )
}

/// Host order to network order and back: a swap on a little-endian machine, nothing on a
/// big-endian one.
pub open spec fn network16(x: u16) -> u16 {
    match endianness() {
        Endian::Little => swapped16(x),
        Endian::Big => x,
    }
}

/// Host order to network order and back: a swap on a little-endian machine, nothing on a
/// big-endian one.
pub open spec fn network32(x: u32) -> u32 {
    match endianness() {
        Endian::Little => swapped32(x),
        Endian::Big => x,
    }
}

/// The integer that a machine holds when its memory holds these two bytes.
pub open spec fn native16(b0: u8, b1: u8) -> u16 {
    match endianness() {
        Endian::Little => be16(b1, b0),
        Endian::Big => be16(b0, b1),
    }
}

/// The integer that a machine holds when its memory holds these four bytes.
pub open spec fn native32(b0: u8, b1: u8, b2: u8, b3: u8) -> u32 {
    match endianness() {
        Endian::Little => be32(b3, b2, b1, b0),
        Endian::Big => be32(b0, b1, b2, b3),
    }
}

/// The bytes of `x` in the machine's memory.
pub open spec fn native_bytes16(x: u16) -> Seq<u8> {
    match endianness() {
        Endian::Little => seq![(x % 0x100) as u8, (x / 0x100) as u8],
        Endian::Big => seq![(x / 0x100) as u8, (x % 0x100) as u8],
    }
}

/// The bytes of `x` in the machine's memory.
pub open spec fn native_bytes32(x: u32) -> Seq<u8> {
    let low_first = seq![
        (x % 0x100) as u8,
        (x / 0x100 % 0x100) as u8,
        (x / 0x1_0000 % 0x100) as u8,
        (x / 0x100_0000) as u8,
    ];
    match endianness() {
        Endian::Little => low_first,
        Endian::Big => low_first.reverse(),
    }
}

/// The bytes of `x` in the machine's memory.
pub open spec fn native_bytes64(x: u64) -> Seq<u8> {
    let low_first = seq![
        (x % 0x100) as u8,
        (x / 0x100 % 0x100) as u8,
        (x / 0x1_0000 % 0x100) as u8,
        (x / 0x100_0000 % 0x100) as u8,
        (x / 0x1_0000_0000 % 0x100) as u8,
        (x / 0x100_0000_0000 % 0x100) as u8,
        (x / 0x1_0000_0000_0000 % 0x100) as u8,
        (x / 0x100_0000_0000_0000) as u8,
    ];
    match endianness() {
        Endian::Little => low_first,
        Endian::Big => low_first.reverse(),
    }
}

/// `u16::from_be` takes a word out of network order: a little-endian machine swaps its bytes, a
/// big-endian one keeps it as it is.
pub assume_specification[ u16::from_be ](x: u16) -> (r: u16)
    ensures
        r == network16(x),
;

/// `u16::to_be` puts a word into network order: a little-endian machine swaps its bytes, a
/// big-endian one keeps it as it is.
pub assume_specification[ u16::to_be ](x: u16) -> (r: u16)
    ensures
        r == network16(x),
;

/// `u32::from_be` takes a word out of network order: a little-endian machine swaps its bytes, a
/// big-endian one keeps it as it is.
pub assume_specification[ u32::from_be ](x: u32) -> (r: u32)
    ensures
        r == network32(x),
;

/// `u32::to_be` puts a word into network order: a little-endian machine swaps its bytes, a
/// big-endian one keeps it as it is.
pub assume_specification[ u32::to_be ](x: u32) -> (r: u32)
    ensures
        r == network32(x),
;

/// The integer whose bytes in memory are the given ones, in order.
pub(crate) fn native_word16(bytes: [u8; 2]) -> (r: u16)
    ensures
        r == native16(bytes[0], bytes[1]),
{
    let spelled: u16 = bytes[0] as u16 * 0x100 + bytes[1] as u16;
    spelled.to_be()
}

/// The integer whose bytes in memory are the given ones, in order.
pub(crate) fn native_word32(bytes: [u8; 4]) -> (r: u32)
    ensures
        r == native32(bytes[0], bytes[1], bytes[2], bytes[3]),
{
    let spelled: u32 = bytes[0] as u32 * 0x100_0000 + bytes[1] as u32 * 0x1_0000 + bytes[2] as u32
        * 0x100 + bytes[3] as u32;
    proof {
        lemma_swapped_be32(bytes[0], bytes[1], bytes[2], bytes[3]);
    }
    spelled.to_be()
}

/// An IPv4 address in host byte order.
#[derive(Copy, Clone, Debug, PartialEq, Eq, Structural)]
pub struct HostOrderIpv4(pub u32);

impl HostOrderIpv4 {
    /// The address whose network-order word is `be`.
    pub fn from_network(be: u32) -> (r: Self)
        ensures
            r.0 == network32(be),
    {
        Self(u32::from_be(be))
    }

    /// The network-order word of this address.
    pub fn to_network(self) -> (r: u32)
        ensures
            r == network32(self.0),
    {
        self.0.to_be()
    }
}

/// A transport port in host byte order.
#[derive(Copy, Clone, Debug, PartialEq, Eq, Structural)]
pub struct HostOrderPort(pub u16);

impl HostOrderPort {
    /// The port whose network-order word is `be`.
    pub fn from_network(be: u16) -> (r: Self)
        ensures
            r.0 == network16(be),
    {
        Self(u16::from_be(be))
    }

    /// The network-order word of this port.
    pub fn to_network(self) -> (r: u16)
        ensures
            r == network16(self.0),
    {
        self.0.to_be()
    }
}

/// Swapping the number that four bytes spell gives the number that they spell backwards.
proof fn lemma_swapped_be32(b0: u8, b1: u8, b2: u8, b3: u8)
    ensures
        swapped32(be32(b0, b1, b2, b3)) == be32(b3, b2, b1, b0),
{
    let x: u32 = be32(b0, b1, b2, b3);
    assert(x / 0x100 == b0 * 0x1_0000 + b1 * 0x100 + b2);
    assert(x / 0x1_0000 == b0 * 0x100 + b1);
    assert(x / 0x100_0000 == b0);
    assert(x % 0x100 == b3);
    assert(x / 0x100 % 0x100 == b2);
    assert(x / 0x1_0000 % 0x100 == b1);
}

/// Changing the byte order of an address twice gives the address back, so `from_network` and
/// `to_network` undo each other in both directions.
pub proof fn law_ipv4_network_order_round_trips(x: u32)
    ensures
        network32(network32(x)) == x,
{
    let b0: u8 = (x / 0x100_0000) as u8;
    let b1: u8 = (x / 0x1_0000 % 0x100) as u8;
    let b2: u8 = (x / 0x100 % 0x100) as u8;
    let b3: u8 = (x % 0x100) as u8;
    assert(x == be32(b0, b1, b2, b3));
    lemma_swapped_be32(b3, b2, b1, b0);
}

/// Changing the byte order of a port twice gives the port back, so `from_network` and
/// `to_network` undo each other in both directions.
pub proof fn law_port_network_order_round_trips(x: u16)
    ensures
        network16(network16(x)) == x,
{
}

/// Loading four bytes of a packet as a native word and then taking it out of network order
/// gives the number that the bytes spell on the wire, whatever the machine's own byte order.
pub proof fn law_wire_address_is_machine_independent(b0: u8, b1: u8, b2: u8, b3: u8)
    ensures
        network32(native32(b0, b1, b2, b3)) == be32(b0, b1, b2, b3),
{
    lemma_swapped_be32(b3, b2, b1, b0);
}

/// Loading two bytes of a packet as a native word and then taking it out of network order
/// gives the number that the bytes spell on the wire, whatever the machine's own byte order.
pub proof fn law_wire_port_is_machine_independent(b0: u8, b1: u8)
    ensures
        network16(native16(b0, b1)) == be16(b0, b1),
{
}

} // verus!
