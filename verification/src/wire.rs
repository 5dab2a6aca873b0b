//! What words, addresses, ports and entries mean, told in the bytes that they are made of.
#![allow(unused_imports)]
use crate::byte_order::{
    be16, be32, law_ipv4_network_order_round_trips, law_wire_address_is_machine_independent,
    law_wire_port_is_machine_independent, native16, native32, native_bytes16, native_bytes32,
    native_bytes64, network16, network32, HostOrderIpv4, HostOrderPort,
};
use crate::map_types::{
    DummyIpRouteValue, EbpfPolicyKey, EbpfPolicyValue, EbpfPolicyWildcardKey, FlowEvent,
    PodNetCounters, SockStateValue, SocketCookie,
};
use crate::overlay::in_overlay;
use crate::packet::{dst_port_of, fragment_offset, Ipv4Hdr};
use vstd::endian::{endianness, Endian};
use vstd::prelude::*;

verus! {

/// The number that bytes spell on the wire, the first one being the most significant.
pub open spec fn number(bytes: Seq<u8>) -> int
    decreases bytes.len(),
{
    if bytes.len() == 0 {
        0
    } else {
        number(bytes.drop_last()) * 0x100 + bytes.last()
    }
}

/// Whether a word that lies in the machine's memory has these bytes there, in order.
pub open spec fn holds(word: int, bytes: Seq<u8>) -> bool {
    match endianness() {
        Endian::Little => word == number(bytes.reverse()),
        Endian::Big => word == number(bytes),
    }
}

/// A number of two bytes.
pub proof fn lemma_number_of_two(bytes: Seq<u8>)
    requires
        bytes.len() == 2,
    ensures
        number(bytes) == bytes[0] * 0x100 + bytes[1],
        number(bytes.reverse()) == bytes[1] * 0x100 + bytes[0],
{
    reveal_with_fuel(number, 3);
}

/// A number of four bytes.
pub proof fn lemma_number_of_four(bytes: Seq<u8>)
    requires
        bytes.len() == 4,
    ensures
        number(bytes) == bytes[0] * 0x100_0000 + bytes[1] * 0x1_0000 + bytes[2] * 0x100 + bytes[3],
        number(bytes.reverse()) == bytes[3] * 0x100_0000 + bytes[2] * 0x1_0000 + bytes[1] * 0x100
            + bytes[0],
{
    reveal_with_fuel(number, 5);
}

/// A number of eight bytes.
proof fn lemma_number_of_eight(bytes: Seq<u8>)
    requires
        bytes.len() == 8,
    ensures
        number(bytes) == bytes[0] * 0x100_0000_0000_0000 + bytes[1] * 0x1_0000_0000_0000 + bytes[2]
            * 0x100_0000_0000 + bytes[3] * 0x1_0000_0000 + bytes[4] * 0x100_0000 + bytes[5]
            * 0x1_0000 + bytes[6] * 0x100 + bytes[7],
{
    let high = bytes.subrange(0, 4);
    reveal_with_fuel(number, 5);
    let most = bytes.drop_last().drop_last().drop_last().drop_last();
    assert(most =~= high);
    lemma_number_of_four(high);
    assert(number(bytes) == (((number(high) * 0x100 + bytes[4]) * 0x100 + bytes[5]) * 0x100
        + bytes[6]) * 0x100 + bytes[7]);
}

/// Different bytes spell different addresses.
pub proof fn law_addresses_are_spelled_differently(a: Seq<u8>, b: Seq<u8>)
    requires
        a.len() == 4,
        b.len() == 4,
        number(a) == number(b),
    ensures
        a == b,
{
    lemma_number_of_four(a);
    lemma_number_of_four(b);
    assert(a =~= b);
}

/// Taken out of network order, a word is the number that its bytes spell on the wire. Put into
/// network order, it lies in memory as those bytes.
pub proof fn law_network_order_is_wire_order(word: u32, bytes: Seq<u8>)
    requires
        bytes.len() == 4,
    ensures
        holds(word as int, bytes) ==> network32(word) == number(bytes),
        word == number(bytes) ==> holds(network32(word) as int, bytes),
{
    lemma_number_of_four(bytes);
    let (b0, b1, b2, b3) = (bytes[0], bytes[1], bytes[2], bytes[3]);
    law_wire_address_is_machine_independent(b0, b1, b2, b3);
    law_ipv4_network_order_round_trips(native32(b0, b1, b2, b3));
}

/// Taken out of network order, a half word is the number that its bytes spell on the wire. Put
/// into network order, it lies in memory as those bytes.
pub proof fn law_port_network_order_is_wire_order(word: u16, bytes: Seq<u8>)
    requires
        bytes.len() == 2,
    ensures
        holds(word as int, bytes) ==> network16(word) == number(bytes),
        word == number(bytes) ==> holds(network16(word) as int, bytes),
{
    lemma_number_of_two(bytes);
    law_wire_port_is_machine_independent(bytes[0], bytes[1]);
}

/// Words loaded from memory hold the bytes that they were loaded from.
pub proof fn law_loaded_words_hold_their_bytes(b0: u8, b1: u8, b2: u8, b3: u8)
    ensures
        holds(native16(b0, b1) as int, seq![b0, b1]),
        holds(native32(b0, b1, b2, b3) as int, seq![b0, b1, b2, b3]),
        be16(b0, b1) == number(seq![b0, b1]),
        be32(b0, b1, b2, b3) == number(seq![b0, b1, b2, b3]),
{
    lemma_number_of_two(seq![b0, b1]);
    lemma_number_of_four(seq![b0, b1, b2, b3]);
}

/// The bytes of a half word or a word in an entry are those that it holds in memory.
pub proof fn law_entry_words_hold_their_bytes(half: u16, word: u32)
    ensures
        native_bytes16(half).len() == 2,
        native_bytes32(word).len() == 4,
        holds(half as int, native_bytes16(half)),
        holds(word as int, native_bytes32(word)),
{
    lemma_number_of_two(native_bytes16(half));
    lemma_number_of_four(native_bytes32(word));
}

/// The eight digits of a long word, to base 256, add up to it.
proof fn lemma_eight_digits(x: u64)
    ensures
        x == x / 0x100_0000_0000_0000 * 0x100_0000_0000_0000 + x / 0x1_0000_0000_0000 % 0x100
            * 0x1_0000_0000_0000 + x / 0x100_0000_0000 % 0x100 * 0x100_0000_0000 + x
            / 0x1_0000_0000 % 0x100 * 0x1_0000_0000 + x / 0x100_0000 % 0x100 * 0x100_0000 + x
            / 0x1_0000 % 0x100 * 0x1_0000 + x / 0x100 % 0x100 * 0x100 + x % 0x100,
        x / 0x100_0000_0000_0000 < 0x100,
{
    assert(x == x / 0x100_0000_0000_0000 * 0x100_0000_0000_0000 + x / 0x1_0000_0000_0000 % 0x100
        * 0x1_0000_0000_0000 + x / 0x100_0000_0000 % 0x100 * 0x100_0000_0000 + x / 0x1_0000_0000
        % 0x100 * 0x1_0000_0000 + x / 0x100_0000 % 0x100 * 0x100_0000 + x / 0x1_0000 % 0x100
        * 0x1_0000 + x / 0x100 % 0x100 * 0x100 + x % 0x100) by (bit_vector);
    assert(x / 0x100_0000_0000_0000 < 0x100) by (bit_vector);
}

/// The bytes of a long word in an entry are those that it holds in memory.
pub proof fn law_entry_long_words_hold_their_bytes(long: u64)
    ensures
        native_bytes64(long).len() == 8,
        holds(long as int, native_bytes64(long)),
{
    let high_first = match endianness() {
        Endian::Little => native_bytes64(long).reverse(),
        Endian::Big => native_bytes64(long),
    };
    lemma_number_of_eight(high_first);
    lemma_eight_digits(long);
}

/// An address lies in the overlay exactly where its first byte on the wire is at least 240.
pub proof fn law_overlay_is_known_by_its_first_byte(ip: HostOrderIpv4, bytes: Seq<u8>)
    requires
        bytes.len() == 4,
        ip.0 == number(bytes),
    ensures
        in_overlay(ip) <==> bytes[0] >= 240,
{
    lemma_number_of_four(bytes);
}

/// The fields of an IPv4 header are the bytes at their offsets from its start, and its words hold
/// those bytes.
pub proof fn law_header_fields_lie_at_their_offsets(packet: Seq<u8>, at: int)
    requires
        0 <= at,
        at + 20 <= packet.len(),
    ensures
        ({
            let ip = Ipv4Hdr::at(packet, at);
            &&& ip.ihl_version == packet[at]
            &&& ip.tos == packet[at + 1]
            &&& holds(ip.tot_len as int, packet.subrange(at + 2, at + 4))
            &&& holds(ip.id as int, packet.subrange(at + 4, at + 6))
            &&& holds(ip.frag_off as int, packet.subrange(at + 6, at + 8))
            &&& ip.ttl == packet[at + 8]
            &&& ip.protocol == packet[at + 9]
            &&& holds(ip.saddr as int, packet.subrange(at + 12, at + 16))
            &&& holds(ip.daddr as int, packet.subrange(at + 16, at + 20))
        }),
{
    lemma_number_of_two(packet.subrange(at + 2, at + 4));
    lemma_number_of_two(packet.subrange(at + 4, at + 6));
    lemma_number_of_two(packet.subrange(at + 6, at + 8));
    lemma_number_of_four(packet.subrange(at + 12, at + 16));
    lemma_number_of_four(packet.subrange(at + 16, at + 20));
}

/// The low thirteen bits of two bytes.
proof fn lemma_thirteen_bits(b0: u8, b1: u8)
    ensures
        (b0 * 0x100 + b1) % 0x2000 == b0 % 0x20 * 0x100 + b1,
{
}

/// The offset of a fragment is the low thirteen bits of the number that its two bytes spell.
pub proof fn law_fragment_offset_is_thirteen_bits(word: u16, bytes: Seq<u8>)
    requires
        bytes.len() == 2,
        holds(word as int, bytes),
    ensures
        fragment_offset(word) == number(bytes) % 0x2000,
        fragment_offset(word) == bytes[0] % 0x20 * 0x100 + bytes[1],
{
    lemma_number_of_two(bytes);
    law_port_network_order_is_wire_order(word, bytes);
    lemma_thirteen_bits(bytes[0], bytes[1]);
}

/// Which port a packet has. The low half of the header's first byte, `words`, counts the words of
/// the header; fewer than five are refused. Only TCP and UDP have ports: the number in the third
/// and fourth byte behind the header, which the packet must reach.
pub proof fn law_port_stands_behind_the_header(
    ip: Ipv4Hdr,
    packet: Seq<u8>,
    eth_len: int,
    version: int,
    words: int,
)
    requires
        0 <= eth_len,
        0 <= words < 16,
        ip.ihl_version == version * 16 + words,
    ensures
        ({
            let port = dst_port_of(ip, packet, eth_len);
            let end = eth_len + words * 4 + 4;
            let refused = Err::<HostOrderPort, i64>((-1) as i64);
            &&& words < 5 ==> port == refused
            &&& words >= 5 && ip.protocol != 6 && ip.protocol != 17 ==> port == Ok::<_, i64>(
                HostOrderPort(0),
            )
            &&& words >= 5 && (ip.protocol == 6 || ip.protocol == 17) && packet.len() < end
                ==> port == refused
            &&& words >= 5 && (ip.protocol == 6 || ip.protocol == 17) && packet.len() >= end ==> {
                &&& port is Ok
                &&& port->Ok_0.0 == number(packet.subrange(end - 2, end))
            }
        }),
{
    let end = eth_len + words * 4 + 4;
    assert(ip.ihl() == words);
    if packet.len() >= end {
        lemma_number_of_two(packet.subrange(end - 2, end));
    }
}

/// A policy rule's entries: the keys and the value have their fields one behind the other, padding
/// and all, with words as the machine holds them.
pub proof fn law_policy_entries_hold_their_fields(
    key: EbpfPolicyKey,
    wildcard: EbpfPolicyWildcardKey,
    value: EbpfPolicyValue,
)
    ensures
        key.image().subrange(0, 16) == key.src_fingerprint.0@,
        key.image().subrange(16, 32) == key.dst_fingerprint.0@,
        key.image()[32] == key.protocol,
        key.image().subrange(33, 36) == key._pad@,
        holds(key.dst_port.0 as int, key.image().subrange(36, 38)),
        key.image().subrange(38, 40) == key._pad2@,
        wildcard.image().subrange(0, 16) == wildcard.src_fingerprint.0@,
        wildcard.image().subrange(16, 32) == wildcard.dst_fingerprint.0@,
        holds(value.sag_version as int, value.image().subrange(0, 8)),
        value.image()[8] == value.decision,
        value.image().subrange(9, 16) == value._pad@,
{
    law_entry_words_hold_their_bytes(key.dst_port.0, 0);
    law_entry_long_words_hold_their_bytes(value.sag_version);
    assert(key.image().subrange(36, 38) =~= native_bytes16(key.dst_port.0));
    assert(value.image().subrange(0, 8) =~= native_bytes64(value.sag_version));
    assert(key.image().subrange(0, 16) =~= key.src_fingerprint.0@);
    assert(key.image().subrange(16, 32) =~= key.dst_fingerprint.0@);
    assert(key.image().subrange(33, 36) =~= key._pad@);
    assert(key.image().subrange(38, 40) =~= key._pad2@);
    assert(value.image().subrange(9, 16) =~= value._pad@);
}

/// The entries of routes, remembered connections and sockets, and the records of flows: fields one
/// behind the other, with words as the machine holds them.
pub proof fn law_other_entries_hold_their_fields(
    ip: HostOrderIpv4,
    cookie: SocketCookie,
    route: DummyIpRouteValue,
    state: SockStateValue,
    event: FlowEvent,
)
    ensures
        holds(ip.0 as int, ip.image()),
        holds(cookie.0 as int, cookie.image()),
        route.image().subrange(0, 16) == route.dst_fp.0@,
        route.image().subrange(16, 32) == route.target_agent_fp.0@,
        holds(route.sag_version as int, route.image().subrange(32, 40)),
        state.image().subrange(0, 16) == state.dst_fp.0@,
        state.image().subrange(16, 32) == state.target_agent_fp.0@,
        event.image().subrange(0, 16) == event.src_hash.0@,
        event.image().subrange(16, 32) == event.dst_hash.0@,
        holds(event.port.0 as int, event.image().subrange(32, 34)),
        event.image()[34] == event.action,
        event.image()[35] == event.direction,
        event.image().subrange(36, 40) == event._pad@,
{
    law_entry_words_hold_their_bytes(event.port.0, ip.0);
    law_entry_long_words_hold_their_bytes(cookie.0);
    law_entry_long_words_hold_their_bytes(route.sag_version);
    assert(route.image().subrange(32, 40) =~= native_bytes64(route.sag_version));
    assert(event.image().subrange(32, 34) =~= native_bytes16(event.port.0));
    assert(route.image().subrange(0, 16) =~= route.dst_fp.0@);
    assert(route.image().subrange(16, 32) =~= route.target_agent_fp.0@);
    assert(state.image().subrange(0, 16) =~= state.dst_fp.0@);
    assert(state.image().subrange(16, 32) =~= state.target_agent_fp.0@);
    assert(event.image().subrange(0, 16) =~= event.src_hash.0@);
    assert(event.image().subrange(16, 32) =~= event.dst_hash.0@);
    assert(event.image().subrange(36, 40) =~= event._pad@);
}

/// A workload's counters stand in their entry as four words, eight bytes apart.
pub proof fn law_counter_entries_hold_their_fields(c: PodNetCounters)
    ensures
        holds(c.tx_bytes as int, c.image().subrange(0, 8)),
        holds(c.tx_packets as int, c.image().subrange(8, 16)),
        holds(c.rx_bytes as int, c.image().subrange(16, 24)),
        holds(c.rx_packets as int, c.image().subrange(24, 32)),
{
    law_entry_long_words_hold_their_bytes(c.tx_bytes);
    law_entry_long_words_hold_their_bytes(c.tx_packets);
    law_entry_long_words_hold_their_bytes(c.rx_bytes);
    law_entry_long_words_hold_their_bytes(c.rx_packets);
    assert(c.image().subrange(0, 8) =~= native_bytes64(c.tx_bytes));
    assert(c.image().subrange(8, 16) =~= native_bytes64(c.tx_packets));
    assert(c.image().subrange(16, 24) =~= native_bytes64(c.rx_bytes));
    assert(c.image().subrange(24, 32) =~= native_bytes64(c.rx_packets));
}

} // verus!
