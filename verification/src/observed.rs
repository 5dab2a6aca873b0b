//! What the hooks do, told in the bytes and words that they are handed, the entries that the
//! kernel's maps hold, and the numbers that user space reads.
#![allow(unused_imports)]
use crate::byte_order::{network32, HostOrderIpv4, HostOrderPort};
use crate::connect4::{
    connect4_ops, connection_of, low_half, remembered, rewrite_to_agent, SockAddr,
};
use crate::counters::{accounted, aggregated, per_sec, rated, totals, wrapped, Agg};
use crate::ingress_filter::{filter_code, AwaitHeader, Filter, FleetosHeader, RuleKey, RuleLookup};
use crate::kernel::{Kernel, Op};
use crate::map_types::{
    EbpfPolicyKey, EbpfPolicyWildcardKey, FlowEvent, IdentityFingerprint, PodNetCounters,
    SockStateValue,
};
use crate::overlay::in_overlay;
use crate::packet::Ipv4Hdr;
use crate::policy::{decision, exact_key, policy_ops};
use crate::sk_msg::{redirect_code, sk_msg_ops};
use crate::sockops::sockops_ops;
use crate::tc::{
    dst_ip_of, evaluate_ops, event_of, flow_of, report_ops, src_ip_of, tc_ops, Direction,
};
use crate::wire::{
    holds, law_addresses_are_spelled_differently, law_header_fields_lie_at_their_offsets,
    law_network_order_is_wire_order, law_overlay_is_known_by_its_first_byte,
    law_port_network_order_is_wire_order, law_port_stands_behind_the_header, lemma_number_of_four,
    lemma_number_of_two, number,
};
use vstd::prelude::*;

verus! {

// Policy

/// Whether a key is that of the exact rule for these identities, protocol and port.
pub open spec fn names(
    key: EbpfPolicyKey,
    src: IdentityFingerprint,
    dst: IdentityFingerprint,
    protocol: u8,
    port: u16,
) -> bool {
    &&& key.src_fingerprint == src
    &&& key.dst_fingerprint == dst
    &&& key.protocol == protocol
    &&& key.dst_port.0 == port
    &&& key._pad == [0u8, 0u8, 0u8]
    &&& key._pad2 == [0u8, 0u8]
}

/// Whether these are the keys of the exact rules that may speak for a flow, the most specific one
/// first: a rule for any port is less specific than one for the flow's, and a rule for any protocol
/// less than both. Where the flow itself has a zero, keys coincide and stand here once.
pub open spec fn are_candidates(
    keys: Seq<EbpfPolicyKey>,
    src: IdentityFingerprint,
    dst: IdentityFingerprint,
    protocol: u8,
    port: u16,
) -> bool {
    if protocol != 0 && port != 0 {
        &&& keys.len() == 4
        &&& names(keys[0], src, dst, protocol, port)
        &&& names(keys[1], src, dst, protocol, 0)
        &&& names(keys[2], src, dst, 0, port)
        &&& names(keys[3], src, dst, 0, 0)
    } else if protocol != 0 || port != 0 {
        &&& keys.len() == 2
        &&& names(keys[0], src, dst, protocol, port)
        &&& names(keys[1], src, dst, 0, 0)
    } else {
        &&& keys.len() == 1
        &&& names(keys[0], src, dst, 0, 0)
    }
}

/// A key is known by its fields.
proof fn lemma_named_key(
    key: EbpfPolicyKey,
    src: IdentityFingerprint,
    dst: IdentityFingerprint,
    protocol: u8,
    port: u16,
)
    requires
        names(key, src, dst, protocol, port),
    ensures
        key == exact_key(src, dst, protocol, HostOrderPort(port)),
{
}

/// The first of the candidate keys that has a rule decides, after each before it was asked for
/// once. `first` is its position.
pub proof fn law_first_exact_rule_decides(
    k: Kernel,
    src: IdentityFingerprint,
    dst: IdentityFingerprint,
    protocol: u8,
    dst_port: HostOrderPort,
    keys: Seq<EbpfPolicyKey>,
    first: int,
)
    requires
        are_candidates(keys, src, dst, protocol, dst_port.0),
        0 <= first < keys.len(),
        forall|i: int| 0 <= i < first ==> !k.exact.dom().contains(#[trigger] keys[i]),
        k.exact.dom().contains(keys[first]),
    ensures
        ({
            let ops = policy_ops(k, src, dst, protocol, dst_port);
            let decided = k.exact[keys[first]].decision;
            &&& decision(k, src, dst, protocol, dst_port) == decided
            &&& ops.len() == first + 2
            &&& forall|i: int| 0 <= i <= first ==> ops[i] == Op::Exact(#[trigger] keys[i])
            &&& ops[first + 1] == Op::Bump(
                if decided == 1 {
                    0
                } else {
                    1
                },
            )
        }),
{
    lemma_candidates(keys, src, dst, protocol, dst_port.0);
    assert(forall|i: int| 0 <= i < first ==> k.exact.get(#[trigger] keys[i]) is None);
}

/// The candidate keys, as the evaluation makes them.
proof fn lemma_candidates(
    keys: Seq<EbpfPolicyKey>,
    src: IdentityFingerprint,
    dst: IdentityFingerprint,
    protocol: u8,
    port: u16,
)
    requires
        are_candidates(keys, src, dst, protocol, port),
    ensures
        keys[0] == exact_key(src, dst, protocol, HostOrderPort(port)),
        keys[keys.len() - 1] == exact_key(src, dst, 0, HostOrderPort(0)),
        keys.len() == 4 ==> keys[1] == exact_key(src, dst, protocol, HostOrderPort(0)),
        keys.len() == 4 ==> keys[2] == exact_key(src, dst, 0, HostOrderPort(port)),
{
    lemma_named_key(keys[0], src, dst, protocol, port);
    lemma_named_key(keys[keys.len() - 1], src, dst, 0, 0);
    if keys.len() == 4 {
        lemma_named_key(keys[1], src, dst, protocol, 0);
        lemma_named_key(keys[2], src, dst, 0, port);
    }
}

/// Where none of the candidate keys has a rule, each was asked for once, and the wildcard rule
/// decides: the one whose key has the flow's two identities, field by field. Where there is none,
/// the flow is denied.
pub proof fn law_wildcard_rule_is_that_of_the_two_identities(
    k: Kernel,
    src: IdentityFingerprint,
    dst: IdentityFingerprint,
    protocol: u8,
    dst_port: HostOrderPort,
    keys: Seq<EbpfPolicyKey>,
    wildcard: EbpfPolicyWildcardKey,
)
    requires
        are_candidates(keys, src, dst, protocol, dst_port.0),
        forall|i: int|
            0 <= i < keys.len() ==> !k.exact.dom().contains(#[trigger] keys[i]),
        wildcard.src_fingerprint == src,
        wildcard.dst_fingerprint == dst,
    ensures
        ({
            let ops = policy_ops(k, src, dst, protocol, dst_port);
            let decided = decision(k, src, dst, protocol, dst_port);
            let n = keys.len() as int;
            &&& forall|i: int| 0 <= i < n ==> ops[i] == Op::Exact(#[trigger] keys[i])
            &&& ops[n] == Op::Wildcard(wildcard)
            &&& k.wildcard.dom().contains(wildcard) ==> {
                &&& decided == k.wildcard[wildcard].decision
                &&& ops.len() == n + 3
                &&& ops[n + 1] == Op::Bump(2)
                &&& ops[n + 2] == Op::Bump(
                    if decided == 1 {
                        0
                    } else {
                        1
                    },
                )
            }
            &&& !k.wildcard.dom().contains(wildcard) ==> {
                &&& decided == 0
                &&& ops.len() == n + 2
                &&& ops[n + 1] == Op::Bump(3)
            }
        }),
{
    lemma_candidates(keys, src, dst, protocol, dst_port.0);
    assert(forall|i: int| 0 <= i < keys.len() ==> k.exact.get(#[trigger] keys[i]) is None);
}

/// Policy on a flow depends on no rule but those for exactly its two identities: where two nodes
/// agree on these, they decide alike and do the same.
pub proof fn law_policy_depends_on_rules_of_the_two_identities(
    k: Kernel,
    other: Kernel,
    src: IdentityFingerprint,
    dst: IdentityFingerprint,
    protocol: u8,
    dst_port: HostOrderPort,
)
    requires
        forall|key: EbpfPolicyKey|
            key.src_fingerprint == src && key.dst_fingerprint == dst ==> #[trigger] k.exact.get(key)
                == other.exact.get(key),
        forall|key: EbpfPolicyWildcardKey|
            key.src_fingerprint == src && key.dst_fingerprint == dst ==> #[trigger]
            k.wildcard.get(key) == other.wildcard.get(key),
    ensures
        decision(k, src, dst, protocol, dst_port) == decision(other, src, dst, protocol, dst_port),
        policy_ops(k, src, dst, protocol, dst_port) == policy_ops(
            other,
            src,
            dst,
            protocol,
            dst_port,
        ),
{
}

// The connect hook

/// What is known of the bytes behind the words of a connection: its two addresses, its port and
/// its protocol.
pub open spec fn describes(
    sa: SockAddr,
    src: Seq<u8>,
    dst: Seq<u8>,
    port: Seq<u8>,
    protocol: u8,
) -> bool {
    &&& src.len() == 4 && holds(sa.msg_src_ip4 as int, src)
    &&& dst.len() == 4 && holds(sa.user_ip4 as int, dst)
    &&& port.len() == 2 && holds(sa.user_port as int % 0x1_0000, port)
    &&& protocol == sa.protocol as int % 0x100
}

/// The bytes behind a connection's words, read as the hook reads them.
proof fn lemma_described(
    sa: SockAddr,
    src: Seq<u8>,
    dst: Seq<u8>,
    port: Seq<u8>,
    protocol: u8,
)
    requires
        describes(sa, src, dst, port, protocol),
    ensures
        connection_of(sa).src_ip.0 == number(src),
        connection_of(sa).dst_ip.0 == number(dst),
        connection_of(sa).dst_port.0 == number(port),
        connection_of(sa).protocol == protocol,
        in_overlay(connection_of(sa).dst_ip) <==> dst[0] >= 240,
{
    law_network_order_is_wire_order(sa.msg_src_ip4, src);
    law_network_order_is_wire_order(sa.user_ip4, dst);
    law_port_network_order_is_wire_order(low_half(sa.user_port), port);
    law_overlay_is_known_by_its_first_byte(connection_of(sa).dst_ip, dst);
}

/// A connection whose destination begins with a byte below 240 is counted and let through, and
/// nothing else. Every other asks first for the route of its destination, whose number is that of
/// the four bytes, and is never counted as passing through.
pub proof fn law_connection_enters_overlay_by_its_first_byte(
    k: Kernel,
    sa: SockAddr,
    src: Seq<u8>,
    dst: Seq<u8>,
    port: Seq<u8>,
    protocol: u8,
)
    requires
        describes(sa, src, dst, port, protocol),
    ensures
        ({
            let ops = connect4_ops(k, sa);
            &&& dst[0] < 240 ==> ops == seq![Op::Bump(5), Op::Exit(1)]
            &&& dst[0] >= 240 ==> {
                &&& ops[0] matches Op::Route(ip) && ip.0 == number(dst)
                &&& !ops.contains(Op::Bump(5))
            }
        }),
{
    lemma_described(sa, src, dst, port, protocol);
    let c = connection_of(sa);
    if dst[0] >= 240 {
        let s = k.identities.get(c.src_ip)->0;
        let d = (k.routes.get(c.dst_ip)->0).dst_fp;
        lemma_policy_counts_its_outcome(k, s, d, c.protocol, c.dst_port);
    }
}

/// A policy evaluation counts no statistic but those of its outcome.
proof fn lemma_policy_counts_its_outcome(
    k: Kernel,
    src: IdentityFingerprint,
    dst: IdentityFingerprint,
    protocol: u8,
    dst_port: HostOrderPort,
)
    ensures
        ({
            let ops = policy_ops(k, src, dst, protocol, dst_port);
            forall|i: int| 0 <= i < ops.len() ==> match #[trigger] ops[i] {
                Op::Bump(index) => index <= 3,
                Op::Exact(_) | Op::Wildcard(_) => true,
                _ => false,
            }
        }),
{
}

/// A connection into the overlay without a route is refused, and so is one whose source address has
/// no identity. Each is counted as what it is.
pub proof fn law_unknown_ends_are_refused(
    k: Kernel,
    sa: SockAddr,
    src: Seq<u8>,
    dst: Seq<u8>,
    port: Seq<u8>,
    protocol: u8,
    src_ip: HostOrderIpv4,
    dst_ip: HostOrderIpv4,
)
    requires
        describes(sa, src, dst, port, protocol),
        dst[0] >= 240,
        src_ip.0 == number(src),
        dst_ip.0 == number(dst),
    ensures
        !k.routes.dom().contains(dst_ip) ==> connect4_ops(k, sa) == seq![
            Op::Route(dst_ip),
            Op::Bump(4),
            Op::Exit(0),
        ],
        k.routes.dom().contains(dst_ip) && !k.identities.dom().contains(src_ip) ==> connect4_ops(
            k,
            sa,
        ) == seq![Op::Route(dst_ip), Op::Identity(src_ip), Op::Bump(3), Op::Exit(0)],
{
    lemma_described(sa, src, dst, port, protocol);
    assert(connection_of(sa).src_ip == src_ip);
    assert(connection_of(sa).dst_ip == dst_ip);
}

/// A connection between known ends is put before policy with the identity of its source, that of
/// the workload behind its destination, its protocol and its port. If policy says "allow" and
/// nothing else, the workload and the agent behind the route are remembered under the socket's
/// cookie, if it has one, and the connection goes to 127.0.0.1, port 4242, whose bytes are those
/// of the two words that are written.
pub proof fn law_known_ends_are_put_before_policy(
    k: Kernel,
    sa: SockAddr,
    src: Seq<u8>,
    dst: Seq<u8>,
    port: Seq<u8>,
    protocol: u8,
    src_ip: HostOrderIpv4,
    dst_ip: HostOrderIpv4,
    dst_port: HostOrderPort,
    to_ip: u32,
    to_port: u32,
)
    requires
        describes(sa, src, dst, port, protocol),
        dst[0] >= 240,
        src_ip.0 == number(src),
        dst_ip.0 == number(dst),
        dst_port.0 == number(port),
        k.routes.dom().contains(dst_ip),
        k.identities.dom().contains(src_ip),
        holds(to_ip as int, seq![127u8, 0u8, 0u8, 1u8]),
        holds(to_port as int, seq![0x10u8, 0x92u8]),
    ensures
        ({
            let ops = connect4_ops(k, sa);
            let route = k.routes[dst_ip];
            let fp = k.identities[src_ip];
            let decided = decision(k, fp, route.dst_fp, protocol, dst_port);
            let put = seq![Op::Route(dst_ip), Op::Identity(src_ip)] + policy_ops(
                k,
                fp,
                route.dst_fp,
                protocol,
                dst_port,
            );
            let state = SockStateValue {
                dst_fp: route.dst_fp,
                target_agent_fp: route.target_agent_fp,
            };
            let rewrite = Op::Rewrite { user_ip4: to_ip, user_port: to_port };
            &&& decided != 1 ==> ops == put + seq![Op::Exit(0)]
            &&& decided == 1 && k.cookie.0 == 0 ==> ops == put + seq![
                Op::Cookie,
                Op::Bump(6),
                rewrite,
                Op::Exit(1),
            ]
            &&& decided == 1 && k.cookie.0 != 0 ==> ops == put + seq![
                Op::Cookie,
                Op::Store(k.cookie, state),
                Op::Bump(6),
                rewrite,
                Op::Exit(1),
            ]
        }),
{
    lemma_described(sa, src, dst, port, protocol);
    assert(connection_of(sa).src_ip == src_ip);
    assert(connection_of(sa).dst_ip == dst_ip);
    assert(connection_of(sa).dst_port == dst_port);
    let (agent, agent_port) = (seq![127u8, 0u8, 0u8, 1u8], seq![0x10u8, 0x92u8]);
    lemma_number_of_four(agent);
    lemma_number_of_two(agent_port);
    law_network_order_is_wire_order(0x7f00_0001, agent);
    law_port_network_order_is_wire_order(4242, agent_port);
    assert(rewrite_to_agent() == Op::Rewrite { user_ip4: to_ip, user_port: to_port });
}

// The packet hooks

/// Whether a packet is IPv4 and addressed to the overlay: 14 bytes of Ethernet header that end in
/// the type 0x0800, then an IPv4 header whose destination begins with a byte of at least 240.
pub open spec fn enters_overlay(packet: Seq<u8>) -> bool {
    &&& packet.len() >= 34
    &&& number(packet.subrange(12, 14)) == 0x0800
    &&& packet[30] >= 240
}

/// Whether these are the two addresses of a packet: the numbers of bytes 12 to 16 and 16 to 20 of
/// its IPv4 header.
pub open spec fn is_between(packet: Seq<u8>, src_ip: HostOrderIpv4, dst_ip: HostOrderIpv4) -> bool {
    &&& src_ip.0 == number(packet.subrange(26, 30))
    &&& dst_ip.0 == number(packet.subrange(30, 34))
}

/// Whether the headers of a packet have the form that gives it a port: at least five words of IPv4
/// header, and for TCP and UDP the first four bytes of a transport header behind them.
pub open spec fn is_well_formed(packet: Seq<u8>) -> bool {
    let words = packet[14] as int % 16;
    &&& words >= 5
    &&& packet[23] == 6 || packet[23] == 17 ==> packet.len() >= 14 + words * 4 + 4
}

/// Whether this is the port of a well-formed packet: for TCP and UDP the number of bytes 2 to 4 of
/// the transport header, else zero.
pub open spec fn is_bound_for(packet: Seq<u8>, port: HostOrderPort) -> bool {
    let transport = 14 + packet[14] as int % 16 * 4;
    if packet[23] == 6 || packet[23] == 17 {
        port.0 == number(packet.subrange(transport + 2, transport + 4))
    } else {
        port.0 == 0
    }
}

/// What a hook asks before it looks at a packet into the overlay: on the way in, the boot gate.
pub open spec fn opening(direction: Direction) -> Seq<Op> {
    match direction {
        Direction::Ingress => seq![Op::Gate],
        Direction::Egress => seq![],
    }
}

/// Whether the boot gate is no obstacle: it is armed, or the packet is on the way out.
pub open spec fn is_open(k: Kernel, direction: Direction) -> bool {
    direction == Direction::Egress || k.gate == Some(1u32)
}

/// A packet's bytes, read as the hooks read them.
proof fn lemma_read_packet(
    direction: Direction,
    packet: Seq<u8>,
    len: u32,
    src_ip: HostOrderIpv4,
    dst_ip: HostOrderIpv4,
)
    requires
        packet.len() >= 34,
        is_between(packet, src_ip, dst_ip),
    ensures
        ({
            let flow = flow_of(direction, packet, len);
            &&& flow.direction == direction
            &&& flow.src_ip == src_ip
            &&& flow.dst_ip == dst_ip
            &&& dst_ip_of(packet) == dst_ip
            &&& flow.protocol == packet[23]
            &&& flow.len == len
            &&& flow.later_fragment <==> number(packet.subrange(20, 22)) % 0x2000 != 0
            &&& in_overlay(dst_ip) <==> packet[30] >= 240
            &&& crate::tc::is_ipv4(packet) <==> number(packet.subrange(12, 14)) == 0x0800
        }),
{
    lemma_number_of_four(packet.subrange(26, 30));
    lemma_number_of_four(packet.subrange(30, 34));
    lemma_number_of_two(packet.subrange(12, 14));
    lemma_number_of_two(packet.subrange(20, 22));
    law_overlay_is_known_by_its_first_byte(dst_ip, packet.subrange(30, 34));
}

/// A packet's port, read as the hooks read it.
proof fn lemma_read_port(direction: Direction, packet: Seq<u8>, len: u32)
    requires
        packet.len() >= 34,
    ensures
        ({
            let flow = flow_of(direction, packet, len);
            &&& is_well_formed(packet) <==> flow.dst_port is Ok
            &&& is_well_formed(packet) ==> is_bound_for(packet, flow.dst_port->Ok_0)
        }),
{
    let ip = Ipv4Hdr::at(packet, 14);
    let first = packet[14] as int;
    law_header_fields_lie_at_their_offsets(packet, 14);
    law_port_stands_behind_the_header(ip, packet, 14, first / 16, first % 16);
}

/// A packet too short for its headers is dropped, one that is not IPv4 passes, and so does, counted
/// as passing through, one whose destination begins with a byte below 240. Nothing is asked of the
/// kernel for any of them.
pub proof fn law_packet_enters_overlay_by_its_first_byte(
    k: Kernel,
    direction: Direction,
    packet: Seq<u8>,
    len: u32,
)
    ensures
        ({
            let ops = tc_ops(k, direction, packet, len);
            &&& packet.len() < 34 ==> ops == seq![Op::Exit(2)]
            &&& packet.len() >= 34 && number(packet.subrange(12, 14)) != 0x0800 ==> ops == seq![
                Op::Exit(0),
            ]
            &&& packet.len() >= 34 && number(packet.subrange(12, 14)) == 0x0800 && packet[30] < 240
                ==> ops == seq![Op::Bump(5), Op::Exit(0)]
            &&& enters_overlay(packet) ==> !ops.contains(Op::Bump(5))
        }),
{
    if packet.len() >= 34 {
        let (src_ip, dst_ip) = (src_ip_of(packet), dst_ip_of(packet));
        lemma_number_of_four(packet.subrange(26, 30));
        lemma_number_of_four(packet.subrange(30, 34));
        lemma_read_packet(direction, packet, len, src_ip, dst_ip);
        if enters_overlay(packet) {
            let flow = flow_of(direction, packet, len);
            let s = k.identities.get(flow.src_ip)->0;
            let d = (k.routes.get(flow.dst_ip)->0).dst_fp;
            lemma_policy_counts_its_outcome(k, s, d, flow.protocol, flow.dst_port->Ok_0);
            let evaluated = evaluate_ops(k, flow);
            assert(forall|i: int|
                0 <= i < evaluated.len() ==> #[trigger] evaluated[i] != Op::Bump(5));
        }
    }
}

/// A packet into the overlay is dropped where the boot gate is no obstacle but it is a fragment
/// with an offset, its destination has no route, or its headers are malformed. Each is counted as
/// what it is, but the last, which is not counted. A closed boot gate drops it before all that.
pub proof fn law_packet_is_dropped_before_policy(
    k: Kernel,
    direction: Direction,
    packet: Seq<u8>,
    len: u32,
    src_ip: HostOrderIpv4,
    dst_ip: HostOrderIpv4,
)
    requires
        enters_overlay(packet),
        is_between(packet, src_ip, dst_ip),
    ensures
        ({
            let ops = tc_ops(k, direction, packet, len);
            let fragment = number(packet.subrange(20, 22)) % 0x2000 != 0;
            let routed = k.routes.dom().contains(dst_ip);
            &&& !is_open(k, direction) ==> ops == seq![Op::Gate, Op::Exit(2)]
            &&& is_open(k, direction) && fragment ==> ops == opening(direction) + seq![
                Op::Bump(7),
                Op::Exit(2),
            ]
            &&& is_open(k, direction) && !fragment && !routed ==> ops == opening(direction) + seq![
                Op::Route(dst_ip),
                Op::Bump(4),
                Op::Exit(2),
            ]
            &&& is_open(k, direction) && !fragment && routed && !is_well_formed(packet) ==> ops
                == opening(direction) + seq![
                Op::Route(dst_ip),
                Op::Identity(src_ip),
                Op::Exit(2),
            ]
        }),
{
    lemma_read_packet(direction, packet, len, src_ip, dst_ip);
    lemma_read_port(direction, packet, len);
    let ops = tc_ops(k, direction, packet, len);
    let flow = flow_of(direction, packet, len);
    assert(k.routes.get(flow.dst_ip) is Some <==> k.routes.dom().contains(dst_ip));
    if !is_open(k, direction) {
        assert(ops =~= seq![Op::Gate, Op::Exit(2)]);
    } else if number(packet.subrange(20, 22)) % 0x2000 != 0 {
        assert(ops =~= opening(direction) + seq![Op::Bump(7), Op::Exit(2)]);
    } else if !k.routes.dom().contains(dst_ip) {
        assert(ops =~= opening(direction) + seq![Op::Route(dst_ip), Op::Bump(4), Op::Exit(2)]);
    } else if !is_well_formed(packet) {
        assert(ops =~= opening(direction) + seq![
            Op::Route(dst_ip),
            Op::Identity(src_ip),
            Op::Exit(2),
        ]);
    }
}

/// A well-formed packet into the overlay that is no later fragment and has a route, but whose
/// source address has no identity: it is counted as denied by default, told of as coming from
/// nobody, and dropped.
pub proof fn law_packet_from_nobody_is_dropped(
    k: Kernel,
    direction: Direction,
    packet: Seq<u8>,
    len: u32,
    src_ip: HostOrderIpv4,
    dst_ip: HostOrderIpv4,
    port: HostOrderPort,
)
    requires
        enters_overlay(packet),
        is_between(packet, src_ip, dst_ip),
        is_open(k, direction),
        number(packet.subrange(20, 22)) % 0x2000 == 0,
        is_well_formed(packet),
        is_bound_for(packet, port),
        k.routes.dom().contains(dst_ip),
        !k.identities.dom().contains(src_ip),
    ensures
        ({
            let told = FlowEvent {
                src_hash: IdentityFingerprint(
                    [
                        0u8, 0u8, 0u8, 0u8, 0u8, 0u8, 0u8, 0u8, 0u8, 0u8, 0u8, 0u8, 0u8, 0u8, 0u8,
                        0u8,
                    ],
                ),
                dst_hash: k.routes[dst_ip].dst_fp,
                port,
                action: 0,
                direction: if direction == Direction::Egress {
                    1
                } else {
                    0
                },
                _pad: [0u8, 0u8, 0u8, 0u8],
            };
            tc_ops(k, direction, packet, len) == opening(direction) + seq![
                Op::Route(dst_ip),
                Op::Identity(src_ip),
                Op::Bump(3),
                Op::Event(told),
                Op::Exit(2),
            ]
        }),
{
    lemma_read_packet(direction, packet, len, src_ip, dst_ip);
    lemma_read_port(direction, packet, len);
    let flow = flow_of(direction, packet, len);
    assert(flow.dst_port->Ok_0 == port);
    let dst = k.routes[dst_ip].dst_fp;
    let told = event_of(direction, crate::tc::unidentified(), dst, port, 0);
    assert(tc_ops(k, direction, packet, len) =~= opening(direction) + seq![
        Op::Route(dst_ip),
        Op::Identity(src_ip),
        Op::Bump(3),
        Op::Event(told),
        Op::Exit(2),
    ]);
}

/// A well-formed packet into the overlay between known ends is put before policy with the identity
/// behind its source address, that of the workload behind its destination, its protocol and its
/// port. If policy says "allow" and nothing else, the packet passes, and its whole length is
/// accounted for: to the source address on the way out, to the destination address on the way in.
/// Either way one event tells of the two identities, the port, the decision and the direction.
pub proof fn law_packet_is_put_before_policy(
    k: Kernel,
    direction: Direction,
    packet: Seq<u8>,
    len: u32,
    src_ip: HostOrderIpv4,
    dst_ip: HostOrderIpv4,
    port: HostOrderPort,
)
    requires
        enters_overlay(packet),
        is_between(packet, src_ip, dst_ip),
        is_open(k, direction),
        number(packet.subrange(20, 22)) % 0x2000 == 0,
        is_well_formed(packet),
        is_bound_for(packet, port),
        k.routes.dom().contains(dst_ip),
        k.identities.dom().contains(src_ip),
    ensures
        ({
            let ops = tc_ops(k, direction, packet, len);
            let fp = k.identities[src_ip];
            let dst = k.routes[dst_ip].dst_fp;
            let decided = decision(k, fp, dst, packet[23], port);
            let put = opening(direction) + seq![Op::Route(dst_ip), Op::Identity(src_ip)]
                + policy_ops(k, fp, dst, packet[23], port);
            let told = FlowEvent {
                src_hash: fp,
                dst_hash: dst,
                port,
                action: decided,
                direction: if direction == Direction::Egress {
                    1
                } else {
                    0
                },
                _pad: [0u8, 0u8, 0u8, 0u8],
            };
            let sent = Op::Account { ip: src_ip, tx: true, bytes: len };
            let received = Op::Account { ip: dst_ip, tx: false, bytes: len };
            &&& decided != 1 ==> ops == put + seq![Op::Event(told), Op::Exit(2)]
            &&& decided == 1 && direction == Direction::Egress ==> ops == put + seq![
                sent,
                Op::Event(told),
                Op::Exit(0),
            ]
            &&& decided == 1 && direction == Direction::Ingress ==> ops == put + seq![
                received,
                Op::Event(told),
                Op::Exit(0),
            ]
        }),
{
    lemma_read_packet(direction, packet, len, src_ip, dst_ip);
    lemma_read_port(direction, packet, len);
    let flow = flow_of(direction, packet, len);
    assert(flow.dst_port->Ok_0 == port);
    let fp = k.identities[src_ip];
    let dst = k.routes[dst_ip].dst_fp;
    let decided = decision(k, fp, dst, packet[23], port);
    let put = opening(direction) + seq![Op::Route(dst_ip), Op::Identity(src_ip)] + policy_ops(
        k,
        fp,
        dst,
        packet[23],
        port,
    );
    let after = report_ops(flow, fp, dst, port, decided);
    assert(tc_ops(k, direction, packet, len) =~= put + after);
}

/// The identity of a packet's source is asked for under no address but the number of the four
/// bytes of its source address, which is also what the header's own word says out of network
/// order. So two packets that differ in any of these bytes never ask for the same identity.
pub proof fn law_identity_is_that_of_the_source_bytes(
    k: Kernel,
    other_k: Kernel,
    direction: Direction,
    packet: Seq<u8>,
    other: Seq<u8>,
    len: u32,
    ip: HostOrderIpv4,
)
    requires
        tc_ops(k, direction, packet, len).contains(Op::Identity(ip)),
    ensures
        packet.len() >= 34,
        ip.0 == number(packet.subrange(26, 30)),
        ip.0 == network32(Ipv4Hdr::at(packet, 14).saddr),
        tc_ops(other_k, direction, other, len).contains(Op::Identity(ip)) ==> other.len() >= 34
            && other.subrange(26, 30) == packet.subrange(26, 30),
{
    lemma_asked_identity(k, direction, packet, len, ip);
    law_header_fields_lie_at_their_offsets(packet, 14);
    law_network_order_is_wire_order(Ipv4Hdr::at(packet, 14).saddr, packet.subrange(26, 30));
    if tc_ops(other_k, direction, other, len).contains(Op::Identity(ip)) {
        lemma_asked_identity(other_k, direction, other, len, ip);
        law_addresses_are_spelled_differently(other.subrange(26, 30), packet.subrange(26, 30));
    }
}

/// An identity that a packet hook asks for is that behind the packet's source address.
proof fn lemma_asked_identity(
    k: Kernel,
    direction: Direction,
    packet: Seq<u8>,
    len: u32,
    ip: HostOrderIpv4,
)
    requires
        tc_ops(k, direction, packet, len).contains(Op::Identity(ip)),
    ensures
        packet.len() >= 34,
        ip.0 == number(packet.subrange(26, 30)),
{
    let flow = flow_of(direction, packet, len);
    let s = k.identities.get(flow.src_ip)->0;
    let d = (k.routes.get(flow.dst_ip)->0).dst_fp;
    lemma_policy_counts_its_outcome(k, s, d, flow.protocol, flow.dst_port->Ok_0);
    let evaluated = evaluate_ops(k, flow);
    assert(forall|i: int|
        0 <= i < evaluated.len() ==> (#[trigger] evaluated[i] matches Op::Identity(at)
            ==> at == flow.src_ip));
    if packet.len() >= 34 {
        lemma_number_of_four(packet.subrange(26, 30));
        assert(src_ip_of(packet).0 == number(packet.subrange(26, 30)));
    }
}

// The socket hooks

/// What the socket-operations hook does. It acts on the code 4 alone: a connection that this side
/// opened. Of a socket with a cookie it asks what was remembered under that cookie, then whether
/// the destination that was remembered is local, and if so publishes the socket under the cookie.
pub proof fn law_socket_operation_is_acted_on(k: Kernel, op: u32)
    ensures
        ({
            let ops = sockops_ops(k, op);
            let known = k.states.dom().contains(k.cookie);
            let dst = k.states[k.cookie].dst_fp;
            let local = k.local.dom().contains(dst) && k.local[dst];
            &&& op != 4 ==> ops == seq![Op::Exit(1)]
            &&& op == 4 && k.cookie.0 == 0 ==> ops == seq![Op::Cookie, Op::Exit(1)]
            &&& op == 4 && k.cookie.0 != 0 && !known ==> ops == seq![
                Op::Cookie,
                Op::State(k.cookie),
                Op::Exit(1),
            ]
            &&& op == 4 && k.cookie.0 != 0 && known && !local ==> ops == seq![
                Op::Cookie,
                Op::State(k.cookie),
                Op::Local(dst),
                Op::Exit(1),
            ]
            &&& op == 4 && k.cookie.0 != 0 && known && local ==> ops == seq![
                Op::Cookie,
                Op::State(k.cookie),
                Op::Local(dst),
                Op::Publish(k.cookie),
                Op::Exit(1),
            ]
        }),
{
    let ops = sockops_ops(k, op);
    let dst = k.states[k.cookie].dst_fp;
    if op == 4 && k.cookie.0 != 0 && k.states.dom().contains(k.cookie) {
        if k.local.dom().contains(dst) && k.local[dst] {
            assert(ops =~= seq![
                Op::Cookie,
                Op::State(k.cookie),
                Op::Local(dst),
                Op::Publish(k.cookie),
                Op::Exit(1),
            ]);
        } else {
            assert(ops =~= seq![
                Op::Cookie,
                Op::State(k.cookie),
                Op::Local(dst),
                Op::Exit(1),
            ]);
        }
    }
}

/// What the message hook does. A message of a socket without a cookie, or without a peer under it,
/// passes. Any other is redirected to that peer, and the kernel's answer to that, cut to 32 bits,
/// is the return code.
pub proof fn law_message_is_redirected_to_the_peer(k: Kernel, code: u32)
    requires
        (code - k.redirect) % 0x1_0000_0000 == 0,
    ensures
        ({
            let ops = sk_msg_ops(k);
            let paired = k.peers.dom().contains(k.cookie);
            &&& k.cookie.0 == 0 ==> ops == seq![Op::Cookie, Op::Exit(1)]
            &&& k.cookie.0 != 0 && !paired ==> ops == seq![
                Op::Cookie,
                Op::Peer(k.cookie),
                Op::Exit(1),
            ]
            &&& k.cookie.0 != 0 && paired ==> ops == seq![
                Op::Cookie,
                Op::Peer(k.cookie),
                Op::Redirect(k.peers[k.cookie]),
                Op::Exit(code as int),
            ]
        }),
{
    assert(redirect_code(k.redirect) == code);
}

// The stand-alone filter

/// The filter goes by the header's own fields. A packet that is long enough for a header, and whose
/// header has the signature "FL", passes exactly where the rules allow under the key that has the
/// header's two hashes and port, and no padding. That key is the one it asks for. Every other
/// packet passes.
pub proof fn law_filter_goes_by_the_headers_own_fields<H>(
    packet_len: usize,
    header_len: usize,
    header: FleetosHeader<H>,
    rules: Map<RuleKey<H>, u8>,
    key: RuleKey<H>,
)
    requires
        key.src_hash == header.src_hash,
        key.dst_hash == header.dst_hash,
        key.port == header.port,
        key._pad == 0,
    ensures
        ({
            let code = filter_code(packet_len, header_len, header, rules);
            let allowed = rules.dom().contains(key) && rules[key] == 1;
            &&& packet_len < header_len ==> code == 0
            &&& header.magic != 0x464C ==> code == 0
            &&& packet_len >= header_len && header.magic == 0x464C ==> code == if allowed {
                0i32
            } else {
                2
            }
        }),
        header.magic == 0x464C ==> AwaitHeader.answered(header) == Filter::Rule(RuleLookup { key }),
        header.magic != 0x464C ==> AwaitHeader.answered(header) == Filter::<H>::Exit(0),
{
}

/// The filter answers to the rule under the key that it asks for, and to no other.
pub proof fn law_filter_steps_follow_the_answers<H>(
    header: FleetosHeader<H>,
    rules: Map<RuleKey<H>, u8>,
    lookup: RuleLookup<H>,
    action: Option<u8>,
    code: i32,
)
    ensures
        action == Some(1u8) ==> lookup.answered(action) == Filter::<H>::Exit(0),
        action != Some(1u8) ==> lookup.answered(action) == Filter::<H>::Exit(2),
        Filter::Rule(lookup).code(header, rules) == lookup.answered(rules.get(lookup.key)).code(
            header,
            rules,
        ),
        Filter::Header(AwaitHeader).code(header, rules) == AwaitHeader.answered(header).code(
            header,
            rules,
        ),
        Filter::<H>::Exit(code).code(header, rules) == code,
{
    reveal_with_fuel(Filter::code, 3);
}

// Statistics and counters

/// Counting is exact up to multiples of 2 to the 64.
pub proof fn law_counting_is_exact_up_to_the_wrap(x: int)
    ensures
        (wrapped(x) - x) % 0x1_0000_0000_0000_0000 == 0,
{
}

/// A packet adds its bytes and itself, up to the wrap, to the counters of its direction, and leaves
/// the others as they are.
pub proof fn law_packet_counts_in_its_direction(c: PodNetCounters, tx: bool, bytes: u32)
    ensures
        ({
            let n = accounted(c, tx, bytes);
            let wrap = 0x1_0000_0000_0000_0000int;
            &&& tx ==> {
                &&& (n.tx_bytes - c.tx_bytes - bytes) % wrap == 0
                &&& (n.tx_packets - c.tx_packets - 1) % wrap == 0
                &&& n.rx_bytes == c.rx_bytes
                &&& n.rx_packets == c.rx_packets
            }
            &&& !tx ==> {
                &&& (n.rx_bytes - c.rx_bytes - bytes) % wrap == 0
                &&& (n.rx_packets - c.rx_packets - 1) % wrap == 0
                &&& n.tx_bytes == c.tx_bytes
                &&& n.tx_packets == c.tx_packets
            }
        }),
{
}

/// The smaller of a sum and the largest counter value.
pub open spec fn at_most_largest(x: int) -> int {
    if x <= 0xffff_ffff_ffff_ffff {
        x
    } else {
        0xffff_ffff_ffff_ffff
    }
}

/// No CPU counts nothing, one CPU counts what it counted, and what two groups of CPUs counted adds
/// up, counter by counter, to at most the largest value.
pub proof fn law_aggregates_add_up(
    a: Seq<PodNetCounters>,
    b: Seq<PodNetCounters>,
    c: PodNetCounters,
)
    ensures
        ({
            let (x, y, z) = (aggregated(a), aggregated(b), aggregated(a + b));
            let none = aggregated(Seq::<PodNetCounters>::empty());
            let one = aggregated(seq![c]);
            &&& none.tx_bytes == 0 && none.tx_packets == 0
            &&& none.rx_bytes == 0 && none.rx_packets == 0
            &&& one.tx_bytes == c.tx_bytes && one.tx_packets == c.tx_packets
            &&& one.rx_bytes == c.rx_bytes && one.rx_packets == c.rx_packets
            &&& z.tx_bytes == at_most_largest(x.tx_bytes + y.tx_bytes)
            &&& z.tx_packets == at_most_largest(x.tx_packets + y.tx_packets)
            &&& z.rx_bytes == at_most_largest(x.rx_bytes + y.rx_bytes)
            &&& z.rx_packets == at_most_largest(x.rx_packets + y.rx_packets)
        }),
{
    reveal_with_fuel(totals, 2);
    assert(seq![c].drop_last() =~= Seq::<PodNetCounters>::empty());
    lemma_totals_add(a, b);
}

/// Sums over two groups of CPUs add up, and none is negative.
proof fn lemma_totals_add(a: Seq<PodNetCounters>, b: Seq<PodNetCounters>)
    ensures
        ({
            let (x, y, z) = (totals(a), totals(b), totals(a + b));
            &&& z.tx_bytes == x.tx_bytes + y.tx_bytes
            &&& z.tx_packets == x.tx_packets + y.tx_packets
            &&& z.rx_bytes == x.rx_bytes + y.rx_bytes
            &&& z.rx_packets == x.rx_packets + y.rx_packets
            &&& x.tx_bytes >= 0 && x.tx_packets >= 0 && x.rx_bytes >= 0 && x.rx_packets >= 0
            &&& y.tx_bytes >= 0 && y.tx_packets >= 0 && y.rx_bytes >= 0 && y.rx_packets >= 0
        }),
    decreases a.len() + b.len(),
{
    if b.len() > 0 {
        assert((a + b).drop_last() =~= a + b.drop_last());
        lemma_totals_add(a, b.drop_last());
    } else if a.len() > 0 {
        assert(a + b =~= a);
        lemma_totals_add(a.drop_last(), b);
    } else {
        assert(a + b =~= a);
    }
}

/// Whether a rate is what a gain comes to per second, rounded down.
pub open spec fn is_per_second(rate: u64, gain: u64, interval_secs: u64) -> bool {
    rate * interval_secs <= gain < (rate + 1) * interval_secs
}

/// Without time between two samples there are no rates. Otherwise each rate is what its counter
/// gained from the earlier sample to the later one, up to the wrap, per second and rounded down.
/// `gain` is what the four counters gained.
pub proof fn law_rates_are_gains_per_second(prev: Agg, curr: Agg, interval_secs: u64, gain: Agg)
    requires
        (curr.tx_bytes - prev.tx_bytes - gain.tx_bytes) % 0x1_0000_0000_0000_0000 == 0,
        (curr.tx_packets - prev.tx_packets - gain.tx_packets) % 0x1_0000_0000_0000_0000 == 0,
        (curr.rx_bytes - prev.rx_bytes - gain.rx_bytes) % 0x1_0000_0000_0000_0000 == 0,
        (curr.rx_packets - prev.rx_packets - gain.rx_packets) % 0x1_0000_0000_0000_0000 == 0,
    ensures
        interval_secs == 0 ==> rated(prev, curr, interval_secs) is None,
        interval_secs > 0 ==> {
            let rate = rated(prev, curr, interval_secs)->0;
            &&& rated(prev, curr, interval_secs) is Some
            &&& is_per_second(rate.tx_bytes_per_sec, gain.tx_bytes, interval_secs)
            &&& is_per_second(rate.tx_packets_per_sec, gain.tx_packets, interval_secs)
            &&& is_per_second(rate.rx_bytes_per_sec, gain.rx_bytes, interval_secs)
            &&& is_per_second(rate.rx_packets_per_sec, gain.rx_packets, interval_secs)
        },
{
    if interval_secs > 0 {
        lemma_per_second(prev.tx_bytes, curr.tx_bytes, gain.tx_bytes, interval_secs);
        lemma_per_second(prev.tx_packets, curr.tx_packets, gain.tx_packets, interval_secs);
        lemma_per_second(prev.rx_bytes, curr.rx_bytes, gain.rx_bytes, interval_secs);
        lemma_per_second(prev.rx_packets, curr.rx_packets, gain.rx_packets, interval_secs);
    }
}

/// One counter's gain per second.
proof fn lemma_per_second(prev: u64, curr: u64, gain: u64, interval_secs: u64)
    requires
        interval_secs > 0,
        (curr - prev - gain) % 0x1_0000_0000_0000_0000 == 0,
    ensures
        is_per_second(per_sec(prev, curr, interval_secs), gain, interval_secs),
{
    assert(wrapped(curr - prev) == gain);
    let rate = gain / interval_secs;
    assert(rate * interval_secs <= gain < (rate + 1) * interval_secs) by (nonlinear_arith)
        requires
            interval_secs > 0,
            rate == gain / interval_secs,
    ;
}

} // verus!
