//! What holds of every run of the hooks.
#![allow(unused_imports)]
use crate::byte_order::{
    be16, law_ipv4_network_order_round_trips, law_port_network_order_round_trips, network16,
    network32, HostOrderIpv4, HostOrderPort,
};
use crate::connect4::{
    admit_ops, connect4_ops, connection_of, low_half, remembered, rewrite_to_agent, SockAddr,
    AGENT_IP, AGENT_PORT,
};
use crate::counters::wrapped;
use crate::kernel::{
    group_times, lemma_times_add, lemma_times_contains, lemma_times_short, times, Kernel, Op,
};
use crate::map_types::{
    EbpfPolicyKey, EbpfPolicyWildcardKey, FlowEvent, IdentityFingerprint, SocketCookie,
    STAT_ALLOW_HITS, STAT_COUNT, STAT_DEFAULT_DENY_DROPS, STAT_DENY_HITS, STAT_FRAGMENT_DROPS,
    STAT_PASS_THROUGHS, STAT_REWRITES, STAT_WILDCARD_HITS,
};
use crate::overlay::in_overlay;
use crate::packet::{dst_port_of, Ipv4Hdr, ETH_LEN};
use crate::policy::{
    decision, exact_key, exact_ops, exact_rule, policy_ops, protocol_ops, tally_index,
    wildcard_key, wildcard_ops, ANY_PORT, ANY_PROTOCOL,
};
use crate::sk_msg::{sk_msg_ops, SK_PASS};
use crate::sockops::{sockops_ops, ACTIVE_ESTABLISHED};
use crate::tc::{
    decide_ops, dst_ip_of, evaluate_ops, event_of, flow_decision, flow_of, is_framed, is_ipv4,
    report_ops, source_of, src_ip_of, tc_ops, unidentified, Direction, Flow, GATE_ARMED, TC_ACT_OK,
    TC_ACT_SHOT,
};
use vstd::prelude::*;

verus! {

/// Whether an operation asks the kernel something.
pub open spec fn is_question(op: Op) -> bool {
    match op {
        Op::Route(_) | Op::Identity(_) | Op::Exact(_) | Op::Wildcard(_) | Op::Gate | Op::Cookie
        | Op::State(_) | Op::Local(_) | Op::Peer(_) | Op::Redirect(_) => true,
        _ => false,
    }
}

/// Whether every statistic that is counted exists.
pub open spec fn counts_known_stats(ops: Seq<Op>) -> bool {
    forall|i: int| 0 <= i < ops.len() ==> match #[trigger] ops[i] {
        Op::Bump(index) => index < STAT_COUNT,
        _ => true,
    }
}

/// Whether an overlay connection is one that policy lets through.
pub open spec fn connection_allowed(k: Kernel, sa: SockAddr) -> bool {
    let c = connection_of(sa);
    &&& k.routes.get(c.dst_ip) is Some
    &&& k.identities.get(c.src_ip) is Some
    &&& decision(
        k,
        k.identities.get(c.src_ip)->0,
        (k.routes.get(c.dst_ip)->0).dst_fp,
        c.protocol,
        c.dst_port,
    ) == 1
}

/// Whether an overlay packet is one that policy lets through.
pub open spec fn flow_allowed(k: Kernel, flow: Flow) -> bool {
    &&& !flow.later_fragment
    &&& k.routes.get(flow.dst_ip) is Some
    &&& flow.dst_port is Ok
    &&& k.identities.get(flow.src_ip) is Some
    &&& decision(
        k,
        k.identities.get(flow.src_ip)->0,
        (k.routes.get(flow.dst_ip)->0).dst_fp,
        flow.protocol,
        flow.dst_port->Ok_0,
    ) == 1
}

/// Whether a hook comes to a decision on an overlay packet. On the way in, the boot gate must be
/// armed.
pub open spec fn is_decided_on(k: Kernel, flow: Flow) -> bool {
    &&& flow.direction is Egress || k.gate == Some(GATE_ARMED)
    &&& !flow.later_fragment
    &&& k.routes.get(flow.dst_ip) is Some
    &&& flow.dst_port is Ok
}

/// Whether a packet is addressed to the overlay.
pub open spec fn is_overlay_packet(packet: Seq<u8>) -> bool {
    is_framed(packet) && is_ipv4(packet) && in_overlay(dst_ip_of(packet))
}

/// A policy evaluation does nothing but look up rules and count its outcome.
proof fn lemma_policy_times(
    k: Kernel,
    src: IdentityFingerprint,
    dst: IdentityFingerprint,
    protocol: u8,
    dst_port: HostOrderPort,
    op: Op,
)
    ensures
        match op {
            Op::Exact(_) | Op::Wildcard(_) => true,
            Op::Bump(index) => index > STAT_DEFAULT_DENY_DROPS ==> times(
                policy_ops(k, src, dst, protocol, dst_port),
                op,
            ) == 0,
            _ => times(policy_ops(k, src, dst, protocol, dst_port), op) == 0,
        },
{
    broadcast use group_times;

}

/// A policy evaluation counts nothing while it looks for an exact rule.
proof fn lemma_outcome_times(
    k: Kernel,
    src: IdentityFingerprint,
    dst: IdentityFingerprint,
    protocol: u8,
    dst_port: HostOrderPort,
    index: u32,
)
    ensures
        times(policy_ops(k, src, dst, protocol, dst_port), Op::Bump(index)) == times(
            match exact_rule(k, src, dst, protocol, dst_port) {
                Some(rule) => seq![Op::Bump(tally_index(rule.decision))],
                None => wildcard_ops(k, src, dst),
            },
            Op::Bump(index),
        ),
{
    broadcast use lemma_times_short;

    let lookups = exact_ops(k, src, dst, protocol, dst_port);
    let outcome = match exact_rule(k, src, dst, protocol, dst_port) {
        Some(rule) => seq![Op::Bump(tally_index(rule.decision))],
        None => wildcard_ops(k, src, dst),
    };
    lemma_times_add(lookups, outcome, Op::Bump(index));
}

/// What a run of the connect hook does for an identified connection into the overlay is what it
/// does before, during and after the policy evaluation.
proof fn lemma_connect_times(k: Kernel, sa: SockAddr, op: Op)
    requires
        in_overlay(connection_of(sa).dst_ip),
        k.routes.get(connection_of(sa).dst_ip) is Some,
        k.identities.get(connection_of(sa).src_ip) is Some,
    ensures
        ({
            let c = connection_of(sa);
            let src = k.identities.get(c.src_ip)->0;
            let route = k.routes.get(c.dst_ip)->0;
            times(connect4_ops(k, sa), op) == times(
                seq![Op::Route(c.dst_ip), Op::Identity(c.src_ip)],
                op,
            ) + times(policy_ops(k, src, route.dst_fp, c.protocol, c.dst_port), op) + times(
                if decision(k, src, route.dst_fp, c.protocol, c.dst_port) == 1 {
                    admit_ops(k, route)
                } else {
                    seq![Op::Exit(0)]
                },
                op,
            )
        }),
{
    let c = connection_of(sa);
    let src = k.identities.get(c.src_ip)->0;
    let route = k.routes.get(c.dst_ip)->0;
    let before = seq![Op::Route(c.dst_ip), Op::Identity(c.src_ip)];
    let during = policy_ops(k, src, route.dst_fp, c.protocol, c.dst_port);
    let after = if decision(k, src, route.dst_fp, c.protocol, c.dst_port) == 1 {
        admit_ops(k, route)
    } else {
        seq![Op::Exit(0)]
    };
    assert(connect4_ops(k, sa) == before + during + after);
    lemma_times_add(before + during, after, op);
    lemma_times_add(before, during, op);
}

/// What a run of a packet hook does for a packet that it decides on is what it does before, during
/// and after the decision.
proof fn lemma_tc_times(k: Kernel, direction: Direction, packet: Seq<u8>, len: u32, op: Op)
    requires
        is_overlay_packet(packet),
        is_decided_on(k, flow_of(direction, packet, len)),
    ensures
        ({
            let flow = flow_of(direction, packet, len);
            let dst = (k.routes.get(flow.dst_ip)->0).dst_fp;
            let port = flow.dst_port->Ok_0;
            times(tc_ops(k, direction, packet, len), op) == times(
                if direction is Ingress {
                    seq![Op::Gate]
                } else {
                    seq![]
                },
                op,
            ) + times(seq![Op::Route(flow.dst_ip), Op::Identity(flow.src_ip)], op) + times(
                decide_ops(k, flow, dst, port),
                op,
            ) + times(
                report_ops(
                    flow,
                    source_of(k, flow),
                    dst,
                    port,
                    flow_decision(k, flow, dst, port),
                ),
                op,
            )
        }),
{
    let flow = flow_of(direction, packet, len);
    let dst = (k.routes.get(flow.dst_ip)->0).dst_fp;
    let port = flow.dst_port->Ok_0;
    let gate: Seq<Op> = if direction is Ingress {
        seq![Op::Gate]
    } else {
        seq![]
    };
    let before = seq![Op::Route(flow.dst_ip), Op::Identity(flow.src_ip)];
    let during = decide_ops(k, flow, dst, port);
    let after = report_ops(
        flow,
        source_of(k, flow),
        dst,
        port,
        flow_decision(k, flow, dst, port),
    );
    assert(tc_ops(k, direction, packet, len) =~= gate + (before + (during + after)));
    lemma_times_add(gate, before + (during + after), op);
    lemma_times_add(before, during + after, op);
    lemma_times_add(during, after, op);
}

/// Coming to a decision on a packet neither reports it nor accounts for it.
proof fn lemma_decide_times(
    k: Kernel,
    flow: Flow,
    dst: IdentityFingerprint,
    port: HostOrderPort,
    op: Op,
)
    requires
        op is Event || op is Account,
    ensures
        times(decide_ops(k, flow, dst, port), op) == 0,
{
    broadcast use lemma_times_short;

    lemma_policy_times(k, k.identities.get(flow.src_ip)->0, dst, flow.protocol, port, op);
}

/// The rule stored for a flow's own protocol and port comes before every other: it decides, and
/// no other rule is looked up.
pub proof fn law_literal_rule_comes_first(
    k: Kernel,
    src: IdentityFingerprint,
    dst: IdentityFingerprint,
    protocol: u8,
    dst_port: HostOrderPort,
)
    requires
        k.exact.get(exact_key(src, dst, protocol, dst_port)) is Some,
    ensures
        ({
            let key = exact_key(src, dst, protocol, dst_port);
            let rule = k.exact.get(key)->0;
            &&& decision(k, src, dst, protocol, dst_port) == rule.decision
            &&& policy_ops(k, src, dst, protocol, dst_port) == seq![
                Op::Exact(key),
                Op::Bump(tally_index(rule.decision)),
            ]
        }),
{
    let key = exact_key(src, dst, protocol, dst_port);
    let rule = k.exact.get(key)->0;
    assert(policy_ops(k, src, dst, protocol, dst_port) =~= seq![
        Op::Exact(key),
        Op::Bump(tally_index(rule.decision)),
    ]);
}

/// A zero in an exact rule means "any". A rule with port 0 decides on every port of its protocol
/// that has no rule of its own; one with protocol 0 decides on its port in every protocol that has
/// no rule for that port or for every port; one with both decides on what is left.
pub proof fn law_zero_means_any(
    k: Kernel,
    src: IdentityFingerprint,
    dst: IdentityFingerprint,
    protocol: u8,
    dst_port: HostOrderPort,
)
    requires
        k.exact.get(exact_key(src, dst, protocol, dst_port)) is None,
    ensures
        ({
            let any_port = k.exact.get(exact_key(src, dst, protocol, HostOrderPort(0)));
            let any_protocol = k.exact.get(exact_key(src, dst, 0, dst_port));
            let any = k.exact.get(exact_key(src, dst, 0, HostOrderPort(0)));
            let decided = decision(k, src, dst, protocol, dst_port);
            &&& any_port is Some ==> decided == (any_port->0).decision
            &&& any_port is None && any_protocol is Some ==> decided == (any_protocol->0).decision
            &&& any_port is None && any_protocol is None && any is Some
                ==> decided == (any->0).decision
        }),
{
}

/// Policy decides by the exact rule wherever one speaks for the flow: the wildcard rule is neither
/// followed nor looked up.
pub proof fn law_exact_rule_outranks_wildcard(
    k: Kernel,
    src: IdentityFingerprint,
    dst: IdentityFingerprint,
    protocol: u8,
    dst_port: HostOrderPort,
)
    requires
        exact_rule(k, src, dst, protocol, dst_port) is Some,
    ensures
        decision(k, src, dst, protocol, dst_port) == (exact_rule(
            k,
            src,
            dst,
            protocol,
            dst_port,
        )->0).decision,
        !policy_ops(k, src, dst, protocol, dst_port).contains(Op::Wildcard(wildcard_key(src, dst))),
{
    broadcast use group_times;

    let ops = policy_ops(k, src, dst, protocol, dst_port);
    lemma_times_contains(ops, Op::Wildcard(wildcard_key(src, dst)));
}

/// Where no rule speaks for a flow, it is denied, and the denial is counted as one by default.
pub proof fn law_no_rule_means_deny(
    k: Kernel,
    src: IdentityFingerprint,
    dst: IdentityFingerprint,
    protocol: u8,
    dst_port: HostOrderPort,
)
    requires
        exact_rule(k, src, dst, protocol, dst_port) is None,
        k.wildcard.get(wildcard_key(src, dst)) is None,
    ensures
        decision(k, src, dst, protocol, dst_port) == 0,
        times(policy_ops(k, src, dst, protocol, dst_port), Op::Bump(STAT_DEFAULT_DENY_DROPS)) == 1,
{
    broadcast use group_times;

}

/// Every evaluation is counted exactly once as allowed, denied by a rule, or denied by default,
/// and as allowed exactly where the decision is to allow. Wildcard hits are counted beside that,
/// exactly where the wildcard rule decided.
pub proof fn law_evaluation_is_counted_once(
    k: Kernel,
    src: IdentityFingerprint,
    dst: IdentityFingerprint,
    protocol: u8,
    dst_port: HostOrderPort,
)
    ensures
        ({
            let ops = policy_ops(k, src, dst, protocol, dst_port);
            &&& times(ops, Op::Bump(STAT_ALLOW_HITS)) + times(ops, Op::Bump(STAT_DENY_HITS))
                + times(ops, Op::Bump(STAT_DEFAULT_DENY_DROPS)) == 1
            &&& times(ops, Op::Bump(STAT_ALLOW_HITS)) == 1 <==> decision(
                k,
                src,
                dst,
                protocol,
                dst_port,
            ) == 1
            &&& times(ops, Op::Bump(STAT_WILDCARD_HITS)) == if exact_rule(
                k,
                src,
                dst,
                protocol,
                dst_port,
            ) is None && k.wildcard.get(wildcard_key(src, dst)) is Some {
                1nat
            } else {
                0
            }
        }),
{
    broadcast use lemma_times_short;

    lemma_outcome_times(k, src, dst, protocol, dst_port, STAT_ALLOW_HITS);
    lemma_outcome_times(k, src, dst, protocol, dst_port, STAT_DENY_HITS);
    lemma_outcome_times(k, src, dst, protocol, dst_port, STAT_DEFAULT_DENY_DROPS);
    lemma_outcome_times(k, src, dst, protocol, dst_port, STAT_WILDCARD_HITS);
}

/// A connection that leaves the overlay alone is let through as it is: nothing is looked up,
/// remembered or rewritten.
pub proof fn law_connect_leaves_other_networks_alone(k: Kernel, sa: SockAddr)
    requires
        !in_overlay(connection_of(sa).dst_ip),
    ensures
        connect4_ops(k, sa) == seq![Op::Bump(STAT_PASS_THROUGHS), Op::Exit(1)],
{
}

/// A connection into the overlay succeeds exactly where its destination has a route, its source
/// an identity, and policy lets it through. It is rewritten to the agent, once, exactly then.
pub proof fn law_connect_fails_closed(k: Kernel, sa: SockAddr)
    requires
        in_overlay(connection_of(sa).dst_ip),
    ensures
        connect4_ops(k, sa).last() == Op::Exit(
            if connection_allowed(k, sa) {
                1
            } else {
                0
            },
        ),
        times(connect4_ops(k, sa), rewrite_to_agent()) == if connection_allowed(k, sa) {
            1nat
        } else {
            0
        },
{
    broadcast use group_times;

}

/// The connect hook counts as many allowed evaluations as rewrites, none or one of each, and
/// rewrites the connection exactly where it counts so.
pub proof fn law_allow_hits_equal_rewrites(k: Kernel, sa: SockAddr)
    ensures
        ({
            let ops = connect4_ops(k, sa);
            &&& times(ops, Op::Bump(STAT_ALLOW_HITS)) == times(ops, Op::Bump(STAT_REWRITES))
            &&& times(ops, rewrite_to_agent()) == times(ops, Op::Bump(STAT_REWRITES))
            &&& times(ops, Op::Bump(STAT_REWRITES)) <= 1
        }),
{
    broadcast use lemma_times_short;

    let c = connection_of(sa);
    if in_overlay(c.dst_ip) && k.routes.get(c.dst_ip) is Some && k.identities.get(
        c.src_ip,
    ) is Some {
        let src = k.identities.get(c.src_ip)->0;
        let dst = (k.routes.get(c.dst_ip)->0).dst_fp;
        law_evaluation_is_counted_once(k, src, dst, c.protocol, c.dst_port);
        lemma_policy_times(k, src, dst, c.protocol, c.dst_port, rewrite_to_agent());
        lemma_policy_times(k, src, dst, c.protocol, c.dst_port, Op::Bump(STAT_REWRITES));
        lemma_connect_times(k, sa, Op::Bump(STAT_ALLOW_HITS));
        lemma_connect_times(k, sa, Op::Bump(STAT_REWRITES));
        lemma_connect_times(k, sa, rewrite_to_agent());
    }
}

/// The statistics after a run has counted into them. One that does not exist is not counted.
pub open spec fn tallied(stats: Seq<u64>, ops: Seq<Op>) -> Seq<u64>
    decreases ops.len(),
{
    if ops.len() == 0 {
        stats
    } else {
        let before = tallied(stats, ops.drop_last());
        match ops.last() {
            Op::Bump(index) => if index < before.len() {
                before.update(index as int, wrapped(before[index as int] + 1))
            } else {
                before
            },
            _ => before,
        }
    }
}

/// The statistics after the connect hook ran for one connection after the other.
pub open spec fn tallied_connections(
    stats: Seq<u64>,
    connections: Seq<(Kernel, SockAddr)>,
) -> Seq<u64>
    decreases connections.len(),
{
    if connections.len() == 0 {
        stats
    } else {
        let (k, sa) = connections.last();
        tallied(tallied_connections(stats, connections.drop_last()), connect4_ops(k, sa))
    }
}

/// A run raises each statistic by as much as it counts under it.
pub proof fn law_runs_raise_statistics(stats: Seq<u64>, ops: Seq<Op>, index: u32)
    requires
        stats.len() == STAT_COUNT,
        index < STAT_COUNT,
    ensures
        tallied(stats, ops).len() == STAT_COUNT,
        tallied(stats, ops)[index as int] == wrapped(
            stats[index as int] + times(ops, Op::Bump(index)),
        ),
    decreases ops.len(),
{
    if ops.len() > 0 {
        law_runs_raise_statistics(stats, ops.drop_last(), index);
    }
}

/// Raising a counter raises its distance from an earlier value by as much.
proof fn lemma_gain_adds_up(start: u64, before: u64, raise: nat)
    ensures
        wrapped(wrapped(before + raise) - start) == wrapped(wrapped(before - start) + raise),
{
}

/// However many connections the connect hook handles, from whatever statistics, it raises allowed
/// evaluations and rewrites by the same amount. So it keeps them equal where they were.
pub proof fn law_connect_keeps_allow_hits_equal_to_rewrites(
    stats: Seq<u64>,
    connections: Seq<(Kernel, SockAddr)>,
)
    requires
        stats.len() == STAT_COUNT,
    ensures
        ({
            let after = tallied_connections(stats, connections);
            let (allowed, rewritten) = (STAT_ALLOW_HITS as int, STAT_REWRITES as int);
            &&& after.len() == STAT_COUNT
            &&& wrapped(after[allowed] - stats[allowed]) == wrapped(
                after[rewritten] - stats[rewritten],
            )
            &&& stats[allowed] == stats[rewritten] ==> after[allowed] == after[rewritten]
        }),
    decreases connections.len(),
{
    if connections.len() > 0 {
        let earlier = connections.drop_last();
        let before = tallied_connections(stats, earlier);
        let (k, sa) = connections.last();
        law_connect_keeps_allow_hits_equal_to_rewrites(stats, earlier);
        law_allow_hits_equal_rewrites(k, sa);
        law_runs_raise_statistics(before, connect4_ops(k, sa), STAT_ALLOW_HITS);
        law_runs_raise_statistics(before, connect4_ops(k, sa), STAT_REWRITES);
        let (allowed, rewritten) = (STAT_ALLOW_HITS as int, STAT_REWRITES as int);
        let raise = times(connect4_ops(k, sa), Op::Bump(STAT_REWRITES));
        lemma_gain_adds_up(stats[allowed], before[allowed], raise);
        lemma_gain_adds_up(stats[rewritten], before[rewritten], raise);
    }
}

/// The cookie gates neither connectivity nor enforcement: with any other cookie, or none, a
/// connection gets the same return code, the same rewrite and the same statistics.
pub proof fn law_cookie_never_gates(k: Kernel, cookie: SocketCookie, sa: SockAddr)
    ensures
        ({
            let ops = connect4_ops(k, sa);
            let other = connect4_ops(Kernel { cookie, ..k }, sa);
            &&& ops.last() == other.last()
            &&& times(ops, rewrite_to_agent()) == times(other, rewrite_to_agent())
            &&& forall|index: u32| #[trigger]
                times(ops, Op::Bump(index)) == times(other, Op::Bump(index))
        }),
{
    broadcast use lemma_times_short;

    let c = connection_of(sa);
    let other = Kernel { cookie, ..k };
    if in_overlay(c.dst_ip) && k.routes.get(c.dst_ip) is Some && k.identities.get(
        c.src_ip,
    ) is Some {
        let src = k.identities.get(c.src_ip)->0;
        let dst = (k.routes.get(c.dst_ip)->0).dst_fp;
        assert(policy_ops(k, src, dst, c.protocol, c.dst_port) == policy_ops(
            other,
            src,
            dst,
            c.protocol,
            c.dst_port,
        ));
        lemma_connect_times(k, sa, rewrite_to_agent());
        lemma_connect_times(other, sa, rewrite_to_agent());
        assert forall|index: u32| #[trigger]
            times(connect4_ops(k, sa), Op::Bump(index)) == times(
            connect4_ops(other, sa),
            Op::Bump(index),
        ) by {
            lemma_connect_times(k, sa, Op::Bump(index));
            lemma_connect_times(other, sa, Op::Bump(index));
        }
    }
}

/// What the connect hook remembers of an allowed connection is what the socket-operations hook
/// goes by once the connection is established: both use the socket's cookie as the key, and the
/// destination that is checked for being local is the one that was resolved.
pub proof fn law_sockops_finds_what_connect_stored(k: Kernel, later: Kernel, sa: SockAddr)
    requires
        in_overlay(connection_of(sa).dst_ip),
        connection_allowed(k, sa),
        k.cookie.0 != 0,
        later.cookie == k.cookie,
        later.states.get(k.cookie) == Some(
            remembered(k.routes.get(connection_of(sa).dst_ip)->0),
        ),
    ensures
        ({
            let route = k.routes.get(connection_of(sa).dst_ip)->0;
            let ops = sockops_ops(later, ACTIVE_ESTABLISHED);
            &&& connect4_ops(k, sa).contains(Op::Store(k.cookie, remembered(route)))
            &&& ops.contains(Op::Local(route.dst_fp))
            &&& ops.contains(Op::Publish(k.cookie)) <==> later.local.get(route.dst_fp) == Some(true)
        }),
{
    broadcast use group_times;

    let route = k.routes.get(connection_of(sa).dst_ip)->0;
    let ops = sockops_ops(later, ACTIVE_ESTABLISHED);
    lemma_times_contains(connect4_ops(k, sa), Op::Store(k.cookie, remembered(route)));
    lemma_times_contains(ops, Op::Local(route.dst_fp));
    lemma_times_contains(ops, Op::Publish(k.cookie));
}

/// Read back as the hook reads a destination, a rewritten connection goes to the agent's address
/// and port, whatever the machine's byte order.
pub proof fn law_rewrite_goes_to_loopback()
    ensures
        rewrite_to_agent() matches Op::Rewrite { user_ip4, user_port } && {
            &&& network32(user_ip4) == AGENT_IP
            &&& network16(low_half(user_port)) == AGENT_PORT
        },
{
    law_ipv4_network_order_round_trips(AGENT_IP);
    law_port_network_order_round_trips(AGENT_PORT);
}

/// A packet that leaves the overlay alone passes as it is, in both directions: nothing is
/// looked up, accounted for or reported.
pub proof fn law_tc_leaves_other_networks_alone(
    k: Kernel,
    direction: Direction,
    packet: Seq<u8>,
    len: u32,
)
    requires
        is_framed(packet),
        is_ipv4(packet),
        !in_overlay(dst_ip_of(packet)),
    ensures
        tc_ops(k, direction, packet, len) == seq![
            Op::Bump(STAT_PASS_THROUGHS),
            Op::Exit(TC_ACT_OK as int),
        ],
{
}

/// Until the boot gate is armed, nothing that is addressed to the overlay gets in, and nothing
/// is counted.
pub proof fn law_boot_gate_fails_closed(k: Kernel, packet: Seq<u8>, len: u32)
    requires
        is_overlay_packet(packet),
        k.gate != Some(GATE_ARMED),
    ensures
        tc_ops(k, Direction::Ingress, packet, len) == seq![Op::Gate, Op::Exit(TC_ACT_SHOT as int)],
{
    let ops = tc_ops(k, Direction::Ingress, packet, len);
    assert(ops =~= seq![Op::Gate, Op::Exit(TC_ACT_SHOT as int)]);
}

/// A packet into the overlay passes exactly where it is no later fragment, its destination has a
/// route, its headers give a port, its source has an identity, and policy allows it; on the way
/// in, the boot gate must be armed besides.
pub proof fn law_tc_fails_closed(k: Kernel, direction: Direction, packet: Seq<u8>, len: u32)
    requires
        is_overlay_packet(packet),
    ensures
        tc_ops(k, direction, packet, len).last() == Op::Exit(
            if flow_allowed(k, flow_of(direction, packet, len)) && (direction is Egress || k.gate
                == Some(GATE_ARMED)) {
                TC_ACT_OK as int
            } else {
                TC_ACT_SHOT as int
            },
        ),
{
}

/// A later fragment of an overlay packet is dropped in both directions, whatever the rules say.
/// It is counted as such once, unless the closed boot gate dropped it before.
pub proof fn law_later_fragments_are_dropped(
    k: Kernel,
    direction: Direction,
    packet: Seq<u8>,
    len: u32,
)
    requires
        is_overlay_packet(packet),
        flow_of(direction, packet, len).later_fragment,
    ensures
        ({
            let ops = tc_ops(k, direction, packet, len);
            &&& ops.last() == Op::Exit(TC_ACT_SHOT as int)
            &&& times(ops, Op::Bump(STAT_FRAGMENT_DROPS)) == if direction is Egress || k.gate
                == Some(GATE_ARMED) {
                1nat
            } else {
                0
            }
            &&& forall|key: EbpfPolicyKey| #[trigger] times(ops, Op::Exact(key)) == 0
        }),
{
    broadcast use group_times;

}

/// An overlay packet whose header length is below the minimum, or whose transport header ends
/// before the port, is dropped whatever the rules say, and policy is not asked.
pub proof fn law_malformed_headers_are_dropped(
    k: Kernel,
    direction: Direction,
    packet: Seq<u8>,
    len: u32,
)
    requires
        is_overlay_packet(packet),
        ({
            let ip = Ipv4Hdr::at(packet, ETH_LEN as int);
            ip.ihl() < 5 || ip.has_ports() && packet.len() < ETH_LEN + ip.ihl() * 4 + 4
        }),
    ensures
        tc_ops(k, direction, packet, len).last() == Op::Exit(TC_ACT_SHOT as int),
        forall|key: EbpfPolicyKey| #[trigger]
            times(tc_ops(k, direction, packet, len), Op::Exact(key)) == 0,
{
    broadcast use group_times;

}

/// A packet is accounted for exactly where it passes into the overlay, and then once: to its
/// sender on the way out, to its receiver on the way in.
pub proof fn law_only_allowed_traffic_is_accounted(
    k: Kernel,
    direction: Direction,
    packet: Seq<u8>,
    len: u32,
    ip: HostOrderIpv4,
    tx: bool,
    bytes: u32,
)
    requires
        is_overlay_packet(packet),
    ensures
        ({
            let ops = tc_ops(k, direction, packet, len);
            let owner = if direction is Egress {
                src_ip_of(packet)
            } else {
                dst_ip_of(packet)
            };
            times(ops, Op::Account { ip, tx, bytes }) == if ops.last() == Op::Exit(
                TC_ACT_OK as int,
            ) && ip == owner && tx == (direction is Egress) && bytes == len {
                1nat
            } else {
                0
            }
        }),
{
    broadcast use lemma_times_short;

    let flow = flow_of(direction, packet, len);
    if is_decided_on(k, flow) {
        let op = Op::Account { ip, tx, bytes };
        let dst = (k.routes.get(flow.dst_ip)->0).dst_fp;
        lemma_decide_times(k, flow, dst, flow.dst_port->Ok_0, op);
        lemma_tc_times(k, direction, packet, len, op);
    }
}

/// Whenever a hook decides on a packet, one event tells of it: of both identities, the port, the
/// direction and the decision. The packet passes exactly where the event says "allow".
pub proof fn law_every_decision_is_reported(
    k: Kernel,
    direction: Direction,
    packet: Seq<u8>,
    len: u32,
    event: FlowEvent,
)
    requires
        is_overlay_packet(packet),
    ensures
        ({
            let ops = tc_ops(k, direction, packet, len);
            let flow = flow_of(direction, packet, len);
            let dst = (k.routes.get(flow.dst_ip)->0).dst_fp;
            let port = flow.dst_port->Ok_0;
            let told = event_of(
                direction,
                source_of(k, flow),
                dst,
                port,
                flow_decision(k, flow, dst, port),
            );
            &&& times(ops, Op::Event(event)) == if is_decided_on(k, flow) && event == told {
                1nat
            } else {
                0
            }
            &&& is_decided_on(k, flow) ==> (ops.last() == Op::Exit(TC_ACT_OK as int)
                <==> told.action == 1)
        }),
{
    broadcast use lemma_times_short;

    let flow = flow_of(direction, packet, len);
    if is_decided_on(k, flow) {
        let dst = (k.routes.get(flow.dst_ip)->0).dst_fp;
        lemma_decide_times(k, flow, dst, flow.dst_port->Ok_0, Op::Event(event));
        lemma_tc_times(k, direction, packet, len, Op::Event(event));
    }
}

/// An overlay packet from a source without an identity is dropped whatever the rules say: none is
/// looked up, not even one for the all-zero identity, and nothing is accounted for. Where the hook
/// comes to a decision, it counts one default denial and tells of it with the all-zero source.
pub proof fn law_unidentified_sources_are_denied(
    k: Kernel,
    direction: Direction,
    packet: Seq<u8>,
    len: u32,
)
    requires
        is_overlay_packet(packet),
        k.identities.get(src_ip_of(packet)) is None,
    ensures
        ({
            let ops = tc_ops(k, direction, packet, len);
            let flow = flow_of(direction, packet, len);
            let dst = (k.routes.get(flow.dst_ip)->0).dst_fp;
            let denial = event_of(direction, unidentified(), dst, flow.dst_port->Ok_0, 0);
            &&& ops.last() == Op::Exit(TC_ACT_SHOT as int)
            &&& forall|key: EbpfPolicyKey| #[trigger] times(ops, Op::Exact(key)) == 0
            &&& forall|key: EbpfPolicyWildcardKey| #[trigger] times(ops, Op::Wildcard(key)) == 0
            &&& forall|ip: HostOrderIpv4, tx: bool, bytes: u32| #[trigger]
                times(ops, Op::Account { ip, tx, bytes }) == 0
            &&& times(ops, Op::Bump(STAT_ALLOW_HITS)) == 0
            &&& is_decided_on(k, flow) ==> {
                &&& times(ops, Op::Bump(STAT_DEFAULT_DENY_DROPS)) == 1
                &&& times(ops, Op::Event(denial)) == 1
            }
        }),
{
    broadcast use group_times;

    law_tc_fails_closed(k, direction, packet, len);
}

/// Once the boot gate is armed, a packet fares alike in both directions: it gets the same return
/// code, raises the same statistics, is told of by the same event but for the direction, and is
/// accounted for with as many bytes, to its receiver on the way in where it is accounted to its
/// sender on the way out.
pub proof fn law_directions_agree(
    k: Kernel,
    packet: Seq<u8>,
    len: u32,
    index: u32,
    event: FlowEvent,
    bytes: u32,
)
    requires
        k.gate == Some(GATE_ARMED),
    ensures
        ({
            let received = tc_ops(k, Direction::Ingress, packet, len);
            let sent = tc_ops(k, Direction::Egress, packet, len);
            let (src_ip, dst_ip) = (src_ip_of(packet), dst_ip_of(packet));
            &&& received.last() == sent.last()
            &&& times(received, Op::Bump(index)) == times(sent, Op::Bump(index))
            &&& times(received, Op::Event(FlowEvent { direction: 0, ..event })) == times(
                sent,
                Op::Event(FlowEvent { direction: 1, ..event }),
            )
            &&& times(received, Op::Account { ip: dst_ip, tx: false, bytes }) == times(
                sent,
                Op::Account { ip: src_ip, tx: true, bytes },
            )
        }),
{
    broadcast use lemma_times_short;

    if is_overlay_packet(packet) {
        if is_decided_on(k, flow_of(Direction::Egress, packet, len)) {
            lemma_tc_times(k, Direction::Ingress, packet, len, Op::Bump(index));
            lemma_tc_times(k, Direction::Egress, packet, len, Op::Bump(index));
        }
        law_tc_fails_closed(k, Direction::Ingress, packet, len);
        law_tc_fails_closed(k, Direction::Egress, packet, len);
        law_every_decision_is_reported(
            k,
            Direction::Ingress,
            packet,
            len,
            FlowEvent { direction: 0, ..event },
        );
        law_every_decision_is_reported(
            k,
            Direction::Egress,
            packet,
            len,
            FlowEvent { direction: 1, ..event },
        );
        law_only_allowed_traffic_is_accounted(
            k,
            Direction::Ingress,
            packet,
            len,
            dst_ip_of(packet),
            false,
            bytes,
        );
        law_only_allowed_traffic_is_accounted(
            k,
            Direction::Egress,
            packet,
            len,
            src_ip_of(packet),
            true,
            bytes,
        );
    }
}

/// A fragment's offset is in the low five bits of its first byte and in its second byte.
proof fn lemma_fragment_offset(high: u8, low: u8)
    ensures
        be16(high, low) % 0x2000 == (high % 0x20) * 0x100 + low,
{
}

/// The three flag bits beside the fragment offset change nothing: two packets that are equal but
/// for them run alike.
pub proof fn law_fragment_flags_change_nothing(
    k: Kernel,
    direction: Direction,
    packet: Seq<u8>,
    other: Seq<u8>,
    len: u32,
)
    requires
        packet.len() == other.len(),
        forall|i: int| 0 <= i < packet.len() && i != 20 ==> packet[i] == other[i],
        packet.len() > 20 ==> packet[20] % 0x20 == other[20] % 0x20,
    ensures
        tc_ops(k, direction, packet, len) == tc_ops(k, direction, other, len),
{
    if is_framed(packet) {
        let at = ETH_LEN as int;
        lemma_fragment_offset(packet[20], packet[21]);
        lemma_fragment_offset(other[20], other[21]);
        assert(dst_port_of(Ipv4Hdr::at(packet, at), packet, at) == dst_port_of(
            Ipv4Hdr::at(other, at),
            other,
            at,
        )) by {
            assert(Ipv4Hdr::at(packet, at).ihl_version == Ipv4Hdr::at(other, at).ihl_version);
            assert(Ipv4Hdr::at(packet, at).protocol == Ipv4Hdr::at(other, at).protocol);
        }
        assert(flow_of(direction, packet, len) == flow_of(direction, other, len));
    }
}

/// A connection and a packet that agree on addresses, protocol and port get the same answer on
/// the way out.
pub proof fn law_connect_and_tc_agree(k: Kernel, sa: SockAddr, packet: Seq<u8>, len: u32)
    requires
        is_overlay_packet(packet),
        ({
            let c = connection_of(sa);
            let flow = flow_of(Direction::Egress, packet, len);
            &&& c.src_ip == flow.src_ip
            &&& c.dst_ip == flow.dst_ip
            &&& c.protocol == flow.protocol
            &&& flow.dst_port == Ok::<HostOrderPort, i64>(c.dst_port)
            &&& !flow.later_fragment
        }),
    ensures
        connect4_ops(k, sa).last() == Op::Exit(1) <==> tc_ops(
            k,
            Direction::Egress,
            packet,
            len,
        ).last() == Op::Exit(TC_ACT_OK as int),
{
    law_connect_fails_closed(k, sa);
    law_tc_fails_closed(k, Direction::Egress, packet, len);
}

/// The socket-operations hook refuses nothing.
pub proof fn law_sockops_never_refuses(k: Kernel, op: u32)
    ensures
        sockops_ops(k, op).last() == Op::Exit(1),
{
}

/// A socket is published under its own cookie exactly where its connection is newly
/// established, it has a cookie, something is remembered of it, and its destination is
/// registered as local.
pub proof fn law_only_local_connections_are_published(k: Kernel, op: u32, cookie: SocketCookie)
    ensures
        sockops_ops(k, op).contains(Op::Publish(cookie)) <==> {
            &&& op == ACTIVE_ESTABLISHED
            &&& k.cookie.0 != 0
            &&& cookie == k.cookie
            &&& k.states.get(k.cookie) is Some
            &&& k.local.get((k.states.get(k.cookie)->0).dst_fp) == Some(true)
        },
{
    broadcast use group_times;

    lemma_times_contains(sockops_ops(k, op), Op::Publish(cookie));
}

/// A message of a socket that has no cookie or no peer passes.
pub proof fn law_unpaired_messages_pass(k: Kernel)
    requires
        k.cookie.0 == 0 || k.peers.get(k.cookie) is None,
    ensures
        sk_msg_ops(k).last() == Op::Exit(SK_PASS as int),
        forall|peer: SocketCookie| #[trigger] times(sk_msg_ops(k), Op::Redirect(peer)) == 0,
{
    broadcast use group_times;

}

/// A message is redirected to no socket but the one that its own socket is paired with.
pub proof fn law_messages_go_to_the_paired_socket(k: Kernel, peer: SocketCookie)
    ensures
        sk_msg_ops(k).contains(Op::Redirect(peer)) <==> k.cookie.0 != 0 && k.peers.get(k.cookie)
            == Some(peer),
{
    broadcast use group_times;

    lemma_times_contains(sk_msg_ops(k), Op::Redirect(peer));
}

/// The connect hook counts no statistic that does not exist.
pub proof fn law_connect_counts_known_stats(k: Kernel, sa: SockAddr)
    ensures
        counts_known_stats(connect4_ops(k, sa)),
{
    let c = connection_of(sa);
    let src = k.identities.get(c.src_ip)->0;
    let dst = (k.routes.get(c.dst_ip)->0).dst_fp;
    assert(counts_known_stats(policy_ops(k, src, dst, c.protocol, c.dst_port)));
}

/// The packet hooks count no statistic that does not exist.
pub proof fn law_tc_counts_known_stats(
    k: Kernel,
    direction: Direction,
    packet: Seq<u8>,
    len: u32,
)
    ensures
        counts_known_stats(tc_ops(k, direction, packet, len)),
{
    let flow = flow_of(direction, packet, len);
    let src = k.identities.get(flow.src_ip)->0;
    let dst = (k.routes.get(flow.dst_ip)->0).dst_fp;
    assert(counts_known_stats(
        policy_ops(k, src, dst, flow.protocol, flow.dst_port->Ok_0),
    ));
    assert(counts_known_stats(decide_ops(k, flow, dst, flow.dst_port->Ok_0)));
    assert(counts_known_stats(evaluate_ops(k, flow)));
}

/// A run of the connect hook is short, asks the kernel each question at most once, and ends
/// with a return code.
pub proof fn law_connect_runs_are_bounded(k: Kernel, sa: SockAddr, question: Op)
    requires
        is_question(question),
    ensures
        connect4_ops(k, sa).len() <= 14,
        times(connect4_ops(k, sa), question) <= 1,
        connect4_ops(k, sa).last() is Exit,
{
    broadcast use group_times;

    let c = connection_of(sa);
    let src = k.identities.get(c.src_ip)->0;
    let dst = (k.routes.get(c.dst_ip)->0).dst_fp;
    lemma_policy_questions(k, src, dst, c.protocol, c.dst_port, question);
}

/// A policy evaluation asks each question at most once, and only for rules.
proof fn lemma_policy_questions(
    k: Kernel,
    src: IdentityFingerprint,
    dst: IdentityFingerprint,
    protocol: u8,
    dst_port: HostOrderPort,
    question: Op,
)
    requires
        is_question(question),
    ensures
        times(policy_ops(k, src, dst, protocol, dst_port), question) <= 1,
        !(question is Exact || question is Wildcard) ==> times(
            policy_ops(k, src, dst, protocol, dst_port),
            question,
        ) == 0,
        policy_ops(k, src, dst, protocol, dst_port).len() <= 7,
{
    broadcast use group_times;

    lemma_protocol_questions(k, src, dst, protocol, dst_port, question);
    lemma_protocol_questions(k, src, dst, ANY_PROTOCOL, dst_port, question);
}

/// The lookups under one protocol ask each question at most once, and only for rules of that
/// protocol.
proof fn lemma_protocol_questions(
    k: Kernel,
    src: IdentityFingerprint,
    dst: IdentityFingerprint,
    protocol: u8,
    dst_port: HostOrderPort,
    question: Op,
)
    ensures
        times(protocol_ops(k, src, dst, protocol, dst_port), question) <= 1,
        times(protocol_ops(k, src, dst, protocol, dst_port), question) == 1
            ==> (question matches Op::Exact(key) && key.protocol == protocol),
{
    broadcast use group_times;

    let own = exact_key(src, dst, protocol, dst_port);
    let any = exact_key(src, dst, protocol, HostOrderPort(ANY_PORT));
    if dst_port.0 != ANY_PORT {
        assert(own.dst_port != any.dst_port);
    }
}

/// The evaluation of a packet asks each question at most once, and not for the boot gate.
proof fn lemma_evaluate_questions(k: Kernel, flow: Flow, question: Op)
    requires
        is_question(question),
    ensures
        times(evaluate_ops(k, flow), question) <= 1,
        question is Gate ==> times(evaluate_ops(k, flow), question) == 0,
        evaluate_ops(k, flow).len() <= 12,
        evaluate_ops(k, flow).last() is Exit,
{
    broadcast use group_times;

    let src = k.identities.get(flow.src_ip)->0;
    let dst = (k.routes.get(flow.dst_ip)->0).dst_fp;
    lemma_policy_questions(k, src, dst, flow.protocol, flow.dst_port->Ok_0, question);
}

/// A run of a packet hook is short, asks the kernel each question at most once, and ends with a
/// return code.
pub proof fn law_tc_runs_are_bounded(
    k: Kernel,
    direction: Direction,
    packet: Seq<u8>,
    len: u32,
    question: Op,
)
    requires
        is_question(question),
    ensures
        tc_ops(k, direction, packet, len).len() <= 13,
        times(tc_ops(k, direction, packet, len), question) <= 1,
        tc_ops(k, direction, packet, len).last() is Exit,
{
    broadcast use group_times;

    lemma_evaluate_questions(k, flow_of(direction, packet, len), question);
}

/// A run of a socket hook is short, asks the kernel each question at most once, and ends with a
/// return code.
pub proof fn law_socket_runs_are_bounded(k: Kernel, op: u32, question: Op)
    requires
        is_question(question),
    ensures
        sockops_ops(k, op).len() <= 5,
        sk_msg_ops(k).len() <= 4,
        times(sockops_ops(k, op), question) <= 1,
        times(sk_msg_ops(k), question) <= 1,
        sockops_ops(k, op).last() is Exit,
        sk_msg_ops(k).last() is Exit,
{
    broadcast use group_times;

}

} // verus!
