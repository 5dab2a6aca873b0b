//! How a state of a hook relates to the kernel: which operation it waits for, and which answer it
//! goes on with.
#![allow(unused_imports)]
use crate::byte_order::HostOrderPort;
use crate::connect4;
use crate::connect4::Connect4;
use crate::kernel::{Kernel, Op};
use crate::map_types::{
    DummyIpRouteValue, EbpfPolicyValue, FlowEvent, IdentityFingerprint, SockStateValue,
    SocketCookie,
};
use crate::observed::names;
use crate::policy::{
    AfterCount as PolicyAfterCount, Check, ExactLookup, PolicyCount, WildcardLookup,
};
use crate::sk_msg;
use crate::sk_msg::SkMsg;
use crate::sockops;
use crate::sockops::SockOps;
use crate::tc;
use crate::tc::{Direction, Report, Tc};
use crate::wire::{
    holds, law_network_order_is_wire_order, law_port_network_order_is_wire_order,
    lemma_number_of_four, lemma_number_of_two,
};
use vstd::prelude::*;

verus! {

/// A policy evaluation waits for the lookup or the count that its state holds the key or the index
/// of, goes on with what the kernel has under that very key, and is over once it has decided.
pub proof fn law_check_waits_for_what_it_holds(check: Check, k: Kernel)
    ensures
        match check {
            Check::Exact(s) => {
                &&& check.op() == Op::Exact(s.key)
                &&& check.stepped(k) == s.answered(k.exact.get(s.key))
            },
            Check::Wildcard(s) => {
                &&& check.op() == Op::Wildcard(s.key)
                &&& check.stepped(k) == s.answered(k.wildcard.get(s.key))
            },
            Check::Count(s) => {
                &&& check.op() == Op::Bump(s.index)
                &&& check.stepped(k) == s.counted()
            },
            Check::Decided(d) => {
                &&& check.run(k) == Seq::<Op>::empty()
                &&& check.result(k) == d
            },
        },
        !(check is Decided) ==> {
            &&& check.run(k) == seq![check.op()] + check.stepped(k).run(k)
            &&& check.result(k) == check.stepped(k).result(k)
        },
{
}

/// A lookup of an exact rule goes on to keys of the same two identities only, with the same
/// padding, and with a protocol and a port that are either its flow's or zero. A decision that was
/// counted is the one that is taken.
pub proof fn law_lookups_keep_to_their_flow(s: ExactLookup, rule: EbpfPolicyValue, index: u32)
    ensures
        match s.answered(None) {
            Check::Exact(next) => {
                &&& next.dst_port == s.dst_port
                &&& next.key.src_fingerprint == s.key.src_fingerprint
                &&& next.key.dst_fingerprint == s.key.dst_fingerprint
                &&& next.key._pad == s.key._pad
                &&& next.key._pad2 == s.key._pad2
                &&& s.key.dst_port.0 != 0 ==> next.key.dst_port.0 == 0 && next.key.protocol
                    == s.key.protocol
                &&& s.key.dst_port.0 == 0 ==> next.key.dst_port == s.dst_port && next.key.protocol
                    == 0 && s.key.protocol != 0
            },
            Check::Wildcard(next) => {
                &&& s.key.dst_port.0 == 0 && s.key.protocol == 0
                &&& next.key.src_fingerprint == s.key.src_fingerprint
                &&& next.key.dst_fingerprint == s.key.dst_fingerprint
            },
            _ => false,
        },
        s.answered(Some(rule)) == Check::Count(
            PolicyCount {
                index: if rule.decision == 1 {
                    0
                } else {
                    1
                },
                after: PolicyAfterCount::Decided(rule.decision),
            },
        ),
        (PolicyCount { index, after: PolicyAfterCount::Decided(rule.decision) }).counted()
            == Check::Decided(rule.decision),
        (PolicyCount { index, after: PolicyAfterCount::Tally(rule.decision) }).counted()
            == s.answered(Some(rule)),
{
}

/// A run of the connect hook waits for the operation whose key, index or words its state holds,
/// goes on with what the kernel answers to that very operation, and is over with its return code.
pub proof fn law_connect_waits_for_what_it_holds(run: Connect4, k: Kernel)
    ensures
        match run {
            Connect4::Count(s) => {
                &&& run.op() == Op::Bump(s.index)
                &&& run.stepped(k) == s.counted()
            },
            Connect4::Resolve(s) => {
                &&& run.op() == Op::Route(s.connection.dst_ip)
                &&& run.stepped(k) == s.answered(k.routes.get(s.connection.dst_ip))
            },
            Connect4::Identify(s) => {
                &&& run.op() == Op::Identity(s.connection.src_ip)
                &&& run.stepped(k) == s.answered(k.identities.get(s.connection.src_ip))
            },
            Connect4::Authorize(s) => {
                &&& run.op() == s.check.op()
                &&& run.stepped(k) == s.answered(s.check.stepped(k))
            },
            Connect4::Cookie(s) => {
                &&& run.op() == Op::Cookie
                &&& run.stepped(k) == s.answered(k.cookie)
            },
            Connect4::Store(s) => {
                &&& run.op() == Op::Store(s.cookie, s.state)
                &&& run.stepped(k) == s.stored()
            },
            Connect4::Rewrite(s) => {
                &&& run.op() == Op::Rewrite { user_ip4: s.user_ip4, user_port: s.user_port }
                &&& run.stepped(k) == s.rewritten()
            },
            Connect4::Exit(code) => run.run(k) == seq![Op::Exit(code as int)],
        },
        match run {
            Connect4::Exit(_) => true,
            Connect4::Authorize(s) => run.run(k) == if s.check is Decided {
                run.stepped(k).run(k)
            } else {
                seq![run.op()] + run.stepped(k).run(k)
            },
            _ => run.run(k) == seq![run.op()] + run.stepped(k).run(k),
        },
{
}

/// A run of a packet hook waits for the operation whose key, index or event its state holds, goes
/// on with what the kernel answers to that very operation, and is over with its return code.
pub proof fn law_tc_waits_for_what_it_holds(run: Tc, k: Kernel)
    ensures
        match run {
            Tc::Count(s) => {
                &&& run.op() == Op::Bump(s.index)
                &&& run.stepped(k) == s.counted()
            },
            Tc::Gate(s) => {
                &&& run.op() == Op::Gate
                &&& run.stepped(k) == s.answered(k.gate)
            },
            Tc::Resolve(s) => {
                &&& run.op() == Op::Route(s.flow.dst_ip)
                &&& run.stepped(k) == s.answered(k.routes.get(s.flow.dst_ip))
            },
            Tc::Identify(s) => {
                &&& run.op() == Op::Identity(s.flow.src_ip)
                &&& run.stepped(k) == s.answered(k.identities.get(s.flow.src_ip))
            },
            Tc::Authorize(s) => {
                &&& run.op() == s.check.op()
                &&& run.stepped(k) == s.answered(s.check.stepped(k))
            },
            Tc::Account(s) => {
                &&& run.op() == Op::Account { ip: s.ip, tx: s.tx, bytes: s.bytes }
                &&& run.stepped(k) == s.accounted()
            },
            Tc::Report(s) => {
                &&& run.op() == Op::Event(s.event)
                &&& run.stepped(k) == s.reported()
            },
            Tc::Exit(code) => run.run(k) == seq![Op::Exit(code as int)],
        },
        match run {
            Tc::Exit(_) => true,
            Tc::Authorize(s) => run.run(k) == if s.check is Decided {
                run.stepped(k).run(k)
            } else {
                seq![run.op()] + run.stepped(k).run(k)
            },
            _ => run.run(k) == seq![run.op()] + run.stepped(k).run(k),
        },
{
}

/// A run of the socket-operations hook waits for the operation whose key its state holds, goes on
/// with what the kernel answers to that very operation, and is over with its return code.
pub proof fn law_sockops_waits_for_what_it_holds(run: SockOps, k: Kernel)
    ensures
        match run {
            SockOps::Cookie(s) => {
                &&& run.op() == Op::Cookie
                &&& run.stepped(k) == s.answered(k.cookie)
            },
            SockOps::State(s) => {
                &&& run.op() == Op::State(s.cookie)
                &&& run.stepped(k) == s.answered(k.states.get(s.cookie))
            },
            SockOps::Local(s) => {
                &&& run.op() == Op::Local(s.dst_fp)
                &&& run.stepped(k) == s.answered(k.local.get(s.dst_fp))
            },
            SockOps::Publish(s) => {
                &&& run.op() == Op::Publish(s.cookie)
                &&& run.stepped(k) == s.published()
            },
            SockOps::Exit(code) => run.run(k) == seq![Op::Exit(code as int)],
        },
        !(run is Exit) ==> run.run(k) == seq![run.op()] + run.stepped(k).run(k),
{
}

/// A run of the message hook waits for the operation whose key its state holds, goes on with what
/// the kernel answers to that very operation, and is over with its return code.
pub proof fn law_sk_msg_waits_for_what_it_holds(run: SkMsg, k: Kernel)
    ensures
        match run {
            SkMsg::Cookie(s) => {
                &&& run.op() == Op::Cookie
                &&& run.stepped(k) == s.answered(k.cookie)
            },
            SkMsg::Peer(s) => {
                &&& run.op() == Op::Peer(s.cookie)
                &&& run.stepped(k) == s.answered(k.peers.get(s.cookie))
            },
            SkMsg::Redirect(s) => {
                &&& run.op() == Op::Redirect(s.peer)
                &&& run.stepped(k) == s.answered(k.redirect)
            },
            SkMsg::Exit(code) => run.run(k) == seq![Op::Exit(code as int)],
        },
        !(run is Exit) ==> run.run(k) == seq![run.op()] + run.stepped(k).run(k),
{
}

/// An outcome that is fine lets traffic through, and any error refuses it: with 1 and 0 at connect,
/// 0 and 2 for packets, 1 and 0 for socket operations. A packet whose event says anything but
/// "allow" is dropped.
pub proof fn law_errors_refuse(outcome: Result<(), i64>, event: FlowEvent)
    ensures
        outcome is Ok ==> {
            &&& crate::connect4::verdict_of(outcome) == 1
            &&& crate::tc::verdict_of(outcome) == 0
            &&& crate::sockops::verdict_of(outcome) == 1
        },
        outcome is Err ==> {
            &&& crate::connect4::verdict_of(outcome) == 0
            &&& crate::tc::verdict_of(outcome) == 2
            &&& crate::sockops::verdict_of(outcome) == 0
        },
        event.action == 1 ==> (Report { event }).reported() == Tc::Exit(0),
        event.action != 1 ==> (Report { event }).reported() == Tc::Exit(2),
{
}

/// A wildcard rule is counted as such, then as what it decides, and decides. Without one the flow
/// is counted as denied by default, and denied.
pub proof fn law_wildcard_answer_is_followed(s: WildcardLookup, rule: EbpfPolicyValue)
    ensures
        s.answered(Some(rule)) == Check::Count(
            PolicyCount { index: 2, after: PolicyAfterCount::Tally(rule.decision) },
        ),
        s.answered(None) == Check::Count(
            PolicyCount { index: 3, after: PolicyAfterCount::Decided(0) },
        ),
{
}

/// An evaluation starts with the rule for the flow's own protocol and port.
pub open spec fn begins(
    check: Check,
    src: IdentityFingerprint,
    dst: IdentityFingerprint,
    protocol: u8,
    port: HostOrderPort,
) -> bool {
    check matches Check::Exact(s) && s.dst_port == port && names(s.key, src, dst, protocol, port.0)
}

/// How the connect hook resolves a connection. With a route it asks who the source is; without one
/// it counts that and refuses. With an identity it puts the connection before policy; without one
/// it counts a default denial and refuses.
pub proof fn law_connect_resolves_both_ends(
    resolve: connect4::Resolve,
    identify: connect4::Identify,
    route: DummyIpRouteValue,
    src: IdentityFingerprint,
)
    ensures
        resolve.answered(Some(route)) == Connect4::Identify(
            connect4::Identify { connection: resolve.connection, route },
        ),
        resolve.answered(None) matches Connect4::Count(c) && c.index == 4 && c.counted()
            == Connect4::Exit(0),
        identify.answered(Some(src)) matches Connect4::Authorize(a) && a.route == identify.route
            && begins(
            a.check,
            src,
            identify.route.dst_fp,
            identify.connection.protocol,
            identify.connection.dst_port,
        ),
        identify.answered(None) matches Connect4::Count(c) && c.index == 3 && c.counted()
            == Connect4::Exit(0),
{
}

/// How the connect hook acts on policy. While policy has not decided, it goes on with that.
/// "Allow", and nothing else, leads on to the socket's cookie.
pub proof fn law_connect_acts_on_policy(s: connect4::Authorize, check: Check)
    ensures
        match check {
            Check::Decided(decided) => s.answered(check) == if decided == 1 {
                Connect4::Cookie(connect4::AwaitCookie { route: s.route })
            } else {
                Connect4::Exit(0)
            },
            _ => s.answered(check) == Connect4::Authorize(
                connect4::Authorize { route: s.route, check },
            ),
        },
{
}

/// How an authorized connection is rewritten. A cookie that is not zero has the route's workload
/// and agent remembered under it. Then, in any case, the rewrite is counted and done, to the bytes
/// of 127.0.0.1 and of port 4242, and the connection is let through.
pub proof fn law_connect_rewrites_what_it_admits(
    s: connect4::AwaitCookie,
    cookie: SocketCookie,
    store: connect4::Store,
    rewrite: connect4::Rewrite,
    index: u32,
    outcome: Result<(), i64>,
)
    ensures
        ({
            let counting = Connect4::Count(
                connect4::Count { index: 6, after: connect4::AfterCount::Rewrite },
            );
            &&& cookie.0 == 0 ==> s.answered(cookie) == counting
            &&& cookie.0 != 0 ==> s.answered(cookie) == Connect4::Store(
                connect4::Store {
                    cookie,
                    state: SockStateValue {
                        dst_fp: s.route.dst_fp,
                        target_agent_fp: s.route.target_agent_fp,
                    },
                },
            )
            &&& store.stored() == counting
        }),
        (connect4::Count { index, after: connect4::AfterCount::Rewrite }).counted()
            matches Connect4::Rewrite(r) && holds(r.user_ip4 as int, seq![127u8, 0u8, 0u8, 1u8])
            && holds(r.user_port as int, seq![0x10u8, 0x92u8]),
        rewrite.rewritten() == Connect4::Exit(1),
        (connect4::Count { index, after: connect4::AfterCount::Exit(outcome) }).counted()
            == Connect4::Exit(
            if outcome is Ok {
                1
            } else {
                0
            },
        ),
{
    let (agent, agent_port) = (seq![127u8, 0u8, 0u8, 1u8], seq![0x10u8, 0x92u8]);
    lemma_number_of_four(agent);
    lemma_number_of_two(agent_port);
    law_network_order_is_wire_order(0x7f00_0001, agent);
    law_port_network_order_is_wire_order(4242, agent_port);
}

/// How a packet hook goes on from the boot gate. Only the value 1 opens it, and then a fragment
/// with an offset is counted and dropped, and the route of any other packet is asked for.
pub proof fn law_tc_passes_the_gate(s: tc::Gate, gate: Option<u32>)
    ensures
        gate != Some(1u32) ==> s.answered(gate) == Tc::Exit(2),
        gate == Some(1u32) && s.flow.later_fragment ==> {
            s.answered(gate) matches Tc::Count(c) && c.index == 7 && c.counted() == Tc::Exit(2)
        },
        gate == Some(1u32) && !s.flow.later_fragment ==> s.answered(gate) == Tc::Resolve(
            tc::Resolve { flow: s.flow },
        ),
{
}

/// How a packet hook resolves a packet. With a route it asks who the source is; without one it
/// counts that and drops. A packet without a port is dropped. With an identity the packet is put
/// before policy; without one a default denial is counted and told of, and the packet is dropped.
pub proof fn law_tc_resolves_both_ends(
    resolve: tc::Resolve,
    identify: tc::Identify,
    route: DummyIpRouteValue,
    src: Option<IdentityFingerprint>,
)
    ensures
        resolve.answered(Some(route)) == Tc::Identify(tc::Identify { flow: resolve.flow, route }),
        resolve.answered(None) matches Tc::Count(c) && c.index == 4 && c.counted() == Tc::Exit(2),
        identify.flow.dst_port is Err ==> identify.answered(src) == Tc::Exit(2),
        identify.flow.dst_port is Ok && src is Some ==> {
            identify.answered(src) matches Tc::Authorize(a) && a.flow == identify.flow && a.src
                == src->0 && a.dst == identify.route.dst_fp && a.dst_port
                == identify.flow.dst_port->Ok_0 && begins(
                a.check,
                src->0,
                identify.route.dst_fp,
                identify.flow.protocol,
                identify.flow.dst_port->Ok_0,
            )
        },
        identify.flow.dst_port is Ok && src is None ==> {
            let event = FlowEvent {
                src_hash: IdentityFingerprint(
                    [
                        0u8, 0u8, 0u8, 0u8, 0u8, 0u8, 0u8, 0u8, 0u8, 0u8, 0u8, 0u8, 0u8, 0u8, 0u8,
                        0u8,
                    ],
                ),
                dst_hash: identify.route.dst_fp,
                port: identify.flow.dst_port->Ok_0,
                action: 0,
                direction: if identify.flow.direction == Direction::Egress {
                    1
                } else {
                    0
                },
                _pad: [0u8, 0u8, 0u8, 0u8],
            };
            identify.answered(src) matches Tc::Count(c) && c.index == 3 && c.counted()
                == Tc::Report(Report { event })
        },
{
}

/// How a packet hook acts on policy. While policy has not decided, it goes on with that. A decision
/// is told of with the identities and the port that it was taken for. "Allow", and nothing else,
/// has the packet accounted for before: to its source on the way out, to its destination on the way
/// in.
pub proof fn law_tc_acts_on_policy(s: tc::Authorize, check: Check)
    ensures
        match check {
            Check::Decided(decided) => {
                let sent = s.flow.direction == Direction::Egress;
                let event = FlowEvent {
                    src_hash: s.src,
                    dst_hash: s.dst,
                    port: s.dst_port,
                    action: decided,
                    direction: if sent {
                        1
                    } else {
                        0
                    },
                    _pad: [0u8, 0u8, 0u8, 0u8],
                };
                let ip = if sent {
                    s.flow.src_ip
                } else {
                    s.flow.dst_ip
                };
                s.answered(check) == if decided == 1 {
                    Tc::Account(tc::Account { ip, tx: sent, bytes: s.flow.len, event })
                } else {
                    Tc::Report(Report { event })
                }
            },
            _ => s.answered(check) == Tc::Authorize(tc::Authorize { check, ..s }),
        },
{
}

/// How a packet hook ends. What was accounted for is told of. A count either ends the run with the
/// code of its outcome or leads on to the event that it holds.
pub proof fn law_tc_ends(
    account: tc::Account,
    index: u32,
    event: FlowEvent,
    outcome: Result<(), i64>,
)
    ensures
        account.accounted() == Tc::Report(Report { event: account.event }),
        (tc::Count { index, after: tc::AfterCount::Report(event) }).counted() == Tc::Report(
            Report { event },
        ),
        (tc::Count { index, after: tc::AfterCount::Exit(outcome) }).counted() == Tc::Exit(
            if outcome is Ok {
                0
            } else {
                2
            },
        ),
{
}

/// How the socket-operations hook follows the answers: the cookie to what was remembered under it,
/// that to whether its destination is local, and that to publishing the socket under the same
/// cookie. Whatever is missing ends the run, which refuses nothing.
pub proof fn law_sockops_follows_the_answers(
    s: sockops::AwaitCookie,
    cookie: SocketCookie,
    lookup: sockops::StateLookup,
    state: SockStateValue,
    local: sockops::LocalLookup,
    is_local: Option<bool>,
    publish: sockops::Publish,
)
    ensures
        cookie.0 == 0 ==> s.answered(cookie) == SockOps::Exit(1),
        cookie.0 != 0 ==> s.answered(cookie) == SockOps::State(sockops::StateLookup { cookie }),
        lookup.answered(Some(state)) == SockOps::Local(
            sockops::LocalLookup { cookie: lookup.cookie, dst_fp: state.dst_fp },
        ),
        lookup.answered(None) == SockOps::Exit(1),
        is_local == Some(true) ==> local.answered(is_local) == SockOps::Publish(
            sockops::Publish { cookie: local.cookie },
        ),
        is_local != Some(true) ==> local.answered(is_local) == SockOps::Exit(1),
        publish.published() == SockOps::Exit(1),
{
}

/// How the message hook follows the answers: the cookie to its peer, the peer to the redirect, and
/// the kernel's answer to that, cut to 32 bits, to the return code. Whatever is missing lets the
/// message pass.
pub proof fn law_sk_msg_follows_the_answers(
    s: sk_msg::AwaitCookie,
    cookie: SocketCookie,
    lookup: sk_msg::PeerLookup,
    peer: SocketCookie,
    redirect: sk_msg::Redirect,
    answer: i64,
)
    ensures
        cookie.0 == 0 ==> s.answered(cookie) == SkMsg::Exit(1),
        cookie.0 != 0 ==> s.answered(cookie) == SkMsg::Peer(sk_msg::PeerLookup { cookie }),
        lookup.answered(Some(peer)) == SkMsg::Redirect(sk_msg::Redirect { peer }),
        lookup.answered(None) == SkMsg::Exit(1),
        redirect.answered(answer) matches SkMsg::Exit(code) && (code - answer) % 0x1_0000_0000 == 0,
{
}

} // verus!
