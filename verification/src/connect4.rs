//! The connect hook: resolves a dummy overlay address, authorizes the connection and rewrites
//! it to the local agent.
#[allow(unused_imports)]
use crate::byte_order::{network16, network32};
use crate::byte_order::{HostOrderIpv4, HostOrderPort};
#[allow(unused_imports)]
use crate::kernel::{Kernel, Op};
use crate::map_types::{
    DummyIpRouteValue, IdentityFingerprint, SockStateValue, SocketCookie, STAT_DEFAULT_DENY_DROPS,
    STAT_PASS_THROUGHS, STAT_REWRITES, STAT_ROUTE_MISSES,
};
use crate::overlay::{is_overlay_address, REFUSED};
#[allow(unused_imports)]
use crate::overlay::in_overlay;
use crate::policy::{check_policy, Check};
#[allow(unused_imports)]
use crate::policy::{checking, decision, lemma_check_runs, policy_ops};
use vstd::prelude::*;

verus! {

/// Loopback address of the agent.
pub const AGENT_IP: u32 = 0x7f00_0001;

/// Port on which the agent listens.
pub const AGENT_PORT: u16 = 4242;

/// The fields of the kernel's `bpf_sock_addr` that the hook reads. The addresses and the low
/// half of `user_port` are in network order.
#[derive(Copy, Clone, Debug, PartialEq, Eq, Structural)]
pub struct SockAddr {
    pub user_ip4: u32,
    pub user_port: u32,
    pub msg_src_ip4: u32,
    pub protocol: u32,
}

/// A run of the hook that waits for the kernel, or its return code.
#[derive(Copy, Clone, Debug, PartialEq, Eq)]
pub enum Connect4 {
    Count(Count),
    Resolve(Resolve),
    Identify(Identify),
    Authorize(Authorize),
    Cookie(AwaitCookie),
    Store(Store),
    Rewrite(Rewrite),
    Exit(i32),
}

/// What the hook needs to know of the connection once it is known to enter the overlay.
#[derive(Copy, Clone, Debug, PartialEq, Eq, Structural)]
pub struct Connection {
    pub src_ip: HostOrderIpv4,
    pub dst_ip: HostOrderIpv4,
    pub protocol: u8,
    pub dst_port: HostOrderPort,
}

/// Waits for the statistic with this index to go up.
#[derive(Copy, Clone, Debug, PartialEq, Eq)]
pub struct Count {
    pub index: u32,
    pub after: AfterCount,
}

/// What follows once a statistic went up.
#[derive(Copy, Clone, Debug, PartialEq, Eq)]
pub enum AfterCount {
    Exit(Result<(), i64>),
    Rewrite,
}

/// Waits for the route of the destination address.
#[derive(Copy, Clone, Debug, PartialEq, Eq)]
pub struct Resolve {
    pub connection: Connection,
}

/// Waits for the identity behind the source address.
#[derive(Copy, Clone, Debug, PartialEq, Eq)]
pub struct Identify {
    pub connection: Connection,
    pub route: DummyIpRouteValue,
}

/// Waits for the policy evaluation.
#[derive(Copy, Clone, Debug, PartialEq, Eq)]
pub struct Authorize {
    pub route: DummyIpRouteValue,
    pub check: Check,
}

/// Waits for the socket's cookie.
#[derive(Copy, Clone, Debug, PartialEq, Eq)]
pub struct AwaitCookie {
    pub route: DummyIpRouteValue,
}

/// Waits for the resolution to be remembered under the cookie.
#[derive(Copy, Clone, Debug, PartialEq, Eq)]
pub struct Store {
    pub cookie: SocketCookie,
    pub state: SockStateValue,
}

/// Waits for the destination to be overwritten with these two words.
#[derive(Copy, Clone, Debug, PartialEq, Eq)]
pub struct Rewrite {
    pub user_ip4: u32,
    pub user_port: u32,
}

/// The low half of a port word: the port itself, in network order.
pub open spec fn low_half(word: u32) -> u16 {
    (word % 0x1_0000) as u16
}

/// The connection that the kernel describes.
pub open spec fn connection_of(sa: SockAddr) -> Connection {
    Connection {
        src_ip: HostOrderIpv4(network32(sa.msg_src_ip4)),
        dst_ip: HostOrderIpv4(network32(sa.user_ip4)),
        protocol: (sa.protocol % 0x100) as u8,
        dst_port: HostOrderPort(network16(low_half(sa.user_port))),
    }
}

/// What is remembered of a route.
pub open spec fn remembered(route: DummyIpRouteValue) -> SockStateValue {
    SockStateValue { dst_fp: route.dst_fp, target_agent_fp: route.target_agent_fp }
}

/// The rewrite to the agent. As in the words that the kernel hands to the hook, the port stands in
/// the low half of its word.
pub open spec fn rewrite_to_agent() -> Op {
    Op::Rewrite { user_ip4: network32(AGENT_IP), user_port: network16(AGENT_PORT) as u32 }
}

/// All that the hook does once the connection is authorized, in order.
pub open spec fn admit_ops(k: Kernel, route: DummyIpRouteValue) -> Seq<Op> {
    if k.cookie.0 == 0 {
        seq![Op::Cookie, Op::Bump(STAT_REWRITES), rewrite_to_agent(), Op::Exit(1)]
    } else {
        seq![
            Op::Cookie,
            Op::Store(k.cookie, remembered(route)),
            Op::Bump(STAT_REWRITES),
            rewrite_to_agent(),
            Op::Exit(1),
        ]
    }
}

/// All that the hook does for a connection, in order.
pub open spec fn connect4_ops(k: Kernel, sa: SockAddr) -> Seq<Op> {
    let c = connection_of(sa);
    if !in_overlay(c.dst_ip) {
        seq![Op::Bump(STAT_PASS_THROUGHS), Op::Exit(1)]
    } else {
        match k.routes.get(c.dst_ip) {
            None => seq![Op::Route(c.dst_ip), Op::Bump(STAT_ROUTE_MISSES), Op::Exit(0)],
            Some(route) => match k.identities.get(c.src_ip) {
                None => seq![
                    Op::Route(c.dst_ip),
                    Op::Identity(c.src_ip),
                    Op::Bump(STAT_DEFAULT_DENY_DROPS),
                    Op::Exit(0),
                ],
                Some(src) => seq![Op::Route(c.dst_ip), Op::Identity(c.src_ip)] + policy_ops(
                    k,
                    src,
                    route.dst_fp,
                    c.protocol,
                    c.dst_port,
                ) + if decision(k, src, route.dst_fp, c.protocol, c.dst_port) == 1 {
                    admit_ops(k, route)
                } else {
                    seq![Op::Exit(0)]
                },
            },
        }
    }
}

/// The return code of an outcome.
pub open spec fn verdict_of(outcome: Result<(), i64>) -> i32 {
    if outcome is Ok {
        1
    } else {
        0
    }
}

impl Connect4 {
    /// The operation that the run waits for.
    pub open spec fn op(self) -> Op {
        match self {
            Connect4::Count(s) => Op::Bump(s.index),
            Connect4::Resolve(s) => Op::Route(s.connection.dst_ip),
            Connect4::Identify(s) => Op::Identity(s.connection.src_ip),
            Connect4::Authorize(s) => s.check.op(),
            Connect4::Cookie(_) => Op::Cookie,
            Connect4::Store(s) => Op::Store(s.cookie, s.state),
            Connect4::Rewrite(s) => Op::Rewrite { user_ip4: s.user_ip4, user_port: s.user_port },
            Connect4::Exit(code) => Op::Exit(code as int),
        }
    }

    /// The run after the kernel performed that operation.
    pub open spec fn stepped(self, k: Kernel) -> Connect4 {
        match self {
            Connect4::Count(s) => s.counted(),
            Connect4::Resolve(s) => s.answered(k.routes.get(s.connection.dst_ip)),
            Connect4::Identify(s) => s.answered(k.identities.get(s.connection.src_ip)),
            Connect4::Authorize(s) => s.answered(s.check.stepped(k)),
            Connect4::Cookie(s) => s.answered(k.cookie),
            Connect4::Store(s) => s.stored(),
            Connect4::Rewrite(s) => s.rewritten(),
            Connect4::Exit(_) => self,
        }
    }

    /// A bound on the number of steps that are left.
    pub open spec fn rank(self) -> nat {
        match self {
            Connect4::Resolve(_) => 15,
            Connect4::Identify(_) => 14,
            Connect4::Authorize(s) => 6 + s.check.rank(),
            Connect4::Cookie(_) => 5,
            Connect4::Store(_) => 4,
            Connect4::Count(s) => if s.after is Rewrite {
                3
            } else {
                1
            },
            Connect4::Rewrite(_) => 1,
            Connect4::Exit(_) => 0,
        }
    }

    /// All that is still to be done, in order, if the kernel answers as `k` does. A policy
    /// evaluation that has come to its decision is nothing to be done.
    pub open spec fn run(self, k: Kernel) -> Seq<Op>
        decreases self.rank(),
    {
        match self {
            Connect4::Exit(code) => seq![Op::Exit(code as int)],
            Connect4::Authorize(Authorize { route, check: Check::Decided(_) }) => self.stepped(
                k,
            ).run(k),
            _ => seq![self.op()] + self.stepped(k).run(k),
        }
    }
}

/// The return code of an outcome.
fn verdict(outcome: Result<(), i64>) -> (code: i32)
    ensures
        code == verdict_of(outcome),
{
    match outcome {
        Ok(()) => 1,
        Err(_) => 0,
    }
}

impl Count {
    /// The run after the statistic went up.
    pub open spec fn counted(self) -> Connect4 {
        match self.after {
            AfterCount::Exit(outcome) => Connect4::Exit(verdict_of(outcome)),
            AfterCount::Rewrite => Connect4::Rewrite(
                Rewrite {
                    user_ip4: network32(AGENT_IP),
                    user_port: network16(AGENT_PORT) as u32,
                },
            ),
        }
    }

    /// Goes on once the statistic went up.
    pub fn done(self) -> (next: Connect4)
        ensures
            next == self.counted(),
    {
        match self.after {
            AfterCount::Exit(outcome) => Connect4::Exit(verdict(outcome)),
            AfterCount::Rewrite => Connect4::Rewrite(
                Rewrite {
                    user_ip4: HostOrderIpv4(AGENT_IP).to_network(),
                    user_port: HostOrderPort(AGENT_PORT).to_network() as u32,
                },
            ),
        }
    }
}

impl Resolve {
    /// The run after the answer.
    pub open spec fn answered(self, route: Option<DummyIpRouteValue>) -> Connect4 {
        match route {
            Some(route) => Connect4::Identify(Identify { connection: self.connection, route }),
            None => Connect4::Count(
                Count { index: STAT_ROUTE_MISSES, after: AfterCount::Exit(Err(REFUSED)) },
            ),
        }
    }

    /// Goes on with the route, or without one.
    pub fn answer(self, route: Option<DummyIpRouteValue>) -> (next: Connect4)
        ensures
            next == self.answered(route),
    {
        match route {
            Some(route) => Connect4::Identify(Identify { connection: self.connection, route }),
            None => Connect4::Count(
                Count { index: STAT_ROUTE_MISSES, after: AfterCount::Exit(Err(REFUSED)) },
            ),
        }
    }
}

impl Identify {
    /// The run after the answer.
    pub open spec fn answered(self, src: Option<IdentityFingerprint>) -> Connect4 {
        match src {
            Some(src) => Connect4::Authorize(
                Authorize {
                    route: self.route,
                    check: checking(
                        src,
                        self.route.dst_fp,
                        self.connection.protocol,
                        self.connection.dst_port,
                    ),
                },
            ),
            None => Connect4::Count(
                Count { index: STAT_DEFAULT_DENY_DROPS, after: AfterCount::Exit(Err(REFUSED)) },
            ),
        }
    }

    /// Goes on with the source identity. A source without one is denied.
    pub fn answer(self, src: Option<IdentityFingerprint>) -> (next: Connect4)
        ensures
            next == self.answered(src),
    {
        match src {
            Some(src) => Connect4::Authorize(
                Authorize {
                    route: self.route,
                    check: check_policy(
                        &src,
                        &self.route.dst_fp,
                        self.connection.protocol,
                        self.connection.dst_port,
                    ),
                },
            ),
            None => Connect4::Count(
                Count { index: STAT_DEFAULT_DENY_DROPS, after: AfterCount::Exit(Err(REFUSED)) },
            ),
        }
    }
}

impl Authorize {
    /// The run after a step of the policy evaluation.
    pub open spec fn answered(self, check: Check) -> Connect4 {
        match check {
            Check::Decided(decision) => if decision == 1 {
                Connect4::Cookie(AwaitCookie { route: self.route })
            } else {
                Connect4::Exit(0)
            },
            _ => Connect4::Authorize(Authorize { route: self.route, check }),
        }
    }

    /// Goes on with the policy evaluation one step further, or with its decision. Any decision
    /// but "allow" refuses the connection.
    pub fn answer(self, check: Check) -> (next: Connect4)
        ensures
            next == self.answered(check),
    {
        match check {
            Check::Decided(decision) => {
                if decision == 1 {
                    Connect4::Cookie(AwaitCookie { route: self.route })
                } else {
                    Connect4::Exit(verdict(Err(REFUSED)))
                }
            },
            _ => Connect4::Authorize(Authorize { route: self.route, check }),
        }
    }
}

/// The step that counts the rewrite.
fn count_rewrite() -> (next: Connect4)
    ensures
        next == Connect4::Count(Count { index: STAT_REWRITES, after: AfterCount::Rewrite }),
{
    Connect4::Count(Count { index: STAT_REWRITES, after: AfterCount::Rewrite })
}

impl AwaitCookie {
    /// The run after the answer.
    pub open spec fn answered(self, cookie: SocketCookie) -> Connect4 {
        if cookie.0 != 0 {
            Connect4::Store(Store { cookie, state: remembered(self.route) })
        } else {
            Connect4::Count(Count { index: STAT_REWRITES, after: AfterCount::Rewrite })
        }
    }

    /// Goes on with the cookie. Without one nothing is remembered, and the connection still
    /// goes to the agent.
    pub fn answer(self, cookie: SocketCookie) -> (next: Connect4)
        ensures
            next == self.answered(cookie),
    {
        if cookie.0 != 0 {
            Connect4::Store(
                Store {
                    cookie,
                    state: SockStateValue {
                        dst_fp: self.route.dst_fp,
                        target_agent_fp: self.route.target_agent_fp,
                    },
                },
            )
        } else {
            count_rewrite()
        }
    }
}

impl Store {
    /// The run after the resolution was remembered, or could not be.
    pub open spec fn stored(self) -> Connect4 {
        Connect4::Count(Count { index: STAT_REWRITES, after: AfterCount::Rewrite })
    }

    /// Goes on once the resolution was remembered, or could not be.
    pub fn done(self) -> (next: Connect4)
        ensures
            next == self.stored(),
    {
        count_rewrite()
    }
}

impl Rewrite {
    /// The run after the destination was overwritten.
    pub open spec fn rewritten(self) -> Connect4 {
        Connect4::Exit(1)
    }

    /// Goes on once the destination was overwritten.
    pub fn done(self) -> (next: Connect4)
        ensures
            next == self.rewritten(),
    {
        Connect4::Exit(verdict(Ok(())))
    }
}

/// Starts the hook for a connection.
pub fn fleetos_connect4(sa: &SockAddr) -> (run: Connect4)
    ensures
        run == started(*sa),
        forall|k: Kernel| #[trigger] run.run(k) == connect4_ops(k, *sa),
{
    let protocol: u8 = #[verifier::truncate] (sa.protocol as u8);
    let port_word: u16 = #[verifier::truncate] (sa.user_port as u16);
    proof {
        let p = sa.protocol;
        let w = sa.user_port;
        assert(p as u8 == p % 0x100) by (bit_vector);
        assert(w as u16 == w % 0x1_0000) by (bit_vector);
    }
    let dst_ip = HostOrderIpv4::from_network(sa.user_ip4);
    let dst_port = HostOrderPort::from_network(port_word);
    let run = if !is_overlay_address(dst_ip) {
        Connect4::Count(Count { index: STAT_PASS_THROUGHS, after: AfterCount::Exit(Ok(())) })
    } else {
        let src_ip = HostOrderIpv4::from_network(sa.msg_src_ip4);
        Connect4::Resolve(Resolve { connection: Connection { src_ip, dst_ip, protocol, dst_port } })
    };
    proof {
        assert forall|k: Kernel| #[trigger] run.run(k) == connect4_ops(k, *sa) by {
            lemma_connect4_runs(k, *sa);
        }
    }
    run
}

/// The first step for a connection.
pub open spec fn started(sa: SockAddr) -> Connect4 {
    let connection = connection_of(sa);
    if in_overlay(connection.dst_ip) {
        Connect4::Resolve(Resolve { connection })
    } else {
        Connect4::Count(Count { index: STAT_PASS_THROUGHS, after: AfterCount::Exit(Ok(())) })
    }
}

/// Once authorized, a run does what `admit_ops` lists.
proof fn lemma_admitted_runs(k: Kernel, route: DummyIpRouteValue)
    ensures
        Connect4::Cookie(AwaitCookie { route }).run(k) == admit_ops(k, route),
{
    reveal_with_fuel(Connect4::run, 6);
    assert(Connect4::Cookie(AwaitCookie { route }).run(k) =~= admit_ops(k, route));
}

/// A run that authorizes does what the policy evaluation does, then acts on the decision.
proof fn lemma_authorize_runs(k: Kernel, route: DummyIpRouteValue, check: Check)
    ensures
        Connect4::Authorize(Authorize { route, check }).run(k) == check.run(k) + if check.result(k)
            == 1 {
            admit_ops(k, route)
        } else {
            seq![Op::Exit(0)]
        },
    decreases check.rank(),
{
    reveal_with_fuel(Connect4::run, 2);
    let run = Connect4::Authorize(Authorize { route, check });
    let tail = if check.result(k) == 1 {
        admit_ops(k, route)
    } else {
        seq![Op::Exit(0)]
    };
    lemma_admitted_runs(k, route);
    if check is Decided {
        assert(run.run(k) =~= check.run(k) + tail);
    } else {
        let next = check.stepped(k);
        lemma_authorize_runs(k, route, next);
        if next is Decided {
            assert(run.stepped(k).run(k) =~= tail);
        }
        assert(run.run(k) =~= check.run(k) + tail);
    }
}

/// Stepping through the hook does what `connect4_ops` lists.
pub proof fn lemma_connect4_runs(k: Kernel, sa: SockAddr)
    ensures
        started(sa).run(k) == connect4_ops(k, sa),
{
    reveal_with_fuel(Connect4::run, 4);
    let c = connection_of(sa);
    if in_overlay(c.dst_ip) && k.routes.get(c.dst_ip) is Some && k.identities.get(
        c.src_ip,
    ) is Some {
        let route = k.routes.get(c.dst_ip)->0;
        let src = k.identities.get(c.src_ip)->0;
        lemma_check_runs(k, src, route.dst_fp, c.protocol, c.dst_port);
        lemma_authorize_runs(k, route, checking(src, route.dst_fp, c.protocol, c.dst_port));
    }
    assert(started(sa).run(k) =~= connect4_ops(k, sa));
}

} // verus!
