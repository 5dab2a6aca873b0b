//! The two packet hooks on a virtual machine's TAP device: what it sends and what it receives.
#[allow(unused_imports)]
use crate::byte_order::{
    be16, be32, law_port_network_order_round_trips, law_wire_address_is_machine_independent,
    law_wire_port_is_machine_independent, native16,
};
use crate::byte_order::{HostOrderIpv4, HostOrderPort};
#[allow(unused_imports)]
use crate::kernel::{Kernel, Op};
use crate::map_types::{
    DummyIpRouteValue, FlowEvent, IdentityFingerprint, STAT_DEFAULT_DENY_DROPS,
    STAT_FRAGMENT_DROPS, STAT_PASS_THROUGHS, STAT_ROUTE_MISSES,
};
use crate::overlay::{is_overlay_address, REFUSED};
#[allow(unused_imports)]
use crate::overlay::in_overlay;
use crate::packet::{
    is_later_fragment, parse_dst_port, EthHdr, Ipv4Hdr, ETHERTYPE_IPV4, ETH_LEN, IP_LEN,
};
#[allow(unused_imports)]
use crate::packet::dst_port_of;
use crate::policy::{check_policy, Check};
#[allow(unused_imports)]
use crate::policy::{checking, decision, lemma_check_runs, policy_ops};
use vstd::prelude::*;

verus! {

/// Return code that lets a packet pass.
pub const TC_ACT_OK: i32 = 0;

/// Return code that drops a packet.
pub const TC_ACT_SHOT: i32 = 2;

/// Value of the boot gate once user space has filled the maps.
pub const GATE_ARMED: u32 = 1;

/// Which of the two hooks runs.
#[derive(Copy, Clone, Debug, PartialEq, Eq, Structural)]
pub enum Direction {
    Ingress,
    Egress,
}

/// A run of a hook that waits for the kernel, or its return code.
#[derive(Copy, Clone, Debug, PartialEq, Eq)]
pub enum Tc {
    Count(Count),
    Gate(Gate),
    Resolve(Resolve),
    Identify(Identify),
    Authorize(Authorize),
    Account(Account),
    Report(Report),
    Exit(i32),
}

/// What a hook needs to know of a packet that enters the overlay.
#[derive(Copy, Clone, Debug, PartialEq, Eq)]
pub struct Flow {
    pub direction: Direction,
    pub src_ip: HostOrderIpv4,
    pub dst_ip: HostOrderIpv4,
    pub protocol: u8,
    pub later_fragment: bool,
    pub dst_port: Result<HostOrderPort, i64>,
    pub len: u32,
}

/// Waits for the statistic with this index to go up.
#[derive(Copy, Clone, Debug, PartialEq, Eq)]
pub struct Count {
    pub index: u32,
    pub after: AfterCount,
}

/// What follows once a statistic went up.
#[derive(Copy, Clone, Debug, PartialEq, Eq)]
pub enum AfterCount {
    Exit(Result<(), i64>),
    Report(FlowEvent),
}

/// Waits for the value of the boot gate.
#[derive(Copy, Clone, Debug, PartialEq, Eq)]
pub struct Gate {
    pub flow: Flow,
}

/// Waits for the route of the destination address.
#[derive(Copy, Clone, Debug, PartialEq, Eq)]
pub struct Resolve {
    pub flow: Flow,
}

/// Waits for the identity behind the source address.
#[derive(Copy, Clone, Debug, PartialEq, Eq)]
pub struct Identify {
    pub flow: Flow,
    pub route: DummyIpRouteValue,
}

/// Waits for the policy evaluation.
#[derive(Copy, Clone, Debug, PartialEq, Eq)]
pub struct Authorize {
    pub flow: Flow,
    pub src: IdentityFingerprint,
    pub dst: IdentityFingerprint,
    pub dst_port: HostOrderPort,
    pub check: Check,
}

/// Waits for a packet of this many bytes to be added to a workload's counters.
#[derive(Copy, Clone, Debug, PartialEq, Eq)]
pub struct Account {
    pub ip: HostOrderIpv4,
    pub tx: bool,
    pub bytes: u32,
    pub event: FlowEvent,
}

/// Waits for a flow event to be pushed.
#[derive(Copy, Clone, Debug, PartialEq, Eq)]
pub struct Report {
    pub event: FlowEvent,
}

/// The identity of a source that has none: all zero.
pub open spec fn unidentified() -> IdentityFingerprint {
    IdentityFingerprint([0, 0, 0, 0, 0, 0, 0, 0, 0, 0, 0, 0, 0, 0, 0, 0])
}

/// Whether a packet is long enough for an Ethernet and an IPv4 header.
pub open spec fn is_framed(packet: Seq<u8>) -> bool {
    packet.len() >= ETH_LEN + IP_LEN
}

/// Whether a framed packet carries IPv4.
pub open spec fn is_ipv4(packet: Seq<u8>) -> bool {
    be16(packet[12], packet[13]) == ETHERTYPE_IPV4
}

/// Source address of an IPv4 packet.
pub open spec fn src_ip_of(packet: Seq<u8>) -> HostOrderIpv4 {
    HostOrderIpv4(be32(packet[26], packet[27], packet[28], packet[29]))
}

/// Destination address of an IPv4 packet.
pub open spec fn dst_ip_of(packet: Seq<u8>) -> HostOrderIpv4 {
    HostOrderIpv4(be32(packet[30], packet[31], packet[32], packet[33]))
}

/// What the hook needs to know of an IPv4 packet.
pub open spec fn flow_of(direction: Direction, packet: Seq<u8>, len: u32) -> Flow {
    Flow {
        direction,
        src_ip: src_ip_of(packet),
        dst_ip: dst_ip_of(packet),
        protocol: packet[23],
        later_fragment: be16(packet[20], packet[21]) % 0x2000 != 0,
        dst_port: dst_port_of(Ipv4Hdr::at(packet, ETH_LEN as int), packet, ETH_LEN as int),
        len,
    }
}

/// The identity that an event names as the source of a packet.
pub open spec fn source_of(k: Kernel, flow: Flow) -> IdentityFingerprint {
    match k.identities.get(flow.src_ip) {
        Some(src) => src,
        None => unidentified(),
    }
}

/// The decision on a packet to a workload's port: that of policy, and deny where the source has no
/// identity that policy could speak for.
pub open spec fn flow_decision(
    k: Kernel,
    flow: Flow,
    dst: IdentityFingerprint,
    port: HostOrderPort,
) -> u8 {
    match k.identities.get(flow.src_ip) {
        Some(src) => decision(k, src, dst, flow.protocol, port),
        None => 0,
    }
}

/// All that a hook does to come to that decision, in order.
pub open spec fn decide_ops(
    k: Kernel,
    flow: Flow,
    dst: IdentityFingerprint,
    port: HostOrderPort,
) -> Seq<Op> {
    match k.identities.get(flow.src_ip) {
        Some(src) => policy_ops(k, src, dst, flow.protocol, port),
        None => seq![Op::Bump(STAT_DEFAULT_DENY_DROPS)],
    }
}

/// How an event tells of a direction.
pub open spec fn direction_of(direction: Direction) -> u8 {
    match direction {
        Direction::Ingress => 0,
        Direction::Egress => 1,
    }
}

/// The event that tells of a decision, with its padding zero.
pub open spec fn event_of(
    direction: Direction,
    src: IdentityFingerprint,
    dst: IdentityFingerprint,
    port: HostOrderPort,
    decision: u8,
) -> FlowEvent {
    FlowEvent {
        src_hash: src,
        dst_hash: dst,
        port,
        action: decision,
        direction: direction_of(direction),
        _pad: [0, 0, 0, 0],
    }
}

/// The accounting of a packet: to its sender on the way out, to its receiver on the way in.
pub open spec fn account_op(flow: Flow) -> Op {
    Op::Account {
        ip: if flow.direction is Egress {
            flow.src_ip
        } else {
            flow.dst_ip
        },
        tx: flow.direction is Egress,
        bytes: flow.len,
    }
}

/// All that a hook does once it has decided, in order.
pub open spec fn report_ops(
    flow: Flow,
    src: IdentityFingerprint,
    dst: IdentityFingerprint,
    port: HostOrderPort,
    decision: u8,
) -> Seq<Op> {
    let event = Op::Event(event_of(flow.direction, src, dst, port, decision));
    if decision == 1 {
        seq![account_op(flow), event, Op::Exit(TC_ACT_OK as int)]
    } else {
        seq![event, Op::Exit(TC_ACT_SHOT as int)]
    }
}

/// All that a hook does with a packet that may enter the overlay, in order.
pub open spec fn evaluate_ops(k: Kernel, flow: Flow) -> Seq<Op> {
    if flow.later_fragment {
        seq![Op::Bump(STAT_FRAGMENT_DROPS), Op::Exit(TC_ACT_SHOT as int)]
    } else {
        match k.routes.get(flow.dst_ip) {
            None => seq![
                Op::Route(flow.dst_ip),
                Op::Bump(STAT_ROUTE_MISSES),
                Op::Exit(TC_ACT_SHOT as int),
            ],
            Some(route) => seq![Op::Route(flow.dst_ip), Op::Identity(flow.src_ip)]
                + match flow.dst_port {
                Err(_) => seq![Op::Exit(TC_ACT_SHOT as int)],
                Ok(port) => decide_ops(k, flow, route.dst_fp, port) + report_ops(
                    flow,
                    source_of(k, flow),
                    route.dst_fp,
                    port,
                    flow_decision(k, flow, route.dst_fp, port),
                ),
            },
        }
    }
}

/// All that a hook does with a packet that is addressed to the overlay, in order. What is
/// received has to find the boot gate armed.
pub open spec fn overlay_ops(k: Kernel, flow: Flow) -> Seq<Op> {
    match flow.direction {
        Direction::Egress => evaluate_ops(k, flow),
        Direction::Ingress => seq![Op::Gate] + if k.gate == Some(GATE_ARMED) {
            evaluate_ops(k, flow)
        } else {
            seq![Op::Exit(TC_ACT_SHOT as int)]
        },
    }
}

/// All that a hook does with a packet, in order.
pub open spec fn tc_ops(k: Kernel, direction: Direction, packet: Seq<u8>, len: u32) -> Seq<Op> {
    if !is_framed(packet) {
        seq![Op::Exit(TC_ACT_SHOT as int)]
    } else if !is_ipv4(packet) {
        seq![Op::Exit(TC_ACT_OK as int)]
    } else if !in_overlay(dst_ip_of(packet)) {
        seq![Op::Bump(STAT_PASS_THROUGHS), Op::Exit(TC_ACT_OK as int)]
    } else {
        overlay_ops(k, flow_of(direction, packet, len))
    }
}

/// The return code of an outcome.
pub open spec fn verdict_of(outcome: Result<(), i64>) -> i32 {
    if outcome is Ok {
        TC_ACT_OK
    } else {
        TC_ACT_SHOT
    }
}

/// The first step once a packet may enter the overlay.
pub open spec fn evaluating(flow: Flow) -> Tc {
    if flow.later_fragment {
        Tc::Count(Count { index: STAT_FRAGMENT_DROPS, after: AfterCount::Exit(Err(REFUSED)) })
    } else {
        Tc::Resolve(Resolve { flow })
    }
}

/// The first step for a packet.
pub open spec fn started(direction: Direction, packet: Seq<u8>, len: u32) -> Tc {
    let flow = flow_of(direction, packet, len);
    if !is_framed(packet) {
        Tc::Exit(TC_ACT_SHOT)
    } else if !is_ipv4(packet) {
        Tc::Exit(TC_ACT_OK)
    } else if !in_overlay(dst_ip_of(packet)) {
        Tc::Count(Count { index: STAT_PASS_THROUGHS, after: AfterCount::Exit(Ok(())) })
    } else if direction is Ingress {
        Tc::Gate(Gate { flow })
    } else {
        evaluating(flow)
    }
}

impl Tc {
    /// The operation that the run waits for.
    pub open spec fn op(self) -> Op {
        match self {
            Tc::Count(s) => Op::Bump(s.index),
            Tc::Gate(_) => Op::Gate,
            Tc::Resolve(s) => Op::Route(s.flow.dst_ip),
            Tc::Identify(s) => Op::Identity(s.flow.src_ip),
            Tc::Authorize(s) => s.check.op(),
            Tc::Account(s) => Op::Account { ip: s.ip, tx: s.tx, bytes: s.bytes },
            Tc::Report(s) => Op::Event(s.event),
            Tc::Exit(code) => Op::Exit(code as int),
        }
    }

    /// The run after the kernel performed that operation.
    pub open spec fn stepped(self, k: Kernel) -> Tc {
        match self {
            Tc::Count(s) => s.counted(),
            Tc::Gate(s) => s.answered(k.gate),
            Tc::Resolve(s) => s.answered(k.routes.get(s.flow.dst_ip)),
            Tc::Identify(s) => s.answered(k.identities.get(s.flow.src_ip)),
            Tc::Authorize(s) => s.answered(s.check.stepped(k)),
            Tc::Account(s) => s.accounted(),
            Tc::Report(s) => s.reported(),
            Tc::Exit(_) => self,
        }
    }

    /// A bound on the number of steps that are left.
    pub open spec fn rank(self) -> nat {
        match self {
            Tc::Gate(_) => 13,
            Tc::Resolve(_) => 12,
            Tc::Identify(_) => 11,
            Tc::Authorize(s) => 3 + s.check.rank(),
            Tc::Account(_) => 2,
            Tc::Report(_) => 1,
            Tc::Count(s) => if s.after is Report {
                2
            } else {
                1
            },
            Tc::Exit(_) => 0,
        }
    }

    /// All that is still to be done, in order, if the kernel answers as `k` does. A policy
    /// evaluation that has come to its decision is nothing to be done.
    pub open spec fn run(self, k: Kernel) -> Seq<Op>
        decreases self.rank(),
    {
        match self {
            Tc::Exit(code) => seq![Op::Exit(code as int)],
            Tc::Authorize(Authorize { check: Check::Decided(_), .. }) => self.stepped(k).run(k),
            _ => seq![self.op()] + self.stepped(k).run(k),
        }
    }
}

/// The return code of an outcome.
fn verdict(outcome: Result<(), i64>) -> (code: i32)
    ensures
        code == verdict_of(outcome),
{
    match outcome {
        Ok(()) => TC_ACT_OK,
        Err(_) => TC_ACT_SHOT,
    }
}

/// Goes on with a packet that may enter the overlay.
fn evaluate(flow: Flow) -> (next: Tc)
    ensures
        next == evaluating(flow),
{
    if flow.later_fragment {
        Tc::Count(Count { index: STAT_FRAGMENT_DROPS, after: AfterCount::Exit(Err(REFUSED)) })
    } else {
        Tc::Resolve(Resolve { flow })
    }
}

/// How an event tells of a direction.
fn direction_code(direction: Direction) -> (code: u8)
    ensures
        code == direction_of(direction),
{
    match direction {
        Direction::Ingress => 0,
        Direction::Egress => 1,
    }
}

/// The flow event to push for a decision.
pub fn push_flow_event(
    src: &IdentityFingerprint,
    dst: &IdentityFingerprint,
    port: HostOrderPort,
    action: u8,
    direction: u8,
) -> (event: FlowEvent)
    ensures
        event == (FlowEvent {
            src_hash: *src,
            dst_hash: *dst,
            port,
            action,
            direction,
            _pad: [0, 0, 0, 0],
        }),
{
    FlowEvent { src_hash: *src, dst_hash: *dst, port, action, direction, _pad: [0, 0, 0, 0] }
}

impl Count {
    /// The run after the statistic went up.
    pub open spec fn counted(self) -> Tc {
        match self.after {
            AfterCount::Exit(outcome) => Tc::Exit(verdict_of(outcome)),
            AfterCount::Report(event) => Tc::Report(Report { event }),
        }
    }

    /// Goes on once the statistic went up.
    pub fn done(self) -> (next: Tc)
        ensures
            next == self.counted(),
    {
        match self.after {
            AfterCount::Exit(outcome) => Tc::Exit(verdict(outcome)),
            AfterCount::Report(event) => Tc::Report(Report { event }),
        }
    }
}

impl Gate {
    /// The run after the answer.
    pub open spec fn answered(self, gate: Option<u32>) -> Tc {
        if gate == Some(GATE_ARMED) {
            evaluating(self.flow)
        } else {
            Tc::Exit(TC_ACT_SHOT)
        }
    }

    /// Goes on with the value of the boot gate. Unless it is armed, the packet is dropped.
    pub fn answer(self, gate: Option<u32>) -> (next: Tc)
        ensures
            next == self.answered(gate),
    {
        match gate {
            Some(value) => {
                if value == GATE_ARMED {
                    evaluate(self.flow)
                } else {
                    Tc::Exit(verdict(Err(REFUSED)))
                }
            },
            None => Tc::Exit(verdict(Err(REFUSED))),
        }
    }
}

impl Resolve {
    /// The run after the answer.
    pub open spec fn answered(self, route: Option<DummyIpRouteValue>) -> Tc {
        match route {
            Some(route) => Tc::Identify(Identify { flow: self.flow, route }),
            None => Tc::Count(
                Count { index: STAT_ROUTE_MISSES, after: AfterCount::Exit(Err(REFUSED)) },
            ),
        }
    }

    /// Goes on with the route, or without one.
    pub fn answer(self, route: Option<DummyIpRouteValue>) -> (next: Tc)
        ensures
            next == self.answered(route),
    {
        match route {
            Some(route) => Tc::Identify(Identify { flow: self.flow, route }),
            None => Tc::Count(
                Count { index: STAT_ROUTE_MISSES, after: AfterCount::Exit(Err(REFUSED)) },
            ),
        }
    }
}

impl Identify {
    /// The run after the answer.
    pub open spec fn answered(self, src: Option<IdentityFingerprint>) -> Tc {
        match self.flow.dst_port {
            Err(_) => Tc::Exit(TC_ACT_SHOT),
            Ok(dst_port) => match src {
                Some(src) => Tc::Authorize(
                    Authorize {
                        flow: self.flow,
                        src,
                        dst: self.route.dst_fp,
                        dst_port,
                        check: checking(src, self.route.dst_fp, self.flow.protocol, dst_port),
                    },
                ),
                None => Tc::Count(
                    Count {
                        index: STAT_DEFAULT_DENY_DROPS,
                        after: AfterCount::Report(
                            event_of(
                                self.flow.direction,
                                unidentified(),
                                self.route.dst_fp,
                                dst_port,
                                0,
                            ),
                        ),
                    },
                ),
            },
        }
    }

    /// Goes on with the source identity. A source without one is denied by default, whatever the
    /// rules say, and reported as all zero.
    pub fn answer(self, src: Option<IdentityFingerprint>) -> (next: Tc)
        ensures
            next == self.answered(src),
    {
        match self.flow.dst_port {
            Err(error) => Tc::Exit(verdict(Err(error))),
            Ok(dst_port) => match src {
                Some(src) => Tc::Authorize(
                    Authorize {
                        flow: self.flow,
                        src,
                        dst: self.route.dst_fp,
                        dst_port,
                        check: check_policy(&src, &self.route.dst_fp, self.flow.protocol, dst_port),
                    },
                ),
                None => {
                    let nobody = IdentityFingerprint(
                        [0, 0, 0, 0, 0, 0, 0, 0, 0, 0, 0, 0, 0, 0, 0, 0],
                    );
                    let event = push_flow_event(
                        &nobody,
                        &self.route.dst_fp,
                        dst_port,
                        0,
                        direction_code(self.flow.direction),
                    );
                    Tc::Count(
                        Count {
                            index: STAT_DEFAULT_DENY_DROPS,
                            after: AfterCount::Report(event),
                        },
                    )
                },
            },
        }
    }
}

impl Authorize {
    /// The run after a step of the policy evaluation.
    pub open spec fn answered(self, check: Check) -> Tc {
        match check {
            Check::Decided(decision) => {
                let event = event_of(
                    self.flow.direction,
                    self.src,
                    self.dst,
                    self.dst_port,
                    decision,
                );
                if decision == 1 {
                    Tc::Account(
                        Account {
                            ip: if self.flow.direction is Egress {
                                self.flow.src_ip
                            } else {
                                self.flow.dst_ip
                            },
                            tx: self.flow.direction is Egress,
                            bytes: self.flow.len,
                            event,
                        },
                    )
                } else {
                    Tc::Report(Report { event })
                }
            },
            _ => Tc::Authorize(Authorize { check, ..self }),
        }
    }

    /// Goes on with the policy evaluation one step further, or with its decision.
    pub fn answer(self, check: Check) -> (next: Tc)
        ensures
            next == self.answered(check),
    {
        match check {
            Check::Decided(decision) => {
                let (ip, tx): (HostOrderIpv4, bool) = match self.flow.direction {
                    Direction::Egress => (self.flow.src_ip, true),
                    Direction::Ingress => (self.flow.dst_ip, false),
                };
                let event = push_flow_event(
                    &self.src,
                    &self.dst,
                    self.dst_port,
                    decision,
                    direction_code(self.flow.direction),
                );
                if decision == 1 {
                    Tc::Account(Account { ip, tx, bytes: self.flow.len, event })
                } else {
                    Tc::Report(Report { event })
                }
            },
            _ => Tc::Authorize(
                Authorize {
                    flow: self.flow,
                    src: self.src,
                    dst: self.dst,
                    dst_port: self.dst_port,
                    check,
                },
            ),
        }
    }
}

impl Account {
    /// The run after the packet was accounted for, or its workload has no counters.
    pub open spec fn accounted(self) -> Tc {
        Tc::Report(Report { event: self.event })
    }

    /// Goes on once the packet was accounted for, or its workload has no counters.
    pub fn done(self) -> (next: Tc)
        ensures
            next == self.accounted(),
    {
        Tc::Report(Report { event: self.event })
    }
}

impl Report {
    /// The run after the event was pushed, or found no room.
    pub open spec fn reported(self) -> Tc {
        if self.event.action == 1 {
            Tc::Exit(TC_ACT_OK)
        } else {
            Tc::Exit(TC_ACT_SHOT)
        }
    }

    /// Goes on once the event was pushed, or found no room.
    pub fn done(self) -> (next: Tc)
        ensures
            next == self.reported(),
    {
        if self.event.action == 1 {
            Tc::Exit(verdict(Ok(())))
        } else {
            Tc::Exit(verdict(Err(REFUSED)))
        }
    }
}

/// Starts a hook for a packet. `packet` is the linear data of the buffer, `len` the length of
/// the whole packet.
fn start(direction: Direction, packet: &[u8], len: u32) -> (run: Tc)
    ensures
        run == started(direction, packet@, len),
{
    if packet.len() < ETH_LEN + IP_LEN {
        return Tc::Exit(verdict(Err(REFUSED)));
    }
    let eth = EthHdr::read(packet);
    proof {
        let (b0, b1) = (packet@[12], packet@[13]);
        law_wire_port_is_machine_independent(b0, b1);
        law_port_network_order_round_trips(native16(b0, b1));
        law_port_network_order_round_trips(ETHERTYPE_IPV4);
    }
    if eth.h_proto != ETHERTYPE_IPV4.to_be() {
        return Tc::Exit(verdict(Ok(())));
    }
    let ip = Ipv4Hdr::read(packet, ETH_LEN);
    let src_ip = HostOrderIpv4::from_network(ip.saddr);
    let dst_ip = HostOrderIpv4::from_network(ip.daddr);
    proof {
        let p = packet@;
        assert(ip.saddr == crate::byte_order::native32(p[26], p[27], p[28], p[29]));
        assert(ip.daddr == crate::byte_order::native32(p[30], p[31], p[32], p[33]));
        law_wire_address_is_machine_independent(p[26], p[27], p[28], p[29]);
        law_wire_address_is_machine_independent(p[30], p[31], p[32], p[33]);
        law_wire_port_is_machine_independent(p[20], p[21]);
    }
    if !is_overlay_address(dst_ip) {
        return Tc::Count(Count { index: STAT_PASS_THROUGHS, after: AfterCount::Exit(Ok(())) });
    }
    let flow = Flow {
        direction,
        src_ip,
        dst_ip,
        protocol: ip.protocol,
        later_fragment: is_later_fragment(&ip),
        dst_port: parse_dst_port(&ip, packet, ETH_LEN),
        len,
    };
    match direction {
        Direction::Ingress => Tc::Gate(Gate { flow }),
        Direction::Egress => evaluate(flow),
    }
}

/// Starts the hook for a packet that a virtual machine sends. `packet` is the linear data of
/// the buffer, `len` the length of the whole packet.
pub fn fleetos_tc_egress(packet: &[u8], len: u32) -> (run: Tc)
    ensures
        run == started(Direction::Egress, packet@, len),
        forall|k: Kernel| #[trigger] run.run(k) == tc_ops(k, Direction::Egress, packet@, len),
{
    let run = start(Direction::Egress, packet, len);
    proof {
        assert forall|k: Kernel| #[trigger]
            run.run(k) == tc_ops(k, Direction::Egress, packet@, len) by {
            lemma_tc_runs(k, Direction::Egress, packet@, len);
        }
    }
    run
}

/// Starts the hook for a packet that a virtual machine receives. `packet` is the linear data
/// of the buffer, `len` the length of the whole packet.
pub fn fleetos_tc_ingress(packet: &[u8], len: u32) -> (run: Tc)
    ensures
        run == started(Direction::Ingress, packet@, len),
        forall|k: Kernel| #[trigger] run.run(k) == tc_ops(k, Direction::Ingress, packet@, len),
{
    let run = start(Direction::Ingress, packet, len);
    proof {
        assert forall|k: Kernel| #[trigger]
            run.run(k) == tc_ops(k, Direction::Ingress, packet@, len) by {
            lemma_tc_runs(k, Direction::Ingress, packet@, len);
        }
    }
    run
}

/// A run that authorizes does what the policy evaluation does, then acts on the decision.
proof fn lemma_authorize_runs(k: Kernel, s: Authorize)
    ensures
        Tc::Authorize(s).run(k) == s.check.run(k) + report_ops(
            s.flow,
            s.src,
            s.dst,
            s.dst_port,
            s.check.result(k),
        ),
    decreases s.check.rank(),
{
    reveal_with_fuel(Tc::run, 4);
    let run = Tc::Authorize(s);
    let tail = report_ops(s.flow, s.src, s.dst, s.dst_port, s.check.result(k));
    if s.check is Decided {
        assert(run.run(k) =~= s.check.run(k) + tail);
    } else {
        let next = s.check.stepped(k);
        lemma_authorize_runs(k, Authorize { check: next, ..s });
        if next is Decided {
            assert(run.stepped(k).run(k) =~= tail);
        }
        assert(run.run(k) =~= s.check.run(k) + tail);
    }
}

/// Stepping through the evaluation of a packet does what `evaluate_ops` lists.
proof fn lemma_evaluate_runs(k: Kernel, flow: Flow)
    ensures
        evaluating(flow).run(k) == evaluate_ops(k, flow),
{
    reveal_with_fuel(Tc::run, 5);
    if !flow.later_fragment && k.routes.get(flow.dst_ip) is Some && flow.dst_port is Ok
        && k.identities.get(flow.src_ip) is Some {
        let src = k.identities.get(flow.src_ip)->0;
        let dst = (k.routes.get(flow.dst_ip)->0).dst_fp;
        let dst_port = flow.dst_port->Ok_0;
        let check = checking(src, dst, flow.protocol, dst_port);
        lemma_check_runs(k, src, dst, flow.protocol, dst_port);
        lemma_authorize_runs(k, Authorize { flow, src, dst, dst_port, check });
    }
    assert(evaluating(flow).run(k) =~= evaluate_ops(k, flow));
}

/// Stepping through a hook does what `tc_ops` lists.
pub proof fn lemma_tc_runs(k: Kernel, direction: Direction, packet: Seq<u8>, len: u32)
    ensures
        started(direction, packet, len).run(k) == tc_ops(k, direction, packet, len),
{
    reveal_with_fuel(Tc::run, 2);
    lemma_evaluate_runs(k, flow_of(direction, packet, len));
    assert(started(direction, packet, len).run(k) =~= tc_ops(k, direction, packet, len));
}

} // verus!
