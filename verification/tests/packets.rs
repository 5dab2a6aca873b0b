//! Header parsing and the two packet hooks, driven against maps in memory.

use fleetos_ebpf::connect4::{Connect4, SockAddr};
use fleetos_ebpf::map_types::{
    STAT_ALLOW_HITS, STAT_DEFAULT_DENY_DROPS, STAT_DENY_HITS, STAT_FRAGMENT_DROPS,
    STAT_PASS_THROUGHS, STAT_ROUTE_MISSES, STAT_WILDCARD_HITS,
};
use fleetos_ebpf::packet::{parse_dst_port, EthHdr, Ipv4Hdr};
use fleetos_ebpf::policy::Check;
use fleetos_ebpf::tc::{push_flow_event, Tc};
use fleetos_ebpf::{
    fleetos_connect4, fleetos_tc_egress, fleetos_tc_ingress, DummyIpRouteValue, EbpfPolicyKey,
    EbpfPolicyValue, EbpfPolicyWildcardKey, FlowEvent, HostOrderIpv4, HostOrderPort,
    IdentityFingerprint, SocketCookie,
};

const SRC: IdentityFingerprint = IdentityFingerprint([1; 16]);
const DST: IdentityFingerprint = IdentityFingerprint([2; 16]);
const NOBODY: IdentityFingerprint = IdentityFingerprint([0; 16]);
const SRC_IP: HostOrderIpv4 = HostOrderIpv4(0xf000_0005);
const DST_IP: HostOrderIpv4 = HostOrderIpv4(0xf000_000a);

struct Node {
    routes: Vec<(HostOrderIpv4, DummyIpRouteValue)>,
    identities: Vec<(HostOrderIpv4, IdentityFingerprint)>,
    exact: Vec<(EbpfPolicyKey, EbpfPolicyValue)>,
    wildcard: Vec<(EbpfPolicyWildcardKey, EbpfPolicyValue)>,
    gate: Option<u32>,
    stats: Vec<u32>,
    accounted: Vec<(HostOrderIpv4, bool, u32)>,
    events: Vec<FlowEvent>,
    policy_lookups: u32,
}

fn node() -> Node {
    Node {
        routes: vec![(
            DST_IP,
            DummyIpRouteValue {
                dst_fp: DST,
                target_agent_fp: IdentityFingerprint([3; 16]),
                sag_version: 1,
            },
        )],
        identities: vec![(SRC_IP, SRC)],
        exact: vec![],
        wildcard: vec![],
        gate: Some(1),
        stats: vec![],
        accounted: vec![],
        events: vec![],
        policy_lookups: 0,
    }
}

fn lookup<K: PartialEq, V: Copy>(entries: &[(K, V)], key: &K) -> Option<V> {
    entries.iter().find(|e| e.0 == *key).map(|e| e.1)
}

impl Node {
    /// Performs one step of a policy evaluation.
    fn policy(&mut self, check: Check) -> Check {
        match check {
            Check::Exact(e) => {
                self.policy_lookups += 1;
                e.answer(lookup(&self.exact, &e.key))
            }
            Check::Wildcard(w) => {
                self.policy_lookups += 1;
                w.answer(lookup(&self.wildcard, &w.key))
            }
            Check::Count(c) => {
                self.stats.push(c.index);
                c.done()
            }
            Check::Decided(_) => check,
        }
    }

    /// The connect hook's answer to a connection from 240.0.0.5 to 240.0.0.10, port 443.
    fn connect(&mut self) -> i32 {
        let mut run = fleetos_connect4(&SockAddr {
            user_ip4: u32::from_ne_bytes([240, 0, 0, 10]),
            user_port: u16::from_ne_bytes([0x01, 0xbb]) as u32,
            msg_src_ip4: u32::from_ne_bytes([240, 0, 0, 5]),
            protocol: 6,
        });
        loop {
            run = match run {
                Connect4::Count(s) => s.done(),
                Connect4::Resolve(s) => s.answer(lookup(&self.routes, &s.connection.dst_ip)),
                Connect4::Identify(s) => s.answer(lookup(&self.identities, &s.connection.src_ip)),
                Connect4::Authorize(s) => {
                    let next = self.policy(s.check);
                    s.answer(next)
                }
                Connect4::Cookie(s) => s.answer(SocketCookie(0)),
                Connect4::Store(s) => s.done(),
                Connect4::Rewrite(s) => s.done(),
                Connect4::Exit(code) => return code,
            };
        }
    }

    fn drive(&mut self, start: Tc) -> i32 {
        let mut run = start;
        loop {
            run = match run {
                Tc::Count(s) => {
                    self.stats.push(s.index);
                    s.done()
                }
                Tc::Gate(s) => s.answer(self.gate),
                Tc::Resolve(s) => s.answer(lookup(&self.routes, &s.flow.dst_ip)),
                Tc::Identify(s) => s.answer(lookup(&self.identities, &s.flow.src_ip)),
                Tc::Authorize(s) => {
                    let next = self.policy(s.check);
                    s.answer(next)
                }
                Tc::Account(s) => {
                    self.accounted.push((s.ip, s.tx, s.bytes));
                    s.done()
                }
                Tc::Report(s) => {
                    self.events.push(s.event);
                    s.done()
                }
                Tc::Exit(code) => return code,
            };
        }
    }

    fn egress(&mut self, packet: &[u8]) -> i32 {
        self.drive(fleetos_tc_egress(packet, 1400))
    }

    fn ingress(&mut self, packet: &[u8]) -> i32 {
        self.drive(fleetos_tc_ingress(packet, 1400))
    }

    fn allow(mut self, src: IdentityFingerprint, protocol: u8, port: u16, decision: u8) -> Self {
        self.exact.push((
            EbpfPolicyKey {
                src_fingerprint: src,
                dst_fingerprint: DST,
                protocol,
                _pad: [0; 3],
                dst_port: HostOrderPort(port),
                _pad2: [0; 2],
            },
            rule(decision),
        ));
        self
    }

    fn allow_any(mut self, decision: u8) -> Self {
        self.wildcard.push((
            EbpfPolicyWildcardKey {
                src_fingerprint: SRC,
                dst_fingerprint: DST,
            },
            rule(decision),
        ));
        self
    }
}

fn rule(decision: u8) -> EbpfPolicyValue {
    EbpfPolicyValue {
        sag_version: 1,
        decision,
        _pad: [0; 7],
    }
}

/// A TCP packet from 240.0.0.5 to 240.0.0.10, port 443.
fn tcp() -> Vec<u8> {
    let mut p = vec![0u8; 54];
    p[12] = 0x08;
    p[14] = 0x45;
    p[23] = 6;
    p[26..30].copy_from_slice(&[240, 0, 0, 5]);
    p[30..34].copy_from_slice(&[240, 0, 0, 10]);
    p[34..36].copy_from_slice(&[0x9c, 0x40]);
    p[36..38].copy_from_slice(&[0x01, 0xbb]);
    p
}

fn event(src: IdentityFingerprint, port: u16, action: u8, direction: u8) -> FlowEvent {
    FlowEvent {
        src_hash: src,
        dst_hash: DST,
        port: HostOrderPort(port),
        action,
        direction,
        _pad: [0; 4],
    }
}

#[test]
fn ethernet_header_is_read() {
    let mut p = tcp();
    for (i, byte) in p.iter_mut().take(12).enumerate() {
        *byte = i as u8 + 1;
    }
    let eth = EthHdr::read(&p);
    assert_eq!(eth.h_dest, [1, 2, 3, 4, 5, 6]);
    assert_eq!(eth.h_source, [7, 8, 9, 10, 11, 12]);
    assert_eq!(eth.h_proto, 0x0800u16.to_be());
}

#[test]
fn ipv4_header_is_read() {
    let p: Vec<u8> = (0u8..40).collect();
    let ip = Ipv4Hdr::read(&p, 14);
    assert_eq!(
        ip,
        Ipv4Hdr {
            ihl_version: 14,
            tos: 15,
            tot_len: u16::from_ne_bytes([16, 17]),
            id: u16::from_ne_bytes([18, 19]),
            frag_off: u16::from_ne_bytes([20, 21]),
            ttl: 22,
            protocol: 23,
            saddr: u32::from_ne_bytes([26, 27, 28, 29]),
            daddr: u32::from_ne_bytes([30, 31, 32, 33]),
        }
    );
}

#[test]
fn port_follows_header_and_options() {
    let mut p = tcp();
    assert_eq!(
        parse_dst_port(&Ipv4Hdr::read(&p, 14), &p, 14),
        Ok(HostOrderPort(443))
    );
    p[14] = 0x47; // two words of options
    p[44..46].copy_from_slice(&[0x1f, 0x90]);
    assert_eq!(
        parse_dst_port(&Ipv4Hdr::read(&p, 14), &p, 14),
        Ok(HostOrderPort(8080))
    );
}

#[test]
fn short_header_length_is_refused() {
    let mut p = tcp();
    p[14] = 0x44;
    assert_eq!(parse_dst_port(&Ipv4Hdr::read(&p, 14), &p, 14), Err(-1));
    p[23] = 1;
    assert_eq!(parse_dst_port(&Ipv4Hdr::read(&p, 14), &p, 14), Err(-1));
}

#[test]
fn truncated_transport_header_is_refused() {
    let p = tcp();
    let ip = Ipv4Hdr::read(&p, 14);
    assert_eq!(parse_dst_port(&ip, &p[..37], 14), Err(-1));
    assert_eq!(parse_dst_port(&ip, &p[..38], 14), Ok(HostOrderPort(443)));
    assert_eq!(parse_dst_port(&ip, &p[..38], usize::MAX), Err(-1));
}

#[test]
fn protocols_without_ports_have_port_zero() {
    let mut p = tcp();
    p[23] = 1;
    assert_eq!(
        parse_dst_port(&Ipv4Hdr::read(&p, 14), &p[..34], 14),
        Ok(HostOrderPort(0))
    );
    p[23] = 17;
    assert_eq!(
        parse_dst_port(&Ipv4Hdr::read(&p, 14), &p, 14),
        Ok(HostOrderPort(443))
    );
}

#[test]
fn flow_event_has_zero_padding() {
    assert_eq!(
        push_flow_event(&SRC, &DST, HostOrderPort(53), 1, 0),
        event(SRC, 53, 1, 0)
    );
}

#[test]
fn short_frames_are_dropped() {
    let mut n = node().allow(SRC, 6, 443, 1);
    assert_eq!(n.egress(&tcp()[..33]), 2);
    assert_eq!(n.ingress(&[]), 2);
    assert!(n.stats.is_empty());
}

#[test]
fn other_ethertypes_pass_uncounted() {
    let mut p = tcp();
    p[13] = 0x06;
    let mut n = node();
    assert_eq!(n.egress(&p), 0);
    assert_eq!(n.ingress(&p), 0);
    assert!(n.stats.is_empty() && n.events.is_empty());
}

#[test]
fn other_destinations_pass_untouched() {
    let mut p = tcp();
    p[30] = 10;
    let mut n = node();
    n.gate = None;
    assert_eq!(n.egress(&p), 0);
    assert_eq!(n.ingress(&p), 0);
    assert_eq!(n.stats, [STAT_PASS_THROUGHS, STAT_PASS_THROUGHS]);
    assert!(n.events.is_empty() && n.accounted.is_empty());
}

#[test]
fn boot_gate_holds_ingress_only() {
    for gate in [None, Some(0), Some(2)] {
        let mut n = node().allow(SRC, 6, 443, 1);
        n.gate = gate;
        assert_eq!(n.ingress(&tcp()), 2);
        assert!(n.stats.is_empty() && n.events.is_empty());
        assert_eq!(n.egress(&tcp()), 0);
    }
}

#[test]
fn later_fragments_are_dropped_and_counted() {
    let mut p = tcp();
    p[21] = 1;
    let mut n = node().allow(SRC, 6, 443, 1);
    assert_eq!(n.egress(&p), 2);
    assert_eq!(n.ingress(&p), 2);
    assert_eq!(n.stats, [STAT_FRAGMENT_DROPS, STAT_FRAGMENT_DROPS]);
    assert_eq!(n.policy_lookups, 0);
    n.gate = None;
    assert_eq!(n.ingress(&p), 2);
    assert_eq!(n.stats.len(), 2);
}

#[test]
fn first_fragments_are_evaluated() {
    let mut p = tcp();
    p[20] = 0xe0; // flags only, offset zero
    let mut n = node().allow(SRC, 6, 443, 1);
    assert_eq!(n.egress(&p), 0);
}

#[test]
fn packet_without_route_is_dropped() {
    let mut n = node().allow(SRC, 6, 443, 1);
    n.routes.clear();
    assert_eq!(n.egress(&tcp()), 2);
    assert_eq!(n.stats, [STAT_ROUTE_MISSES]);
    assert!(n.events.is_empty());
}

#[test]
fn malformed_overlay_packets_are_dropped_unreported() {
    let mut n = node().allow_any(1);
    let mut p = tcp();
    p[14] = 0x41;
    assert_eq!(n.egress(&p), 2);
    assert_eq!(n.ingress(&tcp()[..36]), 2);
    assert!(n.stats.is_empty() && n.events.is_empty());
    assert_eq!(n.policy_lookups, 0);
}

#[test]
fn allowed_egress_is_accounted_to_the_sender() {
    let mut n = node().allow(SRC, 6, 443, 1);
    assert_eq!(n.egress(&tcp()), 0);
    assert_eq!(n.stats, [STAT_ALLOW_HITS]);
    assert_eq!(n.accounted, [(SRC_IP, true, 1400)]);
    assert_eq!(n.events, [event(SRC, 443, 1, 1)]);
}

#[test]
fn allowed_ingress_is_accounted_to_the_receiver() {
    let mut n = node().allow_any(1);
    assert_eq!(n.ingress(&tcp()), 0);
    assert_eq!(n.stats, [STAT_WILDCARD_HITS, STAT_ALLOW_HITS]);
    assert_eq!(n.accounted, [(DST_IP, false, 1400)]);
    assert_eq!(n.events, [event(SRC, 443, 1, 0)]);
}

#[test]
fn denied_packets_are_reported_and_not_accounted() {
    let mut n = node().allow(SRC, 6, 443, 0).allow_any(1);
    assert_eq!(n.egress(&tcp()), 2);
    assert_eq!(n.stats, [STAT_DENY_HITS]);
    assert!(n.accounted.is_empty());
    assert_eq!(n.events, [event(SRC, 443, 0, 1)]);
}

#[test]
fn other_decisions_drop_packets() {
    let mut n = node().allow(SRC, 6, 443, 2);
    assert_eq!(n.egress(&tcp()), 2);
    assert_eq!(n.stats, [STAT_DENY_HITS]);
    assert_eq!(n.events, [event(SRC, 443, 2, 1)]);
}

#[test]
fn no_rule_drops_by_default() {
    let mut n = node();
    assert_eq!(n.egress(&tcp()), 2);
    assert_eq!(n.stats, [STAT_DEFAULT_DENY_DROPS]);
    assert_eq!(n.events, [event(SRC, 443, 0, 1)]);
}

#[test]
fn unidentified_source_is_denied_by_default() {
    let mut n = node().allow_any(1).allow(NOBODY, 6, 443, 1).allow(NOBODY, 0, 0, 1);
    n.wildcard.push((
        EbpfPolicyWildcardKey {
            src_fingerprint: NOBODY,
            dst_fingerprint: DST,
        },
        rule(1),
    ));
    n.identities.clear();
    assert_eq!(n.egress(&tcp()), 2);
    assert_eq!(n.ingress(&tcp()), 2);
    assert_eq!(n.stats, [STAT_DEFAULT_DENY_DROPS, STAT_DEFAULT_DENY_DROPS]);
    assert_eq!(n.events, [event(NOBODY, 443, 0, 1), event(NOBODY, 443, 0, 0)]);
    assert!(n.accounted.is_empty());
    assert_eq!(n.policy_lookups, 0);
}

#[test]
fn unidentified_datagram_is_denied_by_default() {
    let mut p = vec![0u8; 12];
    p.extend([0x08, 0x00]);
    p.extend([0x45, 0, 0, 0x1c, 0, 0, 0x40, 0, 0x40, 17, 0, 0]);
    p.extend([240, 0, 0, 1, 240, 0, 0, 2]);
    p.extend([0x04, 0xd2, 0x00, 0x35, 0, 8, 0, 0]);
    let mut n = node();
    n.routes[0].0 = HostOrderIpv4(0xf000_0002);
    n.identities.clear();
    n.wildcard.push((
        EbpfPolicyWildcardKey {
            src_fingerprint: NOBODY,
            dst_fingerprint: DST,
        },
        rule(1),
    ));
    assert_eq!(n.drive(fleetos_tc_egress(&p, 42)), 2);
    assert_eq!(n.stats, [STAT_DEFAULT_DENY_DROPS]);
    assert_eq!(n.events, [event(NOBODY, 53, 0, 1)]);
}

#[test]
fn malformed_packet_of_unidentified_source_is_unreported() {
    let mut n = node();
    n.identities.clear();
    assert_eq!(n.egress(&tcp()[..36]), 2);
    assert!(n.stats.is_empty() && n.events.is_empty());
}

#[test]
fn any_port_rule_speaks_for_packets() {
    let mut n = node().allow(SRC, 6, 0, 1);
    assert_eq!(n.egress(&tcp()), 0);
    assert_eq!(n.stats, [STAT_ALLOW_HITS]);
    assert_eq!(n.events, [event(SRC, 443, 1, 1)]);
}

#[test]
fn fragment_flags_change_nothing() {
    for flags in [0x00, 0x20, 0x40, 0x80, 0xe0] {
        let mut p = tcp();
        p[20] = flags;
        let mut n = node().allow(SRC, 6, 443, 1);
        assert_eq!(n.egress(&p), 0);
        assert_eq!(n.stats, [STAT_ALLOW_HITS]);
        p[20] = flags | 0x10;
        assert_eq!(n.ingress(&p), 2);
        assert_eq!(n.stats, [STAT_ALLOW_HITS, STAT_FRAGMENT_DROPS]);
    }
}

#[test]
fn directions_mirror_each_other() {
    for decision in [0, 1] {
        let mut sent = node().allow_any(decision);
        let mut received = node().allow_any(decision);
        assert_eq!(sent.egress(&tcp()), received.ingress(&tcp()));
        assert_eq!(sent.stats, received.stats);
        assert_eq!(sent.events, [event(SRC, 443, decision, 1)]);
        assert_eq!(received.events, [event(SRC, 443, decision, 0)]);
        let passed = decision as usize;
        assert_eq!(sent.accounted, vec![(SRC_IP, true, 1400); passed]);
        assert_eq!(received.accounted, vec![(DST_IP, false, 1400); passed]);
    }
}

#[test]
fn icmp_is_evaluated_with_port_zero() {
    let mut p = tcp();
    p[23] = 1;
    let mut n = node().allow(SRC, 1, 0, 1);
    assert_eq!(n.egress(&p), 0);
    assert_eq!(n.events, [event(SRC, 0, 1, 1)]);
}

#[test]
fn connections_and_packets_agree() {
    for decision in [0, 1] {
        let mut exact = node().allow(SRC, 6, 443, decision).allow_any(1 - decision);
        assert_eq!(exact.connect() == 1, decision == 1);
        assert_eq!(exact.egress(&tcp()) == 0, decision == 1);
        assert_eq!(exact.ingress(&tcp()) == 0, decision == 1);
        let mut any = node().allow_any(decision);
        assert_eq!(any.connect() == 1, decision == 1);
        assert_eq!(any.egress(&tcp()) == 0, decision == 1);
    }
    let mut other = node().allow(SRC, 6, 443, 2);
    assert_eq!(other.connect(), 0);
    assert_eq!(other.egress(&tcp()), 2);
    let mut nobody = node().allow(NOBODY, 6, 443, 1);
    nobody.identities.clear();
    assert_eq!(nobody.connect(), 0);
    assert_eq!(nobody.egress(&tcp()), 2);
}
