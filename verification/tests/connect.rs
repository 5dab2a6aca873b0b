//! The connect hook and the policy evaluation in it, driven against maps in memory.

use fleetos_ebpf::connect4::{Connect4, SockAddr};
use fleetos_ebpf::counters::bump_stat;
use fleetos_ebpf::map_types::{
    STAT_ALLOW_HITS, STAT_DEFAULT_DENY_DROPS, STAT_DENY_HITS, STAT_PASS_THROUGHS, STAT_REWRITES,
    STAT_ROUTE_MISSES, STAT_WILDCARD_HITS,
};
use fleetos_ebpf::policy::{check_policy, Check};
use fleetos_ebpf::sockops::SockOps;
use fleetos_ebpf::{
    fleetos_connect4, fleetos_sockops, DummyIpRouteValue, EbpfPolicyKey, EbpfPolicyValue, EbpfPolicyWildcardKey,
    HostOrderIpv4, HostOrderPort, IdentityFingerprint, SockStateValue, SocketCookie,
};

const SRC: IdentityFingerprint = IdentityFingerprint([1; 16]);
const DST: IdentityFingerprint = IdentityFingerprint([2; 16]);
const AGENT: IdentityFingerprint = IdentityFingerprint([3; 16]);

#[derive(Default)]
struct Maps {
    routes: Vec<(HostOrderIpv4, DummyIpRouteValue)>,
    identities: Vec<(HostOrderIpv4, IdentityFingerprint)>,
    exact: Vec<(EbpfPolicyKey, EbpfPolicyValue)>,
    wildcard: Vec<(EbpfPolicyWildcardKey, EbpfPolicyValue)>,
    cookie: u64,
    stats: Vec<u32>,
    stored: Vec<(SocketCookie, SockStateValue)>,
    rewrites: Vec<(u32, u32)>,
    lookups: u32,
}

fn find<K: PartialEq, V: Copy>(entries: &[(K, V)], key: &K) -> Option<V> {
    entries.iter().find(|e| e.0 == *key).map(|e| e.1)
}

impl Maps {
    fn policy(&mut self, check: Check) -> Check {
        match check {
            Check::Exact(s) => {
                self.lookups += 1;
                s.answer(find(&self.exact, &s.key))
            }
            Check::Wildcard(s) => {
                self.lookups += 1;
                s.answer(find(&self.wildcard, &s.key))
            }
            Check::Count(s) => {
                self.stats.push(s.index);
                s.done()
            }
            Check::Decided(_) => check,
        }
    }

    fn connect(&mut self, sa: &SockAddr) -> i32 {
        let mut run = fleetos_connect4(sa);
        loop {
            run = match run {
                Connect4::Count(s) => {
                    self.stats.push(s.index);
                    s.done()
                }
                Connect4::Resolve(s) => {
                    self.lookups += 1;
                    s.answer(find(&self.routes, &s.connection.dst_ip))
                }
                Connect4::Identify(s) => {
                    self.lookups += 1;
                    s.answer(find(&self.identities, &s.connection.src_ip))
                }
                Connect4::Authorize(s) => {
                    let next = self.policy(s.check);
                    s.answer(next)
                }
                Connect4::Cookie(s) => s.answer(SocketCookie(self.cookie)),
                Connect4::Store(s) => {
                    self.stored.push((s.cookie, s.state));
                    s.done()
                }
                Connect4::Rewrite(s) => {
                    self.rewrites.push((s.user_ip4, s.user_port));
                    s.done()
                }
                Connect4::Exit(code) => return code,
            };
        }
    }

    fn decide(&mut self, protocol: u8, port: u16) -> u8 {
        let mut check = check_policy(&SRC, &DST, protocol, HostOrderPort(port));
        loop {
            if let Check::Decided(decision) = check {
                return decision;
            }
            check = self.policy(check);
        }
    }
}

fn rule(decision: u8) -> EbpfPolicyValue {
    EbpfPolicyValue {
        sag_version: 9,
        decision,
        _pad: [0; 7],
    }
}

fn exact(protocol: u8, port: u16) -> EbpfPolicyKey {
    EbpfPolicyKey {
        src_fingerprint: SRC,
        dst_fingerprint: DST,
        protocol,
        _pad: [0; 3],
        dst_port: HostOrderPort(port),
        _pad2: [0; 2],
    }
}

fn wildcard() -> EbpfPolicyWildcardKey {
    EbpfPolicyWildcardKey {
        src_fingerprint: SRC,
        dst_fingerprint: DST,
    }
}

/// 10.0.0.5 connects to 240.0.0.10:8080 over TCP.
fn overlay() -> SockAddr {
    SockAddr {
        user_ip4: u32::from_ne_bytes([240, 0, 0, 10]),
        user_port: u16::from_ne_bytes([0x1f, 0x90]) as u32,
        msg_src_ip4: u32::from_ne_bytes([10, 0, 0, 5]),
        protocol: 6,
    }
}

fn known() -> Maps {
    Maps {
        routes: vec![(
            HostOrderIpv4(0xf000_000a),
            DummyIpRouteValue {
                dst_fp: DST,
                target_agent_fp: AGENT,
                sag_version: 1,
            },
        )],
        identities: vec![(HostOrderIpv4(0x0a00_0005), SRC)],
        cookie: 77,
        ..Maps::default()
    }
}

#[test]
fn other_networks_pass_untouched() {
    let mut maps = known();
    let sa = SockAddr {
        user_ip4: u32::from_ne_bytes([192, 168, 1, 1]),
        ..overlay()
    };
    assert_eq!(maps.connect(&sa), 1);
    assert_eq!(maps.stats, [STAT_PASS_THROUGHS]);
    assert!(maps.stored.is_empty() && maps.rewrites.is_empty());
    assert_eq!(maps.lookups, 0);
}

#[test]
fn overlay_begins_at_240() {
    let mut maps = known();
    let below = SockAddr {
        user_ip4: u32::from_ne_bytes([239, 255, 255, 255]),
        ..overlay()
    };
    assert_eq!(maps.connect(&below), 1);
    let first = SockAddr {
        user_ip4: u32::from_ne_bytes([240, 0, 0, 0]),
        ..overlay()
    };
    assert_eq!(maps.connect(&first), 0);
    assert_eq!(maps.stats, [STAT_PASS_THROUGHS, STAT_ROUTE_MISSES]);
}

#[test]
fn missing_route_is_refused() {
    let mut maps = known();
    maps.routes.clear();
    assert_eq!(maps.connect(&overlay()), 0);
    assert_eq!(maps.stats, [STAT_ROUTE_MISSES]);
    assert!(maps.rewrites.is_empty());
}

#[test]
fn unidentified_source_is_refused() {
    let mut maps = known();
    maps.identities.clear();
    maps.wildcard.push((wildcard(), rule(1)));
    assert_eq!(maps.connect(&overlay()), 0);
    assert_eq!(maps.stats, [STAT_DEFAULT_DENY_DROPS]);
}

#[test]
fn no_rule_is_refused() {
    let mut maps = known();
    assert_eq!(maps.connect(&overlay()), 0);
    assert_eq!(maps.stats, [STAT_DEFAULT_DENY_DROPS]);
    assert!(maps.stored.is_empty() && maps.rewrites.is_empty());
}

#[test]
fn exact_rule_admits_and_rewrites() {
    let mut maps = known();
    maps.exact.push((exact(6, 8080), rule(1)));
    assert_eq!(maps.connect(&overlay()), 1);
    assert_eq!(maps.stats, [STAT_ALLOW_HITS, STAT_REWRITES]);
    assert_eq!(
        maps.stored,
        [(
            SocketCookie(77),
            SockStateValue {
                dst_fp: DST,
                target_agent_fp: AGENT
            }
        )]
    );
    assert_eq!(maps.rewrites, [(0x7f00_0001u32.to_be(), 4242u16.to_be() as u32)]);
    assert_eq!(maps.rewrites[0].0.to_ne_bytes(), [127, 0, 0, 1]);
}

#[test]
fn rewrite_reads_back_as_the_agent() {
    let mut maps = known();
    maps.exact.push((exact(6, 8080), rule(1)));
    assert_eq!(maps.connect(&overlay()), 1);
    let (user_ip4, user_port) = maps.rewrites[0];
    assert_eq!(HostOrderIpv4::from_network(user_ip4), HostOrderIpv4(0x7f00_0001));
    assert_eq!(HostOrderPort::from_network(user_port as u16), HostOrderPort(4242));
    assert!(user_port <= 0xffff);
}

#[test]
fn wildcard_rule_admits() {
    let mut maps = known();
    maps.wildcard.push((wildcard(), rule(1)));
    assert_eq!(maps.connect(&overlay()), 1);
    assert_eq!(maps.stats, [STAT_WILDCARD_HITS, STAT_ALLOW_HITS, STAT_REWRITES]);
}

#[test]
fn exact_denial_outranks_wildcard() {
    let mut maps = known();
    maps.exact.push((exact(6, 8080), rule(0)));
    maps.wildcard.push((wildcard(), rule(1)));
    assert_eq!(maps.connect(&overlay()), 0);
    assert_eq!(maps.stats, [STAT_DENY_HITS]);
    assert_eq!(maps.lookups, 3);
}

#[test]
fn exact_rule_is_for_its_port_and_protocol() {
    let mut maps = known();
    maps.exact.push((exact(6, 8081), rule(1)));
    maps.exact.push((exact(17, 8080), rule(1)));
    assert_eq!(maps.connect(&overlay()), 0);
    assert_eq!(maps.stats, [STAT_DEFAULT_DENY_DROPS]);
}

#[test]
fn missing_cookie_does_not_gate() {
    let mut maps = known();
    maps.cookie = 0;
    maps.exact.push((exact(6, 8080), rule(1)));
    assert_eq!(maps.connect(&overlay()), 1);
    assert_eq!(maps.stats, [STAT_ALLOW_HITS, STAT_REWRITES]);
    assert!(maps.stored.is_empty());
    assert_eq!(maps.rewrites.len(), 1);
}

#[test]
fn other_decisions_refuse_connections() {
    for decision in [2, 255] {
        let mut maps = known();
        maps.exact.push((exact(6, 8080), rule(decision)));
        maps.wildcard.push((wildcard(), rule(1)));
        assert_eq!(maps.connect(&overlay()), 0);
        assert_eq!(maps.stats, [STAT_DENY_HITS]);
        assert!(maps.stored.is_empty() && maps.rewrites.is_empty());
    }
}

#[test]
fn port_zero_in_a_rule_means_any_port() {
    let mut maps = Maps::default();
    maps.exact.push((exact(6, 0), rule(1)));
    assert_eq!(maps.decide(6, 80), 1);
    assert_eq!(maps.lookups, 2);
    assert_eq!(maps.decide(6, 0), 1);
    assert_eq!(maps.decide(17, 80), 0);
    assert_eq!(maps.stats, [STAT_ALLOW_HITS, STAT_ALLOW_HITS, STAT_DEFAULT_DENY_DROPS]);
}

#[test]
fn protocol_zero_in_a_rule_means_any_protocol() {
    let mut maps = Maps::default();
    maps.exact.push((exact(0, 53), rule(1)));
    assert_eq!(maps.decide(6, 53), 1);
    assert_eq!(maps.lookups, 3);
    assert_eq!(maps.decide(17, 53), 1);
    assert_eq!(maps.decide(17, 54), 0);
}

#[test]
fn zeros_in_a_rule_mean_any_flow_before_the_wildcard() {
    let mut maps = Maps::default();
    maps.exact.push((exact(0, 0), rule(0)));
    maps.wildcard.push((wildcard(), rule(1)));
    assert_eq!(maps.decide(6, 80), 0);
    assert_eq!(maps.lookups, 4);
    assert_eq!(maps.stats, [STAT_DENY_HITS]);
}

#[test]
fn own_port_then_any_port_then_any_protocol() {
    let mut maps = Maps::default();
    maps.exact.push((exact(0, 0), rule(1)));
    assert_eq!(maps.decide(6, 80), 1);
    maps.exact.push((exact(0, 80), rule(0)));
    assert_eq!(maps.decide(6, 80), 0);
    maps.exact.push((exact(6, 0), rule(1)));
    assert_eq!(maps.decide(6, 80), 1);
    maps.exact.push((exact(6, 80), rule(0)));
    assert_eq!(maps.decide(6, 80), 0);
}

#[test]
fn no_rule_is_asked_for_twice() {
    for (protocol, port, keys) in [(6, 80, 4), (6, 0, 2), (0, 80, 2), (0, 0, 1)] {
        let mut maps = Maps::default();
        assert_eq!(maps.decide(protocol, port), 0);
        assert_eq!(maps.lookups, keys + 1);
        assert_eq!(maps.stats, [STAT_DEFAULT_DENY_DROPS]);
    }
}

#[test]
fn high_bits_of_port_and_protocol_are_ignored() {
    let mut maps = known();
    maps.exact.push((exact(6, 8080), rule(1)));
    let sa = SockAddr {
        user_port: overlay().user_port | 0xabcd_0000,
        protocol: 0x1206,
        ..overlay()
    };
    assert_eq!(maps.connect(&sa), 1);
}

#[test]
fn evaluation_counts_each_outcome() {
    let mut maps = Maps::default();
    assert_eq!(maps.decide(6, 80), 0);
    maps.wildcard.push((wildcard(), rule(0)));
    assert_eq!(maps.decide(6, 80), 0);
    maps.exact.push((exact(6, 80), rule(1)));
    assert_eq!(maps.decide(6, 80), 1);
    assert_eq!(maps.decide(17, 80), 0);
    assert_eq!(
        maps.stats,
        [
            STAT_DEFAULT_DENY_DROPS,
            STAT_WILDCARD_HITS,
            STAT_DENY_HITS,
            STAT_ALLOW_HITS,
            STAT_WILDCARD_HITS,
            STAT_DENY_HITS,
        ]
    );
}

#[test]
fn established_connection_finds_what_was_stored() {
    let mut maps = known();
    maps.exact.push((exact(6, 8080), rule(1)));
    assert_eq!(maps.connect(&overlay()), 1);
    let mut run = fleetos_sockops(4);
    let mut checked = None;
    let mut published = None;
    let code = loop {
        run = match run {
            SockOps::Cookie(s) => s.answer(SocketCookie(maps.cookie)),
            SockOps::State(s) => s.answer(find(&maps.stored, &s.cookie)),
            SockOps::Local(s) => {
                checked = Some(s.dst_fp);
                s.answer(Some(true))
            }
            SockOps::Publish(s) => {
                published = Some(s.cookie);
                s.done()
            }
            SockOps::Exit(code) => break code,
        };
    };
    assert_eq!(code, 1);
    assert_eq!(checked, Some(DST));
    assert_eq!(published, Some(SocketCookie(77)));
}

#[test]
fn allow_hits_stay_equal_to_rewrites() {
    let mut maps = known();
    let _ = maps.connect(&overlay());
    maps.wildcard.push((wildcard(), rule(1)));
    let _ = maps.connect(&overlay());
    maps.exact.push((exact(6, 8080), rule(0)));
    let _ = maps.connect(&overlay());
    maps.exact[0].1 = rule(1);
    let _ = maps.connect(&overlay());
    maps.exact[0].1 = rule(2);
    let _ = maps.connect(&overlay());
    let count = |index: u32| maps.stats.iter().filter(|i| **i == index).count();
    assert_eq!(count(STAT_ALLOW_HITS), 2);
    assert_eq!(count(STAT_REWRITES), 2);
}

#[test]
fn allow_hits_and_rewrites_rise_alike_from_any_start() {
    let mut maps = known();
    maps.wildcard.push((wildcard(), rule(1)));
    for _ in 0..3 {
        assert_eq!(maps.connect(&overlay()), 1);
    }
    let mut stats = [u64::MAX - 1, 0, 0, 0, 0, 0, 40, 0];
    for index in &maps.stats {
        bump_stat(stats.get_mut(*index as usize));
    }
    assert_eq!(stats[STAT_ALLOW_HITS as usize], 1);
    assert_eq!(stats[STAT_REWRITES as usize], 43);
}
