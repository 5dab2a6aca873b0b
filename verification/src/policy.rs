//! Two-tier authorization: exact rule, then wildcard rule, then deny. In an exact rule, 0 stands
//! for any port and for any protocol.
use crate::byte_order::HostOrderPort;
#[allow(unused_imports)]
use crate::kernel::{Kernel, Op};
use crate::map_types::{
    EbpfPolicyKey, EbpfPolicyValue, EbpfPolicyWildcardKey, IdentityFingerprint, STAT_ALLOW_HITS,
    STAT_DEFAULT_DENY_DROPS, STAT_DENY_HITS, STAT_WILDCARD_HITS,
};
use vstd::prelude::*;

verus! {

/// A policy evaluation that waits for the kernel, or its decision.
#[derive(Copy, Clone, Debug, PartialEq, Eq)]
pub enum Check {
    Exact(ExactLookup),
    Wildcard(WildcardLookup),
    Count(PolicyCount),
    Decided(u8),
}

/// Waits for the exact rule with this key, on behalf of a flow to `dst_port`.
#[derive(Copy, Clone, Debug, PartialEq, Eq)]
pub struct ExactLookup {
    pub key: EbpfPolicyKey,
    pub dst_port: HostOrderPort,
}

/// Waits for the wildcard rule with this key.
#[derive(Copy, Clone, Debug, PartialEq, Eq)]
pub struct WildcardLookup {
    pub key: EbpfPolicyWildcardKey,
}

/// Waits for the statistic with this index to go up.
#[derive(Copy, Clone, Debug, PartialEq, Eq)]
pub struct PolicyCount {
    pub index: u32,
    pub after: AfterCount,
}

/// What follows once a statistic went up.
#[derive(Copy, Clone, Debug, PartialEq, Eq)]
pub enum AfterCount {
    Tally(u8),
    Decided(u8),
}

/// The statistic under which a rule's decision is counted.
pub open spec fn tally_index(decision: u8) -> u32 {
    if decision == 1 {
        STAT_ALLOW_HITS
    } else {
        STAT_DENY_HITS
    }
}

/// The port that an exact rule for every port is stored under.
pub const ANY_PORT: u16 = 0;

/// The protocol that an exact rule for every protocol is stored under.
pub const ANY_PROTOCOL: u8 = 0;

/// The key of an exact rule, with its padding zero.
pub open spec fn exact_key(
    src: IdentityFingerprint,
    dst: IdentityFingerprint,
    protocol: u8,
    dst_port: HostOrderPort,
) -> EbpfPolicyKey {
    EbpfPolicyKey {
        src_fingerprint: src,
        dst_fingerprint: dst,
        protocol,
        _pad: [0, 0, 0],
        dst_port,
        _pad2: [0, 0],
    }
}

/// The key of a wildcard rule.
pub open spec fn wildcard_key(
    src: IdentityFingerprint,
    dst: IdentityFingerprint,
) -> EbpfPolicyWildcardKey {
    EbpfPolicyWildcardKey { src_fingerprint: src, dst_fingerprint: dst }
}

/// The exact rule stored under a protocol that speaks for a port: the one for that port, else the
/// one for every port.
pub open spec fn protocol_rule(
    k: Kernel,
    src: IdentityFingerprint,
    dst: IdentityFingerprint,
    protocol: u8,
    dst_port: HostOrderPort,
) -> Option<EbpfPolicyValue> {
    match k.exact.get(exact_key(src, dst, protocol, dst_port)) {
        Some(rule) => Some(rule),
        None => k.exact.get(exact_key(src, dst, protocol, HostOrderPort(ANY_PORT))),
    }
}

/// The exact rule that speaks for a flow: one for its protocol, else one for every protocol.
pub open spec fn exact_rule(
    k: Kernel,
    src: IdentityFingerprint,
    dst: IdentityFingerprint,
    protocol: u8,
    dst_port: HostOrderPort,
) -> Option<EbpfPolicyValue> {
    match protocol_rule(k, src, dst, protocol, dst_port) {
        Some(rule) => Some(rule),
        None => protocol_rule(k, src, dst, ANY_PROTOCOL, dst_port),
    }
}

/// The decision of the wildcard rule, else deny.
pub open spec fn wildcard_decision(
    k: Kernel,
    src: IdentityFingerprint,
    dst: IdentityFingerprint,
) -> u8 {
    match k.wildcard.get(wildcard_key(src, dst)) {
        Some(rule) => rule.decision,
        None => 0,
    }
}

/// The decision on a flow: that of its exact rule, else that of its wildcard rule, else deny.
pub open spec fn decision(
    k: Kernel,
    src: IdentityFingerprint,
    dst: IdentityFingerprint,
    protocol: u8,
    dst_port: HostOrderPort,
) -> u8 {
    match exact_rule(k, src, dst, protocol, dst_port) {
        Some(rule) => rule.decision,
        None => wildcard_decision(k, src, dst),
    }
}

/// The lookups that find `protocol_rule`, in order. The key for every port is asked for only
/// where the one before it had no rule, and never twice.
pub open spec fn protocol_ops(
    k: Kernel,
    src: IdentityFingerprint,
    dst: IdentityFingerprint,
    protocol: u8,
    dst_port: HostOrderPort,
) -> Seq<Op> {
    let own = exact_key(src, dst, protocol, dst_port);
    let any = exact_key(src, dst, protocol, HostOrderPort(ANY_PORT));
    if dst_port.0 == ANY_PORT || k.exact.get(own) is Some {
        seq![Op::Exact(own)]
    } else {
        seq![Op::Exact(own), Op::Exact(any)]
    }
}

/// The lookups that find `exact_rule`, in order: the flow's protocol and port, its protocol and
/// any port, any protocol and its port, any protocol and any port. They end with the first rule
/// that is found.
pub open spec fn exact_ops(
    k: Kernel,
    src: IdentityFingerprint,
    dst: IdentityFingerprint,
    protocol: u8,
    dst_port: HostOrderPort,
) -> Seq<Op> {
    protocol_ops(k, src, dst, protocol, dst_port) + if protocol == ANY_PROTOCOL || protocol_rule(
        k,
        src,
        dst,
        protocol,
        dst_port,
    ) is Some {
        seq![]
    } else {
        protocol_ops(k, src, dst, ANY_PROTOCOL, dst_port)
    }
}

/// All that an evaluation does once no exact rule was found, in order.
pub open spec fn wildcard_ops(
    k: Kernel,
    src: IdentityFingerprint,
    dst: IdentityFingerprint,
) -> Seq<Op> {
    let key = wildcard_key(src, dst);
    match k.wildcard.get(key) {
        Some(rule) => seq![
            Op::Wildcard(key),
            Op::Bump(STAT_WILDCARD_HITS),
            Op::Bump(tally_index(rule.decision)),
        ],
        None => seq![Op::Wildcard(key), Op::Bump(STAT_DEFAULT_DENY_DROPS)],
    }
}

/// All that an evaluation does, in order.
pub open spec fn policy_ops(
    k: Kernel,
    src: IdentityFingerprint,
    dst: IdentityFingerprint,
    protocol: u8,
    dst_port: HostOrderPort,
) -> Seq<Op> {
    exact_ops(k, src, dst, protocol, dst_port) + match exact_rule(
        k,
        src,
        dst,
        protocol,
        dst_port,
    ) {
        Some(rule) => seq![Op::Bump(tally_index(rule.decision))],
        None => wildcard_ops(k, src, dst),
    }
}

/// The first step of an evaluation.
pub open spec fn checking(
    src: IdentityFingerprint,
    dst: IdentityFingerprint,
    protocol: u8,
    dst_port: HostOrderPort,
) -> Check {
    Check::Exact(ExactLookup { key: exact_key(src, dst, protocol, dst_port), dst_port })
}

impl Check {
    /// The operation that the evaluation waits for.
    pub open spec fn op(self) -> Op
        recommends
            !(self is Decided),
    {
        match self {
            Check::Exact(s) => Op::Exact(s.key),
            Check::Wildcard(s) => Op::Wildcard(s.key),
            Check::Count(s) => Op::Bump(s.index),
            Check::Decided(d) => Op::Exit(d as int),
        }
    }

    /// The evaluation after the kernel performed that operation.
    pub open spec fn stepped(self, k: Kernel) -> Check {
        match self {
            Check::Exact(s) => s.answered(k.exact.get(s.key)),
            Check::Wildcard(s) => s.answered(k.wildcard.get(s.key)),
            Check::Count(s) => s.counted(),
            Check::Decided(_) => self,
        }
    }

    /// A bound on the number of steps that are left.
    pub open spec fn rank(self) -> nat {
        match self {
            Check::Exact(s) => 4 + s.rank(),
            Check::Wildcard(_) => 3,
            Check::Count(s) => if s.after is Tally {
                2
            } else {
                1
            },
            Check::Decided(_) => 0,
        }
    }

    /// All that is still to be done, in order.
    pub open spec fn run(self, k: Kernel) -> Seq<Op>
        decreases self.rank(),
    {
        if self is Decided {
            seq![]
        } else {
            seq![self.op()] + self.stepped(k).run(k)
        }
    }

    /// The decision in the end.
    pub open spec fn result(self, k: Kernel) -> u8
        decreases self.rank(),
    {
        match self {
            Check::Decided(d) => d,
            _ => self.stepped(k).result(k),
        }
    }
}

impl ExactLookup {
    /// The number of exact keys that may still be asked for after this one.
    pub open spec fn rank(self) -> nat {
        (if self.key.protocol == ANY_PROTOCOL {
            0nat
        } else {
            2
        }) + (if self.key.dst_port.0 == ANY_PORT {
            0nat
        } else {
            1
        })
    }

    /// The evaluation after the answer. Without a rule it goes on with the key for any port, then
    /// with those for any protocol, and at last with the wildcard rule.
    pub open spec fn answered(self, rule: Option<EbpfPolicyValue>) -> Check {
        match rule {
            Some(rule) => Check::Count(
                PolicyCount {
                    index: tally_index(rule.decision),
                    after: AfterCount::Decided(rule.decision),
                },
            ),
            None => if self.key.dst_port.0 != ANY_PORT {
                Check::Exact(
                    ExactLookup {
                        key: EbpfPolicyKey { dst_port: HostOrderPort(ANY_PORT), ..self.key },
                        ..self
                    },
                )
            } else if self.key.protocol != ANY_PROTOCOL {
                Check::Exact(
                    ExactLookup {
                        key: EbpfPolicyKey {
                            protocol: ANY_PROTOCOL,
                            dst_port: self.dst_port,
                            ..self.key
                        },
                        ..self
                    },
                )
            } else {
                Check::Wildcard(
                    WildcardLookup {
                        key: wildcard_key(self.key.src_fingerprint, self.key.dst_fingerprint),
                    },
                )
            },
        }
    }

    /// Goes on with the exact rule, or without one.
    pub fn answer(self, rule: Option<EbpfPolicyValue>) -> (next: Check)
        ensures
            next == self.answered(rule),
    {
        let mut key = self.key;
        match rule {
            Some(rule) => tally(rule.decision),
            None => {
                if key.dst_port.0 != ANY_PORT {
                    key.dst_port = HostOrderPort(ANY_PORT);
                    Check::Exact(ExactLookup { key, dst_port: self.dst_port })
                } else if key.protocol != ANY_PROTOCOL {
                    key.protocol = ANY_PROTOCOL;
                    key.dst_port = self.dst_port;
                    Check::Exact(ExactLookup { key, dst_port: self.dst_port })
                } else {
                    Check::Wildcard(
                        WildcardLookup {
                            key: EbpfPolicyWildcardKey {
                                src_fingerprint: key.src_fingerprint,
                                dst_fingerprint: key.dst_fingerprint,
                            },
                        },
                    )
                }
            },
        }
    }
}

impl WildcardLookup {
    /// The evaluation after the answer.
    pub open spec fn answered(self, rule: Option<EbpfPolicyValue>) -> Check {
        match rule {
            Some(rule) => Check::Count(
                PolicyCount {
                    index: STAT_WILDCARD_HITS,
                    after: AfterCount::Tally(rule.decision),
                },
            ),
            None => Check::Count(
                PolicyCount { index: STAT_DEFAULT_DENY_DROPS, after: AfterCount::Decided(0) },
            ),
        }
    }

    /// Goes on with the wildcard rule, or without one.
    pub fn answer(self, rule: Option<EbpfPolicyValue>) -> (next: Check)
        ensures
            next == self.answered(rule),
    {
        match rule {
            Some(rule) => Check::Count(
                PolicyCount {
                    index: STAT_WILDCARD_HITS,
                    after: AfterCount::Tally(rule.decision),
                },
            ),
            None => Check::Count(
                PolicyCount { index: STAT_DEFAULT_DENY_DROPS, after: AfterCount::Decided(0) },
            ),
        }
    }
}

impl PolicyCount {
    /// The evaluation after the statistic went up.
    pub open spec fn counted(self) -> Check {
        match self.after {
            AfterCount::Tally(decision) => Check::Count(
                PolicyCount {
                    index: tally_index(decision),
                    after: AfterCount::Decided(decision),
                },
            ),
            AfterCount::Decided(decision) => Check::Decided(decision),
        }
    }

    /// Goes on once the statistic went up.
    pub fn done(self) -> (next: Check)
        ensures
            next == self.counted(),
    {
        match self.after {
            AfterCount::Tally(decision) => tally(decision),
            AfterCount::Decided(decision) => Check::Decided(decision),
        }
    }
}

/// Counts a rule's decision and then takes it.
fn tally(decision: u8) -> (next: Check)
    ensures
        next == Check::Count(
            PolicyCount { index: tally_index(decision), after: AfterCount::Decided(decision) },
        ),
{
    let index: u32 = if decision == 1 {
        STAT_ALLOW_HITS
    } else {
        STAT_DENY_HITS
    };
    Check::Count(PolicyCount { index, after: AfterCount::Decided(decision) })
}

/// Starts the evaluation of a flow.
pub fn check_policy(
    src: &IdentityFingerprint,
    dst: &IdentityFingerprint,
    protocol: u8,
    dst_port: HostOrderPort,
) -> (check: Check)
    ensures
        check == checking(*src, *dst, protocol, dst_port),
        forall|k: Kernel| #[trigger]
            check.run(k) == policy_ops(k, *src, *dst, protocol, dst_port),
        forall|k: Kernel| #[trigger]
            check.result(k) == decision(k, *src, *dst, protocol, dst_port),
{
    let check = Check::Exact(
        ExactLookup {
            key: EbpfPolicyKey {
                src_fingerprint: *src,
                dst_fingerprint: *dst,
                protocol,
                _pad: [0, 0, 0],
                dst_port,
                _pad2: [0, 0],
            },
            dst_port,
        },
    );
    proof {
        assert forall|k: Kernel| #[trigger]
            check.run(k) == policy_ops(k, *src, *dst, protocol, dst_port) by {
            lemma_check_runs(k, *src, *dst, protocol, dst_port);
        }
        assert forall|k: Kernel| #[trigger]
            check.result(k) == decision(k, *src, *dst, protocol, dst_port) by {
            lemma_check_runs(k, *src, *dst, protocol, dst_port);
        }
    }
    check
}

/// Without an exact rule, an evaluation does what `wildcard_ops` lists.
proof fn lemma_wildcard_runs(k: Kernel, src: IdentityFingerprint, dst: IdentityFingerprint)
    ensures
        Check::Wildcard(WildcardLookup { key: wildcard_key(src, dst) }).run(k) == wildcard_ops(
            k,
            src,
            dst,
        ),
        Check::Wildcard(WildcardLookup { key: wildcard_key(src, dst) }).result(k)
            == wildcard_decision(k, src, dst),
{
    reveal_with_fuel(Check::run, 4);
    reveal_with_fuel(Check::result, 4);
    let start = Check::Wildcard(WildcardLookup { key: wildcard_key(src, dst) });
    assert(start.run(k) =~= wildcard_ops(k, src, dst));
}

/// A lookup under one protocol does what `protocol_ops` lists. It then counts the rule that it
/// found, or goes on as the lookup for any port does without a rule.
proof fn lemma_protocol_runs(
    k: Kernel,
    src: IdentityFingerprint,
    dst: IdentityFingerprint,
    protocol: u8,
    dst_port: HostOrderPort,
)
    ensures
        ({
            let start = checking(src, dst, protocol, dst_port);
            let any = exact_key(src, dst, protocol, HostOrderPort(ANY_PORT));
            let without = ExactLookup { key: any, dst_port }.answered(None);
            let rule = protocol_rule(k, src, dst, protocol, dst_port);
            &&& start.run(k) == protocol_ops(k, src, dst, protocol, dst_port) + match rule {
                Some(rule) => seq![Op::Bump(tally_index(rule.decision))],
                None => without.run(k),
            }
            &&& start.result(k) == match rule {
                Some(rule) => rule.decision,
                None => without.result(k),
            }
        }),
{
    reveal_with_fuel(Check::run, 4);
    reveal_with_fuel(Check::result, 4);
    let start = checking(src, dst, protocol, dst_port);
    let any = exact_key(src, dst, protocol, HostOrderPort(ANY_PORT));
    let without = ExactLookup { key: any, dst_port }.answered(None);
    let tail = match protocol_rule(k, src, dst, protocol, dst_port) {
        Some(rule) => seq![Op::Bump(tally_index(rule.decision))],
        None => without.run(k),
    };
    assert(start.run(k) =~= protocol_ops(k, src, dst, protocol, dst_port) + tail);
}

/// Stepping through an evaluation does what `policy_ops` lists and ends in `decision`.
pub proof fn lemma_check_runs(
    k: Kernel,
    src: IdentityFingerprint,
    dst: IdentityFingerprint,
    protocol: u8,
    dst_port: HostOrderPort,
)
    ensures
        checking(src, dst, protocol, dst_port).run(k) == policy_ops(
            k,
            src,
            dst,
            protocol,
            dst_port,
        ),
        checking(src, dst, protocol, dst_port).result(k) == decision(
            k,
            src,
            dst,
            protocol,
            dst_port,
        ),
{
    lemma_protocol_runs(k, src, dst, protocol, dst_port);
    lemma_protocol_runs(k, src, dst, ANY_PROTOCOL, dst_port);
    lemma_wildcard_runs(k, src, dst);
    assert(checking(src, dst, protocol, dst_port).run(k) =~= policy_ops(
        k,
        src,
        dst,
        protocol,
        dst_port,
    ));
}

} // verus!
