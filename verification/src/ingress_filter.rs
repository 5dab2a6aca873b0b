//! The stand-alone ingress filter: admits packets by the overlay header that they start with.
use crate::tc::{TC_ACT_OK, TC_ACT_SHOT};
use vstd::prelude::*;

verus! {

/// Signature of an overlay header: "FL".
pub const OVERLAY_MAGIC: u16 = 0x464C;

/// Action of a rule that allows.
pub const ACTION_ALLOW: u8 = 1;

/// What the filter reads of an overlay header. `H` is the type of an identity hash.
#[derive(Debug, PartialEq, Eq)]
pub struct FleetosHeader<H> {
    pub magic: u16,
    pub src_hash: H,
    pub dst_hash: H,
    pub port: u16,
}

/// Key of a rule.
#[derive(Debug, PartialEq, Eq)]
pub struct RuleKey<H> {
    pub src_hash: H,
    pub dst_hash: H,
    pub port: u16,
    pub _pad: u16,
}

/// A run of the filter that waits for the kernel, or its return code.
#[derive(Debug, PartialEq, Eq)]
pub enum Filter<H> {
    Header(AwaitHeader),
    Rule(RuleLookup<H>),
    Exit(i32),
}

/// Waits for the header at the start of the packet.
#[derive(Copy, Clone, Debug, PartialEq, Eq, Structural)]
pub struct AwaitHeader;

/// Waits for the action of the rule with this key.
#[derive(Debug, PartialEq, Eq)]
pub struct RuleLookup<H> {
    pub key: RuleKey<H>,
}

/// The key under which the rule for a header is found, with its padding zero.
pub open spec fn key_of<H>(header: FleetosHeader<H>) -> RuleKey<H> {
    RuleKey {
        src_hash: header.src_hash,
        dst_hash: header.dst_hash,
        port: header.port,
        _pad: 0,
    }
}

/// The return code for a packet: one that is too short for a header, or starts with something
/// else, is none of the filter's business and passes. Of the others, those pass whose rule
/// allows it.
pub open spec fn filter_code<H>(
    packet_len: usize,
    header_len: usize,
    header: FleetosHeader<H>,
    rules: Map<RuleKey<H>, u8>,
) -> i32 {
    if packet_len < header_len || header.magic != OVERLAY_MAGIC {
        TC_ACT_OK
    } else if rules.get(key_of(header)) == Some(ACTION_ALLOW) {
        TC_ACT_OK
    } else {
        TC_ACT_SHOT
    }
}

impl<H> Filter<H> {
    /// The return code in the end, if the packet starts with `header` and the rules are `rules`.
    pub open spec fn code(self, header: FleetosHeader<H>, rules: Map<RuleKey<H>, u8>) -> i32
        decreases self.rank(),
    {
        match self {
            Filter::Header(s) => s.answered(header).code(header, rules),
            Filter::Rule(s) => s.answered(rules.get(s.key)).code(header, rules),
            Filter::Exit(code) => code,
        }
    }

    /// A bound on the number of steps that are left.
    pub open spec fn rank(self) -> nat {
        match self {
            Filter::Header(_) => 2,
            Filter::Rule(_) => 1,
            Filter::Exit(_) => 0,
        }
    }
}

impl AwaitHeader {
    /// The run after the answer.
    pub open spec fn answered<H>(self, header: FleetosHeader<H>) -> Filter<H> {
        if header.magic == OVERLAY_MAGIC {
            Filter::Rule(RuleLookup { key: key_of(header) })
        } else {
            Filter::Exit(TC_ACT_OK)
        }
    }

    /// Goes on with the header. One without the overlay signature is none, and passes.
    pub fn answer<H>(self, header: FleetosHeader<H>) -> (next: Filter<H>)
        ensures
            next == self.answered(header),
    {
        if header.magic != OVERLAY_MAGIC {
            return Filter::Exit(TC_ACT_OK);
        }
        Filter::Rule(
            RuleLookup {
                key: RuleKey {
                    src_hash: header.src_hash,
                    dst_hash: header.dst_hash,
                    port: header.port,
                    _pad: 0,
                },
            },
        )
    }
}

impl<H> RuleLookup<H> {
    /// The run after the answer.
    pub open spec fn answered(self, action: Option<u8>) -> Filter<H> {
        if action == Some(ACTION_ALLOW) {
            Filter::Exit(TC_ACT_OK)
        } else {
            Filter::Exit(TC_ACT_SHOT)
        }
    }

    /// Goes on with the rule's action. Without a rule that allows, the packet is dropped.
    pub fn answer(self, action: Option<u8>) -> (next: Filter<H>)
        ensures
            next == self.answered(action),
    {
        match action {
            Some(value) => {
                if value == ACTION_ALLOW {
                    Filter::Exit(TC_ACT_OK)
                } else {
                    Filter::Exit(TC_ACT_SHOT)
                }
            },
            None => Filter::Exit(TC_ACT_SHOT),
        }
    }
}

/// Starts the filter for a packet of `packet_len` bytes, where a header has `header_len`.
pub fn tc_ingress_filter<H>(packet_len: usize, header_len: usize) -> (run: Filter<H>)
    ensures
        packet_len < header_len ==> run == Filter::<H>::Exit(TC_ACT_OK),
        packet_len >= header_len ==> run == Filter::<H>::Header(AwaitHeader),
        forall|header: FleetosHeader<H>, rules: Map<RuleKey<H>, u8>| #[trigger]
            run.code(header, rules) == filter_code(packet_len, header_len, header, rules),
{
    proof {
        reveal_with_fuel(Filter::code, 3);
    }
    if packet_len < header_len {
        Filter::Exit(TC_ACT_OK)
    } else {
        Filter::Header(AwaitHeader)
    }
}

/// The socket-operations hook that goes with the filter: it tracks nothing.
pub fn sockops_identity_hook() -> (code: u32)
    ensures
        code == 0,
{
    0
}

/// A packet with an overlay header is dropped unless a rule for exactly its identities and
/// port allows it.
pub proof fn law_filter_denies_by_default<H>(
    packet_len: usize,
    header_len: usize,
    header: FleetosHeader<H>,
    rules: Map<RuleKey<H>, u8>,
)
    requires
        packet_len >= header_len,
        header.magic == OVERLAY_MAGIC,
    ensures
        filter_code(packet_len, header_len, header, rules) == TC_ACT_OK <==> rules.get(
            key_of(header),
        ) == Some(ACTION_ALLOW),
{
}

/// A packet without an overlay header passes whatever the rules say.
pub proof fn law_filter_passes_foreign_packets<H>(
    packet_len: usize,
    header_len: usize,
    header: FleetosHeader<H>,
    rules: Map<RuleKey<H>, u8>,
)
    requires
        packet_len < header_len || header.magic != OVERLAY_MAGIC,
    ensures
        filter_code(packet_len, header_len, header, rules) == TC_ACT_OK,
{
}

} // verus!
