//! Keys, values and events that the datapath shares with user space.
use crate::byte_order::{HostOrderIpv4, HostOrderPort};
#[allow(unused_imports)]
use crate::byte_order::{native_bytes16, native_bytes32, native_bytes64};
use vstd::prelude::*;

verus! {

/// A 128-bit hash that names a workload or an agent.
#[derive(Copy, Clone, Debug, PartialEq, Eq)]
pub struct IdentityFingerprint(pub [u8; 16]);

/// A socket cookie. The kernel generates it, keeps it for the lifetime of the socket, and
/// reports the same one in every hook that sees the socket. Zero stands for "unavailable".
#[derive(Copy, Clone, Debug, PartialEq, Eq, Structural)]
pub struct SocketCookie(pub u64);

/// Key of an exact policy rule.
#[derive(Copy, Clone, Debug, PartialEq, Eq)]
pub struct EbpfPolicyKey {
    pub src_fingerprint: IdentityFingerprint,
    pub dst_fingerprint: IdentityFingerprint,
    /// 0 = any, 6 = TCP, 17 = UDP.
    pub protocol: u8,
    pub _pad: [u8; 3],
    /// 0 = any.
    pub dst_port: HostOrderPort,
    pub _pad2: [u8; 2],
}

/// Key of a wildcard policy rule, which ignores port and protocol.
#[derive(Copy, Clone, Debug, PartialEq, Eq)]
pub struct EbpfPolicyWildcardKey {
    pub src_fingerprint: IdentityFingerprint,
    pub dst_fingerprint: IdentityFingerprint,
}

/// A policy rule.
#[derive(Copy, Clone, Debug, PartialEq, Eq)]
pub struct EbpfPolicyValue {
    pub sag_version: u64,
    /// 0 = deny, 1 = allow.
    pub decision: u8,
    pub _pad: [u8; 7],
}

/// An observability event for the ring buffer.
#[derive(Copy, Clone, Debug, PartialEq, Eq)]
pub struct FlowEvent {
    pub src_hash: IdentityFingerprint,
    pub dst_hash: IdentityFingerprint,
    pub port: HostOrderPort,
    /// 0 = deny, 1 = allow.
    pub action: u8,
    /// 0 = ingress, 1 = egress.
    pub direction: u8,
    pub _pad: [u8; 4],
}

/// What a dummy overlay address resolves to.
#[derive(Copy, Clone, Debug, PartialEq, Eq)]
pub struct DummyIpRouteValue {
    pub dst_fp: IdentityFingerprint,
    pub target_agent_fp: IdentityFingerprint,
    pub sag_version: u64,
}

/// What the connect hook remembers of an allowed connection.
#[derive(Copy, Clone, Debug, PartialEq, Eq)]
pub struct SockStateValue {
    pub dst_fp: IdentityFingerprint,
    pub target_agent_fp: IdentityFingerprint,
}

/// Cumulative network counters of one workload, counted for allowed overlay traffic only.
#[derive(Copy, Clone, Debug, PartialEq, Eq, Structural)]
pub struct PodNetCounters {
    pub tx_bytes: u64,
    pub tx_packets: u64,
    pub rx_bytes: u64,
    pub rx_packets: u64,
}

/// Policy evaluations that ended in a rule with decision 1.
pub const STAT_ALLOW_HITS: u32 = 0;

/// Policy evaluations that ended in a rule with another decision.
pub const STAT_DENY_HITS: u32 = 1;

/// Policy evaluations that a wildcard rule ended.
pub const STAT_WILDCARD_HITS: u32 = 2;

/// Overlay traffic that no rule, or no known source, speaks for.
pub const STAT_DEFAULT_DENY_DROPS: u32 = 3;

/// Overlay destinations without a route.
pub const STAT_ROUTE_MISSES: u32 = 4;

/// Traffic outside the overlay.
pub const STAT_PASS_THROUGHS: u32 = 5;

/// Connections rewritten to the local agent.
pub const STAT_REWRITES: u32 = 6;

/// Overlay fragments dropped because they carry no transport header.
pub const STAT_FRAGMENT_DROPS: u32 = 7;

/// Length of the statistics array.
pub const STAT_COUNT: u32 = 8;

impl HostOrderIpv4 {
    /// The bytes of a map entry that holds this value.
    pub open spec fn image(self) -> Seq<u8> {
        native_bytes32(self.0)
    }
}

impl SocketCookie {
    /// The bytes of a map entry that holds this value.
    pub open spec fn image(self) -> Seq<u8> {
        native_bytes64(self.0)
    }
}

impl EbpfPolicyKey {
    /// The bytes of a map entry that holds this value.
    pub open spec fn image(self) -> Seq<u8> {
        self.src_fingerprint.0@ + self.dst_fingerprint.0@ + seq![self.protocol] + self._pad@
            + native_bytes16(self.dst_port.0) + self._pad2@
    }
}

impl EbpfPolicyWildcardKey {
    /// The bytes of a map entry that holds this value.
    pub open spec fn image(self) -> Seq<u8> {
        self.src_fingerprint.0@ + self.dst_fingerprint.0@
    }
}

impl EbpfPolicyValue {
    /// The bytes of a map entry that holds this value.
    pub open spec fn image(self) -> Seq<u8> {
        native_bytes64(self.sag_version) + seq![self.decision] + self._pad@
    }
}

impl FlowEvent {
    /// The bytes of a ring buffer record that holds this value.
    pub open spec fn image(self) -> Seq<u8> {
        self.src_hash.0@ + self.dst_hash.0@ + native_bytes16(self.port.0) + seq![
            self.action,
            self.direction,
        ] + self._pad@
    }
}

impl DummyIpRouteValue {
    /// The bytes of a map entry that holds this value.
    pub open spec fn image(self) -> Seq<u8> {
        self.dst_fp.0@ + self.target_agent_fp.0@ + native_bytes64(self.sag_version)
    }
}

impl SockStateValue {
    /// The bytes of a map entry that holds this value.
    pub open spec fn image(self) -> Seq<u8> {
        self.dst_fp.0@ + self.target_agent_fp.0@
    }
}

impl PodNetCounters {
    /// The bytes of a map entry that holds this value.
    pub open spec fn image(self) -> Seq<u8> {
        native_bytes64(self.tx_bytes) + native_bytes64(self.tx_packets) + native_bytes64(
            self.rx_bytes,
        ) + native_bytes64(self.rx_packets)
    }
}

/// States how many bytes the intended image of each shared type has, which is the entry size that
/// user space was built against. What `image` spells out is not tied to the type in memory here:
/// the copies in `app/abi.rs`, which are laid out as C structs, assert their real sizes.
pub fn assert_layouts()
    ensures
        forall|v: HostOrderIpv4| #[trigger] v.image().len() == 4,
        forall|v: EbpfPolicyKey| #[trigger] v.image().len() == 40,
        forall|v: EbpfPolicyWildcardKey| #[trigger] v.image().len() == 32,
        forall|v: EbpfPolicyValue| #[trigger] v.image().len() == 16,
        forall|v: FlowEvent| #[trigger] v.image().len() == 40,
        forall|v: SocketCookie| #[trigger] v.image().len() == 8,
        forall|v: DummyIpRouteValue| #[trigger] v.image().len() == 40,
        forall|v: SockStateValue| #[trigger] v.image().len() == 32,
        forall|v: PodNetCounters| #[trigger] v.image().len() == 32,
{
}

/// The four counters stand in a counter entry at offsets 0, 8, 16 and 24.
pub proof fn law_counter_offsets_are_frozen(c: PodNetCounters)
    ensures
        c.image().subrange(0, 8) == native_bytes64(c.tx_bytes),
        c.image().subrange(8, 16) == native_bytes64(c.tx_packets),
        c.image().subrange(16, 24) == native_bytes64(c.rx_bytes),
        c.image().subrange(24, 32) == native_bytes64(c.rx_packets),
{
}

/// Two exact-rule keys have the same bytes only where they are the same key, so a lookup by
/// bytes is a lookup by fields.
pub proof fn law_policy_key_bytes_identify_key(a: EbpfPolicyKey, b: EbpfPolicyKey)
    requires
        a.image() == b.image(),
    ensures
        a == b,
{
    let (x, y) = (a.image(), b.image());
    assert(a.src_fingerprint.0@ =~= x.subrange(0, 16));
    assert(b.src_fingerprint.0@ =~= y.subrange(0, 16));
    assert(a.dst_fingerprint.0@ =~= x.subrange(16, 32));
    assert(b.dst_fingerprint.0@ =~= y.subrange(16, 32));
    assert(a.protocol == x[32] && b.protocol == y[32]);
    assert(a._pad@ =~= x.subrange(33, 36));
    assert(b._pad@ =~= y.subrange(33, 36));
    assert(native_bytes16(a.dst_port.0) =~= x.subrange(36, 38));
    assert(native_bytes16(b.dst_port.0) =~= y.subrange(36, 38));
    assert(native_bytes16(a.dst_port.0)[0] == native_bytes16(b.dst_port.0)[0]);
    assert(native_bytes16(a.dst_port.0)[1] == native_bytes16(b.dst_port.0)[1]);
    assert(a.dst_port.0 == b.dst_port.0);
    assert(a._pad2@ =~= x.subrange(38, 40));
    assert(b._pad2@ =~= y.subrange(38, 40));
    assert(a.src_fingerprint.0 =~= b.src_fingerprint.0);
    assert(a.dst_fingerprint.0 =~= b.dst_fingerprint.0);
    assert(a._pad =~= b._pad);
    assert(a._pad2 =~= b._pad2);
}

} // verus!
