//! The vocabulary in which a hook's run is specified: what it does, in order, and what the
//! kernel answers.
use crate::byte_order::HostOrderIpv4;
use crate::map_types::{
    DummyIpRouteValue, EbpfPolicyKey, EbpfPolicyValue, EbpfPolicyWildcardKey, FlowEvent,
    IdentityFingerprint, SockStateValue, SocketCookie,
};
use vstd::prelude::*;

verus! {

/// One operation of a hook on the kernel.
pub enum Op {
    /// Add one to the statistic with this index.
    Bump(u32),
    /// Look up the route of a destination address.
    Route(HostOrderIpv4),
    /// Look up the identity behind a source address.
    Identity(HostOrderIpv4),
    /// Look up an exact policy rule.
    Exact(EbpfPolicyKey),
    /// Look up a wildcard policy rule.
    Wildcard(EbpfPolicyWildcardKey),
    /// Read the boot gate.
    Gate,
    /// Ask for the cookie of the socket at hand.
    Cookie,
    /// Remember the resolution of a connection under its cookie.
    Store(SocketCookie, SockStateValue),
    /// Overwrite the destination of the connection with these two network-order words.
    Rewrite { user_ip4: u32, user_port: u32 },
    /// Add one packet of this many bytes to a workload's counters, sent if `tx`.
    Account { ip: HostOrderIpv4, tx: bool, bytes: u32 },
    /// Push a flow event.
    Event(FlowEvent),
    /// Look up what was remembered under a cookie.
    State(SocketCookie),
    /// Look up whether an identity runs on this node.
    Local(IdentityFingerprint),
    /// Publish the socket at hand for splicing under its cookie.
    Publish(SocketCookie),
    /// Look up the peer of a socket.
    Peer(SocketCookie),
    /// Redirect the message at hand to this socket.
    Redirect(SocketCookie),
    /// Return this code.
    Exit(int),
}

/// What the kernel answers during one run. A run asks each question at most once, so the
/// answers of any run, with the maps changing under it or not, are those of some `Kernel`.
pub struct Kernel {
    pub routes: Map<HostOrderIpv4, DummyIpRouteValue>,
    pub identities: Map<HostOrderIpv4, IdentityFingerprint>,
    pub exact: Map<EbpfPolicyKey, EbpfPolicyValue>,
    pub wildcard: Map<EbpfPolicyWildcardKey, EbpfPolicyValue>,
    pub gate: Option<u32>,
    pub cookie: SocketCookie,
    pub states: Map<SocketCookie, SockStateValue>,
    pub local: Map<IdentityFingerprint, bool>,
    pub peers: Map<SocketCookie, SocketCookie>,
    pub redirect: i64,
}

/// How often `op` occurs in `ops`.
pub open spec fn times(ops: Seq<Op>, op: Op) -> nat
    decreases ops.len(),
{
    if ops.len() == 0 {
        0
    } else {
        times(ops.drop_last(), op) + if ops.last() == op {
            1nat
        } else {
            0
        }
    }
}

/// One where `ops` has `op` at `i`, else zero.
pub open spec fn occurs_at(ops: Seq<Op>, i: int, op: Op) -> nat {
    if i < ops.len() && ops[i] == op {
        1
    } else {
        0
    }
}

/// In a short sequence, the occurrences are those at its few positions.
pub broadcast proof fn lemma_times_short(ops: Seq<Op>, op: Op)
    requires
        ops.len() <= 5,
    ensures
        #[trigger] times(ops, op) == occurs_at(ops, 0, op) + occurs_at(ops, 1, op) + occurs_at(
            ops,
            2,
            op,
        ) + occurs_at(ops, 3, op) + occurs_at(ops, 4, op),
{
    reveal_with_fuel(times, 6);
}

/// Occurrences add up over a concatenation.
pub broadcast proof fn lemma_times_add(a: Seq<Op>, b: Seq<Op>, op: Op)
    ensures
        #[trigger] times(a + b, op) == times(a, op) + times(b, op),
    decreases b.len(),
{
    if b.len() == 0 {
        assert(a + b =~= a);
    } else {
        assert((a + b).drop_last() =~= a + b.drop_last());
        lemma_times_add(a, b.drop_last(), op);
    }
}

/// What occurs is contained, and what does not is not.
pub proof fn lemma_times_contains(ops: Seq<Op>, op: Op)
    ensures
        times(ops, op) > 0 <==> ops.contains(op),
    decreases ops.len(),
{
    if ops.len() > 0 {
        lemma_times_contains(ops.drop_last(), op);
        let init = ops.drop_last();
        if ops.last() == op {
            assert(ops[ops.len() - 1] == op);
        }
        if init.contains(op) {
            let i = choose|i: int| 0 <= i < init.len() && init[i] == op;
            assert(ops[i] == op);
        }
        if ops.contains(op) && ops.last() != op {
            let i = choose|i: int| 0 <= i < ops.len() && ops[i] == op;
            assert(init[i] == op);
        }
    }
}

pub broadcast group group_times {
    lemma_times_short,
    lemma_times_add,
}

} // verus!
