//! The socket-operations hook: publishes same-node connections for splicing.
#[allow(unused_imports)]
use crate::kernel::{Kernel, Op};
use crate::map_types::{IdentityFingerprint, SockStateValue, SocketCookie};
use vstd::prelude::*;

verus! {

/// Operation code of a connection that this side opened and that is now established.
pub const ACTIVE_ESTABLISHED: u32 = 4;

/// A run of the hook that waits for the kernel, or its return code.
#[derive(Copy, Clone, Debug, PartialEq, Eq)]
pub enum SockOps {
    Cookie(AwaitCookie),
    State(StateLookup),
    Local(LocalLookup),
    Publish(Publish),
    Exit(u32),
}

/// Waits for the socket's cookie.
#[derive(Copy, Clone, Debug, PartialEq, Eq, Structural)]
pub struct AwaitCookie;

/// Waits for what was remembered under the cookie.
#[derive(Copy, Clone, Debug, PartialEq, Eq)]
pub struct StateLookup {
    pub cookie: SocketCookie,
}

/// Waits for whether the destination runs on this node.
#[derive(Copy, Clone, Debug, PartialEq, Eq)]
pub struct LocalLookup {
    pub cookie: SocketCookie,
    pub dst_fp: IdentityFingerprint,
}

/// Waits for the socket to be published under its cookie.
#[derive(Copy, Clone, Debug, PartialEq, Eq)]
pub struct Publish {
    pub cookie: SocketCookie,
}

/// All that the hook does for an operation, in order.
pub open spec fn sockops_ops(k: Kernel, op: u32) -> Seq<Op> {
    if op != ACTIVE_ESTABLISHED {
        seq![Op::Exit(1)]
    } else if k.cookie.0 == 0 {
        seq![Op::Cookie, Op::Exit(1)]
    } else {
        match k.states.get(k.cookie) {
            None => seq![Op::Cookie, Op::State(k.cookie), Op::Exit(1)],
            Some(state) => seq![Op::Cookie, Op::State(k.cookie), Op::Local(state.dst_fp)]
                + if k.local.get(state.dst_fp) == Some(true) {
                seq![Op::Publish(k.cookie), Op::Exit(1)]
            } else {
                seq![Op::Exit(1)]
            },
        }
    }
}

/// The return code of an outcome.
pub open spec fn verdict_of(outcome: Result<(), i64>) -> u32 {
    if outcome is Ok {
        1
    } else {
        0
    }
}

/// The first step for an operation.
pub open spec fn started(op: u32) -> SockOps {
    if op == ACTIVE_ESTABLISHED {
        SockOps::Cookie(AwaitCookie)
    } else {
        SockOps::Exit(1)
    }
}

impl SockOps {
    /// The operation that the run waits for.
    pub open spec fn op(self) -> Op {
        match self {
            SockOps::Cookie(_) => Op::Cookie,
            SockOps::State(s) => Op::State(s.cookie),
            SockOps::Local(s) => Op::Local(s.dst_fp),
            SockOps::Publish(s) => Op::Publish(s.cookie),
            SockOps::Exit(code) => Op::Exit(code as int),
        }
    }

    /// The run after the kernel performed that operation.
    pub open spec fn stepped(self, k: Kernel) -> SockOps {
        match self {
            SockOps::Cookie(s) => s.answered(k.cookie),
            SockOps::State(s) => s.answered(k.states.get(s.cookie)),
            SockOps::Local(s) => s.answered(k.local.get(s.dst_fp)),
            SockOps::Publish(s) => s.published(),
            SockOps::Exit(_) => self,
        }
    }

    /// A bound on the number of steps that are left.
    pub open spec fn rank(self) -> nat {
        match self {
            SockOps::Cookie(_) => 4,
            SockOps::State(_) => 3,
            SockOps::Local(_) => 2,
            SockOps::Publish(_) => 1,
            SockOps::Exit(_) => 0,
        }
    }

    /// All that is still to be done, in order, if the kernel answers as `k` does.
    pub open spec fn run(self, k: Kernel) -> Seq<Op>
        decreases self.rank(),
    {
        match self {
            SockOps::Exit(code) => seq![Op::Exit(code as int)],
            _ => seq![self.op()] + self.stepped(k).run(k),
        }
    }
}

/// The return code of an outcome.
fn verdict(outcome: Result<(), i64>) -> (code: u32)
    ensures
        code == verdict_of(outcome),
{
    match outcome {
        Ok(()) => 1,
        Err(_) => 0,
    }
}

impl AwaitCookie {
    /// The run after the answer.
    pub open spec fn answered(self, cookie: SocketCookie) -> SockOps {
        if cookie.0 == 0 {
            SockOps::Exit(1)
        } else {
            SockOps::State(StateLookup { cookie })
        }
    }

    /// Goes on with the cookie. A socket without one cannot be spliced.
    pub fn answer(self, cookie: SocketCookie) -> (next: SockOps)
        ensures
            next == self.answered(cookie),
    {
        if cookie.0 == 0 {
            SockOps::Exit(verdict(Ok(())))
        } else {
            SockOps::State(StateLookup { cookie })
        }
    }
}

impl StateLookup {
    /// The run after the answer.
    pub open spec fn answered(self, state: Option<SockStateValue>) -> SockOps {
        match state {
            Some(state) => SockOps::Local(
                LocalLookup { cookie: self.cookie, dst_fp: state.dst_fp },
            ),
            None => SockOps::Exit(1),
        }
    }

    /// Goes on with what was remembered. A connection of which nothing is remembered is left
    /// alone.
    pub fn answer(self, state: Option<SockStateValue>) -> (next: SockOps)
        ensures
            next == self.answered(state),
    {
        match state {
            Some(state) => SockOps::Local(
                LocalLookup { cookie: self.cookie, dst_fp: state.dst_fp },
            ),
            None => SockOps::Exit(verdict(Ok(()))),
        }
    }
}

impl LocalLookup {
    /// The run after the answer.
    pub open spec fn answered(self, local: Option<bool>) -> SockOps {
        if local == Some(true) {
            SockOps::Publish(Publish { cookie: self.cookie })
        } else {
            SockOps::Exit(1)
        }
    }

    /// Goes on with whether the destination runs on this node. One that is not registered
    /// does not.
    pub fn answer(self, local: Option<bool>) -> (next: SockOps)
        ensures
            next == self.answered(local),
    {
        let is_local = match local {
            Some(value) => value,
            None => false,
        };
        if is_local {
            SockOps::Publish(Publish { cookie: self.cookie })
        } else {
            SockOps::Exit(verdict(Ok(())))
        }
    }
}

impl Publish {
    /// The run after the socket was published, or could not be.
    pub open spec fn published(self) -> SockOps {
        SockOps::Exit(1)
    }

    /// Goes on once the socket was published, or could not be.
    pub fn done(self) -> (next: SockOps)
        ensures
            next == self.published(),
    {
        SockOps::Exit(verdict(Ok(())))
    }
}

/// Starts the hook for an operation code.
pub fn fleetos_sockops(op: u32) -> (run: SockOps)
    ensures
        run == started(op),
        forall|k: Kernel| #[trigger] run.run(k) == sockops_ops(k, op),
{
    let run = if op != ACTIVE_ESTABLISHED {
        SockOps::Exit(verdict(Ok(())))
    } else {
        SockOps::Cookie(AwaitCookie)
    };
    proof {
        assert forall|k: Kernel| #[trigger] run.run(k) == sockops_ops(k, op) by {
            lemma_sockops_runs(k, op);
        }
    }
    run
}

/// Stepping through the hook does what `sockops_ops` lists.
pub proof fn lemma_sockops_runs(k: Kernel, op: u32)
    ensures
        started(op).run(k) == sockops_ops(k, op),
{
    reveal_with_fuel(SockOps::run, 5);
    assert(started(op).run(k) =~= sockops_ops(k, op));
}

} // verus!
