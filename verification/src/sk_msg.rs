//! The message hook: redirects what a spliced socket sends straight to its peer.
#[allow(unused_imports)]
use crate::kernel::{Kernel, Op};
use crate::map_types::SocketCookie;
use vstd::prelude::*;

verus! {

/// Return code that lets a message pass.
pub const SK_PASS: u32 = 1;

/// A run of the hook that waits for the kernel, or its return code.
#[derive(Copy, Clone, Debug, PartialEq, Eq, Structural)]
pub enum SkMsg {
    Cookie(AwaitCookie),
    Peer(PeerLookup),
    Redirect(Redirect),
    Exit(u32),
}

/// Waits for the socket's cookie.
#[derive(Copy, Clone, Debug, PartialEq, Eq, Structural)]
pub struct AwaitCookie;

/// Waits for the peer of the socket with this cookie.
#[derive(Copy, Clone, Debug, PartialEq, Eq, Structural)]
pub struct PeerLookup {
    pub cookie: SocketCookie,
}

/// Waits for the message to be redirected to the socket with this cookie.
#[derive(Copy, Clone, Debug, PartialEq, Eq, Structural)]
pub struct Redirect {
    pub peer: SocketCookie,
}

/// The low 32 bits of the kernel's answer to a redirect, which are the return code.
pub open spec fn redirect_code(answer: i64) -> u32 {
    (answer as int % 0x1_0000_0000) as u32
}

/// All that the hook does for a message, in order.
pub open spec fn sk_msg_ops(k: Kernel) -> Seq<Op> {
    if k.cookie.0 == 0 {
        seq![Op::Cookie, Op::Exit(SK_PASS as int)]
    } else {
        match k.peers.get(k.cookie) {
            None => seq![Op::Cookie, Op::Peer(k.cookie), Op::Exit(SK_PASS as int)],
            Some(peer) => seq![
                Op::Cookie,
                Op::Peer(k.cookie),
                Op::Redirect(peer),
                Op::Exit(redirect_code(k.redirect) as int),
            ],
        }
    }
}

impl SkMsg {
    /// The operation that the run waits for.
    pub open spec fn op(self) -> Op {
        match self {
            SkMsg::Cookie(_) => Op::Cookie,
            SkMsg::Peer(s) => Op::Peer(s.cookie),
            SkMsg::Redirect(s) => Op::Redirect(s.peer),
            SkMsg::Exit(code) => Op::Exit(code as int),
        }
    }

    /// The run after the kernel performed that operation.
    pub open spec fn stepped(self, k: Kernel) -> SkMsg {
        match self {
            SkMsg::Cookie(s) => s.answered(k.cookie),
            SkMsg::Peer(s) => s.answered(k.peers.get(s.cookie)),
            SkMsg::Redirect(s) => s.answered(k.redirect),
            SkMsg::Exit(_) => self,
        }
    }

    /// A bound on the number of steps that are left.
    pub open spec fn rank(self) -> nat {
        match self {
            SkMsg::Cookie(_) => 3,
            SkMsg::Peer(_) => 2,
            SkMsg::Redirect(_) => 1,
            SkMsg::Exit(_) => 0,
        }
    }

    /// All that is still to be done, in order, if the kernel answers as `k` does.
    pub open spec fn run(self, k: Kernel) -> Seq<Op>
        decreases self.rank(),
    {
        match self {
            SkMsg::Exit(code) => seq![Op::Exit(code as int)],
            _ => seq![self.op()] + self.stepped(k).run(k),
        }
    }
}

impl AwaitCookie {
    /// The run after the answer.
    pub open spec fn answered(self, cookie: SocketCookie) -> SkMsg {
        if cookie.0 == 0 {
            SkMsg::Exit(SK_PASS)
        } else {
            SkMsg::Peer(PeerLookup { cookie })
        }
    }

    /// Goes on with the cookie. What a socket without one sends passes.
    pub fn answer(self, cookie: SocketCookie) -> (next: SkMsg)
        ensures
            next == self.answered(cookie),
    {
        if cookie.0 == 0 {
            return SkMsg::Exit(SK_PASS);
        }
        SkMsg::Peer(PeerLookup { cookie })
    }
}

impl PeerLookup {
    /// The run after the answer.
    pub open spec fn answered(self, peer: Option<SocketCookie>) -> SkMsg {
        match peer {
            Some(peer) => SkMsg::Redirect(Redirect { peer }),
            None => SkMsg::Exit(SK_PASS),
        }
    }

    /// Goes on with the peer. What a socket without one sends passes.
    pub fn answer(self, peer: Option<SocketCookie>) -> (next: SkMsg)
        ensures
            next == self.answered(peer),
    {
        match peer {
            Some(peer) => SkMsg::Redirect(Redirect { peer }),
            None => SkMsg::Exit(SK_PASS),
        }
    }
}

impl Redirect {
    /// The run after the answer.
    pub open spec fn answered(self, answer: i64) -> SkMsg {
        SkMsg::Exit(redirect_code(answer))
    }

    /// Goes on with the kernel's answer to the redirect.
    pub fn answer(self, answer: i64) -> (next: SkMsg)
        ensures
            next == self.answered(answer),
    {
        proof {
            assert(answer as u32 == answer as int % 0x1_0000_0000) by (bit_vector);
        }
        SkMsg::Exit(#[verifier::truncate] (answer as u32))
    }
}

/// Starts the hook for a message.
pub fn fleetos_sk_msg() -> (run: SkMsg)
    ensures
        run == SkMsg::Cookie(AwaitCookie),
        forall|k: Kernel| #[trigger] run.run(k) == sk_msg_ops(k),
{
    let run = SkMsg::Cookie(AwaitCookie);
    proof {
        assert forall|k: Kernel| #[trigger] run.run(k) == sk_msg_ops(k) by {
            lemma_sk_msg_runs(k);
        }
    }
    run
}

/// Stepping through the hook does what `sk_msg_ops` lists.
pub proof fn lemma_sk_msg_runs(k: Kernel)
    ensures
        SkMsg::Cookie(AwaitCookie).run(k) == sk_msg_ops(k),
{
    reveal_with_fuel(SkMsg::run, 4);
    assert(SkMsg::Cookie(AwaitCookie).run(k) =~= sk_msg_ops(k));
}

} // verus!
