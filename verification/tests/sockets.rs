//! The socket hooks and the stand-alone ingress filter.

use fleetos_ebpf::ingress_filter::{FleetosHeader, Filter, RuleKey};
use fleetos_ebpf::sk_msg::SkMsg;
use fleetos_ebpf::sockops::SockOps;
use fleetos_ebpf::{
    fleetos_sk_msg, fleetos_sockops, sockops_identity_hook, tc_ingress_filter,
    IdentityFingerprint, SockStateValue, SocketCookie,
};

const DST: IdentityFingerprint = IdentityFingerprint([2; 16]);

fn state() -> SockStateValue {
    SockStateValue {
        dst_fp: DST,
        target_agent_fp: IdentityFingerprint([3; 16]),
    }
}

/// Runs the socket-operations hook. Returns its code and the cookies that were published.
fn sockops(
    op: u32,
    cookie: u64,
    stored: Option<(u64, SockStateValue)>,
    local: Option<(IdentityFingerprint, bool)>,
) -> (u32, Vec<u64>) {
    let mut published = vec![];
    let mut run = fleetos_sockops(op);
    loop {
        run = match run {
            SockOps::Cookie(s) => s.answer(SocketCookie(cookie)),
            SockOps::State(s) => s.answer(stored.filter(|e| e.0 == s.cookie.0).map(|e| e.1)),
            SockOps::Local(s) => s.answer(local.filter(|e| e.0 == s.dst_fp).map(|e| e.1)),
            SockOps::Publish(s) => {
                published.push(s.cookie.0);
                s.done()
            }
            SockOps::Exit(code) => return (code, published),
        };
    }
}

#[test]
fn local_connection_is_published() {
    assert_eq!(
        sockops(4, 9, Some((9, state())), Some((DST, true))),
        (1, vec![9])
    );
}

#[test]
fn other_operations_are_ignored() {
    for op in [0, 3, 5, u32::MAX] {
        assert_eq!(
            sockops(op, 9, Some((9, state())), Some((DST, true))),
            (1, vec![])
        );
    }
}

#[test]
fn socket_without_cookie_is_not_published() {
    assert_eq!(
        sockops(4, 0, Some((0, state())), Some((DST, true))),
        (1, vec![])
    );
}

#[test]
fn unmanaged_connection_is_left_alone() {
    assert_eq!(
        sockops(4, 9, Some((8, state())), Some((DST, true))),
        (1, vec![])
    );
    assert_eq!(sockops(4, 9, None, Some((DST, true))), (1, vec![]));
}

#[test]
fn remote_destination_is_not_published() {
    let other = IdentityFingerprint([7; 16]);
    assert_eq!(
        sockops(4, 9, Some((9, state())), Some((DST, false))),
        (1, vec![])
    );
    assert_eq!(
        sockops(4, 9, Some((9, state())), Some((other, true))),
        (1, vec![])
    );
    assert_eq!(sockops(4, 9, Some((9, state())), None), (1, vec![]));
}

/// Runs the message hook. Returns its code and the sockets that the message went to.
fn sk_msg(cookie: u64, peer: Option<(u64, u64)>, redirect: i64) -> (u32, Vec<u64>) {
    let mut redirected = vec![];
    let mut run = fleetos_sk_msg();
    loop {
        run = match run {
            SkMsg::Cookie(s) => s.answer(SocketCookie(cookie)),
            SkMsg::Peer(s) => s.answer(
                peer.filter(|e| e.0 == s.cookie.0)
                    .map(|e| SocketCookie(e.1)),
            ),
            SkMsg::Redirect(s) => {
                redirected.push(s.peer.0);
                s.answer(redirect)
            }
            SkMsg::Exit(code) => return (code, redirected),
        };
    }
}

#[test]
fn paired_message_is_redirected() {
    assert_eq!(sk_msg(5, Some((5, 6)), 1), (1, vec![6]));
    assert_eq!(sk_msg(5, Some((5, 6)), 0), (0, vec![6]));
}

#[test]
fn redirect_answer_keeps_its_low_bits() {
    assert_eq!(sk_msg(5, Some((5, 6)), -1).0, u32::MAX);
    assert_eq!(sk_msg(5, Some((5, 6)), 0x1_0000_0002).0, 2);
}

#[test]
fn unpaired_message_passes() {
    assert_eq!(sk_msg(5, None, 0), (1, vec![]));
    assert_eq!(sk_msg(5, Some((4, 6)), 0), (1, vec![]));
    assert_eq!(sk_msg(0, Some((0, 6)), 0), (1, vec![]));
}

fn header(magic: u16) -> FleetosHeader<u64> {
    FleetosHeader {
        magic,
        src_hash: 10,
        dst_hash: 20,
        port: 443,
    }
}

/// Runs the filter on a packet of `len` bytes, where a header has 36.
fn filter(len: usize, magic: u16, rule: Option<(RuleKey<u64>, u8)>) -> i32 {
    let mut run: Filter<u64> = tc_ingress_filter(len, 36);
    loop {
        run = match run {
            Filter::Header(s) => s.answer(header(magic)),
            Filter::Rule(s) => {
                let action = match &rule {
                    Some((key, action)) if *key == s.key => Some(*action),
                    _ => None,
                };
                s.answer(action)
            }
            Filter::Exit(code) => return code,
        };
    }
}

fn key(src_hash: u64, port: u16) -> RuleKey<u64> {
    RuleKey {
        src_hash,
        dst_hash: 20,
        port,
        _pad: 0,
    }
}

#[test]
fn filter_passes_packets_without_overlay_header() {
    assert_eq!(filter(35, 0x464C, None), 0);
    assert_eq!(filter(36, 0x464D, None), 0);
}

#[test]
fn filter_admits_by_rule() {
    assert_eq!(filter(36, 0x464C, Some((key(10, 443), 1))), 0);
}

#[test]
fn filter_drops_by_default() {
    assert_eq!(filter(36, 0x464C, None), 2);
    assert_eq!(filter(36, 0x464C, Some((key(10, 443), 0))), 2);
    assert_eq!(filter(36, 0x464C, Some((key(10, 443), 2))), 2);
    assert_eq!(filter(36, 0x464C, Some((key(11, 443), 1))), 2);
    assert_eq!(filter(36, 0x464C, Some((key(10, 80), 1))), 2);
}

#[test]
fn identity_hook_returns_zero() {
    assert_eq!(sockops_identity_hook(), 0);
}
