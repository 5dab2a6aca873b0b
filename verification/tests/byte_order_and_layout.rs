//! Byte order of addresses and ports, and sizes of the shared types.

use fleetos_ebpf::{
    assert_layouts, DummyIpRouteValue, EbpfPolicyKey, EbpfPolicyValue, EbpfPolicyWildcardKey,
    FlowEvent, HostOrderIpv4, HostOrderPort, PodNetCounters, SockStateValue, SocketCookie,
};

#[test]
fn address_is_read_from_network_order() {
    let ip = HostOrderIpv4::from_network(u32::from_ne_bytes([240, 0, 0, 10]));
    assert_eq!(ip.0, 0xf000_000a);
}

#[test]
fn address_is_written_in_network_order() {
    let word = HostOrderIpv4(0x7f00_0001).to_network();
    assert_eq!(word.to_ne_bytes(), [127, 0, 0, 1]);
}

#[test]
fn port_is_read_from_network_order() {
    let port = HostOrderPort::from_network(u16::from_ne_bytes([0x1f, 0x90]));
    assert_eq!(port.0, 8080);
}

#[test]
fn port_is_written_in_network_order() {
    assert_eq!(HostOrderPort(443).to_network().to_ne_bytes(), [0x01, 0xbb]);
}

#[test]
fn network_order_round_trips() {
    for x in [0u32, 1, 0x1234_5678, 0xf000_0001, u32::MAX] {
        assert_eq!(HostOrderIpv4::from_network(x).to_network(), x);
        assert_eq!(HostOrderIpv4::from_network(HostOrderIpv4(x).to_network()).0, x);
    }
    for x in [0u16, 1, 0x1234, 0x8000, u16::MAX] {
        assert_eq!(HostOrderPort::from_network(x).to_network(), x);
        assert_eq!(HostOrderPort::from_network(HostOrderPort(x).to_network()).0, x);
    }
}

#[test]
fn shared_types_keep_their_sizes() {
    assert_layouts();
    assert_eq!(core::mem::size_of::<HostOrderIpv4>(), 4);
    assert_eq!(core::mem::size_of::<EbpfPolicyKey>(), 40);
    assert_eq!(core::mem::size_of::<EbpfPolicyWildcardKey>(), 32);
    assert_eq!(core::mem::size_of::<EbpfPolicyValue>(), 16);
    assert_eq!(core::mem::size_of::<FlowEvent>(), 40);
    assert_eq!(core::mem::size_of::<SocketCookie>(), 8);
    assert_eq!(core::mem::size_of::<DummyIpRouteValue>(), 40);
    assert_eq!(core::mem::size_of::<SockStateValue>(), 32);
    assert_eq!(core::mem::size_of::<PodNetCounters>(), 32);
    assert_eq!(core::mem::align_of::<EbpfPolicyKey>(), 2);
    assert_eq!(core::mem::align_of::<DummyIpRouteValue>(), 8);
}
