//! The kernel-side enforcement and routing plane of a fleet whose network addresses are
//! identities.
//!
//! A hook is a state machine. It starts from what the kernel hands it, and each step names the
//! one kernel operation that it waits for: a map lookup, a counter, a store. The caller performs
//! the operation and gives the answer back. A step that answers with `Exit` carries the hook's
//! return code. The start of each hook states, for every way in which the kernel may answer, all
//! that the run will do, in order.
pub mod byte_order;
pub mod connect4;
pub mod counters;
pub mod ingress_filter;
pub mod kernel;
pub mod laws;
pub mod map_types;
pub mod observed;
pub mod overlay;
pub mod packet;
pub mod policy;
pub mod sk_msg;
pub mod sockops;
pub mod steps;
pub mod tc;
pub mod wire;

pub use byte_order::{HostOrderIpv4, HostOrderPort};
pub use connect4::fleetos_connect4;
pub use ingress_filter::{sockops_identity_hook, tc_ingress_filter};
pub use map_types::{
    assert_layouts, DummyIpRouteValue, EbpfPolicyKey, EbpfPolicyValue, EbpfPolicyWildcardKey,
    FlowEvent, IdentityFingerprint, PodNetCounters, SockStateValue, SocketCookie,
};
pub use sk_msg::fleetos_sk_msg;
pub use sockops::fleetos_sockops;
pub use tc::{fleetos_tc_egress, fleetos_tc_ingress};
