//! What the hooks share: the overlay's address range and the refusal of traffic.
use crate::byte_order::HostOrderIpv4;
use vstd::prelude::*;

verus! {

/// The error with which a hook refuses traffic.
pub const REFUSED: i64 = -1;

/// The overlay is 240.0.0.0/4, the top sixteenth of the address space.
pub open spec fn in_overlay(ip: HostOrderIpv4) -> bool {
    ip.0 >= 0xf000_0000
}

/// Whether an address lies in the overlay.
pub(crate) fn is_overlay_address(ip: HostOrderIpv4) -> (r: bool)
    ensures
        r == in_overlay(ip),
{
    let x: u32 = ip.0;
    assert((x & 0xf000_0000 == 0xf000_0000) == (x >= 0xf000_0000)) by (bit_vector);
    (ip.0 & 0xf000_0000) == 0xf000_0000
}

} // verus!
