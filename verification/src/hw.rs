//! MAC addresses, as the `hwaddr` crate has them.

use vstd::prelude::*;
use hwaddr::HwAddr;

verus! {

/// `hwaddr::HwAddr`, a MAC address: six octets behind a private field.
#[verifier::external_type_specification]
#[verifier::external_body]
pub struct ExHwAddr(HwAddr);

/// The six octets that a MAC address is made of, as `HwAddr::octets` gives
/// them.
pub uninterp spec fn octets_of(addr: HwAddr) -> Seq<u8>;

/// `HwAddr::from` on a slice of bytes: the address made of the first six
/// bytes. It panics on a shorter slice.
#[verifier::external_body]
pub(crate) fn from_octets(bytes: &[u8]) -> (r: HwAddr)
    requires
        bytes@.len() >= 6,
    ensures
        octets_of(r) == bytes@.take(6),
{
    HwAddr::from(bytes)
}

/// `HwAddr::octets`: the six octets of the address.
#[verifier::external_body]
pub(crate) fn octets(addr: &HwAddr) -> (r: [u8; 6])
    ensures
        r@ == octets_of(*addr),
{
    addr.octets()
}

} // verus!
