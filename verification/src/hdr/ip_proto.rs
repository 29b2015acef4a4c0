//! The protocol numbers that an IPv4 header can carry.

use vstd::prelude::*;

verus! {

pub const ICMP: u8 = 0x01;

pub const TCP: u8 = 0x06;

pub const UDP: u8 = 0x11;

} // verus!
