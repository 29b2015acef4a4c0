//! How one field of a query is held against one field of a header.

use crate::dstructs::Bits;
use crate::utility::{ip_of_text, mac_of_text, same_bytes};
use vstd::prelude::*;

verus! {

/// Whether a wanted number is met by `have`: nothing wanted is always met,
/// a wanted field is met by its own value, whatever its width.
pub open spec fn number_met(want: Option<Bits>, have: nat) -> bool {
    want matches Some(b) ==> b.value() == have
}

/// Whether a wanted address is met by `have`: nothing wanted is always
/// met, a wanted address by the same bytes.
pub open spec fn address_met<const N: usize>(want: Option<[u8; N]>, have: [u8; N]) -> bool {
    want matches Some(a) ==> a@ == have@
}

/// Whether two wanted numbers are the same wish.
pub open spec fn same_number(a: Option<Bits>, b: Option<Bits>) -> bool {
    match (a, b) {
        (Some(x), Some(y)) => x.value() == y.value(),
        (None, None) => true,
        _ => false,
    }
}

/// Whether two wanted addresses are the same wish.
pub open spec fn same_address<const N: usize>(a: Option<[u8; N]>, b: Option<[u8; N]>) -> bool {
    match (a, b) {
        (Some(x), Some(y)) => x@ == y@,
        (None, None) => true,
        _ => false,
    }
}

/// What an optional hardware address text asks for: nothing, an address,
/// or, where the text spells no address, nothing that can be had.
pub open spec fn wanted_mac(text: Option<&str>) -> Option<Option<Seq<u8>>> {
    match text {
        None => Some(None),
        Some(t) => match mac_of_text(t@) {
            Some(a) => Some(Some(a)),
            None => None,
        },
    }
}

/// What an optional IPv4 address text asks for: nothing, an address, or,
/// where the text spells no address, nothing that can be had.
pub open spec fn wanted_ip(text: Option<&str>) -> Option<Option<Seq<u8>>> {
    match text {
        None => Some(None),
        Some(t) => match ip_of_text(t@) {
            Some(a) => Some(Some(a)),
            None => None,
        },
    }
}

/// Whether a wanted address is the one that an optional text asked for.
pub open spec fn is_wanted<const N: usize>(have: Option<[u8; N]>, asked: Option<Seq<u8>>) -> bool {
    match (have, asked) {
        (Some(a), Some(b)) => a@ == b,
        (None, None) => true,
        _ => false,
    }
}

/// Whether a wanted number is a field of the given width and value.
pub open spec fn wants(have: Option<Bits>, value: nat, width: nat) -> bool {
    have matches Some(b) && b.value() == value && b.width() == width
}

/// Holds a wanted number against the number that a header has.
pub fn check_number(want: &Option<Bits>, have: u64) -> (r: bool)
    ensures
        r == number_met(*want, have as nat),
{
    match want {
        Some(b) => b.to_value() == have,
        None => true,
    }
}

/// Holds a wanted address against the address that a header has.
pub fn check_address<const N: usize>(want: &Option<[u8; N]>, have: &[u8; N]) -> (r: bool)
    ensures
        r == address_met(*want, *have),
{
    match want {
        Some(a) => same_bytes(a.as_slice(), have.as_slice()),
        None => true,
    }
}

/// Compares two wanted numbers.
pub fn equal_numbers(a: &Option<Bits>, b: &Option<Bits>) -> (r: bool)
    ensures
        r == same_number(*a, *b),
{
    match (a, b) {
        (Some(x), Some(y)) => x.to_value() == y.to_value(),
        (None, None) => true,
        _ => false,
    }
}

/// Compares two wanted addresses.
pub fn equal_addresses<const N: usize>(a: &Option<[u8; N]>, b: &Option<[u8; N]>) -> (r: bool)
    ensures
        r == same_address(*a, *b),
{
    match (a, b) {
        (Some(x), Some(y)) => same_bytes(x.as_slice(), y.as_slice()),
        (None, None) => true,
        _ => false,
    }
}

} // verus!
