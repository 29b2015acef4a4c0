//! The matcher for Ethernet headers.

use crate::dstructs::Bits;
use crate::error::{ErrorType, PaError};
use crate::hdr::query::field::{
    address_met, check_address, check_number, equal_addresses, equal_numbers, number_met,
    is_wanted, same_address, same_number, wanted_mac, wants,
};
use crate::hdr::EthHdr;
use crate::pdu::{link_of, Pdu, LINK};
use crate::proto::Proto;
use crate::utility::{count_groups, mac_of_text, parse_mac, split};
use vstd::prelude::*;

verus! {

broadcast use vstd::std_specs::hash::group_hash_axioms;

/// The fields of an Ethernet header, by name.
pub enum EthField {
    SrcHwAddr,
    DstHwAddr,
    EthType,
}

/// What is wanted of an Ethernet header. `None` is met by anything.
#[derive(Debug, Clone, Copy)]
pub struct EthQuery {
    pub src_hw_addr: Option<[u8; 6]>,
    pub dst_hw_addr: Option<[u8; 6]>,
    pub eth_type: Option<Bits>,
}

/// Why an address text spells no address, if it spells none:
/// `ConstructError` when it does not have six pieces between its colons,
/// otherwise `ParseError` when a piece is not an octet.
pub open spec fn mac_error(text: Seq<char>) -> Option<ErrorType> {
    if split(text, ':').len() != 6 {
        Some(ErrorType::ConstructError)
    } else if mac_of_text(text) is None {
        Some(ErrorType::ParseError)
    } else {
        None
    }
}

/// Why an optional address text asks for nothing that can be had.
pub open spec fn wanted_error(text: Option<&str>) -> Option<ErrorType> {
    match text {
        None => None,
        Some(t) => mac_error(t@),
    }
}

impl EthQuery {
    /// Whether the query wants anything of the field `f`.
    pub open spec fn is_set(&self, f: EthField) -> bool {
        match f {
            EthField::SrcHwAddr => self.src_hw_addr is Some,
            EthField::DstHwAddr => self.dst_hw_addr is Some,
            EthField::EthType => self.eth_type is Some,
        }
    }

    /// Whether what the query wants of the field `f`, if anything, is what
    /// `h` has there.
    pub open spec fn met(&self, f: EthField, h: EthHdr) -> bool {
        match f {
            EthField::SrcHwAddr => address_met(self.src_hw_addr, h.src_hw_addr),
            EthField::DstHwAddr => address_met(self.dst_hw_addr, h.dst_hw_addr),
            EthField::EthType => number_met(self.eth_type, h.eth_type.value()),
        }
    }

    /// Whether the header meets the query: every field that the query
    /// wants has the wanted value.
    pub open spec fn matches(&self, h: EthHdr) -> bool {
        &&& self.met(EthField::SrcHwAddr, h)
        &&& self.met(EthField::DstHwAddr, h)
        &&& self.met(EthField::EthType, h)
    }

    /// Whether the frame meets the query: it has an Ethernet header at the
    /// link layer, and that header meets the query.
    pub open spec fn matches_frame(&self, headers: Map<u8, Proto>) -> bool {
        link_of(headers) matches Some(h) && self.matches(h)
    }

    /// Whether two queries want the same of every field.
    pub open spec fn same(&self, other: &EthQuery) -> bool {
        &&& same_address(self.src_hw_addr, other.src_hw_addr)
        &&& same_address(self.dst_hw_addr, other.dst_hw_addr)
        &&& same_number(self.eth_type, other.eth_type)
    }

    /// The query that anything meets.
    pub fn new() -> (q: Self)
        ensures
            forall|f: EthField| !q.is_set(f),
    {
        Self { src_hw_addr: None, dst_hw_addr: None, eth_type: None }
    }

    /// The query that wants the given addresses and EtherType, as far as
    /// they are given. An address is six two-digit hexadecimal octets with
    /// colons between.
    ///
    /// `ConstructError` when a given address does not have six pieces
    /// between its colons, the source looked at first; otherwise
    /// `ParseError` when a piece is not an octet.
    pub fn from(src_addr: Option<&str>, dst_addr: Option<&str>, eth_type: Option<u16>) -> (r:
        Result<Self, PaError>)
        ensures
            r is Ok <==> wanted_mac(src_addr) is Some && wanted_mac(dst_addr) is Some,
            r matches Ok(q) ==> {
                &&& is_wanted(q.src_hw_addr, wanted_mac(src_addr).unwrap())
                &&& is_wanted(q.dst_hw_addr, wanted_mac(dst_addr).unwrap())
                &&& match eth_type {
                    Some(t) => wants(q.eth_type, t as nat, 16),
                    None => q.eth_type is None,
                }
            },
            r matches Err(e) ==> Some(e.err_type) == if wanted_error(src_addr) is Some {
                wanted_error(src_addr)
            } else {
                wanted_error(dst_addr)
            },
    {
        let src_hw_addr = match src_addr {
            None => None,
            Some(text) => Some(Self::address(text)?),
        };
        let dst_hw_addr = match dst_addr {
            None => None,
            Some(text) => Some(Self::address(text)?),
        };
        let etype = match eth_type {
            None => None,
            Some(t) => Some(Bits::from_u16(t)),
        };
        Ok(Self { src_hw_addr, dst_hw_addr, eth_type: etype })
    }

    /// The address that `text` spells.
    ///
    /// `ConstructError` when the text does not have six pieces between its
    /// colons; otherwise `ParseError` when a piece is not an octet.
    pub fn address(text: &str) -> (r: Result<[u8; 6], PaError>)
        ensures
            r is Ok <==> mac_of_text(text@) is Some,
            r matches Ok(a) ==> a@ == mac_of_text(text@).unwrap(),
            r matches Err(e) ==> Some(e.err_type) == mac_error(text@),
    {
        if count_groups(text, ':') != 6 {
            return Err(
                PaError::new(
                    "Error in formatting address in Ethernet Header",
                    ErrorType::ConstructError,
                ),
            );
        }
        parse_mac(text)
    }

    /// Whether the frame meets the query.
    pub fn matches_pdu(&self, pdu: &Pdu) -> (r: bool)
        ensures
            r == self.matches_frame(pdu.headers@),
    {
        match pdu.headers.get(&LINK) {
            Some(Proto::Eth(hdr)) => *self == *hdr,
            _ => false,
        }
    }

    /// The query that wants nothing is met by every header.
    pub proof fn lemma_wildcard(q: EthQuery, h: EthHdr)
        requires
            forall|f: EthField| !q.is_set(f),
        ensures
            q.matches(h),
    {
        assert forall|g: EthField| q.met(g, h) by {
            assert(!q.is_set(g));
        }
    }

    /// A query that wants one field only is met by every header that has
    /// the wanted value in that field, whatever its other fields hold.
    pub proof fn lemma_single_field(q: EthQuery, h: EthHdr, f: EthField)
        requires
            q.is_set(f),
            forall|g: EthField| g != f ==> !q.is_set(g),
            q.met(f, h),
        ensures
            q.matches(h),
    {
        assert forall|g: EthField| q.met(g, h) by {
            if g != f {
                assert(!q.is_set(g));
            }
        }
    }

    /// A header meets a query exactly when it meets it field by field.
    pub proof fn lemma_matches_by_field(q: EthQuery, h: EthHdr)
        ensures
            q.matches(h) <==> forall|f: EthField| q.met(f, h),
    {
    }
}

impl PartialEq<EthHdr> for EthQuery {
    fn eq(&self, rhs: &EthHdr) -> (r: bool) {
        check_address(&self.src_hw_addr, &rhs.src_hw_addr) && check_address(
            &self.dst_hw_addr,
            &rhs.dst_hw_addr,
        ) && check_number(&self.eth_type, rhs.eth_type.to_value())
    }
}

impl vstd::std_specs::cmp::PartialEqSpecImpl<EthHdr> for EthQuery {
    open spec fn obeys_eq_spec() -> bool {
        true
    }

    open spec fn eq_spec(&self, rhs: &EthHdr) -> bool {
        self.matches(*rhs)
    }
}

impl PartialEq for EthQuery {
    fn eq(&self, other: &EthQuery) -> (r: bool) {
        equal_addresses(&self.src_hw_addr, &other.src_hw_addr) && equal_addresses(
            &self.dst_hw_addr,
            &other.dst_hw_addr,
        ) && equal_numbers(&self.eth_type, &other.eth_type)
    }
}

impl vstd::std_specs::cmp::PartialEqSpecImpl for EthQuery {
    open spec fn obeys_eq_spec() -> bool {
        true
    }

    open spec fn eq_spec(&self, other: &EthQuery) -> bool {
        self.same(other)
    }
}

} // verus!
