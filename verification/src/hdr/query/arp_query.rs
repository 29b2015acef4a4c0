//! The matcher for ARP headers.

use crate::dstructs::Bits;
use crate::error::{ErrorType, PaError};
use crate::hdr::query::field::{
    address_met, check_address, check_number, equal_addresses, equal_numbers, is_wanted,
    number_met, same_address, same_number, wanted_ip, wanted_mac, wants,
};
use crate::hdr::ArpHdr;
use crate::pdu::{Pdu, NETWORK};
use crate::proto::Proto;
use crate::utility::{parse_ip, parse_mac};
use vstd::prelude::*;

verus! {

broadcast use vstd::std_specs::hash::group_hash_axioms;

/// The fields of an ARP header, by name.
pub enum ArpField {
    HwType,
    ProtoType,
    HwAddrLen,
    ProtoAddrLen,
    Opr,
    SrcHwAddr,
    SrcProtoAddr,
    DstHwAddr,
    DstProtoAddr,
}

/// What is wanted of an ARP header. `None` is met by anything.
#[derive(Debug, Clone, Copy)]
pub struct ArpQuery {
    pub hw_type: Option<Bits>,
    pub proto_type: Option<Bits>,
    pub hw_addr_len: Option<Bits>,
    pub proto_addr_len: Option<Bits>,
    pub opr: Option<Bits>,
    pub src_hw_addr: Option<[u8; 6]>,
    pub src_proto_addr: Option<[u8; 4]>,
    pub dst_hw_addr: Option<[u8; 6]>,
    pub dst_proto_addr: Option<[u8; 4]>,
}

/// The ARP header at the network layer, if one stands there.
pub open spec fn arp_of(headers: Map<u8, Proto>) -> Option<ArpHdr> {
    if headers.contains_key(NETWORK) {
        match headers[NETWORK] {
            Proto::Arp(arp) => Some(arp),
            _ => None,
        }
    } else {
        None
    }
}

impl ArpQuery {
    /// Whether the query wants anything of the field `f`.
    pub open spec fn is_set(&self, f: ArpField) -> bool {
        match f {
            ArpField::HwType => self.hw_type is Some,
            ArpField::ProtoType => self.proto_type is Some,
            ArpField::HwAddrLen => self.hw_addr_len is Some,
            ArpField::ProtoAddrLen => self.proto_addr_len is Some,
            ArpField::Opr => self.opr is Some,
            ArpField::SrcHwAddr => self.src_hw_addr is Some,
            ArpField::SrcProtoAddr => self.src_proto_addr is Some,
            ArpField::DstHwAddr => self.dst_hw_addr is Some,
            ArpField::DstProtoAddr => self.dst_proto_addr is Some,
        }
    }

    /// Whether what the query wants of the field `f`, if anything, is what
    /// `h` has there.
    pub open spec fn met(&self, f: ArpField, h: ArpHdr) -> bool {
        match f {
            ArpField::HwType => number_met(self.hw_type, h.hw_type as nat),
            ArpField::ProtoType => number_met(self.proto_type, h.proto_type as nat),
            ArpField::HwAddrLen => number_met(self.hw_addr_len, h.hw_addr_len as nat),
            ArpField::ProtoAddrLen => number_met(self.proto_addr_len, h.proto_addr_len as nat),
            ArpField::Opr => number_met(self.opr, h.opr as nat),
            ArpField::SrcHwAddr => address_met(self.src_hw_addr, h.src_hw_addr),
            ArpField::SrcProtoAddr => address_met(self.src_proto_addr, h.src_proto_addr),
            ArpField::DstHwAddr => address_met(self.dst_hw_addr, h.dst_hw_addr),
            ArpField::DstProtoAddr => address_met(self.dst_proto_addr, h.dst_proto_addr),
        }
    }

    /// Whether the header meets the query: every field that the query
    /// wants has the wanted value.
    pub open spec fn matches(&self, h: ArpHdr) -> bool {
        &&& self.met(ArpField::HwType, h)
        &&& self.met(ArpField::ProtoType, h)
        &&& self.met(ArpField::HwAddrLen, h)
        &&& self.met(ArpField::ProtoAddrLen, h)
        &&& self.met(ArpField::Opr, h)
        &&& self.met(ArpField::SrcHwAddr, h)
        &&& self.met(ArpField::SrcProtoAddr, h)
        &&& self.met(ArpField::DstHwAddr, h)
        &&& self.met(ArpField::DstProtoAddr, h)
    }

    /// Whether the frame meets the query: it has an ARP header at the
    /// network layer, and that header meets the query.
    pub open spec fn matches_frame(&self, headers: Map<u8, Proto>) -> bool {
        arp_of(headers) matches Some(h) && self.matches(h)
    }

    /// Whether two queries want the same of every field.
    pub open spec fn same(&self, other: &ArpQuery) -> bool {
        &&& same_number(self.hw_type, other.hw_type)
        &&& same_number(self.proto_type, other.proto_type)
        &&& same_number(self.hw_addr_len, other.hw_addr_len)
        &&& same_number(self.proto_addr_len, other.proto_addr_len)
        &&& same_number(self.opr, other.opr)
        &&& same_address(self.src_hw_addr, other.src_hw_addr)
        &&& same_address(self.src_proto_addr, other.src_proto_addr)
        &&& same_address(self.dst_hw_addr, other.dst_hw_addr)
        &&& same_address(self.dst_proto_addr, other.dst_proto_addr)
    }

    /// The query that anything meets.
    pub fn new() -> (q: Self)
        ensures
            forall|f: ArpField| !q.is_set(f),
    {
        Self {
            hw_type: None,
            proto_type: None,
            hw_addr_len: None,
            proto_addr_len: None,
            opr: None,
            src_hw_addr: None,
            src_proto_addr: None,
            dst_hw_addr: None,
            dst_proto_addr: None,
        }
    }

    /// The query for requests between Ethernet and IPv4 addresses: hardware
    /// type 1, protocol type `0x0800`, address lengths 6 and 4, operation
    /// code 1, and the given addresses as far as they are given.
    ///
    /// `ParseError` when a given text is not an address of its kind.
    pub fn from(
        sender_mac: Option<&str>,
        sender_ip: Option<&str>,
        receiver_mac: Option<&str>,
        receiver_ip: Option<&str>,
    ) -> (r: Result<Self, PaError>)
        ensures
            r is Ok <==> wanted_mac(sender_mac) is Some && wanted_ip(sender_ip) is Some
                && wanted_mac(receiver_mac) is Some && wanted_ip(receiver_ip) is Some,
            r matches Ok(q) ==> {
                &&& wants(q.hw_type, 1, 16)
                &&& wants(q.proto_type, 0x0800, 16)
                &&& wants(q.hw_addr_len, 6, 8)
                &&& wants(q.proto_addr_len, 4, 8)
                &&& wants(q.opr, 1, 16)
                &&& is_wanted(q.src_hw_addr, wanted_mac(sender_mac).unwrap())
                &&& is_wanted(q.src_proto_addr, wanted_ip(sender_ip).unwrap())
                &&& is_wanted(q.dst_hw_addr, wanted_mac(receiver_mac).unwrap())
                &&& is_wanted(q.dst_proto_addr, wanted_ip(receiver_ip).unwrap())
            },
            r matches Err(e) ==> e.err_type == ErrorType::ParseError,
    {
        let src_ip = match sender_ip {
            None => None,
            Some(text) => Some(parse_ip(text)?),
        };
        let dst_ip = match receiver_ip {
            None => None,
            Some(text) => Some(parse_ip(text)?),
        };
        let src_mac = match sender_mac {
            None => None,
            Some(text) => Some(parse_mac(text)?),
        };
        let dst_mac = match receiver_mac {
            None => None,
            Some(text) => Some(parse_mac(text)?),
        };
        Ok(
            Self {
                hw_type: Some(Bits::from_u16(1)),
                proto_type: Some(Bits::from_u16(0x0800)),
                hw_addr_len: Some(Bits::from_u8(6)),
                proto_addr_len: Some(Bits::from_u8(4)),
                opr: Some(Bits::from_u16(1)),
                src_hw_addr: src_mac,
                src_proto_addr: src_ip,
                dst_hw_addr: dst_mac,
                dst_proto_addr: dst_ip,
            },
        )
    }

    /// Makes the query want replies: the wanted operation code becomes 2,
    /// nothing else changes.
    pub fn set_arp_reply(&mut self)
        ensures
            wants(final(self).opr, 2, 16),
            *final(self) == (ArpQuery { opr: final(self).opr, ..*old(self) }),
    {
        self.opr = Some(Bits::from_u16(2));
    }

    /// Whether the frame meets the query.
    pub fn matches_pdu(&self, pdu: &Pdu) -> (r: bool)
        ensures
            r == self.matches_frame(pdu.headers@),
    {
        match pdu.headers.get(&NETWORK) {
            Some(Proto::Arp(hdr)) => *self == *hdr,
            _ => false,
        }
    }

    /// The query that wants nothing is met by every header.
    pub proof fn lemma_wildcard(q: ArpQuery, h: ArpHdr)
        requires
            forall|f: ArpField| !q.is_set(f),
        ensures
            q.matches(h),
    {
        assert forall|g: ArpField| q.met(g, h) by {
            assert(!q.is_set(g));
        }
    }

    /// A query that wants one field only is met by every header that has
    /// the wanted value in that field, whatever its other fields hold.
    pub proof fn lemma_single_field(q: ArpQuery, h: ArpHdr, f: ArpField)
        requires
            q.is_set(f),
            forall|g: ArpField| g != f ==> !q.is_set(g),
            q.met(f, h),
        ensures
            q.matches(h),
    {
        assert forall|g: ArpField| q.met(g, h) by {
            if g != f {
                assert(!q.is_set(g));
            }
        }
    }

    /// A header meets a query exactly when it meets it field by field.
    pub proof fn lemma_matches_by_field(q: ArpQuery, h: ArpHdr)
        ensures
            q.matches(h) <==> forall|f: ArpField| q.met(f, h),
    {
    }
}

impl PartialEq<ArpHdr> for ArpQuery {
    fn eq(&self, rhs: &ArpHdr) -> (r: bool) {
        check_number(&self.hw_type, rhs.hw_type as u64) && check_number(
            &self.proto_type,
            rhs.proto_type as u64,
        ) && check_number(&self.hw_addr_len, rhs.hw_addr_len as u64) && check_number(
            &self.proto_addr_len,
            rhs.proto_addr_len as u64,
        ) && check_number(&self.opr, rhs.opr as u64) && check_address(
            &self.src_hw_addr,
            &rhs.src_hw_addr,
        ) && check_address(&self.src_proto_addr, &rhs.src_proto_addr) && check_address(
            &self.dst_hw_addr,
            &rhs.dst_hw_addr,
        ) && check_address(&self.dst_proto_addr, &rhs.dst_proto_addr)
    }
}

impl vstd::std_specs::cmp::PartialEqSpecImpl<ArpHdr> for ArpQuery {
    open spec fn obeys_eq_spec() -> bool {
        true
    }

    open spec fn eq_spec(&self, rhs: &ArpHdr) -> bool {
        self.matches(*rhs)
    }
}

impl PartialEq for ArpQuery {
    fn eq(&self, other: &ArpQuery) -> (r: bool) {
        equal_numbers(&self.hw_type, &other.hw_type) && equal_numbers(
            &self.proto_type,
            &other.proto_type,
        ) && equal_numbers(&self.hw_addr_len, &other.hw_addr_len) && equal_numbers(
            &self.proto_addr_len,
            &other.proto_addr_len,
        ) && equal_numbers(&self.opr, &other.opr) && equal_addresses(
            &self.src_hw_addr,
            &other.src_hw_addr,
        ) && equal_addresses(&self.src_proto_addr, &other.src_proto_addr) && equal_addresses(
            &self.dst_hw_addr,
            &other.dst_hw_addr,
        ) && equal_addresses(&self.dst_proto_addr, &other.dst_proto_addr)
    }
}

impl vstd::std_specs::cmp::PartialEqSpecImpl for ArpQuery {
    open spec fn obeys_eq_spec() -> bool {
        true
    }

    open spec fn eq_spec(&self, other: &ArpQuery) -> bool {
        self.same(other)
    }
}

} // verus!
