//! The matcher for IPv4 headers.

use crate::dstructs::Bits;
use crate::error::{ErrorType, PaError};
use crate::hdr::query::field::{
    address_met, check_address, check_number, equal_addresses, equal_numbers, is_wanted,
    number_met, same_address, same_number, wanted_ip, wants,
};
use crate::hdr::IPv4Hdr;
use crate::pdu::{Pdu, NETWORK};
use crate::proto::Proto;
use crate::utility::parse_ip;
use vstd::prelude::*;

verus! {

broadcast use vstd::std_specs::hash::group_hash_axioms;

/// The fields of an IPv4 header, by name.
pub enum IPv4Field {
    Ver,
    Ihl,
    Tos,
    TotalLen,
    Id,
    Flags,
    FragOffset,
    Ttl,
    Proto,
    HdrChecksum,
    SrcIpAddr,
    DstIpAddr,
}

/// What is wanted of an IPv4 header. `None` is met by anything.
#[derive(Debug, Clone, Copy)]
pub struct IPv4Query {
    pub ver: Option<Bits>,
    pub ihl: Option<Bits>,
    pub tos: Option<Bits>,
    pub total_len: Option<Bits>,
    pub id: Option<Bits>,
    pub flags: Option<Bits>,
    pub frag_offset: Option<Bits>,
    pub ttl: Option<Bits>,
    pub proto: Option<Bits>,
    pub hdr_checksum: Option<Bits>,
    pub src_ip_addr: Option<[u8; 4]>,
    pub dst_ip_addr: Option<[u8; 4]>,
}

/// The IPv4 header at the network layer, if one stands there.
pub open spec fn ipv4_of(headers: Map<u8, Proto>) -> Option<IPv4Hdr> {
    if headers.contains_key(NETWORK) {
        match headers[NETWORK] {
            Proto::IPv4(ipv4) => Some(ipv4),
            _ => None,
        }
    } else {
        None
    }
}

impl IPv4Query {
    /// Whether the query wants anything of the field `f`.
    pub open spec fn is_set(&self, f: IPv4Field) -> bool {
        match f {
            IPv4Field::Ver => self.ver is Some,
            IPv4Field::Ihl => self.ihl is Some,
            IPv4Field::Tos => self.tos is Some,
            IPv4Field::TotalLen => self.total_len is Some,
            IPv4Field::Id => self.id is Some,
            IPv4Field::Flags => self.flags is Some,
            IPv4Field::FragOffset => self.frag_offset is Some,
            IPv4Field::Ttl => self.ttl is Some,
            IPv4Field::Proto => self.proto is Some,
            IPv4Field::HdrChecksum => self.hdr_checksum is Some,
            IPv4Field::SrcIpAddr => self.src_ip_addr is Some,
            IPv4Field::DstIpAddr => self.dst_ip_addr is Some,
        }
    }

    /// Whether what the query wants of the field `f`, if anything, is what
    /// `h` has there.
    pub open spec fn met(&self, f: IPv4Field, h: IPv4Hdr) -> bool {
        match f {
            IPv4Field::Ver => number_met(self.ver, h.ver.value()),
            IPv4Field::Ihl => number_met(self.ihl, h.ihl.value()),
            IPv4Field::Tos => number_met(self.tos, h.tos.value()),
            IPv4Field::TotalLen => number_met(self.total_len, h.total_len.value()),
            IPv4Field::Id => number_met(self.id, h.id.value()),
            IPv4Field::Flags => number_met(self.flags, h.flags.value()),
            IPv4Field::FragOffset => number_met(self.frag_offset, h.frag_offset.value()),
            IPv4Field::Ttl => number_met(self.ttl, h.ttl.value()),
            IPv4Field::Proto => number_met(self.proto, h.proto.value()),
            IPv4Field::HdrChecksum => number_met(self.hdr_checksum, h.hdr_checksum.value()),
            IPv4Field::SrcIpAddr => address_met(self.src_ip_addr, h.src_ip_addr),
            IPv4Field::DstIpAddr => address_met(self.dst_ip_addr, h.dst_ip_addr),
        }
    }

    /// Whether the header meets the query: every field that the query
    /// wants has the wanted value.
    pub open spec fn matches(&self, h: IPv4Hdr) -> bool {
        &&& self.met(IPv4Field::Ver, h)
        &&& self.met(IPv4Field::Ihl, h)
        &&& self.met(IPv4Field::Tos, h)
        &&& self.met(IPv4Field::TotalLen, h)
        &&& self.met(IPv4Field::Id, h)
        &&& self.met(IPv4Field::Flags, h)
        &&& self.met(IPv4Field::FragOffset, h)
        &&& self.met(IPv4Field::Ttl, h)
        &&& self.met(IPv4Field::Proto, h)
        &&& self.met(IPv4Field::HdrChecksum, h)
        &&& self.met(IPv4Field::SrcIpAddr, h)
        &&& self.met(IPv4Field::DstIpAddr, h)
    }

    /// Whether the frame meets the query: it has an IPv4 header at the
    /// network layer, and that header meets the query.
    pub open spec fn matches_frame(&self, headers: Map<u8, Proto>) -> bool {
        ipv4_of(headers) matches Some(h) && self.matches(h)
    }

    /// Whether two queries want the same of every field.
    pub open spec fn same(&self, other: &IPv4Query) -> bool {
        &&& same_number(self.ver, other.ver)
        &&& same_number(self.ihl, other.ihl)
        &&& same_number(self.tos, other.tos)
        &&& same_number(self.total_len, other.total_len)
        &&& same_number(self.id, other.id)
        &&& same_number(self.flags, other.flags)
        &&& same_number(self.frag_offset, other.frag_offset)
        &&& same_number(self.ttl, other.ttl)
        &&& same_number(self.proto, other.proto)
        &&& same_number(self.hdr_checksum, other.hdr_checksum)
        &&& same_address(self.src_ip_addr, other.src_ip_addr)
        &&& same_address(self.dst_ip_addr, other.dst_ip_addr)
    }

    /// The query that anything meets.
    pub fn new() -> (q: Self)
        ensures
            forall|f: IPv4Field| !q.is_set(f),
    {
        Self {
            ver: None,
            ihl: None,
            tos: None,
            total_len: None,
            id: None,
            flags: None,
            frag_offset: None,
            ttl: None,
            proto: None,
            hdr_checksum: None,
            src_ip_addr: None,
            dst_ip_addr: None,
        }
    }

    /// The query for fresh headers: version 4, a header of five words, a
    /// time to live of 64, zeros elsewhere, and the given addresses and
    /// protocol number as far as they are given.
    ///
    /// `ParseError` when a given text is not an IPv4 address.
    pub fn from(src_addr: Option<&str>, dst_addr: Option<&str>, proto: Option<u8>) -> (r: Result<
        Self,
        PaError,
    >)
        ensures
            r is Ok <==> wanted_ip(src_addr) is Some && wanted_ip(dst_addr) is Some,
            r matches Ok(q) ==> {
                &&& wants(q.ver, 4, 4)
                &&& wants(q.ihl, 5, 4)
                &&& wants(q.tos, 0, 8)
                &&& wants(q.total_len, 0, 16)
                &&& wants(q.id, 0, 16)
                &&& wants(q.flags, 0, 3)
                &&& wants(q.frag_offset, 0, 13)
                &&& wants(q.ttl, 64, 8)
                &&& match proto {
                    Some(p) => wants(q.proto, p as nat, 8),
                    None => q.proto is None,
                }
                &&& wants(q.hdr_checksum, 0, 16)
                &&& is_wanted(q.src_ip_addr, wanted_ip(src_addr).unwrap())
                &&& is_wanted(q.dst_ip_addr, wanted_ip(dst_addr).unwrap())
            },
            r matches Err(e) ==> e.err_type == ErrorType::ParseError,
    {
        let src_ip = match src_addr {
            None => None,
            Some(text) => Some(parse_ip(text)?),
        };
        let dst_ip = match dst_addr {
            None => None,
            Some(text) => Some(parse_ip(text)?),
        };
        let pro = match proto {
            None => None,
            Some(p) => Some(Bits::from_u8(p)),
        };
        let fresh = IPv4Hdr::fresh([0;4], [0;4], 0);
        Ok(
            Self {
                ver: Some(fresh.ver),
                ihl: Some(fresh.ihl),
                tos: Some(fresh.tos),
                total_len: Some(fresh.total_len),
                id: Some(fresh.id),
                flags: Some(fresh.flags),
                frag_offset: Some(fresh.frag_offset),
                ttl: Some(fresh.ttl),
                proto: pro,
                hdr_checksum: Some(fresh.hdr_checksum),
                src_ip_addr: src_ip,
                dst_ip_addr: dst_ip,
            },
        )
    }

    /// Whether the frame meets the query.
    pub fn matches_pdu(&self, pdu: &Pdu) -> (r: bool)
        ensures
            r == self.matches_frame(pdu.headers@),
    {
        match pdu.headers.get(&NETWORK) {
            Some(Proto::IPv4(hdr)) => *self == *hdr,
            _ => false,
        }
    }

    /// The query that wants nothing is met by every header.
    pub proof fn lemma_wildcard(q: IPv4Query, h: IPv4Hdr)
        requires
            forall|f: IPv4Field| !q.is_set(f),
        ensures
            q.matches(h),
    {
        assert forall|g: IPv4Field| q.met(g, h) by {
            assert(!q.is_set(g));
        }
    }

    /// A query that wants one field only is met by every header that has
    /// the wanted value in that field, whatever its other fields hold.
    pub proof fn lemma_single_field(q: IPv4Query, h: IPv4Hdr, f: IPv4Field)
        requires
            q.is_set(f),
            forall|g: IPv4Field| g != f ==> !q.is_set(g),
            q.met(f, h),
        ensures
            q.matches(h),
    {
        assert forall|g: IPv4Field| q.met(g, h) by {
            if g != f {
                assert(!q.is_set(g));
            }
        }
    }

    /// A header meets a query exactly when it meets it field by field.
    pub proof fn lemma_matches_by_field(q: IPv4Query, h: IPv4Hdr)
        ensures
            q.matches(h) <==> forall|f: IPv4Field| q.met(f, h),
    {
    }
}

impl PartialEq<IPv4Hdr> for IPv4Query {
    fn eq(&self, rhs: &IPv4Hdr) -> (r: bool) {
        check_number(&self.ver, rhs.ver.to_value()) && check_number(&self.ihl, rhs.ihl.to_value())
            && check_number(&self.tos, rhs.tos.to_value()) && check_number(
            &self.total_len,
            rhs.total_len.to_value(),
        ) && check_number(&self.id, rhs.id.to_value()) && check_number(
            &self.flags,
            rhs.flags.to_value(),
        ) && check_number(&self.frag_offset, rhs.frag_offset.to_value()) && check_number(
            &self.ttl,
            rhs.ttl.to_value(),
        ) && check_number(&self.proto, rhs.proto.to_value()) && check_number(
            &self.hdr_checksum,
            rhs.hdr_checksum.to_value(),
        ) && check_address(&self.src_ip_addr, &rhs.src_ip_addr) && check_address(
            &self.dst_ip_addr,
            &rhs.dst_ip_addr,
        )
    }
}

impl vstd::std_specs::cmp::PartialEqSpecImpl<IPv4Hdr> for IPv4Query {
    open spec fn obeys_eq_spec() -> bool {
        true
    }

    open spec fn eq_spec(&self, rhs: &IPv4Hdr) -> bool {
        self.matches(*rhs)
    }
}

impl PartialEq for IPv4Query {
    fn eq(&self, other: &IPv4Query) -> (r: bool) {
        equal_numbers(&self.ver, &other.ver) && equal_numbers(&self.ihl, &other.ihl)
            && equal_numbers(&self.tos, &other.tos) && equal_numbers(
            &self.total_len,
            &other.total_len,
        ) && equal_numbers(&self.id, &other.id) && equal_numbers(&self.flags, &other.flags)
            && equal_numbers(&self.frag_offset, &other.frag_offset) && equal_numbers(
            &self.ttl,
            &other.ttl,
        ) && equal_numbers(&self.proto, &other.proto) && equal_numbers(
            &self.hdr_checksum,
            &other.hdr_checksum,
        ) && equal_addresses(&self.src_ip_addr, &other.src_ip_addr) && equal_addresses(
            &self.dst_ip_addr,
            &other.dst_ip_addr,
        )
    }
}

impl vstd::std_specs::cmp::PartialEqSpecImpl for IPv4Query {
    open spec fn obeys_eq_spec() -> bool {
        true
    }

    open spec fn eq_spec(&self, other: &IPv4Query) -> bool {
        self.same(other)
    }
}

} // verus!
