//! The ARP header: 28 bytes on the wire.

use crate::dstructs::bits::{bits_of, bits_value, lemma_bits_of_len, lemma_decode_encode, Bits};
use crate::dstructs::packet::{
    bits_bytes, bytes_bits, lemma_bytes_bits_len, lemma_bytes_roundtrip, Packet,
};
use crate::error::{ErrorType, PaError};
use crate::hdr::eth::{ip_array, ip_from, mac_array, mac_from};
use crate::hdr::traits::Hdr;
use crate::proto::Proto;
use crate::utility::{ip_of_text, mac_of_text, parse_ip, parse_mac, same_bytes};
use vstd::arithmetic::power2::lemma2_to64;
use vstd::prelude::*;

verus! {

/// The operation code of an ARP request.
pub const REQ: u16 = 1;

/// The operation code of an ARP reply.
pub const REP: u16 = 2;

/// An ARP header for Ethernet and IPv4 addresses.
#[derive(Debug, Clone, Copy)]
pub struct ArpHdr {
    pub hw_type: u16,
    pub proto_type: u16,
    pub hw_addr_len: u8,
    pub proto_addr_len: u8,
    pub opr: u16,
    pub src_hw_addr: [u8; 6],
    pub src_proto_addr: [u8; 4],
    pub dst_hw_addr: [u8; 6],
    pub dst_proto_addr: [u8; 4],
}

impl ArpHdr {
    /// The header with every field zero.
    pub fn new() -> (h: Self)
        ensures
            h.hw_type == 0,
            h.proto_type == 0,
            h.hw_addr_len == 0,
            h.proto_addr_len == 0,
            h.opr == 0,
            h.src_hw_addr@ == Seq::new(6, |i: int| 0u8),
            h.src_proto_addr@ == Seq::new(4, |i: int| 0u8),
            h.dst_hw_addr@ == Seq::new(6, |i: int| 0u8),
            h.dst_proto_addr@ == Seq::new(4, |i: int| 0u8),
    {
        let h = Self {
            hw_type: 0,
            proto_type: 0,
            hw_addr_len: 0,
            proto_addr_len: 0,
            opr: 0,
            src_hw_addr: [0;6],
            src_proto_addr: [0;4],
            dst_hw_addr: [0;6],
            dst_proto_addr: [0;4],
        };
        assert(h.src_hw_addr@ =~= Seq::new(6, |i: int| 0u8));
        assert(h.src_proto_addr@ =~= Seq::new(4, |i: int| 0u8));
        assert(h.dst_hw_addr@ =~= Seq::new(6, |i: int| 0u8));
        assert(h.dst_proto_addr@ =~= Seq::new(4, |i: int| 0u8));
        h
    }

    /// A request that asks, for the sender with the given addresses, after
    /// the receiver with the given addresses: Ethernet hardware (type 1,
    /// six bytes), IPv4 protocol (type `0x0800`, four bytes).
    ///
    /// `ParseError` when one of the four texts is not an address of its
    /// kind.
    pub fn from(sender_mac: &str, sender_ip: &str, receiver_mac: &str, receiver_ip: &str) -> (r:
        Result<Self, PaError>)
        ensures
            r is Ok <==> mac_of_text(sender_mac@) is Some && ip_of_text(sender_ip@) is Some
                && mac_of_text(receiver_mac@) is Some && ip_of_text(receiver_ip@) is Some,
            r matches Ok(h) ==> h.hw_type == 1 && h.proto_type == 0x0800 && h.hw_addr_len == 6
                && h.proto_addr_len == 4 && h.opr == REQ && h.src_hw_addr@ == mac_of_text(
                sender_mac@,
            ).unwrap() && h.src_proto_addr@ == ip_of_text(sender_ip@).unwrap() && h.dst_hw_addr@
                == mac_of_text(receiver_mac@).unwrap() && h.dst_proto_addr@ == ip_of_text(
                receiver_ip@,
            ).unwrap(),
            r matches Err(e) ==> e.err_type == ErrorType::ParseError,
    {
        let src_ip = parse_ip(sender_ip)?;
        let dst_ip = parse_ip(receiver_ip)?;
        let src_mac = parse_mac(sender_mac)?;
        let dst_mac = parse_mac(receiver_mac)?;
        Ok(
            Self {
                hw_type: 1,
                proto_type: 0x0800,
                hw_addr_len: 6,
                proto_addr_len: 4,
                opr: REQ,
                src_hw_addr: src_mac,
                src_proto_addr: src_ip,
                dst_hw_addr: dst_mac,
                dst_proto_addr: dst_ip,
            },
        )
    }

    /// Makes the header a reply: the operation code becomes 2, nothing
    /// else changes.
    pub fn set_arp_reply(&mut self)
        ensures
            *final(self) == (ArpHdr { opr: REP, ..*old(self) }),
    {
        self.opr = REP;
    }

    /// An ARP header takes 224 bits on the wire, and reading them back
    /// gives the header, field for field.
    pub proof fn lemma_parse_create(h: ArpHdr)
        ensures
            h.wire().len() == ArpHdr::wire_len(),
            ArpHdr::parsed(h.wire()) == h,
    {
        let w = h.wire();
        lemma2_to64();
        lemma_bits_of_len(h.hw_type as nat, 16);
        lemma_bits_of_len(h.proto_type as nat, 16);
        lemma_bits_of_len(h.hw_addr_len as nat, 8);
        lemma_bits_of_len(h.proto_addr_len as nat, 8);
        lemma_bits_of_len(h.opr as nat, 16);
        lemma_bytes_bits_len(h.src_hw_addr@);
        lemma_bytes_bits_len(h.src_proto_addr@);
        lemma_bytes_bits_len(h.dst_hw_addr@);
        lemma_bytes_bits_len(h.dst_proto_addr@);
        assert(w.subrange(0, 16) =~= bits_of(h.hw_type as nat, 16));
        assert(w.subrange(16, 32) =~= bits_of(h.proto_type as nat, 16));
        assert(w.subrange(32, 40) =~= bits_of(h.hw_addr_len as nat, 8));
        assert(w.subrange(40, 48) =~= bits_of(h.proto_addr_len as nat, 8));
        assert(w.subrange(48, 64) =~= bits_of(h.opr as nat, 16));
        assert(w.subrange(64, 112) =~= bytes_bits(h.src_hw_addr@));
        assert(w.subrange(112, 144) =~= bytes_bits(h.src_proto_addr@));
        assert(w.subrange(144, 192) =~= bytes_bits(h.dst_hw_addr@));
        assert(w.subrange(192, 224) =~= bytes_bits(h.dst_proto_addr@));
        lemma_decode_encode(h.hw_type as nat, 16);
        lemma_decode_encode(h.proto_type as nat, 16);
        lemma_decode_encode(h.hw_addr_len as nat, 8);
        lemma_decode_encode(h.proto_addr_len as nat, 8);
        lemma_decode_encode(h.opr as nat, 16);
        lemma_bytes_roundtrip(h.src_hw_addr@);
        lemma_bytes_roundtrip(h.src_proto_addr@);
        lemma_bytes_roundtrip(h.dst_hw_addr@);
        lemma_bytes_roundtrip(h.dst_proto_addr@);
        let p = ArpHdr::parsed(w);
        assert(p.src_hw_addr =~= h.src_hw_addr);
        assert(p.src_proto_addr =~= h.src_proto_addr);
        assert(p.dst_hw_addr =~= h.dst_hw_addr);
        assert(p.dst_proto_addr =~= h.dst_proto_addr);
    }
}

impl ArpHdr {
    /// Only the first 224 bits are read: what follows them changes
    /// nothing.
    pub proof fn lemma_parse_prefix(bits: Seq<bool>, n: int)
        requires
            224 <= n <= bits.len(),
        ensures
            ArpHdr::parsed(bits.subrange(0, n)) == ArpHdr::parsed(bits),
    {
        let front = bits.subrange(0, n);
        assert(front.subrange(0, 16) =~= bits.subrange(0, 16));
        assert(front.subrange(16, 32) =~= bits.subrange(16, 32));
        assert(front.subrange(32, 40) =~= bits.subrange(32, 40));
        assert(front.subrange(40, 48) =~= bits.subrange(40, 48));
        assert(front.subrange(48, 64) =~= bits.subrange(48, 64));
        assert(front.subrange(64, 112) =~= bits.subrange(64, 112));
        assert(front.subrange(112, 144) =~= bits.subrange(112, 144));
        assert(front.subrange(144, 192) =~= bits.subrange(144, 192));
        assert(front.subrange(192, 224) =~= bits.subrange(192, 224));
    }
}

impl PartialEq for ArpHdr {
    fn eq(&self, other: &Self) -> (r: bool) {
        self.hw_type == other.hw_type && self.proto_type == other.proto_type && self.hw_addr_len
            == other.hw_addr_len && self.proto_addr_len == other.proto_addr_len && self.opr
            == other.opr && same_bytes(self.src_hw_addr.as_slice(), other.src_hw_addr.as_slice())
            && same_bytes(self.src_proto_addr.as_slice(), other.src_proto_addr.as_slice())
            && same_bytes(self.dst_hw_addr.as_slice(), other.dst_hw_addr.as_slice()) && same_bytes(
            self.dst_proto_addr.as_slice(),
            other.dst_proto_addr.as_slice(),
        )
    }
}

impl vstd::std_specs::cmp::PartialEqSpecImpl for ArpHdr {
    open spec fn obeys_eq_spec() -> bool {
        true
    }

    open spec fn eq_spec(&self, other: &Self) -> bool {
        self.hw_type == other.hw_type && self.proto_type == other.proto_type && self.hw_addr_len
            == other.hw_addr_len && self.proto_addr_len == other.proto_addr_len && self.opr
            == other.opr && self.src_hw_addr@ == other.src_hw_addr@ && self.src_proto_addr@
            == other.src_proto_addr@ && self.dst_hw_addr@ == other.dst_hw_addr@
            && self.dst_proto_addr@ == other.dst_proto_addr@
    }
}

impl Hdr for ArpHdr {
    open spec fn wire(&self) -> Seq<bool> {
        bits_of(self.hw_type as nat, 16) + bits_of(self.proto_type as nat, 16) + bits_of(
            self.hw_addr_len as nat,
            8,
        ) + bits_of(self.proto_addr_len as nat, 8) + bits_of(self.opr as nat, 16) + bytes_bits(
            self.src_hw_addr@,
        ) + bytes_bits(self.src_proto_addr@) + bytes_bits(self.dst_hw_addr@) + bytes_bits(
            self.dst_proto_addr@,
        )
    }

    open spec fn wire_len() -> nat {
        224
    }

    open spec fn parsed(bits: Seq<bool>) -> Self {
        ArpHdr {
            hw_type: bits_value(bits.subrange(0, 16)) as u16,
            proto_type: bits_value(bits.subrange(16, 32)) as u16,
            hw_addr_len: bits_value(bits.subrange(32, 40)) as u8,
            proto_addr_len: bits_value(bits.subrange(40, 48)) as u8,
            opr: bits_value(bits.subrange(48, 64)) as u16,
            src_hw_addr: mac_array(bits_bytes(bits.subrange(64, 112))),
            src_proto_addr: ip_array(bits_bytes(bits.subrange(112, 144))),
            dst_hw_addr: mac_array(bits_bytes(bits.subrange(144, 192))),
            dst_proto_addr: ip_array(bits_bytes(bits.subrange(192, 224))),
        }
    }

    open spec fn tagged(&self) -> Proto {
        Proto::Arp(*self)
    }

    fn create(&self) -> (r: Result<Packet, PaError>) {
        let mut packet_data = Packet::new();
        packet_data.append(&Bits::from_u16(self.hw_type));
        packet_data.append(&Bits::from_u16(self.proto_type));
        packet_data.push(self.hw_addr_len);
        packet_data.push(self.proto_addr_len);
        packet_data.append(&Bits::from_u16(self.opr));
        packet_data.push_all(self.src_hw_addr.as_slice());
        packet_data.push_all(self.src_proto_addr.as_slice());
        packet_data.push_all(self.dst_hw_addr.as_slice());
        packet_data.push_all(self.dst_proto_addr.as_slice());
        assert(packet_data@ =~= self.wire());
        Ok(packet_data)
    }

    fn parse(bytes: Packet) -> (h: Self) {
        proof {
            lemma2_to64();
        }
        let src_hw = bytes.read_bytes(64, 112);
        let src_proto = bytes.read_bytes(112, 144);
        let dst_hw = bytes.read_bytes(144, 192);
        let dst_proto = bytes.read_bytes(192, 224);
        Self {
            hw_type: bytes.get_field(0, 16).to_value() as u16,
            proto_type: bytes.get_field(16, 32).to_value() as u16,
            hw_addr_len: bytes.get_field(32, 40).to_value() as u8,
            proto_addr_len: bytes.get_field(40, 48).to_value() as u8,
            opr: bytes.get_field(48, 64).to_value() as u16,
            src_hw_addr: mac_from(&src_hw),
            src_proto_addr: ip_from(&src_proto),
            dst_hw_addr: mac_from(&dst_hw),
            dst_proto_addr: ip_from(&dst_proto),
        }
    }

    fn get(&self) -> (p: Proto) {
        Proto::Arp(*self)
    }
}

} // verus!
