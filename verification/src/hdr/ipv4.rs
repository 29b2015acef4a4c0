//! The IPv4 header without options: 20 bytes on the wire.

use crate::dstructs::bits::{bits_value, lemma_bits_of_len, lemma_min_bits_fits, Bits};
use crate::dstructs::packet::{
    bits_bytes, bytes_bits, lemma_bytes_bits_len, lemma_bytes_roundtrip, Packet,
};
use crate::error::{ErrorType, PaError};
use crate::hdr::eth::{frame, frame_of, ip_array, ip_from};
use crate::hdr::traits::Hdr;
use crate::proto::Proto;
use crate::utility::{ip_of_text, parse_ip, same_bytes};
use vstd::arithmetic::power2::{lemma2_to64, pow2};
use vstd::prelude::*;

verus! {

/// An IPv4 header.
///
/// The sixteen bits after the identification are split as the Internet
/// Protocol defines them: three bits of flags, then thirteen bits of
/// fragment offset.
#[derive(Debug, Clone, Copy)]
pub struct IPv4Hdr {
    pub ver: Bits,
    pub ihl: Bits,
    pub tos: Bits,
    pub total_len: Bits,
    pub id: Bits,
    pub flags: Bits,
    pub frag_offset: Bits,
    pub ttl: Bits,
    pub proto: Bits,
    pub hdr_checksum: Bits,
    pub src_ip_addr: [u8; 4],
    pub dst_ip_addr: [u8; 4],
}

/// The field of the given width that holds a value known to fit it.
fn field(value: u64, width: u8) -> (b: Bits)
    requires
        width >= 1,
        value < pow2(width as nat),
    ensures
        b.width() == width,
        b.value() == value,
        b.wf(),
{
    proof {
        lemma_min_bits_fits(value as nat, width as nat);
    }
    Bits::from(value, width).unwrap()
}

impl IPv4Hdr {
    /// Whether every field has the width that the protocol gives it.
    pub open spec fn wf(&self) -> bool {
        &&& self.ver.wf() && self.ver.width() == 4
        &&& self.ihl.wf() && self.ihl.width() == 4
        &&& self.tos.wf() && self.tos.width() == 8
        &&& self.total_len.wf() && self.total_len.width() == 16
        &&& self.id.wf() && self.id.width() == 16
        &&& self.flags.wf() && self.flags.width() == 3
        &&& self.frag_offset.wf() && self.frag_offset.width() == 13
        &&& self.ttl.wf() && self.ttl.width() == 8
        &&& self.proto.wf() && self.proto.width() == 8
        &&& self.hdr_checksum.wf() && self.hdr_checksum.width() == 16
    }

    /// Whether the header is the one that a fresh packet from `src` to
    /// `dst` with protocol number `proto` starts from: version 4, a header
    /// of five words, a time to live of 64, everything else zero.
    pub open spec fn is_fresh(&self, src: Seq<u8>, dst: Seq<u8>, proto: u8) -> bool {
        &&& self.wf()
        &&& self.ver.value() == 4
        &&& self.ihl.value() == 5
        &&& self.tos.value() == 0
        &&& self.total_len.value() == 0
        &&& self.id.value() == 0
        &&& self.flags.value() == 0
        &&& self.frag_offset.value() == 0
        &&& self.ttl.value() == 64
        &&& self.proto.value() == proto
        &&& self.hdr_checksum.value() == 0
        &&& self.src_ip_addr@ == src
        &&& self.dst_ip_addr@ == dst
    }

    /// The fresh header between two zero addresses, with protocol number
    /// zero.
    pub fn new() -> (h: Self)
        ensures
            h.is_fresh(Seq::new(4, |i: int| 0u8), Seq::new(4, |i: int| 0u8), 0),
    {
        let h = Self::fresh([0;4], [0;4], 0);
        assert(h.src_ip_addr@ =~= Seq::new(4, |i: int| 0u8));
        assert(h.dst_ip_addr@ =~= Seq::new(4, |i: int| 0u8));
        h
    }

    /// The fresh header from `src_addr` to `dst_addr` with protocol number
    /// `proto`; each address is four decimal octets with dots between.
    ///
    /// `ParseError` when either text is not such an address.
    pub fn from(src_addr: &str, dst_addr: &str, proto: u8) -> (r: Result<Self, PaError>)
        ensures
            r is Ok <==> ip_of_text(src_addr@) is Some && ip_of_text(dst_addr@) is Some,
            r matches Ok(h) ==> h.is_fresh(
                ip_of_text(src_addr@).unwrap(),
                ip_of_text(dst_addr@).unwrap(),
                proto,
            ),
            r matches Err(e) ==> e.err_type == ErrorType::ParseError,
    {
        let src = parse_ip(src_addr)?;
        let dst = parse_ip(dst_addr)?;
        Ok(Self::fresh(src, dst, proto))
    }

    /// The fresh header between two addresses.
    pub fn fresh(src: [u8; 4], dst: [u8; 4], proto: u8) -> (h: Self)
        ensures
            h.is_fresh(src@, dst@, proto),
    {
        proof {
            lemma2_to64();
        }
        Self {
            ver: field(4, 4),
            ihl: field(5, 4),
            tos: field(0, 8),
            total_len: field(0, 16),
            id: field(0, 16),
            flags: field(0, 3),
            frag_offset: field(0, 13),
            ttl: field(64, 8),
            proto: Bits::from_u8(proto),
            hdr_checksum: field(0, 16),
            src_ip_addr: src,
            dst_ip_addr: dst,
        }
    }

    /// The largest size of an IPv4 packet: 65535 bytes.
    pub fn length(&self) -> (n: usize)
        ensures
            n == 65535,
    {
        65535
    }

    /// The packet that carries `data` behind this header: the bytes of the
    /// header, the bytes of `data`, and zeros up to 65535 bytes.
    ///
    /// `AlignmentError` when the header or `data` is not a whole number of
    /// bytes on the wire; otherwise `ConstructError` when the two together
    /// are longer than 65535 bytes.
    pub fn encapsulate<H: Hdr>(&self, data: H) -> (r: Result<Vec<u8>, PaError>)
        ensures
            r is Ok <==> self.wire().len() % 8 == 0 && data.wire().len() % 8 == 0
                && self.wire().len() / 8 + data.wire().len() / 8 <= 65535,
            r matches Ok(bytes) ==> bytes@ == frame_of(self.wire(), data.wire(), 65535)
                && bytes@.len() == 65535,
            r matches Err(e) ==> e.err_type == if self.wire().len() % 8 != 0 || data.wire().len()
                % 8 != 0 {
                ErrorType::AlignmentError
            } else {
                ErrorType::ConstructError
            },
    {
        let head = self.create().unwrap();
        let payload = data.create().unwrap();
        frame(head, payload, self.length())
    }

    /// A well-formed header takes 160 bits on the wire, and reading them
    /// back gives the header, field for field.
    pub proof fn lemma_parse_create(h: IPv4Hdr)
        requires
            h.wf(),
        ensures
            h.wire().len() == IPv4Hdr::wire_len(),
            IPv4Hdr::parsed(h.wire()) == h,
    {
        let w = h.wire();
        lemma_bits_of_len(h.ver.value(), 4);
        lemma_bits_of_len(h.ihl.value(), 4);
        lemma_bits_of_len(h.tos.value(), 8);
        lemma_bits_of_len(h.total_len.value(), 16);
        lemma_bits_of_len(h.id.value(), 16);
        lemma_bits_of_len(h.flags.value(), 3);
        lemma_bits_of_len(h.frag_offset.value(), 13);
        lemma_bits_of_len(h.ttl.value(), 8);
        lemma_bits_of_len(h.proto.value(), 8);
        lemma_bits_of_len(h.hdr_checksum.value(), 16);
        lemma_bytes_bits_len(h.src_ip_addr@);
        lemma_bytes_bits_len(h.dst_ip_addr@);
        assert(w.subrange(0, 4) =~= h.ver.bits());
        assert(w.subrange(4, 8) =~= h.ihl.bits());
        assert(w.subrange(8, 16) =~= h.tos.bits());
        assert(w.subrange(16, 32) =~= h.total_len.bits());
        assert(w.subrange(32, 48) =~= h.id.bits());
        assert(w.subrange(48, 51) =~= h.flags.bits());
        assert(w.subrange(51, 64) =~= h.frag_offset.bits());
        assert(w.subrange(64, 72) =~= h.ttl.bits());
        assert(w.subrange(72, 80) =~= h.proto.bits());
        assert(w.subrange(80, 96) =~= h.hdr_checksum.bits());
        assert(w.subrange(96, 128) =~= bytes_bits(h.src_ip_addr@));
        assert(w.subrange(128, 160) =~= bytes_bits(h.dst_ip_addr@));
        Bits::lemma_roundtrip(h.ver);
        Bits::lemma_roundtrip(h.ihl);
        Bits::lemma_roundtrip(h.tos);
        Bits::lemma_roundtrip(h.total_len);
        Bits::lemma_roundtrip(h.id);
        Bits::lemma_roundtrip(h.flags);
        Bits::lemma_roundtrip(h.frag_offset);
        Bits::lemma_roundtrip(h.ttl);
        Bits::lemma_roundtrip(h.proto);
        Bits::lemma_roundtrip(h.hdr_checksum);
        lemma_bytes_roundtrip(h.src_ip_addr@);
        lemma_bytes_roundtrip(h.dst_ip_addr@);
        let p = IPv4Hdr::parsed(w);
        assert(p.src_ip_addr =~= h.src_ip_addr);
        assert(p.dst_ip_addr =~= h.dst_ip_addr);
    }
}

impl IPv4Hdr {
    /// Only the first 160 bits are read: what follows them changes
    /// nothing.
    pub proof fn lemma_parse_prefix(bits: Seq<bool>, n: int)
        requires
            160 <= n <= bits.len(),
        ensures
            IPv4Hdr::parsed(bits.subrange(0, n)) == IPv4Hdr::parsed(bits),
    {
        let front = bits.subrange(0, n);
        assert(front.subrange(0, 4) =~= bits.subrange(0, 4));
        assert(front.subrange(4, 8) =~= bits.subrange(4, 8));
        assert(front.subrange(8, 16) =~= bits.subrange(8, 16));
        assert(front.subrange(16, 32) =~= bits.subrange(16, 32));
        assert(front.subrange(32, 48) =~= bits.subrange(32, 48));
        assert(front.subrange(48, 51) =~= bits.subrange(48, 51));
        assert(front.subrange(51, 64) =~= bits.subrange(51, 64));
        assert(front.subrange(64, 72) =~= bits.subrange(64, 72));
        assert(front.subrange(72, 80) =~= bits.subrange(72, 80));
        assert(front.subrange(80, 96) =~= bits.subrange(80, 96));
        assert(front.subrange(96, 128) =~= bits.subrange(96, 128));
        assert(front.subrange(128, 160) =~= bits.subrange(128, 160));
    }
}

impl PartialEq for IPv4Hdr {
    fn eq(&self, other: &Self) -> (r: bool) {
        self.ver == other.ver && self.ihl == other.ihl && self.tos == other.tos && self.total_len
            == other.total_len && self.id == other.id && self.flags == other.flags
            && self.frag_offset == other.frag_offset && self.ttl == other.ttl && self.proto
            == other.proto && self.hdr_checksum == other.hdr_checksum && same_bytes(
            self.src_ip_addr.as_slice(),
            other.src_ip_addr.as_slice(),
        ) && same_bytes(self.dst_ip_addr.as_slice(), other.dst_ip_addr.as_slice())
    }
}

impl vstd::std_specs::cmp::PartialEqSpecImpl for IPv4Hdr {
    open spec fn obeys_eq_spec() -> bool {
        true
    }

    open spec fn eq_spec(&self, other: &Self) -> bool {
        self.ver.value() == other.ver.value() && self.ihl.value() == other.ihl.value()
            && self.tos.value() == other.tos.value() && self.total_len.value()
            == other.total_len.value() && self.id.value() == other.id.value()
            && self.flags.value() == other.flags.value() && self.frag_offset.value()
            == other.frag_offset.value() && self.ttl.value() == other.ttl.value()
            && self.proto.value() == other.proto.value() && self.hdr_checksum.value()
            == other.hdr_checksum.value() && self.src_ip_addr@ == other.src_ip_addr@
            && self.dst_ip_addr@ == other.dst_ip_addr@
    }
}

impl Hdr for IPv4Hdr {
    open spec fn wire(&self) -> Seq<bool> {
        self.ver.bits() + self.ihl.bits() + self.tos.bits() + self.total_len.bits()
            + self.id.bits() + self.flags.bits() + self.frag_offset.bits() + self.ttl.bits()
            + self.proto.bits() + self.hdr_checksum.bits() + bytes_bits(self.src_ip_addr@)
            + bytes_bits(self.dst_ip_addr@)
    }

    open spec fn wire_len() -> nat {
        160
    }

    open spec fn parsed(bits: Seq<bool>) -> Self {
        IPv4Hdr {
            ver: Bits::of(bits_value(bits.subrange(0, 4)), 4),
            ihl: Bits::of(bits_value(bits.subrange(4, 8)), 4),
            tos: Bits::of(bits_value(bits.subrange(8, 16)), 8),
            total_len: Bits::of(bits_value(bits.subrange(16, 32)), 16),
            id: Bits::of(bits_value(bits.subrange(32, 48)), 16),
            flags: Bits::of(bits_value(bits.subrange(48, 51)), 3),
            frag_offset: Bits::of(bits_value(bits.subrange(51, 64)), 13),
            ttl: Bits::of(bits_value(bits.subrange(64, 72)), 8),
            proto: Bits::of(bits_value(bits.subrange(72, 80)), 8),
            hdr_checksum: Bits::of(bits_value(bits.subrange(80, 96)), 16),
            src_ip_addr: ip_array(bits_bytes(bits.subrange(96, 128))),
            dst_ip_addr: ip_array(bits_bytes(bits.subrange(128, 160))),
        }
    }

    open spec fn tagged(&self) -> Proto {
        Proto::IPv4(*self)
    }

    fn create(&self) -> (r: Result<Packet, PaError>) {
        let mut packet_data = Packet::new();
        packet_data.append(&self.ver);
        packet_data.append(&self.ihl);
        packet_data.append(&self.tos);
        packet_data.append(&self.total_len);
        packet_data.append(&self.id);
        packet_data.append(&self.flags);
        packet_data.append(&self.frag_offset);
        packet_data.append(&self.ttl);
        packet_data.append(&self.proto);
        packet_data.append(&self.hdr_checksum);
        packet_data.push_all(self.src_ip_addr.as_slice());
        packet_data.push_all(self.dst_ip_addr.as_slice());
        assert(packet_data@ =~= self.wire());
        Ok(packet_data)
    }

    fn parse(bytes: Packet) -> (h: Self)
        ensures
            h.wf(),
    {
        let src_ip = bytes.read_bytes(96, 128);
        let dst_ip = bytes.read_bytes(128, 160);
        Self {
            ver: bytes.get_field(0, 4),
            ihl: bytes.get_field(4, 8),
            tos: bytes.get_field(8, 16),
            total_len: bytes.get_field(16, 32),
            id: bytes.get_field(32, 48),
            flags: bytes.get_field(48, 51),
            frag_offset: bytes.get_field(51, 64),
            ttl: bytes.get_field(64, 72),
            proto: bytes.get_field(72, 80),
            hdr_checksum: bytes.get_field(80, 96),
            src_ip_addr: ip_from(&src_ip),
            dst_ip_addr: ip_from(&dst_ip),
        }
    }

    fn get(&self) -> (p: Proto) {
        Proto::IPv4(*self)
    }
}

} // verus!
