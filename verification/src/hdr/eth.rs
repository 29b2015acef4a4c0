//! The Ethernet header: 14 bytes on the wire, in frames of 60 bytes.

use crate::dstructs::bits::{bits_value, lemma_bits_of_len, Bits};
use crate::dstructs::packet::{
    bits_bytes, bytes_bits, lemma_bits_roundtrip, lemma_bytes_bits_concat, lemma_bytes_bits_len,
    lemma_bytes_roundtrip, Packet,
};
use crate::error::{ErrorType, PaError};
use crate::hdr::traits::Hdr;
use crate::proto::{EthType, Proto};
use crate::utility::{
    count_groups, ethtype_of, from_ethtype, mac_of_text, parse_mac, same_bytes, split,
};
use vstd::prelude::*;

verus! {

/// The six bytes of a hardware address, taken from the front of `s`.
pub open spec fn mac_array(s: Seq<u8>) -> [u8; 6] {
    [s[0], s[1], s[2], s[3], s[4], s[5]]
}

/// The four bytes of a protocol address, taken from the front of `s`.
pub open spec fn ip_array(s: Seq<u8>) -> [u8; 4] {
    [s[0], s[1], s[2], s[3]]
}

/// The six bytes at the front of `bytes`, as a hardware address.
pub fn mac_from(bytes: &Vec<u8>) -> (a: [u8; 6])
    requires
        bytes@.len() >= 6,
    ensures
        a == mac_array(bytes@),
{
    let a = [bytes[0], bytes[1], bytes[2], bytes[3], bytes[4], bytes[5]];
    assert(a =~= mac_array(bytes@));
    a
}

/// The four bytes at the front of `bytes`, as a protocol address.
pub fn ip_from(bytes: &Vec<u8>) -> (a: [u8; 4])
    requires
        bytes@.len() >= 4,
    ensures
        a == ip_array(bytes@),
{
    let a = [bytes[0], bytes[1], bytes[2], bytes[3]];
    assert(a =~= ip_array(bytes@));
    a
}

/// The bytes of a frame: the header, then the payload, then zeros up to
/// `size` bytes.
pub open spec fn frame_of(head: Seq<bool>, payload: Seq<bool>, size: nat) -> Seq<u8> {
    let body = bits_bytes(head) + bits_bytes(payload);
    body + Seq::new((size - body.len()) as nat, |i: int| 0u8)
}

/// Where header and payload are whole bytes and fit the size, the frame is
/// `size` bytes long, its first bytes hold the bits of the header, and the
/// bytes behind them start with the bits of the payload.
pub proof fn lemma_frame_parts(head: Seq<bool>, payload: Seq<bool>, size: nat)
    requires
        head.len() % 8 == 0,
        payload.len() % 8 == 0,
        head.len() / 8 + payload.len() / 8 <= size,
    ensures
        frame_of(head, payload, size).len() == size,
        bytes_bits(frame_of(head, payload, size).subrange(0, (head.len() / 8) as int)) == head,
        bytes_bits(
            frame_of(head, payload, size).subrange((head.len() / 8) as int, size as int),
        ).subrange(0, payload.len() as int) == payload,
        bytes_bits(
            frame_of(head, payload, size).subrange((head.len() / 8) as int, size as int),
        ).len() >= payload.len(),
{
    let whole = frame_of(head, payload, size);
    let first = bits_bytes(head);
    let second = bits_bytes(payload);
    let zeros = Seq::new((size - first.len() - second.len()) as nat, |i: int| 0u8);
    assert(whole.subrange(0, first.len() as int) =~= first);
    assert(whole.subrange(first.len() as int, size as int) =~= second + zeros);
    lemma_bits_roundtrip(head);
    lemma_bits_roundtrip(payload);
    lemma_bytes_bits_concat(second, zeros);
    lemma_bytes_bits_len(second);
    assert((bytes_bits(second) + bytes_bits(zeros)).subrange(0, payload.len() as int)
        =~= payload);
}

/// The bytes of a header followed by those of its payload, padded with
/// zeros to `size` bytes.
///
/// `AlignmentError` when either part is not a whole number of bytes long;
/// otherwise `ConstructError` when the two together are longer than `size`.
pub fn frame(head: Packet, payload: Packet, size: usize) -> (r: Result<Vec<u8>, PaError>)
    ensures
        r is Ok <==> head@.len() % 8 == 0 && payload@.len() % 8 == 0 && head@.len() / 8
            + payload@.len() / 8 <= size,
        r matches Ok(bytes) ==> bytes@ == frame_of(head@, payload@, size as nat) && bytes@.len()
            == size,
        r matches Err(e) ==> e.err_type == if head@.len() % 8 != 0 || payload@.len() % 8 != 0 {
            ErrorType::AlignmentError
        } else {
            ErrorType::ConstructError
        },
{
    let head_bytes = match head.into_bytes() {
        Ok(bytes) => bytes,
        Err(e) => {
            return Err(e);
        },
    };
    let mut payload_bytes = match payload.into_bytes() {
        Ok(bytes) => bytes,
        Err(e) => {
            return Err(e);
        },
    };
    let mut encapsulated = head_bytes;
    if payload_bytes.len() > size || encapsulated.len() > size - payload_bytes.len() {
        return Err(PaError::new("Too much data in Packet", ErrorType::ConstructError));
    }
    encapsulated.append(&mut payload_bytes);
    let ghost body = encapsulated@;
    while encapsulated.len() < size
        invariant
            body.len() <= encapsulated@.len() <= size,
            encapsulated@ == body + Seq::new(
                (encapsulated@.len() - body.len()) as nat,
                |i: int| 0u8,
            ),
        decreases size - encapsulated@.len(),
    {
        encapsulated.push(0);
        assert(encapsulated@ =~= body + Seq::new(
            (encapsulated@.len() - body.len()) as nat,
            |i: int| 0u8,
        ));
    }
    Ok(encapsulated)
}

/// An Ethernet header.
#[derive(Debug, Clone, Copy)]
pub struct EthHdr {
    pub src_hw_addr: [u8; 6],
    pub dst_hw_addr: [u8; 6],
    pub eth_type: Bits,
}

impl EthHdr {
    /// Whether the header is one that the protocol defines: the EtherType
    /// is sixteen bits wide.
    pub open spec fn wf(&self) -> bool {
        self.eth_type.wf() && self.eth_type.width() == 16
    }

    /// The header with both addresses and the EtherType zero.
    pub fn new() -> (h: Self)
        ensures
            h.src_hw_addr@ == Seq::new(6, |i: int| 0u8),
            h.dst_hw_addr@ == Seq::new(6, |i: int| 0u8),
            h.eth_type.value() == 0,
            h.wf(),
    {
        let h = Self { src_hw_addr: [0;6], dst_hw_addr: [0;6], eth_type: Bits::new(16) };
        assert(h.src_hw_addr@ =~= Seq::new(6, |i: int| 0u8));
        assert(h.dst_hw_addr@ =~= Seq::new(6, |i: int| 0u8));
        h
    }
}

impl EthHdr {
    /// The header with the addresses that the two texts spell, each six
    /// two-digit hexadecimal octets with colons between.
    ///
    /// `ConstructError` when either text does not have six pieces between
    /// its colons; otherwise `ParseError` when a piece is not an octet.
    pub fn from(src_addr: &str, dst_addr: &str, eth_type: u16) -> (r: Result<Self, PaError>)
        ensures
            r is Ok <==> mac_of_text(src_addr@) is Some && mac_of_text(dst_addr@) is Some,
            r matches Ok(h) ==> h.src_hw_addr@ == mac_of_text(src_addr@).unwrap()
                && h.dst_hw_addr@ == mac_of_text(dst_addr@).unwrap() && h.eth_type.value()
                == eth_type && h.wf(),
            r matches Err(e) ==> e.err_type == if split(src_addr@, ':').len() != 6 || split(
                dst_addr@,
                ':',
            ).len() != 6 {
                ErrorType::ConstructError
            } else {
                ErrorType::ParseError
            },
    {
        if count_groups(src_addr, ':') != 6 || count_groups(dst_addr, ':') != 6 {
            return Err(
                PaError::new(
                    "Error in formatting address in Ethernet Header",
                    ErrorType::ConstructError,
                ),
            );
        }
        let src_hw_addr = match parse_mac(src_addr) {
            Ok(addr) => addr,
            Err(e) => {
                return Err(e);
            },
        };
        let dst_hw_addr = match parse_mac(dst_addr) {
            Ok(addr) => addr,
            Err(e) => {
                return Err(e);
            },
        };
        Ok(Self::from_raw(src_hw_addr, dst_hw_addr, eth_type))
    }

    /// The header with the given addresses and EtherType.
    pub fn from_raw(src_addr: [u8; 6], dst_addr: [u8; 6], eth_type: u16) -> (h: Self)
        ensures
            h.src_hw_addr == src_addr,
            h.dst_hw_addr == dst_addr,
            h.eth_type.width() == 16,
            h.eth_type.value() == eth_type,
            h.wf(),
    {
        Self { src_hw_addr: src_addr, dst_hw_addr: dst_addr, eth_type: Bits::from_u16(eth_type) }
    }

    /// The size of an Ethernet frame without its check sequence: 60 bytes.
    pub fn length(&self) -> (n: usize)
        ensures
            n == 60,
    {
        60
    }

    /// The frame that carries `data` behind this header: the 14 bytes of
    /// the header, the bytes of `data`, and zeros up to 60 bytes.
    ///
    /// `AlignmentError` when the header or `data` is not a whole number of
    /// bytes on the wire; otherwise `ConstructError` when the two together
    /// are longer than 60 bytes.
    pub fn encapsulate<H: Hdr>(&self, data: H) -> (r: Result<Vec<u8>, PaError>)
        ensures
            r is Ok <==> self.wire().len() % 8 == 0 && data.wire().len() % 8 == 0
                && self.wire().len() / 8 + data.wire().len() / 8 <= 60,
            r matches Ok(bytes) ==> bytes@ == frame_of(self.wire(), data.wire(), 60)
                && bytes@.len() == 60,
            r matches Err(e) ==> e.err_type == if self.wire().len() % 8 != 0 || data.wire().len()
                % 8 != 0 {
                ErrorType::AlignmentError
            } else {
                ErrorType::ConstructError
            },
    {
        let head = self.create().unwrap();
        let payload = data.create().unwrap();
        frame(head, payload, self.length())
    }

    /// The protocol that the EtherType names. A value that sixteen bits
    /// cannot hold names none.
    pub open spec fn data_type(&self) -> EthType {
        if self.eth_type.value() <= u16::MAX {
            ethtype_of(self.eth_type.value() as u16)
        } else {
            EthType::Unknown
        }
    }

    /// The protocol that the EtherType names: ARP for `0x0806`, IPv4 for
    /// `0x0800`, unknown for any other value.
    pub fn get_data_type(&self) -> (t: EthType)
        ensures
            t == self.data_type(),
    {
        let value = self.eth_type.to_value();
        if value <= 0xffff {
            from_ethtype(value as u16)
        } else {
            EthType::Unknown
        }
    }

    /// A well-formed header takes 112 bits on the wire, and reading them
    /// back gives the header, field for field.
    pub proof fn lemma_parse_create(h: EthHdr)
        requires
            h.wf(),
        ensures
            h.wire().len() == EthHdr::wire_len(),
            EthHdr::parsed(h.wire()) == h,
    {
        let w = h.wire();
        lemma_bytes_bits_len(h.dst_hw_addr@);
        lemma_bytes_bits_len(h.src_hw_addr@);
        lemma_bits_of_len(h.eth_type.value(), 16);
        assert(w.subrange(0, 48) =~= bytes_bits(h.dst_hw_addr@));
        assert(w.subrange(48, 96) =~= bytes_bits(h.src_hw_addr@));
        assert(w.subrange(96, 112) =~= h.eth_type.bits());
        lemma_bytes_roundtrip(h.dst_hw_addr@);
        lemma_bytes_roundtrip(h.src_hw_addr@);
        Bits::lemma_roundtrip(h.eth_type);
        let p = EthHdr::parsed(w);
        assert(p.src_hw_addr =~= h.src_hw_addr);
        assert(p.dst_hw_addr =~= h.dst_hw_addr);
    }
}

impl EthHdr {
    /// Only the first 112 bits are read: what follows them changes
    /// nothing.
    pub proof fn lemma_parse_prefix(bits: Seq<bool>, n: int)
        requires
            112 <= n <= bits.len(),
        ensures
            EthHdr::parsed(bits.subrange(0, n)) == EthHdr::parsed(bits),
    {
        let front = bits.subrange(0, n);
        assert(front.subrange(0, 48) =~= bits.subrange(0, 48));
        assert(front.subrange(48, 96) =~= bits.subrange(48, 96));
        assert(front.subrange(96, 112) =~= bits.subrange(96, 112));
    }
}

impl PartialEq for EthHdr {
    fn eq(&self, other: &Self) -> (r: bool) {
        same_bytes(self.src_hw_addr.as_slice(), other.src_hw_addr.as_slice()) && same_bytes(
            self.dst_hw_addr.as_slice(),
            other.dst_hw_addr.as_slice(),
        ) && self.eth_type == other.eth_type
    }
}

impl vstd::std_specs::cmp::PartialEqSpecImpl for EthHdr {
    open spec fn obeys_eq_spec() -> bool {
        true
    }

    open spec fn eq_spec(&self, other: &Self) -> bool {
        self.src_hw_addr@ == other.src_hw_addr@ && self.dst_hw_addr@ == other.dst_hw_addr@
            && self.eth_type.value() == other.eth_type.value()
    }
}

impl Hdr for EthHdr {
    open spec fn wire(&self) -> Seq<bool> {
        bytes_bits(self.dst_hw_addr@) + bytes_bits(self.src_hw_addr@) + self.eth_type.bits()
    }

    open spec fn wire_len() -> nat {
        112
    }

    open spec fn parsed(bits: Seq<bool>) -> Self {
        EthHdr {
            src_hw_addr: mac_array(bits_bytes(bits.subrange(48, 96))),
            dst_hw_addr: mac_array(bits_bytes(bits.subrange(0, 48))),
            eth_type: Bits::of(bits_value(bits.subrange(96, 112)), 16),
        }
    }

    open spec fn tagged(&self) -> Proto {
        Proto::Eth(*self)
    }

    fn create(&self) -> (r: Result<Packet, PaError>) {
        let mut packet_data = Packet::new();
        packet_data.push_all(self.dst_hw_addr.as_slice());
        packet_data.push_all(self.src_hw_addr.as_slice());
        packet_data.append(&self.eth_type);
        assert(packet_data@ =~= self.wire());
        Ok(packet_data)
    }

    fn parse(bytes: Packet) -> (h: Self)
        ensures
            h.wf(),
    {
        let dst = bytes.read_bytes(0, 48);
        let src = bytes.read_bytes(48, 96);
        Self {
            src_hw_addr: mac_from(&src),
            dst_hw_addr: mac_from(&dst),
            eth_type: bytes.get_field(96, 112),
        }
    }

    fn get(&self) -> (p: Proto) {
        Proto::Eth(*self)
    }
}

} // verus!
