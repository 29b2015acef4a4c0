//! A frame as a stack of headers, one to a layer, and the bytes built from
//! them.

use crate::dstructs::packet::{bytes_bits, lemma_bytes_bits_len, Packet};
use crate::error::{ErrorType, PaError};
use crate::hdr::eth::{frame_of, lemma_frame_parts};
use crate::hdr::{ArpHdr, EthHdr, Hdr, IPv4Hdr};
use crate::proto::{EthType, Proto};
use std::collections::HashMap;
use vstd::prelude::*;
use vstd::slice::slice_subrange;

verus! {

broadcast use vstd::std_specs::hash::group_hash_axioms;

/// The layer of the link header.
pub const LINK: u8 = 2;

/// The layer of the network header.
pub const NETWORK: u8 = 3;

/// The headers after `proto` took its place: a header goes to the layer of
/// its variant and replaces what stood there; a variant without a header
/// changes nothing.
pub open spec fn with_header(headers: Map<u8, Proto>, proto: Proto) -> Map<u8, Proto> {
    match proto.layer() {
        Some(layer) => headers.insert(layer, proto),
        None => headers,
    }
}

/// Whether a raw frame is long enough to be read: 14 bytes for the
/// Ethernet header, and behind them 28 bytes where it names ARP, or 20
/// bytes where it names IPv4.
pub open spec fn can_parse(raw: Seq<u8>) -> bool {
    raw.len() >= 14 && match EthHdr::parsed(bytes_bits(raw.subrange(0, 14))).data_type() {
        EthType::Arp => raw.len() >= 42,
        EthType::IPv4 => raw.len() >= 34,
        EthType::Unknown => true,
    }
}

/// The headers that a raw frame holds: the Ethernet header at the link
/// layer, and at the network layer the header that the EtherType names,
/// where it names one.
pub open spec fn parsed_headers(raw: Seq<u8>) -> Map<u8, Proto> {
    let eth = EthHdr::parsed(bytes_bits(raw.subrange(0, 14)));
    let rest = bytes_bits(raw.subrange(14, raw.len() as int));
    let link = Map::<u8, Proto>::empty().insert(LINK, Proto::Eth(eth));
    match eth.data_type() {
        EthType::Arp => link.insert(NETWORK, Proto::Arp(ArpHdr::parsed(rest))),
        EthType::IPv4 => link.insert(NETWORK, Proto::IPv4(IPv4Hdr::parsed(rest))),
        EthType::Unknown => link,
    }
}

/// The bits of the network header that a frame is built around: those of
/// the ARP or IPv4 header at the network layer, if one stands there.
pub open spec fn payload_of(headers: Map<u8, Proto>) -> Option<Seq<bool>> {
    if headers.contains_key(NETWORK) {
        match headers[NETWORK] {
            Proto::Arp(arp) => Some(arp.wire()),
            Proto::IPv4(ipv4) => Some(ipv4.wire()),
            _ => None,
        }
    } else {
        None
    }
}

/// The Ethernet header at the link layer, if one stands there.
pub open spec fn link_of(headers: Map<u8, Proto>) -> Option<EthHdr> {
    if headers.contains_key(LINK) {
        match headers[LINK] {
            Proto::Eth(eth) => Some(eth),
            _ => None,
        }
    } else {
        None
    }
}

/// Why no frame can be built from `headers`, if none can.
///
/// `ConstructError` without an ARP or IPv4 header at the network layer,
/// without an Ethernet header at the link layer, or when the two are longer
/// than a frame; `AlignmentError` when one of them is not a whole number of
/// bytes on the wire.
pub open spec fn build_error(headers: Map<u8, Proto>) -> Option<ErrorType> {
    match (payload_of(headers), link_of(headers)) {
        (Some(payload), Some(eth)) => {
            if eth.wire().len() % 8 != 0 || payload.len() % 8 != 0 {
                Some(ErrorType::AlignmentError)
            } else if eth.wire().len() / 8 + payload.len() / 8 > 60 {
                Some(ErrorType::ConstructError)
            } else {
                None
            }
        },
        _ => Some(ErrorType::ConstructError),
    }
}

/// The bytes held after an attempt to build a frame from `headers`.
///
/// With both headers in place and no error, the frame: the Ethernet
/// header, the network header, zeros up to 60 bytes. With a network header
/// but no Ethernet header, nothing. In every other case, what was held
/// before.
pub open spec fn built_buffer(headers: Map<u8, Proto>, before: Seq<u8>) -> Seq<u8> {
    match (payload_of(headers), link_of(headers)) {
        (Some(payload), Some(eth)) => {
            if build_error(headers) is None {
                frame_of(eth.wire(), payload, 60)
            } else {
                before
            }
        },
        (Some(_), None) => Seq::empty(),
        _ => before,
    }
}

/// Building is a function of the two headers alone: frames with the same
/// header at the link layer and the same header at the network layer build
/// to the same bytes, whatever else they hold and whatever bytes they held
/// before.
pub proof fn lemma_build_deterministic(
    a: Map<u8, Proto>,
    b: Map<u8, Proto>,
    held_a: Seq<u8>,
    held_b: Seq<u8>,
)
    requires
        a.contains_key(LINK) == b.contains_key(LINK),
        a.contains_key(LINK) ==> a[LINK] == b[LINK],
        a.contains_key(NETWORK) == b.contains_key(NETWORK),
        a.contains_key(NETWORK) ==> a[NETWORK] == b[NETWORK],
    ensures
        build_error(a) == build_error(b),
        build_error(a) is None ==> built_buffer(a, held_a) == built_buffer(b, held_b),
{
}

/// Reading a built frame gives back the two headers it was built from,
/// where they are well-formed and the EtherType names the network header.
pub proof fn lemma_parse_built(headers: Map<u8, Proto>, held: Seq<u8>)
    requires
        build_error(headers) is None,
        link_of(headers) matches Some(eth) && eth.wf() && match headers[NETWORK] {
            Proto::Arp(_) => eth.data_type() == EthType::Arp,
            Proto::IPv4(ipv4) => eth.data_type() == EthType::IPv4 && ipv4.wf(),
            _ => false,
        },
    ensures
        can_parse(built_buffer(headers, held)),
        parsed_headers(built_buffer(headers, held)) == Map::<u8, Proto>::empty().insert(
            LINK,
            headers[LINK],
        ).insert(NETWORK, headers[NETWORK]),
{
    let eth = link_of(headers).unwrap();
    let payload = payload_of(headers).unwrap();
    let built = built_buffer(headers, held);
    EthHdr::lemma_parse_create(eth);
    lemma_frame_parts(eth.wire(), payload, 60);
    let rest = bytes_bits(built.subrange(14, built.len() as int));
    match headers[NETWORK] {
        Proto::Arp(arp) => {
            ArpHdr::lemma_parse_create(arp);
            ArpHdr::lemma_parse_prefix(rest, 224);
        },
        Proto::IPv4(ipv4) => {
            IPv4Hdr::lemma_parse_create(ipv4);
            IPv4Hdr::lemma_parse_prefix(rest, 160);
        },
        _ => {},
    }
}

/// A built frame is 60 bytes long.
pub proof fn lemma_built_len(headers: Map<u8, Proto>, held: Seq<u8>)
    requires
        build_error(headers) is None,
    ensures
        built_buffer(headers, held).len() == 60,
{
}

/// Places the header `proto` at its layer.
pub fn place(headers: &mut HashMap<u8, Proto>, proto: Proto)
    ensures
        final(headers)@ == with_header(old(headers)@, proto),
{
    match proto {
        Proto::Arp(arp_hdr) => {
            headers.insert(NETWORK, Proto::Arp(arp_hdr));
        },
        Proto::Eth(eth_hdr) => {
            headers.insert(LINK, Proto::Eth(eth_hdr));
        },
        Proto::IPv4(ipv4_hdr) => {
            headers.insert(NETWORK, Proto::IPv4(ipv4_hdr));
        },
        _ => {},
    }
}

/// Whether a raw frame is long enough to be read.
pub fn check_parse(bits: &[u8]) -> (ok: bool)
    ensures
        ok == can_parse(bits@),
{
    if bits.len() < 14 {
        return false;
    }
    let head = slice_subrange(bits, 0, 14);
    proof {
        lemma_bytes_bits_len(head@);
    }
    let eth_hdr = EthHdr::parse(Packet::from_bytes(head));
    match eth_hdr.get_data_type() {
        EthType::Arp => bits.len() >= 42,
        EthType::IPv4 => bits.len() >= 34,
        EthType::Unknown => true,
    }
}

/// Reads the headers of a raw frame.
pub fn parse_frame(bits: &[u8]) -> (headers: HashMap<u8, Proto>)
    requires
        can_parse(bits@),
    ensures
        headers@ == parsed_headers(bits@),
{
    let mut headers: HashMap<u8, Proto> = HashMap::with_capacity(6);
    let head = slice_subrange(bits, 0, 14);
    let rest = slice_subrange(bits, 14, bits.len());
    proof {
        lemma_bytes_bits_len(head@);
        lemma_bytes_bits_len(rest@);
    }
    let eth_hdr = EthHdr::parse(Packet::from_bytes(head));
    headers.insert(LINK, Proto::Eth(eth_hdr));
    match eth_hdr.get_data_type() {
        EthType::Arp => {
            let arp_hdr = ArpHdr::parse(Packet::from_bytes(rest));
            headers.insert(NETWORK, Proto::Arp(arp_hdr));
        },
        EthType::IPv4 => {
            let ipv4_hdr = IPv4Hdr::parse(Packet::from_bytes(rest));
            headers.insert(NETWORK, Proto::IPv4(ipv4_hdr));
        },
        EthType::Unknown => {},
    }
    headers
}

/// Builds the frame of `headers` into `buffer`.
pub fn build_frame(headers: &HashMap<u8, Proto>, buffer: &mut Vec<u8>) -> (r: Result<(), PaError>)
    ensures
        final(buffer)@ == built_buffer(headers@, old(buffer)@),
        r is Ok <==> build_error(headers@) is None,
        r matches Err(e) ==> build_error(headers@) == Some(e.err_type),
{
    let payload = match headers.get(&NETWORK) {
        Some(Proto::Arp(arp)) => arp.create().unwrap(),
        Some(Proto::IPv4(ipv4)) => ipv4.create().unwrap(),
        _ => {
            return Err(
                PaError::new("no network header to build a frame around", ErrorType::ConstructError),
            );
        },
    };
    let head = match headers.get(&LINK) {
        Some(Proto::Eth(eth)) => eth.create().unwrap(),
        _ => {
            buffer.clear();
            return Err(
                PaError::new("no Ethernet header to build a frame with", ErrorType::ConstructError),
            );
        },
    };
    match crate::hdr::eth::frame(head, payload, 60) {
        Ok(bytes) => {
            *buffer = bytes;
            Ok(())
        },
        Err(e) => Err(e),
    }
}

/// A frame in the making: its headers by layer, and the bytes last built
/// from them.
#[derive(Debug)]
pub struct Pdu {
    pub headers: HashMap<u8, Proto>,
    pub buffer: Vec<u8>,
}

impl Pdu {
    /// A frame without headers and without bytes.
    pub fn new() -> (p: Self)
        ensures
            p.headers@ == Map::<u8, Proto>::empty(),
            p.buffer@ == Seq::<u8>::empty(),
    {
        Self { headers: HashMap::with_capacity(6), buffer: Vec::new() }
    }

    /// Reads a raw frame: the Ethernet header from its first 14 bytes, and
    /// from the bytes behind them the header that the EtherType names.
    /// Nothing of what is read is judged, and no bytes are kept.
    pub fn parse(bits: &[u8]) -> (p: Self)
        requires
            can_parse(bits@),
        ensures
            p.headers@ == parsed_headers(bits@),
            p.buffer@ == Seq::<u8>::empty(),
    {
        Self { headers: parse_frame(bits), buffer: Vec::new() }
    }

    /// The frame with `hdr` at the layer of its kind; a header that stood
    /// there is replaced.
    pub fn header<H: Hdr>(self, hdr: H) -> (p: Self)
        ensures
            p.headers@ == with_header(self.headers@, hdr.tagged()),
            p.buffer@ == self.buffer@,
    {
        let mut p = self;
        place(&mut p.headers, hdr.get());
        p
    }

    /// Puts `hdr` at the layer of its kind; a header that stood there is
    /// replaced.
    pub fn set_header<H: Hdr>(&mut self, hdr: H)
        ensures
            final(self).headers@ == with_header(old(self).headers@, hdr.tagged()),
            final(self).buffer@ == old(self).buffer@,
    {
        place(&mut self.headers, hdr.get());
    }

    /// Builds the bytes of the frame from its headers.
    ///
    /// With an ARP or IPv4 header at the network layer and an Ethernet
    /// header at the link layer, the bytes become the 14 bytes of the
    /// Ethernet header, the bytes of the network header, and zeros up to 60
    /// bytes. Without the network header this is a `ConstructError` and the
    /// bytes stay. Without the Ethernet header it is a `ConstructError`
    /// and the bytes are emptied. The headers are never changed.
    pub fn build(&mut self) -> (r: Result<(), PaError>)
        ensures
            final(self).headers@ == old(self).headers@,
            final(self).buffer@ == built_buffer(old(self).headers@, old(self).buffer@),
            r is Ok <==> build_error(old(self).headers@) is None,
            r matches Err(e) ==> build_error(old(self).headers@) == Some(e.err_type),
    {
        build_frame(&self.headers, &mut self.buffer)
    }
}

} // verus!
