//! The frame builder under the library's own name.

use crate::error::PaError;
use crate::hdr::Hdr;
use crate::pdu::{
    build_error, build_frame, built_buffer, can_parse, parse_frame, parsed_headers, place,
    with_header,
};
use crate::proto::Proto;
use std::collections::HashMap;
use vstd::prelude::*;

verus! {

/// A frame in the making: its headers by layer, and the bytes last built
/// from them.
#[derive(Debug)]
pub struct Pakit {
    pub headers: HashMap<u8, Proto>,
    pub buffer: Vec<u8>,
}

impl Pakit {
    /// A frame without headers and without bytes.
    pub fn new() -> (p: Self)
        ensures
            p.headers@ == Map::<u8, Proto>::empty(),
            p.buffer@ == Seq::<u8>::empty(),
    {
        Self { headers: HashMap::with_capacity(7), buffer: Vec::new() }
    }

    /// Reads a raw frame: the Ethernet header from its first 14 bytes, and
    /// from the bytes behind them the header that the EtherType names.
    pub fn parse(bits: &[u8]) -> (p: Self)
        requires
            can_parse(bits@),
        ensures
            p.headers@ == parsed_headers(bits@),
            p.buffer@ == Seq::<u8>::empty(),
    {
        Self { headers: parse_frame(bits), buffer: Vec::new() }
    }

    /// The frame with `hdr` at the layer of its kind; a header that stood
    /// there is replaced.
    pub fn header<H: Hdr>(self, hdr: H) -> (p: Self)
        ensures
            p.headers@ == with_header(self.headers@, hdr.tagged()),
            p.buffer@ == self.buffer@,
    {
        let mut p = self;
        place(&mut p.headers, hdr.get());
        p
    }

    /// Puts `hdr` at the layer of its kind; a header that stood there is
    /// replaced.
    pub fn set_header<H: Hdr>(&mut self, hdr: H)
        ensures
            final(self).headers@ == with_header(old(self).headers@, hdr.tagged()),
            final(self).buffer@ == old(self).buffer@,
    {
        place(&mut self.headers, hdr.get());
    }

    /// Builds the bytes of the frame from its headers: the 14 bytes of the
    /// Ethernet header at the link layer, the bytes of the ARP or IPv4
    /// header at the network layer, and zeros up to 60 bytes.
    ///
    /// Without the network header this is a `ConstructError` and the bytes
    /// stay. Without the Ethernet header it is a `ConstructError` and the
    /// bytes are emptied.
    pub fn build_packet(&mut self) -> (r: Result<(), PaError>)
        ensures
            final(self).headers@ == old(self).headers@,
            final(self).buffer@ == built_buffer(old(self).headers@, old(self).buffer@),
            r is Ok <==> build_error(old(self).headers@) is None,
            r matches Err(e) ==> build_error(old(self).headers@) == Some(e.err_type),
    {
        build_frame(&self.headers, &mut self.buffer)
    }
}

} // verus!
