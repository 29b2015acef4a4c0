//! The tagged union of decoded headers and the protocols an Ethernet frame
//! can name.

use crate::error::{ErrorType, PaError};
use crate::hdr::{ArpHdr, EthHdr, IPv4Hdr};
use vstd::prelude::*;

verus! {

/// One decoded header, tagged with its protocol.
#[derive(Debug, Clone, Copy)]
pub enum Proto {
    Arp(ArpHdr),
    Eth(EthHdr),
    IPv4(IPv4Hdr),
    /// Reserved: no ICMP header is decoded yet.
    ICMP,
    Unknown,
}

/// The protocol that an EtherType names.
#[derive(Debug, Clone, Copy, PartialEq, Eq, Structural)]
pub enum EthType {
    Arp,
    IPv4,
    Unknown,
}

impl Proto {
    /// The layer that a header of this variant belongs to: 2 for the link
    /// layer, 3 for the network layer, none for the variants without a header.
    pub open spec fn layer(&self) -> Option<u8> {
        match self {
            Proto::Eth(_) => Some(2u8),
            Proto::Arp(_) => Some(3u8),
            Proto::IPv4(_) => Some(3u8),
            _ => None,
        }
    }

    /// The ARP header, or `UnwrapHeaderError` for any other variant.
    pub fn unwrap_arp(self) -> (r: Result<ArpHdr, PaError>)
        ensures
            r is Ok <==> self is Arp,
            r matches Ok(h) ==> h == self->Arp_0,
            r matches Err(e) ==> e.err_type == ErrorType::UnwrapHeaderError,
    {
        if let Proto::Arp(hdr) = self {
            Ok(hdr)
        } else {
            Err(
                PaError::new(
                    "Unable to unwrap Arp Header. Enum may be of any other type.",
                    ErrorType::UnwrapHeaderError,
                ),
            )
        }
    }

    /// The Ethernet header, or `UnwrapHeaderError` for any other variant.
    pub fn unwrap_eth(self) -> (r: Result<EthHdr, PaError>)
        ensures
            r is Ok <==> self is Eth,
            r matches Ok(h) ==> h == self->Eth_0,
            r matches Err(e) ==> e.err_type == ErrorType::UnwrapHeaderError,
    {
        if let Proto::Eth(hdr) = self {
            Ok(hdr)
        } else {
            Err(
                PaError::new(
                    "Unable to unwrap Ethernet Header. Enum may be of any other type.",
                    ErrorType::UnwrapHeaderError,
                ),
            )
        }
    }

    /// The IPv4 header, or `UnwrapHeaderError` for any other variant.
    pub fn unwrap_ipv4(self) -> (r: Result<IPv4Hdr, PaError>)
        ensures
            r is Ok <==> self is IPv4,
            r matches Ok(h) ==> h == self->IPv4_0,
            r matches Err(e) ==> e.err_type == ErrorType::UnwrapHeaderError,
    {
        if let Proto::IPv4(hdr) = self {
            Ok(hdr)
        } else {
            Err(
                PaError::new(
                    "Unable to unwrap IPv4 Header. Enum may be of any other type.",
                    ErrorType::UnwrapHeaderError,
                ),
            )
        }
    }
}

} // verus!
