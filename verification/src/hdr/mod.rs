//! The header codecs: Ethernet, ARP and IPv4.

pub mod arp;
pub mod eth;
pub mod ip_proto;
pub mod ipv4;
pub mod query;
pub mod traits;

pub use arp::{ArpHdr, REP, REQ};
pub use eth::EthHdr;
pub use ipv4::IPv4Hdr;
pub use query::{ArpQuery, EthQuery, IPv4Query};
pub use traits::Hdr;
