//! Wildcard matchers, one for each kind of header: every field is either a
//! value that the header must have or `None`, which any value meets.

pub mod arp_query;
pub mod eth_query;
pub mod ipv4_query;
pub mod field;

pub use arp_query::{ArpField, ArpQuery};
pub use eth_query::{EthField, EthQuery};
pub use ipv4_query::{IPv4Field, IPv4Query};
