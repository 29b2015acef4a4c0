//! Bit-level construction, parsing and matching of Ethernet, ARP and IPv4
//! frames, and the rule table that drives automatic replies.

pub mod dstructs;
pub mod error;
pub mod hdr;
pub mod pakit;
pub mod pdu;
pub mod proto;
pub mod query;
pub mod responder;
pub mod utility;

pub use pakit::Pakit;
pub use pdu::Pdu;
pub use query::{QueryHdr, Rules};
pub use responder::{AutoReply, ReplyAction, ReplyEvent, ReplyState};
