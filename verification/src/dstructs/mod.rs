//! The two primitives under every header codec: a fixed-width bit field and
//! a growable bit buffer.

pub mod bits;
pub mod packet;

pub use bits::Bits;
pub use packet::Packet;
