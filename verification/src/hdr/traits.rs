//! What every header codec offers.

use crate::dstructs::Packet;
use crate::error::PaError;
use crate::proto::Proto;
use vstd::prelude::*;

verus! {

/// A protocol header that can be written to the wire and read back.
pub trait Hdr: Sized {
    /// The header as it goes on the wire: its fields in protocol order, each
    /// in its own width.
    spec fn wire(&self) -> Seq<bool>;

    /// The number of leading bits that `parse` reads.
    spec fn wire_len() -> nat;

    /// The header whose fields stand at the protocol's fixed offsets in
    /// `bits`.
    spec fn parsed(bits: Seq<bool>) -> Self;

    /// The header in its variant of the protocol union.
    spec fn tagged(&self) -> Proto;

    /// Writes the header into a fresh buffer. This never fails.
    fn create(&self) -> (r: Result<Packet, PaError>)
        ensures
            r is Ok,
            r->Ok_0@ == self.wire(),
    ;

    /// Reads a header from the start of `bytes`, which must hold at least
    /// `wire_len` bits. Nothing of what is read is judged.
    fn parse(bytes: Packet) -> (h: Self)
        requires
            bytes@.len() >= Self::wire_len(),
        ensures
            h == Self::parsed(bytes@),
    ;

    /// The header in its variant of the protocol union.
    fn get(&self) -> (p: Proto)
        ensures
            p == self.tagged(),
    ;
}

} // verus!
