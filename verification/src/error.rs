//! The error type shared by every fallible operation of the library.

use vstd::prelude::*;
use vstd::string::*;

verus! {

/// What went wrong.
#[derive(Debug, Clone, Copy, PartialEq, Eq, Structural)]
pub enum ErrorType {
    /// A textual address is malformed.
    ParseError,
    /// A header or frame cannot be built from what was given.
    ConstructError,
    /// The transport could not open a channel.
    ChannelError,
    /// The named network interface does not exist.
    InterfaceError,
    /// A protocol union was read as a variant it does not hold.
    UnwrapHeaderError,
    /// A capture file could not be written.
    PcapFileError,
    /// A value does not fit in the declared number of bits.
    LengthError,
    /// A byte view was asked of bits that do not end on a byte boundary.
    AlignmentError,
}

/// An error: its kind and a message for people.
#[derive(Debug)]
pub struct PaError {
    pub err_type: ErrorType,
    pub msg: String,
}

impl PaError {
    /// An error of kind `er_type` that carries `msg`.
    pub fn new(msg: &str, er_type: ErrorType) -> (e: Self)
        ensures
            e.err_type == er_type,
            e.msg@ == msg@,
    {
        Self { err_type: er_type, msg: String::from_str(msg) }
    }
}

} // verus!
