//! Client library for reading and writing memory-mapped process variables of
//! PLCs over several field protocols, behind one byte-addressed interface.
//!
//! The library holds the rules of each protocol: address grammars, frame
//! layouts, reply validation, chunking and the retry decisions.  It performs no
//! input or output itself; a transport drives it with the bytes it exchanged.

use vstd::prelude::*;

pub mod bytes;
pub mod io;
pub mod pattern;
pub mod proto;
pub mod text;

verus! {

/// What went wrong in a transport, as far as the library's rules read it.
#[derive(Debug, Clone, Copy, PartialEq, Eq, Structural)]
pub enum IoKind {
    /// The peer closed the stream before the expected bytes arrived.
    UnexpectedEof,
    /// A connect, read or write ran into its timeout.
    TimedOut,
    /// Any other transport failure.
    Other,
}

/// A transport failure: its kind and the transport's own description.
#[derive(Debug, Clone, PartialEq, Eq)]
pub struct IoFailure {
    pub kind: IoKind,
    pub detail: String,
}

/// An error of the ADS protocol layer.
#[derive(Debug, Clone, PartialEq, Eq)]
pub enum AdsFailure {
    /// The device answered with a non-zero error or result code; `text` is the
    /// catalog's description of `code`.
    Ads { action: &'static str, text: &'static str, code: u32 },
    /// The reply does not fit the request; `value` is the offending field.
    Reply { action: &'static str, text: &'static str, value: u32 },
    /// An address or a length does not fit the protocol's 32 bits.
    Overflow,
}

/// An error of the register transport.
#[derive(Debug, Clone, PartialEq, Eq)]
pub enum ModbusFailure {
    /// The transport failed while a request was under way.
    Io(IoFailure),
    /// The byte address lies beyond the 16-bit register space.
    AddressTooBig,
    /// A transfer of an odd number of bytes was asked for.
    OddLength,
    /// The device sent another number of registers than were asked for.
    UnexpectedReplySize,
    /// Any other error that the register client reported.
    Device(String),
}

/// Why no device generation could be determined.
#[derive(Debug, Clone, Copy, PartialEq, Eq, Structural)]
pub enum PlcFailure {
    /// A signature of a known family, but of no supported generation; the
    /// field holds the bit pattern of the value that was read.
    UnsupportedMagic(u32),
    /// No probe offset answered with a signature.
    NoMagic,
}

/// The library's error type.
#[derive(Debug, PartialEq, Eq)]
pub enum Error {
    /// The address does not follow the backend's grammar, which the field shows.
    InvalidAddress(&'static str),
    /// The transport failed.
    IO(IoFailure),
    /// ADS specific error.
    ADS(AdsFailure),
    /// Modbus specific error.
    Modbus(ModbusFailure),
    /// An exception that the device proxy raised.
    Tango(String),
    /// The device proxy answered with something unusable.
    TangoProto(&'static str),
    /// An error together with the operation during which it came up.
    Wrapped(Box<Error>, &'static str),
    /// The device itself is not usable.
    PLC(PlcFailure),
}

impl Error {
    /// Whether this error is a transport failure that ended the stream early.
    pub open spec fn is_unexpected_eof(self) -> bool {
        self matches Error::IO(f) && f.kind == IoKind::UnexpectedEof
    }

    /// The error at the bottom of a chain of `Wrapped` errors.
    pub open spec fn root(self) -> Error
        decreases self,
    {
        match self {
            Error::Wrapped(inner, _) => inner.root(),
            _ => self,
        }
    }

    /// Annotates `self` with the operation `context` during which it came up.
    pub fn wrap(self, context: &'static str) -> (r: Error)
        ensures
            r == Error::Wrapped(Box::new(self), context),
            r.root() == self.root(),
    {
        Error::Wrapped(Box::new(self), context)
    }
}

} // verus!
