//! The protocol interface and its backends.

use crate::Error;
use vstd::prelude::*;

pub mod ads;
pub mod ads_errors;
pub mod ads_frame;
pub mod ads_route;
pub mod modbus;
pub mod tango;

verus! {

/// How long connecting may take, in milliseconds.
pub const CONNECT_TIMEOUT_MS: u64 = 1000;

/// How long waiting for a reply may take, in milliseconds.
pub const READ_TIMEOUT_MS: u64 = 1000;

/// How long sending a request may take, in milliseconds.
pub const WRITE_TIMEOUT_MS: u64 = 1000;

/// A buffer of `length` zero bytes, as `read` hands it to `read_into`.
pub open spec fn zeroed(length: nat) -> Seq<u8> {
    Seq::new(length, |i: int| 0u8)
}

/// What every backend offers: a connection to a device whose memory is read
/// and written by byte address.
///
/// A backend says in three relations what its own `connect`, `read_into` and
/// `get_offsets` may come to.  Nothing is asked of them: a backend that leaves
/// them as they are admits every outcome, as one whose outcomes lie with a
/// network has to.  They serve to say of what is made of these methods that it
/// does what they do.
pub trait Protocol {
    /// Whether a connection attempt on the backend `self` may leave the backend
    /// `after` and tell the caller `r`.
    open spec fn connect_outcome(&self, after: &Self, r: Result<(), Error>) -> bool {
        true
    }

    /// Whether a read at `addr` into a buffer that holds `before`, on the
    /// backend `self`, may leave the backend `after` and the buffer with
    /// `filled`, and tell the caller `r`.
    open spec fn read_outcome(
        &self,
        addr: usize,
        before: Seq<u8>,
        after: &Self,
        filled: Seq<u8>,
        r: Result<(), Error>,
    ) -> bool {
        true
    }

    /// Whether `list` may be what `get_offsets` gives.
    open spec fn lists_offsets(list: Seq<usize>) -> bool {
        true
    }

    /// Establishes the transport and shakes hands with the device.
    fn connect(&mut self) -> (r: Result<(), Error>)
        ensures
            old(self).connect_outcome(final(self), r),
    ;

    /// Drops the transport.
    fn disconnect(&mut self);

    /// Connects again after the transport was dropped: what a connection
    /// attempt does, this does.
    fn reconnect(&mut self) -> (r: Result<(), Error>)
        ensures
            old(self).connect_outcome(final(self), r),
    {
        self.connect()
    }

    /// Fills `data` with the bytes at the byte address `addr`.  The first
    /// clause states what holds of every mutable slice: its length stays.
    fn read_into(&mut self, addr: usize, data: &mut [u8]) -> (r: Result<(), Error>)
        ensures
            final(data)@.len() == old(data)@.len(),
            old(self).read_outcome(addr, old(data)@, final(self), final(data)@, r),
    ;

    /// Writes `data` at the byte address `addr`.
    fn write(&mut self, addr: usize, data: &[u8]) -> (r: Result<(), Error>);

    /// Reads `length` bytes at the byte address `addr` into a buffer of its
    /// own: one `read_into` at `addr` on a buffer of `length` zero bytes.  Where
    /// that succeeds the buffer is handed out as it was filled; where it fails
    /// its error is handed on.
    fn read(&mut self, addr: usize, length: usize) -> (r: Result<Vec<u8>, Error>)
        ensures
            match r {
                Ok(v) => v@.len() == length && old(self).read_outcome(
                    addr,
                    zeroed(length as nat),
                    final(self),
                    v@,
                    Ok(()),
                ),
                Err(e) => exists|left: Seq<u8>| #[trigger]
                    old(self).read_outcome(addr, zeroed(length as nat), final(self), left, Err(e)),
            },
    {
        let mut buffer: Vec<u8> = vec![0u8; length];
        assert(buffer@ =~= zeroed(length as nat));
        match self.read_into(addr, buffer.as_mut_slice()) {
            Ok(done) => {
                assert(done == ());
                Ok(buffer)
            },
            Err(e) => Err(e),
        }
    }

    /// The offsets at which a device behind this backend may keep its
    /// signature, in the order in which they are to be probed.
    fn get_offsets() -> (r: &'static [usize])
        ensures
            Self::lists_offsets(r@),
    ;

    /// Sets the base offset that is added to every address.
    fn set_offset(&mut self, offset: usize);
}

} // verus!
