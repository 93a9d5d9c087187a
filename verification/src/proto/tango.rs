//! The device-proxy backend: reads and writes are commands of a remote device.

use crate::pattern::{captures, groups_view, matches_whole, regex_captures, whole_match};
use crate::Error;
use vstd::prelude::*;

verus! {

/// What an address of this backend starts with.
pub const TG_SCHEME: &'static str = "tango://";

/// The pattern that an address of this backend has to match as a whole.
pub const TG_ADDR_RE: &'static str =
    r"tango://([\w.-]+:[\d]+/)?([\w-]+/){2}[\w-]+(#dbase=(no|yes))?$";

/// The address grammar, as shown to the user with an invalid address.
pub const TG_ADDR_FMT: &'static str = "tango://[database:port/]domain/family/member[#dbase=no]";

/// The offsets at which a device of this kind may keep its signature.
pub const TG_OFFSETS: [usize; 1] = [0];

/// The command that tells whether the device is running.
pub const STATE_COMMAND: &'static str = "State";

/// The command that reads bytes.
pub const READ_COMMAND: &'static str = "ReadInputBytes";

/// The command that writes bytes.
pub const WRITE_COMMAND: &'static str = "WriteOutputBytes";

pub const TEXT_INTERFACE: &'static str = "Device has invalid interface";

pub const TEXT_REPLY: &'static str = "Invalid data type or length returned";

pub const TEXT_RANGE: &'static str = "Address or length exceeds 32 bits";

/// What a command of the device returned.
#[derive(Debug, Clone, PartialEq, Eq)]
pub enum TangoReply {
    /// An array of bytes.
    Bytes(Vec<u8>),
    /// Anything else.
    Other,
}

/// What a `TangoProto` stands for.
pub struct TangoView {
    pub tango_dev: Seq<char>,
    pub offset: usize,
    pub connected: bool,
}

/// The arguments of the command that writes `data` at the address `at`: the
/// address, then every byte as a number of its own.
pub open spec fn write_arguments(at: u32, data: Seq<u8>) -> Seq<u32> {
    seq![at] + Seq::new(data.len(), |i: int| data[i] as u32)
}

/// The bytes that a reply to the read command yields for a buffer of `wanted`
/// bytes: the reply has to be an array of exactly that many bytes.
pub open spec fn accepted_bytes(reply: TangoReply, wanted: nat) -> Option<Seq<u8>> {
    match reply {
        TangoReply::Bytes(bytes) => if bytes@.len() == wanted {
            Some(bytes@)
        } else {
            None
        },
        TangoReply::Other => None,
    }
}

/// A backend that reaches its device through a device proxy.
pub struct TangoProto {
    tango_dev: String,
    offset: usize,
    connected: bool,
}

impl View for TangoProto {
    type V = TangoView;

    closed spec fn view(&self) -> TangoView {
        TangoView { tango_dev: self.tango_dev@, offset: self.offset, connected: self.connected }
    }
}

impl TangoProto {
    /// Takes an address of the form
    /// `tango://[database:port/]domain/family/member[#dbase=no|yes]`, which is
    /// kept as it is.  The backend is not connected and its base offset is zero.
    /// Text before the scheme makes the address invalid.
    pub fn new(addr: &str) -> (r: Result<TangoProto, Error>)
        ensures
            matches_whole(TG_SCHEME@, addr@, regex_captures(TG_ADDR_RE@, addr@)) ==> (r matches Ok(
                p,
            ) && p@ == (TangoView { tango_dev: addr@, offset: 0, connected: false })),
            !matches_whole(TG_SCHEME@, addr@, regex_captures(TG_ADDR_RE@, addr@)) ==> r == Err::<
                TangoProto,
                Error,
            >(Error::InvalidAddress(TG_ADDR_FMT)),
    {
        Self::from_groups(addr, captures(TG_ADDR_RE, addr))
    }

    /// Builds the backend for the address `addr` from the capture groups that
    /// `TG_ADDR_RE` found in it; `None` stands for an address that the pattern
    /// does not match.  The address is refused unless it starts with the scheme
    /// and group 0, the text that matched, is all of it.
    pub fn from_groups(addr: &str, groups: Option<Vec<Option<String>>>) -> (r: Result<
        TangoProto,
        Error,
    >)
        ensures
            matches_whole(TG_SCHEME@, addr@, groups_view(groups)) ==> (r matches Ok(p) && p@ == (
            TangoView { tango_dev: addr@, offset: 0, connected: false })),
            !matches_whole(TG_SCHEME@, addr@, groups_view(groups)) ==> r == Err::<
                TangoProto,
                Error,
            >(Error::InvalidAddress(TG_ADDR_FMT)),
    {
        if whole_match(TG_SCHEME, addr, &groups) {
            Ok(TangoProto { tango_dev: addr.to_owned(), offset: 0, connected: false })
        } else {
            Err(Error::InvalidAddress(TG_ADDR_FMT))
        }
    }

    /// Takes note of what a connection attempt found out about the device,
    /// which answered the state command: whether it knows the command that
    /// reads and the command that writes.  A device that lacks one of them is
    /// of no use, and the backend stays unconnected.
    pub fn connect_done(&mut self, has_read: bool, has_write: bool) -> (r: Result<(), Error>)
        ensures
            final(self)@ == (TangoView { connected: has_read && has_write, ..old(self)@ }),
            has_read && has_write ==> r is Ok,
            !(has_read && has_write) ==> r == Err::<(), Error>(Error::TangoProto(TEXT_INTERFACE)),
    {
        if has_read && has_write {
            self.connected = true;
            Ok(())
        } else {
            self.connected = false;
            Err(Error::TangoProto(TEXT_INTERFACE))
        }
    }

    /// The arguments of the command that reads `len` bytes at the byte address
    /// `addr`, to which the base offset is added: the address and the length.
    pub fn read_args(&self, addr: usize, len: usize) -> (r: Result<Vec<u32>, Error>)
        ensures
            match r {
                Ok(args) => {
                    &&& self@.offset + addr <= u32::MAX
                    &&& len <= u32::MAX
                    &&& args@ == seq![(self@.offset + addr) as u32, len as u32]
                },
                Err(e) => {
                    &&& self@.offset + addr > u32::MAX || len > u32::MAX
                    &&& e == Error::TangoProto(TEXT_RANGE)
                },
            },
    {
        let at = match self.offset.checked_add(addr) {
            Some(at) => at,
            None => return Err(Error::TangoProto(TEXT_RANGE)),
        };
        if at > 0xFFFF_FFFF || len > 0xFFFF_FFFF {
            return Err(Error::TangoProto(TEXT_RANGE));
        }
        let mut args: Vec<u32> = Vec::new();
        args.push(at as u32);
        args.push(len as u32);
        assert(args@ =~= seq![at as u32, len as u32]);
        Ok(args)
    }

    /// The arguments of the command that writes `data` at the byte address
    /// `addr`, to which the base offset is added.
    pub fn write_args(&self, addr: usize, data: &[u8]) -> (r: Result<Vec<u32>, Error>)
        ensures
            match r {
                Ok(args) => {
                    &&& self@.offset + addr <= u32::MAX
                    &&& args@ == write_arguments((self@.offset + addr) as u32, data@)
                },
                Err(e) => {
                    &&& self@.offset + addr > u32::MAX
                    &&& e == Error::TangoProto(TEXT_RANGE)
                },
            },
    {
        let at = match self.offset.checked_add(addr) {
            Some(at) => at,
            None => return Err(Error::TangoProto(TEXT_RANGE)),
        };
        if at > 0xFFFF_FFFF {
            return Err(Error::TangoProto(TEXT_RANGE));
        }
        let ghost want = write_arguments(at as u32, data@);
        let mut args: Vec<u32> = Vec::new();
        args.push(at as u32);
        let mut i: usize = 0;
        while i < data.len()
            invariant
                i <= data@.len(),
                want == write_arguments(at as u32, data@),
                args@ == want.subrange(0, i + 1),
            decreases data@.len() - i,
        {
            args.push(data[i] as u32);
            i = i + 1;
            assert(args@ =~= want.subrange(0, i + 1));
        }
        assert(want.subrange(0, want.len() as int) =~= want);
        Ok(args)
    }

    /// Takes the bytes that the read command returned into the buffer `data`.
    /// A reply that is no array of bytes, or that is not exactly as long as the
    /// buffer, is refused and leaves the buffer as it was.
    pub fn accept_reply(reply: &TangoReply, data: &mut [u8]) -> (r: Result<(), Error>)
        ensures
            final(data)@.len() == old(data)@.len(),
            accepted_bytes(*reply, old(data)@.len()) matches Some(bytes) ==> r is Ok && final(data)@
                == bytes,
            accepted_bytes(*reply, old(data)@.len()) is None ==> r == Err::<(), Error>(
                Error::TangoProto(TEXT_REPLY),
            ) && final(data)@ == old(data)@,
    {
        match reply {
            TangoReply::Bytes(bytes) => {
                let n = data.len();
                if bytes.len() != n {
                    return Err(Error::TangoProto(TEXT_REPLY));
                }
                let mut i: usize = 0;
                while i < n
                    invariant
                        i <= n,
                        n == data@.len() == bytes@.len(),
                        data@.subrange(0, i as int) == bytes@.subrange(0, i as int),
                    decreases n - i,
                {
                    data[i] = bytes[i];
                    i = i + 1;
                    assert(data@.subrange(0, i as int) =~= bytes@.subrange(0, i as int));
                }
                assert(data@ =~= data@.subrange(0, n as int));
                assert(bytes@ =~= bytes@.subrange(0, n as int));
                Ok(())
            },
            TangoReply::Other => Err(Error::TangoProto(TEXT_REPLY)),
        }
    }

    /// Takes note of an error that came up during the operation `operation`:
    /// the session is over, and the caller is told the error together with the
    /// operation.
    pub fn failed(&mut self, error: Error, operation: &'static str) -> (r: Error)
        ensures
            final(self)@ == (TangoView { connected: false, ..old(self)@ }),
            r == Error::Wrapped(Box::new(error), operation),
    {
        self.connected = false;
        error.wrap(operation)
    }

    /// The offsets at which a device behind this backend may keep its
    /// signature.
    pub fn get_offsets() -> (r: &'static [usize])
        ensures
            r@ == TG_OFFSETS@,
    {
        &TG_OFFSETS
    }

    /// Sets the base offset that is added to every byte address.
    pub fn set_offset(&mut self, offset: usize)
        ensures
            final(self)@ == (TangoView { offset, ..old(self)@ }),
    {
        self.offset = offset;
    }

    /// Takes note that the device proxy was dropped.
    pub fn disconnect(&mut self)
        ensures
            final(self)@ == (TangoView { connected: false, ..old(self)@ }),
    {
        self.connected = false;
    }

    /// Whether the device proxy has to be made before the next command.
    pub fn needs_connect(&self) -> (r: bool)
        ensures
            r == !self@.connected,
    {
        !self.connected
    }

    /// The address of the device.
    pub fn tango_dev(&self) -> (r: &str)
        ensures
            r@ == self@.tango_dev,
    {
        self.tango_dev.as_str()
    }

    /// The base offset that is added to every byte address.
    pub fn offset(&self) -> (r: usize)
        ensures
            r == self@.offset,
    {
        self.offset
    }
}

} // verus!
