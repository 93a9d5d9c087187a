//! The register transport: byte addresses over 16-bit holding registers.

use crate::pattern::{captures, groups_view, matches_whole, regex_captures, whole_match};
use crate::text::{chars_of, check_host, is_host, is_number, parse_number, parse_number_in};
use crate::{Error, ModbusFailure};
use vstd::prelude::*;

verus! {

/// What an address of this backend starts with.
pub const MB_SCHEME: &'static str = "modbus://";

/// The pattern that an address of this backend has to match as a whole.
pub const MB_ADDR_RE: &'static str = r"modbus://(.+?)(?::(\d+))?(?:/(\d+)?)?$";

/// The address grammar, as shown to the user with an invalid address.
pub const MB_ADDR_FMT: &'static str = "modbus://host[:port]/slave";

/// The TCP port that is used where the address names none.
pub const MB_PORT: u16 = 502;

/// The largest number of bytes that one register read asks for.
pub const CHUNK: usize = 250;

/// The number of 16-bit registers of a device.
pub const REGISTERS: usize = 0x1_0000;

/// The offsets at which a device of this kind may keep its signature.
pub const MB_OFFSETS: [usize; 3] = [0, 0x6000, 0x8000];

/// One read of consecutive holding registers, and where its bytes belong in the
/// caller's buffer.
#[derive(Debug, Clone, Copy, PartialEq, Eq, Structural)]
pub struct RegisterRead {
    /// Index of the first register.
    pub register: u16,
    /// Number of registers.
    pub count: u16,
    /// Position in the buffer of the first register's low byte.
    pub offset: usize,
}

/// The fields of a register-transport address.
pub struct ModbusAddress {
    pub host: Seq<char>,
    pub port: u16,
    pub slave: u8,
}

/// What a `ModbusProto` stands for.
pub struct ModbusView {
    pub host: Seq<char>,
    pub port: u16,
    pub slave: u8,
    pub offset: usize,
    pub connected: bool,
}

/// The address that `addr` spells, of which the pattern `MB_ADDR_RE` found the
/// capture groups `groups`: the pattern matched all of `addr`; group 1 is the
/// host, which is not empty and holds neither a colon nor a slash; group 2 is
/// the port where there is one, group 3 the slave where there is one.
pub open spec fn modbus_address(addr: Seq<char>, groups: Option<Seq<Option<Seq<char>>>>) -> Option<
    ModbusAddress,
> {
    match groups {
        Some(g) => {
            if matches_whole(MB_SCHEME@, addr, groups) && g.len() == 4 && g[1] is Some && is_host(
                g[1]->0,
            ) {
                let port = match g[2] {
                    Some(t) => parse_number(t, 0xFFFF),
                    None => Some(MB_PORT as nat),
                };
                let slave = match g[3] {
                    Some(t) => parse_number(t, 0xFF),
                    None => Some(0nat),
                };
                if port is Some && slave is Some {
                    Some(
                        ModbusAddress {
                            host: g[1]->0,
                            port: port->0 as u16,
                            slave: slave->0 as u8,
                        },
                    )
                } else {
                    None
                }
            } else {
                None
            }
        },
        None => None,
    }
}

/// Malformed addresses are refused: an address of which the pattern found
/// nothing, or found another number of groups than its four; an address that
/// does not start with the scheme, or that the pattern matched only in part; a
/// host that is empty or holds a colon or a slash, as it does where a port is
/// no number or a field too many follows; a port or a slave that is no number.
pub proof fn lemma_malformed_address_rejected(
    addr: Seq<char>,
    groups: Option<Seq<Option<Seq<char>>>>,
)
    ensures
        groups is None ==> modbus_address(addr, groups) is None,
        !MB_SCHEME@.is_prefix_of(addr) ==> modbus_address(addr, groups) is None,
        groups matches Some(g) ==> {
            &&& g.len() != 4 ==> modbus_address(addr, groups) is None
            &&& (g.len() == 4 && g[0] != Some(addr)) ==> modbus_address(addr, groups) is None
            &&& (g.len() == 4 && g[1] is Some && (g[1]->0.len() == 0 || g[1]->0.contains(':')
                || g[1]->0.contains('/'))) ==> modbus_address(addr, groups) is None
            &&& (g.len() == 4 && g[2] is Some && !is_number(g[2]->0)) ==> modbus_address(
                addr,
                groups,
            ) is None
            &&& (g.len() == 4 && g[3] is Some && !is_number(g[3]->0)) ==> modbus_address(
                addr,
                groups,
            ) is None
        },
{
}

/// The number of register reads that a transfer of `len` bytes is split into.
pub open spec fn chunk_count(len: nat) -> nat {
    (len + 249) / 250
}

/// The `k`-th register read of a transfer of `len` bytes that starts at
/// register `start`.
pub open spec fn read_chunk(start: nat, len: nat, k: nat) -> RegisterRead {
    let rest = len - 250 * k;
    RegisterRead {
        register: (start + 125 * k) as u16,
        count: (if rest < 250 {
            rest / 2
        } else {
            125
        }) as u16,
        offset: (250 * k) as usize,
    }
}

/// The register reads that a transfer of `len` bytes from register `start` on
/// is split into, in the order in which they are made.
pub open spec fn read_plan_spec(start: nat, len: nat) -> Seq<RegisterRead> {
    Seq::new(chunk_count(len), |k: int| read_chunk(start, len, k as nat))
}

/// The number of registers that the first `k` reads of a transfer of `len`
/// bytes cover.
pub open spec fn registers_after(len: nat, k: nat) -> nat {
    if 250 * k < len {
        125 * k
    } else {
        len / 2
    }
}

/// The bytes of `regs`, each register's low byte first.
pub open spec fn register_bytes(regs: Seq<u16>) -> Seq<u8> {
    Seq::new(
        2 * regs.len(),
        |i: int|
            if i % 2 == 0 {
                (regs[i / 2] % 0x100) as u8
            } else {
                (regs[i / 2] / 0x100) as u8
            },
    )
}

/// The registers that the byte pairs of `data` fill, low byte first; a last
/// byte without a partner is left out.
pub open spec fn packed_registers(data: Seq<u8>) -> Seq<u16> {
    Seq::new(data.len() / 2, |i: int| (data[2 * i] as int + data[2 * i + 1] as int * 0x100) as u16)
}

/// What the buffer holds when each read of `plan`, in turn, has been answered
/// from the registers `memory`.
pub open spec fn assembled(plan: Seq<RegisterRead>, memory: Seq<u16>) -> Seq<u8>
    decreases plan.len(),
{
    if plan.len() == 0 {
        Seq::empty()
    } else {
        let last = plan.last();
        assembled(plan.drop_last(), memory) + register_bytes(
            memory.subrange(last.register as int, last.register + last.count),
        )
    }
}

/// The bytes of two runs of registers, one after the other, are the bytes of
/// the joined run.
pub proof fn lemma_register_bytes_concat(a: Seq<u16>, b: Seq<u16>)
    ensures
        register_bytes(a + b) == register_bytes(a) + register_bytes(b),
{
    let left = register_bytes(a + b);
    let right = register_bytes(a) + register_bytes(b);
    assert(left.len() == right.len());
    assert forall|i: int| 0 <= i < left.len() implies left[i] == right[i] by {
        if i < 2 * a.len() {
            assert((a + b)[i / 2] == a[i / 2]);
        } else {
            let j = i - 2 * a.len();
            assert(j / 2 == i / 2 - a.len());
            assert(j % 2 == i % 2);
            assert((a + b)[i / 2] == b[j / 2]);
        }
    }
    assert(left =~= right);
}

/// Packing the bytes of registers gives the registers back, and the bytes of
/// packed byte pairs are those pairs.
pub proof fn lemma_pack_round_trip(regs: Seq<u16>, data: Seq<u8>)
    requires
        data.len() % 2 == 0,
    ensures
        packed_registers(register_bytes(regs)) == regs,
        register_bytes(packed_registers(data)) == data,
{
    let bytes = register_bytes(regs);
    let back = packed_registers(bytes);
    assert(back.len() == regs.len());
    assert forall|i: int| 0 <= i < regs.len() implies back[i] == regs[i] by {
        assert((2 * i) / 2 == i && (2 * i) % 2 == 0);
        assert((2 * i + 1) / 2 == i && (2 * i + 1) % 2 == 1);
    }
    assert(back =~= regs);
    let packed = packed_registers(data);
    let again = register_bytes(packed);
    assert(again.len() == data.len());
    assert forall|i: int| 0 <= i < data.len() implies again[i] == data[i] by {
        let k = i / 2;
        if i % 2 == 0 {
            assert(i == 2 * k);
        } else {
            assert(i == 2 * k + 1);
        }
    }
    assert(again =~= data);
}

/// A transfer that is split into chunks reads the same bytes as one read of
/// the whole range of registers would: after the first `k` reads of the plan
/// the buffer holds the bytes of the first registers of the range, and the
/// next read's bytes belong right behind them.
pub proof fn lemma_chunked_prefix(start: nat, len: nat, memory: Seq<u16>, k: nat)
    requires
        len % 2 == 0,
        start + len / 2 <= memory.len() <= 0x1_0000,
        k <= chunk_count(len),
    ensures
        assembled(read_plan_spec(start, len).take(k as int), memory) == register_bytes(
            memory.subrange(start as int, (start + registers_after(len, k)) as int),
        ),
        k < chunk_count(len) ==> read_plan_spec(start, len)[k as int].offset == assembled(
            read_plan_spec(start, len).take(k as int),
            memory,
        ).len(),
    decreases k,
{
    let plan = read_plan_spec(start, len);
    if k == 0 {
        assert(plan.take(0).len() == 0);
        assert(memory.subrange(start as int, start as int) =~= Seq::<u16>::empty());
        assert(register_bytes(Seq::<u16>::empty()) =~= Seq::<u8>::empty());
    } else {
        let j = (k - 1) as nat;
        lemma_chunked_prefix(start, len, memory, j);
        let head = plan.take(k as int);
        assert(head.drop_last() =~= plan.take(j as int));
        let last = head.last();
        assert(last == read_chunk(start, len, j));
        assert(250 * j < len);
        let upto = registers_after(len, k);
        assert(last.register == start + 125 * j);
        assert(last.register + last.count == start + upto);
        let a = memory.subrange(start as int, (start + 125 * j) as int);
        let b = memory.subrange(last.register as int, last.register + last.count);
        assert(a + b =~= memory.subrange(start as int, (start + upto) as int));
        lemma_register_bytes_concat(a, b);
    }
}

/// The chunked reads of a transfer, put together, are the bytes of a single
/// read of the whole range of registers.
pub proof fn lemma_chunked_read_is_whole_read(start: nat, len: nat, memory: Seq<u16>)
    requires
        len % 2 == 0,
        start + len / 2 <= memory.len() <= 0x1_0000,
    ensures
        assembled(read_plan_spec(start, len), memory) == register_bytes(
            memory.subrange(start as int, (start + len / 2) as int),
        ),
        assembled(read_plan_spec(start, len), memory).len() == len,
        len > 250 ==> read_plan_spec(start, len).len() >= 2,
{
    let plan = read_plan_spec(start, len);
    lemma_chunked_prefix(start, len, memory, chunk_count(len));
    assert(plan.take(plan.len() as int) =~= plan);
}

/// A transfer of `len` bytes from register `start` on is made in as many reads
/// as there are started runs of 250 bytes.  Read `k` starts at register
/// `start + 125 * k`, asks for the registers of 250 bytes, or of what is left
/// where that is less, and never for more than 125; its bytes belong at
/// `250 * k` in the buffer.
pub proof fn lemma_read_plan_shape(start: nat, len: nat)
    requires
        len % 2 == 0,
        start + len / 2 <= 0x1_0000,
        len <= usize::MAX,
    ensures
        read_plan_spec(start, len).len() == chunk_count(len),
        250 * chunk_count(len) >= len > 250 * (chunk_count(len) - 1),
        forall|k: int|
            0 <= k < chunk_count(len) ==> {
                let read = #[trigger] read_plan_spec(start, len)[k];
                &&& read.register == start + 125 * k
                &&& read.count == (if len - 250 * k < 250 {
                    len - 250 * k
                } else {
                    250
                }) / 2
                &&& 0 < read.count <= 125
                &&& read.offset == 250 * k
                &&& read.offset + 2 * read.count <= len
            },
{
}

/// The buffer `data` after the registers `regs`, which answer the read
/// `chunk`, were put into it.
pub open spec fn stored(data: Seq<u8>, chunk: RegisterRead, regs: Seq<u16>) -> Seq<u8> {
    data.subrange(0, chunk.offset as int) + register_bytes(regs) + data.subrange(
        chunk.offset + 2 * chunk.count,
        data.len() as int,
    )
}

/// The buffer `data` after each read of `plan`, in turn, was answered from
/// the registers `memory` and the answer put into the buffer.
pub open spec fn filled(data: Seq<u8>, plan: Seq<RegisterRead>, memory: Seq<u16>) -> Seq<u8>
    decreases plan.len(),
{
    if plan.len() == 0 {
        data
    } else {
        let last = plan.last();
        stored(
            filled(data, plan.drop_last(), memory),
            last,
            memory.subrange(last.register as int, last.register + last.count),
        )
    }
}

/// After the first `k` reads of a transfer were answered and stored, the
/// buffer starts with the bytes that these reads gave and goes on as it was.
pub proof fn lemma_filled_prefix(start: nat, len: nat, memory: Seq<u16>, data: Seq<u8>, k: nat)
    requires
        len % 2 == 0,
        start + len / 2 <= memory.len() <= 0x1_0000,
        data.len() == len <= usize::MAX,
        k <= chunk_count(len),
    ensures
        filled(data, read_plan_spec(start, len).take(k as int), memory) == assembled(
            read_plan_spec(start, len).take(k as int),
            memory,
        ) + data.subrange((2 * registers_after(len, k)) as int, len as int),
    decreases k,
{
    let plan = read_plan_spec(start, len);
    let head = plan.take(k as int);
    if k == 0 {
        assert(head.len() == 0);
        assert(Seq::<u8>::empty() + data.subrange(0, len as int) =~= data);
    } else {
        let j = (k - 1) as nat;
        lemma_filled_prefix(start, len, memory, data, j);
        lemma_chunked_prefix(start, len, memory, j);
        lemma_chunked_prefix(start, len, memory, k);
        assert(head.drop_last() =~= plan.take(j as int));
        let last = head.last();
        assert(last == read_chunk(start, len, j));
        let before = filled(data, plan.take(j as int), memory);
        let done = assembled(plan.take(j as int), memory);
        let regs = memory.subrange(last.register as int, last.register + last.count);
        assert(done.len() == 250 * j);
        assert(last.offset == 250 * j);
        assert(2 * registers_after(len, j) == 250 * j);
        assert(register_bytes(regs).len() == 2 * last.count);
        assert(250 * j + 2 * last.count == 2 * registers_after(len, k));
        assert(before.len() == len);
        assert(stored(before, last, regs) =~= done + register_bytes(regs) + data.subrange(
            (2 * registers_after(len, k)) as int,
            len as int,
        ));
    }
}

/// Running the plan of a transfer fills the buffer with one read of the whole
/// range: when every read of the plan was answered from the registers
/// `memory` and stored, byte `2 * i` of the buffer is the low byte and byte
/// `2 * i + 1` the high byte of register `start + i`, whatever the buffer held
/// before.
pub proof fn lemma_plan_fills_buffer(start: nat, len: nat, memory: Seq<u16>, data: Seq<u8>)
    requires
        len % 2 == 0,
        start + len / 2 <= memory.len() <= 0x1_0000,
        data.len() == len <= usize::MAX,
    ensures
        filled(data, read_plan_spec(start, len), memory) == register_bytes(
            memory.subrange(start as int, (start + len / 2) as int),
        ),
        forall|i: int|
            0 <= i < len / 2 ==> {
                &&& filled(data, read_plan_spec(start, len), memory)[2 * i] == #[trigger] memory[start
                    + i] % 0x100
                &&& filled(data, read_plan_spec(start, len), memory)[2 * i + 1] == memory[start + i]
                    / 0x100
            },
{
    let plan = read_plan_spec(start, len);
    lemma_filled_prefix(start, len, memory, data, chunk_count(len));
    lemma_chunked_read_is_whole_read(start, len, memory);
    assert(plan.take(plan.len() as int) =~= plan);
    let whole = register_bytes(memory.subrange(start as int, (start + len / 2) as int));
    assert(registers_after(len, chunk_count(len)) == len / 2);
    assert(whole + data.subrange(len as int, len as int) =~= whole);
    assert forall|i: int| 0 <= i < len / 2 implies whole[2 * i] == #[trigger] memory[start + i]
        % 0x100 && whole[2 * i + 1] == memory[start + i] / 0x100 by {
        assert((2 * i) / 2 == i && (2 * i) % 2 == 0);
        assert((2 * i + 1) / 2 == i && (2 * i + 1) % 2 == 1);
    }
}

/// A backend that reaches its device through 16-bit holding registers.
pub struct ModbusProto {
    host: String,
    port: u16,
    slave: u8,
    offset: usize,
    connected: bool,
}

impl View for ModbusProto {
    type V = ModbusView;

    closed spec fn view(&self) -> ModbusView {
        ModbusView {
            host: self.host@,
            port: self.port,
            slave: self.slave,
            offset: self.offset,
            connected: self.connected,
        }
    }
}

impl ModbusProto {
    /// Reads an address of the form `modbus://host[:port][/slave]`.  The backend
    /// is not connected and its base offset is zero.  Text before the scheme
    /// makes the address invalid, and so does a host that is empty or holds a
    /// colon or a slash.
    pub fn new(addr: &str) -> (r: Result<ModbusProto, Error>)
        ensures
            match modbus_address(addr@, regex_captures(MB_ADDR_RE@, addr@)) {
                Some(a) => r matches Ok(p) && p@ == (ModbusView {
                    host: a.host,
                    port: a.port,
                    slave: a.slave,
                    offset: 0,
                    connected: false,
                }),
                None => r == Err::<ModbusProto, Error>(Error::InvalidAddress(MB_ADDR_FMT)),
            },
            r matches Ok(p) ==> {
                &&& matches_whole(MB_SCHEME@, addr@, regex_captures(MB_ADDR_RE@, addr@))
                &&& is_host(p@.host)
            },
    {
        Self::from_groups(addr, captures(MB_ADDR_RE, addr))
    }

    /// Builds the backend for the address `addr` from the capture groups that
    /// `MB_ADDR_RE` found in it; `None` stands for an address that the pattern
    /// does not match.  The address is refused unless it starts with the scheme
    /// and group 0, the text that matched, is all of it.
    pub fn from_groups(addr: &str, groups: Option<Vec<Option<String>>>) -> (r: Result<
        ModbusProto,
        Error,
    >)
        ensures
            match modbus_address(addr@, groups_view(groups)) {
                Some(a) => r matches Ok(p) && p@ == (ModbusView {
                    host: a.host,
                    port: a.port,
                    slave: a.slave,
                    offset: 0,
                    connected: false,
                }),
                None => r == Err::<ModbusProto, Error>(Error::InvalidAddress(MB_ADDR_FMT)),
            },
            r matches Ok(p) ==> {
                &&& matches_whole(MB_SCHEME@, addr@, groups_view(groups))
                &&& is_host(p@.host)
            },
    {
        if !whole_match(MB_SCHEME, addr, &groups) {
            return Err(Error::InvalidAddress(MB_ADDR_FMT));
        }
        let g = match groups {
            Some(g) => g,
            None => return Err(Error::InvalidAddress(MB_ADDR_FMT)),
        };
        if g.len() != 4 {
            return Err(Error::InvalidAddress(MB_ADDR_FMT));
        }
        let ghost gv = groups_view(Some(g))->0;
        assert(gv[1] == match g@[1] { None => None, Some(s) => Some(s@) });
        assert(gv[2] == match g@[2] { None => None, Some(s) => Some(s@) });
        assert(gv[3] == match g@[3] { None => None, Some(s) => Some(s@) });
        let host = match &g[1] {
            Some(h) => {
                let c = chars_of(h.as_str());
                assert(c@.subrange(0, c@.len() as int) =~= c@);
                if !check_host(c.as_slice(), 0, c.len()) {
                    return Err(Error::InvalidAddress(MB_ADDR_FMT));
                }
                h.clone()
            },
            None => return Err(Error::InvalidAddress(MB_ADDR_FMT)),
        };
        let port: u16 = match &g[2] {
            Some(t) => {
                let c = chars_of(t.as_str());
                assert(c@.subrange(0, c@.len() as int) =~= c@);
                match parse_number_in(c.as_slice(), 0, c.len(), 0xFFFF) {
                    Some(v) => v as u16,
                    None => return Err(Error::InvalidAddress(MB_ADDR_FMT)),
                }
            },
            None => MB_PORT,
        };
        let slave: u8 = match &g[3] {
            Some(t) => {
                let c = chars_of(t.as_str());
                assert(c@.subrange(0, c@.len() as int) =~= c@);
                match parse_number_in(c.as_slice(), 0, c.len(), 0xFF) {
                    Some(v) => v as u8,
                    None => return Err(Error::InvalidAddress(MB_ADDR_FMT)),
                }
            },
            None => 0,
        };
        Ok(ModbusProto { host, port, slave, offset: 0, connected: false })
    }

    /// The register that the byte address `addr` lies in, with the base offset
    /// added.
    pub fn convert_addr(&self, addr: usize) -> (r: Result<u16, Error>)
        ensures
            match r {
                Ok(register) => register == (self@.offset + addr) / 2,
                Err(e) => (self@.offset + addr) / 2 >= 0x1_0000 && e == Error::Modbus(
                    ModbusFailure::AddressTooBig,
                ),
            },
    {
        match self.offset.checked_add(addr) {
            Some(sum) => {
                if sum / 2 < REGISTERS {
                    Ok((sum / 2) as u16)
                } else {
                    Err(Error::Modbus(ModbusFailure::AddressTooBig))
                }
            },
            None => Err(Error::Modbus(ModbusFailure::AddressTooBig)),
        }
    }

    /// The register reads that fill a buffer of `len` bytes from the byte
    /// address `addr` on.  An address beyond the register space, an odd `len`,
    /// and a range that runs beyond the last register are refused, in this
    /// order.
    pub fn read_plan(&self, addr: usize, len: usize) -> (r: Result<Vec<RegisterRead>, Error>)
        ensures
            match r {
                Ok(plan) => {
                    &&& len % 2 == 0
                    &&& (self@.offset + addr) / 2 < 0x1_0000
                    &&& (self@.offset + addr) / 2 + len / 2 <= 0x1_0000
                    &&& plan@ == read_plan_spec(((self@.offset + addr) / 2) as nat, len as nat)
                },
                Err(e) => {
                    if (self@.offset + addr) / 2 >= 0x1_0000 {
                        e == Error::Modbus(ModbusFailure::AddressTooBig)
                    } else if len % 2 != 0 {
                        e == Error::Modbus(ModbusFailure::OddLength)
                    } else {
                        (self@.offset + addr) / 2 + len / 2 > 0x1_0000 && e == Error::Modbus(
                            ModbusFailure::AddressTooBig,
                        )
                    }
                },
            },
    {
        let start = self.convert_addr(addr)?;
        if len % 2 != 0 {
            return Err(Error::Modbus(ModbusFailure::OddLength));
        }
        if len / 2 > REGISTERS - start as usize {
            return Err(Error::Modbus(ModbusFailure::AddressTooBig));
        }
        let ghost want = read_plan_spec(start as nat, len as nat);
        let mut plan: Vec<RegisterRead> = Vec::new();
        let mut register: usize = start as usize;
        let mut offset: usize = 0;
        while offset < len
            invariant
                len % 2 == 0,
                start + len / 2 <= 0x1_0000,
                want == read_plan_spec(start as nat, len as nat),
                offset == if 250 * plan@.len() < len {
                    250 * plan@.len()
                } else {
                    len as nat
                },
                register == start + offset / 2,
                plan@.len() <= chunk_count(len as nat),
                plan@ == want.take(plan@.len() as int),
            decreases len - offset,
        {
            let rest = len - offset;
            let bytes = if rest < CHUNK {
                rest
            } else {
                CHUNK
            };
            let ghost k = plan@.len();
            let chunk = RegisterRead {
                register: register as u16,
                count: (bytes / 2) as u16,
                offset,
            };
            assert(chunk == read_chunk(start as nat, len as nat, k));
            plan.push(chunk);
            assert(plan@ =~= want.take(k + 1 as int));
            offset = offset + bytes;
            register = register + bytes / 2;
        }
        assert(want.take(want.len() as int) =~= want);
        Ok(plan)
    }

    /// Puts the registers `regs`, which answer the read `chunk`, into the
    /// buffer, each register's low byte first.  Another number of registers
    /// than the read asked for, or a read that does not lie in the buffer, is
    /// refused and leaves the buffer as it was.
    pub fn store_registers(data: &mut [u8], chunk: &RegisterRead, regs: &[u16]) -> (r: Result<
        (),
        Error,
    >)
        ensures
            final(data)@.len() == old(data)@.len(),
            match r {
                Ok(()) => {
                    &&& regs@.len() == chunk.count
                    &&& chunk.offset + 2 * chunk.count <= old(data)@.len()
                    &&& final(data)@ == stored(old(data)@, *chunk, regs@)
                },
                Err(e) => {
                    &&& !(regs@.len() == chunk.count && chunk.offset + 2 * chunk.count <= old(
                        data,
                    )@.len())
                    &&& final(data)@ == old(data)@
                    &&& e == Error::Modbus(ModbusFailure::UnexpectedReplySize)
                },
            },
    {
        let n = regs.len();
        if n != chunk.count as usize || chunk.offset > data.len() || 2 * n > data.len()
            - chunk.offset {
            return Err(Error::Modbus(ModbusFailure::UnexpectedReplySize));
        }
        let base = chunk.offset;
        let ghost bytes = register_bytes(regs@);
        let mut i: usize = 0;
        while i < n
            invariant
                i <= n == regs@.len(),
                base + 2 * n <= data@.len() == old(data)@.len() <= usize::MAX,
                bytes == register_bytes(regs@),
                data@ == old(data)@.subrange(0, base as int) + bytes.subrange(0, 2 * i)
                    + old(data)@.subrange(base + 2 * i, old(data)@.len() as int),
            decreases n - i,
        {
            let reg = regs[i];
            data[base + 2 * i] = (reg % 0x100) as u8;
            data[base + 2 * i + 1] = (reg / 0x100) as u8;
            proof {
                assert((2 * i) / 2 == i && (2 * i) % 2 == 0);
                assert((2 * i + 1) / 2 == i && (2 * i + 1) % 2 == 1);
                assert(bytes[2 * i] == (reg % 0x100) as u8);
                assert(bytes[2 * i + 1] == (reg / 0x100) as u8);
            }
            i = i + 1;
            assert(data@ =~= old(data)@.subrange(0, base as int) + bytes.subrange(0, 2 * i)
                + old(data)@.subrange(base + 2 * i, old(data)@.len() as int));
        }
        assert(bytes.subrange(0, 2 * n) =~= bytes);
        Ok(())
    }

    /// The register write that stores `data` at the byte address `addr`: the
    /// first register and the registers' values, each made of a byte pair, low
    /// byte first.  The refusals are those of `read_plan`.
    pub fn write_plan(&self, addr: usize, data: &[u8]) -> (r: Result<(u16, Vec<u16>), Error>)
        ensures
            match r {
                Ok((register, regs)) => {
                    &&& data@.len() % 2 == 0
                    &&& (self@.offset + addr) / 2 < 0x1_0000
                    &&& register == (self@.offset + addr) / 2
                    &&& register + data@.len() / 2 <= 0x1_0000
                    &&& regs@ == packed_registers(data@)
                },
                Err(e) => {
                    if (self@.offset + addr) / 2 >= 0x1_0000 {
                        e == Error::Modbus(ModbusFailure::AddressTooBig)
                    } else if data@.len() % 2 != 0 {
                        e == Error::Modbus(ModbusFailure::OddLength)
                    } else {
                        (self@.offset + addr) / 2 + data@.len() / 2 > 0x1_0000 && e
                            == Error::Modbus(ModbusFailure::AddressTooBig)
                    }
                },
            },
    {
        let start = self.convert_addr(addr)?;
        let len = data.len();
        if len % 2 != 0 {
            return Err(Error::Modbus(ModbusFailure::OddLength));
        }
        if len / 2 > REGISTERS - start as usize {
            return Err(Error::Modbus(ModbusFailure::AddressTooBig));
        }
        let n = len / 2;
        let ghost want = packed_registers(data@);
        let mut regs: Vec<u16> = Vec::new();
        let mut i: usize = 0;
        while i < n
            invariant
                i <= n,
                2 * n == data@.len() <= usize::MAX,
                want == packed_registers(data@),
                regs@ == want.subrange(0, i as int),
            decreases n - i,
        {
            regs.push(data[2 * i] as u16 + data[2 * i + 1] as u16 * 0x100);
            i = i + 1;
            assert(regs@ =~= want.subrange(0, i as int));
        }
        assert(want.subrange(0, n as int) =~= want);
        Ok((start, regs))
    }

    /// Takes note of a failure that the register client reported while the
    /// operation `operation` was under way, and says what the caller is told.
    /// A transport failure ends the session and is annotated with the
    /// operation; any other failure is passed on as it is.
    pub fn failed(&mut self, failure: ModbusFailure, operation: &'static str) -> (r: Error)
        ensures
            final(self)@.host == old(self)@.host,
            final(self)@.port == old(self)@.port,
            final(self)@.slave == old(self)@.slave,
            final(self)@.offset == old(self)@.offset,
            failure is Io ==> !final(self)@.connected && r == Error::Wrapped(
                Box::new(Error::Modbus(failure)),
                operation,
            ),
            !(failure is Io) ==> final(self)@.connected == old(self)@.connected && r
                == Error::Modbus(failure),
    {
        match failure {
            ModbusFailure::Io(_) => {
                self.connected = false;
                Error::Wrapped(Box::new(Error::Modbus(failure)), operation)
            },
            _ => Error::Modbus(failure),
        }
    }

    /// The offsets at which a device behind this backend may keep its
    /// signature.
    pub fn get_offsets() -> (r: &'static [usize])
        ensures
            r@ == MB_OFFSETS@,
    {
        &MB_OFFSETS
    }

    /// Sets the base offset that is added to every byte address.
    pub fn set_offset(&mut self, offset: usize)
        ensures
            final(self)@ == (ModbusView { offset, ..old(self)@ }),
    {
        self.offset = offset;
    }

    /// Takes note that the transport was established.
    pub fn connected(&mut self)
        ensures
            final(self)@ == (ModbusView { connected: true, ..old(self)@ }),
    {
        self.connected = true;
    }

    /// Takes note that the transport was dropped.
    pub fn disconnect(&mut self)
        ensures
            final(self)@ == (ModbusView { connected: false, ..old(self)@ }),
    {
        self.connected = false;
    }

    /// Whether the transport has to be established before the next request.
    pub fn needs_connect(&self) -> (r: bool)
        ensures
            r == !self@.connected,
    {
        !self.connected
    }

    /// The host to connect to.
    pub fn host(&self) -> (r: &str)
        ensures
            r@ == self@.host,
    {
        self.host.as_str()
    }

    /// The TCP port to connect to.
    pub fn port(&self) -> (r: u16)
        ensures
            r == self@.port,
    {
        self.port
    }

    /// The unit of the device that the requests are meant for.
    pub fn slave(&self) -> (r: u8)
        ensures
            r == self@.slave,
    {
        self.slave
    }

    /// The base offset that is added to every byte address.
    pub fn offset(&self) -> (r: usize)
        ensures
            r == self@.offset,
    {
        self.offset
    }
}

} // verus!
