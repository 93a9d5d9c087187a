//! The frames of the ADS protocol: how a request is laid out and what makes a
//! reply acceptable.

use crate::bytes::{
    be16, be16_at, be32, be32_at, get_be16, get_be32, lemma_be16_round_trip, lemma_be32_round_trip,
    put_be16, put_be32, put_bytes,
};
use crate::proto::ads_errors::{describe, description};
use crate::{AdsFailure, Error};
use vstd::prelude::*;

verus! {

/// Size of a frame's header, the two reserved bytes and the length included.
pub const HEADER_SIZE: usize = 38;

/// Size of the part of the header that the length field counts.
pub const HEADER_TAIL: usize = 32;

/// Size of what is read of a reply before its payload: header and result code.
pub const REPLY_HEAD_SIZE: usize = 42;

/// State flags of a request.
pub const REQUEST_FLAGS: u16 = 4;

/// State flags of a reply.
pub const RESPONSE_FLAGS: u16 = 5;

/// The AMS port that this client gives as its own.
pub const CLIENT_PORT: u16 = 58913;

/// Size of the payload of a device-info reply: two version bytes, a build
/// number and a name of sixteen bytes.
pub const DEVICE_INFO_SIZE: usize = 20;

pub const TEXT_SHORT_HEAD: &'static str = "incomplete reply header";

pub const TEXT_STATE_FLAGS: &'static str = "unexpected state flags";

pub const TEXT_DATA_LENGTH: &'static str = "unexpected data length";

pub const TEXT_INVOKE_ID: &'static str = "unexpected invoke ID";

pub const TEXT_READ_LENGTH: &'static str = "got less data than expected";

/// An AMS network id: six bytes, written like `5.53.35.202.1.1`.
#[derive(Debug, Clone, Copy, PartialEq, Eq)]
pub struct AmsNetId(pub [u8; 6]);

/// An endpoint of the protocol's routing layer: network id and AMS port.
#[derive(Debug, Clone, Copy, PartialEq, Eq)]
pub struct AmsAddr {
    pub netid: AmsNetId,
    pub port: u16,
}

impl AmsAddr {
    /// The eight bytes of the address in a frame.
    pub open spec fn bytes(self) -> Seq<u8> {
        self.netid.0@ + be16(self.port)
    }
}

/// The commands that this client sends.
#[derive(Debug, Clone, Copy, PartialEq, Eq, Structural)]
pub enum Command {
    /// Ask for the device's name and version.
    DevInfo,
    /// Read data at an index group and offset.
    Read,
    /// Write data at an index group and offset.
    Write,
}

impl Command {
    /// The command's id in a frame.
    pub open spec fn code_spec(self) -> u16 {
        match self {
            Command::DevInfo => 1,
            Command::Read => 2,
            Command::Write => 3,
        }
    }

    /// What the command does, for error messages.
    pub open spec fn action_spec(self) -> &'static str {
        match self {
            Command::DevInfo => "get device info",
            Command::Read => "read data",
            Command::Write => "write data",
        }
    }

    /// The command's id in a frame.
    pub fn code(self) -> (r: u16)
        ensures
            r == self.code_spec(),
    {
        match self {
            Command::DevInfo => 1,
            Command::Read => 2,
            Command::Write => 3,
        }
    }

    /// What the command does, for error messages.
    pub fn action(self) -> (r: &'static str)
        ensures
            r == self.action_spec(),
    {
        match self {
            Command::DevInfo => "get device info",
            Command::Read => "read data",
            Command::Write => "write data",
        }
    }
}

/// The fields of a frame's header behind the two reserved bytes.
#[derive(Debug, Clone, Copy, PartialEq, Eq)]
pub struct AmsHeader {
    /// Number of bytes that follow the length field.
    pub length: u32,
    pub target: AmsAddr,
    pub source: AmsAddr,
    pub command: u16,
    pub state_flags: u16,
    /// Number of bytes that follow the header.
    pub data_length: u32,
    pub error_code: u32,
    pub invoke_id: u32,
}

/// The 38 bytes of a header: every field in network byte order, one behind the
/// other without padding.
pub open spec fn header_bytes(h: AmsHeader) -> Seq<u8> {
    seq![0u8, 0u8] + be32(h.length) + h.target.bytes() + h.source.bytes() + be16(h.command)
        + be16(h.state_flags) + be32(h.data_length) + be32(h.error_code) + be32(h.invoke_id)
}

/// The header of a request that carries `payload_len` bytes.
pub open spec fn request_header(
    command: Command,
    target: AmsAddr,
    source: AmsAddr,
    invoke_id: u32,
    payload_len: nat,
) -> AmsHeader {
    AmsHeader {
        length: (HEADER_TAIL + payload_len) as u32,
        target,
        source,
        command: command.code_spec(),
        state_flags: REQUEST_FLAGS,
        data_length: payload_len as u32,
        error_code: 0,
        invoke_id,
    }
}

/// The frame of a request: its header, then its payload.
pub open spec fn request_bytes(
    command: Command,
    target: AmsAddr,
    source: AmsAddr,
    invoke_id: u32,
    payload: Seq<u8>,
) -> Seq<u8> {
    header_bytes(request_header(command, target, source, invoke_id, payload.len())) + payload
}

/// The payload of a read request, and the start of that of a write request:
/// index group, offset and length.
pub open spec fn index_bytes(group: u32, offset: u32, length: u32) -> Seq<u8> {
    be32(group) + be32(offset) + be32(length)
}

/// What is checked of a reply before its payload is read: the fields of its
/// header and the result code behind the header.
pub struct ReplyHead {
    pub command: u16,
    pub state_flags: u16,
    pub data_length: u32,
    pub error_code: u32,
    pub invoke_id: u32,
    pub result: u32,
}

/// The fields of the reply that starts with the bytes `b`.
pub open spec fn reply_head(b: Seq<u8>) -> ReplyHead {
    ReplyHead {
        command: be16_at(b, 22),
        state_flags: be16_at(b, 24),
        data_length: be32_at(b, 26),
        error_code: be32_at(b, 30),
        invoke_id: be32_at(b, 34),
        result: be32_at(b, 38),
    }
}

/// The frame of a reply with the header `h`, the result code `result` and the
/// payload `payload`.
pub open spec fn reply_bytes(h: AmsHeader, result: u32, payload: Seq<u8>) -> Seq<u8> {
    header_bytes(h) + be32(result) + payload
}

/// The verdict on the head of a reply to the command `command` that was sent
/// with `invoke_id` and expects `expected` bytes behind the header.  The checks
/// are made in this order, and the first that fails decides: the state flags
/// are those of a reply; the data length is the expected one; the error code is
/// zero; the invoke id is that of the request; the result code is zero.  The
/// expected size is a wider number than the header's data length, so that a
/// request whose reply would not fit 32 bits finds no reply of the right
/// length.
pub open spec fn check_reply_spec(
    command: Command,
    invoke_id: u32,
    expected: u64,
    head: Seq<u8>,
) -> Result<(), AdsFailure> {
    let action = command.action_spec();
    let h = reply_head(head);
    if head.len() < REPLY_HEAD_SIZE {
        Err(AdsFailure::Reply { action, text: TEXT_SHORT_HEAD, value: head.len() as u32 })
    } else if h.state_flags != RESPONSE_FLAGS {
        Err(AdsFailure::Reply { action, text: TEXT_STATE_FLAGS, value: h.state_flags as u32 })
    } else if h.data_length != expected {
        Err(AdsFailure::Reply { action, text: TEXT_DATA_LENGTH, value: h.data_length })
    } else if h.error_code != 0 {
        Err(AdsFailure::Ads { action, text: description(h.error_code), code: h.error_code })
    } else if h.invoke_id != invoke_id {
        Err(AdsFailure::Reply { action, text: TEXT_INVOKE_ID, value: h.invoke_id })
    } else if h.result != 0 {
        Err(AdsFailure::Ads { action, text: description(h.result), code: h.result })
    } else {
        Ok(())
    }
}

/// What the payload of a read reply yields for a buffer of `wanted` bytes: the
/// payload is the length of the data and then the data, and the data must be
/// exactly as long as the buffer.
pub open spec fn read_payload_spec(payload: Seq<u8>, wanted: nat) -> Result<Seq<u8>, AdsFailure> {
    if payload.len() < 4 {
        Err(
            AdsFailure::Reply {
                action: Command::Read.action_spec(),
                text: TEXT_READ_LENGTH,
                value: 0,
            },
        )
    } else if be32_at(payload, 0) != wanted || payload.len() != 4 + wanted {
        Err(
            AdsFailure::Reply {
                action: Command::Read.action_spec(),
                text: TEXT_READ_LENGTH,
                value: be32_at(payload, 0),
            },
        )
    } else {
        Ok(payload.subrange(4, payload.len() as int))
    }
}

/// Appends the bytes of the address `a` to `out`.
pub fn put_addr(out: &mut Vec<u8>, a: &AmsAddr)
    ensures
        final(out)@ == old(out)@ + a.bytes(),
{
    let mut i: usize = 0;
    while i < 6
        invariant
            i <= 6,
            out@ == old(out)@ + a.netid.0@.subrange(0, i as int),
        decreases 6 - i,
    {
        out.push(a.netid.0[i]);
        i = i + 1;
        assert(out@ =~= old(out)@ + a.netid.0@.subrange(0, i as int));
    }
    assert(a.netid.0@.subrange(0, 6) =~= a.netid.0@);
    put_be16(out, a.port);
    assert(out@ =~= old(out)@ + a.bytes());
}

/// The frame of a request with the payload `first` followed by `second`.
pub fn encode_request(
    command: Command,
    target: &AmsAddr,
    source: &AmsAddr,
    invoke_id: u32,
    first: &[u8],
    second: &[u8],
) -> (r: Result<Vec<u8>, Error>)
    ensures
        match r {
            Ok(frame) => first@.len() + second@.len() + HEADER_TAIL <= u32::MAX && frame@
                == request_bytes(command, *target, *source, invoke_id, first@ + second@),
            Err(e) => first@.len() + second@.len() + HEADER_TAIL > u32::MAX && e == Error::ADS(
                AdsFailure::Overflow,
            ),
        },
{
    let limit: usize = 0xFFFF_FFFF - HEADER_TAIL;
    if first.len() > limit || second.len() > limit - first.len() {
        return Err(Error::ADS(AdsFailure::Overflow));
    }
    let n = first.len() + second.len();
    let mut out: Vec<u8> = Vec::new();
    out.push(0);
    out.push(0);
    put_be32(&mut out, (HEADER_TAIL + n) as u32);
    put_addr(&mut out, target);
    put_addr(&mut out, source);
    put_be16(&mut out, command.code());
    put_be16(&mut out, REQUEST_FLAGS);
    put_be32(&mut out, n as u32);
    put_be32(&mut out, 0);
    put_be32(&mut out, invoke_id);
    put_bytes(&mut out, first);
    put_bytes(&mut out, second);
    assert(out@ =~= request_bytes(command, *target, *source, invoke_id, first@ + second@));
    Ok(out)
}

/// The payload of a read request, and the start of that of a write request.
pub fn encode_index(group: u32, offset: u32, length: u32) -> (r: Vec<u8>)
    ensures
        r@ == index_bytes(group, offset, length),
{
    let mut out: Vec<u8> = Vec::new();
    put_be32(&mut out, group);
    put_be32(&mut out, offset);
    put_be32(&mut out, length);
    assert(out@ =~= index_bytes(group, offset, length));
    out
}

/// Judges the head of a reply: the first 42 bytes that came back for the
/// command `command`, which was sent with `invoke_id` and expects `expected`
/// bytes behind the header.
pub fn check_reply(command: Command, invoke_id: u32, expected: u64, head: &[u8]) -> (r: Result<
    (),
    Error,
>)
    ensures
        match check_reply_spec(command, invoke_id, expected, head@) {
            Ok(()) => r is Ok,
            Err(f) => r == Err::<(), Error>(Error::ADS(f)),
        },
{
    let action = command.action();
    if head.len() < REPLY_HEAD_SIZE {
        return Err(
            Error::ADS(
                AdsFailure::Reply { action, text: TEXT_SHORT_HEAD, value: head.len() as u32 },
            ),
        );
    }
    let state_flags = get_be16(head, 24);
    let data_length = get_be32(head, 26);
    let error_code = get_be32(head, 30);
    let reply_id = get_be32(head, 34);
    let result = get_be32(head, 38);
    if state_flags != RESPONSE_FLAGS {
        Err(
            Error::ADS(
                AdsFailure::Reply { action, text: TEXT_STATE_FLAGS, value: state_flags as u32 },
            ),
        )
    } else if data_length as u64 != expected {
        Err(Error::ADS(AdsFailure::Reply { action, text: TEXT_DATA_LENGTH, value: data_length }))
    } else if error_code != 0 {
        Err(Error::ADS(AdsFailure::Ads { action, text: describe(error_code), code: error_code }))
    } else if reply_id != invoke_id {
        Err(Error::ADS(AdsFailure::Reply { action, text: TEXT_INVOKE_ID, value: reply_id }))
    } else if result != 0 {
        Err(Error::ADS(AdsFailure::Ads { action, text: describe(result), code: result }))
    } else {
        Ok(())
    }
}

/// Takes the data out of the payload of a read reply into the buffer `data`.
/// Where the payload does not hold exactly as many bytes as the buffer is
/// long, the buffer stays as it was.
pub fn accept_read(payload: &[u8], data: &mut [u8]) -> (r: Result<(), Error>)
    ensures
        final(data)@.len() == old(data)@.len(),
        match read_payload_spec(payload@, old(data)@.len()) {
            Ok(bytes) => r is Ok && final(data)@ == bytes,
            Err(f) => r == Err::<(), Error>(Error::ADS(f)) && final(data)@ == old(data)@,
        },
{
    let n = data.len();
    if payload.len() < 4 {
        return Err(
            Error::ADS(
                AdsFailure::Reply { action: Command::Read.action(), text: TEXT_READ_LENGTH, value: 0 },
            ),
        );
    }
    let echoed = get_be32(payload, 0);
    if echoed as usize != n || payload.len() - 4 != n {
        return Err(
            Error::ADS(
                AdsFailure::Reply {
                    action: Command::Read.action(),
                    text: TEXT_READ_LENGTH,
                    value: echoed,
                },
            ),
        );
    }
    let ghost want = payload@.subrange(4, payload@.len() as int);
    let mut i: usize = 0;
    while i < n
        invariant
            i <= n,
            n == data@.len(),
            payload@.len() == 4 + n <= usize::MAX,
            want == payload@.subrange(4, payload@.len() as int),
            data@.subrange(0, i as int) == want.subrange(0, i as int),
        decreases n - i,
    {
        data[i] = payload[4 + i];
        i = i + 1;
        assert(data@.subrange(0, i as int) =~= want.subrange(0, i as int));
    }
    assert(data@ =~= data@.subrange(0, n as int));
    assert(want =~= want.subrange(0, n as int));
    Ok(())
}

/// What a device tells of itself.
#[derive(Debug, Clone, PartialEq, Eq)]
pub struct DeviceInfo {
    pub major: u8,
    pub minor: u8,
    pub version: u16,
    /// The device's name: the bytes before the first zero byte.
    pub name: Vec<u8>,
}

/// The number of bytes of `b` before its first zero byte; the length of `b`
/// where it holds none.
pub open spec fn text_length(b: Seq<u8>) -> int
    decreases b.len(),
{
    if b.len() == 0 || b[0] == 0 {
        0
    } else {
        1 + text_length(b.drop_first())
    }
}

/// Reads the payload of a device-info reply: major and minor version, a build
/// number, and a name in sixteen bytes that a zero byte ends where it is
/// shorter.  A payload of another size is refused.
pub fn device_info(payload: &[u8]) -> (r: Option<DeviceInfo>)
    ensures
        payload@.len() != DEVICE_INFO_SIZE ==> r is None,
        payload@.len() == DEVICE_INFO_SIZE ==> (r matches Some(info) && {
            &&& info.major == payload@[0]
            &&& info.minor == payload@[1]
            &&& info.version == be16_at(payload@, 2)
            &&& info.name@ == payload@.subrange(4, 4 + text_length(payload@.subrange(4, 20)))
        }),
{
    if payload.len() != DEVICE_INFO_SIZE {
        return None;
    }
    let ghost field = payload@.subrange(4, 20);
    let mut name: Vec<u8> = Vec::new();
    let mut i: usize = 4;
    assert(field.subrange(0, 16) =~= field);
    while i < 20 && payload[i] != 0
        invariant
            4 <= i <= 20 == payload@.len(),
            field == payload@.subrange(4, 20),
            name@ == payload@.subrange(4, i as int),
            text_length(field) == (i - 4) + text_length(field.subrange(i - 4, 16)),
        decreases 20 - i,
    {
        let ghost rest = field.subrange(i - 4, 16);
        assert(rest[0] == payload@[i as int]);
        assert(rest.drop_first() =~= field.subrange(i - 3, 16));
        name.push(payload[i]);
        i = i + 1;
        assert(name@ =~= payload@.subrange(4, i as int));
    }
    proof {
        let rest = field.subrange(i - 4, 16);
        if i < 20 {
            assert(rest[0] == payload@[i as int]);
        }
        assert(text_length(rest) == 0);
    }
    Some(DeviceInfo { major: payload[0], minor: payload[1], version: get_be16(payload, 2), name })
}

/// The head of a reply frame spells the fields that the frame was made of, and
/// the payload follows the head.
pub proof fn lemma_reply_head_of_frame(h: AmsHeader, result: u32, payload: Seq<u8>)
    ensures
        header_bytes(h).len() == HEADER_SIZE,
        reply_bytes(h, result, payload).len() == REPLY_HEAD_SIZE + payload.len(),
        reply_head(reply_bytes(h, result, payload)) == (ReplyHead {
            command: h.command,
            state_flags: h.state_flags,
            data_length: h.data_length,
            error_code: h.error_code,
            invoke_id: h.invoke_id,
            result,
        }),
        reply_head(reply_bytes(h, result, payload).subrange(0, REPLY_HEAD_SIZE as int))
            == reply_head(reply_bytes(h, result, payload)),
        reply_bytes(h, result, payload).subrange(
            REPLY_HEAD_SIZE as int,
            REPLY_HEAD_SIZE + payload.len(),
        ) == payload,
{
    let frame = reply_bytes(h, result, payload);
    let head = frame.subrange(0, REPLY_HEAD_SIZE as int);
    assert(h.target.bytes().len() == 8);
    assert(h.source.bytes().len() == 8);
    assert(frame.len() == REPLY_HEAD_SIZE + payload.len());
    assert(frame.subrange(22, 24) =~= be16(h.command));
    assert(frame.subrange(24, 26) =~= be16(h.state_flags));
    assert(frame.subrange(26, 30) =~= be32(h.data_length));
    assert(frame.subrange(30, 34) =~= be32(h.error_code));
    assert(frame.subrange(34, 38) =~= be32(h.invoke_id));
    assert(frame.subrange(38, 42) =~= be32(result));
    assert(be16_at(frame, 22) == be16_at(frame.subrange(22, 24), 0));
    assert(be16_at(frame, 24) == be16_at(frame.subrange(24, 26), 0));
    assert(be32_at(frame, 26) == be32_at(frame.subrange(26, 30), 0));
    assert(be32_at(frame, 30) == be32_at(frame.subrange(30, 34), 0));
    assert(be32_at(frame, 34) == be32_at(frame.subrange(34, 38), 0));
    assert(be32_at(frame, 38) == be32_at(frame.subrange(38, 42), 0));
    lemma_be16_round_trip(h.command);
    lemma_be16_round_trip(h.state_flags);
    lemma_be32_round_trip(h.data_length);
    lemma_be32_round_trip(h.error_code);
    lemma_be32_round_trip(h.invoke_id);
    lemma_be32_round_trip(result);
    assert(frame.subrange(REPLY_HEAD_SIZE as int, REPLY_HEAD_SIZE + payload.len()) =~= payload);
}

/// A request frame spells what it was made of: the length counts the tail of
/// the header and the payload, the addresses, the command and the invoke id
/// stand at their places, the flags are those of a request, the error code is
/// zero, and the payload follows the header.
pub proof fn lemma_request_fields(
    command: Command,
    target: AmsAddr,
    source: AmsAddr,
    invoke_id: u32,
    payload: Seq<u8>,
)
    requires
        payload.len() + HEADER_TAIL <= u32::MAX,
    ensures
        ({
            let frame = request_bytes(command, target, source, invoke_id, payload);
            &&& frame.len() == HEADER_SIZE + payload.len()
            &&& frame[0] == 0 && frame[1] == 0
            &&& be32_at(frame, 2) == HEADER_TAIL + payload.len()
            &&& frame.subrange(6, 14) == target.bytes()
            &&& frame.subrange(14, 22) == source.bytes()
            &&& be16_at(frame, 22) == command.code_spec()
            &&& be16_at(frame, 24) == REQUEST_FLAGS
            &&& be32_at(frame, 26) == payload.len()
            &&& be32_at(frame, 30) == 0
            &&& be32_at(frame, 34) == invoke_id
            &&& frame.subrange(HEADER_SIZE as int, frame.len() as int) == payload
        }),
{
    let h = request_header(command, target, source, invoke_id, payload.len());
    let frame = request_bytes(command, target, source, invoke_id, payload);
    assert(target.bytes().len() == 8);
    assert(source.bytes().len() == 8);
    assert(frame.len() == HEADER_SIZE + payload.len());
    assert(frame.subrange(2, 6) =~= be32(h.length));
    assert(frame.subrange(6, 14) =~= target.bytes());
    assert(frame.subrange(14, 22) =~= source.bytes());
    assert(frame.subrange(22, 24) =~= be16(h.command));
    assert(frame.subrange(24, 26) =~= be16(h.state_flags));
    assert(frame.subrange(26, 30) =~= be32(h.data_length));
    assert(frame.subrange(30, 34) =~= be32(h.error_code));
    assert(frame.subrange(34, 38) =~= be32(h.invoke_id));
    assert(be32_at(frame, 2) == be32_at(frame.subrange(2, 6), 0));
    assert(be16_at(frame, 22) == be16_at(frame.subrange(22, 24), 0));
    assert(be16_at(frame, 24) == be16_at(frame.subrange(24, 26), 0));
    assert(be32_at(frame, 26) == be32_at(frame.subrange(26, 30), 0));
    assert(be32_at(frame, 30) == be32_at(frame.subrange(30, 34), 0));
    assert(be32_at(frame, 34) == be32_at(frame.subrange(34, 38), 0));
    lemma_be32_round_trip(h.length);
    lemma_be16_round_trip(h.command);
    lemma_be16_round_trip(h.state_flags);
    lemma_be32_round_trip(h.data_length);
    lemma_be32_round_trip(h.error_code);
    lemma_be32_round_trip(h.invoke_id);
    assert(frame.subrange(HEADER_SIZE as int, frame.len() as int) =~= payload);
}

/// Reading gives back what the peer sent: a reply to a read request that
/// carries the request's invoke id, the flags of a reply, error and result
/// codes of zero and the right data length passes the checks, and its payload
/// yields exactly the peer's `data`.
pub proof fn lemma_read_round_trip(reply: AmsHeader, invoke_id: u32, data: Seq<u8>)
    requires
        data.len() + 8 <= u32::MAX,
        reply.state_flags == RESPONSE_FLAGS,
        reply.data_length == 8 + data.len(),
        reply.error_code == 0,
        reply.invoke_id == invoke_id,
    ensures
        ({
            let frame = reply_bytes(reply, 0, be32(data.len() as u32) + data);
            &&& frame.len() == REPLY_HEAD_SIZE + 4 + data.len()
            &&& check_reply_spec(
                Command::Read,
                invoke_id,
                (8 + data.len()) as u64,
                frame.subrange(0, REPLY_HEAD_SIZE as int),
            ) == Ok::<(), AdsFailure>(())
            &&& read_payload_spec(
                frame.subrange(REPLY_HEAD_SIZE as int, frame.len() as int),
                data.len(),
            ) == Ok::<Seq<u8>, AdsFailure>(data)
        }),
{
    let payload = be32(data.len() as u32) + data;
    lemma_reply_head_of_frame(reply, 0, payload);
    lemma_be32_round_trip(data.len() as u32);
    assert(be32_at(payload, 0) == be32_at(be32(data.len() as u32), 0));
    assert(payload.subrange(4, payload.len() as int) =~= data);
}

/// A reply whose invoke id is not that of the request is refused, whatever its
/// other fields hold; where they are all in order, the refusal names the
/// invoke id.
pub proof fn lemma_invoke_id_mismatch_rejected(
    command: Command,
    invoke_id: u32,
    expected: u64,
    head: Seq<u8>,
)
    requires
        head.len() >= REPLY_HEAD_SIZE,
        reply_head(head).invoke_id != invoke_id,
    ensures
        check_reply_spec(command, invoke_id, expected, head) is Err,
        reply_head(head).state_flags == RESPONSE_FLAGS && reply_head(head).data_length == expected
            && reply_head(head).error_code == 0 ==> check_reply_spec(
            command,
            invoke_id,
            expected,
            head,
        ) == Err::<(), AdsFailure>(
            AdsFailure::Reply {
                action: command.action_spec(),
                text: TEXT_INVOKE_ID,
                value: reply_head(head).invoke_id,
            },
        ),
{
}

/// A request whose reply would not fit the 32 bits of the header's data length
/// finds no acceptable reply: every reply is refused, and one with the flags of
/// a reply is refused for its data length.
pub proof fn lemma_oversized_reply_refused(
    command: Command,
    invoke_id: u32,
    expected: u64,
    head: Seq<u8>,
)
    requires
        expected > u32::MAX,
    ensures
        check_reply_spec(command, invoke_id, expected, head) is Err,
        head.len() >= REPLY_HEAD_SIZE && reply_head(head).state_flags == RESPONSE_FLAGS
            ==> check_reply_spec(command, invoke_id, expected, head) == Err::<(), AdsFailure>(
            AdsFailure::Reply {
                action: command.action_spec(),
                text: TEXT_DATA_LENGTH,
                value: reply_head(head).data_length,
            },
        ),
{
}

} // verus!
