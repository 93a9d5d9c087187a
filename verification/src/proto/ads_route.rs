//! The datagram that asks an ADS router to add a route to this client.  Its
//! numbers are written least significant byte first.

use crate::bytes::{
    get_le16, get_le32, le16, le16_at, le32, le32_at, put_bytes, put_le16, put_le32,
};
use crate::proto::ads_frame::AmsAddr;
use vstd::prelude::*;

verus! {

/// The number that every datagram of this protocol starts with.
pub const UDP_MAGIC: u32 = 0x7114_6603;

/// The operation "add a route".
pub const SERVICE_ADD_ROUTE: u32 = 6;

/// Tag of the item that holds a password.
pub const TAG_PASSWORD: u16 = 2;

/// Tag of the item that holds the address of the route's host.
pub const TAG_COMPUTER_NAME: u16 = 5;

/// Tag of the item that holds a network id.
pub const TAG_NETID: u16 = 7;

/// Tag of the item that holds the route's name.
pub const TAG_ROUTE_NAME: u16 = 12;

/// Tag of the item that holds the name of the router's user.
pub const TAG_USER_NAME: u16 = 13;

/// Tag of the item in which a router reports how an operation ended.
pub const TAG_STATUS: u16 = 1;

/// What is set in the operation of a datagram that answers another.
pub const REPLY_FLAG: u32 = 0x8000_0000;

/// Size of a datagram's header: magic number, invoke id, operation, source
/// address and number of items.
pub const UDP_HEADER_SIZE: usize = 24;

/// The number of items of an "add a route" datagram.
pub const ROUTE_ITEMS: u32 = 5;

/// The longest data that one item takes.
pub const ITEM_MAX: usize = 0xFFFF;

/// An item of a datagram: tag, length of the data, data.
pub open spec fn item_bytes(tag: u16, data: Seq<u8>) -> Seq<u8> {
    le16(tag) + le16(data.len() as u16) + data
}

/// An item that holds text: the text is followed by a zero byte, which the
/// item's length counts.
pub open spec fn text_item(tag: u16, text: Seq<u8>) -> Seq<u8> {
    item_bytes(tag, text + seq![0u8])
}

/// The datagram that asks for a route to `source`: the magic number, an
/// invoke id of zero, the operation, the source address and the number of
/// items; then the route's name, the source's network id, the user, the
/// password and the source's host address, in this order.
pub open spec fn route_datagram_spec(
    source: AmsAddr,
    route_name: Seq<u8>,
    user: Seq<u8>,
    password: Seq<u8>,
    host: Seq<u8>,
) -> Seq<u8> {
    le32(UDP_MAGIC) + le32(0) + le32(SERVICE_ADD_ROUTE) + source.netid.0@ + le16(source.port)
        + le32(ROUTE_ITEMS) + text_item(TAG_ROUTE_NAME, route_name) + item_bytes(TAG_NETID, source.netid.0@)
        + text_item(TAG_USER_NAME, user) + text_item(TAG_PASSWORD, password) + text_item(
        TAG_COMPUTER_NAME,
        host,
    )
}

/// The ASCII digits of `n` in base ten, without leading zeros.
pub open spec fn decimal(n: u8) -> Seq<u8> {
    if n < 10 {
        seq![(0x30 + n) as u8]
    } else if n < 100 {
        seq![(0x30 + n / 10) as u8, (0x30 + n % 10) as u8]
    } else {
        seq![(0x30 + n / 100) as u8, (0x30 + n / 10 % 10) as u8, (0x30 + n % 10) as u8]
    }
}

/// The four numbers as ASCII text with a dot between each two, like an IPv4
/// address.
pub open spec fn dotted_quad(a: u8, b: u8, c: u8, d: u8) -> Seq<u8> {
    decimal(a) + seq![0x2Eu8] + decimal(b) + seq![0x2Eu8] + decimal(c) + seq![0x2Eu8] + decimal(d)
}

/// Appends the ASCII digits of `n` to `out`.
pub fn put_decimal(out: &mut Vec<u8>, n: u8)
    ensures
        final(out)@ == old(out)@ + decimal(n),
{
    if n >= 100 {
        out.push(0x30 + n / 100);
    }
    if n >= 10 {
        out.push(0x30 + n / 10 % 10);
    }
    out.push(0x30 + n % 10);
    assert(out@ =~= old(out)@ + decimal(n));
}

/// The four numbers as ASCII text with a dot between each two.
pub fn dotted_quad_bytes(a: u8, b: u8, c: u8, d: u8) -> (r: Vec<u8>)
    ensures
        r@ == dotted_quad(a, b, c, d),
        r@.len() <= 15,
{
    let mut out: Vec<u8> = Vec::new();
    put_decimal(&mut out, a);
    out.push(0x2E);
    put_decimal(&mut out, b);
    out.push(0x2E);
    put_decimal(&mut out, c);
    out.push(0x2E);
    put_decimal(&mut out, d);
    assert(out@ =~= dotted_quad(a, b, c, d));
    out
}

/// Appends an item with the tag `tag` and the data `data` to `out`.
pub fn put_item(out: &mut Vec<u8>, tag: u16, data: &[u8])
    requires
        data@.len() <= ITEM_MAX,
    ensures
        final(out)@ == old(out)@ + item_bytes(tag, data@),
{
    put_le16(out, tag);
    put_le16(out, data.len() as u16);
    put_bytes(out, data);
    assert(out@ =~= old(out)@ + item_bytes(tag, data@));
}

/// Appends an item with the tag `tag` that holds the text `text` to `out`.
pub fn put_text_item(out: &mut Vec<u8>, tag: u16, text: &[u8])
    requires
        text@.len() < ITEM_MAX,
    ensures
        final(out)@ == old(out)@ + text_item(tag, text@),
{
    put_le16(out, tag);
    put_le16(out, (text.len() + 1) as u16);
    put_bytes(out, text);
    out.push(0);
    assert(out@ =~= old(out)@ + text_item(tag, text@));
}

/// The datagram that asks a router for a route to `source`.
pub fn route_datagram(
    source: &AmsAddr,
    route_name: &[u8],
    user: &[u8],
    password: &[u8],
    host: &[u8],
) -> (r: Vec<u8>)
    requires
        route_name@.len() < ITEM_MAX,
        user@.len() < ITEM_MAX,
        password@.len() < ITEM_MAX,
        host@.len() < ITEM_MAX,
    ensures
        r@ == route_datagram_spec(*source, route_name@, user@, password@, host@),
{
    let mut out: Vec<u8> = Vec::new();
    put_le32(&mut out, UDP_MAGIC);
    put_le32(&mut out, 0);
    put_le32(&mut out, SERVICE_ADD_ROUTE);
    put_bytes(&mut out, source.netid.0.as_slice());
    put_le16(&mut out, source.port);
    put_le32(&mut out, ROUTE_ITEMS);
    put_text_item(&mut out, TAG_ROUTE_NAME, route_name);
    put_item(&mut out, TAG_NETID, source.netid.0.as_slice());
    put_text_item(&mut out, TAG_USER_NAME, user);
    put_text_item(&mut out, TAG_PASSWORD, password);
    put_text_item(&mut out, TAG_COMPUTER_NAME, host);
    assert(out@ =~= route_datagram_spec(*source, route_name@, user@, password@, host@));
    out
}

/// The data of the first item with the tag `tag` among the items that start at
/// `pos` in the datagram `b`.  The items end where fewer than two bytes are
/// left; an item that is cut short holds nothing and ends the search.
pub open spec fn item_data(b: Seq<u8>, pos: int, tag: u16) -> Option<Seq<u8>>
    decreases b.len() - pos,
{
    if pos < 0 || pos + 4 > b.len() {
        None
    } else {
        let end = pos + 4 + le16_at(b, pos + 2);
        if end > b.len() {
            None
        } else if le16_at(b, pos) == tag {
            Some(b.subrange(pos + 4, end))
        } else {
            item_data(b, end, tag)
        }
    }
}

/// The status that the datagram `b` reports as the answer to "add a route": `b`
/// starts with the magic number, an invoke id of zero and the operation with
/// the reply flag, and its first status item holds the status in its first
/// four bytes.
pub open spec fn route_status(b: Seq<u8>) -> Option<u32> {
    if b.len() >= UDP_HEADER_SIZE && le32_at(b, 0) == UDP_MAGIC && le32_at(b, 4) == 0 && le32_at(
        b,
        8,
    ) == SERVICE_ADD_ROUTE + REPLY_FLAG {
        match item_data(b, UDP_HEADER_SIZE as int, TAG_STATUS) {
            Some(data) => if data.len() >= 4 {
                Some(le32_at(data, 0))
            } else {
                None
            },
            None => None,
        }
    } else {
        None
    }
}

/// Reads the status that a router's answer to "add a route" reports.
pub fn route_reply_status(reply: &[u8]) -> (r: Option<u32>)
    ensures
        r == route_status(reply@),
{
    let n = reply.len();
    if n < UDP_HEADER_SIZE || get_le32(reply, 0) != UDP_MAGIC || get_le32(reply, 4) != 0
        || get_le32(reply, 8) != SERVICE_ADD_ROUTE + REPLY_FLAG {
        return None;
    }
    let mut pos: usize = UDP_HEADER_SIZE;
    while n - pos >= 4
        invariant
            UDP_HEADER_SIZE <= pos <= n == reply@.len(),
            le32_at(reply@, 0) == UDP_MAGIC,
            le32_at(reply@, 4) == 0,
            le32_at(reply@, 8) == SERVICE_ADD_ROUTE + REPLY_FLAG,
            item_data(reply@, UDP_HEADER_SIZE as int, TAG_STATUS) == item_data(
                reply@,
                pos as int,
                TAG_STATUS,
            ),
        decreases n - pos,
    {
        let tag = get_le16(reply, pos);
        let len = get_le16(reply, pos + 2) as usize;
        if len > n - pos - 4 {
            return None;
        }
        if tag == TAG_STATUS {
            if len < 4 {
                return None;
            }
            let ghost data = reply@.subrange(pos + 4, pos + 4 + len);
            assert(le32_at(data, 0) == le32_at(reply@, pos + 4));
            return Some(get_le32(reply, pos + 4));
        }
        pos = pos + 4 + len;
    }
    None
}

/// Whether a router's answer to "add a route" says that the route was added:
/// it reports the status zero.
pub fn route_accepted(reply: &[u8]) -> (r: bool)
    ensures
        r == (route_status(reply@) == Some(0u32)),
{
    match route_reply_status(reply) {
        Some(status) => status == 0,
        None => false,
    }
}

} // verus!
