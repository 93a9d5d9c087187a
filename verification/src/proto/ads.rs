//! The ADS backend: its address, its session and the requests it sends.

use crate::pattern::{captures, groups_view, matches_whole, regex_captures, whole_match};
use crate::proto::ads_frame::{
    check_reply, check_reply_spec, encode_index, encode_request, index_bytes, request_bytes,
    AmsAddr, AmsNetId, Command, CLIENT_PORT, DEVICE_INFO_SIZE,
};
use crate::proto::ads_route::{dotted_quad, dotted_quad_bytes, route_datagram, route_datagram_spec};
use crate::text::{
    chars_of, check_host, decimal_text, find_char, first_index, is_digit, is_host, is_number,
    lemma_decimal_text, lemma_first_index, lemma_first_index_contains, lemma_first_index_is,
    parse_number, parse_number_in,
};
use crate::{AdsFailure, Error};
use vstd::prelude::*;

verus! {

/// The TCP port of an ADS router.
pub const ADS_PORT: u16 = 0xBF02;

/// The UDP port at which an ADS router takes requests for routes.
pub const ADS_UDP_PORT: u16 = 0xBF03;

/// What an address of this backend starts with.
pub const ADS_SCHEME: &'static str = "ads://";

/// The pattern that an address of this backend has to match as a whole.
pub const ADS_ADDR_RE: &'static str = r"ads://(.+?)/(\d+.\d+.\d+.\d+(.\d+.\d+)?):(\d+)$";

/// The address grammar, as shown to the user with an invalid address.
pub const ADS_ADDR_FMT: &'static str = "ads://host[:port]/amsnetid:amsport";

/// The index group of the PLC's memory area.
pub const PLC_RW_M: u32 = 0x4020;

/// The offsets at which a device of this kind may keep its signature.
pub const ADS_OFFSETS: [usize; 1] = [0];

/// How long to wait, in milliseconds, between asking for a route and
/// connecting again.
pub const ROUTE_SETTLE_MS: u64 = 500;

/// The user in whose name a route is asked for: `Administrator`.
pub const ROUTE_USER: [u8; 13] = [
    0x41,
    0x64,
    0x6D,
    0x69,
    0x6E,
    0x69,
    0x73,
    0x74,
    0x72,
    0x61,
    0x74,
    0x6F,
    0x72,
];

/// What the name of a route starts with: `zapf-`.
pub const ROUTE_PREFIX: [u8; 5] = [0x7A, 0x61, 0x70, 0x66, 0x2D];

/// The second password that is tried for a route: `1`.  The first is empty.
pub const ROUTE_PASSWORD: [u8; 1] = [0x31];

/// The fields of an ADS address.
pub struct AdsAddress {
    pub host: Seq<char>,
    pub port: u16,
    pub netid: Seq<u8>,
    pub ams_port: u16,
}

/// `acc` followed by `rest`, where there is a `rest`.
pub open spec fn prepend(acc: Seq<u8>, rest: Option<Seq<u8>>) -> Option<Seq<u8>> {
    match rest {
        Some(r) => Some(acc + r),
        None => None,
    }
}

/// The numbers that `s` spells as fields with a dot between each two, where
/// every field is a number of at most 255.
pub open spec fn dotted_bytes(s: Seq<char>) -> Option<Seq<u8>>
    decreases s.len(),
{
    let i = first_index(s, '.');
    match parse_number(s.subrange(0, i), 0xFF) {
        None => None,
        Some(v) => {
            if 0 <= i < s.len() {
                prepend(seq![v as u8], dotted_bytes(s.subrange(i + 1, s.len() as int)))
            } else {
                Some(seq![v as u8])
            }
        },
    }
}

/// The network id that `s` spells: six numbers, or four, which `1.1` then
/// follows.
pub open spec fn netid_of(s: Seq<char>) -> Option<Seq<u8>> {
    match dotted_bytes(s) {
        Some(b) => {
            if b.len() == 6 {
                Some(b)
            } else if b.len() == 4 {
                Some(b + seq![1u8, 1u8])
            } else {
                None
            }
        },
        None => None,
    }
}

/// The host in the part of an address before the network id: what stands
/// before the first colon, or all of it where there is no colon.
pub open spec fn host_part(s: Seq<char>) -> Seq<char> {
    let i = first_index(s, ':');
    if 0 <= i < s.len() {
        s.subrange(0, i)
    } else {
        s
    }
}

/// Host and TCP port of the part of an address before the network id: the
/// host is not empty and holds no slash; what follows the first colon is the
/// port; without a colon the port is `ADS_PORT`.
pub open spec fn host_and_port(s: Seq<char>) -> Option<(Seq<char>, u16)> {
    let i = first_index(s, ':');
    if !is_host(host_part(s)) {
        None
    } else if 0 <= i < s.len() {
        match parse_number(s.subrange(i + 1, s.len() as int), 0xFFFF) {
            Some(p) => Some((host_part(s), p as u16)),
            None => None,
        }
    } else {
        Some((host_part(s), ADS_PORT))
    }
}

/// The address that `addr` spells, of which the pattern `ADS_ADDR_RE` found
/// the capture groups `groups`: the pattern matched all of `addr`; group 1 is
/// the host with its port, group 2 the network id, group 4 the AMS port.
pub open spec fn ads_address(addr: Seq<char>, groups: Option<Seq<Option<Seq<char>>>>) -> Option<
    AdsAddress,
> {
    match groups {
        Some(g) => {
            if matches_whole(ADS_SCHEME@, addr, groups) && g.len() == 5 && g[1] is Some && g[2]
                is Some && g[4] is Some {
                match (host_and_port(g[1]->0), netid_of(g[2]->0), parse_number(g[4]->0, 0xFFFF)) {
                    (Some((host, port)), Some(netid), Some(ams)) => Some(
                        AdsAddress { host, port, netid, ams_port: ams as u16 },
                    ),
                    _ => None,
                }
            } else {
                None
            }
        },
        None => None,
    }
}

/// An address that is read starts with the scheme and was matched as a whole,
/// and its host is not empty and holds neither a colon nor a slash.
pub proof fn lemma_address_is_whole(addr: Seq<char>, groups: Option<Seq<Option<Seq<char>>>>)
    ensures
        ads_address(addr, groups) matches Some(a) ==> {
            &&& ADS_SCHEME@.is_prefix_of(addr)
            &&& groups->0[0] == Some(addr)
            &&& is_host(a.host)
        },
{
}

/// A network id that is written with four numbers is read as those four
/// followed by 1 and 1; every network id that is read has six bytes.
pub proof fn lemma_short_netid_is_extended(s: Seq<char>)
    ensures
        netid_of(s) matches Some(id) ==> id.len() == 6,
        dotted_bytes(s) matches Some(b) ==> (b.len() == 4 ==> {
            &&& netid_of(s) == Some(b + seq![1u8, 1u8])
            &&& netid_of(s)->0.subrange(0, 4) == b
            &&& netid_of(s)->0[4] == 1
            &&& netid_of(s)->0[5] == 1
        }),
{
    if let Some(b) = dotted_bytes(s) {
        if b.len() == 4 {
            assert((b + seq![1u8, 1u8]).subrange(0, 4) =~= b);
        }
    }
}

/// Every address that is read has a network id of six bytes, and where the
/// address spells it with four numbers, its last two bytes are 1 and 1.
pub proof fn lemma_address_netid(addr: Seq<char>, groups: Option<Seq<Option<Seq<char>>>>)
    ensures
        ads_address(addr, groups) matches Some(a) ==> {
            &&& a.netid.len() == 6
            &&& a.netid == netid_of(groups->0[2]->0)->0
            &&& (dotted_bytes(groups->0[2]->0)->0.len() == 4 ==> a.netid[4] == 1 && a.netid[5] == 1
                && a.netid.subrange(0, 4) == dotted_bytes(groups->0[2]->0)->0)
        },
{
    if let Some(a) = ads_address(addr, groups) {
        lemma_short_netid_is_extended(groups->0[2]->0);
    }
}

/// The numbers of `fields`, each in base ten, with a dot between each two.
pub open spec fn dotted_text(fields: Seq<u8>) -> Seq<char>
    decreases fields.len(),
{
    if fields.len() == 0 {
        Seq::empty()
    } else if fields.len() == 1 {
        decimal_text(fields[0] as nat)
    } else {
        decimal_text(fields[0] as nat) + seq!['.'] + dotted_text(fields.drop_first())
    }
}

/// Numbers that are written in base ten with dots between them are read as
/// these numbers.
pub proof fn lemma_dotted_text_is_read(fields: Seq<u8>)
    requires
        fields.len() >= 1,
    ensures
        dotted_bytes(dotted_text(fields)) == Some(fields),
    decreases fields.len(),
{
    let first = decimal_text(fields[0] as nat);
    let s = dotted_text(fields);
    lemma_decimal_text(fields[0] as nat);
    assert(parse_number(first, 0xFF) == Some(fields[0] as nat));
    assert forall|i: int| 0 <= i < first.len() implies first[i] != '.' by {
        assert(is_digit(first[i]));
    }
    if fields.len() == 1 {
        lemma_first_index_is(s, '.', s.len() as int);
        assert(s.subrange(0, s.len() as int) =~= first);
        assert(seq![fields[0]] =~= fields);
    } else {
        let rest = dotted_text(fields.drop_first());
        lemma_dotted_text_is_read(fields.drop_first());
        assert forall|i: int| 0 <= i < first.len() implies s[i] != '.' by {
            assert(s[i] == first[i]);
        }
        assert(s[first.len() as int] == '.');
        lemma_first_index_is(s, '.', first.len() as int);
        assert(s.subrange(0, first.len() as int) =~= first);
        assert(s.subrange(first.len() as int + 1, s.len() as int) =~= rest);
        assert(seq![fields[0]] + fields.drop_first() =~= fields);
    }
}

/// Every address with a network id of four numbers is read with these four
/// numbers followed by 1 and 1: where the pattern finds, in an address that
/// starts with the scheme, the host `host`, the network id `a.b.c.d` and the
/// AMS port `n`, each number in base ten, the address is that of the host at
/// the usual port, of the network id `a.b.c.d.1.1` and of the AMS port `n`.
pub proof fn lemma_short_address_is_read(
    addr: Seq<char>,
    host: Seq<char>,
    a: u8,
    b: u8,
    c: u8,
    d: u8,
    n: u16,
)
    requires
        ADS_SCHEME@.is_prefix_of(addr),
        is_host(host),
    ensures
        ads_address(
            addr,
            Some(
                seq![
                    Some(addr),
                    Some(host),
                    Some(dotted_text(seq![a, b, c, d])),
                    None,
                    Some(decimal_text(n as nat)),
                ],
            ),
        ) == Some(
            AdsAddress { host, port: ADS_PORT, netid: seq![a, b, c, d, 1u8, 1u8], ams_port: n },
        ),
{
    let id = seq![a, b, c, d];
    lemma_dotted_text_is_read(id);
    lemma_decimal_text(n as nat);
    assert(parse_number(decimal_text(n as nat), 0xFFFF) == Some(n as nat));
    lemma_first_index_contains(host, ':');
    assert(host_part(host) == host);
    assert(host_and_port(host) == Some((host, ADS_PORT)));
    assert(id + seq![1u8, 1u8] =~= seq![a, b, c, d, 1u8, 1u8]);
    assert(netid_of(dotted_text(id)) == Some(seq![a, b, c, d, 1u8, 1u8]));
}

/// The number of fields that the dots of `s` part it into.
pub open spec fn field_count(s: Seq<char>) -> nat
    decreases s.len(),
{
    let i = first_index(s, '.');
    if 0 <= i < s.len() {
        1 + field_count(s.subrange(i + 1, s.len() as int))
    } else {
        1
    }
}

/// Where every field of `s` is a number, there are as many numbers as fields.
pub proof fn lemma_dotted_field_count(s: Seq<char>)
    ensures
        dotted_bytes(s) matches Some(b) ==> b.len() == field_count(s),
    decreases s.len(),
{
    let i = first_index(s, '.');
    if 0 <= i < s.len() {
        lemma_dotted_field_count(s.subrange(i + 1, s.len() as int));
    }
}

/// Malformed addresses are refused: an address of which the pattern found
/// nothing, or found another number of groups than its five; an address that
/// does not start with the scheme, or that the pattern matched only in part; a
/// host that is empty or holds a slash; a network id of another number of
/// fields than four or six; an AMS port, or a TCP port behind the host's
/// colon, that is no number.
pub proof fn lemma_malformed_address_rejected(
    addr: Seq<char>,
    groups: Option<Seq<Option<Seq<char>>>>,
)
    ensures
        groups is None ==> ads_address(addr, groups) is None,
        !ADS_SCHEME@.is_prefix_of(addr) ==> ads_address(addr, groups) is None,
        groups matches Some(g) ==> {
            &&& g.len() != 5 ==> ads_address(addr, groups) is None
            &&& (g.len() == 5 && g[0] != Some(addr)) ==> ads_address(addr, groups) is None
            &&& (g.len() == 5 && g[1] is Some && (host_part(g[1]->0).len() == 0 || host_part(
                g[1]->0,
            ).contains('/'))) ==> ads_address(addr, groups) is None
            &&& (g.len() == 5 && g[2] is Some && field_count(g[2]->0) != 4 && field_count(g[2]->0)
                != 6) ==> ads_address(addr, groups) is None
            &&& (g.len() == 5 && g[4] is Some && !is_number(g[4]->0)) ==> ads_address(
                addr,
                groups,
            ) is None
            &&& (g.len() == 5 && g[1] is Some && 0 <= first_index(g[1]->0, ':') < g[1]->0.len()
                && !is_number(
                g[1]->0.subrange(first_index(g[1]->0, ':') + 1, g[1]->0.len() as int),
            )) ==> ads_address(addr, groups) is None
        },
{
    if let Some(g) = groups {
        if g.len() == 5 {
            if let Some(id) = g[2] {
                lemma_dotted_field_count(id);
            }
        }
    }
}

/// Reads the numbers that `s` spells as fields with a dot between each two.
pub fn parse_dotted(s: &[char]) -> (r: Option<Vec<u8>>)
    ensures
        match dotted_bytes(s@) {
            Some(b) => r matches Some(v) && v@ == b,
            None => r is None,
        },
{
    let n = s.len();
    let mut fields: Vec<u8> = Vec::new();
    let mut p: usize = 0;
    assert(s@.subrange(0, n as int) =~= s@);
    assert(forall|o: Option<Seq<u8>>| #[trigger] prepend(Seq::<u8>::empty(), o) == o) by {
        assert forall|o: Option<Seq<u8>>| #[trigger] prepend(Seq::<u8>::empty(), o) == o by {
            if let Some(r) = o {
                assert(Seq::<u8>::empty() + r =~= r);
            }
        }
    }
    loop
        invariant_except_break
            p <= n == s@.len(),
            dotted_bytes(s@) == prepend(fields@, dotted_bytes(s@.subrange(p as int, n as int))),
        ensures
            dotted_bytes(s@) == Some(fields@),
        decreases n - p,
    {
        let ghost w = s@.subrange(p as int, n as int);
        let i = find_char(s, p, n, '.');
        proof {
            lemma_first_index(w, '.');
            assert(w.subrange(0, i as int) =~= s@.subrange(p as int, p + i));
        }
        match parse_number_in(s, p, p + i, 0xFF) {
            None => {
                return None;
            },
            Some(v) => {
                let ghost before = fields@;
                fields.push(v as u8);
                if p + i == n {
                    assert(dotted_bytes(w) == Some(seq![v as u8]));
                    assert(before + seq![v as u8] =~= fields@);
                    break ;
                }
                let ghost rest = s@.subrange(p + i + 1, n as int);
                assert(w.subrange(i + 1, w.len() as int) =~= rest);
                assert(dotted_bytes(w) == prepend(seq![v as u8], dotted_bytes(rest)));
                assert(prepend(before, prepend(seq![v as u8], dotted_bytes(rest))) == prepend(
                    fields@,
                    dotted_bytes(rest),
                )) by {
                    if let Some(r) = dotted_bytes(rest) {
                        assert(before + (seq![v as u8] + r) =~= fields@ + r);
                    }
                }
                p = p + i + 1;
            },
        }
    }
    Some(fields)
}

/// Reads a network id: six numbers of at most 255 with dots between them, or
/// four, which are then followed by 1 and 1.
pub fn parse_netid(text: &str) -> (r: Option<AmsNetId>)
    ensures
        match netid_of(text@) {
            Some(b) => r matches Some(id) && id.0@ == b,
            None => r is None,
        },
{
    let chars = chars_of(text);
    match parse_dotted(chars.as_slice()) {
        Some(f) => {
            if f.len() == 6 {
                let id = AmsNetId([f[0], f[1], f[2], f[3], f[4], f[5]]);
                assert(id.0@ =~= f@);
                Some(id)
            } else if f.len() == 4 {
                let id = AmsNetId([f[0], f[1], f[2], f[3], 1, 1]);
                assert(id.0@ =~= f@ + seq![1u8, 1u8]);
                Some(id)
            } else {
                None
            }
        },
        None => None,
    }
}

/// Splits the part of an address before the network id into host and TCP
/// port.  A host that is empty or holds a slash is refused, and so is a port
/// that is no number of 16 bits.
pub fn parse_host(text: &str) -> (r: Option<(String, u16)>)
    ensures
        match host_and_port(text@) {
            Some((host, port)) => r matches Some((h, p)) && h@ == host && p == port,
            None => r is None,
        },
        r matches Some((h, _)) ==> is_host(h@),
{
    let chars = chars_of(text);
    let n = chars.len();
    assert(chars@.subrange(0, n as int) =~= chars@);
    let i = find_char(chars.as_slice(), 0, n, ':');
    proof {
        lemma_first_index(chars@, ':');
    }
    if !check_host(chars.as_slice(), 0, i) {
        return None;
    }
    if i < n {
        match parse_number_in(chars.as_slice(), i + 1, n, 0xFFFF) {
            Some(p) => Some((text.substring_char(0, i).to_owned(), p as u16)),
            None => None,
        }
    } else {
        Some((text.to_owned(), ADS_PORT))
    }
}

/// What an `AdsProto` stands for.
pub struct AdsView {
    pub host: Seq<char>,
    pub port: u16,
    pub target: AmsAddr,
    pub source: AmsAddr,
    pub tried_route: bool,
    pub connected: bool,
    pub invoke_id: u32,
    pub offset: usize,
}

/// A request that is ready to be sent, with what its reply has to show.
#[derive(Debug)]
pub struct Exchange {
    pub command: Command,
    /// The invoke id that the reply has to carry.
    pub invoke_id: u32,
    /// The data length that the reply's header has to give: the result code and
    /// the payload.  The header's field has 32 bits; a request for more finds no
    /// reply of the right length.
    pub expected: u64,
    /// The bytes to send.
    pub frame: Vec<u8>,
}

/// What to do when the handshake of a connection attempt has ended.
#[derive(Debug)]
pub enum ConnectStep {
    /// The backend is connected.
    Connected,
    /// Ask the router for a route, wait, and connect again.
    ProvisionRoute,
    /// Give up with this error.
    Failed(Error),
}

/// The source address of a client whose local IPv4 address is `local`; a
/// client without one gives the local network id.
pub open spec fn source_for(local: Option<[u8; 4]>) -> AmsAddr {
    match local {
        Some(ip) => AmsAddr { netid: AmsNetId([ip[0], ip[1], ip[2], ip[3], 1, 1]), port: CLIENT_PORT },
        None => AmsAddr { netid: AmsNetId([127, 0, 0, 1, 1, 1]), port: CLIENT_PORT },
    }
}

/// The invoke id that follows `id`; the counter wraps.
pub open spec fn next_invoke_id(id: u32) -> u32 {
    if id == u32::MAX {
        0
    } else {
        (id + 1) as u32
    }
}

/// Whether the failed handshake `outcome` makes a backend in the state `v` ask
/// for a route: the stream ended early, no route was asked for before, and the
/// router is reached at its usual port.
pub open spec fn provisions_route(v: AdsView, outcome: Result<(), Error>) -> bool {
    outcome matches Err(e) && e.is_unexpected_eof() && !v.tried_route && v.port == ADS_PORT
}

/// The state of a backend after a handshake that ended with `outcome`.
pub open spec fn after_handshake(v: AdsView, outcome: Result<(), Error>) -> AdsView {
    AdsView {
        connected: outcome is Ok,
        tried_route: v.tried_route || provisions_route(v, outcome),
        ..v
    }
}

/// How often a backend that starts in the state `v` asks for a route while its
/// handshakes end with `outcomes`, one after the other.
pub open spec fn provisioning_count(v: AdsView, outcomes: Seq<Result<(), Error>>) -> nat
    decreases outcomes.len(),
{
    if outcomes.len() == 0 {
        0
    } else {
        let first: nat = if provisions_route(v, outcomes[0]) {
            1
        } else {
            0
        };
        first + provisioning_count(after_handshake(v, outcomes[0]), outcomes.drop_first())
    }
}

/// A backend asks for a route at most once, however its handshakes end, and
/// never again once it has asked.
pub proof fn lemma_route_provisioned_at_most_once(v: AdsView, outcomes: Seq<Result<(), Error>>)
    ensures
        provisioning_count(v, outcomes) <= 1,
        v.tried_route ==> provisioning_count(v, outcomes) == 0,
    decreases outcomes.len(),
{
    if outcomes.len() > 0 {
        lemma_route_provisioned_at_most_once(
            after_handshake(v, outcomes[0]),
            outcomes.drop_first(),
        );
    }
}

/// A backend at the usual port that has not asked for a route yet, and whose
/// handshakes all end with the stream closed early, asks exactly once: after
/// the first handshake, and not after any later one.
pub proof fn lemma_route_provisioned_once_on_repeated_eof(
    v: AdsView,
    outcomes: Seq<Result<(), Error>>,
)
    requires
        !v.tried_route,
        v.port == ADS_PORT,
        outcomes.len() >= 1,
        forall|i: int|
            0 <= i < outcomes.len() ==> ((#[trigger] outcomes[i]) matches Err(e)
                && e.is_unexpected_eof()),
    ensures
        provisions_route(v, outcomes[0]),
        provisioning_count(v, outcomes) == 1,
        provisioning_count(after_handshake(v, outcomes[0]), outcomes.drop_first()) == 0,
{
    lemma_route_provisioned_at_most_once(after_handshake(v, outcomes[0]), outcomes.drop_first());
}

/// How many handshakes one `connect` makes whose handshakes end with
/// `outcomes`, one after the other: it goes on to the next handshake only
/// where the one before made it ask for a route.
pub open spec fn connect_attempts(v: AdsView, outcomes: Seq<Result<(), Error>>) -> nat
    decreases outcomes.len(),
{
    if outcomes.len() == 0 {
        0
    } else if provisions_route(v, outcomes[0]) {
        1 + connect_attempts(after_handshake(v, outcomes[0]), outcomes.drop_first())
    } else {
        1
    }
}

/// The state in which one `connect` leaves a backend whose handshakes end with
/// `outcomes`, one after the other.
pub open spec fn after_connect(v: AdsView, outcomes: Seq<Result<(), Error>>) -> AdsView
    decreases outcomes.len(),
{
    if outcomes.len() == 0 {
        v
    } else if provisions_route(v, outcomes[0]) {
        after_connect(after_handshake(v, outcomes[0]), outcomes.drop_first())
    } else {
        after_handshake(v, outcomes[0])
    }
}

/// One `connect` makes at most two handshakes, and a backend that has asked
/// for a route before makes one: its outcome is final, the flag stays, and the
/// backend is connected exactly where the handshake succeeded.
pub proof fn lemma_connect_is_bounded(v: AdsView, outcomes: Seq<Result<(), Error>>)
    ensures
        connect_attempts(v, outcomes) <= 2,
        v.tried_route && outcomes.len() >= 1 ==> {
            &&& connect_attempts(v, outcomes) == 1
            &&& !provisions_route(v, outcomes[0])
            &&& after_connect(v, outcomes) == (AdsView { connected: outcomes[0] is Ok, ..v })
        },
{
    if outcomes.len() > 0 && provisions_route(v, outcomes[0]) {
        let rest = outcomes.drop_first();
        let next = after_handshake(v, outcomes[0]);
        if rest.len() > 0 {
            assert(!provisions_route(next, rest[0]));
        }
        assert(connect_attempts(next, rest) <= 1);
    }
}

/// Where every handshake ends with the stream closed early, one `connect` of a
/// backend at the usual port that has not asked for a route yet makes exactly
/// two handshakes and asks for a route exactly once, between them: the first
/// handshake makes it ask, the second is final.  It leaves the backend
/// unconnected with the flag set.
pub proof fn lemma_connect_on_repeated_eof(v: AdsView, outcomes: Seq<Result<(), Error>>)
    requires
        !v.tried_route,
        v.port == ADS_PORT,
        outcomes.len() >= 2,
        forall|i: int|
            0 <= i < outcomes.len() ==> ((#[trigger] outcomes[i]) matches Err(e)
                && e.is_unexpected_eof()),
    ensures
        connect_attempts(v, outcomes) == 2,
        provisions_route(v, outcomes[0]),
        !provisions_route(after_handshake(v, outcomes[0]), outcomes[1]),
        provisioning_count(v, outcomes) == 1,
        after_connect(v, outcomes) == (AdsView { tried_route: true, connected: false, ..v }),
{
    let rest = outcomes.drop_first();
    assert(rest[0] == outcomes[1]);
    lemma_connect_is_bounded(after_handshake(v, outcomes[0]), rest);
    lemma_route_provisioned_once_on_repeated_eof(v, outcomes);
}

/// The datagrams that ask a router for a route to the client with the network
/// id `source`, in the order in which they are tried: the first with an empty
/// password, the second with the password `1`.  The route is named `zapf-`
/// and the client's host address, which the first four bytes of its network id
/// spell.
pub open spec fn route_datagrams(source: AmsNetId) -> Seq<Seq<u8>> {
    let host = dotted_quad(source.0@[0], source.0@[1], source.0@[2], source.0@[3]);
    let from = AmsAddr { netid: source, port: CLIENT_PORT };
    seq![
        route_datagram_spec(from, ROUTE_PREFIX@ + host, ROUTE_USER@, Seq::empty(), host),
        route_datagram_spec(from, ROUTE_PREFIX@ + host, ROUTE_USER@, ROUTE_PASSWORD@, host),
    ]
}

/// A backend that speaks ADS to a router.
pub struct AdsProto {
    host: String,
    port: u16,
    target: AmsAddr,
    source: AmsAddr,
    tried_route: bool,
    connected: bool,
    invoke_id: u32,
    offset: usize,
}

impl View for AdsProto {
    type V = AdsView;

    closed spec fn view(&self) -> AdsView {
        AdsView {
            host: self.host@,
            port: self.port,
            target: self.target,
            source: self.source,
            tried_route: self.tried_route,
            connected: self.connected,
            invoke_id: self.invoke_id,
            offset: self.offset,
        }
    }
}

/// The state of a backend that was made from the address `a`.
pub open spec fn fresh_view(a: AdsAddress, v: AdsView) -> bool {
    &&& v.host == a.host
    &&& v.port == a.port
    &&& v.target.netid.0@ == a.netid
    &&& v.target.port == a.ams_port
    &&& v.source == source_for(None)
    &&& !v.tried_route
    &&& !v.connected
    &&& v.invoke_id == 0
    &&& v.offset == 0
}

impl AdsProto {
    /// Reads an address of the form `ads://host[:port]/netid:amsport`.  The
    /// backend is not connected, has asked for no route, and its base offset is
    /// zero.  Text before the scheme or behind the AMS port makes the address
    /// invalid, and so does a host that is empty or holds a slash.
    pub fn new(addr: &str) -> (r: Result<AdsProto, Error>)
        ensures
            match ads_address(addr@, regex_captures(ADS_ADDR_RE@, addr@)) {
                Some(a) => r matches Ok(p) && fresh_view(a, p@),
                None => r == Err::<AdsProto, Error>(Error::InvalidAddress(ADS_ADDR_FMT)),
            },
            r matches Ok(p) ==> {
                &&& matches_whole(ADS_SCHEME@, addr@, regex_captures(ADS_ADDR_RE@, addr@))
                &&& is_host(p@.host)
                &&& p@.target.netid.0@.len() == 6
            },
    {
        Self::from_groups(addr, captures(ADS_ADDR_RE, addr))
    }

    /// Builds the backend for the address `addr` from the capture groups that
    /// `ADS_ADDR_RE` found in it; `None` stands for an address that the pattern
    /// does not match.  The address is refused unless it starts with the scheme
    /// and group 0, the text that matched, is all of it.
    pub fn from_groups(addr: &str, groups: Option<Vec<Option<String>>>) -> (r: Result<
        AdsProto,
        Error,
    >)
        ensures
            match ads_address(addr@, groups_view(groups)) {
                Some(a) => r matches Ok(p) && fresh_view(a, p@),
                None => r == Err::<AdsProto, Error>(Error::InvalidAddress(ADS_ADDR_FMT)),
            },
            r matches Ok(p) ==> {
                &&& matches_whole(ADS_SCHEME@, addr@, groups_view(groups))
                &&& is_host(p@.host)
                &&& p@.target.netid.0@.len() == 6
            },
    {
        if !whole_match(ADS_SCHEME, addr, &groups) {
            return Err(Error::InvalidAddress(ADS_ADDR_FMT));
        }
        let g = match groups {
            Some(g) => g,
            None => return Err(Error::InvalidAddress(ADS_ADDR_FMT)),
        };
        if g.len() != 5 {
            return Err(Error::InvalidAddress(ADS_ADDR_FMT));
        }
        let ghost gv = groups_view(Some(g))->0;
        assert(gv[1] == match g@[1] { None => None, Some(s) => Some(s@) });
        assert(gv[2] == match g@[2] { None => None, Some(s) => Some(s@) });
        assert(gv[4] == match g@[4] { None => None, Some(s) => Some(s@) });
        let (host, port) = match &g[1] {
            Some(t) => match parse_host(t.as_str()) {
                Some(hp) => hp,
                None => return Err(Error::InvalidAddress(ADS_ADDR_FMT)),
            },
            None => return Err(Error::InvalidAddress(ADS_ADDR_FMT)),
        };
        let netid = match &g[2] {
            Some(t) => match parse_netid(t.as_str()) {
                Some(id) => id,
                None => return Err(Error::InvalidAddress(ADS_ADDR_FMT)),
            },
            None => return Err(Error::InvalidAddress(ADS_ADDR_FMT)),
        };
        let ams_port: u16 = match &g[4] {
            Some(t) => {
                let c = chars_of(t.as_str());
                assert(c@.subrange(0, c@.len() as int) =~= c@);
                match parse_number_in(c.as_slice(), 0, c.len(), 0xFFFF) {
                    Some(v) => v as u16,
                    None => return Err(Error::InvalidAddress(ADS_ADDR_FMT)),
                }
            },
            None => return Err(Error::InvalidAddress(ADS_ADDR_FMT)),
        };
        Ok(
            AdsProto {
                host,
                port,
                target: AmsAddr { netid, port: ams_port },
                source: AmsAddr { netid: AmsNetId([127, 0, 0, 1, 1, 1]), port: CLIENT_PORT },
                tried_route: false,
                connected: false,
                invoke_id: 0,
                offset: 0,
            },
        )
    }

    /// The datagrams that ask the router for a route to the client with the
    /// network id `src`, in the order in which they are to be tried.
    pub fn set_route(&self, src: AmsNetId) -> (r: Vec<Vec<u8>>)
        ensures
            r@.len() == 2,
            r@[0]@ == route_datagrams(src)[0],
            r@[1]@ == route_datagrams(src)[1],
    {
        let host = dotted_quad_bytes(src.0[0], src.0[1], src.0[2], src.0[3]);
        let mut name: Vec<u8> = Vec::new();
        let mut i: usize = 0;
        while i < 5
            invariant
                i <= 5,
                name@ == ROUTE_PREFIX@.subrange(0, i as int),
            decreases 5 - i,
        {
            name.push(ROUTE_PREFIX[i]);
            i = i + 1;
            assert(name@ =~= ROUTE_PREFIX@.subrange(0, i as int));
        }
        assert(ROUTE_PREFIX@.subrange(0, 5) =~= ROUTE_PREFIX@);
        let mut j: usize = 0;
        while j < host.len()
            invariant
                j <= host@.len() <= 15,
                name@ == ROUTE_PREFIX@ + host@.subrange(0, j as int),
            decreases host@.len() - j,
        {
            name.push(host[j]);
            j = j + 1;
            assert(name@ =~= ROUTE_PREFIX@ + host@.subrange(0, j as int));
        }
        assert(host@.subrange(0, host@.len() as int) =~= host@);
        let from = AmsAddr { netid: src, port: CLIENT_PORT };
        let empty: [u8; 0] = [];
        assert(empty@ =~= Seq::<u8>::empty());
        let first = route_datagram(
            &from,
            name.as_slice(),
            ROUTE_USER.as_slice(),
            empty.as_slice(),
            host.as_slice(),
        );
        let second = route_datagram(
            &from,
            name.as_slice(),
            ROUTE_USER.as_slice(),
            ROUTE_PASSWORD.as_slice(),
            host.as_slice(),
        );
        let mut out: Vec<Vec<u8>> = Vec::new();
        out.push(first);
        out.push(second);
        out
    }

    /// Starts a connection attempt from the local IPv4 address `local`, if the
    /// socket has one: the source address is made of it, the invoke ids start
    /// anew, and the backend counts as not connected until the handshake is
    /// done.
    pub fn begin_session(&mut self, local: Option<[u8; 4]>)
        ensures
            final(self)@ == (AdsView {
                source: source_for(local),
                invoke_id: 0,
                connected: false,
                ..old(self)@
            }),
    {
        self.source = match local {
            Some(ip) => AmsAddr {
                netid: AmsNetId([ip[0], ip[1], ip[2], ip[3], 1, 1]),
                port: CLIENT_PORT,
            },
            None => AmsAddr { netid: AmsNetId([127, 0, 0, 1, 1, 1]), port: CLIENT_PORT },
        };
        self.invoke_id = 0;
        self.connected = false;
    }

    /// Takes the next invoke id and builds the frame of a request.
    fn request(
        &mut self,
        command: Command,
        first: &[u8],
        second: &[u8],
        reply_len: u64,
    ) -> (r: Exchange)
        requires
            first@.len() + second@.len() + 32 <= u32::MAX,
            reply_len <= u32::MAX + 4,
        ensures
            final(self)@ == (AdsView {
                invoke_id: next_invoke_id(old(self)@.invoke_id),
                ..old(self)@
            }),
            r.command == command,
            r.invoke_id == final(self)@.invoke_id,
            r.expected == reply_len + 4,
            r.frame@ == request_bytes(
                command,
                old(self)@.target,
                old(self)@.source,
                r.invoke_id,
                first@ + second@,
            ),
    {
        self.invoke_id = if self.invoke_id == u32::MAX {
            0
        } else {
            self.invoke_id + 1
        };
        let frame = encode_request(
            command,
            &self.target,
            &self.source,
            self.invoke_id,
            first,
            second,
        );
        Exchange {
            command,
            invoke_id: self.invoke_id,
            expected: reply_len + 4,
            frame: frame.unwrap(),
        }
    }

    /// The request for the device's name and version, with which a connection
    /// attempt shakes hands.
    pub fn info_request(&mut self) -> (r: Exchange)
        ensures
            final(self)@ == (AdsView {
                invoke_id: next_invoke_id(old(self)@.invoke_id),
                ..old(self)@
            }),
            r.command == Command::DevInfo,
            r.invoke_id == final(self)@.invoke_id,
            r.expected == DEVICE_INFO_SIZE + 4,
            r.frame@ == request_bytes(
                Command::DevInfo,
                old(self)@.target,
                old(self)@.source,
                r.invoke_id,
                Seq::empty(),
            ),
    {
        let none: [u8; 0] = [];
        assert(none@ + none@ =~= Seq::<u8>::empty());
        self.request(Command::DevInfo, none.as_slice(), none.as_slice(), DEVICE_INFO_SIZE as u64)
    }

    /// The request that reads `len` bytes at the byte address `addr`, to which
    /// the base offset is added.  An address or a length that does not fit 32
    /// bits is refused and takes no invoke id; every other read is asked for.
    pub fn read_request(&mut self, addr: usize, len: usize) -> (r: Result<Exchange, Error>)
        ensures
            match r {
                Ok(x) => {
                    &&& old(self)@.offset + addr <= u32::MAX
                    &&& len <= u32::MAX
                    &&& final(self)@ == (AdsView {
                        invoke_id: next_invoke_id(old(self)@.invoke_id),
                        ..old(self)@
                    })
                    &&& x.command == Command::Read
                    &&& x.invoke_id == final(self)@.invoke_id
                    &&& x.expected == len + 8
                    &&& x.frame@ == request_bytes(
                        Command::Read,
                        old(self)@.target,
                        old(self)@.source,
                        x.invoke_id,
                        index_bytes(PLC_RW_M, (old(self)@.offset + addr) as u32, len as u32),
                    )
                },
                Err(e) => {
                    &&& old(self)@.offset + addr > u32::MAX || len > u32::MAX
                    &&& e == Error::ADS(AdsFailure::Overflow)
                    &&& final(self)@ == old(self)@
                },
            },
    {
        let at = match self.offset.checked_add(addr) {
            Some(at) => at,
            None => return Err(Error::ADS(AdsFailure::Overflow)),
        };
        if at > 0xFFFF_FFFF || len > 0xFFFF_FFFF {
            return Err(Error::ADS(AdsFailure::Overflow));
        }
        let index = encode_index(PLC_RW_M, at as u32, len as u32);
        let none: [u8; 0] = [];
        assert(index@ + none@ =~= index@);
        Ok(self.request(Command::Read, index.as_slice(), none.as_slice(), len as u64 + 4))
    }

    /// The request that writes `data` at the byte address `addr`, to which the
    /// base offset is added.  An address that does not fit 32 bits is refused,
    /// and so is data with which the frame would be longer than the 32 bits of
    /// its length field can tell; neither takes an invoke id.
    pub fn write_request(&mut self, addr: usize, data: &[u8]) -> (r: Result<Exchange, Error>)
        ensures
            match r {
                Ok(x) => {
                    &&& old(self)@.offset + addr <= u32::MAX
                    &&& data@.len() + 44 <= u32::MAX
                    &&& final(self)@ == (AdsView {
                        invoke_id: next_invoke_id(old(self)@.invoke_id),
                        ..old(self)@
                    })
                    &&& x.command == Command::Write
                    &&& x.invoke_id == final(self)@.invoke_id
                    &&& x.expected == 4
                    &&& x.frame@ == request_bytes(
                        Command::Write,
                        old(self)@.target,
                        old(self)@.source,
                        x.invoke_id,
                        index_bytes(
                            PLC_RW_M,
                            (old(self)@.offset + addr) as u32,
                            data@.len() as u32,
                        ) + data@,
                    )
                },
                Err(e) => {
                    &&& old(self)@.offset + addr > u32::MAX || data@.len() + 44 > u32::MAX
                    &&& e == Error::ADS(AdsFailure::Overflow)
                    &&& final(self)@ == old(self)@
                },
            },
    {
        let at = match self.offset.checked_add(addr) {
            Some(at) => at,
            None => return Err(Error::ADS(AdsFailure::Overflow)),
        };
        if at > 0xFFFF_FFFF || data.len() > 0xFFFF_FFFF - 44 {
            return Err(Error::ADS(AdsFailure::Overflow));
        }
        let index = encode_index(PLC_RW_M, at as u32, data.len() as u32);
        Ok(self.request(Command::Write, index.as_slice(), data, 0))
    }

    /// Takes note of how the handshake of a connection attempt ended, and says
    /// what to do next.  A handshake that ended with the stream closed early
    /// makes the backend ask for a route, once in its life and only at the
    /// router's usual port; any other failure, and the same failure a second
    /// time, is final.
    pub fn handshake_done(&mut self, outcome: Result<(), Error>) -> (r: ConnectStep)
        ensures
            final(self)@ == after_handshake(old(self)@, outcome),
            match outcome {
                Ok(()) => r is Connected,
                Err(e) => if provisions_route(old(self)@, outcome) {
                    r is ProvisionRoute
                } else {
                    r == ConnectStep::Failed(e)
                },
            },
    {
        match outcome {
            Ok(()) => {
                self.connected = true;
                ConnectStep::Connected
            },
            Err(e) => {
                self.connected = false;
                let eof = match &e {
                    Error::IO(f) => match f.kind {
                        crate::IoKind::UnexpectedEof => true,
                        _ => false,
                    },
                    _ => false,
                };
                if eof && !self.tried_route && self.port == ADS_PORT {
                    self.tried_route = true;
                    ConnectStep::ProvisionRoute
                } else {
                    ConnectStep::Failed(e)
                }
            },
        }
    }

    /// Takes note of an error that came up during the operation `operation`:
    /// the session is over, and the caller is told the error together with the
    /// operation.
    pub fn failed(&mut self, error: Error, operation: &'static str) -> (r: Error)
        ensures
            final(self)@ == (AdsView { connected: false, ..old(self)@ }),
            r == Error::Wrapped(Box::new(error), operation),
    {
        self.connected = false;
        error.wrap(operation)
    }
}

impl AdsProto {
    /// The offsets at which a device behind this backend may keep its
    /// signature.
    pub fn get_offsets() -> (r: &'static [usize])
        ensures
            r@ == ADS_OFFSETS@,
    {
        &ADS_OFFSETS
    }

    /// Sets the base offset that is added to every byte address.
    pub fn set_offset(&mut self, offset: usize)
        ensures
            final(self)@ == (AdsView { offset, ..old(self)@ }),
    {
        self.offset = offset;
    }

    /// Takes note that the transport was dropped.
    pub fn disconnect(&mut self)
        ensures
            final(self)@ == (AdsView { connected: false, ..old(self)@ }),
    {
        self.connected = false;
    }

    /// Whether the transport has to be established before the next request.
    pub fn needs_connect(&self) -> (r: bool)
        ensures
            r == !self@.connected,
    {
        !self.connected
    }

    /// The host of the router.
    pub fn host(&self) -> (r: &str)
        ensures
            r@ == self@.host,
    {
        self.host.as_str()
    }

    /// The TCP port of the router.
    pub fn port(&self) -> (r: u16)
        ensures
            r == self@.port,
    {
        self.port
    }

    /// The address of the device that the requests are meant for.
    pub fn target(&self) -> (r: AmsAddr)
        ensures
            r == self@.target,
    {
        self.target
    }

    /// The address that this client gives as its own.
    pub fn source(&self) -> (r: AmsAddr)
        ensures
            r == self@.source,
    {
        self.source
    }

    /// Whether a route was asked for in the life of this backend.
    pub fn tried_route(&self) -> (r: bool)
        ensures
            r == self@.tried_route,
    {
        self.tried_route
    }

    /// The base offset that is added to every byte address.
    pub fn offset(&self) -> (r: usize)
        ensures
            r == self@.offset,
    {
        self.offset
    }
}

impl Exchange {
    /// The number of bytes that follow the head of an acceptable reply: what
    /// the expected data length counts behind the result code.  Where no reply
    /// can be acceptable, because no header can give the expected data length,
    /// nothing follows.
    pub fn payload_len(&self) -> (r: usize)
        ensures
            r == if 4 <= self.expected <= u32::MAX {
                self.expected - 4
            } else {
                0
            },
    {
        if 4 <= self.expected && self.expected <= 0xFFFF_FFFF {
            (self.expected - 4) as usize
        } else {
            0
        }
    }

    /// Judges the head of the reply to this request: the 42 bytes of its header
    /// and result code.  The payload is to be read only where this gives `Ok`.
    pub fn check(&self, head: &[u8]) -> (r: Result<(), Error>)
        ensures
            match check_reply_spec(self.command, self.invoke_id, self.expected, head@) {
                Ok(()) => r is Ok,
                Err(f) => r == Err::<(), Error>(Error::ADS(f)),
            },
    {
        check_reply(self.command, self.invoke_id, self.expected, head)
    }
}

} // verus!
