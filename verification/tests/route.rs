use zapf::proto::ads::{AdsProto, ConnectStep, ROUTE_PASSWORD, ROUTE_PREFIX, ROUTE_USER};
use zapf::proto::ads_frame::{AmsAddr, AmsNetId};
use zapf::proto::ads_route::{
    dotted_quad_bytes, put_decimal, put_item, put_text_item, route_accepted, route_datagram,
    route_reply_status,
};
use zapf::{AdsFailure, Error, IoFailure, IoKind};

fn eof() -> Error {
    Error::IO(IoFailure { kind: IoKind::UnexpectedEof, detail: "failed to fill whole buffer".to_string() })
}

fn expected_datagram(password: &[u8]) -> Vec<u8> {
    let mut b: Vec<u8> = vec![
        0x03, 0x66, 0x14, 0x71, // magic
        0, 0, 0, 0, // invoke id
        6, 0, 0, 0, // add a route
        192, 168, 1, 20, 1, 1, // source network id
        0x21, 0xE6, // source port
        5, 0, 0, 0, // items
    ];
    b.extend_from_slice(&[12, 0, 18, 0]);
    b.extend_from_slice(b"zapf-192.168.1.20\0");
    b.extend_from_slice(&[7, 0, 6, 0, 192, 168, 1, 20, 1, 1]);
    b.extend_from_slice(&[13, 0, 14, 0]);
    b.extend_from_slice(b"Administrator\0");
    b.extend_from_slice(&[2, 0, password.len() as u8 + 1, 0]);
    b.extend_from_slice(password);
    b.push(0);
    b.extend_from_slice(&[5, 0, 13, 0]);
    b.extend_from_slice(b"192.168.1.20\0");
    b
}

#[test]
fn route_texts() {
    assert_eq!(&ROUTE_USER, b"Administrator");
    assert_eq!(&ROUTE_PREFIX, b"zapf-");
    assert_eq!(&ROUTE_PASSWORD, b"1");
}

#[test]
fn numbers_are_written_without_leading_zeros() {
    for (n, text) in [(0u8, "0"), (7, "7"), (9, "9"), (10, "10"), (42, "42"), (99, "99"), (100, "100"), (105, "105"), (255, "255")] {
        let mut out = vec![b'x'];
        put_decimal(&mut out, n);
        assert_eq!(out, format!("x{}", text).into_bytes());
    }
    assert_eq!(dotted_quad_bytes(192, 168, 1, 20), b"192.168.1.20".to_vec());
    assert_eq!(dotted_quad_bytes(0, 0, 0, 0), b"0.0.0.0".to_vec());
    assert_eq!(dotted_quad_bytes(255, 255, 255, 255), b"255.255.255.255".to_vec());
}

#[test]
fn items_carry_tag_length_and_data() {
    let mut out = vec![];
    put_item(&mut out, 7, &[1, 2, 3]);
    assert_eq!(out, vec![7, 0, 3, 0, 1, 2, 3]);
    let mut text = vec![];
    put_text_item(&mut text, 0x0102, b"ab");
    assert_eq!(text, vec![2, 1, 3, 0, b'a', b'b', 0]);
    let mut empty = vec![];
    put_text_item(&mut empty, 2, b"");
    assert_eq!(empty, vec![2, 0, 1, 0, 0]);
    let mut long = vec![];
    put_item(&mut long, 9, &[0xAB; 0x0102]);
    assert_eq!(&long[..5], &[9, 0, 0x02, 0x01, 0xAB]);
    assert_eq!(long.len(), 4 + 0x0102);
}

#[test]
fn route_datagram_layout() {
    let from = AmsAddr { netid: AmsNetId([192, 168, 1, 20, 1, 1]), port: 58913 };
    let d = route_datagram(&from, b"zapf-192.168.1.20", b"Administrator", b"1", b"192.168.1.20");
    assert_eq!(d, expected_datagram(b"1"));
}

#[test]
fn set_route_tries_empty_password_then_one() {
    let p = AdsProto::new("ads://plc/5.53.35.202:851").unwrap();
    let datagrams = p.set_route(AmsNetId([192, 168, 1, 20, 1, 1]));
    assert_eq!(datagrams.len(), 2);
    assert_eq!(datagrams[0], expected_datagram(b""));
    assert_eq!(datagrams[1], expected_datagram(b"1"));
}

#[test]
fn route_retry_fires_exactly_once() {
    let mut p = AdsProto::new("ads://plc/5.53.35.202:851").unwrap();
    assert!(!p.tried_route());
    assert!(matches!(p.handshake_done(Err(eof())), ConnectStep::ProvisionRoute));
    assert!(p.tried_route());
    assert!(p.needs_connect());
    match p.handshake_done(Err(eof())) {
        ConnectStep::Failed(e) => assert_eq!(e, eof()),
        other => panic!("{:?}", other),
    }
    assert!(matches!(p.handshake_done(Err(eof())), ConnectStep::Failed(_)));
    assert!(p.tried_route());
}

#[test]
fn route_retry_does_not_come_back_after_success() {
    let mut p = AdsProto::new("ads://plc/5.53.35.202:851").unwrap();
    assert!(matches!(p.handshake_done(Err(eof())), ConnectStep::ProvisionRoute));
    assert!(matches!(p.handshake_done(Ok(())), ConnectStep::Connected));
    assert!(!p.needs_connect());
    p.disconnect();
    p.begin_session(None);
    assert!(matches!(p.handshake_done(Err(eof())), ConnectStep::Failed(_)));
}

#[test]
fn no_route_retry_at_another_port() {
    let mut p = AdsProto::new("ads://plc:1234/5.53.35.202:851").unwrap();
    assert!(matches!(p.handshake_done(Err(eof())), ConnectStep::Failed(_)));
    assert!(!p.tried_route());
    let mut q = AdsProto::new("ads://plc:48898/5.53.35.202:851").unwrap();
    assert!(matches!(q.handshake_done(Err(eof())), ConnectStep::ProvisionRoute));
}

#[test]
fn no_route_retry_on_other_failures() {
    let mut p = AdsProto::new("ads://plc/5.53.35.202:851").unwrap();
    let timeout = Error::IO(IoFailure { kind: IoKind::TimedOut, detail: String::new() });
    assert!(matches!(p.handshake_done(Err(timeout)), ConnectStep::Failed(Error::IO(_))));
    let other = Error::IO(IoFailure { kind: IoKind::Other, detail: String::new() });
    assert!(matches!(p.handshake_done(Err(other)), ConnectStep::Failed(Error::IO(_))));
    let reply = Error::ADS(AdsFailure::Overflow);
    assert!(matches!(p.handshake_done(Err(reply)), ConnectStep::Failed(Error::ADS(_))));
    let wrapped = eof().wrap("read");
    assert!(matches!(p.handshake_done(Err(wrapped)), ConnectStep::Failed(Error::Wrapped(_, "read"))));
    assert!(!p.tried_route());
    assert!(matches!(p.handshake_done(Err(eof())), ConnectStep::ProvisionRoute));
}

fn route_reply(items: &[u8]) -> Vec<u8> {
    let mut b: Vec<u8> = vec![
        0x03, 0x66, 0x14, 0x71, // magic
        0, 0, 0, 0, // invoke id
        6, 0, 0, 0x80, // answer to "add a route"
        5, 53, 35, 202, 1, 1, 0x10, 0x27, // the router's address
        1, 0, 0, 0, // items
    ];
    b.extend_from_slice(items);
    b
}

#[test]
fn route_reply_reports_its_status() {
    assert_eq!(route_reply_status(&route_reply(&[1, 0, 4, 0, 0, 0, 0, 0])), Some(0));
    assert!(route_accepted(&route_reply(&[1, 0, 4, 0, 0, 0, 0, 0])));
    assert_eq!(route_reply_status(&route_reply(&[1, 0, 4, 0, 4, 7, 0, 0])), Some(0x704));
    assert!(!route_accepted(&route_reply(&[1, 0, 4, 0, 4, 7, 0, 0])));
    // the status stands behind another item
    let two = [5, 0, 3, 0, b'p', b'c', 0, 1, 0, 4, 0, 0, 0, 0, 0];
    assert_eq!(route_reply_status(&route_reply(&two)), Some(0));
    // the first status item counts
    let twice = [1, 0, 4, 0, 9, 0, 0, 0, 1, 0, 4, 0, 0, 0, 0, 0];
    assert_eq!(route_reply_status(&route_reply(&twice)), Some(9));
    // a longer status item: its first four bytes count
    assert_eq!(route_reply_status(&route_reply(&[1, 0, 5, 0, 3, 0, 0, 0, 9])), Some(3));
}

#[test]
fn route_reply_without_status_is_not_accepted() {
    assert_eq!(route_reply_status(&route_reply(&[])), None);
    assert!(!route_accepted(&route_reply(&[])));
    assert_eq!(route_reply_status(&route_reply(&[5, 0, 1, 0, 0])), None);
    // a status item that is too short, or cut off
    assert_eq!(route_reply_status(&route_reply(&[1, 0, 3, 0, 0, 0, 0])), None);
    assert_eq!(route_reply_status(&route_reply(&[1, 0, 4, 0, 0, 0, 0])), None);
    assert_eq!(route_reply_status(&route_reply(&[1, 0, 0])), None);
    assert_eq!(route_reply_status(&[]), None);
    assert_eq!(route_reply_status(&route_reply(&[])[..23]), None);
    // a tag in network order is another tag
    assert_eq!(route_reply_status(&route_reply(&[0, 1, 0, 4, 0, 0, 0, 0])), None);
}

#[test]
fn route_reply_of_another_kind_is_not_accepted() {
    let good = route_reply(&[1, 0, 4, 0, 0, 0, 0, 0]);
    let mut magic = good.clone();
    magic[0] = 0x71;
    assert_eq!(route_reply_status(&magic), None);
    let mut invoke = good.clone();
    invoke[7] = 1;
    assert_eq!(route_reply_status(&invoke), None);
    let mut request = good.clone();
    request[11] = 0;
    assert_eq!(route_reply_status(&request), None);
    let mut service = good.clone();
    service[8] = 1;
    assert_eq!(route_reply_status(&service), None);
    assert_eq!(route_reply_status(&good), Some(0));
}
