use std::str::FromStr;

use ads::udp::{Message, ServiceId, Tag};
use zapf::proto::ads::{parse_netid, AdsProto, ADS_PORT, ADS_UDP_PORT, PLC_RW_M};
use zapf::proto::ads_frame::AmsNetId;
use zapf::proto::ads_route::{route_reply_status, UDP_MAGIC};
use zapf::proto::ads_errors::{describe, ADS_ERRORS};

#[test]
fn catalog_is_the_one_of_the_ads_client() {
    assert_eq!(&ADS_ERRORS[..], ads::errors::ADS_ERRORS);
}

#[test]
fn descriptions_are_those_of_the_ads_client() {
    for code in [1u32, 7, 0x500, 0x745, 0x101A, 0, 0x1F, 0x4FF, 0xFFFF_FFFF] {
        let theirs = match ads::errors::ads_error::<()>("read data", code) {
            Err(ads::Error::Ads(_, text, _)) => text,
            other => panic!("{:?}", other),
        };
        assert_eq!(describe(code), theirs);
    }
}

#[test]
fn constants_are_those_of_the_ads_client() {
    assert_eq!(ADS_PORT, ads::PORT);
    assert_eq!(ADS_UDP_PORT, ads::UDP_PORT);
    assert_eq!(PLC_RW_M, ads::index::PLC_RW_M);
}

#[test]
fn network_ids_of_four_and_six_fields_are_read_as_the_ads_client_reads_them() {
    for text in [
        "5.53.35.202",
        "5.53.35.202.1.1",
        "0.0.0.0.0.0",
        "255.255.255.255",
        "127.0.0.1.1.1",
        "1.2.3.256",
        "1.2.3.x",
        "1.2.3.4.5.6.7",
        "1.2..4",
        "",
        "1.2.3.4.",
        "+1.2.3.4",
        "1.2.3.4.5.-6",
    ] {
        let theirs = ads::AmsNetId::from_str(text).ok().map(|id| id.0);
        assert_eq!(parse_netid(text).map(|id| id.0), theirs, "{:?}", text);
    }
}

/// The datagram as the ADS client's own builder writes it.
fn built_by_the_client(netid: [u8; 6], name: &str, password: &str, host: &str) -> Vec<u8> {
    let source = ads::AmsAddr::new(ads::AmsNetId(netid), 58913);
    let mut message = Message::new(ServiceId::AddRoute, source);
    message.add_str(Tag::RouteName, name);
    message.add_bytes(Tag::NetID, &netid);
    message.add_str(Tag::UserName, "Administrator");
    message.add_str(Tag::Password, password);
    message.add_str(Tag::ComputerName, host);
    message.as_bytes().to_vec()
}

#[test]
fn route_datagrams_are_what_the_ads_client_builds() {
    assert_eq!(UDP_MAGIC, ads::udp::BECKHOFF_UDP_MAGIC);
    let p = AdsProto::new("ads://plc/5.53.35.202:851").unwrap();
    for netid in [[192, 168, 1, 20, 1, 1], [10, 0, 0, 7, 3, 4], [255, 255, 255, 255, 1, 1], [0; 6]] {
        let host = format!("{}.{}.{}.{}", netid[0], netid[1], netid[2], netid[3]);
        let name = format!("zapf-{}", host);
        let datagrams = p.set_route(AmsNetId(netid));
        assert_eq!(datagrams.len(), 2);
        assert_eq!(datagrams[0], built_by_the_client(netid, &name, "", &host));
        assert_eq!(datagrams[1], built_by_the_client(netid, &name, "1", &host));
    }
}

#[test]
fn route_replies_are_read_as_the_ads_client_reads_them() {
    let head = [
        0x03, 0x66, 0x14, 0x71, 0, 0, 0, 0, 6, 0, 0, 0x80, 5, 53, 35, 202, 1, 1, 0x10, 0x27, 1, 0,
        0, 0,
    ];
    let items: [&[u8]; 5] = [
        &[1, 0, 4, 0, 0, 0, 0, 0],
        &[1, 0, 4, 0, 4, 7, 0, 0],
        &[5, 0, 3, 0, b'p', b'c', 0, 1, 0, 4, 0, 0, 0, 0, 0],
        &[5, 0, 3, 0, b'p', b'c', 0],
        &[],
    ];
    for item in items {
        let mut reply = head.to_vec();
        reply.extend_from_slice(item);
        let theirs = Message::parse(&reply, ServiceId::AddRoute, true)
            .ok()
            .and_then(|message| message.get_u32(Tag::Status));
        assert_eq!(route_reply_status(&reply), theirs, "{:?}", item);
    }
}
