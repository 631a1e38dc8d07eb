//! OPEN, KEEPALIVE, NOTIFICATION and UPDATE message scenarios.

use zettabgp::afi::ipv4::BgpAddrV4;
use zettabgp::afi::BgpAddrs;
use zettabgp::error::BgpError;
use zettabgp::message::attributes::aspath::{BgpAS, BgpASitem, BgpASpath, BgpASseq};
use zettabgp::message::attributes::{BgpAttrItem, BgpAttrOrigin, BgpNextHop, BgpOrigin};
use zettabgp::message::keepalive::BgpKeepaliveMessage;
use zettabgp::message::notification::BgpNotificationMessage;
use zettabgp::message::open::BgpOpenMessage;
use zettabgp::message::update::BgpUpdateMessage;
use zettabgp::message::BgpMessageType;
use zettabgp::util::{IpAddr, Ipv4Addr};
use zettabgp::{BgpCapability, BgpSessionParams, BgpTransportMode};

fn open_caps() -> Vec<BgpCapability> {
    vec![
        BgpCapability::SafiIPv4u,
        BgpCapability::CapRR,
        BgpCapability::CapASN32(65450),
    ]
}

fn open_params() -> BgpSessionParams {
    BgpSessionParams::new(
        65001,
        30,
        BgpTransportMode::IPv4,
        Ipv4Addr::new(10, 0, 0, 1),
        open_caps(),
    )
}

#[test]
fn test_good_open() {
    let params = open_params();
    let msg = BgpOpenMessage {
        as_num: 200,
        router_id: Ipv4Addr::new(10, 0, 0, 1),
        caps: open_caps(),
        hold_time: 180,
    };
    let mut buf: Vec<u8> = Vec::new();
    let n = msg.encode_to(&params, &mut buf).unwrap();
    assert_eq!(n, buf.len());

    let mut decode_msg = BgpOpenMessage::new();
    decode_msg.decode_from(&params, &buf).unwrap();
    assert_eq!(decode_msg.as_num, msg.as_num);
    assert_eq!(decode_msg.hold_time, msg.hold_time);
    assert_eq!(decode_msg.router_id, msg.router_id);
    assert_eq!(decode_msg.caps.len(), msg.caps.len());
    for c in decode_msg.caps.iter() {
        assert!(msg.caps.contains(c));
    }
}

#[test]
fn test_concatenated_open() {
    let params = open_params();
    let msg = BgpOpenMessage {
        as_num: 200,
        router_id: Ipv4Addr::new(10, 0, 0, 1),
        caps: open_caps(),
        hold_time: 180,
    };
    let mut buf: Vec<u8> = Vec::new();
    assert!(msg.encode_to(&params, &mut buf).is_ok());
    let n = msg.encode_to(&params, &mut buf).unwrap();
    buf.truncate(n);

    let mut decode_msg = BgpOpenMessage::new();
    decode_msg.decode_from(&params, &buf).unwrap();
    assert_eq!(decode_msg.as_num, msg.as_num);
    assert_eq!(decode_msg.hold_time, msg.hold_time);
    assert_eq!(decode_msg.router_id, msg.router_id);
    assert_eq!(decode_msg.caps.len(), msg.caps.len());
    for c in decode_msg.caps.iter() {
        assert!(params.caps.contains(c));
    }

    let mut decode_msg = BgpOpenMessage::new();
    decode_msg.decode_from(&params, &buf).unwrap();
    assert_eq!(decode_msg.as_num, msg.as_num);
    assert_eq!(decode_msg.hold_time, msg.hold_time);
    assert_eq!(decode_msg.router_id, msg.router_id);
    assert_eq!(decode_msg.caps.len(), msg.caps.len());
    for c in decode_msg.caps.iter() {
        assert!(params.caps.contains(c));
    }
}

#[test]
fn test_bad_open_decode_length() {
    let params = open_params();
    let mut msg = BgpOpenMessage {
        as_num: 200,
        router_id: Ipv4Addr::new(10, 0, 0, 1),
        caps: open_caps(),
        hold_time: 180,
    };
    let mut buf: Vec<u8> = Vec::new();
    msg.encode_to(&params, &mut buf).unwrap();
    // Truncate encoded capability data.
    let truncate_amount = 3;
    buf.truncate(buf.len() - truncate_amount as usize);
    let decode = msg.decode_from(&params, &buf);
    assert!(matches!(decode, Err(BgpError::InsufficientBufferSize)));
}

#[test]
fn test_bad_open_bgp_version() {
    let params = open_params();
    let msg = BgpOpenMessage {
        as_num: 200,
        router_id: Ipv4Addr::new(10, 0, 0, 1),
        caps: open_caps(),
        hold_time: 180,
    };
    let mut buf: Vec<u8> = Vec::new();
    msg.encode_to(&params, &mut buf).unwrap();
    buf[0] = 3;
    let mut decode_msg = BgpOpenMessage::new();
    let decode = decode_msg.decode_from(&params, &buf);
    assert!(matches!(decode, Err(BgpError::Static("Invalid BGP version <> 4"))));
}

#[test]
fn test_bad_open_decode_empty() {
    let params = open_params();
    let buf: Vec<u8> = Vec::new();
    let mut decode_msg = BgpOpenMessage::new();
    let decode = decode_msg.decode_from(&params, &buf);
    assert!(matches!(decode, Err(BgpError::InsufficientBufferSize)));
}

#[test]
fn test_bad_open_missing_optlen() {
    let params = open_params();
    let msg = BgpOpenMessage {
        as_num: 200,
        router_id: Ipv4Addr::new(10, 0, 0, 1),
        caps: open_caps(),
        hold_time: 180,
    };
    let mut buf: Vec<u8> = Vec::new();
    msg.encode_to(&params, &mut buf).unwrap();
    // Truncate to the fixed head alone: the capability run is gone.
    buf.truncate(10_usize);
    let mut decode_msg = BgpOpenMessage::new();
    let decode = decode_msg.decode_from(&params, &buf);
    assert!(decode.is_ok());
}

fn update_fixture() -> (BgpSessionParams, BgpUpdateMessage) {
    let params = BgpSessionParams::new(
        65001,
        30,
        BgpTransportMode::IPv4,
        Ipv4Addr::new(10, 0, 0, 1),
        vec![],
    );
    let mut msg = BgpUpdateMessage::new();
    let mut withdraws: Vec<BgpAddrV4> = vec![];
    for i in 1..10 {
        withdraws.push(BgpAddrV4::new(Ipv4Addr::new(10, 0, 0, i), 32));
    }
    msg.withdraws = BgpAddrs::IPV4U(withdraws);
    msg.attrs = vec![
        BgpAttrItem::Origin(BgpOrigin { value: BgpAttrOrigin::Egp }),
        BgpAttrItem::ASPath(BgpASpath {
            value: vec![BgpASitem::Sequence(BgpASseq {
                value: vec![BgpAS::new(65100), BgpAS::new(65101), BgpAS::new(65102)],
            })],
        }),
        BgpAttrItem::NextHop(BgpNextHop { value: IpAddr::V4(Ipv4Addr::new(10, 0, 0, 1)) }),
    ];
    let mut updates: Vec<BgpAddrV4> = vec![];
    for i in 1..10 {
        updates.push(BgpAddrV4::new(Ipv4Addr::new(10, 0, 1, i), 32));
    }
    msg.updates = BgpAddrs::IPV4U(updates);
    (params, msg)
}

#[test]
fn test_good_update() {
    // Withdraws, Origin, AS path, next hop and reach all survive the round
    // trip element for element.
    let (params, msg) = update_fixture();
    let mut buf: Vec<u8> = Vec::new();
    let n = msg.encode_to(&params, &mut buf).unwrap();
    assert_eq!(n, buf.len());
    let mut decode_msg = BgpUpdateMessage::new();
    decode_msg.decode_from(&params, &buf).unwrap();
    assert_eq!(decode_msg.withdraws, msg.withdraws);
    assert_eq!(decode_msg.updates, msg.updates);
    assert_eq!(decode_msg.attrs, msg.attrs);
}

#[test]
fn test_bad_update_length() {
    let (params, mut msg) = update_fixture();
    let mut buf: Vec<u8> = Vec::new();
    msg.encode_to(&params, &mut buf).unwrap();
    let truncate_amount = 3;
    buf.truncate(truncate_amount as usize);
    let decode = msg.decode_from(&params, &buf);
    assert!(matches!(decode, Err(BgpError::InsufficientBufferSize)));
}

#[test]
fn test_bad_update_empty() {
    let (params, mut msg) = update_fixture();
    let buf: Vec<u8> = Vec::new();
    let decode = msg.decode_from(&params, &buf);
    assert!(matches!(decode, Err(BgpError::InsufficientBufferSize)));
}

#[test]
fn test_open_then_keepalive_round_trip() {
    // Build parameters, frame and send an OPEN, decode it on another
    // instance, then exchange a KEEPALIVE.
    let caps = vec![BgpCapability::SafiIPv4u, BgpCapability::CapASN32(64512)];
    let params = BgpSessionParams::new(
        64512,
        180,
        BgpTransportMode::IPv4,
        Ipv4Addr::new(1, 0, 0, 0),
        caps.clone(),
    );
    let open = params.open_message();
    let mut body: Vec<u8> = Vec::new();
    let body_len = open.encode_to(&params, &mut body).unwrap();
    let mut wire: Vec<u8> = Vec::new();
    let total = params.prepare_message_buf(&mut wire, BgpMessageType::Open, body_len).unwrap();
    wire.extend_from_slice(&body);
    assert_eq!(wire.len(), total);

    let other = BgpSessionParams::new(
        65000,
        90,
        BgpTransportMode::IPv4,
        Ipv4Addr::new(2, 0, 0, 0),
        vec![],
    );
    let (t, l) = other.decode_message_head(&wire).unwrap();
    assert_eq!(t, BgpMessageType::Open);
    assert_eq!(l, body_len);
    let mut got = BgpOpenMessage::new();
    got.decode_from(&other, &wire[19..19 + l]).unwrap();
    assert_eq!(got.as_num, 64512);
    assert_eq!(got.hold_time, 180);
    assert_eq!(got.router_id, Ipv4Addr::new(1, 0, 0, 0));
    assert_eq!(got.caps.len(), caps.len());
    for c in got.caps.iter() {
        assert!(caps.contains(c));
    }

    let ka = BgpKeepaliveMessage {};
    let mut kabody: Vec<u8> = Vec::new();
    let kalen = ka.encode_to(&params, &mut kabody).unwrap();
    assert_eq!(kalen, 0);
    let mut kawire: Vec<u8> = Vec::new();
    let katotal = params.prepare_message_buf(&mut kawire, BgpMessageType::Keepalive, kalen)
        .unwrap();
    assert_eq!(katotal, 19);
    let (kat, kal) = other.decode_message_head(&kawire).unwrap();
    assert_eq!(kat, BgpMessageType::Keepalive);
    assert_eq!(kal, 0);
}

#[test]
fn test_notification_round_trip() {
    let params = open_params();
    let msg = BgpNotificationMessage { error_code: 6, error_subcode: 2, data: 7 };
    let mut buf: Vec<u8> = Vec::new();
    assert_eq!(msg.encode_to(&params, &mut buf).unwrap(), 4);
    let mut got = BgpNotificationMessage::new();
    got.decode_from(&params, &buf).unwrap();
    assert_eq!(got, msg);
    assert_eq!(msg.error_text(), "Cease");
}
