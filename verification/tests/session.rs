//! Session parameters, capability negotiation and the frame header.

use zettabgp::afi::ipv4::BgpAddrV4;
use zettabgp::afi::{BgpRD, Labeled, MplsLabels, WithRd};
use zettabgp::message::BgpMessageType;
use zettabgp::util::Ipv4Addr;
use zettabgp::{BgpCapAddPath, BgpCapability, BgpSessionParams, BgpTransportMode};

fn params_with(caps: Vec<BgpCapability>) -> BgpSessionParams {
    BgpSessionParams::new(64512, 180, BgpTransportMode::IPv4, Ipv4Addr::new(1, 1, 1, 1), caps)
}

#[test]
fn test_cmp_rd() {
    assert!(BgpRD::new(1, 1) == BgpRD::new(1, 1));
    assert!(BgpRD::new(1, 1) < BgpRD::new(1, 2));
    assert!(BgpRD::new(2, 1) > BgpRD::new(1, 2));
}

#[test]
fn test_cmp_ipv4() {
    assert!(Ipv4Addr::new(10, 6, 7, 8) == Ipv4Addr::new(10, 6, 7, 8));
    assert!(Ipv4Addr::new(10, 0, 0, 1) < Ipv4Addr::new(11, 0, 0, 1));
}

#[test]
fn test_cmp_bgpv4() {
    assert!(
        BgpAddrV4::new(Ipv4Addr::new(10, 6, 7, 0), 32)
            == BgpAddrV4::new(Ipv4Addr::new(10, 6, 7, 0), 32)
    );
    assert!(
        BgpAddrV4::new(Ipv4Addr::new(10, 6, 7, 0), 30)
            < BgpAddrV4::new(Ipv4Addr::new(10, 6, 7, 0), 32)
    );
    assert!(
        BgpAddrV4::new(Ipv4Addr::new(10, 6, 7, 0), 30)
            > BgpAddrV4::new(Ipv4Addr::new(10, 6, 6, 0), 32)
    );
}

#[test]
fn test_cmp_bgpv4rd() {
    assert!(
        WithRd::<BgpAddrV4>::new(BgpRD::new(1, 1), BgpAddrV4::new(Ipv4Addr::new(10, 6, 7, 0), 32))
            == WithRd::<BgpAddrV4>::new(
                BgpRD::new(1, 1),
                BgpAddrV4::new(Ipv4Addr::new(10, 6, 7, 0), 32)
            )
    );
    assert!(
        WithRd::<BgpAddrV4>::new(BgpRD::new(1, 1), BgpAddrV4::new(Ipv4Addr::new(10, 6, 7, 0), 32))
            != WithRd::<BgpAddrV4>::new(
                BgpRD::new(1, 2),
                BgpAddrV4::new(Ipv4Addr::new(10, 6, 7, 0), 32)
            )
    );
    assert!(
        WithRd::<BgpAddrV4>::new(BgpRD::new(1, 1), BgpAddrV4::new(Ipv4Addr::new(10, 6, 7, 0), 30))
            < WithRd::<BgpAddrV4>::new(
                BgpRD::new(1, 1),
                BgpAddrV4::new(Ipv4Addr::new(10, 6, 7, 0), 32)
            )
    );
    assert!(
        WithRd::<BgpAddrV4>::new(BgpRD::new(1, 1), BgpAddrV4::new(Ipv4Addr::new(10, 6, 7, 0), 30))
            > WithRd::<BgpAddrV4>::new(
                BgpRD::new(1, 1),
                BgpAddrV4::new(Ipv4Addr::new(10, 6, 6, 0), 32)
            )
    );
}

#[test]
fn test_cmp_bgpv4lb() {
    // Labels are opaque to comparison: only the inner prefixes decide.
    assert!(
        Labeled::<BgpAddrV4>::new_nl(BgpAddrV4::new(Ipv4Addr::new(10, 6, 7, 0), 32))
            == Labeled::<BgpAddrV4>::new(
                MplsLabels::fromvec(vec![1, 2, 3, 4]),
                BgpAddrV4::new(Ipv4Addr::new(10, 6, 7, 0), 32)
            )
    );
    assert!(
        Labeled::<BgpAddrV4>::new_nl(BgpAddrV4::new(Ipv4Addr::new(10, 6, 7, 0), 32))
            != Labeled::<BgpAddrV4>::new_nl(BgpAddrV4::new(Ipv4Addr::new(10, 6, 6, 0), 32))
    );
    assert!(
        Labeled::<BgpAddrV4>::new_nl(BgpAddrV4::new(Ipv4Addr::new(10, 6, 7, 0), 30))
            < Labeled::<BgpAddrV4>::new_nl(BgpAddrV4::new(Ipv4Addr::new(10, 6, 7, 0), 32))
    );
    assert!(
        Labeled::<BgpAddrV4>::new_nl(BgpAddrV4::new(Ipv4Addr::new(10, 6, 7, 0), 30))
            > Labeled::<BgpAddrV4>::new_nl(BgpAddrV4::new(Ipv4Addr::new(10, 6, 6, 0), 32))
    );
    assert!(
        Labeled::<BgpAddrV4>::new_nl(BgpAddrV4::new(Ipv4Addr::new(10, 0, 0, 1), 32))
            < Labeled::<BgpAddrV4>::new_nl(BgpAddrV4::new(Ipv4Addr::new(11, 0, 0, 1), 32))
    );
    assert!(
        Labeled::<BgpAddrV4>::new_nl(BgpAddrV4::new(Ipv4Addr::new(10, 0, 0, 0), 24))
            < Labeled::<BgpAddrV4>::new_nl(BgpAddrV4::new(Ipv4Addr::new(11, 0, 0, 1), 32))
    );
}

#[test]
fn test_capabilities_remove() {
    let mut params = params_with(vec![
        BgpCapability::SafiIPv4u,
        BgpCapability::CapAddPath(vec![
            BgpCapAddPath { afi: 1, safi: 1, send: true, receive: true },
            BgpCapAddPath { afi: 1, safi: 2, send: true, receive: true },
        ]),
    ]);
    assert_eq!(params.caps.len(), 2);
    params.remove_capability(&BgpCapability::SafiIPv4u);
    assert_eq!(params.caps.len(), 1);
    params.remove_capability(&BgpCapability::SafiIPv4u);
    assert_eq!(params.caps.len(), 1);
    params.remove_capability(&BgpCapability::CapAddPath(vec![BgpCapAddPath {
        afi: 1,
        safi: 1,
        send: true,
        receive: true,
    }]));
    assert_eq!(params.caps.len(), 1);
    params.remove_capability(&BgpCapability::CapAddPath(vec![BgpCapAddPath {
        afi: 1,
        safi: 2,
        send: true,
        receive: true,
    }]));
    assert_eq!(params.caps.len(), 0);
}

#[test]
fn test_match_caps_asn32_both_sides() {
    // The four-octet AS capability survives only when both sides carry it,
    // and the effective AS comes from the capability.
    let mut local = params_with(vec![BgpCapability::SafiIPv4u, BgpCapability::CapASN32(64512)]);
    let remote = vec![BgpCapability::SafiIPv4u, BgpCapability::CapASN32(65001)];
    local.match_caps(&remote);
    assert!(local.has_as32bit);
    assert_eq!(local.as_num, 64512);

    let mut local2 = params_with(vec![BgpCapability::SafiIPv4u, BgpCapability::CapASN32(64512)]);
    let remote2 = vec![BgpCapability::SafiIPv4u];
    local2.match_caps(&remote2);
    assert!(!local2.has_as32bit);
}

#[test]
fn test_match_caps_addpath_reflection() {
    // The effective ADD-PATH entry takes the remote entry with send and
    // receive swapped.
    let mut local = params_with(vec![BgpCapability::CapAddPath(vec![BgpCapAddPath {
        afi: 1,
        safi: 1,
        send: true,
        receive: true,
    }])]);
    let remote = vec![BgpCapability::CapAddPath(vec![BgpCapAddPath {
        afi: 1,
        safi: 1,
        send: true,
        receive: false,
    }])];
    local.match_caps(&remote);
    assert_eq!(local.caps.len(), 1);
    let ap = local.find_addpath(1, 1).unwrap();
    assert_eq!(ap.send, false);
    assert_eq!(ap.receive, true);
    assert!(local.check_addpath_receive(1, 1));
    assert!(!local.check_addpath_send(1, 1));
}

#[test]
fn test_capability_tlv_round_trip() {
    let caps = vec![
        BgpCapability::SafiIPv4u,
        BgpCapability::CapRR,
        BgpCapability::CapASN32(65450),
        BgpCapability::CapAddPath(vec![BgpCapAddPath {
            afi: 1,
            safi: 1,
            send: false,
            receive: true,
        }]),
    ];
    for c in &caps {
        let mut buf: Vec<u8> = Vec::new();
        c.fill_buffer(&mut buf).unwrap();
        assert_eq!(buf.len(), c.bytes_len());
        let (got, used) = BgpCapability::from_buffer(&buf).unwrap();
        assert_eq!(used, buf.len());
        assert_eq!(&got.unwrap(), c);
    }
}

#[test]
fn test_frame_head_round_trip() {
    // decode_frame(encode_frame(len(b), type)) == (type, len(b))
    let params = params_with(vec![]);
    let mut buf: Vec<u8> = Vec::new();
    let total = params.prepare_message_buf(&mut buf, BgpMessageType::Keepalive, 0).unwrap();
    assert_eq!(total, 19);
    assert_eq!(buf.len(), 19);
    let (t, l) = params.decode_message_head(&buf).unwrap();
    assert_eq!(t, BgpMessageType::Keepalive);
    assert_eq!(l, 0);

    let mut buf2: Vec<u8> = Vec::new();
    let total2 = params.prepare_message_buf(&mut buf2, BgpMessageType::Update, 100).unwrap();
    assert_eq!(total2, 119);
    buf2.resize(119, 0xaa);
    let (t2, l2) = params.decode_message_head(&buf2).unwrap();
    assert_eq!(t2, BgpMessageType::Update);
    assert_eq!(l2, 100);
}

#[test]
fn test_frame_head_rejects_bad_marker() {
    let params = params_with(vec![]);
    let mut buf: Vec<u8> = Vec::new();
    params.prepare_message_buf(&mut buf, BgpMessageType::Open, 0).unwrap();
    buf[3] = 0;
    assert!(params.decode_message_head(&buf).is_err());
}

#[test]
fn test_message_type_codes() {
    assert_eq!(BgpMessageType::decode_from(1).unwrap(), BgpMessageType::Open);
    assert_eq!(BgpMessageType::decode_from(4).unwrap(), BgpMessageType::Keepalive);
    assert!(BgpMessageType::decode_from(5).is_err());
    assert_eq!(BgpMessageType::Notification.encode(), 3);
}

#[test]
fn test_frame_too_long() {
    let params = params_with(vec![]);
    let mut buf = vec![255u8; 16];
    buf.push(0x10);
    buf.push(0x01);
    buf.push(4);
    assert!(params.decode_message_head(&buf).is_err());
    buf[16] = 0x10;
    buf[17] = 0x00;
    let (t, l) = params.decode_message_head(&buf).unwrap();
    assert_eq!(t, BgpMessageType::Keepalive);
    assert_eq!(l, 4096 - 19);
}
