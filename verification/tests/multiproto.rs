//! Multi-protocol, ADD-PATH, EVPN and FlowSpec scenarios.

use zettabgp::afi::evpn::{BgpEVPN, BgpEVPN2, EVPNESI};
use zettabgp::afi::flowspec::{BgpFlowSpec, FSOperValItem, FSOperVec};
use zettabgp::afi::ipv4::{BgpAddrV4, BgpIPv4RD};
use zettabgp::afi::mac::MacAddress;
use zettabgp::afi::{BgpAddr, BgpAddrItem, BgpAddrs, BgpRD, Labeled, MplsLabels, WithPathId, WithRd};
use zettabgp::message::attributes::multiproto::BgpMPUpdates;
use zettabgp::message::attributes::BgpAttrItem;
use zettabgp::message::update::BgpUpdateMessage;
use zettabgp::util::{IpAddr, Ipv4Addr};
use zettabgp::{BgpCapAddPath, BgpCapability, BgpSessionParams, BgpTransportMode};

fn plain_params() -> BgpSessionParams {
    let mut p = BgpSessionParams::new(
        65001,
        30,
        BgpTransportMode::IPv4,
        Ipv4Addr::new(10, 0, 0, 1),
        vec![],
    );
    p.fuzzy_pathid = false;
    p
}

#[test]
fn test_vpnv4_via_mp_reach() {
    // One labeled VPNv4 prefix behind an RD-qualified next hop survives the
    // attribute round trip; its labels compare as opaque.
    let params = plain_params();
    let nlri = Labeled::new(
        MplsLabels::fromvec(vec![100]),
        WithRd::new(BgpRD::new(1, 2), BgpAddrV4::new(Ipv4Addr::new(192, 168, 0, 0), 24)),
    );
    let mp = BgpMPUpdates {
        nexthop: BgpAddr::V4RD(BgpIPv4RD::new(BgpRD::new(0, 0), Ipv4Addr::new(10, 0, 0, 1))),
        addrs: BgpAddrs::VPNV4U(vec![nlri]),
    };
    let mut msg = BgpUpdateMessage::new();
    msg.attrs = vec![BgpAttrItem::MPUpdates(mp)];
    let mut buf: Vec<u8> = Vec::new();
    msg.encode_to(&params, &mut buf).unwrap();

    let mut got = BgpUpdateMessage::new();
    got.decode_from(&params, &buf).unwrap();
    let mpu = got.get_mpupdates().expect("mp-reach attribute");
    match &mpu.addrs {
        BgpAddrs::VPNV4U(v) => {
            assert_eq!(v.len(), 1);
            assert_eq!(v[0].prefix.rd, BgpRD::new(1, 2));
            assert_eq!(v[0].prefix.prefix, BgpAddrV4::new(Ipv4Addr::new(192, 168, 0, 0), 24));
            // labels compare equal whatever they hold
            assert_eq!(
                Labeled::new_nl(v[0].prefix.clone()),
                v[0].clone()
            );
            assert_eq!(v[0].labels.labels, vec![100]);
        },
        other => panic!("wrong variant: {:?}", other),
    }
    match &mpu.nexthop {
        BgpAddr::V4RD(nh) => {
            assert_eq!(nh.rd, BgpRD::new(0, 0));
            assert_eq!(nh.addr, Ipv4Addr::new(10, 0, 0, 1));
        },
        other => panic!("wrong nexthop: {:?}", other),
    }
}

#[test]
fn test_evpn_type2_round_trip() {
    let route = BgpEVPN::EVPN2(BgpEVPN2 {
        rd: BgpRD::new(1, 1),
        esi_type: 0,
        esi: EVPNESI::new(&[0u8; 9]),
        ether_tag: 0,
        mac: MacAddress::from_u64(0xaabbccddeeff),
        ip: Some(IpAddr::V4(Ipv4Addr::new(192, 0, 2, 5))),
        labels: MplsLabels::fromvec(vec![200]),
    });
    let mut buf: Vec<u8> = Vec::new();
    let n = route.encode_to(BgpTransportMode::IPv4, &mut buf).unwrap();
    assert_eq!(n, buf.len());
    let (got, m) = BgpEVPN::decode_from(BgpTransportMode::IPv4, &buf).unwrap();
    assert_eq!(m, n);
    match got {
        BgpEVPN::EVPN2(v) => {
            assert_eq!(v.rd, BgpRD::new(1, 1));
            assert_eq!(v.esi_type, 0);
            assert_eq!(v.esi.v, vec![0u8; 9]);
            assert_eq!(v.ether_tag, 0);
            assert_eq!(v.mac, MacAddress::from_u64(0xaabbccddeeff));
            assert_eq!(v.ip, Some(IpAddr::V4(Ipv4Addr::new(192, 0, 2, 5))));
            assert_eq!(v.labels.labels, vec![200]);
        },
        other => panic!("wrong route type: {:?}", other),
    }
}

#[test]
fn test_addpath_negotiation_affects_decoding() {
    // With ADD-PATH receiving in force two path-id-framed entries come
    // back; without it the same bytes must not silently yield one of them.
    let mut ap_params = BgpSessionParams::new(
        65001,
        30,
        BgpTransportMode::IPv4,
        Ipv4Addr::new(10, 0, 0, 1),
        vec![BgpCapability::CapAddPath(vec![BgpCapAddPath {
            afi: 1,
            safi: 1,
            send: false,
            receive: true,
        }])],
    );
    ap_params.fuzzy_pathid = false;
    let mut msg = BgpUpdateMessage::new();
    msg.updates = BgpAddrs::IPV4UP(vec![
        WithPathId::new(1, BgpAddrV4::new(Ipv4Addr::new(10, 0, 0, 0), 24)),
        WithPathId::new(2, BgpAddrV4::new(Ipv4Addr::new(10, 0, 0, 0), 24)),
    ]);
    let mut buf: Vec<u8> = Vec::new();
    msg.encode_to(&ap_params, &mut buf).unwrap();

    let mut got = BgpUpdateMessage::new();
    got.decode_from(&ap_params, &buf).unwrap();
    match &got.updates {
        BgpAddrs::IPV4UP(v) => {
            assert_eq!(v.len(), 2);
            assert_eq!(v[0].pathid, 1);
            assert_eq!(v[1].pathid, 2);
            assert_eq!(v[0].nlri, BgpAddrV4::new(Ipv4Addr::new(10, 0, 0, 0), 24));
        },
        other => panic!("wrong variant: {:?}", other),
    }

    let plain = plain_params();
    let mut got2 = BgpUpdateMessage::new();
    let r = got2.decode_from(&plain, &buf);
    let acceptable = match r {
        Err(_) => true,
        Ok(()) => match &got2.updates {
            BgpAddrs::IPV4U(v) => v.len() != 1,
            _ => true,
        },
    };
    assert!(acceptable, "misinterpreted bytes silently yielded one entry");
}

#[test]
fn test_flowspec_envelope_boundary() {
    // The encoder switches from the one-octet to the two-octet length
    // envelope exactly at 240 octets of inner content.
    let mut small: Vec<FSOperValItem> = Vec::new();
    // 47 items of 5 octets each plus the type octet: 236 inner octets
    for i in 0..47u32 {
        small.push(FSOperValItem::new(0x10000 + i, false, false, true, false));
    }
    let fs_small: BgpFlowSpec<BgpAddrV4> = BgpFlowSpec::PacketLength(FSOperVec::new(small));
    let mut buf1: Vec<u8> = Vec::new();
    let n1 = fs_small.encode_to(BgpTransportMode::IPv4, &mut buf1).unwrap();
    assert_eq!(n1, 1 + 236);
    assert_eq!(buf1[0], 236);

    let mut large: Vec<FSOperValItem> = Vec::new();
    // 48 items of 5 octets each plus the type octet: 241 inner octets
    for i in 0..48u32 {
        large.push(FSOperValItem::new(0x10000 + i, false, false, true, false));
    }
    let fs_large: BgpFlowSpec<BgpAddrV4> = BgpFlowSpec::PacketLength(FSOperVec::new(large));
    let mut buf2: Vec<u8> = Vec::new();
    let n2 = fs_large.encode_to(BgpTransportMode::IPv4, &mut buf2).unwrap();
    assert_eq!(n2, 2 + 241);
    assert_eq!(buf2[0] & 0xf0, 0xf0);
    assert_eq!(((buf2[0] & 0x0f) as usize) << 8 | buf2[1] as usize, 241);
}

#[test]
fn test_flowspec_round_trip() {
    let fs: BgpFlowSpec<BgpAddrV4> = BgpFlowSpec::PrefixDst(BgpAddrV4::new(
        Ipv4Addr::new(10, 1, 0, 0),
        16,
    ));
    let mut buf: Vec<u8> = Vec::new();
    let n = fs.encode_to(BgpTransportMode::IPv4, &mut buf).unwrap();
    let (got, m) = BgpFlowSpec::<BgpAddrV4>::decode_from(BgpTransportMode::IPv4, &buf).unwrap();
    assert_eq!(m, n);
    match got {
        BgpFlowSpec::PrefixDst(p) => {
            assert_eq!(p, BgpAddrV4::new(Ipv4Addr::new(10, 1, 0, 0), 16))
        },
        other => panic!("wrong component: {:?}", other),
    }
}

#[test]
fn test_mac_round_trip() {
    let m = MacAddress::from_u64(0xaabbccddeeff);
    assert_eq!(m.to_u64(), 0xaabbccddeeff);
    let mut buf: Vec<u8> = Vec::new();
    m.write_to_network_bytes(&mut buf);
    assert_eq!(buf, vec![0xaa, 0xbb, 0xcc, 0xdd, 0xee, 0xff]);
    let m2 = MacAddress::from_network_bytes(&buf).unwrap();
    assert_eq!(m2, m);
}
