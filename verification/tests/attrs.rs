//! Per-attribute payload round trips and the error conditions of the
//! codecs.

use zettabgp::afi::flowspec::{BgpFlowSpec, FS6};
use zettabgp::afi::ipv6::BgpAddrV6;
use zettabgp::afi::mac::{BgpAddrMac, MacAddress};
use zettabgp::afi::mdt::BgpMdtV6;
use zettabgp::afi::mvpn::{BgpMVPN, BgpMVPN2};
use zettabgp::afi::vpls::{BgpAddrL2, BgpL2};
use zettabgp::afi::{BgpAddrItem, BgpItem, BgpItemLong, BgpNet, BgpRD, MplsLabels};
use zettabgp::error::BgpError;
use zettabgp::message::attributes::aspath::{BgpAS, BgpASitem, BgpASpath};
use zettabgp::message::attributes::aspath::BgpASset;
use zettabgp::message::attributes::{
    decode_attr_list, BgpAggregatorAS, BgpAtomicAggregate, BgpAttrItem, BgpAttrSet, BgpClusterList,
    BgpConnector, BgpOrigin, BgpPMSITunnel,
};
use zettabgp::util::{IpAddr, Ipv4Addr, Ipv6Addr};
use zettabgp::{BgpSessionParams, BgpTransportMode};

fn v4_params() -> BgpSessionParams {
    BgpSessionParams::new(
        65001,
        30,
        BgpTransportMode::IPv4,
        Ipv4Addr::new(10, 0, 0, 1),
        vec![],
    )
}

#[test]
fn test_origin_round_trip() {
    for code in 0u8..3u8 {
        let v = BgpOrigin::decode_from(&[code]).unwrap();
        let mut buf: Vec<u8> = Vec::new();
        v.encode_to(&mut buf).unwrap();
        assert_eq!(buf, vec![code]);
    }
    assert!(BgpOrigin::decode_from(&[3]).is_err());
    assert!(BgpOrigin::decode_from(&[]).is_err());
}

#[test]
fn test_aggregator_round_trip() {
    let params = v4_params();
    let v = BgpAggregatorAS { asn: 65100, addr: Ipv4Addr::new(10, 0, 0, 9) };
    let mut buf: Vec<u8> = Vec::new();
    let n = v.encode_to(&params, &mut buf).unwrap();
    assert_eq!(n, 8);
    let got = BgpAggregatorAS::decode_from(&params, &buf).unwrap();
    assert_eq!(got, v);
    assert!(BgpAggregatorAS::decode_from(&params, &buf[0..5]).is_err());
}

#[test]
fn test_connector_round_trip() {
    let v = BgpConnector::new(65000, Ipv4Addr::new(10, 0, 0, 1), Ipv4Addr::new(10, 0, 0, 2));
    let mut buf: Vec<u8> = Vec::new();
    assert_eq!(v.encode_to(&mut buf).unwrap(), 14);
    let got = BgpConnector::decode_from(&buf).unwrap();
    assert_eq!(got, v);
}

#[test]
fn test_cluster_list_round_trip() {
    let params = v4_params();
    let v = BgpClusterList {
        value: vec![
            IpAddr::V4(Ipv4Addr::new(10, 0, 0, 1)),
            IpAddr::V4(Ipv4Addr::new(10, 0, 0, 2)),
        ],
    };
    let mut buf: Vec<u8> = Vec::new();
    let n = v.encode_to(&mut buf).unwrap();
    assert_eq!(n, 8);
    let got = BgpClusterList::decode_from(&params, &buf).unwrap();
    assert_eq!(got, v);
}

#[test]
fn test_atomic_aggregate_empty_payload() {
    let params = v4_params();
    let got = BgpAtomicAggregate::decode_from(&params, &[]).unwrap();
    assert_eq!(got.value, IpAddr::V4(Ipv4Addr::new(0, 0, 0, 0)));
}

#[test]
fn test_aspath_round_trip() {
    let params = v4_params();
    let path = BgpASpath {
        value: vec![BgpASitem::Sequence(zettabgp::message::attributes::aspath::BgpASseq {
            value: vec![BgpAS::new(65100), BgpAS::new(65101)],
        })],
    };
    let mut buf: Vec<u8> = Vec::new();
    path.encode_to(&params, &mut buf).unwrap();
    // kind 2 is a sequence, then the count and two four-octet AS numbers
    assert_eq!(buf[0], 2);
    assert_eq!(buf[1], 2);
    let got = BgpASpath::decode_from(&params, &buf).unwrap();
    assert_eq!(got, path);
}

#[test]
fn test_pmsi_tunnel_round_trip() {
    let params = v4_params();
    // flags 1, tunnel type 6 (ingress replication), one label, endpoint
    let mut wire: Vec<u8> = vec![1, 6, 0x00, 0x06, 0x41];
    wire.extend_from_slice(&[10, 0, 0, 5]);
    let v = BgpPMSITunnel::decode_from(&params, &wire).unwrap();
    assert_eq!(v.flags, 1);
    assert_eq!(v.tunnel_type, 6);
    assert_eq!(v.label.labels, vec![100]);
    let mut buf: Vec<u8> = Vec::new();
    let n = v.encode_to(&mut buf).unwrap();
    assert_eq!(n, buf.len());
    assert_eq!(buf, wire);
}

#[test]
fn test_mvpn_type2_round_trip() {
    let v = BgpMVPN::T2(BgpMVPN2 { rd: BgpRD::new(65000, 1), asn: 65100 });
    let mut buf: Vec<u8> = Vec::new();
    let n = v.encode_to(BgpTransportMode::IPv4, &mut buf).unwrap();
    assert_eq!(n, buf.len());
    let (got, m) = BgpMVPN::decode_from(BgpTransportMode::IPv4, &buf).unwrap();
    assert_eq!(m, n);
    assert_eq!(got, v);
}

#[test]
fn test_vpls_round_trip() {
    let v = BgpAddrL2 {
        rd: BgpRD::new(65000, 2),
        site: 7,
        offset: 1,
        range: 8,
        labels: MplsLabels::fromvec(vec![4096]),
    };
    let mut buf: Vec<u8> = Vec::new();
    let n = v.pack_to(&mut buf).unwrap();
    assert_eq!(n, buf.len());
    assert_eq!(n, 17);
    let got = BgpAddrL2::extract_from(n, &buf).unwrap();
    assert_eq!(got, v);

    let short = BgpL2::new(BgpRD::new(65000, 2), 7, 1, 8);
    let mut buf2: Vec<u8> = Vec::new();
    assert_eq!(short.encode_to(BgpTransportMode::IPv4, &mut buf2).unwrap(), 14);
    let (got2, m2) = BgpL2::decode_from(BgpTransportMode::IPv4, &buf2).unwrap();
    assert_eq!(got2, short);
    assert_eq!(m2, 14);
}

#[test]
fn test_mdt_v6_round_trip() {
    let v = BgpMdtV6::new(
        BgpAddrV6::new(Ipv6Addr::new(0x2a02, 0, 0, 0, 0, 0, 0, 0), 32),
        Ipv6Addr::new(0xff0e, 0, 0, 0, 0, 0, 0, 1),
    );
    let mut buf: Vec<u8> = Vec::new();
    let (bits, n) = v.set_bits_to(&mut buf).unwrap();
    assert_eq!(bits, 160);
    assert_eq!(n, 20);
    let (got, m) = <BgpMdtV6 as BgpItem>::extract_bits_from(bits, &buf).unwrap();
    assert_eq!(got, v);
    assert_eq!(m, 20);
}

#[test]
fn test_flowspec_v6_prefix_round_trip() {
    let fs: BgpFlowSpec<FS6> = BgpFlowSpec::PrefixSrc(FS6::new(
        0,
        BgpAddrV6::new(Ipv6Addr::new(0x2a02, 0xcafe, 0, 0, 0, 0, 0, 0), 32),
    ));
    let mut buf: Vec<u8> = Vec::new();
    let n = fs.encode_to(BgpTransportMode::IPv6, &mut buf).unwrap();
    let (got, m) = BgpFlowSpec::<FS6>::decode_from(BgpTransportMode::IPv6, &buf).unwrap();
    assert_eq!(m, n);
    assert_eq!(got, fs);
}

#[test]
fn test_mac_subnets() {
    let net = BgpAddrMac::new(MacAddress::from_u64(0x121314151600), 40);
    assert!(net.in_subnet(&MacAddress::from_u64(0x121314151601)));
    assert_eq!(net.range_first(), MacAddress::from_u64(0x121314151600));
    assert_eq!(net.range_last(), MacAddress::from_u64(0x1213141516ff));
    assert!(BgpAddrMac::new(MacAddress::from_u64(0x121314150000), 32)
        .contains(&BgpAddrMac::new(MacAddress::from_u64(0x121314151600), 40)));
}

#[test]
fn test_net_contains() {
    let v4net = BgpNet::V4(zettabgp::afi::ipv4::BgpAddrV4::new(Ipv4Addr::new(10, 0, 0, 0), 8));
    let v4sub = BgpNet::V4(zettabgp::afi::ipv4::BgpAddrV4::new(Ipv4Addr::new(10, 1, 0, 0), 16));
    let v6net = BgpNet::V6(BgpAddrV6::new(Ipv6Addr::new(0x2a02, 0, 0, 0, 0, 0, 0, 0), 32));
    assert!(v4net.contains(&v4sub));
    assert!(!v4sub.contains(&v4net));
    assert!(!v4net.contains(&v6net));
}

#[test]
fn test_error_conditions() {
    // A too-short window is an insufficient-buffer error.
    assert_eq!(
        zettabgp::afi::BgpRD::decode_rd_from(&[1, 2, 3]).unwrap_err(),
        BgpError::static_str("Invalid RD buffer len")
    );
    // An unknown AS-path segment kind is a protocol error.
    let params = v4_params();
    let bad = zettabgp::message::attributes::aspath::BgpASitem::decode_from(&params, &[9, 1]);
    assert_eq!(bad.unwrap_err(), BgpError::ProtocolError);
    // A FlowSpec rule too long for its two-octet envelope is refused.
    let mut many = zettabgp::afi::flowspec::FSOperVec::new_empty();
    for i in 0..1000u32 {
        many.push(zettabgp::afi::flowspec::FSOperValItem::new(
            0x10000 + i,
            false,
            false,
            true,
            false,
        ));
    }
    let fs: BgpFlowSpec<zettabgp::afi::ipv4::BgpAddrV4> = BgpFlowSpec::PacketLength(many);
    let mut buf: Vec<u8> = Vec::new();
    assert_eq!(
        fs.encode_to(BgpTransportMode::IPv4, &mut buf).unwrap_err(),
        BgpError::TooManyData
    );
    // A prefix length over the family width is rejected.
    assert!(zettabgp::afi::ipv4::BgpAddrV4::from_bits(33, &[0, 0, 0, 0, 0]).is_err());
}

#[test]
fn test_as_set_decode_sorted_distinct() {
    let params = v4_params();
    let wire = [
        1u8, 3, 0, 0, 0xfe, 0x4c, 0, 0, 0, 0x0a, 0, 0, 0xfe, 0x4c,
    ];
    let (item, n) = BgpASitem::decode_from(&params, &wire).unwrap();
    assert_eq!(n, 14);
    match item {
        BgpASitem::ASSet(s) => {
            let values: Vec<u32> = s.value.iter().map(|a| a.value).collect();
            assert_eq!(values, vec![10, 65100]);
        },
        _ => panic!("expected a set segment"),
    }
}

#[test]
fn test_as_set_from_vec_collapses() {
    let s = BgpASset::from_vec(vec![BgpAS::new(9), BgpAS::new(3), BgpAS::new(9)]);
    let values: Vec<u32> = s.value.iter().map(|a| a.value).collect();
    assert_eq!(values, vec![3, 9]);
}

#[test]
fn test_nested_attr_set_round_trip() {
    let params = v4_params();
    let inner = BgpAttrSet {
        asn: 65002,
        attrs: vec![BgpAttrItem::Origin(BgpOrigin::decode_from(&[0]).unwrap())],
    };
    let outer = BgpAttrItem::AttrSet(BgpAttrSet {
        asn: 65001,
        attrs: vec![BgpAttrItem::AttrSet(inner)],
    });
    let mut buf: Vec<u8> = Vec::new();
    let n = outer.encode_to(&params, &mut buf).unwrap();
    assert_eq!(n, buf.len());
    let decoded = decode_attr_list(&params, &buf).unwrap();
    assert_eq!(decoded.len(), 1);
    match &decoded[0] {
        BgpAttrItem::AttrSet(v) => {
            assert_eq!(v.asn, 65001);
            assert_eq!(v.attrs.len(), 1);
            match &v.attrs[0] {
                BgpAttrItem::AttrSet(w) => {
                    assert_eq!(w.asn, 65002);
                    assert_eq!(w.attrs.len(), 1);
                    assert!(matches!(&w.attrs[0], BgpAttrItem::Origin(_)));
                },
                _ => panic!("expected the nested attribute set"),
            }
        },
        _ => panic!("expected an attribute set"),
    }
}
