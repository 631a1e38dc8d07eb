//! Round trips and boundary behavior of the NLRI item codecs.

use zettabgp::afi::ipv4::BgpAddrV4;
use zettabgp::afi::ipv6::BgpAddrV6;
use zettabgp::afi::mdt::BgpMdtV4;
use zettabgp::afi::{
    decode_bgpitem_from, decode_bgpitems_from, encode_bgpitems_to, BgpItem, BgpRD, Labeled,
    MplsLabels, WithRd,
};
use zettabgp::util::{getn_u128, getn_u16, getn_u32, getn_u64, ntoh16, setn_u16, setn_u32, Ipv4Addr, Ipv6Addr};

#[test]
fn test_v4_prefix_round_trip() {
    let p = BgpAddrV4::new(Ipv4Addr::new(192, 168, 0, 0), 16);
    let mut buf: Vec<u8> = Vec::new();
    let (bits, n) = p.to_bits(&mut buf).unwrap();
    assert_eq!(bits, 16);
    assert_eq!(n, 2);
    assert_eq!(buf, vec![192, 168]);
    let (q, m) = BgpAddrV4::from_bits(bits, &buf).unwrap();
    assert_eq!(q, p);
    assert_eq!(m, 2);
}

#[test]
fn test_v4_prefix_len_zero() {
    // Prefix length 0: no address bytes on the wire, none consumed.
    let p = BgpAddrV4::new(Ipv4Addr::new(0, 0, 0, 0), 0);
    let mut buf: Vec<u8> = Vec::new();
    let (bits, n) = p.to_bits(&mut buf).unwrap();
    assert_eq!(bits, 0);
    assert_eq!(n, 0);
    assert!(buf.is_empty());
    let (q, m) = BgpAddrV4::from_bits(0, &[9, 9, 9]).unwrap();
    assert_eq!(m, 0);
    assert_eq!(q.prefixlen, 0);
    assert_eq!(q.addr.value, 0);
}

#[test]
fn test_v4_prefix_full_width() {
    // Prefix length equal to the family width round-trips a full address.
    let p = BgpAddrV4::new(Ipv4Addr::new(10, 1, 2, 3), 32);
    let mut buf: Vec<u8> = Vec::new();
    let (bits, n) = p.to_bits(&mut buf).unwrap();
    assert_eq!((bits, n), (32, 4));
    let (q, m) = BgpAddrV4::from_bits(32, &buf).unwrap();
    assert_eq!(q, p);
    assert_eq!(m, 4);
}

#[test]
fn test_v6_prefix_round_trip() {
    let p = BgpAddrV6::new(Ipv6Addr::new(0x2a02, 0, 0, 0, 0, 0, 0, 0), 32);
    let mut buf: Vec<u8> = Vec::new();
    let (bits, n) = p.to_bits(&mut buf).unwrap();
    assert_eq!((bits, n), (32, 4));
    assert_eq!(buf, vec![0x2a, 0x02, 0, 0]);
    let (q, m) = BgpAddrV6::from_bits(bits, &buf).unwrap();
    assert_eq!(q, p);
    assert_eq!(m, 4);
}

#[test]
fn test_v6_prefix_full_width() {
    let p = BgpAddrV6::new(Ipv6Addr::new(0x2a02, 1, 2, 3, 4, 5, 6, 7), 128);
    let mut buf: Vec<u8> = Vec::new();
    let (bits, n) = p.to_bits(&mut buf).unwrap();
    assert_eq!((bits, n), (128, 16));
    let (q, m) = BgpAddrV6::from_bits(128, &buf).unwrap();
    assert_eq!(q, p);
    assert_eq!(m, 16);
}

#[test]
fn test_rd_round_trip() {
    let rd = BgpRD::new(1, 2);
    let mut buf: Vec<u8> = Vec::new();
    assert_eq!(rd.encode_rd_to(&mut buf).unwrap(), 8);
    assert_eq!(buf, vec![0, 0, 0, 1, 0, 0, 0, 2]);
    let (rd2, n) = BgpRD::decode_rd_from(&buf).unwrap();
    assert_eq!(rd2, rd);
    assert_eq!(n, 8);
}

#[test]
fn test_labeled_round_trip() {
    let p = Labeled::new(
        MplsLabels::fromvec(vec![100]),
        BgpAddrV4::new(Ipv4Addr::new(10, 0, 0, 0), 24),
    );
    let mut buf: Vec<u8> = Vec::new();
    let (bits, n) = p.set_bits_to(&mut buf).unwrap();
    assert_eq!(bits, 24 + 24);
    assert_eq!(n, 6);
    // label 100 shifted left by four with the bottom-of-stack bit set
    assert_eq!(buf, vec![0x00, 0x06, 0x41, 10, 0, 0]);
    let (q, m) = <Labeled<BgpAddrV4> as BgpItem>::extract_bits_from(bits, &buf).unwrap();
    assert_eq!(m, 6);
    assert_eq!(q.labels.labels, vec![100]);
    assert_eq!(q.prefix, p.prefix);
}

#[test]
fn test_vpn_round_trip() {
    let p = Labeled::new(
        MplsLabels::fromvec(vec![100]),
        WithRd::new(BgpRD::new(1, 2), BgpAddrV4::new(Ipv4Addr::new(192, 168, 0, 0), 24)),
    );
    let mut buf: Vec<u8> = Vec::new();
    let (bits, n) = p.set_bits_to(&mut buf).unwrap();
    assert_eq!(bits as usize, 24 + 64 + 24);
    assert_eq!(n, 3 + 8 + 3);
    let (q, m) = <Labeled<WithRd<BgpAddrV4>> as BgpItem>::extract_bits_from(bits, &buf).unwrap();
    assert_eq!(m, n);
    assert_eq!(q.labels.labels, vec![100]);
    assert_eq!(q.prefix.rd, BgpRD::new(1, 2));
    assert_eq!(q.prefix.prefix, BgpAddrV4::new(Ipv4Addr::new(192, 168, 0, 0), 24));
}

#[test]
fn test_mdt_round_trip() {
    let p = BgpMdtV4::new(
        BgpAddrV4::new(Ipv4Addr::new(192, 168, 0, 0), 16),
        Ipv4Addr::new(224, 0, 0, 1),
    );
    let mut buf: Vec<u8> = Vec::new();
    let (bits, n) = p.set_bits_to(&mut buf).unwrap();
    assert_eq!((bits, n), (48, 6));
    let (q, m) = <BgpMdtV4 as BgpItem>::extract_bits_from(bits, &buf).unwrap();
    assert_eq!(q, p);
    assert_eq!(m, 6);
}

#[test]
fn test_label_sentinel_terminates_stack() {
    // An explicit-null label (value 3) stops the stack even with the
    // bottom-of-stack bit clear; the bytes after it read as a prefix.
    let stack_then_prefix: Vec<u8> = vec![0x00, 0x00, 0x30, 10, 0, 0];
    let (q, m) = <Labeled<BgpAddrV4> as BgpItem>::extract_bits_from(48, &stack_then_prefix)
        .unwrap();
    assert_eq!(q.labels.labels, vec![3]);
    assert_eq!(m, 6);
    assert_eq!(q.prefix, BgpAddrV4::new(Ipv4Addr::new(10, 0, 0, 0), 24));
}

#[test]
fn test_withdraw_sentinel_terminates_stack() {
    // The withdraw marker 0x80000 also stops the stack.
    let bytes: Vec<u8> = vec![0x80, 0x00, 0x00, 10, 0, 0];
    let (q, _) = <Labeled<BgpAddrV4> as BgpItem>::extract_bits_from(48, &bytes).unwrap();
    assert_eq!(q.labels.labels, vec![524288]);
}

#[test]
fn test_item_run_round_trip() {
    let v: Vec<BgpAddrV4> = vec![
        BgpAddrV4::new(Ipv4Addr::new(10, 0, 0, 0), 8),
        BgpAddrV4::new(Ipv4Addr::new(172, 16, 0, 0), 12),
        BgpAddrV4::new(Ipv4Addr::new(192, 168, 1, 0), 24),
    ];
    let mut buf: Vec<u8> = Vec::new();
    let n = encode_bgpitems_to(&v, &mut buf).unwrap();
    assert_eq!(n, buf.len());
    let (w, m): (Vec<BgpAddrV4>, usize) = decode_bgpitems_from(&buf).unwrap();
    assert_eq!(w, v);
    assert_eq!(m, buf.len());
}

#[test]
fn test_single_item_frame() {
    let mut buf: Vec<u8> = vec![24, 10, 1, 2];
    buf.push(99);
    let (p, n): (BgpAddrV4, usize) = decode_bgpitem_from(&buf).unwrap();
    assert_eq!(p, BgpAddrV4::new(Ipv4Addr::new(10, 1, 2, 0), 24));
    assert_eq!(n, 4);
}

#[test]
fn test_subnets_v4() {
    assert!(BgpAddrV4::new(Ipv4Addr::new(192, 168, 0, 0), 16)
        .in_subnet(&Ipv4Addr::new(192, 168, 0, 1)));
    assert!(BgpAddrV4::new(Ipv4Addr::new(192, 168, 0, 0), 16)
        .contains(&BgpAddrV4::new(Ipv4Addr::new(192, 168, 0, 0), 24)));
    assert_eq!(
        BgpAddrV4::new(Ipv4Addr::new(192, 168, 120, 130), 16).range_first(),
        Ipv4Addr::new(192, 168, 0, 0)
    );
    assert_eq!(
        BgpAddrV4::new(Ipv4Addr::new(192, 168, 120, 130), 16).range_last(),
        Ipv4Addr::new(192, 168, 255, 255)
    );
}

#[test]
fn test_subnets_v6() {
    let net = BgpAddrV6::new(Ipv6Addr::new(0x2a02, 0, 0, 0, 0, 0, 0, 0), 32);
    assert!(net.in_subnet(&Ipv6Addr::new(0x2a02, 0, 0, 0, 0, 0, 0, 1)));
    assert!(net.contains(&BgpAddrV6::new(Ipv6Addr::new(0x2a02, 0, 0, 0, 0, 0, 0, 1), 128)));
    assert!(!net.in_subnet(&Ipv6Addr::new(0x2a03, 0, 0, 0, 0, 0, 0, 0)));
    let small = BgpAddrV6::new(Ipv6Addr::new(0x2a02, 0, 0, 0, 0, 0, 0, 0x100), 120);
    assert_eq!(small.range_last(), Ipv6Addr::new(0x2a02, 0, 0, 0, 0, 0, 0, 0x1ff));
}

#[test]
fn test_byte_primitives() {
    let mut buf = [0u8; 16];
    setn_u16(0x1234, &mut buf);
    assert_eq!(&buf[0..2], &[0x12, 0x34]);
    assert_eq!(getn_u16(&buf), 0x1234);
    setn_u32(0xdeadbeef, &mut buf);
    assert_eq!(getn_u32(&buf), 0xdeadbeef);
    assert_eq!(ntoh16(0x1234), 0x3412);
    let wide = [1u8, 2, 3, 4, 5, 6, 7, 8, 9, 10, 11, 12, 13, 14, 15, 16];
    assert_eq!(getn_u64(&wide), 0x0102030405060708);
    assert_eq!(getn_u128(&wide), 0x0102030405060708090a0b0c0d0e0f10);
}
