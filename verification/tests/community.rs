//! Community attribute values and their textual forms.

use zettabgp::message::attributes::community::{
    BgpCommunity, BgpCommunityList, BgpExtCommunity, BgpLargeCommunity, BgpLargeCommunityList,
};

#[test]
fn test_community_parse() {
    assert_eq!("no_export".parse::<BgpCommunity>(), Ok(BgpCommunity::new(0xffffff01)));
    assert_eq!("23:45".parse::<BgpCommunity>(), Ok(BgpCommunity { value: 0x0017002d }));
}

#[test]
fn test_community_format() {
    assert_eq!(BgpCommunity { value: 0xffffff01 }.well_known_name(), Some("no_export"));
}

#[test]
fn test_community_decode() {
    let c = BgpCommunity::decode_from(&[0x00, 0x17, 0x00, 0x2d]).unwrap();
    assert_eq!(c, BgpCommunity::from(23, 45));
    assert!(BgpCommunity::decode_from(&[1, 2, 3]).is_err());
}

#[test]
fn test_community_list_round_trip() {
    let l = BgpCommunityList::from_vec(vec![
        BgpCommunity::new(0xffffff01),
        BgpCommunity::from(65000, 10),
        BgpCommunity::from(65000, 10),
    ]);
    assert_eq!(l.value.len(), 2);
    let mut buf: Vec<u8> = Vec::new();
    let n = l.encode_to(&mut buf).unwrap();
    assert_eq!(n, 8);
    let l2 = BgpCommunityList::decode_from(&buf).unwrap();
    assert_eq!(l2, l);
}

#[test]
fn test_large_community_round_trip() {
    let c = BgpLargeCommunity { ga: 65000, ldp1: 1, ldp2: 2 };
    let mut buf: Vec<u8> = Vec::new();
    assert_eq!(c.encode_to(&mut buf).unwrap(), 12);
    let c2 = BgpLargeCommunity::decode_from(&buf).unwrap();
    assert_eq!(c2, c);
    let l = BgpLargeCommunityList::decode_from(&buf).unwrap();
    assert_eq!(l.value, vec![c]);
}

#[test]
fn test_ext_community_round_trip() {
    let c = BgpExtCommunity::rt_asn(65000, 100);
    let mut buf: Vec<u8> = Vec::new();
    assert_eq!(c.encode_to(&mut buf).unwrap(), 8);
    assert_eq!(buf, vec![0, 2, 0xfd, 0xe8, 0, 0, 0, 100]);
    let c2 = BgpExtCommunity::decode_from(&buf).unwrap();
    assert_eq!(c2, c);
    assert_eq!(c2.get_num(), 100);
}

#[test]
fn test_community_list_sorted() {
    let l = BgpCommunityList::from_vec(vec![
        BgpCommunity::from(65000, 10),
        BgpCommunity::from(23, 45),
        BgpCommunity::new(0xffffff01),
    ]);
    let values: Vec<u32> = l.value.iter().map(|c| c.value).collect();
    assert_eq!(values, vec![0x0017002d, 0xfde8000a, 0xffffff01]);

    let wire = [0xff, 0xff, 0xff, 0x01, 0x00, 0x17, 0x00, 0x2d];
    let d = BgpCommunityList::decode_from(&wire).unwrap();
    let dvalues: Vec<u32> = d.value.iter().map(|c| c.value).collect();
    assert_eq!(dvalues, vec![0x0017002d, 0xffffff01]);
}
