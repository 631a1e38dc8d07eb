//! BMP framing and the stateful collector session.

use zettabgp::afi::ipv4::BgpAddrV4;
use zettabgp::afi::{BgpAddrs, BgpRD};
use zettabgp::bmp::{
    BMPSession, BgpSessionKey, BmpMessage, BmpMessageHeader, BmpMessagePeerDown,
    BmpMessagePeerDownReason, BmpMessagePeerHeader, BmpMessagePeerUp, BmpMessageRouteMonitoring,
    BmpMessageTermination,
};
use zettabgp::message::open::BgpOpenMessage;
use zettabgp::message::update::BgpUpdateMessage;
use zettabgp::util::{IpAddr, Ipv4Addr};
use zettabgp::BgpCapability;

fn peer_header() -> BmpMessagePeerHeader {
    BmpMessagePeerHeader {
        peertype: 0,
        flags: 0,
        peerdistinguisher: BgpRD::new(0, 0),
        peeraddress: IpAddr::V4(Ipv4Addr::new(10, 9, 9, 9)),
        asnum: 64512,
        routerid: Ipv4Addr::new(1, 0, 0, 0),
        timestamp: 0,
    }
}

fn peer_up_wire() -> Vec<u8> {
    let open = BgpOpenMessage {
        as_num: 64512,
        hold_time: 180,
        router_id: Ipv4Addr::new(1, 0, 0, 0),
        caps: vec![BgpCapability::SafiIPv4u, BgpCapability::CapASN32(64512)],
    };
    let open2 = BgpOpenMessage {
        as_num: 64512,
        hold_time: 180,
        router_id: Ipv4Addr::new(1, 0, 0, 0),
        caps: vec![BgpCapability::SafiIPv4u, BgpCapability::CapASN32(64512)],
    };
    let up = BmpMessagePeerUp {
        peer: peer_header(),
        localaddress: IpAddr::V4(Ipv4Addr::new(10, 9, 9, 1)),
        localport: 179,
        remoteport: 33000,
        msg1: open,
        msg2: open2,
    };
    let mut body: Vec<u8> = vec![3];
    up.encode_to(&mut body).unwrap();
    body
}

fn route_monitoring_wire() -> Vec<u8> {
    let mut upd = BgpUpdateMessage::new();
    upd.updates = BgpAddrs::IPV4U(vec![BgpAddrV4::new(Ipv4Addr::new(10, 0, 0, 0), 8)]);
    let rm = BmpMessageRouteMonitoring { peer: peer_header(), update: upd };
    let mut body: Vec<u8> = vec![0];
    rm.encode_to(&mut body).unwrap();
    body
}

#[test]
fn test_bmp_header() {
    let wire: Vec<u8> = vec![3, 0, 0, 0, 48, 4];
    let (h, n) = BmpMessageHeader::decode_from(&wire).unwrap();
    assert_eq!(n, 5);
    assert_eq!(h.version, 3);
    assert_eq!(h.msglength, 48);
    assert!(BmpMessageHeader::decode_from(&[2, 0, 0, 0, 8]).is_err());
}

#[test]
fn test_bmp_peer_up_then_route_monitoring() {
    let mut sess = BMPSession::new();
    // Feed a peer-up carrying two OPENs that advertise IPv4 unicast and a
    // four-octet AS.
    let up_wire = peer_up_wire();
    match sess.decode_from(&up_wire).unwrap() {
        BmpMessage::PeerUpNotification(up) => {
            assert_eq!(up.peer.asnum, 64512);
            assert_eq!(up.msg1.caps.len(), 2);
        },
        other => panic!("wrong message: {:?}", other),
    }
    assert_eq!(sess.sessions.len(), 1);

    // A route-monitoring message for the same peer decodes under the
    // negotiated parameters and yields the announced prefix.
    let rm_wire = route_monitoring_wire();
    match sess.decode_from(&rm_wire).unwrap() {
        BmpMessage::RouteMonitoring(rm) => {
            match &rm.update.updates {
                BgpAddrs::IPV4U(v) => {
                    assert_eq!(v.len(), 1);
                    assert_eq!(v[0], BgpAddrV4::new(Ipv4Addr::new(10, 0, 0, 0), 8));
                },
                other => panic!("wrong variant: {:?}", other),
            }
        },
        other => panic!("wrong message: {:?}", other),
    }

    // A peer-down removes the entry.
    let down = BmpMessagePeerDown { peer: peer_header(), reason: BmpMessagePeerDownReason::Remote };
    let mut down_wire: Vec<u8> = vec![2];
    down.encode_to(&mut down_wire).unwrap();
    match sess.decode_from(&down_wire).unwrap() {
        BmpMessage::PeerDownNotification(_) => {},
        other => panic!("wrong message: {:?}", other),
    }
    assert_eq!(sess.sessions.len(), 0);

    // With the entry gone the same route-monitoring message still decodes,
    // now under parameters synthesized from the peer header alone.
    match sess.decode_from(&rm_wire).unwrap() {
        BmpMessage::RouteMonitoring(rm) => {
            match &rm.update.updates {
                BgpAddrs::IPV4U(v) => {
                    assert_eq!(v.len(), 1);
                    assert_eq!(v[0], BgpAddrV4::new(Ipv4Addr::new(10, 0, 0, 0), 8));
                },
                other => panic!("wrong variant: {:?}", other),
            }
        },
        other => panic!("wrong message: {:?}", other),
    }
}

#[test]
fn test_bmp_stateless_decode() {
    let rm_wire = route_monitoring_wire();
    match BmpMessage::decode_from(&rm_wire).unwrap() {
        BmpMessage::RouteMonitoring(rm) => {
            assert_eq!(rm.peer.routerid, Ipv4Addr::new(1, 0, 0, 0));
        },
        other => panic!("wrong message: {:?}", other),
    }
}

#[test]
fn test_bmp_termination_round_trip() {
    let t = BmpMessageTermination { str0: Some(b"bye".to_vec()), reason: Some(1) };
    let mut buf: Vec<u8> = Vec::new();
    let n = t.encode_to(&mut buf).unwrap();
    assert_eq!(n, buf.len());
    let (got, m) = BmpMessageTermination::decode_from(&buf).unwrap();
    assert_eq!(m, n);
    assert_eq!(got, t);
}

#[test]
fn test_session_key() {
    let k = BgpSessionKey::new(BgpRD::new(0, 0), IpAddr::V4(Ipv4Addr::new(10, 9, 9, 9)));
    assert_eq!(k, BgpSessionKey::from_peer(&peer_header()));
}
