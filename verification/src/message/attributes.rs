//! BGP path attributes: each kind decodes from its length-bounded payload
//! and re-encodes behind the canonical flags/typecode/length envelope.

use crate::afi::{grew_by, labels_encode_raw, labels_extract, sub_tail, wf_labels_core, MplsLabels};
use crate::error::BgpError;
use crate::util::{
    addr_bytes, decode_addr_from, decode_addrv4_from, decode_addrv6_from, encode_addr_to,
    encode_addrv4_to, encode_addrv6_to, getn_u16, getn_u32, push_u16, push_u32, u32_bytes, IpAddr,
    Ipv4Addr,
};
use crate::{BgpSessionParams, BgpTransportMode};
use vstd::prelude::*;
use vstd::slice::slice_subrange;

pub mod aspath;
pub mod community;
pub mod multiproto;

use aspath::BgpASpath;
use community::{BgpCommunityList, BgpExtCommunityList, BgpLargeCommunityList};
use multiproto::{BgpMPUpdates, BgpMPWithdraws};

verus! {

/// The envelope parameters of a path attribute: its type code and flags.
#[derive(Debug, Clone, Copy, PartialEq, Eq, Structural, PartialOrd, Ord, Hash)]
pub struct BgpAttrParams {
    pub typecode: u8,
    pub flags: u8,
}

/// The origin of a route.
#[derive(Debug, Clone, Copy, PartialEq, Eq, Structural, PartialOrd, Ord, Hash)]
pub enum BgpAttrOrigin {
    Igp,
    Egp,
    Incomplete,
}

/// The one-octet code of an origin value.
pub open spec fn origin_code(v: BgpAttrOrigin) -> u8 {
    match v {
        BgpAttrOrigin::Igp => 0,
        BgpAttrOrigin::Egp => 1,
        BgpAttrOrigin::Incomplete => 2,
    }
}

/// The origin path attribute.
#[derive(Debug, Clone, Copy, PartialEq, Eq, Structural, PartialOrd, Ord, Hash)]
pub struct BgpOrigin {
    pub value: BgpAttrOrigin,
}

impl BgpOrigin {
    /// Wraps an origin value.
    pub fn new(v: BgpAttrOrigin) -> (r: BgpOrigin)
        ensures
            r.value == v,
    {
        BgpOrigin { value: v }
    }

    /// Reads an origin from its one-octet payload; codes above two are
    /// rejected.
    pub fn decode_from(buf: &[u8]) -> (r: Result<BgpOrigin, BgpError>)
        ensures
            buf@.len() >= 1 && buf@[0] <= 2 ==> (r matches Ok(v) && origin_code(v.value)
                == buf@[0]),
            buf@.len() == 0 || (buf@.len() >= 1 && buf@[0] > 2) ==> r is Err,
    {
        if buf.len() == 0 {
            return Err(BgpError::InsufficientBufferSize);
        }
        match buf[0] {
            0 => Ok(BgpOrigin { value: BgpAttrOrigin::Igp }),
            1 => Ok(BgpOrigin { value: BgpAttrOrigin::Egp }),
            2 => Ok(BgpOrigin { value: BgpAttrOrigin::Incomplete }),
            _ => Err(BgpError::static_str("Invalid value for BgpOrigin")),
        }
    }

    /// Appends the one-octet payload.
    pub fn encode_to(&self, buf: &mut Vec<u8>) -> (r: Result<usize, BgpError>)
        ensures
            r matches Ok(n) && n == 1,
            final(buf)@ == old(buf)@ + seq![origin_code(self.value)],
    {
        buf.push(self.value.encode_code());
        proof {
            assert(final(buf)@ =~= old(buf)@ + seq![origin_code(self.value)]);
        }
        Ok(1)
    }
}

impl BgpAttrOrigin {
    /// The one-octet code of this origin value.
    pub fn encode_code(&self) -> (r: u8)
        ensures
            r == origin_code(*self),
    {
        match self {
            BgpAttrOrigin::Igp => 0,
            BgpAttrOrigin::Egp => 1,
            BgpAttrOrigin::Incomplete => 2,
        }
    }
}

/// The multi-exit discriminator path attribute.
#[derive(Debug, Clone, Copy, PartialEq, Eq, Structural, PartialOrd, Ord, Hash)]
pub struct BgpMED {
    pub value: u32,
}

impl BgpMED {
    /// Wraps a discriminator value.
    pub fn new(v: u32) -> (r: BgpMED)
        ensures
            r.value == v,
    {
        BgpMED { value: v }
    }

    /// Reads the four-octet payload.
    pub fn decode_from(buf: &[u8]) -> (r: Result<BgpMED, BgpError>)
        ensures
            buf@.len() >= 4 ==> (r matches Ok(v) && u32_bytes(v.value) == buf@.subrange(0, 4)),
            buf@.len() < 4 ==> r is Err,
    {
        if buf.len() >= 4 {
            Ok(BgpMED { value: getn_u32(buf) })
        } else {
            Err(BgpError::static_str("Invalid MED length"))
        }
    }

    /// Appends the four-octet payload.
    pub fn encode_to(&self, buf: &mut Vec<u8>) -> (r: Result<usize, BgpError>)
        ensures
            r matches Ok(n) && n == 4,
            final(buf)@ == old(buf)@ + u32_bytes(self.value),
    {
        push_u32(buf, self.value);
        Ok(4)
    }
}

/// The local preference path attribute.
#[derive(Debug, Clone, Copy, PartialEq, Eq, Structural, PartialOrd, Ord, Hash)]
pub struct BgpLocalpref {
    pub value: u32,
}

impl BgpLocalpref {
    /// Wraps a preference value.
    pub fn new(v: u32) -> (r: BgpLocalpref)
        ensures
            r.value == v,
    {
        BgpLocalpref { value: v }
    }

    /// Reads the four-octet payload.
    pub fn decode_from(buf: &[u8]) -> (r: Result<BgpLocalpref, BgpError>)
        ensures
            buf@.len() >= 4 ==> (r matches Ok(v) && u32_bytes(v.value) == buf@.subrange(0, 4)),
            buf@.len() < 4 ==> r is Err,
    {
        if buf.len() >= 4 {
            Ok(BgpLocalpref { value: getn_u32(buf) })
        } else {
            Err(BgpError::static_str("Invalid localpref length"))
        }
    }

    /// Appends the four-octet payload.
    pub fn encode_to(&self, buf: &mut Vec<u8>) -> (r: Result<usize, BgpError>)
        ensures
            r matches Ok(n) && n == 4,
            final(buf)@ == old(buf)@ + u32_bytes(self.value),
    {
        push_u32(buf, self.value);
        Ok(4)
    }
}

/// The next-hop path attribute: four or sixteen octets, by the transport
/// family of the session.
#[derive(Debug, Clone, Copy, PartialEq, Eq, Structural, PartialOrd, Ord, Hash)]
pub struct BgpNextHop {
    /// the next hop itself
    pub value: IpAddr,
}

impl BgpNextHop {
    /// Wraps a next-hop address.
    pub fn new(v: IpAddr) -> (r: BgpNextHop)
        ensures
            r.value == v,
    {
        BgpNextHop { value: v }
    }

    /// Reads the payload: sixteen octets on an IPv6 session, four on an
    /// IPv4 one.
    pub fn decode_from(peer: &BgpSessionParams, buf: &[u8]) -> (r: Result<BgpNextHop, BgpError>)
        ensures
            r matches Ok(v) ==> addr_bytes(v.value) == buf@.subrange(
                0,
                addr_bytes(v.value).len() as int,
            ) && (peer.peer_mode is IPv6 ==> v.value is V6) && (peer.peer_mode is IPv4 && buf@.len()
                < 16 ==> v.value is V4),
    {
        if matches!(peer.peer_mode, BgpTransportMode::IPv6) && buf.len() >= 16 {
            let a = match decode_addrv6_from(buf) {
                Ok(a) => a,
                Err(e) => {
                    return Err(e);
                },
            };
            return Ok(BgpNextHop { value: IpAddr::V6(a) });
        }
        if matches!(peer.peer_mode, BgpTransportMode::IPv4) && buf.len() >= 4 {
            let a = match decode_addrv4_from(buf) {
                Ok(a) => a,
                Err(e) => {
                    return Err(e);
                },
            };
            return Ok(BgpNextHop { value: IpAddr::V4(a) });
        }
        Err(BgpError::static_str("Invalid nexthop length"))
    }

    /// Appends the address when its kind matches the session transport.
    pub fn encode_to(&self, peer: &BgpSessionParams, buf: &mut Vec<u8>) -> (r: Result<
        usize,
        BgpError,
    >)
        ensures
            r matches Ok(n) ==> final(buf)@ == old(buf)@ + addr_bytes(self.value) && n
                == addr_bytes(self.value).len(),
            r is Err ==> final(buf)@ == old(buf)@,
    {
        match (&self.value, &peer.peer_mode) {
            (IpAddr::V6(v), BgpTransportMode::IPv6) => Ok(encode_addrv6_to(v, buf)),
            (IpAddr::V4(v), BgpTransportMode::IPv4) => Ok(encode_addrv4_to(v, buf)),
            _ => Err(BgpError::static_str("Invalid nexthop type")),
        }
    }
}

/// The atomic-aggregate path attribute: empty on the wire, or an address
/// kept for interoperability.
#[derive(Debug, Clone, Copy, PartialEq, Eq, Structural, PartialOrd, Ord, Hash)]
pub struct BgpAtomicAggregate {
    pub value: IpAddr,
}

impl BgpAtomicAggregate {
    /// Reads the payload: empty yields the zero address, four or sixteen
    /// octets yield that address.
    pub fn decode_from(peer: &BgpSessionParams, buf: &[u8]) -> (r: Result<
        BgpAtomicAggregate,
        BgpError,
    >)
        ensures
            buf@.len() == 0 ==> (r matches Ok(v) && v.value == IpAddr::V4(Ipv4Addr { value: 0 })),
            buf@.len() == 4 || buf@.len() == 16 ==> (r matches Ok(v) && addr_bytes(v.value)
                == buf@),
    {
        if buf.len() == 0 {
            Ok(BgpAtomicAggregate { value: IpAddr::V4(Ipv4Addr { value: 0 }) })
        } else {
            match decode_addr_from(buf) {
                Ok(a) => Ok(BgpAtomicAggregate { value: a }),
                Err(e) => Err(e),
            }
        }
    }

    /// Appends the address.
    pub fn encode_to(&self, buf: &mut Vec<u8>) -> (r: Result<usize, BgpError>)
        ensures
            r matches Ok(n) && n == addr_bytes(self.value).len(),
            final(buf)@ == old(buf)@ + addr_bytes(self.value),
    {
        Ok(encode_addr_to(&self.value, buf))
    }
}

/// The aggregator path attribute: the aggregating AS, two or four octets
/// wide by the session AS width, then the aggregation router id.
#[derive(Debug, Clone, Copy, PartialEq, Eq, Structural, PartialOrd, Ord, Hash)]
pub struct BgpAggregatorAS {
    /// autonomous system number
    pub asn: u32,
    /// aggregation router id
    pub addr: Ipv4Addr,
}

impl BgpAggregatorAS {
    /// Reads the payload: eight octets with a four-octet AS, six with a
    /// two-octet one.
    pub fn decode_from(peer: &BgpSessionParams, buf: &[u8]) -> (r: Result<
        BgpAggregatorAS,
        BgpError,
    >)
        ensures
            buf@.len() == 8 ==> (r matches Ok(v) && u32_bytes(v.asn) == buf@.subrange(0, 4)
                && u32_bytes(v.addr.value) == buf@.subrange(4, 8)),
            buf@.len() == 6 ==> (r matches Ok(v) && v.asn < 0x10000 && u32_bytes(v.addr.value)
                == buf@.subrange(2, 6)),
            buf@.len() != 6 && buf@.len() != 8 ==> r is Err,
    {
        if buf.len() == 8 {
            let asn = getn_u32(buf);
            let a = match decode_addrv4_from(sub_tail(buf, 4)) {
                Ok(a) => a,
                Err(e) => {
                    return Err(e);
                },
            };
            Ok(BgpAggregatorAS { asn, addr: a })
        } else if buf.len() == 6 {
            let asn = getn_u16(buf) as u32;
            let a = match decode_addrv4_from(sub_tail(buf, 2)) {
                Ok(a) => a,
                Err(e) => {
                    return Err(e);
                },
            };
            Ok(BgpAggregatorAS { asn, addr: a })
        } else {
            Err(BgpError::static_str("Invalid AggregatorAS length"))
        }
    }

    /// Appends the AS, four octets wide when four-octet AS numbers are in
    /// force and two otherwise, then the router id.
    pub fn encode_to(&self, peer: &BgpSessionParams, buf: &mut Vec<u8>) -> (r: Result<
        usize,
        BgpError,
    >)
        ensures
            peer.has_as32bit ==> (r matches Ok(n) && n == 8 && final(buf)@ == old(buf)@ + u32_bytes(
                self.asn,
            ) + u32_bytes(self.addr.value)),
            !peer.has_as32bit ==> (r matches Ok(n) && n == 6 && final(buf)@ == old(buf)@
                + crate::util::u16_bytes((self.asn & 0xffff) as u16) + u32_bytes(self.addr.value)),
    {
        if peer.has_as32bit {
            push_u32(buf, self.asn);
            let _ = encode_addrv4_to(&self.addr, buf);
            Ok(8)
        } else {
            push_u16(buf, (self.asn & 0xffff) as u16);
            let _ = encode_addrv4_to(&self.addr, buf);
            Ok(6)
        }
    }
}

/// The originator-id path attribute.
#[derive(Debug, Clone, Copy, PartialEq, Eq, Structural, PartialOrd, Ord, Hash)]
pub struct BgpOriginatorID {
    pub value: IpAddr,
}

impl BgpOriginatorID {
    /// Wraps an originator address.
    pub fn new(o: IpAddr) -> (r: BgpOriginatorID)
        ensures
            r.value == o,
    {
        BgpOriginatorID { value: o }
    }

    /// Reads the payload: four octets on an IPv4 session; sixteen on an
    /// IPv6 one when available, else four.
    pub fn decode_from(peer: &BgpSessionParams, buf: &[u8]) -> (r: Result<BgpOriginatorID, BgpError>)
        ensures
            r matches Ok(v) ==> addr_bytes(v.value) == buf@.subrange(
                0,
                addr_bytes(v.value).len() as int,
            ),
    {
        match peer.peer_mode {
            BgpTransportMode::IPv4 => {
                if buf.len() < 4 {
                    return Err(BgpError::insufficient_buffer_size());
                }
                match decode_addrv4_from(buf) {
                    Ok(a) => Ok(BgpOriginatorID { value: IpAddr::V4(a) }),
                    Err(e) => Err(e),
                }
            },
            BgpTransportMode::IPv6 => {
                if buf.len() >= 16 {
                    match decode_addrv6_from(buf) {
                        Ok(a) => Ok(BgpOriginatorID { value: IpAddr::V6(a) }),
                        Err(e) => Err(e),
                    }
                } else if buf.len() >= 4 {
                    match decode_addrv4_from(buf) {
                        Ok(a) => Ok(BgpOriginatorID { value: IpAddr::V4(a) }),
                        Err(e) => Err(e),
                    }
                } else {
                    Err(BgpError::insufficient_buffer_size())
                }
            },
        }
    }

    /// Appends the address when its kind matches the session transport.
    pub fn encode_to(&self, peer: &BgpSessionParams, buf: &mut Vec<u8>) -> (r: Result<
        usize,
        BgpError,
    >)
        ensures
            r matches Ok(n) ==> final(buf)@ == old(buf)@ + addr_bytes(self.value) && n
                == addr_bytes(self.value).len(),
            r is Err ==> final(buf)@ == old(buf)@,
    {
        match (&self.value, &peer.peer_mode) {
            (IpAddr::V4(a), BgpTransportMode::IPv4) => Ok(encode_addrv4_to(a, buf)),
            (IpAddr::V6(a), BgpTransportMode::IPv6) => Ok(encode_addrv6_to(a, buf)),
            _ => Err(BgpError::static_str("Invalid originatorid kind")),
        }
    }
}

/// The cluster-list path attribute: the router ids of the reflection
/// clusters the route has crossed.
#[derive(Debug, Clone, PartialEq, Eq)]
pub struct BgpClusterList {
    pub value: Vec<IpAddr>,
}

impl BgpClusterList {
    /// Reads router ids, four or sixteen octets each by the session
    /// transport, until fewer than one id's octets remain.
    pub fn decode_from(peer: &BgpSessionParams, buf: &[u8]) -> (r: Result<BgpClusterList, BgpError>)
    {
        let itemsize: usize = match peer.peer_mode {
            BgpTransportMode::IPv4 => 4,
            BgpTransportMode::IPv6 => 16,
        };
        let mut v: Vec<IpAddr> = Vec::new();
        let mut pos: usize = 0;
        while pos < buf.len() && buf.len() - pos >= itemsize
            invariant
                itemsize == 4 || itemsize == 16,
                pos <= buf@.len(),
            decreases buf@.len() - pos,
        {
            let a = match decode_addr_from(slice_subrange(buf, pos, pos + itemsize)) {
                Ok(a) => a,
                Err(e) => {
                    return Err(e);
                },
            };
            v.push(a);
            pos = pos + itemsize;
        }
        Ok(BgpClusterList { value: v })
    }

    /// Appends the router ids.
    pub fn encode_to(&self, buf: &mut Vec<u8>) -> (r: Result<usize, BgpError>)
        ensures
            r matches Ok(n) ==> grew_by(old(buf)@, final(buf)@, n as int),
    {
        proof {
            assert(old(buf)@.subrange(0, old(buf)@.len() as int) =~= old(buf)@);
        }
        let mut pos: usize = 0;
        let mut i: usize = 0;
        while i < self.value.len()
            invariant
                i <= self.value@.len(),
                grew_by(old(buf)@, buf@, pos as int),
            decreases self.value@.len() - i,
        {
            let ghost pre = buf@;
            let w = encode_addr_to(&self.value[i], buf);
            let blen = buf.len();
            proof {
                assert(pos + w <= blen);
                assert forall|j: int| 0 <= j < old(buf)@.len() implies buf@[j] == old(buf)@[j] by {
                    assert(pre.subrange(0, old(buf)@.len() as int)[j] == old(buf)@[j]);
                }
                assert(buf@.subrange(0, old(buf)@.len() as int) =~= old(buf)@);
            }
            pos = pos + w;
            i = i + 1;
        }
        Ok(pos)
    }
}

/// The deprecated connector path attribute, still seen on the wire.
#[derive(Debug, Clone, Copy, PartialEq, Eq, Structural, PartialOrd, Ord, Hash)]
pub struct BgpConnector {
    pub asn: u32,
    pub addr: Ipv4Addr,
    pub orig: Ipv4Addr,
}

impl BgpConnector {
    /// Builds a connector attribute.
    pub fn new(asn: u32, addr: Ipv4Addr, orig: Ipv4Addr) -> (r: BgpConnector)
        ensures
            r == (BgpConnector { asn, addr, orig }),
    {
        BgpConnector { asn, addr, orig }
    }

    /// Reads the payload: a type of one, the AS, and two addresses.
    pub fn decode_from(buf: &[u8]) -> (r: Result<BgpConnector, BgpError>)
        ensures
            r matches Ok(v) ==> buf@.len() >= 14 && u32_bytes(v.asn) == buf@.subrange(2, 6)
                && u32_bytes(v.addr.value) == buf@.subrange(6, 10) && u32_bytes(v.orig.value)
                == buf@.subrange(10, 14),
    {
        if buf.len() >= 14 {
            let t = getn_u16(buf);
            if t != 1 {
                return Err(BgpError::static_str("Unknown Connector type"));
            }
            let asn = getn_u32(slice_subrange(buf, 2, 6));
            let addr = match decode_addrv4_from(sub_tail(buf, 6)) {
                Ok(a) => a,
                Err(e) => {
                    return Err(e);
                },
            };
            let orig = match decode_addrv4_from(sub_tail(buf, 10)) {
                Ok(a) => a,
                Err(e) => {
                    return Err(e);
                },
            };
            Ok(BgpConnector { asn, addr, orig })
        } else {
            Err(BgpError::static_str("Invalid Connector length"))
        }
    }

    /// Appends the fourteen-octet payload.
    pub fn encode_to(&self, buf: &mut Vec<u8>) -> (r: Result<usize, BgpError>)
        ensures
            r matches Ok(n) && n == 14,
            final(buf)@ == old(buf)@ + u16_one() + u32_bytes(self.asn) + u32_bytes(self.addr.value)
                + u32_bytes(self.orig.value),
    {
        push_u16(buf, 1);
        push_u32(buf, self.asn);
        let _ = encode_addrv4_to(&self.addr, buf);
        let _ = encode_addrv4_to(&self.orig, buf);
        proof {
            assert(final(buf)@ =~= old(buf)@ + u16_one() + u32_bytes(self.asn) + u32_bytes(
                self.addr.value,
            ) + u32_bytes(self.orig.value));
        }
        Ok(14)
    }
}

/// The two-octet image of the connector type code one.
pub open spec fn u16_one() -> Seq<u8> {
    crate::util::u16_bytes(1u16)
}

/// A path attribute of a kind the library does not model, kept as its raw
/// bytes so it can be retransmitted without loss.
#[derive(Debug, Clone, PartialEq, Eq)]
pub struct BgpAttrUnknown {
    /// envelope type code and flags
    pub params: BgpAttrParams,
    /// the raw payload
    pub value: Vec<u8>,
}

impl BgpAttrUnknown {
    /// Builds an empty unknown attribute.
    pub fn new(tc: u8, flg: u8) -> (r: BgpAttrUnknown)
        ensures
            r.params.typecode == tc,
            r.params.flags == flg,
            r.value@ == Seq::<u8>::empty(),
    {
        BgpAttrUnknown { params: BgpAttrParams { typecode: tc, flags: flg }, value: Vec::new() }
    }

    /// Keeps the raw payload of an unknown attribute.
    pub fn decode_from(tc: u8, flg: u8, buf: &[u8]) -> (r: Result<BgpAttrUnknown, BgpError>)
        ensures
            r matches Ok(v) && v.params.typecode == tc && v.params.flags == flg && v.value@
                == buf@,
    {
        let value = crate::copy_bytes_range(buf, 0, buf.len());
        proof {
            assert(buf@.subrange(0, buf@.len() as int) =~= buf@);
        }
        Ok(BgpAttrUnknown { params: BgpAttrParams { typecode: tc, flags: flg }, value })
    }

    /// Appends the raw payload unchanged.
    pub fn encode_to(&self, buf: &mut Vec<u8>) -> (r: Result<usize, BgpError>)
        ensures
            r matches Ok(n) && n == self.value@.len(),
            final(buf)@ == old(buf)@ + self.value@,
    {
        crate::append_bytes(buf, &self.value);
        Ok(self.value.len())
    }
}

/// The tunnel endpoint of an RSVP-TE point-to-multipoint PMSI tunnel.
#[derive(Debug, Clone, Copy, PartialEq, Eq, Structural, PartialOrd, Ord, Hash)]
pub struct BgpPMSITaRSVP {
    pub ext_tunnel_id: Ipv4Addr,
    pub reserved: u16,
    pub tunnel_id: u16,
    pub p2mp_id: Ipv4Addr,
}

/// The endpoint of an ingress-replication PMSI tunnel.
#[derive(Debug, Clone, Copy, PartialEq, Eq, Structural, PartialOrd, Ord, Hash)]
pub struct BgpPMSITaIngressRepl {
    pub endpoint: Ipv4Addr,
}

/// The root and opaque value of an mLDP point-to-multipoint PMSI tunnel.
#[derive(Debug, Clone, PartialEq, Eq)]
pub struct BgpPMSITaMLDP {
    pub rootnode: IpAddr,
    pub opaque: Vec<u8>,
}

/// The tunnel description inside a PMSI tunnel attribute.
#[derive(Debug, Clone, PartialEq, Eq)]
pub enum BgpPMSITunnelAttr {
    NoInfo,
    RSVPTe(BgpPMSITaRSVP),
    IngressRepl(BgpPMSITaIngressRepl),
    MLDP(BgpPMSITaMLDP),
}

/// The PMSI tunnel path attribute: flags, tunnel type, an MPLS label and
/// the tunnel description the type selects.
#[derive(Debug, Clone, PartialEq, Eq)]
pub struct BgpPMSITunnel {
    pub flags: u8,
    pub tunnel_type: u8,
    pub label: MplsLabels,
    pub tunnel_attribute: BgpPMSITunnelAttr,
}

impl BgpPMSITunnel {
    /// Reads the payload: flags, tunnel type, a three-octet label, then
    /// the tunnel description of the type.
    pub fn decode_from(peer: &BgpSessionParams, buf: &[u8]) -> (r: Result<BgpPMSITunnel, BgpError>)
        ensures
            r matches Ok(v) ==> wf_labels_core(v.label.labels@),
    {
        if buf.len() < 5 {
            return Err(BgpError::static_str("Invalid PMSI buffer length"));
        }
        let (lv, ln) = match labels_extract(24, sub_tail(buf, 2)) {
            Ok(p) => p,
            Err(e) => {
                return Err(e);
            },
        };
        proof {
            crate::afi::lemma_labels_dec_bounds(24, buf@.subrange(2, buf@.len() as int));
        }
        let curpos = 2 + ln;
        let flags = buf[0];
        let ttype = buf[1];
        let tunnel_attribute: BgpPMSITunnelAttr = if ttype == 0 {
            BgpPMSITunnelAttr::NoInfo
        } else if ttype == 1 {
            if buf.len() - curpos < 12 {
                return Err(BgpError::static_str("Invalid PMSI buffer length"));
            }
            let ext_tunnel_id = match decode_addrv4_from(sub_tail(buf, curpos)) {
                Ok(a) => a,
                Err(e) => {
                    return Err(e);
                },
            };
            let reserved = getn_u16(sub_tail(buf, curpos + 4));
            let tunnel_id = getn_u16(sub_tail(buf, curpos + 6));
            let p2mp_id = match decode_addrv4_from(sub_tail(buf, curpos + 8)) {
                Ok(a) => a,
                Err(e) => {
                    return Err(e);
                },
            };
            BgpPMSITunnelAttr::RSVPTe(
                BgpPMSITaRSVP { ext_tunnel_id, reserved, tunnel_id, p2mp_id },
            )
        } else if ttype == 2 {
            if buf.len() < 16 {
                return Err(BgpError::static_str("PMSI tunnel type mLDP p2mp too short"));
            }
            if buf[5] != 6 {
                return Err(BgpError::static_str("Unknown PMSI tunnel type mLDP p2mp"));
            }
            if getn_u16(sub_tail(buf, 6)) != 1 {
                return Err(BgpError::Static("Invalid root node address family"));
            }
            if buf[8] != 4 {
                return Err(BgpError::Static("Invalid root node address length"));
            }
            let rootnode = match decode_addrv4_from(sub_tail(buf, 9)) {
                Ok(a) => IpAddr::V4(a),
                Err(e) => {
                    return Err(e);
                },
            };
            let opaquelen = getn_u16(sub_tail(buf, 13)) as usize;
            if buf.len() - 15 < opaquelen {
                return Err(BgpError::static_str("PMSI tunnel type mLDP p2mp too short"));
            }
            let opaque = crate::copy_bytes_range(buf, 15, opaquelen);
            BgpPMSITunnelAttr::MLDP(BgpPMSITaMLDP { rootnode, opaque })
        } else if ttype == 6 {
            if buf.len() - curpos < 4 {
                return Err(BgpError::static_str("Invalid PMSI buffer length"));
            }
            let endpoint = match decode_addrv4_from(sub_tail(buf, curpos)) {
                Ok(a) => a,
                Err(e) => {
                    return Err(e);
                },
            };
            BgpPMSITunnelAttr::IngressRepl(BgpPMSITaIngressRepl { endpoint })
        } else {
            return Err(BgpError::static_str("Unknown PMSI tunnel type"));
        };
        Ok(
            BgpPMSITunnel {
                flags,
                tunnel_type: ttype,
                label: MplsLabels { labels: lv },
                tunnel_attribute,
            },
        )
    }

    /// Appends the payload: flags, tunnel type, the label stack, the
    /// tunnel description.
    pub fn encode_to(&self, buf: &mut Vec<u8>) -> (r: Result<usize, BgpError>)
        requires
            wf_labels_core(self.label.labels@),
        ensures
            r matches Ok(n) ==> grew_by(old(buf)@, final(buf)@, n as int),
    {
        proof {
            assert(old(buf)@.subrange(0, old(buf)@.len() as int) =~= old(buf)@);
        }
        buf.push(self.flags);
        buf.push(self.tunnel_type);
        if self.label.labels.len() > 21840 {
            return Err(BgpError::too_many_data());
        }
        let ln = labels_encode_raw(&self.label.labels, buf);
        let w: usize = match &self.tunnel_attribute {
            BgpPMSITunnelAttr::NoInfo => 0,
            BgpPMSITunnelAttr::RSVPTe(t) => {
                let _ = encode_addrv4_to(&t.ext_tunnel_id, buf);
                push_u16(buf, t.reserved);
                push_u16(buf, t.tunnel_id);
                let _ = encode_addrv4_to(&t.p2mp_id, buf);
                12
            },
            BgpPMSITunnelAttr::IngressRepl(t) => {
                let _ = encode_addrv4_to(&t.endpoint, buf);
                4
            },
            BgpPMSITunnelAttr::MLDP(t) => {
                match &t.rootnode {
                    IpAddr::V4(a) => {
                        push_u16(buf, 1);
                        buf.push(4);
                        let _ = encode_addrv4_to(a, buf);
                    },
                    IpAddr::V6(_) => {
                        return Err(BgpError::static_str("Invalid root node address family"));
                    },
                }
                if t.opaque.len() > 65535 {
                    return Err(BgpError::too_many_data());
                }
                push_u16(buf, t.opaque.len() as u16);
                crate::append_bytes(buf, &t.opaque);
                9 + t.opaque.len()
            },
        };
        proof {
            assert(final(buf)@.subrange(0, old(buf)@.len() as int) =~= old(buf)@);
        }
        Ok(2 + ln + w)
    }
}

/// The attribute-set path attribute: the originating AS and the attributes
/// it carried.
#[derive(Debug, PartialEq, Eq)]
pub struct BgpAttrSet {
    /// originating autonomous system number
    pub asn: u32,
    /// the carried path attributes
    pub attrs: Vec<BgpAttrItem>,
}

/// A BGP path attribute of any supported kind.
#[derive(Debug, PartialEq, Eq)]
pub enum BgpAttrItem {
    Origin(BgpOrigin),
    ASPath(BgpASpath),
    NextHop(BgpNextHop),
    MED(BgpMED),
    LocalPref(BgpLocalpref),
    AtomicAggregate(BgpAtomicAggregate),
    AggregatorAS(BgpAggregatorAS),
    CommunityList(BgpCommunityList),
    OriginatorID(BgpOriginatorID),
    ClusterList(BgpClusterList),
    MPUpdates(BgpMPUpdates),
    MPWithdraws(BgpMPWithdraws),
    ExtCommunityList(BgpExtCommunityList),
    LargeCommunityList(BgpLargeCommunityList),
    PMSITunnel(BgpPMSITunnel),
    AttrSet(BgpAttrSet),
    Connector(BgpConnector),
    Unknown(BgpAttrUnknown),
}

/// An attribute of any kind but the attribute set that the encoder
/// accepts.
pub open spec fn wf_attr_basic(a: BgpAttrItem) -> bool {
    match a {
        BgpAttrItem::MPUpdates(v) => crate::afi::wf_addrs(v.addrs),
        BgpAttrItem::MPWithdraws(v) => crate::afi::wf_addrs(v.addrs),
        BgpAttrItem::PMSITunnel(v) => wf_labels_core(v.label.labels@),
        BgpAttrItem::AttrSet(_) => false,
        _ => true,
    }
}

/// An attribute the encoder accepts. An attribute set carries a nested
/// attribute run under the same envelope, to any depth.
pub open spec fn wf_attr(a: BgpAttrItem) -> bool
    decreases a, 1int,
{
    match a {
        BgpAttrItem::AttrSet(v) => wf_attr_list(v.attrs@),
        _ => wf_attr_basic(a),
    }
}

/// Every attribute of the run is one the encoder accepts.
pub open spec fn wf_attr_list(s: Seq<BgpAttrItem>) -> bool
    decreases s, 0int,
{
    if s.len() == 0 {
        true
    } else {
        wf_attr(s[0]) && wf_attr_list(s.drop_first())
    }
}

/// A run is well formed exactly when each of its attributes is.
pub proof fn lemma_wf_attr_list(s: Seq<BgpAttrItem>)
    ensures
        wf_attr_list(s) <==> (forall|i: int| 0 <= i < s.len() ==> #[trigger] wf_attr(s[i])),
    decreases s.len(),
{
    if s.len() == 0 {
    } else {
        lemma_wf_attr_list(s.drop_first());
        assert(forall|j: int|
            0 <= j < s.drop_first().len() ==> #[trigger] s.drop_first()[j] == s[j + 1]);
        if wf_attr_list(s) {
            assert forall|i: int| 0 <= i < s.len() implies #[trigger] wf_attr(s[i]) by {
                if i == 0 {
                    assert(wf_attr(s[0]));
                } else {
                    assert(wf_attr(s.drop_first()[i - 1]));
                }
            }
        }
        if forall|i: int| 0 <= i < s.len() ==> #[trigger] wf_attr(s[i]) {
            assert forall|j: int|
                0 <= j < s.drop_first().len() implies #[trigger] wf_attr(s.drop_first()[j]) by {
                assert(wf_attr(s[j + 1]));
            }
            assert(wf_attr_list(s.drop_first()));
            assert(wf_attr(s[0]));
        }
    }
}

/// The canonical envelope parameters of an attribute: its type code and
/// flag octet.
pub open spec fn spec_attr_params(a: BgpAttrItem) -> BgpAttrParams {
    match a {
        BgpAttrItem::Origin(_) => BgpAttrParams { typecode: 1, flags: 0x40 },
        BgpAttrItem::ASPath(_) => BgpAttrParams { typecode: 2, flags: 0x50 },
        BgpAttrItem::NextHop(_) => BgpAttrParams { typecode: 3, flags: 0x40 },
        BgpAttrItem::MED(_) => BgpAttrParams { typecode: 4, flags: 0x80 },
        BgpAttrItem::LocalPref(_) => BgpAttrParams { typecode: 5, flags: 0x40 },
        BgpAttrItem::AtomicAggregate(_) => BgpAttrParams { typecode: 6, flags: 0x40 },
        BgpAttrItem::AggregatorAS(_) => BgpAttrParams { typecode: 7, flags: 0x40 },
        BgpAttrItem::CommunityList(_) => BgpAttrParams { typecode: 8, flags: 0xc0 },
        BgpAttrItem::OriginatorID(_) => BgpAttrParams { typecode: 9, flags: 0x40 },
        BgpAttrItem::ClusterList(_) => BgpAttrParams { typecode: 10, flags: 0x50 },
        BgpAttrItem::MPUpdates(_) => BgpAttrParams { typecode: 14, flags: 0x90 },
        BgpAttrItem::MPWithdraws(_) => BgpAttrParams { typecode: 15, flags: 0x90 },
        BgpAttrItem::ExtCommunityList(_) => BgpAttrParams { typecode: 16, flags: 0xc0 },
        BgpAttrItem::LargeCommunityList(_) => BgpAttrParams { typecode: 32, flags: 0xe0 },
        BgpAttrItem::PMSITunnel(_) => BgpAttrParams { typecode: 22, flags: 0xc0 },
        BgpAttrItem::AttrSet(_) => BgpAttrParams { typecode: 128, flags: 0xe0 },
        BgpAttrItem::Connector(_) => BgpAttrParams { typecode: 20, flags: 0xc0 },
        BgpAttrItem::Unknown(u) => BgpAttrParams {
            typecode: u.params.typecode,
            flags: u.params.flags,
        },
    }
}

impl BgpAttrItem {
    /// The canonical envelope parameters of the attribute.
    pub fn attr(&self) -> (r: BgpAttrParams)
        ensures
            r == spec_attr_params(*self),
    {
        match self {
            BgpAttrItem::Origin(_) => BgpAttrParams { typecode: 1, flags: 0x40 },
            BgpAttrItem::ASPath(_) => BgpAttrParams { typecode: 2, flags: 0x50 },
            BgpAttrItem::NextHop(_) => BgpAttrParams { typecode: 3, flags: 0x40 },
            BgpAttrItem::MED(_) => BgpAttrParams { typecode: 4, flags: 0x80 },
            BgpAttrItem::LocalPref(_) => BgpAttrParams { typecode: 5, flags: 0x40 },
            BgpAttrItem::AtomicAggregate(_) => BgpAttrParams { typecode: 6, flags: 0x40 },
            BgpAttrItem::AggregatorAS(_) => BgpAttrParams { typecode: 7, flags: 0x40 },
            BgpAttrItem::CommunityList(_) => BgpAttrParams { typecode: 8, flags: 0xc0 },
            BgpAttrItem::OriginatorID(_) => BgpAttrParams { typecode: 9, flags: 0x40 },
            BgpAttrItem::ClusterList(_) => BgpAttrParams { typecode: 10, flags: 0x50 },
            BgpAttrItem::MPUpdates(_) => BgpAttrParams { typecode: 14, flags: 0x90 },
            BgpAttrItem::MPWithdraws(_) => BgpAttrParams { typecode: 15, flags: 0x90 },
            BgpAttrItem::ExtCommunityList(_) => BgpAttrParams { typecode: 16, flags: 0xc0 },
            BgpAttrItem::LargeCommunityList(_) => BgpAttrParams { typecode: 32, flags: 0xe0 },
            BgpAttrItem::PMSITunnel(_) => BgpAttrParams { typecode: 22, flags: 0xc0 },
            BgpAttrItem::AttrSet(_) => BgpAttrParams { typecode: 128, flags: 0xe0 },
            BgpAttrItem::Connector(_) => BgpAttrParams { typecode: 20, flags: 0xc0 },
            BgpAttrItem::Unknown(u) => BgpAttrParams {
                typecode: u.params.typecode,
                flags: u.params.flags,
            },
        }
    }

    /// Decodes one attribute payload, routed by its type code; unknown
    /// codes are kept raw.
    pub fn decode_from(
        peer: &BgpSessionParams,
        typecode: u8,
        flags: u8,
        attrlen: usize,
        buf: &[u8],
    ) -> (r: Result<BgpAttrItem, BgpError>)
        requires
            attrlen == buf@.len(),
        ensures
            r matches Ok(v) ==> wf_attr(v),
        decreases buf@.len(), 1int,
    {
        match typecode {
            1 => match BgpOrigin::decode_from(buf) {
                Ok(v) => Ok(BgpAttrItem::Origin(v)),
                Err(e) => Err(e),
            },
            2 => match BgpASpath::decode_from(peer, buf) {
                Ok(v) => Ok(BgpAttrItem::ASPath(v)),
                Err(e) => Err(e),
            },
            3 => match BgpNextHop::decode_from(peer, buf) {
                Ok(v) => Ok(BgpAttrItem::NextHop(v)),
                Err(e) => Err(e),
            },
            4 => match BgpMED::decode_from(buf) {
                Ok(v) => Ok(BgpAttrItem::MED(v)),
                Err(e) => Err(e),
            },
            5 => match BgpLocalpref::decode_from(buf) {
                Ok(v) => Ok(BgpAttrItem::LocalPref(v)),
                Err(e) => Err(e),
            },
            6 => match BgpAtomicAggregate::decode_from(peer, buf) {
                Ok(v) => Ok(BgpAttrItem::AtomicAggregate(v)),
                Err(e) => Err(e),
            },
            7 => match BgpAggregatorAS::decode_from(peer, buf) {
                Ok(v) => Ok(BgpAttrItem::AggregatorAS(v)),
                Err(e) => Err(e),
            },
            8 => match BgpCommunityList::decode_from(buf) {
                Ok(v) => Ok(BgpAttrItem::CommunityList(v)),
                Err(e) => Err(e),
            },
            9 => match BgpOriginatorID::decode_from(peer, buf) {
                Ok(v) => Ok(BgpAttrItem::OriginatorID(v)),
                Err(e) => Err(e),
            },
            10 => match BgpClusterList::decode_from(peer, buf) {
                Ok(v) => Ok(BgpAttrItem::ClusterList(v)),
                Err(e) => Err(e),
            },
            14 => match BgpMPUpdates::decode_from(peer, buf) {
                Ok(v) => Ok(BgpAttrItem::MPUpdates(v)),
                Err(e) => Err(e),
            },
            15 => match BgpMPWithdraws::decode_from(peer, buf) {
                Ok(v) => Ok(BgpAttrItem::MPWithdraws(v)),
                Err(e) => Err(e),
            },
            16 => match BgpExtCommunityList::decode_from(buf) {
                Ok(v) => Ok(BgpAttrItem::ExtCommunityList(v)),
                Err(e) => Err(e),
            },
            22 => match BgpPMSITunnel::decode_from(peer, buf) {
                Ok(v) => Ok(BgpAttrItem::PMSITunnel(v)),
                Err(e) => Err(e),
            },
            20 => match BgpConnector::decode_from(buf) {
                Ok(v) => Ok(BgpAttrItem::Connector(v)),
                Err(e) => Err(e),
            },
            32 => match BgpLargeCommunityList::decode_from(buf) {
                Ok(v) => Ok(BgpAttrItem::LargeCommunityList(v)),
                Err(e) => Err(e),
            },
            128 => match BgpAttrSet::decode_from(peer, buf) {
                Ok(v) => Ok(BgpAttrItem::AttrSet(v)),
                Err(e) => Err(e),
            },
            _ => match BgpAttrUnknown::decode_from(typecode, flags, buf) {
                Ok(v) => Ok(BgpAttrItem::Unknown(v)),
                Err(e) => Err(e),
            },
        }
    }

    /// Appends one attribute behind its envelope: flags, type code, a one-
    /// or two-octet length by bit four of the flags, then the payload.
    pub fn encode_to(&self, peer: &BgpSessionParams, buf: &mut Vec<u8>) -> (r: Result<
        usize,
        BgpError,
    >)
        requires
            wf_attr(*self),
        ensures
            r matches Ok(n) ==> grew_by(old(buf)@, final(buf)@, n as int) && n >= 3
                && final(buf)@[old(buf)@.len() as int] == spec_attr_params(*self).flags
                && final(buf)@[old(buf)@.len() + 1int] == spec_attr_params(*self).typecode,
        decreases *self,
    {
        match self {
            BgpAttrItem::AttrSet(v) => {
                proof {
                    assert(old(buf)@.subrange(0, old(buf)@.len() as int) =~= old(buf)@);
                    assert(wf_attr_list(v.attrs@));
                }
                buf.push(0xe0);
                buf.push(128);
                let lenpos = buf.len();
                buf.push(0);
                let ghost mid = buf@;
                let w = match v.encode_to(peer, buf) {
                    Ok(n) => n,
                    Err(e) => {
                        return Err(e);
                    },
                };
                if w > 255 {
                    return Err(BgpError::static_str("Invalid path attribute length"));
                }
                let ghost packed = buf@;
                buf.set(lenpos, w as u8);
                proof {
                    assert forall|j: int| 0 <= j < old(buf)@.len() implies final(buf)@[j] == old(
                        buf,
                    )@[j] by {
                        assert(final(buf)@[j] == packed[j]);
                        assert(packed.subrange(0, mid.len() as int)[j] == mid[j]);
                    }
                    assert(final(buf)@.subrange(0, old(buf)@.len() as int) =~= old(buf)@);
                    assert(packed.subrange(0, mid.len() as int)[old(buf)@.len() as int]
                        == mid[old(buf)@.len() as int]);
                    assert(packed.subrange(0, mid.len() as int)[old(buf)@.len() + 1int]
                        == mid[old(buf)@.len() + 1int]);
                    assert(final(buf)@[old(buf)@.len() as int] == packed[old(buf)@.len() as int]);
                    assert(final(buf)@[old(buf)@.len() + 1int] == packed[old(buf)@.len() + 1int]);
                    assert(mid[old(buf)@.len() as int] == 0xe0u8);
                    assert(mid[old(buf)@.len() + 1int] == 128u8);
                }
                Ok(3 + w)
            },
            _ => encode_basic_attr(self, peer, buf),
        }
    }
}

/// Appends one attribute of any kind but the attribute set behind its
/// envelope: flags, type code, a one- or two-octet length by bit four of
/// the flags, then the payload.
fn encode_basic_attr(item: &BgpAttrItem, peer: &BgpSessionParams, buf: &mut Vec<u8>) -> (r: Result<
    usize,
    BgpError,
>)
    requires
        wf_attr_basic(*item),
    ensures
        r matches Ok(n) ==> grew_by(old(buf)@, final(buf)@, n as int) && n >= 3
            && final(buf)@[old(buf)@.len() as int] == spec_attr_params(*item).flags
            && final(buf)@[old(buf)@.len() + 1int] == spec_attr_params(*item).typecode,
{
    proof {
        assert(old(buf)@.subrange(0, old(buf)@.len() as int) =~= old(buf)@);
    }
    let params = item.attr();
    buf.push(params.flags);
    buf.push(params.typecode);
    let extended = (params.flags & 16) > 0;
    let lenpos = buf.len();
    let hdr: usize;
    if extended {
        buf.push(0);
        buf.push(0);
        hdr = 4;
    } else {
        buf.push(0);
        hdr = 3;
    }
    let ghost mid = buf@;
    let w = match item {
        BgpAttrItem::Origin(v) => v.encode_to(buf),
        BgpAttrItem::ASPath(v) => v.encode_to(peer, buf),
        BgpAttrItem::NextHop(v) => v.encode_to(peer, buf),
        BgpAttrItem::MED(v) => v.encode_to(buf),
        BgpAttrItem::LocalPref(v) => v.encode_to(buf),
        BgpAttrItem::AtomicAggregate(v) => v.encode_to(buf),
        BgpAttrItem::AggregatorAS(v) => v.encode_to(peer, buf),
        BgpAttrItem::CommunityList(v) => v.encode_to(buf),
        BgpAttrItem::OriginatorID(v) => v.encode_to(peer, buf),
        BgpAttrItem::ClusterList(v) => v.encode_to(buf),
        BgpAttrItem::MPUpdates(v) => v.encode_to(peer, buf),
        BgpAttrItem::MPWithdraws(v) => v.encode_to(peer, buf),
        BgpAttrItem::ExtCommunityList(v) => v.encode_to(buf),
        BgpAttrItem::LargeCommunityList(v) => v.encode_to(buf),
        BgpAttrItem::PMSITunnel(v) => v.encode_to(buf),
        BgpAttrItem::AttrSet(_) => Err(
            BgpError::static_str("Nested attribute set"),
        ),
        BgpAttrItem::Connector(v) => v.encode_to(buf),
        BgpAttrItem::Unknown(v) => v.encode_to(buf),
    };
    let w = match w {
        Ok(n) => n,
        Err(e) => {
            return Err(e);
        },
    };
    let blen = buf.len();
    proof {
        assert(blen == mid.len() + w);
    }
    if extended {
        if w > 65535 {
            return Err(BgpError::static_str("Invalid path attribute length"));
        }
        let wv: u16 = w as u16;
        buf.set(lenpos, ((wv >> 8) & 0xff) as u8);
        buf.set(lenpos + 1, (wv & 0xff) as u8);
    } else {
        if w > 255 {
            return Err(BgpError::static_str("Invalid path attribute length"));
        }
        buf.set(lenpos, w as u8);
    }
    proof {
        assert forall|j: int| 0 <= j < old(buf)@.len() implies final(buf)@[j] == old(
            buf,
        )@[j] by {
            assert(mid.subrange(0, old(buf)@.len() as int)[j] == old(buf)@[j]);
        }
        assert(final(buf)@.subrange(0, old(buf)@.len() as int) =~= old(buf)@);
        assert(buf@.subrange(0, mid.len() as int)[old(buf)@.len() as int]
            == mid[old(buf)@.len() as int]);
        assert(buf@.subrange(0, mid.len() as int)[old(buf)@.len() + 1int]
            == mid[old(buf)@.len() + 1int]);
        assert(mid[old(buf)@.len() as int] == spec_attr_params(*item).flags);
        assert(mid[old(buf)@.len() + 1int] == spec_attr_params(*item).typecode);
    }
    Ok(hdr + w)
}

/// Round trip of the fixed-image attributes: two origin values with one
/// payload octet are the same value, so decoding an encoded origin gives
/// the origin back.
pub proof fn lemma_origin_image_injective(a: BgpOrigin, b: BgpOrigin)
    requires
        origin_code(a.value) == origin_code(b.value),
    ensures
        a == b,
{
}

/// Round trip of the four-octet attributes: two discriminator values with
/// one payload image are the same value, so decoding an encoded MED or
/// local preference gives the value back.
pub proof fn lemma_u32_attr_image_injective(a: u32, b: u32)
    requires
        crate::util::u32_bytes(a) == crate::util::u32_bytes(b),
    ensures
        a == b,
{
    crate::util::lemma_u32_bytes_inj(a, b);
}

/// Reads a run of enveloped attributes from the whole window.
pub fn decode_attr_list(peer: &BgpSessionParams, buf: &[u8]) -> (r: Result<
    Vec<BgpAttrItem>,
    BgpError,
>)
    ensures
        r matches Ok(v) ==> forall|i: int| 0 <= i < v@.len() ==> #[trigger] wf_attr(v@[i]),
    decreases buf@.len(), 0int,
{
    let mut attrs: Vec<BgpAttrItem> = Vec::new();
    let mut curpos: usize = 0;
    while curpos < buf.len()
        invariant
            curpos <= buf@.len(),
            forall|i: int| 0 <= i < attrs@.len() ==> #[trigger] wf_attr(attrs@[i]),
        decreases buf@.len() - curpos,
    {
        if buf.len() - curpos < 3 {
            return Err(BgpError::protocol_error());
        }
        let flags = buf[curpos];
        let tc = buf[curpos + 1];
        let attrlen: usize;
        let hdr: usize;
        if (flags & 16) > 0 {
            if buf.len() - curpos < 4 {
                return Err(BgpError::protocol_error());
            }
            attrlen = getn_u16(slice_subrange(buf, curpos + 2, curpos + 4)) as usize;
            hdr = 4;
        } else {
            attrlen = buf[curpos + 2] as usize;
            hdr = 3;
        }
        if buf.len() - curpos - hdr < attrlen {
            return Err(BgpError::protocol_error());
        }
        let window = slice_subrange(buf, curpos + hdr, curpos + hdr + attrlen);
        match BgpAttrItem::decode_from(peer, tc, flags, attrlen, window) {
            Ok(item) => {
                attrs.push(item);
            },
            Err(e) => {
                return Err(e);
            },
        }
        curpos = curpos + hdr + attrlen;
    }
    Ok(attrs)
}

impl BgpAttrSet {
    /// Reads the payload: the originating AS, then the nested attribute
    /// run, which may itself carry attribute sets; it is only valid on
    /// sessions with four-octet AS numbers.
    pub fn decode_from(peer: &BgpSessionParams, buf: &[u8]) -> (r: Result<BgpAttrSet, BgpError>)
        ensures
            r matches Ok(v) ==> wf_attr_list(v.attrs@),
        decreases buf@.len(), 0int,
    {
        if !peer.has_as32bit {
            return Err(BgpError::static_str("Invalid BgpAttrSet without 32-bit AS support"));
        }
        if buf.len() < 4 {
            return Err(BgpError::static_str("Invalid BgpAttrSet buffer length"));
        }
        let asn = getn_u32(buf);
        let attrs = match decode_attr_list(peer, sub_tail(buf, 4)) {
            Ok(a) => a,
            Err(e) => {
                return Err(e);
            },
        };
        proof {
            lemma_wf_attr_list(attrs@);
        }
        Ok(BgpAttrSet { asn, attrs })
    }

    /// Appends the payload: the originating AS, then the nested attribute
    /// run, which may itself carry attribute sets.
    pub fn encode_to(&self, peer: &BgpSessionParams, buf: &mut Vec<u8>) -> (r: Result<
        usize,
        BgpError,
    >)
        requires
            wf_attr_list(self.attrs@),
        ensures
            r matches Ok(n) ==> grew_by(old(buf)@, final(buf)@, n as int),
        decreases *self,
    {
        proof {
            assert(old(buf)@.subrange(0, old(buf)@.len() as int) =~= old(buf)@);
        }
        push_u32(buf, self.asn);
        proof {
            assert(buf@.subrange(0, old(buf)@.len() as int) =~= old(buf)@);
        }
        let mut pos: usize = 4;
        let mut i: usize = 0;
        while i < self.attrs.len()
            invariant
                i <= self.attrs@.len(),
                wf_attr_list(self.attrs@),
                grew_by(old(buf)@, buf@, pos as int),
            decreases self.attrs@.len() - i,
    {
            let ghost pre = buf@;
            proof {
                assert(decreases_to!(self.attrs@ => self.attrs@[i as int]));
                assert(decreases_to!(*self => self.attrs@[i as int]));
                lemma_wf_attr_list(self.attrs@);
                assert(wf_attr(self.attrs@[i as int]));
            }
            match self.attrs[i].encode_to(peer, buf) {
                Ok(n) => {
                    let blen = buf.len();
                    proof {
                        assert(pos + n <= blen);
                        assert forall|j: int| 0 <= j < old(buf)@.len() implies buf@[j] == old(
                            buf,
                        )@[j] by {
                            assert(buf@.subrange(0, pre.len() as int)[j] == pre[j]);
                            assert(pre.subrange(0, old(buf)@.len() as int)[j] == old(buf)@[j]);
                        }
                        assert(buf@.subrange(0, old(buf)@.len() as int) =~= old(buf)@);
                    }
                    pos = pos + n;
                },
                Err(e) => {
                    return Err(e);
                },
            }
            i = i + 1;
        }
        Ok(pos)
    }
}

} // verus!
