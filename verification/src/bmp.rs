//! BGP Monitoring Protocol processing: framing, the per-peer header, the
//! initiation, termination, peer-up, peer-down and route-monitoring
//! messages, and the per-peer session table that lets route-monitoring
//! messages decode under the parameters their session negotiated.

use crate::afi::{grew_by, rd_bytes, sub_tail, BgpRD};
use crate::error::BgpError;
use crate::message::notification::BgpNotificationMessage;
use crate::message::open::BgpOpenMessage;
use crate::message::update::{wf_update, BgpUpdateMessage};
use crate::message::BgpMessageType;
use crate::util::{
    decode_addrv4_from, decode_addrv6_from, getn_u16, getn_u32, getn_u64, push_u16, push_u32,
    u128_bytes, u16_bytes, u32_bytes, u64_bytes, IpAddr, Ipv4Addr,
};
use crate::BgpSessionParams;
use vstd::prelude::*;
use vstd::slice::slice_subrange;

verus! {

/// An address fills a sixteen-octet slot as the slot's bytes say: twelve
/// zero octets mark a v4-mapped address carried in the last four, anything
/// else is the sixteen octets of an IPv6 address.
pub open spec fn bmp_addr_dec(a: IpAddr, s: Seq<u8>) -> bool {
    &&& (a is V4 <==> (forall|i: int| 0 <= i < 12 ==> s[i] == 0))
    &&& (a matches IpAddr::V4(v) ==> u32_bytes(v.value) == s.subrange(12, 16))
    &&& (a matches IpAddr::V6(v) ==> u128_bytes(v.value) == s.subrange(0, 16))
}

/// Only one address fits a slot's bytes.
pub proof fn lemma_bmp_addr_dec_unique(a: IpAddr, b: IpAddr, s: Seq<u8>)
    requires
        bmp_addr_dec(a, s),
        bmp_addr_dec(b, s),
    ensures
        a == b,
{
    if a is V4 {
        assert(b is V4);
        let av = a->V4_0;
        let bv = b->V4_0;
        assert(u32_bytes(av.value)[0] == u32_bytes(bv.value)[0] && u32_bytes(av.value)[1]
            == u32_bytes(bv.value)[1] && u32_bytes(av.value)[2] == u32_bytes(bv.value)[2]
            && u32_bytes(av.value)[3] == u32_bytes(bv.value)[3]);
        crate::util::lemma_u32_bytes_inj(av.value, bv.value);
    } else {
        assert(!(b is V4));
        crate::util::lemma_u128_bytes_inj(a->V6_0.value, b->V6_0.value);
    }
}

/// Reads a peer address from its sixteen-octet slot: twelve zero octets
/// mark a v4-mapped address.
pub fn decode_bmp_addr_from(buf: &[u8]) -> (r: Result<IpAddr, BgpError>)
    ensures
        buf@.len() >= 16 ==> (r matches Ok(a) && bmp_addr_dec(a, buf@.subrange(0, 16))),
        buf@.len() < 16 ==> r is Err,
{
    if buf.len() < 16 {
        return Err(BgpError::insufficient_buffer_size());
    }
    let mut zeros = true;
    let mut i: usize = 0;
    while i < 12
        invariant
            buf@.len() >= 16,
            i <= 12,
            zeros <==> (forall|j: int| 0 <= j < i ==> buf@[j] == 0),
        decreases 12 - i,
    {
        if buf[i] != 0 {
            zeros = false;
        }
        i = i + 1;
    }
    let ghost s16 = buf@.subrange(0, 16);
    proof {
        assert(forall|j: int| 0 <= j < 16 ==> s16[j] == buf@[j]);
    }
    if zeros {
        match decode_addrv4_from(sub_tail(buf, 12)) {
            Ok(a) => {
                proof {
                    assert(buf@.subrange(12, buf@.len() as int).subrange(0, 4) =~= s16.subrange(
                        12,
                        16,
                    ));
                    assert forall|j: int| 0 <= j < 12 implies s16[j] == 0 by {
                        assert(buf@[j] == 0);
                    }
                }
                Ok(IpAddr::V4(a))
            },
            Err(e) => Err(e),
        }
    } else {
        match decode_addrv6_from(buf) {
            Ok(a) => {
                proof {
                    let j = choose|j: int| 0 <= j < 12 && buf@[j] != 0;
                    assert(s16[j] != 0);
                    assert(buf@.subrange(0, 16) =~= s16.subrange(0, 16));
                }
                Ok(IpAddr::V6(a))
            },
            Err(e) => Err(e),
        }
    }
}

/// The sixteen-octet slot image of a peer address: twelve zero octets and
/// the four address octets for IPv4, the sixteen address octets for IPv6.
pub open spec fn bmp_addr_bytes(a: IpAddr) -> Seq<u8> {
    match a {
        IpAddr::V4(v) => Seq::new(12, |i: int| 0u8) + u32_bytes(v.value),
        IpAddr::V6(v) => u128_bytes(v.value),
    }
}

/// Appends a peer address into its sixteen-octet slot, v4-mapped when it is
/// an IPv4 address: exactly the slot image.
pub fn encode_bmp_addr_to(addr: &IpAddr, buf: &mut Vec<u8>) -> (r: usize)
    ensures
        grew_by(old(buf)@, final(buf)@, 16),
        final(buf)@ == old(buf)@ + bmp_addr_bytes(*addr),
        r == 16,
{
    proof {
        assert(old(buf)@.subrange(0, old(buf)@.len() as int) =~= old(buf)@);
    }
    match addr {
        IpAddr::V4(a) => {
            let mut i: usize = 0;
            while i < 12
                invariant
                    i <= 12,
                    buf@.len() == old(buf)@.len() + i,
                    buf@ == old(buf)@ + Seq::new(i as nat, |k: int| 0u8),
                decreases 12 - i,
            {
                let ghost pre = buf@;
                buf.push(0);
                proof {
                    assert(buf@ =~= old(buf)@ + Seq::new((i + 1) as nat, |k: int| 0u8));
                }
                i = i + 1;
            }
            let _ = crate::util::encode_addrv4_to(a, buf);
            proof {
                assert(final(buf)@ =~= old(buf)@ + bmp_addr_bytes(IpAddr::V4(*a)));
                assert(final(buf)@.subrange(0, old(buf)@.len() as int) =~= old(buf)@);
            }
            16
        },
        IpAddr::V6(a) => {
            let _ = crate::util::encode_addrv6_to(a, buf);
            proof {
                assert(final(buf)@.subrange(0, old(buf)@.len() as int) =~= old(buf)@);
            }
            16
        },
    }
}

/// The per-peer header carried by peer-up, peer-down and route-monitoring
/// messages.
#[derive(Debug, Clone, Copy, PartialEq, Eq, Structural, PartialOrd, Ord, Hash)]
pub struct BmpMessagePeerHeader {
    /// peer type code
    pub peertype: u8,
    /// flags
    pub flags: u8,
    /// route distinguisher of the peer's VRF
    pub peerdistinguisher: BgpRD,
    /// peer address
    pub peeraddress: IpAddr,
    /// peer AS number
    pub asnum: u32,
    /// peer router id
    pub routerid: Ipv4Addr,
    /// timestamp
    pub timestamp: u64,
}

/// A per-peer header holds what its forty-two octets say: the type and
/// flag octets, the route distinguisher, the peer address slot, the AS
/// number, the router id and the timestamp, each in its place.
pub open spec fn peer_hdr_dec(v: BmpMessagePeerHeader, s: Seq<u8>) -> bool {
    &&& s.len() >= 42
    &&& v.peertype == s[0]
    &&& v.flags == s[1]
    &&& rd_bytes(v.peerdistinguisher) == s.subrange(2, 10)
    &&& bmp_addr_dec(v.peeraddress, s.subrange(10, 26))
    &&& u32_bytes(v.asnum) == s.subrange(26, 30)
    &&& u32_bytes(v.routerid.value) == s.subrange(30, 34)
    &&& u64_bytes(v.timestamp) == s.subrange(34, 42)
}

/// Only one per-peer header fits a run of bytes.
pub proof fn lemma_peer_hdr_dec_unique(
    a: BmpMessagePeerHeader,
    b: BmpMessagePeerHeader,
    s: Seq<u8>,
)
    requires
        peer_hdr_dec(a, s),
        peer_hdr_dec(b, s),
    ensures
        a == b,
{
    crate::afi::lemma_rd_bytes_inj(a.peerdistinguisher, b.peerdistinguisher);
    lemma_bmp_addr_dec_unique(a.peeraddress, b.peeraddress, s.subrange(10, 26));
    assert(u32_bytes(a.asnum)[0] == u32_bytes(b.asnum)[0] && u32_bytes(a.asnum)[1] == u32_bytes(
        b.asnum,
    )[1] && u32_bytes(a.asnum)[2] == u32_bytes(b.asnum)[2] && u32_bytes(a.asnum)[3] == u32_bytes(
        b.asnum,
    )[3]);
    crate::util::lemma_u32_bytes_inj(a.asnum, b.asnum);
    assert(u32_bytes(a.routerid.value)[0] == u32_bytes(b.routerid.value)[0] && u32_bytes(
        a.routerid.value,
    )[1] == u32_bytes(b.routerid.value)[1] && u32_bytes(a.routerid.value)[2] == u32_bytes(
        b.routerid.value,
    )[2] && u32_bytes(a.routerid.value)[3] == u32_bytes(b.routerid.value)[3]);
    crate::util::lemma_u32_bytes_inj(a.routerid.value, b.routerid.value);
    crate::util::lemma_u64_bytes_inj(a.timestamp, b.timestamp);
}

/// The forty-two-octet image of a per-peer header.
pub open spec fn peer_hdr_bytes(v: BmpMessagePeerHeader) -> Seq<u8> {
    seq![v.peertype, v.flags] + rd_bytes(v.peerdistinguisher) + bmp_addr_bytes(v.peeraddress)
        + u32_bytes(v.asnum) + u32_bytes(v.routerid.value) + u64_bytes(v.timestamp)
}

impl BmpMessagePeerHeader {
    /// Reads the 42-octet per-peer header: every field comes from its
    /// octets.
    pub fn decode_from(buf: &[u8]) -> (r: Result<(BmpMessagePeerHeader, usize), BgpError>)
        ensures
            buf@.len() >= 42 ==> (r matches Ok((v, n)) && n == 42 && peer_hdr_dec(v, buf@)),
            buf@.len() < 42 ==> (r matches Err(e) && e is InsufficientBufferSize),
    {
        if buf.len() < 42 {
            return Err(BgpError::InsufficientBufferSize);
        }
        let peertype = buf[0];
        let flags = buf[1];
        let (rd, _) = match BgpRD::decode_rd_from(sub_tail(buf, 2)) {
            Ok(p) => p,
            Err(e) => {
                return Err(e);
            },
        };
        let peeraddress = match decode_bmp_addr_from(sub_tail(buf, 10)) {
            Ok(a) => a,
            Err(e) => {
                return Err(e);
            },
        };
        let asnum = getn_u32(slice_subrange(buf, 26, 30));
        let routerid = match decode_addrv4_from(sub_tail(buf, 30)) {
            Ok(a) => a,
            Err(e) => {
                return Err(e);
            },
        };
        let timestamp = getn_u64(slice_subrange(buf, 34, 42));
        proof {
            assert(buf@.subrange(2, buf@.len() as int).subrange(0, 8) =~= buf@.subrange(2, 10));
            assert(buf@.subrange(10, buf@.len() as int).subrange(0, 16) =~= buf@.subrange(10, 26));
            assert(seq![buf@[26], buf@[27], buf@[28], buf@[29]] =~= buf@.subrange(26, 30));
            assert(buf@.subrange(30, buf@.len() as int).subrange(0, 4) =~= buf@.subrange(30, 34));
            assert(buf@.subrange(34, 42).subrange(0, 8) =~= buf@.subrange(34, 42));
        }
        Ok(
            (
                BmpMessagePeerHeader {
                    peertype,
                    flags,
                    peerdistinguisher: rd,
                    peeraddress,
                    asnum,
                    routerid,
                    timestamp,
                },
                42,
            ),
        )
    }

    /// Appends the 42-octet per-peer header: exactly its image.
    pub fn encode_to(&self, buf: &mut Vec<u8>) -> (r: Result<usize, BgpError>)
        ensures
            r matches Ok(n) && n == 42,
            grew_by(old(buf)@, final(buf)@, 42),
            final(buf)@ == old(buf)@ + peer_hdr_bytes(*self),
    {
        proof {
            assert(old(buf)@.subrange(0, old(buf)@.len() as int) =~= old(buf)@);
        }
        buf.push(self.peertype);
        buf.push(self.flags);
        let _ = match self.peerdistinguisher.encode_rd_to(buf) {
            Ok(n) => n,
            Err(e) => {
                return Err(e);
            },
        };
        let ghost mid = buf@;
        let _ = encode_bmp_addr_to(&self.peeraddress, buf);
        push_u32(buf, self.asnum);
        let _ = crate::util::encode_addrv4_to(&self.routerid, buf);
        crate::util::push_u64(buf, self.timestamp);
        proof {
            assert(final(buf)@ =~= old(buf)@ + peer_hdr_bytes(*self));
            assert(final(buf)@.subrange(0, old(buf)@.len() as int) =~= old(buf)@);
        }
        Ok(42)
    }

    /// Session parameters synthesized from the per-peer header alone: no
    /// capabilities, the transport of the peer address, the heuristic off.
    pub fn session_params(&self) -> (r: BgpSessionParams)
        ensures
            r.as_num == self.asnum,
            r.router_id == self.routerid,
            r.caps@.len() == 0,
    {
        let mode = match &self.peeraddress {
            IpAddr::V4(_) => crate::BgpTransportMode::IPv4,
            IpAddr::V6(_) => crate::BgpTransportMode::IPv6,
        };
        BgpSessionParams::new(self.asnum, 0, mode, self.routerid, Vec::new())
    }
}

/// One information value of an initiation message.
#[derive(Debug, Clone, PartialEq, Eq)]
pub struct BmpInfoVal {
    /// information type
    pub infotype: u16,
    /// information bytes
    pub info: Vec<u8>,
}

/// A BMP initiation message: the free string, the system description and
/// the system name, each optional.
#[derive(Debug, Clone, PartialEq, Eq)]
pub struct BmpMessageInitiation {
    /// free-form string
    pub str0: Option<Vec<u8>>,
    /// system description
    pub sys_descr: Option<Vec<u8>>,
    /// system name
    pub sys_name: Option<Vec<u8>>,
}

/// The bytes of an optional information value.
pub open spec fn info_view(o: Option<Vec<u8>>) -> Option<Seq<u8>> {
    match o {
        Option::Some(v) => Some(v@),
        Option::None => None,
    }
}

/// Folds a run of information values over the three fields of an
/// initiation message: each value of a known type replaces its field, the
/// last one of a type winning; a truncated value is a parse failure.
pub open spec fn init_fold(s: Seq<u8>, a: (Option<Seq<u8>>, Option<Seq<u8>>, Option<Seq<u8>>)) -> Option<
    (Option<Seq<u8>>, Option<Seq<u8>>, Option<Seq<u8>>),
>
    decreases s.len(),
{
    if s.len() == 0 {
        Some(a)
    } else if s.len() < 4 {
        None
    } else {
        let tp = (s[0] as int) * 256 + (s[1] as int);
        let ln = (s[2] as int) * 256 + (s[3] as int);
        if s.len() - 4 < ln {
            None
        } else {
            let val = s.subrange(4, 4 + ln);
            let a2 = if tp == 0 {
                (Some(val), a.1, a.2)
            } else if tp == 1 {
                (a.0, Some(val), a.2)
            } else if tp == 2 {
                (a.0, a.1, Some(val))
            } else {
                a
            };
            init_fold(s.subrange(4 + ln, s.len() as int), a2)
        }
    }
}

impl BmpMessageInitiation {
    /// Builds an empty initiation message.
    pub fn new() -> (r: BmpMessageInitiation)
        ensures
            r.str0 is None && r.sys_descr is None && r.sys_name is None,
    {
        BmpMessageInitiation { str0: None, sys_descr: None, sys_name: None }
    }

    /// Reads information values until the buffer is exhausted: the fields
    /// of the result are the fold of the values over an empty message.
    pub fn decode_from(buf: &[u8]) -> (r: Result<(BmpMessageInitiation, usize), BgpError>)
        ensures
            r matches Ok((v, n)) ==> n == buf@.len() && init_fold(buf@, (None, None, None))
                == Some((info_view(v.str0), info_view(v.sys_descr), info_view(v.sys_name))),
            r is Err ==> init_fold(buf@, (None, None, None)) is None,
    {
        let mut ret = BmpMessageInitiation { str0: None, sys_descr: None, sys_name: None };
        let mut pos: usize = 0;
        proof {
            assert(buf@.subrange(0, buf@.len() as int) =~= buf@);
        }
        while pos < buf.len()
            invariant
                pos <= buf@.len(),
                init_fold(buf@, (None, None, None)) == init_fold(
                    buf@.subrange(pos as int, buf@.len() as int),
                    (info_view(ret.str0), info_view(ret.sys_descr), info_view(ret.sys_name)),
                ),
            decreases buf@.len() - pos,
    {
            let ghost suffix = buf@.subrange(pos as int, buf@.len() as int);
            if buf.len() - pos < 4 {
                return Err(BgpError::insufficient_buffer_size());
            }
            let tp = getn_u16(sub_tail(buf, pos));
            let ln16 = getn_u16(sub_tail(buf, pos + 2));
            let ln = ln16 as usize;
            proof {
                assert((((tp >> 8) & 0xff) as u8 as int) * 256 + ((tp & 0xff) as u8 as int)
                    == tp as int) by (bit_vector);
                assert((((ln16 >> 8) & 0xff) as u8 as int) * 256 + ((ln16 & 0xff) as u8 as int)
                    == ln16 as int) by (bit_vector);
                assert(crate::util::u16_bytes(tp)[0] == suffix[0] && crate::util::u16_bytes(tp)[1]
                    == suffix[1]);
                assert(crate::util::u16_bytes(ln16)[0] == suffix[2] && crate::util::u16_bytes(
                    ln16,
                )[1] == suffix[3]);
            }
            if buf.len() - pos - 4 < ln {
                return Err(BgpError::insufficient_buffer_size());
            }
            let val = crate::copy_bytes_range(buf, pos + 4, ln);
            proof {
                assert(val@ =~= suffix.subrange(4, 4 + ln as int));
                assert(suffix.subrange(4 + ln as int, suffix.len() as int) =~= buf@.subrange(
                    pos + 4 + ln,
                    buf@.len() as int,
                ));
            }
            if tp == 0 {
                ret.str0 = Some(val);
            } else if tp == 1 {
                ret.sys_descr = Some(val);
            } else if tp == 2 {
                ret.sys_name = Some(val);
            }
            pos = pos + 4 + ln;
        }
        proof {
            assert(buf@.subrange(pos as int, buf@.len() as int).len() == 0);
        }
        Ok((ret, pos))
    }

    /// Appends the present information values; with none present it
    /// appends nothing.
    pub fn encode_to(&self, buf: &mut Vec<u8>) -> (r: Result<usize, BgpError>)
        ensures
            r matches Ok(n) ==> grew_by(old(buf)@, final(buf)@, n as int),
            self.str0 is None && self.sys_descr is None && self.sys_name is None ==> (
            r matches Ok(n) && n == 0 && final(buf)@ == old(buf)@),
    {
        proof {
            assert(old(buf)@.subrange(0, old(buf)@.len() as int) =~= old(buf)@);
        }
        let mut total: usize = 0;
        let ghost start = old(buf)@;
        if let Some(v) = &self.str0 {
            if v.len() > 65535 {
                return Err(BgpError::too_many_data());
            }
            push_u16(buf, 0);
            push_u16(buf, v.len() as u16);
            crate::append_bytes(buf, v);
            total = 4 + v.len();
        }
        let ghost mid1 = buf@;
        if let Some(v) = &self.sys_descr {
            if v.len() > 65535 {
                return Err(BgpError::too_many_data());
            }
            push_u16(buf, 1);
            push_u16(buf, v.len() as u16);
            crate::append_bytes(buf, v);
            let blen = buf.len();
            proof {
                assert(total + 4 + v@.len() <= blen);
            }
            total = total + 4 + v.len();
        }
        let ghost mid2 = buf@;
        if let Some(v) = &self.sys_name {
            if v.len() > 65535 {
                return Err(BgpError::too_many_data());
            }
            push_u16(buf, 2);
            push_u16(buf, v.len() as u16);
            crate::append_bytes(buf, v);
            let blen = buf.len();
            proof {
                assert(total + 4 + v@.len() <= blen);
            }
            total = total + 4 + v.len();
        }
        proof {
            assert forall|j: int| 0 <= j < start.len() implies final(buf)@[j] == start[j] by {
                assert(final(buf)@.subrange(0, mid2.len() as int)[j] == mid2[j]);
                assert(mid2.subrange(0, mid1.len() as int)[j] == mid1[j]);
                assert(mid1.subrange(0, start.len() as int)[j] == start[j]);
            }
            assert(final(buf)@.subrange(0, old(buf)@.len() as int) =~= old(buf)@);
        }
        Ok(total)
    }
}

/// A BMP termination message: the reason string and the reason code, each
/// optional.
#[derive(Debug, Clone, PartialEq, Eq)]
pub struct BmpMessageTermination {
    /// reason string
    pub str0: Option<Vec<u8>>,
    /// reason code
    pub reason: Option<u16>,
}

impl BmpMessageTermination {
    /// Builds an empty termination message.
    pub fn new() -> (r: BmpMessageTermination)
        ensures
            r.str0 is None && r.reason is None,
    {
        BmpMessageTermination { str0: None, reason: None }
    }

    /// Reads information values while at least four octets remain.
    pub fn decode_from(buf: &[u8]) -> (r: Result<(BmpMessageTermination, usize), BgpError>)
        ensures
            r matches Ok((v, n)) ==> n <= buf@.len(),
    {
        let mut ret = BmpMessageTermination { str0: None, reason: None };
        let mut pos: usize = 0;
        while pos < buf.len() && buf.len() - pos >= 4
            invariant
                pos <= buf@.len(),
            decreases buf@.len() - pos,
        {
            let tp = getn_u16(sub_tail(buf, pos));
            let ln = getn_u16(sub_tail(buf, pos + 2)) as usize;
            pos = pos + 4;
            if buf.len() - pos < ln {
                return Err(BgpError::InsufficientBufferSize);
            }
            if tp == 0 {
                ret.str0 = Some(crate::copy_bytes_range(buf, pos, ln));
            } else if tp == 1 {
                if ln < 2 {
                    return Err(BgpError::InsufficientBufferSize);
                }
                ret.reason = Some(getn_u16(sub_tail(buf, pos)));
            }
            pos = pos + ln;
        }
        Ok((ret, pos))
    }

    /// Appends the present information values.
    pub fn encode_to(&self, buf: &mut Vec<u8>) -> (r: Result<usize, BgpError>)
        ensures
            r matches Ok(n) ==> grew_by(old(buf)@, final(buf)@, n as int),
    {
        proof {
            assert(old(buf)@.subrange(0, old(buf)@.len() as int) =~= old(buf)@);
        }
        let mut total: usize = 0;
        if let Some(v) = &self.str0 {
            if v.len() > 65535 {
                return Err(BgpError::too_many_data());
            }
            push_u16(buf, 0);
            push_u16(buf, v.len() as u16);
            crate::append_bytes(buf, v);
            total = 4 + v.len();
        }
        let ghost mid1 = buf@;
        if let Some(rsn) = &self.reason {
            push_u16(buf, 1);
            push_u16(buf, 2);
            push_u16(buf, *rsn);
            let blen = buf.len();
            proof {
                assert(total + 6 <= blen);
            }
            total = total + 6;
        }
        proof {
            assert forall|j: int| 0 <= j < old(buf)@.len() implies final(buf)@[j] == old(
                buf,
            )@[j] by {
                assert(final(buf)@.subrange(0, mid1.len() as int)[j] == mid1[j]);
                assert(mid1.subrange(0, old(buf)@.len() as int)[j] == old(buf)@[j]);
            }
            assert(final(buf)@.subrange(0, old(buf)@.len() as int) =~= old(buf)@);
        }
        Ok(total)
    }
}

/// A BMP peer-up message: the per-peer header, the transport addresses and
/// ports, and the two OPEN messages of the monitored session.
#[derive(Debug)]
pub struct BmpMessagePeerUp {
    pub peer: BmpMessagePeerHeader,
    pub localaddress: IpAddr,
    pub localport: u16,
    pub remoteport: u16,
    pub msg1: BgpOpenMessage,
    pub msg2: BgpOpenMessage,
}

impl BmpMessagePeerUp {
    /// Reads a peer-up body: the per-peer header, the local address and
    /// ports, each tied to its octets, then two framed OPEN messages.
    pub fn decode_from(buf: &[u8]) -> (r: Result<(BmpMessagePeerUp, usize), BgpError>)
        ensures
            r matches Ok((v, n)) ==> buf@.len() >= 62 && 62 <= n <= buf@.len() && peer_hdr_dec(
                v.peer,
                buf@,
            ) && bmp_addr_dec(v.localaddress, buf@.subrange(42, 58)) && u16_bytes(v.localport)
                == buf@.subrange(58, 60) && u16_bytes(v.remoteport) == buf@.subrange(60, 62),
            buf@.len() < 62 ==> (r matches Err(e) && e is InsufficientBufferSize),
    {
        if buf.len() < 62 {
            return Err(BgpError::InsufficientBufferSize);
        }
        let (peer, _) = match BmpMessagePeerHeader::decode_from(buf) {
            Ok(p) => p,
            Err(e) => {
                return Err(e);
            },
        };
        let localaddress = match decode_bmp_addr_from(sub_tail(buf, 42)) {
            Ok(a) => a,
            Err(e) => {
                return Err(e);
            },
        };
        let localport = getn_u16(slice_subrange(buf, 58, 60));
        let remoteport = getn_u16(slice_subrange(buf, 60, 62));
        proof {
            assert(buf@.subrange(42, buf@.len() as int).subrange(0, 16) =~= buf@.subrange(42, 58));
            assert(seq![buf@[58], buf@[59]] =~= buf@.subrange(58, 60));
            assert(seq![buf@[60], buf@[61]] =~= buf@.subrange(60, 62));
        }
        let sesspars = peer.session_params();
        let mut pos: usize = 62;
        if buf.len() - pos < 19 {
            return Err(BgpError::InsufficientBufferSize);
        }
        let (t1, l1) = match sesspars.decode_message_head(sub_tail(buf, pos)) {
            Ok(p) => p,
            Err(e) => {
                return Err(e);
            },
        };
        if !matches!(t1, BgpMessageType::Open) {
            return Err(BgpError::static_str("Invalid BGP message type for peer-up"));
        }
        pos = pos + 19;
        if buf.len() - pos < l1 {
            return Err(BgpError::InsufficientBufferSize);
        }
        let mut msg1 = BgpOpenMessage::new();
        match msg1.decode_from(&sesspars, slice_subrange(buf, pos, pos + l1)) {
            Ok(_) => {},
            Err(e) => {
                return Err(e);
            },
        }
        pos = pos + l1;
        if buf.len() - pos < 19 {
            return Err(BgpError::InsufficientBufferSize);
        }
        let (t2, l2) = match sesspars.decode_message_head(sub_tail(buf, pos)) {
            Ok(p) => p,
            Err(e) => {
                return Err(e);
            },
        };
        if !matches!(t2, BgpMessageType::Open) {
            return Err(BgpError::static_str("Invalid BGP message type for peer-up"));
        }
        pos = pos + 19;
        if buf.len() - pos < l2 {
            return Err(BgpError::InsufficientBufferSize);
        }
        let mut msg2 = BgpOpenMessage::new();
        match msg2.decode_from(&sesspars, slice_subrange(buf, pos, pos + l2)) {
            Ok(_) => {},
            Err(e) => {
                return Err(e);
            },
        }
        pos = pos + l2;
        Ok((BmpMessagePeerUp { peer, localaddress, localport, remoteport, msg1, msg2 }, pos))
    }

    /// Appends a peer-up body: the per-peer header image, then the local
    /// address slot, the ports and the two framed OPEN messages.
    pub fn encode_to(&self, buf: &mut Vec<u8>) -> (r: Result<usize, BgpError>)
        requires
            crate::message::open::wf_open(self.msg1),
            crate::message::open::wf_open(self.msg2),
        ensures
            r matches Ok(n) ==> grew_by(old(buf)@, final(buf)@, n as int) && n >= 62
                && final(buf)@.subrange(
                old(buf)@.len() as int,
                old(buf)@.len() + 42int,
            ) == peer_hdr_bytes(self.peer) && final(buf)@.subrange(
                old(buf)@.len() + 42int,
                old(buf)@.len() + 58int,
            ) == bmp_addr_bytes(self.localaddress) && final(buf)@.subrange(
                old(buf)@.len() + 58int,
                old(buf)@.len() + 60int,
            ) == u16_bytes(self.localport) && final(buf)@.subrange(
                old(buf)@.len() + 60int,
                old(buf)@.len() + 62int,
            ) == u16_bytes(self.remoteport),
    {
        proof {
            assert(old(buf)@.subrange(0, old(buf)@.len() as int) =~= old(buf)@);
        }
        let _ = match self.peer.encode_to(buf) {
            Ok(n) => n,
            Err(e) => {
                return Err(e);
            },
        };
        let ghost m0 = buf@;
        let _ = encode_bmp_addr_to(&self.localaddress, buf);
        push_u16(buf, self.localport);
        push_u16(buf, self.remoteport);
        let sesspars = self.peer.session_params();
        let mut body1: Vec<u8> = Vec::new();
        let l1 = match self.msg1.encode_to(&sesspars, &mut body1) {
            Ok(n) => n,
            Err(e) => {
                return Err(e);
            },
        };
        let ghost m1 = buf@;
        let h1 = match sesspars.prepare_message_buf(buf, BgpMessageType::Open, l1) {
            Ok(n) => n,
            Err(e) => {
                return Err(e);
            },
        };
        crate::append_bytes(buf, &body1);
        let mut body2: Vec<u8> = Vec::new();
        let l2 = match self.msg2.encode_to(&sesspars, &mut body2) {
            Ok(n) => n,
            Err(e) => {
                return Err(e);
            },
        };
        let ghost m2 = buf@;
        let h2 = match sesspars.prepare_message_buf(buf, BgpMessageType::Open, l2) {
            Ok(n) => n,
            Err(e) => {
                return Err(e);
            },
        };
        crate::append_bytes(buf, &body2);
        let blen = buf.len();
        proof {
            assert(blen == old(buf)@.len() + 42 + 20 + h1 + h2);
            assert forall|j: int| 0 <= j < old(buf)@.len() implies final(buf)@[j] == old(
                buf,
            )@[j] by {
                assert(final(buf)@.subrange(0, m2.len() as int)[j] == m2[j]);
                assert(m2.subrange(0, m1.len() as int)[j] == m1[j]);
                assert(m1.subrange(0, m0.len() as int)[j] == m0[j]);
                assert(m0.subrange(0, old(buf)@.len() as int)[j] == old(buf)@[j]);
            }
            assert(final(buf)@.subrange(0, old(buf)@.len() as int) =~= old(buf)@);
        }
        Ok(42 + 20 + h1 + h2)
    }
}

/// Why a monitored peer went down.
#[derive(Debug)]
pub enum BmpMessagePeerDownReason {
    /// closed locally, with the NOTIFICATION that was sent
    AdministrativelyClosed(BgpNotificationMessage),
    /// closed locally without a NOTIFICATION, with the FSM state code
    LocalSystemState(u16),
    /// closed by the remote side, with the NOTIFICATION it sent
    RemoteNotification(BgpNotificationMessage),
    /// closed by the remote side without a NOTIFICATION
    Remote,
    /// monitoring was disabled for the peer
    BmpDisabled,
}

/// The code octet a peer-down reason is written under.
pub open spec fn peer_down_reason_code(r: BmpMessagePeerDownReason) -> u8 {
    match r {
        BmpMessagePeerDownReason::AdministrativelyClosed(_) => 1,
        BmpMessagePeerDownReason::LocalSystemState(_) => 2,
        BmpMessagePeerDownReason::RemoteNotification(_) => 3,
        BmpMessagePeerDownReason::Remote => 4,
        BmpMessagePeerDownReason::BmpDisabled => 5,
    }
}

/// A BMP peer-down message: the per-peer header and the reason.
#[derive(Debug)]
pub struct BmpMessagePeerDown {
    pub peer: BmpMessagePeerHeader,
    pub reason: BmpMessagePeerDownReason,
}

impl BmpMessagePeerDown {
    /// Reads a peer-down body: the per-peer header, tied to its octets,
    /// then the reason code, which selects the variant of the reason and
    /// the data that follows it.
    pub fn decode_from(buf: &[u8]) -> (r: Result<(BmpMessagePeerDown, usize), BgpError>)
        ensures
            r matches Ok((v, n)) ==> buf@.len() >= 43 && 43 <= n <= buf@.len() && peer_hdr_dec(
                v.peer,
                buf@,
            ) && (buf@[42] == 1 ==> v.reason is AdministrativelyClosed) && (buf@[42] == 2 ==> (
            v.reason matches BmpMessagePeerDownReason::LocalSystemState(st) && u16_bytes(st)
                == buf@.subrange(43, 45) && n == 45)) && (buf@[42] == 3
                ==> v.reason is RemoteNotification) && (buf@[42] == 4 ==> v.reason is Remote && n
                == 43) && (buf@[42] == 5 ==> v.reason is BmpDisabled && n == 43) && (1 <= buf@[42]
                <= 5),
            buf@.len() < 43 ==> (r matches Err(e) && e is InsufficientBufferSize),
    {
        if buf.len() < 43 {
            return Err(BgpError::InsufficientBufferSize);
        }
        let (peer, _) = match BmpMessagePeerHeader::decode_from(buf) {
            Ok(p) => p,
            Err(e) => {
                return Err(e);
            },
        };
        let reason_code = buf[42];
        let mut pos: usize = 43;
        let reason: BmpMessagePeerDownReason = if reason_code == 1 || reason_code == 3 {
            let sesspars = peer.session_params();
            if buf.len() - pos < 19 {
                return Err(BgpError::InsufficientBufferSize);
            }
            let (t, l) = match sesspars.decode_message_head(sub_tail(buf, pos)) {
                Ok(p) => p,
                Err(e) => {
                    return Err(e);
                },
            };
            if !matches!(t, BgpMessageType::Notification) {
                return Err(BgpError::static_str("Invalid BGP message type for peer-down"));
            }
            pos = pos + 19;
            if buf.len() - pos < l {
                return Err(BgpError::InsufficientBufferSize);
            }
            let mut msg = BgpNotificationMessage::new();
            match msg.decode_from(&sesspars, slice_subrange(buf, pos, pos + l)) {
                Ok(_) => {},
                Err(e) => {
                    return Err(e);
                },
            }
            pos = pos + l;
            if reason_code == 1 {
                BmpMessagePeerDownReason::AdministrativelyClosed(msg)
            } else {
                BmpMessagePeerDownReason::RemoteNotification(msg)
            }
        } else if reason_code == 2 {
            if buf.len() - pos < 2 {
                return Err(BgpError::InsufficientBufferSize);
            }
            let state = getn_u16(sub_tail(buf, pos));
            proof {
                assert(seq![buf@[43], buf@[44]] =~= buf@.subrange(43, 45));
                assert(buf@.subrange(43, buf@.len() as int)[0] == buf@[43]);
                assert(buf@.subrange(43, buf@.len() as int)[1] == buf@[44]);
            }
            pos = pos + 2;
            BmpMessagePeerDownReason::LocalSystemState(state)
        } else if reason_code == 4 {
            BmpMessagePeerDownReason::Remote
        } else if reason_code == 5 {
            BmpMessagePeerDownReason::BmpDisabled
        } else {
            return Err(BgpError::static_str("Unknown BMP Peer Down Reason Type"));
        };
        Ok((BmpMessagePeerDown { peer, reason }, pos))
    }

    /// Appends a peer-down body: the per-peer header image, then the
    /// reason code octet and the data its variant carries.
    pub fn encode_to(&self, buf: &mut Vec<u8>) -> (r: Result<usize, BgpError>)
        ensures
            r matches Ok(n) ==> grew_by(old(buf)@, final(buf)@, n as int) && n >= 43
                && final(buf)@.subrange(
                old(buf)@.len() as int,
                old(buf)@.len() + 42int,
            ) == peer_hdr_bytes(self.peer) && final(buf)@[old(buf)@.len() + 42int]
                == peer_down_reason_code(self.reason),
    {
        proof {
            assert(old(buf)@.subrange(0, old(buf)@.len() as int) =~= old(buf)@);
        }
        let _ = match self.peer.encode_to(buf) {
            Ok(n) => n,
            Err(e) => {
                return Err(e);
            },
        };
        let ghost m0 = buf@;
        let w: usize = match &self.reason {
            BmpMessagePeerDownReason::AdministrativelyClosed(msg) => {
                buf.push(1);
                let sesspars = self.peer.session_params();
                let mut body: Vec<u8> = Vec::new();
                let l = match msg.encode_to(&sesspars, &mut body) {
                    Ok(n) => n,
                    Err(e) => {
                        return Err(e);
                    },
                };
                let h = match sesspars.prepare_message_buf(
                    buf,
                    BgpMessageType::Notification,
                    l,
                ) {
                    Ok(n) => n,
                    Err(e) => {
                        return Err(e);
                    },
                };
                crate::append_bytes(buf, &body);
                1 + h
            },
            BmpMessagePeerDownReason::LocalSystemState(state) => {
                buf.push(2);
                push_u16(buf, *state);
                3
            },
            BmpMessagePeerDownReason::RemoteNotification(msg) => {
                buf.push(3);
                let sesspars = self.peer.session_params();
                let mut body: Vec<u8> = Vec::new();
                let l = match msg.encode_to(&sesspars, &mut body) {
                    Ok(n) => n,
                    Err(e) => {
                        return Err(e);
                    },
                };
                let h = match sesspars.prepare_message_buf(
                    buf,
                    BgpMessageType::Notification,
                    l,
                ) {
                    Ok(n) => n,
                    Err(e) => {
                        return Err(e);
                    },
                };
                crate::append_bytes(buf, &body);
                1 + h
            },
            BmpMessagePeerDownReason::Remote => {
                buf.push(4);
                1
            },
            BmpMessagePeerDownReason::BmpDisabled => {
                buf.push(5);
                1
            },
        };
        let blen = buf.len();
        proof {
            assert(blen == old(buf)@.len() + 42 + w);
            assert forall|j: int| 0 <= j < old(buf)@.len() implies final(buf)@[j] == old(
                buf,
            )@[j] by {
                assert(final(buf)@.subrange(0, m0.len() as int)[j] == m0[j]);
                assert(m0.subrange(0, old(buf)@.len() as int)[j] == old(buf)@[j]);
            }
            assert(final(buf)@.subrange(0, old(buf)@.len() as int) =~= old(buf)@);
        }
        Ok(42 + w)
    }
}

/// A BMP route-monitoring message: the per-peer header and the embedded
/// UPDATE.
#[derive(Debug)]
pub struct BmpMessageRouteMonitoring {
    /// per-peer header
    pub peer: BmpMessagePeerHeader,
    /// the carried UPDATE message
    pub update: BgpUpdateMessage,
}

impl BmpMessageRouteMonitoring {
    /// Reads a route-monitoring body under the given session parameters:
    /// the per-peer header comes from the first forty-two octets, and the
    /// embedded UPDATE from the framed message after it.
    pub fn decode_with(peer: &BgpSessionParams, buf: &[u8]) -> (r: Result<
        (BmpMessageRouteMonitoring, usize),
        BgpError,
    >)
        ensures
            r matches Ok((v, n)) ==> wf_update(v.update) && buf@.len() >= 62 && peer_hdr_dec(
                v.peer,
                buf@,
            ),
            buf@.len() < 62 ==> r is Err,
    {
        if buf.len() < 62 {
            return Err(BgpError::InsufficientBufferSize);
        }
        let (pm, _) = match BmpMessagePeerHeader::decode_from(buf) {
            Ok(p) => p,
            Err(e) => {
                return Err(e);
            },
        };
        let mut pos: usize = 42;
        if buf.len() - pos < 19 {
            return Err(BgpError::InsufficientBufferSize);
        }
        let (t, l) = match peer.decode_message_head(sub_tail(buf, pos)) {
            Ok(p) => p,
            Err(e) => {
                return Err(e);
            },
        };
        if !matches!(t, BgpMessageType::Update) {
            return Err(
                BgpError::static_str("Invalid BGP message type for BmpMessageRouteMonitoring"),
            );
        }
        pos = pos + 19;
        if buf.len() - pos < l {
            return Err(BgpError::InsufficientBufferSize);
        }
        let mut upd = BgpUpdateMessage::new();
        match upd.decode_from(peer, slice_subrange(buf, pos, pos + l)) {
            Ok(_) => {},
            Err(e) => {
                return Err(e);
            },
        }
        pos = pos + l;
        Ok((BmpMessageRouteMonitoring { peer: pm, update: upd }, pos))
    }

    /// Reads a route-monitoring body, synthesizing session parameters from
    /// the per-peer header alone.
    pub fn decode_from(buf: &[u8]) -> (r: Result<(BmpMessageRouteMonitoring, usize), BgpError>)
        ensures
            r matches Ok((v, n)) ==> wf_update(v.update),
    {
        if buf.len() < 62 {
            return Err(BgpError::InsufficientBufferSize);
        }
        let (pm, _) = match BmpMessagePeerHeader::decode_from(buf) {
            Ok(p) => p,
            Err(e) => {
                return Err(e);
            },
        };
        let sesspars = pm.session_params();
        Self::decode_with(&sesspars, buf)
    }

    /// Appends a route-monitoring body.
    pub fn encode_to(&self, buf: &mut Vec<u8>) -> (r: Result<usize, BgpError>)
        requires
            wf_update(self.update),
        ensures
            r matches Ok(n) ==> grew_by(old(buf)@, final(buf)@, n as int),
    {
        proof {
            assert(old(buf)@.subrange(0, old(buf)@.len() as int) =~= old(buf)@);
        }
        let _ = match self.peer.encode_to(buf) {
            Ok(n) => n,
            Err(e) => {
                return Err(e);
            },
        };
        let ghost m0 = buf@;
        let sesspars = self.peer.session_params();
        let mut body: Vec<u8> = Vec::new();
        let l = match self.update.encode_to(&sesspars, &mut body) {
            Ok(n) => n,
            Err(e) => {
                return Err(e);
            },
        };
        let h = match sesspars.prepare_message_buf(buf, BgpMessageType::Update, l) {
            Ok(n) => n,
            Err(e) => {
                return Err(e);
            },
        };
        crate::append_bytes(buf, &body);
        let blen = buf.len();
        proof {
            assert(blen == old(buf)@.len() + 42 + h);
            assert forall|j: int| 0 <= j < old(buf)@.len() implies final(buf)@[j] == old(
                buf,
            )@[j] by {
                assert(final(buf)@.subrange(0, m0.len() as int)[j] == m0[j]);
                assert(m0.subrange(0, old(buf)@.len() as int)[j] == old(buf)@[j]);
            }
            assert(final(buf)@.subrange(0, old(buf)@.len() as int) =~= old(buf)@);
        }
        Ok(42 + h)
    }
}

/// A BMP message of any kind.
#[derive(Debug)]
pub enum BmpMessage {
    RouteMonitoring(BmpMessageRouteMonitoring),
    StatisticsReport,
    PeerDownNotification(BmpMessagePeerDown),
    PeerUpNotification(BmpMessagePeerUp),
    Initiation(BmpMessageInitiation),
    Termination(BmpMessageTermination),
    RouteMirroring,
}

/// The BMP frame header: version three and the length of the whole
/// message.
#[derive(Debug, Clone, Copy, PartialEq, Eq, Structural)]
pub struct BmpMessageHeader {
    /// protocol version, always three
    pub version: u8,
    /// total message length in bytes
    pub msglength: usize,
}

impl BmpMessageHeader {
    /// Reads the five-octet frame header; a version other than three is
    /// rejected, and the length comes from the four octets after the
    /// version.
    pub fn decode_from(buf: &[u8]) -> (r: Result<(BmpMessageHeader, usize), BgpError>)
        ensures
            r matches Ok((v, n)) ==> n == 5 && v.version == 3 && buf@.len() >= 5 && buf@[0] == 3
                && v.msglength <= 0xffffffff && u32_bytes(v.msglength as u32) == buf@.subrange(
                1,
                5,
            ),
            buf@.len() >= 5 && buf@[0] == 3 ==> r is Ok,
            buf@.len() < 5 ==> r is Err,
            buf@.len() >= 5 && buf@[0] != 3 ==> r is Err,
    {
        if buf.len() < 5 {
            return Err(BgpError::insufficient_buffer_size());
        }
        if buf[0] != 3 {
            return Err(BgpError::static_str("BMP packet version != 3"));
        }
        let l = getn_u32(slice_subrange(buf, 1, 5));
        proof {
            assert(seq![buf@[1], buf@[2], buf@[3], buf@[4]] =~= buf@.subrange(1, 5));
            assert((l as usize) as u32 == l);
        }
        proof {
            crate::util::lemma_u32_of_bytes(
                ((l >> 24) & 0xff) as u8,
                ((l >> 16) & 0xff) as u8,
                ((l >> 8) & 0xff) as u8,
                (l & 0xff) as u8,
            );
        }
        Ok((BmpMessageHeader { version: 3, msglength: l as usize }, 5))
    }
}

impl BmpMessage {
    /// Reads one BMP message body, the type octet first, without session
    /// state: a route-monitoring message decodes under parameters
    /// synthesized from its per-peer header. The type octet picks the
    /// variant.
    pub fn decode_from(buf: &[u8]) -> (r: Result<BmpMessage, BgpError>)
        ensures
            r matches Ok(m) ==> buf@.len() >= 1 && buf@[0] <= 6 && (buf@[0] == 0
                ==> m is RouteMonitoring) && (buf@[0] == 1 ==> m is StatisticsReport) && (buf@[0]
                == 2 ==> m is PeerDownNotification) && (buf@[0] == 3 ==> m is PeerUpNotification)
                && (buf@[0] == 4 ==> m is Initiation) && (buf@[0] == 5 ==> m is Termination) && (
            buf@[0] == 6 ==> m is RouteMirroring),
            buf@.len() >= 1 && buf@[0] > 6 ==> r is Err,
            buf@.len() < 1 ==> r is Err,
    {
        if buf.len() < 1 {
            return Err(BgpError::insufficient_buffer_size());
        }
        let msgtype = buf[0];
        let body = sub_tail(buf, 1);
        if msgtype == 0 {
            match BmpMessageRouteMonitoring::decode_from(body) {
                Ok((v, _)) => Ok(BmpMessage::RouteMonitoring(v)),
                Err(e) => Err(e),
            }
        } else if msgtype == 1 {
            Ok(BmpMessage::StatisticsReport)
        } else if msgtype == 2 {
            match BmpMessagePeerDown::decode_from(body) {
                Ok((v, _)) => Ok(BmpMessage::PeerDownNotification(v)),
                Err(e) => Err(e),
            }
        } else if msgtype == 3 {
            match BmpMessagePeerUp::decode_from(body) {
                Ok((v, _)) => Ok(BmpMessage::PeerUpNotification(v)),
                Err(e) => Err(e),
            }
        } else if msgtype == 4 {
            match BmpMessageInitiation::decode_from(body) {
                Ok((v, _)) => Ok(BmpMessage::Initiation(v)),
                Err(e) => Err(e),
            }
        } else if msgtype == 5 {
            match BmpMessageTermination::decode_from(body) {
                Ok((v, _)) => Ok(BmpMessage::Termination(v)),
                Err(e) => Err(e),
            }
        } else if msgtype == 6 {
            Ok(BmpMessage::RouteMirroring)
        } else {
            Err(BgpError::static_str("Invalid BMP message type"))
        }
    }
}

/// The key of a monitored session: the peer's route distinguisher and
/// address.
#[derive(Debug, Clone, Copy, PartialEq, Eq, Structural, PartialOrd, Ord, Hash)]
pub struct BgpSessionKey {
    pub peer_rd: BgpRD,
    pub peer_ip: IpAddr,
}

impl BgpSessionKey {
    /// Builds a session key.
    pub fn new(peer_rd: BgpRD, peer_ip: IpAddr) -> (r: BgpSessionKey)
        ensures
            r.peer_rd == peer_rd,
            r.peer_ip == peer_ip,
    {
        BgpSessionKey { peer_rd, peer_ip }
    }

    /// The key of a per-peer header.
    pub fn from_peer(peer: &BmpMessagePeerHeader) -> (r: BgpSessionKey)
        ensures
            r.peer_rd == peer.peerdistinguisher,
            r.peer_ip == peer.peeraddress,
            r == session_key_of(*peer),
    {
        BgpSessionKey { peer_rd: peer.peerdistinguisher, peer_ip: peer.peeraddress }
    }
}

/// The session key a per-peer header selects: the peer's route
/// distinguisher and address.
pub open spec fn session_key_of(peer: BmpMessagePeerHeader) -> BgpSessionKey {
    BgpSessionKey { peer_rd: peer.peerdistinguisher, peer_ip: peer.peeraddress }
}

/// A stateful BMP collector session: it keeps the peer-up record of every
/// monitored peer, keyed by route distinguisher and peer address, so that
/// route-monitoring messages decode under the parameters negotiated in the
/// OPEN whose router id matches the peer header. Peers enter the table on
/// peer-up and leave it on peer-down; no two entries share a key.
pub struct BMPSession {
    pub sessions: Vec<(BgpSessionKey, BmpMessagePeerUp)>,
}

/// No two entries of the session table share a key.
pub open spec fn wf_sessions(s: Seq<(BgpSessionKey, BmpMessagePeerUp)>) -> bool {
    forall|i: int, j: int| 0 <= i < j < s.len() ==> s[i].0 != s[j].0
}

impl BMPSession {
    /// Builds an empty collector session.
    pub fn new() -> (r: BMPSession)
        ensures
            r.sessions@.len() == 0,
            wf_sessions(r.sessions@),
    {
        BMPSession { sessions: Vec::new() }
    }

    /// The index of the entry for a key, if one is present.
    fn find(&self, key: &BgpSessionKey) -> (r: Option<usize>)
        ensures
            r matches Some(i) ==> i < self.sessions@.len() && self.sessions@[i as int].0 == *key,
            r is None ==> forall|i: int|
                0 <= i < self.sessions@.len() ==> self.sessions@[i].0 != *key,
    {
        let mut i: usize = 0;
        while i < self.sessions.len()
            invariant
                i <= self.sessions@.len(),
                forall|k: int| 0 <= k < i ==> self.sessions@[k].0 != *key,
            decreases self.sessions@.len() - i,
        {
            if self.sessions[i].0 == *key {
                return Some(i);
            }
            i = i + 1;
        }
        None
    }

    /// Removes the entry for a key, if one is present.
    fn remove_key(&mut self, key: &BgpSessionKey)
        requires
            wf_sessions(old(self).sessions@),
        ensures
            wf_sessions(final(self).sessions@),
            forall|i: int|
                0 <= i < final(self).sessions@.len() ==> final(self).sessions@[i].0 != *key,
    {
        let mut out: Vec<(BgpSessionKey, BmpMessagePeerUp)> = Vec::new();
        let ghost orig = self.sessions@;
        loop
            invariant
                wf_sessions(out@),
                forall|i: int| 0 <= i < out@.len() ==> out@[i].0 != *key,
                forall|i: int, j: int|
                    0 <= i < out@.len() && 0 <= j < self.sessions@.len() ==> out@[i].0
                        != self.sessions@[j].0,
                wf_sessions(self.sessions@),
            decreases self.sessions@.len(),
        {
            if self.sessions.len() == 0 {
                break ;
            }
            let ghost pre = self.sessions@;
            let entry = self.sessions.remove(0);
            proof {
                assert(forall|j: int|
                    0 <= j < self.sessions@.len() ==> self.sessions@[j] == pre[j + 1]);
            }
            if !(entry.0 == *key) {
                out.push(entry);
            }
        }
        self.sessions = out;
    }

    /// Reads one BMP message body, the type octet first, and maintains the
    /// session table: a peer-up inserts its record under the key of its
    /// per-peer header, a peer-down removes that key, any other message
    /// leaves the table as it was, and a route-monitoring message decodes
    /// under the recorded OPEN whose router id matches the peer header, or
    /// under parameters synthesized from the header alone when the peer is
    /// unknown. The type octet picks the variant.
    pub fn decode_from(&mut self, buf: &[u8]) -> (r: Result<BmpMessage, BgpError>)
        requires
            wf_sessions(old(self).sessions@),
        ensures
            wf_sessions(final(self).sessions@),
            r matches Ok(m) ==> buf@.len() >= 1 && buf@[0] <= 6 && (buf@[0] == 0
                ==> m is RouteMonitoring) && (buf@[0] == 1 ==> m is StatisticsReport) && (buf@[0]
                == 2 ==> m is PeerDownNotification) && (buf@[0] == 3 ==> m is PeerUpNotification)
                && (buf@[0] == 4 ==> m is Initiation) && (buf@[0] == 5 ==> m is Termination) && (
            buf@[0] == 6 ==> m is RouteMirroring),
            buf@.len() >= 1 && buf@[0] > 6 ==> r is Err,
            buf@.len() < 1 ==> r is Err,
            r matches Ok(m) ==> (m matches BmpMessage::PeerUpNotification(p) ==> exists|i: int|
                0 <= i < final(self).sessions@.len() && final(self).sessions@[i].0
                    == session_key_of(p.peer)),
            r matches Ok(m) ==> (m matches BmpMessage::PeerDownNotification(p) ==> forall|i: int|
                0 <= i < final(self).sessions@.len() ==> final(self).sessions@[i].0
                    != session_key_of(p.peer)),
            r matches Ok(m) ==> (!(m is PeerUpNotification) && !(m is PeerDownNotification)
                ==> final(self).sessions@ == old(self).sessions@),
            r is Err ==> final(self).sessions@ == old(self).sessions@,
    {
        if buf.len() < 1 {
            return Err(BgpError::insufficient_buffer_size());
        }
        let msgtype = buf[0];
        let body = sub_tail(buf, 1);
        if msgtype == 0 {
            match self.decode_rm(body) {
                Ok(rm) => Ok(BmpMessage::RouteMonitoring(rm)),
                Err(e) => Err(e),
            }
        } else if msgtype == 1 {
            Ok(BmpMessage::StatisticsReport)
        } else if msgtype == 2 {
            let (peerdown, _) = match BmpMessagePeerDown::decode_from(body) {
                Ok(p) => p,
                Err(e) => {
                    return Err(e);
                },
            };
            let key = BgpSessionKey::from_peer(&peerdown.peer);
            self.remove_key(&key);
            Ok(BmpMessage::PeerDownNotification(peerdown))
        } else if msgtype == 3 {
            let (peerup, _) = match BmpMessagePeerUp::decode_from(body) {
                Ok(p) => p,
                Err(e) => {
                    return Err(e);
                },
            };
            let (stored, _) = match BmpMessagePeerUp::decode_from(body) {
                Ok(p) => p,
                Err(e) => {
                    return Err(e);
                },
            };
            let skey = BgpSessionKey::from_peer(&stored.peer);
            proof {
                lemma_peer_hdr_dec_unique(peerup.peer, stored.peer, body@);
            }
            self.remove_key(&skey);
            let ghost pre = self.sessions@;
            self.sessions.push((skey, stored));
            proof {
                assert forall|a: int, b: int|
                    0 <= a < b < self.sessions@.len() implies self.sessions@[a].0
                    != self.sessions@[b].0 by {
                    assert(self.sessions@[a] == pre[a]);
                    if b + 1 == self.sessions@.len() {
                        assert(pre[a].0 != skey);
                    } else {
                        assert(self.sessions@[b] == pre[b]);
                    }
                }
                assert(self.sessions@[self.sessions@.len() - 1].0 == session_key_of(peerup.peer));
            }
            Ok(BmpMessage::PeerUpNotification(peerup))
        } else if msgtype == 4 {
            match BmpMessageInitiation::decode_from(body) {
                Ok((v, _)) => Ok(BmpMessage::Initiation(v)),
                Err(e) => Err(e),
            }
        } else if msgtype == 5 {
            match BmpMessageTermination::decode_from(body) {
                Ok((v, _)) => Ok(BmpMessage::Termination(v)),
                Err(e) => Err(e),
            }
        } else if msgtype == 6 {
            Ok(BmpMessage::RouteMirroring)
        } else {
            Err(BgpError::static_str("Invalid BMP message type"))
        }
    }

    /// Decodes a route-monitoring body under the recorded session of its
    /// peer, when one is known: under the OPEN of the stored peer-up
    /// record whose router id matches the peer header, else under
    /// parameters synthesized from the header alone.
    fn decode_rm(&self, buf: &[u8]) -> (r: Result<BmpMessageRouteMonitoring, BgpError>)
        ensures
            r matches Ok(rm) ==> crate::message::update::wf_update(rm.update) && buf@.len() >= 62
                && peer_hdr_dec(rm.peer, buf@),
            buf@.len() < 62 ==> r is Err,
    {
        if buf.len() < 62 {
            return Err(BgpError::InsufficientBufferSize);
        }
        let (pm, _) = match BmpMessagePeerHeader::decode_from(buf) {
            Ok(p) => p,
            Err(e) => {
                return Err(e);
            },
        };
        let key = BgpSessionKey::from_peer(&pm);
        let sesspars: BgpSessionParams = match self.find(&key) {
            None => pm.session_params(),
            Some(i) => {
                let entry = &self.sessions[i];
                if entry.1.peer.routerid == entry.1.msg1.router_id {
                    BgpSessionParams::from_open(&entry.1.msg1)
                } else {
                    BgpSessionParams::from_open(&entry.1.msg2)
                }
            },
        };
        match BmpMessageRouteMonitoring::decode_with(&sesspars, buf) {
            Ok((rm, _)) => Ok(rm),
            Err(e) => Err(e),
        }
    }
}

} // verus!
