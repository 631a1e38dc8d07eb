//! NLRI data structures for multicast VPN route types 1 to 7.

use crate::afi::{sub_tail, BgpAddrItem, BgpRD};
use crate::error::BgpError;
use crate::util::{
    decode_addrv4_from, decode_addrv6_from, encode_addr_to, getn_u32, push_u32, IpAddr,
};
use crate::BgpTransportMode;
use vstd::prelude::*;
use vstd::slice::slice_subrange;

verus! {

/// MVPN type 1, the intra-AS I-PMSI auto-discovery route.
#[derive(Debug, Clone, Copy, PartialEq, Eq, Structural, PartialOrd, Ord, Hash)]
pub struct BgpMVPN1 {
    pub rd: BgpRD,
    pub originator: IpAddr,
}

/// MVPN type 2, the inter-AS I-PMSI auto-discovery route.
#[derive(Debug, Clone, Copy, PartialEq, Eq, Structural, PartialOrd, Ord, Hash)]
pub struct BgpMVPN2 {
    pub rd: BgpRD,
    pub asn: u32,
}

/// MVPN type 3, the S-PMSI auto-discovery route.
#[derive(Debug, Clone, Copy, PartialEq, Eq, Structural, PartialOrd, Ord, Hash)]
pub struct BgpMVPN3 {
    pub rd: BgpRD,
    pub source: IpAddr,
    pub group: IpAddr,
    pub originator: IpAddr,
}

/// MVPN type 4, the leaf auto-discovery route: an embedded S-PMSI route and
/// the originator.
#[derive(Debug, Clone, Copy, PartialEq, Eq, Structural, PartialOrd, Ord, Hash)]
pub struct BgpMVPN4 {
    pub spmsi: BgpMVPN3,
    pub originator: IpAddr,
}

/// MVPN type 5, the source-active auto-discovery route.
#[derive(Debug, Clone, Copy, PartialEq, Eq, Structural, PartialOrd, Ord, Hash)]
pub struct BgpMVPN5 {
    pub rd: BgpRD,
    pub source: IpAddr,
    pub group: IpAddr,
}

/// MVPN types 6 and 7, the shared and source tree join routes.
#[derive(Debug, Clone, Copy, PartialEq, Eq, Structural, PartialOrd, Ord, Hash)]
pub struct BgpMVPN67 {
    pub rd: BgpRD,
    pub asn: u32,
    pub rp: IpAddr,
    pub group: IpAddr,
}

impl BgpAddrItem for BgpMVPN1 {
    open spec fn wf(&self) -> bool {
        true
    }

    fn decode_from(mode: BgpTransportMode, buf: &[u8]) -> (r: Result<(BgpMVPN1, usize), BgpError>)
    {
        let (rd, _) = match BgpRD::decode_rd_from(buf) {
            Ok(p) => p,
            Err(e) => {
                return Err(e);
            },
        };
        if mode == BgpTransportMode::IPv4 && buf.len() >= 12 {
            let a = match decode_addrv4_from(sub_tail(buf, 8)) {
                Ok(a) => a,
                Err(e) => {
                    return Err(e);
                },
            };
            return Ok((BgpMVPN1 { rd, originator: IpAddr::V4(a) }, 12));
        }
        if mode == BgpTransportMode::IPv6 && buf.len() >= 24 {
            let a = match decode_addrv6_from(sub_tail(buf, 8)) {
                Ok(a) => a,
                Err(e) => {
                    return Err(e);
                },
            };
            return Ok((BgpMVPN1 { rd, originator: IpAddr::V6(a) }, 24));
        }
        Err(BgpError::static_str("Invalid BgpMVPN1 buffer len"))
    }

    fn encode_to(&self, mode: BgpTransportMode, buf: &mut Vec<u8>) -> (r: Result<usize, BgpError>)
    {
        let p1 = match self.rd.encode_rd_to(buf) {
            Ok(n) => n,
            Err(e) => {
                return Err(e);
            },
        };
        let p2 = encode_addr_to(&self.originator, buf);
        proof {
            assert(final(buf)@.subrange(0, old(buf)@.len() as int) =~= old(buf)@);
        }
        Ok(p1 + p2)
    }
}

impl BgpAddrItem for BgpMVPN2 {
    open spec fn wf(&self) -> bool {
        true
    }

    fn decode_from(mode: BgpTransportMode, buf: &[u8]) -> (r: Result<(BgpMVPN2, usize), BgpError>)
    {
        if buf.len() < 12 {
            return Err(BgpError::static_str("Invalid BgpMVPN2 buffer len"));
        }
        let (rd, _) = match BgpRD::decode_rd_from(buf) {
            Ok(p) => p,
            Err(e) => {
                return Err(e);
            },
        };
        let asn = getn_u32(slice_subrange(buf, 8, 12));
        Ok((BgpMVPN2 { rd, asn }, 12))
    }

    fn encode_to(&self, mode: BgpTransportMode, buf: &mut Vec<u8>) -> (r: Result<usize, BgpError>)
    {
        let p1 = match self.rd.encode_rd_to(buf) {
            Ok(n) => n,
            Err(e) => {
                return Err(e);
            },
        };
        push_u32(buf, self.asn);
        proof {
            assert(final(buf)@.subrange(0, old(buf)@.len() as int) =~= old(buf)@);
        }
        Ok(p1 + 4)
    }
}

impl BgpAddrItem for BgpMVPN3 {
    open spec fn wf(&self) -> bool {
        true
    }

    fn decode_from(mode: BgpTransportMode, buf: &[u8]) -> (r: Result<(BgpMVPN3, usize), BgpError>)
    {
        let (rd, _) = match BgpRD::decode_rd_from(buf) {
            Ok(p) => p,
            Err(e) => {
                return Err(e);
            },
        };
        if mode == BgpTransportMode::IPv4 && buf.len() >= 22 {
            if buf[8] != 32 || buf[13] != 32 {
                return Err(BgpError::static_str("Invalid BgpMVPN3 v4 prefix len"));
            }
            let source = match decode_addrv4_from(sub_tail(buf, 9)) {
                Ok(a) => IpAddr::V4(a),
                Err(e) => {
                    return Err(e);
                },
            };
            let group = match decode_addrv4_from(sub_tail(buf, 14)) {
                Ok(a) => IpAddr::V4(a),
                Err(e) => {
                    return Err(e);
                },
            };
            let originator = match decode_addrv4_from(sub_tail(buf, 18)) {
                Ok(a) => IpAddr::V4(a),
                Err(e) => {
                    return Err(e);
                },
            };
            return Ok((BgpMVPN3 { rd, source, group, originator }, 22));
        }
        if mode == BgpTransportMode::IPv6 && buf.len() >= 58 {
            if buf[8] != 128 || buf[25] != 128 {
                return Err(BgpError::static_str("Invalid BgpMVPN3 v6 prefix len"));
            }
            let source = match decode_addrv6_from(sub_tail(buf, 9)) {
                Ok(a) => IpAddr::V6(a),
                Err(e) => {
                    return Err(e);
                },
            };
            let group = match decode_addrv6_from(sub_tail(buf, 26)) {
                Ok(a) => IpAddr::V6(a),
                Err(e) => {
                    return Err(e);
                },
            };
            let originator = match decode_addrv6_from(sub_tail(buf, 42)) {
                Ok(a) => IpAddr::V6(a),
                Err(e) => {
                    return Err(e);
                },
            };
            return Ok((BgpMVPN3 { rd, source, group, originator }, 58));
        }
        Err(BgpError::static_str("Invalid BgpMVPN3 buffer len"))
    }

    fn encode_to(&self, mode: BgpTransportMode, buf: &mut Vec<u8>) -> (r: Result<usize, BgpError>)
    {
        let p1 = match self.rd.encode_rd_to(buf) {
            Ok(n) => n,
            Err(e) => {
                return Err(e);
            },
        };
        let mut n: usize = p1;
        match &self.source {
            IpAddr::V4(_) => buf.push(32),
            IpAddr::V6(_) => buf.push(128),
        }
        n = n + 1 + encode_addr_to(&self.source, buf);
        match &self.group {
            IpAddr::V4(_) => buf.push(32),
            IpAddr::V6(_) => buf.push(128),
        }
        n = n + 1 + encode_addr_to(&self.group, buf);
        n = n + encode_addr_to(&self.originator, buf);
        proof {
            assert(final(buf)@.subrange(0, old(buf)@.len() as int) =~= old(buf)@);
        }
        Ok(n)
    }
}

impl BgpAddrItem for BgpMVPN4 {
    open spec fn wf(&self) -> bool {
        true
    }

    fn decode_from(mode: BgpTransportMode, buf: &[u8]) -> (r: Result<(BgpMVPN4, usize), BgpError>)
    {
        if buf.len() < 2 {
            return Err(BgpError::insufficient_buffer_size());
        }
        if buf[0] != 3 || buf[1] != 22 {
            return Err(BgpError::static_str("Invalid embedded S-PMSI route"));
        }
        let (spmsi, sn) = match BgpMVPN3::decode_from(mode, sub_tail(buf, 2)) {
            Ok(p) => p,
            Err(e) => {
                return Err(e);
            },
        };
        if buf.len() - 2 - sn < 4 {
            return Err(BgpError::insufficient_buffer_size());
        }
        let originator = match decode_addrv4_from(sub_tail(buf, 2 + sn)) {
            Ok(a) => IpAddr::V4(a),
            Err(e) => {
                return Err(e);
            },
        };
        Ok((BgpMVPN4 { spmsi, originator }, 2 + sn + 4))
    }

    fn encode_to(&self, mode: BgpTransportMode, buf: &mut Vec<u8>) -> (r: Result<usize, BgpError>)
    {
        buf.push(3);
        buf.push(22);
        let ghost mid = buf@;
        let p1 = match self.spmsi.encode_to(mode, buf) {
            Ok(n) => n,
            Err(e) => {
                return Err(e);
            },
        };
        let ghost mid2 = buf@;
        let p2 = encode_addr_to(&self.originator, buf);
        let blen = buf.len();
        proof {
            assert(blen == old(buf)@.len() + 2 + p1 + p2);
            assert forall|j: int| 0 <= j < old(buf)@.len() implies final(buf)@[j] == old(
                buf,
            )@[j] by {
                assert(final(buf)@.subrange(0, mid2.len() as int)[j] == mid2[j]);
                assert(mid2.subrange(0, mid.len() as int)[j] == mid[j]);
            }
            assert(final(buf)@.subrange(0, old(buf)@.len() as int) =~= old(buf)@);
        }
        Ok(2 + p1 + p2)
    }
}

impl BgpAddrItem for BgpMVPN5 {
    open spec fn wf(&self) -> bool {
        true
    }

    fn decode_from(mode: BgpTransportMode, buf: &[u8]) -> (r: Result<(BgpMVPN5, usize), BgpError>)
    {
        let (rd, _) = match BgpRD::decode_rd_from(buf) {
            Ok(p) => p,
            Err(e) => {
                return Err(e);
            },
        };
        if mode == BgpTransportMode::IPv4 && buf.len() >= 18 {
            if buf[8] != 32 || buf[13] != 32 {
                return Err(BgpError::static_str("Invalid BgpMVPN5 v4 prefix len"));
            }
            let source = match decode_addrv4_from(sub_tail(buf, 9)) {
                Ok(a) => IpAddr::V4(a),
                Err(e) => {
                    return Err(e);
                },
            };
            let group = match decode_addrv4_from(sub_tail(buf, 14)) {
                Ok(a) => IpAddr::V4(a),
                Err(e) => {
                    return Err(e);
                },
            };
            return Ok((BgpMVPN5 { rd, source, group }, 18));
        }
        if mode == BgpTransportMode::IPv6 && buf.len() >= 42 {
            if buf[8] != 128 || buf[25] != 128 {
                return Err(BgpError::static_str("Invalid BgpMVPN5 v6 prefix len"));
            }
            let source = match decode_addrv6_from(sub_tail(buf, 9)) {
                Ok(a) => IpAddr::V6(a),
                Err(e) => {
                    return Err(e);
                },
            };
            let group = match decode_addrv6_from(sub_tail(buf, 26)) {
                Ok(a) => IpAddr::V6(a),
                Err(e) => {
                    return Err(e);
                },
            };
            return Ok((BgpMVPN5 { rd, source, group }, 42));
        }
        Err(BgpError::static_str("Invalid BgpMVPN5 buffer len"))
    }

    fn encode_to(&self, mode: BgpTransportMode, buf: &mut Vec<u8>) -> (r: Result<usize, BgpError>)
    {
        let p1 = match self.rd.encode_rd_to(buf) {
            Ok(n) => n,
            Err(e) => {
                return Err(e);
            },
        };
        let mut n: usize = p1;
        match &self.source {
            IpAddr::V4(_) => buf.push(32),
            IpAddr::V6(_) => buf.push(128),
        }
        n = n + 1 + encode_addr_to(&self.source, buf);
        match &self.group {
            IpAddr::V4(_) => buf.push(32),
            IpAddr::V6(_) => buf.push(128),
        }
        n = n + 1 + encode_addr_to(&self.group, buf);
        proof {
            assert(final(buf)@.subrange(0, old(buf)@.len() as int) =~= old(buf)@);
        }
        Ok(n)
    }
}

impl BgpAddrItem for BgpMVPN67 {
    open spec fn wf(&self) -> bool {
        true
    }

    fn decode_from(mode: BgpTransportMode, buf: &[u8]) -> (r: Result<(BgpMVPN67, usize), BgpError>)
    {
        let (rd, _) = match BgpRD::decode_rd_from(buf) {
            Ok(p) => p,
            Err(e) => {
                return Err(e);
            },
        };
        if buf.len() < 12 {
            return Err(BgpError::static_str("Invalid BgpMVPN67 buffer len"));
        }
        let asn = getn_u32(slice_subrange(buf, 8, 12));
        if mode == BgpTransportMode::IPv4 && buf.len() >= 22 {
            if buf[12] != 32 || buf[17] != 32 {
                return Err(BgpError::static_str("Invalid BgpMVPN67 v4 prefix len"));
            }
            let rp = match decode_addrv4_from(sub_tail(buf, 13)) {
                Ok(a) => IpAddr::V4(a),
                Err(e) => {
                    return Err(e);
                },
            };
            let group = match decode_addrv4_from(sub_tail(buf, 18)) {
                Ok(a) => IpAddr::V4(a),
                Err(e) => {
                    return Err(e);
                },
            };
            return Ok((BgpMVPN67 { rd, asn, rp, group }, 22));
        }
        if mode == BgpTransportMode::IPv6 && buf.len() >= 46 {
            if buf[12] != 128 || buf[29] != 128 {
                return Err(BgpError::static_str("Invalid BgpMVPN67 v6 prefix len"));
            }
            let rp = match decode_addrv6_from(sub_tail(buf, 13)) {
                Ok(a) => IpAddr::V6(a),
                Err(e) => {
                    return Err(e);
                },
            };
            let group = match decode_addrv6_from(sub_tail(buf, 30)) {
                Ok(a) => IpAddr::V6(a),
                Err(e) => {
                    return Err(e);
                },
            };
            return Ok((BgpMVPN67 { rd, asn, rp, group }, 46));
        }
        Err(BgpError::static_str("Invalid BgpMVPN67 buffer len"))
    }

    fn encode_to(&self, mode: BgpTransportMode, buf: &mut Vec<u8>) -> (r: Result<usize, BgpError>)
    {
        let p1 = match self.rd.encode_rd_to(buf) {
            Ok(n) => n,
            Err(e) => {
                return Err(e);
            },
        };
        push_u32(buf, self.asn);
        let mut n: usize = p1 + 4;
        match &self.rp {
            IpAddr::V4(_) => buf.push(32),
            IpAddr::V6(_) => buf.push(128),
        }
        n = n + 1 + encode_addr_to(&self.rp, buf);
        match &self.group {
            IpAddr::V4(_) => buf.push(32),
            IpAddr::V6(_) => buf.push(128),
        }
        n = n + 1 + encode_addr_to(&self.group, buf);
        proof {
            assert(final(buf)@.subrange(0, old(buf)@.len() as int) =~= old(buf)@);
        }
        Ok(n)
    }
}

/// A multicast VPN route, discriminated by its type octet.
#[derive(Debug, Clone, Copy, PartialEq, Eq, Structural, PartialOrd, Ord, Hash)]
pub enum BgpMVPN {
    T1(BgpMVPN1),
    T2(BgpMVPN2),
    T3(BgpMVPN3),
    T4(BgpMVPN4),
    T5(BgpMVPN5),
    T6(BgpMVPN67),
    T7(BgpMVPN67),
}

impl BgpAddrItem for BgpMVPN {
    open spec fn wf(&self) -> bool {
        true
    }

    fn decode_from(mode: BgpTransportMode, buf: &[u8]) -> (r: Result<(BgpMVPN, usize), BgpError>) {
        if buf.len() < 2 {
            return Err(BgpError::insufficient_buffer_size());
        }
        let mvpntype = buf[0];
        let routelen = buf[1] as usize;
        if buf.len() - 2 < routelen {
            return Err(BgpError::insufficient_buffer_size());
        }
        let window = slice_subrange(buf, 2, 2 + routelen);
        match mvpntype {
            1 => match BgpMVPN1::decode_from(mode, window) {
                Ok((v, n)) => Ok((BgpMVPN::T1(v), n + 2)),
                Err(e) => Err(e),
            },
            2 => match BgpMVPN2::decode_from(mode, window) {
                Ok((v, n)) => Ok((BgpMVPN::T2(v), n + 2)),
                Err(e) => Err(e),
            },
            3 => match BgpMVPN3::decode_from(mode, window) {
                Ok((v, n)) => Ok((BgpMVPN::T3(v), n + 2)),
                Err(e) => Err(e),
            },
            4 => match BgpMVPN4::decode_from(mode, window) {
                Ok((v, n)) => Ok((BgpMVPN::T4(v), n + 2)),
                Err(e) => Err(e),
            },
            5 => match BgpMVPN5::decode_from(mode, window) {
                Ok((v, n)) => Ok((BgpMVPN::T5(v), n + 2)),
                Err(e) => Err(e),
            },
            6 => match BgpMVPN67::decode_from(mode, window) {
                Ok((v, n)) => Ok((BgpMVPN::T6(v), n + 2)),
                Err(e) => Err(e),
            },
            7 => match BgpMVPN67::decode_from(mode, window) {
                Ok((v, n)) => Ok((BgpMVPN::T7(v), n + 2)),
                Err(e) => Err(e),
            },
            _ => Err(BgpError::static_str("Invalid BgpMVPN route type")),
        }
    }

    fn encode_to(&self, mode: BgpTransportMode, buf: &mut Vec<u8>) -> (r: Result<usize, BgpError>)
    {
        let t: u8 = match self {
            BgpMVPN::T1(_) => 1,
            BgpMVPN::T2(_) => 2,
            BgpMVPN::T3(_) => 3,
            BgpMVPN::T4(_) => 4,
            BgpMVPN::T5(_) => 5,
            BgpMVPN::T6(_) => 6,
            BgpMVPN::T7(_) => 7,
        };
        buf.push(t);
        let lenpos = buf.len();
        buf.push(0);
        let ghost mid = buf@;
        let sz = match self {
            BgpMVPN::T1(v) => v.encode_to(mode, buf),
            BgpMVPN::T2(v) => v.encode_to(mode, buf),
            BgpMVPN::T3(v) => v.encode_to(mode, buf),
            BgpMVPN::T4(v) => v.encode_to(mode, buf),
            BgpMVPN::T5(v) => v.encode_to(mode, buf),
            BgpMVPN::T6(v) => v.encode_to(mode, buf),
            BgpMVPN::T7(v) => v.encode_to(mode, buf),
        };
        let _ = match sz {
            Ok(n) => n,
            Err(e) => {
                return Err(e);
            },
        };
        let ghost packed = buf@;
        let written = buf.len() - lenpos - 1;
        if written > 0xff {
            return Err(BgpError::TooManyData);
        }
        buf.set(lenpos, written as u8);
        proof {
            assert forall|j: int| 0 <= j < old(buf)@.len() implies final(buf)@[j] == old(
                buf,
            )@[j] by {
                assert(final(buf)@[j] == packed[j]);
                assert(packed.subrange(0, mid.len() as int)[j] == mid[j]);
            }
            assert(final(buf)@.subrange(0, old(buf)@.len() as int) =~= old(buf)@);
        }
        Ok(written + 2)
    }
}

} // verus!
