//! NLRI data structures for EVPN route types 1 to 5.

use crate::afi::mac::MacAddress;
use crate::afi::{
    grew_by, labels_encode_raw, labels_extract, sub_tail, wf_labels_core, BgpAddrItem, BgpRD,
    MplsLabels,
};
use crate::error::BgpError;
use crate::util::{
    decode_addrv4_from, decode_addrv6_from, encode_addr_to, getn_u32, push_u32, IpAddr,
};
use crate::BgpTransportMode;
use vstd::prelude::*;
use vstd::slice::slice_subrange;

verus! {

/// An EVPN Ethernet segment identifier: nine opaque octets.
#[derive(Debug, Clone, PartialEq, Eq)]
pub struct EVPNESI {
    pub v: Vec<u8>,
}

impl EVPNESI {
    /// Builds an empty segment identifier.
    pub fn empty() -> (r: EVPNESI)
        ensures
            r.v@ == Seq::<u8>::empty(),
    {
        EVPNESI { v: Vec::new() }
    }

    /// Copies a segment identifier out of a buffer.
    pub fn new(src: &[u8]) -> (r: EVPNESI)
        ensures
            r.v@ == src@,
    {
        let mut v: Vec<u8> = Vec::new();
        let mut i: usize = 0;
        while i < src.len()
            invariant
                i <= src@.len(),
                v@ == src@.subrange(0, i as int),
            decreases src@.len() - i,
        {
            v.push(src[i]);
            proof {
                assert(v@ =~= src@.subrange(0, i + 1int));
            }
            i = i + 1;
        }
        proof {
            assert(v@ =~= src@);
        }
        EVPNESI { v }
    }

    /// True when every octet is zero.
    pub fn is_zero(&self) -> (r: bool)
        ensures
            r <==> forall|i: int| 0 <= i < self.v@.len() ==> self.v@[i] == 0,
    {
        let mut i: usize = 0;
        while i < self.v.len()
            invariant
                i <= self.v@.len(),
                forall|k: int| 0 <= k < i ==> self.v@[k] == 0,
            decreases self.v@.len() - i,
        {
            if self.v[i] != 0 {
                return false;
            }
            i = i + 1;
        }
        true
    }
}

/// A round-tripping label stack of an EVPN route.
pub open spec fn wf_evpn_labels(l: MplsLabels) -> bool {
    wf_labels_core(l.labels@)
}

/// EVPN type 1, the Ethernet auto-discovery route.
#[derive(Debug, Clone, PartialEq, Eq)]
pub struct BgpEVPN1 {
    pub rd: BgpRD,
    pub esi_type: u8,
    pub esi: EVPNESI,
    pub ether_tag: u32,
    pub labels: MplsLabels,
}

/// EVPN type 2, the MAC/IP advertisement route.
#[derive(Debug, Clone, PartialEq, Eq)]
pub struct BgpEVPN2 {
    pub rd: BgpRD,
    pub esi_type: u8,
    pub esi: EVPNESI,
    pub ether_tag: u32,
    pub mac: MacAddress,
    pub ip: Option<IpAddr>,
    pub labels: MplsLabels,
}

/// EVPN type 3, the inclusive multicast Ethernet tag route.
#[derive(Debug, Clone, PartialEq, Eq, Structural)]
pub struct BgpEVPN3 {
    pub rd: BgpRD,
    pub ether_tag: u32,
    pub ip: IpAddr,
}

/// EVPN type 4, the Ethernet segment route.
#[derive(Debug, Clone, PartialEq, Eq)]
pub struct BgpEVPN4 {
    pub rd: BgpRD,
    pub esi_type: u8,
    pub esi: EVPNESI,
    pub ip: IpAddr,
}

/// EVPN type 5, the IP prefix route. Prefix and gateway share one address
/// family.
#[derive(Debug, Clone, PartialEq, Eq)]
pub struct BgpEVPN5 {
    pub rd: BgpRD,
    pub esi_type: u8,
    pub esi: EVPNESI,
    pub ether_tag: u32,
    pub len: u8,
    pub prefix: IpAddr,
    pub gw_ip: IpAddr,
    pub labels: MplsLabels,
}

impl BgpAddrItem for BgpEVPN1 {
    open spec fn wf(&self) -> bool {
        self.esi.v@.len() == 9 && wf_evpn_labels(self.labels)
    }

    fn decode_from(mode: BgpTransportMode, buf: &[u8]) -> (r: Result<(BgpEVPN1, usize), BgpError>)
    {
        if buf.len() < 14 {
            return Err(BgpError::insufficient_buffer_size());
        }
        let (rd, _) = match BgpRD::decode_rd_from(buf) {
            Ok(p) => p,
            Err(e) => {
                return Err(e);
            },
        };
        if buf.len() < 22 {
            return Err(BgpError::insufficient_buffer_size());
        }
        let esi_type = buf[8];
        let esi = EVPNESI::new(slice_subrange(buf, 9, 18));
        let ether_tag = getn_u32(slice_subrange(buf, 18, 22));
        let rem = buf.len() - 22;
        let bits: u32 = if rem >= 0x10000000 {
            0xffffffff
        } else {
            (rem * 8) as u32
        };
        let (lv, ln) = match labels_extract(bits, sub_tail(buf, 22)) {
            Ok(p) => p,
            Err(e) => {
                return Err(e);
            },
        };
        proof {
            crate::afi::lemma_labels_dec_bounds(bits as int, buf@.subrange(22, buf@.len() as int));
        }
        Ok((BgpEVPN1 { rd, esi_type, esi, ether_tag, labels: MplsLabels { labels: lv } }, 22 + ln))
    }

    fn encode_to(&self, mode: BgpTransportMode, buf: &mut Vec<u8>) -> (r: Result<usize, BgpError>)
    {
        let _ = match self.rd.encode_rd_to(buf) {
            Ok(n) => n,
            Err(e) => {
                return Err(e);
            },
        };
        buf.push(self.esi_type);
        crate::append_bytes(buf, &self.esi.v);
        push_u32(buf, self.ether_tag);
        if self.labels.labels.len() > 21840 {
            return Err(BgpError::too_many_data());
        }
        let ln = labels_encode_raw(&self.labels.labels, buf);
        proof {
            assert(final(buf)@.subrange(0, old(buf)@.len() as int) =~= old(buf)@);
        }
        Ok(22 + ln)
    }
}

/// A decoded MAC/IP advertisement stands as its bytes say: the route
/// distinguisher, segment identifier fields, Ethernet tag, MAC address and
/// optional IP address each come from their octets, and the label stack
/// parses from the rest.
pub open spec fn evpn2_dec(v: BgpEVPN2, n: int, s: Seq<u8>) -> bool {
    &&& crate::afi::rd_bytes(v.rd) == s.subrange(0, 8)
    &&& v.esi_type == s[8]
    &&& v.esi.v@ == s.subrange(9, 18)
    &&& crate::util::u32_bytes(v.ether_tag) == s.subrange(18, 22)
    &&& crate::afi::mac::mac_bytes(v.mac) == s.subrange(23, 29)
    &&& (s[29] == 0 || s[29] == 32 || s[29] == 128)
    &&& (s[29] == 0 ==> v.ip is None)
    &&& (s[29] == 32 ==> (v.ip matches Some(IpAddr::V4(a)) && crate::util::u32_bytes(a.value)
        == s.subrange(30, 34)))
    &&& (s[29] == 128 ==> (v.ip matches Some(IpAddr::V6(a)) && crate::util::u128_bytes(a.value)
        == s.subrange(30, 46)))
    &&& ({
        let sz = 30 + (if s[29] == 32 {
            4int
        } else if s[29] == 128 {
            16int
        } else {
            0int
        });
        let bits = if s.len() - sz >= 0x10000000 {
            0xffffffffint
        } else {
            8 * (s.len() - sz)
        };
        &&& sz <= n <= s.len()
        &&& crate::afi::labels_dec(bits, s.subrange(sz, s.len() as int)) == Some(
            (v.labels.labels@, n - sz),
        )
    })
}

/// The wire image of a MAC/IP advertisement route: the route
/// distinguisher, the segment identifier fields, the Ethernet tag, the
/// MAC behind its 48 length octet, the optional address behind its bit
/// length octet, then the label stack.
pub open spec fn evpn2_bytes(v: BgpEVPN2) -> Seq<u8> {
    crate::afi::rd_bytes(v.rd) + seq![v.esi_type] + v.esi.v@ + crate::util::u32_bytes(v.ether_tag)
        + seq![48u8] + crate::afi::mac::mac_bytes(v.mac) + (match v.ip {
        Option::None => seq![0u8],
        Option::Some(IpAddr::V4(a)) => seq![32u8] + crate::util::u32_bytes(a.value),
        Option::Some(IpAddr::V6(a)) => seq![128u8] + crate::util::u128_bytes(a.value),
    }) + crate::afi::labels_bytes(v.labels.labels@)
}

impl BgpAddrItem for BgpEVPN2 {
    open spec fn wf(&self) -> bool {
        self.esi.v@.len() == 9 && wf_evpn_labels(self.labels) && self.mac.wf()
    }

    #[verifier::rlimit(100)]
    fn decode_from(mode: BgpTransportMode, buf: &[u8]) -> (r: Result<(BgpEVPN2, usize), BgpError>)
        ensures
            r is Ok ==> buf@.len() >= 30 && buf@[22] == 48,
            buf@.len() >= 30 && buf@[22] != 48 ==> r is Err,
            r matches Ok((v, n)) ==> evpn2_dec(v, n as int, buf@),
    {
        if buf.len() < 30 {
            return Err(BgpError::insufficient_buffer_size());
        }
        let (rd, _) = match BgpRD::decode_rd_from(buf) {
            Ok(p) => p,
            Err(e) => {
                return Err(e);
            },
        };
        let esi_type = buf[8];
        let esi = EVPNESI::new(slice_subrange(buf, 9, 18));
        let ether_tag = getn_u32(slice_subrange(buf, 18, 22));
        proof {
            assert(seq![buf@[18], buf@[19], buf@[20], buf@[21]] =~= buf@.subrange(18, 22));
        }
        if buf[22] != 48 {
            return Err(BgpError::static_str("Invalid mac address size"));
        }
        let mac = match MacAddress::from_network_bytes(slice_subrange(buf, 23, 29)) {
            Ok(m) => m,
            Err(e) => {
                return Err(e);
            },
        };
        proof {
            assert(buf@.subrange(23, 29).subrange(0, 6) =~= buf@.subrange(23, 29));
        }
        let addrtype = buf[29];
        let mut sz: usize = 30;
        let ip: Option<IpAddr> = if addrtype == 0 {
            None
        } else if addrtype == 32 {
            if buf.len() - sz < 4 {
                return Err(BgpError::insufficient_buffer_size());
            }
            let a = match decode_addrv4_from(sub_tail(buf, sz)) {
                Ok(a) => a,
                Err(e) => {
                    return Err(e);
                },
            };
            sz = sz + 4;
            Some(IpAddr::V4(a))
        } else if addrtype == 128 {
            if buf.len() - sz < 16 {
                return Err(BgpError::insufficient_buffer_size());
            }
            let a = match decode_addrv6_from(sub_tail(buf, sz)) {
                Ok(a) => a,
                Err(e) => {
                    return Err(e);
                },
            };
            sz = sz + 16;
            Some(IpAddr::V6(a))
        } else {
            return Err(BgpError::static_str("Invalid ip address size"));
        };
        let rem = buf.len() - sz;
        let bits: u32 = if rem >= 0x10000000 {
            0xffffffff
        } else {
            (rem * 8) as u32
        };
        let (lv, ln) = match labels_extract(bits, sub_tail(buf, sz)) {
            Ok(p) => p,
            Err(e) => {
                return Err(e);
            },
        };
        proof {
            crate::afi::lemma_labels_dec_bounds(
                bits as int,
                buf@.subrange(sz as int, buf@.len() as int),
            );
        }
        let res = BgpEVPN2 { rd, esi_type, esi, ether_tag, mac, ip, labels: MplsLabels {
            labels: lv,
        } };
        let n = sz + ln;
        proof {
            assert(crate::afi::labels_dec(bits as int, buf@.subrange(sz as int, buf@.len() as int))
                == Some((res.labels.labels@, n - sz)));
            assert(crate::afi::rd_bytes(res.rd) == buf@.subrange(0, 8));
            assert(res.esi_type == buf@[8]);
            assert(res.esi.v@ == buf@.subrange(9, 18));
            assert(crate::util::u32_bytes(res.ether_tag) == buf@.subrange(18, 22));
            assert(crate::afi::mac::mac_bytes(res.mac) == buf@.subrange(23, 29));
            assert(buf@[29] == 0 || buf@[29] == 32 || buf@[29] == 128);
            assert(buf@[29] == 0 ==> res.ip is None);
            assert(buf@[29] == 32 ==> (res.ip matches Some(IpAddr::V4(a))
                && crate::util::u32_bytes(a.value) == buf@.subrange(30, 34)));
            assert(buf@[29] == 128 ==> (res.ip matches Some(IpAddr::V6(a))
                && crate::util::u128_bytes(a.value) == buf@.subrange(30, 46)));
            assert(sz as int == 30 + (if buf@[29] == 32 {
                4int
            } else if buf@[29] == 128 {
                16int
            } else {
                0int
            }));
            assert(sz <= n <= buf@.len());
            assert(bits as int == (if buf@.len() - sz >= 0x10000000 {
                0xffffffffint
            } else {
                8 * (buf@.len() - sz)
            }));
            assert(evpn2_dec(res, n as int, buf@));
        }
        Ok((res, n))
    }

    fn encode_to(&self, mode: BgpTransportMode, buf: &mut Vec<u8>) -> (r: Result<usize, BgpError>)
        ensures
            r matches Ok(n) ==> final(buf)@ == old(buf)@ + evpn2_bytes(*self) && n == evpn2_bytes(
                *self,
            ).len(),
    {
        let _ = match self.rd.encode_rd_to(buf) {
            Ok(n) => n,
            Err(e) => {
                return Err(e);
            },
        };
        buf.push(self.esi_type);
        crate::append_bytes(buf, &self.esi.v);
        push_u32(buf, self.ether_tag);
        buf.push(48);
        self.mac.write_to_network_bytes(buf);
        let mut w: usize = 0;
        match &self.ip {
            None => {
                buf.push(0);
            },
            Some(a) => {
                match a {
                    IpAddr::V4(_) => {
                        buf.push(32);
                    },
                    IpAddr::V6(_) => {
                        buf.push(128);
                    },
                }
                w = encode_addr_to(a, buf);
            },
        }
        if self.labels.labels.len() > 21840 {
            return Err(BgpError::too_many_data());
        }
        let ln = labels_encode_raw(&self.labels.labels, buf);
        proof {
            crate::afi::lemma_labels_bytes_len(self.labels.labels@);
            assert(final(buf)@ =~= old(buf)@ + evpn2_bytes(*self));
            assert(final(buf)@.subrange(0, old(buf)@.len() as int) =~= old(buf)@);
        }
        Ok(30 + w + ln)
    }
}

impl BgpAddrItem for BgpEVPN3 {
    open spec fn wf(&self) -> bool {
        true
    }

    fn decode_from(mode: BgpTransportMode, buf: &[u8]) -> (r: Result<(BgpEVPN3, usize), BgpError>)
    {
        if buf.len() < 13 {
            return Err(BgpError::insufficient_buffer_size());
        }
        let (rd, _) = match BgpRD::decode_rd_from(buf) {
            Ok(p) => p,
            Err(e) => {
                return Err(e);
            },
        };
        let ether_tag = getn_u32(slice_subrange(buf, 8, 12));
        let iplen = buf[12];
        if iplen == 32 {
            if buf.len() - 13 < 4 {
                return Err(BgpError::insufficient_buffer_size());
            }
            let a = match decode_addrv4_from(sub_tail(buf, 13)) {
                Ok(a) => a,
                Err(e) => {
                    return Err(e);
                },
            };
            Ok((BgpEVPN3 { rd, ether_tag, ip: IpAddr::V4(a) }, 17))
        } else if iplen == 128 {
            if buf.len() - 13 < 16 {
                return Err(BgpError::insufficient_buffer_size());
            }
            let a = match decode_addrv6_from(sub_tail(buf, 13)) {
                Ok(a) => a,
                Err(e) => {
                    return Err(e);
                },
            };
            Ok((BgpEVPN3 { rd, ether_tag, ip: IpAddr::V6(a) }, 29))
        } else {
            Err(BgpError::static_str("Invalid address size"))
        }
    }

    fn encode_to(&self, mode: BgpTransportMode, buf: &mut Vec<u8>) -> (r: Result<usize, BgpError>)
    {
        let _ = match self.rd.encode_rd_to(buf) {
            Ok(n) => n,
            Err(e) => {
                return Err(e);
            },
        };
        push_u32(buf, self.ether_tag);
        match &self.ip {
            IpAddr::V4(_) => {
                buf.push(32);
            },
            IpAddr::V6(_) => {
                buf.push(128);
            },
        }
        let w = encode_addr_to(&self.ip, buf);
        proof {
            assert(final(buf)@.subrange(0, old(buf)@.len() as int) =~= old(buf)@);
        }
        Ok(13 + w)
    }
}

impl BgpAddrItem for BgpEVPN4 {
    open spec fn wf(&self) -> bool {
        self.esi.v@.len() == 9
    }

    fn decode_from(mode: BgpTransportMode, buf: &[u8]) -> (r: Result<(BgpEVPN4, usize), BgpError>)
    {
        if buf.len() < 19 {
            return Err(BgpError::insufficient_buffer_size());
        }
        let (rd, _) = match BgpRD::decode_rd_from(buf) {
            Ok(p) => p,
            Err(e) => {
                return Err(e);
            },
        };
        let esi_type = buf[8];
        let esi = EVPNESI::new(slice_subrange(buf, 9, 18));
        let iplen = buf[18];
        if iplen == 32 {
            if buf.len() - 19 < 4 {
                return Err(BgpError::insufficient_buffer_size());
            }
            let a = match decode_addrv4_from(sub_tail(buf, 19)) {
                Ok(a) => a,
                Err(e) => {
                    return Err(e);
                },
            };
            Ok((BgpEVPN4 { rd, esi_type, esi, ip: IpAddr::V4(a) }, 23))
        } else if iplen == 128 {
            if buf.len() - 19 < 16 {
                return Err(BgpError::insufficient_buffer_size());
            }
            let a = match decode_addrv6_from(sub_tail(buf, 19)) {
                Ok(a) => a,
                Err(e) => {
                    return Err(e);
                },
            };
            Ok((BgpEVPN4 { rd, esi_type, esi, ip: IpAddr::V6(a) }, 35))
        } else {
            Err(BgpError::static_str("Invalid address size"))
        }
    }

    fn encode_to(&self, mode: BgpTransportMode, buf: &mut Vec<u8>) -> (r: Result<usize, BgpError>)
    {
        let _ = match self.rd.encode_rd_to(buf) {
            Ok(n) => n,
            Err(e) => {
                return Err(e);
            },
        };
        buf.push(self.esi_type);
        crate::append_bytes(buf, &self.esi.v);
        match &self.ip {
            IpAddr::V4(_) => {
                buf.push(32);
            },
            IpAddr::V6(_) => {
                buf.push(128);
            },
        }
        let w = encode_addr_to(&self.ip, buf);
        proof {
            assert(final(buf)@.subrange(0, old(buf)@.len() as int) =~= old(buf)@);
        }
        Ok(19 + w)
    }
}

impl BgpAddrItem for BgpEVPN5 {
    open spec fn wf(&self) -> bool {
        &&& self.esi.v@.len() == 9
        &&& wf_evpn_labels(self.labels)
        &&& (self.prefix is V4 <==> self.gw_ip is V4)
    }

    fn decode_from(mode: BgpTransportMode, buf: &[u8]) -> (r: Result<(BgpEVPN5, usize), BgpError>)
    {
        if buf.len() < 23 {
            return Err(BgpError::insufficient_buffer_size());
        }
        let (rd, _) = match BgpRD::decode_rd_from(buf) {
            Ok(p) => p,
            Err(e) => {
                return Err(e);
            },
        };
        let esi_type = buf[8];
        let esi = EVPNESI::new(slice_subrange(buf, 9, 18));
        let ether_tag = getn_u32(slice_subrange(buf, 18, 22));
        let len = buf[22];
        let mut pos: usize = 23;
        let prefix: IpAddr;
        let gw_ip: IpAddr;
        if buf.len() == 34 {
            let p = match decode_addrv4_from(sub_tail(buf, pos)) {
                Ok(a) => a,
                Err(e) => {
                    return Err(e);
                },
            };
            let g = match decode_addrv4_from(sub_tail(buf, pos + 4)) {
                Ok(a) => a,
                Err(e) => {
                    return Err(e);
                },
            };
            prefix = IpAddr::V4(p);
            gw_ip = IpAddr::V4(g);
            pos = pos + 8;
        } else if buf.len() == 58 {
            let p = match decode_addrv6_from(sub_tail(buf, pos)) {
                Ok(a) => a,
                Err(e) => {
                    return Err(e);
                },
            };
            let g = match decode_addrv6_from(sub_tail(buf, pos + 16)) {
                Ok(a) => a,
                Err(e) => {
                    return Err(e);
                },
            };
            prefix = IpAddr::V6(p);
            gw_ip = IpAddr::V6(g);
            pos = pos + 32;
        } else {
            return Err(
                BgpError::static_str("Expected an EVPN type-5 route of length 34 or 58"),
            );
        }
        let rem = buf.len() - pos;
        let bits: u32 = if rem >= 0x10000000 {
            0xffffffff
        } else {
            (rem * 8) as u32
        };
        let (lv, ln) = match labels_extract(bits, sub_tail(buf, pos)) {
            Ok(p) => p,
            Err(e) => {
                return Err(e);
            },
        };
        proof {
            crate::afi::lemma_labels_dec_bounds(
                bits as int,
                buf@.subrange(pos as int, buf@.len() as int),
            );
        }
        Ok(
            (
                BgpEVPN5 {
                    rd,
                    esi_type,
                    esi,
                    ether_tag,
                    len,
                    prefix,
                    gw_ip,
                    labels: MplsLabels { labels: lv },
                },
                pos + ln,
            ),
        )
    }

    fn encode_to(&self, mode: BgpTransportMode, buf: &mut Vec<u8>) -> (r: Result<usize, BgpError>)
    {
        let _ = match self.rd.encode_rd_to(buf) {
            Ok(n) => n,
            Err(e) => {
                return Err(e);
            },
        };
        buf.push(self.esi_type);
        crate::append_bytes(buf, &self.esi.v);
        push_u32(buf, self.ether_tag);
        buf.push(self.len);
        let w1 = encode_addr_to(&self.prefix, buf);
        let w2 = encode_addr_to(&self.gw_ip, buf);
        if self.labels.labels.len() > 21840 {
            return Err(BgpError::too_many_data());
        }
        let ln = labels_encode_raw(&self.labels.labels, buf);
        proof {
            assert(final(buf)@.subrange(0, old(buf)@.len() as int) =~= old(buf)@);
        }
        Ok(23 + w1 + w2 + ln)
    }
}

/// An EVPN route, discriminated by its type octet.
#[derive(Debug, Clone, PartialEq, Eq)]
pub enum BgpEVPN {
    EVPN1(BgpEVPN1),
    EVPN2(BgpEVPN2),
    EVPN3(BgpEVPN3),
    EVPN4(BgpEVPN4),
    EVPN5(BgpEVPN5),
}

impl BgpAddrItem for BgpEVPN {
    open spec fn wf(&self) -> bool {
        match self {
            BgpEVPN::EVPN1(v) => v.wf(),
            BgpEVPN::EVPN2(v) => v.wf(),
            BgpEVPN::EVPN3(v) => v.wf(),
            BgpEVPN::EVPN4(v) => v.wf(),
            BgpEVPN::EVPN5(v) => v.wf(),
        }
    }

    fn decode_from(mode: BgpTransportMode, buf: &[u8]) -> (r: Result<(BgpEVPN, usize), BgpError>) {
        if buf.len() < 2 {
            return Err(BgpError::insufficient_buffer_size());
        }
        let evpntype = buf[0];
        let routelen = buf[1] as usize;
        if buf.len() - 2 < routelen {
            return Err(BgpError::static_str("Invalid EVPN NLRI len"));
        }
        let window = slice_subrange(buf, 2, 2 + routelen);
        match evpntype {
            1 => match BgpEVPN1::decode_from(mode, window) {
                Ok((v, n)) => Ok((BgpEVPN::EVPN1(v), n + 2)),
                Err(e) => Err(e),
            },
            2 => match BgpEVPN2::decode_from(mode, window) {
                Ok((v, n)) => Ok((BgpEVPN::EVPN2(v), n + 2)),
                Err(e) => Err(e),
            },
            3 => match BgpEVPN3::decode_from(mode, window) {
                Ok((v, n)) => Ok((BgpEVPN::EVPN3(v), n + 2)),
                Err(e) => Err(e),
            },
            4 => match BgpEVPN4::decode_from(mode, window) {
                Ok((v, n)) => Ok((BgpEVPN::EVPN4(v), n + 2)),
                Err(e) => Err(e),
            },
            5 => match BgpEVPN5::decode_from(mode, window) {
                Ok((v, n)) => Ok((BgpEVPN::EVPN5(v), n + 2)),
                Err(e) => Err(e),
            },
            _ => Err(BgpError::static_str("Unsupported EVPN route type")),
        }
    }

    fn encode_to(&self, mode: BgpTransportMode, buf: &mut Vec<u8>) -> (r: Result<usize, BgpError>)
    {
        let t: u8 = match self {
            BgpEVPN::EVPN1(_) => 1,
            BgpEVPN::EVPN2(_) => 2,
            BgpEVPN::EVPN3(_) => 3,
            BgpEVPN::EVPN4(_) => 4,
            BgpEVPN::EVPN5(_) => 5,
        };
        buf.push(t);
        let lenpos = buf.len();
        buf.push(0);
        let ghost mid = buf@;
        let pos = match self {
            BgpEVPN::EVPN1(v) => v.encode_to(mode, buf),
            BgpEVPN::EVPN2(v) => v.encode_to(mode, buf),
            BgpEVPN::EVPN3(v) => v.encode_to(mode, buf),
            BgpEVPN::EVPN4(v) => v.encode_to(mode, buf),
            BgpEVPN::EVPN5(v) => v.encode_to(mode, buf),
        };
        let pos = match pos {
            Ok(n) => n,
            Err(e) => {
                return Err(e);
            },
        };
        let ghost packed = buf@;
        let written = buf.len() - lenpos - 1;
        if written > 0xff {
            return Err(BgpError::TooManyData);
        }
        buf.set(lenpos, written as u8);
        proof {
            assert forall|j: int| 0 <= j < old(buf)@.len() implies final(buf)@[j] == old(
                buf,
            )@[j] by {
                assert(final(buf)@[j] == packed[j]);
                assert(packed.subrange(0, mid.len() as int)[j] == mid[j]);
            }
            assert(final(buf)@.subrange(0, old(buf)@.len() as int) =~= old(buf)@);
        }
        Ok(written + 2)
    }
}

} // verus!
