//! The multi-protocol reach and unreach path attributes: they carry NLRI
//! of address families other than the session transport, the reach form
//! together with its own next hop.

use crate::afi::ipv4::BgpIPv4RD;
use crate::afi::ipv6::BgpIPv6RD;
use crate::afi::{addrs_run_tied, grew_by, rd_bytes, sub_tail, wf_addrs, BgpAddr, BgpAddrItem,
    BgpAddrs};
use crate::error::BgpError;
use crate::util::{decode_addrv4_from, decode_addrv6_from, getn_u16, push_u16, u128_bytes,
    u32_bytes};
use crate::BgpSessionParams;
use vstd::prelude::*;

verus! {

/// The multi-protocol reach attribute: the next hop and the announced
/// NLRI of one address family.
#[derive(Debug, PartialEq, Eq)]
pub struct BgpMPUpdates {
    /// next hop for these updates
    pub nexthop: BgpAddr,
    /// the announced NLRI
    pub addrs: BgpAddrs,
}

impl BgpMPUpdates {
    /// Builds a reach attribute for VPNv4 unicast.
    pub fn s4vpnv4u(nhop: BgpIPv4RD, nlri: Vec<crate::afi::Labeled<crate::afi::WithRd<crate::afi::ipv4::BgpAddrV4>>>) -> (r: BgpMPUpdates)
        ensures
            r.nexthop == BgpAddr::V4RD(nhop),
            r.addrs is VPNV4U,
    {
        BgpMPUpdates { nexthop: BgpAddr::V4RD(nhop), addrs: BgpAddrs::VPNV4U(nlri) }
    }

    /// Builds a reach attribute for VPNv4 multicast.
    pub fn s4vpnv4m(nhop: BgpIPv4RD, nlri: Vec<crate::afi::Labeled<crate::afi::WithRd<crate::afi::ipv4::BgpAddrV4>>>) -> (r: BgpMPUpdates)
        ensures
            r.nexthop == BgpAddr::V4RD(nhop),
            r.addrs is VPNV4M,
    {
        BgpMPUpdates { nexthop: BgpAddr::V4RD(nhop), addrs: BgpAddrs::VPNV4M(nlri) }
    }

    /// Builds a reach attribute for IPv4 labeled unicast.
    pub fn s4ip4lu(nhop: crate::util::Ipv4Addr, nlri: Vec<crate::afi::Labeled<crate::afi::ipv4::BgpAddrV4>>) -> (r: BgpMPUpdates)
        ensures
            r.nexthop == BgpAddr::V4(nhop),
            r.addrs is IPV4LU,
    {
        BgpMPUpdates { nexthop: BgpAddr::V4(nhop), addrs: BgpAddrs::IPV4LU(nlri) }
    }

    /// Builds a reach attribute for IPv6 labeled unicast.
    pub fn s4ip6lu(nhop: crate::util::Ipv4Addr, nlri: Vec<crate::afi::Labeled<crate::afi::ipv6::BgpAddrV6>>) -> (r: BgpMPUpdates)
        ensures
            r.nexthop == BgpAddr::V4(nhop),
            r.addrs is IPV6LU,
    {
        BgpMPUpdates { nexthop: BgpAddr::V4(nhop), addrs: BgpAddrs::IPV6LU(nlri) }
    }

    /// Builds a reach attribute for VPNv6 unicast.
    pub fn s4vpnv6u(nhop: BgpIPv4RD, nlri: Vec<crate::afi::Labeled<crate::afi::WithRd<crate::afi::ipv6::BgpAddrV6>>>) -> (r: BgpMPUpdates)
        ensures
            r.nexthop == BgpAddr::V4RD(nhop),
            r.addrs is VPNV6U,
    {
        BgpMPUpdates { nexthop: BgpAddr::V4RD(nhop), addrs: BgpAddrs::VPNV6U(nlri) }
    }

    /// Builds a reach attribute for VPNv6 multicast.
    pub fn s4vpnv6m(nhop: BgpIPv4RD, nlri: Vec<crate::afi::Labeled<crate::afi::WithRd<crate::afi::ipv6::BgpAddrV6>>>) -> (r: BgpMPUpdates)
        ensures
            r.nexthop == BgpAddr::V4RD(nhop),
            r.addrs is VPNV6M,
    {
        BgpMPUpdates { nexthop: BgpAddr::V4RD(nhop), addrs: BgpAddrs::VPNV6M(nlri) }
    }

    /// Reads the attribute payload: AFI, SAFI, the next hop behind its
    /// length octet, the reserved octet, then the NLRI. The family of the
    /// result is the one the first three octets name, the next hop comes
    /// from its octets, and the NLRI stands in the run relation to the
    /// tail of the payload it was read from.
    pub fn decode_from(peer: &BgpSessionParams, buf: &[u8]) -> (r: Result<BgpMPUpdates, BgpError>)
        ensures
            r matches Ok(v) ==> wf_addrs(v.addrs) && buf@.len() >= 5 && ({
                let afi = (buf@[0] as int) * 256 + (buf@[1] as int);
                let safi = buf@[2] as int;
                &&& !(v.addrs is Empty)
                &&& v.addrs.spec_afi_safi().0 as int == afi
                &&& v.addrs.spec_afi_safi().1 as int == safi
                &&& (afi == 1 && (safi == 1 || safi == 2 || safi == 4 || safi == 5 || safi
                    == 133) ==> (v.nexthop matches BgpAddr::V4(a) && u32_bytes(a.value)
                    == buf@.subrange(4, 8)))
                &&& (afi == 1 && (safi == 128 || safi == 129 || safi == 134) ==> (
                v.nexthop matches BgpAddr::V4RD(a) && rd_bytes(a.rd) == buf@.subrange(4, 12)
                    && u32_bytes(a.addr.value) == buf@.subrange(12, 16)))
                &&& (afi == 2 && (safi == 1 || safi == 2 || safi == 4 || safi == 133) ==> (
                v.nexthop matches BgpAddr::V6(a) && u128_bytes(a.value) == buf@.subrange(4, 20)))
                &&& (afi == 2 && (safi == 128 || safi == 129) ==> (
                v.nexthop matches BgpAddr::V6RD(a) && rd_bytes(a.rd) == buf@.subrange(4, 12)
                    && u128_bytes(a.addr.value) == buf@.subrange(12, 28)))
                &&& (afi == 25 && (safi == 65 || safi == 70) ==> (
                v.nexthop matches BgpAddr::V4(a) && u32_bytes(a.value) == buf@.subrange(4, 8)))
                &&& exists|p: int|
                    5 <= p <= buf@.len() && #[trigger] addrs_run_tied(
                        v.addrs,
                        buf@.subrange(p, buf@.len() as int),
                    )
            }),
    {
        if buf.len() < 5 {
            return Err(BgpError::insufficient_buffer_size());
        }
        let afi16 = getn_u16(buf);
        proof {
            assert((((afi16 >> 8) & 0xff) as u8 as int) * 256 + ((afi16 & 0xff) as u8 as int)
                == afi16 as int) by (bit_vector);
            assert(crate::util::u16_bytes(afi16)[0] == buf@[0] && crate::util::u16_bytes(afi16)[1]
                == buf@[1]);
        }
        let afi = afi16;
        let safi = buf[2];
        let nhlen = buf[3] as usize;
        let mut curpos: usize = 4;
        let nh: BgpAddr;
        if afi == 1 && (safi == 1 || safi == 2 || safi == 4 || safi == 5 || safi == 133) {
            if buf.len() - curpos < nhlen || nhlen < 4 {
                return Err(BgpError::insufficient_buffer_size());
            }
            let a = match decode_addrv4_from(sub_tail(buf, curpos)) {
                Ok(a) => a,
                Err(e) => {
                    return Err(e);
                },
            };
            proof {
                assert(buf@.subrange(4, buf@.len() as int).subrange(0, 4) =~= buf@.subrange(4, 8));
            }
            nh = BgpAddr::V4(a);
            curpos = curpos + nhlen;
        } else if afi == 1 && (safi == 128 || safi == 129 || safi == 134) {
            if buf.len() - curpos < 12 {
                return Err(BgpError::insufficient_buffer_size());
            }
            let (a, n) = match BgpIPv4RD::decode_from(peer.peer_mode, sub_tail(buf, curpos)) {
                Ok(p) => p,
                Err(e) => {
                    return Err(e);
                },
            };
            proof {
                assert(buf@.subrange(4, buf@.len() as int).subrange(0, 8) =~= buf@.subrange(
                    4,
                    12,
                ));
                assert(buf@.subrange(4, buf@.len() as int).subrange(8, 12) =~= buf@.subrange(
                    12,
                    16,
                ));
            }
            nh = BgpAddr::V4RD(a);
            curpos = curpos + n;
        } else if afi == 2 && (safi == 1 || safi == 2 || safi == 4 || safi == 133) {
            if buf.len() - curpos < nhlen || nhlen < 16 {
                return Err(BgpError::insufficient_buffer_size());
            }
            let a = match decode_addrv6_from(sub_tail(buf, curpos)) {
                Ok(a) => a,
                Err(e) => {
                    return Err(e);
                },
            };
            proof {
                assert(buf@.subrange(4, buf@.len() as int).subrange(0, 16) =~= buf@.subrange(
                    4,
                    20,
                ));
            }
            nh = BgpAddr::V6(a);
            curpos = curpos + nhlen;
        } else if afi == 2 && (safi == 128 || safi == 129) {
            if buf.len() - curpos < 24 {
                return Err(BgpError::insufficient_buffer_size());
            }
            let (a, n) = match BgpIPv6RD::decode_from(peer.peer_mode, sub_tail(buf, curpos)) {
                Ok(p) => p,
                Err(e) => {
                    return Err(e);
                },
            };
            proof {
                assert(buf@.subrange(4, buf@.len() as int).subrange(0, 8) =~= buf@.subrange(
                    4,
                    12,
                ));
                assert(buf@.subrange(4, buf@.len() as int).subrange(8, 24) =~= buf@.subrange(
                    12,
                    28,
                ));
            }
            nh = BgpAddr::V6RD(a);
            curpos = curpos + n;
        } else if afi == 25 && (safi == 65 || safi == 70) {
            if buf.len() - curpos < nhlen || nhlen < 4 {
                return Err(BgpError::insufficient_buffer_size());
            }
            let a = match decode_addrv4_from(sub_tail(buf, curpos)) {
                Ok(a) => a,
                Err(e) => {
                    return Err(e);
                },
            };
            proof {
                assert(buf@.subrange(4, buf@.len() as int).subrange(0, 4) =~= buf@.subrange(4, 8));
            }
            nh = BgpAddr::V4(a);
            curpos = curpos + nhlen;
        } else {
            return Err(BgpError::static_str("Unknown afi/safi for mp-reach"));
        }
        if buf.len() - curpos < 1 {
            return Err(BgpError::insufficient_buffer_size());
        }
        let snpa_count = buf[curpos];
        curpos = curpos + 1;
        let mut s: u8 = snpa_count;
        while s > 0
            invariant
                5 <= curpos <= buf@.len(),
            decreases s,
        {
            if buf.len() - curpos < 1 {
                return Err(BgpError::insufficient_buffer_size());
            }
            let snpa_len = buf[curpos] as usize;
            if buf.len() - curpos - 1 < snpa_len {
                return Err(BgpError::insufficient_buffer_size());
            }
            curpos = curpos + 1 + snpa_len;
            s = s - 1;
        }
        let (addrs, _) = match BgpAddrs::decode_from(peer, afi, safi, sub_tail(buf, curpos)) {
            Ok(p) => p,
            Err(e) => {
                return Err(e);
            },
        };
        proof {
            assert(addrs_run_tied(addrs, buf@.subrange(curpos as int, buf@.len() as int)));
        }
        Ok(BgpMPUpdates { nexthop: nh, addrs })
    }

    /// Appends the attribute payload: AFI, SAFI, the next hop behind its
    /// length octet, a zero reserved octet, then the NLRI.
    #[verifier::rlimit(100)]
    pub fn encode_to(&self, peer: &BgpSessionParams, buf: &mut Vec<u8>) -> (r: Result<
        usize,
        BgpError,
    >)
        requires
            wf_addrs(self.addrs),
        ensures
            r matches Ok(n) ==> grew_by(old(buf)@, final(buf)@, n as int) && ({
                let b = old(buf)@.len() as int;
                &&& n >= 5
                &&& final(buf)@.subrange(b, b + 2) == crate::util::u16_bytes(
                    self.addrs.spec_afi_safi().0,
                )
                &&& final(buf)@[b + 2] == self.addrs.spec_afi_safi().1
                &&& (self.nexthop matches BgpAddr::V4(a) ==> final(buf)@[b + 3] == 4u8
                    && final(buf)@.subrange(b + 4, b + 8) == u32_bytes(a.value))
                &&& (self.nexthop matches BgpAddr::V6(a) ==> final(buf)@[b + 3] == 16u8
                    && final(buf)@.subrange(b + 4, b + 20) == u128_bytes(a.value))
                &&& exists|p: int|
                    b + 5 <= p <= final(buf)@.len() && #[trigger] crate::afi::addrs_enc_image(
                        self.addrs,
                        final(buf)@.subrange(0, p),
                        final(buf)@,
                    )
            }),
    {
        proof {
            assert(old(buf)@.subrange(0, old(buf)@.len() as int) =~= old(buf)@);
        }
        let (afi, safi) = self.addrs.get_afi_safi();
        push_u16(buf, afi);
        buf.push(safi);
        let lenpos = buf.len();
        buf.push(0);
        let ghost mid = buf@;
        proof {
            let b = old(buf)@.len() as int;
            assert(mid.subrange(b, b + 2) =~= crate::util::u16_bytes(afi));
            assert(mid[b + 2] == safi);
        }
        let nhl: usize = match &self.nexthop {
            BgpAddr::V4(a) => crate::util::encode_addrv4_to(a, buf),
            BgpAddr::V6(a) => crate::util::encode_addrv6_to(a, buf),
            BgpAddr::V4RD(a) => {
                match a.encode_to(peer.peer_mode, buf) {
                    Ok(n) => n,
                    Err(e) => {
                        return Err(e);
                    },
                }
            },
            BgpAddr::V6RD(a) => {
                match a.encode_to(peer.peer_mode, buf) {
                    Ok(n) => n,
                    Err(e) => {
                        return Err(e);
                    },
                }
            },
            BgpAddr::Empty | BgpAddr::L2(_) | BgpAddr::MVPN(_) => {
                return Err(BgpError::static_str("Invalid nexthop kind"));
            },
        };
        if nhl > 255 {
            return Err(BgpError::too_many_data());
        }
        let ghost nhdone = buf@;
        proof {
            assert(nhdone.len() == mid.len() + nhl);
        }
        buf.set(lenpos, nhl as u8);
        buf.push(0);
        let ghost mid2 = buf@;
        let ps = match self.addrs.encode_to(peer, buf) {
            Ok(n) => n,
            Err(e) => {
                return Err(e);
            },
        };
        let blen = buf.len();
        proof {
            assert(mid.len() == old(buf)@.len() + 4);
            assert(mid2.len() == mid.len() + nhl + 1);
            assert(blen == mid2.len() + ps);
            assert(4 + nhl + 1 + ps <= blen);
            assert forall|j: int| 0 <= j < old(buf)@.len() implies final(buf)@[j] == old(
                buf,
            )@[j] by {
                assert(final(buf)@.subrange(0, mid2.len() as int)[j] == mid2[j]);
                assert(mid2[j] == nhdone[j]);
                assert(nhdone.subrange(0, mid.len() as int)[j] == mid[j]);
                assert(mid[j] == old(buf)@[j]);
            }
            assert(final(buf)@.subrange(0, old(buf)@.len() as int) =~= old(buf)@);
            let b = old(buf)@.len() as int;
            assert forall|j: int| b <= j < b + 3 implies final(buf)@[j] == mid[j] by {
                assert(final(buf)@.subrange(0, mid2.len() as int)[j] == mid2[j]);
                assert(mid2[j] == nhdone[j]);
                assert(nhdone.subrange(0, mid.len() as int)[j] == mid[j]);
            }
            assert(final(buf)@.subrange(b, b + 2) =~= crate::util::u16_bytes(afi));
            assert forall|k: int| 0 <= k < nhl implies #[trigger] final(buf)@[b + 4 + k]
                == nhdone[b + 4 + k] by {
                assert(final(buf)@.subrange(0, mid2.len() as int)[b + 4 + k] == mid2[b + 4 + k]);
                assert(mid2[b + 4 + k] == nhdone[b + 4 + k]);
            }
            if self.nexthop is V4 {
                let img = crate::util::u32_bytes(self.nexthop->V4_0.value);
                assert(nhdone == mid + img);
                assert forall|k: int| 0 <= k < 4 implies #[trigger] final(buf)@.subrange(
                    b + 4,
                    b + 8,
                )[k] == img[k] by {
                    assert(final(buf)@[b + 4 + k] == nhdone[b + 4 + k]);
                    assert(nhdone[b + 4 + k] == img[k]);
                }
                assert(final(buf)@.subrange(b + 4, b + 8) =~= img);
            }
            if self.nexthop is V6 {
                let img = crate::util::u128_bytes(self.nexthop->V6_0.value);
                assert(nhdone == mid + img);
                assert forall|k: int| 0 <= k < 16 implies #[trigger] final(buf)@.subrange(
                    b + 4,
                    b + 20,
                )[k] == img[k] by {
                    assert(final(buf)@[b + 4 + k] == nhdone[b + 4 + k]);
                    assert(nhdone[b + 4 + k] == img[k]);
                }
                assert(final(buf)@.subrange(b + 4, b + 20) =~= img);
            }
            assert(final(buf)@[b + 3] == mid2[b + 3]);
            assert(final(buf)@.subrange(0, mid2.len() as int) =~= mid2);
            assert(crate::afi::addrs_enc_image(
                self.addrs,
                final(buf)@.subrange(0, mid2.len() as int),
                final(buf)@,
            ));
        }
        Ok(4 + nhl + 1 + ps)
    }
}

/// The multi-protocol unreach attribute: the withdrawn NLRI of one address
/// family.
#[derive(Debug, PartialEq, Eq)]
pub struct BgpMPWithdraws {
    /// the withdrawn NLRI
    pub addrs: BgpAddrs,
}

impl BgpMPWithdraws {
    /// Reads the attribute payload: AFI, SAFI, then the NLRI.
    pub fn decode_from(peer: &BgpSessionParams, buf: &[u8]) -> (r: Result<BgpMPWithdraws, BgpError>)
        ensures
            r matches Ok(v) ==> wf_addrs(v.addrs) && buf@.len() >= 3 && !(v.addrs is Empty)
                && v.addrs.spec_afi_safi().0 as int == (buf@[0] as int) * 256 + (buf@[1] as int)
                && v.addrs.spec_afi_safi().1 == buf@[2] && addrs_run_tied(
                v.addrs,
                buf@.subrange(3, buf@.len() as int),
            ),
    {
        if buf.len() < 3 {
            return Err(BgpError::insufficient_buffer_size());
        }
        let afi16 = getn_u16(buf);
        proof {
            assert((((afi16 >> 8) & 0xff) as u8 as int) * 256 + ((afi16 & 0xff) as u8 as int)
                == afi16 as int) by (bit_vector);
            assert(crate::util::u16_bytes(afi16)[0] == buf@[0] && crate::util::u16_bytes(afi16)[1]
                == buf@[1]);
        }
        let afi = afi16;
        let safi = buf[2];
        let (addrs, _) = match BgpAddrs::decode_from(peer, afi, safi, sub_tail(buf, 3)) {
            Ok(p) => p,
            Err(e) => {
                return Err(e);
            },
        };
        Ok(BgpMPWithdraws { addrs })
    }

    /// Appends the attribute payload: AFI, SAFI, then the NLRI.
    pub fn encode_to(&self, peer: &BgpSessionParams, buf: &mut Vec<u8>) -> (r: Result<
        usize,
        BgpError,
    >)
        requires
            wf_addrs(self.addrs),
        ensures
            r matches Ok(n) ==> grew_by(old(buf)@, final(buf)@, n as int) && ({
                let b = old(buf)@.len() as int;
                &&& n >= 3
                &&& final(buf)@.subrange(b, b + 2) == crate::util::u16_bytes(
                    self.addrs.spec_afi_safi().0,
                )
                &&& final(buf)@[b + 2] == self.addrs.spec_afi_safi().1
                &&& crate::afi::addrs_enc_image(
                    self.addrs,
                    final(buf)@.subrange(0, b + 3),
                    final(buf)@,
                )
            }),
    {
        proof {
            assert(old(buf)@.subrange(0, old(buf)@.len() as int) =~= old(buf)@);
        }
        let (afi, safi) = self.addrs.get_afi_safi();
        push_u16(buf, afi);
        buf.push(safi);
        let ghost mid = buf@;
        proof {
            let b = old(buf)@.len() as int;
            assert(mid.subrange(b, b + 2) =~= crate::util::u16_bytes(afi));
        }
        let ps = match self.addrs.encode_to(peer, buf) {
            Ok(n) => n,
            Err(e) => {
                return Err(e);
            },
        };
        let blen = buf.len();
        proof {
            assert(3 + ps <= blen);
            assert forall|j: int| 0 <= j < old(buf)@.len() implies final(buf)@[j] == old(
                buf,
            )@[j] by {
                assert(final(buf)@.subrange(0, mid.len() as int)[j] == mid[j]);
            }
            assert(final(buf)@.subrange(0, old(buf)@.len() as int) =~= old(buf)@);
            let b = old(buf)@.len() as int;
            assert(final(buf)@.subrange(0, mid.len() as int) =~= mid);
            assert(final(buf)@.subrange(b, b + 2) =~= mid.subrange(b, b + 2));
            assert(final(buf)@[b + 2] == mid[b + 2]);
            assert(crate::afi::addrs_enc_image(
                self.addrs,
                final(buf)@.subrange(0, b + 3),
                final(buf)@,
            ));
        }
        Ok(3 + ps)
    }
}

} // verus!
