//! The BGP UPDATE message: withdraws, path attributes and reachability in
//! one length-prefixed body.

use crate::afi::{
    addrs_run_tied, decode_bgpitems_from, decode_pathid_bgpitems_from, encode_bgpitems_to,
    encode_pathid_bgpitems_to, grew_by, sub_tail, wf_addrs, BgpAddrs,
};
use crate::error::BgpError;
use crate::message::attributes::aspath::BgpASpath;
use crate::message::attributes::community::{BgpCommunityList, BgpExtCommunityList,
    BgpLargeCommunityList};
use crate::message::attributes::multiproto::{BgpMPUpdates, BgpMPWithdraws};
use crate::message::attributes::{decode_attr_list, wf_attr, BgpAttrItem, BgpNextHop, BgpOrigin};
use crate::util::{getn_u16, is_addpath_nlri, push_u16};
use crate::{BgpSessionParams, BgpTransportMode};
use vstd::prelude::*;
use vstd::slice::slice_subrange;

verus! {

/// A BGP UPDATE message: the withdrawn NLRI, the path attributes, and the
/// announced NLRI.
#[derive(Debug, PartialEq, Eq)]
pub struct BgpUpdateMessage {
    /// NLRI updates
    pub updates: BgpAddrs,
    /// NLRI withdraws
    pub withdraws: BgpAddrs,
    /// path attributes
    pub attrs: Vec<BgpAttrItem>,
}

/// An UPDATE the encoder accepts: every collection and attribute is fit
/// for encoding.
/// The wire image of the withdraw or reach run an UPDATE carries for a
/// family: the framed-item run image for the unicast family of the
/// session's transport, plain or path-id-framed, and empty for anything
/// else, which the encoder does not write.
pub open spec fn upd_run_bytes(mode: BgpTransportMode, a: BgpAddrs) -> Seq<u8> {
    match (mode, a) {
        (BgpTransportMode::IPv4, BgpAddrs::IPV4U(w)) => crate::afi::items_bytes(w@),
        (BgpTransportMode::IPv4, BgpAddrs::IPV4UP(w)) => crate::afi::pathid_items_bytes(w@),
        (BgpTransportMode::IPv6, BgpAddrs::IPV6U(w)) => crate::afi::items_bytes(w@),
        (BgpTransportMode::IPv6, BgpAddrs::IPV6UP(w)) => crate::afi::pathid_items_bytes(w@),
        _ => Seq::empty(),
    }
}

pub open spec fn wf_update(m: BgpUpdateMessage) -> bool {
    &&& wf_addrs(m.updates)
    &&& wf_addrs(m.withdraws)
    &&& forall|i: int| 0 <= i < m.attrs@.len() ==> #[trigger] wf_attr(m.attrs@[i])
}

impl BgpUpdateMessage {
    /// Builds an empty UPDATE.
    pub fn new() -> (r: BgpUpdateMessage)
        ensures
            r.updates is Empty,
            r.withdraws is Empty,
            r.attrs@ == Seq::<BgpAttrItem>::empty(),
            wf_update(r),
    {
        BgpUpdateMessage { updates: BgpAddrs::Empty, withdraws: BgpAddrs::Empty, attrs: Vec::new() }
    }

    /// The origin attribute, if present.
    pub fn get_attr_origin(&self) -> (r: Option<&BgpOrigin>)
        ensures
            r matches Some(v) ==> exists|i: int|
                0 <= i < self.attrs@.len() && self.attrs@[i] == (BgpAttrItem::Origin(*v)),
            r is None ==> forall|i: int|
                0 <= i < self.attrs@.len() ==> !(self.attrs@[i] is Origin),
    {
        let mut i: usize = 0;
        while i < self.attrs.len()
            invariant
                i <= self.attrs@.len(),
                forall|k: int| 0 <= k < i ==> !(self.attrs@[k] is Origin),
            decreases self.attrs@.len() - i,
        {
            match &self.attrs[i] {
                BgpAttrItem::Origin(n) => {
                    return Some(n);
                },
                _ => {},
            }
            i = i + 1;
        }
        None
    }

    /// The AS-path attribute, if present.
    pub fn get_attr_aspath(&self) -> (r: Option<&BgpASpath>)
        ensures
            r matches Some(v) ==> exists|i: int|
                0 <= i < self.attrs@.len() && self.attrs@[i] == (BgpAttrItem::ASPath(*v)),
            r is None ==> forall|i: int|
                0 <= i < self.attrs@.len() ==> !(self.attrs@[i] is ASPath),
    {
        let mut i: usize = 0;
        while i < self.attrs.len()
            invariant
                i <= self.attrs@.len(),
                forall|k: int| 0 <= k < i ==> !(self.attrs@[k] is ASPath),
            decreases self.attrs@.len() - i,
        {
            match &self.attrs[i] {
                BgpAttrItem::ASPath(n) => {
                    return Some(n);
                },
                _ => {},
            }
            i = i + 1;
        }
        None
    }

    /// The communities attribute, if present.
    pub fn get_attr_communitylist(&self) -> (r: Option<&BgpCommunityList>)
        ensures
            r matches Some(v) ==> exists|i: int|
                0 <= i < self.attrs@.len() && self.attrs@[i] == (BgpAttrItem::CommunityList(*v)),
            r is None ==> forall|i: int|
                0 <= i < self.attrs@.len() ==> !(self.attrs@[i] is CommunityList),
    {
        let mut i: usize = 0;
        while i < self.attrs.len()
            invariant
                i <= self.attrs@.len(),
                forall|k: int| 0 <= k < i ==> !(self.attrs@[k] is CommunityList),
            decreases self.attrs@.len() - i,
        {
            match &self.attrs[i] {
                BgpAttrItem::CommunityList(n) => {
                    return Some(n);
                },
                _ => {},
            }
            i = i + 1;
        }
        None
    }

    /// The large communities attribute, if present.
    pub fn get_attr_largecommunitylist(&self) -> (r: Option<&BgpLargeCommunityList>)
        ensures
            r matches Some(v) ==> exists|i: int|
                0 <= i < self.attrs@.len() && self.attrs@[i] == (BgpAttrItem::LargeCommunityList(*v)),
            r is None ==> forall|i: int|
                0 <= i < self.attrs@.len() ==> !(self.attrs@[i] is LargeCommunityList),
    {
        let mut i: usize = 0;
        while i < self.attrs.len()
            invariant
                i <= self.attrs@.len(),
                forall|k: int| 0 <= k < i ==> !(self.attrs@[k] is LargeCommunityList),
            decreases self.attrs@.len() - i,
        {
            match &self.attrs[i] {
                BgpAttrItem::LargeCommunityList(n) => {
                    return Some(n);
                },
                _ => {},
            }
            i = i + 1;
        }
        None
    }

    /// The extended communities attribute, if present.
    pub fn get_attr_extcommunitylist(&self) -> (r: Option<&BgpExtCommunityList>)
        ensures
            r matches Some(v) ==> exists|i: int|
                0 <= i < self.attrs@.len() && self.attrs@[i] == (BgpAttrItem::ExtCommunityList(*v)),
            r is None ==> forall|i: int|
                0 <= i < self.attrs@.len() ==> !(self.attrs@[i] is ExtCommunityList),
    {
        let mut i: usize = 0;
        while i < self.attrs.len()
            invariant
                i <= self.attrs@.len(),
                forall|k: int| 0 <= k < i ==> !(self.attrs@[k] is ExtCommunityList),
            decreases self.attrs@.len() - i,
        {
            match &self.attrs[i] {
                BgpAttrItem::ExtCommunityList(n) => {
                    return Some(n);
                },
                _ => {},
            }
            i = i + 1;
        }
        None
    }

    /// The next-hop attribute, if present.
    pub fn get_attr_nexthop(&self) -> (r: Option<&BgpNextHop>)
        ensures
            r matches Some(v) ==> exists|i: int|
                0 <= i < self.attrs@.len() && self.attrs@[i] == (BgpAttrItem::NextHop(*v)),
            r is None ==> forall|i: int|
                0 <= i < self.attrs@.len() ==> !(self.attrs@[i] is NextHop),
    {
        let mut i: usize = 0;
        while i < self.attrs.len()
            invariant
                i <= self.attrs@.len(),
                forall|k: int| 0 <= k < i ==> !(self.attrs@[k] is NextHop),
            decreases self.attrs@.len() - i,
        {
            match &self.attrs[i] {
                BgpAttrItem::NextHop(n) => {
                    return Some(n);
                },
                _ => {},
            }
            i = i + 1;
        }
        None
    }

    /// The multi-protocol reach attribute, if present.
    pub fn get_mpupdates(&self) -> (r: Option<&BgpMPUpdates>)
        ensures
            r matches Some(v) ==> exists|i: int|
                0 <= i < self.attrs@.len() && self.attrs@[i] == (BgpAttrItem::MPUpdates(*v)),
            r is None ==> forall|i: int|
                0 <= i < self.attrs@.len() ==> !(self.attrs@[i] is MPUpdates),
    {
        let mut i: usize = 0;
        while i < self.attrs.len()
            invariant
                i <= self.attrs@.len(),
                forall|k: int| 0 <= k < i ==> !(self.attrs@[k] is MPUpdates),
            decreases self.attrs@.len() - i,
        {
            match &self.attrs[i] {
                BgpAttrItem::MPUpdates(n) => {
                    return Some(n);
                },
                _ => {},
            }
            i = i + 1;
        }
        None
    }

    /// The multi-protocol unreach attribute, if present.
    pub fn get_mpwithdraws(&self) -> (r: Option<&BgpMPWithdraws>)
        ensures
            r matches Some(v) ==> exists|i: int|
                0 <= i < self.attrs@.len() && self.attrs@[i] == (BgpAttrItem::MPWithdraws(*v)),
            r is None ==> forall|i: int|
                0 <= i < self.attrs@.len() ==> !(self.attrs@[i] is MPWithdraws),
    {
        let mut i: usize = 0;
        while i < self.attrs.len()
            invariant
                i <= self.attrs@.len(),
                forall|k: int| 0 <= k < i ==> !(self.attrs@[k] is MPWithdraws),
            decreases self.attrs@.len() - i,
        {
            match &self.attrs[i] {
                BgpAttrItem::MPWithdraws(n) => {
                    return Some(n);
                },
                _ => {},
            }
            i = i + 1;
        }
        None
    }

    /// Decodes an UPDATE body in its strict order: the withdraw run behind
    /// its two-octet length, the attribute run behind its two-octet
    /// length, then the trailing reach run. Withdraws and reach are read
    /// as unicast of the session transport, path-id-framed when ADD-PATH
    /// receiving is in force.
    pub fn decode_from(&mut self, peer: &BgpSessionParams, buf: &[u8]) -> (r: Result<(), BgpError>)
        ensures
            r is Ok ==> wf_update(*final(self)),
            r is Ok ==> ({
                let wend = 2 + (buf@[0] as int) * 256 + (buf@[1] as int);
                let pend = wend + 2 + (buf@[wend] as int) * 256 + (buf@[wend + 1] as int);
                &&& wend + 2 <= buf@.len()
                &&& pend <= buf@.len()
                &&& addrs_run_tied(final(self).withdraws, buf@.subrange(2, wend))
                &&& addrs_run_tied(final(self).updates, buf@.subrange(pend, buf@.len() as int))
            }),
    {
        if buf.len() < 2 {
            return Err(BgpError::InsufficientBufferSize);
        }
        let wl16 = getn_u16(buf);
        proof {
            assert((((wl16 >> 8) & 0xff) as u8 as int) * 256 + ((wl16 & 0xff) as u8 as int)
                == wl16 as int) by (bit_vector);
            assert(crate::util::u16_bytes(wl16)[0] == buf@[0] && crate::util::u16_bytes(wl16)[1]
                == buf@[1]);
        }
        let withdraws_length = wl16 as usize;
        let withdraws_end = 2 + withdraws_length;
        if buf.len() <= withdraws_end {
            return Err(BgpError::InsufficientBufferSize);
        }
        let afi: u16 = match peer.peer_mode {
            BgpTransportMode::IPv4 => 1,
            BgpTransportMode::IPv6 => 2,
        };
        let wwin = slice_subrange(buf, 2, withdraws_end);
        let wap = peer.check_addpath_receive(afi, 1) || (peer.fuzzy_pathid && is_addpath_nlri(
            wwin,
        ));
        let withdraws: BgpAddrs = if afi == 1 {
            if wap {
                match decode_pathid_bgpitems_from(wwin) {
                    Ok((v, _)) => BgpAddrs::IPV4UP(v),
                    Err(e) => {
                        return Err(e);
                    },
                }
            } else {
                match decode_bgpitems_from(wwin) {
                    Ok((v, _)) => BgpAddrs::IPV4U(v),
                    Err(e) => {
                        return Err(e);
                    },
                }
            }
        } else {
            if wap {
                match decode_pathid_bgpitems_from(wwin) {
                    Ok((v, _)) => BgpAddrs::IPV6UP(v),
                    Err(e) => {
                        return Err(e);
                    },
                }
            } else {
                match decode_bgpitems_from(wwin) {
                    Ok((v, _)) => BgpAddrs::IPV6U(v),
                    Err(e) => {
                        return Err(e);
                    },
                }
            }
        };
        if buf.len() - withdraws_end < 2 {
            return Err(BgpError::InsufficientBufferSize);
        }
        let pl16 = getn_u16(slice_subrange(buf, withdraws_end, withdraws_end + 2));
        proof {
            assert((((pl16 >> 8) & 0xff) as u8 as int) * 256 + ((pl16 & 0xff) as u8 as int)
                == pl16 as int) by (bit_vector);
            assert(crate::util::u16_bytes(pl16)[0] == buf@[withdraws_end as int]
                && crate::util::u16_bytes(pl16)[1] == buf@[withdraws_end + 1]);
        }
        let pathattr_len = pl16 as usize;
        let pathattr_end = withdraws_end + 2 + pathattr_len;
        if buf.len() < pathattr_end {
            return Err(BgpError::protocol_error());
        }
        let attrs = match decode_attr_list(
            peer,
            slice_subrange(buf, withdraws_end + 2, pathattr_end),
        ) {
            Ok(a) => a,
            Err(e) => {
                return Err(e);
            },
        };
        let rwin = sub_tail(buf, pathattr_end);
        let rap = peer.check_addpath_receive(afi, 1) || (peer.fuzzy_pathid && is_addpath_nlri(
            rwin,
        ));
        let updates: BgpAddrs = if afi == 1 {
            if rap {
                match decode_pathid_bgpitems_from(rwin) {
                    Ok((v, _)) => BgpAddrs::IPV4UP(v),
                    Err(e) => {
                        return Err(e);
                    },
                }
            } else {
                match decode_bgpitems_from(rwin) {
                    Ok((v, _)) => BgpAddrs::IPV4U(v),
                    Err(e) => {
                        return Err(e);
                    },
                }
            }
        } else {
            if rap {
                match decode_pathid_bgpitems_from(rwin) {
                    Ok((v, _)) => BgpAddrs::IPV6UP(v),
                    Err(e) => {
                        return Err(e);
                    },
                }
            } else {
                match decode_bgpitems_from(rwin) {
                    Ok((v, _)) => BgpAddrs::IPV6U(v),
                    Err(e) => {
                        return Err(e);
                    },
                }
            }
        };
        self.withdraws = withdraws;
        self.attrs = attrs;
        self.updates = updates;
        Ok(())
    }

    /// Encodes an UPDATE body: the withdraw run behind its two-octet
    /// length, the attribute run behind its two-octet length, then the
    /// trailing reach run.
    /// Only unicast of the session transport may stand in the withdraw and
    /// reach positions; anything else encodes as empty.
    #[verifier::rlimit(100)]
    pub fn encode_to(&self, peer: &BgpSessionParams, buf: &mut Vec<u8>) -> (r: Result<
        usize,
        BgpError,
    >)
        requires
            wf_update(*self),
        ensures
            r matches Ok(n) ==> grew_by(old(buf)@, final(buf)@, n as int) && (exists|al: int|
                #![trigger crate::util::u16_bytes(al as u16)]
                {
                    let b = old(buf)@.len() as int;
                    let wb = upd_run_bytes(peer.peer_mode, self.withdraws);
                    let rb = upd_run_bytes(peer.peer_mode, self.updates);
                    &&& 0 <= al <= 65535
                    &&& wb.len() <= 65535
                    &&& n == 4 + wb.len() + al + rb.len()
                    &&& final(buf)@.subrange(b, b + 2) == crate::util::u16_bytes(
                        wb.len() as u16,
                    )
                    &&& final(buf)@.subrange(b + 2, b + 2 + wb.len() as int) == wb
                    &&& final(buf)@.subrange(
                        b + 2 + wb.len() as int,
                        b + 4 + wb.len() as int,
                    ) == crate::util::u16_bytes(al as u16)
                    &&& final(buf)@.subrange(b + 4 + wb.len() as int + al, b + n) == rb
                }),
    {
        proof {
            assert(old(buf)@.subrange(0, old(buf)@.len() as int) =~= old(buf)@);
        }
        let wlenpos = buf.len();
        buf.push(0);
        buf.push(0);
        let ghost mid0 = buf@;
        let wlen: usize = match (&peer.peer_mode, &self.withdraws) {
            (BgpTransportMode::IPv4, BgpAddrs::IPV4U(w)) => {
                match encode_bgpitems_to(w, buf) {
                    Ok(n) => n,
                    Err(e) => {
                        return Err(e);
                    },
                }
            },
            (BgpTransportMode::IPv4, BgpAddrs::IPV4UP(w)) => {
                match encode_pathid_bgpitems_to(w, buf) {
                    Ok(n) => n,
                    Err(e) => {
                        return Err(e);
                    },
                }
            },
            (BgpTransportMode::IPv6, BgpAddrs::IPV6U(w)) => {
                match encode_bgpitems_to(w, buf) {
                    Ok(n) => n,
                    Err(e) => {
                        return Err(e);
                    },
                }
            },
            (BgpTransportMode::IPv6, BgpAddrs::IPV6UP(w)) => {
                match encode_pathid_bgpitems_to(w, buf) {
                    Ok(n) => n,
                    Err(e) => {
                        return Err(e);
                    },
                }
            },
            _ => { 0 },
        };
        proof {
            assert(buf@ =~= mid0 + upd_run_bytes(peer.peer_mode, self.withdraws));
            assert(wlen == upd_run_bytes(peer.peer_mode, self.withdraws).len());
        }
        if wlen > 65535 {
            return Err(BgpError::too_many_data());
        }
        let blen0 = buf.len();
        proof {
            assert(wlenpos + 2 <= blen0);
        }
        let wv: u16 = wlen as u16;
        buf.set(wlenpos, ((wv >> 8) & 0xff) as u8);
        buf.set(wlenpos + 1, (wv & 0xff) as u8);
        let ghost wset = buf@;
        let alenpos = buf.len();
        buf.push(0);
        buf.push(0);
        let ghost mid1 = buf@;
        let mut alen: usize = 0;
        let mut i: usize = 0;
        while i < self.attrs.len()
            invariant
                i <= self.attrs@.len(),
                forall|k: int| 0 <= k < self.attrs@.len() ==> #[trigger] wf_attr(self.attrs@[k]),
                buf@.len() == mid1.len() + alen,
                buf@.subrange(0, mid1.len() as int) == mid1,
            decreases self.attrs@.len() - i,
        {
            let ghost pre = buf@;
            match self.attrs[i].encode_to(peer, buf) {
                Ok(n) => {
                    let blen = buf.len();
                    proof {
                        assert(alen + n <= blen);
                        assert forall|j: int| 0 <= j < mid1.len() implies buf@[j] == mid1[j] by {
                            assert(buf@.subrange(0, pre.len() as int)[j] == pre[j]);
                            assert(pre.subrange(0, mid1.len() as int)[j] == mid1[j]);
                        }
                        assert(buf@.subrange(0, mid1.len() as int) =~= mid1);
                    }
                    alen = alen + n;
                },
                Err(e) => {
                    return Err(e);
                },
            }
            i = i + 1;
        }
        if alen > 65535 {
            return Err(BgpError::static_str("Invalid path attribute length"));
        }
        let blen1 = buf.len();
        proof {
            assert(alenpos + 2 <= blen1);
        }
        let av: u16 = alen as u16;
        buf.set(alenpos, ((av >> 8) & 0xff) as u8);
        buf.set(alenpos + 1, (av & 0xff) as u8);
        let ghost mid2 = buf@;
        let rlen: usize = match (&peer.peer_mode, &self.updates) {
            (BgpTransportMode::IPv4, BgpAddrs::IPV4U(u)) => {
                match encode_bgpitems_to(u, buf) {
                    Ok(n) => n,
                    Err(e) => {
                        return Err(e);
                    },
                }
            },
            (BgpTransportMode::IPv4, BgpAddrs::IPV4UP(u)) => {
                match encode_pathid_bgpitems_to(u, buf) {
                    Ok(n) => n,
                    Err(e) => {
                        return Err(e);
                    },
                }
            },
            (BgpTransportMode::IPv6, BgpAddrs::IPV6U(u)) => {
                match encode_bgpitems_to(u, buf) {
                    Ok(n) => n,
                    Err(e) => {
                        return Err(e);
                    },
                }
            },
            (BgpTransportMode::IPv6, BgpAddrs::IPV6UP(u)) => {
                match encode_pathid_bgpitems_to(u, buf) {
                    Ok(n) => n,
                    Err(e) => {
                        return Err(e);
                    },
                }
            },
            _ => { 0 },
        };
        let blen = buf.len();
        proof {
            assert(blen == old(buf)@.len() + 2 + wlen + 2 + alen + rlen);
            assert forall|j: int| 0 <= j < old(buf)@.len() implies final(buf)@[j] == old(
                buf,
            )@[j] by {
                assert(final(buf)@.subrange(0, mid2.len() as int)[j] == mid2[j]);
                assert(mid2.subrange(0, mid1.len() as int)[j] == mid1[j]);
                assert(mid1.subrange(0, mid0.len() as int)[j] == mid0[j]);
            }
            assert(final(buf)@.subrange(0, old(buf)@.len() as int) =~= old(buf)@);
            let b = old(buf)@.len() as int;
            let wb = upd_run_bytes(peer.peer_mode, self.withdraws);
            let rb = upd_run_bytes(peer.peer_mode, self.updates);
            assert(final(buf)@ =~= mid2 + rb);
            assert(rlen == rb.len());
            // the first length field and the withdraw block survive the
            // later writes, which all land at or after the attribute-length
            // slot
            assert forall|j: int| b <= j < b + 2 + wb.len() implies final(buf)@[j] == wset[j] by {
                assert(final(buf)@[j] == mid2[j]);
                assert(mid2[j] == mid1[j]);
                assert(mid1[j] == wset[j]);
            }
            assert(wv == wb.len() as u16);
            assert(wset[b] == ((wv >> 8) & 0xff) as u8);
            assert(wset[b + 1] == (wv & 0xff) as u8);
            assert(final(buf)@.subrange(b, b + 2) =~= crate::util::u16_bytes(wb.len() as u16));
            assert forall|k: int| 0 <= k < wb.len() implies final(buf)@[b + 2 + k] == wb[k] by {
                assert(final(buf)@[b + 2 + k] == wset[b + 2 + k]);
                assert(wset[b + 2 + k] == (mid0 + wb)[b + 2 + k]);
            }
            assert(final(buf)@.subrange(b + 2, b + 2 + wb.len() as int) =~= wb);
            assert(final(buf)@[b + 2 + wb.len()] == mid2[b + 2 + wb.len()]);
            assert(final(buf)@[b + 3 + wb.len()] == mid2[b + 3 + wb.len()]);
            assert(final(buf)@.subrange(
                b + 2 + wb.len() as int,
                b + 4 + wb.len() as int,
            ) =~= crate::util::u16_bytes(alen as u16));
            assert(final(buf)@.subrange(b + 4 + wb.len() as int + alen, blen as int) =~= rb);
            assert(crate::util::u16_bytes(alen as u16) == crate::util::u16_bytes(alen as u16));
        }
        Ok(2 + wlen + 2 + alen + rlen)
    }
}

} // verus!
