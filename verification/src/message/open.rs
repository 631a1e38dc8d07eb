//! The BGP OPEN message: version, AS, hold time, router id and the
//! capability set inside optional parameters of type two.

use crate::afi::grew_by;
use crate::error::BgpError;
use crate::util::{getn_u16, getn_u32, push_u16, Ipv4Addr};
use crate::{wf_cap, BgpCapability, BgpSessionParams};
use vstd::prelude::*;
use vstd::slice::slice_subrange;

verus! {

/// A BGP OPEN message.
#[derive(Debug)]
pub struct BgpOpenMessage {
    /// autonomous system number
    pub as_num: u32,
    /// hold time in seconds
    pub hold_time: u16,
    /// router id
    pub router_id: Ipv4Addr,
    /// capability set
    pub caps: Vec<BgpCapability>,
}

/// An OPEN the encoder accepts: every capability is well formed and they
/// all fit the one-octet optional-parameters length.
pub open spec fn wf_open(m: BgpOpenMessage) -> bool {
    forall|i: int| 0 <= i < m.caps@.len() ==> #[trigger] wf_cap(m.caps@[i])
}

impl BgpOpenMessage {
    /// Builds an empty OPEN.
    pub fn new() -> (r: BgpOpenMessage)
        ensures
            r.as_num == 0,
            r.hold_time == 180,
            r.caps@ == Seq::<BgpCapability>::empty(),
            wf_open(r),
    {
        BgpOpenMessage {
            as_num: 0,
            hold_time: 180,
            router_id: Ipv4Addr { value: 0x7f000001 },
            caps: Vec::new(),
        }
    }

    /// Decodes an OPEN body: the version must be four; capabilities are
    /// collected from the optional parameters, unknown ones dropped.
    pub fn decode_from(&mut self, peer: &BgpSessionParams, buf: &[u8]) -> (r: Result<(), BgpError>)
        ensures
            r is Ok ==> wf_open(*final(self)),
            r is Ok ==> final(self).as_num < 0x10000 && crate::util::u16_bytes(
                final(self).as_num as u16,
            ) == buf@.subrange(1, 3) && crate::util::u16_bytes(final(self).hold_time)
                == buf@.subrange(3, 5) && crate::util::u32_bytes(final(self).router_id.value)
                == buf@.subrange(5, 9),
            buf@.len() < 10 ==> (r matches Err(e) && e is InsufficientBufferSize),
            buf@.len() >= 10 && buf@[0] != 4 ==> r is Err,
        decreases buf@.len(),
    {
        if buf.len() < 10 {
            return Err(BgpError::InsufficientBufferSize);
        }
        if buf[0] != 4 {
            return Err(BgpError::static_str("Invalid BGP version <> 4"));
        }
        let as16 = getn_u16(slice_subrange(buf, 1, 3));
        let hold = getn_u16(slice_subrange(buf, 3, 5));
        let rid = getn_u32(slice_subrange(buf, 5, 9));
        let mut caps: Vec<BgpCapability> = Vec::new();
        let mut pos: usize = 10;
        while pos < buf.len() && buf.len() - pos >= 2
            invariant
                10 <= pos <= buf@.len(),
                forall|i: int| 0 <= i < caps@.len() ==> #[trigger] wf_cap(caps@[i]),
            decreases buf@.len() - pos,
        {
            if buf[pos] != 2 {
                return Err(BgpError::static_str("Invalid optional parameter in BGP open message"));
            }
            let mut optlen = buf[pos + 1] as usize;
            pos = pos + 2;
            let ghost pos_entry = pos as int;
            while optlen > 0
                invariant
                    10 <= pos <= buf@.len(),
                    pos >= pos_entry,
                    forall|i: int| 0 <= i < caps@.len() ==> #[trigger] wf_cap(caps@[i]),
                decreases optlen,
            {
                if buf.len() - pos < optlen {
                    return Err(BgpError::InsufficientBufferSize);
                }
                let (res, used) = match BgpCapability::from_buffer(
                    slice_subrange(buf, pos, pos + optlen),
                ) {
                    Ok(p) => p,
                    Err(e) => {
                        return Err(e);
                    },
                };
                if used > optlen {
                    return Err(BgpError::protocol_error());
                }
                optlen = optlen - used;
                pos = pos + used;
                match res {
                    Ok(cap) => {
                        caps.push(cap);
                    },
                    Err(_) => {},
                }
            }
        }
        self.as_num = as16 as u32;
        self.hold_time = hold;
        self.router_id = Ipv4Addr { value: rid };
        self.caps = caps;
        Ok(())
    }

    /// Encodes an OPEN body: version four, the AS in its legacy two-octet
    /// field with 23456 standing in for a wide AS, hold time, router id,
    /// then one optional parameter of type two per capability.
    pub fn encode_to(&self, peer: &BgpSessionParams, buf: &mut Vec<u8>) -> (r: Result<
        usize,
        BgpError,
    >)
        requires
            wf_open(*self),
        ensures
            r matches Ok(n) ==> grew_by(old(buf)@, final(buf)@, n as int) && n >= 10 && ({
                let b = old(buf)@.len() as int;
                &&& final(buf)@[b] == 4u8
                &&& final(buf)@.subrange(b + 1, b + 3) == crate::util::u16_bytes(
                    if self.as_num < 65536 {
                        self.as_num as u16
                    } else {
                        23456u16
                    },
                )
                &&& final(buf)@.subrange(b + 3, b + 5) == crate::util::u16_bytes(self.hold_time)
                &&& final(buf)@.subrange(b + 5, b + 9) == crate::util::u32_bytes(self.router_id.value)
            }),
    {
        proof {
            assert(old(buf)@.subrange(0, old(buf)@.len() as int) =~= old(buf)@);
        }
        buf.push(4);
        let as16: u16 = if self.as_num < 65536 {
            self.as_num as u16
        } else {
            23456
        };
        push_u16(buf, as16);
        push_u16(buf, self.hold_time);
        crate::util::push_u32(buf, self.router_id.value);
        let lenpos = buf.len();
        buf.push(0);
        let ghost mid = buf@;
        proof {
            let b = old(buf)@.len() as int;
            assert(mid[b] == 4u8);
            assert(mid.subrange(b + 1, b + 3) =~= crate::util::u16_bytes(as16));
            assert(mid.subrange(b + 3, b + 5) =~= crate::util::u16_bytes(self.hold_time));
            assert(mid.subrange(b + 5, b + 9) =~= crate::util::u32_bytes(self.router_id.value));
        }
        let mut caplen: usize = 0;
        let mut i: usize = 0;
        while i < self.caps.len()
            invariant
                i <= self.caps@.len(),
                forall|k: int| 0 <= k < self.caps@.len() ==> #[trigger] wf_cap(self.caps@[k]),
                buf@.len() == mid.len() + caplen,
                buf@.subrange(0, mid.len() as int) == mid,
            decreases self.caps@.len() - i,
        {
            let ghost pre = buf@;
            let cl = self.caps[i].bytes_len();
            if cl > 255 {
                return Err(BgpError::too_many_data());
            }
            buf.push(2);
            buf.push(cl as u8);
            match self.caps[i].fill_buffer(buf) {
                Ok(_) => {},
                Err(e) => {
                    return Err(e);
                },
            }
            let blen = buf.len();
            proof {
                assert(blen == pre.len() + 2 + cl);
                assert(caplen + 2 + cl <= blen);
                assert forall|j: int| 0 <= j < mid.len() implies buf@[j] == mid[j] by {
                    assert(buf@.subrange(0, pre.len() as int)[j] == pre[j]);
                    assert(pre.subrange(0, mid.len() as int)[j] == mid[j]);
                }
                assert(buf@.subrange(0, mid.len() as int) =~= mid);
            }
            caplen = caplen + 2 + cl;
            i = i + 1;
        }
        if caplen > 255 {
            return Err(BgpError::too_many_data());
        }
        buf.set(lenpos, caplen as u8);
        proof {
            assert forall|j: int| 0 <= j < old(buf)@.len() implies final(buf)@[j] == old(
                buf,
            )@[j] by {
                assert(mid.subrange(0, old(buf)@.len() as int)[j] == old(buf)@[j]);
            }
            assert(final(buf)@.subrange(0, old(buf)@.len() as int) =~= old(buf)@);
            let b = old(buf)@.len() as int;
            assert forall|j: int| b <= j < b + 9 implies final(buf)@[j] == mid[j] by {
                assert(final(buf)@.subrange(0, mid.len() as int)[j] == mid[j]);
            }
            assert(final(buf)@.subrange(b + 1, b + 3) =~= mid.subrange(b + 1, b + 3));
            assert(final(buf)@.subrange(b + 3, b + 5) =~= mid.subrange(b + 3, b + 5));
            assert(final(buf)@.subrange(b + 5, b + 9) =~= mid.subrange(b + 5, b + 9));
        }
        Ok(10 + caplen)
    }
}

impl BgpSessionParams {
    /// Builds the OPEN message that advertises these session parameters.
    pub fn open_message(&self) -> (r: BgpOpenMessage)
        ensures
            r.as_num == self.as_num,
            r.hold_time == self.hold_time,
            r.router_id == self.router_id,
            r.caps@.len() == self.caps@.len(),
            forall|k: int|
                0 <= k < self.caps@.len() ==> #[trigger] crate::cap_eq(r.caps@[k], self.caps@[k]),
            (forall|i: int| 0 <= i < self.caps@.len() ==> #[trigger] wf_cap(self.caps@[i]))
                ==> wf_open(r),
    {
        let mut caps: Vec<BgpCapability> = Vec::new();
        let mut i: usize = 0;
        while i < self.caps.len()
            invariant
                i <= self.caps@.len(),
                caps@.len() == i,
                forall|k: int|
                    0 <= k < i ==> #[trigger] crate::cap_eq(caps@[k], self.caps@[k]),
            decreases self.caps@.len() - i,
        {
            let c = crate::cap_dup(&self.caps[i]);
            caps.push(c);
            i = i + 1;
        }
        proof {
            assert forall|k: int|
                0 <= k < caps@.len() && (forall|m: int|
                    0 <= m < self.caps@.len() ==> #[trigger] wf_cap(self.caps@[m])) implies wf_cap(
                caps@[k],
            ) by {
                crate::lemma_cap_eq_wf(caps@[k], self.caps@[k]);
            }
        }
        BgpOpenMessage {
            as_num: self.as_num,
            hold_time: self.hold_time,
            router_id: self.router_id,
            caps,
        }
    }

    /// Builds session parameters from a received OPEN: the transport
    /// defaults to IPv4 and the path-id heuristic is off; the four-octet
    /// AS capability, when present, supplies the effective AS.
    pub fn from_open(bom: &BgpOpenMessage) -> (r: BgpSessionParams)
        ensures
            r.hold_time == bom.hold_time,
            r.router_id == bom.router_id,
            !r.fuzzy_pathid,
    {
        let mut caps: Vec<BgpCapability> = Vec::new();
        let mut i: usize = 0;
        while i < bom.caps.len()
            invariant
                i <= bom.caps@.len(),
            decreases bom.caps@.len() - i,
        {
            caps.push(crate::cap_dup(&bom.caps[i]));
            i = i + 1;
        }
        let mut ret = BgpSessionParams {
            as_num: bom.as_num,
            hold_time: bom.hold_time,
            peer_mode: crate::BgpTransportMode::IPv4,
            has_as32bit: true,
            router_id: bom.router_id,
            caps,
            fuzzy_pathid: false,
        };
        ret.check_caps();
        ret
    }
}

} // verus!
