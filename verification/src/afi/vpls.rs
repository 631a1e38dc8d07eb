//! NLRI data structures for VPLS.

use crate::afi::{
    grew_by, labels_encode_raw, labels_extract, rd_bytes, sub_tail, wf_labels_core, BgpAddrItem,
    BgpItemLong, BgpRD, MplsLabels,
};
use crate::error::BgpError;
use crate::util::{getn_u16, push_u16, u16_bytes};
use crate::BgpTransportMode;
use vstd::prelude::*;

verus! {

/// A VPLS NLRI: route distinguisher, site id, label-block offset and range,
/// and the label base stack, inside a two-octet length envelope.
#[derive(Debug, Clone, PartialEq, Eq)]
pub struct BgpAddrL2 {
    pub rd: BgpRD,
    pub site: u16,
    pub offset: u16,
    pub range: u16,
    pub labels: MplsLabels,
}

impl BgpItemLong for BgpAddrL2 {
    open spec fn wf(&self) -> bool {
        wf_labels_core(self.labels.labels@)
    }

    fn extract_from(size: usize, buf: &[u8]) -> (r: Result<BgpAddrL2, BgpError>) {
        if size < 17 {
            return Err(BgpError::static_str("Invalid FEC length for BgpAddrL2"));
        }
        let (srd, _) = match BgpRD::decode_rd_from(buf) {
            Ok(p) => p,
            Err(e) => {
                return Err(e);
            },
        };
        let site = getn_u16(sub_tail(buf, 8));
        let offset = getn_u16(sub_tail(buf, 10));
        let range = getn_u16(sub_tail(buf, 12));
        let rem = size - 14;
        let bits: u32 = if rem >= 0x10000000 {
            0xffffffff
        } else {
            (rem * 8) as u32
        };
        let (lbls, _) = match labels_extract(bits, sub_tail(buf, 14)) {
            Ok(p) => p,
            Err(e) => {
                return Err(e);
            },
        };
        proof {
            crate::afi::lemma_labels_dec_bounds(
                bits as int,
                buf@.subrange(14, buf@.len() as int),
            );
        }
        Ok(BgpAddrL2 { rd: srd, site, offset, range, labels: MplsLabels { labels: lbls } })
    }

    fn pack_to(&self, buf: &mut Vec<u8>) -> (r: Result<usize, BgpError>) {
        proof {
            assert(old(buf)@.subrange(0, old(buf)@.len() as int) =~= old(buf)@);
        }
        let _ = match self.rd.encode_rd_to(buf) {
            Ok(n) => n,
            Err(e) => {
                return Err(e);
            },
        };
        push_u16(buf, self.site);
        push_u16(buf, self.offset);
        push_u16(buf, self.range);
        if self.labels.labels.len() > 21840 {
            return Err(BgpError::too_many_data());
        }
        let lr = labels_encode_raw(&self.labels.labels, buf);
        proof {
            assert(final(buf)@.subrange(0, old(buf)@.len() as int) =~= old(buf)@);
        }
        Ok(lr + 14)
    }
}

/// Wire image of a VPLS layer-2 endpoint: the route distinguisher, then
/// site, offset and range.
pub open spec fn l2_bytes(v: BgpL2) -> Seq<u8> {
    rd_bytes(v.rd) + u16_bytes(v.site) + u16_bytes(v.offset) + u16_bytes(v.range)
}

/// A VPLS endpoint without a label block: route distinguisher, site id,
/// offset and range.
#[derive(Debug, Clone, Copy, PartialEq, Eq, Structural, PartialOrd, Ord, Hash)]
pub struct BgpL2 {
    pub rd: BgpRD,
    pub site: u16,
    pub offset: u16,
    pub range: u16,
}

impl BgpL2 {
    /// Builds a VPLS endpoint.
    pub fn new(srd: BgpRD, st: u16, ofs: u16, rng: u16) -> (r: BgpL2)
        ensures
            r == (BgpL2 { rd: srd, site: st, offset: ofs, range: rng }),
    {
        BgpL2 { rd: srd, site: st, offset: ofs, range: rng }
    }
}

impl BgpAddrItem for BgpL2 {
    open spec fn wf(&self) -> bool {
        true
    }

    fn decode_from(mode: BgpTransportMode, buf: &[u8]) -> (r: Result<(BgpL2, usize), BgpError>)
        ensures
            buf@.len() >= 14 ==> (r matches Ok((v, n)) && n == 14 && l2_bytes(v) == buf@.subrange(
                0,
                14,
            )),
    {
        if buf.len() >= 14 {
            let (rd, _) = match BgpRD::decode_rd_from(buf) {
                Ok(p) => p,
                Err(e) => {
                    return Err(e);
                },
            };
            let site = getn_u16(sub_tail(buf, 8));
            let offset = getn_u16(sub_tail(buf, 10));
            let range = getn_u16(sub_tail(buf, 12));
            let v = BgpL2 { rd, site, offset, range };
            proof {
                assert(l2_bytes(v) =~= buf@.subrange(0, 14));
            }
            Ok((v, 14))
        } else {
            Err(BgpError::static_str("Invalid BgpL2 buffer len"))
        }
    }

    fn encode_to(&self, mode: BgpTransportMode, buf: &mut Vec<u8>) -> (r: Result<usize, BgpError>)
        ensures
            r matches Ok(n) && n == 14,
            final(buf)@ == old(buf)@ + l2_bytes(*self),
    {
        let _ = match self.rd.encode_rd_to(buf) {
            Ok(n) => n,
            Err(e) => {
                return Err(e);
            },
        };
        push_u16(buf, self.site);
        push_u16(buf, self.offset);
        push_u16(buf, self.range);
        proof {
            assert(final(buf)@ =~= old(buf)@ + l2_bytes(*self));
            assert(final(buf)@.subrange(0, old(buf)@.len() as int) =~= old(buf)@);
        }
        Ok(14)
    }
}

} // verus!
