//! NLRI data structures for FlowSpec.

use crate::afi::ipv4::BgpAddrV4;
use crate::afi::ipv6::BgpAddrV6;
use crate::afi::{grew_by, prefix_octets, sub_tail, BgpAddrItem, BgpItem, BgpRD, WithRd};
use crate::error::BgpError;
use crate::util::{getn_u16, getn_u32, push_u16, push_u32};
use crate::BgpTransportMode;
use vstd::prelude::*;
use vstd::slice::slice_subrange;

verus! {

/// A prefix item of a FlowSpec component.
pub trait FSItem: Sized {
    /// Values the encoder accepts.
    spec fn wf(&self) -> bool;

    /// Bytes the item takes, its own length framing included.
    spec fn store_size(&self) -> int;

    /// Reads one item from the head of the buffer.
    fn decode_from_fs(buf: &[u8]) -> (r: Result<(Self, usize), BgpError>)
        ensures
            r matches Ok((v, n)) ==> v.wf() && 1 <= n <= buf@.len() && n == v.store_size(),
    ;

    /// Appends one item; it always succeeds.
    fn encode_to_fs(&self, buf: &mut Vec<u8>) -> (r: Result<usize, BgpError>)
        requires
            self.wf(),
        ensures
            r matches Ok(n) && grew_by(old(buf)@, final(buf)@, n as int) && n
                == self.store_size(),
    ;

    /// Bytes the item takes when encoded.
    fn get_store_size(&self) -> (r: usize)
        requires
            self.wf(),
        ensures
            r == self.store_size(),
    ;

    /// The declared prefix bit length of the item.
    fn prefixlen(&self) -> usize;
}

impl FSItem for BgpAddrV4 {
    open spec fn wf(&self) -> bool {
        BgpAddrV4::wf(*self)
    }

    open spec fn store_size(&self) -> int {
        1 + prefix_octets(self.prefixlen as int)
    }

    fn decode_from_fs(buf: &[u8]) -> (r: Result<(BgpAddrV4, usize), BgpError>) {
        if buf.len() < 1 {
            return Err(BgpError::insufficient_buffer_size());
        }
        let bits = buf[0];
        match BgpAddrV4::from_bits(bits, sub_tail(buf, 1)) {
            Ok((v, n)) => {
                proof {
                    BgpAddrV4::lemma_dec_ok(bits as int, buf@.subrange(1, buf@.len() as int));
                }
                Ok((v, n + 1))
            },
            Err(e) => Err(e),
        }
    }

    fn encode_to_fs(&self, buf: &mut Vec<u8>) -> (r: Result<usize, BgpError>) {
        buf.push(self.prefixlen);
        match self.to_bits(buf) {
            Ok((_, n)) => {
                proof {
                    assert(final(buf)@.subrange(0, old(buf)@.len() as int) =~= old(buf)@);
                }
                Ok(n + 1)
            },
            Err(e) => Err(e),
        }
    }

    fn get_store_size(&self) -> (r: usize) {
        1 + ((self.prefixlen as usize) + 7) / 8
    }

    fn prefixlen(&self) -> usize {
        self.prefixlen as usize
    }
}

/// A FlowSpec IPv6 prefix item: a prefix and the bit offset it starts at.
#[derive(Debug, Clone, Copy, PartialEq, Eq, Structural, PartialOrd, Ord, Hash)]
pub struct FS6 {
    pub ipv6: BgpAddrV6,
    pub offset: u8,
}

impl FS6 {
    /// Pairs a prefix with its bit offset.
    pub fn new(ofs: u8, v6: BgpAddrV6) -> (r: FS6)
        ensures
            r == (FS6 { ipv6: v6, offset: ofs }),
    {
        FS6 { ipv6: v6, offset: ofs }
    }
}

impl FSItem for FS6 {
    open spec fn wf(&self) -> bool {
        BgpAddrV6::wf(self.ipv6)
    }

    open spec fn store_size(&self) -> int {
        2 + prefix_octets(self.ipv6.prefixlen as int)
    }

    fn decode_from_fs(buf: &[u8]) -> (r: Result<(FS6, usize), BgpError>) {
        if buf.len() < 2 {
            return Err(BgpError::insufficient_buffer_size());
        }
        let bits = buf[0];
        let offset = buf[1];
        match BgpAddrV6::from_bits(bits, sub_tail(buf, 2)) {
            Ok((v, n)) => {
                proof {
                    BgpAddrV6::lemma_dec_ok(bits as int, buf@.subrange(2, buf@.len() as int));
                }
                Ok((FS6 { ipv6: v, offset }, n + 2))
            },
            Err(e) => Err(e),
        }
    }

    fn encode_to_fs(&self, buf: &mut Vec<u8>) -> (r: Result<usize, BgpError>) {
        buf.push(self.ipv6.prefixlen);
        buf.push(self.offset);
        match self.ipv6.to_bits(buf) {
            Ok((_, n)) => {
                proof {
                    assert(final(buf)@.subrange(0, old(buf)@.len() as int) =~= old(buf)@);
                }
                Ok(n + 2)
            },
            Err(e) => Err(e),
        }
    }

    fn get_store_size(&self) -> (r: usize) {
        2 + ((self.ipv6.prefixlen as usize) + 7) / 8
    }

    fn prefixlen(&self) -> usize {
        self.ipv6.prefixlen as usize
    }
}

/// A VPNv4 FlowSpec prefix item: an RD-qualified IPv4 prefix.
#[derive(Debug, Clone, PartialEq, Eq)]
pub struct FSV4U {
    pub prefix: WithRd<BgpAddrV4>,
}

impl FSV4U {
    /// Wraps an RD-qualified prefix.
    pub fn new(p: WithRd<BgpAddrV4>) -> (r: FSV4U)
        ensures
            r.prefix == p,
    {
        FSV4U { prefix: p }
    }
}

impl FSItem for FSV4U {
    open spec fn wf(&self) -> bool {
        BgpAddrV4::wf(self.prefix.prefix)
    }

    open spec fn store_size(&self) -> int {
        9 + prefix_octets(self.prefix.prefix.prefixlen as int)
    }

    fn decode_from_fs(buf: &[u8]) -> (r: Result<(FSV4U, usize), BgpError>) {
        if buf.len() < 9 {
            return Err(BgpError::insufficient_buffer_size());
        }
        let bits = buf[0];
        if bits < 64 {
            return Err(BgpError::static_str("Invalid VPNv4 FlowSpec prefix length"));
        }
        let (rd, _) = match BgpRD::decode_rd_from(sub_tail(buf, 1)) {
            Ok(p) => p,
            Err(e) => {
                return Err(e);
            },
        };
        match BgpAddrV4::from_bits(bits - 64, sub_tail(buf, 9)) {
            Ok((v, n)) => {
                proof {
                    BgpAddrV4::lemma_dec_ok(
                        (bits - 64) as int,
                        buf@.subrange(9, buf@.len() as int),
                    );
                }
                Ok((FSV4U { prefix: WithRd { rd, prefix: v } }, n + 9))
            },
            Err(e) => Err(e),
        }
    }

    fn encode_to_fs(&self, buf: &mut Vec<u8>) -> (r: Result<usize, BgpError>) {
        buf.push(64 + self.prefix.prefix.prefixlen);
        let _ = match self.prefix.rd.encode_rd_to(buf) {
            Ok(n) => n,
            Err(e) => {
                return Err(e);
            },
        };
        match self.prefix.prefix.to_bits(buf) {
            Ok((_, n)) => {
                proof {
                    assert(final(buf)@.subrange(0, old(buf)@.len() as int) =~= old(buf)@);
                }
                Ok(n + 9)
            },
            Err(e) => Err(e),
        }
    }

    fn get_store_size(&self) -> (r: usize) {
        9 + ((self.prefix.prefix.prefixlen as usize) + 7) / 8
    }

    fn prefixlen(&self) -> usize {
        (self.prefix.prefix.prefixlen as usize) + 64
    }
}

/// An operator item of a numeric or bitmask FlowSpec component.
pub trait FSOperItem: Sized {
    /// Bytes the item takes: an operator byte and one, two or four value
    /// octets.
    spec fn oplen(&self) -> int;

    /// Reads one operator item.
    fn decode_from(buf: &[u8]) -> (r: Result<(Self, usize), BgpError>)
        ensures
            r matches Ok((v, n)) ==> 2 <= n <= buf@.len(),
    ;

    /// Appends one operator item, with the end-of-list bit clear; it always
    /// succeeds.
    fn encode_to(&self, buf: &mut Vec<u8>) -> (r: Result<usize, BgpError>)
        ensures
            r matches Ok(n) && grew_by(old(buf)@, final(buf)@, n as int) && n == self.oplen() && n
                >= 2,
    ;

    /// Bytes the item takes when encoded.
    fn getbyteslen(&self) -> (r: usize)
        ensures
            r == self.oplen() && 2 <= r <= 5,
    ;

    /// Every operator item takes two to five bytes.
    proof fn lemma_oplen_bounds(&self)
        ensures
            2 <= self.oplen() <= 5,
    ;
}

/// A numeric comparison item: and/or chaining, the comparison bits, the
/// value.
#[derive(Debug, Clone, Copy, PartialEq, Eq, Structural, PartialOrd, Ord, Hash)]
pub struct FSOperValItem {
    pub and_bit: bool,
    pub lt_cmp: bool,
    pub gt_cmp: bool,
    pub eq_cmp: bool,
    pub value: u32,
}

impl FSOperValItem {
    /// Builds a comparison item.
    pub fn new(v: u32, b_and: bool, b_lt: bool, b_gt: bool, b_eq: bool) -> (r: FSOperValItem)
        ensures
            r == (FSOperValItem {
                and_bit: b_and,
                lt_cmp: b_lt,
                gt_cmp: b_gt,
                eq_cmp: b_eq,
                value: v,
            }),
    {
        FSOperValItem { and_bit: b_and, lt_cmp: b_lt, gt_cmp: b_gt, eq_cmp: b_eq, value: v }
    }
}

impl FSOperItem for FSOperValItem {
    open spec fn oplen(&self) -> int {
        if self.value > 0xffff {
            5
        } else if self.value > 0xff {
            3
        } else {
            2
        }
    }

    fn decode_from(buf: &[u8]) -> (r: Result<(FSOperValItem, usize), BgpError>) {
        if buf.len() < 2 {
            return Err(BgpError::insufficient_buffer_size());
        }
        let op = buf[0];
        let lncode = (op >> 4) & 0x3;
        let (vl, lng): (u32, usize) = if lncode == 0 {
            (buf[1] as u32, 2)
        } else if lncode == 1 {
            if buf.len() < 3 {
                return Err(BgpError::insufficient_buffer_size());
            }
            (getn_u16(sub_tail(buf, 1)) as u32, 3)
        } else if lncode == 2 {
            if buf.len() < 5 {
                return Err(BgpError::insufficient_buffer_size());
            }
            (getn_u32(sub_tail(buf, 1)), 5)
        } else {
            return Err(BgpError::static_str("Invalid FlowSpec operator value length"));
        };
        Ok(
            (
                FSOperValItem {
                    and_bit: (op & 64) != 0,
                    lt_cmp: (op & 4) != 0,
                    gt_cmp: (op & 2) != 0,
                    eq_cmp: (op & 1) != 0,
                    value: vl,
                },
                lng,
            ),
        )
    }

    fn encode_to(&self, buf: &mut Vec<u8>) -> (r: Result<usize, BgpError>) {
        let mut opbyte: u8 = 0;
        if self.and_bit {
            opbyte = opbyte | 64;
        }
        if self.lt_cmp {
            opbyte = opbyte | 4;
        }
        if self.gt_cmp {
            opbyte = opbyte | 2;
        }
        if self.eq_cmp {
            opbyte = opbyte | 1;
        }
        if self.value > 0xffff {
            buf.push(opbyte | 32);
            push_u32(buf, self.value);
            proof {
                assert(final(buf)@.subrange(0, old(buf)@.len() as int) =~= old(buf)@);
            }
            Ok(5)
        } else if self.value > 0xff {
            buf.push(opbyte | 16);
            push_u16(buf, self.value as u16);
            proof {
                assert(final(buf)@.subrange(0, old(buf)@.len() as int) =~= old(buf)@);
            }
            Ok(3)
        } else {
            buf.push(opbyte);
            buf.push(self.value as u8);
            proof {
                assert(final(buf)@.subrange(0, old(buf)@.len() as int) =~= old(buf)@);
            }
            Ok(2)
        }
    }

    fn getbyteslen(&self) -> (r: usize) {
        if self.value > 0xffff {
            5
        } else if self.value > 0xff {
            3
        } else {
            2
        }
    }

    proof fn lemma_oplen_bounds(&self) {
    }
}

/// A bitmask comparison item: and/or chaining, not/match bits, the mask.
#[derive(Debug, Clone, Copy, PartialEq, Eq, Structural, PartialOrd, Ord, Hash)]
pub struct FSOperMaskItem {
    pub and_bit: bool,
    pub bit_not: bool,
    pub bit_match: bool,
    pub value: u32,
}

impl FSOperMaskItem {
    /// Builds a bitmask item.
    pub fn new(v: u32, b_and: bool, b_not: bool, b_match: bool) -> (r: FSOperMaskItem)
        ensures
            r == (FSOperMaskItem { and_bit: b_and, bit_not: b_not, bit_match: b_match, value: v }),
    {
        FSOperMaskItem { and_bit: b_and, bit_not: b_not, bit_match: b_match, value: v }
    }
}

impl FSOperItem for FSOperMaskItem {
    open spec fn oplen(&self) -> int {
        if self.value > 0xffff {
            5
        } else if self.value > 0xff {
            3
        } else {
            2
        }
    }

    fn decode_from(buf: &[u8]) -> (r: Result<(FSOperMaskItem, usize), BgpError>) {
        if buf.len() < 2 {
            return Err(BgpError::insufficient_buffer_size());
        }
        let op = buf[0];
        let lncode = (op >> 4) & 0x3;
        let (vl, lng): (u32, usize) = if lncode == 0 {
            (buf[1] as u32, 2)
        } else if lncode == 1 {
            if buf.len() < 3 {
                return Err(BgpError::insufficient_buffer_size());
            }
            (getn_u16(sub_tail(buf, 1)) as u32, 3)
        } else if lncode == 2 {
            if buf.len() < 5 {
                return Err(BgpError::insufficient_buffer_size());
            }
            (getn_u32(sub_tail(buf, 1)), 5)
        } else {
            return Err(BgpError::static_str("Invalid FlowSpec operator mask length"));
        };
        Ok(
            (
                FSOperMaskItem {
                    and_bit: (op & 64) != 0,
                    bit_not: (op & 2) != 0,
                    bit_match: (op & 1) != 0,
                    value: vl,
                },
                lng,
            ),
        )
    }

    fn encode_to(&self, buf: &mut Vec<u8>) -> (r: Result<usize, BgpError>) {
        let mut opbyte: u8 = 0;
        if self.and_bit {
            opbyte = opbyte | 64;
        }
        if self.bit_not {
            opbyte = opbyte | 2;
        }
        if self.bit_match {
            opbyte = opbyte | 1;
        }
        if self.value > 0xffff {
            buf.push(opbyte | 32);
            push_u32(buf, self.value);
            proof {
                assert(final(buf)@.subrange(0, old(buf)@.len() as int) =~= old(buf)@);
            }
            Ok(5)
        } else if self.value > 0xff {
            buf.push(opbyte | 16);
            push_u16(buf, self.value as u16);
            proof {
                assert(final(buf)@.subrange(0, old(buf)@.len() as int) =~= old(buf)@);
            }
            Ok(3)
        } else {
            buf.push(opbyte);
            buf.push(self.value as u8);
            proof {
                assert(final(buf)@.subrange(0, old(buf)@.len() as int) =~= old(buf)@);
            }
            Ok(2)
        }
    }

    fn getbyteslen(&self) -> (r: usize) {
        if self.value > 0xffff {
            5
        } else if self.value > 0xff {
            3
        } else {
            2
        }
    }

    proof fn lemma_oplen_bounds(&self) {
    }
}

/// Bytes a run of operator items takes.
pub open spec fn opers_len<T: FSOperItem>(s: Seq<T>) -> int
    decreases s.len(),
{
    if s.len() == 0 {
        0
    } else {
        opers_len(s.drop_last()) + s.last().oplen()
    }
}

/// A run of operator items takes at least two and at most five bytes per
/// item.
pub proof fn lemma_opers_len_bounds<T: FSOperItem>(s: Seq<T>)
    ensures
        2 * s.len() <= opers_len(s) <= 5 * s.len(),
    decreases s.len(),
{
    if s.len() > 0 {
        lemma_opers_len_bounds(s.drop_last());
        s.last().lemma_oplen_bounds();
    }
}

/// An ordered run of operator items of one FlowSpec component; the last one
/// carries the end-of-list bit on the wire.
#[derive(Debug, Clone, PartialEq, Eq)]
pub struct FSOperVec<T: FSOperItem> {
    pub items: Vec<T>,
}

impl<T: FSOperItem> FSOperVec<T> {
    /// A run the encoder accepts: short enough for the FlowSpec envelope.
    pub open spec fn wf(&self) -> bool {
        self.items@.len() <= 2100
    }

    /// Builds an empty run.
    pub fn new_empty() -> (r: FSOperVec<T>)
        ensures
            r.items@.len() == 0,
    {
        FSOperVec { items: Vec::new() }
    }

    /// Builds a run from a vector of items.
    pub fn new(v: Vec<T>) -> (r: FSOperVec<T>)
        ensures
            r.items == v,
    {
        FSOperVec { items: v }
    }

    /// Adds an item at the end of the run.
    pub fn push(&mut self, i: T)
        ensures
            final(self).items@ == old(self).items@.push(i),
    {
        self.items.push(i)
    }

    /// Bytes the run takes when encoded.
    fn getbyteslen(&self) -> (r: usize)
        requires
            self.wf(),
        ensures
            r == opers_len(self.items@),
            r <= 5 * self.items@.len(),
    {
        let mut a: usize = 0;
        let mut i: usize = 0;
        let n = self.items.len();
        while i < n
            invariant
                n == self.items@.len(),
                n <= 2100,
                i <= n,
                a == opers_len(self.items@.subrange(0, i as int)),
                a <= 5 * i,
            decreases n - i,
        {
            let ghost pre = self.items@.subrange(0, i as int);
            a = a + self.items[i].getbyteslen();
            proof {
                let cur = self.items@.subrange(0, i + 1int);
                assert(cur.drop_last() =~= pre);
            }
            i = i + 1;
        }
        proof {
            assert(self.items@.subrange(0, n as int) =~= self.items@);
        }
        a
    }

    /// Appends the run and sets the end-of-list bit on its last item; it
    /// always succeeds.
    fn encode_to(&self, buf: &mut Vec<u8>) -> (r: Result<usize, BgpError>)
        requires
            self.wf(),
        ensures
            r matches Ok(n) && grew_by(old(buf)@, final(buf)@, n as int) && n == opers_len(
                self.items@,
            ),
    {
        proof {
            assert(old(buf)@.subrange(0, old(buf)@.len() as int) =~= old(buf)@);
        }
        if self.items.len() == 0 {
            return Ok(0);
        }
        let mut pos: usize = 0;
        let mut lpos: usize = 0;
        let mut i: usize = 0;
        let n = self.items.len();
        let base = buf.len();
        while i < n
            invariant
                n == self.items@.len(),
                1 <= n <= 2100,
                i <= n,
                base == old(buf)@.len(),
                grew_by(old(buf)@, buf@, pos as int),
                pos == opers_len(self.items@.subrange(0, i as int)),
                i > 0 ==> base <= lpos < buf@.len(),
            decreases n - i,
        {
            let ghost pre = self.items@.subrange(0, i as int);
            let ghost prebuf = buf@;
            lpos = buf.len();
            match self.items[i].encode_to(buf) {
                Ok(w) => {
                    proof {
                        let cur = self.items@.subrange(0, i + 1int);
                        assert(cur.drop_last() =~= pre);
                        assert forall|j: int| 0 <= j < old(buf)@.len() implies buf@[j] == old(
                            buf,
                        )@[j] by {
                            assert(buf@.subrange(0, prebuf.len() as int)[j] == prebuf[j]);
                            assert(prebuf.subrange(0, old(buf)@.len() as int)[j] == old(buf)@[j]);
                        }
                        assert(buf@.subrange(0, old(buf)@.len() as int) =~= old(buf)@);
                    }
                    let blen = buf.len();
                    proof {
                        assert(pos + w <= blen);
                    }
                    pos = pos + w;
                },
                Err(e) => {
                    return Err(e);
                },
            }
            i = i + 1;
        }
        let ghost prebuf = buf@;
        let cur = buf[lpos];
        buf.set(lpos, cur | 128);
        proof {
            assert(self.items@.subrange(0, n as int) =~= self.items@);
            assert forall|j: int| 0 <= j < old(buf)@.len() implies buf@[j] == old(buf)@[j] by {
                assert(prebuf.subrange(0, old(buf)@.len() as int)[j] == old(buf)@[j]);
            }
            assert(buf@.subrange(0, old(buf)@.len() as int) =~= old(buf)@);
        }
        Ok(pos)
    }

    /// Reads operator items until the buffer is exhausted.
    fn decode_from(buf: &[u8]) -> (r: Result<(FSOperVec<T>, usize), BgpError>)
        requires
            buf@.len() <= 4200,
        ensures
            r matches Ok((v, n)) ==> n == buf@.len() && v.wf(),
    {
        let mut v: Vec<T> = Vec::new();
        let mut pos: usize = 0;
        while pos < buf.len()
            invariant
                buf@.len() <= 4200,
                pos <= buf@.len(),
                2 * v@.len() <= pos,
            decreases buf@.len() - pos,
        {
            match T::decode_from(sub_tail(buf, pos)) {
                Ok((item, n)) => {
                    v.push(item);
                    pos = pos + n;
                },
                Err(e) => {
                    return Err(e);
                },
            }
        }
        Ok((FSOperVec { items: v }, pos))
    }
}

/// A FlowSpec rule component, discriminated by its type octet.
#[derive(Debug, Clone, PartialEq, Eq)]
pub enum BgpFlowSpec<T: FSItem> {
    PrefixDst(T),
    PrefixSrc(T),
    Proto(FSOperVec<FSOperValItem>),
    PortAny(FSOperVec<FSOperValItem>),
    PortDst(FSOperVec<FSOperValItem>),
    PortSrc(FSOperVec<FSOperValItem>),
    IcmpType(FSOperVec<FSOperValItem>),
    IcmpCode(FSOperVec<FSOperValItem>),
    TcpFlags(FSOperVec<FSOperMaskItem>),
    PacketLength(FSOperVec<FSOperValItem>),
    Dscp(FSOperVec<FSOperValItem>),
    Fragment(FSOperVec<FSOperMaskItem>),
    FlowLabel(FSOperVec<FSOperValItem>),
}

/// The FlowSpec component type octet.
pub open spec fn fs_typecode<T: FSItem>(v: BgpFlowSpec<T>) -> u8 {
    match v {
        BgpFlowSpec::PrefixDst(_) => 1,
        BgpFlowSpec::PrefixSrc(_) => 2,
        BgpFlowSpec::Proto(_) => 3,
        BgpFlowSpec::PortAny(_) => 4,
        BgpFlowSpec::PortDst(_) => 5,
        BgpFlowSpec::PortSrc(_) => 6,
        BgpFlowSpec::IcmpType(_) => 7,
        BgpFlowSpec::IcmpCode(_) => 8,
        BgpFlowSpec::TcpFlags(_) => 9,
        BgpFlowSpec::PacketLength(_) => 10,
        BgpFlowSpec::Dscp(_) => 11,
        BgpFlowSpec::Fragment(_) => 12,
        BgpFlowSpec::FlowLabel(_) => 13,
    }
}

/// Bytes inside the length envelope: the type octet and the component
/// body.
pub open spec fn fs_nlen<T: FSItem>(v: BgpFlowSpec<T>) -> int {
    1 + match v {
        BgpFlowSpec::PrefixDst(a) => a.store_size(),
        BgpFlowSpec::PrefixSrc(a) => a.store_size(),
        BgpFlowSpec::Proto(o) => opers_len(o.items@),
        BgpFlowSpec::PortAny(o) => opers_len(o.items@),
        BgpFlowSpec::PortDst(o) => opers_len(o.items@),
        BgpFlowSpec::PortSrc(o) => opers_len(o.items@),
        BgpFlowSpec::IcmpType(o) => opers_len(o.items@),
        BgpFlowSpec::IcmpCode(o) => opers_len(o.items@),
        BgpFlowSpec::TcpFlags(o) => opers_len(o.items@),
        BgpFlowSpec::PacketLength(o) => opers_len(o.items@),
        BgpFlowSpec::Dscp(o) => opers_len(o.items@),
        BgpFlowSpec::Fragment(o) => opers_len(o.items@),
        BgpFlowSpec::FlowLabel(o) => opers_len(o.items@),
    }
}

impl<T: FSItem> BgpFlowSpec<T> {
    fn nlen_of(&self) -> (r: Result<usize, BgpError>)
        requires
            <BgpFlowSpec<T> as BgpAddrItem>::wf(self),
        ensures
            r matches Ok(n) && n == fs_nlen(*self),
    {
        let r = match self {
            BgpFlowSpec::PrefixDst(a) => 1 + a.get_store_size(),
            BgpFlowSpec::PrefixSrc(a) => 1 + a.get_store_size(),
            BgpFlowSpec::Proto(o) => 1 + o.getbyteslen(),
            BgpFlowSpec::PortAny(o) => 1 + o.getbyteslen(),
            BgpFlowSpec::PortDst(o) => 1 + o.getbyteslen(),
            BgpFlowSpec::PortSrc(o) => 1 + o.getbyteslen(),
            BgpFlowSpec::IcmpType(o) => 1 + o.getbyteslen(),
            BgpFlowSpec::IcmpCode(o) => 1 + o.getbyteslen(),
            BgpFlowSpec::TcpFlags(o) => 1 + o.getbyteslen(),
            BgpFlowSpec::PacketLength(o) => 1 + o.getbyteslen(),
            BgpFlowSpec::Dscp(o) => 1 + o.getbyteslen(),
            BgpFlowSpec::Fragment(o) => 1 + o.getbyteslen(),
            BgpFlowSpec::FlowLabel(o) => 1 + o.getbyteslen(),
        };
        Ok(r)
    }
}

impl<T: FSItem> BgpAddrItem for BgpFlowSpec<T> {
    open spec fn wf(&self) -> bool {
        match self {
            BgpFlowSpec::PrefixDst(a) => a.wf() && a.store_size() <= 4500,
            BgpFlowSpec::PrefixSrc(a) => a.wf() && a.store_size() <= 4500,
            BgpFlowSpec::Proto(o) => o.wf(),
            BgpFlowSpec::PortAny(o) => o.wf(),
            BgpFlowSpec::PortDst(o) => o.wf(),
            BgpFlowSpec::PortSrc(o) => o.wf(),
            BgpFlowSpec::IcmpType(o) => o.wf(),
            BgpFlowSpec::IcmpCode(o) => o.wf(),
            BgpFlowSpec::TcpFlags(o) => o.wf(),
            BgpFlowSpec::PacketLength(o) => o.wf(),
            BgpFlowSpec::Dscp(o) => o.wf(),
            BgpFlowSpec::Fragment(o) => o.wf(),
            BgpFlowSpec::FlowLabel(o) => o.wf(),
        }
    }

    /// Reads one FlowSpec NLRI: a one-octet length below 240, or a
    /// two-octet length with the four high bits set, then the typed
    /// component.
    fn decode_from(mode: BgpTransportMode, buf: &[u8]) -> (r: Result<
        (BgpFlowSpec<T>, usize),
        BgpError,
    >) {
        if buf.len() < 2 {
            return Err(BgpError::insufficient_buffer_size());
        }
        let pos: usize;
        let inner: usize;
        if (buf[0] & 0xf0) == 0xf0 {
            let w: u16 = getn_u16(buf);
            let masked: u16 = w & 0xfff;
            proof {
                assert(w & 0xfff <= 0xfff) by (bit_vector);
            }
            inner = masked as usize;
            pos = 2;
        } else {
            inner = buf[0] as usize;
            pos = 1;
        }
        if buf.len() - pos < inner || inner < 1 {
            return Err(BgpError::insufficient_buffer_size());
        }
        let tc = buf[pos];
        let window = slice_subrange(buf, pos + 1, pos + inner);
        if tc == 1 || tc == 2 {
            match T::decode_from_fs(window) {
                Ok((a, n)) => {
                    if tc == 1 {
                        Ok((BgpFlowSpec::PrefixDst(a), pos + 1 + n))
                    } else {
                        Ok((BgpFlowSpec::PrefixSrc(a), pos + 1 + n))
                    }
                },
                Err(e) => Err(e),
            }
        } else if tc == 9 || tc == 12 {
            match FSOperVec::<FSOperMaskItem>::decode_from(window) {
                Ok((o, n)) => {
                    if tc == 9 {
                        Ok((BgpFlowSpec::TcpFlags(o), pos + 1 + n))
                    } else {
                        Ok((BgpFlowSpec::Fragment(o), pos + 1 + n))
                    }
                },
                Err(e) => Err(e),
            }
        } else if 3 <= tc && tc <= 13 {
            match FSOperVec::<FSOperValItem>::decode_from(window) {
                Ok((o, n)) => {
                    let v = match tc {
                        3 => BgpFlowSpec::Proto(o),
                        4 => BgpFlowSpec::PortAny(o),
                        5 => BgpFlowSpec::PortDst(o),
                        6 => BgpFlowSpec::PortSrc(o),
                        7 => BgpFlowSpec::IcmpType(o),
                        8 => BgpFlowSpec::IcmpCode(o),
                        10 => BgpFlowSpec::PacketLength(o),
                        11 => BgpFlowSpec::Dscp(o),
                        _ => BgpFlowSpec::FlowLabel(o),
                    };
                    Ok((v, pos + 1 + n))
                },
                Err(e) => Err(e),
            }
        } else {
            Err(BgpError::static_str("Unknown flowspec typecode"))
        }
    }

    /// Appends one FlowSpec NLRI. The length envelope is one octet below
    /// 240 and two octets, with the four high bits set, from 240 up to
    /// 4094; anything longer is refused.
    fn encode_to(&self, mode: BgpTransportMode, buf: &mut Vec<u8>) -> (r: Result<usize, BgpError>)
        ensures
            r matches Ok(n) ==> fs_nlen(*self) < 240 ==> n == fs_nlen(*self) + 1 && final(buf)@[old(
                buf,
            )@.len() as int] == fs_nlen(*self) as u8,
            r matches Ok(n) ==> fs_nlen(*self) >= 240 ==> 240 <= fs_nlen(*self) <= 4094 && n
                == fs_nlen(*self) + 2 && final(buf)@[old(buf)@.len() as int] == (0xf0u8 | ((
            fs_nlen(*self) as u16 >> 8) & 0xff) as u8) && final(buf)@[old(buf)@.len() + 1int] == (
            fs_nlen(*self) as u16 & 0xff) as u8,
            fs_nlen(*self) <= 4094 ==> r is Ok,
            fs_nlen(*self) > 4094 ==> (r matches Err(e) && e is TooManyData),
    {
        let nlen = match self.nlen_of() {
            Ok(n) => n,
            Err(e) => {
                return Err(e);
            },
        };
        if nlen > 4094 {
            return Err(BgpError::too_many_data());
        }
        let pos: usize;
        if nlen < 240 {
            buf.push(nlen as u8);
            pos = 1;
        } else {
            let w: u16 = (nlen as u16) | 0xf000;
            proof {
                let nl16 = nlen as u16;
                assert(240 <= nl16 <= 4094 ==> (((nl16 | 0xf000) >> 8) & 0xff) as u8 == (0xf0u8 | ((
                nl16 >> 8) & 0xff) as u8) && ((nl16 | 0xf000) & 0xff) as u8 == (nl16 & 0xff) as u8)
                    by (bit_vector);
            }
            push_u16(buf, w);
            pos = 2;
        }
        let tc: u8 = match self {
            BgpFlowSpec::PrefixDst(_) => 1,
            BgpFlowSpec::PrefixSrc(_) => 2,
            BgpFlowSpec::Proto(_) => 3,
            BgpFlowSpec::PortAny(_) => 4,
            BgpFlowSpec::PortDst(_) => 5,
            BgpFlowSpec::PortSrc(_) => 6,
            BgpFlowSpec::IcmpType(_) => 7,
            BgpFlowSpec::IcmpCode(_) => 8,
            BgpFlowSpec::TcpFlags(_) => 9,
            BgpFlowSpec::PacketLength(_) => 10,
            BgpFlowSpec::Dscp(_) => 11,
            BgpFlowSpec::Fragment(_) => 12,
            BgpFlowSpec::FlowLabel(_) => 13,
        };
        buf.push(tc);
        let ghost mid = buf@;
        let w = match self {
            BgpFlowSpec::PrefixDst(a) => a.encode_to_fs(buf),
            BgpFlowSpec::PrefixSrc(a) => a.encode_to_fs(buf),
            BgpFlowSpec::Proto(o) => o.encode_to(buf),
            BgpFlowSpec::PortAny(o) => o.encode_to(buf),
            BgpFlowSpec::PortDst(o) => o.encode_to(buf),
            BgpFlowSpec::PortSrc(o) => o.encode_to(buf),
            BgpFlowSpec::IcmpType(o) => o.encode_to(buf),
            BgpFlowSpec::IcmpCode(o) => o.encode_to(buf),
            BgpFlowSpec::TcpFlags(o) => o.encode_to(buf),
            BgpFlowSpec::PacketLength(o) => o.encode_to(buf),
            BgpFlowSpec::Dscp(o) => o.encode_to(buf),
            BgpFlowSpec::Fragment(o) => o.encode_to(buf),
            BgpFlowSpec::FlowLabel(o) => o.encode_to(buf),
        };
        let w = match w {
            Ok(n) => n,
            Err(e) => {
                return Err(e);
            },
        };
        proof {
            assert(w + 1 == fs_nlen(*self));
            assert forall|j: int| 0 <= j < mid.len() implies final(buf)@[j] == mid[j] by {
                assert(final(buf)@.subrange(0, mid.len() as int)[j] == mid[j]);
            }
            assert(final(buf)@[old(buf)@.len() as int] == mid[old(buf)@.len() as int]);
            if pos == 2 {
                assert(final(buf)@[old(buf)@.len() + 1int] == mid[old(buf)@.len() + 1int]);
            }
            assert(final(buf)@.subrange(0, old(buf)@.len() as int) =~= old(buf)@);
        }
        Ok(pos + 1 + w)
    }
}

} // verus!

