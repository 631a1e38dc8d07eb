//! The AS-path path attribute: a run of segments, each a sequence or a set
//! of AS numbers, whose width follows the negotiated session.

use crate::afi::{grew_by, sub_tail};
use crate::error::BgpError;
use crate::util::{getn_u16, getn_u32, push_u16, push_u32, u16_bytes, u32_of_bytes};
use crate::BgpSessionParams;
use vstd::prelude::*;
use vstd::slice::slice_subrange;

verus! {

/// One AS number on a path.
#[derive(Debug, Clone, Copy, PartialEq, Eq, Structural, PartialOrd, Ord, Hash)]
pub struct BgpAS {
    pub value: u32,
}

impl BgpAS {
    /// Wraps an AS number.
    pub fn new(v: u32) -> (r: BgpAS)
        ensures
            r.value == v,
    {
        BgpAS { value: v }
    }

    /// The plain number: a value with a zero low half reads as its high
    /// half.
    pub fn tonumb(&self) -> (r: u32)
        ensures
            (self.value & 0xffff) == 0 ==> r == self.value >> 16,
            (self.value & 0xffff) != 0 ==> r == self.value,
    {
        if (self.value & 0xffff) == 0 {
            self.value >> 16
        } else {
            self.value
        }
    }
}

/// An ordered segment of a path: order kept, duplicates allowed.
#[derive(Debug, Clone, PartialEq, Eq)]
pub struct BgpASseq {
    pub value: Vec<BgpAS>,
}

impl BgpASseq {
    /// Number of AS numbers in the segment.
    pub fn len(&self) -> (r: usize)
        ensures
            r == self.value@.len(),
    {
        self.value.len()
    }
}

/// An unordered segment of a path. The decoder and `from_vec` keep it
/// sorted by value without duplicates, as an ordered set stores it, so two
/// sets with the same members compare equal.
#[derive(Debug, Clone, PartialEq, Eq)]
pub struct BgpASset {
    pub value: Vec<BgpAS>,
}

/// AS numbers strictly ascend, as an ordered set stores them.
pub open spec fn sorted_asns(s: Seq<BgpAS>) -> bool {
    forall|i: int, j: int| 0 <= i < j < s.len() ==> s[i].value < s[j].value
}

/// No AS number occurs twice.
pub open spec fn distinct_asns(s: Seq<BgpAS>) -> bool {
    forall|i: int, j: int| 0 <= i < j < s.len() ==> s[i].value != s[j].value
}

/// Two runs carry the same AS numbers, each value of one present in the
/// other.
pub open spec fn same_as_values(a: Seq<BgpAS>, b: Seq<BgpAS>) -> bool {
    &&& forall|k: int|
        #![trigger a[k]]
        0 <= k < a.len() ==> exists|m: int| 0 <= m < b.len() && b[m].value == a[k].value
    &&& forall|m: int|
        #![trigger b[m]]
        0 <= m < b.len() ==> exists|k: int| 0 <= k < a.len() && a[k].value == b[m].value
}

/// Puts one AS number into a strictly ascending run, keeping it sorted and
/// dropping it if the value is already present.
fn insert_sorted_as(out: &mut Vec<BgpAS>, c: BgpAS)
    requires
        sorted_asns(old(out)@),
    ensures
        sorted_asns(final(out)@),
        forall|m: int|
            #![trigger final(out)@[m]]
            0 <= m < final(out)@.len() ==> final(out)@[m].value == c.value || exists|m2: int|
                0 <= m2 < old(out)@.len() && old(out)@[m2].value == final(out)@[m].value,
        exists|m: int| 0 <= m < final(out)@.len() && final(out)@[m].value == c.value,
        forall|m2: int|
            #![trigger old(out)@[m2]]
            0 <= m2 < old(out)@.len() ==> exists|m: int|
                0 <= m < final(out)@.len() && final(out)@[m].value == old(out)@[m2].value,
{
    let mut k: usize = 0;
    while k < out.len() && out[k].value < c.value
        invariant
            k <= out@.len(),
            out@ == old(out)@,
            sorted_asns(out@),
            forall|m: int| 0 <= m < k ==> out@[m].value < c.value,
        decreases out@.len() - k,
    {
        k = k + 1;
    }
    if k < out.len() && out[k].value == c.value {
        proof {
            assert(out@[k as int].value == c.value);
            assert forall|m2: int|
                #![trigger old(out)@[m2]]
                0 <= m2 < old(out)@.len() implies exists|m: int|
                0 <= m < out@.len() && out@[m].value == old(out)@[m2].value by {
                assert(out@[m2].value == old(out)@[m2].value);
            }
        }
        return ;
    }
    let ghost pre = out@;
    out.insert(k, c);
    proof {
        pre.insert_ensures(k as int, c);
        assert(out@ == pre.insert(k as int, c));
        assert forall|i: int, j: int|
            0 <= i < j < out@.len() implies out@[i].value < out@[j].value by {
            let ki = k as int;
            if j < ki {
                assert(out@[i] == pre[i] && out@[j] == pre[j]);
            } else if i < ki && j == ki {
                assert(out@[i] == pre[i] && out@[j] == c);
            } else if i < ki && j > ki {
                assert(out@[i] == pre[i] && out@[j] == pre[j - 1]);
            } else if i == ki {
                assert(out@[i] == c && out@[j] == pre[j - 1]);
                assert(ki < pre.len());
                assert(pre[ki].value > c.value);
                if j - 1 > ki {
                    assert(pre[ki].value < pre[j - 1].value);
                }
            } else {
                assert(out@[i] == pre[i - 1] && out@[j] == pre[j - 1]);
            }
        }
        assert(out@[k as int] == c);
        assert forall|m: int|
            #![trigger out@[m]]
            0 <= m < out@.len() implies out@[m].value == c.value || exists|m2: int|
            0 <= m2 < pre.len() && pre[m2].value == out@[m].value by {
            if m < k as int {
                assert(out@[m] == pre[m]);
            } else if m > k as int {
                assert(out@[m] == pre[m - 1]);
            }
        }
        assert forall|m2: int|
            #![trigger pre[m2]]
            0 <= m2 < pre.len() implies exists|m: int|
            0 <= m < out@.len() && out@[m].value == pre[m2].value by {
            if m2 < k as int {
                assert(out@[m2] == pre[m2]);
            } else {
                assert(out@[m2 + 1] == pre[m2]);
            }
        }
    }
}

impl BgpASset {
    /// Number of AS numbers in the segment.
    pub fn len(&self) -> (r: usize)
        ensures
            r == self.value@.len(),
    {
        self.value.len()
    }

    /// Builds a set from any run of AS numbers: the result is sorted,
    /// without duplicates, and carries exactly the values given.
    #[verifier::rlimit(100)]
    pub fn from_vec(v: Vec<BgpAS>) -> (r: BgpASset)
        ensures
            sorted_asns(r.value@),
            distinct_asns(r.value@),
            same_as_values(r.value@, v@),
    {
        let mut out: Vec<BgpAS> = Vec::new();
        let mut i: usize = 0;
        while i < v.len()
            invariant
                i <= v@.len(),
                sorted_asns(out@),
                same_as_values(out@, v@.subrange(0, i as int)),
            decreases v@.len() - i,
        {
            let ghost pre = out@;
            let ghost vpre = v@.subrange(0, i as int);
            insert_sorted_as(&mut out, v[i]);
            proof {
                let vcur = v@.subrange(0, i + 1int);
                assert(vcur[i as int] == v@[i as int]);
                assert forall|k: int|
                    #![trigger out@[k]]
                    0 <= k < out@.len() implies exists|m: int|
                    0 <= m < vcur.len() && vcur[m].value == out@[k].value by {
                    if out@[k].value == v@[i as int].value {
                        assert(vcur[i as int].value == out@[k].value);
                    } else {
                        let m2 = choose|m2: int|
                            0 <= m2 < pre.len() && pre[m2].value == out@[k].value;
                        let m3 = choose|m3: int|
                            0 <= m3 < vpre.len() && vpre[m3].value == pre[m2].value;
                        assert(vcur[m3].value == out@[k].value);
                    }
                }
                assert forall|m: int|
                    #![trigger vcur[m]]
                    0 <= m < vcur.len() implies exists|k: int|
                    0 <= k < out@.len() && out@[k].value == vcur[m].value by {
                    if m < i {
                        assert(vpre[m] == vcur[m]);
                        let k2 = choose|k2: int|
                            0 <= k2 < pre.len() && pre[k2].value == vpre[m].value;
                        let k3 = choose|k3: int|
                            0 <= k3 < out@.len() && out@[k3].value == pre[k2].value;
                        assert(out@[k3].value == vcur[m].value);
                    } else {
                        let k3 = choose|k3: int|
                            0 <= k3 < out@.len() && out@[k3].value == v@[i as int].value;
                        assert(out@[k3].value == vcur[m].value);
                    }
                }
            }
            i = i + 1;
        }
        proof {
            assert(v@.subrange(0, i as int) =~= v@);
            assert forall|i2: int, j2: int|
                0 <= i2 < j2 < out@.len() implies out@[i2].value != out@[j2].value by {
                assert(out@[i2].value < out@[j2].value);
            }
        }
        BgpASset { value: out }
    }
}

/// One path segment: a sequence or a set.
#[derive(Debug, Clone, PartialEq, Eq)]
pub enum BgpASitem {
    Sequence(BgpASseq),
    ASSet(BgpASset),
}

/// The `i`-th AS number of a segment payload, after the kind and count
/// octets: four octets wide when the session speaks four-octet AS numbers,
/// two otherwise.
pub open spec fn asn_at(s: Seq<u8>, wide: bool, i: int) -> int {
    if wide {
        u32_of_bytes(s[2 + 4 * i], s[2 + 4 * i + 1], s[2 + 4 * i + 2], s[2 + 4 * i + 3]) as int
    } else {
        (s[2 + 2 * i] as int) * 256 + (s[2 + 2 * i + 1] as int)
    }
}

/// How many AS numbers a segment yields: its count octet, cut down to what
/// the buffer holds.
pub open spec fn asn_count(s: Seq<u8>, wide: bool) -> int {
    let isz: int = if wide {
        4
    } else {
        2
    };
    let avail = (s.len() - 2) as int / isz;
    if s[1] as int <= avail {
        s[1] as int
    } else {
        avail
    }
}

/// The run carries exactly the first `m` AS numbers of the payload, as a
/// set: each value of one side occurs on the other.
pub open spec fn as_set_of_payload(a: Seq<BgpAS>, s: Seq<u8>, wide: bool, m: int) -> bool {
    &&& forall|k: int|
        #![trigger a[k]]
        0 <= k < a.len() ==> exists|i: int| 0 <= i < m && a[k].value as int == asn_at(s, wide, i)
    &&& forall|i: int|
        #![trigger asn_at(s, wide, i)]
        0 <= i < m ==> exists|k: int| 0 <= k < a.len() && a[k].value as int == asn_at(s, wide, i)
}

/// The AS numbers of a segment.
pub open spec fn asitem_values(it: BgpASitem) -> Seq<BgpAS> {
    match it {
        BgpASitem::Sequence(s) => s.value@,
        BgpASitem::ASSet(s) => s.value@,
    }
}

/// Reads one AS number at the given offset: four octets when the session
/// speaks four-octet AS numbers, two otherwise.
fn read_asn(buf: &[u8], pos: usize, wide: bool) -> (r: u32)
    requires
        wide ==> pos + 4 <= buf@.len(),
        !wide ==> pos + 2 <= buf@.len(),
    ensures
        wide ==> r as int == u32_of_bytes(
            buf@[pos as int],
            buf@[pos + 1],
            buf@[pos + 2],
            buf@[pos + 3],
        ) as int,
        !wide ==> r as int == (buf@[pos as int] as int) * 256 + (buf@[pos + 1] as int),
{
    let blen = buf.len();
    if wide {
        proof {
            assert(pos + 4 <= blen);
        }
        let v = getn_u32(slice_subrange(buf, pos, pos + 4));
        proof {
            assert(buf@.subrange(pos as int, pos + 4) =~= seq![
                buf@[pos as int],
                buf@[pos + 1],
                buf@[pos + 2],
                buf@[pos + 3],
            ]);
            crate::util::lemma_u32_of_bytes_image(
                buf@[pos as int],
                buf@[pos + 1],
                buf@[pos + 2],
                buf@[pos + 3],
            );
            crate::util::lemma_u32_bytes_inj(
                v,
                u32_of_bytes(buf@[pos as int], buf@[pos + 1], buf@[pos + 2], buf@[pos + 3]),
            );
        }
        v
    } else {
        proof {
            assert(pos + 2 <= blen);
        }
        let v16 = getn_u16(slice_subrange(buf, pos, pos + 2));
        proof {
            assert((((v16 >> 8) & 0xff) as u8 as int) * 256 + ((v16 & 0xff) as u8 as int)
                == v16 as int) by (bit_vector);
            assert(u16_bytes(v16)[0] == buf@[pos as int] && u16_bytes(v16)[1] == buf@[pos + 1]);
        }
        v16 as u32
    }
}

impl BgpASitem {
    /// Number of AS numbers in the segment.
    pub fn len(&self) -> (r: usize)
        ensures
            r == asitem_values(*self).len(),
    {
        match self {
            BgpASitem::Sequence(s) => s.len(),
            BgpASitem::ASSet(s) => s.len(),
        }
    }

    /// Appends the segment: its kind octet, one for a set and two for a
    /// sequence, the count, and the AS numbers in the session's width.
    pub fn encode_to(&self, peer: &BgpSessionParams, buf: &mut Vec<u8>) -> (r: Result<
        usize,
        BgpError,
    >)
        ensures
            r matches Ok(n) ==> grew_by(old(buf)@, final(buf)@, n as int) && n == 2 + (
            if peer.has_as32bit {
                4int
            } else {
                2int
            }) * asitem_values(*self).len() && final(buf)@[old(buf)@.len() as int] == (
            if self is Sequence {
                2u8
            } else {
                1u8
            }) && final(buf)@[old(buf)@.len() + 1int] == asitem_values(*self).len() as u8,
    {
        proof {
            assert(old(buf)@.subrange(0, old(buf)@.len() as int) =~= old(buf)@);
        }
        let cnt = self.len();
        if cnt > 255 {
            return Err(BgpError::InsufficientBufferSize);
        }
        let items: &Vec<BgpAS> = match self {
            BgpASitem::Sequence(s) => {
                buf.push(2);
                &s.value
            },
            BgpASitem::ASSet(s) => {
                buf.push(1);
                &s.value
            },
        };
        buf.push(cnt as u8);
        proof {
            assert(buf@.subrange(0, old(buf)@.len() as int) =~= old(buf)@);
        }
        let itemsize: usize = if peer.has_as32bit {
            4
        } else {
            2
        };
        let ghost head0 = buf@[old(buf)@.len() as int];
        let ghost head1 = buf@[old(buf)@.len() + 1int];
        let mut i: usize = 0;
        let mut pos: usize = 2;
        while i < items.len()
            invariant
                i <= items@.len(),
                itemsize == 4 || itemsize == 2,
                pos == 2 + itemsize * i,
                items@.len() <= 255,
                grew_by(old(buf)@, buf@, pos as int),
                buf@[old(buf)@.len() as int] == head0,
                buf@[old(buf)@.len() + 1int] == head1,
            decreases items@.len() - i,
        {
            let ghost pre = buf@;
            if itemsize == 4 {
                push_u32(buf, items[i].value);
            } else {
                push_u16(buf, (items[i].value & 0xffff) as u16);
            }
            proof {
                assert forall|j: int| 0 <= j < old(buf)@.len() implies buf@[j] == old(buf)@[j] by {
                    assert(pre.subrange(0, old(buf)@.len() as int)[j] == old(buf)@[j]);
                }
                assert(buf@.subrange(0, old(buf)@.len() as int) =~= old(buf)@);
            }
            pos = pos + itemsize;
            i = i + 1;
        }
        Ok(pos)
    }

    /// Reads one segment: kind one is a set, kind two a sequence; the
    /// count of AS numbers follows, each in the session's width. A
    /// sequence keeps the payload's values in order; a set holds them
    /// sorted with duplicates collapsed.
    #[verifier::rlimit(100)]
    pub fn decode_from(peer: &BgpSessionParams, buf: &[u8]) -> (r: Result<
        (BgpASitem, usize),
        BgpError,
    >)
        ensures
            r matches Ok((v, n)) ==> buf@.len() >= 2 && (buf@[0] == 1 || buf@[0] == 2) && ({
                let wide = peer.has_as32bit;
                let m = asn_count(buf@, wide);
                let isz: int = if wide {
                    4
                } else {
                    2
                };
                &&& 2 <= n <= buf@.len()
                &&& n == 2 + isz * m
                &&& (buf@[0] == 2 ==> (v matches BgpASitem::Sequence(q) && q.value@.len() == m
                    && forall|i: int|
                    0 <= i < m ==> (#[trigger] q.value@[i]).value as int == asn_at(buf@, wide, i)))
                &&& (buf@[0] == 1 ==> (v matches BgpASitem::ASSet(q) && sorted_asns(q.value@)
                    && distinct_asns(q.value@) && as_set_of_payload(q.value@, buf@, wide, m)))
            }),
            buf@.len() < 2 ==> r is Err,
            buf@.len() >= 2 && buf@[0] != 1 && buf@[0] != 2 ==> r is Err,
            buf@.len() >= 2 && (buf@[0] == 1 || buf@[0] == 2) ==> r is Ok,
    {
        if buf.len() < 2 {
            return Err(BgpError::insufficient_buffer_size());
        }
        let kind = buf[0];
        if kind != 1 && kind != 2 {
            return Err(BgpError::ProtocolError);
        }
        let wide = peer.has_as32bit;
        let itemsize: usize = if wide {
            4
        } else {
            2
        };
        let cnt = buf[1] as usize;
        let avail: usize = if wide {
            (buf.len() - 2) / 4
        } else {
            (buf.len() - 2) / 2
        };
        let m: usize = if cnt <= avail {
            cnt
        } else {
            avail
        };
        proof {
            assert(m == asn_count(buf@, wide));
            assert(itemsize * avail <= buf@.len() - 2);
            assert(2 + itemsize * m <= buf@.len());
        }
        let blen = buf.len();
        let mut v: Vec<BgpAS> = Vec::new();
        let mut i: usize = 0;
        if kind == 2 {
            while i < m
                invariant
                    blen == buf@.len(),
                    wide == peer.has_as32bit,
                    itemsize == (if wide {
                        4int
                    } else {
                        2int
                    }),
                    buf@.len() >= 2,
                    2 + itemsize * m <= buf@.len(),
                    i <= m,
                    v@.len() == i,
                    forall|k: int|
                        0 <= k < i ==> (#[trigger] v@[k]).value as int == asn_at(buf@, wide, k),
                decreases m - i,
            {
                proof {
                    assert(itemsize * (i + 1) <= itemsize * m) by (nonlinear_arith)
                        requires
                            0 <= i + 1 <= m,
                            0 <= itemsize,
                    ;
                }
                let pos = 2 + itemsize * i;
                let val = read_asn(buf, pos, wide);
                proof {
                    assert(val as int == asn_at(buf@, wide, i as int));
                }
                v.push(BgpAS { value: val });
                i = i + 1;
            }
            Ok((BgpASitem::Sequence(BgpASseq { value: v }), 2 + itemsize * m))
        } else {
            while i < m
                invariant
                    blen == buf@.len(),
                    wide == peer.has_as32bit,
                    itemsize == (if wide {
                        4int
                    } else {
                        2int
                    }),
                    buf@.len() >= 2,
                    2 + itemsize * m <= buf@.len(),
                    i <= m,
                    sorted_asns(v@),
                    as_set_of_payload(v@, buf@, wide, i as int),
                decreases m - i,
            {
                proof {
                    assert(itemsize * (i + 1) <= itemsize * m) by (nonlinear_arith)
                        requires
                            0 <= i + 1 <= m,
                            0 <= itemsize,
                    ;
                }
                let pos = 2 + itemsize * i;
                let val = read_asn(buf, pos, wide);
                let ghost pre = v@;
                insert_sorted_as(&mut v, BgpAS { value: val });
                proof {
                    assert(val as int == asn_at(buf@, wide, i as int));
                    assert forall|k: int|
                        #![trigger v@[k]]
                        0 <= k < v@.len() implies exists|i2: int|
                        0 <= i2 < i + 1 && v@[k].value as int == asn_at(buf@, wide, i2) by {
                        if v@[k].value == val {
                            assert(v@[k].value as int == asn_at(buf@, wide, i as int));
                        } else {
                            let m2 = choose|m2: int|
                                0 <= m2 < pre.len() && pre[m2].value == v@[k].value;
                            let i2 = choose|i2: int|
                                0 <= i2 < i && pre[m2].value as int == asn_at(buf@, wide, i2);
                            assert(v@[k].value as int == asn_at(buf@, wide, i2));
                        }
                    }
                    assert forall|i2: int|
                        #![trigger asn_at(buf@, wide, i2)]
                        0 <= i2 < i + 1 implies exists|k: int|
                        0 <= k < v@.len() && v@[k].value as int == asn_at(buf@, wide, i2) by {
                        if i2 < i {
                            let k2 = choose|k2: int|
                                0 <= k2 < pre.len() && pre[k2].value as int == asn_at(
                                    buf@,
                                    wide,
                                    i2,
                                );
                            let k3 = choose|k3: int|
                                0 <= k3 < v@.len() && v@[k3].value == pre[k2].value;
                            assert(v@[k3].value as int == asn_at(buf@, wide, i2));
                        } else {
                            let k3 = choose|k3: int| 0 <= k3 < v@.len() && v@[k3].value == val;
                            assert(v@[k3].value as int == asn_at(buf@, wide, i2));
                        }
                    }
                }
                i = i + 1;
            }
            proof {
                assert forall|i2: int, j2: int|
                    0 <= i2 < j2 < v@.len() implies v@[i2].value != v@[j2].value by {
                    assert(v@[i2].value < v@[j2].value);
                }
            }
            Ok((BgpASitem::ASSet(BgpASset { value: v }), 2 + itemsize * m))
        }
    }
}

/// The AS-path path attribute: the run of segments.
#[derive(Debug, Clone, PartialEq, Eq)]
pub struct BgpASpath {
    pub value: Vec<BgpASitem>,
}

impl BgpASpath {
    /// Builds an empty path.
    pub fn new() -> (r: BgpASpath)
        ensures
            r.value@ == Seq::<BgpASitem>::empty(),
    {
        BgpASpath { value: Vec::new() }
    }

    /// Reads segments until the payload is exhausted; fewer than two
    /// octets yield the empty path. Every set segment comes back sorted
    /// without duplicates.
    pub fn decode_from(peer: &BgpSessionParams, buf: &[u8]) -> (r: Result<BgpASpath, BgpError>)
        ensures
            r matches Ok(p) ==> forall|i: int|
                0 <= i < p.value@.len() ==> ((#[trigger] p.value@[i]) matches BgpASitem::ASSet(q)
                    ==> sorted_asns(q.value@) && distinct_asns(q.value@)),
            buf@.len() < 2 ==> (r matches Ok(p) && p.value@.len() == 0),
    {
        if buf.len() < 2 {
            return Ok(BgpASpath { value: Vec::new() });
        }
        let mut pos: usize = 0;
        let mut v: Vec<BgpASitem> = Vec::new();
        while pos < buf.len()
            invariant
                buf@.len() >= 2,
                pos <= buf@.len(),
                forall|i: int|
                    0 <= i < v@.len() ==> ((#[trigger] v@[i]) matches BgpASitem::ASSet(q)
                        ==> sorted_asns(q.value@) && distinct_asns(q.value@)),
            decreases buf@.len() - pos,
        {
            match BgpASitem::decode_from(peer, sub_tail(buf, pos)) {
                Ok((item, n)) => {
                    v.push(item);
                    pos = pos + n;
                },
                Err(e) => {
                    return Err(e);
                },
            }
        }
        Ok(BgpASpath { value: v })
    }

    /// Appends every segment.
    pub fn encode_to(&self, peer: &BgpSessionParams, buf: &mut Vec<u8>) -> (r: Result<
        usize,
        BgpError,
    >)
        ensures
            r matches Ok(n) ==> grew_by(old(buf)@, final(buf)@, n as int),
    {
        proof {
            assert(old(buf)@.subrange(0, old(buf)@.len() as int) =~= old(buf)@);
        }
        let mut pos: usize = 0;
        let mut i: usize = 0;
        while i < self.value.len()
            invariant
                i <= self.value@.len(),
                grew_by(old(buf)@, buf@, pos as int),
            decreases self.value@.len() - i,
        {
            let ghost pre = buf@;
            match self.value[i].encode_to(peer, buf) {
                Ok(n) => {
                    let blen = buf.len();
                    proof {
                        assert(pos + n <= blen);
                        assert forall|j: int| 0 <= j < old(buf)@.len() implies buf@[j] == old(
                            buf,
                        )@[j] by {
                            assert(buf@.subrange(0, pre.len() as int)[j] == pre[j]);
                            assert(pre.subrange(0, old(buf)@.len() as int)[j] == old(buf)@[j]);
                        }
                        assert(buf@.subrange(0, old(buf)@.len() as int) =~= old(buf)@);
                    }
                    pos = pos + n;
                },
                Err(e) => {
                    return Err(e);
                },
            }
            i = i + 1;
        }
        Ok(pos)
    }
}

} // verus!
