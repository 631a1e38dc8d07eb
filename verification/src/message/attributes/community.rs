//! The community, extended community and large community path attributes.
//! The list attributes collapse duplicates, as a set does.

use crate::afi::{grew_by, sub_tail};
use crate::error::BgpError;
use crate::util::{getn_u16, getn_u32, push_u16, push_u32, u16_bytes, u32_bytes, u32_of_bytes, Ipv4Addr};
use vstd::prelude::*;
use vstd::slice::slice_subrange;

verus! {

/// One community: a four-octet value, conventionally an AS number in the
/// high half and a local tag in the low half.
#[derive(Debug, Clone, Copy, PartialEq, Eq, Structural, PartialOrd, Ord, Hash)]
pub struct BgpCommunity {
    pub value: u32,
}

impl BgpCommunity {
    /// Wraps a community value.
    pub fn new(v: u32) -> (r: BgpCommunity)
        ensures
            r.value == v,
    {
        BgpCommunity { value: v }
    }

    /// Builds a community from its AS and tag halves.
    pub fn from(h: u16, l: u16) -> (r: BgpCommunity)
        ensures
            r.value == ((h as u32) << 16) | (l as u32),
    {
        BgpCommunity { value: ((h as u32) << 16) | (l as u32) }
    }

    /// Reads a community from a four-octet payload; any other length is
    /// rejected.
    pub fn decode_from(buf: &[u8]) -> (r: Result<BgpCommunity, BgpError>)
        ensures
            buf@.len() == 4 ==> (r matches Ok(v) && u32_bytes(v.value) == buf@),
            buf@.len() != 4 ==> r is Err,
    {
        if buf.len() == 4 {
            let v = getn_u32(buf);
            proof {
                assert(buf@.subrange(0, 4) =~= buf@);
            }
            Ok(BgpCommunity { value: v })
        } else {
            Err(BgpError::static_str("Invalid BgpCommunity item length"))
        }
    }

    /// Appends the four-octet image.
    pub fn encode_to(&self, buf: &mut Vec<u8>) -> (r: Result<usize, BgpError>)
        ensures
            r matches Ok(n) && n == 4,
            final(buf)@ == old(buf)@ + u32_bytes(self.value),
    {
        push_u32(buf, self.value);
        Ok(4)
    }

    /// The conventional name of a well-known community, if it has one.
    pub fn well_known_name(&self) -> (r: Option<&'static str>)
        ensures
            self.value == 0xffffff01 ==> r is Some,
            self.value == 0xffffff02 ==> r is Some,
            self.value == 0xffffff03 ==> r is Some,
            self.value == 0xffffff04 ==> r is Some,
    {
        if self.value == 0xffffff01 {
            Some("no_export")
        } else if self.value == 0xffffff02 {
            Some("no_advertise")
        } else if self.value == 0xffffff03 {
            Some("no_export_subconfed")
        } else if self.value == 0xffffff04 {
            Some("nopeer")
        } else {
            None
        }
    }
}

/// Parses an unsigned decimal number from ASCII digits; anything else, an
/// empty run, or overflow yields nothing.
pub fn parse_dec_u32(b: &[u8]) -> (r: Option<u32>)
{
    if b.len() == 0 {
        return None;
    }
    let mut acc: u64 = 0;
    let mut i: usize = 0;
    while i < b.len()
        invariant
            i <= b@.len(),
            acc <= 0xffffffff,
        decreases b@.len() - i,
    {
        let c = b[i];
        if c < 48 || c > 57 {
            return None;
        }
        let d: u64 = (c - 48) as u64;
        let next: u64 = acc * 10 + d;
        if next > 0xffffffff {
            return None;
        }
        acc = next;
        i = i + 1;
    }
    Some(acc as u32)
}

/// Compares a byte run against another, octet for octet.
fn bytes_eq(a: &[u8], b: &[u8]) -> (r: bool)
    ensures
        r <==> a@ =~= b@,
{
    if a.len() != b.len() {
        return false;
    }
    let mut i: usize = 0;
    while i < a.len()
        invariant
            a@.len() == b@.len(),
            i <= a@.len(),
            forall|k: int| 0 <= k < i ==> a@[k] == b@[k],
        decreases a@.len() - i,
    {
        if a[i] != b[i] {
            return false;
        }
        i = i + 1;
    }
    proof {
        assert(a@ =~= b@);
    }
    true
}

/// Parses a community from text: a well-known name, a plain number, or the
/// `as:tag` form.
fn community_from_text(b: &[u8]) -> (r: Result<BgpCommunity, BgpError>) {
    if bytes_eq(b, "no_export".as_bytes()) || bytes_eq(b, "noexport".as_bytes()) || bytes_eq(
        b,
        "no-export".as_bytes(),
    ) {
        return Ok(BgpCommunity { value: 0xffffff01 });
    }
    if bytes_eq(b, "no_advertise".as_bytes()) || bytes_eq(b, "no-advertise".as_bytes()) {
        return Ok(BgpCommunity { value: 0xffffff02 });
    }
    if bytes_eq(b, "no_export_subconfed".as_bytes()) {
        return Ok(BgpCommunity { value: 0xffffff03 });
    }
    if bytes_eq(b, "nopeer".as_bytes()) || bytes_eq(b, "no-peer".as_bytes()) {
        return Ok(BgpCommunity { value: 0xffffff04 });
    }
    let mut colon: usize = b.len();
    let mut i: usize = 0;
    while i < b.len()
        invariant
            i <= b@.len(),
            colon <= b@.len(),
        decreases b@.len() - i,
    {
        if b[i] == 58 {
            colon = i;
            break ;
        }
        i = i + 1;
    }
    if colon == b.len() {
        match parse_dec_u32(b) {
            Some(v) => Ok(BgpCommunity { value: v }),
            None => Err(BgpError::static_str("Invalid community text")),
        }
    } else {
        let h = match parse_dec_u32(slice_subrange(b, 0, colon)) {
            Some(v) => v,
            None => {
                return Err(BgpError::static_str("Invalid community text"));
            },
        };
        let l = match parse_dec_u32(sub_tail(b, colon + 1)) {
            Some(v) => v,
            None => {
                return Err(BgpError::static_str("Invalid community text"));
            },
        };
        if h > 0xffff || l > 0xffff {
            return Err(BgpError::static_str("Invalid community text"));
        }
        Ok(BgpCommunity { value: (h << 16) | l })
    }
}

impl core::str::FromStr for BgpCommunity {
    type Err = BgpError;

    fn from_str(s: &str) -> (r: Result<BgpCommunity, BgpError>) {
        community_from_text(s.as_bytes())
    }
}

/// The communities path attribute. The collection is kept sorted by value,
/// without duplicates, so it re-encodes in canonical order.
#[derive(Debug, Clone, PartialEq, Eq)]
pub struct BgpCommunityList {
    pub value: Vec<BgpCommunity>,
}

/// No value occurs twice.
pub open spec fn distinct_communities(s: Seq<BgpCommunity>) -> bool {
    forall|i: int, j: int| 0 <= i < j < s.len() ==> s[i].value != s[j].value
}

/// Values strictly ascend, as an ordered set stores them.
pub open spec fn sorted_communities(s: Seq<BgpCommunity>) -> bool {
    forall|i: int, j: int| 0 <= i < j < s.len() ==> s[i].value < s[j].value
}

/// Two runs carry the same community values, each value of one present in
/// the other.
pub open spec fn same_community_values(a: Seq<BgpCommunity>, b: Seq<BgpCommunity>) -> bool {
    &&& forall|k: int|
        #![trigger a[k]]
        0 <= k < a.len() ==> exists|m: int| 0 <= m < b.len() && b[m].value == a[k].value
    &&& forall|m: int|
        #![trigger b[m]]
        0 <= m < b.len() ==> exists|k: int| 0 <= k < a.len() && a[k].value == b[m].value
}

/// The community value of the `i`-th four-octet group of a payload.
pub open spec fn community_group(s: Seq<u8>, i: int) -> u32 {
    u32_of_bytes(s[4 * i], s[4 * i + 1], s[4 * i + 2], s[4 * i + 3])
}

/// The values of the run are exactly the four-octet groups of the first
/// `upto` payload octets.
pub open spec fn community_values_of_groups(a: Seq<BgpCommunity>, s: Seq<u8>, upto: int) -> bool {
    &&& forall|k: int|
        #![trigger a[k]]
        0 <= k < a.len() ==> exists|i: int|
            0 <= i && 4 * i + 4 <= upto && a[k].value == community_group(s, i)
    &&& forall|i: int|
        #![trigger community_group(s, i)]
        0 <= i && 4 * i + 4 <= upto ==> exists|k: int|
            0 <= k < a.len() && a[k].value == community_group(s, i)
}

impl BgpCommunityList {
    /// Builds an empty collection.
    pub fn new() -> (r: BgpCommunityList)
        ensures
            r.value@ == Seq::<BgpCommunity>::empty(),
    {
        BgpCommunityList { value: Vec::new() }
    }

    /// Builds a collection from a vector: the values of the result are
    /// exactly the values given, sorted and without duplicates.
    #[verifier::rlimit(100)]
    pub fn from_vec(v: Vec<BgpCommunity>) -> (r: BgpCommunityList)
        ensures
            sorted_communities(r.value@),
            distinct_communities(r.value@),
            same_community_values(r.value@, v@),
    {
        let mut out: Vec<BgpCommunity> = Vec::new();
        let mut i: usize = 0;
        while i < v.len()
            invariant
                i <= v@.len(),
                sorted_communities(out@),
                same_community_values(out@, v@.subrange(0, i as int)),
            decreases v@.len() - i,
        {
            let ghost pre = out@;
            let ghost vpre = v@.subrange(0, i as int);
            insert_sorted_community(&mut out, v[i]);
            proof {
                let vcur = v@.subrange(0, i + 1int);
                assert(vcur[i as int] == v@[i as int]);
                assert forall|k: int|
                    #![trigger out@[k]]
                    0 <= k < out@.len() implies exists|m: int|
                    0 <= m < vcur.len() && vcur[m].value == out@[k].value by {
                    if out@[k].value == v@[i as int].value {
                        assert(vcur[i as int].value == out@[k].value);
                    } else {
                        let m2 = choose|m2: int|
                            0 <= m2 < pre.len() && pre[m2].value == out@[k].value;
                        let m3 = choose|m3: int|
                            0 <= m3 < vpre.len() && vpre[m3].value == pre[m2].value;
                        assert(vcur[m3].value == out@[k].value);
                    }
                }
                assert forall|m: int|
                    #![trigger vcur[m]]
                    0 <= m < vcur.len() implies exists|k: int|
                    0 <= k < out@.len() && out@[k].value == vcur[m].value by {
                    if m < i {
                        assert(vpre[m] == vcur[m]);
                        let k2 = choose|k2: int|
                            0 <= k2 < pre.len() && pre[k2].value == vpre[m].value;
                        let k3 = choose|k3: int|
                            0 <= k3 < out@.len() && out@[k3].value == pre[k2].value;
                        assert(out@[k3].value == vcur[m].value);
                    } else {
                        let k3 = choose|k3: int|
                            0 <= k3 < out@.len() && out@[k3].value == v@[i as int].value;
                        assert(out@[k3].value == vcur[m].value);
                    }
                }
            }
            i = i + 1;
        }
        proof {
            assert(v@.subrange(0, i as int) =~= v@);
        }
        BgpCommunityList { value: out }
    }

    /// Reads four-octet communities until the buffer is exhausted: the
    /// values of the result are exactly the four-octet groups of the
    /// payload, sorted and without duplicates. A trailing fragment is
    /// rejected.
    #[verifier::rlimit(100)]
    pub fn decode_from(buf: &[u8]) -> (r: Result<BgpCommunityList, BgpError>)
        ensures
            r matches Ok(v) ==> sorted_communities(v.value@) && distinct_communities(v.value@)
                && buf@.len() % 4 == 0 && community_values_of_groups(
                v.value@,
                buf@,
                buf@.len() as int,
            ),
            buf@.len() % 4 != 0 ==> r is Err,
            buf@.len() % 4 == 0 ==> r is Ok,
    {
        let mut out: Vec<BgpCommunity> = Vec::new();
        let mut pos: usize = 0;
        while pos < buf.len()
            invariant
                pos <= buf@.len(),
                pos % 4 == 0,
                sorted_communities(out@),
                community_values_of_groups(out@, buf@, pos as int),
            decreases buf@.len() - pos,
        {
            if buf.len() - pos < 4 {
                return Err(BgpError::static_str("Invalid BgpCommunity item length"));
            }
            let c = match BgpCommunity::decode_from(slice_subrange(buf, pos, pos + 4)) {
                Ok(c) => c,
                Err(e) => {
                    return Err(e);
                },
            };
            proof {
                let gi = pos as int / 4;
                assert(4 * gi == pos as int);
                assert(buf@.subrange(pos as int, pos as int + 4) =~= seq![
                    buf@[4 * gi],
                    buf@[4 * gi + 1],
                    buf@[4 * gi + 2],
                    buf@[4 * gi + 3],
                ]);
                crate::util::lemma_u32_of_bytes_image(
                    buf@[4 * gi],
                    buf@[4 * gi + 1],
                    buf@[4 * gi + 2],
                    buf@[4 * gi + 3],
                );
                crate::util::lemma_u32_bytes_inj(c.value, community_group(buf@, gi));
                assert(c.value == community_group(buf@, gi));
            }
            let ghost pre = out@;
            insert_sorted_community(&mut out, c);
            proof {
                let gi = pos as int / 4;
                assert forall|k: int|
                    #![trigger out@[k]]
                    0 <= k < out@.len() implies exists|i: int|
                    0 <= i && 4 * i + 4 <= pos + 4 && out@[k].value == community_group(
                        buf@,
                        i,
                    ) by {
                    if out@[k].value == c.value {
                        assert(4 * gi + 4 <= pos + 4 && out@[k].value == community_group(buf@, gi));
                    } else {
                        let m2 = choose|m2: int|
                            0 <= m2 < pre.len() && pre[m2].value == out@[k].value;
                        let i2 = choose|i2: int|
                            0 <= i2 && 4 * i2 + 4 <= pos && pre[m2].value == community_group(
                                buf@,
                                i2,
                            );
                        assert(4 * i2 + 4 <= pos + 4 && out@[k].value == community_group(buf@, i2));
                    }
                }
                assert forall|i: int|
                    #![trigger community_group(buf@, i)]
                    0 <= i && 4 * i + 4 <= pos + 4 implies exists|k: int|
                    0 <= k < out@.len() && out@[k].value == community_group(buf@, i) by {
                    if 4 * i + 4 <= pos {
                        let k2 = choose|k2: int|
                            0 <= k2 < pre.len() && pre[k2].value == community_group(buf@, i);
                        let k3 = choose|k3: int|
                            0 <= k3 < out@.len() && out@[k3].value == pre[k2].value;
                        assert(out@[k3].value == community_group(buf@, i));
                    } else {
                        assert(i == gi);
                        let k3 = choose|k3: int|
                            0 <= k3 < out@.len() && out@[k3].value == c.value;
                        assert(out@[k3].value == community_group(buf@, i));
                    }
                }
            }
            pos = pos + 4;
        }
        proof {
            assert forall|i: int, j: int| 0 <= i < j < out@.len() implies out@[i].value
                != out@[j].value by {
                assert(out@[i].value < out@[j].value);
            }
        }
        Ok(BgpCommunityList { value: out })
    }

    /// Appends each community's four-octet image, in the collection's
    /// sorted order.
    pub fn encode_to(&self, buf: &mut Vec<u8>) -> (r: Result<usize, BgpError>)
        ensures
            r matches Ok(n) ==> grew_by(old(buf)@, final(buf)@, n as int) && n == 4
                * self.value@.len(),
            r is Ok,
    {
        proof {
            assert(old(buf)@.subrange(0, old(buf)@.len() as int) =~= old(buf)@);
        }
        let mut i: usize = 0;
        let mut pos: usize = 0;
        while i < self.value.len()
            invariant
                i <= self.value@.len(),
                pos == 4 * i,
                grew_by(old(buf)@, buf@, pos as int),
            decreases self.value@.len() - i,
        {
            let ghost pre = buf@;
            push_u32(buf, self.value[i].value);
            let blen = buf.len();
            proof {
                assert(pos + 4 <= blen);
                assert forall|j: int| 0 <= j < old(buf)@.len() implies buf@[j] == old(buf)@[j] by {
                    assert(pre.subrange(0, old(buf)@.len() as int)[j] == old(buf)@[j]);
                }
                assert(buf@.subrange(0, old(buf)@.len() as int) =~= old(buf)@);
            }
            pos = pos + 4;
            i = i + 1;
        }
        Ok(pos)
    }
}

/// Adds a community at its sorted position, unless an equal value is
/// already present: the values afterwards are the values before plus the
/// new one.
fn insert_sorted_community(out: &mut Vec<BgpCommunity>, c: BgpCommunity)
    requires
        sorted_communities(old(out)@),
    ensures
        sorted_communities(final(out)@),
        forall|m: int|
            #![trigger final(out)@[m]]
            0 <= m < final(out)@.len() ==> final(out)@[m].value == c.value || exists|m2: int|
                0 <= m2 < old(out)@.len() && old(out)@[m2].value == final(out)@[m].value,
        exists|m: int| 0 <= m < final(out)@.len() && final(out)@[m].value == c.value,
        forall|m2: int|
            #![trigger old(out)@[m2]]
            0 <= m2 < old(out)@.len() ==> exists|m: int|
                0 <= m < final(out)@.len() && final(out)@[m].value == old(out)@[m2].value,
{
    let mut k: usize = 0;
    while k < out.len() && out[k].value < c.value
        invariant
            k <= out@.len(),
            out@ == old(out)@,
            sorted_communities(out@),
            forall|m: int| 0 <= m < k ==> out@[m].value < c.value,
        decreases out@.len() - k,
    {
        k = k + 1;
    }
    if k < out.len() && out[k].value == c.value {
        proof {
            assert(out@[k as int].value == c.value);
            assert forall|m2: int|
                #![trigger old(out)@[m2]]
                0 <= m2 < old(out)@.len() implies exists|m: int|
                0 <= m < out@.len() && out@[m].value == old(out)@[m2].value by {
                assert(out@[m2].value == old(out)@[m2].value);
            }
        }
        return ;
    }
    let ghost pre = out@;
    out.insert(k, c);
    proof {
        pre.insert_ensures(k as int, c);
        assert(out@ == pre.insert(k as int, c));
        assert forall|i: int, j: int|
            0 <= i < j < out@.len() implies out@[i].value < out@[j].value by {
            let ki = k as int;
            if j < ki {
                assert(out@[i] == pre[i] && out@[j] == pre[j]);
            } else if i < ki && j == ki {
                assert(out@[i] == pre[i] && out@[j] == c);
            } else if i < ki && j > ki {
                assert(out@[i] == pre[i] && out@[j] == pre[j - 1]);
            } else if i == ki {
                assert(out@[i] == c && out@[j] == pre[j - 1]);
                assert(ki < pre.len());
                assert(pre[ki].value > c.value);
                if j - 1 > ki {
                    assert(pre[ki].value < pre[j - 1].value);
                }
            } else {
                assert(out@[i] == pre[i - 1] && out@[j] == pre[j - 1]);
            }
        }
        assert(out@[k as int] == c);
        assert forall|m: int|
            #![trigger out@[m]]
            0 <= m < out@.len() implies out@[m].value == c.value || exists|m2: int|
            0 <= m2 < pre.len() && pre[m2].value == out@[m].value by {
            if m < k as int {
                assert(out@[m] == pre[m]);
            } else if m > k as int {
                assert(out@[m] == pre[m - 1]);
            }
        }
        assert forall|m2: int|
            #![trigger pre[m2]]
            0 <= m2 < pre.len() implies exists|m: int|
            0 <= m < out@.len() && out@[m].value == pre[m2].value by {
            if m2 < k as int {
                assert(out@[m2] == pre[m2]);
            } else {
                assert(out@[m2 + 1] == pre[m2]);
            }
        }
    }
}

/// One large community: a global administrator and two local parts.
#[derive(Debug, Clone, Copy, PartialEq, Eq, Structural, PartialOrd, Ord, Hash)]
pub struct BgpLargeCommunity {
    pub ga: u32,
    pub ldp1: u32,
    pub ldp2: u32,
}

/// Wire image of one large community: three four-octet values.
pub open spec fn large_community_bytes(c: BgpLargeCommunity) -> Seq<u8> {
    u32_bytes(c.ga) + u32_bytes(c.ldp1) + u32_bytes(c.ldp2)
}

impl BgpLargeCommunity {
    /// Reads a large community from a twelve-octet payload.
    pub fn decode_from(buf: &[u8]) -> (r: Result<BgpLargeCommunity, BgpError>)
        ensures
            buf@.len() == 12 ==> (r matches Ok(v) && large_community_bytes(v) == buf@),
            buf@.len() != 12 ==> r is Err,
    {
        if buf.len() == 12 {
            let ga = getn_u32(buf);
            let ldp1 = getn_u32(slice_subrange(buf, 4, 8));
            let ldp2 = getn_u32(slice_subrange(buf, 8, 12));
            let v = BgpLargeCommunity { ga, ldp1, ldp2 };
            proof {
                assert(large_community_bytes(v) =~= buf@);
            }
            Ok(v)
        } else {
            Err(BgpError::static_str("Invalid BgpLargeCommunity item length"))
        }
    }

    /// Appends the twelve-octet image.
    pub fn encode_to(&self, buf: &mut Vec<u8>) -> (r: Result<usize, BgpError>)
        ensures
            r matches Ok(n) && n == 12,
            final(buf)@ == old(buf)@ + large_community_bytes(*self),
    {
        push_u32(buf, self.ga);
        push_u32(buf, self.ldp1);
        push_u32(buf, self.ldp2);
        proof {
            assert(final(buf)@ =~= old(buf)@ + large_community_bytes(*self));
        }
        Ok(12)
    }
}

/// One large community precedes another in canonical order: by global
/// administrator, then the two local parts.
pub open spec fn large_community_lt(a: BgpLargeCommunity, b: BgpLargeCommunity) -> bool {
    a.ga < b.ga || (a.ga == b.ga && (a.ldp1 < b.ldp1 || (a.ldp1 == b.ldp1 && a.ldp2 < b.ldp2)))
}

/// Large communities strictly ascend, as an ordered set stores them.
pub open spec fn sorted_large_communities(s: Seq<BgpLargeCommunity>) -> bool {
    forall|i: int, j: int| 0 <= i < j < s.len() ==> large_community_lt(s[i], s[j])
}

/// The large communities path attribute. The collection is kept sorted,
/// without duplicates, so it re-encodes in canonical order.
#[derive(Debug, Clone, PartialEq, Eq)]
pub struct BgpLargeCommunityList {
    pub value: Vec<BgpLargeCommunity>,
}

/// True exactly when one large community precedes another canonically.
fn large_community_less(a: &BgpLargeCommunity, b: &BgpLargeCommunity) -> (r: bool)
    ensures
        r == large_community_lt(*a, *b),
{
    a.ga < b.ga || (a.ga == b.ga && (a.ldp1 < b.ldp1 || (a.ldp1 == b.ldp1 && a.ldp2 < b.ldp2)))
}

/// Adds a large community at its sorted position, unless it is already
/// present.
fn insert_sorted_large(out: &mut Vec<BgpLargeCommunity>, c: BgpLargeCommunity)
    requires
        sorted_large_communities(old(out)@),
    ensures
        sorted_large_communities(final(out)@),
{
    let mut k: usize = 0;
    while k < out.len() && large_community_less(&out[k], &c)
        invariant
            k <= out@.len(),
            out@ == old(out)@,
            sorted_large_communities(out@),
            forall|m: int| 0 <= m < k ==> large_community_lt(out@[m], c),
        decreases out@.len() - k,
    {
        k = k + 1;
    }
    if k < out.len() && out[k] == c {
        return ;
    }
    let ghost pre = out@;
    out.insert(k, c);
    proof {
        pre.insert_ensures(k as int, c);
        assert(out@ == pre.insert(k as int, c));
        assert forall|i: int, j: int|
            0 <= i < j < out@.len() implies large_community_lt(out@[i], out@[j]) by {
            let ki = k as int;
            if j < ki {
                assert(out@[i] == pre[i] && out@[j] == pre[j]);
            } else if i < ki && j == ki {
                assert(out@[i] == pre[i] && out@[j] == c);
            } else if i < ki && j > ki {
                assert(out@[i] == pre[i] && out@[j] == pre[j - 1]);
            } else if i == ki {
                assert(out@[i] == c && out@[j] == pre[j - 1]);
                assert(ki < pre.len());
                assert(!large_community_lt(pre[ki], c) && pre[ki] != c);
                assert(large_community_lt(c, pre[ki]));
                if j - 1 > ki {
                    assert(large_community_lt(pre[ki], pre[j - 1]));
                }
            } else {
                assert(out@[i] == pre[i - 1] && out@[j] == pre[j - 1]);
            }
        }
    }
}

impl BgpLargeCommunityList {
    /// Builds an empty collection.
    pub fn new() -> (r: BgpLargeCommunityList)
        ensures
            r.value@ == Seq::<BgpLargeCommunity>::empty(),
    {
        BgpLargeCommunityList { value: Vec::new() }
    }

    /// Reads twelve-octet large communities until the buffer is exhausted,
    /// keeping them sorted and without duplicates; a trailing fragment is
    /// rejected.
    pub fn decode_from(buf: &[u8]) -> (r: Result<BgpLargeCommunityList, BgpError>)
        ensures
            r matches Ok(v) ==> sorted_large_communities(v.value@) && buf@.len() % 12 == 0,
            buf@.len() % 12 != 0 ==> r is Err,
    {
        let mut out: Vec<BgpLargeCommunity> = Vec::new();
        let mut pos: usize = 0;
        while pos < buf.len()
            invariant
                pos <= buf@.len(),
                pos % 12 == 0,
                sorted_large_communities(out@),
            decreases buf@.len() - pos,
        {
            if buf.len() - pos < 12 {
                return Err(BgpError::static_str("Invalid BgpLargeCommunity item length"));
            }
            let c = match BgpLargeCommunity::decode_from(slice_subrange(buf, pos, pos + 12)) {
                Ok(c) => c,
                Err(e) => {
                    return Err(e);
                },
            };
            insert_sorted_large(&mut out, c);
            pos = pos + 12;
        }
        Ok(BgpLargeCommunityList { value: out })
    }

    /// Appends each large community's twelve-octet image, in the
    /// collection's sorted order.
    pub fn encode_to(&self, buf: &mut Vec<u8>) -> (r: Result<usize, BgpError>)
        ensures
            r matches Ok(n) ==> grew_by(old(buf)@, final(buf)@, n as int) && n == 12
                * self.value@.len(),
            r is Ok,
    {
        proof {
            assert(old(buf)@.subrange(0, old(buf)@.len() as int) =~= old(buf)@);
        }
        let mut i: usize = 0;
        let mut pos: usize = 0;
        while i < self.value.len()
            invariant
                i <= self.value@.len(),
                pos == 12 * i,
                grew_by(old(buf)@, buf@, pos as int),
            decreases self.value@.len() - i,
        {
            let ghost pre = buf@;
            let c = self.value[i];
            push_u32(buf, c.ga);
            push_u32(buf, c.ldp1);
            push_u32(buf, c.ldp2);
            let blen = buf.len();
            proof {
                assert(pos + 12 <= blen);
                assert forall|j: int| 0 <= j < old(buf)@.len() implies buf@[j] == old(buf)@[j] by {
                    assert(pre.subrange(0, old(buf)@.len() as int)[j] == old(buf)@[j]);
                }
                assert(buf@.subrange(0, old(buf)@.len() as int) =~= old(buf)@);
            }
            pos = pos + 12;
            i = i + 1;
        }
        Ok(pos)
    }
}

/// One extended community: type, subtype and a six-octet payload split as
/// a two-octet and a four-octet part.
#[derive(Debug, Clone, Copy, PartialEq, Eq, Structural, PartialOrd, Ord, Hash)]
pub struct BgpExtCommunity {
    pub ctype: u8,
    pub subtype: u8,
    pub a: u16,
    pub b: u32,
}

/// Wire image of one extended community: eight octets.
pub open spec fn ext_community_bytes(c: BgpExtCommunity) -> Seq<u8> {
    seq![c.ctype, c.subtype] + u16_bytes(c.a) + u32_bytes(c.b)
}

impl BgpExtCommunity {
    /// Builds an AS-based route target.
    pub fn rt_asn(asn: u16, val: u32) -> (r: BgpExtCommunity)
        ensures
            r == (BgpExtCommunity { ctype: 0, subtype: 2, a: asn, b: val }),
    {
        BgpExtCommunity { ctype: 0, subtype: 2, a: asn, b: val }
    }

    /// Builds an address-based route target.
    pub fn rt_ipn(ipa: Ipv4Addr, val: u16) -> (r: BgpExtCommunity)
        ensures
            r.ctype == 1 && r.subtype == 2,
    {
        BgpExtCommunity {
            ctype: 1,
            subtype: 2,
            a: ((ipa.value >> 16) & 0xffff) as u16,
            b: (((ipa.value & 0xffff) as u32) << 16) | (val as u32),
        }
    }

    /// Reads an extended community from an eight-octet payload.
    pub fn decode_from(buf: &[u8]) -> (r: Result<BgpExtCommunity, BgpError>)
        ensures
            buf@.len() == 8 ==> (r matches Ok(v) && ext_community_bytes(v) == buf@),
            buf@.len() != 8 ==> r is Err,
    {
        if buf.len() == 8 {
            let ctype = buf[0];
            let subtype = buf[1];
            let a = getn_u16(slice_subrange(buf, 2, 4));
            let b = getn_u32(slice_subrange(buf, 4, 8));
            let v = BgpExtCommunity { ctype, subtype, a, b };
            proof {
                assert(ext_community_bytes(v) =~= buf@);
            }
            Ok(v)
        } else {
            Err(BgpError::static_str("Invalid BgpExtCommunity item length"))
        }
    }

    /// Appends the eight-octet image.
    pub fn encode_to(&self, buf: &mut Vec<u8>) -> (r: Result<usize, BgpError>)
        ensures
            r matches Ok(n) && n == 8,
            final(buf)@ == old(buf)@ + ext_community_bytes(*self),
    {
        buf.push(self.ctype);
        buf.push(self.subtype);
        push_u16(buf, self.a);
        push_u32(buf, self.b);
        proof {
            assert(final(buf)@ =~= old(buf)@ + ext_community_bytes(*self));
        }
        Ok(8)
    }

    /// The address carried across the narrow part and the high half of the
    /// wide part.
    pub fn get_ipv4(&self) -> (r: Ipv4Addr)
        ensures
            r.value == ((self.a as u32) << 16) | (self.b >> 16),
    {
        Ipv4Addr { value: ((self.a as u32) << 16) | (self.b >> 16) }
    }

    /// The local number carried in the low half of the wide part.
    pub fn get_num(&self) -> (r: u16)
        ensures
            r == (self.b & 0xffff) as u16,
    {
        (self.b & 0xffff) as u16
    }
}

/// Round trip of one extended community: two values with one eight-octet
/// image are the same value, so decoding an encoded extended community
/// gives it back.
pub proof fn lemma_ext_community_image_injective(a: BgpExtCommunity, b: BgpExtCommunity)
    requires
        ext_community_bytes(a) == ext_community_bytes(b),
    ensures
        a == b,
{
    assert(ext_community_bytes(a)[0] == ext_community_bytes(b)[0]);
    assert(ext_community_bytes(a)[1] == ext_community_bytes(b)[1]);
    assert(u16_bytes(a.a) =~= ext_community_bytes(a).subrange(2, 4));
    assert(u16_bytes(b.a) =~= ext_community_bytes(b).subrange(2, 4));
    assert(u32_bytes(a.b) =~= ext_community_bytes(a).subrange(4, 8));
    assert(u32_bytes(b.b) =~= ext_community_bytes(b).subrange(4, 8));
    assert(u16_bytes(a.a)[0] == u16_bytes(b.a)[0]);
    assert(u16_bytes(a.a)[1] == u16_bytes(b.a)[1]);
    lemma_u16_inj(a.a, b.a);
    crate::util::lemma_u32_bytes_inj(a.b, b.b);
    assert(ext_community_bytes(a)[0] == a.ctype && ext_community_bytes(a)[1] == a.subtype);
    assert(ext_community_bytes(b)[0] == b.ctype && ext_community_bytes(b)[1] == b.subtype);
}

/// Two values with the same two-octet image are equal.
proof fn lemma_u16_inj(a: u16, b: u16)
    by (bit_vector)
    ensures
        ((a >> 8) & 0xff) as u8 == ((b >> 8) & 0xff) as u8 && (a & 0xff) as u8 == (b
            & 0xff) as u8 ==> a == b,
{
}

/// Round trip of one large community: two values with one twelve-octet
/// image are the same value, so decoding an encoded large community gives
/// it back.
pub proof fn lemma_large_community_image_injective(a: BgpLargeCommunity, b: BgpLargeCommunity)
    requires
        large_community_bytes(a) == large_community_bytes(b),
    ensures
        a == b,
{
    assert(u32_bytes(a.ga) =~= large_community_bytes(a).subrange(0, 4));
    assert(u32_bytes(b.ga) =~= large_community_bytes(b).subrange(0, 4));
    assert(u32_bytes(a.ldp1) =~= large_community_bytes(a).subrange(4, 8));
    assert(u32_bytes(b.ldp1) =~= large_community_bytes(b).subrange(4, 8));
    assert(u32_bytes(a.ldp2) =~= large_community_bytes(a).subrange(8, 12));
    assert(u32_bytes(b.ldp2) =~= large_community_bytes(b).subrange(8, 12));
    crate::util::lemma_u32_bytes_inj(a.ga, b.ga);
    crate::util::lemma_u32_bytes_inj(a.ldp1, b.ldp1);
    crate::util::lemma_u32_bytes_inj(a.ldp2, b.ldp2);
}

/// One extended community precedes another in canonical order: by type,
/// subtype, then the two value parts.
pub open spec fn ext_community_lt(x: BgpExtCommunity, y: BgpExtCommunity) -> bool {
    x.ctype < y.ctype || (x.ctype == y.ctype && (x.subtype < y.subtype || (x.subtype == y.subtype
        && (x.a < y.a || (x.a == y.a && x.b < y.b)))))
}

/// Extended communities strictly ascend, as an ordered set stores them.
pub open spec fn sorted_ext_communities(s: Seq<BgpExtCommunity>) -> bool {
    forall|i: int, j: int| 0 <= i < j < s.len() ==> ext_community_lt(s[i], s[j])
}

/// The extended communities path attribute. The collection is kept sorted,
/// without duplicates, so it re-encodes in canonical order.
#[derive(Debug, Clone, PartialEq, Eq)]
pub struct BgpExtCommunityList {
    pub value: Vec<BgpExtCommunity>,
}

/// True exactly when one extended community precedes another canonically.
fn ext_community_less(x: &BgpExtCommunity, y: &BgpExtCommunity) -> (r: bool)
    ensures
        r == ext_community_lt(*x, *y),
{
    x.ctype < y.ctype || (x.ctype == y.ctype && (x.subtype < y.subtype || (x.subtype == y.subtype
        && (x.a < y.a || (x.a == y.a && x.b < y.b)))))
}

/// Adds an extended community at its sorted position, unless it is already
/// present.
fn insert_sorted_ext(out: &mut Vec<BgpExtCommunity>, c: BgpExtCommunity)
    requires
        sorted_ext_communities(old(out)@),
    ensures
        sorted_ext_communities(final(out)@),
{
    let mut k: usize = 0;
    while k < out.len() && ext_community_less(&out[k], &c)
        invariant
            k <= out@.len(),
            out@ == old(out)@,
            sorted_ext_communities(out@),
            forall|m: int| 0 <= m < k ==> ext_community_lt(out@[m], c),
        decreases out@.len() - k,
    {
        k = k + 1;
    }
    if k < out.len() && out[k] == c {
        return ;
    }
    let ghost pre = out@;
    out.insert(k, c);
    proof {
        pre.insert_ensures(k as int, c);
        assert(out@ == pre.insert(k as int, c));
        assert forall|i: int, j: int|
            0 <= i < j < out@.len() implies ext_community_lt(out@[i], out@[j]) by {
            let ki = k as int;
            if j < ki {
                assert(out@[i] == pre[i] && out@[j] == pre[j]);
            } else if i < ki && j == ki {
                assert(out@[i] == pre[i] && out@[j] == c);
            } else if i < ki && j > ki {
                assert(out@[i] == pre[i] && out@[j] == pre[j - 1]);
            } else if i == ki {
                assert(out@[i] == c && out@[j] == pre[j - 1]);
                assert(ki < pre.len());
                assert(!ext_community_lt(pre[ki], c) && pre[ki] != c);
                assert(ext_community_lt(c, pre[ki]));
                if j - 1 > ki {
                    assert(ext_community_lt(pre[ki], pre[j - 1]));
                }
            } else {
                assert(out@[i] == pre[i - 1] && out@[j] == pre[j - 1]);
            }
        }
    }
}

impl BgpExtCommunityList {
    /// Builds an empty collection.
    pub fn new() -> (r: BgpExtCommunityList)
        ensures
            r.value@ == Seq::<BgpExtCommunity>::empty(),
    {
        BgpExtCommunityList { value: Vec::new() }
    }

    /// Builds a collection from a vector, sorting and collapsing
    /// duplicates.
    pub fn from_vec(v: Vec<BgpExtCommunity>) -> (r: BgpExtCommunityList)
        ensures
            sorted_ext_communities(r.value@),
    {
        let mut out: Vec<BgpExtCommunity> = Vec::new();
        let mut i: usize = 0;
        while i < v.len()
            invariant
                i <= v@.len(),
                sorted_ext_communities(out@),
            decreases v@.len() - i,
        {
            insert_sorted_ext(&mut out, v[i]);
            i = i + 1;
        }
        BgpExtCommunityList { value: out }
    }

    /// Reads eight-octet extended communities while at least eight octets
    /// remain, keeping them sorted and without duplicates.
    pub fn decode_from(buf: &[u8]) -> (r: Result<BgpExtCommunityList, BgpError>)
        ensures
            r matches Ok(v) ==> sorted_ext_communities(v.value@),
            r is Ok,
    {
        let mut out: Vec<BgpExtCommunity> = Vec::new();
        let mut pos: usize = 0;
        while pos < buf.len() && buf.len() - pos >= 8
            invariant
                pos <= buf@.len(),
                sorted_ext_communities(out@),
            decreases buf@.len() - pos,
        {
            let c = match BgpExtCommunity::decode_from(slice_subrange(buf, pos, pos + 8)) {
                Ok(c) => c,
                Err(e) => {
                    return Err(e);
                },
            };
            insert_sorted_ext(&mut out, c);
            pos = pos + 8;
        }
        Ok(BgpExtCommunityList { value: out })
    }

    /// Appends each extended community's eight-octet image, in the
    /// collection's sorted order.
    pub fn encode_to(&self, buf: &mut Vec<u8>) -> (r: Result<usize, BgpError>)
        ensures
            r matches Ok(n) ==> grew_by(old(buf)@, final(buf)@, n as int) && n == 8
                * self.value@.len(),
            r is Ok,
    {
        proof {
            assert(old(buf)@.subrange(0, old(buf)@.len() as int) =~= old(buf)@);
        }
        let mut i: usize = 0;
        let mut pos: usize = 0;
        while i < self.value.len()
            invariant
                i <= self.value@.len(),
                pos == 8 * i,
                grew_by(old(buf)@, buf@, pos as int),
            decreases self.value@.len() - i,
        {
            let ghost pre = buf@;
            let c = self.value[i];
            buf.push(c.ctype);
            buf.push(c.subtype);
            push_u16(buf, c.a);
            push_u32(buf, c.b);
            let blen = buf.len();
            proof {
                assert(pos + 8 <= blen);
                assert forall|j: int| 0 <= j < old(buf)@.len() implies buf@[j] == old(buf)@[j] by {
                    assert(pre.subrange(0, old(buf)@.len() as int)[j] == old(buf)@[j]);
                }
                assert(buf@.subrange(0, old(buf)@.len() as int) =~= old(buf)@);
            }
            pos = pos + 8;
            i = i + 1;
        }
        Ok(pos)
    }
}

} // verus!
