//! NLRI data structures shared by all address families: route
//! distinguishers, MPLS label stacks, the generic prefix-item machinery and
//! the wrappers that compose them.

use crate::error::BgpError;
use crate::util::{u32_bytes, u128_bytes, getn_u16, getn_u32, push_u32};
use vstd::prelude::*;
use vstd::slice::slice_subrange;
use vstd::std_specs::cmp::PartialEqSpec;

pub mod evpn;
pub mod flowspec;
pub mod ipv4;
pub mod ipv6;
pub mod mac;
pub mod mdt;
pub mod mvpn;
pub mod vpls;

verus! {

/// Octets needed for a prefix of `bits` bits.
pub open spec fn prefix_octets(bits: int) -> int {
    (bits + 7) / 8
}

/// Splits off the tail of a buffer, starting at `from`.
pub fn sub_tail(buf: &[u8], from: usize) -> (r: &[u8])
    requires
        from <= buf@.len(),
    ensures
        r@ == buf@.subrange(from as int, buf@.len() as int),
{
    slice_subrange(buf, from, buf.len())
}

// ---------------------------------------------------------------------------
// Route distinguisher
// ---------------------------------------------------------------------------

/// A VPN route distinguisher: eight octets as two 32-bit halves.
#[derive(Debug, Clone, Copy, PartialEq, Eq, Structural, PartialOrd, Ord, Hash)]
pub struct BgpRD {
    /// high-order half
    pub rdh: u32,
    /// low-order half
    pub rdl: u32,
}

/// Wire image of a route distinguisher.
pub open spec fn rd_bytes(rd: BgpRD) -> Seq<u8> {
    u32_bytes(rd.rdh) + u32_bytes(rd.rdl)
}

impl BgpRD {
    /// Builds a route distinguisher from its two halves.
    pub fn new(h: u32, l: u32) -> (r: BgpRD)
        ensures
            r == (BgpRD { rdh: h, rdl: l }),
    {
        BgpRD { rdh: h, rdl: l }
    }

    /// True exactly when both halves are zero.
    pub fn is_zero(&self) -> (r: bool)
        ensures
            r <==> self.rdh == 0 && self.rdl == 0,
    {
        self.rdh == 0 && self.rdl == 0
    }

    /// Reads a route distinguisher from the head of the buffer.
    pub fn decode_rd_from(buf: &[u8]) -> (r: Result<(BgpRD, usize), BgpError>)
        ensures
            buf@.len() >= 8 ==> (r matches Ok((rd, n)) && n == 8 && rd_bytes(rd) == buf@.subrange(
                0,
                8,
            )),
            buf@.len() < 8 ==> r is Err,
    {
        if buf.len() >= 8 {
            let rdh = getn_u32(buf);
            let rdl = getn_u32(slice_subrange(buf, 4, 8));
            proof {
                assert(rd_bytes(BgpRD { rdh, rdl }) =~= buf@.subrange(0, 8));
            }
            Ok((BgpRD { rdh, rdl }, 8))
        } else {
            Err(BgpError::static_str("Invalid RD buffer len"))
        }
    }

    /// Appends the eight-byte image of the route distinguisher.
    pub fn encode_rd_to(&self, buf: &mut Vec<u8>) -> (r: Result<usize, BgpError>)
        ensures
            r matches Ok(n) && n == 8,
            final(buf)@ == old(buf)@ + rd_bytes(*self),
    {
        push_u32(buf, self.rdh);
        push_u32(buf, self.rdl);
        proof {
            assert(final(buf)@ =~= old(buf)@ + rd_bytes(*self));
        }
        Ok(8)
    }
}

// ---------------------------------------------------------------------------
// MPLS label stacks
// ---------------------------------------------------------------------------

/// Label values that terminate a stack on decode even when the
/// bottom-of-stack bit is clear.
pub open spec fn label_sentinel(l: u32) -> bool {
    l == 0 || l == 2 || l == 3 || l == 524288
}

/// The 20-bit label read from one three-octet stack entry.
pub open spec fn spec_label_of(b0: u8, b1: u8, b2: u8) -> u32 {
    ((b0 as u32) << 12) | ((b1 as u32) << 4) | ((b2 as u32) >> 4)
}

/// Three-octet image of one stack entry: `label << 4 | bos`.
pub open spec fn label_entry_bytes(l: u32, bos: u8) -> Seq<u8> {
    seq![
        ((l >> 12) & 0xff) as u8,
        ((l >> 4) & 0xff) as u8,
        ((((l & 0xf) << 4) | (bos as u32)) & 0xff) as u8,
    ]
}

/// Wire image of the entries before the last one (bottom-of-stack clear).
pub open spec fn labels_bytes_mid(ls: Seq<u32>) -> Seq<u8>
    decreases ls.len(),
{
    if ls.len() == 0 {
        Seq::empty()
    } else {
        labels_bytes_mid(ls.drop_last()) + label_entry_bytes(ls.last(), 0)
    }
}

/// Wire image of a label stack: every entry with bottom-of-stack clear but
/// the last, which carries it set.
pub open spec fn labels_bytes(ls: Seq<u32>) -> Seq<u8> {
    if ls.len() == 0 {
        Seq::empty()
    } else {
        labels_bytes_mid(ls.drop_last()) + label_entry_bytes(ls.last(), 1)
    }
}

/// What the stack decoder yields on a byte sequence, given the declared bit
/// length of the whole NLRI that remains: entries are read three octets at a
/// time until a sentinel value, a set bottom-of-stack bit, or the declared
/// bits run out.
pub open spec fn labels_dec(bits: int, s: Seq<u8>) -> Option<(Seq<u32>, int)>
    decreases bits,
{
    if bits <= 0 {
        Some((Seq::empty(), 0))
    } else if s.len() < 3 {
        None
    } else {
        let l = spec_label_of(s[0], s[1], s[2]);
        if label_sentinel(l) || (s[2] & 1) == 1 || bits <= 24 {
            Some((seq![l], 3))
        } else {
            match labels_dec(bits - 24, s.subrange(3, s.len() as int)) {
                Some((ls, n)) => Some((seq![l] + ls, 3 + n)),
                None => None,
            }
        }
    }
}

/// Every label a stack entry can carry fits in 20 bits.
pub proof fn lemma_spec_label_of_bound(b0: u8, b1: u8, b2: u8)
    by (bit_vector)
    ensures
        spec_label_of(b0, b1, b2) < 0x100000,
{
}

/// The stack decoder consumes at most the bytes it was given, three per
/// entry; what it yields is a well-formed stack, nonempty when any bits
/// were declared.
pub proof fn lemma_labels_dec_bounds(bits: int, s: Seq<u8>)
    ensures
        labels_dec(bits, s) matches Some((ls, n)) ==> 0 <= n <= s.len() && n == 3 * ls.len() && (
        forall|i: int| 0 <= i < ls.len() ==> ls[i] < 0x100000) && (forall|i: int|
            0 <= i < ls.len() - 1 ==> !label_sentinel(ls[i])) && (bits > 0 ==> ls.len() >= 1) && (n == 0 || 8
            * n <= bits + 24),
    decreases bits,
{
    if bits <= 0 {
    } else if s.len() < 3 {
    } else {
        let l = spec_label_of(s[0], s[1], s[2]);
        lemma_spec_label_of_bound(s[0], s[1], s[2]);
        if label_sentinel(l) || (s[2] & 1) == 1 || bits <= 24 {
            assert(labels_dec(bits, s) == Some((seq![l], 3int)));
            assert(seq![l][0] == l);
        } else {
            let tail = s.subrange(3, s.len() as int);
            lemma_labels_dec_bounds(bits - 24, tail);
            if labels_dec(bits - 24, tail) is Some {
                let (ls2, n2) = labels_dec(bits - 24, tail).unwrap();
                let ls = seq![l] + ls2;
                assert(labels_dec(bits, s) == Some((ls, 3 + n2)));
                assert(ls[0] == l);
                assert(ls2.len() >= 1);
                assert forall|i: int| 0 <= i < ls.len() implies ls[i] < 0x100000 by {
                    if i >= 1 {
                        assert(ls[i] == ls2[i - 1]);
                    }
                }
                assert forall|i: int| 0 <= i < ls.len() - 1 implies !label_sentinel(ls[i]) by {
                    if i >= 1 {
                        assert(ls[i] == ls2[i - 1]);
                    }
                }
            }
        }
    }
}

/// An ordered stack of 20-bit MPLS labels.
///
/// Label stacks never participate in NLRI identity: two stacks always
/// compare equal, so two routes that differ only in their labels are the
/// same forwarding equivalence class.
#[derive(Debug, Clone)]
pub struct MplsLabels {
    pub labels: Vec<u32>,
}

/// A stack whose wire image round-trips: labels fit in 20 bits and no
/// sentinel value stands before the last entry.
pub open spec fn wf_labels_core(ls: Seq<u32>) -> bool {
    &&& forall|i: int| 0 <= i < ls.len() ==> ls[i] < 0x100000
    &&& forall|i: int| 0 <= i < ls.len() - 1 ==> !label_sentinel(ls[i])
}

/// A round-tripping stack whose declared bit count also fits the length
/// byte of a bit-framed NLRI.
pub open spec fn wf_labels(ls: Seq<u32>) -> bool {
    &&& ls.len() <= 10
    &&& wf_labels_core(ls)
}

impl MplsLabels {
    /// Builds an empty stack.
    pub fn new() -> (r: MplsLabels)
        ensures
            r.labels@ == Seq::<u32>::empty(),
    {
        MplsLabels { labels: Vec::new() }
    }

    /// Builds a stack from a vector of label values.
    pub fn fromvec(lbls: Vec<u32>) -> (r: MplsLabels)
        ensures
            r.labels == lbls,
    {
        MplsLabels { labels: lbls }
    }
}

impl PartialEq for MplsLabels {
    /// Label stacks are opaque to comparison: any two are equal.
    fn eq(&self, _other: &Self) -> (r: bool)
    {
        true
    }
}

impl vstd::std_specs::cmp::PartialEqSpecImpl for MplsLabels {
    open spec fn obeys_eq_spec() -> bool {
        true
    }

    open spec fn eq_spec(&self, _other: &Self) -> bool {
        true
    }
}

impl Eq for MplsLabels {

}

impl PartialOrd for MplsLabels {
    /// Label stacks are opaque to ordering too: any two compare equal.
    fn partial_cmp(&self, _other: &Self) -> (r: Option<core::cmp::Ordering>) {
        Some(core::cmp::Ordering::Equal)
    }
}

impl vstd::std_specs::cmp::PartialOrdSpecImpl for MplsLabels {
    open spec fn obeys_partial_cmp_spec() -> bool {
        true
    }

    open spec fn partial_cmp_spec(&self, _other: &Self) -> Option<core::cmp::Ordering> {
        Some(core::cmp::Ordering::Equal)
    }
}

/// Label stacks do not affect NLRI identity: any two stacks are equal
/// under the stack's own equality, so two labeled NLRI that differ only in
/// their labels compare equal, whatever the labels are.
pub proof fn lemma_labels_opaque_identity(l1: MplsLabels, l2: MplsLabels)
    ensures
        l1.eq_spec(&l2),
{
}

/// A sentinel label value terminates the stack even when the
/// bottom-of-stack bit is clear: decoding an entry that carries such a
/// value stops there, whatever follows and however many bits were
/// declared.
pub proof fn lemma_label_sentinel_terminates(l: u32, rest: Seq<u8>, bits: int)
    requires
        label_sentinel(l),
        l < 0x100000,
        bits > 0,
    ensures
        labels_dec(bits, label_entry_bytes(l, 0) + rest) == Some((seq![l], 3int)),
{
    let s = label_entry_bytes(l, 0) + rest;
    let e = label_entry_bytes(l, 0);
    assert(s[0] == e[0] && s[1] == e[1] && s[2] == e[2]);
    lemma_label_entry_round_trip(l, 0);
    assert(spec_label_of(s[0], s[1], s[2]) == l);
}

/// One three-octet entry recodes to the label it was read from.
pub proof fn lemma_label_entry_round_trip(l: u32, bos: u8)
    by (bit_vector)
    ensures
        l < 0x100000 && bos <= 1 ==> spec_label_of(
            ((l >> 12) & 0xff) as u8,
            ((l >> 4) & 0xff) as u8,
            ((((l & 0xf) << 4) | (bos as u32)) & 0xff) as u8,
        ) == l && (((((l & 0xf) << 4) | (bos as u32)) & 0xff) as u8 & 1) == bos,
{
}

/// Reads a label stack from the head of the buffer: `bits` is the declared
/// bit length of the remaining NLRI. Mirrors `labels_dec` exactly.
pub fn labels_extract(bits: u32, buf: &[u8]) -> (r: Result<(Vec<u32>, usize), BgpError>)
    ensures
        r matches Ok((ls, n)) ==> labels_dec(bits as int, buf@) == Some((ls@, n as int)) && n
            <= buf@.len(),
        r is Err ==> labels_dec(bits as int, buf@) is None,
    decreases bits,
{
    if bits == 0 {
        let v: Vec<u32> = Vec::new();
        proof {
            assert(labels_dec(bits as int, buf@) == Some((Seq::<u32>::empty(), 0int)));
            assert(v@ =~= Seq::<u32>::empty());
        }
        return Ok((v, 0));
    }
    if buf.len() < 3 {
        return Err(BgpError::insufficient_buffer_size());
    }
    let b0 = buf[0];
    let b1 = buf[1];
    let b2 = buf[2];
    let l: u32 = ((b0 as u32) << 12) | ((b1 as u32) << 4) | ((b2 as u32) >> 4);
    let is_sent = l == 524288 || l == 0 || l == 2 || l == 3;
    if is_sent || (b2 & 1) == 1 || bits <= 24 {
        let mut v: Vec<u32> = Vec::new();
        v.push(l);
        proof {
            assert(v@ =~= seq![l]);
        }
        Ok((v, 3))
    } else {
        match labels_extract(bits - 24, sub_tail(buf, 3)) {
            Ok((mut ls, n)) => {
                let ghost tail = ls@;
                ls.insert(0, l);
                proof {
                    assert(ls@ =~= seq![l] + tail);
                }
                Ok((ls, n + 3))
            },
            Err(e) => Err(e),
        }
    }
}

/// Appends the wire image of a label stack; returns the declared bit count
/// and the octet count. An empty stack writes nothing.
pub fn labels_encode(labels: &Vec<u32>, buf: &mut Vec<u8>) -> (r: (u8, usize))
    requires
        wf_labels(labels@),
    ensures
        final(buf)@ == old(buf)@ + labels_bytes(labels@),
        r.1 == labels_bytes(labels@).len(),
        r.0 == 24 * labels@.len(),
        r.1 == 3 * labels@.len(),
{
    let n = labels.len();
    let sz = labels_encode_raw(labels, buf);
    ((24 * (n as u8)) as u8, sz)
}

/// Appends the wire image of a label stack without computing a bit count;
/// returns the octet count. An empty stack writes nothing.
pub fn labels_encode_raw(labels: &Vec<u32>, buf: &mut Vec<u8>) -> (r: usize)
    requires
        wf_labels_core(labels@),
        labels@.len() <= 21840,
    ensures
        final(buf)@ == old(buf)@ + labels_bytes(labels@),
        r == labels_bytes(labels@).len(),
        r == 3 * labels@.len(),
{
    let n = labels.len();
    if n == 0 {
        proof {
            assert(final(buf)@ =~= old(buf)@ + labels_bytes(labels@));
        }
        return 0;
    }
    let mut i: usize = 0;
    while i < n - 1
        invariant
            n == labels@.len(),
            1 <= n <= 21840,
            i < n,
            wf_labels_core(labels@),
            buf@ == old(buf)@ + labels_bytes_mid(labels@.subrange(0, i as int)),
        decreases n - i,
    {
        let l = labels[i];
        buf.push(((l >> 12) & 0xff) as u8);
        buf.push(((l >> 4) & 0xff) as u8);
        buf.push((((l & 0xf) << 4) & 0xff) as u8);
        proof {
            let pre = labels@.subrange(0, i as int);
            let cur = labels@.subrange(0, i + 1int);
            assert(cur.drop_last() =~= pre);
            assert(((((l & 0xf) << 4) | (0u8 as u32)) & 0xff) as u8 == (((l & 0xf) << 4)
                & 0xff) as u8) by (bit_vector);
            assert(buf@ =~= old(buf)@ + labels_bytes_mid(cur));
        }
        i = i + 1;
    }
    let l = labels[n - 1];
    buf.push(((l >> 12) & 0xff) as u8);
    buf.push(((l >> 4) & 0xff) as u8);
    buf.push(((((l & 0xf) << 4) | 1) & 0xff) as u8);
    proof {
        assert(labels@.subrange(0, n - 1int) =~= labels@.drop_last());
        assert(((((l & 0xf) << 4) | (1u8 as u32)) & 0xff) as u8 == ((((l & 0xf) << 4) | 1)
            & 0xff) as u8) by (bit_vector);
        assert(final(buf)@ =~= old(buf)@ + labels_bytes(labels@));
        lemma_labels_bytes_len(labels@);
    }
    3 * n
}

/// A label stack's wire image holds three octets per entry.
pub proof fn lemma_labels_bytes_len(ls: Seq<u32>)
    ensures
        labels_bytes(ls).len() == 3 * ls.len(),
        labels_bytes_mid(ls).len() == 3 * ls.len(),
    decreases ls.len(),
{
    if ls.len() == 0 {
    } else {
        lemma_labels_bytes_len(ls.drop_last());
    }
}

/// Splitting the image of the non-final entries at the first entry.
pub proof fn lemma_labels_mid_first(ls: Seq<u32>)
    requires
        ls.len() >= 1,
    ensures
        labels_bytes_mid(ls) == label_entry_bytes(ls[0], 0) + labels_bytes_mid(ls.drop_first()),
    decreases ls.len(),
{
    if ls.len() == 1 {
        assert(ls.drop_last() =~= Seq::<u32>::empty());
        assert(ls.drop_first() =~= Seq::<u32>::empty());
        assert(ls.last() == ls[0]);
        assert(labels_bytes_mid(ls) =~= label_entry_bytes(ls[0], 0) + labels_bytes_mid(
            ls.drop_first(),
        ));
    } else {
        lemma_labels_mid_first(ls.drop_last());
        assert(ls.drop_last()[0] == ls[0]);
        assert(ls.drop_last().drop_first() =~= ls.drop_first().drop_last());
        assert(ls.drop_first().last() == ls.last());
        assert(labels_bytes_mid(ls) =~= label_entry_bytes(ls[0], 0) + labels_bytes_mid(
            ls.drop_first(),
        ));
    }
}

/// Splitting a stack image at its first entry.
pub proof fn lemma_labels_bytes_first(ls: Seq<u32>)
    requires
        ls.len() >= 2,
    ensures
        labels_bytes(ls) == label_entry_bytes(ls[0], 0) + labels_bytes(ls.drop_first()),
{
    lemma_labels_mid_first(ls.drop_last());
    assert(ls.drop_last()[0] == ls[0]);
    assert(ls.drop_last().drop_first() =~= ls.drop_first().drop_last());
    assert(ls.drop_first().last() == ls.last());
    assert(labels_bytes(ls) =~= label_entry_bytes(ls[0], 0) + labels_bytes(ls.drop_first()));
}

/// Round trip for label stacks: decoding the image of a well-formed stack,
/// under any declared bit count that covers it, yields the stack back.
pub proof fn lemma_labels_round_trip(ls: Seq<u32>, rest: Seq<u8>, bits: int)
    requires
        wf_labels_core(ls),
        ls.len() >= 1,
        bits >= 24 * ls.len(),
    ensures
        labels_dec(bits, labels_bytes(ls) + rest) == Some((ls, 3 * ls.len() as int)),
    decreases ls.len(),
{
    let s = labels_bytes(ls) + rest;
    lemma_labels_bytes_len(ls);
    if ls.len() == 1 {
        let l = ls[0];
        let e = label_entry_bytes(l, 1);
        assert(ls.drop_last() =~= Seq::<u32>::empty());
        assert(s[0] == e[0] && s[1] == e[1] && s[2] == e[2]);
        lemma_label_entry_round_trip(l, 1);
        assert(spec_label_of(s[0], s[1], s[2]) == l);
        assert((s[2] & 1) == 1);
        assert(labels_dec(bits, s) == Some((seq![l], 3int)));
        assert(seq![l] =~= ls);
    } else {
        let l = ls[0];
        lemma_labels_bytes_first(ls);
        let e = label_entry_bytes(l, 0);
        assert(s[0] == e[0] && s[1] == e[1] && s[2] == e[2]);
        lemma_label_entry_round_trip(l, 0);
        assert(spec_label_of(s[0], s[1], s[2]) == l);
        assert((s[2] & 1) == 0);
        assert(!label_sentinel(l));
        assert(bits > 24);
        let tail = ls.drop_first();
        assert(wf_labels_core(tail));
        lemma_labels_round_trip(tail, rest, bits - 24);
        assert(s.subrange(3, s.len() as int) =~= labels_bytes(tail) + rest);
        assert(seq![l] + tail =~= ls);
    }
}

// ---------------------------------------------------------------------------
// The generic NLRI item: a declared bit length byte followed by a payload.
// ---------------------------------------------------------------------------

/// An NLRI item framed as a bit-length byte followed by its payload.
///
/// Each implementation carries its own specification: the well-formedness
/// predicate, the declared bit length and payload image written by the
/// encoder, a specification-level parsing relation that the executable
/// decoder is proved to satisfy, and a proof that decoding an encoded value
/// yields the value back.
pub trait BgpItem: Sized {
    /// Values whose wire image round-trips.
    spec fn wf(&self) -> bool;

    /// Declared bit length written before the payload.
    spec fn enc_bits(&self) -> int;

    /// Payload image.
    spec fn enc_payload(&self) -> Seq<u8>;

    /// Holds when decoding `s` under declared bit length `bits` yields `v`,
    /// consuming `n` bytes.
    spec fn dec_ok(bits: int, s: Seq<u8>, v: Self, n: int) -> bool;

    /// The same value up to container identity: equal fields, with label
    /// stacks compared by their contents.
    spec fn samev(a: Self, b: Self) -> bool;

    /// A well-formed value declares a nonnegative bit length.
    proof fn lemma_enc_bits_nonneg(&self)
        requires
            self.wf(),
        ensures
            self.enc_bits() >= 0,
    ;

    /// The parser consumes at most the bytes it was given and yields a
    /// well-formed value whose bit length fits the declared one.
    proof fn lemma_dec_bounds(bits: int, s: Seq<u8>, v: Self, n: int)
        requires
            Self::dec_ok(bits, s, v, n),
        ensures
            0 <= n <= s.len(),
            v.wf(),
            0 <= v.enc_bits() <= bits,
    ;

    /// Round trip: on the image of a well-formed value, padded by anything,
    /// the parser succeeds, and anything it yields is the value back.
    proof fn lemma_round_trip(&self, rest: Seq<u8>)
        requires
            self.wf(),
        ensures
            exists|n: int| Self::dec_ok(self.enc_bits(), self.enc_payload() + rest, *self, n),
            forall|v: Self, n: int|
                Self::dec_ok(self.enc_bits(), self.enc_payload() + rest, v, n) ==> Self::samev(
                    v,
                    *self,
                ) && n == self.enc_payload().len(),
    ;

    /// At most one value and consumed count fit given bytes and declared
    /// bit length: the parse relation is a partial function.
    proof fn lemma_dec_deterministic(bits: int, s: Seq<u8>, v1: Self, n1: int, v2: Self, n2: int)
        requires
            Self::dec_ok(bits, s, v1, n1),
            Self::dec_ok(bits, s, v2, n2),
        ensures
            n1 == n2,
            Self::samev(v1, v2),
    ;

    /// Reads an item's payload, with `bits` taken from the length byte; it
    /// succeeds whenever any value parses from these bytes under this bit
    /// length.
    fn extract_bits_from(bits: u8, buf: &[u8]) -> (r: Result<(Self, usize), BgpError>)
        ensures
            r matches Ok((v, n)) ==> Self::dec_ok(bits as int, buf@, v, n as int),
            (exists|v: Self, n: int| #[trigger] Self::dec_ok(bits as int, buf@, v, n))
                ==> r is Ok,
    ;

    /// Appends the payload image; returns the declared bit length and the
    /// octet count written.
    fn set_bits_to(&self, buf: &mut Vec<u8>) -> (r: Result<(u8, usize), BgpError>)
        requires
            self.wf(),
        ensures
            r matches Ok((bits, n)) && bits as int == self.enc_bits() && n
                == self.enc_payload().len() && final(buf)@ == old(buf)@ + self.enc_payload(),
    ;

    /// The declared bit length of this item.
    fn prefixlen(&self) -> (r: usize)
        requires
            self.wf(),
        ensures
            r == self.enc_bits(),
    ;
}

/// Whole-item image: length byte then payload.
pub open spec fn item_bytes<T: BgpItem>(v: T) -> Seq<u8> {
    seq![(v.enc_bits() as u8)] + v.enc_payload()
}

/// Image of a run of items.
pub open spec fn items_bytes<T: BgpItem>(s: Seq<T>) -> Seq<u8>
    decreases s.len(),
{
    if s.len() == 0 {
        Seq::empty()
    } else {
        items_bytes(s.drop_last()) + item_bytes(s.last())
    }
}

/// The run parsing relation: the byte run splits into framed items, each a
/// length byte followed by a payload its item parses from.
pub open spec fn items_run_ok<T: BgpItem>(s: Seq<u8>, v: Seq<T>) -> bool
    decreases s.len(),
{
    if s.len() == 0 {
        v.len() == 0
    } else {
        v.len() > 0 && exists|n: int|
            #![trigger T::dec_ok(s[0] as int, s.subrange(1, s.len() as int), v[0], n)]
            {
                &&& 0 <= n
                &&& 1 + n <= s.len()
                &&& T::dec_ok(s[0] as int, s.subrange(1, s.len() as int), v[0], n)
                &&& items_run_ok(s.subrange(1 + n, s.len() as int), v.subrange(1, v.len() as int))
            }
    }
}

/// Splitting a run image at its first item.
pub proof fn lemma_items_bytes_first<T: BgpItem>(v: Seq<T>)
    requires
        v.len() >= 1,
    ensures
        items_bytes(v) == item_bytes(v[0]) + items_bytes(v.drop_first()),
    decreases v.len(),
{
    if v.len() == 1 {
        assert(v.drop_last() =~= Seq::<T>::empty());
        assert(v.drop_first() =~= Seq::<T>::empty());
        assert(v.last() == v[0]);
        assert(items_bytes(v) =~= item_bytes(v[0]) + items_bytes(v.drop_first()));
    } else {
        lemma_items_bytes_first(v.drop_last());
        assert(v.drop_last()[0] == v[0]);
        assert(v.drop_last().drop_first() =~= v.drop_first().drop_last());
        assert(v.drop_first().last() == v.last());
        assert(items_bytes(v) =~= item_bytes(v[0]) + items_bytes(v.drop_first()));
    }
}

/// Round trip of a whole run: the image of a run of well-formed items
/// parses, and parses only to runs whose items are the originals.
pub proof fn lemma_items_run_round_trip<T: BgpItem>(v: Seq<T>)
    requires
        forall|i: int| 0 <= i < v.len() ==> (#[trigger] v[i]).wf() && 0 <= v[i].enc_bits() <= 255,
    ensures
        items_run_ok(items_bytes(v), v),
        forall|w: Seq<T>|
            #![trigger items_run_ok(items_bytes(v), w)]
            items_run_ok(items_bytes(v), w) ==> w.len() == v.len() && forall|i: int|
                0 <= i < v.len() ==> T::samev(#[trigger] w[i], v[i]),
    decreases v.len(),
{
    let s = items_bytes(v);
    if v.len() == 0 {
        assert(s =~= Seq::<u8>::empty());
    } else {
        lemma_items_bytes_first(v);
        let first = v[0];
        let rest = v.drop_first();
        let pay = first.enc_payload();
        let restb = items_bytes(rest);
        assert(s =~= seq![(first.enc_bits() as u8)] + (pay + restb));
        assert(s[0] == first.enc_bits() as u8);
        assert(s[0] as int == first.enc_bits());
        assert(s.subrange(1, s.len() as int) =~= pay + restb);
        first.lemma_round_trip(restb);
        let n0 = choose|n0: int| T::dec_ok(first.enc_bits(), pay + restb, first, n0);
        assert(n0 == pay.len());
        T::lemma_dec_bounds(first.enc_bits(), pay + restb, first, n0);
        assert(forall|i: int| 0 <= i < rest.len() ==> rest[i] == v[i + 1]);
        lemma_items_run_round_trip::<T>(rest);
        assert(s.subrange(1 + n0, s.len() as int) =~= restb);
        assert(v.subrange(1, v.len() as int) =~= rest);
        assert(items_run_ok(s, v));
        assert forall|w: Seq<T>|
            #![trigger items_run_ok(s, w)]
            items_run_ok(s, w) implies w.len() == v.len() && forall|i: int|
            0 <= i < v.len() ==> T::samev(#[trigger] w[i], v[i]) by {
            assert(w.len() > 0);
            let n1 = choose|n1: int|
                {
                    &&& 0 <= n1
                    &&& 1 + n1 <= s.len()
                    &&& T::dec_ok(s[0] as int, s.subrange(1, s.len() as int), w[0], n1)
                    &&& items_run_ok(s.subrange(1 + n1, s.len() as int), w.subrange(1, w.len() as int))
                };
            assert(T::samev(w[0], first) && n1 == pay.len());
            assert(s.subrange(1 + n1, s.len() as int) =~= restb);
            let wrest = w.subrange(1, w.len() as int);
            assert(items_run_ok(restb, wrest));
            assert(wrest.len() == rest.len());
            assert forall|i: int| 0 <= i < v.len() implies T::samev(#[trigger] w[i], v[i]) by {
                if i >= 1 {
                    assert(T::samev(wrest[i - 1], rest[i - 1]));
                    assert(wrest[i - 1] == w[i] && rest[i - 1] == v[i]);
                }
            }
        }
    }
}

/// Reads one item: its length byte, then its payload. The result is tied
/// to the bytes through the item's parsing relation, under the length byte
/// that was read.
pub fn decode_bgpitem_from<T: BgpItem>(buf: &[u8]) -> (r: Result<(T, usize), BgpError>)
    ensures
        r matches Ok((v, n)) ==> v.wf() && 1 <= n <= buf@.len() && T::dec_ok(
            buf@[0] as int,
            buf@.subrange(1, buf@.len() as int),
            v,
            n - 1,
        ),
        buf@.len() >= 1 && (exists|v: T, n: int|
            #[trigger] T::dec_ok(buf@[0] as int, buf@.subrange(1, buf@.len() as int), v, n))
            ==> r is Ok,
        buf@.len() < 1 ==> r is Err,
{
    if buf.len() < 1 {
        return Err(BgpError::insufficient_buffer_size());
    }
    let bits = buf[0];
    match T::extract_bits_from(bits, sub_tail(buf, 1)) {
        Ok((v, n)) => {
            proof {
                T::lemma_dec_bounds(bits as int, buf@.subrange(1, buf@.len() as int), v, n as int);
            }
            Ok((v, n + 1))
        },
        Err(e) => Err(e),
    }
}

/// Reads items until the buffer is exhausted. On success the whole buffer
/// was consumed and the decoded run stands in the run parsing relation to
/// it, so it is the run the bytes encode.
pub fn decode_bgpitems_from<T: BgpItem>(buf: &[u8]) -> (r: Result<(Vec<T>, usize), BgpError>)
    ensures
        r matches Ok((v, n)) ==> n == buf@.len() && items_run_ok(buf@, v@) && forall|i: int|
            0 <= i < v@.len() ==> v@[i].wf(),
        (exists|w: Seq<T>| #[trigger] items_run_ok(buf@, w)) ==> r is Ok,
{
    let mut v: Vec<T> = Vec::new();
    let mut curpos: usize = 0;
    proof {
        assert(buf@.subrange(0, buf@.len() as int) =~= buf@);
        if exists|w0: Seq<T>| #[trigger] items_run_ok(buf@, w0) {
            let w0 = choose|w0: Seq<T>| #[trigger] items_run_ok(buf@, w0);
            assert(items_run_ok(buf@.subrange(0, buf@.len() as int), w0));
        }
    }
    while curpos < buf.len()
        invariant
            curpos <= buf@.len(),
            forall|i: int| 0 <= i < v@.len() ==> v@[i].wf(),
            forall|w: Seq<T>|
                #![trigger items_run_ok(buf@.subrange(curpos as int, buf@.len() as int), w)]
                items_run_ok(buf@.subrange(curpos as int, buf@.len() as int), w) ==> items_run_ok(
                    buf@,
                    v@ + w,
                ),
            (exists|w0: Seq<T>| #[trigger] items_run_ok(buf@, w0)) ==> (exists|w: Seq<T>|
                #[trigger] items_run_ok(buf@.subrange(curpos as int, buf@.len() as int), w)),
        decreases buf@.len() - curpos,
    {
        match decode_bgpitem_from::<T>(sub_tail(buf, curpos)) {
            Ok((item, n)) => {
                let ghost item_g = item;
                let ghost pre_v = v@;
                let ghost suffix = buf@.subrange(curpos as int, buf@.len() as int);
                v.push(item);
                proof {
                    let suffix2 = buf@.subrange(curpos + n, buf@.len() as int);
                    assert(suffix.subrange(1, suffix.len() as int) =~= buf@.subrange(
                        curpos + 1,
                        buf@.len() as int,
                    ));
                    assert forall|w: Seq<T>|
                        #![trigger items_run_ok(suffix2, w)]
                        items_run_ok(suffix2, w) implies items_run_ok(buf@, v@ + w) by {
                        let vw = seq![item_g] + w;
                        assert(vw[0] == item_g && vw.len() > 0);
                        assert(vw.subrange(1, vw.len() as int) =~= w);
                        assert(suffix.subrange(1 + (n - 1), suffix.len() as int) =~= suffix2);
                        assert(T::dec_ok(
                            suffix[0] as int,
                            suffix.subrange(1, suffix.len() as int),
                            vw[0],
                            n - 1,
                        ));
                        assert(items_run_ok(suffix, vw));
                        assert(pre_v + vw =~= v@ + w);
                        assert(items_run_ok(buf@, pre_v + vw));
                    }
                }
                proof {
                    if exists|w0: Seq<T>| #[trigger] items_run_ok(buf@, w0) {
                        let w = choose|w: Seq<T>| #[trigger] items_run_ok(suffix, w);
                        assert(items_run_ok(suffix, w));
                        assert(w.len() > 0);
                        let n2 = choose|n2: int|
                            #![trigger T::dec_ok(suffix[0] as int, suffix.subrange(1, suffix.len() as int), w[0], n2)]
                            {
                                &&& 0 <= n2
                                &&& 1 + n2 <= suffix.len()
                                &&& T::dec_ok(
                                    suffix[0] as int,
                                    suffix.subrange(1, suffix.len() as int),
                                    w[0],
                                    n2,
                                )
                                &&& items_run_ok(
                                    suffix.subrange(1 + n2, suffix.len() as int),
                                    w.subrange(1, w.len() as int),
                                )
                            };
                        T::lemma_dec_deterministic(
                            suffix[0] as int,
                            suffix.subrange(1, suffix.len() as int),
                            item_g,
                            n - 1,
                            w[0],
                            n2,
                        );
                        assert(suffix.subrange(1 + n2, suffix.len() as int) =~= buf@.subrange(
                            curpos + n,
                            buf@.len() as int,
                        ));
                        assert(items_run_ok(
                            buf@.subrange(curpos + n, buf@.len() as int),
                            w.subrange(1, w.len() as int),
                        ));
                    }
                }
                curpos = curpos + n;
            },
            Err(e) => {
                proof {
                    if exists|w0: Seq<T>| #[trigger] items_run_ok(buf@, w0) {
                        let suffix = buf@.subrange(curpos as int, buf@.len() as int);
                        let w = choose|w: Seq<T>| #[trigger] items_run_ok(suffix, w);
                        assert(items_run_ok(suffix, w));
                        assert(suffix.len() > 0 && w.len() > 0);
                        let n2 = choose|n2: int|
                            #![trigger T::dec_ok(suffix[0] as int, suffix.subrange(1, suffix.len() as int), w[0], n2)]
                            {
                                &&& 0 <= n2
                                &&& 1 + n2 <= suffix.len()
                                &&& T::dec_ok(
                                    suffix[0] as int,
                                    suffix.subrange(1, suffix.len() as int),
                                    w[0],
                                    n2,
                                )
                                &&& items_run_ok(
                                    suffix.subrange(1 + n2, suffix.len() as int),
                                    w.subrange(1, w.len() as int),
                                )
                            };
                        assert(T::dec_ok(
                            suffix[0] as int,
                            suffix.subrange(1, suffix.len() as int),
                            w[0],
                            n2,
                        ));
                        assert(false);
                    }
                }
                return Err(e);
            },
        }
    }
    proof {
        assert(buf@.subrange(curpos as int, buf@.len() as int) =~= Seq::<u8>::empty());
        assert(items_run_ok(
            buf@.subrange(curpos as int, buf@.len() as int),
            Seq::<T>::empty(),
        ));
        assert(v@ + Seq::<T>::empty() =~= v@);
        assert(items_run_ok(buf@, v@ + Seq::<T>::empty()));
    }
    Ok((v, curpos))
}

/// Appends a run of items, each as its length byte and payload; it always
/// succeeds and appends exactly the run's image.
pub fn encode_bgpitems_to<T: BgpItem>(v: &Vec<T>, buf: &mut Vec<u8>) -> (r: Result<
    usize,
    BgpError,
>)
    requires
        forall|i: int| 0 <= i < v@.len() ==> v@[i].wf(),
    ensures
        r matches Ok(n) ==> final(buf)@ == old(buf)@ + items_bytes(v@) && n == items_bytes(
            v@,
        ).len(),
        r is Ok,
{
    let mut curpos: usize = 0;
    let mut i: usize = 0;
    while i < v.len()
        invariant
            i <= v@.len(),
            forall|k: int| 0 <= k < v@.len() ==> v@[k].wf(),
            buf@ == old(buf)@ + items_bytes(v@.subrange(0, i as int)),
            curpos == items_bytes(v@.subrange(0, i as int)).len(),
            curpos == buf@.len() - old(buf)@.len(),
        decreases v@.len() - i,
    {
        let ghost pre = v@.subrange(0, i as int);
        let item = &v[i];
        let lenpos = buf.len();
        buf.push(0);
        match item.set_bits_to(buf) {
            Ok((bits, n)) => {
                buf.set(lenpos, bits);
                proof {
                    let cur = v@.subrange(0, i + 1int);
                    assert(cur.drop_last() =~= pre);
                    assert(buf@ =~= old(buf)@ + items_bytes(cur));
                }
                let blen = buf.len();
                proof {
                    assert(curpos + n + 1 <= blen);
                }
                curpos = curpos + n + 1;
                i = i + 1;
            },
            Err(e) => {
                return Err(e);
            },
        }
    }
    proof {
        assert(v@.subrange(0, v@.len() as int) =~= v@);
    }
    Ok(curpos)
}

// ---------------------------------------------------------------------------
// Wrappers composing a base prefix with labels, a route distinguisher or a
// path id.
// ---------------------------------------------------------------------------

/// A labeled NLRI: a label stack ahead of the inner prefix. The declared
/// bit length covers both. Equality ignores the label stack.
#[derive(Debug, Clone, PartialEq, Eq, PartialOrd)]
pub struct Labeled<T: BgpItem> {
    /// underlying NLRI
    pub prefix: T,
    /// label stack
    pub labels: MplsLabels,
}

impl<T: BgpItem> Labeled<T> {
    /// Wraps a prefix with a label stack.
    pub fn new(lb: MplsLabels, inner: T) -> (r: Labeled<T>)
        ensures
            r.labels == lb,
            r.prefix == inner,
    {
        Labeled { labels: lb, prefix: inner }
    }

    /// Wraps a prefix with an empty label stack.
    pub fn new_nl(inner: T) -> (r: Labeled<T>)
        ensures
            r.labels.labels@ == Seq::<u32>::empty(),
            r.prefix == inner,
    {
        Labeled { labels: MplsLabels::new(), prefix: inner }
    }
}

/// One decoding run of a labeled NLRI with witnesses for the split.
pub open spec fn labeled_dec_at<T: BgpItem>(
    bits: int,
    s: Seq<u8>,
    v: Labeled<T>,
    n: int,
    nl: int,
    np: int,
) -> bool {
    &&& 0 <= bits <= 255
    &&& labels_dec(bits, s) == Some((v.labels.labels@, nl))
    &&& 8 * nl <= bits
    &&& T::dec_ok(bits - 8 * nl, s.subrange(nl, s.len() as int), v.prefix, np)
    &&& n == nl + np
}

impl<T: BgpItem> BgpItem for Labeled<T> {
    open spec fn wf(&self) -> bool {
        &&& self.prefix.wf()
        &&& wf_labels(self.labels.labels@)
        &&& self.labels.labels@.len() >= 1 || self.prefix.enc_bits() == 0
        &&& 24 * self.labels.labels@.len() + self.prefix.enc_bits() <= 255
    }

    open spec fn enc_bits(&self) -> int {
        24 * self.labels.labels@.len() + self.prefix.enc_bits()
    }

    open spec fn enc_payload(&self) -> Seq<u8> {
        labels_bytes(self.labels.labels@) + self.prefix.enc_payload()
    }

    open spec fn dec_ok(bits: int, s: Seq<u8>, v: Labeled<T>, n: int) -> bool {
        exists|nl: int, np: int| labeled_dec_at(bits, s, v, n, nl, np)
    }

    open spec fn samev(a: Labeled<T>, b: Labeled<T>) -> bool {
        T::samev(a.prefix, b.prefix) && a.labels.labels@ == b.labels.labels@
    }

    proof fn lemma_enc_bits_nonneg(&self) {
        self.prefix.lemma_enc_bits_nonneg();
    }

    proof fn lemma_dec_bounds(bits: int, s: Seq<u8>, v: Labeled<T>, n: int) {
        let (nl, np) = choose|nl: int, np: int| labeled_dec_at(bits, s, v, n, nl, np);
        lemma_labels_dec_bounds(bits, s);
        T::lemma_dec_bounds(bits - 8 * nl, s.subrange(nl, s.len() as int), v.prefix, np);
    }

    proof fn lemma_dec_deterministic(
        bits: int,
        s: Seq<u8>,
        v1: Labeled<T>,
        n1: int,
        v2: Labeled<T>,
        n2: int,
    ) {
        let (nl1, np1) = choose|nl1: int, np1: int| labeled_dec_at(bits, s, v1, n1, nl1, np1);
        let (nl2, np2) = choose|nl2: int, np2: int| labeled_dec_at(bits, s, v2, n2, nl2, np2);
        assert(labels_dec(bits, s) == Some((v1.labels.labels@, nl1)));
        assert(labels_dec(bits, s) == Some((v2.labels.labels@, nl2)));
        T::lemma_dec_deterministic(
            bits - 8 * nl1,
            s.subrange(nl1, s.len() as int),
            v1.prefix,
            np1,
            v2.prefix,
            np2,
        );
    }

    proof fn lemma_round_trip(&self, rest: Seq<u8>) {
        let ls = self.labels.labels@;
        let ppay = self.prefix.enc_payload();
        let bits = self.enc_bits();
        let s = self.enc_payload() + rest;
        self.prefix.lemma_enc_bits_nonneg();
        lemma_labels_bytes_len(ls);
        assert(s.subrange(3 * ls.len() as int, s.len() as int) =~= ppay + rest);
        assert(s =~= labels_bytes(ls) + (ppay + rest));
        if ls.len() >= 1 {
            lemma_labels_round_trip(ls, ppay + rest, bits);
        } else {
            assert(labels_bytes(ls) =~= Seq::<u8>::empty());
            assert(s =~= ppay + rest);
            assert(ls =~= Seq::<u32>::empty());
            assert(labels_dec(bits, s) == Some((ls, 0int)));
        }
        assert(labels_dec(bits, s) == Some((ls, 3 * ls.len() as int)));
        self.prefix.lemma_round_trip(rest);
        let np = choose|np: int| T::dec_ok(self.prefix.enc_bits(), ppay + rest, self.prefix, np);
        assert(labeled_dec_at(bits, s, *self, 3 * ls.len() + np, 3 * ls.len() as int, np));
        assert(Self::dec_ok(bits, s, *self, 3 * ls.len() + np));
        assert forall|v: Labeled<T>, n: int|
            Self::dec_ok(bits, s, v, n) implies Self::samev(v, *self) && n
            == self.enc_payload().len() by {
            let (nl, np2) = choose|nl: int, np2: int| labeled_dec_at(bits, s, v, n, nl, np2);
            assert(v.labels.labels@ == ls && nl == 3 * ls.len());
            assert(s.subrange(nl, s.len() as int) =~= ppay + rest);
        }
    }

    fn extract_bits_from(bits: u8, buf: &[u8]) -> (r: Result<(Labeled<T>, usize), BgpError>) {
        let (lv, nl) = match labels_extract(bits as u32, buf) {
            Ok(p) => p,
            Err(e) => {
                proof {
                    assert forall|v: Labeled<T>, n: int| !(#[trigger] <Labeled<T> as BgpItem>::dec_ok(
                        bits as int,
                        buf@,
                        v,
                        n,
                    )) by {
                        if <Labeled<T> as BgpItem>::dec_ok(bits as int, buf@, v, n) {
                            let (nl2, np2) = choose|nl2: int, np2: int|
                                labeled_dec_at(bits as int, buf@, v, n, nl2, np2);
                            assert(labels_dec(bits as int, buf@) == Some((v.labels.labels@, nl2)));
                        }
                    }
                }
                return Err(e);
            },
        };
        if nl > 31 || nl * 8 > bits as usize {
            proof {
                assert forall|v: Labeled<T>, n: int| !(#[trigger] <Labeled<T> as BgpItem>::dec_ok(
                    bits as int,
                    buf@,
                    v,
                    n,
                )) by {
                    if <Labeled<T> as BgpItem>::dec_ok(bits as int, buf@, v, n) {
                        let (nl2, np2) = choose|nl2: int, np2: int|
                            labeled_dec_at(bits as int, buf@, v, n, nl2, np2);
                        assert(labels_dec(bits as int, buf@) == Some((v.labels.labels@, nl2)));
                        assert(nl2 == nl as int && 8 * nl2 <= bits as int);
                    }
                }
            }
            return Err(BgpError::static_str("Label stack exceeds declared NLRI length"));
        }
        let rembits: u8 = bits - ((nl * 8) as u8);
        match T::extract_bits_from(rembits, sub_tail(buf, nl)) {
            Ok((p, np)) => {
                proof {
                    let v = Labeled { prefix: p, labels: MplsLabels { labels: lv } };
                    T::lemma_dec_bounds(
                        rembits as int,
                        buf@.subrange(nl as int, buf@.len() as int),
                        p,
                        np as int,
                    );
                    assert(labeled_dec_at(
                        bits as int,
                        buf@,
                        v,
                        nl + np,
                        nl as int,
                        np as int,
                    ));
                }
                let blen = buf.len();
                proof {
                    assert(nl + np <= blen);
                }
                Ok((Labeled { prefix: p, labels: MplsLabels { labels: lv } }, nl + np))
            },
            Err(e) => {
                proof {
                    assert forall|v: Labeled<T>, n: int| !(#[trigger] <Labeled<T> as BgpItem>::dec_ok(
                        bits as int,
                        buf@,
                        v,
                        n,
                    )) by {
                        if <Labeled<T> as BgpItem>::dec_ok(bits as int, buf@, v, n) {
                            let (nl2, np2) = choose|nl2: int, np2: int|
                                labeled_dec_at(bits as int, buf@, v, n, nl2, np2);
                            assert(labels_dec(bits as int, buf@) == Some((v.labels.labels@, nl2)));
                            assert(nl2 == nl as int);
                            assert(T::dec_ok(
                                rembits as int,
                                buf@.subrange(nl as int, buf@.len() as int),
                                v.prefix,
                                np2,
                            ));
                        }
                    }
                }
                Err(e)
            },
        }
    }

    fn set_bits_to(&self, buf: &mut Vec<u8>) -> (r: Result<(u8, usize), BgpError>) {
        proof {
            self.prefix.lemma_enc_bits_nonneg();
        }
        let (lbits, ln) = labels_encode(&self.labels.labels, buf);
        match self.prefix.set_bits_to(buf) {
            Ok((pbits, pn)) => {
                let blen = buf.len();
                proof {
                    assert(final(buf)@ =~= old(buf)@ + self.enc_payload());
                    assert(ln + pn <= blen);
                }
                Ok(((lbits + pbits) as u8, ln + pn))
            },
            Err(e) => Err(e),
        }
    }

    fn prefixlen(&self) -> (r: usize) {
        proof {
            self.prefix.lemma_enc_bits_nonneg();
        }
        self.labels.labels.len() * 24 + self.prefix.prefixlen()
    }
}

/// An NLRI qualified by a route distinguisher. The declared bit length
/// covers the 64 distinguisher bits and the inner prefix.
#[derive(Debug, Clone, PartialEq, Eq, PartialOrd)]
pub struct WithRd<T: BgpItem> {
    pub prefix: T,
    pub rd: BgpRD,
}

impl<T: BgpItem> WithRd<T> {
    /// Wraps a prefix with a route distinguisher.
    pub fn new(rd: BgpRD, prefix: T) -> (r: WithRd<T>)
        ensures
            r.rd == rd,
            r.prefix == prefix,
    {
        WithRd { rd, prefix }
    }
}

/// One decoding run of an RD-qualified NLRI with a witness for the split.
pub open spec fn withrd_dec_at<T: BgpItem>(
    bits: int,
    s: Seq<u8>,
    v: WithRd<T>,
    n: int,
    np: int,
) -> bool {
    &&& 64 <= bits <= 255
    &&& s.len() >= 8
    &&& rd_bytes(v.rd) == s.subrange(0, 8)
    &&& T::dec_ok(bits - 64, s.subrange(8, s.len() as int), v.prefix, np)
    &&& n == 8 + np
}

impl<T: BgpItem> BgpItem for WithRd<T> {
    open spec fn wf(&self) -> bool {
        &&& self.prefix.wf()
        &&& 64 + self.prefix.enc_bits() <= 255
    }

    open spec fn enc_bits(&self) -> int {
        64 + self.prefix.enc_bits()
    }

    open spec fn enc_payload(&self) -> Seq<u8> {
        rd_bytes(self.rd) + self.prefix.enc_payload()
    }

    open spec fn dec_ok(bits: int, s: Seq<u8>, v: WithRd<T>, n: int) -> bool {
        exists|np: int| withrd_dec_at(bits, s, v, n, np)
    }

    open spec fn samev(a: WithRd<T>, b: WithRd<T>) -> bool {
        T::samev(a.prefix, b.prefix) && a.rd == b.rd
    }

    proof fn lemma_enc_bits_nonneg(&self) {
        self.prefix.lemma_enc_bits_nonneg();
    }

    proof fn lemma_dec_bounds(bits: int, s: Seq<u8>, v: WithRd<T>, n: int) {
        let np = choose|np: int| withrd_dec_at(bits, s, v, n, np);
        T::lemma_dec_bounds(bits - 64, s.subrange(8, s.len() as int), v.prefix, np);
    }

    proof fn lemma_dec_deterministic(
        bits: int,
        s: Seq<u8>,
        v1: WithRd<T>,
        n1: int,
        v2: WithRd<T>,
        n2: int,
    ) {
        let np1 = choose|np1: int| withrd_dec_at(bits, s, v1, n1, np1);
        let np2 = choose|np2: int| withrd_dec_at(bits, s, v2, n2, np2);
        lemma_rd_bytes_inj(v1.rd, v2.rd);
        T::lemma_dec_deterministic(
            bits - 64,
            s.subrange(8, s.len() as int),
            v1.prefix,
            np1,
            v2.prefix,
            np2,
        );
    }

    proof fn lemma_round_trip(&self, rest: Seq<u8>) {
        let ppay = self.prefix.enc_payload();
        let bits = self.enc_bits();
        let s = self.enc_payload() + rest;
        self.prefix.lemma_enc_bits_nonneg();
        assert(s.subrange(0, 8) =~= rd_bytes(self.rd));
        assert(s.subrange(8, s.len() as int) =~= ppay + rest);
        self.prefix.lemma_round_trip(rest);
        let np = choose|np: int| T::dec_ok(self.prefix.enc_bits(), ppay + rest, self.prefix, np);
        assert(withrd_dec_at(bits, s, *self, 8 + np, np));
        assert(Self::dec_ok(bits, s, *self, 8 + np));
        assert forall|v: WithRd<T>, n: int|
            Self::dec_ok(bits, s, v, n) implies Self::samev(v, *self) && n
            == self.enc_payload().len() by {
            let np2 = choose|np2: int| withrd_dec_at(bits, s, v, n, np2);
            lemma_rd_bytes_inj(v.rd, self.rd);
        }
    }

    fn extract_bits_from(bits: u8, buf: &[u8]) -> (r: Result<(WithRd<T>, usize), BgpError>) {
        if bits < 64 || buf.len() < 8 {
            proof {
                assert forall|v: WithRd<T>, n: int| !(#[trigger] <WithRd<T> as BgpItem>::dec_ok(
                    bits as int,
                    buf@,
                    v,
                    n,
                )) by {
                    if <WithRd<T> as BgpItem>::dec_ok(bits as int, buf@, v, n) {
                        let np2 = choose|np2: int| withrd_dec_at(bits as int, buf@, v, n, np2);
                    }
                }
            }
            if bits < 64 {
                return Err(BgpError::static_str("Invalid RD-qualified NLRI length"));
            }
            return Err(BgpError::insufficient_buffer_size());
        }
        let (rd, _) = match BgpRD::decode_rd_from(buf) {
            Ok(p) => p,
            Err(e) => {
                return Err(e);
            },
        };
        match T::extract_bits_from(bits - 64, sub_tail(buf, 8)) {
            Ok((p, np)) => {
                proof {
                    let v = WithRd { prefix: p, rd };
                    T::lemma_dec_bounds(
                        (bits - 64) as int,
                        buf@.subrange(8, buf@.len() as int),
                        p,
                        np as int,
                    );
                    assert(withrd_dec_at(bits as int, buf@, v, 8 + np, np as int));
                }
                let blen = buf.len();
                proof {
                    assert(8 + np <= blen);
                }
                Ok((WithRd { prefix: p, rd }, 8 + np))
            },
            Err(e) => {
                proof {
                    assert forall|v: WithRd<T>, n: int| !(#[trigger] <WithRd<T> as BgpItem>::dec_ok(
                        bits as int,
                        buf@,
                        v,
                        n,
                    )) by {
                        if <WithRd<T> as BgpItem>::dec_ok(bits as int, buf@, v, n) {
                            let np2 = choose|np2: int| withrd_dec_at(bits as int, buf@, v, n, np2);
                            assert(T::dec_ok(
                                (bits - 64) as int,
                                buf@.subrange(8, buf@.len() as int),
                                v.prefix,
                                np2,
                            ));
                        }
                    }
                }
                Err(e)
            },
        }
    }

    fn set_bits_to(&self, buf: &mut Vec<u8>) -> (r: Result<(u8, usize), BgpError>) {
        proof {
            self.prefix.lemma_enc_bits_nonneg();
        }
        let _ = match self.rd.encode_rd_to(buf) {
            Ok(n) => n,
            Err(e) => {
                return Err(e);
            },
        };
        match self.prefix.set_bits_to(buf) {
            Ok((pbits, pn)) => {
                let blen = buf.len();
                proof {
                    assert(final(buf)@ =~= old(buf)@ + self.enc_payload());
                    assert(8 + pn <= blen);
                }
                Ok((64 + pbits, 8 + pn))
            },
            Err(e) => Err(e),
        }
    }

    fn prefixlen(&self) -> (r: usize) {
        proof {
            self.prefix.lemma_enc_bits_nonneg();
        }
        64 + self.prefix.prefixlen()
    }
}

/// Equal route-distinguisher images come from equal distinguishers.
pub proof fn lemma_rd_bytes_inj(a: BgpRD, b: BgpRD)
    requires
        rd_bytes(a) == rd_bytes(b),
    ensures
        a == b,
{
    assert(u32_bytes(a.rdh) =~= rd_bytes(a).subrange(0, 4));
    assert(u32_bytes(b.rdh) =~= rd_bytes(b).subrange(0, 4));
    assert(u32_bytes(a.rdl) =~= rd_bytes(a).subrange(4, 8));
    assert(u32_bytes(b.rdl) =~= rd_bytes(b).subrange(4, 8));
    crate::util::lemma_u32_bytes_inj(a.rdh, b.rdh);
    crate::util::lemma_u32_bytes_inj(a.rdl, b.rdl);
}

/// A path identifier, four octets ahead of an NLRI when ADD-PATH is in
/// force.
pub type BgpPathId = u32;

/// An NLRI together with its path identifier.
#[derive(Debug, Clone, PartialEq, Eq, PartialOrd)]
pub struct WithPathId<T> {
    pub pathid: BgpPathId,
    pub nlri: T,
}

impl<T> WithPathId<T> {
    /// Pairs an NLRI with a path identifier.
    pub fn new(pathid: BgpPathId, nlri: T) -> (r: WithPathId<T>)
        ensures
            r.pathid == pathid,
            r.nlri == nlri,
    {
        WithPathId { pathid, nlri }
    }
}

/// Image of a run of path-id-framed items: each item's four-octet path id,
/// then its length byte and payload.
pub open spec fn pathid_items_bytes<T: BgpItem>(s: Seq<WithPathId<T>>) -> Seq<u8>
    decreases s.len(),
{
    if s.len() == 0 {
        Seq::empty()
    } else {
        pathid_items_bytes(s.drop_last()) + u32_bytes(s.last().pathid) + item_bytes(s.last().nlri)
    }
}

/// The path-id run parsing relation: while more than four octets remain,
/// each entry is a four-octet path id and then a framed item.
pub open spec fn pathid_run_ok<T: BgpItem>(s: Seq<u8>, v: Seq<WithPathId<T>>) -> bool
    decreases s.len(),
{
    if s.len() <= 4 {
        v.len() == 0
    } else {
        v.len() > 0 && crate::util::u32_bytes(v[0].pathid) == s.subrange(0, 4) && exists|n: int|
            #![trigger T::dec_ok(s[4] as int, s.subrange(5, s.len() as int), v[0].nlri, n)]
            {
                &&& 0 <= n
                &&& 5 + n <= s.len()
                &&& T::dec_ok(s[4] as int, s.subrange(5, s.len() as int), v[0].nlri, n)
                &&& pathid_run_ok(s.subrange(5 + n, s.len() as int), v.subrange(1, v.len() as int))
            }
    }
}

/// Reads path-id-framed items while more than four octets remain. The
/// decoded entries stand in the path-id run relation to the bytes, so both
/// the path ids and the prefixes are the ones the bytes carry.
pub fn decode_pathid_bgpitems_from<T: BgpItem>(buf: &[u8]) -> (r: Result<
    (Vec<WithPathId<T>>, usize),
    BgpError,
>)
    ensures
        r matches Ok((v, n)) ==> n <= buf@.len() && pathid_run_ok(buf@, v@) && forall|i: int|
            0 <= i < v@.len() ==> v@[i].nlri.wf(),
        (exists|w: Seq<WithPathId<T>>| #[trigger] pathid_run_ok(buf@, w)) ==> r is Ok,
{
    let mut v: Vec<WithPathId<T>> = Vec::new();
    let mut curpos: usize = 0;
    proof {
        assert(buf@.subrange(0, buf@.len() as int) =~= buf@);
        if exists|w0: Seq<WithPathId<T>>| #[trigger] pathid_run_ok(buf@, w0) {
            let w0 = choose|w0: Seq<WithPathId<T>>| #[trigger] pathid_run_ok(buf@, w0);
            assert(pathid_run_ok(buf@.subrange(0, buf@.len() as int), w0));
        }
    }
    while curpos < buf.len() && buf.len() - curpos > 4
        invariant
            curpos <= buf@.len(),
            forall|i: int| 0 <= i < v@.len() ==> v@[i].nlri.wf(),
            forall|w: Seq<WithPathId<T>>|
                #![trigger pathid_run_ok(buf@.subrange(curpos as int, buf@.len() as int), w)]
                pathid_run_ok(buf@.subrange(curpos as int, buf@.len() as int), w)
                    ==> pathid_run_ok(buf@, v@ + w),
            (exists|w0: Seq<WithPathId<T>>| #[trigger] pathid_run_ok(buf@, w0)) ==> (exists|
                w: Seq<WithPathId<T>>,
            |
                #[trigger] pathid_run_ok(buf@.subrange(curpos as int, buf@.len() as int), w)),
        decreases buf@.len() - curpos,
    {
        let pathid = getn_u32(vstd::slice::slice_subrange(buf, curpos, curpos + 4));
        match decode_bgpitem_from::<T>(sub_tail(buf, curpos + 4)) {
            Ok((item, n)) => {
                let ghost entry_g = WithPathId { pathid, nlri: item };
                let ghost pre_v = v@;
                let ghost suffix = buf@.subrange(curpos as int, buf@.len() as int);
                v.push(WithPathId { pathid, nlri: item });
                proof {
                    let suffix2 = buf@.subrange(curpos + 4 + n, buf@.len() as int);
                    assert(crate::util::u32_bytes(pathid) =~= suffix.subrange(0, 4));
                    assert(suffix.subrange(5, suffix.len() as int) =~= buf@.subrange(
                        curpos + 5,
                        buf@.len() as int,
                    ));
                    assert(buf@.subrange(curpos + 4, buf@.len() as int).subrange(
                        1,
                        buf@.subrange(curpos + 4, buf@.len() as int).len() as int,
                    ) =~= suffix.subrange(5, suffix.len() as int));
                    assert(suffix[4] == buf@.subrange(curpos + 4, buf@.len() as int)[0]);
                    assert forall|w: Seq<WithPathId<T>>|
                        #![trigger pathid_run_ok(suffix2, w)]
                        pathid_run_ok(suffix2, w) implies pathid_run_ok(buf@, v@ + w) by {
                        let vw = seq![entry_g] + w;
                        assert(vw[0] == entry_g && vw.len() > 0);
                        assert(vw.subrange(1, vw.len() as int) =~= w);
                        assert(suffix.subrange(5 + (n - 1), suffix.len() as int) =~= suffix2);
                        assert(T::dec_ok(
                            suffix[4] as int,
                            suffix.subrange(5, suffix.len() as int),
                            vw[0].nlri,
                            n - 1,
                        ));
                        assert(pathid_run_ok(suffix, vw));
                        assert(pre_v + vw =~= v@ + w);
                        assert(pathid_run_ok(buf@, pre_v + vw));
                    }
                }
                proof {
                    if exists|w0: Seq<WithPathId<T>>| #[trigger] pathid_run_ok(buf@, w0) {
                        let w = choose|w: Seq<WithPathId<T>>| #[trigger] pathid_run_ok(suffix, w);
                        assert(pathid_run_ok(suffix, w));
                        assert(w.len() > 0);
                        let n2 = choose|n2: int|
                            #![trigger T::dec_ok(suffix[4] as int, suffix.subrange(5, suffix.len() as int), w[0].nlri, n2)]
                            {
                                &&& 0 <= n2
                                &&& 5 + n2 <= suffix.len()
                                &&& T::dec_ok(
                                    suffix[4] as int,
                                    suffix.subrange(5, suffix.len() as int),
                                    w[0].nlri,
                                    n2,
                                )
                                &&& pathid_run_ok(
                                    suffix.subrange(5 + n2, suffix.len() as int),
                                    w.subrange(1, w.len() as int),
                                )
                            };
                        T::lemma_dec_deterministic(
                            suffix[4] as int,
                            suffix.subrange(5, suffix.len() as int),
                            entry_g.nlri,
                            n - 1,
                            w[0].nlri,
                            n2,
                        );
                        assert(suffix.subrange(5 + n2, suffix.len() as int) =~= buf@.subrange(
                            curpos + 4 + n,
                            buf@.len() as int,
                        ));
                        assert(pathid_run_ok(
                            buf@.subrange(curpos + 4 + n, buf@.len() as int),
                            w.subrange(1, w.len() as int),
                        ));
                    }
                }
                curpos = curpos + 4 + n;
            },
            Err(e) => {
                proof {
                    if exists|w0: Seq<WithPathId<T>>| #[trigger] pathid_run_ok(buf@, w0) {
                        let suffix = buf@.subrange(curpos as int, buf@.len() as int);
                        let w = choose|w: Seq<WithPathId<T>>| #[trigger] pathid_run_ok(suffix, w);
                        assert(pathid_run_ok(suffix, w));
                        assert(suffix.len() > 4 && w.len() > 0);
                        let n2 = choose|n2: int|
                            #![trigger T::dec_ok(suffix[4] as int, suffix.subrange(5, suffix.len() as int), w[0].nlri, n2)]
                            {
                                &&& 0 <= n2
                                &&& 5 + n2 <= suffix.len()
                                &&& T::dec_ok(
                                    suffix[4] as int,
                                    suffix.subrange(5, suffix.len() as int),
                                    w[0].nlri,
                                    n2,
                                )
                                &&& pathid_run_ok(
                                    suffix.subrange(5 + n2, suffix.len() as int),
                                    w.subrange(1, w.len() as int),
                                )
                            };
                        assert(buf@.subrange(curpos + 4, buf@.len() as int).subrange(
                            1,
                            buf@.subrange(curpos + 4, buf@.len() as int).len() as int,
                        ) =~= suffix.subrange(5, suffix.len() as int));
                        assert(buf@.subrange(curpos + 4, buf@.len() as int)[0] == suffix[4]);
                        assert(T::dec_ok(
                            buf@.subrange(curpos + 4, buf@.len() as int)[0] as int,
                            buf@.subrange(curpos + 4, buf@.len() as int).subrange(
                                1,
                                buf@.subrange(curpos + 4, buf@.len() as int).len() as int,
                            ),
                            w[0].nlri,
                            n2,
                        ));
                        assert(false);
                    }
                }
                return Err(e);
            },
        }
    }
    proof {
        let suffix = buf@.subrange(curpos as int, buf@.len() as int);
        assert(suffix.len() <= 4);
        assert(pathid_run_ok(suffix, Seq::<WithPathId<T>>::empty()));
        assert(v@ + Seq::<WithPathId<T>>::empty() =~= v@);
        assert(pathid_run_ok(buf@, v@ + Seq::<WithPathId<T>>::empty()));
    }
    Ok((v, curpos))
}

/// Appends a run of path-id-framed items; it always succeeds and appends
/// exactly the run's image.
pub fn encode_pathid_bgpitems_to<T: BgpItem>(v: &Vec<WithPathId<T>>, buf: &mut Vec<u8>) -> (r:
    Result<usize, BgpError>)
    requires
        forall|i: int| 0 <= i < v@.len() ==> v@[i].nlri.wf(),
    ensures
        r matches Ok(n) ==> final(buf)@ == old(buf)@ + pathid_items_bytes(v@) && n
            == pathid_items_bytes(v@).len(),
        r is Ok,
{
    let mut curpos: usize = 0;
    let mut i: usize = 0;
    while i < v.len()
        invariant
            i <= v@.len(),
            forall|k: int| 0 <= k < v@.len() ==> v@[k].nlri.wf(),
            buf@ == old(buf)@ + pathid_items_bytes(v@.subrange(0, i as int)),
            curpos == pathid_items_bytes(v@.subrange(0, i as int)).len(),
        decreases v@.len() - i,
    {
        let ghost pre = v@.subrange(0, i as int);
        push_u32(buf, v[i].pathid);
        let lenpos = buf.len();
        buf.push(0);
        match v[i].nlri.set_bits_to(buf) {
            Ok((bits, n)) => {
                buf.set(lenpos, bits);
                proof {
                    let cur = v@.subrange(0, i + 1int);
                    assert(cur.drop_last() =~= pre);
                    assert(buf@ =~= old(buf)@ + pathid_items_bytes(cur));
                }
                let blen = buf.len();
                proof {
                    assert(curpos + n + 5 <= blen);
                }
                curpos = curpos + n + 5;
                i = i + 1;
            },
            Err(e) => {
                return Err(e);
            },
        }
    }
    proof {
        assert(v@.subrange(0, v@.len() as int) =~= v@);
    }
    Ok(curpos)
}

// ---------------------------------------------------------------------------
// Items with their own sequential encoding (no leading bit-length byte).
// ---------------------------------------------------------------------------

/// The buffer grew by exactly the returned count, with the old contents as
/// prefix.
pub open spec fn grew_by(pre: Seq<u8>, post: Seq<u8>, n: int) -> bool {
    post.len() == pre.len() + n && post.subrange(0, pre.len() as int) == pre
}

/// An NLRI item whose encoding carries its own framing.
pub trait BgpAddrItem: Sized {
    /// Values the encoder accepts.
    spec fn wf(&self) -> bool;

    /// Reads one item from the head of the buffer; returns the item and the
    /// count of bytes consumed, at least one.
    fn decode_from(mode: crate::BgpTransportMode, buf: &[u8]) -> (r: Result<
        (Self, usize),
        BgpError,
    >)
        ensures
            r matches Ok((v, n)) ==> v.wf() && 1 <= n <= buf@.len(),
    ;

    /// Appends one item; returns the count of bytes appended.
    fn encode_to(&self, mode: crate::BgpTransportMode, buf: &mut Vec<u8>) -> (r: Result<
        usize,
        BgpError,
    >)
        requires
            self.wf(),
        ensures
            r matches Ok(n) ==> grew_by(old(buf)@, final(buf)@, n as int),
    ;
}

/// An NLRI item carried inside a two-octet length envelope.
pub trait BgpItemLong: Sized {
    /// Values the encoder accepts.
    spec fn wf(&self) -> bool;

    /// Reads one item from a window of exactly `size` bytes.
    fn extract_from(size: usize, buf: &[u8]) -> (r: Result<Self, BgpError>)
        requires
            size == buf@.len(),
        ensures
            r matches Ok(v) ==> v.wf(),
    ;

    /// Appends one item; returns the count of bytes appended, which fits
    /// the two-octet length envelope.
    fn pack_to(&self, buf: &mut Vec<u8>) -> (r: Result<usize, BgpError>)
        requires
            self.wf(),
        ensures
            r matches Ok(n) ==> grew_by(old(buf)@, final(buf)@, n as int) && n <= 65535,
    ;
}

/// Reads length-enveloped items until the buffer is exhausted.
pub fn decode_long_bgpitems_from<T: BgpItemLong>(buf: &[u8]) -> (r: Result<
    (Vec<T>, usize),
    BgpError,
>)
    ensures
        r matches Ok((v, n)) ==> n == buf@.len() && forall|i: int| 0 <= i < v@.len() ==> v@[i].wf(),
{
    let mut v: Vec<T> = Vec::new();
    let mut curpos: usize = 0;
    while curpos < buf.len()
        invariant
            curpos <= buf@.len(),
            forall|i: int| 0 <= i < v@.len() ==> v@[i].wf(),
        decreases buf@.len() - curpos,
    {
        if buf.len() - curpos < 2 {
            return Err(BgpError::insufficient_buffer_size());
        }
        let itemlen = getn_u16(sub_tail(buf, curpos)) as usize;
        if buf.len() - curpos - 2 < itemlen {
            return Err(BgpError::insufficient_buffer_size());
        }
        let window = slice_subrange(buf, curpos + 2, curpos + 2 + itemlen);
        match T::extract_from(itemlen, window) {
            Ok(item) => {
                v.push(item);
                curpos = curpos + itemlen + 2;
            },
            Err(e) => {
                return Err(e);
            },
        }
    }
    Ok((v, curpos))
}

/// Appends a run of length-enveloped items, each behind its two-octet
/// length.
pub fn encode_long_bgpitems_to<T: BgpItemLong>(v: &Vec<T>, buf: &mut Vec<u8>) -> (r: Result<
    usize,
    BgpError,
>)
    requires
        forall|i: int| 0 <= i < v@.len() ==> v@[i].wf(),
    ensures
        r matches Ok(n) ==> grew_by(old(buf)@, final(buf)@, n as int),
{
    let mut curpos: usize = 0;
    let mut i: usize = 0;
    proof {
        assert(old(buf)@.subrange(0, old(buf)@.len() as int) =~= old(buf)@);
    }
    while i < v.len()
        invariant
            i <= v@.len(),
            forall|k: int| 0 <= k < v@.len() ==> v@[k].wf(),
            grew_by(old(buf)@, buf@, curpos as int),
        decreases v@.len() - i,
    {
        let ghost pre = buf@;
        let lenpos = buf.len();
        buf.push(0);
        buf.push(0);
        let ghost mid = buf@;
        match v[i].pack_to(buf) {
            Ok(n) => {
                let blen0 = buf.len();
                proof {
                    assert(blen0 == mid.len() + n);
                    assert(lenpos + 2 <= blen0);
                }
                let nw: u16 = n as u16;
                let ghost packed = buf@;
                buf.set(lenpos, ((nw >> 8) & 0xff) as u8);
                buf.set(lenpos + 1, (nw & 0xff) as u8);
                let blen = buf.len();
                proof {
                    assert(buf@.len() == pre.len() + n + 2);
                    assert(curpos + n + 2 <= blen);
                    assert forall|j: int| 0 <= j < old(buf)@.len() implies buf@[j] == old(
                        buf,
                    )@[j] by {
                        assert(buf@[j] == packed[j]);
                        assert(packed.subrange(0, mid.len() as int)[j] == mid[j]);
                        assert(pre.subrange(0, old(buf)@.len() as int)[j] == old(buf)@[j]);
                    }
                    assert(buf@.subrange(0, old(buf)@.len() as int) =~= old(buf)@);
                }
                curpos = curpos + n + 2;
                i = i + 1;
            },
            Err(e) => {
                return Err(e);
            },
        }
    }
    Ok(curpos)
}

/// Reads self-framed items until the buffer is exhausted.
pub fn decode_bgpaddritems_from<T: BgpAddrItem>(
    peermode: crate::BgpTransportMode,
    buf: &[u8],
) -> (r: Result<(Vec<T>, usize), BgpError>)
    ensures
        r matches Ok((v, n)) ==> n == buf@.len() && forall|i: int| 0 <= i < v@.len() ==> v@[i].wf(),
{
    let mut v: Vec<T> = Vec::new();
    let mut curpos: usize = 0;
    while curpos < buf.len()
        invariant
            curpos <= buf@.len(),
            forall|i: int| 0 <= i < v@.len() ==> v@[i].wf(),
        decreases buf@.len() - curpos,
    {
        match T::decode_from(peermode, sub_tail(buf, curpos)) {
            Ok((item, n)) => {
                v.push(item);
                curpos = curpos + n;
            },
            Err(e) => {
                return Err(e);
            },
        }
    }
    Ok((v, curpos))
}

/// Appends a run of self-framed items.
pub fn encode_bgpaddritems_to<T: BgpAddrItem>(
    v: &Vec<T>,
    peermode: crate::BgpTransportMode,
    buf: &mut Vec<u8>,
) -> (r: Result<usize, BgpError>)
    requires
        forall|i: int| 0 <= i < v@.len() ==> v@[i].wf(),
    ensures
        r matches Ok(n) ==> grew_by(old(buf)@, final(buf)@, n as int),
{
    let mut curpos: usize = 0;
    let mut i: usize = 0;
    proof {
        assert(old(buf)@.subrange(0, old(buf)@.len() as int) =~= old(buf)@);
    }
    while i < v.len()
        invariant
            i <= v@.len(),
            forall|k: int| 0 <= k < v@.len() ==> v@[k].wf(),
            grew_by(old(buf)@, buf@, curpos as int),
        decreases v@.len() - i,
    {
        let ghost pre = buf@;
        match v[i].encode_to(peermode, buf) {
            Ok(n) => {
                let blen = buf.len();
                proof {
                    assert(buf@.len() == old(buf)@.len() + curpos + n);
                    assert(curpos + n <= blen);
                    assert forall|j: int| 0 <= j < old(buf)@.len() implies buf@[j] == old(
                        buf,
                    )@[j] by {
                        assert(buf@.subrange(0, pre.len() as int)[j] == pre[j]);
                        assert(pre.subrange(0, old(buf)@.len() as int)[j] == old(buf)@[j]);
                    }
                    assert(buf@.subrange(0, old(buf)@.len() as int) =~= old(buf)@);
                }
                curpos = curpos + n;
                i = i + 1;
            },
            Err(e) => {
                return Err(e);
            },
        }
    }
    Ok(curpos)
}

// ---------------------------------------------------------------------------
// The NLRI umbrella: one variant per address family, with and without
// path ids.
// ---------------------------------------------------------------------------

/// An address of any kind a next hop can take.
#[derive(Debug, Clone, Copy, PartialEq, Eq, Structural, PartialOrd, Ord, Hash)]
pub enum BgpAddr {
    Empty,
    V4(crate::util::Ipv4Addr),
    V6(crate::util::Ipv6Addr),
    V4RD(ipv4::BgpIPv4RD),
    V6RD(ipv6::BgpIPv6RD),
    L2(vpls::BgpL2),
    MVPN(mvpn::BgpMVPN),
}

/// A prefix of any kind: IPv4, IPv6 or MAC.
#[derive(Debug, Clone, Copy, PartialEq, Eq, Structural, PartialOrd, Ord, Hash)]
pub enum BgpNet {
    /// an IPv4 prefix
    V4(ipv4::BgpAddrV4),
    /// an IPv6 prefix
    V6(ipv6::BgpAddrV6),
    /// a MAC prefix
    MAC(mac::BgpAddrMac),
}

impl BgpNet {
    /// Builds a prefix of the kind of the given address.
    pub fn new(addr: crate::util::IpAddr, prefixlen: u8) -> (r: BgpNet)
        ensures
            addr is V4 ==> r == BgpNet::V4(
                ipv4::BgpAddrV4 { addr: addr->V4_0, prefixlen },
            ),
            addr is V6 ==> r == BgpNet::V6(
                ipv6::BgpAddrV6 { addr: addr->V6_0, prefixlen },
            ),
    {
        match addr {
            crate::util::IpAddr::V4(a) => BgpNet::V4(ipv4::BgpAddrV4 { addr: a, prefixlen }),
            crate::util::IpAddr::V6(a) => BgpNet::V6(ipv6::BgpAddrV6 { addr: a, prefixlen }),
        }
    }

    /// True when the given prefix lies wholly under this one; prefixes of
    /// different kinds never contain one another.
    pub fn contains(&self, a: &BgpNet) -> (r: bool)
        requires
            (self matches BgpNet::V4(p) ==> p.prefixlen <= 32) && (self matches BgpNet::V6(p)
                ==> p.prefixlen <= 128) && (self matches BgpNet::MAC(p) ==> p.prefixlen <= 48),
            (a matches BgpNet::V4(p) ==> p.prefixlen <= 32) && (a matches BgpNet::V6(p)
                ==> p.prefixlen <= 128) && (a matches BgpNet::MAC(p) ==> p.prefixlen <= 48),
    {
        match self {
            BgpNet::V4(s4) => match a {
                BgpNet::V4(a4) => s4.contains(a4),
                _ => false,
            },
            BgpNet::V6(s6) => match a {
                BgpNet::V6(a6) => s6.contains(a6),
                _ => false,
            },
            BgpNet::MAC(sm) => match a {
                BgpNet::MAC(am) => sm.contains(am),
                _ => false,
            },
        }
    }
}

/// The NLRI collections of every supported address family. A `P` suffix
/// marks the path-id-framed form used when ADD-PATH is in force.
#[derive(Debug, PartialEq, Eq)]
pub enum BgpAddrs {
    Empty,
    IPV4U(Vec<ipv4::BgpAddrV4>),
    IPV4M(Vec<ipv4::BgpAddrV4>),
    IPV4LU(Vec<Labeled<ipv4::BgpAddrV4>>),
    VPNV4U(Vec<Labeled<WithRd<ipv4::BgpAddrV4>>>),
    VPNV4M(Vec<Labeled<WithRd<ipv4::BgpAddrV4>>>),
    IPV4MDT(Vec<WithRd<mdt::BgpMdtV4>>),
    IPV4MDTP(Vec<WithPathId<WithRd<mdt::BgpMdtV4>>>),
    IPV6U(Vec<ipv6::BgpAddrV6>),
    IPV6M(Vec<ipv6::BgpAddrV6>),
    IPV6LU(Vec<Labeled<ipv6::BgpAddrV6>>),
    VPNV6U(Vec<Labeled<WithRd<ipv6::BgpAddrV6>>>),
    VPNV6M(Vec<Labeled<WithRd<ipv6::BgpAddrV6>>>),
    IPV6MDT(Vec<WithRd<mdt::BgpMdtV6>>),
    IPV6MDTP(Vec<WithPathId<WithRd<mdt::BgpMdtV6>>>),
    L2VPLS(Vec<vpls::BgpAddrL2>),
    MVPN(Vec<mvpn::BgpMVPN>),
    EVPN(Vec<evpn::BgpEVPN>),
    FS4U(Vec<flowspec::BgpFlowSpec<ipv4::BgpAddrV4>>),
    FS6U(Vec<flowspec::BgpFlowSpec<flowspec::FS6>>),
    FSV4U(Vec<flowspec::BgpFlowSpec<flowspec::FSV4U>>),
    IPV4UP(Vec<WithPathId<ipv4::BgpAddrV4>>),
    IPV4MP(Vec<WithPathId<ipv4::BgpAddrV4>>),
    IPV4LUP(Vec<WithPathId<Labeled<ipv4::BgpAddrV4>>>),
    VPNV4UP(Vec<WithPathId<Labeled<WithRd<ipv4::BgpAddrV4>>>>),
    VPNV4MP(Vec<WithPathId<Labeled<WithRd<ipv4::BgpAddrV4>>>>),
    IPV6UP(Vec<WithPathId<ipv6::BgpAddrV6>>),
    IPV6MP(Vec<WithPathId<ipv6::BgpAddrV6>>),
    IPV6LUP(Vec<WithPathId<Labeled<ipv6::BgpAddrV6>>>),
    VPNV6UP(Vec<WithPathId<Labeled<WithRd<ipv6::BgpAddrV6>>>>),
    VPNV6MP(Vec<WithPathId<Labeled<WithRd<ipv6::BgpAddrV6>>>>),
}

/// Every item of every collection is fit for encoding.
pub open spec fn wf_addrs(a: BgpAddrs) -> bool {
    match a {
        BgpAddrs::Empty => true,
        BgpAddrs::IPV4U(v) => forall|i: int| 0 <= i < v@.len() ==> v@[i].wf(),
        BgpAddrs::IPV4M(v) => forall|i: int| 0 <= i < v@.len() ==> v@[i].wf(),
        BgpAddrs::IPV4LU(v) => forall|i: int| 0 <= i < v@.len() ==> v@[i].wf(),
        BgpAddrs::VPNV4U(v) => forall|i: int| 0 <= i < v@.len() ==> v@[i].wf(),
        BgpAddrs::VPNV4M(v) => forall|i: int| 0 <= i < v@.len() ==> v@[i].wf(),
        BgpAddrs::IPV4MDT(v) => forall|i: int| 0 <= i < v@.len() ==> v@[i].wf(),
        BgpAddrs::IPV4MDTP(v) => forall|i: int| 0 <= i < v@.len() ==> v@[i].nlri.wf(),
        BgpAddrs::IPV6U(v) => forall|i: int| 0 <= i < v@.len() ==> v@[i].wf(),
        BgpAddrs::IPV6M(v) => forall|i: int| 0 <= i < v@.len() ==> v@[i].wf(),
        BgpAddrs::IPV6LU(v) => forall|i: int| 0 <= i < v@.len() ==> v@[i].wf(),
        BgpAddrs::VPNV6U(v) => forall|i: int| 0 <= i < v@.len() ==> v@[i].wf(),
        BgpAddrs::VPNV6M(v) => forall|i: int| 0 <= i < v@.len() ==> v@[i].wf(),
        BgpAddrs::IPV6MDT(v) => forall|i: int| 0 <= i < v@.len() ==> v@[i].wf(),
        BgpAddrs::IPV6MDTP(v) => forall|i: int| 0 <= i < v@.len() ==> v@[i].nlri.wf(),
        BgpAddrs::L2VPLS(v) => forall|i: int| 0 <= i < v@.len() ==> v@[i].wf(),
        BgpAddrs::MVPN(v) => forall|i: int| 0 <= i < v@.len() ==> v@[i].wf(),
        BgpAddrs::EVPN(v) => forall|i: int| 0 <= i < v@.len() ==> v@[i].wf(),
        BgpAddrs::FS4U(v) => forall|i: int| 0 <= i < v@.len() ==> v@[i].wf(),
        BgpAddrs::FS6U(v) => forall|i: int| 0 <= i < v@.len() ==> v@[i].wf(),
        BgpAddrs::FSV4U(v) => forall|i: int| 0 <= i < v@.len() ==> v@[i].wf(),
        BgpAddrs::IPV4UP(v) => forall|i: int| 0 <= i < v@.len() ==> v@[i].nlri.wf(),
        BgpAddrs::IPV4MP(v) => forall|i: int| 0 <= i < v@.len() ==> v@[i].nlri.wf(),
        BgpAddrs::IPV4LUP(v) => forall|i: int| 0 <= i < v@.len() ==> v@[i].nlri.wf(),
        BgpAddrs::VPNV4UP(v) => forall|i: int| 0 <= i < v@.len() ==> v@[i].nlri.wf(),
        BgpAddrs::VPNV4MP(v) => forall|i: int| 0 <= i < v@.len() ==> v@[i].nlri.wf(),
        BgpAddrs::IPV6UP(v) => forall|i: int| 0 <= i < v@.len() ==> v@[i].nlri.wf(),
        BgpAddrs::IPV6MP(v) => forall|i: int| 0 <= i < v@.len() ==> v@[i].nlri.wf(),
        BgpAddrs::IPV6LUP(v) => forall|i: int| 0 <= i < v@.len() ==> v@[i].nlri.wf(),
        BgpAddrs::VPNV6UP(v) => forall|i: int| 0 <= i < v@.len() ==> v@[i].nlri.wf(),
        BgpAddrs::VPNV6MP(v) => forall|i: int| 0 <= i < v@.len() ==> v@[i].nlri.wf(),
    }
}

/// The families whose wire form is the framed-item run, which always
/// encodes.
pub open spec fn addrs_encode_total(a: BgpAddrs) -> bool {
    match a {
        BgpAddrs::Empty => true,
        BgpAddrs::IPV4U(_) => true,
        BgpAddrs::IPV4M(_) => true,
        BgpAddrs::IPV4LU(_) => true,
        BgpAddrs::VPNV4U(_) => true,
        BgpAddrs::VPNV4M(_) => true,
        BgpAddrs::IPV4MDT(_) => true,
        BgpAddrs::IPV6U(_) => true,
        BgpAddrs::IPV6M(_) => true,
        BgpAddrs::IPV6LU(_) => true,
        BgpAddrs::VPNV6U(_) => true,
        BgpAddrs::VPNV6M(_) => true,
        BgpAddrs::IPV6MDT(_) => true,
        BgpAddrs::IPV4UP(_) => true,
        BgpAddrs::IPV4MP(_) => true,
        BgpAddrs::IPV4LUP(_) => true,
        BgpAddrs::VPNV4UP(_) => true,
        BgpAddrs::VPNV4MP(_) => true,
        BgpAddrs::IPV6UP(_) => true,
        BgpAddrs::IPV6MP(_) => true,
        BgpAddrs::IPV6LUP(_) => true,
        BgpAddrs::VPNV6UP(_) => true,
        BgpAddrs::VPNV6MP(_) => true,
        BgpAddrs::IPV4MDTP(_) => true,
        BgpAddrs::IPV6MDTP(_) => true,
        _ => false,
    }
}

/// What encoding appends for the framed-item families: exactly the run
/// image of the items.
pub open spec fn addrs_enc_image(a: BgpAddrs, pre: Seq<u8>, post: Seq<u8>) -> bool {
    match a {
        BgpAddrs::Empty => post == pre,
        BgpAddrs::IPV4U(v) => post == pre + items_bytes(v@),
        BgpAddrs::IPV4M(v) => post == pre + items_bytes(v@),
        BgpAddrs::IPV4LU(v) => post == pre + items_bytes(v@),
        BgpAddrs::VPNV4U(v) => post == pre + items_bytes(v@),
        BgpAddrs::VPNV4M(v) => post == pre + items_bytes(v@),
        BgpAddrs::IPV4MDT(v) => post == pre + items_bytes(v@),
        BgpAddrs::IPV6U(v) => post == pre + items_bytes(v@),
        BgpAddrs::IPV6M(v) => post == pre + items_bytes(v@),
        BgpAddrs::IPV6LU(v) => post == pre + items_bytes(v@),
        BgpAddrs::VPNV6U(v) => post == pre + items_bytes(v@),
        BgpAddrs::VPNV6M(v) => post == pre + items_bytes(v@),
        BgpAddrs::IPV6MDT(v) => post == pre + items_bytes(v@),
        BgpAddrs::IPV4UP(v) => post == pre + pathid_items_bytes(v@),
        BgpAddrs::IPV4MP(v) => post == pre + pathid_items_bytes(v@),
        BgpAddrs::IPV4LUP(v) => post == pre + pathid_items_bytes(v@),
        BgpAddrs::VPNV4UP(v) => post == pre + pathid_items_bytes(v@),
        BgpAddrs::VPNV4MP(v) => post == pre + pathid_items_bytes(v@),
        BgpAddrs::IPV6UP(v) => post == pre + pathid_items_bytes(v@),
        BgpAddrs::IPV6MP(v) => post == pre + pathid_items_bytes(v@),
        BgpAddrs::IPV6LUP(v) => post == pre + pathid_items_bytes(v@),
        BgpAddrs::VPNV6UP(v) => post == pre + pathid_items_bytes(v@),
        BgpAddrs::VPNV6MP(v) => post == pre + pathid_items_bytes(v@),
        BgpAddrs::IPV4MDTP(v) => post == pre + pathid_items_bytes(v@),
        BgpAddrs::IPV6MDTP(v) => post == pre + pathid_items_bytes(v@),
        _ => true,
    }
}

/// A decoded collection stands in the run relation to the bytes it was
/// read from: for the families whose items parse by the framed-item run,
/// the items are exactly the ones the bytes carry, in order, path ids
/// included where the path-id-framed form was chosen.
pub open spec fn addrs_run_tied(a: BgpAddrs, s: Seq<u8>) -> bool {
    match a {
        BgpAddrs::IPV4U(v) => items_run_ok(s, v@),
        BgpAddrs::IPV4M(v) => items_run_ok(s, v@),
        BgpAddrs::IPV4LU(v) => items_run_ok(s, v@),
        BgpAddrs::VPNV4U(v) => items_run_ok(s, v@),
        BgpAddrs::VPNV4M(v) => items_run_ok(s, v@),
        BgpAddrs::IPV4MDT(v) => items_run_ok(s, v@),
        BgpAddrs::IPV6U(v) => items_run_ok(s, v@),
        BgpAddrs::IPV6M(v) => items_run_ok(s, v@),
        BgpAddrs::IPV6LU(v) => items_run_ok(s, v@),
        BgpAddrs::VPNV6U(v) => items_run_ok(s, v@),
        BgpAddrs::VPNV6M(v) => items_run_ok(s, v@),
        BgpAddrs::IPV6MDT(v) => items_run_ok(s, v@),
        BgpAddrs::IPV4UP(v) => pathid_run_ok(s, v@),
        BgpAddrs::IPV4MP(v) => pathid_run_ok(s, v@),
        BgpAddrs::IPV4LUP(v) => pathid_run_ok(s, v@),
        BgpAddrs::VPNV4UP(v) => pathid_run_ok(s, v@),
        BgpAddrs::VPNV4MP(v) => pathid_run_ok(s, v@),
        BgpAddrs::IPV6UP(v) => pathid_run_ok(s, v@),
        BgpAddrs::IPV6MP(v) => pathid_run_ok(s, v@),
        BgpAddrs::IPV6LUP(v) => pathid_run_ok(s, v@),
        BgpAddrs::VPNV6UP(v) => pathid_run_ok(s, v@),
        BgpAddrs::VPNV6MP(v) => pathid_run_ok(s, v@),
        BgpAddrs::IPV4MDTP(v) => pathid_run_ok(s, v@),
        BgpAddrs::IPV6MDTP(v) => pathid_run_ok(s, v@),
        _ => true,
    }
}

impl BgpAddrs {
    /// Builds an empty collection.
    pub fn new() -> (r: BgpAddrs)
        ensures
            r is Empty,
    {
        BgpAddrs::Empty
    }

    /// True when the collection holds no item.
    pub fn is_empty(&self) -> (r: bool)
        ensures
            r <==> self.len_spec() == 0,
    {
        self.len() == 0
    }

    /// Number of items in the collection.
    pub open spec fn len_spec(&self) -> int {
        match self {
            BgpAddrs::Empty => 0,
            BgpAddrs::IPV4U(v) => v@.len() as int,
            BgpAddrs::IPV4M(v) => v@.len() as int,
            BgpAddrs::IPV4LU(v) => v@.len() as int,
            BgpAddrs::VPNV4U(v) => v@.len() as int,
            BgpAddrs::VPNV4M(v) => v@.len() as int,
            BgpAddrs::IPV4MDT(v) => v@.len() as int,
            BgpAddrs::IPV4MDTP(v) => v@.len() as int,
            BgpAddrs::IPV6U(v) => v@.len() as int,
            BgpAddrs::IPV6M(v) => v@.len() as int,
            BgpAddrs::IPV6LU(v) => v@.len() as int,
            BgpAddrs::VPNV6U(v) => v@.len() as int,
            BgpAddrs::VPNV6M(v) => v@.len() as int,
            BgpAddrs::IPV6MDT(v) => v@.len() as int,
            BgpAddrs::IPV6MDTP(v) => v@.len() as int,
            BgpAddrs::L2VPLS(v) => v@.len() as int,
            BgpAddrs::MVPN(v) => v@.len() as int,
            BgpAddrs::EVPN(v) => v@.len() as int,
            BgpAddrs::FS4U(v) => v@.len() as int,
            BgpAddrs::FS6U(v) => v@.len() as int,
            BgpAddrs::FSV4U(v) => v@.len() as int,
            BgpAddrs::IPV4UP(v) => v@.len() as int,
            BgpAddrs::IPV4MP(v) => v@.len() as int,
            BgpAddrs::IPV4LUP(v) => v@.len() as int,
            BgpAddrs::VPNV4UP(v) => v@.len() as int,
            BgpAddrs::VPNV4MP(v) => v@.len() as int,
            BgpAddrs::IPV6UP(v) => v@.len() as int,
            BgpAddrs::IPV6MP(v) => v@.len() as int,
            BgpAddrs::IPV6LUP(v) => v@.len() as int,
            BgpAddrs::VPNV6UP(v) => v@.len() as int,
            BgpAddrs::VPNV6MP(v) => v@.len() as int,
        }
    }

    /// Number of items in the collection.
    pub fn len(&self) -> (r: usize)
        ensures
            r == self.len_spec(),
    {
        match self {
            BgpAddrs::Empty => 0,
            BgpAddrs::IPV4U(v) => v.len(),
            BgpAddrs::IPV4M(v) => v.len(),
            BgpAddrs::IPV4LU(v) => v.len(),
            BgpAddrs::VPNV4U(v) => v.len(),
            BgpAddrs::VPNV4M(v) => v.len(),
            BgpAddrs::IPV4MDT(v) => v.len(),
            BgpAddrs::IPV4MDTP(v) => v.len(),
            BgpAddrs::IPV6U(v) => v.len(),
            BgpAddrs::IPV6M(v) => v.len(),
            BgpAddrs::IPV6LU(v) => v.len(),
            BgpAddrs::VPNV6U(v) => v.len(),
            BgpAddrs::VPNV6M(v) => v.len(),
            BgpAddrs::IPV6MDT(v) => v.len(),
            BgpAddrs::IPV6MDTP(v) => v.len(),
            BgpAddrs::L2VPLS(v) => v.len(),
            BgpAddrs::MVPN(v) => v.len(),
            BgpAddrs::EVPN(v) => v.len(),
            BgpAddrs::FS4U(v) => v.len(),
            BgpAddrs::FS6U(v) => v.len(),
            BgpAddrs::FSV4U(v) => v.len(),
            BgpAddrs::IPV4UP(v) => v.len(),
            BgpAddrs::IPV4MP(v) => v.len(),
            BgpAddrs::IPV4LUP(v) => v.len(),
            BgpAddrs::VPNV4UP(v) => v.len(),
            BgpAddrs::VPNV4MP(v) => v.len(),
            BgpAddrs::IPV6UP(v) => v.len(),
            BgpAddrs::IPV6MP(v) => v.len(),
            BgpAddrs::IPV6LUP(v) => v.len(),
            BgpAddrs::VPNV6UP(v) => v.len(),
            BgpAddrs::VPNV6MP(v) => v.len(),
        }
    }

    /// The AFI and SAFI codes of the collection's family.
    pub open spec fn spec_afi_safi(&self) -> (u16, u8) {
        match self {
            BgpAddrs::Empty => (0u16, 0u8),
            BgpAddrs::IPV4U(_) => (1u16, 1u8),
            BgpAddrs::IPV4M(_) => (1u16, 2u8),
            BgpAddrs::IPV4LU(_) => (1u16, 4u8),
            BgpAddrs::MVPN(_) => (1u16, 5u8),
            BgpAddrs::VPNV4U(_) => (1u16, 128u8),
            BgpAddrs::VPNV4M(_) => (1u16, 129u8),
            BgpAddrs::FS4U(_) => (1u16, 133u8),
            BgpAddrs::FSV4U(_) => (1u16, 134u8),
            BgpAddrs::FS6U(_) => (2u16, 133u8),
            BgpAddrs::IPV6U(_) => (2u16, 1u8),
            BgpAddrs::IPV6M(_) => (2u16, 2u8),
            BgpAddrs::IPV6LU(_) => (2u16, 4u8),
            BgpAddrs::VPNV6U(_) => (2u16, 128u8),
            BgpAddrs::VPNV6M(_) => (2u16, 129u8),
            BgpAddrs::L2VPLS(_) => (25u16, 65u8),
            BgpAddrs::EVPN(_) => (25u16, 70u8),
            BgpAddrs::IPV4UP(_) => (1u16, 1u8),
            BgpAddrs::IPV4MP(_) => (1u16, 2u8),
            BgpAddrs::IPV4LUP(_) => (1u16, 4u8),
            BgpAddrs::VPNV4UP(_) => (1u16, 128u8),
            BgpAddrs::VPNV4MP(_) => (1u16, 129u8),
            BgpAddrs::IPV6UP(_) => (2u16, 1u8),
            BgpAddrs::IPV6MP(_) => (2u16, 2u8),
            BgpAddrs::IPV6LUP(_) => (2u16, 4u8),
            BgpAddrs::VPNV6UP(_) => (2u16, 128u8),
            BgpAddrs::VPNV6MP(_) => (2u16, 129u8),
            BgpAddrs::IPV4MDT(_) => (1u16, 66u8),
            BgpAddrs::IPV4MDTP(_) => (1u16, 66u8),
            BgpAddrs::IPV6MDT(_) => (2u16, 66u8),
            BgpAddrs::IPV6MDTP(_) => (2u16, 66u8),
        }
    }

    /// The AFI and SAFI codes of the collection's family.
    pub fn get_afi_safi(&self) -> (r: (u16, u8))
        ensures
            r == self.spec_afi_safi(),
    {
        match self {
            BgpAddrs::Empty => (0, 0),
            BgpAddrs::IPV4U(_) => (1, 1),
            BgpAddrs::IPV4M(_) => (1, 2),
            BgpAddrs::IPV4LU(_) => (1, 4),
            BgpAddrs::MVPN(_) => (1, 5),
            BgpAddrs::VPNV4U(_) => (1, 128),
            BgpAddrs::VPNV4M(_) => (1, 129),
            BgpAddrs::FS4U(_) => (1, 133),
            BgpAddrs::FSV4U(_) => (1, 134),
            BgpAddrs::FS6U(_) => (2, 133),
            BgpAddrs::IPV6U(_) => (2, 1),
            BgpAddrs::IPV6M(_) => (2, 2),
            BgpAddrs::IPV6LU(_) => (2, 4),
            BgpAddrs::VPNV6U(_) => (2, 128),
            BgpAddrs::VPNV6M(_) => (2, 129),
            BgpAddrs::L2VPLS(_) => (25, 65),
            BgpAddrs::EVPN(_) => (25, 70),
            BgpAddrs::IPV4UP(_) => (1, 1),
            BgpAddrs::IPV4MP(_) => (1, 2),
            BgpAddrs::IPV4LUP(_) => (1, 4),
            BgpAddrs::VPNV4UP(_) => (1, 128),
            BgpAddrs::VPNV4MP(_) => (1, 129),
            BgpAddrs::IPV6UP(_) => (2, 1),
            BgpAddrs::IPV6MP(_) => (2, 2),
            BgpAddrs::IPV6LUP(_) => (2, 4),
            BgpAddrs::VPNV6UP(_) => (2, 128),
            BgpAddrs::VPNV6MP(_) => (2, 129),
            BgpAddrs::IPV4MDT(_) => (1, 66),
            BgpAddrs::IPV4MDTP(_) => (1, 66),
            BgpAddrs::IPV6MDT(_) => (2, 66),
            BgpAddrs::IPV6MDTP(_) => (2, 66),
        }
    }

    /// Reads the NLRI collection of the given family from the whole buffer,
    /// choosing the path-id-framed form when ADD-PATH receiving is in force
    /// for the family or, with the heuristic enabled, when the head of the
    /// buffer has the shape of a path id. The result stands in the run
    /// relation to the bytes.
    pub fn decode_from(
        peer: &crate::BgpSessionParams,
        afi: u16,
        safi: u8,
        buf: &[u8],
    ) -> (r: Result<(BgpAddrs, usize), BgpError>)
        ensures
            r matches Ok((a, n)) ==> n <= buf@.len() && wf_addrs(a) && addrs_run_tied(a, buf@)
                && !(a is Empty) && a.spec_afi_safi() == (afi, safi),
    {
        let ap = peer.check_addpath_receive(afi, safi) || (peer.fuzzy_pathid
            && crate::util::is_addpath_nlri(buf));
        if afi == 1 {
            if safi == 1 {
                if ap {
                    let (v, n) = match decode_pathid_bgpitems_from(buf) {
                        Ok(p) => p,
                        Err(e) => {
                            return Err(e);
                        },
                    };
                    Ok((BgpAddrs::IPV4UP(v), n))
                } else {
                    let (v, n) = match decode_bgpitems_from(buf) {
                        Ok(p) => p,
                        Err(e) => {
                            return Err(e);
                        },
                    };
                    Ok((BgpAddrs::IPV4U(v), n))
                }
            } else if safi == 2 {
                if ap {
                    let (v, n) = match decode_pathid_bgpitems_from(buf) {
                        Ok(p) => p,
                        Err(e) => {
                            return Err(e);
                        },
                    };
                    Ok((BgpAddrs::IPV4MP(v), n))
                } else {
                    let (v, n) = match decode_bgpitems_from(buf) {
                        Ok(p) => p,
                        Err(e) => {
                            return Err(e);
                        },
                    };
                    Ok((BgpAddrs::IPV4M(v), n))
                }
            } else if safi == 4 {
                if ap {
                    let (v, n) = match decode_pathid_bgpitems_from(buf) {
                        Ok(p) => p,
                        Err(e) => {
                            return Err(e);
                        },
                    };
                    Ok((BgpAddrs::IPV4LUP(v), n))
                } else {
                    let (v, n) = match decode_bgpitems_from(buf) {
                        Ok(p) => p,
                        Err(e) => {
                            return Err(e);
                        },
                    };
                    Ok((BgpAddrs::IPV4LU(v), n))
                }
            } else if safi == 5 {
                let (v, n) = match decode_bgpaddritems_from(crate::BgpTransportMode::IPv4, buf) {
                    Ok(p) => p,
                    Err(e) => {
                        return Err(e);
                    },
                };
                Ok((BgpAddrs::MVPN(v), n))
            } else if safi == 66 {
                if ap {
                    let (v, n) = match decode_pathid_bgpitems_from(buf) {
                        Ok(p) => p,
                        Err(e) => {
                            return Err(e);
                        },
                    };
                    Ok((BgpAddrs::IPV4MDTP(v), n))
                } else {
                    let (v, n) = match decode_bgpitems_from(buf) {
                        Ok(p) => p,
                        Err(e) => {
                            return Err(e);
                        },
                    };
                    Ok((BgpAddrs::IPV4MDT(v), n))
                }
            } else if safi == 128 {
                if ap {
                    let (v, n) = match decode_pathid_bgpitems_from(buf) {
                        Ok(p) => p,
                        Err(e) => {
                            return Err(e);
                        },
                    };
                    Ok((BgpAddrs::VPNV4UP(v), n))
                } else {
                    let (v, n) = match decode_bgpitems_from(buf) {
                        Ok(p) => p,
                        Err(e) => {
                            return Err(e);
                        },
                    };
                    Ok((BgpAddrs::VPNV4U(v), n))
                }
            } else if safi == 129 {
                if ap {
                    let (v, n) = match decode_pathid_bgpitems_from(buf) {
                        Ok(p) => p,
                        Err(e) => {
                            return Err(e);
                        },
                    };
                    Ok((BgpAddrs::VPNV4MP(v), n))
                } else {
                    let (v, n) = match decode_bgpitems_from(buf) {
                        Ok(p) => p,
                        Err(e) => {
                            return Err(e);
                        },
                    };
                    Ok((BgpAddrs::VPNV4M(v), n))
                }
            } else if safi == 133 {
                let (v, n) = match decode_bgpaddritems_from(peer.peer_mode, buf) {
                    Ok(p) => p,
                    Err(e) => {
                        return Err(e);
                    },
                };
                Ok((BgpAddrs::FS4U(v), n))
            } else if safi == 134 {
                let (v, n) = match decode_bgpaddritems_from(peer.peer_mode, buf) {
                    Ok(p) => p,
                    Err(e) => {
                        return Err(e);
                    },
                };
                Ok((BgpAddrs::FSV4U(v), n))
            } else {
                Err(BgpError::static_str("Unknown safi for ipv4"))
            }
        } else if afi == 2 {
            if safi == 1 {
                if ap {
                    let (v, n) = match decode_pathid_bgpitems_from(buf) {
                        Ok(p) => p,
                        Err(e) => {
                            return Err(e);
                        },
                    };
                    Ok((BgpAddrs::IPV6UP(v), n))
                } else {
                    let (v, n) = match decode_bgpitems_from(buf) {
                        Ok(p) => p,
                        Err(e) => {
                            return Err(e);
                        },
                    };
                    Ok((BgpAddrs::IPV6U(v), n))
                }
            } else if safi == 2 {
                if ap {
                    let (v, n) = match decode_pathid_bgpitems_from(buf) {
                        Ok(p) => p,
                        Err(e) => {
                            return Err(e);
                        },
                    };
                    Ok((BgpAddrs::IPV6MP(v), n))
                } else {
                    let (v, n) = match decode_bgpitems_from(buf) {
                        Ok(p) => p,
                        Err(e) => {
                            return Err(e);
                        },
                    };
                    Ok((BgpAddrs::IPV6M(v), n))
                }
            } else if safi == 4 {
                if ap {
                    let (v, n) = match decode_pathid_bgpitems_from(buf) {
                        Ok(p) => p,
                        Err(e) => {
                            return Err(e);
                        },
                    };
                    Ok((BgpAddrs::IPV6LUP(v), n))
                } else {
                    let (v, n) = match decode_bgpitems_from(buf) {
                        Ok(p) => p,
                        Err(e) => {
                            return Err(e);
                        },
                    };
                    Ok((BgpAddrs::IPV6LU(v), n))
                }
            } else if safi == 66 {
                if ap {
                    let (v, n) = match decode_pathid_bgpitems_from(buf) {
                        Ok(p) => p,
                        Err(e) => {
                            return Err(e);
                        },
                    };
                    Ok((BgpAddrs::IPV6MDTP(v), n))
                } else {
                    let (v, n) = match decode_bgpitems_from(buf) {
                        Ok(p) => p,
                        Err(e) => {
                            return Err(e);
                        },
                    };
                    Ok((BgpAddrs::IPV6MDT(v), n))
                }
            } else if safi == 128 {
                if ap {
                    let (v, n) = match decode_pathid_bgpitems_from(buf) {
                        Ok(p) => p,
                        Err(e) => {
                            return Err(e);
                        },
                    };
                    Ok((BgpAddrs::VPNV6UP(v), n))
                } else {
                    let (v, n) = match decode_bgpitems_from(buf) {
                        Ok(p) => p,
                        Err(e) => {
                            return Err(e);
                        },
                    };
                    Ok((BgpAddrs::VPNV6U(v), n))
                }
            } else if safi == 129 {
                if ap {
                    let (v, n) = match decode_pathid_bgpitems_from(buf) {
                        Ok(p) => p,
                        Err(e) => {
                            return Err(e);
                        },
                    };
                    Ok((BgpAddrs::VPNV6MP(v), n))
                } else {
                    let (v, n) = match decode_bgpitems_from(buf) {
                        Ok(p) => p,
                        Err(e) => {
                            return Err(e);
                        },
                    };
                    Ok((BgpAddrs::VPNV6M(v), n))
                }
            } else if safi == 133 {
                let (v, n) = match decode_bgpaddritems_from(peer.peer_mode, buf) {
                    Ok(p) => p,
                    Err(e) => {
                        return Err(e);
                    },
                };
                Ok((BgpAddrs::FS6U(v), n))
            } else {
                Err(BgpError::static_str("Unknown safi for ipv6"))
            }
        } else if afi == 25 {
            if safi == 65 {
                let (v, n) = match decode_long_bgpitems_from(buf) {
                    Ok(p) => p,
                    Err(e) => {
                        return Err(e);
                    },
                };
                Ok((BgpAddrs::L2VPLS(v), n))
            } else if safi == 70 {
                let (v, n) = match decode_bgpaddritems_from(peer.peer_mode, buf) {
                    Ok(p) => p,
                    Err(e) => {
                        return Err(e);
                    },
                };
                Ok((BgpAddrs::EVPN(v), n))
            } else {
                Err(BgpError::static_str("Unknown safi for l2"))
            }
        } else {
            Err(BgpError::static_str("Unknown afi"))
        }
    }

    /// Appends the collection's wire form: for the framed-item families it
    /// is exactly the run image of the items, and it always succeeds.
    pub fn encode_to(&self, peer: &crate::BgpSessionParams, buf: &mut Vec<u8>) -> (r: Result<
        usize,
        BgpError,
    >)
        requires
            wf_addrs(*self),
        ensures
            r matches Ok(n) ==> grew_by(old(buf)@, final(buf)@, n as int),
            r is Ok ==> addrs_enc_image(*self, old(buf)@, final(buf)@),
            addrs_encode_total(*self) ==> r is Ok,
    {
        proof {
            assert(old(buf)@.subrange(0, old(buf)@.len() as int) =~= old(buf)@);
        }
        match self {
            BgpAddrs::Empty => Ok(0),
            BgpAddrs::IPV4U(v) => encode_grew(encode_bgpitems_to(v, buf), buf, Ghost(old(buf)@)),
            BgpAddrs::IPV4M(v) => encode_grew(encode_bgpitems_to(v, buf), buf, Ghost(old(buf)@)),
            BgpAddrs::IPV4LU(v) => encode_grew(encode_bgpitems_to(v, buf), buf, Ghost(old(buf)@)),
            BgpAddrs::MVPN(v) => encode_bgpaddritems_to(v, peer.peer_mode, buf),
            BgpAddrs::VPNV4U(v) => encode_grew(encode_bgpitems_to(v, buf), buf, Ghost(old(buf)@)),
            BgpAddrs::VPNV4M(v) => encode_grew(encode_bgpitems_to(v, buf), buf, Ghost(old(buf)@)),
            BgpAddrs::FS4U(v) => encode_bgpaddritems_to(v, peer.peer_mode, buf),
            BgpAddrs::FSV4U(v) => encode_bgpaddritems_to(v, peer.peer_mode, buf),
            BgpAddrs::FS6U(v) => encode_bgpaddritems_to(v, peer.peer_mode, buf),
            BgpAddrs::IPV6U(v) => encode_grew(encode_bgpitems_to(v, buf), buf, Ghost(old(buf)@)),
            BgpAddrs::IPV6M(v) => encode_grew(encode_bgpitems_to(v, buf), buf, Ghost(old(buf)@)),
            BgpAddrs::IPV6LU(v) => encode_grew(encode_bgpitems_to(v, buf), buf, Ghost(old(buf)@)),
            BgpAddrs::VPNV6U(v) => encode_grew(encode_bgpitems_to(v, buf), buf, Ghost(old(buf)@)),
            BgpAddrs::VPNV6M(v) => encode_grew(encode_bgpitems_to(v, buf), buf, Ghost(old(buf)@)),
            BgpAddrs::L2VPLS(v) => encode_long_bgpitems_to(v, buf),
            BgpAddrs::EVPN(v) => encode_bgpaddritems_to(v, peer.peer_mode, buf),
            BgpAddrs::IPV4UP(v) => encode_grew(
                encode_pathid_bgpitems_to(v, buf),
                buf,
                Ghost(old(buf)@),
            ),
            BgpAddrs::IPV4MP(v) => encode_grew(
                encode_pathid_bgpitems_to(v, buf),
                buf,
                Ghost(old(buf)@),
            ),
            BgpAddrs::IPV4LUP(v) => encode_grew(
                encode_pathid_bgpitems_to(v, buf),
                buf,
                Ghost(old(buf)@),
            ),
            BgpAddrs::VPNV4UP(v) => encode_grew(
                encode_pathid_bgpitems_to(v, buf),
                buf,
                Ghost(old(buf)@),
            ),
            BgpAddrs::VPNV4MP(v) => encode_grew(
                encode_pathid_bgpitems_to(v, buf),
                buf,
                Ghost(old(buf)@),
            ),
            BgpAddrs::IPV6UP(v) => encode_grew(
                encode_pathid_bgpitems_to(v, buf),
                buf,
                Ghost(old(buf)@),
            ),
            BgpAddrs::IPV6MP(v) => encode_grew(
                encode_pathid_bgpitems_to(v, buf),
                buf,
                Ghost(old(buf)@),
            ),
            BgpAddrs::IPV6LUP(v) => encode_grew(
                encode_pathid_bgpitems_to(v, buf),
                buf,
                Ghost(old(buf)@),
            ),
            BgpAddrs::VPNV6UP(v) => encode_grew(
                encode_pathid_bgpitems_to(v, buf),
                buf,
                Ghost(old(buf)@),
            ),
            BgpAddrs::VPNV6MP(v) => encode_grew(
                encode_pathid_bgpitems_to(v, buf),
                buf,
                Ghost(old(buf)@),
            ),
            BgpAddrs::IPV4MDT(v) => encode_grew(encode_bgpitems_to(v, buf), buf, Ghost(old(buf)@)),
            BgpAddrs::IPV4MDTP(v) => encode_grew(
                encode_pathid_bgpitems_to(v, buf),
                buf,
                Ghost(old(buf)@),
            ),
            BgpAddrs::IPV6MDT(v) => encode_grew(encode_bgpitems_to(v, buf), buf, Ghost(old(buf)@)),
            BgpAddrs::IPV6MDTP(v) => encode_grew(
                encode_pathid_bgpitems_to(v, buf),
                buf,
                Ghost(old(buf)@),
            ),
        }
    }
}

/// Passes an exact-append encoder result through as growth.
fn encode_grew(r: Result<usize, BgpError>, buf: &Vec<u8>, Ghost(pre): Ghost<Seq<u8>>) -> (r2:
    Result<usize, BgpError>)
    requires
        r matches Ok(n) ==> buf@.len() == pre.len() + n && buf@.subrange(0, pre.len() as int)
            =~= pre,
    ensures
        r2 matches Ok(n) ==> grew_by(pre, buf@, n as int),
        r2 == r,
{
    r
}

} // verus!
