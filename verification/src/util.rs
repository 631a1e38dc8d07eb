use vstd::prelude::*;
use vstd::slice::SliceAdditionalExecFns;

verus! {

// ---------------------------------------------------------------------------
// Big-endian byte images of fixed-width integers.
//
// These spec functions are the single source of truth for what the codecs
// write: every encoder promises that it appends exactly such an image, and
// every decoder promises that the bytes it consumed are the image of the
// value it returned.
// ---------------------------------------------------------------------------

/// Big-endian two-byte image of a 16-bit value.
pub open spec fn u16_bytes(x: u16) -> Seq<u8> {
    seq![((x >> 8) & 0xff) as u8, (x & 0xff) as u8]
}

/// Big-endian four-byte image of a 32-bit value.
pub open spec fn u32_bytes(x: u32) -> Seq<u8> {
    seq![
        ((x >> 24) & 0xff) as u8,
        ((x >> 16) & 0xff) as u8,
        ((x >> 8) & 0xff) as u8,
        (x & 0xff) as u8,
    ]
}

/// Big-endian eight-byte image of a 64-bit value.
pub open spec fn u64_bytes(x: u64) -> Seq<u8> {
    seq![
        ((x >> 56) & 0xff) as u8,
        ((x >> 48) & 0xff) as u8,
        ((x >> 40) & 0xff) as u8,
        ((x >> 32) & 0xff) as u8,
        ((x >> 24) & 0xff) as u8,
        ((x >> 16) & 0xff) as u8,
        ((x >> 8) & 0xff) as u8,
        (x & 0xff) as u8,
    ]
}

/// Big-endian sixteen-byte image of a 128-bit value.
pub open spec fn u128_bytes(x: u128) -> Seq<u8> {
    seq![
        ((x >> 120) & 0xff) as u8,
        ((x >> 112) & 0xff) as u8,
        ((x >> 104) & 0xff) as u8,
        ((x >> 96) & 0xff) as u8,
        ((x >> 88) & 0xff) as u8,
        ((x >> 80) & 0xff) as u8,
        ((x >> 72) & 0xff) as u8,
        ((x >> 64) & 0xff) as u8,
        ((x >> 56) & 0xff) as u8,
        ((x >> 48) & 0xff) as u8,
        ((x >> 40) & 0xff) as u8,
        ((x >> 32) & 0xff) as u8,
        ((x >> 24) & 0xff) as u8,
        ((x >> 16) & 0xff) as u8,
        ((x >> 8) & 0xff) as u8,
        (x & 0xff) as u8,
    ]
}

/// The 32-bit value read from four big-endian bytes.
pub open spec fn u32_of_bytes(b0: u8, b1: u8, b2: u8, b3: u8) -> u32 {
    ((b0 as u32) << 24) | ((b1 as u32) << 16) | ((b2 as u32) << 8) | (b3 as u32)
}

/// The 64-bit value read from eight big-endian bytes.
pub open spec fn u64_of_bytes(b0: u8, b1: u8, b2: u8, b3: u8, b4: u8, b5: u8, b6: u8, b7: u8) -> u64 {
    ((b0 as u64) << 56) | ((b1 as u64) << 48) | ((b2 as u64) << 40) | ((b3 as u64) << 32) | ((
    b4 as u64) << 24) | ((b5 as u64) << 16) | ((b6 as u64) << 8) | (b7 as u64)
}

/// Reassembling four bytes gives the value whose image they are.
pub proof fn lemma_u32_of_bytes(b0: u8, b1: u8, b2: u8, b3: u8)
    by (bit_vector)
    ensures
        ((u32_of_bytes(b0, b1, b2, b3) >> 24) & 0xff) as u8 == b0,
        ((u32_of_bytes(b0, b1, b2, b3) >> 16) & 0xff) as u8 == b1,
        ((u32_of_bytes(b0, b1, b2, b3) >> 8) & 0xff) as u8 == b2,
        (u32_of_bytes(b0, b1, b2, b3) & 0xff) as u8 == b3,
{
}

/// The image of a reassembled 32-bit value is the four bytes themselves.
pub proof fn lemma_u32_of_bytes_image(b0: u8, b1: u8, b2: u8, b3: u8)
    ensures
        u32_bytes(u32_of_bytes(b0, b1, b2, b3)) == seq![b0, b1, b2, b3],
{
    lemma_u32_of_bytes(b0, b1, b2, b3);
    assert(u32_bytes(u32_of_bytes(b0, b1, b2, b3)) =~= seq![b0, b1, b2, b3]);
}

/// The 128-bit value read from sixteen big-endian bytes.
pub open spec fn u128_of_bytes(
    b0: u8,
    b1: u8,
    b2: u8,
    b3: u8,
    b4: u8,
    b5: u8,
    b6: u8,
    b7: u8,
    b8: u8,
    b9: u8,
    b10: u8,
    b11: u8,
    b12: u8,
    b13: u8,
    b14: u8,
    b15: u8,
) -> u128 {
    ((u64_of_bytes(b0, b1, b2, b3, b4, b5, b6, b7) as u128) << 64) | (u64_of_bytes(
        b8,
        b9,
        b10,
        b11,
        b12,
        b13,
        b14,
        b15,
    ) as u128)
}

/// The image of a reassembled 128-bit value is the sixteen bytes themselves.
pub proof fn lemma_u128_of_bytes_image(
    b0: u8,
    b1: u8,
    b2: u8,
    b3: u8,
    b4: u8,
    b5: u8,
    b6: u8,
    b7: u8,
    b8: u8,
    b9: u8,
    b10: u8,
    b11: u8,
    b12: u8,
    b13: u8,
    b14: u8,
    b15: u8,
)
    ensures
        u128_bytes(u128_of_bytes(b0, b1, b2, b3, b4, b5, b6, b7, b8, b9, b10, b11, b12, b13, b14, b15))
            == seq![b0, b1, b2, b3, b4, b5, b6, b7, b8, b9, b10, b11, b12, b13, b14, b15],
{
    let x = u128_of_bytes(b0, b1, b2, b3, b4, b5, b6, b7, b8, b9, b10, b11, b12, b13, b14, b15);
    assert(((x >> 120) & 0xff) as u8 == b0 && ((x >> 112) & 0xff) as u8 == b1 && ((x >> 104)
        & 0xff) as u8 == b2 && ((x >> 96) & 0xff) as u8 == b3 && ((x >> 88) & 0xff) as u8 == b4 && ((
    x >> 80) & 0xff) as u8 == b5 && ((x >> 72) & 0xff) as u8 == b6 && ((x >> 64) & 0xff) as u8 == b7
        && ((x >> 56) & 0xff) as u8 == b8 && ((x >> 48) & 0xff) as u8 == b9 && ((x >> 40)
        & 0xff) as u8 == b10 && ((x >> 32) & 0xff) as u8 == b11 && ((x >> 24) & 0xff) as u8 == b12
        && ((x >> 16) & 0xff) as u8 == b13 && ((x >> 8) & 0xff) as u8 == b14 && (x
        & 0xff) as u8 == b15) by (bit_vector)
        requires
            x == u128_of_bytes(b0, b1, b2, b3, b4, b5, b6, b7, b8, b9, b10, b11, b12, b13, b14, b15),
    ;
    assert(u128_bytes(x) =~= seq![b0, b1, b2, b3, b4, b5, b6, b7, b8, b9, b10, b11, b12, b13, b14, b15]);
}

/// Reassembling the sixteen image bytes of a 128-bit value gives it back.
pub proof fn lemma_u128_recompose(x: u128)
    by (bit_vector)
    ensures
        u128_of_bytes(
            ((x >> 120) & 0xff) as u8,
            ((x >> 112) & 0xff) as u8,
            ((x >> 104) & 0xff) as u8,
            ((x >> 96) & 0xff) as u8,
            ((x >> 88) & 0xff) as u8,
            ((x >> 80) & 0xff) as u8,
            ((x >> 72) & 0xff) as u8,
            ((x >> 64) & 0xff) as u8,
            ((x >> 56) & 0xff) as u8,
            ((x >> 48) & 0xff) as u8,
            ((x >> 40) & 0xff) as u8,
            ((x >> 32) & 0xff) as u8,
            ((x >> 24) & 0xff) as u8,
            ((x >> 16) & 0xff) as u8,
            ((x >> 8) & 0xff) as u8,
            (x & 0xff) as u8,
        ) == x,
{
}

/// Two values with the same sixteen-byte image are equal.
pub proof fn lemma_u128_bytes_inj(a: u128, b: u128)
    requires
        u128_bytes(a) == u128_bytes(b),
    ensures
        a == b,
{
    lemma_u128_recompose(a);
    lemma_u128_recompose(b);
    assert forall|i: int| 0 <= i < 16 implies u128_bytes(a)[i] == u128_bytes(b)[i] by {}
}

/// Two values with the same eight-byte image are equal.
pub proof fn lemma_u64_bytes_inj(a: u64, b: u64)
    requires
        u64_bytes(a) == u64_bytes(b),
    ensures
        a == b,
{
    assert(u64_bytes(a)[0] == u64_bytes(b)[0] && u64_bytes(a)[1] == u64_bytes(b)[1] && u64_bytes(
        a,
    )[2] == u64_bytes(b)[2] && u64_bytes(a)[3] == u64_bytes(b)[3] && u64_bytes(a)[4] == u64_bytes(
        b,
    )[4] && u64_bytes(a)[5] == u64_bytes(b)[5] && u64_bytes(a)[6] == u64_bytes(b)[6] && u64_bytes(
        a,
    )[7] == u64_bytes(b)[7]);
    assert(((a >> 56) & 0xff) as u8 == ((b >> 56) & 0xff) as u8 && ((a >> 48) & 0xff) as u8 == ((b
        >> 48) & 0xff) as u8 && ((a >> 40) & 0xff) as u8 == ((b >> 40) & 0xff) as u8 && ((a >> 32)
        & 0xff) as u8 == ((b >> 32) & 0xff) as u8 && ((a >> 24) & 0xff) as u8 == ((b >> 24)
        & 0xff) as u8 && ((a >> 16) & 0xff) as u8 == ((b >> 16) & 0xff) as u8 && ((a >> 8)
        & 0xff) as u8 == ((b >> 8) & 0xff) as u8 && (a & 0xff) as u8 == (b & 0xff) as u8 ==> a
        == b) by (bit_vector);
}

/// Two values with the same four-byte image are equal.
pub proof fn lemma_u32_bytes_inj(a: u32, b: u32)
    by (bit_vector)
    ensures
        ((a >> 24) & 0xff) as u8 == ((b >> 24) & 0xff) as u8 && ((a >> 16) & 0xff) as u8 == ((b
            >> 16) & 0xff) as u8 && ((a >> 8) & 0xff) as u8 == ((b >> 8) & 0xff) as u8 && (a
            & 0xff) as u8 == (b & 0xff) as u8 ==> a == b,
{
}

// ---------------------------------------------------------------------------
// Bounds-checked big-endian readers and writers.
// ---------------------------------------------------------------------------

/// Swaps the two bytes of a 16-bit value.
pub fn ntoh16(a: u16) -> (r: u16)
    ensures
        r == (a >> 8) | ((a & 0xff) << 8),
{
    (a >> 8) | ((a & 0xff) << 8)
}

/// Reads a big-endian 16-bit value from the head of the buffer.
pub fn getn_u16(a: &[u8]) -> (r: u16)
    requires
        a@.len() >= 2,
    ensures
        u16_bytes(r) == seq![a@[0], a@[1]],
{
    let b0 = a[0];
    let b1 = a[1];
    let r: u16 = ((b0 as u16) << 8) | (b1 as u16);
    proof {
        assert(((r >> 8) & 0xff) as u8 == b0 && (r & 0xff) as u8 == b1) by (bit_vector)
            requires
                r == ((b0 as u16) << 8) | (b1 as u16),
        ;
        assert(u16_bytes(r) =~= seq![a@[0], a@[1]]);
    }
    r
}

/// Writes a big-endian 16-bit value over the first two bytes of the buffer.
pub fn setn_u16(s: u16, a: &mut [u8])
    requires
        old(a)@.len() >= 2,
    ensures
        final(a)@ == old(a)@.update(0, ((s >> 8) & 0xff) as u8).update(1, (s & 0xff) as u8),
{
    a.set(0, ((s >> 8) & 0xff) as u8);
    a.set(1, (s & 0xff) as u8);
}

/// Reads a big-endian 32-bit value from the head of the buffer.
pub fn getn_u32(a: &[u8]) -> (r: u32)
    requires
        a@.len() >= 4,
    ensures
        u32_bytes(r) == seq![a@[0], a@[1], a@[2], a@[3]],
{
    let b0 = a[0];
    let b1 = a[1];
    let b2 = a[2];
    let b3 = a[3];
    let r: u32 = ((b0 as u32) << 24) | ((b1 as u32) << 16) | ((b2 as u32) << 8) | (b3 as u32);
    proof {
        assert(((r >> 24) & 0xff) as u8 == b0 && ((r >> 16) & 0xff) as u8 == b1 && ((r >> 8)
            & 0xff) as u8 == b2 && (r & 0xff) as u8 == b3) by (bit_vector)
            requires
                r == ((b0 as u32) << 24) | ((b1 as u32) << 16) | ((b2 as u32) << 8) | (b3 as u32),
        ;
        assert(u32_bytes(r) =~= seq![a@[0], a@[1], a@[2], a@[3]]);
    }
    r
}

/// Writes a big-endian 32-bit value over the first four bytes of the buffer.
pub fn setn_u32(s: u32, a: &mut [u8])
    requires
        old(a)@.len() >= 4,
    ensures
        final(a)@.len() == old(a)@.len(),
        final(a)@.subrange(0, 4) == u32_bytes(s),
        forall|i: int| 4 <= i < old(a)@.len() ==> final(a)@[i] == old(a)@[i],
{
    a.set(0, ((s >> 24) & 0xff) as u8);
    a.set(1, ((s >> 16) & 0xff) as u8);
    a.set(2, ((s >> 8) & 0xff) as u8);
    a.set(3, (s & 0xff) as u8);
    proof {
        assert(final(a)@.subrange(0, 4) =~= u32_bytes(s));
    }
}

/// Reads a big-endian 64-bit value from the head of the buffer.
pub fn getn_u64(a: &[u8]) -> (r: u64)
    requires
        a@.len() >= 8,
    ensures
        u64_bytes(r) == a@.subrange(0, 8),
{
    let hi = getn_u32(a);
    let lo = getn_u32(slice_tail4(a));
    let r: u64 = ((hi as u64) << 32) | (lo as u64);
    proof {
        assert(((r >> 56) & 0xff) as u8 == ((hi >> 24) & 0xff) as u8 && ((r >> 48)
            & 0xff) as u8 == ((hi >> 16) & 0xff) as u8 && ((r >> 40) & 0xff) as u8 == ((hi >> 8)
            & 0xff) as u8 && ((r >> 32) & 0xff) as u8 == (hi & 0xff) as u8 && ((r >> 24)
            & 0xff) as u8 == ((lo >> 24) & 0xff) as u8 && ((r >> 16) & 0xff) as u8 == ((lo >> 16)
            & 0xff) as u8 && ((r >> 8) & 0xff) as u8 == ((lo >> 8) & 0xff) as u8 && (r
            & 0xff) as u8 == (lo & 0xff) as u8) by (bit_vector)
            requires
                r == ((hi as u64) << 32) | (lo as u64),
        ;
        assert(u64_bytes(r) =~= a@.subrange(0, 8));
    }
    r
}

/// Reads a big-endian 128-bit value from the head of the buffer.
pub fn getn_u128(a: &[u8]) -> (r: u128)
    requires
        a@.len() >= 16,
    ensures
        u128_bytes(r) == a@.subrange(0, 16),
{
    let hi = getn_u64(a);
    let lo = getn_u64(slice_tail8(a));
    let r: u128 = ((hi as u128) << 64) | (lo as u128);
    proof {
        assert(((r >> 120) & 0xff) as u8 == ((hi >> 56) & 0xff) as u8 && ((r >> 112)
            & 0xff) as u8 == ((hi >> 48) & 0xff) as u8 && ((r >> 104) & 0xff) as u8 == ((hi >> 40)
            & 0xff) as u8 && ((r >> 96) & 0xff) as u8 == ((hi >> 32) & 0xff) as u8 && ((r >> 88)
            & 0xff) as u8 == ((hi >> 24) & 0xff) as u8 && ((r >> 80) & 0xff) as u8 == ((hi >> 16)
            & 0xff) as u8 && ((r >> 72) & 0xff) as u8 == ((hi >> 8) & 0xff) as u8 && ((r >> 64)
            & 0xff) as u8 == (hi & 0xff) as u8 && ((r >> 56) & 0xff) as u8 == ((lo >> 56)
            & 0xff) as u8 && ((r >> 48) & 0xff) as u8 == ((lo >> 48) & 0xff) as u8 && ((r >> 40)
            & 0xff) as u8 == ((lo >> 40) & 0xff) as u8 && ((r >> 32) & 0xff) as u8 == ((lo >> 32)
            & 0xff) as u8 && ((r >> 24) & 0xff) as u8 == ((lo >> 24) & 0xff) as u8 && ((r >> 16)
            & 0xff) as u8 == ((lo >> 16) & 0xff) as u8 && ((r >> 8) & 0xff) as u8 == ((lo >> 8)
            & 0xff) as u8 && (r & 0xff) as u8 == (lo & 0xff) as u8) by (bit_vector)
            requires
                r == ((hi as u128) << 64) | (lo as u128),
        ;
        assert(u128_bytes(r) =~= a@.subrange(0, 16));
    }
    r
}

fn slice_tail4(a: &[u8]) -> (r: &[u8])
    requires
        a@.len() >= 8,
    ensures
        r@ == a@.subrange(4, 8),
{
    vstd::slice::slice_subrange(a, 4, 8)
}

fn slice_tail8(a: &[u8]) -> (r: &[u8])
    requires
        a@.len() >= 16,
    ensures
        r@ == a@.subrange(8, 16),
{
    vstd::slice::slice_subrange(a, 8, 16)
}

// ---------------------------------------------------------------------------
// Appending writers used by all encoders. Encoders build their output by
// appending to a byte vector, so each contract is a plain concatenation.
// ---------------------------------------------------------------------------

/// Appends the two-byte image of a 16-bit value.
pub fn push_u16(buf: &mut Vec<u8>, v: u16)
    ensures
        final(buf)@ == old(buf)@ + u16_bytes(v),
{
    buf.push(((v >> 8) & 0xff) as u8);
    buf.push((v & 0xff) as u8);
    proof {
        assert(final(buf)@ =~= old(buf)@ + u16_bytes(v));
    }
}

/// Appends the four-byte image of a 32-bit value.
pub fn push_u32(buf: &mut Vec<u8>, v: u32)
    ensures
        final(buf)@ == old(buf)@ + u32_bytes(v),
{
    buf.push(((v >> 24) & 0xff) as u8);
    buf.push(((v >> 16) & 0xff) as u8);
    buf.push(((v >> 8) & 0xff) as u8);
    buf.push((v & 0xff) as u8);
    proof {
        assert(final(buf)@ =~= old(buf)@ + u32_bytes(v));
    }
}

/// Returns byte `i` of the four-byte image of a 32-bit value.
pub fn u32_byte_at(v: u32, i: usize) -> (r: u8)
    requires
        i < 4,
    ensures
        r == u32_bytes(v)[i as int],
{
    if i == 0 {
        ((v >> 24) & 0xff) as u8
    } else if i == 1 {
        ((v >> 16) & 0xff) as u8
    } else if i == 2 {
        ((v >> 8) & 0xff) as u8
    } else {
        (v & 0xff) as u8
    }
}

/// Returns byte `i` of the sixteen-byte image of a 128-bit value.
pub fn u128_byte_at(v: u128, i: usize) -> (r: u8)
    requires
        i < 16,
    ensures
        r == u128_bytes(v)[i as int],
{
    if i < 8 {
        if i == 0 {
            ((v >> 120) & 0xff) as u8
        } else if i == 1 {
            ((v >> 112) & 0xff) as u8
        } else if i == 2 {
            ((v >> 104) & 0xff) as u8
        } else if i == 3 {
            ((v >> 96) & 0xff) as u8
        } else if i == 4 {
            ((v >> 88) & 0xff) as u8
        } else if i == 5 {
            ((v >> 80) & 0xff) as u8
        } else if i == 6 {
            ((v >> 72) & 0xff) as u8
        } else {
            ((v >> 64) & 0xff) as u8
        }
    } else {
        if i == 8 {
            ((v >> 56) & 0xff) as u8
        } else if i == 9 {
            ((v >> 48) & 0xff) as u8
        } else if i == 10 {
            ((v >> 40) & 0xff) as u8
        } else if i == 11 {
            ((v >> 32) & 0xff) as u8
        } else if i == 12 {
            ((v >> 24) & 0xff) as u8
        } else if i == 13 {
            ((v >> 16) & 0xff) as u8
        } else if i == 14 {
            ((v >> 8) & 0xff) as u8
        } else {
            (v & 0xff) as u8
        }
    }
}

/// True when the head of an NLRI run has the shape of a path id: at least
/// five bytes with the two high path-id octets zero.
pub fn is_addpath_nlri(b: &[u8]) -> (r: bool)
    ensures
        r <==> b@.len() >= 5 && b@[0] == 0 && b@[1] == 0,
{
    if b.len() < 5 {
        false
    } else {
        b[0] == 0 && b[1] == 0
    }
}

// ---------------------------------------------------------------------------
// Address model. Addresses are fixed-width integers in host form; their wire
// form is the big-endian byte image above. IPv4 addresses are 32 bits, IPv6
// addresses 128 bits.
// ---------------------------------------------------------------------------

/// An IPv4 address as a 32-bit value (`10.0.0.1` is `0x0a000001`).
#[derive(Debug, Clone, Copy, PartialEq, Eq, Structural, PartialOrd, Ord, Hash)]
pub struct Ipv4Addr {
    pub value: u32,
}

impl Ipv4Addr {
    /// Builds an address from its four dotted-quad components.
    pub fn new(a: u8, b: u8, c: u8, d: u8) -> (r: Ipv4Addr)
        ensures
            r.value == ((a as u32) << 24) | ((b as u32) << 16) | ((c as u32) << 8) | (d as u32),
    {
        Ipv4Addr {
            value: ((a as u32) << 24) | ((b as u32) << 16) | ((c as u32) << 8) | (d as u32),
        }
    }

    /// Builds an address from its 32-bit value.
    pub fn from_u32(v: u32) -> (r: Ipv4Addr)
        ensures
            r.value == v,
    {
        Ipv4Addr { value: v }
    }
}

/// An IPv6 address as a 128-bit value.
#[derive(Debug, Clone, Copy, PartialEq, Eq, Structural, PartialOrd, Ord, Hash)]
pub struct Ipv6Addr {
    pub value: u128,
}

impl Ipv6Addr {
    /// Builds an address from its eight 16-bit segments.
    pub fn new(a: u16, b: u16, c: u16, d: u16, e: u16, f: u16, g: u16, h: u16) -> (r: Ipv6Addr)
        ensures
            r.value == ((a as u128) << 112) | ((b as u128) << 96) | ((c as u128) << 80) | ((
            d as u128) << 64) | ((e as u128) << 48) | ((f as u128) << 32) | ((g as u128) << 16) | (
            h as u128),
    {
        Ipv6Addr {
            value: ((a as u128) << 112) | ((b as u128) << 96) | ((c as u128) << 80) | ((
            d as u128) << 64) | ((e as u128) << 48) | ((f as u128) << 32) | ((g as u128) << 16) | (
            h as u128),
        }
    }

    /// Builds an address from its 128-bit value.
    pub fn from_u128(v: u128) -> (r: Ipv6Addr)
        ensures
            r.value == v,
    {
        Ipv6Addr { value: v }
    }
}

/// An IPv4 or IPv6 address.
#[derive(Debug, Clone, Copy, PartialEq, Eq, Structural, PartialOrd, Ord, Hash)]
pub enum IpAddr {
    V4(Ipv4Addr),
    V6(Ipv6Addr),
}

/// Wire image of an address: four bytes for IPv4, sixteen for IPv6.
pub open spec fn addr_bytes(a: IpAddr) -> Seq<u8> {
    match a {
        IpAddr::V4(v) => u32_bytes(v.value),
        IpAddr::V6(v) => u128_bytes(v.value),
    }
}

/// Reads an IPv4 address from the head of the buffer.
pub fn decode_addrv4_from(buf: &[u8]) -> (r: Result<Ipv4Addr, crate::error::BgpError>)
    ensures
        buf@.len() >= 4 ==> (r matches Ok(a) && u32_bytes(a.value) == buf@.subrange(0, 4)),
        buf@.len() < 4 ==> r is Err,
{
    if buf.len() < 4 {
        return Err(crate::error::BgpError::static_str("Invalid addrv4 length"));
    }
    let v = getn_u32(buf);
    proof {
        assert(u32_bytes(v) =~= buf@.subrange(0, 4));
    }
    Ok(Ipv4Addr { value: v })
}

/// Reads an IPv6 address from the head of the buffer.
pub fn decode_addrv6_from(buf: &[u8]) -> (r: Result<Ipv6Addr, crate::error::BgpError>)
    ensures
        buf@.len() >= 16 ==> (r matches Ok(a) && u128_bytes(a.value) == buf@.subrange(0, 16)),
        buf@.len() < 16 ==> r is Err,
{
    if buf.len() < 16 {
        return Err(crate::error::BgpError::static_str("Invalid addrv6 length"));
    }
    let v = getn_u128(buf);
    Ok(Ipv6Addr { value: v })
}

/// Reads an address whose kind is given by the buffer length: sixteen bytes
/// give an IPv6 address, four an IPv4 address, anything else is an error.
pub fn decode_addr_from(buf: &[u8]) -> (r: Result<IpAddr, crate::error::BgpError>)
    ensures
        buf@.len() == 4 ==> (r matches Ok(a) && a is V4 && addr_bytes(a) == buf@),
        buf@.len() == 16 ==> (r matches Ok(a) && a is V6 && addr_bytes(a) == buf@),
        buf@.len() != 4 && buf@.len() != 16 ==> r is Err,
{
    if buf.len() == 16 {
        match decode_addrv6_from(buf) {
            Ok(a) => {
                proof {
                    assert(buf@.subrange(0, 16) =~= buf@);
                }
                Ok(IpAddr::V6(a))
            },
            Err(e) => Err(e),
        }
    } else if buf.len() == 4 {
        match decode_addrv4_from(buf) {
            Ok(a) => {
                proof {
                    assert(buf@.subrange(0, 4) =~= buf@);
                }
                Ok(IpAddr::V4(a))
            },
            Err(e) => Err(e),
        }
    } else {
        Err(crate::error::BgpError::static_str("Invalid addr length"))
    }
}

/// Appends the four-byte image of an IPv4 address.
pub fn encode_addrv4_to(addr: &Ipv4Addr, buf: &mut Vec<u8>) -> (r: usize)
    ensures
        final(buf)@ == old(buf)@ + u32_bytes(addr.value),
        r == 4,
{
    push_u32(buf, addr.value);
    4
}

/// Appends the sixteen-byte image of an IPv6 address.
pub fn encode_addrv6_to(addr: &Ipv6Addr, buf: &mut Vec<u8>) -> (r: usize)
    ensures
        final(buf)@ == old(buf)@ + u128_bytes(addr.value),
        r == 16,
{
    push_u128(buf, addr.value);
    16
}

/// Appends the wire image of an address: four or sixteen bytes by its kind.
pub fn encode_addr_to(addr: &IpAddr, buf: &mut Vec<u8>) -> (r: usize)
    ensures
        final(buf)@ == old(buf)@ + addr_bytes(*addr),
        r == addr_bytes(*addr).len(),
{
    match addr {
        IpAddr::V4(a) => encode_addrv4_to(a, buf),
        IpAddr::V6(a) => encode_addrv6_to(a, buf),
    }
}

/// Appends the eight-byte image of a 64-bit value.
pub fn push_u64(buf: &mut Vec<u8>, v: u64)
    ensures
        final(buf)@ == old(buf)@ + u64_bytes(v),
{
    buf.push(((v >> 56) & 0xff) as u8);
    buf.push(((v >> 48) & 0xff) as u8);
    buf.push(((v >> 40) & 0xff) as u8);
    buf.push(((v >> 32) & 0xff) as u8);
    buf.push(((v >> 24) & 0xff) as u8);
    buf.push(((v >> 16) & 0xff) as u8);
    buf.push(((v >> 8) & 0xff) as u8);
    buf.push((v & 0xff) as u8);
    proof {
        assert(final(buf)@ =~= old(buf)@ + u64_bytes(v));
    }
}

/// Appends the sixteen-byte image of a 128-bit value.
pub fn push_u128(buf: &mut Vec<u8>, v: u128)
    ensures
        final(buf)@ == old(buf)@ + u128_bytes(v),
{
    buf.push(((v >> 120) & 0xff) as u8);
    buf.push(((v >> 112) & 0xff) as u8);
    buf.push(((v >> 104) & 0xff) as u8);
    buf.push(((v >> 96) & 0xff) as u8);
    buf.push(((v >> 88) & 0xff) as u8);
    buf.push(((v >> 80) & 0xff) as u8);
    buf.push(((v >> 72) & 0xff) as u8);
    buf.push(((v >> 64) & 0xff) as u8);
    buf.push(((v >> 56) & 0xff) as u8);
    buf.push(((v >> 48) & 0xff) as u8);
    buf.push(((v >> 40) & 0xff) as u8);
    buf.push(((v >> 32) & 0xff) as u8);
    buf.push(((v >> 24) & 0xff) as u8);
    buf.push(((v >> 16) & 0xff) as u8);
    buf.push(((v >> 8) & 0xff) as u8);
    buf.push((v & 0xff) as u8);
    proof {
        assert(final(buf)@ =~= old(buf)@ + u128_bytes(v));
    }
}

} // verus!
