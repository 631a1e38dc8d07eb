//! NLRI data structures for IPv4.

use crate::afi::{prefix_octets, rd_bytes, BgpAddrItem, BgpItem, BgpRD};
use crate::error::BgpError;
use crate::util::{
    encode_addrv4_to, getn_u32, lemma_u32_bytes_inj, lemma_u32_of_bytes_image, u32_byte_at,
    u32_bytes, u32_of_bytes, Ipv4Addr,
};
use crate::BgpTransportMode;
use vstd::prelude::*;

verus! {

/// An IPv4 prefix: a network address and a prefix length of at most 32.
#[derive(Debug, Clone, Copy, PartialEq, Eq, Structural, PartialOrd, Ord, Hash)]
pub struct BgpAddrV4 {
    /// network prefix
    pub addr: Ipv4Addr,
    /// prefix length, 0 to 32
    pub prefixlen: u8,
}

/// Byte `i` of the zero-padded prefix payload: the wire byte where the
/// prefix covers it, zero beyond.
pub open spec fn pad_byte(s: Seq<u8>, i: int, nb: int) -> u8 {
    if 0 <= i < nb && i < s.len() {
        s[i]
    } else {
        0
    }
}

/// The host-bits mask of an IPv4 prefix.
pub open spec fn v4_host_mask(plen: u8) -> u32
    recommends
        1 <= plen <= 31,
{
    (((1u32 << ((32 - plen) as u32)) - 1) as u32)
}

/// The network part of an IPv4 prefix: the address with its host bits
/// cleared.
pub open spec fn v4_net(value: u32, plen: u8) -> u32
    recommends
        1 <= plen <= 31,
{
    value & (v4_host_mask(plen) ^ 0xffffffff)
}

/// The last address under an IPv4 prefix.
pub open spec fn v4_net_last(value: u32, plen: u8) -> u32
    recommends
        1 <= plen <= 31,
{
    ((v4_net(value, plen) + v4_host_mask(plen)) as u32)
}

/// The network and last addresses of a proper prefix stay within range.
pub proof fn lemma_v4_net_bounds(value: u32, plen: u8)
    by (bit_vector)
    requires
        1 <= plen <= 31,
    ensures
        v4_net(value, plen) <= value,
        v4_net(value, plen) + v4_host_mask(plen) <= 0xffffffff,
        1 <= v4_host_mask(plen) + 1,
        1u32 << ((32 - plen) as u32) >= 1,
{
}

/// The first address of the range a prefix covers.
pub open spec fn spec_range_first(p: BgpAddrV4) -> u32 {
    if p.prefixlen == 0 {
        0
    } else if p.prefixlen > 31 {
        p.addr.value
    } else {
        v4_net(p.addr.value, p.prefixlen)
    }
}

/// The last address of the range a prefix covers.
pub open spec fn spec_range_last(p: BgpAddrV4) -> u32 {
    if p.prefixlen == 0 {
        0xffffffffu32
    } else if p.prefixlen > 31 {
        p.addr.value
    } else {
        v4_net_last(p.addr.value, p.prefixlen)
    }
}

impl BgpAddrV4 {
    /// Builds a prefix from an address and a length.
    pub fn new(address: Ipv4Addr, prefix_len: u8) -> (r: BgpAddrV4)
        ensures
            r == (BgpAddrV4 { addr: address, prefixlen: prefix_len }),
    {
        BgpAddrV4 { addr: address, prefixlen: prefix_len }
    }

    fn norm_subnet_u32(&self) -> (r: u32)
        requires
            1 <= self.prefixlen <= 31,
        ensures
            r == v4_net(self.addr.value, self.prefixlen),
    {
        let sh: u32 = 32 - (self.prefixlen as u32);
        proof {
            lemma_v4_net_bounds(self.addr.value, self.prefixlen);
        }
        self.addr.value & (((1u32 << sh) - 1) ^ 0xffffffff)
    }

    /// True when the given address lies under this prefix. A zero-length
    /// prefix holds every address; a full-length prefix only its own.
    pub fn in_subnet(&self, a: &Ipv4Addr) -> (r: bool)
        requires
            self.prefixlen <= 32,
        ensures
            self.prefixlen == 0 ==> r,
            self.prefixlen > 31 ==> (r <==> self.addr.value == a.value),
            1 <= self.prefixlen <= 31 ==> (r <==> v4_net(self.addr.value, self.prefixlen) <= a.value
                <= v4_net_last(self.addr.value, self.prefixlen)),
    {
        if self.prefixlen == 0 {
            true
        } else if self.prefixlen > 31 {
            self.addr.value == a.value
        } else {
            let lv = self.norm_subnet_u32();
            let sh: u32 = 32 - (self.prefixlen as u32);
            proof {
                lemma_v4_net_bounds(self.addr.value, self.prefixlen);
            }
            let lh = lv + ((1u32 << sh) - 1);
            let va = a.value;
            (va >= lv) && (va <= lh)
        }
    }

    /// The first (network) address under this prefix.
    pub fn range_first(&self) -> (r: Ipv4Addr)
        requires
            self.prefixlen <= 32,
        ensures
            self.prefixlen == 0 ==> r.value == 0,
            self.prefixlen > 31 ==> r.value == self.addr.value,
            1 <= self.prefixlen <= 31 ==> r.value == v4_net(self.addr.value, self.prefixlen),
    {
        if self.prefixlen == 0 {
            Ipv4Addr { value: 0 }
        } else if self.prefixlen > 31 {
            Ipv4Addr { value: self.addr.value }
        } else {
            Ipv4Addr { value: self.norm_subnet_u32() }
        }
    }

    /// The last address under this prefix.
    pub fn range_last(&self) -> (r: Ipv4Addr)
        requires
            self.prefixlen <= 32,
        ensures
            self.prefixlen == 0 ==> r.value == 0xffffffff,
            self.prefixlen > 31 ==> r.value == self.addr.value,
            1 <= self.prefixlen <= 31 ==> r.value == v4_net_last(self.addr.value, self.prefixlen),
    {
        if self.prefixlen < 1 {
            Ipv4Addr { value: 0xffffffff }
        } else if self.prefixlen > 31 {
            self.range_first()
        } else {
            let lv = self.norm_subnet_u32();
            let sh: u32 = 32 - (self.prefixlen as u32);
            proof {
                lemma_v4_net_bounds(self.addr.value, self.prefixlen);
            }
            Ipv4Addr { value: lv + ((1u32 << sh) - 1) }
        }
    }

    /// True when every address under `a` also lies under this prefix: on a
    /// longer prefix it holds exactly when the whole range of `a` lies
    /// inside the range of this prefix.
    pub fn contains(&self, a: &BgpAddrV4) -> (r: bool)
        requires
            self.prefixlen <= 32,
            a.prefixlen <= 32,
        ensures
            self.prefixlen == 0 ==> r,
            self.prefixlen > a.prefixlen ==> !r,
            1 <= self.prefixlen && self.prefixlen == a.prefixlen ==> (r <==> self.addr.value
                == a.addr.value),
            1 <= self.prefixlen && self.prefixlen < a.prefixlen ==> (r <==> (v4_net(
                self.addr.value,
                self.prefixlen,
            ) <= spec_range_first(*a) <= v4_net_last(self.addr.value, self.prefixlen)) && (v4_net(
                self.addr.value,
                self.prefixlen,
            ) <= spec_range_last(*a) <= v4_net_last(self.addr.value, self.prefixlen))),
    {
        if self.prefixlen < 1 {
            true
        } else if self.prefixlen > a.prefixlen {
            false
        } else if self.prefixlen == a.prefixlen {
            self.addr.value == a.addr.value
        } else {
            let first = a.range_first();
            let last = a.range_last();
            self.in_subnet(&first) && self.in_subnet(&last)
        }
    }

    /// True when the address is an IPv4 multicast group address other than
    /// the all-ones broadcast address.
    pub fn is_multicast(&self) -> (r: bool)
        ensures
            r <==> self.addr.value != 0xffffffff && (self.addr.value >> 24) >= 224,
    {
        self.addr.value != 0xffffffff && (self.addr.value >> 24) >= 224
    }

    /// A prefix whose wire image round-trips: the length is at most 32 and
    /// the address bits beyond the encoded octets are zero.
    pub open spec fn wf(self) -> bool {
        &&& self.prefixlen <= 32
        &&& forall|i: int|
            prefix_octets(self.prefixlen as int) <= i < 4 ==> u32_bytes(self.addr.value)[i] == 0
    }

    /// Wire payload: the first `ceil(prefixlen / 8)` address octets.
    pub open spec fn payload(self) -> Seq<u8> {
        u32_bytes(self.addr.value).take(prefix_octets(self.prefixlen as int))
    }

    /// What the decoder yields from a payload under a declared bit length.
    pub open spec fn dec(bits: int, s: Seq<u8>) -> Option<(BgpAddrV4, int)> {
        if bits < 0 || bits > 32 || s.len() < prefix_octets(bits) {
            None
        } else {
            let nb = prefix_octets(bits);
            Some(
                (
                    BgpAddrV4 {
                        addr: Ipv4Addr {
                            value: u32_of_bytes(
                                pad_byte(s, 0, nb),
                                pad_byte(s, 1, nb),
                                pad_byte(s, 2, nb),
                                pad_byte(s, 3, nb),
                            ),
                        },
                        prefixlen: bits as u8,
                    },
                    nb,
                ),
            )
        }
    }

    /// The decoded prefix is well formed and the bytes it consumed are
    /// exactly its payload.
    pub proof fn lemma_dec_ok(bits: int, s: Seq<u8>)
        ensures
            Self::dec(bits, s) matches Some((v, n)) ==> v.wf() && 0 <= n <= s.len() && n
                == prefix_octets(bits) && v.prefixlen == bits && v.payload() == s.subrange(0, n),
    {
        if Self::dec(bits, s) is Some {
            let (v, n) = Self::dec(bits, s).unwrap();
            let nb = prefix_octets(bits);
            lemma_u32_of_bytes_image(
                pad_byte(s, 0, nb),
                pad_byte(s, 1, nb),
                pad_byte(s, 2, nb),
                pad_byte(s, 3, nb),
            );
            assert(v.payload() =~= s.subrange(0, n));
        }
    }

    /// A declared prefix length of zero consumes no address bytes and
    /// yields the zero address, whatever the buffer holds.
    pub proof fn lemma_zero_length_prefix(s: Seq<u8>)
        ensures
            Self::dec(0, s) == Some((BgpAddrV4 { addr: Ipv4Addr { value: 0 }, prefixlen: 0 }, 0int)),
    {
        assert(u32_of_bytes(0, 0, 0, 0) == 0) by (bit_vector);
    }

    /// Round trip: decoding an encoded prefix, whatever follows it, gives
    /// the prefix back.
    pub proof fn lemma_prefix_round_trip(self, rest: Seq<u8>)
        requires
            self.wf(),
        ensures
            Self::dec(self.prefixlen as int, self.payload() + rest) == Some(
                (self, self.payload().len() as int),
            ),
    {
        let bits = self.prefixlen as int;
        let nb = prefix_octets(bits);
        let s = self.payload() + rest;
        let img = u32_bytes(self.addr.value);
        assert(forall|i: int| 0 <= i < nb ==> s[i] == img[i]);
        lemma_u32_of_bytes_image(
            pad_byte(s, 0, nb),
            pad_byte(s, 1, nb),
            pad_byte(s, 2, nb),
            pad_byte(s, 3, nb),
        );
        let v = Self::dec(bits, s).unwrap().0;
        assert(u32_bytes(v.addr.value) =~= img);
        lemma_u32_bytes_inj(v.addr.value, self.addr.value);
    }

    /// Reads a prefix whose declared bit length is `bits` from the head of
    /// the buffer.
    pub fn from_bits(bits: u8, buf: &[u8]) -> (r: Result<(BgpAddrV4, usize), BgpError>)
        ensures
            r matches Ok((v, n)) ==> Self::dec(bits as int, buf@) == Some((v, n as int)),
            r is Err ==> Self::dec(bits as int, buf@) is None,
    {
        if bits > 32 {
            return Err(BgpError::static_str("Invalid ipv4 FEC length"));
        }
        let nb: usize = ((bits as usize) + 7) / 8;
        if buf.len() < nb {
            return Err(BgpError::insufficient_buffer_size());
        }
        let mut bf: Vec<u8> = Vec::new();
        let mut i: usize = 0;
        while i < nb
            invariant
                nb <= 4,
                nb <= buf@.len(),
                i <= nb,
                bf@.len() == i,
                forall|k: int| 0 <= k < i ==> bf@[k] == buf@[k],
            decreases nb - i,
        {
            bf.push(buf[i]);
            i = i + 1;
        }
        while i < 4
            invariant
                nb <= 4,
                nb <= buf@.len(),
                nb <= i <= 4,
                bf@.len() == i,
                forall|k: int| 0 <= k < nb ==> bf@[k] == buf@[k],
                forall|k: int| nb <= k < i ==> bf@[k] == 0,
            decreases 4 - i,
        {
            bf.push(0);
            i = i + 1;
        }
        let value = getn_u32(bf.as_slice());
        proof {
            let nbi = prefix_octets(bits as int);
            lemma_u32_of_bytes_image(
                pad_byte(buf@, 0, nbi),
                pad_byte(buf@, 1, nbi),
                pad_byte(buf@, 2, nbi),
                pad_byte(buf@, 3, nbi),
            );
            assert(seq![bf@[0], bf@[1], bf@[2], bf@[3]] =~= u32_bytes(
                u32_of_bytes(
                    pad_byte(buf@, 0, nbi),
                    pad_byte(buf@, 1, nbi),
                    pad_byte(buf@, 2, nbi),
                    pad_byte(buf@, 3, nbi),
                ),
            ));
            lemma_u32_bytes_inj(
                value,
                u32_of_bytes(
                    pad_byte(buf@, 0, nbi),
                    pad_byte(buf@, 1, nbi),
                    pad_byte(buf@, 2, nbi),
                    pad_byte(buf@, 3, nbi),
                ),
            );
        }
        Ok((BgpAddrV4 { addr: Ipv4Addr { value }, prefixlen: bits }, nb))
    }

    /// Appends the prefix payload; returns the declared bit length and the
    /// octet count written.
    pub fn to_bits(&self, buf: &mut Vec<u8>) -> (r: Result<(u8, usize), BgpError>)
        requires
            self.wf(),
        ensures
            r matches Ok((bits, n)) && bits == self.prefixlen && n == self.payload().len(),
            final(buf)@ == old(buf)@ + self.payload(),
    {
        let nb: usize = ((self.prefixlen as usize) + 7) / 8;
        let mut i: usize = 0;
        while i < nb
            invariant
                nb == prefix_octets(self.prefixlen as int),
                nb <= 4,
                i <= nb,
                buf@ == old(buf)@ + u32_bytes(self.addr.value).take(i as int),
            decreases nb - i,
        {
            let b = u32_byte_at(self.addr.value, i);
            buf.push(b);
            proof {
                assert(buf@ =~= old(buf)@ + u32_bytes(self.addr.value).take(i + 1int));
            }
            i = i + 1;
        }
        proof {
            assert(final(buf)@ =~= old(buf)@ + self.payload());
        }
        Ok((self.prefixlen, nb))
    }
}

impl BgpItem for BgpAddrV4 {
    open spec fn wf(&self) -> bool {
        BgpAddrV4::wf(*self)
    }

    open spec fn enc_bits(&self) -> int {
        self.prefixlen as int
    }

    open spec fn enc_payload(&self) -> Seq<u8> {
        self.payload()
    }

    open spec fn dec_ok(bits: int, s: Seq<u8>, v: BgpAddrV4, n: int) -> bool {
        BgpAddrV4::dec(bits, s) == Some((v, n))
    }

    open spec fn samev(a: BgpAddrV4, b: BgpAddrV4) -> bool {
        a == b
    }

    proof fn lemma_enc_bits_nonneg(&self) {
    }

    proof fn lemma_dec_bounds(bits: int, s: Seq<u8>, v: BgpAddrV4, n: int) {
        BgpAddrV4::lemma_dec_ok(bits, s);
    }

    proof fn lemma_round_trip(&self, rest: Seq<u8>) {
        self.lemma_prefix_round_trip(rest);
        assert(<BgpAddrV4 as BgpItem>::dec_ok(
            self.enc_bits(),
            self.enc_payload() + rest,
            *self,
            self.enc_payload().len() as int,
        ));
    }

    proof fn lemma_dec_deterministic(
        bits: int,
        s: Seq<u8>,
        v1: BgpAddrV4,
        n1: int,
        v2: BgpAddrV4,
        n2: int,
    ) {
    }

    fn extract_bits_from(bits: u8, buf: &[u8]) -> (r: Result<(BgpAddrV4, usize), BgpError>) {
        let r = BgpAddrV4::from_bits(bits, buf);
        proof {
            if exists|v: BgpAddrV4, n: int|
                #[trigger] <BgpAddrV4 as BgpItem>::dec_ok(bits as int, buf@, v, n) {
                let (v, n) = choose|v: BgpAddrV4, n: int|
                    #[trigger] <BgpAddrV4 as BgpItem>::dec_ok(bits as int, buf@, v, n);
                assert(BgpAddrV4::dec(bits as int, buf@) == Some((v, n)));
            }
        }
        r
    }

    fn set_bits_to(&self, buf: &mut Vec<u8>) -> (r: Result<(u8, usize), BgpError>) {
        self.to_bits(buf)
    }

    fn prefixlen(&self) -> (r: usize) {
        self.prefixlen as usize
    }
}

/// A route distinguisher paired with an IPv4 address, the next-hop shape of
/// the VPN address families.
#[derive(Debug, Clone, Copy, PartialEq, Eq, Structural, PartialOrd, Ord, Hash)]
pub struct BgpIPv4RD {
    pub rd: BgpRD,
    pub addr: Ipv4Addr,
}

impl BgpIPv4RD {
    /// Pairs a route distinguisher with an address.
    pub fn new(crd: BgpRD, adr: Ipv4Addr) -> (r: BgpIPv4RD)
        ensures
            r == (BgpIPv4RD { rd: crd, addr: adr }),
    {
        BgpIPv4RD { rd: crd, addr: adr }
    }
}

impl BgpAddrItem for BgpIPv4RD {
    open spec fn wf(&self) -> bool {
        true
    }

    fn decode_from(mode: BgpTransportMode, buf: &[u8]) -> (r: Result<(BgpIPv4RD, usize), BgpError>)
        ensures
            r matches Ok((v, n)) ==> n == 12 && buf@.len() >= 12 && crate::afi::rd_bytes(v.rd)
                == buf@.subrange(0, 8) && u32_bytes(v.addr.value) == buf@.subrange(8, 12),
            buf@.len() >= 12 ==> r is Ok,
            buf@.len() < 12 ==> r is Err,
    {
        if buf.len() >= 12 {
            let (rd, _) = match BgpRD::decode_rd_from(buf) {
                Ok(p) => p,
                Err(e) => {
                    return Err(e);
                },
            };
            let value = getn_u32(vstd::slice::slice_subrange(buf, 8, 12));
            proof {
                assert(seq![buf@[8], buf@[9], buf@[10], buf@[11]] =~= buf@.subrange(8, 12));
            }
            Ok((BgpIPv4RD { rd, addr: Ipv4Addr { value } }, 12))
        } else {
            Err(BgpError::static_str("Invalid BgpIPv4RD buffer len"))
        }
    }

    fn encode_to(&self, mode: BgpTransportMode, buf: &mut Vec<u8>) -> (r: Result<usize, BgpError>)
    {
        let p1 = match self.rd.encode_rd_to(buf) {
            Ok(n) => n,
            Err(e) => {
                return Err(e);
            },
        };
        let p2 = encode_addrv4_to(&self.addr, buf);
        proof {
            assert(final(buf)@.subrange(0, old(buf)@.len() as int) =~= old(buf)@);
        }
        Ok(p1 + p2)
    }
}

} // verus!

