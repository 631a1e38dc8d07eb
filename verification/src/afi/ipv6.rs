//! NLRI data structures for IPv6.

use crate::afi::ipv4::pad_byte;
use crate::afi::{prefix_octets, rd_bytes, BgpAddrItem, BgpItem, BgpRD};
use crate::error::BgpError;
use crate::util::{
    encode_addrv6_to, getn_u128, lemma_u128_bytes_inj, lemma_u128_of_bytes_image, u128_byte_at,
    u128_bytes, u128_of_bytes, Ipv6Addr,
};
use crate::BgpTransportMode;
use vstd::prelude::*;

verus! {

/// An IPv6 prefix: a network address and a prefix length of at most 128.
#[derive(Debug, Clone, Copy, PartialEq, Eq, Structural, PartialOrd, Ord, Hash)]
pub struct BgpAddrV6 {
    /// network prefix
    pub addr: Ipv6Addr,
    /// prefix length, 0 to 128
    pub prefixlen: u8,
}

/// The address value rebuilt from a zero-padded payload.
pub open spec fn v6_of_padded(s: Seq<u8>, nb: int) -> u128 {
    u128_of_bytes(
        pad_byte(s, 0, nb),
        pad_byte(s, 1, nb),
        pad_byte(s, 2, nb),
        pad_byte(s, 3, nb),
        pad_byte(s, 4, nb),
        pad_byte(s, 5, nb),
        pad_byte(s, 6, nb),
        pad_byte(s, 7, nb),
        pad_byte(s, 8, nb),
        pad_byte(s, 9, nb),
        pad_byte(s, 10, nb),
        pad_byte(s, 11, nb),
        pad_byte(s, 12, nb),
        pad_byte(s, 13, nb),
        pad_byte(s, 14, nb),
        pad_byte(s, 15, nb),
    )
}

/// The image of a rebuilt address is the padded payload itself.
pub proof fn lemma_v6_of_padded_image(s: Seq<u8>, nb: int)
    ensures
        u128_bytes(v6_of_padded(s, nb)) == Seq::new(16, |i: int| pad_byte(s, i, nb)),
{
    lemma_u128_of_bytes_image(
        pad_byte(s, 0, nb),
        pad_byte(s, 1, nb),
        pad_byte(s, 2, nb),
        pad_byte(s, 3, nb),
        pad_byte(s, 4, nb),
        pad_byte(s, 5, nb),
        pad_byte(s, 6, nb),
        pad_byte(s, 7, nb),
        pad_byte(s, 8, nb),
        pad_byte(s, 9, nb),
        pad_byte(s, 10, nb),
        pad_byte(s, 11, nb),
        pad_byte(s, 12, nb),
        pad_byte(s, 13, nb),
        pad_byte(s, 14, nb),
        pad_byte(s, 15, nb),
    );
    assert(u128_bytes(v6_of_padded(s, nb)) =~= Seq::new(16, |i: int| pad_byte(s, i, nb)));
}

/// The host-bits mask of an IPv6 prefix.
pub open spec fn v6_host_mask(plen: u8) -> u128
    recommends
        1 <= plen <= 127,
{
    (((1u128 << ((128 - plen) as u128)) - 1) as u128)
}

/// The network part of an IPv6 prefix: the address with its host bits
/// cleared.
pub open spec fn v6_net(value: u128, plen: u8) -> u128
    recommends
        1 <= plen <= 127,
{
    value & (v6_host_mask(plen) ^ 0xffffffffffffffffffffffffffffffff)
}

/// The last address under an IPv6 prefix.
pub open spec fn v6_net_last(value: u128, plen: u8) -> u128
    recommends
        1 <= plen <= 127,
{
    ((v6_net(value, plen) + v6_host_mask(plen)) as u128)
}

/// The network and last addresses of a proper prefix stay within range.
pub proof fn lemma_v6_net_bounds(value: u128, plen: u8)
    by (bit_vector)
    requires
        1 <= plen <= 127,
    ensures
        v6_net(value, plen) <= value,
        v6_net(value, plen) + v6_host_mask(plen) <= 0xffffffffffffffffffffffffffffffff,
        1u128 << ((128 - plen) as u128) >= 1,
{
}

/// The first address of the range a prefix covers.
pub open spec fn spec_range_first(p: BgpAddrV6) -> u128 {
    if p.prefixlen == 0 {
        0
    } else if p.prefixlen > 127 {
        p.addr.value
    } else {
        v6_net(p.addr.value, p.prefixlen)
    }
}

/// The last address of the range a prefix covers.
pub open spec fn spec_range_last(p: BgpAddrV6) -> u128 {
    if p.prefixlen == 0 {
        0xffffffffffffffffffffffffffffffffu128
    } else if p.prefixlen > 127 {
        p.addr.value
    } else {
        v6_net_last(p.addr.value, p.prefixlen)
    }
}

impl BgpAddrV6 {
    fn norm_subnet_u128(&self) -> (r: u128)
        requires
            1 <= self.prefixlen <= 127,
        ensures
            r == v6_net(self.addr.value, self.prefixlen),
    {
        let sh: u128 = 128 - (self.prefixlen as u128);
        proof {
            lemma_v6_net_bounds(self.addr.value, self.prefixlen);
        }
        self.addr.value & (((1u128 << sh) - 1) ^ 0xffffffffffffffffffffffffffffffff)
    }

    /// True when the given address lies under this prefix. A zero-length
    /// prefix holds every address; a full-length prefix only its own.
    pub fn in_subnet(&self, a: &Ipv6Addr) -> (r: bool)
        requires
            self.prefixlen <= 128,
        ensures
            self.prefixlen == 0 ==> r,
            self.prefixlen > 127 ==> (r <==> self.addr.value == a.value),
            1 <= self.prefixlen <= 127 ==> (r <==> v6_net(self.addr.value, self.prefixlen)
                <= a.value <= v6_net_last(self.addr.value, self.prefixlen)),
    {
        if self.prefixlen == 0 {
            true
        } else if self.prefixlen > 127 {
            self.addr.value == a.value
        } else {
            let lv = self.norm_subnet_u128();
            let sh: u128 = 128 - (self.prefixlen as u128);
            proof {
                lemma_v6_net_bounds(self.addr.value, self.prefixlen);
            }
            let lh = lv + ((1u128 << sh) - 1);
            let va = a.value;
            (va >= lv) && (va <= lh)
        }
    }

    /// The first (network) address under this prefix.
    pub fn range_first(&self) -> (r: Ipv6Addr)
        requires
            self.prefixlen <= 128,
        ensures
            self.prefixlen == 0 ==> r.value == 0,
            self.prefixlen > 127 ==> r.value == self.addr.value,
            1 <= self.prefixlen <= 127 ==> r.value == v6_net(self.addr.value, self.prefixlen),
    {
        if self.prefixlen == 0 {
            Ipv6Addr { value: 0 }
        } else if self.prefixlen > 127 {
            Ipv6Addr { value: self.addr.value }
        } else {
            Ipv6Addr { value: self.norm_subnet_u128() }
        }
    }

    /// The last address under this prefix.
    pub fn range_last(&self) -> (r: Ipv6Addr)
        requires
            self.prefixlen <= 128,
        ensures
            self.prefixlen == 0 ==> r.value == 0xffffffffffffffffffffffffffffffff,
            self.prefixlen > 127 ==> r.value == self.addr.value,
            1 <= self.prefixlen <= 127 ==> r.value == v6_net_last(self.addr.value, self.prefixlen),
    {
        if self.prefixlen < 1 {
            Ipv6Addr { value: 0xffffffffffffffffffffffffffffffff }
        } else if self.prefixlen > 127 {
            self.range_first()
        } else {
            let lv = self.norm_subnet_u128();
            let sh: u128 = 128 - (self.prefixlen as u128);
            proof {
                lemma_v6_net_bounds(self.addr.value, self.prefixlen);
            }
            Ipv6Addr { value: lv + ((1u128 << sh) - 1) }
        }
    }

    /// True when every address under `a` also lies under this prefix: on a
    /// longer prefix it holds exactly when the whole range of `a` lies
    /// inside the range of this prefix.
    pub fn contains(&self, a: &BgpAddrV6) -> (r: bool)
        requires
            self.prefixlen <= 128,
            a.prefixlen <= 128,
        ensures
            self.prefixlen == 0 ==> r,
            self.prefixlen > a.prefixlen ==> !r,
            1 <= self.prefixlen && self.prefixlen == a.prefixlen ==> (r <==> self.addr.value
                == a.addr.value),
            1 <= self.prefixlen && self.prefixlen < a.prefixlen ==> (r <==> (v6_net(
                self.addr.value,
                self.prefixlen,
            ) <= spec_range_first(*a) <= v6_net_last(self.addr.value, self.prefixlen)) && (v6_net(
                self.addr.value,
                self.prefixlen,
            ) <= spec_range_last(*a) <= v6_net_last(self.addr.value, self.prefixlen))),
    {
        if self.prefixlen < 1 {
            true
        } else if self.prefixlen > a.prefixlen {
            false
        } else if self.prefixlen == a.prefixlen {
            self.addr.value == a.addr.value
        } else {
            let first = a.range_first();
            let last = a.range_last();
            self.in_subnet(&first) && self.in_subnet(&last)
        }
    }

    /// True when the address is an IPv6 multicast group address.
    pub fn is_multicast(&self) -> (r: bool)
        ensures
            r <==> (self.addr.value >> 120) == 255,
    {
        (self.addr.value >> 120) == 255
    }

    /// Builds a prefix from an address and a length.
    pub fn new(address: Ipv6Addr, prefix_len: u8) -> (r: BgpAddrV6)
        ensures
            r == (BgpAddrV6 { addr: address, prefixlen: prefix_len }),
    {
        BgpAddrV6 { addr: address, prefixlen: prefix_len }
    }

    /// A prefix whose wire image round-trips: the length is at most 128 and
    /// the address bits beyond the encoded octets are zero.
    pub open spec fn wf(self) -> bool {
        &&& self.prefixlen <= 128
        &&& forall|i: int|
            prefix_octets(self.prefixlen as int) <= i < 16 ==> u128_bytes(self.addr.value)[i] == 0
    }

    /// Wire payload: the first `ceil(prefixlen / 8)` address octets.
    pub open spec fn payload(self) -> Seq<u8> {
        u128_bytes(self.addr.value).take(prefix_octets(self.prefixlen as int))
    }

    /// What the decoder yields from a payload under a declared bit length.
    pub open spec fn dec(bits: int, s: Seq<u8>) -> Option<(BgpAddrV6, int)> {
        if bits < 0 || bits > 128 || s.len() < prefix_octets(bits) {
            None
        } else {
            let nb = prefix_octets(bits);
            Some(
                (BgpAddrV6 { addr: Ipv6Addr { value: v6_of_padded(s, nb) }, prefixlen: bits as u8 }, nb),
            )
        }
    }

    /// The decoded prefix is well formed and the bytes it consumed are
    /// exactly its payload.
    pub proof fn lemma_dec_ok(bits: int, s: Seq<u8>)
        ensures
            Self::dec(bits, s) matches Some((v, n)) ==> v.wf() && 0 <= n <= s.len() && n
                == prefix_octets(bits) && v.prefixlen == bits && v.payload() == s.subrange(0, n),
    {
        if Self::dec(bits, s) is Some {
            let (v, n) = Self::dec(bits, s).unwrap();
            let nb = prefix_octets(bits);
            lemma_v6_of_padded_image(s, nb);
            assert(v.payload() =~= s.subrange(0, n));
        }
    }

    /// Round trip: decoding an encoded prefix, whatever follows it, gives
    /// the prefix back.
    pub proof fn lemma_prefix_round_trip(self, rest: Seq<u8>)
        requires
            self.wf(),
        ensures
            Self::dec(self.prefixlen as int, self.payload() + rest) == Some(
                (self, self.payload().len() as int),
            ),
    {
        let bits = self.prefixlen as int;
        let nb = prefix_octets(bits);
        let s = self.payload() + rest;
        let img = u128_bytes(self.addr.value);
        assert(forall|i: int| 0 <= i < nb ==> s[i] == img[i]);
        lemma_v6_of_padded_image(s, nb);
        let v = Self::dec(bits, s).unwrap().0;
        assert(u128_bytes(v.addr.value) =~= img);
        lemma_u128_bytes_inj(v.addr.value, self.addr.value);
    }

    /// Reads a prefix whose declared bit length is `bits` from the head of
    /// the buffer.
    pub fn from_bits(bits: u8, buf: &[u8]) -> (r: Result<(BgpAddrV6, usize), BgpError>)
        ensures
            r matches Ok((v, n)) ==> Self::dec(bits as int, buf@) == Some((v, n as int)),
            r is Err ==> Self::dec(bits as int, buf@) is None,
    {
        if bits > 128 {
            return Err(BgpError::static_str("Invalid ipv6 FEC length"));
        }
        let nb: usize = ((bits as usize) + 7) / 8;
        if buf.len() < nb {
            return Err(BgpError::insufficient_buffer_size());
        }
        let mut bf: Vec<u8> = Vec::new();
        let mut i: usize = 0;
        while i < nb
            invariant
                nb <= 16,
                nb <= buf@.len(),
                i <= nb,
                bf@.len() == i,
                forall|k: int| 0 <= k < i ==> bf@[k] == buf@[k],
            decreases nb - i,
        {
            bf.push(buf[i]);
            i = i + 1;
        }
        while i < 16
            invariant
                nb <= 16,
                nb <= buf@.len(),
                nb <= i <= 16,
                bf@.len() == i,
                forall|k: int| 0 <= k < nb ==> bf@[k] == buf@[k],
                forall|k: int| nb <= k < i ==> bf@[k] == 0,
            decreases 16 - i,
        {
            bf.push(0);
            i = i + 1;
        }
        let value = getn_u128(bf.as_slice());
        proof {
            let nbi = prefix_octets(bits as int);
            lemma_v6_of_padded_image(buf@, nbi);
            assert(bf@.subrange(0, 16) =~= bf@);
            assert(u128_bytes(value) =~= Seq::new(16, |i: int| pad_byte(buf@, i, nbi)));
            lemma_u128_bytes_inj(value, v6_of_padded(buf@, nbi));
        }
        Ok((BgpAddrV6 { addr: Ipv6Addr { value }, prefixlen: bits }, nb))
    }

    /// Appends the prefix payload; returns the declared bit length and the
    /// octet count written.
    pub fn to_bits(&self, buf: &mut Vec<u8>) -> (r: Result<(u8, usize), BgpError>)
        requires
            self.wf(),
        ensures
            r matches Ok((bits, n)) && bits == self.prefixlen && n == self.payload().len(),
            final(buf)@ == old(buf)@ + self.payload(),
    {
        let nb: usize = ((self.prefixlen as usize) + 7) / 8;
        let mut i: usize = 0;
        while i < nb
            invariant
                nb == prefix_octets(self.prefixlen as int),
                nb <= 16,
                i <= nb,
                buf@ == old(buf)@ + u128_bytes(self.addr.value).take(i as int),
            decreases nb - i,
        {
            let b = u128_byte_at(self.addr.value, i);
            buf.push(b);
            proof {
                assert(buf@ =~= old(buf)@ + u128_bytes(self.addr.value).take(i + 1int));
            }
            i = i + 1;
        }
        proof {
            assert(final(buf)@ =~= old(buf)@ + self.payload());
        }
        Ok((self.prefixlen, nb))
    }
}

impl BgpItem for BgpAddrV6 {
    open spec fn wf(&self) -> bool {
        BgpAddrV6::wf(*self)
    }

    open spec fn enc_bits(&self) -> int {
        self.prefixlen as int
    }

    open spec fn enc_payload(&self) -> Seq<u8> {
        self.payload()
    }

    open spec fn dec_ok(bits: int, s: Seq<u8>, v: BgpAddrV6, n: int) -> bool {
        BgpAddrV6::dec(bits, s) == Some((v, n))
    }

    open spec fn samev(a: BgpAddrV6, b: BgpAddrV6) -> bool {
        a == b
    }

    proof fn lemma_enc_bits_nonneg(&self) {
    }

    proof fn lemma_dec_bounds(bits: int, s: Seq<u8>, v: BgpAddrV6, n: int) {
        BgpAddrV6::lemma_dec_ok(bits, s);
    }

    proof fn lemma_round_trip(&self, rest: Seq<u8>) {
        self.lemma_prefix_round_trip(rest);
        assert(<BgpAddrV6 as BgpItem>::dec_ok(
            self.enc_bits(),
            self.enc_payload() + rest,
            *self,
            self.enc_payload().len() as int,
        ));
    }

    proof fn lemma_dec_deterministic(
        bits: int,
        s: Seq<u8>,
        v1: BgpAddrV6,
        n1: int,
        v2: BgpAddrV6,
        n2: int,
    ) {
    }

    fn extract_bits_from(bits: u8, buf: &[u8]) -> (r: Result<(BgpAddrV6, usize), BgpError>) {
        let r = BgpAddrV6::from_bits(bits, buf);
        proof {
            if exists|v: BgpAddrV6, n: int|
                #[trigger] <BgpAddrV6 as BgpItem>::dec_ok(bits as int, buf@, v, n) {
                let (v, n) = choose|v: BgpAddrV6, n: int|
                    #[trigger] <BgpAddrV6 as BgpItem>::dec_ok(bits as int, buf@, v, n);
                assert(BgpAddrV6::dec(bits as int, buf@) == Some((v, n)));
            }
        }
        r
    }

    fn set_bits_to(&self, buf: &mut Vec<u8>) -> (r: Result<(u8, usize), BgpError>) {
        self.to_bits(buf)
    }

    fn prefixlen(&self) -> (r: usize) {
        self.prefixlen as usize
    }
}

/// A route distinguisher paired with an IPv6 address.
#[derive(Debug, Clone, Copy, PartialEq, Eq, Structural, PartialOrd, Ord, Hash)]
pub struct BgpIPv6RD {
    pub rd: BgpRD,
    pub addr: Ipv6Addr,
}

impl BgpAddrItem for BgpIPv6RD {
    open spec fn wf(&self) -> bool {
        true
    }

    fn decode_from(mode: BgpTransportMode, buf: &[u8]) -> (r: Result<(BgpIPv6RD, usize), BgpError>)
        ensures
            r matches Ok((v, n)) ==> n == 24 && buf@.len() >= 24 && crate::afi::rd_bytes(v.rd)
                == buf@.subrange(0, 8) && u128_bytes(v.addr.value) == buf@.subrange(8, 24),
            buf@.len() >= 24 ==> r is Ok,
            buf@.len() < 24 ==> r is Err,
    {
        if buf.len() >= 24 {
            let (rd, _) = match BgpRD::decode_rd_from(buf) {
                Ok(p) => p,
                Err(e) => {
                    return Err(e);
                },
            };
            let value = getn_u128(vstd::slice::slice_subrange(buf, 8, 24));
            proof {
                assert(buf@.subrange(8, 24).subrange(0, 16) =~= buf@.subrange(8, 24));
                assert(u128_bytes(value) =~= buf@.subrange(8, 24));
            }
            Ok((BgpIPv6RD { rd, addr: Ipv6Addr { value } }, 24))
        } else {
            Err(BgpError::static_str("Invalid BgpIPv6RD buffer len"))
        }
    }

    fn encode_to(&self, mode: BgpTransportMode, buf: &mut Vec<u8>) -> (r: Result<usize, BgpError>)
    {
        let p1 = match self.rd.encode_rd_to(buf) {
            Ok(n) => n,
            Err(e) => {
                return Err(e);
            },
        };
        let p2 = encode_addrv6_to(&self.addr, buf);
        proof {
            assert(final(buf)@.subrange(0, old(buf)@.len() as int) =~= old(buf)@);
        }
        Ok(p1 + p2)
    }
}

} // verus!
