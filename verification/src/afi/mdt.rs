//! NLRI data structures for the multicast distribution tree address family.

use crate::afi::ipv4::BgpAddrV4;
use crate::afi::ipv6::BgpAddrV6;
use crate::afi::{prefix_octets, BgpItem};
use crate::error::BgpError;
use crate::util::{
    getn_u128, getn_u32, lemma_u128_bytes_inj, lemma_u32_bytes_inj, lemma_u32_of_bytes_image,
    push_u128, push_u32, u128_bytes, u32_bytes, u32_of_bytes, Ipv4Addr, Ipv6Addr,
};
use vstd::prelude::*;
use vstd::slice::slice_subrange;

verus! {

/// An IPv4 MDT NLRI: a source prefix and a fixed four-octet group address.
/// The declared bit length covers the prefix and the 32 group bits.
#[derive(Debug, Clone, Copy, PartialEq, Eq, Structural, PartialOrd, Ord, Hash)]
pub struct BgpMdtV4 {
    /// network prefix
    pub addr: BgpAddrV4,
    /// mdt group
    pub group: Ipv4Addr,
}

impl BgpMdtV4 {
    /// Pairs a source prefix with a group address.
    pub fn new(addr: BgpAddrV4, group: Ipv4Addr) -> (r: BgpMdtV4)
        ensures
            r == (BgpMdtV4 { addr, group }),
    {
        BgpMdtV4 { addr, group }
    }

    /// What the decoder yields from a payload under a declared bit length.
    pub open spec fn dec(bits: int, s: Seq<u8>) -> Option<(BgpMdtV4, int)> {
        if bits < 32 || bits > 64 {
            None
        } else {
            match BgpAddrV4::dec(bits - 32, s) {
                None => None,
                Some((a, na)) => if s.len() < na + 4 {
                    None
                } else {
                    Some(
                        (
                            BgpMdtV4 {
                                addr: a,
                                group: Ipv4Addr {
                                    value: u32_of_bytes(s[na], s[na + 1], s[na + 2], s[na + 3]),
                                },
                            },
                            na + 4,
                        ),
                    )
                },
            }
        }
    }
}

impl BgpItem for BgpMdtV4 {
    open spec fn wf(&self) -> bool {
        self.addr.wf()
    }

    open spec fn enc_bits(&self) -> int {
        self.addr.prefixlen + 32
    }

    open spec fn enc_payload(&self) -> Seq<u8> {
        self.addr.payload() + u32_bytes(self.group.value)
    }

    open spec fn dec_ok(bits: int, s: Seq<u8>, v: BgpMdtV4, n: int) -> bool {
        BgpMdtV4::dec(bits, s) == Some((v, n))
    }

    open spec fn samev(a: BgpMdtV4, b: BgpMdtV4) -> bool {
        a == b
    }

    proof fn lemma_enc_bits_nonneg(&self) {
    }

    proof fn lemma_dec_bounds(bits: int, s: Seq<u8>, v: BgpMdtV4, n: int) {
        BgpAddrV4::lemma_dec_ok(bits - 32, s);
    }

    proof fn lemma_round_trip(&self, rest: Seq<u8>) {
        let ppay = self.addr.payload();
        let gb = u32_bytes(self.group.value);
        let s = self.enc_payload() + rest;
        let bits = self.enc_bits();
        assert(s =~= ppay + (gb + rest));
        self.addr.lemma_prefix_round_trip(gb + rest);
        BgpAddrV4::lemma_dec_ok(bits - 32, s);
        let na = ppay.len() as int;
        assert(BgpAddrV4::dec(bits - 32, s) == Some((self.addr, na)));
        assert(seq![s[na], s[na + 1], s[na + 2], s[na + 3]] =~= gb);
        lemma_u32_of_bytes_image(s[na], s[na + 1], s[na + 2], s[na + 3]);
        let g2 = u32_of_bytes(s[na], s[na + 1], s[na + 2], s[na + 3]);
        lemma_u32_bytes_inj(g2, self.group.value);
        assert(Self::dec_ok(bits, s, *self, na + 4));
    }

    proof fn lemma_dec_deterministic(
        bits: int,
        s: Seq<u8>,
        v1: BgpMdtV4,
        n1: int,
        v2: BgpMdtV4,
        n2: int,
    ) {
    }

    fn extract_bits_from(bits: u8, buf: &[u8]) -> (r: Result<(BgpMdtV4, usize), BgpError>) {
        if bits < 32 || bits > 64 {
            proof {
                assert(BgpMdtV4::dec(bits as int, buf@) is None);
            }
            return Err(BgpError::static_str("Invalid BgpMdtV4 FEC length"));
        }
        let (a, na) = match BgpAddrV4::from_bits(bits - 32, buf) {
            Ok(p) => p,
            Err(e) => {
                proof {
                    assert(BgpMdtV4::dec(bits as int, buf@) is None);
                }
                return Err(e);
            },
        };
        proof {
            BgpAddrV4::lemma_dec_ok(bits - 32, buf@);
        }
        if buf.len() - na < 4 {
            proof {
                assert(BgpMdtV4::dec(bits as int, buf@) is None);
            }
            return Err(BgpError::insufficient_buffer_size());
        }
        let value = getn_u32(slice_subrange(buf, na, na + 4));
        proof {
            let s = buf@;
            let nai = na as int;
            lemma_u32_of_bytes_image(s[nai], s[nai + 1], s[nai + 2], s[nai + 3]);
            assert(u32_bytes(value) =~= u32_bytes(
                u32_of_bytes(s[nai], s[nai + 1], s[nai + 2], s[nai + 3]),
            ));
            lemma_u32_bytes_inj(value, u32_of_bytes(s[nai], s[nai + 1], s[nai + 2], s[nai + 3]));
        }
        Ok((BgpMdtV4 { addr: a, group: Ipv4Addr { value } }, na + 4))
    }

    fn set_bits_to(&self, buf: &mut Vec<u8>) -> (r: Result<(u8, usize), BgpError>) {
        let (pbits, pn) = match self.addr.to_bits(buf) {
            Ok(p) => p,
            Err(e) => {
                return Err(e);
            },
        };
        push_u32(buf, self.group.value);
        proof {
            assert(final(buf)@ =~= old(buf)@ + self.enc_payload());
        }
        Ok((pbits + 32, pn + 4))
    }

    fn prefixlen(&self) -> (r: usize) {
        (self.addr.prefixlen as usize) + 32
    }
}

/// An IPv6 MDT NLRI: a source prefix and a fixed sixteen-octet group
/// address. The declared bit length covers the prefix and the 128 group
/// bits.
#[derive(Debug, Clone, Copy, PartialEq, Eq, Structural, PartialOrd, Ord, Hash)]
pub struct BgpMdtV6 {
    /// network prefix
    pub addr: BgpAddrV6,
    /// mdt group
    pub group: Ipv6Addr,
}

impl BgpMdtV6 {
    /// Pairs a source prefix with a group address.
    pub fn new(addr: BgpAddrV6, group: Ipv6Addr) -> (r: BgpMdtV6)
        ensures
            r == (BgpMdtV6 { addr, group }),
    {
        BgpMdtV6 { addr, group }
    }

    /// What the decoder yields from a payload under a declared bit length.
    pub open spec fn dec(bits: int, s: Seq<u8>) -> Option<(BgpMdtV6, int)> {
        if bits < 128 || bits > 255 {
            None
        } else {
            match BgpAddrV6::dec(bits - 128, s) {
                None => None,
                Some((a, na)) => if s.len() < na + 16 {
                    None
                } else {
                    Some(
                        (
                            BgpMdtV6 {
                                addr: a,
                                group: Ipv6Addr {
                                    value: crate::afi::ipv6::v6_of_padded(
                                        s.subrange(na, na + 16),
                                        16,
                                    ),
                                },
                            },
                            na + 16,
                        ),
                    )
                },
            }
        }
    }
}

impl BgpItem for BgpMdtV6 {
    open spec fn wf(&self) -> bool {
        self.addr.wf() && self.addr.prefixlen <= 127
    }

    open spec fn enc_bits(&self) -> int {
        self.addr.prefixlen + 128
    }

    open spec fn enc_payload(&self) -> Seq<u8> {
        self.addr.payload() + u128_bytes(self.group.value)
    }

    open spec fn dec_ok(bits: int, s: Seq<u8>, v: BgpMdtV6, n: int) -> bool {
        BgpMdtV6::dec(bits, s) == Some((v, n))
    }

    open spec fn samev(a: BgpMdtV6, b: BgpMdtV6) -> bool {
        a == b
    }

    proof fn lemma_enc_bits_nonneg(&self) {
    }

    proof fn lemma_dec_bounds(bits: int, s: Seq<u8>, v: BgpMdtV6, n: int) {
        BgpAddrV6::lemma_dec_ok(bits - 128, s);
    }

    proof fn lemma_round_trip(&self, rest: Seq<u8>) {
        let ppay = self.addr.payload();
        let gb = u128_bytes(self.group.value);
        let s = self.enc_payload() + rest;
        let bits = self.enc_bits();
        assert(s =~= ppay + (gb + rest));
        self.addr.lemma_prefix_round_trip(gb + rest);
        BgpAddrV6::lemma_dec_ok(bits - 128, s);
        let na = ppay.len() as int;
        assert(BgpAddrV6::dec(bits - 128, s) == Some((self.addr, na)));
        let gwin = s.subrange(na, na + 16);
        assert(gwin =~= gb);
        crate::afi::ipv6::lemma_v6_of_padded_image(gwin, 16);
        let g2 = crate::afi::ipv6::v6_of_padded(gwin, 16);
        assert(u128_bytes(g2) =~= u128_bytes(self.group.value));
        lemma_u128_bytes_inj(g2, self.group.value);
        assert(Self::dec_ok(bits, s, *self, na + 16));
    }

    proof fn lemma_dec_deterministic(
        bits: int,
        s: Seq<u8>,
        v1: BgpMdtV6,
        n1: int,
        v2: BgpMdtV6,
        n2: int,
    ) {
    }

    fn extract_bits_from(bits: u8, buf: &[u8]) -> (r: Result<(BgpMdtV6, usize), BgpError>) {
        if bits < 128 {
            proof {
                assert(BgpMdtV6::dec(bits as int, buf@) is None);
            }
            return Err(BgpError::static_str("Invalid BgpMdtV6 FEC length"));
        }
        let (a, na) = match BgpAddrV6::from_bits(bits - 128, buf) {
            Ok(p) => p,
            Err(e) => {
                proof {
                    assert(BgpMdtV6::dec(bits as int, buf@) is None);
                }
                return Err(e);
            },
        };
        proof {
            BgpAddrV6::lemma_dec_ok(bits - 128, buf@);
        }
        if buf.len() - na < 16 {
            proof {
                assert(BgpMdtV6::dec(bits as int, buf@) is None);
            }
            return Err(BgpError::insufficient_buffer_size());
        }
        let value = getn_u128(slice_subrange(buf, na, na + 16));
        proof {
            let gwin = buf@.subrange(na as int, na + 16);
            crate::afi::ipv6::lemma_v6_of_padded_image(gwin, 16);
            assert(u128_bytes(value) =~= u128_bytes(crate::afi::ipv6::v6_of_padded(gwin, 16)));
            lemma_u128_bytes_inj(value, crate::afi::ipv6::v6_of_padded(gwin, 16));
        }
        Ok((BgpMdtV6 { addr: a, group: Ipv6Addr { value } }, na + 16))
    }

    fn set_bits_to(&self, buf: &mut Vec<u8>) -> (r: Result<(u8, usize), BgpError>) {
        let (pbits, pn) = match self.addr.to_bits(buf) {
            Ok(p) => p,
            Err(e) => {
                return Err(e);
            },
        };
        push_u128(buf, self.group.value);
        proof {
            assert(final(buf)@ =~= old(buf)@ + self.enc_payload());
        }
        Ok((pbits + 128, pn + 16))
    }

    fn prefixlen(&self) -> (r: usize) {
        (self.addr.prefixlen as usize) + 128
    }
}

} // verus!
