//! MAC addresses and MAC prefixes, used by EVPN.

use crate::error::BgpError;
use crate::util::u64_bytes;
use vstd::prelude::*;

verus! {

/// The mask of the 48 bits a MAC address occupies.
pub open spec fn mac_mask() -> u64 {
    0xffffffffffff
}

/// A six-octet Ethernet MAC address held as a 48-bit value
/// (`aa:bb:cc:dd:ee:ff` is `0xaabbccddeeff`).
#[derive(Debug, Clone, Copy, PartialEq, Eq, Structural, PartialOrd, Ord, Hash)]
pub struct MacAddress {
    pub value: u64,
}

/// Wire image of a MAC address: the six low-order bytes, high first.
pub open spec fn mac_bytes(m: MacAddress) -> Seq<u8> {
    u64_bytes(m.value).skip(2)
}

impl MacAddress {
    /// The value fits in 48 bits.
    pub open spec fn wf(self) -> bool {
        self.value <= 0xffffffffffff
    }

    /// Builds the all-zero MAC address.
    pub fn new() -> (r: MacAddress)
        ensures
            r.value == 0,
    {
        MacAddress { value: 0 }
    }

    /// Reads a MAC address from six bytes in wire order.
    pub fn from_network_bytes(b: &[u8]) -> (r: Result<MacAddress, BgpError>)
        ensures
            b@.len() >= 6 ==> (r matches Ok(m) && m.wf() && mac_bytes(m) == b@.subrange(0, 6)),
            b@.len() < 6 ==> r is Err,
    {
        if b.len() < 6 {
            return Err(BgpError::insufficient_buffer_size());
        }
        let v: u64 = ((b[0] as u64) << 40) | ((b[1] as u64) << 32) | ((b[2] as u64) << 24) | ((
        b[3] as u64) << 16) | ((b[4] as u64) << 8) | (b[5] as u64);
        proof {
            let b0 = b@[0];
            let b1 = b@[1];
            let b2 = b@[2];
            let b3 = b@[3];
            let b4 = b@[4];
            let b5 = b@[5];
            assert(v <= 0xffffffffffff && ((v >> 40) & 0xff) as u8 == b0 && ((v >> 32)
                & 0xff) as u8 == b1 && ((v >> 24) & 0xff) as u8 == b2 && ((v >> 16)
                & 0xff) as u8 == b3 && ((v >> 8) & 0xff) as u8 == b4 && (v & 0xff) as u8 == b5 && ((
            v >> 56) & 0xff) as u8 == 0 && ((v >> 48) & 0xff) as u8 == 0) by (bit_vector)
                requires
                    v == ((b0 as u64) << 40) | ((b1 as u64) << 32) | ((b2 as u64) << 24) | ((
                    b3 as u64) << 16) | ((b4 as u64) << 8) | (b5 as u64),
            ;
            assert(mac_bytes(MacAddress { value: v }) =~= b@.subrange(0, 6));
        }
        Ok(MacAddress { value: v })
    }

    /// Appends the six wire-order bytes of the MAC address.
    pub fn write_to_network_bytes(&self, b: &mut Vec<u8>)
        ensures
            final(b)@ == old(b)@ + mac_bytes(*self),
    {
        let v = self.value;
        b.push(((v >> 40) & 0xff) as u8);
        b.push(((v >> 32) & 0xff) as u8);
        b.push(((v >> 24) & 0xff) as u8);
        b.push(((v >> 16) & 0xff) as u8);
        b.push(((v >> 8) & 0xff) as u8);
        b.push((v & 0xff) as u8);
        proof {
            assert(final(b)@ =~= old(b)@ + mac_bytes(*self));
        }
    }

    /// Builds a MAC address from the low 48 bits of a 64-bit value.
    pub fn from_u64(s: u64) -> (r: MacAddress)
        ensures
            r.value == s & 0xffffffffffff,
            r.wf(),
    {
        proof {
            assert(s & 0xffffffffffff <= 0xffffffffffff) by (bit_vector);
        }
        MacAddress { value: s & 0xffffffffffff }
    }

    /// The 48-bit value of the MAC address.
    pub fn to_u64(&self) -> (r: u64)
        ensures
            r == self.value,
    {
        self.value
    }
}

/// A MAC prefix: a MAC address and a prefix length of at most 48.
#[derive(Debug, Clone, Copy, PartialEq, Eq, Structural, PartialOrd, Ord, Hash)]
pub struct BgpAddrMac {
    /// mac prefix
    pub addr: MacAddress,
    /// prefix length, 0 to 48
    pub prefixlen: u8,
}

/// The network part of a MAC prefix: the address with its host bits
/// cleared.
pub open spec fn mac_host_mask(plen: u8) -> u64
    recommends
        1 <= plen <= 47,
{
    (((1u64 << ((48 - plen) as u64)) - 1) as u64)
}

/// The network part of a MAC prefix: the address with its host bits
/// cleared.
pub open spec fn mac_net(value: u64, plen: u8) -> u64
    recommends
        1 <= plen <= 47,
{
    value & (mac_host_mask(plen) ^ 0xffffffffffff)
}

/// The last host value under a MAC prefix (48-bit wraparound aside).
pub open spec fn mac_net_last(value: u64, plen: u8) -> u64
    recommends
        1 <= plen <= 47,
{
    ((mac_net(value, plen) + mac_host_mask(plen)) as u64)
}

/// The network and last addresses of a proper MAC prefix stay within the
/// 48-bit range.
pub proof fn lemma_mac_net_bounds(value: u64, plen: u8)
    by (bit_vector)
    requires
        1 <= plen <= 47,
    ensures
        mac_net(value, plen) <= value,
        value <= 0xffffffffffff ==> mac_net(value, plen) + mac_host_mask(plen) <= 0xffffffffffff,
        mac_net(value, plen) + mac_host_mask(plen) <= 0xffffffffffffffff,
        1u64 << ((48 - plen) as u64) >= 1,
{
}

/// The first address of the range a prefix covers.
pub open spec fn spec_range_first(p: BgpAddrMac) -> u64 {
    if p.prefixlen == 0 {
        0
    } else if p.prefixlen > 47 {
        p.addr.value
    } else {
        mac_net(p.addr.value, p.prefixlen)
    }
}

/// The last address of the range a prefix covers.
pub open spec fn spec_range_last(p: BgpAddrMac) -> u64 {
    if p.prefixlen == 0 {
        0xffffffffffffu64
    } else if p.prefixlen > 47 {
        p.addr.value
    } else {
        mac_net_last(p.addr.value, p.prefixlen)
    }
}

impl BgpAddrMac {
    /// Builds a MAC prefix from an address and a length.
    pub fn new(address: MacAddress, prefix_len: u8) -> (r: BgpAddrMac)
        ensures
            r == (BgpAddrMac { addr: address, prefixlen: prefix_len }),
    {
        BgpAddrMac { addr: address, prefixlen: prefix_len }
    }

    fn norm_subnet_u48(&self) -> (r: u64)
        requires
            1 <= self.prefixlen <= 47,
        ensures
            r == mac_net(self.addr.value, self.prefixlen),
    {
        let sh: u64 = 48 - (self.prefixlen as u64);
        proof {
            lemma_mac_net_bounds(self.addr.value, self.prefixlen);
        }
        self.addr.value & (((1u64 << sh) - 1) ^ 0xffffffffffff)
    }

    /// True when the given address lies under this prefix. A zero-length
    /// prefix holds every address; a full-length prefix only its own.
    pub fn in_subnet(&self, a: &MacAddress) -> (r: bool)
        requires
            self.prefixlen <= 48,
        ensures
            self.prefixlen == 0 ==> r,
            self.prefixlen > 47 ==> (r <==> self.addr.value == a.value),
            1 <= self.prefixlen <= 47 ==> (r <==> mac_net(self.addr.value, self.prefixlen)
                <= a.value <= mac_net_last(self.addr.value, self.prefixlen)),
    {
        if self.prefixlen == 0 {
            true
        } else if self.prefixlen > 47 {
            self.addr.value == a.value
        } else {
            let lv = self.norm_subnet_u48();
            let sh: u64 = 48 - (self.prefixlen as u64);
            proof {
                lemma_mac_net_bounds(self.addr.value, self.prefixlen);
            }
            let lh = lv + ((1u64 << sh) - 1);
            let va = a.to_u64();
            (va >= lv) && (va <= lh)
        }
    }

    /// The first (network) address under this prefix.
    pub fn range_first(&self) -> (r: MacAddress)
        requires
            self.prefixlen <= 48,
        ensures
            self.prefixlen == 0 ==> r.value == 0,
            self.prefixlen > 47 ==> r.value == self.addr.value,
            1 <= self.prefixlen <= 47 ==> r.value == mac_net(self.addr.value, self.prefixlen),
    {
        if self.prefixlen == 0 {
            MacAddress { value: 0 }
        } else if self.prefixlen > 47 {
            MacAddress { value: self.addr.value }
        } else {
            MacAddress { value: self.norm_subnet_u48() }
        }
    }

    /// The last address under this prefix.
    pub fn range_last(&self) -> (r: MacAddress)
        requires
            self.prefixlen <= 48,
        ensures
            self.prefixlen == 0 ==> r.value == 0xffffffffffff,
            self.prefixlen > 47 ==> r.value == self.addr.value,
            1 <= self.prefixlen <= 47 ==> r.value == mac_net_last(self.addr.value, self.prefixlen),
    {
        if self.prefixlen < 1 {
            MacAddress { value: 0xffffffffffff }
        } else if self.prefixlen > 47 {
            self.range_first()
        } else {
            let lv = self.norm_subnet_u48();
            let sh: u64 = 48 - (self.prefixlen as u64);
            proof {
                lemma_mac_net_bounds(self.addr.value, self.prefixlen);
            }
            MacAddress { value: lv + ((1u64 << sh) - 1) }
        }
    }

    /// True when every address under `a` also lies under this prefix: on a
    /// longer prefix it holds exactly when the whole range of `a` lies
    /// inside the range of this prefix.
    pub fn contains(&self, a: &BgpAddrMac) -> (r: bool)
        requires
            self.prefixlen <= 48,
            a.prefixlen <= 48,
        ensures
            self.prefixlen == 0 ==> r,
            self.prefixlen > a.prefixlen ==> !r,
            1 <= self.prefixlen && self.prefixlen == a.prefixlen ==> (r <==> self.addr.value
                == a.addr.value),
            1 <= self.prefixlen && self.prefixlen < a.prefixlen ==> (r <==> (mac_net(
                self.addr.value,
                self.prefixlen,
            ) <= spec_range_first(*a) <= mac_net_last(self.addr.value, self.prefixlen)) && (mac_net(
                self.addr.value,
                self.prefixlen,
            ) <= spec_range_last(*a) <= mac_net_last(self.addr.value, self.prefixlen))),
    {
        if self.prefixlen < 1 {
            true
        } else if self.prefixlen > a.prefixlen {
            false
        } else if self.prefixlen == a.prefixlen {
            self.addr.value == a.addr.value
        } else {
            let first = a.range_first();
            let last = a.range_last();
            self.in_subnet(&first) && self.in_subnet(&last)
        }
    }
}

} // verus!
