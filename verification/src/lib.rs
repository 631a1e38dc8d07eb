//! Codecs for the two wire protocols of inter-domain routing exchange:
//! BGP-4 (the speaker-to-speaker session protocol) and BMP v3 (the
//! monitoring stream a router emits towards a collector).
//!
//! The library is buffer-in/buffer-out and performs no I/O itself: decoders
//! take byte slices and report how many bytes they consumed, encoders append
//! to byte vectors. The negotiated session parameters decide how the byte
//! stream is interpreted after the OPEN exchange.

pub mod afi;
pub mod bmp;
pub mod error;
pub mod message;
pub mod util;

use error::BgpError;
use message::{msgtype_code, BgpMessageType};
use util::{getn_u16, getn_u32, push_u16, push_u32, u16_bytes, u32_bytes, Ipv4Addr};
use vstd::prelude::*;

verus! {

/// BGP session transport: IPv4 or IPv6.
#[derive(Debug, Clone, Copy, PartialEq, Eq, Structural)]
pub enum BgpTransportMode {
    IPv4,
    IPv6,
}

// ---------------------------------------------------------------------------
// Capabilities
// ---------------------------------------------------------------------------

/// One per-family entry of the graceful-restart capability.
#[derive(Debug, Clone, Copy, PartialEq, Eq, Structural, PartialOrd, Ord, Hash)]
pub struct BgpCapGR {
    pub afi: u16,
    pub safi: u8,
    pub forwarding_state: bool,
}

/// Wire image of one graceful-restart entry.
pub open spec fn cap_gr_bytes(c: BgpCapGR) -> Seq<u8> {
    u16_bytes(c.afi) + seq![
        c.safi,
        if c.forwarding_state {
            128u8
        } else {
            0u8
        },
    ]
}

/// One per-family entry of the ADD-PATH capability.
#[derive(Debug, Clone, Copy, PartialEq, Eq, Structural, PartialOrd, Ord, Hash)]
pub struct BgpCapAddPath {
    pub afi: u16,
    pub safi: u8,
    pub send: bool,
    pub receive: bool,
}

/// Wire image of one ADD-PATH entry: receive in bit 0, send in bit 1.
pub open spec fn cap_addpath_bytes(c: BgpCapAddPath) -> Seq<u8> {
    u16_bytes(c.afi) + seq![
        c.safi,
        ((if c.receive {
            1u8
        } else {
            0u8
        }) + (if c.send {
            2u8
        } else {
            0u8
        })) as u8,
    ]
}

/// One per-family entry of the long-lived graceful-restart capability.
#[derive(Debug, Clone, Copy, PartialEq, Eq, Structural, PartialOrd, Ord, Hash)]
pub struct BgpCapLLGR {
    pub afi: u16,
    pub safi: u8,
    pub flags: u8,
    pub stale_time: u32,
}

/// Wire image of one long-lived graceful-restart entry: the stale time
/// takes the low 24 bits.
pub open spec fn cap_llgr_bytes(c: BgpCapLLGR) -> Seq<u8> {
    u16_bytes(c.afi) + seq![
        c.safi,
        c.flags,
        ((c.stale_time >> 16) & 0xff) as u8,
        ((c.stale_time >> 8) & 0xff) as u8,
        (c.stale_time & 0xff) as u8,
    ]
}

/// The AFI/SAFI pair a base multi-protocol capability stands for.
pub open spec fn spec_afisafi_of(cap: BgpCapability) -> Option<(u16, u8)> {
    match cap {
        BgpCapability::SafiIPv4u => Some((1u16, 1u8)),
        BgpCapability::SafiIPv4m => Some((1u16, 2u8)),
        BgpCapability::SafiIPv4mvpn => Some((1u16, 5u8)),
        BgpCapability::SafiIPv4mdt => Some((1u16, 66u8)),
        BgpCapability::SafiVPNv4u => Some((1u16, 128u8)),
        BgpCapability::SafiVPNv4m => Some((1u16, 129u8)),
        BgpCapability::SafiIPv4lu => Some((1u16, 4u8)),
        BgpCapability::SafiIPv6u => Some((2u16, 1u8)),
        BgpCapability::SafiIPv6lu => Some((2u16, 4u8)),
        BgpCapability::SafiIPv6mdt => Some((2u16, 66u8)),
        BgpCapability::SafiVPNv6u => Some((2u16, 128u8)),
        BgpCapability::SafiVPNv6m => Some((2u16, 129u8)),
        BgpCapability::SafiVPLS => Some((25u16, 65u8)),
        BgpCapability::SafiEVPN => Some((25u16, 70u8)),
        _ => None,
    }
}

/// Maps a base multi-protocol capability to its AFI/SAFI pair; other
/// capabilities are rejected.
pub fn afisafi_from_cap(cap: &BgpCapability) -> (r: Result<(u16, u8), BgpError>)
    ensures
        spec_afisafi_of(*cap) matches Some(p) ==> (r matches Ok(q) && q == p),
        spec_afisafi_of(*cap) is None ==> r is Err,
{
    let p = match cap {
        BgpCapability::SafiIPv4u => (1u16, 1u8),
        BgpCapability::SafiIPv4m => (1u16, 2u8),
        BgpCapability::SafiIPv4mvpn => (1u16, 5u8),
        BgpCapability::SafiIPv4mdt => (1u16, 66u8),
        BgpCapability::SafiVPNv4u => (1u16, 128u8),
        BgpCapability::SafiVPNv4m => (1u16, 129u8),
        BgpCapability::SafiIPv4lu => (1u16, 4u8),
        BgpCapability::SafiIPv6u => (2u16, 1u8),
        BgpCapability::SafiIPv6lu => (2u16, 4u8),
        BgpCapability::SafiIPv6mdt => (2u16, 66u8),
        BgpCapability::SafiVPNv6u => (2u16, 128u8),
        BgpCapability::SafiVPNv6m => (2u16, 129u8),
        BgpCapability::SafiVPLS => (25u16, 65u8),
        BgpCapability::SafiEVPN => (25u16, 70u8),
        _ => {
            return Err(BgpError::static_str("Invalid base capability"));
        },
    };
    Ok(p)
}

impl BgpCapGR {
    /// Builds a graceful-restart entry from a base capability.
    pub fn new_from_cap(base_safi: &BgpCapability, forwarding_state: bool) -> (r: Result<
        BgpCapGR,
        BgpError,
    >)
        ensures
            spec_afisafi_of(*base_safi) matches Some(p) ==> (r matches Ok(c) && c.afi == p.0
                && c.safi == p.1 && c.forwarding_state == forwarding_state),
            spec_afisafi_of(*base_safi) is None ==> r is Err,
    {
        let (afi, safi) = match afisafi_from_cap(base_safi) {
            Ok(p) => p,
            Err(e) => {
                return Err(e);
            },
        };
        Ok(BgpCapGR { afi, safi, forwarding_state })
    }

    /// Appends the four-byte image of the entry.
    pub fn encode_to(&self, buf: &mut Vec<u8>) -> (r: Result<(), BgpError>)
        ensures
            r is Ok,
            final(buf)@ == old(buf)@ + cap_gr_bytes(*self),
    {
        push_u16(buf, self.afi);
        buf.push(self.safi);
        if self.forwarding_state {
            buf.push(128);
        } else {
            buf.push(0);
        }
        proof {
            assert(final(buf)@ =~= old(buf)@ + cap_gr_bytes(*self));
        }
        Ok(())
    }

    /// Reads one entry from four bytes.
    pub fn decode_from(buf: &[u8]) -> (r: Result<BgpCapGR, BgpError>)
        ensures
            buf@.len() >= 4 ==> (r matches Ok(c) && u16_bytes(c.afi) == buf@.subrange(0, 2)
                && c.safi == buf@[2] && (c.forwarding_state <==> buf@[3] & 128 != 0)),
            buf@.len() < 4 ==> r is Err,
    {
        if buf.len() < 4 {
            return Err(BgpError::insufficient_buffer_size());
        }
        Ok(
            BgpCapGR {
                afi: getn_u16(buf),
                safi: buf[2],
                forwarding_state: buf[3] & 128 != 0,
            },
        )
    }
}

impl BgpCapLLGR {
    /// Builds a long-lived graceful-restart entry from a base capability;
    /// the stale time must fit in 24 bits.
    pub fn new_from_cap(base_safi: &BgpCapability, flags: u8, stale_time: u32) -> (r: Result<
        BgpCapLLGR,
        BgpError,
    >)
        ensures
            r matches Ok(c) ==> spec_afisafi_of(*base_safi) matches Some(p) && c.afi == p.0
                && c.safi == p.1 && c.flags == flags && c.stale_time == stale_time && stale_time
                < 0x1000000,
            spec_afisafi_of(*base_safi) is Some && stale_time < 0x1000000 ==> r is Ok,
            spec_afisafi_of(*base_safi) is None || stale_time >= 0x1000000 ==> r is Err,
    {
        let (afi, safi) = match afisafi_from_cap(base_safi) {
            Ok(p) => p,
            Err(e) => {
                return Err(e);
            },
        };
        if stale_time >= 0x1000000 {
            return Err(BgpError::static_str("stale_time must fit into 24 bits"));
        }
        Ok(BgpCapLLGR { afi, safi, flags, stale_time })
    }

    /// Appends the seven-byte image of the entry; the stale time must fit
    /// in 24 bits.
    pub fn encode_to(&self, buf: &mut Vec<u8>) -> (r: Result<(), BgpError>)
        ensures
            self.stale_time < 0x1000000 ==> r is Ok && final(buf)@ == old(buf)@ + cap_llgr_bytes(
                *self,
            ),
            self.stale_time >= 0x1000000 ==> r is Err && final(buf)@ == old(buf)@,
    {
        if self.stale_time >= 0x1000000 {
            return Err(BgpError::static_str("stale_time must fit into 24 bits"));
        }
        push_u16(buf, self.afi);
        buf.push(self.safi);
        buf.push(self.flags);
        buf.push(((self.stale_time >> 16) & 0xff) as u8);
        buf.push(((self.stale_time >> 8) & 0xff) as u8);
        buf.push((self.stale_time & 0xff) as u8);
        proof {
            assert(final(buf)@ =~= old(buf)@ + cap_llgr_bytes(*self));
        }
        Ok(())
    }

    /// Reads one entry from seven bytes; the stale time comes back below
    /// two to the twenty-fourth.
    pub fn decode_from(buf: &[u8]) -> (r: Result<BgpCapLLGR, BgpError>)
        ensures
            buf@.len() >= 7 ==> (r matches Ok(c) && u16_bytes(c.afi) == buf@.subrange(0, 2)
                && c.safi == buf@[2] && c.flags == buf@[3] && c.stale_time < 0x1000000
                && c.stale_time as int == (buf@[4] as int) * 0x10000 + (buf@[5] as int) * 0x100
                + (buf@[6] as int)),
            buf@.len() < 7 ==> r is Err,
    {
        if buf.len() < 7 {
            return Err(BgpError::insufficient_buffer_size());
        }
        let stale: u32 = ((buf[4] as u32) << 16) | ((buf[5] as u32) << 8) | (buf[6] as u32);
        proof {
            let b4 = buf@[4];
            let b5 = buf@[5];
            let b6 = buf@[6];
            assert((((b4 as u32) << 16) | ((b5 as u32) << 8) | (b6 as u32)) < 0x1000000 && (((
            b4 as u32) << 16) | ((b5 as u32) << 8) | (b6 as u32)) == (b4 as u32) * 0x10000 + (
            b5 as u32) * 0x100 + (b6 as u32)) by (bit_vector);
        }
        Ok(BgpCapLLGR { afi: getn_u16(buf), safi: buf[2], flags: buf[3], stale_time: stale })
    }
}

impl BgpCapAddPath {
    /// The answering entry: send and receive swapped.
    pub fn response(src: &BgpCapAddPath) -> (r: BgpCapAddPath)
        ensures
            r.afi == src.afi,
            r.safi == src.safi,
            r.send == src.receive,
            r.receive == src.send,
    {
        BgpCapAddPath { afi: src.afi, safi: src.safi, send: src.receive, receive: src.send }
    }

    /// Builds an ADD-PATH entry from a base capability.
    pub fn new_from_cap(base_safi: &BgpCapability, send: bool, receive: bool) -> (r: Result<
        BgpCapAddPath,
        BgpError,
    >)
        ensures
            spec_afisafi_of(*base_safi) matches Some(p) ==> (r matches Ok(c) && c.afi == p.0
                && c.safi == p.1 && c.send == send && c.receive == receive),
            spec_afisafi_of(*base_safi) is None ==> r is Err,
    {
        let (afi, safi) = match afisafi_from_cap(base_safi) {
            Ok(p) => p,
            Err(e) => {
                return Err(e);
            },
        };
        Ok(BgpCapAddPath { afi, safi, send, receive })
    }

    /// Appends the four-byte image of the entry.
    pub fn encode_to(&self, buf: &mut Vec<u8>) -> (r: Result<(), BgpError>)
        ensures
            r is Ok,
            final(buf)@ == old(buf)@ + cap_addpath_bytes(*self),
    {
        push_u16(buf, self.afi);
        buf.push(self.safi);
        let fl: u8 = (if self.receive {
            1u8
        } else {
            0u8
        }) + (if self.send {
            2u8
        } else {
            0u8
        });
        buf.push(fl);
        proof {
            assert(final(buf)@ =~= old(buf)@ + cap_addpath_bytes(*self));
        }
        Ok(())
    }

    /// Reads one entry from four bytes: receive from bit 0, send from bit 1.
    pub fn decode_from(buf: &[u8]) -> (r: Result<BgpCapAddPath, BgpError>)
        ensures
            buf@.len() >= 4 ==> (r matches Ok(c) && u16_bytes(c.afi) == buf@.subrange(0, 2)
                && c.safi == buf@[2] && (c.send <==> buf@[3] & 2 != 0) && (c.receive <==> buf@[3]
                & 1 != 0)),
            buf@.len() < 4 ==> r is Err,
    {
        if buf.len() < 4 {
            return Err(BgpError::insufficient_buffer_size());
        }
        Ok(
            BgpCapAddPath {
                afi: getn_u16(buf),
                safi: buf[2],
                send: (buf[3] & 2) > 0,
                receive: (buf[3] & 1) > 0,
            },
        )
    }
}

/// A capability advertised inside the OPEN message.
#[derive(Debug, Clone)]
pub enum BgpCapability {
    /// multi-protocol: IPv4 unicast
    SafiIPv4u,
    /// multi-protocol: IPv4 multicast
    SafiIPv4m,
    /// multi-protocol: IPv4 multicast VPN
    SafiIPv4mvpn,
    /// multi-protocol: IPv4 FlowSpec
    SafiIPv4fu,
    /// multi-protocol: VPNv4 unicast
    SafiVPNv4u,
    /// multi-protocol: VPNv4 FlowSpec
    SafiVPNv4fu,
    /// multi-protocol: VPNv4 multicast
    SafiVPNv4m,
    /// multi-protocol: IPv4 labeled unicast
    SafiIPv4lu,
    /// multi-protocol: IPv4 MDT
    SafiIPv4mdt,
    /// multi-protocol: IPv6 unicast
    SafiIPv6u,
    /// multi-protocol: IPv6 labeled unicast
    SafiIPv6lu,
    /// multi-protocol: IPv6 FlowSpec
    SafiIPv6fu,
    /// multi-protocol: VPNv6 unicast
    SafiVPNv6u,
    /// multi-protocol: VPNv6 multicast
    SafiVPNv6m,
    /// multi-protocol: IPv6 MDT
    SafiIPv6mdt,
    /// multi-protocol: VPLS
    SafiVPLS,
    /// multi-protocol: EVPN
    SafiEVPN,
    /// graceful restart: a 12-bit restart time, a restart-state bit, and
    /// per-family entries
    CapGR { restart_time: u16, restart_state: bool, afis: Vec<BgpCapGR> },
    /// four-octet AS numbers, carrying the AS
    CapASN32(u32),
    /// route refresh
    CapRR,
    /// ADD-PATH, with per-family send/receive entries
    CapAddPath(Vec<BgpCapAddPath>),
    /// enhanced route refresh
    CapEnhancedRR,
    /// long-lived graceful restart
    CapLLGR(Vec<BgpCapLLGR>),
    /// speaker hostname and domain, both as raw bytes
    CapFQDN(Vec<u8>, Vec<u8>),
    /// BFD strict mode
    CapBFD,
}

/// Structural equality of capabilities, comparing list contents.
pub open spec fn cap_eq(a: BgpCapability, b: BgpCapability) -> bool {
    match (a, b) {
        (BgpCapability::SafiIPv4u, BgpCapability::SafiIPv4u) => true,
        (BgpCapability::SafiIPv4m, BgpCapability::SafiIPv4m) => true,
        (BgpCapability::SafiIPv4mvpn, BgpCapability::SafiIPv4mvpn) => true,
        (BgpCapability::SafiIPv4fu, BgpCapability::SafiIPv4fu) => true,
        (BgpCapability::SafiVPNv4u, BgpCapability::SafiVPNv4u) => true,
        (BgpCapability::SafiVPNv4fu, BgpCapability::SafiVPNv4fu) => true,
        (BgpCapability::SafiVPNv4m, BgpCapability::SafiVPNv4m) => true,
        (BgpCapability::SafiIPv4lu, BgpCapability::SafiIPv4lu) => true,
        (BgpCapability::SafiIPv4mdt, BgpCapability::SafiIPv4mdt) => true,
        (BgpCapability::SafiIPv6u, BgpCapability::SafiIPv6u) => true,
        (BgpCapability::SafiIPv6lu, BgpCapability::SafiIPv6lu) => true,
        (BgpCapability::SafiIPv6fu, BgpCapability::SafiIPv6fu) => true,
        (BgpCapability::SafiVPNv6u, BgpCapability::SafiVPNv6u) => true,
        (BgpCapability::SafiVPNv6m, BgpCapability::SafiVPNv6m) => true,
        (BgpCapability::SafiIPv6mdt, BgpCapability::SafiIPv6mdt) => true,
        (BgpCapability::SafiVPLS, BgpCapability::SafiVPLS) => true,
        (BgpCapability::SafiEVPN, BgpCapability::SafiEVPN) => true,
        (
            BgpCapability::CapGR { restart_time: t1, restart_state: s1, afis: a1 },
            BgpCapability::CapGR { restart_time: t2, restart_state: s2, afis: a2 },
        ) => t1 == t2 && s1 == s2 && a1@ == a2@,
        (BgpCapability::CapASN32(x), BgpCapability::CapASN32(y)) => x == y,
        (BgpCapability::CapRR, BgpCapability::CapRR) => true,
        (BgpCapability::CapAddPath(v1), BgpCapability::CapAddPath(v2)) => v1@ == v2@,
        (BgpCapability::CapEnhancedRR, BgpCapability::CapEnhancedRR) => true,
        (BgpCapability::CapLLGR(v1), BgpCapability::CapLLGR(v2)) => v1@ == v2@,
        (BgpCapability::CapFQDN(h1, d1), BgpCapability::CapFQDN(h2, d2)) => h1@ == h2@ && d1@
            == d2@,
        (BgpCapability::CapBFD, BgpCapability::CapBFD) => true,
        _ => false,
    }
}

/// Compares two vectors of graceful-restart entries by contents.
fn gr_vec_eq(a: &Vec<BgpCapGR>, b: &Vec<BgpCapGR>) -> (r: bool)
    ensures
        r <==> a@ =~= b@,
{
    if a.len() != b.len() {
        return false;
    }
    let mut i: usize = 0;
    while i < a.len()
        invariant
            a@.len() == b@.len(),
            i <= a@.len(),
            forall|k: int| 0 <= k < i ==> a@[k] == b@[k],
        decreases a@.len() - i,
    {
        if !(a[i] == b[i]) {
            return false;
        }
        i = i + 1;
    }
    proof {
        assert(a@ =~= b@);
    }
    true
}

/// Compares two vectors of ADD-PATH entries by contents.
fn addpath_vec_eq(a: &Vec<BgpCapAddPath>, b: &Vec<BgpCapAddPath>) -> (r: bool)
    ensures
        r <==> a@ =~= b@,
{
    if a.len() != b.len() {
        return false;
    }
    let mut i: usize = 0;
    while i < a.len()
        invariant
            a@.len() == b@.len(),
            i <= a@.len(),
            forall|k: int| 0 <= k < i ==> a@[k] == b@[k],
        decreases a@.len() - i,
    {
        if !(a[i] == b[i]) {
            return false;
        }
        i = i + 1;
    }
    proof {
        assert(a@ =~= b@);
    }
    true
}

/// Compares two vectors of long-lived graceful-restart entries by contents.
fn llgr_vec_eq(a: &Vec<BgpCapLLGR>, b: &Vec<BgpCapLLGR>) -> (r: bool)
    ensures
        r <==> a@ =~= b@,
{
    if a.len() != b.len() {
        return false;
    }
    let mut i: usize = 0;
    while i < a.len()
        invariant
            a@.len() == b@.len(),
            i <= a@.len(),
            forall|k: int| 0 <= k < i ==> a@[k] == b@[k],
        decreases a@.len() - i,
    {
        if !(a[i] == b[i]) {
            return false;
        }
        i = i + 1;
    }
    proof {
        assert(a@ =~= b@);
    }
    true
}

/// Compares two byte vectors by contents.
pub fn bytes_vec_eq(a: &Vec<u8>, b: &Vec<u8>) -> (r: bool)
    ensures
        r <==> a@ =~= b@,
{
    if a.len() != b.len() {
        return false;
    }
    let mut i: usize = 0;
    while i < a.len()
        invariant
            a@.len() == b@.len(),
            i <= a@.len(),
            forall|k: int| 0 <= k < i ==> a@[k] == b@[k],
        decreases a@.len() - i,
    {
        if a[i] != b[i] {
            return false;
        }
        i = i + 1;
    }
    proof {
        assert(a@ =~= b@);
    }
    true
}

/// Decides structural capability equality.
fn cap_same(a: &BgpCapability, b: &BgpCapability) -> (r: bool)
    ensures
        r == cap_eq(*a, *b),
{
    match (a, b) {
        (BgpCapability::SafiIPv4u, BgpCapability::SafiIPv4u) => true,
        (BgpCapability::SafiIPv4m, BgpCapability::SafiIPv4m) => true,
        (BgpCapability::SafiIPv4mvpn, BgpCapability::SafiIPv4mvpn) => true,
        (BgpCapability::SafiIPv4fu, BgpCapability::SafiIPv4fu) => true,
        (BgpCapability::SafiVPNv4u, BgpCapability::SafiVPNv4u) => true,
        (BgpCapability::SafiVPNv4fu, BgpCapability::SafiVPNv4fu) => true,
        (BgpCapability::SafiVPNv4m, BgpCapability::SafiVPNv4m) => true,
        (BgpCapability::SafiIPv4lu, BgpCapability::SafiIPv4lu) => true,
        (BgpCapability::SafiIPv4mdt, BgpCapability::SafiIPv4mdt) => true,
        (BgpCapability::SafiIPv6u, BgpCapability::SafiIPv6u) => true,
        (BgpCapability::SafiIPv6lu, BgpCapability::SafiIPv6lu) => true,
        (BgpCapability::SafiIPv6fu, BgpCapability::SafiIPv6fu) => true,
        (BgpCapability::SafiVPNv6u, BgpCapability::SafiVPNv6u) => true,
        (BgpCapability::SafiVPNv6m, BgpCapability::SafiVPNv6m) => true,
        (BgpCapability::SafiIPv6mdt, BgpCapability::SafiIPv6mdt) => true,
        (BgpCapability::SafiVPLS, BgpCapability::SafiVPLS) => true,
        (BgpCapability::SafiEVPN, BgpCapability::SafiEVPN) => true,
        (
            BgpCapability::CapGR { restart_time: t1, restart_state: s1, afis: a1 },
            BgpCapability::CapGR { restart_time: t2, restart_state: s2, afis: a2 },
        ) => *t1 == *t2 && *s1 == *s2 && gr_vec_eq(a1, a2),
        (BgpCapability::CapASN32(x), BgpCapability::CapASN32(y)) => *x == *y,
        (BgpCapability::CapRR, BgpCapability::CapRR) => true,
        (BgpCapability::CapAddPath(v1), BgpCapability::CapAddPath(v2)) => addpath_vec_eq(v1, v2),
        (BgpCapability::CapEnhancedRR, BgpCapability::CapEnhancedRR) => true,
        (BgpCapability::CapLLGR(v1), BgpCapability::CapLLGR(v2)) => llgr_vec_eq(v1, v2),
        (BgpCapability::CapFQDN(h1, d1), BgpCapability::CapFQDN(h2, d2)) => bytes_vec_eq(h1, h2)
            && bytes_vec_eq(d1, d2),
        (BgpCapability::CapBFD, BgpCapability::CapBFD) => true,
        _ => false,
    }
}

impl PartialEq for BgpCapability {
    fn eq(&self, other: &Self) -> (r: bool) {
        cap_same(self, other)
    }
}

impl vstd::std_specs::cmp::PartialEqSpecImpl for BgpCapability {
    open spec fn obeys_eq_spec() -> bool {
        true
    }

    open spec fn eq_spec(&self, other: &Self) -> bool {
        cap_eq(*self, *other)
    }
}

impl Eq for BgpCapability {

}

/// Rebuilds a capability value equal to the given one.
pub fn cap_dup(c: &BgpCapability) -> (r: BgpCapability)
    ensures
        cap_eq(r, *c),
{
    match c {
        BgpCapability::SafiIPv4u => BgpCapability::SafiIPv4u,
        BgpCapability::SafiIPv4m => BgpCapability::SafiIPv4m,
        BgpCapability::SafiIPv4mvpn => BgpCapability::SafiIPv4mvpn,
        BgpCapability::SafiIPv4fu => BgpCapability::SafiIPv4fu,
        BgpCapability::SafiVPNv4u => BgpCapability::SafiVPNv4u,
        BgpCapability::SafiVPNv4fu => BgpCapability::SafiVPNv4fu,
        BgpCapability::SafiVPNv4m => BgpCapability::SafiVPNv4m,
        BgpCapability::SafiIPv4lu => BgpCapability::SafiIPv4lu,
        BgpCapability::SafiIPv4mdt => BgpCapability::SafiIPv4mdt,
        BgpCapability::SafiIPv6u => BgpCapability::SafiIPv6u,
        BgpCapability::SafiIPv6lu => BgpCapability::SafiIPv6lu,
        BgpCapability::SafiIPv6fu => BgpCapability::SafiIPv6fu,
        BgpCapability::SafiVPNv6u => BgpCapability::SafiVPNv6u,
        BgpCapability::SafiVPNv6m => BgpCapability::SafiVPNv6m,
        BgpCapability::SafiIPv6mdt => BgpCapability::SafiIPv6mdt,
        BgpCapability::SafiVPLS => BgpCapability::SafiVPLS,
        BgpCapability::SafiEVPN => BgpCapability::SafiEVPN,
        BgpCapability::CapGR { restart_time, restart_state, afis } => {
            let a2 = copy_gr_vec(afis);
            BgpCapability::CapGR {
                restart_time: *restart_time,
                restart_state: *restart_state,
                afis: a2,
            }
        },
        BgpCapability::CapASN32(x) => BgpCapability::CapASN32(*x),
        BgpCapability::CapRR => BgpCapability::CapRR,
        BgpCapability::CapAddPath(v) => BgpCapability::CapAddPath(copy_addpath_vec(v)),
        BgpCapability::CapEnhancedRR => BgpCapability::CapEnhancedRR,
        BgpCapability::CapLLGR(v) => BgpCapability::CapLLGR(copy_llgr_vec(v)),
        BgpCapability::CapFQDN(h, d) => BgpCapability::CapFQDN(copy_bytes_vec(h), copy_bytes_vec(d)),
        BgpCapability::CapBFD => BgpCapability::CapBFD,
    }
}

fn copy_gr_vec(v: &Vec<BgpCapGR>) -> (r: Vec<BgpCapGR>)
    ensures
        r@ == v@,
{
    let mut r: Vec<BgpCapGR> = Vec::new();
    let mut i: usize = 0;
    while i < v.len()
        invariant
            i <= v@.len(),
            r@ == v@.subrange(0, i as int),
        decreases v@.len() - i,
    {
        r.push(v[i]);
        proof {
            assert(r@ =~= v@.subrange(0, i + 1int));
        }
        i = i + 1;
    }
    proof {
        assert(r@ =~= v@);
    }
    r
}

fn copy_addpath_vec(v: &Vec<BgpCapAddPath>) -> (r: Vec<BgpCapAddPath>)
    ensures
        r@ == v@,
{
    let mut r: Vec<BgpCapAddPath> = Vec::new();
    let mut i: usize = 0;
    while i < v.len()
        invariant
            i <= v@.len(),
            r@ == v@.subrange(0, i as int),
        decreases v@.len() - i,
    {
        r.push(v[i]);
        proof {
            assert(r@ =~= v@.subrange(0, i + 1int));
        }
        i = i + 1;
    }
    proof {
        assert(r@ =~= v@);
    }
    r
}

fn copy_llgr_vec(v: &Vec<BgpCapLLGR>) -> (r: Vec<BgpCapLLGR>)
    ensures
        r@ == v@,
{
    let mut r: Vec<BgpCapLLGR> = Vec::new();
    let mut i: usize = 0;
    while i < v.len()
        invariant
            i <= v@.len(),
            r@ == v@.subrange(0, i as int),
        decreases v@.len() - i,
    {
        r.push(v[i]);
        proof {
            assert(r@ =~= v@.subrange(0, i + 1int));
        }
        i = i + 1;
    }
    proof {
        assert(r@ =~= v@);
    }
    r
}

/// The AFI/SAFI pair of any multi-protocol capability, the FlowSpec
/// families included.
pub open spec fn cap_mp_pair(c: BgpCapability) -> Option<(u16, u8)> {
    match c {
        BgpCapability::SafiIPv4fu => Some((1u16, 133u8)),
        BgpCapability::SafiVPNv4fu => Some((1u16, 134u8)),
        BgpCapability::SafiIPv6fu => Some((2u16, 133u8)),
        _ => spec_afisafi_of(c),
    }
}

/// Wire image of a run of graceful-restart entries.
pub open spec fn gr_list_bytes(s: Seq<BgpCapGR>) -> Seq<u8>
    decreases s.len(),
{
    if s.len() == 0 {
        Seq::empty()
    } else {
        gr_list_bytes(s.drop_last()) + cap_gr_bytes(s.last())
    }
}

/// Wire image of a run of ADD-PATH entries.
pub open spec fn addpath_list_bytes(s: Seq<BgpCapAddPath>) -> Seq<u8>
    decreases s.len(),
{
    if s.len() == 0 {
        Seq::empty()
    } else {
        addpath_list_bytes(s.drop_last()) + cap_addpath_bytes(s.last())
    }
}

/// Wire image of a run of long-lived graceful-restart entries.
pub open spec fn llgr_list_bytes(s: Seq<BgpCapLLGR>) -> Seq<u8>
    decreases s.len(),
{
    if s.len() == 0 {
        Seq::empty()
    } else {
        llgr_list_bytes(s.drop_last()) + cap_llgr_bytes(s.last())
    }
}

/// A capability the encoder can emit: list lengths fit their one-octet
/// length fields, the restart time its 12 bits, stale times their 24.
pub open spec fn wf_cap(c: BgpCapability) -> bool {
    match c {
        BgpCapability::CapGR { restart_time, restart_state, afis } => restart_time < 4096
            && afis@.len() <= 63,
        BgpCapability::CapAddPath(v) => v@.len() <= 63,
        BgpCapability::CapLLGR(v) => v@.len() <= 36 && forall|i: int|
            0 <= i < v@.len() ==> v@[i].stale_time < 0x1000000,
        BgpCapability::CapFQDN(h, d) => h@.len() + d@.len() <= 253,
        _ => true,
    }
}

/// Wire image of a capability TLV: its code, the data length, the data.
pub open spec fn cap_bytes(c: BgpCapability) -> Seq<u8> {
    match c {
        BgpCapability::CapGR { restart_time, restart_state, afis } => seq![
            64u8,
            (2 + 4 * afis@.len()) as u8,
        ] + u16_bytes(
            if restart_state {
                (restart_time | 0x8000) as u16
            } else {
                restart_time
            },
        ) + gr_list_bytes(afis@),
        BgpCapability::CapASN32(n) => seq![65u8, 4u8] + u32_bytes(n),
        BgpCapability::CapRR => seq![2u8, 0u8],
        BgpCapability::CapAddPath(v) => seq![69u8, (4 * v@.len()) as u8] + addpath_list_bytes(v@),
        BgpCapability::CapEnhancedRR => seq![70u8, 0u8],
        BgpCapability::CapLLGR(v) => seq![71u8, (7 * v@.len()) as u8] + llgr_list_bytes(v@),
        BgpCapability::CapFQDN(h, d) => seq![73u8, (2 + h@.len() + d@.len()) as u8, h@.len() as u8]
            + h@ + seq![d@.len() as u8] + d@,
        BgpCapability::CapBFD => seq![74u8, 0u8],
        _ => match cap_mp_pair(c) {
            Some((afi, safi)) => seq![1u8, 4u8] + u16_bytes(afi) + seq![0u8, safi],
            None => Seq::empty(),
        },
    }
}

impl BgpCapability {
    /// Octets the capability TLV takes in the OPEN message.
    pub fn bytes_len(&self) -> (r: usize)
        requires
            wf_cap(*self),
        ensures
            r == cap_bytes(*self).len(),
    {
        match self {
            BgpCapability::CapGR { afis, .. } => {
                proof {
                    lemma_gr_list_len(afis@);
                }
                4 + afis.len() * 4
            },
            BgpCapability::CapASN32(_) => 6,
            BgpCapability::CapRR => 2,
            BgpCapability::CapAddPath(v) => {
                proof {
                    lemma_addpath_list_len(v@);
                }
                2 + v.len() * 4
            },
            BgpCapability::CapEnhancedRR => 2,
            BgpCapability::CapLLGR(v) => {
                proof {
                    lemma_llgr_list_len(v@);
                }
                2 + v.len() * 7
            },
            BgpCapability::CapFQDN(hostname, domainname) => 4 + hostname.len() + domainname.len(),
            BgpCapability::CapBFD => 2,
            _ => 6,
        }
    }

    /// Appends the capability TLV.
    pub fn fill_buffer(&self, buf: &mut Vec<u8>) -> (r: Result<(), BgpError>)
        requires
            wf_cap(*self),
        ensures
            r is Ok,
            final(buf)@ == old(buf)@ + cap_bytes(*self),
    {
        match self {
            BgpCapability::CapGR { restart_time, restart_state, afis } => {
                buf.push(64);
                buf.push((2 + 4 * (afis.len() as u8)) as u8);
                let w: u16 = if *restart_state {
                    *restart_time | 0x8000
                } else {
                    *restart_time
                };
                push_u16(buf, w);
                let ghost mid = buf@;
                let mut i: usize = 0;
                while i < afis.len()
                    invariant
                        i <= afis@.len(),
                        buf@ == mid + gr_list_bytes(afis@.subrange(0, i as int)),
                    decreases afis@.len() - i,
                {
                    let ghost pre = afis@.subrange(0, i as int);
                    let c = afis[i];
                    push_u16(buf, c.afi);
                    buf.push(c.safi);
                    if c.forwarding_state {
                        buf.push(128);
                    } else {
                        buf.push(0);
                    }
                    proof {
                        let cur = afis@.subrange(0, i + 1int);
                        assert(cur.drop_last() =~= pre);
                        assert(buf@ =~= mid + gr_list_bytes(cur));
                    }
                    i = i + 1;
                }
                proof {
                    assert(afis@.subrange(0, afis@.len() as int) =~= afis@);
                    assert(final(buf)@ =~= old(buf)@ + cap_bytes(*self));
                }
                Ok(())
            },
            BgpCapability::CapASN32(n) => {
                buf.push(65);
                buf.push(4);
                push_u32(buf, *n);
                proof {
                    assert(final(buf)@ =~= old(buf)@ + cap_bytes(*self));
                }
                Ok(())
            },
            BgpCapability::CapRR => {
                buf.push(2);
                buf.push(0);
                proof {
                    assert(final(buf)@ =~= old(buf)@ + cap_bytes(*self));
                }
                Ok(())
            },
            BgpCapability::CapAddPath(v) => {
                buf.push(69);
                buf.push(4 * (v.len() as u8));
                let ghost mid = buf@;
                let mut i: usize = 0;
                while i < v.len()
                    invariant
                        i <= v@.len(),
                        buf@ == mid + addpath_list_bytes(v@.subrange(0, i as int)),
                    decreases v@.len() - i,
                {
                    let ghost pre = v@.subrange(0, i as int);
                    let c = v[i];
                    push_u16(buf, c.afi);
                    buf.push(c.safi);
                    let fl: u8 = (if c.receive {
                        1u8
                    } else {
                        0u8
                    }) + (if c.send {
                        2u8
                    } else {
                        0u8
                    });
                    buf.push(fl);
                    proof {
                        let cur = v@.subrange(0, i + 1int);
                        assert(cur.drop_last() =~= pre);
                        assert(buf@ =~= mid + addpath_list_bytes(cur));
                    }
                    i = i + 1;
                }
                proof {
                    assert(v@.subrange(0, v@.len() as int) =~= v@);
                    assert(final(buf)@ =~= old(buf)@ + cap_bytes(*self));
                }
                Ok(())
            },
            BgpCapability::CapEnhancedRR => {
                buf.push(70);
                buf.push(0);
                proof {
                    assert(final(buf)@ =~= old(buf)@ + cap_bytes(*self));
                }
                Ok(())
            },
            BgpCapability::CapLLGR(v) => {
                buf.push(71);
                buf.push(7 * (v.len() as u8));
                let ghost mid = buf@;
                let mut i: usize = 0;
                while i < v.len()
                    invariant
                        i <= v@.len(),
                        forall|k: int| 0 <= k < v@.len() ==> v@[k].stale_time < 0x1000000,
                        buf@ == mid + llgr_list_bytes(v@.subrange(0, i as int)),
                    decreases v@.len() - i,
                {
                    let ghost pre = v@.subrange(0, i as int);
                    let c = v[i];
                    push_u16(buf, c.afi);
                    buf.push(c.safi);
                    buf.push(c.flags);
                    buf.push(((c.stale_time >> 16) & 0xff) as u8);
                    buf.push(((c.stale_time >> 8) & 0xff) as u8);
                    buf.push((c.stale_time & 0xff) as u8);
                    proof {
                        let cur = v@.subrange(0, i + 1int);
                        assert(cur.drop_last() =~= pre);
                        assert(buf@ =~= mid + llgr_list_bytes(cur));
                    }
                    i = i + 1;
                }
                proof {
                    assert(v@.subrange(0, v@.len() as int) =~= v@);
                    assert(final(buf)@ =~= old(buf)@ + cap_bytes(*self));
                }
                Ok(())
            },
            BgpCapability::CapFQDN(hostname, domainname) => {
                buf.push(73);
                buf.push((2 + hostname.len() + domainname.len()) as u8);
                buf.push(hostname.len() as u8);
                append_bytes(buf, hostname);
                buf.push(domainname.len() as u8);
                append_bytes(buf, domainname);
                proof {
                    assert(final(buf)@ =~= old(buf)@ + cap_bytes(*self));
                }
                Ok(())
            },
            BgpCapability::CapBFD => {
                buf.push(74);
                buf.push(0);
                proof {
                    assert(final(buf)@ =~= old(buf)@ + cap_bytes(*self));
                }
                Ok(())
            },
            _ => {
                let (afi, safi) = match self {
                    BgpCapability::SafiIPv4fu => (1u16, 133u8),
                    BgpCapability::SafiVPNv4fu => (1u16, 134u8),
                    BgpCapability::SafiIPv6fu => (2u16, 133u8),
                    other => match afisafi_from_cap(other) {
                        Ok(p) => p,
                        Err(e) => {
                            return Err(e);
                        },
                    },
                };
                buf.push(1);
                buf.push(4);
                push_u16(buf, afi);
                buf.push(0);
                buf.push(safi);
                proof {
                    assert(final(buf)@ =~= old(buf)@ + cap_bytes(*self));
                }
                Ok(())
            },
        }
    }
}

/// The image of a graceful-restart list holds four octets per entry.
pub proof fn lemma_gr_list_len(s: Seq<BgpCapGR>)
    ensures
        gr_list_bytes(s).len() == 4 * s.len(),
    decreases s.len(),
{
    if s.len() > 0 {
        lemma_gr_list_len(s.drop_last());
    }
}

/// The image of an ADD-PATH list holds four octets per entry.
pub proof fn lemma_addpath_list_len(s: Seq<BgpCapAddPath>)
    ensures
        addpath_list_bytes(s).len() == 4 * s.len(),
    decreases s.len(),
{
    if s.len() > 0 {
        lemma_addpath_list_len(s.drop_last());
    }
}

/// The image of a long-lived graceful-restart list holds seven octets per
/// entry.
pub proof fn lemma_llgr_list_len(s: Seq<BgpCapLLGR>)
    ensures
        llgr_list_bytes(s).len() == 7 * s.len(),
    decreases s.len(),
{
    if s.len() > 0 {
        lemma_llgr_list_len(s.drop_last());
    }
}

impl BgpCapability {
    /// Decodes the data of one capability TLV. An unknown code yields
    /// `None`; structurally broken data of a known code is an error; a
    /// known code yields the capability of that code.
    fn from_type_and_data(captype: u8, data: &[u8]) -> (r: Result<
        Option<BgpCapability>,
        BgpError,
    >)
        requires
            data@.len() <= 255,
        ensures
            r matches Ok(Some(c)) ==> wf_cap(c),
            r matches Ok(Some(c)) ==> (captype == 1 ==> data@.len() == 4) && (captype == 2 ==> c is CapRR && data@.len() == 0) && (captype == 64
                ==> c is CapGR) && (captype == 65 ==> (c matches BgpCapability::CapASN32(x)
                && u32_bytes(x) == data@.subrange(0, 4))) && (captype == 69 ==> c is CapAddPath)
                && (captype == 70 ==> c is CapEnhancedRR && data@.len() == 0) && (captype == 71
                ==> c is CapLLGR) && (captype == 73 ==> c is CapFQDN) && (captype == 74
                ==> c is CapBFD && data@.len() == 0),
            r matches Ok(Some(_)) ==> (captype == 1 || captype == 2 || captype == 64 || captype
                == 65 || captype == 69 || captype == 70 || captype == 71 || captype == 73
                || captype == 74),
            r matches Ok(None) ==> !(captype == 2 || captype == 64 || captype == 65 || captype
                == 69 || captype == 70 || captype == 71 || captype == 73 || captype == 74),
            (captype == 1 && data@.len() == 4) || (captype == 2 && data@.len() == 0) || (captype
                == 64 && data@.len() >= 2 && (data@.len() - 2) % 4 == 0) || (captype == 65
                && data@.len() == 4) || (captype == 69 && data@.len() % 4 == 0) || (captype == 70
                && data@.len() == 0) || (captype == 71 && data@.len() % 7 == 0) || (captype == 74
                && data@.len() == 0) ==> r is Ok,
            !(captype == 1 || captype == 2 || captype == 64 || captype == 65 || captype == 69
                || captype == 70 || captype == 71 || captype == 73 || captype == 74) ==> (
            r matches Ok(c) && c is None),
    {
        match captype {
            1 => {
                if data.len() != 4 {
                    return Err(BgpError::static_str("Invalid capability"));
                }
                let afi = getn_u16(data);
                let safi = data[3];
                let cap = match (afi, safi) {
                    (1u16, 1u8) => BgpCapability::SafiIPv4u,
                    (1u16, 2u8) => BgpCapability::SafiIPv4m,
                    (1u16, 4u8) => BgpCapability::SafiIPv4lu,
                    (1u16, 5u8) => BgpCapability::SafiIPv4mvpn,
                    (1u16, 66u8) => BgpCapability::SafiIPv4mdt,
                    (1u16, 128u8) => BgpCapability::SafiVPNv4u,
                    (1u16, 129u8) => BgpCapability::SafiVPNv4m,
                    (1u16, 133u8) => BgpCapability::SafiIPv4fu,
                    (1u16, 134u8) => BgpCapability::SafiVPNv4fu,
                    (2u16, 1u8) => BgpCapability::SafiIPv6u,
                    (2u16, 4u8) => BgpCapability::SafiIPv6lu,
                    (2u16, 66u8) => BgpCapability::SafiIPv6mdt,
                    (2u16, 128u8) => BgpCapability::SafiVPNv6u,
                    (2u16, 129u8) => BgpCapability::SafiVPNv6m,
                    (2u16, 133u8) => BgpCapability::SafiIPv6fu,
                    (25u16, 65u8) => BgpCapability::SafiVPLS,
                    (25u16, 70u8) => BgpCapability::SafiEVPN,
                    _ => {
                        return Ok(None);
                    },
                };
                Ok(Some(cap))
            },
            2 => {
                if data.len() != 0 {
                    return Err(BgpError::static_str("Invalid capability"));
                }
                Ok(Some(BgpCapability::CapRR))
            },
            64 => {
                if data.len() < 2 || (data.len() - 2) % 4 != 0 {
                    return Err(BgpError::static_str("Invalid GR capability"));
                }
                let restart_state = data[0] & 128 != 0;
                let w16 = getn_u16(data);
                let restart_time = w16 & 0x0fff;
                proof {
                    assert(w16 & 0x0fff < 4096) by (bit_vector);
                }
                let mut afis: Vec<BgpCapGR> = Vec::new();
                let mut cp: usize = 2;
                while cp + 4 <= data.len()
                    invariant
                        cp <= data@.len(),
                        data@.len() <= 255,
                        afis@.len() * 4 <= cp,
                    decreases data@.len() - cp,
                {
                    match BgpCapGR::decode_from(crate::afi::sub_tail(data, cp)) {
                        Ok(c) => {
                            afis.push(c);
                        },
                        Err(e) => {
                            return Err(e);
                        },
                    }
                    cp = cp + 4;
                }
                Ok(Some(BgpCapability::CapGR { restart_state, restart_time, afis }))
            },
            65 => {
                if data.len() != 4 {
                    return Err(BgpError::static_str("Invalid capability"));
                }
                let x = getn_u32(data);
                proof {
                    assert(seq![data@[0], data@[1], data@[2], data@[3]] =~= data@.subrange(0, 4));
                }
                Ok(Some(BgpCapability::CapASN32(x)))
            },
            69 => {
                if data.len() % 4 != 0 {
                    return Err(BgpError::static_str("Invalid addpath capability"));
                }
                let mut v: Vec<BgpCapAddPath> = Vec::new();
                let mut cp: usize = 0;
                while cp + 4 <= data.len()
                    invariant
                        cp <= data@.len(),
                        data@.len() <= 255,
                        v@.len() * 4 <= cp,
                    decreases data@.len() - cp,
                {
                    match BgpCapAddPath::decode_from(crate::afi::sub_tail(data, cp)) {
                        Ok(c) => {
                            v.push(c);
                        },
                        Err(e) => {
                            return Err(e);
                        },
                    }
                    cp = cp + 4;
                }
                Ok(Some(BgpCapability::CapAddPath(v)))
            },
            70 => {
                if data.len() != 0 {
                    return Err(BgpError::static_str("Invalid capability"));
                }
                Ok(Some(BgpCapability::CapEnhancedRR))
            },
            71 => {
                if data.len() % 7 != 0 {
                    return Err(BgpError::static_str("Invalid LLGR capability"));
                }
                let mut v: Vec<BgpCapLLGR> = Vec::new();
                let mut cp: usize = 0;
                while cp + 7 <= data.len()
                    invariant
                        cp <= data@.len(),
                        data@.len() <= 255,
                        v@.len() * 7 <= cp,
                        forall|i: int| 0 <= i < v@.len() ==> v@[i].stale_time < 0x1000000,
                    decreases data@.len() - cp,
                {
                    match BgpCapLLGR::decode_from(crate::afi::sub_tail(data, cp)) {
                        Ok(c) => {
                            v.push(c);
                        },
                        Err(e) => {
                            return Err(e);
                        },
                    }
                    cp = cp + 7;
                }
                Ok(Some(BgpCapability::CapLLGR(v)))
            },
            73 => {
                if data.len() < 1 {
                    return Err(BgpError::static_str("Invalid capability"));
                }
                let hostname_len = data[0] as usize;
                if data.len() - 1 < hostname_len {
                    return Err(BgpError::static_str("Invalid capability"));
                }
                let hostname = copy_bytes_range(data, 1, hostname_len);
                let mut pos: usize = 1 + hostname_len;
                if data.len() - pos < 1 {
                    return Err(BgpError::static_str("Invalid capability"));
                }
                let domainname_len = data[pos] as usize;
                pos = pos + 1;
                if data.len() - pos < domainname_len {
                    return Err(BgpError::static_str("Invalid capability"));
                }
                let domainname = copy_bytes_range(data, pos, domainname_len);
                Ok(Some(BgpCapability::CapFQDN(hostname, domainname)))
            },
            74 => {
                if data.len() != 0 {
                    return Err(BgpError::static_str("Invalid capability"));
                }
                Ok(Some(BgpCapability::CapBFD))
            },
            _ => Ok(None),
        }
    }

    /// Reads one capability TLV from the head of the buffer. Returns the
    /// capability, or the raw code and data of an unknown one, together
    /// with the count of bytes consumed: two for the code and length
    /// octets, and then as many as the length octet says.
    pub fn from_buffer(buf: &[u8]) -> (r: Result<
        (Result<BgpCapability, (u8, Vec<u8>)>, usize),
        BgpError,
    >)
        ensures
            r matches Ok((c, n)) ==> 2 <= n <= buf@.len() && n == 2 + buf@[1] as int && (
            c matches Ok(cap) ==> wf_cap(cap)),
            r matches Ok((c, n)) ==> (c matches Err((code, data)) ==> code == buf@[0] && data@
                == buf@.subrange(2, 2 + buf@[1] as int)),
            buf@.len() < 2 ==> (r matches Err(e) && e is InsufficientBufferSize),
            buf@.len() >= 2 && buf@.len() - 2 < buf@[1] as int ==> (r matches Err(e)
                && e is InsufficientBufferSize),
            buf@.len() >= 2 && 2 + buf@[1] as int <= buf@.len() && (buf@[0] == 2 || buf@[0] == 70
                || buf@[0] == 74) && buf@[1] == 0 ==> r is Ok,
            buf@.len() >= 2 && 2 + buf@[1] as int <= buf@.len() && (buf@[0] == 1 || buf@[0] == 65)
                && buf@[1] == 4 ==> r is Ok,
    {
        if buf.len() < 2 {
            return Err(BgpError::InsufficientBufferSize);
        }
        let captype = buf[0];
        let datalength = buf[1] as usize;
        if buf.len() - 2 < datalength {
            return Err(BgpError::InsufficientBufferSize);
        }
        let data = vstd::slice::slice_subrange(buf, 2, 2 + datalength);
        match Self::from_type_and_data(captype, data) {
            Ok(Some(cap)) => Ok((Ok(cap), 2 + datalength)),
            Ok(None) => {
                let raw = copy_bytes_range(data, 0, datalength);
                proof {
                    assert(raw@ =~= buf@.subrange(2, 2 + buf@[1] as int));
                }
                Ok((Err((captype, raw)), 2 + datalength))
            },
            Err(e) => Err(e),
        }
    }
}

/// Copies `len` bytes starting at `from` out of a buffer.
pub fn copy_bytes_range(buf: &[u8], from: usize, len: usize) -> (r: Vec<u8>)
    requires
        from + len <= buf@.len(),
    ensures
        r@ == buf@.subrange(from as int, from + len),
{
    let mut r: Vec<u8> = Vec::new();
    let total = buf.len();
    let mut i: usize = 0;
    while i < len
        invariant
            from + len <= buf@.len(),
            total == buf@.len(),
            i <= len,
            r@ == buf@.subrange(from as int, from + i),
        decreases len - i,
    {
        r.push(buf[from + i]);
        proof {
            assert(r@ =~= buf@.subrange(from as int, from + i + 1));
        }
        i = i + 1;
    }
    r
}

/// Appends the contents of one byte vector to another.
pub fn append_bytes(buf: &mut Vec<u8>, v: &Vec<u8>)
    ensures
        final(buf)@ == old(buf)@ + v@,
{
    let mut i: usize = 0;
    while i < v.len()
        invariant
            i <= v@.len(),
            buf@ == old(buf)@ + v@.subrange(0, i as int),
        decreases v@.len() - i,
    {
        buf.push(v[i]);
        proof {
            assert(buf@ =~= old(buf)@ + v@.subrange(0, i + 1int));
        }
        i = i + 1;
    }
    proof {
        assert(final(buf)@ =~= old(buf)@ + v@);
    }
}

// ---------------------------------------------------------------------------
// Session parameters
// ---------------------------------------------------------------------------

/// True when some capability in the run is the four-octet AS capability.
pub open spec fn has_asn32(caps: Seq<BgpCapability>) -> bool {
    exists|i: int| 0 <= i < caps.len() && caps[i] is CapASN32
}

/// The first ADD-PATH entry for the family in a run of entries.
pub open spec fn find_ap_in_list(v: Seq<BgpCapAddPath>, afi: u16, safi: u8) -> Option<
    BgpCapAddPath,
>
    decreases v.len(),
{
    if v.len() == 0 {
        None
    } else if v[0].afi == afi && v[0].safi == safi {
        Some(v[0])
    } else {
        find_ap_in_list(v.drop_first(), afi, safi)
    }
}

/// The first ADD-PATH entry for the family in a capability set.
pub open spec fn find_ap(caps: Seq<BgpCapability>, afi: u16, safi: u8) -> Option<BgpCapAddPath>
    decreases caps.len(),
{
    if caps.len() == 0 {
        None
    } else {
        match caps[0] {
            BgpCapability::CapAddPath(v) => match find_ap_in_list(v@, afi, safi) {
                Some(ap) => Some(ap),
                None => find_ap(caps.drop_first(), afi, safi),
            },
            _ => find_ap(caps.drop_first(), afi, safi),
        }
    }
}

/// One ADD-PATH entry answers another: same family, send and receive
/// swapped.
pub open spec fn entry_reflects(ap: BgpCapAddPath, rap: BgpCapAddPath) -> bool {
    ap.afi == rap.afi && ap.safi == rap.safi && ap.send == rap.receive && ap.receive == rap.send
}

/// The entry answers some entry of the run.
pub open spec fn reflected_in_list(ap: BgpCapAddPath, v: Seq<BgpCapAddPath>) -> bool {
    exists|m: int| 0 <= m < v.len() && entry_reflects(ap, #[trigger] v[m])
}

/// The entry answers some entry of some ADD-PATH capability of the set.
pub open spec fn reflected_in_caps(ap: BgpCapAddPath, rcaps: Seq<BgpCapability>) -> bool {
    exists|j: int|
        0 <= j < rcaps.len() && #[trigger] rcaps[j] is CapAddPath && reflected_in_list(
            ap,
            rcaps[j]->CapAddPath_0@,
        )
}

/// The negotiated session state: what was agreed at OPEN time decides how
/// every later message is interpreted.
#[derive(Debug)]
pub struct BgpSessionParams {
    /// autonomous system number
    pub as_num: u32,
    /// hold time in seconds
    pub hold_time: u16,
    /// transport the session runs over
    pub peer_mode: BgpTransportMode,
    /// whether four-octet AS numbers are in force
    pub has_as32bit: bool,
    /// router id
    pub router_id: Ipv4Addr,
    /// the capability set of this session
    pub caps: Vec<BgpCapability>,
    /// guess a path id from the shape of the bytes when the capability was
    /// not advertised
    pub fuzzy_pathid: bool,
}

impl BgpSessionParams {
    /// Builds session parameters from the local AS, hold time, transport,
    /// router id and proposed capability set.
    pub fn new(
        asnum: u32,
        holdtime: u16,
        peermode: BgpTransportMode,
        routerid: Ipv4Addr,
        cps: Vec<BgpCapability>,
    ) -> (r: BgpSessionParams)
        ensures
            r.as_num == asnum,
            r.hold_time == holdtime,
            r.peer_mode == peermode,
            r.has_as32bit,
            r.router_id == routerid,
            r.caps == cps,
            r.fuzzy_pathid,
    {
        BgpSessionParams {
            as_num: asnum,
            hold_time: holdtime,
            peer_mode: peermode,
            has_as32bit: true,
            router_id: routerid,
            caps: cps,
            fuzzy_pathid: true,
        }
    }

    /// Rechecks the four-octet AS flag against the capability set and takes
    /// the effective AS number from the capability when it is present.
    pub fn check_caps(&mut self)
        ensures
            final(self).has_as32bit <==> has_asn32(old(self).caps@),
            final(self).caps == old(self).caps,
            final(self).hold_time == old(self).hold_time,
            final(self).peer_mode == old(self).peer_mode,
            final(self).router_id == old(self).router_id,
            final(self).fuzzy_pathid == old(self).fuzzy_pathid,
            final(self).has_as32bit ==> exists|i: int|
                0 <= i < final(self).caps@.len() && final(self).caps@[i] == BgpCapability::CapASN32(
                    final(self).as_num,
                ),
            !final(self).has_as32bit ==> final(self).as_num == old(self).as_num,
    {
        self.has_as32bit = false;
        let mut i: usize = 0;
        let n = self.caps.len();
        while i < n
            invariant
                n == self.caps@.len(),
                i <= n,
                self.caps == old(self).caps,
                self.hold_time == old(self).hold_time,
                self.peer_mode == old(self).peer_mode,
                self.router_id == old(self).router_id,
                self.fuzzy_pathid == old(self).fuzzy_pathid,
                self.has_as32bit <==> exists|k: int| 0 <= k < i && self.caps@[k] is CapASN32,
                self.has_as32bit ==> exists|k: int|
                    0 <= k < i && self.caps@[k] == BgpCapability::CapASN32(self.as_num),
                !self.has_as32bit ==> self.as_num == old(self).as_num,
            decreases n - i,
        {
            let found: bool = match &self.caps[i] {
                BgpCapability::CapASN32(nn) => {
                    let v = *nn;
                    self.has_as32bit = true;
                    self.as_num = v;
                    true
                },
                _ => false,
            };
            proof {
                if found {
                    assert(self.caps@[i as int] == BgpCapability::CapASN32(self.as_num));
                }
            }
            i = i + 1;
        }
    }

    /// Reflects the remote ADD-PATH entries that match a local entry:
    /// what the remote can send, this side will receive, and the other way
    /// round.
    fn match_addpath_caps(vcaps: &Vec<BgpCapAddPath>, rcaps: &Vec<BgpCapAddPath>) -> (r: Vec<
        BgpCapAddPath,
    >)
        ensures
            forall|k: int| 0 <= k < r@.len() ==> reflected_in_list(#[trigger] r@[k], rcaps@),
    {
        let mut out: Vec<BgpCapAddPath> = Vec::new();
        let mut i: usize = 0;
        while i < vcaps.len()
            invariant
                i <= vcaps@.len(),
                forall|k: int| 0 <= k < out@.len() ==> reflected_in_list(#[trigger] out@[k], rcaps@),
            decreases vcaps@.len() - i,
        {
            let vq = vcaps[i];
            let mut j: usize = 0;
            let mut hit: usize = rcaps.len();
            while j < rcaps.len() && hit == rcaps.len()
                invariant
                    j <= rcaps@.len(),
                    hit <= rcaps@.len(),
                    hit < rcaps@.len() ==> rcaps@[hit as int].afi == vq.afi
                        && rcaps@[hit as int].safi == vq.safi,
                decreases rcaps@.len() - j,
            {
                let rq = rcaps[j];
                if vq.afi == rq.afi && vq.safi == rq.safi {
                    hit = j;
                }
                j = j + 1;
            }
            if hit < rcaps.len() {
                let resp = BgpCapAddPath::response(&rcaps[hit]);
                let ghost pre = out@;
                out.push(resp);
                proof {
                    assert(entry_reflects(resp, rcaps@[hit as int]));
                    assert(reflected_in_list(resp, rcaps@));
                    assert forall|k: int|
                        0 <= k < out@.len() implies reflected_in_list(
                        #[trigger] out@[k],
                        rcaps@,
                    ) by {
                        if k < pre.len() {
                            assert(out@[k] == pre[k]);
                        } else {
                            assert(out@[k] == resp);
                        }
                    }
                }
            }
            i = i + 1;
        }
        out
    }

    /// Intersects the local capability set with the remote one and
    /// finalizes the session: a capability stays when the remote advertised
    /// a structurally equal one; four-octet AS stays when both sides carry
    /// it; the ADD-PATH entries that stay are the matching remote entries
    /// with send and receive reflected.
    pub fn match_caps(&mut self, rcaps: &Vec<BgpCapability>)
        ensures
            final(self).has_as32bit <==> has_asn32(old(self).caps@) && has_asn32(rcaps@),
            final(self).has_as32bit ==> exists|i: int|
                0 <= i < final(self).caps@.len() && final(self).caps@[i] == BgpCapability::CapASN32(
                    final(self).as_num,
                ),
            forall|i: int, k: int|
                #![trigger reflected_in_caps(final(self).caps@[i]->CapAddPath_0@[k], rcaps@)]
                0 <= i < final(self).caps@.len() && final(self).caps@[i] is CapAddPath && 0 <= k
                    < final(self).caps@[i]->CapAddPath_0@.len() ==> reflected_in_caps(
                    final(self).caps@[i]->CapAddPath_0@[k],
                    rcaps@,
                ),
            final(self).hold_time == old(self).hold_time,
            final(self).peer_mode == old(self).peer_mode,
            final(self).router_id == old(self).router_id,
            final(self).fuzzy_pathid == old(self).fuzzy_pathid,
    {
        let mut nv: Vec<BgpCapability> = Vec::new();
        let remote_has_asn32 = caps_have_asn32(rcaps);
        let mut i: usize = 0;
        let n = self.caps.len();
        while i < n
            invariant
                n == self.caps@.len(),
                i <= n,
                remote_has_asn32 == has_asn32(rcaps@),
                (exists|k: int| 0 <= k < nv@.len() && nv@[k] is CapASN32) <==> ((exists|k: int|
                    0 <= k < i && self.caps@[k] is CapASN32) && has_asn32(rcaps@)),
                forall|k: int, m: int|
                    #![trigger reflected_in_caps(nv@[k]->CapAddPath_0@[m], rcaps@)]
                    0 <= k < nv@.len() && nv@[k] is CapAddPath && 0 <= m
                        < nv@[k]->CapAddPath_0@.len() ==> reflected_in_caps(
                        nv@[k]->CapAddPath_0@[m],
                        rcaps@,
                    ),
            decreases n - i,
        {
            let ghost pre = nv@;
            match &self.caps[i] {
                BgpCapability::CapASN32(nn) => {
                    if remote_has_asn32 {
                        nv.push(BgpCapability::CapASN32(*nn));
                        proof {
                            assert(nv@[nv@.len() - 1] == BgpCapability::CapASN32(*nn));
                            assert(self.caps@[i as int] is CapASN32);
                            assert((exists|k: int| 0 <= k < nv@.len() && nv@[k] is CapASN32)
                                <==> ((exists|k: int| 0 <= k < i + 1 && self.caps@[k] is CapASN32)
                                && has_asn32(rcaps@))) by {
                                if exists|k: int| 0 <= k < pre.len() && pre[k] is CapASN32 {
                                    let k0 = choose|k0: int|
                                        0 <= k0 < pre.len() && pre[k0] is CapASN32;
                                    assert(nv@[k0] is CapASN32);
                                }
                                if exists|k: int| 0 <= k < nv@.len() && nv@[k] is CapASN32 {
                                    let k1 = choose|k1: int|
                                        0 <= k1 < nv@.len() && nv@[k1] is CapASN32;
                                    if k1 < pre.len() {
                                        assert(pre[k1] is CapASN32);
                                    }
                                }
                            }
                            assert forall|k: int, m: int|
                                0 <= k < nv@.len() && nv@[k] is CapAddPath && 0 <= m
                                    < nv@[k]->CapAddPath_0@.len() implies reflected_in_caps(
                                #[trigger] nv@[k]->CapAddPath_0@[m],
                                rcaps@,
                            ) by {
                                assert(k < pre.len() && nv@[k] == pre[k]);
                            }
                        }
                    }
                },
                BgpCapability::CapAddPath(cap) => {
                    match find_addpath_list(rcaps) {
                        Some(j) => {
                            let icap = match &rcaps[j] {
                                BgpCapability::CapAddPath(icap) => icap,
                                _ => {
                                    proof {
                                        assert(false);
                                    }
                                    unreached()
                                },
                            };
                            let matched = Self::match_addpath_caps(cap, icap);
                            let ghost matched_view = matched@;
                            nv.push(BgpCapability::CapAddPath(matched));
                            proof {
                                assert(rcaps@[j as int] is CapAddPath);
                                assert(rcaps@[j as int]->CapAddPath_0@ == icap@);
                                assert(!(nv@[nv@.len() - 1] is CapASN32));
                            assert((exists|k: int| 0 <= k < nv@.len() && nv@[k] is CapASN32)
                                <==> ((exists|k: int| 0 <= k < i + 1 && self.caps@[k] is CapASN32)
                                && has_asn32(rcaps@))) by {
                                if exists|k: int| 0 <= k < pre.len() && pre[k] is CapASN32 {
                                    let k0 = choose|k0: int|
                                        0 <= k0 < pre.len() && pre[k0] is CapASN32;
                                    assert(nv@[k0] is CapASN32);
                                }
                                if exists|k: int| 0 <= k < nv@.len() && nv@[k] is CapASN32 {
                                    let k1 = choose|k1: int|
                                        0 <= k1 < nv@.len() && nv@[k1] is CapASN32;
                                    if k1 < pre.len() {
                                        assert(pre[k1] is CapASN32);
                                    }
                                }
                            }
                                assert forall|k: int, m: int|
                                    0 <= k < nv@.len() && nv@[k] is CapAddPath && 0 <= m
                                        < nv@[k]->CapAddPath_0@.len() implies reflected_in_caps(
                                    #[trigger] nv@[k]->CapAddPath_0@[m],
                                    rcaps@,
                                ) by {
                                    if k < pre.len() {
                                        assert(nv@[k] == pre[k]);
                                    } else {
                                        assert(nv@[k]->CapAddPath_0@ == matched_view);
                                        let ap = matched_view[m];
                                        assert(reflected_in_list(ap, icap@));
                                        assert(reflected_in_caps(ap, rcaps@));
                                    }
                                }
                            }
                        },
                        None => {},
                    }
                },
                other => {
                    if caps_contain(rcaps, other) {
                        let c = cap_dup(other);
                        proof {
                            assert(cap_eq(c, self.caps@[i as int]));
                            assert(!(c is CapASN32) && !(c is CapAddPath));
                        }
                        nv.push(c);
                        proof {
                            assert(!(nv@[nv@.len() - 1] is CapASN32));
                            assert((exists|k: int| 0 <= k < nv@.len() && nv@[k] is CapASN32)
                                <==> ((exists|k: int| 0 <= k < i + 1 && self.caps@[k] is CapASN32)
                                && has_asn32(rcaps@))) by {
                                if exists|k: int| 0 <= k < pre.len() && pre[k] is CapASN32 {
                                    let k0 = choose|k0: int|
                                        0 <= k0 < pre.len() && pre[k0] is CapASN32;
                                    assert(nv@[k0] is CapASN32);
                                }
                                if exists|k: int| 0 <= k < nv@.len() && nv@[k] is CapASN32 {
                                    let k1 = choose|k1: int|
                                        0 <= k1 < nv@.len() && nv@[k1] is CapASN32;
                                    if k1 < pre.len() {
                                        assert(pre[k1] is CapASN32);
                                    }
                                }
                            }
                            assert forall|k: int, m: int|
                                0 <= k < nv@.len() && nv@[k] is CapAddPath && 0 <= m
                                    < nv@[k]->CapAddPath_0@.len() implies reflected_in_caps(
                                #[trigger] nv@[k]->CapAddPath_0@[m],
                                rcaps@,
                            ) by {
                                assert(k < pre.len() && nv@[k] == pre[k]);
                            }
                        }
                    }
                },
            }
            i = i + 1;
        }
        self.caps = nv;
        self.check_caps();
    }

    /// Looks up the ADD-PATH entry negotiated for a family.
    pub fn find_addpath(&self, afi: u16, safi: u8) -> (r: Option<BgpCapAddPath>)
        ensures
            r == find_ap(self.caps@, afi, safi),
    {
        let n = self.caps.len();
        let mut i: usize = 0;
        proof {
            assert(self.caps@.subrange(0, n as int) =~= self.caps@);
        }
        while i < n
            invariant
                n == self.caps@.len(),
                i <= n,
                find_ap(self.caps@, afi, safi) == find_ap(
                    self.caps@.subrange(i as int, n as int),
                    afi,
                    safi,
                ),
            decreases n - i,
        {
            let ghost pre = self.caps@.subrange(i as int, n as int);
            proof {
                assert(pre[0] == self.caps@[i as int]);
                assert(pre.drop_first() =~= self.caps@.subrange(i + 1int, n as int));
            }
            match &self.caps[i] {
                BgpCapability::CapAddPath(mcap) => {
                    proof {
                        assert(pre[0]->CapAddPath_0@ == mcap@);
                    }
                    let m = mcap.len();
                    let mut k: usize = 0;
                    proof {
                        assert(mcap@.subrange(0, m as int) =~= mcap@);
                    }
                    while k < m
                        invariant
                            m == mcap@.len(),
                            k <= m,
                            n == self.caps@.len(),
                            i < n,
                            self.caps@[i as int] is CapAddPath,
                            self.caps@[i as int]->CapAddPath_0@ == mcap@,
                            find_ap(self.caps@, afi, safi) == find_ap(
                                self.caps@.subrange(i as int, n as int),
                                afi,
                                safi,
                            ),
                            find_ap_in_list(mcap@, afi, safi) == find_ap_in_list(
                                mcap@.subrange(k as int, m as int),
                                afi,
                                safi,
                            ),
                        decreases m - k,
                    {
                        let ghost lpre = mcap@.subrange(k as int, m as int);
                        proof {
                            assert(lpre[0] == mcap@[k as int]);
                            assert(lpre.drop_first() =~= mcap@.subrange(k + 1int, m as int));
                        }
                        let ap = mcap[k];
                        if ap.afi == afi && ap.safi == safi {
                            proof {
                                assert(find_ap_in_list(lpre, afi, safi) == Some(ap));
                                let spre = self.caps@.subrange(i as int, n as int);
                                assert(spre[0] == self.caps@[i as int]);
                                assert(find_ap(spre, afi, safi) == Some(ap));
                            }
                            return Some(ap);
                        }
                        k = k + 1;
                    }
                    proof {
                        assert(mcap@.subrange(m as int, m as int) =~= Seq::<
                            BgpCapAddPath,
                        >::empty());
                        assert(find_ap_in_list(mcap@, afi, safi) is None);
                    }
                },
                _ => {},
            }
            i = i + 1;
        }
        proof {
            assert(self.caps@.subrange(n as int, n as int) =~= Seq::<BgpCapability>::empty());
        }
        None
    }

    /// True when ADD-PATH sending is negotiated for the family.
    pub fn check_addpath_send(&self, afi: u16, safi: u8) -> (r: bool)
        ensures
            r <==> (find_ap(self.caps@, afi, safi) matches Some(ap) && ap.send),
    {
        match self.find_addpath(afi, safi) {
            None => false,
            Some(x) => x.send,
        }
    }

    /// True when ADD-PATH receiving is negotiated for the family: matching
    /// NLRI then carry a leading path id.
    pub fn check_addpath_receive(&self, afi: u16, safi: u8) -> (r: bool)
        ensures
            r <==> (find_ap(self.caps@, afi, safi) matches Some(ap) && ap.receive),
    {
        match self.find_addpath(afi, safi) {
            None => false,
            Some(x) => x.receive,
        }
    }

    /// True when the capability set holds a structurally equal capability.
    pub fn check_capability(&self, cp: &BgpCapability) -> (r: bool)
        ensures
            r <==> exists|i: int| 0 <= i < self.caps@.len() && cap_eq(self.caps@[i], *cp),
    {
        caps_contain(&self.caps, cp)
    }

    /// Removes a capability: the four-octet AS capability drops every such
    /// entry, an ADD-PATH argument drops its listed family entries, and any
    /// other capability drops its structural equals.
    pub fn remove_capability(&mut self, cp: &BgpCapability)
        ensures
            cp is CapASN32 ==> forall|i: int|
                0 <= i < final(self).caps@.len() ==> !(final(self).caps@[i] is CapASN32),
            !(cp is CapASN32) && !(cp is CapAddPath) ==> forall|i: int|
                0 <= i < final(self).caps@.len() ==> !cap_eq(final(self).caps@[i], *cp),
    {
        match cp {
            BgpCapability::CapASN32(_) => {
                let mut nv: Vec<BgpCapability> = Vec::new();
                let mut i: usize = 0;
                let n = self.caps.len();
                while i < n
                    invariant
                        n == self.caps@.len(),
                        i <= n,
                        forall|k: int| 0 <= k < nv@.len() ==> !(nv@[k] is CapASN32),
                    decreases n - i,
                {
                    let is_asn32 = match &self.caps[i] {
                        BgpCapability::CapASN32(_) => true,
                        _ => false,
                    };
                    if !is_asn32 {
                        let c = cap_dup(&self.caps[i]);
                        proof {
                            assert(!(c is CapASN32)) by {
                                assert(cap_eq(c, self.caps@[i as int]));
                            }
                        }
                        nv.push(c);
                    }
                    i = i + 1;
                }
                self.caps = nv;
            },
            BgpCapability::CapAddPath(vc) => {
                let mut nv: Vec<BgpCapability> = Vec::new();
                let mut i: usize = 0;
                let n = self.caps.len();
                while i < n
                    invariant
                        n == self.caps@.len(),
                        i <= n,
                    decreases n - i,
                {
                    match &self.caps[i] {
                        BgpCapability::CapAddPath(cvc) => {
                            let remaining = addpath_without(cvc, vc);
                            if remaining.len() > 0 {
                                nv.push(BgpCapability::CapAddPath(remaining));
                            }
                        },
                        other => {
                            nv.push(cap_dup(other));
                        },
                    }
                    i = i + 1;
                }
                self.caps = nv;
            },
            _ => {
                let mut nv: Vec<BgpCapability> = Vec::new();
                let mut i: usize = 0;
                let n = self.caps.len();
                while i < n
                    invariant
                        n == self.caps@.len(),
                        i <= n,
                        forall|k: int| 0 <= k < nv@.len() ==> !cap_eq(nv@[k], *cp),
                    decreases n - i,
                {
                    if !cap_same(&self.caps[i], cp) {
                        let c = cap_dup(&self.caps[i]);
                        proof {
                            assert(!cap_eq(c, *cp)) by {
                                assert(cap_eq(c, self.caps@[i as int]));
                                lemma_cap_eq_trans(c, self.caps@[i as int], *cp);
                            }
                        }
                        nv.push(c);
                    }
                    i = i + 1;
                }
                self.caps = nv;
            },
        }
    }

    /// Removes every ADD-PATH capability.
    pub fn remove_capability_addpath(&mut self)
        ensures
            forall|i: int|
                0 <= i < final(self).caps@.len() ==> !(final(self).caps@[i] is CapAddPath),
    {
        let mut nv: Vec<BgpCapability> = Vec::new();
        let mut i: usize = 0;
        let n = self.caps.len();
        while i < n
            invariant
                n == self.caps@.len(),
                i <= n,
                forall|k: int| 0 <= k < nv@.len() ==> !(nv@[k] is CapAddPath),
            decreases n - i,
        {
            let is_ap = match &self.caps[i] {
                BgpCapability::CapAddPath(_) => true,
                _ => false,
            };
            if !is_ap {
                let c = cap_dup(&self.caps[i]);
                proof {
                    assert(!(c is CapAddPath)) by {
                        assert(cap_eq(c, self.caps@[i as int]));
                    }
                }
                nv.push(c);
            }
            i = i + 1;
        }
        self.caps = nv;
    }
}

/// Structurally equal capabilities are well formed together.
pub proof fn lemma_cap_eq_wf(a: BgpCapability, b: BgpCapability)
    requires
        cap_eq(a, b),
        wf_cap(b),
    ensures
        wf_cap(a),
{
}

/// Capability equality carries across a chain of two.
pub proof fn lemma_cap_eq_trans(a: BgpCapability, b: BgpCapability, c: BgpCapability)
    requires
        cap_eq(a, b),
    ensures
        cap_eq(b, c) ==> cap_eq(a, c),
        !cap_eq(b, c) ==> !cap_eq(a, c),
{
}

/// True when the run holds a four-octet AS capability.
fn caps_have_asn32(caps: &Vec<BgpCapability>) -> (r: bool)
    ensures
        r == has_asn32(caps@),
{
    let mut i: usize = 0;
    let n = caps.len();
    while i < n
        invariant
            n == caps@.len(),
            i <= n,
            forall|k: int| 0 <= k < i ==> !(caps@[k] is CapASN32),
        decreases n - i,
    {
        match &caps[i] {
            BgpCapability::CapASN32(_) => {
                return true;
            },
            _ => {},
        }
        i = i + 1;
    }
    false
}

/// The index of the first ADD-PATH capability in the run, if any.
fn find_addpath_list(caps: &Vec<BgpCapability>) -> (r: Option<usize>)
    ensures
        r matches Some(j) ==> j < caps@.len() && caps@[j as int] is CapAddPath,
        r is None ==> forall|k: int| 0 <= k < caps@.len() ==> !(caps@[k] is CapAddPath),
{
    let mut i: usize = 0;
    let n = caps.len();
    while i < n
        invariant
            n == caps@.len(),
            i <= n,
            forall|k: int| 0 <= k < i ==> !(caps@[k] is CapAddPath),
        decreases n - i,
    {
        match &caps[i] {
            BgpCapability::CapAddPath(_) => {
                return Some(i);
            },
            _ => {},
        }
        i = i + 1;
    }
    None
}

/// True when the run holds a capability structurally equal to the given
/// one.
fn caps_contain(caps: &Vec<BgpCapability>, cp: &BgpCapability) -> (r: bool)
    ensures
        r <==> exists|i: int| 0 <= i < caps@.len() && cap_eq(caps@[i], *cp),
{
    let mut i: usize = 0;
    let n = caps.len();
    while i < n
        invariant
            n == caps@.len(),
            i <= n,
            forall|k: int| 0 <= k < i ==> !cap_eq(caps@[k], *cp),
        decreases n - i,
    {
        if cap_same(&caps[i], cp) {
            return true;
        }
        i = i + 1;
    }
    false
}

/// The entries of `cvc` whose family is not listed in `vc`.
fn addpath_without(cvc: &Vec<BgpCapAddPath>, vc: &Vec<BgpCapAddPath>) -> (r: Vec<BgpCapAddPath>)
{
    let mut out: Vec<BgpCapAddPath> = Vec::new();
    let mut i: usize = 0;
    while i < cvc.len()
        invariant
            i <= cvc@.len(),
        decreases cvc@.len() - i,
    {
        let c = cvc[i];
        let mut hit = false;
        let mut j: usize = 0;
        while j < vc.len()
            invariant
                j <= vc@.len(),
            decreases vc@.len() - j,
        {
            if c == vc[j] {
                hit = true;
            }
            j = j + 1;
        }
        if !hit {
            out.push(c);
        }
        i = i + 1;
    }
    out
}

// ---------------------------------------------------------------------------
// BGP framing
// ---------------------------------------------------------------------------

/// Wire image of a frame header: sixteen marker octets of 0xff, the
/// two-octet length of the whole message, the message type code.
pub open spec fn frame_head_bytes(t: BgpMessageType, body_len: int) -> Seq<u8> {
    Seq::new(16, |i: int| 255u8) + u16_bytes((body_len + 19) as u16) + seq![msgtype_code(t)]
}

/// What the frame-head parser yields: the message kind and the body
/// length, or nothing on a short buffer, a marker byte that is not 0xff, an
/// unknown type code, or a length outside the nineteen-to-4096 range a BGP
/// message may have.
pub open spec fn frame_head_dec(s: Seq<u8>) -> Option<(BgpMessageType, int)> {
    if s.len() < 19 {
        None
    } else if exists|i: int| 0 <= i < 16 && s[i] != 255 {
        None
    } else {
        let lng = (s[16] as int) * 256 + (s[17] as int);
        if lng < 19 || lng > 4096 {
            None
        } else if s[18] == 1 {
            Some((BgpMessageType::Open, lng - 19))
        } else if s[18] == 2 {
            Some((BgpMessageType::Update, lng - 19))
        } else if s[18] == 3 {
            Some((BgpMessageType::Notification, lng - 19))
        } else if s[18] == 4 {
            Some((BgpMessageType::Keepalive, lng - 19))
        } else {
            None
        }
    }
}

impl BgpSessionParams {
    /// Parses a frame header: checks the marker, reads the length and the
    /// message kind, and returns the kind and the body length.
    pub fn decode_message_head(&self, buf: &[u8]) -> (r: Result<(BgpMessageType, usize), BgpError>)
        ensures
            r matches Ok((t, n)) ==> frame_head_dec(buf@) == Some((t, n as int)),
            r is Err ==> frame_head_dec(buf@) is None,
    {
        if buf.len() < 19 {
            return Err(BgpError::static_str("Invalid message header size!"));
        }
        let mut q: usize = 0;
        while q < 16
            invariant
                buf@.len() >= 19,
                q <= 16,
                forall|i: int| 0 <= i < q ==> buf@[i] == 255,
            decreases 16 - q,
        {
            if buf[q] != 255 {
                return Err(BgpError::static_str("Invalid header content, MD5 is not supported!"));
            }
            q = q + 1;
        }
        let lng: usize = (buf[16] as usize) * 256 + (buf[17] as usize);
        if lng < 19 || lng > 4096 {
            return Err(BgpError::static_str("Invalid message length"));
        }
        let messagetype = match BgpMessageType::decode_from(buf[18]) {
            Ok(t) => t,
            Err(e) => {
                return Err(e);
            },
        };
        Ok((messagetype, lng - 19))
    }

    /// Appends a frame header for a message of the given kind and body
    /// length; returns the total message length, the header included.
    pub fn prepare_message_buf(
        &self,
        buf: &mut Vec<u8>,
        messagetype: BgpMessageType,
        messagelen: usize,
    ) -> (r: Result<usize, BgpError>)
        ensures
            messagelen <= 65516 ==> (r matches Ok(n) && n == messagelen + 19 && final(buf)@ == old(
                buf,
            )@ + frame_head_bytes(messagetype, messagelen as int)),
            messagelen > 65516 ==> r is Err && final(buf)@ == old(buf)@,
    {
        if messagelen > 65516 {
            return Err(BgpError::too_many_data());
        }
        let mut q: usize = 0;
        while q < 16
            invariant
                q <= 16,
                buf@ == old(buf)@ + Seq::new(q as nat, |i: int| 255u8),
            decreases 16 - q,
        {
            buf.push(255);
            proof {
                assert(buf@ =~= old(buf)@ + Seq::new((q + 1) as nat, |i: int| 255u8));
            }
            q = q + 1;
        }
        let lng: u16 = (messagelen as u16) + 19;
        push_u16(buf, lng);
        buf.push(messagetype.encode());
        proof {
            assert(final(buf)@ =~= old(buf)@ + frame_head_bytes(messagetype, messagelen as int));
        }
        Ok(messagelen + 19)
    }
}

/// Round trip of the frame header: parsing the header written for a body
/// length and kind, with anything after it, yields that kind and length.
pub proof fn lemma_frame_round_trip(t: BgpMessageType, body_len: int, rest: Seq<u8>)
    requires
        0 <= body_len <= 4077,
    ensures
        frame_head_dec(frame_head_bytes(t, body_len) + rest) == Some((t, body_len)),
{
    let s = frame_head_bytes(t, body_len) + rest;
    let w: u16 = (body_len + 19) as u16;
    assert(s.len() >= 19);
    assert(forall|i: int| 0 <= i < 16 ==> s[i] == 255);
    assert(s[16] == ((w >> 8) & 0xff) as u8 && s[17] == (w & 0xff) as u8);
    assert((((w >> 8) & 0xff) as u8 as int) * 256 + ((w & 0xff) as u8 as int) == w as int)
        by (bit_vector);
    assert(s[18] == msgtype_code(t));
}

/// Copies a byte vector.
pub fn copy_bytes_vec(v: &Vec<u8>) -> (r: Vec<u8>)
    ensures
        r@ == v@,
{
    let mut r: Vec<u8> = Vec::new();
    let mut i: usize = 0;
    while i < v.len()
        invariant
            i <= v@.len(),
            r@ == v@.subrange(0, i as int),
        decreases v@.len() - i,
    {
        r.push(v[i]);
        proof {
            assert(r@ =~= v@.subrange(0, i + 1int));
        }
        i = i + 1;
    }
    proof {
        assert(r@ =~= v@);
    }
    r
}

} // verus!
