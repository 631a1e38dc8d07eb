//! The BGP KEEPALIVE message: an empty body behind the frame header.

use crate::error::BgpError;
use crate::BgpSessionParams;
use vstd::prelude::*;

verus! {

/// A BGP KEEPALIVE message: it carries nothing.
#[derive(Debug, Clone, Copy, PartialEq, Eq, Structural)]
pub struct BgpKeepaliveMessage {}

impl BgpKeepaliveMessage {
    /// Decodes the empty body: always succeeds.
    pub fn decode_from(&mut self, peer: &BgpSessionParams, buf: &[u8]) -> (r: Result<(), BgpError>)
        ensures
            r is Ok,
    {
        Ok(())
    }

    /// Encodes the empty body: nothing is appended.
    pub fn encode_to(&self, peer: &BgpSessionParams, buf: &mut Vec<u8>) -> (r: Result<
        usize,
        BgpError,
    >)
        ensures
            r matches Ok(n) && n == 0,
            final(buf)@ == old(buf)@,
    {
        Ok(0)
    }
}

} // verus!
