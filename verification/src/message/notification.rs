//! The BGP NOTIFICATION message: an error code, a subcode and two octets
//! of data.

use crate::error::BgpError;
use crate::util::{push_u16, u16_bytes};
use crate::BgpSessionParams;
use vstd::prelude::*;

verus! {

/// A BGP NOTIFICATION message.
#[derive(Debug, Clone, Copy, PartialEq, Eq, Structural, PartialOrd, Ord, Hash)]
pub struct BgpNotificationMessage {
    /// error code
    pub error_code: u8,
    /// error subcode
    pub error_subcode: u8,
    /// extra data
    pub data: u16,
}

impl BgpNotificationMessage {
    /// Builds an empty message.
    pub fn new() -> (r: BgpNotificationMessage)
        ensures
            r.error_code == 0,
            r.error_subcode == 0,
            r.data == 0,
    {
        BgpNotificationMessage { error_code: 0, error_subcode: 0, data: 0 }
    }

    /// Decodes a NOTIFICATION body: code, subcode and up to two data
    /// octets.
    pub fn decode_from(&mut self, peer: &BgpSessionParams, buf: &[u8]) -> (r: Result<(), BgpError>)
        ensures
            buf@.len() >= 2 ==> r is Ok,
            buf@.len() >= 2 ==> final(self).error_code == buf@[0],
            buf@.len() >= 2 ==> final(self).error_subcode == buf@[1],
            buf@.len() < 2 ==> r is Err && *final(self) == *old(self),
    {
        if buf.len() < 2 {
            return Err(BgpError::static_str("Invalid notification message length"));
        }
        self.error_code = buf[0];
        self.error_subcode = buf[1];
        if buf.len() == 3 {
            self.data = buf[2] as u16;
        }
        if buf.len() > 3 {
            self.data = ((buf[2] as u16) << 8) | (buf[3] as u16);
        }
        Ok(())
    }

    /// Encodes a NOTIFICATION body: code, subcode and the two data octets.
    pub fn encode_to(&self, peer: &BgpSessionParams, buf: &mut Vec<u8>) -> (r: Result<
        usize,
        BgpError,
    >)
        ensures
            r matches Ok(n) && n == 4,
            final(buf)@ == old(buf)@ + seq![self.error_code, self.error_subcode] + u16_bytes(
                self.data,
            ),
    {
        buf.push(self.error_code);
        buf.push(self.error_subcode);
        push_u16(buf, self.data);
        proof {
            assert(final(buf)@ =~= old(buf)@ + seq![self.error_code, self.error_subcode]
                + u16_bytes(self.data));
        }
        Ok(4)
    }

    /// A human-readable reading of the error code and subcode.
    pub fn error_text(&self) -> (r: &'static str) {
        if self.error_code == 1 {
            if self.error_subcode == 1 {
                "Message Header Error: Connection not synchronized"
            } else if self.error_subcode == 2 {
                "Message Header Error: Bad Message Length"
            } else if self.error_subcode == 3 {
                "Message Header Error: Bad Message Type"
            } else {
                "Message Header Error"
            }
        } else if self.error_code == 2 {
            if self.error_subcode == 1 {
                "OPEN Message Error: Unsupported Version Number"
            } else if self.error_subcode == 2 {
                "OPEN Message Error: Bad Peer AS"
            } else if self.error_subcode == 3 {
                "OPEN Message Error: Bad BGP Identifier"
            } else if self.error_subcode == 4 {
                "OPEN Message Error: Unsupported Optional Parameter"
            } else if self.error_subcode == 6 {
                "OPEN Message Error: Unacceptable Hold Time"
            } else {
                "OPEN Message Error"
            }
        } else if self.error_code == 3 {
            if self.error_subcode == 1 {
                "Update Message Error: Malformed Attribute List"
            } else if self.error_subcode == 2 {
                "Update Message Error: Unrecognized Well-known Attribute"
            } else if self.error_subcode == 3 {
                "Update Message Error: Missing Well-known Attribute"
            } else if self.error_subcode == 4 {
                "Update Message Error: Attribute Flags Error"
            } else if self.error_subcode == 5 {
                "Update Message Error: Attribute Length Error"
            } else if self.error_subcode == 6 {
                "Update Message Error: Invalid ORIGIN Attribute"
            } else if self.error_subcode == 8 {
                "Update Message Error: Invalid NEXT_HOP Attribute"
            } else if self.error_subcode == 9 {
                "Update Message Error: Optional Attribute Error"
            } else if self.error_subcode == 10 {
                "Update Message Error: Invalid Network Field"
            } else if self.error_subcode == 11 {
                "Update Message Error: Malformed AS_PATH"
            } else {
                "Update Message Error"
            }
        } else if self.error_code == 4 {
            "Hold Timer Expired"
        } else if self.error_code == 5 {
            "Finite State Machine Error"
        } else if self.error_code == 6 {
            "Cease"
        } else {
            "Unknown code"
        }
    }
}

} // verus!
