//! BGP messages: OPEN, UPDATE, NOTIFICATION, KEEPALIVE.

use crate::error::BgpError;
use vstd::prelude::*;

pub mod attributes;
pub mod keepalive;
pub mod notification;
pub mod open;
pub mod update;

verus! {

/// The BGP message kind carried in the frame header.
#[derive(Debug, Clone, Copy, PartialEq, Eq, Structural)]
pub enum BgpMessageType {
    Open,
    Update,
    Notification,
    Keepalive,
}

/// The header code of each message kind.
pub open spec fn msgtype_code(t: BgpMessageType) -> u8 {
    match t {
        BgpMessageType::Open => 1,
        BgpMessageType::Update => 2,
        BgpMessageType::Notification => 3,
        BgpMessageType::Keepalive => 4,
    }
}

impl BgpMessageType {
    /// Decodes a message kind from its header code; codes above four are
    /// rejected.
    pub fn decode_from(code: u8) -> (r: Result<BgpMessageType, BgpError>)
        ensures
            1 <= code <= 4 ==> (r matches Ok(t) && msgtype_code(t) == code),
            code < 1 || code > 4 ==> r is Err,
    {
        match code {
            1 => Ok(BgpMessageType::Open),
            2 => Ok(BgpMessageType::Update),
            3 => Ok(BgpMessageType::Notification),
            4 => Ok(BgpMessageType::Keepalive),
            _ => Err(BgpError::static_str("Invalid message type")),
        }
    }

    /// The header code of this message kind.
    pub fn encode(&self) -> (r: u8)
        ensures
            r == msgtype_code(*self),
    {
        match self {
            BgpMessageType::Open => 1,
            BgpMessageType::Update => 2,
            BgpMessageType::Notification => 3,
            BgpMessageType::Keepalive => 4,
        }
    }
}

} // verus!
