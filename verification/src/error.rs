use vstd::prelude::*;

verus! {

/// Library error value. Every fallible codec operation returns
/// `Result<_, BgpError>`; decoders never panic.
#[derive(Debug, Clone, PartialEq, Eq)]
pub enum BgpError {
    /// A fixed diagnostic message.
    Static(&'static str),
    /// A decoder needed more bytes than were supplied.
    InsufficientBufferSize,
    /// A structurally invalid message.
    ProtocolError,
    /// A value exceeds what an on-wire length field can carry.
    TooManyData,
    /// A dynamically built diagnostic message.
    DynStr(String),
}

impl BgpError {
    /// Wraps a fixed diagnostic message.
    pub fn static_str(ms: &'static str) -> (r: BgpError)
        ensures
            r == BgpError::Static(ms),
    {
        BgpError::Static(ms)
    }

    /// Wraps an owned diagnostic message.
    pub fn from_string(s: String) -> (r: BgpError)
        ensures
            r == BgpError::DynStr(s),
    {
        BgpError::DynStr(s)
    }

    /// Says that the supplied buffer is too small.
    pub fn insufficient_buffer_size() -> (r: BgpError)
        ensures
            r == BgpError::InsufficientBufferSize,
    {
        BgpError::InsufficientBufferSize
    }

    /// Says that the message is structurally invalid.
    pub fn protocol_error() -> (r: BgpError)
        ensures
            r == BgpError::ProtocolError,
    {
        BgpError::ProtocolError
    }

    /// Says that a value is too big to be encoded.
    pub fn too_many_data() -> (r: BgpError)
        ensures
            r == BgpError::TooManyData,
    {
        BgpError::TooManyData
    }
}

} // verus!
