//! The errors of the channel manager.
use vstd::prelude::*;

verus! {

/// Why a received message was refused while it was being read.
#[derive(Debug, Clone, Copy, PartialEq, Eq)]
pub enum DecodeError {
    /// A fixed part of `expected` bytes was due, and only `received` were left.
    NotEnoughBytes { received: usize, expected: usize },
    /// The command code in the header is none that the protocol knows.
    InvalidCmd,
    /// The command is known, but no client sends it on this channel.
    UnsupportedCmd { cmd: u8 },
    /// The header announces an integer of a width that does not exist.
    InvalidFieldType,
    /// The capability version is none that the protocol knows.
    InvalidVersion,
    /// No dynamic channel has the identifier that the message names.
    InvalidChannelId,
    /// The blocks of one message would not fit in memory.
    MessageOverflow,
}

/// Why a message could not be written.
#[derive(Debug, Clone, Copy, PartialEq, Eq)]
pub enum EncodeError {
    /// The message has more bytes than its length field can count.
    MessageTooLong,
}

/// Why a request to the channel manager failed.
#[derive(Debug, Clone, PartialEq, Eq)]
pub enum PduError {
    /// A received message could not be read, or names an unknown channel.
    Decode(DecodeError),
    /// An answer could not be written.
    Encode(EncodeError),
    /// The capability request was sent before.
    AlreadyStarted,
    /// A capability response came when none was due.
    UnexpectedCapabilityResponse,
    /// The client answered with a capability version that is not accepted.
    UnsupportedCapabilityVersion,
    /// A create response came before the capabilities were agreed on.
    UnexpectedCreateResponse,
    /// The channel is not in the state that the message asks for.
    InvalidChannelState,
    /// A channel processor gave up.
    Processor { description: String },
}

impl PduError {
    /// The text that describes the error.
    pub open spec fn text(self) -> Seq<char> {
        match self {
            PduError::Decode(_) => "decode error"@,
            PduError::Encode(_) => "encode error"@,
            PduError::AlreadyStarted => "DRDYNVC capability negotiation already started"@,
            PduError::UnexpectedCapabilityResponse => "unexpected DRDYNVC capability response"@,
            PduError::UnsupportedCapabilityVersion => "unsupported DRDYNVC capability version"@,
            PduError::UnexpectedCreateResponse =>
                "DVC create response before capability negotiation"@,
            PduError::InvalidChannelState => "invalid channel state"@,
            PduError::Processor { description } => description@,
        }
    }

    /// The text of an error of the manager's own.
    pub fn fixed_description(&self) -> (r: Option<&'static str>)
        ensures
            r is None <==> self is Processor,
            r matches Some(text) ==> text@ == self.text(),
    {
        match self {
            PduError::Decode(_) => Some("decode error"),
            PduError::Encode(_) => Some("encode error"),
            PduError::AlreadyStarted => Some("DRDYNVC capability negotiation already started"),
            PduError::UnexpectedCapabilityResponse => Some("unexpected DRDYNVC capability response"),
            PduError::UnsupportedCapabilityVersion => Some("unsupported DRDYNVC capability version"),
            PduError::UnexpectedCreateResponse => Some(
                "DVC create response before capability negotiation",
            ),
            PduError::InvalidChannelState => Some("invalid channel state"),
            PduError::Processor { .. } => None,
        }
    }

    /// Describes the error in a few words.
    pub fn description(&self) -> (r: &str)
        ensures
            r@ == self.text(),
    {
        match self {
            PduError::Processor { description } => description.as_str(),
            _ => self.fixed_description().unwrap(),
        }
    }
}

/// A result with its value replaced by the value's model.
pub open spec fn result_view<T: View, E>(r: Result<T, E>) -> Result<T::V, E> {
    match r {
        Ok(t) => Ok(t@),
        Err(e) => Err(e),
    }
}

} // verus!
