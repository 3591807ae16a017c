//! What can go wrong in an exchange with a device.

use vstd::prelude::*;

verus! {

/// The ways an exchange fails on the client's side. A device that answers
/// with a return code has not failed in this sense: its answer is a payload.
#[derive(Debug, Clone, PartialEq, Eq)]
pub enum Error {
    /// The header is cut short or the payload is not of the shape asked for.
    MalformedFrame,
    /// The payload is longer than a frame's length field can say.
    PayloadTooLarge,
    /// No response came within the configured time.
    Timeout,
    /// The channel reported a fault; the text is its cause.
    TransportFailure(String),
}

impl Error {
    /// A short description, with the cause of a transport failure.
    pub fn message(&self) -> (text: String)
        ensures
            self is MalformedFrame ==> text@ == "malformed frame"@,
            self is PayloadTooLarge ==> text@ == "payload too large"@,
            self is Timeout ==> text@ == "timeout"@,
            self matches Error::TransportFailure(cause) ==> text@ == "transport failure: "@
                + cause@,
    {
        match self {
            Error::MalformedFrame => "malformed frame".to_owned(),
            Error::PayloadTooLarge => "payload too large".to_owned(),
            Error::Timeout => "timeout".to_owned(),
            Error::TransportFailure(cause) => {
                let mut text = "transport failure: ".to_owned();
                text.append(cause.as_str());
                text
            },
        }
    }
}

} // verus!
