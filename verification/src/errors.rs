//! The closed set of failures that reader and card operations surface.

use vstd::prelude::*;
use vstd::std_specs::convert::FromSpecImpl;
use vstd::string::StringExecFns;

verus! {

/// A failure reported by the transport layer, carried as the raw PC/SC status
/// code so that it can be handed on unchanged.
#[derive(Clone, Copy, Debug, PartialEq, Eq, Structural)]
pub struct TransportError {
    pub code: u32,
}

/// Every way in which selecting a reader or reading a card can fail.
#[derive(Clone, Debug, PartialEq, Eq)]
pub enum ReaderError {
    /// Enumeration returned no reader at all.
    NoReadersFound,
    /// The first reader is not of the supported model; carries its name.
    UnsupportedReader(String),
    /// The answer-to-reset matched no profile with read support.
    UnsupportedCardType,
    /// The transport failed; carries what it reported.
    TransportError(TransportError),
    /// The authenticate command was answered with anything but success.
    AuthenticationFailed,
    /// The read command was answered with anything but success.
    ReadFailed,
    /// The reader name cannot be put into the transport's string form.
    InvalidReaderName,
}

impl ReaderError {
    /// The text that describes this failure.
    pub open spec fn message_spec(&self) -> Seq<char> {
        match self {
            ReaderError::NoReadersFound => "No readers found"@,
            ReaderError::UnsupportedReader(name) => "Unsupported reader: "@ + name@,
            ReaderError::UnsupportedCardType => "Card error: unsupported card type"@,
            ReaderError::TransportError(_) => "PCSC error"@,
            ReaderError::AuthenticationFailed => "Card error: authentication failed"@,
            ReaderError::ReadFailed => "Card error: read failed"@,
            ReaderError::InvalidReaderName => "Invalid reader name"@,
        }
    }

    /// Renders the failure for display to a person.
    pub fn message(&self) -> (text: String)
        ensures
            text@ == self.message_spec(),
    {
        match self {
            ReaderError::NoReadersFound => String::from_str("No readers found"),
            ReaderError::UnsupportedReader(name) => {
                String::from_str("Unsupported reader: ").concat(name.as_str())
            },
            ReaderError::UnsupportedCardType => String::from_str("Card error: unsupported card type"),
            ReaderError::TransportError(_) => String::from_str("PCSC error"),
            ReaderError::AuthenticationFailed => String::from_str("Card error: authentication failed"),
            ReaderError::ReadFailed => String::from_str("Card error: read failed"),
            ReaderError::InvalidReaderName => String::from_str("Invalid reader name"),
        }
    }
}

impl From<TransportError> for ReaderError {
    fn from(err: TransportError) -> (res: ReaderError) {
        ReaderError::TransportError(err)
    }
}

impl FromSpecImpl<TransportError> for ReaderError {
    open spec fn obeys_from_spec() -> bool {
        true
    }

    open spec fn from_spec(err: TransportError) -> ReaderError {
        ReaderError::TransportError(err)
    }
}

} // verus!
