//! Errors of the protocol engine.
use vstd::prelude::*;

verus! {

/// Why an exchange with the device failed.
#[derive(Debug, PartialEq, Eq)]
pub enum UrgError {
    /// The stream ended before the reply was complete.
    ConnectionClosed,
    /// The echoed command differs from the one that was sent.
    EchoMismatch { sent: Vec<u8>, received: Vec<u8> },
    /// The status line differs from the status the command expects.
    StatusMismatch { command: Vec<u8>, expected: Vec<u8>, received: Vec<u8> },
    /// A field line is too short for its tag, or its value is no decimal
    /// numeral that fits in 32 bits.
    MalformedField { field: Vec<u8> },
    /// The timestamp line does not carry exactly four bytes.
    MalformedTimestamp { line: Vec<u8> },
    /// The data block is not a whole number of samples.
    MalformedBlock { len: usize, width: usize },
}

/// The mathematical value of an [`UrgError`].
pub ghost enum ErrorView {
    ConnectionClosed,
    EchoMismatch { sent: Seq<u8>, received: Seq<u8> },
    StatusMismatch { command: Seq<u8>, expected: Seq<u8>, received: Seq<u8> },
    MalformedField { field: Seq<u8> },
    MalformedTimestamp { line: Seq<u8> },
    MalformedBlock { len: nat, width: nat },
}

impl View for UrgError {
    type V = ErrorView;

    open spec fn view(&self) -> ErrorView {
        match self {
            UrgError::ConnectionClosed => ErrorView::ConnectionClosed,
            UrgError::EchoMismatch { sent, received } => ErrorView::EchoMismatch {
                sent: sent@,
                received: received@,
            },
            UrgError::StatusMismatch { command, expected, received } => ErrorView::StatusMismatch {
                command: command@,
                expected: expected@,
                received: received@,
            },
            UrgError::MalformedField { field } => ErrorView::MalformedField { field: field@ },
            UrgError::MalformedTimestamp { line } => ErrorView::MalformedTimestamp { line: line@ },
            UrgError::MalformedBlock { len, width } => ErrorView::MalformedBlock {
                len: *len as nat,
                width: *width as nat,
            },
        }
    }
}

} // verus!
