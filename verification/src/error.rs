//! The failures that the library reports.

use vstd::prelude::*;

verus! {

/// A failure surfaced to the caller. Checksum mismatches and reads that hold
/// no frame are not failures: they show in the snapshot's `valid` flag and in
/// an unchanged snapshot.
#[derive(Debug, Clone, PartialEq, Eq)]
pub enum ErrorKind {
    /// An operation was attempted with no open transport.
    TransportNotConnected,
    /// The transport failed to read; carries the transport's message.
    TransportReadError(String),
    /// The transport failed to write; carries the transport's message.
    TransportWriteError(String),
    /// The firmware image could not be loaded; carries the reason.
    FirmwareFileError(String),
}

impl ErrorKind {
    /// The text carried by this error, as a mathematical string.
    pub open spec fn text(self) -> Seq<char> {
        match self {
            ErrorKind::TransportNotConnected => "Serial port not connected"@,
            ErrorKind::TransportReadError(m) => m@,
            ErrorKind::TransportWriteError(m) => m@,
            ErrorKind::FirmwareFileError(m) => m@,
        }
    }

    /// A human-readable message for this error.
    pub fn message(&self) -> (message: String)
        ensures
            message@ == self.text(),
    {
        match self {
            ErrorKind::TransportNotConnected => "Serial port not connected".to_string(),
            ErrorKind::TransportReadError(m) => m.clone(),
            ErrorKind::TransportWriteError(m) => m.clone(),
            ErrorKind::FirmwareFileError(m) => m.clone(),
        }
    }
}

} // verus!
