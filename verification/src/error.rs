//! The error taxonomy shared by every component.

use crate::text::{decimal, u8_to_string};
use vstd::prelude::*;
use vstd::string::StringExecFns;

verus! {

/// Everything that can go wrong in the control plane.
///
/// The variants that stand for a failure of the file system, of a socket or of
/// the JSON codec carry the text of that failure.
#[derive(Debug, PartialEq, Eq)]
pub enum NotecognitoError {
    /// Filesystem or socket I/O failure.
    Io(String),
    /// Serialization or deserialization failure.
    Json(String),
    /// Validation failure.
    Config(String),
    /// Protocol-level failure beyond framing.
    Ipc(String),
    /// An id outside `1..=9`.
    InvalidNotecardId(u8),
    /// Failure reported by a platform collaborator.
    Platform(String),
    /// The peer closed the connection or cannot be reached.
    ConnectionLost,
    /// Framing or schema violation on the wire.
    InvalidMessage,
    /// Refusal by an operating-system permission check.
    PermissionDenied(String),
}

/// The mathematical value of a [`NotecognitoError`].
pub enum ErrorView {
    Io(Seq<char>),
    Json(Seq<char>),
    Config(Seq<char>),
    Ipc(Seq<char>),
    InvalidNotecardId(u8),
    Platform(Seq<char>),
    ConnectionLost,
    InvalidMessage,
    PermissionDenied(Seq<char>),
}

impl ErrorView {
    /// The text a user sees for this error.
    pub open spec fn message(self) -> Seq<char> {
        match self {
            ErrorView::Io(m) => "IO error: "@ + m,
            ErrorView::Json(m) => "JSON serialization error: "@ + m,
            ErrorView::Config(m) => "Configuration error: "@ + m,
            ErrorView::Ipc(m) => "IPC error: "@ + m,
            ErrorView::InvalidNotecardId(id) => "Invalid notecard ID: "@ + decimal(id as nat),
            ErrorView::Platform(m) => "Platform-specific error: "@ + m,
            ErrorView::ConnectionLost => "Connection lost"@,
            ErrorView::InvalidMessage => "Invalid message format"@,
            ErrorView::PermissionDenied(m) => "Permission denied: "@ + m,
        }
    }
}

impl View for NotecognitoError {
    type V = ErrorView;

    open spec fn view(&self) -> ErrorView {
        match *self {
            NotecognitoError::Io(m) => ErrorView::Io(m@),
            NotecognitoError::Json(m) => ErrorView::Json(m@),
            NotecognitoError::Config(m) => ErrorView::Config(m@),
            NotecognitoError::Ipc(m) => ErrorView::Ipc(m@),
            NotecognitoError::InvalidNotecardId(id) => ErrorView::InvalidNotecardId(id),
            NotecognitoError::Platform(m) => ErrorView::Platform(m@),
            NotecognitoError::ConnectionLost => ErrorView::ConnectionLost,
            NotecognitoError::InvalidMessage => ErrorView::InvalidMessage,
            NotecognitoError::PermissionDenied(m) => ErrorView::PermissionDenied(m@),
        }
    }
}

impl NotecognitoError {
    /// Renders the error as the text a user sees.
    pub fn to_string(&self) -> (s: String)
        ensures
            s@ == self@.message(),
    {
        match self {
            NotecognitoError::Io(m) => String::from_str("IO error: ").concat(m.as_str()),
            NotecognitoError::Json(m) => String::from_str("JSON serialization error: ").concat(
                m.as_str(),
            ),
            NotecognitoError::Config(m) => String::from_str("Configuration error: ").concat(
                m.as_str(),
            ),
            NotecognitoError::Ipc(m) => String::from_str("IPC error: ").concat(m.as_str()),
            NotecognitoError::InvalidNotecardId(id) => {
                let digits = u8_to_string(*id);
                String::from_str("Invalid notecard ID: ").concat(digits.as_str())
            },
            NotecognitoError::Platform(m) => String::from_str("Platform-specific error: ").concat(
                m.as_str(),
            ),
            NotecognitoError::ConnectionLost => String::from_str("Connection lost"),
            NotecognitoError::InvalidMessage => String::from_str("Invalid message format"),
            NotecognitoError::PermissionDenied(m) => String::from_str("Permission denied: ").concat(
                m.as_str(),
            ),
        }
    }
}

} // verus!
