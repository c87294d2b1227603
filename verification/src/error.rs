//! What can go wrong.

use vstd::prelude::*;

verus! {

/// An error of the transport, as far as the client tells them apart.
#[derive(Debug)]
pub enum TransportError {
    /// A key update cannot be started yet.
    KeyUpdateBlocked,
    /// The peer allows no further stream for now.
    StreamLimitError,
    /// The connection is in no state for what was asked.
    ConnectionState,
    /// Any other, in words.
    Other(String),
}

/// An error of the HTTP/3 layer, as far as the client tells them apart.
#[derive(Debug)]
pub enum Http3Error {
    /// The transport below failed.
    TransportError(TransportError),
    /// The peer allows no further request for now.
    StreamLimitError,
    /// The connection takes no requests for now.
    Unavailable,
    /// Any other, in words.
    Other(String),
}

/// The kinds of input and output errors that the client tells apart.
#[derive(Debug, Clone, Copy, PartialEq, Eq, Structural)]
pub enum IoErrorKind {
    /// The operation would have to wait.
    WouldBlock,
    /// The operation was interrupted.
    Interrupted,
    /// Any other.
    Other,
}

/// An input or output error.
#[derive(Debug)]
pub struct IoError {
    /// Its kind.
    pub kind: IoErrorKind,
    /// The error in words.
    pub text: String,
}

/// An error of the client.
#[derive(Debug)]
pub enum ClientError {
    /// An argument has no meaning.
    ArgumentError(&'static str),
    /// The HTTP/3 layer failed.
    Http3Error(Http3Error),
    /// Input or output failed.
    IoError(IoError),
    /// The connection's log could not be kept.
    QlogError,
    /// The transport failed.
    TransportError(TransportError),
}

/// `qlog::Error`, which is carried and never looked into.
#[verifier::external_type_specification]
#[verifier::external_body]
pub struct ExQlogError(qlog::Error);

impl From<IoError> for ClientError {
    fn from(err: IoError) -> (r: Self) {
        ClientError::IoError(err)
    }
}

impl vstd::std_specs::convert::FromSpecImpl<IoError> for ClientError {
    open spec fn obeys_from_spec() -> bool {
        true
    }

    open spec fn from_spec(err: IoError) -> Self {
        ClientError::IoError(err)
    }
}

impl From<Http3Error> for ClientError {
    fn from(err: Http3Error) -> (r: Self) {
        ClientError::Http3Error(err)
    }
}

impl vstd::std_specs::convert::FromSpecImpl<Http3Error> for ClientError {
    open spec fn obeys_from_spec() -> bool {
        true
    }

    open spec fn from_spec(err: Http3Error) -> Self {
        ClientError::Http3Error(err)
    }
}

impl From<qlog::Error> for ClientError {
    fn from(_err: qlog::Error) -> (r: Self) {
        ClientError::QlogError
    }
}

impl vstd::std_specs::convert::FromSpecImpl<qlog::Error> for ClientError {
    open spec fn obeys_from_spec() -> bool {
        true
    }

    open spec fn from_spec(_err: qlog::Error) -> Self {
        ClientError::QlogError
    }
}

impl From<TransportError> for ClientError {
    fn from(err: TransportError) -> (r: Self) {
        ClientError::TransportError(err)
    }
}

impl vstd::std_specs::convert::FromSpecImpl<TransportError> for ClientError {
    open spec fn obeys_from_spec() -> bool {
        true
    }

    open spec fn from_spec(err: TransportError) -> Self {
        ClientError::TransportError(err)
    }
}

} // verus!
