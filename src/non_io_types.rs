//! The types that describe a request independently of any I/O: how a request
//! writer frames its bytes, how a request ends, and the errors of the client,
//! each of which can say whether it is worth retrying.

use vstd::prelude::*;

use crate::capabilities;
use crate::packetline;

verus! {

/// How a request writer frames the bytes of each write call.
#[derive(PartialEq, Eq, Debug, Hash, Ord, PartialOrd, Clone, Copy, Structural)]
pub enum WriteMode {
    /// The bytes are written verbatim as one or more frames of the largest size.
    /// Suited to streams whose size is not known in advance, such as packs.
    Binary,
    /// The bytes are taken as one line of text: a trailing line feed is assured and
    /// the line is written as a single frame. The whole request is then known to fit
    /// in memory, which some transports need.
    OneLfTerminatedLinePerWriteCall,
}

impl Default for WriteMode {
    fn default() -> (r: Self)
        ensures
            r == WriteMode::OneLfTerminatedLinePerWriteCall,
    {
        WriteMode::OneLfTerminatedLinePerWriteCall
    }
}

/// What a request writer writes last, when it turns into a response reader.
#[derive(PartialEq, Eq, Debug, Hash, Ord, PartialOrd, Clone, Copy)]
pub enum MessageKind {
    /// A flush frame.
    Flush,
    /// A delimiter frame (protocol version 2).
    Delimiter,
    /// A response-end frame (protocol version 2).
    ResponseEnd,
    /// A data frame holding the given text and a line feed.
    Text(&'static [u8]),
}

/// The kind of a failed I/O operation, as the operating system reports it.
#[derive(PartialEq, Eq, Debug, Hash, Clone, Copy, Structural)]
pub enum IoErrorKind {
    NotFound,
    PermissionDenied,
    ConnectionRefused,
    ConnectionReset,
    ConnectionAborted,
    NotConnected,
    AddrInUse,
    AddrNotAvailable,
    BrokenPipe,
    AlreadyExists,
    WouldBlock,
    InvalidInput,
    InvalidData,
    TimedOut,
    WriteZero,
    Interrupted,
    Unsupported,
    UnexpectedEof,
    OutOfMemory,
    Other,
}

impl IoErrorKind {
    /// Failures of the connection itself, which a new attempt may not meet again.
    pub open spec fn spurious(self) -> bool {
        match self {
            IoErrorKind::ConnectionRefused | IoErrorKind::ConnectionReset
            | IoErrorKind::ConnectionAborted | IoErrorKind::NotConnected
            | IoErrorKind::AddrNotAvailable | IoErrorKind::BrokenPipe | IoErrorKind::TimedOut
            | IoErrorKind::Interrupted | IoErrorKind::UnexpectedEof => true,
            _ => false,
        }
    }

    /// Whether an I/O failure of this kind is worth retrying.
    pub fn is_spurious(&self) -> (r: bool)
        ensures
            r == self.spurious(),
    {
        match self {
            IoErrorKind::ConnectionRefused | IoErrorKind::ConnectionReset
            | IoErrorKind::ConnectionAborted | IoErrorKind::NotConnected
            | IoErrorKind::AddrNotAvailable | IoErrorKind::BrokenPipe | IoErrorKind::TimedOut
            | IoErrorKind::Interrupted | IoErrorKind::UnexpectedEof => true,
            _ => false,
        }
    }
}

/// The errors of the HTTP backend.
#[derive(Debug, Clone, PartialEq, Eq)]
pub enum HttpError {
    /// The server or the client library described a failure.
    Detail { description: String },
    /// Sending the request body failed.
    PostBody(IoErrorKind),
    /// The HTTP client could not be set up.
    InitHttpClient { description: String },
}

impl HttpError {
    /// Only a failed transfer of the body is worth retrying, as its I/O error says.
    pub open spec fn spurious(&self) -> bool {
        match self {
            HttpError::PostBody(kind) => kind.spurious(),
            _ => false,
        }
    }

    /// Whether this failure is worth retrying.
    pub fn is_spurious(&self) -> (r: bool)
        ensures
            r == self.spurious(),
    {
        match self {
            HttpError::PostBody(kind) => kind.is_spurious(),
            _ => false,
        }
    }
}

/// The error of most operations of the client.
#[allow(inconsistent_fields)]
#[derive(Debug, Clone, PartialEq, Eq)]
pub enum Error {
    /// Talking to the server failed.
    Io(IoErrorKind),
    /// The capability advertisement could not be parsed.
    Capabilities { err: capabilities::Error },
    /// A frame could not be decoded.
    LineDecode { err: packetline::DecodeError },
    /// A line of the given name was required, and there was none.
    ExpectedLine(&'static str),
    /// A data frame was required, and a control frame came.
    ExpectedDataLine,
    /// The transport cannot authenticate.
    AuthenticationUnsupported,
    /// The transport refuses the given identity, for the given reason.
    AuthenticationRefused(&'static str),
    /// The server announced a protocol version that is not supported.
    UnsupportedProtocolVersion(Vec<u8>),
    /// The HTTP backend failed.
    Http(HttpError),
}

impl Error {
    /// I/O and HTTP failures are classified by their cause; all others are permanent.
    pub open spec fn spurious(&self) -> bool {
        match self {
            Error::Io(kind) => kind.spurious(),
            Error::Http(err) => err.spurious(),
            _ => false,
        }
    }

    /// Whether this failure is worth retrying.
    pub fn is_spurious(&self) -> (r: bool)
        ensures
            r == self.spurious(),
    {
        match self {
            Error::Io(kind) => kind.is_spurious(),
            Error::Http(err) => err.is_spurious(),
            _ => false,
        }
    }
}

} // verus!
