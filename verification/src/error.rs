//! The error taxonomy of the library: wire-format violations, terminal HTTP
//! statuses, and the umbrella error that a stream surfaces to its caller.

use vstd::prelude::*;

verus! {

/// A wire-format violation found while decoding a Merkle tree leaf or its
/// chain blob.
#[derive(Clone, Copy, Debug, PartialEq, Eq)]
pub enum LogError {
    /// The leaf's version byte was not 0.
    UnsupportedVersion(u8),
    /// The leaf's type byte was not 0.
    UnsupportedLeaf(u8),
    /// The leaf's entry type was neither 0 (X509) nor 1 (Precert).
    UnsupportedEntry(u16),
    /// A payload could not be parsed (certificate bytes, JSON envelope,
    /// base64 text).
    Parse(&'static str),
    /// A length-prefixed structure ran past the end of its buffer.
    BufferRead(&'static str),
}

/// An HTTP status outside the handled set (200, 429, and the soft 400):
/// terminal for the stream.
#[derive(Clone, Copy, Debug, PartialEq, Eq, Structural)]
pub enum ResponseError {
    /// A 4xx status other than 429 and 400.
    Client(u16),
    /// A 5xx status.
    Server(u16),
}

/// A failure to turn the configured base URL into an endpoint URL.
#[derive(Clone, Copy, Debug, PartialEq, Eq, Structural)]
pub enum UrlError {
    /// The base URL did not parse.
    Parse,
    /// The base URL cannot be a base (no path segments can be appended).
    CannotBeABase,
}

/// The umbrella error wrapping everything that can end a stream.
#[derive(Clone, Debug, PartialEq, Eq)]
pub enum StreamError {
    /// The base URL was rejected.
    Endpoint(UrlError),
    /// The transport failed (connection, TLS, body read).
    Request(String),
    /// The server answered with a terminal status.
    Response(ResponseError),
    /// The cooperative runtime could not be constructed.
    Runtime(String),
    /// A fetch task panicked or was aborted abnormally.
    Task(String),
    /// An entry violated the wire format.
    Log(LogError),
}

} // verus!
