//! Error taxonomy of the library: input errors, fetch errors and
//! index-encoding errors, each a closed sum type.

use vstd::prelude::*;

verus! {

/// Why a collection identifier string was rejected.
#[derive(Clone, Copy, Debug, PartialEq, Eq, Structural)]
pub enum ParseError {
    /// The input was empty after trimming whitespace.
    EmptyInput,
    /// A numeric field did not fit in `u32`.
    NotNumeric,
    /// The input was neither numeric nor a well-formed URL.
    MalformedUrl,
    /// The URL points at a different host than the catalog site.
    InvalidHost,
    /// The URL does not use the secure scheme.
    InsecureScheme,
    /// The URL path is not of the form `/collections/<id>`.
    InvalidPath,
}

/// The transport-level failure classes the engine distinguishes.
#[derive(Clone, Copy, Debug, PartialEq, Eq, Structural)]
pub enum TransportKind {
    /// The request timed out.
    Timeout,
    /// The connection could not be established.
    Connect,
    /// Any other transport failure (DNS, TLS, protocol).
    Other,
}

/// Why fetching the collection metadata failed.
#[derive(Clone, Copy, Debug, PartialEq, Eq, Structural)]
pub enum FetchError {
    /// HTTP 404: the collection id does not exist.
    NotFound(u32),
    /// HTTP 429: the catalog rate-limited the client.
    RateLimited,
    /// Any other non-success HTTP status.
    HttpError(u16),
    /// A success status whose body did not deserialize.
    MalformedResponse,
    /// A transport-level failure; the only retryable class.
    Transport(TransportKind),
}

impl FetchError {
    /// Only transport-level failures are retried.
    pub open spec fn spec_is_retryable(self) -> bool {
        self is Transport
    }

    /// Returns whether the retry policy may try again after this error.
    pub fn is_retryable(&self) -> (r: bool)
        ensures
            r == self.spec_is_retryable(),
    {
        match self {
            FetchError::Transport(_) => true,
            _ => false,
        }
    }
}

/// Why the configuration was rejected.
#[derive(Clone, Copy, Debug, PartialEq, Eq, Structural)]
pub enum ConfigError {
    /// The mirror URL template has no `{id}` placeholder.
    MissingIdToken,
    /// The mirror URL does not start with `http://` or `https://`.
    BadScheme,
    /// The concurrency level is zero.
    ZeroConcurrency,
    /// Both auto-overwrite and skip-existing were requested.
    ConflictingFlags,
}

/// Why the binary index could not be encoded.
#[derive(Clone, Copy, Debug, PartialEq, Eq, Structural)]
pub enum IndexError {
    /// The format requires a non-empty collection name.
    EmptyName,
}

} // verus!
