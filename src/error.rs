//! The closed set of ways a negotiation attempt can fail.

use vstd::prelude::*;

verus! {

broadcast use vstd::string::group_string_axioms;

/// Errors of the transport and of the connections it sets up. Every one of
/// them ends the current dial attempt; none is retried here.
#[derive(Debug, Clone, PartialEq, Eq)]
pub enum Error {
    /// The target's address is malformed or names an unknown hash algorithm.
    InvalidMultiaddr(&'static str),
    /// A lower-layer WebRTC utility failed; holds its message.
    Utils(String),
    /// The host engine reported an error; holds its message.
    JsError(String),
    /// A value from the host engine did not have the expected shape.
    JsCastFailed,
    /// The peer's certificate does not match the expected fingerprint.
    UnknownRemotePeerId,
    /// The host engine's connection failed; holds its message.
    Connection(String),
}

/// The message given for a host-engine error that carries no text.
pub open spec fn unknown_error_text() -> Seq<char> {
    seq!['U', 'n', 'k', 'n', 'o', 'w', 'n', ' ', 'e', 'r', 'r', 'o', 'r']
}

/// The human-readable message of each error kind.
pub open spec fn error_message(e: Error) -> Seq<char> {
    match e {
        Error::InvalidMultiaddr(reason) => "Invalid multiaddr: "@ + reason@,
        Error::Utils(_) => "WebRTC Utilities failure"@,
        Error::JsError(m) => "JavaScript error: "@ + m@,
        Error::JsCastFailed => "JavaScript typecasting failed"@,
        Error::UnknownRemotePeerId => "Unknown remote peer ID"@,
        Error::Connection(m) => "Connection error: "@ + m@,
    }
}

impl Error {
    /// The error for a value that the host engine threw: its message when it
    /// had one as text, `Unknown error` otherwise.
    pub fn from_js_message(message: Option<String>) -> (r: Error)
        ensures
            r matches Error::JsError(m) && m@ == match message {
                Some(t) => t@,
                None => unknown_error_text(),
            },
    {
        match message {
            Some(m) => Error::JsError(m),
            None => {
                proof {
                    reveal_strlit("Unknown error");
                }
                let m = String::from_str("Unknown error");
                assert(m@ =~= unknown_error_text());
                Error::JsError(m)
            },
        }
    }

    /// The human-readable message of this error.
    pub fn message(&self) -> (r: String)
        ensures
            r@ == error_message(*self),
    {
        match self {
            Error::InvalidMultiaddr(reason) => {
                let r = String::from_str("Invalid multiaddr: ");
                r.concat(reason)
            },
            Error::Utils(_) => String::from_str("WebRTC Utilities failure"),
            Error::JsError(m) => {
                let r = String::from_str("JavaScript error: ");
                r.concat(m.as_str())
            },
            Error::JsCastFailed => String::from_str("JavaScript typecasting failed"),
            Error::UnknownRemotePeerId => String::from_str("Unknown remote peer ID"),
            Error::Connection(m) => {
                let r = String::from_str("Connection error: ");
                r.concat(m.as_str())
            },
        }
    }
}

impl From<String> for Error {
    fn from(value: String) -> (r: Error) {
        Error::JsError(value)
    }
}

impl vstd::std_specs::convert::FromSpecImpl<String> for Error {
    open spec fn obeys_from_spec() -> bool {
        true
    }

    open spec fn from_spec(value: String) -> Error {
        Error::JsError(value)
    }
}

} // verus!
