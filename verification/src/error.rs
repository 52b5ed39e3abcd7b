//! Terminal errors of the request pipeline. Malformed cookies are the one
//! failure that is swallowed instead of surfacing here.

use vstd::prelude::*;

verus! {

/// Why a call chain stopped.
#[derive(Debug)]
pub enum Error {
    /// The URL scheme is neither plaintext nor encrypted.
    UnknownScheme(String),
    /// Name resolution failed or returned no address.
    DnsFailed(String),
    /// Connecting failed: refusal, timeout, or an invalid TLS server name.
    ConnectionFailed(String),
    /// A redirect location did not resolve against the current URL.
    BadUrl(String),
    /// The redirect budget was already exhausted when a redirect arrived.
    TooManyRedirects,
    /// A read or write on the transport failed.
    Io(String),
}

/// Mathematical model of an error.
pub enum ErrorV {
    UnknownScheme(Seq<char>),
    DnsFailed(Seq<char>),
    ConnectionFailed(Seq<char>),
    BadUrl(Seq<char>),
    TooManyRedirects,
    Io(Seq<char>),
}

impl View for Error {
    type V = ErrorV;

    open spec fn view(&self) -> ErrorV {
        match self {
            Error::UnknownScheme(s) => ErrorV::UnknownScheme(s@),
            Error::DnsFailed(s) => ErrorV::DnsFailed(s@),
            Error::ConnectionFailed(s) => ErrorV::ConnectionFailed(s@),
            Error::BadUrl(s) => ErrorV::BadUrl(s@),
            Error::TooManyRedirects => ErrorV::TooManyRedirects,
            Error::Io(s) => ErrorV::Io(s@),
        }
    }
}

} // verus!
