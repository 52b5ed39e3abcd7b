//! The URL as the pipeline reads it: scheme, host, port and path as plain
//! values, plus the serialized absolute form used to resolve redirect
//! locations. URL parsing itself is the URL layer's work; redirect
//! resolution is reached through one trusted wrapper.

use vstd::prelude::*;
use vstd::string::StringExecFns;
use crate::error::{Error, ErrorV};

verus! {

/// The parts of an absolute URL that the pipeline reads.
pub struct UrlParts {
    pub scheme: String,
    pub host: Option<String>,
    pub port: Option<u16>,
    pub path: String,
    /// The whole URL in serialized form; redirect locations resolve against it.
    pub full: String,
}

/// Mathematical model of a URL.
pub struct UrlV {
    pub scheme: Seq<char>,
    pub host: Option<Seq<char>>,
    pub port: Option<u16>,
    pub path: Seq<char>,
    pub full: Seq<char>,
}

impl View for UrlParts {
    type V = UrlV;

    open spec fn view(&self) -> UrlV {
        UrlV {
            scheme: self.scheme@,
            host: match self.host {
                Some(ref h) => Some(h@),
                None => None,
            },
            port: self.port,
            path: self.path@,
            full: self.full@,
        }
    }
}

impl Clone for UrlParts {
    fn clone(&self) -> (r: Self)
        ensures
            r@ == self@,
    {
        UrlParts {
            scheme: self.scheme.clone(),
            host: match &self.host {
                Some(h) => Some(h.clone()),
                None => None,
            },
            port: self.port,
            path: self.path.clone(),
            full: self.full.clone(),
        }
    }
}

/// The host name the pipeline works with when the URL names none.
pub open spec fn host_or_default(h: Option<Seq<char>>) -> Seq<char> {
    match h {
        Some(s) => s,
        None => "localhost"@,
    }
}

/// Host name of a URL, with the default for host-less URLs.
pub fn hostname_of(url: &UrlParts) -> (r: String)
    ensures
        r@ == host_or_default(url@.host),
{
    match &url.host {
        Some(h) => h.clone(),
        None => String::from_str("localhost"),
    }
}

/// Model of an optional URL value.
pub open spec fn opt_url_view(o: Option<UrlParts>) -> Option<UrlV> {
    match o {
        Some(u) => Some(u@),
        None => None,
    }
}

/// What resolving `location` against the serialized URL `base` yields:
/// the parts of the joined URL, or nothing when resolution fails.
/// The outcome depends on the two strings alone.
pub uninterp spec fn join_of(base: Seq<char>, location: Seq<char>) -> Option<UrlV>;

/// Relies on `url::Url::parse` and `url::Url::join`: resolves a possibly
/// relative location against the current URL and hands back the parts of
/// the joined URL, or `None` when either step fails.
#[verifier::external_body]
pub(crate) fn join_location(base: &str, location: &str) -> (r: Option<UrlParts>)
    ensures
        opt_url_view(r) == join_of(base@, location@),
{
    let u = match url::Url::parse(base) {
        Ok(u) => u,
        Err(_) => return None,
    };
    let j = match u.join(location) {
        Ok(j) => j,
        Err(_) => return None,
    };
    Some(UrlParts {
        scheme: j.scheme().to_string(),
        host: j.host_str().map(|h| h.to_string()),
        port: j.port(),
        path: j.path().to_string(),
        full: j.as_str().to_string(),
    })
}

/// Whether a host name is a syntactically valid TLS server name.
/// The outcome depends on the name alone.
pub uninterp spec fn is_tls_name(host: Seq<char>) -> bool;

/// Relies on `webpki::DnsNameRef::try_from_ascii_str`: accepts exactly the
/// syntactically valid DNS names usable as TLS server names.
#[verifier::external_body]
fn tls_name_ok(host: &str) -> (r: bool)
    ensures
        r == is_tls_name(host@),
{
    webpki::DnsNameRef::try_from_ascii_str(host).is_ok()
}

/// Checks a host name for use as a TLS server name, as connection setup for
/// the encrypted scheme must before a session is created.
pub fn check_tls_name(host: &str) -> (r: Result<(), Error>)
    ensures
        r is Ok <==> is_tls_name(host@),
        r matches Err(e) ==> e@ == ErrorV::ConnectionFailed("Invalid TLS name: "@ + host@),
{
    if tls_name_ok(host) {
        Ok(())
    } else {
        let msg = String::from_str("Invalid TLS name: ").concat(host);
        Err(Error::ConnectionFailed(msg))
    }
}

} // verus!
