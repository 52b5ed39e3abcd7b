use reqcore::conn::{plan_connection, ConnectionPool, Response, ResponseHead};
use reqcore::cookies::CookieJar;
use reqcore::error::Error;
use reqcore::header::{Header, Request};
use reqcore::payload::Payload;
use reqcore::urlinfo::UrlParts;

fn url_of(scheme: &str, host: &str, port: Option<u16>, path: &str, full: &str) -> UrlParts {
    UrlParts {
        scheme: scheme.to_string(),
        host: Some(host.to_string()),
        port,
        path: path.to_string(),
        full: full.to_string(),
    }
}

fn plain_request() -> Request {
    Request { headers: Vec::new(), timeout: 0, timeout_read: 0, timeout_write: 0 }
}

fn redirect_head(status: u16, location: &str) -> ResponseHead {
    ResponseHead { status, headers: vec![Header::new("Location", location)] }
}

fn ok_head() -> ResponseHead {
    ResponseHead { status: 200, headers: Vec::new() }
}

#[test]
fn chain_of_two_redirects_succeeds_with_three_attempts() {
    let mut pool = ConnectionPool::new();
    let req = plain_request();
    let url = url_of("http", "example.com", None, "/a", "http://example.com/a");
    let mut jar = CookieJar::new();
    let responses = vec![
        redirect_head(301, "http://example.com/b"),
        redirect_head(302, "http://example.com/c"),
        ok_head(),
    ];
    let (result, attempts) =
        pool.connect(&req, "GET", &url, 2, &mut jar, Payload::Empty, &responses);
    let resp: Response = result.unwrap();
    assert_eq!(resp.status, 200);
    assert_eq!(attempts.len(), 3);
}

#[test]
fn budget_zero_fails_with_too_many_redirects_after_one_attempt() {
    let mut pool = ConnectionPool::new();
    let req = plain_request();
    let url = url_of("http", "example.com", None, "/a", "http://example.com/a");
    let mut jar = CookieJar::new();
    let responses = vec![redirect_head(302, "http://example.com/b")];
    let (result, attempts) =
        pool.connect(&req, "GET", &url, 0, &mut jar, Payload::Empty, &responses);
    assert!(matches!(result, Err(Error::TooManyRedirects)));
    assert_eq!(attempts.len(), 1);
}

#[test]
fn redirect_303_rewrites_to_get_and_drains_payload() {
    let mut pool = ConnectionPool::new();
    let req = plain_request();
    let url = url_of("http", "example.com", None, "/a", "http://example.com/a");
    let mut jar = CookieJar::new();
    let responses = vec![redirect_head(303, "http://example.com/b"), ok_head()];
    let payload = Payload::Sized(b"hello".to_vec());
    let (result, attempts) = pool.connect(&req, "POST", &url, 1, &mut jar, payload, &responses);
    assert!(result.is_ok());
    assert_eq!(attempts.len(), 2);
    assert!(attempts[0].prelude.starts_with("POST /a HTTP/1.1\r\n"));
    // the original payload drains on the connection that got the redirect
    assert_eq!(attempts[0].body, Some(b"hello".to_vec()));
    // the re-issued request is a GET with an empty payload
    assert!(attempts[1].prelude.starts_with("GET /b HTTP/1.1\r\n"));
    assert_eq!(attempts[1].body, Some(Vec::new()));
}

#[test]
fn redirect_307_preserves_method_and_payload() {
    let mut pool = ConnectionPool::new();
    let req = plain_request();
    let url = url_of("http", "example.com", None, "/a", "http://example.com/a");
    let mut jar = CookieJar::new();
    let responses = vec![redirect_head(307, "http://example.com/b"), ok_head()];
    let payload = Payload::Sized(b"hello".to_vec());
    let (result, attempts) = pool.connect(&req, "POST", &url, 1, &mut jar, payload, &responses);
    assert!(result.is_ok());
    assert_eq!(attempts.len(), 2);
    // nothing is sent on the redirected connection
    assert_eq!(attempts[0].body, None);
    assert!(attempts[1].prelude.starts_with("POST /b HTTP/1.1\r\n"));
    assert_eq!(attempts[1].body, Some(b"hello".to_vec()));
}

#[test]
fn relative_location_resolves_against_current_url() {
    let mut pool = ConnectionPool::new();
    let req = plain_request();
    let url = url_of("http", "example.com", None, "/a/b", "http://example.com/a/b");
    let mut jar = CookieJar::new();
    let responses = vec![redirect_head(302, "/other"), ok_head()];
    let (result, attempts) =
        pool.connect(&req, "GET", &url, 1, &mut jar, Payload::Empty, &responses);
    assert!(result.is_ok());
    assert!(attempts[1].prelude.starts_with("GET /other HTTP/1.1\r\n"));
    assert!(attempts[1].prelude.contains("Host: example.com\r\n"));
}

#[test]
fn unknown_scheme_fails_before_any_attempt() {
    let mut pool = ConnectionPool::new();
    let req = plain_request();
    let url = url_of("ftp", "host", None, "/path", "ftp://host/path");
    let mut jar = CookieJar::new();
    let responses = vec![ok_head()];
    let (result, attempts) =
        pool.connect(&req, "GET", &url, 0, &mut jar, Payload::Empty, &responses);
    match result {
        Err(Error::UnknownScheme(s)) => assert_eq!(s, "ftp"),
        other => panic!("expected UnknownScheme, got {:?}", other),
    }
    // no connection attempt, hence no name resolution was ever reached
    assert_eq!(attempts.len(), 0);
}

#[test]
fn unresolvable_location_fails_with_bad_url() {
    let mut pool = ConnectionPool::new();
    let req = plain_request();
    let url = url_of("http", "example.com", None, "/a", "http://example.com/a");
    let mut jar = CookieJar::new();
    let responses = vec![redirect_head(302, "http://[bad"), ok_head()];
    let (result, attempts) =
        pool.connect(&req, "GET", &url, 1, &mut jar, Payload::Empty, &responses);
    match result {
        Err(Error::BadUrl(msg)) => assert_eq!(msg, "Bad redirection: http://[bad"),
        other => panic!("expected BadUrl, got {:?}", other),
    }
    assert_eq!(attempts.len(), 1);
}

#[test]
fn redirect_status_without_location_is_a_final_response() {
    let mut pool = ConnectionPool::new();
    let req = plain_request();
    let url = url_of("http", "example.com", None, "/a", "http://example.com/a");
    let mut jar = CookieJar::new();
    let responses = vec![ResponseHead { status: 304, headers: Vec::new() }];
    let (result, attempts) =
        pool.connect(&req, "GET", &url, 0, &mut jar, Payload::Empty, &responses);
    assert_eq!(result.unwrap().status, 304);
    assert_eq!(attempts.len(), 1);
}

#[test]
fn plan_uses_default_ports_and_timeouts() {
    let req = plain_request();
    let url = url_of("http", "example.com", None, "/", "http://example.com/");
    let plan = plan_connection(&url, &req).unwrap();
    assert!(!plan.secure);
    assert_eq!(plan.port, 80);
    assert_eq!(plan.host, "example.com");
    assert_eq!(plan.connect_timeout_ms, None);

    let req2 = Request { headers: Vec::new(), timeout: 5000, timeout_read: 300, timeout_write: 0 };
    let url2 = url_of("https", "example.com", Some(8443), "/", "https://example.com:8443/");
    let plan2 = plan_connection(&url2, &req2).unwrap();
    assert!(plan2.secure);
    assert_eq!(plan2.port, 8443);
    assert_eq!(plan2.connect_timeout_ms, Some(5000));
    assert_eq!(plan2.read_timeout_ms, Some(300));
    assert_eq!(plan2.write_timeout_ms, None);
}

#[test]
fn invalid_tls_name_fails_connection() {
    let req = plain_request();
    let url = url_of("https", "bad host!", None, "/", "https://bad%20host!/");
    match plan_connection(&url, &req) {
        Err(Error::ConnectionFailed(msg)) => {
            assert_eq!(msg, "Invalid TLS name: bad host!");
        }
        other => panic!("expected ConnectionFailed, got {:?}", other),
    }
}

#[test]
fn host_header_is_injected_only_when_absent() {
    let mut pool = ConnectionPool::new();
    let req = plain_request();
    let url = url_of("http", "example.com", None, "/", "http://example.com/");
    let mut jar = CookieJar::new();
    let responses = vec![ok_head()];
    let (_, attempts) = pool.connect(&req, "GET", &url, 0, &mut jar, Payload::Empty, &responses);
    assert!(attempts[0].prelude.contains("Host: example.com\r\n"));
    assert!(attempts[0].prelude.ends_with("\r\n\r\n"));

    let req2 = Request {
        headers: vec![Header::new("Host", "override.example")],
        timeout: 0,
        timeout_read: 0,
        timeout_write: 0,
    };
    let mut jar2 = CookieJar::new();
    let (_, attempts2) =
        pool.connect(&req2, "GET", &url, 0, &mut jar2, Payload::Empty, &responses);
    assert!(attempts2[0].prelude.contains("Host: override.example\r\n"));
    assert!(!attempts2[0].prelude.contains("Host: example.com\r\n"));
}

#[test]
fn header_lookup_ignores_ascii_case() {
    let req = Request {
        headers: vec![Header::new("HOST", "a"), Header::new("X-Two", "1"), Header::new("x-two", "2")],
        timeout: 0,
        timeout_read: 0,
        timeout_write: 0,
    };
    assert!(req.has("host"));
    assert_eq!(req.header("X-TWO"), Some("1".to_string()));
    assert_eq!(req.header("missing"), None);
}

#[test]
fn exhausted_response_script_is_an_io_error() {
    let mut pool = ConnectionPool::new();
    let req = plain_request();
    let url = url_of("http", "example.com", None, "/a", "http://example.com/a");
    let mut jar = CookieJar::new();
    // the budget admits a second hop, but the script answers only the first
    let responses = vec![redirect_head(302, "/b")];
    let (result, attempts) =
        pool.connect(&req, "GET", &url, 1, &mut jar, Payload::Empty, &responses);
    match result {
        Err(Error::Io(msg)) => assert_eq!(msg, "script exhausted"),
        other => panic!("expected Io, got {:?}", other),
    }
    assert_eq!(attempts.len(), 1);
}

#[test]
fn zero_resolved_addresses_fail_dns() {
    match reqcore::conn::check_resolved_addresses(0, "example.com") {
        Err(Error::DnsFailed(msg)) => assert_eq!(msg, "No ip address for example.com"),
        other => panic!("expected DnsFailed, got {:?}", other),
    }
    assert!(reqcore::conn::check_resolved_addresses(3, "example.com").is_ok());
}
