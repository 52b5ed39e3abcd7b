use reqcore::conn::{ConnectionPool, ResponseHead};
use reqcore::cookies::{match_cookies, store_cookies, Cookie, CookieJar};
use reqcore::header::{Header, Request};
use reqcore::payload::Payload;
use reqcore::urlinfo::UrlParts;

fn entry(name: &str, value: &str, domain: Option<&str>, path: Option<&str>, secure: bool) -> Cookie {
    Cookie {
        name: name.to_string(),
        value: value.to_string(),
        domain: domain.map(|d| d.to_string()),
        path: path.map(|p| p.to_string()),
        secure,
    }
}

#[test]
fn domain_suffix_matches_subdomain() {
    let mut jar = CookieJar::new();
    jar.add(entry("k", "v", Some("example.com"), None, false));
    let headers = match_cookies(&jar, "www.example.com", "/", false);
    assert_eq!(headers.len(), 1);
    assert_eq!(headers[0].name, "Cookie");
    assert_eq!(headers[0].value, "k=v");
}

#[test]
fn entry_without_domain_never_matches() {
    let mut jar = CookieJar::new();
    jar.add(entry("k", "v", None, None, false));
    assert_eq!(match_cookies(&jar, "example.com", "/", false).len(), 0);
    assert_eq!(match_cookies(&jar, "example.com", "/", true).len(), 0);
}

#[test]
fn secure_entry_not_sent_on_plaintext_request() {
    let mut jar = CookieJar::new();
    jar.add(entry("k", "v", Some("example.com"), Some("/"), true));
    assert_eq!(match_cookies(&jar, "example.com", "/", false).len(), 0);
    assert_eq!(match_cookies(&jar, "example.com", "/", true).len(), 1);
}

#[test]
fn path_must_prefix_request_path_at_start() {
    let mut jar = CookieJar::new();
    jar.add(entry("k", "v", Some("example.com"), Some("/api"), false));
    assert_eq!(match_cookies(&jar, "example.com", "/api/v1", false).len(), 1);
    assert_eq!(match_cookies(&jar, "example.com", "/v1/api", false).len(), 0);
    // an absent path matches any request path
    let mut jar2 = CookieJar::new();
    jar2.add(entry("k", "v", Some("example.com"), None, false));
    assert_eq!(match_cookies(&jar2, "example.com", "/anything", false).len(), 1);
}

#[test]
fn rendered_header_is_percent_encoded() {
    let mut jar = CookieJar::new();
    jar.add(entry("k", "a b;c", Some("example.com"), None, false));
    let headers = match_cookies(&jar, "example.com", "/", false);
    assert_eq!(headers.len(), 1);
    assert_eq!(headers[0].value, "k=a%20b%3Bc");
}

#[test]
fn set_cookie_without_domain_gets_request_host() {
    let mut jar = CookieJar::new();
    store_cookies(&mut jar, &vec!["sess=abc".to_string()], "api.example.com");
    assert_eq!(jar.len(), 1);
    let c = jar.get(0);
    assert_eq!(c.name, "sess");
    assert_eq!(c.value, "abc");
    assert_eq!(c.domain, Some("api.example.com".to_string()));
}

#[test]
fn set_cookie_with_domain_keeps_it() {
    let mut jar = CookieJar::new();
    store_cookies(
        &mut jar,
        &vec!["sess=abc; Domain=other.example; Path=/p; Secure".to_string()],
        "api.example.com",
    );
    assert_eq!(jar.len(), 1);
    let c = jar.get(0);
    assert_eq!(c.domain, Some("other.example".to_string()));
    assert_eq!(c.path, Some("/p".to_string()));
    assert!(c.secure);
}

#[test]
fn unparseable_set_cookie_is_dropped_silently() {
    let mut jar = CookieJar::new();
    store_cookies(
        &mut jar,
        &vec!["nopair".to_string(), "ok=1".to_string()],
        "example.com",
    );
    assert_eq!(jar.len(), 1);
    assert_eq!(jar.get(0).name, "ok");
}

#[test]
fn cookie_set_on_first_hop_is_sent_on_second_hop() {
    let mut pool = ConnectionPool::new();
    let req = Request { headers: Vec::new(), timeout: 0, timeout_read: 0, timeout_write: 0 };
    let url = UrlParts {
        scheme: "http".to_string(),
        host: Some("example.com".to_string()),
        port: None,
        path: "/a".to_string(),
        full: "http://example.com/a".to_string(),
    };
    let mut jar = CookieJar::new();
    let responses = vec![
        ResponseHead {
            status: 302,
            headers: vec![
                Header::new("Set-Cookie", "sess=abc"),
                Header::new("Location", "/b"),
            ],
        },
        ResponseHead { status: 200, headers: Vec::new() },
    ];
    let (result, attempts) =
        pool.connect(&req, "GET", &url, 1, &mut jar, Payload::Empty, &responses);
    assert!(result.is_ok());
    assert!(!attempts[0].prelude.contains("Cookie: sess=abc\r\n"));
    assert!(attempts[1].prelude.contains("Cookie: sess=abc\r\n"));
    assert_eq!(jar.len(), 1);
    assert_eq!(jar.get(0).domain, Some("example.com".to_string()));
}

#[test]
fn lowercase_domain_attribute_is_kept() {
    let mut jar = CookieJar::new();
    store_cookies(&mut jar, &vec!["sess=a; domain=x.example".to_string()], "api.example.com");
    assert_eq!(jar.len(), 1);
    assert_eq!(jar.get(0).domain, Some("x.example".to_string()));
}

#[test]
fn unknown_attribute_named_like_domain_still_gets_host() {
    // the raw text contains the letters "domain=", but the parsed value
    // carries no Domain attribute, so one is synthesized from the host
    let mut jar = CookieJar::new();
    store_cookies(&mut jar, &vec!["a=1; xdomain=2".to_string()], "api.example.com");
    assert_eq!(jar.len(), 1);
    assert_eq!(jar.get(0).name, "a");
    assert_eq!(jar.get(0).domain, Some("api.example.com".to_string()));
}

#[test]
fn domain_text_inside_value_still_gets_host() {
    let mut jar = CookieJar::new();
    store_cookies(&mut jar, &vec!["k=domain=x".to_string()], "api.example.com");
    assert_eq!(jar.len(), 1);
    assert_eq!(jar.get(0).value, "domain=x");
    assert_eq!(jar.get(0).domain, Some("api.example.com".to_string()));
}

#[test]
fn re_set_cookie_replaces_the_previous_entry() {
    let mut jar = CookieJar::new();
    store_cookies(&mut jar, &vec!["sess=a".to_string()], "example.com");
    store_cookies(&mut jar, &vec!["sess=b".to_string(), "other=1".to_string()], "example.com");
    assert_eq!(jar.len(), 2);
    let headers = match_cookies(&jar, "example.com", "/", false);
    assert_eq!(headers.len(), 2);
    assert_eq!(headers[0].value, "sess=b");
    assert_eq!(headers[1].value, "other=1");
}

#[test]
fn add_replaces_by_name() {
    let mut jar = CookieJar::new();
    jar.add(entry("k", "v1", Some("example.com"), None, false));
    jar.add(entry("k", "v2", Some("example.com"), None, false));
    assert_eq!(jar.len(), 1);
    assert_eq!(jar.get(0).value, "v2");
}
