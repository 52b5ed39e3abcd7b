//! The request/redirect pipeline. One hop plans a connection, builds and
//! sends the request prelude, folds the response's cookies into the jar,
//! and either follows a redirect with a rewritten method and payload or
//! finishes by transmitting the payload. The whole chain is a loop whose
//! budget of remaining hops strictly decreases.

use vstd::prelude::*;
use vstd::string::StringExecFns;
use crate::cookies::{
    jar_after, match_cookies, matched_headers, store_cookies, stored_cookies, CookieJar, CookieV,
};
use crate::error::{Error, ErrorV};
use crate::header::{
    all_header_values, all_values, clone_headers, find_header, find_header_value, has_header,
    headers_view, Header, HeaderV, Request, RequestV,
};
use crate::payload::{frame_payload, framed_spec, Payload, PayloadV};
use crate::text::{eq_nocase, str_eq, str_eq_nocase};
use crate::urlinfo::{
    check_tls_name, host_or_default, hostname_of, is_tls_name, join_location, join_of, UrlParts,
    UrlV,
};

verus! {

/// How to open one transport connection: target, scheme kind, and the
/// socket timeouts to apply, `None` meaning "no timeout" as a zero
/// setting asks.
#[derive(Debug)]
pub struct ConnPlan {
    pub secure: bool,
    pub host: String,
    pub port: u16,
    pub connect_timeout_ms: Option<u64>,
    pub read_timeout_ms: Option<u64>,
    pub write_timeout_ms: Option<u64>,
}

/// Mathematical model of a connection plan.
pub struct ConnPlanV {
    pub secure: bool,
    pub host: Seq<char>,
    pub port: u16,
    pub connect_timeout_ms: Option<u64>,
    pub read_timeout_ms: Option<u64>,
    pub write_timeout_ms: Option<u64>,
}

impl View for ConnPlan {
    type V = ConnPlanV;

    open spec fn view(&self) -> ConnPlanV {
        ConnPlanV {
            secure: self.secure,
            host: self.host@,
            port: self.port,
            connect_timeout_ms: self.connect_timeout_ms,
            read_timeout_ms: self.read_timeout_ms,
            write_timeout_ms: self.write_timeout_ms,
        }
    }
}

/// A configured timeout: zero means none.
pub open spec fn timeout_setting(ms: u64) -> Option<u64> {
    if ms == 0 {
        None
    } else {
        Some(ms)
    }
}

pub open spec fn port_or(p: Option<u16>, d: u16) -> u16 {
    match p {
        Some(x) => x,
        None => d,
    }
}

/// Scheme dispatch: the plaintext scheme targets port 80, the encrypted
/// scheme port 443 after its host passes TLS name validation, and any
/// other scheme fails at once, before any name resolution.
pub open spec fn plan_spec(url: UrlV, req: RequestV) -> Result<ConnPlanV, ErrorV> {
    if url.scheme == "http"@ {
        Ok(
            ConnPlanV {
                secure: false,
                host: host_or_default(url.host),
                port: port_or(url.port, 80),
                connect_timeout_ms: timeout_setting(req.timeout),
                read_timeout_ms: timeout_setting(req.timeout_read),
                write_timeout_ms: timeout_setting(req.timeout_write),
            },
        )
    } else if url.scheme == "https"@ {
        if is_tls_name(host_or_default(url.host)) {
            Ok(
                ConnPlanV {
                    secure: true,
                    host: host_or_default(url.host),
                    port: port_or(url.port, 443),
                    connect_timeout_ms: timeout_setting(req.timeout),
                    read_timeout_ms: timeout_setting(req.timeout_read),
                    write_timeout_ms: timeout_setting(req.timeout_write),
                },
            )
        } else {
            Err(ErrorV::ConnectionFailed("Invalid TLS name: "@ + host_or_default(url.host)))
        }
    } else {
        Err(ErrorV::UnknownScheme(url.scheme))
    }
}

/// Model of a plan-or-error result.
pub open spec fn plan_result_view(r: Result<ConnPlan, Error>) -> Result<ConnPlanV, ErrorV> {
    match r {
        Ok(p) => Ok(p@),
        Err(e) => Err(e@),
    }
}

fn timeout_of(ms: u64) -> (r: Option<u64>)
    ensures
        r == timeout_setting(ms),
{
    if ms == 0 {
        None
    } else {
        Some(ms)
    }
}

/// Plans the connection for one hop, as scheme dispatch prescribes.
pub fn plan_connection(url: &UrlParts, req: &Request) -> (r: Result<ConnPlan, Error>)
    ensures
        plan_result_view(r) == plan_spec(url@, req@),
{
    let host = hostname_of(url);
    if str_eq(url.scheme.as_str(), "http") {
        Ok(
            ConnPlan {
                secure: false,
                host,
                port: match url.port {
                    Some(p) => p,
                    None => 80,
                },
                connect_timeout_ms: timeout_of(req.timeout),
                read_timeout_ms: timeout_of(req.timeout_read),
                write_timeout_ms: timeout_of(req.timeout_write),
            },
        )
    } else if str_eq(url.scheme.as_str(), "https") {
        match check_tls_name(host.as_str()) {
            Ok(_) => Ok(
                ConnPlan {
                    secure: true,
                    host,
                    port: match url.port {
                        Some(p) => p,
                        None => 443,
                    },
                    connect_timeout_ms: timeout_of(req.timeout),
                    read_timeout_ms: timeout_of(req.timeout_read),
                    write_timeout_ms: timeout_of(req.timeout_write),
                },
            ),
            Err(e) => Err(e),
        }
    } else {
        Err(Error::UnknownScheme(url.scheme.clone()))
    }
}

/// The connector's rule on name resolution: zero resolved addresses fail
/// with a DNS error naming the host; otherwise the first address is used,
/// as is, with no fallback to later ones.
pub fn check_resolved_addresses(count: usize, host: &str) -> (r: Result<(), Error>)
    ensures
        r is Ok <==> count > 0,
        r matches Err(e) ==> e@ == ErrorV::DnsFailed("No ip address for "@ + host@),
{
    if count == 0 {
        Err(Error::DnsFailed(String::from_str("No ip address for ").concat(host)))
    } else {
        Ok(())
    }
}

/// The header lines of a header list, each `name: value` closed by a
/// line break, in order.
pub open spec fn header_lines(hs: Seq<HeaderV>) -> Seq<char>
    decreases hs.len(),
{
    if hs.len() == 0 {
        Seq::empty()
    } else {
        header_lines(hs.drop_last()) + hs.last().name + ": "@ + hs.last().value + "\r\n"@
    }
}

/// The whole request prelude: request line, a `Host` header only when the
/// caller set none, the caller's headers, the matched cookie headers, and
/// the blank line that closes the header block.
pub open spec fn prelude_of(
    method: Seq<char>,
    url: UrlV,
    req: RequestV,
    cookie_hdrs: Seq<HeaderV>,
) -> Seq<char> {
    method + " "@ + url.path + " HTTP/1.1\r\n"@ + (if has_header(req.headers, "host"@) {
        Seq::<char>::empty()
    } else {
        "Host: "@ + host_or_default(url.host) + "\r\n"@
    }) + header_lines(req.headers) + header_lines(cookie_hdrs) + "\r\n"@
}

fn append_header_lines(out: &mut String, hs: &Vec<Header>)
    ensures
        final(out)@ == old(out)@ + header_lines(headers_view(hs@)),
{
    let ghost full = headers_view(hs@);
    proof {
        assert(out@ =~= old(out)@ + header_lines(full.take(0)));
    }
    let mut i: usize = 0;
    while i < hs.len()
        invariant
            i <= hs@.len(),
            full == headers_view(hs@),
            full.len() == hs@.len(),
            forall|j: int| 0 <= j < hs@.len() ==> full[j] == hs@[j]@,
            out@ == old(out)@ + header_lines(full.take(i as int)),
        decreases hs@.len() - i,
    {
        let h = &hs[i];
        out.append(h.name.as_str());
        out.append(": ");
        out.append(h.value.as_str());
        out.append("\r\n");
        proof {
            assert(full.take(i + 1).drop_last() =~= full.take(i as int));
            assert(full.take(i + 1).last() == full[i as int]);
            assert(out@ =~= old(out)@ + header_lines(full.take(i + 1)));
        }
        i += 1;
    }
    proof {
        assert(full.take(hs@.len() as int) =~= full);
    }
}

/// Serializes the request line and header block, closed by a blank line.
pub fn build_prelude(method: &str, url: &UrlParts, req: &Request, cookie_hdrs: &Vec<Header>) -> (r:
    String)
    ensures
        r@ == prelude_of(method@, url@, req@, headers_view(cookie_hdrs@)),
{
    let mut out = String::new();
    out.append(method);
    out.append(" ");
    out.append(url.path.as_str());
    out.append(" HTTP/1.1\r\n");
    if !req.has("host") {
        out.append("Host: ");
        let h = hostname_of(url);
        out.append(h.as_str());
        out.append("\r\n");
    }
    append_header_lines(&mut out, &req.headers);
    append_header_lines(&mut out, cookie_hdrs);
    out.append("\r\n");
    proof {
        assert(out@ =~= prelude_of(method@, url@, req@, headers_view(cookie_hdrs@)));
    }
    out
}

/// Status and headers of a response, as the response parser hands them
/// back once the header block is read.
pub struct ResponseHead {
    pub status: u16,
    pub headers: Vec<Header>,
}

/// Mathematical model of a response head.
pub struct HeadV {
    pub status: u16,
    pub headers: Seq<HeaderV>,
}

impl View for ResponseHead {
    type V = HeadV;

    open spec fn view(&self) -> HeadV {
        HeadV { status: self.status, headers: headers_view(self.headers@) }
    }
}

pub open spec fn heads_view(rs: Seq<ResponseHead>) -> Seq<HeadV> {
    rs.map_values(|h: ResponseHead| h@)
}

/// The response handed back to the caller; the transport stream that the
/// body is read from is attached outside, by whatever owns the sockets.
#[derive(Debug)]
pub struct Response {
    pub status: u16,
    pub headers: Vec<Header>,
}

/// Mathematical model of a response.
pub struct RespV {
    pub status: u16,
    pub headers: Seq<HeaderV>,
}

impl View for Response {
    type V = RespV;

    open spec fn view(&self) -> RespV {
        RespV { status: self.status, headers: headers_view(self.headers@) }
    }
}

/// Everything one connection attempt writes: the plan it was opened with,
/// the prelude, and the framed payload bytes if a payload went out on it.
pub struct Attempt {
    pub plan: ConnPlan,
    pub prelude: String,
    pub body: Option<Vec<u8>>,
}

/// Mathematical model of an attempt.
pub struct AttemptV {
    pub plan: ConnPlanV,
    pub prelude: Seq<char>,
    pub body: Option<Seq<u8>>,
}

impl View for Attempt {
    type V = AttemptV;

    open spec fn view(&self) -> AttemptV {
        AttemptV {
            plan: self.plan@,
            prelude: self.prelude@,
            body: match self.body {
                Some(ref b) => Some(b@),
                None => None,
            },
        }
    }
}

pub open spec fn attempts_view(s: Seq<Attempt>) -> Seq<AttemptV> {
    s.map_values(|a: Attempt| a@)
}

/// A response asks for a redirect when its status is in the 3xx range and
/// a `Location` header is present.
pub open spec fn is_redirect_head(h: HeadV) -> bool {
    300 <= h.status && h.status < 400 && has_header(h.headers, "location"@)
}

/// What one response head does to the chain.
pub enum HopOutcome {
    /// Not a redirect: transmit the payload and finish.
    Proceed,
    /// The chain stops with this error.
    Fail(Error),
    /// Follow to the URL with method forced to GET and an empty payload,
    /// after draining the current payload on the current connection.
    FollowGet(UrlParts),
    /// Follow to the URL with method and payload unchanged.
    FollowSame(UrlParts),
}

/// Mathematical model of a hop outcome.
pub enum HopV {
    Proceed,
    Fail(ErrorV),
    FollowGet(UrlV),
    FollowSame(UrlV),
}

impl View for HopOutcome {
    type V = HopV;

    open spec fn view(&self) -> HopV {
        match self {
            HopOutcome::Proceed => HopV::Proceed,
            HopOutcome::Fail(e) => HopV::Fail(e@),
            HopOutcome::FollowGet(u) => HopV::FollowGet(u@),
            HopOutcome::FollowSame(u) => HopV::FollowSame(u@),
        }
    }
}

/// The per-status redirect rule. A non-redirect proceeds; with the budget
/// exhausted the chain fails; a location that does not resolve fails; 301,
/// 302 and 303 rewrite the method to GET and drop the payload; 307, 308
/// and every other redirect status keep method and payload.
pub open spec fn redirect_decision(url: UrlV, budget: u32, head: HeadV) -> HopV {
    if !(300 <= head.status && head.status < 400) {
        HopV::Proceed
    } else {
        match find_header(head.headers, "location"@) {
            None => HopV::Proceed,
            Some(loc) => if budget == 0 {
                HopV::Fail(ErrorV::TooManyRedirects)
            } else {
                match join_of(url.full, loc) {
                    None => HopV::Fail(ErrorV::BadUrl("Bad redirection: "@ + loc)),
                    Some(nu) => if head.status == 301 || head.status == 302 || head.status == 303 {
                        HopV::FollowGet(nu)
                    } else {
                        HopV::FollowSame(nu)
                    },
                }
            },
        }
    }
}

/// Applies the redirect rule to one response head.
pub fn decide_redirect(url: &UrlParts, budget: u32, head: &ResponseHead) -> (r: HopOutcome)
    ensures
        r@ == redirect_decision(url@, budget, head@),
{
    if head.status < 300 || head.status >= 400 {
        return HopOutcome::Proceed;
    }
    match find_header_value(&head.headers, "location") {
        None => HopOutcome::Proceed,
        Some(loc) => {
            if budget == 0 {
                return HopOutcome::Fail(Error::TooManyRedirects);
            }
            match join_location(url.full.as_str(), loc.as_str()) {
                None => {
                    let msg = String::from_str("Bad redirection: ").concat(loc.as_str());
                    HopOutcome::Fail(Error::BadUrl(msg))
                },
                Some(nu) => {
                    if head.status == 301 || head.status == 302 || head.status == 303 {
                        HopOutcome::FollowGet(nu)
                    } else {
                        HopOutcome::FollowSame(nu)
                    }
                },
            }
        },
    }
}

/// Model of a response-or-error result.
pub open spec fn resp_result_view(r: Result<Response, Error>) -> Result<RespV, ErrorV> {
    match r {
        Ok(x) => Ok(x@),
        Err(e) => Err(e@),
    }
}

/// Everything one run of the pipeline yields: the final result, the
/// connection attempts made in order, and the jar as it stands after.
pub struct RunV {
    pub result: Result<RespV, ErrorV>,
    pub attempts: Seq<AttemptV>,
    pub jar: Seq<CookieV>,
}

/// The whole chain against a script of response heads, one per attempt:
/// each hop matches cookies, plans the connection, writes the prelude,
/// stores the response's cookies, and follows the redirect rule until a
/// final response or an error; every hop consumes one budget unit and
/// opens one fresh connection.
pub open spec fn run_spec(
    req: RequestV,
    method: Seq<char>,
    url: UrlV,
    budget: u32,
    jar: Seq<CookieV>,
    payload: PayloadV,
    responses: Seq<HeadV>,
) -> RunV
    decreases budget,
{
    let host = host_or_default(url.host);
    let secure = eq_nocase(url.scheme, "https"@);
    let cookie_hdrs = matched_headers(jar, host, url.path, secure);
    match plan_spec(url, req) {
        Err(e) => RunV { result: Err(e), attempts: Seq::empty(), jar },
        Ok(plan) => {
            if responses.len() == 0 {
                RunV { result: Err(ErrorV::Io("script exhausted"@)), attempts: Seq::empty(), jar }
            } else {
                let head = responses[0];
                let prelude = prelude_of(method, url, req, cookie_hdrs);
                let jar1 = jar_after(jar, stored_cookies(all_values(head.headers, "set-cookie"@), host));
                match redirect_decision(url, budget, head) {
                    HopV::Proceed => RunV {
                        result: Ok(RespV { status: head.status, headers: head.headers }),
                        attempts: seq![
                            AttemptV { plan, prelude, body: Some(framed_spec(req, payload)) },
                        ],
                        jar: jar1,
                    },
                    HopV::Fail(e) => RunV {
                        result: Err(e),
                        attempts: seq![AttemptV { plan, prelude, body: None }],
                        jar: jar1,
                    },
                    HopV::FollowGet(nu) => {
                        let sub = run_spec(
                            req,
                            "GET"@,
                            nu,
                            (budget - 1) as u32,
                            jar1,
                            PayloadV::Empty,
                            responses.drop_first(),
                        );
                        RunV {
                            result: sub.result,
                            attempts: seq![
                                AttemptV { plan, prelude, body: Some(framed_spec(req, payload)) },
                            ] + sub.attempts,
                            jar: sub.jar,
                        }
                    },
                    HopV::FollowSame(nu) => {
                        let sub = run_spec(
                            req,
                            method,
                            nu,
                            (budget - 1) as u32,
                            jar1,
                            payload,
                            responses.drop_first(),
                        );
                        RunV {
                            result: sub.result,
                            attempts: seq![AttemptV { plan, prelude, body: None }] + sub.attempts,
                            jar: sub.jar,
                        }
                    },
                }
            }
        },
    }
}

/// Opens connections for request chains. Each call works through one
/// whole redirect chain; nothing is pooled across calls.
#[derive(Debug, Default, Clone, Copy)]
pub struct ConnectionPool {}

impl ConnectionPool {
    pub fn new() -> (r: Self) {
        ConnectionPool {  }
    }

    /// Runs one whole chain against a script of response heads, one per
    /// connection attempt, standing in for the transport: what the wire
    /// would carry is handed back as the list of attempts. The jar is
    /// shared across all hops and mutated in place.
    pub fn connect(
        &mut self,
        req: &Request,
        method: &str,
        url: &UrlParts,
        redirects: u32,
        jar: &mut CookieJar,
        payload: Payload,
        responses: &Vec<ResponseHead>,
    ) -> (r: (Result<Response, Error>, Vec<Attempt>))
        ensures
            ({
                let o = run_spec(
                    req@,
                    method@,
                    url@,
                    redirects,
                    old(jar)@,
                    payload@,
                    heads_view(responses@),
                );
                &&& resp_result_view(r.0) == o.result
                &&& attempts_view(r.1@) == o.attempts
                &&& final(jar)@ == o.jar
            }),
    {
        let ghost p0 = payload@;
        let ghost all = heads_view(responses@);
        let ghost goal = run_spec(req@, method@, url@, redirects, old(jar)@, p0, all);
        let mut cur_method: String = method.to_owned();
        let mut cur_url: UrlParts = url.clone();
        let mut cur_payload: Payload = payload;
        let mut budget: u32 = redirects;
        let mut attempts: Vec<Attempt> = Vec::new();
        let mut idx: usize = 0;
        proof {
            assert(all.skip(0) =~= all);
            assert(attempts_view(attempts@) =~= Seq::<AttemptV>::empty());
        }
        loop
            invariant
                idx <= responses@.len(),
                p0 == payload@,
                all == heads_view(responses@),
                all.len() == responses@.len(),
                forall|j: int| 0 <= j < responses@.len() ==> all[j] == responses@[j]@,
                goal == run_spec(req@, method@, url@, redirects, old(jar)@, p0, all),
                ({
                    let o = run_spec(
                        req@,
                        cur_method@,
                        cur_url@,
                        budget,
                        jar@,
                        cur_payload@,
                        all.skip(idx as int),
                    );
                    &&& goal.result == o.result
                    &&& goal.attempts == attempts_view(attempts@) + o.attempts
                    &&& goal.jar == o.jar
                }),
            decreases budget,
        {
            let ghost o = run_spec(
                req@,
                cur_method@,
                cur_url@,
                budget,
                jar@,
                cur_payload@,
                all.skip(idx as int),
            );
            let host: String = hostname_of(&cur_url);
            let secure: bool = str_eq_nocase(cur_url.scheme.as_str(), "https");
            let cookie_hdrs: Vec<Header> = match_cookies(
                jar,
                host.as_str(),
                cur_url.path.as_str(),
                secure,
            );
            match plan_connection(&cur_url, req) {
                Err(e) => {
                    proof {
                        assert(goal.attempts =~= attempts_view(attempts@));
                    }
                    return (Err(e), attempts);
                },
                Ok(plan) => {
                    let prelude: String = build_prelude(
                        cur_method.as_str(),
                        &cur_url,
                        req,
                        &cookie_hdrs,
                    );
                    let n: usize = responses.len();
                    if idx >= n {
                        proof {
                            assert(all.skip(idx as int).len() == 0);
                            assert(goal.attempts =~= attempts_view(attempts@));
                        }
                        return (Err(Error::Io(String::from_str("script exhausted"))), attempts);
                    }
                    let head: &ResponseHead = &responses[idx];
                    proof {
                        assert(all.skip(idx as int)[0] == all[idx as int]);
                    }
                    let set_vals: Vec<String> = all_header_values(&head.headers, "set-cookie");
                    store_cookies(jar, &set_vals, host.as_str());
                    let decision = decide_redirect(&cur_url, budget, head);
                    match decision {
                        HopOutcome::Proceed => {
                            let body = frame_payload(req, &cur_payload);
                            attempts.push(Attempt { plan, prelude, body: Some(body) });
                            let resp = Response {
                                status: head.status,
                                headers: clone_headers(&head.headers),
                            };
                            proof {
                                assert(attempts_view(attempts@).drop_last() =~= attempts_view(
                                    attempts@.drop_last(),
                                ));
                                assert(goal.attempts =~= attempts_view(attempts@));
                                assert(resp@ =~= RespV {
                                    status: all.skip(idx as int)[0].status,
                                    headers: all.skip(idx as int)[0].headers,
                                });
                            }
                            return (Ok(resp), attempts);
                        },
                        HopOutcome::Fail(e) => {
                            attempts.push(Attempt { plan, prelude, body: None });
                            proof {
                                assert(attempts_view(attempts@).drop_last() =~= attempts_view(
                                    attempts@.drop_last(),
                                ));
                                assert(goal.attempts =~= attempts_view(attempts@));
                            }
                            return (Err(e), attempts);
                        },
                        HopOutcome::FollowGet(nu) => {
                            let body = frame_payload(req, &cur_payload);
                            attempts.push(Attempt { plan, prelude, body: Some(body) });
                            proof {
                                assert(budget >= 1);
                                assert(attempts_view(attempts@).drop_last() =~= attempts_view(
                                    attempts@.drop_last(),
                                ));
                                assert(all.skip(idx as int).drop_first() =~= all.skip(
                                    idx + 1,
                                ));
                            }
                            cur_method = String::from_str("GET");
                            cur_payload = Payload::Empty;
                            cur_url = nu;
                            budget = budget - 1;
                            idx = idx + 1;
                            proof {
                                let o2 = run_spec(
                                    req@,
                                    cur_method@,
                                    cur_url@,
                                    budget,
                                    jar@,
                                    cur_payload@,
                                    all.skip(idx as int),
                                );
                                assert(goal.attempts =~= attempts_view(attempts@) + o2.attempts);
                            }
                        },
                        HopOutcome::FollowSame(nu) => {
                            attempts.push(Attempt { plan, prelude, body: None });
                            proof {
                                assert(budget >= 1);
                                assert(attempts_view(attempts@).drop_last() =~= attempts_view(
                                    attempts@.drop_last(),
                                ));
                                assert(all.skip(idx as int).drop_first() =~= all.skip(
                                    idx + 1,
                                ));
                            }
                            cur_url = nu;
                            budget = budget - 1;
                            idx = idx + 1;
                            proof {
                                let o2 = run_spec(
                                    req@,
                                    cur_method@,
                                    cur_url@,
                                    budget,
                                    jar@,
                                    cur_payload@,
                                    all.skip(idx as int),
                                );
                                assert(goal.attempts =~= attempts_view(attempts@) + o2.attempts);
                            }
                        },
                    }
                },
            }
        }
    }
}

} // verus!
