//! Laws of the pipeline: how the redirect budget bounds the chain, what
//! each redirect class does to method and payload, and that an unknown
//! scheme stops everything before any connection is attempted.

use vstd::prelude::*;
use crate::conn::{is_redirect_head, plan_spec, run_spec, HeadV};
use crate::cookies::{jar_after, stored_cookies, CookieV};
use crate::error::ErrorV;
use crate::header::{all_values, find_header, RequestV};
use crate::payload::{framed_spec, PayloadV};
use crate::urlinfo::{host_or_default, join_of, UrlV};

verus! {

/// A script of exactly `n` redirect responses, each with a location that
/// resolves against the URL it answers and a hop whose connection plans,
/// followed by one non-redirect response.
pub open spec fn redirect_chain(req: RequestV, url: UrlV, responses: Seq<HeadV>, n: nat) -> bool
    decreases n,
{
    &&& plan_spec(url, req) is Ok
    &&& responses.len() > 0
    &&& if n == 0 {
        !is_redirect_head(responses[0])
    } else {
        &&& is_redirect_head(responses[0])
        &&& match find_header(responses[0].headers, "location"@) {
            Some(loc) => match join_of(url.full, loc) {
                Some(nu) => redirect_chain(req, nu, responses.drop_first(), (n - 1) as nat),
                None => false,
            },
            None => false,
        }
    }
}

/// For every budget of at least `n` and a response chain of exactly `n`
/// redirects followed by a non-redirect response, the pipeline succeeds
/// and makes exactly `n + 1` connection attempts.
pub proof fn lemma_chain_succeeds(
    req: RequestV,
    method: Seq<char>,
    url: UrlV,
    budget: u32,
    jar: Seq<CookieV>,
    payload: PayloadV,
    responses: Seq<HeadV>,
    n: nat,
)
    requires
        redirect_chain(req, url, responses, n),
        n <= budget,
    ensures
        run_spec(req, method, url, budget, jar, payload, responses).result is Ok,
        run_spec(req, method, url, budget, jar, payload, responses).attempts.len() == n + 1,
    decreases n,
{
    let host = host_or_default(url.host);
    let jar1 = jar_after(jar, stored_cookies(all_values(responses[0].headers, "set-cookie"@), host));
    if n == 0 {
        assert(run_spec(req, method, url, budget, jar, payload, responses).result is Ok);
    } else {
        let loc = find_header(responses[0].headers, "location"@)->Some_0;
        let nu = join_of(url.full, loc)->Some_0;
        assert(budget >= 1);
        if responses[0].status == 301 || responses[0].status == 302 || responses[0].status
            == 303 {
            lemma_chain_succeeds(
                req,
                "GET"@,
                nu,
                (budget - 1) as u32,
                jar1,
                PayloadV::Empty,
                responses.drop_first(),
                (n - 1) as nat,
            );
        } else {
            lemma_chain_succeeds(
                req,
                method,
                nu,
                (budget - 1) as u32,
                jar1,
                payload,
                responses.drop_first(),
                (n - 1) as nat,
            );
        }
    }
}

/// With a budget of zero, any redirect response fails the chain with
/// `TooManyRedirects` after exactly one connection attempt: the pipeline
/// never recurses.
pub proof fn lemma_budget_zero_fails(
    req: RequestV,
    method: Seq<char>,
    url: UrlV,
    jar: Seq<CookieV>,
    payload: PayloadV,
    responses: Seq<HeadV>,
)
    requires
        plan_spec(url, req) is Ok,
        responses.len() > 0,
        is_redirect_head(responses[0]),
    ensures
        run_spec(req, method, url, 0, jar, payload, responses).result == Err::<
            crate::conn::RespV,
            ErrorV,
        >(ErrorV::TooManyRedirects),
        run_spec(req, method, url, 0, jar, payload, responses).attempts.len() == 1,
{
}

/// After a redirect with status 301, 302 or 303, the rest of the chain is
/// exactly a run whose method is GET and whose payload is empty, whatever
/// the original method and payload were; the original payload is drained
/// on the connection that received the redirect.
pub proof fn lemma_redirect_rewrites_to_get(
    req: RequestV,
    method: Seq<char>,
    url: UrlV,
    budget: u32,
    jar: Seq<CookieV>,
    payload: PayloadV,
    responses: Seq<HeadV>,
    loc: Seq<char>,
    nu: UrlV,
)
    requires
        plan_spec(url, req) is Ok,
        responses.len() > 0,
        budget >= 1,
        responses[0].status == 301 || responses[0].status == 302 || responses[0].status == 303,
        find_header(responses[0].headers, "location"@) == Some(loc),
        join_of(url.full, loc) == Some(nu),
    ensures
        ({
            let host = host_or_default(url.host);
            let jar1 = jar_after(jar, stored_cookies(all_values(responses[0].headers, "set-cookie"@), host));
            let whole = run_spec(req, method, url, budget, jar, payload, responses);
            let sub = run_spec(
                req,
                "GET"@,
                nu,
                (budget - 1) as u32,
                jar1,
                PayloadV::Empty,
                responses.drop_first(),
            );
            &&& whole.result == sub.result
            &&& whole.jar == sub.jar
            &&& whole.attempts.len() == 1 + sub.attempts.len()
            &&& whole.attempts.skip(1) == sub.attempts
            &&& whole.attempts[0].body == Some(framed_spec(req, payload))
        }),
{
    let host = host_or_default(url.host);
    let jar1 = jar_after(jar, stored_cookies(all_values(responses[0].headers, "set-cookie"@), host));
    let whole = run_spec(req, method, url, budget, jar, payload, responses);
    let sub = run_spec(
        req,
        "GET"@,
        nu,
        (budget - 1) as u32,
        jar1,
        PayloadV::Empty,
        responses.drop_first(),
    );
    assert(whole.attempts.skip(1) =~= sub.attempts);
}

/// After a redirect with status 307 or 308 (or any other redirect status
/// outside 301, 302 and 303), the rest of the chain is exactly a run with
/// the original method and the original payload, and nothing is sent on
/// the connection that received the redirect.
pub proof fn lemma_redirect_preserves_method(
    req: RequestV,
    method: Seq<char>,
    url: UrlV,
    budget: u32,
    jar: Seq<CookieV>,
    payload: PayloadV,
    responses: Seq<HeadV>,
    loc: Seq<char>,
    nu: UrlV,
)
    requires
        plan_spec(url, req) is Ok,
        responses.len() > 0,
        budget >= 1,
        300 <= responses[0].status < 400,
        responses[0].status != 301 && responses[0].status != 302 && responses[0].status != 303,
        find_header(responses[0].headers, "location"@) == Some(loc),
        join_of(url.full, loc) == Some(nu),
    ensures
        ({
            let host = host_or_default(url.host);
            let jar1 = jar_after(jar, stored_cookies(all_values(responses[0].headers, "set-cookie"@), host));
            let whole = run_spec(req, method, url, budget, jar, payload, responses);
            let sub = run_spec(
                req,
                method,
                nu,
                (budget - 1) as u32,
                jar1,
                payload,
                responses.drop_first(),
            );
            &&& whole.result == sub.result
            &&& whole.jar == sub.jar
            &&& whole.attempts.len() == 1 + sub.attempts.len()
            &&& whole.attempts.skip(1) == sub.attempts
            &&& whole.attempts[0].body is None
        }),
{
    let host = host_or_default(url.host);
    let jar1 = jar_after(jar, stored_cookies(all_values(responses[0].headers, "set-cookie"@), host));
    let whole = run_spec(req, method, url, budget, jar, payload, responses);
    let sub = run_spec(
        req,
        method,
        nu,
        (budget - 1) as u32,
        jar1,
        payload,
        responses.drop_first(),
    );
    assert(whole.attempts.skip(1) =~= sub.attempts);
}

/// A URL whose scheme is neither the plaintext nor the encrypted one fails
/// with `UnknownScheme` before any connection attempt: no attempt is made,
/// so no name resolution is ever reached, and the jar is untouched.
pub proof fn lemma_unknown_scheme_stops_chain(
    req: RequestV,
    method: Seq<char>,
    url: UrlV,
    budget: u32,
    jar: Seq<CookieV>,
    payload: PayloadV,
    responses: Seq<HeadV>,
)
    requires
        url.scheme != "http"@,
        url.scheme != "https"@,
    ensures
        run_spec(req, method, url, budget, jar, payload, responses).result == Err::<
            crate::conn::RespV,
            ErrorV,
        >(ErrorV::UnknownScheme(url.scheme)),
        run_spec(req, method, url, budget, jar, payload, responses).attempts.len() == 0,
        run_spec(req, method, url, budget, jar, payload, responses).jar == jar,
{
}

/// The redirect budget bounds every chain: however the responses run, the
/// pipeline makes at most `budget + 1` connection attempts and never loops.
pub proof fn lemma_attempts_bounded(
    req: RequestV,
    method: Seq<char>,
    url: UrlV,
    budget: u32,
    jar: Seq<CookieV>,
    payload: PayloadV,
    responses: Seq<HeadV>,
)
    ensures
        run_spec(req, method, url, budget, jar, payload, responses).attempts.len() <= budget + 1,
    decreases budget,
{
    let host = host_or_default(url.host);
    if plan_spec(url, req) is Ok && responses.len() > 0 {
        let jar1 = jar_after(jar, stored_cookies(all_values(responses[0].headers, "set-cookie"@), host));
        match crate::conn::redirect_decision(url, budget, responses[0]) {
            crate::conn::HopV::FollowGet(nu) => {
                lemma_attempts_bounded(
                    req,
                    "GET"@,
                    nu,
                    (budget - 1) as u32,
                    jar1,
                    PayloadV::Empty,
                    responses.drop_first(),
                );
            },
            crate::conn::HopV::FollowSame(nu) => {
                lemma_attempts_bounded(
                    req,
                    method,
                    nu,
                    (budget - 1) as u32,
                    jar1,
                    payload,
                    responses.drop_first(),
                );
            },
            _ => {},
        }
    }
}

} // verus!
