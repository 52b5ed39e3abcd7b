//! The cookie jar: matching stored cookies against a request target and
//! folding `Set-Cookie` response values into the store. Cookie text is
//! parsed and re-encoded by the cookie value layer, reached through two
//! trusted wrappers; everything around them is verified.

use vstd::prelude::*;
use vstd::string::StringExecFns;
use crate::header::{Header, HeaderV};
use crate::text::{prefix_of, str_ends_with, str_eq, str_starts_with, suffix_of};

verus! {

/// One stored cookie record.
pub struct Cookie {
    pub name: String,
    pub value: String,
    pub domain: Option<String>,
    pub path: Option<String>,
    pub secure: bool,
}

/// Mathematical model of a cookie record.
pub struct CookieV {
    pub name: Seq<char>,
    pub value: Seq<char>,
    pub domain: Option<Seq<char>>,
    pub path: Option<Seq<char>>,
    pub secure: bool,
}

impl View for Cookie {
    type V = CookieV;

    open spec fn view(&self) -> CookieV {
        CookieV {
            name: self.name@,
            value: self.value@,
            domain: match self.domain {
                Some(ref d) => Some(d@),
                None => None,
            },
            path: match self.path {
                Some(ref p) => Some(p@),
                None => None,
            },
            secure: self.secure,
        }
    }
}

impl Clone for Cookie {
    fn clone(&self) -> (r: Self)
        ensures
            r@ == self@,
    {
        Cookie {
            name: self.name.clone(),
            value: self.value.clone(),
            domain: match &self.domain {
                Some(d) => Some(d.clone()),
                None => None,
            },
            path: match &self.path {
                Some(p) => Some(p.clone()),
                None => None,
            },
            secure: self.secure,
        }
    }
}

/// The jar with every entry of that name removed.
pub open spec fn without_name(jar: Seq<CookieV>, name: Seq<char>) -> Seq<CookieV>
    decreases jar.len(),
{
    if jar.len() == 0 {
        Seq::empty()
    } else {
        without_name(jar.drop_last(), name) + (if jar.last().name == name {
            Seq::empty()
        } else {
            seq![jar.last()]
        })
    }
}

/// A store after records arrive in order, each replacing any entry that
/// carries the same name.
pub open spec fn jar_after(jar: Seq<CookieV>, records: Seq<CookieV>) -> Seq<CookieV>
    decreases records.len(),
{
    if records.len() == 0 {
        jar
    } else {
        without_name(jar_after(jar, records.drop_last()), records.last().name).push(
            records.last(),
        )
    }
}

/// The mutable cookie store shared across a whole redirect chain.
pub struct CookieJar {
    cookies: Vec<Cookie>,
}

impl View for CookieJar {
    type V = Seq<CookieV>;

    closed spec fn view(&self) -> Seq<CookieV> {
        self.cookies@.map_values(|c: Cookie| c@)
    }
}

impl CookieJar {
    /// An empty jar.
    pub fn new() -> (r: CookieJar)
        ensures
            r@ == Seq::<CookieV>::empty(),
    {
        let r = CookieJar { cookies: Vec::new() };
        proof {
            assert(r@ =~= Seq::<CookieV>::empty());
        }
        r
    }

    /// Stores one cookie, replacing any entry with the same name.
    pub fn add(&mut self, c: Cookie)
        ensures
            final(self)@ == without_name(old(self)@, c@.name).push(c@),
    {
        let ghost jv = old(self)@;
        let ghost cv = c@;
        let mut kept: Vec<Cookie> = Vec::new();
        let mut i: usize = 0;
        proof {
            assert(kept@.map_values(|x: Cookie| x@) =~= without_name(jv.take(0), cv.name));
        }
        while i < self.cookies.len()
            invariant
                i <= self.cookies@.len(),
                cv == c@,
                jv == self.cookies@.map_values(|x: Cookie| x@),
                jv.len() == self.cookies@.len(),
                forall|j: int| 0 <= j < jv.len() ==> jv[j] == self.cookies@[j]@,
                kept@.map_values(|x: Cookie| x@) == without_name(jv.take(i as int), cv.name),
            decreases self.cookies@.len() - i,
        {
            let keep: bool = !str_eq(self.cookies[i].name.as_str(), c.name.as_str());
            proof {
                assert(jv.take(i + 1).drop_last() =~= jv.take(i as int));
                assert(jv.take(i + 1).last() == jv[i as int]);
            }
            if keep {
                kept.push(self.cookies[i].clone());
            }
            proof {
                assert(kept@.map_values(|x: Cookie| x@) =~= without_name(
                    jv.take(i + 1),
                    cv.name,
                ));
            }
            i += 1;
        }
        proof {
            assert(jv.take(jv.len() as int) =~= jv);
        }
        self.cookies = kept;
        self.cookies.push(c);
        proof {
            assert(self@ =~= without_name(jv, cv.name).push(cv));
        }
    }

    pub fn len(&self) -> (r: usize)
        ensures
            r == self@.len(),
    {
        self.cookies.len()
    }

    pub fn get(&self, i: usize) -> (r: &Cookie)
        requires
            i < self@.len(),
        ensures
            r@ == self@[i as int],
    {
        &self.cookies[i]
    }
}

/// Whether a jar entry is sent to a request target. Its domain must be
/// present and be a suffix of the request domain; its path, when present,
/// must be a literal prefix of the request path; a secure-only entry is
/// sent only over the encrypted scheme.
pub open spec fn cookie_matches(
    c: CookieV,
    domain: Seq<char>,
    path: Seq<char>,
    is_secure: bool,
) -> bool {
    &&& match c.domain {
        Some(cd) => suffix_of(cd, domain),
        None => false,
    }
    &&& match c.path {
        Some(cp) => prefix_of(cp, path),
        None => true,
    }
    &&& (!c.secure || is_secure)
}

/// What a cookie's name and value re-encode to in a `Cookie:` header.
/// The outcome depends on the two strings alone.
pub uninterp spec fn encoded_pair_of(name: Seq<char>, value: Seq<char>) -> Seq<char>;

/// Relies on `cookie::Cookie::new` and its percent-encoding display
/// `Cookie::encoded`: renders a name/value pair in encoded `name=value` form.
#[verifier::external_body]
fn encode_pair(name: &str, value: &str) -> (r: String)
    ensures
        r@ == encoded_pair_of(name@, value@),
{
    cookie::Cookie::new(name, value).encoded().to_string()
}

/// The header line a matching jar entry turns into.
pub open spec fn rendered(c: CookieV) -> HeaderV {
    HeaderV { name: "Cookie"@, value: encoded_pair_of(c.name, c.value) }
}

/// The `Cookie:` header lines produced for a jar against one target, in
/// jar order, one per matching entry.
pub open spec fn matched_headers(
    jar: Seq<CookieV>,
    domain: Seq<char>,
    path: Seq<char>,
    is_secure: bool,
) -> Seq<HeaderV>
    decreases jar.len(),
{
    if jar.len() == 0 {
        Seq::empty()
    } else {
        matched_headers(jar.drop_last(), domain, path, is_secure) + (if cookie_matches(
            jar.last(),
            domain,
            path,
            is_secure,
        ) {
            seq![rendered(jar.last())]
        } else {
            Seq::empty()
        })
    }
}

/// Filters the jar against the target and renders each match into one
/// `Cookie:` header.
pub fn match_cookies(jar: &CookieJar, domain: &str, path: &str, is_secure: bool) -> (r: Vec<
    Header,
>)
    ensures
        crate::header::headers_view(r@) == matched_headers(jar@, domain@, path@, is_secure),
{
    let ghost jv = jar@;
    let mut out: Vec<Header> = Vec::new();
    let mut i: usize = 0;
    proof {
        assert(crate::header::headers_view(out@) =~= matched_headers(
            jv.take(0),
            domain@,
            path@,
            is_secure,
        ));
    }
    while i < jar.len()
        invariant
            i <= jv.len(),
            jv == jar@,
            crate::header::headers_view(out@) == matched_headers(
                jv.take(i as int),
                domain@,
                path@,
                is_secure,
            ),
        decreases jv.len() - i,
    {
        let c = jar.get(i);
        let domain_ok: bool = match &c.domain {
            Some(cd) => str_ends_with(cd.as_str(), domain),
            None => false,
        };
        let path_ok: bool = match &c.path {
            Some(cp) => str_starts_with(cp.as_str(), path),
            None => true,
        };
        let secure_ok: bool = !c.secure || is_secure;
        proof {
            assert(jv.take(i + 1).drop_last() =~= jv.take(i as int));
            assert(jv.take(i + 1).last() == jv[i as int]);
        }
        if domain_ok && path_ok && secure_ok {
            let line = encode_pair(c.name.as_str(), c.value.as_str());
            out.push(Header { name: String::from_str("Cookie"), value: line });
        }
        proof {
            assert(crate::header::headers_view(out@) =~= matched_headers(
                jv.take(i + 1),
                domain@,
                path@,
                is_secure,
            ));
        }
        i += 1;
    }
    proof {
        assert(jv.take(jv.len() as int) =~= jv);
    }
    out
}

/// What the cookie value layer makes of one encoded cookie string:
/// name, value, domain, path and the secure flag, or nothing when the
/// text does not parse. The outcome depends on the string alone.
pub uninterp spec fn parse_cookie_of(s: Seq<char>) -> Option<
    (Seq<char>, Seq<char>, Option<Seq<char>>, Option<Seq<char>>, Option<bool>),
>;

/// Model of the parts handed back by the cookie parser.
pub open spec fn parts_view(
    r: Option<(String, String, Option<String>, Option<String>, Option<bool>)>,
) -> Option<(Seq<char>, Seq<char>, Option<Seq<char>>, Option<Seq<char>>, Option<bool>)> {
    match r {
        None => None,
        Some(t) => Some(
            (
                t.0@,
                t.1@,
                match t.2 {
                    Some(d) => Some(d@),
                    None => None,
                },
                match t.3 {
                    Some(p) => Some(p@),
                    None => None,
                },
                t.4,
            ),
        ),
    }
}

/// Relies on `cookie::Cookie::parse_encoded`: parses one percent-encoded
/// cookie string and hands its parts out, or `None` on unparseable text.
#[verifier::external_body]
fn parse_cookie(raw: &str) -> (r: Option<
    (String, String, Option<String>, Option<String>, Option<bool>),
>)
    ensures
        parts_view(r) == parse_cookie_of(raw@),
{
    match cookie::Cookie::parse_encoded(raw) {
        Err(_) => None,
        Ok(c) => Some(
            (
                c.name().to_string(),
                c.value().to_string(),
                c.domain().map(|d| d.to_string()),
                c.path().map(|p| p.to_string()),
                c.secure(),
            ),
        ),
    }
}

/// The record the parsed parts turn into, the secure flag defaulting to
/// "not marked" when the attribute is absent.
pub open spec fn record_of(
    t: (Seq<char>, Seq<char>, Option<Seq<char>>, Option<Seq<char>>, Option<bool>),
) -> CookieV {
    CookieV { name: t.0, value: t.1, domain: t.2, path: t.3, secure: t.4 == Some(true) }
}

/// The text a value re-parses from when its parse carries no domain
/// attribute: the raw value with a domain synthesized from the request
/// host.
pub open spec fn synthesized(raw: Seq<char>, host: Seq<char>) -> Seq<char> {
    raw + "; Domain="@ + host
}

/// The record stored for one `Set-Cookie` value: its parse, when that
/// carries a domain attribute; else the parse of the value with a domain
/// synthesized from the request host; nothing when parsing fails.
pub open spec fn stored_cookie(raw: Seq<char>, host: Seq<char>) -> Option<CookieV> {
    match parse_cookie_of(raw) {
        None => None,
        Some(t) => if t.2 is Some {
            Some(record_of(t))
        } else {
            match parse_cookie_of(synthesized(raw, host)) {
                None => None,
                Some(t2) => Some(record_of(t2)),
            }
        },
    }
}

/// The records stored for a list of `Set-Cookie` values, in order;
/// unparseable values are dropped silently.
pub open spec fn stored_cookies(raws: Seq<Seq<char>>, host: Seq<char>) -> Seq<CookieV>
    decreases raws.len(),
{
    if raws.len() == 0 {
        Seq::empty()
    } else {
        stored_cookies(raws.drop_last(), host) + (match stored_cookie(raws.last(), host) {
            Some(c) => seq![c],
            None => Seq::empty(),
        })
    }
}

/// Folds the `Set-Cookie` values of one response into the jar, each
/// stored record replacing any entry of the same name. A value whose
/// parse lacks a domain attribute gets one equal to the request host and
/// is parsed again; a value that does not parse is dropped, never an
/// error.
pub fn store_cookies(jar: &mut CookieJar, raws: &Vec<String>, host: &str)
    ensures
        final(jar)@ == jar_after(
            old(jar)@,
            stored_cookies(crate::header::strings_view(raws@), host@),
        ),
{
    let ghost rv = crate::header::strings_view(raws@);
    let mut i: usize = 0;
    proof {
        assert(stored_cookies(rv.take(0), host@) =~= Seq::<CookieV>::empty());
        assert(jar@ == jar_after(old(jar)@, stored_cookies(rv.take(0), host@)));
    }
    while i < raws.len()
        invariant
            i <= rv.len(),
            rv == crate::header::strings_view(raws@),
            rv.len() == raws@.len(),
            forall|j: int| 0 <= j < raws@.len() ==> rv[j] == raws@[j]@,
            jar@ == jar_after(old(jar)@, stored_cookies(rv.take(i as int), host@)),
        decreases rv.len() - i,
    {
        let raw = &raws[i];
        let ghost pre = stored_cookies(rv.take(i as int), host@);
        proof {
            assert(rv.take(i + 1).drop_last() =~= rv.take(i as int));
            assert(rv.take(i + 1).last() == rv[i as int]);
        }
        let parsed = parse_cookie(raw.as_str());
        let ghost pv = parts_view(parsed);
        match parsed {
            None => {
                proof {
                    assert(stored_cookies(rv.take(i + 1), host@) =~= pre);
                }
            },
            Some(t) => {
                if t.2.is_some() {
                    let secure: bool = match t.4 {
                        Some(b) => b,
                        None => false,
                    };
                    let record = Cookie { name: t.0, value: t.1, domain: t.2, path: t.3, secure };
                    proof {
                        assert(record@ == record_of(pv->Some_0));
                        assert(stored_cookie(rv[i as int], host@) == Some(record@));
                        assert(stored_cookies(rv.take(i + 1), host@) =~= pre.push(record@));
                        assert(pre.push(record@).drop_last() =~= pre);
                    }
                    jar.add(record);
                } else {
                    let synth: String = raw.clone().concat("; Domain=").concat(host);
                    proof {
                        assert(synth@ == synthesized(rv[i as int], host@));
                    }
                    let parsed2 = parse_cookie(synth.as_str());
                    let ghost pv2 = parts_view(parsed2);
                    match parsed2 {
                        None => {
                            proof {
                                assert(stored_cookies(rv.take(i + 1), host@) =~= pre);
                            }
                        },
                        Some(t2) => {
                            let secure: bool = match t2.4 {
                                Some(b) => b,
                                None => false,
                            };
                            let record = Cookie {
                                name: t2.0,
                                value: t2.1,
                                domain: t2.2,
                                path: t2.3,
                                secure,
                            };
                            proof {
                                assert(record@ == record_of(pv2->Some_0));
                                assert(stored_cookie(rv[i as int], host@) == Some(record@));
                                assert(stored_cookies(rv.take(i + 1), host@) =~= pre.push(
                                    record@,
                                ));
                                assert(pre.push(record@).drop_last() =~= pre);
                            }
                            jar.add(record);
                        },
                    }
                }
            },
        }
        proof {
            assert(jar@ == jar_after(old(jar)@, stored_cookies(rv.take(i + 1), host@)));
        }
        i += 1;
    }
    proof {
        assert(rv.take(rv.len() as int) =~= rv);
    }
}

/// A jar entry without a domain attribute is never sent, whatever the
/// request target is.
pub proof fn lemma_no_domain_never_matches(
    c: CookieV,
    domain: Seq<char>,
    path: Seq<char>,
    is_secure: bool,
)
    requires
        c.domain is None,
    ensures
        !cookie_matches(c, domain, path, is_secure),
{
}

/// A secure-only jar entry is never sent over the plaintext scheme, even
/// when its domain and path match.
pub proof fn lemma_secure_not_sent_plain(c: CookieV, domain: Seq<char>, path: Seq<char>)
    requires
        c.secure,
    ensures
        !cookie_matches(c, domain, path, false),
{
}

/// The jar with every secure-only entry removed.
pub open spec fn without_secure(jar: Seq<CookieV>) -> Seq<CookieV>
    decreases jar.len(),
{
    if jar.len() == 0 {
        Seq::empty()
    } else {
        without_secure(jar.drop_last()) + (if jar.last().secure {
            Seq::empty()
        } else {
            seq![jar.last()]
        })
    }
}

/// For a plaintext request, the produced header lines are exactly those of
/// the jar with every secure-only entry removed: a secure-flagged entry
/// never appears in the headers of a plaintext request.
pub proof fn lemma_plain_request_excludes_secure(
    jar: Seq<CookieV>,
    domain: Seq<char>,
    path: Seq<char>,
)
    ensures
        matched_headers(jar, domain, path, false) == matched_headers(
            without_secure(jar),
            domain,
            path,
            false,
        ),
    decreases jar.len(),
{
    if jar.len() > 0 {
        lemma_plain_request_excludes_secure(jar.drop_last(), domain, path);
        if jar.last().secure {
            assert(!cookie_matches(jar.last(), domain, path, false));
            assert(without_secure(jar) =~= without_secure(jar.drop_last()));
            assert(matched_headers(jar, domain, path, false) =~= matched_headers(
                jar.drop_last(),
                domain,
                path,
                false,
            ));
        } else {
            let w = without_secure(jar);
            assert(w.len() > 0);
            assert(w.drop_last() =~= without_secure(jar.drop_last()));
            assert(w.last() == jar.last());
            assert(matched_headers(jar, domain, path, false) =~= matched_headers(
                w,
                domain,
                path,
                false,
            ));
        }
    }
}

} // verus!
