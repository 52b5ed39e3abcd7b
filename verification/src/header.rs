//! Header name/value pairs, the request descriptor, and case-insensitive
//! header lookup shared by requests and response heads.

use vstd::prelude::*;
use crate::text::{eq_nocase, str_eq_nocase};

verus! {

/// One header line: a name and a value. Duplicates are permitted and
/// order is preserved by every function that handles header lists.
#[derive(Debug)]
pub struct Header {
    pub name: String,
    pub value: String,
}

/// Mathematical model of a header.
pub struct HeaderV {
    pub name: Seq<char>,
    pub value: Seq<char>,
}

impl View for Header {
    type V = HeaderV;

    open spec fn view(&self) -> HeaderV {
        HeaderV { name: self.name@, value: self.value@ }
    }
}

impl Clone for Header {
    fn clone(&self) -> (r: Self)
        ensures
            r@ == self@,
    {
        Header { name: self.name.clone(), value: self.value.clone() }
    }
}

impl Header {
    pub fn new(name: &str, value: &str) -> (r: Header)
        ensures
            r@.name == name@,
            r@.value == value@,
    {
        Header { name: name.to_owned(), value: value.to_owned() }
    }
}

/// Model of a list of headers.
pub open spec fn headers_view(hs: Seq<Header>) -> Seq<HeaderV> {
    hs.map_values(|h: Header| h@)
}

/// The value of the first header whose name equals `name` up to ASCII case.
pub open spec fn find_header(hs: Seq<HeaderV>, name: Seq<char>) -> Option<Seq<char>>
    decreases hs.len(),
{
    if hs.len() == 0 {
        None
    } else if eq_nocase(hs[0].name, name) {
        Some(hs[0].value)
    } else {
        find_header(hs.drop_first(), name)
    }
}

/// Some header with that name is present.
pub open spec fn has_header(hs: Seq<HeaderV>, name: Seq<char>) -> bool {
    find_header(hs, name) is Some
}

/// The values of every header named `name`, in order.
pub open spec fn all_values(hs: Seq<HeaderV>, name: Seq<char>) -> Seq<Seq<char>>
    decreases hs.len(),
{
    if hs.len() == 0 {
        Seq::empty()
    } else {
        all_values(hs.drop_last(), name) + (if eq_nocase(hs.last().name, name) {
            seq![hs.last().value]
        } else {
            Seq::empty()
        })
    }
}

/// Model of an optional owned string.
pub open spec fn opt_str_view(o: Option<String>) -> Option<Seq<char>> {
    match o {
        Some(s) => Some(s@),
        None => None,
    }
}

/// Model of a list of owned strings.
pub open spec fn strings_view(ss: Seq<String>) -> Seq<Seq<char>> {
    ss.map_values(|s: String| s@)
}

/// First value of a header with the given name, searched case-insensitively.
pub fn find_header_value(hs: &Vec<Header>, name: &str) -> (r: Option<String>)
    ensures
        opt_str_view(r) == find_header(headers_view(hs@), name@),
{
    let ghost full = headers_view(hs@);
    proof {
        assert(full.skip(0) =~= full);
    }
    let mut i: usize = 0;
    while i < hs.len()
        invariant
            i <= hs@.len(),
            full == headers_view(hs@),
            full.len() == hs@.len(),
            forall|j: int| 0 <= j < hs@.len() ==> full[j] == hs@[j]@,
            find_header(full, name@) == find_header(full.skip(i as int), name@),
        decreases hs@.len() - i,
    {
        let h = &hs[i];
        proof {
            assert(full.skip(i as int)[0] == full[i as int]);
        }
        if str_eq_nocase(h.name.as_str(), name) {
            return Some(h.value.clone());
        }
        proof {
            assert(full.skip(i as int).drop_first() =~= full.skip(i + 1));
        }
        i += 1;
    }
    proof {
        assert(full.skip(hs@.len() as int) =~= Seq::<HeaderV>::empty());
    }
    None
}

/// Whether a header with the given name is present, case-insensitively.
pub fn has_header_named(hs: &Vec<Header>, name: &str) -> (r: bool)
    ensures
        r == has_header(headers_view(hs@), name@),
{
    let v = find_header_value(hs, name);
    v.is_some()
}

/// All values of headers with the given name, in order.
pub fn all_header_values(hs: &Vec<Header>, name: &str) -> (r: Vec<String>)
    ensures
        strings_view(r@) == all_values(headers_view(hs@), name@),
{
    let ghost full = headers_view(hs@);
    let mut out: Vec<String> = Vec::new();
    let mut i: usize = 0;
    while i < hs.len()
        invariant
            i <= hs@.len(),
            full == headers_view(hs@),
            full.len() == hs@.len(),
            forall|j: int| 0 <= j < hs@.len() ==> full[j] == hs@[j]@,
            strings_view(out@) == all_values(full.take(i as int), name@),
        decreases hs@.len() - i,
    {
        let h = &hs[i];
        proof {
            assert(full.take(i + 1).drop_last() =~= full.take(i as int));
            assert(full.take(i + 1).last() == full[i as int]);
        }
        if str_eq_nocase(h.name.as_str(), name) {
            out.push(h.value.clone());
            proof {
                assert(strings_view(out@) =~= all_values(full.take(i + 1), name@));
            }
        } else {
            proof {
                assert(strings_view(out@) =~= all_values(full.take(i + 1), name@));
            }
        }
        i += 1;
    }
    proof {
        assert(full.take(hs@.len() as int) =~= full);
    }
    out
}

/// Copy of a header list, element for element.
pub fn clone_headers(hs: &Vec<Header>) -> (r: Vec<Header>)
    ensures
        headers_view(r@) == headers_view(hs@),
{
    let mut out: Vec<Header> = Vec::new();
    let mut i: usize = 0;
    while i < hs.len()
        invariant
            i <= hs@.len(),
            out@.len() == i,
            forall|j: int| 0 <= j < i ==> out@[j]@ == hs@[j]@,
        decreases hs@.len() - i,
    {
        out.push(hs[i].clone());
        i += 1;
    }
    proof {
        assert(headers_view(out@) =~= headers_view(hs@));
    }
    out
}

/// The request descriptor: ordered headers and the three timeout settings,
/// each `0` meaning "no timeout".
pub struct Request {
    pub headers: Vec<Header>,
    pub timeout: u64,
    pub timeout_read: u64,
    pub timeout_write: u64,
}

/// Mathematical model of a request.
pub struct RequestV {
    pub headers: Seq<HeaderV>,
    pub timeout: u64,
    pub timeout_read: u64,
    pub timeout_write: u64,
}

impl View for Request {
    type V = RequestV;

    open spec fn view(&self) -> RequestV {
        RequestV {
            headers: headers_view(self.headers@),
            timeout: self.timeout,
            timeout_read: self.timeout_read,
            timeout_write: self.timeout_write,
        }
    }
}

impl Request {
    /// A request with no headers and no timeouts.
    pub fn new() -> (r: Request)
        ensures
            r@.headers == Seq::<HeaderV>::empty(),
            r@.timeout == 0,
            r@.timeout_read == 0,
            r@.timeout_write == 0,
    {
        let r = Request { headers: Vec::new(), timeout: 0, timeout_read: 0, timeout_write: 0 };
        proof {
            assert(headers_view(r.headers@) =~= Seq::<HeaderV>::empty());
        }
        r
    }

    /// The value of the first header with that name, case-insensitively.
    pub fn header(&self, name: &str) -> (r: Option<String>)
        ensures
            opt_str_view(r) == find_header(self@.headers, name@),
    {
        find_header_value(&self.headers, name)
    }

    /// Whether the caller set a header with that name.
    pub fn has(&self, name: &str) -> (r: bool)
        ensures
            r == has_header(self@.headers, name@),
    {
        has_header_named(&self.headers, name)
    }
}

} // verus!
