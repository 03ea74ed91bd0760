//! The request line: method, percent-decoding and the requested path.

use vstd::prelude::*;
use vstd::string::*;
use crate::text::{chars_of, find, first_match, has_prefix, starts_with};

verus! {

/// The methods the server answers.
#[derive(Clone, Copy, Debug, PartialEq, Eq, Structural)]
pub enum Method {
    Get,
    Head,
}

/// A request the server answers: its method and the decoded path below the
/// document root (without the leading `/` and without a query string).
#[derive(Debug)]
pub struct Request {
    pub method: Method,
    pub path: String,
}

/// The method that the request text begins with, if it is one the server answers.
pub open spec fn method_of(t: Seq<char>) -> Option<Method> {
    if starts_with(t, "GET "@) {
        Some(Method::Get)
    } else if starts_with(t, "HEAD "@) {
        Some(Method::Head)
    } else {
        None
    }
}

/// A path with its query string (from the first `?` on) removed.
pub open spec fn strip_query(p: Seq<char>) -> Seq<char> {
    match first_match(p, seq!['?']) {
        Some(i) => p.subrange(0, i),
        None => p,
    }
}

/// The path of the request text: what stands between the first `/` and the
/// character before the first `HTTP`, without its query string.
pub open spec fn path_of(t: Seq<char>) -> Option<Seq<char>> {
    match (first_match(t, seq!['/']), first_match(t, "HTTP"@)) {
        (Some(s), Some(h)) => if s + 2 <= h {
            Some(strip_query(t.subrange(s + 1, h - 1)))
        } else {
            None
        },
        _ => None,
    }
}

/// The method and the still encoded path of a request text; `None` when the
/// method is not answered or the request line is malformed.
pub open spec fn parsed_request(t: Seq<char>) -> Option<(Method, Seq<char>)> {
    match (method_of(t), path_of(t)) {
        (Some(m), Some(p)) => Some((m, p)),
        _ => None,
    }
}

/// What percent-decoding the text gives; `None` when the decoded bytes are not UTF-8.
pub uninterp spec fn percent_decoded(s: Seq<char>) -> Option<Seq<char>>;

/// The request that raw request text carries: the method and path are read
/// from the text as it stands, the query string is cut off, and then the
/// path alone is percent-decoded.
pub open spec fn request_of(raw: Seq<char>) -> Option<(Method, Seq<char>)> {
    match parsed_request(raw) {
        Some((m, p)) => match percent_decoded(p) {
            Some(d) => Some((m, d)),
            None => None,
        },
        None => None,
    }
}

/// The view of an optional request as plain values.
pub open spec fn request_view(r: Option<Request>) -> Option<(Method, Seq<char>)> {
    match r {
        Some(q) => Some((q.method, q.path@)),
        None => None,
    }
}

/// Relies on urlencoding::decode: it depends on its argument alone, fails
/// only when the decoded bytes are not UTF-8, and gives back a text without
/// `%` unchanged.
#[verifier::external_body]
fn percent_decode(s: &str) -> (r: Option<String>)
    ensures
        match r {
            Some(d) => percent_decoded(s@) == Some(d@),
            None => percent_decoded(s@) is None,
        },
        !s@.contains('%') ==> r is Some && r->0@ == s@,
{
    match urlencoding::decode(s) {
        Ok(d) => Some(d.into_owned()),
        Err(_) => None,
    }
}

/// Removes the query string from a path.
fn without_query(p: &str) -> (r: String)
    ensures
        r@ == strip_query(p@),
{
    let cs = chars_of(p);
    let q = vec!['?'];
    assert(q@ =~= seq!['?']);
    match find(&cs, &q) {
        Some(i) => {
            proof {
                crate::text::lemma_first_match_bound(cs@, q@);
            }
            p.substring_char(0, i).to_owned()
        },
        None => p.to_owned(),
    }
}

/// Parses request text into its method and its path, still percent-encoded.
pub fn parse_request_line(text: &str) -> (r: Option<Request>)
    ensures
        request_view(r) == parsed_request(text@),
{
    let cs = chars_of(text);
    let method = if has_prefix(&cs, &chars_of("GET ")) {
        Method::Get
    } else if has_prefix(&cs, &chars_of("HEAD ")) {
        Method::Head
    } else {
        return None;
    };
    let slash = vec!['/'];
    assert(slash@ =~= seq!['/']);
    let http = chars_of("HTTP");
    let s = match find(&cs, &slash) {
        Some(s) => s,
        None => return None,
    };
    let h = match find(&cs, &http) {
        Some(h) => h,
        None => return None,
    };
    proof {
        crate::text::lemma_first_match_bound(cs@, slash@);
        crate::text::lemma_first_match_bound(cs@, http@);
    }
    if h < 2 || s > h - 2 {
        return None;
    }
    let raw_path = text.substring_char(s + 1, h - 1);
    let path = without_query(raw_path);
    Some(Request { method, path })
}

/// Parses raw request text, then percent-decodes its path; `None` stands for
/// a request the server refuses with "405 Method Not Allowed" (another
/// method, a malformed request line, or a path that does not decode to UTF-8).
pub fn parse_request(raw: &str) -> (r: Option<Request>)
    ensures
        request_view(r) == request_of(raw@),
{
    match parse_request_line(raw) {
        Some(q) => match percent_decode(q.path.as_str()) {
            Some(path) => Some(Request { method: q.method, path }),
            None => None,
        },
        None => None,
    }
}

} // verus!
