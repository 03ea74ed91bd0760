//! Mime types, status lines and response headers.

use vstd::prelude::*;
use vstd::string::*;
use std::fmt::Write;
use crate::request::Method;
use crate::resolve::{Outcome, OutcomeView};
use crate::text::{chars_of, last_index, rfind_char, same_chars};

verus! {

/// The status of a response.
#[derive(Clone, Copy, Debug, PartialEq, Eq, Structural)]
pub enum Status {
    Success,
    Forbidden,
    NotFound,
    MethodNotAllowed,
}

/// The mime type given to files with the extension `e`.
pub open spec fn mime_of_ext(e: Seq<char>) -> Seq<char> {
    if e == "html"@ {
        "text/html"@
    } else if e == "css"@ {
        "text/css"@
    } else if e == "js"@ {
        "application/javascript"@
    } else if e == "jpg"@ || e == "jpeg"@ {
        "image/jpeg"@
    } else if e == "png"@ {
        "image/png"@
    } else if e == "gif"@ {
        "image/gif"@
    } else if e == "swf"@ {
        "application/x-shockwave-flash"@
    } else {
        "text/plain"@
    }
}

/// The extension of a file name: what follows its last `.`, if it has one.
pub open spec fn extension(name: Seq<char>) -> Option<Seq<char>> {
    match last_index(name, '.') {
        Some(i) => Some(name.subrange(i + 1, name.len() as int)),
        None => None,
    }
}

/// The mime type of a file name, by its extension.
pub open spec fn mime_type(name: Seq<char>) -> Seq<char> {
    match extension(name) {
        Some(e) => mime_of_ext(e),
        None => "text/plain"@,
    }
}

/// The status that an outcome is answered with.
pub open spec fn status_of(o: OutcomeView) -> Status {
    match o {
        OutcomeView::Serve(_) => Status::Success,
        OutcomeView::Forbidden => Status::Forbidden,
        OutcomeView::NotFound => Status::NotFound,
        OutcomeView::NotAllowed => Status::MethodNotAllowed,
    }
}

/// The status line of a status.
pub open spec fn status_line(s: Status) -> Seq<char> {
    match s {
        Status::Success => "HTTP/1.1 200 OK"@,
        Status::Forbidden => "HTTP/1.1 403 Forbidden"@,
        Status::NotFound => "HTTP/1.1 404 Not Found"@,
        Status::MethodNotAllowed => "HTTP/1.1 405 Method Not Allowed"@,
    }
}

/// The content type of an outcome's body; `None` for an outcome without a body.
pub open spec fn content_type(o: OutcomeView) -> Option<Seq<char>> {
    match o {
        OutcomeView::Serve(p) => Some(mime_type(p)),
        OutcomeView::NotFound => None,
        _ => Some("text/html"@),
    }
}

/// The fixed page sent for an outcome that has one.
pub open spec fn page_of(o: OutcomeView) -> Seq<char> {
    match o {
        OutcomeView::Forbidden => "<html><body><h1>403 Forbidden</h1></body></html>\n"@,
        OutcomeView::NotAllowed => "<html><body><h1>405 Method Not Allowed</h1></body></html>\n"@,
        _ => Seq::empty(),
    }
}

/// Whether the body follows the header: never for a 404, always for the
/// 405 page, and otherwise for GET only.
pub open spec fn sends_body(method: Option<Method>, o: OutcomeView) -> bool {
    match o {
        OutcomeView::NotFound => false,
        OutcomeView::NotAllowed => true,
        _ => method == Some(Method::Get),
    }
}

/// The digit character of `d < 10`.
pub open spec fn digit(d: nat) -> char {
    if d == 0 {
        '0'
    } else if d == 1 {
        '1'
    } else if d == 2 {
        '2'
    } else if d == 3 {
        '3'
    } else if d == 4 {
        '4'
    } else if d == 5 {
        '5'
    } else if d == 6 {
        '6'
    } else if d == 7 {
        '7'
    } else if d == 8 {
        '8'
    } else {
        '9'
    }
}

/// The decimal form of `n`, without leading zeros.
pub open spec fn decimal(n: nat) -> Seq<char>
    decreases n,
{
    if n < 10 {
        seq![digit(n)]
    } else {
        decimal(n / 10).push(digit(n % 10))
    }
}

/// Whether a text holds no carriage return and no line feed.
pub open spec fn no_line_breaks(t: Seq<char>) -> bool {
    forall|i: int| 0 <= i < t.len() ==> #[trigger] t[i] != '\r' && t[i] != '\n'
}

/// The Date line of a header block, without its leading line break; none
/// when no date could be had.
pub open spec fn date_line(date: Option<Seq<char>>) -> Seq<char> {
    match date {
        Some(d) => "\r\nDate: "@ + d,
        None => Seq::empty(),
    }
}

/// The header block of the response to an outcome, dated `date` if a date
/// is given, for a body of `len` bytes.
pub open spec fn head_with(o: OutcomeView, date: Option<Seq<char>>, len: nat) -> Seq<char> {
    match content_type(o) {
        Some(m) => status_line(status_of(o)) + "\r\nServer: Rust Server\r\nContent-Type: "@ + m
            + date_line(date) + "\r\nConnection: close\r\nContent-Length: "@ + decimal(len)
            + "\r\n\r\n"@,
        None => status_line(status_of(o)) + "\r\nServer: Rust Server"@ + date_line(date)
            + "\r\nConnection: close\r\n\r\n"@,
    }
}

/// The header block of the response to an outcome, with the date `date` and
/// a body of `len` bytes.
pub open spec fn head_for(o: OutcomeView, date: Seq<char>, len: nat) -> Seq<char> {
    head_with(o, Some(date), len)
}

/// The mime type of a file, chosen by its extension.
pub fn get_mimetype(filename: &String) -> (r: &'static str)
    ensures
        r@ == mime_type(filename@),
{
    let cs = chars_of(filename.as_str());
    let n = cs.len();
    let dot = match rfind_char(&cs, '.') {
        Some(i) => i,
        None => return "text/plain",
    };
    proof {
        crate::text::lemma_last_index_bound(cs@, '.');
        assert(last_index(cs@, '.') == Some(dot as int));
    }
    let ext = filename.as_str().substring_char(dot + 1, n);
    let e = chars_of(ext);
    if same_chars(&e, &chars_of("html")) {
        "text/html"
    } else if same_chars(&e, &chars_of("css")) {
        "text/css"
    } else if same_chars(&e, &chars_of("js")) {
        "application/javascript"
    } else if same_chars(&e, &chars_of("jpg")) || same_chars(&e, &chars_of("jpeg")) {
        "image/jpeg"
    } else if same_chars(&e, &chars_of("png")) {
        "image/png"
    } else if same_chars(&e, &chars_of("gif")) {
        "image/gif"
    } else if same_chars(&e, &chars_of("swf")) {
        "application/x-shockwave-flash"
    } else {
        "text/plain"
    }
}

/// The status line of a status.
pub fn status_text(s: Status) -> (r: &'static str)
    ensures
        r@ == status_line(s),
{
    match s {
        Status::Success => "HTTP/1.1 200 OK",
        Status::Forbidden => "HTTP/1.1 403 Forbidden",
        Status::NotFound => "HTTP/1.1 404 Not Found",
        Status::MethodNotAllowed => "HTTP/1.1 405 Method Not Allowed",
    }
}

/// The status that an outcome is answered with.
pub fn status(o: &Outcome) -> (r: Status)
    ensures
        r == status_of(o@),
{
    match o {
        Outcome::Serve(_) => Status::Success,
        Outcome::Forbidden => Status::Forbidden,
        Outcome::NotFound => Status::NotFound,
        Outcome::NotAllowed => Status::MethodNotAllowed,
    }
}

/// The fixed page of an outcome; empty for one without a fixed page.
pub fn error_page(o: &Outcome) -> (r: &'static str)
    ensures
        r@ == page_of(o@),
{
    proof {
        reveal_strlit("");
    }
    match o {
        Outcome::Forbidden => "<html><body><h1>403 Forbidden</h1></body></html>\n",
        Outcome::NotAllowed => "<html><body><h1>405 Method Not Allowed</h1></body></html>\n",
        _ => "",
    }
}

/// Whether the body is written after the header, for a request of `method`
/// (`None`: refused) answered with `o`.
pub fn writes_body(method: Option<Method>, o: &Outcome) -> (r: bool)
    ensures
        r == sends_body(method, o@),
{
    match o {
        Outcome::NotFound => false,
        Outcome::NotAllowed => true,
        _ => method == Some(Method::Get),
    }
}

/// The one-character text of the digit `d`.
fn digit_text(d: usize) -> (r: &'static str)
    requires
        d < 10,
    ensures
        r@ == seq![digit(d as nat)],
{
    proof {
        reveal_strlit("0");
        reveal_strlit("1");
        reveal_strlit("2");
        reveal_strlit("3");
        reveal_strlit("4");
        reveal_strlit("5");
        reveal_strlit("6");
        reveal_strlit("7");
        reveal_strlit("8");
        reveal_strlit("9");
    }
    let r = if d == 0 {
        "0"
    } else if d == 1 {
        "1"
    } else if d == 2 {
        "2"
    } else if d == 3 {
        "3"
    } else if d == 4 {
        "4"
    } else if d == 5 {
        "5"
    } else if d == 6 {
        "6"
    } else if d == 7 {
        "7"
    } else if d == 8 {
        "8"
    } else {
        "9"
    };
    assert(r@ =~= seq![digit(d as nat)]);
    r
}

/// Appends the decimal form of `n` to `s`.
pub fn push_decimal(s: &mut String, n: usize)
    ensures
        final(s)@ == old(s)@ + decimal(n as nat),
    decreases n,
{
    if n < 10 {
        s.append(digit_text(n));
    } else {
        push_decimal(s, n / 10);
        s.append(digit_text(n % 10));
        assert(decimal(n as nat) == decimal((n / 10) as nat).push(digit((n % 10) as nat)));
        assert(old(s)@ + decimal((n / 10) as nat) + seq![digit((n % 10) as nat)] =~= old(s)@
            + decimal(n as nat));
    }
}

/// Appends the Date line of `date`, if one is given, to `r`.
fn push_date_line(r: &mut String, date: Option<&str>)
    ensures
        final(r)@ == old(r)@ + date_line(
            match date {
                Some(d) => Some(d@),
                None => None,
            },
        ),
{
    match date {
        Some(d) => {
            r.append("\r\nDate: ");
            r.append(d);
            assert(old(r)@ + "\r\nDate: "@ + d@ =~= old(r)@ + ("\r\nDate: "@ + d@));
        },
        None => {
            assert(old(r)@ + Seq::<char>::empty() =~= old(r)@);
        },
    }
}

/// The header block of the response to `o`, dated `date` if one is given,
/// for a body of `len` bytes.
fn build_head(o: &Outcome, date: Option<&str>, len: usize) -> (r: String)
    ensures
        r@ == head_with(
            o@,
            match date {
                Some(d) => Some(d@),
                None => None,
            },
            len as nat,
        ),
{
    let mut r = String::from_str(status_text(status(o)));
    match o {
        Outcome::NotFound => {
            r.append("\r\nServer: Rust Server");
            push_date_line(&mut r, date);
            r.append("\r\nConnection: close\r\n\r\n");
        },
        _ => {
            let mime = match o {
                Outcome::Serve(p) => get_mimetype(p),
                _ => "text/html",
            };
            r.append("\r\nServer: Rust Server\r\nContent-Type: ");
            r.append(mime);
            push_date_line(&mut r, date);
            r.append("\r\nConnection: close\r\nContent-Length: ");
            push_decimal(&mut r, len);
            r.append("\r\n\r\n");
        },
    }
    r
}

/// The header block of the response to `o`, dated `date`, for a body of `len` bytes.
pub fn response_head(o: &Outcome, date: &str, len: usize) -> (r: String)
    ensures
        r@ == head_for(o@, date@, len as nat),
{
    build_head(o, Some(date), len)
}

/// Relies on std's `SystemTime::now` and `SystemTime::duration_since`: the
/// whole seconds since the Unix epoch, `None` when the clock reads earlier.
/// Nothing is stated of the value, which depends on the clock.
#[verifier::external_body]
fn seconds_since_epoch() -> (r: Option<u64>) {
    match std::time::SystemTime::now().duration_since(std::time::UNIX_EPOCH) {
        Ok(d) => Some(d.as_secs()),
        Err(_) => None,
    }
}

/// Relies on chrono's `DateTime::from_timestamp` and `DateTime::format`: the
/// UTC date `secs` seconds after the Unix epoch in the form
/// `Tue, 01 Jul 2003 10:52:37 +0000`, `None` when chrono cannot represent it
/// or cannot write it. The text consists of day and month names, digits,
/// signs, spaces, `,` and `:`, so it holds no line break.
#[verifier::external_body]
fn http_date(secs: i64) -> (r: Option<String>)
    ensures
        r matches Some(d) ==> no_line_breaks(d@),
{
    let dt = chrono::DateTime::from_timestamp(secs, 0)?;
    let mut text = String::new();
    match write!(text, "{}", dt.format("%a, %d %b %Y %H:%M:%S %z")) {
        Ok(()) => Some(text),
        Err(_) => None,
    }
}

/// The current date for a header, if the clock gives one that can be written.
fn current_date() -> (r: Option<String>)
    ensures
        r matches Some(d) ==> no_line_breaks(d@),
{
    match seconds_since_epoch() {
        Some(s) => if s <= i64::MAX as u64 {
            http_date(s as i64)
        } else {
            None
        },
        None => None,
    }
}

/// The header block of the response to `o` for a body of `len` bytes, dated
/// now; when the clock gives no date that can be written (it reads before
/// 1970, or beyond what can be represented), the Date line is left out.
pub fn response_head_now(o: &Outcome, len: usize) -> (r: String)
    ensures
        (exists|d: Seq<char>| no_line_breaks(d) && r@ == head_with(o@, Some(d), len as nat))
            || r@ == head_with(o@, None, len as nat),
{
    match current_date() {
        Some(date) => build_head(o, Some(date.as_str()), len),
        None => build_head(o, None, len),
    }
}

} // verus!
