//! A request's whole handling as a function of what the filesystem answers,
//! and the laws it obeys.

use vstd::prelude::*;
use crate::request::{Method, method_of, request_of};
use crate::resolve::{
    EventView, OutcomeView, StageView, first_stage, index_path, next_stage, within,
};
use crate::response::{Status, head_for, page_of, sends_body, status_of};

verus! {

/// A filesystem as resolution sees it: the canonical form of a path (`None`
/// when it does not exist), whether a path is a directory, whether it exists.
pub struct FileSystem {
    pub canonical: spec_fn(Seq<char>) -> Option<Seq<char>>,
    pub is_dir: spec_fn(Seq<char>) -> bool,
    pub exists: spec_fn(Seq<char>) -> bool,
}

/// What the filesystem answers to the question of a stage.
pub open spec fn answer(s: StageView, fs: FileSystem) -> EventView {
    match s {
        StageView::Locate(c) => EventView::Canonical((fs.canonical)(c)),
        StageView::Inspect(c) => EventView::Flag((fs.is_dir)(c)),
        StageView::Confirm(t) => EventView::Flag((fs.exists)(t)),
        StageView::Done(_) => EventView::Flag(false),
    }
}

/// One step of resolution against the filesystem.
pub open spec fn step(s: StageView, croot: Seq<char>, fs: FileSystem) -> StageView {
    next_stage(s, croot, answer(s, fs))
}

/// How a parsed request (`None`: refused) is answered under the document root
/// `root`, whose canonical form is `croot`.
pub open spec fn resolution(
    req: Option<(Method, Seq<char>)>,
    root: Seq<char>,
    croot: Seq<char>,
    fs: FileSystem,
) -> OutcomeView {
    let s = step(step(step(first_stage(req, root), croot, fs), croot, fs), croot, fs);
    match s {
        StageView::Done(o) => o,
        _ => OutcomeView::NotFound,
    }
}

/// Containment: when the canonical form of the requested path is missing or
/// lies outside the canonical document root, however the request spelled the
/// path with percent-encoding, the answer is "404 Not Found", never a file.
pub proof fn law_outside_root_not_found(
    raw: Seq<char>,
    m: Method,
    p: Seq<char>,
    root: Seq<char>,
    croot: Seq<char>,
    fs: FileSystem,
)
    requires
        request_of(raw) == Some((m, p)),
        match (fs.canonical)(root + p) {
            Some(c) => !within(croot, c),
            None => true,
        },
    ensures
        resolution(request_of(raw), root, croot, fs) == OutcomeView::NotFound,
        status_of(resolution(request_of(raw), root, croot, fs)) == Status::NotFound,
{
}

/// A request for a directory inside the document root is served the
/// directory's `index.html` with "200 OK" when it exists, and answered
/// "403 Forbidden" when it does not.
pub proof fn law_directory_request(
    m: Method,
    p: Seq<char>,
    root: Seq<char>,
    croot: Seq<char>,
    fs: FileSystem,
    c: Seq<char>,
)
    requires
        (fs.canonical)(root + p) == Some(c),
        within(croot, c),
        (fs.is_dir)(root + p),
    ensures
        (fs.exists)(index_path(root + p)) ==> resolution(Some((m, p)), root, croot, fs)
            == OutcomeView::Serve(index_path(root + p)),
        (fs.exists)(index_path(root + p)) ==> status_of(resolution(Some((m, p)), root, croot, fs))
            == Status::Success,
        !(fs.exists)(index_path(root + p)) ==> resolution(Some((m, p)), root, croot, fs)
            == OutcomeView::Forbidden,
{
}

/// A request whose method is neither GET nor HEAD is refused before any
/// question is put to the filesystem: "405 Method Not Allowed" with the fixed
/// 405 page as its body.
pub proof fn law_other_methods_refused(raw: Seq<char>, root: Seq<char>)
    requires
        method_of(raw) is None,
    ensures
        request_of(raw) is None,
        first_stage(request_of(raw), root) == StageView::Done(OutcomeView::NotAllowed),
        status_of(OutcomeView::NotAllowed) == Status::MethodNotAllowed,
        sends_body(None, OutcomeView::NotAllowed),
        page_of(OutcomeView::NotAllowed) == "<html><body><h1>405 Method Not Allowed</h1></body></html>\n"@,
{
}

/// Requests that carry the same method and decoded path, against the same
/// filesystem, are answered alike every time, whatever their raw text: same
/// outcome, so same status, content type and body; only the date of the
/// header may differ. A served file's header gives its content type and, as
/// Content-Length, the length of the body.
pub proof fn law_repeatable(
    raw1: Seq<char>,
    raw2: Seq<char>,
    root: Seq<char>,
    croot: Seq<char>,
    fs: FileSystem,
    date: Seq<char>,
    len: nat,
)
    requires
        request_of(raw1) == request_of(raw2),
    ensures
        resolution(request_of(raw1), root, croot, fs) == resolution(request_of(raw2), root, croot, fs),
        head_for(resolution(request_of(raw1), root, croot, fs), date, len) == head_for(
            resolution(request_of(raw2), root, croot, fs),
            date,
            len,
        ),
        ({
            let o = resolution(request_of(raw1), root, croot, fs);
            o is Serve ==> head_for(o, date, len) == crate::response::status_line(Status::Success)
                + "\r\nServer: Rust Server\r\nContent-Type: "@ + crate::response::mime_type(o->Serve_0)
                + "\r\nDate: "@ + date + "\r\nConnection: close\r\nContent-Length: "@
                + crate::response::decimal(len) + "\r\n\r\n"@
        }),
{
    let o = resolution(request_of(raw1), root, croot, fs);
    if let OutcomeView::Serve(p) = o {
        let pre = crate::response::status_line(Status::Success)
            + "\r\nServer: Rust Server\r\nContent-Type: "@ + crate::response::mime_type(p);
        assert(pre + ("\r\nDate: "@ + date) =~= pre + "\r\nDate: "@ + date);
    }
}

/// A HEAD request is answered as the GET request for the same path, with the
/// same status and header, but no body follows the header.
pub proof fn law_head_matches_get(
    p: Seq<char>,
    root: Seq<char>,
    croot: Seq<char>,
    fs: FileSystem,
    date: Seq<char>,
    len: nat,
)
    ensures
        resolution(Some((Method::Head, p)), root, croot, fs) == resolution(
            Some((Method::Get, p)),
            root,
            croot,
            fs,
        ),
        head_for(resolution(Some((Method::Head, p)), root, croot, fs), date, len) == head_for(
            resolution(Some((Method::Get, p)), root, croot, fs),
            date,
            len,
        ),
        !sends_body(Some(Method::Head), resolution(Some((Method::Head, p)), root, croot, fs)),
        resolution(Some((Method::Get, p)), root, croot, fs) is Serve ==> sends_body(
            Some(Method::Get),
            resolution(Some((Method::Get, p)), root, croot, fs),
        ),
{
}

} // verus!
