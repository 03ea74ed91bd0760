//! Resolution of a request to a resource under the document root.
//!
//! The filesystem is asked step by step: the caller holds a [`Stage`], answers
//! the question it poses with an [`Event`], and [`advance`] gives the next stage,
//! until a [`Stage::Done`] carries the outcome.

use vstd::prelude::*;
use vstd::string::*;
use crate::request::{Method, Request, request_view};
use crate::text::{chars_of, has_prefix, starts_with};

verus! {

/// How a request is answered.
#[derive(Debug)]
pub enum Outcome {
    /// "200 OK" with the bytes of the file at this path.
    Serve(String),
    /// "403 Forbidden": a directory without an index file.
    Forbidden,
    /// "404 Not Found": missing, or outside the document root.
    NotFound,
    /// "405 Method Not Allowed": a method other than GET or HEAD, or a malformed request.
    NotAllowed,
}

pub enum OutcomeView {
    Serve(Seq<char>),
    Forbidden,
    NotFound,
    NotAllowed,
}

impl View for Outcome {
    type V = OutcomeView;

    open spec fn view(&self) -> OutcomeView {
        match self {
            Outcome::Serve(p) => OutcomeView::Serve(p@),
            Outcome::Forbidden => OutcomeView::Forbidden,
            Outcome::NotFound => OutcomeView::NotFound,
            Outcome::NotAllowed => OutcomeView::NotAllowed,
        }
    }
}

/// Where resolution stands, and the question it asks next.
#[derive(Debug)]
pub enum Stage {
    /// Asks for the canonical form of the candidate path (`None` if it does not exist).
    Locate(String),
    /// Asks whether the candidate path is a directory.
    Inspect(String),
    /// Asks whether the file to serve exists.
    Confirm(String),
    /// Resolution is over.
    Done(Outcome),
}

pub enum StageView {
    Locate(Seq<char>),
    Inspect(Seq<char>),
    Confirm(Seq<char>),
    Done(OutcomeView),
}

impl View for Stage {
    type V = StageView;

    open spec fn view(&self) -> StageView {
        match self {
            Stage::Locate(p) => StageView::Locate(p@),
            Stage::Inspect(p) => StageView::Inspect(p@),
            Stage::Confirm(p) => StageView::Confirm(p@),
            Stage::Done(o) => StageView::Done(o@),
        }
    }
}

/// An answer from the filesystem.
#[derive(Debug)]
pub enum Event {
    /// The canonical form of a path, `None` when it could not be had.
    Canonical(Option<String>),
    /// A yes or no answer.
    Flag(bool),
}

pub enum EventView {
    Canonical(Option<Seq<char>>),
    Flag(bool),
}

impl View for Event {
    type V = EventView;

    open spec fn view(&self) -> EventView {
        match self {
            Event::Canonical(Some(p)) => EventView::Canonical(Some(p@)),
            Event::Canonical(None) => EventView::Canonical(None),
            Event::Flag(b) => EventView::Flag(*b),
        }
    }
}

/// Whether the canonical path `p` lies in the canonical directory `root`:
/// `root` is a prefix of `p` that ends at a path separator or at the end of `p`.
pub open spec fn within(root: Seq<char>, p: Seq<char>) -> bool {
    &&& starts_with(p, root)
    &&& p.len() == root.len() || (root.len() > 0 && root.last() == '/') || p[root.len() as int] == '/'
}

/// The index file of a directory, joined with exactly one separator.
pub open spec fn index_path(p: Seq<char>) -> Seq<char> {
    if p.len() > 0 && p.last() == '/' {
        p + "index.html"@
    } else {
        p + "/index.html"@
    }
}

/// The first stage for a parsed request under the document root `root`.
pub open spec fn first_stage(req: Option<(Method, Seq<char>)>, root: Seq<char>) -> StageView {
    match req {
        Some((_, p)) => StageView::Locate(root + p),
        None => StageView::Done(OutcomeView::NotAllowed),
    }
}

/// A yes or no answer; any other event counts as no.
pub open spec fn flag_of(e: EventView) -> bool {
    match e {
        EventView::Flag(b) => b,
        _ => false,
    }
}

/// The stage that follows `s` on the answer `e`, with `croot` the canonical document root.
pub open spec fn next_stage(s: StageView, croot: Seq<char>, e: EventView) -> StageView {
    match s {
        StageView::Locate(c) => match e {
            EventView::Canonical(Some(p)) => if within(croot, p) {
                StageView::Inspect(c)
            } else {
                StageView::Done(OutcomeView::NotFound)
            },
            _ => StageView::Done(OutcomeView::NotFound),
        },
        StageView::Inspect(c) => StageView::Confirm(
            if flag_of(e) {
                index_path(c)
            } else {
                c
            },
        ),
        StageView::Confirm(t) => if flag_of(e) {
            StageView::Done(OutcomeView::Serve(t))
        } else {
            StageView::Done(OutcomeView::Forbidden)
        },
        StageView::Done(o) => StageView::Done(o),
    }
}

/// Whether the canonical path `path` lies in the canonical directory `root`.
pub fn is_within(root: &str, path: &str) -> (r: bool)
    ensures
        r == within(root@, path@),
{
    let rc = chars_of(root);
    let pc = chars_of(path);
    if !has_prefix(&pc, &rc) {
        return false;
    }
    pc.len() == rc.len() || (rc.len() > 0 && rc[rc.len() - 1] == '/') || pc[rc.len()] == '/'
}

/// The index file of the directory `dir`.
pub fn index_file(dir: &str) -> (r: String)
    ensures
        r@ == index_path(dir@),
{
    let n = dir.unicode_len();
    let mut r = dir.to_owned();
    if n > 0 && dir.get_char(n - 1) == '/' {
        r.append("index.html");
    } else {
        r.append("/index.html");
    }
    r
}

/// Starts resolution of a parsed request (`None`: refused) under the document root `root`.
pub fn begin(req: &Option<Request>, root: &str) -> (r: Stage)
    ensures
        r@ == first_stage(request_view(*req), root@),
{
    match req {
        Some(q) => {
            let mut c = root.to_owned();
            c.append(q.path.as_str());
            Stage::Locate(c)
        },
        None => Stage::Done(Outcome::NotAllowed),
    }
}

/// Takes the answer `ev` to the question of `stage`; `croot` is the canonical document root.
pub fn advance(stage: Stage, croot: &str, ev: Event) -> (r: Stage)
    ensures
        r@ == next_stage(stage@, croot@, ev@),
{
    let yes = match ev {
        Event::Flag(b) => b,
        _ => false,
    };
    match stage {
        Stage::Locate(c) => match ev {
            Event::Canonical(Some(p)) => if is_within(croot, p.as_str()) {
                Stage::Inspect(c)
            } else {
                Stage::Done(Outcome::NotFound)
            },
            _ => Stage::Done(Outcome::NotFound),
        },
        Stage::Inspect(c) => if yes {
            Stage::Confirm(index_file(c.as_str()))
        } else {
            Stage::Confirm(c)
        },
        Stage::Confirm(t) => if yes {
            Stage::Done(Outcome::Serve(t))
        } else {
            Stage::Done(Outcome::Forbidden)
        },
        Stage::Done(o) => Stage::Done(o),
    }
}

/// The outcome once the file to serve turned out unreadable (it vanished
/// or changed after resolution): "404 Not Found"; other outcomes stand.
pub fn unreadable(o: Outcome) -> (r: Outcome)
    ensures
        r@ == match o@ {
            OutcomeView::Serve(_) => OutcomeView::NotFound,
            v => v,
        },
{
    match o {
        Outcome::Serve(_) => Outcome::NotFound,
        other => other,
    }
}

} // verus!
