use static_server::config::{normalize_root, parse_config, parse_count, ConfigError};
use static_server::pool::{Dispatcher, JobQueue, Message};
use static_server::request::{parse_request, parse_request_line, Method};
use static_server::resolve::{advance, begin, index_file, is_within, Event, Outcome, Stage};
use static_server::response::{
    error_page, get_mimetype, push_decimal, response_head, response_head_now, status, status_text,
    writes_body, Status,
};

fn run(stage: Stage, croot: &str, answers: Vec<Event>) -> Outcome {
    let mut stage = stage;
    for ev in answers {
        if let Stage::Done(o) = stage {
            return o;
        }
        stage = advance(stage, croot, ev);
    }
    match stage {
        Stage::Done(o) => o,
        other => panic!("resolution not finished: {:?}", other),
    }
}

#[test]
fn get_request_is_parsed() {
    let r = parse_request("GET /index.html HTTP/1.1\r\nHost: x\r\n\r\n").unwrap();
    assert_eq!(r.method, Method::Get);
    assert_eq!(r.path, "index.html");
}

#[test]
fn head_request_is_parsed() {
    let r = parse_request("HEAD /a/b.css HTTP/1.1\r\n\r\n").unwrap();
    assert_eq!(r.method, Method::Head);
    assert_eq!(r.path, "a/b.css");
}

#[test]
fn root_request_has_empty_path() {
    let r = parse_request("GET / HTTP/1.1\r\n").unwrap();
    assert_eq!(r.path, "");
}

#[test]
fn query_string_is_dropped() {
    let r = parse_request("GET /a.css?x=1&y=2 HTTP/1.1\r\n").unwrap();
    assert_eq!(r.path, "a.css");
}

#[test]
fn path_is_percent_decoded() {
    let r = parse_request("GET /a%20b.html HTTP/1.1\r\n").unwrap();
    assert_eq!(r.path, "a b.html");
}

#[test]
fn encoded_traversal_is_decoded_before_resolution() {
    let r = parse_request("GET /%2e%2e%2fetc/passwd HTTP/1.1\r\n").unwrap();
    assert_eq!(r.path, "../etc/passwd");
}

#[test]
fn zero_padding_after_request_is_ignored() {
    let mut raw = String::from("GET /x.png HTTP/1.1\r\n\r\n");
    raw.push_str(&"\0".repeat(100));
    let r = parse_request(&raw).unwrap();
    assert_eq!(r.path, "x.png");
}

#[test]
fn post_is_refused() {
    assert!(parse_request("POST /index.html HTTP/1.1\r\n").is_none());
    assert!(parse_request("DELETE /index.html HTTP/1.1\r\n").is_none());
    assert!(parse_request("GETX /index.html HTTP/1.1\r\n").is_none());
}

#[test]
fn malformed_request_line_is_refused() {
    assert!(parse_request_line("GET index.html").is_none());
    assert!(parse_request_line("GET /index.html").is_none());
    assert!(parse_request_line("GET HTTP/1.1").is_none());
    assert!(parse_request_line("").is_none());
}

#[test]
fn invalid_utf8_after_decoding_is_refused() {
    assert!(parse_request("GET /%ff HTTP/1.1\r\n").is_none());
}

#[test]
fn mime_types_follow_extension() {
    assert_eq!(get_mimetype(&String::from("/a/b/c.css")), "text/css");
    assert_eq!(get_mimetype(&String::from("/a/b/c")), "text/plain");
    assert_eq!(get_mimetype(&String::from("/a/b.unknown")), "text/plain");
    assert_eq!(get_mimetype(&String::from("/x/index.html")), "text/html");
    assert_eq!(get_mimetype(&String::from("/x/app.js")), "application/javascript");
    assert_eq!(get_mimetype(&String::from("/x/p.jpg")), "image/jpeg");
    assert_eq!(get_mimetype(&String::from("/x/p.jpeg")), "image/jpeg");
    assert_eq!(get_mimetype(&String::from("/x/p.png")), "image/png");
    assert_eq!(get_mimetype(&String::from("/x/p.gif")), "image/gif");
    assert_eq!(get_mimetype(&String::from("/x/m.swf")), "application/x-shockwave-flash");
}

#[test]
fn mime_match_is_case_sensitive() {
    assert_eq!(get_mimetype(&String::from("/x/INDEX.HTML")), "text/plain");
    assert_eq!(get_mimetype(&String::from("/x/archive.tar.gz")), "text/plain");
    assert_eq!(get_mimetype(&String::from("/x.d/css")), "text/plain");
}

#[test]
fn status_lines() {
    assert_eq!(status_text(Status::Success), "HTTP/1.1 200 OK");
    assert_eq!(status_text(Status::Forbidden), "HTTP/1.1 403 Forbidden");
    assert_eq!(status_text(Status::NotFound), "HTTP/1.1 404 Not Found");
    assert_eq!(status_text(Status::MethodNotAllowed), "HTTP/1.1 405 Method Not Allowed");
}

#[test]
fn decimal_form() {
    let mut s = String::from("n=");
    push_decimal(&mut s, 0);
    assert_eq!(s, "n=0");
    let mut s = String::new();
    push_decimal(&mut s, 1024);
    assert_eq!(s, "1024");
    let mut s = String::new();
    push_decimal(&mut s, usize::MAX);
    assert_eq!(s, usize::MAX.to_string());
}

#[test]
fn served_file_header() {
    let o = Outcome::Serve(String::from("/srv/www/style.css"));
    let h = response_head(&o, "Mon, 19 Oct 2026 01:18:00 +0000", 42);
    assert_eq!(
        h,
        "HTTP/1.1 200 OK\r\nServer: Rust Server\r\nContent-Type: text/css\r\n\
         Date: Mon, 19 Oct 2026 01:18:00 +0000\r\nConnection: close\r\nContent-Length: 42\r\n\r\n"
    );
}

#[test]
fn not_found_header_has_no_body_lines() {
    let h = response_head(&Outcome::NotFound, "D", 0);
    assert_eq!(h, "HTTP/1.1 404 Not Found\r\nServer: Rust Server\r\nDate: D\r\nConnection: close\r\n\r\n");
}

#[test]
fn fixed_pages() {
    let page = error_page(&Outcome::NotAllowed);
    assert!(page.contains("405"));
    let h = response_head(&Outcome::NotAllowed, "D", page.len());
    assert_eq!(
        h,
        format!(
            "HTTP/1.1 405 Method Not Allowed\r\nServer: Rust Server\r\nContent-Type: text/html\r\n\
             Date: D\r\nConnection: close\r\nContent-Length: {}\r\n\r\n",
            page.len()
        )
    );
    assert!(error_page(&Outcome::Forbidden).contains("403"));
    assert_eq!(error_page(&Outcome::NotFound), "");
}

#[test]
fn header_dated_now() {
    let h = response_head_now(&Outcome::Serve(String::from("/srv/a.png")), 7);
    assert!(h.starts_with("HTTP/1.1 200 OK\r\nServer: Rust Server\r\nContent-Type: image/png\r\nDate: "));
    assert!(h.ends_with("\r\nConnection: close\r\nContent-Length: 7\r\n\r\n"));
    assert!(h.contains(" +0000"));
}

#[test]
fn body_only_for_get_and_fixed_pages() {
    let serve = Outcome::Serve(String::from("/srv/a.html"));
    assert!(writes_body(Some(Method::Get), &serve));
    assert!(!writes_body(Some(Method::Head), &serve));
    assert!(!writes_body(Some(Method::Get), &Outcome::NotFound));
    assert!(writes_body(None, &Outcome::NotAllowed));
    assert!(writes_body(Some(Method::Get), &Outcome::Forbidden));
    assert!(!writes_body(Some(Method::Head), &Outcome::Forbidden));
}

#[test]
fn head_and_get_resolve_alike() {
    let answers = || vec![Event::Canonical(Some(String::from("/srv/www/a.html"))), Event::Flag(false), Event::Flag(true)];
    let get = parse_request("GET /a.html HTTP/1.1\r\n");
    let head = parse_request("HEAD /a.html HTTP/1.1\r\n");
    let og = run(begin(&get, "/srv/www/"), "/srv/www", answers());
    let oh = run(begin(&head, "/srv/www/"), "/srv/www", answers());
    match (&og, &oh) {
        (Outcome::Serve(a), Outcome::Serve(b)) => {
            assert_eq!(a, "/srv/www/a.html");
            assert_eq!(a, b);
        }
        _ => panic!("expected both served"),
    }
    assert_eq!(response_head(&og, "D", 10), response_head(&oh, "D", 10));
    assert!(!writes_body(Some(Method::Head), &oh));
}

#[test]
fn repeated_request_resolves_alike() {
    let mk = || {
        let req = parse_request("GET /a.css HTTP/1.1\r\n");
        run(
            begin(&req, "/srv/www/"),
            "/srv/www",
            vec![Event::Canonical(Some(String::from("/srv/www/a.css"))), Event::Flag(false), Event::Flag(true)],
        )
    };
    let (a, b) = (mk(), mk());
    assert_eq!(response_head(&a, "D", 5), response_head(&b, "D", 5));
    assert_eq!(status(&a), Status::Success);
}

#[test]
fn refused_method_asks_nothing() {
    let req = parse_request("POST /index.html HTTP/1.1\r\n");
    match begin(&req, "/srv/www/") {
        Stage::Done(Outcome::NotAllowed) => {}
        other => panic!("expected an immediate 405, got {:?}", other),
    }
}

#[test]
fn first_question_is_the_candidate_path() {
    let req = parse_request("GET /docs/x.html HTTP/1.1\r\n");
    match begin(&req, "/srv/www/") {
        Stage::Locate(c) => assert_eq!(c, "/srv/www/docs/x.html"),
        other => panic!("unexpected stage {:?}", other),
    }
}

#[test]
fn traversal_outside_root_is_not_found() {
    let req = parse_request("GET /..%2f..%2fetc/passwd HTTP/1.1\r\n");
    let o = run(
        begin(&req, "/srv/www/"),
        "/srv/www",
        vec![Event::Canonical(Some(String::from("/etc/passwd")))],
    );
    assert!(matches!(o, Outcome::NotFound));
}

#[test]
fn sibling_with_root_as_prefix_is_not_found() {
    let req = parse_request("GET /../wwwevil/x HTTP/1.1\r\n");
    let o = run(
        begin(&req, "/srv/www/"),
        "/srv/www",
        vec![Event::Canonical(Some(String::from("/srv/wwwevil/x")))],
    );
    assert!(matches!(o, Outcome::NotFound));
}

#[test]
fn missing_file_is_not_found() {
    let req = parse_request("GET /nothing.html HTTP/1.1\r\n");
    let o = run(begin(&req, "/srv/www/"), "/srv/www", vec![Event::Canonical(None)]);
    assert!(matches!(o, Outcome::NotFound));
}

#[test]
fn directory_with_index_serves_it() {
    let req = parse_request("GET /docs HTTP/1.1\r\n");
    let mut stage = begin(&req, "/srv/www/");
    stage = advance(stage, "/srv/www", Event::Canonical(Some(String::from("/srv/www/docs"))));
    assert!(matches!(stage, Stage::Inspect(_)));
    stage = advance(stage, "/srv/www", Event::Flag(true));
    match &stage {
        Stage::Confirm(t) => assert_eq!(t, "/srv/www/docs/index.html"),
        other => panic!("unexpected stage {:?}", other),
    }
    stage = advance(stage, "/srv/www", Event::Flag(true));
    match stage {
        Stage::Done(Outcome::Serve(p)) => assert_eq!(p, "/srv/www/docs/index.html"),
        other => panic!("unexpected stage {:?}", other),
    }
}

#[test]
fn directory_without_index_is_forbidden() {
    let req = parse_request("GET /docs/ HTTP/1.1\r\n");
    let o = run(
        begin(&req, "/srv/www/"),
        "/srv/www",
        vec![Event::Canonical(Some(String::from("/srv/www/docs"))), Event::Flag(true), Event::Flag(false)],
    );
    assert!(matches!(o, Outcome::Forbidden));
    assert_eq!(status(&o), Status::Forbidden);
}

#[test]
fn root_itself_is_within() {
    assert!(is_within("/srv/www", "/srv/www"));
    assert!(is_within("/srv/www", "/srv/www/a/b"));
    assert!(is_within("/", "/etc"));
    assert!(!is_within("/srv/www", "/srv/wwwx"));
    assert!(!is_within("/srv/www", "/srv"));
}

#[test]
fn index_file_joins_with_one_separator() {
    assert_eq!(index_file("/srv/www/docs"), "/srv/www/docs/index.html");
    assert_eq!(index_file("/srv/www/docs/"), "/srv/www/docs/index.html");
}

#[test]
fn config_is_read() {
    let c = parse_config("thread_limit 8\ndocument_root /srv/www\n").unwrap();
    assert_eq!(c.thread_limit, 8);
    assert_eq!(c.document_root, "/srv/www/");
}

#[test]
fn config_defaults_pool_size() {
    let c = parse_config("document_root /srv/www/\nunknown_key 3").unwrap();
    assert_eq!(c.thread_limit, 4);
    assert_eq!(c.document_root, "/srv/www/");
}

#[test]
fn config_later_line_wins() {
    let c = parse_config("thread_limit 2\ndocument_root /a\nthread_limit 16\ndocument_root /b//").unwrap();
    assert_eq!(c.thread_limit, 16);
    assert_eq!(c.document_root, "/b/");
}

#[test]
fn config_errors() {
    assert_eq!(parse_config("thread_limit 8\n").unwrap_err(), ConfigError::MissingDocumentRoot);
    assert_eq!(parse_config("").unwrap_err(), ConfigError::MissingDocumentRoot);
    assert_eq!(parse_config("document_root \n").unwrap_err(), ConfigError::MissingDocumentRoot);
    assert_eq!(parse_config("thread_limit many\ndocument_root /x").unwrap_err(), ConfigError::BadThreadLimit);
    assert_eq!(parse_config("thread_limit 0\ndocument_root /x").unwrap_err(), ConfigError::BadThreadLimit);
    assert_eq!(
        parse_config("thread_limit 99999999999999999999999\ndocument_root /x").unwrap_err(),
        ConfigError::BadThreadLimit
    );
}

#[test]
fn counts() {
    assert_eq!(parse_count("42"), Some(42));
    assert_eq!(parse_count("+7"), Some(7));
    assert_eq!(parse_count("0"), Some(0));
    assert_eq!(parse_count(""), None);
    assert_eq!(parse_count("+"), None);
    assert_eq!(parse_count("-1"), None);
    assert_eq!(parse_count("4 "), None);
    assert_eq!(parse_count(&usize::MAX.to_string()), Some(usize::MAX));
    assert_eq!(parse_count("18446744073709551616"), None);
}

#[test]
fn root_normalization() {
    assert_eq!(normalize_root("/srv/www"), "/srv/www/");
    assert_eq!(normalize_root("/srv/www///"), "/srv/www/");
    assert_eq!(normalize_root("/"), "/");
}

#[test]
fn queue_is_fifo_and_delivers_each_job_once() {
    let mut q: JobQueue<u32> = JobQueue::new(3);
    for j in 0..10u32 {
        assert!(q.submit(j).is_ok());
    }
    assert_eq!(q.len(), 10);
    let mut seen = Vec::new();
    while let Some(m) = q.take() {
        match m {
            Message::NewJob(j) => seen.push(j),
            Message::Terminate => panic!("no shutdown yet"),
        }
    }
    assert_eq!(seen, (0..10).collect::<Vec<u32>>());
    assert!(q.take().is_none());
}

#[test]
fn shutdown_queues_one_termination_per_worker_behind_jobs() {
    let mut q: JobQueue<u32> = JobQueue::new(2);
    q.submit(1).unwrap();
    q.submit(2).unwrap();
    q.shutdown();
    assert!(q.shut_down());
    assert_eq!(q.submit(3), Err(3));
    assert_eq!(q.len(), 4);
    assert!(matches!(q.take(), Some(Message::NewJob(1))));
    assert!(matches!(q.take(), Some(Message::NewJob(2))));
    assert!(matches!(q.take(), Some(Message::Terminate)));
    assert!(matches!(q.take(), Some(Message::Terminate)));
    assert!(q.take().is_none());
    assert_eq!(q.workers(), 2);
}

#[test]
fn unreadable_file_degrades_to_not_found() {
    let o = static_server::resolve::unreadable(Outcome::Serve(String::from("/srv/www/gone.html")));
    assert!(matches!(o, Outcome::NotFound));
    assert!(matches!(static_server::resolve::unreadable(Outcome::Forbidden), Outcome::Forbidden));
}

#[test]
fn encoded_question_mark_stays_in_the_path() {
    let r = parse_request("GET /a%3Fb.html?x=1 HTTP/1.1\r\n").unwrap();
    assert_eq!(r.path, "a?b.html");
}

#[test]
fn escapes_in_header_lines_are_not_decoded() {
    let r = parse_request("GET /a.html HTTP/1.1\r\nReferer: http://x/%E9\r\n\r\n").unwrap();
    assert_eq!(r.method, Method::Get);
    assert_eq!(r.path, "a.html");
}

#[test]
fn request_line_path_stays_encoded() {
    let r = parse_request_line("GET /a%20b.html?q HTTP/1.1\r\n").unwrap();
    assert_eq!(r.path, "a%20b.html");
}

#[test]
fn header_date_has_rfc_form() {
    let h = response_head_now(&Outcome::NotFound, 0);
    assert!(h.starts_with("HTTP/1.1 404 Not Found\r\nServer: Rust Server\r\nDate: "));
    let date = &h["HTTP/1.1 404 Not Found\r\nServer: Rust Server\r\nDate: ".len()..h.len() - "\r\nConnection: close\r\n\r\n".len()];
    assert_eq!(date.len(), "Tue, 01 Jul 2003 10:52:37 +0000".len());
    assert!(date.ends_with(" +0000"));
    assert!(!date.contains('\r') && !date.contains('\n'));
}

#[test]
fn dispatcher_tracks_running_and_stopped_workers() {
    let mut d: Dispatcher<u32> = Dispatcher::new(2);
    assert_eq!(d.workers(), 2);
    assert!(d.is_idle(0) && d.is_idle(1));
    d.submit(10).unwrap();
    d.submit(11).unwrap();
    d.submit(12).unwrap();
    assert!(matches!(d.take(0), Some(Message::NewJob(10))));
    assert!(d.is_running(0));
    assert!(!d.is_idle(0));
    assert!(matches!(d.take(1), Some(Message::NewJob(11))));
    d.shutdown();
    assert!(d.shut_down());
    assert_eq!(d.submit(13), Err(13));
    d.finish(0);
    assert!(d.is_idle(0));
    assert!(matches!(d.take(0), Some(Message::NewJob(12))));
    d.finish(1);
    assert!(matches!(d.take(1), Some(Message::Terminate)));
    assert!(!d.is_idle(1));
    d.finish(0);
    assert!(matches!(d.take(0), Some(Message::Terminate)));
    assert!(!d.is_running(0) && !d.is_running(1));
}

#[test]
fn dispatcher_idle_worker_on_empty_queue_gets_nothing() {
    let mut d: Dispatcher<u32> = Dispatcher::new(1);
    assert!(d.take(0).is_none());
    assert!(d.is_idle(0));
}
