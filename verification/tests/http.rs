use crosshair::connection::{Connection, ConnectionAction, ConnectionEvent, HEAD_BUFFER_SIZE};
use crosshair::request::{
    content_length_setting, find_subsequence, head_from_text, parse_request_head, route, RequestHead, Route,
};
use crosshair::service::{
    apply_posted_settings, content_type_text, exit_request, not_found_response, page_response, response_bytes,
    response_head, settings_response, status_text, toggle_request, ContentType, Response,
};
use crosshair::settings::Settings;
use crosshair::window::{WM_EXIT_APPLICATION, WM_TOGGLE_VISIBILITY, WM_UPDATE_SETTINGS};

fn chars(s: &str) -> Vec<char> {
    s.chars().collect()
}

fn read_amount(a: &ConnectionAction) -> usize {
    match a {
        ConnectionAction::Read(n) => *n,
        _ => panic!("expected a read"),
    }
}

fn dispatched(a: ConnectionAction) -> (Route, Vec<u8>) {
    match a {
        ConnectionAction::Dispatch(r) => (r.route, r.body),
        _ => panic!("expected a dispatch"),
    }
}

#[test]
fn subsequence_is_found_at_its_first_place() {
    assert_eq!(find_subsequence(b"abcabc", b"bc"), Some(1));
    assert_eq!(find_subsequence(b"GET /\r\n\r\nbody\r\n\r\n", b"\r\n\r\n"), Some(5));
    assert_eq!(find_subsequence(b"abc", b"abc"), Some(0));
}

#[test]
fn missing_subsequence_is_none() {
    assert_eq!(find_subsequence(b"abc", b"abcd"), None);
    assert_eq!(find_subsequence(b"", b"x"), None);
    assert_eq!(find_subsequence(b"\r\n\r", b"\r\n\r\n"), None);
}

#[test]
fn routes() {
    assert_eq!(route(&chars("GET"), &chars("/")), Route::Page);
    assert_eq!(route(&chars("GET"), &chars("/api/settings")), Route::GetSettings);
    assert_eq!(route(&chars("POST"), &chars("/api/settings")), Route::PostSettings);
    assert_eq!(route(&chars("POST"), &chars("/api/toggle")), Route::Toggle);
    assert_eq!(route(&chars("POST"), &chars("/api/exit")), Route::Exit);
}

#[test]
fn other_routes_are_not_found() {
    assert_eq!(route(&chars("POST"), &chars("/")), Route::NotFound);
    assert_eq!(route(&chars("get"), &chars("/")), Route::NotFound);
    assert_eq!(route(&chars("GET"), &chars("/api/toggle")), Route::NotFound);
    assert_eq!(route(&chars("GET"), &chars("/index.html")), Route::NotFound);
    assert_eq!(route(&chars("DELETE"), &chars("/api/settings")), Route::NotFound);
}

#[test]
fn head_with_length() {
    let head = parse_request_head(b"POST /api/settings HTTP/1.1\r\nHost: 127.0.0.1\r\nContent-Length: 12");
    assert_eq!(head, RequestHead { route: Some(Route::PostSettings), content_length: 12 });
}

#[test]
fn head_without_length() {
    let head = parse_request_head(b"GET / HTTP/1.1\r\nHost: x");
    assert_eq!(head, RequestHead { route: Some(Route::Page), content_length: 0 });
}

#[test]
fn length_header_is_case_insensitive_and_trimmed() {
    assert_eq!(parse_request_head(b"GET / HTTP/1.1\r\nCONTENT-LENGTH:   7  ").content_length, 7);
    assert_eq!(parse_request_head(b"GET / HTTP/1.1\r\ncontent-length:+5").content_length, 5);
    assert_eq!(parse_request_head(b"GET / HTTP/1.1\r\nContent-Length: 5:6").content_length, 5);
}

#[test]
fn last_length_header_wins() {
    let head = parse_request_head(b"GET / HTTP/1.1\r\nContent-Length: 3\r\nContent-Length: 9");
    assert_eq!(head.content_length, 9);
    let head = parse_request_head(b"GET / HTTP/1.1\r\nContent-Length: 3\r\nContent-Length: x");
    assert_eq!(head.content_length, 0);
}

#[test]
fn bad_length_reads_as_zero() {
    assert_eq!(parse_request_head(b"GET / HTTP/1.1\r\nContent-Length: -4").content_length, 0);
    assert_eq!(parse_request_head(b"GET / HTTP/1.1\r\nContent-Length:").content_length, 0);
    assert_eq!(
        parse_request_head(b"GET / HTTP/1.1\r\nContent-Length: 99999999999999999999999999").content_length,
        0
    );
}

#[test]
fn length_must_start_the_line() {
    assert_eq!(parse_request_head(b"GET / HTTP/1.1\r\nX-Content-Length: 4").content_length, 0);
}

#[test]
fn request_line_needs_two_words() {
    assert_eq!(parse_request_head(b"GET").route, None);
    assert_eq!(parse_request_head(b"").route, None);
    assert_eq!(parse_request_head(b"   POST   /api/exit   ").route, Some(Route::Exit));
    assert_eq!(parse_request_head(b"POST\t/api/toggle").route, Some(Route::Toggle));
}

#[test]
fn lines_split_at_bare_line_feeds_too() {
    let head = head_from_text(&chars("POST /api/toggle\nContent-Length: 2\n"));
    assert_eq!(head, RequestHead { route: Some(Route::Toggle), content_length: 2 });
}

#[test]
fn invalid_utf8_in_the_head_is_tolerated() {
    let head = parse_request_head(b"GET / HTTP/1.1\r\nX-Junk: \xff\xfe\r\nContent-Length: 3");
    assert_eq!(head, RequestHead { route: Some(Route::Page), content_length: 3 });
}

#[test]
fn whole_request_in_one_read() {
    let (mut c, first) = Connection::start();
    assert_eq!(read_amount(&first), HEAD_BUFFER_SIZE);
    let a = c.step(ConnectionEvent::Data(b"POST /api/settings HTTP/1.1\r\nContent-Length: 4\r\n\r\n{ab}".to_vec()));
    let (r, body) = dispatched(a);
    assert_eq!(r, Route::PostSettings);
    assert_eq!(body, b"{ab}".to_vec());
    assert!(matches!(c.step(ConnectionEvent::End), ConnectionAction::Close));
}

#[test]
fn head_arrives_in_pieces() {
    let (mut c, _) = Connection::start();
    let a = c.step(ConnectionEvent::Data(b"GET / HTT".to_vec()));
    assert_eq!(read_amount(&a), HEAD_BUFFER_SIZE - 9);
    let a = c.step(ConnectionEvent::Data(b"P/1.1\r\n\r".to_vec()));
    assert_eq!(read_amount(&a), HEAD_BUFFER_SIZE - 17);
    let (r, body) = dispatched(c.step(ConnectionEvent::Data(b"\n".to_vec())));
    assert_eq!(r, Route::Page);
    assert!(body.is_empty());
}

#[test]
fn body_is_read_to_its_announced_length() {
    let (mut c, _) = Connection::start();
    let a = c.step(ConnectionEvent::Data(b"POST /api/settings HTTP/1.1\r\nContent-Length: 10\r\n\r\n0123".to_vec()));
    assert_eq!(read_amount(&a), 6);
    let a = c.step(ConnectionEvent::Data(b"45".to_vec()));
    assert_eq!(read_amount(&a), 4);
    let (r, body) = dispatched(c.step(ConnectionEvent::Data(b"6789".to_vec())));
    assert_eq!(r, Route::PostSettings);
    assert_eq!(body, b"0123456789".to_vec());
}

#[test]
fn early_end_of_body_serves_what_came() {
    let (mut c, _) = Connection::start();
    c.step(ConnectionEvent::Data(b"POST /api/settings HTTP/1.1\r\nContent-Length: 10\r\n\r\n01".to_vec()));
    let (_, body) = dispatched(c.step(ConnectionEvent::End));
    assert_eq!(body, b"01".to_vec());
    let (mut c, _) = Connection::start();
    c.step(ConnectionEvent::Data(b"POST /api/settings HTTP/1.1\r\nContent-Length: 10\r\n\r\n".to_vec()));
    let (_, body) = dispatched(c.step(ConnectionEvent::Failed));
    assert!(body.is_empty());
}

#[test]
fn extra_bytes_stay_in_the_body() {
    let (mut c, _) = Connection::start();
    let a = c.step(ConnectionEvent::Data(b"POST /api/exit HTTP/1.1\r\nContent-Length: 1\r\n\r\nabc".to_vec()));
    let (r, body) = dispatched(a);
    assert_eq!(r, Route::Exit);
    assert_eq!(body, b"abc".to_vec());
}

#[test]
fn end_before_head_closes() {
    let (mut c, _) = Connection::start();
    c.step(ConnectionEvent::Data(b"GET / HTTP/1.1\r\n".to_vec()));
    assert!(matches!(c.step(ConnectionEvent::End), ConnectionAction::Close));
    let (mut c, _) = Connection::start();
    assert!(matches!(c.step(ConnectionEvent::Failed), ConnectionAction::Close));
}

#[test]
fn head_filling_the_buffer_closes() {
    let (mut c, _) = Connection::start();
    let mut data = b"GET / HTTP/1.1\r\nX: ".to_vec();
    data.resize(HEAD_BUFFER_SIZE, b'a');
    assert!(matches!(c.step(ConnectionEvent::Data(data)), ConnectionAction::Close));
}

#[test]
fn malformed_request_line_is_not_served() {
    let (mut c, _) = Connection::start();
    let a = c.step(ConnectionEvent::Data(b"HELLO\r\nContent-Length: 2\r\n\r\n".to_vec()));
    assert_eq!(read_amount(&a), 2);
    assert!(matches!(c.step(ConnectionEvent::Data(b"xy".to_vec())), ConnectionAction::Close));
}

#[test]
fn reason_phrases() {
    assert_eq!(status_text(200), "OK");
    assert_eq!(status_text(400), "Bad Request");
    assert_eq!(status_text(444), "No Response");
    assert_eq!(status_text(404), "Not Found");
    assert_eq!(status_text(500), "Internal Server Error");
    assert_eq!(status_text(201), "Unknown");
}

#[test]
fn content_type_names() {
    assert_eq!(content_type_text(ContentType::Html), "text/html; charset=utf-8");
    assert_eq!(content_type_text(ContentType::Json), "application/json");
    assert_eq!(content_type_text(ContentType::Text), "text/plain");
}

#[test]
fn response_head_layout() {
    let head = response_head(200, "application/json", 15);
    let expected = "HTTP/1.1 200 OK\r\nContent-Type: application/json\r\nContent-Length: 15\r\nConnection: close\r\nCache-Control: no-cache, no-store, must-revalidate\r\nPragma: no-cache\r\nExpires: 0\r\n\r\n";
    assert_eq!(String::from_utf8(head).unwrap(), expected);
}

#[test]
fn response_length_is_the_body_length() {
    let r = Response { status: 404, content_type: ContentType::Text, body: b"Not Found".to_vec() };
    let bytes = String::from_utf8(response_bytes(&r)).unwrap();
    assert!(bytes.starts_with("HTTP/1.1 404 Not Found\r\nContent-Type: text/plain\r\nContent-Length: 9\r\n"));
    assert!(bytes.ends_with("\r\n\r\nNot Found"));
    let r = Response { status: 200, content_type: ContentType::Html, body: vec![b'x'; 1234] };
    let bytes = String::from_utf8(response_bytes(&r)).unwrap();
    assert!(bytes.contains("Content-Length: 1234\r\n"));
    let r = Response { status: 200, content_type: ContentType::Html, body: vec![] };
    assert!(String::from_utf8(response_bytes(&r)).unwrap().contains("Content-Length: 0\r\n"));
}

#[test]
fn page_and_not_found() {
    let p = page_response(b"<html></html>");
    assert_eq!((p.status, p.content_type), (200, ContentType::Html));
    assert_eq!(p.body, b"<html></html>".to_vec());
    let n = not_found_response();
    assert_eq!((n.status, n.content_type), (404, ContentType::Text));
    assert_eq!(n.body, b"Not Found".to_vec());
}

#[test]
fn settings_json_or_server_error() {
    let ok = settings_response(Some(b"{\"enabled\":true}".to_vec()));
    assert_eq!((ok.status, ok.content_type), (200, ContentType::Json));
    assert_eq!(ok.body, b"{\"enabled\":true}".to_vec());
    let err = settings_response(None);
    assert_eq!((err.status, err.content_type), (500, ContentType::Text));
    assert_eq!(err.body, b"Internal Server Error".to_vec());
}

#[test]
fn posted_settings_replace_the_current_ones() {
    let mut current = Settings::default();
    let mut posted = Settings::default();
    posted.gap = 11;
    posted.color = "#ff0000".to_string();
    let out = apply_posted_settings(&mut current, Some(posted));
    assert_eq!(current.gap, 11);
    assert_eq!(current.color, "#ff0000");
    assert_eq!(out.response.status, 200);
    assert_eq!(out.response.body, b"{\"status\":\"ok\"}".to_vec());
    assert!(out.save_settings);
    assert_eq!(out.set_autostart, None);
    assert_eq!(out.notify, Some(WM_UPDATE_SETTINGS));
}

#[test]
fn changed_autostart_is_applied() {
    let mut current = Settings::default();
    let mut posted = Settings::default();
    posted.autostart = true;
    let out = apply_posted_settings(&mut current, Some(posted));
    assert_eq!(out.set_autostart, Some(true));
    assert!(current.autostart);
}

#[test]
fn invalid_settings_are_rejected() {
    let mut current = Settings::default();
    let out = apply_posted_settings(&mut current, None);
    assert_eq!(out.response.status, 400);
    assert_eq!(out.response.content_type, ContentType::Text);
    assert_eq!(out.response.body, b"Bad Request".to_vec());
    assert!(!out.save_settings);
    assert_eq!(out.notify, None);
    assert_eq!(current.gap, 4);
}

#[test]
fn toggle_reports_the_new_state() {
    let mut s = Settings::default();
    let out = toggle_request(&mut s);
    assert!(!s.enabled);
    assert_eq!(out.response.body, b"{\"enabled\":false}".to_vec());
    assert!(out.save_settings);
    assert_eq!(out.notify, Some(WM_TOGGLE_VISIBILITY));
    let out = toggle_request(&mut s);
    assert!(s.enabled);
    assert_eq!(out.response.body, b"{\"enabled\":true}".to_vec());
}

#[test]
fn exit_tells_the_window() {
    let out = exit_request();
    assert_eq!(out.response.status, 200);
    assert_eq!(out.response.body, b"{\"status\":\"exiting\"}".to_vec());
    assert_eq!(out.notify, Some(WM_EXIT_APPLICATION));
    assert!(!out.save_settings);
}

#[test]
fn length_line_is_recognised_by_its_lowered_form() {
    assert_eq!(content_length_setting(&chars("content-length:5"), &chars("content-length:5")), Some(5));
    assert_eq!(content_length_setting(&chars("Content-Length: 7 "), &chars("content-length: 7 ")), Some(7));
    assert_eq!(content_length_setting(&chars("Content-Length: x"), &chars("content-length: x")), Some(0));
    assert_eq!(content_length_setting(&chars("Content-Length: 7"), &chars("Content-Length: 7")), None);
    assert_eq!(content_length_setting(&chars("Host: a"), &chars("host: a")), None);
}

#[test]
fn lower_case_length_header_sets_the_body_length() {
    let head = parse_request_head(b"POST /api/settings HTTP/1.1\r\ncontent-length:5");
    assert_eq!(head.route, Some(Route::PostSettings));
    assert_eq!(head.content_length, 5);
}

#[test]
fn request_fed_byte_by_byte_is_served_once() {
    let request = b"POST /api/settings HTTP/1.1\r\nContent-Length: 3\r\n\r\nabc".to_vec();
    let (mut c, first) = Connection::start();
    assert_eq!(read_amount(&first), HEAD_BUFFER_SIZE);
    let mut served = Vec::new();
    for (i, byte) in request.iter().enumerate() {
        match c.step(ConnectionEvent::Data(vec![*byte])) {
            ConnectionAction::Read(n) => assert!(n >= 1 && i + 1 < request.len()),
            ConnectionAction::Dispatch(r) => served.push((i, r.route, r.body)),
            ConnectionAction::Close => panic!("closed early"),
        }
    }
    assert_eq!(served, vec![(request.len() - 1, Route::PostSettings, b"abc".to_vec())]);
    assert!(matches!(c.step(ConnectionEvent::End), ConnectionAction::Close));
}

#[test]
fn body_is_no_longer_than_announced_unless_it_came_with_the_head() {
    let (mut c, _) = Connection::start();
    let a = c.step(ConnectionEvent::Data(b"POST /api/settings HTTP/1.1\r\nContent-Length: 4\r\n\r\nab".to_vec()));
    assert_eq!(read_amount(&a), 2);
    let (_, body) = dispatched(c.step(ConnectionEvent::Data(b"cd".to_vec())));
    assert_eq!(body, b"abcd".to_vec());
    let (mut c, _) = Connection::start();
    let (_, body) = dispatched(c.step(ConnectionEvent::Data(b"POST /api/exit HTTP/1.1\r\nContent-Length: 2\r\n\r\nabcdef".to_vec())));
    assert_eq!(body, b"abcdef".to_vec());
}
