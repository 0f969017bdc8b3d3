use vstd::prelude::*;
use vstd::slice::slice_to_vec;
use vstd::string::StringSliceAdditionalSpecFns;
use crate::settings::Settings;
use crate::window::{with_enabled, WM_EXIT_APPLICATION, WM_TOGGLE_VISIBILITY, WM_UPDATE_SETTINGS};

verus! {

/// The media type of a response body.
#[derive(Clone, Copy, PartialEq, Eq, Debug)]
pub enum ContentType {
    Html,
    Json,
    Text,
}

/// A response: status code, media type and body.
pub struct Response {
    pub status: u16,
    pub content_type: ContentType,
    pub body: Vec<u8>,
}

/// A response and what must happen before it is sent: store the settings,
/// switch autostart to the given value, post the given message to the
/// overlay window.
pub struct ServiceOutcome {
    pub response: Response,
    pub save_settings: bool,
    pub set_autostart: Option<bool>,
    pub notify: Option<u32>,
}

pub open spec fn content_type_name(ct: ContentType) -> Seq<char> {
    match ct {
        ContentType::Html => "text/html; charset=utf-8"@,
        ContentType::Json => "application/json"@,
        ContentType::Text => "text/plain"@,
    }
}

/// The `Content-Type` value of a media type.
pub fn content_type_text(ct: ContentType) -> (s: &'static str)
    ensures
        s@ == content_type_name(ct),
{
    match ct {
        ContentType::Html => "text/html; charset=utf-8",
        ContentType::Json => "application/json",
        ContentType::Text => "text/plain",
    }
}

/// The reason phrase of a status code that the service knows, or `Unknown`.
pub open spec fn reason_phrase(code: u16) -> Seq<char> {
    if code == 200 {
        "OK"@
    } else if code == 400 {
        "Bad Request"@
    } else if code == 444 {
        "No Response"@
    } else if code == 404 {
        "Not Found"@
    } else if code == 500 {
        "Internal Server Error"@
    } else {
        "Unknown"@
    }
}

/// The reason phrase for a status code (see `reason_phrase`).
pub fn status_text(code: u16) -> (s: &'static str)
    ensures
        s@ == reason_phrase(code),
{
    if code == 200 {
        "OK"
    } else if code == 400 {
        "Bad Request"
    } else if code == 444 {
        "No Response"
    } else if code == 404 {
        "Not Found"
    } else if code == 500 {
        "Internal Server Error"
    } else {
        "Unknown"
    }
}

/// The ASCII decimal digits of `n`, without leading zeros.
pub open spec fn decimal_bytes(n: nat) -> Seq<u8>
    decreases n,
{
    if n < 10 {
        seq![(0x30 + n) as u8]
    } else {
        decimal_bytes(n / 10).push((0x30 + n % 10) as u8)
    }
}

pub(crate) fn push_decimal(v: &mut Vec<u8>, n: usize)
    ensures
        final(v)@ == old(v)@ + decimal_bytes(n as nat),
    decreases n,
{
    if n >= 10 {
        push_decimal(v, n / 10);
    }
    v.push((0x30 + n % 10) as u8);
    assert(v@ =~= old(v)@ + decimal_bytes(n as nat));
}

pub(crate) fn push_bytes(v: &mut Vec<u8>, s: &[u8])
    ensures
        final(v)@ == old(v)@ + s@,
{
    let n = s.len();
    let mut i: usize = 0;
    while i < n
        invariant
            n == s@.len(),
            i <= n,
            v@ == old(v)@ + s@.take(i as int),
        decreases n - i,
    {
        v.push(s[i]);
        assert(s@.take(i + 1) =~= s@.take(i as int).push(s@[i as int]));
        i = i + 1;
    }
    assert(s@.take(n as int) =~= s@);
}

/// The status line and headers of a response whose body has `body_len`
/// bytes, up to and including the blank line. The connection is closed
/// after the response and nothing may be cached.
pub open spec fn response_head_bytes(status: u16, content_type: Seq<u8>, body_len: nat) -> Seq<u8> {
    "HTTP/1.1 ".spec_bytes() + decimal_bytes(status as nat) + " ".spec_bytes()
        + vstd::utf8::encode_utf8(reason_phrase(status)) + "\r\nContent-Type: ".spec_bytes() + content_type
        + "\r\nContent-Length: ".spec_bytes() + decimal_bytes(body_len)
        + "\r\nConnection: close\r\nCache-Control: no-cache, no-store, must-revalidate\r\nPragma: no-cache\r\nExpires: 0\r\n\r\n".spec_bytes()
}

/// The head of a response (see `response_head_bytes`).
pub fn response_head(status: u16, content_type: &str, body_len: usize) -> (head: Vec<u8>)
    ensures
        head@ == response_head_bytes(status, content_type.spec_bytes(), body_len as nat),
{
    let mut head: Vec<u8> = Vec::new();
    push_bytes(&mut head, "HTTP/1.1 ".as_bytes());
    push_decimal(&mut head, status as usize);
    push_bytes(&mut head, " ".as_bytes());
    push_bytes(&mut head, status_text(status).as_bytes());
    push_bytes(&mut head, "\r\nContent-Type: ".as_bytes());
    push_bytes(&mut head, content_type.as_bytes());
    push_bytes(&mut head, "\r\nContent-Length: ".as_bytes());
    push_decimal(&mut head, body_len);
    push_bytes(
        &mut head,
        "\r\nConnection: close\r\nCache-Control: no-cache, no-store, must-revalidate\r\nPragma: no-cache\r\nExpires: 0\r\n\r\n".as_bytes(),
    );
    assert(head@ =~= response_head_bytes(status, content_type.spec_bytes(), body_len as nat));
    head
}

/// The bytes that answer a request: the head, then the body.
pub fn response_bytes(response: &Response) -> (out: Vec<u8>)
    ensures
        out@ == response_head_bytes(
            response.status,
            vstd::utf8::encode_utf8(content_type_name(response.content_type)),
            response.body@.len(),
        ) + response.body@,
{
    let ct = content_type_text(response.content_type);
    let mut out = response_head(response.status, ct, response.body.len());
    push_bytes(&mut out, response.body.as_slice());
    out
}

fn text_body(s: &str) -> (body: Vec<u8>)
    ensures
        body@ == s.spec_bytes(),
{
    slice_to_vec(s.as_bytes())
}

/// `200 OK` with the settings page.
pub fn page_response(page: &[u8]) -> (r: Response)
    ensures
        r.status == 200,
        r.content_type == ContentType::Html,
        r.body@ == page@,
{
    Response { status: 200, content_type: ContentType::Html, body: slice_to_vec(page) }
}

/// The answer to reading the settings: `200` with their JSON text, or `500`
/// when they could not be written as JSON.
pub fn settings_response(json: Option<Vec<u8>>) -> (r: Response)
    ensures
        json matches Some(j) ==> r.status == 200 && r.content_type == ContentType::Json && r.body@ == j@,
        json is None ==> r.status == 500 && r.content_type == ContentType::Text
            && r.body@ == "Internal Server Error".spec_bytes(),
{
    match json {
        Some(j) => Response { status: 200, content_type: ContentType::Json, body: j },
        None => Response { status: 500, content_type: ContentType::Text, body: text_body("Internal Server Error") },
    }
}

/// `404 Not Found` for anything the service does not offer.
pub fn not_found_response() -> (r: Response)
    ensures
        r.status == 404,
        r.content_type == ContentType::Text,
        r.body@ == "Not Found".spec_bytes(),
{
    Response { status: 404, content_type: ContentType::Text, body: text_body("Not Found") }
}

/// Replacing the settings with those posted (`None`: the body was not valid
/// settings JSON). Valid settings become the current ones, are stored, the
/// autostart entry follows them where the flag changed, the window is told,
/// and the answer is `200 {"status":"ok"}`; otherwise nothing changes and
/// the answer is `400 Bad Request`.
pub fn apply_posted_settings(current: &mut Settings, posted: Option<Settings>) -> (out: ServiceOutcome)
    ensures
        posted matches Some(p) ==> {
            &&& *final(current) == p
            &&& out.response.status == 200
            &&& out.response.content_type == ContentType::Json
            &&& out.response.body@ == "{\"status\":\"ok\"}".spec_bytes()
            &&& out.save_settings
            &&& out.set_autostart == (if p.autostart != old(current).autostart { Some(p.autostart) } else { None })
            &&& out.notify == Some(WM_UPDATE_SETTINGS)
        },
        posted is None ==> {
            &&& *final(current) == *old(current)
            &&& out.response.status == 400
            &&& out.response.content_type == ContentType::Text
            &&& out.response.body@ == "Bad Request".spec_bytes()
            &&& !out.save_settings
            &&& out.set_autostart is None
            &&& out.notify is None
        },
{
    match posted {
        Some(p) => {
            let autostart_changed = current.autostart != p.autostart;
            let autostart_val = p.autostart;
            *current = p;
            ServiceOutcome {
                response: Response {
                    status: 200,
                    content_type: ContentType::Json,
                    body: text_body("{\"status\":\"ok\"}"),
                },
                save_settings: true,
                set_autostart: if autostart_changed { Some(autostart_val) } else { None },
                notify: Some(WM_UPDATE_SETTINGS),
            }
        },
        None => ServiceOutcome {
            response: Response { status: 400, content_type: ContentType::Text, body: text_body("Bad Request") },
            save_settings: false,
            set_autostart: None,
            notify: None,
        },
    }
}

/// The JSON answer to a toggle: the new state of the overlay.
pub open spec fn toggle_body(enabled: bool) -> Seq<u8> {
    if enabled {
        "{\"enabled\":true}".spec_bytes()
    } else {
        "{\"enabled\":false}".spec_bytes()
    }
}

/// Switching the overlay on or off from the settings page: the flag flips,
/// is stored, the window is told, and the answer carries the new state.
pub fn toggle_request(current: &mut Settings) -> (out: ServiceOutcome)
    ensures
        *final(current) == with_enabled(*old(current), !old(current).enabled),
        out.response.status == 200,
        out.response.content_type == ContentType::Json,
        out.response.body@ == toggle_body(!old(current).enabled),
        out.save_settings,
        out.set_autostart is None,
        out.notify == Some(WM_TOGGLE_VISIBILITY),
{
    current.enabled = !current.enabled;
    let body = if current.enabled {
        text_body("{\"enabled\":true}")
    } else {
        text_body("{\"enabled\":false}")
    };
    ServiceOutcome {
        response: Response { status: 200, content_type: ContentType::Json, body },
        save_settings: true,
        set_autostart: None,
        notify: Some(WM_TOGGLE_VISIBILITY),
    }
}

/// Asking the application to quit: the window is told, and the answer is
/// `200 {"status":"exiting"}`.
pub fn exit_request() -> (out: ServiceOutcome)
    ensures
        out.response.status == 200,
        out.response.content_type == ContentType::Json,
        out.response.body@ == "{\"status\":\"exiting\"}".spec_bytes(),
        !out.save_settings,
        out.set_autostart is None,
        out.notify == Some(WM_EXIT_APPLICATION),
{
    ServiceOutcome {
        response: Response {
            status: 200,
            content_type: ContentType::Json,
            body: text_body("{\"status\":\"exiting\"}"),
        },
        save_settings: false,
        set_autostart: None,
        notify: Some(WM_EXIT_APPLICATION),
    }
}

} // verus!
