//! Logging in to Command Code through a browser, which reports back to a
//! listener on this machine. The caller listens, reads and writes.
use vstd::prelude::*;

use crate::clock::{now_micros, MICROS_BOUND};
use crate::codex::sse_bridge::opt_text;
use crate::encode::{url_encode, url_encoded};
use crate::json::{parse_json_bytes, parsed_bytes, Json, JsonView};
use crate::text::{
    chars_of, concat2, concat3, control, cut, decimal, decimal_of, kept, lines, lines_of, lossy,
    lowercase, lowered, nth_or_empty, nth_text, owned, parse_u64, replace, replaced, same,
    split_once, split_words, text_from_bytes, texts, trim, trimmed, unsigned_value, words,
};

verus! {

/// Ten years, in seconds.
pub const TEN_YEARS_SECS: i64 = 315_360_000;

/// The most bytes that the body of a callback may have.
pub const MAX_BODY_BYTES: u64 = 10_240;

/// What the browser reports of a login.
#[derive(Clone, Debug)]
pub struct AuthCallback {
    pub api_key: String,
    pub state: String,
    pub user_id: String,
    pub user_name: String,
    pub key_name: String,
}

/// What an `AuthCallback` stands for.
pub struct CallbackView {
    pub api_key: Seq<char>,
    pub state: Seq<char>,
    pub user_id: Seq<char>,
    pub user_name: Seq<char>,
    pub key_name: Seq<char>,
}

impl View for AuthCallback {
    type V = CallbackView;

    open spec fn view(&self) -> CallbackView {
        CallbackView {
            api_key: self.api_key@,
            state: self.state@,
            user_id: self.user_id@,
            user_name: self.user_name@,
            key_name: self.key_name@,
        }
    }
}

/// Why a login failed.
#[derive(Debug)]
pub enum LoginError {
    Timeout,
    StateMismatch,
    Denied(String),
    Io(String),
}

/// The URL that starts a login, for a listener on this port.
pub open spec fn authorize_url(port: nat, state: Seq<char>) -> Seq<char> {
    "https://commandcode.ai/studio/auth/cli?callback="@ + url_encoded(
        "http://localhost:"@ + decimal(port) + "/callback"@,
    ) + "&state="@ + url_encoded(state)
}

/// The URL that starts a login, for a listener on this port.
pub fn authorize_url_for(port: u16, state_token: &str) -> (r: String)
    ensures
        r@ == authorize_url(port as nat, state_token@),
{
    let number = decimal_of(port as u64);
    let callback = concat3("http://localhost:", number.as_str(), "/callback");
    let mut out = concat3(
        "https://commandcode.ai/studio/auth/cli?callback=",
        url_encode(callback.as_str()).as_str(),
        "&state=",
    );
    out.append(url_encode(state_token).as_str());
    out
}

/// The port to listen on at an attempt: ten fixed ones, then any.
pub fn callback_port(attempt: u16) -> (r: u16)
    ensures
        r == if attempt < 10 {
            5959 + attempt
        } else {
            0
        },
{
    if attempt < 10 {
        5959 + attempt
    } else {
        0
    }
}

/// How long to wait for the browser, in milliseconds: what the setting says,
/// or else 15 seconds.
pub fn auth_timeout_ms(setting: Option<&str>) -> (r: u64)
    ensures
        r as nat == match setting {
            Some(s) => match unsigned_value(s@) {
                Some(n) => if n <= u64::MAX {
                    n
                } else {
                    15_000
                },
                None => 15_000,
            },
            None => 15_000,
        },
{
    match setting {
        Some(s) => match parse_u64(s) {
            Some(n) => n,
            None => 15_000,
        },
        None => 15_000,
    }
}

/// Ten years after a time, in microseconds.
pub open spec fn ten_years_later(now: int) -> int {
    now + TEN_YEARS_SECS * 1_000_000
}

/// Ten years after a time, in microseconds.
pub fn ten_years_after(now: i64) -> (r: i64)
    requires
        now <= MICROS_BOUND,
    ensures
        r as int == ten_years_later(now as int),
{
    now + TEN_YEARS_SECS * 1_000_000
}

/// Ten years from now, in microseconds.
pub fn far_future_expiry() -> (r: i64)
    ensures
        exists|now: int|
            -MICROS_BOUND <= now <= MICROS_BOUND && r as int == #[trigger] ten_years_later(now),
{
    let now: i64 = now_micros();
    let r: i64 = ten_years_after(now);
    assert(r as int == ten_years_later(now as int));
    r
}

/// What is left of a pasted key: no paste markers, no control characters, no
/// white space around it.
pub open spec fn sanitized(input: Seq<char>) -> Seq<char> {
    let a = replaced(input, "\x1b[200~"@, ""@);
    let b = replaced(a, "\x1b[201~"@, ""@);
    let c = replaced(b, "[200~"@, ""@);
    let d = replaced(c, "[201~"@, ""@);
    trimmed(kept(d, |ch: char| !control(ch)))
}

fn without_controls(s: &str) -> (r: String)
    ensures
        r@ == kept(s@, |ch: char| !control(ch)),
{
    let v = chars_of(s);
    let mut out = String::new();
    let mut i: usize = 0;
    while i < v.len()
        invariant
            i <= v.len(),
            out@ == kept(v@.subrange(0, i as int), |ch: char| !control(ch)),
        decreases v.len() - i,
    {
        assert(v@.subrange(0, i + 1).drop_last() =~= v@.subrange(0, i as int));
        let c = v[i];
        if !(c <= '\u{1f}' || ('\u{7f}' <= c && c <= '\u{9f}')) {
            out.push(c);
        }
        i += 1;
    }
    assert(v@.subrange(0, i as int) =~= v@);
    out
}

/// What is left of a pasted key.
pub fn sanitize_api_key(input: &str) -> (r: String)
    ensures
        r@ == sanitized(input@),
{
    proof {
        reveal_strlit("\x1b[200~");
        reveal_strlit("\x1b[201~");
        reveal_strlit("[200~");
        reveal_strlit("[201~");
    }
    let a = replace(input, "\x1b[200~", "");
    let b = replace(a.as_str(), "\x1b[201~", "");
    let c = replace(b.as_str(), "[200~", "");
    let d = replace(c.as_str(), "[201~", "");
    trim(without_controls(d.as_str()).as_str())
}

/// Takes a callback only where its state is the one that was given out.
pub fn validate_state(expected: &str, callback: AuthCallback) -> (r: Result<
    AuthCallback,
    LoginError,
>)
    ensures
        match r {
            Ok(c) => callback@.state == expected@ && c == callback,
            Err(e) => callback@.state != expected@ && e is StateMismatch,
        },
{
    if same(callback.state.as_str(), expected) {
        Ok(callback)
    } else {
        Err(LoginError::StateMismatch)
    }
}

/// How a login ended, in words where it failed.
pub fn login_outcome(expected: &str, result: Result<AuthCallback, LoginError>) -> (r: Result<
    String,
    String,
>)
    ensures
        match result {
            Ok(c) => if c@.state == expected@ {
                r matches Ok(key) && key@ == c@.api_key
            } else {
                r matches Err(m) && m@ == "StateMismatch"@
            },
            Err(LoginError::Denied(why)) => r matches Err(m) && m@ == "login denied: "@ + why@,
            Err(LoginError::Timeout) => r matches Err(m) && m@ == "login timed out"@,
            Err(LoginError::StateMismatch) => r matches Err(m) && m@ == "StateMismatch"@,
            Err(LoginError::Io(e)) => r matches Err(m) && m@ == "Io("@ + e@ + ")"@,
        },
{
    match result {
        Ok(callback) => match validate_state(expected, callback) {
            Ok(c) => Ok(c.api_key),
            Err(_) => Err(owned("StateMismatch")),
        },
        Err(LoginError::Denied(why)) => Err(concat2("login denied: ", why.as_str())),
        Err(LoginError::Timeout) => Err(owned("login timed out")),
        Err(LoginError::StateMismatch) => Err(owned("StateMismatch")),
        Err(LoginError::Io(e)) => Err(concat3("Io(", e.as_str(), ")")),
    }
}

// ---------------------------------------------------------------------------
// The head of a request
// ---------------------------------------------------------------------------

/// What the head of a request says.
pub struct RequestHead {
    pub method: String,
    pub path: String,
    pub origin: String,
    pub requested_headers: String,
    pub content_length: u64,
}

/// The headers that count, of which the last one of a name does.
pub struct Headers {
    pub origin: Seq<char>,
    pub requested: Seq<char>,
    pub length: nat,
}

/// The number that a header gives, 0 where it gives none.
pub open spec fn number_or_zero(s: Seq<char>) -> nat {
    match unsigned_value(s) {
        Some(n) => if n <= u64::MAX {
            n
        } else {
            0
        },
        None => 0,
    }
}

/// The headers that one more line makes.
pub open spec fn with_line(h: Headers, line: Seq<char>) -> Headers {
    match split_once(line, ":"@) {
        None => h,
        Some((name, value)) => {
            let key = lowered(trimmed(name));
            if key == "origin"@ {
                Headers { origin: trimmed(value), ..h }
            } else if key == "access-control-request-headers"@ {
                Headers { requested: trimmed(value), ..h }
            } else if key == "content-length"@ {
                Headers { length: number_or_zero(trimmed(value)), ..h }
            } else {
                h
            }
        },
    }
}

/// The headers that lines make.
pub open spec fn headers_of(ls: Seq<Seq<char>>) -> Headers
    decreases ls.len(),
{
    if ls.len() == 0 {
        Headers { origin: seq![], requested: seq![], length: 0 }
    } else {
        with_line(headers_of(ls.drop_last()), ls.last())
    }
}

/// The lines of a head behind the first.
pub open spec fn header_lines(ls: Seq<Seq<char>>) -> Seq<Seq<char>> {
    if ls.len() == 0 {
        seq![]
    } else {
        ls.subrange(1, ls.len() as int)
    }
}

impl RequestHead {
    /// It says what this text says.
    pub open spec fn reads(self, head: Seq<char>) -> bool {
        let ls = lines_of(head);
        let first = words(nth_or_empty(ls, 0));
        let h = headers_of(header_lines(ls));
        &&& self.method@ == nth_or_empty(first, 0)
        &&& self.path@ == nth_or_empty(first, 1)
        &&& self.origin@ == h.origin
        &&& self.requested_headers@ == h.requested
        &&& self.content_length as nat == h.length
    }
}

/// Reads the head of a request.
pub fn parse_head(head: &str) -> (r: RequestHead)
    ensures
        r.reads(head@),
{
    let ls = lines(head);
    let ghost all = lines_of(head@);
    let ghost rest = header_lines(all);
    let first = split_words(nth_text(&ls, 0).as_str());
    let method = nth_text(&first, 0);
    let path = nth_text(&first, 1);
    let mut origin = String::new();
    let mut requested_headers = String::new();
    let mut content_length: u64 = 0;
    let mut i: usize = 1;
    assert(texts(ls@).len() == ls@.len());
    assert(origin@ =~= headers_of(rest.subrange(0, 0)).origin);
    assert(requested_headers@ =~= headers_of(rest.subrange(0, 0)).requested);
    while i < ls.len()
        invariant
            1 <= i,
            ls.len() > 0 ==> i <= ls.len(),
            ls.len() == 0 ==> i == 1,
            all == texts(ls@),
            rest == header_lines(all),
            origin@ == headers_of(rest.subrange(0, i - 1)).origin,
            requested_headers@ == headers_of(rest.subrange(0, i - 1)).requested,
            content_length as nat == headers_of(rest.subrange(0, i - 1)).length,
        decreases ls.len() - i,
    {
        assert(rest.subrange(0, i as int).drop_last() =~= rest.subrange(0, i - 1));
        assert(rest.subrange(0, i as int).last() == ls@[i as int]@);
        proof {
            reveal_strlit("origin");
            reveal_strlit("content-length");
            reveal_strlit("access-control-request-headers");
            assert("origin"@.len() == 6);
            assert("content-length"@.len() == 14);
            assert("access-control-request-headers"@.len() == 30);
        }
        match cut(ls[i].as_str(), ":") {
            Some((name, value)) => {
                let key = lowercase(trim(name.as_str()).as_str());
                let given = trim(value.as_str());
                if same(key.as_str(), "origin") {
                    origin = given;
                } else if same(key.as_str(), "access-control-request-headers") {
                    requested_headers = given;
                } else if same(key.as_str(), "content-length") {
                    content_length = match parse_u64(given.as_str()) {
                        Some(n) => n,
                        None => 0,
                    };
                }
            },
            None => {},
        }
        i += 1;
    }
    proof {
        if ls.len() > 0 {
            assert(rest.subrange(0, i - 1) =~= rest);
        } else {
            assert(rest.subrange(0, 0) =~= rest);
        }
    }
    RequestHead { method, path, origin, requested_headers, content_length }
}

/// The origins that may read an answer.
pub open spec fn trusted_origin(origin: Seq<char>) -> bool {
    origin == "https://commandcode.ai"@ || origin == "https://staging.commandcode.ai"@ || origin
        == "http://localhost:3000"@
}

/// The origin that an answer is meant for.
pub open spec fn cors_origin(origin: Seq<char>) -> Seq<char> {
    if trusted_origin(origin) {
        origin
    } else {
        "http://localhost:3000"@
    }
}

/// The origin that an answer is meant for.
pub fn allowed_origin(origin: &str) -> (r: &str)
    ensures
        r@ == cors_origin(origin@),
{
    if same(origin, "https://commandcode.ai") || same(origin, "https://staging.commandcode.ai")
        || same(origin, "http://localhost:3000") {
        origin
    } else {
        "http://localhost:3000"
    }
}

// ---------------------------------------------------------------------------
// The answer
// ---------------------------------------------------------------------------

/// The words that go with a status.
pub open spec fn reason(status: u16) -> Seq<char> {
    if status == 200 {
        "OK"@
    } else if status == 204 {
        "No Content"@
    } else if status == 400 {
        "Bad Request"@
    } else if status == 404 {
        "Not Found"@
    } else if status == 405 {
        "Method Not Allowed"@
    } else if status == 413 {
        "Payload Too Large"@
    } else {
        "Error"@
    }
}

fn reason_of(status: u16) -> (r: &'static str)
    ensures
        r@ == reason(status),
{
    if status == 200 {
        "OK"
    } else if status == 204 {
        "No Content"
    } else if status == 400 {
        "Bad Request"
    } else if status == 404 {
        "Not Found"
    } else if status == 405 {
        "Method Not Allowed"
    } else if status == 413 {
        "Payload Too Large"
    } else {
        "Error"
    }
}

/// An answer to the browser.
pub struct Reply {
    pub status: u16,
    pub body: String,
    pub origin: String,
    pub requested_headers: String,
    pub close: bool,
}

/// What a `Reply` stands for.
pub struct ReplyView {
    pub status: u16,
    pub body: Seq<char>,
    pub origin: Seq<char>,
    pub requested: Seq<char>,
    pub close: bool,
}

impl View for Reply {
    type V = ReplyView;

    open spec fn view(&self) -> ReplyView {
        ReplyView {
            status: self.status,
            body: self.body@,
            origin: self.origin@,
            requested: self.requested_headers@,
            close: self.close,
        }
    }
}

impl ReplyView {
    /// The text that goes out.
    pub open spec fn wire_text(self) -> Seq<char> {
        "HTTP/1.1 "@ + decimal(self.status as nat) + " "@ + reason(self.status)
            + "\r\ncontent-type: application/json\r\naccess-control-allow-origin: "@ + self.origin
            + "\r\naccess-control-allow-methods: POST, OPTIONS\r\naccess-control-allow-headers: "@
            + (if self.requested.len() == 0 {
            "Content-Type"@
        } else {
            self.requested
        }) + "\r\naccess-control-allow-private-network: true\r\ncontent-length: "@ + decimal(
            vstd::utf8::encode_utf8(self.body).len(),
        ) + "\r\nconnection: "@ + (if self.close {
            "close"@
        } else {
            "keep-alive"@
        }) + "\r\n\r\n"@ + self.body
    }
}

fn reply(status: u16, body: &str, origin: &str, requested_headers: &str, close: bool) -> (r: Reply)
    ensures
        r@ == (ReplyView {
            status,
            body: body@,
            origin: origin@,
            requested: requested_headers@,
            close,
        }),
{
    Reply {
        status,
        body: owned(body),
        origin: owned(origin),
        requested_headers: owned(requested_headers),
        close,
    }
}

impl Reply {
    /// The text that goes out.
    pub fn to_text(&self) -> (r: String)
        ensures
            r@ == self@.wire_text(),
    {
        let mut out = concat3("HTTP/1.1 ", decimal_of(self.status as u64).as_str(), " ");
        out.append(reason_of(self.status));
        out.append("\r\ncontent-type: application/json\r\naccess-control-allow-origin: ");
        out.append(self.origin.as_str());
        out.append(
            "\r\naccess-control-allow-methods: POST, OPTIONS\r\naccess-control-allow-headers: ",
        );
        if self.requested_headers.as_str().is_empty() {
            out.append("Content-Type");
        } else {
            out.append(self.requested_headers.as_str());
        }
        out.append("\r\naccess-control-allow-private-network: true\r\ncontent-length: ");
        let size: usize = self.body.as_str().as_bytes().len();
        out.append(decimal_of(size as u64).as_str());
        out.append("\r\nconnection: ");
        if self.close {
            out.append("close");
        } else {
            out.append("keep-alive");
        }
        out.append("\r\n\r\n");
        out.append(self.body.as_str());
        out
    }
}

/// How a request ends for the login.
pub enum RequestOutcome {
    /// The listener goes on listening.
    Continue,
    /// The login is over.
    Complete(Result<AuthCallback, LoginError>),
}

/// What a `RequestOutcome` stands for.
pub enum OutcomeView {
    Continue,
    Callback(CallbackView),
    Denied(Seq<char>),
    Timeout,
    StateMismatch,
    Io(Seq<char>),
}

impl View for RequestOutcome {
    type V = OutcomeView;

    open spec fn view(&self) -> OutcomeView {
        match self {
            RequestOutcome::Continue => OutcomeView::Continue,
            RequestOutcome::Complete(Ok(c)) => OutcomeView::Callback(c@),
            RequestOutcome::Complete(Err(LoginError::Denied(d))) => OutcomeView::Denied(d@),
            RequestOutcome::Complete(Err(LoginError::Timeout)) => OutcomeView::Timeout,
            RequestOutcome::Complete(Err(LoginError::StateMismatch)) => OutcomeView::StateMismatch,
            RequestOutcome::Complete(Err(LoginError::Io(e))) => OutcomeView::Io(e@),
        }
    }
}

/// A member that is a string and not blank, without the white space around it.
pub open spec fn required_field(v: JsonView, name: Seq<char>) -> Option<Seq<char>> {
    match v.at(name).str() {
        Some(s) => if trimmed(s).len() > 0 {
            Some(trimmed(s))
        } else {
            None
        },
        None => None,
    }
}

fn required_field_of(v: &Json, name: &str) -> (r: Option<String>)
    ensures
        opt_text(r) == required_field(v@, name@),
{
    match v.at(name).as_str() {
        Some(s) => {
            let t = trim(s);
            if t.as_str().is_empty() {
                None
            } else {
                Some(t)
            }
        },
        None => None,
    }
}

/// Why a login was denied.
pub open spec fn denial(error: JsonView) -> Seq<char> {
    match error.str() {
        Some(s) => s,
        None => error.at("message"@).str_or("authentication denied"@),
    }
}

/// The callback that a body reports, where it has every member.
pub open spec fn reported(v: JsonView) -> Option<CallbackView> {
    match (
        required_field(v, "apiKey"@),
        required_field(v, "state"@),
        required_field(v, "userId"@),
        required_field(v, "userName"@),
        required_field(v, "keyName"@),
    ) {
        (Some(api_key), Some(state), Some(user_id), Some(user_name), Some(key_name)) => Some(
            CallbackView { api_key, state, user_id, user_name, key_name },
        ),
        _ => None,
    }
}

fn reported_of(v: &Json) -> (r: Option<AuthCallback>)
    ensures
        match r {
            Some(c) => reported(v@) == Some(c@),
            None => reported(v@) is None,
        },
{
    match (
        required_field_of(v, "apiKey"),
        required_field_of(v, "state"),
        required_field_of(v, "userId"),
        required_field_of(v, "userName"),
        required_field_of(v, "keyName"),
    ) {
        (Some(api_key), Some(state), Some(user_id), Some(user_name), Some(key_name)) => Some(
            AuthCallback { api_key, state, user_id, user_name, key_name },
        ),
        _ => None,
    }
}

/// The status and body of an answer, and how the request ends, given the JSON
/// of a callback or that it is none.
pub open spec fn callback_answer(body: Option<JsonView>) -> (u16, Seq<char>, OutcomeView) {
    match body {
        None => (
            400,
            "{\"success\":false,\"error\":\"malformed JSON\"}"@,
            OutcomeView::Continue,
        ),
        Some(v) => match v.field("error"@) {
            Some(error) => (200, "{\"success\":true}"@, OutcomeView::Denied(denial(error))),
            None => match reported(v) {
                Some(c) => (200, "{\"success\":true}"@, OutcomeView::Callback(c)),
                None => (
                    400,
                    "{\"success\":false,\"error\":\"all callback fields are required\"}"@,
                    OutcomeView::Continue,
                ),
            },
        },
    }
}

/// The answer to the JSON of a callback, and how the request ends.
pub fn answer_callback(body: Option<&Json>) -> (r: (u16, &'static str, RequestOutcome))
    ensures
        (r.0, r.1@, r.2@) == callback_answer(crate::json::opt_view(body)),
{
    match body {
        None => (
            400,
            "{\"success\":false,\"error\":\"malformed JSON\"}",
            RequestOutcome::Continue,
        ),
        Some(v) => {
            match v.get("error") {
                Some(error) => {
                    let description = match error.as_str() {
                        Some(s) => owned(s),
                        None => owned(error.at("message").str_or("authentication denied")),
                    };
                    (
                        200,
                        "{\"success\":true}",
                        RequestOutcome::Complete(Err(LoginError::Denied(description))),
                    )
                },
                None => match reported_of(v) {
                    Some(c) => (200, "{\"success\":true}", RequestOutcome::Complete(Ok(c))),
                    None => (
                        400,
                        "{\"success\":false,\"error\":\"all callback fields are required\"}",
                        RequestOutcome::Continue,
                    ),
                },
            }
        },
    }
}

/// What of a received body counts: no more than was announced.
pub open spec fn announced(body: Seq<u8>, length: u64) -> Seq<u8> {
    if body.len() <= length {
        body
    } else {
        body.subrange(0, length as int)
    }
}

/// The answer to a request that came in whole, and how it ends.
pub open spec fn answer(
    method: Seq<char>,
    path: Seq<char>,
    origin: Seq<char>,
    requested: Seq<char>,
    body: Option<JsonView>,
) -> (ReplyView, OutcomeView) {
    let cors = cors_origin(origin);
    if method == "OPTIONS"@ && path == "/callback"@ {
        (
            ReplyView { status: 204, body: ""@, origin: cors, requested, close: false },
            OutcomeView::Continue,
        )
    } else if path != "/callback"@ {
        (
            ReplyView {
                status: 404,
                body: "{\"success\":false,\"error\":\"not found\"}"@,
                origin: cors,
                requested,
                close: true,
            },
            OutcomeView::Continue,
        )
    } else if method != "POST"@ {
        (
            ReplyView {
                status: 405,
                body: "{\"success\":false,\"error\":\"method not allowed\"}"@,
                origin: cors,
                requested,
                close: true,
            },
            OutcomeView::Continue,
        )
    } else {
        let (status, said, outcome) = callback_answer(body);
        (ReplyView { status, body: said, origin: cors, requested, close: true }, outcome)
    }
}

/// The JSON that bytes hold.
pub open spec fn json_in(bytes: Seq<u8>) -> Option<JsonView> {
    match parsed_bytes(bytes) {
        Ok(j) => Some(j),
        Err(_) => None,
    }
}

/// The answer to a request whose head and body came in, and how it ends.
pub fn respond(head: &RequestHead, body: &Vec<u8>) -> (r: (Reply, RequestOutcome))
    ensures
        (r.0@, r.1@) == answer(
            head.method@,
            head.path@,
            head.origin@,
            head.requested_headers@,
            json_in(announced(body@, head.content_length)),
        ),
{
    let origin = allowed_origin(head.origin.as_str());
    let requested = head.requested_headers.as_str();
    let on_path = same(head.path.as_str(), "/callback");
    if same(head.method.as_str(), "OPTIONS") && on_path {
        return (reply(204, "", origin, requested, false), RequestOutcome::Continue);
    }
    if !on_path {
        return (
            reply(
                404,
                "{\"success\":false,\"error\":\"not found\"}",
                origin,
                requested,
                true,
            ),
            RequestOutcome::Continue,
        );
    }
    if !same(head.method.as_str(), "POST") {
        return (
            reply(
                405,
                "{\"success\":false,\"error\":\"method not allowed\"}",
                origin,
                requested,
                true,
            ),
            RequestOutcome::Continue,
        );
    }
    let counted = if (body.len() as u64) <= head.content_length {
        copy_bytes(body, 0, body.len())
    } else {
        copy_bytes(body, 0, head.content_length as usize)
    };
    assert(counted@ =~= announced(body@, head.content_length));
    let (status, said, outcome) = match parse_json_bytes(counted.as_slice()) {
        Ok(j) => answer_callback(Some(&j)),
        Err(_) => answer_callback(None),
    };
    (reply(status, said, origin, requested, true), outcome)
}

// ---------------------------------------------------------------------------
// Receiving a request
// ---------------------------------------------------------------------------

/// The blank line behind a head stands at this place.
pub open spec fn head_ends_at(bytes: Seq<u8>, i: int) -> bool {
    0 <= i && i + 4 <= bytes.len() && bytes[i] == 13 && bytes[i + 1] == 10 && bytes[i + 2] == 13
        && bytes[i + 3] == 10
}

/// Where the first blank line at or behind `i` stands.
pub open spec fn head_end(bytes: Seq<u8>, i: int) -> Option<int>
    decreases bytes.len() - i,
{
    if i < 0 || i + 4 > bytes.len() {
        None
    } else if head_ends_at(bytes, i) {
        Some(i)
    } else {
        head_end(bytes, i + 1)
    }
}

fn find_head_end(bytes: &Vec<u8>) -> (r: Option<usize>)
    ensures
        match r {
            Some(k) => head_end(bytes@, 0) == Some(k as int) && k + 4 <= bytes.len(),
            None => head_end(bytes@, 0) is None,
        },
{
    if bytes.len() < 4 {
        return None;
    }
    let last: usize = bytes.len() - 4;
    let mut i: usize = 0;
    while i <= last
        invariant
            last == bytes.len() - 4,
            i <= last + 1,
            head_end(bytes@, 0) == head_end(bytes@, i as int),
        decreases last + 1 - i,
    {
        if bytes[i] == 13 && bytes[i + 1] == 10 && bytes[i + 2] == 13 && bytes[i + 3] == 10 {
            return Some(i);
        }
        i += 1;
    }
    None
}

fn copy_bytes(bytes: &Vec<u8>, from: usize, to: usize) -> (r: Vec<u8>)
    requires
        from <= to <= bytes.len(),
    ensures
        r@ == bytes@.subrange(from as int, to as int),
{
    let mut out: Vec<u8> = Vec::new();
    let mut i: usize = from;
    while i < to
        invariant
            from <= i <= to <= bytes.len(),
            out@ =~= bytes@.subrange(from as int, i as int),
        decreases to - i,
    {
        out.push(bytes[i]);
        i += 1;
    }
    out
}

/// What to do next with a connection.
pub enum Progress {
    /// Read more of the head.
    ReadHead,
    /// Read up to so many more bytes of the body.
    ReadBody(u64),
    /// Write the reply, and end as said.
    Finish(Reply, RequestOutcome),
}

/// A connection whose request is coming in.
pub enum Connection {
    /// The head, as far as it came.
    Head(Vec<u8>),
    /// The head, and the body as far as it came.
    Body(RequestHead, Vec<u8>),
}

/// The reply to a request that is too large.
pub open spec fn too_large(origin: Seq<char>) -> ReplyView {
    ReplyView {
        status: 413,
        body: "{\"success\":false,\"error\":\"request too large\"}"@,
        origin,
        requested: ""@,
        close: false,
    }
}

/// What the head of a request comes to, once it is whole.
pub open spec fn head_progress(p: Progress, head: RequestHead, body: Seq<u8>) -> bool {
    if head.content_length > MAX_BODY_BYTES {
        p matches Progress::Finish(reply, outcome) && reply@ == too_large(
            cors_origin(head.origin@),
        ) && outcome@ is Continue
    } else {
        body_progress(p, head, body)
    }
}

/// What a body comes to, as far as it came: the answer once all that was
/// announced is there.
pub open spec fn body_progress(p: Progress, head: RequestHead, body: Seq<u8>) -> bool {
    if body.len() < head.content_length {
        p matches Progress::ReadBody(n) && n as int == head.content_length - body.len()
    } else {
        finished(p, head, body)
    }
}

/// The answer to a head and a body.
pub open spec fn finished(p: Progress, head: RequestHead, body: Seq<u8>) -> bool {
    p matches Progress::Finish(reply, outcome) && (reply@, outcome@) == answer(
        head.method@,
        head.path@,
        head.origin@,
        head.requested_headers@,
        json_in(announced(body, head.content_length)),
    )
}

impl Connection {
    /// A connection on which nothing came in yet.
    pub fn new() -> (r: Connection)
        ensures
            r matches Connection::Head(v) && v@.len() == 0,
    {
        Connection::Head(Vec::new())
    }

    /// Takes in bytes that were received.
    pub fn receive(self, bytes: &[u8]) -> (r: (Connection, Progress))
        ensures
            match self {
                Connection::Head(v) => {
                    let all = v@ + bytes@;
                    if all.len() > MAX_BODY_BYTES + 8192 {
                        r.1 matches Progress::Finish(reply, outcome) && reply@ == too_large(
                            "http://localhost:3000"@,
                        ) && outcome@ is Continue
                    } else {
                        match head_end(all, 0) {
                            None => r.1 is ReadHead && (r.0 matches Connection::Head(w) && w@
                                == all),
                            Some(k) => r.0 matches Connection::Body(head, body) && head.reads(
                                lossy(all.subrange(0, k)),
                            ) && body@ == all.subrange(k + 4, all.len() as int) && head_progress(
                                r.1,
                                head,
                                body@,
                            ),
                        }
                    }
                },
                Connection::Body(head, body) => r.0 matches Connection::Body(h, b) && h == head
                    && b@ == body@ + bytes@ && body_progress(r.1, head, b@),
            },
    {
        match self {
            Connection::Head(v) => {
                let mut all = v;
                append_bytes(&mut all, bytes);
                if all.len() as u64 > MAX_BODY_BYTES + 8192 {
                    return (
                        Connection::Head(all),
                        Progress::Finish(
                            reply(
                                413,
                                "{\"success\":false,\"error\":\"request too large\"}",
                                "http://localhost:3000",
                                "",
                                false,
                            ),
                            RequestOutcome::Continue,
                        ),
                    );
                }
                match find_head_end(&all) {
                    None => (Connection::Head(all), Progress::ReadHead),
                    Some(k) => {
                        let raw = copy_bytes(&all, 0, k);
                        let head_text = text_from_bytes(raw.as_slice());
                        let head = parse_head(head_text.as_str());
                        let body = copy_bytes(&all, k + 4, all.len());
                        if head.content_length > MAX_BODY_BYTES {
                            let origin = owned(allowed_origin(head.origin.as_str()));
                            return (
                                Connection::Body(head, body),
                                Progress::Finish(
                                    reply(
                                        413,
                                        "{\"success\":false,\"error\":\"request too large\"}",
                                        origin.as_str(),
                                        "",
                                        false,
                                    ),
                                    RequestOutcome::Continue,
                                ),
                            );
                        }
                        let p = progress(&head, &body);
                        (Connection::Body(head, body), p)
                    },
                }
            },
            Connection::Body(head, body) => {
                let mut body = body;
                append_bytes(&mut body, bytes);
                let p = progress(&head, &body);
                (Connection::Body(head, body), p)
            },
        }
    }

    /// The other side closed: a request without a whole head is forgotten, any
    /// other is answered as far as it came.
    pub fn closed(&self) -> (r: Option<(Reply, RequestOutcome)>)
        ensures
            match self {
                Connection::Head(_) => r is None,
                Connection::Body(head, body) => r matches Some(p) && (p.0@, p.1@) == answer(
                    head.method@,
                    head.path@,
                    head.origin@,
                    head.requested_headers@,
                    json_in(announced(body@, head.content_length)),
                ),
            },
    {
        match self {
            Connection::Head(_) => None,
            Connection::Body(head, body) => Some(respond(head, body)),
        }
    }
}

fn append_bytes(v: &mut Vec<u8>, bytes: &[u8])
    ensures
        final(v)@ == old(v)@ + bytes@,
{
    let ghost start = v@;
    let mut i: usize = 0;
    while i < bytes.len()
        invariant
            i <= bytes.len(),
            v@ =~= start + bytes@.subrange(0, i as int),
        decreases bytes.len() - i,
    {
        v.push(bytes[i]);
        i += 1;
    }
    assert(bytes@.subrange(0, i as int) =~= bytes@);
}

fn progress(head: &RequestHead, body: &Vec<u8>) -> (r: Progress)
    ensures
        body_progress(r, *head, body@),
{
    if (body.len() as u64) < head.content_length {
        Progress::ReadBody(head.content_length - body.len() as u64)
    } else {
        let (reply, outcome) = respond(head, body);
        Progress::Finish(reply, outcome)
    }
}

// ---------------------------------------------------------------------------
// Laws
// ---------------------------------------------------------------------------

/// Only a POST to the callback path can end a login, and it ends one only with
/// a denial or with a callback that has every member.
pub proof fn law_only_callbacks_end_a_login(
    method: Seq<char>,
    path: Seq<char>,
    origin: Seq<char>,
    requested: Seq<char>,
    body: Option<JsonView>,
)
    ensures
        match answer(method, path, origin, requested, body).1 {
            OutcomeView::Continue => true,
            OutcomeView::Callback(c) => method == "POST"@ && path == "/callback"@ && body is Some
                && reported(body->0) == Some(c) && c.api_key.len() > 0 && c.state.len() > 0,
            OutcomeView::Denied(d) => method == "POST"@ && path == "/callback"@ && body is Some
                && body->0.field("error"@) is Some,
            _ => false,
        },
{
}

/// Every answer names an origin that may read it.
pub proof fn law_answers_go_to_trusted_origins(
    method: Seq<char>,
    path: Seq<char>,
    origin: Seq<char>,
    requested: Seq<char>,
    body: Option<JsonView>,
)
    ensures
        trusted_origin(answer(method, path, origin, requested, body).0.origin),
{
}

} // verus!
