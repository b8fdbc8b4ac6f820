//! Errors, what each is answered with, and how an upstream's answer is classed.
use vstd::prelude::*;

use crate::json::{obj, text, Json, JsonView};
use crate::model::WireFormat;
use crate::text::{concat2, contains, occurs, owned, trim, trimmed};

verus! {

/// What can go wrong on the way to an answer.
#[derive(Clone, Debug)]
pub enum AppError {
    NotFound,
    BadRequest(String),
    Unauthorized,
    Conflict(String),
    PayloadTooLarge(String),
    Db(String),
    Upstream(String),
    Internal(String),
}

/// What an `AppError` stands for.
pub enum AppErrorView {
    NotFound,
    BadRequest(Seq<char>),
    Unauthorized,
    Conflict(Seq<char>),
    PayloadTooLarge(Seq<char>),
    Db(Seq<char>),
    Upstream(Seq<char>),
    Internal(Seq<char>),
}

impl View for AppError {
    type V = AppErrorView;

    open spec fn view(&self) -> AppErrorView {
        match self {
            AppError::NotFound => AppErrorView::NotFound,
            AppError::BadRequest(m) => AppErrorView::BadRequest(m@),
            AppError::Unauthorized => AppErrorView::Unauthorized,
            AppError::Conflict(m) => AppErrorView::Conflict(m@),
            AppError::PayloadTooLarge(m) => AppErrorView::PayloadTooLarge(m@),
            AppError::Db(m) => AppErrorView::Db(m@),
            AppError::Upstream(m) => AppErrorView::Upstream(m@),
            AppError::Internal(m) => AppErrorView::Internal(m@),
        }
    }
}

impl AppErrorView {
    /// The words for people.
    pub open spec fn words(self) -> Seq<char> {
        match self {
            AppErrorView::NotFound => "not found"@,
            AppErrorView::BadRequest(m) => "bad request: "@ + m,
            AppErrorView::Unauthorized => "unauthorized"@,
            AppErrorView::Conflict(m) => "conflict: "@ + m,
            AppErrorView::PayloadTooLarge(m) => "payload too large: "@ + m,
            AppErrorView::Db(m) => "db error: "@ + m,
            AppErrorView::Upstream(m) => "upstream error: "@ + m,
            AppErrorView::Internal(m) => "internal error: "@ + m,
        }
    }

    /// The HTTP status that it is answered with.
    pub open spec fn status(self) -> int {
        match self {
            AppErrorView::NotFound => 404,
            AppErrorView::BadRequest(_) => 400,
            AppErrorView::Unauthorized => 401,
            AppErrorView::Conflict(_) => 409,
            AppErrorView::PayloadTooLarge(_) => 413,
            AppErrorView::Db(_) => 500,
            AppErrorView::Upstream(_) => 502,
            AppErrorView::Internal(_) => 500,
        }
    }

    /// The message that it is answered with.
    pub open spec fn message(self) -> Seq<char> {
        match self {
            AppErrorView::NotFound => "not found"@,
            AppErrorView::BadRequest(m) => m,
            AppErrorView::Unauthorized => "unauthorized"@,
            AppErrorView::Conflict(m) => m,
            AppErrorView::PayloadTooLarge(m) => m,
            AppErrorView::Db(m) => "db: "@ + m,
            AppErrorView::Upstream(m) => m,
            AppErrorView::Internal(m) => m,
        }
    }
}

impl AppError {
    /// The words for people.
    pub fn describe(&self) -> (r: String)
        ensures
            r@ == self@.words(),
    {
        match self {
            AppError::NotFound => owned("not found"),
            AppError::BadRequest(m) => concat2("bad request: ", m.as_str()),
            AppError::Unauthorized => owned("unauthorized"),
            AppError::Conflict(m) => concat2("conflict: ", m.as_str()),
            AppError::PayloadTooLarge(m) => concat2("payload too large: ", m.as_str()),
            AppError::Db(m) => concat2("db error: ", m.as_str()),
            AppError::Upstream(m) => concat2("upstream error: ", m.as_str()),
            AppError::Internal(m) => concat2("internal error: ", m.as_str()),
        }
    }

    /// The HTTP status that it is answered with.
    pub fn status(&self) -> (r: u16)
        ensures
            r as int == self@.status(),
    {
        match self {
            AppError::NotFound => 404,
            AppError::BadRequest(_) => 400,
            AppError::Unauthorized => 401,
            AppError::Conflict(_) => 409,
            AppError::PayloadTooLarge(_) => 413,
            AppError::Db(_) => 500,
            AppError::Upstream(_) => 502,
            AppError::Internal(_) => 500,
        }
    }

    /// The JSON that it is answered with.
    pub fn body(&self) -> (r: Json)
        ensures
            r@ == obj().put("error"@, obj().put("message"@, text(self@.message()))),
    {
        let message = match self {
            AppError::NotFound => owned("not found"),
            AppError::BadRequest(m) => owned(m.as_str()),
            AppError::Unauthorized => owned("unauthorized"),
            AppError::Conflict(m) => owned(m.as_str()),
            AppError::PayloadTooLarge(m) => owned(m.as_str()),
            AppError::Db(m) => concat2("db: ", m.as_str()),
            AppError::Upstream(m) => owned(m.as_str()),
            AppError::Internal(m) => owned(m.as_str()),
        };
        Json::object().with("error", Json::object().with("message", Json::Str(message)))
    }
}

/// An id that can stand in a path: not blank, and without a slash.
pub open spec fn path_id(id: Seq<char>) -> bool {
    trimmed(id).len() > 0 && !occurs(id, "/"@)
}

/// Checks that an id can stand in a path.
pub fn validate_path_id(id: &str) -> (r: Result<(), AppError>)
    ensures
        r is Ok <==> path_id(id@),
        r matches Err(e) ==> e@ == AppErrorView::BadRequest(
            if trimmed(id@).len() == 0 {
                "id must not be empty"@
            } else {
                "id must not contain '/'"@
            },
        ),
{
    if trim(id).as_str().is_empty() {
        return Err(AppError::BadRequest(owned("id must not be empty")));
    }
    if contains(id, "/") {
        return Err(AppError::BadRequest(owned("id must not contain '/'")));
    }
    Ok(())
}

/// What an upstream's answer means for the request. A time to wait is given in
/// seconds.
#[derive(Clone, Debug, PartialEq, Eq, Structural)]
pub enum ErrorClass {
    Success,
    Retryable { retry_after: Option<u64> },
    NonRetryable,
    AuthExpired,
}

/// Why credentials could not be renewed.
#[derive(Debug)]
pub enum RefreshError {
    InvalidGrant,
    Transient(String),
}

impl RefreshError {
    /// The words for people.
    pub fn describe(&self) -> (r: String)
        ensures
            r@ == match self {
                RefreshError::InvalidGrant => "invalid_grant"@,
                RefreshError::Transient(m) => "transient refresh error: "@ + m@,
            },
    {
        match self {
            RefreshError::InvalidGrant => owned("invalid_grant"),
            RefreshError::Transient(m) => concat2("transient refresh error: ", m.as_str()),
        }
    }
}

/// The JSON of an error in the shape that the client expects.
pub open spec fn wire_error_body(wire: WireFormat, message: Seq<char>) -> JsonView {
    match wire {
        WireFormat::OpenAi => obj().put(
            "error"@,
            obj().put("message"@, text(message)).put("type"@, text("invalid_request_error"@)).put(
                "code"@,
                JsonView::Null,
            ).put("param"@, JsonView::Null),
        ),
        WireFormat::Anthropic => obj().put("type"@, text("error"@)).put(
            "error"@,
            obj().put("type"@, text("invalid_request_error"@)).put("message"@, text(message)),
        ),
    }
}

/// The JSON of an error in the shape that the client expects.
pub fn wire_error(wire: WireFormat, message: &str) -> (r: Json)
    ensures
        r@ == wire_error_body(wire, message@),
{
    match wire {
        WireFormat::OpenAi => Json::object().with(
            "error",
            Json::object().with("message", Json::text(message)).with(
                "type",
                Json::text("invalid_request_error"),
            ).with("code", Json::Null).with("param", Json::Null),
        ),
        WireFormat::Anthropic => Json::object().with("type", Json::text("error")).with(
            "error",
            Json::object().with("type", Json::text("invalid_request_error")).with(
                "message",
                Json::text(message),
            ),
        ),
    }
}


/// The words of errors differ.
proof fn lemma_error_words()
    ensures
        "message"@ != "type"@,
        "message"@ != "code"@,
        "message"@ != "param"@,
        "type"@ != "code"@,
        "type"@ != "param"@,
        "code"@ != "param"@,
        "type"@ != "error"@,
{
    reveal_strlit("message");
    reveal_strlit("type");
    reveal_strlit("code");
    reveal_strlit("param");
    reveal_strlit("error");
    assert("message"@.len() == 7);
    assert("type"@.len() == 4);
    assert("code"@.len() == 4);
    assert("param"@.len() == 5);
    assert("error"@.len() == 5);
    assert("type"@[0] != "code"@[0]);
}

/// Every error is answered with the status that says whose fault it is.
pub proof fn law_errors_have_their_status(m: Seq<char>)
    ensures
        AppErrorView::BadRequest(m).status() == 400,
        AppErrorView::Unauthorized.status() == 401,
        AppErrorView::NotFound.status() == 404,
        AppErrorView::Conflict(m).status() == 409,
        AppErrorView::PayloadTooLarge(m).status() == 413,
        AppErrorView::Db(m).status() == 500,
        AppErrorView::Internal(m).status() == 500,
        AppErrorView::Upstream(m).status() == 502,
{
}

/// An error says what went wrong: in the answer its own words, and for people the
/// same words behind the kind of error.
pub proof fn law_errors_say_what_went_wrong(m: Seq<char>)
    ensures
        AppErrorView::BadRequest(m).message() == m,
        AppErrorView::Conflict(m).message() == m,
        AppErrorView::PayloadTooLarge(m).message() == m,
        AppErrorView::Upstream(m).message() == m,
        AppErrorView::Internal(m).message() == m,
        AppErrorView::Db(m).message() == "db: "@ + m,
        AppErrorView::BadRequest(m).words() == "bad request: "@ + m,
        AppErrorView::Conflict(m).words() == "conflict: "@ + m,
        AppErrorView::PayloadTooLarge(m).words() == "payload too large: "@ + m,
        AppErrorView::Upstream(m).words() == "upstream error: "@ + m,
        AppErrorView::Internal(m).words() == "internal error: "@ + m,
        AppErrorView::Db(m).words() == "db error: "@ + m,
{
}

/// A client finds the message of an error where its wire format has it, and the
/// kind of error with it.
pub proof fn law_clients_find_the_message(message: Seq<char>)
    ensures
        ({
            let openai = wire_error_body(WireFormat::OpenAi, message);
            let anthropic = wire_error_body(WireFormat::Anthropic, message);
            &&& openai.at("error"@).at("message"@) == JsonView::Str(message)
            &&& openai.at("error"@).at("type"@) == JsonView::Str("invalid_request_error"@)
            &&& openai.at("error"@).field("code"@) == Some(JsonView::Null)
            &&& openai.at("error"@).field("param"@) == Some(JsonView::Null)
            &&& anthropic.at("type"@) == JsonView::Str("error"@)
            &&& anthropic.at("error"@).at("message"@) == JsonView::Str(message)
            &&& anthropic.at("error"@).at("type"@) == JsonView::Str("invalid_request_error"@)
        }),
{
    lemma_error_words();
}

/// An id can stand in a path where it is not blank and holds no slash.
pub proof fn law_path_ids(id: Seq<char>)
    ensures
        path_id(id) <==> !crate::text_laws::blank(id) && forall|i: int|
            0 <= i < id.len() ==> #[trigger] id[i] != '/',
{
    reveal_strlit("/");
    crate::text_laws::law_trimmed(id);
    if occurs(id, "/"@) {
        let k = choose|k: int| crate::text::occurs_at(id, "/"@, k);
        assert(id.subrange(k, k + 1)[0] == '/');
        assert(id[k] == '/');
    }
    if exists|i: int| 0 <= i < id.len() && #[trigger] id[i] == '/' {
        let i = choose|i: int| 0 <= i < id.len() && #[trigger] id[i] == '/';
        assert(id.subrange(i, i + 1) =~= "/"@);
        assert(crate::text::occurs_at(id, "/"@, i));
    }
}

} // verus!
