//! The Codex backend, which speaks the Responses API and only ever streams.
use vstd::prelude::*;

use crate::adapter::http::{built, invalid_body};
use crate::adapter::outgoing::{
    for_model, headers_view, push_header, with_model, Outgoing, OutgoingView,
};
use crate::codex::claude_message::{claude_reply, openai_json_to_claude_message};
use crate::codex::claude_request::{claude_to_openai_request, openai_request};
use crate::codex::transform::{
    aggregate_events, codex_request, completion, error_in_events, first_error,
    has_object_reasoning, reasoning_is_object, transform_request,
};
use crate::error::{AppError, AppErrorView};
use crate::json::{parse_json_bytes, parsed_bytes, Json, JsonView};
use crate::model::{Credentials, CredentialsView, Provider, WireFormat};
use crate::sse::{events_of, sse_events, sse_events_of};
use crate::text::{concat2, concat3, owned};

verus! {

pub const RESPONSES_URL: &'static str = "https://chatgpt.com/backend-api/codex/responses";

/// The key under which the backend keeps what requests have in common: one for
/// each provider, model and wire format of the client.
pub open spec fn session_id(provider: Provider, client: WireFormat) -> Seq<char> {
    "1router-"@ + provider.id@ + "-"@ + provider.upstream_model@ + "-"@ + client.word()
}

pub fn session_id_for(provider: &Provider, client_wire: WireFormat) -> (r: String)
    ensures
        r@ == session_id(*provider, client_wire),
{
    let mut out = concat3("1router-", provider.id.as_str(), "-");
    out.append(provider.upstream_model.as_str());
    out.append("-");
    out.append(client_wire.as_str());
    out
}

/// A client's body as a Chat Completions request.
pub open spec fn as_chat(body: JsonView, client: WireFormat) -> JsonView {
    match client {
        WireFormat::Anthropic => openai_request(body),
        WireFormat::OpenAi => body,
    }
}

/// A client's body as a Chat Completions request.
pub fn chat_request(body: &Json, client_wire: WireFormat) -> (r: Json)
    ensures
        r@ == as_chat(body@, client_wire),
{
    match client_wire {
        WireFormat::Anthropic => claude_to_openai_request(body),
        WireFormat::OpenAi => body.copy(),
    }
}

/// The account that a request is made for.
pub open spec fn account(creds: CredentialsView) -> Seq<char> {
    creds.provider_data.at("chatgpt_account_id"@).str_or_empty()
}

/// The headers of a request.
pub open spec fn codex_headers(creds: CredentialsView, version: Seq<char>) -> Seq<
    (Seq<char>, Seq<char>),
> {
    let base = seq![("originator"@, "codex_cli_rs"@), ("User-Agent"@, "codex_cli_rs/"@ + version)];
    if account(creds).len() > 0 {
        base.push(("ChatGPT-Account-ID"@, account(creds)))
    } else {
        base
    }
}

/// The request that a client's body becomes, or why there is none.
pub open spec fn codex_outgoing(
    provider: Provider,
    client: WireFormat,
    body: JsonView,
    creds: CredentialsView,
    version: Seq<char>,
) -> Result<OutgoingView, AppErrorView> {
    match creds.access_token {
        None => Err(AppErrorView::Internal("codex provider missing access_token"@)),
        Some(token) => Ok(
            OutgoingView {
                url: RESPONSES_URL@,
                bearer: Some(token),
                headers: codex_headers(creds, version),
                body: for_model(
                    codex_request(as_chat(body, client), session_id(provider, client)),
                    provider.upstream_model@,
                ),
            },
        ),
    }
}

/// A Chat Completions request made of an Anthropic one asks for no reasoning.
pub proof fn lemma_bridged_reasoning(body: JsonView)
    ensures
        openai_request(body).at("reasoning"@) is Null,
        reasoning_is_object(openai_request(body)),
{
    reveal_strlit("reasoning");
    reveal_strlit("messages");
    reveal_strlit("model");
    reveal_strlit("stream");
    reveal_strlit("max_tokens");
    reveal_strlit("temperature");
    reveal_strlit("tools");
    reveal_strlit("tool_choice");
    assert("reasoning"@.len() == 9);
    assert("messages"@.len() == 8 && "model"@.len() == 5 && "stream"@.len() == 6);
    assert("max_tokens"@.len() == 10 && "temperature"@.len() == 11 && "tools"@.len() == 5);
    assert("tool_choice"@.len() == 11);
}

/// The request that a client's body becomes.
pub fn plan_request(
    provider: &Provider,
    client_wire: WireFormat,
    client_json: &Json,
    creds: &Credentials,
    version: &str,
) -> (r: Result<Outgoing, AppError>)
    requires
        client_wire == WireFormat::OpenAi ==> reasoning_is_object(client_json@),
    ensures
        built(r) == codex_outgoing(*provider, client_wire, client_json@, creds@, version@),
{
    let chat = chat_request(client_json, client_wire);
    proof {
        lemma_bridged_reasoning(client_json@);
        reveal_strlit("");
    }
    let session = session_id_for(provider, client_wire);
    let body = with_model(
        transform_request(&chat, session.as_str()),
        provider.upstream_model.as_str(),
    );
    let account_id = creds.provider_data.at("chatgpt_account_id").str_or_empty();
    let bearer = match &creds.access_token {
        Some(t) => owned(t.as_str()),
        None => {
            return Err(AppError::Internal(owned("codex provider missing access_token")));
        },
    };
    let mut headers: Vec<(String, String)> = Vec::new();
    push_header(&mut headers, "originator", "codex_cli_rs");
    push_header(&mut headers, "User-Agent", concat2("codex_cli_rs/", version).as_str());
    if !account_id.is_empty() {
        push_header(&mut headers, "ChatGPT-Account-ID", account_id);
    }
    assert(headers_view(headers@) =~= codex_headers(creds@, version@));
    Ok(Outgoing { url: owned(RESPONSES_URL), bearer: Some(bearer), headers, body })
}

/// The request that a client's bytes become. There is none where the body asks
/// for reasoning in a form that has no members.
pub fn build_request(
    provider: &Provider,
    client_wire: WireFormat,
    client_body: &[u8],
    creds: &Credentials,
    version: &str,
) -> (r: Option<Result<Outgoing, AppError>>)
    ensures
        match parsed_bytes(client_body@) {
            Err(e) => r matches Some(x) && built(x) == Err::<OutgoingView, AppErrorView>(
                invalid_body(e),
            ),
            Ok(j) => if client_wire == WireFormat::OpenAi && !reasoning_is_object(j) {
                r is None
            } else {
                r matches Some(x) && built(x) == codex_outgoing(
                    *provider,
                    client_wire,
                    j,
                    creds@,
                    version@,
                )
            },
        },
{
    match parse_json_bytes(client_body) {
        Err(e) => Some(
            Err(AppError::BadRequest(concat2("invalid JSON body: ", e.as_str()))),
        ),
        Ok(j) => {
            if client_wire == WireFormat::OpenAi && !has_object_reasoning(&j) {
                return None;
            }
            Some(plan_request(provider, client_wire, &j, creds, version))
        },
    }
}

/// The whole answer that events make, in the client's wire format, or the
/// error that they report.
pub open spec fn whole_answer(
    events: Seq<(Seq<char>, JsonView)>,
    model: Seq<char>,
    client: WireFormat,
) -> Result<JsonView, AppErrorView> {
    match first_error(events) {
        Some(t) => Err(AppErrorView::Upstream("codex embedded error: "@ + t)),
        None => Ok(
            match client {
                WireFormat::Anthropic => claude_reply(completion(events, model)),
                WireFormat::OpenAi => completion(events, model),
            },
        ),
    }
}

/// The result of reading an answer.
pub open spec fn answered(r: Result<Json, AppError>) -> Result<JsonView, AppErrorView> {
    match r {
        Ok(j) => Ok(j@),
        Err(e) => Err(e@),
    }
}

/// The whole answer that events make, in the client's wire format.
pub fn answer_from_events(events: &Vec<(String, Json)>, model: &str, client_wire: WireFormat) -> (r:
    Result<Json, AppError>)
    ensures
        answered(r) == whole_answer(events_of(events@), model@, client_wire),
{
    match error_in_events(events) {
        Some(t) => Err(AppError::Upstream(concat2("codex embedded error: ", t.as_str()))),
        None => {
            let json = aggregate_events(events, model);
            match client_wire {
                WireFormat::Anthropic => Ok(openai_json_to_claude_message(&json)),
                WireFormat::OpenAi => Ok(json),
            }
        },
    }
}

/// The whole answer that a body of events makes, in the client's wire format.
pub fn answer_from_body(body: &str, model: &str, client_wire: WireFormat) -> (r: Result<
    Json,
    AppError,
>)
    ensures
        answered(r) == whole_answer(sse_events(body@), model@, client_wire),
{
    answer_from_events(&sse_events_of(body), model, client_wire)
}

/// Clients that differ in wire format never share a session, nor do two models
/// of one provider.
pub proof fn law_sessions_are_apart(p: Provider, q: Provider, c: WireFormat, d: WireFormat)
    requires
        p.id@ == q.id@,
        session_id(p, c) == session_id(q, d),
    ensures
        c == d,
        p.upstream_model@ == q.upstream_model@,
{
    reveal_strlit("1router-");
    reveal_strlit("-");
    reveal_strlit("openai");
    reveal_strlit("anthropic");
    let a = session_id(p, c);
    let b = session_id(q, d);
    let n = 8 + p.id@.len() + 1;
    let m = p.upstream_model@.len();
    let k = q.upstream_model@.len();
    assert(a.len() == n + m + 1 + c.word().len());
    assert(b.len() == n + k + 1 + d.word().len());
    assert(a.last() == c.word().last());
    assert(b.last() == d.word().last());
    assert(a.subrange(n as int, (n + m) as int) =~= p.upstream_model@);
    assert(b.subrange(n as int, (n + k) as int) =~= q.upstream_model@);
}

} // verus!
