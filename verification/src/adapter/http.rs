//! Providers that speak one of the two wire formats and take a key.
use vstd::prelude::*;

use crate::adapter::outgoing::{
    for_model, headers_view, push_header, with_model, Outgoing, OutgoingView,
};
use crate::adapter::upstream_url::{
    parse_upstream_url, private_host, url_read, url_refusal, validate_upstream_url, HostAddr, UrlParts,
};
use crate::codex::claude_message::{
    claude_json_to_openai_message, claude_reply, openai_json_to_claude_message, openai_reply,
};
use crate::codex::claude_request::{
    choice_names_function, claude_request, claude_to_openai_request, names_function,
    openai_request, openai_to_claude_request,
};
use crate::error::{AppError, AppErrorView, RefreshError};
use crate::json::{parse_json_bytes, parsed_bytes, Json, JsonView};
use crate::model::{Credentials, Provider, WireFormat};
use crate::text::{concat2, lowercase, lowered, owned, same};

verus! {

/// The version of its interface that Anthropic is asked for.
pub const ANTHROPIC_VERSION: &'static str = "2023-06-01";

/// A body in the wire format of the provider.
pub open spec fn bridged(body: JsonView, client: WireFormat, provider: WireFormat) -> JsonView {
    if client == provider {
        body
    } else {
        match client {
            WireFormat::Anthropic => openai_request(body),
            WireFormat::OpenAi => claude_request(body),
        }
    }
}

/// A body that can be put in the wire format of the provider.
pub open spec fn bridgeable(body: JsonView, client: WireFormat, provider: WireFormat) -> bool {
    client == WireFormat::OpenAi && provider == WireFormat::Anthropic ==> choice_names_function(
        body,
    )
}

/// The headers that carry a key to an Anthropic provider.
pub open spec fn anthropic_headers(key: Seq<char>) -> Seq<(Seq<char>, Seq<char>)> {
    seq![("x-api-key"@, key), ("anthropic-version"@, ANTHROPIC_VERSION@)]
}

/// The request that a client's body becomes, or why there is none.
pub open spec fn http_request(
    provider: Provider,
    client: WireFormat,
    body: JsonView,
    key: Option<Seq<char>>,
) -> Result<OutgoingView, AppErrorView> {
    match provider.base_url {
        None => Err(AppErrorView::Internal("passthrough provider missing base_url"@)),
        Some(url) => Ok(
            OutgoingView {
                url: url@,
                bearer: if provider.wire_format == WireFormat::OpenAi {
                    key
                } else {
                    None
                },
                headers: match key {
                    Some(k) if provider.wire_format == WireFormat::Anthropic => anthropic_headers(
                        k,
                    ),
                    _ => seq![],
                },
                body: for_model(
                    bridged(body, client, provider.wire_format),
                    provider.upstream_model@,
                ),
            },
        ),
    }
}

/// The result of building a request.
pub open spec fn built(r: Result<Outgoing, AppError>) -> Result<OutgoingView, AppErrorView> {
    match r {
        Ok(o) => Ok(o@),
        Err(e) => Err(e@),
    }
}

/// The request that a client's body becomes.
pub fn plan_request(
    provider: &Provider,
    client_wire: WireFormat,
    client_json: &Json,
    creds: &Credentials,
) -> (r: Result<Outgoing, AppError>)
    requires
        bridgeable(client_json@, client_wire, provider.wire_format),
    ensures
        built(r) == http_request(*provider, client_wire, client_json@, creds@.api_key),
{
    let json = if client_wire == provider.wire_format {
        client_json.copy()
    } else {
        match client_wire {
            WireFormat::Anthropic => claude_to_openai_request(client_json),
            WireFormat::OpenAi => openai_to_claude_request(client_json),
        }
    };
    let body = with_model(json, provider.upstream_model.as_str());
    let url = match &provider.base_url {
        Some(u) => owned(u.as_str()),
        None => {
            return Err(AppError::Internal(owned("passthrough provider missing base_url")));
        },
    };
    let mut headers: Vec<(String, String)> = Vec::new();
    let mut bearer: Option<String> = None;
    assert(headers_view(headers@) =~= seq![]);
    match &creds.api_key {
        Some(key) => {
            match provider.wire_format {
                WireFormat::OpenAi => {
                    bearer = Some(owned(key.as_str()));
                },
                WireFormat::Anthropic => {
                    push_header(&mut headers, "x-api-key", key.as_str());
                    push_header(&mut headers, "anthropic-version", ANTHROPIC_VERSION);
                    assert(headers_view(headers@) =~= anthropic_headers(key@));
                },
            }
        },
        None => {},
    }
    Ok(Outgoing { url, bearer, headers, body })
}

/// The error of a body that is no JSON.
pub open spec fn invalid_body(e: Seq<char>) -> AppErrorView {
    AppErrorView::BadRequest("invalid JSON body: "@ + e)
}

/// The request that a client's bytes become. There is none where the body asks
/// for a function without naming it, which no Anthropic request can say.
pub fn build_request(
    provider: &Provider,
    client_wire: WireFormat,
    client_body: &[u8],
    creds: &Credentials,
) -> (r: Option<Result<Outgoing, AppError>>)
    ensures
        match parsed_bytes(client_body@) {
            Err(e) => r matches Some(x) && built(x) == Err::<OutgoingView, AppErrorView>(
                invalid_body(e),
            ),
            Ok(j) => if bridgeable(j, client_wire, provider.wire_format) {
                r matches Some(x) && built(x) == http_request(
                    *provider,
                    client_wire,
                    j,
                    creds@.api_key,
                )
            } else {
                r is None
            },
        },
{
    match parse_json_bytes(client_body) {
        Err(e) => Some(
            Err(AppError::BadRequest(concat2("invalid JSON body: ", e.as_str()))),
        ),
        Ok(j) => {
            if client_wire == WireFormat::OpenAi && provider.wire_format == WireFormat::Anthropic
                && !names_function(&j) {
                return None;
            }
            Some(plan_request(provider, client_wire, &j, creds))
        },
    }
}

/// The request that a body in the provider's own wire format becomes, where its
/// upstream may be asked.
pub open spec fn checked_request(
    provider: Provider,
    body: JsonView,
    key: Option<Seq<char>>,
    addr: HostAddr,
    allow_insecure: bool,
) -> Result<OutgoingView, AppErrorView> {
    match http_request(provider, provider.wire_format, body, key) {
        Err(e) => Err(e),
        Ok(request) => match url_read(request.url) {
            None => Err(AppErrorView::Internal("invalid upstream URL"@)),
            Some((scheme, host, text)) => match url_refusal(
                (UrlParts { scheme, host, text }),
                addr,
                allow_insecure,
            ) {
                Some(e) => Err(e),
                None => Ok(OutgoingView { url: text, ..request }),
            },
        },
    }
}

/// The request that a client's bytes become for a provider of the client's own
/// wire format whose upstream must first be checked. The address is that of the
/// upstream's host without the brackets around it.
pub fn build_checked_request(
    provider: &Provider,
    client_body: &[u8],
    creds: &Credentials,
    addr: HostAddr,
    allow_insecure_upstreams: bool,
) -> (r: Result<Outgoing, AppError>)
    ensures
        built(r) == match parsed_bytes(client_body@) {
            Err(e) => Err::<OutgoingView, AppErrorView>(invalid_body(e)),
            Ok(j) => checked_request(
                *provider,
                j,
                creds@.api_key,
                addr,
                allow_insecure_upstreams,
            ),
        },
{
    let json = match parse_json_bytes(client_body) {
        Ok(j) => j,
        Err(e) => {
            return Err(AppError::BadRequest(concat2("invalid JSON body: ", e.as_str())));
        },
    };
    let request = match plan_request(provider, provider.wire_format, &json, creds) {
        Ok(request) => request,
        Err(e) => {
            return Err(e);
        },
    };
    let url = match parse_upstream_url(request.url.as_str()) {
        Ok(url) => url,
        Err(e) => {
            return Err(e);
        },
    };
    match validate_upstream_url(&url, addr, allow_insecure_upstreams) {
        Ok(_) => Ok(
            Outgoing {
                url: url.text,
                bearer: request.bearer,
                headers: request.headers,
                body: request.body,
            },
        ),
        Err(e) => Err(e),
    }
}

/// An upstream in a private network is never asked without leave, whatever the
/// request.
pub proof fn law_private_upstreams_are_blocked(
    provider: Provider,
    body: JsonView,
    key: Option<Seq<char>>,
    addr: HostAddr,
)
    ensures
        checked_request(provider, body, key, addr, false) is Ok ==> match provider.base_url {
            Some(url) => match url_read(url@) {
                Some((scheme, Some(host), _)) => scheme == "https"@ && !private_host(host, addr),
                _ => false,
            },
            None => false,
        },
{
}

/// Whether a header of the answer reaches the client: not those that say how
/// long it is or how it was cut up.
pub fn keeps_header(name: &str) -> (r: bool)
    ensures
        r == (lowered(name@) != "transfer-encoding"@ && lowered(name@) != "content-length"@),
{
    let lower = lowercase(name);
    !same(lower.as_str(), "transfer-encoding") && !same(lower.as_str(), "content-length")
}

/// What becomes of an answer on its way to the client.
#[derive(Clone, Copy, Debug, PartialEq, Eq, Structural)]
pub enum ResponseMode {
    /// It passes as it is.
    Raw,
    /// Its stream becomes an Anthropic one.
    StreamToClaude,
    /// Its stream becomes an OpenAI one.
    StreamToOpenAi,
    /// Its JSON becomes an Anthropic message.
    JsonToClaude,
    /// Its JSON becomes a Chat Completion.
    JsonToOpenAi,
}

/// What becomes of an answer on its way to the client.
pub fn response_mode(client_wire: WireFormat, provider_wire: WireFormat, wants_stream: bool) -> (r:
    ResponseMode)
    ensures
        r == if client_wire == provider_wire {
            ResponseMode::Raw
        } else {
            match (client_wire, wants_stream) {
                (WireFormat::Anthropic, true) => ResponseMode::StreamToClaude,
                (WireFormat::OpenAi, true) => ResponseMode::StreamToOpenAi,
                (WireFormat::Anthropic, false) => ResponseMode::JsonToClaude,
                (WireFormat::OpenAi, false) => ResponseMode::JsonToOpenAi,
            }
        },
{
    if client_wire == provider_wire {
        ResponseMode::Raw
    } else {
        match client_wire {
            WireFormat::Anthropic => if wants_stream {
                ResponseMode::StreamToClaude
            } else {
                ResponseMode::JsonToClaude
            },
            WireFormat::OpenAi => if wants_stream {
                ResponseMode::StreamToOpenAi
            } else {
                ResponseMode::JsonToOpenAi
            },
        }
    }
}

/// A whole answer of the other wire format in the client's.
pub open spec fn translated(client: WireFormat, answer: JsonView) -> JsonView {
    match client {
        WireFormat::Anthropic => claude_reply(answer),
        WireFormat::OpenAi => openai_reply(answer),
    }
}

/// A whole answer of the other wire format in the client's.
pub fn translate_answer(client_wire: WireFormat, answer: &Json) -> (r: Json)
    ensures
        r@ == translated(client_wire, answer@),
{
    match client_wire {
        WireFormat::Anthropic => openai_json_to_claude_message(answer),
        WireFormat::OpenAi => claude_json_to_openai_message(answer),
    }
}

/// The bytes of a whole answer of the other wire format, in the client's.
pub fn translate_answer_bytes(client_wire: WireFormat, bytes: &[u8]) -> (r: Result<Json, AppError>)
    ensures
        match parsed_bytes(bytes@) {
            Ok(j) => r matches Ok(t) && t@ == translated(client_wire, j),
            Err(e) => r matches Err(x) && x@ == AppErrorView::Internal(
                "invalid upstream JSON: "@ + e,
            ),
        },
{
    match parse_json_bytes(bytes) {
        Ok(j) => Ok(translate_answer(client_wire, &j)),
        Err(e) => Err(AppError::Internal(concat2("invalid upstream JSON: ", e.as_str()))),
    }
}

/// A key cannot be renewed.
pub fn refresh_credentials() -> (r: Result<Credentials, RefreshError>)
    ensures
        r matches Err(RefreshError::Transient(m)) && m@ == "passthrough has no refresh"@,
{
    Err(RefreshError::Transient(owned("passthrough has no refresh")))
}

} // verus!
