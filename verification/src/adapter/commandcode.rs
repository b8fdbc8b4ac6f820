//! Command Code, which is reached over one of two transports.
use vstd::prelude::*;

use crate::adapter::codex::{answered, as_chat, chat_request};
use crate::adapter::http::{built, invalid_body};
use crate::adapter::outgoing::{headers_view, push_header, Outgoing, OutgoingView};
use crate::clock::{day_text, fresh_uuid, today};
use crate::codex::claude_message::{claude_reply, openai_json_to_claude_message};
use crate::commandcode::slug::{project_slug, project_slug_from_path};
use crate::commandcode::stream::{
    aggregate_events, completion, fresh_stamp, is_completion_id,
};
use crate::commandcode::transform::{
    body_events, envelope, envelope_of, error_in_events, events, first_error,
};
use crate::error::{AppError, AppErrorView};
use crate::json::{items_view, parse_json_bytes, parsed_bytes, text, Json, JsonView};
use crate::model::{Credentials, CredentialsView, Provider, ProviderKind, WireFormat};
use crate::table::{Row, Table};
use crate::text::{chars_of, concat2, contains, occurs, owned, string_of};

verus! {

pub const GENERATE_URL: &'static str = "https://api.commandcode.ai/alpha/generate";

pub const PROVIDER_CHAT_URL: &'static str = "https://api.commandcode.ai/provider/v1/chat/completions";

pub const DEFAULT_MODELS_URL: &'static str = "https://api.commandcode.ai/provider/v1/models";

pub const COMMAND_CODE_VERSION: &'static str = "0.29.0";

// ---------------------------------------------------------------------------
// Transports
// ---------------------------------------------------------------------------

/// How a provider is reached: in the OpenAI shape, or in the older one that
/// some accounts need.
#[derive(Clone, Copy, Debug, PartialEq, Eq, Structural)]
pub enum Transport {
    Provider,
    Generate,
}

/// The transport that a row keeps.
pub open spec fn transport_of(row: Row) -> Transport {
    if row.0 == 0 {
        Transport::Provider
    } else {
        Transport::Generate
    }
}

/// The transports of the providers for which one was settled on.
pub struct TransportCache {
    table: Table,
}

impl View for TransportCache {
    type V = Map<Seq<char>, Transport>;

    closed spec fn view(&self) -> Map<Seq<char>, Transport> {
        self.table@.map_values(|row: Row| transport_of(row))
    }
}

impl TransportCache {
    pub fn new() -> (r: TransportCache)
        ensures
            r@ == Map::<Seq<char>, Transport>::empty(),
    {
        let r = TransportCache { table: Table::new() };
        assert(r@ =~= Map::<Seq<char>, Transport>::empty());
        r
    }
}

/// The transport of a provider, in the OpenAI shape unless settled otherwise.
pub open spec fn transport_in(m: Map<Seq<char>, Transport>, provider: Seq<char>) -> Transport {
    if m.contains_key(provider) {
        m[provider]
    } else {
        Transport::Provider
    }
}

/// The transport of a provider.
pub fn current_transport(cache: &TransportCache, provider_id: &str) -> (r: Transport)
    ensures
        r == transport_in(cache@, provider_id@),
{
    match cache.table.get(provider_id) {
        Some(row) => if row.0 == 0 {
            Transport::Provider
        } else {
            Transport::Generate
        },
        None => Transport::Provider,
    }
}

/// Settles on a transport for a provider.
pub fn remember_transport(cache: &mut TransportCache, provider_id: &str, transport: Transport)
    ensures
        final(cache)@ == old(cache)@.insert(provider_id@, transport),
{
    let ghost before = cache@;
    let code: u64 = match transport {
        Transport::Provider => 0,
        Transport::Generate => 1,
    };
    cache.table.set(provider_id, (code, 0, None));
    assert(cache@ =~= before.insert(provider_id@, transport));
}

/// Forgets the transport of a provider.
pub fn reset_transport(cache: &mut TransportCache, provider_id: &str)
    ensures
        final(cache)@ == old(cache)@.remove(provider_id@),
{
    let ghost before = cache@;
    cache.table.remove(provider_id);
    assert(cache@ =~= before.remove(provider_id@));
}

/// Whether an answer says that the account needs the older transport.
pub fn is_upgrade_required(status: u16, body: &str) -> (r: bool)
    ensures
        r == (status == 403 && occurs(body@, "upgrade_required"@)),
{
    status == 403 && contains(body, "upgrade_required")
}

/// Whether to ask again over the older transport: after a request over the
/// newer one, which the account may not use.
pub fn falls_back(kind: ProviderKind, transport: Transport, status: u16, body: &str) -> (r: bool)
    ensures
        r == (kind == ProviderKind::OauthCommandCode && transport == Transport::Provider && status
            == 403 && occurs(body@, "upgrade_required"@)),
{
    kind == ProviderKind::OauthCommandCode && transport == Transport::Provider
        && is_upgrade_required(status, body)
}

/// What is known of the account pins it to the older transport.
pub open spec fn pinned(creds: CredentialsView) -> bool {
    creds.provider_data.at("generate_only"@).bool() == Some(true)
}

/// The transport of a request.
pub fn choose_transport(cache: &TransportCache, provider_id: &str, creds: &Credentials) -> (r:
    Transport)
    ensures
        r == if pinned(creds@) {
            Transport::Generate
        } else {
            transport_in(cache@, provider_id@)
        },
{
    match creds.provider_data.at("generate_only").as_bool() {
        Some(b) => if b {
            Transport::Generate
        } else {
            current_transport(cache, provider_id)
        },
        None => current_transport(cache, provider_id),
    }
}

/// A transport that was settled on is used until it is forgotten, and then the
/// first choice is used again.
pub proof fn law_transport_is_remembered(
    m: Map<Seq<char>, Transport>,
    p: Seq<char>,
    q: Seq<char>,
    t: Transport,
)
    ensures
        transport_in(m.insert(p, t), p) == t,
        transport_in(m.remove(p), p) == Transport::Provider,
        p != q ==> transport_in(m.insert(p, t), q) == transport_in(m, q),
{
}

// ---------------------------------------------------------------------------
// Requests
// ---------------------------------------------------------------------------

/// A text without the slashes that end it.
pub open spec fn without_slashes(s: Seq<char>) -> Seq<char>
    decreases s.len(),
{
    if s.len() > 0 && s.last() == '/' {
        without_slashes(s.drop_last())
    } else {
        s
    }
}

fn trim_slashes(s: &str) -> (r: String)
    ensures
        r@ == without_slashes(s@),
{
    let v = chars_of(s);
    let mut end: usize = v.len();
    assert(v@.subrange(0, end as int) =~= v@);
    while end > 0 && v[end - 1] == '/'
        invariant
            end <= v.len(),
            without_slashes(v@) == without_slashes(v@.subrange(0, end as int)),
        decreases end,
    {
        assert(v@.subrange(0, end as int).drop_last() =~= v@.subrange(0, end - 1));
        end -= 1;
    }
    string_of(&v, 0, end)
}

/// Where requests of a transport go: below another base where one is set.
pub open spec fn transport_url(transport: Transport, base: Option<Seq<char>>) -> Seq<char> {
    match base {
        Some(b) => without_slashes(b) + (match transport {
            Transport::Provider => "/provider/v1/chat/completions"@,
            Transport::Generate => "/alpha/generate"@,
        }),
        None => match transport {
            Transport::Provider => PROVIDER_CHAT_URL@,
            Transport::Generate => GENERATE_URL@,
        },
    }
}

/// Where requests of a transport go.
pub fn url_for(transport: Transport, base: Option<&str>) -> (r: String)
    ensures
        r@ == transport_url(transport, crate::backoff::opt_str(base)),
{
    match base {
        Some(b) => {
            let path = match transport {
                Transport::Provider => "/provider/v1/chat/completions",
                Transport::Generate => "/alpha/generate",
            };
            concat2(trim_slashes(b).as_str(), path)
        },
        None => match transport {
            Transport::Provider => owned(PROVIDER_CHAT_URL),
            Transport::Generate => owned(GENERATE_URL),
        },
    }
}

/// The headers of a request from a directory.
pub open spec fn command_code_headers(dir: Seq<char>) -> Seq<(Seq<char>, Seq<char>)> {
    seq![
        ("x-command-code-version"@, COMMAND_CODE_VERSION@),
        ("x-cli-environment"@, "production"@),
        ("x-project-slug"@, project_slug(dir)),
        ("x-taste-learning"@, "true"@),
        ("x-co-flag"@, "false"@),
    ]
}

fn headers_for(dir: &str) -> (r: Vec<(String, String)>)
    ensures
        headers_view(r@) == command_code_headers(dir@),
{
    let mut headers: Vec<(String, String)> = Vec::new();
    push_header(&mut headers, "x-command-code-version", COMMAND_CODE_VERSION);
    push_header(&mut headers, "x-cli-environment", "production");
    push_header(&mut headers, "x-project-slug", project_slug_from_path(dir).as_str());
    push_header(&mut headers, "x-taste-learning", "true");
    push_header(&mut headers, "x-co-flag", "false");
    assert(headers_view(headers@) =~= command_code_headers(dir@));
    headers
}

/// Where a request comes from.
pub struct Origin {
    pub thread_id: String,
    pub working_dir: String,
    pub date: String,
    pub environment: String,
    /// The base below which requests go, in place of the usual one.
    pub base_url: Option<String>,
}

/// The body of a request over a transport.
pub open spec fn transport_body(
    transport: Transport,
    chat: JsonView,
    model: Seq<char>,
    o: Origin,
) -> JsonView {
    match transport {
        Transport::Provider => chat.put("model"@, text(model)),
        Transport::Generate => {
            let e = envelope(
                chat,
                o.thread_id@,
                o.working_dir@,
                o.date@,
                o.environment@,
            );
            e.put("params"@, e.at("params"@).put("model"@, text(model)))
        },
    }
}

/// The request that a client's body becomes over a transport, or why there is
/// none.
pub open spec fn outgoing(
    provider: Provider,
    client: WireFormat,
    body: JsonView,
    creds: CredentialsView,
    transport: Transport,
    o: Origin,
) -> Result<OutgoingView, AppErrorView> {
    match creds.access_token {
        None => Err(AppErrorView::Internal("commandcode provider missing access_token"@)),
        Some(token) => Ok(
            OutgoingView {
                url: transport_url(transport, crate::codex::sse_bridge::opt_text(o.base_url)),
                bearer: Some(token),
                headers: command_code_headers(o.working_dir@),
                body: transport_body(
                    transport,
                    as_chat(body, client),
                    provider.upstream_model@,
                    o,
                ),
            },
        ),
    }
}

/// A body in which a model can be set.
pub open spec fn takes_model(body: JsonView, client: WireFormat) -> bool {
    client == WireFormat::Anthropic || body is Object || body is Null
}

/// The request that a client's body becomes over a transport.
pub fn plan_request(
    provider: &Provider,
    client_wire: WireFormat,
    client_json: &Json,
    creds: &Credentials,
    transport: Transport,
    origin: &Origin,
) -> (r: Result<Outgoing, AppError>)
    requires
        takes_model(client_json@, client_wire),
    ensures
        built(r) == outgoing(
            *provider,
            client_wire,
            client_json@,
            creds@,
            transport,
            *origin,
        ),
{
    let chat = chat_request(client_json, client_wire);
    let bearer = match &creds.access_token {
        Some(t) => owned(t.as_str()),
        None => {
            return Err(AppError::Internal(owned("commandcode provider missing access_token")));
        },
    };
    let model = provider.upstream_model.as_str();
    let body = match transport {
        Transport::Provider => chat.with("model", Json::text(model)),
        Transport::Generate => {
            let e = envelope_of(
                &chat,
                origin.thread_id.as_str(),
                origin.working_dir.as_str(),
                origin.date.as_str(),
                origin.environment.as_str(),
            );
            let params = e.at("params").copy().with("model", Json::text(model));
            e.with("params", params)
        },
    };
    let base = match &origin.base_url {
        Some(b) => Some(b.as_str()),
        None => None,
    };
    Ok(
        Outgoing {
            url: url_for(transport, base),
            bearer: Some(bearer),
            headers: headers_for(origin.working_dir.as_str()),
            body,
        },
    )
}

/// The request that a client's bytes become. Where there is a token, there is
/// none where the body is neither an object nor null, so that no model can be
/// set in it. A thread id is drawn at random, and the day is today.
pub fn build_request(
    provider: &Provider,
    client_wire: WireFormat,
    client_body: &[u8],
    creds: &Credentials,
    cache: &TransportCache,
    working_dir: &str,
    environment: &str,
    base_url: Option<String>,
) -> (r: (Option<Result<Outgoing, AppError>>, Transport))
    ensures
        r.1 == if pinned(creds@) {
            Transport::Generate
        } else {
            transport_in(cache@, provider.id@)
        },
        match parsed_bytes(client_body@) {
            Err(e) => r.0 matches Some(x) && built(x) == Err::<OutgoingView, AppErrorView>(
                invalid_body(e),
            ),
            Ok(j) => if takes_model(j, client_wire) {
                exists|o: Origin| {
                    &&& o.thread_id@.len() == 36
                    &&& day_text(o.date@)
                    &&& o.working_dir@ == working_dir@
                    &&& o.environment@ == environment@
                    &&& o.base_url == base_url
                    &&& r.0 matches Some(x) && built(x) == #[trigger] outgoing(
                        *provider,
                        client_wire,
                        j,
                        creds@,
                        r.1,
                        o,
                    )
                }
            } else if creds@.access_token is None {
                r.0 matches Some(x) && built(x) == Err::<OutgoingView, AppErrorView>(
                    AppErrorView::Internal("commandcode provider missing access_token"@),
                )
            } else {
                r.0 is None
            },
        },
{
    let transport = choose_transport(cache, provider.id.as_str(), creds);
    match parse_json_bytes(client_body) {
        Err(e) => (
            Some(Err(AppError::BadRequest(concat2("invalid JSON body: ", e.as_str())))),
            transport,
        ),
        Ok(j) => {
            if client_wire == WireFormat::OpenAi && !j.is_object() && !j.is_null() {
                if creds.access_token.is_none() {
                    return (
                        Some(
                            Err(
                                AppError::Internal(
                                    owned("commandcode provider missing access_token"),
                                ),
                            ),
                        ),
                        transport,
                    );
                }
                return (None, transport);
            }
            let origin = Origin {
                thread_id: fresh_uuid(),
                working_dir: owned(working_dir),
                date: today(),
                environment: owned(environment),
                base_url,
            };
            let planned = plan_request(provider, client_wire, &j, creds, transport, &origin);
            proof {
                assert(built(planned) == outgoing(
                    *provider,
                    client_wire,
                    j@,
                    creds@,
                    transport,
                    origin,
                ));
            }
            (Some(planned), transport)
        },
    }
}

// ---------------------------------------------------------------------------
// Answers
// ---------------------------------------------------------------------------

/// A Chat Completion in the client's wire format.
pub open spec fn for_client(chat: JsonView, client: WireFormat) -> JsonView {
    match client {
        WireFormat::Anthropic => claude_reply(chat),
        WireFormat::OpenAi => chat,
    }
}

/// A Chat Completion in the client's wire format.
pub fn chat_for_client(chat: Json, client_wire: WireFormat) -> (r: Json)
    ensures
        r@ == for_client(chat@, client_wire),
{
    match client_wire {
        WireFormat::Anthropic => openai_json_to_claude_message(&chat),
        WireFormat::OpenAi => chat,
    }
}

/// The whole answer that events make under an id, in the client's wire format,
/// or the error that they report.
pub open spec fn whole_answer(
    events: Seq<JsonView>,
    model: Seq<char>,
    id: Seq<char>,
    client: WireFormat,
) -> Result<JsonView, AppErrorView> {
    match first_error(events) {
        Some(e) => Err(AppErrorView::Upstream("commandcode embedded error: "@ + e)),
        None => Ok(for_client(completion(events, model, id), client)),
    }
}

/// The whole answer that events make under an id, in the client's wire format.
pub fn answer_from_events(events: &Vec<Json>, model: &str, id: &str, client_wire: WireFormat) -> (r:
    Result<Json, AppError>)
    ensures
        answered(r) == whole_answer(items_view(events@), model@, id@, client_wire),
{
    match error_in_events(events) {
        Some(e) => Err(
            AppError::Upstream(concat2("commandcode embedded error: ", e.as_str())),
        ),
        None => Ok(chat_for_client(aggregate_events(events, model, id), client_wire)),
    }
}

/// The whole answer that a body of events makes under a new id, in the client's
/// wire format.
pub fn answer_from_body(body: &str, model: &str, client_wire: WireFormat) -> (r: Result<
    Json,
    AppError,
>)
    ensures
        exists|id: Seq<char>|
            is_completion_id(id) && answered(r) == #[trigger] whole_answer(
                body_events(body@),
                model@,
                id,
                client_wire,
            ),
{
    let stamp = fresh_stamp();
    answer_from_events(&events(body), model, stamp.id.as_str(), client_wire)
}

/// The whole answer of the OpenAI-shaped transport, in the client's wire format.
pub fn provider_answer(bytes: &[u8], client_wire: WireFormat) -> (r: Result<Json, AppError>)
    ensures
        answered(r) == match parsed_bytes(bytes@) {
            Ok(j) => Ok::<JsonView, AppErrorView>(for_client(j, client_wire)),
            Err(e) => Err::<JsonView, AppErrorView>(
                AppErrorView::Upstream("commandcode invalid JSON: "@ + e),
            ),
        },
{
    match parse_json_bytes(bytes) {
        Ok(j) => Ok(chat_for_client(j, client_wire)),
        Err(e) => Err(AppError::Upstream(concat2("commandcode invalid JSON: ", e.as_str()))),
    }
}

} // verus!
