//! Changing, showing and probing providers.
use vstd::prelude::*;

use crate::adapter::http::{anthropic_headers, ANTHROPIC_VERSION};
use crate::adapter::outgoing::{headers_view, push_header};
use crate::adapter::upstream_url::{derive_models_url, models_url, sibling_url};
use crate::admin::settings::{mask_secret, masked};
use crate::codex::sse_bridge::opt_text;
use crate::error::{AppError, AppErrorView};
use crate::json::{
    items_view, obj, parse_json_bytes, parsed_bytes, push_item, text, text_or_null, Json, JsonView,
};
use crate::model::{copy_text, text_view, Provider, ProviderKind, WireFormat};
use crate::runtime::{ProviderRuntimeState, ProviderStatus};
use crate::text::{concat2, concat3, decimal, decimal_of, head, owned, take, texts, trim, trimmed};

verus! {

// ---------------------------------------------------------------------------
// Changing a provider
// ---------------------------------------------------------------------------

/// A change to a provider. What is none stays as it is; a base URL or a key
/// may also be taken away.
#[derive(Debug)]
pub struct ProviderPatch {
    pub name: Option<String>,
    pub base_url: Option<Option<String>>,
    pub api_key: Option<Option<String>>,
    pub upstream_model: Option<String>,
    pub wire_format: Option<WireFormat>,
}

impl Default for ProviderPatch {
    fn default() -> (r: ProviderPatch)
        ensures
            r.name is None,
            r.base_url is None,
            r.api_key is None,
            r.upstream_model is None,
            r.wire_format is None,
    {
        ProviderPatch {
            name: None,
            base_url: None,
            api_key: None,
            upstream_model: None,
            wire_format: None,
        }
    }
}

/// What is given, or else what was there.
pub open spec fn given_or<T>(given: Option<T>, was: T) -> T {
    match given {
        Some(v) => v,
        None => was,
    }
}

/// The provider that a change makes, at a time.
pub open spec fn patched(p: Provider, patch: ProviderPatch, now: i64) -> Provider {
    Provider {
        name: given_or(patch.name, p.name),
        base_url: given_or(patch.base_url, p.base_url),
        api_key: given_or(patch.api_key, p.api_key),
        upstream_model: given_or(patch.upstream_model, p.upstream_model),
        wire_format: given_or(patch.wire_format, p.wire_format),
        updated_at: now,
        ..p
    }
}

/// The change gives a provider with a key another wire format, which the pools
/// it is in may not speak.
pub open spec fn changes_format(p: Provider, patch: ProviderPatch) -> bool {
    !p.kind.is_oauth() && (patch.wire_format matches Some(w) && w != p.wire_format)
}

/// The wire format that the pools of the provider must speak for the change.
pub fn format_to_check(p: &Provider, patch: &ProviderPatch) -> (r: Option<WireFormat>)
    ensures
        r == if changes_format(*p, *patch) {
            patch.wire_format
        } else {
            None
        },
{
    match patch.wire_format {
        Some(w) => match p.kind {
            ProviderKind::Passthrough => if w != p.wire_format {
                Some(w)
            } else {
                None
            },
            _ => None,
        },
        None => None,
    }
}

/// The name of a wire format among the types.
pub open spec fn format_name(w: WireFormat) -> Seq<char> {
    match w {
        WireFormat::OpenAi => "OpenAi"@,
        WireFormat::Anthropic => "Anthropic"@,
    }
}

/// What is said of a change that would strand a provider in its pools.
pub open spec fn stranded(id: Seq<char>, pools: nat, w: WireFormat) -> Seq<char> {
    "provider '"@ + id + "' is a member of "@ + decimal(pools)
        + " pool(s) that don't speak wire_format '"@ + format_name(w)
        + "' - remove it from those pools first"@
}

fn copy_change(o: &Option<Option<String>>, was: &Option<String>) -> (r: Option<String>)
    ensures
        r == given_or(*o, *was),
{
    match o {
        Some(v) => copy_text(v),
        None => copy_text(was),
    }
}

fn copy_given(o: &Option<String>, was: &String) -> (r: String)
    ensures
        r == given_or(*o, *was),
{
    match o {
        Some(v) => v.clone(),
        None => was.clone(),
    }
}

/// The provider that a change makes, given in how many of its pools it could
/// no longer be.
pub fn apply_patch(p: &Provider, patch: &ProviderPatch, mismatched_pools: u64, now: i64) -> (r:
    Result<Provider, AppError>)
    ensures
        if changes_format(*p, *patch) && mismatched_pools > 0 {
            r matches Err(e) && e@ == AppErrorView::BadRequest(
                stranded(p.id@, mismatched_pools as nat, patch.wire_format->0),
            )
        } else {
            r matches Ok(q) && q == patched(*p, *patch, now)
        },
{
    match format_to_check(p, patch) {
        Some(w) => {
            if mismatched_pools > 0 {
                let mut m = concat3("provider '", p.id.as_str(), "' is a member of ");
                m.append(decimal_of(mismatched_pools).as_str());
                m.append(" pool(s) that don't speak wire_format '");
                m.append(
                    match w {
                        WireFormat::OpenAi => "OpenAi",
                        WireFormat::Anthropic => "Anthropic",
                    },
                );
                m.append("' - remove it from those pools first");
                return Err(AppError::BadRequest(m));
            }
        },
        None => {},
    }
    Ok(
        Provider {
            id: p.id.clone(),
            name: copy_given(&patch.name, &p.name),
            wire_format: match patch.wire_format {
                Some(w) => w,
                None => p.wire_format,
            },
            kind: p.kind,
            base_url: copy_change(&patch.base_url, &p.base_url),
            api_key: copy_change(&patch.api_key, &p.api_key),
            upstream_model: copy_given(&patch.upstream_model, &p.upstream_model),
            dataset_logging: p.dataset_logging,
            created_at: p.created_at,
            updated_at: now,
        },
    )
}

/// An empty change changes nothing but the time, and no change touches the id,
/// the kind or the beginning of a provider.
pub proof fn law_patch_changes_only_what_it_gives(p: Provider, patch: ProviderPatch, now: i64)
    ensures
        patched(p, patch, now).id == p.id,
        patched(p, patch, now).kind == p.kind,
        patched(p, patch, now).created_at == p.created_at,
        patched(p, patch, now).updated_at == now,
        patch.name is None && patch.base_url is None && patch.api_key is None
            && patch.upstream_model is None && patch.wire_format is None ==> patched(p, patch, now)
            == (Provider { updated_at: now, ..p }),
{
}

/// A change that leaves the wire format alone is never refused, and no provider
/// that is logged in to is ever stranded.
pub proof fn law_patch_is_refused_only_for_format(p: Provider, patch: ProviderPatch)
    ensures
        patch.wire_format is None ==> !changes_format(p, patch),
        patch.wire_format == Some(p.wire_format) ==> !changes_format(p, patch),
        p.kind.is_oauth() ==> !changes_format(p, patch),
{
}

// ---------------------------------------------------------------------------
// Showing a provider
// ---------------------------------------------------------------------------

/// Whether a provider has what it needs to sign requests.
pub fn credential_configured(p: &Provider, has_login: bool) -> (r: bool)
    ensures
        r == if p.kind.is_oauth() {
            has_login
        } else {
            p.api_key is Some
        },
{
    match p.kind {
        ProviderKind::Passthrough => p.api_key.is_some(),
        _ => has_login,
    }
}

/// What the admin interface is told of a provider: its key only by its end.
pub open spec fn shown(p: Provider, configured: bool, created: Seq<char>, updated: Seq<char>) -> JsonView {
    obj().put("id"@, text(p.id@)).put("name"@, text(p.name@)).put(
        "wire_format"@,
        text(p.wire_format.word()),
    ).put("kind"@, text(p.kind.word())).put("base_url"@, text_or_null(text_view(p.base_url))).put(
        "api_key"@,
        text_or_null(
            match p.api_key {
                Some(k) => Some(masked(k@)),
                None => None,
            },
        ),
    ).put("upstream_model"@, text(p.upstream_model@)).put(
        "credential_configured"@,
        JsonView::Bool(configured),
    ).put("created_at"@, text(created)).put("updated_at"@, text(updated))
}

fn json_text(o: &Option<String>) -> (r: Json)
    ensures
        r@ == text_or_null(text_view(*o)),
{
    match o {
        Some(s) => Json::text(s.as_str()),
        None => Json::Null,
    }
}

/// What the admin interface is told of a provider.
pub fn mask(p: &Provider, credential_configured: bool, created_at: &str, updated_at: &str) -> (r:
    Json)
    ensures
        r@ == shown(*p, credential_configured, created_at@, updated_at@),
{
    let key = match &p.api_key {
        Some(k) => Json::Str(mask_secret(k.as_str())),
        None => Json::Null,
    };
    Json::object().with("id", Json::text(p.id.as_str())).with(
        "name",
        Json::text(p.name.as_str()),
    ).with("wire_format", Json::text(p.wire_format.as_str())).with(
        "kind",
        Json::text(p.kind.as_str()),
    ).with("base_url", json_text(&p.base_url)).with("api_key", key).with(
        "upstream_model",
        Json::text(p.upstream_model.as_str()),
    ).with("credential_configured", Json::Bool(credential_configured)).with(
        "created_at",
        Json::text(created_at),
    ).with("updated_at", Json::text(updated_at))
}

/// What a listing shows of a provider's key depends only on the key's end.
pub proof fn law_listing_hides_the_key(
    p: Provider,
    q: Provider,
    configured: bool,
    created: Seq<char>,
    updated: Seq<char>,
)
    requires
        p.api_key matches Some(k) && q.api_key matches Some(l) && crate::text::tail(k@, 4)
            == crate::text::tail(l@, 4),
        p == (Provider { api_key: p.api_key, ..q }),
    ensures
        shown(p, configured, created, updated) == shown(q, configured, created, updated),
{
}

/// The word for a status.
pub open spec fn status_word(s: ProviderStatus) -> Seq<char> {
    match s {
        ProviderStatus::Healthy => "healthy"@,
        ProviderStatus::Cooling => "cooling"@,
        ProviderStatus::Misconfigured => "misconfigured"@,
    }
}

/// The whole seconds until a provider may be asked again; none where it may.
pub open spec fn wait_secs(until: Option<u64>, now: u64) -> JsonView {
    match until {
        Some(t) => JsonView::Int(
            if t > now {
                (t - now) / 1000
            } else {
                0
            },
        ),
        None => JsonView::Null,
    }
}

/// What the admin interface is told of how a provider is doing.
pub open spec fn state_shown(id: Seq<char>, s: ProviderRuntimeState, now: u64) -> JsonView {
    obj().put("provider_id"@, text(id)).put(
        "backoff_level"@,
        JsonView::Int(s.backoff_level as int),
    ).put("status"@, text(status_word(s.status))).put(
        "unavailable_in_secs"@,
        wait_secs(s.unavailable_until, now),
    )
}

/// What the admin interface is told of how a provider is doing. One of which
/// nothing is known is healthy.
pub fn state_body(provider_id: &str, state: Option<ProviderRuntimeState>, now: u64) -> (r: Json)
    ensures
        r@ == state_shown(
            provider_id@,
            match state {
                Some(s) => s,
                None => crate::runtime::healthy(),
            },
            now,
        ),
{
    let s = match state {
        Some(s) => s,
        None => ProviderRuntimeState {
            backoff_level: 0,
            unavailable_until: None,
            status: ProviderStatus::Healthy,
        },
    };
    let word = match s.status {
        ProviderStatus::Healthy => "healthy",
        ProviderStatus::Cooling => "cooling",
        ProviderStatus::Misconfigured => "misconfigured",
    };
    let wait = match s.unavailable_until {
        Some(t) => Json::unsigned(
            if t > now {
                (t - now) / 1000
            } else {
                0
            },
        ),
        None => Json::Null,
    };
    Json::object().with("provider_id", Json::text(provider_id)).with(
        "backoff_level",
        Json::unsigned(s.backoff_level as u64),
    ).with("status", Json::text(word)).with("unavailable_in_secs", wait)
}

// ---------------------------------------------------------------------------
// Probing a provider
// ---------------------------------------------------------------------------

/// The model to probe: the one asked for, or else the provider's own.
pub fn model_to_probe(asked: Option<&str>, own: &str) -> (r: String)
    ensures
        r@ == match asked {
            Some(m) => if trimmed(m@).len() > 0 {
                m@
            } else {
                own@
            },
            None => own@,
        },
{
    match asked {
        Some(m) => if trim(m).as_str().is_empty() {
            owned(own)
        } else {
            owned(m)
        },
        None => owned(own),
    }
}

/// A small request that any model answers.
pub open spec fn probe_request(model: Seq<char>, words: Seq<char>) -> JsonView {
    let message = obj().put("role"@, text("user"@)).put("content"@, text(words));
    obj().put("model"@, text(model)).put("messages"@, JsonView::Array(seq![message])).put(
        "max_tokens"@,
        JsonView::Int(8),
    )
}

/// A small request that any model answers.
pub fn probe_body(model: &str, words: &str) -> (r: Json)
    ensures
        r@ == probe_request(model@, words@),
{
    let message = Json::object().with("role", Json::text("user")).with(
        "content",
        Json::text(words),
    );
    Json::object().with("model", Json::text(model)).with("messages", Json::array1(message)).with(
        "max_tokens",
        Json::signed(8),
    )
}

/// How a probe went.
pub enum Probe {
    /// The provider answered, with this status and text.
    Answered { status: u16, text: String },
    /// The provider could not be reached.
    Unreachable { error: String },
}

/// A status of success.
pub open spec fn is_success(status: u16) -> bool {
    200 <= status <= 299
}

/// What the admin interface is told of a probe.
pub fn probe_report(probe: &Probe) -> (r: Json)
    ensures
        match probe {
            Probe::Answered { status, text: said } => if is_success(*status) {
                r@ == obj().put("ok"@, JsonView::Bool(true)).put(
                    "status"@,
                    JsonView::Int(*status as int),
                )
            } else {
                r@ == obj().put("ok"@, JsonView::Bool(false)).put(
                    "status"@,
                    JsonView::Int(*status as int),
                ).put("message"@, text(head(said@, 300)))
            },
            Probe::Unreachable { error } => r@ == obj().put("ok"@, JsonView::Bool(false)).put(
                "message"@,
                text(error@),
            ),
        },
{
    match probe {
        Probe::Answered { status, text } => {
            if 200 <= *status && *status <= 299 {
                Json::object().with("ok", Json::Bool(true)).with(
                    "status",
                    Json::unsigned(*status as u64),
                )
            } else {
                Json::object().with("ok", Json::Bool(false)).with(
                    "status",
                    Json::unsigned(*status as u64),
                ).with("message", Json::Str(take(text.as_str(), 300)))
            }
        },
        Probe::Unreachable { error } => Json::object().with("ok", Json::Bool(false)).with(
            "message",
            Json::text(error.as_str()),
        ),
    }
}

// ---------------------------------------------------------------------------
// Models
// ---------------------------------------------------------------------------

/// The ids of the listed models that have one.
pub open spec fn listed_ids(items: Seq<JsonView>) -> Seq<Seq<char>>
    decreases items.len(),
{
    if items.len() == 0 {
        seq![]
    } else {
        let rest = listed_ids(items.drop_last());
        match items.last().at("id"@).str() {
            Some(id) => rest.push(id),
            None => rest,
        }
    }
}

/// A request for the list of a provider's models.
pub struct ModelsQuery {
    pub url: String,
    /// The token of the `authorization` header.
    pub bearer: Option<String>,
    pub headers: Vec<(String, String)>,
}

/// The request for a provider's models that goes to this URL.
pub fn models_query_at(provider: &Provider, url: String) -> (r: ModelsQuery)
    ensures
        r.url == url,
        opt_text(r.bearer) == (if provider.wire_format == WireFormat::OpenAi {
            text_view(provider.api_key)
        } else {
            None
        }),
        headers_view(r.headers@) == match provider.api_key {
            Some(k) if provider.wire_format == WireFormat::Anthropic => anthropic_headers(k@),
            _ => seq![],
        },
{
    let mut headers: Vec<(String, String)> = Vec::new();
    let mut bearer: Option<String> = None;
    assert(headers_view(headers@) =~= seq![]);
    match &provider.api_key {
        Some(key) => {
            match provider.wire_format {
                WireFormat::OpenAi => {
                    bearer = Some(owned(key.as_str()));
                },
                WireFormat::Anthropic => {
                    push_header(&mut headers, "x-api-key", key.as_str());
                    push_header(&mut headers, "anthropic-version", ANTHROPIC_VERSION);
                    assert(headers_view(headers@) =~= anthropic_headers(key@));
                },
            }
        },
        None => {},
    }
    ModelsQuery { url, bearer, headers }
}

/// The request for a provider's models. A provider without a URL has none.
pub fn models_query(provider: &Provider) -> (r: Result<ModelsQuery, String>)
    ensures
        match provider.base_url {
            None => r matches Err(e) && e@ == "provider has no base_url"@,
            Some(base) => r matches Ok(q) && q.url@ == models_url(
                base@,
                sibling_url(base@, "models"@),
            ) && opt_text(q.bearer) == (if provider.wire_format == WireFormat::OpenAi {
                text_view(provider.api_key)
            } else {
                None
            }) && headers_view(q.headers@) == match provider.api_key {
                Some(k) if provider.wire_format == WireFormat::Anthropic => anthropic_headers(k@),
                _ => seq![],
            },
        },
{
    match &provider.base_url {
        None => Err(owned("provider has no base_url")),
        Some(base) => {
            let url = derive_models_url(base.as_str());
            Ok(models_query_at(provider, url))
        },
    }
}

/// The error of a provider whose name is taken.
pub fn already_exists(name: &str) -> (r: AppError)
    ensures
        r@ == AppErrorView::Conflict("provider name '"@ + name@ + "' already exists"@),
{
    AppError::Conflict(concat3("provider name '", name, "' already exists"))
}

/// The models that the body of a provider's own list names; an error where it
/// names none or is no JSON.
pub fn models_from(body: &[u8]) -> (r: Result<Vec<String>, String>)
    ensures
        match parsed_bytes(body@) {
            Ok(j) => ({
                let ids = listed_ids(j.at("data"@).items());
                match r {
                    Ok(v) => ids.len() > 0 && texts(v@) == ids,
                    Err(e) => ids.len() == 0 && e@
                        == "response had no recognizable model list (expected {\"data\":[{\"id\":...}]})"@,
                }
            }),
            Err(why) => r matches Err(e) && e@ == "could not parse response as JSON: "@ + why,
        },
{
    match parse_json_bytes(body) {
        Ok(j) => parse_models_body(&j),
        Err(why) => Err(concat2("could not parse response as JSON: ", why.as_str())),
    }
}

/// The models that a provider's own list names; an error where it names none.
pub fn parse_models_body(body: &Json) -> (r: Result<Vec<String>, String>)
    ensures
        ({
            let ids = listed_ids(body@.at("data"@).items());
            match r {
                Ok(v) => ids.len() > 0 && texts(v@) == ids,
                Err(e) => ids.len() == 0 && e@
                    == "response had no recognizable model list (expected {\"data\":[{\"id\":...}]})"@,
            }
        }),
{
    let ghost all = body@.at("data"@).items();
    let mut out: Vec<String> = Vec::new();
    assert(texts(out@) =~= listed_ids(all.subrange(0, 0)));
    match body.at("data").as_array() {
        Some(items) => {
            let mut i: usize = 0;
            while i < items.len()
                invariant
                    i <= items.len(),
                    all == items_view(items@),
                    texts(out@) == listed_ids(all.subrange(0, i as int)),
                decreases items.len() - i,
            {
                assert(all.subrange(0, i + 1).drop_last() =~= all.subrange(0, i as int));
                assert(all.subrange(0, i + 1).last() == items@[i as int]@);
                let ghost before = out@;
                match items[i].at("id").as_str() {
                    Some(id) => {
                        out.push(owned(id));
                        assert(texts(out@) =~= texts(before).push(id@));
                    },
                    None => {},
                }
                i += 1;
            }
            assert(all.subrange(0, i as int) =~= all);
        },
        None => {
            assert(all =~= all.subrange(0, 0));
        },
    }
    assert(texts(out@).len() == out@.len());
    if out.len() == 0 {
        Err(
            owned(
                "response had no recognizable model list (expected {\"data\":[{\"id\":...}]})",
            ),
        )
    } else {
        Ok(out)
    }
}

/// What is said of a list of models that could not be fetched.
pub fn models_failure(status: u16, body: &str) -> (r: String)
    ensures
        r@ == "HTTP "@ + decimal(status as nat) + ": "@ + head(body@, 300),
{
    let mut out = concat3("HTTP ", decimal_of(status as u64).as_str(), ": ");
    out.append(take(body, 300).as_str());
    out
}

/// One entry of the list of models that clients see.
pub open spec fn model_entry(id: Seq<char>) -> JsonView {
    obj().put("id"@, text(id)).put("object"@, text("model"@)).put("owned_by"@, text("1router"@))
}

fn model_entry_of(id: &str) -> (r: Json)
    ensures
        r@ == model_entry(id@),
{
    Json::object().with("id", Json::text(id)).with("object", Json::text("model")).with(
        "owned_by",
        Json::text("1router"),
    )
}

/// The entries of pools.
pub open spec fn pool_entries(pools: Seq<Seq<char>>) -> Seq<JsonView> {
    pools.map_values(|id: Seq<char>| model_entry(id))
}

/// The entries of a provider's models, each named with the provider.
pub open spec fn direct_entries(provider: Seq<char>, models: Seq<Seq<char>>) -> Seq<JsonView> {
    models.map_values(|m: Seq<char>| model_entry(provider + "/"@ + m))
}

/// The models that were found at providers.
pub type Found = Seq<(Seq<char>, Seq<Seq<char>>)>;

/// What a list of found models stands for.
pub open spec fn found_view(v: Seq<(String, Vec<String>)>) -> Found {
    v.map_values(|p: (String, Vec<String>)| (p.0@, texts(p.1@)))
}

/// The entries of the models that were found at providers.
pub open spec fn found_entries(found: Found) -> Seq<JsonView>
    decreases found.len(),
{
    if found.len() == 0 {
        seq![]
    } else {
        found_entries(found.drop_last()) + direct_entries(found.last().0, found.last().1)
    }
}

/// The list of models that clients see: pools first, then what was found at
/// providers.
pub fn models_list(pool_ids: &Vec<String>, discovered: &Vec<(String, Vec<String>)>) -> (r: Json)
    ensures
        r@ == obj().put("object"@, text("list"@)).put(
            "data"@,
            JsonView::Array(pool_entries(texts(pool_ids@)) + found_entries(found_view(discovered@))),
        ),
{
    let mut data: Vec<Json> = Vec::new();
    let mut i: usize = 0;
    while i < pool_ids.len()
        invariant
            i <= pool_ids.len(),
            items_view(data@) =~= pool_entries(texts(pool_ids@).subrange(0, i as int)),
        decreases pool_ids.len() - i,
    {
        push_item(&mut data, model_entry_of(pool_ids[i].as_str()));
        i += 1;
    }
    assert(texts(pool_ids@).subrange(0, i as int) =~= texts(pool_ids@));
    let ghost start = items_view(data@);
    let ghost all = found_view(discovered@);
    let mut k: usize = 0;
    assert(items_view(data@) =~= start + found_entries(all.subrange(0, 0)));
    while k < discovered.len()
        invariant
            k <= discovered.len(),
            all == found_view(discovered@),
            items_view(data@) == start + found_entries(all.subrange(0, k as int)),
        decreases discovered.len() - k,
    {
        let provider = discovered[k].0.as_str();
        let models = &discovered[k].1;
        let ghost before = items_view(data@);
        let mut j: usize = 0;
        while j < models.len()
            invariant
                j <= models.len(),
                items_view(data@) =~= before + direct_entries(
                    provider@,
                    texts(models@).subrange(0, j as int),
                ),
            decreases models.len() - j,
        {
            let id = concat3(provider, "/", models[j].as_str());
            push_item(&mut data, model_entry_of(id.as_str()));
            j += 1;
        }
        assert(texts(models@).subrange(0, j as int) =~= texts(models@));
        assert(all.subrange(0, k + 1).drop_last() =~= all.subrange(0, k as int));
        assert(all.subrange(0, k + 1).last() == (provider@, texts(models@)));
        k += 1;
        assert(items_view(data@) =~= start + found_entries(all.subrange(0, k as int)));
    }
    assert(all.subrange(0, k as int) =~= all);
    Json::object().with("object", Json::text("list")).with("data", Json::array(data))
}

/// Whether models can be found at a provider of this kind.
pub fn discoverable(kind: ProviderKind) -> (r: bool)
    ensures
        r == (kind != ProviderKind::OauthCodex),
{
    match kind {
        ProviderKind::OauthCodex => false,
        _ => true,
    }
}

// ---------------------------------------------------------------------------
// Keys and logins
// ---------------------------------------------------------------------------

/// Checks that a provider can be logged in to in the way of a kind.
pub fn require_kind(kind: ProviderKind, wanted: ProviderKind) -> (r: Result<(), AppError>)
    ensures
        match r {
            Ok(_) => kind == wanted,
            Err(e) => kind != wanted && e@ == AppErrorView::BadRequest(
                "provider is not "@ + wanted.word(),
            ),
        },
{
    if kind == wanted {
        Ok(())
    } else {
        Err(AppError::BadRequest(concat2("provider is not ", wanted.as_str())))
    }
}

/// The Command Code key to store: the one given, or else the one found on this
/// machine.
pub fn key_to_store(given: &str, on_disk: Option<String>) -> (r: Result<String, AppError>)
    ensures
        match r {
            Ok(k) => if trimmed(given@).len() > 0 {
                k@ == trimmed(given@)
            } else {
                on_disk == Some(k)
            },
            Err(e) => trimmed(given@).len() == 0 && on_disk is None && e@
                == AppErrorView::BadRequest("api_key must not be empty"@),
        },
{
    let key = trim(given);
    if key.as_str().is_empty() {
        match on_disk {
            Some(k) => Ok(k),
            None => Err(AppError::BadRequest(owned("api_key must not be empty"))),
        }
    } else {
        Ok(key)
    }
}

/// How a login through the browser stands.
#[derive(Clone, Debug)]
pub enum LoginStatus {
    Pending,
    Success,
    Error(String),
}

/// What the admin interface is told of a login through the browser, and
/// whether it is over and can be forgotten.
pub fn login_status_body(status: Option<&LoginStatus>) -> (r: (Json, bool))
    ensures
        match status {
            None => r.0@ == obj().put("status"@, text("not_started"@)) && !r.1,
            Some(LoginStatus::Pending) => r.0@ == obj().put("status"@, text("pending"@)) && !r.1,
            Some(LoginStatus::Success) => r.0@ == obj().put("status"@, text("success"@)) && r.1,
            Some(LoginStatus::Error(m)) => r.0@ == obj().put("status"@, text("error"@)).put(
                "error"@,
                text(m@),
            ) && r.1,
        },
{
    match status {
        None => (Json::object().with("status", Json::text("not_started")), false),
        Some(s) => match s {
            LoginStatus::Pending => (Json::object().with("status", Json::text("pending")), false),
            LoginStatus::Success => (Json::object().with("status", Json::text("success")), true),
            LoginStatus::Error(m) => (
                Json::object().with("status", Json::text("error")).with(
                    "error",
                    Json::text(m.as_str()),
                ),
                true,
            ),
        },
    }
}

} // verus!
