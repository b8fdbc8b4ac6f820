//! Setting up a gateway: templates, names, pools and models. The caller asks
//! the questions and sends the probes.
use vstd::prelude::*;

use crate::admin::settings::{mask_secret, masked};
use crate::codex::sse_bridge::opt_text;
use crate::commandcode::browser_login::{validate_state, AuthCallback, LoginError};
use crate::error::{path_id, validate_path_id, AppError, AppErrorView};
use crate::model::{Pool, PoolMember, PoolStrategy, Provider, ProviderKind, WireFormat};
use crate::text::{
    ascii_alphanumeric, chars_of, concat2, concat3, contains, cut, decimal, decimal_of, lower_char,
    lowercase, lowered, occurs, owned, same, split, split_on, split_once, texts, trim, trimmed,
};

verus! {

/// The Codex models to probe, in order.
pub const CANDIDATE_MODELS: [&'static str; 5] = ["gpt-5.4", "gpt-5-codex", "gpt-5.1-codex", "gpt-5", "codex-mini-latest"];

/// The models of `CANDIDATE_MODELS`, as a list to probe.
pub fn candidate_models() -> (r: Vec<String>)
    ensures
        texts(r@) == CANDIDATE_MODELS@.map_values(|m: &'static str| m@),
{
    let mut out: Vec<String> = Vec::new();
    let mut i: usize = 0;
    while i < 5
        invariant
            i <= 5,
            out@.len() == i,
            forall|k: int| 0 <= k < i ==> (#[trigger] out@[k])@ == CANDIDATE_MODELS@[k]@,
        decreases 5 - i,
    {
        out.push(owned(CANDIDATE_MODELS[i]));
        i = i + 1;
    }
    assert(texts(out@) =~= CANDIDATE_MODELS@.map_values(|m: &'static str| m@));
    out
}

/// The model of a provider whose real one is not known yet.
pub const PENDING_MODEL: &'static str = "pending";

// ---------------------------------------------------------------------------
// Priorities
// ---------------------------------------------------------------------------

/// The highest priority number among members, 0 where there are none.
pub open spec fn highest(existing: Seq<PoolMember>) -> int
    decreases existing.len(),
{
    if existing.len() == 0 {
        0
    } else if existing.len() == 1 {
        existing[0].priority as int
    } else {
        let rest = highest(existing.drop_last());
        if existing.last().priority >= rest {
            existing.last().priority as int
        } else {
            rest
        }
    }
}

/// The priority of a new member: behind every other.
pub fn next_priority(existing: &[PoolMember]) -> (r: i64)
    requires
        highest(existing@) < i64::MAX,
    ensures
        r as int == highest(existing@) + 1,
{
    let mut top: i64 = 0;
    let mut i: usize = 0;
    while i < existing.len()
        invariant
            i <= existing.len(),
            top as int == highest(existing@.subrange(0, i as int)),
        decreases existing.len() - i,
    {
        assert(existing@.subrange(0, i + 1).drop_last() =~= existing@.subrange(0, i as int));
        let p: i64 = existing[i].priority;
        if i == 0 || p >= top {
            top = p;
        }
        i += 1;
    }
    assert(existing@.subrange(0, i as int) =~= existing@);
    top + 1
}

/// A new member comes behind every member that is there.
pub proof fn law_new_member_comes_last(existing: Seq<PoolMember>, i: int)
    requires
        0 <= i < existing.len(),
    ensures
        existing[i].priority < highest(existing) + 1,
    decreases existing.len(),
{
    if existing.len() > 1 && i < existing.len() - 1 {
        law_new_member_comes_last(existing.drop_last(), i);
    }
}

/// A pool made for a provider speaks the provider's wire format. Its id must be
/// one that can stand in a path.
pub fn pool_for(pool_id: &str, provider: &Provider, now: i64) -> (r: Result<Pool, AppError>)
    ensures
        match r {
            Ok(p) => path_id(pool_id@) && p.id@ == pool_id@ && p.wire_format
                == provider.wire_format && p.created_at == now && p.strategy
                == PoolStrategy::Priority && p.sticky_limit is None,
            Err(e) => !path_id(pool_id@) && e@ == AppErrorView::BadRequest(
                if trimmed(pool_id@).len() == 0 {
                    "id must not be empty"@
                } else {
                    "id must not contain '/'"@
                },
            ),
        },
{
    match validate_path_id(pool_id) {
        Err(e) => Err(e),
        Ok(_) => Ok(
            Pool {
                id: owned(pool_id),
                wire_format: provider.wire_format,
                created_at: now,
                strategy: PoolStrategy::Priority,
                sticky_limit: None,
            },
        ),
    }
}

/// The member that puts a provider behind all others of a pool.
pub fn member_for(
    pool_id: &str,
    provider: &Provider,
    existing: &[PoolMember],
    model_override: Option<String>,
) -> (r: PoolMember)
    requires
        highest(existing@) < i64::MAX,
    ensures
        r.pool_id@ == pool_id@,
        r.provider_id@ == provider.id@,
        r.priority as int == highest(existing@) + 1,
        r.model_override == model_override,
        r.dataset_logging_override is None,
{
    PoolMember {
        pool_id: owned(pool_id),
        provider_id: owned(provider.id.as_str()),
        priority: next_priority(existing),
        model_override,
        dataset_logging_override: None,
    }
}

// ---------------------------------------------------------------------------
// A pasted redirect
// ---------------------------------------------------------------------------

/// The query of a pasted URL, or all of it where it has none.
pub open spec fn pasted_query(input: Seq<char>) -> Seq<char> {
    match split_once(trimmed(input), "?"@) {
        Some((_, q)) => q,
        None => trimmed(input),
    }
}

/// The value of the last of some parameters with this name.
pub open spec fn last_value(pairs: Seq<Seq<char>>, name: Seq<char>) -> Option<Seq<char>>
    decreases pairs.len(),
{
    if pairs.len() == 0 {
        None
    } else {
        match split_once(pairs.last(), "="@) {
            Some((k, v)) if trimmed(k) == name => Some(v),
            _ => last_value(pairs.drop_last(), name),
        }
    }
}

/// What is said of a paste that lacks a parameter.
pub const PASTE_ERROR: &'static str = "could not find both `code` and `state` in the pasted input; paste the full redirect URL, or just `code=...&state=...`";

/// The code and the state in a pasted redirect URL or query.
pub fn parse_code_and_state(input: &str) -> (r: Result<(String, String), String>)
    ensures
        ({
            let pairs = split_on(pasted_query(input@), "&"@);
            match (last_value(pairs, "code"@), last_value(pairs, "state"@)) {
                (Some(c), Some(s)) => r matches Ok(p) && p.0@ == c && p.1@ == s,
                _ => r matches Err(e) && e@ == PASTE_ERROR@,
            }
        }),
{
    let all = trim(input);
    let query = match cut(all.as_str(), "?") {
        Some((_, q)) => q,
        None => all,
    };
    assert(query@ == pasted_query(input@));
    proof {
        reveal_strlit("&");
        reveal_strlit("code");
        reveal_strlit("state");
        assert("code"@.len() != "state"@.len());
    }
    let pairs = split(query.as_str(), "&");
    let ghost given = split_on(query@, "&"@);
    let mut code: Option<String> = None;
    let mut state: Option<String> = None;
    let mut i: usize = 0;
    while i < pairs.len()
        invariant
            i <= pairs.len(),
            given == texts(pairs@),
            "code"@ != "state"@,
            opt_text(code) == last_value(given.subrange(0, i as int), "code"@),
            opt_text(state) == last_value(given.subrange(0, i as int), "state"@),
        decreases pairs.len() - i,
    {
        assert(given.subrange(0, i + 1).drop_last() =~= given.subrange(0, i as int));
        assert(given.subrange(0, i + 1).last() == pairs@[i as int]@);
        match cut(pairs[i].as_str(), "=") {
            Some((k, v)) => {
                let key = trim(k.as_str());
                if same(key.as_str(), "code") {
                    code = Some(v);
                } else if same(key.as_str(), "state") {
                    state = Some(v);
                }
            },
            None => {},
        }
        i += 1;
    }
    assert(given.subrange(0, i as int) =~= given);
    match (code, state) {
        (Some(c), Some(s)) => Ok((c, s)),
        _ => Err(owned(PASTE_ERROR)),
    }
}

// ---------------------------------------------------------------------------
// Probing
// ---------------------------------------------------------------------------

/// How a probe of several models came out.
#[derive(Debug)]
pub enum ProbeOutcome {
    Found(String),
    AllFailed(Vec<(String, u16, String)>),
}

/// How the probe of one model went: the status and text of its answer, or that
/// there was none.
pub type Attempt = Result<(u16, String), String>;

/// A probe of several models, one after the other, until one works.
pub struct ProbeRun {
    pub models: Vec<String>,
    pub next: usize,
    pub failures: Vec<(String, u16, String)>,
}

/// What failures stand for.
pub open spec fn failures_view(v: Seq<(String, u16, String)>) -> Seq<(Seq<char>, u16, Seq<char>)> {
    v.map_values(|f: (String, u16, String)| (f.0@, f.1, f.2@))
}

/// The failure that an attempt was.
pub open spec fn failure(model: Seq<char>, a: Attempt) -> (Seq<char>, u16, Seq<char>) {
    match a {
        Ok((status, body)) => (model, status, body@),
        Err(e) => (model, 0, e@),
    }
}

/// What to do next in a probe.
pub enum ProbeStep {
    /// Try this model.
    Try(String),
    /// The probe is over.
    Over(ProbeOutcome),
}

impl ProbeRun {
    /// A probe of these models, none of which was tried yet.
    pub fn new(models: Vec<String>) -> (r: ProbeRun)
        ensures
            r.models == models,
            r.next == 0,
            failures_view(r.failures@) == Seq::<(Seq<char>, u16, Seq<char>)>::empty(),
    {
        let r = ProbeRun { models, next: 0, failures: Vec::new() };
        assert(failures_view(r.failures@) =~= Seq::<(Seq<char>, u16, Seq<char>)>::empty());
        r
    }

    /// The model to try, or the end where none is left.
    pub fn begin(self) -> (r: (ProbeRun, ProbeStep))
        requires
            self.next <= self.models.len(),
        ensures
            if self.next < self.models.len() {
                r.1 matches ProbeStep::Try(m) && m@ == self.models@[self.next as int]@ && r.0
                    == self
            } else {
                r.1 matches ProbeStep::Over(ProbeOutcome::AllFailed(f)) && f == self.failures
            },
    {
        if self.next < self.models.len() {
            let model = owned(self.models[self.next].as_str());
            (self, ProbeStep::Try(model))
        } else {
            let rest = ProbeRun { models: Vec::new(), next: 0, failures: Vec::new() };
            (rest, ProbeStep::Over(ProbeOutcome::AllFailed(self.failures)))
        }
    }

    /// Takes in how the current model's attempt went. One that answered with
    /// status 200 works; any other counts as a failure and the next is tried.
    pub fn tried(self, attempt: Attempt) -> (r: (ProbeRun, ProbeStep))
        requires
            self.next < self.models.len(),
        ensures
            ({
                let model = self.models@[self.next as int]@;
                let all = failures_view(self.failures@).push(failure(model, attempt));
                match attempt {
                    Ok((200, _)) => r.1 matches ProbeStep::Over(ProbeOutcome::Found(m)) && m@
                        == model,
                    _ => if self.next + 1 < self.models.len() {
                        r.1 matches ProbeStep::Try(m) && m@ == self.models@[self.next + 1]@
                            && r.0.models == self.models && r.0.next == self.next + 1
                            && failures_view(r.0.failures@) == all
                    } else {
                        r.1 matches ProbeStep::Over(ProbeOutcome::AllFailed(f))
                            && failures_view(f@) == all
                    },
                }
            }),
    {
        let mut run = self;
        let model = owned(run.models[run.next].as_str());
        let ghost before = run.failures@;
        match attempt {
            Ok((status, body)) => {
                if status == 200 {
                    return (run, ProbeStep::Over(ProbeOutcome::Found(model)));
                }
                run.failures.push((model, status, body));
                assert(failures_view(run.failures@) =~= failures_view(before).push(
                    (model@, status, body@),
                ));
            },
            Err(e) => {
                run.failures.push((model, 0, e));
                assert(failures_view(run.failures@) =~= failures_view(before).push(
                    (model@, 0, e@),
                ));
            },
        }
        run.next = run.next + 1;
        run.begin()
    }
}

/// The model that a probe leaves a provider with: the one that works, or else
/// the one it had.
pub fn model_after_probe(outcome: &ProbeOutcome, was: &str) -> (r: String)
    ensures
        r@ == match outcome {
            ProbeOutcome::Found(m) => m@,
            ProbeOutcome::AllFailed(_) => was@,
        },
{
    match outcome {
        ProbeOutcome::Found(m) => owned(m.as_str()),
        ProbeOutcome::AllFailed(_) => owned(was),
    }
}

// ---------------------------------------------------------------------------
// Templates
// ---------------------------------------------------------------------------

/// What is known in advance of a common provider.
#[derive(Clone, Copy, Debug)]
pub struct ProviderTemplate<'a> {
    pub label: &'static str,
    pub wire_format: WireFormat,
    pub base_url: &'static str,
    /// The model that is suggested.
    pub upstream_model: &'a str,
    /// A key that is no secret, where one is enough.
    pub api_key: Option<&'static str>,
}

/// The common providers. Which of Anthropic's models is suggested, the caller
/// says.
pub fn provider_templates<'a>(anthropic_model: &'a str) -> (r: Vec<ProviderTemplate<'a>>)
    ensures
        r@.len() == 8,
        forall|i: int| 0 <= i < 8 ==> ((#[trigger] r@[i]).api_key is Some <==> i == 6),
        r@[6].label@ == "OpenCode Free"@,
        r@[6].upstream_model@ == "deepseek-v4-flash-free"@,
        r@[6].api_key matches Some(k) && k@ == "public"@,
        r@[0].label@ == "OpenAI"@ && r@[0].wire_format == WireFormat::OpenAi && r@[0].base_url@
            == "https://api.openai.com/v1/chat/completions"@ && r@[0].upstream_model@
            == "gpt-5.4"@,
        r@[1].label@ == "Anthropic"@ && r@[1].wire_format == WireFormat::Anthropic
            && r@[1].base_url@ == "https://api.anthropic.com/v1/messages"@
            && r@[1].upstream_model@ == anthropic_model@,
        r@[2].label@ == "DeepSeek (OpenAI-compatible)"@ && r@[2].wire_format == WireFormat::OpenAi
            && r@[2].base_url@ == "https://api.deepseek.com/v1/chat/completions"@
            && r@[2].upstream_model@ == "deepseek-flash"@,
        r@[3].label@ == "DeepSeek (Anthropic-compatible)"@ && r@[3].wire_format
            == WireFormat::Anthropic && r@[3].base_url@
            == "https://api.deepseek.com/anthropic/v1/messages"@ && r@[3].upstream_model@
            == "deepseek-flash"@,
        r@[4].label@ == "OpenCode (OpenAI-compatible)"@ && r@[4].wire_format == WireFormat::OpenAi
            && r@[4].base_url@ == "https://opencode.ai/zen/go/v1/chat/completions"@
            && r@[4].upstream_model@ == "kimi-k2.7-code"@,
        r@[5].label@ == "OpenCode (Anthropic-compatible)"@ && r@[5].wire_format
            == WireFormat::Anthropic && r@[5].base_url@
            == "https://opencode.ai/zen/go/v1/messages"@ && r@[5].upstream_model@
            == "qwen3.7-max"@,
        r@[6].wire_format == WireFormat::OpenAi && r@[6].base_url@
            == "https://opencode.ai/zen/v1/chat/completions"@,
        r@[7].label@ == "Gemini (OpenAI-compatible)"@ && r@[7].wire_format == WireFormat::OpenAi
            && r@[7].base_url@
            == "https://generativelanguage.googleapis.com/v1beta/openai/chat/completions"@
            && r@[7].upstream_model@ == "gemini-2.5-flash"@,
{
    let mut out: Vec<ProviderTemplate<'a>> = Vec::new();
    out.push(
        ProviderTemplate {
            label: "OpenAI",
            wire_format: WireFormat::OpenAi,
            base_url: "https://api.openai.com/v1/chat/completions",
            upstream_model: "gpt-5.4",
            api_key: None,
        },
    );
    out.push(
        ProviderTemplate {
            label: "Anthropic",
            wire_format: WireFormat::Anthropic,
            base_url: "https://api.anthropic.com/v1/messages",
            upstream_model: anthropic_model,
            api_key: None,
        },
    );
    out.push(
        ProviderTemplate {
            label: "DeepSeek (OpenAI-compatible)",
            wire_format: WireFormat::OpenAi,
            base_url: "https://api.deepseek.com/v1/chat/completions",
            upstream_model: "deepseek-flash",
            api_key: None,
        },
    );
    out.push(
        ProviderTemplate {
            label: "DeepSeek (Anthropic-compatible)",
            wire_format: WireFormat::Anthropic,
            base_url: "https://api.deepseek.com/anthropic/v1/messages",
            upstream_model: "deepseek-flash",
            api_key: None,
        },
    );
    out.push(
        ProviderTemplate {
            label: "OpenCode (OpenAI-compatible)",
            wire_format: WireFormat::OpenAi,
            base_url: "https://opencode.ai/zen/go/v1/chat/completions",
            upstream_model: "kimi-k2.7-code",
            api_key: None,
        },
    );
    out.push(
        ProviderTemplate {
            label: "OpenCode (Anthropic-compatible)",
            wire_format: WireFormat::Anthropic,
            base_url: "https://opencode.ai/zen/go/v1/messages",
            upstream_model: "qwen3.7-max",
            api_key: None,
        },
    );
    out.push(
        ProviderTemplate {
            label: "OpenCode Free",
            wire_format: WireFormat::OpenAi,
            base_url: "https://opencode.ai/zen/v1/chat/completions",
            upstream_model: "deepseek-v4-flash-free",
            api_key: Some("public"),
        },
    );
    out.push(
        ProviderTemplate {
            label: "Gemini (OpenAI-compatible)",
            wire_format: WireFormat::OpenAi,
            base_url: "https://generativelanguage.googleapis.com/v1beta/openai/chat/completions",
            upstream_model: "gemini-2.5-flash",
            api_key: None,
        },
    );
    out
}

/// A label as an id: its runs of letters and digits in lower case, with one
/// hyphen between any two.
pub open spec fn slug(label: Seq<char>) -> Seq<char> {
    lowered(crate::commandcode::slug::hyphenated(label))
}

/// A label as an id.
pub fn slugify(label: &str) -> (r: String)
    ensures
        r@ == slug(label@),
{
    let v = chars_of(label);
    let mut out = String::new();
    let mut any = false;
    let mut gap = false;
    let mut i: usize = 0;
    assert(lowered(seq![]) =~= Seq::<char>::empty());
    while i < v.len()
        invariant
            i <= v.len(),
            v@ == label@,
            out@ == slug(label@.subrange(0, i as int)),
            any == (out@.len() > 0),
            gap == (i > 0 && !ascii_alphanumeric(label@[i - 1])),
        decreases v.len() - i,
    {
        let ghost before = crate::commandcode::slug::hyphenated(label@.subrange(0, i as int));
        assert(label@.subrange(0, i + 1).drop_last() =~= label@.subrange(0, i as int));
        let c = v[i];
        if ('0' <= c && c <= '9') || ('a' <= c && c <= 'z') || ('A' <= c && c <= 'Z') {
            let ghost start = out@;
            if gap && any {
                out.push('-');
                assert(out@ =~= lowered(before.push('-')));
            }
            let ghost mid = if gap && any {
                before.push('-')
            } else {
                before
            };
            out.push(lower_char(c));
            assert(out@ =~= lowered(mid.push(c)));
            any = true;
            gap = false;
        } else {
            gap = true;
        }
        i += 1;
    }
    assert(label@.subrange(0, i as int) =~= label@);
    out
}

/// The `n`-th name to try for a provider: the base itself, then the base with a
/// number from two on.
pub open spec fn name_candidate(base: Seq<char>, n: nat) -> Seq<char> {
    if n == 0 {
        base
    } else {
        base + "-"@ + decimal((n + 1) as nat)
    }
}

/// The `n`-th name to try for a provider.
pub fn default_name(base: &str, n: u32) -> (r: String)
    ensures
        r@ == name_candidate(base@, n as nat),
{
    if n == 0 {
        owned(base)
    } else {
        concat3(base, "-", decimal_of(n as u64 + 1).as_str())
    }
}

/// The first default name that is not taken. There is none only where as many
/// names are taken as can be numbered.
pub fn unique_default_name(base: &str, taken: &Vec<String>) -> (r: Option<String>)
    ensures
        match r {
            Some(name) => exists|n: nat| {
                &&& name@ == #[trigger] name_candidate(base@, n)
                &&& !texts(taken@).contains(name@)
                &&& forall|m: nat| m < n ==> texts(taken@).contains(#[trigger] name_candidate(base@, m))
            },
            None => forall|m: nat|
                m < u32::MAX ==> texts(taken@).contains(#[trigger] name_candidate(base@, m)),
        },
{
    let mut n: u32 = 0;
    while n < u32::MAX
        invariant
            forall|m: nat| m < n ==> texts(taken@).contains(#[trigger] name_candidate(base@, m)),
        decreases u32::MAX - n,
    {
        let name = default_name(base, n);
        if !name_taken(taken, name.as_str()) {
            assert(name@ == name_candidate(base@, n as nat));
            return Some(name);
        }
        n += 1;
    }
    None
}

fn name_taken(taken: &Vec<String>, name: &str) -> (r: bool)
    ensures
        r == texts(taken@).contains(name@),
{
    let mut i: usize = 0;
    while i < taken.len()
        invariant
            i <= taken.len(),
            forall|k: int| 0 <= k < i ==> texts(taken@)[k] != name@,
        decreases taken.len() - i,
    {
        if same(taken[i].as_str(), name) {
            assert(texts(taken@)[i as int] == name@);
            return true;
        }
        i += 1;
    }
    false
}

/// A provider with a key, whose name is its id.
pub fn build_passthrough_row(
    name: &str,
    wire_format: WireFormat,
    base_url: &str,
    api_key: &str,
    upstream_model: &str,
    now: i64,
) -> (r: Provider)
    ensures
        r.id@ == name@,
        r.name@ == name@,
        r.wire_format == wire_format,
        r.kind == ProviderKind::Passthrough,
        r.base_url matches Some(u) && u@ == base_url@,
        r.api_key matches Some(k) && k@ == api_key@,
        r.upstream_model@ == upstream_model@,
        !r.dataset_logging,
        r.created_at == now,
        r.updated_at == now,
{
    Provider {
        id: owned(name),
        name: owned(name),
        wire_format,
        kind: ProviderKind::Passthrough,
        base_url: Some(owned(base_url)),
        api_key: Some(owned(api_key)),
        upstream_model: owned(upstream_model),
        dataset_logging: false,
        created_at: now,
        updated_at: now,
    }
}

/// A provider that is logged in to, whose model is not known yet.
pub fn build_oauth_row(name: &str, kind: ProviderKind, now: i64) -> (r: Provider)
    ensures
        r.id@ == name@,
        r.name@ == name@,
        r.wire_format == WireFormat::Anthropic,
        r.kind == kind,
        r.base_url is None,
        r.api_key is None,
        r.upstream_model@ == PENDING_MODEL@,
        !r.dataset_logging,
        r.created_at == now,
        r.updated_at == now,
{
    Provider {
        id: owned(name),
        name: owned(name),
        wire_format: WireFormat::Anthropic,
        kind,
        base_url: None,
        api_key: None,
        upstream_model: owned(PENDING_MODEL),
        dataset_logging: false,
        created_at: now,
        updated_at: now,
    }
}

/// The key that was typed, or else the template's where nothing was.
pub fn key_or_default(typed: &str, template: Option<&str>) -> (r: String)
    ensures
        r@ == if trimmed(typed@).len() > 0 {
            trimmed(typed@)
        } else {
            match template {
                Some(k) => trimmed(k@),
                None => trimmed(""@),
            }
        },
{
    let given = trim(typed);
    if given.as_str().is_empty() {
        match template {
            Some(k) => trim(k),
            None => trim(""),
        }
    } else {
        given
    }
}

// ---------------------------------------------------------------------------
// Which models to try first
// ---------------------------------------------------------------------------

/// The models of the templates that need no secret.
pub open spec fn known_free(model: Seq<char>) -> bool {
    model == "deepseek-v4-flash-free"@
}

/// The models of the templates that need no secret, as a list.
pub fn known_free_model_ids() -> (r: Vec<String>)
    ensures
        texts(r@) == seq!["deepseek-v4-flash-free"@],
{
    let all = provider_templates("");
    let mut out: Vec<String> = Vec::new();
    let mut i: usize = 0;
    while i < all.len()
        invariant
            i <= all.len(),
            all.len() == 8,
            forall|k: int| 0 <= k < 8 ==> ((#[trigger] all@[k]).api_key is Some <==> k == 6),
            all@[6].upstream_model@ == "deepseek-v4-flash-free"@,
            i <= 6 ==> texts(out@) =~= seq![],
            i > 6 ==> texts(out@) =~= seq!["deepseek-v4-flash-free"@],
        decreases all.len() - i,
    {
        if all[i].api_key.is_some() {
            let ghost before = out@;
            out.push(owned(all[i].upstream_model));
            assert(texts(out@) =~= texts(before).push(all@[i as int].upstream_model@));
        }
        i += 1;
    }
    out
}

/// A model whose name says that it is free.
pub open spec fn named_free(model: Seq<char>) -> bool {
    occurs(lowered(model), "free"@)
}

/// How likely a model is to work without a secret: known to be free, named so,
/// or neither.
pub open spec fn freedom(model: Seq<char>) -> int {
    if known_free(model) {
        0
    } else if named_free(model) {
        1
    } else {
        2
    }
}

/// The models of one group, in order.
pub open spec fn of_freedom(models: Seq<Seq<char>>, group: int) -> Seq<Seq<char>>
    decreases models.len(),
{
    if models.len() == 0 {
        seq![]
    } else {
        let rest = of_freedom(models.drop_last(), group);
        if freedom(models.last()) == group {
            rest.push(models.last())
        } else {
            rest
        }
    }
}

/// The models, with those first that are likely to work without a secret. Each
/// group keeps its order.
pub open spec fn freed(models: Seq<Seq<char>>) -> Seq<Seq<char>> {
    of_freedom(models, 0) + of_freedom(models, 1) + of_freedom(models, 2)
}

fn push_copy(v: &mut Vec<String>, s: &str)
    ensures
        texts(final(v)@) == texts(old(v)@).push(s@),
{
    v.push(owned(s));
    assert(texts(v@) =~= texts(old(v)@).push(s@));
}

/// The models, with those first that are likely to work without a secret.
pub fn free_first(models: Vec<String>) -> (r: Vec<String>)
    ensures
        texts(r@) == freed(texts(models@)),
{
    let free = known_free_model_ids();
    assert(texts(free@)[0] == "deepseek-v4-flash-free"@);
    let ghost all = texts(models@);
    let mut known: Vec<String> = Vec::new();
    let mut named: Vec<String> = Vec::new();
    let mut rest: Vec<String> = Vec::new();
    let mut i: usize = 0;
    assert(texts(known@) =~= of_freedom(all.subrange(0, 0), 0));
    assert(texts(named@) =~= of_freedom(all.subrange(0, 0), 1));
    assert(texts(rest@) =~= of_freedom(all.subrange(0, 0), 2));
    while i < models.len()
        invariant
            i <= models.len(),
            all == texts(models@),
            forall|m: Seq<char>| texts(free@).contains(m) <==> known_free(m),
            texts(known@) == of_freedom(all.subrange(0, i as int), 0),
            texts(named@) == of_freedom(all.subrange(0, i as int), 1),
            texts(rest@) == of_freedom(all.subrange(0, i as int), 2),
        decreases models.len() - i,
    {
        assert(all.subrange(0, i + 1).drop_last() =~= all.subrange(0, i as int));
        assert(all.subrange(0, i + 1).last() == models@[i as int]@);
        let m = models[i].as_str();
        if name_taken(&free, m) {
            push_copy(&mut known, m);
        } else if contains(lowercase(m).as_str(), "free") {
            push_copy(&mut named, m);
        } else {
            push_copy(&mut rest, m);
        }
        i += 1;
    }
    assert(all.subrange(0, i as int) =~= all);
    let ghost a = texts(known@);
    let ghost b = texts(named@);
    let ghost c = texts(rest@);
    let mut out = known;
    let ghost k0 = out@;
    let ghost n0 = named@;
    let ghost r0 = rest@;
    out.append(&mut named);
    out.append(&mut rest);
    assert(texts(out@) =~= a + b + c);
    out
}

/// Putting free models first loses none and adds none.
pub proof fn law_free_first_keeps_models(models: Seq<Seq<char>>)
    ensures
        freed(models).len() == models.len(),
        freed(models).to_multiset() == models.to_multiset(),
    decreases models.len(),
{
    broadcast use vstd::seq_lib::group_to_multiset_ensures;

    if models.len() > 0 {
        let d = models.drop_last();
        let m = models.last();
        law_free_first_keeps_models(d);
        assert(d.push(m) =~= models);
        let (a, b, c) = (of_freedom(d, 0), of_freedom(d, 1), of_freedom(d, 2));
        assert(models.to_multiset() =~= d.to_multiset().insert(m));
        vstd::seq_lib::lemma_multiset_commutative(a + b, c);
        vstd::seq_lib::lemma_multiset_commutative(a, b);
        if known_free(m) {
            assert(of_freedom(models, 0) =~= a.push(m));
            vstd::seq_lib::lemma_multiset_commutative(a.push(m) + b, c);
            vstd::seq_lib::lemma_multiset_commutative(a.push(m), b);
            assert(a.push(m).to_multiset() =~= a.to_multiset().insert(m));
        } else if named_free(m) {
            vstd::seq_lib::lemma_multiset_commutative(a + b.push(m), c);
            vstd::seq_lib::lemma_multiset_commutative(a, b.push(m));
            assert(b.push(m).to_multiset() =~= b.to_multiset().insert(m));
        } else {
            vstd::seq_lib::lemma_multiset_commutative(a + b, c.push(m));
            assert(c.push(m).to_multiset() =~= c.to_multiset().insert(m));
        }
        assert(freed(models).to_multiset() =~= models.to_multiset());
    } else {
        assert(freed(models) =~= models);
    }
}

/// The models to try in place of one that did not work: at most five others,
/// the likely ones first.
pub fn replacement_candidates(listed: Vec<String>, typed: &str) -> (r: Vec<String>)
    ensures
        texts(r@) == first_five(freed(others(texts(listed@), typed@))),
{
    let ghost all = texts(listed@);
    let mut kept: Vec<String> = Vec::new();
    let mut i: usize = 0;
    assert(texts(kept@) =~= others(all.subrange(0, 0), typed@));
    while i < listed.len()
        invariant
            i <= listed.len(),
            all == texts(listed@),
            texts(kept@) == others(all.subrange(0, i as int), typed@),
        decreases listed.len() - i,
    {
        assert(all.subrange(0, i + 1).drop_last() =~= all.subrange(0, i as int));
        assert(all.subrange(0, i + 1).last() == listed@[i as int]@);
        if !same(listed[i].as_str(), typed) {
            push_copy(&mut kept, listed[i].as_str());
        }
        i += 1;
    }
    assert(all.subrange(0, i as int) =~= all);
    let mut out = free_first(kept);
    let ghost full = out@;
    assert(texts(out@).len() == out@.len());
    if out.len() > 5 {
        out.truncate(5);
        assert(texts(out@) =~= texts(full).subrange(0, 5));
    }
    out
}

/// The models other than one.
pub open spec fn others(models: Seq<Seq<char>>, typed: Seq<char>) -> Seq<Seq<char>>
    decreases models.len(),
{
    if models.len() == 0 {
        seq![]
    } else if models.last() == typed {
        others(models.drop_last(), typed)
    } else {
        others(models.drop_last(), typed).push(models.last())
    }
}

/// At most the first five.
pub open spec fn first_five(models: Seq<Seq<char>>) -> Seq<Seq<char>> {
    if models.len() <= 5 {
        models
    } else {
        models.subrange(0, 5)
    }
}

// ---------------------------------------------------------------------------
// What is shown
// ---------------------------------------------------------------------------

/// The lines above the menu.
pub fn format_menu_header(
    listen_addr: &str,
    sqlite_path: &str,
    provider_count: u64,
    pool_count: u64,
    require_shared_secret: bool,
) -> (r: String)
    ensures
        r@ == "  listening on "@ + listen_addr@ + "   db: "@ + sqlite_path@ + "\n  "@ + decimal(
            provider_count as nat,
        ) + " providers · "@ + decimal(pool_count as nat) + " pools · /v1 access: "@ + (
        if require_shared_secret {
            "required (API key)"@
        } else {
            "open (no API key)"@
        }),
{
    let mut out = concat3("  listening on ", listen_addr, "   db: ");
    out.append(sqlite_path);
    out.append("\n  ");
    out.append(decimal_of(provider_count).as_str());
    out.append(" providers · ");
    out.append(decimal_of(pool_count).as_str());
    out.append(" pools · /v1 access: ");
    if require_shared_secret {
        out.append("required (API key)");
    } else {
        out.append("open (no API key)");
    }
    out
}

/// A secret as the terminal shows it: only by its end.
pub fn mask_secret_for_cli(secret: &str) -> (r: String)
    ensures
        r@ == masked(secret@),
{
    mask_secret(secret)
}

/// Whether a change to open access goes through: never without a yes, which on
/// an address that other machines reach is the word `OPEN`.
pub fn open_access_confirmed(loopback: bool, said_yes: bool, typed: &str) -> (r: bool)
    ensures
        r == if loopback {
            said_yes
        } else {
            typed@ == "OPEN"@
        },
{
    if loopback {
        said_yes
    } else {
        same(typed, "OPEN")
    }
}

/// What a choice in the access menu comes to.
#[derive(Clone, Copy, Debug, PartialEq, Eq, Structural)]
pub enum AccessChange {
    /// The environment decides; nothing is asked.
    Fixed,
    /// Nothing changes.
    Unchanged,
    /// The secret is asked for from now on.
    Require,
    /// Open access must be confirmed first.
    ConfirmOpen,
}

/// What a choice in the access menu comes to.
pub fn access_change(origin_is_env: bool, current: bool, choice: Option<usize>) -> (r: AccessChange)
    ensures
        r == if origin_is_env {
            AccessChange::Fixed
        } else {
            match choice {
                None => AccessChange::Unchanged,
                Some(c) => if (c == 0) == current {
                    AccessChange::Unchanged
                } else if c == 0 {
                    AccessChange::Require
                } else {
                    AccessChange::ConfirmOpen
                },
            }
        },
{
    if origin_is_env {
        return AccessChange::Fixed;
    }
    match choice {
        None => AccessChange::Unchanged,
        Some(c) => if (c == 0) == current {
            AccessChange::Unchanged
        } else if c == 0 {
            AccessChange::Require
        } else {
            AccessChange::ConfirmOpen
        },
    }
}

/// Whether the wizard runs at the start: on a terminal, with no seed file and
/// no provider yet.
pub fn runs_wizard(seed_configured: bool, on_terminal: bool, no_providers: bool) -> (r: bool)
    ensures
        r == (!seed_configured && on_terminal && no_providers),
{
    !seed_configured && on_terminal && no_providers
}

// ---------------------------------------------------------------------------
// Checking a model before a provider is stored
// ---------------------------------------------------------------------------

/// How far the check of a model is.
#[derive(Clone, Copy, Debug, PartialEq, Eq, Structural)]
pub enum CheckStage {
    /// The model that was typed is being probed.
    Typed,
    /// The provider's own list is being fetched.
    Listing,
    /// Models of that list are being probed.
    Others,
    /// The operator is being asked.
    Asking,
}

/// What happened in the check of a model.
pub enum CheckEvent {
    /// Models were probed.
    Probed(ProbeOutcome),
    /// The provider's own list came in, or there is none.
    Listed(Option<Vec<String>>),
    /// The operator typed a model.
    Answered(String),
}

/// What to do next in the check of a model.
pub enum CheckAction {
    Probe(Vec<String>),
    FetchList,
    Ask,
    /// The check is over: this is the model.
    Use(String),
}

/// What a `CheckAction` stands for.
pub enum CheckSeen {
    Probe(Seq<Seq<char>>),
    FetchList,
    Ask,
    Use(Seq<char>),
}

impl View for CheckAction {
    type V = CheckSeen;

    open spec fn view(&self) -> CheckSeen {
        match self {
            CheckAction::Probe(models) => CheckSeen::Probe(texts(models@)),
            CheckAction::FetchList => CheckSeen::FetchList,
            CheckAction::Ask => CheckSeen::Ask,
            CheckAction::Use(model) => CheckSeen::Use(model@),
        }
    }
}

/// The next stage and action. A model that works is used; where the typed one
/// does not, others of the provider's own list are probed, and where none of
/// them does, the operator has the last word.
pub open spec fn check_next(typed: Seq<char>, stage: CheckStage, event: CheckEvent) -> (
    CheckStage,
    CheckSeen,
) {
    match event {
        CheckEvent::Probed(ProbeOutcome::Found(model)) => (stage, CheckSeen::Use(model@)),
        CheckEvent::Probed(ProbeOutcome::AllFailed(_)) => if stage == CheckStage::Typed {
            (CheckStage::Listing, CheckSeen::FetchList)
        } else {
            (CheckStage::Asking, CheckSeen::Ask)
        },
        CheckEvent::Listed(Some(models)) => {
            let candidates = first_five(freed(others(texts(models@), typed)));
            if candidates.len() > 0 {
                (CheckStage::Others, CheckSeen::Probe(candidates))
            } else {
                (CheckStage::Asking, CheckSeen::Ask)
            }
        },
        CheckEvent::Listed(None) => (CheckStage::Asking, CheckSeen::Ask),
        CheckEvent::Answered(model) => (stage, CheckSeen::Use(trimmed(model@))),
    }
}

/// The check of a model.
pub struct ModelCheck {
    pub typed: String,
    pub stage: CheckStage,
}

impl ModelCheck {
    /// Begins with the model that was typed.
    pub fn begin(typed: &str) -> (r: (ModelCheck, CheckAction))
        ensures
            r.0.typed@ == typed@,
            r.0.stage == CheckStage::Typed,
            r.1@ == CheckSeen::Probe(seq![typed@]),
    {
        let mut models: Vec<String> = Vec::new();
        models.push(owned(typed));
        assert(texts(models@) =~= seq![typed@]);
        (ModelCheck { typed: owned(typed), stage: CheckStage::Typed }, CheckAction::Probe(models))
    }

    /// Takes in what happened, and says what to do next.
    pub fn step(&mut self, event: CheckEvent) -> (r: CheckAction)
        ensures
            (final(self).stage, r@) == check_next(old(self).typed@, old(self).stage, event),
            final(self).typed@ == old(self).typed@,
    {
        match event {
            CheckEvent::Probed(ProbeOutcome::Found(model)) => CheckAction::Use(model),
            CheckEvent::Probed(ProbeOutcome::AllFailed(_)) => {
                if self.stage == CheckStage::Typed {
                    self.stage = CheckStage::Listing;
                    CheckAction::FetchList
                } else {
                    self.stage = CheckStage::Asking;
                    CheckAction::Ask
                }
            },
            CheckEvent::Listed(Some(models)) => {
                let candidates = replacement_candidates(models, self.typed.as_str());
                assert(texts(candidates@).len() == candidates@.len());
                if candidates.len() > 0 {
                    self.stage = CheckStage::Others;
                    CheckAction::Probe(candidates)
                } else {
                    self.stage = CheckStage::Asking;
                    CheckAction::Ask
                }
            },
            CheckEvent::Listed(None) => {
                self.stage = CheckStage::Asking;
                CheckAction::Ask
            },
            CheckEvent::Answered(model) => CheckAction::Use(trim(model.as_str())),
        }
    }
}

/// A check probes first what was typed and then others, at most once each, and
/// asks only when all of that failed: no stage comes back.
pub proof fn law_checks_move_on(typed: Seq<char>, stage: CheckStage, event: CheckEvent)
    ensures
        match check_next(typed, stage, event).1 {
            CheckSeen::Probe(models) => event is Listed && 0 < models.len() <= 5
                && !models.contains(typed),
            CheckSeen::FetchList => stage == CheckStage::Typed && event is Probed,
            CheckSeen::Ask => check_next(typed, stage, event).0 == CheckStage::Asking,
            CheckSeen::Use(_) => event is Probed || event is Answered,
        },
{
    match event {
        CheckEvent::Listed(Some(models)) => {
            let rest = others(texts(models@), typed);
            lemma_others(texts(models@), typed);
            law_free_first_keeps_models(rest);
            if first_five(freed(rest)).contains(typed) {
                let i = first_five(freed(rest)).index_of(typed);
                assert(freed(rest)[i] == typed);
                freed(rest).to_multiset_ensures();
                rest.to_multiset_ensures();
                assert(freed(rest).to_multiset().count(typed) > 0);
                assert(rest.contains(typed));
            }
        },
        _ => {},
    }
}

proof fn lemma_others(models: Seq<Seq<char>>, typed: Seq<char>)
    ensures
        !others(models, typed).contains(typed),
    decreases models.len(),
{
    if models.len() > 0 {
        lemma_others(models.drop_last(), typed);
    }
}

// ---------------------------------------------------------------------------
// A Command Code key through the browser
// ---------------------------------------------------------------------------

/// What comes of a login through the browser.
pub enum KeyStep {
    /// This key came back.
    Key(String),
    /// Nothing came in time: the operator pastes a key.
    Paste,
    /// It failed, for this reason.
    Failed(String),
}

/// What comes of a login through the browser.
pub fn key_after_login(expected: &str, result: Result<AuthCallback, LoginError>) -> (r: KeyStep)
    ensures
        match result {
            Ok(c) => if c@.state == expected@ {
                r matches KeyStep::Key(k) && k@ == c@.api_key
            } else {
                r matches KeyStep::Failed(m) && m@ == "Command Code login failed: StateMismatch"@
            },
            Err(LoginError::Timeout) => r is Paste,
            Err(LoginError::Denied(why)) => r matches KeyStep::Failed(m) && m@
                == "Command Code login denied: "@ + why@,
            Err(LoginError::StateMismatch) => r matches KeyStep::Failed(m) && m@
                == "Command Code login failed: StateMismatch"@,
            Err(LoginError::Io(e)) => r matches KeyStep::Failed(m) && m@
                == "Command Code login failed: Io("@ + e@ + ")"@,
        },
{
    match result {
        Ok(callback) => match validate_state(expected, callback) {
            Ok(c) => KeyStep::Key(c.api_key),
            Err(_) => KeyStep::Failed(owned("Command Code login failed: StateMismatch")),
        },
        Err(LoginError::Timeout) => KeyStep::Paste,
        Err(LoginError::Denied(why)) => KeyStep::Failed(
            concat2("Command Code login denied: ", why.as_str()),
        ),
        Err(LoginError::StateMismatch) => KeyStep::Failed(
            owned("Command Code login failed: StateMismatch"),
        ),
        Err(LoginError::Io(e)) => KeyStep::Failed(
            concat3("Command Code login failed: Io(", e.as_str(), ")"),
        ),
    }
}

} // verus!
