//! Providers, pools, members, credentials and log records. Times are
//! microseconds since 1970.
use vstd::prelude::*;

use crate::json::Json;
use crate::text::same;

verus! {

/// The shape of requests and answers.
#[derive(Clone, Copy, Debug, PartialEq, Eq, Structural)]
pub enum WireFormat {
    OpenAi,
    Anthropic,
}

impl WireFormat {
    /// The word under which it is stored and shown.
    pub open spec fn word(self) -> Seq<char> {
        match self {
            WireFormat::OpenAi => "openai"@,
            WireFormat::Anthropic => "anthropic"@,
        }
    }

    /// The word under which it is stored and shown.
    pub fn as_str(self) -> (r: &'static str)
        ensures
            r@ == self.word(),
    {
        match self {
            WireFormat::OpenAi => "openai",
            WireFormat::Anthropic => "anthropic",
        }
    }

    /// The format that a word stands for.
    pub fn from_word(word: &str) -> (r: Option<WireFormat>)
        ensures
            match r {
                Some(w) => w.word() == word@,
                None => word@ != "openai"@ && word@ != "anthropic"@,
            },
    {
        if same(word, "openai") {
            Some(WireFormat::OpenAi)
        } else if same(word, "anthropic") {
            Some(WireFormat::Anthropic)
        } else {
            None
        }
    }
}

impl ProviderKind {
    /// The word under which it is stored and shown.
    pub open spec fn word(self) -> Seq<char> {
        match self {
            ProviderKind::Passthrough => "passthrough"@,
            ProviderKind::OauthCodex => "oauth_codex"@,
            ProviderKind::OauthCommandCode => "oauth_command_code"@,
        }
    }

    /// The word under which it is stored and shown.
    pub fn as_str(self) -> (r: &'static str)
        ensures
            r@ == self.word(),
    {
        match self {
            ProviderKind::Passthrough => "passthrough",
            ProviderKind::OauthCodex => "oauth_codex",
            ProviderKind::OauthCommandCode => "oauth_command_code",
        }
    }

    /// The kind that a word stands for.
    pub fn from_word(word: &str) -> (r: Option<ProviderKind>)
        ensures
            match r {
                Some(k) => k.word() == word@,
                None => word@ != "passthrough"@ && word@ != "oauth_codex"@ && word@
                    != "oauth_command_code"@,
            },
    {
        if same(word, "passthrough") {
            Some(ProviderKind::Passthrough)
        } else if same(word, "oauth_codex") {
            Some(ProviderKind::OauthCodex)
        } else if same(word, "oauth_command_code") {
            Some(ProviderKind::OauthCommandCode)
        } else {
            None
        }
    }

    /// It is logged in to, rather than given a key.
    pub open spec fn is_oauth(self) -> bool {
        self != ProviderKind::Passthrough
    }
}

/// Whether a provider of this kind is logged in to, rather than given a key.
pub fn is_oauth_kind(kind: ProviderKind) -> (r: bool)
    ensures
        r == kind.is_oauth(),
{
    match kind {
        ProviderKind::OauthCodex => true,
        ProviderKind::OauthCommandCode => true,
        ProviderKind::Passthrough => false,
    }
}

/// The kind of a provider of which none is given.
pub fn default_kind() -> (r: ProviderKind)
    ensures
        r == ProviderKind::Passthrough,
{
    ProviderKind::Passthrough
}

impl PoolStrategy {
    /// The word under which it is stored and shown.
    pub open spec fn word(self) -> Seq<char> {
        match self {
            PoolStrategy::Priority => "priority"@,
            PoolStrategy::RoundRobin => "round_robin"@,
        }
    }

    /// The word under which it is stored and shown.
    pub fn as_str(self) -> (r: &'static str)
        ensures
            r@ == self.word(),
    {
        match self {
            PoolStrategy::Priority => "priority",
            PoolStrategy::RoundRobin => "round_robin",
        }
    }

    /// The strategy that a word stands for.
    pub fn from_word(word: &str) -> (r: Option<PoolStrategy>)
        ensures
            match r {
                Some(s) => s.word() == word@,
                None => word@ != "priority"@ && word@ != "round_robin"@,
            },
    {
        if same(word, "priority") {
            Some(PoolStrategy::Priority)
        } else if same(word, "round_robin") {
            Some(PoolStrategy::RoundRobin)
        } else {
            None
        }
    }
}

/// Every word names one format, one kind or one strategy: what is stored can be
/// read back.
pub proof fn law_words_differ(
    a: WireFormat,
    b: WireFormat,
    c: ProviderKind,
    d: ProviderKind,
    e: PoolStrategy,
    f: PoolStrategy,
)
    ensures
        a.word() == b.word() ==> a == b,
        c.word() == d.word() ==> c == d,
        e.word() == f.word() ==> e == f,
{
    reveal_strlit("openai");
    reveal_strlit("anthropic");
    reveal_strlit("passthrough");
    reveal_strlit("oauth_codex");
    reveal_strlit("oauth_command_code");
    reveal_strlit("priority");
    reveal_strlit("round_robin");
    assert("openai"@.len() == 6 && "anthropic"@.len() == 9);
    assert("passthrough"@[0] == 'p' && "oauth_codex"@[0] == 'o');
    assert("oauth_codex"@.len() == 11 && "oauth_command_code"@.len() == 18);
    assert("priority"@.len() == 8 && "round_robin"@.len() == 11);
}

/// How a provider is reached and logged in to.
#[derive(Clone, Copy, Debug, PartialEq, Eq, Structural)]
pub enum ProviderKind {
    Passthrough,
    OauthCodex,
    OauthCommandCode,
}

/// An upstream that answers requests.
#[derive(Clone, Debug)]
pub struct Provider {
    pub id: String,
    pub name: String,
    pub wire_format: WireFormat,
    pub kind: ProviderKind,
    pub base_url: Option<String>,
    pub api_key: Option<String>,
    pub upstream_model: String,
    /// Whether exchanges that succeed are recorded.
    pub dataset_logging: bool,
    pub created_at: i64,
    pub updated_at: i64,
}

/// In which order a pool's members are tried: always by priority, or with the
/// first one moving on from request to request.
#[derive(Clone, Copy, Debug, PartialEq, Eq, Structural)]
pub enum PoolStrategy {
    Priority,
    RoundRobin,
}

impl Default for PoolStrategy {
    fn default() -> (r: PoolStrategy)
        ensures
            r == PoolStrategy::Priority,
    {
        PoolStrategy::Priority
    }
}

/// A name that clients request, with the providers behind it.
#[derive(Clone, Debug)]
pub struct Pool {
    pub id: String,
    pub wire_format: WireFormat,
    pub created_at: i64,
    pub strategy: PoolStrategy,
    /// How many requests go to one member before the next one's turn.
    pub sticky_limit: Option<i64>,
}

/// A provider's place in a pool.
#[derive(Clone, Debug)]
pub struct PoolMember {
    pub pool_id: String,
    pub provider_id: String,
    pub priority: i64,
    /// The model to ask for in place of the provider's own.
    pub model_override: Option<String>,
    /// Whether to record exchanges, in place of the provider's own setting.
    pub dataset_logging_override: Option<bool>,
}

#[derive(Clone, Debug)]
pub struct PoolWithMembers {
    pub pool: Pool,
    pub members: Vec<PoolMember>,
}

/// All providers and pools at one moment.
#[derive(Clone, Debug)]
pub struct ConfigSnapshot {
    pub providers: Vec<Provider>,
    pub pools: Vec<PoolWithMembers>,
}

/// What is stored of a provider's login.
#[derive(Debug)]
pub struct OAuthState {
    pub provider_id: String,
    pub access_token: Option<String>,
    pub refresh_token: Option<String>,
    pub id_token: Option<String>,
    pub access_expires_at: Option<i64>,
    pub provider_data: Json,
    pub pkce_verifier: Option<String>,
    pub oauth_state: Option<String>,
    pub updated_at: i64,
}

/// What a request to a provider is signed with.
#[derive(Debug)]
pub struct Credentials {
    pub api_key: Option<String>,
    pub access_token: Option<String>,
    pub refresh_token: Option<String>,
    pub id_token: Option<String>,
    pub access_expires_at: Option<i64>,
    pub provider_data: Json,
}

/// One line of the request log.
#[derive(Clone, Debug)]
pub struct LogEntry {
    pub pool_id: Option<String>,
    pub provider_id: Option<String>,
    pub status_code: Option<i64>,
    pub latency_ms: i64,
    pub success: bool,
}

/// How long an exchange took, to the first byte and in all.
#[derive(Clone, Debug)]
pub struct LatencyMs {
    pub ttfb_ms: Option<i64>,
    pub total_ms: i64,
}

/// A recorded exchange.
#[derive(Clone, Debug)]
pub struct DatasetLogEntry {
    pub request_id: String,
    pub timestamp: i64,
    pub pool_id: Option<String>,
    pub provider_id: String,
    pub model: String,
    pub user_id: Option<String>,
    pub wire_format: WireFormat,
    pub stream: bool,
    pub input_body: String,
    pub output_body: String,
    /// Whether the answer came to its end.
    pub complete: bool,
    pub latency_ms: LatencyMs,
}

/// A copy of an optional text.
pub fn copy_text(o: &Option<String>) -> (r: Option<String>)
    ensures
        r == *o,
{
    match o {
        Some(s) => Some(s.clone()),
        None => None,
    }
}

/// The text that there may be.
pub open spec fn text_view(o: Option<String>) -> Option<Seq<char>> {
    match o {
        Some(s) => Some(s@),
        None => None,
    }
}

impl PoolMember {
    /// A copy of the member.
    pub fn copy(&self) -> (r: PoolMember)
        ensures
            r == *self,
    {
        PoolMember {
            pool_id: self.pool_id.clone(),
            provider_id: self.provider_id.clone(),
            priority: self.priority,
            model_override: copy_text(&self.model_override),
            dataset_logging_override: self.dataset_logging_override,
        }
    }
}

impl Pool {
    /// A copy of the pool.
    pub fn copy(&self) -> (r: Pool)
        ensures
            r == *self,
    {
        Pool {
            id: self.id.clone(),
            wire_format: self.wire_format,
            created_at: self.created_at,
            strategy: self.strategy,
            sticky_limit: self.sticky_limit,
        }
    }
}

impl Provider {
    /// A copy of the provider.
    pub fn copy(&self) -> (r: Provider)
        ensures
            r == *self,
    {
        Provider {
            id: self.id.clone(),
            name: self.name.clone(),
            wire_format: self.wire_format,
            kind: self.kind,
            base_url: copy_text(&self.base_url),
            api_key: copy_text(&self.api_key),
            upstream_model: self.upstream_model.clone(),
            dataset_logging: self.dataset_logging,
            created_at: self.created_at,
            updated_at: self.updated_at,
        }
    }
}

/// What credentials stand for.
pub struct CredentialsView {
    pub api_key: Option<Seq<char>>,
    pub access_token: Option<Seq<char>>,
    pub refresh_token: Option<Seq<char>>,
    pub id_token: Option<Seq<char>>,
    pub access_expires_at: Option<i64>,
    pub provider_data: crate::json::JsonView,
}

impl View for Credentials {
    type V = CredentialsView;

    open spec fn view(&self) -> CredentialsView {
        CredentialsView {
            api_key: text_view(self.api_key),
            access_token: text_view(self.access_token),
            refresh_token: text_view(self.refresh_token),
            id_token: text_view(self.id_token),
            access_expires_at: self.access_expires_at,
            provider_data: self.provider_data@,
        }
    }
}

impl Default for Credentials {
    fn default() -> (r: Credentials)
        ensures
            r@ == (CredentialsView {
                api_key: None,
                access_token: None,
                refresh_token: None,
                id_token: None,
                access_expires_at: None,
                provider_data: crate::json::JsonView::Null,
            }),
    {
        Credentials {
            api_key: None,
            access_token: None,
            refresh_token: None,
            id_token: None,
            access_expires_at: None,
            provider_data: Json::Null,
        }
    }
}

impl Credentials {
    /// The credentials of a provider: its own key, and what its login left.
    pub fn from_provider_and_oauth(provider: &Provider, oauth: Option<OAuthState>) -> (r:
        Credentials)
        ensures
            r@ == match oauth {
                Some(o) => CredentialsView {
                    api_key: text_view(provider.api_key),
                    access_token: text_view(o.access_token),
                    refresh_token: text_view(o.refresh_token),
                    id_token: text_view(o.id_token),
                    access_expires_at: o.access_expires_at,
                    provider_data: o.provider_data@,
                },
                None => CredentialsView {
                    api_key: text_view(provider.api_key),
                    access_token: None,
                    refresh_token: None,
                    id_token: None,
                    access_expires_at: None,
                    provider_data: crate::json::JsonView::Null,
                },
            },
    {
        let api_key = copy_text(&provider.api_key);
        match oauth {
            Some(o) => Credentials {
                api_key,
                access_token: o.access_token,
                refresh_token: o.refresh_token,
                id_token: o.id_token,
                access_expires_at: o.access_expires_at,
                provider_data: o.provider_data,
            },
            None => Credentials {
                api_key,
                access_token: None,
                refresh_token: None,
                id_token: None,
                access_expires_at: None,
                provider_data: Json::Null,
            },
        }
    }
}

} // verus!
