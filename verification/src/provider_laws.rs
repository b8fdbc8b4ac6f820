//! What is stored, shown and listed of providers and pools.
use vstd::prelude::*;

use crate::model::{
    ConfigSnapshot, Pool, PoolMember, PoolStrategy, PoolWithMembers, Provider, ProviderKind,
    WireFormat,
};
use crate::pools::{
    are_direct_members, are_direct_pools, real_override, without_place, without_pool,
};
use crate::providers::{
    changes_format, direct_entries, found_entries, listed_ids, model_entry, patched, pool_entries,
    probe_request, shown, state_shown, wait_secs, Found, ProviderPatch,
};
use crate::runtime::{ProviderRuntimeState, ProviderStatus};
use crate::json::JsonView;

verus! {

/// The words of what is shown differ.
proof fn lemma_words()
    ensures
        "id"@ != "name"@,
        "id"@ != "wire_format"@,
        "id"@ != "kind"@,
        "id"@ != "base_url"@,
        "id"@ != "api_key"@,
        "id"@ != "upstream_model"@,
        "id"@ != "credential_configured"@,
        "id"@ != "created_at"@,
        "id"@ != "updated_at"@,
        "name"@ != "wire_format"@,
        "name"@ != "kind"@,
        "name"@ != "base_url"@,
        "name"@ != "api_key"@,
        "name"@ != "upstream_model"@,
        "name"@ != "credential_configured"@,
        "name"@ != "created_at"@,
        "name"@ != "updated_at"@,
        "wire_format"@ != "kind"@,
        "wire_format"@ != "base_url"@,
        "wire_format"@ != "api_key"@,
        "wire_format"@ != "upstream_model"@,
        "wire_format"@ != "credential_configured"@,
        "wire_format"@ != "created_at"@,
        "wire_format"@ != "updated_at"@,
        "kind"@ != "base_url"@,
        "kind"@ != "api_key"@,
        "kind"@ != "upstream_model"@,
        "kind"@ != "credential_configured"@,
        "kind"@ != "created_at"@,
        "kind"@ != "updated_at"@,
        "base_url"@ != "api_key"@,
        "base_url"@ != "upstream_model"@,
        "base_url"@ != "credential_configured"@,
        "base_url"@ != "created_at"@,
        "base_url"@ != "updated_at"@,
        "api_key"@ != "upstream_model"@,
        "api_key"@ != "credential_configured"@,
        "api_key"@ != "created_at"@,
        "api_key"@ != "updated_at"@,
        "upstream_model"@ != "credential_configured"@,
        "upstream_model"@ != "created_at"@,
        "upstream_model"@ != "updated_at"@,
        "credential_configured"@ != "created_at"@,
        "credential_configured"@ != "updated_at"@,
        "created_at"@ != "updated_at"@,
        "provider_id"@ != "backoff_level"@,
        "provider_id"@ != "status"@,
        "provider_id"@ != "unavailable_in_secs"@,
        "backoff_level"@ != "status"@,
        "backoff_level"@ != "unavailable_in_secs"@,
        "status"@ != "unavailable_in_secs"@,
        "model"@ != "messages"@,
        "model"@ != "max_tokens"@,
        "messages"@ != "max_tokens"@,
        "role"@ != "content"@,
        "id"@ != "object"@,
        "id"@ != "owned_by"@,
        "object"@ != "owned_by"@,
{
    reveal_strlit("id");
    reveal_strlit("name");
    reveal_strlit("wire_format");
    reveal_strlit("kind");
    reveal_strlit("base_url");
    reveal_strlit("api_key");
    reveal_strlit("upstream_model");
    reveal_strlit("credential_configured");
    reveal_strlit("created_at");
    reveal_strlit("updated_at");
    reveal_strlit("provider_id");
    reveal_strlit("backoff_level");
    reveal_strlit("status");
    reveal_strlit("unavailable_in_secs");
    reveal_strlit("model");
    reveal_strlit("messages");
    reveal_strlit("max_tokens");
    reveal_strlit("role");
    reveal_strlit("content");
    reveal_strlit("object");
    reveal_strlit("owned_by");
    assert("id"@.len() == 2);
    assert("name"@.len() == 4);
    assert("wire_format"@.len() == 11);
    assert("kind"@.len() == 4);
    assert("base_url"@.len() == 8);
    assert("api_key"@.len() == 7);
    assert("upstream_model"@.len() == 14);
    assert("credential_configured"@.len() == 21);
    assert("created_at"@.len() == 10);
    assert("updated_at"@.len() == 10);
    assert("provider_id"@.len() == 11);
    assert("backoff_level"@.len() == 13);
    assert("status"@.len() == 6);
    assert("unavailable_in_secs"@.len() == 19);
    assert("model"@.len() == 5);
    assert("messages"@.len() == 8);
    assert("max_tokens"@.len() == 10);
    assert("role"@.len() == 4);
    assert("content"@.len() == 7);
    assert("object"@.len() == 6);
    assert("owned_by"@.len() == 8);
    assert("name"@[0] != "kind"@[0]);
    assert("created_at"@[0] != "updated_at"@[0]);
}

// ---------------------------------------------------------------------------
// Providers
// ---------------------------------------------------------------------------

/// A change puts in what it gives, whole, and leaves the rest; a base URL or a key
/// that it takes away is gone.
pub proof fn law_patch_puts_in_what_it_gives(p: Provider, patch: ProviderPatch, now: i64)
    ensures
        ({
            let q = patched(p, patch, now);
            &&& patch.name is Some ==> q.name == patch.name->0
            &&& patch.name is None ==> q.name == p.name
            &&& patch.base_url is Some ==> q.base_url == patch.base_url->0
            &&& patch.base_url is None ==> q.base_url == p.base_url
            &&& patch.api_key is Some ==> q.api_key == patch.api_key->0
            &&& patch.api_key is None ==> q.api_key == p.api_key
            &&& patch.upstream_model is Some ==> q.upstream_model == patch.upstream_model->0
            &&& patch.upstream_model is None ==> q.upstream_model == p.upstream_model
            &&& patch.wire_format is Some ==> q.wire_format == patch.wire_format->0
            &&& patch.wire_format is None ==> q.wire_format == p.wire_format
            &&& q.dataset_logging == p.dataset_logging
            &&& q.id == p.id && q.kind == p.kind && q.created_at == p.created_at
            &&& q.updated_at == now
        }),
{
}

/// A change of the wire format is checked against the pools for a provider with a
/// key, and for no other.
pub proof fn law_format_changes_are_checked(p: Provider, patch: ProviderPatch)
    ensures
        changes_format(p, patch) <==> p.kind == ProviderKind::Passthrough && patch.wire_format
            is Some && patch.wire_format->0 != p.wire_format,
{
}

/// The admin interface is told all there is of a provider but its key, of which it
/// is told three asterisks and the last four characters.
pub proof fn law_listing_shows_the_provider(
    p: Provider,
    configured: bool,
    created: Seq<char>,
    updated: Seq<char>,
)
    ensures
        ({
            let v = shown(p, configured, created, updated);
            &&& v.at("id"@) == JsonView::Str(p.id@)
            &&& v.at("name"@) == JsonView::Str(p.name@)
            &&& v.at("upstream_model"@) == JsonView::Str(p.upstream_model@)
            &&& v.at("wire_format"@) == JsonView::Str(
                if p.wire_format == WireFormat::OpenAi {
                    "openai"@
                } else {
                    "anthropic"@
                },
            )
            &&& p.kind == ProviderKind::Passthrough ==> v.at("kind"@) == JsonView::Str(
                "passthrough"@,
            )
            &&& p.kind == ProviderKind::OauthCodex ==> v.at("kind"@) == JsonView::Str(
                "oauth_codex"@,
            )
            &&& p.kind == ProviderKind::OauthCommandCode ==> v.at("kind"@) == JsonView::Str(
                "oauth_command_code"@,
            )
            &&& p.base_url is Some ==> v.at("base_url"@) == JsonView::Str(p.base_url->0@)
            &&& p.base_url is None ==> v.field("base_url"@) == Some(JsonView::Null)
            &&& p.api_key is None ==> v.field("api_key"@) == Some(JsonView::Null)
            &&& p.api_key matches Some(k) ==> k@.len() > 4 ==> v.at("api_key"@) == JsonView::Str(
                "***"@ + k@.subrange(k@.len() - 4, k@.len() as int),
            )
            &&& v.at("credential_configured"@) == JsonView::Bool(configured)
            &&& v.at("created_at"@) == JsonView::Str(created)
            &&& v.at("updated_at"@) == JsonView::Str(updated)
        }),
{
    lemma_words();
}

/// The admin interface is told how a provider is doing: in what state it is, how
/// many failures are held against it, and how many whole seconds it still rests.
pub proof fn law_state_is_shown(id: Seq<char>, s: ProviderRuntimeState, now: u64)
    ensures
        ({
            let v = state_shown(id, s, now);
            let wait = v.at("unavailable_in_secs"@);
            &&& v.at("provider_id"@) == JsonView::Str(id)
            &&& v.at("backoff_level"@) == JsonView::Int(s.backoff_level as int)
            &&& s.status == ProviderStatus::Healthy ==> v.at("status"@) == JsonView::Str(
                "healthy"@,
            )
            &&& s.status == ProviderStatus::Cooling ==> v.at("status"@) == JsonView::Str(
                "cooling"@,
            )
            &&& s.status == ProviderStatus::Misconfigured ==> v.at("status"@) == JsonView::Str(
                "misconfigured"@,
            )
            &&& s.unavailable_until is None ==> wait == JsonView::Null
            &&& s.unavailable_until matches Some(t) ==> t <= now ==> wait == JsonView::Int(0)
            &&& s.unavailable_until matches Some(t) ==> t > now ==> {
                let secs = wait.int64_or_zero();
                wait is Int && 1000 * secs <= t - now < 1000 * (secs + 1)
            }
        }),
{
    lemma_words();
    assert(state_shown(id, s, now).at("unavailable_in_secs"@) == wait_secs(
        s.unavailable_until,
        now,
    ));
}

/// A probe asks for the model with the words given, and for no more than eight
/// tokens.
pub proof fn law_probe_is_small(model: Seq<char>, said: Seq<char>)
    ensures
        ({
            let v = probe_request(model, said);
            let messages = v.at("messages"@).items();
            &&& v.at("model"@) == JsonView::Str(model)
            &&& messages.len() == 1
            &&& messages[0].at("role"@) == JsonView::Str("user"@)
            &&& messages[0].at("content"@) == JsonView::Str(said)
            &&& v.at("max_tokens"@) == JsonView::Int(8)
        }),
{
    lemma_words();
    let v = probe_request(model, said);
    let m = v.at("messages"@).items()[0];
    assert(m.at("role"@) == JsonView::Str("user"@));
}

// ---------------------------------------------------------------------------
// Models
// ---------------------------------------------------------------------------

/// The models of a provider's list are those that have an id, in order.
pub proof fn law_listed_models_are_read(items: Seq<JsonView>)
    ensures
        listed_ids(items) == items.filter_map(|m: JsonView| m.at("id"@).str()),
    decreases items.len(),
{
    if items.len() > 0 {
        law_listed_models_are_read(items.drop_last());
    }
    assert(listed_ids(items) =~= items.filter_map(|m: JsonView| m.at("id"@).str()));
}

/// The entry is that of a model with this id.
pub open spec fn names_model(v: JsonView, id: Seq<char>) -> bool {
    &&& v.at("id"@) == JsonView::Str(id)
    &&& v.at("object"@) == JsonView::Str("model"@)
    &&& v.at("owned_by"@) == JsonView::Str("1router"@)
}

proof fn lemma_entry(id: Seq<char>)
    ensures
        names_model(model_entry(id), id),
{
    lemma_words();
}

/// Clients see every pool under its id.
pub proof fn law_pools_are_listed(pools: Seq<Seq<char>>, i: int)
    requires
        0 <= i < pools.len(),
    ensures
        pool_entries(pools).len() == pools.len(),
        names_model(pool_entries(pools)[i], pools[i]),
{
    lemma_entry(pools[i]);
}

/// Clients see every model that was found, named with its provider, as it is asked
/// for; and no others, provider by provider.
pub proof fn law_found_models_are_listed(found: Found, i: int)
    ensures
        found_entries(found) == found.map_values(
            |f: (Seq<char>, Seq<Seq<char>>)| direct_entries(f.0, f.1),
        ).flatten(),
        forall|p: Seq<char>, models: Seq<Seq<char>>|
            #![trigger direct_entries(p, models)]
            direct_entries(p, models).len() == models.len() && (0 <= i < models.len()
                ==> names_model(direct_entries(p, models)[i], p + "/"@ + models[i])),
{
    let f = |f: (Seq<char>, Seq<Seq<char>>)| direct_entries(f.0, f.1);
    found.map_values(f).lemma_flatten_and_flatten_alt_are_equivalent();
    lemma_found_alt(found);
    assert forall|p: Seq<char>, models: Seq<Seq<char>>|
        #![trigger direct_entries(p, models)]
        direct_entries(p, models).len() == models.len() && (0 <= i < models.len() ==> names_model(
            direct_entries(p, models)[i],
            p + "/"@ + models[i],
        )) by {
        if 0 <= i < models.len() {
            lemma_entry(p + "/"@ + models[i]);
        }
    }
}

proof fn lemma_found_alt(found: Found)
    ensures
        found_entries(found) == found.map_values(
            |f: (Seq<char>, Seq<Seq<char>>)| direct_entries(f.0, f.1),
        ).flatten_alt(),
    decreases found.len(),
{
    let lists = found.map_values(|f: (Seq<char>, Seq<Seq<char>>)| direct_entries(f.0, f.1));
    if found.len() > 0 {
        lemma_found_alt(found.drop_last());
        assert(lists.drop_last() =~= found.drop_last().map_values(
            |f: (Seq<char>, Seq<Seq<char>>)| direct_entries(f.0, f.1),
        ));
    } else {
        assert(found_entries(found) =~= lists.flatten_alt());
    }
}

// ---------------------------------------------------------------------------
// Pools
// ---------------------------------------------------------------------------

/// An empty model in place of a provider's own stands for none; any other stands.
pub proof fn law_empty_override_is_none(model: Seq<char>)
    ensures
        real_override(None) is None,
        model.len() == 0 ==> real_override(Some(model)) is None,
        model.len() > 0 ==> real_override(Some(model)) == Some(model),
{
}

/// The provider is a member of some pool.
pub open spec fn is_member(pools: Seq<PoolWithMembers>, id: Seq<char>) -> bool {
    exists|i: int, j: int|
        0 <= i < pools.len() && 0 <= j < pools[i].members@.len() && (
        #[trigger] pools[i].members@[j]).provider_id@ == id
}

/// The pools that are added are those of providers that are in no pool and whose
/// name no pool has, one each and in order: with the provider's name and wire
/// format, tried by priority.
pub proof fn law_direct_pools_are_added(s: ConfigSnapshot, pools: Seq<Pool>, i: int)
    requires
        are_direct_pools(pools, without_pool(s)),
    ensures
        ({
            let lone = s.providers@.filter(
                |p: Provider|
                    !is_member(s.pools@, p.id@) && forall|k: int|
                        0 <= k < s.pools@.len() ==> (#[trigger] s.pools@[k]).pool.id@ != p.id@,
            );
            &&& pools.len() == lone.len()
            &&& 0 <= i < pools.len() ==> pools[i].id@ == lone[i].id@ && pools[i].wire_format
                == lone[i].wire_format && pools[i].strategy == PoolStrategy::Priority
                && pools[i].sticky_limit is None && pools[i].created_at == lone[i].created_at
        }),
{
    let a = |p: Provider| crate::pools::needs_pool(s.pools@, p);
    let b = |p: Provider|
        !is_member(s.pools@, p.id@) && forall|k: int|
            0 <= k < s.pools@.len() ==> (#[trigger] s.pools@[k]).pool.id@ != p.id@;
    assert forall|p: Provider| #[trigger] a(p) == b(p) by {
        lemma_member(s.pools@, p.id@);
    }
    lemma_same_filter(s.providers@, a, b);
    if 0 <= i < pools.len() {
        assert(crate::pools::is_direct_pool(pools[i], without_pool(s)[i]));
    }
}

/// The members that are added are those of providers that are in no pool, where the
/// pool of the provider's name is new or speaks its wire format: each is the
/// provider itself, with its own model.
pub proof fn law_direct_members_are_added(s: ConfigSnapshot, members: Seq<PoolMember>, i: int)
    requires
        are_direct_members(members, without_place(s)),
    ensures
        ({
            let lone = s.providers@.filter(
                |p: Provider|
                    !is_member(s.pools@, p.id@) && ((forall|k: int|
                        0 <= k < s.pools@.len() ==> (#[trigger] s.pools@[k]).pool.id@ != p.id@)
                        || exists|k: int|
                        0 <= k < s.pools@.len() && (#[trigger] s.pools@[k]).pool.id@ == p.id@
                            && s.pools@[k].pool.wire_format == p.wire_format),
            );
            &&& members.len() == lone.len()
            &&& 0 <= i < members.len() ==> members[i].pool_id@ == lone[i].id@
                && members[i].provider_id@ == lone[i].id@ && members[i].priority == 1
                && members[i].model_override is None && members[i].dataset_logging_override is None
        }),
{
    let a = |p: Provider| crate::pools::needs_member(s.pools@, p);
    let b = |p: Provider|
        !is_member(s.pools@, p.id@) && ((forall|k: int|
            0 <= k < s.pools@.len() ==> (#[trigger] s.pools@[k]).pool.id@ != p.id@) || exists|k: int|
            0 <= k < s.pools@.len() && (#[trigger] s.pools@[k]).pool.id@ == p.id@
                && s.pools@[k].pool.wire_format == p.wire_format);
    assert forall|p: Provider| #[trigger] a(p) == b(p) by {
        lemma_member(s.pools@, p.id@);
    }
    lemma_same_filter(s.providers@, a, b);
    if 0 <= i < members.len() {
        assert(crate::pools::is_direct_member(members[i], without_place(s)[i]));
    }
}

proof fn lemma_member(pools: Seq<PoolWithMembers>, id: Seq<char>)
    ensures
        crate::pools::assigned(pools, id) == is_member(pools, id),
{
    if crate::pools::assigned(pools, id) {
        let i = choose|i: int|
            0 <= i < pools.len() && crate::pools::serves(#[trigger] pools[i], id);
        let j = choose|j: int|
            0 <= j < pools[i].members@.len() && (#[trigger] pools[i].members@[j]).provider_id@ == id;
        assert(pools[i].members@[j].provider_id@ == id);
    }
    if is_member(pools, id) {
        let (i, j) = choose|i: int, j: int|
            0 <= i < pools.len() && 0 <= j < pools[i].members@.len() && (
            #[trigger] pools[i].members@[j]).provider_id@ == id;
        assert(crate::pools::serves(pools[i], id));
    }
}

proof fn lemma_same_filter(
    s: Seq<Provider>,
    a: spec_fn(Provider) -> bool,
    b: spec_fn(Provider) -> bool,
)
    requires
        forall|p: Provider| #[trigger] a(p) == b(p),
    ensures
        s.filter(a) == s.filter(b),
    decreases s.len(),
{
    reveal(Seq::filter);
    if s.len() > 0 {
        lemma_same_filter(s.drop_last(), a, b);
        assert(a(s.last()) == b(s.last()));
    }
}


/// A change that would strand a provider says in how many pools, and for which
/// format.
pub proof fn law_stranded_providers_are_told(id: Seq<char>, n: nat)
    ensures
        crate::providers::stranded(id, n, WireFormat::OpenAi) == "provider '"@ + id
            + "' is a member of "@ + crate::text::decimal(n)
            + " pool(s) that don't speak wire_format '"@ + "OpenAi"@
            + "' - remove it from those pools first"@,
        crate::providers::stranded(id, n, WireFormat::Anthropic) == "provider '"@ + id
            + "' is a member of "@ + crate::text::decimal(n)
            + " pool(s) that don't speak wire_format '"@ + "Anthropic"@
            + "' - remove it from those pools first"@,
{
}


/// An answer is a success where its status begins with a two.
pub proof fn law_successes(status: u16)
    ensures
        crate::providers::is_success(status) <==> status / 100 == 2,
{
}

} // verus!
