//! Whom a request is sent to: the pool or the provider that was named, and its
//! members with their models, in order.
use vstd::prelude::*;

use crate::error::path_id;
use crate::model::{
    ConfigSnapshot, PoolMember, PoolStrategy, PoolWithMembers, Provider, WireFormat,
};
use crate::select::{
    by_priority, choices, direct, law_direct_addressing, pool_index, provider_index, selected,
    turn_in, turn_length, turn_order, Choice, RotationState,
};

verus! {

/// The `i`-th pool is the first of this name.
pub open spec fn first_pool(pools: Seq<PoolWithMembers>, i: int, id: Seq<char>) -> bool {
    &&& 0 <= i < pools.len()
    &&& pools[i].pool.id@ == id
    &&& forall|j: int| 0 <= j < i ==> (#[trigger] pools[j]).pool.id@ != id
}

/// The `i`-th provider is the first of this id.
pub open spec fn first_provider(providers: Seq<Provider>, i: int, id: Seq<char>) -> bool {
    &&& 0 <= i < providers.len()
    &&& providers[i].id@ == id
    &&& forall|j: int| 0 <= j < i ==> (#[trigger] providers[j]).id@ != id
}

/// There is a provider with this id.
pub open spec fn provider_there(providers: Seq<Provider>, id: Seq<char>) -> bool {
    exists|i: int| 0 <= i < providers.len() && (#[trigger] providers[i]).id@ == id
}

proof fn lemma_pool_index(pools: Seq<PoolWithMembers>, id: Seq<char>)
    ensures
        match pool_index(pools, id) {
            Some(i) => first_pool(pools, i, id),
            None => forall|j: int| 0 <= j < pools.len() ==> (#[trigger] pools[j]).pool.id@ != id,
        },
    decreases pools.len(),
{
    if pools.len() > 0 {
        let rest = pools.drop_last();
        lemma_pool_index(rest, id);
        assert forall|j: int| 0 <= j < rest.len() implies rest[j] == pools[j] by {}
        match pool_index(rest, id) {
            Some(i) => {
                assert(rest[i] == pools[i]);
                assert forall|j: int| 0 <= j < i implies (#[trigger] pools[j]).pool.id@ != id by {
                    assert(rest[j] == pools[j]);
                }
            },
            None => {
                assert forall|j: int| 0 <= j < rest.len() implies (#[trigger] pools[j]).pool.id@
                    != id by {
                    assert(rest[j] == pools[j]);
                }
            },
        }
    }
}

proof fn lemma_provider_index(providers: Seq<Provider>, id: Seq<char>)
    ensures
        match provider_index(providers, id) {
            Some(i) => first_provider(providers, i, id),
            None => !provider_there(providers, id),
        },
    decreases providers.len(),
{
    if providers.len() > 0 {
        let rest = providers.drop_last();
        lemma_provider_index(rest, id);
        match provider_index(rest, id) {
            Some(i) => {
                assert(rest[i] == providers[i]);
                assert forall|j: int| 0 <= j < i implies (#[trigger] providers[j]).id@ != id by {
                    assert(rest[j] == providers[j]);
                }
            },
            None => {
                assert forall|j: int| 0 <= j < rest.len() implies (#[trigger] providers[j]).id@
                    != id by {
                    assert(rest[j] == providers[j]);
                }
            },
        }
    }
}

/// The choice is the member's: its provider, with the model that the member puts
/// in place of the provider's own, and what the member says of recording.
pub open spec fn is_choice(c: Choice, m: PoolMember, providers: Seq<Provider>) -> bool {
    &&& exists|i: int| first_provider(providers, i, m.provider_id@) && c.0 == providers[i]
    &&& c.0.id@ == m.provider_id@
    &&& m.model_override is Some ==> c.1 == m.model_override->0@
    &&& m.model_override is None ==> c.1 == c.0.upstream_model@
    &&& c.2 == m.dataset_logging_override
}

/// The members whose provider is there, in order.
pub open spec fn present(members: Seq<PoolMember>, providers: Seq<Provider>) -> Seq<PoolMember> {
    members.filter(|m: PoolMember| provider_there(providers, m.provider_id@))
}

proof fn lemma_choices(members: Seq<PoolMember>, providers: Seq<Provider>)
    ensures
        choices(members, providers).len() == present(members, providers).len(),
        forall|i: int|
            0 <= i < present(members, providers).len() ==> is_choice(
                choices(members, providers)[i],
                #[trigger] present(members, providers)[i],
                providers,
            ),
    decreases members.len(),
{
    reveal(Seq::filter);
    if members.len() > 0 {
        let m = members.last();
        lemma_choices(members.drop_last(), providers);
        lemma_provider_index(providers, m.provider_id@);
        match provider_index(providers, m.provider_id@) {
            Some(i) => {
                assert(first_provider(providers, i, m.provider_id@));
                assert(provider_there(providers, m.provider_id@));
            },
            None => {},
        }
    }
}

/// The order in which a request tries the members of a pool: by priority; where
/// they take turns, the one whose turn it is comes first.
pub open spec fn trying_order(p: PoolWithMembers, turn: RotationState) -> Seq<PoolMember> {
    let members = by_priority(p.members@);
    if p.pool.strategy == PoolStrategy::RoundRobin && p.members@.len() > 1 {
        let k = turn.index as int % members.len() as int;
        seq![members[k]] + members.subrange(0, k) + members.subrange(k + 1, members.len() as int)
    } else {
        members
    }
}

/// A pool that speaks the client's wire format is answered for by its members
/// whose providers are there, one each and in order, each with its model.
pub proof fn law_pool_is_tried_in_order(
    snapshot: ConfigSnapshot,
    i: int,
    requested: Seq<char>,
    wire: WireFormat,
    turns: Map<Seq<char>, RotationState>,
    k: int,
)
    requires
        first_pool(snapshot.pools@, i, requested),
        snapshot.pools@[i].pool.wire_format == wire,
    ensures
        ({
            let p = snapshot.pools@[i];
            let turn = if turns.contains_key(requested) {
                turns[requested]
            } else {
                RotationState { index: 0, consecutive_uses: 0 }
            };
            let members = present(trying_order(p, turn), snapshot.providers@);
            let view = selected(snapshot, requested, wire, turns).0;
            &&& view is Some
            &&& view->0.pool == Some(p.pool)
            &&& view->0.providers.len() == members.len()
            &&& 0 <= k < members.len() ==> is_choice(
                view->0.providers[k],
                members[k],
                snapshot.providers@,
            )
        }),
{
    lemma_pool_index(snapshot.pools@, requested);
    let j = pool_index(snapshot.pools@, requested)->0;
    if j < i {
        assert(snapshot.pools@[j].pool.id@ != requested);
    }
    if i < j {
        assert(snapshot.pools@[i].pool.id@ != requested);
    }
    let p = snapshot.pools@[i];
    let turn = turn_in(turns, requested);
    assert(turn_order(p, turn) == trying_order(p, turn));
    lemma_choices(trying_order(p, turn), snapshot.providers@);
}

/// A pool that speaks the other wire format answers for nobody, and no turn is
/// counted.
pub proof fn law_other_format_is_refused(
    snapshot: ConfigSnapshot,
    i: int,
    requested: Seq<char>,
    wire: WireFormat,
    turns: Map<Seq<char>, RotationState>,
)
    requires
        first_pool(snapshot.pools@, i, requested),
        snapshot.pools@[i].pool.wire_format != wire,
    ensures
        selected(snapshot, requested, wire, turns).0 is None,
        selected(snapshot, requested, wire, turns).1 == turns,
{
    lemma_pool_index(snapshot.pools@, requested);
    let j = pool_index(snapshot.pools@, requested)->0;
    if j < i {
        assert(snapshot.pools@[j].pool.id@ != requested);
    }
    if i < j {
        assert(snapshot.pools@[i].pool.id@ != requested);
    }
}

/// Where no pool has the name, `provider/model` asks that provider for that
/// model, whatever wire format the client speaks, and nobody else.
pub proof fn law_named_provider_is_asked(
    snapshot: ConfigSnapshot,
    i: int,
    provider: Seq<char>,
    model: Seq<char>,
    wire: WireFormat,
    turns: Map<Seq<char>, RotationState>,
)
    requires
        path_id(provider),
        first_provider(snapshot.providers@, i, provider),
        forall|j: int|
            0 <= j < snapshot.pools@.len() ==> (#[trigger] snapshot.pools@[j]).pool.id@ != provider
                + "/"@ + model,
    ensures
        ({
            let (view, after) = selected(snapshot, provider + "/"@ + model, wire, turns);
            &&& after == turns
            &&& view is Some
            &&& view->0.pool is None
            &&& view->0.providers.len() == 1
            &&& view->0.providers[0].0 == snapshot.providers@[i]
            &&& view->0.providers[0].1 == model
            &&& view->0.providers[0].2 is None
        }),
{
    let requested = provider + "/"@ + model;
    law_direct_addressing(provider, model);
    lemma_pool_index(snapshot.pools@, requested);
    if let Some(j) = pool_index(snapshot.pools@, requested) {
        assert(snapshot.pools@[j].pool.id@ != requested);
    }
    lemma_provider_index(snapshot.providers@, provider);
    match provider_index(snapshot.providers@, provider) {
        Some(j) => {
            if j < i {
                assert(snapshot.providers@[j].id@ != provider);
            }
            if i < j {
                assert(snapshot.providers@[i].id@ != provider);
            }
        },
        None => {
            assert(snapshot.providers@[i].id@ == provider);
        },
    }
    assert(direct(snapshot, requested) is Some);
}

/// A name without a pool whose provider is not there finds nobody.
pub proof fn law_unknown_provider_is_nobody(
    snapshot: ConfigSnapshot,
    provider: Seq<char>,
    model: Seq<char>,
    wire: WireFormat,
    turns: Map<Seq<char>, RotationState>,
)
    requires
        path_id(provider),
        !provider_there(snapshot.providers@, provider),
        forall|j: int|
            0 <= j < snapshot.pools@.len() ==> (#[trigger] snapshot.pools@[j]).pool.id@ != provider
                + "/"@ + model,
    ensures
        selected(snapshot, provider + "/"@ + model, wire, turns).0 is None,
{
    let requested = provider + "/"@ + model;
    law_direct_addressing(provider, model);
    lemma_pool_index(snapshot.pools@, requested);
    if let Some(j) = pool_index(snapshot.pools@, requested) {
        assert(snapshot.pools@[j].pool.id@ != requested);
    }
    lemma_provider_index(snapshot.providers@, provider);
    if let Some(j) = provider_index(snapshot.providers@, provider) {
        assert(snapshot.providers@[j].id@ == provider);
    }
}

/// A turn has as many requests as the pool says, and one where it says none; a
/// number too large to count to is counted as far as it goes.
pub proof fn law_turns_are_as_long_as_set(limit: Option<i64>)
    ensures
        limit is None ==> turn_length(limit) == 1,
        limit matches Some(n) ==> n <= 0 ==> turn_length(limit) == 1,
        limit matches Some(n) ==> 0 < n <= 0xffff_ffff ==> turn_length(limit) == n,
        limit matches Some(n) ==> n > 0xffff_ffff ==> turn_length(limit) == 0xffff_ffff,
{
}

/// In a pool whose members take turns, a request counts for whoever's turn it is:
/// the turn goes on until it has had its requests, and then it is the next
/// member's, the first one's behind the last; other pools are left alone. In any
/// other pool no turn is counted.
pub proof fn law_requests_count_in_their_pool(
    snapshot: ConfigSnapshot,
    i: int,
    requested: Seq<char>,
    wire: WireFormat,
    turns: Map<Seq<char>, RotationState>,
    other: Seq<char>,
)
    requires
        first_pool(snapshot.pools@, i, requested),
        snapshot.pools@[i].pool.wire_format == wire,
    ensures
        ({
            let p = snapshot.pools@[i];
            let len = p.members@.len() as int;
            let was = if turns.contains_key(requested) {
                turns[requested]
            } else {
                RotationState { index: 0, consecutive_uses: 0 }
            };
            let after = selected(snapshot, requested, wire, turns).1;
            let head = was.index as int % len;
            let limit: int = match p.pool.sticky_limit {
                Some(n) => if n <= 0 {
                    1
                } else if n <= 0xffff_ffff {
                    n as int
                } else {
                    0xffff_ffff
                },
                None => 1,
            };
            if p.pool.strategy == PoolStrategy::RoundRobin && len > 1 {
                &&& after.contains_key(requested)
                &&& was.consecutive_uses + 1 < limit ==> after[requested].index == head
                    && after[requested].consecutive_uses == was.consecutive_uses + 1
                &&& was.consecutive_uses + 1 >= limit ==> after[requested].consecutive_uses == 0
                    && after[requested].index == if head + 1 < len {
                    head + 1
                } else {
                    0
                }
                &&& other != requested ==> after.contains_key(other) == turns.contains_key(other)
                &&& other != requested && turns.contains_key(other) ==> after[other] == turns[other]
            } else {
                after == turns
            }
        }),
{
    lemma_pool_index(snapshot.pools@, requested);
    let j = pool_index(snapshot.pools@, requested)->0;
    if j < i {
        assert(snapshot.pools@[j].pool.id@ != requested);
    }
    if i < j {
        assert(snapshot.pools@[i].pool.id@ != requested);
    }
    let p = snapshot.pools@[i];
    let len = p.members@.len() as int;
    let was = turn_in(turns, requested);
    assert(p.members.len() == p.members@.len());
    if len > 1 {
        let head = was.index as int % len;
        assert(0 <= head < len) by (nonlinear_arith)
            requires
                len > 1,
                head == was.index as int % len,
        ;
        if head + 1 < len {
            vstd::arithmetic::div_mod::lemma_small_mod((head + 1) as nat, len as nat);
        } else {
            vstd::arithmetic::div_mod::lemma_mod_self_0(len);
        }
    }
}

} // verus!
