//! Changing pools and their members.
use vstd::prelude::*;

use crate::error::{AppError, AppErrorView};
use crate::model::{
    text_view, ConfigSnapshot, Pool, PoolMember, PoolStrategy, PoolWithMembers, Provider,
    WireFormat,
};
use crate::text::{concat3, owned, same};

verus! {

/// A change to a pool. What is none stays as it is.
pub struct PoolPatch {
    pub strategy: Option<PoolStrategy>,
    pub sticky_limit: Option<i64>,
}

/// The strategy and the length of a turn that a change leaves a pool with.
pub fn patched_strategy(pool: &Pool, patch: &PoolPatch) -> (r: (PoolStrategy, Option<i64>))
    ensures
        r.0 == match patch.strategy {
            Some(s) => s,
            None => pool.strategy,
        },
        r.1 == match patch.sticky_limit {
            Some(n) => Some(n),
            None => pool.sticky_limit,
        },
{
    let strategy = match patch.strategy {
        Some(s) => s,
        None => pool.strategy,
    };
    let sticky_limit = match patch.sticky_limit {
        Some(n) => Some(n),
        None => pool.sticky_limit,
    };
    (strategy, sticky_limit)
}

/// A model that stands in place of a provider's own; an empty one stands for
/// none.
pub open spec fn real_override(o: Option<Seq<char>>) -> Option<Seq<char>> {
    match o {
        Some(s) if s.len() > 0 => Some(s),
        _ => None,
    }
}

/// The model to store for a member.
pub fn stored_override(o: &Option<String>) -> (r: Option<String>)
    ensures
        text_view(r) == real_override(text_view(*o)),
{
    match o {
        Some(s) => if s.as_str().is_empty() {
            None
        } else {
            Some(owned(s.as_str()))
        },
        None => None,
    }
}

/// Two members are one and the same: they stand for one provider and one model
/// in one pool.
pub open spec fn same_member(a: PoolMember, b: PoolMember) -> bool {
    &&& a.pool_id@ == b.pool_id@
    &&& a.provider_id@ == b.provider_id@
    &&& real_override(text_view(a.model_override)) == real_override(text_view(b.model_override))
}

/// What is stored of a member is that member, and an empty model is stored as
/// none.
pub proof fn law_stored_member_is_the_same(m: PoolMember, stored: PoolMember)
    requires
        stored.pool_id@ == m.pool_id@,
        stored.provider_id@ == m.provider_id@,
        text_view(stored.model_override) == real_override(text_view(m.model_override)),
    ensures
        same_member(m, stored),
        stored.model_override matches Some(s) ==> s@.len() > 0,
{
}

/// The error of a pool whose id is taken.
pub fn already_exists(id: &str) -> (r: AppError)
    ensures
        r@ == AppErrorView::Conflict("pool '"@ + id@ + "' already exists"@),
{
    AppError::Conflict(concat3("pool '", id, "' already exists"))
}

// ---------------------------------------------------------------------------
// Pools for providers that are in none
// ---------------------------------------------------------------------------

/// A member for this provider is in the pool.
pub open spec fn serves(pool: PoolWithMembers, provider: Seq<char>) -> bool {
    exists|j: int|
        0 <= j < pool.members@.len() && (#[trigger] pool.members@[j]).provider_id@ == provider
}

/// The provider is in a pool.
pub open spec fn assigned(pools: Seq<PoolWithMembers>, provider: Seq<char>) -> bool {
    exists|i: int| 0 <= i < pools.len() && serves(#[trigger] pools[i], provider)
}

/// There is a pool of this name.
pub open spec fn pool_exists(pools: Seq<PoolWithMembers>, id: Seq<char>) -> bool {
    exists|i: int| 0 <= i < pools.len() && (#[trigger] pools[i]).pool.id@ == id
}

/// There is a pool of this name in this wire format.
pub open spec fn pool_fits(pools: Seq<PoolWithMembers>, id: Seq<char>, wire: WireFormat) -> bool {
    exists|i: int|
        0 <= i < pools.len() && (#[trigger] pools[i]).pool.id@ == id && pools[i].pool.wire_format
            == wire
}

/// A provider needs a pool of its own: it is in none, and none has its name.
pub open spec fn needs_pool(pools: Seq<PoolWithMembers>, p: Provider) -> bool {
    !assigned(pools, p.id@) && !pool_exists(pools, p.id@)
}

/// A provider needs a place in the pool of its name, which is new or speaks its
/// wire format.
pub open spec fn needs_member(pools: Seq<PoolWithMembers>, p: Provider) -> bool {
    !assigned(pools, p.id@) && (!pool_exists(pools, p.id@) || pool_fits(
        pools,
        p.id@,
        p.wire_format,
    ))
}

/// What a provider's own pool is.
pub open spec fn is_direct_pool(pool: Pool, p: Provider) -> bool {
    &&& pool.id@ == p.id@
    &&& pool.wire_format == p.wire_format
    &&& pool.created_at == p.created_at
    &&& pool.strategy == PoolStrategy::Priority
    &&& pool.sticky_limit is None
}

/// What a provider's place in the pool of its name is.
pub open spec fn is_direct_member(m: PoolMember, p: Provider) -> bool {
    &&& m.pool_id@ == p.id@
    &&& m.provider_id@ == p.id@
    &&& m.priority == 1
    &&& m.model_override is None
    &&& m.dataset_logging_override is None
}

/// The pools are those of the providers, one for one.
pub open spec fn are_direct_pools(pools: Seq<Pool>, providers: Seq<Provider>) -> bool {
    pools.len() == providers.len() && forall|i: int|
        0 <= i < pools.len() ==> is_direct_pool(#[trigger] pools[i], providers[i])
}

/// The members are those of the providers, one for one.
pub open spec fn are_direct_members(members: Seq<PoolMember>, providers: Seq<Provider>) -> bool {
    members.len() == providers.len() && forall|i: int|
        0 <= i < members.len() ==> is_direct_member(#[trigger] members[i], providers[i])
}

/// The providers that need a pool.
pub open spec fn without_pool(s: ConfigSnapshot) -> Seq<Provider> {
    s.providers@.filter(|p: Provider| needs_pool(s.pools@, p))
}

/// The providers that need a place in a pool.
pub open spec fn without_place(s: ConfigSnapshot) -> Seq<Provider> {
    s.providers@.filter(|p: Provider| needs_member(s.pools@, p))
}

fn is_served(pool: &PoolWithMembers, provider: &str) -> (r: bool)
    ensures
        r == serves(*pool, provider@),
{
    let mut j: usize = 0;
    while j < pool.members.len()
        invariant
            j <= pool.members.len(),
            forall|k: int| 0 <= k < j ==> (#[trigger] pool.members@[k]).provider_id@ != provider@,
        decreases pool.members.len() - j,
    {
        if same(pool.members[j].provider_id.as_str(), provider) {
            assert(pool.members@[j as int].provider_id@ == provider@);
            return true;
        }
        j += 1;
    }
    false
}

fn is_assigned(pools: &Vec<PoolWithMembers>, provider: &str) -> (r: bool)
    ensures
        r == assigned(pools@, provider@),
{
    let mut i: usize = 0;
    while i < pools.len()
        invariant
            i <= pools.len(),
            forall|k: int| 0 <= k < i ==> !serves(#[trigger] pools@[k], provider@),
        decreases pools.len() - i,
    {
        if is_served(&pools[i], provider) {
            assert(serves(pools@[i as int], provider@));
            return true;
        }
        i += 1;
    }
    false
}

/// Whether a pool has this name, and whether one of them has this wire format.
fn find_pool(pools: &Vec<PoolWithMembers>, id: &str, wire: WireFormat) -> (r: (bool, bool))
    ensures
        r.0 == pool_exists(pools@, id@),
        r.1 == pool_fits(pools@, id@, wire),
{
    let mut i: usize = 0;
    let mut exists_one = false;
    while i < pools.len()
        invariant
            i <= pools.len(),
            exists_one ==> pool_exists(pools@, id@),
            !exists_one ==> forall|k: int|
                0 <= k < i ==> (#[trigger] pools@[k]).pool.id@ != id@,
            forall|k: int|
                0 <= k < i && (#[trigger] pools@[k]).pool.id@ == id@ ==> pools@[k].pool.wire_format
                    != wire,
        decreases pools.len() - i,
    {
        if same(pools[i].pool.id.as_str(), id) {
            assert(pools@[i as int].pool.id@ == id@);
            exists_one = true;
            if pools[i].pool.wire_format == wire {
                return (true, true);
            }
        }
        i += 1;
    }
    (exists_one, false)
}

/// The pools and members to add so that providers which are in no pool can be
/// asked under their own name.
pub fn direct_pools(s: &ConfigSnapshot) -> (r: (Vec<Pool>, Vec<PoolMember>))
    ensures
        are_direct_pools(r.0@, without_pool(*s)),
        are_direct_members(r.1@, without_place(*s)),
{
    let mut pools: Vec<Pool> = Vec::new();
    let mut members: Vec<PoolMember> = Vec::new();
    let ghost pick_pool = |p: Provider| needs_pool(s.pools@, p);
    let ghost pick_member = |p: Provider| needs_member(s.pools@, p);
    let mut i: usize = 0;
    proof {
        reveal(Seq::filter);
        assert(s.providers@.subrange(0, 0) =~= seq![]);
    }
    while i < s.providers.len()
        invariant
            i <= s.providers.len(),
            pick_pool == (|p: Provider| needs_pool(s.pools@, p)),
            pick_member == (|p: Provider| needs_member(s.pools@, p)),
            are_direct_pools(pools@, s.providers@.subrange(0, i as int).filter(pick_pool)),
            are_direct_members(members@, s.providers@.subrange(0, i as int).filter(pick_member)),
        decreases s.providers.len() - i,
    {
        let p = &s.providers[i];
        proof {
            reveal(Seq::filter);
            let next = s.providers@.subrange(0, i + 1);
            assert(next.drop_last() =~= s.providers@.subrange(0, i as int));
            assert(next.last() == *p);
        }
        if !is_assigned(&s.pools, p.id.as_str()) {
            let found = find_pool(&s.pools, p.id.as_str(), p.wire_format);
            if !found.0 {
                pools.push(
                    Pool {
                        id: p.id.clone(),
                        wire_format: p.wire_format,
                        created_at: p.created_at,
                        strategy: PoolStrategy::Priority,
                        sticky_limit: None,
                    },
                );
            }
            if !found.0 || found.1 {
                members.push(
                    PoolMember {
                        pool_id: p.id.clone(),
                        provider_id: p.id.clone(),
                        priority: 1,
                        model_override: None,
                        dataset_logging_override: None,
                    },
                );
            }
        }
        i += 1;
    }
    assert(s.providers@.subrange(0, i as int) =~= s.providers@);
    (pools, members)
}

/// Every provider ends up in a pool, unless the pool of its name speaks the
/// other wire format.
pub proof fn law_every_provider_finds_a_place(s: ConfigSnapshot, i: int)
    requires
        0 <= i < s.providers@.len(),
        !assigned(s.pools@, s.providers@[i].id@),
    ensures
        without_place(s).contains(s.providers@[i]) || (pool_exists(
            s.pools@,
            s.providers@[i].id@,
        ) && !pool_fits(s.pools@, s.providers@[i].id@, s.providers@[i].wire_format)),
{
    let p = s.providers@[i];
    let pick = |p: Provider| needs_member(s.pools@, p);
    if needs_member(s.pools@, p) {
        s.providers@.lemma_filter_contains(pick, i);
    }
}

} // verus!
