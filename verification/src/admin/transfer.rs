//! Taking the whole configuration out, and putting one in.
use vstd::prelude::*;

use crate::json::{obj, Json, JsonView};
use crate::model::{ConfigSnapshot, Pool, PoolMember, PoolWithMembers, Provider};

verus! {

/// All providers, pools and members. The keys of the providers are among them.
#[derive(Clone, Debug)]
pub struct ExportDump {
    pub providers: Vec<Provider>,
    pub pools: Vec<Pool>,
    pub members: Vec<PoolMember>,
}

/// The members of all pools, pool by pool.
pub open spec fn members_of(pools: Seq<PoolWithMembers>) -> Seq<PoolMember>
    decreases pools.len(),
{
    if pools.len() == 0 {
        seq![]
    } else {
        members_of(pools.drop_last()) + pools.last().members@
    }
}

/// The whole configuration, as it is taken out.
pub fn export(snapshot: &ConfigSnapshot) -> (r: ExportDump)
    ensures
        r.providers@ == snapshot.providers@,
        r.pools@ == snapshot.pools@.map_values(|p: PoolWithMembers| p.pool),
        r.members@ == members_of(snapshot.pools@),
{
    let mut providers: Vec<Provider> = Vec::new();
    let mut i: usize = 0;
    while i < snapshot.providers.len()
        invariant
            i <= snapshot.providers.len(),
            providers@ =~= snapshot.providers@.subrange(0, i as int),
        decreases snapshot.providers.len() - i,
    {
        providers.push(snapshot.providers[i].copy());
        i += 1;
    }
    let mut pools: Vec<Pool> = Vec::new();
    let mut members: Vec<PoolMember> = Vec::new();
    let mut j: usize = 0;
    while j < snapshot.pools.len()
        invariant
            j <= snapshot.pools.len(),
            pools@ =~= snapshot.pools@.subrange(0, j as int).map_values(|p: PoolWithMembers| p.pool),
            members@ == members_of(snapshot.pools@.subrange(0, j as int)),
        decreases snapshot.pools.len() - j,
    {
        let ghost before = members@;
        let from = &snapshot.pools[j].members;
        pools.push(snapshot.pools[j].pool.copy());
        let mut k: usize = 0;
        while k < from.len()
            invariant
                k <= from.len(),
                members@ =~= before + from@.subrange(0, k as int),
            decreases from.len() - k,
        {
            members.push(from[k].copy());
            k += 1;
        }
        assert(snapshot.pools@.subrange(0, j + 1).drop_last() =~= snapshot.pools@.subrange(
            0,
            j as int,
        ));
        assert(from@.subrange(0, k as int) =~= from@);
        j += 1;
    }
    assert(snapshot.pools@.subrange(0, j as int) =~= snapshot.pools@);
    assert(snapshot.providers@.subrange(0, i as int) =~= snapshot.providers@);
    ExportDump { providers, pools, members }
}

/// How much was put in.
pub fn imported_body(dump: &ExportDump) -> (r: Json)
    ensures
        r@ == obj().put(
            "imported"@,
            obj().put("providers"@, JsonView::Int(dump.providers@.len() as int)).put(
                "pools"@,
                JsonView::Int(dump.pools@.len() as int),
            ).put("members"@, JsonView::Int(dump.members@.len() as int)),
        ),
{
    Json::object().with(
        "imported",
        Json::object().with("providers", Json::unsigned(dump.providers.len() as u64)).with(
            "pools",
            Json::unsigned(dump.pools.len() as u64),
        ).with("members", Json::unsigned(dump.members.len() as u64)),
    )
}

/// A member of some pool is taken out with the rest.
pub proof fn law_export_holds_every_member(pools: Seq<PoolWithMembers>, i: int, j: int)
    requires
        0 <= i < pools.len(),
        0 <= j < pools[i].members@.len(),
    ensures
        members_of(pools).contains(pools[i].members@[j]),
    decreases pools.len(),
{
    let m = pools[i].members@[j];
    let before = members_of(pools.drop_last());
    if i == pools.len() - 1 {
        assert(members_of(pools)[before.len() + j] == m);
    } else {
        law_export_holds_every_member(pools.drop_last(), i, j);
        let k = before.index_of(m);
        assert(members_of(pools)[k] == m);
    }
}

} // verus!
