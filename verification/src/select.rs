//! From the model that a client asks for to the providers to ask, in order.
use vstd::arithmetic::div_mod::{lemma_fundamental_div_mod, lemma_fundamental_div_mod_converse};
use vstd::prelude::*;

use crate::error::path_id;
use crate::model::{
    ConfigSnapshot, Pool, PoolMember, PoolStrategy, PoolWithMembers, Provider, WireFormat,
};
use crate::table::{Row, Table};
use crate::text::{cut, find_from, lemma_find_is_occurs, occurs_at, owned, same, split_once};

verus! {

// ---------------------------------------------------------------------------
// Order by priority
// ---------------------------------------------------------------------------

/// `s` with `m` put behind every member that does not come after it.
pub open spec fn placed(s: Seq<PoolMember>, m: PoolMember) -> Seq<PoolMember>
    decreases s.len(),
{
    if s.len() == 0 || s.last().priority <= m.priority {
        s.push(m)
    } else {
        placed(s.drop_last(), m).push(s.last())
    }
}

/// The members in ascending order of their priority. Members of one priority
/// keep their order.
pub open spec fn by_priority(s: Seq<PoolMember>) -> Seq<PoolMember>
    decreases s.len(),
{
    if s.len() == 0 {
        seq![]
    } else {
        placed(by_priority(s.drop_last()), s.last())
    }
}

fn place(v: &mut Vec<PoolMember>, m: PoolMember)
    ensures
        final(v)@ == placed(old(v)@, m),
{
    let ghost s = v@;
    let mut i: usize = v.len();
    assert(s.subrange(0, i as int) =~= s);
    assert(placed(s, m) =~= placed(s.subrange(0, i as int), m) + s.subrange(
        i as int,
        s.len() as int,
    ));
    while i > 0 && v[i - 1].priority > m.priority
        invariant
            i <= v.len(),
            v@ == s,
            placed(s, m) == placed(s.subrange(0, i as int), m) + s.subrange(
                i as int,
                s.len() as int,
            ),
        decreases i,
    {
        assert(s.subrange(0, i as int).drop_last() =~= s.subrange(0, i - 1));
        assert(placed(s.subrange(0, i as int), m) + s.subrange(i as int, s.len() as int) =~= placed(
            s.subrange(0, i - 1),
            m,
        ) + s.subrange(i - 1, s.len() as int));
        i -= 1;
    }
    v.insert(i, m);
    assert(v@ =~= placed(s, m));
}

fn sorted_members(members: &Vec<PoolMember>) -> (r: Vec<PoolMember>)
    ensures
        r@ == by_priority(members@),
{
    let mut out: Vec<PoolMember> = Vec::new();
    let mut i: usize = 0;
    while i < members.len()
        invariant
            i <= members.len(),
            out@ == by_priority(members@.subrange(0, i as int)),
        decreases members.len() - i,
    {
        assert(members@.subrange(0, i + 1).drop_last() =~= members@.subrange(0, i as int));
        place(&mut out, members[i].copy());
        i += 1;
    }
    assert(members@.subrange(0, i as int) =~= members@);
    out
}

/// The members of one priority, in order.
pub open spec fn of_priority(s: Seq<PoolMember>, p: i64) -> Seq<PoolMember>
    decreases s.len(),
{
    if s.len() == 0 {
        seq![]
    } else if s.last().priority == p {
        of_priority(s.drop_last(), p).push(s.last())
    } else {
        of_priority(s.drop_last(), p)
    }
}

/// No member stands before one of a lower priority number.
pub open spec fn in_order(s: Seq<PoolMember>) -> bool {
    forall|i: int, j: int|
        0 <= i < j < s.len() ==> (#[trigger] s[i]).priority <= (#[trigger] s[j]).priority
}

proof fn lemma_placed(s: Seq<PoolMember>, m: PoolMember, p: i64)
    requires
        in_order(s),
    ensures
        in_order(placed(s, m)),
        placed(s, m).to_multiset() == s.push(m).to_multiset(),
        placed(s, m).len() == s.len() + 1,
        placed(s, m).last().priority == if s.len() > 0 && s.last().priority > m.priority {
            s.last().priority
        } else {
            m.priority
        },
        of_priority(placed(s, m), p) == if m.priority == p {
            of_priority(s, p).push(m)
        } else {
            of_priority(s, p)
        },
    decreases s.len(),
{
    broadcast use vstd::seq_lib::group_to_multiset_ensures;

    if s.len() == 0 || s.last().priority <= m.priority {
        assert(s.push(m).drop_last() =~= s);
    } else {
        let d = s.drop_last();
        lemma_placed(d, m, p);
        let t = placed(d, m);
        assert(t.push(s.last()).drop_last() =~= t);
        assert(t.push(s.last()).to_multiset() =~= t.to_multiset().insert(s.last()));
        assert(d.push(m).to_multiset() =~= d.to_multiset().insert(m));
        assert(d.push(s.last()) =~= s);
        assert(s.to_multiset() =~= d.to_multiset().insert(s.last()));
        assert(s.push(m).to_multiset() =~= s.to_multiset().insert(m));
        assert(t.push(s.last()).to_multiset() =~= s.push(m).to_multiset());
        assert forall|i: int| 0 <= i < t.len() implies (#[trigger] t[i]).priority
            <= s.last().priority by {
            assert(t[i].priority <= t.last().priority);
            if d.len() > 0 {
                assert(d.last() == s[s.len() - 2]);
            }
        }
    }
}

/// Sorting keeps every member, puts them in ascending order of priority, and
/// leaves members of one priority in the order they had.
pub proof fn law_sorted_by_priority(s: Seq<PoolMember>, p: i64)
    ensures
        by_priority(s).to_multiset() == s.to_multiset(),
        in_order(by_priority(s)),
        of_priority(by_priority(s), p) == of_priority(s, p),
    decreases s.len(),
{
    broadcast use vstd::seq_lib::group_to_multiset_ensures;

    if s.len() > 0 {
        let d = s.drop_last();
        law_sorted_by_priority(d, p);
        lemma_placed(by_priority(d), s.last(), p);
        assert(d.push(s.last()) =~= s);
        assert(by_priority(d).push(s.last()).to_multiset() =~= by_priority(d).to_multiset().insert(
            s.last(),
        ));
        assert(s.to_multiset() =~= d.to_multiset().insert(s.last()));
    }
}

// ---------------------------------------------------------------------------
// Taking turns
// ---------------------------------------------------------------------------

/// Whose turn it is in a pool, and how many requests it has had.
#[derive(Clone, Copy, Debug, PartialEq, Eq, Structural)]
pub struct RotationState {
    pub index: u64,
    pub consecutive_uses: u32,
}

/// The first member's turn, before its first request.
pub open spec fn first_turn() -> RotationState {
    RotationState { index: 0, consecutive_uses: 0 }
}

impl Default for RotationState {
    fn default() -> (r: RotationState)
        ensures
            r == first_turn(),
    {
        RotationState { index: 0, consecutive_uses: 0 }
    }
}

/// How many requests a turn has: what the pool says, in 32 bits, or one where
/// it says none or no positive number.
pub open spec fn turn_length(limit: Option<i64>) -> int {
    match limit {
        Some(n) if n > 0 => if n > u32::MAX {
            u32::MAX as int
        } else {
            n as int
        },
        _ => 1,
    }
}

pub fn normalize_sticky_limit(sticky_limit: Option<i64>) -> (r: u32)
    ensures
        r as int == turn_length(sticky_limit),
{
    match sticky_limit {
        Some(n) => if n > u32::MAX as i64 {
            u32::MAX
        } else if n > 0 {
            n as u32
        } else {
            1
        },
        None => 1,
    }
}

/// The member whose turn it is.
pub open spec fn turn_head(s: RotationState, len: int) -> int {
    s.index as int % len
}

/// The state after one more request.
pub open spec fn after_turn(s: RotationState, limit: int, len: int) -> RotationState {
    if s.consecutive_uses + 1 >= limit {
        RotationState { index: ((turn_head(s, len) + 1) % len) as u64, consecutive_uses: 0 }
    } else {
        RotationState {
            index: turn_head(s, len) as u64,
            consecutive_uses: (s.consecutive_uses + 1) as u32,
        }
    }
}

/// The `k`-th member of `s`, then the others in the order in which `s` has them.
pub open spec fn rotated(s: Seq<PoolMember>, k: int) -> Seq<PoolMember> {
    seq![s[k]] + s.subrange(0, k) + s.subrange(k + 1, s.len() as int)
}

/// Puts the member whose turn it is first, leaves the others in their order
/// behind it, and counts the request.
pub fn rotate_members(members: Vec<PoolMember>, state: &mut RotationState, limit: u32) -> (r: Vec<
    PoolMember,
>)
    requires
        members.len() > 0,
    ensures
        r@ == rotated(members@, turn_head(*old(state), members.len() as int)),
        *final(state) == after_turn(*old(state), limit as int, members.len() as int),
{
    let len: u64 = members.len() as u64;
    let head: u64 = state.index % len;
    let mut turned = members;
    let first = turned.remove(head as usize);
    turned.insert(0, first);
    proof {
        let k = head as int;
        assert(turned@ =~= rotated(members@, k));
    }
    if state.consecutive_uses as u64 + 1 >= limit as u64 {
        state.index = (head + 1) % len;
        state.consecutive_uses = 0;
    } else {
        state.index = head;
        state.consecutive_uses = state.consecutive_uses + 1;
    }
    turned
}

/// Only the head changes: putting the `k`-th member first loses none, moves each
/// of those before it back by one, and leaves those after it where they were.
pub proof fn law_rotation_keeps_members(s: Seq<PoolMember>, k: int)
    requires
        0 <= k < s.len(),
    ensures
        rotated(s, k).to_multiset() == s.to_multiset(),
        rotated(s, k).len() == s.len(),
        rotated(s, k)[0] == s[k],
        forall|i: int| 0 <= i < k ==> #[trigger] rotated(s, k)[i + 1] == s[i],
        forall|i: int| k < i < s.len() ==> #[trigger] rotated(s, k)[i] == s[i],
{
    broadcast use vstd::seq_lib::group_to_multiset_ensures;

    let first = seq![s[k]];
    let before = s.subrange(0, k);
    let behind = s.subrange(k + 1, s.len() as int);
    vstd::seq_lib::lemma_multiset_commutative(first, before);
    vstd::seq_lib::lemma_multiset_commutative(before, first);
    vstd::seq_lib::lemma_multiset_commutative(first + before, behind);
    vstd::seq_lib::lemma_multiset_commutative(before + first, behind);
    assert(before + first + behind =~= s);
}

/// The state after `n` requests, from the first turn on.
pub open spec fn after_turns(n: nat, limit: int, len: int) -> RotationState
    decreases n,
{
    if n == 0 {
        first_turn()
    } else {
        after_turn(after_turns((n - 1) as nat, limit, len), limit, len)
    }
}

/// Members take turns: from the first request on, each has `limit` requests in
/// a row, one member after the other, round and round.
pub proof fn law_members_take_turns(n: nat, limit: int, len: int)
    requires
        1 <= limit <= u32::MAX,
        0 < len <= u64::MAX,
    ensures
        after_turns(n, limit, len).consecutive_uses as int == n as int % limit,
        turn_head(after_turns(n, limit, len), len) == (n as int / limit) % len,
        after_turns(n, limit, len).index < len,
    decreases n,
{
    if n == 0 {
        assert(0int % limit == 0) by (nonlinear_arith)
            requires
                limit >= 1,
        ;
        assert(0int / limit == 0) by (nonlinear_arith)
            requires
                limit >= 1,
        ;
        assert(0int % len == 0) by (nonlinear_arith)
            requires
                len >= 1,
        ;
    } else {
        let m = (n - 1) as nat;
        law_members_take_turns(m, limit, len);
        let s = after_turns(m, limit, len);
        let q = m as int / limit;
        let u = m as int % limit;
        lemma_fundamental_div_mod(m as int, limit);
        assert(m as int == limit * q + u);
        assert(0 <= u < limit) by (nonlinear_arith)
            requires
                limit >= 1,
                u == m as int % limit,
        ;
        let head = turn_head(s, len);
        assert(0 <= head < len) by (nonlinear_arith)
            requires
                len >= 1,
                head == s.index as int % len,
        ;
        if u + 1 >= limit {
            assert(n as int == limit * (q + 1) + 0) by (nonlinear_arith)
                requires
                    n == m + 1,
                    m as int == limit * q + u,
                    u + 1 == limit,
            ;
            lemma_fundamental_div_mod_converse(n as int, limit, q + 1, 0);
            assert((q + 1) % len == ((q % len) + 1) % len) by {
                vstd::arithmetic::div_mod::lemma_add_mod_noop(q, 1, len);
                vstd::arithmetic::div_mod::lemma_add_mod_noop(q % len, 1, len);
                vstd::arithmetic::div_mod::lemma_mod_twice(q, len);
            }
            let i = (head + 1) % len;
            assert(0 <= i < len) by (nonlinear_arith)
                requires
                    len >= 1,
                    i == (head + 1) % len,
            ;
            vstd::arithmetic::div_mod::lemma_small_mod(i as nat, len as nat);
        } else {
            assert(n as int == limit * q + (u + 1));
            lemma_fundamental_div_mod_converse(n as int, limit, q, u + 1);
            vstd::arithmetic::div_mod::lemma_small_mod(head as nat, len as nat);
        }
    }
}

// ---------------------------------------------------------------------------
// The turns of all pools
// ---------------------------------------------------------------------------

/// The turn that a row keeps.
pub open spec fn turn_of(row: Row) -> RotationState {
    RotationState {
        index: row.0,
        consecutive_uses: if row.1 > u32::MAX {
            u32::MAX
        } else {
            row.1 as u32
        },
    }
}

/// Whose turn it is in each pool.
pub struct RotationTable {
    table: Table,
}

impl View for RotationTable {
    type V = Map<Seq<char>, RotationState>;

    closed spec fn view(&self) -> Map<Seq<char>, RotationState> {
        self.table@.map_values(|row: Row| turn_of(row))
    }
}

/// The turn of a pool; the first one where none was had.
pub open spec fn turn_in(m: Map<Seq<char>, RotationState>, pool: Seq<char>) -> RotationState {
    if m.contains_key(pool) {
        m[pool]
    } else {
        first_turn()
    }
}

impl RotationTable {
    pub fn new() -> (r: RotationTable)
        ensures
            r@ == Map::<Seq<char>, RotationState>::empty(),
    {
        let r = RotationTable { table: Table::new() };
        assert(r@ =~= Map::<Seq<char>, RotationState>::empty());
        r
    }

    /// The turn of a pool; the first one where none was had.
    pub fn get(&self, pool: &str) -> (r: RotationState)
        ensures
            r == turn_in(self@, pool@),
    {
        match self.table.get(pool) {
            Some(row) => RotationState {
                index: row.0,
                consecutive_uses: if row.1 > u32::MAX as u64 {
                    u32::MAX
                } else {
                    row.1 as u32
                },
            },
            None => RotationState { index: 0, consecutive_uses: 0 },
        }
    }

    pub fn insert(&mut self, pool: &str, state: RotationState)
        ensures
            final(self)@ == old(self)@.insert(pool@, state),
    {
        let ghost before = self@;
        self.table.set(pool, (state.index, state.consecutive_uses as u64, None));
        assert(self@ =~= before.insert(pool@, state));
    }

    /// Forgets the turns of a pool.
    pub fn remove(&mut self, pool: &str)
        ensures
            final(self)@ == old(self)@.remove(pool@),
    {
        let ghost before = self@;
        self.table.remove(pool);
        assert(self@ =~= before.remove(pool@));
    }
}

// ---------------------------------------------------------------------------
// Selection
// ---------------------------------------------------------------------------

/// A provider to ask, for which model, and whether the pool says to record.
pub type Choice = (Provider, Seq<char>, Option<bool>);

/// The providers to ask, in order.
pub struct Selection<'a> {
    /// The pool, unless a provider was named.
    pub pool: Option<&'a Pool>,
    pub providers: Vec<(&'a Provider, String, Option<bool>)>,
}

/// What a list of providers to ask stands for.
pub open spec fn choices_view(v: Seq<(&Provider, String, Option<bool>)>) -> Seq<Choice> {
    v.map_values(|t: (&Provider, String, Option<bool>)| (*t.0, t.1@, t.2))
}

/// Whether to record an exchange: as the member says, or else the provider.
pub fn dataset_logging_enabled(provider: &Provider, member_override: Option<bool>) -> (r: bool)
    ensures
        r == match member_override {
            Some(b) => b,
            None => provider.dataset_logging,
        },
{
    match member_override {
        Some(b) => b,
        None => provider.dataset_logging,
    }
}

/// The position of the first pool with an id.
pub open spec fn pool_index(pools: Seq<PoolWithMembers>, id: Seq<char>) -> Option<int>
    decreases pools.len(),
{
    if pools.len() == 0 {
        None
    } else {
        match pool_index(pools.drop_last(), id) {
            Some(i) => Some(i),
            None => if pools.last().pool.id@ == id {
                Some(pools.len() - 1)
            } else {
                None
            },
        }
    }
}

/// The position of the first provider with an id.
pub open spec fn provider_index(providers: Seq<Provider>, id: Seq<char>) -> Option<int>
    decreases providers.len(),
{
    if providers.len() == 0 {
        None
    } else {
        match provider_index(providers.drop_last(), id) {
            Some(i) => Some(i),
            None => if providers.last().id@ == id {
                Some(providers.len() - 1)
            } else {
                None
            },
        }
    }
}

fn find_pool(pools: &Vec<PoolWithMembers>, id: &str) -> (r: Option<usize>)
    ensures
        match r {
            Some(i) => i < pools.len() && pool_index(pools@, id@) == Some(i as int),
            None => pool_index(pools@, id@) is None,
        },
{
    let mut i: usize = 0;
    while i < pools.len()
        invariant
            i <= pools.len(),
            pool_index(pools@.subrange(0, i as int), id@) is None,
        decreases pools.len() - i,
    {
        assert(pools@.subrange(0, i + 1).drop_last() =~= pools@.subrange(0, i as int));
        if same(pools[i].pool.id.as_str(), id) {
            proof {
                lemma_pool_index_prefix(pools@, id@, i + 1);
            }
            return Some(i);
        }
        i += 1;
    }
    assert(pools@.subrange(0, i as int) =~= pools@);
    None
}

proof fn lemma_pool_index_prefix(pools: Seq<PoolWithMembers>, id: Seq<char>, k: int)
    requires
        0 <= k <= pools.len(),
        pool_index(pools.subrange(0, k), id) is Some,
    ensures
        pool_index(pools, id) == pool_index(pools.subrange(0, k), id),
    decreases pools.len(),
{
    if k < pools.len() {
        assert(pools.drop_last().subrange(0, k) =~= pools.subrange(0, k));
        lemma_pool_index_prefix(pools.drop_last(), id, k);
    } else {
        assert(pools.subrange(0, k) =~= pools);
    }
}

fn find_provider(providers: &Vec<Provider>, id: &str) -> (r: Option<usize>)
    ensures
        match r {
            Some(i) => i < providers.len() && provider_index(providers@, id@) == Some(i as int),
            None => provider_index(providers@, id@) is None,
        },
{
    let mut i: usize = 0;
    while i < providers.len()
        invariant
            i <= providers.len(),
            provider_index(providers@.subrange(0, i as int), id@) is None,
        decreases providers.len() - i,
    {
        assert(providers@.subrange(0, i + 1).drop_last() =~= providers@.subrange(0, i as int));
        if same(providers[i].id.as_str(), id) {
            proof {
                lemma_provider_index_prefix(providers@, id@, i + 1);
            }
            return Some(i);
        }
        i += 1;
    }
    assert(providers@.subrange(0, i as int) =~= providers@);
    None
}

proof fn lemma_provider_index_prefix(providers: Seq<Provider>, id: Seq<char>, k: int)
    requires
        0 <= k <= providers.len(),
        provider_index(providers.subrange(0, k), id) is Some,
    ensures
        provider_index(providers, id) == provider_index(providers.subrange(0, k), id),
    decreases providers.len(),
{
    if k < providers.len() {
        assert(providers.drop_last().subrange(0, k) =~= providers.subrange(0, k));
        lemma_provider_index_prefix(providers.drop_last(), id, k);
    } else {
        assert(providers.subrange(0, k) =~= providers);
    }
}

/// The providers of the members, each with the model to ask for. A member
/// whose provider is gone is passed over.
pub open spec fn choices(members: Seq<PoolMember>, providers: Seq<Provider>) -> Seq<Choice>
    decreases members.len(),
{
    if members.len() == 0 {
        seq![]
    } else {
        let rest = choices(members.drop_last(), providers);
        let m = members.last();
        match provider_index(providers, m.provider_id@) {
            Some(i) => rest.push(
                (
                    providers[i],
                    match m.model_override {
                        Some(model) => model@,
                        None => providers[i].upstream_model@,
                    },
                    m.dataset_logging_override,
                ),
            ),
            None => rest,
        }
    }
}

/// The members of a pool in the order in which this request tries them.
pub open spec fn turn_order(p: PoolWithMembers, turn: RotationState) -> Seq<PoolMember> {
    let members = by_priority(p.members@);
    if takes_turns(p) {
        rotated(members, turn_head(turn, members.len() as int))
    } else {
        members
    }
}

/// The pool's members take turns, and there are several.
pub open spec fn takes_turns(p: PoolWithMembers) -> bool {
    p.pool.strategy == PoolStrategy::RoundRobin && p.members@.len() > 1
}

/// What a selection stands for: the pool, unless a provider was named, and the
/// providers to ask.
pub struct SelectionView {
    pub pool: Option<Pool>,
    pub providers: Seq<Choice>,
}

impl<'a> View for Selection<'a> {
    type V = SelectionView;

    open spec fn view(&self) -> SelectionView {
        SelectionView {
            pool: match self.pool {
                Some(p) => Some(*p),
                None => None,
            },
            providers: choices_view(self.providers@),
        }
    }
}

/// A provider named with its model, as `provider/model`.
pub open spec fn direct(snapshot: ConfigSnapshot, requested: Seq<char>) -> Option<SelectionView> {
    match split_once(requested, "/"@) {
        None => None,
        Some((id, model)) => match provider_index(snapshot.providers@, id) {
            None => None,
            Some(i) => Some(
                SelectionView {
                    pool: None,
                    providers: seq![(snapshot.providers@[i], model, None)],
                },
            ),
        },
    }
}

/// Whom to ask for a requested model, and whose turn it is then. A pool of
/// that name decides, whatever comes of it; otherwise a provider may be named.
pub open spec fn selected(
    snapshot: ConfigSnapshot,
    requested: Seq<char>,
    wire: WireFormat,
    turns: Map<Seq<char>, RotationState>,
) -> (Option<SelectionView>, Map<Seq<char>, RotationState>) {
    match pool_index(snapshot.pools@, requested) {
        Some(i) => {
            let p = snapshot.pools@[i];
            if p.pool.wire_format != wire {
                (None, turns)
            } else {
                let turn = turn_in(turns, requested);
                (
                    Some(
                        SelectionView {
                            pool: Some(p.pool),
                            providers: choices(turn_order(p, turn), snapshot.providers@),
                        },
                    ),
                    if takes_turns(p) {
                        turns.insert(
                            requested,
                            after_turn(
                                turn,
                                turn_length(p.pool.sticky_limit),
                                p.members@.len() as int,
                            ),
                        )
                    } else {
                        turns
                    },
                )
            }
        },
        None => (direct(snapshot, requested), turns),
    }
}

/// What an optional selection stands for.
pub open spec fn opt_selection(s: Option<Selection>) -> Option<SelectionView> {
    match s {
        Some(x) => Some(x@),
        None => None,
    }
}

fn select_direct_provider<'a>(snapshot: &'a ConfigSnapshot, requested: &str) -> (r: Option<
    Selection<'a>,
>)
    ensures
        opt_selection(r) == direct(*snapshot, requested@),
{
    match cut(requested, "/") {
        None => None,
        Some((id, model)) => match find_provider(&snapshot.providers, id.as_str()) {
            None => None,
            Some(i) => {
                let mut providers: Vec<(&'a Provider, String, Option<bool>)> = Vec::new();
                providers.push((&snapshot.providers[i], model, None));
                assert(choices_view(providers@) =~= seq![
                    (snapshot.providers@[i as int], model@, None),
                ]);
                Some(Selection { pool: None, providers })
            },
        },
    }
}

proof fn lemma_sorted_len(s: Seq<PoolMember>)
    ensures
        by_priority(s).len() == s.len(),
    decreases s.len(),
{
    if s.len() > 0 {
        lemma_sorted_len(s.drop_last());
        lemma_placed_len(by_priority(s.drop_last()), s.last());
    }
}

proof fn lemma_placed_len(s: Seq<PoolMember>, m: PoolMember)
    ensures
        placed(s, m).len() == s.len() + 1,
    decreases s.len(),
{
    if !(s.len() == 0 || s.last().priority <= m.priority) {
        lemma_placed_len(s.drop_last(), m);
    }
}

/// Whom to ask for a requested model. Where a pool's members take turns, this
/// request counts.
pub fn select<'a>(
    snapshot: &'a ConfigSnapshot,
    pool_id: &str,
    wire: WireFormat,
    rotation: &mut RotationTable,
) -> (r: Option<Selection<'a>>)
    ensures
        (opt_selection(r), final(rotation)@) == selected(
            *snapshot,
            pool_id@,
            wire,
            old(rotation)@,
        ),
{
    match find_pool(&snapshot.pools, pool_id) {
        None => select_direct_provider(snapshot, pool_id),
        Some(i) => {
            let p = &snapshot.pools[i];
            if p.pool.wire_format != wire {
                return None;
            }
            proof {
                lemma_sorted_len(p.members@);
            }
            let mut members = sorted_members(&p.members);
            if p.pool.strategy == PoolStrategy::RoundRobin && members.len() > 1 {
                let mut turn = rotation.get(pool_id);
                members = rotate_members(
                    members,
                    &mut turn,
                    normalize_sticky_limit(p.pool.sticky_limit),
                );
                rotation.insert(pool_id, turn);
            }
            let ghost order = turn_order(*p, turn_in(old(rotation)@, pool_id@));
            assert(members@ == order);
            let mut providers: Vec<(&'a Provider, String, Option<bool>)> = Vec::new();
            let mut j: usize = 0;
            assert(choices_view(providers@) =~= choices(order.subrange(0, 0), snapshot.providers@));
            while j < members.len()
                invariant
                    j <= members.len(),
                    members@ == order,
                    choices_view(providers@) == choices(
                        order.subrange(0, j as int),
                        snapshot.providers@,
                    ),
                decreases members.len() - j,
            {
                assert(order.subrange(0, j + 1).drop_last() =~= order.subrange(0, j as int));
                let m = &members[j];
                let ghost before = providers@;
                match find_provider(&snapshot.providers, m.provider_id.as_str()) {
                    Some(k) => {
                        let provider = &snapshot.providers[k];
                        let model = match &m.model_override {
                            Some(model) => owned(model.as_str()),
                            None => owned(provider.upstream_model.as_str()),
                        };
                        providers.push((provider, model, m.dataset_logging_override));
                        assert(choices_view(providers@) =~= choices_view(before).push(
                            (*provider, model@, m.dataset_logging_override),
                        ));
                    },
                    None => {},
                }
                j += 1;
            }
            assert(order.subrange(0, j as int) =~= order);
            Some(Selection { pool: Some(&p.pool), providers })
        },
    }
}

// ---------------------------------------------------------------------------
// Laws
// ---------------------------------------------------------------------------

/// Naming a provider and a model finds that provider, whatever slashes the
/// model has: a provider's id has none.
pub proof fn law_direct_addressing(provider: Seq<char>, model: Seq<char>)
    requires
        path_id(provider),
    ensures
        split_once(provider + "/"@ + model, "/"@) == Some((provider, model)),
{
    reveal_strlit("/");
    let s = provider + "/"@ + model;
    let k = provider.len() as int;
    assert(s.subrange(k, k + 1) =~= "/"@);
    assert(occurs_at(s, "/"@, k));
    lemma_find_is_occurs(s, "/"@, 0);
    let i = find_from(s, "/"@, 0)->0;
    if i < k {
        assert(provider.subrange(i, i + 1) =~= s.subrange(i, i + 1));
        assert(occurs_at(provider, "/"@, i));
        assert(false);
    }
    assert(i == k);
    assert(s.subrange(0, k) =~= provider);
    assert(s.subrange(k + 1, s.len() as int) =~= model);
}

/// What could be a pool's id never names a provider: without such a pool there
/// is nobody to ask.
pub proof fn law_pool_ids_name_no_provider(
    snapshot: ConfigSnapshot,
    requested: Seq<char>,
    wire: WireFormat,
    turns: Map<Seq<char>, RotationState>,
)
    requires
        path_id(requested),
        pool_index(snapshot.pools@, requested) is None,
    ensures
        selected(snapshot, requested, wire, turns).0 is None,
{
    lemma_find_is_occurs(requested, "/"@, 0);
}

/// A pool answers only in its own wire format, and then decides alone; naming a
/// provider counts only where no pool has the name that was asked for.
pub proof fn law_pools_come_first(
    snapshot: ConfigSnapshot,
    requested: Seq<char>,
    wire: WireFormat,
    turns: Map<Seq<char>, RotationState>,
)
    ensures
        match pool_index(snapshot.pools@, requested) {
            Some(i) => match selected(snapshot, requested, wire, turns).0 {
                Some(view) => snapshot.pools@[i].pool.wire_format == wire && view.pool == Some(
                    snapshot.pools@[i].pool,
                ),
                None => snapshot.pools@[i].pool.wire_format != wire,
            },
            None => match selected(snapshot, requested, wire, turns).0 {
                Some(view) => view.pool is None && view.providers.len() == 1,
                None => true,
            },
        },
{
}

proof fn lemma_choices_add(a: Seq<PoolMember>, b: Seq<PoolMember>, providers: Seq<Provider>)
    ensures
        choices(a + b, providers) == choices(a, providers) + choices(b, providers),
    decreases b.len(),
{
    if b.len() == 0 {
        assert(a + b =~= a);
        assert(choices(a, providers) + choices(b, providers) =~= choices(a, providers));
    } else {
        lemma_choices_add(a, b.drop_last(), providers);
        assert((a + b).drop_last() =~= a + b.drop_last());
        assert((a + b).last() == b.last());
        assert(choices(a + b, providers) =~= choices(a, providers) + choices(b, providers));
    }
}

/// Two choices of members, one behind the other, as one collection.
proof fn lemma_choices_bag(a: Seq<PoolMember>, b: Seq<PoolMember>, providers: Seq<Provider>)
    ensures
        choices(a + b, providers).to_multiset() == choices(a, providers).to_multiset().add(
            choices(b, providers).to_multiset(),
        ),
{
    lemma_choices_add(a, b, providers);
    vstd::seq_lib::lemma_multiset_commutative(choices(a, providers), choices(b, providers));
}

proof fn lemma_placed_choices(s: Seq<PoolMember>, m: PoolMember, providers: Seq<Provider>)
    ensures
        choices(placed(s, m), providers).to_multiset() == choices(
            s.push(m),
            providers,
        ).to_multiset(),
    decreases s.len(),
{
    if s.len() > 0 && s.last().priority > m.priority {
        let d = s.drop_last();
        let l = s.last();
        lemma_placed_choices(d, m, providers);
        lemma_choices_bag(placed(d, m), seq![l], providers);
        lemma_choices_bag(d, seq![m], providers);
        lemma_choices_bag(d, seq![l], providers);
        lemma_choices_bag(d + seq![l], seq![m], providers);
        assert(placed(d, m).push(l) =~= placed(d, m) + seq![l]);
        assert(d.push(m) =~= d + seq![m]);
        assert(s.push(m) =~= d + seq![l] + seq![m]);
        assert(choices(placed(s, m), providers).to_multiset() =~= choices(
            s.push(m),
            providers,
        ).to_multiset());
    }
}

proof fn lemma_sorted_choices(s: Seq<PoolMember>, providers: Seq<Provider>)
    ensures
        choices(by_priority(s), providers).to_multiset() == choices(s, providers).to_multiset(),
    decreases s.len(),
{
    if s.len() > 0 {
        let d = s.drop_last();
        lemma_sorted_choices(d, providers);
        lemma_placed_choices(by_priority(d), s.last(), providers);
        lemma_choices_bag(by_priority(d), seq![s.last()], providers);
        lemma_choices_bag(d, seq![s.last()], providers);
        assert(by_priority(d).push(s.last()) =~= by_priority(d) + seq![s.last()]);
        assert(s =~= d + seq![s.last()]);
    }
}

/// Whoever's turn it is, every member of a pool that has a provider gets its
/// chance, and nobody else.
pub proof fn law_every_member_gets_its_chance(
    p: PoolWithMembers,
    turn: RotationState,
    providers: Seq<Provider>,
)
    ensures
        choices(turn_order(p, turn), providers).to_multiset() == choices(
            p.members@,
            providers,
        ).to_multiset(),
{
    let s = by_priority(p.members@);
    lemma_sorted_choices(p.members@, providers);
    if takes_turns(p) {
        lemma_by_priority_len(p.members@);
        let k = turn_head(turn, s.len() as int);
        let first = seq![s[k]];
        let before = s.subrange(0, k);
        let behind = s.subrange(k + 1, s.len() as int);
        lemma_choices_bag(first, before, providers);
        lemma_choices_bag(before, first, providers);
        lemma_choices_bag(first + before, behind, providers);
        lemma_choices_bag(before + first, behind, providers);
        assert(before + first + behind =~= s);
        assert(choices(rotated(s, k), providers).to_multiset() =~= choices(
            s,
            providers,
        ).to_multiset());
    }
}

proof fn lemma_by_priority_len(s: Seq<PoolMember>)
    ensures
        by_priority(s).len() == s.len(),
{
    law_sorted_by_priority(s, 0);
    by_priority(s).to_multiset_ensures();
    s.to_multiset_ensures();
}

} // verus!
