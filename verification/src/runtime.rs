//! How each provider and model has been doing, and whether it may be asked now.
//! Times are milliseconds on a clock of the caller's, and rests are seconds.
use vstd::prelude::*;

use crate::table::{Row, Table};
use crate::text::{concat2, concat3, has_prefix, starts_with, texts};

verus! {

#[derive(Clone, Copy, Debug, PartialEq, Eq, Structural)]
pub enum ProviderStatus {
    Healthy,
    Cooling,
    Misconfigured,
}

/// How one provider and model has been doing.
#[derive(Clone, Copy, Debug, PartialEq, Eq, Structural)]
pub struct ProviderRuntimeState {
    pub backoff_level: u8,
    pub unavailable_until: Option<u64>,
    pub status: ProviderStatus,
}

/// The state of a provider that nothing is held against.
pub open spec fn healthy() -> ProviderRuntimeState {
    ProviderRuntimeState {
        backoff_level: 0,
        unavailable_until: None,
        status: ProviderStatus::Healthy,
    }
}

impl Default for ProviderRuntimeState {
    fn default() -> (r: ProviderRuntimeState)
        ensures
            r == healthy(),
    {
        ProviderRuntimeState {
            backoff_level: 0,
            unavailable_until: None,
            status: ProviderStatus::Healthy,
        }
    }
}

impl ProviderRuntimeState {
    /// It may be asked at this time.
    pub open spec fn available(self, now: u64) -> bool {
        self.status != ProviderStatus::Misconfigured && match self.unavailable_until {
            Some(until) => now >= until,
            None => true,
        }
    }

    /// The state after a failure that a rest may mend.
    pub open spec fn rested(self, cooldown: u64, now: u64) -> ProviderRuntimeState {
        ProviderRuntimeState {
            backoff_level: if self.backoff_level == 255 {
                255
            } else {
                (self.backoff_level + 1) as u8
            },
            unavailable_until: Some((now + cooldown * 1000) as u64),
            status: ProviderStatus::Cooling,
        }
    }

    /// The state after a failure that only a person can mend.
    pub open spec fn misconfigured(self) -> ProviderRuntimeState {
        ProviderRuntimeState {
            status: ProviderStatus::Misconfigured,
            unavailable_until: None,
            ..self
        }
    }

    /// Whether it may be asked at this time.
    pub fn is_available(&self, now: u64) -> (r: bool)
        ensures
            r == self.available(now),
    {
        if self.status == ProviderStatus::Misconfigured {
            return false;
        }
        match self.unavailable_until {
            Some(until) => now >= until,
            None => true,
        }
    }

    pub fn record_success(&mut self)
        ensures
            *final(self) == healthy(),
    {
        self.backoff_level = 0;
        self.unavailable_until = None;
        self.status = ProviderStatus::Healthy;
    }

    /// Forgets what was held against it.
    pub fn reset_to_healthy(&mut self)
        ensures
            *final(self) == healthy(),
    {
        self.backoff_level = 0;
        self.unavailable_until = None;
        self.status = ProviderStatus::Healthy;
    }

    pub fn record_retryable(&mut self, cooldown: u64, now: u64)
        requires
            now + cooldown * 1000 <= u64::MAX,
        ensures
            *final(self) == old(self).rested(cooldown, now),
    {
        self.backoff_level = self.backoff_level.saturating_add(1);
        self.unavailable_until = Some(now + cooldown * 1000);
        self.status = ProviderStatus::Cooling;
    }

    pub fn mark_misconfigured(&mut self)
        ensures
            *final(self) == old(self).misconfigured(),
    {
        self.status = ProviderStatus::Misconfigured;
        self.unavailable_until = None;
    }
}

// ---------------------------------------------------------------------------
// Keys
// ---------------------------------------------------------------------------

/// What stands between provider and model in a key.
pub open spec fn separator() -> Seq<char> {
    "\u{1f}"@
}

/// The key under which a provider's model is kept.
pub open spec fn key_of(provider: Seq<char>, model: Seq<char>) -> Seq<char> {
    provider + separator() + model
}

/// What every key of a provider begins with.
pub open spec fn prefix_of(provider: Seq<char>) -> Seq<char> {
    provider + separator()
}

/// The key under which a provider's model is kept.
pub fn runtime_key(provider_id: &str, model: &str) -> (r: String)
    ensures
        r@ == key_of(provider_id@, model@),
{
    concat3(provider_id, "\u{1f}", model)
}

/// What every key of a provider begins with.
pub fn runtime_key_prefix(provider_id: &str) -> (r: String)
    ensures
        r@ == prefix_of(provider_id@),
{
    concat2(provider_id, "\u{1f}")
}

/// The separator stands nowhere in the text.
pub open spec fn no_separator(s: Seq<char>) -> bool {
    forall|i: int| 0 <= i < s.len() ==> #[trigger] s[i] != '\u{1f}'
}

/// A key begins with the prefix of its own provider and of no other, however
/// the two ids resemble each other.
pub proof fn law_key_belongs_to_one_provider(p: Seq<char>, model: Seq<char>, q: Seq<char>)
    requires
        no_separator(p),
        no_separator(q),
    ensures
        has_prefix(key_of(p, model), prefix_of(q)) <==> p == q,
{
    reveal_strlit("\u{1f}");
    let k = key_of(p, model);
    let pre = prefix_of(q);
    assert(separator()[0] == '\u{1f}' && separator().len() == 1);
    assert(k[p.len() as int] == '\u{1f}');
    if has_prefix(k, pre) {
        assert(pre[q.len() as int] == '\u{1f}');
        assert(k.subrange(0, pre.len() as int)[q.len() as int] == k[q.len() as int]);
        assert(k[q.len() as int] == '\u{1f}');
        if q.len() < p.len() {
            assert(k[q.len() as int] == p[q.len() as int]);
        }
        if p.len() < q.len() {
            assert(k.subrange(0, pre.len() as int)[p.len() as int] == k[p.len() as int]);
            assert(pre[p.len() as int] == q[p.len() as int]);
        }
        assert(p.len() == q.len());
        assert forall|i: int| 0 <= i < p.len() implies p[i] == q[i] by {
            assert(k[i] == p[i]);
            assert(pre[i] == q[i]);
            assert(k.subrange(0, pre.len() as int)[i] == k[i]);
        }
        assert(p =~= q);
    }
    if p == q {
        assert(k.subrange(0, pre.len() as int) =~= pre);
    }
}

/// Different models of a provider, and different providers, have different keys.
pub proof fn law_keys_differ(p: Seq<char>, m: Seq<char>, q: Seq<char>, n: Seq<char>)
    requires
        no_separator(p),
        no_separator(q),
        key_of(p, m) == key_of(q, n),
    ensures
        p == q,
        m == n,
{
    reveal_strlit("\u{1f}");
    assert(key_of(q, n).subrange(0, prefix_of(q).len() as int) =~= prefix_of(q));
    law_key_belongs_to_one_provider(p, m, q);
    assert(m =~= key_of(p, m).subrange(prefix_of(p).len() as int, key_of(p, m).len() as int));
    assert(n =~= key_of(q, n).subrange(prefix_of(q).len() as int, key_of(q, n).len() as int));
}

// ---------------------------------------------------------------------------
// The table
// ---------------------------------------------------------------------------

/// The state that a row keeps.
pub open spec fn state_of(row: Row) -> ProviderRuntimeState {
    ProviderRuntimeState {
        backoff_level: if row.0 > 255 {
            255
        } else {
            row.0 as u8
        },
        unavailable_until: row.2,
        status: if row.1 == 0 {
            ProviderStatus::Healthy
        } else if row.1 == 1 {
            ProviderStatus::Cooling
        } else {
            ProviderStatus::Misconfigured
        },
    }
}

/// How bad a status is.
pub open spec fn rank(status: ProviderStatus) -> int {
    match status {
        ProviderStatus::Healthy => 0,
        ProviderStatus::Cooling => 1,
        ProviderStatus::Misconfigured => 2,
    }
}

/// `a` is at least as bad as `b`: by status, then by level.
pub open spec fn as_bad_as(a: ProviderRuntimeState, b: ProviderRuntimeState) -> bool {
    rank(a.status) > rank(b.status) || (rank(a.status) == rank(b.status) && a.backoff_level
        >= b.backoff_level)
}

fn rank_of(status: ProviderStatus) -> (r: u64)
    ensures
        r as int == rank(status),
{
    match status {
        ProviderStatus::Healthy => 0,
        ProviderStatus::Cooling => 1,
        ProviderStatus::Misconfigured => 2,
    }
}

fn row_of(state: ProviderRuntimeState) -> (r: Row)
    ensures
        state_of(r) == state,
{
    (state.backoff_level as u64, rank_of(state.status), state.unavailable_until)
}

fn state_from(row: Row) -> (r: ProviderRuntimeState)
    ensures
        r == state_of(row),
{
    ProviderRuntimeState {
        backoff_level: if row.0 > 255 {
            255
        } else {
            row.0 as u8
        },
        unavailable_until: row.2,
        status: if row.1 == 0 {
            ProviderStatus::Healthy
        } else if row.1 == 1 {
            ProviderStatus::Cooling
        } else {
            ProviderStatus::Misconfigured
        },
    }
}

/// How all providers and models have been doing, under their keys.
pub struct RuntimeTable {
    table: Table,
}

impl View for RuntimeTable {
    type V = Map<Seq<char>, ProviderRuntimeState>;

    closed spec fn view(&self) -> Map<Seq<char>, ProviderRuntimeState> {
        self.table@.map_values(|row: Row| state_of(row))
    }
}

/// The states with one operation done to every one whose key begins with a
/// provider's prefix.
pub open spec fn on_provider(
    m: Map<Seq<char>, ProviderRuntimeState>,
    provider: Seq<char>,
    f: spec_fn(ProviderRuntimeState) -> ProviderRuntimeState,
) -> Map<Seq<char>, ProviderRuntimeState> {
    Map::new(
        |k: Seq<char>| m.contains_key(k),
        |k: Seq<char>|
            if has_prefix(k, prefix_of(provider)) {
                f(m[k])
            } else {
                m[k]
            },
    )
}

impl RuntimeTable {
    /// Nothing is known of any provider.
    pub fn new() -> (r: RuntimeTable)
        ensures
            r@ == Map::<Seq<char>, ProviderRuntimeState>::empty(),
    {
        let r = RuntimeTable { table: Table::new() };
        assert(r@ =~= Map::<Seq<char>, ProviderRuntimeState>::empty());
        r
    }

    /// The state under a key, where there is one.
    pub fn get(&self, key: &str) -> (r: Option<ProviderRuntimeState>)
        ensures
            r == if self@.contains_key(key@) {
                Some(self@[key@])
            } else {
                None
            },
    {
        match self.table.get(key) {
            Some(row) => Some(state_from(row)),
            None => None,
        }
    }

    /// Sets the state under a key.
    pub fn set(&mut self, key: &str, state: ProviderRuntimeState)
        ensures
            final(self)@ == old(self)@.insert(key@, state),
    {
        let ghost before = self@;
        let row = row_of(state);
        self.table.set(key, row);
        assert(self@ =~= before.insert(key@, state));
    }

    /// The state under a key; where there was none, a healthy one is kept there
    /// from now on.
    pub fn entry(&mut self, key: &str) -> (r: ProviderRuntimeState)
        ensures
            r == if old(self)@.contains_key(key@) {
                old(self)@[key@]
            } else {
                healthy()
            },
            final(self)@ =~= old(self)@.insert(key@, r),
    {
        match self.get(key) {
            Some(state) => state,
            None => {
                let state = ProviderRuntimeState {
                    backoff_level: 0,
                    unavailable_until: None,
                    status: ProviderStatus::Healthy,
                };
                self.set(key, state);
                state
            },
        }
    }
}

/// The state that a provider's word on itself leaves: sound, or in need of a
/// person.
spec fn judged(s: ProviderRuntimeState, sound: bool) -> ProviderRuntimeState {
    if sound {
        healthy()
    } else {
        s.misconfigured()
    }
}

/// Judges every state of a provider, whatever the model.
fn judge_provider(map: &mut RuntimeTable, provider_id: &str, sound: bool)
    ensures
        final(map)@ == on_provider(
            old(map)@,
            provider_id@,
            |s: ProviderRuntimeState| judged(s, sound),
        ),
{
    let ghost before = map@;
    let ghost f = |s: ProviderRuntimeState| judged(s, sound);
    let keys = map.table.keys();
    let prefix = runtime_key_prefix(provider_id);
    let mut i: usize = 0;
    while i < keys.len()
        invariant
            i <= keys.len(),
            prefix@ == prefix_of(provider_id@),
            f == |s: ProviderRuntimeState| judged(s, sound),
            texts(keys@).no_duplicates(),
            forall|k: Seq<char>| texts(keys@).contains(k) <==> before.contains_key(k),
            map@.dom() =~= before.dom(),
            forall|j: int|
                0 <= j < i ==> map@[#[trigger] texts(keys@)[j]] == on_provider(
                    before,
                    provider_id@,
                    f,
                )[texts(keys@)[j]],
            forall|j: int|
                i <= j < keys.len() ==> map@[#[trigger] texts(keys@)[j]] == before[texts(
                    keys@,
                )[j]],
        decreases keys.len() - i,
    {
        let ghost here = texts(keys@)[i as int];
        assert(here == keys@[i as int]@);
        assert(texts(keys@).contains(here));
        if starts_with(keys[i].as_str(), prefix.as_str()) {
            let mut state = map.entry(keys[i].as_str());
            if sound {
                state.reset_to_healthy();
            } else {
                state.mark_misconfigured();
            }
            map.set(keys[i].as_str(), state);
        }
        i += 1;
    }
    assert forall|k: Seq<char>| #[trigger] before.contains_key(k) implies map@[k] == on_provider(
        before,
        provider_id@,
        f,
    )[k] by {
        assert(texts(keys@).contains(k));
        let j = choose|j: int| 0 <= j < texts(keys@).len() && texts(keys@)[j] == k;
        assert(texts(keys@)[j] == k);
    }
    assert(map@ =~= on_provider(before, provider_id@, f));
}

/// Resets every state of a provider, whatever the model.
pub fn reset_provider_to_healthy(map: &mut RuntimeTable, provider_id: &str)
    ensures
        final(map)@ == on_provider(old(map)@, provider_id@, |s: ProviderRuntimeState| healthy()),
{
    judge_provider(map, provider_id, true);
    assert(map@ =~= on_provider(
        old(map)@,
        provider_id@,
        |s: ProviderRuntimeState| healthy(),
    ));
}

/// Marks every state of a provider, whatever the model, as one that only a
/// person can mend.
pub fn mark_provider_misconfigured(map: &mut RuntimeTable, provider_id: &str)
    ensures
        final(map)@ == on_provider(
            old(map)@,
            provider_id@,
            |s: ProviderRuntimeState| s.misconfigured(),
        ),
{
    judge_provider(map, provider_id, false);
    assert(map@ =~= on_provider(
        old(map)@,
        provider_id@,
        |s: ProviderRuntimeState| s.misconfigured(),
    ));
}

/// The key is one of the provider's in the table.
pub open spec fn kept_for(
    m: Map<Seq<char>, ProviderRuntimeState>,
    provider: Seq<char>,
    k: Seq<char>,
) -> bool {
    m.contains_key(k) && has_prefix(k, prefix_of(provider))
}

/// The worst state of a provider, over all of its models. Which of several
/// equally bad ones is returned is left open.
pub fn worst_provider_state(map: &RuntimeTable, provider_id: &str) -> (r: Option<
    ProviderRuntimeState,
>)
    ensures
        match r {
            Some(s) => (exists|k: Seq<char>|
                #[trigger] kept_for(map@, provider_id@, k) && map@[k] == s) && (forall|
                k: Seq<char>,
            | #[trigger]
                kept_for(map@, provider_id@, k) ==> as_bad_as(s, map@[k])),
            None => forall|k: Seq<char>| !(#[trigger] kept_for(map@, provider_id@, k)),
        },
{
    let keys = map.table.keys();
    let prefix = runtime_key_prefix(provider_id);
    let mut worst: Option<ProviderRuntimeState> = None;
    let mut i: usize = 0;
    while i < keys.len()
        invariant
            i <= keys.len(),
            prefix@ == prefix_of(provider_id@),
            forall|k: Seq<char>| texts(keys@).contains(k) <==> map@.contains_key(k),
            match worst {
                Some(s) => (exists|k: Seq<char>|
                    #[trigger] kept_for(map@, provider_id@, k) && map@[k] == s) && (forall|j: int|
                    0 <= j < i && kept_for(map@, provider_id@, #[trigger] texts(keys@)[j])
                        ==> as_bad_as(s, map@[texts(keys@)[j]])),
                None => forall|j: int|
                    0 <= j < i ==> !kept_for(map@, provider_id@, #[trigger] texts(keys@)[j]),
            },
        decreases keys.len() - i,
    {
        let ghost here = texts(keys@)[i as int];
        assert(here == keys@[i as int]@);
        assert(texts(keys@).contains(here));
        if starts_with(keys[i].as_str(), prefix.as_str()) {
            assert(kept_for(map@, provider_id@, here));
            match map.get(keys[i].as_str()) {
                Some(candidate) => {
                    let replace = match worst {
                        None => true,
                        Some(current) => rank_of(candidate.status) > rank_of(current.status) || (
                        rank_of(candidate.status) == rank_of(current.status)
                            && candidate.backoff_level > current.backoff_level),
                    };
                    if replace {
                        worst = Some(candidate);
                    }
                },
                None => {},
            }
        }
        i += 1;
    }
    assert forall|k: Seq<char>| #[trigger] kept_for(map@, provider_id@, k) implies exists|j: int|
        0 <= j < keys.len() && texts(keys@)[j] == k by {
        assert(texts(keys@).contains(k));
    }
    worst
}

// ---------------------------------------------------------------------------
// Laws
// ---------------------------------------------------------------------------

/// What is misconfigured is never asked, whenever it is, until it is reset or
/// succeeds; then it is asked again at once.
pub proof fn law_misconfigured_until_reset(s: ProviderRuntimeState, now: u64)
    ensures
        !s.misconfigured().available(now),
        healthy().available(now),
{
}

/// What rests is not asked before its rest is over, and is asked from then on.
pub proof fn law_rest_ends(s: ProviderRuntimeState, cooldown: u64, now: u64, later: u64)
    requires
        now + cooldown * 1000 <= u64::MAX,
    ensures
        s.rested(cooldown, now).available(later) <==> later >= now + cooldown * 1000,
{
}

/// What is done to one provider leaves every other as it was.
pub proof fn law_providers_do_not_share_state(
    m: Map<Seq<char>, ProviderRuntimeState>,
    p: Seq<char>,
    f: spec_fn(ProviderRuntimeState) -> ProviderRuntimeState,
    q: Seq<char>,
    model: Seq<char>,
)
    requires
        no_separator(p),
        no_separator(q),
        m.contains_key(key_of(q, model)),
    ensures
        on_provider(m, p, f)[key_of(q, model)] == if p == q {
            f(m[key_of(q, model)])
        } else {
            m[key_of(q, model)]
        },
{
    law_key_belongs_to_one_provider(q, model, p);
}


/// What only a person can mend is worse than what rests, and that is worse than what
/// is sound; of two of one kind the one with more failures is worse.
pub proof fn law_what_is_worse(a: ProviderRuntimeState, b: ProviderRuntimeState)
    ensures
        a.status == ProviderStatus::Misconfigured && b.status != ProviderStatus::Misconfigured
            ==> as_bad_as(a, b) && !as_bad_as(b, a),
        a.status == ProviderStatus::Cooling && b.status == ProviderStatus::Healthy ==> as_bad_as(
            a,
            b,
        ) && !as_bad_as(b, a),
        a.status == b.status ==> (as_bad_as(a, b) <==> a.backoff_level >= b.backoff_level),
{
}

/// One more failure raises the level by one, up to the last, and sets a time before
/// which the provider is not asked; a provider that only a person can mend keeps its
/// level and waits for no time; one that is sound has nothing held against it.
pub proof fn law_states_after_events(s: ProviderRuntimeState, cooldown: u64, now: u64)
    requires
        now + cooldown * 1000 <= u64::MAX,
    ensures
        s.backoff_level < 255 ==> s.rested(cooldown, now).backoff_level == s.backoff_level + 1,
        s.backoff_level == 255 ==> s.rested(cooldown, now).backoff_level == 255,
        s.rested(cooldown, now).status == ProviderStatus::Cooling,
        s.rested(cooldown, now).unavailable_until == Some((now + 1000 * cooldown) as u64),
        s.misconfigured().status == ProviderStatus::Misconfigured,
        s.misconfigured().unavailable_until is None,
        s.misconfigured().backoff_level == s.backoff_level,
        healthy().status == ProviderStatus::Healthy,
        healthy().unavailable_until is None,
        healthy().backoff_level == 0,
{
}

/// A provider may be asked unless only a person can mend it or its time has not
/// come.
pub proof fn law_who_may_be_asked(s: ProviderRuntimeState, now: u64)
    ensures
        s.available(now) <==> s.status != ProviderStatus::Misconfigured && (s.unavailable_until
            is None || now >= s.unavailable_until->0),
{
}

/// A key names its provider and its model, with a character between them that stands
/// in no id.
pub proof fn law_keys_name_both(p: Seq<char>, model: Seq<char>)
    ensures
        key_of(p, model) == p + seq!['\u{1f}'] + model,
        prefix_of(p) == p + seq!['\u{1f}'],
{
    reveal_strlit("\u{1f}");
    assert("\u{1f}"@ =~= seq!['\u{1f}']);
}

} // verus!
