//! A small table from numbers to numbers, kept in ascending order of its keys.
use std::collections::BTreeMap;
use vstd::prelude::*;
use vstd::std_specs::btree::increasing_seq;
use vstd::std_specs::cmp::OrdSpec;
use vstd::std_specs::iter::IteratorSpec;

verus! {

/// Pairs of a key and a value.
pub type Pairs = Seq<(u64, u64)>;

/// Each key is below the next.
pub open spec fn ascending(s: Pairs) -> bool {
    forall|i: int, j: int| 0 <= i < j < s.len() ==> (#[trigger] s[i]).0 < (#[trigger] s[j]).0
}

/// The value that stands with a key.
pub open spec fn entry(s: Pairs, key: u64) -> Option<u64>
    decreases s.len(),
{
    if s.len() == 0 {
        None
    } else if s.last().0 == key {
        Some(s.last().1)
    } else {
        entry(s.drop_last(), key)
    }
}

/// The pairs with the value of one key set: in place where the key is there,
/// otherwise before the first greater key.
pub open spec fn entered(s: Pairs, key: u64, value: u64) -> Pairs
    decreases s.len(),
{
    if s.len() == 0 {
        seq![(key, value)]
    } else if s.last().0 == key {
        s.drop_last().push((key, value))
    } else if s.last().0 < key {
        s.push((key, value))
    } else {
        entered(s.drop_last(), key, value).push(s.last())
    }
}

/// The pairs of a map whose keys lie below `n`, in ascending order.
pub open spec fn pairs_below(m: Map<u64, u64>, n: nat) -> Pairs
    decreases n,
{
    if n == 0 {
        seq![]
    } else {
        let k = (n - 1) as u64;
        if m.contains_key(k) {
            pairs_below(m, (n - 1) as nat).push((k, m[k]))
        } else {
            pairs_below(m, (n - 1) as nat)
        }
    }
}

/// One more than the greatest key.
pub const KEYS: u128 = 0x1_0000_0000_0000_0000;

/// A table from numbers to numbers.
#[derive(Debug)]
pub struct IndexTable {
    map: BTreeMap<u64, u64>,
}

impl View for IndexTable {
    type V = Pairs;

    closed spec fn view(&self) -> Pairs {
        pairs_below(self.map@, KEYS as nat)
    }
}

impl IndexTable {
    /// A table without pairs.
    pub fn new() -> (r: IndexTable)
        ensures
            r@ == Pairs::empty(),
    {
        let r = IndexTable { map: BTreeMap::new() };
        proof {
            lemma_no_pairs(r.map@, KEYS as nat);
        }
        r
    }

    pub fn is_empty(&self) -> (r: bool)
        ensures
            r == (self@.len() == 0),
    {
        proof {
            lemma_empty(self.map@);
        }
        self.map.is_empty()
    }

    /// The value that stands with a key.
    pub fn get(&self, key: u64) -> (r: Option<u64>)
        ensures
            r == entry(self@, key),
    {
        proof {
            lemma_pairs(self.map@, KEYS as nat, key);
        }
        match self.map.get(&key) {
            Some(value) => Some(*value),
            None => None,
        }
    }

    /// Sets the value of one key.
    pub fn set(&mut self, key: u64, value: u64)
        ensures
            final(self)@ == entered(old(self)@, key, value),
    {
        proof {
            lemma_insert(self.map@, KEYS as nat, key, value);
        }
        self.map.insert(key, value);
    }

    /// The values, in ascending order of their keys.
    pub fn values(&self) -> (r: Vec<u64>)
        ensures
            r@ == self@.map_values(|p: (u64, u64)| p.1),
    {
        let mut out: Vec<u64> = Vec::new();
        let values = self.map.values();
        let ghost m = self.map@;
        let ghost all = values.remaining().unref();
        proof {
            let keys = choose|keys: Seq<u64>|
                #![trigger increasing_seq(keys)]
                increasing_seq(keys) && keys.to_set() == m.dom() && keys.no_duplicates()
                    && values.remaining() == keys.map(|i: int, k: u64| &m[k]);
            lemma_increasing(keys);
            lemma_values(m, keys);
            assert(all =~= self@.map_values(|p: (u64, u64)| p.1));
        }
        for v in it: values
            invariant
                it.seq().unref() == all,
                out@ == all.subrange(0, it.index() as int),
        {
            out.push(*v);
        }
        assert(all.subrange(0, all.len() as int) =~= all);
        out
    }
}

proof fn lemma_no_pairs(m: Map<u64, u64>, n: nat)
    requires
        m == Map::<u64, u64>::empty(),
    ensures
        pairs_below(m, n) == Pairs::empty(),
    decreases n,
{
    if n > 0 {
        lemma_no_pairs(m, (n - 1) as nat);
    }
}

/// The pairs of a map are in ascending order, lie below the bound, and say of
/// each key below it what the map says.
proof fn lemma_pairs(m: Map<u64, u64>, n: nat, key: u64)
    requires
        n <= KEYS,
    ensures
        ascending(pairs_below(m, n)),
        forall|i: int|
            0 <= i < pairs_below(m, n).len() ==> {
                let p = #[trigger] pairs_below(m, n)[i];
                p.0 < n && m.contains_key(p.0) && m[p.0] == p.1
            },
        entry(pairs_below(m, n), key) == if key < n && m.contains_key(key) {
            Some(m[key])
        } else {
            None
        },
    decreases n,
{
    if n > 0 {
        lemma_pairs(m, (n - 1) as nat, key);
        let k = (n - 1) as u64;
        if m.contains_key(k) {
            let before = pairs_below(m, (n - 1) as nat);
            assert(pairs_below(m, n).drop_last() =~= before);
        }
    }
}

proof fn lemma_empty(m: Map<u64, u64>)
    ensures
        pairs_below(m, KEYS as nat).len() == 0 <==> m.is_empty(),
{
    let all = pairs_below(m, KEYS as nat);
    if all.len() == 0 {
        assert forall|k: u64| !m.contains_key(k) by {
            lemma_pairs(m, KEYS as nat, k);
        }
        assert(m.dom() =~= Set::empty());
    } else {
        lemma_pairs(m, KEYS as nat, 0);
        assert(m.contains_key(all[0].0));
    }
}

proof fn lemma_insert(m: Map<u64, u64>, n: nat, key: u64, value: u64)
    requires
        n <= KEYS,
    ensures
        pairs_below(m.insert(key, value), n) == if key < n {
            entered(pairs_below(m, n), key, value)
        } else {
            pairs_below(m, n)
        },
    decreases n,
{
    if n > 0 {
        let before = pairs_below(m, (n - 1) as nat);
        let k = (n - 1) as u64;
        lemma_insert(m, (n - 1) as nat, key, value);
        lemma_pairs(m, (n - 1) as nat, key);
        if m.contains_key(k) {
            assert(pairs_below(m, n).drop_last() =~= before);
        }
        if key == k && !m.contains_key(k) {
            if before.len() > 0 {
                assert(before[before.len() - 1].0 < n - 1);
            }
            assert(entered(before, key, value) =~= before.push((key, value)));
        }
    }
}

/// Keys in increasing order are in ascending order of their numbers.
proof fn lemma_increasing(keys: Seq<u64>)
    requires
        increasing_seq(keys),
    ensures
        forall|i: int, j: int| 0 <= i < j < keys.len() ==> keys[i] < keys[j],
{
    broadcast use vstd::laws_cmp::group_laws_cmp;

    assert(vstd::laws_cmp::obeys_cmp::<u64>());
    assert forall|i: int, j: int| 0 <= i < j < keys.len() implies keys[i] < keys[j] by {
        assert(keys[i].cmp_spec(&keys[j]) is Less);
    }
}

/// All keys of a map in ascending order, each with its value, are its pairs.
proof fn lemma_values(m: Map<u64, u64>, keys: Seq<u64>)
    requires
        forall|i: int, j: int| 0 <= i < j < keys.len() ==> keys[i] < keys[j],
        keys.to_set() == m.dom(),
    ensures
        keys.map_values(|k: u64| (k, m[k])) == pairs_below(m, KEYS as nat),
{
    let s = keys.map_values(|k: u64| (k, m[k]));
    let t = pairs_below(m, KEYS as nat);
    lemma_pairs(m, KEYS as nat, 0);
    assert forall|i: int| 0 <= i < s.len() implies t.contains(#[trigger] s[i]) by {
        let k = keys[i];
        assert(keys.to_set().contains(k));
        lemma_pairs(m, KEYS as nat, k);
        lemma_entry_stands(t, k);
    }
    assert forall|i: int| 0 <= i < t.len() implies s.contains(#[trigger] t[i]) by {
        let k = t[i].0;
        assert(m.dom().contains(k));
        assert(keys.to_set().contains(k));
        let j = choose|j: int| 0 <= j < keys.len() && keys[j] == k;
        assert(s[j] == t[i]);
    }
    lemma_same(m, s, t);
}

/// Two lists of pairs of a map in ascending order, with the same keys, are equal.
proof fn lemma_same(m: Map<u64, u64>, s: Pairs, t: Pairs)
    requires
        ascending(s),
        ascending(t),
        forall|i: int| 0 <= i < s.len() ==> (#[trigger] s[i]).1 == m[s[i].0],
        forall|i: int| 0 <= i < t.len() ==> (#[trigger] t[i]).1 == m[t[i].0],
        forall|i: int| 0 <= i < s.len() ==> t.contains(#[trigger] s[i]),
        forall|i: int| 0 <= i < t.len() ==> s.contains(#[trigger] t[i]),
    ensures
        s == t,
    decreases s.len(),
{
    if s.len() == 0 || t.len() == 0 {
        if s.len() > 0 {
            assert(t.contains(s[0]));
        }
        if t.len() > 0 {
            assert(s.contains(t[0]));
        }
        assert(s =~= t);
    } else {
        let x = s.last();
        let y = t.last();
        assert(t.contains(s[s.len() - 1]));
        assert(s.contains(t[t.len() - 1]));
        assert(x == y);
        let a = s.drop_last();
        let b = t.drop_last();
        assert forall|i: int| 0 <= i < a.len() implies b.contains(#[trigger] a[i]) by {
            assert(t.contains(s[i]));
            let j = choose|j: int| 0 <= j < t.len() && t[j] == s[i];
            assert(s[i].0 < s[s.len() - 1].0);
            assert(b[j] == a[i]);
        }
        assert forall|i: int| 0 <= i < b.len() implies a.contains(#[trigger] b[i]) by {
            assert(s.contains(t[i]));
            let j = choose|j: int| 0 <= j < s.len() && s[j] == t[i];
            assert(t[i].0 < t[t.len() - 1].0);
            assert(a[j] == b[i]);
        }
        lemma_same(m, a, b);
        assert(s =~= a.push(x));
        assert(t =~= b.push(y));
    }
}

/// A key that is there stands in some pair with its value.
pub proof fn lemma_entry_stands(s: Pairs, key: u64)
    ensures
        entry(s, key) matches Some(v) ==> exists|k: int|
            0 <= k < s.len() && #[trigger] s[k] == (key, v),
    decreases s.len(),
{
    if s.len() > 0 {
        if s.last().0 == key {
            assert(s[s.len() - 1] == (key, s.last().1));
        } else {
            lemma_entry_stands(s.drop_last(), key);
            if let Some(v) = entry(s, key) {
                let k = choose|k: int|
                    0 <= k < s.drop_last().len() && #[trigger] s.drop_last()[k] == (key, v);
                assert(s[k] == (key, v));
            }
        }
    }
}

/// Setting a value keeps the order of the keys; the key then has that value
/// and every other key has what it had.
pub proof fn law_entered(s: Pairs, key: u64, value: u64, other: u64)
    requires
        ascending(s),
    ensures
        ascending(entered(s, key, value)),
        entry(entered(s, key, value), key) == Some(value),
        other != key ==> entry(entered(s, key, value), other) == entry(s, other),
        forall|i: int|
            0 <= i < entered(s, key, value).len() ==> (#[trigger] entered(s, key, value)[i]).0
                == key || exists|j: int| 0 <= j < s.len() && s[j] == entered(s, key, value)[i],
    decreases s.len(),
{
    let t = entered(s, key, value);
    if s.len() == 0 {
        assert(t.drop_last() =~= s);
    } else if s.last().0 == key {
        assert(t.drop_last() =~= s.drop_last());
        assert forall|i: int| 0 <= i < t.len() implies (#[trigger] t[i]).0 == key || exists|j: int|
            0 <= j < s.len() && s[j] == t[i] by {
            if i < t.len() - 1 {
                assert(s[i] == t[i]);
            }
        }
    } else if s.last().0 < key {
        assert(t.drop_last() =~= s);
        assert forall|i: int| 0 <= i < t.len() implies (#[trigger] t[i]).0 == key || exists|j: int|
            0 <= j < s.len() && s[j] == t[i] by {
            if i < t.len() - 1 {
                assert(s[i] == t[i]);
            }
        }
    } else {
        let d = s.drop_last();
        law_entered(d, key, value, other);
        let u = entered(d, key, value);
        assert(t.drop_last() =~= u);
        assert forall|i: int| 0 <= i < u.len() implies (#[trigger] u[i]).0 < s.last().0 by {
            if u[i].0 != key {
                let j = choose|j: int| 0 <= j < d.len() && d[j] == u[i];
                assert(s[j] == d[j]);
            }
        }
        assert forall|i: int| 0 <= i < t.len() implies (#[trigger] t[i]).0 == key || exists|j: int|
            0 <= j < s.len() && s[j] == t[i] by {
            if i < t.len() - 1 {
                assert(t[i] == u[i]);
                if u[i].0 != key {
                    let j = choose|j: int| 0 <= j < d.len() && d[j] == u[i];
                    assert(s[j] == t[i]);
                }
            } else {
                assert(s[s.len() - 1] == t[i]);
            }
        }
    }
}

} // verus!
