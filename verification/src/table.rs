//! Tables of numbers that requests share, each in a `dashmap::DashMap`.
use std::hash::RandomState;
use vstd::prelude::*;

use crate::text::texts;

verus! {

/// What a table holds for a key.
pub type Row = (u64, u64, Option<u64>);

/// A concurrent hash map.
#[verifier::external_type_specification]
#[verifier::external_body]
#[verifier::reject_recursive_types(K)]
#[verifier::reject_recursive_types(V)]
#[verifier::reject_recursive_types(S)]
pub struct ExDashMap<K, V, S>(dashmap::DashMap<K, V, S>);

/// The rows that a map holds.
pub uninterp spec fn rows(
    m: dashmap::DashMap<String, (u64, u64, Option<u64>), RandomState>,
) -> Map<Seq<char>, (u64, u64, Option<u64>)>;

/// No rows.
pub open spec fn no_rows() -> Map<Seq<char>, Row> {
    Map::empty()
}

/// `dashmap::DashMap::new`: a map without entries.
#[verifier::external_body]
fn new_rows() -> (r: dashmap::DashMap<String, (u64, u64, Option<u64>), RandomState>)
    ensures
        rows(r) == no_rows(),
{
    dashmap::DashMap::new()
}

/// `dashmap::DashMap::get`: the value under the key, where there is one.
#[verifier::external_body]
fn get_row(
    m: &dashmap::DashMap<String, (u64, u64, Option<u64>), RandomState>,
    key: &str,
) -> (r: Option<(u64, u64, Option<u64>)>)
    ensures
        r == if rows(*m).contains_key(key@) {
            Some(rows(*m)[key@])
        } else {
            None
        },
{
    m.get(key).map(|entry| *entry.value())
}

/// `dashmap::DashMap::insert`: the key then has this value, and every other key
/// has what it had.
#[verifier::external_body]
fn insert_row(
    m: &mut dashmap::DashMap<String, (u64, u64, Option<u64>), RandomState>,
    key: &str,
    row: (u64, u64, Option<u64>),
)
    ensures
        rows(*final(m)) == rows(*old(m)).insert(key@, row),
{
    m.insert(key.to_string(), row);
}

/// `dashmap::DashMap::remove`: the key is gone, and every other key has what
/// it had.
#[verifier::external_body]
fn remove_row(
    m: &mut dashmap::DashMap<String, (u64, u64, Option<u64>), RandomState>,
    key: &str,
)
    ensures
        rows(*final(m)) == rows(*old(m)).remove(key@),
{
    m.remove(key);
}

/// `dashmap::DashMap::iter`: every key once, in an order of its own.
#[verifier::external_body]
fn row_keys(m: &dashmap::DashMap<String, (u64, u64, Option<u64>), RandomState>) -> (r: Vec<String>)
    ensures
        texts(r@).no_duplicates(),
        forall|k: Seq<char>| texts(r@).contains(k) <==> rows(*m).contains_key(k),
{
    m.iter().map(|entry| entry.key().clone()).collect()
}

/// A table of rows.
pub struct Table {
    map: dashmap::DashMap<String, (u64, u64, Option<u64>), RandomState>,
}

impl View for Table {
    type V = Map<Seq<char>, Row>;

    closed spec fn view(&self) -> Map<Seq<char>, Row> {
        rows(self.map)
    }
}

impl Table {
    /// A table without rows.
    pub fn new() -> (r: Table)
        ensures
            r@ == no_rows(),
    {
        Table { map: new_rows() }
    }

    /// The row of a key, where there is one.
    pub fn get(&self, key: &str) -> (r: Option<Row>)
        ensures
            r == if self@.contains_key(key@) {
                Some(self@[key@])
            } else {
                None
            },
    {
        get_row(&self.map, key)
    }

    /// Sets the row of a key.
    pub fn set(&mut self, key: &str, row: Row)
        ensures
            final(self)@ == old(self)@.insert(key@, row),
    {
        insert_row(&mut self.map, key, row);
    }

    /// Removes a key.
    pub fn remove(&mut self, key: &str)
        ensures
            final(self)@ == old(self)@.remove(key@),
    {
        remove_row(&mut self.map, key);
    }

    /// Every key once, in any order.
    pub fn keys(&self) -> (r: Vec<String>)
        ensures
            texts(r@).no_duplicates(),
            forall|k: Seq<char>| texts(r@).contains(k) <==> self@.contains_key(k),
    {
        row_keys(&self.map)
    }
}

} // verus!
