//! JSON values that the library reads, builds and rewrites, with a
//! mathematical model of each, and the passage to and from `serde_json`.
use vstd::prelude::*;

use crate::text::{has_prefix, owned, same};

verus! {

// ---------------------------------------------------------------------------
// The model
// ---------------------------------------------------------------------------

/// What a JSON value is: objects are finite maps, numbers are integers or
/// else the opaque number that `serde_json` read.
#[verifier::ext_equal]
pub enum JsonView {
    Null,
    Bool(bool),
    Int(int),
    Float(serde_json::Number),
    Str(Seq<char>),
    Array(Seq<JsonView>),
    Object(Map<Seq<char>, JsonView>),
}

impl JsonView {
    /// The member of an object with this key.
    pub open spec fn field(self, key: Seq<char>) -> Option<JsonView> {
        match self {
            JsonView::Object(m) => if m.contains_key(key) {
                Some(m[key])
            } else {
                None
            },
            _ => None,
        }
    }

    /// The member with this key, or null where there is none.
    pub open spec fn at(self, key: Seq<char>) -> JsonView {
        match self.field(key) {
            Some(v) => v,
            None => JsonView::Null,
        }
    }

    /// The first item of an array.
    pub open spec fn first(self) -> Option<JsonView> {
        match self {
            JsonView::Array(s) => if s.len() > 0 {
                Some(s[0])
            } else {
                None
            },
            _ => None,
        }
    }

    pub open spec fn str(self) -> Option<Seq<char>> {
        match self {
            JsonView::Str(s) => Some(s),
            _ => None,
        }
    }

    /// The text of a string, `""` for anything else.
    pub open spec fn str_or_empty(self) -> Seq<char> {
        self.str_or(""@)
    }

    /// The text of a string, `fallback` for anything else.
    pub open spec fn str_or(self, fallback: Seq<char>) -> Seq<char> {
        match self {
            JsonView::Str(s) => s,
            _ => fallback,
        }
    }

    pub open spec fn bool(self) -> Option<bool> {
        match self {
            JsonView::Bool(b) => Some(b),
            _ => None,
        }
    }

    /// An integer that fits in 64 bits with a sign.
    pub open spec fn int64(self) -> Option<int> {
        match self {
            JsonView::Int(i) => if i64::MIN <= i <= i64::MAX {
                Some(i)
            } else {
                None
            },
            _ => None,
        }
    }

    /// An integer that fits in 64 bits without a sign.
    pub open spec fn uint64(self) -> Option<int> {
        match self {
            JsonView::Int(i) => if 0 <= i <= u64::MAX {
                Some(i)
            } else {
                None
            },
            _ => None,
        }
    }

    /// An integer that fits in 64 bits with a sign, 0 for anything else.
    pub open spec fn int64_or_zero(self) -> int {
        match self.int64() {
            Some(i) => i,
            None => 0,
        }
    }

    /// An integer that fits in 64 bits without a sign, 0 for anything else.
    pub open spec fn uint64_or_zero(self) -> int {
        match self.uint64() {
            Some(i) => i,
            None => 0,
        }
    }

    /// The items of an array; none for anything else.
    pub open spec fn items(self) -> Seq<JsonView> {
        match self {
            JsonView::Array(s) => s,
            _ => seq![],
        }
    }

    /// The members of an object; none for anything else.
    pub open spec fn members(self) -> Map<Seq<char>, JsonView> {
        match self {
            JsonView::Object(m) => m,
            _ => Map::empty(),
        }
    }

    /// The object with one member set. What is no object counts as an empty one.
    pub open spec fn put(self, key: Seq<char>, value: JsonView) -> JsonView {
        JsonView::Object(self.members().insert(key, value))
    }

    /// The object with one member set where `value` is given.
    pub open spec fn put_some(self, key: Seq<char>, value: Option<JsonView>) -> JsonView {
        match value {
            Some(v) => self.put(key, v),
            None => self,
        }
    }

    /// The object without one member; what is no object stays as it is.
    pub open spec fn without(self, key: Seq<char>) -> JsonView {
        match self {
            JsonView::Object(m) => JsonView::Object(m.remove(key)),
            _ => self,
        }
    }
}

/// The empty object.
pub open spec fn obj() -> JsonView {
    JsonView::Object(Map::empty())
}

/// A string.
pub open spec fn text(s: Seq<char>) -> JsonView {
    JsonView::Str(s)
}

/// A string where there is one, null otherwise.
pub open spec fn text_or_null(s: Option<Seq<char>>) -> JsonView {
    match s {
        Some(t) => JsonView::Str(t),
        None => JsonView::Null,
    }
}

/// The value itself where there is one, `fallback` otherwise.
pub open spec fn or_else(v: Option<JsonView>, fallback: JsonView) -> JsonView {
    match v {
        Some(x) => x,
        None => fallback,
    }
}

// ---------------------------------------------------------------------------
// serde_json
// ---------------------------------------------------------------------------

/// A JSON number as `serde_json` keeps it.
#[verifier::external_type_specification]
#[verifier::external_body]
pub struct ExNumber(serde_json::Number);

/// A JSON value as `serde_json` keeps it.
#[verifier::external_type_specification]
#[verifier::external_body]
pub struct ExValue(serde_json::Value);

/// The integer that a `serde_json::Number` holds; none where it holds a
/// fraction or an exponent.
pub uninterp spec fn number_int(n: serde_json::Number) -> Option<int>;

/// The tree that a `serde_json::Value` holds.
pub uninterp spec fn value_holds(v: serde_json::Value) -> JsonView;

/// What `serde_json` reads from a text; none where it reports an error.
pub uninterp spec fn parsed(text: Seq<char>) -> Option<JsonView>;

/// What `serde_json` reads from bytes, or the text of the error it reports.
pub uninterp spec fn parsed_bytes(bytes: Seq<u8>) -> Result<JsonView, Seq<char>>;

/// The compact text that `serde_json` writes for a value.
pub uninterp spec fn printed(v: JsonView) -> Seq<char>;

/// The value that a number is.
pub open spec fn number_view(n: serde_json::Number) -> JsonView {
    match number_int(n) {
        Some(i) => JsonView::Int(i),
        None => JsonView::Float(n),
    }
}

/// The derived `clone` of `serde_json::Number` copies its one field.
pub assume_specification[ <serde_json::Number as Clone>::clone ](n: &serde_json::Number) -> (r:
    serde_json::Number)
    ensures
        r == *n,
;

/// `serde_json::Number::as_i64`: the integer, where there is one that fits.
pub assume_specification[ serde_json::Number::as_i64 ](n: &serde_json::Number) -> (r: Option<i64>)
    ensures
        match r {
            Some(i) => number_view(*n).int64() == Some(i as int),
            None => number_view(*n).int64() is None,
        },
;

/// `serde_json::Number::as_u64`: the integer, where there is one that fits.
pub assume_specification[ serde_json::Number::as_u64 ](n: &serde_json::Number) -> (r: Option<u64>)
    ensures
        match r {
            Some(i) => number_view(*n).uint64() == Some(i as int),
            None => number_view(*n).uint64() is None,
        },
;

/// `From<i64>` of `serde_json::Number`: the number that holds this integer.
#[verifier::external_body]
fn number_from_i64(i: i64) -> (r: serde_json::Number)
    ensures
        number_int(r) == Some(i as int),
{
    serde_json::Number::from(i)
}

/// `From<u64>` of `serde_json::Number`: the number that holds this integer.
#[verifier::external_body]
fn number_from_u64(i: u64) -> (r: serde_json::Number)
    ensures
        number_int(r) == Some(i as int),
{
    serde_json::Number::from(i)
}

/// One level of a `serde_json::Value`.
pub enum Parts {
    Null,
    Bool(bool),
    Number(serde_json::Number),
    Str(String),
    Array(Vec<serde_json::Value>),
    Object(Vec<(String, serde_json::Value)>),
}

/// The members that key and value pairs make, a later one in place of an
/// earlier one with its key.
pub open spec fn pairs_hold(s: Seq<(String, serde_json::Value)>) -> Map<Seq<char>, JsonView>
    decreases s.len(),
{
    if s.len() == 0 {
        Map::empty()
    } else {
        pairs_hold(s.drop_last()).insert(s.last().0@, value_holds(s.last().1))
    }
}

/// The tree that one opened level stands for.
pub open spec fn parts_hold(p: Parts) -> JsonView {
    match p {
        Parts::Null => JsonView::Null,
        Parts::Bool(b) => JsonView::Bool(b),
        Parts::Number(n) => number_view(n),
        Parts::Str(s) => JsonView::Str(s@),
        Parts::Array(v) => JsonView::Array(Seq::new(v@.len(), |i: int| value_holds(v@[i]))),
        Parts::Object(v) => JsonView::Object(pairs_hold(v@)),
    }
}

/// No two pairs have one key.
pub open spec fn keys_differ(s: Seq<(String, serde_json::Value)>) -> bool {
    forall|i: int, j: int| 0 <= i < j < s.len() ==> (#[trigger] s[i]).0@ != (#[trigger] s[j]).0@
}

/// The variants of `serde_json::Value`, one for one. An object is a map, so
/// its keys differ.
#[verifier::external_body]
fn open_value(v: serde_json::Value) -> (r: Parts)
    ensures
        parts_hold(r) == value_holds(v),
        r matches Parts::Object(s) ==> keys_differ(s@),
{
    match v {
        serde_json::Value::Null => Parts::Null,
        serde_json::Value::Bool(b) => Parts::Bool(b),
        serde_json::Value::Number(n) => Parts::Number(n),
        serde_json::Value::String(s) => Parts::Str(s),
        serde_json::Value::Array(a) => Parts::Array(a),
        serde_json::Value::Object(m) => Parts::Object(m.into_iter().collect()),
    }
}

/// The variants of `serde_json::Value`, built one for one. Of two members with
/// one key the map keeps the later.
#[verifier::external_body]
fn close_value(p: Parts) -> (r: serde_json::Value)
    ensures
        value_holds(r) == parts_hold(p),
{
    match p {
        Parts::Null => serde_json::Value::Null,
        Parts::Bool(b) => serde_json::Value::Bool(b),
        Parts::Number(n) => serde_json::Value::Number(n),
        Parts::Str(s) => serde_json::Value::String(s),
        Parts::Array(a) => serde_json::Value::Array(a),
        Parts::Object(m) => serde_json::Value::Object(m.into_iter().collect()),
    }
}

/// A digit, a point and a digit.
pub open spec fn one_decimal(s: Seq<char>) -> bool {
    s.len() == 3 && '0' <= s[0] <= '9' && s[1] == '.' && '0' <= s[2] <= '9'
}

/// `serde_json::from_str` into a `serde_json::Value`: what it reads is a
/// function of the text. A digit, a point and a digit are a JSON number.
#[verifier::external_body]
fn parse_value(text: &str) -> (r: Option<serde_json::Value>)
    ensures
        one_decimal(text@) ==> r is Some,
        match r {
            Some(v) => parsed(text@) == Some(value_holds(v)),
            None => parsed(text@) is None,
        },
{
    serde_json::from_str(text).ok()
}

/// `serde_json::from_slice` into a `serde_json::Value`: what it reads, and the
/// text of the error that it reports, are functions of the bytes.
#[verifier::external_body]
fn parse_value_bytes(bytes: &[u8]) -> (r: Result<serde_json::Value, String>)
    ensures
        match r {
            Ok(v) => parsed_bytes(bytes@) == Ok::<JsonView, Seq<char>>(value_holds(v)),
            Err(e) => parsed_bytes(bytes@) == Err::<JsonView, Seq<char>>(e@),
        },
{
    serde_json::from_slice(bytes).map_err(|e| e.to_string())
}

/// A tree without fractions, nested no deeper than `depth`, whose keys are none
/// of those that `serde_json` keeps for itself.
pub open spec fn rereadable(v: JsonView, depth: nat) -> bool
    decreases depth,
{
    match v {
        JsonView::Float(_) => false,
        JsonView::Array(s) => depth > 0 && forall|i: int|
            0 <= i < s.len() ==> rereadable(#[trigger] s[i], (depth - 1) as nat),
        JsonView::Object(m) => depth > 0 && forall|k: Seq<char>| #[trigger]
            m.contains_key(k) ==> !has_prefix(k, "$serde_json::private::"@) && rereadable(
                m[k],
                (depth - 1) as nat,
            ),
        _ => true,
    }
}

/// The text of the value is read as that value again.
pub open spec fn reads_back(v: JsonView) -> bool {
    parsed(printed(v)) == Some(v)
}

/// `Display` of `serde_json::Value`: the compact text is a function of the tree.
/// A text of integers, strings, lists and objects that nest less deep than the
/// parser allows is read as the same tree again.
#[verifier::external_body]
fn print_value(v: &serde_json::Value) -> (r: String)
    ensures
        r@ == printed(value_holds(*v)),
        rereadable(value_holds(*v), 100) ==> parsed(r@) == Some(value_holds(*v)),
{
    v.to_string()
}

// ---------------------------------------------------------------------------
// The values
// ---------------------------------------------------------------------------

/// A JSON value. Of two members of an object with one key the later counts.
#[derive(Debug)]
pub enum Json {
    Null,
    Bool(bool),
    Number(serde_json::Number),
    Str(String),
    Array(Vec<Json>),
    Object(Vec<(String, Json)>),
}

pub open spec fn json_view(j: Json) -> JsonView
    decreases j,
{
    match j {
        Json::Null => JsonView::Null,
        Json::Bool(b) => JsonView::Bool(b),
        Json::Number(n) => number_view(n),
        Json::Str(s) => JsonView::Str(s@),
        Json::Array(v) => JsonView::Array(items_view(v@)),
        Json::Object(v) => JsonView::Object(entries_view(v@)),
    }
}

/// The values that a sequence of JSON values stands for.
pub open spec fn items_view(s: Seq<Json>) -> Seq<JsonView>
    decreases s,
{
    Seq::new(s.len(), |i: int| if 0 <= i < s.len() { json_view(s[i]) } else { JsonView::Null })
}

/// The members that key and value pairs make, a later one in place of an
/// earlier one with its key.
pub open spec fn entries_view(s: Seq<(String, Json)>) -> Map<Seq<char>, JsonView>
    decreases s,
{
    if s.len() == 0 {
        Map::empty()
    } else {
        entries_view(s.drop_last()).insert(s.last().0@, json_view(s.last().1))
    }
}

impl View for Json {
    type V = JsonView;

    open spec fn view(&self) -> JsonView {
        json_view(*self)
    }
}

/// The value that an optional reference points to.
pub open spec fn opt_view(o: Option<&Json>) -> Option<JsonView> {
    match o {
        Some(v) => Some(v@),
        None => None,
    }
}

/// The value that there may be.
pub open spec fn opt_of(o: Option<Json>) -> Option<JsonView> {
    match o {
        Some(v) => Some(v@),
        None => None,
    }
}

pub proof fn lemma_entries_finite(s: Seq<(String, Json)>)
    ensures
        entries_view(s).dom().finite(),
    decreases s.len(),
{
    if s.len() > 0 {
        lemma_entries_finite(s.drop_last());
    }
}

/// The last pair with a key gives the member; without such a pair there is none.
proof fn lemma_entries_lookup(s: Seq<(String, Json)>, key: Seq<char>, i: int)
    requires
        -1 <= i < s.len(),
        i >= 0 ==> s[i].0@ == key,
        forall|j: int| i < j < s.len() ==> (#[trigger] s[j]).0@ != key,
    ensures
        entries_view(s).contains_key(key) <==> i >= 0,
        i >= 0 ==> entries_view(s)[key] == json_view(s[i].1),
    decreases s.len(),
{
    if s.len() > 0 && i < s.len() - 1 {
        lemma_entries_lookup(s.drop_last(), key, i);
    }
}

/// Replacing the value of the last pair with a key sets that member.
proof fn lemma_entries_update(s: Seq<(String, Json)>, key: Seq<char>, i: int, e: (String, Json))
    requires
        0 <= i < s.len(),
        s[i].0@ == key,
        e.0@ == key,
        forall|j: int| i < j < s.len() ==> (#[trigger] s[j]).0@ != key,
    ensures
        entries_view(s.update(i, e)) =~= entries_view(s).insert(key, json_view(e.1)),
    decreases s.len(),
{
    let t = s.update(i, e);
    if i == s.len() - 1 {
        assert(t.drop_last() =~= s.drop_last());
    } else {
        lemma_entries_update(s.drop_last(), key, i, e);
        assert(t.drop_last() =~= s.drop_last().update(i, e));
        assert(t.last() == s.last());
    }
}

impl Json {
    /// The empty object.
    pub fn object() -> (r: Json)
        ensures
            r@ == obj(),
    {
        Json::Object(Vec::new())
    }

    /// A string.
    pub fn text(s: &str) -> (r: Json)
        ensures
            r@ == text(s@),
    {
        Json::Str(owned(s))
    }

    /// An integer with a sign.
    pub fn signed(i: i64) -> (r: Json)
        ensures
            r@ == JsonView::Int(i as int),
    {
        Json::Number(number_from_i64(i))
    }

    /// An integer without a sign.
    pub fn unsigned(i: u64) -> (r: Json)
        ensures
            r@ == JsonView::Int(i as int),
    {
        Json::Number(number_from_u64(i))
    }

    /// An array of the given items.
    pub fn array(items: Vec<Json>) -> (r: Json)
        ensures
            r@ == JsonView::Array(items_view(items@)),
    {
        Json::Array(items)
    }

    /// An array of one item.
    pub fn array1(item: Json) -> (r: Json)
        ensures
            r@ == JsonView::Array(seq![item@]),
    {
        let mut v: Vec<Json> = Vec::new();
        push_item(&mut v, item);
        assert(items_view(v@) =~= seq![item@]);
        Json::Array(v)
    }

    /// The position of the last pair with this key.
    fn position(entries: &Vec<(String, Json)>, key: &str) -> (r: Option<usize>)
        ensures
            match r {
                Some(i) => i < entries.len() && entries@[i as int].0@ == key@ && forall|j: int|
                    i < j < entries.len() ==> (#[trigger] entries@[j]).0@ != key@,
                None => forall|j: int|
                    0 <= j < entries.len() ==> (#[trigger] entries@[j]).0@ != key@,
            },
    {
        let mut i: usize = entries.len();
        while i > 0
            invariant
                i <= entries.len(),
                forall|j: int| i <= j < entries.len() ==> (#[trigger] entries@[j]).0@ != key@,
            decreases i,
        {
            i -= 1;
            if same(entries[i].0.as_str(), key) {
                return Some(i);
            }
        }
        None
    }

    /// The member of an object with this key.
    pub fn get(&self, key: &str) -> (r: Option<&Json>)
        ensures
            opt_view(r) == self@.field(key@),
    {
        match self {
            Json::Object(entries) => {
                match Json::position(entries, key) {
                    Some(i) => {
                        proof {
                            lemma_entries_lookup(entries@, key@, i as int);
                        }
                        Some(&entries[i].1)
                    },
                    None => {
                        proof {
                            lemma_entries_lookup(entries@, key@, -1);
                        }
                        None
                    },
                }
            },
            _ => None,
        }
    }

    /// The member with this key, or null where there is none.
    pub fn at(&self, key: &str) -> (r: &Json)
        ensures
            r@ == self@.at(key@),
    {
        match self.get(key) {
            Some(v) => v,
            None => &Json::Null,
        }
    }

    /// The first item of an array.
    pub fn first(&self) -> (r: Option<&Json>)
        ensures
            opt_view(r) == self@.first(),
    {
        match self {
            Json::Array(v) => if v.len() > 0 {
                Some(&v[0])
            } else {
                None
            },
            _ => None,
        }
    }

    /// The text of a string.
    pub fn as_str(&self) -> (r: Option<&str>)
        ensures
            match r {
                Some(s) => self@.str() == Some(s@),
                None => self@.str() is None,
            },
    {
        match self {
            Json::Str(s) => Some(s.as_str()),
            _ => None,
        }
    }

    /// The text of a string, `""` for anything else.
    pub fn str_or_empty(&self) -> (r: &str)
        ensures
            r@ == self@.str_or_empty(),
    {
        self.str_or("")
    }

    /// The text of a string, `fallback` for anything else.
    pub fn str_or<'a>(&'a self, fallback: &'a str) -> (r: &'a str)
        ensures
            r@ == self@.str_or(fallback@),
    {
        match self {
            Json::Str(s) => s.as_str(),
            _ => fallback,
        }
    }

    /// Whether the value is this string.
    pub fn is_text(&self, s: &str) -> (r: bool)
        ensures
            r == (self@.str() == Some(s@)),
    {
        match self {
            Json::Str(t) => same(t.as_str(), s),
            _ => false,
        }
    }

    pub fn as_bool(&self) -> (r: Option<bool>)
        ensures
            r == self@.bool(),
    {
        match self {
            Json::Bool(b) => Some(*b),
            _ => None,
        }
    }

    /// An integer that fits in 64 bits with a sign.
    pub fn as_i64(&self) -> (r: Option<i64>)
        ensures
            match r {
                Some(i) => self@.int64() == Some(i as int),
                None => self@.int64() is None,
            },
    {
        match self {
            Json::Number(n) => n.as_i64(),
            _ => None,
        }
    }

    /// An integer that fits in 64 bits without a sign.
    pub fn as_u64(&self) -> (r: Option<u64>)
        ensures
            match r {
                Some(i) => self@.uint64() == Some(i as int),
                None => self@.uint64() is None,
            },
    {
        match self {
            Json::Number(n) => n.as_u64(),
            _ => None,
        }
    }

    /// An integer that fits in 64 bits with a sign, 0 for anything else.
    pub fn i64_or_zero(&self) -> (r: i64)
        ensures
            r as int == self@.int64_or_zero(),
    {
        match self.as_i64() {
            Some(i) => i,
            None => 0,
        }
    }

    /// An integer that fits in 64 bits without a sign, 0 for anything else.
    pub fn u64_or_zero(&self) -> (r: u64)
        ensures
            r as int == self@.uint64_or_zero(),
    {
        match self.as_u64() {
            Some(i) => i,
            None => 0,
        }
    }

    pub fn is_null(&self) -> (r: bool)
        ensures
            r == (self@ is Null),
    {
        match self {
            Json::Null => true,
            _ => false,
        }
    }

    pub fn is_object(&self) -> (r: bool)
        ensures
            r == (self@ is Object),
    {
        match self {
            Json::Object(_) => true,
            _ => false,
        }
    }

    /// The items of an array.
    pub fn as_array(&self) -> (r: Option<&Vec<Json>>)
        ensures
            match r {
                Some(v) => self@ == JsonView::Array(items_view(v@)),
                None => !(self@ is Array),
            },
    {
        match self {
            Json::Array(v) => Some(v),
            _ => None,
        }
    }

    /// A copy of the value.
    pub fn copy(&self) -> (r: Json)
        ensures
            r@ == self@,
        decreases self,
    {
        match self {
            Json::Null => Json::Null,
            Json::Bool(b) => Json::Bool(*b),
            Json::Number(n) => Json::Number(n.clone()),
            Json::Str(s) => Json::Str(owned(s.as_str())),
            Json::Array(v) => {
                let mut out: Vec<Json> = Vec::new();
                let mut i: usize = 0;
                while i < v.len()
                    invariant
                        i <= v.len(),
                        *self == Json::Array(*v),
                        items_view(out@) == items_view(v@).subrange(0, i as int),
                    decreases v.len() - i,
                {
                    proof {
                        lemma_item_smaller(*self, *v, i as int);
                    }
                    let item = v[i].copy();
                    push_item(&mut out, item);
                    i += 1;
                    assert(items_view(out@) =~= items_view(v@).subrange(0, i as int));
                }
                assert(items_view(v@).subrange(0, i as int) =~= items_view(v@));
                Json::Array(out)
            },
            Json::Object(v) => {
                let mut out: Vec<(String, Json)> = Vec::new();
                let mut i: usize = 0;
                while i < v.len()
                    invariant
                        i <= v.len(),
                        *self == Json::Object(*v),
                        entries_view(out@) == entries_view(v@.subrange(0, i as int)),
                    decreases v.len() - i,
                {
                    let ghost before = out@;
                    proof {
                        lemma_entry_smaller(*self, *v, i as int);
                    }
                    let key = owned(v[i].0.as_str());
                    let value = v[i].1.copy();
                    out.push((key, value));
                    assert(out@.drop_last() =~= before);
                    assert(v@.subrange(0, i + 1).drop_last() =~= v@.subrange(0, i as int));
                    i += 1;
                }
                assert(v@.subrange(0, i as int) =~= v@);
                Json::Object(out)
            },
        }
    }

    /// The object with one member set. What is no object counts as an empty one.
    pub fn with(self, key: &str, value: Json) -> (r: Json)
        ensures
            r@ == self@.put(key@, value@),
    {
        let mut entries: Vec<(String, Json)> = match self {
            Json::Object(v) => v,
            _ => Vec::new(),
        };
        assert(entries_view(entries@) == self@.members());
        match Json::position(&entries, key) {
            Some(i) => {
                let ghost e = (entries@[i as int].0, value);
                let ghost before = entries@;
                entries[i].1 = value;
                proof {
                    assert(entries@ =~= before.update(i as int, e));
                    lemma_entries_update(before, key@, i as int, e);
                }
            },
            None => {
                let ghost before = entries@;
                entries.push((owned(key), value));
                assert(entries@.drop_last() =~= before);
            },
        }
        Json::Object(entries)
    }

    /// The object with one member set where `value` is given.
    pub fn with_some(self, key: &str, value: Option<Json>) -> (r: Json)
        ensures
            value is Some ==> r@ == self@.put(key@, value->0@),
            value is None ==> r@ == self@,
    {
        match value {
            Some(v) => self.with(key, v),
            None => self,
        }
    }

    /// The object without one member; what is no object stays as it is.
    pub fn without(self, key: &str) -> (r: Json)
        ensures
            r@ == self@.without(key@),
    {
        match self {
            Json::Object(v) => {
                let ghost all = v@;
                let mut out: Vec<(String, Json)> = Vec::new();
                assert(entries_view(out@) =~= entries_view(all.subrange(0, 0)).remove(key@));
                for p in it: v
                    invariant
                        it.seq() == all,
                        entries_view(out@) == entries_view(
                            all.subrange(0, it.index() as int),
                        ).remove(key@),
                {
                    let ghost done = it.index() as int;
                    let ghost before = out@;
                    assert(all.subrange(0, done + 1).drop_last() =~= all.subrange(0, done));
                    if !same(p.0.as_str(), key) {
                        out.push(p);
                        assert(out@.drop_last() =~= before);
                    }
                    assert(entries_view(out@) =~= entries_view(all.subrange(0, done + 1)).remove(
                        key@,
                    ));
                }
                assert(all.subrange(0, all.len() as int) =~= all);
                Json::Object(out)
            },
            other => other,
        }
    }

    /// The value that a `serde_json::Value` holds.
    pub fn from_value(v: serde_json::Value) -> (r: Json)
        ensures
            r@ == value_holds(v),
        decreases value_holds(v),
    {
        match open_value(v) {
            Parts::Null => Json::Null,
            Parts::Bool(b) => Json::Bool(b),
            Parts::Number(n) => Json::Number(n),
            Parts::Str(s) => Json::Str(s),
            Parts::Array(values) => {
                let ghost all = values@;
                let ghost held = value_holds(v);
                let mut out: Vec<Json> = Vec::new();
                assert(items_view(out@) =~= held->Array_0.subrange(0, 0));
                for x in it: values
                    invariant
                        it.seq() == all,
                        held == value_holds(v),
                        held == JsonView::Array(Seq::new(all.len(), |i: int| value_holds(all[i]))),
                        items_view(out@) == held->Array_0.subrange(0, it.index() as int),
                {
                    let ghost done = it.index() as int;
                    assert(value_holds(x) == held->Array_0[done]);
                    let j = Json::from_value(x);
                    push_item(&mut out, j);
                    assert(items_view(out@) =~= held->Array_0.subrange(0, done + 1));
                }
                assert(held->Array_0.subrange(0, all.len() as int) =~= held->Array_0);
                Json::Array(out)
            },
            Parts::Object(pairs) => {
                let ghost all = pairs@;
                let ghost held = value_holds(v);
                let mut out: Vec<(String, Json)> = Vec::new();
                for x in it: pairs
                    invariant
                        it.seq() == all,
                        held == value_holds(v),
                        held == JsonView::Object(pairs_hold(all)),
                        keys_differ(all),
                        entries_view(out@) == pairs_hold(all.subrange(0, it.index() as int)),
                {
                    let ghost done = it.index() as int;
                    let ghost before = out@;
                    assert(all.subrange(0, done + 1).drop_last() =~= all.subrange(0, done));
                    proof {
                        lemma_pairs_lookup(all, done);
                        lemma_pairs_finite(all);
                        assert(held->Object_0[x.0@] == value_holds(x.1));
                    }
                    let j = Json::from_value(x.1);
                    out.push((x.0, j));
                    assert(out@.drop_last() =~= before);
                }
                assert(all.subrange(0, all.len() as int) =~= all);
                Json::Object(out)
            },
        }
    }

    /// The value as `serde_json` keeps it.
    pub fn to_value(&self) -> (r: serde_json::Value)
        ensures
            value_holds(r) == self@,
        decreases self,
    {
        match self {
            Json::Null => close_value(Parts::Null),
            Json::Bool(b) => close_value(Parts::Bool(*b)),
            Json::Number(n) => close_value(Parts::Number(n.clone())),
            Json::Str(s) => close_value(Parts::Str(owned(s.as_str()))),
            Json::Array(v) => {
                let mut out: Vec<serde_json::Value> = Vec::new();
                let mut i: usize = 0;
                while i < v.len()
                    invariant
                        i <= v.len(),
                        *self == Json::Array(*v),
                        out@.len() == i,
                        forall|k: int| 0 <= k < i ==> value_holds(#[trigger] out@[k]) == v@[k]@,
                    decreases v.len() - i,
                {
                    proof {
                        lemma_item_smaller(*self, *v, i as int);
                    }
                    out.push(v[i].to_value());
                    i += 1;
                }
                assert(Seq::new(out@.len(), |i: int| value_holds(out@[i])) =~= items_view(v@));
                close_value(Parts::Array(out))
            },
            Json::Object(v) => {
                let mut out: Vec<(String, serde_json::Value)> = Vec::new();
                let mut i: usize = 0;
                while i < v.len()
                    invariant
                        i <= v.len(),
                        *self == Json::Object(*v),
                        pairs_hold(out@) == entries_view(v@.subrange(0, i as int)),
                    decreases v.len() - i,
                {
                    let ghost before = out@;
                    proof {
                        lemma_entry_smaller(*self, *v, i as int);
                    }
                    let key = owned(v[i].0.as_str());
                    let value = v[i].1.to_value();
                    out.push((key, value));
                    assert(out@.drop_last() =~= before);
                    assert(v@.subrange(0, i + 1).drop_last() =~= v@.subrange(0, i as int));
                    i += 1;
                }
                assert(v@.subrange(0, i as int) =~= v@);
                close_value(Parts::Object(out))
            },
        }
    }

    /// The compact text of the value. Without fractions, and nested at most a
    /// hundred deep, it is read as the same value again.
    pub fn print(&self) -> (r: String)
        ensures
            r@ == printed(self@),
            rereadable(self@, 100) ==> reads_back(self@),
    {
        print_value(&self.to_value())
    }
}

/// Objects are finite, at any depth: what holds of every value that there is.
pub open spec fn finite(v: JsonView) -> bool
    decreases v,
{
    match v {
        JsonView::Object(m) => m.dom().finite() && forall|k: Seq<char>|
            #[trigger] m.contains_key(k) && m.dom().finite() ==> finite(m[k]),
        JsonView::Array(s) => forall|i: int| 0 <= i < s.len() ==> finite(#[trigger] s[i]),
        _ => true,
    }
}

/// Every value is finite.
pub proof fn law_values_are_finite(j: Json)
    ensures
        finite(j@),
    decreases j,
{
    match j {
        Json::Array(v) => {
            let s = items_view(v@);
            assert(j@ == JsonView::Array(s));
            assert forall|i: int| 0 <= i < s.len() implies finite(#[trigger] s[i]) by {
                lemma_item_smaller(j, v, i);
                law_values_are_finite(v@[i]);
                assert(s[i] == v@[i]@);
            }
        },
        Json::Object(v) => {
            lemma_entries_finite(v@);
            assert forall|i: int| 0 <= i < v@.len() implies finite(#[trigger] v@[i].1@) by {
                lemma_entry_smaller(j, v, i);
                law_values_are_finite(v@[i].1);
            }
            lemma_members_finite(v@);
        },
        _ => {},
    }
}

proof fn lemma_members_finite(s: Seq<(String, Json)>)
    requires
        forall|i: int| 0 <= i < s.len() ==> finite(#[trigger] s[i].1@),
    ensures
        forall|k: Seq<char>| #[trigger]
            entries_view(s).contains_key(k) ==> finite(entries_view(s)[k]),
    decreases s.len(),
{
    if s.len() > 0 {
        assert forall|i: int| 0 <= i < s.drop_last().len() implies finite(
            #[trigger] s.drop_last()[i].1@,
        ) by {
            assert(s.drop_last()[i] == s[i]);
        }
        lemma_members_finite(s.drop_last());
        assert(finite(s[s.len() - 1].1@));
        let before = entries_view(s.drop_last());
        assert forall|k: Seq<char>| #[trigger] entries_view(s).contains_key(k) implies finite(
            entries_view(s)[k],
        ) by {
            if k != s.last().0@ {
                assert(before.contains_key(k));
            }
        }
    }
}

/// An item is smaller than the array it stands in.
pub proof fn lemma_item_smaller(j: Json, v: Vec<Json>, i: int)
    requires
        j == Json::Array(v),
        0 <= i < v.len(),
    ensures
        decreases_to!(j => v@[i]),
{
    assert(decreases_to!(j => j->Array_0));
    assert(decreases_to!(v => v@));
    assert(decreases_to!(v@ => v@[i]));
}

/// A member is smaller than the object it stands in.
pub proof fn lemma_entry_smaller(j: Json, v: Vec<(String, Json)>, i: int)
    requires
        j == Json::Object(v),
        0 <= i < v.len(),
    ensures
        decreases_to!(j => v@[i].1),
{
    assert(decreases_to!(j => j->Object_0));
    assert(decreases_to!(v => v@));
    assert(decreases_to!(v@ => v@[i]));
    assert(decreases_to!(v@[i] => v@[i].1));
}

proof fn lemma_pairs_finite(s: Seq<(String, serde_json::Value)>)
    ensures
        pairs_hold(s).dom().finite(),
    decreases s.len(),
{
    if s.len() > 0 {
        lemma_pairs_finite(s.drop_last());
    }
}

proof fn lemma_pairs_lookup(s: Seq<(String, serde_json::Value)>, i: int)
    requires
        keys_differ(s),
        0 <= i < s.len(),
    ensures
        pairs_hold(s).contains_key(s[i].0@),
        pairs_hold(s)[s[i].0@] == value_holds(s[i].1),
    decreases s.len(),
{
    if i < s.len() - 1 {
        assert(s[i].0@ != s[s.len() - 1].0@);
        lemma_pairs_lookup(s.drop_last(), i);
        assert(s.drop_last()[i] == s[i]);
    }
}

/// A copy of the value that `v` points to, `fallback` where it points to none.
pub fn copy_or(v: Option<&Json>, fallback: Json) -> (r: Json)
    ensures
        r@ == or_else(opt_view(v), fallback@),
{
    match v {
        Some(j) => j.copy(),
        None => fallback,
    }
}

/// Puts the items of `more` behind those of `v`.
pub fn append_items(v: &mut Vec<Json>, more: Vec<Json>)
    ensures
        items_view(final(v)@) == items_view(old(v)@) + items_view(more@),
{
    let mut more = more;
    let ghost tail = more@;
    v.append(&mut more);
    assert(items_view(v@) =~= items_view(old(v)@) + items_view(tail));
}

/// Puts one item behind the others.
pub fn push_item(v: &mut Vec<Json>, item: Json)
    ensures
        items_view(final(v)@) == items_view(old(v)@).push(item@),
{
    v.push(item);
    assert(items_view(v@) =~= items_view(old(v)@).push(item@));
}

/// What `serde_json` reads from a text.
pub fn parse_json(s: &str) -> (r: Option<Json>)
    ensures
        one_decimal(s@) ==> r is Some,
        match r {
            Some(j) => parsed(s@) == Some(j@),
            None => parsed(s@) is None,
        },
{
    match parse_value(s) {
        Some(v) => Some(Json::from_value(v)),
        None => None,
    }
}

/// What `serde_json` reads from bytes, or the text of its error.
pub fn parse_json_bytes(bytes: &[u8]) -> (r: Result<Json, String>)
    ensures
        match r {
            Ok(j) => parsed_bytes(bytes@) == Ok::<JsonView, Seq<char>>(j@),
            Err(e) => parsed_bytes(bytes@) == Err::<JsonView, Seq<char>>(e@),
        },
{
    match parse_value_bytes(bytes) {
        Ok(v) => Ok(Json::from_value(v)),
        Err(e) => Err(e),
    }
}

} // verus!
