//! Finding a Command Code key on this machine. The caller reads the
//! environment and the files.
use vstd::prelude::*;

use crate::backoff::opt_str;
use crate::codex::sse_bridge::opt_text;
use crate::json::{opt_view, parse_json, parsed, Json, JsonView};
use crate::text::{owned, texts, trim, trimmed};

verus! {

/// The key of one entry: a string, or the member `key` or else `access` of an
/// object.
pub open spec fn entry_key(v: Option<JsonView>) -> Option<Seq<char>> {
    match v {
        Some(JsonView::Str(s)) => Some(s),
        Some(JsonView::Object(m)) => match v->0.at("key"@).str() {
            Some(k) => Some(k),
            None => v->0.at("access"@).str(),
        },
        _ => None,
    }
}

pub fn extract_entry(value: Option<&Json>) -> (r: Option<String>)
    ensures
        opt_text(r) == entry_key(opt_view(value)),
{
    match value {
        None => None,
        Some(v) => match v {
            Json::Str(s) => Some(owned(s.as_str())),
            Json::Object(_) => match v.at("key").as_str() {
                Some(k) => Some(owned(k)),
                None => match v.at("access").as_str() {
                    Some(k) => Some(owned(k)),
                    None => None,
                },
            },
            _ => None,
        },
    }
}

/// The key in the JSON of an auth file: under the first of three names that
/// has one.
pub open spec fn auth_key(v: JsonView) -> Option<Seq<char>> {
    match entry_key(v.field("apiKey"@)) {
        Some(k) => Some(k),
        None => match entry_key(v.field("commandcode"@)) {
            Some(k) => Some(k),
            None => entry_key(v.field("command-code"@)),
        },
    }
}

/// The key in the JSON of an auth file.
pub fn key_in_auth(v: &Json) -> (r: Option<String>)
    ensures
        opt_text(r) == auth_key(v@),
{
    match extract_entry(v.get("apiKey")) {
        Some(k) => Some(k),
        None => match extract_entry(v.get("commandcode")) {
            Some(k) => Some(k),
            None => extract_entry(v.get("command-code")),
        },
    }
}

/// The key in the text of an auth file.
pub open spec fn file_key(raw: Seq<char>) -> Option<Seq<char>> {
    match parsed(raw) {
        Some(v) => auth_key(v),
        None => None,
    }
}

/// The key in the text of an auth file.
pub fn key_from_auth_json(raw: &str) -> (r: Option<String>)
    ensures
        opt_text(r) == file_key(raw@),
{
    match parse_json(raw) {
        Some(v) => key_in_auth(&v),
        None => None,
    }
}

/// The key that a setting of the environment gives: without the white space
/// around it, and none where it is blank.
pub open spec fn setting_key(raw: Option<Seq<char>>) -> Option<Seq<char>> {
    match raw {
        Some(s) => if trimmed(s).len() > 0 {
            Some(trimmed(s))
        } else {
            None
        },
        None => None,
    }
}

/// The key that a setting of the environment gives.
pub fn key_from_setting(raw: Option<&str>) -> (r: Option<String>)
    ensures
        opt_text(r) == setting_key(opt_str(raw)),
{
    match raw {
        Some(s) => {
            let key = trim(s);
            if key.as_str().is_empty() {
                None
            } else {
                Some(key)
            }
        },
        None => None,
    }
}

/// The key of the first of the files that has one.
pub open spec fn first_file_key(files: Seq<Seq<char>>) -> Option<Seq<char>>
    decreases files.len(),
{
    if files.len() == 0 {
        None
    } else {
        match file_key(files[0]) {
            Some(k) => Some(k),
            None => first_file_key(files.drop_first()),
        }
    }
}

/// The key to use, of two settings and the texts of auth files: the first that
/// there is.
pub fn first_key(own: Option<&str>, shared: Option<&str>, files: &Vec<String>) -> (r: Option<
    String,
>)
    ensures
        opt_text(r) == match setting_key(opt_str(own)) {
            Some(k) => Some(k),
            None => match setting_key(opt_str(shared)) {
                Some(k) => Some(k),
                None => first_file_key(texts(files@)),
            },
        },
{
    match key_from_setting(own) {
        Some(k) => {
            return Some(k);
        },
        None => {},
    }
    match key_from_setting(shared) {
        Some(k) => {
            return Some(k);
        },
        None => {},
    }
    let ghost all = texts(files@);
    let mut i: usize = 0;
    assert(all.subrange(0, all.len() as int) =~= all);
    while i < files.len()
        invariant
            i <= files.len(),
            all == texts(files@),
            setting_key(opt_str(own)) is None,
            setting_key(opt_str(shared)) is None,
            first_file_key(all) == first_file_key(all.subrange(i as int, all.len() as int)),
        decreases files.len() - i,
    {
        assert(all.subrange(i as int, all.len() as int).drop_first() =~= all.subrange(
            i + 1,
            all.len() as int,
        ));
        match key_from_auth_json(files[i].as_str()) {
            Some(k) => {
                return Some(k);
            },
            None => {},
        }
        i += 1;
    }
    None
}


// ---------------------------------------------------------------------------
// Laws
// ---------------------------------------------------------------------------

/// An entry is a key itself, or an object that has it under `key` or else under
/// `access`.
pub proof fn law_entries_have_keys(v: JsonView)
    ensures
        v is Str ==> entry_key(Some(v)) == v.str(),
        v is Object && v.at("key"@) is Str ==> entry_key(Some(v)) == v.at("key"@).str(),
        v is Object && !(v.at("key"@) is Str) ==> entry_key(Some(v)) == v.at("access"@).str(),
        !(v is Str) && !(v is Object) ==> entry_key(Some(v)) is None,
        entry_key(None) is None,
{
}

/// A key is looked for under three names, in this order.
pub proof fn law_names_of_keys(v: JsonView)
    ensures
        entry_key(v.field("apiKey"@)) is Some ==> auth_key(v) == entry_key(v.field("apiKey"@)),
        entry_key(v.field("apiKey"@)) is None && entry_key(v.field("commandcode"@)) is Some
            ==> auth_key(v) == entry_key(v.field("commandcode"@)),
        entry_key(v.field("apiKey"@)) is None && entry_key(v.field("commandcode"@)) is None
            ==> auth_key(v) == entry_key(v.field("command-code"@)),
{
}

/// A file that is JSON has the key that its JSON has, and any other file has none.
pub proof fn law_files_have_keys(raw: Seq<char>)
    ensures
        parsed(raw) matches Some(v) ==> file_key(raw) == auth_key(v),
        parsed(raw) is None ==> file_key(raw) is None,
{
}

/// Of several files the first that has a key counts.
pub proof fn law_first_file_counts(files: Seq<Seq<char>>, k: int)
    ensures
        0 <= k < files.len() && file_key(files[k]) is Some && (forall|i: int|
            0 <= i < k ==> file_key(#[trigger] files[i]) is None) ==> first_file_key(files)
            == file_key(files[k]),
        (forall|i: int| 0 <= i < files.len() ==> file_key(#[trigger] files[i]) is None)
            ==> first_file_key(files) is None,
    decreases files.len(),
{
    if files.len() > 0 {
        let rest = files.drop_first();
        law_first_file_counts(rest, k - 1);
        if file_key(files[0]) is None {
            if 0 < k < files.len() && (forall|i: int|
                0 <= i < k ==> file_key(#[trigger] files[i]) is None) {
                assert(rest[k - 1] == files[k]);
                assert forall|i: int| 0 <= i < k - 1 implies file_key(#[trigger] rest[i]) is None by {
                    assert(rest[i] == files[i + 1]);
                }
            }
            if forall|i: int| 0 <= i < files.len() ==> file_key(#[trigger] files[i]) is None {
                assert forall|i: int| 0 <= i < rest.len() implies file_key(
                    #[trigger] rest[i],
                ) is None by {
                    assert(rest[i] == files[i + 1]);
                }
            }
        }
    }
}

/// A setting gives its text without the white space around it; a blank one gives no
/// key.
pub proof fn law_settings_give_keys(raw: Seq<char>)
    ensures
        crate::text_laws::blank(raw) ==> setting_key(Some(raw)) is None,
        !crate::text_laws::blank(raw) ==> setting_key(Some(raw)) == Some(trimmed(raw)),
        setting_key(None) is None,
{
    crate::text_laws::law_trimmed(raw);
}

} // verus!
