//! What may be written to logs and record files.
use vstd::prelude::*;

use crate::text::{
    ascii_alphanumeric, chars_of, find_from, lemma_find_is_occurs, occurs, occurs_at, owned,
    replace, replace_from, replaced, same,
};

verus! {

/// A text with every occurrence of a secret hidden. An empty secret hides
/// nothing.
pub open spec fn redacted(secret: Seq<char>, s: Seq<char>) -> Seq<char> {
    if secret.len() == 0 {
        s
    } else {
        replaced(s, secret, "***"@)
    }
}

/// A text with every occurrence of a secret hidden.
pub fn redact(secret: &str, text: &str) -> (r: String)
    ensures
        r@ == redacted(secret@, text@),
{
    if secret.is_empty() {
        return owned(text);
    }
    replace(text, secret, "***")
}

/// Where a text that ends with asterisks and one that begins with them meet,
/// nothing new without asterisks appears.
proof fn lemma_no_occurrence_across(a: Seq<char>, b: Seq<char>, secret: Seq<char>)
    requires
        !occurs(a, secret),
        !occurs(b, secret),
        forall|i: int| 0 <= i < secret.len() ==> #[trigger] secret[i] != '*',
        secret.len() > 0,
    ensures
        !occurs(a + "***"@ + b, secret),
{
    reveal_strlit("***");
    let s = a + "***"@ + b;
    let n = a.len() as int;
    assert forall|i: int| !occurs_at(s, secret, i) by {
        if occurs_at(s, secret, i) {
            let part = s.subrange(i, i + secret.len());
            if i + secret.len() <= n {
                assert(a.subrange(i, i + secret.len()) =~= part);
                assert(occurs_at(a, secret, i));
            } else if i >= n + 3 {
                assert(b.subrange(i - n - 3, i - n - 3 + secret.len()) =~= part);
                assert(occurs_at(b, secret, i - n - 3));
            } else {
                let j = if i < n { n } else { i };
                assert(s[j] == '*');
                assert(part[j - i] == '*');
                assert(secret[j - i] == '*');
            }
        }
    }
}

proof fn lemma_replaced_has_none(s: Seq<char>, secret: Seq<char>, i: int)
    requires
        0 <= i <= s.len(),
        secret.len() > 0,
        forall|k: int| 0 <= k < secret.len() ==> #[trigger] secret[k] != '*',
    ensures
        !occurs(replace_from(s, secret, "***"@, i), secret),
    decreases s.len() - i,
{
    lemma_find_is_occurs(s, secret, i);
    match find_from(s, secret, i) {
        Some(k) => {
            let a = s.subrange(i, k);
            assert forall|j: int| !occurs_at(a, secret, j) by {
                if occurs_at(a, secret, j) {
                    assert(a.subrange(j, j + secret.len()) =~= s.subrange(
                        i + j,
                        i + j + secret.len(),
                    ));
                    assert(occurs_at(s, secret, i + j));
                }
            }
            lemma_replaced_has_none(s, secret, k + secret.len());
            lemma_no_occurrence_across(
                a,
                replace_from(s, secret, "***"@, k + secret.len()),
                secret,
            );
        },
        None => {
            let a = s.subrange(i, s.len() as int);
            assert forall|j: int| !occurs_at(a, secret, j) by {
                if occurs_at(a, secret, j) {
                    assert(a.subrange(j, j + secret.len()) =~= s.subrange(
                        i + j,
                        i + j + secret.len(),
                    ));
                    assert(occurs_at(s, secret, i + j));
                }
            }
        },
    }
}

/// Nothing is left of a secret, unless it holds an asterisk itself.
pub proof fn law_redacted_text_holds_no_secret(secret: Seq<char>, s: Seq<char>)
    requires
        secret.len() > 0,
        forall|i: int| 0 <= i < secret.len() ==> #[trigger] secret[i] != '*',
    ensures
        !occurs(redacted(secret, s), secret),
{
    lemma_replaced_has_none(s, secret, 0);
}

/// A character that may stand in the name of a directory.
pub open spec fn path_char(c: char) -> bool {
    ascii_alphanumeric(c) || c == '.' || c == '_' || c == '-'
}

/// A name for a directory: what may not stand in one becomes an underscore,
/// and what would lead elsewhere is refused.
pub open spec fn path_component(raw: Seq<char>) -> Seq<char> {
    if raw.len() == 0 || raw == "."@ || raw == ".."@ {
        "_invalid"@
    } else {
        raw.map_values(
            |c: char|
                if path_char(c) {
                    c
                } else {
                    '_'
                },
        )
    }
}

/// A name for a directory.
pub fn sanitize_path_component(raw: &str) -> (r: String)
    ensures
        r@ == path_component(raw@),
{
    if raw.is_empty() || same(raw, ".") || same(raw, "..") {
        return owned("_invalid");
    }
    let v = chars_of(raw);
    let mut out = String::new();
    let mut i: usize = 0;
    while i < v.len()
        invariant
            i <= v.len(),
            out@ =~= v@.subrange(0, i as int).map_values(
                |c: char|
                    if path_char(c) {
                        c
                    } else {
                        '_'
                    },
            ),
        decreases v.len() - i,
    {
        let c = v[i];
        if ('0' <= c && c <= '9') || ('a' <= c && c <= 'z') || ('A' <= c && c <= 'Z') || c == '.'
            || c == '_' || c == '-' {
            out.push(c);
        } else {
            out.push('_');
        }
        i += 1;
    }
    assert(v@.subrange(0, i as int) =~= v@);
    out
}

/// A name for a directory has only safe characters, and names neither this
/// directory nor the one above.
pub proof fn law_path_component_is_safe(raw: Seq<char>)
    ensures
        path_component(raw).len() > 0,
        forall|i: int|
            0 <= i < path_component(raw).len() ==> path_char(#[trigger] path_component(raw)[i]),
        path_component(raw) != "."@,
        path_component(raw) != ".."@,
{
    reveal_strlit("_invalid");
    reveal_strlit(".");
    reveal_strlit("..");
    assert("_invalid"@.len() == 8 && "."@.len() == 1 && ".."@.len() == 2);
    if !(raw.len() == 0 || raw == "."@ || raw == ".."@) {
        let out = path_component(raw);
        assert(out.len() == raw.len());
        assert forall|i: int| 0 <= i < out.len() implies (out[i] == '.' ==> raw[i] == '.') by {}
        if out == "."@ {
            assert(out[0] == '.');
            assert(raw[0] == '.');
            assert(raw =~= "."@);
        }
        if out == ".."@ {
            assert(out[0] == '.' && out[1] == '.');
            assert(raw[0] == '.' && raw[1] == '.');
            assert(raw =~= ".."@);
        }
    }
}

// ---------------------------------------------------------------------------
// Recording an answer while it passes
// ---------------------------------------------------------------------------

/// Collects an answer while it passes to the client, and hands it over once.
pub struct Tee {
    pub collected: Vec<u8>,
    pub fired: bool,
}

impl Tee {
    pub fn new() -> (r: Tee)
        ensures
            r.collected@ == Seq::<u8>::empty(),
            !r.fired,
    {
        Tee { collected: Vec::new(), fired: false }
    }

    /// A piece of the answer passed.
    pub fn push(&mut self, chunk: &[u8])
        ensures
            final(self).collected@ == old(self).collected@ + chunk@,
            final(self).fired == old(self).fired,
    {
        let ghost start = self.collected@;
        let mut i: usize = 0;
        while i < chunk.len()
            invariant
                i <= chunk.len(),
                self.collected@ =~= start + chunk@.subrange(0, i as int),
                self.fired == old(self).fired,
            decreases chunk.len() - i,
        {
            self.collected.push(chunk[i]);
            i += 1;
        }
        assert(chunk@.subrange(0, i as int) =~= chunk@);
    }

    /// The answer ended, cleanly or not: what was collected, the first time.
    pub fn finish(&mut self, complete: bool) -> (r: Option<(Vec<u8>, bool)>)
        ensures
            final(self).fired,
            match r {
                Some(p) => !old(self).fired && p.0@ == old(self).collected@ && p.1 == complete,
                None => old(self).fired,
            },
    {
        if self.fired {
            return None;
        }
        self.fired = true;
        let mut all: Vec<u8> = Vec::new();
        std::mem::swap(&mut all, &mut self.collected);
        Some((all, complete))
    }
}


// ---------------------------------------------------------------------------
// Laws
// ---------------------------------------------------------------------------

/// Only the secret is hidden: a text without it stays as it is, and any other is
/// its pieces between the secrets, joined with three asterisks.
pub proof fn law_only_the_secret_is_hidden(secret: Seq<char>, s: Seq<char>)
    ensures
        secret.len() == 0 || !occurs(s, secret) ==> redacted(secret, s) == s,
        secret.len() > 0 ==> redacted(secret, s) == crate::text::joined(
            crate::text::split_on(s, secret),
            "***"@,
        ),
{
    if secret.len() > 0 {
        crate::text_laws::law_replacing(s, secret, "***"@);
    }
}

/// A name for a directory keeps its letters, digits, dots, underscores and hyphens
/// in their places, and has an underscore for anything else.
pub proof fn law_path_component_keeps_names(raw: Seq<char>, i: int)
    requires
        raw.len() > 0,
        raw != "."@,
        raw != ".."@,
        0 <= i < raw.len(),
    ensures
        path_component(raw).len() == raw.len(),
        'a' <= raw[i] <= 'z' || 'A' <= raw[i] <= 'Z' || '0' <= raw[i] <= '9' || raw[i] == '.'
            || raw[i] == '_' || raw[i] == '-' ==> path_component(raw)[i] == raw[i],
        !('a' <= raw[i] <= 'z' || 'A' <= raw[i] <= 'Z' || '0' <= raw[i] <= '9' || raw[i] == '.'
            || raw[i] == '_' || raw[i] == '-') ==> path_component(raw)[i] == '_',
{
}

} // verus!
