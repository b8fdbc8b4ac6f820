//! The slug by which Command Code knows a project.
use vstd::prelude::*;

use crate::text::{ascii_alphanumeric, chars_of, owned, string_of};

verus! {

/// What `str::to_lowercase` makes of a text.
pub uninterp spec fn unicode_lower(s: Seq<char>) -> Seq<char>;

/// A text of small ASCII letters, digits and hyphens.
pub open spec fn plain(s: Seq<char>) -> bool {
    forall|i: int|
        0 <= i < s.len() ==> 'a' <= #[trigger] s[i] <= 'z' || '0' <= s[i] <= '9' || s[i] == '-'
}

/// `str::to_lowercase`: the text is a function of the text given. It holds none
/// of the letters A to Z, and a text of small ASCII letters, digits and hyphens
/// stays as it is.
#[verifier::external_body]
fn to_lower(s: &str) -> (r: String)
    ensures
        r@ == unicode_lower(s@),
        forall|i: int| 0 <= i < r@.len() ==> !('A' <= #[trigger] r@[i] <= 'Z'),
        plain(s@) ==> r@ == s@,
{
    s.to_lowercase()
}

pub open spec fn ascii_letter(c: char) -> bool {
    'a' <= c <= 'z' || 'A' <= c <= 'Z'
}

/// A path without the drive letter that may begin it.
pub open spec fn without_drive(path: Seq<char>) -> Seq<char> {
    if path.len() >= 2 && ascii_letter(path[0]) && path[1] == ':' {
        path.subrange(2, path.len() as int)
    } else {
        path
    }
}

/// The runs of ASCII letters and digits in `s`, with one hyphen between any
/// two.
pub open spec fn hyphenated(s: Seq<char>) -> Seq<char>
    decreases s.len(),
{
    if s.len() == 0 {
        seq![]
    } else {
        let before = hyphenated(s.drop_last());
        if !ascii_alphanumeric(s.last()) {
            before
        } else if before.len() > 0 && !ascii_alphanumeric(s[s.len() - 2]) {
            before.push('-').push(s.last())
        } else {
            before.push(s.last())
        }
    }
}

/// The slug of a lower-case path: its runs, or `project` where it has none.
pub open spec fn slug_of(lower: Seq<char>) -> Seq<char> {
    if hyphenated(lower).len() == 0 {
        "project"@
    } else {
        hyphenated(lower)
    }
}

fn is_alphanumeric(c: char) -> (r: bool)
    ensures
        r == ascii_alphanumeric(c),
{
    ('0' <= c && c <= '9') || ('a' <= c && c <= 'z') || ('A' <= c && c <= 'Z')
}

/// The slug of a lower-case path.
pub fn slug_of_lowercase(lower: &str) -> (r: String)
    ensures
        r@ == slug_of(lower@),
{
    let v = chars_of(lower);
    let mut slug = String::new();
    let mut any = false;
    let mut separator = false;
    let mut i: usize = 0;
    while i < v.len()
        invariant
            i <= v.len(),
            v@ == lower@,
            slug@ == hyphenated(lower@.subrange(0, i as int)),
            any == (slug@.len() > 0),
            separator == (i > 0 && !ascii_alphanumeric(lower@[i - 1])),
        decreases v.len() - i,
    {
        assert(lower@.subrange(0, i + 1).drop_last() =~= lower@.subrange(0, i as int));
        let c = v[i];
        if is_alphanumeric(c) {
            proof {
                if i == 0 {
                    assert(hyphenated(lower@.subrange(0, 0)).len() == 0);
                }
            }
            if separator && any {
                slug.push('-');
            }
            separator = false;
            slug.push(c);
            any = true;
        } else {
            separator = true;
        }
        i += 1;
    }
    assert(lower@.subrange(0, i as int) =~= lower@);
    if any {
        slug
    } else {
        owned("project")
    }
}

/// A text in lower case.
pub open spec fn lower_case(s: Seq<char>) -> Seq<char> {
    if plain(s) {
        s
    } else {
        unicode_lower(s)
    }
}

/// The slug of a project's path.
pub open spec fn project_slug(path: Seq<char>) -> Seq<char> {
    slug_of(lower_case(without_drive(path)))
}

/// A text of small ASCII letters, digits and hyphens that is not empty, with
/// hyphens only between two other characters.
pub open spec fn is_slug(s: Seq<char>) -> bool {
    &&& s.len() > 0
    &&& plain(s)
    &&& s[0] != '-'
    &&& s.last() != '-'
    &&& forall|i: int| 0 <= i < s.len() - 1 && #[trigger] s[i] == '-' ==> s[i + 1] != '-'
}

/// The slug of a project's path, which is its own slug, and `project` where the
/// path has no letter or digit to show.
pub fn project_slug_from_path(path: &str) -> (r: String)
    ensures
        r@ == project_slug(path@),
        is_slug(r@),
        project_slug(r@) == r@,
        ({
            let lower = lower_case(without_drive(path@));
            (forall|i: int| 0 <= i < lower.len() ==> !ascii_alphanumeric(#[trigger] lower[i]))
                ==> r@ == "project"@
        }),
{
    let v = chars_of(path);
    let start: usize = if v.len() >= 2 && (('a' <= v[0] && v[0] <= 'z') || ('A' <= v[0] && v[0]
        <= 'Z')) && v[1] == ':' {
        2
    } else {
        0
    };
    let rest = string_of(&v, start, v.len());
    assert(rest@ =~= without_drive(path@));
    let lower = to_lower(rest.as_str());
    let slug = slug_of_lowercase(lower.as_str());
    proof {
        assert(lower@ == lower_case(without_drive(path@)));
        law_slug(lower@);
        law_slug_of_slug(slug@);
    }
    slug
}

/// The slug of a text without capital letters is never empty, holds only small
/// ASCII letters, digits and single hyphens, and neither begins nor ends with a
/// hyphen. It is `project` where the text has no ASCII letter or digit.
pub proof fn law_slug(lower: Seq<char>)
    requires
        forall|i: int| 0 <= i < lower.len() ==> !('A' <= #[trigger] lower[i] <= 'Z'),
    ensures
        is_slug(slug_of(lower)),
        (forall|i: int| 0 <= i < lower.len() ==> !ascii_alphanumeric(#[trigger] lower[i]))
            ==> slug_of(lower) == "project"@,
{
    lemma_hyphenated(lower);
    reveal_strlit("project");
}

/// A slug is its own slug.
pub proof fn law_slug_of_slug(s: Seq<char>)
    requires
        is_slug(s),
    ensures
        project_slug(s) == s,
{
    lemma_hyphenated_slug(s);
    assert(s.len() >= 2 ==> s[1] != ':');
}

proof fn lemma_hyphenated_slug(s: Seq<char>)
    requires
        plain(s),
        s.len() > 0 ==> s[0] != '-',
        forall|i: int| 0 <= i < s.len() - 1 && #[trigger] s[i] == '-' ==> s[i + 1] != '-',
    ensures
        hyphenated(s) == if s.len() > 0 && s.last() == '-' {
            s.drop_last()
        } else {
            s
        },
    decreases s.len(),
{
    if s.len() > 0 {
        let before = s.drop_last();
        assert forall|i: int|
            0 <= i < before.len() - 1 && #[trigger] before[i] == '-' implies before[i + 1]
            != '-' by {
            assert(s[i] == '-');
        }
        lemma_hyphenated_slug(before);
        if s.last() != '-' && before.len() > 0 && before.last() == '-' {
            assert(before.drop_last().push('-').push(s.last()) =~= s);
        }
        if s.last() == '-' && before.len() > 0 {
            assert(s[s.len() - 2] == before.last());
        }
        assert(before.push(s.last()) =~= s);
    }
}

proof fn lemma_hyphenated(s: Seq<char>)
    requires
        forall|i: int| 0 <= i < s.len() ==> !('A' <= #[trigger] s[i] <= 'Z'),
    ensures
        ({
            let h = hyphenated(s);
            &&& plain(h)
            &&& h.len() > 0 ==> h[0] != '-' && h.last() != '-'
            &&& forall|i: int|
                0 <= i < h.len() - 1 && #[trigger] h[i] == '-' ==> h[i + 1] != '-'
            &&& (forall|i: int| 0 <= i < s.len() ==> !ascii_alphanumeric(#[trigger] s[i]))
                ==> h.len() == 0
        }),
    decreases s.len(),
{
    if s.len() > 0 {
        let before = s.drop_last();
        assert forall|i: int| 0 <= i < before.len() implies !('A' <= #[trigger] before[i]
            <= 'Z') by {
            assert(before[i] == s[i]);
        }
        lemma_hyphenated(before);
        assert(s.last() == s[s.len() - 1]);
        assert(forall|i: int| 0 <= i < before.len() ==> before[i] == s[i]);
    }
}


/// The letter of a drive before a colon is no part of the path; anything else is.
pub proof fn law_drives_are_left_out(path: Seq<char>)
    ensures
        path.len() >= 2 && ('a' <= path[0] <= 'z' || 'A' <= path[0] <= 'Z') && path[1] == ':'
            ==> path == path.subrange(0, 2) + without_drive(path),
        !(path.len() >= 2 && ('a' <= path[0] <= 'z' || 'A' <= path[0] <= 'Z') && path[1] == ':')
            ==> without_drive(path) == path,
{
    if path.len() >= 2 {
        assert(path =~= path.subrange(0, 2) + path.subrange(2, path.len() as int));
    }
}

/// A path that is in lower case already keeps its letters and digits; what has none
/// is a project without a name.
pub proof fn law_slugs_keep_their_letters(path: Seq<char>)
    requires
        plain(without_drive(path)),
    ensures
        hyphenated(without_drive(path)).len() > 0 ==> project_slug(path) == hyphenated(
            without_drive(path),
        ),
        hyphenated(without_drive(path)).len() == 0 ==> project_slug(path) == "project"@,
{
}

} // verus!
