//! Texts as sequences of characters: searching, cutting, trimming and
//! replacing, each stated over `Seq<char>`.
use vstd::prelude::*;

verus! {

// ---------------------------------------------------------------------------
// What the operations mean
// ---------------------------------------------------------------------------

/// `pat` stands in `s` at position `i`.
pub open spec fn occurs_at(s: Seq<char>, pat: Seq<char>, i: int) -> bool {
    &&& 0 <= i
    &&& i + pat.len() <= s.len()
    &&& s.subrange(i, i + pat.len()) == pat
}

/// `pat` stands somewhere in `s`.
pub open spec fn occurs(s: Seq<char>, pat: Seq<char>) -> bool {
    exists|i: int| occurs_at(s, pat, i)
}

/// The first position at or behind `i` at which `pat` stands in `s`.
pub open spec fn find_from(s: Seq<char>, pat: Seq<char>, i: int) -> Option<int>
    decreases s.len() + 1 - i,
{
    if i < 0 || i + pat.len() > s.len() {
        None
    } else if occurs_at(s, pat, i) {
        Some(i)
    } else {
        find_from(s, pat, i + 1)
    }
}

/// The part of `s` from `i` on, with every `pat`, read from the left, replaced
/// by `with`.
pub open spec fn replace_from(s: Seq<char>, pat: Seq<char>, with: Seq<char>, i: int) -> Seq<char>
    decreases s.len() - i,
{
    match find_from(s, pat, i) {
        Some(k) if i <= k && pat.len() > 0 && k + pat.len() <= s.len() => {
            s.subrange(i, k) + with + replace_from(s, pat, with, k + pat.len())
        },
        _ => s.subrange(i, s.len() as int),
    }
}

/// `s` with every `pat` replaced by `with`. Meant for a `pat` that is not empty.
pub open spec fn replaced(s: Seq<char>, pat: Seq<char>, with: Seq<char>) -> Seq<char> {
    replace_from(s, pat, with, 0)
}

/// The pieces of `s` from `i` on that stand between occurrences of `sep`.
pub open spec fn split_from(s: Seq<char>, sep: Seq<char>, i: int) -> Seq<Seq<char>>
    decreases s.len() - i,
{
    match find_from(s, sep, i) {
        Some(k) if i <= k && sep.len() > 0 && k + sep.len() <= s.len() => {
            seq![s.subrange(i, k)] + split_from(s, sep, k + sep.len())
        },
        _ => seq![s.subrange(i, s.len() as int)],
    }
}

/// The pieces of `s` that stand between occurrences of `sep`.
pub open spec fn split_on(s: Seq<char>, sep: Seq<char>) -> Seq<Seq<char>> {
    split_from(s, sep, 0)
}

/// What stands before and behind the first `sep` in `s`.
pub open spec fn split_once(s: Seq<char>, sep: Seq<char>) -> Option<(Seq<char>, Seq<char>)> {
    match find_from(s, sep, 0) {
        Some(k) => Some((s.subrange(0, k), s.subrange(k + sep.len(), s.len() as int))),
        None => None,
    }
}

/// `s` begins with `pre`.
pub open spec fn has_prefix(s: Seq<char>, pre: Seq<char>) -> bool {
    pre.len() <= s.len() && s.subrange(0, pre.len() as int) == pre
}

/// `s` ends with `suf`.
pub open spec fn has_suffix(s: Seq<char>, suf: Seq<char>) -> bool {
    suf.len() <= s.len() && s.subrange(s.len() - suf.len(), s.len() as int) == suf
}

/// What follows `pre` in `s`, where `s` begins with it.
pub open spec fn without_prefix(s: Seq<char>, pre: Seq<char>) -> Option<Seq<char>> {
    if has_prefix(s, pre) {
        Some(s.subrange(pre.len() as int, s.len() as int))
    } else {
        None
    }
}

/// What precedes `suf` in `s`, where `s` ends with it.
pub open spec fn without_suffix(s: Seq<char>, suf: Seq<char>) -> Option<Seq<char>> {
    if has_suffix(s, suf) {
        Some(s.subrange(0, s.len() - suf.len()))
    } else {
        None
    }
}

/// The characters with the Unicode property White_Space.
pub open spec fn white(c: char) -> bool {
    ||| '\u{9}' <= c <= '\u{d}'
    ||| c == '\u{20}'
    ||| c == '\u{85}'
    ||| c == '\u{a0}'
    ||| c == '\u{1680}'
    ||| '\u{2000}' <= c <= '\u{200a}'
    ||| c == '\u{2028}'
    ||| c == '\u{2029}'
    ||| c == '\u{202f}'
    ||| c == '\u{205f}'
    ||| c == '\u{3000}'
}

/// The control characters: Unicode's general category Cc.
pub open spec fn control(c: char) -> bool {
    c <= '\u{1f}' || '\u{7f}' <= c <= '\u{9f}'
}

pub open spec fn ascii_digit(c: char) -> bool {
    '0' <= c <= '9'
}

pub open spec fn ascii_alphanumeric(c: char) -> bool {
    '0' <= c <= '9' || 'a' <= c <= 'z' || 'A' <= c <= 'Z'
}

/// `c`, with the letters `A` to `Z` in lower case.
pub open spec fn lower(c: char) -> char {
    if 'A' <= c <= 'Z' {
        ((c as u8 + 32) as u8) as char
    } else {
        c
    }
}

/// `s`, with the letters `A` to `Z` in lower case.
pub open spec fn lowered(s: Seq<char>) -> Seq<char> {
    s.map_values(|c: char| lower(c))
}

/// `s` without the white space at its start.
pub open spec fn trimmed_start(s: Seq<char>) -> Seq<char>
    decreases s.len(),
{
    if s.len() > 0 && white(s[0]) {
        trimmed_start(s.subrange(1, s.len() as int))
    } else {
        s
    }
}

/// `s` without the white space at its end.
pub open spec fn trimmed_end(s: Seq<char>) -> Seq<char>
    decreases s.len(),
{
    if s.len() > 0 && white(s.last()) {
        trimmed_end(s.drop_last())
    } else {
        s
    }
}

/// `s` without the white space at both ends.
pub open spec fn trimmed(s: Seq<char>) -> Seq<char> {
    trimmed_end(trimmed_start(s))
}

/// The characters of `s` that `keep` holds of, in order.
pub open spec fn kept(s: Seq<char>, keep: spec_fn(char) -> bool) -> Seq<char>
    decreases s.len(),
{
    if s.len() == 0 {
        seq![]
    } else if keep(s.last()) {
        kept(s.drop_last(), keep).push(s.last())
    } else {
        kept(s.drop_last(), keep)
    }
}

/// At most the first `n` characters of `s`.
pub open spec fn head(s: Seq<char>, n: int) -> Seq<char> {
    if s.len() <= n {
        s
    } else {
        s.subrange(0, n)
    }
}

/// At most the last `n` characters of `s`.
pub open spec fn tail(s: Seq<char>, n: int) -> Seq<char> {
    if s.len() <= n {
        s
    } else {
        s.subrange(s.len() - n, s.len() as int)
    }
}

/// The words of `s`: the runs of characters that are no white space.
pub open spec fn words(s: Seq<char>) -> Seq<Seq<char>>
    decreases s.len(),
{
    if s.len() == 0 {
        seq![]
    } else {
        let before = words(s.drop_last());
        if white(s.last()) {
            before
        } else if before.len() == 0 || white(s[s.len() - 2]) {
            before.push(seq![s.last()])
        } else {
            before.drop_last().push(before.last().push(s.last()))
        }
    }
}

/// The `i`-th of some texts, an empty one where there are not so many.
pub open spec fn nth_or_empty(v: Seq<Seq<char>>, i: int) -> Seq<char> {
    if 0 <= i < v.len() {
        v[i]
    } else {
        seq![]
    }
}

/// The decimal digits of `n`, without leading zeros.
pub open spec fn decimal(n: nat) -> Seq<char>
    decreases n,
{
    if n < 10 {
        seq![digit_char(n)]
    } else {
        decimal(n / 10).push(digit_char(n % 10))
    }
}

/// The digit that stands for `d`, which is below ten.
pub open spec fn digit_char(d: nat) -> char {
    ((48 + d) as u8) as char
}

/// The number that ASCII digits write; none without digits or with anything
/// else.
pub open spec fn digits_value(s: Seq<char>) -> Option<nat>
    decreases s.len(),
{
    if s.len() == 0 || !ascii_digit(s.last()) {
        None
    } else {
        let d = (s.last() as u32 - 48) as nat;
        if s.len() == 1 {
            Some(d)
        } else {
            match digits_value(s.drop_last()) {
                Some(n) => Some(n * 10 + d),
                None => None,
            }
        }
    }
}

/// The number that ASCII digits write, behind a plus sign or without one.
pub open spec fn unsigned_value(s: Seq<char>) -> Option<nat> {
    if s.len() > 0 && s[0] == '+' {
        digits_value(s.subrange(1, s.len() as int))
    } else {
        digits_value(s)
    }
}

/// The pieces put behind one another, with `sep` between any two.
pub open spec fn joined(parts: Seq<Seq<char>>, sep: Seq<char>) -> Seq<char>
    decreases parts.len(),
{
    if parts.len() == 0 {
        seq![]
    } else if parts.len() == 1 {
        parts[0]
    } else {
        joined(parts.drop_last(), sep) + sep + parts.last()
    }
}

/// A line without the carriage return that may end it.
pub open spec fn without_cr(l: Seq<char>) -> Seq<char> {
    if l.len() > 0 && l.last() == '\r' {
        l.drop_last()
    } else {
        l
    }
}

/// The lines of `s`: each ends at a line feed, with or without a carriage
/// return before it; what follows the last line feed is a line where it is not
/// empty.
pub open spec fn lines_of(s: Seq<char>) -> Seq<Seq<char>> {
    let pieces = split_on(s, "\n"@);
    let ended = pieces.drop_last().map_values(|l: Seq<char>| without_cr(l));
    if pieces.last().len() == 0 {
        ended
    } else {
        ended.push(pieces.last())
    }
}

// ---------------------------------------------------------------------------
// std
// ---------------------------------------------------------------------------

/// `String::push` puts one character behind the others.
pub assume_specification[ String::push ](s: &mut String, ch: char)
    ensures
        final(s)@ == old(s)@.push(ch),
;

/// The text that `String::from_utf8_lossy` reads from bytes.
pub uninterp spec fn lossy(bytes: Seq<u8>) -> Seq<char>;

/// `String::from_utf8_lossy`: what it reads is a function of the bytes, and it
/// is the text itself where the bytes are valid UTF-8.
#[verifier::external_body]
pub(crate) fn text_from_bytes(bytes: &[u8]) -> (r: String)
    ensures
        r@ == lossy(bytes@),
        vstd::utf8::valid_utf8(bytes@) ==> r@ == vstd::utf8::decode_utf8(bytes@),
{
    String::from_utf8_lossy(bytes).into_owned()
}

/// `==` of `str`: the same characters in the same order.
#[verifier::external_body]
pub(crate) fn same(a: &str, b: &str) -> (r: bool)
    ensures
        r == (a@ == b@),
{
    a == b
}

// ---------------------------------------------------------------------------
// The operations
// ---------------------------------------------------------------------------

/// The characters of `s`, in order.
pub fn chars_of(s: &str) -> (r: Vec<char>)
    ensures
        r@ == s@,
{
    let mut out: Vec<char> = Vec::new();
    for c in it: s.chars()
        invariant
            it.seq() == s@,
            out@ == s@.subrange(0, it.index() as int),
    {
        out.push(c);
    }
    assert(s@.subrange(0, s@.len() as int) =~= s@);
    out
}

/// The text made of the characters of `v` from `from` up to, without, `to`.
pub fn string_of(v: &Vec<char>, from: usize, to: usize) -> (r: String)
    requires
        from <= to <= v.len(),
    ensures
        r@ == v@.subrange(from as int, to as int),
{
    let mut out = String::new();
    let mut i: usize = from;
    while i < to
        invariant
            from <= i <= to <= v.len(),
            out@ == v@.subrange(from as int, i as int),
        decreases to - i,
    {
        out.push(v[i]);
        i += 1;
        assert(out@ =~= v@.subrange(from as int, i as int));
    }
    out
}

/// A copy of `s`.
pub fn owned(s: &str) -> (r: String)
    ensures
        r@ == s@,
{
    s.to_string()
}

/// `a` with `b` behind it.
pub fn concat2(a: &str, b: &str) -> (r: String)
    ensures
        r@ == a@ + b@,
{
    let mut out = a.to_string();
    out.append(b);
    out
}

/// `a`, `b` and `c` behind one another.
pub fn concat3(a: &str, b: &str, c: &str) -> (r: String)
    ensures
        r@ == a@ + b@ + c@,
{
    let mut out = a.to_string();
    out.append(b);
    out.append(c);
    out
}

fn matches_at(v: &Vec<char>, pat: &Vec<char>, at: usize) -> (r: bool)
    requires
        at + pat.len() <= v.len(),
    ensures
        r == occurs_at(v@, pat@, at as int),
{
    let mut j: usize = 0;
    while j < pat.len()
        invariant
            j <= pat.len(),
            at + pat.len() <= v.len(),
            forall|k: int| 0 <= k < j ==> v@[at + k] == #[trigger] pat@[k],
        decreases pat.len() - j,
    {
        if v[at + j] != pat[j] {
            assert(v@.subrange(at as int, at + pat@.len())[j as int] != pat@[j as int]);
            return false;
        }
        j += 1;
    }
    assert(v@.subrange(at as int, at + pat@.len()) =~= pat@);
    true
}

/// The first position at or behind `from` at which `pat` stands in `v`.
pub fn find_in(v: &Vec<char>, pat: &Vec<char>, from: usize) -> (r: Option<usize>)
    requires
        from <= v.len(),
    ensures
        match r {
            Some(k) => find_from(v@, pat@, from as int) == Some(k as int) && from <= k && k
                + pat.len() <= v.len(),
            None => find_from(v@, pat@, from as int) is None,
        },
{
    if pat.len() > v.len() {
        return None;
    }
    let last: usize = v.len() - pat.len();
    let mut i: usize = from;
    while i <= last
        invariant
            from <= i,
            i <= v.len() + 1,
            last == v.len() - pat.len(),
            last <= v.len(),
            find_from(v@, pat@, from as int) == find_from(v@, pat@, i as int),
        decreases v.len() + 1 - i,
    {
        if matches_at(v, pat, i) {
            return Some(i);
        }
        if i == usize::MAX {
            return None;
        }
        i += 1;
    }
    None
}

/// Whether `pat` stands somewhere in `s`.
pub fn contains(s: &str, pat: &str) -> (r: bool)
    ensures
        r == occurs(s@, pat@),
{
    let v = chars_of(s);
    let p = chars_of(pat);
    proof {
        lemma_find_is_occurs(s@, pat@, 0);
    }
    find_in(&v, &p, 0).is_some()
}

/// `s` with every `pat` replaced by `with`.
pub fn replace(s: &str, pat: &str, with: &str) -> (r: String)
    requires
        pat@.len() > 0,
    ensures
        r@ == replaced(s@, pat@, with@),
{
    let v = chars_of(s);
    let p = chars_of(pat);
    let mut out = String::new();
    let mut pos: usize = 0;
    assert(out@ + replace_from(s@, pat@, with@, 0) =~= replaced(s@, pat@, with@));
    loop
        invariant
            v@ == s@,
            p@ == pat@,
            p.len() > 0,
            pos <= v.len(),
            out@ + replace_from(s@, pat@, with@, pos as int) == replaced(s@, pat@, with@),
        decreases v.len() - pos,
    {
        match find_in(&v, &p, pos) {
            Some(k) => {
                let piece = string_of(&v, pos, k);
                let ghost before = out@;
                out.append(piece.as_str());
                out.append(with);
                assert(out@ + replace_from(s@, pat@, with@, k + p.len()) =~= before
                    + replace_from(s@, pat@, with@, pos as int));
                pos = k + p.len();
            },
            None => {
                let piece = string_of(&v, pos, v.len());
                out.append(piece.as_str());
                return out;
            },
        }
    }
}

/// The pieces of `s` that stand between occurrences of `sep`.
pub fn split(s: &str, sep: &str) -> (r: Vec<String>)
    requires
        sep@.len() > 0,
    ensures
        texts(r@) == split_on(s@, sep@),
{
    let v = chars_of(s);
    let p = chars_of(sep);
    let mut out: Vec<String> = Vec::new();
    let mut pos: usize = 0;
    assert(texts(out@) + split_from(s@, sep@, 0) =~= split_on(s@, sep@));
    loop
        invariant
            v@ == s@,
            p@ == sep@,
            p.len() > 0,
            pos <= v.len(),
            texts(out@) + split_from(s@, sep@, pos as int) == split_on(s@, sep@),
        decreases v.len() - pos,
    {
        match find_in(&v, &p, pos) {
            Some(k) => {
                let piece = string_of(&v, pos, k);
                let ghost before = out@;
                out.push(piece);
                assert(texts(out@) =~= texts(before).push(s@.subrange(pos as int, k as int)));
                assert(texts(out@) + split_from(s@, sep@, k + p.len()) =~= texts(before)
                    + split_from(s@, sep@, pos as int));
                pos = k + p.len();
            },
            None => {
                let piece = string_of(&v, pos, v.len());
                let ghost before = out@;
                out.push(piece);
                assert(texts(out@) =~= texts(before) + seq![
                    s@.subrange(pos as int, s@.len() as int),
                ]);
                return out;
            },
        }
    }
}

/// The lines of `s`.
pub fn lines(s: &str) -> (r: Vec<String>)
    ensures
        texts(r@) == lines_of(s@),
{
    proof {
        reveal_strlit("\n");
        lemma_split_not_empty(s@, "\n"@, 0);
    }
    let pieces = split(s, "\n");
    let ghost all = split_on(s@, "\n"@);
    assert(texts(pieces@).len() == pieces@.len());
    let last: usize = pieces.len() - 1;
    let mut out: Vec<String> = Vec::new();
    let mut i: usize = 0;
    while i < last
        invariant
            i <= last < pieces.len(),
            all == texts(pieces@),
            last == pieces.len() - 1,
            texts(out@) =~= all.subrange(0, i as int).map_values(|l: Seq<char>| without_cr(l)),
        decreases last - i,
    {
        let ghost before = out@;
        let v = chars_of(pieces[i].as_str());
        let line = if v.len() > 0 && v[v.len() - 1] == '\r' {
            string_of(&v, 0, v.len() - 1)
        } else {
            owned(pieces[i].as_str())
        };
        assert(line@ =~= without_cr(all[i as int]));
        out.push(line);
        assert(texts(out@) =~= texts(before).push(line@));
        i += 1;
    }
    assert(all.drop_last() =~= all.subrange(0, last as int));
    if !pieces[last].as_str().is_empty() {
        let ghost before = out@;
        out.push(owned(pieces[last].as_str()));
        assert(texts(out@) =~= texts(before).push(all.last()));
    }
    out
}

/// The texts that the strings of `v` hold.
pub open spec fn texts(v: Seq<String>) -> Seq<Seq<char>> {
    v.map_values(|s: String| s@)
}

/// What stands before and behind the first `sep` in `s`.
pub fn cut(s: &str, sep: &str) -> (r: Option<(String, String)>)
    ensures
        match r {
            Some(p) => split_once(s@, sep@) == Some((p.0@, p.1@)),
            None => split_once(s@, sep@) is None,
        },
{
    let v = chars_of(s);
    let p = chars_of(sep);
    match find_in(&v, &p, 0) {
        Some(k) => Some((string_of(&v, 0, k), string_of(&v, k + p.len(), v.len()))),
        None => None,
    }
}

/// Whether `s` begins with `pre`.
pub fn starts_with(s: &str, pre: &str) -> (r: bool)
    ensures
        r == has_prefix(s@, pre@),
{
    let v = chars_of(s);
    let p = chars_of(pre);
    p.len() <= v.len() && matches_at(&v, &p, 0)
}

/// What follows `pre` in `s`, where `s` begins with it.
pub fn strip_prefix(s: &str, pre: &str) -> (r: Option<String>)
    ensures
        match r {
            Some(t) => without_prefix(s@, pre@) == Some(t@),
            None => without_prefix(s@, pre@) is None,
        },
{
    let v = chars_of(s);
    let p = chars_of(pre);
    if p.len() <= v.len() && matches_at(&v, &p, 0) {
        Some(string_of(&v, p.len(), v.len()))
    } else {
        None
    }
}

/// What precedes `suf` in `s`, where `s` ends with it.
pub fn strip_suffix(s: &str, suf: &str) -> (r: Option<String>)
    ensures
        match r {
            Some(t) => without_suffix(s@, suf@) == Some(t@),
            None => without_suffix(s@, suf@) is None,
        },
{
    let v = chars_of(s);
    let p = chars_of(suf);
    if p.len() <= v.len() && matches_at(&v, &p, v.len() - p.len()) {
        Some(string_of(&v, 0, v.len() - p.len()))
    } else {
        None
    }
}

/// Whether `c` is white space.
pub fn is_white(c: char) -> (r: bool)
    ensures
        r == white(c),
{
    ('\u{9}' <= c && c <= '\u{d}') || c == '\u{20}' || c == '\u{85}' || c == '\u{a0}' || c
        == '\u{1680}' || ('\u{2000}' <= c && c <= '\u{200a}') || c == '\u{2028}' || c == '\u{2029}'
        || c == '\u{202f}' || c == '\u{205f}' || c == '\u{3000}'
}

/// `s` without the white space at both ends.
pub fn trim(s: &str) -> (r: String)
    ensures
        r@ == trimmed(s@),
{
    let v = chars_of(s);
    let mut a: usize = 0;
    assert(v@.subrange(0, v@.len() as int) =~= v@);
    while a < v.len() && is_white(v[a])
        invariant
            a <= v.len(),
            trimmed_start(v@) == trimmed_start(v@.subrange(a as int, v@.len() as int)),
        decreases v.len() - a,
    {
        assert(v@.subrange(a as int, v@.len() as int).subrange(1, v@.len() - a) =~= v@.subrange(
            a + 1,
            v@.len() as int,
        ));
        a += 1;
    }
    let mut b: usize = v.len();
    let ghost start = trimmed_start(v@);
    assert(start == v@.subrange(a as int, b as int));
    while b > a && is_white(v[b - 1])
        invariant
            a <= b <= v.len(),
            trimmed_end(start) == trimmed_end(v@.subrange(a as int, b as int)),
        decreases b,
    {
        assert(v@.subrange(a as int, b as int).drop_last() =~= v@.subrange(a as int, b - 1));
        b -= 1;
    }
    string_of(&v, a, b)
}

/// `s`, with the letters `A` to `Z` in lower case.
pub fn lowercase(s: &str) -> (r: String)
    ensures
        r@ == lowered(s@),
{
    let v = chars_of(s);
    let mut out = String::new();
    let mut i: usize = 0;
    while i < v.len()
        invariant
            i <= v.len(),
            out@ == lowered(v@.subrange(0, i as int)),
        decreases v.len() - i,
    {
        out.push(lower_char(v[i]));
        i += 1;
        assert(out@ =~= lowered(v@.subrange(0, i as int)));
    }
    assert(v@.subrange(0, v@.len() as int) =~= v@);
    out
}

/// `c`, in lower case where it is one of `A` to `Z`.
pub fn lower_char(c: char) -> (r: char)
    ensures
        r == lower(c),
{
    if 'A' <= c && c <= 'Z' {
        ((c as u8) + 32) as char
    } else {
        c
    }
}

/// The words of `s`.
pub fn split_words(s: &str) -> (r: Vec<String>)
    ensures
        texts(r@) == words(s@),
{
    let v = chars_of(s);
    let mut out: Vec<String> = Vec::new();
    let mut word = String::new();
    let mut open = false;
    let mut i: usize = 0;
    assert(texts(out@) =~= words(v@.subrange(0, 0)));
    while i < v.len()
        invariant
            i <= v.len(),
            open == (i > 0 && !white(v@[i - 1])),
            open ==> words(v@.subrange(0, i as int)) =~= texts(out@).push(word@),
            !open ==> words(v@.subrange(0, i as int)) =~= texts(out@),
        decreases v.len() - i,
    {
        let ghost before = words(v@.subrange(0, i as int));
        assert(v@.subrange(0, i + 1).drop_last() =~= v@.subrange(0, i as int));
        if is_white(v[i]) {
            if open {
                let ghost sofar = out@;
                out.push(word);
                assert(texts(out@) =~= texts(sofar).push(out@.last()@));
                word = String::new();
                open = false;
            }
        } else {
            if !open {
                word = String::new();
                open = true;
            }
            word.push(v[i]);
            proof {
                assert(words(v@.subrange(0, i + 1)) =~= texts(out@).push(word@));
            }
        }
        i += 1;
    }
    assert(v@.subrange(0, i as int) =~= v@);
    if open {
        let ghost sofar = out@;
        out.push(word);
        assert(texts(out@) =~= texts(sofar).push(out@.last()@));
    }
    out
}

/// The `i`-th of some texts, an empty one where there are not so many.
pub fn nth_text(v: &Vec<String>, i: usize) -> (r: String)
    ensures
        r@ == nth_or_empty(texts(v@), i as int),
{
    if i < v.len() {
        owned(v[i].as_str())
    } else {
        String::new()
    }
}

/// At most the first `n` characters of `s`.
pub fn take(s: &str, n: usize) -> (r: String)
    ensures
        r@ == head(s@, n as int),
{
    let v = chars_of(s);
    if v.len() <= n {
        s.to_string()
    } else {
        string_of(&v, 0, n)
    }
}

/// At most the last `n` characters of `s`.
pub fn last_chars(s: &str, n: usize) -> (r: String)
    ensures
        r@ == tail(s@, n as int),
{
    let v = chars_of(s);
    if v.len() <= n {
        s.to_string()
    } else {
        string_of(&v, v.len() - n, v.len())
    }
}

/// The decimal digits of `n`.
pub fn decimal_of(n: u64) -> (r: String)
    ensures
        r@ == decimal(n as nat),
    decreases n,
{
    let d: u8 = 48 + ((n % 10) as u8);
    if n < 10 {
        let mut out = String::new();
        out.push(d as char);
        assert(out@ =~= seq![digit_char(n as nat)]);
        out
    } else {
        let mut out = decimal_of(n / 10);
        out.push(d as char);
        out
    }
}

/// Reads a number without a sign, where it fits in 64 bits.
pub fn parse_u64(s: &str) -> (r: Option<u64>)
    ensures
        match r {
            Some(n) => unsigned_value(s@) == Some(n as nat),
            None => unsigned_value(s@) is None || unsigned_value(s@)->0 > u64::MAX,
        },
{
    let v = chars_of(s);
    let start: usize = if v.len() > 0 && v[0] == '+' {
        1
    } else {
        0
    };
    let ghost ds = v@.subrange(start as int, v@.len() as int);
    assert(start == 0 ==> ds =~= s@);
    if start >= v.len() {
        return None;
    }
    assert(unsigned_value(s@) == digits_value(ds));
    let mut n: u64 = 0;
    let mut i: usize = start;
    while i < v.len()
        invariant
            start <= i <= v.len(),
            unsigned_value(s@) == digits_value(ds),
            ds == v@.subrange(start as int, v@.len() as int),
            i > start ==> digits_value(ds.subrange(0, i - start)) == Some(n as nat),
            i == start ==> n == 0,
        decreases v.len() - i,
    {
        let ghost k = i - start;
        assert(ds.subrange(0, k + 1).drop_last() =~= ds.subrange(0, k));
        assert(ds.subrange(0, k + 1).last() == v@[i as int]);
        let c = v[i];
        if !('0' <= c && c <= '9') {
            proof {
                lemma_digits_prefix(ds, k + 1);
            }
            return None;
        }
        let d: u64 = (c as u64) - 48;
        if n > (u64::MAX - d) / 10 {
            proof {
                assert(n * 10 + d > u64::MAX) by (nonlinear_arith)
                    requires
                        n > (u64::MAX - d) / 10,
                        d <= 9,
                ;
                lemma_digits_prefix(ds, k + 1);
            }
            return None;
        }
        assert(n * 10 + d <= u64::MAX) by (nonlinear_arith)
            requires
                n <= (u64::MAX - d) / 10,
                d <= 9,
        ;
        n = n * 10 + d;
        i += 1;
    }
    assert(ds.subrange(0, i - start) =~= ds);
    Some(n)
}

/// The pieces put behind one another, with `sep` between any two.
pub fn join(parts: &Vec<String>, sep: &str) -> (r: String)
    ensures
        r@ == joined(texts(parts@), sep@),
{
    let mut out = String::new();
    let mut i: usize = 0;
    assert(texts(parts@).subrange(0, 0) =~= seq![]);
    while i < parts.len()
        invariant
            i <= parts.len(),
            out@ == joined(texts(parts@).subrange(0, i as int), sep@),
        decreases parts.len() - i,
    {
        let ghost all = texts(parts@);
        assert(all.subrange(0, i + 1).drop_last() =~= all.subrange(0, i as int));
        assert(all.subrange(0, i + 1).last() == parts@[i as int]@);
        if i > 0 {
            out.append(sep);
        }
        out.append(parts[i].as_str());
        assert(out@ =~= joined(all.subrange(0, i + 1), sep@));
        i += 1;
    }
    assert(texts(parts@).subrange(0, i as int) =~= texts(parts@));
    out
}

// ---------------------------------------------------------------------------
// Facts
// ---------------------------------------------------------------------------

/// The first position that a search finds is one at which the pattern stands,
/// and before it there is none; where the search finds none, there is none.
pub proof fn lemma_find_is_occurs(s: Seq<char>, pat: Seq<char>, i: int)
    requires
        0 <= i,
    ensures
        match find_from(s, pat, i) {
            Some(k) => i <= k && occurs_at(s, pat, k) && (forall|j: int|
                i <= j < k ==> !occurs_at(s, pat, j)),
            None => forall|j: int| i <= j ==> !occurs_at(s, pat, j),
        },
        i == 0 ==> (find_from(s, pat, i) is Some <==> occurs(s, pat)),
    decreases s.len() + 1 - i,
{
    if i + pat.len() > s.len() {
    } else if occurs_at(s, pat, i) {
    } else {
        lemma_find_is_occurs(s, pat, i + 1);
    }
}

/// A number is no smaller than what its first digits write, and has no number
/// where they write none.
pub proof fn lemma_digits_prefix(s: Seq<char>, k: int)
    requires
        0 < k <= s.len(),
    ensures
        digits_value(s) is Some ==> digits_value(s.subrange(0, k)) is Some,
        digits_value(s) is Some ==> digits_value(s)->0 >= digits_value(s.subrange(0, k))->0,
    decreases s.len(),
{
    if k < s.len() {
        lemma_digits_prefix(s.drop_last(), k);
        assert(s.drop_last().subrange(0, k) =~= s.subrange(0, k));
    } else {
        assert(s.subrange(0, k) =~= s);
    }
}

/// A text always has a piece, however it is split.
pub proof fn lemma_split_not_empty(s: Seq<char>, sep: Seq<char>, i: int)
    ensures
        split_from(s, sep, i).len() > 0,
{
}

/// What a search finds in a text it also finds when more text follows.
pub proof fn lemma_find_in_longer(s: Seq<char>, more: Seq<char>, pat: Seq<char>, i: int)
    requires
        0 <= i,
        find_from(s, pat, i) is Some,
    ensures
        find_from(s + more, pat, i) == find_from(s, pat, i),
    decreases s.len() + 1 - i,
{
    assert((s + more).subrange(i, i + pat.len()) =~= s.subrange(i, i + pat.len()));
    if !occurs_at(s, pat, i) {
        lemma_find_in_longer(s, more, pat, i + 1);
    }
}

/// Pieces joined with nothing between them are the pieces run together.
pub proof fn law_joined_with_nothing(parts: Seq<Seq<char>>)
    ensures
        joined(parts, ""@) == parts.flatten(),
        joined(parts, seq![]) == parts.flatten(),
{
    reveal_strlit("");
    assert(""@ =~= seq![]);
    parts.lemma_flatten_and_flatten_alt_are_equivalent();
    lemma_joined_alt(parts);
}

proof fn lemma_joined_alt(parts: Seq<Seq<char>>)
    ensures
        joined(parts, seq![]) == parts.flatten_alt(),
    decreases parts.len(),
{
    if parts.len() > 0 {
        lemma_joined_alt(parts.drop_last());
        let before = joined(parts.drop_last(), seq![]);
        assert(before + Seq::<char>::empty() =~= before);
        if parts.len() == 1 {
            assert(parts.drop_last() =~= seq![]);
            assert(parts.flatten_alt() =~= parts[0]);
        }
    }
}

/// Joined pieces, with one more separator at the end, are the pieces with a
/// separator behind each of them, run together.
pub proof fn law_joined_with_separator(parts: Seq<Seq<char>>, sep: Seq<char>)
    requires
        parts.len() > 0,
    ensures
        joined(parts, sep) + sep == parts.map_values(|t: Seq<char>| t + sep).flatten(),
{
    parts.map_values(|t: Seq<char>| t + sep).lemma_flatten_and_flatten_alt_are_equivalent();
    lemma_separated_alt(parts, sep);
}

proof fn lemma_separated_alt(parts: Seq<Seq<char>>, sep: Seq<char>)
    requires
        parts.len() > 0,
    ensures
        joined(parts, sep) + sep == parts.map_values(|t: Seq<char>| t + sep).flatten_alt(),
    decreases parts.len(),
{
    let ended = parts.map_values(|t: Seq<char>| t + sep);
    let rest = parts.drop_last();
    assert(ended.drop_last() =~= rest.map_values(|t: Seq<char>| t + sep));
    if parts.len() == 1 {
        assert(ended.drop_last() =~= seq![]);
        assert(ended.drop_last().flatten_alt() =~= seq![]);
        assert(ended.last() == parts[0] + sep);
        assert(ended.flatten_alt() =~= parts[0] + sep);
    } else {
        lemma_separated_alt(rest, sep);
        assert(joined(parts, sep) + sep =~= (joined(rest, sep) + sep) + (parts.last() + sep));
    }
}

/// A text cut at a separator is what stands before it, the separator and what
/// stands behind it, and no separator stands before it; a text is cut where the
/// separator stands in it at all.
pub proof fn law_cut_at_the_first(s: Seq<char>, sep: Seq<char>)
    ensures
        split_once(s, sep) is Some <==> occurs(s, sep),
        split_once(s, sep) matches Some(p) ==> s == p.0 + sep + p.1,
        split_once(s, sep) matches Some(p) ==> sep.len() > 0 ==> !occurs(p.0, sep),
{
    lemma_find_is_occurs(s, sep, 0);
    if let Some(k) = find_from(s, sep, 0) {
        let p = split_once(s, sep)->0;
        assert(s =~= p.0 + sep + p.1);
        if sep.len() > 0 && occurs(p.0, sep) {
            let j = choose|j: int| occurs_at(p.0, sep, j);
            assert(s.subrange(j, j + sep.len()) =~= p.0.subrange(j, j + sep.len()));
            assert(occurs_at(s, sep, j));
        }
    }
}

} // verus!
