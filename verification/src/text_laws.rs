//! What the operations on texts do, whatever the text.
use vstd::prelude::*;

use crate::text::{
    ascii_digit, decimal, digit_char, digits_value, find_from, head, joined, kept,
    law_joined_with_separator, lemma_find_is_occurs, lines_of, lower, lowered, occurs, occurs_at,
    replace_from, replaced, split_from, split_on, tail, trimmed, trimmed_end, trimmed_start,
    unsigned_value, white, without_cr, words,
};

verus! {

// ---------------------------------------------------------------------------
// White space
// ---------------------------------------------------------------------------

/// Every character of the text is white space.
pub open spec fn blank(s: Seq<char>) -> bool {
    forall|i: int| 0 <= i < s.len() ==> white(#[trigger] s[i])
}

/// Spaces, tabs and the characters that end lines are white space; no letter,
/// digit or sign of ASCII is.
pub proof fn law_white_space(c: char)
    ensures
        c == ' ' || c == '\t' || c == '\n' || c == '\r' ==> white(c),
        '!' <= c <= '~' ==> !white(c),
{
}

proof fn lemma_blank_start(a: Seq<char>, t: Seq<char>)
    requires
        blank(a),
        t.len() > 0 ==> !white(t[0]),
    ensures
        trimmed_start(a + t) == t,
    decreases a.len(),
{
    if a.len() == 0 {
        assert(a + t =~= t);
    } else {
        let rest = a.subrange(1, a.len() as int);
        assert((a + t)[0] == a[0]);
        assert((a + t).subrange(1, (a + t).len() as int) =~= rest + t);
        lemma_blank_start(rest, t);
    }
}

proof fn lemma_blank_end(t: Seq<char>, b: Seq<char>)
    requires
        blank(b),
        t.len() > 0 ==> !white(t.last()),
    ensures
        trimmed_end(t + b) == t,
    decreases b.len(),
{
    if b.len() == 0 {
        assert(t + b =~= t);
    } else {
        let rest = b.drop_last();
        assert((t + b).last() == b[b.len() - 1]);
        assert((t + b).drop_last() =~= t + rest);
        assert forall|i: int| 0 <= i < rest.len() implies white(#[trigger] rest[i]) by {
            assert(rest[i] == b[i]);
        }
        lemma_blank_end(t, rest);
    }
}

/// Trimming takes away the white space around a text and nothing else.
pub proof fn law_trimming(a: Seq<char>, t: Seq<char>, b: Seq<char>)
    requires
        blank(a),
        blank(b),
        t.len() > 0 ==> !white(t[0]) && !white(t.last()),
    ensures
        trimmed(a + t + b) == t,
{
    if t.len() > 0 {
        assert(a + t + b =~= a + (t + b));
        lemma_blank_start(a, t + b);
        lemma_blank_end(t, b);
    } else {
        let all = a + t + b;
        let none = Seq::<char>::empty();
        assert(all + none =~= all);
        assert(blank(all));
        lemma_blank_start(all, none);
        assert(t =~= none);
    }
}

/// What is left of a text begins and ends with no white space, and is not empty
/// where the text is not blank.
pub proof fn law_trimmed(s: Seq<char>)
    ensures
        trimmed(s).len() > 0 ==> !white(trimmed(s)[0]) && !white(trimmed(s).last()),
        trimmed(s).len() == 0 <==> blank(s),
        trimmed(trimmed(s)) == trimmed(s),
{
    let t = trimmed_start(s);
    lemma_start(s);
    lemma_end(t);
    let u = trimmed(s);
    if u.len() > 0 {
        assert(u[0] == t[0]);
    }
    let none = Seq::<char>::empty();
    if u.len() > 0 {
        law_trimming(none, u, none);
        assert(none + u + none =~= u);
    }
    if blank(s) {
        law_trimming(s, none, none);
        assert(s + none + none =~= s);
    } else {
        let i = choose|i: int| 0 <= i < s.len() && !white(#[trigger] s[i]);
        assert(s[i] == t[i - (s.len() - t.len())]);
    }
}

proof fn lemma_start(s: Seq<char>)
    ensures
        ({
            let t = trimmed_start(s);
            let n = s.len() - t.len();
            &&& 0 <= n
            &&& t == s.subrange(n, s.len() as int)
            &&& forall|i: int| 0 <= i < n ==> white(#[trigger] s[i])
            &&& t.len() > 0 ==> !white(t[0])
        }),
    decreases s.len(),
{
    if s.len() > 0 && white(s[0]) {
        let rest = s.subrange(1, s.len() as int);
        lemma_start(rest);
        let t = trimmed_start(s);
        let n = s.len() - t.len();
        assert(t =~= s.subrange(n, s.len() as int));
        assert forall|i: int| 0 <= i < n implies white(#[trigger] s[i]) by {
            if i > 0 {
                assert(rest[i - 1] == s[i]);
            }
        }
    } else {
        assert(s.subrange(0, s.len() as int) =~= s);
    }
}

proof fn lemma_end(s: Seq<char>)
    ensures
        ({
            let t = trimmed_end(s);
            &&& t.len() <= s.len()
            &&& t == s.subrange(0, t.len() as int)
            &&& forall|i: int| t.len() <= i < s.len() ==> white(#[trigger] s[i])
            &&& t.len() > 0 ==> !white(t.last())
        }),
    decreases s.len(),
{
    if s.len() > 0 && white(s.last()) {
        let rest = s.drop_last();
        lemma_end(rest);
        let t = trimmed_end(s);
        assert(t =~= s.subrange(0, t.len() as int));
        assert forall|i: int| t.len() <= i < s.len() implies white(#[trigger] s[i]) by {
            if i < rest.len() {
                assert(rest[i] == s[i]);
            }
        }
    } else {
        assert(s.subrange(0, s.len() as int) =~= s);
    }
}

// ---------------------------------------------------------------------------
// Words
// ---------------------------------------------------------------------------

/// A text without white space is one word; white space between two texts parts
/// their words; a blank text has none.
pub proof fn law_words(a: Seq<char>, c: char, b: Seq<char>)
    requires
        white(c),
    ensures
        words(a.push(c) + b) == words(a) + words(b),
        a.len() > 0 && (forall|i: int| 0 <= i < a.len() ==> !white(#[trigger] a[i])) ==> words(a)
            == seq![a],
        a.len() == 0 ==> words(a).len() == 0,
{
    lemma_words_parted(a, c, b);
    if a.len() > 0 && (forall|i: int| 0 <= i < a.len() ==> !white(#[trigger] a[i])) {
        lemma_one_word(a);
    }
}

proof fn lemma_one_word(a: Seq<char>)
    requires
        a.len() > 0,
        forall|i: int| 0 <= i < a.len() ==> !white(#[trigger] a[i]),
    ensures
        words(a) == seq![a],
    decreases a.len(),
{
    let rest = a.drop_last();
    assert(!white(a[a.len() - 1]));
    if a.len() == 1 {
        assert(words(rest).len() == 0);
        assert(a =~= seq![a.last()]);
        assert(words(a) =~= seq![a]);
    } else {
        assert forall|i: int| 0 <= i < rest.len() implies !white(#[trigger] rest[i]) by {
            assert(rest[i] == a[i]);
        }
        lemma_one_word(rest);
        assert(!white(a[a.len() - 2]));
        assert(rest.push(a.last()) =~= a);
        assert(words(a) =~= seq![a]);
    }
}

proof fn lemma_words_parted(a: Seq<char>, c: char, b: Seq<char>)
    requires
        white(c),
    ensures
        words(a.push(c) + b) == words(a) + words(b),
        b.len() > 0 && !white(b.last()) ==> words(b).len() > 0,
    decreases b.len(),
{
    let s = a.push(c) + b;
    if b.len() == 0 {
        assert(s =~= a.push(c));
        assert(a.push(c).drop_last() =~= a);
        assert(words(a) + words(b) =~= words(a));
    } else {
        let rest = b.drop_last();
        lemma_words_parted(a, c, rest);
        assert(s.drop_last() =~= a.push(c) + rest);
        assert(s.last() == b.last());
        if !white(b.last()) {
            if b.len() == 1 {
                assert(s[s.len() - 2] == c);
                assert(words(rest).len() == 0);
                assert(words(s) =~= words(a) + words(b));
            } else {
                assert(s[s.len() - 2] == b[b.len() - 2]);
                assert(rest.last() == b[b.len() - 2]);
                if white(b[b.len() - 2]) {
                    assert(words(s) =~= words(a) + words(b));
                } else {
                    assert(words(rest).len() > 0);
                    assert(words(s) =~= words(a) + words(b));
                }
            }
        } else {
            assert(words(s) =~= words(a) + words(b));
        }
    }
}

// ---------------------------------------------------------------------------
// Numbers
// ---------------------------------------------------------------------------

/// A number that was written is read as the same number, with a plus sign before
/// it too, and is written with digits alone.
pub proof fn law_numbers_read_back(n: nat)
    ensures
        unsigned_value(decimal(n)) == Some(n),
        unsigned_value(seq!['+'] + decimal(n)) == Some(n),
        decimal(n).len() > 0,
        forall|i: int| 0 <= i < decimal(n).len() ==> ascii_digit(#[trigger] decimal(n)[i]),
{
    lemma_digits(n);
    let s = seq!['+'] + decimal(n);
    assert(s.subrange(1, s.len() as int) =~= decimal(n));
    assert(ascii_digit(decimal(n)[0]));
}

proof fn lemma_digits(n: nat)
    ensures
        digits_value(decimal(n)) == Some(n),
        decimal(n).len() > 0,
        forall|i: int| 0 <= i < decimal(n).len() ==> ascii_digit(#[trigger] decimal(n)[i]),
    decreases n,
{
    let s = decimal(n);
    if n < 10 {
        assert(s =~= seq![digit_char(n)]);
        assert(s.last() == digit_char(n));
    } else {
        let d = n % 10;
        lemma_digits(n / 10);
        assert(s.drop_last() =~= decimal(n / 10));
        assert(s.last() == digit_char(d));
        assert((n / 10) * 10 + d == n) by (nonlinear_arith)
            requires
                d == n % 10,
        ;
    }
}

/// A text with anything but digits, but for a plus sign before them, is no number.
pub proof fn law_other_texts_are_no_numbers(s: Seq<char>, i: int)
    requires
        0 <= i < s.len(),
        !ascii_digit(s[i]),
        i > 0 || s[0] != '+',
    ensures
        unsigned_value(s) is None,
{
    if s[0] == '+' {
        let rest = s.subrange(1, s.len() as int);
        assert(rest[i - 1] == s[i]);
        lemma_no_digits(rest, i - 1);
    } else {
        lemma_no_digits(s, i);
    }
}

proof fn lemma_no_digits(s: Seq<char>, i: int)
    requires
        0 <= i < s.len(),
        !ascii_digit(s[i]),
    ensures
        digits_value(s) is None,
    decreases s.len(),
{
    if i < s.len() - 1 {
        assert(s.drop_last()[i] == s[i]);
        lemma_no_digits(s.drop_last(), i);
    }
}

// ---------------------------------------------------------------------------
// Pieces
// ---------------------------------------------------------------------------

proof fn lemma_split_from(s: Seq<char>, sep: Seq<char>, i: int)
    requires
        sep.len() > 0,
        0 <= i <= s.len(),
    ensures
        split_from(s, sep, i).map_values(|t: Seq<char>| t + sep).flatten() == s.subrange(
            i,
            s.len() as int,
        ) + sep,
        forall|k: int|
            0 <= k < split_from(s, sep, i).len() ==> !occurs(#[trigger] split_from(s, sep, i)[k], sep),
    decreases s.len() - i,
{
    lemma_find_is_occurs(s, sep, i);
    let all = split_from(s, sep, i);
    let ended = all.map_values(|t: Seq<char>| t + sep);
    match find_from(s, sep, i) {
        Some(k) => {
            let rest = split_from(s, sep, k + sep.len());
            lemma_split_from(s, sep, k + sep.len());
            assert(all =~= seq![s.subrange(i, k)] + rest);
            assert(ended.drop_first() =~= rest.map_values(|t: Seq<char>| t + sep));
            assert(ended.first() == s.subrange(i, k) + sep);
            assert(s.subrange(i, k) + sep + (s.subrange(k + sep.len(), s.len() as int) + sep)
                =~= s.subrange(i, s.len() as int) + sep);
            lemma_piece(s, sep, i, k);
            assert forall|m: int| 0 <= m < all.len() implies !occurs(#[trigger] all[m], sep) by {
                if m > 0 {
                    assert(all[m] == rest[m - 1]);
                }
            }
        },
        None => {
            let piece = s.subrange(i, s.len() as int);
            assert(all =~= seq![piece]);
            assert(ended.drop_first() =~= seq![]);
            assert(ended.drop_first().flatten() =~= seq![]);
            assert(ended.flatten() =~= piece + sep);
            lemma_piece(s, sep, i, s.len() as int);
        },
    }
}

/// Up to the first separator there is none.
proof fn lemma_piece(s: Seq<char>, sep: Seq<char>, i: int, k: int)
    requires
        sep.len() > 0,
        0 <= i <= k <= s.len(),
        forall|j: int| i <= j && j + sep.len() <= k ==> !occurs_at(s, sep, j),
    ensures
        !occurs(s.subrange(i, k), sep),
{
    let piece = s.subrange(i, k);
    if occurs(piece, sep) {
        let j = choose|j: int| occurs_at(piece, sep, j);
        assert(piece.subrange(j, j + sep.len()) =~= s.subrange(i + j, i + j + sep.len()));
        assert(occurs_at(s, sep, i + j));
    }
}

/// The pieces of a text, joined again, are the text, and no piece holds the
/// separator.
pub proof fn law_splitting(s: Seq<char>, sep: Seq<char>, k: int)
    requires
        sep.len() > 0,
    ensures
        joined(split_on(s, sep), sep) == s,
        0 <= k < split_on(s, sep).len() ==> !occurs(split_on(s, sep)[k], sep),
{
    lemma_split_from(s, sep, 0);
    let pieces = split_on(s, sep);
    crate::text::lemma_split_not_empty(s, sep, 0);
    law_joined_with_separator(pieces, sep);
    assert(s.subrange(0, s.len() as int) =~= s);
    let again = joined(pieces, sep);
    assert(again + sep == s + sep);
    assert((again + sep).len() == (s + sep).len());
    assert(again.len() == s.len());
    assert forall|i: int| 0 <= i < s.len() implies again[i] == s[i] by {
        assert((again + sep)[i] == again[i]);
        assert((s + sep)[i] == s[i]);
    }
    assert(again =~= s);
}

/// A text with one part replaced by another is its pieces between the one, joined
/// with the other.
pub proof fn law_replacing(s: Seq<char>, pat: Seq<char>, with: Seq<char>)
    requires
        pat.len() > 0,
    ensures
        replaced(s, pat, with) == joined(split_on(s, pat), with),
        !occurs(s, pat) ==> replaced(s, pat, with) == s,
{
    lemma_replaced_from(s, pat, with, 0);
    let pieces = split_on(s, pat);
    crate::text::lemma_split_not_empty(s, pat, 0);
    law_joined_with_separator(pieces, with);
    let a = replaced(s, pat, with);
    let b = joined(pieces, with);
    assert(a + with == b + with);
    assert(a.len() == b.len());
    assert forall|i: int| 0 <= i < a.len() implies a[i] == b[i] by {
        assert((a + with)[i] == a[i]);
        assert((b + with)[i] == b[i]);
    }
    assert(a =~= b);
    if !occurs(s, pat) {
        lemma_find_is_occurs(s, pat, 0);
        assert(s.subrange(0, s.len() as int) =~= s);
    }
}

proof fn lemma_replaced_from(s: Seq<char>, pat: Seq<char>, with: Seq<char>, i: int)
    requires
        pat.len() > 0,
        0 <= i <= s.len(),
    ensures
        replace_from(s, pat, with, i) + with == split_from(s, pat, i).map_values(
            |t: Seq<char>| t + with,
        ).flatten(),
    decreases s.len() - i,
{
    lemma_find_is_occurs(s, pat, i);
    let all = split_from(s, pat, i);
    let ended = all.map_values(|t: Seq<char>| t + with);
    match find_from(s, pat, i) {
        Some(k) => {
            let rest = split_from(s, pat, k + pat.len());
            lemma_replaced_from(s, pat, with, k + pat.len());
            assert(all =~= seq![s.subrange(i, k)] + rest);
            assert(ended.drop_first() =~= rest.map_values(|t: Seq<char>| t + with));
            assert(ended.first() == s.subrange(i, k) + with);
            let more = replace_from(s, pat, with, k + pat.len());
            assert((s.subrange(i, k) + with) + (more + with) =~= s.subrange(i, k) + with + more
                + with);
        },
        None => {
            let piece = s.subrange(i, s.len() as int);
            assert(all =~= seq![piece]);
            assert(ended.drop_first() =~= seq![]);
            assert(ended.drop_first().flatten() =~= seq![]);
            assert(ended.flatten() =~= piece + with);
        },
    }
}

// ---------------------------------------------------------------------------
// Lines
// ---------------------------------------------------------------------------

proof fn lemma_find_shift(a: Seq<char>, t: Seq<char>, pat: Seq<char>, i: int)
    requires
        0 <= i,
    ensures
        find_from(a + t, pat, a.len() + i) == match find_from(t, pat, i) {
            Some(k) => Some(a.len() + k),
            None => None,
        },
    decreases t.len() + 1 - i,
{
    let s = a + t;
    if i + pat.len() <= t.len() {
        assert(s.subrange(a.len() + i, a.len() + i + pat.len()) =~= t.subrange(i, i + pat.len()));
        if !occurs_at(t, pat, i) {
            lemma_find_shift(a, t, pat, i + 1);
        }
    }
}

proof fn lemma_split_shift(a: Seq<char>, t: Seq<char>, sep: Seq<char>, i: int)
    requires
        sep.len() > 0,
        0 <= i <= t.len(),
    ensures
        split_from(a + t, sep, a.len() + i) == split_from(t, sep, i),
    decreases t.len() - i,
{
    lemma_find_shift(a, t, sep, i);
    lemma_find_is_occurs(t, sep, i);
    let s = a + t;
    match find_from(t, sep, i) {
        Some(k) => {
            lemma_split_shift(a, t, sep, k + sep.len());
            assert(s.subrange(a.len() + i, a.len() + k) =~= t.subrange(i, k));
        },
        None => {
            assert(s.subrange(a.len() + i, s.len() as int) =~= t.subrange(i, t.len() as int));
        },
    }
}

/// A line ends at its line feed, with or without a carriage return before it, and
/// what follows are further lines; a text without a line feed is one line, and an
/// empty text none.
pub proof fn law_lines(line: Seq<char>, rest: Seq<char>)
    requires
        forall|i: int| 0 <= i < line.len() ==> #[trigger] line[i] != '\n',
    ensures
        lines_of(line.push('\n') + rest) == seq![without_cr(line)] + lines_of(rest),
        line.len() > 0 ==> lines_of(line) == seq![line],
        lines_of(seq![]) == Seq::<Seq<char>>::empty(),
        line.len() > 0 && line.last() == '\r' ==> without_cr(line) == line.drop_last(),
        !(line.len() > 0 && line.last() == '\r') ==> without_cr(line) == line,
{
    reveal_strlit("\n");
    let sep = "\n"@;
    assert(sep =~= seq!['\n']);
    lemma_no_feed(line);
    lemma_no_feed(Seq::<char>::empty());
    assert(line.subrange(0, line.len() as int) =~= line);
    assert(split_on(line, sep) =~= seq![line]);
    assert(split_on(Seq::<char>::empty(), sep)[0] =~= seq![]);
    let none = Seq::<Seq<char>>::empty();
    assert(seq![line].drop_last() =~= none);
    assert(lines_of(line) =~= if line.len() > 0 {
        seq![line]
    } else {
        none
    });
    assert(lines_of(seq![]) =~= none) by {
        assert(split_on(Seq::<char>::empty(), sep).len() == 1);
        assert(split_on(Seq::<char>::empty(), sep).drop_last() =~= none);
    }
    let s = line.push('\n') + rest;
    let k = line.len() as int;
    lemma_find_is_occurs(s, sep, 0);
    assert(s.subrange(k, k + 1) =~= sep);
    assert(occurs_at(s, sep, k));
    let f = find_from(s, sep, 0)->0;
    if f < k {
        assert(s.subrange(f, f + 1)[0] == '\n');
        assert(s[f] == line[f]);
    }
    assert(f == k);
    let a = line.push('\n');
    lemma_split_shift(a, rest, sep, 0);
    assert(s.subrange(0, k) =~= line);
    let pieces = split_on(rest, sep);
    assert(split_on(s, sep) =~= seq![line] + pieces);
    crate::text::lemma_split_not_empty(rest, sep, 0);
    assert(split_on(s, sep).drop_last() =~= seq![line] + pieces.drop_last());
    assert(split_on(s, sep).last() == pieces.last());
    assert(lines_of(s) =~= seq![without_cr(line)] + lines_of(rest));
}

proof fn lemma_no_feed(line: Seq<char>)
    requires
        forall|i: int| 0 <= i < line.len() ==> #[trigger] line[i] != '\n',
    ensures
        find_from(line, "\n"@, 0) is None,
{
    reveal_strlit("\n");
    lemma_find_is_occurs(line, "\n"@, 0);
    if let Some(k) = find_from(line, "\n"@, 0) {
        assert(line.subrange(k, k + 1)[0] == '\n');
        assert(line[k] == '\n');
    }
}

// ---------------------------------------------------------------------------
// Letters and lengths
// ---------------------------------------------------------------------------

/// Lower case changes the letters `A` to `Z` alone, each to its own small letter.
pub proof fn law_lower_case(s: Seq<char>, i: int)
    requires
        0 <= i < s.len(),
    ensures
        lowered(s).len() == s.len(),
        'A' <= s[i] <= 'Z' ==> lowered(s)[i] as u32 == s[i] as u32 + 32,
        !('A' <= s[i] <= 'Z') ==> lowered(s)[i] == s[i],
{
    assert(lowered(s)[i] == lower(s[i]));
}

/// The beginning and the end of a text are the first and the last characters of
/// it, all of them where there are no more.
pub proof fn law_ends_of_texts(s: Seq<char>, n: int)
    requires
        0 <= n,
    ensures
        s.len() <= n ==> head(s, n) == s && tail(s, n) == s,
        s.len() > n ==> head(s, n).len() == n && s == head(s, n) + s.subrange(n, s.len() as int),
        s.len() > n ==> tail(s, n).len() == n && s == s.subrange(0, s.len() - n) + tail(s, n),
{
    if s.len() > n {
        assert(s =~= head(s, n) + s.subrange(n, s.len() as int));
        assert(s =~= s.subrange(0, s.len() - n) + tail(s, n));
    }
}

/// Keeping some characters keeps exactly those, in order.
pub proof fn law_keeping(s: Seq<char>, keep: spec_fn(char) -> bool)
    ensures
        kept(s, keep) == s.filter(keep),
    decreases s.len(),
{
    reveal(Seq::filter);
    if s.len() > 0 {
        law_keeping(s.drop_last(), keep);
    }
    assert(kept(s, keep) =~= s.filter(keep));
}

} // verus!
