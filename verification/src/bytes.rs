//! Text that arrives as bytes, cut anywhere: a character whose last bytes are
//! still to come waits for them.
use vstd::prelude::*;
use vstd::utf8::{
    decode_utf8, decode_utf8_split, is_char_boundary, is_continuation_byte,
    is_leading_byte_width_2, is_leading_byte_width_3, is_leading_byte_width_4,
    length_of_first_scalar, pop_first_scalar, valid_utf8, valid_utf8_split,
};

use crate::text::{lossy, text_from_bytes};

verus! {

/// The text that bytes stand for: what they encode, or, where they are no valid
/// UTF-8, what reading them loosely gives.
pub open spec fn read_text(bytes: Seq<u8>) -> Seq<char> {
    if valid_utf8(bytes) {
        decode_utf8(bytes)
    } else {
        lossy(bytes)
    }
}

/// How many of the last bytes begin a character that they do not finish.
pub open spec fn unfinished(t: Seq<u8>) -> int {
    let n = t.len() as int;
    if n >= 1 && (is_leading_byte_width_2(t[n - 1]) || is_leading_byte_width_3(t[n - 1])
        || is_leading_byte_width_4(t[n - 1])) {
        1
    } else if n >= 2 && is_continuation_byte(t[n - 1]) && (is_leading_byte_width_3(t[n - 2])
        || is_leading_byte_width_4(t[n - 2])) {
        2
    } else if n >= 3 && is_continuation_byte(t[n - 1]) && is_continuation_byte(t[n - 2])
        && is_leading_byte_width_4(t[n - 3]) {
        3
    } else {
        0
    }
}

/// How many bytes come before an unfinished last character.
pub open spec fn whole(t: Seq<u8>) -> int {
    t.len() - unfinished(t)
}

fn whole_of(t: &Vec<u8>) -> (r: usize)
    ensures
        r as int == whole(t@),
{
    let n: usize = t.len();
    if n >= 1 && 0xc0 <= t[n - 1] && t[n - 1] <= 0xf7 {
        return n - 1;
    }
    if n >= 2 && 0x80 <= t[n - 1] && t[n - 1] <= 0xbf {
        if 0xe0 <= t[n - 2] && t[n - 2] <= 0xf7 {
            return n - 2;
        }
        if n >= 3 && 0x80 <= t[n - 2] && t[n - 2] <= 0xbf && 0xf0 <= t[n - 3] && t[n - 3]
            <= 0xf7 {
            return n - 3;
        }
    }
    n
}

/// Reads the bytes that wait in `tail` and those that follow them, but for an
/// unfinished last character, which waits in their place.
pub fn read_piece(tail: &mut Vec<u8>, bytes: &[u8]) -> (r: String)
    ensures
        ({
            let t = old(tail)@ + bytes@;
            &&& r@ == read_text(t.subrange(0, whole(t)))
            &&& final(tail)@ == t.subrange(whole(t), t.len() as int)
        }),
{
    tail.extend_from_slice(bytes);
    let ghost t = tail@;
    proof {
        assert(t =~= old(tail)@ + bytes@);
    }
    let n: usize = whole_of(tail);
    let rest = tail.split_off(n);
    let r = text_from_bytes(tail.as_slice());
    *tail = rest;
    r
}

/// Reads the bytes that wait in `tail`: nothing follows them.
pub fn read_rest(tail: &mut Vec<u8>) -> (r: String)
    ensures
        r@ == read_text(old(tail)@),
        final(tail)@ == Seq::<u8>::empty(),
{
    let r = text_from_bytes(tail.as_slice());
    tail.clear();
    r
}

/// Pieces of bytes, one after the other.
pub open spec fn joined(pieces: Seq<Seq<u8>>) -> Seq<u8>
    decreases pieces.len(),
{
    if pieces.len() == 0 {
        seq![]
    } else {
        joined(pieces.drop_last()) + pieces.last()
    }
}

/// What has been read of pieces of bytes, and the bytes that still wait.
pub open spec fn read_pieces(pieces: Seq<Seq<u8>>) -> (Seq<char>, Seq<u8>)
    decreases pieces.len(),
{
    if pieces.len() == 0 {
        (seq![], seq![])
    } else {
        let before = read_pieces(pieces.drop_last());
        let t = before.1 + pieces.last();
        (before.0 + read_text(t.subrange(0, whole(t))), t.subrange(whole(t), t.len() as int))
    }
}

/// In valid UTF-8 an unfinished last character of a prefix is one that the rest
/// finishes: what comes before it ends where a character ends.
proof fn lemma_whole_is_boundary(v: Seq<u8>, n: int)
    requires
        valid_utf8(v),
        0 <= n <= v.len(),
    ensures
        is_char_boundary(v, whole(v.subrange(0, n))),
        0 <= whole(v.subrange(0, n)) <= n,
    decreases v.len(),
{
    let p = v.subrange(0, n);
    if n > 0 {
        let k = length_of_first_scalar(v);
        if n < k {
            assert(whole(p) == 0);
        } else {
            let rest = pop_first_scalar(v);
            let q = rest.subrange(0, n - k);
            lemma_whole_is_boundary(rest, n - k);
            assert(forall|i: int| 0 <= i < q.len() ==> q[i] == p[k + i]);
            if q.len() > 0 {
                assert(q[0] == rest[0]);
            }
            assert(unfinished(p) == unfinished(q));
        }
    }
}

/// Valid UTF-8 ends with a finished character.
proof fn lemma_valid_is_whole(v: Seq<u8>)
    requires
        valid_utf8(v),
    ensures
        unfinished(v) == 0,
    decreases v.len(),
{
    if v.len() > 0 {
        let k = length_of_first_scalar(v);
        let rest = pop_first_scalar(v);
        lemma_valid_is_whole(rest);
        assert(forall|i: int| 0 <= i < rest.len() ==> rest[i] == v[k + i]);
    }
}

/// Of a prefix of valid UTF-8, what has been read and what waits: characters,
/// and the first bytes of the next one.
proof fn lemma_read_prefix(pieces: Seq<Seq<u8>>, more: Seq<u8>)
    requires
        valid_utf8(joined(pieces) + more),
    ensures
        ({
            let (text, tail) = read_pieces(pieces);
            &&& valid_utf8(tail + more)
            &&& text + decode_utf8(tail + more) == decode_utf8(joined(pieces) + more)
            &&& unfinished(tail) == tail.len()
        }),
    decreases pieces.len(),
{
    let all = joined(pieces) + more;
    if pieces.len() == 0 {
        assert(all =~= more);
        assert(Seq::<u8>::empty() + more =~= more);
        assert(Seq::<char>::empty() + decode_utf8(more) =~= decode_utf8(more));
    } else {
        let last = pieces.last();
        let (before, waits) = read_pieces(pieces.drop_last());
        assert(joined(pieces.drop_last()) + (last + more) =~= all);
        lemma_read_prefix(pieces.drop_last(), last + more);
        let v = waits + (last + more);
        let t = waits + last;
        let w = whole(t);
        assert(v.subrange(0, t.len() as int) =~= t);
        lemma_whole_is_boundary(v, t.len() as int);
        valid_utf8_split(v, w);
        decode_utf8_split(v, w);
        let tail = t.subrange(w, t.len() as int);
        assert(v.subrange(0, w) =~= t.subrange(0, w));
        assert(v.subrange(w, v.len() as int) =~= tail + more);
        let text = before + decode_utf8(t.subrange(0, w));
        assert(text + decode_utf8(tail + more) =~= before + (decode_utf8(t.subrange(0, w))
            + decode_utf8(tail + more)));
    }
}

/// However valid UTF-8 is cut into pieces, within characters too, the text that
/// is read is the one that the bytes encode, and nothing waits at the end.
pub proof fn law_cuts_do_not_change_the_text(pieces: Seq<Seq<u8>>)
    requires
        valid_utf8(joined(pieces)),
    ensures
        read_pieces(pieces) == (decode_utf8(joined(pieces)), Seq::<u8>::empty()),
{
    let (text, tail) = read_pieces(pieces);
    assert(joined(pieces) + Seq::<u8>::empty() =~= joined(pieces));
    lemma_read_prefix(pieces, seq![]);
    assert(tail + Seq::<u8>::empty() =~= tail);
    lemma_valid_is_whole(tail);
    assert(tail =~= Seq::<u8>::empty());
    assert(text + decode_utf8(tail) =~= text);
}

} // verus!
