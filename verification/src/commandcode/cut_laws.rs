//! Where a stream of Command Code's events is cut makes no difference to its
//! chunks.
use vstd::prelude::*;

use crate::bytes::{joined, law_cuts_do_not_change_the_text, read_pieces, read_text, whole};
use crate::codex::transform::ChunkStream;
use crate::commandcode::stream::{
    after_line, chunk_for, first_line, lemma_line_end, line_end, next_chunk, StampView,
};
use crate::commandcode::transform::line_event;
use crate::json::JsonView;
use crate::text::lemma_find_in_longer;

verus! {

/// Chunks, the text that is left behind them, and the state behind them.
pub struct Yield {
    pub chunks: Seq<JsonView>,
    pub rest: Seq<char>,
    pub state: ChunkStream,
}

/// All chunks that received text gives, one behind the other.
pub open spec fn chunks_in(
    buf: Seq<char>,
    s: ChunkStream,
    model: Seq<char>,
    stamp: StampView,
) -> Yield
    decreases buf.len(),
    via chunks_in_shrinks
{
    if line_end(buf) is None {
        Yield { chunks: seq![], rest: buf, state: s }
    } else {
        match line_event(first_line(buf)) {
            None => chunks_in(after_line(buf), s, model, stamp),
            Some(event) => match chunk_for(s, event, model, stamp) {
                (Some(chunk), t) => {
                    let more = chunks_in(after_line(buf), t, model, stamp);
                    Yield { chunks: seq![chunk] + more.chunks, ..more }
                },
                (None, t) => chunks_in(after_line(buf), t, model, stamp),
            },
        }
    }
}

#[via_fn]
proof fn chunks_in_shrinks(buf: Seq<char>, s: ChunkStream, model: Seq<char>, stamp: StampView) {
    lemma_line_end(buf);
}

/// Taking the next chunk takes the first of them, and there is none to take
/// where there are none.
pub proof fn law_next_chunk_is_the_first(
    buf: Seq<char>,
    s: ChunkStream,
    model: Seq<char>,
    stamp: StampView,
)
    ensures
        match next_chunk(buf, s, model, stamp) {
            (Some(chunk), rest, t) => chunks_in(buf, s, model, stamp) == (Yield {
                chunks: seq![chunk] + chunks_in(rest, t, model, stamp).chunks,
                ..chunks_in(rest, t, model, stamp)
            }),
            (None, rest, t) => chunks_in(buf, s, model, stamp) == (Yield {
                chunks: Seq::<JsonView>::empty(),
                rest,
                state: t,
            }),
        },
    decreases buf.len(),
{
    lemma_line_end(buf);
    if line_end(buf) is Some {
        match line_event(first_line(buf)) {
            None => law_next_chunk_is_the_first(after_line(buf), s, model, stamp),
            Some(event) => match chunk_for(s, event, model, stamp) {
                (Some(_), _) => {},
                (None, t) => law_next_chunk_is_the_first(after_line(buf), t, model, stamp),
            },
        }
    }
}

/// What two pieces of text give in turn.
pub open spec fn followed_by(y: Yield, b: Seq<char>, model: Seq<char>, stamp: StampView) -> Yield {
    let more = chunks_in(y.rest + b, y.state, model, stamp);
    Yield { chunks: y.chunks + more.chunks, ..more }
}

/// A text that arrives in two pieces gives the chunks that it gives whole.
pub proof fn law_chunks_ignore_chunk_boundaries(
    buf: Seq<char>,
    b: Seq<char>,
    s: ChunkStream,
    model: Seq<char>,
    stamp: StampView,
)
    ensures
        chunks_in(buf + b, s, model, stamp) == followed_by(
            chunks_in(buf, s, model, stamp),
            b,
            model,
            stamp,
        ),
    decreases buf.len(),
{
    lemma_line_end(buf);
    if line_end(buf) is Some {
        lemma_find_in_longer(buf, b, "\n"@, 0);
        assert(first_line(buf + b) =~= first_line(buf));
        assert(after_line(buf + b) =~= after_line(buf) + b);
        match line_event(first_line(buf)) {
            None => law_chunks_ignore_chunk_boundaries(after_line(buf), b, s, model, stamp),
            Some(event) => match chunk_for(s, event, model, stamp) {
                (Some(chunk), t) => {
                    law_chunks_ignore_chunk_boundaries(after_line(buf), b, t, model, stamp);
                    let y = chunks_in(after_line(buf), t, model, stamp);
                    let more = chunks_in(y.rest + b, y.state, model, stamp);
                    assert(seq![chunk] + (y.chunks + more.chunks) =~= seq![chunk] + y.chunks
                        + more.chunks);
                },
                (None, t) => law_chunks_ignore_chunk_boundaries(after_line(buf), b, t, model, stamp),
            },
        }
    } else {
        let more = chunks_in(buf + b, s, model, stamp);
        assert(Seq::<JsonView>::empty() + more.chunks =~= more.chunks);
    }
}

/// What pieces of bytes give, each chunk taken as soon as it is there.
pub open spec fn converted(
    pieces: Seq<Seq<u8>>,
    s: ChunkStream,
    model: Seq<char>,
    stamp: StampView,
) -> Yield
    decreases pieces.len(),
{
    if pieces.len() == 0 {
        Yield { chunks: seq![], rest: seq![], state: s }
    } else {
        let t = read_pieces(pieces.drop_last()).1 + pieces.last();
        followed_by(
            converted(pieces.drop_last(), s, model, stamp),
            read_text(t.subrange(0, whole(t))), model, stamp,
        )
    }
}

proof fn lemma_converted(
    pieces: Seq<Seq<u8>>,
    s: ChunkStream,
    model: Seq<char>,
    stamp: StampView,
)
    ensures
        converted(pieces, s, model, stamp) == chunks_in(read_pieces(pieces).0, s, model, stamp),
    decreases pieces.len(),
{
    if pieces.len() == 0 {
        lemma_line_end(Seq::<char>::empty());
    } else {
        let before = pieces.drop_last();
        lemma_converted(before, s, model, stamp);
        let t = read_pieces(before).1 + pieces.last();
        law_chunks_ignore_chunk_boundaries(
            read_pieces(before).0,
            read_text(t.subrange(0, whole(t))),
            s, model, stamp,
        );
    }
}

/// Two streams whose bytes join to the same valid UTF-8 give the same chunks,
/// wherever each was cut, and leave the same text behind.
pub proof fn law_chunks_ignore_where_bytes_are_cut(
    p: Seq<Seq<u8>>,
    q: Seq<Seq<u8>>,
    s: ChunkStream,
    model: Seq<char>,
    stamp: StampView,
)
    requires
        vstd::utf8::valid_utf8(joined(p)),
        joined(p) == joined(q),
    ensures
        converted(p, s, model, stamp) == chunks_in(
            vstd::utf8::decode_utf8(joined(p)),
            s,
            model,
            stamp,
        ),
        converted(p, s, model, stamp) == converted(q, s, model, stamp),
        read_pieces(p).1 == Seq::<u8>::empty(),
        read_pieces(q).1 == Seq::<u8>::empty(),
{
    lemma_converted(p, s, model, stamp);
    lemma_converted(q, s, model, stamp);
    law_cuts_do_not_change_the_text(p);
    law_cuts_do_not_change_the_text(q);
}

} // verus!
