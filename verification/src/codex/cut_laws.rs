//! Where a Responses API stream is cut makes no difference to its chunks.
use vstd::prelude::*;

use crate::bytes::{joined, law_cuts_do_not_change_the_text, read_pieces, read_text, whole};
use crate::codex::transform::{block_text, chunk_for, next_chunk, ChunkStream};
use crate::json::JsonView;
use crate::sse::{after_block, gap, lemma_gap, sse_event};
use crate::text::lemma_find_in_longer;

verus! {

/// Chunks, the text that is left behind them, and the state behind them.
pub struct Yield {
    pub chunks: Seq<JsonView>,
    pub rest: Seq<char>,
    pub state: ChunkStream,
}

/// All chunks that received text gives, one behind the other.
pub open spec fn chunks_in(buf: Seq<char>, s: ChunkStream, model: Seq<char>) -> Yield
    decreases buf.len(),
    via chunks_in_shrinks
{
    if gap(buf) is None {
        Yield { chunks: seq![], rest: buf, state: s }
    } else {
        match sse_event(block_text(buf)) {
            None => chunks_in(after_block(buf), s, model),
            Some((event, data)) => match chunk_for(s, event, data, model) {
                (Some(chunk), t) => {
                    let more = chunks_in(after_block(buf), t, model);
                    Yield { chunks: seq![chunk] + more.chunks, ..more }
                },
                (None, t) => chunks_in(after_block(buf), t, model),
            },
        }
    }
}

#[via_fn]
proof fn chunks_in_shrinks(buf: Seq<char>, s: ChunkStream, model: Seq<char>) {
    lemma_gap(buf);
}

/// Taking the next chunk takes the first of them, and there is none to take
/// where there are none.
pub proof fn law_next_chunk_is_the_first(buf: Seq<char>, s: ChunkStream, model: Seq<char>)
    ensures
        match next_chunk(buf, s, model) {
            (Some(chunk), rest, t) => chunks_in(buf, s, model) == (Yield {
                chunks: seq![chunk] + chunks_in(rest, t, model).chunks,
                ..chunks_in(rest, t, model)
            }),
            (None, rest, t) => chunks_in(buf, s, model) == (Yield {
                chunks: Seq::<JsonView>::empty(),
                rest,
                state: t,
            }),
        },
    decreases buf.len(),
{
    lemma_gap(buf);
    if gap(buf) is Some {
        match sse_event(block_text(buf)) {
            None => law_next_chunk_is_the_first(after_block(buf), s, model),
            Some((event, data)) => match chunk_for(s, event, data, model) {
                (Some(_), _) => {},
                (None, t) => law_next_chunk_is_the_first(after_block(buf), t, model),
            },
        }
    }
}

/// What two pieces of text give in turn.
pub open spec fn followed_by(y: Yield, b: Seq<char>, model: Seq<char>) -> Yield {
    let more = chunks_in(y.rest + b, y.state, model);
    Yield { chunks: y.chunks + more.chunks, ..more }
}

/// A text that arrives in two pieces gives the chunks that it gives whole.
pub proof fn law_chunks_ignore_chunk_boundaries(
    buf: Seq<char>,
    b: Seq<char>,
    s: ChunkStream,
    model: Seq<char>,
)
    ensures
        chunks_in(buf + b, s, model) == followed_by(chunks_in(buf, s, model), b, model),
    decreases buf.len(),
{
    lemma_gap(buf);
    if gap(buf) is Some {
        lemma_find_in_longer(buf, b, "\n\n"@, 0);
        assert(block_text(buf + b) =~= block_text(buf));
        assert(after_block(buf + b) =~= after_block(buf) + b);
        match sse_event(block_text(buf)) {
            None => law_chunks_ignore_chunk_boundaries(after_block(buf), b, s, model),
            Some((event, data)) => match chunk_for(s, event, data, model) {
                (Some(chunk), t) => {
                    law_chunks_ignore_chunk_boundaries(after_block(buf), b, t, model);
                    let y = chunks_in(after_block(buf), t, model);
                    let more = chunks_in(y.rest + b, y.state, model);
                    assert(seq![chunk] + (y.chunks + more.chunks) =~= seq![chunk] + y.chunks
                        + more.chunks);
                },
                (None, t) => law_chunks_ignore_chunk_boundaries(after_block(buf), b, t, model),
            },
        }
    } else {
        let more = chunks_in(buf + b, s, model);
        assert(Seq::<JsonView>::empty() + more.chunks =~= more.chunks);
    }
}

/// What pieces of bytes give, each chunk taken as soon as it is there.
pub open spec fn converted(pieces: Seq<Seq<u8>>, s: ChunkStream, model: Seq<char>) -> Yield
    decreases pieces.len(),
{
    if pieces.len() == 0 {
        Yield { chunks: seq![], rest: seq![], state: s }
    } else {
        let t = read_pieces(pieces.drop_last()).1 + pieces.last();
        followed_by(
            converted(pieces.drop_last(), s, model),
            read_text(t.subrange(0, whole(t))), model,
        )
    }
}

proof fn lemma_converted(pieces: Seq<Seq<u8>>, s: ChunkStream, model: Seq<char>)
    ensures
        converted(pieces, s, model) == chunks_in(read_pieces(pieces).0, s, model),
    decreases pieces.len(),
{
    if pieces.len() == 0 {
        lemma_gap(Seq::<char>::empty());
    } else {
        let before = pieces.drop_last();
        lemma_converted(before, s, model);
        let t = read_pieces(before).1 + pieces.last();
        law_chunks_ignore_chunk_boundaries(
            read_pieces(before).0,
            read_text(t.subrange(0, whole(t))),
            s, model,
        );
    }
}

/// Two streams whose bytes join to the same valid UTF-8 give the same chunks,
/// wherever each was cut, and leave the same text behind.
pub proof fn law_chunks_ignore_where_bytes_are_cut(
    p: Seq<Seq<u8>>,
    q: Seq<Seq<u8>>,
    s: ChunkStream,
    model: Seq<char>,
)
    requires
        vstd::utf8::valid_utf8(joined(p)),
        joined(p) == joined(q),
    ensures
        converted(p, s, model) == chunks_in(vstd::utf8::decode_utf8(joined(p)), s, model),
        converted(p, s, model) == converted(q, s, model),
        read_pieces(p).1 == Seq::<u8>::empty(),
        read_pieces(q).1 == Seq::<u8>::empty(),
{
    lemma_converted(p, s, model);
    lemma_converted(q, s, model);
    law_cuts_do_not_change_the_text(p);
    law_cuts_do_not_change_the_text(q);
}

} // verus!
