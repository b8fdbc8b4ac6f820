//! What is sent is framed as it is received: a block ends at its blank line, an event
//! line at its line feed, and what each says goes on to the client.
use vstd::prelude::*;

use crate::codex::claude_stream::{openai_event, EventView, OpenAiStream};
use crate::codex::sse_bridge::{event_block, openai_block};
use crate::codex::transform as codex;
use crate::commandcode::answer_laws::law_lines_are_read;
use crate::commandcode::stream as commandcode;
use crate::json::{parsed, printed, reads_back, JsonView};
use crate::sse::{
    after_block, chunk_block, first_block, gap, next_frame, sse_event, FrameView, SSE_DONE,
};
use crate::sse_laws::{law_events_read_back, law_unended_events_read_back, on_one_line};
use crate::text::{lemma_find_is_occurs, occurs_at, trimmed, white};
use crate::text_laws::{blank, law_trimming};

verus! {

/// A text without a blank line that does not end a line.
pub open spec fn unbroken(s: Seq<char>) -> bool {
    &&& s.len() > 0
    &&& !white(s[0])
    &&& !white(s.last())
    &&& forall|i: int| 0 <= i < s.len() - 1 && #[trigger] s[i] == '\n' ==> s[i + 1] != '\n'
}

/// A block ends at the first blank line, and what follows is left for later.
pub proof fn law_blocks_end_at_a_blank_line(s: Seq<char>, rest: Seq<char>, ended: bool)
    requires
        unbroken(s),
    ensures
        gap(s + "\n\n"@ + rest) == Some(s.len() as int),
        codex::block_text(s + "\n\n"@ + rest) == s,
        after_block(s + "\n\n"@ + rest) == rest,
        next_frame(s + "\n\n"@ + rest, ended) == (FrameView::Block(s + "\n\n"@), rest),
{
    reveal_strlit("\n\n");
    let blank_line = "\n\n"@;
    let all = s + blank_line + rest;
    let n = s.len() as int;
    assert(blank_line.len() == 2 && blank_line[0] == '\n' && blank_line[1] == '\n');
    assert(white('\n'));
    assert(all.subrange(n, n + 2) =~= blank_line);
    assert(occurs_at(all, blank_line, n));
    lemma_find_is_occurs(all, blank_line, 0);
    assert forall|j: int| 0 <= j < n implies !occurs_at(all, blank_line, j) by {
        if occurs_at(all, blank_line, j) {
            let part = all.subrange(j, j + 2);
            assert(part[0] == all[j] && part[1] == all[j + 1]);
            assert(all[j] == s[j]);
            if j < n - 1 {
                assert(all[j + 1] == s[j + 1]);
            }
        }
    }
    assert(codex::block_text(all) =~= s);
    assert(after_block(all) =~= rest);
    assert(first_block(all) =~= s + blank_line);
    let none = Seq::<char>::empty();
    assert(blank(blank_line));
    law_trimming(none, s, blank_line);
    assert(none + s + blank_line =~= s + blank_line);
}

/// Without a blank line no block is there yet; when no more comes, what is there is
/// the last block, unless it is blank.
pub proof fn law_unended_blocks_wait(s: Seq<char>)
    requires
        unbroken(s),
    ensures
        next_frame(s, false) == (FrameView::NeedMore, s),
        next_frame(s, true) == (FrameView::Block(s), Seq::<char>::empty()),
        next_frame(seq![], true).0 == FrameView::End,
        next_frame(seq![], false).0 == FrameView::NeedMore,
{
    reveal_strlit("\n\n");
    let blank_line = "\n\n"@;
    let none = Seq::<char>::empty();
    assert(blank_line.len() == 2 && blank_line[0] == '\n' && blank_line[1] == '\n');
    lemma_find_is_occurs(s, blank_line, 0);
    lemma_find_is_occurs(none, blank_line, 0);
    assert forall|j: int| 0 <= j implies !occurs_at(s, blank_line, j) by {
        if occurs_at(s, blank_line, j) {
            let part = s.subrange(j, j + 2);
            assert(part[0] == s[j] && part[1] == s[j + 1]);
        }
    }
    law_trimming(none, s, none);
    assert(none + s + none =~= s);
    law_trimming(none, none, none);
    assert(none + none + none =~= none);
}

/// What is sent as one block is received as one block: a chunk, an event and the
/// end marker.
pub proof fn law_sent_blocks_are_received(
    chunk: JsonView,
    e: EventView,
    rest: Seq<char>,
    ended: bool,
)
    requires
        on_one_line(printed(chunk)),
        on_one_line(e.0),
        on_one_line(printed(e.1)),
    ensures
        next_frame(chunk_block(chunk) + rest, ended) == (
            FrameView::Block(chunk_block(chunk)),
            rest,
        ),
        next_frame(event_block(e) + rest, ended) == (FrameView::Block(event_block(e)), rest),
        next_frame(SSE_DONE@ + rest, ended) == (FrameView::Block(SSE_DONE@), rest),
{
    reveal_strlit("data: ");
    reveal_strlit("data: [DONE]\n\n");
    reveal_strlit("\n\n");
    let c = "data: "@ + printed(chunk);
    assert forall|i: int| 0 <= i < c.len() implies #[trigger] c[i] != '\n' by {
        if i >= 6 {
            assert(c[i] == printed(chunk)[i - 6]);
        }
    }
    assert(c.last() == printed(chunk).last());
    law_blocks_end_at_a_blank_line(c, rest, ended);
    lemma_event_text(e);
    law_blocks_end_at_a_blank_line(event_text(e), rest, ended);
    let done = SSE_DONE@;
    let d = done.subrange(0, 12);
    assert(done =~= d + "\n\n"@);
    law_blocks_end_at_a_blank_line(d, rest, ended);
}

/// An event's block without its blank line.
pub open spec fn event_text(e: EventView) -> Seq<char> {
    "event: "@ + e.0 + "\ndata: "@ + printed(e.1)
}

proof fn lemma_event_text(e: EventView)
    requires
        on_one_line(e.0),
        on_one_line(printed(e.1)),
    ensures
        unbroken(event_text(e)),
        event_block(e) == event_text(e) + "\n\n"@,
{
    reveal_strlit("event: ");
    reveal_strlit("\ndata: ");
    let t = event_text(e);
    let n = e.0.len() as int;
    assert forall|i: int| 0 <= i < t.len() - 1 && #[trigger] t[i] == '\n' implies t[i + 1] != '\n' by {
        if i < 7 {
            assert(t[i] == "event: "@[i]);
        } else if i < 7 + n {
            assert(t[i] == e.0[i - 7]);
        } else if i < 14 + n {
            assert(t[i] == "\ndata: "@[i - 7 - n]);
            if i == 7 + n {
                assert(t[i + 1] == "\ndata: "@[1]);
            }
        } else {
            assert(t[i] == printed(e.1)[i - 14 - n]);
        }
    }
    assert(t.last() == printed(e.1).last());
}

/// An Anthropic stream's end goes on as the end marker, and ends the stream; any
/// other event goes on as the chunk that it gives, if it gives one.
pub proof fn law_events_go_on_as_chunks(e: EventView, s: OpenAiStream)
    requires
        on_one_line(e.0),
        on_one_line(printed(e.1)),
        reads_back(e.1),
    ensures
        e.0 == "message_stop"@ ==> openai_block(event_block(e), s) == (
            Some("data: [DONE]\n\n"@),
            true,
            s,
        ),
        e.0 != "message_stop"@ ==> openai_block(event_block(e), s) == (
            match openai_event(e.0, e.1, s).0 {
                Some(chunk) => Some("data: "@ + printed(chunk) + "\n\n"@),
                None => None,
            },
            false,
            openai_event(e.0, e.1, s).1,
        ),
{
    law_events_read_back(e);
}

/// A received event gives its chunk, and what follows it is read next; an event that
/// gives none is passed over.
pub proof fn law_received_events_give_chunks(
    e: EventView,
    rest: Seq<char>,
    s: codex::ChunkStream,
    model: Seq<char>,
)
    requires
        on_one_line(e.0),
        on_one_line(printed(e.1)),
        reads_back(e.1),
    ensures
        codex::next_chunk(event_block(e) + rest, s, model) == match codex::chunk_for(
            s,
            e.0,
            e.1,
            model,
        ) {
            (Some(chunk), t) => (Some(chunk), rest, t),
            (None, t) => codex::next_chunk(rest, t, model),
        },
{
    lemma_event_text(e);
    law_blocks_end_at_a_blank_line(event_text(e), rest, false);
    law_unended_events_read_back(e);
    assert(sse_event(event_text(e)) == Some(e));
}

/// A received line of JSON gives its chunk, and what follows it is read next; an
/// event that gives none is passed over. Behind the last line feed an event counts
/// too, once the stream has ended.
pub proof fn law_received_lines_give_chunks(
    e: JsonView,
    rest: Seq<char>,
    s: codex::ChunkStream,
    model: Seq<char>,
    stamp: commandcode::StampView,
)
    requires
        on_one_line(printed(e)),
        printed(e)[0] == '{',
        reads_back(e),
    ensures
        commandcode::next_chunk(printed(e).push('\n') + rest, s, model, stamp)
            == match commandcode::chunk_for(s, e, model, stamp) {
            (Some(chunk), t) => (Some(chunk), rest, t),
            (None, t) => commandcode::next_chunk(rest, t, model, stamp),
        },
        commandcode::next_chunk(printed(e), s, model, stamp) == (
            None::<JsonView>,
            printed(e),
            s,
        ),
        commandcode::last_chunk("data: "@ + printed(e), s, model, stamp)
            == commandcode::chunk_for(s, e, model, stamp),
        commandcode::last_chunk(seq![], s, model, stamp) == (None::<JsonView>, s),
        commandcode::unread("data: "@ + printed(e)) == Seq::<char>::empty(),
        commandcode::unread(seq![':'] + printed(e)) == seq![':'] + printed(e),
{
    reveal_strlit("\n");
    reveal_strlit("data: ");
    let line = printed(e);
    let n = line.len() as int;
    let feed = "\n"@;
    let all = line.push('\n') + rest;
    assert(feed =~= seq!['\n']);
    assert(all.subrange(n, n + 1) =~= feed);
    assert(occurs_at(all, feed, n));
    lemma_find_is_occurs(all, feed, 0);
    lemma_find_is_occurs(line, feed, 0);
    assert forall|j: int| 0 <= j < n implies !occurs_at(all, feed, j) && !occurs_at(line, feed, j) by {
        if occurs_at(all, feed, j) {
            assert(all.subrange(j, j + 1)[0] == line[j]);
        }
        if occurs_at(line, feed, j) {
            assert(line.subrange(j, j + 1)[0] == line[j]);
        }
    }
    assert(commandcode::first_line(all) =~= line.push('\n'));
    assert(commandcode::after_line(all) =~= rest);
    law_lines_are_read(line);
    assert(parsed(line) == Some(e));
}

} // verus!
