//! What is read of a block, and that what is written is read again.
use vstd::prelude::*;

use crate::codex::claude_stream::EventView;
use crate::codex::sse_bridge::{chunk_line, event_block, ChunkLine};
use crate::json::{parsed, printed, reads_back, JsonView};
use crate::sse::{
    all_data, body_events, chunk_block, claude_block_event, data_of, event_name, last_data, sse_event,
    SSE_DONE,
};
use crate::text::{has_prefix, lines_of, trimmed, white, without_cr, without_prefix};
use crate::text_laws::{blank, law_lines, law_trimming};

verus! {

/// The line names an event.
pub open spec fn names_event(line: Seq<char>) -> bool {
    line.len() >= 6 && line.subrange(0, 6) == "event:"@
}

/// The line carries data.
pub open spec fn carries_data(line: Seq<char>) -> bool {
    line.len() >= 5 && line.subrange(0, 5) == "data:"@
}

/// What a line carries, without the white space around it.
pub open spec fn carried(line: Seq<char>) -> Option<Seq<char>> {
    if carries_data(line) {
        Some(trimmed(line.subrange(5, line.len() as int)))
    } else {
        None
    }
}

proof fn lemma_data(line: Seq<char>)
    ensures
        data_of(line) == carried(line),
        without_prefix(line, "event:"@) is Some <==> names_event(line),
        names_event(line) ==> without_prefix(line, "event:"@) == Some(
            line.subrange(6, line.len() as int),
        ),
{
    reveal_strlit("event:");
    reveal_strlit("data:");
    assert("event:"@.len() == 6 && "event:"@[0] == 'e');
    assert("data:"@.len() == 5 && "data:"@[0] == 'd');
    if has_prefix(line, "event:"@) && carries_data(line) {
        assert(line.subrange(0, 6)[0] == line[0]);
        assert(line.subrange(0, 5)[0] == line[0]);
    }
}

/// The last line that names an event gives its name; without one there is none.
pub proof fn law_last_name_counts(ls: Seq<Seq<char>>, k: int)
    ensures
        0 <= k < ls.len() && names_event(ls[k]) && (forall|i: int|
            k < i < ls.len() ==> !names_event(#[trigger] ls[i])) ==> event_name(ls) == trimmed(
            ls[k].subrange(6, ls[k].len() as int),
        ),
        (forall|i: int| 0 <= i < ls.len() ==> !names_event(#[trigger] ls[i])) ==> event_name(ls)
            == Seq::<char>::empty(),
    decreases ls.len(),
{
    if ls.len() > 0 {
        let rest = ls.drop_last();
        law_last_name_counts(rest, k);
        lemma_data(ls.last());
        assert(ls[ls.len() - 1] == ls.last());
        if !names_event(ls.last()) {
            if 0 <= k < ls.len() && names_event(ls[k]) && (forall|i: int|
                k < i < ls.len() ==> !names_event(#[trigger] ls[i])) {
                assert(rest[k] == ls[k]);
                assert forall|i: int| k < i < rest.len() implies !names_event(#[trigger] rest[i]) by {
                    assert(rest[i] == ls[i]);
                }
            }
            if forall|i: int| 0 <= i < ls.len() ==> !names_event(#[trigger] ls[i]) {
                assert forall|i: int| 0 <= i < rest.len() implies !names_event(#[trigger] rest[i]) by {
                    assert(rest[i] == ls[i]);
                }
            }
        }
    }
}

/// What the lines of a block carry is run together; where one line is to count, it
/// is the last.
pub proof fn law_data_is_run_together(ls: Seq<Seq<char>>)
    ensures
        all_data(ls) == ls.filter_map(|l: Seq<char>| carried(l)).flatten(),
        ({
            let all = ls.filter_map(|l: Seq<char>| carried(l));
            last_data(ls) == if all.len() > 0 {
                Some(all.last())
            } else {
                None
            }
        }),
{
    ls.filter_map(|l: Seq<char>| carried(l)).lemma_flatten_and_flatten_alt_are_equivalent();
    lemma_run_together(ls);
}

proof fn lemma_run_together(ls: Seq<Seq<char>>)
    ensures
        all_data(ls) == ls.filter_map(|l: Seq<char>| carried(l)).flatten_alt(),
        ({
            let all = ls.filter_map(|l: Seq<char>| carried(l));
            last_data(ls) == if all.len() > 0 {
                Some(all.last())
            } else {
                None
            }
        }),
    decreases ls.len(),
{
    if ls.len() > 0 {
        let rest = ls.drop_last();
        lemma_run_together(rest);
        lemma_data(ls.last());
        let before = rest.filter_map(|l: Seq<char>| carried(l));
        let all = ls.filter_map(|l: Seq<char>| carried(l));
        match carried(ls.last()) {
            Some(d) => {
                assert(all =~= before.push(d));
                assert(before.push(d).drop_last() =~= before);
            },
            None => {},
        }
    }
}

/// A block is an event where what it carries is JSON, under its name.
pub proof fn law_blocks_are_events(block: Seq<char>)
    ensures
        ({
            let ls = lines_of(block);
            let all = ls.filter_map(|l: Seq<char>| carried(l));
            &&& all.flatten().len() == 0 ==> sse_event(block) is None
            &&& all.flatten().len() > 0 ==> sse_event(block) == match parsed(all.flatten()) {
                Some(j) => Some((event_name(ls), j)),
                None => None,
            }
            &&& all.len() == 0 ==> claude_block_event(block) is None
            &&& all.len() > 0 ==> claude_block_event(block) == match parsed(all.last()) {
                Some(j) => Some((event_name(ls), j)),
                None => None,
            }
        }),
{
    law_data_is_run_together(lines_of(block));
}

/// The events of a body are those of its blocks, in order.
pub proof fn law_body_is_its_blocks(pieces: Seq<Seq<char>>)
    ensures
        body_events(pieces) == pieces.filter_map(|p: Seq<char>| sse_event(p)),
    decreases pieces.len(),
{
    if pieces.len() > 0 {
        law_body_is_its_blocks(pieces.drop_last());
    }
    assert(body_events(pieces) =~= pieces.filter_map(|p: Seq<char>| sse_event(p)));
}

// ---------------------------------------------------------------------------
// What is written is read
// ---------------------------------------------------------------------------

/// A text of one line without white space around it.
pub open spec fn on_one_line(s: Seq<char>) -> bool {
    &&& s.len() > 0
    &&& !white(s[0])
    &&& !white(s.last())
    &&& forall|i: int| 0 <= i < s.len() ==> #[trigger] s[i] != '\n'
}

/// The word before a colon and the space behind it go away.
proof fn lemma_field(word: Seq<char>, s: Seq<char>)
    requires
        on_one_line(s),
    ensures
        trimmed((word + seq![' '] + s).subrange(word.len() as int, (word.len() + 1 + s.len()) as int))
            == s,
{
    let none = Seq::<char>::empty();
    assert(blank(seq![' ']));
    law_trimming(seq![' '], s, none);
    assert((word + seq![' '] + s).subrange(word.len() as int, (word.len() + 1 + s.len()) as int)
        =~= seq![' '] + s + none);
}

/// An event that was written as a block is read as the same event, in both ways of
/// reading, where its name and its JSON stand on one line each.
pub proof fn law_events_read_back(e: EventView)
    requires
        on_one_line(e.0),
        on_one_line(printed(e.1)),
        reads_back(e.1),
    ensures
        claude_block_event(event_block(e)) == Some(e),
        sse_event(event_block(e)) == Some(e),
{
    reveal_strlit("event: ");
    reveal_strlit("event:");
    reveal_strlit("\ndata: ");
    reveal_strlit("data:");
    reveal_strlit("\n\n");
    let body = printed(e.1);
    let first = "event:"@ + seq![' '] + e.0;
    let second = "data:"@ + seq![' '] + body;
    let none = Seq::<char>::empty();
    let end = none.push('\n') + none;
    assert(event_block(e) =~= first.push('\n') + (second.push('\n') + end));
    assert forall|i: int| 0 <= i < first.len() implies #[trigger] first[i] != '\n' by {
        if i > 6 {
            assert(first[i] == e.0[i - 7]);
        }
    }
    assert forall|i: int| 0 <= i < second.len() implies #[trigger] second[i] != '\n' by {
        if i > 5 {
            assert(second[i] == body[i - 6]);
        }
    }
    law_lines(first, second.push('\n') + end);
    law_lines(second, end);
    law_lines(none, none);
    assert(first.last() == e.0.last());
    assert(second.last() == body.last());
    assert(white('\r'));
    let ls = lines_of(event_block(e));
    assert(ls =~= seq![first, second, none]);
    lemma_field("event:"@, e.0);
    lemma_field("data:"@, body);
    assert(first.subrange(0, 6) =~= "event:"@);
    assert(second.subrange(0, 5) =~= "data:"@);
    assert(!names_event(second)) by {
        assert(second.subrange(0, 6)[0] == 'd');
        assert("event:"@[0] == 'e');
    }
    assert(!carries_data(first)) by {
        assert(first.subrange(0, 5)[0] == 'e');
        assert("data:"@[0] == 'd');
    }
    assert(!names_event(none) && !carries_data(none));
    assert forall|i: int| 0 < i < ls.len() implies !names_event(#[trigger] ls[i]) by {}
    law_last_name_counts(ls, 0);
    let pick = |l: Seq<char>| carried(l);
    let d0 = ls.drop_last();
    let d1 = d0.drop_last();
    let d2 = d1.drop_last();
    assert(d2 =~= seq![]);
    assert(d1.last() == first && d0.last() == second && ls.last() == none);
    assert(d2.filter_map(pick) =~= seq![]);
    assert(d1.filter_map(pick) =~= seq![]);
    assert(d0.filter_map(pick) =~= seq![body]);
    assert(ls.filter_map(pick) =~= seq![body]);
    seq![body].lemma_flatten_one_element();
    law_blocks_are_events(event_block(e));
}

/// An event is read though the blank line behind it is missing.
pub proof fn law_unended_events_read_back(e: EventView)
    requires
        on_one_line(e.0),
        on_one_line(printed(e.1)),
        reads_back(e.1),
    ensures
        claude_block_event("event: "@ + e.0 + "\ndata: "@ + printed(e.1)) == Some(e),
        sse_event("event: "@ + e.0 + "\ndata: "@ + printed(e.1)) == Some(e),
{
    reveal_strlit("event: ");
    reveal_strlit("event:");
    reveal_strlit("\ndata: ");
    reveal_strlit("data:");
    let body = printed(e.1);
    let text = "event: "@ + e.0 + "\ndata: "@ + body;
    let first = "event:"@ + seq![' '] + e.0;
    let second = "data:"@ + seq![' '] + body;
    let none = Seq::<char>::empty();
    assert(text =~= first.push('\n') + second);
    assert forall|i: int| 0 <= i < first.len() implies #[trigger] first[i] != '\n' by {
        if i > 6 {
            assert(first[i] == e.0[i - 7]);
        }
    }
    assert forall|i: int| 0 <= i < second.len() implies #[trigger] second[i] != '\n' by {
        if i > 5 {
            assert(second[i] == body[i - 6]);
        }
    }
    law_lines(first, second);
    law_lines(second, none);
    assert(first.last() == e.0.last());
    assert(second.last() == body.last());
    assert(white('\r'));
    let ls = lines_of(text);
    assert(ls =~= seq![first, second]);
    lemma_field("event:"@, e.0);
    lemma_field("data:"@, body);
    assert(first.subrange(0, 6) =~= "event:"@);
    assert(second.subrange(0, 5) =~= "data:"@);
    assert(!names_event(second)) by {
        assert(second.subrange(0, 6)[0] == 'd');
        assert("event:"@[0] == 'e');
    }
    assert(!carries_data(first)) by {
        assert(first.subrange(0, 5)[0] == 'e');
        assert("data:"@[0] == 'd');
    }
    assert forall|i: int| 0 < i < ls.len() implies !names_event(#[trigger] ls[i]) by {}
    law_last_name_counts(ls, 0);
    let pick = |l: Seq<char>| carried(l);
    let d1 = ls.drop_last();
    let d2 = d1.drop_last();
    assert(d2 =~= seq![]);
    assert(d1.last() == first && ls.last() == second);
    assert(d2.filter_map(pick) =~= seq![]);
    assert(d1.filter_map(pick) =~= seq![]);
    assert(ls.filter_map(pick) =~= seq![body]);
    seq![body].lemma_flatten_one_element();
    law_blocks_are_events(text);
}

/// A chunk that was written as a block is read as the same chunk, and the end marker
/// as the end.
pub proof fn law_chunks_read_back(chunk: JsonView)
    requires
        on_one_line(printed(chunk)),
        reads_back(chunk),
        printed(chunk) != "[DONE]"@,
    ensures
        chunk_line(chunk_block(chunk)) == ChunkLine::Chunk(chunk),
        chunk_line(SSE_DONE@) is Done,
{
    reveal_strlit("data: ");
    reveal_strlit("data:");
    reveal_strlit("\n\n");
    reveal_strlit("[DONE]");
    reveal_strlit("data: [DONE]\n\n");
    let done = "[DONE]"@;
    assert(done.len() == 6 && done[0] == '[' && done[5] == ']');
    assert(on_one_line(done));
    lemma_chunk(printed(chunk));
    lemma_chunk(done);
    assert("data: "@ + printed(chunk) + "\n\n"@ =~= "data:"@ + seq![' '] + printed(chunk)
        + seq!['\n', '\n']);
    assert(SSE_DONE@ =~= "data:"@ + seq![' '] + done + seq!['\n', '\n']);
}

proof fn lemma_chunk(body: Seq<char>)
    requires
        on_one_line(body),
    ensures
        ({
            let block = "data:"@ + seq![' '] + body + seq!['\n', '\n'];
            without_prefix(trimmed(block), "data:"@) matches Some(rest) && trimmed(rest) == body
        }),
{
    reveal_strlit("data:");
    let line = "data:"@ + seq![' '] + body;
    let none = Seq::<char>::empty();
    let end = seq!['\n', '\n'];
    assert(line[0] == 'd' && line.last() == body.last());
    assert(blank(end));
    law_trimming(none, line, end);
    assert(none + line + end =~= line + end);
    assert(line.subrange(0, 5) =~= "data:"@);
    lemma_field("data:"@, body);
}

} // verus!
