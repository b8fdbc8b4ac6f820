//! A stream that goes to Anthropic's format and back says what it said.
use vstd::prelude::*;

use crate::codex::claude_laws::{
    chunk_text, event_text, law_stream_keeps_the_text, lemma_text_push, streamed_text, text_in,
};
use crate::codex::claude_stream::{
    announce, block_delta, block_start, block_stop, call_tools, claude_events, claude_stream_start,
    empty_text_block, farewell, feed_tool, lemma_event_names, message_start, open_tool, openai_chunk,
    openai_event, openai_stream_start, speak, tool_block, tool_stops, ClaudeStep, ClaudeStream,
    EventView, OpenAiStream, TEXT_BLOCK,
};
use crate::index_table::{ascending, entry, law_entered};
use crate::json::{obj, text, JsonView};

verus! {

/// The chunks that events become, one behind the other, and the state behind
/// them.
pub open spec fn read_back(events: Seq<EventView>, t: OpenAiStream) -> (
    Seq<JsonView>,
    OpenAiStream,
)
    decreases events.len(),
{
    if events.len() == 0 {
        (seq![], t)
    } else {
        let (chunks, u) = read_back(events.drop_last(), t);
        let (chunk, v) = openai_event(events.last().0, events.last().1, u);
        match chunk {
            Some(c) => (chunks.push(c), v),
            None => (chunks, v),
        }
    }
}

/// The reader knows the text block of the writer as one.
pub open spec fn in_step(s: ClaudeStream, t: OpenAiStream) -> bool {
    &&& ascending(t.kinds)
    &&& s.text matches Some(i) ==> i < s.next && entry(t.kinds, i) == Some(TEXT_BLOCK)
}

/// What was written so far reads as what was said, and reader and writer are in
/// step.
pub open spec fn faithful(step: ClaudeStep, t: OpenAiStream) -> bool {
    &&& streamed_text(read_back(step.events, t).0) == text_in(step.events)
    &&& in_step(step.state, read_back(step.events, t).1)
}

/// The words of chunks and events differ.
proof fn lemma_words()
    ensures
        "choices"@ != "usage"@,
        "delta"@ != "finish_reason"@,
        "delta"@ != "index"@,
        "delta"@ != "type"@,
        "content"@ != "tool_calls"@,
        "content"@ != "role"@,
        "type"@ != "index"@,
        "type"@ != "content_block"@,
        "index"@ != "content_block"@,
        "tool_use"@ != "text"@,
        "type"@ != "text"@,
        "type"@ != "partial_json"@,
        "text"@ != "partial_json"@,
        "text_delta"@ != "input_json_delta"@,
        "type"@ != "id"@,
        "type"@ != "name"@,
        "type"@ != "input"@,
        ""@.len() == 0,
{
    reveal_strlit("choices");
    reveal_strlit("usage");
    reveal_strlit("delta");
    reveal_strlit("finish_reason");
    reveal_strlit("content");
    reveal_strlit("tool_calls");
    reveal_strlit("type");
    reveal_strlit("index");
    reveal_strlit("content_block");
    reveal_strlit("tool_use");
    reveal_strlit("text");
    reveal_strlit("message");
    reveal_strlit("role");
    reveal_strlit("partial_json");
    reveal_strlit("text_delta");
    reveal_strlit("input_json_delta");
    reveal_strlit("name");
    reveal_strlit("id");
    reveal_strlit("input");
    reveal_strlit("");
    assert("choices"@.len() == 7);
    assert("usage"@.len() == 5);
    assert("delta"@.len() == 5);
    assert("finish_reason"@.len() == 13);
    assert("content"@.len() == 7);
    assert("tool_calls"@.len() == 10);
    assert("type"@.len() == 4);
    assert("index"@.len() == 5);
    assert("content_block"@.len() == 13);
    assert("tool_use"@.len() == 8);
    assert("text"@.len() == 4);
    assert("message"@.len() == 7);
    assert("role"@.len() == 4);
    assert("partial_json"@.len() == 12);
    assert("text_delta"@.len() == 10);
    assert("input_json_delta"@.len() == 16);
    assert("name"@.len() == 4);
    assert("id"@.len() == 2);
    assert("input"@.len() == 5);
    assert("delta"@[0] != "index"@[0]);
    assert("type"@[1] != "text"@[1]);
    assert("type"@[0] != "name"@[0]);
}

/// What the delta of a chunk says.
proof fn lemma_chunk_says(
    t: OpenAiStream,
    delta: JsonView,
    finish: Option<Seq<char>>,
    usage: Option<JsonView>,
)
    ensures
        chunk_text(openai_chunk(t, delta, finish).put_some("usage"@, usage)) == delta.at(
            "content"@,
        ).str_or_empty(),
{
    lemma_words();
    let choice = obj().put("index"@, JsonView::Int(0)).put("delta"@, delta).put(
        "finish_reason"@,
        crate::json::text_or_null(finish),
    );
    assert(choice.at("delta"@) == delta);
    let c = openai_chunk(t, delta, finish);
    assert(c.at("choices"@) == JsonView::Array(seq![choice]));
    assert(c.put_some("usage"@, usage).at("choices"@) == JsonView::Array(seq![choice]));
}

/// One more event that reads as what it says.
proof fn lemma_one_more(events: Seq<EventView>, e: EventView, t: OpenAiStream)
    requires
        streamed_text(read_back(events, t).0) == text_in(events),
        (match openai_event(e.0, e.1, read_back(events, t).1).0 {
            Some(c) => chunk_text(c),
            None => seq![],
        }) == event_text(e),
    ensures
        streamed_text(read_back(events.push(e), t).0) == text_in(events.push(e)),
        read_back(events.push(e), t).1 == openai_event(e.0, e.1, read_back(events, t).1).1,
{
    let (chunks, u) = read_back(events, t);
    assert(events.push(e).drop_last() =~= events);
    lemma_text_push(events, e);
    match openai_event(e.0, e.1, u).0 {
        Some(c) => {
            assert(chunks.push(c).drop_last() =~= chunks);
        },
        None => {
            assert(text_in(events) + Seq::<char>::empty() =~= text_in(events));
        },
    }
}

proof fn lemma_announced(chunk: JsonView, s: ClaudeStream, t: OpenAiStream)
    requires
        in_step(s, t),
    ensures
        faithful(announce(chunk, s), t),
{
    lemma_words();
    lemma_event_names();
    let none = Seq::<EventView>::empty();
    assert(read_back(none, t) == (Seq::<JsonView>::empty(), t));
    assert(streamed_text(read_back(none, t).0) =~= text_in(none));
    if !s.started {
        let e = message_start(chunk);
        let (c, u) = openai_event(e.0, e.1, t);
        let delta = obj().put("role"@, text("assistant"@)).put("content"@, text(""@));
        lemma_chunk_says(u, delta, None, None);
        assert(delta.at("content"@) == text(""@));
        assert(chunk_text(c->Some_0) =~= event_text(e));
        lemma_one_more(none, e, t);
        assert(none.push(e) =~= announce(chunk, s).events);
    } else {
        assert(none =~= announce(chunk, s).events);
    }
}

proof fn lemma_said(said: Seq<char>, step: ClaudeStep, t: OpenAiStream)
    requires
        faithful(step, t),
        step.state.next < u64::MAX,
    ensures
        faithful(speak(said, step), t),
        speak(said, step).state.next <= step.state.next + 1,
{
    lemma_words();
    lemma_event_names();
    if said.len() > 0 {
        let s = step.state;
        let d = obj().put("type"@, text("text_delta"@)).put("text"@, text(said));
        assert(d.at("type"@) == text("text_delta"@));
        assert(d.at("text"@) == text(said));
        let (events, index) = match s.text {
            Some(i) => (step.events, i),
            None => (step.events.push(block_start(s.next, empty_text_block())), s.next),
        };
        if s.text is None {
            let e = block_start(s.next, empty_text_block());
            let u = read_back(step.events, t).1;
            assert(e.1.at("index"@) == JsonView::Int(s.next as int));
            assert(e.1.at("content_block"@) == empty_text_block());
            assert(empty_text_block().at("type"@) == text("text"@));
            assert(event_text(e) =~= seq![]);
            lemma_one_more(step.events, e, t);
            law_entered(u.kinds, s.next, TEXT_BLOCK, s.next);
        }
        let v = read_back(events, t).1;
        assert(ascending(v.kinds) && entry(v.kinds, index) == Some(TEXT_BLOCK));
        let f = block_delta(index, d);
        assert(f.1.at("index"@) == JsonView::Int(index as int));
        assert(f.1.at("delta"@) == d);
        assert(event_text(f) == said);
        let content = obj().put("content"@, text(said));
        assert(content.at("content"@) == text(said));
        lemma_chunk_says(v, content, None, None);
        lemma_one_more(events, f, t);
        assert(events.push(f) =~= speak(said, step).events);
    }
}

proof fn lemma_tool_opened(tc: JsonView, step: ClaudeStep, t: OpenAiStream)
    requires
        faithful(step, t),
        step.state.next < u64::MAX,
    ensures
        faithful(open_tool(tc, step), t),
        open_tool(tc, step).state.next <= step.state.next + 1,
{
    lemma_words();
    lemma_event_names();
    let s = step.state;
    let out = open_tool(tc, step);
    if out.events != step.events {
        let id = tc.at("id"@).str()->Some_0;
        let block = tool_block(id, tc);
        let e = block_start(s.next, block);
        let u = read_back(step.events, t).1;
        assert(e.1.at("index"@) == JsonView::Int(s.next as int));
        assert(e.1.at("content_block"@) == block);
        assert(block.at("type"@) == text("tool_use"@));
        let (c, v) = openai_event(e.0, e.1, u);
        let delta = crate::codex::claude_stream::tool_delta(u.next, block);
        lemma_chunk_says(v, delta, None, None);
        assert(delta.at("content"@) == JsonView::Null);
        assert(chunk_text(c->Some_0) =~= event_text(e));
        lemma_one_more(step.events, e, t);
        let other = match s.text {
            Some(i) => i,
            None => 0,
        };
        law_entered(u.kinds, s.next, crate::codex::claude_stream::TOOL_BLOCK, other);
    }
}

proof fn lemma_tool_fed(tc: JsonView, step: ClaudeStep, t: OpenAiStream)
    requires
        faithful(step, t),
    ensures
        faithful(feed_tool(tc, step), t),
        feed_tool(tc, step).state == step.state,
{
    lemma_words();
    lemma_event_names();
    let out = feed_tool(tc, step);
    if out.events != step.events {
        let args = tc.at("function"@).at("arguments"@).str()->Some_0;
        let block = entry(
            step.state.tools,
            crate::codex::claude_stream::call_index(tc),
        )->Some_0;
        let d = obj().put("type"@, text("input_json_delta"@)).put("partial_json"@, text(args));
        let e = block_delta(block, d);
        let u = read_back(step.events, t).1;
        assert(e.1.at("delta"@) == d);
        assert(d.at("type"@) == text("input_json_delta"@));
        assert(d.at("text"@) == JsonView::Null);
        assert(event_text(e) =~= seq![]);
        let (c, v) = openai_event(e.0, e.1, u);
        match c {
            Some(chunk) => {
                let number = match entry(
                    u.tools,
                    crate::codex::claude_stream::block_index(e.1),
                ) {
                    Some(n) => n,
                    None => 0,
                };
                let delta = crate::codex::claude_stream::arguments_delta(
                    number,
                    d.at("partial_json"@).str_or_empty(),
                );
                lemma_chunk_says(u, delta, None, None);
                assert(delta.at("content"@) == JsonView::Null);
                assert(chunk_text(chunk) =~= event_text(e));
            },
            None => {},
        }
        lemma_one_more(step.events, e, t);
    }
}

proof fn lemma_tools_called(calls: Seq<JsonView>, step: ClaudeStep, t: OpenAiStream)
    requires
        faithful(step, t),
        step.state.next + calls.len() <= u64::MAX,
    ensures
        faithful(call_tools(calls, step), t),
        call_tools(calls, step).state.next <= step.state.next + calls.len(),
    decreases calls.len(),
{
    if calls.len() > 0 {
        lemma_tools_called(calls.drop_last(), step, t);
        let before = call_tools(calls.drop_last(), step);
        lemma_tool_opened(calls.last(), before, t);
        lemma_tool_fed(calls.last(), open_tool(calls.last(), before), t);
    }
}

/// Events that neither say anything nor open a block.
pub open spec fn is_ending(e: EventView) -> bool {
    e.0 == "content_block_stop"@ || e.0 == "message_delta"@ || e.0 == "message_stop"@
}

proof fn lemma_ended(events: Seq<EventView>, more: Seq<EventView>, s: ClaudeStream, t: OpenAiStream)
    requires
        streamed_text(read_back(events, t).0) == text_in(events),
        in_step(s, read_back(events, t).1),
        forall|k: int| 0 <= k < more.len() ==> is_ending(#[trigger] more[k]),
    ensures
        streamed_text(read_back(events + more, t).0) == text_in(events + more),
        in_step(s, read_back(events + more, t).1),
    decreases more.len(),
{
    lemma_words();
    lemma_event_names();
    if more.len() == 0 {
        assert(events + more =~= events);
    } else {
        assert forall|k: int| 0 <= k < more.drop_last().len() implies is_ending(
            #[trigger] more.drop_last()[k],
        ) by {
            assert(more.drop_last()[k] == more[k]);
        }
        lemma_ended(events, more.drop_last(), s, t);
        let all = events + more.drop_last();
        let e = more.last();
        let u = read_back(all, t).1;
        assert(is_ending(e));
        let (c, v) = openai_event(e.0, e.1, u);
        match c {
            Some(chunk) => {
                let finish = if u.tools.len() > 0 {
                    "tool_calls"@
                } else {
                    crate::codex::claude_message::finish_reason(
                        e.1.at("delta"@).at("stop_reason"@).str_or("end_turn"@),
                    )
                };
                let usage = match e.1.field("usage"@) {
                    Some(n) => Some(
                        crate::codex::claude_message::openai_usage(obj().put("usage"@, n)),
                    ),
                    None => None,
                };
                lemma_chunk_says(u, obj(), Some(finish), usage);
                assert(obj().at("content"@) == JsonView::Null);
                assert(chunk_text(chunk) =~= event_text(e));
            },
            None => {},
        }
        lemma_one_more(all, e, t);
        assert(all.push(e) =~= events + more);
    }
}

/// Whatever chunk comes: what its Anthropic events become again says what the
/// chunk said, and reader and writer stay in step. The block indices must not
/// have run out.
pub proof fn law_stream_round_trip(chunk: JsonView, s: ClaudeStream, t: OpenAiStream)
    requires
        in_step(s, t),
        s.next + 1 + chunk.at("choices"@).first().unwrap_or(JsonView::Null).at("delta"@).at(
            "tool_calls"@,
        ).items().len() <= u64::MAX,
    ensures
        streamed_text(read_back(claude_events(chunk, s).events, t).0) == chunk_text(chunk),
        in_step(claude_events(chunk, s).state, read_back(claude_events(chunk, s).events, t).1),
{
    lemma_event_names();
    law_stream_keeps_the_text(chunk, s);
    match chunk.at("choices"@).first() {
        None => {
            let none = Seq::<EventView>::empty();
            assert(claude_events(chunk, s).events =~= none);
            assert(read_back(none, t) == (Seq::<JsonView>::empty(), t));
        },
        Some(choice) => {
            let delta = choice.at("delta"@);
            lemma_announced(chunk, s, t);
            let first = announce(chunk, s);
            lemma_said(delta.at("content"@).str_or_empty(), first, t);
            let said = speak(delta.at("content"@).str_or_empty(), first);
            let calls = delta.at("tool_calls"@).items();
            lemma_tools_called(calls, said, t);
            let called = call_tools(calls, said);
            match choice.at("finish_reason"@).str() {
                Some(finish) => {
                    let tail = farewell(finish, chunk, called.state);
                    assert forall|k: int| 0 <= k < tail.len() implies is_ending(
                        #[trigger] tail[k],
                    ) by {
                        let stops = tool_stops(called.state.tools);
                        let n: int = if called.state.text is Some {
                            1
                        } else {
                            0
                        };
                        assert(tail.len() == n + stops.len() + 2);
                        if k < n {
                            assert(tail[k] == block_stop(called.state.text->0));
                        } else if k < n + stops.len() {
                            assert(tail[k] == stops[k - n]);
                            assert(stops[k - n] == block_stop(called.state.tools[k - n].1));
                        }
                    }
                    lemma_ended(called.events, tail, called.state, t);
                },
                None => {},
            }
        },
    }
}

/// A new writer and a new reader are in step.
pub proof fn law_new_streams_are_in_step()
    ensures
        in_step(claude_stream_start(), openai_stream_start()),
{
}

} // verus!
