//! What holds of every stream of Anthropic events that the bridge writes.
use vstd::prelude::*;

use crate::codex::claude_stream::{
    announce, block_delta, block_start, block_stop, call_index, call_tools, claude_events,
    claude_stream_start, farewell, feed_tool, lemma_event_names, message_start, open_tool, speak,
    tool_stops, ClaudeStep, ClaudeStream, EventView,
};
use crate::index_table::{ascending, entered, entry, law_entered, lemma_entry_stands, Pairs};
use crate::json::{obj, text, JsonView};

verus! {

/// A block with this index is open.
pub open spec fn is_open(s: ClaudeStream, index: u64) -> bool {
    s.text == Some(index) || exists|k: int| 0 <= k < s.tools.len() && (#[trigger] s.tools[k]).1 == index
}

/// No two open blocks share an index, and every index in use lies below the
/// next free one.
pub open spec fn blocks_distinct(s: ClaudeStream) -> bool {
    &&& ascending(s.tools)
    &&& s.text matches Some(i) ==> i < s.next
    &&& forall|k: int| 0 <= k < s.tools.len() ==> (#[trigger] s.tools[k]).1 < s.next && s.text
        != Some(s.tools[k].1)
    &&& forall|j: int, k: int|
        0 <= j < k < s.tools.len() ==> (#[trigger] s.tools[j]).1 != (#[trigger] s.tools[k]).1
}

/// Every event that adds to a block adds to an open one.
pub open spec fn deltas_open(events: Seq<EventView>, s: ClaudeStream) -> bool {
    forall|k: int|
        0 <= k < events.len() && (#[trigger] events[k]).0 == "content_block_delta"@ ==> exists|
            i: u64,
            d: JsonView,
        | events[k] == block_delta(i, d) && is_open(s, i)
}

/// A new key comes in at one place, and the other pairs stay.
proof fn lemma_entered_new(s: Pairs, key: u64, value: u64)
    requires
        ascending(s),
        entry(s, key) is None,
    ensures
        exists|p: int| 0 <= p <= s.len() && entered(s, key, value) == s.insert(p, (key, value)),
    decreases s.len(),
{
    if s.len() == 0 {
        assert(entered(s, key, value) =~= s.insert(0, (key, value)));
    } else if s.last().0 < key {
        assert(entered(s, key, value) =~= s.insert(s.len() as int, (key, value)));
    } else {
        let d = s.drop_last();
        lemma_entered_new(d, key, value);
        let p = choose|p: int|
            0 <= p <= d.len() && entered(d, key, value) == d.insert(p, (key, value));
        assert(entered(s, key, value) =~= s.insert(p, (key, value)));
    }
}

/// What one step keeps: the open blocks stay open and distinct, and additions
/// go to open blocks.
pub open spec fn steady(a: ClaudeStep, b: ClaudeStep) -> bool {
    &&& blocks_distinct(b.state)
    &&& deltas_open(b.events, b.state)
    &&& forall|i: u64| is_open(a.state, i) ==> is_open(b.state, i)
}

proof fn lemma_deltas_grow(events: Seq<EventView>, a: ClaudeStream, b: ClaudeStream)
    requires
        deltas_open(events, a),
        forall|i: u64| is_open(a, i) ==> is_open(b, i),
    ensures
        deltas_open(events, b),
{
    assert forall|k: int|
        0 <= k < events.len() && (#[trigger] events[k]).0
            == "content_block_delta"@ implies exists|i: u64, d: JsonView|
        events[k] == block_delta(i, d) && is_open(b, i) by {
        let (i, d) = choose|i: u64, d: JsonView| events[k] == block_delta(i, d) && is_open(a, i);
        assert(events[k] == block_delta(i, d) && is_open(b, i));
    }
}

proof fn lemma_deltas_push(events: Seq<EventView>, s: ClaudeStream, e: EventView)
    requires
        deltas_open(events, s),
        e.0 == "content_block_delta"@ ==> exists|i: u64, d: JsonView|
            e == block_delta(i, d) && is_open(s, i),
    ensures
        deltas_open(events.push(e), s),
{
    assert forall|k: int|
        0 <= k < events.push(e).len() && (#[trigger] events.push(e)[k]).0
            == "content_block_delta"@ implies exists|i: u64, d: JsonView|
        events.push(e)[k] == block_delta(i, d) && is_open(s, i) by {
        if k < events.len() {
            assert(events.push(e)[k] == events[k]);
        }
    }
}

pub proof fn lemma_speak_steady(t: Seq<char>, step: ClaudeStep)
    requires
        blocks_distinct(step.state),
        deltas_open(step.events, step.state),
        step.state.next < u64::MAX,
    ensures
        steady(step, speak(t, step)),
        speak(t, step).state.next <= step.state.next + 1,
{
    lemma_event_names();
    let s = step.state;
    let out = speak(t, step);
    let delta = obj().put("type"@, text("text_delta"@)).put("text"@, text(t));
    if t.len() > 0 {
        match s.text {
            Some(i) => {
                assert(is_open(s, i));
                assert(block_delta(i, delta) == block_delta(i, delta) && is_open(out.state, i));
                lemma_deltas_push(step.events, s, block_delta(i, delta));
            },
            None => {
                let start = block_start(
                    s.next,
                    crate::codex::claude_stream::empty_text_block(),
                );
                assert forall|i: u64| is_open(s, i) implies is_open(out.state, i) by {
                    let k = choose|k: int|
                        0 <= k < s.tools.len() && (#[trigger] s.tools[k]).1 == i;
                    assert(out.state.tools[k].1 == i);
                }
                lemma_deltas_grow(step.events, s, out.state);
                lemma_deltas_push(step.events, out.state, start);
                assert(is_open(out.state, s.next));
                assert(block_delta(s.next, delta) == block_delta(s.next, delta) && is_open(
                    out.state,
                    s.next,
                ));
                lemma_deltas_push(
                    step.events.push(start),
                    out.state,
                    block_delta(s.next, delta),
                );
            },
        }
    }
}

pub proof fn lemma_open_tool_steady(tc: JsonView, step: ClaudeStep)
    requires
        blocks_distinct(step.state),
        deltas_open(step.events, step.state),
        step.state.next < u64::MAX,
    ensures
        steady(step, open_tool(tc, step)),
        open_tool(tc, step).state.next <= step.state.next + 1,
{
    lemma_event_names();
    let s = step.state;
    let out = open_tool(tc, step);
    let key = call_index(tc);
    if tc.at("id"@).str() is Some && entry(s.tools, key) is None {
        law_entered(s.tools, key, s.next, key);
        lemma_entered_new(s.tools, key, s.next);
        let p = choose|p: int|
            0 <= p <= s.tools.len() && out.state.tools == s.tools.insert(p, (key, s.next));
        assert forall|i: u64| is_open(s, i) implies is_open(out.state, i) by {
            if s.text != Some(i) {
                let k = choose|k: int| 0 <= k < s.tools.len() && (#[trigger] s.tools[k]).1 == i;
                let m = if k < p { k } else { k + 1 };
                assert(out.state.tools[m].1 == i);
            }
        }
        assert forall|k: int| 0 <= k < out.state.tools.len() implies (
        #[trigger] out.state.tools[k]).1 < out.state.next && out.state.text != Some(
            out.state.tools[k].1,
        ) by {
            if k < p {
                assert(out.state.tools[k] == s.tools[k]);
            } else if k > p {
                assert(out.state.tools[k] == s.tools[k - 1]);
            }
        }
        assert forall|j: int, k: int| 0 <= j < k < out.state.tools.len() implies (
        #[trigger] out.state.tools[j]).1 != (#[trigger] out.state.tools[k]).1 by {
            let j0 = if j < p { j } else { j - 1 };
            let k0 = if k < p { k } else { k - 1 };
            if j != p {
                assert(out.state.tools[j] == s.tools[j0]);
            }
            if k != p {
                assert(out.state.tools[k] == s.tools[k0]);
            }
        }
        lemma_deltas_grow(step.events, s, out.state);
        lemma_deltas_push(step.events, out.state, out.events.last());
    }
}

pub proof fn lemma_feed_tool_steady(tc: JsonView, step: ClaudeStep)
    requires
        blocks_distinct(step.state),
        deltas_open(step.events, step.state),
    ensures
        steady(step, feed_tool(tc, step)),
        feed_tool(tc, step).state == step.state,
{
    let s = step.state;
    match (tc.at("function"@).at("arguments"@).str(), entry(s.tools, call_index(tc))) {
        (Some(args), Some(block)) => {
            lemma_entry_stands(s.tools, call_index(tc));
            let k = choose|k: int|
                0 <= k < s.tools.len() && #[trigger] s.tools[k] == (call_index(tc), block);
            assert(s.tools[k].1 == block);
            assert(is_open(s, block));
            let d = obj().put("type"@, text("input_json_delta"@)).put("partial_json"@, text(args));
            assert(feed_tool(tc, step).events.last() == block_delta(block, d) && is_open(s, block));
            lemma_deltas_push(step.events, s, block_delta(block, d));
        },
        _ => {},
    }
}

proof fn lemma_call_tools_steady(calls: Seq<JsonView>, step: ClaudeStep)
    requires
        blocks_distinct(step.state),
        deltas_open(step.events, step.state),
        step.state.next + calls.len() <= u64::MAX,
    ensures
        steady(step, call_tools(calls, step)),
        call_tools(calls, step).state.next <= step.state.next + calls.len(),
    decreases calls.len(),
{
    if calls.len() > 0 {
        lemma_call_tools_steady(calls.drop_last(), step);
        let before = call_tools(calls.drop_last(), step);
        lemma_open_tool_steady(calls.last(), before);
        lemma_feed_tool_steady(calls.last(), open_tool(calls.last(), before));
    }
}

/// Whatever chunk comes, open blocks keep distinct indices, and every event
/// that adds to a block adds to one that was opened. The block indices must
/// not have run out.
pub proof fn law_blocks(chunk: JsonView, s: ClaudeStream)
    requires
        blocks_distinct(s),
        s.next + 1 + chunk.at("choices"@).first().unwrap_or(JsonView::Null).at("delta"@).at(
            "tool_calls"@,
        ).items().len() <= u64::MAX,
    ensures
        blocks_distinct(claude_events(chunk, s).state),
        deltas_open(claude_events(chunk, s).events, claude_events(chunk, s).state),
        forall|i: u64| is_open(s, i) ==> is_open(claude_events(chunk, s).state, i),
{
    lemma_event_names();
    match chunk.at("choices"@).first() {
        None => {},
        Some(choice) => {
            let delta = choice.at("delta"@);
            let first = announce(chunk, s);
            assert(deltas_open(first.events, first.state));
            assert forall|i: u64| is_open(s, i) implies is_open(first.state, i) by {
                if s.text != Some(i) {
                    let k = choose|k: int|
                        0 <= k < s.tools.len() && (#[trigger] s.tools[k]).1 == i;
                    assert(first.state.tools[k].1 == i);
                }
            }
            lemma_speak_steady(delta.at("content"@).str_or_empty(), first);
            let said = speak(delta.at("content"@).str_or_empty(), first);
            lemma_call_tools_steady(delta.at("tool_calls"@).items(), said);
            let called = call_tools(delta.at("tool_calls"@).items(), said);
            match choice.at("finish_reason"@).str() {
                Some(finish) => {
                    let tail = farewell(finish, chunk, called.state);
                    let all = called.events + tail;
                    assert forall|k: int| 0 <= k < tail.len() implies (#[trigger] tail[k]).0
                        != "content_block_delta"@ by {
                        lemma_farewell_names(finish, chunk, called.state, k);
                    }
                    assert forall|k: int|
                        0 <= k < all.len() && (#[trigger] all[k]).0
                            == "content_block_delta"@ implies exists|i: u64, d: JsonView|
                        all[k] == block_delta(i, d) && is_open(called.state, i) by {
                        if k < called.events.len() {
                            assert(all[k] == called.events[k]);
                        } else {
                            assert(all[k] == tail[k - called.events.len()]);
                        }
                    }
                },
                None => {},
            }
        },
    }
}

/// The events that end an answer close blocks or end the message.
proof fn lemma_farewell_names(finish: Seq<char>, chunk: JsonView, s: ClaudeStream, k: int)
    requires
        0 <= k < farewell(finish, chunk, s).len(),
    ensures
        farewell(finish, chunk, s)[k].0 == "content_block_stop"@ || farewell(finish, chunk, s)[k].0
            == "message_delta"@ || farewell(finish, chunk, s)[k].0 == "message_stop"@,
{
    let tail = farewell(finish, chunk, s);
    let stops = tool_stops(s.tools);
    let n: int = if s.text is Some { 1 } else { 0 };
    assert(tail.len() == n + stops.len() + 2);
    if k < n {
        assert(tail[k] == block_stop(s.text->0));
    } else if k < n + stops.len() {
        assert(tail[k] == stops[k - n]);
        assert(stops[k - n] == block_stop(s.tools[k - n].1));
    }
}

/// A fresh stream has no open blocks, and what `law_blocks` asks for holds of it.
pub proof fn law_fresh_stream_has_no_blocks()
    ensures
        blocks_distinct(claude_stream_start()),
        forall|i: u64| !is_open(claude_stream_start(), i),
{
}

/// How often an event with this name occurs.
pub open spec fn named(events: Seq<EventView>, name: Seq<char>) -> nat
    decreases events.len(),
{
    if events.len() == 0 {
        0
    } else {
        named(events.drop_last(), name) + if events.last().0 == name {
            1nat
        } else {
            0nat
        }
    }
}

proof fn lemma_named_push(events: Seq<EventView>, e: EventView, name: Seq<char>)
    ensures
        named(events.push(e), name) == named(events, name) + if e.0 == name {
            1nat
        } else {
            0nat
        },
{
    assert(events.push(e).drop_last() =~= events);
}

pub proof fn lemma_named_append(a: Seq<EventView>, b: Seq<EventView>, name: Seq<char>)
    ensures
        named(a + b, name) == named(a, name) + named(b, name),
    decreases b.len(),
{
    if b.len() == 0 {
        assert(a + b =~= a);
    } else {
        lemma_named_append(a, b.drop_last(), name);
        assert((a + b).drop_last() =~= a + b.drop_last());
    }
}

pub proof fn lemma_not_named(events: Seq<EventView>, name: Seq<char>)
    requires
        forall|k: int| 0 <= k < events.len() ==> (#[trigger] events[k]).0 != name,
    ensures
        named(events, name) == 0,
    decreases events.len(),
{
    if events.len() > 0 {
        assert forall|k: int| 0 <= k < events.drop_last().len() implies (
        #[trigger] events.drop_last()[k]).0 != name by {
            assert(events.drop_last()[k] == events[k]);
        }
        lemma_not_named(events.drop_last(), name);
    }
}

proof fn lemma_calls_name(calls: Seq<JsonView>, step: ClaudeStep, name: Seq<char>)
    requires
        name == "message_start"@ || name == "message_stop"@,
    ensures
        named(call_tools(calls, step).events, name) == named(step.events, name),
        step.events.len() > 0 ==> call_tools(calls, step).events.len() > 0
            && call_tools(calls, step).events[0] == step.events[0],
        call_tools(calls, step).state.started == step.state.started,
    decreases calls.len(),
{
    lemma_event_names();
    if calls.len() > 0 {
        lemma_calls_name(calls.drop_last(), step, name);
        let before = call_tools(calls.drop_last(), step);
        let opened = open_tool(calls.last(), before);
        if opened.events != before.events {
            lemma_named_push(before.events, opened.events.last(), name);
            assert(opened.events.drop_last() =~= before.events);
            assert(before.events.push(opened.events.last()) =~= opened.events);
        }
        let fed = feed_tool(calls.last(), opened);
        if fed.events != opened.events {
            lemma_named_push(opened.events, fed.events.last(), name);
            assert(opened.events.push(fed.events.last()) =~= fed.events);
        }
    }
}

/// An answer is announced once, by the first event of the first chunk that has
/// a choice; and a chunk ends the message exactly where it gives a reason to
/// finish, with the last event.
pub proof fn law_announced_and_ended_once(chunk: JsonView, s: ClaudeStream)
    requires
        chunk.at("choices"@).first() is Some,
    ensures
        claude_events(chunk, s).state.started,
        named(claude_events(chunk, s).events, "message_start"@) == if s.started {
            0nat
        } else {
            1nat
        },
        !s.started ==> claude_events(chunk, s).events.len() > 0 && claude_events(chunk, s).events[0]
            == message_start(chunk),
        ({
            let events = claude_events(chunk, s).events;
            let finishes = chunk.at("choices"@).first()->0.at("finish_reason"@).str() is Some;
            &&& named(events, "message_stop"@) == if finishes {
                1nat
            } else {
                0nat
            }
            &&& finishes ==> events.len() > 0 && events.last().0 == "message_stop"@
        }),
{
    lemma_event_names();
    let choice = chunk.at("choices"@).first()->0;
    let delta = choice.at("delta"@);
    let first = announce(chunk, s);
    let none = Seq::<EventView>::empty();
    assert(named(none, "message_start"@) == 0 && named(none, "message_stop"@) == 0);
    if !s.started {
        lemma_named_push(none, message_start(chunk), "message_start"@);
        lemma_named_push(none, message_start(chunk), "message_stop"@);
        assert(none.push(message_start(chunk)) =~= first.events);
    }
    let t = delta.at("content"@).str_or_empty();
    let said = speak(t, first);
    let d = obj().put("type"@, text("text_delta"@)).put("text"@, text(t));
    if t.len() > 0 {
        match first.state.text {
            Some(i) => {
                lemma_named_push(first.events, block_delta(i, d), "message_start"@);
                lemma_named_push(first.events, block_delta(i, d), "message_stop"@);
            },
            None => {
                let e = block_start(
                    first.state.next,
                    crate::codex::claude_stream::empty_text_block(),
                );
                let f = block_delta(first.state.next, d);
                lemma_named_push(first.events, e, "message_start"@);
                lemma_named_push(first.events, e, "message_stop"@);
                lemma_named_push(first.events.push(e), f, "message_start"@);
                lemma_named_push(first.events.push(e), f, "message_stop"@);
            },
        }
    }
    let calls = delta.at("tool_calls"@).items();
    lemma_calls_name(calls, said, "message_start"@);
    lemma_calls_name(calls, said, "message_stop"@);
    let called = call_tools(calls, said);
    match choice.at("finish_reason"@).str() {
        Some(finish) => {
            let tail = farewell(finish, chunk, called.state);
            lemma_named_append(called.events, tail, "message_start"@);
            lemma_named_append(called.events, tail, "message_stop"@);
            assert forall|k: int| 0 <= k < tail.len() implies (#[trigger] tail[k]).0
                != "message_start"@ by {
                lemma_farewell_names(finish, chunk, called.state, k);
            }
            lemma_not_named(tail, "message_start"@);
            let body = tail.drop_last();
            assert forall|k: int| 0 <= k < body.len() implies (#[trigger] body[k]).0
                != "message_stop"@ by {
                assert(body[k] == tail[k]);
                let stops = tool_stops(called.state.tools);
                let n: int = if called.state.text is Some { 1 } else { 0 };
                assert(tail.len() == n + stops.len() + 2);
                if k < n {
                    assert(tail[k] == block_stop(called.state.text->0));
                } else if k < n + stops.len() {
                    assert(tail[k] == stops[k - n]);
                    assert(stops[k - n] == block_stop(called.state.tools[k - n].1));
                }
            }
            lemma_not_named(body, "message_stop"@);
        },
        None => {},
    }
}

// ---------------------------------------------------------------------------
// What is said
// ---------------------------------------------------------------------------

/// The text that an event adds to the answer.
pub open spec fn event_text(e: EventView) -> Seq<char> {
    let delta = e.1.at("delta"@);
    if e.0 == "content_block_delta"@ && delta.at("type"@).str() == Some("text_delta"@) {
        delta.at("text"@).str_or_empty()
    } else {
        seq![]
    }
}

/// The text that events add to the answer.
pub open spec fn text_in(events: Seq<EventView>) -> Seq<char>
    decreases events.len(),
{
    if events.len() == 0 {
        seq![]
    } else {
        text_in(events.drop_last()) + event_text(events.last())
    }
}

/// The text that a chunk adds to the answer.
pub open spec fn chunk_text(chunk: JsonView) -> Seq<char> {
    match chunk.at("choices"@).first() {
        Some(choice) => choice.at("delta"@).at("content"@).str_or_empty(),
        None => seq![],
    }
}

/// The text that chunks add up to.
pub open spec fn streamed_text(chunks: Seq<JsonView>) -> Seq<char>
    decreases chunks.len(),
{
    if chunks.len() == 0 {
        seq![]
    } else {
        streamed_text(chunks.drop_last()) + chunk_text(chunks.last())
    }
}

pub proof fn lemma_text_push(events: Seq<EventView>, e: EventView)
    ensures
        text_in(events.push(e)) == text_in(events) + event_text(e),
{
    assert(events.push(e).drop_last() =~= events);
}

proof fn lemma_text_silent(events: Seq<EventView>, more: Seq<EventView>)
    requires
        forall|k: int| 0 <= k < more.len() ==> event_text(#[trigger] more[k]).len() == 0,
    ensures
        text_in(events + more) == text_in(events),
    decreases more.len(),
{
    if more.len() == 0 {
        assert(events + more =~= events);
    } else {
        assert forall|k: int| 0 <= k < more.drop_last().len() implies event_text(
            #[trigger] more.drop_last()[k],
        ).len() == 0 by {
            assert(more.drop_last()[k] == more[k]);
        }
        lemma_text_silent(events, more.drop_last());
        assert((events + more).drop_last() =~= events + more.drop_last());
        assert(event_text(more.last()).len() == 0);
        assert(text_in(events + more) =~= text_in(events));
    }
}

/// The words of deltas differ.
proof fn lemma_delta_words()
    ensures
        "type"@ != "delta"@,
        "index"@ != "delta"@,
        "type"@ != "text"@,
        "type"@ != "partial_json"@,
        "text_delta"@ != "input_json_delta"@,
        ""@.len() == 0,
{
    reveal_strlit("type");
    reveal_strlit("delta");
    reveal_strlit("index");
    reveal_strlit("text");
    reveal_strlit("partial_json");
    reveal_strlit("text_delta");
    reveal_strlit("input_json_delta");
    reveal_strlit("");
    assert("type"@.len() == 4 && "type"@[1] == 'y');
    assert("delta"@.len() == 5 && "delta"@[0] == 'd');
    assert("index"@.len() == 5 && "index"@[0] == 'i');
    assert("text"@.len() == 4 && "text"@[1] == 'e');
    assert("partial_json"@.len() == 12);
    assert("text_delta"@.len() == 10);
    assert("input_json_delta"@.len() == 16);
}

proof fn lemma_calls_say_nothing(calls: Seq<JsonView>, step: ClaudeStep)
    ensures
        text_in(call_tools(calls, step).events) == text_in(step.events),
    decreases calls.len(),
{
    lemma_event_names();
    lemma_delta_words();
    if calls.len() > 0 {
        lemma_calls_say_nothing(calls.drop_last(), step);
        let before = call_tools(calls.drop_last(), step);
        let opened = open_tool(calls.last(), before);
        if opened.events != before.events {
            lemma_text_push(before.events, opened.events.last());
            assert(before.events.push(opened.events.last()) =~= opened.events);
            assert(event_text(opened.events.last()) =~= seq![]);
            assert(text_in(opened.events) =~= text_in(before.events));
        }
        let fed = feed_tool(calls.last(), opened);
        if fed.events != opened.events {
            let e = fed.events.last();
            lemma_text_push(opened.events, e);
            assert(opened.events.push(e) =~= fed.events);
            assert(e.1.at("delta"@).at("type"@) == text("input_json_delta"@));
            assert(event_text(e) =~= seq![]);
            assert(text_in(fed.events) =~= text_in(opened.events));
        }
    }
}

/// The events of a chunk say what the chunk says, no more and no less.
pub proof fn law_stream_keeps_the_text(chunk: JsonView, s: ClaudeStream)
    ensures
        text_in(claude_events(chunk, s).events) == chunk_text(chunk),
{
    lemma_event_names();
    lemma_delta_words();
    match chunk.at("choices"@).first() {
        None => {},
        Some(choice) => {
            let delta = choice.at("delta"@);
            let first = announce(chunk, s);
            let none = Seq::<EventView>::empty();
            if !s.started {
                lemma_text_push(none, message_start(chunk));
                assert(none.push(message_start(chunk)) =~= first.events);
                assert(event_text(message_start(chunk)) =~= seq![]);
            }
            assert(text_in(first.events) =~= seq![]);
            let t = delta.at("content"@).str_or_empty();
            let said = speak(t, first);
            let d = obj().put("type"@, text("text_delta"@)).put("text"@, text(t));
            if t.len() > 0 {
                assert(d.at("type"@) == text("text_delta"@));
                assert(d.at("text"@) == text(t));
                match first.state.text {
                    Some(i) => {
                        let e = block_delta(i, d);
                        assert(e.1.at("delta"@) == d);
                        lemma_text_push(first.events, e);
                    },
                    None => {
                        let e = block_start(
                            first.state.next,
                            crate::codex::claude_stream::empty_text_block(),
                        );
                        let f = block_delta(first.state.next, d);
                        assert(f.1.at("delta"@) == d);
                        lemma_text_push(first.events, e);
                        assert(event_text(e) =~= seq![]);
                        lemma_text_push(first.events.push(e), f);
                    },
                }
            }
            assert(text_in(said.events) =~= t);
            lemma_calls_say_nothing(delta.at("tool_calls"@).items(), said);
            let called = call_tools(delta.at("tool_calls"@).items(), said);
            match choice.at("finish_reason"@).str() {
                Some(finish) => {
                    let tail = farewell(finish, chunk, called.state);
                    assert forall|k: int| 0 <= k < tail.len() implies event_text(
                        #[trigger] tail[k],
                    ).len() == 0 by {
                        lemma_farewell_names(finish, chunk, called.state, k);
                    }
                    lemma_text_silent(called.events, tail);
                },
                None => {},
            }
        },
    }
}

} // verus!
