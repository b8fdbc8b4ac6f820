//! The shape of a whole stream of Anthropic events that the bridge writes.
use vstd::prelude::*;

use crate::codex::claude_laws::{
    blocks_distinct, deltas_open, is_open, lemma_feed_tool_steady, lemma_named_append,
    lemma_not_named, lemma_open_tool_steady, lemma_speak_steady, named,
};
use crate::codex::claude_stream::{
    announce, block_delta, block_start, block_stop, call_index, call_tools, claude_events,
    claude_stream_start, empty_text_block, farewell, feed_tool, lemma_event_names, message_start,
    open_tool, speak, tool_block, tool_stops, ClaudeStep, ClaudeStream, EventView,
};
use crate::index_table::{entry, law_entered, lemma_entry_stands};
use crate::json::{obj, text, JsonView};

verus! {

/// All events that chunks become, fed one behind the other into a fresh stream,
/// and the state behind them.
pub open spec fn streamed(chunks: Seq<JsonView>) -> ClaudeStep
    decreases chunks.len(),
{
    if chunks.len() == 0 {
        ClaudeStep { events: seq![], state: claude_stream_start() }
    } else {
        let before = streamed(chunks.drop_last());
        let step = claude_events(chunks.last(), before.state);
        ClaudeStep { events: before.events + step.events, state: step.state }
    }
}

/// The first choice of a chunk.
pub open spec fn choice_of(chunk: JsonView) -> JsonView {
    chunk.at("choices"@).first().unwrap_or(JsonView::Null)
}

/// The chunk gives a reason to finish.
pub open spec fn finishes(chunk: JsonView) -> bool {
    choice_of(chunk).at("finish_reason"@).str() is Some
}

/// How many blocks a chunk can open at most: one of text, one for each call.
pub open spec fn most_blocks(chunk: JsonView) -> nat {
    1 + choice_of(chunk).at("delta"@).at("tool_calls"@).items().len()
}

/// How many blocks chunks can open at most.
pub open spec fn most_blocks_in(chunks: Seq<JsonView>) -> nat
    decreases chunks.len(),
{
    if chunks.len() == 0 {
        0
    } else {
        most_blocks_in(chunks.drop_last()) + most_blocks(chunks.last())
    }
}

/// The block indices of the events with this name, in order.
pub open spec fn indices(events: Seq<EventView>, name: Seq<char>) -> Seq<JsonView>
    decreases events.len(),
{
    if events.len() == 0 {
        seq![]
    } else {
        let before = indices(events.drop_last(), name);
        if events.last().0 == name {
            before.push(events.last().1.at("index"@))
        } else {
            before
        }
    }
}

/// The numbers below `n`, in order.
pub open spec fn counted(n: nat) -> Seq<JsonView> {
    Seq::new(n, |i: int| JsonView::Int(i))
}

/// The `k`-th event adds to a block that an earlier event opened.
pub open spec fn adds_to_opened(events: Seq<EventView>, k: int) -> bool {
    exists|j: int|
        0 <= j < k && (#[trigger] events[j]).0 == "content_block_start"@ && events[j].1.at(
            "index"@,
        ) == events[k].1.at("index"@)
}

/// The data of an event has its name for a type.
pub open spec fn typed(e: EventView) -> bool {
    e.1.at("type"@) == text(e.0)
}

/// Events of an answer that has not ended, with `n` blocks opened.
spec fn unended(events: Seq<EventView>, n: nat) -> bool {
    &&& events.len() > 0 ==> events[0].0 == "message_start"@
    &&& forall|k: int| 0 <= k < events.len() ==> typed(#[trigger] events[k])
    &&& forall|k: int|
        0 < k < events.len() ==> (#[trigger] events[k]).0 == "content_block_start"@
            || events[k].0 == "content_block_delta"@
    &&& forall|k: int|
        0 <= k < events.len() && (#[trigger] events[k]).0 == "content_block_delta"@
            ==> adds_to_opened(events, k)
    &&& indices(events, "content_block_start"@) == counted(n)
}

/// The open blocks are those below the next free index.
spec fn filled(s: ClaudeStream) -> bool {
    &&& blocks_distinct(s)
    &&& forall|i: u64| i < s.next ==> is_open(s, i)
}

/// What holds between any two steps of a chunk, behind the events `past`.
spec fn under_way(past: Seq<EventView>, step: ClaudeStep) -> bool {
    &&& unended(past + step.events, step.state.next as nat)
    &&& (past + step.events).len() > 0
    &&& filled(step.state)
    &&& deltas_open(step.events, step.state)
    &&& step.state.started
}

proof fn lemma_member_names()
    ensures
        "type"@ != "index"@,
        "type"@ != "content_block"@,
        "type"@ != "delta"@,
        "type"@ != "message"@,
        "type"@ != "usage"@,
        "index"@ != "content_block"@,
        "index"@ != "delta"@,
{
    reveal_strlit("type");
    reveal_strlit("index");
    reveal_strlit("content_block");
    reveal_strlit("delta");
    reveal_strlit("message");
    reveal_strlit("usage");
    assert("type"@.len() == 4);
    assert("index"@.len() == 5 && "index"@[0] == 'i');
    assert("content_block"@.len() == 13);
    assert("delta"@.len() == 5 && "delta"@[0] == 'd');
    assert("message"@.len() == 7);
    assert("usage"@.len() == 5 && "usage"@[0] == 'u');
}

/// Every event that the bridge writes has its name for a type, and an event of
/// a block has the block's index.
proof fn lemma_typed(i: u64, v: JsonView, chunk: JsonView)
    ensures
        typed(block_start(i, v)),
        typed(block_delta(i, v)),
        typed(block_stop(i)),
        typed(message_start(chunk)),
        block_start(i, v).1.at("index"@) == JsonView::Int(i as int),
        block_delta(i, v).1.at("index"@) == JsonView::Int(i as int),
        block_stop(i).1.at("index"@) == JsonView::Int(i as int),
{
    lemma_member_names();
}

proof fn lemma_indices_push(events: Seq<EventView>, e: EventView, name: Seq<char>)
    ensures
        indices(events.push(e), name) == if e.0 == name {
            indices(events, name).push(e.1.at("index"@))
        } else {
            indices(events, name)
        },
{
    assert(events.push(e).drop_last() =~= events);
}

proof fn lemma_indices_append(a: Seq<EventView>, b: Seq<EventView>, name: Seq<char>)
    ensures
        indices(a + b, name) == indices(a, name) + indices(b, name),
    decreases b.len(),
{
    if b.len() == 0 {
        assert(a + b =~= a);
        assert(indices(a, name) + indices(b, name) =~= indices(a, name));
    } else {
        lemma_indices_append(a, b.drop_last(), name);
        assert((a + b).drop_last() =~= a + b.drop_last());
        assert(indices(a + b, name) =~= indices(a, name) + indices(b, name));
    }
}

proof fn lemma_indices_none(events: Seq<EventView>, name: Seq<char>)
    requires
        forall|k: int| 0 <= k < events.len() ==> (#[trigger] events[k]).0 != name,
    ensures
        indices(events, name) == Seq::<JsonView>::empty(),
    decreases events.len(),
{
    if events.len() > 0 {
        let before = events.drop_last();
        assert forall|k: int| 0 <= k < before.len() implies (#[trigger] before[k]).0 != name by {
            assert(before[k] == events[k]);
        }
        lemma_indices_none(before, name);
    }
}

/// Each index is that of some event.
proof fn lemma_index_stands(events: Seq<EventView>, name: Seq<char>, m: int)
    requires
        0 <= m < indices(events, name).len(),
    ensures
        exists|j: int|
            0 <= j < events.len() && (#[trigger] events[j]).0 == name && events[j].1.at("index"@)
                == indices(events, name)[m],
    decreases events.len(),
{
    let before = events.drop_last();
    let last = events.len() - 1;
    if events.last().0 == name && m == indices(before, name).len() {
        assert(events[last].0 == name);
    } else {
        lemma_index_stands(before, name, m);
        let j = choose|j: int|
            0 <= j < before.len() && (#[trigger] before[j]).0 == name && before[j].1.at("index"@)
                == indices(before, name)[m];
        assert(events[j] == before[j]);
    }
}

proof fn lemma_unended_start(events: Seq<EventView>, n: u64, block: JsonView)
    requires
        unended(events, n as nat),
        events.len() > 0,
    ensures
        unended(events.push(block_start(n, block)), (n + 1) as nat),
{
    lemma_event_names();
    lemma_typed(n, block, block);
    let e = block_start(n, block);
    let all = events.push(e);
    lemma_indices_push(events, e, "content_block_start"@);
    assert(indices(all, "content_block_start"@) =~= counted((n + 1) as nat));
    assert forall|k: int|
        0 <= k < all.len() && (#[trigger] all[k]).0
            == "content_block_delta"@ implies adds_to_opened(all, k) by {
        lemma_still_adds(events, e, k);
    }
}

proof fn lemma_still_adds(events: Seq<EventView>, e: EventView, k: int)
    requires
        0 <= k < events.len() ==> adds_to_opened(events, k),
    ensures
        0 <= k < events.len() ==> adds_to_opened(events.push(e), k),
{
    if 0 <= k < events.len() {
        let j = choose|j: int|
            0 <= j < k && (#[trigger] events[j]).0 == "content_block_start"@ && events[j].1.at(
                "index"@,
            ) == events[k].1.at("index"@);
        assert(events.push(e)[j] == events[j]);
        assert(events.push(e)[k] == events[k]);
    }
}

proof fn lemma_unended_delta(events: Seq<EventView>, n: u64, i: u64, delta: JsonView)
    requires
        unended(events, n as nat),
        events.len() > 0,
        i < n,
    ensures
        unended(events.push(block_delta(i, delta)), n as nat),
{
    lemma_event_names();
    lemma_typed(i, delta, delta);
    let e = block_delta(i, delta);
    let all = events.push(e);
    lemma_indices_push(events, e, "content_block_start"@);
    assert forall|k: int|
        0 <= k < all.len() && (#[trigger] all[k]).0
            == "content_block_delta"@ implies adds_to_opened(all, k) by {
        if k < events.len() {
            assert(all[k] == events[k]);
            lemma_still_adds(events, e, k);
        } else {
            lemma_index_stands(events, "content_block_start"@, i as int);
            let j = choose|j: int|
                0 <= j < events.len() && (#[trigger] events[j]).0 == "content_block_start"@
                    && events[j].1.at("index"@) == indices(events, "content_block_start"@)[i as int];
            assert(all[j] == events[j]);
        }
    }
}

proof fn lemma_announce_shape(past: Seq<EventView>, chunk: JsonView, s: ClaudeStream)
    requires
        unended(past, s.next as nat),
        filled(s),
        s.started <==> past.len() > 0,
        !s.started ==> s.next == 0,
    ensures
        under_way(past, announce(chunk, s)),
        announce(chunk, s).state.next == s.next,
{
    lemma_event_names();
    let first = announce(chunk, s);
    assert forall|i: u64| is_open(s, i) implies is_open(first.state, i) by {
        if s.text != Some(i) {
            let k = choose|k: int| 0 <= k < s.tools.len() && (#[trigger] s.tools[k]).1 == i;
            assert(first.state.tools[k].1 == i);
        }
    }
    if s.started {
        assert(past + first.events =~= past);
    } else {
        lemma_typed(0, chunk, chunk);
        let all = past + first.events;
        assert(all =~= seq![message_start(chunk)]);
        lemma_indices_none(all, "content_block_start"@);
        assert(indices(all, "content_block_start"@) =~= counted(0));
    }
}

proof fn lemma_speak_shape(past: Seq<EventView>, t: Seq<char>, step: ClaudeStep)
    requires
        under_way(past, step),
        step.state.next < u64::MAX,
    ensures
        under_way(past, speak(t, step)),
        speak(t, step).state.next <= step.state.next + 1,
{
    lemma_speak_steady(t, step);
    let s = step.state;
    let out = speak(t, step);
    let delta = obj().put("type"@, text("text_delta"@)).put("text"@, text(t));
    let all = past + step.events;
    if t.len() > 0 {
        match s.text {
            Some(i) => {
                lemma_unended_delta(all, s.next, i, delta);
                assert(past + out.events =~= all.push(block_delta(i, delta)));
            },
            None => {
                let start = block_start(s.next, empty_text_block());
                lemma_unended_start(all, s.next, empty_text_block());
                lemma_unended_delta(all.push(start), out.state.next, s.next, delta);
                assert(past + out.events =~= all.push(start).push(block_delta(s.next, delta)));
                assert(is_open(out.state, s.next));
            },
        }
    }
}

proof fn lemma_open_tool_shape(past: Seq<EventView>, tc: JsonView, step: ClaudeStep)
    requires
        under_way(past, step),
        step.state.next < u64::MAX,
    ensures
        under_way(past, open_tool(tc, step)),
        open_tool(tc, step).state.next <= step.state.next + 1,
{
    lemma_open_tool_steady(tc, step);
    let s = step.state;
    let out = open_tool(tc, step);
    let key = call_index(tc);
    if let Some(id) = tc.at("id"@).str() {
        if entry(s.tools, key) is None {
            let all = past + step.events;
            let block = tool_block(id, tc);
            lemma_unended_start(all, s.next, block);
            assert(past + out.events =~= all.push(block_start(s.next, block)));
            law_entered(s.tools, key, s.next, key);
            lemma_entry_stands(out.state.tools, key);
            let k = choose|k: int|
                0 <= k < out.state.tools.len() && #[trigger] out.state.tools[k] == (key, s.next);
            assert(out.state.tools[k].1 == s.next);
            assert(is_open(out.state, s.next));
        }
    }
}

proof fn lemma_feed_tool_shape(past: Seq<EventView>, tc: JsonView, step: ClaudeStep)
    requires
        under_way(past, step),
    ensures
        under_way(past, feed_tool(tc, step)),
        feed_tool(tc, step).state == step.state,
{
    lemma_feed_tool_steady(tc, step);
    let s = step.state;
    match (tc.at("function"@).at("arguments"@).str(), entry(s.tools, call_index(tc))) {
        (Some(args), Some(block)) => {
            lemma_entry_stands(s.tools, call_index(tc));
            let k = choose|k: int|
                0 <= k < s.tools.len() && #[trigger] s.tools[k] == (call_index(tc), block);
            assert(s.tools[k].1 == block);
            let d = obj().put("type"@, text("input_json_delta"@)).put("partial_json"@, text(args));
            let all = past + step.events;
            lemma_unended_delta(all, s.next, block, d);
            assert(past + feed_tool(tc, step).events =~= all.push(block_delta(block, d)));
        },
        _ => {},
    }
}

proof fn lemma_call_tools_shape(past: Seq<EventView>, calls: Seq<JsonView>, step: ClaudeStep)
    requires
        under_way(past, step),
        step.state.next + calls.len() <= u64::MAX,
    ensures
        under_way(past, call_tools(calls, step)),
        call_tools(calls, step).state.next <= step.state.next + calls.len(),
    decreases calls.len(),
{
    if calls.len() > 0 {
        lemma_call_tools_shape(past, calls.drop_last(), step);
        let before = call_tools(calls.drop_last(), step);
        lemma_open_tool_shape(past, calls.last(), before);
        lemma_feed_tool_shape(past, calls.last(), open_tool(calls.last(), before));
    }
}

/// What a chunk has become before its reason to finish, if any, is looked at.
spec fn told(chunk: JsonView, s: ClaudeStream) -> ClaudeStep {
    let delta = choice_of(chunk).at("delta"@);
    call_tools(
        delta.at("tool_calls"@).items(),
        speak(delta.at("content"@).str_or_empty(), announce(chunk, s)),
    )
}

proof fn lemma_told_shape(past: Seq<EventView>, chunk: JsonView, s: ClaudeStream)
    requires
        unended(past, s.next as nat),
        filled(s),
        s.started <==> past.len() > 0,
        !s.started ==> s.next == 0,
        s.next + most_blocks(chunk) <= u64::MAX,
    ensures
        under_way(past, told(chunk, s)),
        told(chunk, s).state.next <= s.next + most_blocks(chunk),
{
    let delta = choice_of(chunk).at("delta"@);
    lemma_announce_shape(past, chunk, s);
    let first = announce(chunk, s);
    lemma_speak_shape(past, delta.at("content"@).str_or_empty(), first);
    lemma_call_tools_shape(
        past,
        delta.at("tool_calls"@).items(),
        speak(delta.at("content"@).str_or_empty(), first),
    );
}

proof fn lemma_unfinished_stream(chunks: Seq<JsonView>)
    requires
        most_blocks_in(chunks) <= u64::MAX,
        forall|k: int|
            0 <= k < chunks.len() ==> (#[trigger] chunks[k]).at("choices"@).first() is Some
                && !finishes(chunks[k]),
    ensures
        ({
            let r = streamed(chunks);
            &&& unended(r.events, r.state.next as nat)
            &&& filled(r.state)
            &&& r.state.started <==> r.events.len() > 0
            &&& !r.state.started ==> r.state.next == 0
            &&& r.state.next <= most_blocks_in(chunks)
        }),
    decreases chunks.len(),
{
    if chunks.len() == 0 {
        assert(indices(Seq::<EventView>::empty(), "content_block_start"@) =~= counted(0));
    } else {
        let before = chunks.drop_last();
        assert forall|k: int| 0 <= k < before.len() implies (#[trigger] before[k]).at(
            "choices"@,
        ).first() is Some && !finishes(before[k]) by {
            assert(before[k] == chunks[k]);
        }
        lemma_unfinished_stream(before);
        let last = chunks.last();
        assert(last == chunks[chunks.len() - 1]);
        let r = streamed(before);
        lemma_told_shape(r.events, last, r.state);
        assert(claude_events(last, r.state) == told(last, r.state));
    }
}

/// The indices of the blocks that are closed at the end of an answer.
spec fn closed(s: ClaudeStream) -> Seq<u64> {
    (match s.text {
        Some(i) => seq![i],
        None => seq![],
    }) + s.tools.map_values(|p: (u64, u64)| p.1)
}

proof fn lemma_stops(v: Seq<u64>)
    ensures
        indices(v.map_values(|i: u64| block_stop(i)), "content_block_stop"@) == v.map_values(
            |i: u64| JsonView::Int(i as int),
        ),
    decreases v.len(),
{
    let stops = v.map_values(|i: u64| block_stop(i));
    let numbers = v.map_values(|i: u64| JsonView::Int(i as int));
    if v.len() == 0 {
        assert(numbers =~= seq![]);
    } else {
        lemma_stops(v.drop_last());
        lemma_typed(v.last(), JsonView::Null, JsonView::Null);
        assert(stops.drop_last() =~= v.drop_last().map_values(|i: u64| block_stop(i)));
        assert(numbers =~= v.drop_last().map_values(|i: u64| JsonView::Int(i as int)).push(
            JsonView::Int(v.last() as int),
        ));
    }
}

/// The events that end an answer: those that close the blocks, then two more.
proof fn lemma_farewell_shape(finish: Seq<char>, chunk: JsonView, s: ClaudeStream)
    requires
        filled(s),
    ensures
        ({
            let tail = farewell(finish, chunk, s);
            let stops = indices(tail, "content_block_stop"@);
            &&& tail.len() >= 2
            &&& tail[tail.len() - 2].0 == "message_delta"@
            &&& tail.last().0 == "message_stop"@
            &&& forall|k: int| 0 <= k < tail.len() ==> typed(#[trigger] tail[k])
            &&& forall|k: int|
                0 <= k < tail.len() - 2 ==> (#[trigger] tail[k]).0 == "content_block_stop"@
            &&& stops.no_duplicates()
            &&& forall|v: JsonView| stops.contains(v) <==> counted(s.next as nat).contains(v)
        }),
{
    lemma_event_names();
    lemma_member_names();
    let tail = farewell(finish, chunk, s);
    let v = closed(s);
    let n = v.len() as int;
    let body = v.map_values(|i: u64| block_stop(i));
    assert(tail.len() == n + 2);
    assert(body.push(tail[n]).push(tail[n + 1]) =~= tail);
    lemma_indices_push(body, tail[n], "content_block_stop"@);
    lemma_indices_push(body.push(tail[n]), tail[n + 1], "content_block_stop"@);
    assert forall|k: int| 0 <= k < n implies (#[trigger] tail[k]).0 == "content_block_stop"@
        && typed(tail[k]) by {
        assert(tail[k] == body[k]);
        lemma_typed(v[k], JsonView::Null, JsonView::Null);
    }
    assert(typed(tail[n]) && typed(tail[n + 1]));
    lemma_stops(v);
    let stops = indices(tail, "content_block_stop"@);
    assert(stops == v.map_values(|i: u64| JsonView::Int(i as int)));
    assert(v.no_duplicates()) by {
        let m: int = if s.text is Some { 1 } else { 0 };
        assert forall|j: int, k: int| 0 <= j < k < v.len() implies v[j] != v[k] by {
            if j >= m {
                assert(v[j] == s.tools[j - m].1);
            }
            assert(v[k] == s.tools[k - m].1);
        }
    }
    assert(stops.no_duplicates());
    let all = counted(s.next as nat);
    assert forall|x: JsonView| stops.contains(x) implies all.contains(x) by {
        let k = choose|k: int| 0 <= k < stops.len() && stops[k] == x;
        let m: int = if s.text is Some { 1 } else { 0 };
        if k >= m {
            assert(v[k] == s.tools[k - m].1);
        }
        assert(v[k] < s.next);
        assert(all[v[k] as int] == x);
    }
    assert forall|x: JsonView| all.contains(x) implies stops.contains(x) by {
        let i = choose|i: int| 0 <= i < all.len() && all[i] == x;
        let index = i as u64;
        assert(is_open(s, index));
        let m: int = if s.text is Some { 1 } else { 0 };
        if s.text == Some(index) {
            assert(stops[0] == x);
        } else {
            let k = choose|k: int| 0 <= k < s.tools.len() && (#[trigger] s.tools[k]).1 == index;
            assert(v[m + k] == index);
            assert(stops[m + k] == x);
        }
    }
}

/// The shape of an answer: events that are announced, then those that end it.
proof fn lemma_joined_shape(body: Seq<EventView>, tail: Seq<EventView>, n: nat)
    requires
        unended(body, n),
        body.len() > 0,
        tail.len() >= 2,
        tail[tail.len() - 2].0 == "message_delta"@,
        tail.last().0 == "message_stop"@,
        forall|k: int| 0 <= k < tail.len() ==> typed(#[trigger] tail[k]),
        forall|k: int| 0 <= k < tail.len() - 2 ==> (#[trigger] tail[k]).0 == "content_block_stop"@,
    ensures
        ({
            let events = body + tail;
            &&& named(events, "message_start"@) == 1
            &&& indices(events, "content_block_start"@) == counted(n)
            &&& indices(events, "content_block_stop"@) == indices(tail, "content_block_stop"@)
            &&& forall|k: int|
                0 <= k < events.len() && (#[trigger] events[k]).0 == "content_block_delta"@
                    ==> adds_to_opened(events, k)
            &&& forall|j: int, k: int|
                0 <= j < k < events.len() && (#[trigger] events[j]).0 == "content_block_stop"@
                    ==> (#[trigger] events[k]).0 != "content_block_start"@ && events[k].0
                    != "content_block_delta"@
            &&& forall|k: int| 0 <= k < events.len() ==> typed(#[trigger] events[k])
        }),
{
    lemma_event_names();
    let events = body + tail;
    let m = body.len() as int;
    assert forall|k: int| 0 <= k < tail.len() implies (#[trigger] tail[k]).0
        != "content_block_start"@ && tail[k].0 != "content_block_delta"@ && tail[k].0
        != "message_start"@ by {
        if k == tail.len() - 1 {
            assert(tail[k] == tail.last());
        }
    }
    assert forall|k: int| 0 <= k < body.len() implies (#[trigger] body[k]).0
        != "content_block_stop"@ by {
        if k == 0 {
            assert(body[0].0 == "message_start"@);
        }
    }
    lemma_indices_append(body, tail, "content_block_start"@);
    lemma_indices_append(body, tail, "content_block_stop"@);
    lemma_indices_none(tail, "content_block_start"@);
    lemma_indices_none(body, "content_block_stop"@);
    assert(indices(events, "content_block_start"@) =~= counted(n));
    assert(indices(events, "content_block_stop"@) =~= indices(tail, "content_block_stop"@));
    assert forall|k: int|
        0 <= k < events.len() && (#[trigger] events[k]).0
            == "content_block_delta"@ implies adds_to_opened(events, k) by {
        if k < m {
            assert(body[k] == events[k]);
            let j = choose|j: int|
                0 <= j < k && (#[trigger] body[j]).0 == "content_block_start"@ && body[j].1.at(
                    "index"@,
                ) == body[k].1.at("index"@);
            assert(events[j] == body[j]);
        } else {
            assert(events[k] == tail[k - m]);
        }
    }
    assert forall|j: int, k: int|
        0 <= j < k < events.len() && (#[trigger] events[j]).0 == "content_block_stop"@ implies (
    #[trigger] events[k]).0 != "content_block_start"@ && events[k].0
        != "content_block_delta"@ by {
        if j < m {
            assert(events[j] == body[j]);
        } else {
            assert(events[k] == tail[k - m]);
        }
    }
    assert forall|k: int| 0 <= k < events.len() implies typed(#[trigger] events[k]) by {
        if k < m {
            assert(events[k] == body[k]);
        } else {
            assert(events[k] == tail[k - m]);
        }
    }
    let head = seq![events[0]];
    let rest = events.subrange(1, events.len() as int);
    assert(events =~= head + rest);
    lemma_named_append(head, rest, "message_start"@);
    assert forall|k: int| 0 <= k < rest.len() implies (#[trigger] rest[k]).0
        != "message_start"@ by {
        assert(rest[k] == events[k + 1]);
        if k + 1 < m {
            assert(events[k + 1] == body[k + 1]);
        } else {
            assert(events[k + 1] == tail[k + 1 - m]);
        }
    }
    lemma_not_named(rest, "message_start"@);
    assert(head.drop_last() =~= Seq::<EventView>::empty());
    assert(named(head.drop_last(), "message_start"@) == 0);
    assert(head.last() == body[0]);
}

/// Over a whole stream, fed from a fresh state with chunks that each have a
/// choice and of which only the last gives a reason to finish:
/// the message is announced once and first; the blocks are numbered from zero in
/// the order in which they are opened; every addition goes to a block opened
/// before it; no block is closed before the last chunk, whose events close each
/// opened block once, with no opening or addition behind; the last two events
/// end the message; and every event has its name for a type. The block indices
/// must not run out.
pub proof fn law_whole_stream(chunks: Seq<JsonView>)
    requires
        chunks.len() > 0,
        most_blocks_in(chunks) <= u64::MAX,
        forall|k: int|
            0 <= k < chunks.len() ==> (#[trigger] chunks[k]).at("choices"@).first() is Some && (
            finishes(chunks[k]) <==> k == chunks.len() - 1),
    ensures
        ({
            let events = streamed(chunks).events;
            let past = streamed(chunks.drop_last()).events;
            let opened = indices(events, "content_block_start"@);
            let stops = indices(events, "content_block_stop"@);
            &&& events.len() > 2
            &&& events[0].0 == "message_start"@
            &&& named(events, "message_start"@) == 1
            &&& opened == counted(opened.len())
            &&& forall|k: int|
                0 <= k < events.len() && (#[trigger] events[k]).0 == "content_block_delta"@
                    ==> adds_to_opened(events, k)
            &&& indices(past, "content_block_stop"@) == Seq::<JsonView>::empty()
            &&& stops.no_duplicates()
            &&& forall|v: JsonView| stops.contains(v) <==> opened.contains(v)
            &&& forall|j: int, k: int|
                0 <= j < k < events.len() && (#[trigger] events[j]).0 == "content_block_stop"@
                    ==> (#[trigger] events[k]).0 != "content_block_start"@ && events[k].0
                    != "content_block_delta"@
            &&& events[events.len() - 2].0 == "message_delta"@
            &&& events.last().0 == "message_stop"@
            &&& forall|k: int| 0 <= k < events.len() ==> typed(#[trigger] events[k])
        }),
{
    lemma_event_names();
    let before = chunks.drop_last();
    let last = chunks.last();
    assert(last == chunks[chunks.len() - 1]);
    assert forall|k: int| 0 <= k < before.len() implies (#[trigger] before[k]).at(
        "choices"@,
    ).first() is Some && !finishes(before[k]) by {
        assert(before[k] == chunks[k]);
    }
    lemma_unfinished_stream(before);
    let r = streamed(before);
    let past = r.events;
    lemma_told_shape(past, last, r.state);
    let step = told(last, r.state);
    let body = past + step.events;
    let finish = choice_of(last).at("finish_reason"@).str()->0;
    let tail = farewell(finish, last, step.state);
    lemma_farewell_shape(finish, last, step.state);
    let events = streamed(chunks).events;
    assert(events =~= body + tail);
    lemma_joined_shape(body, tail, step.state.next as nat);
    assert forall|k: int| 0 <= k < past.len() implies (#[trigger] past[k]).0
        != "content_block_stop"@ by {
        if k == 0 {
            assert(past[0].0 == "message_start"@);
        }
    }
    lemma_indices_none(past, "content_block_stop"@);
    assert(events[0] == body[0]);
    assert(events[events.len() - 2] == tail[tail.len() - 2]);
    assert(events.last() == tail.last());
}

} // verus!
