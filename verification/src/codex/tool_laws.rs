//! What the Anthropic events of a streamed answer hold: the tool calls of its
//! chunks with their ids, names and arguments, and how it began and ended.
use vstd::prelude::*;

use crate::codex::claude_laws::{
    blocks_distinct, deltas_open, is_open, lemma_feed_tool_steady, lemma_open_tool_steady,
    lemma_speak_steady,
};
use crate::codex::claude_stream::{
    announce, block_delta, block_start, block_stop, call_tools, claude_events, empty_text_block,
    farewell, feed_tool, lemma_event_names, message_start, open_tool, speak, tool_block, tool_stops,
    ClaudeStep, ClaudeStream, EventView,
};
use crate::index_table::{ascending, entry, law_entered, lemma_entry_stands};
use crate::json::{obj, text, JsonView};

verus! {

/// The words of Anthropic events differ.
pub proof fn lemma_event_words()
    ensures
        "type"@ != "index"@,
        "type"@ != "content_block"@,
        "type"@ != "delta"@,
        "type"@ != "message"@,
        "type"@ != "usage"@,
        "index"@ != "content_block"@,
        "index"@ != "delta"@,
        "index"@ != "message"@,
        "index"@ != "usage"@,
        "content_block"@ != "delta"@,
        "content_block"@ != "message"@,
        "content_block"@ != "usage"@,
        "delta"@ != "message"@,
        "delta"@ != "usage"@,
        "message"@ != "usage"@,
        "type"@ != "id"@,
        "type"@ != "name"@,
        "type"@ != "input"@,
        "id"@ != "name"@,
        "id"@ != "input"@,
        "name"@ != "input"@,
        "type"@ != "text"@,
        "type"@ != "partial_json"@,
        "text"@ != "tool_use"@,
        "text_delta"@ != "input_json_delta"@,
        "id"@ != "role"@,
        "id"@ != "model"@,
        "id"@ != "content"@,
        "id"@ != "stop_reason"@,
        "id"@ != "stop_sequence"@,
        "id"@ != "usage"@,
        "type"@ != "role"@,
        "type"@ != "model"@,
        "type"@ != "content"@,
        "type"@ != "stop_reason"@,
        "type"@ != "stop_sequence"@,
        "role"@ != "model"@,
        "role"@ != "content"@,
        "role"@ != "stop_reason"@,
        "role"@ != "stop_sequence"@,
        "role"@ != "usage"@,
        "model"@ != "content"@,
        "model"@ != "stop_reason"@,
        "model"@ != "stop_sequence"@,
        "model"@ != "usage"@,
        "content"@ != "stop_reason"@,
        "content"@ != "stop_sequence"@,
        "content"@ != "usage"@,
        "stop_reason"@ != "stop_sequence"@,
        "stop_reason"@ != "usage"@,
        "stop_sequence"@ != "usage"@,
        "length"@ != "tool_calls"@,
        "input_tokens"@ != "output_tokens"@,
        "input_tokens"@ != "cache_read_input_tokens"@,
        "output_tokens"@ != "cache_read_input_tokens"@,
        ""@.len() == 0,
{
    reveal_strlit("type");
    reveal_strlit("index");
    reveal_strlit("content_block");
    reveal_strlit("delta");
    reveal_strlit("message");
    reveal_strlit("usage");
    reveal_strlit("id");
    reveal_strlit("name");
    reveal_strlit("input");
    reveal_strlit("text");
    reveal_strlit("partial_json");
    reveal_strlit("tool_use");
    reveal_strlit("text_delta");
    reveal_strlit("input_json_delta");
    reveal_strlit("role");
    reveal_strlit("model");
    reveal_strlit("content");
    reveal_strlit("stop_reason");
    reveal_strlit("stop_sequence");
    reveal_strlit("length");
    reveal_strlit("tool_calls");
    reveal_strlit("input_tokens");
    reveal_strlit("output_tokens");
    reveal_strlit("cache_read_input_tokens");
    reveal_strlit("");
    assert("type"@.len() == 4);
    assert("index"@.len() == 5);
    assert("content_block"@.len() == 13);
    assert("delta"@.len() == 5);
    assert("message"@.len() == 7);
    assert("usage"@.len() == 5);
    assert("id"@.len() == 2);
    assert("name"@.len() == 4);
    assert("input"@.len() == 5);
    assert("text"@.len() == 4);
    assert("partial_json"@.len() == 12);
    assert("tool_use"@.len() == 8);
    assert("text_delta"@.len() == 10);
    assert("input_json_delta"@.len() == 16);
    assert("role"@.len() == 4);
    assert("model"@.len() == 5);
    assert("content"@.len() == 7);
    assert("stop_reason"@.len() == 11);
    assert("stop_sequence"@.len() == 13);
    assert("length"@.len() == 6);
    assert("tool_calls"@.len() == 10);
    assert("input_tokens"@.len() == 12);
    assert("output_tokens"@.len() == 13);
    assert("cache_read_input_tokens"@.len() == 23);
    assert(""@.len() == 0);
    assert("index"@[0] != "delta"@[0]);
    assert("index"@[0] != "usage"@[0]);
    assert("delta"@[0] != "usage"@[0]);
    assert("type"@[0] != "name"@[0]);
    assert("type"@[1] != "text"@[1]);
    assert("type"@[0] != "role"@[0]);
    assert("model"@[0] != "usage"@[0]);
}

/// The tool calls that a chunk speaks of.
pub open spec fn calls_in(chunk: JsonView) -> Seq<JsonView> {
    match chunk.at("choices"@).first() {
        Some(choice) => choice.at("delta"@).at("tool_calls"@).items(),
        None => seq![],
    }
}

/// The number under which a chunk speaks of a tool call.
pub open spec fn number(tc: JsonView) -> u64 {
    tc.at("index"@).uint64_or_zero() as u64
}

/// The event opens a block for a call of this tool with this id.
pub open spec fn opens_call(e: EventView, id: Seq<char>, name: Seq<char>) -> bool {
    let block = e.1.at("content_block"@);
    &&& e.0 == "content_block_start"@
    &&& block.at("type"@) == JsonView::Str("tool_use"@)
    &&& block.at("id"@) == JsonView::Str(id)
    &&& block.at("name"@) == JsonView::Str(name)
    &&& block.at("input"@) == JsonView::Object(Map::empty())
}

/// The event opens a block for text, which is empty so far.
pub open spec fn opens_text(e: EventView) -> bool {
    let block = e.1.at("content_block"@);
    &&& e.0 == "content_block_start"@
    &&& block.at("type"@) == JsonView::Str("text"@)
    &&& block.at("text"@) == JsonView::Str(seq![])
}

/// The `k`-th call is the first of its number with an id.
pub open spec fn first_with_id(calls: Seq<JsonView>, k: int) -> bool {
    &&& 0 <= k < calls.len()
    &&& calls[k].at("id"@) is Str
    &&& forall|j: int|
        0 <= j < k && number(#[trigger] calls[j]) == number(calls[k]) ==> !(calls[j].at("id"@)
            is Str)
}

/// What a block that is opened for a call holds.
proof fn lemma_tool_start(i: u64, id: Seq<char>, tc: JsonView)
    ensures
        opens_call(
            block_start(i, tool_block(id, tc)),
            id,
            tc.at("function"@).at("name"@).str_or_empty(),
        ),
        block_start(i, tool_block(id, tc)).1.at("index"@) == JsonView::Int(i as int),
        opens_text(block_start(i, empty_text_block())),
        block_start(i, empty_text_block()).1.at("index"@) == JsonView::Int(i as int),
        !opens_text(block_start(i, tool_block(id, tc))),
{
    lemma_event_words();
    let b = tool_block(id, tc);
    assert(b.at("type"@) == text("tool_use"@));
    assert(b.at("id"@) == text(id));
    assert(b.at("input"@) == obj());
    assert(block_start(i, b).1.at("content_block"@) == b);
    let t = empty_text_block();
    assert(t.at("type"@) == text("text"@));
    assert(t.at("text"@) == text(""@));
    assert(""@ =~= seq![]);
    assert(block_start(i, t).1.at("content_block"@) == t);
}

proof fn lemma_call_opens(calls: Seq<JsonView>, step: ClaudeStep, k: int)
    requires
        first_with_id(calls, k),
        ascending(step.state.tools),
        entry(step.state.tools, number(calls[k])) is None,
    ensures
        ascending(call_tools(calls, step).state.tools),
        ({
            let out = call_tools(calls, step);
            exists|i: int|
                0 <= i < out.events.len() && #[trigger] opens_call(
                    out.events[i],
                    calls[k].at("id"@).str_or_empty(),
                    calls[k].at("function"@).at("name"@).str_or_empty(),
                ) && entry(out.state.tools, number(calls[k])) is Some && out.events[i].1.at("index"@)
                    == JsonView::Int(entry(out.state.tools, number(calls[k]))->0 as int)
        }),
    decreases calls.len(),
{
    let rest = calls.drop_last();
    let before = call_tools(rest, step);
    let last = calls.last();
    let opened = open_tool(last, before);
    let out = feed_tool(last, opened);
    let n = number(calls[k]);
    let id = calls[k].at("id"@).str_or_empty();
    let name = calls[k].at("function"@).at("name"@).str_or_empty();
    if k == calls.len() - 1 {
        lemma_not_yet(rest, step, n);
        law_entered(before.state.tools, n, before.state.next, n);
        lemma_tool_start(before.state.next, id, last);
        let i = before.events.len() as int;
        assert(out.events[i] == block_start(before.state.next, tool_block(id, last)));
        assert(opens_call(out.events[i], id, name));
    } else {
        assert(first_with_id(rest, k)) by {
            assert(rest[k] == calls[k]);
            assert forall|j: int|
                0 <= j < k && number(#[trigger] rest[j]) == number(rest[k]) implies !(rest[j].at(
                "id"@,
            ) is Str) by {
                assert(rest[j] == calls[j]);
            }
        }
        lemma_call_opens(rest, step, k);
        let i = choose|i: int|
            0 <= i < before.events.len() && #[trigger] opens_call(before.events[i], id, name)
                && entry(before.state.tools, n) is Some && before.events[i].1.at("index"@)
                == JsonView::Int(entry(before.state.tools, n)->0 as int);
        law_entered(before.state.tools, number(last), before.state.next, n);
        assert(out.events[i] == before.events[i]);
        assert(opens_call(out.events[i], id, name));
    }
}

/// Without a call that has an id, a number gets no block.
proof fn lemma_not_yet(calls: Seq<JsonView>, step: ClaudeStep, n: u64)
    requires
        ascending(step.state.tools),
        entry(step.state.tools, n) is None,
        forall|j: int|
            0 <= j < calls.len() && number(#[trigger] calls[j]) == n ==> !(calls[j].at("id"@)
                is Str),
    ensures
        ascending(call_tools(calls, step).state.tools),
        entry(call_tools(calls, step).state.tools, n) is None,
    decreases calls.len(),
{
    if calls.len() > 0 {
        let rest = calls.drop_last();
        assert forall|j: int| 0 <= j < rest.len() && number(#[trigger] rest[j]) == n implies !(
        rest[j].at("id"@) is Str) by {
            assert(rest[j] == calls[j]);
        }
        lemma_not_yet(rest, step, n);
        let before = call_tools(rest, step);
        assert(calls.last() == calls[calls.len() - 1]);
        law_entered(before.state.tools, number(calls.last()), before.state.next, n);
    }
}

/// What a chunk has become before its reason to finish is looked at.
proof fn lemma_parts_of_chunk(chunk: JsonView, s: ClaudeStream)
    requires
        chunk.at("choices"@).first() is Some,
    ensures
        ({
            let choice = chunk.at("choices"@).first()->0;
            let said = speak(choice.at("delta"@).at("content"@).str_or_empty(), announce(chunk, s));
            let called = call_tools(calls_in(chunk), said);
            &&& claude_events(chunk, s).state == called.state
            &&& called.events.len() <= claude_events(chunk, s).events.len()
            &&& forall|i: int|
                0 <= i < called.events.len() ==> claude_events(chunk, s).events[i]
                    == called.events[i]
            &&& said.state.tools == s.tools
        }),
{
}

/// A tool call with an id, at a number that has no block yet, opens one: the
/// event that opens it gives the client the id and the name of the call, and
/// the index of the block that the number has from then on.
pub proof fn law_tool_call_opens_its_block(chunk: JsonView, s: ClaudeStream, k: int)
    requires
        ascending(s.tools),
        first_with_id(calls_in(chunk), k),
        entry(s.tools, number(calls_in(chunk)[k])) is None,
    ensures
        ({
            let call = calls_in(chunk)[k];
            let out = claude_events(chunk, s);
            exists|i: int|
                0 <= i < out.events.len() && #[trigger] opens_call(
                    out.events[i],
                    call.at("id"@).str_or_empty(),
                    call.at("function"@).at("name"@).str_or_empty(),
                ) && entry(out.state.tools, number(call)) is Some && out.events[i].1.at("index"@)
                    == JsonView::Int(entry(out.state.tools, number(call))->0 as int)
        }),
{
    lemma_parts_of_chunk(chunk, s);
    let choice = chunk.at("choices"@).first()->0;
    let said = speak(choice.at("delta"@).at("content"@).str_or_empty(), announce(chunk, s));
    lemma_call_opens(calls_in(chunk), said, k);
    let called = call_tools(calls_in(chunk), said);
    let call = calls_in(chunk)[k];
    let id = call.at("id"@).str_or_empty();
    let name = call.at("function"@).at("name"@).str_or_empty();
    let i = choose|i: int|
        0 <= i < called.events.len() && #[trigger] opens_call(called.events[i], id, name) && entry(
            called.state.tools,
            number(call),
        ) is Some && called.events[i].1.at("index"@) == JsonView::Int(
            entry(called.state.tools, number(call))->0 as int,
        );
    assert(claude_events(chunk, s).events[i] == called.events[i]);
    assert(opens_call(claude_events(chunk, s).events[i], id, name));
}

/// The event opens a block for text, or for one of these calls.
pub open spec fn opens_known(e: EventView, calls: Seq<JsonView>) -> bool {
    e.0 == "content_block_start"@ ==> opens_text(e) || exists|k: int|
        0 <= k < calls.len() && (#[trigger] calls[k]).at("id"@) is Str && opens_call(
            e,
            calls[k].at("id"@).str_or_empty(),
            calls[k].at("function"@).at("name"@).str_or_empty(),
        )
}

proof fn lemma_known_grows(e: EventView, calls: Seq<JsonView>)
    requires
        calls.len() > 0,
        opens_known(e, calls.drop_last()),
    ensures
        opens_known(e, calls),
{
    let rest = calls.drop_last();
    if e.0 == "content_block_start"@ && !opens_text(e) {
        let k = choose|k: int|
            0 <= k < rest.len() && (#[trigger] rest[k]).at("id"@) is Str && opens_call(
                e,
                rest[k].at("id"@).str_or_empty(),
                rest[k].at("function"@).at("name"@).str_or_empty(),
            );
        assert(calls[k] == rest[k]);
    }
}

proof fn lemma_only_known(calls: Seq<JsonView>, step: ClaudeStep)
    requires
        forall|i: int|
            0 <= i < step.events.len() ==> opens_known(#[trigger] step.events[i], seq![]),
    ensures
        forall|i: int|
            0 <= i < call_tools(calls, step).events.len() ==> opens_known(
                #[trigger] call_tools(calls, step).events[i],
                calls,
            ),
    decreases calls.len(),
{
    lemma_event_names();
    let out = call_tools(calls, step);
    if calls.len() == 0 {
        assert(calls =~= seq![]);
    } else {
        let rest = calls.drop_last();
        lemma_only_known(rest, step);
        let before = call_tools(rest, step);
        let last = calls.last();
        let opened = open_tool(last, before);
        assert forall|i: int| 0 <= i < out.events.len() implies opens_known(
            #[trigger] out.events[i],
            calls,
        ) by {
            if i < before.events.len() {
                assert(out.events[i] == before.events[i]);
                lemma_known_grows(before.events[i], calls);
            } else if i < opened.events.len() {
                let id = last.at("id"@).str_or_empty();
                assert(out.events[i] == block_start(before.state.next, tool_block(id, last)));
                lemma_tool_start(before.state.next, id, last);
                assert(calls[calls.len() - 1] == last);
            }
        }
    }
}

/// No block is opened but for text or for a call of the chunk, with its id and
/// its name.
pub proof fn law_blocks_are_of_the_chunk(chunk: JsonView, s: ClaudeStream, i: int)
    requires
        0 <= i < claude_events(chunk, s).events.len(),
    ensures
        opens_known(claude_events(chunk, s).events[i], calls_in(chunk)),
{
    lemma_event_names();
    match chunk.at("choices"@).first() {
        None => {},
        Some(choice) => {
            let first = announce(chunk, s);
            let said = speak(choice.at("delta"@).at("content"@).str_or_empty(), first);
            lemma_tool_start(first.state.next, seq![], chunk);
            lemma_only_known(calls_in(chunk), said);
            let called = call_tools(calls_in(chunk), said);
            let events = claude_events(chunk, s).events;
            if i < called.events.len() {
                assert(events[i] == called.events[i]);
            } else {
                let finish = choice.at("finish_reason"@).str()->0;
                let tail = farewell(finish, chunk, called.state);
                let stops = tool_stops(called.state.tools);
                let n: int = if called.state.text is Some {
                    1
                } else {
                    0
                };
                let j = i - called.events.len();
                assert(events[i] == tail[j]);
                assert(tail.len() == n + stops.len() + 2);
                if j < n {
                    assert(tail[j] == block_stop(called.state.text->0));
                } else if j < n + stops.len() {
                    assert(tail[j] == stops[j - n]);
                    assert(stops[j - n] == block_stop(called.state.tools[j - n].1));
                }
            }
        },
    }
}

// ---------------------------------------------------------------------------
// Arguments
// ---------------------------------------------------------------------------

/// The arguments that an event adds to the block with this index.
pub open spec fn event_arguments(e: EventView, index: u64) -> Seq<char> {
    let delta = e.1.at("delta"@);
    if e.0 == "content_block_delta"@ && e.1.at("index"@) == JsonView::Int(index as int)
        && delta.at("type"@) == JsonView::Str("input_json_delta"@) {
        delta.at("partial_json"@).str_or_empty()
    } else {
        seq![]
    }
}

/// The arguments that events add to the block with this index, run together.
pub open spec fn arguments_in(events: Seq<EventView>, index: u64) -> Seq<char>
    decreases events.len(),
{
    if events.len() == 0 {
        seq![]
    } else {
        arguments_in(events.drop_last(), index) + event_arguments(events.last(), index)
    }
}

/// The arguments that calls give under this number, run together.
pub open spec fn arguments_of(calls: Seq<JsonView>, n: u64) -> Seq<char>
    decreases calls.len(),
{
    if calls.len() == 0 {
        seq![]
    } else {
        arguments_of(calls.drop_last(), n) + if number(calls.last()) == n {
            calls.last().at("function"@).at("arguments"@).str_or_empty()
        } else {
            seq![]
        }
    }
}

proof fn lemma_arguments_push(events: Seq<EventView>, e: EventView, index: u64)
    ensures
        arguments_in(events.push(e), index) == arguments_in(events, index) + event_arguments(
            e,
            index,
        ),
{
    assert(events.push(e).drop_last() =~= events);
}

proof fn lemma_no_arguments(events: Seq<EventView>, index: u64)
    requires
        forall|i: int|
            0 <= i < events.len() ==> event_arguments(#[trigger] events[i], index).len() == 0,
    ensures
        arguments_in(events, index) == Seq::<char>::empty(),
    decreases events.len(),
{
    if events.len() > 0 {
        let rest = events.drop_last();
        assert forall|i: int| 0 <= i < rest.len() implies event_arguments(
            #[trigger] rest[i],
            index,
        ).len() == 0 by {
            assert(rest[i] == events[i]);
        }
        lemma_no_arguments(rest, index);
        assert(events.last() == events[events.len() - 1]);
        assert(arguments_in(events, index) =~= seq![]);
    }
}

/// What a delta adds to a block.
proof fn lemma_delta_arguments(i: u64, args: Seq<char>, said: Seq<char>, index: u64)
    ensures
        ({
            let d = obj().put("type"@, text("input_json_delta"@)).put("partial_json"@, text(args));
            event_arguments(block_delta(i, d), index) == if i == index {
                args
            } else {
                seq![]
            }
        }),
        ({
            let d = obj().put("type"@, text("text_delta"@)).put("text"@, text(said));
            event_arguments(block_delta(i, d), index) == Seq::<char>::empty()
        }),
{
    lemma_event_words();
    let d = obj().put("type"@, text("input_json_delta"@)).put("partial_json"@, text(args));
    assert(d.at("type"@) == text("input_json_delta"@));
    assert(block_delta(i, d).1.at("index"@) == JsonView::Int(i as int));
    assert(block_delta(i, d).1.at("delta"@) == d);
    let e = obj().put("type"@, text("text_delta"@)).put("text"@, text(said));
    assert(e.at("type"@) == text("text_delta"@));
    assert(block_delta(i, e).1.at("delta"@) == e);
}

/// A block that is not open has got no arguments.
proof fn lemma_closed_has_none(events: Seq<EventView>, s: ClaudeStream, index: u64)
    requires
        deltas_open(events, s),
        !is_open(s, index),
    ensures
        arguments_in(events, index) == Seq::<char>::empty(),
{
    lemma_event_words();
    assert forall|k: int| 0 <= k < events.len() implies event_arguments(
        #[trigger] events[k],
        index,
    ).len() == 0 by {
        if events[k].0 == "content_block_delta"@ {
            let (i, d) = choose|i: u64, d: JsonView| events[k] == block_delta(i, d) && is_open(s, i);
            assert(block_delta(i, d).1.at("index"@) == JsonView::Int(i as int));
        }
    }
    lemma_no_arguments(events, index);
}

/// A number that is spoken of has a block, or else its first call has an id.
pub open spec fn has_a_block(calls: Seq<JsonView>, s: ClaudeStream, n: u64) -> bool {
    entry(s.tools, n) is Some || forall|k: int|
        0 <= k < calls.len() && number(#[trigger] calls[k]) == n && (forall|j: int|
            0 <= j < k ==> number(#[trigger] calls[j]) != n) ==> calls[k].at("id"@) is Str
}

/// What holds of the arguments of a number behind any of the calls.
spec fn arguments_kept(step: ClaudeStep, calls: Seq<JsonView>, n: u64) -> bool {
    &&& blocks_distinct(step.state)
    &&& deltas_open(step.events, step.state)
    &&& match entry(step.state.tools, n) {
        Some(b) => arguments_in(step.events, b) == arguments_of(calls, n),
        None => forall|k: int| 0 <= k < calls.len() ==> number(#[trigger] calls[k]) != n,
    }
}

/// Two numbers with blocks have different ones.
proof fn lemma_blocks_apart(s: ClaudeStream, m: u64, n: u64)
    requires
        blocks_distinct(s),
        entry(s.tools, m) is Some,
        entry(s.tools, m) == entry(s.tools, n),
    ensures
        m == n,
{
    lemma_entry_stands(s.tools, m);
    lemma_entry_stands(s.tools, n);
    let b = entry(s.tools, m)->0;
    let j = choose|k: int| 0 <= k < s.tools.len() && #[trigger] s.tools[k] == (m, b);
    let k = choose|k: int| 0 <= k < s.tools.len() && #[trigger] s.tools[k] == (n, b);
    if j < k {
        assert(s.tools[j].1 != s.tools[k].1);
    } else if k < j {
        assert(s.tools[k].1 != s.tools[j].1);
    }
}

proof fn lemma_block_is_open(s: ClaudeStream, n: u64)
    requires
        blocks_distinct(s),
        entry(s.tools, n) is Some,
    ensures
        is_open(s, entry(s.tools, n)->0),
        entry(s.tools, n)->0 < s.next,
{
    lemma_entry_stands(s.tools, n);
    let b = entry(s.tools, n)->0;
    let k = choose|k: int| 0 <= k < s.tools.len() && #[trigger] s.tools[k] == (n, b);
    assert(s.tools[k].1 == b);
}

proof fn lemma_arguments_kept(calls: Seq<JsonView>, step: ClaudeStep, n: u64)
    requires
        blocks_distinct(step.state),
        deltas_open(step.events, step.state),
        step.state.next + calls.len() <= u64::MAX,
        has_a_block(calls, step.state, n),
        entry(step.state.tools, n) matches Some(b) ==> arguments_in(step.events, b) == Seq::<
            char,
        >::empty(),
    ensures
        arguments_kept(call_tools(calls, step), calls, n),
        call_tools(calls, step).state.next <= step.state.next + calls.len(),
        entry(step.state.tools, n) is Some ==> entry(call_tools(calls, step).state.tools, n)
            == entry(step.state.tools, n),
    decreases calls.len(),
{
    lemma_event_names();
    if calls.len() == 0 {
        assert(calls =~= seq![]);
    } else {
        let rest = calls.drop_last();
        let last = calls.last();
        assert(last == calls[calls.len() - 1]);
        assert(has_a_block(rest, step.state, n)) by {
            if entry(step.state.tools, n) is None {
                assert forall|k: int|
                    0 <= k < rest.len() && number(#[trigger] rest[k]) == n && (forall|j: int|
                        0 <= j < k ==> number(#[trigger] rest[j]) != n) implies rest[k].at("id"@)
                    is Str by {
                    assert(rest[k] == calls[k]);
                    assert forall|j: int| 0 <= j < k implies number(#[trigger] calls[j]) != n by {
                        assert(rest[j] == calls[j]);
                    }
                }
            }
        }
        lemma_arguments_kept(rest, step, n);
        let before = call_tools(rest, step);
        let opened = open_tool(last, before);
        let out = feed_tool(last, opened);
        let m = number(last);
        let none = Seq::<char>::empty();
        lemma_open_tool_steady(last, before);
        lemma_feed_tool_steady(last, opened);
        law_entered(before.state.tools, m, before.state.next, n);
        law_entered(before.state.tools, m, before.state.next, m);
        // What opening adds to the block of `n`.
        match entry(opened.state.tools, n) {
            Some(b) => {
                if entry(before.state.tools, n) is Some {
                    if opened.events != before.events {
                        lemma_arguments_push(before.events, opened.events.last(), b);
                        assert(opened.events =~= before.events.push(opened.events.last()));
                        assert(event_arguments(opened.events.last(), b) =~= none);
                        assert(arguments_in(opened.events, b) =~= arguments_in(before.events, b));
                    }
                } else {
                    assert(b == before.state.next && m == n);
                    assert(!is_open(before.state, b));
                    lemma_closed_has_none(before.events, before.state, b);
                    lemma_arguments_push(before.events, opened.events.last(), b);
                    assert(opened.events =~= before.events.push(opened.events.last()));
                    assert(event_arguments(opened.events.last(), b) =~= none);
                    assert(arguments_in(opened.events, b) =~= none);
                    lemma_no_calls(rest, n);
                }
                assert(arguments_in(opened.events, b) == arguments_of(rest, n));
                // What feeding adds.
                match (last.at("function"@).at("arguments"@).str(), entry(opened.state.tools, m)) {
                    (Some(args), Some(block)) => {
                        lemma_delta_arguments(block, args, none, b);
                        let d = obj().put("type"@, text("input_json_delta"@)).put(
                            "partial_json"@,
                            text(args),
                        );
                        lemma_arguments_push(opened.events, block_delta(block, d), b);
                        if block == b {
                            lemma_blocks_apart(opened.state, m, n);
                        }
                    },
                    _ => {
                        lemma_event_words();
                        if m == n {
                            assert(last.at("function"@).at("arguments"@).str_or_empty() =~= none);
                        }
                        assert(arguments_of(rest, n) + none =~= arguments_of(rest, n));
                    },
                }
                assert(arguments_in(out.events, b) =~= arguments_of(calls, n));
            },
            None => {
                assert(m != n) by {
                    if m == n {
                        assert(forall|j: int|
                            0 <= j < rest.len() ==> number(#[trigger] calls[j]) != n) by {
                            assert forall|j: int| 0 <= j < rest.len() implies number(
                                #[trigger] calls[j],
                            ) != n by {
                                assert(rest[j] == calls[j]);
                            }
                        }
                        assert(number(calls[calls.len() - 1]) == n);
                        assert(last.at("id"@) is Str);
                    }
                }
                assert forall|k: int| 0 <= k < calls.len() implies number(#[trigger] calls[k])
                    != n by {
                    if k < rest.len() {
                        assert(rest[k] == calls[k]);
                    }
                }
            },
        }
    }
}

proof fn lemma_no_calls(calls: Seq<JsonView>, n: u64)
    requires
        forall|k: int| 0 <= k < calls.len() ==> number(#[trigger] calls[k]) != n,
    ensures
        arguments_of(calls, n) == Seq::<char>::empty(),
    decreases calls.len(),
{
    if calls.len() > 0 {
        let rest = calls.drop_last();
        assert forall|k: int| 0 <= k < rest.len() implies number(#[trigger] rest[k]) != n by {
            assert(rest[k] == calls[k]);
        }
        lemma_no_calls(rest, n);
        assert(number(calls[calls.len() - 1]) != n);
        assert(arguments_of(calls, n) =~= seq![]);
    }
}

/// The arguments that the client gets for a block are those that the chunk gives
/// under the number of the block's call, run together, no more and no less. The
/// block indices must not have run out.
pub proof fn law_tool_call_keeps_its_arguments(chunk: JsonView, s: ClaudeStream, n: u64)
    requires
        blocks_distinct(s),
        s.next + 1 + calls_in(chunk).len() <= u64::MAX,
        chunk.at("choices"@).first() is Some,
        has_a_block(calls_in(chunk), s, n),
    ensures
        match entry(claude_events(chunk, s).state.tools, n) {
            Some(b) => arguments_in(claude_events(chunk, s).events, b) == arguments_of(
                calls_in(chunk),
                n,
            ),
            None => forall|k: int|
                0 <= k < calls_in(chunk).len() ==> number(#[trigger] calls_in(chunk)[k]) != n,
        },
        entry(s.tools, n) is Some ==> entry(claude_events(chunk, s).state.tools, n) == entry(
            s.tools,
            n,
        ),
{
    lemma_event_names();
    let choice = chunk.at("choices"@).first()->0;
    let t = choice.at("delta"@).at("content"@).str_or_empty();
    let first = announce(chunk, s);
    let none = Seq::<char>::empty();
    assert(deltas_open(first.events, first.state));
    assert(blocks_distinct(first.state));
    lemma_speak_steady(t, first);
    let said = speak(t, first);
    if let Some(b) = entry(said.state.tools, n) {
        assert forall|i: int| 0 <= i < said.events.len() implies event_arguments(
            #[trigger] said.events[i],
            b,
        ).len() == 0 by {
            let d = obj().put("type"@, text("text_delta"@)).put("text"@, text(t));
            let index = match first.state.text {
                Some(x) => x,
                None => first.state.next,
            };
            lemma_delta_arguments(index, none, t, b);
            if said.events[i].0 == "content_block_delta"@ {
                assert(said.events[i] == block_delta(index, d));
            }
        }
        lemma_no_arguments(said.events, b);
    }
    lemma_arguments_kept(calls_in(chunk), said, n);
    let called = call_tools(calls_in(chunk), said);
    match choice.at("finish_reason"@).str() {
        Some(finish) => {
            if let Some(b) = entry(called.state.tools, n) {
                let tail = farewell(finish, chunk, called.state);
                lemma_farewell_is_silent(finish, chunk, called.state, b);
                lemma_arguments_append(called.events, tail, b);
                assert(arguments_in(called.events, b) + none =~= arguments_in(called.events, b));
            }
        },
        None => {},
    }
}

proof fn lemma_arguments_append(a: Seq<EventView>, b: Seq<EventView>, index: u64)
    ensures
        arguments_in(a + b, index) == arguments_in(a, index) + arguments_in(b, index),
    decreases b.len(),
{
    if b.len() == 0 {
        assert(a + b =~= a);
        assert(arguments_in(a, index) + arguments_in(b, index) =~= arguments_in(a, index));
    } else {
        lemma_arguments_append(a, b.drop_last(), index);
        assert((a + b).drop_last() =~= a + b.drop_last());
        assert(arguments_in(a + b, index) =~= arguments_in(a, index) + arguments_in(b, index));
    }
}

proof fn lemma_farewell_is_silent(finish: Seq<char>, chunk: JsonView, s: ClaudeStream, index: u64)
    ensures
        arguments_in(farewell(finish, chunk, s), index) == Seq::<char>::empty(),
{
    lemma_event_names();
    let tail = farewell(finish, chunk, s);
    let stops = tool_stops(s.tools);
    let n: int = if s.text is Some {
        1
    } else {
        0
    };
    assert(tail.len() == n + stops.len() + 2);
    assert forall|k: int| 0 <= k < tail.len() implies event_arguments(
        #[trigger] tail[k],
        index,
    ).len() == 0 by {
        if k < n {
            assert(tail[k] == block_stop(s.text->0));
        } else if k < n + stops.len() {
            assert(tail[k] == stops[k - n]);
            assert(stops[k - n] == block_stop(s.tools[k - n].1));
        }
    }
    lemma_no_arguments(tail, index);
}

// ---------------------------------------------------------------------------
// Beginning and end
// ---------------------------------------------------------------------------

/// The first event of an answer gives the client its id and its model, says that
/// the assistant speaks, and that nothing was said yet.
pub proof fn law_announcement_names_the_answer(chunk: JsonView, s: ClaudeStream)
    requires
        !s.started,
        chunk.at("choices"@).first() is Some,
    ensures
        ({
            let events = claude_events(chunk, s).events;
            let message = events[0].1.at("message"@);
            &&& events.len() > 0
            &&& events[0].0 == "message_start"@
            &&& chunk.at("id"@).str_or_empty().len() > 0 ==> message.at("id"@) == chunk.at("id"@)
            &&& chunk.at("id"@).str_or_empty().len() == 0 ==> message.at("id"@) == JsonView::Str(
                "msg_unknown"@,
            )
            &&& chunk.at("model"@) is Str ==> message.at("model"@) == chunk.at("model"@)
            &&& !(chunk.at("model"@) is Str) ==> message.at("model"@) == JsonView::Str("unknown"@)
            &&& message.field("stop_sequence"@) == Some(JsonView::Null)
            &&& message.at("usage"@).at("input_tokens"@) == JsonView::Int(0)
            &&& message.at("usage"@).at("output_tokens"@) == JsonView::Int(0)
            &&& message.at("role"@) == JsonView::Str("assistant"@)
            &&& message.at("type"@) == JsonView::Str("message"@)
            &&& message.at("content"@) == JsonView::Array(seq![])
            &&& message.at("stop_reason"@) == JsonView::Null
        }),
{
    lemma_event_words();
    let events = claude_events(chunk, s).events;
    let choice = chunk.at("choices"@).first()->0;
    let first = announce(chunk, s);
    let said = speak(choice.at("delta"@).at("content"@).str_or_empty(), first);
    assert(said.events[0] == message_start(chunk));
    lemma_first_stays(calls_in(chunk), said);
    assert(events[0] == message_start(chunk));
    let message = events[0].1.at("message"@);
    assert(message.members().contains_key("content"@));
}

proof fn lemma_first_stays(calls: Seq<JsonView>, step: ClaudeStep)
    requires
        step.events.len() > 0,
    ensures
        call_tools(calls, step).events.len() > 0,
        call_tools(calls, step).events[0] == step.events[0],
    decreases calls.len(),
{
    if calls.len() > 0 {
        lemma_first_stays(calls.drop_last(), step);
    }
}

/// The last event but one tells the client why the answer ended and what it
/// cost: an answer cut off says so, one that calls tools says so, and any other
/// came to its end; the tokens of the prompt are those that were read afresh and
/// those that were read from the cache.
pub proof fn law_end_tells_why(chunk: JsonView, s: ClaudeStream)
    requires
        chunk.at("choices"@).first() is Some,
        chunk.at("choices"@).first()->0.at("finish_reason"@) is Str,
    ensures
        ({
            let events = claude_events(chunk, s).events;
            let finish = chunk.at("choices"@).first()->0.at("finish_reason"@).str_or_empty();
            let e = events[events.len() - 2];
            let why = e.1.at("delta"@).at("stop_reason"@);
            let counts = e.1.at("usage"@);
            let given = chunk.at("usage"@);
            &&& events.len() >= 2
            &&& e.0 == "message_delta"@
            &&& e.1.at("delta"@).field("stop_sequence"@) == Some(JsonView::Null)
            &&& events.last().0 == "message_stop"@
            &&& finish == "length"@ ==> why == JsonView::Str("max_tokens"@)
            &&& finish == "tool_calls"@ ==> why == JsonView::Str("tool_use"@)
            &&& finish != "length"@ && finish != "tool_calls"@ ==> why == JsonView::Str("end_turn"@)
            &&& chunk.field("usage"@) is None ==> counts.at("input_tokens"@) == JsonView::Int(0)
                && counts.at("output_tokens"@) == JsonView::Int(0)
            &&& chunk.field("usage"@) is Some && 0 <= given.at("prompt_tokens_details"@).at(
                "cached_tokens"@,
            ).int64_or_zero() <= given.at("prompt_tokens"@).int64_or_zero() ==> {
                &&& counts.at("input_tokens"@).int64_or_zero() + counts.at(
                    "cache_read_input_tokens"@,
                ).int64_or_zero() == given.at("prompt_tokens"@).int64_or_zero()
                &&& counts.at("cache_read_input_tokens"@).int64_or_zero() == given.at(
                    "prompt_tokens_details"@,
                ).at("cached_tokens"@).int64_or_zero()
                &&& counts.at("output_tokens"@).int64_or_zero() == given.at(
                    "completion_tokens"@,
                ).int64_or_zero()
            }
        }),
{
    lemma_event_words();
    let choice = chunk.at("choices"@).first()->0;
    let said = speak(choice.at("delta"@).at("content"@).str_or_empty(), announce(chunk, s));
    let called = call_tools(calls_in(chunk), said);
    let finish = choice.at("finish_reason"@).str()->0;
    let tail = farewell(finish, chunk, called.state);
    let events = claude_events(chunk, s).events;
    assert(events == called.events + tail);
    assert(events[events.len() - 2] == tail[tail.len() - 2]);
    assert(tail[tail.len() - 2].1.at("delta"@).at("stop_reason"@) == text(
        crate::codex::claude_message::stop_reason(finish),
    ));
    assert(tail[tail.len() - 2].1.at("usage"@) == crate::codex::claude_message::claude_usage(chunk));
}


// ---------------------------------------------------------------------------
// Text
// ---------------------------------------------------------------------------

/// What an event says of text concerns the text block.
pub open spec fn text_in_place(e: EventView, s: ClaudeStream) -> bool {
    let said = e.0 == "content_block_delta"@ && e.1.at("delta"@).at("type"@) == JsonView::Str(
        "text_delta"@,
    );
    said || opens_text(e) ==> s.text is Some && e.1.at("index"@) == JsonView::Int(s.text->0 as int)
}

proof fn lemma_calls_say_no_text(calls: Seq<JsonView>, step: ClaudeStep)
    requires
        forall|i: int| 0 <= i < step.events.len() ==> text_in_place(#[trigger] step.events[i], step.state),
    ensures
        call_tools(calls, step).state.text == step.state.text,
        forall|i: int|
            0 <= i < call_tools(calls, step).events.len() ==> text_in_place(
                #[trigger] call_tools(calls, step).events[i],
                step.state,
            ),
    decreases calls.len(),
{
    lemma_event_names();
    lemma_event_words();
    let out = call_tools(calls, step);
    if calls.len() > 0 {
        let rest = calls.drop_last();
        lemma_calls_say_no_text(rest, step);
        let before = call_tools(rest, step);
        let last = calls.last();
        let opened = open_tool(last, before);
        assert forall|i: int| 0 <= i < out.events.len() implies text_in_place(
            #[trigger] out.events[i],
            step.state,
        ) by {
            if i < before.events.len() {
                assert(out.events[i] == before.events[i]);
            } else if i < opened.events.len() {
                let id = last.at("id"@).str_or_empty();
                assert(out.events[i] == block_start(before.state.next, tool_block(id, last)));
                lemma_tool_start(before.state.next, id, last);
            } else {
                let args = last.at("function"@).at("arguments"@).str()->0;
                let d = obj().put("type"@, text("input_json_delta"@)).put(
                    "partial_json"@,
                    text(args),
                );
                assert(d.at("type"@) == text("input_json_delta"@));
                assert(out.events[i].1.at("delta"@) == d);
            }
        }
    }
}

/// Text goes to the text block and nowhere else, and an answer has one: once it is
/// open, it stays the text block.
pub proof fn law_text_goes_to_the_text_block(chunk: JsonView, s: ClaudeStream, i: int)
    requires
        0 <= i < claude_events(chunk, s).events.len(),
    ensures
        text_in_place(claude_events(chunk, s).events[i], claude_events(chunk, s).state),
        s.text is Some ==> claude_events(chunk, s).state.text == s.text,
{
    lemma_event_names();
    lemma_event_words();
    match chunk.at("choices"@).first() {
        None => {},
        Some(choice) => {
            let t = choice.at("delta"@).at("content"@).str_or_empty();
            let first = announce(chunk, s);
            let said = speak(t, first);
            let d = obj().put("type"@, text("text_delta"@)).put("text"@, text(t));
            lemma_tool_start(first.state.next, seq![], chunk);
            assert forall|k: int| 0 <= k < said.events.len() implies text_in_place(
                #[trigger] said.events[k],
                said.state,
            ) by {
                if k >= first.events.len() {
                    let index = match first.state.text {
                        Some(x) => x,
                        None => first.state.next,
                    };
                    assert(block_delta(index, d).1.at("index"@) == JsonView::Int(index as int));
                }
            }
            lemma_calls_say_no_text(calls_in(chunk), said);
            let called = call_tools(calls_in(chunk), said);
            let events = claude_events(chunk, s).events;
            if i < called.events.len() {
                assert(events[i] == called.events[i]);
            } else {
                let finish = choice.at("finish_reason"@).str()->0;
                let tail = farewell(finish, chunk, called.state);
                let stops = tool_stops(called.state.tools);
                let n: int = if called.state.text is Some {
                    1
                } else {
                    0
                };
                let j = i - called.events.len();
                assert(events[i] == tail[j]);
                assert(tail.len() == n + stops.len() + 2);
                if j < n {
                    assert(tail[j] == block_stop(called.state.text->0));
                } else if j < n + stops.len() {
                    assert(tail[j] == stops[j - n]);
                    assert(stops[j - n] == block_stop(called.state.tools[j - n].1));
                }
            }
        },
    }
}


// ---------------------------------------------------------------------------
// Every event
// ---------------------------------------------------------------------------

/// The event says in its data what it is, and a block that it opens is empty.
pub open spec fn well_told(e: EventView) -> bool {
    let block = e.1.at("content_block"@);
    &&& e.1.at("type"@) == JsonView::Str(e.0)
    &&& e.0 == "content_block_start"@ && block.at("type"@) == JsonView::Str("tool_use"@)
        ==> block.field("input"@) == Some(JsonView::Object(Map::empty()))
    &&& e.0 == "content_block_start"@ && block.at("type"@) == JsonView::Str("text"@)
        ==> block.field("text"@) == Some(JsonView::Str(seq![]))
}

proof fn lemma_well_told(i: u64, block: JsonView, id: Seq<char>, tc: JsonView)
    ensures
        well_told(block_start(i, tool_block(id, tc))),
        well_told(block_start(i, empty_text_block())),
        well_told(block_delta(i, block)),
        well_told(block_stop(i)),
{
    lemma_event_names();
    lemma_event_words();
    assert(""@ =~= seq![]);
    let tool = tool_block(id, tc);
    assert(block_start(i, tool).1.at("content_block"@) == tool);
    assert(tool.at("type"@) == text("tool_use"@));
    assert(tool.field("input"@) == Some(obj()));
    let empty = empty_text_block();
    assert(block_start(i, empty).1.at("content_block"@) == empty);
    assert(empty.at("type"@) == text("text"@));
}

proof fn lemma_calls_are_well_told(calls: Seq<JsonView>, step: ClaudeStep)
    requires
        forall|i: int| 0 <= i < step.events.len() ==> well_told(#[trigger] step.events[i]),
    ensures
        forall|i: int|
            0 <= i < call_tools(calls, step).events.len() ==> well_told(
                #[trigger] call_tools(calls, step).events[i],
            ),
    decreases calls.len(),
{
    if calls.len() > 0 {
        let rest = calls.drop_last();
        lemma_calls_are_well_told(rest, step);
        let before = call_tools(rest, step);
        let last = calls.last();
        let opened = open_tool(last, before);
        let out = call_tools(calls, step);
        assert forall|i: int| 0 <= i < out.events.len() implies well_told(
            #[trigger] out.events[i],
        ) by {
            if i < before.events.len() {
                assert(out.events[i] == before.events[i]);
            } else if i < opened.events.len() {
                let id = last.at("id"@).str_or_empty();
                lemma_well_told(before.state.next, last, id, last);
                assert(out.events[i] == block_start(before.state.next, tool_block(id, last)));
            } else {
                let args = last.at("function"@).at("arguments"@).str()->0;
                let d = obj().put("type"@, text("input_json_delta"@)).put(
                    "partial_json"@,
                    text(args),
                );
                let block = entry(opened.state.tools, number(last))->0;
                lemma_well_told(block, d, args, last);
                assert(out.events[i] == block_delta(block, d));
            }
        }
    }
}

/// Every event of a stream is called in its data what it is called outside it, and
/// a block is empty when it opens.
pub proof fn law_events_are_well_told(chunk: JsonView, s: ClaudeStream, i: int)
    requires
        0 <= i < claude_events(chunk, s).events.len(),
    ensures
        well_told(claude_events(chunk, s).events[i]),
{
    lemma_event_names();
    lemma_event_words();
    match chunk.at("choices"@).first() {
        None => {},
        Some(choice) => {
            let t = choice.at("delta"@).at("content"@).str_or_empty();
            let first = announce(chunk, s);
            let said = speak(t, first);
            let d = obj().put("type"@, text("text_delta"@)).put("text"@, text(t));
            let index = match first.state.text {
                Some(x) => x,
                None => first.state.next,
            };
            lemma_well_told(index, d, t, chunk);
            assert(well_told(message_start(chunk)));
            assert forall|k: int| 0 <= k < said.events.len() implies well_told(
                #[trigger] said.events[k],
            ) by {}
            lemma_calls_are_well_told(calls_in(chunk), said);
            let called = call_tools(calls_in(chunk), said);
            let events = claude_events(chunk, s).events;
            if i < called.events.len() {
                assert(events[i] == called.events[i]);
            } else {
                let finish = choice.at("finish_reason"@).str()->0;
                let tail = farewell(finish, chunk, called.state);
                let stops = tool_stops(called.state.tools);
                let n: int = if called.state.text is Some {
                    1
                } else {
                    0
                };
                let j = i - called.events.len();
                assert(events[i] == tail[j]);
                assert(tail.len() == n + stops.len() + 2);
                if j < n {
                    lemma_well_told(called.state.text->0, d, t, chunk);
                    assert(tail[j] == block_stop(called.state.text->0));
                } else if j < n + stops.len() {
                    assert(tail[j] == stops[j - n]);
                    lemma_well_told(called.state.tools[j - n].1, d, t, chunk);
                    assert(stops[j - n] == block_stop(called.state.tools[j - n].1));
                }
            }
        },
    }
}

} // verus!
