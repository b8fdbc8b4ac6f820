//! Streamed answers between OpenAI `chat.completion.chunk` values and Anthropic
//! Messages events, one value at a time.
use vstd::prelude::*;

use crate::codex::claude_message::{
    claude_usage, finish_reason, finish_to_stop_reason, openai_usage, openai_usage_from_claude,
    stop_reason, stop_reason_to_finish, usage_from,
};
use crate::index_table::{entered, entry, IndexTable, Pairs};
use crate::json::{items_view, obj, text, text_or_null, Json, JsonView};
use crate::text::{owned, same};

verus! {

// ---------------------------------------------------------------------------
// OpenAI chunks -> Anthropic events
// ---------------------------------------------------------------------------

/// A named event with its data.
pub type EventView = (Seq<char>, JsonView);

/// What a list of named events stands for.
pub open spec fn events_view(v: Seq<(String, Json)>) -> Seq<EventView> {
    v.map_values(|e: (String, Json)| (e.0@, e.1@))
}

fn push_event(events: &mut Vec<(String, Json)>, name: &str, data: Json)
    ensures
        events_view(final(events)@) == events_view(old(events)@).push((name@, data@)),
{
    events.push((owned(name), data));
    assert(events_view(events@) =~= events_view(old(events)@).push((name@, data@)));
}

/// How far an answer has been turned into Anthropic events: whether it was
/// announced, the next free block index, the text block, and the block of each
/// tool call.
#[derive(Debug)]
pub struct ClaudeStreamState {
    pub message_start_sent: bool,
    pub next_block_index: u64,
    pub text_block_index: u64,
    pub text_block_started: bool,
    pub tool_calls: IndexTable,
}

/// What a `ClaudeStreamState` stands for.
pub struct ClaudeStream {
    pub started: bool,
    pub next: u64,
    pub text: Option<u64>,
    pub tools: Pairs,
}

impl View for ClaudeStreamState {
    type V = ClaudeStream;

    open spec fn view(&self) -> ClaudeStream {
        ClaudeStream {
            started: self.message_start_sent,
            next: self.next_block_index,
            text: if self.text_block_started {
                Some(self.text_block_index)
            } else {
                None
            },
            tools: self.tool_calls@,
        }
    }
}

/// Nothing announced, no block open.
pub open spec fn claude_stream_start() -> ClaudeStream {
    ClaudeStream { started: false, next: 0, text: None, tools: Pairs::empty() }
}

impl ClaudeStreamState {
    pub fn new() -> (r: ClaudeStreamState)
        ensures
            r@ == claude_stream_start(),
            r.text_block_index == 0,
    {
        ClaudeStreamState {
            message_start_sent: false,
            next_block_index: 0,
            text_block_index: 0,
            text_block_started: false,
            tool_calls: IndexTable::new(),
        }
    }
}

/// The next number, which wraps around.
pub open spec fn succ(n: u64) -> u64 {
    if n == u64::MAX {
        0
    } else {
        (n + 1) as u64
    }
}

/// The event that announces an answer.
pub open spec fn message_start(chunk: JsonView) -> EventView {
    let id = chunk.at("id"@).str_or_empty();
    let usage = obj().put("input_tokens"@, JsonView::Int(0)).put("output_tokens"@, JsonView::Int(0));
    let message = obj().put("id"@, text(if id.len() > 0 { id } else { "msg_unknown"@ })).put(
        "type"@,
        text("message"@),
    ).put("role"@, text("assistant"@)).put("model"@, text(chunk.at("model"@).str_or("unknown"@))).put(
        "content"@,
        JsonView::Array(seq![]),
    ).put("stop_reason"@, JsonView::Null).put("stop_sequence"@, JsonView::Null).put(
        "usage"@,
        usage,
    );
    ("message_start"@, obj().put("type"@, text("message_start"@)).put("message"@, message))
}

/// The event that opens a block.
pub open spec fn block_start(index: u64, block: JsonView) -> EventView {
    (
        "content_block_start"@,
        obj().put("type"@, text("content_block_start"@)).put(
            "index"@,
            JsonView::Int(index as int),
        ).put("content_block"@, block),
    )
}

/// The event that adds to a block.
pub open spec fn block_delta(index: u64, delta: JsonView) -> EventView {
    (
        "content_block_delta"@,
        obj().put("type"@, text("content_block_delta"@)).put(
            "index"@,
            JsonView::Int(index as int),
        ).put("delta"@, delta),
    )
}

/// The event that closes a block.
pub open spec fn block_stop(index: u64) -> EventView {
    (
        "content_block_stop"@,
        obj().put("type"@, text("content_block_stop"@)).put("index"@, JsonView::Int(index as int)),
    )
}

fn push_block_start(events: &mut Vec<(String, Json)>, index: u64, block: Json)
    ensures
        events_view(final(events)@) == events_view(old(events)@).push(block_start(index, block@)),
{
    push_event(
        events,
        "content_block_start",
        Json::object().with("type", Json::text("content_block_start")).with(
            "index",
            Json::unsigned(index),
        ).with("content_block", block),
    );
}

fn push_block_delta(events: &mut Vec<(String, Json)>, index: u64, delta: Json)
    ensures
        events_view(final(events)@) == events_view(old(events)@).push(block_delta(index, delta@)),
{
    push_event(
        events,
        "content_block_delta",
        Json::object().with("type", Json::text("content_block_delta")).with(
            "index",
            Json::unsigned(index),
        ).with("delta", delta),
    );
}

fn push_block_stop(events: &mut Vec<(String, Json)>, index: u64)
    ensures
        events_view(final(events)@) == events_view(old(events)@).push(block_stop(index)),
{
    push_event(
        events,
        "content_block_stop",
        Json::object().with("type", Json::text("content_block_stop")).with(
            "index",
            Json::unsigned(index),
        ),
    );
}

/// Events so far, and the state behind them.
pub struct ClaudeStep {
    pub events: Seq<EventView>,
    pub state: ClaudeStream,
}

/// The announcement, before anything else of an answer.
pub open spec fn announce(chunk: JsonView, s: ClaudeStream) -> ClaudeStep {
    if s.started {
        ClaudeStep { events: seq![], state: s }
    } else {
        ClaudeStep {
            events: seq![message_start(chunk)],
            state: ClaudeStream { started: true, ..s },
        }
    }
}

/// The block of an empty text.
pub open spec fn empty_text_block() -> JsonView {
    obj().put("type"@, text("text"@)).put("text"@, text(""@))
}

/// More text: the text block is opened where it was not.
pub open spec fn speak(t: Seq<char>, step: ClaudeStep) -> ClaudeStep {
    let s = step.state;
    let delta = obj().put("type"@, text("text_delta"@)).put("text"@, text(t));
    if t.len() == 0 {
        step
    } else {
        match s.text {
            Some(i) => ClaudeStep { events: step.events.push(block_delta(i, delta)), state: s },
            None => ClaudeStep {
                events: step.events.push(block_start(s.next, empty_text_block())).push(
                    block_delta(s.next, delta),
                ),
                state: ClaudeStream { text: Some(s.next), next: succ(s.next), ..s },
            },
        }
    }
}

/// The block of a tool call whose input is still to come.
pub open spec fn tool_block(id: Seq<char>, tc: JsonView) -> JsonView {
    obj().put("type"@, text("tool_use"@)).put("id"@, text(id)).put(
        "name"@,
        text(tc.at("function"@).at("name"@).str_or_empty()),
    ).put("input"@, obj())
}

/// The number of a tool call.
pub open spec fn call_index(tc: JsonView) -> u64 {
    tc.at("index"@).uint64_or_zero() as u64
}

/// A tool call with an id opens a block where its number has none.
pub open spec fn open_tool(tc: JsonView, step: ClaudeStep) -> ClaudeStep {
    let s = step.state;
    match tc.at("id"@).str() {
        Some(id) if entry(s.tools, call_index(tc)) is None => ClaudeStep {
            events: step.events.push(block_start(s.next, tool_block(id, tc))),
            state: ClaudeStream {
                next: succ(s.next),
                tools: entered(s.tools, call_index(tc), s.next),
                ..s
            },
        },
        _ => step,
    }
}

/// Arguments go to the block of their tool call, where there is one.
pub open spec fn feed_tool(tc: JsonView, step: ClaudeStep) -> ClaudeStep {
    match (tc.at("function"@).at("arguments"@).str(), entry(step.state.tools, call_index(tc))) {
        (Some(args), Some(block)) => ClaudeStep {
            events: step.events.push(
                block_delta(
                    block,
                    obj().put("type"@, text("input_json_delta"@)).put("partial_json"@, text(args)),
                ),
            ),
            state: step.state,
        },
        _ => step,
    }
}

/// The tool calls of a chunk, one behind the other.
pub open spec fn call_tools(calls: Seq<JsonView>, step: ClaudeStep) -> ClaudeStep
    decreases calls.len(),
{
    if calls.len() == 0 {
        step
    } else {
        let before = call_tools(calls.drop_last(), step);
        feed_tool(calls.last(), open_tool(calls.last(), before))
    }
}

/// The events that close the blocks of the tool calls, in order of the calls.
pub open spec fn tool_stops(tools: Pairs) -> Seq<EventView> {
    tools.map_values(|p: (u64, u64)| block_stop(p.1))
}

/// The events that end an answer: every open block is closed, then come the
/// reason, the token counts, and the end.
pub open spec fn farewell(finish: Seq<char>, chunk: JsonView, s: ClaudeStream) -> Seq<EventView> {
    let stops = (match s.text {
        Some(i) => seq![block_stop(i)],
        None => seq![],
    }) + tool_stops(s.tools);
    let delta = obj().put("stop_reason"@, text(stop_reason(finish))).put(
        "stop_sequence"@,
        JsonView::Null,
    );
    stops.push(
        (
            "message_delta"@,
            obj().put("type"@, text("message_delta"@)).put("delta"@, delta).put(
                "usage"@,
                claude_usage(chunk),
            ),
        ),
    ).push(("message_stop"@, obj().put("type"@, text("message_stop"@))))
}

/// The Anthropic events that one `chat.completion.chunk` becomes, and the state
/// behind them.
pub open spec fn claude_events(chunk: JsonView, s: ClaudeStream) -> ClaudeStep {
    match chunk.at("choices"@).first() {
        None => ClaudeStep { events: seq![], state: s },
        Some(choice) => {
            let delta = choice.at("delta"@);
            let said = speak(delta.at("content"@).str_or_empty(), announce(chunk, s));
            let called = call_tools(delta.at("tool_calls"@).items(), said);
            match choice.at("finish_reason"@).str() {
                Some(finish) => ClaudeStep {
                    events: called.events + farewell(finish, chunk, called.state),
                    state: called.state,
                },
                None => called,
            }
        },
    }
}

fn push_message_start(events: &mut Vec<(String, Json)>, chunk: &Json)
    ensures
        events_view(final(events)@) == events_view(old(events)@).push(message_start(chunk@)),
{
    proof {
        reveal_strlit("");
    }
    let given = chunk.at("id").str_or_empty();
    let id = if given.is_empty() {
        "msg_unknown"
    } else {
        given
    };
    let none: Vec<Json> = Vec::new();
    assert(items_view(none@) =~= seq![]);
    let usage = Json::object().with("input_tokens", Json::signed(0)).with(
        "output_tokens",
        Json::signed(0),
    );
    let message = Json::object().with("id", Json::text(id)).with(
        "type",
        Json::text("message"),
    ).with("role", Json::text("assistant")).with(
        "model",
        Json::text(chunk.at("model").str_or("unknown")),
    ).with("content", Json::array(none)).with("stop_reason", Json::Null).with(
        "stop_sequence",
        Json::Null,
    ).with("usage", usage);
    push_event(
        events,
        "message_start",
        Json::object().with("type", Json::text("message_start")).with("message", message),
    );
}

fn push_text(events: &mut Vec<(String, Json)>, t: &str, state: &mut ClaudeStreamState)
    ensures
        (ClaudeStep { events: events_view(final(events)@), state: final(state)@ }) == speak(
            t@,
            (ClaudeStep { events: events_view(old(events)@), state: old(state)@ }),
        ),
{
    if !t.is_empty() {
        if !state.text_block_started {
            state.text_block_index = state.next_block_index;
            state.next_block_index = state.next_block_index.wrapping_add(1);
            state.text_block_started = true;
            push_block_start(
                events,
                state.text_block_index,
                Json::object().with("type", Json::text("text")).with("text", Json::text("")),
            );
        }
        push_block_delta(
            events,
            state.text_block_index,
            Json::object().with("type", Json::text("text_delta")).with("text", Json::text(t)),
        );
    }
}

fn push_tool(events: &mut Vec<(String, Json)>, tc: &Json, state: &mut ClaudeStreamState)
    ensures
        (ClaudeStep { events: events_view(final(events)@), state: final(state)@ }) == feed_tool(
            tc@,
            open_tool(
                tc@,
                (ClaudeStep { events: events_view(old(events)@), state: old(state)@ }),
            ),
        ),
{
    let index: u64 = tc.at("index").u64_or_zero();
    match tc.at("id").as_str() {
        Some(id) => {
            if state.tool_calls.get(index).is_none() {
                let block: u64 = state.next_block_index;
                state.next_block_index = block.wrapping_add(1);
                state.tool_calls.set(index, block);
                push_block_start(
                    events,
                    block,
                    Json::object().with("type", Json::text("tool_use")).with(
                        "id",
                        Json::text(id),
                    ).with("name", Json::text(tc.at("function").at("name").str_or_empty())).with(
                        "input",
                        Json::object(),
                    ),
                );
            }
        },
        None => {},
    }
    match tc.at("function").at("arguments").as_str() {
        Some(args) => {
            match state.tool_calls.get(index) {
                Some(block) => {
                    push_block_delta(
                        events,
                        block,
                        Json::object().with("type", Json::text("input_json_delta")).with(
                            "partial_json",
                            Json::text(args),
                        ),
                    );
                },
                None => {},
            }
        },
        None => {},
    }
}

fn push_farewell(
    events: &mut Vec<(String, Json)>,
    finish: &str,
    chunk: &Json,
    state: &ClaudeStreamState,
)
    ensures
        events_view(final(events)@) == events_view(old(events)@) + farewell(
            finish@,
            chunk@,
            state@,
        ),
{
    let ghost start = events_view(events@);
    let ghost texts = match state@.text {
        Some(i) => seq![block_stop(i)],
        None => seq![],
    };
    if state.text_block_started {
        push_block_stop(events, state.text_block_index);
    }
    assert(events_view(events@) =~= start + texts);
    let blocks = state.tool_calls.values();
    let mut i: usize = 0;
    while i < blocks.len()
        invariant
            i <= blocks.len(),
            blocks@ == state.tool_calls@.map_values(|p: (u64, u64)| p.1),
            events_view(events@) =~= start + texts + tool_stops(
                state.tool_calls@.subrange(0, i as int),
            ),
        decreases blocks.len() - i,
    {
        push_block_stop(events, blocks[i]);
        i += 1;
    }
    assert(state.tool_calls@.subrange(0, i as int) =~= state.tool_calls@);
    let delta = Json::object().with(
        "stop_reason",
        Json::text(finish_to_stop_reason(finish)),
    ).with("stop_sequence", Json::Null);
    push_event(
        events,
        "message_delta",
        Json::object().with("type", Json::text("message_delta")).with("delta", delta).with(
            "usage",
            usage_from(chunk),
        ),
    );
    push_event(
        events,
        "message_stop",
        Json::object().with("type", Json::text("message_stop")),
    );
    assert(events_view(events@) =~= start + farewell(finish@, chunk@, state@));
}

/// Converts one OpenAI `chat.completion.chunk` into the Anthropic Messages
/// events that it stands for, each with its name and its data.
pub fn openai_chunk_to_claude_events(chunk: &Json, state: &mut ClaudeStreamState) -> (r: Vec<
    (String, Json),
>)
    ensures
        (ClaudeStep { events: events_view(r@), state: final(state)@ }) == claude_events(
            chunk@,
            old(state)@,
        ),
{
    let ghost s = state@;
    let mut events: Vec<(String, Json)> = Vec::new();
    assert(events_view(events@) =~= seq![]);
    let choice = match chunk.at("choices").first() {
        Some(c) => c,
        None => {
            return events;
        },
    };
    let delta = choice.at("delta");
    if !state.message_start_sent {
        state.message_start_sent = true;
        push_message_start(&mut events, chunk);
    }
    assert(ClaudeStep { events: events_view(events@), state: state@ }.events =~= announce(
        chunk@,
        s,
    ).events);
    proof {
        reveal_strlit("");
    }
    push_text(&mut events, delta.at("content").str_or_empty(), state);
    let ghost said = ClaudeStep { events: events_view(events@), state: state@ };
    let ghost all = delta@.at("tool_calls"@).items();
    match delta.at("tool_calls").as_array() {
        Some(calls) => {
            let mut i: usize = 0;
            assert(all.subrange(0, 0) =~= seq![]);
            while i < calls.len()
                invariant
                    i <= calls.len(),
                    all == items_view(calls@),
                    (ClaudeStep { events: events_view(events@), state: state@ }) == call_tools(
                        all.subrange(0, i as int),
                        said,
                    ),
                decreases calls.len() - i,
            {
                assert(all.subrange(0, i + 1).drop_last() =~= all.subrange(0, i as int));
                assert(all.subrange(0, i + 1).last() == calls@[i as int]@);
                push_tool(&mut events, &calls[i], state);
                i += 1;
            }
            assert(all.subrange(0, i as int) =~= all);
        },
        None => {
            assert(all =~= seq![]);
        },
    }
    match choice.at("finish_reason").as_str() {
        Some(finish) => {
            push_farewell(&mut events, finish, chunk, state);
        },
        None => {},
    }
    events
}

// ---------------------------------------------------------------------------
// Anthropic events -> OpenAI chunks
// ---------------------------------------------------------------------------

/// A block of text, in the table of block kinds.
pub const TEXT_BLOCK: u64 = 0;

/// A block of a tool call, in the table of block kinds.
pub const TOOL_BLOCK: u64 = 1;

/// How far an answer has been turned into OpenAI chunks: its id and model, the
/// kind of each block, and the number of each block's tool call.
#[derive(Debug)]
pub struct OpenAiStreamState {
    pub id: String,
    pub model: String,
    pub block_kinds: IndexTable,
    pub tool_openai_index: IndexTable,
    pub next_tool_index: u64,
}

/// What an `OpenAiStreamState` stands for.
pub struct OpenAiStream {
    pub id: Seq<char>,
    pub model: Seq<char>,
    pub kinds: Pairs,
    pub tools: Pairs,
    pub next: u64,
}

impl View for OpenAiStreamState {
    type V = OpenAiStream;

    open spec fn view(&self) -> OpenAiStream {
        OpenAiStream {
            id: self.id@,
            model: self.model@,
            kinds: self.block_kinds@,
            tools: self.tool_openai_index@,
            next: self.next_tool_index,
        }
    }
}

/// Nothing known yet.
pub open spec fn openai_stream_start() -> OpenAiStream {
    OpenAiStream {
        id: seq![],
        model: seq![],
        kinds: Pairs::empty(),
        tools: Pairs::empty(),
        next: 0,
    }
}

impl OpenAiStreamState {
    pub fn new() -> (r: OpenAiStreamState)
        ensures
            r@ == openai_stream_start(),
    {
        OpenAiStreamState {
            id: String::new(),
            model: String::new(),
            block_kinds: IndexTable::new(),
            tool_openai_index: IndexTable::new(),
            next_tool_index: 0,
        }
    }
}

/// A `chat.completion.chunk` with one choice.
pub open spec fn openai_chunk(s: OpenAiStream, delta: JsonView, finish: Option<Seq<char>>) -> JsonView {
    let choice = obj().put("index"@, JsonView::Int(0)).put("delta"@, delta).put(
        "finish_reason"@,
        text_or_null(finish),
    );
    obj().put("id"@, text(s.id)).put("object"@, text("chat.completion.chunk"@)).put(
        "model"@,
        text(s.model),
    ).put("choices"@, JsonView::Array(seq![choice]))
}

fn openai_chunk_of(state: &OpenAiStreamState, delta: Json, finish: Option<&str>) -> (r: Json)
    ensures
        r@ == openai_chunk(
            state@,
            delta@,
            match finish {
                Some(f) => Some(f@),
                None => None,
            },
        ),
{
    let finish = match finish {
        Some(f) => Json::text(f),
        None => Json::Null,
    };
    let choice = Json::object().with("index", Json::signed(0)).with("delta", delta).with(
        "finish_reason",
        finish,
    );
    Json::object().with("id", Json::text(state.id.as_str())).with(
        "object",
        Json::text("chat.completion.chunk"),
    ).with("model", Json::text(state.model.as_str())).with("choices", Json::array1(choice))
}

/// The delta that opens a tool call.
pub open spec fn tool_delta(number: u64, block: JsonView) -> JsonView {
    let function = obj().put("name"@, block.at("name"@)).put("arguments"@, text(""@));
    let call = obj().put("index"@, JsonView::Int(number as int)).put("id"@, block.at("id"@)).put(
        "type"@,
        text("function"@),
    ).put("function"@, function);
    obj().put("tool_calls"@, JsonView::Array(seq![call]))
}

/// The delta that adds arguments to a tool call.
pub open spec fn arguments_delta(number: u64, args: Seq<char>) -> JsonView {
    let call = obj().put("index"@, JsonView::Int(number as int)).put(
        "function"@,
        obj().put("arguments"@, text(args)),
    );
    obj().put("tool_calls"@, JsonView::Array(seq![call]))
}

/// The number of the block that an event speaks of.
pub open spec fn block_index(data: JsonView) -> u64 {
    data.at("index"@).uint64_or_zero() as u64
}

/// The chunk that one Anthropic event becomes, where it becomes any, and the
/// state behind it.
pub open spec fn openai_event(event: Seq<char>, data: JsonView, s: OpenAiStream) -> (
    Option<JsonView>,
    OpenAiStream,
) {
    if event == "message_start"@ {
        let message = data.at("message"@);
        let id = message.at("id"@).str_or_empty();
        let t = OpenAiStream {
            id: if id.len() > 0 { id } else { "msg_unknown"@ },
            model: message.at("model"@).str_or("unknown"@),
            ..s
        };
        let delta = obj().put("role"@, text("assistant"@)).put("content"@, text(""@));
        (Some(openai_chunk(t, delta, None)), t)
    } else if event == "content_block_start"@ {
        let block = data.at("content_block"@);
        if block.at("type"@).str() == Some("tool_use"@) {
            let t = OpenAiStream {
                kinds: entered(s.kinds, block_index(data), TOOL_BLOCK),
                tools: entered(s.tools, block_index(data), s.next),
                next: succ(s.next),
                ..s
            };
            (Some(openai_chunk(t, tool_delta(s.next, block), None)), t)
        } else {
            (None, OpenAiStream { kinds: entered(s.kinds, block_index(data), TEXT_BLOCK), ..s })
        }
    } else if event == "content_block_delta"@ {
        let delta = data.at("delta"@);
        if entry(s.kinds, block_index(data)) == Some(TOOL_BLOCK) {
            let number = match entry(s.tools, block_index(data)) {
                Some(n) => n,
                None => 0,
            };
            let args = delta.at("partial_json"@).str_or_empty();
            (Some(openai_chunk(s, arguments_delta(number, args), None)), s)
        } else {
            let said = delta.at("text"@).str_or_empty();
            if said.len() == 0 {
                (None, s)
            } else {
                (Some(openai_chunk(s, obj().put("content"@, text(said)), None)), s)
            }
        }
    } else if event == "message_delta"@ {
        let finish = if s.tools.len() > 0 {
            "tool_calls"@
        } else {
            finish_reason(data.at("delta"@).at("stop_reason"@).str_or("end_turn"@))
        };
        let chunk = openai_chunk(s, obj(), Some(finish));
        match data.field("usage"@) {
            Some(u) => (Some(chunk.put("usage"@, openai_usage(obj().put("usage"@, u)))), s),
            None => (Some(chunk), s),
        }
    } else {
        (None, s)
    }
}

fn start_message(data: &Json, state: &mut OpenAiStreamState) -> (r: Option<Json>)
    ensures
        (crate::json::opt_of(r), final(state)@) == openai_event(
            "message_start"@,
            data@,
            old(state)@,
        ),
{
    proof {
        reveal_strlit("");
    }
    let message = data.at("message");
    let id = message.at("id").str_or_empty();
    state.id = if id.is_empty() {
        owned("msg_unknown")
    } else {
        owned(id)
    };
    state.model = owned(message.at("model").str_or("unknown"));
    let delta = Json::object().with("role", Json::text("assistant")).with(
        "content",
        Json::text(""),
    );
    Some(openai_chunk_of(state, delta, None))
}

fn start_block(data: &Json, state: &mut OpenAiStreamState) -> (r: Option<Json>)
    ensures
        (crate::json::opt_of(r), final(state)@) == openai_event(
            "content_block_start"@,
            data@,
            old(state)@,
        ),
{
    proof {
        lemma_event_names();
    }
    let index: u64 = data.at("index").u64_or_zero();
    let block = data.at("content_block");
    if block.at("type").is_text("tool_use") {
        state.block_kinds.set(index, TOOL_BLOCK);
        let number: u64 = state.next_tool_index;
        state.next_tool_index = number.wrapping_add(1);
        state.tool_openai_index.set(index, number);
        let function = Json::object().with("name", block.at("name").copy()).with(
            "arguments",
            Json::text(""),
        );
        let call = Json::object().with("index", Json::unsigned(number)).with(
            "id",
            block.at("id").copy(),
        ).with("type", Json::text("function")).with("function", function);
        let delta = Json::object().with("tool_calls", Json::array1(call));
        Some(openai_chunk_of(state, delta, None))
    } else {
        state.block_kinds.set(index, TEXT_BLOCK);
        None
    }
}

fn extend_block(data: &Json, state: &OpenAiStreamState) -> (r: Option<Json>)
    ensures
        (crate::json::opt_of(r), state@) == openai_event("content_block_delta"@, data@, state@),
{
    proof {
        reveal_strlit("");
        lemma_event_names();
    }
    let index: u64 = data.at("index").u64_or_zero();
    let given = data.at("delta");
    let is_tool = match state.block_kinds.get(index) {
        Some(kind) => kind == TOOL_BLOCK,
        None => false,
    };
    if is_tool {
        let number: u64 = match state.tool_openai_index.get(index) {
            Some(n) => n,
            None => 0,
        };
        let call = Json::object().with("index", Json::unsigned(number)).with(
            "function",
            Json::object().with("arguments", Json::text(given.at("partial_json").str_or_empty())),
        );
        let delta = Json::object().with("tool_calls", Json::array1(call));
        Some(openai_chunk_of(state, delta, None))
    } else {
        let said = given.at("text").str_or_empty();
        if said.is_empty() {
            None
        } else {
            Some(
                openai_chunk_of(state, Json::object().with("content", Json::text(said)), None),
            )
        }
    }
}

fn finish_message(data: &Json, state: &OpenAiStreamState) -> (r: Option<Json>)
    ensures
        (crate::json::opt_of(r), state@) == openai_event("message_delta"@, data@, state@),
{
    proof {
        lemma_event_names();
    }
    let finish = if !state.tool_openai_index.is_empty() {
        "tool_calls"
    } else {
        stop_reason_to_finish(data.at("delta").at("stop_reason").str_or("end_turn"))
    };
    let chunk = openai_chunk_of(state, Json::object(), Some(finish));
    match data.get("usage") {
        Some(u) => {
            let counts = Json::object().with("usage", u.copy());
            Some(chunk.with("usage", openai_usage_from_claude(&counts)))
        },
        None => Some(chunk),
    }
}

/// The names of the Anthropic events differ.
pub proof fn lemma_event_names()
    ensures
        "message_start"@ != "content_block_start"@,
        "message_start"@ != "content_block_delta"@,
        "message_start"@ != "content_block_stop"@,
        "message_start"@ != "message_delta"@,
        "message_start"@ != "message_stop"@,
        "content_block_start"@ != "content_block_delta"@,
        "content_block_start"@ != "content_block_stop"@,
        "content_block_start"@ != "message_delta"@,
        "content_block_start"@ != "message_stop"@,
        "content_block_delta"@ != "content_block_stop"@,
        "content_block_delta"@ != "message_delta"@,
        "content_block_delta"@ != "message_stop"@,
        "content_block_stop"@ != "message_delta"@,
        "content_block_stop"@ != "message_stop"@,
        "message_delta"@ != "message_stop"@,
{
    reveal_strlit("message_start");
    reveal_strlit("content_block_start");
    reveal_strlit("content_block_delta");
    reveal_strlit("content_block_stop");
    reveal_strlit("message_delta");
    reveal_strlit("message_stop");
    assert("message_start"@.len() == 13 && "message_start"@[8] == 's');
    assert("content_block_start"@.len() == 19 && "content_block_start"@[14] == 's');
    assert("content_block_delta"@.len() == 19 && "content_block_delta"@[14] == 'd');
    assert("content_block_stop"@.len() == 18);
    assert("message_delta"@.len() == 13 && "message_delta"@[8] == 'd');
    assert("message_stop"@.len() == 12);
}

/// Converts one Anthropic Messages event into the OpenAI
/// `chat.completion.chunk` that it stands for, where it stands for any.
pub fn claude_event_to_openai_chunk(
    event_type: &str,
    data: &Json,
    state: &mut OpenAiStreamState,
) -> (r: Option<Json>)
    ensures
        (crate::json::opt_of(r), final(state)@) == openai_event(event_type@, data@, old(state)@),
{
    if same(event_type, "message_start") {
        start_message(data, state)
    } else if same(event_type, "content_block_start") {
        start_block(data, state)
    } else if same(event_type, "content_block_delta") {
        extend_block(data, state)
    } else if same(event_type, "message_delta") {
        finish_message(data, state)
    } else {
        None
    }
}

} // verus!
