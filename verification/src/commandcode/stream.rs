//! Command Code's events as Chat Completions, whole and streamed.
use vstd::prelude::*;

use crate::bytes::{read_piece, read_rest, read_text, whole};
use crate::clock::{fresh_uuid, now_secs};
use crate::codex::claude_message::{openai_counts, openai_counts_of};
use crate::codex::sse_bridge::opt_text;
use crate::codex::transform::{chat_chunk, chat_chunk_of, ChunkStream};
use crate::commandcode::transform::{body_events, events, line_event, parse_event_line};
use crate::json::{items_view, obj, opt_of, printed, push_item, text, Json, JsonView};
use crate::sse::{chunk_block, chunk_block_of, SSE_DONE};
use crate::text::{
    chars_of, concat2, find_from, find_in, lemma_find_is_occurs, owned, string_of,
};

verus! {

/// What the chunks of an answer share, once there is one, and whether it
/// called a tool.
#[derive(Debug)]
pub struct ChunkState {
    pub id: String,
    pub created: i64,
    pub saw_tool_call: bool,
}

impl View for ChunkState {
    type V = ChunkStream;

    open spec fn view(&self) -> ChunkStream {
        ChunkStream { id: self.id@, created: self.created as int, called: self.saw_tool_call }
    }
}

/// The state before the first event.
pub open spec fn fresh_state() -> ChunkStream {
    ChunkStream { id: seq![], created: 0, called: false }
}

impl Default for ChunkState {
    fn default() -> (r: ChunkState)
        ensures
            r@ == fresh_state(),
    {
        ChunkState { id: String::new(), created: 0, saw_tool_call: false }
    }
}

/// The id and the time that an answer gets when its first chunk is made.
pub struct Stamp {
    pub id: String,
    pub created: i64,
}

/// What a `Stamp` stands for.
pub struct StampView {
    pub id: Seq<char>,
    pub created: int,
}

impl View for Stamp {
    type V = StampView;

    open spec fn view(&self) -> StampView {
        StampView { id: self.id@, created: self.created as int }
    }
}

/// An id of the form that the library gives out.
pub open spec fn is_completion_id(id: Seq<char>) -> bool {
    exists|unique: Seq<char>| unique.len() == 36 && id == "chatcmpl-"@ + unique
}

/// A new id, and the time.
pub fn fresh_stamp() -> (r: Stamp)
    ensures
        is_completion_id(r@.id),
{
    let unique = fresh_uuid();
    Stamp { id: concat2("chatcmpl-", unique.as_str()), created: now_secs() }
}

/// The state with an id and a time: its own, or else the stamp's.
pub open spec fn stamped(s: ChunkStream, stamp: StampView) -> ChunkStream {
    if s.id.len() == 0 {
        ChunkStream { id: stamp.id, created: stamp.created, ..s }
    } else {
        s
    }
}

impl ChunkState {
    fn ensure_metadata(&mut self, stamp: &Stamp)
        ensures
            final(self)@ == stamped(old(self)@, stamp@),
    {
        if self.id.as_str().is_empty() {
            self.id = owned(stamp.id.as_str());
            self.created = stamp.created;
        }
    }
}

/// The Chat Completions finish reason for Command Code's.
pub open spec fn chat_finish(reason: Option<Seq<char>>) -> Seq<char> {
    if reason == Some("length"@) || reason == Some("max_tokens"@) || reason == Some("max-tokens"@)
        || reason == Some("max_output_tokens"@) {
        "length"@
    } else if reason == Some("tool-calls"@) {
        "tool_calls"@
    } else {
        "stop"@
    }
}

fn finish_reason(reason: &Json) -> (r: &'static str)
    ensures
        r@ == chat_finish(reason@.str()),
{
    if reason.is_text("length") || reason.is_text("max_tokens") || reason.is_text("max-tokens")
        || reason.is_text("max_output_tokens") {
        "length"
    } else if reason.is_text("tool-calls") {
        "tool_calls"
    } else {
        "stop"
    }
}

/// The Chat Completions token counts for Command Code's.
pub open spec fn chat_usage(value: JsonView) -> JsonView {
    openai_counts(
        value.at("inputTokens"@).int64_or_zero(),
        value.at("outputTokens"@).int64_or_zero(),
        value.at("inputTokenDetails"@).at("cacheReadTokens"@).int64_or_zero(),
    )
}

fn usage(value: &Json) -> (r: Json)
    ensures
        r@ == chat_usage(value@),
{
    openai_counts_of(
        value.at("inputTokens").i64_or_zero(),
        value.at("outputTokens").i64_or_zero(),
        value.at("inputTokenDetails").at("cacheReadTokens").i64_or_zero(),
    )
}

/// The tool call that an event makes, in the order of its members that both
/// forms of an answer share.
pub open spec fn event_call(event: JsonView) -> JsonView {
    let function = obj().put("name"@, event.at("toolName"@)).put(
        "arguments"@,
        text(printed(event.at("input"@))),
    );
    obj().put("id"@, event.at("toolCallId"@)).put("type"@, text("function"@)).put(
        "function"@,
        function,
    )
}

fn event_call_of(event: &Json) -> (r: Json)
    ensures
        r@ == event_call(event@),
{
    let function = Json::object().with("name", event.at("toolName").copy()).with(
        "arguments",
        Json::Str(event.at("input").print()),
    );
    Json::object().with("id", event.at("toolCallId").copy()).with(
        "type",
        Json::text("function"),
    ).with("function", function)
}

/// The chunk that one event becomes, where it becomes any, and the state
/// behind it.
pub open spec fn chunk_for(s: ChunkStream, event: JsonView, model: Seq<char>, stamp: StampView) -> (
    Option<JsonView>,
    ChunkStream,
) {
    let kind = event.at("type"@).str();
    let t = stamped(s, stamp);
    if kind == Some("text-delta"@) {
        let delta = obj().put("content"@, text(event.at("text"@).str_or_empty()));
        (Some(chat_chunk(t, model, delta, None)), t)
    } else if kind == Some("reasoning-delta"@) {
        let delta = obj().put("reasoning_content"@, text(event.at("text"@).str_or_empty()));
        (Some(chat_chunk(t, model, delta, None)), t)
    } else if kind == Some("tool-call"@) {
        let u = ChunkStream { called: true, ..t };
        let call = event_call(event).put("index"@, JsonView::Int(0));
        let delta = obj().put("tool_calls"@, JsonView::Array(seq![call]));
        (Some(chat_chunk(u, model, delta, None)), u)
    } else if kind == Some("finish"@) {
        let given = event.at("finishReason"@).str();
        let reason = if given is None && s.called {
            "tool_calls"@
        } else {
            chat_finish(given)
        };
        let chunk = chat_chunk(t, model, obj(), Some(reason));
        match event.field("totalUsage"@) {
            Some(u) => (Some(chunk.put("usage"@, chat_usage(u))), t),
            None => (Some(chunk), t),
        }
    } else {
        (None, s)
    }
}

/// Converts one event into the Chat Completions chunk that it stands for,
/// where it stands for any. The first chunk takes its id and time from
/// `stamp`.
pub fn chat_chunk_with(state: &mut ChunkState, event: &Json, model: &str, stamp: &Stamp) -> (r:
    Option<Json>)
    ensures
        (opt_of(r), final(state)@) == chunk_for(old(state)@, event@, model@, stamp@),
{
    let kind = event.at("type");
    if kind.is_text("text-delta") {
        state.ensure_metadata(stamp);
        let delta = Json::object().with("content", Json::text(event.at("text").str_or_empty()));
        Some(chat_chunk_of(state.id.as_str(), state.created, model, delta, None))
    } else if kind.is_text("reasoning-delta") {
        state.ensure_metadata(stamp);
        let delta = Json::object().with(
            "reasoning_content",
            Json::text(event.at("text").str_or_empty()),
        );
        Some(chat_chunk_of(state.id.as_str(), state.created, model, delta, None))
    } else if kind.is_text("tool-call") {
        state.saw_tool_call = true;
        state.ensure_metadata(stamp);
        let call = event_call_of(event).with("index", Json::signed(0));
        let delta = Json::object().with("tool_calls", Json::array1(call));
        Some(chat_chunk_of(state.id.as_str(), state.created, model, delta, None))
    } else if kind.is_text("finish") {
        let given = event.at("finishReason");
        let reason = if given.as_str().is_none() && state.saw_tool_call {
            "tool_calls"
        } else {
            finish_reason(given)
        };
        state.ensure_metadata(stamp);
        let chunk = chat_chunk_of(
            state.id.as_str(),
            state.created,
            model,
            Json::object(),
            Some(reason),
        );
        match event.get("totalUsage") {
            Some(u) => Some(chunk.with("usage", usage(u))),
            None => Some(chunk),
        }
    } else {
        None
    }
}

/// Converts one event into the Chat Completions chunk that it stands for,
/// where it stands for any. The first chunk gets a new id.
pub fn chat_chunk_for_event(state: &mut ChunkState, event: &Json, model: &str) -> (r: Option<Json>)
    ensures
        exists|stamp: StampView|
            is_completion_id(stamp.id) && (opt_of(r), final(state)@) == #[trigger] chunk_for(
                old(state)@,
                event@,
                model@,
                stamp,
            ),
{
    let stamp = fresh_stamp();
    chat_chunk_with(state, event, model, &stamp)
}

// ---------------------------------------------------------------------------
// A whole answer
// ---------------------------------------------------------------------------

/// What the events of an answer have said so far.
pub struct Gathered {
    pub content: Seq<char>,
    pub reasoning: Seq<char>,
    pub finish: Seq<char>,
    pub usage: Option<JsonView>,
    pub calls: Seq<JsonView>,
}

/// What events say, one behind the other.
pub open spec fn gather(events: Seq<JsonView>) -> Gathered
    decreases events.len(),
{
    if events.len() == 0 {
        Gathered {
            content: seq![],
            reasoning: seq![],
            finish: "stop"@,
            usage: None,
            calls: seq![],
        }
    } else {
        let g = gather(events.drop_last());
        let e = events.last();
        let kind = e.at("type"@).str();
        if kind == Some("text-delta"@) {
            Gathered { content: g.content + e.at("text"@).str_or_empty(), ..g }
        } else if kind == Some("reasoning-delta"@) {
            Gathered { reasoning: g.reasoning + e.at("text"@).str_or_empty(), ..g }
        } else if kind == Some("tool-call"@) {
            Gathered { calls: g.calls.push(event_call(e)), ..g }
        } else if kind == Some("finish"@) {
            Gathered {
                finish: chat_finish(e.at("finishReason"@).str()),
                usage: match e.field("totalUsage"@) {
                    Some(u) => Some(chat_usage(u)),
                    None => g.usage,
                },
                ..g
            }
        } else {
            g
        }
    }
}

/// The `chat.completion` that the events of an answer make.
pub open spec fn completion(events: Seq<JsonView>, model: Seq<char>, id: Seq<char>) -> JsonView {
    let g = gather(events);
    let said = obj().put("role"@, text("assistant"@)).put("content"@, text(g.content));
    let thought = if g.reasoning.len() > 0 {
        said.put("reasoning_content"@, text(g.reasoning))
    } else {
        said
    };
    let message = if g.calls.len() > 0 {
        thought.put("tool_calls"@, JsonView::Array(g.calls))
    } else {
        thought
    };
    let choice = obj().put("index"@, JsonView::Int(0)).put("message"@, message).put(
        "finish_reason"@,
        text(g.finish),
    );
    obj().put("id"@, text(id)).put("object"@, text("chat.completion"@)).put(
        "model"@,
        text(model),
    ).put("choices"@, JsonView::Array(seq![choice])).put_some("usage"@, g.usage)
}

/// The `chat.completion` with a given id that the events of an answer make.
pub fn aggregate_events(events: &Vec<Json>, model: &str, id: &str) -> (r: Json)
    ensures
        r@ == completion(items_view(events@), model@, id@),
{
    let ghost all = items_view(events@);
    let mut content = String::new();
    let mut reasoning = String::new();
    let mut finish = "stop";
    let mut counts: Option<Json> = None;
    let mut calls: Vec<Json> = Vec::new();
    let mut i: usize = 0;
    assert(items_view(calls@) =~= gather(all.subrange(0, 0)).calls);
    assert(content@ =~= gather(all.subrange(0, 0)).content);
    while i < events.len()
        invariant
            i <= events.len(),
            all == items_view(events@),
            content@ == gather(all.subrange(0, i as int)).content,
            reasoning@ == gather(all.subrange(0, i as int)).reasoning,
            finish@ == gather(all.subrange(0, i as int)).finish,
            opt_of(counts) == gather(all.subrange(0, i as int)).usage,
            items_view(calls@) == gather(all.subrange(0, i as int)).calls,
        decreases events.len() - i,
    {
        assert(all.subrange(0, i + 1).drop_last() =~= all.subrange(0, i as int));
        assert(all.subrange(0, i + 1).last() == events@[i as int]@);
        let event = &events[i];
        let kind = event.at("type");
        if kind.is_text("text-delta") {
            content.append(event.at("text").str_or_empty());
        } else if kind.is_text("reasoning-delta") {
            reasoning.append(event.at("text").str_or_empty());
        } else if kind.is_text("tool-call") {
            push_item(&mut calls, event_call_of(event));
        } else if kind.is_text("finish") {
            finish = finish_reason(event.at("finishReason"));
            match event.get("totalUsage") {
                Some(u) => {
                    counts = Some(usage(u));
                },
                None => {},
            }
        }
        i += 1;
    }
    assert(all.subrange(0, i as int) =~= all);
    let mut message = Json::object().with("role", Json::text("assistant")).with(
        "content",
        Json::Str(content),
    );
    if !reasoning.as_str().is_empty() {
        message = message.with("reasoning_content", Json::Str(reasoning));
    }
    if calls.len() > 0 {
        message = message.with("tool_calls", Json::array(calls));
    }
    let choice = Json::object().with("index", Json::signed(0)).with("message", message).with(
        "finish_reason",
        Json::text(finish),
    );
    Json::object().with("id", Json::text(id)).with("object", Json::text("chat.completion")).with(
        "model",
        Json::text(model),
    ).with("choices", Json::array1(choice)).with_some("usage", counts)
}

/// The `chat.completion` that a body of events makes, under a new id.
pub fn aggregate_ndjson(body: &str, model: &str) -> (r: Json)
    ensures
        exists|id: Seq<char>|
            is_completion_id(id) && r@ == #[trigger] completion(body_events(body@), model@, id),
{
    let stamp = fresh_stamp();
    aggregate_events(&events(body), model, stamp.id.as_str())
}

// ---------------------------------------------------------------------------
// The stream
// ---------------------------------------------------------------------------

/// Where the first line feed stands.
pub open spec fn line_end(buf: Seq<char>) -> Option<int> {
    find_from(buf, "\n"@, 0)
}

/// The first line with its line feed.
pub open spec fn first_line(buf: Seq<char>) -> Seq<char> {
    match line_end(buf) {
        Some(k) => buf.subrange(0, k + 1),
        None => buf,
    }
}

/// What follows the first line.
pub open spec fn after_line(buf: Seq<char>) -> Seq<char> {
    match line_end(buf) {
        Some(k) => buf.subrange(k + 1, buf.len() as int),
        None => seq![],
    }
}

/// A line feed lies within the text.
pub proof fn lemma_line_end(buf: Seq<char>)
    ensures
        line_end(buf) matches Some(k) ==> 0 <= k && k + 1 <= buf.len(),
        "\n"@.len() == 1,
{
    reveal_strlit("\n");
    lemma_find_is_occurs(buf, "\n"@, 0);
}

/// The next chunk that the received text gives, what stays of the text, and
/// the state behind it; no chunk where more text must come first.
pub open spec fn next_chunk(
    buf: Seq<char>,
    s: ChunkStream,
    model: Seq<char>,
    stamp: StampView,
) -> (Option<JsonView>, Seq<char>, ChunkStream)
    decreases buf.len(),
    via next_chunk_shrinks
{
    if line_end(buf) is None {
        (None, buf, s)
    } else {
        match line_event(first_line(buf)) {
            None => next_chunk(after_line(buf), s, model, stamp),
            Some(event) => match chunk_for(s, event, model, stamp) {
                (Some(chunk), t) => (Some(chunk), after_line(buf), t),
                (None, t) => next_chunk(after_line(buf), t, model, stamp),
            },
        }
    }
}

#[via_fn]
proof fn next_chunk_shrinks(buf: Seq<char>, s: ChunkStream, model: Seq<char>, stamp: StampView) {
    lemma_line_end(buf);
}

/// The last chunk, which the text behind the last line feed may give.
pub open spec fn last_chunk(buf: Seq<char>, s: ChunkStream, model: Seq<char>, stamp: StampView) -> (
    Option<JsonView>,
    ChunkStream,
) {
    match line_event(buf) {
        Some(event) if buf.len() > 0 => chunk_for(s, event, model, stamp),
        _ => (None, s),
    }
}

/// What of the text behind the last line feed is left once it was read.
pub open spec fn unread(buf: Seq<char>) -> Seq<char> {
    if line_event(buf) is Some {
        seq![]
    } else {
        buf
    }
}

/// Turns a stream of Command Code's events into one of Chat Completions chunks.
pub struct NdjsonStream {
    pub buffer: String,
    pub tail: Vec<u8>,
    pub chunks: ChunkState,
    pub model: String,
    pub done: bool,
}

/// The block to send for a chunk, where there is one.
pub open spec fn opt_block(chunk: Option<JsonView>) -> Option<Seq<char>> {
    match chunk {
        Some(c) => Some(chunk_block(c)),
        None => None,
    }
}

impl NdjsonStream {
    pub fn new(model: String) -> (r: NdjsonStream)
        ensures
            r.buffer@ == Seq::<char>::empty(),
            r.tail@ == Seq::<u8>::empty(),
            r.chunks@ == fresh_state(),
            r.model@ == model@,
            !r.done,
    {
        NdjsonStream {
            buffer: String::new(),
            tail: Vec::new(),
            chunks: ChunkState { id: String::new(), created: 0, saw_tool_call: false },
            model,
            done: false,
        }
    }

    /// Takes in received bytes. A character that they do not finish waits for
    /// the rest of it.
    pub fn push_bytes(&mut self, bytes: &[u8])
        ensures
            ({
                let t = old(self).tail@ + bytes@;
                &&& final(self).buffer@ == old(self).buffer@ + read_text(t.subrange(0, whole(t)))
                &&& final(self).tail@ == t.subrange(whole(t), t.len() as int)
            }),
            final(self).chunks@ == old(self).chunks@,
            final(self).model@ == old(self).model@,
            final(self).done == old(self).done,
    {
        let received = read_piece(&mut self.tail, bytes);
        self.buffer.append(received.as_str());
    }

    /// Takes the first line out of the buffer.
    fn take_line(&mut self) -> (r: Option<String>)
        ensures
            final(self).chunks@ == old(self).chunks@,
            final(self).tail@ == old(self).tail@,
            final(self).model@ == old(self).model@,
            final(self).done == old(self).done,
            match r {
                Some(line) => line_end(old(self).buffer@) is Some && line@ == first_line(
                    old(self).buffer@,
                ) && final(self).buffer@ == after_line(old(self).buffer@),
                None => line_end(old(self).buffer@) is None && final(self).buffer@ == old(self).buffer@,
            },
    {
        proof {
            lemma_line_end(self.buffer@);
        }
        let v = chars_of(self.buffer.as_str());
        let sep = chars_of("\n");
        match find_in(&v, &sep, 0) {
            Some(k) => {
                let line = string_of(&v, 0, k + 1);
                self.buffer = string_of(&v, k + 1, v.len());
                Some(line)
            },
            None => None,
        }
    }

    /// The next block to send, where the received text gives one. The first
    /// chunk takes its id and time from `stamp`.
    pub fn next_with(&mut self, stamp: &Stamp) -> (r: Option<String>)
        ensures
            final(self).model@ == old(self).model@,
            final(self).tail@ == old(self).tail@,
            final(self).done == old(self).done,
            old(self).done ==> r is None && final(self).buffer@ == old(self).buffer@ && final(self).chunks@ == old(self).chunks@,
            !old(self).done ==> ({
                let step = next_chunk(
                    old(self).buffer@,
                    old(self).chunks@,
                    old(self).model@,
                    stamp@,
                );
                &&& opt_text(r) == opt_block(step.0)
                &&& final(self).buffer@ == step.1
                &&& final(self).chunks@ == step.2
            }),
    {
        if self.done {
            return None;
        }
        let ghost start = next_chunk(self.buffer@, self.chunks@, self.model@, stamp@);
        loop
            invariant
                start == next_chunk(self.buffer@, self.chunks@, self.model@, stamp@),
                start == next_chunk(
                    old(self).buffer@,
                    old(self).chunks@,
                    old(self).model@,
                    stamp@,
                ),
                self.model@ == old(self).model@,
                self.tail@ == old(self).tail@,
                self.done == old(self).done,
                !self.done,
            decreases self.buffer@.len(),
        {
            proof {
                lemma_line_end(self.buffer@);
            }
            match self.take_line() {
                None => {
                    return None;
                },
                Some(line) => {
                    match parse_event_line(line.as_str()) {
                        None => {},
                        Some(event) => {
                            match chat_chunk_with(
                                &mut self.chunks,
                                &event,
                                self.model.as_str(),
                                stamp,
                            ) {
                                Some(chunk) => {
                                    return Some(chunk_block_of(&chunk));
                                },
                                None => {},
                            }
                        },
                    }
                },
            }
        }
    }

    /// The next block to send, where the received text gives one. The first
    /// chunk gets a new id.
    pub fn next(&mut self) -> (r: Option<String>)
        ensures
            final(self).model@ == old(self).model@,
            final(self).tail@ == old(self).tail@,
            final(self).done == old(self).done,
            old(self).done ==> r is None && final(self).buffer@ == old(self).buffer@ && final(self).chunks@ == old(self).chunks@,
            !old(self).done ==> exists|stamp: StampView|
                is_completion_id(stamp.id) && (opt_text(r), final(self).buffer@, final(self).chunks@) == ({
                    let step = #[trigger] next_chunk(
                        old(self).buffer@,
                        old(self).chunks@,
                        old(self).model@,
                        stamp,
                    );
                    (opt_block(step.0), step.1, step.2)
                }),
    {
        let stamp = fresh_stamp();
        let r = self.next_with(&stamp);
        proof {
            if !old(self).done {
                let step = next_chunk(
                    old(self).buffer@,
                    old(self).chunks@,
                    old(self).model@,
                    stamp@,
                );
                assert((opt_text(r), self.buffer@, self.chunks@) == (
                    opt_block(step.0),
                    step.1,
                    step.2,
                ));
            }
        }
        r
    }

    /// The received stream ended: first what the last line gives, then the
    /// end marker, then nothing. The first chunk takes its id and time from
    /// `stamp`.
    pub fn end_with(&mut self, stamp: &Stamp) -> (r: Option<String>)
        ensures
            final(self).model@ == old(self).model@,
            old(self).done ==> r is None && final(self).done && final(self).chunks@
                == old(self).chunks@ && final(self).buffer@ == old(self).buffer@
                && final(self).tail@ == old(self).tail@,
            !old(self).done ==> ({
                let rest = old(self).buffer@ + read_text(old(self).tail@);
                let step = last_chunk(
                    rest,
                    old(self).chunks@,
                    old(self).model@,
                    stamp@,
                );
                &&& final(self).chunks@ == step.1
                &&& final(self).tail@ == Seq::<u8>::empty()
                &&& final(self).buffer@ == unread(rest)
                &&& match step.0 {
                    Some(chunk) => opt_text(r) == Some(chunk_block(chunk)) && !final(self).done,
                    None => opt_text(r) == Some(SSE_DONE@) && final(self).done,
                }
            }),
    {
        if self.done {
            return None;
        }
        let received = read_rest(&mut self.tail);
        self.buffer.append(received.as_str());
        if !self.buffer.as_str().is_empty() {
            match parse_event_line(self.buffer.as_str()) {
                Some(event) => {
                    self.buffer = String::new();
                    match chat_chunk_with(
                        &mut self.chunks,
                        &event,
                        self.model.as_str(),
                        stamp,
                    ) {
                        Some(chunk) => {
                            return Some(chunk_block_of(&chunk));
                        },
                        None => {},
                    }
                },
                None => {},
            }
        }
        self.done = true;
        Some(owned(SSE_DONE))
    }

    /// The received stream ended: first what the last line gives, then the
    /// end marker, then nothing. The first chunk gets a new id.
    pub fn end(&mut self) -> (r: Option<String>)
        ensures
            final(self).model@ == old(self).model@,
            old(self).done ==> r is None && final(self).done && final(self).chunks@
                == old(self).chunks@ && final(self).buffer@ == old(self).buffer@
                && final(self).tail@ == old(self).tail@,
            !old(self).done ==> exists|stamp: StampView|
                is_completion_id(stamp.id) && ({
                    let rest = old(self).buffer@ + read_text(old(self).tail@);
                    let step = #[trigger] last_chunk(
                        old(self).buffer@ + read_text(old(self).tail@),
                        old(self).chunks@,
                        old(self).model@,
                        stamp,
                    );
                    &&& final(self).chunks@ == step.1
                    &&& final(self).tail@ == Seq::<u8>::empty()
                    &&& final(self).buffer@ == unread(rest)
                    &&& match step.0 {
                        Some(chunk) => opt_text(r) == Some(chunk_block(chunk)) && !final(self).done,
                        None => opt_text(r) == Some(SSE_DONE@) && final(self).done,
                    }
                }),
    {
        let stamp = fresh_stamp();
        self.end_with(&stamp)
    }

    /// The received stream broke off: nothing more is sent.
    pub fn stop(&mut self)
        ensures
            final(self).done,
            final(self).chunks@ == old(self).chunks@,
            final(self).buffer@ == old(self).buffer@,
            final(self).tail@ == old(self).tail@,
            final(self).model@ == old(self).model@,
    {
        self.done = true;
    }
}

// ---------------------------------------------------------------------------
// Streamed or whole
// ---------------------------------------------------------------------------

/// The chunks that events become, one behind the other, and the state behind
/// them.
pub open spec fn chunks_of(
    events: Seq<JsonView>,
    s: ChunkStream,
    model: Seq<char>,
    stamps: Seq<StampView>,
) -> (Seq<JsonView>, ChunkStream)
    decreases events.len(),
{
    if events.len() == 0 {
        (seq![], s)
    } else {
        let (chunks, t) = chunks_of(events.drop_last(), s, model, stamps);
        let (chunk, u) = chunk_for(t, events.last(), model, stamps[events.len() - 1]);
        match chunk {
            Some(c) => (chunks.push(c), u),
            None => (chunks, u),
        }
    }
}

/// What the deltas of chunks say under this key.
pub open spec fn streamed(chunks: Seq<JsonView>, key: Seq<char>) -> Seq<char>
    decreases chunks.len(),
{
    if chunks.len() == 0 {
        seq![]
    } else {
        streamed(chunks.drop_last(), key) + (match chunks.last().at("choices"@).first() {
            Some(choice) => choice.at("delta"@).at(key).str_or_empty(),
            None => seq![],
        })
    }
}

/// The words of chunks differ.
proof fn lemma_chunk_words()
    ensures
        "choices"@ != "usage"@,
        "delta"@ != "finish_reason"@,
        "content"@ != "reasoning_content"@,
        "content"@ != "tool_calls"@,
        "reasoning_content"@ != "tool_calls"@,
        "text-delta"@ != "reasoning-delta"@,
        "text-delta"@ != "tool-call"@,
        "text-delta"@ != "finish"@,
        "reasoning-delta"@ != "tool-call"@,
        "reasoning-delta"@ != "finish"@,
        ""@.len() == 0,
{
    reveal_strlit("choices");
    reveal_strlit("usage");
    reveal_strlit("delta");
    reveal_strlit("finish_reason");
    reveal_strlit("content");
    reveal_strlit("reasoning_content");
    reveal_strlit("tool_calls");
    reveal_strlit("text-delta");
    reveal_strlit("reasoning-delta");
    reveal_strlit("tool-call");
    reveal_strlit("finish");
    reveal_strlit("");
    assert("choices"@.len() == 7);
    assert("usage"@.len() == 5);
    assert("delta"@.len() == 5);
    assert("finish_reason"@.len() == 13);
    assert("content"@.len() == 7);
    assert("reasoning_content"@.len() == 17);
    assert("tool_calls"@.len() == 10);
    assert("text-delta"@.len() == 10);
    assert("reasoning-delta"@.len() == 15);
    assert("tool-call"@.len() == 9);
    assert("finish"@.len() == 6);
}

proof fn lemma_streamed_push(chunks: Seq<JsonView>, c: JsonView, delta: JsonView, key: Seq<char>)
    requires
        c.at("choices"@).first() matches Some(choice) && choice.at("delta"@) == delta,
    ensures
        streamed(chunks.push(c), key) == streamed(chunks, key) + delta.at(key).str_or_empty(),
{
    assert(chunks.push(c).drop_last() =~= chunks);
}

proof fn lemma_chunk_delta(
    s: ChunkStream,
    model: Seq<char>,
    delta: JsonView,
    finish: Option<Seq<char>>,
    usage: Option<JsonView>,
)
    ensures
        chat_chunk(s, model, delta, finish).put_some("usage"@, usage).at("choices"@).first()
            matches Some(choice) && choice.at("delta"@) == delta,
{
    lemma_chunk_words();
    let choice = obj().put("index"@, JsonView::Int(0)).put("delta"@, delta).put(
        "finish_reason"@,
        crate::json::text_or_null(finish),
    );
    assert(choice.at("delta"@) == delta);
    let c = chat_chunk(s, model, delta, finish);
    assert(c.at("choices"@) == JsonView::Array(seq![choice]));
    assert(c.put_some("usage"@, usage).at("choices"@) == JsonView::Array(seq![choice]));
}

/// An answer says and thinks the same whether it is streamed or given whole.
pub proof fn law_stream_says_what_the_answer_says(
    events: Seq<JsonView>,
    s: ChunkStream,
    model: Seq<char>,
    stamps: Seq<StampView>,
)
    requires
        stamps.len() == events.len(),
    ensures
        streamed(chunks_of(events, s, model, stamps).0, "content"@) == gather(events).content,
        streamed(chunks_of(events, s, model, stamps).0, "reasoning_content"@) == gather(
            events,
        ).reasoning,
    decreases events.len(),
{
    lemma_chunk_words();
    if events.len() > 0 {
        let rest = events.drop_last();
        lemma_chunks_ignore_later_stamps(rest, s, model, stamps, stamps.drop_last());
        law_stream_says_what_the_answer_says(rest, s, model, stamps.drop_last());
        let (chunks, t) = chunks_of(rest, s, model, stamps);
        let e = events.last();
        let stamp = stamps[events.len() - 1];
        let u = stamped(t, stamp);
        let kind = e.at("type"@).str();
        let said = e.at("text"@).str_or_empty();
        match chunk_for(t, e, model, stamp).0 {
            Some(c) => {
                if kind == Some("text-delta"@) {
                    let delta = obj().put("content"@, text(said));
                    lemma_chunk_delta(u, model, delta, None, None);
                    lemma_streamed_push(chunks, c, delta, "content"@);
                    lemma_streamed_push(chunks, c, delta, "reasoning_content"@);
                    assert(delta.at("content"@) == text(said));
                    assert(delta.at("reasoning_content"@) == JsonView::Null);
                    assert(streamed(chunks.push(c), "reasoning_content"@) =~= streamed(
                        chunks,
                        "reasoning_content"@,
                    ));
                } else if kind == Some("reasoning-delta"@) {
                    let delta = obj().put("reasoning_content"@, text(said));
                    lemma_chunk_delta(u, model, delta, None, None);
                    lemma_streamed_push(chunks, c, delta, "content"@);
                    lemma_streamed_push(chunks, c, delta, "reasoning_content"@);
                    assert(delta.at("reasoning_content"@) == text(said));
                    assert(delta.at("content"@) == JsonView::Null);
                    assert(streamed(chunks.push(c), "content"@) =~= streamed(chunks, "content"@));
                } else if kind == Some("tool-call"@) {
                    let call = event_call(e).put("index"@, JsonView::Int(0));
                    let delta = obj().put("tool_calls"@, JsonView::Array(seq![call]));
                    lemma_chunk_delta(ChunkStream { called: true, ..u }, model, delta, None, None);
                    lemma_streamed_push(chunks, c, delta, "content"@);
                    lemma_streamed_push(chunks, c, delta, "reasoning_content"@);
                    assert(delta.at("content"@) == JsonView::Null);
                    assert(delta.at("reasoning_content"@) == JsonView::Null);
                    assert(streamed(chunks.push(c), "content"@) =~= streamed(chunks, "content"@));
                    assert(streamed(chunks.push(c), "reasoning_content"@) =~= streamed(
                        chunks,
                        "reasoning_content"@,
                    ));
                } else {
                    let given = e.at("finishReason"@).str();
                    let reason = if given is None && t.called {
                        "tool_calls"@
                    } else {
                        chat_finish(given)
                    };
                    let counts = match e.field("totalUsage"@) {
                        Some(n) => Some(chat_usage(n)),
                        None => None,
                    };
                    lemma_chunk_delta(u, model, obj(), Some(reason), counts);
                    lemma_streamed_push(chunks, c, obj(), "content"@);
                    lemma_streamed_push(chunks, c, obj(), "reasoning_content"@);
                    assert(streamed(chunks.push(c), "content"@) =~= streamed(chunks, "content"@));
                    assert(streamed(chunks.push(c), "reasoning_content"@) =~= streamed(
                        chunks,
                        "reasoning_content"@,
                    ));
                }
            },
            None => {},
        }
    }
}

proof fn lemma_chunks_ignore_later_stamps(
    events: Seq<JsonView>,
    s: ChunkStream,
    model: Seq<char>,
    stamps: Seq<StampView>,
    fewer: Seq<StampView>,
)
    requires
        events.len() <= fewer.len() <= stamps.len(),
        forall|i: int| 0 <= i < fewer.len() ==> fewer[i] == stamps[i],
    ensures
        chunks_of(events, s, model, stamps) == chunks_of(events, s, model, fewer),
    decreases events.len(),
{
    if events.len() > 0 {
        lemma_chunks_ignore_later_stamps(events.drop_last(), s, model, stamps, fewer);
    }
}

} // verus!
