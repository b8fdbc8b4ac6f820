//! Requests to the Codex Responses API, and its events as Chat Completions.
use vstd::prelude::*;

use crate::bytes::{read_piece, read_rest, read_text, whole};
use crate::codex::claude_message::{openai_counts, openai_counts_of};
use crate::codex::claude_request::{part_texts, part_texts_of};
use crate::codex::claude_laws::{chunk_text, streamed_text};
use crate::codex::sse_bridge::opt_text;
use crate::json::{
    entries_view, finite, items_view, lemma_entries_finite, lemma_entry_smaller, lemma_item_smaller, obj,
    opt_of, push_item, text, text_or_null, Json, JsonView,
};
use crate::sse::{
    after_block, chunk_block, chunk_block_of, events_of, gap, lemma_gap, parse_sse_block,
    sse_event, sse_events, sse_events_of, take_block, SSE_DONE,
};
use crate::text::{
    chars_of, contains, has_suffix, join, joined, occurs, owned, same, string_of,
    strip_suffix,
};

verus! {

// ---------------------------------------------------------------------------
// The request
// ---------------------------------------------------------------------------

/// Members that the Codex backend rejects.
pub open spec fn disallowed(key: Seq<char>) -> bool {
    ||| key == "temperature"@
    ||| key == "top_p"@
    ||| key == "max_tokens"@
    ||| key == "max_output_tokens"@
    ||| key == "user"@
    ||| key == "n"@
    ||| key == "presence_penalty"@
    ||| key == "frequency_penalty"@
    ||| key == "logprobs"@
    ||| key == "top_logprobs"@
    ||| key == "logit_bias"@
    ||| key == "seed"@
    ||| key == "stop"@
    ||| key == "response_format"@
    ||| key == "stream_options"@
    ||| key == "parallel_tool_calls"@
    ||| key == "service_tier"@
}

/// The members that the Codex backend does not reject.
pub open spec fn allowed(m: Map<Seq<char>, JsonView>) -> Map<Seq<char>, JsonView> {
    Map::new(|k: Seq<char>| m.contains_key(k) && !disallowed(k), |k: Seq<char>| m[k])
}

fn drop_disallowed(body: Json) -> (r: Json)
    requires
        body@ is Object,
    ensures
        r@ == JsonView::Object(allowed(body@.members())),
{
    let r = body.without("temperature").without("top_p").without("max_tokens").without(
        "max_output_tokens",
    ).without("user").without("n").without("presence_penalty").without(
        "frequency_penalty",
    ).without("logprobs").without("top_logprobs").without("logit_bias").without("seed").without(
        "stop",
    ).without("response_format").without("stream_options").without(
        "parallel_tool_calls",
    ).without("service_tier");
    assert(r@.members() =~= allowed(body@.members()));
    r
}

/// The text of a message: its content, or the texts of its parts run together.
pub open spec fn message_text(m: JsonView) -> Seq<char> {
    match m.at("content"@) {
        JsonView::Str(s) => s,
        JsonView::Array(parts) => joined(part_texts(parts), ""@),
        _ => seq![],
    }
}

fn message_text_of(m: &Json) -> (r: String)
    ensures
        r@ == message_text(m@),
{
    match m.at("content") {
        Json::Str(s) => owned(s.as_str()),
        Json::Array(parts) => join(&part_texts_of(parts), ""),
        _ => String::new(),
    }
}

/// The role that a message has for the Responses API, which calls the system
/// the developer.
pub open spec fn codex_role(m: JsonView) -> Seq<char> {
    let role = m.at("role"@).str_or("user"@);
    if role == "system"@ {
        "developer"@
    } else {
        role
    }
}

/// The Responses API item that a Chat Completions message becomes.
pub open spec fn input_item(m: JsonView) -> JsonView {
    let kind = if codex_role(m) == "assistant"@ {
        "output_text"@
    } else {
        "input_text"@
    };
    let part = obj().put("type"@, text(kind)).put("text"@, text(message_text(m)));
    obj().put("type"@, text("message"@)).put("role"@, text(codex_role(m))).put(
        "content"@,
        JsonView::Array(seq![part]),
    )
}

fn input_item_of(m: &Json) -> (r: Json)
    ensures
        r@ == input_item(m@),
{
    let given = m.at("role").str_or("user");
    let role = if same(given, "system") {
        "developer"
    } else {
        given
    };
    let kind = if same(role, "assistant") {
        "output_text"
    } else {
        "input_text"
    };
    let part = Json::object().with("type", Json::text(kind)).with(
        "text",
        Json::Str(message_text_of(m)),
    );
    Json::object().with("type", Json::text("message")).with("role", Json::text(role)).with(
        "content",
        Json::array1(part),
    )
}

/// The items that messages become.
pub open spec fn input_items(msgs: Seq<JsonView>) -> Seq<JsonView> {
    msgs.map_values(|m: JsonView| input_item(m))
}

fn input_items_of(msgs: &Vec<Json>) -> (r: Vec<Json>)
    ensures
        items_view(r@) == input_items(items_view(msgs@)),
{
    let ghost all = items_view(msgs@);
    let mut out: Vec<Json> = Vec::new();
    let mut i: usize = 0;
    while i < msgs.len()
        invariant
            i <= msgs.len(),
            all == items_view(msgs@),
            items_view(out@) =~= input_items(all.subrange(0, i as int)),
        decreases msgs.len() - i,
    {
        assert(all[i as int] == msgs@[i as int]@);
        push_item(&mut out, input_item_of(&msgs[i]));
        i += 1;
    }
    assert(all.subrange(0, i as int) =~= all);
    out
}

/// The value without any member `id`, at any depth.
pub open spec fn stripped(v: JsonView) -> JsonView
    decreases v,
{
    match v {
        JsonView::Object(m) => JsonView::Object(
            Map::new(
                |k: Seq<char>| m.contains_key(k) && k != "id"@,
                |k: Seq<char>|
                    if m.contains_key(k) && m.dom().finite() {
                        stripped(m[k])
                    } else {
                        JsonView::Null
                    },
            ),
        ),
        JsonView::Array(s) => JsonView::Array(
            Seq::new(
                s.len(),
                |i: int|
                    if 0 <= i < s.len() {
                        stripped(s[i])
                    } else {
                        JsonView::Null
                    },
            ),
        ),
        _ => v,
    }
}

/// Members without `id`, each stripped of every `id` within.
pub open spec fn stripped_members(m: Map<Seq<char>, JsonView>) -> Map<Seq<char>, JsonView> {
    Map::new(|k: Seq<char>| m.contains_key(k) && k != "id"@, |k: Seq<char>| stripped(m[k]))
}

/// Takes every member `id` out, at any depth.
pub fn strip_ids(value: &Json) -> (r: Json)
    ensures
        r@ == stripped(value@),
    decreases value,
{
    match value {
        Json::Object(v) => {
            let mut out: Vec<(String, Json)> = Vec::new();
            let mut i: usize = 0;
            assert(entries_view(out@) =~= stripped_members(entries_view(v@.subrange(0, 0))));
            while i < v.len()
                invariant
                    i <= v.len(),
                    *value == Json::Object(*v),
                    entries_view(out@) == stripped_members(entries_view(v@.subrange(0, i as int))),
                decreases v.len() - i,
            {
                proof {
                    lemma_entry_smaller(*value, *v, i as int);
                }
                let ghost before = out@;
                let ghost seen = entries_view(v@.subrange(0, i as int));
                assert(v@.subrange(0, i + 1).drop_last() =~= v@.subrange(0, i as int));
                if !same(v[i].0.as_str(), "id") {
                    let key = owned(v[i].0.as_str());
                    let inner = strip_ids(&v[i].1);
                    out.push((key, inner));
                    assert(out@.drop_last() =~= before);
                }
                i += 1;
                assert(entries_view(out@) =~= stripped_members(
                    entries_view(v@.subrange(0, i as int)),
                ));
            }
            assert(v@.subrange(0, i as int) =~= v@);
            proof {
                lemma_entries_finite(v@);
                assert(stripped(value@)->Object_0 =~= stripped_members(entries_view(v@)));
            }
            Json::Object(out)
        },
        Json::Array(v) => {
            let mut out: Vec<Json> = Vec::new();
            let mut i: usize = 0;
            while i < v.len()
                invariant
                    i <= v.len(),
                    *value == Json::Array(*v),
                    out@.len() == i,
                    forall|k: int| 0 <= k < i ==> (#[trigger] out@[k])@ == stripped(v@[k]@),
                decreases v.len() - i,
            {
                proof {
                    lemma_item_smaller(*value, *v, i as int);
                }
                out.push(strip_ids(&v[i]));
                i += 1;
            }
            assert(items_view(out@) =~= stripped(value@)->Array_0);
            Json::Array(out)
        },
        Json::Null => Json::Null,
        Json::Bool(b) => Json::Bool(*b),
        Json::Number(n) => Json::Number(n.clone()),
        Json::Str(s) => Json::Str(owned(s.as_str())),
    }
}

/// A function specification with the members of `function` moved up. The
/// moved ones win.
pub open spec fn flattened(v: JsonView) -> JsonView {
    match v {
        JsonView::Object(m) => if v.at("type"@).str() == Some("function"@) {
            JsonView::Object(
                m.remove("function"@).union_prefer_right(v.at("function"@).members()),
            )
        } else {
            v
        },
        _ => v,
    }
}

fn flatten_function_shape(v: &Json) -> (r: Json)
    ensures
        r@ == flattened(v@),
{
    if !v.is_object() || !v.at("type").is_text("function") {
        return v.copy();
    }
    let mut out = v.copy().without("function");
    let ghost base = v@.members().remove("function"@);
    match v.at("function") {
        Json::Object(entries) => {
            let mut i: usize = 0;
            assert(base.union_prefer_right(entries_view(entries@.subrange(0, 0))) =~= base);
            while i < entries.len()
                invariant
                    i <= entries.len(),
                    out@ == JsonView::Object(
                        base.union_prefer_right(entries_view(entries@.subrange(0, i as int))),
                    ),
                decreases entries.len() - i,
            {
                assert(entries@.subrange(0, i + 1).drop_last() =~= entries@.subrange(0, i as int));
                out = out.with(entries[i].0.as_str(), entries[i].1.copy());
                i += 1;
                assert(out@.members() =~= base.union_prefer_right(
                    entries_view(entries@.subrange(0, i as int)),
                ));
            }
            assert(entries@.subrange(0, i as int) =~= entries@);
        },
        _ => {
            assert(base.union_prefer_right(Map::empty()) =~= base);
        },
    }
    out
}

/// The members of the request that say what the model is to read: the
/// messages become `input`, unless the client gave that itself; no `id` is
/// left in it.
pub open spec fn with_input(body: JsonView) -> JsonView {
    let kept = JsonView::Object(allowed(body.members()).remove("messages"@));
    let filled = match body.at("messages"@) {
        JsonView::Array(msgs) => if kept.field("input"@) is None {
            kept.put("input"@, JsonView::Array(input_items(msgs)))
        } else {
            kept
        },
        _ => kept,
    };
    match filled.field("input"@) {
        Some(input) => filled.put("input"@, stripped(input)),
        None => filled,
    }
}

/// The request with its tools and its tool choice in the flat shape.
pub open spec fn with_flat_tools(o: JsonView) -> JsonView {
    let tooled = match o.at("tools"@) {
        JsonView::Array(tools) => o.put(
            "tools"@,
            JsonView::Array(tools.map_values(|t: JsonView| flattened(t))),
        ),
        _ => o,
    };
    match tooled.field("tool_choice"@) {
        Some(choice) => tooled.put("tool_choice"@, flattened(choice)),
        None => tooled,
    }
}

/// The reasoning member, with the effort it asks for or else a medium one.
pub open spec fn with_effort(reasoning: JsonView) -> JsonView {
    if reasoning.field("effort"@) is None {
        reasoning.put("effort"@, text("medium"@))
    } else {
        reasoning
    }
}

/// The Responses API request that a Chat Completions request becomes. What is
/// no object stays as it is.
pub open spec fn codex_request(body: JsonView, session: Seq<char>) -> JsonView {
    if body is Object {
        let o = with_flat_tools(with_input(body)).put("store"@, JsonView::Bool(false)).put(
            "stream"@,
            JsonView::Bool(true),
        ).put("prompt_cache_key"@, text(session));
        o.put("reasoning"@, with_effort(crate::json::or_else(o.field("reasoning"@), obj()))).put(
            "include"@,
            JsonView::Array(seq![text("reasoning.encrypted_content"@)]),
        )
    } else {
        body
    }
}

/// The reasoning that a request asks for is an object or null, where it asks
/// for any.
pub open spec fn reasoning_is_object(body: JsonView) -> bool {
    body.at("reasoning"@) is Object || body.at("reasoning"@) is Null
}

/// Whether the reasoning that a request asks for is an object or null.
pub fn has_object_reasoning(body: &Json) -> (r: bool)
    ensures
        r == reasoning_is_object(body@),
{
    let reasoning = body.at("reasoning");
    reasoning.is_object() || reasoning.is_null()
}

/// Chat Completions request body -> Responses API request body.
pub fn transform_request(client_json: &Json, session_id: &str) -> (r: Json)
    requires
        reasoning_is_object(client_json@),
    ensures
        r@ == codex_request(client_json@, session_id@),
{
    if !client_json.is_object() {
        return client_json.copy();
    }
    let mut out = drop_disallowed(client_json.copy()).without("messages");
    match client_json.at("messages").as_array() {
        Some(msgs) => {
            if out.get("input").is_none() {
                out = out.with("input", Json::array(input_items_of(msgs)));
            }
        },
        None => {},
    }
    let input = match out.get("input") {
        Some(i) => Some(strip_ids(i)),
        None => None,
    };
    out = out.with_some("input", input);
    assert(out@ == with_input(client_json@));
    let tools = match out.at("tools").as_array() {
        Some(tools) => Some(Json::array(flat_tools(tools))),
        None => None,
    };
    out = out.with_some("tools", tools);
    let choice = match out.get("tool_choice") {
        Some(c) => Some(flatten_function_shape(c)),
        None => None,
    };
    out = out.with_some("tool_choice", choice);
    out = out.with("store", Json::Bool(false)).with("stream", Json::Bool(true)).with(
        "prompt_cache_key",
        Json::text(session_id),
    );
    let reasoning = crate::json::copy_or(out.get("reasoning"), Json::object());
    let reasoning = if reasoning.get("effort").is_none() {
        reasoning.with("effort", Json::text("medium"))
    } else {
        reasoning
    };
    out.with("reasoning", reasoning).with(
        "include",
        Json::array1(Json::text("reasoning.encrypted_content")),
    )
}

fn flat_tools(tools: &Vec<Json>) -> (r: Vec<Json>)
    ensures
        items_view(r@) == items_view(tools@).map_values(|t: JsonView| flattened(t)),
{
    let ghost all = items_view(tools@);
    let mut out: Vec<Json> = Vec::new();
    let mut i: usize = 0;
    while i < tools.len()
        invariant
            i <= tools.len(),
            all == items_view(tools@),
            items_view(out@) =~= all.subrange(0, i as int).map_values(|t: JsonView| flattened(t)),
        decreases tools.len() - i,
    {
        assert(all[i as int] == tools@[i as int]@);
        push_item(&mut out, flatten_function_shape(&tools[i]));
        i += 1;
    }
    assert(all.subrange(0, i as int) =~= all);
    out
}

// ---------------------------------------------------------------------------
// Events of a whole response
// ---------------------------------------------------------------------------

/// The Chat Completions token counts of a Responses API `usage` object.
pub open spec fn chat_usage(usage: JsonView) -> Option<JsonView> {
    if usage is Object {
        Some(
            openai_counts(
                usage.at("input_tokens"@).int64_or_zero(),
                usage.at("output_tokens"@).int64_or_zero(),
                usage.at("input_tokens_details"@).at("cached_tokens"@).int64_or_zero(),
            ),
        )
    } else {
        None
    }
}

fn chat_completions_usage(usage: &Json) -> (r: Option<Json>)
    ensures
        opt_of(r) == chat_usage(usage@),
{
    if !usage.is_object() {
        return None;
    }
    let prompt: i64 = usage.at("input_tokens").i64_or_zero();
    let completion: i64 = usage.at("output_tokens").i64_or_zero();
    let cached: i64 = usage.at("input_tokens_details").at("cached_tokens").i64_or_zero();
    Some(openai_counts_of(prompt, completion, cached))
}

/// An event that reports an error.
pub open spec fn is_error(e: (Seq<char>, JsonView)) -> bool {
    occurs(e.0, "failed"@) || occurs(e.0, "error"@) || !(e.1.at("error"@) is Null)
}

/// The type of the first error that the events report.
pub open spec fn first_error(events: Seq<(Seq<char>, JsonView)>) -> Option<Seq<char>>
    decreases events.len(),
{
    if events.len() == 0 {
        None
    } else if is_error(events[0]) {
        Some(events[0].1.at("error"@).at("type"@).str_or("upstream_error"@))
    } else {
        first_error(events.subrange(1, events.len() as int))
    }
}

/// The type of the first error that the events report.
pub fn error_in_events(events: &Vec<(String, Json)>) -> (r: Option<String>)
    ensures
        opt_text(r) == first_error(events_of(events@)),
{
    let ghost all = events_of(events@);
    let mut i: usize = 0;
    assert(all.subrange(0, all.len() as int) =~= all);
    while i < events.len()
        invariant
            i <= events.len(),
            all == events_of(events@),
            first_error(all) == first_error(all.subrange(i as int, all.len() as int)),
        decreases events.len() - i,
    {
        let ghost rest = all.subrange(i as int, all.len() as int);
        assert(rest[0] == (events@[i as int].0@, events@[i as int].1@));
        assert(rest.subrange(1, rest.len() as int) =~= all.subrange(i + 1, all.len() as int));
        let name = events[i].0.as_str();
        let error = events[i].1.at("error");
        if contains(name, "failed") || contains(name, "error") || !error.is_null() {
            return Some(owned(error.at("type").str_or("upstream_error")));
        }
        i += 1;
    }
    None
}

/// The type of the first error that a response body reports.
pub fn sse_embedded_error(sse_body: &str) -> (r: Option<String>)
    ensures
        opt_text(r) == first_error(sse_events(sse_body@)),
{
    error_in_events(&sse_events_of(sse_body))
}

/// What the events of a response have said so far.
pub struct Gathered {
    pub content: Seq<char>,
    pub id: Seq<char>,
    pub usage: Option<JsonView>,
}

/// What events say, one behind the other.
pub open spec fn gather(events: Seq<(Seq<char>, JsonView)>) -> Gathered
    decreases events.len(),
{
    if events.len() == 0 {
        Gathered { content: seq![], id: seq![], usage: None }
    } else {
        let g = gather(events.drop_last());
        let (name, data) = events.last();
        if has_suffix(name, "output_text.delta"@) {
            match data.at("delta"@).str() {
                Some(d) => Gathered { content: g.content + d, ..g },
                None => g,
            }
        } else if has_suffix(name, "completed"@) {
            let response = data.at("response"@);
            Gathered {
                id: response.at("id"@).str_or(g.id),
                usage: chat_usage(response.at("usage"@)),
                ..g
            }
        } else {
            g
        }
    }
}

/// The `chat.completion` that the events of a response make.
pub open spec fn completion(events: Seq<(Seq<char>, JsonView)>, model: Seq<char>) -> JsonView {
    let g = gather(events);
    let message = obj().put("role"@, text("assistant"@)).put("content"@, text(g.content));
    let choice = obj().put("index"@, JsonView::Int(0)).put("message"@, message).put(
        "finish_reason"@,
        text("stop"@),
    );
    obj().put("id"@, text(g.id)).put("object"@, text("chat.completion"@)).put(
        "model"@,
        text(model),
    ).put("choices"@, JsonView::Array(seq![choice])).put_some("usage"@, g.usage)
}

/// The `chat.completion` that the events of a response make.
pub fn aggregate_events(events: &Vec<(String, Json)>, model: &str) -> (r: Json)
    ensures
        r@ == completion(events_of(events@), model@),
{
    let ghost all = events_of(events@);
    let mut content = String::new();
    let mut id = String::new();
    let mut usage: Option<Json> = None;
    let mut i: usize = 0;
    assert(content@ =~= gather(all.subrange(0, 0)).content);
    assert(id@ =~= gather(all.subrange(0, 0)).id);
    while i < events.len()
        invariant
            i <= events.len(),
            all == events_of(events@),
            content@ == gather(all.subrange(0, i as int)).content,
            id@ == gather(all.subrange(0, i as int)).id,
            opt_of(usage) == gather(all.subrange(0, i as int)).usage,
        decreases events.len() - i,
    {
        assert(all.subrange(0, i + 1).drop_last() =~= all.subrange(0, i as int));
        assert(all.subrange(0, i + 1).last() == (events@[i as int].0@, events@[i as int].1@));
        let name = events[i].0.as_str();
        let data = &events[i].1;
        if strip_suffix(name, "output_text.delta").is_some() {
            match data.at("delta").as_str() {
                Some(d) => {
                    content.append(d);
                },
                None => {},
            }
        } else if strip_suffix(name, "completed").is_some() {
            let response = data.at("response");
            match response.at("id").as_str() {
                Some(given) => {
                    id = owned(given);
                },
                None => {},
            }
            usage = chat_completions_usage(response.at("usage"));
        }
        i += 1;
    }
    assert(all.subrange(0, i as int) =~= all);
    let message = Json::object().with("role", Json::text("assistant")).with(
        "content",
        Json::Str(content),
    );
    let choice = Json::object().with("index", Json::signed(0)).with("message", message).with(
        "finish_reason",
        Json::text("stop"),
    );
    Json::object().with("id", Json::Str(id)).with("object", Json::text("chat.completion")).with(
        "model",
        Json::text(model),
    ).with("choices", Json::array1(choice)).with_some("usage", usage)
}

/// The `chat.completion` that a response body makes.
pub fn aggregate_sse(sse_body: &str, model: &str) -> (r: Json)
    ensures
        r@ == completion(sse_events(sse_body@), model@),
{
    aggregate_events(&sse_events_of(sse_body), model)
}

// ---------------------------------------------------------------------------
// Events of a streamed response
// ---------------------------------------------------------------------------

/// What the chunks of an answer share, and whether it called a tool.
#[derive(Debug)]
pub struct SseChunkState {
    pub id: String,
    pub created: i64,
    pub saw_tool_call: bool,
}

/// What an `SseChunkState` stands for.
pub struct ChunkStream {
    pub id: Seq<char>,
    pub created: int,
    pub called: bool,
}

impl View for SseChunkState {
    type V = ChunkStream;

    open spec fn view(&self) -> ChunkStream {
        ChunkStream { id: self.id@, created: self.created as int, called: self.saw_tool_call }
    }
}

impl SseChunkState {
    pub fn new() -> (r: SseChunkState)
        ensures
            r@ == (ChunkStream { id: seq![], created: 0, called: false }),
    {
        SseChunkState { id: String::new(), created: 0, saw_tool_call: false }
    }
}

/// A `chat.completion.chunk` with one choice.
pub open spec fn chat_chunk(
    s: ChunkStream,
    model: Seq<char>,
    delta: JsonView,
    finish: Option<Seq<char>>,
) -> JsonView {
    let choice = obj().put("index"@, JsonView::Int(0)).put("delta"@, delta).put(
        "finish_reason"@,
        text_or_null(finish),
    );
    obj().put("id"@, text(s.id)).put("object"@, text("chat.completion.chunk"@)).put(
        "created"@,
        JsonView::Int(s.created),
    ).put("model"@, text(model)).put("choices"@, JsonView::Array(seq![choice]))
}

/// A `chat.completion.chunk` with one choice.
pub fn chat_chunk_of(id: &str, created: i64, model: &str, delta: Json, finish: Option<&str>) -> (r:
    Json)
    ensures
        r@ == chat_chunk(
            (ChunkStream { id: id@, created: created as int, called: false }),
            model@,
            delta@,
            match finish {
                Some(f) => Some(f@),
                None => None,
            },
        ),
{
    let finish = match finish {
        Some(f) => Json::text(f),
        None => Json::Null,
    };
    let choice = Json::object().with("index", Json::signed(0)).with("delta", delta).with(
        "finish_reason",
        finish,
    );
    Json::object().with("id", Json::text(id)).with(
        "object",
        Json::text("chat.completion.chunk"),
    ).with("created", Json::signed(created)).with("model", Json::text(model)).with(
        "choices",
        Json::array1(choice),
    )
}

/// The delta that opens a tool call of the Responses API.
pub open spec fn call_delta(data: JsonView) -> JsonView {
    let item = data.at("item"@);
    let function = obj().put("name"@, text(item.at("name"@).str_or_empty())).put(
        "arguments"@,
        text(""@),
    );
    let call = obj().put("index"@, JsonView::Int(data.at("output_index"@).uint64_or_zero())).put(
        "id"@,
        text(item.at("call_id"@).str_or_empty()),
    ).put("type"@, text("function"@)).put("function"@, function);
    obj().put("tool_calls"@, JsonView::Array(seq![call]))
}

/// The delta that adds arguments to a tool call of the Responses API.
pub open spec fn args_delta(data: JsonView) -> JsonView {
    let call = obj().put("index"@, JsonView::Int(data.at("output_index"@).uint64_or_zero())).put(
        "function"@,
        obj().put("arguments"@, text(data.at("delta"@).str_or_empty())),
    );
    obj().put("tool_calls"@, JsonView::Array(seq![call]))
}

/// The chunk that one Responses API event becomes, where it becomes any, and
/// the state behind it.
pub open spec fn chunk_for(s: ChunkStream, event: Seq<char>, data: JsonView, model: Seq<char>) -> (
    Option<JsonView>,
    ChunkStream,
) {
    if event == "response.created"@ {
        let t = ChunkStream {
            id: data.at("response"@).at("id"@).str_or_empty(),
            created: data.at("response"@).at("created_at"@).int64_or_zero(),
            ..s
        };
        let delta = obj().put("role"@, text("assistant"@)).put("content"@, text(""@));
        (Some(chat_chunk(t, model, delta, None)), t)
    } else if event == "response.output_text.delta"@ {
        let delta = obj().put("content"@, text(data.at("delta"@).str_or_empty()));
        (Some(chat_chunk(s, model, delta, None)), s)
    } else if event == "response.output_item.added"@ {
        if data.at("item"@).at("type"@).str() == Some("function_call"@) {
            let t = ChunkStream { called: true, ..s };
            (Some(chat_chunk(t, model, call_delta(data), None)), t)
        } else {
            (None, s)
        }
    } else if event == "response.function_call_arguments.delta"@ {
        (Some(chat_chunk(s, model, args_delta(data), None)), s)
    } else if event == "response.completed"@ {
        let finish = if s.called {
            "tool_calls"@
        } else {
            "stop"@
        };
        let chunk = chat_chunk(s, model, obj(), Some(finish));
        (Some(chunk.put_some("usage"@, chat_usage(data.at("response"@).at("usage"@)))), s)
    } else {
        (None, s)
    }
}

/// Converts one Responses API event into the Chat Completions chunk that it
/// stands for, where it stands for any.
pub fn chat_chunk_for_event(
    state: &mut SseChunkState,
    event: &str,
    data: &Json,
    model: &str,
) -> (r: Option<Json>)
    ensures
        (opt_of(r), final(state)@) == chunk_for(old(state)@, event@, data@, model@),
{
    if same(event, "response.created") {
        state.id = owned(data.at("response").at("id").str_or_empty());
        state.created = data.at("response").at("created_at").i64_or_zero();
        let delta = Json::object().with("role", Json::text("assistant")).with(
            "content",
            Json::text(""),
        );
        Some(chat_chunk_of(state.id.as_str(), state.created, model, delta, None))
    } else if same(event, "response.output_text.delta") {
        let delta = Json::object().with("content", Json::text(data.at("delta").str_or_empty()));
        Some(chat_chunk_of(state.id.as_str(), state.created, model, delta, None))
    } else if same(event, "response.output_item.added") {
        let item = data.at("item");
        if !item.at("type").is_text("function_call") {
            return None;
        }
        state.saw_tool_call = true;
        let function = Json::object().with("name", Json::text(item.at("name").str_or_empty())).with(
            "arguments",
            Json::text(""),
        );
        let call = Json::object().with(
            "index",
            Json::unsigned(data.at("output_index").u64_or_zero()),
        ).with("id", Json::text(item.at("call_id").str_or_empty())).with(
            "type",
            Json::text("function"),
        ).with("function", function);
        let delta = Json::object().with("tool_calls", Json::array1(call));
        Some(chat_chunk_of(state.id.as_str(), state.created, model, delta, None))
    } else if same(event, "response.function_call_arguments.delta") {
        let call = Json::object().with(
            "index",
            Json::unsigned(data.at("output_index").u64_or_zero()),
        ).with(
            "function",
            Json::object().with("arguments", Json::text(data.at("delta").str_or_empty())),
        );
        let delta = Json::object().with("tool_calls", Json::array1(call));
        Some(chat_chunk_of(state.id.as_str(), state.created, model, delta, None))
    } else if same(event, "response.completed") {
        let finish = if state.saw_tool_call {
            "tool_calls"
        } else {
            "stop"
        };
        let chunk = chat_chunk_of(
            state.id.as_str(),
            state.created,
            model,
            Json::object(),
            Some(finish),
        );
        let usage = chat_completions_usage(data.at("response").at("usage"));
        Some(chunk.with_some("usage", usage))
    } else {
        None
    }
}

// ---------------------------------------------------------------------------
// The stream
// ---------------------------------------------------------------------------

/// The first block of `buf` without the blank line that ends it.
pub open spec fn block_text(buf: Seq<char>) -> Seq<char> {
    match gap(buf) {
        Some(k) => buf.subrange(0, k),
        None => buf,
    }
}

/// The next chunk that the received text gives, what stays of the text, and
/// the state behind it; no chunk where more text must come first.
pub open spec fn next_chunk(buf: Seq<char>, s: ChunkStream, model: Seq<char>) -> (
    Option<JsonView>,
    Seq<char>,
    ChunkStream,
)
    decreases buf.len(),
    via next_chunk_shrinks
{
    if gap(buf) is None {
        (None, buf, s)
    } else {
        match sse_event(block_text(buf)) {
            None => next_chunk(after_block(buf), s, model),
            Some((event, data)) => match chunk_for(s, event, data, model) {
                (Some(chunk), t) => (Some(chunk), after_block(buf), t),
                (None, t) => next_chunk(after_block(buf), t, model),
            },
        }
    }
}

#[via_fn]
proof fn next_chunk_shrinks(buf: Seq<char>, s: ChunkStream, model: Seq<char>) {
    lemma_gap(buf);
}

/// Turns a Responses API stream into a stream of Chat Completions chunks.
pub struct CodexSse {
    pub buf: String,
    pub tail: Vec<u8>,
    pub chunk_state: SseChunkState,
    pub model: String,
    pub finished: bool,
}

impl CodexSse {
    pub fn new(model: String) -> (r: CodexSse)
        ensures
            r.buf@ == Seq::<char>::empty(),
            r.tail@ == Seq::<u8>::empty(),
            r.chunk_state@ == (ChunkStream { id: seq![], created: 0, called: false }),
            r.model@ == model@,
            !r.finished,
    {
        CodexSse {
            buf: String::new(),
            tail: Vec::new(),
            chunk_state: SseChunkState::new(),
            model,
            finished: false,
        }
    }

    /// Takes in received bytes. A character that they do not finish waits for
    /// the rest of it.
    pub fn push_bytes(&mut self, bytes: &[u8])
        ensures
            ({
                let t = old(self).tail@ + bytes@;
                &&& final(self).buf@ == old(self).buf@ + read_text(t.subrange(0, whole(t)))
                &&& final(self).tail@ == t.subrange(whole(t), t.len() as int)
            }),
            final(self).chunk_state@ == old(self).chunk_state@,
            final(self).model@ == old(self).model@,
            final(self).finished == old(self).finished,
    {
        let text = read_piece(&mut self.tail, bytes);
        self.buf.append(text.as_str());
    }

    /// The next block to send, where the received text gives one.
    pub fn next(&mut self) -> (r: Option<String>)
        ensures
            final(self).model@ == old(self).model@,
            final(self).tail@ == old(self).tail@,
            final(self).finished == old(self).finished,
            old(self).finished ==> r is None && final(self).buf@ == old(self).buf@ && final(self).chunk_state@ == old(self).chunk_state@,
            !old(self).finished ==> ({
                let step = next_chunk(old(self).buf@, old(self).chunk_state@, old(self).model@);
                &&& opt_text(r) == match step.0 {
                    Some(chunk) => Some(chunk_block(chunk)),
                    None => None,
                }
                &&& final(self).buf@ == step.1
                &&& final(self).chunk_state@ == step.2
            }),
    {
        if self.finished {
            return None;
        }
        let ghost start = next_chunk(self.buf@, self.chunk_state@, self.model@);
        loop
            invariant
                start == next_chunk(self.buf@, self.chunk_state@, self.model@),
                start == next_chunk(old(self).buf@, old(self).chunk_state@, old(self).model@),
                self.model@ == old(self).model@,
                self.tail@ == old(self).tail@,
                self.finished == old(self).finished,
                !self.finished,
            decreases self.buf@.len(),
        {
            proof {
                lemma_gap(self.buf@);
            }
            match take_block(self.buf.as_str()) {
                None => {
                    return None;
                },
                Some((block, rest)) => {
                    let v = chars_of(block.as_str());
                    let inner = string_of(&v, 0, v.len() - 2);
                    assert(inner@ =~= block_text(self.buf@));
                    self.buf = rest;
                    match parse_sse_block(inner.as_str()) {
                        None => {},
                        Some((event, data)) => {
                            match chat_chunk_for_event(
                                &mut self.chunk_state,
                                event.as_str(),
                                &data,
                                self.model.as_str(),
                            ) {
                                Some(chunk) => {
                                    return Some(chunk_block_of(&chunk));
                                },
                                None => {},
                            }
                        },
                    }
                },
            }
        }
    }

    /// The received stream ended: the end marker goes out, unless the stream
    /// is over.
    pub fn end(&mut self) -> (r: Option<String>)
        ensures
            opt_text(r) == if old(self).finished {
                None
            } else {
                Some(SSE_DONE@)
            },
            final(self).finished,
            old(self).finished ==> final(self).buf@ == old(self).buf@ && final(self).tail@
                == old(self).tail@,
            !old(self).finished ==> final(self).buf@ == old(self).buf@ + read_text(old(self).tail@)
                && final(self).tail@ == Seq::<u8>::empty(),
            final(self).chunk_state@ == old(self).chunk_state@,
            final(self).model@ == old(self).model@,
    {
        if self.finished {
            return None;
        }
        let text = read_rest(&mut self.tail);
        self.buf.append(text.as_str());
        self.finished = true;
        Some(owned(SSE_DONE))
    }

    /// The received stream broke off: nothing more is sent.
    pub fn stop(&mut self)
        ensures
            final(self).finished,
            final(self).buf@ == old(self).buf@,
            final(self).tail@ == old(self).tail@,
            final(self).chunk_state@ == old(self).chunk_state@,
            final(self).model@ == old(self).model@,
    {
        self.finished = true;
    }
}

// ---------------------------------------------------------------------------
// Laws
// ---------------------------------------------------------------------------

/// No member `id` stands in the value, at any depth.
pub open spec fn id_free(v: JsonView) -> bool
    decreases v,
{
    match v {
        JsonView::Object(m) => m.dom().finite() && !m.contains_key("id"@) && forall|k: Seq<char>|
            #[trigger] m.contains_key(k) && m.dom().finite() ==> id_free(m[k]),
        JsonView::Array(s) => forall|i: int| 0 <= i < s.len() ==> id_free(#[trigger] s[i]),
        _ => true,
    }
}

/// Stripping leaves no `id` behind.
pub proof fn law_stripped_has_no_id(v: JsonView)
    requires
        finite(v),
    ensures
        id_free(stripped(v)),
    decreases v,
{
    match v {
        JsonView::Object(m) => {
            let out = stripped(v)->Object_0;
            assert(out.dom().subset_of(m.dom()));
            vstd::set_lib::lemma_set_subset_finite(m.dom(), out.dom());
            assert forall|k: Seq<char>| #[trigger] out.contains_key(k) implies id_free(out[k]) by {
                assert(m.contains_key(k));
                law_stripped_has_no_id(m[k]);
            }
        },
        JsonView::Array(s) => {
            let out = stripped(v)->Array_0;
            assert forall|i: int| 0 <= i < out.len() implies id_free(#[trigger] out[i]) by {
                law_stripped_has_no_id(s[i]);
            }
        },
        _ => {},
    }
}

/// A request for Codex holds nothing that its backend rejects: no disallowed
/// member, no `messages`; it is streamed, not stored, and bound to the session.
pub proof fn law_codex_request_is_accepted(body: JsonView, session: Seq<char>, key: Seq<char>)
    requires
        body is Object,
        disallowed(key) || key == "messages"@,
    ensures
        codex_request(body, session).field(key) is None,
        codex_request(body, session).at("store"@) == JsonView::Bool(false),
        codex_request(body, session).at("stream"@) == JsonView::Bool(true),
        codex_request(body, session).at("prompt_cache_key"@) == text(session),
{
    lemma_request_keys(key);
}

/// The members that are rejected are none of those that a request sets.
pub proof fn lemma_request_keys(key: Seq<char>)
    requires
        disallowed(key) || key == "messages"@,
    ensures
        key != "input"@,
        key != "tools"@,
        key != "tool_choice"@,
        key != "store"@,
        key != "stream"@,
        key != "prompt_cache_key"@,
        key != "reasoning"@,
        key != "include"@,
        "store"@ != "stream"@,
        "store"@ != "prompt_cache_key"@,
        "store"@ != "reasoning"@,
        "store"@ != "include"@,
        "stream"@ != "prompt_cache_key"@,
        "stream"@ != "reasoning"@,
        "stream"@ != "include"@,
        "prompt_cache_key"@ != "reasoning"@,
        "prompt_cache_key"@ != "include"@,
{
    reveal_strlit("temperature");
    reveal_strlit("top_p");
    reveal_strlit("max_tokens");
    reveal_strlit("max_output_tokens");
    reveal_strlit("user");
    reveal_strlit("n");
    reveal_strlit("presence_penalty");
    reveal_strlit("frequency_penalty");
    reveal_strlit("logprobs");
    reveal_strlit("top_logprobs");
    reveal_strlit("logit_bias");
    reveal_strlit("seed");
    reveal_strlit("stop");
    reveal_strlit("response_format");
    reveal_strlit("stream_options");
    reveal_strlit("parallel_tool_calls");
    reveal_strlit("service_tier");
    reveal_strlit("messages");
    reveal_strlit("input");
    reveal_strlit("tools");
    reveal_strlit("tool_choice");
    reveal_strlit("store");
    reveal_strlit("stream");
    reveal_strlit("prompt_cache_key");
    reveal_strlit("reasoning");
    reveal_strlit("include");
    assert("input"@.len() == 5 && "input"@[0] == 'i');
    assert("tools"@.len() == 5 && "tools"@[2] == 'o');
    assert("tool_choice"@.len() == 11 && "tool_choice"@[1] == 'o');
    assert("store"@.len() == 5 && "store"@[0] == 's');
    assert("stream"@.len() == 6);
    assert("prompt_cache_key"@.len() == 16 && "prompt_cache_key"@[2] == 'o');
    assert("reasoning"@.len() == 9 && "reasoning"@[0] == 'r');
    assert("include"@.len() == 7);
    assert("temperature"@.len() == 11 && "temperature"@[1] == 'e');
    assert("top_p"@.len() == 5 && "top_p"@[2] == 'p');
    assert("max_tokens"@.len() == 10);
    assert("max_output_tokens"@.len() == 17);
    assert("user"@.len() == 4);
    assert("n"@.len() == 1);
    assert("presence_penalty"@.len() == 16 && "presence_penalty"@[2] == 'e');
    assert("frequency_penalty"@.len() == 17);
    assert("logprobs"@.len() == 8);
    assert("top_logprobs"@.len() == 12);
    assert("logit_bias"@.len() == 10);
    assert("seed"@.len() == 4);
    assert("stop"@.len() == 4);
    assert("response_format"@.len() == 15);
    assert("stream_options"@.len() == 14);
    assert("parallel_tool_calls"@.len() == 19);
    assert("service_tier"@.len() == 12);
    assert("messages"@.len() == 8);
}

// ---------------------------------------------------------------------------
// Streamed or whole
// ---------------------------------------------------------------------------

/// The chunks that events become, one behind the other, and the state behind
/// them.
pub open spec fn chunks_of(
    events: Seq<(Seq<char>, JsonView)>,
    s: ChunkStream,
    model: Seq<char>,
) -> (Seq<JsonView>, ChunkStream)
    decreases events.len(),
{
    if events.len() == 0 {
        (seq![], s)
    } else {
        let (chunks, t) = chunks_of(events.drop_last(), s, model);
        let (chunk, u) = chunk_for(t, events.last().0, events.last().1, model);
        match chunk {
            Some(c) => (chunks.push(c), u),
            None => (chunks, u),
        }
    }
}

/// Texts come under the name that the Responses API gives them.
pub open spec fn texts_well_named(events: Seq<(Seq<char>, JsonView)>) -> bool {
    forall|i: int|
        0 <= i < events.len() && has_suffix((#[trigger] events[i]).0, "output_text.delta"@)
            ==> events[i].0 == "response.output_text.delta"@
}

/// The words of chunks and events differ.
proof fn lemma_chunk_words()
    ensures
        "choices"@ != "usage"@,
        "delta"@ != "finish_reason"@,
        "content"@ != "tool_calls"@,
        "response.output_text.delta"@ != "response.created"@,
        has_suffix("response.output_text.delta"@, "output_text.delta"@),
        ""@.len() == 0,
{
    reveal_strlit("choices");
    reveal_strlit("usage");
    reveal_strlit("delta");
    reveal_strlit("finish_reason");
    reveal_strlit("content");
    reveal_strlit("tool_calls");
    reveal_strlit("response.output_text.delta");
    reveal_strlit("response.created");
    reveal_strlit("output_text.delta");
    reveal_strlit("");
    assert("choices"@.len() == 7);
    assert("usage"@.len() == 5);
    assert("delta"@.len() == 5);
    assert("finish_reason"@.len() == 13);
    assert("content"@.len() == 7);
    assert("tool_calls"@.len() == 10);
    assert("response.output_text.delta"@.len() == 26);
    assert("response.created"@.len() == 16);
    assert("output_text.delta"@.len() == 17);
    assert("response.output_text.delta"@.subrange(9, 26) =~= "output_text.delta"@);
}

proof fn lemma_chunk_says(
    s: ChunkStream,
    model: Seq<char>,
    delta: JsonView,
    finish: Option<Seq<char>>,
    usage: Option<JsonView>,
)
    ensures
        chunk_text(chat_chunk(s, model, delta, finish).put_some("usage"@, usage)) == delta.at(
            "content"@,
        ).str_or_empty(),
{
    lemma_chunk_words();
    let choice = obj().put("index"@, JsonView::Int(0)).put("delta"@, delta).put(
        "finish_reason"@,
        text_or_null(finish),
    );
    assert(choice.at("delta"@) == delta);
    let c = chat_chunk(s, model, delta, finish);
    assert(c.at("choices"@) == JsonView::Array(seq![choice]));
    assert(c.put_some("usage"@, usage).at("choices"@) == JsonView::Array(seq![choice]));
}

/// What one event says, streamed and whole.
proof fn lemma_event_says(s: ChunkStream, event: Seq<char>, data: JsonView, model: Seq<char>)
    ensures
        (match chunk_for(s, event, data, model).0 {
            Some(c) => chunk_text(c),
            None => seq![],
        }) == (if event == "response.output_text.delta"@ {
            data.at("delta"@).str_or_empty()
        } else {
            seq![]
        }),
{
    lemma_chunk_words();
    let said = if event == "response.output_text.delta"@ {
        data.at("delta"@).str_or_empty()
    } else {
        seq![]
    };
    if event == "response.created"@ {
        let t = ChunkStream {
            id: data.at("response"@).at("id"@).str_or_empty(),
            created: data.at("response"@).at("created_at"@).int64_or_zero(),
            ..s
        };
        let delta = obj().put("role"@, text("assistant"@)).put("content"@, text(""@));
        assert(delta.at("content"@) == text(""@));
        lemma_chunk_says(t, model, delta, None, None);
        assert(said =~= ""@);
    } else if event == "response.output_text.delta"@ {
        let delta = obj().put("content"@, text(said));
        assert(delta.at("content"@) == text(said));
        lemma_chunk_says(s, model, delta, None, None);
    } else if event == "response.output_item.added"@ {
        if data.at("item"@).at("type"@).str() == Some("function_call"@) {
            let t = ChunkStream { called: true, ..s };
            lemma_chunk_says(t, model, call_delta(data), None, None);
            assert(call_delta(data).at("content"@) == JsonView::Null);
            assert(said =~= ""@);
        }
    } else if event == "response.function_call_arguments.delta"@ {
        lemma_chunk_says(s, model, args_delta(data), None, None);
        assert(args_delta(data).at("content"@) == JsonView::Null);
        assert(said =~= ""@);
    } else if event == "response.completed"@ {
        let finish = if s.called {
            "tool_calls"@
        } else {
            "stop"@
        };
        lemma_chunk_says(
            s,
            model,
            obj(),
            Some(finish),
            chat_usage(data.at("response"@).at("usage"@)),
        );
        assert(obj().at("content"@) == JsonView::Null);
        assert(said =~= ""@);
    }
}

/// An answer says the same whether it is streamed or given whole.
pub proof fn law_stream_says_what_the_answer_says(
    events: Seq<(Seq<char>, JsonView)>,
    s: ChunkStream,
    model: Seq<char>,
)
    requires
        texts_well_named(events),
    ensures
        streamed_text(chunks_of(events, s, model).0) == gather(events).content,
    decreases events.len(),
{
    if events.len() > 0 {
        let rest = events.drop_last();
        assert forall|i: int|
            0 <= i < rest.len() && has_suffix((#[trigger] rest[i]).0, "output_text.delta"@) implies
            rest[i].0 == "response.output_text.delta"@ by {
            assert(rest[i] == events[i]);
        }
        law_stream_says_what_the_answer_says(rest, s, model);
        let (chunks, t) = chunks_of(rest, s, model);
        let (name, data) = events.last();
        lemma_chunk_words();
        lemma_event_says(t, name, data, model);
        assert(events[events.len() - 1] == events.last());
        let before = gather(rest).content;
        match chunk_for(t, name, data, model).0 {
            Some(c) => {
                assert(chunks.push(c).drop_last() =~= chunks);
                assert(streamed_text(chunks.push(c)) == before + chunk_text(c));
            },
            None => {
                assert(before + Seq::<char>::empty() =~= before);
            },
        }
        if !has_suffix(name, "output_text.delta"@) {
            assert(before + Seq::<char>::empty() =~= before);
        } else {
            assert(before + ""@ =~= before);
        }
        assert(streamed_text(chunks_of(events, s, model).0) =~= gather(events).content);
    }
}

} // verus!
