//! What the Chat Completions chunks of a streamed Anthropic answer hold: its tool
//! calls with their ids, names and arguments, what it says, and how it began and
//! ended.
use vstd::prelude::*;

use crate::codex::claude_stream::{
    lemma_event_names, openai_chunk, openai_event, OpenAiStream, TEXT_BLOCK, TOOL_BLOCK,
};
use crate::index_table::{ascending, entry, law_entered};
use crate::json::{obj, text, text_or_null, JsonView};

verus! {

/// The words of Chat Completions chunks differ.
pub proof fn lemma_chunk_words()
    ensures
        "id"@ != "object"@,
        "id"@ != "model"@,
        "id"@ != "choices"@,
        "id"@ != "usage"@,
        "object"@ != "model"@,
        "object"@ != "choices"@,
        "object"@ != "usage"@,
        "model"@ != "choices"@,
        "model"@ != "usage"@,
        "choices"@ != "usage"@,
        "index"@ != "delta"@,
        "index"@ != "finish_reason"@,
        "delta"@ != "finish_reason"@,
        "index"@ != "id"@,
        "index"@ != "type"@,
        "index"@ != "function"@,
        "id"@ != "type"@,
        "id"@ != "function"@,
        "type"@ != "function"@,
        "name"@ != "arguments"@,
        "role"@ != "content"@,
        "content"@ != "tool_calls"@,
        "max_tokens"@ != "tool_use"@,
        "prompt_tokens"@ != "completion_tokens"@,
        "prompt_tokens"@ != "total_tokens"@,
        "prompt_tokens"@ != "prompt_tokens_details"@,
        "completion_tokens"@ != "total_tokens"@,
        "completion_tokens"@ != "prompt_tokens_details"@,
        "total_tokens"@ != "prompt_tokens_details"@,
        ""@.len() == 0,
{
    reveal_strlit("id");
    reveal_strlit("object");
    reveal_strlit("model");
    reveal_strlit("choices");
    reveal_strlit("usage");
    reveal_strlit("index");
    reveal_strlit("delta");
    reveal_strlit("finish_reason");
    reveal_strlit("type");
    reveal_strlit("function");
    reveal_strlit("name");
    reveal_strlit("arguments");
    reveal_strlit("role");
    reveal_strlit("content");
    reveal_strlit("tool_calls");
    reveal_strlit("max_tokens");
    reveal_strlit("tool_use");
    reveal_strlit("prompt_tokens");
    reveal_strlit("completion_tokens");
    reveal_strlit("total_tokens");
    reveal_strlit("prompt_tokens_details");
    reveal_strlit("");
    assert("id"@.len() == 2);
    assert("object"@.len() == 6);
    assert("model"@.len() == 5);
    assert("choices"@.len() == 7);
    assert("usage"@.len() == 5);
    assert("index"@.len() == 5);
    assert("delta"@.len() == 5);
    assert("finish_reason"@.len() == 13);
    assert("type"@.len() == 4);
    assert("function"@.len() == 8);
    assert("name"@.len() == 4);
    assert("arguments"@.len() == 9);
    assert("role"@.len() == 4);
    assert("content"@.len() == 7);
    assert("tool_calls"@.len() == 10);
    assert("max_tokens"@.len() == 10);
    assert("tool_use"@.len() == 8);
    assert("prompt_tokens"@.len() == 13);
    assert("completion_tokens"@.len() == 17);
    assert("total_tokens"@.len() == 12);
    assert("prompt_tokens_details"@.len() == 21);
    assert(""@.len() == 0);
    assert("model"@[0] != "usage"@[0]);
    assert("index"@[0] != "delta"@[0]);
}

/// The choice of a chunk.
pub open spec fn choice_in(chunk: JsonView) -> JsonView {
    chunk.at("choices"@).items()[0]
}

/// The tool call that a chunk speaks of.
pub open spec fn call_in(chunk: JsonView) -> JsonView {
    choice_in(chunk).at("delta"@).at("tool_calls"@).items()[0]
}

/// The chunk speaks of one tool call and says nothing else.
pub open spec fn only_calls(chunk: JsonView) -> bool {
    &&& chunk.at("choices"@).items().len() == 1
    &&& choice_in(chunk).at("delta"@).at("tool_calls"@).items().len() == 1
    &&& choice_in(chunk).at("delta"@).at("content"@) == JsonView::Null
    &&& choice_in(chunk).at("finish_reason"@) == JsonView::Null
}

/// The index of the block that an event speaks of.
pub open spec fn spoken_of(data: JsonView) -> u64 {
    data.at("index"@).uint64_or_zero() as u64
}

/// The id and the model that a stream has learnt stand in the chunk.
pub open spec fn signed_by(chunk: JsonView, s: OpenAiStream) -> bool {
    &&& chunk.at("id"@) == JsonView::Str(s.id)
    &&& chunk.at("model"@) == JsonView::Str(s.model)
    &&& chunk.at("object"@) == JsonView::Str("chat.completion.chunk"@)
}

proof fn lemma_chunk(s: OpenAiStream, delta: JsonView, finish: Option<Seq<char>>, usage: Option<JsonView>)
    ensures
        ({
            let c = openai_chunk(s, delta, finish).put_some("usage"@, usage);
            &&& signed_by(c, s)
            &&& c.at("choices"@).items().len() == 1
            &&& choice_in(c).at("delta"@) == delta
            &&& choice_in(c).at("finish_reason"@) == text_or_null(finish)
            &&& usage is Some ==> c.at("usage"@) == usage->0
        }),
{
    lemma_chunk_words();
    let choice = obj().put("index"@, JsonView::Int(0)).put("delta"@, delta).put(
        "finish_reason"@,
        text_or_null(finish),
    );
    assert(choice.at("delta"@) == delta);
    assert(choice.at("finish_reason"@) == text_or_null(finish));
    let c = openai_chunk(s, delta, finish).put_some("usage"@, usage);
    assert(c.at("choices"@) == JsonView::Array(seq![choice]));
}

/// The start of a tool's block becomes the start of a call with the block's id
/// and the block's name, and no arguments yet. Its number is the next free one.
pub proof fn law_tool_block_becomes_a_call(data: JsonView, s: OpenAiStream)
    requires
        data.at("content_block"@).at("type"@) == JsonView::Str("tool_use"@),
    ensures
        ({
            let (chunk, t) = openai_event("content_block_start"@, data, s);
            let call = call_in(chunk->0);
            &&& chunk is Some
            &&& only_calls(chunk->0)
            &&& signed_by(chunk->0, s)
            &&& call.at("id"@) == data.at("content_block"@).at("id"@)
            &&& call.at("type"@) == JsonView::Str("function"@)
            &&& call.at("function"@).at("name"@) == data.at("content_block"@).at("name"@)
            &&& call.at("function"@).at("arguments"@) == JsonView::Str(seq![])
            &&& call.at("index"@) == JsonView::Int(s.next as int)
            &&& s.next < u64::MAX ==> t.next == s.next + 1
        }),
{
    lemma_chunk_words();
    lemma_event_names();
    let (chunk, t) = openai_event("content_block_start"@, data, s);
    let block = data.at("content_block"@);
    let delta = crate::codex::claude_stream::tool_delta(s.next, block);
    lemma_chunk(t, delta, None, None);
    assert(""@ =~= seq![]);
    assert(delta.at("tool_calls"@).items().len() == 1);
}

/// Whatever other event comes between, the arguments of a block go to the call
/// that its start began: under the same number, and as they were given.
pub proof fn law_arguments_go_to_their_call(
    start: JsonView,
    event: Seq<char>,
    other: JsonView,
    more: JsonView,
    s: OpenAiStream,
)
    requires
        ascending(s.kinds),
        ascending(s.tools),
        start.at("content_block"@).at("type"@) == JsonView::Str("tool_use"@),
        spoken_of(more) == spoken_of(start),
        event == "content_block_start"@ ==> spoken_of(other) != spoken_of(start),
    ensures
        ({
            let (began, t) = openai_event("content_block_start"@, start, s);
            let (_, u) = openai_event(event, other, t);
            let (chunk, v) = openai_event("content_block_delta"@, more, u);
            &&& chunk is Some
            &&& only_calls(chunk->0)
            &&& call_in(chunk->0).at("index"@) == call_in(began->0).at("index"@)
            &&& call_in(chunk->0).at("function"@).at("arguments"@) == JsonView::Str(
                more.at("delta"@).at("partial_json"@).str_or_empty(),
            )
            &&& call_in(chunk->0).at("id"@) == JsonView::Null
            &&& v == u
        }),
{
    lemma_chunk_words();
    lemma_event_names();
    law_tool_block_becomes_a_call(start, s);
    let i = spoken_of(start);
    let j = spoken_of(other);
    let (began, t) = openai_event("content_block_start"@, start, s);
    law_entered(s.kinds, i, TOOL_BLOCK, i);
    law_entered(s.tools, i, s.next, i);
    let (_, u) = openai_event(event, other, t);
    law_entered(t.kinds, j, TOOL_BLOCK, i);
    law_entered(t.kinds, j, TEXT_BLOCK, i);
    law_entered(t.tools, j, t.next, i);
    assert(entry(u.kinds, i) == Some(TOOL_BLOCK));
    assert(entry(u.tools, i) == Some(s.next));
    let args = more.at("delta"@).at("partial_json"@).str_or_empty();
    let delta = crate::codex::claude_stream::arguments_delta(s.next, args);
    lemma_chunk(u, delta, None, None);
    assert(delta.at("tool_calls"@).items().len() == 1);
}

/// Whatever other event comes between, the text of a block that is no tool's is
/// what the chunk says; without text there is no chunk.
pub proof fn law_text_is_passed_on(
    start: JsonView,
    event: Seq<char>,
    other: JsonView,
    more: JsonView,
    s: OpenAiStream,
)
    requires
        ascending(s.kinds),
        start.at("content_block"@).at("type"@) != JsonView::Str("tool_use"@),
        spoken_of(more) == spoken_of(start),
        event == "content_block_start"@ ==> spoken_of(other) != spoken_of(start),
    ensures
        openai_event("content_block_start"@, start, s).0 is None,
        ({
            let (_, t) = openai_event("content_block_start"@, start, s);
            let (_, u) = openai_event(event, other, t);
            let (chunk, v) = openai_event("content_block_delta"@, more, u);
            let said = more.at("delta"@).at("text"@).str_or_empty();
            &&& v == u
            &&& chunk is None <==> said.len() == 0
            &&& said.len() > 0 ==> {
                &&& choice_in(chunk->0).at("delta"@).at("content"@) == JsonView::Str(said)
                &&& choice_in(chunk->0).at("delta"@).at("tool_calls"@) == JsonView::Null
                &&& choice_in(chunk->0).at("finish_reason"@) == JsonView::Null
                &&& signed_by(chunk->0, u)
            }
        }),
{
    lemma_chunk_words();
    lemma_event_names();
    let i = spoken_of(start);
    let j = spoken_of(other);
    let (_, t) = openai_event("content_block_start"@, start, s);
    law_entered(s.kinds, i, TEXT_BLOCK, i);
    let (_, u) = openai_event(event, other, t);
    law_entered(t.kinds, j, TOOL_BLOCK, i);
    law_entered(t.kinds, j, TEXT_BLOCK, i);
    assert(entry(u.kinds, i) == Some(TEXT_BLOCK));
    let said = more.at("delta"@).at("text"@).str_or_empty();
    let delta = obj().put("content"@, text(said));
    lemma_chunk(u, delta, None, None);
    assert(delta.at("content"@) == text(said));
}

/// The start of a message begins the answer with its id and its model, which
/// every later event keeps, and says that the assistant speaks.
pub proof fn law_message_names_the_answer(
    data: JsonView,
    s: OpenAiStream,
    event: Seq<char>,
    other: JsonView,
)
    requires
        event != "message_start"@,
    ensures
        ({
            let (chunk, t) = openai_event("message_start"@, data, s);
            let message = data.at("message"@);
            &&& chunk is Some
            &&& signed_by(chunk->0, t)
            &&& message.at("id"@).str_or_empty().len() > 0 ==> chunk->0.at("id"@) == message.at("id"@)
            &&& message.at("id"@).str_or_empty().len() == 0 ==> chunk->0.at("id"@)
                == JsonView::Str("msg_unknown"@)
            &&& message.at("model"@) is Str ==> chunk->0.at("model"@) == message.at("model"@)
            &&& !(message.at("model"@) is Str) ==> chunk->0.at("model"@) == JsonView::Str(
                "unknown"@,
            )
            &&& choice_in(chunk->0).at("delta"@).at("role"@) == JsonView::Str("assistant"@)
            &&& choice_in(chunk->0).at("delta"@).at("content"@) == JsonView::Str(seq![])
            &&& choice_in(chunk->0).at("finish_reason"@) == JsonView::Null
            &&& openai_event(event, other, t).1.id == t.id
            &&& openai_event(event, other, t).1.model == t.model
        }),
{
    lemma_chunk_words();
    lemma_event_names();
    let (chunk, t) = openai_event("message_start"@, data, s);
    let delta = obj().put("role"@, text("assistant"@)).put("content"@, text(""@));
    lemma_chunk(t, delta, None, None);
    assert(delta.at("role"@) == text("assistant"@));
    assert(delta.at("content"@) == text(""@));
    assert(""@ =~= seq![]);
}

/// The end of a message tells the client why: an answer that called a tool ended
/// for that, one that was cut off says so, and any other came to its end. The
/// prompt counts what was read from the cache, and the total adds up.
pub proof fn law_message_end_tells_why(data: JsonView, s: OpenAiStream)
    ensures
        ({
            let (chunk, t) = openai_event("message_delta"@, data, s);
            let why = choice_in(chunk->0).at("finish_reason"@);
            let stop = data.at("delta"@).at("stop_reason"@).str_or("end_turn"@);
            let given = data.at("usage"@);
            let counts = chunk->0.at("usage"@);
            let fresh = given.at("input_tokens"@).int64_or_zero();
            let cached = given.at("cache_read_input_tokens"@).int64_or_zero();
            let output = given.at("output_tokens"@).int64_or_zero();
            &&& chunk is Some
            &&& t == s
            &&& signed_by(chunk->0, s)
            &&& choice_in(chunk->0).at("delta"@) == JsonView::Object(Map::empty())
            &&& s.tools.len() > 0 || stop == "tool_use"@ ==> why == JsonView::Str("tool_calls"@)
            &&& s.tools.len() == 0 && stop == "max_tokens"@ ==> why == JsonView::Str("length"@)
            &&& s.tools.len() == 0 && stop != "max_tokens"@ && stop != "tool_use"@ ==> why
                == JsonView::Str("stop"@)
            &&& data.field("usage"@) is Some && 0 <= fresh && 0 <= cached && 0 <= output && fresh
                + cached + output <= i64::MAX ==> {
                &&& counts.at("prompt_tokens"@) == JsonView::Int(fresh + cached)
                &&& counts.at("completion_tokens"@) == JsonView::Int(output)
                &&& counts.at("total_tokens"@) == JsonView::Int(fresh + cached + output)
                &&& cached > 0 ==> counts.at("prompt_tokens_details"@).at("cached_tokens"@)
                    == JsonView::Int(cached)
            }
        }),
{
    lemma_chunk_words();
    lemma_event_names();
    let stop = data.at("delta"@).at("stop_reason"@).str_or("end_turn"@);
    let finish = if s.tools.len() > 0 {
        "tool_calls"@
    } else {
        crate::codex::claude_message::finish_reason(stop)
    };
    let wrapped = obj().put("usage"@, data.at("usage"@));
    assert(wrapped.field("usage"@) == Some(data.at("usage"@)));
    let usage = match data.field("usage"@) {
        Some(u) => Some(crate::codex::claude_message::openai_usage(obj().put("usage"@, u))),
        None => None,
    };
    lemma_chunk(s, obj(), Some(finish), usage);
}

/// Any other event says nothing and changes nothing.
pub proof fn law_other_events_are_silent(event: Seq<char>, data: JsonView, s: OpenAiStream)
    requires
        event != "message_start"@,
        event != "content_block_start"@,
        event != "content_block_delta"@,
        event != "message_delta"@,
    ensures
        openai_event(event, data, s) == (None::<JsonView>, s),
{
}

} // verus!
