//! What Chat Completions clients get of a Responses API answer, streamed and whole.
use vstd::prelude::*;

use crate::codex::chunk_laws::{call_in, choice_in, only_calls};
use crate::codex::transform::{
    args_delta, call_delta, chat_chunk, chat_usage, chunk_for, completion, first_error, gather,
    is_error, ChunkStream,
};
use crate::json::{obj, text, text_or_null, JsonView};
use crate::text::{has_suffix, occurs};

verus! {

/// The words of chunks and of Responses API events differ.
proof fn lemma_words()
    ensures
        "id"@ != "object"@,
        "id"@ != "created"@,
        "id"@ != "model"@,
        "id"@ != "choices"@,
        "id"@ != "usage"@,
        "object"@ != "created"@,
        "object"@ != "model"@,
        "object"@ != "choices"@,
        "object"@ != "usage"@,
        "created"@ != "model"@,
        "created"@ != "choices"@,
        "created"@ != "usage"@,
        "model"@ != "choices"@,
        "model"@ != "usage"@,
        "choices"@ != "usage"@,
        "index"@ != "delta"@,
        "index"@ != "finish_reason"@,
        "index"@ != "message"@,
        "delta"@ != "finish_reason"@,
        "delta"@ != "message"@,
        "finish_reason"@ != "message"@,
        "index"@ != "id"@,
        "index"@ != "type"@,
        "index"@ != "function"@,
        "id"@ != "type"@,
        "id"@ != "function"@,
        "type"@ != "function"@,
        "name"@ != "arguments"@,
        "role"@ != "content"@,
        "role"@ != "tool_calls"@,
        "role"@ != "reasoning_content"@,
        "content"@ != "tool_calls"@,
        "content"@ != "reasoning_content"@,
        "tool_calls"@ != "reasoning_content"@,
        "prompt_tokens"@ != "completion_tokens"@,
        "prompt_tokens"@ != "total_tokens"@,
        "prompt_tokens"@ != "prompt_tokens_details"@,
        "completion_tokens"@ != "total_tokens"@,
        "completion_tokens"@ != "prompt_tokens_details"@,
        "total_tokens"@ != "prompt_tokens_details"@,
        "response.created"@ != "response.output_text.delta"@,
        "response.created"@ != "response.output_item.added"@,
        "response.created"@ != "response.function_call_arguments.delta"@,
        "response.created"@ != "response.completed"@,
        "response.output_text.delta"@ != "response.output_item.added"@,
        "response.output_text.delta"@ != "response.function_call_arguments.delta"@,
        "response.output_text.delta"@ != "response.completed"@,
        "response.output_item.added"@ != "response.function_call_arguments.delta"@,
        "response.output_item.added"@ != "response.completed"@,
        "response.function_call_arguments.delta"@ != "response.completed"@,
        ""@.len() == 0,
{
    reveal_strlit("id");
    reveal_strlit("object");
    reveal_strlit("created");
    reveal_strlit("model");
    reveal_strlit("choices");
    reveal_strlit("usage");
    reveal_strlit("index");
    reveal_strlit("delta");
    reveal_strlit("finish_reason");
    reveal_strlit("message");
    reveal_strlit("type");
    reveal_strlit("function");
    reveal_strlit("name");
    reveal_strlit("arguments");
    reveal_strlit("role");
    reveal_strlit("content");
    reveal_strlit("tool_calls");
    reveal_strlit("reasoning_content");
    reveal_strlit("prompt_tokens");
    reveal_strlit("completion_tokens");
    reveal_strlit("total_tokens");
    reveal_strlit("prompt_tokens_details");
    reveal_strlit("response.created");
    reveal_strlit("response.output_text.delta");
    reveal_strlit("response.output_item.added");
    reveal_strlit("response.function_call_arguments.delta");
    reveal_strlit("response.completed");
    reveal_strlit("");
    assert("id"@.len() == 2);
    assert("object"@.len() == 6);
    assert("created"@.len() == 7);
    assert("model"@.len() == 5);
    assert("choices"@.len() == 7);
    assert("usage"@.len() == 5);
    assert("index"@.len() == 5);
    assert("delta"@.len() == 5);
    assert("finish_reason"@.len() == 13);
    assert("message"@.len() == 7);
    assert("type"@.len() == 4);
    assert("function"@.len() == 8);
    assert("name"@.len() == 4);
    assert("arguments"@.len() == 9);
    assert("role"@.len() == 4);
    assert("content"@.len() == 7);
    assert("tool_calls"@.len() == 10);
    assert("reasoning_content"@.len() == 17);
    assert("prompt_tokens"@.len() == 13);
    assert("completion_tokens"@.len() == 17);
    assert("total_tokens"@.len() == 12);
    assert("prompt_tokens_details"@.len() == 21);
    assert("response.created"@.len() == 16);
    assert("response.output_text.delta"@.len() == 26);
    assert("response.output_item.added"@.len() == 26);
    assert("response.function_call_arguments.delta"@.len() == 38);
    assert("response.completed"@.len() == 18);
    assert(""@.len() == 0);
    assert("created"@[1] != "choices"@[1]);
    assert("model"@[0] != "usage"@[0]);
    assert("index"@[0] != "delta"@[0]);
    assert("response.output_text.delta"@[16] != "response.output_item.added"@[16]);
}

/// The id, the time and the model of the answer stand in the chunk.
pub open spec fn signed(chunk: JsonView, s: ChunkStream, model: Seq<char>) -> bool {
    &&& chunk.at("id"@) == JsonView::Str(s.id)
    &&& chunk.at("created"@) == JsonView::Int(s.created)
    &&& chunk.at("model"@) == JsonView::Str(model)
    &&& chunk.at("object"@) == JsonView::Str("chat.completion.chunk"@)
    &&& chunk.at("choices"@).items().len() == 1
    &&& choice_in(chunk).at("index"@) == JsonView::Int(0)
}

pub proof fn lemma_signed(
    s: ChunkStream,
    model: Seq<char>,
    delta: JsonView,
    finish: Option<Seq<char>>,
    usage: Option<JsonView>,
)
    ensures
        ({
            let c = chat_chunk(s, model, delta, finish).put_some("usage"@, usage);
            &&& signed(c, s, model)
            &&& choice_in(c).at("delta"@) == delta
            &&& choice_in(c).at("finish_reason"@) == text_or_null(finish)
            &&& c.field("usage"@) == usage
        }),
{
    lemma_words();
    let choice = obj().put("index"@, JsonView::Int(0)).put("delta"@, delta).put(
        "finish_reason"@,
        text_or_null(finish),
    );
    assert(choice.at("delta"@) == delta);
    assert(choice.at("index"@) == JsonView::Int(0));
    let c = chat_chunk(s, model, delta, finish).put_some("usage"@, usage);
    assert(c.at("choices"@) == JsonView::Array(seq![choice]));
}

/// The first event gives the answer its id and its time, which every later event
/// keeps; the chunk says that the assistant speaks.
pub proof fn law_answer_is_announced(
    s: ChunkStream,
    data: JsonView,
    model: Seq<char>,
    event: Seq<char>,
    other: JsonView,
)
    requires
        event != "response.created"@,
    ensures
        ({
            let (chunk, t) = chunk_for(s, "response.created"@, data, model);
            let delta = choice_in(chunk->0).at("delta"@);
            &&& chunk is Some
            &&& signed(chunk->0, t, model)
            &&& data.at("response"@).at("id"@) is Str ==> chunk->0.at("id"@) == data.at(
                "response"@,
            ).at("id"@)
            &&& chunk->0.at("created"@) == JsonView::Int(
                data.at("response"@).at("created_at"@).int64_or_zero(),
            )
            &&& delta.at("role"@) == JsonView::Str("assistant"@)
            &&& delta.at("content"@) == JsonView::Str(seq![])
            &&& choice_in(chunk->0).at("finish_reason"@) == JsonView::Null
            &&& chunk_for(t, event, other, model).1.id == t.id
            &&& chunk_for(t, event, other, model).1.created == t.created
        }),
{
    lemma_words();
    assert(""@ =~= seq![]);
    let (chunk, t) = chunk_for(s, "response.created"@, data, model);
    let delta = obj().put("role"@, text("assistant"@)).put("content"@, text(""@));
    assert(delta.at("role"@) == text("assistant"@));
    assert(delta.at("content"@) == text(""@));
    lemma_signed(t, model, delta, None, None);
}

/// A text is passed on as it is, and changes nothing.
pub proof fn law_text_is_passed_on(s: ChunkStream, data: JsonView, model: Seq<char>)
    ensures
        ({
            let (chunk, t) = chunk_for(s, "response.output_text.delta"@, data, model);
            let delta = choice_in(chunk->0).at("delta"@);
            &&& chunk is Some
            &&& t == s
            &&& signed(chunk->0, s, model)
            &&& delta.at("content"@) == JsonView::Str(data.at("delta"@).str_or_empty())
            &&& delta.at("tool_calls"@) == JsonView::Null
            &&& choice_in(chunk->0).at("finish_reason"@) == JsonView::Null
        }),
{
    lemma_words();
    let delta = obj().put("content"@, text(data.at("delta"@).str_or_empty()));
    assert(delta.at("content"@) == text(data.at("delta"@).str_or_empty()));
    lemma_signed(s, model, delta, None, None);
}

/// A tool call is begun with its id and its name, and its arguments are added
/// under the same number, whatever state they come in.
pub proof fn law_call_is_passed_on(
    s: ChunkStream,
    data: JsonView,
    u: ChunkStream,
    more: JsonView,
    model: Seq<char>,
)
    requires
        data.at("item"@).at("type"@) == JsonView::Str("function_call"@),
        data.at("output_index"@) == more.at("output_index"@),
    ensures
        ({
            let (began, t) = chunk_for(s, "response.output_item.added"@, data, model);
            let (added, v) = chunk_for(u, "response.function_call_arguments.delta"@, more, model);
            let item = data.at("item"@);
            let call = call_in(began->0);
            &&& began is Some && added is Some
            &&& t.called
            &&& v == u
            &&& signed(began->0, s, model) && only_calls(began->0)
            &&& signed(added->0, u, model) && only_calls(added->0)
            &&& call.at("id"@) == JsonView::Str(item.at("call_id"@).str_or_empty())
            &&& call.at("type"@) == JsonView::Str("function"@)
            &&& call.at("function"@).at("name"@) == JsonView::Str(item.at("name"@).str_or_empty())
            &&& call.at("function"@).at("arguments"@) == JsonView::Str(seq![])
            &&& call.at("index"@) == JsonView::Int(data.at("output_index"@).uint64_or_zero())
            &&& call_in(added->0).at("index"@) == call.at("index"@)
            &&& call_in(added->0).at("function"@).at("arguments"@) == JsonView::Str(
                more.at("delta"@).str_or_empty(),
            )
        }),
{
    lemma_words();
    assert(""@ =~= seq![]);
    let (began, t) = chunk_for(s, "response.output_item.added"@, data, model);
    lemma_signed(t, model, call_delta(data), None, None);
    lemma_signed(u, model, args_delta(more), None, None);
    assert(call_delta(data).at("tool_calls"@).items().len() == 1);
    assert(args_delta(more).at("tool_calls"@).items().len() == 1);
}

/// The last event tells why the answer ended, for a tool call where there was one,
/// and what it cost; an answer in which no tool was called has none to end for.
pub proof fn law_end_tells_why(s: ChunkStream, data: JsonView, model: Seq<char>)
    ensures
        ({
            let (chunk, t) = chunk_for(s, "response.completed"@, data, model);
            let why = choice_in(chunk->0).at("finish_reason"@);
            let given = data.at("response"@).at("usage"@);
            let counts = chunk->0.at("usage"@);
            &&& chunk is Some
            &&& t == s
            &&& signed(chunk->0, s, model)
            &&& choice_in(chunk->0).at("delta"@) == JsonView::Object(Map::empty())
            &&& s.called ==> why == JsonView::Str("tool_calls"@)
            &&& !s.called ==> why == JsonView::Str("stop"@)
            &&& given is Object ==> counts_match(given, counts)
            &&& !(given is Object) ==> chunk->0.field("usage"@) is None
        }),
{
    lemma_words();
    let finish = if s.called {
        "tool_calls"@
    } else {
        "stop"@
    };
    let usage = chat_usage(data.at("response"@).at("usage"@));
    lemma_signed(s, model, obj(), Some(finish), usage);
}

/// The counts are those of the Responses API, and the total adds up.
pub open spec fn counts_match(given: JsonView, counts: JsonView) -> bool {
    let prompt = given.at("input_tokens"@).int64_or_zero();
    let output = given.at("output_tokens"@).int64_or_zero();
    let cached = given.at("input_tokens_details"@).at("cached_tokens"@).int64_or_zero();
    &&& counts.at("prompt_tokens"@) == JsonView::Int(prompt)
    &&& counts.at("completion_tokens"@) == JsonView::Int(output)
    &&& i64::MIN <= prompt + output <= i64::MAX ==> counts.at("total_tokens"@) == JsonView::Int(
        prompt + output,
    )
    &&& cached > 0 ==> counts.at("prompt_tokens_details"@).at("cached_tokens"@) == JsonView::Int(
        cached,
    )
    &&& cached <= 0 ==> counts.field("prompt_tokens_details"@) is None
}

/// Only a tool call makes an answer one that called a tool; other events say
/// nothing and change nothing.
pub proof fn law_nothing_else_is_said(
    s: ChunkStream,
    event: Seq<char>,
    data: JsonView,
    model: Seq<char>,
)
    requires
        !(event == "response.output_item.added"@ && data.at("item"@).at("type"@) == JsonView::Str(
            "function_call"@,
        )),
    ensures
        chunk_for(s, event, data, model).1.called == s.called,
        event != "response.created"@ && event != "response.output_text.delta"@ && event
            != "response.function_call_arguments.delta"@ && event != "response.completed"@
            ==> chunk_for(s, event, data, model) == (None::<JsonView>, s),
{
    lemma_words();
}

// ---------------------------------------------------------------------------
// A whole answer
// ---------------------------------------------------------------------------

/// The text that an event adds to an answer.
pub open spec fn added_text(e: (Seq<char>, JsonView)) -> Option<Seq<char>> {
    if has_suffix(e.0, "output_text.delta"@) {
        e.1.at("delta"@).str()
    } else {
        None
    }
}

/// The texts that events add to an answer, in order.
pub open spec fn added_texts(events: Seq<(Seq<char>, JsonView)>) -> Seq<Seq<char>> {
    events.filter_map(|e: (Seq<char>, JsonView)| added_text(e))
}

proof fn lemma_content(events: Seq<(Seq<char>, JsonView)>)
    ensures
        gather(events).content == added_texts(events).flatten_alt(),
    decreases events.len(),
{
    if events.len() > 0 {
        let rest = events.drop_last();
        lemma_content(rest);
        match added_text(events.last()) {
            Some(t) => {
                assert(added_texts(events) =~= added_texts(rest).push(t));
                assert(added_texts(rest).push(t).drop_last() =~= added_texts(rest));
            },
            None => {},
        }
    }
}

/// A whole answer says the texts of its events run together, under the model that
/// was asked for.
pub proof fn law_whole_answer_says_the_texts(
    events: Seq<(Seq<char>, JsonView)>,
    model: Seq<char>,
)
    ensures
        ({
            let out = completion(events, model);
            let choice = out.at("choices"@).items()[0];
            &&& out.at("model"@) == JsonView::Str(model)
            &&& out.at("object"@) == JsonView::Str("chat.completion"@)
            &&& out.at("choices"@).items().len() == 1
            &&& choice.at("index"@) == JsonView::Int(0)
            &&& choice.at("finish_reason"@) == JsonView::Str("stop"@)
            &&& choice.at("message"@).at("role"@) == JsonView::Str("assistant"@)
            &&& choice.at("message"@).at("content"@) == JsonView::Str(
                added_texts(events).flatten(),
            )
        }),
{
    lemma_words();
    lemma_content(events);
    added_texts(events).lemma_flatten_and_flatten_alt_are_equivalent();
    let g = gather(events);
    let out = completion(events, model);
    let choice = out.at("choices"@).items()[0];
    assert(choice.at("message"@).at("content"@) == text(g.content));
}

/// The event that completes an answer gives it its id and its cost, and no event
/// behind it that is none such changes them.
pub proof fn law_whole_answer_is_signed_at_the_end(
    before: Seq<(Seq<char>, JsonView)>,
    data: JsonView,
    behind: Seq<(Seq<char>, JsonView)>,
    model: Seq<char>,
)
    requires
        forall|i: int|
            0 <= i < behind.len() ==> !has_suffix((#[trigger] behind[i]).0, "completed"@),
    ensures
        ({
            let end: (Seq<char>, JsonView) = ("response.completed"@, data);
            let out = completion(before.push(end) + behind, model);
            let given = data.at("response"@).at("usage"@);
            &&& data.at("response"@).at("id"@) is Str ==> out.at("id"@) == data.at("response"@).at(
                "id"@,
            )
            &&& given is Object ==> counts_match(given, out.at("usage"@))
            &&& !(given is Object) ==> out.field("usage"@) is None
        }),
{
    lemma_words();
    let end: (Seq<char>, JsonView) = ("response.completed"@, data);
    lemma_completed_name();
    let first = before.push(end);
    assert(first.drop_last() =~= before);
    lemma_behind(first, behind);
    let g = gather(first + behind);
    let out = completion(first + behind, model);
    assert(out.at("id"@) == text(g.id));
    assert(out.field("usage"@) == g.usage);
}

proof fn lemma_completed_name()
    ensures
        has_suffix("response.completed"@, "completed"@),
        !has_suffix("response.completed"@, "output_text.delta"@),
{
    reveal_strlit("response.completed");
    reveal_strlit("completed");
    reveal_strlit("output_text.delta");
    let s = "response.completed"@;
    assert(s.len() == 18);
    assert("completed"@.len() == 9);
    assert(s.subrange(9, 18) =~= "completed"@);
    assert("output_text.delta"@.len() == 17);
    assert(s.subrange(1, 18)[0] == 'e');
    assert("output_text.delta"@[0] == 'o');
}

proof fn lemma_behind(first: Seq<(Seq<char>, JsonView)>, behind: Seq<(Seq<char>, JsonView)>)
    requires
        forall|i: int|
            0 <= i < behind.len() ==> !has_suffix((#[trigger] behind[i]).0, "completed"@),
    ensures
        gather(first + behind).id == gather(first).id,
        gather(first + behind).usage == gather(first).usage,
    decreases behind.len(),
{
    if behind.len() == 0 {
        assert(first + behind =~= first);
    } else {
        let rest = behind.drop_last();
        assert forall|i: int| 0 <= i < rest.len() implies !has_suffix(
            (#[trigger] rest[i]).0,
            "completed"@,
        ) by {
            assert(rest[i] == behind[i]);
        }
        lemma_behind(first, rest);
        assert((first + behind).drop_last() =~= first + rest);
        assert((first + behind).last() == behind[behind.len() - 1]);
    }
}

/// An event that reports an error: by its name, or by what it carries.
pub open spec fn reports_error(e: (Seq<char>, JsonView)) -> bool {
    occurs(e.0, "failed"@) || occurs(e.0, "error"@) || e.1.at("error"@) != JsonView::Null
}

/// An answer failed where one of its events reports an error, and the first that
/// does says how.
pub proof fn law_first_error_counts(events: Seq<(Seq<char>, JsonView)>, k: int)
    ensures
        first_error(events) is None <==> forall|i: int|
            0 <= i < events.len() ==> !reports_error(#[trigger] events[i]),
        0 <= k < events.len() && reports_error(events[k]) && (forall|i: int|
            0 <= i < k ==> !reports_error(#[trigger] events[i])) ==> first_error(events) == Some(
            events[k].1.at("error"@).at("type"@).str_or("upstream_error"@),
        ),
    decreases events.len(),
{
    if events.len() > 0 {
        let rest = events.subrange(1, events.len() as int);
        law_first_error_counts(rest, k - 1);
        assert(reports_error(events[0]) == is_error(events[0]));
        if !is_error(events[0]) {
            assert forall|i: int| 0 <= i < rest.len() implies rest[i] == events[i + 1] by {}
            if first_error(events) is None {
                assert forall|i: int| 0 <= i < events.len() implies !reports_error(
                    #[trigger] events[i],
                ) by {
                    if i > 0 {
                        assert(!reports_error(rest[i - 1]));
                    }
                }
            } else {
                let j = choose|j: int| 0 <= j < rest.len() && reports_error(#[trigger] rest[j]);
                assert(reports_error(events[j + 1]));
            }
            if 0 < k < events.len() && reports_error(events[k]) && (forall|i: int|
                0 <= i < k ==> !reports_error(#[trigger] events[i])) {
                assert(rest[k - 1] == events[k]);
                assert forall|i: int| 0 <= i < k - 1 implies !reports_error(#[trigger] rest[i]) by {
                    assert(rest[i] == events[i + 1]);
                }
            }
        }
    }
}

} // verus!
