//! What Chat Completions clients get of a Command Code answer, streamed and whole.
use vstd::prelude::*;

use crate::codex::answer_laws::{lemma_signed, signed};
use crate::codex::chunk_laws::{call_in, choice_in, only_calls};
use crate::codex::transform::ChunkStream;
use crate::commandcode::stream::{
    chat_finish, chat_usage, chunk_for, completion, event_call, gather, stamped, StampView,
};
use crate::commandcode::transform::first_error;
use crate::json::{obj, parsed, printed, text, JsonView};
use crate::text::{has_prefix, trimmed, without_prefix};
use crate::text_laws::law_trimming;

verus! {

/// The words of chunks and of Command Code's events differ.
proof fn lemma_words()
    ensures
        "id"@ != "object"@,
        "id"@ != "created"@,
        "id"@ != "model"@,
        "id"@ != "choices"@,
        "id"@ != "usage"@,
        "object"@ != "created"@,
        "object"@ != "model"@,
        "object"@ != "choices"@,
        "object"@ != "usage"@,
        "created"@ != "model"@,
        "created"@ != "choices"@,
        "created"@ != "usage"@,
        "model"@ != "choices"@,
        "model"@ != "usage"@,
        "choices"@ != "usage"@,
        "index"@ != "delta"@,
        "index"@ != "finish_reason"@,
        "index"@ != "message"@,
        "delta"@ != "finish_reason"@,
        "delta"@ != "message"@,
        "finish_reason"@ != "message"@,
        "index"@ != "id"@,
        "index"@ != "type"@,
        "index"@ != "function"@,
        "id"@ != "type"@,
        "id"@ != "function"@,
        "type"@ != "function"@,
        "name"@ != "arguments"@,
        "role"@ != "content"@,
        "role"@ != "tool_calls"@,
        "role"@ != "reasoning_content"@,
        "content"@ != "tool_calls"@,
        "content"@ != "reasoning_content"@,
        "tool_calls"@ != "reasoning_content"@,
        "prompt_tokens"@ != "completion_tokens"@,
        "prompt_tokens"@ != "total_tokens"@,
        "prompt_tokens"@ != "prompt_tokens_details"@,
        "completion_tokens"@ != "total_tokens"@,
        "completion_tokens"@ != "prompt_tokens_details"@,
        "total_tokens"@ != "prompt_tokens_details"@,
        "text-delta"@ != "reasoning-delta"@,
        "text-delta"@ != "tool-call"@,
        "text-delta"@ != "finish"@,
        "reasoning-delta"@ != "tool-call"@,
        "reasoning-delta"@ != "finish"@,
        "tool-call"@ != "finish"@,
        "length"@ != "max_tokens"@,
        "length"@ != "max-tokens"@,
        "length"@ != "max_output_tokens"@,
        "length"@ != "tool-calls"@,
        "max_tokens"@ != "max-tokens"@,
        "max_tokens"@ != "max_output_tokens"@,
        "max_tokens"@ != "tool-calls"@,
        "max-tokens"@ != "max_output_tokens"@,
        "max-tokens"@ != "tool-calls"@,
        "max_output_tokens"@ != "tool-calls"@,
        ""@.len() == 0,
{
    reveal_strlit("id");
    reveal_strlit("object");
    reveal_strlit("created");
    reveal_strlit("model");
    reveal_strlit("choices");
    reveal_strlit("usage");
    reveal_strlit("index");
    reveal_strlit("delta");
    reveal_strlit("finish_reason");
    reveal_strlit("message");
    reveal_strlit("type");
    reveal_strlit("function");
    reveal_strlit("name");
    reveal_strlit("arguments");
    reveal_strlit("role");
    reveal_strlit("content");
    reveal_strlit("tool_calls");
    reveal_strlit("reasoning_content");
    reveal_strlit("prompt_tokens");
    reveal_strlit("completion_tokens");
    reveal_strlit("total_tokens");
    reveal_strlit("prompt_tokens_details");
    reveal_strlit("text-delta");
    reveal_strlit("reasoning-delta");
    reveal_strlit("tool-call");
    reveal_strlit("finish");
    reveal_strlit("length");
    reveal_strlit("max_tokens");
    reveal_strlit("max-tokens");
    reveal_strlit("max_output_tokens");
    reveal_strlit("tool-calls");
    reveal_strlit("");
    assert("id"@.len() == 2);
    assert("object"@.len() == 6);
    assert("created"@.len() == 7);
    assert("model"@.len() == 5);
    assert("choices"@.len() == 7);
    assert("usage"@.len() == 5);
    assert("index"@.len() == 5);
    assert("delta"@.len() == 5);
    assert("finish_reason"@.len() == 13);
    assert("message"@.len() == 7);
    assert("type"@.len() == 4);
    assert("function"@.len() == 8);
    assert("name"@.len() == 4);
    assert("arguments"@.len() == 9);
    assert("role"@.len() == 4);
    assert("content"@.len() == 7);
    assert("tool_calls"@.len() == 10);
    assert("reasoning_content"@.len() == 17);
    assert("prompt_tokens"@.len() == 13);
    assert("completion_tokens"@.len() == 17);
    assert("total_tokens"@.len() == 12);
    assert("prompt_tokens_details"@.len() == 21);
    assert("text-delta"@.len() == 10);
    assert("reasoning-delta"@.len() == 15);
    assert("tool-call"@.len() == 9);
    assert("finish"@.len() == 6);
    assert("length"@.len() == 6);
    assert("max_tokens"@.len() == 10);
    assert("max-tokens"@.len() == 10);
    assert("max_output_tokens"@.len() == 17);
    assert("tool-calls"@.len() == 10);
    assert(""@.len() == 0);
    assert("created"@[1] != "choices"@[1]);
    assert("model"@[0] != "usage"@[0]);
    assert("index"@[0] != "delta"@[0]);
    assert("max_tokens"@[3] != "max-tokens"@[3]);
    assert("max_tokens"@[0] != "tool-calls"@[0]);
    assert("max-tokens"@[0] != "tool-calls"@[0]);
}

/// The event is of this kind.
pub open spec fn is_kind(e: JsonView, kind: Seq<char>) -> bool {
    e.at("type"@) == JsonView::Str(kind)
}

/// The call has the id, the name and the text of the input that an event gives.
pub open spec fn is_call_of(call: JsonView, e: JsonView) -> bool {
    &&& call.at("id"@) == e.at("toolCallId"@)
    &&& call.at("type"@) == JsonView::Str("function"@)
    &&& call.at("function"@).at("name"@) == e.at("toolName"@)
    &&& call.at("function"@).at("arguments"@) == JsonView::Str(printed(e.at("input"@)))
}

/// The counts are those of Command Code, and the total adds up.
pub open spec fn counts_match(given: JsonView, counts: JsonView) -> bool {
    let prompt = given.at("inputTokens"@).int64_or_zero();
    let output = given.at("outputTokens"@).int64_or_zero();
    let cached = given.at("inputTokenDetails"@).at("cacheReadTokens"@).int64_or_zero();
    &&& counts.at("prompt_tokens"@) == JsonView::Int(prompt)
    &&& counts.at("completion_tokens"@) == JsonView::Int(output)
    &&& i64::MIN <= prompt + output <= i64::MAX ==> counts.at("total_tokens"@) == JsonView::Int(
        prompt + output,
    )
    &&& cached > 0 ==> counts.at("prompt_tokens_details"@).at("cached_tokens"@) == JsonView::Int(
        cached,
    )
    &&& cached <= 0 ==> counts.field("prompt_tokens_details"@) is None
}

/// Why an answer ended: it was cut off, it called tools, or it came to its end.
pub open spec fn ended_for(given: JsonView, why: Seq<char>) -> bool {
    &&& (given == JsonView::Str("length"@) || given == JsonView::Str("max_tokens"@) || given
        == JsonView::Str("max-tokens"@) || given == JsonView::Str("max_output_tokens"@)) ==> why
        == "length"@
    &&& given == JsonView::Str("tool-calls"@) ==> why == "tool_calls"@
    &&& given != JsonView::Str("length"@) && given != JsonView::Str("max_tokens"@) && given
        != JsonView::Str("max-tokens"@) && given != JsonView::Str("max_output_tokens"@) && given
        != JsonView::Str("tool-calls"@) ==> why == "stop"@
}

proof fn lemma_ended(given: JsonView)
    ensures
        ended_for(given, chat_finish(given.str())),
{
    lemma_words();
}

proof fn lemma_call(e: JsonView)
    ensures
        is_call_of(event_call(e), e),
        is_call_of(event_call(e).put("index"@, JsonView::Int(0)), e),
{
    lemma_words();
}

/// Text and thought are passed on as they are, each under its own name.
pub proof fn law_text_is_passed_on(
    s: ChunkStream,
    e: JsonView,
    model: Seq<char>,
    stamp: StampView,
)
    requires
        is_kind(e, "text-delta"@) || is_kind(e, "reasoning-delta"@),
    ensures
        ({
            let (chunk, t) = chunk_for(s, e, model, stamp);
            let delta = choice_in(chunk->0).at("delta"@);
            let given = JsonView::Str(e.at("text"@).str_or_empty());
            &&& chunk is Some
            &&& t.called == s.called
            &&& signed(chunk->0, t, model)
            &&& choice_in(chunk->0).at("finish_reason"@) == JsonView::Null
            &&& delta.field("tool_calls"@) is None
            &&& is_kind(e, "text-delta"@) ==> delta.at("content"@) == given && delta.field(
                "reasoning_content"@,
            ) is None
            &&& is_kind(e, "reasoning-delta"@) ==> delta.at("reasoning_content"@) == given
                && delta.field("content"@) is None
        }),
{
    lemma_words();
    let (chunk, t) = chunk_for(s, e, model, stamp);
    let said = obj().put("content"@, text(e.at("text"@).str_or_empty()));
    let thought = obj().put("reasoning_content"@, text(e.at("text"@).str_or_empty()));
    lemma_signed(t, model, said, None, None);
    lemma_signed(t, model, thought, None, None);
}

/// A tool call is passed on whole, with its id, its name and its input.
pub proof fn law_call_is_passed_on(
    s: ChunkStream,
    e: JsonView,
    model: Seq<char>,
    stamp: StampView,
)
    requires
        is_kind(e, "tool-call"@),
    ensures
        ({
            let (chunk, t) = chunk_for(s, e, model, stamp);
            &&& chunk is Some
            &&& t.called
            &&& signed(chunk->0, t, model)
            &&& only_calls(chunk->0)
            &&& is_call_of(call_in(chunk->0), e)
        }),
{
    lemma_words();
    lemma_call(e);
    let (chunk, t) = chunk_for(s, e, model, stamp);
    let call = event_call(e).put("index"@, JsonView::Int(0));
    let delta = obj().put("tool_calls"@, JsonView::Array(seq![call]));
    lemma_signed(t, model, delta, None, None);
    assert(delta.at("tool_calls"@) == JsonView::Array(seq![call]));
}

/// The last event tells why the answer ended and what it cost; one that gives no
/// reason ended for its tool calls, where it made any.
pub proof fn law_end_tells_why(s: ChunkStream, e: JsonView, model: Seq<char>, stamp: StampView)
    requires
        is_kind(e, "finish"@),
    ensures
        ({
            let (chunk, t) = chunk_for(s, e, model, stamp);
            let why = choice_in(chunk->0).at("finish_reason"@);
            let given = e.at("finishReason"@);
            &&& chunk is Some
            &&& signed(chunk->0, t, model)
            &&& choice_in(chunk->0).at("delta"@) == JsonView::Object(Map::empty())
            &&& why is Str
            &&& given is Str ==> ended_for(given, why.str_or_empty())
            &&& !(given is Str) && s.called ==> why == JsonView::Str("tool_calls"@)
            &&& !(given is Str) && !s.called ==> why == JsonView::Str("stop"@)
            &&& e.field("totalUsage"@) is Some ==> counts_match(
                e.at("totalUsage"@),
                chunk->0.at("usage"@),
            )
            &&& e.field("totalUsage"@) is None ==> chunk->0.field("usage"@) is None
        }),
{
    lemma_words();
    let (chunk, t) = chunk_for(s, e, model, stamp);
    let given = e.at("finishReason"@);
    lemma_ended(given);
    let reason = if given.str() is None && s.called {
        "tool_calls"@
    } else {
        chat_finish(given.str())
    };
    let usage = match e.field("totalUsage"@) {
        Some(u) => Some(chat_usage(u)),
        None => None,
    };
    lemma_signed(t, model, obj(), Some(reason), usage);
}

/// All chunks of an answer have one id and one time: those that the first of them
/// got, whatever is drawn for later ones. Other events say nothing.
pub proof fn law_answer_has_one_id(
    s: ChunkStream,
    e: JsonView,
    f: JsonView,
    model: Seq<char>,
    stamp: StampView,
    other: StampView,
)
    requires
        stamp.id.len() > 0,
    ensures
        ({
            let (chunk, t) = chunk_for(s, e, model, stamp);
            let (next, u) = chunk_for(t, f, model, other);
            &&& chunk is Some <==> is_kind(e, "text-delta"@) || is_kind(e, "reasoning-delta"@)
                || is_kind(e, "tool-call"@) || is_kind(e, "finish"@)
            &&& chunk is None ==> t == s
            &&& chunk is Some && s.id.len() == 0 ==> chunk->0.at("id"@) == JsonView::Str(stamp.id)
                && chunk->0.at("created"@) == JsonView::Int(stamp.created)
            &&& chunk is Some && s.id.len() > 0 ==> chunk->0.at("id"@) == JsonView::Str(s.id)
                && chunk->0.at("created"@) == JsonView::Int(s.created)
            &&& chunk is Some && next is Some ==> next->0.at("id"@) == chunk->0.at("id"@)
                && next->0.at("created"@) == chunk->0.at("created"@)
        }),
{
    lemma_words();
    lemma_stamped(s, e, model, stamp);
    let t = chunk_for(s, e, model, stamp).1;
    lemma_stamped(t, f, model, other);
}

proof fn lemma_stamped(s: ChunkStream, e: JsonView, model: Seq<char>, stamp: StampView)
    ensures
        ({
            let (chunk, t) = chunk_for(s, e, model, stamp);
            chunk is Some ==> {
                &&& t.id == stamped(s, stamp).id
                &&& t.created == stamped(s, stamp).created
                &&& signed(chunk->0, t, model)
            }
        }),
{
    lemma_words();
    if is_kind(e, "text-delta"@) || is_kind(e, "reasoning-delta"@) {
        law_text_is_passed_on(s, e, model, stamp);
    } else if is_kind(e, "tool-call"@) {
        law_call_is_passed_on(s, e, model, stamp);
    } else if is_kind(e, "finish"@) {
        law_end_tells_why(s, e, model, stamp);
    }
}

// ---------------------------------------------------------------------------
// A whole answer
// ---------------------------------------------------------------------------

/// The text of an event of this kind.
pub open spec fn text_of_kind(e: JsonView, kind: Seq<char>) -> Option<Seq<char>> {
    if is_kind(e, kind) {
        Some(e.at("text"@).str_or_empty())
    } else {
        None
    }
}

/// The texts of the events of this kind, in order.
pub open spec fn texts_of_kind(events: Seq<JsonView>, kind: Seq<char>) -> Seq<Seq<char>> {
    events.filter_map(|e: JsonView| text_of_kind(e, kind))
}

/// The events that call tools, in order.
pub open spec fn calls_among(events: Seq<JsonView>) -> Seq<JsonView> {
    events.filter(|e: JsonView| is_kind(e, "tool-call"@))
}

proof fn lemma_gathered(events: Seq<JsonView>)
    ensures
        gather(events).content == texts_of_kind(events, "text-delta"@).flatten_alt(),
        gather(events).reasoning == texts_of_kind(events, "reasoning-delta"@).flatten_alt(),
        gather(events).calls == calls_among(events).map_values(|e: JsonView| event_call(e)),
    decreases events.len(),
{
    lemma_words();
    reveal(Seq::filter);
    if events.len() > 0 {
        let rest = events.drop_last();
        lemma_gathered(rest);
        lemma_texts_push(events, "text-delta"@);
        lemma_texts_push(events, "reasoning-delta"@);
    }
    assert(gather(events).calls =~= calls_among(events).map_values(|e: JsonView| event_call(e)));
}

proof fn lemma_texts_push(events: Seq<JsonView>, kind: Seq<char>)
    requires
        events.len() > 0,
    ensures
        texts_of_kind(events, kind).flatten_alt() == texts_of_kind(
            events.drop_last(),
            kind,
        ).flatten_alt() + if is_kind(events.last(), kind) {
            events.last().at("text"@).str_or_empty()
        } else {
            seq![]
        },
{
    let rest = texts_of_kind(events.drop_last(), kind);
    match text_of_kind(events.last(), kind) {
        Some(t) => {
            assert(texts_of_kind(events, kind) =~= rest.push(t));
            assert(rest.push(t).drop_last() =~= rest);
        },
        None => {
            assert(rest.flatten_alt() + Seq::<char>::empty() =~= rest.flatten_alt());
        },
    }
}

/// A whole answer says and thinks the texts of its events run together, and makes
/// their tool calls, one each and in order, under the model that was asked for.
pub proof fn law_whole_answer_says_the_events(
    events: Seq<JsonView>,
    model: Seq<char>,
    id: Seq<char>,
    i: int,
)
    ensures
        ({
            let out = completion(events, model, id);
            let choice = out.at("choices"@).items()[0];
            let message = choice.at("message"@);
            let thought = texts_of_kind(events, "reasoning-delta"@).flatten();
            let given = calls_among(events);
            let calls = message.at("tool_calls"@).items();
            &&& out.at("id"@) == JsonView::Str(id)
            &&& out.at("model"@) == JsonView::Str(model)
            &&& out.at("object"@) == JsonView::Str("chat.completion"@)
            &&& out.at("choices"@).items().len() == 1
            &&& choice.at("index"@) == JsonView::Int(0)
            &&& message.at("role"@) == JsonView::Str("assistant"@)
            &&& message.at("content"@) == JsonView::Str(
                texts_of_kind(events, "text-delta"@).flatten(),
            )
            &&& thought.len() > 0 ==> message.at("reasoning_content"@) == JsonView::Str(thought)
            &&& thought.len() == 0 ==> message.field("reasoning_content"@) is None
            &&& calls.len() == given.len()
            &&& 0 <= i < given.len() ==> is_call_of(calls[i], given[i])
            &&& given.len() == 0 ==> message.field("tool_calls"@) is None
        }),
{
    lemma_words();
    lemma_gathered(events);
    texts_of_kind(events, "text-delta"@).lemma_flatten_and_flatten_alt_are_equivalent();
    texts_of_kind(events, "reasoning-delta"@).lemma_flatten_and_flatten_alt_are_equivalent();
    let g = gather(events);
    let out = completion(events, model, id);
    let choice = out.at("choices"@).items()[0];
    let message = choice.at("message"@);
    assert(message.at("content"@) == text(g.content));
    if g.calls.len() > 0 {
        assert(message.at("tool_calls"@) == JsonView::Array(g.calls));
        if 0 <= i < g.calls.len() {
            assert(g.calls[i] == event_call(calls_among(events)[i]));
            lemma_call(calls_among(events)[i]);
        }
    } else {
        assert(message.field("tool_calls"@) is None);
    }
}

/// The last event that ends an answer tells why it ended and, where it says so,
/// what it cost.
pub proof fn law_whole_answer_tells_why(
    before: Seq<JsonView>,
    end: JsonView,
    behind: Seq<JsonView>,
    model: Seq<char>,
    id: Seq<char>,
)
    requires
        is_kind(end, "finish"@),
        forall|i: int| 0 <= i < behind.len() ==> !is_kind(#[trigger] behind[i], "finish"@),
    ensures
        ({
            let out = completion(before.push(end) + behind, model, id);
            let why = out.at("choices"@).items()[0].at("finish_reason"@);
            &&& why is Str
            &&& ended_for(end.at("finishReason"@), why.str_or_empty())
            &&& end.field("totalUsage"@) is Some ==> counts_match(
                end.at("totalUsage"@),
                out.at("usage"@),
            )
        }),
{
    lemma_words();
    let first = before.push(end);
    assert(first.drop_last() =~= before);
    lemma_ended(end.at("finishReason"@));
    lemma_behind(first, behind);
    let g = gather(first + behind);
    let out = completion(first + behind, model, id);
    assert(out.at("choices"@).items()[0].at("finish_reason"@) == text(g.finish));
    assert(out.field("usage"@) == g.usage);
}

/// An answer that no event ends came to its end, at a cost that nobody tells.
pub proof fn law_unended_answer_stopped(events: Seq<JsonView>, model: Seq<char>, id: Seq<char>)
    requires
        forall|i: int| 0 <= i < events.len() ==> !is_kind(#[trigger] events[i], "finish"@),
    ensures
        completion(events, model, id).at("choices"@).items()[0].at("finish_reason"@)
            == JsonView::Str("stop"@),
        completion(events, model, id).field("usage"@) is None,
{
    lemma_words();
    let none = Seq::<JsonView>::empty();
    lemma_behind(none, events);
    assert(none + events =~= events);
    let out = completion(events, model, id);
    assert(out.at("choices"@).items()[0].at("finish_reason"@) == text(gather(events).finish));
    assert(out.field("usage"@) == gather(events).usage);
}

proof fn lemma_behind(first: Seq<JsonView>, behind: Seq<JsonView>)
    requires
        forall|i: int| 0 <= i < behind.len() ==> !is_kind(#[trigger] behind[i], "finish"@),
    ensures
        gather(first + behind).finish == gather(first).finish,
        gather(first + behind).usage == gather(first).usage,
    decreases behind.len(),
{
    lemma_words();
    if behind.len() == 0 {
        assert(first + behind =~= first);
    } else {
        let rest = behind.drop_last();
        assert forall|i: int| 0 <= i < rest.len() implies !is_kind(
            #[trigger] rest[i],
            "finish"@,
        ) by {
            assert(rest[i] == behind[i]);
        }
        lemma_behind(first, rest);
        assert((first + behind).drop_last() =~= first + rest);
        assert((first + behind).last() == behind[behind.len() - 1]);
        assert(!is_kind(behind[behind.len() - 1], "finish"@));
    }
}

/// An answer failed where one of its events is an error, and the first that is one
/// says how: in its own words, or in those of its message.
pub proof fn law_first_error_counts(events: Seq<JsonView>, k: int)
    ensures
        first_error(events) is None <==> forall|i: int|
            0 <= i < events.len() ==> !is_kind(#[trigger] events[i], "error"@),
        0 <= k < events.len() && is_kind(events[k], "error"@) && (forall|i: int|
            0 <= i < k ==> !is_kind(#[trigger] events[i], "error"@)) ==> {
            let error = events[k].at("error"@);
            &&& error is Str ==> first_error(events) == Some(error.str_or_empty())
            &&& !(error is Str) ==> first_error(events) == Some(
                error.at("message"@).str_or("upstream error"@),
            )
        },
    decreases events.len(),
{
    if events.len() > 0 {
        let rest = events.subrange(1, events.len() as int);
        law_first_error_counts(rest, k - 1);
        if !is_kind(events[0], "error"@) {
            assert forall|i: int| 0 <= i < rest.len() implies rest[i] == events[i + 1] by {}
            if first_error(events) is None {
                assert forall|i: int| 0 <= i < events.len() implies !is_kind(
                    #[trigger] events[i],
                    "error"@,
                ) by {
                    if i > 0 {
                        assert(!is_kind(rest[i - 1], "error"@));
                    }
                }
            } else {
                let j = choose|j: int| 0 <= j < rest.len() && is_kind(#[trigger] rest[j], "error"@);
                assert(is_kind(events[j + 1], "error"@));
            }
            if 0 < k < events.len() && is_kind(events[k], "error"@) && (forall|i: int|
                0 <= i < k ==> !is_kind(#[trigger] events[i], "error"@)) {
                assert(rest[k - 1] == events[k]);
                assert forall|i: int| 0 <= i < k - 1 implies !is_kind(
                    #[trigger] rest[i],
                    "error"@,
                ) by {
                    assert(rest[i] == events[i + 1]);
                }
            }
        } else {
            assert(events[0].at("type"@).str() == Some("error"@));
        }
    }
}


// ---------------------------------------------------------------------------
// Lines
// ---------------------------------------------------------------------------

/// The events of lines are those of each line, in order.
pub proof fn law_lines_are_events(ls: Seq<Seq<char>>)
    ensures
        crate::commandcode::transform::line_events(ls) == ls.filter_map(
            |l: Seq<char>| crate::commandcode::transform::line_event(l),
        ),
    decreases ls.len(),
{
    if ls.len() > 0 {
        law_lines_are_events(ls.drop_last());
    }
    assert(crate::commandcode::transform::line_events(ls) =~= ls.filter_map(
        |l: Seq<char>| crate::commandcode::transform::line_event(l),
    ));
}

/// A line of JSON is the event that the JSON is, with or without `data:` before it
/// and white space around it; the end marker, an empty line, a comment and the name
/// of an event are none.
pub proof fn law_lines_are_read(json: Seq<char>)
    requires
        crate::sse_laws::on_one_line(json),
        json[0] == '{',
    ensures
        crate::commandcode::transform::line_event(json.push('\n')) == parsed(json),
        crate::commandcode::transform::line_event("data: "@ + json) == parsed(json),
        crate::commandcode::transform::line_event("data: "@ + "[DONE]"@) is None,
        crate::commandcode::transform::line_event(seq![]) is None,
        crate::commandcode::transform::line_event(seq![':'] + json) is None,
        crate::commandcode::transform::line_event("event: "@ + json) is None,
{
    reveal_strlit("data:");
    reveal_strlit("data: ");
    reveal_strlit("event:");
    reveal_strlit("event: ");
    reveal_strlit(":");
    reveal_strlit("[DONE]");
    let none = Seq::<char>::empty();
    let done = "[DONE]"@;
    assert("data:"@.len() == 5 && "event:"@.len() == 6 && ":"@.len() == 1 && done.len() == 6);
    assert(done[0] == '[' && done[5] == ']');
    // The line itself.
    law_trimming(none, json, seq!['\n']);
    assert(none + json + seq!['\n'] =~= json.push('\n'));
    assert(!has_prefix(json, ":"@)) by {
        if has_prefix(json, ":"@) {
            assert(json.subrange(0, 1)[0] == ':');
        }
    }
    assert(!has_prefix(json, "event:"@)) by {
        if has_prefix(json, "event:"@) {
            assert(json.subrange(0, 6)[0] == 'e');
        }
    }
    assert(!has_prefix(json, "data:"@)) by {
        if has_prefix(json, "data:"@) {
            assert(json.subrange(0, 5)[0] == 'd');
        }
    }
    // Behind `data:`.
    lemma_data_line(json);
    lemma_data_line(done);
    // What is no event.
    law_trimming(none, none, none);
    assert(none + none + none =~= none);
    let comment = seq![':'] + json;
    law_trimming(none, comment, none);
    assert(none + comment + none =~= comment);
    assert(comment.last() == json.last());
    assert(comment.subrange(0, 1) =~= ":"@);
    let name = "event: "@ + json;
    law_trimming(none, name, none);
    assert(none + name + none =~= name);
    assert(name.last() == json.last());
    assert(name.subrange(0, 6) =~= "event:"@);
}

proof fn lemma_data_line(body: Seq<char>)
    requires
        crate::sse_laws::on_one_line(body),
    ensures
        ({
            let line = "data: "@ + body;
            &&& trimmed(line) == line
            &&& line.len() > 0
            &&& !has_prefix(line, ":"@)
            &&& !has_prefix(line, "event:"@)
            &&& without_prefix(line, "data:"@) matches Some(r) && trimmed(r) == body
        }),
{
    reveal_strlit("data:");
    reveal_strlit("data: ");
    reveal_strlit("event:");
    reveal_strlit(":");
    let line = "data: "@ + body;
    let none = Seq::<char>::empty();
    assert(line[0] == 'd' && line.last() == body.last());
    law_trimming(none, line, none);
    assert(none + line + none =~= line);
    if has_prefix(line, ":"@) {
        assert(line.subrange(0, 1)[0] == ':');
    }
    if has_prefix(line, "event:"@) {
        assert(line.subrange(0, 6)[0] == 'e');
    }
    assert(line.subrange(0, 5) =~= "data:"@);
    let rest = line.subrange(5, line.len() as int);
    assert(crate::text_laws::blank(seq![' ']));
    law_trimming(seq![' '], body, none);
    assert(seq![' '] + body + none =~= rest);
}


/// An id that the library gives out is that of a chat completion, with 36 characters
/// behind the word.
pub proof fn law_ids_are_of_completions(id: Seq<char>)
    requires
        crate::commandcode::stream::is_completion_id(id),
    ensures
        id.len() == 45,
        id.subrange(0, 9) == "chatcmpl-"@,
{
    reveal_strlit("chatcmpl-");
    let unique = choose|unique: Seq<char>| unique.len() == 36 && id == "chatcmpl-"@ + unique;
    assert(id.subrange(0, 9) =~= "chatcmpl-"@);
}

} // verus!
