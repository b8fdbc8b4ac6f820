//! What a whole answer holds once it was put in the other wire format.
use vstd::prelude::*;

use crate::codex::claude_message::{claude_reply, claude_usage, openai_reply, openai_usage, spoken};
use crate::codex::claude_request::{block_calls, tool_call};
use crate::codex::request_laws::{of_kind, texts_in};
use crate::json::{obj, printed, text, JsonView};

verus! {

/// The words of answers differ.
proof fn lemma_reply_words()
    ensures
        "id"@ != "type"@,
        "id"@ != "role"@,
        "id"@ != "model"@,
        "id"@ != "content"@,
        "id"@ != "stop_reason"@,
        "id"@ != "stop_sequence"@,
        "id"@ != "usage"@,
        "type"@ != "role"@,
        "type"@ != "model"@,
        "type"@ != "content"@,
        "type"@ != "stop_reason"@,
        "type"@ != "stop_sequence"@,
        "type"@ != "usage"@,
        "role"@ != "model"@,
        "role"@ != "content"@,
        "role"@ != "stop_reason"@,
        "role"@ != "stop_sequence"@,
        "role"@ != "usage"@,
        "model"@ != "content"@,
        "model"@ != "stop_reason"@,
        "model"@ != "stop_sequence"@,
        "model"@ != "usage"@,
        "content"@ != "stop_reason"@,
        "content"@ != "stop_sequence"@,
        "content"@ != "usage"@,
        "stop_reason"@ != "stop_sequence"@,
        "stop_reason"@ != "usage"@,
        "stop_sequence"@ != "usage"@,
        "id"@ != "object"@,
        "id"@ != "choices"@,
        "object"@ != "model"@,
        "object"@ != "choices"@,
        "object"@ != "usage"@,
        "model"@ != "choices"@,
        "choices"@ != "usage"@,
        "index"@ != "message"@,
        "index"@ != "finish_reason"@,
        "message"@ != "finish_reason"@,
        "role"@ != "tool_calls"@,
        "content"@ != "tool_calls"@,
        "type"@ != "text"@,
        "text"@ != "tool_use"@,
        "id"@ != "function"@,
        "type"@ != "function"@,
        "name"@ != "arguments"@,
        "length"@ != "tool_calls"@,
        "length"@ != "stop"@,
        "length"@ != ""@,
        "tool_calls"@ != "stop"@,
        "tool_calls"@ != ""@,
        "stop"@ != ""@,
        "max_tokens"@ != "tool_use"@,
        "max_tokens"@ != "end_turn"@,
        "max_tokens"@ != ""@,
        "tool_use"@ != "end_turn"@,
        "tool_use"@ != ""@,
        "end_turn"@ != ""@,
        "input_tokens"@ != "output_tokens"@,
        "input_tokens"@ != "cache_read_input_tokens"@,
        "output_tokens"@ != "cache_read_input_tokens"@,
        "prompt_tokens"@ != "completion_tokens"@,
        "prompt_tokens"@ != "total_tokens"@,
        "prompt_tokens"@ != "prompt_tokens_details"@,
        "completion_tokens"@ != "total_tokens"@,
        "completion_tokens"@ != "prompt_tokens_details"@,
        "total_tokens"@ != "prompt_tokens_details"@,
        ""@.len() == 0,
{
    reveal_strlit("id");
    reveal_strlit("type");
    reveal_strlit("role");
    reveal_strlit("model");
    reveal_strlit("content");
    reveal_strlit("stop_reason");
    reveal_strlit("stop_sequence");
    reveal_strlit("usage");
    reveal_strlit("object");
    reveal_strlit("choices");
    reveal_strlit("index");
    reveal_strlit("message");
    reveal_strlit("finish_reason");
    reveal_strlit("tool_calls");
    reveal_strlit("text");
    reveal_strlit("tool_use");
    reveal_strlit("function");
    reveal_strlit("name");
    reveal_strlit("arguments");
    reveal_strlit("length");
    reveal_strlit("stop");
    reveal_strlit("");
    reveal_strlit("max_tokens");
    reveal_strlit("end_turn");
    reveal_strlit("input_tokens");
    reveal_strlit("output_tokens");
    reveal_strlit("cache_read_input_tokens");
    reveal_strlit("prompt_tokens");
    reveal_strlit("completion_tokens");
    reveal_strlit("total_tokens");
    reveal_strlit("prompt_tokens_details");
    assert("id"@.len() == 2);
    assert("type"@.len() == 4);
    assert("role"@.len() == 4);
    assert("model"@.len() == 5);
    assert("content"@.len() == 7);
    assert("stop_reason"@.len() == 11);
    assert("stop_sequence"@.len() == 13);
    assert("usage"@.len() == 5);
    assert("object"@.len() == 6);
    assert("choices"@.len() == 7);
    assert("index"@.len() == 5);
    assert("message"@.len() == 7);
    assert("finish_reason"@.len() == 13);
    assert("tool_calls"@.len() == 10);
    assert("text"@.len() == 4);
    assert("tool_use"@.len() == 8);
    assert("function"@.len() == 8);
    assert("name"@.len() == 4);
    assert("arguments"@.len() == 9);
    assert("length"@.len() == 6);
    assert("stop"@.len() == 4);
    assert(""@.len() == 0);
    assert("max_tokens"@.len() == 10);
    assert("end_turn"@.len() == 8);
    assert("input_tokens"@.len() == 12);
    assert("output_tokens"@.len() == 13);
    assert("cache_read_input_tokens"@.len() == 23);
    assert("prompt_tokens"@.len() == 13);
    assert("completion_tokens"@.len() == 17);
    assert("total_tokens"@.len() == 12);
    assert("prompt_tokens_details"@.len() == 21);
    assert("type"@[0] != "role"@[0]);
    assert("model"@[0] != "usage"@[0]);
    assert("type"@[1] != "text"@[1]);
    assert("tool_use"@[0] != "end_turn"@[0]);
}

/// The answer in Anthropic's format has the id, the model and the words of the
/// answer in OpenAI's, and tells why it ended.
pub proof fn law_claude_reply_says_the_same(value: JsonView)
    requires
        value.at("choices"@).items().len() > 0,
    ensures
        ({
            let out = claude_reply(value);
            let choice = value.at("choices"@).items()[0];
            let finish = choice.at("finish_reason"@).str_or_empty();
            let blocks = out.at("content"@).items();
            let why = out.at("stop_reason"@);
            &&& value.at("id"@) is Str ==> out.at("id"@) == value.at("id"@)
            &&& !(value.at("id"@) is Str) ==> out.at("id"@) == JsonView::Str("msg_unknown"@)
            &&& value.at("model"@) is Str ==> out.at("model"@) == value.at("model"@)
            &&& !(value.at("model"@) is Str) ==> out.at("model"@) == JsonView::Str("unknown"@)
            &&& out.field("stop_sequence"@) == Some(JsonView::Null)
            &&& out.at("type"@) == JsonView::Str("message"@)
            &&& out.at("role"@) == JsonView::Str("assistant"@)
            &&& blocks.len() == 1
            &&& blocks[0].at("type"@) == JsonView::Str("text"@)
            &&& blocks[0].at("text"@) == JsonView::Str(
                choice.at("message"@).at("content"@).str_or_empty(),
            )
            &&& finish == "length"@ ==> why == JsonView::Str("max_tokens"@)
            &&& finish == "tool_calls"@ ==> why == JsonView::Str("tool_use"@)
            &&& finish != "length"@ && finish != "tool_calls"@ ==> why == JsonView::Str("end_turn"@)
        }),
{
    lemma_reply_words();
    let out = claude_reply(value);
    let choice = value.at("choices"@).items()[0];
    assert(value.at("choices"@).first() == Some(choice));
    let said = obj().put("type"@, text("text"@)).put(
        "text"@,
        text(choice.at("message"@).at("content"@).str_or_empty()),
    );
    assert(out.at("content"@) == JsonView::Array(seq![said]));
}

/// The tokens of the prompt are those that were read afresh and those that were
/// read from the cache; the tokens of the answer are as they were.
pub proof fn law_claude_reply_counts_the_same(value: JsonView)
    requires
        value.field("usage"@) is Some,
        0 <= value.at("usage"@).at("prompt_tokens_details"@).at("cached_tokens"@).int64_or_zero()
            <= value.at("usage"@).at("prompt_tokens"@).int64_or_zero(),
    ensures
        ({
            let given = value.at("usage"@);
            let counts = claude_reply(value).at("usage"@);
            let cached = given.at("prompt_tokens_details"@).at("cached_tokens"@).int64_or_zero();
            &&& counts.at("input_tokens"@) == JsonView::Int(
                given.at("prompt_tokens"@).int64_or_zero() - cached,
            )
            &&& counts.at("output_tokens"@) == JsonView::Int(
                given.at("completion_tokens"@).int64_or_zero(),
            )
            &&& cached > 0 ==> counts.at("cache_read_input_tokens"@) == JsonView::Int(cached)
            &&& cached == 0 ==> counts.field("cache_read_input_tokens"@) is None
        }),
{
    lemma_reply_words();
    assert(claude_reply(value).at("usage"@) == claude_usage(value));
}

proof fn lemma_spoken(blocks: Seq<JsonView>)
    ensures
        spoken(blocks) == texts_in(blocks).flatten(),
{
    texts_in(blocks).lemma_flatten_and_flatten_alt_are_equivalent();
    lemma_spoken_alt(blocks);
}

proof fn lemma_spoken_alt(blocks: Seq<JsonView>)
    ensures
        spoken(blocks) == texts_in(blocks).flatten_alt(),
    decreases blocks.len(),
{
    if blocks.len() > 0 {
        let rest = blocks.drop_last();
        lemma_spoken_alt(rest);
        match crate::codex::request_laws::block_text(blocks.last()) {
            Some(t) => {
                assert(texts_in(blocks) =~= texts_in(rest).push(t));
                assert(texts_in(rest).push(t).drop_last() =~= texts_in(rest));
            },
            None => {},
        }
    }
}

proof fn lemma_calls(blocks: Seq<JsonView>)
    ensures
        block_calls(blocks) == of_kind(blocks, "tool_use"@).map_values(|b: JsonView| tool_call(b)),
    decreases blocks.len(),
{
    reveal(Seq::filter);
    if blocks.len() > 0 {
        lemma_calls(blocks.drop_last());
    }
    assert(block_calls(blocks) =~= of_kind(blocks, "tool_use"@).map_values(
        |b: JsonView| tool_call(b),
    ));
}

/// The answer in OpenAI's format has the id, the model and the words of the answer
/// in Anthropic's, its tool calls, one each and in order, with their ids, names and
/// the texts of their inputs, and tells why it ended.
pub proof fn law_openai_reply_says_the_same(value: JsonView, i: int)
    ensures
        ({
            let out = openai_reply(value);
            let blocks = value.at("content"@).items();
            let uses = of_kind(blocks, "tool_use"@);
            let said = texts_in(blocks).flatten();
            let stop = value.at("stop_reason"@).str_or_empty();
            let choice = out.at("choices"@).items()[0];
            let message = choice.at("message"@);
            let calls = message.at("tool_calls"@).items();
            let why = choice.at("finish_reason"@);
            &&& value.at("id"@) is Str ==> out.at("id"@) == value.at("id"@)
            &&& !(value.at("id"@) is Str) ==> out.at("id"@) == JsonView::Str("msg_unknown"@)
            &&& value.at("model"@) is Str ==> out.at("model"@) == value.at("model"@)
            &&& !(value.at("model"@) is Str) ==> out.at("model"@) == JsonView::Str("unknown"@)
            &&& out.at("object"@) == JsonView::Str("chat.completion"@)
            &&& out.at("choices"@).items().len() == 1
            &&& choice.at("index"@) == JsonView::Int(0)
            &&& message.at("role"@) == JsonView::Str("assistant"@)
            &&& said.len() > 0 || uses.len() == 0 ==> message.at("content"@) == JsonView::Str(said)
            &&& said.len() == 0 && uses.len() > 0 ==> message.field("content"@) is None
            &&& calls.len() == uses.len()
            &&& 0 <= i < uses.len() ==> {
                let function = calls[i].at("function"@);
                &&& calls[i].at("type"@) == JsonView::Str("function"@)
                &&& uses[i].field("id"@) is Some ==> calls[i].at("id"@) == uses[i].at("id"@)
                &&& uses[i].field("name"@) is Some ==> function.at("name"@) == uses[i].at("name"@)
                &&& uses[i].field("input"@) is Some ==> function.at("arguments"@) == JsonView::Str(
                    printed(uses[i].at("input"@)),
                )
            }
            &&& uses.len() > 0 || stop == "tool_use"@ ==> why == JsonView::Str("tool_calls"@)
            &&& uses.len() == 0 && stop == "max_tokens"@ ==> why == JsonView::Str("length"@)
            &&& uses.len() == 0 && stop != "max_tokens"@ && stop != "tool_use"@ ==> why
                == JsonView::Str("stop"@)
        }),
{
    lemma_reply_words();
    let out = openai_reply(value);
    let blocks = value.at("content"@).items();
    let uses = of_kind(blocks, "tool_use"@);
    lemma_spoken(blocks);
    lemma_calls(blocks);
    let choice = out.at("choices"@).items()[0];
    let message = choice.at("message"@);
    if uses.len() > 0 {
        assert(message.at("tool_calls"@) == JsonView::Array(block_calls(blocks)));
        if 0 <= i < uses.len() {
            assert(block_calls(blocks)[i] == tool_call(uses[i]));
        }
    } else {
        assert(message.at("tool_calls"@) == JsonView::Null);
    }
}

/// The prompt counts what was read from the cache, and the total adds up.
pub proof fn law_openai_reply_counts_the_same(value: JsonView)
    requires
        value.field("usage"@) is Some,
        0 <= value.at("usage"@).at("input_tokens"@).int64_or_zero(),
        0 <= value.at("usage"@).at("cache_read_input_tokens"@).int64_or_zero(),
        0 <= value.at("usage"@).at("output_tokens"@).int64_or_zero(),
        value.at("usage"@).at("input_tokens"@).int64_or_zero() + value.at("usage"@).at(
            "cache_read_input_tokens"@,
        ).int64_or_zero() + value.at("usage"@).at("output_tokens"@).int64_or_zero() <= i64::MAX,
    ensures
        ({
            let given = value.at("usage"@);
            let counts = openai_reply(value).at("usage"@);
            let fresh = given.at("input_tokens"@).int64_or_zero();
            let cached = given.at("cache_read_input_tokens"@).int64_or_zero();
            let output = given.at("output_tokens"@).int64_or_zero();
            &&& counts.at("prompt_tokens"@) == JsonView::Int(fresh + cached)
            &&& counts.at("completion_tokens"@) == JsonView::Int(output)
            &&& counts.at("total_tokens"@) == JsonView::Int(fresh + cached + output)
            &&& cached > 0 ==> counts.at("prompt_tokens_details"@).at("cached_tokens"@)
                == JsonView::Int(cached)
            &&& cached == 0 ==> counts.field("prompt_tokens_details"@) is None
        }),
{
    lemma_reply_words();
    assert(openai_reply(value).at("usage"@) == openai_usage(value));
}


/// An answer of whose cost nothing is known cost nothing.
pub proof fn law_unknown_costs_are_nothing(value: JsonView)
    requires
        value.field("usage"@) is None,
    ensures
        claude_reply(value).at("usage"@).at("input_tokens"@) == JsonView::Int(0),
        claude_reply(value).at("usage"@).at("output_tokens"@) == JsonView::Int(0),
        openai_reply(value).at("usage"@).at("prompt_tokens"@) == JsonView::Int(0),
        openai_reply(value).at("usage"@).at("completion_tokens"@) == JsonView::Int(0),
        openai_reply(value).at("usage"@).at("total_tokens"@) == JsonView::Int(0),
{
    lemma_reply_words();
    assert(claude_reply(value).at("usage"@) == claude_usage(value));
    assert(openai_reply(value).at("usage"@) == openai_usage(value));
}

} // verus!
