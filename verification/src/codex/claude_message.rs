//! Whole responses between the OpenAI `chat.completion` shape and the Anthropic
//! Messages shape, with the token counts that each reports.
use vstd::prelude::*;

use crate::codex::claude_request::{block_calls, tool_call_of};
use crate::json::{items_view, obj, push_item, text, Json, JsonView};
use crate::text::same;

verus! {

/// A 64-bit signed sum or difference, which wraps around.
pub open spec fn wrap64(x: int) -> int {
    if x > i64::MAX {
        x - 0x1_0000_0000_0000_0000
    } else if x < i64::MIN {
        x + 0x1_0000_0000_0000_0000
    } else {
        x
    }
}

/// The Anthropic stop reason for an OpenAI finish reason.
pub open spec fn stop_reason(finish: Seq<char>) -> Seq<char> {
    if finish == "length"@ {
        "max_tokens"@
    } else if finish == "tool_calls"@ {
        "tool_use"@
    } else {
        "end_turn"@
    }
}

/// The OpenAI finish reason for an Anthropic stop reason.
pub open spec fn finish_reason(stop: Seq<char>) -> Seq<char> {
    if stop == "max_tokens"@ {
        "length"@
    } else if stop == "tool_use"@ {
        "tool_calls"@
    } else {
        "stop"@
    }
}

pub fn finish_to_stop_reason(reason: &str) -> (r: &'static str)
    ensures
        r@ == stop_reason(reason@),
{
    if same(reason, "length") {
        "max_tokens"
    } else if same(reason, "tool_calls") {
        "tool_use"
    } else {
        "end_turn"
    }
}

pub fn stop_reason_to_finish(reason: &str) -> (r: &'static str)
    ensures
        r@ == finish_reason(reason@),
{
    if same(reason, "max_tokens") {
        "length"
    } else if same(reason, "tool_use") {
        "tool_calls"
    } else {
        "stop"
    }
}

/// The Anthropic token counts for the OpenAI counts in `value`. Anthropic's
/// `input_tokens` leaves out what was read from the cache, which OpenAI's
/// `prompt_tokens` counts; so the two differ by it.
pub open spec fn claude_usage(value: JsonView) -> JsonView {
    match value.field("usage"@) {
        None => obj().put("input_tokens"@, JsonView::Int(0)).put(
            "output_tokens"@,
            JsonView::Int(0),
        ),
        Some(u) => {
            let prompt = u.at("prompt_tokens"@).int64_or_zero();
            let completion = u.at("completion_tokens"@).int64_or_zero();
            let cached = u.at("prompt_tokens_details"@).at("cached_tokens"@).int64_or_zero();
            let fresh = wrap64(prompt - cached);
            let counts = obj().put("input_tokens"@, JsonView::Int(if fresh < 0 { 0 } else { fresh })).put(
                "output_tokens"@,
                JsonView::Int(completion),
            );
            if cached > 0 {
                counts.put("cache_read_input_tokens"@, JsonView::Int(cached))
            } else {
                counts
            }
        },
    }
}

pub fn usage_from(value: &Json) -> (r: Json)
    ensures
        r@ == claude_usage(value@),
{
    match value.get("usage") {
        None => Json::object().with("input_tokens", Json::signed(0)).with(
            "output_tokens",
            Json::signed(0),
        ),
        Some(u) => {
            let prompt: i64 = u.at("prompt_tokens").i64_or_zero();
            let completion: i64 = u.at("completion_tokens").i64_or_zero();
            let cached: i64 = u.at("prompt_tokens_details").at("cached_tokens").i64_or_zero();
            let fresh: i64 = prompt.wrapping_sub(cached);
            let input: i64 = if fresh < 0 {
                0
            } else {
                fresh
            };
            let counts = Json::object().with("input_tokens", Json::signed(input)).with(
                "output_tokens",
                Json::signed(completion),
            );
            if cached > 0 {
                counts.with("cache_read_input_tokens", Json::signed(cached))
            } else {
                counts
            }
        },
    }
}

/// The OpenAI token counts for the Anthropic counts in `value`: what was read
/// from the cache counts as part of the prompt.
pub open spec fn openai_usage(value: JsonView) -> JsonView {
    match value.field("usage"@) {
        None => obj().put("prompt_tokens"@, JsonView::Int(0)).put(
            "completion_tokens"@,
            JsonView::Int(0),
        ).put("total_tokens"@, JsonView::Int(0)),
        Some(u) => {
            let input = u.at("input_tokens"@).int64_or_zero();
            let cached = u.at("cache_read_input_tokens"@).int64_or_zero();
            let output = u.at("output_tokens"@).int64_or_zero();
            openai_counts(wrap64(input + cached), output, cached)
        },
    }
}

/// OpenAI token counts. Cached tokens are mentioned where there are any.
pub open spec fn openai_counts(prompt: int, completion: int, cached: int) -> JsonView {
    let counts = obj().put("prompt_tokens"@, JsonView::Int(prompt)).put(
        "completion_tokens"@,
        JsonView::Int(completion),
    ).put("total_tokens"@, JsonView::Int(wrap64(prompt + completion)));
    if cached > 0 {
        counts.put("prompt_tokens_details"@, obj().put("cached_tokens"@, JsonView::Int(cached)))
    } else {
        counts
    }
}

/// OpenAI token counts.
pub fn openai_counts_of(prompt: i64, completion: i64, cached: i64) -> (r: Json)
    ensures
        r@ == openai_counts(prompt as int, completion as int, cached as int),
{
    let total: i64 = prompt.wrapping_add(completion);
    let counts = Json::object().with("prompt_tokens", Json::signed(prompt)).with(
        "completion_tokens",
        Json::signed(completion),
    ).with("total_tokens", Json::signed(total));
    if cached > 0 {
        counts.with(
            "prompt_tokens_details",
            Json::object().with("cached_tokens", Json::signed(cached)),
        )
    } else {
        counts
    }
}

pub fn openai_usage_from_claude(value: &Json) -> (r: Json)
    ensures
        r@ == openai_usage(value@),
{
    match value.get("usage") {
        None => Json::object().with("prompt_tokens", Json::signed(0)).with(
            "completion_tokens",
            Json::signed(0),
        ).with("total_tokens", Json::signed(0)),
        Some(u) => {
            let input: i64 = u.at("input_tokens").i64_or_zero();
            let cached: i64 = u.at("cache_read_input_tokens").i64_or_zero();
            let output: i64 = u.at("output_tokens").i64_or_zero();
            openai_counts_of(input.wrapping_add(cached), output, cached)
        },
    }
}

/// The Anthropic message that a `chat.completion` becomes. It carries the text
/// of the first choice.
pub open spec fn claude_reply(value: JsonView) -> JsonView {
    let choice = or_null(value.at("choices"@).first());
    let said = obj().put("type"@, text("text"@)).put(
        "text"@,
        text(choice.at("message"@).at("content"@).str_or_empty()),
    );
    obj().put("id"@, text(value.at("id"@).str_or("msg_unknown"@))).put(
        "type"@,
        text("message"@),
    ).put("role"@, text("assistant"@)).put(
        "model"@,
        text(value.at("model"@).str_or("unknown"@)),
    ).put("content"@, JsonView::Array(seq![said])).put(
        "stop_reason"@,
        text(stop_reason(choice.at("finish_reason"@).str_or("stop"@))),
    ).put("stop_sequence"@, JsonView::Null).put("usage"@, claude_usage(value))
}

/// The value where there is one, null otherwise.
pub open spec fn or_null(v: Option<JsonView>) -> JsonView {
    match v {
        Some(x) => x,
        None => JsonView::Null,
    }
}

/// OpenAI `chat.completion` JSON -> Anthropic Messages JSON.
pub fn openai_json_to_claude_message(value: &Json) -> (r: Json)
    ensures
        r@ == claude_reply(value@),
{
    let choice = match value.at("choices").first() {
        Some(c) => c,
        None => &Json::Null,
    };
    let said = Json::object().with("type", Json::text("text")).with(
        "text",
        Json::text(choice.at("message").at("content").str_or_empty()),
    );
    Json::object().with("id", Json::text(value.at("id").str_or("msg_unknown"))).with(
        "type",
        Json::text("message"),
    ).with("role", Json::text("assistant")).with(
        "model",
        Json::text(value.at("model").str_or("unknown")),
    ).with("content", Json::array1(said)).with(
        "stop_reason",
        Json::text(finish_to_stop_reason(choice.at("finish_reason").str_or("stop"))),
    ).with("stop_sequence", Json::Null).with("usage", usage_from(value))
}

/// The texts of the text blocks, run together.
pub open spec fn spoken(blocks: Seq<JsonView>) -> Seq<char>
    decreases blocks.len(),
{
    if blocks.len() == 0 {
        seq![]
    } else {
        let b = blocks.last();
        let rest = spoken(blocks.drop_last());
        match b.at("text"@).str() {
            Some(t) if b.at("type"@).str() == Some("text"@) => rest + t,
            _ => rest,
        }
    }
}

/// The `chat.completion` that an Anthropic message becomes. Where it calls
/// tools, that is why it finished.
pub open spec fn openai_reply(value: JsonView) -> JsonView {
    let blocks = value.at("content"@).items();
    let said = spoken(blocks);
    let calls = block_calls(blocks);
    let stop = value.at("stop_reason"@).str_or("end_turn"@);
    let assistant = obj().put("role"@, text("assistant"@));
    let message = if calls.len() > 0 {
        (if said.len() > 0 {
            assistant.put("content"@, text(said))
        } else {
            assistant
        }).put("tool_calls"@, JsonView::Array(calls))
    } else {
        assistant.put("content"@, text(said))
    };
    let finish = if calls.len() > 0 {
        "tool_calls"@
    } else {
        finish_reason(stop)
    };
    let choice = obj().put("index"@, JsonView::Int(0)).put("message"@, message).put(
        "finish_reason"@,
        text(finish),
    );
    obj().put("id"@, text(value.at("id"@).str_or("msg_unknown"@))).put(
        "object"@,
        text("chat.completion"@),
    ).put("model"@, text(value.at("model"@).str_or("unknown"@))).put(
        "choices"@,
        JsonView::Array(seq![choice]),
    ).put("usage"@, openai_usage(value))
}

fn read_blocks(value: &Json) -> (r: (String, Vec<Json>))
    ensures
        r.0@ == spoken(value@.at("content"@).items()),
        items_view(r.1@) == block_calls(value@.at("content"@).items()),
{
    let mut said = String::new();
    let mut calls: Vec<Json> = Vec::new();
    let ghost all = value@.at("content"@).items();
    assert(items_view(calls@) =~= block_calls(all.subrange(0, 0)));
    assert(said@ =~= spoken(all.subrange(0, 0)));
    match value.at("content").as_array() {
        Some(blocks) => {
            let mut i: usize = 0;
            while i < blocks.len()
                invariant
                    i <= blocks.len(),
                    all == items_view(blocks@),
                    said@ == spoken(all.subrange(0, i as int)),
                    items_view(calls@) == block_calls(all.subrange(0, i as int)),
                decreases blocks.len() - i,
            {
                assert(all.subrange(0, i + 1).drop_last() =~= all.subrange(0, i as int));
                assert(all.subrange(0, i + 1).last() == blocks@[i as int]@);
                proof {
                    reveal_strlit("text");
                    reveal_strlit("tool_use");
                    assert("text"@.len() != "tool_use"@.len());
                }
                let block = &blocks[i];
                if block.at("type").is_text("text") {
                    match block.at("text").as_str() {
                        Some(t) => {
                            said.append(t);
                        },
                        None => {},
                    }
                } else if block.at("type").is_text("tool_use") {
                    push_item(&mut calls, tool_call_of(block));
                }
                i += 1;
            }
            assert(all.subrange(0, i as int) =~= all);
        },
        None => {
            assert(all =~= all.subrange(0, 0));
        },
    }
    (said, calls)
}

/// Anthropic Messages JSON -> OpenAI `chat.completion` JSON.
pub fn claude_json_to_openai_message(value: &Json) -> (r: Json)
    ensures
        r@ == openai_reply(value@),
{
    let (said, calls) = read_blocks(value);
    let stop = value.at("stop_reason").str_or("end_turn");
    let mut message = Json::object().with("role", Json::text("assistant"));
    let finish;
    if calls.len() > 0 {
        if !said.as_str().is_empty() {
            message = message.with("content", Json::Str(said));
        }
        message = message.with("tool_calls", Json::array(calls));
        finish = "tool_calls";
    } else {
        message = message.with("content", Json::Str(said));
        finish = stop_reason_to_finish(stop);
    }
    let choice = Json::object().with("index", Json::signed(0)).with("message", message).with(
        "finish_reason",
        Json::text(finish),
    );
    Json::object().with("id", Json::text(value.at("id").str_or("msg_unknown"))).with(
        "object",
        Json::text("chat.completion"),
    ).with("model", Json::text(value.at("model").str_or("unknown"))).with(
        "choices",
        Json::array1(choice),
    ).with("usage", openai_usage_from_claude(value))
}

// ---------------------------------------------------------------------------
// Laws
// ---------------------------------------------------------------------------

/// A finish reason that both sides know survives the way there and back.
pub proof fn law_finish_reason_round_trip(finish: Seq<char>)
    requires
        finish == "stop"@ || finish == "length"@ || finish == "tool_calls"@,
    ensures
        finish_reason(stop_reason(finish)) == finish,
{
    reveal_strlit("stop");
    reveal_strlit("length");
    reveal_strlit("tool_calls");
    reveal_strlit("max_tokens");
    reveal_strlit("tool_use");
    reveal_strlit("end_turn");
    assert("stop"@.len() == 4 && "length"@.len() == 6 && "tool_calls"@.len() == 10);
    assert("max_tokens"@[0] == 'm' && "tool_use"@[0] == 't' && "end_turn"@[0] == 'e');
}

/// Fresh and cached tokens of the Anthropic counts add up to the prompt tokens
/// that OpenAI reported, as long as no more was cached than there was.
pub proof fn law_claude_usage_adds_up(value: JsonView)
    requires
        value.field("usage"@) is Some,
        0 <= value.at("usage"@).at("prompt_tokens_details"@).at("cached_tokens"@).int64_or_zero()
            <= value.at("usage"@).at("prompt_tokens"@).int64_or_zero(),
    ensures
        claude_usage(value).at("input_tokens"@).int64_or_zero() + claude_usage(value).at(
            "cache_read_input_tokens"@,
        ).int64_or_zero() == value.at("usage"@).at("prompt_tokens"@).int64_or_zero(),
        claude_usage(value).at("output_tokens"@) == JsonView::Int(
            value.at("usage"@).at("completion_tokens"@).int64_or_zero(),
        ),
{
    lemma_usage_keys();
}

/// The counts survive the way to Anthropic's form and back: prompt, completion
/// and cached tokens are what they were.
pub proof fn law_usage_round_trip(value: JsonView)
    requires
        value.field("usage"@) is Some,
        0 <= value.at("usage"@).at("prompt_tokens_details"@).at("cached_tokens"@).int64_or_zero()
            <= value.at("usage"@).at("prompt_tokens"@).int64_or_zero(),
    ensures
        openai_usage(obj().put("usage"@, claude_usage(value))) == openai_counts(
            value.at("usage"@).at("prompt_tokens"@).int64_or_zero(),
            value.at("usage"@).at("completion_tokens"@).int64_or_zero(),
            value.at("usage"@).at("prompt_tokens_details"@).at("cached_tokens"@).int64_or_zero(),
        ),
{
    lemma_usage_keys();
    let wrapped = obj().put("usage"@, claude_usage(value));
    assert(wrapped.field("usage"@) == Some(claude_usage(value)));
}

proof fn lemma_usage_keys()
    ensures
        "input_tokens"@ != "output_tokens"@,
        "input_tokens"@ != "cache_read_input_tokens"@,
        "output_tokens"@ != "cache_read_input_tokens"@,
{
    reveal_strlit("input_tokens");
    reveal_strlit("output_tokens");
    reveal_strlit("cache_read_input_tokens");
    assert("input_tokens"@.len() == 12);
    assert("output_tokens"@.len() == 13);
    assert("cache_read_input_tokens"@.len() == 23);
}

} // verus!
