//! Request bodies between the Anthropic Messages shape and the OpenAI Chat
//! Completions shape, in both directions.
use vstd::prelude::*;

use crate::json::{
    append_items, copy_or, items_view, obj, opt_view, or_else, parse_json, parsed, printed,
    push_item, text, Json, JsonView,
};
use crate::text::{
    concat3, cut, join, joined, owned, split_once, strip_prefix, texts, without_prefix,
};

verus! {

// ---------------------------------------------------------------------------
// Anthropic Messages request -> OpenAI Chat Completions request
// ---------------------------------------------------------------------------

/// The `text` strings of the parts that have one, in order.
pub open spec fn part_texts(parts: Seq<JsonView>) -> Seq<Seq<char>>
    decreases parts.len(),
{
    if parts.len() == 0 {
        seq![]
    } else {
        let rest = part_texts(parts.drop_last());
        match parts.last().at("text"@).str() {
            Some(t) => rest.push(t),
            None => rest,
        }
    }
}

/// The `text` strings of the parts that have one.
pub fn part_texts_of(parts: &Vec<Json>) -> (r: Vec<String>)
    ensures
        texts(r@) == part_texts(items_view(parts@)),
{
    let mut out: Vec<String> = Vec::new();
    let ghost all = items_view(parts@);
    let mut i: usize = 0;
    assert(texts(out@) =~= part_texts(all.subrange(0, 0)));
    while i < parts.len()
        invariant
            i <= parts.len(),
            all == items_view(parts@),
            texts(out@) == part_texts(all.subrange(0, i as int)),
        decreases parts.len() - i,
    {
        assert(all.subrange(0, i + 1).drop_last() =~= all.subrange(0, i as int));
        assert(all.subrange(0, i + 1).last() == parts@[i as int]@);
        let ghost before = out@;
        match parts[i].at("text").as_str() {
            Some(t) => {
                out.push(owned(t));
                assert(texts(out@) =~= texts(before).push(t@));
            },
            None => {},
        }
        i += 1;
    }
    assert(all.subrange(0, i as int) =~= all);
    out
}

/// The `tool_choice` of a Chat Completions request that says what an Anthropic
/// one says.
pub open spec fn openai_tool_choice(choice: JsonView) -> JsonView {
    match choice {
        JsonView::Str(s) => text(s),
        JsonView::Object(_) => {
            let kind = choice.at("type"@).str();
            if kind == Some("auto"@) {
                text("auto"@)
            } else if kind == Some("any"@) {
                text("required"@)
            } else if kind == Some("tool"@) {
                obj().put("type"@, text("function"@)).put(
                    "function"@,
                    obj().put("name"@, or_else(choice.field("name"@), text(""@))),
                )
            } else {
                text("auto"@)
            }
        },
        _ => text("auto"@),
    }
}

fn convert_tool_choice(choice: &Json) -> (r: Json)
    ensures
        r@ == openai_tool_choice(choice@),
{
    match choice {
        Json::Str(s) => Json::text(s.as_str()),
        Json::Object(_) => {
            let kind = choice.at("type");
            if kind.is_text("auto") {
                Json::text("auto")
            } else if kind.is_text("any") {
                Json::text("required")
            } else if kind.is_text("tool") {
                let name = copy_or(choice.get("name"), Json::text(""));
                Json::object().with("type", Json::text("function")).with(
                    "function",
                    Json::object().with("name", name),
                )
            } else {
                Json::text("auto")
            }
        },
        _ => Json::text("auto"),
    }
}

/// The text of a system prompt given as a string or as a list of parts.
pub open spec fn system_text(system: JsonView) -> Seq<char> {
    match system {
        JsonView::Str(s) => s,
        JsonView::Array(parts) => joined(part_texts(parts), "\n"@),
        _ => seq![],
    }
}

fn system_text_of(system: &Json) -> (r: String)
    ensures
        r@ == system_text(system@),
{
    match system {
        Json::Str(s) => owned(s.as_str()),
        Json::Array(parts) => join(&part_texts_of(parts), "\n"),
        _ => String::new(),
    }
}

/// A message with a role and a content.
pub open spec fn message(role: Seq<char>, content: JsonView) -> JsonView {
    obj().put("role"@, text(role)).put("content"@, content)
}

/// A message with a role and a content.
pub fn message_of(role: &str, content: Json) -> (r: Json)
    ensures
        r@ == message(role@, content@),
{
    Json::object().with("role", Json::text(role)).with("content", content)
}

/// A text part.
pub open spec fn text_part(t: Seq<char>) -> JsonView {
    obj().put("type"@, text("text"@)).put("text"@, text(t))
}

/// A text part.
pub fn text_part_of(t: &str) -> (r: Json)
    ensures
        r@ == text_part(t@),
{
    Json::object().with("type", Json::text("text")).with("text", Json::text(t))
}

/// The texts of the text blocks.
pub open spec fn block_texts(blocks: Seq<JsonView>) -> Seq<Seq<char>>
    decreases blocks.len(),
{
    if blocks.len() == 0 {
        seq![]
    } else {
        let rest = block_texts(blocks.drop_last());
        let b = blocks.last();
        match b.at("text"@).str() {
            Some(t) if b.at("type"@).str() == Some("text"@) => rest.push(t),
            _ => rest,
        }
    }
}

/// The data URL of an inline image.
pub open spec fn image_url(source: JsonView) -> Seq<char> {
    "data:"@ + source.at("media_type"@).str_or("image/png"@) + ";base64,"@ + source.at(
        "data"@,
    ).str_or_empty()
}

/// The image parts that the inline images among the blocks become.
pub open spec fn block_images(blocks: Seq<JsonView>) -> Seq<JsonView>
    decreases blocks.len(),
{
    if blocks.len() == 0 {
        seq![]
    } else {
        let rest = block_images(blocks.drop_last());
        let b = blocks.last();
        if b.at("type"@).str() == Some("image"@) && b.at("source"@).at("type"@).str() == Some(
            "base64"@,
        ) {
            rest.push(
                obj().put("type"@, text("image_url"@)).put(
                    "image_url"@,
                    obj().put("url"@, text(image_url(b.at("source"@)))),
                ),
            )
        } else {
            rest
        }
    }
}

/// The tool call of a Chat Completions message that a `tool_use` block becomes:
/// its arguments are the text of the block's input.
pub open spec fn tool_call(b: JsonView) -> JsonView {
    obj().put("id"@, or_else(b.field("id"@), text(""@))).put("type"@, text("function"@)).put(
        "function"@,
        obj().put("name"@, or_else(b.field("name"@), text(""@))).put(
            "arguments"@,
            text(printed(or_else(b.field("input"@), obj()))),
        ),
    )
}

/// The tool call that a `tool_use` block becomes.
pub fn tool_call_of(b: &Json) -> (r: Json)
    ensures
        r@ == tool_call(b@),
{
    let id = copy_or(b.get("id"), Json::text(""));
    let name = copy_or(b.get("name"), Json::text(""));
    let arguments = copy_or(b.get("input"), Json::object()).print();
    Json::object().with("id", id).with("type", Json::text("function")).with(
        "function",
        Json::object().with("name", name).with("arguments", Json::Str(arguments)),
    )
}

/// The tool calls that the `tool_use` blocks become.
pub open spec fn block_calls(blocks: Seq<JsonView>) -> Seq<JsonView>
    decreases blocks.len(),
{
    if blocks.len() == 0 {
        seq![]
    } else {
        let rest = block_calls(blocks.drop_last());
        if blocks.last().at("type"@).str() == Some("tool_use"@) {
            rest.push(tool_call(blocks.last()))
        } else {
            rest
        }
    }
}

/// The text of a tool result: the string itself, the text parts on lines of
/// their own, or the compact JSON where there is no text to show.
pub open spec fn result_text(content: Option<JsonView>) -> Seq<char> {
    match content {
        None => seq![],
        Some(JsonView::Str(s)) => s,
        Some(JsonView::Array(parts)) => {
            let lines = joined(block_texts(parts), "\n"@);
            if lines.len() == 0 {
                printed(JsonView::Array(parts))
            } else {
                lines
            }
        },
        Some(v) => printed(v),
    }
}

/// The `tool` messages that the `tool_result` blocks become.
pub open spec fn block_results(blocks: Seq<JsonView>) -> Seq<JsonView>
    decreases blocks.len(),
{
    if blocks.len() == 0 {
        seq![]
    } else {
        let rest = block_results(blocks.drop_last());
        let b = blocks.last();
        if b.at("type"@).str() == Some("tool_result"@) {
            rest.push(
                obj().put("role"@, text("tool"@)).put(
                    "tool_call_id"@,
                    or_else(b.field("tool_use_id"@), text(""@)),
                ).put("content"@, text(result_text(b.field("content"@)))),
            )
        } else {
            rest
        }
    }
}

/// Text parts, one for each text.
pub open spec fn text_parts(ts: Seq<Seq<char>>) -> Seq<JsonView> {
    ts.map_values(|t: Seq<char>| text_part(t))
}

/// The Chat Completions messages that one Anthropic message becomes. Tool
/// results go first and stand alone; otherwise tool calls, otherwise images
/// behind the texts, otherwise the texts run together.
pub open spec fn openai_messages(msg: JsonView) -> Seq<JsonView> {
    let role = msg.at("role"@).str_or("user"@);
    match msg.at("content"@) {
        JsonView::Str(s) => seq![message(role, text(s))],
        JsonView::Array(blocks) => {
            let ts = block_texts(blocks);
            let run = text(joined(ts, ""@));
            if block_results(blocks).len() > 0 {
                if ts.len() > 0 {
                    block_results(blocks).push(message("user"@, run))
                } else {
                    block_results(blocks)
                }
            } else if block_calls(blocks).len() > 0 {
                let assistant = obj().put("role"@, text("assistant"@));
                let spoken = if ts.len() > 0 {
                    assistant.put("content"@, run)
                } else {
                    assistant
                };
                seq![spoken.put("tool_calls"@, JsonView::Array(block_calls(blocks)))]
            } else if block_images(blocks).len() > 0 {
                seq![message(role, JsonView::Array(text_parts(ts) + block_images(blocks)))]
            } else if ts.len() > 0 {
                seq![message(role, run)]
            } else {
                seq![message(role, text(""@))]
            }
        },
        _ => seq![message(role, text(""@))],
    }
}

fn result_text_of(content: Option<&Json>) -> (r: String)
    ensures
        r@ == result_text(opt_view(content)),
{
    match content {
        None => String::new(),
        Some(v) => {
            match v {
                Json::Str(s) => owned(s.as_str()),
                Json::Array(parts) => {
                    let lines = join(&block_texts_of(parts), "\n");
                    if lines.as_str().is_empty() {
                        v.print()
                    } else {
                        lines
                    }
                },
                _ => v.print(),
            }
        },
    }
}

fn block_texts_of(blocks: &Vec<Json>) -> (r: Vec<String>)
    ensures
        texts(r@) == block_texts(items_view(blocks@)),
{
    let mut out: Vec<String> = Vec::new();
    let ghost all = items_view(blocks@);
    let mut i: usize = 0;
    assert(texts(out@) =~= block_texts(all.subrange(0, 0)));
    while i < blocks.len()
        invariant
            i <= blocks.len(),
            all == items_view(blocks@),
            texts(out@) == block_texts(all.subrange(0, i as int)),
        decreases blocks.len() - i,
    {
        assert(all.subrange(0, i + 1).drop_last() =~= all.subrange(0, i as int));
        assert(all.subrange(0, i + 1).last() == blocks@[i as int]@);
        let ghost before = out@;
        if blocks[i].at("type").is_text("text") {
            match blocks[i].at("text").as_str() {
                Some(t) => {
                    out.push(owned(t));
                    assert(texts(out@) =~= texts(before).push(t@));
                },
                None => {},
            }
        }
        i += 1;
    }
    assert(all.subrange(0, i as int) =~= all);
    out
}

fn text_parts_of(ts: &Vec<String>) -> (r: Vec<Json>)
    ensures
        items_view(r@) == text_parts(texts(ts@)),
{
    let mut out: Vec<Json> = Vec::new();
    let mut i: usize = 0;
    while i < ts.len()
        invariant
            i <= ts.len(),
            items_view(out@) == text_parts(texts(ts@).subrange(0, i as int)),
        decreases ts.len() - i,
    {
        push_item(&mut out, text_part_of(ts[i].as_str()));
        i += 1;
        assert(items_view(out@) =~= text_parts(texts(ts@).subrange(0, i as int)));
    }
    assert(texts(ts@).subrange(0, i as int) =~= texts(ts@));
    out
}

/// The names of the block kinds differ.
proof fn lemma_block_kinds()
    ensures
        "image"@ != "tool_use"@,
        "image"@ != "tool_result"@,
        "tool_use"@ != "tool_result"@,
{
    reveal_strlit("image");
    reveal_strlit("tool_use");
    reveal_strlit("tool_result");
    assert("image"@.len() == 5);
    assert("tool_use"@.len() == 8);
    assert("tool_result"@.len() == 11);
}

/// Puts the Chat Completions messages that one Anthropic message becomes
/// behind `out`.
fn convert_claude_message(msg: &Json, out: &mut Vec<Json>)
    ensures
        items_view(final(out)@) == items_view(old(out)@) + openai_messages(msg@),
{
    let role = msg.at("role").str_or("user");
    let content = msg.at("content");
    let ghost start = items_view(out@);
    match content {
        Json::Str(s) => {
            push_item(out, message_of(role, Json::text(s.as_str())));
            assert(items_view(out@) =~= start + openai_messages(msg@));
        },
        Json::Array(blocks) => {
            let ghost all = items_view(blocks@);
            let ts = block_texts_of(blocks);
            let mut images: Vec<Json> = Vec::new();
            let mut calls: Vec<Json> = Vec::new();
            let mut results: Vec<Json> = Vec::new();
            let mut i: usize = 0;
            assert(all.subrange(0, 0) =~= seq![]);
            assert(items_view(images@) =~= seq![]);
            while i < blocks.len()
                invariant
                    i <= blocks.len(),
                    all == items_view(blocks@),
                    items_view(images@) == block_images(all.subrange(0, i as int)),
                    items_view(calls@) == block_calls(all.subrange(0, i as int)),
                    items_view(results@) == block_results(all.subrange(0, i as int)),
                decreases blocks.len() - i,
            {
                assert(all.subrange(0, i + 1).drop_last() =~= all.subrange(0, i as int));
                assert(all.subrange(0, i + 1).last() == blocks@[i as int]@);
                let block = &blocks[i];
                let kind = block.at("type");
                proof {
                    lemma_block_kinds();
                }
                if kind.is_text("image") {
                    let source = block.at("source");
                    if source.at("type").is_text("base64") {
                        let mut url = concat3(
                            "data:",
                            source.at("media_type").str_or("image/png"),
                            ";base64,",
                        );
                        url.append(source.at("data").str_or_empty());
                        push_item(
                            &mut images,
                            Json::object().with("type", Json::text("image_url")).with(
                                "image_url",
                                Json::object().with("url", Json::Str(url)),
                            ),
                        );
                    }
                } else if kind.is_text("tool_use") {
                    push_item(&mut calls, tool_call_of(block));
                } else if kind.is_text("tool_result") {
                    let id = copy_or(block.get("tool_use_id"), Json::text(""));
                    let shown = result_text_of(block.get("content"));
                    push_item(
                        &mut results,
                        Json::object().with("role", Json::text("tool")).with(
                            "tool_call_id",
                            id,
                        ).with("content", Json::Str(shown)),
                    );
                }
                i += 1;
            }
            assert(all.subrange(0, i as int) =~= all);
            if results.len() > 0 {
                append_items(out, results);
                if ts.len() > 0 {
                    push_item(out, message_of("user", Json::Str(join(&ts, ""))));
                }
                assert(items_view(out@) =~= start + openai_messages(msg@));
            } else if calls.len() > 0 {
                let mut assistant = Json::object().with("role", Json::text("assistant"));
                if ts.len() > 0 {
                    assistant = assistant.with("content", Json::Str(join(&ts, "")));
                }
                push_item(out, assistant.with("tool_calls", Json::array(calls)));
                assert(items_view(out@) =~= start + openai_messages(msg@));
            } else if images.len() > 0 {
                let mut parts = text_parts_of(&ts);
                append_items(&mut parts, images);
                push_item(out, message_of(role, Json::array(parts)));
                assert(items_view(out@) =~= start + openai_messages(msg@));
            } else if ts.len() > 0 {
                push_item(out, message_of(role, Json::Str(join(&ts, ""))));
                assert(items_view(out@) =~= start + openai_messages(msg@));
            } else {
                push_item(out, message_of(role, Json::text("")));
                assert(items_view(out@) =~= start + openai_messages(msg@));
            }
        },
        _ => {
            push_item(out, message_of(role, Json::text("")));
            assert(items_view(out@) =~= start + openai_messages(msg@));
        },
    }
}

/// The Chat Completions messages that a list of Anthropic messages becomes.
pub open spec fn openai_messages_of(msgs: Seq<JsonView>) -> Seq<JsonView>
    decreases msgs.len(),
{
    if msgs.len() == 0 {
        seq![]
    } else {
        openai_messages_of(msgs.drop_last()) + openai_messages(msgs.last())
    }
}

/// The schema of a tool that gives none.
pub open spec fn empty_schema() -> JsonView {
    obj().put("type"@, text("object"@)).put("properties"@, obj())
}

fn empty_schema_of() -> (r: Json)
    ensures
        r@ == empty_schema(),
{
    Json::object().with("type", Json::text("object")).with("properties", Json::object())
}

/// The Chat Completions tool that an Anthropic tool becomes.
pub open spec fn openai_tool(t: JsonView) -> JsonView {
    obj().put("type"@, text("function"@)).put(
        "function"@,
        obj().put("name"@, or_else(t.field("name"@), text(""@))).put(
            "description"@,
            text(t.at("description"@).str_or_empty()),
        ).put("parameters"@, or_else(t.field("input_schema"@), empty_schema())),
    )
}

fn openai_tool_of(t: &Json) -> (r: Json)
    ensures
        r@ == openai_tool(t@),
{
    let name = copy_or(t.get("name"), Json::text(""));
    let description = Json::text(t.at("description").str_or_empty());
    let parameters = copy_or(t.get("input_schema"), empty_schema_of());
    Json::object().with("type", Json::text("function")).with(
        "function",
        Json::object().with("name", name).with("description", description).with(
            "parameters",
            parameters,
        ),
    )
}

/// The messages of a Chat Completions request: the system prompt, where there
/// is any, before what the messages become.
pub open spec fn openai_conversation(body: JsonView) -> Seq<JsonView> {
    let system = system_text(body.at("system"@));
    let talk = openai_messages_of(body.at("messages"@).items());
    if system.len() > 0 {
        seq![message("system"@, text(system))] + talk
    } else {
        talk
    }
}

/// `base` with the members of `body` that both request shapes share, under
/// the given key, where `body` has it.
pub open spec fn carry(base: JsonView, body: JsonView, key: Seq<char>) -> JsonView {
    base.put_some(key, body.field(key))
}

/// Copies one member of `body`, where it has it.
pub fn carry_of(base: Json, body: &Json, key: &str) -> (r: Json)
    ensures
        r@ == carry(base@, body@, key@),
{
    match body.get(key) {
        Some(v) => base.with(key, v.copy()),
        None => base,
    }
}

/// The Chat Completions request that an Anthropic Messages request becomes.
pub open spec fn openai_request(body: JsonView) -> JsonView {
    let talk = obj().put("messages"@, JsonView::Array(openai_conversation(body)));
    let plain = carry(
        carry(carry(carry(talk, body, "model"@), body, "stream"@), body, "max_tokens"@),
        body,
        "temperature"@,
    );
    let tooled = match body.at("tools"@) {
        JsonView::Array(tools) => plain.put(
            "tools"@,
            JsonView::Array(tools.map_values(|t: JsonView| openai_tool(t))),
        ),
        _ => plain,
    };
    match body.field("tool_choice"@) {
        Some(choice) => tooled.put("tool_choice"@, openai_tool_choice(choice)),
        None => tooled,
    }
}

/// Anthropic Messages request body -> OpenAI Chat Completions request body.
pub fn claude_to_openai_request(body: &Json) -> (r: Json)
    ensures
        r@ == openai_request(body@),
{
    let mut messages: Vec<Json> = Vec::new();
    let system = system_text_of(body.at("system"));
    assert(items_view(messages@) =~= seq![]);
    if !system.as_str().is_empty() {
        push_item(&mut messages, message_of("system", Json::Str(system)));
    }
    let ghost head = items_view(messages@);
    let ghost all = body@.at("messages"@).items();
    match body.at("messages").as_array() {
        Some(msgs) => {
            let mut i: usize = 0;
            assert(all.subrange(0, 0) =~= seq![]);
            assert(items_view(messages@) =~= head + openai_messages_of(all.subrange(0, 0)));
            while i < msgs.len()
                invariant
                    i <= msgs.len(),
                    all == items_view(msgs@),
                    items_view(messages@) == head + openai_messages_of(all.subrange(0, i as int)),
                decreases msgs.len() - i,
            {
                assert(all.subrange(0, i + 1).drop_last() =~= all.subrange(0, i as int));
                assert(all.subrange(0, i + 1).last() == msgs@[i as int]@);
                convert_claude_message(&msgs[i], &mut messages);
                i += 1;
                assert(items_view(messages@) =~= head + openai_messages_of(
                    all.subrange(0, i as int),
                ));
            }
            assert(all.subrange(0, i as int) =~= all);
        },
        None => {
            assert(all =~= seq![]);
        },
    }
    assert(items_view(messages@) =~= openai_conversation(body@));
    let mut out = Json::object().with("messages", Json::array(messages));
    out = carry_of(out, body, "model");
    out = carry_of(out, body, "stream");
    out = carry_of(out, body, "max_tokens");
    out = carry_of(out, body, "temperature");
    match body.at("tools").as_array() {
        Some(tools) => {
            let ghost given = items_view(tools@);
            let mut converted: Vec<Json> = Vec::new();
            let mut i: usize = 0;
            while i < tools.len()
                invariant
                    i <= tools.len(),
                    given == items_view(tools@),
                    items_view(converted@) =~= given.subrange(0, i as int).map_values(
                        |t: JsonView| openai_tool(t),
                    ),
                decreases tools.len() - i,
            {
                assert(given[i as int] == tools@[i as int]@);
                push_item(&mut converted, openai_tool_of(&tools[i]));
                i += 1;
            }
            assert(given.subrange(0, i as int) =~= given);
            out = out.with("tools", Json::array(converted));
        },
        None => {},
    }
    match body.get("tool_choice") {
        Some(choice) => out.with("tool_choice", convert_tool_choice(choice)),
        None => out,
    }
}

// ---------------------------------------------------------------------------
// OpenAI Chat Completions request -> Anthropic Messages request
// ---------------------------------------------------------------------------

/// The `tool_choice` of an Anthropic request that says what a Chat Completions
/// one says.
pub open spec fn claude_tool_choice(choice: JsonView) -> JsonView {
    if choice == text("required"@) {
        obj().put("type"@, text("any"@))
    } else if choice is Object && choice.at("type"@).str() == Some("function"@) {
        obj().put("type"@, text("tool"@)).put("name"@, choice.at("function"@).at("name"@))
    } else {
        obj().put("type"@, text("auto"@))
    }
}

fn convert_tool_choice_to_claude(choice: &Json) -> (r: Json)
    ensures
        r@ == claude_tool_choice(choice@),
{
    if choice.is_text("required") {
        Json::object().with("type", Json::text("any"))
    } else if choice.is_object() && choice.at("type").is_text("function") {
        Json::object().with("type", Json::text("tool")).with(
            "name",
            choice.at("function").at("name").copy(),
        )
    } else {
        Json::object().with("type", Json::text("auto"))
    }
}

/// The texts of the system messages whose content is a string.
pub open spec fn system_parts(msgs: Seq<JsonView>) -> Seq<Seq<char>>
    decreases msgs.len(),
{
    if msgs.len() == 0 {
        seq![]
    } else {
        let rest = system_parts(msgs.drop_last());
        let m = msgs.last();
        match m.at("content"@).str() {
            Some(s) if m.at("role"@).str_or("user"@) == "system"@ => rest.push(s),
            _ => rest,
        }
    }
}

/// The input of a tool call: the JSON that its arguments are, an empty object
/// where they are none.
pub open spec fn call_input(tc: JsonView) -> JsonView {
    match tc.at("function"@).at("arguments"@).str() {
        Some(s) => or_else(parsed(s), obj()),
        None => obj(),
    }
}

fn call_input_of(tc: &Json) -> (r: Json)
    ensures
        r@ == call_input(tc@),
{
    match tc.at("function").at("arguments").as_str() {
        Some(s) => match parse_json(s) {
            Some(j) => j,
            None => Json::object(),
        },
        None => Json::object(),
    }
}

/// The `tool_use` block that a tool call becomes, given its input.
pub open spec fn tool_use(tc: JsonView, input: JsonView) -> JsonView {
    obj().put("type"@, text("tool_use"@)).put("id"@, or_else(tc.field("id"@), text(""@))).put(
        "name"@,
        tc.at("function"@).at("name"@),
    ).put("input"@, input)
}

/// The `tool_use` block that a tool call becomes, given its input.
pub fn tool_use_of(tc: &Json, input: Json) -> (r: Json)
    ensures
        r@ == tool_use(tc@, input@),
{
    let id = copy_or(tc.get("id"), Json::text(""));
    Json::object().with("type", Json::text("tool_use")).with("id", id).with(
        "name",
        tc.at("function").at("name").copy(),
    ).with("input", input)
}

/// The Anthropic image source that an image URL becomes.
pub open spec fn image_source(url: Seq<char>) -> JsonView {
    match without_prefix(url, "data:"@) {
        Some(rest) => {
            let (media, data) = match split_once(rest, ";base64,"@) {
                Some(p) => p,
                None => ("image/png"@, ""@),
            };
            obj().put("type"@, text("base64"@)).put("media_type"@, text(media)).put(
                "data"@,
                text(data),
            )
        },
        None => obj().put("type"@, text("url"@)).put("url"@, text(url)),
    }
}

fn image_source_of(url: &str) -> (r: Json)
    ensures
        r@ == image_source(url@),
{
    match strip_prefix(url, "data:") {
        Some(rest) => {
            let (media, data) = match cut(rest.as_str(), ";base64,") {
                Some(p) => p,
                None => (owned("image/png"), owned("")),
            };
            Json::object().with("type", Json::text("base64")).with(
                "media_type",
                Json::Str(media),
            ).with("data", Json::Str(data))
        },
        None => Json::object().with("type", Json::text("url")).with("url", Json::text(url)),
    }
}

/// The Anthropic blocks that content parts become: texts and images, nothing
/// else.
pub open spec fn claude_blocks(parts: Seq<JsonView>) -> Seq<JsonView>
    decreases parts.len(),
{
    if parts.len() == 0 {
        seq![]
    } else {
        let rest = claude_blocks(parts.drop_last());
        let p = parts.last();
        let kind = p.at("type"@).str();
        if kind == Some("text"@) {
            rest.push(
                obj().put("type"@, text("text"@)).put(
                    "text"@,
                    or_else(p.field("text"@), text(""@)),
                ),
            )
        } else if kind == Some("image_url"@) {
            rest.push(
                obj().put("type"@, text("image"@)).put(
                    "source"@,
                    image_source(p.at("image_url"@).at("url"@).str_or_empty()),
                ),
            )
        } else {
            rest
        }
    }
}

fn claude_blocks_of(parts: &Vec<Json>) -> (r: Vec<Json>)
    ensures
        items_view(r@) == claude_blocks(items_view(parts@)),
{
    let ghost all = items_view(parts@);
    let mut out: Vec<Json> = Vec::new();
    let mut i: usize = 0;
    assert(items_view(out@) =~= claude_blocks(all.subrange(0, 0)));
    while i < parts.len()
        invariant
            i <= parts.len(),
            all == items_view(parts@),
            items_view(out@) == claude_blocks(all.subrange(0, i as int)),
        decreases parts.len() - i,
    {
        assert(all.subrange(0, i + 1).drop_last() =~= all.subrange(0, i as int));
        assert(all.subrange(0, i + 1).last() == parts@[i as int]@);
        let p = &parts[i];
        let kind = p.at("type");
        if kind.is_text("text") {
            let t = copy_or(p.get("text"), Json::text(""));
            push_item(&mut out, Json::object().with("type", Json::text("text")).with("text", t));
        } else if kind.is_text("image_url") {
            let source = image_source_of(p.at("image_url").at("url").str_or_empty());
            push_item(
                &mut out,
                Json::object().with("type", Json::text("image")).with("source", source),
            );
        }
        i += 1;
    }
    assert(all.subrange(0, i as int) =~= all);
    out
}

/// The `tool_use` blocks that tool calls become.
pub open spec fn tool_uses(calls: Seq<JsonView>) -> Seq<JsonView> {
    calls.map_values(|tc: JsonView| tool_use(tc, call_input(tc)))
}

/// The blocks of an assistant message that calls tools: what it says, where it
/// says anything, before the calls.
pub open spec fn assistant_blocks(msg: JsonView, calls: Seq<JsonView>) -> Seq<JsonView> {
    let said = msg.at("content"@).str_or_empty();
    if said.len() > 0 {
        seq![text_part(said)] + tool_uses(calls)
    } else {
        tool_uses(calls)
    }
}

/// The Anthropic message that one Chat Completions message of the given role
/// becomes.
pub open spec fn claude_message(msg: JsonView, role: Seq<char>) -> JsonView {
    let calls = msg.at("tool_calls"@);
    if role == "tool"@ {
        message(
            "user"@,
            JsonView::Array(
                seq![
                    obj().put("type"@, text("tool_result"@)).put(
                        "tool_use_id"@,
                        or_else(msg.field("tool_call_id"@), text(""@)),
                    ).put("content"@, text(msg.at("content"@).str_or_empty())),
                ],
            ),
        )
    } else if role == "assistant"@ && calls is Array {
        message("assistant"@, JsonView::Array(assistant_blocks(msg, calls.items())))
    } else {
        match msg.at("content"@) {
            JsonView::Str(s) => message(role, text(s)),
            JsonView::Array(parts) => message(role, JsonView::Array(claude_blocks(parts))),
            _ => message(role, text(""@)),
        }
    }
}

fn assistant_blocks_of(msg: &Json, calls: &Vec<Json>) -> (r: Vec<Json>)
    ensures
        items_view(r@) == assistant_blocks(msg@, items_view(calls@)),
{
    proof {
        reveal_strlit("");
    }
    let mut blocks: Vec<Json> = Vec::new();
    let said = msg.at("content").str_or_empty();
    if !said.is_empty() {
        push_item(&mut blocks, text_part_of(said));
    }
    let ghost head = items_view(blocks@);
    let ghost all = items_view(calls@);
    let mut i: usize = 0;
    while i < calls.len()
        invariant
            i <= calls.len(),
            all == items_view(calls@),
            items_view(blocks@) =~= head + tool_uses(all.subrange(0, i as int)),
        decreases calls.len() - i,
    {
        assert(all[i as int] == calls@[i as int]@);
        let input = call_input_of(&calls[i]);
        push_item(&mut blocks, tool_use_of(&calls[i], input));
        i += 1;
    }
    assert(all.subrange(0, i as int) =~= all);
    assert(items_view(blocks@) =~= assistant_blocks(msg@, items_view(calls@)));
    blocks
}

/// Puts the Anthropic message that one Chat Completions message becomes behind
/// `out`.
fn convert_openai_message(msg: &Json, role: &str, out: &mut Vec<Json>)
    ensures
        items_view(final(out)@) == items_view(old(out)@).push(claude_message(msg@, role@)),
{
    if crate::text::same(role, "tool") {
        let id = copy_or(msg.get("tool_call_id"), Json::text(""));
        let content = Json::text(msg.at("content").str_or_empty());
        let block = Json::object().with("type", Json::text("tool_result")).with(
            "tool_use_id",
            id,
        ).with("content", content);
        push_item(out, message_of("user", Json::array1(block)));
        return;
    }
    if crate::text::same(role, "assistant") {
        match msg.at("tool_calls").as_array() {
            Some(calls) => {
                let blocks = assistant_blocks_of(msg, calls);
                push_item(out, message_of("assistant", Json::array(blocks)));
                return;
            },
            None => {},
        }
    }
    match msg.at("content") {
        Json::Str(s) => push_item(out, message_of(role, Json::text(s.as_str()))),
        Json::Array(parts) => push_item(
            out,
            message_of(role, Json::array(claude_blocks_of(parts))),
        ),
        _ => push_item(out, message_of(role, Json::text(""))),
    }
}

/// The Anthropic messages that the messages other than system prompts become.
pub open spec fn claude_messages(msgs: Seq<JsonView>) -> Seq<JsonView>
    decreases msgs.len(),
{
    if msgs.len() == 0 {
        seq![]
    } else {
        let rest = claude_messages(msgs.drop_last());
        let role = msgs.last().at("role"@).str_or("user"@);
        if role == "system"@ {
            rest
        } else {
            rest.push(claude_message(msgs.last(), role))
        }
    }
}

/// The Anthropic tool that a function specification becomes.
pub open spec fn claude_tool(f: JsonView) -> JsonView {
    obj().put("name"@, or_else(f.field("name"@), text(""@))).put(
        "description"@,
        text(f.at("description"@).str_or_empty()),
    ).put("input_schema"@, or_else(f.field("parameters"@), empty_schema()))
}

fn claude_tool_of(f: &Json) -> (r: Json)
    ensures
        r@ == claude_tool(f@),
{
    let name = copy_or(f.get("name"), Json::text(""));
    let description = Json::text(f.at("description").str_or_empty());
    let schema = copy_or(f.get("parameters"), empty_schema_of());
    Json::object().with("name", name).with("description", description).with(
        "input_schema",
        schema,
    )
}

/// The Anthropic tools that the tools with a function specification become.
pub open spec fn claude_tools(tools: Seq<JsonView>) -> Seq<JsonView>
    decreases tools.len(),
{
    if tools.len() == 0 {
        seq![]
    } else {
        let rest = claude_tools(tools.drop_last());
        match tools.last().field("function"@) {
            Some(f) => rest.push(claude_tool(f)),
            None => rest,
        }
    }
}

/// The Anthropic Messages request that a Chat Completions request becomes.
/// Anthropic asks for `max_tokens`, so a request without it gets 4096.
pub open spec fn claude_request(body: JsonView) -> JsonView {
    let msgs = body.at("messages"@).items();
    let talk = obj().put("messages"@, JsonView::Array(claude_messages(msgs)));
    let told = if system_parts(msgs).len() > 0 {
        talk.put("system"@, text(joined(system_parts(msgs), "\n"@)))
    } else {
        talk
    };
    let plain = carry(
        carry(carry(told, body, "model"@), body, "stream"@).put(
            "max_tokens"@,
            or_else(body.field("max_tokens"@), JsonView::Int(4096)),
        ),
        body,
        "temperature"@,
    );
    let tooled = match body.at("tools"@) {
        JsonView::Array(tools) => plain.put("tools"@, JsonView::Array(claude_tools(tools))),
        _ => plain,
    };
    match body.field("tool_choice"@) {
        Some(choice) => tooled.put("tool_choice"@, claude_tool_choice(choice)),
        None => tooled,
    }
}

/// A `tool_choice` that asks for a function says which: it has the member
/// `function`.
pub open spec fn choice_names_function(body: JsonView) -> bool {
    let choice = body.at("tool_choice"@);
    choice is Object && choice.at("type"@).str() == Some("function"@) ==> choice.field(
        "function"@,
    ) is Some
}

/// Whether a `tool_choice` that asks for a function says which.
pub fn names_function(body: &Json) -> (r: bool)
    ensures
        r == choice_names_function(body@),
{
    let choice = body.at("tool_choice");
    !(choice.is_object() && choice.at("type").is_text("function")) || choice.get(
        "function",
    ).is_some()
}

/// OpenAI Chat Completions request body -> Anthropic Messages request body.
pub fn openai_to_claude_request(body: &Json) -> (r: Json)
    requires
        choice_names_function(body@),
    ensures
        r@ == claude_request(body@),
{
    let mut system: Vec<String> = Vec::new();
    let mut messages: Vec<Json> = Vec::new();
    let ghost all = body@.at("messages"@).items();
    assert(texts(system@) =~= system_parts(all.subrange(0, 0)));
    assert(items_view(messages@) =~= claude_messages(all.subrange(0, 0)));
    match body.at("messages").as_array() {
        Some(msgs) => {
            let mut i: usize = 0;
            while i < msgs.len()
                invariant
                    i <= msgs.len(),
                    all == items_view(msgs@),
                    texts(system@) == system_parts(all.subrange(0, i as int)),
                    items_view(messages@) == claude_messages(all.subrange(0, i as int)),
                decreases msgs.len() - i,
            {
                assert(all.subrange(0, i + 1).drop_last() =~= all.subrange(0, i as int));
                assert(all.subrange(0, i + 1).last() == msgs@[i as int]@);
                let m = &msgs[i];
                let role = m.at("role").str_or("user");
                if crate::text::same(role, "system") {
                    let ghost before = system@;
                    match m.at("content").as_str() {
                        Some(s) => {
                            system.push(owned(s));
                            assert(texts(system@) =~= texts(before).push(s@));
                        },
                        None => {},
                    }
                } else {
                    convert_openai_message(m, role, &mut messages);
                }
                i += 1;
            }
            assert(all.subrange(0, i as int) =~= all);
        },
        None => {
            assert(all =~= all.subrange(0, 0));
        },
    }
    let mut out = Json::object().with("messages", Json::array(messages));
    if system.len() > 0 {
        out = out.with("system", Json::Str(join(&system, "\n")));
    }
    out = carry_of(out, body, "model");
    out = carry_of(out, body, "stream");
    out = out.with("max_tokens", copy_or(body.get("max_tokens"), Json::signed(4096)));
    out = carry_of(out, body, "temperature");
    match body.at("tools").as_array() {
        Some(tools) => {
            let ghost given = items_view(tools@);
            let mut converted: Vec<Json> = Vec::new();
            let mut i: usize = 0;
            assert(items_view(converted@) =~= claude_tools(given.subrange(0, 0)));
            while i < tools.len()
                invariant
                    i <= tools.len(),
                    given == items_view(tools@),
                    items_view(converted@) == claude_tools(given.subrange(0, i as int)),
                decreases tools.len() - i,
            {
                assert(given.subrange(0, i + 1).drop_last() =~= given.subrange(0, i as int));
                assert(given.subrange(0, i + 1).last() == tools@[i as int]@);
                match tools[i].get("function") {
                    Some(f) => push_item(&mut converted, claude_tool_of(f)),
                    None => {},
                }
                i += 1;
            }
            assert(given.subrange(0, i as int) =~= given);
            out = out.with("tools", Json::array(converted));
        },
        None => {},
    }
    match body.get("tool_choice") {
        Some(choice) => out.with("tool_choice", convert_tool_choice_to_claude(choice)),
        None => out,
    }
}

} // verus!
