//! What a request holds once it was put in the other wire format, block by block
//! and message by message.
use vstd::prelude::*;

use crate::codex::claude_request::{
    assistant_blocks, block_calls, block_images, block_results, block_texts, claude_blocks,
    claude_message, claude_messages, claude_request, claude_tools, image_source, image_url,
    openai_messages, openai_messages_of, openai_request, part_texts, system_parts, text_part,
    text_parts, tool_call, tool_uses,
};
use crate::json::{obj, parsed, printed, text, JsonView};
use crate::text::{
    has_prefix, joined, law_cut_at_the_first, law_joined_with_nothing, law_joined_with_separator,
    occurs, split_once,
};

verus! {

/// The words of requests differ.
pub proof fn lemma_request_words()
    ensures
        "messages"@ != "model"@,
        "messages"@ != "stream"@,
        "messages"@ != "max_tokens"@,
        "messages"@ != "temperature"@,
        "messages"@ != "tools"@,
        "messages"@ != "tool_choice"@,
        "messages"@ != "system"@,
        "model"@ != "stream"@,
        "model"@ != "max_tokens"@,
        "model"@ != "temperature"@,
        "model"@ != "tools"@,
        "model"@ != "tool_choice"@,
        "model"@ != "system"@,
        "stream"@ != "max_tokens"@,
        "stream"@ != "temperature"@,
        "stream"@ != "tools"@,
        "stream"@ != "tool_choice"@,
        "stream"@ != "system"@,
        "max_tokens"@ != "temperature"@,
        "max_tokens"@ != "tools"@,
        "max_tokens"@ != "tool_choice"@,
        "max_tokens"@ != "system"@,
        "temperature"@ != "tools"@,
        "temperature"@ != "tool_choice"@,
        "temperature"@ != "system"@,
        "tools"@ != "tool_choice"@,
        "tools"@ != "system"@,
        "tool_choice"@ != "system"@,
        "role"@ != "content"@,
        "role"@ != "tool_calls"@,
        "role"@ != "tool_call_id"@,
        "content"@ != "tool_calls"@,
        "content"@ != "tool_call_id"@,
        "tool_calls"@ != "tool_call_id"@,
        "id"@ != "type"@,
        "id"@ != "function"@,
        "type"@ != "function"@,
        "name"@ != "arguments"@,
        "name"@ != "description"@,
        "name"@ != "parameters"@,
        "arguments"@ != "description"@,
        "arguments"@ != "parameters"@,
        "description"@ != "parameters"@,
        "name"@ != "input_schema"@,
        "description"@ != "input_schema"@,
        "type"@ != "text"@,
        "type"@ != "image_url"@,
        "text"@ != "image_url"@,
        "type"@ != "properties"@,
        "text"@ != "image"@,
        "text"@ != "tool_use"@,
        "text"@ != "tool_result"@,
        "image"@ != "tool_use"@,
        "image"@ != "tool_result"@,
        "image"@ != "image_url"@,
        "tool_use"@ != "tool_result"@,
        "tool_use"@ != "image_url"@,
        "tool_result"@ != "image_url"@,
        "type"@ != "tool_use_id"@,
        "type"@ != "content"@,
        "tool_use_id"@ != "content"@,
        "type"@ != "name"@,
        "type"@ != "input"@,
        "id"@ != "name"@,
        "id"@ != "input"@,
        "name"@ != "input"@,
        "type"@ != "media_type"@,
        "type"@ != "data"@,
        "type"@ != "url"@,
        "type"@ != "source"@,
        "media_type"@ != "data"@,
        "media_type"@ != "url"@,
        "media_type"@ != "source"@,
        "data"@ != "url"@,
        "data"@ != "source"@,
        "url"@ != "source"@,
        "user"@ != "assistant"@,
        "user"@ != "tool"@,
        "user"@ != "system"@,
        "assistant"@ != "tool"@,
        "assistant"@ != "system"@,
        "tool"@ != "system"@,
        "auto"@ != "any"@,
        "auto"@ != "tool"@,
        "auto"@ != "required"@,
        "auto"@ != "function"@,
        "any"@ != "tool"@,
        "any"@ != "required"@,
        "any"@ != "function"@,
        "tool"@ != "required"@,
        "tool"@ != "function"@,
        "required"@ != "function"@,
        ""@.len() == 0,
        "data:"@.len() == 5,
        ";base64,"@.len() == 8,
{
    reveal_strlit("messages");
    reveal_strlit("model");
    reveal_strlit("stream");
    reveal_strlit("max_tokens");
    reveal_strlit("temperature");
    reveal_strlit("tools");
    reveal_strlit("tool_choice");
    reveal_strlit("system");
    reveal_strlit("role");
    reveal_strlit("content");
    reveal_strlit("tool_calls");
    reveal_strlit("tool_call_id");
    reveal_strlit("id");
    reveal_strlit("type");
    reveal_strlit("function");
    reveal_strlit("name");
    reveal_strlit("arguments");
    reveal_strlit("description");
    reveal_strlit("parameters");
    reveal_strlit("input_schema");
    reveal_strlit("text");
    reveal_strlit("image_url");
    reveal_strlit("properties");
    reveal_strlit("image");
    reveal_strlit("tool_use");
    reveal_strlit("tool_result");
    reveal_strlit("tool_use_id");
    reveal_strlit("input");
    reveal_strlit("media_type");
    reveal_strlit("data");
    reveal_strlit("url");
    reveal_strlit("source");
    reveal_strlit("user");
    reveal_strlit("assistant");
    reveal_strlit("tool");
    reveal_strlit("auto");
    reveal_strlit("any");
    reveal_strlit("required");
    reveal_strlit("");
    reveal_strlit("data:");
    reveal_strlit(";base64,");
    assert("messages"@.len() == 8);
    assert("model"@.len() == 5);
    assert("stream"@.len() == 6);
    assert("max_tokens"@.len() == 10);
    assert("temperature"@.len() == 11);
    assert("tools"@.len() == 5);
    assert("tool_choice"@.len() == 11);
    assert("system"@.len() == 6);
    assert("role"@.len() == 4);
    assert("content"@.len() == 7);
    assert("tool_calls"@.len() == 10);
    assert("tool_call_id"@.len() == 12);
    assert("id"@.len() == 2);
    assert("type"@.len() == 4);
    assert("function"@.len() == 8);
    assert("name"@.len() == 4);
    assert("arguments"@.len() == 9);
    assert("description"@.len() == 11);
    assert("parameters"@.len() == 10);
    assert("input_schema"@.len() == 12);
    assert("text"@.len() == 4);
    assert("image_url"@.len() == 9);
    assert("properties"@.len() == 10);
    assert("image"@.len() == 5);
    assert("tool_use"@.len() == 8);
    assert("tool_result"@.len() == 11);
    assert("tool_use_id"@.len() == 11);
    assert("input"@.len() == 5);
    assert("media_type"@.len() == 10);
    assert("data"@.len() == 4);
    assert("url"@.len() == 3);
    assert("source"@.len() == 6);
    assert("user"@.len() == 4);
    assert("assistant"@.len() == 9);
    assert("tool"@.len() == 4);
    assert("auto"@.len() == 4);
    assert("any"@.len() == 3);
    assert("required"@.len() == 8);
    assert(""@.len() == 0);
    assert("data:"@.len() == 5);
    assert(";base64,"@.len() == 8);
    assert("model"@[0] != "tools"@[0]);
    assert("stream"@[1] != "system"@[1]);
    assert("temperature"@[1] != "tool_choice"@[1]);
    assert("type"@[1] != "text"@[1]);
    assert("type"@[0] != "name"@[0]);
    assert("type"@[0] != "data"@[0]);
    assert("user"@[0] != "tool"@[0]);
    assert("auto"@[0] != "tool"@[0]);
    assert("required"@[0] != "function"@[0]);
}

// ---------------------------------------------------------------------------
// From Anthropic's format
// ---------------------------------------------------------------------------

/// The messages of the Chat Completions request that an Anthropic request with
/// these messages becomes.
pub open spec fn openai_talk(body: JsonView, msgs: Seq<JsonView>) -> Seq<JsonView> {
    openai_request(body.put("messages"@, JsonView::Array(msgs))).at("messages"@).items()
}

/// The blocks of this kind, in order.
pub open spec fn of_kind(blocks: Seq<JsonView>, kind: Seq<char>) -> Seq<JsonView> {
    blocks.filter(|b: JsonView| b.at("type"@) == JsonView::Str(kind))
}

/// The text of a text block.
pub open spec fn block_text(b: JsonView) -> Option<Seq<char>> {
    match b.at("text"@) {
        JsonView::Str(t) => if b.at("type"@) == JsonView::Str("text"@) {
            Some(t)
        } else {
            None
        },
        _ => None,
    }
}

/// The texts of the text blocks, in order.
pub open spec fn texts_in(blocks: Seq<JsonView>) -> Seq<Seq<char>> {
    blocks.filter_map(|b: JsonView| block_text(b))
}

/// An image whose data stands in the block.
pub open spec fn inline_image(b: JsonView) -> bool {
    b.at("type"@) == JsonView::Str("image"@) && b.at("source"@).at("type"@) == JsonView::Str(
        "base64"@,
    )
}

/// The images whose data stands in the blocks, in order.
pub open spec fn images_in(blocks: Seq<JsonView>) -> Seq<JsonView> {
    blocks.filter(|b: JsonView| inline_image(b))
}

/// The message is this one, with this role and this content and no tool calls.
pub open spec fn says(m: JsonView, role: Seq<char>, content: JsonView) -> bool {
    &&& m.at("role"@) == JsonView::Str(role)
    &&& m.at("content"@) == content
    &&& m.field("tool_calls"@) is None
}

proof fn lemma_texts(blocks: Seq<JsonView>)
    ensures
        block_texts(blocks) == texts_in(blocks),
    decreases blocks.len(),
{
    if blocks.len() > 0 {
        lemma_texts(blocks.drop_last());
        assert(block_texts(blocks) =~= texts_in(blocks));
    } else {
        assert(block_texts(blocks) =~= texts_in(blocks));
    }
}

proof fn lemma_calls(blocks: Seq<JsonView>)
    ensures
        block_calls(blocks) == of_kind(blocks, "tool_use"@).map_values(|b: JsonView| tool_call(b)),
    decreases blocks.len(),
{
    reveal(Seq::filter);
    if blocks.len() > 0 {
        lemma_calls(blocks.drop_last());
    }
    assert(block_calls(blocks) =~= of_kind(blocks, "tool_use"@).map_values(
        |b: JsonView| tool_call(b),
    ));
}

/// The tool message that a tool result becomes.
spec fn result_of(b: JsonView) -> JsonView {
    obj().put("role"@, text("tool"@)).put(
        "tool_call_id"@,
        crate::json::or_else(b.field("tool_use_id"@), text(""@)),
    ).put("content"@, text(crate::codex::claude_request::result_text(b.field("content"@))))
}

proof fn lemma_results(blocks: Seq<JsonView>)
    ensures
        block_results(blocks) == of_kind(blocks, "tool_result"@).map_values(
            |b: JsonView| result_of(b),
        ),
    decreases blocks.len(),
{
    reveal(Seq::filter);
    if blocks.len() > 0 {
        lemma_results(blocks.drop_last());
    }
    assert(block_results(blocks) =~= of_kind(blocks, "tool_result"@).map_values(
        |b: JsonView| result_of(b),
    ));
}

/// The image part that an inline image becomes.
spec fn image_of(b: JsonView) -> JsonView {
    obj().put("type"@, text("image_url"@)).put(
        "image_url"@,
        obj().put("url"@, text(image_url(b.at("source"@)))),
    )
}

proof fn lemma_images(blocks: Seq<JsonView>)
    ensures
        block_images(blocks) == images_in(blocks).map_values(|b: JsonView| image_of(b)),
    decreases blocks.len(),
{
    reveal(Seq::filter);
    if blocks.len() > 0 {
        lemma_images(blocks.drop_last());
    }
    assert(block_images(blocks) =~= images_in(blocks).map_values(|b: JsonView| image_of(b)));
}

/// What becomes of messages when there is no system prompt.
proof fn lemma_talk(body: JsonView, msgs: Seq<JsonView>)
    requires
        body.at("system"@) == JsonView::Null,
    ensures
        openai_talk(body, msgs) == openai_messages_of(msgs),
{
    lemma_request_words();
    let b = body.put("messages"@, JsonView::Array(msgs));
    assert(b.at("system"@) == JsonView::Null);
    assert(b.at("messages"@) == JsonView::Array(msgs));
}

proof fn lemma_talk_one(body: JsonView, m: JsonView)
    requires
        body.at("system"@) == JsonView::Null,
    ensures
        openai_talk(body, seq![m]) == openai_messages(m),
{
    lemma_talk(body, seq![m]);
    let msgs = seq![m];
    assert(msgs.drop_last() =~= seq![]);
    assert(openai_messages_of(msgs.drop_last()) =~= seq![]);
    assert(openai_messages_of(msgs) =~= openai_messages(m));
}

proof fn lemma_messages_add(a: Seq<JsonView>, b: Seq<JsonView>)
    ensures
        openai_messages_of(a + b) == openai_messages_of(a) + openai_messages_of(b),
    decreases b.len(),
{
    if b.len() == 0 {
        assert(a + b =~= a);
        assert(openai_messages_of(a) + openai_messages_of(b) =~= openai_messages_of(a));
    } else {
        lemma_messages_add(a, b.drop_last());
        assert((a + b).drop_last() =~= a + b.drop_last());
        assert(openai_messages_of(a + b) =~= openai_messages_of(a) + openai_messages_of(b));
    }
}

/// A conversation becomes what its first part becomes, then what its second part
/// becomes: no message is lost, made up or moved.
pub proof fn law_talk_stays_in_order(body: JsonView, a: Seq<JsonView>, b: Seq<JsonView>)
    requires
        body.at("system"@) == JsonView::Null,
    ensures
        openai_talk(body, a + b) == openai_talk(body, a) + openai_talk(body, b),
        openai_talk(body, seq![]) == Seq::<JsonView>::empty(),
{
    lemma_talk(body, a);
    lemma_talk(body, b);
    lemma_talk(body, a + b);
    lemma_talk(body, seq![]);
    lemma_messages_add(a, b);
}

/// A message in words becomes the same message.
pub proof fn law_words_are_kept(body: JsonView, m: JsonView)
    requires
        body.at("system"@) == JsonView::Null,
        m.at("content"@) is Str,
    ensures
        openai_talk(body, seq![m]).len() == 1,
        says(openai_talk(body, seq![m])[0], m.at("role"@).str_or("user"@), m.at("content"@)),
{
    lemma_request_words();
    lemma_talk_one(body, m);
}

/// A message of text blocks becomes one message with the same role, whose content
/// is the texts run together. So one text block says what a string says.
pub proof fn law_text_blocks_run_together(body: JsonView, m: JsonView)
    requires
        body.at("system"@) == JsonView::Null,
        m.at("content"@) is Array,
        of_kind(m.at("content"@).items(), "tool_use"@).len() == 0,
        of_kind(m.at("content"@).items(), "tool_result"@).len() == 0,
        images_in(m.at("content"@).items()).len() == 0,
    ensures
        openai_talk(body, seq![m]).len() == 1,
        says(
            openai_talk(body, seq![m])[0],
            m.at("role"@).str_or("user"@),
            JsonView::Str(texts_in(m.at("content"@).items()).flatten()),
        ),
{
    lemma_request_words();
    lemma_talk_one(body, m);
    let blocks = m.at("content"@).items();
    lemma_texts(blocks);
    lemma_calls(blocks);
    lemma_results(blocks);
    lemma_images(blocks);
    law_joined_with_nothing(texts_in(blocks));
    assert(""@ =~= seq![]);
    if texts_in(blocks).len() == 0 {
        assert(texts_in(blocks).flatten() =~= seq![]);
    }
}

/// A turn given as one text block becomes what the turn given as a string becomes.
pub proof fn law_block_says_what_a_string_says(
    body: JsonView,
    m: JsonView,
    other: JsonView,
    block: JsonView,
)
    requires
        body.at("system"@) == JsonView::Null,
        m.at("role"@) == other.at("role"@),
        block.at("type"@) == JsonView::Str("text"@),
        block.at("text"@) is Str,
        m.at("content"@) == JsonView::Array(seq![block]),
        other.at("content"@) == block.at("text"@),
    ensures
        openai_talk(body, seq![m]) == openai_talk(body, seq![other]),
{
    lemma_request_words();
    reveal(Seq::filter);
    let blocks = seq![block];
    assert(blocks.drop_last() =~= seq![]);
    assert(of_kind(blocks.drop_last(), "tool_use"@).len() == 0);
    assert(of_kind(blocks.drop_last(), "tool_result"@).len() == 0);
    assert(images_in(blocks.drop_last()).len() == 0);
    lemma_texts(blocks);
    lemma_calls(blocks);
    lemma_results(blocks);
    lemma_images(blocks);
    let t = block.at("text"@)->Str_0;
    assert(texts_in(blocks.drop_last()) =~= seq![]);
    assert(texts_in(blocks) =~= seq![t]);
    assert(joined(seq![t], ""@) =~= t);
    lemma_talk_one(body, m);
    lemma_talk_one(body, other);
}

/// Tool results become tool messages, one each and in order, with the id of the
/// call and the text of the result; what the user says besides comes behind them.
pub proof fn law_results_are_kept(body: JsonView, m: JsonView, i: int)
    requires
        body.at("system"@) == JsonView::Null,
        m.at("content"@) is Array,
        of_kind(m.at("content"@).items(), "tool_result"@).len() > 0,
        0 <= i < of_kind(m.at("content"@).items(), "tool_result"@).len(),
    ensures
        ({
            let blocks = m.at("content"@).items();
            let results = of_kind(blocks, "tool_result"@);
            let out = openai_talk(body, seq![m]);
            let given = results[i].at("content"@);
            &&& out.len() == results.len() + if texts_in(blocks).len() > 0 {
                1int
            } else {
                0
            }
            &&& out[i].at("role"@) == JsonView::Str("tool"@)
            &&& results[i].field("tool_use_id"@) is Some ==> out[i].at("tool_call_id"@)
                == results[i].at("tool_use_id"@)
            &&& results[i].field("tool_use_id"@) is None ==> out[i].at("tool_call_id"@)
                == JsonView::Str(seq![])
            &&& results[i].field("content"@) is None ==> out[i].at("content"@) == JsonView::Str(
                seq![],
            )
            &&& given is Str ==> out[i].at("content"@) == given
            &&& given is Array && texts_in(given.items()).flatten().len() > 0 ==> out[i].at(
                "content"@,
            ) is Str && out[i].at("content"@).str_or_empty() + "\n"@ == texts_in(
                given.items(),
            ).map_values(|t: Seq<char>| t + "\n"@).flatten()
            &&& given is Object || given is Int || given is Bool ==> out[i].at("content"@)
                == JsonView::Str(printed(given))
            &&& texts_in(blocks).len() > 0 ==> says(
                out[results.len() as int],
                "user"@,
                JsonView::Str(texts_in(blocks).flatten()),
            )
        }),
{
    lemma_request_words();
    lemma_talk_one(body, m);
    let blocks = m.at("content"@).items();
    let results = of_kind(blocks, "tool_result"@);
    lemma_texts(blocks);
    lemma_results(blocks);
    law_joined_with_nothing(texts_in(blocks));
    let out = openai_talk(body, seq![m]);
    assert(""@ =~= seq![]);
    assert(out[i] == result_of(results[i]));
    let given = results[i].at("content"@);
    if given is Array {
        let ts = texts_in(given.items());
        lemma_texts(given.items());
        if ts.flatten().len() > 0 {
            if ts.len() == 0 {
                assert(ts.flatten() =~= seq![]);
            }
            law_joined_with_separator(ts, "\n"@);
            lemma_joined_is_long(ts, "\n"@);
        }
    }
}

/// Separators only make a joined text longer.
proof fn lemma_joined_is_long(ts: Seq<Seq<char>>, sep: Seq<char>)
    ensures
        joined(ts, sep).len() >= ts.flatten().len(),
{
    law_joined_with_nothing(ts);
    lemma_longer(ts, sep);
}

proof fn lemma_longer(ts: Seq<Seq<char>>, sep: Seq<char>)
    ensures
        joined(ts, sep).len() >= joined(ts, seq![]).len(),
    decreases ts.len(),
{
    if ts.len() > 1 {
        lemma_longer(ts.drop_last(), sep);
    }
}

/// Tool calls become the tool calls of one message of the assistant, one each and
/// in order, with the id and the name of the call and the text of its input; what
/// the assistant says besides is the content, which is left out where there is
/// nothing.
pub proof fn law_calls_are_kept(body: JsonView, m: JsonView, i: int)
    requires
        body.at("system"@) == JsonView::Null,
        m.at("content"@) is Array,
        of_kind(m.at("content"@).items(), "tool_result"@).len() == 0,
        0 <= i < of_kind(m.at("content"@).items(), "tool_use"@).len(),
    ensures
        ({
            let blocks = m.at("content"@).items();
            let uses = of_kind(blocks, "tool_use"@);
            let out = openai_talk(body, seq![m]);
            let calls = out[0].at("tool_calls"@).items();
            let function = calls[i].at("function"@);
            &&& out.len() == 1
            &&& out[0].at("role"@) == JsonView::Str("assistant"@)
            &&& texts_in(blocks).len() > 0 ==> out[0].at("content"@) == JsonView::Str(
                texts_in(blocks).flatten(),
            )
            &&& texts_in(blocks).len() == 0 ==> out[0].field("content"@) is None
            &&& calls.len() == uses.len()
            &&& calls[i].at("type"@) == JsonView::Str("function"@)
            &&& uses[i].field("id"@) is Some ==> calls[i].at("id"@) == uses[i].at("id"@)
            &&& uses[i].field("name"@) is Some ==> function.at("name"@) == uses[i].at("name"@)
            &&& uses[i].field("id"@) is None ==> calls[i].at("id"@) == JsonView::Str(seq![])
            &&& uses[i].field("name"@) is None ==> function.at("name"@) == JsonView::Str(seq![])
            &&& uses[i].field("input"@) is Some ==> function.at("arguments"@) == JsonView::Str(
                printed(uses[i].at("input"@)),
            )
            &&& uses[i].field("input"@) is None ==> function.at("arguments"@) == JsonView::Str(
                printed(JsonView::Object(Map::empty())),
            )
        }),
{
    lemma_request_words();
    lemma_talk_one(body, m);
    let blocks = m.at("content"@).items();
    let uses = of_kind(blocks, "tool_use"@);
    lemma_texts(blocks);
    lemma_calls(blocks);
    lemma_results(blocks);
    law_joined_with_nothing(texts_in(blocks));
    let out = openai_talk(body, seq![m]);
    assert(out[0].at("tool_calls"@) == JsonView::Array(block_calls(blocks)));
    let call = block_calls(blocks)[i];
    assert(""@ =~= seq![]);
    assert(call == tool_call(uses[i]));
    assert(call.at("function"@).at("arguments"@) == text(
        printed(crate::json::or_else(uses[i].field("input"@), obj())),
    ));
}

/// With images, the content of the message is a list of parts: the texts, one
/// each and in order, then the images, one each and in order, each as a data URL
/// of its type and its data.
pub proof fn law_images_follow_texts(body: JsonView, m: JsonView, i: int)
    requires
        body.at("system"@) == JsonView::Null,
        m.at("content"@) is Array,
        of_kind(m.at("content"@).items(), "tool_use"@).len() == 0,
        of_kind(m.at("content"@).items(), "tool_result"@).len() == 0,
        images_in(m.at("content"@).items()).len() > 0,
    ensures
        ({
            let blocks = m.at("content"@).items();
            let ts = texts_in(blocks);
            let images = images_in(blocks);
            let out = openai_talk(body, seq![m]);
            let parts = out[0].at("content"@).items();
            &&& out.len() == 1
            &&& out[0].at("role"@) == JsonView::Str(m.at("role"@).str_or("user"@))
            &&& parts.len() == ts.len() + images.len()
            &&& 0 <= i < ts.len() ==> parts[i].at("type"@) == JsonView::Str("text"@)
                && parts[i].at("text"@) == JsonView::Str(ts[i])
            &&& ts.len() <= i < parts.len() ==> {
                let source = images[i - ts.len()].at("source"@);
                &&& parts[i].at("type"@) == JsonView::Str("image_url"@)
                &&& parts[i].at("image_url"@).at("url"@) == JsonView::Str(
                    "data:"@ + source.at("media_type"@).str_or("image/png"@) + ";base64,"@
                        + source.at("data"@).str_or_empty(),
                )
            }
        }),
{
    lemma_request_words();
    lemma_talk_one(body, m);
    let blocks = m.at("content"@).items();
    lemma_texts(blocks);
    lemma_calls(blocks);
    lemma_results(blocks);
    lemma_images(blocks);
    let out = openai_talk(body, seq![m]);
    let ts = texts_in(blocks);
    let parts = text_parts(ts) + block_images(blocks);
    assert(out[0].at("content"@) == JsonView::Array(parts));
    if 0 <= i < ts.len() {
        assert(parts[i] == text_part(ts[i]));
    } else if ts.len() <= i < parts.len() {
        assert(parts[i] == image_of(images_in(blocks)[i - ts.len()]));
    }
}

/// The texts that parts have, in order.
pub open spec fn any_texts(parts: Seq<JsonView>) -> Seq<Seq<char>> {
    parts.filter_map(|p: JsonView| p.at("text"@).str())
}

pub proof fn lemma_any_texts(parts: Seq<JsonView>)
    ensures
        part_texts(parts) == any_texts(parts),
    decreases parts.len(),
{
    if parts.len() > 0 {
        lemma_any_texts(parts.drop_last());
    }
    assert(part_texts(parts) =~= any_texts(parts));
}

/// A system prompt becomes the first message, and the others are those that come
/// without it: as it is where it is a string, and with its texts on lines of their
/// own where it is a list of parts.
pub proof fn law_system_prompt_comes_first(body: JsonView, msgs: Seq<JsonView>)
    requires
        body is Object,
        (body.at("system"@) is Str && body.at("system"@).str_or_empty().len() > 0) || (body.at(
            "system"@,
        ) is Array && any_texts(body.at("system"@).items()).flatten().len() > 0),
    ensures
        ({
            let out = openai_talk(body, msgs);
            let given = body.at("system"@);
            &&& out.len() > 0
            &&& out[0].at("role"@) == JsonView::Str("system"@)
            &&& given is Str ==> out[0].at("content"@) == given
            &&& given is Array ==> out[0].at("content"@) is Str && out[0].at(
                "content"@,
            ).str_or_empty() + "\n"@ == any_texts(given.items()).map_values(
                |t: Seq<char>| t + "\n"@,
            ).flatten()
            &&& out.drop_first() == openai_talk(body.without("system"@), msgs)
        }),
{
    lemma_request_words();
    let b = body.put("messages"@, JsonView::Array(msgs));
    assert(b.at("system"@) == body.at("system"@));
    assert(b.at("messages"@) == JsonView::Array(msgs));
    let bare = body.without("system"@);
    assert(bare.at("system"@) == JsonView::Null);
    lemma_talk(bare, msgs);
    if body.at("system"@) is Array {
        let parts = body.at("system"@).items();
        let ts = any_texts(parts);
        lemma_any_texts(parts);
        lemma_joined_is_long(ts, "\n"@);
        if ts.len() == 0 {
            assert(ts.flatten() =~= seq![]);
        }
        law_joined_with_separator(ts, "\n"@);
    }
    let out = openai_talk(body, msgs);
    assert(out.drop_first() =~= openai_messages_of(msgs));
}

/// An empty system prompt is no message.
pub proof fn law_empty_system_prompt_is_none(body: JsonView, msgs: Seq<JsonView>)
    requires
        body is Object,
        body.at("system"@) == JsonView::Str(seq![]),
    ensures
        openai_talk(body, msgs) == openai_talk(body.without("system"@), msgs),
{
    lemma_request_words();
    let b = body.put("messages"@, JsonView::Array(msgs));
    assert(b.at("system"@) == body.at("system"@));
    assert(b.at("messages"@) == JsonView::Array(msgs));
    let bare = body.without("system"@);
    assert(bare.at("system"@) == JsonView::Null);
    lemma_talk(bare, msgs);
}

/// The model, the stream flag, the token limit and the temperature are as the
/// client gave them, and nothing is asked for that the client did not ask for.
pub proof fn law_settings_are_kept(body: JsonView, key: Seq<char>)
    ensures
        key == "model"@ || key == "stream"@ || key == "max_tokens"@ || key == "temperature"@
            ==> openai_request(body).field(key) == body.field(key),
        key != "model"@ && key != "stream"@ && key != "max_tokens"@ && key != "temperature"@ && key
            != "messages"@ && key != "tools"@ && key != "tool_choice"@ ==> openai_request(body).field(
            key,
        ) is None,
        openai_request(body).field("tools"@) is Some <==> body.at("tools"@) is Array,
        openai_request(body).field("tool_choice"@) is Some <==> body.field("tool_choice"@) is Some,
{
    lemma_request_words();
}

/// The tools are offered one each and in order, with their names, descriptions
/// and schemas; a tool without a schema takes any object.
pub proof fn law_tools_are_kept(body: JsonView, i: int)
    requires
        body.at("tools"@) is Array,
        0 <= i < body.at("tools"@).items().len(),
    ensures
        ({
            let given = body.at("tools"@).items();
            let out = openai_request(body).at("tools"@).items();
            let function = out[i].at("function"@);
            &&& out.len() == given.len()
            &&& out[i].at("type"@) == JsonView::Str("function"@)
            &&& given[i].field("name"@) is Some ==> function.at("name"@) == given[i].at("name"@)
            &&& given[i].at("description"@) is Str ==> function.at("description"@) == given[i].at(
                "description"@,
            )
            &&& given[i].field("name"@) is None ==> function.at("name"@) == JsonView::Str(seq![])
            &&& !(given[i].at("description"@) is Str) ==> function.at("description"@)
                == JsonView::Str(seq![])
            &&& given[i].field("input_schema"@) is Some ==> function.at("parameters"@)
                == given[i].at("input_schema"@)
            &&& given[i].field("input_schema"@) is None ==> function.at("parameters"@).at("type"@)
                == JsonView::Str("object"@)
        }),
{
    lemma_request_words();
    let given = body.at("tools"@).items();
    let out = openai_request(body).at("tools"@).items();
    assert(""@ =~= seq![]);
    assert(out[i] == crate::codex::claude_request::openai_tool(given[i]));
}

/// The tool choice says the same in the other format.
pub proof fn law_tool_choice_is_kept(body: JsonView)
    requires
        body.field("tool_choice"@) is Some,
    ensures
        ({
            let given = body.at("tool_choice"@);
            let kind = given.at("type"@);
            let out = openai_request(body).at("tool_choice"@);
            &&& given is Str ==> out == given
            &&& given is Object && kind == JsonView::Str("auto"@) ==> out == JsonView::Str("auto"@)
            &&& given is Object && kind == JsonView::Str("any"@) ==> out == JsonView::Str(
                "required"@,
            )
            &&& given is Object && kind == JsonView::Str("tool"@) && given.field("name"@) is Some
                ==> out.at("type"@) == JsonView::Str("function"@) && out.at("function"@).at("name"@)
                == given.at("name"@)
            &&& given is Object && kind == JsonView::Str("tool"@) && given.field("name"@) is None
                ==> out.at("type"@) == JsonView::Str("function"@) && out.at("function"@).at("name"@)
                == JsonView::Str(seq![])
            &&& given is Object && kind != JsonView::Str("any"@) && kind != JsonView::Str("tool"@)
                ==> out == JsonView::Str("auto"@)
            &&& !(given is Object) && !(given is Str) ==> out == JsonView::Str("auto"@)
        }),
{
    lemma_request_words();
    assert(""@ =~= seq![]);
}

// ---------------------------------------------------------------------------
// From OpenAI's format
// ---------------------------------------------------------------------------

/// The messages of the Anthropic request that a Chat Completions request with
/// these messages becomes.
pub open spec fn claude_talk(body: JsonView, msgs: Seq<JsonView>) -> Seq<JsonView> {
    claude_request(body.put("messages"@, JsonView::Array(msgs))).at("messages"@).items()
}

proof fn lemma_claude_talk(body: JsonView, msgs: Seq<JsonView>)
    ensures
        claude_talk(body, msgs) == claude_messages(msgs),
{
    lemma_request_words();
    let b = body.put("messages"@, JsonView::Array(msgs));
    assert(b.at("messages"@) == JsonView::Array(msgs));
}

proof fn lemma_claude_messages_add(a: Seq<JsonView>, b: Seq<JsonView>)
    ensures
        claude_messages(a + b) == claude_messages(a) + claude_messages(b),
    decreases b.len(),
{
    if b.len() == 0 {
        assert(a + b =~= a);
        assert(claude_messages(a) + claude_messages(b) =~= claude_messages(a));
    } else {
        lemma_claude_messages_add(a, b.drop_last());
        assert((a + b).drop_last() =~= a + b.drop_last());
        assert(claude_messages(a + b) =~= claude_messages(a) + claude_messages(b));
    }
}

proof fn lemma_claude_one(body: JsonView, m: JsonView)
    ensures
        claude_talk(body, seq![m]) == if m.at("role"@).str_or("user"@) == "system"@ {
            seq![]
        } else {
            seq![claude_message(m, m.at("role"@).str_or("user"@))]
        },
{
    lemma_claude_talk(body, seq![m]);
    let msgs = seq![m];
    assert(msgs.drop_last() =~= seq![]);
    assert(claude_messages(msgs.drop_last()) =~= seq![]);
    assert(claude_messages(msgs) =~= claude_talk(body, seq![m]));
}

/// A conversation becomes what its first part becomes, then what its second part
/// becomes; every message but a system prompt becomes one message.
pub proof fn law_claude_talk_stays_in_order(
    body: JsonView,
    a: Seq<JsonView>,
    b: Seq<JsonView>,
    m: JsonView,
)
    ensures
        claude_talk(body, a + b) == claude_talk(body, a) + claude_talk(body, b),
        claude_talk(body, seq![]) == Seq::<JsonView>::empty(),
        claude_talk(body, seq![m]).len() == if m.at("role"@) == JsonView::Str("system"@) {
            0int
        } else {
            1
        },
{
    lemma_request_words();
    lemma_claude_talk(body, a);
    lemma_claude_talk(body, b);
    lemma_claude_talk(body, a + b);
    lemma_claude_talk(body, seq![]);
    lemma_claude_messages_add(a, b);
    lemma_claude_one(body, m);
}

/// A message in words becomes the same message, whoever says it, where it calls no
/// tools and is no answer of one.
pub proof fn law_claude_words_are_kept(body: JsonView, m: JsonView)
    requires
        m.at("content"@) is Str,
        m.at("role"@) != JsonView::Str("system"@),
        m.at("role"@) != JsonView::Str("tool"@),
        m.at("role"@) == JsonView::Str("assistant"@) ==> !(m.at("tool_calls"@) is Array),
    ensures
        claude_talk(body, seq![m]).len() == 1,
        says(claude_talk(body, seq![m])[0], m.at("role"@).str_or("user"@), m.at("content"@)),
{
    lemma_request_words();
    lemma_claude_one(body, m);
}

/// The answer of a tool becomes a result in a message of the user, with the id of
/// the call and the text of the answer.
pub proof fn law_claude_result_is_kept(body: JsonView, m: JsonView)
    requires
        m.at("role"@) == JsonView::Str("tool"@),
    ensures
        ({
            let out = claude_talk(body, seq![m]);
            let blocks = out[0].at("content"@).items();
            &&& out.len() == 1
            &&& out[0].at("role"@) == JsonView::Str("user"@)
            &&& blocks.len() == 1
            &&& blocks[0].at("type"@) == JsonView::Str("tool_result"@)
            &&& m.field("tool_call_id"@) is Some ==> blocks[0].at("tool_use_id"@) == m.at(
                "tool_call_id"@,
            )
            &&& m.field("tool_call_id"@) is None ==> blocks[0].at("tool_use_id"@) == JsonView::Str(
                seq![],
            )
            &&& m.at("content"@) is Str ==> blocks[0].at("content"@) == m.at("content"@)
            &&& !(m.at("content"@) is Str) ==> blocks[0].at("content"@) == JsonView::Str(seq![])
        }),
{
    lemma_request_words();
    lemma_claude_one(body, m);
    assert(""@ =~= seq![]);
}

/// An assistant that calls tools becomes a message of blocks: what it says, where
/// it says anything, then the calls, one each and in order, with the id, the name
/// and the input that its arguments are; an empty input where they are no JSON.
pub proof fn law_claude_calls_are_kept(body: JsonView, m: JsonView, i: int)
    requires
        m.at("role"@) == JsonView::Str("assistant"@),
        m.at("tool_calls"@) is Array,
    ensures
        ({
            let calls = m.at("tool_calls"@).items();
            let said = m.at("content"@).str_or_empty();
            let out = claude_talk(body, seq![m]);
            let blocks = out[0].at("content"@).items();
            let n: int = if said.len() > 0 {
                1
            } else {
                0
            };
            &&& out.len() == 1
            &&& out[0].at("role"@) == JsonView::Str("assistant"@)
            &&& blocks.len() == n + calls.len()
            &&& n == 1 ==> blocks[0].at("type"@) == JsonView::Str("text"@) && blocks[0].at("text"@)
                == m.at("content"@)
            &&& 0 <= i < calls.len() ==> {
                let block = blocks[n + i];
                let function = calls[i].at("function"@);
                let args = function.at("arguments"@).str_or_empty();
                &&& block.at("type"@) == JsonView::Str("tool_use"@)
                &&& calls[i].field("id"@) is Some ==> block.at("id"@) == calls[i].at("id"@)
                &&& calls[i].field("id"@) is None ==> block.at("id"@) == JsonView::Str(seq![])
                &&& block.at("name"@) == function.at("name"@)
                &&& function.at("arguments"@) is Str && parsed(args) is Some ==> block.at("input"@)
                    == parsed(args)->0
                &&& function.at("arguments"@) is Str && parsed(args) is None ==> block.at("input"@)
                    == JsonView::Object(Map::empty())
                &&& !(function.at("arguments"@) is Str) ==> block.at("input"@) == JsonView::Object(
                    Map::empty(),
                )
            }
        }),
{
    lemma_request_words();
    lemma_claude_one(body, m);
    let calls = m.at("tool_calls"@).items();
    let blocks = assistant_blocks(m, calls);
    let out = claude_talk(body, seq![m]);
    assert(out[0].at("content"@) == JsonView::Array(blocks));
    let said = m.at("content"@).str_or_empty();
    let n: int = if said.len() > 0 {
        1
    } else {
        0
    };
    if n == 1 {
        assert(blocks[0] == text_part(said));
    }
    assert(""@ =~= seq![]);
    if 0 <= i < calls.len() {
        assert(blocks[n + i] == tool_uses(calls)[i]);
    }
}

/// A part of a message that Anthropic's format has, too.
pub open spec fn sendable(p: JsonView) -> bool {
    p.at("type"@) == JsonView::Str("text"@) || p.at("type"@) == JsonView::Str("image_url"@)
}

spec fn block_of(p: JsonView) -> JsonView {
    if p.at("type"@).str() == Some("text"@) {
        obj().put("type"@, text("text"@)).put(
            "text"@,
            crate::json::or_else(p.field("text"@), text(""@)),
        )
    } else {
        obj().put("type"@, text("image"@)).put(
            "source"@,
            image_source(p.at("image_url"@).at("url"@).str_or_empty()),
        )
    }
}

proof fn lemma_blocks(parts: Seq<JsonView>)
    ensures
        claude_blocks(parts) == parts.filter(|p: JsonView| sendable(p)).map_values(
            |p: JsonView| block_of(p),
        ),
    decreases parts.len(),
{
    reveal(Seq::filter);
    if parts.len() > 0 {
        lemma_blocks(parts.drop_last());
    }
    assert(claude_blocks(parts) =~= parts.filter(|p: JsonView| sendable(p)).map_values(
        |p: JsonView| block_of(p),
    ));
}

/// A message of parts becomes a message of blocks: its texts and its images, one
/// each and in order. An image given as a data URL becomes one with its type and
/// its data; any other image keeps its URL.
pub proof fn law_claude_parts_are_kept(body: JsonView, m: JsonView, i: int)
    requires
        m.at("content"@) is Array,
        m.at("role"@) != JsonView::Str("system"@),
        m.at("role"@) != JsonView::Str("tool"@),
        m.at("role"@) == JsonView::Str("assistant"@) ==> !(m.at("tool_calls"@) is Array),
    ensures
        ({
            let parts = m.at("content"@).items().filter(|p: JsonView| sendable(p));
            let out = claude_talk(body, seq![m]);
            let blocks = out[0].at("content"@).items();
            &&& out.len() == 1
            &&& out[0].at("role"@) == JsonView::Str(m.at("role"@).str_or("user"@))
            &&& blocks.len() == parts.len()
            &&& 0 <= i < parts.len() && parts[i].at("type"@) == JsonView::Str("text"@) ==> {
                &&& blocks[i].at("type"@) == JsonView::Str("text"@)
                &&& parts[i].field("text"@) is Some ==> blocks[i].at("text"@) == parts[i].at(
                    "text"@,
                )
            }
            &&& 0 <= i < parts.len() && parts[i].at("type"@) == JsonView::Str("image_url"@) ==> {
                let url = parts[i].at("image_url"@).at("url"@).str_or_empty();
                let source = blocks[i].at("source"@);
                &&& blocks[i].at("type"@) == JsonView::Str("image"@)
                &&& !has_prefix(url, "data:"@) ==> source.at("type"@) == JsonView::Str(
                    "url"@,
                ) && source.at("url"@) == JsonView::Str(url)
                &&& has_prefix(url, "data:"@) && occurs(
                    url.subrange(5, url.len() as int),
                    ";base64,"@,
                ) ==> {
                    &&& source.at("type"@) == JsonView::Str("base64"@)
                    &&& url == "data:"@ + source.at("media_type"@).str_or_empty() + ";base64,"@
                        + source.at("data"@).str_or_empty()
                    &&& !occurs(source.at("media_type"@).str_or_empty(), ";base64,"@)
                }
            }
        }),
{
    lemma_request_words();
    lemma_claude_one(body, m);
    let given = m.at("content"@).items();
    lemma_blocks(given);
    let parts = given.filter(|p: JsonView| sendable(p));
    let out = claude_talk(body, seq![m]);
    let blocks = out[0].at("content"@).items();
    assert(out[0].at("content"@) == JsonView::Array(claude_blocks(given)));
    if 0 <= i < parts.len() {
        assert(blocks[i] == block_of(parts[i]));
        if parts[i].at("type"@) == JsonView::Str("image_url"@) {
            lemma_source(parts[i].at("image_url"@).at("url"@).str_or_empty());
        }
    }
}

proof fn lemma_source(url: Seq<char>)
    ensures
        ({
            let source = image_source(url);
            &&& !has_prefix(url, "data:"@) ==> source.at("type"@) == JsonView::Str(
                "url"@,
            ) && source.at("url"@) == JsonView::Str(url)
            &&& has_prefix(url, "data:"@) && occurs(
                url.subrange(5, url.len() as int),
                ";base64,"@,
            ) ==> {
                &&& source.at("type"@) == JsonView::Str("base64"@)
                &&& url == "data:"@ + source.at("media_type"@).str_or_empty() + ";base64,"@
                    + source.at("data"@).str_or_empty()
                &&& !occurs(source.at("media_type"@).str_or_empty(), ";base64,"@)
            }
        }),
{
    lemma_request_words();
    let source = image_source(url);
    if has_prefix(url, "data:"@) {
        let rest = url.subrange(5, url.len() as int);
        if occurs(rest, ";base64,"@) {
            law_cut_at_the_first(rest, ";base64,"@);
            let p = split_once(rest, ";base64,"@)->0;
            assert(source.at("media_type"@) == text(p.0));
            assert(source.at("data"@) == text(p.1));
            assert(url =~= url.subrange(0, 5) + rest);
            assert("data:"@ + (p.0 + ";base64,"@ + p.1) =~= "data:"@ + p.0 + ";base64,"@ + p.1);
        }
    }
}

/// The system prompts become one text, each on lines of its own, and none of them
/// stays among the messages; without any there is no such text.
pub proof fn law_claude_system_is_gathered(body: JsonView, msgs: Seq<JsonView>)
    ensures
        ({
            let out = claude_request(body.put("messages"@, JsonView::Array(msgs)));
            let prompts = msgs.filter_map(|m: JsonView| prompt_of(m));
            &&& prompts.len() == 0 ==> out.field("system"@) is None
            &&& prompts.len() > 0 ==> out.at("system"@) is Str && out.at("system"@).str_or_empty()
                + "\n"@ == prompts.map_values(|t: Seq<char>| t + "\n"@).flatten()
        }),
{
    lemma_request_words();
    let b = body.put("messages"@, JsonView::Array(msgs));
    assert(b.at("messages"@) == JsonView::Array(msgs));
    lemma_prompts(msgs);
    let prompts = msgs.filter_map(|m: JsonView| prompt_of(m));
    if prompts.len() > 0 {
        law_joined_with_separator(prompts, "\n"@);
    }
}

/// The text of a system prompt.
pub open spec fn prompt_of(m: JsonView) -> Option<Seq<char>> {
    if m.at("role"@) == JsonView::Str("system"@) {
        m.at("content"@).str()
    } else {
        None
    }
}

proof fn lemma_prompts(msgs: Seq<JsonView>)
    ensures
        system_parts(msgs) == msgs.filter_map(|m: JsonView| prompt_of(m)),
    decreases msgs.len(),
{
    lemma_request_words();
    if msgs.len() > 0 {
        lemma_prompts(msgs.drop_last());
    }
    assert(system_parts(msgs) =~= msgs.filter_map(|m: JsonView| prompt_of(m)));
}

/// The model, the stream flag and the temperature are as the client gave them; so
/// is the token limit, which is 4096 where none was given.
pub proof fn law_claude_settings_are_kept(body: JsonView, key: Seq<char>)
    ensures
        key == "model"@ || key == "stream"@ || key == "temperature"@ ==> claude_request(body).field(
            key,
        ) == body.field(key),
        claude_request(body).at("max_tokens"@) == if body.field("max_tokens"@) is Some {
            body.at("max_tokens"@)
        } else {
            JsonView::Int(4096)
        },
        key != "model"@ && key != "stream"@ && key != "max_tokens"@ && key != "temperature"@ && key
            != "messages"@ && key != "tools"@ && key != "tool_choice"@ && key != "system"@
            ==> claude_request(body).field(key) is None,
        claude_request(body).field("tools"@) is Some <==> body.at("tools"@) is Array,
        claude_request(body).field("tool_choice"@) is Some <==> body.field("tool_choice"@) is Some,
{
    lemma_request_words();
}

spec fn tool_of(t: JsonView) -> JsonView {
    crate::codex::claude_request::claude_tool(t.at("function"@))
}

proof fn lemma_claude_tools(tools: Seq<JsonView>)
    ensures
        claude_tools(tools) == tools.filter(
            |t: JsonView| t.field("function"@) is Some,
        ).map_values(|t: JsonView| tool_of(t)),
    decreases tools.len(),
{
    reveal(Seq::filter);
    if tools.len() > 0 {
        lemma_claude_tools(tools.drop_last());
    }
    assert(claude_tools(tools) =~= tools.filter(
        |t: JsonView| t.field("function"@) is Some,
    ).map_values(|t: JsonView| tool_of(t)));
}

/// The functions are offered one each and in order, with their names, descriptions
/// and schemas; a function without a schema takes any object.
pub proof fn law_claude_tools_are_kept(body: JsonView, i: int)
    requires
        body.at("tools"@) is Array,
    ensures
        ({
            let given = body.at("tools"@).items().filter(
                |t: JsonView| t.field("function"@) is Some,
            );
            let out = claude_request(body).at("tools"@).items();
            &&& out.len() == given.len()
            &&& 0 <= i < given.len() ==> {
                let f = given[i].at("function"@);
                &&& f.field("name"@) is Some ==> out[i].at("name"@) == f.at("name"@)
                &&& f.field("name"@) is None ==> out[i].at("name"@) == JsonView::Str(seq![])
                &&& !(f.at("description"@) is Str) ==> out[i].at("description"@) == JsonView::Str(
                    seq![],
                )
                &&& f.at("description"@) is Str ==> out[i].at("description"@) == f.at(
                    "description"@,
                )
                &&& f.field("parameters"@) is Some ==> out[i].at("input_schema"@) == f.at(
                    "parameters"@,
                )
                &&& f.field("parameters"@) is None ==> out[i].at("input_schema"@).at("type"@)
                    == JsonView::Str("object"@)
            }
        }),
{
    lemma_request_words();
    let tools = body.at("tools"@).items();
    lemma_claude_tools(tools);
    let given = tools.filter(|t: JsonView| t.field("function"@) is Some);
    let out = claude_request(body).at("tools"@).items();
    assert(out == claude_tools(tools));
    assert(""@ =~= seq![]);
    if 0 <= i < given.len() {
        assert(out[i] == tool_of(given[i]));
    }
}

/// The tool choice says the same in the other format.
pub proof fn law_claude_tool_choice_is_kept(body: JsonView)
    requires
        body.field("tool_choice"@) is Some,
    ensures
        ({
            let given = body.at("tool_choice"@);
            let out = claude_request(body).at("tool_choice"@);
            &&& given == JsonView::Str("required"@) ==> out.at("type"@) == JsonView::Str("any"@)
            &&& given is Object && given.at("type"@) == JsonView::Str("function"@) ==> out.at(
                "type"@,
            ) == JsonView::Str("tool"@) && out.at("name"@) == given.at("function"@).at("name"@)
            &&& given != JsonView::Str("required"@) && !(given is Object && given.at("type"@)
                == JsonView::Str("function"@)) ==> out.at("type"@) == JsonView::Str("auto"@)
            &&& given is Object && given.at("type"@) == JsonView::Str("function"@)
                || out.field("name"@) is None
        }),
{
    lemma_request_words();
}


/// A message whose content is neither words nor a list says nothing, but is there.
pub proof fn law_other_contents_say_nothing(body: JsonView, m: JsonView)
    requires
        body.at("system"@) == JsonView::Null,
        !(m.at("content"@) is Str),
        !(m.at("content"@) is Array),
        m.at("role"@) != JsonView::Str("system"@),
        m.at("role"@) != JsonView::Str("tool"@),
        m.at("role"@) == JsonView::Str("assistant"@) ==> !(m.at("tool_calls"@) is Array),
    ensures
        openai_talk(body, seq![m]).len() == 1,
        says(
            openai_talk(body, seq![m])[0],
            m.at("role"@).str_or("user"@),
            JsonView::Str(seq![]),
        ),
        claude_talk(body, seq![m]).len() == 1,
        says(
            claude_talk(body, seq![m])[0],
            m.at("role"@).str_or("user"@),
            JsonView::Str(seq![]),
        ),
{
    lemma_request_words();
    lemma_talk_one(body, m);
    lemma_claude_one(body, m);
    assert(""@ =~= seq![]);
}

/// A choice that asks for a function has to say which; any other choice is fine.
pub proof fn law_functions_are_named(body: JsonView)
    ensures
        !crate::codex::claude_request::choice_names_function(body) <==> body.at("tool_choice"@)
            is Object && body.at("tool_choice"@).at("type"@) == JsonView::Str("function"@)
            && body.at("tool_choice"@).field("function"@) is None,
{
}

} // verus!
