//! What a Codex request holds of the Chat Completions request that it was.
use vstd::prelude::*;

use crate::codex::claude_request::part_texts;
use crate::codex::request_laws::{any_texts, lemma_any_texts};
use crate::codex::transform::{
    codex_request, id_free, input_item, input_items, law_codex_request_is_accepted, message_text,
    stripped, with_flat_tools, with_input,
};
use crate::json::{finite, obj, text, JsonView};
use crate::text::law_joined_with_nothing;

verus! {

/// The words of Responses API requests differ.
proof fn lemma_member_words()
    ensures
        "input"@ != "tools"@,
        "input"@ != "tool_choice"@,
        "input"@ != "store"@,
        "input"@ != "stream"@,
        "input"@ != "prompt_cache_key"@,
        "input"@ != "reasoning"@,
        "input"@ != "include"@,
        "tools"@ != "tool_choice"@,
        "tools"@ != "store"@,
        "tools"@ != "stream"@,
        "tools"@ != "prompt_cache_key"@,
        "tools"@ != "reasoning"@,
        "tools"@ != "include"@,
        "tool_choice"@ != "store"@,
        "tool_choice"@ != "stream"@,
        "tool_choice"@ != "prompt_cache_key"@,
        "tool_choice"@ != "reasoning"@,
        "tool_choice"@ != "include"@,
        "store"@ != "stream"@,
        "store"@ != "prompt_cache_key"@,
        "store"@ != "reasoning"@,
        "store"@ != "include"@,
        "stream"@ != "prompt_cache_key"@,
        "stream"@ != "reasoning"@,
        "stream"@ != "include"@,
        "prompt_cache_key"@ != "reasoning"@,
        "prompt_cache_key"@ != "include"@,
        "reasoning"@ != "include"@,
        "messages"@ != "input"@,
        "messages"@ != "tools"@,
        "messages"@ != "tool_choice"@,
        "messages"@ != "store"@,
        "messages"@ != "stream"@,
        "messages"@ != "prompt_cache_key"@,
        "messages"@ != "reasoning"@,
        "messages"@ != "include"@,
        "type"@ != "role"@,
        "type"@ != "content"@,
        "type"@ != "id"@,
        "role"@ != "content"@,
        "role"@ != "id"@,
        "content"@ != "id"@,
        "type"@ != "text"@,
        "text"@ != "id"@,
        "effort"@ != "id"@,
        "system"@ != "assistant"@,
        "system"@ != "user"@,
        "system"@ != "developer"@,
        "assistant"@ != "user"@,
        "assistant"@ != "developer"@,
        "user"@ != "developer"@,
        "function"@ != "type"@,
        ""@.len() == 0,
{
    reveal_strlit("input");
    reveal_strlit("tools");
    reveal_strlit("tool_choice");
    reveal_strlit("store");
    reveal_strlit("stream");
    reveal_strlit("prompt_cache_key");
    reveal_strlit("reasoning");
    reveal_strlit("include");
    reveal_strlit("messages");
    reveal_strlit("type");
    reveal_strlit("role");
    reveal_strlit("content");
    reveal_strlit("id");
    reveal_strlit("text");
    reveal_strlit("effort");
    reveal_strlit("system");
    reveal_strlit("assistant");
    reveal_strlit("user");
    reveal_strlit("developer");
    reveal_strlit("function");
    reveal_strlit("");
    assert("input"@.len() == 5);
    assert("tools"@.len() == 5);
    assert("tool_choice"@.len() == 11);
    assert("store"@.len() == 5);
    assert("stream"@.len() == 6);
    assert("prompt_cache_key"@.len() == 16);
    assert("reasoning"@.len() == 9);
    assert("include"@.len() == 7);
    assert("messages"@.len() == 8);
    assert("type"@.len() == 4);
    assert("role"@.len() == 4);
    assert("content"@.len() == 7);
    assert("id"@.len() == 2);
    assert("text"@.len() == 4);
    assert("effort"@.len() == 6);
    assert("system"@.len() == 6);
    assert("assistant"@.len() == 9);
    assert("user"@.len() == 4);
    assert("developer"@.len() == 9);
    assert("function"@.len() == 8);
    assert(""@.len() == 0);
    assert("input"@[0] != "tools"@[0]);
    assert("input"@[0] != "store"@[0]);
    assert("tools"@[0] != "store"@[0]);
    assert("type"@[0] != "role"@[0]);
    assert("type"@[1] != "text"@[1]);
    assert("assistant"@[0] != "developer"@[0]);
}

/// What a message says: its content, or the texts of its parts run together.
pub open spec fn words_of(m: JsonView) -> Seq<char> {
    match m.at("content"@) {
        JsonView::Str(s) => s,
        JsonView::Array(parts) => any_texts(parts).flatten(),
        _ => seq![],
    }
}

proof fn lemma_words_of(m: JsonView)
    ensures
        message_text(m) == words_of(m),
{
    if let JsonView::Array(parts) = m.at("content"@) {
        lemma_any_texts(parts);
        law_joined_with_nothing(any_texts(parts));
    }
}

/// A request whose messages Codex is to read.
pub open spec fn speaks(body: JsonView) -> bool {
    body is Object && body.at("messages"@) is Array && body.field("input"@) is None
}

/// The input that Codex reads.
pub open spec fn input_of(body: JsonView, session: Seq<char>) -> Seq<JsonView> {
    codex_request(body, session).at("input"@).items()
}

proof fn lemma_item_stripped(m: JsonView)
    ensures
        stripped(input_item(m)) == input_item(m),
{
    lemma_member_words();
    reveal_with_fuel(stripped, 2);
    let item = input_item(m);
    let part = item.at("content"@).items()[0];
    assert(item.at("content"@) == JsonView::Array(seq![part]));
    let kind = part.at("type"@);
    assert(part.members().dom().finite());
    assert(stripped(part)->Object_0 =~= part->Object_0);
    assert(stripped(part) == part);
    assert(stripped(item.at("content"@))->Array_0 =~= seq![part]);
    assert(stripped(item)->Object_0 =~= item->Object_0);
}

proof fn lemma_input(body: JsonView, session: Seq<char>)
    requires
        speaks(body),
    ensures
        input_of(body, session) == input_items(body.at("messages"@).items()),
{
    lemma_member_words();
    let msgs = body.at("messages"@).items();
    let items = input_items(msgs);
    assert(stripped(JsonView::Array(items))->Array_0 =~= items) by {
        assert forall|i: int| 0 <= i < items.len() implies stripped(items[i]) == items[i] by {
            lemma_item_stripped(msgs[i]);
        }
    }
    assert(with_input(body).at("input"@) == JsonView::Array(items));
    let o = with_flat_tools(with_input(body));
    assert(o.at("input"@) == JsonView::Array(items));
    assert(codex_request(body, session).at("input"@) == JsonView::Array(items));
}

/// Every message reaches Codex, in its place: with its role, where the system is
/// called the developer, and with one part, whose text is what the message says.
pub proof fn law_messages_reach_codex(body: JsonView, session: Seq<char>, i: int)
    requires
        speaks(body),
        0 <= i < body.at("messages"@).items().len(),
    ensures
        ({
            let m = body.at("messages"@).items()[i];
            let out = input_of(body, session);
            let role = m.at("role"@).str_or("user"@);
            let parts = out[i].at("content"@).items();
            &&& out.len() == body.at("messages"@).items().len()
            &&& out[i].at("type"@) == JsonView::Str("message"@)
            &&& role == "system"@ ==> out[i].at("role"@) == JsonView::Str("developer"@)
            &&& role != "system"@ ==> out[i].at("role"@) == JsonView::Str(role)
            &&& parts.len() == 1
            &&& parts[0].at("text"@) == JsonView::Str(words_of(m))
            &&& role == "assistant"@ ==> parts[0].at("type"@) == JsonView::Str("output_text"@)
            &&& role != "assistant"@ ==> parts[0].at("type"@) == JsonView::Str("input_text"@)
        }),
{
    lemma_member_words();
    lemma_input(body, session);
    let m = body.at("messages"@).items()[i];
    lemma_words_of(m);
    let item = input_of(body, session)[i];
    assert(item == input_item(m));
    assert(item.at("role"@) == text(crate::codex::transform::codex_role(m)));
}

/// A message whose content is one text part gives the item that it gives when its
/// content is the text.
pub proof fn law_part_says_what_a_string_says(
    body: JsonView,
    other: JsonView,
    session: Seq<char>,
    i: int,
    part: JsonView,
)
    requires
        speaks(body),
        speaks(other),
        0 <= i < body.at("messages"@).items().len(),
        i < other.at("messages"@).items().len(),
        body.at("messages"@).items()[i].at("role"@) == other.at("messages"@).items()[i].at("role"@),
        body.at("messages"@).items()[i].at("content"@) == JsonView::Array(seq![part]),
        part.at("text"@) is Str,
        other.at("messages"@).items()[i].at("content"@) == part.at("text"@),
    ensures
        input_of(body, session)[i] == input_of(other, session)[i],
{
    lemma_input(body, session);
    lemma_input(other, session);
    let m = body.at("messages"@).items()[i];
    let parts = seq![part];
    let t = part.at("text"@)->Str_0;
    assert(parts.drop_last() =~= seq![]);
    assert(part_texts(parts.drop_last()) =~= seq![]);
    assert(part_texts(parts) =~= seq![t]);
    assert(crate::text::joined(seq![t], ""@) =~= t);
}

/// Taking out ids changes nothing else: a value without ids stays as it is.
pub proof fn law_stripping_keeps_the_rest(v: JsonView)
    requires
        finite(v),
        id_free(v),
    ensures
        stripped(v) == v,
    decreases v,
{
    match v {
        JsonView::Object(m) => {
            assert forall|k: Seq<char>| #[trigger] m.contains_key(k) implies stripped(m[k])
                == m[k] by {
                law_stripping_keeps_the_rest(m[k]);
            }
            assert(stripped(v)->Object_0 =~= m);
        },
        JsonView::Array(s) => {
            assert forall|i: int| 0 <= i < s.len() implies stripped(s[i]) == s[i] by {
                law_stripping_keeps_the_rest(s[i]);
            }
            assert(stripped(v)->Array_0 =~= s);
        },
        _ => {},
    }
}

/// Taking out ids leaves every other member, stripped in turn, and every item.
pub proof fn law_stripping_is_by_member(v: JsonView, key: Seq<char>, i: int)
    requires
        finite(v),
    ensures
        v is Object && key != "id"@ ==> stripped(v).at(key) == stripped(v.at(key)),
        v is Object ==> stripped(v) is Object && stripped(v).field("id"@) is None,
        v is Array ==> stripped(v).items().len() == v.items().len(),
        v is Array && 0 <= i < v.items().len() ==> stripped(v).items()[i] == stripped(v.items()[i]),
        !(v is Object) && !(v is Array) ==> stripped(v) == v,
{
}

/// Input that the client gave itself is what Codex reads, without ids, whatever
/// the messages say.
pub proof fn law_given_input_is_read(body: JsonView, session: Seq<char>)
    requires
        body is Object,
        finite(body),
        body.field("input"@) is Some,
    ensures
        codex_request(body, session).at("input"@) == stripped(body.at("input"@)),
{
    lemma_member_words();
    lemma_kept_key("input"@);
    let o = with_flat_tools(with_input(body));
    assert(with_input(body).at("input"@) == stripped(body.at("input"@)));
    assert(o.at("input"@) == stripped(body.at("input"@)));
}

/// The members that a Codex request sets are not among those that are rejected.
proof fn lemma_kept_key(key: Seq<char>)
    requires
        key == "input"@ || key == "tools"@ || key == "tool_choice"@ || key == "reasoning"@,
    ensures
        !crate::codex::transform::disallowed(key),
        key != "messages"@,
{
    if crate::codex::transform::disallowed(key) || key == "messages"@ {
        crate::codex::transform::lemma_request_keys(key);
    }
}

/// None of the members that the backend rejects is left.
pub proof fn law_rejected_members_are_dropped(body: JsonView, session: Seq<char>)
    requires
        body is Object,
    ensures
        codex_request(body, session).field("temperature"@) is None,
        codex_request(body, session).field("top_p"@) is None,
        codex_request(body, session).field("max_tokens"@) is None,
        codex_request(body, session).field("max_output_tokens"@) is None,
        codex_request(body, session).field("user"@) is None,
        codex_request(body, session).field("n"@) is None,
        codex_request(body, session).field("presence_penalty"@) is None,
        codex_request(body, session).field("frequency_penalty"@) is None,
        codex_request(body, session).field("logprobs"@) is None,
        codex_request(body, session).field("top_logprobs"@) is None,
        codex_request(body, session).field("logit_bias"@) is None,
        codex_request(body, session).field("seed"@) is None,
        codex_request(body, session).field("stop"@) is None,
        codex_request(body, session).field("response_format"@) is None,
        codex_request(body, session).field("stream_options"@) is None,
        codex_request(body, session).field("parallel_tool_calls"@) is None,
        codex_request(body, session).field("service_tier"@) is None,
        codex_request(body, session).field("messages"@) is None,
{
    law_codex_request_is_accepted(body, session, "temperature"@);
    law_codex_request_is_accepted(body, session, "top_p"@);
    law_codex_request_is_accepted(body, session, "max_tokens"@);
    law_codex_request_is_accepted(body, session, "max_output_tokens"@);
    law_codex_request_is_accepted(body, session, "user"@);
    law_codex_request_is_accepted(body, session, "n"@);
    law_codex_request_is_accepted(body, session, "presence_penalty"@);
    law_codex_request_is_accepted(body, session, "frequency_penalty"@);
    law_codex_request_is_accepted(body, session, "logprobs"@);
    law_codex_request_is_accepted(body, session, "top_logprobs"@);
    law_codex_request_is_accepted(body, session, "logit_bias"@);
    law_codex_request_is_accepted(body, session, "seed"@);
    law_codex_request_is_accepted(body, session, "stop"@);
    law_codex_request_is_accepted(body, session, "response_format"@);
    law_codex_request_is_accepted(body, session, "stream_options"@);
    law_codex_request_is_accepted(body, session, "parallel_tool_calls"@);
    law_codex_request_is_accepted(body, session, "service_tier"@);
    law_codex_request_is_accepted(body, session, "messages"@);
}

/// Every other member is as the client gave it.
pub proof fn law_other_members_are_kept(body: JsonView, session: Seq<char>, key: Seq<char>)
    requires
        body is Object,
        key != "temperature"@,
        key != "top_p"@,
        key != "max_tokens"@,
        key != "max_output_tokens"@,
        key != "user"@,
        key != "n"@,
        key != "presence_penalty"@,
        key != "frequency_penalty"@,
        key != "logprobs"@,
        key != "top_logprobs"@,
        key != "logit_bias"@,
        key != "seed"@,
        key != "stop"@,
        key != "response_format"@,
        key != "stream_options"@,
        key != "parallel_tool_calls"@,
        key != "service_tier"@,
        key != "messages"@,
        key != "input"@,
        key != "tools"@,
        key != "tool_choice"@,
        key != "store"@,
        key != "stream"@,
        key != "prompt_cache_key"@,
        key != "reasoning"@,
        key != "include"@,
    ensures
        codex_request(body, session).field(key) == body.field(key),
{
    let o = with_flat_tools(with_input(body));
    assert(o.field(key) == body.field(key));
}

/// A tool is offered to Codex in the flat shape: what its function says stands in
/// the tool itself, and what the tool says besides stays.
pub open spec fn is_flat(given: JsonView, out: JsonView, key: Seq<char>) -> bool {
    let function = given.at("function"@);
    if given is Object && given.at("type"@) == JsonView::Str("function"@) {
        &&& function.field(key) is Some ==> out.field(key) == function.field(key)
        &&& function.field(key) is None && key != "function"@ ==> out.field(key) == given.field(key)
        &&& function.field(key) is None && key == "function"@ ==> out.field(key) is None
    } else {
        out == given
    }
}

/// The tools are offered one each and in order, in the flat shape; so is the tool
/// choice.
pub proof fn law_tools_reach_codex(body: JsonView, session: Seq<char>, i: int, key: Seq<char>)
    requires
        body is Object,
    ensures
        ({
            let out = codex_request(body, session);
            &&& body.at("tools"@) is Array ==> out.at("tools"@) is Array && out.at(
                "tools"@,
            ).items().len() == body.at("tools"@).items().len()
            &&& body.at("tools"@) is Array && 0 <= i < body.at("tools"@).items().len() ==> is_flat(
                body.at("tools"@).items()[i],
                out.at("tools"@).items()[i],
                key,
            )
            &&& body.field("tool_choice"@) is Some ==> is_flat(
                body.at("tool_choice"@),
                out.at("tool_choice"@),
                key,
            )
            &&& body.field("tool_choice"@) is None ==> out.field("tool_choice"@) is None
        }),
{
    lemma_member_words();
    lemma_kept_key("tools"@);
    lemma_kept_key("tool_choice"@);
    let w = with_input(body);
    assert(w.field("tools"@) == body.field("tools"@));
    assert(w.field("tool_choice"@) == body.field("tool_choice"@));
    let o = with_flat_tools(w);
    let out = codex_request(body, session);
    assert(out.field("tools"@) == o.field("tools"@));
    assert(out.field("tool_choice"@) == o.field("tool_choice"@));
    if body.at("tools"@) is Array && 0 <= i < body.at("tools"@).items().len() {
        assert(out.at("tools"@).items()[i] == crate::codex::transform::flattened(
            body.at("tools"@).items()[i],
        ));
    }
}

/// The request asks for the effort that the client asks for, or else a medium one,
/// for whatever else the client asks of the reasoning, and for the reasoning that
/// only Codex can read.
pub proof fn law_reasoning_is_asked_for(body: JsonView, session: Seq<char>, key: Seq<char>)
    requires
        body is Object,
        body.at("reasoning"@) is Object || body.at("reasoning"@) is Null,
    ensures
        ({
            let out = codex_request(body, session);
            let given = body.at("reasoning"@);
            &&& given.field("effort"@) is Some ==> out.at("reasoning"@).at("effort"@) == given.at(
                "effort"@,
            )
            &&& given.field("effort"@) is None ==> out.at("reasoning"@).at("effort"@)
                == JsonView::Str("medium"@)
            &&& key != "effort"@ ==> out.at("reasoning"@).field(key) == given.field(key)
            &&& out.at("include"@) == JsonView::Array(
                seq![JsonView::Str("reasoning.encrypted_content"@)],
            )
        }),
{
    lemma_member_words();
    lemma_kept_key("reasoning"@);
    let w = with_input(body);
    assert(w.field("reasoning"@) == body.field("reasoning"@));
    let o = with_flat_tools(w);
    assert(o.field("reasoning"@) == body.field("reasoning"@));
}


/// Without messages and without input there is nothing to read, and what is no
/// object stays as it is.
pub proof fn law_nothing_is_made_up(body: JsonView, session: Seq<char>)
    ensures
        body is Object && !(body.at("messages"@) is Array) && body.field("input"@) is None
            ==> codex_request(body, session).field("input"@) is None,
        !(body is Object) ==> codex_request(body, session) == body,
        crate::codex::transform::reasoning_is_object(body) <==> body.at("reasoning"@) is Object
            || body.at("reasoning"@) == JsonView::Null,
{
    lemma_member_words();
    lemma_kept_key("input"@);
}

} // verus!
