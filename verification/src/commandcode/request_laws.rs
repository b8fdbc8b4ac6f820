//! What a generate request holds of the Chat Completions request that it was.
use vstd::prelude::*;

use crate::codex::claude_request::text_part;
use crate::codex::request_laws::{any_texts, lemma_any_texts};
use crate::codex::responses_laws::words_of;
use crate::commandcode::transform::{
    answered_ids, assistant_parts, call_part, call_parts, called_ids, content_text, converted,
    converted_first, converted_messages, converted_tool, converted_tools, envelope, generate_params,
    has_role, ids_of, paired, result_message, system_prompt, system_texts,
};
use crate::json::{obj, or_else, parsed, text, JsonView};
use crate::text::{law_joined_with_nothing, law_joined_with_separator};

verus! {

/// The words of generate requests differ.
proof fn lemma_words()
    ensures
        "config"@ != "memory"@,
        "config"@ != "taste"@,
        "config"@ != "skills"@,
        "config"@ != "params"@,
        "config"@ != "threadId"@,
        "memory"@ != "taste"@,
        "memory"@ != "skills"@,
        "memory"@ != "params"@,
        "memory"@ != "threadId"@,
        "taste"@ != "skills"@,
        "taste"@ != "params"@,
        "taste"@ != "threadId"@,
        "skills"@ != "params"@,
        "skills"@ != "threadId"@,
        "params"@ != "threadId"@,
        "workingDir"@ != "date"@,
        "workingDir"@ != "environment"@,
        "workingDir"@ != "structure"@,
        "workingDir"@ != "isGitRepo"@,
        "workingDir"@ != "currentBranch"@,
        "workingDir"@ != "mainBranch"@,
        "workingDir"@ != "gitStatus"@,
        "workingDir"@ != "recentCommits"@,
        "date"@ != "environment"@,
        "date"@ != "structure"@,
        "date"@ != "isGitRepo"@,
        "date"@ != "currentBranch"@,
        "date"@ != "mainBranch"@,
        "date"@ != "gitStatus"@,
        "date"@ != "recentCommits"@,
        "environment"@ != "structure"@,
        "environment"@ != "isGitRepo"@,
        "environment"@ != "currentBranch"@,
        "environment"@ != "mainBranch"@,
        "environment"@ != "gitStatus"@,
        "environment"@ != "recentCommits"@,
        "structure"@ != "isGitRepo"@,
        "structure"@ != "currentBranch"@,
        "structure"@ != "mainBranch"@,
        "structure"@ != "gitStatus"@,
        "structure"@ != "recentCommits"@,
        "isGitRepo"@ != "currentBranch"@,
        "isGitRepo"@ != "mainBranch"@,
        "isGitRepo"@ != "gitStatus"@,
        "isGitRepo"@ != "recentCommits"@,
        "currentBranch"@ != "mainBranch"@,
        "currentBranch"@ != "gitStatus"@,
        "currentBranch"@ != "recentCommits"@,
        "mainBranch"@ != "gitStatus"@,
        "mainBranch"@ != "recentCommits"@,
        "gitStatus"@ != "recentCommits"@,
        "model"@ != "messages"@,
        "model"@ != "tools"@,
        "model"@ != "max_tokens"@,
        "model"@ != "temperature"@,
        "model"@ != "stream"@,
        "model"@ != "system"@,
        "messages"@ != "tools"@,
        "messages"@ != "max_tokens"@,
        "messages"@ != "temperature"@,
        "messages"@ != "stream"@,
        "messages"@ != "system"@,
        "tools"@ != "max_tokens"@,
        "tools"@ != "temperature"@,
        "tools"@ != "stream"@,
        "tools"@ != "system"@,
        "max_tokens"@ != "temperature"@,
        "max_tokens"@ != "stream"@,
        "max_tokens"@ != "system"@,
        "temperature"@ != "stream"@,
        "temperature"@ != "system"@,
        "stream"@ != "system"@,
        "role"@ != "content"@,
        "type"@ != "text"@,
        "type"@ != "toolCallId"@,
        "type"@ != "toolName"@,
        "type"@ != "input"@,
        "type"@ != "output"@,
        "toolCallId"@ != "toolName"@,
        "toolCallId"@ != "input"@,
        "toolCallId"@ != "output"@,
        "toolName"@ != "input"@,
        "toolName"@ != "output"@,
        "input"@ != "output"@,
        "type"@ != "value"@,
        "type"@ != "name"@,
        "type"@ != "description"@,
        "type"@ != "input_schema"@,
        "name"@ != "description"@,
        "name"@ != "input_schema"@,
        "description"@ != "input_schema"@,
        "user"@ != "assistant"@,
        "user"@ != "tool"@,
        "user"@ != "system"@,
        "assistant"@ != "tool"@,
        "assistant"@ != "system"@,
        "tool"@ != "system"@,
        ""@.len() == 0,
{
    reveal_strlit("config");
    reveal_strlit("memory");
    reveal_strlit("taste");
    reveal_strlit("skills");
    reveal_strlit("params");
    reveal_strlit("threadId");
    reveal_strlit("workingDir");
    reveal_strlit("date");
    reveal_strlit("environment");
    reveal_strlit("structure");
    reveal_strlit("isGitRepo");
    reveal_strlit("currentBranch");
    reveal_strlit("mainBranch");
    reveal_strlit("gitStatus");
    reveal_strlit("recentCommits");
    reveal_strlit("model");
    reveal_strlit("messages");
    reveal_strlit("tools");
    reveal_strlit("max_tokens");
    reveal_strlit("temperature");
    reveal_strlit("stream");
    reveal_strlit("system");
    reveal_strlit("role");
    reveal_strlit("content");
    reveal_strlit("type");
    reveal_strlit("text");
    reveal_strlit("toolCallId");
    reveal_strlit("toolName");
    reveal_strlit("input");
    reveal_strlit("output");
    reveal_strlit("value");
    reveal_strlit("name");
    reveal_strlit("description");
    reveal_strlit("input_schema");
    reveal_strlit("user");
    reveal_strlit("assistant");
    reveal_strlit("tool");
    reveal_strlit("");
    assert("config"@.len() == 6);
    assert("memory"@.len() == 6);
    assert("taste"@.len() == 5);
    assert("skills"@.len() == 6);
    assert("params"@.len() == 6);
    assert("threadId"@.len() == 8);
    assert("workingDir"@.len() == 10);
    assert("date"@.len() == 4);
    assert("environment"@.len() == 11);
    assert("structure"@.len() == 9);
    assert("isGitRepo"@.len() == 9);
    assert("currentBranch"@.len() == 13);
    assert("mainBranch"@.len() == 10);
    assert("gitStatus"@.len() == 9);
    assert("recentCommits"@.len() == 13);
    assert("model"@.len() == 5);
    assert("messages"@.len() == 8);
    assert("tools"@.len() == 5);
    assert("max_tokens"@.len() == 10);
    assert("temperature"@.len() == 11);
    assert("stream"@.len() == 6);
    assert("system"@.len() == 6);
    assert("role"@.len() == 4);
    assert("content"@.len() == 7);
    assert("type"@.len() == 4);
    assert("text"@.len() == 4);
    assert("toolCallId"@.len() == 10);
    assert("toolName"@.len() == 8);
    assert("input"@.len() == 5);
    assert("output"@.len() == 6);
    assert("value"@.len() == 5);
    assert("name"@.len() == 4);
    assert("description"@.len() == 11);
    assert("input_schema"@.len() == 12);
    assert("user"@.len() == 4);
    assert("assistant"@.len() == 9);
    assert("tool"@.len() == 4);
    assert(""@.len() == 0);
    assert("config"@[0] != "memory"@[0]);
    assert("config"@[0] != "skills"@[0]);
    assert("config"@[0] != "params"@[0]);
    assert("memory"@[0] != "skills"@[0]);
    assert("memory"@[0] != "params"@[0]);
    assert("skills"@[0] != "params"@[0]);
    assert("workingDir"@[0] != "mainBranch"@[0]);
    assert("structure"@[0] != "isGitRepo"@[0]);
    assert("structure"@[0] != "gitStatus"@[0]);
    assert("isGitRepo"@[0] != "gitStatus"@[0]);
    assert("currentBranch"@[0] != "recentCommits"@[0]);
    assert("model"@[0] != "tools"@[0]);
    assert("stream"@[1] != "system"@[1]);
    assert("type"@[1] != "text"@[1]);
    assert("type"@[0] != "name"@[0]);
    assert("user"@[0] != "tool"@[0]);
}

// ---------------------------------------------------------------------------
// Messages
// ---------------------------------------------------------------------------

/// Some assistant called a tool under this id.
pub open spec fn was_called(msgs: Seq<JsonView>, id: Seq<char>) -> bool {
    exists|i: int, j: int|
        0 <= i < msgs.len() && msgs[i].at("role"@) == JsonView::Str("assistant"@) && 0 <= j
            < msgs[i].at("tool_calls"@).items().len() && (#[trigger] msgs[i].at(
            "tool_calls"@,
        ).items()[j]).at("id"@) == JsonView::Str(id)
}

/// Some tool answered under this id.
pub open spec fn was_answered(msgs: Seq<JsonView>, id: Seq<char>) -> bool {
    exists|i: int|
        0 <= i < msgs.len() && (#[trigger] msgs[i]).at("role"@) == JsonView::Str("tool"@)
            && msgs[i].at("tool_call_id"@) == JsonView::Str(id)
}

/// A tool call with this id was made and answered.
pub open spec fn complete(msgs: Seq<JsonView>, id: Seq<char>) -> bool {
    was_called(msgs, id) && was_answered(msgs, id)
}

/// The calls of a message that were answered, in order.
pub open spec fn complete_calls(m: JsonView, msgs: Seq<JsonView>) -> Seq<JsonView> {
    m.at("tool_calls"@).items().filter(
        |call: JsonView| complete(msgs, call.at("id"@).str_or_empty()),
    )
}

/// A message that reaches the provider: not a system prompt, no assistant with
/// nothing to say or to call, and no answer to a call that was not made.
pub open spec fn stays(m: JsonView, msgs: Seq<JsonView>) -> bool {
    let role = m.at("role"@).str_or("user"@);
    if role == "system"@ {
        false
    } else if role == "assistant"@ {
        words_of(m).len() > 0 || complete_calls(m, msgs).len() > 0
    } else if role == "tool"@ {
        complete(msgs, m.at("tool_call_id"@).str_or_empty())
    } else {
        true
    }
}

/// The part is this tool call, with its id, its name and the object that its
/// arguments are, an empty one where they are none.
pub open spec fn is_call(part: JsonView, call: JsonView) -> bool {
    let args = call.at("function"@).at("arguments"@);
    &&& part.at("type"@) == JsonView::Str("tool-call"@)
    &&& part.at("toolCallId"@) == JsonView::Str(call.at("id"@).str_or_empty())
    &&& part.at("toolName"@) == JsonView::Str(call.at("function"@).at("name"@).str_or_empty())
    &&& part.at("input"@) == if args is Str && parsed(args.str_or_empty()) is Some && parsed(
        args.str_or_empty(),
    )->0 is Object {
        parsed(args.str_or_empty())->0
    } else {
        JsonView::Object(Map::empty())
    }
}

/// The provider's message is this one: what the assistant says comes first among
/// its parts, then come its calls that were answered; the answer of a tool is one
/// part; any other message has the content that it had.
pub open spec fn is_message(v: JsonView, m: JsonView, msgs: Seq<JsonView>) -> bool {
    let role = m.at("role"@).str_or("user"@);
    let parts = v.at("content"@).items();
    &&& v.at("role"@) == JsonView::Str(role)
    &&& role == "assistant"@ ==> {
        let calls = complete_calls(m, msgs);
        let n: int = if words_of(m).len() > 0 {
            1
        } else {
            0
        };
        &&& parts.len() == n + calls.len()
        &&& n == 1 ==> parts[0].at("type"@) == JsonView::Str("text"@) && parts[0].at("text"@)
            == JsonView::Str(words_of(m))
        &&& forall|j: int| 0 <= j < calls.len() ==> is_call(parts[n + j], #[trigger] calls[j])
    }
    &&& role == "tool"@ ==> {
        &&& parts.len() == 1
        &&& parts[0].at("type"@) == JsonView::Str("tool-result"@)
        &&& parts[0].at("toolCallId"@) == JsonView::Str(m.at("tool_call_id"@).str_or_empty())
        &&& parts[0].at("output"@).at("type"@) == JsonView::Str("text"@)
        &&& parts[0].at("output"@).at("value"@) == JsonView::Str(words_of(m))
    }
    &&& role != "assistant"@ && role != "tool"@ ==> v.at("content"@) == m.at("content"@)
}

/// The messages that a provider gets.
pub open spec fn messages_in(request: JsonView) -> Seq<JsonView> {
    request.at("params"@).at("messages"@).items()
}

pub proof fn lemma_content(m: JsonView)
    ensures
        content_text(m.at("content"@)) == words_of(m),
{
    if let JsonView::Array(parts) = m.at("content"@) {
        lemma_any_texts(parts);
        law_joined_with_nothing(any_texts(parts));
    }
}

proof fn lemma_ids(calls: Seq<JsonView>, id: Seq<char>)
    ensures
        ids_of(calls).contains(id) <==> exists|j: int|
            0 <= j < calls.len() && (#[trigger] calls[j]).at("id"@) == JsonView::Str(id),
    decreases calls.len(),
{
    if calls.len() > 0 {
        let rest = calls.drop_last();
        lemma_ids(rest, id);
        let all = ids_of(calls);
        let before = ids_of(rest);
        if all.contains(id) {
            let i = all.index_of(id);
            if i < before.len() {
                assert(before[i] == id);
                let j = choose|j: int|
                    0 <= j < rest.len() && (#[trigger] rest[j]).at("id"@) == JsonView::Str(id);
                assert(calls[j] == rest[j]);
            } else {
                assert(calls[calls.len() - 1].at("id"@) == JsonView::Str(id));
            }
        }
        if exists|j: int|
            0 <= j < calls.len() && (#[trigger] calls[j]).at("id"@) == JsonView::Str(id) {
            let j = choose|j: int|
                0 <= j < calls.len() && (#[trigger] calls[j]).at("id"@) == JsonView::Str(id);
            if j < rest.len() {
                assert(rest[j] == calls[j]);
                let i = before.index_of(id);
                assert(all[i] == id);
            } else {
                assert(all[before.len() as int] == id);
            }
        }
    }
}

proof fn lemma_called(msgs: Seq<JsonView>, id: Seq<char>)
    ensures
        called_ids(msgs).contains(id) <==> was_called(msgs, id),
    decreases msgs.len(),
{
    if msgs.len() > 0 {
        let rest = msgs.drop_last();
        let last = msgs.last();
        let own = last.at("tool_calls"@).items();
        lemma_called(rest, id);
        lemma_ids(own, id);
        let all = called_ids(msgs);
        let before = called_ids(rest);
        if all.contains(id) {
            let i = all.index_of(id);
            if i < before.len() {
                assert(before[i] == id);
                let (x, y) = choose|x: int, y: int|
                    0 <= x < rest.len() && rest[x].at("role"@) == JsonView::Str("assistant"@) && 0
                        <= y < rest[x].at("tool_calls"@).items().len() && (#[trigger] rest[x].at(
                        "tool_calls"@,
                    ).items()[y]).at("id"@) == JsonView::Str(id);
                assert(msgs[x] == rest[x]);
                assert(msgs[x].at("tool_calls"@).items()[y].at("id"@) == JsonView::Str(id));
            } else {
                assert(ids_of(own)[i - before.len()] == id);
                let y = choose|y: int|
                    0 <= y < own.len() && (#[trigger] own[y]).at("id"@) == JsonView::Str(id);
                let x = msgs.len() - 1;
                assert(msgs[x].at("tool_calls"@).items()[y].at("id"@) == JsonView::Str(id));
            }
        }
        if was_called(msgs, id) {
            let (x, y) = choose|x: int, y: int|
                0 <= x < msgs.len() && msgs[x].at("role"@) == JsonView::Str("assistant"@) && 0 <= y
                    < msgs[x].at("tool_calls"@).items().len() && (#[trigger] msgs[x].at(
                    "tool_calls"@,
                ).items()[y]).at("id"@) == JsonView::Str(id);
            if x < rest.len() {
                assert(rest[x] == msgs[x]);
                assert(rest[x].at("tool_calls"@).items()[y].at("id"@) == JsonView::Str(id));
                let i = before.index_of(id);
                assert(all[i] == id);
            } else {
                assert(own[y].at("id"@) == JsonView::Str(id));
                let i = ids_of(own).index_of(id);
                assert(all[before.len() + i] == id);
            }
        }
    }
}

proof fn lemma_answered(msgs: Seq<JsonView>, id: Seq<char>)
    ensures
        answered_ids(msgs).contains(id) <==> was_answered(msgs, id),
    decreases msgs.len(),
{
    if msgs.len() > 0 {
        let rest = msgs.drop_last();
        lemma_answered(rest, id);
        let all = answered_ids(msgs);
        let before = answered_ids(rest);
        if all.contains(id) {
            let i = all.index_of(id);
            if i < before.len() {
                assert(before[i] == id);
                let x = choose|x: int|
                    0 <= x < rest.len() && (#[trigger] rest[x]).at("role"@) == JsonView::Str(
                        "tool"@,
                    ) && rest[x].at("tool_call_id"@) == JsonView::Str(id);
                assert(msgs[x] == rest[x]);
            } else {
                assert(msgs[msgs.len() - 1].at("tool_call_id"@) == JsonView::Str(id));
            }
        }
        if was_answered(msgs, id) {
            let x = choose|x: int|
                0 <= x < msgs.len() && (#[trigger] msgs[x]).at("role"@) == JsonView::Str("tool"@)
                    && msgs[x].at("tool_call_id"@) == JsonView::Str(id);
            if x < rest.len() {
                assert(rest[x] == msgs[x]);
                let i = before.index_of(id);
                assert(all[i] == id);
            } else {
                assert(all[before.len() as int] == id);
            }
        }
    }
}

proof fn lemma_complete(msgs: Seq<JsonView>, id: Seq<char>)
    ensures
        paired(msgs, id) == complete(msgs, id),
{
    lemma_called(msgs, id);
    lemma_answered(msgs, id);
}

proof fn lemma_call_parts(calls: Seq<JsonView>, msgs: Seq<JsonView>)
    ensures
        call_parts(calls, msgs) == calls.filter(
            |call: JsonView| complete(msgs, call.at("id"@).str_or_empty()),
        ).map_values(|call: JsonView| call_part(call)),
    decreases calls.len(),
{
    reveal(Seq::filter);
    if calls.len() > 0 {
        lemma_call_parts(calls.drop_last(), msgs);
        lemma_complete(msgs, calls.last().at("id"@).str_or_empty());
    }
    assert(call_parts(calls, msgs) =~= calls.filter(
        |call: JsonView| complete(msgs, call.at("id"@).str_or_empty()),
    ).map_values(|call: JsonView| call_part(call)));
}

proof fn lemma_message(m: JsonView, msgs: Seq<JsonView>)
    ensures
        converted(m, msgs) is Some <==> stays(m, msgs),
        converted(m, msgs) matches Some(v) ==> is_message(v, m, msgs),
{
    lemma_words();
    lemma_content(m);
    let role = m.at("role"@).str_or("user"@);
    let calls = complete_calls(m, msgs);
    lemma_call_parts(m.at("tool_calls"@).items(), msgs);
    lemma_complete(msgs, m.at("tool_call_id"@).str_or_empty());
    if let Some(v) = converted(m, msgs) {
        if role == "assistant"@ {
            let parts = assistant_parts(m, msgs);
            assert(v.at("content"@) == JsonView::Array(parts));
            let n: int = if words_of(m).len() > 0 {
                1
            } else {
                0
            };
            if n == 1 {
                assert(parts[0] == text_part(words_of(m)));
            }
            assert forall|j: int| 0 <= j < calls.len() implies is_call(
                parts[n + j],
                #[trigger] calls[j],
            ) by {
                assert(parts[n + j] == call_part(calls[j]));
                let p = call_part(calls[j]);
                assert(p.at("type"@) == text("tool-call"@));
                assert(p.at("input"@) == crate::commandcode::transform::object_input(calls[j]));
            }
        } else if role == "tool"@ {
            assert(v == result_message(m));
            let part = v.at("content"@).items()[0];
            assert(part.at("type"@) == text("tool-result"@));
            assert(part.at("output"@).at("value"@) == text(words_of(m)));
        } else {
            assert(v.at("role"@) == text(role));
        }
    }
}

proof fn lemma_messages(first: Seq<JsonView>, msgs: Seq<JsonView>)
    ensures
        ({
            let out = converted_first(first, msgs);
            let kept = first.filter(|m: JsonView| stays(m, msgs));
            &&& out.len() == kept.len()
            &&& forall|i: int|
                0 <= i < kept.len() ==> is_message(out[i], #[trigger] kept[i], msgs)
        }),
    decreases first.len(),
{
    reveal(Seq::filter);
    if first.len() > 0 {
        lemma_messages(first.drop_last(), msgs);
        lemma_message(first.last(), msgs);
    }
}

/// The provider gets the messages that stay, one each and in order, and what each
/// of them says, calls and answers.
pub proof fn law_messages_reach_the_provider(
    body: JsonView,
    thread: Seq<char>,
    dir: Seq<char>,
    date: Seq<char>,
    environment: Seq<char>,
    i: int,
)
    ensures
        ({
            let msgs = body.at("messages"@).items();
            let kept = msgs.filter(|m: JsonView| stays(m, msgs));
            let out = messages_in(envelope(body, thread, dir, date, environment));
            &&& out.len() == kept.len()
            &&& 0 <= i < kept.len() ==> is_message(out[i], kept[i], msgs)
        }),
{
    lemma_words();
    let msgs = body.at("messages"@).items();
    lemma_messages(msgs, msgs);
    let e = envelope(body, thread, dir, date, environment);
    assert(e.at("params"@) == generate_params(body));
    assert(e.at("params"@).at("messages"@) == JsonView::Array(converted_messages(msgs)));
    let kept = msgs.filter(|m: JsonView| stays(m, msgs));
    if 0 <= i < kept.len() {
        assert(is_message(converted_messages(msgs)[i], kept[i], msgs));
    }
}

/// Whoever speaks, a conversation of texts keeps its messages, their order and
/// their roles, and every text stays the first thing that its message says.
pub proof fn law_conversation_is_kept(
    body: JsonView,
    thread: Seq<char>,
    dir: Seq<char>,
    date: Seq<char>,
    environment: Seq<char>,
    i: int,
)
    requires
        forall|k: int|
            0 <= k < body.at("messages"@).items().len() ==> {
                let m = #[trigger] body.at("messages"@).items()[k];
                &&& m.at("role"@) == JsonView::Str("user"@) || m.at("role"@) == JsonView::Str(
                    "assistant"@,
                )
                &&& words_of(m).len() > 0
            },
        0 <= i < body.at("messages"@).items().len(),
    ensures
        ({
            let msgs = body.at("messages"@).items();
            let out = messages_in(envelope(body, thread, dir, date, environment));
            &&& out.len() == msgs.len()
            &&& out[i].at("role"@) == msgs[i].at("role"@)
            &&& msgs[i].at("role"@) == JsonView::Str("user"@) ==> out[i].at("content"@)
                == msgs[i].at("content"@)
            &&& msgs[i].at("role"@) == JsonView::Str("assistant"@) ==> out[i].at(
                "content"@,
            ).items().len() > 0 && out[i].at("content"@).items()[0].at("type"@) == JsonView::Str(
                "text"@,
            ) && out[i].at("content"@).items()[0].at("text"@) == JsonView::Str(words_of(msgs[i]))
        }),
{
    lemma_words();
    let msgs = body.at("messages"@).items();
    let keep = |m: JsonView| stays(m, msgs);
    assert forall|k: int| 0 <= k < msgs.len() implies keep(#[trigger] msgs[k]) by {}
    lemma_all_stay(msgs, keep);
    law_messages_reach_the_provider(body, thread, dir, date, environment, i);
}

/// Where all items are kept, the items stay.
proof fn lemma_all_stay(msgs: Seq<JsonView>, keep: spec_fn(JsonView) -> bool)
    requires
        forall|k: int| 0 <= k < msgs.len() ==> keep(#[trigger] msgs[k]),
    ensures
        msgs.filter(keep) == msgs,
    decreases msgs.len(),
{
    reveal(Seq::filter);
    if msgs.len() > 0 {
        let rest = msgs.drop_last();
        assert forall|k: int| 0 <= k < rest.len() implies keep(#[trigger] rest[k]) by {
            assert(rest[k] == msgs[k]);
        }
        lemma_all_stay(rest, keep);
        assert(keep(msgs[msgs.len() - 1]));
        assert(msgs.filter(keep) =~= msgs);
    }
}

// ---------------------------------------------------------------------------
// What surrounds the messages
// ---------------------------------------------------------------------------

/// The tools are offered one each and in order, with their names, descriptions and
/// schemas.
pub proof fn law_tools_reach_the_provider(
    body: JsonView,
    thread: Seq<char>,
    dir: Seq<char>,
    date: Seq<char>,
    environment: Seq<char>,
    i: int,
)
    ensures
        ({
            let given = body.at("tools"@).items();
            let tools = envelope(body, thread, dir, date, environment).at("params"@).at("tools"@);
            let out = tools.items();
            &&& tools is Array
            &&& out.len() == given.len()
            &&& 0 <= i < given.len() ==> {
                let f = given[i].at("function"@);
                &&& out[i].at("type"@) == JsonView::Str("function"@)
                &&& out[i].at("name"@) == JsonView::Str(f.at("name"@).str_or_empty())
                &&& out[i].at("description"@) == JsonView::Str(f.at("description"@).str_or_empty())
                &&& f.field("parameters"@) is Some ==> out[i].at("input_schema"@) == f.at(
                    "parameters"@,
                )
                &&& f.field("parameters"@) is None ==> out[i].at("input_schema"@)
                    == JsonView::Object(Map::empty())
            }
        }),
{
    lemma_words();
    let given = body.at("tools"@).items();
    let e = envelope(body, thread, dir, date, environment);
    assert(e.at("params"@) == generate_params(body));
    assert(e.at("params"@).at("tools"@) == JsonView::Array(converted_tools(given)));
    if 0 <= i < given.len() {
        assert(converted_tools(given)[i] == converted_tool(given[i]));
    }
}

/// The text of a system prompt that says something.
pub open spec fn prompt_in(m: JsonView) -> Option<Seq<char>> {
    if m.at("role"@) == JsonView::Str("system"@) && words_of(m).len() > 0 {
        Some(words_of(m))
    } else {
        None
    }
}

proof fn lemma_prompts(msgs: Seq<JsonView>)
    ensures
        system_texts(msgs) == msgs.filter_map(|m: JsonView| prompt_in(m)),
    decreases msgs.len(),
{
    if msgs.len() > 0 {
        lemma_prompts(msgs.drop_last());
        lemma_content(msgs.last());
    }
    assert(system_texts(msgs) =~= msgs.filter_map(|m: JsonView| prompt_in(m)));
}

/// The system prompts that say something are one text, with a blank line between
/// any two of them; without any there is none.
pub proof fn law_system_prompts_reach_the_provider(
    body: JsonView,
    thread: Seq<char>,
    dir: Seq<char>,
    date: Seq<char>,
    environment: Seq<char>,
)
    ensures
        ({
            let prompts = body.at("messages"@).items().filter_map(|m: JsonView| prompt_in(m));
            let system = envelope(body, thread, dir, date, environment).at("params"@).at("system"@);
            &&& prompts.len() == 0 ==> system == JsonView::Null
            &&& prompts.len() > 0 ==> system is Str && system.str_or_empty() + "\n\n"@
                == prompts.map_values(|t: Seq<char>| t + "\n\n"@).flatten()
        }),
{
    lemma_words();
    let msgs = body.at("messages"@).items();
    lemma_prompts(msgs);
    let prompts = msgs.filter_map(|m: JsonView| prompt_in(m));
    let e = envelope(body, thread, dir, date, environment);
    assert(e.at("params"@) == generate_params(body));
    assert(e.at("params"@).at("system"@) == crate::json::text_or_null(system_prompt(msgs)));
    if prompts.len() > 0 {
        law_joined_with_separator(prompts, "\n\n"@);
    }
}

/// The provider is asked for the client's model and for as many tokens as the
/// client allows, between 1 and 64000; an answer to a client that sets no limit
/// may have 64000. It is always asked to stream, at a temperature of 0.3.
pub proof fn law_settings_reach_the_provider(
    body: JsonView,
    thread: Seq<char>,
    dir: Seq<char>,
    date: Seq<char>,
    environment: Seq<char>,
)
    ensures
        ({
            let params = envelope(body, thread, dir, date, environment).at("params"@);
            let asked = body.at("max_tokens"@);
            &&& params.at("model"@) == body.at("model"@)
            &&& params.at("stream"@) == JsonView::Bool(true)
            &&& params.at("temperature"@) == parsed("0.3"@)->0
            &&& asked matches JsonView::Int(n) ==> 1 <= n <= 64000 ==> params.at("max_tokens"@)
                == asked
            &&& asked matches JsonView::Int(n) ==> i64::MIN <= n < 1 ==> params.at("max_tokens"@)
                == JsonView::Int(1)
            &&& asked matches JsonView::Int(n) ==> 64000 < n ==> params.at("max_tokens"@)
                == JsonView::Int(64000)
            &&& !(asked is Int) ==> params.at("max_tokens"@) == JsonView::Int(64000)
        }),
{
    lemma_words();
    let e = envelope(body, thread, dir, date, environment);
    let params = e.at("params"@);
    assert(params == generate_params(body));
    assert(params.at("model"@) == or_else(body.field("model"@), JsonView::Null));
    assert(params.at("max_tokens"@) == JsonView::Int(
        crate::commandcode::transform::token_limit(body),
    ));
}

/// The request tells the provider where it is made, when, and in what thread.
pub proof fn law_surroundings_reach_the_provider(
    body: JsonView,
    thread: Seq<char>,
    dir: Seq<char>,
    date: Seq<char>,
    environment: Seq<char>,
)
    ensures
        ({
            let out = envelope(body, thread, dir, date, environment);
            &&& out.at("threadId"@) == JsonView::Str(thread)
            &&& out.at("config"@).at("workingDir"@) == JsonView::Str(dir)
            &&& out.at("config"@).at("date"@) == JsonView::Str(date)
            &&& out.at("config"@).at("environment"@) == JsonView::Str(environment)
            &&& out.at("config"@).at("isGitRepo"@) == JsonView::Bool(false)
            &&& out.field("memory"@) == Some(JsonView::Null)
            &&& out.field("taste"@) == Some(JsonView::Null)
            &&& out.field("skills"@) == Some(JsonView::Null)
        }),
{
    lemma_words();
}

} // verus!
