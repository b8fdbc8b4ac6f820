//! Requests to Command Code's generate endpoint, and its events as Chat
//! Completions.
use vstd::prelude::*;

use crate::clock::{day_text, today};
use crate::codex::claude_request::{part_texts, part_texts_of, text_part, text_part_of};
use crate::codex::sse_bridge::opt_text;
use crate::json::{
    copy_or, items_view, obj, opt_of, or_else, parse_json, parsed, push_item, text, text_or_null,
    Json, JsonView,
};
use crate::text::{
    has_prefix, join, joined, lines, lines_of, owned, same, starts_with, strip_prefix, texts, trim,
    trimmed, without_prefix,
};

verus! {

/// The most tokens that an answer may have, and what a request gets that names
/// no number.
pub const DEFAULT_MAX_TOKENS: i64 = 64_000;

// ---------------------------------------------------------------------------
// Messages
// ---------------------------------------------------------------------------

/// The text of a content: a string, or the texts of its parts run together.
pub open spec fn content_text(content: JsonView) -> Seq<char> {
    match content {
        JsonView::Str(s) => s,
        JsonView::Array(parts) => joined(part_texts(parts), ""@),
        _ => seq![],
    }
}

fn content_text_of(content: &Json) -> (r: String)
    ensures
        r@ == content_text(content@),
{
    match content {
        Json::Str(s) => owned(s.as_str()),
        Json::Array(parts) => join(&part_texts_of(parts), ""),
        _ => String::new(),
    }
}

/// The message has this role.
pub open spec fn has_role(m: JsonView, role: Seq<char>) -> bool {
    m.at("role"@).str() == Some(role)
}

/// The ids of tool calls.
pub open spec fn ids_of(calls: Seq<JsonView>) -> Seq<Seq<char>>
    decreases calls.len(),
{
    if calls.len() == 0 {
        seq![]
    } else {
        let rest = ids_of(calls.drop_last());
        match calls.last().at("id"@).str() {
            Some(id) => rest.push(id),
            None => rest,
        }
    }
}

/// The ids of the tool calls that the assistant made.
pub open spec fn called_ids(msgs: Seq<JsonView>) -> Seq<Seq<char>>
    decreases msgs.len(),
{
    if msgs.len() == 0 {
        seq![]
    } else {
        let rest = called_ids(msgs.drop_last());
        if has_role(msgs.last(), "assistant"@) {
            rest + ids_of(msgs.last().at("tool_calls"@).items())
        } else {
            rest
        }
    }
}

/// The ids of the tool calls that were answered.
pub open spec fn answered_ids(msgs: Seq<JsonView>) -> Seq<Seq<char>>
    decreases msgs.len(),
{
    if msgs.len() == 0 {
        seq![]
    } else {
        let rest = answered_ids(msgs.drop_last());
        match msgs.last().at("tool_call_id"@).str() {
            Some(id) if has_role(msgs.last(), "tool"@) => rest.push(id),
            _ => rest,
        }
    }
}

/// A tool call with this id was made and answered.
pub open spec fn paired(msgs: Seq<JsonView>, id: Seq<char>) -> bool {
    called_ids(msgs).contains(id) && answered_ids(msgs).contains(id)
}

/// The ids of tool calls, and of answers to them.
pub struct Pairing {
    pub called: Vec<String>,
    pub answered: Vec<String>,
}

fn listed(v: &Vec<String>, id: &str) -> (r: bool)
    ensures
        r == texts(v@).contains(id@),
{
    let mut i: usize = 0;
    while i < v.len()
        invariant
            i <= v.len(),
            forall|k: int| 0 <= k < i ==> texts(v@)[k] != id@,
        decreases v.len() - i,
    {
        if same(v[i].as_str(), id) {
            assert(texts(v@)[i as int] == id@);
            return true;
        }
        i += 1;
    }
    false
}

impl Pairing {
    /// What the messages call and answer.
    pub open spec fn of(self, msgs: Seq<JsonView>) -> bool {
        texts(self.called@) == called_ids(msgs) && texts(self.answered@) == answered_ids(msgs)
    }

    fn has(&self, id: &str) -> (r: bool)
        ensures
            r == (texts(self.called@).contains(id@) && texts(self.answered@).contains(id@)),
    {
        listed(&self.called, id) && listed(&self.answered, id)
    }
}

fn push_text(v: &mut Vec<String>, s: &str)
    ensures
        texts(final(v)@) == texts(old(v)@).push(s@),
{
    v.push(owned(s));
    assert(texts(v@) =~= texts(old(v)@).push(s@));
}

fn complete_tool_call_ids(msgs: &Vec<Json>) -> (r: Pairing)
    ensures
        r.of(items_view(msgs@)),
{
    let ghost all = items_view(msgs@);
    let mut called: Vec<String> = Vec::new();
    let mut answered: Vec<String> = Vec::new();
    let mut i: usize = 0;
    assert(texts(called@) =~= called_ids(all.subrange(0, 0)));
    assert(texts(answered@) =~= answered_ids(all.subrange(0, 0)));
    while i < msgs.len()
        invariant
            i <= msgs.len(),
            all == items_view(msgs@),
            texts(called@) == called_ids(all.subrange(0, i as int)),
            texts(answered@) == answered_ids(all.subrange(0, i as int)),
        decreases msgs.len() - i,
    {
        assert(all.subrange(0, i + 1).drop_last() =~= all.subrange(0, i as int));
        assert(all.subrange(0, i + 1).last() == msgs@[i as int]@);
        let m = &msgs[i];
        if m.at("role").is_text("assistant") {
            let ghost start = texts(called@);
            let ghost given = m@.at("tool_calls"@).items();
            assert(start + ids_of(given.subrange(0, 0)) =~= start);
            match m.at("tool_calls").as_array() {
                Some(calls) => {
                    let mut j: usize = 0;
                    while j < calls.len()
                        invariant
                            j <= calls.len(),
                            given == items_view(calls@),
                            texts(called@) == start + ids_of(given.subrange(0, j as int)),
                        decreases calls.len() - j,
                    {
                        assert(given.subrange(0, j + 1).drop_last() =~= given.subrange(
                            0,
                            j as int,
                        ));
                        assert(given.subrange(0, j + 1).last() == calls@[j as int]@);
                        match calls[j].at("id").as_str() {
                            Some(id) => push_text(&mut called, id),
                            None => {},
                        }
                        j += 1;
                        assert(texts(called@) =~= start + ids_of(given.subrange(0, j as int)));
                    }
                    assert(given.subrange(0, j as int) =~= given);
                },
                None => {
                    assert(given =~= given.subrange(0, 0));
                },
            }
        }
        if m.at("role").is_text("tool") {
            match m.at("tool_call_id").as_str() {
                Some(id) => push_text(&mut answered, id),
                None => {},
            }
        }
        i += 1;
    }
    assert(all.subrange(0, i as int) =~= all);
    Pairing { called, answered }
}

/// The input of a tool call: the object that its arguments are, an empty one
/// where they are none.
pub open spec fn object_input(call: JsonView) -> JsonView {
    match call.at("function"@).at("arguments"@).str() {
        Some(s) => match parsed(s) {
            Some(v) => if v is Object {
                v
            } else {
                obj()
            },
            None => obj(),
        },
        None => obj(),
    }
}

fn object_input_of(call: &Json) -> (r: Json)
    ensures
        r@ == object_input(call@),
{
    match call.at("function").at("arguments").as_str() {
        Some(s) => match parse_json(s) {
            Some(v) => if v.is_object() {
                v
            } else {
                Json::object()
            },
            None => Json::object(),
        },
        None => Json::object(),
    }
}

/// The part that a tool call becomes.
pub open spec fn call_part(call: JsonView) -> JsonView {
    obj().put("type"@, text("tool-call"@)).put("toolCallId"@, text(call.at("id"@).str_or_empty())).put(
        "toolName"@,
        text(call.at("function"@).at("name"@).str_or_empty()),
    ).put("input"@, object_input(call))
}

fn call_part_of(call: &Json) -> (r: Json)
    ensures
        r@ == call_part(call@),
{
    Json::object().with("type", Json::text("tool-call")).with(
        "toolCallId",
        Json::text(call.at("id").str_or_empty()),
    ).with("toolName", Json::text(call.at("function").at("name").str_or_empty())).with(
        "input",
        object_input_of(call),
    )
}

/// The parts that the answered ones among the tool calls become.
pub open spec fn call_parts(calls: Seq<JsonView>, msgs: Seq<JsonView>) -> Seq<JsonView>
    decreases calls.len(),
{
    if calls.len() == 0 {
        seq![]
    } else {
        let rest = call_parts(calls.drop_last(), msgs);
        if paired(msgs, calls.last().at("id"@).str_or_empty()) {
            rest.push(call_part(calls.last()))
        } else {
            rest
        }
    }
}

/// The parts of what the assistant said and called.
pub open spec fn assistant_parts(m: JsonView, msgs: Seq<JsonView>) -> Seq<JsonView> {
    let said = content_text(m.at("content"@));
    let calls = call_parts(m.at("tool_calls"@).items(), msgs);
    if said.len() > 0 {
        seq![text_part(said)] + calls
    } else {
        calls
    }
}

/// The message that carries the answer to a tool call.
pub open spec fn result_message(m: JsonView) -> JsonView {
    let output = obj().put("type"@, text("text"@)).put(
        "value"@,
        text(content_text(m.at("content"@))),
    );
    let part = obj().put("type"@, text("tool-result"@)).put(
        "toolCallId"@,
        text(m.at("tool_call_id"@).str_or_empty()),
    ).put("output"@, output);
    obj().put("role"@, text("tool"@)).put("content"@, JsonView::Array(seq![part]))
}

/// What one message becomes, among all messages: system prompts go elsewhere,
/// tool calls and answers stay only in pairs, and an assistant with nothing to
/// say is left out.
pub open spec fn converted(m: JsonView, msgs: Seq<JsonView>) -> Option<JsonView> {
    let role = m.at("role"@).str_or("user"@);
    if role == "system"@ {
        None
    } else if role == "assistant"@ {
        if assistant_parts(m, msgs).len() > 0 {
            Some(
                obj().put("role"@, text("assistant"@)).put(
                    "content"@,
                    JsonView::Array(assistant_parts(m, msgs)),
                ),
            )
        } else {
            None
        }
    } else if role == "tool"@ {
        if paired(msgs, m.at("tool_call_id"@).str_or_empty()) {
            Some(result_message(m))
        } else {
            None
        }
    } else {
        Some(obj().put("role"@, text(role)).put("content"@, or_else(m.field("content"@), JsonView::Null)))
    }
}

/// What the first messages become, among all messages.
pub open spec fn converted_first(first: Seq<JsonView>, msgs: Seq<JsonView>) -> Seq<JsonView>
    decreases first.len(),
{
    if first.len() == 0 {
        seq![]
    } else {
        let rest = converted_first(first.drop_last(), msgs);
        match converted(first.last(), msgs) {
            Some(v) => rest.push(v),
            None => rest,
        }
    }
}

/// What the messages become.
pub open spec fn converted_messages(msgs: Seq<JsonView>) -> Seq<JsonView> {
    converted_first(msgs, msgs)
}

fn assistant_parts_of(m: &Json, pairing: &Pairing, msgs: Ghost<Seq<JsonView>>) -> (r: Vec<Json>)
    requires
        pairing.of(msgs@),
    ensures
        items_view(r@) == assistant_parts(m@, msgs@),
{
    let mut parts: Vec<Json> = Vec::new();
    let said = content_text_of(m.at("content"));
    assert(items_view(parts@) =~= seq![]);
    if !said.as_str().is_empty() {
        push_item(&mut parts, text_part_of(said.as_str()));
    }
    let ghost head = items_view(parts@);
    let ghost given = m@.at("tool_calls"@).items();
    assert(head + call_parts(given.subrange(0, 0), msgs@) =~= head);
    match m.at("tool_calls").as_array() {
        Some(calls) => {
            let mut j: usize = 0;
            while j < calls.len()
                invariant
                    j <= calls.len(),
                    pairing.of(msgs@),
                    given == items_view(calls@),
                    items_view(parts@) == head + call_parts(given.subrange(0, j as int), msgs@),
                decreases calls.len() - j,
            {
                assert(given.subrange(0, j + 1).drop_last() =~= given.subrange(0, j as int));
                assert(given.subrange(0, j + 1).last() == calls@[j as int]@);
                if pairing.has(calls[j].at("id").str_or_empty()) {
                    push_item(&mut parts, call_part_of(&calls[j]));
                }
                j += 1;
                assert(items_view(parts@) =~= head + call_parts(
                    given.subrange(0, j as int),
                    msgs@,
                ));
            }
            assert(given.subrange(0, j as int) =~= given);
        },
        None => {
            assert(given =~= given.subrange(0, 0));
        },
    }
    assert(items_view(parts@) =~= assistant_parts(m@, msgs@));
    parts
}

fn convert_message(m: &Json, pairing: &Pairing, msgs: Ghost<Seq<JsonView>>) -> (r: Option<Json>)
    requires
        pairing.of(msgs@),
    ensures
        opt_of(r) == converted(m@, msgs@),
{
    let role = m.at("role").str_or("user");
    if same(role, "system") {
        None
    } else if same(role, "assistant") {
        let parts = assistant_parts_of(m, pairing, msgs);
        if parts.len() > 0 {
            Some(
                Json::object().with("role", Json::text("assistant")).with(
                    "content",
                    Json::array(parts),
                ),
            )
        } else {
            None
        }
    } else if same(role, "tool") {
        let id = m.at("tool_call_id").str_or_empty();
        if pairing.has(id) {
            let output = Json::object().with("type", Json::text("text")).with(
                "value",
                Json::Str(content_text_of(m.at("content"))),
            );
            let part = Json::object().with("type", Json::text("tool-result")).with(
                "toolCallId",
                Json::text(id),
            ).with("output", output);
            Some(
                Json::object().with("role", Json::text("tool")).with(
                    "content",
                    Json::array1(part),
                ),
            )
        } else {
            None
        }
    } else {
        Some(
            Json::object().with("role", Json::text(role)).with(
                "content",
                copy_or(m.get("content"), Json::Null),
            ),
        )
    }
}

/// What the messages become.
pub fn convert_messages(msgs: &Vec<Json>) -> (r: Vec<Json>)
    ensures
        items_view(r@) == converted_messages(items_view(msgs@)),
{
    let ghost all = items_view(msgs@);
    let pairing = complete_tool_call_ids(msgs);
    let mut out: Vec<Json> = Vec::new();
    let mut i: usize = 0;
    assert(items_view(out@) =~= converted_first(all.subrange(0, 0), all));
    while i < msgs.len()
        invariant
            i <= msgs.len(),
            all == items_view(msgs@),
            pairing.of(all),
            items_view(out@) == converted_first(all.subrange(0, i as int), all),
        decreases msgs.len() - i,
    {
        assert(all.subrange(0, i + 1).drop_last() =~= all.subrange(0, i as int));
        assert(all.subrange(0, i + 1).last() == msgs@[i as int]@);
        match convert_message(&msgs[i], &pairing, Ghost(all)) {
            Some(v) => push_item(&mut out, v),
            None => {},
        }
        i += 1;
    }
    assert(all.subrange(0, i as int) =~= all);
    out
}

// ---------------------------------------------------------------------------
// The request
// ---------------------------------------------------------------------------

/// The tool that a Chat Completions tool becomes.
pub open spec fn converted_tool(tool: JsonView) -> JsonView {
    let f = tool.at("function"@);
    obj().put("type"@, text("function"@)).put("name"@, text(f.at("name"@).str_or_empty())).put(
        "description"@,
        text(f.at("description"@).str_or_empty()),
    ).put("input_schema"@, or_else(f.field("parameters"@), obj()))
}

/// The tools that Chat Completions tools become.
pub open spec fn converted_tools(tools: Seq<JsonView>) -> Seq<JsonView> {
    tools.map_values(|t: JsonView| converted_tool(t))
}

fn convert_tools(tools: Option<&Vec<Json>>) -> (r: Vec<Json>)
    ensures
        items_view(r@) == converted_tools(
            match tools {
                Some(v) => items_view(v@),
                None => seq![],
            },
        ),
{
    let mut out: Vec<Json> = Vec::new();
    match tools {
        Some(v) => {
            let ghost all = items_view(v@);
            let mut i: usize = 0;
            while i < v.len()
                invariant
                    i <= v.len(),
                    all == items_view(v@),
                    items_view(out@) =~= converted_tools(all.subrange(0, i as int)),
                decreases v.len() - i,
            {
                assert(all[i as int] == v@[i as int]@);
                let f = v[i].at("function");
                let schema = copy_or(f.get("parameters"), Json::object());
                push_item(
                    &mut out,
                    Json::object().with("type", Json::text("function")).with(
                        "name",
                        Json::text(f.at("name").str_or_empty()),
                    ).with("description", Json::text(f.at("description").str_or_empty())).with(
                        "input_schema",
                        schema,
                    ),
                );
                i += 1;
            }
            assert(all.subrange(0, i as int) =~= all);
        },
        None => {
            assert(items_view(out@) =~= converted_tools(seq![]));
        },
    }
    out
}

/// The texts of the system prompts that are not empty.
pub open spec fn system_texts(msgs: Seq<JsonView>) -> Seq<Seq<char>>
    decreases msgs.len(),
{
    if msgs.len() == 0 {
        seq![]
    } else {
        let rest = system_texts(msgs.drop_last());
        let t = content_text(msgs.last().at("content"@));
        if has_role(msgs.last(), "system"@) && t.len() > 0 {
            rest.push(t)
        } else {
            rest
        }
    }
}

/// The system prompt, where there is any.
pub open spec fn system_prompt(msgs: Seq<JsonView>) -> Option<Seq<char>> {
    if system_texts(msgs).len() > 0 {
        Some(joined(system_texts(msgs), "\n\n"@))
    } else {
        None
    }
}

fn system_prompt_of(msgs: &Vec<Json>) -> (r: Option<String>)
    ensures
        opt_text(r) == system_prompt(items_view(msgs@)),
{
    let ghost all = items_view(msgs@);
    let mut values: Vec<String> = Vec::new();
    let mut i: usize = 0;
    assert(texts(values@) =~= system_texts(all.subrange(0, 0)));
    while i < msgs.len()
        invariant
            i <= msgs.len(),
            all == items_view(msgs@),
            texts(values@) == system_texts(all.subrange(0, i as int)),
        decreases msgs.len() - i,
    {
        assert(all.subrange(0, i + 1).drop_last() =~= all.subrange(0, i as int));
        assert(all.subrange(0, i + 1).last() == msgs@[i as int]@);
        if msgs[i].at("role").is_text("system") {
            let t = content_text_of(msgs[i].at("content"));
            if !t.as_str().is_empty() {
                push_text(&mut values, t.as_str());
            }
        }
        i += 1;
    }
    assert(all.subrange(0, i as int) =~= all);
    assert(texts(values@).len() == values@.len());
    if values.len() > 0 {
        Some(join(&values, "\n\n"))
    } else {
        None
    }
}

/// The number of tokens that an answer may have: what the request names, kept
/// between 1 and the most.
pub open spec fn token_limit(body: JsonView) -> int {
    let asked = match body.at("max_tokens"@).int64() {
        Some(n) => n,
        None => DEFAULT_MAX_TOKENS as int,
    };
    if asked < 1 {
        1
    } else if asked > DEFAULT_MAX_TOKENS {
        DEFAULT_MAX_TOKENS as int
    } else {
        asked
    }
}

/// The parameters of a generate request.
pub open spec fn generate_params(body: JsonView) -> JsonView {
    let msgs = body.at("messages"@).items();
    obj().put("model"@, or_else(body.field("model"@), JsonView::Null)).put(
        "messages"@,
        JsonView::Array(converted_messages(msgs)),
    ).put("tools"@, JsonView::Array(converted_tools(body.at("tools"@).items()))).put(
        "max_tokens"@,
        JsonView::Int(token_limit(body)),
    ).put("temperature"@, parsed("0.3"@)->0).put("stream"@, JsonView::Bool(true)).put(
        "system"@,
        text_or_null(system_prompt(msgs)),
    )
}

/// A generate request: the parameters with what surrounds them.
pub open spec fn envelope(
    body: JsonView,
    thread: Seq<char>,
    dir: Seq<char>,
    date: Seq<char>,
    environment: Seq<char>,
) -> JsonView {
    let none = JsonView::Array(seq![]);
    let config = obj().put("workingDir"@, text(dir)).put("date"@, text(date)).put(
        "environment"@,
        text(environment),
    ).put("structure"@, none).put("isGitRepo"@, JsonView::Bool(false)).put(
        "currentBranch"@,
        text(""@),
    ).put("mainBranch"@, text(""@)).put("gitStatus"@, text(""@)).put("recentCommits"@, none);
    obj().put("config"@, config).put("memory"@, JsonView::Null).put("taste"@, JsonView::Null).put(
        "skills"@,
        JsonView::Null,
    ).put("params"@, generate_params(body)).put("threadId"@, text(thread))
}

fn generate_params_of(body: &Json) -> (r: Json)
    ensures
        r@ == generate_params(body@),
{
    let none: Vec<Json> = Vec::new();
    let msgs = match body.at("messages").as_array() {
        Some(v) => v,
        None => &none,
    };
    assert(items_view(msgs@) =~= body@.at("messages"@).items());
    let tools = convert_tools(body.at("tools").as_array());
    assert(items_view(tools@) =~= converted_tools(body@.at("tools"@).items()));
    let asked: i64 = match body.at("max_tokens").as_i64() {
        Some(n) => n,
        None => DEFAULT_MAX_TOKENS,
    };
    let limit: i64 = if asked < 1 {
        1
    } else if asked > DEFAULT_MAX_TOKENS {
        DEFAULT_MAX_TOKENS
    } else {
        asked
    };
    proof {
        reveal_strlit("0.3");
    }
    let temperature = match parse_json("0.3") {
        Some(t) => t,
        None => Json::Null,
    };
    let system = match system_prompt_of(msgs) {
        Some(s) => Json::Str(s),
        None => Json::Null,
    };
    Json::object().with("model", copy_or(body.get("model"), Json::Null)).with(
        "messages",
        Json::array(convert_messages(msgs)),
    ).with("tools", Json::array(tools)).with("max_tokens", Json::signed(limit)).with(
        "temperature",
        temperature,
    ).with("stream", Json::Bool(true)).with("system", system)
}

/// A generate request of a given day.
pub fn envelope_of(
    body: &Json,
    thread_id: &str,
    working_dir: &str,
    date: &str,
    environment: &str,
) -> (r: Json)
    ensures
        r@ == envelope(body@, thread_id@, working_dir@, date@, environment@),
{
    let structure: Vec<Json> = Vec::new();
    let commits: Vec<Json> = Vec::new();
    assert(items_view(structure@) =~= seq![]);
    assert(items_view(commits@) =~= seq![]);
    let config = Json::object().with("workingDir", Json::text(working_dir)).with(
        "date",
        Json::text(date),
    ).with("environment", Json::text(environment)).with("structure", Json::array(structure)).with(
        "isGitRepo",
        Json::Bool(false),
    ).with("currentBranch", Json::text("")).with("mainBranch", Json::text("")).with(
        "gitStatus",
        Json::text(""),
    ).with("recentCommits", Json::array(commits));
    Json::object().with("config", config).with("memory", Json::Null).with(
        "taste",
        Json::Null,
    ).with("skills", Json::Null).with("params", generate_params_of(body)).with(
        "threadId",
        Json::text(thread_id),
    )
}

/// Chat Completions request body -> generate request of today.
pub fn transform_request(
    client_json: &Json,
    thread_id: &str,
    working_dir: &str,
    environment: &str,
) -> (r: Json)
    ensures
        exists|date: Seq<char>|
            day_text(date) && r@ == #[trigger] envelope(
                client_json@,
                thread_id@,
                working_dir@,
                date,
                environment@,
            ),
{
    let date = today();
    envelope_of(client_json, thread_id, working_dir, date.as_str(), environment)
}

// ---------------------------------------------------------------------------
// Events
// ---------------------------------------------------------------------------

/// The text of JSON that a line may hold: comments, event names and the end
/// marker hold none.
pub open spec fn line_json(line: Seq<char>) -> Option<Seq<char>> {
    let l = trimmed(line);
    if l.len() == 0 || has_prefix(l, ":"@) || has_prefix(l, "event:"@) {
        None
    } else {
        let rest = match without_prefix(l, "data:"@) {
            Some(r) => trimmed(r),
            None => l,
        };
        if rest.len() == 0 || rest == "[DONE]"@ {
            None
        } else {
            Some(rest)
        }
    }
}

/// The event that a line holds.
pub open spec fn line_event(line: Seq<char>) -> Option<JsonView> {
    match line_json(line) {
        Some(t) => parsed(t),
        None => None,
    }
}

/// Reads the event that a line holds.
pub fn parse_event_line(line: &str) -> (r: Option<Json>)
    ensures
        opt_of(r) == line_event(line@),
{
    let l = trim(line);
    if l.as_str().is_empty() || starts_with(l.as_str(), ":") || starts_with(l.as_str(), "event:") {
        return None;
    }
    let rest = match strip_prefix(l.as_str(), "data:") {
        Some(r) => trim(r.as_str()),
        None => l,
    };
    if rest.as_str().is_empty() || same(rest.as_str(), "[DONE]") {
        return None;
    }
    parse_json(rest.as_str())
}

/// The events that lines hold.
pub open spec fn line_events(ls: Seq<Seq<char>>) -> Seq<JsonView>
    decreases ls.len(),
{
    if ls.len() == 0 {
        seq![]
    } else {
        let rest = line_events(ls.drop_last());
        match line_event(ls.last()) {
            Some(e) => rest.push(e),
            None => rest,
        }
    }
}

/// The events of a whole body.
pub open spec fn body_events(body: Seq<char>) -> Seq<JsonView> {
    line_events(lines_of(body))
}

/// Reads the events of a whole body.
pub fn events(body: &str) -> (r: Vec<Json>)
    ensures
        items_view(r@) == body_events(body@),
{
    let ls = lines(body);
    let ghost all = lines_of(body@);
    let mut out: Vec<Json> = Vec::new();
    let mut i: usize = 0;
    assert(items_view(out@) =~= line_events(all.subrange(0, 0)));
    while i < ls.len()
        invariant
            i <= ls.len(),
            all == texts(ls@),
            items_view(out@) == line_events(all.subrange(0, i as int)),
        decreases ls.len() - i,
    {
        assert(all.subrange(0, i + 1).drop_last() =~= all.subrange(0, i as int));
        assert(all.subrange(0, i + 1).last() == ls@[i as int]@);
        match parse_event_line(ls[i].as_str()) {
            Some(e) => push_item(&mut out, e),
            None => {},
        }
        i += 1;
    }
    assert(all.subrange(0, i as int) =~= all);
    out
}

/// What an error event reports.
pub open spec fn error_text(event: JsonView) -> Seq<char> {
    match event.at("error"@).str() {
        Some(s) => s,
        None => event.at("error"@).at("message"@).str_or("upstream error"@),
    }
}

/// What the first error event reports.
pub open spec fn first_error(events: Seq<JsonView>) -> Option<Seq<char>>
    decreases events.len(),
{
    if events.len() == 0 {
        None
    } else if events[0].at("type"@).str() == Some("error"@) {
        Some(error_text(events[0]))
    } else {
        first_error(events.subrange(1, events.len() as int))
    }
}

/// What the first error event reports.
pub fn error_in_events(events: &Vec<Json>) -> (r: Option<String>)
    ensures
        opt_text(r) == first_error(items_view(events@)),
{
    let ghost all = items_view(events@);
    let mut i: usize = 0;
    assert(all.subrange(0, all.len() as int) =~= all);
    while i < events.len()
        invariant
            i <= events.len(),
            all == items_view(events@),
            first_error(all) == first_error(all.subrange(i as int, all.len() as int)),
        decreases events.len() - i,
    {
        let ghost rest = all.subrange(i as int, all.len() as int);
        assert(rest[0] == events@[i as int]@);
        assert(rest.subrange(1, rest.len() as int) =~= all.subrange(i + 1, all.len() as int));
        if events[i].at("type").is_text("error") {
            let error = events[i].at("error");
            return match error.as_str() {
                Some(s) => Some(owned(s)),
                None => Some(owned(error.at("message").str_or("upstream error"))),
            };
        }
        i += 1;
    }
    None
}

/// What the first error event of a body reports.
pub fn ndjson_embedded_error(body: &str) -> (r: Option<String>)
    ensures
        opt_text(r) == first_error(body_events(body@)),
{
    error_in_events(&events(body))
}

// ---------------------------------------------------------------------------
// Calls and answers
// ---------------------------------------------------------------------------

/// A message of this role has a part of this kind for the tool call `id`.
pub open spec fn mentions(
    m: JsonView,
    role: Seq<char>,
    kind: Seq<char>,
    id: Seq<char>,
) -> bool {
    has_role(m, role) && exists|j: int|
        0 <= j < m.at("content"@).items().len() && (#[trigger] m.at("content"@).items()[j]).at(
            "type"@,
        ).str() == Some(kind) && m.at("content"@).items()[j].at("toolCallId"@).str() == Some(id)
}

/// The assistant calls a tool under this id.
pub open spec fn calls(m: JsonView, id: Seq<char>) -> bool {
    mentions(m, "assistant"@, "tool-call"@, id)
}

/// A tool answers under this id.
pub open spec fn answers(m: JsonView, id: Seq<char>) -> bool {
    mentions(m, "tool"@, "tool-result"@, id)
}

/// Some message satisfies `p`.
pub open spec fn some(msgs: Seq<JsonView>, p: spec_fn(JsonView) -> bool) -> bool {
    exists|i: int| 0 <= i < msgs.len() && p(#[trigger] msgs[i])
}

/// The words of parts differ.
proof fn lemma_part_words()
    ensures
        "role"@ != "content"@,
        "type"@ != "toolCallId"@,
        "type"@ != "toolName"@,
        "type"@ != "input"@,
        "type"@ != "output"@,
        "type"@ != "text"@,
        "toolCallId"@ != "toolName"@,
        "toolCallId"@ != "input"@,
        "toolCallId"@ != "output"@,
        "text"@ != "tool-call"@,
        "assistant"@ != "tool"@,
        "assistant"@ != "system"@,
        "tool"@ != "system"@,
        "user"@ != "assistant"@,
        "user"@ != "tool"@,
        ""@.len() == 0,
{
    reveal_strlit("role");
    reveal_strlit("content");
    reveal_strlit("type");
    reveal_strlit("toolCallId");
    reveal_strlit("toolName");
    reveal_strlit("input");
    reveal_strlit("output");
    reveal_strlit("text");
    reveal_strlit("tool-call");
    reveal_strlit("assistant");
    reveal_strlit("tool");
    reveal_strlit("system");
    reveal_strlit("user");
    reveal_strlit("");
    assert("role"@.len() == 4);
    assert("content"@.len() == 7);
    assert("type"@.len() == 4 && "type"@[1] == 'y');
    assert("toolCallId"@.len() == 10);
    assert("toolName"@.len() == 8);
    assert("input"@.len() == 5);
    assert("output"@.len() == 6);
    assert("text"@.len() == 4 && "text"@[1] == 'e');
    assert("tool-call"@.len() == 9);
    assert("assistant"@.len() == 9);
    assert("tool"@.len() == 4 && "tool"@[0] == 't');
    assert("system"@.len() == 6);
    assert("user"@.len() == 4 && "user"@[0] == 'u');
}

/// What a message becomes is among what all of them become.
proof fn lemma_converted_is_in(first: Seq<JsonView>, msgs: Seq<JsonView>, k: int)
    requires
        0 <= k < first.len(),
        converted(first[k], msgs) is Some,
    ensures
        converted_first(first, msgs).contains(converted(first[k], msgs)->Some_0),
    decreases first.len(),
{
    let v = converted(first[k], msgs)->Some_0;
    let rest = converted_first(first.drop_last(), msgs);
    if k == first.len() - 1 {
        assert(converted_first(first, msgs)[rest.len() as int] == v);
    } else {
        lemma_converted_is_in(first.drop_last(), msgs, k);
        let i = rest.index_of(v);
        assert(converted_first(first, msgs)[i] == v);
    }
}

/// What is among them was some message.
proof fn lemma_converted_was(first: Seq<JsonView>, msgs: Seq<JsonView>, i: int) -> (k: int)
    requires
        0 <= i < converted_first(first, msgs).len(),
    ensures
        0 <= k < first.len(),
        converted(first[k], msgs) == Some(converted_first(first, msgs)[i]),
    decreases first.len(),
{
    let rest = converted_first(first.drop_last(), msgs);
    if i < rest.len() {
        lemma_converted_was(first.drop_last(), msgs, i)
    } else {
        first.len() - 1
    }
}

/// The ids of calls come from calls.
proof fn lemma_id_from_call(given: Seq<JsonView>, id: Seq<char>) -> (j: int)
    requires
        ids_of(given).contains(id),
    ensures
        0 <= j < given.len(),
        given[j].at("id"@).str() == Some(id),
    decreases given.len(),
{
    let rest = ids_of(given.drop_last());
    let i = ids_of(given).index_of(id);
    if given.last().at("id"@).str() == Some(id) {
        given.len() - 1
    } else {
        assert(rest[i] == id);
        lemma_id_from_call(given.drop_last(), id)
    }
}

/// An id that was called comes from a message of the assistant.
proof fn lemma_called_by(msgs: Seq<JsonView>, id: Seq<char>) -> (k: int)
    requires
        called_ids(msgs).contains(id),
    ensures
        0 <= k < msgs.len(),
        has_role(msgs[k], "assistant"@),
        ids_of(msgs[k].at("tool_calls"@).items()).contains(id),
    decreases msgs.len(),
{
    let rest = called_ids(msgs.drop_last());
    let i = called_ids(msgs).index_of(id);
    if i < rest.len() {
        assert(rest[i] == id);
        lemma_called_by(msgs.drop_last(), id)
    } else {
        let own = ids_of(msgs.last().at("tool_calls"@).items());
        assert(own[i - rest.len()] == id);
        msgs.len() - 1
    }
}

/// An id that was answered comes from a message of a tool.
proof fn lemma_answered_by(msgs: Seq<JsonView>, id: Seq<char>) -> (k: int)
    requires
        answered_ids(msgs).contains(id),
    ensures
        0 <= k < msgs.len(),
        has_role(msgs[k], "tool"@),
        msgs[k].at("tool_call_id"@).str() == Some(id),
    decreases msgs.len(),
{
    let rest = answered_ids(msgs.drop_last());
    let i = answered_ids(msgs).index_of(id);
    if i < rest.len() {
        assert(rest[i] == id);
        lemma_answered_by(msgs.drop_last(), id)
    } else {
        msgs.len() - 1
    }
}

/// A paired call becomes a part.
proof fn lemma_call_part_is_in(given: Seq<JsonView>, msgs: Seq<JsonView>, j: int)
    requires
        0 <= j < given.len(),
        paired(msgs, given[j].at("id"@).str_or_empty()),
    ensures
        call_parts(given, msgs).contains(call_part(given[j])),
    decreases given.len(),
{
    let rest = call_parts(given.drop_last(), msgs);
    if j == given.len() - 1 {
        assert(call_parts(given, msgs)[rest.len() as int] == call_part(given[j]));
    } else {
        lemma_call_part_is_in(given.drop_last(), msgs, j);
        let i = rest.index_of(call_part(given[j]));
        assert(call_parts(given, msgs)[i] == call_part(given[j]));
    }
}

/// A part was a paired call.
proof fn lemma_call_part_was(given: Seq<JsonView>, msgs: Seq<JsonView>, i: int) -> (j: int)
    requires
        0 <= i < call_parts(given, msgs).len(),
    ensures
        0 <= j < given.len(),
        paired(msgs, given[j].at("id"@).str_or_empty()),
        call_parts(given, msgs)[i] == call_part(given[j]),
    decreases given.len(),
{
    let rest = call_parts(given.drop_last(), msgs);
    if i < rest.len() {
        lemma_call_part_was(given.drop_last(), msgs, i)
    } else {
        given.len() - 1
    }
}

proof fn lemma_part_fields(call: JsonView, m: JsonView, said: Seq<char>)
    ensures
        call_part(call).at("type"@).str() == Some("tool-call"@),
        call_part(call).at("toolCallId"@).str() == Some(call.at("id"@).str_or_empty()),
        text_part(said).at("type"@).str() == Some("text"@),
        has_role(result_message(m), "tool"@),
        result_message(m).at("content"@).items().len() == 1,
        result_message(m).at("content"@).items()[0].at("type"@).str() == Some("tool-result"@),
        result_message(m).at("content"@).items()[0].at("toolCallId"@).str() == Some(
            m.at("tool_call_id"@).str_or_empty(),
        ),
{
    lemma_part_words();
    let c = call_part(call);
    assert(c.at("type"@) == text("tool-call"@));
    assert(c.at("toolCallId"@) == text(call.at("id"@).str_or_empty()));
    let t = text_part(said);
    assert(t.at("type"@) == text("text"@));
    let r = result_message(m);
    assert(r.at("role"@) == text("tool"@));
    let part = r.at("content"@).items()[0];
    assert(part.at("type"@) == text("tool-result"@));
    assert(part.at("toolCallId"@) == text(m.at("tool_call_id"@).str_or_empty()));
}

/// A converted message that calls or answers under an id does so in a pair.
proof fn lemma_mentions_are_paired(m: JsonView, msgs: Seq<JsonView>, id: Seq<char>)
    requires
        converted(m, msgs) matches Some(v) && (calls(v, id) || answers(v, id)),
    ensures
        paired(msgs, id),
{
    lemma_part_words();
    let v = converted(m, msgs)->Some_0;
    let role = m.at("role"@).str_or("user"@);
    let parts = v.at("content"@).items();
    if role == "assistant"@ {
        assert(v.at("role"@) == text("assistant"@));
        assert(v.at("content"@) == JsonView::Array(assistant_parts(m, msgs)));
        let j = choose|j: int|
            0 <= j < parts.len() && (#[trigger] parts[j]).at("type"@).str() == Some("tool-call"@)
                && parts[j].at("toolCallId"@).str() == Some(id);
        let said = content_text(m.at("content"@));
        let given = m.at("tool_calls"@).items();
        lemma_part_fields(m, m, said);
        let n: int = if said.len() > 0 {
            1
        } else {
            0
        };
        if j < n {
            assert(parts[j] == text_part(said));
        } else {
            assert(parts[j] == call_parts(given, msgs)[j - n]);
            let k = lemma_call_part_was(given, msgs, j - n);
            lemma_part_fields(given[k], m, said);
        }
    } else if role == "tool"@ {
        lemma_part_fields(m, m, seq![]);
    } else {
        assert(v.at("role"@) == text(role));
    }
}

/// A tool call and its answer reach the provider together or not at all.
pub proof fn law_calls_and_answers_go_together(msgs: Seq<JsonView>, id: Seq<char>)
    ensures
        some(converted_messages(msgs), |m: JsonView| calls(m, id)) <==> some(
            converted_messages(msgs),
            |m: JsonView| answers(m, id),
        ),
{
    lemma_part_words();
    let out = converted_messages(msgs);
    let is_call = |m: JsonView| calls(m, id);
    let is_answer = |m: JsonView| answers(m, id);
    if some(out, is_call) || some(out, is_answer) {
        let i = choose|i: int| 0 <= i < out.len() && (is_call(#[trigger] out[i]) || is_answer(out[i]));
        let k = lemma_converted_was(msgs, msgs, i);
        lemma_mentions_are_paired(msgs[k], msgs, id);
        // The answer is there.
        let a = lemma_answered_by(msgs, id);
        lemma_part_fields(msgs[a], msgs[a], seq![]);
        lemma_converted_is_in(msgs, msgs, a);
        let x = out.index_of(result_message(msgs[a]));
        assert(answers(out[x], id)) by {
            assert(out[x].at("content"@).items()[0].at("type"@).str() == Some("tool-result"@));
        }
        assert(is_answer(out[x]));
        // So is the call.
        let c = lemma_called_by(msgs, id);
        let given = msgs[c].at("tool_calls"@).items();
        let j = lemma_id_from_call(given, id);
        lemma_call_part_is_in(given, msgs, j);
        let parts = assistant_parts(msgs[c], msgs);
        let said = content_text(msgs[c].at("content"@));
        let own = call_parts(given, msgs);
        let p = own.index_of(call_part(given[j]));
        let n: int = if said.len() > 0 {
            1
        } else {
            0
        };
        assert(parts[p + n] == call_part(given[j]));
        lemma_part_fields(given[j], msgs[c], said);
        lemma_converted_is_in(msgs, msgs, c);
        let v = converted(msgs[c], msgs)->Some_0;
        assert(v.at("role"@) == text("assistant"@));
        assert(v.at("content"@) == JsonView::Array(parts));
        let y = out.index_of(v);
        assert(calls(out[y], id)) by {
            assert(out[y].at("content"@).items()[p + n].at("type"@).str() == Some("tool-call"@));
        }
        assert(is_call(out[y]));
    }
}

} // verus!
