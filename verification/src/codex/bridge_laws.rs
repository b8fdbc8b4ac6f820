//! What a request says, whatever its wire format: both bridges keep it.
use vstd::prelude::*;

use crate::codex::claude_message::{claude_reply, openai_counts, openai_reply, spoken};
use crate::codex::claude_request::{
    block_calls, block_results, block_texts, call_input, claude_message, claude_messages,
    claude_request, claude_tool_choice, claude_tools, message, openai_conversation,
    openai_messages, openai_messages_of, openai_request, openai_tool, openai_tool_choice,
    system_parts, text_part, tool_call, tool_use, tool_uses,
};
use crate::json::{obj, reads_back, text, JsonView};
use crate::text::joined;

verus! {

// ---------------------------------------------------------------------------
// Turns of a conversation
// ---------------------------------------------------------------------------

/// A call of a tool.
pub struct Call {
    pub id: Seq<char>,
    pub name: Seq<char>,
    pub input: JsonView,
}

/// One turn of a conversation.
pub enum Turn {
    /// The user says something.
    Asked(Seq<char>),
    /// The assistant says something.
    Said(Seq<char>),
    /// The assistant calls tools, and may say something first.
    Called(Seq<char>, Seq<Call>),
    /// A tool returns a text.
    Returned(Seq<char>, Seq<char>),
}

/// A turn that both formats can say: its calls are there, and their inputs can
/// be written as text and read again.
pub open spec fn sayable(t: Turn) -> bool {
    match t {
        Turn::Called(_, calls) => calls.len() > 0 && forall|i: int|
            0 <= i < calls.len() ==> reads_back((#[trigger] calls[i]).input),
        _ => true,
    }
}

/// A call in an Anthropic message.
pub open spec fn use_block(c: Call) -> JsonView {
    obj().put("type"@, text("tool_use"@)).put("id"@, text(c.id)).put("name"@, text(c.name)).put(
        "input"@,
        c.input,
    )
}

/// A call in a Chat Completions message.
pub open spec fn call_object(c: Call) -> JsonView {
    obj().put("id"@, text(c.id)).put("type"@, text("function"@)).put(
        "function"@,
        obj().put("name"@, text(c.name)).put("arguments"@, text(crate::json::printed(c.input))),
    )
}

/// Calls in an Anthropic message.
pub open spec fn use_blocks(calls: Seq<Call>) -> Seq<JsonView> {
    calls.map_values(|c: Call| use_block(c))
}

/// Calls in a Chat Completions message.
pub open spec fn call_objects(calls: Seq<Call>) -> Seq<JsonView> {
    calls.map_values(|c: Call| call_object(c))
}

/// What is said before calls, where anything is.
pub open spec fn said_block(said: Seq<char>) -> Seq<JsonView> {
    if said.len() > 0 {
        seq![text_part(said)]
    } else {
        seq![]
    }
}

/// A turn as an Anthropic message.
pub open spec fn claude_turn(t: Turn) -> JsonView {
    match t {
        Turn::Asked(s) => message("user"@, text(s)),
        Turn::Said(s) => message("assistant"@, text(s)),
        Turn::Called(said, calls) => message(
            "assistant"@,
            JsonView::Array(said_block(said) + use_blocks(calls)),
        ),
        Turn::Returned(id, s) => message(
            "user"@,
            JsonView::Array(
                seq![
                    obj().put("type"@, text("tool_result"@)).put("tool_use_id"@, text(id)).put(
                        "content"@,
                        text(s),
                    ),
                ],
            ),
        ),
    }
}

/// A turn as a Chat Completions message.
pub open spec fn openai_turn(t: Turn) -> JsonView {
    match t {
        Turn::Asked(s) => message("user"@, text(s)),
        Turn::Said(s) => message("assistant"@, text(s)),
        Turn::Called(said, calls) => {
            let assistant = obj().put("role"@, text("assistant"@));
            let spoken = if said.len() > 0 {
                assistant.put("content"@, text(said))
            } else {
                assistant
            };
            spoken.put("tool_calls"@, JsonView::Array(call_objects(calls)))
        },
        Turn::Returned(id, s) => obj().put("role"@, text("tool"@)).put(
            "tool_call_id"@,
            text(id),
        ).put("content"@, text(s)),
    }
}

/// The words of messages differ.
proof fn lemma_message_words()
    ensures
        "role"@ != "content"@,
        "role"@ != "tool_calls"@,
        "role"@ != "tool_call_id"@,
        "content"@ != "tool_calls"@,
        "content"@ != "tool_call_id"@,
        "type"@ != "id"@,
        "type"@ != "name"@,
        "type"@ != "input"@,
        "type"@ != "text"@,
        "type"@ != "function"@,
        "type"@ != "tool_use_id"@,
        "type"@ != "content"@,
        "id"@ != "name"@,
        "id"@ != "input"@,
        "id"@ != "function"@,
        "name"@ != "input"@,
        "name"@ != "arguments"@,
        "text"@ != "input"@,
        "text"@ != "id"@,
        "text"@ != "name"@,
        "tool_use_id"@ != "content"@,
        "text"@ != "tool_use"@,
        "text"@ != "tool_result"@,
        "text"@ != "image"@,
        "tool_use"@ != "tool_result"@,
        "tool_use"@ != "image"@,
        "tool_result"@ != "image"@,
        "user"@ != "system"@,
        "assistant"@ != "system"@,
        "tool"@ != "system"@,
        "user"@ != "tool"@,
        "assistant"@ != "tool"@,
        "user"@ != "assistant"@,
        ""@.len() == 0,
{
    reveal_strlit("role");
    reveal_strlit("content");
    reveal_strlit("tool_calls");
    reveal_strlit("tool_call_id");
    reveal_strlit("type");
    reveal_strlit("id");
    reveal_strlit("name");
    reveal_strlit("input");
    reveal_strlit("text");
    reveal_strlit("function");
    reveal_strlit("arguments");
    reveal_strlit("tool_use_id");
    reveal_strlit("tool_use");
    reveal_strlit("tool_result");
    reveal_strlit("image");
    reveal_strlit("user");
    reveal_strlit("assistant");
    reveal_strlit("tool");
    reveal_strlit("system");
    reveal_strlit("");
    assert("role"@.len() == 4);
    assert("content"@.len() == 7);
    assert("tool_calls"@.len() == 10);
    assert("tool_call_id"@.len() == 12);
    assert("type"@.len() == 4);
    assert("id"@.len() == 2);
    assert("name"@.len() == 4);
    assert("input"@.len() == 5);
    assert("text"@.len() == 4);
    assert("function"@.len() == 8);
    assert("arguments"@.len() == 9);
    assert("tool_use_id"@.len() == 11);
    assert("tool_use"@.len() == 8);
    assert("tool_result"@.len() == 11);
    assert("image"@.len() == 5);
    assert("user"@.len() == 4);
    assert("assistant"@.len() == 9);
    assert("tool"@.len() == 4);
    assert("system"@.len() == 6);
    assert(""@.len() == 0);
    assert("type"@[0] != "name"@[0]);
    assert("type"@[1] != "text"@[1]);
    assert("text"@[0] != "name"@[0]);
    assert("user"@[0] != "tool"@[0]);
}

/// One way: a `tool_use` block becomes the call that it stands for.
proof fn lemma_use_becomes_call(c: Call)
    ensures
        tool_call(use_block(c)) == call_object(c),
        use_block(c).at("type"@).str() == Some("tool_use"@),
{
    lemma_message_words();
    let b = use_block(c);
    assert(b.field("id"@) == Some(text(c.id)));
    assert(b.field("name"@) == Some(text(c.name)));
    assert(b.field("input"@) == Some(c.input));
}

/// The other way: the call becomes the `tool_use` block that it stands for.
proof fn lemma_call_becomes_use(c: Call)
    requires
        reads_back(c.input),
    ensures
        tool_use(call_object(c), call_input(call_object(c))) == use_block(c),
{
    lemma_message_words();
    let tc = call_object(c);
    assert(tc.field("id"@) == Some(text(c.id)));
    assert(tc.at("function"@).at("name"@) == text(c.name));
    assert(tc.at("function"@).at("arguments"@) == text(crate::json::printed(c.input)));
    assert(call_input(tc) == c.input);
}

/// What the bridge finds in the blocks of a turn that calls tools.
proof fn lemma_blocks_of_calls(said: Seq<char>, calls: Seq<Call>)
    ensures
        block_calls(said_block(said) + use_blocks(calls)) == call_objects(calls),
        block_results(said_block(said) + use_blocks(calls)).len() == 0,
        block_texts(said_block(said) + use_blocks(calls)) == (if said.len() > 0 {
            seq![said]
        } else {
            seq![]
        }),
    decreases calls.len(),
{
    lemma_message_words();
    let blocks = said_block(said) + use_blocks(calls);
    if calls.len() == 0 {
        assert(blocks =~= said_block(said));
        assert(call_objects(calls) =~= seq![]);
        if said.len() > 0 {
            let b = text_part(said);
            assert(blocks.drop_last() =~= seq![]);
            assert(blocks.last() == b);
            assert(b.at("type"@) == text("text"@));
            assert(b.at("text"@) == text(said));
            assert(block_calls(blocks.drop_last()) =~= seq![]);
            assert(block_results(blocks.drop_last()) =~= seq![]);
            assert(block_texts(blocks.drop_last()) =~= seq![]);
            assert(block_texts(blocks) =~= seq![said]);
        }
    } else {
        lemma_blocks_of_calls(said, calls.drop_last());
        lemma_use_becomes_call(calls.last());
        let b = use_block(calls.last());
        assert(blocks.drop_last() =~= said_block(said) + use_blocks(calls.drop_last()));
        assert(blocks.last() == b);
        assert(call_objects(calls) =~= call_objects(calls.drop_last()).push(
            call_object(calls.last()),
        ));
        assert(b.at("type"@) == text("tool_use"@));
    }
}

/// The Chat Completions message of a turn is what its Anthropic message becomes.
pub proof fn law_turn_to_openai(t: Turn)
    requires
        sayable(t),
    ensures
        openai_messages(claude_turn(t)) == seq![openai_turn(t)],
{
    lemma_message_words();
    let m = claude_turn(t);
    match t {
        Turn::Asked(s) => {
            assert(m.at("role"@) == text("user"@));
            assert(m.at("content"@) == text(s));
        },
        Turn::Said(s) => {
            assert(m.at("role"@) == text("assistant"@));
            assert(m.at("content"@) == text(s));
        },
        Turn::Called(said, calls) => {
            let blocks = said_block(said) + use_blocks(calls);
            assert(m.at("content"@) == JsonView::Array(blocks));
            lemma_blocks_of_calls(said, calls);
            if said.len() > 0 {
                assert(joined(seq![said], ""@) =~= said);
            }
        },
        Turn::Returned(id, s) => {
            let b = obj().put("type"@, text("tool_result"@)).put("tool_use_id"@, text(id)).put(
                "content"@,
                text(s),
            );
            let blocks = seq![b];
            assert(m.at("content"@) == JsonView::Array(blocks));
            assert(blocks.drop_last() =~= seq![]);
            assert(b.at("type"@) == text("tool_result"@));
            assert(b.field("tool_use_id"@) == Some(text(id)));
            assert(b.field("content"@) == Some(text(s)));
            assert(block_results(blocks.drop_last()) =~= seq![]);
            assert(block_results(blocks) =~= seq![openai_turn(t)]);
            assert(block_texts(blocks.drop_last()) =~= seq![]);
            assert(block_texts(blocks).len() == 0);
        },
    }
}

/// The Anthropic message of a turn is what its Chat Completions message becomes.
pub proof fn law_turn_to_claude(t: Turn)
    requires
        sayable(t),
    ensures
        openai_turn(t).at("role"@).str() matches Some(role) && role != "system"@ && claude_message(
            openai_turn(t),
            role,
        ) == claude_turn(t),
{
    lemma_message_words();
    let m = openai_turn(t);
    match t {
        Turn::Asked(s) => {
            assert(m.at("role"@) == text("user"@));
            assert(m.at("content"@) == text(s));
        },
        Turn::Said(s) => {
            assert(m.at("role"@) == text("assistant"@));
            assert(m.at("content"@) == text(s));
            assert(m.at("tool_calls"@) == JsonView::Null);
        },
        Turn::Called(said, calls) => {
            assert(m.at("role"@) == text("assistant"@));
            assert(m.at("tool_calls"@) == JsonView::Array(call_objects(calls)));
            assert(tool_uses(call_objects(calls)) =~= use_blocks(calls)) by {
                assert forall|i: int| 0 <= i < calls.len() implies tool_uses(
                    call_objects(calls),
                )[i] == use_blocks(calls)[i] by {
                    lemma_call_becomes_use(calls[i]);
                }
            }
            if said.len() > 0 {
                assert(m.at("content"@) == text(said));
            } else {
                assert(m.at("content"@) == JsonView::Null);
                assert(said_block(said) + use_blocks(calls) =~= use_blocks(calls));
            }
        },
        Turn::Returned(id, s) => {
            assert(m.at("role"@) == text("tool"@));
            assert(m.field("tool_call_id"@) == Some(text(id)));
            assert(m.at("content"@) == text(s));
        },
    }
}

// ---------------------------------------------------------------------------
// Requests
// ---------------------------------------------------------------------------

/// A tool that is offered.
pub struct Offer {
    pub name: Seq<char>,
    pub description: Seq<char>,
    pub schema: JsonView,
}

/// Which tools are to be called.
pub enum Choice {
    Auto,
    Any,
    Named(Seq<char>),
}

/// A request, whatever its wire format.
pub struct Talk {
    /// The system prompt, empty where there is none.
    pub system: Seq<char>,
    pub turns: Seq<Turn>,
    pub model: Option<JsonView>,
    pub stream: Option<JsonView>,
    pub max_tokens: JsonView,
    pub temperature: Option<JsonView>,
    pub tools: Option<Seq<Offer>>,
    pub choice: Option<Choice>,
}

/// A request that both formats can say.
pub open spec fn sayable_talk(q: Talk) -> bool {
    forall|i: int| 0 <= i < q.turns.len() ==> sayable(#[trigger] q.turns[i])
}

/// An offer in an Anthropic request.
pub open spec fn claude_offer(o: Offer) -> JsonView {
    obj().put("name"@, text(o.name)).put("description"@, text(o.description)).put(
        "input_schema"@,
        o.schema,
    )
}

/// An offer in a Chat Completions request.
pub open spec fn openai_offer(o: Offer) -> JsonView {
    obj().put("type"@, text("function"@)).put(
        "function"@,
        obj().put("name"@, text(o.name)).put("description"@, text(o.description)).put(
            "parameters"@,
            o.schema,
        ),
    )
}

/// A choice in an Anthropic request.
pub open spec fn claude_choice(c: Choice) -> JsonView {
    match c {
        Choice::Auto => obj().put("type"@, text("auto"@)),
        Choice::Any => obj().put("type"@, text("any"@)),
        Choice::Named(name) => obj().put("type"@, text("tool"@)).put("name"@, text(name)),
    }
}

/// A choice in a Chat Completions request.
pub open spec fn openai_choice(c: Choice) -> JsonView {
    match c {
        Choice::Auto => text("auto"@),
        Choice::Any => text("required"@),
        Choice::Named(name) => obj().put("type"@, text("function"@)).put(
            "function"@,
            obj().put("name"@, text(name)),
        ),
    }
}

/// Turns as Anthropic messages.
pub open spec fn claude_turns(turns: Seq<Turn>) -> Seq<JsonView> {
    turns.map_values(|t: Turn| claude_turn(t))
}

/// Turns as Chat Completions messages.
pub open spec fn openai_turns(turns: Seq<Turn>) -> Seq<JsonView> {
    turns.map_values(|t: Turn| openai_turn(t))
}

/// The members that both formats share.
pub open spec fn with_settings(base: JsonView, q: Talk) -> JsonView {
    base.put_some("model"@, q.model).put_some("stream"@, q.stream).put(
        "max_tokens"@,
        q.max_tokens,
    ).put_some("temperature"@, q.temperature)
}

/// The request in Anthropic's format.
pub open spec fn claude_form(q: Talk) -> JsonView {
    let talk = obj().put("messages"@, JsonView::Array(claude_turns(q.turns)));
    let told = if q.system.len() > 0 {
        talk.put("system"@, text(q.system))
    } else {
        talk
    };
    let tools = match q.tools {
        Some(offers) => Some(JsonView::Array(offers.map_values(|o: Offer| claude_offer(o)))),
        None => None,
    };
    let choice = match q.choice {
        Some(c) => Some(claude_choice(c)),
        None => None,
    };
    with_settings(told, q).put_some("tools"@, tools).put_some("tool_choice"@, choice)
}

/// The system prompt as a Chat Completions message, where there is one.
pub open spec fn system_turn(system: Seq<char>) -> Seq<JsonView> {
    if system.len() > 0 {
        seq![message("system"@, text(system))]
    } else {
        seq![]
    }
}

/// The request in OpenAI's format.
pub open spec fn openai_form(q: Talk) -> JsonView {
    let talk = obj().put(
        "messages"@,
        JsonView::Array(system_turn(q.system) + openai_turns(q.turns)),
    );
    let tools = match q.tools {
        Some(offers) => Some(JsonView::Array(offers.map_values(|o: Offer| openai_offer(o)))),
        None => None,
    };
    let choice = match q.choice {
        Some(c) => Some(openai_choice(c)),
        None => None,
    };
    with_settings(talk, q).put_some("tools"@, tools).put_some("tool_choice"@, choice)
}

/// The words of requests differ.
proof fn lemma_request_words()
    ensures
        "messages"@ != "system"@,
        "messages"@ != "model"@,
        "messages"@ != "stream"@,
        "messages"@ != "max_tokens"@,
        "messages"@ != "temperature"@,
        "messages"@ != "tools"@,
        "messages"@ != "tool_choice"@,
        "system"@ != "model"@,
        "system"@ != "stream"@,
        "system"@ != "max_tokens"@,
        "system"@ != "temperature"@,
        "system"@ != "tools"@,
        "system"@ != "tool_choice"@,
        "model"@ != "stream"@,
        "model"@ != "max_tokens"@,
        "model"@ != "temperature"@,
        "model"@ != "tools"@,
        "model"@ != "tool_choice"@,
        "stream"@ != "max_tokens"@,
        "stream"@ != "temperature"@,
        "stream"@ != "tools"@,
        "stream"@ != "tool_choice"@,
        "max_tokens"@ != "temperature"@,
        "max_tokens"@ != "tools"@,
        "max_tokens"@ != "tool_choice"@,
        "temperature"@ != "tools"@,
        "temperature"@ != "tool_choice"@,
        "tools"@ != "tool_choice"@,
        "name"@ != "description"@,
        "name"@ != "input_schema"@,
        "name"@ != "parameters"@,
        "description"@ != "input_schema"@,
        "description"@ != "parameters"@,
        "type"@ != "function"@,
        "type"@ != "name"@,
        "auto"@ != "any"@,
        "auto"@ != "tool"@,
        "any"@ != "tool"@,
        "auto"@ != "required"@,
{
    reveal_strlit("messages");
    reveal_strlit("system");
    reveal_strlit("model");
    reveal_strlit("stream");
    reveal_strlit("max_tokens");
    reveal_strlit("temperature");
    reveal_strlit("tools");
    reveal_strlit("tool_choice");
    reveal_strlit("name");
    reveal_strlit("description");
    reveal_strlit("input_schema");
    reveal_strlit("parameters");
    reveal_strlit("type");
    reveal_strlit("function");
    reveal_strlit("auto");
    reveal_strlit("any");
    reveal_strlit("tool");
    reveal_strlit("required");
    assert("messages"@.len() == 8);
    assert("system"@.len() == 6);
    assert("model"@.len() == 5);
    assert("stream"@.len() == 6);
    assert("max_tokens"@.len() == 10);
    assert("temperature"@.len() == 11);
    assert("tools"@.len() == 5);
    assert("tool_choice"@.len() == 11);
    assert("name"@.len() == 4);
    assert("description"@.len() == 11);
    assert("input_schema"@.len() == 12);
    assert("parameters"@.len() == 10);
    assert("type"@.len() == 4);
    assert("function"@.len() == 8);
    assert("auto"@.len() == 4);
    assert("any"@.len() == 3);
    assert("tool"@.len() == 4);
    assert("required"@.len() == 8);
    assert("system"@[1] != "stream"@[1]);
    assert("model"@[0] != "tools"@[0]);
    assert("temperature"@[1] != "tool_choice"@[1]);
    assert("type"@[0] != "name"@[0]);
    assert("auto"@[0] != "tool"@[0]);
}

/// What Chat Completions messages of turns hold.
proof fn lemma_turns_to_openai(turns: Seq<Turn>)
    requires
        forall|i: int| 0 <= i < turns.len() ==> sayable(#[trigger] turns[i]),
    ensures
        openai_messages_of(claude_turns(turns)) == openai_turns(turns),
    decreases turns.len(),
{
    if turns.len() > 0 {
        lemma_turns_to_openai(turns.drop_last());
        law_turn_to_openai(turns.last());
        assert(claude_turns(turns).drop_last() =~= claude_turns(turns.drop_last()));
        assert(openai_turns(turns) =~= openai_turns(turns.drop_last()) + seq![
            openai_turn(turns.last()),
        ]);
    } else {
        assert(openai_turns(turns) =~= seq![]);
    }
}

/// What Anthropic messages of turns hold.
proof fn lemma_turns_to_claude(system: Seq<char>, turns: Seq<Turn>)
    requires
        forall|i: int| 0 <= i < turns.len() ==> sayable(#[trigger] turns[i]),
    ensures
        claude_messages(system_turn(system) + openai_turns(turns)) == claude_turns(turns),
        system_parts(system_turn(system) + openai_turns(turns)) == (if system.len() > 0 {
            seq![system]
        } else {
            seq![]
        }),
    decreases turns.len(),
{
    lemma_message_words();
    let msgs = system_turn(system) + openai_turns(turns);
    if turns.len() > 0 {
        lemma_turns_to_claude(system, turns.drop_last());
        law_turn_to_claude(turns.last());
        assert(msgs.drop_last() =~= system_turn(system) + openai_turns(turns.drop_last()));
        assert(msgs.last() == openai_turn(turns.last()));
        assert(claude_turns(turns) =~= claude_turns(turns.drop_last()).push(
            claude_turn(turns.last()),
        ));
    } else {
        assert(msgs =~= system_turn(system));
        assert(claude_turns(turns) =~= seq![]);
        if system.len() > 0 {
            let m = message("system"@, text(system));
            assert(msgs.drop_last() =~= seq![]);
            assert(msgs.last() == m);
            assert(m.at("role"@) == text("system"@));
            assert(m.at("content"@) == text(system));
            assert(claude_messages(msgs.drop_last()) =~= seq![]);
            assert(system_parts(msgs.drop_last()) =~= seq![]);
            assert(system_parts(msgs) =~= seq![system]);
        }
    }
}

proof fn lemma_offer_to_openai(o: Offer)
    ensures
        openai_tool(claude_offer(o)) == openai_offer(o),
{
    lemma_request_words();
    let t = claude_offer(o);
    assert(t.field("name"@) == Some(text(o.name)));
    assert(t.at("description"@) == text(o.description));
    assert(t.field("input_schema"@) == Some(o.schema));
}

proof fn lemma_offers_to_claude(offers: Seq<Offer>)
    ensures
        claude_tools(offers.map_values(|o: Offer| openai_offer(o))) == offers.map_values(
            |o: Offer| claude_offer(o),
        ),
    decreases offers.len(),
{
    lemma_request_words();
    let given = offers.map_values(|o: Offer| openai_offer(o));
    let wanted = offers.map_values(|o: Offer| claude_offer(o));
    if offers.len() > 0 {
        let rest = offers.drop_last();
        lemma_offers_to_claude(rest);
        assert(given.drop_last() =~= rest.map_values(|o: Offer| openai_offer(o)));
        assert(wanted =~= rest.map_values(|o: Offer| claude_offer(o)).push(
            claude_offer(offers.last()),
        ));
        let o = offers.last();
        let f = obj().put("name"@, text(o.name)).put("description"@, text(o.description)).put(
            "parameters"@,
            o.schema,
        );
        assert(given.last().field("function"@) == Some(f));
        assert(f.field("name"@) == Some(text(o.name)));
        assert(f.at("description"@) == text(o.description));
        assert(f.field("parameters"@) == Some(o.schema));
    } else {
        assert(wanted =~= seq![]);
    }
}

proof fn lemma_choices(c: Choice)
    ensures
        openai_tool_choice(claude_choice(c)) == openai_choice(c),
        claude_tool_choice(openai_choice(c)) == claude_choice(c),
{
    lemma_request_words();
    match c {
        Choice::Named(name) => {
            let a = claude_choice(c);
            let b = openai_choice(c);
            assert(a.at("type"@) == text("tool"@));
            assert(a.field("name"@) == Some(text(name)));
            assert(b.at("type"@) == text("function"@));
            assert(b.at("function"@).at("name"@) == text(name));
        },
        Choice::Auto => {
            assert(claude_choice(c).at("type"@) == text("auto"@));
        },
        Choice::Any => {
            assert(claude_choice(c).at("type"@) == text("any"@));
        },
    }
}

/// A request in Anthropic's format becomes the same request in OpenAI's.
pub proof fn law_request_to_openai(q: Talk)
    requires
        sayable_talk(q),
    ensures
        openai_request(claude_form(q)) == openai_form(q),
{
    lemma_request_words();
    lemma_message_words();
    let body = claude_form(q);
    assert(body.at("messages"@) == JsonView::Array(claude_turns(q.turns)));
    assert(body.field("model"@) == q.model);
    assert(body.field("stream"@) == q.stream);
    assert(body.field("max_tokens"@) == Some(q.max_tokens));
    assert(body.field("temperature"@) == q.temperature);
    lemma_turns_to_openai(q.turns);
    if q.system.len() > 0 {
        assert(body.at("system"@) == text(q.system));
    } else {
        assert(body.at("system"@) == JsonView::Null);
        assert(system_turn(q.system) + openai_turns(q.turns) =~= openai_turns(q.turns));
    }
    assert(openai_conversation(body) == system_turn(q.system) + openai_turns(q.turns));
    match q.tools {
        Some(offers) => {
            let given = offers.map_values(|o: Offer| claude_offer(o));
            assert(body.at("tools"@) == JsonView::Array(given));
            assert(given.map_values(|t: JsonView| openai_tool(t)) =~= offers.map_values(
                |o: Offer| openai_offer(o),
            )) by {
                assert forall|i: int| 0 <= i < offers.len() implies openai_tool(given[i])
                    == openai_offer(offers[i]) by {
                    lemma_offer_to_openai(offers[i]);
                }
            }
        },
        None => {
            assert(body.at("tools"@) == JsonView::Null);
        },
    }
    match q.choice {
        Some(c) => {
            lemma_choices(c);
            assert(body.field("tool_choice"@) == Some(claude_choice(c)));
        },
        None => {
            assert(body.field("tool_choice"@) is None);
        },
    }
}

/// A request in OpenAI's format becomes the same request in Anthropic's.
pub proof fn law_request_to_claude(q: Talk)
    requires
        sayable_talk(q),
    ensures
        claude_request(openai_form(q)) == claude_form(q),
{
    lemma_request_words();
    lemma_message_words();
    let body = openai_form(q);
    let msgs = system_turn(q.system) + openai_turns(q.turns);
    assert(body.at("messages"@) == JsonView::Array(msgs));
    assert(body.field("model"@) == q.model);
    assert(body.field("stream"@) == q.stream);
    assert(body.field("max_tokens"@) == Some(q.max_tokens));
    assert(body.field("temperature"@) == q.temperature);
    lemma_turns_to_claude(q.system, q.turns);
    if q.system.len() > 0 {
        assert(joined(seq![q.system], "\n"@) =~= q.system);
    }
    match q.tools {
        Some(offers) => {
            lemma_offers_to_claude(offers);
            assert(body.at("tools"@) == JsonView::Array(
                offers.map_values(|o: Offer| openai_offer(o)),
            ));
        },
        None => {
            assert(body.at("tools"@) == JsonView::Null);
        },
    }
    match q.choice {
        Some(c) => {
            lemma_choices(c);
            assert(body.field("tool_choice"@) == Some(openai_choice(c)));
        },
        None => {
            assert(body.field("tool_choice"@) is None);
        },
    }
}

/// A request survives the way to the other format and back, from either side.
pub proof fn law_request_round_trip(q: Talk)
    requires
        sayable_talk(q),
    ensures
        claude_request(openai_request(claude_form(q))) == claude_form(q),
        openai_request(claude_request(openai_form(q))) == openai_form(q),
{
    law_request_to_openai(q);
    law_request_to_claude(q);
}

// ---------------------------------------------------------------------------
// Answers
// ---------------------------------------------------------------------------

/// An answer in words, whatever its wire format.
pub struct Spoken {
    pub id: Seq<char>,
    pub model: Seq<char>,
    pub text: Seq<char>,
    /// Whether it was cut off.
    pub cut: bool,
    pub prompt: int,
    pub completion: int,
    pub cached: int,
}

/// The counts of an answer make sense.
pub open spec fn counted(a: Spoken) -> bool {
    &&& 0 <= a.cached <= a.prompt <= i64::MAX
    &&& 0 <= a.completion <= i64::MAX
}

/// An answer as a Chat Completion.
pub open spec fn openai_spoken(a: Spoken) -> JsonView {
    let said = message("assistant"@, text(a.text));
    let finish = if a.cut {
        "length"@
    } else {
        "stop"@
    };
    let choice = obj().put("index"@, JsonView::Int(0)).put("message"@, said).put(
        "finish_reason"@,
        text(finish),
    );
    obj().put("id"@, text(a.id)).put("object"@, text("chat.completion"@)).put(
        "model"@,
        text(a.model),
    ).put("choices"@, JsonView::Array(seq![choice])).put(
        "usage"@,
        openai_counts(a.prompt, a.completion, a.cached),
    )
}

/// An answer as an Anthropic message.
pub open spec fn claude_spoken(a: Spoken) -> JsonView {
    let stop = if a.cut {
        "max_tokens"@
    } else {
        "end_turn"@
    };
    let counts = obj().put("input_tokens"@, JsonView::Int(a.prompt - a.cached)).put(
        "output_tokens"@,
        JsonView::Int(a.completion),
    );
    obj().put("id"@, text(a.id)).put("type"@, text("message"@)).put(
        "role"@,
        text("assistant"@),
    ).put("model"@, text(a.model)).put(
        "content"@,
        JsonView::Array(seq![text_part(a.text)]),
    ).put("stop_reason"@, text(stop)).put("stop_sequence"@, JsonView::Null).put(
        "usage"@,
        if a.cached > 0 {
            counts.put("cache_read_input_tokens"@, JsonView::Int(a.cached))
        } else {
            counts
        },
    )
}

/// The words of answers differ.
proof fn lemma_answer_words()
    ensures
        "index"@ != "message"@,
        "index"@ != "finish_reason"@,
        "message"@ != "finish_reason"@,
        "id"@ != "object"@,
        "id"@ != "model"@,
        "id"@ != "choices"@,
        "id"@ != "usage"@,
        "object"@ != "model"@,
        "object"@ != "choices"@,
        "object"@ != "usage"@,
        "model"@ != "choices"@,
        "model"@ != "usage"@,
        "choices"@ != "usage"@,
        "id"@ != "type"@,
        "id"@ != "role"@,
        "id"@ != "content"@,
        "id"@ != "stop_reason"@,
        "id"@ != "stop_sequence"@,
        "type"@ != "role"@,
        "type"@ != "model"@,
        "type"@ != "content"@,
        "type"@ != "stop_reason"@,
        "type"@ != "stop_sequence"@,
        "type"@ != "usage"@,
        "role"@ != "model"@,
        "role"@ != "content"@,
        "role"@ != "stop_reason"@,
        "role"@ != "stop_sequence"@,
        "role"@ != "usage"@,
        "model"@ != "content"@,
        "model"@ != "stop_reason"@,
        "model"@ != "stop_sequence"@,
        "content"@ != "stop_reason"@,
        "content"@ != "stop_sequence"@,
        "content"@ != "usage"@,
        "stop_reason"@ != "stop_sequence"@,
        "stop_reason"@ != "usage"@,
        "stop_sequence"@ != "usage"@,
        "type"@ != "text"@,
        "input_tokens"@ != "output_tokens"@,
        "input_tokens"@ != "cache_read_input_tokens"@,
        "output_tokens"@ != "cache_read_input_tokens"@,
        "prompt_tokens"@ != "completion_tokens"@,
        "prompt_tokens"@ != "total_tokens"@,
        "prompt_tokens"@ != "prompt_tokens_details"@,
        "completion_tokens"@ != "total_tokens"@,
        "completion_tokens"@ != "prompt_tokens_details"@,
        "total_tokens"@ != "prompt_tokens_details"@,
        "length"@ != "tool_calls"@,
        "stop"@ != "length"@,
        "stop"@ != "tool_calls"@,
        "max_tokens"@ != "end_turn"@,
        "tool_use"@ != "end_turn"@,
        "tool_use"@ != "max_tokens"@,
        "tool_use"@ != "text"@,
{
    reveal_strlit("cache_read_input_tokens");
    reveal_strlit("choices");
    reveal_strlit("completion_tokens");
    reveal_strlit("content");
    reveal_strlit("end_turn");
    reveal_strlit("finish_reason");
    reveal_strlit("id");
    reveal_strlit("index");
    reveal_strlit("input_tokens");
    reveal_strlit("length");
    reveal_strlit("max_tokens");
    reveal_strlit("message");
    reveal_strlit("model");
    reveal_strlit("object");
    reveal_strlit("output_tokens");
    reveal_strlit("prompt_tokens");
    reveal_strlit("prompt_tokens_details");
    reveal_strlit("role");
    reveal_strlit("stop");
    reveal_strlit("stop_reason");
    reveal_strlit("stop_sequence");
    reveal_strlit("text");
    reveal_strlit("tool_calls");
    reveal_strlit("tool_use");
    reveal_strlit("total_tokens");
    reveal_strlit("type");
    reveal_strlit("usage");
    assert("cache_read_input_tokens"@.len() == 23);
    assert("choices"@.len() == 7);
    assert("completion_tokens"@.len() == 17);
    assert("content"@.len() == 7);
    assert("end_turn"@.len() == 8);
    assert("finish_reason"@.len() == 13);
    assert("id"@.len() == 2);
    assert("index"@.len() == 5);
    assert("input_tokens"@.len() == 12);
    assert("length"@.len() == 6);
    assert("max_tokens"@.len() == 10);
    assert("message"@.len() == 7);
    assert("model"@.len() == 5);
    assert("object"@.len() == 6);
    assert("output_tokens"@.len() == 13);
    assert("prompt_tokens"@.len() == 13);
    assert("prompt_tokens_details"@.len() == 21);
    assert("role"@.len() == 4);
    assert("stop"@.len() == 4);
    assert("stop_reason"@.len() == 11);
    assert("stop_sequence"@.len() == 13);
    assert("text"@.len() == 4);
    assert("tool_calls"@.len() == 10);
    assert("tool_use"@.len() == 8);
    assert("total_tokens"@.len() == 12);
    assert("type"@.len() == 4);
    assert("usage"@.len() == 5);
    assert("model"@[0] != "usage"@[0]);
    assert("type"@[0] != "role"@[0]);
    assert("type"@[1] != "text"@[1]);
    assert("tool_use"@[0] != "end_turn"@[0]);
}

/// A spoken answer becomes the same answer in Anthropic's format.
pub proof fn law_answer_to_claude(a: Spoken)
    requires
        counted(a),
    ensures
        claude_reply(openai_spoken(a)) == claude_spoken(a),
{
    lemma_answer_words();
    let v = openai_spoken(a);
    let choice = v.at("choices"@).items()[0];
    assert(v.at("choices"@).first() == Some(choice));
    assert(choice.at("message"@).at("content"@) == text(a.text));
    assert(choice.at("finish_reason"@).str() == Some(
        if a.cut {
            "length"@
        } else {
            "stop"@
        },
    ));
    assert(v.at("id"@) == text(a.id));
    assert(v.at("model"@) == text(a.model));
    let u = openai_counts(a.prompt, a.completion, a.cached);
    assert(v.field("usage"@) == Some(u));
    assert(u.at("prompt_tokens"@) == JsonView::Int(a.prompt));
    assert(u.at("completion_tokens"@) == JsonView::Int(a.completion));
    if a.cached > 0 {
        assert(u.at("prompt_tokens_details"@).at("cached_tokens"@) == JsonView::Int(a.cached));
    } else {
        assert(u.at("prompt_tokens_details"@) == JsonView::Null);
    }
}

/// A spoken answer becomes the same answer in OpenAI's format.
pub proof fn law_answer_to_openai(a: Spoken)
    requires
        counted(a),
    ensures
        openai_reply(claude_spoken(a)) == openai_spoken(a),
{
    lemma_answer_words();
    let v = claude_spoken(a);
    let part = text_part(a.text);
    let blocks = seq![part];
    assert(v.at("content"@) == JsonView::Array(blocks));
    assert(blocks.drop_last() =~= seq![]);
    assert(part.at("type"@) == text("text"@));
    assert(part.at("text"@) == text(a.text));
    assert(spoken(blocks.drop_last()) =~= seq![]);
    assert(spoken(blocks) =~= a.text);
    assert(block_calls(blocks.drop_last()) =~= seq![]);
    assert(block_calls(blocks).len() == 0);
    assert(v.at("stop_reason"@).str() == Some(
        if a.cut {
            "max_tokens"@
        } else {
            "end_turn"@
        },
    ));
    assert(v.at("id"@) == text(a.id));
    assert(v.at("model"@) == text(a.model));
    let u = v.at("usage"@);
    assert(v.field("usage"@) == Some(u));
    assert(u.at("input_tokens"@) == JsonView::Int(a.prompt - a.cached));
    assert(u.at("output_tokens"@) == JsonView::Int(a.completion));
    if a.cached > 0 {
        assert(u.at("cache_read_input_tokens"@) == JsonView::Int(a.cached));
    } else {
        assert(u.at("cache_read_input_tokens"@) == JsonView::Null);
    }
}

/// A spoken answer survives the way to the other format and back, from either
/// side.
pub proof fn law_answer_round_trip(a: Spoken)
    requires
        counted(a),
    ensures
        openai_reply(claude_reply(openai_spoken(a))) == openai_spoken(a),
        claude_reply(openai_reply(claude_spoken(a))) == claude_spoken(a),
{
    law_answer_to_claude(a);
    law_answer_to_openai(a);
}

} // verus!
