//! Whole streams between the two wire formats, one received block at a time.
use vstd::prelude::*;

use crate::codex::claude_stream::{
    claude_events, claude_event_to_openai_chunk, claude_stream_start, events_view, openai_event,
    openai_chunk_to_claude_events, openai_stream_start, ClaudeStreamState, EventView, OpenAiStream,
    OpenAiStreamState,
};
use crate::json::{parse_json, parsed, printed, Json, JsonView};
use crate::sse::{
    chunk_block, chunk_block_of, claude_block_event, parse_claude_sse_block, SSE_DONE,
};
use crate::text::{
    concat3, owned, same, strip_prefix, texts, trim, trimmed, without_prefix,
};

verus! {

/// The block that carries one Anthropic event.
pub open spec fn event_block(e: EventView) -> Seq<char> {
    "event: "@ + e.0 + "\ndata: "@ + printed(e.1) + "\n\n"@
}

/// The block that carries one Anthropic event.
pub fn event_block_of(event_type: &str, data: &Json) -> (r: String)
    ensures
        r@ == event_block((event_type@, data@)),
{
    let mut out = concat3("event: ", event_type, "\ndata: ");
    out.append(data.print().as_str());
    out.append("\n\n");
    out
}

/// The bytes of the block that carries one Anthropic event.
pub fn render_claude_event(event_type: &str, data: &Json) -> (r: Vec<u8>)
    ensures
        r@ == vstd::utf8::encode_utf8(event_block((event_type@, data@))),
{
    event_block_of(event_type, data).as_str().as_bytes_vec()
}

/// The blocks that carry Anthropic events.
pub open spec fn event_blocks(events: Seq<EventView>) -> Seq<Seq<char>> {
    events.map_values(|e: EventView| event_block(e))
}

fn event_blocks_of(events: &Vec<(String, Json)>) -> (r: Vec<String>)
    ensures
        texts(r@) == event_blocks(events_view(events@)),
{
    let mut out: Vec<String> = Vec::new();
    let mut i: usize = 0;
    while i < events.len()
        invariant
            i <= events.len(),
            texts(out@) =~= event_blocks(events_view(events@).subrange(0, i as int)),
        decreases events.len() - i,
    {
        let ghost before = out@;
        let block = event_block_of(events[i].0.as_str(), &events[i].1);
        out.push(block);
        assert(texts(out@) =~= texts(before).push(block@));
        i += 1;
    }
    assert(events_view(events@).subrange(0, i as int) =~= events_view(events@));
    out
}

/// What one received block says to an Anthropic client.
pub enum ChunkLine {
    /// No data line, or data that is not JSON.
    Nothing,
    /// The marker that ends the stream.
    Done,
    /// A chunk.
    Chunk(JsonView),
}

/// What a block of an OpenAI stream says.
pub open spec fn chunk_line(block: Seq<char>) -> ChunkLine {
    match without_prefix(trimmed(block), "data:"@) {
        None => ChunkLine::Nothing,
        Some(rest) => if trimmed(rest) == "[DONE]"@ {
            ChunkLine::Done
        } else {
            match parsed(trimmed(rest)) {
                Some(j) => ChunkLine::Chunk(j),
                None => ChunkLine::Nothing,
            }
        },
    }
}

/// Turns the blocks of an OpenAI stream into those of an Anthropic stream,
/// which has no end marker.
pub struct ClaudeSse {
    pub state: ClaudeStreamState,
    pub stopped: bool,
}

impl ClaudeSse {
    pub fn new() -> (r: ClaudeSse)
        ensures
            r.state@ == claude_stream_start(),
            !r.stopped,
    {
        ClaudeSse { state: ClaudeStreamState::new(), stopped: false }
    }

    /// The blocks to send for one received block. After the end marker there
    /// are none.
    pub fn push(&mut self, block: &str) -> (r: Vec<String>)
        ensures
            old(self).stopped ==> r@.len() == 0 && final(self).stopped && final(self).state@ == old(self).state@,
            !old(self).stopped ==> match chunk_line(block@) {
                ChunkLine::Nothing => r@.len() == 0 && !final(self).stopped && final(self).state@
                    == old(self).state@,
                ChunkLine::Done => r@.len() == 0 && final(self).stopped && final(self).state@
                    == old(self).state@,
                ChunkLine::Chunk(j) => texts(r@) == event_blocks(
                    claude_events(j, old(self).state@).events,
                ) && !final(self).stopped && final(self).state@ == claude_events(
                    j,
                    old(self).state@,
                ).state,
            },
    {
        if self.stopped {
            return Vec::new();
        }
        match strip_prefix(trim(block).as_str(), "data:") {
            None => Vec::new(),
            Some(rest) => {
                let line = trim(rest.as_str());
                if same(line.as_str(), "[DONE]") {
                    self.stopped = true;
                    return Vec::new();
                }
                match parse_json(line.as_str()) {
                    Some(chunk) => {
                        let events = openai_chunk_to_claude_events(&chunk, &mut self.state);
                        event_blocks_of(&events)
                    },
                    None => Vec::new(),
                }
            },
        }
    }

    /// The stream broke off or ended: nothing more is sent.
    pub fn stop(&mut self)
        ensures
            final(self).stopped,
            final(self).state@ == old(self).state@,
    {
        self.stopped = true;
    }
}

/// Turns the blocks of an Anthropic stream into those of an OpenAI stream,
/// which an end marker ends.
pub struct OpenAiSse {
    pub state: OpenAiStreamState,
    pub stopped: bool,
}

/// What to send for one received block, whether that ends the stream, and the
/// state behind it.
pub open spec fn openai_block(block: Seq<char>, s: OpenAiStream) -> (
    Option<Seq<char>>,
    bool,
    OpenAiStream,
) {
    match claude_block_event(block) {
        None => (None, false, s),
        Some((event, data)) => if event == "message_stop"@ {
            (Some(SSE_DONE@), true, s)
        } else {
            match openai_event(event, data, s) {
                (Some(chunk), t) => (Some(chunk_block(chunk)), false, t),
                (None, t) => (None, false, t),
            }
        },
    }
}

/// The text that there may be.
pub open spec fn opt_text(o: Option<String>) -> Option<Seq<char>> {
    match o {
        Some(s) => Some(s@),
        None => None,
    }
}

impl OpenAiSse {
    pub fn new() -> (r: OpenAiSse)
        ensures
            r.state@ == openai_stream_start(),
            !r.stopped,
    {
        OpenAiSse { state: OpenAiStreamState::new(), stopped: false }
    }

    /// The block to send for one received block, where there is any. After
    /// the end there is none.
    pub fn push(&mut self, block: &str) -> (r: Option<String>)
        ensures
            old(self).stopped ==> r is None && final(self).stopped && final(self).state@ == old(self).state@,
            !old(self).stopped ==> (opt_text(r), final(self).stopped, final(self).state@)
                == openai_block(block@, old(self).state@),
    {
        if self.stopped {
            return None;
        }
        match parse_claude_sse_block(block) {
            None => None,
            Some((event, data)) => {
                if same(event.as_str(), "message_stop") {
                    self.stopped = true;
                    return Some(owned(SSE_DONE));
                }
                match claude_event_to_openai_chunk(event.as_str(), &data, &mut self.state) {
                    Some(chunk) => Some(chunk_block_of(&chunk)),
                    None => None,
                }
            },
        }
    }

    /// The received stream ended: the end marker goes out, unless it did.
    pub fn end(&mut self) -> (r: Option<String>)
        ensures
            opt_text(r) == if old(self).stopped {
                None
            } else {
                Some(SSE_DONE@)
            },
            final(self).stopped,
            final(self).state@ == old(self).state@,
    {
        if self.stopped {
            return None;
        }
        self.stopped = true;
        Some(owned(SSE_DONE))
    }

    /// The received stream broke off: nothing more is sent.
    pub fn stop(&mut self)
        ensures
            final(self).stopped,
            final(self).state@ == old(self).state@,
    {
        self.stopped = true;
    }
}

} // verus!
