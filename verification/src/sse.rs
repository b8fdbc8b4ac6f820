//! Server-sent events: cutting a stream of text into blocks, and reading a
//! block's event name and data.
use vstd::prelude::*;

use crate::bytes::{
    joined, law_cuts_do_not_change_the_text, read_piece, read_pieces, read_rest, read_text, whole,
};
use crate::json::{parse_json, parsed, printed, Json, JsonView};
use crate::text::{
    chars_of, concat3, find_from, find_in, has_prefix, lemma_find_in_longer, lemma_find_is_occurs,
    lines, lines_of, owned, split, split_on, string_of, strip_prefix,
    texts, trim, trimmed, without_prefix,
};

verus! {

/// What ends a stream of Chat Completions chunks.
pub const SSE_DONE: &'static str = "data: [DONE]\n\n";

/// The block that carries one Chat Completions chunk.
pub open spec fn chunk_block(chunk: JsonView) -> Seq<char> {
    "data: "@ + printed(chunk) + "\n\n"@
}

/// The block that carries one Chat Completions chunk.
pub fn chunk_block_of(chunk: &Json) -> (r: String)
    ensures
        r@ == chunk_block(chunk@),
{
    concat3("data: ", chunk.print().as_str(), "\n\n")
}

/// The bytes of the block that carries one Chat Completions chunk.
pub fn render_chunk(chunk: &Json) -> (r: Vec<u8>)
    ensures
        r@ == vstd::utf8::encode_utf8(chunk_block(chunk@)),
{
    chunk_block_of(chunk).as_str().as_bytes_vec()
}

// ---------------------------------------------------------------------------
// Reframing
// ---------------------------------------------------------------------------

/// What a buffer of received text has to offer.
pub enum Frame {
    /// A block that is not blank.
    Block(String),
    /// Nothing until more text comes.
    NeedMore,
    /// Nothing any more.
    End,
}

/// What a `Frame` stands for.
pub enum FrameView {
    Block(Seq<char>),
    NeedMore,
    End,
}

impl View for Frame {
    type V = FrameView;

    open spec fn view(&self) -> FrameView {
        match self {
            Frame::Block(s) => FrameView::Block(s@),
            Frame::NeedMore => FrameView::NeedMore,
            Frame::End => FrameView::End,
        }
    }
}

/// Where the first blank line in `buf` begins.
pub open spec fn gap(buf: Seq<char>) -> Option<int> {
    find_from(buf, "\n\n"@, 0)
}

/// The first block of `buf` with the blank line that ends it.
pub open spec fn first_block(buf: Seq<char>) -> Seq<char> {
    match gap(buf) {
        Some(k) => buf.subrange(0, k + 2),
        None => buf,
    }
}

/// What follows the first block of `buf`.
pub open spec fn after_block(buf: Seq<char>) -> Seq<char> {
    match gap(buf) {
        Some(k) => buf.subrange(k + 2, buf.len() as int),
        None => seq![],
    }
}

/// The next frame of `buf` and what stays behind it. Blank blocks are passed
/// over. When no more text comes, the rest is a block though no blank line
/// ends it.
pub open spec fn next_frame(buf: Seq<char>, ended: bool) -> (FrameView, Seq<char>)
    decreases buf.len(),
    via next_frame_shrinks
{
    if gap(buf) is Some {
        if trimmed(first_block(buf)).len() == 0 {
            next_frame(after_block(buf), ended)
        } else {
            (FrameView::Block(first_block(buf)), after_block(buf))
        }
    } else if !ended {
        (FrameView::NeedMore, buf)
    } else if trimmed(buf).len() == 0 {
        (FrameView::End, buf)
    } else {
        (FrameView::Block(buf), seq![])
    }
}

#[via_fn]
proof fn next_frame_shrinks(buf: Seq<char>, ended: bool) {
    lemma_gap(buf);
}

/// A blank line lies within the text.
pub proof fn lemma_gap(buf: Seq<char>)
    ensures
        gap(buf) matches Some(k) ==> 0 <= k && k + 2 <= buf.len(),
        "\n\n"@.len() == 2,
{
    reveal_strlit("\n\n");
    lemma_find_is_occurs(buf, "\n\n"@, 0);
}

/// Received text that is still to be cut into blocks, and the bytes of a
/// character that has not wholly arrived.
pub struct SseBuffer {
    pub buf: String,
    pub tail: Vec<u8>,
    pub ended: bool,
}

impl SseBuffer {
    /// An empty buffer.
    pub fn new() -> (r: SseBuffer)
        ensures
            r.buf@ == Seq::<char>::empty(),
            r.tail@ == Seq::<u8>::empty(),
            !r.ended,
    {
        SseBuffer { buf: String::new(), tail: Vec::new(), ended: false }
    }

    /// Takes in received bytes. A character that they do not finish waits for
    /// the rest of it.
    pub fn push_bytes(&mut self, bytes: &[u8])
        ensures
            ({
                let t = old(self).tail@ + bytes@;
                &&& final(self).buf@ == old(self).buf@ + read_text(t.subrange(0, whole(t)))
                &&& final(self).tail@ == t.subrange(whole(t), t.len() as int)
            }),
            final(self).ended == old(self).ended,
    {
        let text = read_piece(&mut self.tail, bytes);
        self.buf.append(text.as_str());
    }

    /// No more bytes come.
    pub fn end(&mut self)
        ensures
            final(self).buf@ == old(self).buf@ + read_text(old(self).tail@),
            final(self).tail@ == Seq::<u8>::empty(),
            final(self).ended,
    {
        let text = read_rest(&mut self.tail);
        self.buf.append(text.as_str());
        self.ended = true;
    }

    /// Takes the next block out of the buffer.
    pub fn next(&mut self) -> (r: Frame)
        ensures
            (r@, final(self).buf@) == next_frame(old(self).buf@, old(self).ended),
            final(self).tail == old(self).tail,
            final(self).ended == old(self).ended,
    {
        let ghost start = self.buf@;
        loop
            invariant
                self.ended == old(self).ended,
                self.tail == old(self).tail,
                next_frame(start, self.ended) == next_frame(self.buf@, self.ended),
                start == old(self).buf@,
            decreases self.buf@.len(),
        {
            proof {
                lemma_gap(self.buf@);
            }
            match take_block(self.buf.as_str()) {
                Some((block, rest)) => {
                    self.buf = rest;
                    if !trim(block.as_str()).as_str().is_empty() {
                        return Frame::Block(block);
                    }
                },
                None => {
                    if !self.ended {
                        return Frame::NeedMore;
                    }
                    if trim(self.buf.as_str()).as_str().is_empty() {
                        return Frame::End;
                    }
                    let rest = owned(self.buf.as_str());
                    self.buf = String::new();
                    return Frame::Block(rest);
                },
            }
        }
    }
}

/// The first block of `buf`, with the blank line that ends it, and the rest.
pub fn take_block(buf: &str) -> (r: Option<(String, String)>)
    ensures
        match r {
            Some(p) => gap(buf@) is Some && p.0@ == first_block(buf@) && p.1@ == after_block(buf@),
            None => gap(buf@) is None,
        },
{
    proof {
        lemma_gap(buf@);
    }
    let v = chars_of(buf);
    let sep = chars_of("\n\n");
    match find_in(&v, &sep, 0) {
        Some(k) => Some((string_of(&v, 0, k + 2), string_of(&v, k + 2, v.len()))),
        None => None,
    }
}

/// The complete blocks of `buf` that are not blank.
pub open spec fn blocks(buf: Seq<char>) -> Seq<Seq<char>>
    decreases buf.len(),
    via blocks_shrink
{
    if gap(buf) is Some {
        if trimmed(first_block(buf)).len() == 0 {
            blocks(after_block(buf))
        } else {
            seq![first_block(buf)] + blocks(after_block(buf))
        }
    } else {
        seq![]
    }
}

#[via_fn]
proof fn blocks_shrink(buf: Seq<char>) {
    lemma_gap(buf);
}

/// What no blank line ends.
pub open spec fn remainder(buf: Seq<char>) -> Seq<char>
    decreases buf.len(),
    via remainder_shrinks
{
    if gap(buf) is Some {
        remainder(after_block(buf))
    } else {
        buf
    }
}

#[via_fn]
proof fn remainder_shrinks(buf: Seq<char>) {
    lemma_gap(buf);
}

/// However a text arrives in pieces, the same blocks come out: those of the
/// first piece, then those of what it left together with the second.
pub proof fn law_reframing_ignores_chunk_boundaries(a: Seq<char>, b: Seq<char>)
    ensures
        blocks(a + b) == blocks(a) + blocks(remainder(a) + b),
        remainder(a + b) == remainder(remainder(a) + b),
    decreases a.len(),
{
    lemma_gap(a);
    if gap(a) is Some {
        lemma_find_in_longer(a, b, "\n\n"@, 0);
        assert(first_block(a + b) =~= first_block(a));
        assert(after_block(a + b) =~= after_block(a) + b);
        law_reframing_ignores_chunk_boundaries(after_block(a), b);
        assert(blocks(a + b) =~= blocks(a) + blocks(remainder(a) + b));
    } else {
        assert(blocks(a + b) =~= blocks(a) + blocks(remainder(a) + b));
    }
}

/// Before the end of the stream, taking the next frame takes the first of the
/// complete blocks, or asks for more where there is none.
pub proof fn law_frames_are_blocks(buf: Seq<char>)
    ensures
        match next_frame(buf, false) {
            (FrameView::Block(b), rest) => blocks(buf) == seq![b] + blocks(rest) && remainder(buf)
                == remainder(rest),
            (FrameView::NeedMore, rest) => blocks(buf) == Seq::<Seq<char>>::empty() && rest
                == remainder(buf),
            (FrameView::End, _) => false,
        },
    decreases buf.len(),
{
    lemma_gap(buf);
    if gap(buf) is Some && trimmed(first_block(buf)).len() == 0 {
        law_frames_are_blocks(after_block(buf));
    }
}

/// The blocks of `buf` that are not blank, the rest too where no more text comes.
pub open spec fn all_blocks(buf: Seq<char>) -> Seq<Seq<char>> {
    if trimmed(remainder(buf)).len() == 0 {
        blocks(buf)
    } else {
        blocks(buf).push(remainder(buf))
    }
}

/// After the end of the stream, taking the next frame takes the first of all
/// blocks, the unterminated rest as the last of them.
pub proof fn law_last_frames_are_all_blocks(buf: Seq<char>)
    ensures
        match next_frame(buf, true) {
            (FrameView::Block(b), rest) => all_blocks(buf) == seq![b] + all_blocks(rest),
            (FrameView::NeedMore, _) => false,
            (FrameView::End, _) => all_blocks(buf) == Seq::<Seq<char>>::empty(),
        },
    decreases buf.len(),
{
    lemma_gap(buf);
    if gap(buf) is Some {
        if trimmed(first_block(buf)).len() == 0 {
            law_last_frames_are_all_blocks(after_block(buf));
        } else {
            assert(all_blocks(buf) =~= seq![first_block(buf)] + all_blocks(after_block(buf)));
        }
    } else if trimmed(buf).len() > 0 {
        let none = Seq::<char>::empty();
        lemma_gap(none);
        assert(all_blocks(none) =~= Seq::<Seq<char>>::empty());
        assert(all_blocks(buf) =~= seq![buf] + all_blocks(none));
    }
}

/// The blocks that were taken out while pieces of bytes arrived, each as soon as
/// it was complete, and what was left in the buffer.
pub open spec fn taken(pieces: Seq<Seq<u8>>) -> (Seq<Seq<char>>, Seq<char>)
    decreases pieces.len(),
{
    if pieces.len() == 0 {
        (seq![], seq![])
    } else {
        let (out, buf) = taken(pieces.drop_last());
        let t = read_pieces(pieces.drop_last()).1 + pieces.last();
        let text = buf + read_text(t.subrange(0, whole(t)));
        (out + blocks(text), remainder(text))
    }
}

/// All blocks that come out of a stream of pieces of bytes, to its end.
pub open spec fn reframed(pieces: Seq<Seq<u8>>) -> Seq<Seq<char>> {
    let (out, buf) = taken(pieces);
    out + all_blocks(buf + read_text(read_pieces(pieces).1))
}

proof fn lemma_taken(pieces: Seq<Seq<u8>>)
    ensures
        taken(pieces) == (blocks(read_pieces(pieces).0), remainder(read_pieces(pieces).0)),
    decreases pieces.len(),
{
    if pieces.len() == 0 {
        lemma_gap(Seq::<char>::empty());
    } else {
        let before = pieces.drop_last();
        lemma_taken(before);
        let t = read_pieces(before).1 + pieces.last();
        law_reframing_ignores_chunk_boundaries(
            read_pieces(before).0,
            read_text(t.subrange(0, whole(t))),
        );
    }
}

/// Two streams whose bytes join to the same valid UTF-8 give the same blocks,
/// wherever each was cut: those of the text, and its unterminated rest where it
/// is not blank.
pub proof fn law_reframing_ignores_where_bytes_are_cut(p: Seq<Seq<u8>>, q: Seq<Seq<u8>>)
    requires
        vstd::utf8::valid_utf8(joined(p)),
        joined(p) == joined(q),
    ensures
        reframed(p) == all_blocks(vstd::utf8::decode_utf8(joined(p))),
        reframed(p) == reframed(q),
{
    lemma_reframed(p);
    lemma_reframed(q);
}

proof fn lemma_reframed(p: Seq<Seq<u8>>)
    requires
        vstd::utf8::valid_utf8(joined(p)),
    ensures
        reframed(p) == all_blocks(vstd::utf8::decode_utf8(joined(p))),
{
    let text = vstd::utf8::decode_utf8(joined(p));
    lemma_taken(p);
    law_cuts_do_not_change_the_text(p);
    let rest = remainder(text);
    assert(read_text(Seq::<u8>::empty()) =~= Seq::<char>::empty());
    assert(rest + Seq::<char>::empty() =~= rest);
    lemma_remainder_is_short(text);
    assert(reframed(p) =~= all_blocks(text));
}

/// Nothing of what no blank line ends is a complete block.
proof fn lemma_remainder_is_short(buf: Seq<char>)
    ensures
        gap(remainder(buf)) is None,
        blocks(remainder(buf)) == Seq::<Seq<char>>::empty(),
        remainder(remainder(buf)) == remainder(buf),
    decreases buf.len(),
{
    lemma_gap(buf);
    if gap(buf) is Some {
        lemma_remainder_is_short(after_block(buf));
    }
}

// ---------------------------------------------------------------------------
// Reading one block
// ---------------------------------------------------------------------------

/// The name that the last `event:` line gives.
pub open spec fn event_name(ls: Seq<Seq<char>>) -> Seq<char>
    decreases ls.len(),
{
    if ls.len() == 0 {
        seq![]
    } else {
        match without_prefix(ls.last(), "event:"@) {
            Some(rest) => trimmed(rest),
            None => event_name(ls.drop_last()),
        }
    }
}

/// What a `data:` line that is no `event:` line gives.
pub open spec fn data_of(line: Seq<char>) -> Option<Seq<char>> {
    if has_prefix(line, "event:"@) {
        None
    } else {
        match without_prefix(line, "data:"@) {
            Some(rest) => Some(trimmed(rest)),
            None => None,
        }
    }
}

/// What all `data:` lines give, run together.
pub open spec fn all_data(ls: Seq<Seq<char>>) -> Seq<char>
    decreases ls.len(),
{
    if ls.len() == 0 {
        seq![]
    } else {
        match data_of(ls.last()) {
            Some(d) => all_data(ls.drop_last()) + d,
            None => all_data(ls.drop_last()),
        }
    }
}

/// What the last `data:` line gives.
pub open spec fn last_data(ls: Seq<Seq<char>>) -> Option<Seq<char>>
    decreases ls.len(),
{
    if ls.len() == 0 {
        None
    } else {
        match data_of(ls.last()) {
            Some(d) => Some(d),
            None => last_data(ls.drop_last()),
        }
    }
}

/// The `event:` and `data:` lines of a block.
pub struct BlockLines {
    pub event: String,
    pub data: String,
    pub last: Option<String>,
}

/// Reads the `event:` and `data:` lines of a block.
pub fn read_block(block: &str) -> (r: BlockLines)
    ensures
        r.event@ == event_name(lines_of(block@)),
        r.data@ == all_data(lines_of(block@)),
        match r.last {
            Some(d) => last_data(lines_of(block@)) == Some(d@),
            None => last_data(lines_of(block@)) is None,
        },
{
    let ls = lines(block);
    let ghost all = lines_of(block@);
    let mut event = String::new();
    let mut data = String::new();
    let mut last: Option<String> = None;
    let mut i: usize = 0;
    assert(event@ =~= event_name(all.subrange(0, 0)));
    assert(data@ =~= all_data(all.subrange(0, 0)));
    while i < ls.len()
        invariant
            i <= ls.len(),
            all == texts(ls@),
            event@ == event_name(all.subrange(0, i as int)),
            data@ == all_data(all.subrange(0, i as int)),
            match last {
                Some(d) => last_data(all.subrange(0, i as int)) == Some(d@),
                None => last_data(all.subrange(0, i as int)) is None,
            },
        decreases ls.len() - i,
    {
        assert(all.subrange(0, i + 1).drop_last() =~= all.subrange(0, i as int));
        assert(all.subrange(0, i + 1).last() == ls@[i as int]@);
        match strip_prefix(ls[i].as_str(), "event:") {
            Some(rest) => {
                event = trim(rest.as_str());
            },
            None => {
                match strip_prefix(ls[i].as_str(), "data:") {
                    Some(rest) => {
                        let d = trim(rest.as_str());
                        data.append(d.as_str());
                        last = Some(d);
                    },
                    None => {},
                }
            },
        }
        i += 1;
    }
    assert(all.subrange(0, i as int) =~= all);
    BlockLines { event, data, last }
}

/// The event name and the JSON data of a block, given the lines of data run
/// together; none without data that is JSON.
pub open spec fn sse_event(block: Seq<char>) -> Option<(Seq<char>, JsonView)> {
    let ls = lines_of(block);
    if all_data(ls).len() == 0 {
        None
    } else {
        match parsed(all_data(ls)) {
            Some(j) => Some((event_name(ls), j)),
            None => None,
        }
    }
}

/// What an event name with data stands for.
pub open spec fn pair_view(p: Option<(String, Json)>) -> Option<(Seq<char>, JsonView)> {
    match p {
        Some(e) => Some((e.0@, e.1@)),
        None => None,
    }
}

/// Reads the event name and the JSON data of a block.
pub fn parse_sse_block(block: &str) -> (r: Option<(String, Json)>)
    ensures
        pair_view(r) == sse_event(block@),
{
    let ls = read_block(block);
    if ls.data.as_str().is_empty() {
        return None;
    }
    match parse_json(ls.data.as_str()) {
        Some(j) => Some((ls.event, j)),
        None => None,
    }
}

/// The event name and the JSON data of an Anthropic block, of whose data lines
/// the last counts.
pub open spec fn claude_block_event(block: Seq<char>) -> Option<(Seq<char>, JsonView)> {
    let ls = lines_of(block);
    match last_data(ls) {
        Some(d) => match parsed(d) {
            Some(j) => Some((event_name(ls), j)),
            None => None,
        },
        None => None,
    }
}

/// Reads the event name and the JSON data of an Anthropic block.
pub fn parse_claude_sse_block(block: &str) -> (r: Option<(String, Json)>)
    ensures
        pair_view(r) == claude_block_event(block@),
{
    let ls = read_block(block);
    match ls.last {
        Some(d) => match parse_json(d.as_str()) {
            Some(j) => Some((ls.event, j)),
            None => None,
        },
        None => None,
    }
}

/// The events that the blocks of a whole body hold.
pub open spec fn body_events(pieces: Seq<Seq<char>>) -> Seq<(Seq<char>, JsonView)>
    decreases pieces.len(),
{
    if pieces.len() == 0 {
        seq![]
    } else {
        let rest = body_events(pieces.drop_last());
        match sse_event(pieces.last()) {
            Some(e) => rest.push(e),
            None => rest,
        }
    }
}

/// The events of a whole body.
pub open spec fn sse_events(body: Seq<char>) -> Seq<(Seq<char>, JsonView)> {
    body_events(split_on(body, "\n\n"@))
}

/// What a list of events stands for.
pub open spec fn events_of(v: Seq<(String, Json)>) -> Seq<(Seq<char>, JsonView)> {
    v.map_values(|e: (String, Json)| (e.0@, e.1@))
}

/// Reads the events of a whole body.
pub fn sse_events_of(body: &str) -> (r: Vec<(String, Json)>)
    ensures
        events_of(r@) == sse_events(body@),
{
    proof {
        lemma_gap(body@);
    }
    let pieces = split(body, "\n\n");
    let ghost all = split_on(body@, "\n\n"@);
    let mut out: Vec<(String, Json)> = Vec::new();
    let mut i: usize = 0;
    assert(events_of(out@) =~= body_events(all.subrange(0, 0)));
    while i < pieces.len()
        invariant
            i <= pieces.len(),
            all == texts(pieces@),
            events_of(out@) == body_events(all.subrange(0, i as int)),
        decreases pieces.len() - i,
    {
        assert(all.subrange(0, i + 1).drop_last() =~= all.subrange(0, i as int));
        assert(all.subrange(0, i + 1).last() == pieces@[i as int]@);
        let ghost before = out@;
        match parse_sse_block(pieces[i].as_str()) {
            Some(e) => {
                out.push(e);
                assert(events_of(out@) =~= events_of(before).push((e.0@, e.1@)));
            },
            None => {},
        }
        i += 1;
    }
    assert(all.subrange(0, i as int) =~= all);
    out
}

} // verus!
