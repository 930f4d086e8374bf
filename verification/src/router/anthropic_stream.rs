//! A streamed answer in the form of the Anthropic protocol: passed through from an Anthropic
//! backend, or converted from the chunks of an OpenAI compatible one.

use vstd::prelude::*;
use vstd::utf8::{decode_utf8, valid_utf8};

use crate::backend::openai_compat::fresh_id;
use crate::json::{field, str_field_or, uint_field, Json, JsonView, NumberView};
use crate::json_codec::{json_parse, parse_json};
use crate::router::sse::{
    byte_lines, last_line, law_byte_lines_of_pieces, law_byte_lines_of_text, lines_from, lossy_text,
    read_text, ByteLineBuffer,
};
use crate::text::{
    after_prefix, concat2, lines, same_text, strip_prefix, text_lines, trim, trimmed,
};

verus! {

/// An event of a stream: its name, where it has one, and its data.
#[derive(Debug, Clone, PartialEq)]
pub struct NamedEvent {
    pub name: Option<String>,
    pub data: String,
}

/// The model of an event.
pub struct NamedEventView {
    pub name: Option<Seq<char>>,
    pub data: Seq<char>,
}

impl DeepView for NamedEvent {
    type V = NamedEventView;

    open spec fn deep_view(&self) -> NamedEventView {
        NamedEventView { name: self.name.deep_view(), data: self.data@ }
    }
}

/// The events of lines, and the name that waits for its data after them, given the one that waits
/// before them. A line of data makes an event, with the name of the last line before it that gives
/// one.
pub open spec fn passed_events(waiting: Option<Seq<char>>, ls: Seq<Seq<char>>) -> (
    Option<Seq<char>>,
    Seq<NamedEventView>,
)
    decreases ls.len(),
{
    if ls.len() == 0 {
        (waiting, Seq::empty())
    } else {
        let (name, events) = passed_events(waiting, ls.drop_last());
        match after_prefix(ls.last(), "event: "@) {
            Some(next) => (Some(next), events),
            None => match after_prefix(ls.last(), "data: "@) {
                Some(data) => (None, events.push(NamedEventView { name, data })),
                None => (name, events),
            },
        }
    }
}

/// Takes lines of an Anthropic backend, and the name that waits for its data. Returns the events.
fn pass_lines(waiting: &mut Option<String>, all: &Vec<String>) -> (r: Vec<NamedEvent>)
    ensures
        (final(waiting).deep_view(), r.deep_view()) == passed_events(
            old(waiting).deep_view(),
            all.deep_view(),
        ),
{
    let ghost views = all.deep_view();
    let mut out: Vec<NamedEvent> = Vec::new();
    let mut i: usize = 0;
    assert(out.deep_view() =~= Seq::<NamedEventView>::empty());
    while i < all.len()
        invariant
            i <= all.len(),
            views == all.deep_view(),
            (waiting.deep_view(), out.deep_view()) == passed_events(
                old(waiting).deep_view(),
                views.take(i as int),
            ),
        decreases all.len() - i,
    {
        let ghost before = out.deep_view();
        let ghost name_before = waiting.deep_view();
        proof {
            assert(views.take(i + 1).drop_last() =~= views.take(i as int));
            assert(views.take(i + 1).last() == all@[i as int]@);
        }
        let line = all[i].as_str();
        match strip_prefix(line, "event: ") {
            Some(next) => {
                *waiting = Some(next.to_owned());
            },
            None => match strip_prefix(line, "data: ") {
                Some(data) => {
                    let event = NamedEvent { name: waiting.take(), data: data.to_owned() };
                    out.push(event);
                    assert(event.deep_view() == (NamedEventView { name: name_before, data: data@ }));
                    assert(out.deep_view() =~= before.push(event.deep_view()));
                },
                None => {},
            },
        }
        i += 1;
    }
    assert(views.take(i as int) =~= views);
    out
}

/// The events in a text of an Anthropic backend that holds whole records.
pub fn events_in_text(text: &str) -> (r: Vec<NamedEvent>)
    ensures
        r.deep_view() == passed_events(None, text_lines(text@)).1,
{
    let mut waiting: Option<String> = None;
    pass_lines(&mut waiting, &lines(text))
}

/// The events in a chunk of bytes of an Anthropic backend that holds whole records.
pub fn pass_chunk(bytes: &[u8]) -> (r: Vec<NamedEvent>)
    ensures
        r.deep_view() == passed_events(None, text_lines(read_text(bytes@))).1,
{
    events_in_text(lossy_text(bytes).as_str())
}

/// The model of a stream that is passed through: the bytes of the line that has not ended, and the
/// name that waits for its data.
pub struct PassedView {
    pub rest: Seq<u8>,
    pub waiting: Option<Seq<char>>,
}

/// The model of a stream that is passed through at its start.
pub open spec fn fresh_passed() -> PassedView {
    PassedView { rest: Seq::empty(), waiting: None }
}

/// What a chunk of bytes comes to.
pub open spec fn passed_step(s: PassedView, bytes: Seq<u8>) -> (PassedView, Seq<NamedEventView>) {
    let (ended, rest) = lines_from(s.rest, bytes);
    let (waiting, events) = passed_events(s.waiting, ended);
    (PassedView { rest, waiting }, events)
}

/// What the end of the stream comes to: the event of a last line that lacks its end.
pub open spec fn passed_end(s: PassedView) -> Seq<NamedEventView> {
    passed_events(s.waiting, last_line(s.rest)).1
}

/// A streamed answer of an Anthropic backend that is passed through. Its chunks may begin and end
/// anywhere, within a line or a character too.
#[derive(Debug, Clone, PartialEq)]
pub struct PassedStream {
    pub lines: ByteLineBuffer,
    pub waiting: Option<String>,
}

impl View for PassedStream {
    type V = PassedView;

    open spec fn view(&self) -> PassedView {
        PassedView { rest: self.lines@, waiting: self.waiting.deep_view() }
    }
}

impl PassedStream {
    /// The stream at its start.
    pub fn new() -> (r: PassedStream)
        ensures
            r@ == fresh_passed(),
    {
        PassedStream { lines: ByteLineBuffer::new(), waiting: None }
    }

    /// Takes a chunk of bytes of the backend. Returns the events that the client gets for it.
    pub fn take_bytes(&mut self, bytes: &[u8]) -> (r: Vec<NamedEvent>)
        ensures
            (final(self)@, r.deep_view()) == passed_step(old(self)@, bytes@),
    {
        let ended = self.lines.feed(bytes);
        pass_lines(&mut self.waiting, &ended)
    }

    /// Takes the end of the stream. Returns the events that the client still gets.
    pub fn finish(&mut self) -> (r: Vec<NamedEvent>)
        ensures
            r.deep_view() == passed_end(old(self)@),
            final(self)@.rest == Seq::<u8>::empty(),
            final(self)@.waiting == passed_events(old(self)@.waiting, last_line(old(self)@.rest)).0,
    {
        let ended = self.lines.finish();
        pass_lines(&mut self.waiting, &ended)
    }
}

/// Lines that come in two runs make the events that they make in one.
proof fn lemma_passed_runs(
    waiting: Option<Seq<char>>,
    first: Seq<Seq<char>>,
    second: Seq<Seq<char>>,
)
    ensures
        ({
            let (middle, before) = passed_events(waiting, first);
            let (after, more) = passed_events(middle, second);
            passed_events(waiting, first + second) == (after, before + more)
        }),
    decreases second.len(),
{
    let (middle, before) = passed_events(waiting, first);
    if second.len() == 0 {
        assert(first + second =~= first);
        assert(before + Seq::<NamedEventView>::empty() =~= before);
    } else {
        lemma_passed_runs(waiting, first, second.drop_last());
        let whole = first + second;
        assert(whole.drop_last() =~= first + second.drop_last());
        assert(whole.last() == second.last());
        let (name, more) = passed_events(middle, second.drop_last());
        match after_prefix(second.last(), "data: "@) {
            Some(data) => {
                let event = NamedEventView { name, data };
                assert((before + more).push(event) =~= before + more.push(event));
            },
            None => {},
        }
    }
}

/// Lines that come in two runs make the events that they make in one: the name that waits after the
/// first run goes on into the second.
pub proof fn law_passed_in_runs(
    waiting: Option<Seq<char>>,
    first: Seq<Seq<char>>,
    second: Seq<Seq<char>>,
)
    ensures
        ({
            let (middle, before) = passed_events(waiting, first);
            let (after, more) = passed_events(middle, second);
            passed_events(waiting, first + second) == (after, before + more)
        }),
{
    lemma_passed_runs(waiting, first, second);
}

/// What chunks of bytes come to, one after the other.
pub open spec fn passed_steps(s: PassedView, chunks: Seq<Seq<u8>>) -> (
    PassedView,
    Seq<NamedEventView>,
)
    decreases chunks.len(),
{
    if chunks.len() == 0 {
        (s, Seq::empty())
    } else {
        let (middle, before) = passed_steps(s, chunks.drop_last());
        let (after, last) = passed_step(middle, chunks.last());
        (after, before + last)
    }
}

/// The bytes of chunks, put together.
pub open spec fn chunk_bytes(chunks: Seq<Seq<u8>>) -> Seq<u8>
    decreases chunks.len(),
{
    if chunks.len() == 0 {
        Seq::empty()
    } else {
        chunk_bytes(chunks.drop_last()) + chunks.last()
    }
}

/// Where the chunks of a stream that is passed through begin and end makes no difference: they come
/// to the same events, and leave the same stream, as one chunk with the bytes of all.
pub proof fn law_passed_chunks_make_no_difference(s: PassedView, chunks: Seq<Seq<u8>>)
    ensures
        passed_steps(s, chunks) == passed_step(s, chunk_bytes(chunks)),
    decreases chunks.len(),
{
    if chunks.len() > 0 {
        let front = chunk_bytes(chunks.drop_last());
        law_passed_chunks_make_no_difference(s, chunks.drop_last());
        law_byte_lines_of_pieces(s.rest, front, chunks.last());
        let (first, middle) = lines_from(s.rest, front);
        let (second, _) = lines_from(middle, chunks.last());
        lemma_passed_runs(s.waiting, first, second);
    }
}

/// However the bytes of a stream are cut into chunks, the client gets exactly the events of the
/// lines of the whole stream, the last line too where it lacks its end. Of valid UTF-8 these are
/// the lines of the text that it encodes.
pub proof fn law_passed_stream_keeps_events(chunks: Seq<Seq<u8>>)
    ensures
        ({
            let (after, events) = passed_steps(fresh_passed(), chunks);
            let whole = chunk_bytes(chunks);
            &&& events + passed_end(after) == passed_events(None, byte_lines(whole)).1
            &&& valid_utf8(whole) ==> events + passed_end(after) == passed_events(
                None,
                text_lines(decode_utf8(whole)),
            ).1
        }),
{
    let whole = chunk_bytes(chunks);
    law_passed_chunks_make_no_difference(fresh_passed(), chunks);
    let (ended, rest) = lines_from(Seq::empty(), whole);
    lemma_passed_runs(None, ended, last_line(rest));
    if valid_utf8(whole) {
        law_byte_lines_of_text(whole);
    }
}

/// A content block of a streamed answer.
#[derive(Debug, Clone, PartialEq)]
pub enum StreamBlock {
    Thinking,
    Text,
    ToolUse { id: String, name: String },
}

/// The model of a content block.
pub enum StreamBlockView {
    Thinking,
    Text,
    ToolUse { id: Seq<char>, name: Seq<char> },
}

impl DeepView for StreamBlock {
    type V = StreamBlockView;

    open spec fn deep_view(&self) -> StreamBlockView {
        match *self {
            StreamBlock::Thinking => StreamBlockView::Thinking,
            StreamBlock::Text => StreamBlockView::Text,
            StreamBlock::ToolUse { id, name } => StreamBlockView::ToolUse { id: id@, name: name@ },
        }
    }
}

/// What is added to a content block.
#[derive(Debug, Clone, PartialEq)]
pub enum BlockDelta {
    Thinking(String),
    Text(String),
    InputJson(String),
}

/// The model of what is added to a content block.
pub enum BlockDeltaView {
    Thinking(Seq<char>),
    Text(Seq<char>),
    InputJson(Seq<char>),
}

impl DeepView for BlockDelta {
    type V = BlockDeltaView;

    open spec fn deep_view(&self) -> BlockDeltaView {
        match *self {
            BlockDelta::Thinking(s) => BlockDeltaView::Thinking(s@),
            BlockDelta::Text(s) => BlockDeltaView::Text(s@),
            BlockDelta::InputJson(s) => BlockDeltaView::InputJson(s@),
        }
    }
}

/// An event of a streamed answer.
#[derive(Debug, Clone, PartialEq)]
pub enum AnthropicEvent {
    MessageStart { id: String, model: String },
    BlockStart { index: usize, block: StreamBlock },
    BlockDelta { index: usize, delta: BlockDelta },
    BlockStop { index: usize },
    MessageDelta { stop_reason: String, output_tokens: u64 },
    MessageStop,
}

/// The model of an event of a streamed answer.
pub enum AnthropicEventView {
    MessageStart { id: Seq<char>, model: Seq<char> },
    BlockStart { index: int, block: StreamBlockView },
    BlockDelta { index: int, delta: BlockDeltaView },
    BlockStop { index: int },
    MessageDelta { stop_reason: Seq<char>, output_tokens: u64 },
    MessageStop,
}

impl DeepView for AnthropicEvent {
    type V = AnthropicEventView;

    open spec fn deep_view(&self) -> AnthropicEventView {
        match *self {
            AnthropicEvent::MessageStart { id, model } => AnthropicEventView::MessageStart {
                id: id@,
                model: model@,
            },
            AnthropicEvent::BlockStart { index, block } => AnthropicEventView::BlockStart {
                index: index as int,
                block: block.deep_view(),
            },
            AnthropicEvent::BlockDelta { index, delta } => AnthropicEventView::BlockDelta {
                index: index as int,
                delta: delta.deep_view(),
            },
            AnthropicEvent::BlockStop { index } => AnthropicEventView::BlockStop {
                index: index as int,
            },
            AnthropicEvent::MessageDelta { stop_reason, output_tokens } => {
                AnthropicEventView::MessageDelta { stop_reason: stop_reason@, output_tokens }
            },
            AnthropicEvent::MessageStop => AnthropicEventView::MessageStop,
        }
    }
}

/// The model of a conversion: the content blocks so far, whether the last of them is open, why the
/// answer ends, how many tokens it took, and whether it has ended.
pub struct AnswerView {
    pub blocks: Seq<StreamBlockView>,
    pub open: bool,
    pub stop_reason: Seq<char>,
    pub output_tokens: u64,
    pub ended: bool,
}

/// The conversion at its start.
pub open spec fn fresh_answer() -> AnswerView {
    AnswerView {
        blocks: Seq::empty(),
        open: false,
        stop_reason: "end_turn"@,
        output_tokens: 0,
        ended: false,
    }
}

/// Closes the open block, where there is one.
pub open spec fn closed(a: AnswerView) -> (AnswerView, Seq<AnthropicEventView>) {
    if a.open {
        (
            AnswerView { open: false, ..a },
            seq![AnthropicEventView::BlockStop { index: a.blocks.len() - 1 }],
        )
    } else {
        (a, Seq::empty())
    }
}

/// Closes the open block, where there is one, and opens another. Its index is one more than that of
/// the last block.
pub open spec fn opened(a: AnswerView, block: StreamBlockView) -> (
    AnswerView,
    Seq<AnthropicEventView>,
) {
    let (before, stop) = closed(a);
    (
        AnswerView { blocks: before.blocks.push(block), open: true, ..before },
        stop.push(AnthropicEventView::BlockStart { index: before.blocks.len() as int, block }),
    )
}

/// Adds to the open block.
pub open spec fn added(a: AnswerView, delta: BlockDeltaView) -> Seq<AnthropicEventView> {
    seq![AnthropicEventView::BlockDelta { index: a.blocks.len() - 1, delta }]
}

/// Whether the open block is one of thinking.
pub open spec fn in_thinking(a: AnswerView) -> bool {
    a.open && a.blocks.last() is Thinking
}

/// Whether the open block is one of text.
pub open spec fn in_text(a: AnswerView) -> bool {
    a.open && a.blocks.last() is Text
}

/// Whether the open block is one of a tool call.
pub open spec fn in_tool(a: AnswerView) -> bool {
    a.open && a.blocks.last() is ToolUse
}

/// What reasoning of the backend comes to: thinking.
pub open spec fn thinking_step(a: AnswerView, text: Seq<char>) -> (
    AnswerView,
    Seq<AnthropicEventView>,
) {
    if text.len() == 0 {
        (a, Seq::empty())
    } else {
        let (b, events) = if in_thinking(a) {
            (a, Seq::empty())
        } else {
            opened(a, StreamBlockView::Thinking)
        };
        (b, events + added(b, BlockDeltaView::Thinking(text)))
    }
}

/// What text of the backend comes to. An answer that goes on with text ends its turn.
pub open spec fn text_step(a: AnswerView, text: Seq<char>) -> (
    AnswerView,
    Seq<AnthropicEventView>,
) {
    if text.len() == 0 {
        (a, Seq::empty())
    } else {
        let (b, events) = if in_text(a) {
            (a, Seq::empty())
        } else {
            opened(a, StreamBlockView::Text)
        };
        (
            AnswerView { stop_reason: "end_turn"@, ..b },
            events + added(b, BlockDeltaView::Text(text)),
        )
    }
}

/// What a tool call of the backend comes to: a new block where it has an identifier or a name, and
/// more input where it has arguments and a tool call is open.
pub open spec fn call_step(
    a: AnswerView,
    id: Seq<char>,
    name: Seq<char>,
    arguments: Seq<char>,
) -> (AnswerView, Seq<AnthropicEventView>) {
    let (b, events) = if id.len() > 0 || name.len() > 0 {
        let (c, started) = opened(a, StreamBlockView::ToolUse { id, name });
        (AnswerView { stop_reason: "tool_use"@, ..c }, started)
    } else {
        (a, Seq::empty())
    };
    if arguments.len() > 0 && in_tool(b) {
        (b, events + added(b, BlockDeltaView::InputJson(arguments)))
    } else {
        (b, events)
    }
}

/// What an item of the tool calls of a delta comes to.
pub open spec fn call_item_step(a: AnswerView, call: JsonView) -> (
    AnswerView,
    Seq<AnthropicEventView>,
) {
    let function = match field(call, "function"@) {
        Some(function) => function,
        None => JsonView::Null,
    };
    call_step(
        a,
        str_field_or(call, "id"@, ""@),
        str_field_or(function, "name"@, ""@),
        str_field_or(function, "arguments"@, ""@),
    )
}

/// What the tool calls of a delta come to, one after the other.
pub open spec fn calls_step(a: AnswerView, calls: Seq<JsonView>) -> (
    AnswerView,
    Seq<AnthropicEventView>,
)
    decreases calls.len(),
{
    if calls.len() == 0 {
        (a, Seq::empty())
    } else {
        let (b, before) = calls_step(a, calls.drop_last());
        let (c, last) = call_item_step(b, calls.last());
        (c, before + last)
    }
}

/// The items of the tool calls of a delta.
pub open spec fn delta_tool_calls(delta: JsonView) -> Seq<JsonView> {
    match field(delta, "tool_calls"@) {
        Some(JsonView::Array(calls)) => calls,
        _ => Seq::empty(),
    }
}

/// What a delta comes to: first its reasoning, then its text, then its tool calls.
pub open spec fn delta_step(a: AnswerView, delta: JsonView) -> (
    AnswerView,
    Seq<AnthropicEventView>,
) {
    let (b, first) = thinking_step(a, str_field_or(delta, "reasoning_content"@, ""@));
    let (c, second) = text_step(b, str_field_or(delta, "content"@, ""@));
    let (d, third) = calls_step(c, delta_tool_calls(delta));
    (d, first + second + third)
}

/// Why the answer ends, given what the backend says.
pub open spec fn ended_because(stop_reason: Seq<char>, finish_reason: Seq<char>) -> Seq<char> {
    if finish_reason == "tool_calls"@ {
        "tool_use"@
    } else if finish_reason == "length"@ {
        "max_tokens"@
    } else {
        stop_reason
    }
}

/// What the first choice of a chunk comes to.
pub open spec fn choice_step(a: AnswerView, choice: JsonView) -> (
    AnswerView,
    Seq<AnthropicEventView>,
) {
    let delta = match field(choice, "delta"@) {
        Some(delta) => delta,
        None => JsonView::Null,
    };
    let (b, events) = delta_step(a, delta);
    (
        AnswerView {
            stop_reason: ended_because(
                b.stop_reason,
                str_field_or(choice, "finish_reason"@, ""@),
            ),
            ..b
        },
        events,
    )
}

/// The first choice of a chunk, where it has one.
pub open spec fn first_choice(chunk: JsonView) -> Option<JsonView> {
    match field(chunk, "choices"@) {
        Some(JsonView::Array(choices)) => if choices.len() > 0 {
            Some(choices[0])
        } else {
            None
        },
        _ => None,
    }
}

/// The number of tokens of the answer that a chunk gives, where it gives one.
pub open spec fn chunk_tokens(chunk: JsonView) -> Option<u64> {
    match field(chunk, "usage"@) {
        Some(usage) => uint_field(usage, "completion_tokens"@),
        None => None,
    }
}

/// What a chunk comes to.
pub open spec fn chunk_step(a: AnswerView, chunk: JsonView) -> (
    AnswerView,
    Seq<AnthropicEventView>,
) {
    let (b, events) = match first_choice(chunk) {
        Some(choice) => choice_step(a, choice),
        None => (a, Seq::empty()),
    };
    (
        match chunk_tokens(chunk) {
            Some(n) => AnswerView { output_tokens: n, ..b },
            None => b,
        },
        events,
    )
}

/// What the end of the backend's stream comes to: the open block is closed, an empty block of text
/// stands for an answer without blocks, and the message ends.
pub open spec fn finish_step(a: AnswerView) -> (AnswerView, Seq<AnthropicEventView>) {
    if a.ended {
        (a, Seq::empty())
    } else {
        let (b, first) = if a.blocks.len() == 0 {
            opened(a, StreamBlockView::Text)
        } else {
            (a, Seq::empty())
        };
        let (c, second) = closed(b);
        (
            AnswerView { ended: true, ..c },
            first + second + seq![
                AnthropicEventView::MessageDelta {
                    stop_reason: c.stop_reason,
                    output_tokens: c.output_tokens,
                },
                AnthropicEventView::MessageStop,
            ],
        )
    }
}

/// What data of the backend comes to, given what it is as JSON. Data that is no JSON comes to
/// nothing.
pub open spec fn answer_data_step(a: AnswerView, parsed: Option<JsonView>) -> (
    AnswerView,
    Seq<AnthropicEventView>,
) {
    match parsed {
        Some(chunk) => chunk_step(a, chunk),
        None => (a, Seq::empty()),
    }
}

/// What a line of the backend comes to.
pub open spec fn answer_line_step(a: AnswerView, line: Seq<char>) -> (
    AnswerView,
    Seq<AnthropicEventView>,
) {
    let t = trimmed(line);
    if a.ended {
        (a, Seq::empty())
    } else if t == "data: [DONE]"@ {
        finish_step(a)
    } else {
        match after_prefix(t, "data: "@) {
            Some(data) => answer_data_step(a, json_parse(data)),
            None => (a, Seq::empty()),
        }
    }
}

/// What lines of the backend come to, one after the other.
pub open spec fn answer_lines_step(a: AnswerView, ls: Seq<Seq<char>>) -> (
    AnswerView,
    Seq<AnthropicEventView>,
)
    decreases ls.len(),
{
    if ls.len() == 0 {
        (a, Seq::empty())
    } else {
        let (b, before) = answer_lines_step(a, ls.drop_last());
        let (c, last) = answer_line_step(b, ls.last());
        (c, before + last)
    }
}

/// The conversion of the chunks of an OpenAI compatible backend.
#[derive(Debug, PartialEq)]
pub struct AnthropicStream {
    id: String,
    alias: String,
    lines: ByteLineBuffer,
    blocks: Vec<StreamBlock>,
    open: bool,
    stop_reason: String,
    output_tokens: u64,
    ended: bool,
}

impl View for AnthropicStream {
    type V = AnswerView;

    closed spec fn view(&self) -> AnswerView {
        AnswerView {
            blocks: self.blocks.deep_view(),
            open: self.open,
            stop_reason: self.stop_reason@,
            output_tokens: self.output_tokens,
            ended: self.ended,
        }
    }
}

impl AnthropicStream {
    #[verifier::type_invariant]
    spec fn open_block_exists(&self) -> bool {
        self.open ==> self.blocks.len() > 0
    }

    /// The identifier of the message.
    pub closed spec fn message_id(&self) -> Seq<char> {
        self.id@
    }

    /// The alias that stands for the model.
    pub closed spec fn model(&self) -> Seq<char> {
        self.alias@
    }

    /// The bytes of the line of the backend that has not ended.
    pub closed spec fn rest(&self) -> Seq<u8> {
        self.lines@
    }

    /// Whether all but the model of the conversion is as it was.
    spec fn same_frame(&self, other: &AnthropicStream) -> bool {
        self.id == other.id && self.alias == other.alias && self.lines == other.lines
    }

    /// The conversion at its start, for a message with a given identifier.
    pub fn with_id(id: String, alias: &str) -> (r: AnthropicStream)
        ensures
            r@ == fresh_answer(),
            r.message_id() == id@,
            r.model() == alias@,
            r.rest() == Seq::<u8>::empty(),
    {
        let blocks: Vec<StreamBlock> = Vec::new();
        assert(blocks.deep_view() =~= Seq::<StreamBlockView>::empty());
        AnthropicStream {
            id,
            alias: alias.to_owned(),
            lines: ByteLineBuffer::new(),
            blocks,
            open: false,
            stop_reason: "end_turn".to_owned(),
            output_tokens: 0,
            ended: false,
        }
    }

    /// The conversion at its start, for a message with a random identifier.
    pub fn new(alias: &str) -> (r: AnthropicStream)
        ensures
            r@ == fresh_answer(),
            r.message_id().len() == "msg_"@.len() + 36,
            r.message_id().take("msg_"@.len() as int) == "msg_"@,
            r.model() == alias@,
            r.rest() == Seq::<u8>::empty(),
    {
        let fresh = fresh_id();
        let id = concat2("msg_", fresh.as_str());
        assert(id@.take("msg_"@.len() as int) =~= "msg_"@);
        AnthropicStream::with_id(id, alias)
    }

    /// The event that starts the message. Its model is the alias that the client asked for.
    pub fn start(&self) -> (r: AnthropicEvent)
        ensures
            r.deep_view() == (AnthropicEventView::MessageStart {
                id: self.message_id(),
                model: self.model(),
            }),
    {
        AnthropicEvent::MessageStart { id: self.id.clone(), model: self.alias.clone() }
    }

    /// Closes the open block.
    fn close(&mut self, out: &mut Vec<AnthropicEvent>)
        requires
            old(self)@.open ==> old(self)@.blocks.len() > 0,
        ensures
            final(self)@ == closed(old(self)@).0,
            final(out).deep_view() == old(out).deep_view() + closed(old(self)@).1,
            final(self).same_frame(old(self)),
    {
        if self.open {
            self.open = false;
            out.push(AnthropicEvent::BlockStop { index: self.blocks.len() - 1 });
        }
        assert(out.deep_view() =~= old(out).deep_view() + closed(old(self)@).1);
    }

    /// Closes the open block and opens another.
    fn open(&mut self, block: StreamBlock, out: &mut Vec<AnthropicEvent>)
        requires
            old(self)@.open ==> old(self)@.blocks.len() > 0,
        ensures
            final(self)@ == opened(old(self)@, block.deep_view()).0,
            final(out).deep_view() == old(out).deep_view() + opened(
                old(self)@,
                block.deep_view(),
            ).1,
            final(self)@.open && final(self)@.blocks.len() > 0,
            final(self).same_frame(old(self)),
    {
        let ghost start = out.deep_view();
        let ghost view = block.deep_view();
        self.close(out);
        let ghost stopped = out.deep_view();
        let copy = match &block {
            StreamBlock::Thinking => StreamBlock::Thinking,
            StreamBlock::Text => StreamBlock::Text,
            StreamBlock::ToolUse { id, name } => StreamBlock::ToolUse {
                id: id.clone(),
                name: name.clone(),
            },
        };
        let ghost before = self.blocks.deep_view();
        let event = AnthropicEvent::BlockStart { index: self.blocks.len(), block: copy };
        out.push(event);
        assert(out.deep_view() =~= stopped.push(event.deep_view()));
        let mut blocks: Vec<StreamBlock> = Vec::new();
        std::mem::swap(&mut blocks, &mut self.blocks);
        blocks.push(block);
        assert(blocks.deep_view() =~= before.push(view));
        self.blocks = blocks;
        self.open = true;
        assert(out.deep_view() =~= start + opened(old(self)@, view).1);
    }

    /// Adds to the open block.
    fn add_delta(&self, delta: BlockDelta, out: &mut Vec<AnthropicEvent>)
        requires
            self@.blocks.len() > 0,
        ensures
            final(out).deep_view() == old(out).deep_view() + added(self@, delta.deep_view()),
    {
        let ghost view = delta.deep_view();
        out.push(AnthropicEvent::BlockDelta { index: self.blocks.len() - 1, delta });
        assert(out.deep_view() =~= old(out).deep_view() + added(self@, view));
    }

    /// Takes reasoning of the backend.
    fn take_thinking(&mut self, text: &str, out: &mut Vec<AnthropicEvent>)
        requires
            old(self)@.open ==> old(self)@.blocks.len() > 0,
        ensures
            final(self)@ == thinking_step(old(self)@, text@).0,
            final(out).deep_view() == old(out).deep_view() + thinking_step(old(self)@, text@).1,
            final(self)@.open ==> final(self)@.blocks.len() > 0,
            final(self).same_frame(old(self)),
    {
        let ghost start = out.deep_view();
        if text.unicode_len() > 0 {
            let inside = if self.open {
                match &self.blocks[self.blocks.len() - 1] {
                    StreamBlock::Thinking => true,
                    _ => false,
                }
            } else {
                false
            };
            assert(inside == in_thinking(self@));
            if !inside {
                self.open(StreamBlock::Thinking, out);
            }
            self.add_delta(BlockDelta::Thinking(text.to_owned()), out);
        }
        assert(out.deep_view() =~= start + thinking_step(old(self)@, text@).1);
    }

    /// Takes text of the backend.
    fn take_text(&mut self, text: &str, out: &mut Vec<AnthropicEvent>)
        requires
            old(self)@.open ==> old(self)@.blocks.len() > 0,
        ensures
            final(self)@ == text_step(old(self)@, text@).0,
            final(out).deep_view() == old(out).deep_view() + text_step(old(self)@, text@).1,
            final(self)@.open ==> final(self)@.blocks.len() > 0,
            final(self).same_frame(old(self)),
    {
        let ghost start = out.deep_view();
        if text.unicode_len() > 0 {
            let inside = if self.open {
                match &self.blocks[self.blocks.len() - 1] {
                    StreamBlock::Text => true,
                    _ => false,
                }
            } else {
                false
            };
            assert(inside == in_text(self@));
            if !inside {
                self.open(StreamBlock::Text, out);
            }
            self.add_delta(BlockDelta::Text(text.to_owned()), out);
            self.stop_reason = "end_turn".to_owned();
        }
        assert(out.deep_view() =~= start + text_step(old(self)@, text@).1);
    }

    /// Takes a tool call of the backend.
    fn take_call(&mut self, call: &Json, out: &mut Vec<AnthropicEvent>)
        requires
            old(self)@.open ==> old(self)@.blocks.len() > 0,
        ensures
            final(self)@ == call_item_step(old(self)@, call@).0,
            final(out).deep_view() == old(out).deep_view() + call_item_step(old(self)@, call@).1,
            final(self)@.open ==> final(self)@.blocks.len() > 0,
            final(self).same_frame(old(self)),
    {
        let ghost start = out.deep_view();
        let id = call.str_field_or("id", "");
        let (name, arguments) = match call.get("function") {
            Some(function) => (
                function.str_field_or("name", ""),
                function.str_field_or("arguments", ""),
            ),
            None => ("".to_owned(), "".to_owned()),
        };
        if id.as_str().unicode_len() > 0 || name.as_str().unicode_len() > 0 {
            self.open(StreamBlock::ToolUse { id, name }, out);
            self.stop_reason = "tool_use".to_owned();
        }
        if arguments.as_str().unicode_len() > 0 {
            let inside = if self.open {
                match &self.blocks[self.blocks.len() - 1] {
                    StreamBlock::ToolUse { .. } => true,
                    _ => false,
                }
            } else {
                false
            };
            assert(inside == in_tool(self@));
            if inside {
                self.add_delta(BlockDelta::InputJson(arguments), out);
            }
        }
        assert(out.deep_view() =~= start + call_item_step(old(self)@, call@).1);
    }

    /// Takes the tool calls of a delta.
    fn take_calls(&mut self, calls: &Vec<Json>, out: &mut Vec<AnthropicEvent>)
        requires
            old(self)@.open ==> old(self)@.blocks.len() > 0,
        ensures
            final(self)@ == calls_step(old(self)@, calls.deep_view()).0,
            final(out).deep_view() == old(out).deep_view() + calls_step(
                old(self)@,
                calls.deep_view(),
            ).1,
            final(self)@.open ==> final(self)@.blocks.len() > 0,
            final(self).same_frame(old(self)),
    {
        let ghost all = calls.deep_view();
        let ghost start = out.deep_view();
        let mut i: usize = 0;
        assert(start + Seq::<AnthropicEventView>::empty() =~= start);
        while i < calls.len()
            invariant
                i <= calls.len(),
                all == calls.deep_view(),
                start == old(out).deep_view(),
                self@ == calls_step(old(self)@, all.take(i as int)).0,
                out.deep_view() == start + calls_step(old(self)@, all.take(i as int)).1,
                self@.open ==> self@.blocks.len() > 0,
                self.same_frame(old(self)),
            decreases calls.len() - i,
        {
            proof {
                assert(all.take(i + 1).drop_last() =~= all.take(i as int));
                assert(all.take(i + 1).last() == calls@[i as int]@);
            }
            self.take_call(&calls[i], out);
            assert(out.deep_view() =~= start + calls_step(old(self)@, all.take(i + 1)).1);
            i += 1;
        }
        assert(all.take(i as int) =~= all);
    }

    /// Takes a delta of the backend.
    fn take_delta(&mut self, delta: &Json, out: &mut Vec<AnthropicEvent>)
        requires
            old(self)@.open ==> old(self)@.blocks.len() > 0,
        ensures
            final(self)@ == delta_step(old(self)@, delta@).0,
            final(out).deep_view() == old(out).deep_view() + delta_step(old(self)@, delta@).1,
            final(self)@.open ==> final(self)@.blocks.len() > 0,
            final(self).same_frame(old(self)),
    {
        let ghost start = out.deep_view();
        self.take_thinking(delta.str_field_or("reasoning_content", "").as_str(), out);
        self.take_text(delta.str_field_or("content", "").as_str(), out);
        let calls = match delta.get("tool_calls") {
            Some(calls) => calls.as_array(),
            None => None,
        };
        match calls {
            Some(calls) => {
                self.take_calls(calls, out);
            },
            None => {},
        }
        assert(out.deep_view() =~= start + delta_step(old(self)@, delta@).1);
    }

    /// Takes the first choice of a chunk.
    fn take_choice(&mut self, choice: &Json, out: &mut Vec<AnthropicEvent>)
        requires
            old(self)@.open ==> old(self)@.blocks.len() > 0,
        ensures
            final(self)@ == choice_step(old(self)@, choice@).0,
            final(out).deep_view() == old(out).deep_view() + choice_step(old(self)@, choice@).1,
            final(self)@.open ==> final(self)@.blocks.len() > 0,
            final(self).same_frame(old(self)),
    {
        match choice.get("delta") {
            Some(delta) => {
                self.take_delta(delta, out);
            },
            None => {
                self.take_delta(&Json::Null, out);
            },
        }
        let finish_reason = choice.str_field_or("finish_reason", "");
        if same_text(finish_reason.as_str(), "tool_calls") {
            self.stop_reason = "tool_use".to_owned();
        } else if same_text(finish_reason.as_str(), "length") {
            self.stop_reason = "max_tokens".to_owned();
        }
    }

    /// Takes a chunk of the backend. Returns the events that the client gets for it.
    pub fn take_chunk(&mut self, chunk: &Json) -> (r: Vec<AnthropicEvent>)
        ensures
            final(self)@ == chunk_step(old(self)@, chunk@).0,
            r.deep_view() == chunk_step(old(self)@, chunk@).1,
            final(self).rest() == old(self).rest(),
            final(self).message_id() == old(self).message_id(),
            final(self).model() == old(self).model(),
    {
        proof {
            use_type_invariant(&*self);
        }
        let mut out: Vec<AnthropicEvent> = Vec::new();
        assert(out.deep_view() =~= Seq::<AnthropicEventView>::empty());
        let choices = match chunk.get("choices") {
            Some(choices) => choices.as_array(),
            None => None,
        };
        match choices {
            Some(choices) => {
                if choices.len() > 0 {
                    assert(choices.deep_view()[0] == choices@[0]@);
                    self.take_choice(&choices[0], &mut out);
                }
            },
            None => {},
        }
        assert(out.deep_view() =~= chunk_step(old(self)@, chunk@).1);
        let tokens = match chunk.get("usage") {
            Some(usage) => usage.uint_field("completion_tokens"),
            None => None,
        };
        match tokens {
            Some(n) => {
                self.output_tokens = n;
            },
            None => {},
        }
        out
    }

    /// Takes the end of the backend's stream. Returns the events that the client still gets.
    pub fn finish(&mut self) -> (r: Vec<AnthropicEvent>)
        ensures
            final(self)@ == finish_step(old(self)@).0,
            r.deep_view() == finish_step(old(self)@).1,
            final(self).rest() == old(self).rest(),
            final(self).message_id() == old(self).message_id(),
            final(self).model() == old(self).model(),
    {
        proof {
            use_type_invariant(&*self);
        }
        let mut out: Vec<AnthropicEvent> = Vec::new();
        assert(out.deep_view() =~= Seq::<AnthropicEventView>::empty());
        if self.ended {
            return out;
        }
        if self.blocks.len() == 0 {
            self.open(StreamBlock::Text, &mut out);
        }
        self.close(&mut out);
        self.ended = true;
        out.push(
            AnthropicEvent::MessageDelta {
                stop_reason: self.stop_reason.clone(),
                output_tokens: self.output_tokens,
            },
        );
        out.push(AnthropicEvent::MessageStop);
        assert(out.deep_view() =~= finish_step(old(self)@).1);
        out
    }

    /// Takes a line of the backend. Returns the events that the client gets for it.
    pub fn take_line(&mut self, line: &str) -> (r: Vec<AnthropicEvent>)
        ensures
            final(self)@ == answer_line_step(old(self)@, line@).0,
            r.deep_view() == answer_line_step(old(self)@, line@).1,
            final(self).rest() == old(self).rest(),
            final(self).message_id() == old(self).message_id(),
            final(self).model() == old(self).model(),
    {
        let t = trim(line);
        let out: Vec<AnthropicEvent> = Vec::new();
        assert(out.deep_view() =~= Seq::<AnthropicEventView>::empty());
        if self.ended {
            return out;
        }
        if same_text(t, "data: [DONE]") {
            return self.finish();
        }
        match strip_prefix(t, "data: ") {
            Some(data) => match parse_json(data) {
                Some(chunk) => self.take_chunk(&chunk),
                None => out,
            },
            None => out,
        }
    }

    /// Takes a chunk of bytes of the backend. Returns the events that the client gets for it.
    pub fn take_bytes(&mut self, bytes: &[u8]) -> (r: Vec<AnthropicEvent>)
        ensures
            (final(self)@, r.deep_view()) == answer_lines_step(
                old(self)@,
                lines_from(old(self).rest(), bytes@).0,
            ),
            final(self).rest() == lines_from(old(self).rest(), bytes@).1,
            final(self).message_id() == old(self).message_id(),
            final(self).model() == old(self).model(),
    {
        proof {
            use_type_invariant(&*self);
        }
        let mut buffer = ByteLineBuffer::new();
        std::mem::swap(&mut buffer, &mut self.lines);
        let ls = buffer.feed(bytes);
        self.lines = buffer;
        let ghost all = ls.deep_view();
        let ghost kept = self.rest();
        let mut out: Vec<AnthropicEvent> = Vec::new();
        let mut i: usize = 0;
        assert(out.deep_view() =~= Seq::<AnthropicEventView>::empty());
        while i < ls.len()
            invariant
                i <= ls.len(),
                all == ls.deep_view(),
                self@ == answer_lines_step(old(self)@, all.take(i as int)).0,
                out.deep_view() == answer_lines_step(old(self)@, all.take(i as int)).1,
                self.rest() == kept,
                self.message_id() == old(self).message_id(),
                self.model() == old(self).model(),
            decreases ls.len() - i,
        {
            let ghost before = out.deep_view();
            proof {
                assert(all.take(i + 1).drop_last() =~= all.take(i as int));
                assert(all.take(i + 1).last() == ls@[i as int]@);
            }
            let mut more = self.take_line(ls[i].as_str());
            let ghost more_views = more.deep_view();
            out.append(&mut more);
            assert(out.deep_view() =~= before + more_views);
            i += 1;
        }
        assert(all.take(i as int) =~= all);
        out
    }
}

/// The name of an event.
pub open spec fn event_name(e: AnthropicEventView) -> Seq<char> {
    match e {
        AnthropicEventView::MessageStart { .. } => "message_start"@,
        AnthropicEventView::BlockStart { .. } => "content_block_start"@,
        AnthropicEventView::BlockDelta { .. } => "content_block_delta"@,
        AnthropicEventView::BlockStop { .. } => "content_block_stop"@,
        AnthropicEventView::MessageDelta { .. } => "message_delta"@,
        AnthropicEventView::MessageStop => "message_stop"@,
    }
}

/// The JSON of a content block that begins.
pub open spec fn block_json(block: StreamBlockView) -> JsonView {
    match block {
        StreamBlockView::Thinking => JsonView::Object(
            map!["type"@ => JsonView::Str("thinking"@), "thinking"@ => JsonView::Str(""@)],
        ),
        StreamBlockView::Text => JsonView::Object(
            map!["type"@ => JsonView::Str("text"@), "text"@ => JsonView::Str(""@)],
        ),
        StreamBlockView::ToolUse { id, name } => JsonView::Object(
            map![
                "type"@ => JsonView::Str("tool_use"@),
                "id"@ => JsonView::Str(id),
                "name"@ => JsonView::Str(name),
                "input"@ => JsonView::Object(Map::empty()),
            ],
        ),
    }
}

/// The JSON of what is added to a content block.
pub open spec fn delta_json(delta: BlockDeltaView) -> JsonView {
    match delta {
        BlockDeltaView::Thinking(text) => JsonView::Object(
            map!["type"@ => JsonView::Str("thinking_delta"@), "thinking"@ => JsonView::Str(text)],
        ),
        BlockDeltaView::Text(text) => JsonView::Object(
            map!["type"@ => JsonView::Str("text_delta"@), "text"@ => JsonView::Str(text)],
        ),
        BlockDeltaView::InputJson(text) => JsonView::Object(
            map![
                "type"@ => JsonView::Str("input_json_delta"@),
                "partial_json"@ => JsonView::Str(text),
            ],
        ),
    }
}

/// The JSON of the message that begins.
pub open spec fn message_json(id: Seq<char>, model: Seq<char>) -> JsonView {
    JsonView::Object(
        map![
            "id"@ => JsonView::Str(id),
            "type"@ => JsonView::Str("message"@),
            "role"@ => JsonView::Str("assistant"@),
            "content"@ => JsonView::Array(Seq::empty()),
            "model"@ => JsonView::Str(model),
            "stop_reason"@ => JsonView::Null,
            "stop_sequence"@ => JsonView::Null,
            "usage"@ => JsonView::Object(
                map![
                    "input_tokens"@ => JsonView::Number(NumberView::Int(0)),
                    "output_tokens"@ => JsonView::Number(NumberView::Int(0)),
                ],
            ),
        ],
    )
}

/// The JSON of an event.
pub open spec fn event_json(e: AnthropicEventView) -> JsonView {
    let named = map!["type"@ => JsonView::Str(event_name(e))];
    match e {
        AnthropicEventView::MessageStart { id, model } => JsonView::Object(
            named.insert("message"@, message_json(id, model)),
        ),
        AnthropicEventView::BlockStart { index, block } => JsonView::Object(
            named.insert("index"@, JsonView::Number(NumberView::Int(index))).insert(
                "content_block"@,
                block_json(block),
            ),
        ),
        AnthropicEventView::BlockDelta { index, delta } => JsonView::Object(
            named.insert("index"@, JsonView::Number(NumberView::Int(index))).insert(
                "delta"@,
                delta_json(delta),
            ),
        ),
        AnthropicEventView::BlockStop { index } => JsonView::Object(
            named.insert("index"@, JsonView::Number(NumberView::Int(index))),
        ),
        AnthropicEventView::MessageDelta { stop_reason, output_tokens } => JsonView::Object(
            named.insert(
                "delta"@,
                JsonView::Object(
                    map![
                        "stop_reason"@ => JsonView::Str(stop_reason),
                        "stop_sequence"@ => JsonView::Null,
                    ],
                ),
            ).insert(
                "usage"@,
                JsonView::Object(
                    map![
                        "output_tokens"@ => JsonView::Number(NumberView::Int(output_tokens as int)),
                    ],
                ),
            ),
        ),
        AnthropicEventView::MessageStop => JsonView::Object(named),
    }
}

impl StreamBlock {
    /// The JSON of the block as it begins.
    fn to_json(&self) -> (r: Json)
        ensures
            r@ == block_json(self.deep_view()),
    {
        match self {
            StreamBlock::Thinking => Json::object().with("type", Json::text("thinking")).with(
                "thinking",
                Json::text(""),
            ),
            StreamBlock::Text => Json::object().with("type", Json::text("text")).with(
                "text",
                Json::text(""),
            ),
            StreamBlock::ToolUse { id, name } => Json::object().with(
                "type",
                Json::text("tool_use"),
            ).with("id", Json::text(id.as_str())).with("name", Json::text(name.as_str())).with(
                "input",
                Json::object(),
            ),
        }
    }
}

impl BlockDelta {
    /// The JSON of what is added.
    fn to_json(&self) -> (r: Json)
        ensures
            r@ == delta_json(self.deep_view()),
    {
        match self {
            BlockDelta::Thinking(text) => Json::object().with(
                "type",
                Json::text("thinking_delta"),
            ).with("thinking", Json::text(text.as_str())),
            BlockDelta::Text(text) => Json::object().with("type", Json::text("text_delta")).with(
                "text",
                Json::text(text.as_str()),
            ),
            BlockDelta::InputJson(text) => Json::object().with(
                "type",
                Json::text("input_json_delta"),
            ).with("partial_json", Json::text(text.as_str())),
        }
    }
}

impl AnthropicEvent {
    /// The name of the event.
    pub fn name(&self) -> (r: &'static str)
        ensures
            r@ == event_name(self.deep_view()),
    {
        match self {
            AnthropicEvent::MessageStart { .. } => "message_start",
            AnthropicEvent::BlockStart { .. } => "content_block_start",
            AnthropicEvent::BlockDelta { .. } => "content_block_delta",
            AnthropicEvent::BlockStop { .. } => "content_block_stop",
            AnthropicEvent::MessageDelta { .. } => "message_delta",
            AnthropicEvent::MessageStop => "message_stop",
        }
    }

    /// The JSON of the event.
    pub fn to_json(&self) -> (r: Json)
        ensures
            r@ == event_json(self.deep_view()),
    {
        let named = Json::object().with("type", Json::text(self.name()));
        match self {
            AnthropicEvent::MessageStart { id, model } => {
                let none: Vec<Json> = Vec::new();
                assert(none.deep_view() =~= Seq::<JsonView>::empty());
                let usage = Json::object().with("input_tokens", Json::uint(0)).with(
                    "output_tokens",
                    Json::uint(0),
                );
                let message = Json::object().with("id", Json::text(id.as_str())).with(
                    "type",
                    Json::text("message"),
                ).with("role", Json::text("assistant")).with("content", Json::array(none)).with(
                    "model",
                    Json::text(model.as_str()),
                ).with("stop_reason", Json::Null).with("stop_sequence", Json::Null).with(
                    "usage",
                    usage,
                );
                named.with("message", message)
            },
            AnthropicEvent::BlockStart { index, block } => named.with(
                "index",
                Json::uint(*index as u64),
            ).with("content_block", block.to_json()),
            AnthropicEvent::BlockDelta { index, delta } => named.with(
                "index",
                Json::uint(*index as u64),
            ).with("delta", delta.to_json()),
            AnthropicEvent::BlockStop { index } => named.with("index", Json::uint(*index as u64)),
            AnthropicEvent::MessageDelta { stop_reason, output_tokens } => named.with(
                "delta",
                Json::object().with("stop_reason", Json::text(stop_reason.as_str())).with(
                    "stop_sequence",
                    Json::Null,
                ),
            ).with(
                "usage",
                Json::object().with("output_tokens", Json::uint(*output_tokens)),
            ),
            AnthropicEvent::MessageStop => named,
        }
    }
}

/// Where a client is in the events of an answer, as the protocol orders them.
pub enum ClientState {
    /// Before the message.
    BeforeMessage,
    /// Between two content blocks: the index that the next one has.
    Between { next: int },
    /// In a content block.
    Inside { index: int, block: StreamBlockView },
    /// After the word why the message ends.
    AfterDelta,
    /// After the message.
    Ended,
    /// Events have come that the protocol does not allow.
    Rejected,
}

/// Whether something can be added to a content block: it is of the same kind.
pub open spec fn fits(block: StreamBlockView, delta: BlockDeltaView) -> bool {
    match (block, delta) {
        (StreamBlockView::Thinking, BlockDeltaView::Thinking(_)) => true,
        (StreamBlockView::Text, BlockDeltaView::Text(_)) => true,
        (StreamBlockView::ToolUse { .. }, BlockDeltaView::InputJson(_)) => true,
        _ => false,
    }
}

/// Where a client is after an event. A message begins once; its content blocks come one after the
/// other with indices that count up from zero, each begun and ended; something is added only to
/// the block that is open; there is at least one block before the message ends.
pub open spec fn client_step(s: ClientState, e: AnthropicEventView) -> ClientState {
    match (s, e) {
        (ClientState::BeforeMessage, AnthropicEventView::MessageStart { .. }) => {
            ClientState::Between { next: 0 }
        },
        (ClientState::Between { next }, AnthropicEventView::BlockStart { index, block }) => if index
            == next {
            ClientState::Inside { index, block }
        } else {
            ClientState::Rejected
        },
        (
            ClientState::Inside { index, block },
            AnthropicEventView::BlockDelta { index: at, delta },
        ) => if at == index && fits(block, delta) {
            s
        } else {
            ClientState::Rejected
        },
        (ClientState::Inside { index, .. }, AnthropicEventView::BlockStop { index: at }) => if at
            == index {
            ClientState::Between { next: index + 1 }
        } else {
            ClientState::Rejected
        },
        (ClientState::Between { next }, AnthropicEventView::MessageDelta { .. }) => if next > 0 {
            ClientState::AfterDelta
        } else {
            ClientState::Rejected
        },
        (ClientState::AfterDelta, AnthropicEventView::MessageStop) => ClientState::Ended,
        _ => ClientState::Rejected,
    }
}

/// Where a client is after events.
pub open spec fn client_run(s: ClientState, events: Seq<AnthropicEventView>) -> ClientState
    decreases events.len(),
{
    if events.len() == 0 {
        s
    } else {
        client_step(client_run(s, events.drop_last()), events.last())
    }
}

/// Where the client of a conversion is.
pub open spec fn client_of(a: AnswerView) -> ClientState {
    if a.ended {
        ClientState::Ended
    } else if a.open {
        ClientState::Inside { index: a.blocks.len() - 1, block: a.blocks.last() }
    } else {
        ClientState::Between { next: a.blocks.len() as int }
    }
}

/// Whether a conversion goes on and an open block is one of its blocks.
pub open spec fn going(a: AnswerView) -> bool {
    !a.ended && (a.open ==> a.blocks.len() > 0)
}

/// Whether events take the client of one conversion to that of another.
spec fn takes(a: AnswerView, events: Seq<AnthropicEventView>, b: AnswerView) -> bool {
    client_run(client_of(a), events) == client_of(b)
}

/// Events one after the other take a client where the second ones take it from where the first
/// ones took it.
proof fn lemma_client_run(s: ClientState, first: Seq<AnthropicEventView>, second: Seq<
    AnthropicEventView,
>)
    ensures
        client_run(s, first + second) == client_run(client_run(s, first), second),
    decreases second.len(),
{
    if second.len() == 0 {
        assert(first + second =~= first);
    } else {
        let whole = first + second;
        assert(whole.drop_last() =~= first + second.drop_last());
        lemma_client_run(s, first, second.drop_last());
    }
}

/// A single event.
proof fn lemma_client_single(s: ClientState, e: AnthropicEventView)
    ensures
        client_run(s, seq![e]) == client_step(s, e),
{
    let events = seq![e];
    assert(events.drop_last() =~= Seq::<AnthropicEventView>::empty());
    assert(client_run(s, events.drop_last()) == s);
}

/// Closing a block, and opening one, is allowed.
proof fn lemma_open_close(a: AnswerView, block: StreamBlockView)
    requires
        going(a),
    ensures
        going(closed(a).0),
        takes(a, closed(a).1, closed(a).0),
        going(opened(a, block).0),
        takes(a, opened(a, block).1, opened(a, block).0),
{
    let (b, stop) = closed(a);
    if a.open {
        lemma_client_single(
            client_of(a),
            AnthropicEventView::BlockStop { index: a.blocks.len() - 1 },
        );
    }
    let (c, events) = opened(a, block);
    let start = AnthropicEventView::BlockStart { index: b.blocks.len() as int, block };
    lemma_client_single(client_of(b), start);
    lemma_client_run(client_of(a), stop, seq![start]);
    assert(events =~= stop + seq![start]);
}

/// Adding to an open block of the same kind is allowed.
proof fn lemma_added(a: AnswerView, delta: BlockDeltaView)
    requires
        going(a),
        a.open,
        fits(a.blocks.last(), delta),
    ensures
        takes(a, added(a, delta), a),
{
    lemma_client_single(
        client_of(a),
        AnthropicEventView::BlockDelta { index: a.blocks.len() - 1, delta },
    );
}

/// Reasoning is allowed.
proof fn lemma_thinking_step(a: AnswerView, text: Seq<char>)
    requires
        going(a),
    ensures
        going(thinking_step(a, text).0),
        takes(a, thinking_step(a, text).1, thinking_step(a, text).0),
{
    if text.len() > 0 {
        let (b, events) = if in_thinking(a) {
            (a, Seq::empty())
        } else {
            opened(a, StreamBlockView::Thinking)
        };
        lemma_open_close(a, StreamBlockView::Thinking);
        lemma_added(b, BlockDeltaView::Thinking(text));
        lemma_client_run(client_of(a), events, added(b, BlockDeltaView::Thinking(text)));
    }
}

/// Text is allowed.
proof fn lemma_text_step(a: AnswerView, text: Seq<char>)
    requires
        going(a),
    ensures
        going(text_step(a, text).0),
        takes(a, text_step(a, text).1, text_step(a, text).0),
{
    if text.len() > 0 {
        let (b, events) = if in_text(a) {
            (a, Seq::empty())
        } else {
            opened(a, StreamBlockView::Text)
        };
        lemma_open_close(a, StreamBlockView::Text);
        lemma_added(b, BlockDeltaView::Text(text));
        lemma_client_run(client_of(a), events, added(b, BlockDeltaView::Text(text)));
    }
}

/// A tool call is allowed.
proof fn lemma_call_step(a: AnswerView, id: Seq<char>, name: Seq<char>, arguments: Seq<char>)
    requires
        going(a),
    ensures
        going(call_step(a, id, name, arguments).0),
        takes(a, call_step(a, id, name, arguments).1, call_step(a, id, name, arguments).0),
{
    let block = StreamBlockView::ToolUse { id, name };
    lemma_open_close(a, block);
    let (b, events) = if id.len() > 0 || name.len() > 0 {
        let (c, started) = opened(a, block);
        (AnswerView { stop_reason: "tool_use"@, ..c }, started)
    } else {
        (a, Seq::empty())
    };
    assert(takes(a, events, b));
    if arguments.len() > 0 && in_tool(b) {
        let delta = BlockDeltaView::InputJson(arguments);
        lemma_added(b, delta);
        lemma_client_run(client_of(a), events, added(b, delta));
    }
}

/// Tool calls are allowed.
proof fn lemma_calls_step(a: AnswerView, calls: Seq<JsonView>)
    requires
        going(a),
    ensures
        going(calls_step(a, calls).0),
        takes(a, calls_step(a, calls).1, calls_step(a, calls).0),
    decreases calls.len(),
{
    if calls.len() > 0 {
        lemma_calls_step(a, calls.drop_last());
        let (b, before) = calls_step(a, calls.drop_last());
        let call = calls.last();
        let function = match field(call, "function"@) {
            Some(function) => function,
            None => JsonView::Null,
        };
        lemma_call_step(
            b,
            str_field_or(call, "id"@, ""@),
            str_field_or(function, "name"@, ""@),
            str_field_or(function, "arguments"@, ""@),
        );
        lemma_client_run(client_of(a), before, call_item_step(b, call).1);
    }
}

/// A chunk is allowed.
proof fn lemma_chunk_step(a: AnswerView, chunk: JsonView)
    requires
        going(a),
    ensures
        going(chunk_step(a, chunk).0),
        takes(a, chunk_step(a, chunk).1, chunk_step(a, chunk).0),
{
    match first_choice(chunk) {
        Some(choice) => {
            let delta = match field(choice, "delta"@) {
                Some(delta) => delta,
                None => JsonView::Null,
            };
            let thinking = str_field_or(delta, "reasoning_content"@, ""@);
            let text = str_field_or(delta, "content"@, ""@);
            let calls = delta_tool_calls(delta);
            let (b, first) = thinking_step(a, thinking);
            lemma_thinking_step(a, thinking);
            let (c, second) = text_step(b, text);
            lemma_text_step(b, text);
            let (d, third) = calls_step(c, calls);
            lemma_calls_step(c, calls);
            lemma_client_run(client_of(a), first, second);
            lemma_client_run(client_of(a), first + second, third);
        },
        None => {},
    }
}

/// The end is allowed, and is the end.
proof fn lemma_finish_step(a: AnswerView)
    requires
        going(a),
    ensures
        client_run(client_of(a), finish_step(a).1) == ClientState::Ended,
        finish_step(a).0.ended,
{
    let (b, first) = if a.blocks.len() == 0 {
        opened(a, StreamBlockView::Text)
    } else {
        (a, Seq::empty())
    };
    lemma_open_close(a, StreamBlockView::Text);
    let (c, second) = closed(b);
    lemma_open_close(b, StreamBlockView::Text);
    let last = AnthropicEventView::MessageDelta {
        stop_reason: c.stop_reason,
        output_tokens: c.output_tokens,
    };
    let stop = AnthropicEventView::MessageStop;
    lemma_client_run(client_of(a), first, second);
    lemma_client_single(client_of(c), last);
    lemma_client_single(ClientState::AfterDelta, stop);
    lemma_client_run(client_of(c), seq![last], seq![stop]);
    assert(seq![last] + seq![stop] =~= seq![last, stop]);
    lemma_client_run(client_of(a), first + second, seq![last, stop]);
}

/// Lines keep a conversion and its client together.
proof fn lemma_answer_lines_step(a: AnswerView, ls: Seq<Seq<char>>)
    requires
        going(a),
    ensures
        ({
            let (b, events) = answer_lines_step(a, ls);
            &&& going(b) || b.ended
            &&& takes(a, events, b)
        }),
    decreases ls.len(),
{
    if ls.len() > 0 {
        lemma_answer_lines_step(a, ls.drop_last());
        let (b, before) = answer_lines_step(a, ls.drop_last());
        let t = trimmed(ls.last());
        if !b.ended {
            if t == "data: [DONE]"@ {
                lemma_finish_step(b);
            } else {
                match after_prefix(t, "data: "@) {
                    Some(data) => match json_parse(data) {
                        Some(chunk) => {
                            lemma_chunk_step(b, chunk);
                        },
                        None => {},
                    },
                    None => {},
                }
            }
        }
        lemma_client_run(client_of(a), before, answer_line_step(b, ls.last()).1);
    }
}

/// The events of a converted answer are what the protocol allows, whatever the backend sends and
/// wherever it stops: the message begins and ends once, each content block is begun and ended, the
/// indices of the blocks count up from zero, something is added only to the open block and only of
/// its kind, and there is at least one block.
pub proof fn law_events_in_order(id: Seq<char>, model: Seq<char>, ls: Seq<Seq<char>>)
    ensures
        ({
            let (after, events) = answer_lines_step(fresh_answer(), ls);
            client_run(
                ClientState::BeforeMessage,
                seq![AnthropicEventView::MessageStart { id, model }] + events + finish_step(
                    after,
                ).1,
            ) == ClientState::Ended
        }),
{
    let (after, events) = answer_lines_step(fresh_answer(), ls);
    let start = AnthropicEventView::MessageStart { id, model };
    lemma_client_single(ClientState::BeforeMessage, start);
    lemma_answer_lines_step(fresh_answer(), ls);
    lemma_client_run(ClientState::BeforeMessage, seq![start], events);
    lemma_client_run(ClientState::BeforeMessage, seq![start] + events, finish_step(after).1);
    if after.ended {
        assert(seq![start] + events + finish_step(after).1 =~= seq![start] + events);
    } else {
        lemma_finish_step(after);
    }
}

/// Lines that come in two runs come to the same as in one.
pub proof fn law_answer_lines_in_runs(a: AnswerView, first: Seq<Seq<char>>, second: Seq<Seq<char>>)
    ensures
        ({
            let (middle, before) = answer_lines_step(a, first);
            let (after, rest) = answer_lines_step(middle, second);
            answer_lines_step(a, first + second) == (after, before + rest)
        }),
    decreases second.len(),
{
    let (middle, before) = answer_lines_step(a, first);
    if second.len() == 0 {
        assert(first + second =~= first);
        assert(before + Seq::<AnthropicEventView>::empty() =~= before);
    } else {
        law_answer_lines_in_runs(a, first, second.drop_last());
        let whole = first + second;
        assert(whole.drop_last() =~= first + second.drop_last());
        assert(whole.last() == second.last());
        let (almost, most) = answer_lines_step(middle, second.drop_last());
        let (after, last) = answer_line_step(almost, second.last());
        assert((before + most) + last =~= before + (most + last));
    }
}

/// Where the chunks of a stream begin and end makes no difference to a converted answer: two chunks
/// come to the same events, and leave the same conversion, as one chunk with the bytes of both.
pub proof fn law_answer_chunks_make_no_difference(
    a: AnswerView,
    rest: Seq<u8>,
    first: Seq<u8>,
    second: Seq<u8>,
)
    ensures
        ({
            let (ended, kept) = lines_from(rest, first);
            let (middle, before) = answer_lines_step(a, ended);
            let (ended_later, left) = lines_from(kept, second);
            let (after, more) = answer_lines_step(middle, ended_later);
            let (all, open) = lines_from(rest, first + second);
            &&& answer_lines_step(a, all) == (after, before + more)
            &&& open == left
        }),
{
    law_byte_lines_of_pieces(rest, first, second);
    let (ended, kept) = lines_from(rest, first);
    law_answer_lines_in_runs(a, ended, lines_from(kept, second).0);
}

/// The text that events carry, put together.
pub open spec fn carried_text(events: Seq<AnthropicEventView>) -> Seq<char>
    decreases events.len(),
{
    if events.len() == 0 {
        Seq::empty()
    } else {
        match events.last() {
            AnthropicEventView::BlockDelta { delta: BlockDeltaView::Text(text), .. } => {
                carried_text(events.drop_last()) + text
            },
            _ => carried_text(events.drop_last()),
        }
    }
}

/// The thinking that events carry, put together.
pub open spec fn carried_thinking(events: Seq<AnthropicEventView>) -> Seq<char>
    decreases events.len(),
{
    if events.len() == 0 {
        Seq::empty()
    } else {
        match events.last() {
            AnthropicEventView::BlockDelta { delta: BlockDeltaView::Thinking(text), .. } => {
                carried_thinking(events.drop_last()) + text
            },
            _ => carried_thinking(events.drop_last()),
        }
    }
}

/// What events carry is what the first carry and then what the others carry.
proof fn lemma_carried(first: Seq<AnthropicEventView>, second: Seq<AnthropicEventView>)
    ensures
        carried_text(first + second) == carried_text(first) + carried_text(second),
        carried_thinking(first + second) == carried_thinking(first) + carried_thinking(second),
    decreases second.len(),
{
    if second.len() == 0 {
        assert(first + second =~= first);
        assert(carried_text(first) + Seq::<char>::empty() =~= carried_text(first));
        assert(carried_thinking(first) + Seq::<char>::empty() =~= carried_thinking(first));
    } else {
        let whole = first + second;
        assert(whole.drop_last() =~= first + second.drop_last());
        lemma_carried(first, second.drop_last());
        assert(carried_text(whole) =~= carried_text(first) + carried_text(second));
        assert(carried_thinking(whole) =~= carried_thinking(first) + carried_thinking(second));
    }
}

/// An event that carries neither text nor thinking.
proof fn lemma_carries_nothing(e: AnthropicEventView)
    requires
        !(e matches AnthropicEventView::BlockDelta { delta: BlockDeltaView::Text(_), .. }),
        !(e matches AnthropicEventView::BlockDelta { delta: BlockDeltaView::Thinking(_), .. }),
    ensures
        carried_text(seq![e]) == Seq::<char>::empty(),
        carried_thinking(seq![e]) == Seq::<char>::empty(),
{
    reveal_with_fuel(carried_text, 2);
    reveal_with_fuel(carried_thinking, 2);
    let events = seq![e];
    assert(events.drop_last() =~= Seq::<AnthropicEventView>::empty());
}

/// Opening and closing blocks carries nothing.
proof fn lemma_opened_carries_nothing(a: AnswerView, block: StreamBlockView)
    ensures
        carried_text(opened(a, block).1) == Seq::<char>::empty(),
        carried_thinking(opened(a, block).1) == Seq::<char>::empty(),
{
    let (b, stop) = closed(a);
    if a.open {
        lemma_carries_nothing(AnthropicEventView::BlockStop { index: a.blocks.len() - 1 });
    }
    let start = AnthropicEventView::BlockStart { index: b.blocks.len() as int, block };
    lemma_carries_nothing(start);
    lemma_carried(stop, seq![start]);
    assert(opened(a, block).1 =~= stop + seq![start]);
    assert(Seq::<char>::empty() + Seq::<char>::empty() =~= Seq::<char>::empty());
}

/// Adding to a block carries what is added.
proof fn lemma_added_carries(a: AnswerView, delta: BlockDeltaView)
    ensures
        carried_text(added(a, delta)) == (match delta {
            BlockDeltaView::Text(text) => text,
            _ => Seq::empty(),
        }),
        carried_thinking(added(a, delta)) == (match delta {
            BlockDeltaView::Thinking(text) => text,
            _ => Seq::empty(),
        }),
{
    reveal_with_fuel(carried_text, 2);
    reveal_with_fuel(carried_thinking, 2);
    let events = added(a, delta);
    assert(events.drop_last() =~= Seq::<AnthropicEventView>::empty());
    match delta {
        BlockDeltaView::Text(text) => {
            assert(Seq::<char>::empty() + text =~= text);
        },
        BlockDeltaView::Thinking(text) => {
            assert(Seq::<char>::empty() + text =~= text);
        },
        _ => {},
    }
}

/// Tool calls carry neither text nor thinking.
proof fn lemma_calls_carry_nothing(a: AnswerView, calls: Seq<JsonView>)
    ensures
        carried_text(calls_step(a, calls).1) == Seq::<char>::empty(),
        carried_thinking(calls_step(a, calls).1) == Seq::<char>::empty(),
    decreases calls.len(),
{
    if calls.len() > 0 {
        lemma_calls_carry_nothing(a, calls.drop_last());
        let (b, before) = calls_step(a, calls.drop_last());
        let call = calls.last();
        let function = match field(call, "function"@) {
            Some(function) => function,
            None => JsonView::Null,
        };
        let id = str_field_or(call, "id"@, ""@);
        let name = str_field_or(function, "name"@, ""@);
        let arguments = str_field_or(function, "arguments"@, ""@);
        let block = StreamBlockView::ToolUse { id, name };
        let (c, events) = if id.len() > 0 || name.len() > 0 {
            let (c, started) = opened(b, block);
            (AnswerView { stop_reason: "tool_use"@, ..c }, started)
        } else {
            (b, Seq::empty())
        };
        lemma_opened_carries_nothing(b, block);
        let delta = BlockDeltaView::InputJson(arguments);
        lemma_added_carries(c, delta);
        lemma_carried(events, added(c, delta));
        lemma_carried(before, call_item_step(b, call).1);
        assert(Seq::<char>::empty() + Seq::<char>::empty() =~= Seq::<char>::empty());
    }
}

/// The input of tool calls that events carry, put together.
pub open spec fn carried_input(events: Seq<AnthropicEventView>) -> Seq<char>
    decreases events.len(),
{
    if events.len() == 0 {
        Seq::empty()
    } else {
        match events.last() {
            AnthropicEventView::BlockDelta { delta: BlockDeltaView::InputJson(text), .. } => {
                carried_input(events.drop_last()) + text
            },
            _ => carried_input(events.drop_last()),
        }
    }
}

/// The conversion of a tool call keeps its arguments: where it begins a call, or one is open, the
/// events carry exactly its arguments, and they go to the block of that call.
pub proof fn law_call_keeps_arguments(
    a: AnswerView,
    id: Seq<char>,
    name: Seq<char>,
    arguments: Seq<char>,
)
    requires
        id.len() > 0 || name.len() > 0 || in_tool(a),
    ensures
        carried_input(call_step(a, id, name, arguments).1) == arguments,
        in_tool(call_step(a, id, name, arguments).0),
        id.len() > 0 || name.len() > 0 ==> call_step(a, id, name, arguments).0.blocks.last() == (
        StreamBlockView::ToolUse { id, name }),
{
    reveal_with_fuel(carried_input, 3);
    let block = StreamBlockView::ToolUse { id, name };
    let (b, events) = if id.len() > 0 || name.len() > 0 {
        let (c, started) = opened(a, block);
        (AnswerView { stop_reason: "tool_use"@, ..c }, started)
    } else {
        (a, Seq::empty())
    };
    if events.len() > 0 {
        assert(events.drop_last() =~= closed(a).1);
        if a.open {
            assert(closed(a).1.drop_last() =~= Seq::<AnthropicEventView>::empty());
        }
    }
    assert(carried_input(events) =~= Seq::<char>::empty());
    if arguments.len() > 0 {
        let all = events + added(b, BlockDeltaView::InputJson(arguments));
        assert(all.drop_last() =~= events);
        assert(carried_input(all) =~= arguments);
    } else {
        assert(arguments =~= Seq::<char>::empty());
    }
}

/// The delta of the first choice of a chunk.
pub open spec fn chunk_delta(chunk: JsonView) -> JsonView {
    match first_choice(chunk) {
        Some(choice) => match field(choice, "delta"@) {
            Some(delta) => delta,
            None => JsonView::Null,
        },
        None => JsonView::Null,
    }
}

/// The conversion of a chunk keeps its text and its reasoning: the events carry exactly the text,
/// and as thinking exactly the reasoning, of its first choice.
pub proof fn law_chunk_keeps_content(a: AnswerView, chunk: JsonView)
    ensures
        carried_text(chunk_step(a, chunk).1) == str_field_or(
            chunk_delta(chunk),
            "content"@,
            Seq::empty(),
        ),
        carried_thinking(chunk_step(a, chunk).1) == str_field_or(
            chunk_delta(chunk),
            "reasoning_content"@,
            Seq::empty(),
        ),
{
    reveal_strlit("");
    assert(""@ =~= Seq::<char>::empty());
    match first_choice(chunk) {
        Some(choice) => {
            let delta = chunk_delta(chunk);
            let thinking = str_field_or(delta, "reasoning_content"@, ""@);
            let text = str_field_or(delta, "content"@, ""@);
            let (b, first) = thinking_step(a, thinking);
            let (c, second) = text_step(b, text);
            let (d, third) = calls_step(c, delta_tool_calls(delta));
            if thinking.len() > 0 {
                let (m, events) = if in_thinking(a) {
                    (a, Seq::empty())
                } else {
                    opened(a, StreamBlockView::Thinking)
                };
                lemma_opened_carries_nothing(a, StreamBlockView::Thinking);
                lemma_added_carries(m, BlockDeltaView::Thinking(thinking));
                lemma_carried(events, added(m, BlockDeltaView::Thinking(thinking)));
            }
            assert(carried_text(first) =~= Seq::<char>::empty());
            assert(carried_thinking(first) =~= thinking);
            if text.len() > 0 {
                let (m, events) = if in_text(b) {
                    (b, Seq::empty())
                } else {
                    opened(b, StreamBlockView::Text)
                };
                lemma_opened_carries_nothing(b, StreamBlockView::Text);
                lemma_added_carries(m, BlockDeltaView::Text(text));
                lemma_carried(events, added(m, BlockDeltaView::Text(text)));
            }
            assert(carried_text(second) =~= text);
            assert(carried_thinking(second) =~= Seq::<char>::empty());
            lemma_calls_carry_nothing(c, delta_tool_calls(delta));
            lemma_carried(first, second);
            lemma_carried(first + second, third);
            assert(carried_text(first + second + third) =~= text);
            assert(carried_thinking(first + second + third) =~= thinking);
        },
        None => {},
    }
}

/// Chunks one after the other.
pub open spec fn chunks_step(a: AnswerView, chunks: Seq<JsonView>) -> (
    AnswerView,
    Seq<AnthropicEventView>,
)
    decreases chunks.len(),
{
    if chunks.len() == 0 {
        (a, Seq::empty())
    } else {
        let (b, before) = chunks_step(a, chunks.drop_last());
        let (c, last) = chunk_step(b, chunks.last());
        (c, before + last)
    }
}

/// The text of chunks, put together.
pub open spec fn chunks_text(chunks: Seq<JsonView>) -> Seq<char>
    decreases chunks.len(),
{
    if chunks.len() == 0 {
        Seq::empty()
    } else {
        chunks_text(chunks.drop_last()) + str_field_or(
            chunk_delta(chunks.last()),
            "content"@,
            Seq::empty(),
        )
    }
}

/// The reasoning of chunks, put together.
pub open spec fn chunks_reasoning(chunks: Seq<JsonView>) -> Seq<char>
    decreases chunks.len(),
{
    if chunks.len() == 0 {
        Seq::empty()
    } else {
        chunks_reasoning(chunks.drop_last()) + str_field_or(
            chunk_delta(chunks.last()),
            "reasoning_content"@,
            Seq::empty(),
        )
    }
}

/// The conversion of a stream keeps its text and its reasoning, in order.
pub proof fn law_stream_keeps_content(a: AnswerView, chunks: Seq<JsonView>)
    ensures
        carried_text(chunks_step(a, chunks).1) == chunks_text(chunks),
        carried_thinking(chunks_step(a, chunks).1) == chunks_reasoning(chunks),
    decreases chunks.len(),
{
    if chunks.len() > 0 {
        law_stream_keeps_content(a, chunks.drop_last());
        let (b, before) = chunks_step(a, chunks.drop_last());
        law_chunk_keeps_content(b, chunks.last());
        lemma_carried(before, chunk_step(b, chunks.last()).1);
    }
}

/// Whether the end marker is among the lines of a backend, and the chunks that they hold before it.
pub open spec fn chunks_in(ls: Seq<Seq<char>>) -> (bool, Seq<JsonView>)
    decreases ls.len(),
{
    if ls.len() == 0 {
        (false, Seq::empty())
    } else {
        let (over, front) = chunks_in(ls.drop_last());
        let t = trimmed(ls.last());
        if over || t == "data: [DONE]"@ {
            (true, front)
        } else {
            match after_prefix(t, "data: "@) {
                Some(data) => match json_parse(data) {
                    Some(chunk) => (false, front.push(chunk)),
                    None => (false, front),
                },
                None => (false, front),
            }
        }
    }
}

/// Lines come to what their chunks come to, and to the end where the end marker is among them.
proof fn lemma_lines_are_chunks(a: AnswerView, ls: Seq<Seq<char>>)
    requires
        going(a),
    ensures
        ({
            let (over, chunks) = chunks_in(ls);
            let (c, sent) = chunks_step(a, chunks);
            &&& going(c)
            &&& answer_lines_step(a, ls) == (if over {
                (finish_step(c).0, sent + finish_step(c).1)
            } else {
                (c, sent)
            })
        }),
    decreases ls.len(),
{
    if ls.len() > 0 {
        lemma_lines_are_chunks(a, ls.drop_last());
        let (over, front) = chunks_in(ls.drop_last());
        let (c, sent) = chunks_step(a, front);
        let (b, before) = answer_lines_step(a, ls.drop_last());
        let (_, last) = answer_line_step(b, ls.last());
        let t = trimmed(ls.last());
        if over {
            assert(before + last =~= before);
        } else if t != "data: [DONE]"@ {
            match after_prefix(t, "data: "@) {
                Some(data) => match json_parse(data) {
                    Some(chunk) => {
                        lemma_chunk_step(c, chunk);
                        assert(front.push(chunk).drop_last() =~= front);
                    },
                    None => {
                        assert(before + last =~= before);
                    },
                },
                None => {
                    assert(before + last =~= before);
                },
            }
        }
    }
}

/// Lines come to what their chunks come to, and to the end where the end marker is among them.
pub proof fn law_lines_are_chunks(ls: Seq<Seq<char>>)
    ensures
        ({
            let (over, chunks) = chunks_in(ls);
            let (c, sent) = chunks_step(fresh_answer(), chunks);
            answer_lines_step(fresh_answer(), ls) == (if over {
                (finish_step(c).0, sent + finish_step(c).1)
            } else {
                (c, sent)
            })
        }),
{
    lemma_lines_are_chunks(fresh_answer(), ls);
}

/// The end carries neither text nor thinking.
proof fn lemma_finish_carries_nothing(a: AnswerView)
    ensures
        carried_text(finish_step(a).1) == Seq::<char>::empty(),
        carried_thinking(finish_step(a).1) == Seq::<char>::empty(),
{
    if !a.ended {
        let (b, first) = if a.blocks.len() == 0 {
            opened(a, StreamBlockView::Text)
        } else {
            (a, Seq::empty())
        };
        lemma_opened_carries_nothing(a, StreamBlockView::Text);
        let (c, second) = closed(b);
        if b.open {
            lemma_carries_nothing(AnthropicEventView::BlockStop { index: b.blocks.len() - 1 });
        }
        let last = AnthropicEventView::MessageDelta {
            stop_reason: c.stop_reason,
            output_tokens: c.output_tokens,
        };
        let stop = AnthropicEventView::MessageStop;
        lemma_carries_nothing(last);
        lemma_carries_nothing(stop);
        lemma_carried(seq![last], seq![stop]);
        assert(seq![last] + seq![stop] =~= seq![last, stop]);
        lemma_carried(first, second);
        lemma_carried(first + second, seq![last, stop]);
        assert(Seq::<char>::empty() + Seq::<char>::empty() =~= Seq::<char>::empty());
    }
}

/// A converted answer, from its first line to its end, carries exactly the text and, as thinking,
/// exactly the reasoning that the backend sent before the end marker, in order.
pub proof fn law_answer_keeps_content(ls: Seq<Seq<char>>)
    ensures
        ({
            let (after, events) = answer_lines_step(fresh_answer(), ls);
            let all = events + finish_step(after).1;
            &&& carried_text(all) == chunks_text(chunks_in(ls).1)
            &&& carried_thinking(all) == chunks_reasoning(chunks_in(ls).1)
        }),
{
    let (after, events) = answer_lines_step(fresh_answer(), ls);
    let (over, chunks) = chunks_in(ls);
    let (c, sent) = chunks_step(fresh_answer(), chunks);
    lemma_lines_are_chunks(fresh_answer(), ls);
    law_stream_keeps_content(fresh_answer(), chunks);
    lemma_finish_carries_nothing(c);
    lemma_finish_carries_nothing(after);
    lemma_carried(sent, finish_step(c).1);
    lemma_carried(events, finish_step(after).1);
    let all = events + finish_step(after).1;
    assert(carried_text(all) =~= chunks_text(chunks));
    assert(carried_thinking(all) =~= chunks_reasoning(chunks));
}

} // verus!
