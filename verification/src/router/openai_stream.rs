//! A streamed answer in the form of the OpenAI protocol, from a backend of either protocol.

use vstd::prelude::*;

use crate::json::{field, str_field, str_field_or, uint_field, Json, JsonView, NumberView};
use crate::json_codec::{json_parse, json_text, parse_json, render_json};
use crate::router::anthropic::stop_reason_word;
use crate::router::openai::{replace_model, with_model};
use crate::router::sse::{chunk_text, ended_lines, law_lines_of_pieces, open_line, LineBuffer};
use crate::text::{
    after_prefix, has_prefix, same_text, starts_with, strip_prefix, trim, trimmed,
};

verus! {

/// An event that the client gets.
#[derive(Debug, Clone, PartialEq)]
pub enum ClientEvent {
    /// Data.
    Data(String),
    /// The end of the stream.
    Done,
}

/// The model of an event.
pub enum ClientEventView {
    Data(Seq<char>),
    Done,
}

impl DeepView for ClientEvent {
    type V = ClientEventView;

    open spec fn deep_view(&self) -> ClientEventView {
        match *self {
            ClientEvent::Data(text) => ClientEventView::Data(text@),
            ClientEvent::Done => ClientEventView::Done,
        }
    }
}

impl ClientEvent {
    /// The data that the event is sent as.
    pub fn data(&self) -> (r: &str)
        ensures
            r@ == (match self.deep_view() {
                ClientEventView::Data(text) => text,
                ClientEventView::Done => "[DONE]"@,
            }),
    {
        match self {
            ClientEvent::Data(text) => text.as_str(),
            ClientEvent::Done => "[DONE]",
        }
    }
}

/// The conversion of an Anthropic stream: the identifier of the message, and the index of the
/// content block of each tool call so far.
pub struct ConversionView {
    pub id: Seq<char>,
    pub tool_blocks: Seq<u64>,
}

/// What stays the same over a stream: the alias that stands for the model, and the time that the
/// chunks are given.
pub struct StreamSetting {
    pub alias: Seq<char>,
    pub created: u64,
}

/// The model of a stream: its setting, whether it has ended, and the conversion where the backend
/// speaks the Anthropic protocol.
pub struct StreamView {
    pub setting: StreamSetting,
    pub done: bool,
    pub conversion: Option<ConversionView>,
}

/// The OpenAI word for why an answer ended, given the Anthropic one.
pub open spec fn finish_reason_word(stop_reason: Seq<char>) -> Seq<char> {
    if stop_reason == "end_turn"@ {
        "stop"@
    } else if stop_reason == "max_tokens"@ {
        "length"@
    } else if stop_reason == "tool_use"@ {
        "tool_calls"@
    } else {
        stop_reason
    }
}

/// The place of a tool call among the tool calls, given the index of its content block.
pub open spec fn tool_place(tool_blocks: Seq<u64>, block: u64) -> Option<int>
    decreases tool_blocks.len(),
{
    if tool_blocks.len() == 0 {
        None
    } else if tool_blocks.last() == block {
        Some(tool_blocks.len() - 1)
    } else {
        tool_place(tool_blocks.drop_last(), block)
    }
}

/// A chunk of a stream.
pub open spec fn chunk_json(
    setting: StreamSetting,
    id: Seq<char>,
    delta: JsonView,
    finish_reason: JsonView,
) -> JsonView {
    JsonView::Object(
        map![
            "id"@ => JsonView::Str(id),
            "object"@ => JsonView::Str("chat.completion.chunk"@),
            "created"@ => JsonView::Number(NumberView::Int(setting.created as int)),
            "model"@ => JsonView::Str(setting.alias),
            "choices"@ => JsonView::Array(
                seq![
                    JsonView::Object(
                        map![
                            "index"@ => JsonView::Number(NumberView::Int(0)),
                            "delta"@ => delta,
                            "finish_reason"@ => finish_reason,
                        ],
                    ),
                ],
            ),
        ],
    )
}

/// The delta that adds text.
pub open spec fn text_delta(text: Seq<char>) -> JsonView {
    JsonView::Object(map!["content"@ => JsonView::Str(text)])
}

/// The delta that adds to the reasoning.
pub open spec fn reasoning_delta(text: Seq<char>) -> JsonView {
    JsonView::Object(map!["reasoning_content"@ => JsonView::Str(text)])
}

/// The delta that begins the tool call at a place.
pub open spec fn call_delta(place: int, id: Seq<char>, name: Seq<char>) -> JsonView {
    JsonView::Object(
        map![
            "tool_calls"@ => JsonView::Array(
                seq![
                    JsonView::Object(
                        map![
                            "index"@ => JsonView::Number(NumberView::Int(place)),
                            "id"@ => JsonView::Str(id),
                            "type"@ => JsonView::Str("function"@),
                            "function"@ => JsonView::Object(
                                map![
                                    "name"@ => JsonView::Str(name),
                                    "arguments"@ => JsonView::Str(""@),
                                ],
                            ),
                        ],
                    ),
                ],
            ),
        ],
    )
}

/// The delta that adds to the arguments of the tool call at a place.
pub open spec fn arguments_delta(place: int, partial: Seq<char>) -> JsonView {
    JsonView::Object(
        map![
            "tool_calls"@ => JsonView::Array(
                seq![
                    JsonView::Object(
                        map![
                            "index"@ => JsonView::Number(NumberView::Int(place)),
                            "function"@ => JsonView::Object(
                                map!["arguments"@ => JsonView::Str(partial)],
                            ),
                        ],
                    ),
                ],
            ),
        ],
    )
}

/// The index of the content block that an event is about.
pub open spec fn block_index(event: JsonView) -> u64 {
    match uint_field(event, "index"@) {
        Some(n) => n,
        None => 0,
    }
}

/// The member of a member of a value, or null.
pub open spec fn inner(v: JsonView, key: Seq<char>) -> JsonView {
    match field(v, key) {
        Some(x) => x,
        None => JsonView::Null,
    }
}

/// The delta of the chunk that an event of an Anthropic stream comes to, with the reason why the
/// answer ended where the event says so; and the conversion after the event.
pub open spec fn converted(c: ConversionView, event: JsonView) -> (
    ConversionView,
    Option<(JsonView, JsonView)>,
) {
    let t = str_field_or(event, "type"@, ""@);
    if t == "message_start"@ {
        (
            ConversionView { id: str_field_or(inner(event, "message"@), "id"@, ""@), ..c },
            None,
        )
    } else if t == "content_block_start"@ {
        let block = inner(event, "content_block"@);
        if str_field_or(block, "type"@, ""@) == "tool_use"@ {
            (
                ConversionView { tool_blocks: c.tool_blocks.push(block_index(event)), ..c },
                Some(
                    (
                        call_delta(
                            c.tool_blocks.len() as int,
                            str_field_or(block, "id"@, ""@),
                            str_field_or(block, "name"@, ""@),
                        ),
                        JsonView::Null,
                    ),
                ),
            )
        } else {
            (c, None)
        }
    } else if t == "content_block_delta"@ {
        let delta = inner(event, "delta"@);
        let kind = str_field_or(delta, "type"@, ""@);
        if kind == "text_delta"@ {
            (c, Some((text_delta(str_field_or(delta, "text"@, ""@)), JsonView::Null)))
        } else if kind == "thinking_delta"@ {
            (c, Some((reasoning_delta(str_field_or(delta, "thinking"@, ""@)), JsonView::Null)))
        } else if kind == "input_json_delta"@ {
            match tool_place(c.tool_blocks, block_index(event)) {
                Some(place) => (
                    c,
                    Some(
                        (
                            arguments_delta(place, str_field_or(delta, "partial_json"@, ""@)),
                            JsonView::Null,
                        ),
                    ),
                ),
                None => (c, None),
            }
        } else {
            (c, None)
        }
    } else if t == "message_delta"@ {
        match str_field(inner(event, "delta"@), "stop_reason"@) {
            Some(word) => (
                c,
                Some((JsonView::Object(Map::empty()), JsonView::Str(finish_reason_word(word)))),
            ),
            None => (c, None),
        }
    } else {
        (c, None)
    }
}

/// Whether an event begins an Anthropic stream.
pub open spec fn begins_anthropic(event: JsonView) -> bool {
    str_field(event, "type"@) == Some("message_start"@)
}

/// Whether an event of an Anthropic stream is converted: all are but errors, which reach the client
/// as they are.
pub open spec fn is_converted(event: JsonView) -> bool {
    str_field(event, "type"@) matches Some(t) && t != "error"@
}

/// What an event of an Anthropic stream comes to: the chunk, or the end of the stream.
pub open spec fn convert_step(s: StreamView, c: ConversionView, event: JsonView) -> (
    StreamView,
    Seq<ClientEventView>,
) {
    if str_field(event, "type"@) == Some("message_stop"@) {
        (StreamView { done: true, ..s }, seq![ClientEventView::Done])
    } else {
        let (after, change) = converted(c, event);
        (
            StreamView { conversion: Some(after), ..s },
            match change {
                Some((delta, finish_reason)) => seq![
                    ClientEventView::Data(
                        json_text(chunk_json(s.setting, after.id, delta, finish_reason)),
                    ),
                ],
                None => Seq::empty(),
            },
        )
    }
}

/// The data of an event of an OpenAI stream, with the alias as its model where it has one.
pub open spec fn relabelled(
    data: Seq<char>,
    parsed: Option<JsonView>,
    alias: Seq<char>,
) -> Seq<char> {
    match parsed {
        Some(chunk) => match with_model(chunk, alias) {
            Some(replaced) => json_text(replaced),
            None => data,
        },
        None => data,
    }
}

/// What data of the backend comes to, given what it is as JSON. Where the backend speaks the
/// Anthropic protocol, which the beginning of a message shows, its events are converted;
/// everything else, its errors among it, is passed on with the alias as its model.
pub open spec fn data_step(s: StreamView, data: Seq<char>, parsed: Option<JsonView>) -> (
    StreamView,
    Seq<ClientEventView>,
) {
    let plain = (s, seq![ClientEventView::Data(relabelled(data, parsed, s.setting.alias))]);
    match parsed {
        None => plain,
        Some(event) => match s.conversion {
            Some(c) => if is_converted(event) {
                convert_step(s, c, event)
            } else {
                plain
            },
            None => if begins_anthropic(event) {
                convert_step(
                    s,
                    ConversionView { id: Seq::empty(), tool_blocks: Seq::empty() },
                    event,
                )
            } else {
                plain
            },
        },
    }
}

/// What a line of the backend comes to. Empty lines, comments and lines that are no data come to
/// nothing. After the end nothing comes any more.
pub open spec fn line_step(s: StreamView, line: Seq<char>) -> (StreamView, Seq<ClientEventView>) {
    let t = trimmed(line);
    if s.done || t.len() == 0 || has_prefix(t, ":"@) {
        (s, Seq::empty())
    } else if t == "data: [DONE]"@ {
        (StreamView { done: true, ..s }, seq![ClientEventView::Done])
    } else {
        match after_prefix(t, "data: "@) {
            Some(data) => data_step(s, data, json_parse(data)),
            None => (s, Seq::empty()),
        }
    }
}

/// What lines of the backend come to, one after the other.
pub open spec fn lines_step(s: StreamView, lines: Seq<Seq<char>>) -> (
    StreamView,
    Seq<ClientEventView>,
)
    decreases lines.len(),
{
    if lines.len() == 0 {
        (s, Seq::empty())
    } else {
        let (middle, before) = lines_step(s, lines.drop_last());
        let (after, last) = line_step(middle, lines.last());
        (after, before + last)
    }
}

/// How a stream from the backend ended.
#[derive(Debug, Clone, PartialEq)]
pub enum StreamEnd {
    /// The backend closed it.
    Closed,
    /// It broke, and why.
    Interrupted(String),
    /// No data came for too long.
    TimedOut,
}

/// The JSON that tells the client of an error.
pub open spec fn error_json(error: Seq<char>, detail: Seq<char>) -> JsonView {
    JsonView::Object(
        map!["error"@ => JsonView::Str(error), "detail"@ => JsonView::Str(detail)],
    )
}

/// What the end of the stream from the backend comes to. The client gets the end exactly where it
/// has not got it yet, after word of an error.
pub open spec fn end_events(s: StreamView, end: StreamEnd) -> Seq<ClientEventView> {
    if s.done {
        Seq::empty()
    } else {
        match end {
            StreamEnd::Closed => seq![ClientEventView::Done],
            StreamEnd::Interrupted(why) => seq![
                ClientEventView::Data(json_text(error_json("stream interrupted"@, why@))),
                ClientEventView::Done,
            ],
            StreamEnd::TimedOut => seq![
                ClientEventView::Data(
                    json_text(error_json("stream timeout"@, "backend stopped sending data"@)),
                ),
                ClientEventView::Done,
            ],
        }
    }
}

/// The conversion of an Anthropic stream.
#[derive(Debug, Clone, PartialEq)]
pub struct Conversion {
    pub id: String,
    pub tool_blocks: Vec<u64>,
}

impl DeepView for Conversion {
    type V = ConversionView;

    open spec fn deep_view(&self) -> ConversionView {
        ConversionView { id: self.id@, tool_blocks: self.tool_blocks@ }
    }
}

/// The OpenAI word for why an answer ended, given the Anthropic one.
pub fn map_finish_reason(stop_reason: &str) -> (r: &str)
    ensures
        r@ == finish_reason_word(stop_reason@),
{
    if same_text(stop_reason, "end_turn") {
        "stop"
    } else if same_text(stop_reason, "max_tokens") {
        "length"
    } else if same_text(stop_reason, "tool_use") {
        "tool_calls"
    } else {
        stop_reason
    }
}

/// The member of a value, or null.
fn inner_json(v: &Json, key: &str) -> (r: Json)
    ensures
        r@ == inner(v@, key@),
{
    match v.get(key) {
        Some(x) => x.clone(),
        None => Json::Null,
    }
}

/// The array of one value.
fn single(v: Json) -> (r: Json)
    ensures
        r@ == JsonView::Array(seq![v@]),
{
    let ghost view = v@;
    let items = vec![v];
    assert(items.deep_view() =~= seq![view]);
    Json::array(items)
}

impl Conversion {
    /// The place of a tool call among the tool calls, given the index of its content block.
    fn place(&self, block: u64) -> (r: Option<u64>)
        ensures
            match r {
                Some(p) => tool_place(self.tool_blocks@, block) == Some(p as int),
                None => tool_place(self.tool_blocks@, block) is None,
            },
    {
        let mut i: usize = self.tool_blocks.len();
        assert(self.tool_blocks@.take(i as int) =~= self.tool_blocks@);
        while i > 0
            invariant
                i <= self.tool_blocks.len(),
                tool_place(self.tool_blocks@, block) == tool_place(
                    self.tool_blocks@.take(i as int),
                    block,
                ),
            decreases i,
        {
            assert(self.tool_blocks@.take(i as int).drop_last() =~= self.tool_blocks@.take(i - 1));
            if self.tool_blocks[i - 1] == block {
                return Some((i - 1) as u64);
            }
            i -= 1;
        }
        None
    }

    /// Takes an event of an Anthropic stream. Returns the delta of the chunk that it comes to, with
    /// the reason why the answer ended, or null.
    pub fn convert(&mut self, event: &Json) -> (r: Option<(Json, Json)>)
        ensures
            final(self).deep_view() == converted(old(self).deep_view(), event@).0,
            r.deep_view() == converted(old(self).deep_view(), event@).1,
    {
        let t = event.str_field_or("type", "");
        let index: u64 = event.uint_field("index").unwrap_or(0);
        if same_text(t.as_str(), "message_start") {
            self.id = inner_json(event, "message").str_field_or("id", "");
            None
        } else if same_text(t.as_str(), "content_block_start") {
            let block = inner_json(event, "content_block");
            if same_text(block.str_field_or("type", "").as_str(), "tool_use") {
                let place: u64 = self.tool_blocks.len() as u64;
                self.tool_blocks.push(index);
                let function = Json::object().with(
                    "name",
                    Json::text(block.str_field_or("name", "").as_str()),
                ).with("arguments", Json::text(""));
                let call = Json::object().with("index", Json::uint(place)).with(
                    "id",
                    Json::text(block.str_field_or("id", "").as_str()),
                ).with("type", Json::text("function")).with("function", function);
                Some((Json::object().with("tool_calls", single(call)), Json::Null))
            } else {
                None
            }
        } else if same_text(t.as_str(), "content_block_delta") {
            let delta = inner_json(event, "delta");
            let kind = delta.str_field_or("type", "");
            if same_text(kind.as_str(), "text_delta") {
                let text = delta.str_field_or("text", "");
                Some((Json::object().with("content", Json::text(text.as_str())), Json::Null))
            } else if same_text(kind.as_str(), "thinking_delta") {
                let text = delta.str_field_or("thinking", "");
                let reasoning = Json::object().with("reasoning_content", Json::text(text.as_str()));
                Some((reasoning, Json::Null))
            } else if same_text(kind.as_str(), "input_json_delta") {
                match self.place(index) {
                    Some(place) => {
                        let partial = delta.str_field_or("partial_json", "");
                        let call = Json::object().with("index", Json::uint(place)).with(
                            "function",
                            Json::object().with("arguments", Json::text(partial.as_str())),
                        );
                        Some((Json::object().with("tool_calls", single(call)), Json::Null))
                    },
                    None => None,
                }
            } else {
                None
            }
        } else if same_text(t.as_str(), "message_delta") {
            match inner_json(event, "delta").str_field("stop_reason") {
                Some(word) => Some((Json::object(), Json::text(map_finish_reason(word)))),
                None => None,
            }
        } else {
            None
        }
    }
}

/// A streamed answer.
#[derive(Debug, Clone, PartialEq)]
pub struct OpenAIStream {
    pub alias: String,
    pub created: u64,
    pub lines: LineBuffer,
    pub done: bool,
    pub conversion: Option<Conversion>,
}

impl View for OpenAIStream {
    type V = StreamView;

    open spec fn view(&self) -> StreamView {
        StreamView {
            setting: StreamSetting { alias: self.alias@, created: self.created },
            done: self.done,
            conversion: self.conversion.deep_view(),
        }
    }
}

/// The model of a stream at its start.
pub open spec fn fresh_stream(setting: StreamSetting) -> StreamView {
    StreamView { setting, done: false, conversion: None }
}

impl OpenAIStream {
    /// The stream at its start.
    pub fn new(alias: &str, created: u64) -> (r: OpenAIStream)
        ensures
            r@ == fresh_stream(StreamSetting { alias: alias@, created }),
            r.lines@ == Seq::<char>::empty(),
    {
        OpenAIStream {
            alias: alias.to_owned(),
            created,
            lines: LineBuffer::new(),
            done: false,
            conversion: None,
        }
    }

    /// The text of a chunk.
    fn chunk_text(&self, id: &str, delta: Json, finish_reason: Json) -> (r: String)
        ensures
            r@ == json_text(chunk_json(self@.setting, id@, delta@, finish_reason@)),
    {
        let choice = Json::object().with("index", Json::uint(0)).with("delta", delta).with(
            "finish_reason",
            finish_reason,
        );
        let chunk = Json::object().with("id", Json::text(id)).with(
            "object",
            Json::text("chat.completion.chunk"),
        ).with("created", Json::uint(self.created)).with(
            "model",
            Json::text(self.alias.as_str()),
        ).with("choices", single(choice));
        render_json(&chunk)
    }

    /// Takes data of the backend, given what it is as JSON.
    pub fn take_data(&mut self, data: &str, parsed: Option<Json>) -> (r: Vec<ClientEvent>)
        ensures
            final(self)@ == data_step(old(self)@, data@, parsed.deep_view()).0,
            r.deep_view() == data_step(old(self)@, data@, parsed.deep_view()).1,
            final(self).lines == old(self).lines,
    {
        let ghost goal = data_step(self@, data@, parsed.deep_view());
        let mut out: Vec<ClientEvent> = Vec::new();
        assert(out.deep_view() =~= Seq::<ClientEventView>::empty());
        let event = match parsed {
            None => {
                out.push(ClientEvent::Data(data.to_owned()));
                assert(out.deep_view() =~= goal.1);
                return out;
            },
            Some(event) => event,
        };
        let kind = event.str_field("type");
        let starts = match kind {
            Some(t) => same_text(t, "message_start"),
            None => false,
        };
        let stops = match kind {
            Some(t) => same_text(t, "message_stop"),
            None => false,
        };
        let converts = match &self.conversion {
            Some(_) => match kind {
                Some(t) => !same_text(t, "error"),
                None => false,
            },
            None => starts,
        };
        if !converts {
            let text = match replace_model(event, self.alias.as_str()) {
                Some(replaced) => render_json(&replaced),
                None => data.to_owned(),
            };
            out.push(ClientEvent::Data(text));
            assert(out.deep_view() =~= goal.1);
            return out;
        }
        let mut conversion = match self.conversion.take() {
            Some(c) => c,
            None => Conversion { id: String::new(), tool_blocks: Vec::new() },
        };
        if stops {
            proof {
                reveal_strlit("message_start");
                reveal_strlit("message_stop");
                assert("message_start"@.len() != "message_stop"@.len());
            }
            self.conversion = Some(conversion);
            self.done = true;
            out.push(ClientEvent::Done);
            assert(out.deep_view() =~= goal.1);
            return out;
        }
        let change = conversion.convert(&event);
        match change {
            Some(pair) => {
                let (delta, finish_reason) = pair;
                let text = self.chunk_text(conversion.id.as_str(), delta, finish_reason);
                out.push(ClientEvent::Data(text));
            },
            None => {},
        }
        self.conversion = Some(conversion);
        assert(out.deep_view() =~= goal.1);
        out
    }

    /// Takes a line of the backend.
    pub fn take_line(&mut self, line: &str) -> (r: Vec<ClientEvent>)
        ensures
            final(self)@ == line_step(old(self)@, line@).0,
            r.deep_view() == line_step(old(self)@, line@).1,
            final(self).lines == old(self).lines,
    {
        let t = trim(line);
        let mut out: Vec<ClientEvent> = Vec::new();
        assert(out.deep_view() =~= Seq::<ClientEventView>::empty());
        if self.done || t.unicode_len() == 0 || starts_with(t, ":") {
            return out;
        }
        if same_text(t, "data: [DONE]") {
            self.done = true;
            out.push(ClientEvent::Done);
            assert(out.deep_view() =~= seq![ClientEventView::Done]);
            return out;
        }
        match strip_prefix(t, "data: ") {
            Some(data) => self.take_data(data, parse_json(data)),
            None => out,
        }
    }

    /// Takes lines of the backend.
    fn take_lines(&mut self, lines: Vec<String>) -> (r: Vec<ClientEvent>)
        ensures
            final(self)@ == lines_step(old(self)@, lines.deep_view()).0,
            r.deep_view() == lines_step(old(self)@, lines.deep_view()).1,
            final(self).lines == old(self).lines,
    {
        let ghost all = lines.deep_view();
        let mut out: Vec<ClientEvent> = Vec::new();
        let mut i: usize = 0;
        assert(out.deep_view() =~= Seq::<ClientEventView>::empty());
        while i < lines.len()
            invariant
                i <= lines.len(),
                all == lines.deep_view(),
                self@ == lines_step(old(self)@, all.take(i as int)).0,
                out.deep_view() == lines_step(old(self)@, all.take(i as int)).1,
                self.lines == old(self).lines,
            decreases lines.len() - i,
        {
            let ghost before = out.deep_view();
            proof {
                assert(all.take(i + 1).drop_last() =~= all.take(i as int));
                assert(all.take(i + 1).last() == lines@[i as int]@);
            }
            let mut more = self.take_line(lines[i].as_str());
            let ghost more_views = more.deep_view();
            out.append(&mut more);
            assert(out.deep_view() =~= before + more_views);
            i += 1;
        }
        assert(all.take(i as int) =~= all);
        out
    }

    /// Takes a chunk of bytes of the backend. Returns the events that the client gets for it.
    pub fn take_bytes(&mut self, bytes: &[u8]) -> (r: Vec<ClientEvent>)
        ensures
            final(self)@ == lines_step(
                old(self)@,
                ended_lines(old(self).lines@ + chunk_text(bytes@)),
            ).0,
            r.deep_view() == lines_step(
                old(self)@,
                ended_lines(old(self).lines@ + chunk_text(bytes@)),
            ).1,
            final(self).lines@ == open_line(old(self).lines@ + chunk_text(bytes@)),
    {
        let lines = self.lines.feed_bytes(bytes);
        self.take_lines(lines)
    }

    /// Takes the end of the stream from the backend. Returns the events that the client still gets.
    pub fn finish(&mut self, end: StreamEnd) -> (r: Vec<ClientEvent>)
        ensures
            r.deep_view() == end_events(old(self)@, end),
            final(self)@ == (StreamView { done: true, ..old(self)@ }),
            final(self).lines == old(self).lines,
    {
        let mut out: Vec<ClientEvent> = Vec::new();
        assert(out.deep_view() =~= Seq::<ClientEventView>::empty());
        if self.done {
            return out;
        }
        self.done = true;
        match &end {
            StreamEnd::Closed => {},
            StreamEnd::Interrupted(why) => {
                let error = Json::object().with("error", Json::text("stream interrupted")).with(
                    "detail",
                    Json::text(why.as_str()),
                );
                out.push(ClientEvent::Data(render_json(&error)));
            },
            StreamEnd::TimedOut => {
                let error = Json::object().with("error", Json::text("stream timeout")).with(
                    "detail",
                    Json::text("backend stopped sending data"),
                );
                out.push(ClientEvent::Data(render_json(&error)));
            },
        }
        out.push(ClientEvent::Done);
        assert(out.deep_view() =~= end_events(old(self)@, end));
        out
    }
}

/// Lines that come in two runs come to the same as in one.
pub proof fn law_lines_in_runs(s: StreamView, first: Seq<Seq<char>>, second: Seq<Seq<char>>)
    ensures
        ({
            let (middle, before) = lines_step(s, first);
            let (after, rest) = lines_step(middle, second);
            lines_step(s, first + second) == (after, before + rest)
        }),
    decreases second.len(),
{
    let (middle, before) = lines_step(s, first);
    if second.len() == 0 {
        assert(first + second =~= first);
        assert(before + Seq::<ClientEventView>::empty() =~= before);
    } else {
        law_lines_in_runs(s, first, second.drop_last());
        let whole = first + second;
        assert(whole.drop_last() =~= first + second.drop_last());
        assert(whole.last() == second.last());
        let (almost, most) = lines_step(middle, second.drop_last());
        let (after, last) = line_step(almost, second.last());
        assert((before + most) + last =~= before + (most + last));
    }
}

/// Where the chunks of a text begin and end makes no difference: two chunks come to the same
/// events, and leave the same stream, as one chunk with the text of both.
pub proof fn law_chunks_make_no_difference(
    s: StreamView,
    rest: Seq<char>,
    first: Seq<char>,
    second: Seq<char>,
)
    ensures
        ({
            let (middle, before) = lines_step(s, ended_lines(rest + first));
            let kept = open_line(rest + first);
            let (after, more) = lines_step(middle, ended_lines(kept + second));
            &&& lines_step(s, ended_lines(rest + (first + second))) == (after, before + more)
            &&& open_line(rest + (first + second)) == open_line(kept + second)
        }),
{
    assert(rest + (first + second) =~= (rest + first) + second);
    law_lines_of_pieces(rest + first, second);
    law_lines_in_runs(s, ended_lines(rest + first), ended_lines(open_line(rest + first) + second));
}

/// Whether the end is not among the events.
pub open spec fn no_end(events: Seq<ClientEventView>) -> bool {
    forall|i: int| 0 <= i < events.len() ==> (#[trigger] events[i]) is Data
}

/// Whether the end is the last of the events, and only that.
pub open spec fn ends_once(events: Seq<ClientEventView>) -> bool {
    events.len() > 0 && events.last() is Done && no_end(events.drop_last())
}

/// The events of a stream hold no end while it has not ended, and then one, at their end.
proof fn lemma_end_when_done(s: StreamView, lines: Seq<Seq<char>>)
    requires
        !s.done,
    ensures
        ({
            let (after, events) = lines_step(s, lines);
            if after.done {
                ends_once(events)
            } else {
                no_end(events)
            }
        }),
    decreases lines.len(),
{
    if lines.len() > 0 {
        lemma_end_when_done(s, lines.drop_last());
        let (middle, before) = lines_step(s, lines.drop_last());
        let (after, last) = line_step(middle, lines.last());
        let whole = before + last;
        if middle.done {
            assert(whole =~= before);
        } else if after.done {
            assert(whole.drop_last() =~= before + last.drop_last());
        }
    }
}

/// The client of a stream gets its end exactly once, and nothing after it, whatever the backend
/// sends and however it stops.
pub proof fn law_one_end(setting: StreamSetting, lines: Seq<Seq<char>>, end: StreamEnd)
    ensures
        ({
            let (after, events) = lines_step(fresh_stream(setting), lines);
            ends_once(events + end_events(after, end))
        }),
{
    lemma_end_when_done(fresh_stream(setting), lines);
    let (after, events) = lines_step(fresh_stream(setting), lines);
    let last = end_events(after, end);
    if after.done {
        assert(events + last =~= events);
    } else {
        assert((events + last).drop_last() =~= events + last.drop_last());
    }
}

/// The text that the events of an Anthropic stream carry, put together.
pub open spec fn anthropic_text(events: Seq<JsonView>) -> Seq<char>
    decreases events.len(),
{
    if events.len() == 0 {
        Seq::empty()
    } else {
        let front = anthropic_text(events.drop_last());
        let event = events.last();
        let delta = inner(event, "delta"@);
        if str_field_or(event, "type"@, ""@) == "content_block_delta"@ && str_field_or(
            delta,
            "type"@,
            ""@,
        ) == "text_delta"@ {
            front + str_field_or(delta, "text"@, ""@)
        } else {
            front
        }
    }
}

/// The deltas that the events of an Anthropic stream come to, and the conversion after them.
pub open spec fn converted_all(c: ConversionView, events: Seq<JsonView>) -> (
    ConversionView,
    Seq<JsonView>,
)
    decreases events.len(),
{
    if events.len() == 0 {
        (c, Seq::empty())
    } else {
        let (middle, deltas) = converted_all(c, events.drop_last());
        let (after, change) = converted(middle, events.last());
        (
            after,
            match change {
                Some((delta, _)) => deltas.push(delta),
                None => deltas,
            },
        )
    }
}

/// The text that deltas carry, put together.
pub open spec fn openai_text(deltas: Seq<JsonView>) -> Seq<char>
    decreases deltas.len(),
{
    if deltas.len() == 0 {
        Seq::empty()
    } else {
        openai_text(deltas.drop_last()) + str_field_or(deltas.last(), "content"@, Seq::empty())
    }
}

/// The conversion of an Anthropic stream keeps its text: nothing is lost, added or put in another
/// order.
pub proof fn law_conversion_keeps_text(c: ConversionView, events: Seq<JsonView>)
    ensures
        openai_text(converted_all(c, events).1) == anthropic_text(events),
    decreases events.len(),
{
    if events.len() > 0 {
        reveal_strlit("content");
        reveal_strlit("tool_calls");
        reveal_strlit("content_block_delta");
        reveal_strlit("content_block_start");
        reveal_strlit("message_delta");
        reveal_strlit("message_start");
        reveal_strlit("text_delta");
        reveal_strlit("input_json_delta");
        reveal_strlit("reasoning_content");
        law_conversion_keeps_text(c, events.drop_last());
        let (middle, deltas) = converted_all(c, events.drop_last());
        let (after, change) = converted(middle, events.last());
        assert("content"@.len() != "tool_calls"@.len());
        assert("content"@.len() != "reasoning_content"@.len());
        assert("content_block_delta"@[14] != "content_block_start"@[14]);
        assert("content_block_delta"@.len() != "message_delta"@.len());
        assert("content_block_delta"@.len() != "message_start"@.len());
        match change {
            Some((delta, _)) => {
                assert(deltas.push(delta).drop_last() =~= deltas);
                assert(anthropic_text(events) =~= openai_text(deltas) + str_field_or(
                    delta,
                    "content"@,
                    Seq::empty(),
                ));
            },
            None => {},
        }
    }
}

/// The reasoning that the events of an Anthropic stream carry, put together.
pub open spec fn anthropic_thinking(events: Seq<JsonView>) -> Seq<char>
    decreases events.len(),
{
    if events.len() == 0 {
        Seq::empty()
    } else {
        let front = anthropic_thinking(events.drop_last());
        let event = events.last();
        let delta = inner(event, "delta"@);
        if str_field_or(event, "type"@, ""@) == "content_block_delta"@ && str_field_or(
            delta,
            "type"@,
            ""@,
        ) == "thinking_delta"@ {
            front + str_field_or(delta, "thinking"@, ""@)
        } else {
            front
        }
    }
}

/// The reasoning that deltas carry, put together.
pub open spec fn openai_reasoning(deltas: Seq<JsonView>) -> Seq<char>
    decreases deltas.len(),
{
    if deltas.len() == 0 {
        Seq::empty()
    } else {
        openai_reasoning(deltas.drop_last()) + str_field_or(
            deltas.last(),
            "reasoning_content"@,
            Seq::empty(),
        )
    }
}

/// The conversion of an Anthropic stream keeps its reasoning: nothing is lost, added or put in
/// another order.
pub proof fn law_conversion_keeps_reasoning(c: ConversionView, events: Seq<JsonView>)
    ensures
        openai_reasoning(converted_all(c, events).1) == anthropic_thinking(events),
    decreases events.len(),
{
    if events.len() > 0 {
        reveal_strlit("content");
        reveal_strlit("reasoning_content");
        reveal_strlit("tool_calls");
        reveal_strlit("content_block_delta");
        reveal_strlit("content_block_start");
        reveal_strlit("message_delta");
        reveal_strlit("message_start");
        reveal_strlit("text_delta");
        reveal_strlit("thinking_delta");
        law_conversion_keeps_reasoning(c, events.drop_last());
        let (middle, deltas) = converted_all(c, events.drop_last());
        let (after, change) = converted(middle, events.last());
        assert("reasoning_content"@.len() != "content"@.len());
        assert("reasoning_content"@.len() != "tool_calls"@.len());
        assert("thinking_delta"@.len() != "text_delta"@.len());
        assert("content_block_delta"@[14] != "content_block_start"@[14]);
        assert("content_block_delta"@.len() != "message_delta"@.len());
        assert("content_block_delta"@.len() != "message_start"@.len());
        match change {
            Some((delta, _)) => {
                assert(deltas.push(delta).drop_last() =~= deltas);
                assert(anthropic_thinking(events) =~= openai_reasoning(deltas) + str_field_or(
                    delta,
                    "reasoning_content"@,
                    Seq::empty(),
                ));
            },
            None => {},
        }
    }
}

/// An error of the backend reaches the client, at any point of a stream that has not ended, and
/// changes nothing of the stream.
pub proof fn law_error_reaches_client(s: StreamView, data: Seq<char>, event: JsonView)
    requires
        str_field(event, "type"@) == Some("error"@),
    ensures
        data_step(s, data, Some(event)) == (
            s,
            seq![ClientEventView::Data(relabelled(data, Some(event), s.setting.alias))],
        ),
{
    reveal_strlit("error");
    reveal_strlit("message_start");
    assert("error"@.len() != "message_start"@.len());
}

/// The arguments of a tool call go to that call: the place of a call is the one that it began at,
/// and later calls in other content blocks do not change it.
pub proof fn law_call_keeps_place(tool_blocks: Seq<u64>, block: u64, later: u64)
    ensures
        tool_place(tool_blocks.push(block), block) == Some(tool_blocks.len() as int),
        later != block ==> tool_place(tool_blocks.push(later), block) == tool_place(
            tool_blocks,
            block,
        ),
{
    assert(tool_blocks.push(later).drop_last() =~= tool_blocks);
}

/// A place that a tool call has is that of a call in its content block.
proof fn lemma_tool_place(tool_blocks: Seq<u64>, block: u64)
    ensures
        tool_place(tool_blocks, block) matches Some(place) ==> 0 <= place < tool_blocks.len()
            && tool_blocks[place] == block,
    decreases tool_blocks.len(),
{
    if tool_blocks.len() > 0 && tool_blocks.last() != block {
        lemma_tool_place(tool_blocks.drop_last(), block);
    }
}

/// Whether an event begins a tool call in a content block.
pub open spec fn begins_call(event: JsonView, block: u64) -> bool {
    &&& str_field_or(event, "type"@, ""@) == "content_block_start"@
    &&& str_field_or(inner(event, "content_block"@), "type"@, ""@) == "tool_use"@
    &&& block_index(event) == block
}

/// The input that the events of an Anthropic stream add to a content block, put together.
pub open spec fn block_input(events: Seq<JsonView>, block: u64) -> Seq<char>
    decreases events.len(),
{
    if events.len() == 0 {
        Seq::empty()
    } else {
        let front = block_input(events.drop_last(), block);
        let event = events.last();
        let delta = inner(event, "delta"@);
        if str_field_or(event, "type"@, ""@) == "content_block_delta"@ && str_field_or(
            delta,
            "type"@,
            ""@,
        ) == "input_json_delta"@ && block_index(event) == block {
            front + str_field_or(delta, "partial_json"@, ""@)
        } else {
            front
        }
    }
}

/// The arguments that a delta adds to the tool call at a place.
pub open spec fn delta_arguments(delta: JsonView, place: int) -> Seq<char> {
    match field(delta, "tool_calls"@) {
        Some(JsonView::Array(calls)) => if calls.len() == 1 && field(calls[0], "index"@) == Some(
            JsonView::Number(NumberView::Int(place)),
        ) {
            str_field_or(inner(calls[0], "function"@), "arguments"@, Seq::empty())
        } else {
            Seq::empty()
        },
        _ => Seq::empty(),
    }
}

/// The arguments that deltas add to the tool call at a place, put together.
pub open spec fn call_arguments(deltas: Seq<JsonView>, place: int) -> Seq<char>
    decreases deltas.len(),
{
    if deltas.len() == 0 {
        Seq::empty()
    } else {
        call_arguments(deltas.drop_last(), place) + delta_arguments(deltas.last(), place)
    }
}

/// What the forms of delta add to the tool calls.
proof fn lemma_delta_arguments(at: int, place: int, a: Seq<char>, b: Seq<char>)
    ensures
        delta_arguments(text_delta(a), place) == Seq::<char>::empty(),
        delta_arguments(reasoning_delta(a), place) == Seq::<char>::empty(),
        delta_arguments(JsonView::Object(Map::empty()), place) == Seq::<char>::empty(),
        at != place ==> delta_arguments(call_delta(at, a, b), place) == Seq::<char>::empty(),
        delta_arguments(arguments_delta(at, a), place) == (if at == place {
            a
        } else {
            Seq::empty()
        }),
{
    reveal_strlit("content");
    reveal_strlit("reasoning_content");
    reveal_strlit("tool_calls");
    reveal_strlit("index");
    reveal_strlit("id");
    reveal_strlit("type");
    reveal_strlit("function");
    assert("content"@.len() != "tool_calls"@.len());
    assert("reasoning_content"@.len() != "tool_calls"@.len());
    assert("index"@.len() != "id"@.len() && "index"@.len() != "type"@.len() && "index"@.len()
        != "function"@.len());
}

/// The conversion of an Anthropic stream keeps the arguments of a tool call: from where the call
/// began, and as long as no other call begins in its content block, the call's place stays and its
/// deltas carry exactly the input of its block, in order.
pub proof fn law_conversion_keeps_arguments(
    c: ConversionView,
    events: Seq<JsonView>,
    block: u64,
    place: int,
)
    requires
        tool_place(c.tool_blocks, block) == Some(place),
        forall|i: int| 0 <= i < events.len() ==> !begins_call(#[trigger] events[i], block),
    ensures
        tool_place(converted_all(c, events).0.tool_blocks, block) == Some(place),
        call_arguments(converted_all(c, events).1, place) == block_input(events, block),
    decreases events.len(),
{
    if events.len() > 0 {
        let front = events.drop_last();
        let event = events.last();
        assert forall|i: int| 0 <= i < front.len() implies !begins_call(
            #[trigger] front[i],
            block,
        ) by {
            assert(front[i] == events[i]);
        }
        law_conversion_keeps_arguments(c, front, block, place);
        let (middle, deltas) = converted_all(c, front);
        let (after, change) = converted(middle, event);
        assert(!begins_call(events[events.len() - 1], block));
        lemma_tool_place(middle.tool_blocks, block);
        lemma_tool_place(middle.tool_blocks, block_index(event));
        law_call_keeps_place(middle.tool_blocks, block, block_index(event));
        reveal_strlit("content_block_delta");
        reveal_strlit("content_block_start");
        reveal_strlit("message_delta");
        reveal_strlit("message_start");
        reveal_strlit("text_delta");
        reveal_strlit("thinking_delta");
        reveal_strlit("input_json_delta");
        assert("content_block_delta"@[14] != "content_block_start"@[14]);
        assert("content_block_delta"@.len() != "message_delta"@.len());
        assert("content_block_delta"@.len() != "message_start"@.len());
        assert("text_delta"@.len() != "input_json_delta"@.len());
        assert("thinking_delta"@.len() != "input_json_delta"@.len());
        match change {
            Some((delta, _)) => {
                assert(deltas.push(delta).drop_last() =~= deltas);
                let source = inner(event, "delta"@);
                let started = inner(event, "content_block"@);
                lemma_delta_arguments(0, place, str_field_or(source, "text"@, ""@), ""@);
                lemma_delta_arguments(0, place, str_field_or(source, "thinking"@, ""@), ""@);
                lemma_delta_arguments(
                    middle.tool_blocks.len() as int,
                    place,
                    str_field_or(started, "id"@, ""@),
                    str_field_or(started, "name"@, ""@),
                );
                match tool_place(middle.tool_blocks, block_index(event)) {
                    Some(at) => {
                        lemma_delta_arguments(
                            at,
                            place,
                            str_field_or(source, "partial_json"@, ""@),
                            ""@,
                        );
                    },
                    None => {},
                }
                assert(call_arguments(deltas, place) + Seq::<char>::empty() =~= call_arguments(
                    deltas,
                    place,
                ));
            },
            None => {},
        }
    }
}

/// The words for why an answer ended come back as they were when they are turned into those of
/// the other protocol and back, apart from words that are already the other protocol's.
pub proof fn law_reason_words_return(word: Seq<char>)
    ensures
        word != "end_turn"@ && word != "max_tokens"@ && word != "tool_use"@
            ==> finish_reason_word(stop_reason_word(word)) == word,
        word != "stop"@ && word != "length"@ && word != "tool_calls"@ ==> stop_reason_word(
            finish_reason_word(word),
        ) == word,
{
    reveal_strlit("end_turn");
    reveal_strlit("max_tokens");
    reveal_strlit("tool_use");
    reveal_strlit("stop");
    reveal_strlit("length");
    reveal_strlit("tool_calls");
    assert("end_turn"@[0] != "tool_use"@[0]);
    assert("end_turn"@.len() != "max_tokens"@.len());
    assert("tool_use"@.len() != "max_tokens"@.len());
    assert("stop"@.len() != "length"@.len());
    assert("stop"@.len() != "tool_calls"@.len());
    assert("length"@.len() != "tool_calls"@.len());
}

} // verus!
