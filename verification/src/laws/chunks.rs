//! What a client of the OpenAI protocol gets of a streamed answer.

use vstd::prelude::*;

use crate::json::{field, str_field, JsonView, NumberView};
use crate::json_codec::{json_parse, json_text};
use crate::laws::words::lemma_words;
use crate::router::openai::{chunk_relabelled, with_model};
use crate::router::openai_stream::{
    block_index, chunk_json, data_step, end_events, inner, line_step, lines_step, ClientEventView,
    ConversionView, StreamEnd, StreamSetting, StreamView,
};
use crate::text::{after_prefix, trimmed};

verus! {

/// The chunk of a stream tells the identifier of the message, the time, the alias as its model, and
/// has one choice with what is added and why the answer ended.
pub proof fn law_chunk_json(
    setting: StreamSetting,
    id: Seq<char>,
    delta: JsonView,
    finish_reason: JsonView,
)
    ensures
        ({
            let v = chunk_json(setting, id, delta, finish_reason);
            &&& str_field(v, "id"@) == Some(id)
            &&& str_field(v, "object"@) == Some("chat.completion.chunk"@)
            &&& field(v, "created"@) == Some(
                JsonView::Number(NumberView::Int(setting.created as int)),
            )
            &&& str_field(v, "model"@) == Some(setting.alias)
            &&& field(v, "choices"@) matches Some(JsonView::Array(choices))
            &&& choices.len() == 1
            &&& field(choices[0], "index"@) == Some(JsonView::Number(NumberView::Int(0)))
            &&& field(choices[0], "delta"@) == Some(delta)
            &&& field(choices[0], "finish_reason"@) == Some(finish_reason)
        }),
{
    lemma_words();
}

/// Whether events are one chunk of a conversion.
pub open spec fn one_chunk(
    s: StreamView,
    c: ConversionView,
    events: Seq<ClientEventView>,
    delta: JsonView,
    finish_reason: JsonView,
) -> bool {
    events == seq![
        ClientEventView::Data(json_text(chunk_json(s.setting, c.id, delta, finish_reason))),
    ]
}

/// A piece of text of an Anthropic stream comes to one chunk with that text as content, and a piece
/// of thinking to one with it as reasoning. The stream stays as it was.
pub proof fn law_text_becomes_chunk(
    s: StreamView,
    c: ConversionView,
    data: Seq<char>,
    event: JsonView,
    text: Seq<char>,
)
    requires
        s.conversion == Some(c),
        str_field(event, "type"@) == Some("content_block_delta"@),
    ensures
        ({
            let delta = inner(event, "delta"@);
            let (after, events) = data_step(s, data, Some(event));
            &&& str_field(delta, "type"@) == Some("text_delta"@) && str_field(delta, "text"@)
                == Some(text) ==> after == s && one_chunk(
                s,
                c,
                events,
                JsonView::Object(map!["content"@ => JsonView::Str(text)]),
                JsonView::Null,
            )
            &&& str_field(delta, "type"@) == Some("thinking_delta"@) && str_field(
                delta,
                "thinking"@,
            ) == Some(text) ==> after == s && one_chunk(
                s,
                c,
                events,
                JsonView::Object(map!["reasoning_content"@ => JsonView::Str(text)]),
                JsonView::Null,
            )
        }),
{
    lemma_words();
}

/// A tool call that begins in an Anthropic stream comes to one chunk that begins it, at the place
/// after the calls before it, with its identifier and its name and without arguments yet; its block
/// is kept in mind.
pub proof fn law_call_becomes_chunk(
    s: StreamView,
    c: ConversionView,
    data: Seq<char>,
    event: JsonView,
    id: Seq<char>,
    name: Seq<char>,
)
    requires
        s.conversion == Some(c),
        str_field(event, "type"@) == Some("content_block_start"@),
        str_field(inner(event, "content_block"@), "type"@) == Some("tool_use"@),
        str_field(inner(event, "content_block"@), "id"@) == Some(id),
        str_field(inner(event, "content_block"@), "name"@) == Some(name),
    ensures
        ({
            let (after, events) = data_step(s, data, Some(event));
            &&& after.conversion == Some(
                ConversionView { tool_blocks: c.tool_blocks.push(block_index(event)), ..c },
            )
            &&& !after.done || s.done
            &&& after.setting == s.setting
            &&& exists|delta: JsonView| #[trigger]
                one_chunk(s, c, events, delta, JsonView::Null) && {
                    &&& field(delta, "tool_calls"@) matches Some(JsonView::Array(calls))
                    &&& calls.len() == 1
                    &&& field(calls[0], "index"@) == Some(
                        JsonView::Number(NumberView::Int(c.tool_blocks.len() as int)),
                    )
                    &&& str_field(calls[0], "id"@) == Some(id)
                    &&& str_field(calls[0], "type"@) == Some("function"@)
                    &&& field(calls[0], "function"@) matches Some(function)
                    &&& str_field(function, "name"@) == Some(name)
                    &&& str_field(function, "arguments"@) == Some(Seq::<char>::empty())
                }
        }),
{
    lemma_words();
    assert(""@ =~= Seq::<char>::empty());
    let delta = crate::router::openai_stream::call_delta(c.tool_blocks.len() as int, id, name);
    assert(one_chunk(s, c, data_step(s, data, Some(event)).1, delta, JsonView::Null));
}

/// A piece of the input of a tool call in an Anthropic stream comes to one chunk that adds it to the
/// arguments of the call of its block.
pub proof fn law_input_becomes_chunk(
    s: StreamView,
    c: ConversionView,
    data: Seq<char>,
    event: JsonView,
    partial: Seq<char>,
    place: int,
)
    requires
        s.conversion == Some(c),
        str_field(event, "type"@) == Some("content_block_delta"@),
        str_field(inner(event, "delta"@), "type"@) == Some("input_json_delta"@),
        str_field(inner(event, "delta"@), "partial_json"@) == Some(partial),
        0 <= place < c.tool_blocks.len(),
        c.tool_blocks[place] == block_index(event),
        forall|k: int|
            place < k < c.tool_blocks.len() ==> (#[trigger] c.tool_blocks[k]) != block_index(event),
    ensures
        ({
            let (after, events) = data_step(s, data, Some(event));
            &&& after == s
            &&& exists|delta: JsonView| #[trigger]
                one_chunk(s, c, events, delta, JsonView::Null) && {
                    &&& field(delta, "tool_calls"@) matches Some(JsonView::Array(calls))
                    &&& calls.len() == 1
                    &&& field(calls[0], "index"@) == Some(
                        JsonView::Number(NumberView::Int(place)),
                    )
                    &&& field(calls[0], "function"@) matches Some(function)
                    &&& str_field(function, "arguments"@) == Some(partial)
                }
        }),
{
    lemma_words();
    lemma_place(c.tool_blocks, block_index(event), place);
    let delta = crate::router::openai_stream::arguments_delta(place, partial);
    assert(one_chunk(s, c, data_step(s, data, Some(event)).1, delta, JsonView::Null));
}

/// The place of a tool call is that of the last call that began in its block.
proof fn lemma_place(tool_blocks: Seq<u64>, block: u64, place: int)
    requires
        0 <= place < tool_blocks.len(),
        tool_blocks[place] == block,
        forall|k: int| place < k < tool_blocks.len() ==> (#[trigger] tool_blocks[k]) != block,
    ensures
        crate::router::openai_stream::tool_place(tool_blocks, block) == Some(place),
    decreases tool_blocks.len(),
{
    if place < tool_blocks.len() - 1 {
        assert(tool_blocks[tool_blocks.len() - 1] != block);
        let front = tool_blocks.drop_last();
        assert forall|k: int| place < k < front.len() implies (#[trigger] front[k]) != block by {
            assert(front[k] == tool_blocks[k]);
        }
        lemma_place(front, block, place);
    }
}

/// The word why an Anthropic answer ended comes to one chunk with the word of the OpenAI protocol for
/// it: `end_turn` is `stop`, `max_tokens` is `length`, `tool_use` is `tool_calls`, and any other
/// stays.
pub proof fn law_stop_reason_becomes_chunk(
    s: StreamView,
    c: ConversionView,
    data: Seq<char>,
    event: JsonView,
    word: Seq<char>,
)
    requires
        s.conversion == Some(c),
        str_field(event, "type"@) == Some("message_delta"@),
        str_field(inner(event, "delta"@), "stop_reason"@) == Some(word),
    ensures
        ({
            let (after, events) = data_step(s, data, Some(event));
            let nothing = JsonView::Object(Map::empty());
            &&& after == s
            &&& word == "end_turn"@ ==> one_chunk(s, c, events, nothing, JsonView::Str("stop"@))
            &&& word == "max_tokens"@ ==> one_chunk(s, c, events, nothing, JsonView::Str("length"@))
            &&& word == "tool_use"@ ==> one_chunk(
                s,
                c,
                events,
                nothing,
                JsonView::Str("tool_calls"@),
            )
            &&& word != "end_turn"@ && word != "max_tokens"@ && word != "tool_use"@ ==> one_chunk(
                s,
                c,
                events,
                nothing,
                JsonView::Str(word),
            )
        }),
{
    lemma_words();
}

/// The beginning of a message makes the stream one of the Anthropic protocol, keeps the identifier of
/// the message, and comes to no chunk; its end is the end of the stream; events of other kinds come
/// to nothing.
pub proof fn law_message_frame(
    s: StreamView,
    c: ConversionView,
    data: Seq<char>,
    event: JsonView,
    id: Seq<char>,
    kind: Seq<char>,
)
    requires
        str_field(event, "type"@) == Some(kind),
    ensures
        ({
            let (after, events) = data_step(s, data, Some(event));
            &&& kind == "message_start"@ && str_field(inner(event, "message"@), "id"@) == Some(id)
                ==> {
                &&& events.len() == 0
                &&& after.conversion matches Some(now)
                &&& now.id == id
                &&& s.conversion is None ==> now.tool_blocks.len() == 0
                &&& s.conversion == Some(c) ==> now.tool_blocks == c.tool_blocks
                &&& after.done == s.done
                &&& after.setting == s.setting
            }
            &&& kind == "message_stop"@ && s.conversion == Some(c) ==> {
                &&& events == seq![ClientEventView::Done]
                &&& after == (StreamView { done: true, ..s })
            }
            &&& s.conversion == Some(c) && kind != "message_start"@ && kind != "message_stop"@
                && kind != "content_block_start"@ && kind != "content_block_delta"@ && kind
                != "message_delta"@ && kind != "error"@ ==> {
                &&& events.len() == 0
                &&& after == s
            }
        }),
{
    lemma_words();
}

/// Data of a stream that is not one of the Anthropic protocol, or that has no type, is passed on: as
/// it is where it is no JSON or names no model, and else with the alias as its model.
pub proof fn law_data_is_passed_on(s: StreamView, data: Seq<char>, chunk: JsonView)
    ensures
        data_step(s, data, None) == (s, seq![ClientEventView::Data(data)]),
        str_field(chunk, "type"@) is None || (s.conversion is None && str_field(chunk, "type"@)
            != Some("message_start"@)) ==> {
            let (after, events) = data_step(s, data, Some(chunk));
            &&& after == s
            &&& events.len() == 1
            &&& field(chunk, "model"@) is None ==> events[0] == ClientEventView::Data(data)
            &&& with_model(chunk, s.setting.alias) matches Some(replaced) ==> events[0]
                == ClientEventView::Data(json_text(replaced))
        },
{
}

/// What a line of the backend comes to, before the end: the end marker is the end of the stream; data
/// is taken as data; empty lines, comments and everything else come to nothing. After the end
/// everything does.
pub proof fn law_stream_lines(s: StreamView, line: Seq<char>, data: Seq<char>)
    ensures
        s.done ==> line_step(s, line) == (s, Seq::<ClientEventView>::empty()),
        !s.done && trimmed(line) == "data: [DONE]"@ ==> line_step(s, line) == (
            StreamView { done: true, ..s },
            seq![ClientEventView::Done],
        ),
        !s.done && trimmed(line) == "data: "@ + data && data != "[DONE]"@ ==> line_step(s, line)
            == data_step(s, data, json_parse(data)),
        after_prefix(trimmed(line), "data: "@) is None ==> line_step(s, line) == (
            s,
            Seq::<ClientEventView>::empty(),
        ),
{
    reveal_strlit("data: ");
    reveal_strlit("[DONE]");
    reveal_strlit("data: [DONE]");
    reveal_strlit(":");
    let t = "data: "@ + data;
    assert(t.subrange(0, 6) =~= "data: "@);
    assert(t.skip(6) =~= data);
    assert("data: [DONE]"@.skip(6) =~= "[DONE]"@);
    assert("data: [DONE]"@.subrange(0, 6) =~= "data: "@);
    assert(t.subrange(0, 1)[0] == 'd');
    assert("data: [DONE]"@.subrange(0, 1)[0] == 'd');
    assert(":"@[0] == ':');
}

/// A stream that stops before its end is ended for the client, and where it broke or fell silent the
/// client is told so first.
pub proof fn law_end_is_told(s: StreamView, why: String)
    ensures
        s.done ==> end_events(s, StreamEnd::Closed).len() == 0 && end_events(
            s,
            StreamEnd::TimedOut,
        ).len() == 0 && end_events(s, StreamEnd::Interrupted(why)).len() == 0,
        !s.done ==> {
            let closed = end_events(s, StreamEnd::Closed);
            let broken = end_events(s, StreamEnd::Interrupted(why));
            let silent = end_events(s, StreamEnd::TimedOut);
            &&& closed == seq![ClientEventView::Done]
            &&& broken.len() == 2 && broken[1] is Done
            &&& broken[0] == ClientEventView::Data(
                json_text(
                    JsonView::Object(
                        map![
                            "error"@ => JsonView::Str("stream interrupted"@),
                            "detail"@ => JsonView::Str(why@),
                        ],
                    ),
                ),
            )
            &&& silent.len() == 2 && silent[1] is Done
            &&& silent[0] == ClientEventView::Data(
                json_text(
                    JsonView::Object(
                        map![
                            "error"@ => JsonView::Str("stream timeout"@),
                            "detail"@ => JsonView::Str("backend stopped sending data"@),
                        ],
                    ),
                ),
            )
        },
{
}

/// The index of the content block that an event is about is the one that it gives.
pub proof fn law_block_index(event: JsonView, n: u64)
    requires
        field(event, "index"@) == Some(JsonView::Number(NumberView::Int(n as int))),
    ensures
        block_index(event) == n,
{
}

/// Events of an Anthropic stream that tell an OpenAI client nothing come to nothing: the beginning of
/// a block that is no tool call, additions of other kinds, input for a block without a call, and
/// changes of the message without a reason why it ended.
pub proof fn law_events_without_chunk(
    s: StreamView,
    c: ConversionView,
    data: Seq<char>,
    event: JsonView,
)
    requires
        s.conversion == Some(c),
    ensures
        ({
            let kind = str_field(event, "type"@);
            let block = str_field(inner(event, "content_block"@), "type"@);
            let delta = str_field(inner(event, "delta"@), "type"@);
            let nothing = (s, Seq::<ClientEventView>::empty());
            &&& kind == Some("content_block_start"@) && block != Some("tool_use"@) ==> data_step(
                s,
                data,
                Some(event),
            ) == nothing
            &&& kind == Some("content_block_delta"@) && delta != Some("text_delta"@) && delta
                != Some("thinking_delta"@) && delta != Some("input_json_delta"@) ==> data_step(
                s,
                data,
                Some(event),
            ) == nothing
            &&& kind == Some("content_block_delta"@) && delta == Some("input_json_delta"@)
                && !c.tool_blocks.contains(block_index(event)) ==> data_step(s, data, Some(event))
                == nothing
            &&& kind == Some("message_delta"@) && str_field(inner(event, "delta"@), "stop_reason"@)
                is None ==> data_step(s, data, Some(event)) == nothing
        }),
{
    lemma_words();
    if !c.tool_blocks.contains(block_index(event)) {
        lemma_no_place(c.tool_blocks, block_index(event));
    }
}

/// A block in which no tool call began has no place.
proof fn lemma_no_place(tool_blocks: Seq<u64>, block: u64)
    requires
        !tool_blocks.contains(block),
    ensures
        crate::router::openai_stream::tool_place(tool_blocks, block) is None,
    decreases tool_blocks.len(),
{
    if tool_blocks.len() > 0 {
        let front = tool_blocks.drop_last();
        assert(tool_blocks[tool_blocks.len() - 1] != block);
        assert forall|k: int| 0 <= k < front.len() implies (#[trigger] front[k]) != block by {
            assert(front[k] == tool_blocks[k]);
        }
        lemma_no_place(front, block);
    }
}

/// The members of a member of an event are those that it has.
pub proof fn law_inner(v: JsonView, key: Seq<char>)
    ensures
        field(v, key) matches Some(x) ==> inner(v, key) == x,
        field(v, key) is None ==> inner(v, key) is Null,
{
}

/// The text of a chunk with the alias as its model: that of the chunk with its model replaced, where
/// the chunk is a JSON object with a model, and none else.
pub proof fn law_chunk_relabelled(data: Seq<char>, alias: Seq<char>, chunk: JsonView)
    ensures
        json_parse(data) is None ==> chunk_relabelled(data, alias) is None,
        json_parse(data) == Some(chunk) && field(chunk, "model"@) is None ==> chunk_relabelled(
            data,
            alias,
        ) is None,
        json_parse(data) == Some(chunk) ==> (chunk matches JsonView::Object(m) && str_field(
            chunk,
            "model"@,
        ) is Some ==> chunk_relabelled(data, alias) == Some(
            json_text(JsonView::Object(chunk->Object_0.insert("model"@, JsonView::Str(alias)))),
        )),
{
}

/// A single line comes to what the line comes to, and no line to nothing.
pub proof fn law_single_stream_line(s: StreamView, line: Seq<char>)
    ensures
        lines_step(s, Seq::empty()) == (s, Seq::<ClientEventView>::empty()),
        lines_step(s, seq![line]) == line_step(s, line),
{
    reveal_with_fuel(lines_step, 2);
    assert(seq![line].drop_last() =~= Seq::<Seq<char>>::empty());
    let (b, last) = line_step(s, line);
    assert(Seq::<ClientEventView>::empty() + last =~= last);
}

} // verus!
