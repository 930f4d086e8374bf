//! What a streamed answer is turned into: from the chunks of an OpenAI compatible backend to the
//! events of the Anthropic protocol.

use vstd::prelude::*;

use crate::json::{field, str_field, str_field_or, uint_field, JsonView, NumberView};
use crate::json_codec::json_parse;
use crate::laws::words::lemma_words;
use crate::router::anthropic_stream::{
    added, answer_line_step, answer_lines_step, call_item_step, calls_step, carried_input,
    chunk_delta, chunk_step, chunks_in, chunks_step, closed, delta_tool_calls, event_json,
    event_name, finish_step, first_choice, fresh_answer, in_tool, law_call_keeps_arguments, opened,
    passed_events, text_step, thinking_step, AnswerView, AnthropicEventView, BlockDeltaView,
    NamedEventView, StreamBlockView,
};
use crate::text::{after_prefix, trimmed};

verus! {

/// Whether a chunk says why its answer ended: the reason of its first choice.
pub open spec fn says_reason(chunk: JsonView, reason: Seq<char>) -> bool {
    &&& field(chunk, "choices"@) matches Some(JsonView::Array(choices))
    &&& choices.len() > 0
    &&& str_field(choices[0], "finish_reason"@) == Some(reason)
}

/// Whether a chunk has no choice.
pub open spec fn has_no_choice(chunk: JsonView) -> bool {
    match field(chunk, "choices"@) {
        Some(JsonView::Array(choices)) => choices.len() == 0,
        _ => true,
    }
}

/// The reason that a chunk gives decides why the answer ends, whatever else the chunk holds: an
/// answer cut off by the limit of tokens ends with `max_tokens`, one that calls tools with
/// `tool_use`. A chunk without a choice changes nothing of it.
pub proof fn law_finish_reason_decides(a: AnswerView, chunk: JsonView)
    ensures
        says_reason(chunk, "length"@) ==> chunk_step(a, chunk).0.stop_reason == "max_tokens"@,
        says_reason(chunk, "tool_calls"@) ==> chunk_step(a, chunk).0.stop_reason == "tool_use"@,
        has_no_choice(chunk) ==> chunk_step(a, chunk).0.stop_reason == a.stop_reason
            && chunk_step(a, chunk).1.len() == 0,
{
    lemma_words();
}

/// The reason that stands after chunks.
proof fn lemma_reason_stands(
    a: AnswerView,
    chunks: Seq<JsonView>,
    k: int,
    reason: Seq<char>,
    word: Seq<char>,
)
    requires
        0 <= k < chunks.len(),
        says_reason(chunks[k], reason),
        reason == "length"@ && word == "max_tokens"@ || reason == "tool_calls"@ && word
            == "tool_use"@,
        forall|j: int| k < j < chunks.len() ==> has_no_choice(#[trigger] chunks[j]),
    ensures
        chunks_step(a, chunks).0.stop_reason == word,
    decreases chunks.len(),
{
    let front = chunks.drop_last();
    let (b, _) = chunks_step(a, front);
    law_finish_reason_decides(b, chunks.last());
    if k < chunks.len() - 1 {
        assert(has_no_choice(chunks[chunks.len() - 1]));
        assert forall|j: int| k < j < front.len() implies has_no_choice(#[trigger] front[j]) by {
            assert(front[j] == chunks[j]);
        }
        assert(front[k] == chunks[k]);
        lemma_reason_stands(a, front, k, reason, word);
    }
}

/// Chunks do not end a conversion.
proof fn lemma_chunks_go_on(a: AnswerView, chunks: Seq<JsonView>)
    ensures
        chunks_step(a, chunks).0.ended == a.ended,
    decreases chunks.len(),
{
    if chunks.len() > 0 {
        lemma_chunks_go_on(a, chunks.drop_last());
        lemma_chunk_goes_on(chunks_step(a, chunks.drop_last()).0, chunks.last());
    }
}

/// Tool calls do not end a conversion and do not count tokens.
proof fn lemma_calls_go_on(a: AnswerView, calls: Seq<JsonView>)
    ensures
        calls_step(a, calls).0.ended == a.ended,
        calls_step(a, calls).0.output_tokens == a.output_tokens,
    decreases calls.len(),
{
    if calls.len() > 0 {
        lemma_calls_go_on(a, calls.drop_last());
    }
}

/// A chunk does not end a conversion.
proof fn lemma_chunk_goes_on(a: AnswerView, chunk: JsonView)
    ensures
        chunk_step(a, chunk).0.ended == a.ended,
{
    let delta = chunk_delta(chunk);
    let (b, _) = thinking_step(a, str_field_or(delta, "reasoning_content"@, ""@));
    let (c, _) = text_step(b, str_field_or(delta, "content"@, ""@));
    lemma_calls_go_on(c, delta_tool_calls(delta));
}

/// The end of a message tells why it ended and how many tokens it took, just before the message
/// stops.
pub proof fn law_end_tells_reason(a: AnswerView)
    requires
        !a.ended,
    ensures
        ({
            let events = finish_step(a).1;
            &&& events.len() >= 2
            &&& events[events.len() - 2] == (AnthropicEventView::MessageDelta {
                stop_reason: a.stop_reason,
                output_tokens: a.output_tokens,
            })
            &&& events.last() is MessageStop
            &&& finish_step(a).0.ended
        }),
{
}

/// A stream whose last chunk with a choice says that the answer was cut off by the limit of tokens
/// ends with `max_tokens`, and one that says that tools are called ends with `tool_use`.
pub proof fn law_stream_tells_reason(chunks: Seq<JsonView>, k: int, reason: Seq<char>)
    requires
        0 <= k < chunks.len(),
        says_reason(chunks[k], reason),
        forall|j: int| k < j < chunks.len() ==> has_no_choice(#[trigger] chunks[j]),
    ensures
        ({
            let (after, _) = chunks_step(fresh_answer(), chunks);
            let events = finish_step(after).1;
            &&& events.len() >= 2
            &&& events[events.len() - 2] matches AnthropicEventView::MessageDelta {
                stop_reason,
                ..
            }
            &&& reason == "length"@ ==> stop_reason == "max_tokens"@
            &&& reason == "tool_calls"@ ==> stop_reason == "tool_use"@
        }),
{
    let (after, _) = chunks_step(fresh_answer(), chunks);
    lemma_words();
    lemma_chunks_go_on(fresh_answer(), chunks);
    law_end_tells_reason(after);
    if reason == "length"@ {
        lemma_reason_stands(fresh_answer(), chunks, k, reason, "max_tokens"@);
    } else if reason == "tool_calls"@ {
        lemma_reason_stands(fresh_answer(), chunks, k, reason, "tool_use"@);
    }
}

/// The lines of a stream whose last chunk with a choice says that the answer was cut off by the
/// limit of tokens, with the end marker after them, come to a message that ends with `max_tokens`;
/// and to one that ends with `tool_use` where that chunk says that tools are called.
pub proof fn law_lines_tell_reason(
    ls: Seq<Seq<char>>,
    end: Seq<char>,
    k: int,
    reason: Seq<char>,
)
    requires
        trimmed(end) == "data: [DONE]"@,
        !chunks_in(ls).0,
        0 <= k < chunks_in(ls).1.len(),
        says_reason(chunks_in(ls).1[k], reason),
        forall|j: int|
            k < j < chunks_in(ls).1.len() ==> has_no_choice(#[trigger] chunks_in(ls).1[j]),
    ensures
        ({
            let (after, events) = answer_lines_step(fresh_answer(), ls.push(end));
            &&& after.ended
            &&& events.len() >= 2
            &&& events.last() is MessageStop
            &&& events[events.len() - 2] matches AnthropicEventView::MessageDelta {
                stop_reason,
                ..
            }
            &&& reason == "length"@ ==> stop_reason == "max_tokens"@
            &&& reason == "tool_calls"@ ==> stop_reason == "tool_use"@
        }),
{
    let chunks = chunks_in(ls).1;
    crate::router::anthropic_stream::law_lines_are_chunks(ls);
    law_stream_tells_reason(chunks, k, reason);
    lemma_chunks_go_on(fresh_answer(), chunks);
    assert(ls.push(end).drop_last() =~= ls);
    let (b, before) = answer_lines_step(fresh_answer(), ls);
    law_end_tells_reason(b);
    let last = finish_step(b).1;
    let events = before + last;
    assert(events.last() == last.last());
    assert(events[events.len() - 2] == last[last.len() - 2]);
}

/// The text of a chunk, where there is some, makes the answer one that ends its turn, unless the
/// chunk calls a tool or gives a reason; a call of a tool makes it one that uses tools, unless the
/// answer was cut off. A chunk with neither changes nothing of it.
pub proof fn law_content_tells_reason(a: AnswerView, chunk: JsonView, i: int)
    requires
        !says_reason(chunk, "length"@),
        !says_reason(chunk, "tool_calls"@),
    ensures
        ({
            let delta = chunk_delta(chunk);
            let after = chunk_step(a, chunk).0.stop_reason;
            let calls = delta_tool_calls(delta);
            &&& calls.len() == 0 && str_field_or(delta, "content"@, Seq::empty()).len() > 0
                ==> after == "end_turn"@
            &&& calls.len() == 0 && str_field_or(delta, "content"@, Seq::empty()).len() == 0
                ==> after == a.stop_reason
            &&& 0 <= i < calls.len() && begins_call(calls[i]) ==> after == "tool_use"@
        }),
{
    lemma_words();
    assert(""@ =~= Seq::<char>::empty());
    let delta = chunk_delta(chunk);
    let (b, _) = thinking_step(a, str_field_or(delta, "reasoning_content"@, ""@));
    let (c, _) = text_step(b, str_field_or(delta, "content"@, ""@));
    let calls = delta_tool_calls(delta);
    if 0 <= i < calls.len() && begins_call(calls[i]) {
        lemma_calls_tell_reason(c, calls, i);
    }
}

/// The identifier of a tool call of a delta.
pub open spec fn call_id(call: JsonView) -> Seq<char> {
    str_field_or(call, "id"@, Seq::empty())
}

/// The name of the function of a tool call of a delta.
pub open spec fn call_name(call: JsonView) -> Seq<char> {
    match field(call, "function"@) {
        Some(function) => str_field_or(function, "name"@, Seq::empty()),
        None => Seq::empty(),
    }
}

/// The arguments of a tool call of a delta.
pub open spec fn call_arguments(call: JsonView) -> Seq<char> {
    match field(call, "function"@) {
        Some(function) => str_field_or(function, "arguments"@, Seq::empty()),
        None => Seq::empty(),
    }
}

/// Whether a tool call of a delta begins a call: it has an identifier or a name.
pub open spec fn begins_call(call: JsonView) -> bool {
    call_id(call).len() > 0 || call_name(call).len() > 0
}

/// The calls that tool calls of a delta begin, in order.
pub open spec fn begun_calls(calls: Seq<JsonView>) -> Seq<(Seq<char>, Seq<char>)>
    decreases calls.len(),
{
    if calls.len() == 0 {
        Seq::empty()
    } else {
        let front = begun_calls(calls.drop_last());
        if begins_call(calls.last()) {
            front.push((call_id(calls.last()), call_name(calls.last())))
        } else {
            front
        }
    }
}

/// The arguments of tool calls of a delta, put together.
pub open spec fn all_arguments(calls: Seq<JsonView>) -> Seq<char>
    decreases calls.len(),
{
    if calls.len() == 0 {
        Seq::empty()
    } else {
        all_arguments(calls.drop_last()) + call_arguments(calls.last())
    }
}

/// The calls that events begin, in order.
pub open spec fn started_calls(events: Seq<AnthropicEventView>) -> Seq<(Seq<char>, Seq<char>)>
    decreases events.len(),
{
    if events.len() == 0 {
        Seq::empty()
    } else {
        let front = started_calls(events.drop_last());
        match events.last() {
            AnthropicEventView::BlockStart {
                block: StreamBlockView::ToolUse { id, name },
                ..
            } => front.push((id, name)),
            _ => front,
        }
    }
}

/// What events begin and carry is what the first do and then what the others do.
proof fn lemma_started(first: Seq<AnthropicEventView>, second: Seq<AnthropicEventView>)
    ensures
        started_calls(first + second) == started_calls(first) + started_calls(second),
        carried_input(first + second) == carried_input(first) + carried_input(second),
    decreases second.len(),
{
    if second.len() == 0 {
        assert(first + second =~= first);
        assert(started_calls(first) + started_calls(second) =~= started_calls(first));
        assert(carried_input(first) + carried_input(second) =~= carried_input(first));
    } else {
        let whole = first + second;
        assert(whole.drop_last() =~= first + second.drop_last());
        lemma_started(first, second.drop_last());
        assert(started_calls(whole) =~= started_calls(first) + started_calls(second));
        assert(carried_input(whole) =~= carried_input(first) + carried_input(second));
    }
}

/// A single event.
proof fn lemma_started_single(e: AnthropicEventView)
    ensures
        started_calls(seq![e]) == (match e {
            AnthropicEventView::BlockStart {
                block: StreamBlockView::ToolUse { id, name },
                ..
            } => seq![(id, name)],
            _ => Seq::empty(),
        }),
        carried_input(seq![e]) == (match e {
            AnthropicEventView::BlockDelta { delta: BlockDeltaView::InputJson(text), .. } => text,
            _ => Seq::empty(),
        }),
{
    reveal_with_fuel(started_calls, 2);
    reveal_with_fuel(carried_input, 2);
    assert(seq![e].drop_last() =~= Seq::<AnthropicEventView>::empty());
    match e {
        AnthropicEventView::BlockStart { block: StreamBlockView::ToolUse { id, name }, .. } => {
            assert(Seq::<(Seq<char>, Seq<char>)>::empty().push((id, name)) =~= seq![(id, name)]);
        },
        AnthropicEventView::BlockDelta { delta: BlockDeltaView::InputJson(text), .. } => {
            assert(Seq::<char>::empty() + text =~= text);
        },
        _ => {},
    }
}

/// Opening a block begins a call where it is one of a call.
proof fn lemma_opened_starts(a: AnswerView, block: StreamBlockView)
    ensures
        started_calls(opened(a, block).1) == (match block {
            StreamBlockView::ToolUse { id, name } => seq![(id, name)],
            _ => Seq::empty(),
        }),
        carried_input(opened(a, block).1) == Seq::<char>::empty(),
{
    let (b, stop) = closed(a);
    let start = AnthropicEventView::BlockStart { index: b.blocks.len() as int, block };
    if a.open {
        lemma_started_single(AnthropicEventView::BlockStop { index: a.blocks.len() - 1 });
    }
    lemma_started_single(start);
    lemma_started(stop, seq![start]);
    assert(opened(a, block).1 =~= stop + seq![start]);
    assert(started_calls(opened(a, block).1) =~= started_calls(seq![start]));
    assert(carried_input(opened(a, block).1) =~= Seq::<char>::empty());
}

/// What an item of the tool calls begins and carries.
proof fn lemma_item_starts(a: AnswerView, call: JsonView)
    ensures
        started_calls(call_item_step(a, call).1) == (if begins_call(call) {
            seq![(call_id(call), call_name(call))]
        } else {
            Seq::empty()
        }),
        begins_call(call) || in_tool(a) ==> carried_input(call_item_step(a, call).1)
            == call_arguments(call) && in_tool(call_item_step(a, call).0),
        begins_call(call) ==> call_item_step(a, call).0.stop_reason == "tool_use"@,
        !begins_call(call) ==> call_item_step(a, call).0.stop_reason == a.stop_reason,
{
    lemma_words();
    assert(""@ =~= Seq::<char>::empty());
    let id = call_id(call);
    let name = call_name(call);
    let arguments = call_arguments(call);
    let block = StreamBlockView::ToolUse { id, name };
    let (b, events) = if begins_call(call) {
        let (c, started) = opened(a, block);
        (AnswerView { stop_reason: "tool_use"@, ..c }, started)
    } else {
        (a, Seq::empty())
    };
    lemma_opened_starts(a, block);
    let delta = BlockDeltaView::InputJson(arguments);
    lemma_started_single(
        AnthropicEventView::BlockDelta { index: b.blocks.len() - 1, delta },
    );
    lemma_started(events, added(b, delta));
    assert(started_calls(events) + Seq::<(Seq<char>, Seq<char>)>::empty() =~= started_calls(
        events,
    ));
    if begins_call(call) || in_tool(a) {
        law_call_keeps_arguments(a, id, name, arguments);
    }
}

/// What the tool calls of a delta begin and carry.
proof fn lemma_calls_start(a: AnswerView, calls: Seq<JsonView>)
    ensures
        started_calls(calls_step(a, calls).1) == begun_calls(calls),
        in_tool(a) || (calls.len() > 0 && begins_call(calls[0])) ==> carried_input(
            calls_step(a, calls).1,
        ) == all_arguments(calls) && in_tool(calls_step(a, calls).0),
    decreases calls.len(),
{
    if calls.len() > 0 {
        let front = calls.drop_last();
        let (b, before) = calls_step(a, front);
        lemma_calls_start(a, front);
        lemma_item_starts(b, calls.last());
        lemma_started(before, call_item_step(b, calls.last()).1);
        let more = call_item_step(b, calls.last()).1;
        assert(started_calls(before) + started_calls(more) =~= begun_calls(calls));
        if front.len() == 0 {
            assert(b == a);
            assert(carried_input(before) + carried_input(more) =~= carried_input(more));
            assert(all_arguments(front) =~= Seq::<char>::empty());
            assert(all_arguments(calls) =~= call_arguments(calls.last()));
        } else {
            assert(front[0] == calls[0]);
        }
    } else {
        assert(carried_input(Seq::<AnthropicEventView>::empty()) =~= Seq::<char>::empty());
    }
}

/// A call that is begun makes the answer one that uses tools.
proof fn lemma_calls_tell_reason(a: AnswerView, calls: Seq<JsonView>, i: int)
    requires
        0 <= i < calls.len(),
        begins_call(calls[i]),
    ensures
        calls_step(a, calls).0.stop_reason == "tool_use"@,
    decreases calls.len(),
{
    let front = calls.drop_last();
    lemma_item_starts(calls_step(a, front).0, calls.last());
    if i < front.len() {
        assert(front[i] == calls[i]);
        lemma_calls_tell_reason(a, front, i);
    }
}

/// Reasoning and text begin no call and carry no input.
proof fn lemma_words_start_nothing(a: AnswerView, thinking: Seq<char>, text: Seq<char>)
    ensures
        started_calls(thinking_step(a, thinking).1).len() == 0,
        carried_input(thinking_step(a, thinking).1).len() == 0,
        started_calls(text_step(a, text).1).len() == 0,
        carried_input(text_step(a, text).1).len() == 0,
{
    let (b, first) = if crate::router::anthropic_stream::in_thinking(a) {
        (a, Seq::empty())
    } else {
        opened(a, StreamBlockView::Thinking)
    };
    lemma_opened_starts(a, StreamBlockView::Thinking);
    let thought = AnthropicEventView::BlockDelta {
        index: b.blocks.len() - 1,
        delta: BlockDeltaView::Thinking(thinking),
    };
    lemma_started_single(thought);
    lemma_started(first, seq![thought]);
    let (c, second) = if crate::router::anthropic_stream::in_text(a) {
        (a, Seq::empty())
    } else {
        opened(a, StreamBlockView::Text)
    };
    lemma_opened_starts(a, StreamBlockView::Text);
    let said = AnthropicEventView::BlockDelta {
        index: c.blocks.len() - 1,
        delta: BlockDeltaView::Text(text),
    };
    lemma_started_single(said);
    lemma_started(second, seq![said]);
}

/// Every tool call that a chunk begins is begun for the client, in order, with its identifier and
/// its name; and the client gets exactly the arguments that the chunk carries, where the first of its
/// calls begins one, or where a call is open and the chunk has nothing but calls.
pub proof fn law_chunk_begins_calls(a: AnswerView, chunk: JsonView, calls: Seq<JsonView>)
    requires
        field(chunk_delta(chunk), "tool_calls"@) == Some(JsonView::Array(calls)),
    ensures
        started_calls(chunk_step(a, chunk).1) == begun_calls(calls),
        calls.len() > 0 && begins_call(calls[0]) ==> carried_input(chunk_step(a, chunk).1)
            == all_arguments(calls),
        in_tool(a) && str_field_or(chunk_delta(chunk), "content"@, Seq::empty()).len() == 0
            && str_field_or(chunk_delta(chunk), "reasoning_content"@, Seq::empty()).len() == 0
            ==> carried_input(chunk_step(a, chunk).1) == all_arguments(calls),
{
    lemma_words();
    assert(""@ =~= Seq::<char>::empty());
    let delta = chunk_delta(chunk);
    let thinking = str_field_or(delta, "reasoning_content"@, ""@);
    let text = str_field_or(delta, "content"@, ""@);
    let (b, first) = thinking_step(a, thinking);
    let (c, second) = text_step(b, text);
    let (d, third) = calls_step(c, calls);
    lemma_words_start_nothing(a, thinking, text);
    lemma_words_start_nothing(b, thinking, text);
    lemma_calls_start(c, calls);
    lemma_started(first, second);
    lemma_started(first + second, third);
    assert(started_calls(first + second + third) =~= started_calls(third));
    assert(carried_input(first + second + third) =~= carried_input(third));
}

/// A chunk without tool calls begins none.
pub proof fn law_chunk_without_calls(a: AnswerView, chunk: JsonView)
    requires
        !(field(chunk_delta(chunk), "tool_calls"@) matches Some(JsonView::Array(_))),
    ensures
        started_calls(chunk_step(a, chunk).1).len() == 0,
        carried_input(chunk_step(a, chunk).1).len() == 0,
{
    let delta = chunk_delta(chunk);
    let thinking = str_field_or(delta, "reasoning_content"@, ""@);
    let text = str_field_or(delta, "content"@, ""@);
    let (b, first) = thinking_step(a, thinking);
    let (c, second) = text_step(b, text);
    let (d, third) = calls_step(c, Seq::empty());
    lemma_words_start_nothing(a, thinking, text);
    lemma_words_start_nothing(b, thinking, text);
    lemma_calls_start(c, Seq::empty());
    lemma_started(first, second);
    lemma_started(first + second, third);
}

/// The delta of a chunk is that of its first choice.
pub proof fn law_first_choice_counts(chunk: JsonView, choices: Seq<JsonView>)
    requires
        field(chunk, "choices"@) == Some(JsonView::Array(choices)),
        choices.len() > 0,
    ensures
        field(choices[0], "delta"@) is Some ==> chunk_delta(chunk) == field(choices[0], "delta"@)->0,
        first_choice(chunk) == Some(choices[0]),
{
}

/// The number of tokens of an answer is the last one that the backend gives.
pub proof fn law_tokens_are_told(a: AnswerView, chunk: JsonView)
    ensures
        ({
            let usage = match field(chunk, "usage"@) {
                Some(usage) => uint_field(usage, "completion_tokens"@),
                None => None,
            };
            let after = chunk_step(a, chunk).0.output_tokens;
            &&& usage matches Some(n) ==> after == n
            &&& usage is None ==> after == a.output_tokens
        }),
{
    let delta = chunk_delta(chunk);
    let (b, _) = thinking_step(a, str_field_or(delta, "reasoning_content"@, ""@));
    let (c, _) = text_step(b, str_field_or(delta, "content"@, ""@));
    lemma_calls_go_on(c, delta_tool_calls(delta));
}

/// What a line of the backend comes to, before the end: the end marker ends the message; data that is
/// JSON is a chunk; everything else comes to nothing. After the end everything does.
pub proof fn law_answer_lines(a: AnswerView, line: Seq<char>, data: Seq<char>)
    ensures
        a.ended ==> answer_line_step(a, line) == (a, Seq::<AnthropicEventView>::empty()),
        !a.ended && trimmed(line) == "data: [DONE]"@ ==> answer_line_step(a, line).0.ended,
        !a.ended && trimmed(line) == "data: "@ + data && data != "[DONE]"@ ==> (
        match json_parse(data) {
            Some(chunk) => answer_line_step(a, line) == chunk_step(a, chunk),
            None => answer_line_step(a, line) == (a, Seq::<AnthropicEventView>::empty()),
        }),
        !a.ended && after_prefix(trimmed(line), "data: "@) is None ==> answer_line_step(a, line)
            == (a, Seq::<AnthropicEventView>::empty()),
{
    reveal_strlit("data: ");
    reveal_strlit("[DONE]");
    reveal_strlit("data: [DONE]");
    let t = "data: "@ + data;
    assert(t.subrange(0, 6) =~= "data: "@);
    assert(t.skip(6) =~= data);
    assert("data: [DONE]"@.skip(6) =~= "[DONE]"@);
    assert("data: [DONE]"@.subrange(0, 6) =~= "data: "@);
}

/// The JSON of an event tells its type and what it carries.
pub proof fn law_event_json(e: AnthropicEventView)
    ensures
        ({
            let v = event_json(e);
            &&& str_field(v, "type"@) == Some(event_name(e))
            &&& match e {
                AnthropicEventView::MessageStart { id, model } => {
                    &&& event_name(e) == "message_start"@
                    &&& field(v, "message"@) matches Some(message)
                    &&& str_field(message, "id"@) == Some(id)
                    &&& str_field(message, "model"@) == Some(model)
                    &&& str_field(message, "type"@) == Some("message"@)
                    &&& str_field(message, "role"@) == Some("assistant"@)
                    &&& field(message, "content"@) == Some(JsonView::Array(Seq::empty()))
                    &&& field(message, "stop_reason"@) == Some(JsonView::Null)
                    &&& field(message, "stop_sequence"@) == Some(JsonView::Null)
                    &&& field(message, "usage"@) matches Some(usage)
                    &&& uint_field(usage, "input_tokens"@) == Some(0u64)
                    &&& uint_field(usage, "output_tokens"@) == Some(0u64)
                },
                AnthropicEventView::BlockStart { index, block } => {
                    &&& event_name(e) == "content_block_start"@
                    &&& field(v, "index"@) == Some(JsonView::Number(NumberView::Int(index)))
                    &&& field(v, "content_block"@) matches Some(sent)
                    &&& match block {
                        StreamBlockView::Thinking => {
                            &&& str_field(sent, "type"@) == Some("thinking"@)
                            &&& str_field(sent, "thinking"@) == Some(Seq::<char>::empty())
                        },
                        StreamBlockView::Text => {
                            &&& str_field(sent, "type"@) == Some("text"@)
                            &&& str_field(sent, "text"@) == Some(Seq::<char>::empty())
                        },
                        StreamBlockView::ToolUse { id, name } => {
                            &&& str_field(sent, "type"@) == Some("tool_use"@)
                            &&& str_field(sent, "id"@) == Some(id)
                            &&& str_field(sent, "name"@) == Some(name)
                            &&& field(sent, "input"@) == Some(JsonView::Object(Map::empty()))
                        },
                    }
                },
                AnthropicEventView::BlockDelta { index, delta } => {
                    &&& event_name(e) == "content_block_delta"@
                    &&& field(v, "index"@) == Some(JsonView::Number(NumberView::Int(index)))
                    &&& field(v, "delta"@) matches Some(sent)
                    &&& match delta {
                        BlockDeltaView::Thinking(text) => {
                            &&& str_field(sent, "type"@) == Some("thinking_delta"@)
                            &&& str_field(sent, "thinking"@) == Some(text)
                        },
                        BlockDeltaView::Text(text) => {
                            &&& str_field(sent, "type"@) == Some("text_delta"@)
                            &&& str_field(sent, "text"@) == Some(text)
                        },
                        BlockDeltaView::InputJson(text) => {
                            &&& str_field(sent, "type"@) == Some("input_json_delta"@)
                            &&& str_field(sent, "partial_json"@) == Some(text)
                        },
                    }
                },
                AnthropicEventView::BlockStop { index } => {
                    &&& event_name(e) == "content_block_stop"@
                    &&& field(v, "index"@) == Some(JsonView::Number(NumberView::Int(index)))
                },
                AnthropicEventView::MessageDelta { stop_reason, output_tokens } => {
                    &&& event_name(e) == "message_delta"@
                    &&& field(v, "delta"@) matches Some(delta)
                    &&& str_field(delta, "stop_reason"@) == Some(stop_reason)
                    &&& field(delta, "stop_sequence"@) == Some(JsonView::Null)
                    &&& field(v, "usage"@) matches Some(usage)
                    &&& field(usage, "output_tokens"@) == Some(
                        JsonView::Number(NumberView::Int(output_tokens as int)),
                    )
                },
                AnthropicEventView::MessageStop => event_name(e) == "message_stop"@,
            }
        }),
{
    lemma_words();
    assert(""@ =~= Seq::<char>::empty());
}

/// The events of an Anthropic backend are passed on by their lines, one run after the other: a line
/// of data makes an event, under the name that the last line before it gave; other lines make none.
pub proof fn law_passed_lines(
    waiting: Option<Seq<char>>,
    first: Seq<Seq<char>>,
    second: Seq<Seq<char>>,
    text: Seq<char>,
)
    ensures
        ({
            let (middle, before) = passed_events(waiting, first);
            let (after, more) = passed_events(middle, second);
            passed_events(waiting, first + second) == (after, before + more)
        }),
        passed_events(waiting, seq!["event: "@ + text]) == (
            Some(text),
            Seq::<NamedEventView>::empty(),
        ),
        passed_events(waiting, seq!["data: "@ + text]) == (
            None::<Seq<char>>,
            seq![NamedEventView { name: waiting, data: text }],
        ),
        after_prefix(text, "event: "@) is None && after_prefix(text, "data: "@) is None
            ==> passed_events(waiting, seq![text]) == (waiting, Seq::<NamedEventView>::empty()),
    decreases second.len(),
{
    crate::router::anthropic_stream::law_passed_in_runs(waiting, first, second);
    reveal_with_fuel(passed_events, 2);
    reveal_strlit("data: ");
    reveal_strlit("event: ");
    let named = "event: "@ + text;
    let data = "data: "@ + text;
    assert(seq![named].drop_last() =~= Seq::<Seq<char>>::empty());
    assert(seq![data].drop_last() =~= Seq::<Seq<char>>::empty());
    assert(seq![text].drop_last() =~= Seq::<Seq<char>>::empty());
    assert(named.subrange(0, 7) =~= "event: "@);
    assert(named.skip(7) =~= text);
    assert(data.subrange(0, 6) =~= "data: "@);
    assert(data.skip(6) =~= text);
    if data.len() >= 7 {
        assert(data.subrange(0, 7)[0] == 'd');
        assert("event: "@[0] == 'e');
    }
    let event = NamedEventView { name: waiting, data: text };
    assert(Seq::<NamedEventView>::empty().push(event) =~= seq![event]);
}

/// Whether a delta holds reasoning, text and tool calls, and these alone.
pub open spec fn holds(
    delta: JsonView,
    reasoning: Seq<char>,
    text: Seq<char>,
    calls: Seq<JsonView>,
) -> bool {
    &&& str_field_or(delta, "reasoning_content"@, Seq::empty()) == reasoning
    &&& str_field_or(delta, "content"@, Seq::empty()) == text
    &&& match field(delta, "tool_calls"@) {
        Some(JsonView::Array(items)) => items == calls,
        _ => calls.len() == 0,
    }
}

/// What the delta of a chunk comes to.
proof fn lemma_delta_parts(
    a: AnswerView,
    chunk: JsonView,
    reasoning: Seq<char>,
    text: Seq<char>,
    calls: Seq<JsonView>,
)
    requires
        first_choice(chunk) is Some,
        holds(chunk_delta(chunk), reasoning, text, calls),
    ensures
        ({
            let (b, first) = thinking_step(a, reasoning);
            let (c, second) = text_step(b, text);
            let (d, third) = calls_step(c, calls);
            let after = chunk_step(a, chunk).0;
            &&& chunk_step(a, chunk).1 == first + second + third
            &&& after.blocks == d.blocks
            &&& after.open == d.open
            &&& after.ended == d.ended
        }),
{
    lemma_words();
    assert(""@ =~= Seq::<char>::empty());
    let delta = chunk_delta(chunk);
    assert(delta_tool_calls(delta) =~= calls);
}

/// Text goes on in the block of text that is open, and else opens one; reasoning likewise one of
/// thinking. A chunk with nothing in it comes to nothing.
pub proof fn law_blocks_go_on(a: AnswerView, chunk: JsonView, text: Seq<char>)
    requires
        first_choice(chunk) is Some,
        text.len() > 0,
        a.open ==> a.blocks.len() > 0,
    ensures
        ({
            let delta = chunk_delta(chunk);
            let (after, events) = chunk_step(a, chunk);
            let none = Seq::<char>::empty();
            &&& holds(delta, none, none, Seq::empty()) ==> events.len() == 0 && after.blocks
                == a.blocks && after.open == a.open
            &&& holds(delta, none, text, Seq::empty()) ==> {
                &&& events.len() > 0
                &&& events.last() == (AnthropicEventView::BlockDelta {
                    index: after.blocks.len() - 1,
                    delta: BlockDeltaView::Text(text),
                })
                &&& after.open && after.blocks.last() is Text
                &&& if a.open && a.blocks.last() is Text {
                    events.len() == 1 && after.blocks == a.blocks
                } else {
                    after.blocks == a.blocks.push(StreamBlockView::Text)
                }
            }
            &&& holds(delta, text, none, Seq::empty()) ==> {
                &&& events.len() > 0
                &&& events.last() == (AnthropicEventView::BlockDelta {
                    index: after.blocks.len() - 1,
                    delta: BlockDeltaView::Thinking(text),
                })
                &&& after.open && after.blocks.last() is Thinking
                &&& if a.open && a.blocks.last() is Thinking {
                    events.len() == 1 && after.blocks == a.blocks
                } else {
                    after.blocks == a.blocks.push(StreamBlockView::Thinking)
                }
            }
        }),
{
    let delta = chunk_delta(chunk);
    let none = Seq::<char>::empty();
    let no_calls = Seq::<JsonView>::empty();
    if holds(delta, none, none, no_calls) {
        lemma_delta_parts(a, chunk, none, none, no_calls);
    }
    if holds(delta, none, text, no_calls) {
        lemma_delta_parts(a, chunk, none, text, no_calls);
    }
    if holds(delta, text, none, no_calls) {
        lemma_delta_parts(a, chunk, text, none, no_calls);
    }
}

/// The parts of a chunk come in order: first its reasoning, then its text, then its tool calls. A
/// chunk with all of them comes to the same events as three chunks with one of them each.
pub proof fn law_parts_in_order(
    a: AnswerView,
    chunk: JsonView,
    thought: JsonView,
    said: JsonView,
    called: JsonView,
    reasoning: Seq<char>,
    text: Seq<char>,
    calls: Seq<JsonView>,
)
    requires
        first_choice(chunk) is Some,
        first_choice(thought) is Some,
        first_choice(said) is Some,
        first_choice(called) is Some,
        holds(chunk_delta(chunk), reasoning, text, calls),
        holds(chunk_delta(thought), reasoning, Seq::empty(), Seq::empty()),
        holds(chunk_delta(said), Seq::empty(), text, Seq::empty()),
        holds(chunk_delta(called), Seq::empty(), Seq::empty(), calls),
    ensures
        ({
            let (b, first) = chunk_step(a, thought);
            let (c, second) = chunk_step(b, said);
            let (d, third) = chunk_step(c, called);
            chunk_step(a, chunk).1 == first + second + third
        }),
{
    let none = Seq::<char>::empty();
    let no_calls = Seq::<JsonView>::empty();
    lemma_delta_parts(a, chunk, reasoning, text, calls);
    lemma_delta_parts(a, thought, reasoning, none, no_calls);
    let (b, first) = chunk_step(a, thought);
    lemma_delta_parts(b, said, none, text, no_calls);
    let (c, second) = chunk_step(b, said);
    lemma_delta_parts(c, called, none, none, calls);
    let (b1, first1) = thinking_step(a, reasoning);
    let (c1, second1) = text_step(b1, text);
    assert(first =~= first1);
    lemma_same_shape_text(b, b1, text);
    assert(second =~= second1);
    lemma_same_shape_calls(c, c1, calls);
    let third1 = calls_step(c1, calls).1;
    let third = chunk_step(c, called).1;
    assert(third =~= third1);
}

/// Text comes to the same events in conversions with the same blocks.
proof fn lemma_same_shape_text(a: AnswerView, b: AnswerView, text: Seq<char>)
    requires
        a.blocks == b.blocks,
        a.open == b.open,
    ensures
        text_step(a, text).1 == text_step(b, text).1,
        text_step(a, text).0.blocks == text_step(b, text).0.blocks,
        text_step(a, text).0.open == text_step(b, text).0.open,
{
}

/// Tool calls come to the same events in conversions with the same blocks.
proof fn lemma_same_shape_calls(a: AnswerView, b: AnswerView, calls: Seq<JsonView>)
    requires
        a.blocks == b.blocks,
        a.open == b.open,
    ensures
        calls_step(a, calls).1 == calls_step(b, calls).1,
        calls_step(a, calls).0.blocks == calls_step(b, calls).0.blocks,
        calls_step(a, calls).0.open == calls_step(b, calls).0.open,
    decreases calls.len(),
{
    if calls.len() > 0 {
        lemma_same_shape_calls(a, b, calls.drop_last());
    }
}

/// Arguments that belong to no call come to nothing: where the item begins no call and none is open.
pub proof fn law_stray_arguments(a: AnswerView, chunk: JsonView, call: JsonView)
    requires
        first_choice(chunk) is Some,
        holds(chunk_delta(chunk), Seq::empty(), Seq::empty(), seq![call]),
        !begins_call(call),
        !(a.open && a.blocks.last() is ToolUse),
    ensures
        chunk_step(a, chunk).1.len() == 0,
        chunk_step(a, chunk).0.blocks == a.blocks,
{
    lemma_words();
    assert(""@ =~= Seq::<char>::empty());
    lemma_delta_parts(a, chunk, Seq::empty(), Seq::empty(), seq![call]);
    reveal_with_fuel(calls_step, 2);
    assert(seq![call].drop_last() =~= Seq::<JsonView>::empty());
}

/// Whether a chunk calls no tool and gives no reason of its own why the answer ended.
pub open spec fn is_plain(chunk: JsonView) -> bool {
    &&& !says_reason(chunk, "length"@)
    &&& !says_reason(chunk, "tool_calls"@)
    &&& delta_tool_calls(chunk_delta(chunk)).len() == 0
}

/// Plain chunks leave an answer one that ends its turn.
proof fn lemma_plain_chunks(chunks: Seq<JsonView>)
    requires
        forall|k: int| 0 <= k < chunks.len() ==> is_plain(#[trigger] chunks[k]),
    ensures
        chunks_step(fresh_answer(), chunks).0.stop_reason == "end_turn"@,
    decreases chunks.len(),
{
    if chunks.len() > 0 {
        let front = chunks.drop_last();
        assert forall|k: int| 0 <= k < front.len() implies is_plain(#[trigger] front[k]) by {
            assert(front[k] == chunks[k]);
        }
        lemma_plain_chunks(front);
        assert(is_plain(chunks[chunks.len() - 1]));
        law_content_tells_reason(chunks_step(fresh_answer(), front).0, chunks.last(), 0);
    }
}

/// The tokens that chunks give.
proof fn lemma_no_tokens(chunks: Seq<JsonView>)
    requires
        forall|k: int| 0 <= k < chunks.len() ==> field(#[trigger] chunks[k], "usage"@) is None,
    ensures
        chunks_step(fresh_answer(), chunks).0.output_tokens == 0,
    decreases chunks.len(),
{
    if chunks.len() > 0 {
        let front = chunks.drop_last();
        assert forall|k: int| 0 <= k < front.len() implies field(
            #[trigger] front[k],
            "usage"@,
        ) is None by {
            assert(front[k] == chunks[k]);
        }
        lemma_no_tokens(front);
        assert(field(chunks[chunks.len() - 1], "usage"@) is None);
        law_tokens_are_told(chunks_step(fresh_answer(), front).0, chunks.last());
    }
}

/// An answer of which no chunk calls a tool or says that it was cut off ends its turn; one of which
/// no chunk gives a number of tokens tells none. This holds of an answer without chunks too.
pub proof fn law_plain_answer_ends_turn(chunks: Seq<JsonView>)
    ensures
        ({
            let events = finish_step(chunks_step(fresh_answer(), chunks).0).1;
            &&& events.len() >= 2
            &&& events[events.len() - 2] matches AnthropicEventView::MessageDelta {
                stop_reason,
                output_tokens,
            }
            &&& (forall|k: int| 0 <= k < chunks.len() ==> is_plain(#[trigger] chunks[k]))
                ==> stop_reason == "end_turn"@
            &&& (forall|k: int| 0 <= k < chunks.len() ==> field(#[trigger] chunks[k], "usage"@)
                is None) ==> output_tokens == 0
        }),
{
    let (after, _) = chunks_step(fresh_answer(), chunks);
    lemma_chunks_go_on(fresh_answer(), chunks);
    law_end_tells_reason(after);
    if forall|k: int| 0 <= k < chunks.len() ==> is_plain(#[trigger] chunks[k]) {
        lemma_plain_chunks(chunks);
    }
    if forall|k: int| 0 <= k < chunks.len() ==> field(#[trigger] chunks[k], "usage"@) is None {
        lemma_no_tokens(chunks);
    }
}

/// An answer without any content has one block of text, which is empty.
pub proof fn law_empty_answer(a: AnswerView)
    requires
        !a.ended,
        a.blocks.len() == 0,
        !a.open,
    ensures
        ({
            let events = finish_step(a).1;
            &&& events.len() == 4
            &&& events[0] == (AnthropicEventView::BlockStart {
                index: 0,
                block: StreamBlockView::Text,
            })
            &&& events[1] == (AnthropicEventView::BlockStop { index: 0 })
        }),
{
}

/// A single line comes to what the line comes to, and no line to nothing.
pub proof fn law_single_answer_line(a: AnswerView, line: Seq<char>)
    ensures
        answer_lines_step(a, Seq::empty()) == (a, Seq::<AnthropicEventView>::empty()),
        answer_lines_step(a, seq![line]) == answer_line_step(a, line),
{
    reveal_with_fuel(answer_lines_step, 2);
    assert(seq![line].drop_last() =~= Seq::<Seq<char>>::empty());
    let (b, last) = answer_line_step(a, line);
    assert(Seq::<AnthropicEventView>::empty() + last =~= last);
}

} // verus!
