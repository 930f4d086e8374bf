//! What becomes of a backend's answer: the client gets what the backend said, in its own protocol.

use vstd::prelude::*;

use crate::backend::anthropic_passthrough;
use crate::backend::anthropic_passthrough::{answer_of, MessagesReply};
use crate::backend::openai_compat;
use crate::backend::openai_compat::{
    choice_chunk, choice_chunks, delta_calls, error_of, line_chunks, response_of, ChatReply,
    OpenAIResponseView,
};
use crate::backend::{success, StreamReply};
use crate::error::GatewayErrorView;
use crate::gateway::types::{
    calls_tool, ContentBlockView, FunctionCallView, InternalResponseView, StreamChunkView,
};
use crate::json::{field, str_field, str_field_or, uint_field, JsonView, NumberView};
use crate::json_codec::{json_parse, json_text};
use crate::laws::requests::calls_before;
use crate::laws::words::lemma_words;
use crate::router::anthropic::{answer_json, anthropic_answer};
use crate::router::openai::{
    call_jsons, chat_json, last_text, model_item, model_item_json, openai_answer,
};
use crate::text::{has_prefix, trimmed, without_leading};

verus! {

/// A number of tokens as JSON; none stands for one that is not known.
pub open spec fn tokens_json(n: Option<u64>) -> JsonView {
    JsonView::Number(
        NumberView::Int(
            match n {
                Some(x) => x as int,
                None => 0,
            },
        ),
    )
}

/// An answer reaches an Anthropic client as a message of the assistant, with its identifier, the
/// alias as its model, the tokens that it took, and its content, block for block: text as text, and
/// a tool call with its identifier, its name and its arguments as JSON.
pub proof fn law_anthropic_client_answer(r: InternalResponseView, i: int)
    ensures
        ({
            let v = answer_json(anthropic_answer(r));
            &&& str_field(v, "id"@) == Some(r.id)
            &&& str_field(v, "type"@) == Some("message"@)
            &&& str_field(v, "role"@) == Some("assistant"@)
            &&& str_field(v, "model"@) == Some(r.alias)
            &&& field(v, "usage"@) matches Some(usage)
            &&& field(usage, "input_tokens"@) == Some(tokens_json(r.usage.prompt_tokens))
            &&& field(usage, "output_tokens"@) == Some(tokens_json(r.usage.completion_tokens))
            &&& field(v, "content"@) matches Some(JsonView::Array(blocks))
            &&& blocks.len() == r.content.len()
            &&& 0 <= i < r.content.len() ==> match r.content[i] {
                ContentBlockView::Text { text } => {
                    &&& str_field(blocks[i], "type"@) == Some("text"@)
                    &&& str_field(blocks[i], "text"@) == Some(text)
                },
                ContentBlockView::ToolCall { id, function } => {
                    &&& str_field(blocks[i], "type"@) == Some("tool_use"@)
                    &&& str_field(blocks[i], "id"@) == Some(id)
                    &&& str_field(blocks[i], "name"@) == Some(function.name)
                    &&& field(blocks[i], "input"@) == Some(
                        match json_parse(function.arguments) {
                            Some(input) => input,
                            None => JsonView::Object(Map::empty()),
                        },
                    )
                },
                _ => {
                    &&& str_field(blocks[i], "type"@) == Some("text"@)
                    &&& str_field(blocks[i], "text"@) == Some("[unsupported content type]"@)
                },
            }
        }),
{
    lemma_words();
}

/// Why an answer ended, as an Anthropic client is told it: a tool call decides; else `stop` is
/// `end_turn`, `length` is `max_tokens`, `tool_calls` is `tool_use`, any other word stays, and
/// nothing is told where the backend said nothing.
pub proof fn law_anthropic_client_reason(r: InternalResponseView, i: int)
    ensures
        ({
            let told = str_field(answer_json(anthropic_answer(r)), "stop_reason"@);
            let calls = exists|k: int| 0 <= k < r.content.len() && (#[trigger] r.content[k])
                is ToolCall;
            &&& 0 <= i < r.content.len() && r.content[i] is ToolCall ==> told == Some("tool_use"@)
            &&& !calls && r.finish_reason == Some("stop"@) ==> told == Some("end_turn"@)
            &&& !calls && r.finish_reason == Some("length"@) ==> told == Some("max_tokens"@)
            &&& !calls && r.finish_reason == Some("tool_calls"@) ==> told == Some("tool_use"@)
            &&& !calls && r.finish_reason != Some("stop"@) && r.finish_reason != Some("length"@)
                && r.finish_reason != Some("tool_calls"@) ==> told == r.finish_reason
        }),
{
    lemma_words();
}

/// The tool calls that an OpenAI client is told, one for each, in order.
proof fn lemma_calls_told(blocks: Seq<ContentBlockView>, n: int, i: int)
    requires
        0 <= n <= blocks.len(),
    ensures
        call_jsons(blocks.take(n)).len() == calls_before(blocks, n),
        0 <= i < n ==> 0 <= calls_before(blocks, i) <= calls_before(blocks, n),
        0 <= i < n ==> (blocks[i] matches ContentBlockView::ToolCall { id, function }
            ==> calls_before(blocks, i) < calls_before(blocks, n) && call_jsons(
            blocks.take(n),
        )[calls_before(blocks, i)] == crate::router::openai::call_json(id, function)),
    decreases n,
{
    if n == 0 {
        assert(blocks.take(0) =~= Seq::<ContentBlockView>::empty());
    } else {
        assert(blocks.take(n).drop_last() =~= blocks.take(n - 1));
        assert(blocks.take(n).last() == blocks[n - 1]);
        lemma_calls_told(blocks, n - 1, i);
        if i == n - 1 {
            lemma_calls_told(blocks, i, 0);
        }
    }
}

/// The last text of a content.
proof fn lemma_last_text(blocks: Seq<ContentBlockView>, i: int)
    ensures
        0 <= i < blocks.len() && blocks[i] is Text && (forall|k: int|
            i < k < blocks.len() ==> !((#[trigger] blocks[k]) is Text)) ==> last_text(blocks)
            == Some(blocks[i]->text),
        (forall|k: int| 0 <= k < blocks.len() ==> !((#[trigger] blocks[k]) is Text)) ==> last_text(
            blocks,
        ) is None,
    decreases blocks.len(),
{
    if blocks.len() > 0 {
        let front = blocks.drop_last();
        lemma_last_text(front, i);
        if forall|k: int| 0 <= k < blocks.len() ==> !((#[trigger] blocks[k]) is Text) {
            assert(!(blocks[blocks.len() - 1] is Text));
            assert forall|k: int| 0 <= k < front.len() implies !((#[trigger] front[k]) is Text) by {
                assert(front[k] == blocks[k]);
            }
        }
        if 0 <= i < blocks.len() - 1 && blocks[i] is Text && (forall|k: int|
            i < k < blocks.len() ==> !((#[trigger] blocks[k]) is Text)) {
            assert(!(blocks[blocks.len() - 1] is Text));
            assert(front[i] == blocks[i]);
            assert forall|k: int| i < k < front.len() implies !((#[trigger] front[k]) is Text) by {
                assert(front[k] == blocks[k]);
            }
        }
    }
}

/// An answer reaches an OpenAI client as a completion, with its identifier, the time, the alias as
/// its model, the tokens that it took, and one choice: a message of the assistant with the last text,
/// or null, and the word of the backend for why it ended, or null.
pub proof fn law_openai_client_answer(r: InternalResponseView, created: u64, i: int)
    ensures
        ({
            let v = chat_json(openai_answer(r, created));
            &&& str_field(v, "id"@) == Some(r.id)
            &&& str_field(v, "object"@) == Some("chat.completion"@)
            &&& field(v, "created"@) == Some(JsonView::Number(NumberView::Int(created as int)))
            &&& str_field(v, "model"@) == Some(r.alias)
            &&& field(v, "usage"@) matches Some(usage)
            &&& field(usage, "prompt_tokens"@) == Some(tokens_json(r.usage.prompt_tokens))
            &&& field(usage, "completion_tokens"@) == Some(tokens_json(r.usage.completion_tokens))
            &&& field(usage, "total_tokens"@) == Some(tokens_json(r.usage.total_tokens))
            &&& field(v, "choices"@) matches Some(JsonView::Array(choices))
            &&& choices.len() == 1
            &&& field(choices[0], "index"@) == Some(JsonView::Number(NumberView::Int(0)))
            &&& field(choices[0], "finish_reason"@) == Some(
                match r.finish_reason {
                    Some(word) => JsonView::Str(word),
                    None => JsonView::Null,
                },
            )
            &&& field(choices[0], "message"@) matches Some(message)
            &&& str_field(message, "role"@) == Some("assistant"@)
            &&& 0 <= i < r.content.len() && r.content[i] is Text && (forall|k: int|
                i < k < r.content.len() ==> !((#[trigger] r.content[k]) is Text)) ==> str_field(
                message,
                "content"@,
            ) == Some(r.content[i]->text)
            &&& (forall|k: int| 0 <= k < r.content.len() ==> !((#[trigger] r.content[k]) is Text))
                ==> field(message, "content"@) == Some(JsonView::Null)
        }),
{
    lemma_words();
    lemma_last_text(r.content, i);
    let v = chat_json(openai_answer(r, created));
    let choices = openai_answer(r, created).choices;
    assert(choices.len() == 1);
}

/// An OpenAI client is told every tool call of an answer, in order, each with its identifier, its
/// name and its arguments, and none where there is none.
pub proof fn law_openai_client_calls(r: InternalResponseView, created: u64, i: int)
    ensures
        ({
            let count = calls_before(r.content, r.content.len() as int);
            let v = chat_json(openai_answer(r, created));
            &&& field(v, "choices"@) matches Some(JsonView::Array(choices))
            &&& choices.len() == 1
            &&& field(choices[0], "message"@) matches Some(message)
            &&& count == 0 ==> field(message, "tool_calls"@) is None
            &&& count > 0 ==> {
                &&& field(message, "tool_calls"@) matches Some(JsonView::Array(calls))
                &&& calls.len() == count
                &&& 0 <= i < r.content.len() ==> (r.content[i] matches ContentBlockView::ToolCall {
                    id,
                    function,
                } ==> {
                    let call = calls[calls_before(r.content, i)];
                    &&& 0 <= calls_before(r.content, i) < count
                    &&& str_field(call, "id"@) == Some(id)
                    &&& str_field(call, "type"@) == Some("function"@)
                    &&& field(call, "function"@) matches Some(told)
                    &&& str_field(told, "name"@) == Some(function.name)
                    &&& str_field(told, "arguments"@) == Some(function.arguments)
                })
            }
        }),
{
    lemma_words();
    lemma_calls_told(r.content, r.content.len() as int, i);
    assert(r.content.take(r.content.len() as int) =~= r.content);
    let choices = openai_answer(r, created).choices;
    assert(choices.len() == 1);
}

/// An answer of an OpenAI compatible backend keeps its identifier, its model, its tokens and the
/// word for why it ended, and takes the alias. Its content is that of its first choice: the text,
/// where there is some, and then the tool calls, in order, each with its identifier, its name and its
/// arguments.
pub proof fn law_openai_backend_answer(
    resp: OpenAIResponseView,
    alias: Seq<char>,
    fresh: Seq<char>,
    i: int,
)
    ensures
        ({
            let r = response_of(resp, alias, fresh);
            &&& r.alias == alias
            &&& resp.id matches Some(id) ==> r.id == id
            &&& resp.id is None ==> r.id == fresh
            &&& resp.model matches Some(model) ==> r.model == model
            &&& resp.model is None ==> r.model.len() == 0
            &&& resp.usage matches Some(usage) ==> {
                &&& r.usage.prompt_tokens == usage.prompt_tokens
                &&& r.usage.completion_tokens == usage.completion_tokens
                &&& r.usage.total_tokens == usage.total_tokens
            }
            &&& resp.usage is None ==> r.usage.prompt_tokens is None && r.usage.completion_tokens
                is None && r.usage.total_tokens is None
            &&& resp.choices.len() == 0 ==> r.content.len() == 0 && r.finish_reason is None
            &&& resp.choices.len() > 0 ==> r.finish_reason == resp.choices[0].finish_reason
            &&& resp.choices.len() > 0 && resp.choices[0].message is None ==> r.content.len() == 0
            &&& resp.choices.len() > 0 ==> (resp.choices[0].message matches Some(m) ==> {
                let calls = match m.tool_calls {
                    Some(calls) => calls,
                    None => Seq::empty(),
                };
                let texts = if m.content is Some && m.content->0 is Str && m.content->0->Str_0.len()
                    > 0 {
                    1int
                } else {
                    0int
                };
                &&& r.content.len() == texts + calls.len()
                &&& texts == 1 ==> r.content[0] == (ContentBlockView::Text {
                    text: m.content->0->Str_0,
                })
                &&& 0 <= i < calls.len() ==> r.content[texts + i] == (ContentBlockView::ToolCall {
                    id: calls[i].id,
                    function: calls[i].function,
                })
            })
        }),
{
    lemma_words();
}

/// An answer of an Anthropic backend keeps its identifier and its tokens, and takes the model that
/// was asked and the alias. Its content is that of its blocks, one for one: text as text, and a tool
/// call with its identifier, its name and its input as text. A tool call decides why it ended; else
/// the backend's word stays.
pub proof fn law_anthropic_backend_answer(
    body: JsonView,
    model: Seq<char>,
    alias: Seq<char>,
    blocks: Seq<JsonView>,
    i: int,
)
    requires
        field(body, "content"@) == Some(JsonView::Array(blocks)),
    ensures
        ({
            let r = answer_of(body, model, alias);
            let kind = if 0 <= i < blocks.len() {
                str_field(blocks[i], "type"@)
            } else {
                None
            };
            &&& r.model == model
            &&& r.alias == alias
            &&& str_field(body, "id"@) matches Some(id) ==> r.id == id
            &&& str_field(body, "id"@) is None ==> r.id == "?"@
            &&& r.usage.total_tokens is None
            &&& field(body, "usage"@) is None ==> r.usage.prompt_tokens is None
                && r.usage.completion_tokens is None
            &&& field(body, "usage"@) matches Some(usage) ==> {
                &&& r.usage.prompt_tokens == uint_field(usage, "input_tokens"@)
                &&& r.usage.completion_tokens == uint_field(usage, "output_tokens"@)
            }
            &&& r.content.len() == blocks.len()
            &&& kind == Some("text"@) && str_field(blocks[i], "text"@) is Some ==> r.content[i]
                == (ContentBlockView::Text { text: str_field(blocks[i], "text"@)->0 })
            &&& kind == Some("tool_use"@) && str_field(blocks[i], "id"@) is Some && str_field(
                blocks[i],
                "name"@,
            ) is Some && field(blocks[i], "input"@) is Some ==> r.content[i] == (
            ContentBlockView::ToolCall {
                id: str_field(blocks[i], "id"@)->0,
                function: FunctionCallView {
                    name: str_field(blocks[i], "name"@)->0,
                    arguments: json_text(field(blocks[i], "input"@)->0),
                },
            })
            &&& kind == Some("tool_use"@) ==> r.finish_reason == Some("tool_use"@)
            &&& 0 <= i < blocks.len() && field(blocks[i], "type"@) is None ==> r.content[i] == (
            ContentBlockView::Text { text: str_field_or(blocks[i], "text"@, Seq::empty()) })
            &&& kind is Some && kind != Some("text"@) && kind != Some("tool_use"@) ==> r.content[i]
                == (ContentBlockView::Text { text: Seq::empty() })
            &&& (forall|k: int|
                0 <= k < blocks.len() ==> str_field(#[trigger] blocks[k], "type"@) != Some(
                    "tool_use"@,
                )) ==> r.finish_reason == str_field(body, "stop_reason"@)
        }),
{
    lemma_words();
    assert(""@ =~= Seq::<char>::empty());
    let r = answer_of(body, model, alias);
    if 0 <= i < blocks.len() && str_field(blocks[i], "type"@) == Some("tool_use"@) {
        assert(r.content[i] is ToolCall);
        assert(calls_tool(r.content));
    }
    if forall|k: int|
        0 <= k < blocks.len() ==> str_field(#[trigger] blocks[k], "type"@) != Some("tool_use"@) {
        if calls_tool(r.content) {
            let k = choose|k: int| 0 <= k < r.content.len() && (#[trigger] r.content[k])
                is ToolCall;
            assert(str_field(blocks[k], "type"@) != Some("tool_use"@));
        }
    }
}

/// Whether a status of a backend is a success: from 200 to 299.
pub proof fn law_success(status: u16)
    ensures
        success(status) <==> status / 100 == 2,
{
}

/// What a failed request to an OpenAI compatible backend comes to: one that was not sent is a failed
/// request, a refusal keeps its status and its body, and an answer that cannot be read is an internal
/// error. An answer is no error.
pub proof fn law_openai_failures(reply: ChatReply)
    ensures
        match reply {
            ChatReply::NotSent(why) => openai_compat::reply_error(reply) == Some(
                GatewayErrorView::BackendRequestFailed(why@),
            ),
            ChatReply::Refused { status, body } => {
                &&& openai_compat::reply_error(reply) matches Some(
                    GatewayErrorView::BackendError { status: kept, body: text },
                )
                &&& kept == status
                &&& body matches Some(b) ==> text == b@
                &&& body is None ==> text == "<unreadable>"@
            },
            ChatReply::Unreadable(why) => openai_compat::reply_error(reply) == Some(
                GatewayErrorView::Internal("Failed to parse backend response: "@ + why@),
            ),
            ChatReply::Answered(_) => openai_compat::reply_error(reply) is None,
        },
{
}

/// What a failed request to an Anthropic backend comes to: a failure of the gateway that tells why it
/// was not sent, why it is no JSON, or the refusal. A success is no error.
pub proof fn law_anthropic_failures(reply: MessagesReply)
    ensures
        match reply {
            MessagesReply::NotSent(why) => anthropic_passthrough::reply_error(reply) == Some(
                GatewayErrorView::BackendError { status: 502, body: "request failed: "@ + why@ },
            ),
            MessagesReply::NotJson(why) => anthropic_passthrough::reply_error(reply) == Some(
                GatewayErrorView::BackendError { status: 502, body: "parse: "@ + why@ },
            ),
            MessagesReply::Answered { status, status_line, body } => if status / 100 == 2 {
                anthropic_passthrough::reply_error(reply) is None
            } else {
                anthropic_passthrough::reply_error(reply) == Some(
                    GatewayErrorView::BackendError {
                        status: 502,
                        body: status_line@ + ": "@ + json_text(body@),
                    },
                )
            },
        },
{
}

/// What the opening of a stream comes to. A refusal keeps its status and its body. An OpenAI
/// compatible backend has to open an event stream; what it opens else is an internal error.
pub proof fn law_stream_openings(reply: StreamReply)
    ensures
        match reply {
            StreamReply::NotSent(why) => {
                &&& openai_compat::stream_error(reply) == Some(
                    GatewayErrorView::BackendRequestFailed(why@),
                )
                &&& anthropic_passthrough::stream_error(reply) == Some(
                    GatewayErrorView::BackendError { status: 502, body: "request failed: "@ + why@ },
                )
            },
            StreamReply::Refused { status, body } => {
                &&& openai_compat::stream_error(reply) matches Some(
                    GatewayErrorView::BackendError { status: kept, body: text },
                )
                &&& kept == status
                &&& body matches Some(b) ==> text == b@
                &&& body is None ==> text == "<unreadable>"@
                &&& anthropic_passthrough::stream_error(reply) == openai_compat::stream_error(reply)
            },
            StreamReply::Opened { content_type } => {
                &&& anthropic_passthrough::stream_error(reply) is None
                &&& content_type is None ==> openai_compat::stream_error(reply) == Some(
                    GatewayErrorView::Internal("unexpected content-type: unknown"@),
                )
                &&& content_type matches Some(t) ==> (if has_prefix(t@, "text/event-stream"@) {
                    openai_compat::stream_error(reply) is None
                } else {
                    openai_compat::stream_error(reply) == Some(
                        GatewayErrorView::Internal("unexpected content-type: "@ + t@),
                    )
                })
            },
        },
{
    reveal_strlit("unexpected content-type: ");
    reveal_strlit("unknown");
    reveal_strlit("unexpected content-type: unknown");
    assert("unexpected content-type: "@ + "unknown"@ =~= "unexpected content-type: unknown"@);
}

/// The error in a body of a backend: its type, or its code where it has no type, and its message. A
/// body without an error object holds none.
pub proof fn law_error_in_body(body: JsonView, error: JsonView)
    ensures
        field(body, "error"@) == Some(error) && error is Object ==> {
            &&& error_of(body) matches Some(got)
            &&& str_field(error, "message"@) matches Some(text) ==> got.1 == text
            &&& str_field(error, "message"@) is None ==> got.1.len() == 0
            &&& str_field(error, "type"@) is None && str_field(error, "code"@) is None
                ==> got.0.len() == 0
            &&& str_field(error, "type"@) matches Some(kind) ==> got.0 == kind
            &&& str_field(error, "type"@) is None ==> (str_field(error, "code"@) matches Some(code)
                ==> got.0 == code)
        },
        field(body, "error"@) is None ==> error_of(body) is None,
        field(body, "error"@) == Some(error) && !(error is Object) ==> error_of(body) is None,
{
    lemma_words();
}

/// An answer of an Anthropic backend without an array of blocks has no content.
pub proof fn law_anthropic_answer_without_content(
    body: JsonView,
    model: Seq<char>,
    alias: Seq<char>,
)
    requires
        !(field(body, "content"@) matches Some(JsonView::Array(_))),
    ensures
        answer_of(body, model, alias).content.len() == 0,
        answer_of(body, model, alias).finish_reason == str_field(body, "stop_reason"@),
{
}

/// A choice of a chunk without tool calls keeps its text, its reason, and the identifier, the model
/// and the alias of its chunk. The chunks of choices come in order, where all of them are whole; a
/// choice without a delta is not.
pub proof fn law_choices_in_order(
    choices: Seq<JsonView>,
    choice: JsonView,
    id: Seq<char>,
    model: Seq<char>,
    alias: Seq<char>,
    text: Seq<char>,
)
    ensures
        choice_chunks(Seq::empty(), id, model, alias) == Some(Seq::<StreamChunkView>::empty()),
        field(choice, "delta"@) is None ==> choice_chunks(
            choices.push(choice),
            id,
            model,
            alias,
        ) is None,
        choice_chunks(choices, id, model, alias) is None ==> choice_chunks(
            choices.push(choice),
            id,
            model,
            alias,
        ) is None,
        choice_chunks(choices, id, model, alias) matches Some(front) && field(choice, "delta"@)
            is Some && field(field(choice, "delta"@)->0, "tool_calls"@) is None ==> {
            let delta = field(choice, "delta"@)->0;
            &&& choice_chunks(choices.push(choice), id, model, alias) matches Some(all)
            &&& all.len() == choice_chunks(choices, id, model, alias)->0.len() + 1
            &&& all.drop_last() == choice_chunks(choices, id, model, alias)->0
            &&& all.last().id == id
            &&& all.last().model == model
            &&& all.last().alias == alias
            &&& all.last().usage is None
            &&& all.last().finish_reason == str_field(choice, "finish_reason"@)
            &&& str_field(delta, "content"@) == Some(text) && text.len() > 0 ==> all.last().delta
                == Some(ContentBlockView::Text { text })
            &&& str_field_or(delta, "content"@, Seq::empty()).len() == 0 ==> all.last().delta
                is None
        },
{
    assert(choices.push(choice).drop_last() =~= choices);
    match (choice_chunks(choices, id, model, alias), choice_chunk(choice, id, model, alias)) {
        (Some(front), Some(chunk)) => {
            assert(front.push(chunk).drop_last() =~= front);
        },
        _ => {},
    }
}

/// A choice of a chunk with tool calls that all name a function is the last of them, with its
/// identifier, its name and its arguments; where one of them names none, it is not whole.
pub proof fn law_calls_of_choice(
    choice: JsonView,
    calls: Seq<JsonView>,
    call: JsonView,
    id: Seq<char>,
    model: Seq<char>,
    alias: Seq<char>,
)
    requires
        field(choice, "delta"@) is Some,
        field(field(choice, "delta"@)->0, "tool_calls"@) == Some(JsonView::Array(calls.push(call))),
        forall|k: int| 0 <= k < calls.len() ==> field(#[trigger] calls[k], "function"@) is Some,
    ensures
        field(call, "function"@) is None ==> choice_chunk(choice, id, model, alias) is None,
        field(call, "function"@) matches Some(function) ==> {
            &&& choice_chunk(choice, id, model, alias) matches Some(chunk)
            &&& chunk.finish_reason == str_field(choice, "finish_reason"@)
            &&& chunk.delta == Some(
                ContentBlockView::ToolCall {
                    id: str_field_or(call, "id"@, Seq::empty()),
                    function: FunctionCallView {
                        name: str_field_or(function, "name"@, Seq::empty()),
                        arguments: str_field_or(function, "arguments"@, Seq::empty()),
                    },
                },
            )
        },
{
    lemma_words();
    assert(""@ =~= Seq::<char>::empty());
    assert(calls.push(call).drop_last() =~= calls);
    let start = openai_compat::delta_text(field(choice, "delta"@)->0);
    lemma_calls_whole(calls, start);
}

/// Tool calls that all name a function are whole.
proof fn lemma_calls_whole(calls: Seq<JsonView>, start: Option<ContentBlockView>)
    requires
        forall|k: int| 0 <= k < calls.len() ==> field(#[trigger] calls[k], "function"@) is Some,
    ensures
        delta_calls(calls, start) is Some,
    decreases calls.len(),
{
    if calls.len() > 0 {
        let front = calls.drop_last();
        assert(field(calls[calls.len() - 1], "function"@) is Some);
        assert forall|k: int| 0 <= k < front.len() implies field(
            #[trigger] front[k],
            "function"@,
        ) is Some by {
            assert(front[k] == calls[k]);
        }
        lemma_calls_whole(front, start);
    }
}

/// A line of a stream of an OpenAI compatible backend holds the chunks of its choices, under its
/// identifier and its model; the end marker, an empty line and data that is no JSON hold none.
pub proof fn law_line_of_chunks(line: Seq<char>, data: Seq<char>, alias: Seq<char>)
    requires
        data == trimmed(without_leading(line, "data: "@)),
    ensures
        data == "[DONE]"@ ==> line_chunks(line, alias) is None,
        data.len() == 0 ==> line_chunks(line, alias) is None,
        json_parse(data) is None ==> line_chunks(line, alias) is None,
        data != "[DONE]"@ && data.len() > 0 ==> (json_parse(data) matches Some(event) ==> (
        match field(event, "choices"@) {
            Some(JsonView::Array(choices)) => line_chunks(line, alias) == choice_chunks(
                choices,
                str_field_or(event, "id"@, Seq::empty()),
                str_field_or(event, "model"@, Seq::empty()),
                alias,
            ),
            _ => line_chunks(line, alias) is None,
        })),
{
    lemma_words();
    assert(""@ =~= Seq::<char>::empty());
}

/// A model of the list is told by its alias.
pub proof fn law_listed_model(alias: Seq<char>, created: u64)
    ensures
        ({
            let v = model_item_json(model_item(alias, created));
            &&& str_field(v, "id"@) == Some(alias)
            &&& str_field(v, "object"@) == Some("model"@)
            &&& field(v, "created"@) == Some(JsonView::Number(NumberView::Int(created as int)))
            &&& str_field(v, "owned_by"@) == Some("mygate"@)
        }),
{
    lemma_words();
}

} // verus!
