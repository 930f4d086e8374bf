//! From the request of a client of either protocol to the body that a backend of either protocol
//! gets.

use vstd::prelude::*;

use crate::backend::anthropic_passthrough::anthropic_body;
use crate::backend::openai_compat::{openai_request, request_json};
use crate::gateway::types::{ContentBlockView, FunctionCallView, ImageUrlContentView, Role};
use crate::json::{field, str_field, str_field_or, JsonView, NumberView};
use crate::json_codec::json_text;
use crate::laws::requests::{
    law_anthropic_body, law_anthropic_tools_sent, law_openai_body, law_openai_tools_sent,
    law_tool_choice_words,
};
use crate::laws::words::lemma_words;
use crate::router::anthropic::{anthropic_internal, AnthropicMessagesRequestView};
use crate::router::openai::{
    first_prompt, lemma_first_prompt, openai_calls, openai_internal, openai_item, openai_items,
    openai_message, openai_messages, openai_system, prompt_text, OpenAIChatMessageView,
    OpenAIChatRequestView, StopFieldView,
};

verus! {

/// A number as a member, where there is one.
pub open spec fn number_member(n: Option<NumberView>) -> Option<JsonView> {
    match n {
        Some(x) => Some(JsonView::Number(x)),
        None => None,
    }
}

/// An integer as a number, where there is one.
pub open spec fn integer(n: Option<u64>) -> Option<NumberView> {
    match n {
        Some(x) => Some(NumberView::Int(x as int)),
        None => None,
    }
}

/// Whether a member holds texts, in order.
pub open spec fn holds_texts(v: Option<JsonView>, texts: Seq<Seq<char>>) -> bool {
    &&& v matches Some(JsonView::Array(items))
    &&& items.len() == texts.len()
    &&& forall|k: int| 0 <= k < texts.len() ==> #[trigger] items[k] == JsonView::Str(texts[k])
}

/// A tool definition of an Anthropic client reaches an Anthropic backend as it is: at the same
/// place, with the same name, the same description and the same schema. An OpenAI compatible backend
/// gets it as a function, with the schema as its parameters.
pub proof fn law_anthropic_tool_definitions(
    req: AnthropicMessagesRequestView,
    model: Seq<char>,
    i: int,
)
    requires
        req.tools matches Some(tools) && 0 <= i < tools.len(),
    ensures
        ({
            let tool = req.tools->0[i];
            let body = anthropic_body(anthropic_internal(req), model);
            &&& field(body, "tools"@) matches Some(JsonView::Array(sent))
            &&& sent.len() == req.tools->0.len()
            &&& str_field(sent[i], "name"@) == Some(tool.name)
            &&& str_field(sent[i], "description"@) == tool.description
            &&& tool.input_schema is Some ==> field(sent[i], "input_schema"@) == tool.input_schema
        }),
        ({
            let tool = req.tools->0[i];
            let body = request_json(openai_request(anthropic_internal(req), model));
            &&& field(body, "tools"@) matches Some(JsonView::Array(sent))
            &&& sent.len() == req.tools->0.len()
            &&& str_field(sent[i], "type"@) == Some("function"@)
            &&& field(sent[i], "function"@) matches Some(function)
            &&& str_field(function, "name"@) == Some(tool.name)
            &&& str_field(function, "description"@) == tool.description
            &&& field(function, "parameters"@) == tool.input_schema
        }),
{
    let internal = anthropic_internal(req);
    law_anthropic_tools_sent(internal, model, i);
    law_openai_tools_sent(internal, model, i);
}

/// A tool definition of an OpenAI client reaches an OpenAI compatible backend as it is, and an
/// Anthropic backend with the parameters as its schema.
pub proof fn law_openai_tool_definitions(req: OpenAIChatRequestView, model: Seq<char>, i: int)
    requires
        req.tools matches Some(tools) && 0 <= i < tools.len(),
    ensures
        ({
            let tool = req.tools->0[i].function;
            let body = request_json(openai_request(openai_internal(req), model));
            &&& field(body, "tools"@) matches Some(JsonView::Array(sent))
            &&& sent.len() == req.tools->0.len()
            &&& str_field(sent[i], "type"@) == Some("function"@)
            &&& field(sent[i], "function"@) matches Some(function)
            &&& str_field(function, "name"@) == Some(tool.name)
            &&& str_field(function, "description"@) == tool.description
            &&& field(function, "parameters"@) == tool.parameters
        }),
        ({
            let tool = req.tools->0[i].function;
            let body = anthropic_body(openai_internal(req), model);
            &&& field(body, "tools"@) matches Some(JsonView::Array(sent))
            &&& sent.len() == req.tools->0.len()
            &&& str_field(sent[i], "name"@) == Some(tool.name)
            &&& str_field(sent[i], "description"@) == tool.description
            &&& tool.parameters is Some ==> field(sent[i], "input_schema"@) == tool.parameters
        }),
{
    let internal = openai_internal(req);
    law_anthropic_tools_sent(internal, model, i);
    law_openai_tools_sent(internal, model, i);
}

/// What an Anthropic client says of how it wants to be answered reaches an Anthropic backend as it
/// is, and an OpenAI compatible one where that protocol can say it. The alias that it asks for is
/// the one that the request goes by.
pub proof fn law_anthropic_client_is_heard(req: AnthropicMessagesRequestView, model: Seq<char>)
    ensures
        anthropic_internal(req).model_alias == req.model,
        anthropic_internal(req).stream == req.stream,
        anthropic_internal(req).metadata == req.metadata,
        ({
            let body = anthropic_body(anthropic_internal(req), model);
            &&& str_field(body, "model"@) == Some(model)
            &&& req.max_tokens is Some ==> field(body, "max_tokens"@) == number_member(
                integer(req.max_tokens),
            )
            &&& field(body, "temperature"@) == number_member(req.temperature)
            &&& field(body, "top_p"@) == number_member(req.top_p)
            &&& field(body, "top_k"@) == (match req.top_k {
                Some(n) => Some(JsonView::Number(NumberView::Int(n as int))),
                None => None,
            })
            &&& req.stop_sequences is None ==> field(body, "stop_sequences"@) is None
            &&& req.stop_sequences matches Some(stop) ==> (stop.len() > 0 ==> holds_texts(
                field(body, "stop_sequences"@),
                stop,
            ))
        }),
        ({
            let body = request_json(openai_request(anthropic_internal(req), model));
            &&& str_field(body, "model"@) == Some(model)
            &&& field(body, "max_tokens"@) == number_member(integer(req.max_tokens))
            &&& field(body, "temperature"@) == number_member(req.temperature)
            &&& field(body, "top_p"@) == number_member(req.top_p)
            &&& field(body, "stream"@) == (if req.stream {
                Some(JsonView::Bool(true))
            } else {
                None
            })
            &&& field(body, "n"@) is None
            &&& field(body, "seed"@) is None
            &&& field(body, "user"@) is None
            &&& field(body, "response_format"@) is None
            &&& field(body, "frequency_penalty"@) is None
            &&& field(body, "presence_penalty"@) is None
            &&& req.stop_sequences is None ==> field(body, "stop"@) is None
            &&& req.stop_sequences matches Some(stop) ==> holds_texts(field(body, "stop"@), stop)
        }),
{
    let internal = anthropic_internal(req);
    law_anthropic_body(internal, model);
    law_openai_body(internal, model);
}

/// What an OpenAI client says of how it wants to be answered reaches an OpenAI compatible backend as
/// it is, and an Anthropic one where that protocol can say it. The alias that it asks for is the one
/// that the request goes by.
pub proof fn law_openai_client_is_heard(req: OpenAIChatRequestView, model: Seq<char>)
    ensures
        openai_internal(req).model_alias == req.model,
        openai_internal(req).stream == req.stream,
        openai_internal(req).metadata is None,
        ({
            let body = request_json(openai_request(openai_internal(req), model));
            &&& str_field(body, "model"@) == Some(model)
            &&& field(body, "max_tokens"@) == number_member(integer(req.max_tokens))
            &&& field(body, "temperature"@) == number_member(req.temperature)
            &&& field(body, "top_p"@) == number_member(req.top_p)
            &&& field(body, "frequency_penalty"@) == number_member(req.frequency_penalty)
            &&& field(body, "presence_penalty"@) == number_member(req.presence_penalty)
            &&& field(body, "seed"@) == number_member(integer(req.seed))
            &&& field(body, "n"@) == (match req.n {
                Some(n) => Some(JsonView::Number(NumberView::Int(n as int))),
                None => None,
            })
            &&& field(body, "user"@) == (match req.user {
                Some(s) => Some(JsonView::Str(s)),
                None => None,
            })
            &&& field(body, "stream"@) == (if req.stream {
                Some(JsonView::Bool(true))
            } else {
                None
            })
            &&& req.stop is None ==> field(body, "stop"@) is None
            &&& req.stop matches Some(StopFieldView::Single(s)) ==> holds_texts(
                field(body, "stop"@),
                seq![s],
            )
            &&& req.stop matches Some(StopFieldView::Array(stop)) ==> holds_texts(
                field(body, "stop"@),
                stop,
            )
            &&& req.stream_options is None ==> field(body, "stream_options"@) is None
            &&& req.stream_options matches Some(options) ==> {
                &&& field(body, "stream_options"@) matches Some(sent)
                &&& field(sent, "include_usage"@) == Some(
                    JsonView::Bool(
                        match options.include_usage {
                            Some(b) => b,
                            None => false,
                        },
                    ),
                )
            }
        }),
        ({
            let body = anthropic_body(openai_internal(req), model);
            &&& str_field(body, "model"@) == Some(model)
            &&& req.max_tokens is Some ==> field(body, "max_tokens"@) == number_member(
                integer(req.max_tokens),
            )
            &&& field(body, "temperature"@) == number_member(req.temperature)
            &&& field(body, "top_p"@) == number_member(req.top_p)
            &&& field(body, "top_k"@) is None
            &&& req.stop is None ==> field(body, "stop_sequences"@) is None
            &&& req.stop matches Some(StopFieldView::Single(s)) ==> holds_texts(
                field(body, "stop_sequences"@),
                seq![s],
            )
            &&& req.stop matches Some(StopFieldView::Array(stop)) ==> (stop.len() > 0
                ==> holds_texts(field(body, "stop_sequences"@), stop))
        }),
{
    let internal = openai_internal(req);
    law_anthropic_body(internal, model);
    law_openai_body(internal, model);
}

/// A response format of an OpenAI client is known by its type, and reaches an OpenAI compatible
/// backend under that type.
pub proof fn law_openai_format_is_heard(
    req: OpenAIChatRequestView,
    model: Seq<char>,
    format: JsonView,
)
    requires
        req.response_format == Some(format),
    ensures
        ({
            let body = request_json(openai_request(openai_internal(req), model));
            let sent = field(body, "response_format"@);
            let kind = str_field(format, "type"@);
            &&& kind == Some("text"@) || kind == Some("json_object"@) ==> sent is Some && str_field(
                sent->0,
                "type"@,
            ) == kind
            &&& kind != Some("text"@) && kind != Some("json_object"@) ==> sent is None
        }),
{
    lemma_words();
    law_openai_body(openai_internal(req), model);
}

/// The tool choice of an Anthropic client, known by its type, means the same to backends of both
/// protocols: what the model decides, no tool, any tool, or the one of a name.
pub proof fn law_anthropic_tool_choice_is_heard(
    req: AnthropicMessagesRequestView,
    model: Seq<char>,
    choice: JsonView,
)
    requires
        req.tool_choice == Some(choice),
    ensures
        ({
            let internal = anthropic_internal(req);
            let anthropic = field(anthropic_body(internal, model), "tool_choice"@);
            let openai = field(request_json(openai_request(internal, model)), "tool_choice"@);
            let kind = str_field(choice, "type"@);
            &&& kind == Some("auto"@) || kind == Some("none"@) || kind == Some("any"@) ==> anthropic
                is Some && str_field(anthropic->0, "type"@) == kind
            &&& kind == Some("auto"@) ==> openai == Some(JsonView::Str("auto"@))
            &&& kind == Some("none"@) ==> openai == Some(JsonView::Str("none"@))
            &&& kind == Some("any"@) ==> openai == Some(JsonView::Str("required"@))
            &&& kind == Some("tool"@) && str_field(choice, "name"@) is Some ==> {
                &&& anthropic is Some && str_field(anthropic->0, "type"@) == Some("tool"@)
                &&& str_field(anthropic->0, "name"@) == str_field(choice, "name"@)
                &&& openai is Some && str_field(openai->0, "type"@) == Some("function"@)
                &&& field(openai->0, "function"@) matches Some(function)
                &&& str_field(function, "name"@) == str_field(choice, "name"@)
            }
            &&& kind is None ==> anthropic is None && openai is None
        }),
{
    lemma_words();
    law_tool_choice_words(anthropic_internal(req), model);
}

/// The tool choice of an OpenAI client means the same to backends of both protocols: what the model
/// decides, no tool, any tool, or the function of a name.
pub proof fn law_openai_tool_choice_is_heard(
    req: OpenAIChatRequestView,
    model: Seq<char>,
    choice: JsonView,
)
    requires
        req.tool_choice == Some(choice),
    ensures
        ({
            let internal = openai_internal(req);
            let anthropic = field(anthropic_body(internal, model), "tool_choice"@);
            let openai = field(request_json(openai_request(internal, model)), "tool_choice"@);
            let auto = JsonView::Str("auto"@);
            let none = JsonView::Str("none"@);
            let required = JsonView::Str("required"@);
            &&& choice == auto || choice == none || choice == required ==> openai == Some(choice)
            &&& choice == auto ==> anthropic is Some && str_field(anthropic->0, "type"@) == Some(
                "auto"@,
            )
            &&& choice == none ==> anthropic is Some && str_field(anthropic->0, "type"@) == Some(
                "none"@,
            )
            &&& choice == required ==> anthropic is Some && str_field(anthropic->0, "type"@)
                == Some("any"@)
            &&& choice is Str && choice != auto && choice != none && choice != required ==> openai
                is None && anthropic is None
            &&& str_field(choice, "type"@) == Some("function"@) && field(choice, "function"@)
                is Some && str_field(field(choice, "function"@)->0, "name"@) is Some ==> {
                let name = str_field(field(choice, "function"@)->0, "name"@);
                &&& anthropic is Some && str_field(anthropic->0, "type"@) == Some("tool"@)
                &&& str_field(anthropic->0, "name"@) == name
                &&& openai is Some && str_field(openai->0, "type"@) == Some("function"@)
                &&& field(openai->0, "function"@) matches Some(function)
                &&& str_field(function, "name"@) == name
            }
        }),
{
    lemma_words();
    law_tool_choice_words(openai_internal(req), model);
}

/// The tool calls of a message of an OpenAI client are taken one after the other, each with its
/// identifier, its name and its arguments; one that names no function is left out.
pub proof fn law_openai_calls_in_order(
    first: Seq<JsonView>,
    second: Seq<JsonView>,
    call: JsonView,
)
    ensures
        openai_calls(Seq::empty()).len() == 0,
        openai_calls(first + second) == openai_calls(first) + openai_calls(second),
        field(call, "function"@) is None ==> openai_calls(seq![call]).len() == 0,
        field(call, "function"@) matches Some(function) ==> openai_calls(seq![call]) == seq![
            ContentBlockView::ToolCall {
                id: str_field_or(call, "id"@, Seq::empty()),
                function: FunctionCallView {
                    name: str_field_or(function, "name"@, Seq::empty()),
                    arguments: str_field_or(function, "arguments"@, Seq::empty()),
                },
            },
        ],
    decreases second.len(),
{
    lemma_words();
    assert(""@ =~= Seq::<char>::empty());
    reveal_with_fuel(openai_calls, 2);
    assert(seq![call].drop_last() =~= Seq::<JsonView>::empty());
    match field(call, "function"@) {
        Some(function) => {
            let block = ContentBlockView::ToolCall {
                id: str_field_or(call, "id"@, ""@),
                function: FunctionCallView {
                    name: str_field_or(function, "name"@, ""@),
                    arguments: str_field_or(function, "arguments"@, ""@),
                },
            };
            assert(Seq::<ContentBlockView>::empty().push(block) =~= seq![block]);
        },
        None => {},
    }
    if second.len() == 0 {
        assert(first + second =~= first);
        assert(openai_calls(first) + Seq::<ContentBlockView>::empty() =~= openai_calls(first));
    } else {
        let whole = first + second;
        assert(whole.drop_last() =~= first + second.drop_last());
        assert(whole.last() == second.last());
        law_openai_calls_in_order(first, second.drop_last(), call);
        assert(openai_calls(whole) =~= openai_calls(first) + openai_calls(second));
    }
}

/// The items of a content of an OpenAI client are taken one after the other: text as text, an image
/// by its URL; what is of another kind or not whole is left out.
pub proof fn law_openai_items_in_order(
    first: Seq<JsonView>,
    second: Seq<JsonView>,
    item: JsonView,
)
    ensures
        openai_items(Seq::empty()).len() == 0,
        openai_items(first + second) == openai_items(first) + openai_items(second),
        str_field(item, "type"@) == Some("text"@) ==> (match str_field(item, "text"@) {
            Some(text) => openai_items(seq![item]) == seq![ContentBlockView::Text { text }],
            None => openai_items(seq![item]).len() == 0,
        }),
        str_field(item, "type"@) == Some("image_url"@) && field(item, "image_url"@) is Some
            && str_field(field(item, "image_url"@)->0, "url"@) is Some ==> openai_items(seq![item])
            == seq![
            ContentBlockView::ImageUrl {
                image_url: ImageUrlContentView {
                    url: str_field(field(item, "image_url"@)->0, "url"@)->0,
                    detail: None,
                },
            },
        ],
        str_field(item, "type"@) != Some("text"@) && str_field(item, "type"@) != Some("image_url"@)
            ==> openai_items(seq![item]).len() == 0,
    decreases second.len(),
{
    lemma_words();
    reveal_with_fuel(openai_items, 2);
    assert(seq![item].drop_last() =~= Seq::<JsonView>::empty());
    match openai_item(item) {
        Some(block) => {
            assert(Seq::<ContentBlockView>::empty().push(block) =~= seq![block]);
        },
        None => {},
    }
    if second.len() == 0 {
        assert(first + second =~= first);
        assert(openai_items(first) + Seq::<ContentBlockView>::empty() =~= openai_items(first));
    } else {
        let whole = first + second;
        assert(whole.drop_last() =~= first + second.drop_last());
        assert(whole.last() == second.last());
        law_openai_items_in_order(first, second.drop_last(), item);
        assert(openai_items(whole) =~= openai_items(first) + openai_items(second));
    }
}

/// A message of an OpenAI client: its tool calls come first, then its content. The content is the
/// result of a tool where the message names a call; else a string that is not empty is text, an
/// array its items, and anything else nothing.
pub proof fn law_openai_message(m: OpenAIChatMessageView)
    ensures
        ({
            let calls = match m.tool_calls {
                Some(calls) => openai_calls(calls),
                None => Seq::empty(),
            };
            let got = openai_message(m).content;
            let rest = got.skip(calls.len() as int);
            &&& got.len() >= calls.len()
            &&& got.take(calls.len() as int) == calls
            &&& match (m.tool_call_id, m.content) {
                (Some(id), JsonView::Str(s)) => rest == seq![
                    ContentBlockView::ToolResult { tool_use_id: id, content: s },
                ],
                (Some(id), other) => rest == seq![
                    ContentBlockView::ToolResult { tool_use_id: id, content: json_text(other) },
                ],
                (None, JsonView::Str(s)) => if s.len() == 0 {
                    rest.len() == 0
                } else {
                    rest == seq![ContentBlockView::Text { text: s }]
                },
                (None, JsonView::Array(items)) => rest == openai_items(items),
                _ => rest.len() == 0,
            }
        }),
        m.role == "assistant"@ ==> openai_message(m).role == Role::Assistant,
        m.role == "tool"@ ==> openai_message(m).role == Role::Tool,
        m.role != "assistant"@ && m.role != "tool"@ ==> openai_message(m).role == Role::User,
{
    lemma_words();
    let calls = match m.tool_calls {
        Some(calls) => openai_calls(calls),
        None => Seq::empty(),
    };
    let got = openai_message(m).content;
    let bare = openai_message(OpenAIChatMessageView { tool_calls: None, ..m }).content;
    assert(got.take(calls.len() as int) =~= calls);
    assert(got.skip(calls.len() as int) =~= bare.skip(0));
    assert(bare.skip(0) =~= bare);
    assert(Seq::<ContentBlockView>::empty() + crate::router::openai::openai_body(m)
        =~= crate::router::openai::openai_body(m));
}

/// The first message of an OpenAI client under the role `system` whose content is a string that is
/// not empty is the system prompt. The other messages stay, in order.
pub proof fn law_openai_prompt(ms: Seq<OpenAIChatMessageView>, k: int, s: Seq<char>, j: int)
    requires
        0 <= k < ms.len(),
        ms[k].role == "system"@,
        ms[k].content == JsonView::Str(s),
        s.len() > 0,
        forall|i: int|
            0 <= i < k ==> (#[trigger] ms[i]).role != "system"@ || !(ms[i].content is Str)
                || ms[i].content == JsonView::Str(Seq::empty()),
    ensures
        openai_system(ms) == Some(s),
        openai_messages(ms).len() == ms.len() - 1,
        0 <= j < k ==> openai_messages(ms)[j] == openai_message(ms[j]),
        k <= j < ms.len() - 1 ==> openai_messages(ms)[j] == openai_message(ms[j + 1]),
{
    lemma_first_prompt(ms);
    assert(prompt_text(ms[k]) == Some(s));
    assert forall|i: int| 0 <= i < k implies prompt_text(#[trigger] ms[i]) is None by {
        if ms[i].content is Str && ms[i].role == "system"@ {
            assert(ms[i].content == JsonView::Str(Seq::empty()));
        }
    }
    match first_prompt(ms) {
        Some(i) => {
            if i < k {
                assert(prompt_text(ms[i]) is None);
            }
            if k < i {
                assert(prompt_text(ms[k]) is None);
            }
        },
        None => {
            assert(prompt_text(ms[k]) is None);
        },
    }
}

/// An OpenAI client without a message that can be the system prompt has none, and all of its
/// messages stay.
pub proof fn law_openai_no_prompt(ms: Seq<OpenAIChatMessageView>, j: int)
    requires
        forall|i: int|
            0 <= i < ms.len() ==> (#[trigger] ms[i]).role != "system"@ || !(ms[i].content is Str)
                || ms[i].content == JsonView::Str(Seq::empty()),
    ensures
        openai_system(ms) is None,
        openai_messages(ms).len() == ms.len(),
        0 <= j < ms.len() ==> openai_messages(ms)[j] == openai_message(ms[j]),
{
    lemma_first_prompt(ms);
    match first_prompt(ms) {
        Some(i) => {
            if ms[i].content is Str && ms[i].role == "system"@ {
                assert(ms[i].content == JsonView::Str(Seq::empty()));
            }
        },
        None => {},
    }
}

/// The system prompt and the messages of a request of either client are those of its messages.
pub proof fn law_requests_hold_messages(
    chat: OpenAIChatRequestView,
    req: AnthropicMessagesRequestView,
)
    ensures
        openai_internal(chat).system == openai_system(chat.messages),
        openai_internal(chat).messages == openai_messages(chat.messages),
        anthropic_internal(req).system == crate::router::anthropic::system_prompt(req.system),
        anthropic_internal(req).messages == crate::router::anthropic::anthropic_messages(
            req.messages,
        ),
{
}

} // verus!
