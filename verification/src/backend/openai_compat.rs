//! OpenAI compatible backends.

use vstd::prelude::*;

use crate::backend::{body_or_unreadable, body_text, BackendAdapter, StreamReply};
use crate::config::ProviderConfig;
use crate::error::{GatewayError, GatewayErrorView};
use crate::gateway::types::{
    ContentBlock, ContentBlockView, FunctionCall, FunctionCallView, InternalMessage,
    InternalMessageView, InternalRequest, InternalRequestView, InternalResponse,
    InternalResponseView, InternalTool, InternalToolView, ResponseFormat, Role, StreamChunk,
    StreamChunkView, ToolChoice, ToolChoiceView, Usage,
};
use crate::json::{
    copy_number, field, opt_number_json, put_some, str_field, str_field_or, strings, Json, JsonNumber,
    JsonView, NumberView,
};
use crate::json_codec::{json_parse, parse_json};
use crate::text::{
    concat2, copy_text, copy_texts, has_prefix, same_text, starts_with, strip_leading,
    strip_trailing, trim, trimmed, without_leading, without_trailing,
};

verus! {

/// A request to a backend.
#[derive(Debug, PartialEq)]
pub struct OpenAIRequest {
    pub model: String,
    pub messages: Vec<OpenAIMessage>,
    pub stream: Option<bool>,
    pub temperature: Option<JsonNumber>,
    pub max_tokens: Option<u64>,
    pub tools: Option<Vec<OpenAITool>>,
    pub tool_choice: Option<Json>,
    pub response_format: Option<Json>,
    pub top_p: Option<JsonNumber>,
    pub frequency_penalty: Option<JsonNumber>,
    pub presence_penalty: Option<JsonNumber>,
    pub seed: Option<u64>,
    pub n: Option<u32>,
    pub stop: Option<Vec<String>>,
    pub stream_options: Option<Json>,
    pub user: Option<String>,
}

/// The model of a request to a backend.
pub struct OpenAIRequestView {
    pub model: Seq<char>,
    pub messages: Seq<OpenAIMessageView>,
    pub stream: Option<bool>,
    pub temperature: Option<NumberView>,
    pub max_tokens: Option<u64>,
    pub tools: Option<Seq<OpenAIToolView>>,
    pub tool_choice: Option<JsonView>,
    pub response_format: Option<JsonView>,
    pub top_p: Option<NumberView>,
    pub frequency_penalty: Option<NumberView>,
    pub presence_penalty: Option<NumberView>,
    pub seed: Option<u64>,
    pub n: Option<u32>,
    pub stop: Option<Seq<Seq<char>>>,
    pub stream_options: Option<JsonView>,
    pub user: Option<Seq<char>>,
}

impl DeepView for OpenAIRequest {
    type V = OpenAIRequestView;

    open spec fn deep_view(&self) -> OpenAIRequestView {
        OpenAIRequestView {
            model: self.model@,
            messages: self.messages.deep_view(),
            stream: self.stream,
            temperature: self.temperature.deep_view(),
            max_tokens: self.max_tokens,
            tools: self.tools.deep_view(),
            tool_choice: self.tool_choice.deep_view(),
            response_format: self.response_format.deep_view(),
            top_p: self.top_p.deep_view(),
            frequency_penalty: self.frequency_penalty.deep_view(),
            presence_penalty: self.presence_penalty.deep_view(),
            seed: self.seed,
            n: self.n,
            stop: self.stop.deep_view(),
            stream_options: self.stream_options.deep_view(),
            user: self.user.deep_view(),
        }
    }
}

/// A message of a request.
#[derive(Debug, PartialEq)]
pub struct OpenAIMessage {
    pub role: String,
    pub content: Json,
    pub tool_call_id: Option<String>,
    pub tool_calls: Option<Vec<OpenAIToolCall>>,
}

/// The model of a request's message.
pub struct OpenAIMessageView {
    pub role: Seq<char>,
    pub content: JsonView,
    pub tool_call_id: Option<Seq<char>>,
    pub tool_calls: Option<Seq<OpenAIToolCallView>>,
}

impl DeepView for OpenAIMessage {
    type V = OpenAIMessageView;

    open spec fn deep_view(&self) -> OpenAIMessageView {
        OpenAIMessageView {
            role: self.role@,
            content: self.content@,
            tool_call_id: self.tool_call_id.deep_view(),
            tool_calls: self.tool_calls.deep_view(),
        }
    }
}

/// A tool of a request.
#[derive(Debug, PartialEq)]
pub struct OpenAITool {
    pub kind: String,
    pub function: OpenAIToolFunction,
}

/// The model of a tool.
pub struct OpenAIToolView {
    pub kind: Seq<char>,
    pub function: InternalToolView,
}

impl DeepView for OpenAITool {
    type V = OpenAIToolView;

    open spec fn deep_view(&self) -> OpenAIToolView {
        OpenAIToolView {
            kind: self.kind@,
            function: InternalToolView {
                name: self.function.name@,
                description: self.function.description.deep_view(),
                parameters: self.function.parameters.deep_view(),
            },
        }
    }
}

/// The function of a tool.
#[derive(Debug, PartialEq)]
pub struct OpenAIToolFunction {
    pub name: String,
    pub description: Option<String>,
    pub parameters: Option<Json>,
}

/// A tool call of a message.
#[derive(Debug, PartialEq)]
pub struct OpenAIToolCall {
    pub id: String,
    pub kind: String,
    pub function: OpenAIToolFunctionCall,
}

/// The model of a tool call.
pub struct OpenAIToolCallView {
    pub id: Seq<char>,
    pub kind: Seq<char>,
    pub function: FunctionCallView,
}

impl DeepView for OpenAIToolCall {
    type V = OpenAIToolCallView;

    open spec fn deep_view(&self) -> OpenAIToolCallView {
        OpenAIToolCallView {
            id: self.id@,
            kind: self.kind@,
            function: FunctionCallView {
                name: self.function.name@,
                arguments: self.function.arguments@,
            },
        }
    }
}

/// The function of a tool call.
#[derive(Debug, PartialEq)]
pub struct OpenAIToolFunctionCall {
    pub name: String,
    pub arguments: String,
}

/// The tool choice in the backend's form.
pub open spec fn choice_json(choice: ToolChoiceView) -> JsonView {
    match choice {
        ToolChoiceView::Auto => JsonView::Str("auto"@),
        ToolChoiceView::NoTool => JsonView::Str("none"@),
        ToolChoiceView::Any => JsonView::Str("required"@),
        ToolChoiceView::Specific(name) => JsonView::Object(
            map![
                "type"@ => JsonView::Str("function"@),
                "function"@ => JsonView::Object(map!["name"@ => JsonView::Str(name)]),
            ],
        ),
    }
}

/// The response format in the backend's form.
pub open spec fn format_json(format: ResponseFormat) -> JsonView {
    match format {
        ResponseFormat::Text => JsonView::Object(map!["type"@ => JsonView::Str("text"@)]),
        ResponseFormat::JsonObject => JsonView::Object(
            map!["type"@ => JsonView::Str("json_object"@)],
        ),
    }
}

/// The name of a role.
pub open spec fn role_name(role: Role) -> Seq<char> {
    match role {
        Role::System => "system"@,
        Role::User => "user"@,
        Role::Assistant => "assistant"@,
        Role::Tool => "tool"@,
    }
}

/// The content that a block is sent as, where it is one that is sent as content.
pub open spec fn block_content(block: ContentBlockView) -> Option<JsonView> {
    match block {
        ContentBlockView::Text { text } => Some(JsonView::Str(text)),
        ContentBlockView::ImageUrl { image_url } => Some(
            JsonView::Array(
                seq![
                    JsonView::Object(
                        map![
                            "type"@ => JsonView::Str("image_url"@),
                            "image_url"@ => JsonView::Object(
                                map!["url"@ => JsonView::Str(image_url.url)],
                            ),
                        ],
                    ),
                ],
            ),
        ),
        ContentBlockView::Document { .. } => Some(
            JsonView::Str("[document: OpenAI protocol does not support document blocks]"@),
        ),
        _ => None,
    }
}

/// The content of a message: that of the last block that is sent as content, or null.
pub open spec fn sent_content(blocks: Seq<ContentBlockView>) -> JsonView
    decreases blocks.len(),
{
    if blocks.len() == 0 {
        JsonView::Null
    } else {
        match block_content(blocks.last()) {
            Some(content) => content,
            None => sent_content(blocks.drop_last()),
        }
    }
}

/// The tool calls of a message, in order.
pub open spec fn sent_calls(blocks: Seq<ContentBlockView>) -> Seq<OpenAIToolCallView>
    decreases blocks.len(),
{
    if blocks.len() == 0 {
        Seq::empty()
    } else {
        let front = sent_calls(blocks.drop_last());
        match blocks.last() {
            ContentBlockView::ToolCall { id, function } => front.push(
                OpenAIToolCallView { id, kind: "function"@, function },
            ),
            _ => front,
        }
    }
}

/// The message that the result of a tool is sent as.
pub open spec fn result_message(tool_use_id: Seq<char>, content: Seq<char>) -> OpenAIMessageView {
    OpenAIMessageView {
        role: "tool"@,
        content: JsonView::Str(content),
        tool_call_id: Some(tool_use_id),
        tool_calls: None,
    }
}

/// The messages that the tool results of a message are sent as, one for each.
pub open spec fn sent_results(blocks: Seq<ContentBlockView>) -> Seq<OpenAIMessageView>
    decreases blocks.len(),
{
    if blocks.len() == 0 {
        Seq::empty()
    } else {
        let front = sent_results(blocks.drop_last());
        match blocks.last() {
            ContentBlockView::ToolResult { tool_use_id, content } => front.push(
                result_message(tool_use_id, content),
            ),
            _ => front,
        }
    }
}

/// The message that a message is sent as, apart from its tool results.
pub open spec fn main_message(m: InternalMessageView) -> OpenAIMessageView {
    let calls = sent_calls(m.content);
    OpenAIMessageView {
        role: role_name(m.role),
        content: sent_content(m.content),
        tool_call_id: None,
        tool_calls: if calls.len() > 0 {
            Some(calls)
        } else {
            None
        },
    }
}

/// The messages that a message is sent as. Its tool results follow it, and it is left out where
/// it has nothing but them.
pub open spec fn sent_message(m: InternalMessageView) -> Seq<OpenAIMessageView> {
    let results = sent_results(m.content);
    if results.len() > 0 && sent_content(m.content) is Null {
        results
    } else {
        seq![main_message(m)] + results
    }
}

/// The messages that the messages are sent as, in order.
pub open spec fn sent_messages(ms: Seq<InternalMessageView>) -> Seq<OpenAIMessageView>
    decreases ms.len(),
{
    if ms.len() == 0 {
        Seq::empty()
    } else {
        sent_messages(ms.drop_last()) + sent_message(ms.last())
    }
}

/// The message that the system prompt is sent as, where there is one.
pub open spec fn system_message(system: Option<Seq<char>>) -> Seq<OpenAIMessageView> {
    match system {
        Some(s) => if s.len() > 0 {
            seq![
                OpenAIMessageView {
                    role: "system"@,
                    content: JsonView::Str(s),
                    tool_call_id: None,
                    tool_calls: None,
                },
            ]
        } else {
            Seq::empty()
        },
        None => Seq::empty(),
    }
}

/// A tool in the backend's form.
pub open spec fn sent_tool(t: InternalToolView) -> OpenAIToolView {
    OpenAIToolView { kind: "function"@, function: t }
}

/// A request in the backend's form, for one of its models.
pub open spec fn openai_request(req: InternalRequestView, model: Seq<char>) -> OpenAIRequestView {
    OpenAIRequestView {
        model,
        messages: system_message(req.system) + sent_messages(req.messages),
        stream: if req.stream {
            Some(true)
        } else {
            None
        },
        temperature: req.temperature,
        max_tokens: req.max_tokens,
        tools: match req.tools {
            Some(tools) => Some(tools.map_values(|t: InternalToolView| sent_tool(t))),
            None => None,
        },
        tool_choice: match req.tool_choice {
            Some(choice) => Some(choice_json(choice)),
            None => None,
        },
        response_format: match req.response_format {
            Some(format) => Some(format_json(format)),
            None => None,
        },
        top_p: req.top_p,
        frequency_penalty: req.frequency_penalty,
        presence_penalty: req.presence_penalty,
        seed: req.seed,
        n: req.n,
        stop: req.stop,
        stream_options: match req.stream_options {
            Some(o) => Some(
                JsonView::Object(map!["include_usage"@ => JsonView::Bool(o.include_usage)]),
            ),
            None => None,
        },
        user: req.user,
    }
}

/// The tool choice in the backend's form.
fn tool_choice_json(choice: &ToolChoice) -> (r: Json)
    ensures
        r@ == choice_json(choice.deep_view()),
{
    match choice {
        ToolChoice::Auto => Json::text("auto"),
        ToolChoice::NoTool => Json::text("none"),
        ToolChoice::Any => Json::text("required"),
        ToolChoice::Specific(name) => Json::object().with("type", Json::text("function")).with(
            "function",
            Json::object().with("name", Json::text(name.as_str())),
        ),
    }
}

/// The response format in the backend's form.
fn response_format_json(format: ResponseFormat) -> (r: Json)
    ensures
        r@ == format_json(format),
{
    match format {
        ResponseFormat::Text => Json::object().with("type", Json::text("text")),
        ResponseFormat::JsonObject => Json::object().with("type", Json::text("json_object")),
    }
}

/// The name of a role.
fn role_text(role: Role) -> (r: &'static str)
    ensures
        r@ == role_name(role),
{
    match role {
        Role::System => "system",
        Role::User => "user",
        Role::Assistant => "assistant",
        Role::Tool => "tool",
    }
}

/// The content that a block is sent as, where it is one that is sent as content.
fn content_json(block: &ContentBlock) -> (r: Option<Json>)
    ensures
        r.deep_view() == block_content(block.deep_view()),
{
    match block {
        ContentBlock::Text { text } => Some(Json::text(text.as_str())),
        ContentBlock::ImageUrl { image_url } => {
            let item = Json::object().with("type", Json::text("image_url")).with(
                "image_url",
                Json::object().with("url", Json::text(image_url.url.as_str())),
            );
            let ghost view = item@;
            let items = vec![item];
            assert(items.deep_view() =~= seq![view]);
            Some(Json::array(items))
        },
        ContentBlock::Document { .. } => Some(
            Json::text("[document: OpenAI protocol does not support document blocks]"),
        ),
        _ => None,
    }
}

/// The messages that a message is sent as.
fn send_message(m: &InternalMessage) -> (r: Vec<OpenAIMessage>)
    ensures
        r.deep_view() == sent_message(m.deep_view()),
{
    let ghost all = m.content.deep_view();
    let mut content = Json::Null;
    let mut calls: Vec<OpenAIToolCall> = Vec::new();
    let mut results: Vec<OpenAIMessage> = Vec::new();
    let mut i: usize = 0;
    assert(calls.deep_view() =~= sent_calls(all.take(0)));
    assert(results.deep_view() =~= sent_results(all.take(0)));
    while i < m.content.len()
        invariant
            i <= m.content.len(),
            all == m.content.deep_view(),
            content@ == sent_content(all.take(i as int)),
            calls.deep_view() == sent_calls(all.take(i as int)),
            results.deep_view() == sent_results(all.take(i as int)),
        decreases m.content.len() - i,
    {
        let ghost calls_before = calls.deep_view();
        let ghost results_before = results.deep_view();
        let block = &m.content[i];
        proof {
            assert(all.take(i + 1).drop_last() =~= all.take(i as int));
            assert(all.take(i + 1).last() == block.deep_view());
        }
        match content_json(block) {
            Some(c) => {
                content = c;
            },
            None => {},
        }
        match block {
            ContentBlock::ToolCall { id, function } => {
                let call = OpenAIToolCall {
                    id: id.clone(),
                    kind: "function".to_owned(),
                    function: OpenAIToolFunctionCall {
                        name: function.name.clone(),
                        arguments: function.arguments.clone(),
                    },
                };
                calls.push(call);
                assert(calls.deep_view() =~= calls_before.push(call.deep_view()));
            },
            ContentBlock::ToolResult { tool_use_id, content } => {
                let result = OpenAIMessage {
                    role: "tool".to_owned(),
                    content: Json::text(content.as_str()),
                    tool_call_id: Some(tool_use_id.clone()),
                    tool_calls: None,
                };
                results.push(result);
                assert(results.deep_view() =~= results_before.push(result.deep_view()));
            },
            _ => {},
        }
        i += 1;
    }
    assert(all.take(i as int) =~= all);
    let bare = match content {
        Json::Null => true,
        _ => false,
    };
    if results.len() > 0 && bare {
        return results;
    }
    let ghost call_views = calls.deep_view();
    let ghost result_views = results.deep_view();
    let tool_calls = if calls.len() > 0 {
        Some(calls)
    } else {
        None
    };
    let main = OpenAIMessage {
        role: role_text(m.role).to_owned(),
        content,
        tool_call_id: None,
        tool_calls,
    };
    let ghost main_view = main.deep_view();
    let mut out = vec![main];
    out.append(&mut results);
    assert(out.deep_view() =~= seq![main_view] + result_views);
    out
}

/// The messages of a request: the system prompt first.
fn send_messages(req: &InternalRequest) -> (r: Vec<OpenAIMessage>)
    ensures
        r.deep_view() == system_message(req.system.deep_view()) + sent_messages(
            req.messages.deep_view(),
        ),
{
    let ghost all = req.messages.deep_view();
    let mut out: Vec<OpenAIMessage> = Vec::new();
    match &req.system {
        Some(s) => {
            if s.as_str().unicode_len() > 0 {
                out.push(
                    OpenAIMessage {
                        role: "system".to_owned(),
                        content: Json::text(s.as_str()),
                        tool_call_id: None,
                        tool_calls: None,
                    },
                );
            }
        },
        None => {},
    }
    let ghost head = system_message(req.system.deep_view());
    assert(out.deep_view() =~= head);
    let mut i: usize = 0;
    assert(head + sent_messages(all.take(0)) =~= head);
    while i < req.messages.len()
        invariant
            i <= req.messages.len(),
            all == req.messages.deep_view(),
            out.deep_view() == head + sent_messages(all.take(i as int)),
        decreases req.messages.len() - i,
    {
        let ghost before = out.deep_view();
        proof {
            assert(all.take(i + 1).drop_last() =~= all.take(i as int));
            assert(all.take(i + 1).last() == all[i as int]);
        }
        let mut more = send_message(&req.messages[i]);
        let ghost more_views = more.deep_view();
        out.append(&mut more);
        assert(out.deep_view() =~= before + more_views);
        assert(out.deep_view() =~= head + sent_messages(all.take(i + 1)));
        i += 1;
    }
    assert(all.take(i as int) =~= all);
    out
}

/// The tools in the backend's form.
fn send_tools(tools: &Vec<InternalTool>) -> (r: Vec<OpenAITool>)
    ensures
        r.deep_view() == tools.deep_view().map_values(|t: InternalToolView| sent_tool(t)),
{
    let mut out: Vec<OpenAITool> = Vec::new();
    let mut i: usize = 0;
    while i < tools.len()
        invariant
            i <= tools.len(),
            out.len() == i,
            forall|k: int|
                0 <= k < i ==> (#[trigger] out@[k]).deep_view() == sent_tool(tools@[k].deep_view()),
        decreases tools.len() - i,
    {
        let t = &tools[i];
        let parameters = match &t.parameters {
            Some(p) => Some(p.clone()),
            None => None,
        };
        out.push(
            OpenAITool {
                kind: "function".to_owned(),
                function: OpenAIToolFunction {
                    name: t.name.clone(),
                    description: copy_text(&t.description),
                    parameters,
                },
            },
        );
        i += 1;
    }
    assert(out.deep_view() =~= tools.deep_view().map_values(|t: InternalToolView| sent_tool(t)));
    out
}

/// A request in the backend's form, for one of its models.
pub fn to_openai_request(req: &InternalRequest, model: &str) -> (r: OpenAIRequest)
    ensures
        r.deep_view() == openai_request(req.deep_view(), model@),
{
    let tools = match &req.tools {
        Some(tools) => Some(send_tools(tools)),
        None => None,
    };
    let tool_choice = match &req.tool_choice {
        Some(choice) => Some(tool_choice_json(choice)),
        None => None,
    };
    let response_format = match req.response_format {
        Some(format) => Some(response_format_json(format)),
        None => None,
    };
    let stop = match &req.stop {
        Some(stop) => Some(copy_texts(stop)),
        None => None,
    };
    let stream_options = match req.stream_options {
        Some(o) => Some(Json::object().with("include_usage", Json::Bool(o.include_usage))),
        None => None,
    };
    OpenAIRequest {
        model: model.to_owned(),
        messages: send_messages(req),
        stream: if req.stream {
            Some(true)
        } else {
            None
        },
        temperature: copy_number(&req.temperature),
        max_tokens: req.max_tokens,
        tools,
        tool_choice,
        response_format,
        top_p: copy_number(&req.top_p),
        frequency_penalty: copy_number(&req.frequency_penalty),
        presence_penalty: copy_number(&req.presence_penalty),
        seed: req.seed,
        n: req.n,
        stop,
        stream_options,
        user: copy_text(&req.user),
    }
}

/// A text as JSON, where there is one.
pub open spec fn opt_text_json(s: Option<Seq<char>>) -> Option<JsonView> {
    match s {
        Some(t) => Some(JsonView::Str(t)),
        None => None,
    }
}

/// An unsigned integer as JSON, where there is one.
pub open spec fn opt_uint_json(n: Option<u64>) -> Option<JsonView> {
    match n {
        Some(x) => Some(JsonView::Number(NumberView::Int(x as int))),
        None => None,
    }
}

/// The JSON of a tool call.
pub open spec fn sent_call_json(c: OpenAIToolCallView) -> JsonView {
    JsonView::Object(
        map![
            "id"@ => JsonView::Str(c.id),
            "type"@ => JsonView::Str(c.kind),
            "function"@ => JsonView::Object(
                map![
                    "name"@ => JsonView::Str(c.function.name),
                    "arguments"@ => JsonView::Str(c.function.arguments),
                ],
            ),
        ],
    )
}

/// The JSON of a message. What it does not have is left out.
pub open spec fn sent_message_json(m: OpenAIMessageView) -> JsonView {
    let fixed = JsonView::Object(
        map!["role"@ => JsonView::Str(m.role), "content"@ => m.content],
    );
    put_some(
        put_some(fixed, "tool_call_id"@, opt_text_json(m.tool_call_id)),
        "tool_calls"@,
        match m.tool_calls {
            Some(calls) => Some(
                JsonView::Array(calls.map_values(|c: OpenAIToolCallView| sent_call_json(c))),
            ),
            None => None,
        },
    )
}

/// The JSON of a tool. What it does not have is left out.
pub open spec fn sent_tool_json(t: OpenAIToolView) -> JsonView {
    JsonView::Object(
        map![
            "type"@ => JsonView::Str(t.kind),
            "function"@ => put_some(
                put_some(
                    JsonView::Object(map!["name"@ => JsonView::Str(t.function.name)]),
                    "description"@,
                    opt_text_json(t.function.description),
                ),
                "parameters"@,
                t.function.parameters,
            ),
        ],
    )
}

/// The JSON of the part of a request that says what is asked: the model, the messages and the
/// tools.
pub open spec fn asked_json(r: OpenAIRequestView) -> JsonView {
    let fixed = JsonView::Object(
        map![
            "model"@ => JsonView::Str(r.model),
            "messages"@ => JsonView::Array(
                r.messages.map_values(|m: OpenAIMessageView| sent_message_json(m)),
            ),
        ],
    );
    let tools = match r.tools {
        Some(tools) => Some(
            JsonView::Array(tools.map_values(|t: OpenAIToolView| sent_tool_json(t))),
        ),
        None => None,
    };
    put_some(
        put_some(put_some(fixed, "tools"@, tools), "tool_choice"@, r.tool_choice),
        "response_format"@,
        r.response_format,
    )
}

/// The JSON of a request: what is asked, and how it shall be answered. What is not said is left
/// out.
pub open spec fn request_json(r: OpenAIRequestView) -> JsonView {
    let v0 = asked_json(r);
    let v1 = put_some(
        v0,
        "stream"@,
        match r.stream {
            Some(b) => Some(JsonView::Bool(b)),
            None => None,
        },
    );
    let v2 = put_some(v1, "temperature"@, opt_number_json(r.temperature));
    let v3 = put_some(v2, "max_tokens"@, opt_uint_json(r.max_tokens));
    let v4 = put_some(v3, "top_p"@, opt_number_json(r.top_p));
    let v5 = put_some(v4, "frequency_penalty"@, opt_number_json(r.frequency_penalty));
    let v6 = put_some(v5, "presence_penalty"@, opt_number_json(r.presence_penalty));
    let v7 = put_some(v6, "seed"@, opt_uint_json(r.seed));
    let v8 = put_some(
        v7,
        "n"@,
        match r.n {
            Some(n) => Some(JsonView::Number(NumberView::Int(n as int))),
            None => None,
        },
    );
    let v9 = put_some(
        v8,
        "stop"@,
        match r.stop {
            Some(stop) => Some(JsonView::Array(strings(stop))),
            None => None,
        },
    );
    let v10 = put_some(v9, "stream_options"@, r.stream_options);
    put_some(v10, "user"@, opt_text_json(r.user))
}

/// A text as JSON, where there is one.
fn text_json(s: &Option<String>) -> (r: Option<Json>)
    ensures
        r.deep_view() == opt_text_json(s.deep_view()),
{
    match s {
        Some(t) => Some(Json::text(t.as_str())),
        None => None,
    }
}

/// A number as JSON, where there is one.
fn number_json(n: &Option<JsonNumber>) -> (r: Option<Json>)
    ensures
        r.deep_view() == opt_number_json(n.deep_view()),
{
    match n {
        Some(x) => Some(Json::Number(x.clone())),
        None => None,
    }
}

/// An unsigned integer as JSON, where there is one.
fn uint_json(n: Option<u64>) -> (r: Option<Json>)
    ensures
        r.deep_view() == opt_uint_json(n),
{
    match n {
        Some(x) => Some(Json::uint(x)),
        None => None,
    }
}

/// A copy of a value, where there is one.
fn copy_json(v: &Option<Json>) -> (r: Option<Json>)
    ensures
        r.deep_view() == v.deep_view(),
{
    match v {
        Some(x) => Some(x.clone()),
        None => None,
    }
}

impl OpenAIMessage {
    /// The JSON of the message.
    pub fn to_json(&self) -> (r: Json)
        ensures
            r@ == sent_message_json(self.deep_view()),
    {
        let calls = match &self.tool_calls {
            Some(calls) => {
                let mut out: Vec<Json> = Vec::new();
                let mut i: usize = 0;
                while i < calls.len()
                    invariant
                        i <= calls.len(),
                        out.len() == i,
                        forall|k: int|
                            0 <= k < i ==> (#[trigger] out@[k])@ == sent_call_json(
                                calls@[k].deep_view(),
                            ),
                    decreases calls.len() - i,
                {
                    let c = &calls[i];
                    out.push(
                        Json::object().with("id", Json::text(c.id.as_str())).with(
                            "type",
                            Json::text(c.kind.as_str()),
                        ).with(
                            "function",
                            Json::object().with("name", Json::text(c.function.name.as_str())).with(
                                "arguments",
                                Json::text(c.function.arguments.as_str()),
                            ),
                        ),
                    );
                    i += 1;
                }
                assert(out.deep_view() =~= calls.deep_view().map_values(
                    |c: OpenAIToolCallView| sent_call_json(c),
                ));
                Some(Json::array(out))
            },
            None => None,
        };
        Json::object().with("role", Json::text(self.role.as_str())).with(
            "content",
            self.content.clone(),
        ).with_some("tool_call_id", text_json(&self.tool_call_id)).with_some("tool_calls", calls)
    }
}

impl OpenAITool {
    /// The JSON of the tool.
    pub fn to_json(&self) -> (r: Json)
        ensures
            r@ == sent_tool_json(self.deep_view()),
    {
        Json::object().with("type", Json::text(self.kind.as_str())).with(
            "function",
            Json::object().with("name", Json::text(self.function.name.as_str())).with_some(
                "description",
                text_json(&self.function.description),
            ).with_some("parameters", copy_json(&self.function.parameters)),
        )
    }
}

impl OpenAIRequest {
    /// The JSON of what is asked.
    fn asked(&self) -> (r: Json)
        ensures
            r@ == asked_json(self.deep_view()),
    {
        let mut messages: Vec<Json> = Vec::new();
        let mut i: usize = 0;
        while i < self.messages.len()
            invariant
                i <= self.messages.len(),
                messages.len() == i,
                forall|k: int|
                    0 <= k < i ==> (#[trigger] messages@[k])@ == sent_message_json(
                        self.messages@[k].deep_view(),
                    ),
            decreases self.messages.len() - i,
        {
            messages.push(self.messages[i].to_json());
            i += 1;
        }
        assert(messages.deep_view() =~= self.messages.deep_view().map_values(
            |m: OpenAIMessageView| sent_message_json(m),
        ));
        let tools = match &self.tools {
            Some(tools) => {
                let mut out: Vec<Json> = Vec::new();
                let mut j: usize = 0;
                while j < tools.len()
                    invariant
                        j <= tools.len(),
                        out.len() == j,
                        forall|k: int|
                            0 <= k < j ==> (#[trigger] out@[k])@ == sent_tool_json(
                                tools@[k].deep_view(),
                            ),
                    decreases tools.len() - j,
                {
                    out.push(tools[j].to_json());
                    j += 1;
                }
                assert(out.deep_view() =~= tools.deep_view().map_values(
                    |t: OpenAIToolView| sent_tool_json(t),
                ));
                Some(Json::array(out))
            },
            None => None,
        };
        Json::object().with("model", Json::text(self.model.as_str())).with(
            "messages",
            Json::array(messages),
        ).with_some("tools", tools).with_some("tool_choice", copy_json(&self.tool_choice)).with_some(
            "response_format",
            copy_json(&self.response_format),
        )
    }

    /// The JSON of the request.
    pub fn to_json(&self) -> (r: Json)
        ensures
            r@ == request_json(self.deep_view()),
    {
        let stream = match self.stream {
            Some(b) => Some(Json::Bool(b)),
            None => None,
        };
        let n = match self.n {
            Some(n) => Some(Json::uint(n as u64)),
            None => None,
        };
        let stop = match &self.stop {
            Some(stop) => Some(Json::strings(stop)),
            None => None,
        };
        self.asked().with_some("stream", stream).with_some(
            "temperature",
            number_json(&self.temperature),
        ).with_some("max_tokens", uint_json(self.max_tokens)).with_some(
            "top_p",
            number_json(&self.top_p),
        ).with_some("frequency_penalty", number_json(&self.frequency_penalty)).with_some(
            "presence_penalty",
            number_json(&self.presence_penalty),
        ).with_some("seed", uint_json(self.seed)).with_some("n", n).with_some(
            "stop",
            stop,
        ).with_some("stream_options", copy_json(&self.stream_options)).with_some(
            "user",
            text_json(&self.user),
        )
    }
}

/// The answer of a backend.
#[derive(Debug, PartialEq)]
pub struct OpenAIResponse {
    pub id: Option<String>,
    pub model: Option<String>,
    pub choices: Vec<OpenAIChoice>,
    pub usage: Option<OpenAIUsage>,
}

/// The model of a backend's answer.
pub struct OpenAIResponseView {
    pub id: Option<Seq<char>>,
    pub model: Option<Seq<char>>,
    pub choices: Seq<OpenAIChoiceView>,
    pub usage: Option<OpenAIUsage>,
}

impl DeepView for OpenAIResponse {
    type V = OpenAIResponseView;

    open spec fn deep_view(&self) -> OpenAIResponseView {
        OpenAIResponseView {
            id: self.id.deep_view(),
            model: self.model.deep_view(),
            choices: self.choices.deep_view(),
            usage: self.usage,
        }
    }
}

/// A choice of an answer.
#[derive(Debug, PartialEq)]
pub struct OpenAIChoice {
    pub message: Option<OpenAIResponseMessage>,
    pub finish_reason: Option<String>,
}

/// The model of a choice.
pub struct OpenAIChoiceView {
    pub message: Option<OpenAIResponseMessageView>,
    pub finish_reason: Option<Seq<char>>,
}

impl DeepView for OpenAIChoice {
    type V = OpenAIChoiceView;

    open spec fn deep_view(&self) -> OpenAIChoiceView {
        OpenAIChoiceView {
            message: self.message.deep_view(),
            finish_reason: self.finish_reason.deep_view(),
        }
    }
}

/// The message of a choice.
#[derive(Debug, PartialEq)]
pub struct OpenAIResponseMessage {
    pub content: Option<Json>,
    pub tool_calls: Option<Vec<OpenAIToolCallResponse>>,
}

/// The model of the message of a choice.
pub struct OpenAIResponseMessageView {
    pub content: Option<JsonView>,
    pub tool_calls: Option<Seq<OpenAIToolCallResponseView>>,
}

impl DeepView for OpenAIResponseMessage {
    type V = OpenAIResponseMessageView;

    open spec fn deep_view(&self) -> OpenAIResponseMessageView {
        OpenAIResponseMessageView {
            content: self.content.deep_view(),
            tool_calls: self.tool_calls.deep_view(),
        }
    }
}

/// A tool call of an answer.
#[derive(Debug, PartialEq)]
pub struct OpenAIToolCallResponse {
    pub id: String,
    pub function: OpenAIToolFunctionCallResponse,
}

/// The model of a tool call of an answer.
pub struct OpenAIToolCallResponseView {
    pub id: Seq<char>,
    pub function: FunctionCallView,
}

impl DeepView for OpenAIToolCallResponse {
    type V = OpenAIToolCallResponseView;

    open spec fn deep_view(&self) -> OpenAIToolCallResponseView {
        OpenAIToolCallResponseView {
            id: self.id@,
            function: FunctionCallView {
                name: self.function.name@,
                arguments: self.function.arguments@,
            },
        }
    }
}

/// The function of a tool call of an answer.
#[derive(Debug, PartialEq)]
pub struct OpenAIToolFunctionCallResponse {
    pub name: String,
    pub arguments: String,
}

/// The tokens that an answer took.
#[derive(Debug, Clone, Copy, PartialEq, Eq, Structural)]
pub struct OpenAIUsage {
    pub prompt_tokens: Option<u64>,
    pub completion_tokens: Option<u64>,
    pub total_tokens: Option<u64>,
}

/// The text of a message, where it has one that is not empty.
pub open spec fn answered_text(m: OpenAIResponseMessageView) -> Seq<ContentBlockView> {
    match m.content {
        Some(JsonView::Str(s)) => if s.len() > 0 {
            seq![ContentBlockView::Text { text: s }]
        } else {
            Seq::empty()
        },
        _ => Seq::empty(),
    }
}

/// The content of a message: its text, then its tool calls.
pub open spec fn answered_content(m: OpenAIResponseMessageView) -> Seq<ContentBlockView> {
    let calls = match m.tool_calls {
        Some(calls) => calls.map_values(
            |c: OpenAIToolCallResponseView|
                ContentBlockView::ToolCall { id: c.id, function: c.function },
        ),
        None => Seq::empty(),
    };
    answered_text(m) + calls
}

/// The content of an answer: that of its first choice.
pub open spec fn first_content(resp: OpenAIResponseView) -> Seq<ContentBlockView> {
    if resp.choices.len() == 0 {
        Seq::empty()
    } else {
        match resp.choices[0].message {
            Some(m) => answered_content(m),
            None => Seq::empty(),
        }
    }
}

/// An answer in the gateway's form. It gets the identifier `fresh` where it has none.
pub open spec fn response_of(
    resp: OpenAIResponseView,
    alias: Seq<char>,
    fresh: Seq<char>,
) -> InternalResponseView {
    InternalResponseView {
        id: match resp.id {
            Some(id) => id,
            None => fresh,
        },
        model: match resp.model {
            Some(model) => model,
            None => ""@,
        },
        alias,
        content: first_content(resp),
        usage: match resp.usage {
            Some(u) => Usage {
                prompt_tokens: u.prompt_tokens,
                completion_tokens: u.completion_tokens,
                total_tokens: u.total_tokens,
            },
            None => Usage { prompt_tokens: None, completion_tokens: None, total_tokens: None },
        },
        finish_reason: if resp.choices.len() == 0 {
            None
        } else {
            resp.choices[0].finish_reason
        },
    }
}

/// Calls `uuid::Uuid::new_v4` and writes the identifier with hyphens, which takes 36 characters.
/// The identifier is random, so nothing more is said of it.
#[verifier::external_body]
pub(crate) fn fresh_id() -> (r: String)
    ensures
        r@.len() == 36,
{
    uuid::Uuid::new_v4().to_string()
}

/// The content of a message: its text, then its tool calls.
fn message_content(m: &OpenAIResponseMessage) -> (r: Vec<ContentBlock>)
    ensures
        r.deep_view() == answered_content(m.deep_view()),
{
    let mut out: Vec<ContentBlock> = Vec::new();
    match &m.content {
        Some(Json::Str(s)) => {
            if s.as_str().unicode_len() > 0 {
                out.push(ContentBlock::Text { text: s.clone() });
            }
        },
        _ => {},
    }
    let ghost text = answered_text(m.deep_view());
    assert(out.deep_view() =~= text);
    match &m.tool_calls {
        Some(calls) => {
            let ghost views = calls.deep_view().map_values(
                |c: OpenAIToolCallResponseView|
                    ContentBlockView::ToolCall { id: c.id, function: c.function },
            );
            let mut i: usize = 0;
            assert(out.deep_view() =~= text + views.take(0));
            while i < calls.len()
                invariant
                    i <= calls.len(),
                    views == calls.deep_view().map_values(
                        |c: OpenAIToolCallResponseView|
                            ContentBlockView::ToolCall { id: c.id, function: c.function },
                    ),
                    out.deep_view() == text + views.take(i as int),
                decreases calls.len() - i,
            {
                let ghost before = out.deep_view();
                let c = &calls[i];
                let block = ContentBlock::ToolCall {
                    id: c.id.clone(),
                    function: FunctionCall {
                        name: c.function.name.clone(),
                        arguments: c.function.arguments.clone(),
                    },
                };
                out.push(block);
                assert(out.deep_view() =~= before.push(block.deep_view()));
                assert(block.deep_view() == views[i as int]);
                assert(out.deep_view() =~= text + views.take(i + 1));
                i += 1;
            }
            assert(views.take(i as int) =~= views);
        },
        None => {
            assert(text + Seq::<ContentBlockView>::empty() =~= text);
        },
    }
    out
}

/// An answer in the gateway's form. It gets the identifier `fresh` where it has none.
pub fn response_with_id(resp: OpenAIResponse, alias: &str, fresh: String) -> (r: InternalResponse)
    ensures
        r.deep_view() == response_of(resp.deep_view(), alias@, fresh@),
{
    let mut content: Vec<ContentBlock> = Vec::new();
    let mut finish_reason: Option<String> = None;
    assert(content.deep_view() =~= Seq::<ContentBlockView>::empty());
    if resp.choices.len() > 0 {
        let choice = &resp.choices[0];
        finish_reason = copy_text(&choice.finish_reason);
        match &choice.message {
            Some(m) => {
                content = message_content(m);
            },
            None => {},
        }
    }
    let usage = match resp.usage {
        Some(u) => Usage {
            prompt_tokens: u.prompt_tokens,
            completion_tokens: u.completion_tokens,
            total_tokens: u.total_tokens,
        },
        None => Usage { prompt_tokens: None, completion_tokens: None, total_tokens: None },
    };
    InternalResponse {
        id: match resp.id {
            Some(id) => id,
            None => fresh,
        },
        model: match resp.model {
            Some(model) => model,
            None => "".to_owned(),
        },
        alias: alias.to_owned(),
        content,
        usage,
        finish_reason,
    }
}

/// An answer in the gateway's form. It gets a random identifier where it has none.
pub fn from_openai_response(resp: OpenAIResponse, alias: &str) -> (r: InternalResponse)
    ensures
        r.deep_view() == response_of(resp.deep_view(), alias@, r.id@),
        resp.id is None ==> r.id@.len() == 36,
{
    response_with_id(resp, alias, fresh_id())
}

/// The block that the tool calls of a delta come to: the last of them, or `start` where there are
/// none. There is no such block where one of them names no function.
pub open spec fn delta_calls(
    calls: Seq<JsonView>,
    start: Option<ContentBlockView>,
) -> Option<Option<ContentBlockView>>
    decreases calls.len(),
{
    if calls.len() == 0 {
        Some(start)
    } else {
        match (delta_calls(calls.drop_last(), start), field(calls.last(), "function"@)) {
            (Some(_), Some(function)) => Some(
                Some(
                    ContentBlockView::ToolCall {
                        id: str_field_or(calls.last(), "id"@, ""@),
                        function: FunctionCallView {
                            name: str_field_or(function, "name"@, ""@),
                            arguments: str_field_or(function, "arguments"@, ""@),
                        },
                    },
                ),
            ),
            _ => None,
        }
    }
}

/// The text of a delta, where it has one that is not empty.
pub open spec fn delta_text(delta: JsonView) -> Option<ContentBlockView> {
    match str_field(delta, "content"@) {
        Some(text) => if text.len() > 0 {
            Some(ContentBlockView::Text { text })
        } else {
            None
        },
        None => None,
    }
}

/// The block that a delta is: its last tool call, else its text.
pub open spec fn delta_block(delta: JsonView) -> Option<Option<ContentBlockView>> {
    match field(delta, "tool_calls"@) {
        Some(JsonView::Array(calls)) => delta_calls(calls, delta_text(delta)),
        _ => Some(delta_text(delta)),
    }
}

/// The chunk that a choice is, where it is whole.
pub open spec fn choice_chunk(
    choice: JsonView,
    id: Seq<char>,
    model: Seq<char>,
    alias: Seq<char>,
) -> Option<StreamChunkView> {
    match field(choice, "delta"@) {
        None => None,
        Some(delta) => match delta_block(delta) {
            None => None,
            Some(block) => Some(
                StreamChunkView {
                    id,
                    model,
                    alias,
                    delta: block,
                    usage: None,
                    finish_reason: str_field(choice, "finish_reason"@),
                },
            ),
        },
    }
}

/// The chunks that the choices are, where all of them are whole.
pub open spec fn choice_chunks(
    choices: Seq<JsonView>,
    id: Seq<char>,
    model: Seq<char>,
    alias: Seq<char>,
) -> Option<Seq<StreamChunkView>>
    decreases choices.len(),
{
    if choices.len() == 0 {
        Some(Seq::empty())
    } else {
        match (
            choice_chunks(choices.drop_last(), id, model, alias),
            choice_chunk(choices.last(), id, model, alias),
        ) {
            (Some(front), Some(chunk)) => Some(front.push(chunk)),
            _ => None,
        }
    }
}

/// The chunks that an event of a stream is.
pub open spec fn event_chunks(event: JsonView, alias: Seq<char>) -> Option<Seq<StreamChunkView>> {
    match field(event, "choices"@) {
        Some(JsonView::Array(choices)) => choice_chunks(
            choices,
            str_field_or(event, "id"@, ""@),
            str_field_or(event, "model"@, ""@),
            alias,
        ),
        _ => None,
    }
}

/// The data of a line of a stream: without the prefix `data: ` and white space around it.
pub open spec fn line_data(line: Seq<char>) -> Seq<char> {
    trimmed(without_leading(line, "data: "@))
}

/// The chunks that a line of a stream is. The end marker and an empty line are none.
pub open spec fn line_chunks(line: Seq<char>, alias: Seq<char>) -> Option<Seq<StreamChunkView>> {
    let data = line_data(line);
    if data == "[DONE]"@ || data.len() == 0 {
        None
    } else {
        match json_parse(data) {
            Some(event) => event_chunks(event, alias),
            None => None,
        }
    }
}

/// The block that the tool calls of a delta come to.
fn parse_delta_calls(calls: &Vec<Json>, start: Option<ContentBlock>) -> (r: Option<
    Option<ContentBlock>,
>)
    ensures
        r.deep_view() == delta_calls(calls.deep_view(), start.deep_view()),
{
    let ghost all = calls.deep_view();
    let ghost first = start.deep_view();
    let mut block = start;
    let mut whole = true;
    let mut i: usize = 0;
    while i < calls.len()
        invariant
            i <= calls.len(),
            all == calls.deep_view(),
            delta_calls(all.take(i as int), first) == (if whole {
                Some(block.deep_view())
            } else {
                None
            }),
        decreases calls.len() - i,
    {
        let call = &calls[i];
        proof {
            assert(all.take(i + 1).drop_last() =~= all.take(i as int));
            assert(all.take(i + 1).last() == call@);
        }
        match call.get("function") {
            Some(function) => {
                block = Some(
                    ContentBlock::ToolCall {
                        id: call.str_field_or("id", ""),
                        function: FunctionCall {
                            name: function.str_field_or("name", ""),
                            arguments: function.str_field_or("arguments", ""),
                        },
                    },
                );
            },
            None => {
                whole = false;
            },
        }
        i += 1;
    }
    assert(all.take(i as int) =~= all);
    if whole {
        Some(block)
    } else {
        None
    }
}

/// The chunk that a choice is, where it is whole.
fn parse_choice(choice: &Json, id: &str, model: &str, alias: &str) -> (r: Option<StreamChunk>)
    ensures
        r.deep_view() == choice_chunk(choice@, id@, model@, alias@),
{
    match choice.get("delta") {
        None => None,
        Some(delta) => {
            let text = match delta.str_field("content") {
                Some(text) => if text.unicode_len() > 0 {
                    Some(ContentBlock::Text { text: text.to_owned() })
                } else {
                    None
                },
                None => None,
            };
            let calls = match delta.get("tool_calls") {
                Some(calls) => calls.as_array(),
                None => None,
            };
            let block = match calls {
                Some(calls) => parse_delta_calls(calls, text),
                None => Some(text),
            };
            match block {
                None => None,
                Some(delta) => {
                    let finish_reason = match choice.str_field("finish_reason") {
                        Some(s) => Some(s.to_owned()),
                        None => None,
                    };
                    Some(
                        StreamChunk {
                            id: id.to_owned(),
                            model: model.to_owned(),
                            alias: alias.to_owned(),
                            delta,
                            usage: None,
                            finish_reason,
                        },
                    )
                },
            }
        },
    }
}

/// The chunks that an event of a stream is.
pub fn chunks_of_event(event: &Json, alias: &str) -> (r: Option<Vec<StreamChunk>>)
    ensures
        r.deep_view() == event_chunks(event@, alias@),
{
    let choices = match event.get("choices") {
        Some(choices) => match choices.as_array() {
            Some(choices) => choices,
            None => {
                return None;
            },
        },
        None => {
            return None;
        },
    };
    let id = event.str_field_or("id", "");
    let model = event.str_field_or("model", "");
    let ghost all = choices.deep_view();
    let mut out: Vec<StreamChunk> = Vec::new();
    let mut whole = true;
    let mut i: usize = 0;
    assert(out.deep_view() =~= Seq::<StreamChunkView>::empty());
    while i < choices.len()
        invariant
            i <= choices.len(),
            all == choices.deep_view(),
            choice_chunks(all.take(i as int), id@, model@, alias@) == (if whole {
                Some(out.deep_view())
            } else {
                None
            }),
        decreases choices.len() - i,
    {
        let ghost before = out.deep_view();
        let choice = &choices[i];
        proof {
            assert(all.take(i + 1).drop_last() =~= all.take(i as int));
            assert(all.take(i + 1).last() == choice@);
        }
        match parse_choice(choice, id.as_str(), model.as_str(), alias) {
            Some(chunk) => {
                out.push(chunk);
                assert(out.deep_view() =~= before.push(chunk.deep_view()));
            },
            None => {
                whole = false;
            },
        }
        i += 1;
    }
    assert(all.take(i as int) =~= all);
    if whole {
        Some(out)
    } else {
        None
    }
}

/// The chunks that a line of a stream is. The end marker and an empty line are none.
pub fn parse_sse_line(line: &str, alias: &str) -> (r: Option<Vec<StreamChunk>>)
    ensures
        r.deep_view() == line_chunks(line@, alias@),
{
    let data = trim(strip_leading(line, "data: "));
    if same_text(data, "[DONE]") || data.unicode_len() == 0 {
        return None;
    }
    match parse_json(data) {
        Some(event) => chunks_of_event(&event, alias),
        None => None,
    }
}

/// The type and the message of an error that a backend answered. The code stands in for a missing
/// type. An answer without an error object is no error.
pub open spec fn error_of(body: JsonView) -> Option<(Seq<char>, Seq<char>)> {
    match field(body, "error"@) {
        Some(JsonView::Object(m)) => {
            let error = JsonView::Object(m);
            let kind = match str_field(error, "type"@) {
                Some(kind) => kind,
                None => str_field_or(error, "code"@, ""@),
            };
            Some((kind, str_field_or(error, "message"@, ""@)))
        },
        _ => None,
    }
}

/// The type and the message of an error that a backend answered.
pub fn error_in(body: &Json) -> (r: Option<(String, String)>)
    ensures
        r.deep_view() == error_of(body@),
{
    match body.get("error") {
        Some(error) => match error {
            Json::Object(_) => {
                let kind = match error.str_field("type") {
                    Some(kind) => kind.to_owned(),
                    None => error.str_field_or("code", ""),
                };
                Some((kind, error.str_field_or("message", "")))
            },
            _ => None,
        },
        None => None,
    }
}

/// The type and the message of the error in a backend's body. There is none where the body is no
/// JSON or has no error object.
pub fn parse_error_body(body: &str) -> (r: Option<(String, String)>)
    ensures
        r.deep_view() == (match json_parse(body@) {
            Some(v) => error_of(v),
            None => None,
        }),
{
    match parse_json(body) {
        Some(v) => error_in(&v),
        None => None,
    }
}

/// What came of sending a request.
#[derive(Debug, PartialEq)]
pub enum ChatReply {
    /// The request could not be sent, and why.
    NotSent(String),
    /// The backend answered with a status that is no success, and with a body where it could be
    /// read.
    Refused { status: u16, body: Option<String> },
    /// The backend answered with success and a body that could not be read as an answer, and why.
    Unreadable(String),
    /// The backend answered.
    Answered(OpenAIResponse),
}

/// The error that a reply comes to, where it is no answer.
pub open spec fn reply_error(reply: ChatReply) -> Option<GatewayErrorView> {
    match reply {
        ChatReply::NotSent(why) => Some(GatewayErrorView::BackendRequestFailed(why@)),
        ChatReply::Refused { status, body } => Some(
            GatewayErrorView::BackendError { status, body: body_text(body.deep_view()) },
        ),
        ChatReply::Unreadable(why) => Some(
            GatewayErrorView::Internal("Failed to parse backend response: "@ + why@),
        ),
        ChatReply::Answered(_) => None,
    }
}

/// The response or the error that a reply comes to. A response without an identifier gets a random
/// one.
pub fn chat_outcome(reply: ChatReply, alias: &str) -> (r: Result<InternalResponse, GatewayError>)
    ensures
        match r {
            Ok(response) => reply matches ChatReply::Answered(resp) && response.deep_view()
                == response_of(resp.deep_view(), alias@, response.id@) && (resp.id is None
                ==> response.id@.len() == 36),
            Err(e) => reply_error(reply) == Some(e.deep_view()),
        },
{
    match reply {
        ChatReply::NotSent(why) => Err(GatewayError::BackendRequestFailed(why)),
        ChatReply::Refused { status, body } => Err(
            GatewayError::BackendError { status, body: body_or_unreadable(body) },
        ),
        ChatReply::Unreadable(why) => Err(
            GatewayError::Internal(concat2("Failed to parse backend response: ", why.as_str())),
        ),
        ChatReply::Answered(resp) => Ok(from_openai_response(resp, alias)),
    }
}

/// Whether a content type is that of an event stream.
pub open spec fn event_stream(content_type: Option<Seq<char>>) -> bool {
    match content_type {
        Some(t) => has_prefix(t, "text/event-stream"@),
        None => false,
    }
}

/// The error that the opening of a stream comes to, where it did not open. A stream that is no
/// event stream is refused.
pub open spec fn stream_error(reply: StreamReply) -> Option<GatewayErrorView> {
    match reply {
        StreamReply::NotSent(why) => Some(GatewayErrorView::BackendRequestFailed(why@)),
        StreamReply::Refused { status, body } => Some(
            GatewayErrorView::BackendError { status, body: body_text(body.deep_view()) },
        ),
        StreamReply::Opened { content_type } => if event_stream(content_type.deep_view()) {
            None
        } else {
            Some(
                GatewayErrorView::Internal(
                    "unexpected content-type: "@ + (match content_type {
                        Some(t) => t@,
                        None => "unknown"@,
                    }),
                ),
            )
        },
    }
}

/// What the opening of a stream comes to.
pub fn stream_outcome(reply: StreamReply) -> (r: Result<(), GatewayError>)
    ensures
        match r {
            Ok(_) => stream_error(reply) is None,
            Err(e) => stream_error(reply) == Some(e.deep_view()),
        },
{
    match reply {
        StreamReply::NotSent(why) => Err(GatewayError::BackendRequestFailed(why)),
        StreamReply::Refused { status, body } => Err(
            GatewayError::BackendError { status, body: body_or_unreadable(body) },
        ),
        StreamReply::Opened { content_type } => match content_type {
            Some(t) => if starts_with(t.as_str(), "text/event-stream") {
                Ok(())
            } else {
                Err(GatewayError::Internal(concat2("unexpected content-type: ", t.as_str())))
            },
            None => Err(GatewayError::Internal(concat2("unexpected content-type: ", "unknown"))),
        },
    }
}

/// The adapter for OpenAI compatible backends.
#[derive(Debug, Clone, Copy, PartialEq, Eq, Structural)]
pub struct OpenAiCompatAdapter;

impl BackendAdapter for OpenAiCompatAdapter {
    open spec fn adapter_name(&self) -> Seq<char> {
        "openai_compat"@
    }

    open spec fn request_url(&self, provider: ProviderConfig) -> Seq<char> {
        without_trailing(provider.base_url@, '/') + "/chat/completions"@
    }

    open spec fn request_headers(&self, provider: ProviderConfig, streaming: bool) -> Seq<
        (Seq<char>, Seq<char>),
    > {
        seq![
            ("Authorization"@, "Bearer "@ + provider.api_key@),
            ("Content-Type"@, "application/json"@),
        ]
    }

    open spec fn request_body(
        &self,
        request: InternalRequestView,
        model: Seq<char>,
        streaming: bool,
    ) -> JsonView {
        let body = openai_request(request, model);
        request_json(
            OpenAIRequestView {
                stream: if streaming {
                    Some(true)
                } else {
                    body.stream
                },
                ..body
            },
        )
    }

    fn name(&self) -> (r: &'static str) {
        "openai_compat"
    }

    fn url(&self, provider: &ProviderConfig) -> (r: String) {
        concat2(strip_trailing(provider.base_url.as_str(), '/'), "/chat/completions")
    }

    fn headers(&self, provider: &ProviderConfig, streaming: bool) -> (r: Vec<(String, String)>) {
        let out = vec![
            ("Authorization".to_owned(), concat2("Bearer ", provider.api_key.as_str())),
            ("Content-Type".to_owned(), "application/json".to_owned()),
        ];
        assert(out.deep_view() =~= self.request_headers(*provider, streaming));
        out
    }

    fn body(&self, request: &InternalRequest, model: &str, streaming: bool) -> (r: Json) {
        let mut body = to_openai_request(request, model);
        if streaming {
            body.stream = Some(true);
        }
        body.to_json()
    }
}

} // verus!
