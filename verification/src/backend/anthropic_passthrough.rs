//! Anthropic backends: requests in the form of the Anthropic Messages protocol.

use vstd::prelude::*;

use crate::backend::{
    body_or_unreadable, body_text, is_success, success, BackendAdapter, StreamReply,
};
use crate::config::ProviderConfig;
use crate::error::{GatewayError, GatewayErrorView};
use crate::gateway::types::{
    calls_tool, ContentBlock, ContentBlockView, FunctionCall, FunctionCallView, InternalMessage,
    InternalMessageView, InternalRequest, InternalRequestView, InternalResponse,
    InternalResponseView, InternalTool, InternalToolView, Role, ToolChoice, ToolChoiceView, Usage,
};
use crate::json::{
    field, opt_number_json, put_some, str_field, str_field_or, strings, uint_field, Json, JsonView,
    NumberView,
};
use crate::json_codec::{
    json_parse, json_text, parse_json, plain_json, read_back_depth, render_json,
};
use crate::text::{concat2, same_text, strip_trailing, without_trailing};

verus! {

/// The input of a tool call whose arguments were read: null where they are no JSON.
pub open spec fn input_or_null(parsed: Option<JsonView>) -> JsonView {
    match parsed {
        Some(v) => v,
        None => JsonView::Null,
    }
}

/// The JSON that a content block is sent as.
pub open spec fn sent_block(block: ContentBlockView) -> JsonView {
    match block {
        ContentBlockView::Text { text } => JsonView::Object(
            map!["type"@ => JsonView::Str("text"@), "text"@ => JsonView::Str(text)],
        ),
        ContentBlockView::ToolCall { id, function } => JsonView::Object(
            map![
                "type"@ => JsonView::Str("tool_use"@),
                "id"@ => JsonView::Str(id),
                "name"@ => JsonView::Str(function.name),
                "input"@ => input_or_null(json_parse(function.arguments)),
            ],
        ),
        ContentBlockView::ToolResult { tool_use_id, content } => JsonView::Object(
            map![
                "type"@ => JsonView::Str("tool_result"@),
                "tool_use_id"@ => JsonView::Str(tool_use_id),
                "content"@ => JsonView::Str(content),
            ],
        ),
        _ => JsonView::Object(
            map!["type"@ => JsonView::Str("text"@), "text"@ => JsonView::Str("[unsupported]"@)],
        ),
    }
}

/// The role that a message is sent with.
pub open spec fn sent_role(role: Role) -> Seq<char> {
    if role == Role::Assistant {
        "assistant"@
    } else {
        "user"@
    }
}

/// The JSON that a message is sent as.
pub open spec fn sent_message(m: InternalMessageView) -> JsonView {
    JsonView::Object(
        map![
            "role"@ => JsonView::Str(sent_role(m.role)),
            "content"@ => JsonView::Array(m.content.map_values(|b: ContentBlockView| sent_block(b))),
        ],
    )
}

/// The JSON that the messages are sent as: all but those of the system.
pub open spec fn sent_messages(ms: Seq<InternalMessageView>) -> Seq<JsonView>
    decreases ms.len(),
{
    if ms.len() == 0 {
        Seq::empty()
    } else {
        let front = sent_messages(ms.drop_last());
        if ms.last().role == Role::System {
            front
        } else {
            front.push(sent_message(ms.last()))
        }
    }
}

/// The JSON that a tool is sent as.
pub open spec fn sent_tool(t: InternalToolView) -> JsonView {
    JsonView::Object(
        map![
            "name"@ => JsonView::Str(t.name),
            "description"@ => match t.description {
                Some(text) => JsonView::Str(text),
                None => JsonView::Null,
            },
            "input_schema"@ => match t.parameters {
                Some(v) => v,
                None => JsonView::Null,
            },
        ],
    )
}

/// The JSON that a tool choice is sent as.
pub open spec fn sent_choice(choice: ToolChoiceView) -> JsonView {
    match choice {
        ToolChoiceView::Auto => JsonView::Object(map!["type"@ => JsonView::Str("auto"@)]),
        ToolChoiceView::NoTool => JsonView::Object(map!["type"@ => JsonView::Str("none"@)]),
        ToolChoiceView::Any => JsonView::Object(map!["type"@ => JsonView::Str("any"@)]),
        ToolChoiceView::Specific(name) => JsonView::Object(
            map!["type"@ => JsonView::Str("tool"@), "name"@ => JsonView::Str(name)],
        ),
    }
}

/// The system prompt as JSON, where there is one that is not empty.
pub open spec fn system_json(system: Option<Seq<char>>) -> Option<JsonView> {
    match system {
        Some(s) => if s.len() > 0 {
            Some(JsonView::Str(s))
        } else {
            None
        },
        None => None,
    }
}

/// The stop sequences as JSON, where there are any.
pub open spec fn stop_json(stop: Option<Seq<Seq<char>>>) -> Option<JsonView> {
    match stop {
        Some(stop) => if stop.len() > 0 {
            Some(JsonView::Array(strings(stop)))
        } else {
            None
        },
        None => None,
    }
}

/// The body of a request for a model. What is not said is left out, but for the limit of tokens.
pub open spec fn anthropic_body(req: InternalRequestView, model: Seq<char>) -> JsonView {
    let max_tokens: u64 = match req.max_tokens {
        Some(n) => n,
        None => 4096,
    };
    let v0 = JsonView::Object(
        map![
            "model"@ => JsonView::Str(model),
            "messages"@ => JsonView::Array(sent_messages(req.messages)),
            "max_tokens"@ => JsonView::Number(NumberView::Int(max_tokens as int)),
        ],
    );
    let v1 = put_some(v0, "system"@, system_json(req.system));
    let v2 = put_some(v1, "temperature"@, opt_number_json(req.temperature));
    let v3 = put_some(v2, "top_p"@, opt_number_json(req.top_p));
    let v4 = put_some(
        v3,
        "top_k"@,
        match req.top_k {
            Some(n) => Some(JsonView::Number(NumberView::Int(n as int))),
            None => None,
        },
    );
    let v5 = put_some(v4, "stop_sequences"@, stop_json(req.stop));
    let v6 = put_some(
        v5,
        "tools"@,
        match req.tools {
            Some(tools) => Some(
                JsonView::Array(tools.map_values(|t: InternalToolView| sent_tool(t))),
            ),
            None => None,
        },
    );
    put_some(
        v6,
        "tool_choice"@,
        match req.tool_choice {
            Some(choice) => Some(sent_choice(choice)),
            None => None,
        },
    )
}

/// The input of a tool call whose arguments were read.
pub fn tool_input_value(parsed: Option<Json>) -> (r: Json)
    ensures
        r@ == input_or_null(parsed.deep_view()),
{
    match parsed {
        Some(v) => v,
        None => Json::Null,
    }
}

/// The JSON that a content block is sent as.
fn block_json(block: &ContentBlock) -> (r: Json)
    ensures
        r@ == sent_block(block.deep_view()),
{
    match block {
        ContentBlock::Text { text } => Json::object().with("type", Json::text("text")).with(
            "text",
            Json::text(text.as_str()),
        ),
        ContentBlock::ToolCall { id, function } => Json::object().with(
            "type",
            Json::text("tool_use"),
        ).with("id", Json::text(id.as_str())).with("name", Json::text(function.name.as_str())).with(
            "input",
            tool_input_value(parse_json(function.arguments.as_str())),
        ),
        ContentBlock::ToolResult { tool_use_id, content } => Json::object().with(
            "type",
            Json::text("tool_result"),
        ).with("tool_use_id", Json::text(tool_use_id.as_str())).with(
            "content",
            Json::text(content.as_str()),
        ),
        _ => Json::object().with("type", Json::text("text")).with(
            "text",
            Json::text("[unsupported]"),
        ),
    }
}

/// The JSON that a message is sent as.
fn message_json(m: &InternalMessage) -> (r: Json)
    ensures
        r@ == sent_message(m.deep_view()),
{
    let mut content: Vec<Json> = Vec::new();
    let mut i: usize = 0;
    while i < m.content.len()
        invariant
            i <= m.content.len(),
            content.len() == i,
            forall|k: int|
                0 <= k < i ==> (#[trigger] content@[k])@ == sent_block(m.content@[k].deep_view()),
        decreases m.content.len() - i,
    {
        content.push(block_json(&m.content[i]));
        i += 1;
    }
    assert(content.deep_view() =~= m.content.deep_view().map_values(
        |b: ContentBlockView| sent_block(b),
    ));
    let role = if m.role == Role::Assistant {
        "assistant"
    } else {
        "user"
    };
    Json::object().with("role", Json::text(role)).with("content", Json::array(content))
}

/// The JSON that the messages are sent as.
fn messages_json(ms: &Vec<InternalMessage>) -> (r: Json)
    ensures
        r@ == JsonView::Array(sent_messages(ms.deep_view())),
{
    let ghost all = ms.deep_view();
    let mut out: Vec<Json> = Vec::new();
    let mut i: usize = 0;
    assert(out.deep_view() =~= sent_messages(all.take(0)));
    while i < ms.len()
        invariant
            i <= ms.len(),
            all == ms.deep_view(),
            out.deep_view() == sent_messages(all.take(i as int)),
        decreases ms.len() - i,
    {
        let ghost before = out.deep_view();
        proof {
            assert(all.take(i + 1).drop_last() =~= all.take(i as int));
            assert(all.take(i + 1).last() == all[i as int]);
        }
        if ms[i].role != Role::System {
            let m = message_json(&ms[i]);
            out.push(m);
            assert(out.deep_view() =~= before.push(m@));
        }
        i += 1;
    }
    assert(all.take(i as int) =~= all);
    Json::array(out)
}

/// The JSON that the tools are sent as.
fn tools_json(tools: &Vec<InternalTool>) -> (r: Json)
    ensures
        r@ == JsonView::Array(
            tools.deep_view().map_values(|t: InternalToolView| sent_tool(t)),
        ),
{
    let mut out: Vec<Json> = Vec::new();
    let mut i: usize = 0;
    while i < tools.len()
        invariant
            i <= tools.len(),
            out.len() == i,
            forall|k: int|
                0 <= k < i ==> (#[trigger] out@[k])@ == sent_tool(tools@[k].deep_view()),
        decreases tools.len() - i,
    {
        let t = &tools[i];
        let description = match &t.description {
            Some(text) => Json::text(text.as_str()),
            None => Json::Null,
        };
        let schema = match &t.parameters {
            Some(v) => v.clone(),
            None => Json::Null,
        };
        out.push(
            Json::object().with("name", Json::text(t.name.as_str())).with(
                "description",
                description,
            ).with("input_schema", schema),
        );
        i += 1;
    }
    assert(out.deep_view() =~= tools.deep_view().map_values(|t: InternalToolView| sent_tool(t)));
    Json::array(out)
}

/// The JSON that a tool choice is sent as.
fn tool_choice_json(choice: &ToolChoice) -> (r: Json)
    ensures
        r@ == sent_choice(choice.deep_view()),
{
    match choice {
        ToolChoice::Auto => Json::object().with("type", Json::text("auto")),
        ToolChoice::NoTool => Json::object().with("type", Json::text("none")),
        ToolChoice::Any => Json::object().with("type", Json::text("any")),
        ToolChoice::Specific(name) => Json::object().with("type", Json::text("tool")).with(
            "name",
            Json::text(name.as_str()),
        ),
    }
}

/// The body of a request for a model.
pub fn build_anthropic_body(req: &InternalRequest, model: &str) -> (r: Json)
    ensures
        r@ == anthropic_body(req.deep_view(), model@),
{
    let max_tokens: u64 = req.max_tokens.unwrap_or(4096);
    let system = match &req.system {
        Some(s) => if s.as_str().unicode_len() > 0 {
            Some(Json::text(s.as_str()))
        } else {
            None
        },
        None => None,
    };
    let temperature = match &req.temperature {
        Some(x) => Some(Json::Number(x.clone())),
        None => None,
    };
    let top_p = match &req.top_p {
        Some(x) => Some(Json::Number(x.clone())),
        None => None,
    };
    let top_k = match req.top_k {
        Some(n) => Some(Json::uint(n as u64)),
        None => None,
    };
    let stop = match &req.stop {
        Some(stop) => if stop.len() > 0 {
            Some(Json::strings(stop))
        } else {
            None
        },
        None => None,
    };
    let tools = match &req.tools {
        Some(tools) => Some(tools_json(tools)),
        None => None,
    };
    let tool_choice = match &req.tool_choice {
        Some(choice) => Some(tool_choice_json(choice)),
        None => None,
    };
    Json::object().with("model", Json::text(model)).with(
        "messages",
        messages_json(&req.messages),
    ).with("max_tokens", Json::uint(max_tokens)).with_some("system", system).with_some(
        "temperature",
        temperature,
    ).with_some("top_p", top_p).with_some("top_k", top_k).with_some(
        "stop_sequences",
        stop,
    ).with_some("tools", tools).with_some("tool_choice", tool_choice)
}

/// The headers that carry the key of a provider.
pub open spec fn auth_headers(provider: ProviderConfig) -> Seq<(Seq<char>, Seq<char>)> {
    if provider.auth_style@ == "anthropic"@ {
        seq![("x-api-key"@, provider.api_key@), ("anthropic-version"@, "2023-06-01"@)]
    } else {
        seq![("Authorization"@, "Bearer "@ + provider.api_key@)]
    }
}

/// The headers that carry the key of a provider.
pub fn apply_auth(provider: &ProviderConfig) -> (r: Vec<(String, String)>)
    ensures
        r.deep_view() == auth_headers(*provider),
{
    if same_text(provider.auth_style.as_str(), "anthropic") {
        let out = vec![
            ("x-api-key".to_owned(), provider.api_key.clone()),
            ("anthropic-version".to_owned(), "2023-06-01".to_owned()),
        ];
        assert(out.deep_view() =~= auth_headers(*provider));
        out
    } else {
        let out = vec![
            ("Authorization".to_owned(), concat2("Bearer ", provider.api_key.as_str())),
        ];
        assert(out.deep_view() =~= auth_headers(*provider));
        out
    }
}

/// The content block that a block of an answer is.
pub open spec fn answered_block(block: JsonView) -> ContentBlockView {
    let t = str_field_or(block, "type"@, "text"@);
    if t == "text"@ {
        ContentBlockView::Text { text: str_field_or(block, "text"@, ""@) }
    } else if t == "tool_use"@ {
        ContentBlockView::ToolCall {
            id: str_field_or(block, "id"@, ""@),
            function: FunctionCallView {
                name: str_field_or(block, "name"@, ""@),
                arguments: match field(block, "input"@) {
                    Some(input) => json_text(input),
                    None => ""@,
                },
            },
        }
    } else {
        ContentBlockView::Text { text: ""@ }
    }
}

/// Whether the arguments that a tool call of an answer is given are read back as its input, where
/// it has one that is plain.
pub open spec fn answered_input_returns(block: JsonView) -> bool {
    match field(block, "input"@) {
        Some(input) => str_field_or(block, "type"@, "text"@) == "tool_use"@ && plain_json(
            input,
            read_back_depth(),
        ) ==> json_parse(json_text(input)) == Some(input),
        None => true,
    }
}

/// The content of an answer, one block for each of its blocks.
pub open spec fn answered_content(body: JsonView) -> Seq<ContentBlockView> {
    match field(body, "content"@) {
        Some(JsonView::Array(blocks)) => blocks.map_values(|b: JsonView| answered_block(b)),
        _ => Seq::empty(),
    }
}

/// The unsigned integer under a key of the tokens of an answer.
pub open spec fn usage_field(body: JsonView, key: Seq<char>) -> Option<u64> {
    match field(body, "usage"@) {
        Some(usage) => uint_field(usage, key),
        None => None,
    }
}

/// An answer in the gateway's form. A tool call decides why it ended, whatever the backend says.
pub open spec fn answer_of(
    body: JsonView,
    model: Seq<char>,
    alias: Seq<char>,
) -> InternalResponseView {
    let content = answered_content(body);
    InternalResponseView {
        id: str_field_or(body, "id"@, "?"@),
        model,
        alias,
        content,
        usage: Usage {
            prompt_tokens: usage_field(body, "input_tokens"@),
            completion_tokens: usage_field(body, "output_tokens"@),
            total_tokens: None,
        },
        finish_reason: if calls_tool(content) {
            Some("tool_use"@)
        } else {
            str_field(body, "stop_reason"@)
        },
    }
}

/// The content block that a block of an answer is.
fn parse_answered_block(block: &Json) -> (r: ContentBlock)
    ensures
        r.deep_view() == answered_block(block@),
        answered_input_returns(block@),
{
    proof {
        reveal_strlit("text");
        reveal_strlit("tool_use");
        assert("text"@.len() != "tool_use"@.len());
    }
    let t = block.str_field_or("type", "text");
    if same_text(t.as_str(), "text") {
        ContentBlock::Text { text: block.str_field_or("text", "") }
    } else if same_text(t.as_str(), "tool_use") {
        let arguments = match block.get("input") {
            Some(input) => render_json(input),
            None => "".to_owned(),
        };
        ContentBlock::ToolCall {
            id: block.str_field_or("id", ""),
            function: FunctionCall { name: block.str_field_or("name", ""), arguments },
        }
    } else {
        ContentBlock::Text { text: "".to_owned() }
    }
}

/// Whether the arguments of each tool call of an answer with a plain input are read back as that
/// input.
pub open spec fn answered_inputs_return(body: JsonView) -> bool {
    match field(body, "content"@) {
        Some(JsonView::Array(blocks)) => forall|i: int|
            0 <= i < blocks.len() ==> answered_input_returns(#[trigger] blocks[i]),
        _ => true,
    }
}

/// The content of an answer.
fn parse_answered_content(body: &Json) -> (r: Vec<ContentBlock>)
    ensures
        r.deep_view() == answered_content(body@),
        answered_inputs_return(body@),
{
    let mut out: Vec<ContentBlock> = Vec::new();
    let blocks = match body.get("content") {
        Some(c) => c.as_array(),
        None => None,
    };
    match blocks {
        Some(blocks) => {
            let mut i: usize = 0;
            while i < blocks.len()
                invariant
                    i <= blocks.len(),
                    out.len() == i,
                    forall|k: int|
                        0 <= k < i ==> (#[trigger] out@[k]).deep_view() == answered_block(
                            blocks@[k]@,
                        ),
                    forall|k: int|
                        0 <= k < i ==> answered_input_returns(#[trigger] blocks.deep_view()[k]),
                decreases blocks.len() - i,
            {
                out.push(parse_answered_block(&blocks[i]));
                i += 1;
            }
            assert(out.deep_view() =~= blocks.deep_view().map_values(
                |b: JsonView| answered_block(b),
            ));
        },
        None => {
            assert(out.deep_view() =~= Seq::<ContentBlockView>::empty());
        },
    }
    out
}

/// Whether a tool is called in a content.
fn has_call(content: &Vec<ContentBlock>) -> (r: bool)
    ensures
        r == calls_tool(content.deep_view()),
{
    let mut i: usize = 0;
    while i < content.len()
        invariant
            i <= content.len(),
            forall|k: int| 0 <= k < i ==> !((#[trigger] content.deep_view()[k]) is ToolCall),
        decreases content.len() - i,
    {
        match &content[i] {
            ContentBlock::ToolCall { .. } => {
                assert(content.deep_view()[i as int] is ToolCall);
                return true;
            },
            _ => {},
        }
        i += 1;
    }
    false
}

/// An answer in the gateway's form. The arguments of a tool call with a plain input are read back
/// as that input.
pub fn from_anthropic_response(body: &Json, model: &str, alias: &str) -> (r: InternalResponse)
    ensures
        r.deep_view() == answer_of(body@, model@, alias@),
        answered_inputs_return(body@),
{
    let content = parse_answered_content(body);
    let finish_reason = if has_call(&content) {
        Some("tool_use".to_owned())
    } else {
        match body.str_field("stop_reason") {
            Some(s) => Some(s.to_owned()),
            None => None,
        }
    };
    let (prompt_tokens, completion_tokens) = match body.get("usage") {
        Some(usage) => (usage.uint_field("input_tokens"), usage.uint_field("output_tokens")),
        None => (None, None),
    };
    InternalResponse {
        id: body.str_field_or("id", "?"),
        model: model.to_owned(),
        alias: alias.to_owned(),
        content,
        usage: Usage { prompt_tokens, completion_tokens, total_tokens: None },
        finish_reason,
    }
}

/// What came of sending a request.
#[derive(Debug, PartialEq)]
pub enum MessagesReply {
    /// The request could not be sent, and why.
    NotSent(String),
    /// The backend answered with a body that is no JSON, and why.
    NotJson(String),
    /// The backend answered with a status, which is written out in `status_line`, and a body.
    Answered { status: u16, status_line: String, body: Json },
}

/// The error that a reply comes to, where it is no answer.
pub open spec fn reply_error(reply: MessagesReply) -> Option<GatewayErrorView> {
    match reply {
        MessagesReply::NotSent(why) => Some(
            GatewayErrorView::BackendError { status: 502, body: "request failed: "@ + why@ },
        ),
        MessagesReply::NotJson(why) => Some(
            GatewayErrorView::BackendError { status: 502, body: "parse: "@ + why@ },
        ),
        MessagesReply::Answered { status, status_line, body } => if success(status) {
            None
        } else {
            Some(
                GatewayErrorView::BackendError {
                    status: 502,
                    body: status_line@ + ": "@ + json_text(body@),
                },
            )
        },
    }
}

/// The response or the error that a reply comes to.
pub fn messages_outcome(reply: MessagesReply, model: &str, alias: &str) -> (r: Result<
    InternalResponse,
    GatewayError,
>)
    ensures
        match r {
            Ok(response) => {
                &&& reply_error(reply) is None
                &&& reply matches MessagesReply::Answered { body, .. }
                &&& response.deep_view() == answer_of(body@, model@, alias@)
            },
            Err(e) => reply_error(reply) == Some(e.deep_view()),
        },
{
    match reply {
        MessagesReply::NotSent(why) => Err(
            GatewayError::BackendError {
                status: 502,
                body: concat2("request failed: ", why.as_str()),
            },
        ),
        MessagesReply::NotJson(why) => Err(
            GatewayError::BackendError { status: 502, body: concat2("parse: ", why.as_str()) },
        ),
        MessagesReply::Answered { status, status_line, body } => if is_success(status) {
            Ok(from_anthropic_response(&body, model, alias))
        } else {
            let mut text = status_line;
            text.append(": ");
            text.append(render_json(&body).as_str());
            Err(GatewayError::BackendError { status: 502, body: text })
        },
    }
}

/// The error that the opening of a stream comes to, where it did not open.
pub open spec fn stream_error(reply: StreamReply) -> Option<GatewayErrorView> {
    match reply {
        StreamReply::NotSent(why) => Some(
            GatewayErrorView::BackendError { status: 502, body: "request failed: "@ + why@ },
        ),
        StreamReply::Refused { status, body } => Some(
            GatewayErrorView::BackendError { status, body: body_text(body.deep_view()) },
        ),
        StreamReply::Opened { .. } => None,
    }
}

/// What the opening of a stream comes to.
pub fn stream_outcome(reply: StreamReply) -> (r: Result<(), GatewayError>)
    ensures
        match r {
            Ok(_) => stream_error(reply) is None,
            Err(e) => stream_error(reply) == Some(e.deep_view()),
        },
{
    match reply {
        StreamReply::NotSent(why) => Err(
            GatewayError::BackendError {
                status: 502,
                body: concat2("request failed: ", why.as_str()),
            },
        ),
        StreamReply::Refused { status, body } => Err(
            GatewayError::BackendError { status, body: body_or_unreadable(body) },
        ),
        StreamReply::Opened { .. } => Ok(()),
    }
}

/// The adapter for Anthropic backends.
#[derive(Debug, Clone, Copy, PartialEq, Eq, Structural)]
pub struct AnthropicPassthroughAdapter;

impl BackendAdapter for AnthropicPassthroughAdapter {
    open spec fn adapter_name(&self) -> Seq<char> {
        "anthropic_passthrough"@
    }

    open spec fn request_url(&self, provider: ProviderConfig) -> Seq<char> {
        without_trailing(provider.base_url@, '/') + "/v1/messages"@
    }

    open spec fn request_headers(&self, provider: ProviderConfig, streaming: bool) -> Seq<
        (Seq<char>, Seq<char>),
    > {
        let content = seq![("Content-Type"@, "application/json"@)];
        let accept = if streaming {
            seq![("Accept"@, "text/event-stream"@)]
        } else {
            Seq::empty()
        };
        content + accept + auth_headers(provider)
    }

    open spec fn request_body(
        &self,
        request: InternalRequestView,
        model: Seq<char>,
        streaming: bool,
    ) -> JsonView {
        let body = anthropic_body(request, model);
        if streaming {
            put_some(body, "stream"@, Some(JsonView::Bool(true)))
        } else {
            body
        }
    }

    fn name(&self) -> (r: &'static str) {
        "anthropic_passthrough"
    }

    fn url(&self, provider: &ProviderConfig) -> (r: String) {
        concat2(strip_trailing(provider.base_url.as_str(), '/'), "/v1/messages")
    }

    fn headers(&self, provider: &ProviderConfig, streaming: bool) -> (r: Vec<(String, String)>) {
        let mut out = vec![("Content-Type".to_owned(), "application/json".to_owned())];
        if streaming {
            out.push(("Accept".to_owned(), "text/event-stream".to_owned()));
        }
        let mut auth = apply_auth(provider);
        out.append(&mut auth);
        assert(out.deep_view() =~= self.request_headers(*provider, streaming));
        out
    }

    fn body(&self, request: &InternalRequest, model: &str, streaming: bool) -> (r: Json) {
        let body = build_anthropic_body(request, model);
        if streaming {
            body.with_some("stream", Some(Json::Bool(true)))
        } else {
            body
        }
    }
}

} // verus!
