//! The OpenAI Chat Completions protocol on the client's side.

use vstd::prelude::*;

use crate::config::AppConfig;
use crate::gateway::types::{
    tokens_or_zero, ContentBlock, ContentBlockView, FunctionCall, FunctionCallView,
    ImageUrlContent, ImageUrlContentView, InternalMessage, InternalMessageView, InternalRequest,
    InternalRequestView, InternalResponse, InternalResponseView, InternalTool, InternalToolView,
    ResponseFormat, Role, StreamOptions, ToolChoice, ToolChoiceView,
};
use crate::json::{
    field, put_some, str_field, str_field_or, Json, JsonNumber, JsonView, NumberView,
};
use crate::json_codec::{
    json_parse, json_text, parse_json, plain_json, read_back_depth, render_json,
};
pub use crate::state::ActiveStreamsGuard;
use crate::text::{concat2, same_text};

verus! {

/// A request to `/v1/chat/completions`.
#[derive(Debug, PartialEq)]
pub struct OpenAIChatRequest {
    pub model: String,
    pub messages: Vec<OpenAIChatMessage>,
    pub stream: bool,
    pub temperature: Option<JsonNumber>,
    pub max_tokens: Option<u64>,
    pub tools: Option<Vec<OpenAIToolDef>>,
    pub tool_choice: Option<Json>,
    pub response_format: Option<Json>,
    pub top_p: Option<JsonNumber>,
    pub frequency_penalty: Option<JsonNumber>,
    pub presence_penalty: Option<JsonNumber>,
    pub seed: Option<u64>,
    pub n: Option<u32>,
    pub stop: Option<StopField>,
    pub stream_options: Option<OpenAIStreamOptions>,
    pub user: Option<String>,
}

/// The model of a request.
pub struct OpenAIChatRequestView {
    pub model: Seq<char>,
    pub messages: Seq<OpenAIChatMessageView>,
    pub stream: bool,
    pub temperature: Option<NumberView>,
    pub max_tokens: Option<u64>,
    pub tools: Option<Seq<OpenAIToolDefView>>,
    pub tool_choice: Option<JsonView>,
    pub response_format: Option<JsonView>,
    pub top_p: Option<NumberView>,
    pub frequency_penalty: Option<NumberView>,
    pub presence_penalty: Option<NumberView>,
    pub seed: Option<u64>,
    pub n: Option<u32>,
    pub stop: Option<StopFieldView>,
    pub stream_options: Option<OpenAIStreamOptions>,
    pub user: Option<Seq<char>>,
}

impl DeepView for OpenAIChatRequest {
    type V = OpenAIChatRequestView;

    open spec fn deep_view(&self) -> OpenAIChatRequestView {
        OpenAIChatRequestView {
            model: self.model@,
            messages: self.messages.deep_view(),
            stream: self.stream,
            temperature: self.temperature.deep_view(),
            max_tokens: self.max_tokens,
            tools: self.tools.deep_view(),
            tool_choice: self.tool_choice.deep_view(),
            response_format: self.response_format.deep_view(),
            top_p: self.top_p.deep_view(),
            frequency_penalty: self.frequency_penalty.deep_view(),
            presence_penalty: self.presence_penalty.deep_view(),
            seed: self.seed,
            n: self.n,
            stop: self.stop.deep_view(),
            stream_options: self.stream_options,
            user: self.user.deep_view(),
        }
    }
}

/// Options of a streamed answer.
#[derive(Debug, Clone, Copy, PartialEq, Eq, Structural)]
pub struct OpenAIStreamOptions {
    pub include_usage: Option<bool>,
}

/// Stop sequences: one, or several.
#[derive(Debug, Clone, PartialEq)]
pub enum StopField {
    Single(String),
    Array(Vec<String>),
}

/// The model of a stop field.
pub enum StopFieldView {
    Single(Seq<char>),
    Array(Seq<Seq<char>>),
}

impl DeepView for StopField {
    type V = StopFieldView;

    open spec fn deep_view(&self) -> StopFieldView {
        match *self {
            StopField::Single(s) => StopFieldView::Single(s@),
            StopField::Array(v) => StopFieldView::Array(v.deep_view()),
        }
    }
}

impl StopFieldView {
    /// The stop sequences.
    pub open spec fn all(self) -> Seq<Seq<char>> {
        match self {
            StopFieldView::Single(s) => seq![s],
            StopFieldView::Array(v) => v,
        }
    }
}

impl StopField {
    /// The stop sequences.
    pub fn into_vec(self) -> (r: Vec<String>)
        ensures
            r.deep_view() == self.deep_view().all(),
    {
        match self {
            StopField::Single(s) => {
                let out = vec![s];
                assert(out.deep_view() =~= seq![s@]);
                out
            },
            StopField::Array(v) => v,
        }
    }
}

/// A message of a request.
#[derive(Debug, PartialEq)]
pub struct OpenAIChatMessage {
    pub role: String,
    pub content: Json,
    pub tool_call_id: Option<String>,
    pub tool_calls: Option<Vec<Json>>,
}

/// The model of a request's message.
pub struct OpenAIChatMessageView {
    pub role: Seq<char>,
    pub content: JsonView,
    pub tool_call_id: Option<Seq<char>>,
    pub tool_calls: Option<Seq<JsonView>>,
}

impl DeepView for OpenAIChatMessage {
    type V = OpenAIChatMessageView;

    open spec fn deep_view(&self) -> OpenAIChatMessageView {
        OpenAIChatMessageView {
            role: self.role@,
            content: self.content@,
            tool_call_id: self.tool_call_id.deep_view(),
            tool_calls: self.tool_calls.deep_view(),
        }
    }
}

/// A tool definition of a request.
#[derive(Debug, PartialEq)]
pub struct OpenAIToolDef {
    pub kind: Option<String>,
    pub function: OpenAIToolFnDef,
}

/// The model of a tool definition.
pub struct OpenAIToolDefView {
    pub kind: Option<Seq<char>>,
    pub function: OpenAIToolFnDefView,
}

impl DeepView for OpenAIToolDef {
    type V = OpenAIToolDefView;

    open spec fn deep_view(&self) -> OpenAIToolDefView {
        OpenAIToolDefView { kind: self.kind.deep_view(), function: self.function.deep_view() }
    }
}

/// The function of a tool definition.
#[derive(Debug, PartialEq)]
pub struct OpenAIToolFnDef {
    pub name: String,
    pub description: Option<String>,
    pub parameters: Option<Json>,
}

/// The model of the function of a tool definition.
pub struct OpenAIToolFnDefView {
    pub name: Seq<char>,
    pub description: Option<Seq<char>>,
    pub parameters: Option<JsonView>,
}

impl DeepView for OpenAIToolFnDef {
    type V = OpenAIToolFnDefView;

    open spec fn deep_view(&self) -> OpenAIToolFnDefView {
        OpenAIToolFnDefView {
            name: self.name@,
            description: self.description.deep_view(),
            parameters: self.parameters.deep_view(),
        }
    }
}

/// The tool calls of a message, in order: those that name a function.
pub open spec fn openai_calls(calls: Seq<JsonView>) -> Seq<ContentBlockView>
    decreases calls.len(),
{
    if calls.len() == 0 {
        Seq::empty()
    } else {
        let front = openai_calls(calls.drop_last());
        let call = calls.last();
        match field(call, "function"@) {
            Some(function) => front.push(
                ContentBlockView::ToolCall {
                    id: str_field_or(call, "id"@, ""@),
                    function: FunctionCallView {
                        name: str_field_or(function, "name"@, ""@),
                        arguments: str_field_or(function, "arguments"@, ""@),
                    },
                },
            ),
            None => front,
        }
    }
}

/// The content block that an item of a message is, where it is of a known kind and whole.
pub open spec fn openai_item(item: JsonView) -> Option<ContentBlockView> {
    match str_field(item, "type"@) {
        None => None,
        Some(t) => if t == "text"@ {
            match str_field(item, "text"@) {
                Some(text) => Some(ContentBlockView::Text { text }),
                None => None,
            }
        } else if t == "image_url"@ {
            match field(item, "image_url"@) {
                Some(image) => Some(
                    ContentBlockView::ImageUrl {
                        image_url: ImageUrlContentView {
                            url: str_field_or(image, "url"@, ""@),
                            detail: None,
                        },
                    },
                ),
                None => None,
            }
        } else {
            None
        },
    }
}

/// The content blocks that the items of a message are, in order.
pub open spec fn openai_items(items: Seq<JsonView>) -> Seq<ContentBlockView>
    decreases items.len(),
{
    if items.len() == 0 {
        Seq::empty()
    } else {
        let front = openai_items(items.drop_last());
        match openai_item(items.last()) {
            Some(block) => front.push(block),
            None => front,
        }
    }
}

/// A content as text: a string as it is, anything else as JSON.
pub open spec fn content_text(content: JsonView) -> Seq<char> {
    match content {
        JsonView::Str(s) => s,
        other => json_text(other),
    }
}

/// The content of a message apart from its tool calls: the result of a tool, or the blocks of the
/// content.
pub open spec fn openai_body(m: OpenAIChatMessageView) -> Seq<ContentBlockView> {
    match m.tool_call_id {
        Some(id) => seq![
            ContentBlockView::ToolResult { tool_use_id: id, content: content_text(m.content) },
        ],
        None => match m.content {
            JsonView::Str(s) => if s.len() == 0 {
                Seq::empty()
            } else {
                seq![ContentBlockView::Text { text: s }]
            },
            JsonView::Array(items) => openai_items(items),
            _ => Seq::empty(),
        },
    }
}

/// The role of a message: that of the user where it is not that of the assistant or of a tool. The
/// system prompt stands apart from the messages, so that no message has the role of the system.
pub open spec fn openai_role(role: Seq<char>) -> Role {
    if role == "assistant"@ {
        Role::Assistant
    } else if role == "tool"@ {
        Role::Tool
    } else {
        Role::User
    }
}

/// A message in the gateway's form: its tool calls, then its content.
pub open spec fn openai_message(m: OpenAIChatMessageView) -> InternalMessageView {
    let calls = match m.tool_calls {
        Some(calls) => openai_calls(calls),
        None => Seq::empty(),
    };
    InternalMessageView { role: openai_role(m.role), content: calls + openai_body(m) }
}

/// The text of a message that can be the system prompt: a string, not empty, under the role
/// `system`.
pub open spec fn prompt_text(m: OpenAIChatMessageView) -> Option<Seq<char>> {
    match m.content {
        JsonView::Str(s) => if m.role == "system"@ && s.len() > 0 {
            Some(s)
        } else {
            None
        },
        _ => None,
    }
}

/// The position of the first message that can be the system prompt.
pub open spec fn first_prompt(ms: Seq<OpenAIChatMessageView>) -> Option<int>
    decreases ms.len(),
{
    if ms.len() == 0 {
        None
    } else {
        match first_prompt(ms.drop_last()) {
            Some(i) => Some(i),
            None => if prompt_text(ms.last()) is Some {
                Some(ms.len() - 1)
            } else {
                None
            },
        }
    }
}

/// The system prompt of a request: the text of the first message that can be it.
pub open spec fn openai_system(ms: Seq<OpenAIChatMessageView>) -> Option<Seq<char>> {
    match first_prompt(ms) {
        Some(i) => prompt_text(ms[i]),
        None => None,
    }
}

/// The messages of a request in the gateway's form: all but the one that is the system prompt.
pub open spec fn openai_messages(ms: Seq<OpenAIChatMessageView>) -> Seq<InternalMessageView> {
    let kept = match first_prompt(ms) {
        Some(i) => ms.remove(i),
        None => ms,
    };
    kept.map_values(|m: OpenAIChatMessageView| openai_message(m))
}

/// The first message that can be the system prompt is one of the messages, and none before it
/// can be.
pub proof fn lemma_first_prompt(ms: Seq<OpenAIChatMessageView>)
    ensures
        match first_prompt(ms) {
            Some(i) => 0 <= i < ms.len() && prompt_text(ms[i]) is Some && forall|k: int|
                0 <= k < i ==> prompt_text(#[trigger] ms[k]) is None,
            None => forall|k: int| 0 <= k < ms.len() ==> prompt_text(#[trigger] ms[k]) is None,
        },
    decreases ms.len(),
{
    if ms.len() > 0 {
        let front = ms.drop_last();
        lemma_first_prompt(front);
        match first_prompt(ms) {
            Some(i) => {
                assert forall|k: int| 0 <= k < i implies prompt_text(#[trigger] ms[k]) is None by {
                    assert(front[k] == ms[k]);
                }
            },
            None => {
                assert forall|k: int| 0 <= k < ms.len() implies prompt_text(#[trigger] ms[k])
                    is None by {
                    if k < ms.len() - 1 {
                        assert(front[k] == ms[k]);
                    }
                }
            },
        }
    }
}

/// The tool calls of a message, in order.
fn parse_calls(calls: &Vec<Json>) -> (r: Vec<ContentBlock>)
    ensures
        r.deep_view() == openai_calls(calls.deep_view()),
{
    let mut out: Vec<ContentBlock> = Vec::new();
    let mut i: usize = 0;
    assert(out.deep_view() =~= openai_calls(calls.deep_view().take(0)));
    while i < calls.len()
        invariant
            i <= calls.len(),
            out.deep_view() == openai_calls(calls.deep_view().take(i as int)),
        decreases calls.len() - i,
    {
        let ghost before = out.deep_view();
        let ghost longer = calls.deep_view().take(i + 1);
        assert(longer.drop_last() =~= calls.deep_view().take(i as int));
        assert(longer.last() == calls@[i as int]@);
        let call = &calls[i];
        match call.get("function") {
            Some(function) => {
                let block = ContentBlock::ToolCall {
                    id: call.str_field_or("id", ""),
                    function: FunctionCall {
                        name: function.str_field_or("name", ""),
                        arguments: function.str_field_or("arguments", ""),
                    },
                };
                out.push(block);
                assert(out.deep_view() =~= before.push(block.deep_view()));
            },
            None => {},
        }
        i += 1;
    }
    assert(calls.deep_view().take(i as int) =~= calls.deep_view());
    out
}

/// The content block that an item of a message is, where it is of a known kind and whole.
fn parse_item(item: &Json) -> (r: Option<ContentBlock>)
    ensures
        r.deep_view() == openai_item(item@),
{
    match item.str_field("type") {
        None => None,
        Some(t) => if same_text(t, "text") {
            match item.str_field("text") {
                Some(text) => Some(ContentBlock::Text { text: text.to_owned() }),
                None => None,
            }
        } else if same_text(t, "image_url") {
            match item.get("image_url") {
                Some(image) => Some(
                    ContentBlock::ImageUrl {
                        image_url: ImageUrlContent {
                            url: image.str_field_or("url", ""),
                            detail: None,
                        },
                    },
                ),
                None => None,
            }
        } else {
            None
        },
    }
}

/// The content blocks that the items of a message are, in order.
fn parse_items(items: &Vec<Json>) -> (r: Vec<ContentBlock>)
    ensures
        r.deep_view() == openai_items(items.deep_view()),
{
    let mut out: Vec<ContentBlock> = Vec::new();
    let mut i: usize = 0;
    assert(out.deep_view() =~= openai_items(items.deep_view().take(0)));
    while i < items.len()
        invariant
            i <= items.len(),
            out.deep_view() == openai_items(items.deep_view().take(i as int)),
        decreases items.len() - i,
    {
        let ghost before = out.deep_view();
        let ghost longer = items.deep_view().take(i + 1);
        assert(longer.drop_last() =~= items.deep_view().take(i as int));
        assert(longer.last() == items@[i as int]@);
        match parse_item(&items[i]) {
            Some(block) => {
                out.push(block);
                assert(out.deep_view() =~= before.push(block.deep_view()));
            },
            None => {},
        }
        i += 1;
    }
    assert(items.deep_view().take(i as int) =~= items.deep_view());
    out
}

/// The content of a message apart from its tool calls.
fn parse_body(m: &OpenAIChatMessage) -> (r: Vec<ContentBlock>)
    ensures
        r.deep_view() == openai_body(m.deep_view()),
{
    match &m.tool_call_id {
        Some(id) => {
            let content = match &m.content {
                Json::Str(s) => s.clone(),
                other => render_json(other),
            };
            let block = ContentBlock::ToolResult { tool_use_id: id.clone(), content };
            let ghost view = block.deep_view();
            let out = vec![block];
            assert(out.deep_view() =~= seq![view]);
            out
        },
        None => match &m.content {
            Json::Str(s) => {
                let mut out: Vec<ContentBlock> = Vec::new();
                assert(out.deep_view() =~= Seq::<ContentBlockView>::empty());
                if s.as_str().unicode_len() > 0 {
                    out.push(ContentBlock::Text { text: s.clone() });
                    assert(out.deep_view() =~= seq![ContentBlockView::Text { text: s@ }]);
                }
                out
            },
            Json::Array(_) => match m.content.as_array() {
                Some(items) => parse_items(items),
                None => Vec::new(),
            },
            _ => {
                let out: Vec<ContentBlock> = Vec::new();
                assert(out.deep_view() =~= Seq::<ContentBlockView>::empty());
                out
            },
        },
    }
}

/// A message in the gateway's form.
fn parse_message(m: &OpenAIChatMessage) -> (r: InternalMessage)
    ensures
        r.deep_view() == openai_message(m.deep_view()),
{
    let role = if same_text(m.role.as_str(), "assistant") {
        Role::Assistant
    } else if same_text(m.role.as_str(), "tool") {
        Role::Tool
    } else {
        Role::User
    };
    let mut content = match &m.tool_calls {
        Some(calls) => parse_calls(calls),
        None => {
            let none: Vec<ContentBlock> = Vec::new();
            assert(none.deep_view() =~= Seq::<ContentBlockView>::empty());
            none
        },
    };
    let ghost calls = content.deep_view();
    let mut body = parse_body(m);
    let ghost rest = body.deep_view();
    content.append(&mut body);
    assert(content.deep_view() =~= calls + rest);
    InternalMessage { role, content }
}

/// The text of a message that can be the system prompt.
fn prompt_of(m: &OpenAIChatMessage) -> (r: Option<String>)
    ensures
        r.deep_view() == prompt_text(m.deep_view()),
{
    match &m.content {
        Json::Str(s) => if same_text(m.role.as_str(), "system") && s.as_str().unicode_len() > 0 {
            Some(s.clone())
        } else {
            None
        },
        _ => None,
    }
}

/// The system prompt and the other messages of a request. The system prompt stands for itself, and
/// no message has the role of the system.
pub fn parse_openai_messages(messages: Vec<OpenAIChatMessage>) -> (r: (
    Option<String>,
    Vec<InternalMessage>,
))
    ensures
        r.0.deep_view() == openai_system(messages.deep_view()),
        r.1.deep_view() == openai_messages(messages.deep_view()),
        forall|i: int| 0 <= i < r.1.len() ==> (#[trigger] r.1@[i]).role != Role::System,
{
    let ghost all = messages.deep_view();
    let mut system: Option<String> = None;
    let mut out: Vec<InternalMessage> = Vec::new();
    let mut i: usize = 0;
    assert(out.deep_view() =~= openai_messages(all.take(0)));
    while i < messages.len()
        invariant
            i <= messages.len(),
            all == messages.deep_view(),
            system.deep_view() == openai_system(all.take(i as int)),
            out.deep_view() == openai_messages(all.take(i as int)),
        decreases messages.len() - i,
    {
        let ghost before = out.deep_view();
        let ghost done = all.take(i as int);
        let ghost longer = all.take(i + 1);
        let ghost m = all[i as int];
        proof {
            assert(longer.drop_last() =~= done);
            assert(longer.last() == m);
            lemma_first_prompt(done);
            lemma_first_prompt(longer);
        }
        let prompt = if system.is_none() {
            prompt_of(&messages[i])
        } else {
            None
        };
        match prompt {
            Some(text) => {
                system = Some(text);
                proof {
                    assert(longer.remove(i as int) =~= done);
                }
            },
            None => {
                out.push(parse_message(&messages[i]));
                proof {
                    assert(out.deep_view() =~= before.push(openai_message(m)));
                    match first_prompt(done) {
                        Some(k) => {
                            assert(longer[k] == done[k]);
                            assert(longer.remove(k) =~= done.remove(k).push(m));
                        },
                        None => {},
                    }
                    assert(out.deep_view() =~= openai_messages(longer));
                }
            },
        }
        i += 1;
    }
    assert(all.take(i as int) =~= all);
    assert forall|k: int| 0 <= k < out.len() implies (#[trigger] out@[k]).role != Role::System by {
        assert(out.deep_view()[k] == out@[k].deep_view());
    }
    (system, out)
}

/// The tool choice of a request, where it is a known one.
pub open spec fn openai_tool_choice(v: JsonView) -> Option<ToolChoiceView> {
    match v {
        JsonView::Str(s) => if s == "auto"@ {
            Some(ToolChoiceView::Auto)
        } else if s == "none"@ {
            Some(ToolChoiceView::NoTool)
        } else if s == "required"@ {
            Some(ToolChoiceView::Any)
        } else {
            None
        },
        _ => match (str_field(v, "type"@), field(v, "function"@)) {
            (Some(t), Some(function)) => match str_field(function, "name"@) {
                Some(name) => if t == "function"@ {
                    Some(ToolChoiceView::Specific(name))
                } else {
                    None
                },
                None => None,
            },
            _ => None,
        },
    }
}

/// The tool choice of a request, where it is a known one.
pub fn parse_openai_tool_choice(v: &Json) -> (r: Option<ToolChoice>)
    ensures
        r.deep_view() == openai_tool_choice(v@),
{
    match v {
        Json::Str(s) => if same_text(s.as_str(), "auto") {
            Some(ToolChoice::Auto)
        } else if same_text(s.as_str(), "none") {
            Some(ToolChoice::NoTool)
        } else if same_text(s.as_str(), "required") {
            Some(ToolChoice::Any)
        } else {
            None
        },
        _ => match (v.str_field("type"), v.get("function")) {
            (Some(t), Some(function)) => match function.str_field("name") {
                Some(name) => if same_text(t, "function") {
                    Some(ToolChoice::Specific(name.to_owned()))
                } else {
                    None
                },
                None => None,
            },
            _ => None,
        },
    }
}

/// The response format of a request, where it is a known one.
pub open spec fn openai_response_format(v: JsonView) -> Option<ResponseFormat> {
    match str_field(v, "type"@) {
        None => None,
        Some(t) => if t == "text"@ {
            Some(ResponseFormat::Text)
        } else if t == "json_object"@ {
            Some(ResponseFormat::JsonObject)
        } else {
            None
        },
    }
}

/// The response format of a request, where it is a known one.
pub fn parse_openai_response_format(v: &Json) -> (r: Option<ResponseFormat>)
    ensures
        r == openai_response_format(v@),
{
    match v.str_field("type") {
        None => None,
        Some(t) => if same_text(t, "text") {
            Some(ResponseFormat::Text)
        } else if same_text(t, "json_object") {
            Some(ResponseFormat::JsonObject)
        } else {
            None
        },
    }
}

/// The tools in the gateway's form, one for one.
pub open spec fn openai_tools(tools: Seq<OpenAIToolDefView>) -> Seq<InternalToolView> {
    tools.map_values(
        |t: OpenAIToolDefView|
            InternalToolView {
                name: t.function.name,
                description: t.function.description,
                parameters: t.function.parameters,
            },
    )
}

/// The tools in the gateway's form.
fn convert_tools(tools: Vec<OpenAIToolDef>) -> (r: Vec<InternalTool>)
    ensures
        r.deep_view() == openai_tools(tools.deep_view()),
{
    let ghost whole = tools@;
    let mut out: Vec<InternalTool> = Vec::new();
    for t in it: tools
        invariant
            it.seq() == whole,
            out.len() == it.index(),
            forall|k: int|
                0 <= k < it.index() ==> (#[trigger] out@[k]).deep_view() == (InternalToolView {
                    name: whole[k].function.name@,
                    description: whole[k].function.description.deep_view(),
                    parameters: whole[k].function.parameters.deep_view(),
                }),
    {
        out.push(
            InternalTool {
                name: t.function.name,
                description: t.function.description,
                parameters: t.function.parameters,
            },
        );
    }
    assert(out.deep_view() =~= openai_tools(tools.deep_view()));
    out
}

/// A request in the gateway's form. The fields that the protocol does not have are left out.
pub open spec fn openai_internal(req: OpenAIChatRequestView) -> InternalRequestView {
    InternalRequestView {
        model_alias: req.model,
        system: openai_system(req.messages),
        messages: openai_messages(req.messages),
        stream: req.stream,
        temperature: req.temperature,
        max_tokens: req.max_tokens,
        tools: match req.tools {
            Some(tools) => Some(openai_tools(tools)),
            None => None,
        },
        tool_choice: match req.tool_choice {
            Some(v) => openai_tool_choice(v),
            None => None,
        },
        response_format: match req.response_format {
            Some(v) => openai_response_format(v),
            None => None,
        },
        top_p: req.top_p,
        top_k: None,
        frequency_penalty: req.frequency_penalty,
        presence_penalty: req.presence_penalty,
        stop: match req.stop {
            Some(stop) => Some(stop.all()),
            None => None,
        },
        seed: req.seed,
        n: req.n,
        stream_options: match req.stream_options {
            Some(o) => Some(StreamOptions { include_usage: o.include_usage == Some(true) }),
            None => None,
        },
        user: req.user,
        metadata: None,
    }
}

/// A request in the gateway's form.
pub fn internal_request(req: OpenAIChatRequest) -> (r: InternalRequest)
    ensures
        r.deep_view() == openai_internal(req.deep_view()),
{
    let (system, messages) = parse_openai_messages(req.messages);
    let tools = match req.tools {
        Some(tools) => Some(convert_tools(tools)),
        None => None,
    };
    let tool_choice = match &req.tool_choice {
        Some(v) => parse_openai_tool_choice(v),
        None => None,
    };
    let response_format = match &req.response_format {
        Some(v) => parse_openai_response_format(v),
        None => None,
    };
    let stop = match req.stop {
        Some(stop) => Some(stop.into_vec()),
        None => None,
    };
    let stream_options = match req.stream_options {
        Some(o) => Some(StreamOptions { include_usage: o.include_usage.unwrap_or(false) }),
        None => None,
    };
    InternalRequest {
        model_alias: req.model,
        system,
        messages,
        stream: req.stream,
        temperature: req.temperature,
        max_tokens: req.max_tokens,
        tools,
        tool_choice,
        response_format,
        top_p: req.top_p,
        top_k: None,
        frequency_penalty: req.frequency_penalty,
        presence_penalty: req.presence_penalty,
        stop,
        seed: req.seed,
        n: req.n,
        stream_options,
        user: req.user,
        metadata: None,
    }
}

/// The answer to a request.
#[derive(Debug, PartialEq)]
pub struct OpenAIChatResponse {
    pub id: String,
    pub object: String,
    pub created: u64,
    pub model: String,
    pub choices: Vec<OpenAIChatChoice>,
    pub usage: Option<OpenAIUsageResponse>,
}

/// The model of an answer.
pub struct OpenAIChatResponseView {
    pub id: Seq<char>,
    pub object: Seq<char>,
    pub created: u64,
    pub model: Seq<char>,
    pub choices: Seq<OpenAIChatChoiceView>,
    pub usage: Option<OpenAIUsageResponse>,
}

impl DeepView for OpenAIChatResponse {
    type V = OpenAIChatResponseView;

    open spec fn deep_view(&self) -> OpenAIChatResponseView {
        OpenAIChatResponseView {
            id: self.id@,
            object: self.object@,
            created: self.created,
            model: self.model@,
            choices: self.choices.deep_view(),
            usage: self.usage,
        }
    }
}

/// A choice of an answer.
#[derive(Debug, PartialEq)]
pub struct OpenAIChatChoice {
    pub index: u32,
    pub message: OpenAIChatResponseMessage,
    pub finish_reason: Option<String>,
}

/// The model of a choice.
pub struct OpenAIChatChoiceView {
    pub index: u32,
    pub message: OpenAIChatResponseMessageView,
    pub finish_reason: Option<Seq<char>>,
}

impl DeepView for OpenAIChatChoice {
    type V = OpenAIChatChoiceView;

    open spec fn deep_view(&self) -> OpenAIChatChoiceView {
        OpenAIChatChoiceView {
            index: self.index,
            message: self.message.deep_view(),
            finish_reason: self.finish_reason.deep_view(),
        }
    }
}

/// The message of a choice.
#[derive(Debug, PartialEq)]
pub struct OpenAIChatResponseMessage {
    pub role: String,
    pub content: Option<String>,
    pub tool_calls: Option<Vec<Json>>,
}

/// The model of the message of a choice.
pub struct OpenAIChatResponseMessageView {
    pub role: Seq<char>,
    pub content: Option<Seq<char>>,
    pub tool_calls: Option<Seq<JsonView>>,
}

impl DeepView for OpenAIChatResponseMessage {
    type V = OpenAIChatResponseMessageView;

    open spec fn deep_view(&self) -> OpenAIChatResponseMessageView {
        OpenAIChatResponseMessageView {
            role: self.role@,
            content: self.content.deep_view(),
            tool_calls: self.tool_calls.deep_view(),
        }
    }
}

/// The tokens that an answer took.
#[derive(Debug, Clone, Copy, PartialEq, Eq, Structural)]
pub struct OpenAIUsageResponse {
    pub prompt_tokens: u64,
    pub completion_tokens: u64,
    pub total_tokens: u64,
}

/// The text of a content: that of its last text block.
pub open spec fn last_text(content: Seq<ContentBlockView>) -> Option<Seq<char>>
    decreases content.len(),
{
    if content.len() == 0 {
        None
    } else {
        match content.last() {
            ContentBlockView::Text { text } => Some(text),
            _ => last_text(content.drop_last()),
        }
    }
}

/// The JSON of a tool call.
pub open spec fn call_json(id: Seq<char>, function: FunctionCallView) -> JsonView {
    JsonView::Object(
        map![
            "id"@ => JsonView::Str(id),
            "type"@ => JsonView::Str("function"@),
            "function"@ => JsonView::Object(
                map![
                    "name"@ => JsonView::Str(function.name),
                    "arguments"@ => JsonView::Str(function.arguments),
                ],
            ),
        ],
    )
}

/// The JSON of the tool calls of a content, in order.
pub open spec fn call_jsons(content: Seq<ContentBlockView>) -> Seq<JsonView>
    decreases content.len(),
{
    if content.len() == 0 {
        Seq::empty()
    } else {
        let front = call_jsons(content.drop_last());
        match content.last() {
            ContentBlockView::ToolCall { id, function } => front.push(call_json(id, function)),
            _ => front,
        }
    }
}

/// The answer for a response, made at a time. Its model is the alias that the client asked for.
pub open spec fn openai_answer(r: InternalResponseView, created: u64) -> OpenAIChatResponseView {
    let calls = call_jsons(r.content);
    OpenAIChatResponseView {
        id: r.id,
        object: "chat.completion"@,
        created,
        model: r.alias,
        choices: seq![
            OpenAIChatChoiceView {
                index: 0,
                message: OpenAIChatResponseMessageView {
                    role: "assistant"@,
                    content: last_text(r.content),
                    tool_calls: if calls.len() > 0 {
                        Some(calls)
                    } else {
                        None
                    },
                },
                finish_reason: r.finish_reason,
            },
        ],
        usage: Some(
            OpenAIUsageResponse {
                prompt_tokens: tokens_or_zero(r.usage.prompt_tokens),
                completion_tokens: tokens_or_zero(r.usage.completion_tokens),
                total_tokens: tokens_or_zero(r.usage.total_tokens),
            },
        ),
    }
}

/// The answer for a response, made at a time in seconds since 1970.
pub fn to_openai_response(internal: InternalResponse, created: u64) -> (r: OpenAIChatResponse)
    ensures
        r.deep_view() == openai_answer(internal.deep_view(), created),
{
    let ghost all = internal.content.deep_view();
    let mut content: Option<String> = None;
    let mut calls: Vec<Json> = Vec::new();
    let mut i: usize = 0;
    assert(calls.deep_view() =~= call_jsons(all.take(0)));
    while i < internal.content.len()
        invariant
            i <= internal.content.len(),
            all == internal.content.deep_view(),
            content.deep_view() == last_text(all.take(i as int)),
            calls.deep_view() == call_jsons(all.take(i as int)),
        decreases internal.content.len() - i,
    {
        let ghost before = calls.deep_view();
        proof {
            assert(all.take(i + 1).drop_last() =~= all.take(i as int));
            assert(all.take(i + 1).last() == all[i as int]);
        }
        match &internal.content[i] {
            ContentBlock::Text { text } => {
                content = Some(text.clone());
            },
            ContentBlock::ToolCall { id, function } => {
                let call = Json::object().with("id", Json::text(id.as_str())).with(
                    "type",
                    Json::text("function"),
                ).with(
                    "function",
                    Json::object().with("name", Json::text(function.name.as_str())).with(
                        "arguments",
                        Json::text(function.arguments.as_str()),
                    ),
                );
                calls.push(call);
                assert(calls.deep_view() =~= before.push(call@));
            },
            _ => {},
        }
        i += 1;
    }
    assert(all.take(i as int) =~= all);
    let tool_calls = if calls.len() > 0 {
        Some(calls)
    } else {
        None
    };
    let choice = OpenAIChatChoice {
        index: 0,
        message: OpenAIChatResponseMessage { role: "assistant".to_owned(), content, tool_calls },
        finish_reason: internal.finish_reason,
    };
    let ghost choice_view = choice.deep_view();
    let choices = vec![choice];
    assert(choices.deep_view() =~= seq![choice_view]);
    OpenAIChatResponse {
        id: internal.id,
        object: "chat.completion".to_owned(),
        created,
        model: internal.alias,
        choices,
        usage: Some(
            OpenAIUsageResponse {
                prompt_tokens: internal.usage.prompt_tokens.unwrap_or(0),
                completion_tokens: internal.usage.completion_tokens.unwrap_or(0),
                total_tokens: internal.usage.total_tokens.unwrap_or(0),
            },
        ),
    }
}

/// A text, or null where there is none.
pub open spec fn text_or_null(s: Option<Seq<char>>) -> JsonView {
    match s {
        Some(t) => JsonView::Str(t),
        None => JsonView::Null,
    }
}

/// The JSON of a choice. The tool calls are left out where there are none.
pub open spec fn choice_json(c: OpenAIChatChoiceView) -> JsonView {
    JsonView::Object(
        map![
            "index"@ => JsonView::Number(NumberView::Int(c.index as int)),
            "message"@ => put_some(
                JsonView::Object(
                    map![
                        "role"@ => JsonView::Str(c.message.role),
                        "content"@ => text_or_null(c.message.content),
                    ],
                ),
                "tool_calls"@,
                match c.message.tool_calls {
                    Some(calls) => Some(JsonView::Array(calls)),
                    None => None,
                },
            ),
            "finish_reason"@ => text_or_null(c.finish_reason),
        ],
    )
}

/// The JSON of an answer.
pub open spec fn chat_json(r: OpenAIChatResponseView) -> JsonView {
    JsonView::Object(
        map![
            "id"@ => JsonView::Str(r.id),
            "object"@ => JsonView::Str(r.object),
            "created"@ => JsonView::Number(NumberView::Int(r.created as int)),
            "model"@ => JsonView::Str(r.model),
            "choices"@ => JsonView::Array(
                r.choices.map_values(|c: OpenAIChatChoiceView| choice_json(c)),
            ),
            "usage"@ => match r.usage {
                Some(u) => JsonView::Object(
                    map![
                        "prompt_tokens"@ => JsonView::Number(
                            NumberView::Int(u.prompt_tokens as int),
                        ),
                        "completion_tokens"@ => JsonView::Number(
                            NumberView::Int(u.completion_tokens as int),
                        ),
                        "total_tokens"@ => JsonView::Number(NumberView::Int(u.total_tokens as int)),
                    ],
                ),
                None => JsonView::Null,
            },
        ],
    )
}

/// A text, or null where there is none.
fn json_text_or_null(s: &Option<String>) -> (r: Json)
    ensures
        r@ == text_or_null(s.deep_view()),
{
    match s {
        Some(t) => Json::text(t.as_str()),
        None => Json::Null,
    }
}

/// A copy of a run of values.
fn copy_values(items: &Vec<Json>) -> (r: Vec<Json>)
    ensures
        r.deep_view() == items.deep_view(),
{
    let mut out: Vec<Json> = Vec::new();
    let mut i: usize = 0;
    while i < items.len()
        invariant
            i <= items.len(),
            out.len() == i,
            forall|k: int| 0 <= k < i ==> (#[trigger] out@[k])@ == items@[k]@,
        decreases items.len() - i,
    {
        out.push(items[i].clone());
        i += 1;
    }
    assert(out.deep_view() =~= items.deep_view());
    out
}

impl OpenAIChatChoice {
    /// The JSON of the choice.
    pub fn to_json(&self) -> (r: Json)
        ensures
            r@ == choice_json(self.deep_view()),
    {
        let tool_calls = match &self.message.tool_calls {
            Some(calls) => Some(Json::array(copy_values(calls))),
            None => None,
        };
        let message = Json::object().with("role", Json::text(self.message.role.as_str())).with(
            "content",
            json_text_or_null(&self.message.content),
        ).with_some("tool_calls", tool_calls);
        Json::object().with("index", Json::uint(self.index as u64)).with("message", message).with(
            "finish_reason",
            json_text_or_null(&self.finish_reason),
        )
    }
}

impl OpenAIChatResponse {
    /// The JSON of the answer.
    pub fn to_json(&self) -> (r: Json)
        ensures
            r@ == chat_json(self.deep_view()),
    {
        let mut choices: Vec<Json> = Vec::new();
        let mut i: usize = 0;
        while i < self.choices.len()
            invariant
                i <= self.choices.len(),
                choices.len() == i,
                forall|k: int|
                    0 <= k < i ==> (#[trigger] choices@[k])@ == choice_json(
                        self.choices@[k].deep_view(),
                    ),
            decreases self.choices.len() - i,
        {
            choices.push(self.choices[i].to_json());
            i += 1;
        }
        assert(choices.deep_view() =~= self.choices.deep_view().map_values(
            |c: OpenAIChatChoiceView| choice_json(c),
        ));
        let usage = match &self.usage {
            Some(u) => Json::object().with("prompt_tokens", Json::uint(u.prompt_tokens)).with(
                "completion_tokens",
                Json::uint(u.completion_tokens),
            ).with("total_tokens", Json::uint(u.total_tokens)),
            None => Json::Null,
        };
        Json::object().with("id", Json::text(self.id.as_str())).with(
            "object",
            Json::text(self.object.as_str()),
        ).with("created", Json::uint(self.created)).with(
            "model",
            Json::text(self.model.as_str()),
        ).with("choices", Json::array(choices)).with("usage", usage)
    }
}

/// The list of models.
#[derive(Debug, PartialEq)]
pub struct OpenAIModelsResponse {
    pub object: String,
    pub data: Vec<OpenAIModelItem>,
}

/// A model of the list.
#[derive(Debug, PartialEq)]
pub struct OpenAIModelItem {
    pub id: String,
    pub object: String,
    pub created: u64,
    pub owned_by: String,
}

/// The model of an item of the list.
pub struct OpenAIModelItemView {
    pub id: Seq<char>,
    pub object: Seq<char>,
    pub created: u64,
    pub owned_by: Seq<char>,
}

impl DeepView for OpenAIModelItem {
    type V = OpenAIModelItemView;

    open spec fn deep_view(&self) -> OpenAIModelItemView {
        OpenAIModelItemView {
            id: self.id@,
            object: self.object@,
            created: self.created,
            owned_by: self.owned_by@,
        }
    }
}

/// The item of the list for an alias.
pub open spec fn model_item(alias: Seq<char>, created: u64) -> OpenAIModelItemView {
    OpenAIModelItemView { id: alias, object: "model"@, created, owned_by: "mygate"@ }
}

/// The list of models: one for each alias, in the order of the configuration.
pub fn list_models(config: &AppConfig, created: u64) -> (r: OpenAIModelsResponse)
    ensures
        r.object@ == "list"@,
        r.data.deep_view() == config.aliases.order().map_values(
            |alias: Seq<char>| model_item(alias, created),
        ),
        config.aliases.order().no_duplicates(),
        config.aliases.order().to_set() == config.aliases@.dom(),
{
    let names = config.aliases.names();
    let ghost order = names.deep_view();
    let mut data: Vec<OpenAIModelItem> = Vec::new();
    for name in it: names
        invariant
            it.seq() == names@,
            order == names.deep_view(),
            data.len() == it.index(),
            forall|k: int|
                0 <= k < it.index() ==> (#[trigger] data@[k]).deep_view() == model_item(
                    order[k],
                    created,
                ),
    {
        data.push(
            OpenAIModelItem {
                id: name,
                object: "model".to_owned(),
                created,
                owned_by: "mygate".to_owned(),
            },
        );
    }
    assert(data.deep_view() =~= order.map_values(|alias: Seq<char>| model_item(alias, created)));
    OpenAIModelsResponse { object: "list".to_owned(), data }
}

/// The JSON of an item of the list.
pub open spec fn model_item_json(m: OpenAIModelItemView) -> JsonView {
    JsonView::Object(
        map![
            "id"@ => JsonView::Str(m.id),
            "object"@ => JsonView::Str(m.object),
            "created"@ => JsonView::Number(NumberView::Int(m.created as int)),
            "owned_by"@ => JsonView::Str(m.owned_by),
        ],
    )
}

impl OpenAIModelsResponse {
    /// The JSON of the list.
    pub fn to_json(&self) -> (r: Json)
        ensures
            r@ == JsonView::Object(
                map![
                    "object"@ => JsonView::Str(self.object@),
                    "data"@ => JsonView::Array(
                        self.data.deep_view().map_values(|m: OpenAIModelItemView| model_item_json(m)),
                    ),
                ],
            ),
    {
        let mut data: Vec<Json> = Vec::new();
        let mut i: usize = 0;
        while i < self.data.len()
            invariant
                i <= self.data.len(),
                data.len() == i,
                forall|k: int|
                    0 <= k < i ==> (#[trigger] data@[k])@ == model_item_json(
                        self.data@[k].deep_view(),
                    ),
            decreases self.data.len() - i,
        {
            let m = &self.data[i];
            data.push(
                Json::object().with("id", Json::text(m.id.as_str())).with(
                    "object",
                    Json::text(m.object.as_str()),
                ).with("created", Json::uint(m.created)).with(
                    "owned_by",
                    Json::text(m.owned_by.as_str()),
                ),
            );
            i += 1;
        }
        assert(data.deep_view() =~= self.data.deep_view().map_values(
            |m: OpenAIModelItemView| model_item_json(m),
        ));
        Json::object().with("object", Json::text(self.object.as_str())).with(
            "data",
            Json::array(data),
        )
    }
}

/// A chunk of a stream with the alias as its model: an object's member `model` is replaced where
/// it is a string, and kept where it is not. What is no object, or has no such member, is no such
/// chunk.
pub open spec fn with_model(chunk: JsonView, alias: Seq<char>) -> Option<JsonView> {
    match chunk {
        JsonView::Object(m) => if !m.contains_key("model"@) {
            None
        } else if m["model"@] is Str {
            Some(JsonView::Object(m.insert("model"@, JsonView::Str(alias))))
        } else {
            Some(chunk)
        },
        _ => None,
    }
}

/// A chunk of a stream with the alias as its model.
pub fn replace_model(chunk: Json, alias: &str) -> (r: Option<Json>)
    ensures
        r.deep_view() == with_model(chunk@, alias@),
{
    let is_text = match chunk.get("model") {
        Some(m) => m.as_str().is_some(),
        None => {
            return None;
        },
    };
    if is_text {
        Some(chunk.with("model", Json::text(alias)))
    } else {
        Some(chunk)
    }
}

/// The text of a chunk with the alias as its model. There is none where the chunk is no JSON object
/// with a member `model`.
pub open spec fn chunk_relabelled(data: Seq<char>, alias: Seq<char>) -> Option<Seq<char>> {
    match json_parse(data) {
        Some(chunk) => match with_model(chunk, alias) {
            Some(replaced) => Some(json_text(replaced)),
            None => None,
        },
        None => None,
    }
}

/// The text of a chunk with the alias as its model. Whatever model the backend names is replaced.
/// There is none where the chunk is no JSON object with a member `model`. A plain chunk is read
/// back from the text as it was, but for its model, and a second pass changes nothing.
pub fn transform_model_in_chunk(data: &str, _target_model: &str, alias: &str) -> (r: Option<String>)
    ensures
        r.deep_view() == chunk_relabelled(data@, alias@),
        r matches Some(text) ==> {
            &&& json_parse(data@) matches Some(chunk)
            &&& with_model(chunk, alias@) matches Some(replaced)
            &&& plain_json(replaced, read_back_depth()) ==> {
                &&& json_parse(text@) == Some(replaced)
                &&& chunk_relabelled(text@, alias@) == Some(text@)
            }
        },
{
    match parse_json(data) {
        Some(chunk) => {
            proof {
                law_model_replaced_once(chunk@, alias@);
            }
            match replace_model(chunk, alias) {
                Some(replaced) => Some(render_json(&replaced)),
                None => None,
            }
        },
        None => None,
    }
}

/// Putting the alias into a chunk changes nothing but its model, and puts it there wherever the
/// model was a string.
pub proof fn law_only_model_replaced(chunk: JsonView, alias: Seq<char>)
    ensures
        with_model(chunk, alias) is Some <==> field(chunk, "model"@) is Some,
        with_model(chunk, alias) matches Some(replaced) ==> {
            &&& forall|key: Seq<char>|
                key != "model"@ ==> #[trigger] field(replaced, key) == field(chunk, key)
            &&& str_field(chunk, "model"@) is Some ==> str_field(replaced, "model"@) == Some(alias)
            &&& str_field(chunk, "model"@) is None ==> replaced == chunk
        },
{
}

/// Putting the alias into a chunk that has it changes nothing.
pub proof fn law_model_replaced_once(chunk: JsonView, alias: Seq<char>)
    ensures
        with_model(chunk, alias) matches Some(replaced) ==> with_model(replaced, alias) == Some(
            replaced,
        ),
{
    match chunk {
        JsonView::Object(m) => {
            let alias_json = JsonView::Str(alias);
            let once = m.insert("model"@, alias_json);
            assert(once.insert("model"@, alias_json) =~= once);
        },
        _ => {},
    }
}

/// What becomes of a call of the reload endpoint.
#[derive(Debug, Clone, Copy, PartialEq, Eq, Structural)]
pub enum ReloadAccess {
    /// No token is configured.
    Disabled,
    /// The token is missing or wrong.
    Denied,
    /// The token is right.
    Granted,
}

/// What becomes of a call of the reload endpoint, given the configured token and the one that was
/// sent. An empty token counts as none configured.
pub open spec fn access(expected: Option<Seq<char>>, sent: Option<Seq<char>>) -> ReloadAccess {
    match expected {
        None => ReloadAccess::Disabled,
        Some(token) => if token.len() == 0 {
            ReloadAccess::Disabled
        } else if sent == Some(token) {
            ReloadAccess::Granted
        } else {
            ReloadAccess::Denied
        },
    }
}

/// What becomes of a call of the reload endpoint.
pub fn reload_access(expected: &Option<String>, sent: Option<&str>) -> (r: ReloadAccess)
    ensures
        r == access(expected.deep_view(), sent.deep_view()),
{
    match expected {
        None => ReloadAccess::Disabled,
        Some(token) => if token.as_str().unicode_len() == 0 {
            ReloadAccess::Disabled
        } else {
            match sent {
                Some(t) => if same_text(t, token.as_str()) {
                    ReloadAccess::Granted
                } else {
                    ReloadAccess::Denied
                },
                None => ReloadAccess::Denied,
            }
        },
    }
}

/// The status and the text of the refusal of a call of the reload endpoint, where it is refused.
pub fn reload_refusal(access: ReloadAccess) -> (r: Option<(u16, String)>)
    ensures
        r.deep_view() == (match access {
            ReloadAccess::Disabled => Some((404u16, "admin endpoint disabled"@)),
            ReloadAccess::Denied => Some((401u16, "missing or invalid X-Admin-Token"@)),
            ReloadAccess::Granted => None,
        }),
{
    match access {
        ReloadAccess::Disabled => Some((404, "admin endpoint disabled".to_owned())),
        ReloadAccess::Denied => Some((401, "missing or invalid X-Admin-Token".to_owned())),
        ReloadAccess::Granted => None,
    }
}

/// The JSON that a reload is answered with when it succeeds.
pub fn reload_success(aliases: usize, providers: usize) -> (r: Json)
    ensures
        r@ == JsonView::Object(
            map![
                "status"@ => JsonView::Str("ok"@),
                "aliases"@ => JsonView::Number(NumberView::Int(aliases as int)),
                "providers"@ => JsonView::Number(NumberView::Int(providers as int)),
            ],
        ),
{
    Json::object().with("status", Json::text("ok")).with(
        "aliases",
        Json::uint(aliases as u64),
    ).with("providers", Json::uint(providers as u64))
}

/// The status and the text that a reload is answered with when it fails.
pub fn reload_failure(error: &str) -> (r: (u16, String))
    ensures
        r.0 == 500,
        r.1@ == "reload error: "@ + error@,
{
    (500, concat2("reload error: ", error))
}

} // verus!
