//! The Anthropic Messages protocol on the client's side.

use vstd::prelude::*;

use crate::gateway::types::{
    calls_tool, tokens_or_zero, ContentBlock, ContentBlockView, DocumentSource,
    DocumentSourceView, FunctionCall, FunctionCallView, ImageUrlContent, ImageUrlContentView,
    InternalMessage, InternalMessageView, InternalRequest, InternalRequestView, InternalResponse,
    InternalResponseView, InternalTool, InternalToolView, Role, ToolChoice, ToolChoiceView,
};
use crate::json::{
    field, put_some, str_field, str_field_or, Json, JsonNumber, JsonView, NumberView,
};
use crate::json_codec::{
    json_parse, json_text, parse_json, plain_json, read_back_depth, render_json,
};
use crate::names::NameMap;
use crate::text::{join, joined, same_text};

verus! {

/// A request to `/v1/messages`.
#[derive(Debug, PartialEq)]
pub struct AnthropicMessagesRequest {
    pub model: String,
    pub messages: Vec<AnthropicMessage>,
    pub stream: bool,
    pub max_tokens: Option<u64>,
    pub temperature: Option<JsonNumber>,
    pub system: Option<Json>,
    pub tools: Option<Vec<AnthropicToolDef>>,
    pub tool_choice: Option<Json>,
    pub metadata: Option<NameMap<String>>,
    pub top_p: Option<JsonNumber>,
    pub top_k: Option<u32>,
    pub stop_sequences: Option<Vec<String>>,
}

/// The model of a request.
pub struct AnthropicMessagesRequestView {
    pub model: Seq<char>,
    pub messages: Seq<AnthropicMessageView>,
    pub stream: bool,
    pub max_tokens: Option<u64>,
    pub temperature: Option<NumberView>,
    pub system: Option<JsonView>,
    pub tools: Option<Seq<AnthropicToolDefView>>,
    pub tool_choice: Option<JsonView>,
    pub metadata: Option<Map<Seq<char>, Seq<char>>>,
    pub top_p: Option<NumberView>,
    pub top_k: Option<u32>,
    pub stop_sequences: Option<Seq<Seq<char>>>,
}

impl DeepView for AnthropicMessagesRequest {
    type V = AnthropicMessagesRequestView;

    open spec fn deep_view(&self) -> AnthropicMessagesRequestView {
        AnthropicMessagesRequestView {
            model: self.model@,
            messages: self.messages.deep_view(),
            stream: self.stream,
            max_tokens: self.max_tokens,
            temperature: self.temperature.deep_view(),
            system: self.system.deep_view(),
            tools: self.tools.deep_view(),
            tool_choice: self.tool_choice.deep_view(),
            metadata: self.metadata.deep_view(),
            top_p: self.top_p.deep_view(),
            top_k: self.top_k,
            stop_sequences: self.stop_sequences.deep_view(),
        }
    }
}

/// A message of a request.
#[derive(Debug, PartialEq)]
pub struct AnthropicMessage {
    pub role: String,
    pub content: Json,
}

/// The model of a request's message.
pub struct AnthropicMessageView {
    pub role: Seq<char>,
    pub content: JsonView,
}

impl DeepView for AnthropicMessage {
    type V = AnthropicMessageView;

    open spec fn deep_view(&self) -> AnthropicMessageView {
        AnthropicMessageView { role: self.role@, content: self.content@ }
    }
}

/// A tool definition of a request.
#[derive(Debug, PartialEq)]
pub struct AnthropicToolDef {
    pub name: String,
    pub description: Option<String>,
    pub input_schema: Option<Json>,
}

/// The model of a tool definition.
pub struct AnthropicToolDefView {
    pub name: Seq<char>,
    pub description: Option<Seq<char>>,
    pub input_schema: Option<JsonView>,
}

impl DeepView for AnthropicToolDef {
    type V = AnthropicToolDefView;

    open spec fn deep_view(&self) -> AnthropicToolDefView {
        AnthropicToolDefView {
            name: self.name@,
            description: self.description.deep_view(),
            input_schema: self.input_schema.deep_view(),
        }
    }
}

/// The answer to a request.
#[derive(Debug, PartialEq)]
pub struct AnthropicMessagesResponse {
    pub id: String,
    pub kind: String,
    pub role: String,
    pub model: String,
    pub content: Vec<AnthropicContentBlock>,
    pub usage: Option<AnthropicUsage>,
    pub stop_reason: Option<String>,
}

/// The model of an answer.
pub struct AnthropicMessagesResponseView {
    pub id: Seq<char>,
    pub kind: Seq<char>,
    pub role: Seq<char>,
    pub model: Seq<char>,
    pub content: Seq<AnthropicContentBlockView>,
    pub usage: Option<AnthropicUsage>,
    pub stop_reason: Option<Seq<char>>,
}

impl DeepView for AnthropicMessagesResponse {
    type V = AnthropicMessagesResponseView;

    open spec fn deep_view(&self) -> AnthropicMessagesResponseView {
        AnthropicMessagesResponseView {
            id: self.id@,
            kind: self.kind@,
            role: self.role@,
            model: self.model@,
            content: self.content.deep_view(),
            usage: self.usage,
            stop_reason: self.stop_reason.deep_view(),
        }
    }
}

/// A content block of an answer.
#[derive(Debug, PartialEq)]
pub enum AnthropicContentBlock {
    Text { text: String },
    ToolUse { id: String, name: String, input: Json },
}

/// The model of a content block of an answer.
pub enum AnthropicContentBlockView {
    Text { text: Seq<char> },
    ToolUse { id: Seq<char>, name: Seq<char>, input: JsonView },
}

impl DeepView for AnthropicContentBlock {
    type V = AnthropicContentBlockView;

    open spec fn deep_view(&self) -> AnthropicContentBlockView {
        match *self {
            AnthropicContentBlock::Text { text } => AnthropicContentBlockView::Text { text: text@ },
            AnthropicContentBlock::ToolUse { id, name, input } => {
                AnthropicContentBlockView::ToolUse { id: id@, name: name@, input: input@ }
            },
        }
    }
}

/// The tokens that an answer took.
#[derive(Debug, Clone, Copy, PartialEq, Eq, Structural)]
pub struct AnthropicUsage {
    pub input_tokens: u64,
    pub output_tokens: u64,
}

/// The texts of those blocks that have one.
pub open spec fn block_texts(blocks: Seq<JsonView>) -> Seq<Seq<char>>
    decreases blocks.len(),
{
    if blocks.len() == 0 {
        Seq::empty()
    } else {
        let front = block_texts(blocks.drop_last());
        match str_field(blocks.last(), "text"@) {
            Some(text) => front.push(text),
            None => front,
        }
    }
}

/// The text of the field `system`: a string as it is, an array by its texts, a line each, and
/// anything else as JSON.
pub open spec fn system_text(system: JsonView) -> Seq<char> {
    match system {
        JsonView::Str(s) => s,
        JsonView::Array(blocks) => joined(block_texts(blocks), "\n"@),
        other => json_text(other),
    }
}

/// The system prompt of a request: none where it is empty.
pub open spec fn system_prompt(system: Option<JsonView>) -> Option<Seq<char>> {
    match system {
        Some(v) => if system_text(v).len() == 0 {
            None
        } else {
            Some(system_text(v))
        },
        None => None,
    }
}

/// The URL of an image: the data as a data URL, else the source's own URL.
pub open spec fn image_source_url(source: JsonView) -> Seq<char> {
    match str_field(source, "data"@) {
        Some(data) => "data:"@ + str_field_or(source, "media_type"@, "image/png"@) + ";base64,"@
            + data,
        None => str_field_or(source, "url"@, ""@),
    }
}

/// The source of a document, where it is of a known kind.
pub open spec fn document_source(source: JsonView) -> Option<DocumentSourceView> {
    let t = str_field_or(source, "type"@, ""@);
    if t == "base64"@ {
        Some(
            DocumentSourceView::Base64 {
                media_type: str_field_or(source, "media_type"@, "application/pdf"@),
                data: str_field_or(source, "data"@, ""@),
            },
        )
    } else if t == "text"@ {
        Some(
            DocumentSourceView::Text {
                media_type: str_field_or(source, "media_type"@, "text/plain"@),
                data: str_field_or(source, "data"@, ""@),
            },
        )
    } else if t == "url"@ {
        match str_field(source, "url"@) {
            Some(url) => Some(DocumentSourceView::Url { url }),
            None => None,
        }
    } else {
        None
    }
}

/// The input of a tool call: an empty object where none is given.
pub open spec fn tool_input(block: JsonView) -> JsonView {
    match field(block, "input"@) {
        Some(input) => input,
        None => JsonView::Object(Map::empty()),
    }
}

/// The text of a tool's result: a string as it is, anything else as JSON.
pub open spec fn tool_result_text(block: JsonView) -> Seq<char> {
    match field(block, "content"@) {
        Some(JsonView::Str(s)) => s,
        Some(other) => json_text(other),
        None => ""@,
    }
}

/// The content block that a block of a message is, where it is of a known kind and whole.
pub open spec fn anthropic_block(block: JsonView) -> Option<ContentBlockView> {
    let t = str_field_or(block, "type"@, "text"@);
    if t == "text"@ {
        match str_field(block, "text"@) {
            Some(text) => Some(ContentBlockView::Text { text }),
            None => None,
        }
    } else if t == "image"@ {
        match field(block, "source"@) {
            Some(source) => Some(
                ContentBlockView::ImageUrl {
                    image_url: ImageUrlContentView { url: image_source_url(source), detail: None },
                },
            ),
            None => None,
        }
    } else if t == "tool_use"@ {
        Some(
            ContentBlockView::ToolCall {
                id: str_field_or(block, "id"@, ""@),
                function: FunctionCallView {
                    name: str_field_or(block, "name"@, ""@),
                    arguments: json_text(tool_input(block)),
                },
            },
        )
    } else if t == "tool_result"@ {
        Some(
            ContentBlockView::ToolResult {
                tool_use_id: str_field_or(block, "tool_use_id"@, ""@),
                content: tool_result_text(block),
            },
        )
    } else if t == "document"@ {
        match field(block, "source"@) {
            Some(source) => match document_source(source) {
                Some(source) => Some(ContentBlockView::Document { source }),
                None => None,
            },
            None => None,
        }
    } else {
        None
    }
}

/// Whether a block of a message is a tool call with an input that is plain.
pub open spec fn calls_with_plain_input(block: JsonView) -> bool {
    str_field_or(block, "type"@, "text"@) == "tool_use"@ && plain_json(
        tool_input(block),
        read_back_depth(),
    )
}

/// Whether the arguments that a tool call is given are read back as its input.
pub open spec fn input_returns(block: JsonView) -> bool {
    json_parse(json_text(tool_input(block))) == Some(tool_input(block))
}

/// Whether the arguments of each tool call with a plain input are read back as that input.
pub open spec fn inputs_return(content: JsonView) -> bool {
    match content {
        JsonView::Array(blocks) => forall|i: int|
            0 <= i < blocks.len() && calls_with_plain_input(#[trigger] blocks[i]) ==> input_returns(
                blocks[i],
            ),
        _ => true,
    }
}

/// The content blocks of a message, in order.
pub open spec fn anthropic_blocks(blocks: Seq<JsonView>) -> Seq<ContentBlockView>
    decreases blocks.len(),
{
    if blocks.len() == 0 {
        Seq::empty()
    } else {
        let front = anthropic_blocks(blocks.drop_last());
        match anthropic_block(blocks.last()) {
            Some(block) => front.push(block),
            None => front,
        }
    }
}

/// The content of a message: a string is one text block, an array its blocks, and anything else
/// its JSON as one text block.
pub open spec fn anthropic_content(content: JsonView) -> Seq<ContentBlockView> {
    match content {
        JsonView::Str(s) => seq![ContentBlockView::Text { text: s }],
        JsonView::Array(blocks) => anthropic_blocks(blocks),
        other => seq![ContentBlockView::Text { text: json_text(other) }],
    }
}

/// The role of a message: that of the user where it is not that of the assistant.
pub open spec fn anthropic_role(role: Seq<char>) -> Role {
    if role == "assistant"@ {
        Role::Assistant
    } else {
        Role::User
    }
}

/// A message in the gateway's form.
pub open spec fn anthropic_message(m: AnthropicMessageView) -> InternalMessageView {
    InternalMessageView { role: anthropic_role(m.role), content: anthropic_content(m.content) }
}

/// The messages in the gateway's form, one for one.
pub open spec fn anthropic_messages(ms: Seq<AnthropicMessageView>) -> Seq<InternalMessageView> {
    ms.map_values(|m: AnthropicMessageView| anthropic_message(m))
}

/// The texts of those blocks that have one.
fn texts_of(blocks: &Vec<Json>) -> (r: Vec<String>)
    ensures
        r.deep_view() == block_texts(blocks.deep_view()),
{
    let mut out: Vec<String> = Vec::new();
    let mut i: usize = 0;
    assert(out.deep_view() =~= block_texts(blocks.deep_view().take(0)));
    while i < blocks.len()
        invariant
            i <= blocks.len(),
            out.deep_view() == block_texts(blocks.deep_view().take(i as int)),
        decreases blocks.len() - i,
    {
        let ghost before = out.deep_view();
        let ghost longer = blocks.deep_view().take(i + 1);
        assert(longer.drop_last() =~= blocks.deep_view().take(i as int));
        assert(longer.last() == blocks@[i as int]@);
        match blocks[i].str_field("text") {
            Some(text) => {
                out.push(text.to_owned());
                assert(out.deep_view() =~= before.push(text@));
            },
            None => {},
        }
        i += 1;
    }
    assert(blocks.deep_view().take(i as int) =~= blocks.deep_view());
    out
}

/// The system prompt of a request.
fn parse_system(system: &Option<Json>) -> (r: Option<String>)
    ensures
        r.deep_view() == system_prompt(system.deep_view()),
{
    match system {
        None => None,
        Some(v) => {
            let text = match v {
                Json::Str(s) => s.clone(),
                Json::Array(_) => match v.as_array() {
                    Some(blocks) => join(&texts_of(blocks), "\n"),
                    None => String::new(),
                },
                other => render_json(other),
            };
            if text.unicode_len() == 0 {
                None
            } else {
                Some(text)
            }
        },
    }
}

/// The URL of an image.
fn parse_image_source(source: &Json) -> (r: String)
    ensures
        r@ == image_source_url(source@),
{
    match source.str_field("data") {
        Some(data) => {
            let mut url = "data:".to_owned();
            url.append(source.str_field_or("media_type", "image/png").as_str());
            url.append(";base64,");
            url.append(data);
            url
        },
        None => source.str_field_or("url", ""),
    }
}

/// The source of a document, where it is of a known kind.
fn parse_document_source(source: &Json) -> (r: Option<DocumentSource>)
    ensures
        r.deep_view() == document_source(source@),
{
    let t = source.str_field_or("type", "");
    if same_text(t.as_str(), "base64") {
        Some(
            DocumentSource::Base64 {
                media_type: source.str_field_or("media_type", "application/pdf"),
                data: source.str_field_or("data", ""),
            },
        )
    } else if same_text(t.as_str(), "text") {
        Some(
            DocumentSource::Text {
                media_type: source.str_field_or("media_type", "text/plain"),
                data: source.str_field_or("data", ""),
            },
        )
    } else if same_text(t.as_str(), "url") {
        match source.str_field("url") {
            Some(url) => Some(DocumentSource::Url { url: url.to_owned() }),
            None => None,
        }
    } else {
        None
    }
}

/// The text of a tool's result.
fn parse_tool_result(block: &Json) -> (r: String)
    ensures
        r@ == tool_result_text(block@),
{
    match block.get("content") {
        Some(c) => match c.as_str() {
            Some(s) => s.to_owned(),
            None => render_json(c),
        },
        None => "".to_owned(),
    }
}

/// The content block that a block of a message is, where it is of a known kind and whole.
fn parse_block(block: &Json) -> (r: Option<ContentBlock>)
    ensures
        r.deep_view() == anthropic_block(block@),
        calls_with_plain_input(block@) ==> input_returns(block@),
{
    proof {
        reveal_strlit("text");
        reveal_strlit("image");
        reveal_strlit("tool_use");
        assert("text"@.len() != "tool_use"@.len() && "image"@.len() != "tool_use"@.len());
    }
    let t = block.str_field_or("type", "text");
    if same_text(t.as_str(), "text") {
        match block.str_field("text") {
            Some(text) => Some(ContentBlock::Text { text: text.to_owned() }),
            None => None,
        }
    } else if same_text(t.as_str(), "image") {
        match block.get("source") {
            Some(source) => Some(
                ContentBlock::ImageUrl {
                    image_url: ImageUrlContent { url: parse_image_source(source), detail: None },
                },
            ),
            None => None,
        }
    } else if same_text(t.as_str(), "tool_use") {
        let arguments = match block.get("input") {
            Some(input) => render_json(input),
            None => render_json(&Json::object()),
        };
        Some(
            ContentBlock::ToolCall {
                id: block.str_field_or("id", ""),
                function: FunctionCall { name: block.str_field_or("name", ""), arguments },
            },
        )
    } else if same_text(t.as_str(), "tool_result") {
        Some(
            ContentBlock::ToolResult {
                tool_use_id: block.str_field_or("tool_use_id", ""),
                content: parse_tool_result(block),
            },
        )
    } else if same_text(t.as_str(), "document") {
        match block.get("source") {
            Some(source) => match parse_document_source(source) {
                Some(source) => Some(ContentBlock::Document { source }),
                None => None,
            },
            None => None,
        }
    } else {
        None
    }
}

/// The content blocks of a message, in order.
fn parse_blocks(blocks: &Vec<Json>) -> (r: Vec<ContentBlock>)
    ensures
        r.deep_view() == anthropic_blocks(blocks.deep_view()),
        inputs_return(JsonView::Array(blocks.deep_view())),
{
    let mut out: Vec<ContentBlock> = Vec::new();
    let mut i: usize = 0;
    assert(out.deep_view() =~= anthropic_blocks(blocks.deep_view().take(0)));
    while i < blocks.len()
        invariant
            i <= blocks.len(),
            out.deep_view() == anthropic_blocks(blocks.deep_view().take(i as int)),
            forall|k: int|
                0 <= k < i && calls_with_plain_input(#[trigger] blocks.deep_view()[k])
                    ==> input_returns(blocks.deep_view()[k]),
        decreases blocks.len() - i,
    {
        let ghost before = out.deep_view();
        let ghost longer = blocks.deep_view().take(i + 1);
        assert(longer.drop_last() =~= blocks.deep_view().take(i as int));
        assert(longer.last() == blocks@[i as int]@);
        match parse_block(&blocks[i]) {
            Some(block) => {
                out.push(block);
                assert(out.deep_view() =~= before.push(block.deep_view()));
            },
            None => {},
        }
        i += 1;
    }
    assert(blocks.deep_view().take(i as int) =~= blocks.deep_view());
    out
}

/// The content of a message.
fn parse_content(content: &Json) -> (r: Vec<ContentBlock>)
    ensures
        r.deep_view() == anthropic_content(content@),
        inputs_return(content@),
{
    match content {
        Json::Str(s) => {
            let out = vec![ContentBlock::Text { text: s.clone() }];
            assert(out.deep_view() =~= seq![ContentBlockView::Text { text: s@ }]);
            out
        },
        Json::Array(_) => match content.as_array() {
            Some(blocks) => parse_blocks(blocks),
            None => Vec::new(),
        },
        other => {
            let text = render_json(other);
            let out = vec![ContentBlock::Text { text }];
            assert(out.deep_view() =~= seq![ContentBlockView::Text { text: json_text(other@) }]);
            out
        },
    }
}

/// The system prompt and the messages of a request. The system prompt stands for itself and is
/// no message. The arguments of a tool call with a plain input are read back as that input.
pub fn parse_anthropic_messages(req: &AnthropicMessagesRequest) -> (r: (
    Option<String>,
    Vec<InternalMessage>,
))
    ensures
        r.0.deep_view() == system_prompt(req.system.deep_view()),
        r.1.deep_view() == anthropic_messages(req.messages.deep_view()),
        forall|i: int|
            0 <= i < req.messages.len() ==> inputs_return((#[trigger] req.messages@[i]).content@),
{
    let system = parse_system(&req.system);
    let mut messages: Vec<InternalMessage> = Vec::new();
    let mut i: usize = 0;
    while i < req.messages.len()
        invariant
            i <= req.messages.len(),
            messages.deep_view() == anthropic_messages(req.messages.deep_view().take(i as int)),
            forall|k: int|
                0 <= k < i ==> inputs_return((#[trigger] req.messages@[k]).content@),
        decreases req.messages.len() - i,
    {
        let ghost before = messages.deep_view();
        let msg = &req.messages[i];
        let role = if same_text(msg.role.as_str(), "assistant") {
            Role::Assistant
        } else {
            Role::User
        };
        let message = InternalMessage { role, content: parse_content(&msg.content) };
        messages.push(message);
        assert(messages.deep_view() =~= before.push(anthropic_message(msg.deep_view())));
        assert(messages.deep_view() =~= anthropic_messages(req.messages.deep_view().take(i + 1)));
        i += 1;
    }
    assert(req.messages.deep_view().take(i as int) =~= req.messages.deep_view());
    (system, messages)
}

/// The tool choice of a request, where it is a known one.
pub open spec fn anthropic_tool_choice(v: JsonView) -> Option<ToolChoiceView> {
    match str_field(v, "type"@) {
        None => None,
        Some(t) => if t == "auto"@ {
            Some(ToolChoiceView::Auto)
        } else if t == "none"@ {
            Some(ToolChoiceView::NoTool)
        } else if t == "any"@ {
            Some(ToolChoiceView::Any)
        } else if t == "tool"@ {
            match str_field(v, "name"@) {
                Some(name) => Some(ToolChoiceView::Specific(name)),
                None => None,
            }
        } else {
            None
        },
    }
}

/// The tool choice of a request, where it is a known one.
pub fn parse_anthropic_tool_choice(v: &Json) -> (r: Option<ToolChoice>)
    ensures
        r.deep_view() == anthropic_tool_choice(v@),
{
    match v.str_field("type") {
        None => None,
        Some(t) => if same_text(t, "auto") {
            Some(ToolChoice::Auto)
        } else if same_text(t, "none") {
            Some(ToolChoice::NoTool)
        } else if same_text(t, "any") {
            Some(ToolChoice::Any)
        } else if same_text(t, "tool") {
            match v.str_field("name") {
                Some(name) => Some(ToolChoice::Specific(name.to_owned())),
                None => None,
            }
        } else {
            None
        },
    }
}

/// The tools in the gateway's form, one for one.
pub open spec fn anthropic_tools(tools: Seq<AnthropicToolDefView>) -> Seq<InternalToolView> {
    tools.map_values(
        |t: AnthropicToolDefView|
            InternalToolView {
                name: t.name,
                description: t.description,
                parameters: t.input_schema,
            },
    )
}

/// The tools in the gateway's form.
fn convert_tools(tools: Vec<AnthropicToolDef>) -> (r: Vec<InternalTool>)
    ensures
        r.deep_view() == anthropic_tools(tools.deep_view()),
{
    let ghost whole = tools@;
    let mut out: Vec<InternalTool> = Vec::new();
    for t in it: tools
        invariant
            it.seq() == whole,
            out.len() == it.index(),
            forall|k: int|
                0 <= k < it.index() ==> (#[trigger] out@[k]).deep_view() == (InternalToolView {
                    name: whole[k].name@,
                    description: whole[k].description.deep_view(),
                    parameters: whole[k].input_schema.deep_view(),
                }),
    {
        out.push(
            InternalTool {
                name: t.name,
                description: t.description,
                parameters: t.input_schema,
            },
        );
    }
    assert(out.deep_view() =~= anthropic_tools(tools.deep_view()));
    out
}

/// A request in the gateway's form. The fields that the protocol does not have are left out.
pub open spec fn anthropic_internal(req: AnthropicMessagesRequestView) -> InternalRequestView {
    InternalRequestView {
        model_alias: req.model,
        system: system_prompt(req.system),
        messages: anthropic_messages(req.messages),
        stream: req.stream,
        temperature: req.temperature,
        max_tokens: req.max_tokens,
        tools: match req.tools {
            Some(tools) => Some(anthropic_tools(tools)),
            None => None,
        },
        tool_choice: match req.tool_choice {
            Some(v) => anthropic_tool_choice(v),
            None => None,
        },
        response_format: None,
        top_p: req.top_p,
        top_k: req.top_k,
        frequency_penalty: None,
        presence_penalty: None,
        stop: req.stop_sequences,
        seed: None,
        n: None,
        stream_options: None,
        user: None,
        metadata: req.metadata,
    }
}

/// A request in the gateway's form.
pub fn internal_request(req: AnthropicMessagesRequest) -> (r: InternalRequest)
    ensures
        r.deep_view() == anthropic_internal(req.deep_view()),
{
    let (system, messages) = parse_anthropic_messages(&req);
    let tools = match req.tools {
        Some(tools) => Some(convert_tools(tools)),
        None => None,
    };
    let tool_choice = match &req.tool_choice {
        Some(v) => parse_anthropic_tool_choice(v),
        None => None,
    };
    InternalRequest {
        model_alias: req.model,
        system,
        messages,
        stream: req.stream,
        temperature: req.temperature,
        max_tokens: req.max_tokens,
        tools,
        tool_choice,
        response_format: None,
        top_p: req.top_p,
        top_k: req.top_k,
        frequency_penalty: None,
        presence_penalty: None,
        stop: req.stop_sequences,
        seed: None,
        n: None,
        stream_options: None,
        user: None,
        metadata: req.metadata,
    }
}

/// The input of a tool call whose arguments were read: an empty object where they are no JSON.
pub open spec fn input_or_empty(parsed: Option<JsonView>) -> JsonView {
    match parsed {
        Some(v) => v,
        None => JsonView::Object(Map::empty()),
    }
}

/// The content block of an answer for a content block of the gateway.
pub open spec fn answer_block(block: ContentBlockView) -> AnthropicContentBlockView {
    match block {
        ContentBlockView::Text { text } => AnthropicContentBlockView::Text { text },
        ContentBlockView::ToolCall { id, function } => AnthropicContentBlockView::ToolUse {
            id,
            name: function.name,
            input: input_or_empty(json_parse(function.arguments)),
        },
        _ => AnthropicContentBlockView::Text { text: "[unsupported content type]"@ },
    }
}

/// The Anthropic word for why an answer ended, given the backend's.
pub open spec fn stop_reason_word(finish_reason: Seq<char>) -> Seq<char> {
    if finish_reason == "stop"@ {
        "end_turn"@
    } else if finish_reason == "length"@ {
        "max_tokens"@
    } else if finish_reason == "tool_calls"@ {
        "tool_use"@
    } else {
        finish_reason
    }
}

/// Why an answer ended: a tool call decides, whatever the backend says.
pub open spec fn answer_stop_reason(
    content: Seq<ContentBlockView>,
    finish_reason: Option<Seq<char>>,
) -> Option<Seq<char>> {
    if calls_tool(content) {
        Some("tool_use"@)
    } else {
        match finish_reason {
            Some(word) => Some(stop_reason_word(word)),
            None => None,
        }
    }
}

/// The answer for a response. Its model is the alias that the client asked for.
pub open spec fn anthropic_answer(r: InternalResponseView) -> AnthropicMessagesResponseView {
    AnthropicMessagesResponseView {
        id: r.id,
        kind: "message"@,
        role: "assistant"@,
        model: r.alias,
        content: r.content.map_values(|b: ContentBlockView| answer_block(b)),
        usage: Some(
            AnthropicUsage {
                input_tokens: tokens_or_zero(r.usage.prompt_tokens),
                output_tokens: tokens_or_zero(r.usage.completion_tokens),
            },
        ),
        stop_reason: answer_stop_reason(r.content, r.finish_reason),
    }
}

/// The input of a tool call whose arguments were read.
pub fn tool_use_input(parsed: Option<Json>) -> (r: Json)
    ensures
        r@ == input_or_empty(parsed.deep_view()),
{
    match parsed {
        Some(v) => v,
        None => Json::object(),
    }
}

/// The Anthropic word for why an answer ended, given the backend's.
pub fn map_stop_reason(finish_reason: &str) -> (r: &str)
    ensures
        r@ == stop_reason_word(finish_reason@),
{
    if same_text(finish_reason, "stop") {
        "end_turn"
    } else if same_text(finish_reason, "length") {
        "max_tokens"
    } else if same_text(finish_reason, "tool_calls") {
        "tool_use"
    } else {
        finish_reason
    }
}

/// The answer for a response.
pub fn to_anthropic_response(internal: InternalResponse) -> (r: AnthropicMessagesResponse)
    ensures
        r.deep_view() == anthropic_answer(internal.deep_view()),
{
    let ghost blocks = internal.content.deep_view();
    let mut content: Vec<AnthropicContentBlock> = Vec::new();
    let mut has_tool = false;
    let mut i: usize = 0;
    while i < internal.content.len()
        invariant
            i <= internal.content.len(),
            blocks == internal.content.deep_view(),
            content.len() == i,
            forall|k: int|
                0 <= k < i ==> (#[trigger] content@[k]).deep_view() == answer_block(blocks[k]),
            has_tool == calls_tool(blocks.take(i as int)),
        decreases internal.content.len() - i,
    {
        let ghost had_tool = has_tool;
        let block = match &internal.content[i] {
            ContentBlock::Text { text } => AnthropicContentBlock::Text { text: text.clone() },
            ContentBlock::ToolCall { id, function } => {
                has_tool = true;
                AnthropicContentBlock::ToolUse {
                    id: id.clone(),
                    name: function.name.clone(),
                    input: tool_use_input(parse_json(function.arguments.as_str())),
                }
            },
            _ => AnthropicContentBlock::Text { text: "[unsupported content type]".to_owned() },
        };
        content.push(block);
        proof {
            let now = blocks.take(i + 1);
            if had_tool {
                let k = choose|k: int|
                    0 <= k < blocks.take(i as int).len() && (#[trigger] blocks.take(i as int)[k])
                        is ToolCall;
                assert(now[k] is ToolCall);
            }
            assert(now[i as int] == blocks[i as int]);
            if calls_tool(now) && !(blocks[i as int] is ToolCall) {
                let k = choose|k: int| 0 <= k < now.len() && (#[trigger] now[k]) is ToolCall;
                assert(blocks.take(i as int)[k] is ToolCall);
            }
        }
        i += 1;
    }
    assert(blocks.take(i as int) =~= blocks);
    assert(content.deep_view() =~= blocks.map_values(|b: ContentBlockView| answer_block(b)));
    let stop_reason = if has_tool {
        Some("tool_use".to_owned())
    } else {
        match &internal.finish_reason {
            Some(word) => Some(map_stop_reason(word.as_str()).to_owned()),
            None => None,
        }
    };
    AnthropicMessagesResponse {
        id: internal.id,
        kind: "message".to_owned(),
        role: "assistant".to_owned(),
        model: internal.alias,
        content,
        usage: Some(
            AnthropicUsage {
                input_tokens: internal.usage.prompt_tokens.unwrap_or(0),
                output_tokens: internal.usage.completion_tokens.unwrap_or(0),
            },
        ),
        stop_reason,
    }
}

/// The JSON of a content block of an answer.
pub open spec fn answer_block_json(block: AnthropicContentBlockView) -> JsonView {
    match block {
        AnthropicContentBlockView::Text { text } => JsonView::Object(
            map!["type"@ => JsonView::Str("text"@), "text"@ => JsonView::Str(text)],
        ),
        AnthropicContentBlockView::ToolUse { id, name, input } => JsonView::Object(
            map![
                "type"@ => JsonView::Str("tool_use"@),
                "id"@ => JsonView::Str(id),
                "name"@ => JsonView::Str(name),
                "input"@ => input,
            ],
        ),
    }
}

/// The JSON of the tokens that an answer took.
pub open spec fn usage_json(u: AnthropicUsage) -> JsonView {
    JsonView::Object(
        map![
            "input_tokens"@ => JsonView::Number(NumberView::Int(u.input_tokens as int)),
            "output_tokens"@ => JsonView::Number(NumberView::Int(u.output_tokens as int)),
        ],
    )
}

/// The JSON of an answer. What is not known is left out.
pub open spec fn answer_json(r: AnthropicMessagesResponseView) -> JsonView {
    let fixed = JsonView::Object(
        map![
            "id"@ => JsonView::Str(r.id),
            "type"@ => JsonView::Str(r.kind),
            "role"@ => JsonView::Str(r.role),
            "model"@ => JsonView::Str(r.model),
            "content"@ => JsonView::Array(
                r.content.map_values(|b: AnthropicContentBlockView| answer_block_json(b)),
            ),
        ],
    );
    let with_usage = put_some(
        fixed,
        "usage"@,
        match r.usage {
            Some(u) => Some(usage_json(u)),
            None => None,
        },
    );
    put_some(
        with_usage,
        "stop_reason"@,
        match r.stop_reason {
            Some(s) => Some(JsonView::Str(s)),
            None => None,
        },
    )
}

impl AnthropicContentBlock {
    /// The JSON of the block.
    pub fn to_json(&self) -> (r: Json)
        ensures
            r@ == answer_block_json(self.deep_view()),
    {
        match self {
            AnthropicContentBlock::Text { text } => Json::object().with(
                "type",
                Json::text("text"),
            ).with("text", Json::text(text.as_str())),
            AnthropicContentBlock::ToolUse { id, name, input } => Json::object().with(
                "type",
                Json::text("tool_use"),
            ).with("id", Json::text(id.as_str())).with("name", Json::text(name.as_str())).with(
                "input",
                input.clone(),
            ),
        }
    }
}

impl AnthropicMessagesResponse {
    /// The JSON of the answer.
    pub fn to_json(&self) -> (r: Json)
        ensures
            r@ == answer_json(self.deep_view()),
    {
        let mut content: Vec<Json> = Vec::new();
        let mut i: usize = 0;
        while i < self.content.len()
            invariant
                i <= self.content.len(),
                content.len() == i,
                forall|k: int|
                    0 <= k < i ==> (#[trigger] content@[k])@ == answer_block_json(
                        self.content@[k].deep_view(),
                    ),
            decreases self.content.len() - i,
        {
            content.push(self.content[i].to_json());
            i += 1;
        }
        assert(content.deep_view() =~= self.content.deep_view().map_values(
            |b: AnthropicContentBlockView| answer_block_json(b),
        ));
        let usage = match &self.usage {
            Some(u) => Some(
                Json::object().with("input_tokens", Json::uint(u.input_tokens)).with(
                    "output_tokens",
                    Json::uint(u.output_tokens),
                ),
            ),
            None => None,
        };
        let stop_reason = match &self.stop_reason {
            Some(s) => Some(Json::text(s.as_str())),
            None => None,
        };
        Json::object().with("id", Json::text(self.id.as_str())).with(
            "type",
            Json::text(self.kind.as_str()),
        ).with("role", Json::text(self.role.as_str())).with(
            "model",
            Json::text(self.model.as_str()),
        ).with("content", Json::array(content)).with_some("usage", usage).with_some(
            "stop_reason",
            stop_reason,
        )
    }
}

} // verus!
