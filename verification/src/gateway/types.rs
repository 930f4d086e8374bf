//! The unified request and response form that both client protocols are turned into.

use vstd::prelude::*;

use crate::json::{Json, JsonNumber, JsonView, NumberView};
use crate::names::NameMap;

verus! {

/// Role of a message participant.
#[derive(Debug, Clone, Copy, PartialEq, Eq, Structural)]
pub enum Role {
    System,
    User,
    Assistant,
    Tool,
}

impl DeepView for Role {
    type V = Role;

    open spec fn deep_view(&self) -> Role {
        *self
    }
}

/// A content block within a message.
#[derive(Debug, Clone, PartialEq)]
pub enum ContentBlock {
    Text { text: String },
    ImageUrl { image_url: ImageUrlContent },
    ToolCall { id: String, function: FunctionCall },
    ToolResult { tool_use_id: String, content: String },
    Document { source: DocumentSource },
}

/// The model of a content block.
pub enum ContentBlockView {
    Text { text: Seq<char> },
    ImageUrl { image_url: ImageUrlContentView },
    ToolCall { id: Seq<char>, function: FunctionCallView },
    ToolResult { tool_use_id: Seq<char>, content: Seq<char> },
    Document { source: DocumentSourceView },
}

impl DeepView for ContentBlock {
    type V = ContentBlockView;

    open spec fn deep_view(&self) -> ContentBlockView {
        match *self {
            ContentBlock::Text { text } => ContentBlockView::Text { text: text@ },
            ContentBlock::ImageUrl { image_url } => ContentBlockView::ImageUrl {
                image_url: image_url.deep_view(),
            },
            ContentBlock::ToolCall { id, function } => ContentBlockView::ToolCall {
                id: id@,
                function: function.deep_view(),
            },
            ContentBlock::ToolResult { tool_use_id, content } => ContentBlockView::ToolResult {
                tool_use_id: tool_use_id@,
                content: content@,
            },
            ContentBlock::Document { source } => ContentBlockView::Document {
                source: source.deep_view(),
            },
        }
    }
}

/// Where the bytes of an image are.
#[derive(Debug, Clone, PartialEq)]
pub struct ImageUrlContent {
    pub url: String,
    pub detail: Option<String>,
}

/// The model of an image reference.
pub struct ImageUrlContentView {
    pub url: Seq<char>,
    pub detail: Option<Seq<char>>,
}

impl DeepView for ImageUrlContent {
    type V = ImageUrlContentView;

    open spec fn deep_view(&self) -> ImageUrlContentView {
        ImageUrlContentView { url: self.url@, detail: self.detail.deep_view() }
    }
}

/// A call of a tool: its name and, as JSON text, its arguments.
#[derive(Debug, Clone, PartialEq)]
pub struct FunctionCall {
    pub name: String,
    pub arguments: String,
}

/// The model of a tool call.
pub struct FunctionCallView {
    pub name: Seq<char>,
    pub arguments: Seq<char>,
}

impl DeepView for FunctionCall {
    type V = FunctionCallView;

    open spec fn deep_view(&self) -> FunctionCallView {
        FunctionCallView { name: self.name@, arguments: self.arguments@ }
    }
}

/// Where a document comes from.
#[derive(Debug, Clone, PartialEq)]
pub enum DocumentSource {
    Base64 { media_type: String, data: String },
    Text { media_type: String, data: String },
    Url { url: String },
}

/// The model of a document's source.
pub enum DocumentSourceView {
    Base64 { media_type: Seq<char>, data: Seq<char> },
    Text { media_type: Seq<char>, data: Seq<char> },
    Url { url: Seq<char> },
}

impl DeepView for DocumentSource {
    type V = DocumentSourceView;

    open spec fn deep_view(&self) -> DocumentSourceView {
        match *self {
            DocumentSource::Base64 { media_type, data } => DocumentSourceView::Base64 {
                media_type: media_type@,
                data: data@,
            },
            DocumentSource::Text { media_type, data } => DocumentSourceView::Text {
                media_type: media_type@,
                data: data@,
            },
            DocumentSource::Url { url } => DocumentSourceView::Url { url: url@ },
        }
    }
}

/// A tool that the model may call.
#[derive(Debug, Clone, PartialEq)]
pub struct InternalTool {
    pub name: String,
    pub description: Option<String>,
    pub parameters: Option<Json>,
}

/// The model of a tool.
pub struct InternalToolView {
    pub name: Seq<char>,
    pub description: Option<Seq<char>>,
    pub parameters: Option<JsonView>,
}

impl DeepView for InternalTool {
    type V = InternalToolView;

    open spec fn deep_view(&self) -> InternalToolView {
        InternalToolView {
            name: self.name@,
            description: self.description.deep_view(),
            parameters: self.parameters.deep_view(),
        }
    }
}

/// The format that the answer shall have.
/// - `Text`: plain text (the default)
/// - `JsonObject`: a JSON object
#[derive(Debug, Clone, Copy, PartialEq, Eq, Structural)]
pub enum ResponseFormat {
    Text,
    JsonObject,
}

impl DeepView for ResponseFormat {
    type V = ResponseFormat;

    open spec fn deep_view(&self) -> ResponseFormat {
        *self
    }
}

/// Which tool the model shall call.
/// - `Auto`: the model decides (the default)
/// - `NoTool`: none
/// - `Any`: any, but at least one
/// - `Specific`: the one of that name
#[derive(Debug, Clone, PartialEq)]
pub enum ToolChoice {
    Auto,
    NoTool,
    Any,
    Specific(String),
}

/// The model of a tool choice.
pub enum ToolChoiceView {
    Auto,
    NoTool,
    Any,
    Specific(Seq<char>),
}

impl DeepView for ToolChoice {
    type V = ToolChoiceView;

    open spec fn deep_view(&self) -> ToolChoiceView {
        match *self {
            ToolChoice::Auto => ToolChoiceView::Auto,
            ToolChoice::NoTool => ToolChoiceView::NoTool,
            ToolChoice::Any => ToolChoiceView::Any,
            ToolChoice::Specific(name) => ToolChoiceView::Specific(name@),
        }
    }
}

/// Options of a streamed answer.
#[derive(Debug, Clone, Copy, PartialEq, Eq, Structural)]
pub struct StreamOptions {
    pub include_usage: bool,
}

impl DeepView for StreamOptions {
    type V = StreamOptions;

    open spec fn deep_view(&self) -> StreamOptions {
        *self
    }
}

/// A message of the conversation.
#[derive(Debug, Clone, PartialEq)]
pub struct InternalMessage {
    pub role: Role,
    pub content: Vec<ContentBlock>,
}

/// The model of a message.
pub struct InternalMessageView {
    pub role: Role,
    pub content: Seq<ContentBlockView>,
}

impl DeepView for InternalMessage {
    type V = InternalMessageView;

    open spec fn deep_view(&self) -> InternalMessageView {
        InternalMessageView { role: self.role, content: self.content.deep_view() }
    }
}

/// Unified internal request format, protocol-agnostic.
#[derive(Debug, Clone, PartialEq)]
pub struct InternalRequest {
    pub model_alias: String,
    /// The system prompt. An Anthropic backend gets it as the field `system` of the body, an
    /// OpenAI compatible one as a first message with the role `system`.
    pub system: Option<String>,
    pub messages: Vec<InternalMessage>,
    pub stream: bool,
    pub temperature: Option<JsonNumber>,
    pub max_tokens: Option<u64>,
    pub tools: Option<Vec<InternalTool>>,
    pub tool_choice: Option<ToolChoice>,
    pub response_format: Option<ResponseFormat>,
    pub top_p: Option<JsonNumber>,
    pub top_k: Option<u32>,
    pub frequency_penalty: Option<JsonNumber>,
    pub presence_penalty: Option<JsonNumber>,
    /// The stop sequences, from the OpenAI field `stop` or the Anthropic field `stop_sequences`.
    pub stop: Option<Vec<String>>,
    pub seed: Option<u64>,
    pub n: Option<u32>,
    pub stream_options: Option<StreamOptions>,
    pub user: Option<String>,
    pub metadata: Option<NameMap<String>>,
}

/// The model of a request.
pub struct InternalRequestView {
    pub model_alias: Seq<char>,
    pub system: Option<Seq<char>>,
    pub messages: Seq<InternalMessageView>,
    pub stream: bool,
    pub temperature: Option<NumberView>,
    pub max_tokens: Option<u64>,
    pub tools: Option<Seq<InternalToolView>>,
    pub tool_choice: Option<ToolChoiceView>,
    pub response_format: Option<ResponseFormat>,
    pub top_p: Option<NumberView>,
    pub top_k: Option<u32>,
    pub frequency_penalty: Option<NumberView>,
    pub presence_penalty: Option<NumberView>,
    pub stop: Option<Seq<Seq<char>>>,
    pub seed: Option<u64>,
    pub n: Option<u32>,
    pub stream_options: Option<StreamOptions>,
    pub user: Option<Seq<char>>,
    pub metadata: Option<Map<Seq<char>, Seq<char>>>,
}

impl DeepView for InternalRequest {
    type V = InternalRequestView;

    open spec fn deep_view(&self) -> InternalRequestView {
        InternalRequestView {
            model_alias: self.model_alias@,
            system: self.system.deep_view(),
            messages: self.messages.deep_view(),
            stream: self.stream,
            temperature: self.temperature.deep_view(),
            max_tokens: self.max_tokens,
            tools: self.tools.deep_view(),
            tool_choice: self.tool_choice.deep_view(),
            response_format: self.response_format,
            top_p: self.top_p.deep_view(),
            top_k: self.top_k,
            frequency_penalty: self.frequency_penalty.deep_view(),
            presence_penalty: self.presence_penalty.deep_view(),
            stop: self.stop.deep_view(),
            seed: self.seed,
            n: self.n,
            stream_options: self.stream_options,
            user: self.user.deep_view(),
            metadata: self.metadata.deep_view(),
        }
    }
}

/// Token usage info from backend response.
#[derive(Debug, Clone, Copy, PartialEq, Eq, Structural)]
pub struct Usage {
    pub prompt_tokens: Option<u64>,
    pub completion_tokens: Option<u64>,
    pub total_tokens: Option<u64>,
}

impl Default for Usage {
    fn default() -> (r: Usage)
        ensures
            r == (Usage { prompt_tokens: None, completion_tokens: None, total_tokens: None }),
    {
        Usage { prompt_tokens: None, completion_tokens: None, total_tokens: None }
    }
}

impl DeepView for Usage {
    type V = Usage;

    open spec fn deep_view(&self) -> Usage {
        *self
    }
}

/// The number of tokens, where it is known.
pub open spec fn tokens_or_zero(tokens: Option<u64>) -> u64 {
    match tokens {
        Some(n) => n,
        None => 0,
    }
}

/// Whether a tool is called in a content.
pub open spec fn calls_tool(content: Seq<ContentBlockView>) -> bool {
    exists|i: int| 0 <= i < content.len() && (#[trigger] content[i]) is ToolCall
}

/// Unified internal response format.
#[derive(Debug, Clone, PartialEq)]
pub struct InternalResponse {
    pub id: String,
    pub model: String,
    pub alias: String,
    pub content: Vec<ContentBlock>,
    pub usage: Usage,
    pub finish_reason: Option<String>,
}

/// The model of a response.
pub struct InternalResponseView {
    pub id: Seq<char>,
    pub model: Seq<char>,
    pub alias: Seq<char>,
    pub content: Seq<ContentBlockView>,
    pub usage: Usage,
    pub finish_reason: Option<Seq<char>>,
}

impl DeepView for InternalResponse {
    type V = InternalResponseView;

    open spec fn deep_view(&self) -> InternalResponseView {
        InternalResponseView {
            id: self.id@,
            model: self.model@,
            alias: self.alias@,
            content: self.content.deep_view(),
            usage: self.usage,
            finish_reason: self.finish_reason.deep_view(),
        }
    }
}

/// A single SSE chunk from a streaming response.
#[derive(Debug, Clone, PartialEq)]
pub struct StreamChunk {
    pub id: String,
    pub model: String,
    pub alias: String,
    pub delta: Option<ContentBlock>,
    pub usage: Option<Usage>,
    pub finish_reason: Option<String>,
}

/// The model of a chunk.
pub struct StreamChunkView {
    pub id: Seq<char>,
    pub model: Seq<char>,
    pub alias: Seq<char>,
    pub delta: Option<ContentBlockView>,
    pub usage: Option<Usage>,
    pub finish_reason: Option<Seq<char>>,
}

impl DeepView for StreamChunk {
    type V = StreamChunkView;

    open spec fn deep_view(&self) -> StreamChunkView {
        StreamChunkView {
            id: self.id@,
            model: self.model@,
            alias: self.alias@,
            delta: self.delta.deep_view(),
            usage: self.usage,
            finish_reason: self.finish_reason.deep_view(),
        }
    }
}

} // verus!
