//! What becomes of a client's request: each part of it reaches the backends as the client meant it.

use vstd::prelude::*;

use crate::backend::anthropic_passthrough;
use crate::backend::anthropic_passthrough::{anthropic_body, AnthropicPassthroughAdapter};
use crate::backend::openai_compat;
use crate::backend::openai_compat::{
    block_content, main_message, openai_request, opt_text_json, opt_uint_json, request_json,
    sent_calls, sent_content, sent_message_json, sent_results, sent_tool_json, OpenAIMessageView,
    OpenAIRequestView, OpenAIToolCallView, OpenAIToolView, OpenAiCompatAdapter,
};
use crate::backend::BackendAdapter;
use crate::gateway::types::{
    ContentBlockView, DocumentSourceView, FunctionCallView, InternalMessageView,
    InternalRequestView, ResponseFormat, Role, ToolChoiceView,
};
use crate::json::{
    field, opt_number_json, put_some, str_field, str_field_or, strings, JsonView, NumberView,
};
use crate::json_codec::{json_parse, json_text};
use crate::laws::words::lemma_words;
use crate::router::anthropic::{
    anthropic_block, anthropic_blocks, anthropic_content, anthropic_message, anthropic_messages,
    block_texts, system_prompt, AnthropicMessageView,
};

verus! {

/// The content of a message of an Anthropic client is that of its blocks, one after the other.
pub proof fn law_content_in_order(first: Seq<JsonView>, second: Seq<JsonView>)
    ensures
        anthropic_content(JsonView::Array(Seq::empty())) == Seq::<ContentBlockView>::empty(),
        anthropic_content(JsonView::Array(first + second)) == anthropic_content(
            JsonView::Array(first),
        ) + anthropic_content(JsonView::Array(second)),
    decreases second.len(),
{
    if second.len() == 0 {
        assert(first + second =~= first);
        assert(anthropic_blocks(first) + Seq::<ContentBlockView>::empty() =~= anthropic_blocks(
            first,
        ));
    } else {
        let whole = first + second;
        assert(whole.drop_last() =~= first + second.drop_last());
        assert(whole.last() == second.last());
        law_content_in_order(first, second.drop_last());
        assert(anthropic_blocks(whole) =~= anthropic_blocks(first) + anthropic_blocks(second));
    }
}

/// A single block of a message.
proof fn lemma_single_block(block: JsonView)
    ensures
        anthropic_content(JsonView::Array(seq![block])) == (match anthropic_block(block) {
            Some(b) => seq![b],
            None => Seq::empty(),
        }),
{
    reveal_with_fuel(anthropic_blocks, 2);
    assert(seq![block].drop_last() =~= Seq::<JsonView>::empty());
    match anthropic_block(block) {
        Some(b) => {
            assert(Seq::<ContentBlockView>::empty().push(b) =~= seq![b]);
        },
        None => {},
    }
}

/// A string as the content of a message means the same as an array of one block of text: both come
/// to exactly one block with that text.
pub proof fn law_string_content_is_text(role: Seq<char>, s: Seq<char>)
    ensures
        ({
            let block = JsonView::Object(
                map!["type"@ => JsonView::Str("text"@), "text"@ => JsonView::Str(s)],
            );
            let plain = anthropic_message(
                AnthropicMessageView { role, content: JsonView::Str(s) },
            );
            let listed = anthropic_message(
                AnthropicMessageView { role, content: JsonView::Array(seq![block]) },
            );
            &&& plain == listed
            &&& plain.content == seq![ContentBlockView::Text { text: s }]
        }),
{
    lemma_words();
    let block = JsonView::Object(
        map!["type"@ => JsonView::Str("text"@), "text"@ => JsonView::Str(s)],
    );
    lemma_single_block(block);
}

/// A string as the content of a message reaches a backend of either protocol: an Anthropic backend
/// gets one block of text with it, an OpenAI compatible one gets it as the content.
pub proof fn law_string_content_is_sent(ms: Seq<AnthropicMessageView>, i: int, s: Seq<char>)
    requires
        0 <= i < ms.len(),
        ms[i].content == JsonView::Str(s),
    ensures
        ({
            let sent = anthropic_passthrough::sent_messages(anthropic_messages(ms));
            &&& sent.len() == ms.len()
            &&& field(sent[i], "content"@) matches Some(JsonView::Array(blocks))
            &&& blocks.len() == 1
            &&& str_field(blocks[0], "type"@) == Some("text"@)
            &&& str_field(blocks[0], "text"@) == Some(s)
        }),
        ({
            let sent = openai_compat::sent_message(anthropic_messages(ms)[i]);
            &&& sent.len() == 1
            &&& sent[0].content == JsonView::Str(s)
            &&& sent[0].tool_calls is None
        }),
{
    lemma_words();
    let all = anthropic_messages(ms);
    assert forall|k: int| 0 <= k < all.len() implies (#[trigger] all[k]).role != Role::System by {}
    lemma_sent_in_place(all, i);
    let content = all[i].content;
    assert(content =~= seq![ContentBlockView::Text { text: s }]);
    reveal_with_fuel(sent_content, 2);
    reveal_with_fuel(sent_calls, 2);
    reveal_with_fuel(sent_results, 2);
    assert(content.drop_last() =~= Seq::<ContentBlockView>::empty());
    assert(openai_compat::sent_message(all[i]) =~= seq![main_message(all[i])]);
}

/// Messages that are not of the system are sent to an Anthropic backend one for one.
proof fn lemma_sent_in_place(ms: Seq<InternalMessageView>, i: int)
    requires
        0 <= i < ms.len(),
        forall|k: int| 0 <= k < ms.len() ==> (#[trigger] ms[k]).role != Role::System,
    ensures
        anthropic_passthrough::sent_messages(ms).len() == ms.len(),
        anthropic_passthrough::sent_messages(ms)[i] == anthropic_passthrough::sent_message(ms[i]),
    decreases ms.len(),
{
    let front = ms.drop_last();
    assert forall|k: int| 0 <= k < front.len() implies (#[trigger] front[k]).role
        != Role::System by {
        assert(front[k] == ms[k]);
    }
    assert(ms[ms.len() - 1].role != Role::System);
    if front.len() > 0 {
        if i < front.len() {
            lemma_sent_in_place(front, i);
        } else {
            lemma_sent_in_place(front, 0);
        }
    } else {
        assert(anthropic_passthrough::sent_messages(front).len() == 0);
    }
}

/// A block of text of an Anthropic client is text. The type may be left out. A block without its
/// text is left out.
pub proof fn law_text_block(block: JsonView)
    requires
        field(block, "type"@) is None || str_field(block, "type"@) == Some("text"@),
    ensures
        str_field(block, "text"@) matches Some(text) ==> anthropic_content(
            JsonView::Array(seq![block]),
        ) == seq![ContentBlockView::Text { text }],
        str_field(block, "text"@) is None ==> anthropic_content(
            JsonView::Array(seq![block]),
        ).len() == 0,
{
    lemma_words();
    lemma_single_block(block);
}

/// A tool call of an Anthropic client keeps its identifier and its name, and its arguments are the
/// text of its input; an empty object stands for an input that is left out.
pub proof fn law_tool_use_block(block: JsonView, id: Seq<char>, name: Seq<char>)
    requires
        str_field(block, "type"@) == Some("tool_use"@),
        str_field(block, "id"@) == Some(id),
        str_field(block, "name"@) == Some(name),
    ensures
        anthropic_content(JsonView::Array(seq![block])) == seq![
            ContentBlockView::ToolCall {
                id,
                function: FunctionCallView {
                    name,
                    arguments: json_text(
                        match field(block, "input"@) {
                            Some(input) => input,
                            None => JsonView::Object(Map::empty()),
                        },
                    ),
                },
            },
        ],
{
    lemma_words();
    lemma_single_block(block);
}

/// The result of a tool of an Anthropic client keeps the identifier of its call and its content: a
/// string as it is, and anything else as its text.
pub proof fn law_tool_result_block(block: JsonView, id: Seq<char>)
    requires
        str_field(block, "type"@) == Some("tool_result"@),
        str_field(block, "tool_use_id"@) == Some(id),
    ensures
        ({
            let got = anthropic_content(JsonView::Array(seq![block]));
            &&& got.len() == 1
            &&& got[0] matches ContentBlockView::ToolResult { tool_use_id, content }
            &&& tool_use_id == id
            &&& str_field(block, "content"@) matches Some(s) ==> content == s
            &&& field(block, "content"@) is Some && str_field(block, "content"@) is None
                ==> content == json_text(field(block, "content"@)->0)
            &&& field(block, "content"@) is None ==> content.len() == 0
        }),
{
    lemma_words();
    lemma_single_block(block);
}

/// An image of an Anthropic client keeps its data, under its media type, or its URL.
pub proof fn law_image_block(block: JsonView, source: JsonView)
    requires
        str_field(block, "type"@) == Some("image"@),
        field(block, "source"@) == Some(source),
    ensures
        ({
            let got = anthropic_content(JsonView::Array(seq![block]));
            &&& got.len() == 1
            &&& got[0] matches ContentBlockView::ImageUrl { image_url }
            &&& image_url.detail is None
            &&& str_field(source, "data"@) is Some && str_field(source, "media_type"@) is Some
                ==> image_url.url == "data:"@ + str_field(
                source,
                "media_type"@,
            )->0 + ";base64,"@ + str_field(source, "data"@)->0
            &&& str_field(source, "data"@) is Some && str_field(source, "media_type"@) is None ==> image_url.url == "data:"@ + "image/png"@ + ";base64,"@ + str_field(
                source,
                "data"@,
            )->0
            &&& str_field(source, "data"@) is None && str_field(source, "url"@) is Some
                ==> image_url.url == str_field(source, "url"@)->0
        }),
{
    lemma_words();
    lemma_single_block(block);
}

/// A document of an Anthropic client keeps its kind, its media type and its data, or its URL.
pub proof fn law_document_block(block: JsonView, source: JsonView)
    requires
        str_field(block, "type"@) == Some("document"@),
        field(block, "source"@) == Some(source),
    ensures
        ({
            let got = anthropic_content(JsonView::Array(seq![block]));
            let kind = str_field(source, "type"@);
            &&& kind == Some("base64"@) ==> got == seq![
                ContentBlockView::Document {
                    source: DocumentSourceView::Base64 {
                        media_type: str_field_or(source, "media_type"@, "application/pdf"@),
                        data: str_field_or(source, "data"@, Seq::empty()),
                    },
                },
            ]
            &&& kind == Some("text"@) ==> got == seq![
                ContentBlockView::Document {
                    source: DocumentSourceView::Text {
                        media_type: str_field_or(source, "media_type"@, "text/plain"@),
                        data: str_field_or(source, "data"@, Seq::empty()),
                    },
                },
            ]
            &&& kind == Some("url"@) && str_field(source, "url"@) is Some ==> got == seq![
                ContentBlockView::Document {
                    source: DocumentSourceView::Url { url: str_field(source, "url"@)->0 },
                },
            ]
        }),
{
    lemma_words();
    assert(""@ =~= Seq::<char>::empty());
    lemma_single_block(block);
}

/// A block of a kind that the gateway does not know is left out.
pub proof fn law_unknown_block(block: JsonView, kind: Seq<char>)
    requires
        str_field(block, "type"@) == Some(kind),
        kind != "text"@ && kind != "image"@ && kind != "tool_use"@ && kind != "tool_result"@ && kind
            != "document"@,
    ensures
        anthropic_content(JsonView::Array(seq![block])).len() == 0,
{
    lemma_single_block(block);
}

/// An image or a document without its source, and a document whose source is of an unknown kind, are
/// left out.
pub proof fn law_block_without_source(block: JsonView)
    ensures
        ({
            let kind = str_field(block, "type"@);
            let source = field(block, "source"@);
            let got = anthropic_content(JsonView::Array(seq![block]));
            &&& (kind == Some("image"@) || kind == Some("document"@)) && source is None ==> got.len()
                == 0
            &&& kind == Some("document"@) && source is Some && str_field(source->0, "type"@)
                != Some("base64"@) && str_field(source->0, "type"@) != Some("text"@) && str_field(
                source->0,
                "type"@,
            ) != Some("url"@) ==> got.len() == 0
        }),
{
    lemma_words();
    lemma_single_block(block);
}

/// A tool call or a tool result without its identifiers has empty ones.
pub proof fn law_block_without_identifiers(block: JsonView)
    ensures
        ({
            let got = anthropic_content(JsonView::Array(seq![block]));
            &&& str_field(block, "type"@) == Some("tool_use"@) ==> {
                &&& got.len() == 1
                &&& got[0] matches ContentBlockView::ToolCall { id, function }
                &&& str_field(block, "id"@) is None ==> id.len() == 0
                &&& str_field(block, "name"@) is None ==> function.name.len() == 0
            }
            &&& str_field(block, "type"@) == Some("tool_result"@) ==> {
                &&& got.len() == 1
                &&& got[0] matches ContentBlockView::ToolResult { tool_use_id, .. }
                &&& str_field(block, "tool_use_id"@) is None ==> tool_use_id.len() == 0
            }
        }),
{
    lemma_words();
    lemma_single_block(block);
}

/// A content of an Anthropic client that is neither a string nor an array is its text.
pub proof fn law_other_content(content: JsonView)
    requires
        !(content is Str),
        !(content is Array),
    ensures
        anthropic_content(content) == seq![ContentBlockView::Text { text: json_text(content) }],
{
}

/// The messages of an Anthropic client stay in place, and keep their roles: `assistant` is that of
/// the assistant, and every other one that of the user.
pub proof fn law_anthropic_roles(ms: Seq<AnthropicMessageView>, i: int)
    requires
        0 <= i < ms.len(),
    ensures
        anthropic_messages(ms).len() == ms.len(),
        anthropic_messages(ms)[i].content == anthropic_content(ms[i].content),
        ms[i].role == "assistant"@ ==> anthropic_messages(ms)[i].role == Role::Assistant,
        ms[i].role != "assistant"@ ==> anthropic_messages(ms)[i].role == Role::User,
{
}

/// The texts of blocks, with one more.
proof fn lemma_block_texts_push(blocks: Seq<JsonView>, block: JsonView)
    ensures
        block_texts(blocks.push(block)) == (match str_field(block, "text"@) {
            Some(text) => block_texts(blocks).push(text),
            None => block_texts(blocks),
        }),
{
    assert(blocks.push(block).drop_last() =~= blocks);
}

/// The system prompt of an Anthropic client: a string is the prompt; of an array the texts are put
/// together, a line each; an empty prompt is none.
pub proof fn law_system_prompt(s: Seq<char>, blocks: Seq<JsonView>, block: JsonView)
    ensures
        system_prompt(None) is None,
        s.len() > 0 ==> system_prompt(Some(JsonView::Str(s))) == Some(s),
        s.len() == 0 ==> system_prompt(Some(JsonView::Str(s))) is None,
        !(block is Str) && !(block is Array) && json_text(block).len() > 0 ==> system_prompt(
            Some(block),
        ) == Some(json_text(block)),
        system_prompt(Some(JsonView::Array(Seq::empty()))) is None,
        str_field(block, "text"@) == Some(s) && s.len() > 0 ==> system_prompt(
            Some(JsonView::Array(seq![block])),
        ) == Some(s),
        str_field(block, "text"@) is None ==> system_prompt(
            Some(JsonView::Array(blocks.push(block))),
        ) == system_prompt(Some(JsonView::Array(blocks))),
        system_prompt(Some(JsonView::Array(blocks))) matches Some(before) && str_field(
            block,
            "text"@,
        ) == Some(s) ==> system_prompt(Some(JsonView::Array(blocks.push(block)))) == Some(
            system_prompt(Some(JsonView::Array(blocks)))->0 + "\n"@ + s,
        ),
{
    lemma_block_texts_push(blocks, block);
    lemma_block_texts_push(Seq::empty(), block);
    assert(Seq::<JsonView>::empty().push(block) =~= seq![block]);
    assert(block_texts(Seq::<JsonView>::empty()) =~= Seq::<Seq<char>>::empty());
    reveal_strlit("\n");
    if str_field(block, "text"@) == Some(s) {
        let texts = block_texts(blocks);
        assert(texts.push(s).drop_last() =~= texts);
        assert(Seq::<Seq<char>>::empty().push(s)[0] == s);
        if system_prompt(Some(JsonView::Array(blocks))) is Some {
            assert(texts.len() > 0);
        }
    }
}

/// The messages that an Anthropic backend gets are those of the messages, one after the other; a
/// message of the system is left out.
pub proof fn law_anthropic_messages_in_order(
    first: Seq<InternalMessageView>,
    second: Seq<InternalMessageView>,
    m: InternalMessageView,
)
    ensures
        anthropic_passthrough::sent_messages(first + second)
            == anthropic_passthrough::sent_messages(first) + anthropic_passthrough::sent_messages(
            second,
        ),
        anthropic_passthrough::sent_messages(seq![m]).len() == if m.role == Role::System {
            0int
        } else {
            1int
        },
    decreases second.len(),
{
    reveal_with_fuel(anthropic_passthrough::sent_messages, 2);
    assert(seq![m].drop_last() =~= Seq::<InternalMessageView>::empty());
    if second.len() == 0 {
        assert(first + second =~= first);
        assert(anthropic_passthrough::sent_messages(first) + Seq::<JsonView>::empty()
            =~= anthropic_passthrough::sent_messages(first));
    } else {
        let whole = first + second;
        assert(whole.drop_last() =~= first + second.drop_last());
        assert(whole.last() == second.last());
        law_anthropic_messages_in_order(first, second.drop_last(), m);
        assert(anthropic_passthrough::sent_messages(whole)
            =~= anthropic_passthrough::sent_messages(first) + anthropic_passthrough::sent_messages(
            second,
        ));
    }
}

/// A message reaches an Anthropic backend with its role and with a block for each of its blocks, in
/// place: text as text, a tool call with its identifier, its name and what its arguments are as
/// JSON, the result of a tool with the identifier of its call and its content.
pub proof fn law_anthropic_message_sent(m: InternalMessageView, i: int)
    requires
        0 <= i < m.content.len(),
        m.role != Role::System,
    ensures
        ({
            let sent = anthropic_passthrough::sent_messages(seq![m])[0];
            &&& str_field(sent, "role"@) == Some(
                if m.role == Role::Assistant {
                    "assistant"@
                } else {
                    "user"@
                },
            )
            &&& field(sent, "content"@) matches Some(JsonView::Array(blocks))
            &&& blocks.len() == m.content.len()
            &&& match m.content[i] {
                ContentBlockView::Text { text } => {
                    &&& str_field(blocks[i], "type"@) == Some("text"@)
                    &&& str_field(blocks[i], "text"@) == Some(text)
                },
                ContentBlockView::ToolCall { id, function } => {
                    &&& str_field(blocks[i], "type"@) == Some("tool_use"@)
                    &&& str_field(blocks[i], "id"@) == Some(id)
                    &&& str_field(blocks[i], "name"@) == Some(function.name)
                    &&& field(blocks[i], "input"@) == Some(
                        match json_parse(function.arguments) {
                            Some(input) => input,
                            None => JsonView::Null,
                        },
                    )
                },
                ContentBlockView::ToolResult { tool_use_id, content } => {
                    &&& str_field(blocks[i], "type"@) == Some("tool_result"@)
                    &&& str_field(blocks[i], "tool_use_id"@) == Some(tool_use_id)
                    &&& str_field(blocks[i], "content"@) == Some(content)
                },
                _ => {
                    &&& str_field(blocks[i], "type"@) == Some("text"@)
                    &&& str_field(blocks[i], "text"@) == Some("[unsupported]"@)
                },
            }
        }),
{
    lemma_words();
    reveal_with_fuel(anthropic_passthrough::sent_messages, 2);
    assert(seq![m].drop_last() =~= Seq::<InternalMessageView>::empty());
    assert(anthropic_passthrough::sent_messages(seq![m])[0] == anthropic_passthrough::sent_message(
        m,
    ));
}

/// The body that an Anthropic backend gets holds what the request says, and leaves out what it does
/// not say; a request without a limit of tokens is given one of 4096.
pub proof fn law_anthropic_body(req: InternalRequestView, model: Seq<char>)
    ensures
        ({
            let body = anthropic_body(req, model);
            &&& str_field(body, "model"@) == Some(model)
            &&& field(body, "messages"@) == Some(
                JsonView::Array(anthropic_passthrough::sent_messages(req.messages)),
            )
            &&& field(body, "max_tokens"@) == Some(
                JsonView::Number(
                    NumberView::Int(
                        match req.max_tokens {
                            Some(n) => n as int,
                            None => 4096,
                        },
                    ),
                ),
            )
            &&& str_field(body, "system"@) == (if req.system == Some(Seq::<char>::empty()) {
                None
            } else {
                req.system
            })
            &&& field(body, "temperature"@) == (match req.temperature {
                Some(n) => Some(JsonView::Number(n)),
                None => None,
            })
            &&& field(body, "top_p"@) == (match req.top_p {
                Some(n) => Some(JsonView::Number(n)),
                None => None,
            })
            &&& field(body, "top_k"@) == (match req.top_k {
                Some(n) => Some(JsonView::Number(NumberView::Int(n as int))),
                None => None,
            })
            &&& field(body, "tools"@) is Some <==> req.tools is Some
            &&& field(body, "tool_choice"@) is Some <==> req.tool_choice is Some
            &&& field(body, "stream"@) is None
            &&& req.stop is None ==> field(body, "stop_sequences"@) is None
            &&& req.stop matches Some(stop) ==> if stop.len() == 0 {
                field(body, "stop_sequences"@) is None
            } else {
                &&& field(body, "stop_sequences"@) matches Some(JsonView::Array(sent))
                &&& sent.len() == stop.len()
                &&& forall|k: int|
                    0 <= k < stop.len() ==> #[trigger] sent[k] == JsonView::Str(stop[k])
            }
        }),
{
    lemma_words();
    match req.system {
        Some(s) => {
            if s.len() == 0 {
                assert(s =~= Seq::<char>::empty());
            }
        },
        None => {},
    }
}

/// Each tool of a request reaches an Anthropic backend in place, with its name, its description and
/// its schema.
pub proof fn law_anthropic_tools_sent(req: InternalRequestView, model: Seq<char>, i: int)
    requires
        req.tools matches Some(tools) && 0 <= i < tools.len(),
    ensures
        ({
            let tools = req.tools->0;
            &&& field(anthropic_body(req, model), "tools"@) matches Some(JsonView::Array(sent))
            &&& sent.len() == tools.len()
            &&& str_field(sent[i], "name"@) == Some(tools[i].name)
            &&& str_field(sent[i], "description"@) == tools[i].description
            &&& field(sent[i], "input_schema"@) == Some(
                match tools[i].parameters {
                    Some(schema) => schema,
                    None => JsonView::Null,
                },
            )
        }),
{
    lemma_words();
}

/// The messages that an OpenAI compatible backend gets are those of the messages, one after the
/// other.
pub proof fn law_openai_messages_in_order(
    first: Seq<InternalMessageView>,
    second: Seq<InternalMessageView>,
    m: InternalMessageView,
)
    ensures
        openai_compat::sent_messages(Seq::empty()).len() == 0,
        openai_compat::sent_messages(first + second) == openai_compat::sent_messages(first)
            + openai_compat::sent_messages(second),
        openai_compat::sent_messages(seq![m]) == openai_compat::sent_message(m),
    decreases second.len(),
{
    reveal_with_fuel(openai_compat::sent_messages, 2);
    assert(seq![m].drop_last() =~= Seq::<InternalMessageView>::empty());
    assert(Seq::<OpenAIMessageView>::empty() + openai_compat::sent_message(m)
        =~= openai_compat::sent_message(m));
    if second.len() == 0 {
        assert(first + second =~= first);
        assert(openai_compat::sent_messages(first) + Seq::<OpenAIMessageView>::empty()
            =~= openai_compat::sent_messages(first));
    } else {
        let whole = first + second;
        assert(whole.drop_last() =~= first + second.drop_last());
        assert(whole.last() == second.last());
        law_openai_messages_in_order(first, second.drop_last(), m);
        assert(openai_compat::sent_messages(whole) =~= openai_compat::sent_messages(first)
            + openai_compat::sent_messages(second));
    }
}

/// How many tool calls there are among the first blocks of a message.
pub open spec fn calls_before(blocks: Seq<ContentBlockView>, i: int) -> int
    decreases i,
{
    if i <= 0 {
        0
    } else {
        calls_before(blocks, i - 1) + if blocks[i - 1] is ToolCall {
            1int
        } else {
            0int
        }
    }
}

/// The tool calls that are sent, one for each, in order.
proof fn lemma_calls_sent(blocks: Seq<ContentBlockView>, n: int, i: int)
    requires
        0 <= n <= blocks.len(),
    ensures
        sent_calls(blocks.take(n)).len() == calls_before(blocks, n),
        0 <= i < n ==> 0 <= calls_before(blocks, i) <= calls_before(blocks, n),
        0 <= i < n ==> (blocks[i] matches ContentBlockView::ToolCall { id, function }
            ==> calls_before(blocks, i) < calls_before(blocks, n) && sent_calls(
            blocks.take(n),
        )[calls_before(blocks, i)] == (OpenAIToolCallView { id, kind: "function"@, function })),
    decreases n,
{
    if n == 0 {
        assert(blocks.take(0) =~= Seq::<ContentBlockView>::empty());
    } else {
        assert(blocks.take(n).drop_last() =~= blocks.take(n - 1));
        assert(blocks.take(n).last() == blocks[n - 1]);
        lemma_calls_sent(blocks, n - 1, i);
        if i == n - 1 {
            lemma_calls_sent(blocks, i, 0);
        }
    }
}

/// Every tool call of a message is sent to an OpenAI compatible backend, in order: the message that
/// is sent has as many tool calls as the message has, and each keeps its identifier, its name and
/// its arguments. A message without tool calls is sent without any.
pub proof fn law_tool_calls_sent(m: InternalMessageView, i: int)
    ensures
        ({
            let main = main_message(m);
            let count = calls_before(m.content, m.content.len() as int);
            &&& count == 0 ==> main.tool_calls is None
            &&& count > 0 ==> main.tool_calls is Some && main.tool_calls->0.len() == count
            &&& 0 <= i < m.content.len() ==> (m.content[i] matches ContentBlockView::ToolCall {
                id,
                function,
            } ==> {
                let call = main.tool_calls->0[calls_before(m.content, i)];
                &&& 0 <= calls_before(m.content, i) < count
                &&& call.id == id
                &&& call.kind == "function"@
                &&& call.function.name == function.name
                &&& call.function.arguments == function.arguments
            })
        }),
{
    lemma_calls_sent(m.content, m.content.len() as int, i);
    assert(m.content.take(m.content.len() as int) =~= m.content);
}

/// Whether a block is sent as the content of a message: text, an image or a document.
pub open spec fn is_content(block: ContentBlockView) -> bool {
    block is Text || block is ImageUrl || block is Document
}

/// The content that is sent is that of the last block that is content.
proof fn lemma_last_content(blocks: Seq<ContentBlockView>, i: int)
    requires
        0 <= i < blocks.len(),
        is_content(blocks[i]),
        forall|k: int| i < k < blocks.len() ==> !is_content(#[trigger] blocks[k]),
    ensures
        Some(sent_content(blocks)) == block_content(blocks[i]),
    decreases blocks.len(),
{
    if i < blocks.len() - 1 {
        assert(!is_content(blocks[blocks.len() - 1]));
        let front = blocks.drop_last();
        assert forall|k: int| i < k < front.len() implies !is_content(#[trigger] front[k]) by {
            assert(front[k] == blocks[k]);
        }
        lemma_last_content(front, i);
    }
}

/// A message reaches an OpenAI compatible backend under its role, and with the last of its texts,
/// images and documents as its content: text as a string, an image by its URL.
pub proof fn law_openai_content_sent(m: InternalMessageView, i: int)
    requires
        0 <= i < m.content.len(),
        is_content(m.content[i]),
        forall|k: int| i < k < m.content.len() ==> !is_content(#[trigger] m.content[k]),
    ensures
        ({
            let sent = openai_compat::sent_message(m);
            &&& sent.len() == 1 + sent_results(m.content).len()
            &&& sent[0] == main_message(m)
            &&& sent[0].tool_call_id is None
            &&& match m.content[i] {
                ContentBlockView::Text { text } => sent[0].content == JsonView::Str(text),
                ContentBlockView::ImageUrl { image_url } => {
                    &&& sent[0].content matches JsonView::Array(items)
                    &&& items.len() == 1
                    &&& str_field(items[0], "type"@) == Some("image_url"@)
                    &&& field(items[0], "image_url"@) matches Some(image)
                    &&& str_field(image, "url"@) == Some(image_url.url)
                },
                _ => sent[0].content == JsonView::Str(
                    "[document: OpenAI protocol does not support document blocks]"@,
                ),
            }
        }),
{
    lemma_words();
    lemma_last_content(m.content, i);
}

/// Blocks none of which is content.
proof fn lemma_no_content(blocks: Seq<ContentBlockView>)
    requires
        forall|k: int| 0 <= k < blocks.len() ==> !is_content(#[trigger] blocks[k]),
    ensures
        sent_content(blocks) is Null,
    decreases blocks.len(),
{
    if blocks.len() > 0 {
        assert(!is_content(blocks[blocks.len() - 1]));
        let front = blocks.drop_last();
        assert forall|k: int| 0 <= k < front.len() implies !is_content(#[trigger] front[k]) by {
            assert(front[k] == blocks[k]);
        }
        lemma_no_content(front);
    }
}

/// Blocks none of which is the result of a tool.
proof fn lemma_no_results(blocks: Seq<ContentBlockView>)
    requires
        forall|k: int| 0 <= k < blocks.len() ==> !((#[trigger] blocks[k]) is ToolResult),
    ensures
        sent_results(blocks).len() == 0,
    decreases blocks.len(),
{
    if blocks.len() > 0 {
        assert(!(blocks[blocks.len() - 1] is ToolResult));
        let front = blocks.drop_last();
        assert forall|k: int| 0 <= k < front.len() implies !((#[trigger] front[k])
            is ToolResult) by {
            assert(front[k] == blocks[k]);
        }
        lemma_no_results(front);
    }
}

/// A message without content is sent to an OpenAI compatible backend with null as its content, and
/// is replaced by the messages of its tool results where it has any.
pub proof fn law_openai_message_without_content(m: InternalMessageView)
    requires
        forall|k: int| 0 <= k < m.content.len() ==> !is_content(#[trigger] m.content[k]),
    ensures
        sent_results(m.content).len() > 0 ==> openai_compat::sent_message(m) == sent_results(
            m.content,
        ),
        (forall|k: int| 0 <= k < m.content.len() ==> !((#[trigger] m.content[k]) is ToolResult))
            ==> {
            let sent = openai_compat::sent_message(m);
            &&& sent.len() == 1
            &&& sent[0] == main_message(m)
            &&& sent[0].content is Null
        },
{
    lemma_no_content(m.content);
    if forall|k: int| 0 <= k < m.content.len() ==> !((#[trigger] m.content[k]) is ToolResult) {
        lemma_no_results(m.content);
    }
}

/// A message reaches an OpenAI compatible backend under the name of its role.
pub proof fn law_openai_roles(m: InternalMessageView)
    ensures
        m.role == Role::System ==> main_message(m).role == "system"@,
        m.role == Role::User ==> main_message(m).role == "user"@,
        m.role == Role::Assistant ==> main_message(m).role == "assistant"@,
        m.role == Role::Tool ==> main_message(m).role == "tool"@,
{
}

/// The JSON of a message that is sent holds its role, its content, the identifier of the call that
/// it answers, and its tool calls, each with its identifier, its name and its arguments.
pub proof fn law_openai_message_json(m: OpenAIMessageView, i: int)
    ensures
        ({
            let v = sent_message_json(m);
            &&& str_field(v, "role"@) == Some(m.role)
            &&& field(v, "content"@) == Some(m.content)
            &&& str_field(v, "tool_call_id"@) == m.tool_call_id
            &&& m.tool_calls is None ==> field(v, "tool_calls"@) is None
            &&& m.tool_calls matches Some(calls) ==> {
                &&& field(v, "tool_calls"@) matches Some(JsonView::Array(sent))
                &&& sent.len() == calls.len()
                &&& 0 <= i < calls.len() ==> {
                    &&& str_field(sent[i], "id"@) == Some(calls[i].id)
                    &&& str_field(sent[i], "type"@) == Some(calls[i].kind)
                    &&& field(sent[i], "function"@) matches Some(function)
                    &&& str_field(function, "name"@) == Some(calls[i].function.name)
                    &&& str_field(function, "arguments"@) == Some(calls[i].function.arguments)
                }
            }
        }),
{
    lemma_words();
}

/// A value with a member set.
#[verifier::opaque]
spec fn put(v: JsonView, key: Seq<char>, value: Option<JsonView>) -> JsonView {
    put_some(v, key, value)
}

/// Setting a member changes that member alone.
proof fn lemma_put(v: JsonView, key: Seq<char>, value: Option<JsonView>)
    requires
        v is Object,
    ensures
        put(v, key, value) is Object,
        field(put(v, key, value), key) == (if value is Some {
            value
        } else {
            field(v, key)
        }),
        forall|k: Seq<char>|
            k != key ==> #[trigger] field(put(v, key, value), k) == field(v, k),
{
    reveal(put);
}

/// The members of the body of a request.
proof fn lemma_request_members(r: OpenAIRequestView)
    ensures
        ({
            let body = request_json(r);
            &&& body is Object
            &&& field(body, "model"@) == Some(JsonView::Str(r.model))
            &&& field(body, "messages"@) == Some(
                JsonView::Array(r.messages.map_values(|m: OpenAIMessageView| sent_message_json(m))),
            )
            &&& field(body, "tools"@) == (match r.tools {
                Some(tools) => Some(
                    JsonView::Array(tools.map_values(|t: OpenAIToolView| sent_tool_json(t))),
                ),
                None => None,
            })
            &&& field(body, "tool_choice"@) == r.tool_choice
            &&& field(body, "response_format"@) == r.response_format
            &&& field(body, "stream"@) == (match r.stream {
                Some(b) => Some(JsonView::Bool(b)),
                None => None,
            })
            &&& field(body, "temperature"@) == opt_number_json(r.temperature)
            &&& field(body, "max_tokens"@) == opt_uint_json(r.max_tokens)
            &&& field(body, "top_p"@) == opt_number_json(r.top_p)
            &&& field(body, "frequency_penalty"@) == opt_number_json(r.frequency_penalty)
            &&& field(body, "presence_penalty"@) == opt_number_json(r.presence_penalty)
            &&& field(body, "seed"@) == opt_uint_json(r.seed)
            &&& field(body, "n"@) == (match r.n {
                Some(n) => Some(JsonView::Number(NumberView::Int(n as int))),
                None => None,
            })
            &&& field(body, "stop"@) == (match r.stop {
                Some(stop) => Some(JsonView::Array(strings(stop))),
                None => None,
            })
            &&& field(body, "stream_options"@) == r.stream_options
            &&& field(body, "user"@) == opt_text_json(r.user)
        }),
{
    lemma_words();
    let tools = match r.tools {
        Some(tools) => Some(
            JsonView::Array(tools.map_values(|t: OpenAIToolView| sent_tool_json(t))),
        ),
        None => None,
    };
    let stream = match r.stream {
        Some(b) => Some(JsonView::Bool(b)),
        None => None,
    };
    let n = match r.n {
        Some(n) => Some(JsonView::Number(NumberView::Int(n as int))),
        None => None,
    };
    let stop = match r.stop {
        Some(stop) => Some(JsonView::Array(strings(stop))),
        None => None,
    };
    let a0 = JsonView::Object(
        map![
            "model"@ => JsonView::Str(r.model),
            "messages"@ => JsonView::Array(
                r.messages.map_values(|m: OpenAIMessageView| sent_message_json(m)),
            ),
        ],
    );
    let a1 = put(a0, "tools"@, tools);
    let a2 = put(a1, "tool_choice"@, r.tool_choice);
    let v0 = put(a2, "response_format"@, r.response_format);
    let v1 = put(v0, "stream"@, stream);
    let v2 = put(v1, "temperature"@, opt_number_json(r.temperature));
    let v3 = put(v2, "max_tokens"@, opt_uint_json(r.max_tokens));
    let v4 = put(v3, "top_p"@, opt_number_json(r.top_p));
    let v5 = put(v4, "frequency_penalty"@, opt_number_json(r.frequency_penalty));
    let v6 = put(v5, "presence_penalty"@, opt_number_json(r.presence_penalty));
    let v7 = put(v6, "seed"@, opt_uint_json(r.seed));
    let v8 = put(v7, "n"@, n);
    let v9 = put(v8, "stop"@, stop);
    let v10 = put(v9, "stream_options"@, r.stream_options);
    let v11 = put(v10, "user"@, opt_text_json(r.user));
    assert(request_json(r) == v11) by {
        reveal(put);
    }
    lemma_put(a0, "tools"@, tools);
    lemma_put(a1, "tool_choice"@, r.tool_choice);
    lemma_put(a2, "response_format"@, r.response_format);
    lemma_put(v0, "stream"@, stream);
    lemma_put(v1, "temperature"@, opt_number_json(r.temperature));
    lemma_put(v2, "max_tokens"@, opt_uint_json(r.max_tokens));
    lemma_put(v3, "top_p"@, opt_number_json(r.top_p));
    lemma_put(v4, "frequency_penalty"@, opt_number_json(r.frequency_penalty));
    lemma_put(v5, "presence_penalty"@, opt_number_json(r.presence_penalty));
    lemma_put(v6, "seed"@, opt_uint_json(r.seed));
    lemma_put(v7, "n"@, n);
    lemma_put(v8, "stop"@, stop);
    lemma_put(v9, "stream_options"@, r.stream_options);
    lemma_put(v10, "user"@, opt_text_json(r.user));
}

/// The body that an OpenAI compatible backend gets holds what the request says, and leaves out what
/// it does not say.
pub proof fn law_openai_body(req: InternalRequestView, model: Seq<char>)
    ensures
        ({
            let body = request_json(openai_request(req, model));
            &&& str_field(body, "model"@) == Some(model)
            &&& field(body, "stream"@) == (if req.stream {
                Some(JsonView::Bool(true))
            } else {
                None
            })
            &&& field(body, "temperature"@) == (match req.temperature {
                Some(n) => Some(JsonView::Number(n)),
                None => None,
            })
            &&& field(body, "top_p"@) == (match req.top_p {
                Some(n) => Some(JsonView::Number(n)),
                None => None,
            })
            &&& field(body, "frequency_penalty"@) == (match req.frequency_penalty {
                Some(n) => Some(JsonView::Number(n)),
                None => None,
            })
            &&& field(body, "presence_penalty"@) == (match req.presence_penalty {
                Some(n) => Some(JsonView::Number(n)),
                None => None,
            })
            &&& field(body, "max_tokens"@) == (match req.max_tokens {
                Some(n) => Some(JsonView::Number(NumberView::Int(n as int))),
                None => None,
            })
            &&& field(body, "seed"@) == (match req.seed {
                Some(n) => Some(JsonView::Number(NumberView::Int(n as int))),
                None => None,
            })
            &&& field(body, "n"@) == (match req.n {
                Some(n) => Some(JsonView::Number(NumberView::Int(n as int))),
                None => None,
            })
            &&& field(body, "user"@) == (match req.user {
                Some(s) => Some(JsonView::Str(s)),
                None => None,
            })
            &&& field(body, "tools"@) is Some <==> req.tools is Some
            &&& field(body, "tool_choice"@) is Some <==> req.tool_choice is Some
            &&& field(body, "response_format"@) == (match req.response_format {
                Some(ResponseFormat::Text) => Some(
                    JsonView::Object(map!["type"@ => JsonView::Str("text"@)]),
                ),
                Some(ResponseFormat::JsonObject) => Some(
                    JsonView::Object(map!["type"@ => JsonView::Str("json_object"@)]),
                ),
                None => None,
            })
            &&& req.stream_options is None ==> field(body, "stream_options"@) is None
            &&& req.stream_options matches Some(options) ==> {
                &&& field(body, "stream_options"@) matches Some(sent)
                &&& field(sent, "include_usage"@) == Some(JsonView::Bool(options.include_usage))
            }
            &&& req.stop is None ==> field(body, "stop"@) is None
            &&& req.stop matches Some(stop) ==> {
                &&& field(body, "stop"@) matches Some(JsonView::Array(sent))
                &&& sent.len() == stop.len()
                &&& forall|k: int|
                    0 <= k < stop.len() ==> #[trigger] sent[k] == JsonView::Str(stop[k])
            }
        }),
{
    lemma_words();
    lemma_request_members(openai_request(req, model));
}

/// The messages of the body that an OpenAI compatible backend gets: the system prompt, where there
/// is one, under the role `system`, and after it the messages, each as its JSON.
pub proof fn law_openai_body_messages(req: InternalRequestView, model: Seq<char>, i: int)
    ensures
        ({
            let body = request_json(openai_request(req, model));
            let rest = openai_compat::sent_messages(req.messages);
            &&& field(body, "messages"@) matches Some(JsonView::Array(sent))
            &&& if req.system is Some && req.system->0.len() > 0 {
                &&& sent.len() == 1 + rest.len()
                &&& str_field(sent[0], "role"@) == Some("system"@)
                &&& str_field(sent[0], "content"@) == req.system
                &&& 0 <= i < rest.len() ==> sent[1 + i] == sent_message_json(rest[i])
            } else {
                &&& sent.len() == rest.len()
                &&& 0 <= i < rest.len() ==> sent[i] == sent_message_json(rest[i])
            }
        }),
{
    lemma_words();
    lemma_request_members(openai_request(req, model));
}

/// Each tool of a request reaches an OpenAI compatible backend in place, as a function with its
/// name, its description and its parameters.
pub proof fn law_openai_tools_sent(req: InternalRequestView, model: Seq<char>, i: int)
    requires
        req.tools matches Some(tools) && 0 <= i < tools.len(),
    ensures
        ({
            let tools = req.tools->0;
            let body = request_json(openai_request(req, model));
            &&& field(body, "tools"@) matches Some(JsonView::Array(sent))
            &&& sent.len() == tools.len()
            &&& str_field(sent[i], "type"@) == Some("function"@)
            &&& field(sent[i], "function"@) matches Some(function)
            &&& str_field(function, "name"@) == Some(tools[i].name)
            &&& str_field(function, "description"@) == tools[i].description
            &&& field(function, "parameters"@) == tools[i].parameters
        }),
{
    lemma_words();
    lemma_request_members(openai_request(req, model));
}

/// What the backends of the two protocols get for a tool choice.
pub proof fn law_tool_choice_words(req: InternalRequestView, model: Seq<char>)
    ensures
        ({
            let openai = field(request_json(openai_request(req, model)), "tool_choice"@);
            let anthropic = field(anthropic_body(req, model), "tool_choice"@);
            match req.tool_choice {
                None => openai is None && anthropic is None,
                Some(ToolChoiceView::Auto) => {
                    &&& openai == Some(JsonView::Str("auto"@))
                    &&& anthropic is Some && str_field(anthropic->0, "type"@) == Some("auto"@)
                },
                Some(ToolChoiceView::NoTool) => {
                    &&& openai == Some(JsonView::Str("none"@))
                    &&& anthropic is Some && str_field(anthropic->0, "type"@) == Some("none"@)
                },
                Some(ToolChoiceView::Any) => {
                    &&& openai == Some(JsonView::Str("required"@))
                    &&& anthropic is Some && str_field(anthropic->0, "type"@) == Some("any"@)
                },
                Some(ToolChoiceView::Specific(name)) => {
                    &&& openai is Some && str_field(openai->0, "type"@) == Some("function"@)
                    &&& field(openai->0, "function"@) matches Some(function)
                    &&& str_field(function, "name"@) == Some(name)
                    &&& anthropic is Some && str_field(anthropic->0, "type"@) == Some("tool"@)
                    &&& str_field(anthropic->0, "name"@) == Some(name)
                },
            }
        }),
{
    lemma_words();
    lemma_request_members(openai_request(req, model));
}

/// The body of a request for a stream says so to a backend of either protocol, and is otherwise that
/// of the request.
pub proof fn law_streaming_body(req: InternalRequestView, model: Seq<char>, key: Seq<char>)
    ensures
        ({
            let adapter = OpenAiCompatAdapter;
            &&& field(adapter.request_body(req, model, true), "stream"@) == Some(
                JsonView::Bool(true),
            )
            &&& adapter.request_body(req, model, true) == request_json(
                openai_request(InternalRequestView { stream: true, ..req }, model),
            )
            &&& adapter.request_body(req, model, false) == request_json(openai_request(req, model))
        }),
        ({
            let adapter = AnthropicPassthroughAdapter;
            let plain = anthropic_body(req, model);
            &&& field(adapter.request_body(req, model, true), "stream"@) == Some(
                JsonView::Bool(true),
            )
            &&& adapter.request_body(req, model, false) == plain
            &&& key != "stream"@ ==> field(adapter.request_body(req, model, true), key) == field(
                plain,
                key,
            )
        }),
{
    lemma_words();
    let streaming = openai_request(InternalRequestView { stream: true, ..req }, model);
    let body = openai_request(req, model);
    assert(streaming == (OpenAIRequestView { stream: Some(true), ..body }));
    lemma_request_members(streaming);
    let plain = anthropic_body(req, model);
    assert(plain is Object);
    lemma_put(plain, "stream"@, Some(JsonView::Bool(true)));
    assert(put(plain, "stream"@, Some(JsonView::Bool(true))) == put_some(
        plain,
        "stream"@,
        Some(JsonView::Bool(true)),
    )) by {
        reveal(put);
    }
}

} // verus!
