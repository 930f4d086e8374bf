//! What holds of the gateway as a whole: laws that relate the two protocols.

pub mod answers;
pub mod chunks;
pub mod clients;
pub mod requests;
pub mod runs;
pub mod streams;
pub mod texts;
mod words;

use vstd::prelude::*;

use crate::backend::anthropic_passthrough;
use crate::backend::anthropic_passthrough::{
    answered_block, answered_input_returns, anthropic_body, sent_block,
};
use crate::backend::openai_compat;
use crate::backend::openai_compat::{
    main_message, openai_request, result_message, role_name, sent_message, sent_results,
    OpenAIMessageView,
};
use crate::gateway::types::{
    calls_tool, ContentBlockView, InternalMessageView, InternalRequestView, InternalResponseView,
    ResponseFormat, Role, ToolChoiceView,
};
use crate::json::{field, str_field, str_field_or, JsonView};
use crate::json_codec::{plain_json, read_back_depth};
use crate::router::anthropic::{
    answer_block, answer_json, anthropic_answer, anthropic_block, anthropic_messages,
    anthropic_tool_choice, calls_with_plain_input, input_returns, tool_input,
    AnthropicContentBlockView, AnthropicMessageView,
};
use crate::router::openai::{
    chat_json, first_prompt, lemma_first_prompt, openai_answer, openai_messages,
    openai_response_format, openai_system, openai_tool_choice, prompt_text, OpenAIChatMessageView,
};

verus! {

/// A tool call of an Anthropic client, whose arguments are read back as its input, keeps that
/// input: an Anthropic backend gets it, and an answer with that call gives it back to the client.
pub proof fn law_tool_input_returns(block: JsonView)
    ensures
        calls_with_plain_input(block) && input_returns(block) ==> {
            &&& anthropic_block(block) matches Some(call)
            &&& field(sent_block(call), "input"@) == Some(tool_input(block))
            &&& answer_block(call) matches AnthropicContentBlockView::ToolUse { input, .. }
            &&& input == tool_input(block)
        },
{
    reveal_strlit("text");
    reveal_strlit("image");
    reveal_strlit("tool_use");
    assert("text"@.len() != "tool_use"@.len() && "image"@.len() != "tool_use"@.len());
}

/// A tool call of an Anthropic backend, whose arguments are read back as its input, reaches an
/// Anthropic client with that input.
pub proof fn law_answered_input_returns(block: JsonView)
    ensures
        field(block, "input"@) matches Some(input) && answered_input_returns(block) && str_field_or(
            block,
            "type"@,
            "text"@,
        ) == "tool_use"@ && plain_json(input, read_back_depth()) ==> (answer_block(
            answered_block(block),
        ) matches AnthropicContentBlockView::ToolUse { input: got, .. } && got == field(
            block,
            "input"@,
        )->0),
{
    reveal_strlit("text");
    reveal_strlit("tool_use");
    assert("text"@.len() != "tool_use"@.len());
}

/// No message of a client of either protocol has the role of the system: the system prompt stands
/// apart from the messages.
pub proof fn law_no_system_message(
    ms: Seq<AnthropicMessageView>,
    chat: Seq<OpenAIChatMessageView>,
    i: int,
)
    ensures
        anthropic_messages(ms).len() == ms.len(),
        0 <= i < ms.len() ==> anthropic_messages(ms)[i].role != Role::System,
        0 <= i < openai_messages(chat).len() ==> openai_messages(chat)[i].role != Role::System,
{
}

/// Every message of an OpenAI client but the system prompt reaches an Anthropic backend.
pub proof fn law_no_message_lost(chat: Seq<OpenAIChatMessageView>)
    ensures
        anthropic_passthrough::sent_messages(openai_messages(chat)).len() == openai_messages(
            chat,
        ).len(),
{
    let ms = openai_messages(chat);
    assert forall|i: int| 0 <= i < ms.len() implies (#[trigger] ms[i]).role != Role::System by {
        law_no_system_message(Seq::empty(), chat, i);
    }
    lemma_all_sent(ms);
}

/// Messages that are not of the system are all sent to an Anthropic backend.
proof fn lemma_all_sent(ms: Seq<InternalMessageView>)
    requires
        forall|i: int| 0 <= i < ms.len() ==> (#[trigger] ms[i]).role != Role::System,
    ensures
        anthropic_passthrough::sent_messages(ms).len() == ms.len(),
    decreases ms.len(),
{
    if ms.len() > 0 {
        let front = ms.drop_last();
        assert forall|i: int| 0 <= i < front.len() implies (#[trigger] front[i]).role
            != Role::System by {
            assert(front[i] == ms[i]);
        }
        assert(ms[ms.len() - 1].role != Role::System);
        lemma_all_sent(front);
    }
}

/// The messages that an Anthropic backend gets are those of the user and of the assistant.
pub proof fn law_anthropic_backend_roles(ms: Seq<InternalMessageView>, i: int)
    requires
        0 <= i < anthropic_passthrough::sent_messages(ms).len(),
    ensures
        ({
            let role = str_field(anthropic_passthrough::sent_messages(ms)[i], "role"@);
            role == Some("user"@) || role == Some("assistant"@)
        }),
    decreases ms.len(),
{
    reveal_strlit("role");
    reveal_strlit("content");
    assert("role"@.len() != "content"@.len());
    if ms.len() > 0 {
        let front = anthropic_passthrough::sent_messages(ms.drop_last());
        if i < front.len() {
            law_anthropic_backend_roles(ms.drop_last(), i);
        }
    }
}

/// Only messages of the system are sent with its name.
proof fn lemma_role_names(role: Role)
    ensures
        role_name(role) == "system"@ <==> role == Role::System,
{
    reveal_strlit("system");
    reveal_strlit("user");
    reveal_strlit("assistant");
    reveal_strlit("tool");
    assert("system"@.len() != "user"@.len() && "system"@.len() != "assistant"@.len()
        && "system"@.len() != "tool"@.len());
}

/// The messages that tool results are sent as have the role of a tool.
proof fn lemma_result_roles(blocks: Seq<ContentBlockView>, i: int)
    requires
        0 <= i < sent_results(blocks).len(),
    ensures
        sent_results(blocks)[i].role == "tool"@,
        sent_results(blocks)[i].tool_call_id is Some,
    decreases blocks.len(),
{
    if blocks.len() > 0 {
        let front = sent_results(blocks.drop_last());
        if i < front.len() {
            lemma_result_roles(blocks.drop_last(), i);
        }
    }
}

/// Messages that are not of the system are not sent as such.
proof fn lemma_sent_roles(ms: Seq<InternalMessageView>, i: int)
    requires
        0 <= i < openai_compat::sent_messages(ms).len(),
        forall|k: int| 0 <= k < ms.len() ==> (#[trigger] ms[k]).role != Role::System,
    ensures
        openai_compat::sent_messages(ms)[i].role != "system"@,
    decreases ms.len(),
{
    if ms.len() > 0 {
        let before = openai_compat::sent_messages(ms.drop_last());
        let last = sent_message(ms.last());
        if i < before.len() {
            assert forall|k: int| 0 <= k < ms.drop_last().len() implies (
            #[trigger] ms.drop_last()[k]).role != Role::System by {
                assert(ms.drop_last()[k] == ms[k]);
            }
            lemma_sent_roles(ms.drop_last(), i);
        } else {
            let results = sent_results(ms.last().content);
            let k = i - before.len();
            assert(openai_compat::sent_messages(ms)[i] == last[k]);
            assert(ms[ms.len() - 1].role != Role::System);
            lemma_role_names(ms.last().role);
            reveal_strlit("system");
            reveal_strlit("tool");
            assert("system"@.len() != "tool"@.len());
            if last[k] != main_message(ms.last()) {
                let at = if last.len() == results.len() {
                    k
                } else {
                    k - 1
                };
                lemma_result_roles(ms.last().content, at);
            }
        }
    }
}

/// An OpenAI compatible backend gets the system prompt as its first message, under the role
/// `system`, and no other message under that role where no message is of the system.
pub proof fn law_system_prompt_first(req: InternalRequestView, model: Seq<char>, i: int)
    requires
        req.system matches Some(s) && s.len() > 0,
    ensures
        openai_request(req, model).messages.len() > 0,
        openai_request(req, model).messages[0].role == "system"@,
        openai_request(req, model).messages[0].content == JsonView::Str(req.system->0),
        0 < i < openai_request(req, model).messages.len() && (forall|k: int|
            0 <= k < req.messages.len() ==> (#[trigger] req.messages[k]).role != Role::System)
            ==> openai_request(req, model).messages[i].role != "system"@,
{
    let sent = openai_request(req, model).messages;
    if 0 < i < sent.len() && forall|k: int|
        0 <= k < req.messages.len() ==> (#[trigger] req.messages[k]).role != Role::System {
        assert(sent[i] == openai_compat::sent_messages(req.messages)[i - 1]);
        lemma_sent_roles(req.messages, i - 1);
    }
}

/// An Anthropic backend gets the system prompt as a field of its own.
pub proof fn law_system_prompt_field(req: InternalRequestView, model: Seq<char>)
    ensures
        str_field(anthropic_body(req, model), "system"@) == (match req.system {
            Some(s) => if s.len() > 0 {
                Some(s)
            } else {
                None
            },
            None => None,
        }),
{
    reveal_strlit("system");
    reveal_strlit("model");
    reveal_strlit("messages");
    reveal_strlit("max_tokens");
    reveal_strlit("temperature");
    reveal_strlit("top_p");
    reveal_strlit("top_k");
    reveal_strlit("stop_sequences");
    reveal_strlit("tools");
    reveal_strlit("tool_choice");
    assert("system"@.len() == 6 && "model"@.len() != 6 && "messages"@.len() != 6
        && "max_tokens"@.len() != 6 && "temperature"@.len() != 6 && "top_p"@.len() != 6
        && "top_k"@.len() != 6 && "stop_sequences"@.len() != 6 && "tools"@.len() != 6
        && "tool_choice"@.len() != 6);
}

/// How many tool results there are among the first blocks of a message.
pub open spec fn results_before(blocks: Seq<ContentBlockView>, i: int) -> int
    decreases i,
{
    if i <= 0 {
        0
    } else {
        results_before(blocks, i - 1) + if blocks[i - 1] is ToolResult {
            1int
        } else {
            0int
        }
    }
}

/// The messages that tool results are sent as, one for each, in order.
proof fn lemma_results_split(blocks: Seq<ContentBlockView>, n: int, i: int)
    requires
        0 <= i < n <= blocks.len(),
    ensures
        sent_results(blocks.take(n)).len() == results_before(blocks, n),
        blocks[i] matches ContentBlockView::ToolResult { tool_use_id, content } ==> 0
            <= results_before(blocks, i) < results_before(blocks, n) && sent_results(
            blocks.take(n),
        )[results_before(blocks, i)] == result_message(tool_use_id, content),
    decreases n,
{
    assert(blocks.take(n).drop_last() =~= blocks.take(n - 1));
    assert(blocks.take(n).last() == blocks[n - 1]);
    if n == 1 {
        assert(blocks.take(0) =~= Seq::<ContentBlockView>::empty());
        assert(results_before(blocks, 0) == 0);
    } else if i < n - 1 {
        lemma_results_split(blocks, n - 1, i);
    } else {
        lemma_results_split(blocks, n - 1, 0);
    }
}

/// Each tool result of a message is sent as a message of its own, under the role `tool` and with
/// the identifier of its call; they come in order, and after the rest of the message.
pub proof fn law_tool_results_split(m: InternalMessageView, i: int)
    requires
        0 <= i < m.content.len(),
    ensures
        ({
            let results = sent_results(m.content);
            let sent = sent_message(m);
            &&& results.len() == results_before(m.content, m.content.len() as int)
            &&& results.len() <= sent.len() <= results.len() + 1
            &&& sent.skip(sent.len() - results.len()) == results
            &&& m.content[i] matches ContentBlockView::ToolResult { tool_use_id, content } ==> 0
                <= results_before(m.content, i) < results.len() && results[results_before(
                m.content,
                i,
            )] == (OpenAIMessageView {
                role: "tool"@,
                content: JsonView::Str(content),
                tool_call_id: Some(tool_use_id),
                tool_calls: None,
            })
        }),
{
    let results = sent_results(m.content);
    let sent = sent_message(m);
    lemma_results_split(m.content, m.content.len() as int, i);
    assert(m.content.take(m.content.len() as int) =~= m.content);
    assert(sent.skip(sent.len() - results.len()) =~= results);
}

/// Of the messages of an OpenAI client only the one that is the system prompt is taken out, and
/// there is a system prompt exactly where a message can be it.
pub proof fn law_one_prompt_taken(ms: Seq<OpenAIChatMessageView>)
    ensures
        openai_system(ms) is Some <==> exists|k: int|
            0 <= k < ms.len() && prompt_text(#[trigger] ms[k]) is Some,
        openai_messages(ms).len() == ms.len() - if openai_system(ms) is Some {
            1int
        } else {
            0int
        },
{
    lemma_first_prompt(ms);
    match first_prompt(ms) {
        Some(i) => {
            assert(prompt_text(ms[i]) is Some);
        },
        None => {},
    }
}

/// The model that a client is told, in either protocol, is the alias that it asked for.
pub proof fn law_client_sees_alias(r: InternalResponseView, created: u64)
    ensures
        str_field(answer_json(anthropic_answer(r)), "model"@) == Some(r.alias),
        str_field(chat_json(openai_answer(r, created)), "model"@) == Some(r.alias),
{
    reveal_strlit("model");
    reveal_strlit("content");
    reveal_strlit("usage");
    reveal_strlit("stop_reason");
    reveal_strlit("choices");
    assert("model"@[0] == 'm' && "usage"@[0] == 'u');
    assert("model"@.len() != "content"@.len() && "model"@.len() != "stop_reason"@.len()
        && "model"@.len() != "choices"@.len());
}

/// An answer that calls a tool says so to an Anthropic client, whatever reason the backend gave.
pub proof fn law_tool_call_decides(r: InternalResponseView)
    ensures
        calls_tool(r.content) ==> anthropic_answer(r).stop_reason == Some("tool_use"@),
{
}

/// A tool choice means the same in both protocols: what a backend of either protocol gets for it
/// is what a client of that protocol asks for it with.
pub proof fn law_tool_choice_returns(choice: ToolChoiceView)
    ensures
        openai_tool_choice(openai_compat::choice_json(choice)) == Some(choice),
        anthropic_tool_choice(anthropic_passthrough::sent_choice(choice)) == Some(choice),
{
    reveal_strlit("auto");
    reveal_strlit("none");
    reveal_strlit("required");
    reveal_strlit("any");
    reveal_strlit("tool");
    reveal_strlit("type");
    reveal_strlit("name");
    reveal_strlit("function");
    assert("auto"@[0] != "none"@[0] && "auto"@[0] != "tool"@[0] && "none"@[0] != "tool"@[0]);
    assert("required"@.len() != "auto"@.len() && "any"@.len() != "auto"@.len());
    assert("required"@.len() != "none"@.len() && "any"@.len() != "none"@.len());
    assert("any"@.len() != "tool"@.len());
    assert("type"@[0] != "name"@[0] && "type"@.len() != "function"@.len());
}

/// A response format reaches an OpenAI compatible backend as a client asks for it.
pub proof fn law_response_format_returns(format: ResponseFormat)
    ensures
        openai_response_format(openai_compat::format_json(format)) == Some(format),
{
    reveal_strlit("text");
    reveal_strlit("json_object");
    assert("text"@.len() != "json_object"@.len());
}

} // verus!
