//! The words of the two protocols.

use vstd::prelude::*;

verus! {

/// The words of the two protocols are told apart by their lengths and, among those of one length,
/// by their characters.
pub(crate) proof fn lemma_words()
    ensures
        ""@.len() == 0,
        "n"@.len() == 1,
        "id"@.len() == 2,
        "any"@.len() == 3 && "any"@[0] == 'a',
        "url"@.len() == 3 && "url"@[0] == 'u',
        "auto"@.len() == 4 && "auto"@[0] == 'a' && "auto"@[2] == 't',
        "code"@.len() == 4 && "code"@[0] == 'c' && "code"@[2] == 'd',
        "data"@.len() == 4 && "data"@[0] == 'd' && "data"@[2] == 't',
        "list"@.len() == 4 && "list"@[0] == 'l' && "list"@[2] == 's',
        "msg_"@.len() == 4 && "msg_"@[0] == 'm' && "msg_"@[2] == 'g',
        "name"@.len() == 4 && "name"@[0] == 'n' && "name"@[2] == 'm',
        "none"@.len() == 4 && "none"@[0] == 'n' && "none"@[2] == 'n',
        "role"@.len() == 4 && "role"@[0] == 'r' && "role"@[2] == 'l',
        "seed"@.len() == 4 && "seed"@[0] == 's' && "seed"@[2] == 'e',
        "stop"@.len() == 4 && "stop"@[0] == 's' && "stop"@[2] == 'o',
        "text"@.len() == 4 && "text"@[0] == 't' && "text"@[2] == 'x',
        "tool"@.len() == 4 && "tool"@[0] == 't' && "tool"@[2] == 'o',
        "type"@.len() == 4 && "type"@[0] == 't' && "type"@[2] == 'p',
        "user"@.len() == 4 && "user"@[0] == 'u' && "user"@[2] == 'e',
        "delta"@.len() == 5 && "delta"@[0] == 'd' && "delta"@[4] == 'a',
        "error"@.len() == 5 && "error"@[0] == 'e' && "error"@[4] == 'r',
        "image"@.len() == 5 && "image"@[0] == 'i' && "image"@[4] == 'e',
        "index"@.len() == 5 && "index"@[0] == 'i' && "index"@[4] == 'x',
        "input"@.len() == 5 && "input"@[0] == 'i' && "input"@[4] == 't',
        "model"@.len() == 5 && "model"@[0] == 'm' && "model"@[4] == 'l',
        "tools"@.len() == 5 && "tools"@[0] == 't' && "tools"@[4] == 's',
        "top_k"@.len() == 5 && "top_k"@[0] == 't' && "top_k"@[4] == 'k',
        "top_p"@.len() == 5 && "top_p"@[0] == 't' && "top_p"@[4] == 'p',
        "usage"@.len() == 5 && "usage"@[0] == 'u' && "usage"@[4] == 'e',
        "base64"@.len() == 6 && "base64"@[0] == 'b' && "base64"@[2] == 's',
        "bearer"@.len() == 6 && "bearer"@[0] == 'b' && "bearer"@[2] == 'a',
        "detail"@.len() == 6 && "detail"@[0] == 'd' && "detail"@[2] == 't',
        "length"@.len() == 6 && "length"@[0] == 'l' && "length"@[2] == 'n',
        "mygate"@.len() == 6 && "mygate"@[0] == 'm' && "mygate"@[2] == 'g',
        "object"@.len() == 6 && "object"@[0] == 'o' && "object"@[2] == 'j',
        "openai"@.len() == 6 && "openai"@[0] == 'o' && "openai"@[2] == 'e',
        "prompt"@.len() == 6 && "prompt"@[0] == 'p' && "prompt"@[2] == 'o',
        "source"@.len() == 6 && "source"@[0] == 's' && "source"@[2] == 'u',
        "status"@.len() == 6 && "status"@[0] == 's' && "status"@[2] == 'a',
        "stream"@.len() == 6 && "stream"@[0] == 's' && "stream"@[2] == 'r',
        "system"@.len() == 6 && "system"@[0] == 's' && "system"@[2] == 's',
        "aliases"@.len() == 7 && "aliases"@[1] == 'l',
        "choices"@.len() == 7 && "choices"@[1] == 'h',
        "content"@.len() == 7 && "content"@[1] == 'o',
        "created"@.len() == 7 && "created"@[1] == 'r',
        "message"@.len() == 7 && "message"@[1] == 'e',
        "success"@.len() == 7 && "success"@[1] == 'u',
        "unknown"@.len() == 7 && "unknown"@[1] == 'n',
        "document"@.len() == 8 && "document"@[0] == 'd' && "document"@[2] == 'c',
        "end_turn"@.len() == 8 && "end_turn"@[0] == 'e' && "end_turn"@[2] == 'd',
        "fallback"@.len() == 8 && "fallback"@[0] == 'f' && "fallback"@[2] == 'l',
        "function"@.len() == 8 && "function"@[0] == 'f' && "function"@[2] == 'n',
        "messages"@.len() == 8 && "messages"@[0] == 'm' && "messages"@[2] == 's',
        "owned_by"@.len() == 8 && "owned_by"@[0] == 'o' && "owned_by"@[2] == 'n',
        "required"@.len() == 8 && "required"@[0] == 'r' && "required"@[2] == 'q',
        "thinking"@.len() == 8 && "thinking"@[0] == 't' && "thinking"@[2] == 'i',
        "tool_use"@.len() == 8 && "tool_use"@[0] == 't' && "tool_use"@[2] == 'o',
        "anthropic"@.len() == 9 && "anthropic"@[2] == 't',
        "arguments"@.len() == 9 && "arguments"@[2] == 'g',
        "assistant"@.len() == 9 && "assistant"@[2] == 's',
        "image_url"@.len() == 9 && "image_url"@[2] == 'a',
        "providers"@.len() == 9 && "providers"@[2] == 'o',
        "completion"@.len() == 10 && "completion"@[3] == 'p',
        "max_tokens"@.len() == 10 && "max_tokens"@[3] == '_',
        "media_type"@.len() == 10 && "media_type"@[3] == 'i',
        "parameters"@.len() == 10 && "parameters"@[3] == 'a',
        "text_delta"@.len() == 10 && "text_delta"@[3] == 't',
        "tool_calls"@.len() == 10 && "tool_calls"@[3] == 'l',
        "description"@.len() == 11 && "description"@[0] == 'd' && "description"@[6] == 'p',
        "json_object"@.len() == 11 && "json_object"@[0] == 'j' && "json_object"@[6] == 'b',
        "stop_reason"@.len() == 11 && "stop_reason"@[0] == 's' && "stop_reason"@[6] == 'e',
        "temperature"@.len() == 11 && "temperature"@[0] == 't' && "temperature"@[6] == 'a',
        "tool_choice"@.len() == 11 && "tool_choice"@[0] == 't' && "tool_choice"@[6] == 'h',
        "tool_result"@.len() == 11 && "tool_result"@[0] == 't' && "tool_result"@[6] == 'e',
        "tool_use_id"@.len() == 11 && "tool_use_id"@[0] == 't' && "tool_use_id"@[6] == 's',
        "input_schema"@.len() == 12 && "input_schema"@[2] == 'p' && "input_schema"@[6] == 's',
        "input_tokens"@.len() == 12 && "input_tokens"@[2] == 'p' && "input_tokens"@[6] == 't',
        "message_stop"@.len() == 12 && "message_stop"@[2] == 's' && "message_stop"@[6] == 'e',
        "partial_json"@.len() == 12 && "partial_json"@[2] == 'r' && "partial_json"@[6] == 'l',
        "tool_call_id"@.len() == 12 && "tool_call_id"@[2] == 'o' && "tool_call_id"@[6] == 'a',
        "total_tokens"@.len() == 12 && "total_tokens"@[2] == 't' && "total_tokens"@[6] == 't',
        "content_block"@.len() == 13 && "content_block"@[1] == 'o' && "content_block"@[8] == 'b',
        "finish_reason"@.len() == 13 && "finish_reason"@[1] == 'i' && "finish_reason"@[8] == 'e',
        "gateway_error"@.len() == 13 && "gateway_error"@[1] == 'a' && "gateway_error"@[8] == 'e',
        "include_usage"@.len() == 13 && "include_usage"@[1] == 'n' && "include_usage"@[8] == 'u',
        "message_delta"@.len() == 13 && "message_delta"@[1] == 'e' && "message_delta"@[8] == 'd',
        "message_start"@.len() == 13 && "message_start"@[1] == 'e' && "message_start"@[8] == 's',
        "openai_compat"@.len() == 13 && "openai_compat"@[1] == 'p' && "openai_compat"@[8] == 'o',
        "output_tokens"@.len() == 13 && "output_tokens"@[1] == 'u' && "output_tokens"@[8] == 'o',
        "prompt_tokens"@.len() == 13 && "prompt_tokens"@[1] == 'r' && "prompt_tokens"@[8] == 'o',
        "stop_sequence"@.len() == 13 && "stop_sequence"@[1] == 't' && "stop_sequence"@[8] == 'u',
        "stop_sequences"@.len() == 14 && "stop_sequences"@[2] == 'o',
        "stream_options"@.len() == 14 && "stream_options"@[2] == 'r',
        "thinking_delta"@.len() == 14 && "thinking_delta"@[2] == 'i',
        "response_format"@.len() == 15,
        "input_json_delta"@.len() == 16 && "input_json_delta"@[0] == 'i',
        "presence_penalty"@.len() == 16 && "presence_penalty"@[0] == 'p',
        "completion_tokens"@.len() == 17 && "completion_tokens"@[0] == 'c',
        "frequency_penalty"@.len() == 17 && "frequency_penalty"@[0] == 'f',
        "reasoning_content"@.len() == 17 && "reasoning_content"@[0] == 'r',
        "content_block_stop"@.len() == 18 && "content_block_stop"@[0] == 'c',
        "fallback_exhausted"@.len() == 18 && "fallback_exhausted"@[0] == 'f',
        "content_block_delta"@.len() == 19 && "content_block_delta"@[14] == 'd',
        "content_block_start"@.len() == 19 && "content_block_start"@[14] == 's',
        "anthropic_passthrough"@.len() == 21,
{
    reveal_strlit("");
    reveal_strlit("n");
    reveal_strlit("id");
    reveal_strlit("any");
    reveal_strlit("url");
    reveal_strlit("auto");
    reveal_strlit("code");
    reveal_strlit("data");
    reveal_strlit("list");
    reveal_strlit("msg_");
    reveal_strlit("name");
    reveal_strlit("none");
    reveal_strlit("role");
    reveal_strlit("seed");
    reveal_strlit("stop");
    reveal_strlit("text");
    reveal_strlit("tool");
    reveal_strlit("type");
    reveal_strlit("user");
    reveal_strlit("delta");
    reveal_strlit("error");
    reveal_strlit("image");
    reveal_strlit("index");
    reveal_strlit("input");
    reveal_strlit("model");
    reveal_strlit("tools");
    reveal_strlit("top_k");
    reveal_strlit("top_p");
    reveal_strlit("usage");
    reveal_strlit("base64");
    reveal_strlit("bearer");
    reveal_strlit("detail");
    reveal_strlit("length");
    reveal_strlit("mygate");
    reveal_strlit("object");
    reveal_strlit("openai");
    reveal_strlit("prompt");
    reveal_strlit("source");
    reveal_strlit("status");
    reveal_strlit("stream");
    reveal_strlit("system");
    reveal_strlit("aliases");
    reveal_strlit("choices");
    reveal_strlit("content");
    reveal_strlit("created");
    reveal_strlit("message");
    reveal_strlit("success");
    reveal_strlit("unknown");
    reveal_strlit("document");
    reveal_strlit("end_turn");
    reveal_strlit("fallback");
    reveal_strlit("function");
    reveal_strlit("messages");
    reveal_strlit("owned_by");
    reveal_strlit("required");
    reveal_strlit("thinking");
    reveal_strlit("tool_use");
    reveal_strlit("anthropic");
    reveal_strlit("arguments");
    reveal_strlit("assistant");
    reveal_strlit("image_url");
    reveal_strlit("providers");
    reveal_strlit("completion");
    reveal_strlit("max_tokens");
    reveal_strlit("media_type");
    reveal_strlit("parameters");
    reveal_strlit("text_delta");
    reveal_strlit("tool_calls");
    reveal_strlit("description");
    reveal_strlit("json_object");
    reveal_strlit("stop_reason");
    reveal_strlit("temperature");
    reveal_strlit("tool_choice");
    reveal_strlit("tool_result");
    reveal_strlit("tool_use_id");
    reveal_strlit("input_schema");
    reveal_strlit("input_tokens");
    reveal_strlit("message_stop");
    reveal_strlit("partial_json");
    reveal_strlit("tool_call_id");
    reveal_strlit("total_tokens");
    reveal_strlit("content_block");
    reveal_strlit("finish_reason");
    reveal_strlit("gateway_error");
    reveal_strlit("include_usage");
    reveal_strlit("message_delta");
    reveal_strlit("message_start");
    reveal_strlit("openai_compat");
    reveal_strlit("output_tokens");
    reveal_strlit("prompt_tokens");
    reveal_strlit("stop_sequence");
    reveal_strlit("stop_sequences");
    reveal_strlit("stream_options");
    reveal_strlit("thinking_delta");
    reveal_strlit("response_format");
    reveal_strlit("input_json_delta");
    reveal_strlit("presence_penalty");
    reveal_strlit("completion_tokens");
    reveal_strlit("frequency_penalty");
    reveal_strlit("reasoning_content");
    reveal_strlit("content_block_stop");
    reveal_strlit("fallback_exhausted");
    reveal_strlit("content_block_delta");
    reveal_strlit("content_block_start");
    reveal_strlit("anthropic_passthrough");
}

} // verus!
