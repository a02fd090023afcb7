//! What the conversions keep.

use vstd::prelude::*;

use super::requests::{
    anthropic_chat, anthropic_responses, chat_anthropic, chat_responses, responses_anthropic,
    responses_chat,
};
use super::responses::{to_anthropic, to_chat, to_responses};
use crate::json::JsonV;

verus! {

/// The keys beside the model's in requests and responses are other keys.
proof fn lemma_model_key()
    ensures
        "input"@ != "model"@,
        "tools"@ != "model"@,
        "usage"@ != "model"@,
        "top_p"@ != "model"@,
        "messages"@ != "model"@,
        "max_tokens"@ != "model"@,
        "temperature"@ != "model"@,
        "stream"@ != "model"@,
        "tool_choice"@ != "model"@,
        "instructions"@ != "model"@,
        "max_output_tokens"@ != "model"@,
        "system"@ != "model"@,
        "stop_sequences"@ != "model"@,
        "metadata"@ != "model"@,
        "max_completion_tokens"@ != "model"@,
        "thinking"@ != "model"@,
        "frequency_penalty"@ != "model"@,
        "logit_bias"@ != "model"@,
        "logprobs"@ != "model"@,
        "n"@ != "model"@,
        "parallel_tool_calls"@ != "model"@,
        "presence_penalty"@ != "model"@,
        "response_format"@ != "model"@,
        "seed"@ != "model"@,
        "service_tier"@ != "model"@,
        "stop"@ != "model"@,
        "stream_options"@ != "model"@,
        "top_logprobs"@ != "model"@,
        "user"@ != "model"@,
        "id"@ != "model"@,
        "object"@ != "model"@,
        "created"@ != "model"@,
        "choices"@ != "model"@,
        "created_at"@ != "model"@,
        "status"@ != "model"@,
        "output"@ != "model"@,
        "incomplete_details"@ != "model"@,
        "output_text"@ != "model"@,
        "type"@ != "model"@,
        "role"@ != "model"@,
        "content"@ != "model"@,
        "stop_reason"@ != "model"@,
        "stop_sequence"@ != "model"@,
{
    reveal_strlit("model");
    assert("model"@.len() == 5 && "model"@[0] == 'm');
    reveal_strlit("input");
    reveal_strlit("tools");
    reveal_strlit("usage");
    reveal_strlit("top_p");
    reveal_strlit("messages");
    reveal_strlit("max_tokens");
    reveal_strlit("temperature");
    reveal_strlit("stream");
    reveal_strlit("tool_choice");
    reveal_strlit("instructions");
    reveal_strlit("max_output_tokens");
    reveal_strlit("system");
    reveal_strlit("stop_sequences");
    reveal_strlit("metadata");
    reveal_strlit("max_completion_tokens");
    reveal_strlit("thinking");
    reveal_strlit("frequency_penalty");
    reveal_strlit("logit_bias");
    reveal_strlit("logprobs");
    reveal_strlit("n");
    reveal_strlit("parallel_tool_calls");
    reveal_strlit("presence_penalty");
    reveal_strlit("response_format");
    reveal_strlit("seed");
    reveal_strlit("service_tier");
    reveal_strlit("stop");
    reveal_strlit("stream_options");
    reveal_strlit("top_logprobs");
    reveal_strlit("user");
    reveal_strlit("id");
    reveal_strlit("object");
    reveal_strlit("created");
    reveal_strlit("choices");
    reveal_strlit("created_at");
    reveal_strlit("status");
    reveal_strlit("output");
    reveal_strlit("incomplete_details");
    reveal_strlit("output_text");
    reveal_strlit("type");
    reveal_strlit("role");
    reveal_strlit("content");
    reveal_strlit("stop_reason");
    reveal_strlit("stop_sequence");
    assert("input"@[0] == 'i');
    assert("tools"@[0] == 't');
    assert("usage"@[0] == 'u');
    assert("top_p"@[0] == 't');
    assert("messages"@.len() == 8);
    assert("max_tokens"@.len() == 10);
    assert("temperature"@.len() == 11);
    assert("stream"@.len() == 6);
    assert("tool_choice"@.len() == 11);
    assert("instructions"@.len() == 12);
    assert("max_output_tokens"@.len() == 17);
    assert("system"@.len() == 6);
    assert("stop_sequences"@.len() == 14);
    assert("metadata"@.len() == 8);
    assert("max_completion_tokens"@.len() == 21);
    assert("thinking"@.len() == 8);
    assert("frequency_penalty"@.len() == 17);
    assert("logit_bias"@.len() == 10);
    assert("logprobs"@.len() == 8);
    assert("n"@.len() == 1);
    assert("parallel_tool_calls"@.len() == 19);
    assert("presence_penalty"@.len() == 16);
    assert("response_format"@.len() == 15);
    assert("seed"@.len() == 4);
    assert("service_tier"@.len() == 12);
    assert("stop"@.len() == 4);
    assert("stream_options"@.len() == 14);
    assert("top_logprobs"@.len() == 12);
    assert("user"@.len() == 4);
    assert("id"@.len() == 2);
    assert("object"@.len() == 6);
    assert("created"@.len() == 7);
    assert("choices"@.len() == 7);
    assert("created_at"@.len() == 10);
    assert("status"@.len() == 6);
    assert("output"@.len() == 6);
    assert("incomplete_details"@.len() == 18);
    assert("output_text"@.len() == 11);
    assert("type"@.len() == 4);
    assert("role"@.len() == 4);
    assert("content"@.len() == 7);
    assert("stop_reason"@.len() == 11);
    assert("stop_sequence"@.len() == 13);
}

/// The keys beside the stream's in requests are other keys.
proof fn lemma_stream_key()
    ensures
        "model"@ != "stream"@,
        "messages"@ != "stream"@,
        "max_tokens"@ != "stream"@,
        "temperature"@ != "stream"@,
        "instructions"@ != "stream"@,
        "input"@ != "stream"@,
        "max_output_tokens"@ != "stream"@,
        "max_completion_tokens"@ != "stream"@,
        "top_p"@ != "stream"@,
        "stop_sequences"@ != "stream"@,
        "tools"@ != "stream"@,
        "tool_choice"@ != "stream"@,
        "metadata"@ != "stream"@,
        "thinking"@ != "stream"@,
        "frequency_penalty"@ != "stream"@,
        "logit_bias"@ != "stream"@,
        "logprobs"@ != "stream"@,
        "n"@ != "stream"@,
        "parallel_tool_calls"@ != "stream"@,
        "presence_penalty"@ != "stream"@,
        "response_format"@ != "stream"@,
        "seed"@ != "stream"@,
        "service_tier"@ != "stream"@,
        "stop"@ != "stream"@,
        "stream_options"@ != "stream"@,
        "top_logprobs"@ != "stream"@,
        "user"@ != "stream"@,
        "system"@ != "stream"@,
{
    reveal_strlit("stream");
    reveal_strlit("system");
    assert("stream"@.len() == 6 && "stream"@[1] == 't' && "system"@[1] == 'y');
    reveal_strlit("model");
    reveal_strlit("messages");
    reveal_strlit("max_tokens");
    reveal_strlit("temperature");
    reveal_strlit("instructions");
    reveal_strlit("input");
    reveal_strlit("max_output_tokens");
    reveal_strlit("max_completion_tokens");
    reveal_strlit("top_p");
    reveal_strlit("stop_sequences");
    reveal_strlit("tools");
    reveal_strlit("tool_choice");
    reveal_strlit("metadata");
    reveal_strlit("thinking");
    reveal_strlit("frequency_penalty");
    reveal_strlit("logit_bias");
    reveal_strlit("logprobs");
    reveal_strlit("n");
    reveal_strlit("parallel_tool_calls");
    reveal_strlit("presence_penalty");
    reveal_strlit("response_format");
    reveal_strlit("seed");
    reveal_strlit("service_tier");
    reveal_strlit("stop");
    reveal_strlit("stream_options");
    reveal_strlit("top_logprobs");
    reveal_strlit("user");
    assert("model"@.len() == 5);
    assert("messages"@.len() == 8);
    assert("max_tokens"@.len() == 10);
    assert("temperature"@.len() == 11);
    assert("instructions"@.len() == 12);
    assert("input"@.len() == 5);
    assert("max_output_tokens"@.len() == 17);
    assert("max_completion_tokens"@.len() == 21);
    assert("top_p"@.len() == 5);
    assert("stop_sequences"@.len() == 14);
    assert("tools"@.len() == 5);
    assert("tool_choice"@.len() == 11);
    assert("metadata"@.len() == 8);
    assert("thinking"@.len() == 8);
    assert("frequency_penalty"@.len() == 17);
    assert("logit_bias"@.len() == 10);
    assert("logprobs"@.len() == 8);
    assert("n"@.len() == 1);
    assert("parallel_tool_calls"@.len() == 19);
    assert("presence_penalty"@.len() == 16);
    assert("response_format"@.len() == 15);
    assert("seed"@.len() == 4);
    assert("service_tier"@.len() == 12);
    assert("stop"@.len() == 4);
    assert("stream_options"@.len() == 14);
    assert("top_logprobs"@.len() == 12);
    assert("user"@.len() == 4);
}

proof fn lemma_anthropic_as_chat(body: JsonV, model: Seq<char>)
    ensures
        anthropic_chat::anthropic_as_chat(body, model).str_at("model"@) == Some(model),
        anthropic_chat::anthropic_as_chat(body, model).get("stream"@) == body.get("stream"@),
{
    lemma_model_key();
    lemma_stream_key();
}

proof fn lemma_anthropic_as_responses(body: JsonV, model: Seq<char>)
    ensures
        anthropic_responses::anthropic_as_responses(body, model).str_at("model"@) == Some(model),
        anthropic_responses::anthropic_as_responses(body, model).get("stream"@) == body.get("stream"@),
{
    lemma_model_key();
    lemma_stream_key();
}

proof fn lemma_chat_as_anthropic(body: JsonV, model: Seq<char>)
    ensures
        chat_anthropic::chat_as_anthropic(body, model).str_at("model"@) == Some(model),
        chat_anthropic::chat_as_anthropic(body, model).get("stream"@) == body.get("stream"@),
{
    lemma_model_key();
    lemma_stream_key();
}

proof fn lemma_chat_as_responses(body: JsonV, model: Seq<char>)
    ensures
        chat_responses::chat_as_responses(body, model).str_at("model"@) == Some(model),
        chat_responses::chat_as_responses(body, model).get("stream"@) == body.get("stream"@),
{
    lemma_model_key();
    lemma_stream_key();
}

/// A field that is kept changes no other key.
proof fn lemma_with_field(out: JsonV, body: JsonV, key: Seq<char>)
    requires
        out is Obj,
        key != "model"@,
        key != "stream"@,
    ensures
        responses_chat::with_field(out, body, key) is Obj,
        responses_chat::with_field(out, body, key).get("model"@) == out.get("model"@),
        responses_chat::with_field(out, body, key).get("stream"@) == out.get("stream"@),
{
}

/// The fields that a chat request keeps change neither the model nor the stream.
proof fn lemma_chat_fields(out: JsonV, body: JsonV)
    requires
        out is Obj,
    ensures
        responses_chat::with_chat_fields(out, body).get("model"@) == out.get("model"@),
        responses_chat::with_chat_fields(out, body).get("stream"@) == out.get("stream"@),
{
    lemma_model_key();
    lemma_stream_key();
    let o1 = responses_chat::with_field(out, body, "frequency_penalty"@);
    lemma_with_field(out, body, "frequency_penalty"@);
    let o2 = responses_chat::with_field(o1, body, "logit_bias"@);
    lemma_with_field(o1, body, "logit_bias"@);
    let o3 = responses_chat::with_field(o2, body, "logprobs"@);
    lemma_with_field(o2, body, "logprobs"@);
    let o4 = responses_chat::with_field(o3, body, "metadata"@);
    lemma_with_field(o3, body, "metadata"@);
    let o5 = responses_chat::with_field(o4, body, "n"@);
    lemma_with_field(o4, body, "n"@);
    let o6 = responses_chat::with_field(o5, body, "parallel_tool_calls"@);
    lemma_with_field(o5, body, "parallel_tool_calls"@);
    let o7 = responses_chat::with_field(o6, body, "presence_penalty"@);
    lemma_with_field(o6, body, "presence_penalty"@);
    let o8 = responses_chat::with_field(o7, body, "response_format"@);
    lemma_with_field(o7, body, "response_format"@);
    let o9 = responses_chat::with_field(o8, body, "seed"@);
    lemma_with_field(o8, body, "seed"@);
    let o10 = responses_chat::with_field(o9, body, "service_tier"@);
    lemma_with_field(o9, body, "service_tier"@);
    let o11 = responses_chat::with_field(o10, body, "stop"@);
    lemma_with_field(o10, body, "stop"@);
    let o12 = responses_chat::with_field(o11, body, "stream_options"@);
    lemma_with_field(o11, body, "stream_options"@);
    let o13 = responses_chat::with_field(o12, body, "top_logprobs"@);
    lemma_with_field(o12, body, "top_logprobs"@);
    let o14 = responses_chat::with_field(o13, body, "user"@);
    lemma_with_field(o13, body, "user"@);
}

proof fn lemma_responses_as_chat(body: JsonV, model: Seq<char>)
    ensures
        responses_chat::responses_as_chat(body, model).str_at("model"@) == Some(model),
        responses_chat::responses_as_chat(body, model).get("stream"@) == body.get("stream"@),
{
    lemma_model_key();
    lemma_stream_key();
    lemma_chat_fields(responses_chat::chat_fields(body, model), body);
}

proof fn lemma_responses_as_anthropic(body: JsonV, model: Seq<char>)
    ensures
        responses_anthropic::responses_as_anthropic(body, model).str_at("model"@) == Some(model),
        responses_anthropic::responses_as_anthropic(body, model).get("stream"@) == body.get("stream"@),
{
    lemma_model_key();
    lemma_stream_key();
}

/// A converted request names the model that it goes to, whatever model it named before.
pub proof fn lemma_request_names_target(body: JsonV, model: Seq<char>)
    ensures
        anthropic_chat::anthropic_as_chat(body, model).str_at("model"@) == Some(model),
        anthropic_responses::anthropic_as_responses(body, model).str_at("model"@) == Some(model),
        chat_anthropic::chat_as_anthropic(body, model).str_at("model"@) == Some(model),
        chat_responses::chat_as_responses(body, model).str_at("model"@) == Some(model),
        responses_chat::responses_as_chat(body, model).str_at("model"@) == Some(model),
        responses_anthropic::responses_as_anthropic(body, model).str_at("model"@) == Some(model),
{
    lemma_anthropic_as_chat(body, model);
    lemma_anthropic_as_responses(body, model);
    lemma_chat_as_anthropic(body, model);
    lemma_chat_as_responses(body, model);
    lemma_responses_as_chat(body, model);
    lemma_responses_as_anthropic(body, model);
}

/// A converted request asks for a stream just as the request did.
pub proof fn lemma_request_keeps_stream(body: JsonV, model: Seq<char>)
    ensures
        anthropic_chat::anthropic_as_chat(body, model).get("stream"@) == body.get("stream"@),
        anthropic_responses::anthropic_as_responses(body, model).get("stream"@) == body.get("stream"@),
        chat_anthropic::chat_as_anthropic(body, model).get("stream"@) == body.get("stream"@),
        chat_responses::chat_as_responses(body, model).get("stream"@) == body.get("stream"@),
        responses_chat::responses_as_chat(body, model).get("stream"@) == body.get("stream"@),
        responses_anthropic::responses_as_anthropic(body, model).get("stream"@) == body.get("stream"@),
{
    lemma_anthropic_as_chat(body, model);
    lemma_anthropic_as_responses(body, model);
    lemma_chat_as_anthropic(body, model);
    lemma_chat_as_responses(body, model);
    lemma_responses_as_chat(body, model);
    lemma_responses_as_anthropic(body, model);
}

/// A converted response names the model that the client asked for, whatever model the
/// provider named.
pub proof fn lemma_response_names_request_model(body: JsonV, model: Seq<char>, now: u64)
    ensures
        to_anthropic::chat_response_as_anthropic(body, model).str_at("model"@) == Some(model),
        to_anthropic::responses_response_as_anthropic(body, model).str_at("model"@) == Some(model),
        to_chat::anthropic_response_as_chat(body, model, now).str_at("model"@) == Some(model),
        to_chat::responses_response_as_chat(body, model).str_at("model"@) == Some(model),
        to_responses::chat_response_as_responses(body, model).str_at("model"@) == Some(model),
        to_responses::anthropic_response_as_responses(body, model, now).str_at("model"@) == Some(
            model,
        ),
{
    lemma_model_key();
}

} // verus!
