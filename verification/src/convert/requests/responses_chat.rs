//! Responses requests as Chat Completions requests.

use vstd::prelude::*;

use super::chat_order;
use super::chat_order::codex_fix_chat_message_ordering;
use super::codex_chat;
use super::codex_chat::{codex_append_responses_input_as_chat_messages, codex_instruction_text};
use crate::convert::parts;
use crate::convert::parts::message;
use crate::json::arrays::gather;
use crate::json::{self, Json, JsonV};
use crate::seqs;

verus! {

/// The definition of a function in a Responses tool.
pub open spec fn function_definition(tool: JsonV) -> JsonV {
    json::jobj().put("name"@, JsonV::Str(tool.str_or("name"@, ""@))).put(
        "description"@,
        tool.get_or_null("description"@),
    ).put("parameters"@, tool.get_or_empty("parameters"@)).put_opt("strict"@, tool.get("strict"@))
}

/// The chat tool that a Responses tool becomes: none where it is no function, and the
/// tool itself where it holds its definition already.
pub open spec fn chat_tool_of_responses(tool: JsonV) -> Option<JsonV> {
    if !tool.str_is("type"@, "function"@) {
        None
    } else if tool.get("function"@) is Some {
        Some(tool)
    } else {
        Some(
            json::jobj().put("type"@, JsonV::Str("function"@)).put(
                "function"@,
                function_definition(tool),
            ),
        )
    }
}

/// Converts a Responses tool to a chat tool.
pub fn codex_responses_tool_to_chat_tool(tool: &Json) -> (r: Option<Json>)
    ensures
        json::wire::opt_json(r) == chat_tool_of_responses(tool@),
{
    if !tool.str_is("type", "function") {
        return None;
    }
    if tool.get("function").is_some() {
        return Some(tool.clone());
    }
    let f = Json::object().put("name", Json::str(tool.str_or("name", ""))).put(
        "description",
        tool.get_or_null("description"),
    ).put("parameters", tool.get_or_empty("parameters")).put_opt("strict", tool.get("strict"));
    Some(Json::object().put("type", Json::str("function")).put("function", f))
}

pub open spec fn chat_tools_fn() -> spec_fn(JsonV) -> Seq<JsonV> {
    |tool: JsonV|
        match chat_tool_of_responses(tool) {
            Some(t) => seq![t],
            None => Seq::empty(),
        }
}

fn tool_to_chat_tools(tool: &Json) -> (r: Vec<Json>)
    ensures
        json::views(r@) == chat_tools_fn()(tool@),
{
    let mut out: Vec<Json> = Vec::new();
    if let Some(t) = codex_responses_tool_to_chat_tool(tool) {
        out.push(t);
    }
    assert(json::views(out@) =~= chat_tools_fn()(tool@));
    out
}

/// The chat tools of a Responses request, where there are any.
pub open spec fn chat_tools_of_responses(body: JsonV) -> Option<JsonV> {
    match body.array_at("tools"@) {
        Some(tools) => if seqs::flat(tools, chat_tools_fn()).len() > 0 {
            Some(JsonV::Arr(seqs::flat(tools, chat_tools_fn())))
        } else {
            None
        },
        None => None,
    }
}

/// The message that carries the instructions, where there are any.
pub open spec fn instruction_message(body: JsonV) -> Seq<JsonV> {
    match body.get("instructions"@) {
        Some(i) => if codex_chat::instruction_text(i).len() > 0 {
            seq![parts::message_v("system"@, JsonV::Str(codex_chat::instruction_text(i)))]
        } else {
            Seq::empty()
        },
        None => Seq::empty(),
    }
}

/// The messages of a Responses request, as they come.
pub open spec fn messages_of_responses(body: JsonV) -> Seq<JsonV> {
    match body.get("input"@) {
        Some(input) => codex_chat::messages_with_input(instruction_message(body), input),
        None => instruction_message(body),
    }
}

/// A value with a field of a body, where the body has it.
pub open spec fn with_field(out: JsonV, body: JsonV, key: Seq<char>) -> JsonV {
    out.put_opt(key, body.get(key))
}

/// A value with the fields of a body that a chat request keeps as they are.
pub open spec fn with_chat_fields(out: JsonV, body: JsonV) -> JsonV {
    let out = with_field(out, body, "frequency_penalty"@);
    let out = with_field(out, body, "logit_bias"@);
    let out = with_field(out, body, "logprobs"@);
    let out = with_field(out, body, "metadata"@);
    let out = with_field(out, body, "n"@);
    let out = with_field(out, body, "parallel_tool_calls"@);
    let out = with_field(out, body, "presence_penalty"@);
    let out = with_field(out, body, "response_format"@);
    let out = with_field(out, body, "seed"@);
    let out = with_field(out, body, "service_tier"@);
    let out = with_field(out, body, "stop"@);
    let out = with_field(out, body, "stream_options"@);
    let out = with_field(out, body, "top_logprobs"@);
    with_field(out, body, "user"@)
}

fn keep_chat_fields(out: Json, body: &Json) -> (r: Json)
    ensures
        r@ == with_chat_fields(out@, body@),
{
    out.put_opt("frequency_penalty", body.get("frequency_penalty")).put_opt(
        "logit_bias",
        body.get("logit_bias"),
    ).put_opt("logprobs", body.get("logprobs")).put_opt("metadata", body.get("metadata")).put_opt(
        "n",
        body.get("n"),
    ).put_opt("parallel_tool_calls", body.get("parallel_tool_calls")).put_opt(
        "presence_penalty",
        body.get("presence_penalty"),
    ).put_opt("response_format", body.get("response_format")).put_opt(
        "seed",
        body.get("seed"),
    ).put_opt("service_tier", body.get("service_tier")).put_opt("stop", body.get("stop")).put_opt(
        "stream_options",
        body.get("stream_options"),
    ).put_opt("top_logprobs", body.get("top_logprobs")).put_opt("user", body.get("user"))
}

/// The fields of a chat request that come of fields of other names or forms.
pub open spec fn chat_fields(body: JsonV, model: Seq<char>) -> JsonV {
    json::jobj().put("model"@, JsonV::Str(model)).put(
        "messages"@,
        JsonV::Arr(chat_order::ordered_chat(messages_of_responses(body))),
    ).put_opt("max_tokens"@, body.get("max_output_tokens"@)).put_opt(
        "max_tokens"@,
        body.get("max_tokens"@),
    ).put_opt("max_completion_tokens"@, body.get("max_completion_tokens"@)).put_opt(
        "temperature"@,
        body.get("temperature"@),
    ).put_opt("top_p"@, body.get("top_p"@)).put_opt("stream"@, body.get("stream"@)).put_opt(
        "tools"@,
        chat_tools_of_responses(body),
    ).put_opt("tool_choice"@, body.get("tool_choice"@))
}

/// A chat request made from a Responses request.
pub open spec fn responses_as_chat(body: JsonV, model: Seq<char>) -> JsonV {
    with_chat_fields(chat_fields(body, model), body)
}

/// Converts a Responses request to a Chat Completions request.
pub fn responses_to_chat_request(body: &Json, target_model: &str) -> (r: Json)
    ensures
        r@ == responses_as_chat(body@, target_model@),
{
    broadcast use json::group_json;

    let mut messages: Vec<Json> = Vec::new();
    if let Some(i) = body.get("instructions") {
        let t = codex_instruction_text(i);
        if !t.as_str().is_empty() {
            messages.push(message("system", Json::str(t.as_str())));
        }
    }
    assert(json::views(messages@) =~= instruction_message(body@));
    if let Some(input) = body.get("input") {
        messages = codex_append_responses_input_as_chat_messages(input, messages);
    }
    let messages = codex_fix_chat_message_ordering(&messages);
    let mut out = Json::object().put("model", Json::str(target_model)).put(
        "messages",
        Json::Arr(messages),
    ).put_opt("max_tokens", body.get("max_output_tokens")).put_opt(
        "max_tokens",
        body.get("max_tokens"),
    ).put_opt("max_completion_tokens", body.get("max_completion_tokens")).put_opt(
        "temperature",
        body.get("temperature"),
    ).put_opt("top_p", body.get("top_p")).put_opt("stream", body.get("stream"));
    if let Some(tools) = body.array_at("tools") {
        let tools = gather(tools, tool_to_chat_tools, Ghost(chat_tools_fn()));
        if !tools.is_empty() {
            out = out.put("tools", Json::Arr(tools));
        }
    }
    let out = out.put_opt("tool_choice", body.get("tool_choice"));
    keep_chat_fields(out, body)
}

} // verus!
