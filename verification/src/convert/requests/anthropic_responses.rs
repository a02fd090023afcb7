//! Anthropic Messages requests as Responses requests.

use vstd::prelude::*;

use super::anthropic_chat;
use super::anthropic_chat::{choice_of_mode, input_schema, text_of_user_block};
use crate::convert::parts;
use crate::convert::parts::{extract_text_from_content, message, text_block};
use crate::json::arrays::{each, gather, gather_texts};
use crate::json::{self, Json, JsonV};
use crate::seqs;
use crate::text;
use crate::text::same;

verus! {

/// An item that calls a function.
pub open spec fn function_call_v(id: Seq<char>, name: Seq<char>, arguments: Seq<char>) -> JsonV {
    json::jobj().put("type"@, JsonV::Str("function_call"@)).put("call_id"@, JsonV::Str(id)).put(
        "name"@,
        JsonV::Str(name),
    ).put("arguments"@, JsonV::Str(arguments))
}

pub(crate) fn function_call(id: &str, name: &str, arguments: &str) -> (r: Json)
    ensures
        r@ == function_call_v(id@, name@, arguments@),
{
    Json::object().put("type", Json::str("function_call")).put("call_id", Json::str(id)).put(
        "name",
        Json::str(name),
    ).put("arguments", Json::str(arguments))
}

/// An item with the output of a function.
pub open spec fn function_output_v(id: Seq<char>, output: Seq<char>) -> JsonV {
    json::jobj().put("type"@, JsonV::Str("function_call_output"@)).put(
        "call_id"@,
        JsonV::Str(id),
    ).put("output"@, JsonV::Str(output))
}

pub(crate) fn function_output(id: &str, output: &str) -> (r: Json)
    ensures
        r@ == function_output_v(id@, output@),
{
    Json::object().put("type", Json::str("function_call_output")).put("call_id", Json::str(id)).put(
        "output",
        Json::str(output),
    )
}

/// The text part of a block of an assistant: none for thinking and for tools.
pub open spec fn output_text(b: JsonV) -> Seq<JsonV> {
    if b.str_is("type"@, "tool_use"@) || b.str_is("type"@, "thinking"@) {
        Seq::empty()
    } else {
        match b.str_at("text"@) {
            Some(t) => seq![parts::text_block_v("output_text"@, t)],
            None => Seq::empty(),
        }
    }
}

pub open spec fn output_text_fn() -> spec_fn(JsonV) -> Seq<JsonV> {
    |b: JsonV| output_text(b)
}

fn block_to_output_text(b: &Json) -> (r: Vec<Json>)
    ensures
        json::views(r@) == output_text(b@),
{
    let mut out: Vec<Json> = Vec::new();
    if b.str_is("type", "tool_use") || b.str_is("type", "thinking") {
    } else if let Some(t) = b.str_at("text") {
        out.push(text_block("output_text", t));
    }
    assert(json::views(out@) =~= output_text(b@));
    out
}

/// The function call that a block asks for: its input is written out as JSON text.
pub open spec fn block_function_call(b: JsonV) -> Seq<JsonV> {
    if b.str_is("type"@, "tool_use"@) {
        seq![
            function_call_v(
                b.str_or("id"@, ""@),
                b.str_or("name"@, ""@),
                json::wire::json_text(b.get_or_empty("input"@)),
            ),
        ]
    } else {
        Seq::empty()
    }
}

pub open spec fn block_function_call_fn() -> spec_fn(JsonV) -> Seq<JsonV> {
    |b: JsonV| block_function_call(b)
}

fn function_call_of_block(b: &Json) -> (r: Vec<Json>)
    ensures
        json::views(r@) == block_function_call(b@),
{
    let mut out: Vec<Json> = Vec::new();
    if b.str_is("type", "tool_use") {
        let input = b.get_or_empty("input").to_text();
        out.push(function_call(b.str_or("id", ""), b.str_or("name", ""), input.as_str()));
    }
    assert(json::views(out@) =~= block_function_call(b@));
    out
}

/// The text parts of an assistant's content.
pub open spec fn assistant_output(content: Option<JsonV>) -> Seq<JsonV> {
    match content {
        Some(JsonV::Arr(blocks)) => seqs::flat(blocks, output_text_fn()),
        Some(JsonV::Str(s)) => super::chat_anthropic::text_block_if_any("output_text"@, Some(s)),
        _ => Seq::empty(),
    }
}

/// The function calls of an assistant's content.
pub open spec fn assistant_calls(content: Option<JsonV>) -> Seq<JsonV> {
    match content {
        Some(JsonV::Arr(blocks)) => seqs::flat(blocks, block_function_call_fn()),
        _ => Seq::empty(),
    }
}

/// The items of an assistant: a message where there are text parts, then its calls.
pub open spec fn assistant_items(texts: Seq<JsonV>, calls: Seq<JsonV>) -> Seq<JsonV> {
    if texts.len() > 0 {
        seq![parts::message_v("assistant"@, JsonV::Arr(texts))] + calls
    } else {
        calls
    }
}

pub(crate) fn to_assistant_items(texts: Vec<Json>, calls: Vec<Json>) -> (r: Vec<Json>)
    ensures
        json::views(r@) == assistant_items(json::views(texts@), json::views(calls@)),
{
    broadcast use json::group_json;

    let mut calls = calls;
    let ghost c = json::views(calls@);
    if texts.is_empty() {
        return calls;
    }
    let mut out: Vec<Json> = Vec::new();
    out.push(message("assistant", Json::Arr(texts)));
    out.append(&mut calls);
    assert(json::views(out@) =~= assistant_items(json::views(texts@), c));
    out
}

fn assistant_to_items(content: Option<&Json>) -> (r: Vec<Json>)
    ensures
        json::views(r@) == assistant_items(
            assistant_output(json::opt_view(content)),
            assistant_calls(json::opt_view(content)),
        ),
{
    broadcast use json::group_json;

    let mut texts: Vec<Json> = Vec::new();
    let mut calls: Vec<Json> = Vec::new();
    match content {
        Some(Json::Arr(blocks)) => {
            texts = gather(blocks, block_to_output_text, Ghost(output_text_fn()));
            calls = gather(blocks, function_call_of_block, Ghost(block_function_call_fn()));
        },
        Some(Json::Str(s)) => {
            if !s.as_str().is_empty() {
                texts.push(text_block("output_text", s.as_str()));
            }
        },
        _ => {},
    }
    proof {
        let c = json::opt_view(content);
        assert(json::views(texts@) =~= assistant_output(c));
        assert(json::views(calls@) =~= assistant_calls(c));
    }
    to_assistant_items(texts, calls)
}

/// The output item that a block with a tool's result becomes.
pub open spec fn block_output(b: JsonV) -> Seq<JsonV> {
    if b.str_is("type"@, "tool_result"@) {
        seq![
            function_output_v(
                b.str_or("tool_use_id"@, ""@),
                parts::content_text(b.get_or_null("content"@)),
            ),
        ]
    } else {
        Seq::empty()
    }
}

pub open spec fn block_output_fn() -> spec_fn(JsonV) -> Seq<JsonV> {
    |b: JsonV| block_output(b)
}

fn output_of_block(b: &Json) -> (r: Vec<Json>)
    ensures
        json::views(r@) == block_output(b@),
{
    let mut out: Vec<Json> = Vec::new();
    if b.str_is("type", "tool_result") {
        let t = extract_text_from_content(&b.get_or_null("content"));
        out.push(function_output(b.str_or("tool_use_id", ""), t.as_str()));
    }
    assert(json::views(out@) =~= block_output(b@));
    out
}

/// The items that a user's message becomes: outputs of functions first, and what text
/// there is after them.
pub open spec fn user_items(content: Option<JsonV>) -> Seq<JsonV> {
    match content {
        Some(JsonV::Arr(blocks)) => seqs::flat(blocks, block_output_fn())
            + anthropic_chat::user_message_if_any(anthropic_chat::user_text(blocks)),
        Some(c) => seq![parts::message_v("user"@, c)],
        None => seq![parts::message_v("user"@, JsonV::Str(""@))],
    }
}

fn user_to_items(content: Option<&Json>) -> (r: Vec<Json>)
    ensures
        json::views(r@) == user_items(json::opt_view(content)),
{
    broadcast use json::group_json;

    let mut out: Vec<Json> = Vec::new();
    match content {
        Some(Json::Arr(blocks)) => {
            let texts = gather_texts(
                blocks,
                text_of_user_block,
                Ghost(anthropic_chat::user_block_text_fn()),
            );
            let t = text::join(&texts, "");
            out = gather(blocks, output_of_block, Ghost(block_output_fn()));
            if !t.as_str().is_empty() {
                out.push(message("user", Json::str(t.as_str())));
            }
        },
        Some(c) => {
            out.push(message("user", c.clone()));
        },
        None => {
            out.push(message("user", Json::str("")));
        },
    }
    assert(json::views(out@) =~= user_items(json::opt_view(content)));
    out
}

/// The items that a message becomes.
pub open spec fn message_items(m: JsonV) -> Seq<JsonV> {
    let role = m.str_or("role"@, "user"@);
    let content = m.get("content"@);
    if role == "assistant"@ {
        assistant_items(assistant_output(content), assistant_calls(content))
    } else if role == "user"@ {
        user_items(content)
    } else {
        match content {
            Some(c) => seq![parts::message_v("user"@, c)],
            None => Seq::empty(),
        }
    }
}

pub open spec fn message_items_fn() -> spec_fn(JsonV) -> Seq<JsonV> {
    |m: JsonV| message_items(m)
}

fn message_to_items(m: &Json) -> (r: Vec<Json>)
    ensures
        json::views(r@) == message_items(m@),
{
    let role = m.str_or("role", "user");
    let content = m.get("content");
    let mut out: Vec<Json> = Vec::new();
    if same(role, "assistant") {
        out = assistant_to_items(content);
    } else if same(role, "user") {
        out = user_to_items(content);
    } else if let Some(c) = content {
        out.push(message("user", c.clone()));
    }
    assert(json::views(out@) =~= message_items(m@));
    out
}

/// A tool of a Responses request: one that is a function already, or one of Anthropic.
pub open spec fn responses_tool(tool: JsonV) -> JsonV {
    if tool.str_is("type"@, "function"@) {
        tool
    } else {
        json::jobj().put("type"@, JsonV::Str("function"@)).put(
            "name"@,
            JsonV::Str(tool.str_or("name"@, ""@)),
        ).put("description"@, JsonV::Str(tool.str_or("description"@, ""@))).put(
            "parameters"@,
            anthropic_chat::input_schema_v(tool),
        )
    }
}

pub open spec fn responses_tool_fn() -> spec_fn(JsonV) -> JsonV {
    |tool: JsonV| responses_tool(tool)
}

fn tool_to_responses(tool: &Json) -> (r: Json)
    ensures
        r@ == responses_tool(tool@),
{
    if tool.str_is("type", "function") {
        tool.clone()
    } else {
        Json::object().put("type", Json::str("function")).put(
            "name",
            Json::str(tool.str_or("name", "")),
        ).put("description", Json::str(tool.str_or("description", ""))).put(
            "parameters",
            input_schema(tool),
        )
    }
}

/// The choice of tools in a Responses request: a mode, or one function.
pub open spec fn responses_tool_choice(tc: JsonV) -> JsonV {
    match tc {
        JsonV::Str(s) => JsonV::Str(anthropic_chat::choice_mode(s)),
        tc => if tc.str_is("type"@, "tool"@) {
            json::jobj().put("type"@, JsonV::Str("function"@)).put(
                "name"@,
                JsonV::Str(tc.str_or("name"@, ""@)),
            )
        } else {
            JsonV::Str("auto"@)
        },
    }
}

fn tool_choice_to_responses(tc: &Json) -> (r: Json)
    ensures
        r@ == responses_tool_choice(tc@),
{
    broadcast use json::group_json;

    match tc {
        Json::Str(s) => choice_of_mode(s.as_str()),
        tc => if tc.str_is("type", "tool") {
            Json::object().put("type", Json::str("function")).put(
                "name",
                Json::str(tc.str_or("name", "")),
            )
        } else {
            Json::str("auto")
        },
    }
}

/// The instructions made from a system prompt, where it has text.
pub open spec fn instructions_of_system(body: JsonV) -> Option<JsonV> {
    match body.get("system"@) {
        Some(system) => if parts::content_text(system).len() > 0 {
            Some(JsonV::Str(parts::content_text(system)))
        } else {
            None
        },
        None => None,
    }
}

/// A Responses request made from an Anthropic one.
pub open spec fn anthropic_as_responses(body: JsonV, model: Seq<char>) -> JsonV {
    json::jobj().put("model"@, JsonV::Str(model)).put_opt(
        "instructions"@,
        instructions_of_system(body),
    ).put(
        "input"@,
        JsonV::Arr(seqs::flat(super::chat_anthropic::messages_of(body), message_items_fn())),
    ).put_opt("max_output_tokens"@, body.get("max_tokens"@)).put_opt(
        "temperature"@,
        body.get("temperature"@),
    ).put_opt("stream"@, body.get("stream"@)).put_opt(
        "tools"@,
        match body.array_at("tools"@) {
            Some(tools) => Some(JsonV::Arr(tools.map_values(responses_tool_fn()))),
            None => None,
        },
    ).put_opt(
        "tool_choice"@,
        match body.get("tool_choice"@) {
            Some(tc) => Some(responses_tool_choice(tc)),
            None => None,
        },
    )
}

/// Converts an Anthropic Messages request to a Responses request.
pub fn anthropic_to_responses_request(body: &Json, target_model: &str) -> (r: Json)
    ensures
        r@ == anthropic_as_responses(body@, target_model@),
{
    broadcast use json::group_json;

    let mut out = Json::object().put("model", Json::str(target_model));
    if let Some(system) = body.get("system") {
        let t = extract_text_from_content(system);
        if !t.as_str().is_empty() {
            out = out.put("instructions", Json::str(t.as_str()));
        }
    }
    let mut input: Vec<Json> = Vec::new();
    if let Some(msgs) = body.array_at("messages") {
        input = gather(msgs, message_to_items, Ghost(message_items_fn()));
    }
    assert(json::views(input@) =~= seqs::flat(
        super::chat_anthropic::messages_of(body@),
        message_items_fn(),
    ));
    out = out.put("input", Json::Arr(input)).put_opt(
        "max_output_tokens",
        body.get("max_tokens"),
    ).put_opt("temperature", body.get("temperature")).put_opt("stream", body.get("stream"));
    if let Some(tools) = body.array_at("tools") {
        out = out.put("tools", Json::Arr(each(tools, tool_to_responses, Ghost(responses_tool_fn()))));
    }
    if let Some(tc) = body.get("tool_choice") {
        out = out.put("tool_choice", tool_choice_to_responses(tc));
    }
    out
}

} // verus!
