//! Chat Completions requests as Anthropic Messages requests.

use vstd::prelude::*;

use crate::convert::parts;
use crate::convert::parts::{message, text_block};
use crate::json::arrays::{each, gather, gather_texts, texts_under};
use crate::json::{self, Json, JsonV};
use crate::seqs;
use crate::text;
use crate::text::same;

verus! {

/// The value that the text of a tool's arguments holds, an empty object where it is
/// not JSON.
pub open spec fn arguments_value(s: Seq<char>) -> JsonV {
    match json::wire::json_of_text(s) {
        Some(v) => v,
        None => json::jobj(),
    }
}

pub(crate) fn parse_arguments(s: &str) -> (r: Json)
    ensures
        r@ == arguments_value(s@),
        forall|v: JsonV| #[trigger]
            json::wire::is_plain(v, 127) && s@ == json::wire::json_text(v)
                ==> json::wire::reads_back(v),
{
    match Json::parse(s) {
        Some(v) => v,
        None => Json::object(),
    }
}

/// A block that asks for a tool.
pub open spec fn tool_use_v(id: Seq<char>, name: Seq<char>, input: JsonV) -> JsonV {
    json::jobj().put("type"@, JsonV::Str("tool_use"@)).put("id"@, JsonV::Str(id)).put(
        "name"@,
        JsonV::Str(name),
    ).put("input"@, input)
}

pub(crate) fn tool_use(id: &str, name: &str, input: Json) -> (r: Json)
    ensures
        r@ == tool_use_v(id@, name@, input@),
{
    Json::object().put("type", Json::str("tool_use")).put("id", Json::str(id)).put(
        "name",
        Json::str(name),
    ).put("input", input)
}

/// A user's message with one result of a tool.
pub open spec fn tool_result_message_v(id: Seq<char>, content: Seq<char>) -> JsonV {
    parts::message_v("user"@, JsonV::Arr(seq![tool_result_v(id, content)]))
}

/// A block with the result of a tool.
pub open spec fn tool_result_v(id: Seq<char>, content: Seq<char>) -> JsonV {
    json::jobj().put("type"@, JsonV::Str("tool_result"@)).put("tool_use_id"@, JsonV::Str(id)).put(
        "content"@,
        JsonV::Str(content),
    )
}

pub(crate) fn tool_result(id: &str, content: &str) -> (r: Json)
    ensures
        r@ == tool_result_v(id@, content@),
{
    Json::object().put("type", Json::str("tool_result")).put("tool_use_id", Json::str(id)).put(
        "content",
        Json::str(content),
    )
}

pub(crate) fn tool_result_message(id: &str, content: &str) -> (r: Json)
    ensures
        r@ == tool_result_message_v(id@, content@),
{
    broadcast use json::group_json;

    let mut blocks: Vec<Json> = Vec::new();
    blocks.push(tool_result(id, content));
    assert(json::views(blocks@) =~= seq![tool_result_v(id@, content@)]);
    message("user", Json::Arr(blocks))
}

/// The name and the text of the arguments of a tool call.
pub open spec fn call_name(tc: JsonV) -> Seq<char> {
    tc.get_or_null("function"@).str_or("name"@, ""@)
}

pub open spec fn call_arguments(tc: JsonV) -> Seq<char> {
    tc.get_or_null("function"@).str_or("arguments"@, "{}"@)
}

/// The block that a tool call becomes.
pub open spec fn tool_use_of_call(tc: JsonV) -> JsonV {
    tool_use_v(tc.str_or("id"@, ""@), call_name(tc), arguments_value(call_arguments(tc)))
}

pub open spec fn tool_use_of_call_fn() -> spec_fn(JsonV) -> JsonV {
    |tc: JsonV| tool_use_of_call(tc)
}

pub(crate) fn call_to_tool_use(tc: &Json) -> (r: Json)
    ensures
        r@ == tool_use_of_call(tc@),
{
    let func = tc.get_or_null("function");
    let input = parse_arguments(func.str_or("arguments", "{}"));
    tool_use(tc.str_or("id", ""), func.str_or("name", ""), input)
}

/// One block with a text, where there is a text.
pub open spec fn text_block_if_any(kind: Seq<char>, t: Option<Seq<char>>) -> Seq<JsonV> {
    match t {
        Some(t) => if t.len() > 0 {
            seq![parts::text_block_v(kind, t)]
        } else {
            Seq::empty()
        },
        None => Seq::empty(),
    }
}

pub(crate) fn text_blocks_if_any(kind: &str, t: Option<&str>) -> (r: Vec<Json>)
    ensures
        json::views(r@) == text_block_if_any(kind@, json::opt_str(t)),
{
    let mut out: Vec<Json> = Vec::new();
    if let Some(t) = t {
        if !t.is_empty() {
            out.push(text_block(kind, t));
        }
    }
    assert(json::views(out@) =~= text_block_if_any(kind@, json::opt_str(t)));
    out
}

/// The blocks of an assistant's message: its text, then its tool calls.
pub open spec fn assistant_blocks(m: JsonV) -> Seq<JsonV> {
    text_block_if_any("text"@, m.str_at("content"@)) + match m.array_at("tool_calls"@) {
        Some(calls) => calls.map_values(tool_use_of_call_fn()),
        None => Seq::empty(),
    }
}

/// An assistant's message: blocks, or an empty text where there are none.
pub open spec fn anthropic_assistant(m: JsonV) -> JsonV {
    if assistant_blocks(m).len() > 0 {
        parts::message_v("assistant"@, JsonV::Arr(assistant_blocks(m)))
    } else {
        parts::message_v("assistant"@, JsonV::Str(m.str_or("content"@, ""@)))
    }
}

fn assistant_to_anthropic(m: &Json) -> (r: Json)
    ensures
        r@ == anthropic_assistant(m@),
{
    broadcast use json::group_json;

    let mut blocks = text_blocks_if_any("text", m.str_at("content"));
    let ghost first = json::views(blocks@);
    if let Some(calls) = m.array_at("tool_calls") {
        let mut more = each(calls, call_to_tool_use, Ghost(tool_use_of_call_fn()));
        blocks.append(&mut more);
    } else {
        assert(first + Seq::<JsonV>::empty() =~= first);
    }
    assert(json::views(blocks@) == assistant_blocks(m@));
    if !blocks.is_empty() {
        message("assistant", Json::Arr(blocks))
    } else {
        message("assistant", Json::str(m.str_or("content", "")))
    }
}

/// The message that a chat message becomes. A system message becomes none.
pub open spec fn anthropic_message(m: JsonV) -> Seq<JsonV> {
    let role = m.str_or("role"@, "user"@);
    if role == "system"@ {
        Seq::empty()
    } else if role == "assistant"@ {
        seq![anthropic_assistant(m)]
    } else if role == "tool"@ {
        seq![tool_result_message_v(m.str_or("tool_call_id"@, ""@), m.str_or("content"@, ""@))]
    } else {
        seq![parts::message_v("user"@, JsonV::Str(m.str_or("content"@, ""@)))]
    }
}

pub open spec fn anthropic_message_fn() -> spec_fn(JsonV) -> Seq<JsonV> {
    |m: JsonV| anthropic_message(m)
}

fn message_to_anthropic(m: &Json) -> (r: Vec<Json>)
    ensures
        json::views(r@) == anthropic_message(m@),
{
    let role = m.str_or("role", "user");
    let mut out: Vec<Json> = Vec::new();
    if same(role, "system") {
    } else if same(role, "assistant") {
        out.push(assistant_to_anthropic(m));
    } else if same(role, "tool") {
        out.push(tool_result_message(m.str_or("tool_call_id", ""), m.str_or("content", "")));
    } else {
        out.push(message("user", Json::str(m.str_or("content", ""))));
    }
    assert(json::views(out@) =~= anthropic_message(m@));
    out
}

/// The text of a system message.
pub open spec fn system_text(m: JsonV) -> Seq<Seq<char>> {
    if m.str_is("role"@, "system"@) {
        json::arrays::text_under(m, "content"@)
    } else {
        Seq::empty()
    }
}

pub open spec fn system_text_fn() -> spec_fn(JsonV) -> Seq<Seq<char>> {
    |m: JsonV| system_text(m)
}

fn text_of_system(m: &Json) -> (r: Vec<String>)
    ensures
        text::texts(r@) == system_text(m@),
{
    let mut out: Vec<String> = Vec::new();
    if m.str_is("role", "system") {
        out = texts_under(m, "content");
    }
    assert(text::texts(out@) =~= system_text(m@));
    out
}

/// The messages of a body, none where there is no array of them.
pub open spec fn messages_of(body: JsonV) -> Seq<JsonV> {
    match body.array_at("messages"@) {
        Some(msgs) => msgs,
        None => Seq::empty(),
    }
}

/// The system prompt: the texts of the system messages, a line each.
pub open spec fn system_of_chat(body: JsonV) -> Option<JsonV> {
    let texts = seqs::flat(messages_of(body), system_text_fn());
    if texts.len() > 0 {
        Some(JsonV::Str(text::joined(texts, "\n"@)))
    } else {
        None
    }
}

/// The definition in a tool: what stands under "function", or the tool itself.
pub open spec fn tool_function(tool: JsonV) -> JsonV {
    match tool.get("function"@) {
        Some(f) => f,
        None => tool,
    }
}

/// The schema of a tool's parameters.
pub open spec fn tool_parameters(f: JsonV) -> JsonV {
    match f.get("parameters"@) {
        Some(p) => p,
        None => f.get_or_empty("input_schema"@),
    }
}

/// A tool of an Anthropic request.
pub open spec fn anthropic_tool(tool: JsonV) -> JsonV {
    let f = tool_function(tool);
    json::jobj().put("name"@, JsonV::Str(f.str_or("name"@, ""@))).put(
        "description"@,
        JsonV::Str(f.str_or("description"@, ""@)),
    ).put("input_schema"@, tool_parameters(f))
}

pub open spec fn anthropic_tool_fn() -> spec_fn(JsonV) -> JsonV {
    |tool: JsonV| anthropic_tool(tool)
}

fn tool_to_anthropic(tool: &Json) -> (r: Json)
    ensures
        r@ == anthropic_tool(tool@),
{
    let f = match tool.get("function") {
        Some(f) => f,
        None => tool,
    };
    let schema = match f.get("parameters") {
        Some(p) => p.clone(),
        None => f.get_or_empty("input_schema"),
    };
    Json::object().put("name", Json::str(f.str_or("name", ""))).put(
        "description",
        Json::str(f.str_or("description", "")),
    ).put("input_schema", schema)
}

/// The sequences to stop at: always an array.
pub open spec fn stop_sequences(stop: JsonV) -> JsonV {
    match stop {
        JsonV::Arr(_) => stop,
        other => JsonV::Arr(seq![other]),
    }
}

fn to_stop_sequences(stop: &Json) -> (r: Json)
    ensures
        r@ == stop_sequences(stop@),
{
    broadcast use json::group_json;

    match stop {
        Json::Arr(_) => stop.clone(),
        other => {
            let one = other.clone();
            let mut out: Vec<Json> = Vec::new();
            out.push(one);
            assert(json::views(out@) =~= seq![other@]);
            Json::Arr(out)
        },
    }
}

/// An Anthropic request made from a chat request.
pub open spec fn chat_as_anthropic(body: JsonV, model: Seq<char>) -> JsonV {
    json::jobj().put("model"@, JsonV::Str(model)).put_opt("system"@, system_of_chat(body)).put(
        "messages"@,
        JsonV::Arr(seqs::flat(messages_of(body), anthropic_message_fn())),
    ).put_opt(
        "tools"@,
        match body.array_at("tools"@) {
            Some(tools) => Some(JsonV::Arr(tools.map_values(anthropic_tool_fn()))),
            None => None,
        },
    ).put_opt(
        "stop_sequences"@,
        match body.get("stop"@) {
            Some(stop) => Some(stop_sequences(stop)),
            None => None,
        },
    ).put_opt("max_tokens"@, body.get("max_tokens"@)).put_opt(
        "temperature"@,
        body.get("temperature"@),
    ).put_opt("top_p"@, body.get("top_p"@)).put_opt("stream"@, body.get("stream"@)).put_opt(
        "metadata"@,
        body.get("metadata"@),
    )
}

/// Converts a Chat Completions request to an Anthropic Messages request.
pub fn openai_to_anthropic_request(body: &Json, target_model: &str) -> (r: Json)
    ensures
        r@ == chat_as_anthropic(body@, target_model@),
{
    broadcast use json::group_json;

    let mut system: Vec<String> = Vec::new();
    let mut messages: Vec<Json> = Vec::new();
    if let Some(msgs) = body.array_at("messages") {
        system = gather_texts(msgs, text_of_system, Ghost(system_text_fn()));
        messages = gather(msgs, message_to_anthropic, Ghost(anthropic_message_fn()));
    }
    proof {
        assert(text::texts(system@) =~= seqs::flat(messages_of(body@), system_text_fn()));
        assert(json::views(messages@) =~= seqs::flat(messages_of(body@), anthropic_message_fn()));
    }
    let mut out = Json::object().put("model", Json::str(target_model));
    if !system.is_empty() {
        out = out.put("system", Json::str(text::join(&system, "\n").as_str()));
    }
    out = out.put("messages", Json::Arr(messages));
    if let Some(tools) = body.array_at("tools") {
        out = out.put("tools", Json::Arr(each(tools, tool_to_anthropic, Ghost(anthropic_tool_fn()))));
    }
    if let Some(stop) = body.get("stop") {
        out = out.put("stop_sequences", to_stop_sequences(stop));
    }
    out.put_opt("max_tokens", body.get("max_tokens")).put_opt(
        "temperature",
        body.get("temperature"),
    ).put_opt("top_p", body.get("top_p")).put_opt("stream", body.get("stream")).put_opt(
        "metadata",
        body.get("metadata"),
    )
}

} // verus!
