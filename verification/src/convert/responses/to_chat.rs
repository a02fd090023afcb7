//! Responses as Chat Completions responses.

use vstd::prelude::*;

use super::to_anthropic;
use super::to_anthropic::usage_at;
use crate::clock::unix_seconds;
use crate::convert::parts;
use crate::convert::parts::message;
use crate::convert::requests::anthropic_chat;
use crate::convert::requests::anthropic_chat::{chat_tool_call, typed_texts};
use crate::json::arrays::{gather, gather_texts, texts_under};
use crate::json::{self, Json, JsonV};
use crate::seqs;
use crate::text;
use crate::text::same;

verus! {

/// The arguments of a tool call: an object as JSON, a text as it is, and an empty object
/// for anything else.
pub open spec fn arguments_text(input: JsonV) -> Seq<char> {
    match input {
        JsonV::Obj(_) => json::wire::json_text(input),
        JsonV::Str(s) => s,
        _ => "{}"@,
    }
}

fn to_arguments_text(input: &Json) -> (r: String)
    ensures
        r@ == arguments_text(input@),
{
    broadcast use json::group_json;

    match input {
        Json::Obj(_) => input.to_text(),
        Json::Str(s) => s.clone(),
        _ => "{}".to_owned(),
    }
}

/// The tool call that a block of a response becomes.
pub open spec fn call_of_block(b: JsonV) -> Seq<JsonV> {
    if b.str_is("type"@, "tool_use"@) {
        seq![
            anthropic_chat::chat_tool_call_v(
                b.str_or("id"@, ""@),
                b.str_or("name"@, ""@),
                arguments_text(b.get_or_null("input"@)),
            ),
        ]
    } else {
        Seq::empty()
    }
}

pub open spec fn call_of_block_fn() -> spec_fn(JsonV) -> Seq<JsonV> {
    |b: JsonV| call_of_block(b)
}

fn block_to_call(b: &Json) -> (r: Vec<Json>)
    ensures
        json::views(r@) == call_of_block(b@),
{
    let mut out: Vec<Json> = Vec::new();
    if b.str_is("type", "tool_use") {
        let arguments = to_arguments_text(&b.get_or_null("input"));
        out.push(chat_tool_call(b.str_or("id", ""), b.str_or("name", ""), arguments.as_str()));
    }
    assert(json::views(out@) =~= call_of_block(b@));
    out
}

/// The blocks of an Anthropic response.
pub open spec fn content_of(body: JsonV) -> Seq<JsonV> {
    match body.array_at("content"@) {
        Some(blocks) => blocks,
        None => Seq::empty(),
    }
}

/// The message of a chat response, with reasoning and tool calls where there are any.
pub open spec fn chat_message_v(
    content: JsonV,
    reasoning: Option<Seq<char>>,
    calls: Seq<JsonV>,
) -> JsonV {
    parts::message_v("assistant"@, content).put_opt(
        "reasoning_content"@,
        match reasoning {
            Some(t) => Some(JsonV::Str(t)),
            None => None,
        },
    ).put_opt(
        "tool_calls"@,
        if calls.len() > 0 {
            Some(JsonV::Arr(calls))
        } else {
            None
        },
    )
}

/// The choices of a chat response: one.
pub open spec fn one_choice_v(message: JsonV, finish_reason: Seq<char>) -> JsonV {
    JsonV::Arr(
        seq![
            json::jobj().put("index"@, json::jnum(0)).put("message"@, message).put(
                "finish_reason"@,
                JsonV::Str(finish_reason),
            ),
        ],
    )
}

fn one_choice(message: Json, finish_reason: &str) -> (r: Json)
    ensures
        r@ == one_choice_v(message@, finish_reason@),
{
    broadcast use json::group_json;

    let mut out: Vec<Json> = Vec::new();
    out.push(
        Json::object().put("index", Json::number(0)).put("message", message).put(
            "finish_reason",
            Json::str(finish_reason),
        ),
    );
    let r = Json::Arr(out);
    assert(r@->Arr_0 =~= one_choice_v(message@, finish_reason@)->Arr_0);
    r
}

/// The usage of a chat response.
pub open spec fn chat_usage_v(input: u64, output: u64, total: u64) -> JsonV {
    json::jobj().put("prompt_tokens"@, json::jnum(input)).put(
        "completion_tokens"@,
        json::jnum(output),
    ).put("total_tokens"@, json::jnum(total))
}

fn chat_usage(input: u64, output: u64, total: u64) -> (r: Json)
    ensures
        r@ == chat_usage_v(input, output, total),
{
    Json::object().put("prompt_tokens", Json::number(input)).put(
        "completion_tokens",
        Json::number(output),
    ).put("total_tokens", Json::number(total))
}

/// Why a chat response finishes, by an Anthropic response's reason.
pub open spec fn finish_of_stop_reason(stop: Option<Seq<char>>) -> Seq<char> {
    match stop {
        Some(r) => if r == "tool_use"@ {
            "tool_calls"@
        } else if r == "max_tokens"@ {
            "length"@
        } else {
            "stop"@
        },
        None => "stop"@,
    }
}

pub(crate) fn stop_reason_to_finish(stop: Option<&str>) -> (r: &'static str)
    ensures
        r@ == finish_of_stop_reason(json::opt_str(stop)),
{
    match stop {
        Some(r) => if same(r, "tool_use") {
            "tool_calls"
        } else if same(r, "max_tokens") {
            "length"
        } else {
            "stop"
        },
        None => "stop",
    }
}

/// The message of an Anthropic response: its text, its thinking and its tools.
pub open spec fn message_of_anthropic(body: JsonV) -> JsonV {
    let blocks = content_of(body);
    let thoughts = seqs::flat(blocks, anthropic_chat::typed_text_fn("thinking"@, "thinking"@));
    chat_message_v(
        JsonV::Str(
            text::joined(seqs::flat(blocks, anthropic_chat::typed_text_fn("text"@, "text"@)), ""@),
        ),
        if thoughts.len() > 0 {
            Some(text::joined(thoughts, ""@))
        } else {
            None
        },
        seqs::flat(blocks, call_of_block_fn()),
    )
}

fn anthropic_to_message(body: &Json) -> (r: Json)
    ensures
        r@ == message_of_anthropic(body@),
{
    broadcast use json::group_json;

    let mut texts: Vec<String> = Vec::new();
    let mut thoughts: Vec<String> = Vec::new();
    let mut calls: Vec<Json> = Vec::new();
    if let Some(blocks) = body.array_at("content") {
        texts = typed_texts(blocks, "text", "text");
        thoughts = typed_texts(blocks, "thinking", "thinking");
        calls = gather(blocks, block_to_call, Ghost(call_of_block_fn()));
    }
    proof {
        let b = content_of(body@);
        assert(text::texts(texts@) =~= seqs::flat(b, anthropic_chat::typed_text_fn("text"@, "text"@)));
        assert(text::texts(thoughts@) =~= seqs::flat(
            b,
            anthropic_chat::typed_text_fn("thinking"@, "thinking"@),
        ));
        assert(json::views(calls@) =~= seqs::flat(b, call_of_block_fn()));
    }
    let mut m = message("assistant", Json::str(text::join(&texts, "").as_str()));
    if !thoughts.is_empty() {
        m = m.put("reasoning_content", Json::str(text::join(&thoughts, "").as_str()));
    }
    if !calls.is_empty() {
        m = m.put("tool_calls", Json::Arr(calls));
    }
    m
}

/// A chat response made from an Anthropic response at a time, in seconds since the epoch.
pub open spec fn anthropic_response_as_chat(body: JsonV, model: Seq<char>, created: u64) -> JsonV {
    let input = to_anthropic::usage_of(body, "input_tokens"@);
    let output = to_anthropic::usage_of(body, "output_tokens"@);
    json::jobj().put("id"@, JsonV::Str(body.str_or("id"@, "msg_unknown"@))).put(
        "object"@,
        JsonV::Str("chat.completion"@),
    ).put("created"@, json::jnum(created)).put("model"@, JsonV::Str(model)).put(
        "choices"@,
        one_choice_v(
            message_of_anthropic(body),
            finish_of_stop_reason(body.str_at("stop_reason"@)),
        ),
    ).put("usage"@, chat_usage_v(input, output, input.wrapping_add(output)))
}

/// Converts an Anthropic Messages response to a Chat Completions response of a time, in
/// seconds since the epoch.
pub fn anthropic_to_openai_response_at(body: &Json, request_model: &str, created: u64) -> (r: Json)
    ensures
        r@ == anthropic_response_as_chat(body@, request_model@, created),
{
    let input: u64 = usage_at(body, "input_tokens");
    let output: u64 = usage_at(body, "output_tokens");
    let finish = stop_reason_to_finish(body.str_at("stop_reason"));
    Json::object().put("id", Json::str(body.str_or("id", "msg_unknown"))).put(
        "object",
        Json::str("chat.completion"),
    ).put("created", Json::number(created)).put("model", Json::str(request_model)).put(
        "choices",
        one_choice(anthropic_to_message(body), finish),
    ).put("usage", chat_usage(input, output, input.wrapping_add(output)))
}

/// Converts an Anthropic Messages response to a Chat Completions response of now.
pub fn anthropic_to_openai_response(body: &Json, request_model: &str) -> (r: Json)
    ensures
        exists|created: u64| r@ == anthropic_response_as_chat(body@, request_model@, created),
{
    let created: u64 = unix_seconds();
    anthropic_to_openai_response_at(body, request_model, created)
}

/// The text of a part of a message item.
pub open spec fn output_part_text_fn() -> spec_fn(JsonV) -> Seq<Seq<char>> {
    |p: JsonV| anthropic_chat::typed_text(p, "output_text"@, "text"@)
}

fn text_of_output_part(p: &Json) -> (r: Vec<String>)
    ensures
        text::texts(r@) == anthropic_chat::typed_text(p@, "output_text"@, "text"@),
{
    let mut out: Vec<String> = Vec::new();
    if p.str_is("type", "output_text") {
        out = texts_under(p, "text");
    }
    assert(text::texts(out@) =~= anthropic_chat::typed_text(p@, "output_text"@, "text"@));
    out
}

/// The texts of an output item.
pub open spec fn item_texts(item: JsonV) -> Seq<Seq<char>> {
    if item.str_is("type"@, "message"@) {
        match item.array_at("content"@) {
            Some(ps) => seqs::flat(ps, output_part_text_fn()),
            None => Seq::empty(),
        }
    } else {
        Seq::empty()
    }
}

pub open spec fn item_texts_fn() -> spec_fn(JsonV) -> Seq<Seq<char>> {
    |item: JsonV| item_texts(item)
}

pub(crate) fn texts_of_item(item: &Json) -> (r: Vec<String>)
    ensures
        text::texts(r@) == item_texts(item@),
{
    let mut out: Vec<String> = Vec::new();
    if item.str_is("type", "message") {
        if let Some(ps) = item.array_at("content") {
            out = gather_texts(ps, text_of_output_part, Ghost(output_part_text_fn()));
        }
    }
    assert(text::texts(out@) =~= item_texts(item@));
    out
}

/// The tool call that an output item becomes.
pub open spec fn item_call(item: JsonV) -> Seq<JsonV> {
    if item.str_is("type"@, "function_call"@) {
        seq![
            anthropic_chat::chat_tool_call_v(
                item.str_or("call_id"@, ""@),
                item.str_or("name"@, ""@),
                item.str_or("arguments"@, "{}"@),
            ),
        ]
    } else {
        Seq::empty()
    }
}

pub open spec fn item_call_fn() -> spec_fn(JsonV) -> Seq<JsonV> {
    |item: JsonV| item_call(item)
}

fn call_of_item(item: &Json) -> (r: Vec<Json>)
    ensures
        json::views(r@) == item_call(item@),
{
    let mut out: Vec<Json> = Vec::new();
    if item.str_is("type", "function_call") {
        out.push(
            chat_tool_call(
                item.str_or("call_id", ""),
                item.str_or("name", ""),
                item.str_or("arguments", "{}"),
            ),
        );
    }
    assert(json::views(out@) =~= item_call(item@));
    out
}

/// A text, null where it is empty.
pub open spec fn text_or_null(t: Seq<char>) -> JsonV {
    if t.len() == 0 {
        JsonV::Null
    } else {
        JsonV::Str(t)
    }
}

/// Why a chat response finishes, by a Responses response's calls and status.
pub open spec fn finish_of_responses(body: JsonV, calls: Seq<JsonV>) -> Seq<char> {
    if calls.len() > 0 {
        "tool_calls"@
    } else if body.str_is("status"@, "incomplete"@) {
        "length"@
    } else {
        "stop"@
    }
}

/// A chat response made from a Responses response.
pub open spec fn responses_response_as_chat(body: JsonV, model: Seq<char>) -> JsonV {
    let items = to_anthropic::output_of(body);
    let calls = seqs::flat(items, item_call_fn());
    json::jobj().put("id"@, JsonV::Str(body.str_or("id"@, "chatcmpl_unknown"@))).put(
        "object"@,
        JsonV::Str("chat.completion"@),
    ).put("model"@, JsonV::Str(model)).put(
        "choices"@,
        one_choice_v(
            chat_message_v(
                text_or_null(text::joined(seqs::flat(items, item_texts_fn()), ""@)),
                None,
                calls,
            ),
            finish_of_responses(body, calls),
        ),
    ).put(
        "usage"@,
        chat_usage_v(
            to_anthropic::usage_of(body, "input_tokens"@),
            to_anthropic::usage_of(body, "output_tokens"@),
            to_anthropic::usage_of(body, "total_tokens"@),
        ),
    )
}

/// Converts a Responses response to a Chat Completions response.
pub fn responses_to_openai_response(body: &Json, request_model: &str) -> (r: Json)
    ensures
        r@ == responses_response_as_chat(body@, request_model@),
{
    broadcast use json::group_json;

    let mut texts: Vec<String> = Vec::new();
    let mut calls: Vec<Json> = Vec::new();
    if let Some(items) = body.array_at("output") {
        texts = gather_texts(items, texts_of_item, Ghost(item_texts_fn()));
        calls = gather(items, call_of_item, Ghost(item_call_fn()));
    }
    proof {
        let items = to_anthropic::output_of(body@);
        assert(text::texts(texts@) =~= seqs::flat(items, item_texts_fn()));
        assert(json::views(calls@) =~= seqs::flat(items, item_call_fn()));
    }
    let t = text::join(&texts, "");
    let content = if t.as_str().is_empty() {
        Json::Null
    } else {
        Json::str(t.as_str())
    };
    let finish = if !calls.is_empty() {
        "tool_calls"
    } else if body.str_is("status", "incomplete") {
        "length"
    } else {
        "stop"
    };
    let mut m = message("assistant", content);
    if !calls.is_empty() {
        m = m.put("tool_calls", Json::Arr(calls));
    }
    Json::object().put("id", Json::str(body.str_or("id", "chatcmpl_unknown"))).put(
        "object",
        Json::str("chat.completion"),
    ).put("model", Json::str(request_model)).put("choices", one_choice(m, finish)).put(
        "usage",
        chat_usage(
            usage_at(body, "input_tokens"),
            usage_at(body, "output_tokens"),
            usage_at(body, "total_tokens"),
        ),
    )
}

} // verus!
