//! Responses as Anthropic Messages responses.

use vstd::prelude::*;

use crate::convert::parts;
use crate::convert::parts::text_block;
use crate::convert::requests::chat_anthropic;
use crate::convert::requests::chat_anthropic::{parse_arguments, text_blocks_if_any, tool_use};
use crate::convert::requests::codex_anthropic;
use crate::convert::requests::codex_anthropic::thinking_blocks;
use crate::convert::responses::to_chat;
use crate::convert::round_trips;
use crate::json::arrays::gather;
use crate::json::{self, Json, JsonV};
use crate::seqs;
use crate::text;
use crate::text::{concat2, same, to_decimal};

verus! {

/// The first choice of a chat response.
pub open spec fn first_choice(body: JsonV) -> Option<JsonV> {
    match body.array_at("choices"@) {
        Some(choices) => if choices.len() > 0 {
            Some(choices[0])
        } else {
            None
        },
        None => None,
    }
}

pub(crate) fn choice_of(body: &Json) -> (r: Option<&Json>)
    ensures
        json::opt_view(r) == first_choice(body@),
{
    match body.array_at("choices") {
        Some(choices) => if choices.len() > 0 {
            assert(json::views(choices@)[0] == choices@[0]@);
            Some(&choices[0])
        } else {
            None
        },
        None => None,
    }
}

/// The usage of an Anthropic response.
pub open spec fn anthropic_usage_v(input: u64, output: u64) -> JsonV {
    json::jobj().put("input_tokens"@, json::jnum(input)).put(
        "output_tokens"@,
        json::jnum(output),
    ).put("cache_creation_input_tokens"@, json::jnum(0)).put(
        "cache_read_input_tokens"@,
        json::jnum(0),
    )
}

fn anthropic_usage(input: u64, output: u64) -> (r: Json)
    ensures
        r@ == anthropic_usage_v(input, output),
{
    Json::object().put("input_tokens", Json::number(input)).put(
        "output_tokens",
        Json::number(output),
    ).put("cache_creation_input_tokens", Json::number(0)).put(
        "cache_read_input_tokens",
        Json::number(0),
    )
}

/// A number of the usage of a response, zero where there is none.
pub open spec fn usage_of(body: JsonV, key: Seq<char>) -> u64 {
    match body.get("usage"@) {
        Some(u) => u.u64_or(key, 0),
        None => 0,
    }
}

pub(crate) fn usage_at(body: &Json, key: &str) -> (r: u64)
    ensures
        r == usage_of(body@, key@),
{
    match body.get("usage") {
        Some(u) => u.u64_or(key, 0),
        None => 0,
    }
}

/// An Anthropic response. Content that is empty becomes one empty text.
pub open spec fn anthropic_message_v(
    id: Seq<char>,
    content: Seq<JsonV>,
    model: Seq<char>,
    stop_reason: Seq<char>,
    usage: JsonV,
) -> JsonV {
    let content = if content.len() > 0 {
        content
    } else {
        seq![parts::text_block_v("text"@, ""@)]
    };
    json::jobj().put("id"@, JsonV::Str(id)).put("type"@, JsonV::Str("message"@)).put(
        "role"@,
        JsonV::Str("assistant"@),
    ).put("content"@, JsonV::Arr(content)).put("model"@, JsonV::Str(model)).put(
        "stop_reason"@,
        JsonV::Str(stop_reason),
    ).put("stop_sequence"@, JsonV::Null).put("usage"@, usage)
}

fn anthropic_message(
    id: &str,
    content: Vec<Json>,
    model: &str,
    stop_reason: &str,
    usage: Json,
) -> (r: Json)
    ensures
        r@ == anthropic_message_v(id@, json::views(content@), model@, stop_reason@, usage@),
{
    broadcast use json::group_json;

    let ghost given = json::views(content@);
    let mut content = content;
    if content.is_empty() {
        content.push(text_block("text", ""));
        assert(json::views(content@) =~= seq![parts::text_block_v("text"@, ""@)]);
    }
    Json::object().put("id", Json::str(id)).put("type", Json::str("message")).put(
        "role",
        Json::str("assistant"),
    ).put("content", Json::Arr(content)).put("model", Json::str(model)).put(
        "stop_reason",
        Json::str(stop_reason),
    ).put("stop_sequence", Json::Null).put("usage", usage)
}

/// The block that the tool call at a place becomes; a call without an id gets one by its
/// place.
pub open spec fn tool_use_at(i: int, tc: JsonV) -> JsonV {
    let id = tc.str_or("id"@, ""@);
    chat_anthropic::tool_use_v(
        if id.len() == 0 {
            "toolu_"@ + text::decimal(i as nat)
        } else {
            id
        },
        chat_anthropic::call_name(tc),
        chat_anthropic::arguments_value(chat_anthropic::call_arguments(tc)),
    )
}

pub open spec fn tool_use_at_fn() -> spec_fn(int, JsonV) -> JsonV {
    |i: int, tc: JsonV| tool_use_at(i, tc)
}

/// Whether the arguments of a call, where they are the text of a plain value, are read as that
/// value.
pub open spec fn read_exactly(tc: JsonV) -> bool {
    forall|v: JsonV| #[trigger]
        json::wire::is_plain(v, 127) && chat_anthropic::call_arguments(tc) == json::wire::json_text(
            v,
        ) ==> json::wire::reads_back(v)
}

/// The tool calls of a chat message.
pub open spec fn calls_of_message(m: JsonV) -> Seq<JsonV> {
    match m.array_at("tool_calls"@) {
        Some(calls) => calls,
        None => Seq::empty(),
    }
}

/// The tool calls of a chat response.
pub open spec fn calls_of_chat(body: JsonV) -> Seq<JsonV> {
    match json::at_v(first_choice(body), "message"@) {
        Some(m) => calls_of_message(m),
        None => Seq::empty(),
    }
}

fn call_to_tool_use_at(i: usize, tc: &Json) -> (r: Json)
    ensures
        r@ == tool_use_at(i as int, tc@),
        read_exactly(tc@),
{
    let id = tc.str_or("id", "");
    let f = tc.get_or_null("function");
    let input = parse_arguments(f.str_or("arguments", "{}"));
    if id.is_empty() {
        let made = concat2("toolu_", to_decimal(i as u64).as_str());
        tool_use(made.as_str(), f.str_or("name", ""), input)
    } else {
        tool_use(id, f.str_or("name", ""), input)
    }
}

/// The blocks of a chat message: thinking, text, and tools, in that order.
pub open spec fn blocks_of_chat(message: Option<JsonV>) -> Seq<JsonV> {
    match message {
        Some(m) => codex_anthropic::thinking_if_any(m.str_or("reasoning_content"@, ""@))
            + chat_anthropic::text_block_if_any("text"@, m.str_at("content"@))
            + match m.array_at("tool_calls"@) {
            Some(calls) => calls.map(tool_use_at_fn()),
            None => Seq::empty(),
        },
        None => Seq::empty(),
    }
}

fn chat_to_blocks(m: &Json) -> (r: Vec<Json>)
    ensures
        json::views(r@) == blocks_of_chat(Some(m@)),
        forall|i: int|
            0 <= i < calls_of_message(m@).len() ==> read_exactly(
                #[trigger] calls_of_message(m@)[i],
            ),
{
    broadcast use json::group_json;

    let mut out = thinking_blocks(m.str_or("reasoning_content", ""));
    let mut more = text_blocks_if_any("text", m.str_at("content"));
    out.append(&mut more);
    let ghost first = json::views(out@);
    if let Some(calls) = m.array_at("tool_calls") {
        let ghost all = json::views(calls@);
        let n: usize = calls.len();
        assert(first + all.map(tool_use_at_fn()).take(0) =~= first);
        for i in 0..n
            invariant
                n == calls@.len(),
                all == json::views(calls@),
                json::views(out@) == first + all.map(tool_use_at_fn()).take(i as int),
                forall|k: int| 0 <= k < i ==> read_exactly(#[trigger] all[k]),
        {
            assert(all[i as int] == calls@[i as int]@);
            out.push(call_to_tool_use_at(i, &calls[i]));
            assert(first + all.map(tool_use_at_fn()).take(i + 1) =~= (first + all.map(
                tool_use_at_fn(),
            ).take(i as int)).push(tool_use_at(i as int, all[i as int])));
        }
        assert(all.map(tool_use_at_fn()).take(n as int) =~= all.map(tool_use_at_fn()));
    } else {
        assert(first + Seq::<JsonV>::empty() =~= first);
    }
    out
}

/// Why an Anthropic response stops, by a chat response's reason.
pub open spec fn stop_reason_of_finish(finish: Option<Seq<char>>) -> Seq<char> {
    match finish {
        Some(r) => if r == "tool_calls"@ {
            "tool_use"@
        } else if r == "length"@ {
            "max_tokens"@
        } else {
            "end_turn"@
        },
        None => "end_turn"@,
    }
}

pub(crate) fn finish_to_stop_reason(finish: Option<&str>) -> (r: &'static str)
    ensures
        r@ == stop_reason_of_finish(json::opt_str(finish)),
{
    match finish {
        Some(r) => if same(r, "tool_calls") {
            "tool_use"
        } else if same(r, "length") {
            "max_tokens"
        } else {
            "end_turn"
        },
        None => "end_turn",
    }
}

/// An Anthropic response made from a chat response.
pub open spec fn chat_response_as_anthropic(body: JsonV, model: Seq<char>) -> JsonV {
    let choice = first_choice(body);
    anthropic_message_v(
        body.str_or("id"@, "msg_unknown"@),
        blocks_of_chat(json::at_v(choice, "message"@)),
        model,
        stop_reason_of_finish(json::str_of_v(json::at_v(choice, "finish_reason"@))),
        anthropic_usage_v(
            usage_of(body, "prompt_tokens"@),
            usage_of(body, "completion_tokens"@),
        ),
    )
}

/// Converts a Chat Completions response to an Anthropic Messages response. One that was made
/// from an Anthropic response becomes that response again, in its id, its content, why it
/// stops, and its usage.
pub fn openai_to_anthropic_response(body: &Json, request_model: &str) -> (r: Json)
    ensures
        r@ == chat_response_as_anthropic(body@, request_model@),
        forall|a: JsonV, model: Seq<char>, created: u64|
            body@ == #[trigger] to_chat::anthropic_response_as_chat(a, model, created)
                && round_trips::is_plain_response(a) ==> round_trips::is_kept(
                a,
                r@,
                request_model@,
            ),
{
    let choice = choice_of(body);
    let mut content: Vec<Json> = Vec::new();
    assert(json::views(content@) =~= Seq::<JsonV>::empty());
    if let Some(m) = json::at(choice, "message") {
        content = chat_to_blocks(m);
    }
    let stop_reason = finish_to_stop_reason(json::str_of(json::at(choice, "finish_reason")));
    let usage = anthropic_usage(usage_at(body, "prompt_tokens"), usage_at(body, "completion_tokens"));
    proof {
        assert forall|a: JsonV, model: Seq<char>, created: u64|
            body@ == #[trigger] to_chat::anthropic_response_as_chat(a, model, created)
                && round_trips::is_plain_response(a) implies round_trips::is_kept(
            a,
            chat_response_as_anthropic(body@, request_model@),
            request_model@,
        ) by {
            round_trips::lemma_made_from_anthropic(a, model, created, request_model@);
        }
    }
    anthropic_message(body.str_or("id", "msg_unknown"), content, request_model, stop_reason, usage)
}

/// The text block that a part of a message item becomes.
pub open spec fn block_of_part(p: JsonV) -> Seq<JsonV> {
    if p.str_is("type"@, "output_text"@) {
        chat_anthropic::text_block_if_any("text"@, p.str_at("text"@))
    } else {
        Seq::empty()
    }
}

pub open spec fn block_of_part_fn() -> spec_fn(JsonV) -> Seq<JsonV> {
    |p: JsonV| block_of_part(p)
}

fn part_to_block(p: &Json) -> (r: Vec<Json>)
    ensures
        json::views(r@) == block_of_part(p@),
{
    if p.str_is("type", "output_text") {
        text_blocks_if_any("text", p.str_at("text"))
    } else {
        let out: Vec<Json> = Vec::new();
        assert(json::views(out@) =~= Seq::<JsonV>::empty());
        out
    }
}

/// The id of a call, or another where it is empty.
pub open spec fn id_or(id: Seq<char>, other: Seq<char>) -> Seq<char> {
    if id.len() == 0 {
        other
    } else {
        id
    }
}

/// The blocks that an output item becomes.
pub open spec fn blocks_of_item(item: JsonV) -> Seq<JsonV> {
    if item.str_is("type"@, "message"@) {
        match item.array_at("content"@) {
            Some(ps) => seqs::flat(ps, block_of_part_fn()),
            None => Seq::empty(),
        }
    } else if item.str_is("type"@, "function_call"@) {
        seq![
            chat_anthropic::tool_use_v(
                id_or(item.str_or("call_id"@, ""@), "call_0"@),
                item.str_or("name"@, ""@),
                chat_anthropic::arguments_value(item.str_or("arguments"@, "{}"@)),
            ),
        ]
    } else {
        Seq::empty()
    }
}

pub open spec fn blocks_of_item_fn() -> spec_fn(JsonV) -> Seq<JsonV> {
    |item: JsonV| blocks_of_item(item)
}

fn item_to_blocks(item: &Json) -> (r: Vec<Json>)
    ensures
        json::views(r@) == blocks_of_item(item@),
{
    let mut out: Vec<Json> = Vec::new();
    if item.str_is("type", "message") {
        if let Some(ps) = item.array_at("content") {
            out = gather(ps, part_to_block, Ghost(block_of_part_fn()));
        }
    } else if item.str_is("type", "function_call") {
        let id = item.str_or("call_id", "");
        let id = if id.is_empty() {
            "call_0"
        } else {
            id
        };
        let input = parse_arguments(item.str_or("arguments", "{}"));
        out.push(tool_use(id, item.str_or("name", ""), input));
    }
    assert(json::views(out@) =~= blocks_of_item(item@));
    out
}

/// The items of a response's output.
pub open spec fn output_of(body: JsonV) -> Seq<JsonV> {
    match body.array_at("output"@) {
        Some(items) => items,
        None => Seq::empty(),
    }
}

/// Whether an output has a function call.
pub open spec fn has_function_call(items: Seq<JsonV>) -> bool {
    exists|i: int| 0 <= i < items.len() && (#[trigger] items[i]).str_is("type"@, "function_call"@)
}

pub(crate) fn calls_function(items: &Vec<Json>) -> (r: bool)
    ensures
        r == has_function_call(json::views(items@)),
{
    let ghost all = json::views(items@);
    let n: usize = items.len();
    for i in 0..n
        invariant
            n == items@.len(),
            all == json::views(items@),
            forall|k: int| 0 <= k < i ==> !(#[trigger] all[k]).str_is("type"@, "function_call"@),
    {
        assert(all[i as int] == items@[i as int]@);
        if items[i].str_is("type", "function_call") {
            return true;
        }
    }
    false
}

/// Why an Anthropic response stops, by a Responses response's output and status.
pub open spec fn stop_reason_of_responses(body: JsonV) -> Seq<char> {
    if has_function_call(output_of(body)) {
        "tool_use"@
    } else if body.str_is("status"@, "incomplete"@) {
        "max_tokens"@
    } else {
        "end_turn"@
    }
}

/// An Anthropic response made from a Responses response.
pub open spec fn responses_response_as_anthropic(body: JsonV, model: Seq<char>) -> JsonV {
    anthropic_message_v(
        body.str_or("id"@, "msg_unknown"@),
        seqs::flat(output_of(body), blocks_of_item_fn()),
        model,
        stop_reason_of_responses(body),
        anthropic_usage_v(usage_of(body, "input_tokens"@), usage_of(body, "output_tokens"@)),
    )
}

/// Converts a Responses response to an Anthropic Messages response.
pub fn responses_to_anthropic_response(body: &Json, request_model: &str) -> (r: Json)
    ensures
        r@ == responses_response_as_anthropic(body@, request_model@),
{
    let mut content: Vec<Json> = Vec::new();
    let mut calls: bool = false;
    if let Some(items) = body.array_at("output") {
        content = gather(items, item_to_blocks, Ghost(blocks_of_item_fn()));
        calls = calls_function(items);
    }
    assert(json::views(content@) =~= seqs::flat(output_of(body@), blocks_of_item_fn()));
    let stop_reason = if calls {
        "tool_use"
    } else if body.str_is("status", "incomplete") {
        "max_tokens"
    } else {
        "end_turn"
    };
    let usage = anthropic_usage(usage_at(body, "input_tokens"), usage_at(body, "output_tokens"));
    anthropic_message(body.str_or("id", "msg_unknown"), content, request_model, stop_reason, usage)
}

} // verus!
