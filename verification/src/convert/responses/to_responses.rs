//! Responses as Responses responses.

use vstd::prelude::*;

use super::to_anthropic;
use super::to_anthropic::{choice_of, usage_at};
use super::to_chat;
use crate::clock::chrono_like_id;
use crate::convert::parts;
use crate::convert::parts::as_plain_text;
use crate::convert::requests::anthropic_chat;
use crate::convert::requests::anthropic_chat::typed_texts;
use crate::convert::think;
use crate::convert::think::codex_split_leading_think_block;
use crate::json::{self, Json, JsonV};
use crate::seqs;
use crate::text;
use crate::text::{concat2, same, starts_with, to_decimal};

verus! {

/// The id of a response made from the id of a chat.
pub open spec fn response_id(id: Option<Seq<char>>) -> Seq<char> {
    let id = json::text_or(id, "modelrouter"@);
    if text::starts(id, "resp_"@) {
        id
    } else {
        "resp_"@ + id
    }
}

/// Makes the id of a response from the id of a chat.
pub fn codex_response_id_from_chat_id(id: Option<&str>) -> (r: String)
    ensures
        r@ == response_id(json::opt_str(id)),
{
    let id = match id {
        Some(s) => s,
        None => "modelrouter",
    };
    if starts_with(id, "resp_") {
        id.to_owned()
    } else {
        concat2("resp_", id)
    }
}

/// The usage of a Responses response.
pub open spec fn responses_usage_v(input: u64, output: u64, total: u64) -> JsonV {
    json::jobj().put("input_tokens"@, json::jnum(input)).put(
        "output_tokens"@,
        json::jnum(output),
    ).put("total_tokens"@, json::jnum(total))
}

pub(crate) fn responses_usage(input: u64, output: u64, total: u64) -> (r: Json)
    ensures
        r@ == responses_usage_v(input, output, total),
{
    Json::object().put("input_tokens", Json::number(input)).put(
        "output_tokens",
        Json::number(output),
    ).put("total_tokens", Json::number(total))
}

/// A number under one key, or else under another, or zero.
pub open spec fn number_under(u: JsonV, key: Seq<char>, other: Seq<char>) -> u64 {
    match u.get(key) {
        Some(v) => match v.as_u64() {
            Some(n) => n,
            None => 0,
        },
        None => u.u64_or(other, 0),
    }
}

fn number_at(u: &Json, key: &str, other: &str) -> (r: u64)
    ensures
        r == number_under(u@, key@, other@),
{
    match u.get(key) {
        Some(v) => match v.as_u64() {
            Some(n) => n,
            None => 0,
        },
        None => u.u64_or(other, 0),
    }
}

/// The usage of a response made from that of a chat.
pub open spec fn usage_of_chat(usage: Option<JsonV>) -> JsonV {
    match usage {
        Some(u) => if u is Obj {
            let input = number_under(u, "prompt_tokens"@, "input_tokens"@);
            let output = number_under(u, "completion_tokens"@, "output_tokens"@);
            responses_usage_v(input, output, u.u64_or("total_tokens"@, input.wrapping_add(output)))
        } else {
            responses_usage_v(0, 0, 0)
        },
        None => responses_usage_v(0, 0, 0),
    }
}

/// Converts the usage of a chat to that of a response.
pub fn codex_chat_usage_to_responses_usage(usage: Option<&Json>) -> (r: Json)
    ensures
        r@ == usage_of_chat(json::opt_view(usage)),
{
    match usage {
        Some(u) => if u.is_object() {
            let input: u64 = number_at(u, "prompt_tokens", "input_tokens");
            let output: u64 = number_at(u, "completion_tokens", "output_tokens");
            let total: u64 = u.u64_or("total_tokens", input.wrapping_add(output));
            responses_usage(input, output, total)
        } else {
            responses_usage(0, 0, 0)
        },
        None => responses_usage(0, 0, 0),
    }
}

/// Whether there is a string under a key, and not an empty one.
pub open spec fn has_text(m: JsonV, key: Seq<char>) -> bool {
    m.str_or(key, ""@).len() > 0
}

/// The reasoning in a text that starts with it.
pub open spec fn inline_reasoning(m: JsonV) -> Option<Seq<char>> {
    match m.str_at("content"@) {
        Some(t) => match think::think_block(t) {
            Some(p) => if p.0.len() > 0 {
                Some(p.0)
            } else {
                None
            },
            None => None,
        },
        None => None,
    }
}

/// The reasoning of a chat message: one of its fields, or else the start of its text.
pub open spec fn chat_reasoning(m: JsonV) -> Option<Seq<char>> {
    if has_text(m, "reasoning_content"@) {
        m.str_at("reasoning_content"@)
    } else if has_text(m, "reasoning"@) {
        m.str_at("reasoning"@)
    } else {
        inline_reasoning(m)
    }
}

/// Extracts the reasoning of a chat message.
pub fn codex_chat_reasoning_text(message: &Json) -> (r: Option<String>)
    ensures
        text::opt_text(r) == chat_reasoning(message@),
{
    proof {
        reveal_strlit("");
    }
    if let Some(t) = message.str_at("reasoning_content") {
        if !t.is_empty() {
            return Some(t.to_owned());
        }
    }
    if let Some(t) = message.str_at("reasoning") {
        if !t.is_empty() {
            return Some(t.to_owned());
        }
    }
    if let Some(t) = message.str_at("content") {
        if let Some(p) = codex_split_leading_think_block(t) {
            if !p.0.as_str().is_empty() {
                return Some(p.0);
            }
        }
    }
    None
}

/// One value in an array.
pub open spec fn one(v: JsonV) -> JsonV {
    JsonV::Arr(seq![v])
}

pub(crate) fn only(v: Json) -> (r: Json)
    ensures
        r@ == one(v@),
{
    broadcast use json::group_json;

    let mut out: Vec<Json> = Vec::new();
    out.push(v);
    let r = Json::Arr(out);
    assert(r@->Arr_0 =~= seq![v@]);
    r
}

/// The empty array.
pub open spec fn nothing() -> JsonV {
    JsonV::Arr(Seq::empty())
}

pub(crate) fn no_elements() -> (r: Json)
    ensures
        r@ == nothing(),
{
    broadcast use json::group_json;

    let r = Json::Arr(Vec::new());
    assert(r@->Arr_0 =~= Seq::<JsonV>::empty());
    r
}

/// A part with the text of an answer.
pub open spec fn output_text_v(t: Seq<char>) -> JsonV {
    parts::text_block_v("output_text"@, t).put("annotations"@, nothing())
}

pub(crate) fn output_text(t: &str) -> (r: Json)
    ensures
        r@ == output_text_v(t@),
{
    parts::text_block("output_text", t).put("annotations", no_elements())
}

/// A message item that is complete.
pub open spec fn message_item_v(id: Seq<char>, t: Seq<char>) -> JsonV {
    json::jobj().put("id"@, JsonV::Str(id)).put("type"@, JsonV::Str("message"@)).put(
        "status"@,
        JsonV::Str("completed"@),
    ).put("role"@, JsonV::Str("assistant"@)).put("content"@, one(output_text_v(t)))
}

pub(crate) fn message_item(id: &str, t: &str) -> (r: Json)
    ensures
        r@ == message_item_v(id@, t@),
{
    Json::object().put("id", Json::str(id)).put("type", Json::str("message")).put(
        "status",
        Json::str("completed"),
    ).put("role", Json::str("assistant")).put("content", only(output_text(t)))
}

/// The item with the reasoning of a chat message, where there is any.
pub open spec fn reasoning_items(id: Seq<char>, m: JsonV) -> Seq<JsonV> {
    match chat_reasoning(m) {
        Some(t) => seq![
            json::jobj().put("id"@, JsonV::Str("rs_"@ + id)).put(
                "type"@,
                JsonV::Str("reasoning"@),
            ).put("summary"@, one(parts::text_block_v("summary_text"@, t))),
        ],
        None => Seq::empty(),
    }
}

/// The text of an answer, without the reasoning at its start.
pub open spec fn answer_text(t: Seq<char>) -> Seq<char> {
    match think::think_block(t) {
        Some(p) => p.1,
        None => t,
    }
}

/// The item with the text of a chat message, where there is any.
pub open spec fn answer_items(id: Seq<char>, m: JsonV) -> Seq<JsonV> {
    match m.str_at("content"@) {
        Some(t) => if answer_text(t).len() > 0 {
            seq![message_item_v(id + "_msg"@, answer_text(t))]
        } else {
            Seq::empty()
        },
        None => Seq::empty(),
    }
}

/// The item that the tool call at a place becomes; a call without an id gets one by its
/// place.
pub open spec fn call_item_at(i: int, tc: JsonV) -> JsonV {
    let id = to_anthropic::id_or(tc.str_or("id"@, ""@), "call_"@ + text::decimal(i as nat));
    let f = tc.get_or_null("function"@);
    json::jobj().put("id"@, JsonV::Str("fc_"@ + id)).put("type"@, JsonV::Str("function_call"@)).put(
        "status"@,
        JsonV::Str("completed"@),
    ).put("call_id"@, JsonV::Str(id)).put("name"@, JsonV::Str(f.str_or("name"@, ""@))).put(
        "arguments"@,
        JsonV::Str(parts::plain_text_or(f.get("arguments"@), "{}"@)),
    )
}

pub open spec fn call_item_at_fn() -> spec_fn(int, JsonV) -> JsonV {
    |i: int, tc: JsonV| call_item_at(i, tc)
}

fn call_to_item_at(i: usize, tc: &Json) -> (r: Json)
    ensures
        r@ == call_item_at(i as int, tc@),
{
    let given = tc.str_or("id", "");
    let id = if given.is_empty() {
        concat2("call_", to_decimal(i as u64).as_str())
    } else {
        given.to_owned()
    };
    let f = tc.get_or_null("function");
    let arguments = as_plain_text(f.get("arguments"), "{}");
    Json::object().put("id", Json::str(concat2("fc_", id.as_str()).as_str())).put(
        "type",
        Json::str("function_call"),
    ).put("status", Json::str("completed")).put("call_id", Json::str(id.as_str())).put(
        "name",
        Json::str(f.str_or("name", "")),
    ).put("arguments", Json::str(arguments.as_str()))
}

/// The output items of a chat message: reasoning, text, and calls, in that order.
pub open spec fn items_of_chat(id: Seq<char>, message: Option<JsonV>) -> Seq<JsonV> {
    match message {
        Some(m) => reasoning_items(id, m) + answer_items(id, m) + match m.array_at("tool_calls"@) {
            Some(calls) => calls.map(call_item_at_fn()),
            None => Seq::empty(),
        },
        None => Seq::empty(),
    }
}

fn chat_to_items(id: &str, m: &Json) -> (r: Vec<Json>)
    ensures
        json::views(r@) == items_of_chat(id@, Some(m@)),
{
    broadcast use json::group_json;

    let mut out: Vec<Json> = Vec::new();
    if let Some(t) = codex_chat_reasoning_text(m) {
        out.push(
            Json::object().put("id", Json::str(concat2("rs_", id).as_str())).put(
                "type",
                Json::str("reasoning"),
            ).put("summary", only(parts::text_block("summary_text", t.as_str()))),
        );
    }
    assert(json::views(out@) =~= reasoning_items(id@, m@));
    if let Some(t) = m.str_at("content") {
        let answer = match codex_split_leading_think_block(t) {
            Some(p) => p.1,
            None => t.to_owned(),
        };
        if !answer.as_str().is_empty() {
            out.push(message_item(concat2(id, "_msg").as_str(), answer.as_str()));
        }
    }
    let ghost first = json::views(out@);
    assert(first =~= reasoning_items(id@, m@) + answer_items(id@, m@));
    if let Some(calls) = m.array_at("tool_calls") {
        let ghost all = json::views(calls@);
        let n: usize = calls.len();
        assert(first + all.map(call_item_at_fn()).take(0) =~= first);
        for i in 0..n
            invariant
                n == calls@.len(),
                all == json::views(calls@),
                json::views(out@) == first + all.map(call_item_at_fn()).take(i as int),
        {
            out.push(call_to_item_at(i, &calls[i]));
            assert(first + all.map(call_item_at_fn()).take(i + 1) =~= (first + all.map(
                call_item_at_fn(),
            ).take(i as int)).push(call_item_at(i as int, all[i as int])));
        }
        assert(all.map(call_item_at_fn()).take(n as int) =~= all.map(call_item_at_fn()));
    } else {
        assert(first + Seq::<JsonV>::empty() =~= first);
    }
    out
}

/// Whether a chat response was cut off at its limit.
pub open spec fn cut_off(choice: Option<JsonV>) -> bool {
    json::str_of_v(json::at_v(choice, "finish_reason"@)) == Some("length"@)
}

/// A Responses response made from a chat response.
pub open spec fn chat_response_as_responses(body: JsonV, model: Seq<char>) -> JsonV {
    let choice = to_anthropic::first_choice(body);
    let id = response_id(body.str_at("id"@));
    json::jobj().put("id"@, JsonV::Str(id)).put("object"@, JsonV::Str("response"@)).put(
        "created_at"@,
        json::jnum(body.u64_or("created"@, 0)),
    ).put(
        "status"@,
        JsonV::Str(
            if cut_off(choice) {
                "incomplete"@
            } else {
                "completed"@
            },
        ),
    ).put("model"@, JsonV::Str(model)).put(
        "output"@,
        JsonV::Arr(items_of_chat(id, json::at_v(choice, "message"@))),
    ).put("usage"@, usage_of_chat(body.get("usage"@))).put_opt(
        "incomplete_details"@,
        if cut_off(choice) {
            Some(json::jobj().put("reason"@, JsonV::Str("max_output_tokens"@)))
        } else {
            None
        },
    )
}

/// Converts a Chat Completions response to a Responses response.
pub fn chat_to_responses_response(body: &Json, request_model: &str) -> (r: Json)
    ensures
        r@ == chat_response_as_responses(body@, request_model@),
{
    broadcast use json::group_json;

    let choice = choice_of(body);
    let id = codex_response_id_from_chat_id(body.str_at("id"));
    let mut output: Vec<Json> = Vec::new();
    assert(json::views(output@) =~= Seq::<JsonV>::empty());
    if let Some(m) = json::at(choice, "message") {
        output = chat_to_items(id.as_str(), m);
    }
    let finish = json::str_of(json::at(choice, "finish_reason"));
    let cut = match finish {
        Some(f) => same(f, "length"),
        None => false,
    };
    assert(json::opt_str(finish) == json::str_of_v(
        json::at_v(to_anthropic::first_choice(body@), "finish_reason"@),
    ));
    let status = if cut {
        "incomplete"
    } else {
        "completed"
    };
    let mut out = Json::object().put("id", Json::str(id.as_str())).put(
        "object",
        Json::str("response"),
    ).put("created_at", Json::number(body.u64_or("created", 0))).put(
        "status",
        Json::str(status),
    ).put("model", Json::str(request_model)).put("output", Json::Arr(output)).put(
        "usage",
        codex_chat_usage_to_responses_usage(body.get("usage")),
    );
    if cut {
        out = out.put(
            "incomplete_details",
            Json::object().put("reason", Json::str("max_output_tokens")),
        );
    }
    out
}

/// A text with a time after it.
pub open spec fn timed(prefix: Seq<char>, now: u64) -> Seq<char> {
    prefix + text::decimal(now as nat)
}

pub(crate) fn with_time(prefix: &str, now: u64) -> (r: String)
    ensures
        r@ == timed(prefix@, now),
{
    concat2(prefix, to_decimal(now).as_str())
}

/// The output item that a block becomes at a time.
pub open spec fn item_of_block(b: JsonV, now: u64) -> Seq<JsonV> {
    if b.str_is("type"@, "thinking"@) {
        seq![
            json::jobj().put("id"@, JsonV::Str(timed("rs_"@, now))).put(
                "type"@,
                JsonV::Str("reasoning"@),
            ).put("status"@, JsonV::Str("completed"@)).put("summary"@, nothing()).put(
                "content"@,
                one(parts::text_block_v("reasoning_text"@, b.str_or("thinking"@, ""@))),
            ),
        ]
    } else if b.str_is("type"@, "text"@) {
        seq![message_item_v(timed("msg_"@, now), b.str_or("text"@, ""@))]
    } else if b.str_is("type"@, "tool_use"@) {
        let id = b.str_or("id"@, ""@);
        seq![
            json::jobj().put("id"@, JsonV::Str(id)).put("type"@, JsonV::Str("function_call"@)).put(
                "call_id"@,
                JsonV::Str(id),
            ).put("name"@, JsonV::Str(b.str_or("name"@, ""@))).put(
                "arguments"@,
                JsonV::Str(json::wire::json_text(b.get_or_empty("input"@))),
            ).put("status"@, JsonV::Str("completed"@)),
        ]
    } else {
        Seq::empty()
    }
}

pub open spec fn item_of_block_fn(now: u64) -> spec_fn(JsonV) -> Seq<JsonV> {
    |b: JsonV| item_of_block(b, now)
}

fn block_to_item(b: &Json, now: u64) -> (r: Vec<Json>)
    ensures
        json::views(r@) == item_of_block(b@, now),
{
    let mut out: Vec<Json> = Vec::new();
    if b.str_is("type", "thinking") {
        out.push(
            Json::object().put("id", Json::str(with_time("rs_", now).as_str())).put(
                "type",
                Json::str("reasoning"),
            ).put("status", Json::str("completed")).put("summary", no_elements()).put(
                "content",
                only(parts::text_block("reasoning_text", b.str_or("thinking", ""))),
            ),
        );
    } else if b.str_is("type", "text") {
        out.push(message_item(with_time("msg_", now).as_str(), b.str_or("text", "")));
    } else if b.str_is("type", "tool_use") {
        let id = b.str_or("id", "");
        let arguments = b.get_or_empty("input").to_text();
        out.push(
            Json::object().put("id", Json::str(id)).put("type", Json::str("function_call")).put(
                "call_id",
                Json::str(id),
            ).put("name", Json::str(b.str_or("name", ""))).put(
                "arguments",
                Json::str(arguments.as_str()),
            ).put("status", Json::str("completed")),
        );
    }
    assert(json::views(out@) =~= item_of_block(b@, now));
    out
}

/// The texts of the text blocks, one after the other.
pub open spec fn all_text(blocks: Seq<JsonV>) -> Seq<char> {
    text::joined(seqs::flat(blocks, anthropic_chat::typed_text_fn("text"@, "text"@)), ""@)
}

/// A Responses response made from an Anthropic response at a time, in milliseconds since
/// the epoch.
pub open spec fn anthropic_response_as_responses(body: JsonV, model: Seq<char>, now: u64) -> JsonV {
    let blocks = to_chat::content_of(body);
    let input = to_anthropic::usage_of(body, "input_tokens"@);
    let output = to_anthropic::usage_of(body, "output_tokens"@);
    json::jobj().put("id"@, JsonV::Str(timed("resp_"@, now))).put(
        "object"@,
        JsonV::Str("response"@),
    ).put("created_at"@, json::jnum(now)).put("status"@, JsonV::Str("completed"@)).put(
        "model"@,
        JsonV::Str(model),
    ).put("output"@, JsonV::Arr(seqs::flat(blocks, item_of_block_fn(now)))).put(
        "output_text"@,
        JsonV::Str(all_text(blocks)),
    ).put("usage"@, responses_usage_v(input, output, input.wrapping_add(output)))
}

/// Converts an Anthropic Messages response to a Responses response of a time, in
/// milliseconds since the epoch.
pub fn anthropic_to_responses_response_at(body: &Json, request_model: &str, now: u64) -> (r: Json)
    ensures
        r@ == anthropic_response_as_responses(body@, request_model@, now),
{
    broadcast use json::group_json;

    let mut items: Vec<Json> = Vec::new();
    let mut texts: Vec<String> = Vec::new();
    let ghost f = item_of_block_fn(now);
    let ghost all = to_chat::content_of(body@);
    proof {
        seqs::lemma_flat_all(all, f);
        assert(json::views(items@) =~= Seq::<JsonV>::empty());
    }
    if let Some(blocks) = body.array_at("content") {
        texts = typed_texts(blocks, "text", "text");
        let n: usize = blocks.len();
        for i in 0..n
            invariant
                n == blocks@.len(),
                all == json::views(blocks@),
                f == item_of_block_fn(now),
                json::views(items@) == seqs::flat(all.take(i as int), f),
        {
            let mut more = block_to_item(&blocks[i], now);
            proof {
                seqs::lemma_flat_step(all, i as int, f);
            }
            items.append(&mut more);
        }
        proof {
            seqs::lemma_flat_all(all, f);
        }
    }
    proof {
        assert(json::views(items@) =~= seqs::flat(all, f));
        assert(text::texts(texts@) =~= seqs::flat(
            all,
            anthropic_chat::typed_text_fn("text"@, "text"@),
        ));
    }
    let input: u64 = usage_at(body, "input_tokens");
    let output: u64 = usage_at(body, "output_tokens");
    Json::object().put("id", Json::str(with_time("resp_", now).as_str())).put(
        "object",
        Json::str("response"),
    ).put("created_at", Json::number(now)).put("status", Json::str("completed")).put(
        "model",
        Json::str(request_model),
    ).put("output", Json::Arr(items)).put(
        "output_text",
        Json::str(text::join(&texts, "").as_str()),
    ).put("usage", responses_usage(input, output, input.wrapping_add(output)))
}

/// Converts an Anthropic Messages response to a Responses response of now.
pub fn anthropic_to_responses_response(body: &Json, request_model: &str) -> (r: Json)
    ensures
        exists|now: u64| r@ == anthropic_response_as_responses(body@, request_model@, now),
{
    let now: u64 = chrono_like_id();
    anthropic_to_responses_response_at(body, request_model, now)
}

} // verus!
