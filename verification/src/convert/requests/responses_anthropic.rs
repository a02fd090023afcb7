//! Responses requests as Anthropic Messages requests.

use vstd::prelude::*;

use super::anthropic_chat;
use super::anthropic_chat::empty_schema;
use super::anthropic_order;
use super::anthropic_order::codex_fix_anthropic_message_ordering;
use super::codex_anthropic;
use super::codex_anthropic::codex_append_responses_input_as_anthropic_messages;
use super::codex_chat;
use super::codex_chat::codex_instruction_text;
use crate::json::arrays::gather;
use crate::json::{self, Json, JsonV};
use crate::seqs;

verus! {

/// The schema of a Responses tool: its parameters, without what Anthropic does not take.
pub open spec fn clean_schema(params: Option<JsonV>) -> JsonV {
    match params {
        Some(JsonV::Obj(m)) => JsonV::Obj(m.remove("additionalProperties"@).remove("strict"@)),
        _ => anthropic_chat::empty_schema_v(),
    }
}

fn to_clean_schema(params: Option<&Json>) -> (r: Json)
    ensures
        r@ == clean_schema(json::opt_view(params)),
{
    broadcast use json::group_json;

    match params {
        Some(Json::Obj(_)) => match params {
            Some(p) => match p.clone() {
                Json::Obj(o) => Json::Obj(o.remove("additionalProperties").remove("strict")),
                _ => empty_schema(),
            },
            None => empty_schema(),
        },
        _ => empty_schema(),
    }
}

/// The Anthropic tool that a Responses tool becomes: none where it is no function or has
/// no name.
pub open spec fn anthropic_tool_of_responses(t: JsonV) -> Seq<JsonV> {
    if t.str_is("type"@, "function"@) && t.get("name"@) is Some {
        seq![
            json::jobj().put("name"@, t.get_or_null("name"@)).put(
                "description"@,
                JsonV::Str(t.str_or("description"@, ""@)),
            ).put("input_schema"@, clean_schema(t.get("parameters"@))),
        ]
    } else {
        Seq::empty()
    }
}

pub open spec fn anthropic_tool_of_responses_fn() -> spec_fn(JsonV) -> Seq<JsonV> {
    |t: JsonV| anthropic_tool_of_responses(t)
}

fn tool_to_anthropic_tool(t: &Json) -> (r: Vec<Json>)
    ensures
        json::views(r@) == anthropic_tool_of_responses(t@),
{
    let mut out: Vec<Json> = Vec::new();
    if t.str_is("type", "function") && t.get("name").is_some() {
        out.push(
            Json::object().put("name", t.get_or_null("name")).put(
                "description",
                Json::str(t.str_or("description", "")),
            ).put("input_schema", to_clean_schema(t.get("parameters"))),
        );
    }
    assert(json::views(out@) =~= anthropic_tool_of_responses(t@));
    out
}

/// The Anthropic tools of Responses tools.
pub open spec fn anthropic_tools_of_responses(tools: JsonV) -> Seq<JsonV> {
    match tools {
        JsonV::Arr(a) => seqs::flat(a, anthropic_tool_of_responses_fn()),
        _ => Seq::empty(),
    }
}

/// Converts Responses tools to Anthropic tools.
pub fn codex_responses_tools_to_anthropic_tools(tools: &Json) -> (r: Vec<Json>)
    ensures
        json::views(r@) == anthropic_tools_of_responses(tools@),
{
    broadcast use json::group_json;

    match tools {
        Json::Arr(a) => gather(a, tool_to_anthropic_tool, Ghost(anthropic_tool_of_responses_fn())),
        _ => {
            let out: Vec<Json> = Vec::new();
            assert(json::views(out@) =~= Seq::<JsonV>::empty());
            out
        },
    }
}

/// The system prompt made from instructions, where they have text.
pub open spec fn system_of_instructions(body: JsonV) -> Option<JsonV> {
    match body.get("instructions"@) {
        Some(i) => if codex_chat::instruction_text(i).len() > 0 {
            Some(JsonV::Str(codex_chat::instruction_text(i)))
        } else {
            None
        },
        None => None,
    }
}

/// The messages of a Responses request.
pub open spec fn anthropic_messages(body: JsonV) -> Seq<JsonV> {
    anthropic_order::ordered_anthropic(
        match body.get("input"@) {
            Some(input) => codex_anthropic::anthropic_messages_of_input(input),
            None => Seq::empty(),
        },
    )
}

/// The limit on tokens that a request asks for.
pub open spec fn asked_max_tokens(body: JsonV) -> u64 {
    match (match body.get("max_output_tokens"@) {
        Some(v) => v.as_u64(),
        None => body.u64_at("max_tokens"@),
    }) {
        Some(n) => n,
        None => 16384,
    }
}

/// Whether thinking is on: it is unless it is disabled.
pub open spec fn thinking_wanted(body: JsonV) -> bool {
    json::str_of_v(json::at_v(body.get("thinking"@), "type"@)) != Some("disabled"@)
}

/// How many tokens thinking may take.
pub open spec fn thinking_budget(body: JsonV) -> u64 {
    match json::at_v(body.get("thinking"@), "budget_tokens"@) {
        Some(v) => match v.as_u64() {
            Some(n) => n,
            None => 10000,
        },
        None => 10000,
    }
}

/// The least limit on tokens that leaves room beside thinking.
pub open spec fn room_for_thinking(budget: u64) -> u64 {
    budget.wrapping_add(6000)
}

/// The limit on tokens: at least what leaves room beside thinking.
pub open spec fn max_tokens_v(body: JsonV) -> u64 {
    let asked = asked_max_tokens(body);
    let room = room_for_thinking(thinking_budget(body));
    if thinking_wanted(body) && asked < room {
        room
    } else {
        asked
    }
}

/// The thinking of an Anthropic request.
pub open spec fn thinking_v(body: JsonV) -> Option<JsonV> {
    if thinking_wanted(body) {
        Some(
            json::jobj().put("type"@, JsonV::Str("enabled"@)).put(
                "budget_tokens"@,
                json::jnum(thinking_budget(body)),
            ),
        )
    } else {
        None
    }
}

/// An Anthropic request made from a Responses request.
pub open spec fn responses_as_anthropic(body: JsonV, model: Seq<char>) -> JsonV {
    json::jobj().put("model"@, JsonV::Str(model)).put_opt(
        "system"@,
        system_of_instructions(body),
    ).put("messages"@, JsonV::Arr(anthropic_messages(body))).put(
        "max_tokens"@,
        json::jnum(max_tokens_v(body)),
    ).put_opt("stream"@, body.get("stream"@)).put_opt("thinking"@, thinking_v(body)).put_opt(
        "tools"@,
        match body.get("tools"@) {
            Some(tools) => if anthropic_tools_of_responses(tools).len() > 0 {
                Some(JsonV::Arr(anthropic_tools_of_responses(tools)))
            } else {
                None
            },
            None => None,
        },
    )
}

/// Converts a Responses request to an Anthropic Messages request.
pub fn responses_to_anthropic_request(body: &Json, target_model: &str) -> (r: Json)
    ensures
        r@ == responses_as_anthropic(body@, target_model@),
{
    broadcast use json::group_json;

    let mut out = Json::object().put("model", Json::str(target_model));
    if let Some(i) = body.get("instructions") {
        let t = codex_instruction_text(i);
        if !t.as_str().is_empty() {
            out = out.put("system", Json::str(t.as_str()));
        }
    }
    let mut messages: Vec<Json> = Vec::new();
    assert(json::views(messages@) =~= Seq::<JsonV>::empty());
    if let Some(input) = body.get("input") {
        messages = codex_append_responses_input_as_anthropic_messages(input);
    }
    let messages = codex_fix_anthropic_message_ordering(&messages);
    let asked = match body.get("max_output_tokens") {
        Some(v) => v.as_u64(),
        None => body.u64_at("max_tokens"),
    };
    let mut max_tokens: u64 = match asked {
        Some(n) => n,
        None => 16384,
    };
    let kind = json::str_of(json::at(body.get("thinking"), "type"));
    let thinking_enabled = match kind {
        Some(t) => !crate::text::same(t, "disabled"),
        None => true,
    };
    assert(json::opt_str(kind) == json::str_of_v(json::at_v(body@.get("thinking"@), "type"@)));
    let budget: u64 = match json::at(body.get("thinking"), "budget_tokens") {
        Some(v) => match v.as_u64() {
            Some(n) => n,
            None => 10000,
        },
        None => 10000,
    };
    if thinking_enabled {
        let room: u64 = budget.wrapping_add(6000);
        if max_tokens < room {
            max_tokens = room;
        }
    }
    out = out.put("messages", Json::Arr(messages)).put("max_tokens", Json::number(max_tokens)).put_opt(
        "stream",
        body.get("stream"),
    );
    if thinking_enabled {
        out = out.put(
            "thinking",
            Json::object().put("type", Json::str("enabled")).put(
                "budget_tokens",
                Json::number(budget),
            ),
        );
    }
    if let Some(tools) = body.get("tools") {
        let tools = codex_responses_tools_to_anthropic_tools(tools);
        if !tools.is_empty() {
            out = out.put("tools", Json::Arr(tools));
        }
    }
    out
}

} // verus!
