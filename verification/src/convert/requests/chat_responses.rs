//! Chat Completions requests as Responses requests.

use vstd::prelude::*;

use super::anthropic_responses;
use super::anthropic_responses::{function_call, function_output, to_assistant_items};
use super::chat_anthropic;
use super::chat_anthropic::text_blocks_if_any;
use crate::convert::parts;
use crate::convert::parts::{as_plain_text, message};
use crate::json::arrays::each;
use crate::json::{self, Json, JsonV};
use crate::text::same;

verus! {

/// Whether a message is the system's.
pub open spec fn is_system(m: JsonV) -> bool {
    m.str_is("role"@, "system"@)
}

/// The text of a message's content: a string, or another value as JSON.
pub open spec fn message_text(m: JsonV) -> Seq<char> {
    parts::plain_text_or(m.get("content"@), ""@)
}

/// The instructions: the text of the first system message that has one.
pub open spec fn instructions_of(msgs: Seq<JsonV>) -> Option<Seq<char>>
    decreases msgs.len(),
{
    if msgs.len() == 0 {
        None
    } else {
        match instructions_of(msgs.drop_last()) {
            Some(t) => Some(t),
            None => if is_system(msgs.last()) && message_text(msgs.last()).len() > 0 {
                Some(message_text(msgs.last()))
            } else {
                None
            },
        }
    }
}

/// The item that a tool call becomes.
pub open spec fn function_call_of_call(tc: JsonV) -> JsonV {
    anthropic_responses::function_call_v(
        tc.str_or("id"@, ""@),
        chat_anthropic::call_name(tc),
        chat_anthropic::call_arguments(tc),
    )
}

pub open spec fn function_call_of_call_fn() -> spec_fn(JsonV) -> JsonV {
    |tc: JsonV| function_call_of_call(tc)
}

fn call_to_function_call(tc: &Json) -> (r: Json)
    ensures
        r@ == function_call_of_call(tc@),
{
    let f = tc.get_or_null("function");
    function_call(tc.str_or("id", ""), f.str_or("name", ""), f.str_or("arguments", "{}"))
}

/// The function calls of an assistant's message.
pub open spec fn calls_of_assistant(m: JsonV) -> Seq<JsonV> {
    match m.array_at("tool_calls"@) {
        Some(calls) => calls.map_values(function_call_of_call_fn()),
        None => Seq::empty(),
    }
}

/// The items that a message becomes. A system message is a user's once there are
/// instructions, and none before; a message of a role that is not known is a user's.
pub open spec fn chat_items(m: JsonV, instructed: bool) -> Seq<JsonV> {
    let role = m.str_or("role"@, "user"@);
    if role == "system"@ {
        if instructed {
            seq![parts::message_v("user"@, JsonV::Str(message_text(m)))]
        } else {
            Seq::empty()
        }
    } else if role == "assistant"@ {
        anthropic_responses::assistant_items(
            chat_anthropic::text_block_if_any("output_text"@, m.str_at("content"@)),
            calls_of_assistant(m),
        )
    } else if role == "tool"@ {
        seq![anthropic_responses::function_output_v(m.str_or("tool_call_id"@, ""@), message_text(m))]
    } else {
        seq![
            parts::message_v(
                "user"@,
                match m.get("content"@) {
                    Some(c) => c,
                    None => JsonV::Str(""@),
                },
            ),
        ]
    }
}

/// The items of the messages.
pub open spec fn all_chat_items(msgs: Seq<JsonV>) -> Seq<JsonV>
    decreases msgs.len(),
{
    if msgs.len() == 0 {
        Seq::empty()
    } else {
        all_chat_items(msgs.drop_last()) + chat_items(
            msgs.last(),
            instructions_of(msgs.drop_last()) is Some,
        )
    }
}

fn message_to_chat_items(m: &Json, instructed: bool) -> (r: Vec<Json>)
    ensures
        json::views(r@) == chat_items(m@, instructed),
{
    broadcast use json::group_json;

    let role = m.str_or("role", "user");
    let mut out: Vec<Json> = Vec::new();
    if same(role, "system") {
        if instructed {
            out.push(message("user", Json::str(as_plain_text(m.get("content"), "").as_str())));
        }
    } else if same(role, "assistant") {
        let texts = text_blocks_if_any("output_text", m.str_at("content"));
        let mut calls: Vec<Json> = Vec::new();
        if let Some(tcs) = m.array_at("tool_calls") {
            calls = each(tcs, call_to_function_call, Ghost(function_call_of_call_fn()));
        }
        assert(json::views(calls@) =~= calls_of_assistant(m@));
        out = to_assistant_items(texts, calls);
    } else if same(role, "tool") {
        let output = as_plain_text(m.get("content"), "");
        out.push(function_output(m.str_or("tool_call_id", ""), output.as_str()));
    } else {
        let content = match m.get("content") {
            Some(c) => c.clone(),
            None => Json::str(""),
        };
        out.push(message("user", content));
    }
    assert(json::views(out@) =~= chat_items(m@, instructed));
    out
}

/// A Responses request made from a chat request.
pub open spec fn chat_as_responses(body: JsonV, model: Seq<char>) -> JsonV {
    json::jobj().put("model"@, JsonV::Str(model)).put_opt(
        "instructions"@,
        match instructions_of(chat_anthropic::messages_of(body)) {
            Some(t) => Some(JsonV::Str(t)),
            None => None,
        },
    ).put(
        "input"@,
        JsonV::Arr(all_chat_items(chat_anthropic::messages_of(body))),
    ).put_opt("max_output_tokens"@, body.get("max_tokens"@)).put_opt(
        "max_output_tokens"@,
        body.get("max_completion_tokens"@),
    ).put_opt("temperature"@, body.get("temperature"@)).put_opt(
        "stream"@,
        body.get("stream"@),
    ).put_opt("tools"@, body.get("tools"@)).put_opt("tool_choice"@, body.get("tool_choice"@))
}

/// Converts a Chat Completions request to a Responses request.
pub fn openai_to_responses_request(body: &Json, target_model: &str) -> (r: Json)
    ensures
        r@ == chat_as_responses(body@, target_model@),
{
    broadcast use json::group_json;

    let mut input: Vec<Json> = Vec::new();
    let mut instructions: Option<String> = None;
    let ghost all = chat_anthropic::messages_of(body@);
    if let Some(msgs) = body.array_at("messages") {
        let n: usize = msgs.len();
        assert(all.take(0) =~= Seq::<JsonV>::empty());
        for i in 0..n
            invariant
                n == msgs@.len(),
                all == json::views(msgs@),
                json::views(input@) == all_chat_items(all.take(i as int)),
                match instructions {
                    Some(t) => instructions_of(all.take(i as int)) == Some(t@),
                    None => instructions_of(all.take(i as int)) is None,
                },
        {
            proof {
                assert(all.take(i + 1).drop_last() =~= all.take(i as int));
                assert(all.take(i + 1).last() == msgs@[i as int]@);
            }
            let m = &msgs[i];
            let mut more = message_to_chat_items(m, instructions.is_some());
            if instructions.is_none() && m.str_is("role", "system") {
                let t = as_plain_text(m.get("content"), "");
                if !t.as_str().is_empty() {
                    instructions = Some(t);
                }
            }
            input.append(&mut more);
        }
        assert(all.take(n as int) =~= all);
    }
    assert(json::views(input@) =~= all_chat_items(all));
    let mut out = Json::object().put("model", Json::str(target_model));
    if let Some(t) = instructions {
        out = out.put("instructions", Json::str(t.as_str()));
    }
    out.put("input", Json::Arr(input)).put_opt("max_output_tokens", body.get("max_tokens")).put_opt(
        "max_output_tokens",
        body.get("max_completion_tokens"),
    ).put_opt("temperature", body.get("temperature")).put_opt("stream", body.get("stream")).put_opt(
        "tools",
        body.get("tools"),
    ).put_opt("tool_choice", body.get("tool_choice"))
}

} // verus!
