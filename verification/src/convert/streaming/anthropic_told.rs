//! How the Anthropic stream made from another starts, names its tools and ends.

use vstd::prelude::*;

use super::anthropic_events;
use super::anthropic_events::{Block, Message};
use super::chat_to_anthropic;
use super::chat_to_anthropic::ChatToAnthropic;
use super::responses_to_anthropic;
use super::responses_to_anthropic::ResponsesToAnthropic;
use crate::json::{self, JsonV};
use crate::keys;

verus! {

/// Whether an event is written with a name and a value.
pub open spec fn is_event(e: Seq<char>, name: Seq<char>, v: JsonV) -> bool {
    &&& e == "event: "@ + name + "\ndata: "@ + json::wire::json_text(v) + "\n\n"@
    &&& v.str_at("type"@) == Some(name)
}

/// Whether an event starts the message of an answer.
pub open spec fn starts_message(
    e: Seq<char>,
    id: Seq<char>,
    model: Seq<char>,
    input_tokens: u64,
) -> bool {
    exists|v: JsonV|
        {
            let m = v.get_or_null("message"@);
            &&& #[trigger] is_event(e, "message_start"@, v)
            &&& m.str_at("id"@) == Some(id)
            &&& m.str_at("model"@) == Some(model)
            &&& m.str_at("role"@) == Some("assistant"@)
            &&& m.get_or_null("usage"@).u64_at("input_tokens"@) == Some(input_tokens)
        }
}

/// Whether an event starts the block of a tool at an index.
pub open spec fn starts_tool(
    e: Seq<char>,
    index: u32,
    id: Seq<char>,
    name: Seq<char>,
) -> bool {
    exists|v: JsonV|
        {
            let b = v.get_or_null("content_block"@);
            &&& #[trigger] is_event(e, "content_block_start"@, v)
            &&& v.u64_at("index"@) == Some(index as u64)
            &&& b.str_at("type"@) == Some("tool_use"@)
            &&& b.str_at("id"@) == Some(id)
            &&& b.str_at("name"@) == Some(name)
        }
}

/// Whether the last two events of a stream end it, with a reason and the tokens that it used.
pub open spec fn ends_with(out: Seq<Seq<char>>, reason: Seq<char>, output_tokens: u64) -> bool {
    &&& out.len() >= 2
    &&& out.last() == "event: message_stop\ndata: {\"type\":\"message_stop\"}\n\n"@
    &&& exists|v: JsonV|
        {
            &&& #[trigger] is_event(out[out.len() - 2], "message_delta"@, v)
            &&& v.get_or_null("delta"@).str_at("stop_reason"@) == Some(reason)
            &&& v.get_or_null("usage"@).u64_at("output_tokens"@) == Some(output_tokens)
        }
}

proof fn lemma_message_started(m: Message)
    ensures
        starts_message(m.start().out.last(), m.id, m.model, m.input_tokens),
        m.start().out.drop_last() == m.out,
{
    keys::lemma_anthropic_event_keys();
    let v = anthropic_events::message_start_v(m.id, m.model, m.input_tokens);
    assert(m.start().out.drop_last() =~= m.out);
    assert(is_event(m.start().out.last(), "message_start"@, v));
}

proof fn lemma_tool_started(m: Message, place: usize, id: Seq<char>, name: Seq<char>)
    ensures
        starts_tool(
            m.start_tool(place, id, name).out.last(),
            m.start_tool(place, id, name).tool_index(place),
            id,
            name,
        ),
{
    keys::lemma_anthropic_event_keys();
    let t = m.start_tool(place, id, name);
    let c = m.close();
    let b = crate::convert::requests::chat_anthropic::tool_use_v(id, name, json::jobj());
    let v = anthropic_events::block_start_v(c.index, b);
    assert(t.calls.last().place == place && t.calls.last().index == c.index);
    assert(is_event(t.out.last(), "content_block_start"@, v));
    assert(v.get("content_block"@) == Some(b));
}

proof fn lemma_message_ended(m: Message, reason: Seq<char>)
    ensures
        ends_with(m.finish(reason).out, reason, m.output_tokens),
{
    keys::lemma_anthropic_event_keys();
    let v = anthropic_events::message_delta_v(reason, m.output_tokens);
    let out = m.finish(reason).out;
    assert(is_event(out[out.len() - 2], "message_delta"@, v));
}

/// The Anthropic stream made from a chat stream starts under the model of the request, with the
/// tokens of the prompt where the first chunk tells them.
pub proof fn lemma_chat_stream_starts(s: ChatToAnthropic, chunk: JsonV)
    requires
        !s.message.started,
    ensures
        starts_message(
            s.start(chunk).message.out.last(),
            s.message.id,
            s.message.model,
            if chunk.get("usage"@) is Some {
                chunk.get_or_null("usage"@).u64_or("prompt_tokens"@, 0)
            } else {
                s.message.input_tokens
            },
        ),
        s.start(chunk).message.out.drop_last() == s.message.out,
{
    let m = match chunk.get("usage"@) {
        Some(u) => Message {
            input_tokens: u.u64_or("prompt_tokens"@, 0),
            output_tokens: u.u64_or("completion_tokens"@, s.message.output_tokens),
            ..s.message
        },
        None => s.message,
    };
    lemma_message_started(m);
}

/// A call of a chat stream that comes with an id, and that is not the one whose block is open,
/// starts a block with that id and the name of its function.
pub proof fn lemma_chat_tool_starts(s: ChatToAnthropic, tc: JsonV)
    requires
        tc.str_or("id"@, ""@).len() > 0,
        s.message.open != Block::Tool(chat_to_anthropic::call_place(tc)),
    ensures
        ({
            let m = s.open_tool(tc).message;
            starts_tool(
                m.out.last(),
                m.tool_index(chat_to_anthropic::call_place(tc)),
                tc.str_or("id"@, ""@),
                tc.get_or_null("function"@).str_or("name"@, ""@),
            )
        }),
{
    lemma_tool_started(
        s.message,
        chat_to_anthropic::call_place(tc),
        tc.str_or("id"@, ""@),
        tc.get_or_null("function"@).str_or("name"@, ""@),
    );
}

/// When a chat stream finishes, the Anthropic stream made from it ends: for tools where it has
/// called one and finishes for that, for its length where it was cut short, and else because it
/// is complete; with the tokens of the completion where the chunk tells them.
pub proof fn lemma_chat_stream_ends(s: ChatToAnthropic, reason: Seq<char>, chunk: JsonV)
    ensures
        ends_with(
            s.finish(reason, chunk).message.out,
            if reason == "tool_calls"@ && s.called {
                "tool_use"@
            } else if reason == "length"@ {
                "max_tokens"@
            } else {
                "end_turn"@
            },
            chunk.get_or_null("usage"@).u64_or("completion_tokens"@, s.message.output_tokens),
        ),
{
    keys::lemma_anthropic_event_keys();
    let m = s.message.close();
    let stop = if reason == "tool_calls"@ && s.called {
        "tool_use"@
    } else if reason == "length"@ {
        "max_tokens"@
    } else {
        "end_turn"@
    };
    let tokens = chunk.get_or_null("usage"@).u64_or("completion_tokens"@, s.message.output_tokens);
    lemma_message_ended(Message { output_tokens: tokens, ..m }, stop);
}

/// A stream that just ends is complete.
pub proof fn lemma_chat_stream_done(s: ChatToAnthropic)
    requires
        !s.message.finished,
    ensures
        ends_with(s.done().message.out, "end_turn"@, s.message.output_tokens),
{
    lemma_message_ended(s.message.close(), "end_turn"@);
}

/// The Anthropic stream made from a Responses stream starts under the model of the request,
/// with the id and the tokens of the response.
pub proof fn lemma_responses_stream_starts(s: ResponsesToAnthropic, e: JsonV)
    requires
        !s.message.started,
        e.get("response"@) is Some,
    ensures
        ({
            let r = e.get_or_null("response"@);
            starts_message(
                s.start(e).message.out.last(),
                r.str_or("id"@, s.message.id),
                s.message.model,
                if r.get("usage"@) is Some {
                    r.get_or_null("usage"@).u64_or("input_tokens"@, 0)
                } else {
                    s.message.input_tokens
                },
            )
        }),
{
    let r = e.get_or_null("response"@);
    lemma_message_started(
        Message {
            id: r.str_or("id"@, s.message.id),
            input_tokens: if r.get("usage"@) is Some {
                r.get_or_null("usage"@).u64_or("input_tokens"@, 0)
            } else {
                s.message.input_tokens
            },
            ..s.message
        },
    );
}

/// A function call that a Responses stream adds starts a block with the id under which the
/// provider waits for its output, and with its name.
pub proof fn lemma_responses_tool_starts(s: ResponsesToAnthropic, e: JsonV)
    requires
        e.get_or_null("item"@).str_at("type"@) == Some("function_call"@),
    ensures
        ({
            let m = s.item_added(e).message;
            starts_tool(
                m.out.last(),
                m.tool_index(e.u64_or("output_index"@, 0) as usize),
                e.get_or_null("item"@).str_or("call_id"@, ""@),
                e.get_or_null("item"@).str_or("name"@, ""@),
            )
        }),
{
    let item = e.get_or_null("item"@);
    lemma_tool_started(
        s.message,
        responses_to_anthropic::item_place(e),
        item.str_or("call_id"@, ""@),
        item.str_or("name"@, ""@),
    );
}

/// When a response is complete, the Anthropic stream made from it ends with the tokens that it
/// used: for tools where it calls any, for its length where it is incomplete, and else because
/// it is complete.
pub proof fn lemma_responses_stream_ends(s: ResponsesToAnthropic, e: JsonV)
    requires
        !s.message.finished,
    ensures
        ({
            let r = e.get_or_null("response"@);
            let output = r.array_at("output"@);
            let calls = output is Some && exists|i: int|
                0 <= i < output->0.len() && (#[trigger] output->0[i]).str_at("type"@) == Some(
                    "function_call"@,
                );
            ends_with(
                s.completed(e).message.out,
                if calls {
                    "tool_use"@
                } else if r.str_at("status"@) == Some("incomplete"@) {
                    "max_tokens"@
                } else {
                    "end_turn"@
                },
                r.get_or_null("usage"@).u64_or("output_tokens"@, s.message.output_tokens),
            )
        }),
{
    let r = e.get_or_null("response"@);
    let tokens = r.get_or_null("usage"@).u64_or("output_tokens"@, s.message.output_tokens);
    let m = Message { output_tokens: tokens, ..s.message };
    lemma_message_ended(m.close(), responses_to_anthropic::stop_reason_of_event(e));
}

proof fn lemma_tool_calls(s: ChatToAnthropic, tcs: Seq<JsonV>)
    ensures
        s.tool_calls(tcs).called == (s.called || tcs.len() > 0),
        s.tool_calls(tcs).message.finished == s.message.finished,
        s.tool_calls(tcs).message.output_tokens == s.message.output_tokens,
    decreases tcs.len(),
{
    if tcs.len() > 0 {
        lemma_tool_calls(s, tcs.drop_last());
    }
}

/// The first choice of a chunk, null where there is none.
pub open spec fn first_choice(chunk: JsonV) -> JsonV {
    match chunk.array_at("choices"@) {
        Some(choices) => if choices.len() > 0 {
            choices[0]
        } else {
            JsonV::Null
        },
        None => JsonV::Null,
    }
}

/// Whether a chunk calls tools.
pub open spec fn calls_tools(chunk: JsonV) -> bool {
    match first_choice(chunk).get_or_null("delta"@).array_at("tool_calls"@) {
        Some(tcs) => tcs.len() > 0,
        None => false,
    }
}

/// A chunk that tells why the chat finishes ends the Anthropic stream, once: for tools where
/// one was called and the chat finishes for that, for its length where it was cut short, and
/// else because it is complete; with the tokens of the completion that the chunk tells. A chunk
/// that does not tell it ends nothing.
pub proof fn lemma_chat_chunk_ends(s: ChatToAnthropic, chunk: JsonV)
    requires
        !s.message.finished,
    ensures
        ({
            let told = first_choice(chunk).str_at("finish_reason"@);
            let ends = told is Some && told->0.len() > 0 && told->0 != "null"@;
            let t = s.chunk(chunk);
            let tokens = chunk.get_or_null("usage"@).u64_at("completion_tokens"@);
            &&& t.message.finished == ends
            &&& t.called == (s.called || calls_tools(chunk))
            &&& ends && tokens is Some ==> ends_with(
                t.message.out,
                if told->0 == "tool_calls"@ && (s.called || calls_tools(chunk)) {
                    "tool_use"@
                } else if told->0 == "length"@ {
                    "max_tokens"@
                } else {
                    "end_turn"@
                },
                tokens->0,
            )
            &&& ends && chunk.get("usage"@) is None ==> ends_with(
                t.message.out,
                if told->0 == "tool_calls"@ && (s.called || calls_tools(chunk)) {
                    "tool_use"@
                } else if told->0 == "length"@ {
                    "max_tokens"@
                } else {
                    "end_turn"@
                },
                s.message.output_tokens,
            )
        }),
{
    let a = s.start(chunk);
    match crate::convert::responses::to_anthropic::first_choice(chunk) {
        Some(choice) => {
            let delta = choice.get("delta"@);
            let b = a.reasoning(delta).content(delta);
            assert(b.called == s.called);
            assert(b.message.finished == s.message.finished);
            assert(b.message.output_tokens == a.message.output_tokens);
            match json::array_of_v(json::at_v(delta, "tool_calls"@)) {
                Some(tcs) => {
                    lemma_tool_calls(b, tcs);
                },
                None => {},
            }
            let c = b.calls(delta);
            assert(c.called == (s.called || calls_tools(chunk)));
            match choice.str_at("finish_reason"@) {
                Some(r) => {
                    lemma_chat_stream_ends(c, r, chunk);
                },
                None => {},
            }
        },
        None => {},
    }
}

/// The first chunk starts the Anthropic stream: its first event is the start of the message.
pub proof fn lemma_chat_first_chunk(s: ChatToAnthropic, chunk: JsonV)
    requires
        !s.message.started,
        s.message.out.len() == 0,
    ensures
        s.chunk(chunk).message.started,
        s.chunk(chunk).message.out.len() > 0,
        starts_message(
            s.chunk(chunk).message.out[0],
            s.message.id,
            s.message.model,
            if chunk.get("usage"@) is Some {
                chunk.get_or_null("usage"@).u64_or("prompt_tokens"@, 0)
            } else {
                s.message.input_tokens
            },
        ),
{
    lemma_chat_stream_starts(s, chunk);
    let a = s.start(chunk);
    assert(a.message.out.len() == 1);
    assert(a.message.out[0] == a.message.out.last());
    match crate::convert::responses::to_anthropic::first_choice(chunk) {
        Some(choice) => {
            let delta = choice.get("delta"@);
            let b = a.reasoning(delta).content(delta);
            assert(b.message.out.len() > 0 && b.message.out[0] == a.message.out[0]);
            match json::array_of_v(json::at_v(delta, "tool_calls"@)) {
                Some(tcs) => {
                    lemma_tool_calls_first(b, tcs);
                },
                None => {},
            }
        },
        None => {},
    }
}

proof fn lemma_tool_calls_first(s: ChatToAnthropic, tcs: Seq<JsonV>)
    requires
        s.message.out.len() > 0,
    ensures
        s.tool_calls(tcs).message.out.len() > 0,
        s.tool_calls(tcs).message.out[0] == s.message.out[0],
        s.tool_calls(tcs).message.started == s.message.started,
    decreases tcs.len(),
{
    if tcs.len() > 0 {
        lemma_tool_calls_first(s, tcs.drop_last());
    }
}

/// The events of a Responses stream that start the message, add a tool and complete the
/// response do so under their names.
pub proof fn lemma_responses_events(s: ResponsesToAnthropic, e: JsonV)
    ensures
        e.str_at("type"@) == Some("response.created"@) ==> s.event(e) == s.start(e),
        e.str_at("type"@) == Some("response.output_item.added"@) ==> s.event(e) == s.item_added(e),
        e.str_at("type"@) == Some("response.completed"@) ==> s.event(e) == s.completed(e),
{
    keys::lemma_event_names();
}

} // verus!
