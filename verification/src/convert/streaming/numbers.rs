//! The numbers of the events of a Responses stream.

use vstd::prelude::*;

use super::anthropic_to_responses::AnthropicToResponses;
use super::chat_to_responses::{ChatToResponses, OpenCall};
use super::response_events;
use super::response_events::Events;
use super::sse;
use super::sse::LineReader;
use crate::convert::responses::to_anthropic;
use crate::json::{self, JsonV};

verus! {

/// The number of the event at a place: counted from one, in 64 bits.
pub open spec fn number_at(i: int) -> u64 {
    ((i + 1) % 0x1_0000_0000_0000_0000) as u64
}

/// Whether the event at a place carries its number.
pub open spec fn has_number(out: Seq<Seq<char>>, i: int) -> bool {
    exists|name: Seq<char>, data: JsonV|
        out[i] == sse::event_text(
            name,
            #[trigger] response_events::payload(name, number_at(i), data),
        )
}

/// Whether all events carry their numbers, and the next will.
pub open spec fn numbered(v: Events) -> bool {
    v.sequence == (v.out.len() % 0x1_0000_0000_0000_0000) as u64 && forall|i: int|
        0 <= i < v.out.len() ==> #[trigger] has_number(v.out, i)
}

/// One event more carries the next number.
broadcast proof fn lemma_next(v: Events, name: Seq<char>, data: JsonV)
    requires
        numbered(v),
    ensures
        #[trigger] numbered(v.event(name, data)),
{
    let w = v.event(name, data);
    let n = v.out.len();
    assert(v.sequence.wrapping_add(1) == number_at(n as int)) by {
        if v.sequence == 0xffff_ffff_ffff_ffff {
            assert((n + 1) % 0x1_0000_0000_0000_0000 == 0);
        } else {
            assert((n + 1) % 0x1_0000_0000_0000_0000 == n % 0x1_0000_0000_0000_0000 + 1);
        }
    }
    assert forall|i: int| 0 <= i < w.out.len() implies #[trigger] has_number(w.out, i) by {
        if i < n {
            assert(has_number(v.out, i));
            assert(w.out[i] == v.out[i]);
        } else {
            assert(w.out[i] == sse::event_text(
                name,
                response_events::payload(name, number_at(i), data),
            ));
        }
    }
}

proof fn lemma_push_calls(s: ChatToResponses, tcs: Seq<JsonV>)
    requires
        numbered(s.events),
    ensures
        numbered(s.push_calls(tcs).events),
    decreases tcs.len(),
{
    broadcast use lemma_next;

    if tcs.len() > 0 {
        lemma_push_calls(s, tcs.drop_last());
    }
}

proof fn lemma_close_calls(s: ChatToResponses, calls: Seq<(usize, OpenCall)>)
    requires
        numbered(s.events),
    ensures
        numbered(s.close_calls(calls).events),
    decreases calls.len(),
{
    broadcast use lemma_next;

    if calls.len() > 0 {
        lemma_close_calls(s, calls.drop_last());
    }
}

proof fn lemma_chat_parts(s: ChatToResponses, t: Seq<char>)
    requires
        numbered(s.events),
    ensures
        numbered(s.start().events),
        numbered(s.push_reasoning(t).events),
        numbered(s.close_reasoning().events),
        numbered(s.push_text(t).events),
        numbered(s.close_text().events),
{
    broadcast use lemma_next;

    assert(numbered(s.open_reasoning().events));
    assert(numbered(s.close_reasoning().events));
    assert(numbered(s.open_text().events));
}

proof fn lemma_chat_delta(s: ChatToResponses, delta: JsonV)
    requires
        numbered(s.events),
    ensures
        numbered(s.delta(delta).events),
{
    lemma_chat_parts(s, delta.str_or("reasoning_content"@, ""@));
    let s1 = s.reasoning_under(delta, "reasoning_content"@);
    lemma_chat_parts(s1, delta.str_or("reasoning"@, ""@));
    let s2 = s1.reasoning_under(delta, "reasoning"@);
    let content = delta.str_or("content"@, ""@);
    lemma_chat_parts(s2, content);
    let s3 = if content.len() > 0 {
        s2.push_text(content)
    } else {
        s2
    };
    lemma_chat_parts(s3, content);
    match delta.array_at("tool_calls"@) {
        Some(tcs) => {
            lemma_push_calls(s3.close_reasoning(), tcs);
        },
        None => {},
    }
}

proof fn lemma_chat_chunk(s: ChatToResponses, chunk: JsonV)
    requires
        numbered(s.events),
    ensures
        numbered(s.chunk(chunk).events),
{
    let s1 = s.noted(chunk);
    lemma_chat_parts(s1, ""@);
    let s2 = s1.start().used(chunk);
    match to_anthropic::first_choice(chunk) {
        Some(choice) => match choice.get("delta"@) {
            Some(delta) => {
                lemma_chat_delta(s2, delta);
            },
            None => {},
        },
        None => {},
    }
}

proof fn lemma_chat_finalize(s: ChatToResponses)
    requires
        numbered(s.events),
    ensures
        numbered(s.finalize().events),
{
    broadcast use lemma_next;

    lemma_chat_parts(s, ""@);
    lemma_chat_parts(s.start(), ""@);
    lemma_chat_parts(s.start().close_reasoning(), ""@);
    let c = s.start().close_reasoning().close_text();
    lemma_close_calls(c, c.calls);
}

proof fn lemma_chat_line(s: ChatToResponses, l: Seq<char>)
    requires
        numbered(s.events),
    ensures
        numbered(s.line(l).events),
{
    broadcast use lemma_next;

    lemma_chat_finalize(s);
    match sse::data_of(l) {
        Some(d) => match json::wire::json_of_text(d) {
            Some(chunk) => {
                lemma_chat_chunk(s, chunk);
            },
            None => {},
        },
        None => {},
    }
}

/// The events that a Chat Completions stream becomes are numbered one after the other,
/// from one on, whatever comes in; and so is what its end or its failure adds.
pub proof fn lemma_chat_numbered(model: Seq<char>, lines: Seq<Seq<char>>, message: Seq<char>)
    ensures
        numbered(sse::read_lines(ChatToResponses::new(model), lines).events),
        numbered(sse::read_lines(ChatToResponses::new(model), lines).end().events),
        numbered(sse::read_lines(ChatToResponses::new(model), lines).fail(message).events),
    decreases lines.len(),
{
    broadcast use lemma_next;

    let s = sse::read_lines(ChatToResponses::new(model), lines);
    if lines.len() > 0 {
        lemma_chat_numbered(model, lines.drop_last(), message);
        lemma_chat_line(
            sse::read_lines(ChatToResponses::new(model), lines.drop_last()),
            lines.last(),
        );
    }
    lemma_chat_finalize(s);
}

proof fn lemma_anthropic_parts(s: AnthropicToResponses, t: Seq<char>, u: Seq<char>)
    requires
        numbered(s.events),
    ensures
        numbered(s.start().events),
        numbered(s.start_reasoning().events),
        numbered(s.more_reasoning(t).events),
        numbered(s.start_message().events),
        numbered(s.more_text(t).events),
        numbered(s.open_tool(t, u).events),
        numbered(s.more_args(t).events),
        numbered(s.close_tool().events),
        numbered(s.close_current().events),
{
    broadcast use lemma_next;

}

proof fn lemma_anthropic_block_start(s: AnthropicToResponses, data: JsonV)
    requires
        numbered(s.events),
    ensures
        numbered(s.block_start(data).events),
{
    let block = data.get_or_null("content_block"@);
    let t = block.str_or("id"@, ""@);
    let u = block.str_or("name"@, ""@);
    lemma_anthropic_parts(s, t, u);
    lemma_anthropic_parts(s.close_current(), t, u);
    lemma_anthropic_parts(s.close_current().close_tool(), t, u);
}

proof fn lemma_anthropic_block_delta(s: AnthropicToResponses, data: JsonV)
    requires
        numbered(s.events),
    ensures
        numbered(s.block_delta(data).events),
{
    let delta = data.get_or_null("delta"@);
    let kind = delta.str_or("type"@, ""@);
    let c = s.close_current();
    lemma_anthropic_parts(s, ""@, ""@);
    lemma_anthropic_parts(c, ""@, ""@);
    lemma_anthropic_parts(c.close_tool(), ""@, ""@);
    if kind == "thinking_delta"@ {
        let t = delta.str_or("thinking"@, ""@);
        lemma_anthropic_parts(s, t, ""@);
        lemma_anthropic_parts(c.start_reasoning(), t, ""@);
    } else if kind == "text_delta"@ {
        let t = delta.str_or("text"@, ""@);
        lemma_anthropic_parts(s, t, ""@);
        lemma_anthropic_parts(c.close_tool().start_message(), t, ""@);
    } else if kind == "input_json_delta"@ {
        let t = delta.str_or("partial_json"@, ""@);
        lemma_anthropic_parts(s, t, ""@);
        lemma_anthropic_parts(c, t, ""@);
    }
}

proof fn lemma_anthropic_finalize(s: AnthropicToResponses)
    requires
        numbered(s.events),
    ensures
        numbered(s.finalize().events),
{
    broadcast use lemma_next;

    let s1 = AnthropicToResponses { terminated: true, ..s };
    lemma_anthropic_parts(s1, ""@, ""@);
    lemma_anthropic_parts(s1.close_current(), ""@, ""@);
}

proof fn lemma_anthropic_line(s: AnthropicToResponses, l: Seq<char>)
    requires
        numbered(s.events),
    ensures
        numbered(s.line(l).events),
{
    broadcast use lemma_next;

    lemma_anthropic_finalize(s);
    match sse::data_of(l) {
        Some(d) => match json::wire::json_of_text(d) {
            Some(data) => {
                lemma_anthropic_parts(s, ""@, ""@);
                let s1 = s.start();
                lemma_anthropic_block_start(s1, data);
                lemma_anthropic_block_delta(s1, data);
                lemma_anthropic_parts(s1, ""@, ""@);
                lemma_anthropic_parts(s1.close_current(), ""@, ""@);
            },
            None => {},
        },
        None => {},
    }
}

/// The events that an Anthropic stream becomes are numbered one after the other: where
/// those so far are, so are those after more lines, at whatever time, and after its end or
/// its failure.
pub proof fn lemma_anthropic_numbered(
    s: AnthropicToResponses,
    lines: Seq<Seq<char>>,
    now: u64,
    message: Seq<char>,
)
    requires
        numbered(s.events),
    ensures
        numbered(sse::read_lines(s.at(now), lines).events),
        numbered(sse::read_lines(s.at(now), lines).end().events),
        numbered(sse::read_lines(s.at(now), lines).fail(message).events),
    decreases lines.len(),
{
    broadcast use lemma_next;

    let t = sse::read_lines(s.at(now), lines);
    if lines.len() > 0 {
        lemma_anthropic_numbered(s, lines.drop_last(), now, message);
        lemma_anthropic_line(sse::read_lines(s.at(now), lines.drop_last()), lines.last());
    }
    lemma_anthropic_finalize(t);
}

/// Before a stream starts, no event has a number.
pub proof fn lemma_new_numbered(model: Seq<char>)
    ensures
        numbered(AnthropicToResponses::new(model).events),
        numbered(ChatToResponses::new(model).events),
{
}

} // verus!
