//! That what a stream says comes out of the Responses stream made from it whole and in order.

use vstd::prelude::*;

use super::anthropic_to_responses;
use super::anthropic_to_responses::{AnthropicPhase, AnthropicToResponses};
use super::chat_to_responses;
use super::chat_to_responses::{ChatToResponses, OpenCall};
use super::response_events;
use super::response_events::Events;
use super::sse;
use crate::convert::responses::to_responses;
use crate::json::{self, JsonV};
use crate::keys;
use crate::text;

verus! {

/// A piece of what a model says.
pub enum Piece {
    Thinking(Seq<char>),
    Text(Seq<char>),
}

/// Whether events are the texts of values, each under the type that it has.
pub open spec fn written(out: Seq<Seq<char>>, vs: Seq<JsonV>) -> bool {
    out.len() == vs.len() && forall|i: int|
        0 <= i < vs.len() ==> #[trigger] out[i] == "event: "@ + vs[i].str_or("type"@, ""@)
            + "\ndata: "@ + json::wire::json_text(vs[i]) + "\n\n"@
}

/// What a client has heard of the events of a Responses stream.
#[verifier::ext_equal]
pub struct Heard {
    /// Every piece of thinking and of text, in order.
    pub pieces: Seq<Piece>,
    /// The text since the last message was done.
    pub said: Seq<char>,
    /// The thinking since the last reasoning was done.
    pub thought: Seq<char>,
    /// The texts of the messages that are done.
    pub messages: Seq<Seq<char>>,
    /// The function calls that were announced: the id and the name of each.
    pub added: Seq<(Seq<char>, Seq<char>)>,
    /// The pieces of arguments: the id of the item and the piece.
    pub inputs: Seq<(Seq<char>, Seq<char>)>,
    /// The function calls that are done: the id, the name and the arguments of each.
    pub calls: Seq<(Seq<char>, Seq<char>, Seq<char>)>,
    /// The items that are done.
    pub items: Seq<JsonV>,
    /// The response, once it is complete.
    pub end: Option<JsonV>,
    /// Whether every message and reasoning that is done holds what was heard of it, and the
    /// response the items that were done.
    pub right: bool,
}

/// Before the first event.
pub open spec fn silence() -> Heard {
    Heard {
        pieces: Seq::empty(),
        said: Seq::empty(),
        thought: Seq::empty(),
        messages: Seq::empty(),
        added: Seq::empty(),
        inputs: Seq::empty(),
        calls: Seq::empty(),
        items: Seq::empty(),
        end: None,
        right: true,
    }
}

/// The text of the first part in an array.
pub open spec fn first_text(parts: Option<Seq<JsonV>>) -> Seq<char> {
    match parts {
        Some(ps) => if ps.len() > 0 {
            ps[0].str_or("text"@, ""@)
        } else {
            Seq::empty()
        },
        None => Seq::empty(),
    }
}

/// What was heard, with an item that is done.
pub open spec fn hear_item(before: Heard, item: JsonV) -> Heard {
    let h = Heard { items: before.items.push(item), ..before };
    let kind = item.str_or("type"@, ""@);
    if kind == "message"@ {
        let t = first_text(item.array_at("content"@));
        Heard {
            right: h.right && t == h.said,
            said: Seq::empty(),
            messages: h.messages.push(t),
            ..h
        }
    } else if kind == "reasoning"@ {
        Heard {
            right: h.right && first_text(item.array_at("summary"@)) == h.thought,
            thought: Seq::empty(),
            ..h
        }
    } else if kind == "function_call"@ {
        Heard {
            calls: h.calls.push(
                (
                    item.str_or("call_id"@, ""@),
                    item.str_or("name"@, ""@),
                    item.str_or("arguments"@, ""@),
                ),
            ),
            ..h
        }
    } else {
        h
    }
}

/// What was heard, with one event more.
pub open spec fn hear(h: Heard, v: JsonV) -> Heard {
    let kind = v.str_or("type"@, ""@);
    let delta = v.str_or("delta"@, ""@);
    if kind == "response.output_text.delta"@ {
        Heard { pieces: h.pieces.push(Piece::Text(delta)), said: h.said + delta, ..h }
    } else if kind == "response.reasoning_summary_text.delta"@ {
        Heard { pieces: h.pieces.push(Piece::Thinking(delta)), thought: h.thought + delta, ..h }
    } else if kind == "response.output_text.done"@ {
        Heard { right: h.right && v.str_or("text"@, ""@) == h.said, ..h }
    } else if kind == "response.reasoning_summary_text.done"@ {
        Heard { right: h.right && v.str_or("text"@, ""@) == h.thought, ..h }
    } else if kind == "response.output_item.done"@ {
        hear_item(h, v.get_or_null("item"@))
    } else if kind == "response.completed"@ {
        let response = v.get_or_null("response"@);
        Heard {
            right: h.right && response.array_at("output"@) == Some(h.items),
            end: Some(response),
            ..h
        }
    } else if kind == "response.output_item.added"@ {
        let item = v.get_or_null("item"@);
        if item.str_or("type"@, ""@) == "function_call"@ {
            Heard {
                added: h.added.push((item.str_or("call_id"@, ""@), item.str_or("name"@, ""@))),
                ..h
            }
        } else {
            h
        }
    } else if kind == "response.function_call_arguments.delta"@ {
        Heard { inputs: h.inputs.push((v.str_or("item_id"@, ""@), delta)), ..h }
    } else {
        h
    }
}

/// What a client hears of events.
pub open spec fn heard(vs: Seq<JsonV>) -> Heard
    decreases vs.len(),
{
    if vs.len() == 0 {
        silence()
    } else {
        hear(heard(vs.drop_last()), vs.last())
    }
}

/// Whether events, as they are written, let a client hear this.
pub open spec fn says(out: Seq<Seq<char>>, h: Heard) -> bool {
    exists|vs: Seq<JsonV>| #[trigger] written(out, vs) && heard(vs) == h
}

proof fn lemma_says_nothing()
    ensures
        says(Seq::empty(), silence()),
{
    let vs = Seq::<JsonV>::empty();
    assert(written(Seq::empty(), vs));
}

proof fn lemma_event(v: Events, name: Seq<char>, data: JsonV, h: Heard)
    requires
        says(v.out, h),
    ensures
        says(
            v.event(name, data).out,
            hear(h, response_events::payload(name, v.sequence.wrapping_add(1), data)),
        ),
{
    let vs = choose|vs: Seq<JsonV>| #[trigger] written(v.out, vs) && heard(vs) == h;
    let p = response_events::payload(name, v.sequence.wrapping_add(1), data);
    response_events::lemma_payload(name, v.sequence.wrapping_add(1), data);
    let ws = vs.push(p);
    let out = v.event(name, data).out;
    assert(ws.drop_last() =~= vs);
    assert forall|i: int| 0 <= i < ws.len() implies #[trigger] out[i] == "event: "@
        + ws[i].str_or("type"@, ""@) + "\ndata: "@ + json::wire::json_text(ws[i])
        + "\n\n"@ by {
        if i < vs.len() {
            assert(out[i] == v.out[i]);
        }
    }
    assert(written(out, ws));
}

/// An event of another name than those that are heard.
proof fn lemma_other(v: Events, name: Seq<char>, data: JsonV, h: Heard)
    requires
        says(v.out, h),
        name != "response.output_text.delta"@,
        name != "response.reasoning_summary_text.delta"@,
        name != "response.output_text.done"@,
        name != "response.reasoning_summary_text.done"@,
        name != "response.output_item.done"@,
        name != "response.output_item.added"@,
        name != "response.function_call_arguments.delta"@,
        name != "response.completed"@,
    ensures
        says(v.event(name, data).out, h),
{
    lemma_event(v, name, data, h);
    response_events::lemma_payload(name, v.sequence.wrapping_add(1), data);
}

/// What was heard, with the end of the response.
proof fn lemma_completed(v: Events, response: JsonV, h: Heard)
    requires
        says(v.out, h),
        response.array_at("output"@) == Some(h.items),
    ensures
        says(
            v.event("response.completed"@, response).out,
            (Heard { end: Some(response), ..h }),
        ),
{
    keys::lemma_event_names();
    keys::lemma_event_keys();
    let name = "response.completed"@;
    lemma_event(v, name, response, h);
    let p = response_events::payload(name, v.sequence.wrapping_add(1), response);
    response_events::lemma_payload(name, v.sequence.wrapping_add(1), response);
    assert(p.get("response"@) == Some(response));
    assert(hear(h, p) =~= (Heard { end: Some(response), ..h }));
}

proof fn lemma_started(v: Events, id: Seq<char>, created: u64, model: Seq<char>, h: Heard)
    requires
        says(v.out, h),
    ensures
        says(v.started(id, created, model).out, h),
{
    keys::lemma_event_names();
    let r = response_events::open_response_v(id, created, model);
    lemma_other(v, "response.created"@, r, h);
    lemma_other(v.event("response.created"@, r), "response.in_progress"@, r, h);
}

/// The announcement of an item that is no function call.
proof fn lemma_item_added(v: Events, index: u32, item: JsonV, h: Heard)
    requires
        says(v.out, h),
        item.str_at("type"@) == Some("reasoning"@) || item.str_at("type"@) == Some("message"@),
    ensures
        says(
            v.event("response.output_item.added"@, response_events::with_item(Some(index), item)).out,
            h,
        ),
{
    keys::lemma_event_names();
    keys::lemma_event_keys();
    let name = "response.output_item.added"@;
    let d = response_events::with_item(Some(index), item);
    lemma_event(v, name, d, h);
    let p = response_events::payload(name, v.sequence.wrapping_add(1), d);
    response_events::lemma_payload(name, v.sequence.wrapping_add(1), d);
    assert(p.get("item"@) == Some(item));
}

/// What was heard, with a call that is announced.
spec fn call_new(h: Heard, call_id: Seq<char>, name: Seq<char>) -> Heard {
    Heard { added: h.added.push((call_id, name)), ..h }
}

/// What was heard, with more arguments for an item.
spec fn input_more(h: Heard, id: Seq<char>, t: Seq<char>) -> Heard {
    Heard { inputs: h.inputs.push((id, t)), ..h }
}

proof fn lemma_call_added(
    v: Events,
    id: Seq<char>,
    index: u32,
    call_id: Seq<char>,
    name: Seq<char>,
    h: Heard,
)
    requires
        says(v.out, h),
    ensures
        says(v.call_added(id, index, call_id, name).out, call_new(h, call_id, name)),
{
    keys::lemma_event_names();
    keys::lemma_event_keys();
    let e = "response.output_item.added"@;
    let item = response_events::call_item_v(id, call_id, name, ""@, "in_progress"@);
    let d = response_events::with_item(Some(index), item);
    lemma_event(v, e, d, h);
    let p = response_events::payload(e, v.sequence.wrapping_add(1), d);
    response_events::lemma_payload(e, v.sequence.wrapping_add(1), d);
    assert(p.get("item"@) == Some(item));
    assert(item.str_at("type"@) == Some("function_call"@));
}

proof fn lemma_call_delta(v: Events, id: Seq<char>, index: u32, t: Seq<char>, h: Heard)
    requires
        says(v.out, h),
    ensures
        says(v.call_delta(id, index, t).out, input_more(h, id, t)),
{
    keys::lemma_event_names();
    keys::lemma_event_keys();
    let name = "response.function_call_arguments.delta"@;
    let d = response_events::about_item(id, Some(index)).put("delta"@, JsonV::Str(t));
    lemma_event(v, name, d, h);
    let p = response_events::payload(name, v.sequence.wrapping_add(1), d);
    response_events::lemma_payload(name, v.sequence.wrapping_add(1), d);
    assert(p.get("delta"@) == Some(JsonV::Str(t)));
    assert(p.get("item_id"@) == Some(JsonV::Str(id)));
}

proof fn lemma_reasoning_added(v: Events, id: Seq<char>, index: u32, h: Heard)
    requires
        says(v.out, h),
    ensures
        says(v.reasoning_added(id, index).out, h),
{
    keys::lemma_event_names();
    keys::lemma_event_keys();
    let d = response_events::with_item(Some(index), response_events::open_reasoning_v(id));
    lemma_item_added(v, index, response_events::open_reasoning_v(id), h);
    lemma_other(
        v.event("response.output_item.added"@, d),
        "response.reasoning_summary_part.added"@,
        response_events::about_summary(id, index).put(
            "part"@,
            crate::convert::parts::text_block_v("summary_text"@, ""@),
        ),
        h,
    );
}

proof fn lemma_message_added(v: Events, id: Seq<char>, index: u32, h: Heard)
    requires
        says(v.out, h),
    ensures
        says(v.message_added(id, index).out, h),
{
    keys::lemma_event_names();
    keys::lemma_event_keys();
    let d = response_events::with_item(Some(index), response_events::open_message_v(id));
    lemma_item_added(v, index, response_events::open_message_v(id), h);
    lemma_other(
        v.event("response.output_item.added"@, d),
        "response.content_part.added"@,
        response_events::about_content(id, index).put("part"@, to_responses::output_text_v(""@)),
        h,
    );
}

/// What was heard, with more thinking.
spec fn thinking_more(h: Heard, t: Seq<char>) -> Heard {
    Heard { pieces: h.pieces.push(Piece::Thinking(t)), thought: h.thought + t, ..h }
}

/// What was heard, with more text.
spec fn text_more(h: Heard, t: Seq<char>) -> Heard {
    Heard { pieces: h.pieces.push(Piece::Text(t)), said: h.said + t, ..h }
}

proof fn lemma_reasoning_delta(v: Events, id: Seq<char>, index: u32, t: Seq<char>, h: Heard)
    requires
        says(v.out, h),
    ensures
        says(v.reasoning_delta(id, index, t).out, thinking_more(h, t)),
{
    keys::lemma_event_names();
    keys::lemma_event_keys();
    let name = "response.reasoning_summary_text.delta"@;
    let d = response_events::about_summary(id, index).put("delta"@, JsonV::Str(t));
    lemma_event(v, name, d, h);
    let p = response_events::payload(name, v.sequence.wrapping_add(1), d);
    response_events::lemma_payload(name, v.sequence.wrapping_add(1), d);
    assert(p.get("delta"@) == Some(JsonV::Str(t)));
}

proof fn lemma_message_delta(v: Events, id: Seq<char>, index: u32, t: Seq<char>, h: Heard)
    requires
        says(v.out, h),
    ensures
        says(v.message_delta(id, index, t).out, text_more(h, t)),
{
    keys::lemma_event_names();
    keys::lemma_event_keys();
    let name = "response.output_text.delta"@;
    let d = response_events::about_content(id, index).put("delta"@, JsonV::Str(t));
    lemma_event(v, name, d, h);
    let p = response_events::payload(name, v.sequence.wrapping_add(1), d);
    response_events::lemma_payload(name, v.sequence.wrapping_add(1), d);
    assert(p.get("delta"@) == Some(JsonV::Str(t)));
}

proof fn lemma_item_done(v: Events, index: Option<u32>, item: JsonV, h: Heard)
    requires
        says(v.out, h),
    ensures
        says(
            v.event("response.output_item.done"@, response_events::with_item(index, item)).out,
            hear_item(h, item),
        ),
{
    keys::lemma_event_names();
    keys::lemma_event_keys();
    let name = "response.output_item.done"@;
    let d = response_events::with_item(index, item);
    lemma_event(v, name, d, h);
    let p = response_events::payload(name, v.sequence.wrapping_add(1), d);
    response_events::lemma_payload(name, v.sequence.wrapping_add(1), d);
    assert(p.get("item"@) == Some(item));
}

proof fn lemma_text_done(v: Events, name: Seq<char>, d: JsonV, t: Seq<char>, h: Heard)
    requires
        says(v.out, h),
        d is Obj,
        name == "response.output_text.done"@ && t == h.said || name
            == "response.reasoning_summary_text.done"@ && t == h.thought,
    ensures
        says(v.event(name, d.put("text"@, JsonV::Str(t))).out, h),
{
    keys::lemma_event_names();
    keys::lemma_event_keys();
    let e = d.put("text"@, JsonV::Str(t));
    lemma_event(v, name, e, h);
    let p = response_events::payload(name, v.sequence.wrapping_add(1), e);
    response_events::lemma_payload(name, v.sequence.wrapping_add(1), e);
    assert(p.get("text"@) == Some(JsonV::Str(t)));
    assert(hear(h, p) =~= h);
}

/// What was heard, with reasoning that is done.
spec fn reasoning_over(h: Heard, item: JsonV) -> Heard {
    Heard { thought: Seq::empty(), items: h.items.push(item), ..h }
}

/// What was heard, with a message that is done.
spec fn message_over(h: Heard, id: Seq<char>) -> Heard {
    Heard {
        said: Seq::empty(),
        messages: h.messages.push(h.said),
        items: h.items.push(to_responses::message_item_v(id, h.said)),
        ..h
    }
}

proof fn lemma_reasoning_done(v: Events, id: Seq<char>, index: u32, item: JsonV, h: Heard)
    requires
        says(v.out, h),
        item.str_at("type"@) == Some("reasoning"@),
        first_text(item.array_at("summary"@)) == h.thought,
    ensures
        says(v.reasoning_done(id, index, h.thought, item).out, reasoning_over(h, item)),
{
    keys::lemma_event_names();
    keys::lemma_event_keys();
    let t = h.thought;
    let about = response_events::about_summary(id, index);
    lemma_text_done(v, "response.reasoning_summary_text.done"@, about, t, h);
    let v1 = v.event("response.reasoning_summary_text.done"@, about.put("text"@, JsonV::Str(t)));
    let part = about.put("part"@, crate::convert::parts::text_block_v("summary_text"@, t));
    lemma_other(v1, "response.reasoning_summary_part.done"@, part, h);
    lemma_item_done(v1.event("response.reasoning_summary_part.done"@, part), Some(index), item, h);
    assert(hear_item(h, item) =~= reasoning_over(h, item));
}

proof fn lemma_message_done(v: Events, id: Seq<char>, index: u32, h: Heard)
    requires
        says(v.out, h),
    ensures
        says(v.message_done(id, index, h.said).out, message_over(h, id)),
{
    keys::lemma_event_names();
    keys::lemma_event_keys();
    let t = h.said;
    let about = response_events::about_content(id, index);
    lemma_text_done(v, "response.output_text.done"@, about, t, h);
    let v1 = v.event("response.output_text.done"@, about.put("text"@, JsonV::Str(t)));
    let part = about.put("part"@, to_responses::output_text_v(t));
    lemma_other(v1, "response.content_part.done"@, part, h);
    let item = to_responses::message_item_v(id, t);
    lemma_item_done(v1.event("response.content_part.done"@, part), Some(index), item, h);
    assert(hear_item(h, item) =~= message_over(h, id));
}

/// What was heard, with a call that is done.
spec fn call_over(
    h: Heard,
    id: Seq<char>,
    call_id: Seq<char>,
    name: Seq<char>,
    arguments: Seq<char>,
) -> Heard {
    Heard {
        calls: h.calls.push((call_id, name, arguments)),
        items: h.items.push(
            response_events::call_item_v(id, call_id, name, arguments, "completed"@),
        ),
        ..h
    }
}

proof fn lemma_call_done(
    v: Events,
    id: Seq<char>,
    index: Option<u32>,
    call_id: Seq<char>,
    name: Seq<char>,
    arguments: Seq<char>,
    h: Heard,
)
    requires
        says(v.out, h),
    ensures
        says(
            v.call_done(id, index, call_id, name, arguments).out,
            call_over(h, id, call_id, name, arguments),
        ),
{
    keys::lemma_event_names();
    keys::lemma_event_keys();
    let d = response_events::about_item(id, index).put("arguments"@, JsonV::Str(arguments));
    lemma_other(v, "response.function_call_arguments.done"@, d, h);
    let item = response_events::call_item_v(id, call_id, name, arguments, "completed"@);
    lemma_item_done(v.event("response.function_call_arguments.done"@, d), index, item, h);
    assert(hear_item(h, item) =~= call_over(h, id, call_id, name, arguments));
}

/// A text that is told, where it is not empty.
pub open spec fn text_piece(t: Option<Seq<char>>) -> Seq<Piece> {
    match t {
        Some(t) => if t.len() > 0 {
            seq![Piece::Text(t)]
        } else {
            Seq::empty()
        },
        None => Seq::empty(),
    }
}

/// Thinking that is told, where it is not empty.
pub open spec fn thinking_piece(t: Option<Seq<char>>) -> Seq<Piece> {
    match t {
        Some(t) => if t.len() > 0 {
            seq![Piece::Thinking(t)]
        } else {
            Seq::empty()
        },
        None => Seq::empty(),
    }
}

/// The delta of the first choice of a chunk, null where there is none.
pub open spec fn chunk_delta(chunk: JsonV) -> JsonV {
    match chunk.array_at("choices"@) {
        Some(choices) => if choices.len() > 0 {
            choices[0].get_or_null("delta"@)
        } else {
            JsonV::Null
        },
        None => JsonV::Null,
    }
}

/// What a chunk of a chat stream says: reasoning under either of its keys, then text.
pub open spec fn chunk_pieces(chunk: JsonV) -> Seq<Piece> {
    let delta = chunk_delta(chunk);
    thinking_piece(delta.str_at("reasoning_content"@)) + thinking_piece(delta.str_at("reasoning"@))
        + text_piece(delta.str_at("content"@))
}

/// The JSON that a line of a stream carries.
pub open spec fn line_json(l: Seq<char>) -> Option<JsonV> {
    match sse::data_of(l) {
        Some(d) => if d == "[DONE]"@ {
            None
        } else {
            json::wire::json_of_text(d)
        },
        None => None,
    }
}

/// The values that a stream carries before an error.
pub open spec fn values_of(lines: Seq<Seq<char>>) -> Seq<JsonV>
    decreases lines.len(),
{
    if lines.len() == 0 {
        Seq::empty()
    } else {
        let before = values_of(lines.drop_last());
        match line_json(lines.last()) {
            Some(v) => if tells_error(lines.drop_last()) || v.get("error"@) is Some {
                before
            } else {
                before.push(v)
            },
            None => before,
        }
    }
}

/// Whether a stream has told of an error.
pub open spec fn tells_error(lines: Seq<Seq<char>>) -> bool {
    exists|i: int|
        0 <= i < lines.len() && (line_json(#[trigger] lines[i]) matches Some(v) && v.get(
            "error"@,
        ) is Some)
}

/// What chunks of a chat stream say.
pub open spec fn pieces_of_chat(chunks: Seq<JsonV>) -> Seq<Piece>
    decreases chunks.len(),
{
    if chunks.len() == 0 {
        Seq::empty()
    } else {
        pieces_of_chat(chunks.drop_last()) + chunk_pieces(chunks.last())
    }
}

/// Whether a conversion has let hear this, with the text and the thinking that are open.
spec fn chat_fits(s: ChatToResponses, h: Heard) -> bool {
    &&& says(s.events.out, h)
    &&& h.right
    &&& h.items == s.items
    &&& match s.text {
        Some(item) => item.text == h.said,
        None => h.said.len() == 0,
    }
    &&& match s.reasoning {
        Some(item) => item.text == h.thought,
        None => h.thought.len() == 0,
    }
}

proof fn lemma_chat_start(s: ChatToResponses, h: Heard)
    requires
        chat_fits(s, h),
    ensures
        chat_fits(s.start(), h),
{
    lemma_started(s.events, s.id, s.created, s.model, h);
}

proof fn lemma_chat_close_reasoning(s: ChatToResponses, h: Heard) -> (r: Heard)
    requires
        chat_fits(s, h),
    ensures
        chat_fits(s.close_reasoning(), r),
        r.pieces == h.pieces,
        r.calls == h.calls,
        r.messages == h.messages,
        r.said == h.said,
        r.added == h.added,
        r.inputs == h.inputs,
{
    keys::lemma_event_keys();
    match s.reasoning {
        Some(item) => {
            let done = chat_to_responses::reasoning_item_v(item.id, item.text);
            lemma_reasoning_done(s.events, item.id, item.index, done, h);
            reasoning_over(h, done)
        },
        None => h,
    }
}

proof fn lemma_chat_think(s: ChatToResponses, t: Seq<char>, h: Heard) -> (r: Heard)
    requires
        chat_fits(s, h),
    ensures
        chat_fits(s.push_reasoning(t), r),
        r == thinking_more(h, t),
{
    let o = s.open_reasoning();
    match s.reasoning {
        Some(_) => {},
        None => {
            lemma_reasoning_added(s.events, "rs_"@ + s.id, s.next_index, h);
            assert(h.thought =~= Seq::empty());
        },
    }
    let item = o.reasoning->0;
    lemma_reasoning_delta(o.events, item.id, item.index, t, h);
    thinking_more(h, t)
}

proof fn lemma_chat_say(s: ChatToResponses, t: Seq<char>, h: Heard) -> (r: Heard)
    requires
        chat_fits(s, h),
    ensures
        chat_fits(s.push_text(t), r),
        r.pieces == h.pieces.push(Piece::Text(t)),
        r.calls == h.calls,
        r.messages == h.messages,
        r.said == h.said + t,
        r.added == h.added,
        r.inputs == h.inputs,
{
    let o = s.open_text();
    let g = match s.text {
        Some(_) => h,
        None => {
            let g = lemma_chat_close_reasoning(s, h);
            let c = s.close_reasoning();
            lemma_message_added(c.events, c.id + "_msg"@, c.next_index, g);
            assert(g.said =~= Seq::empty());
            g
        },
    };
    let item = o.text->0;
    lemma_message_delta(o.events, item.id, item.index, t, g);
    text_more(g, t)
}

/// What was heard up to the calls that are announced and their arguments.
spec fn same_texts(a: Heard, b: Heard) -> bool {
    &&& a.pieces == b.pieces
    &&& a.said == b.said
    &&& a.thought == b.thought
    &&& a.messages == b.messages
    &&& a.calls == b.calls
    &&& a.items == b.items
    &&& a.right == b.right
}

/// A call of a chat stream is announced once, with its id and its name, where it has one of
/// them; from then on every piece of its arguments comes at once, and before it the pieces come
/// together with the announcement.
pub proof fn lemma_chat_call_announced(s: ChatToResponses, tc: JsonV, h: Heard) -> (r: Heard)
    requires
        says(s.events.out, h),
    ensures
        ({
            let k = tc.u64_or("index"@, 0) as usize;
            let before = chat_to_responses::call_at(s.calls, k);
            let t = tc.get_or_null("function"@).str_or("arguments"@, ""@);
            let c = s.updated_call(tc);
            let known = c.call_id.len() > 0 || c.name.len() > 0;
            &&& says(s.push_call(tc).events.out, r)
            &&& c.arguments == before.arguments + t
            &&& before.added && before.index is Some ==> r.added == h.added && r.inputs == (
            if t.len() > 0 {
                h.inputs.push((before.item_id, t))
            } else {
                h.inputs
            })
            &&& !before.added && known ==> {
                &&& r.added.len() == h.added.len() + 1
                &&& r.added.drop_last() == h.added
                &&& c.call_id.len() > 0 ==> r.added.last().0 == c.call_id
                &&& c.name.len() > 0 ==> r.added.last().1 == c.name
                &&& r.inputs == (if c.arguments.len() > 0 {
                    h.inputs.push(("fc_"@ + r.added.last().0, c.arguments))
                } else {
                    h.inputs
                })
            }
            &&& !before.added && !known ==> r == h
            &&& r.pieces == h.pieces
            &&& r.said == h.said
            &&& r.thought == h.thought
            &&& r.messages == h.messages
            &&& r.calls == h.calls
            &&& r.items == h.items
            &&& r.right == h.right
            &&& s.push_call(tc).items == s.items
        }),
{
    let k = tc.u64_or("index"@, 0) as usize;
    let c = s.updated_call(tc);
    let t = tc.get_or_null("function"@).str_or("arguments"@, ""@);
    if !c.added && (c.call_id.len() > 0 || c.name.len() > 0) {
        let call_id = if c.call_id.len() == 0 {
            "call_"@ + text::decimal(k as nat)
        } else {
            c.call_id
        };
        let name = if c.name.len() == 0 {
            "unknown_tool"@
        } else {
            c.name
        };
        let i = s.next_index;
        lemma_call_added(s.events, "fc_"@ + call_id, i, call_id, name, h);
        let g = call_new(h, call_id, name);
        assert(g.added.drop_last() =~= h.added);
        if c.arguments.len() > 0 {
            lemma_call_delta(
                s.events.call_added("fc_"@ + call_id, i, call_id, name),
                "fc_"@ + call_id,
                i,
                c.arguments,
                g,
            );
            input_more(g, "fc_"@ + call_id, c.arguments)
        } else {
            g
        }
    } else {
        match c.index {
            Some(i) => if c.added && t.len() > 0 {
                lemma_call_delta(s.events, c.item_id, i, t, h);
                input_more(h, c.item_id, t)
            } else {
                h
            },
            None => h,
        }
    }
}

proof fn lemma_chat_calls(s: ChatToResponses, tcs: Seq<JsonV>, h: Heard) -> (r: Heard)
    requires
        chat_fits(s, h),
    ensures
        chat_fits(s.push_calls(tcs), r),
        same_texts(r, h),
    decreases tcs.len(),
{
    if tcs.len() == 0 {
        h
    } else {
        let g = lemma_chat_calls(s, tcs.drop_last(), h);
        lemma_chat_call_announced(s.push_calls(tcs.drop_last()), tcs.last(), g)
    }
}

proof fn lemma_chat_close_text(s: ChatToResponses, h: Heard) -> (r: Heard)
    requires
        chat_fits(s, h),
    ensures
        chat_fits(s.close_text(), r),
        r.pieces == h.pieces,
        r.calls == h.calls,
        r.messages == (if s.text is Some {
            h.messages.push(h.said)
        } else {
            h.messages
        }),
{
    match s.text {
        Some(item) => {
            lemma_message_done(s.events, item.id, item.index, h);
            message_over(h, item.id)
        },
        None => h,
    }
}

/// The call that is told when an open call is closed.
spec fn done_call(c: OpenCall) -> (Seq<char>, Seq<char>, Seq<char>) {
    (c.call_id, c.name, c.arguments)
}

proof fn lemma_chat_close_calls(
    s: ChatToResponses,
    calls: Seq<(usize, OpenCall)>,
    h: Heard,
) -> (r: Heard)
    requires
        chat_fits(s, h),
    ensures
        chat_fits(s.close_calls(calls), r),
        r.pieces == h.pieces,
        r.messages == h.messages,
        r.calls == h.calls + Seq::new(calls.len(), |i: int| done_call(calls[i].1)),
    decreases calls.len(),
{
    if calls.len() == 0 {
        assert(h.calls + Seq::new(calls.len(), |i: int| done_call(calls[i].1)) =~= h.calls);
        h
    } else {
        let first = calls.drop_last();
        let g = lemma_chat_close_calls(s, first, h);
        let t = s.close_calls(first);
        let c = calls.last().1;
        lemma_call_done(t.events, c.item_id, c.index, c.call_id, c.name, c.arguments, g);
        let r = call_over(g, c.item_id, c.call_id, c.name, c.arguments);
        assert(r.calls =~= h.calls + Seq::new(calls.len(), |i: int| done_call(calls[i].1)));
        r
    }
}

proof fn lemma_chat_closed(s: ChatToResponses, h: Heard) -> (r: Heard)
    requires
        chat_fits(s, h),
    ensures
        chat_fits(s.closed(), r),
        r.pieces == h.pieces,
        r.messages == (if s.text is Some {
            h.messages.push(h.said)
        } else {
            h.messages
        }),
        r.calls == h.calls + Seq::new(s.calls.len(), |i: int| done_call(s.calls[i].1)),
{
    lemma_chat_start(s, h);
    let a = lemma_chat_close_reasoning(s.start(), h);
    let b = lemma_chat_close_text(s.start().close_reasoning(), a);
    let t = s.start().close_reasoning().close_text();
    assert(t.calls == s.calls);
    lemma_chat_close_calls(t, t.calls, b)
}

proof fn lemma_chat_finalize(s: ChatToResponses, h: Heard) -> (r: Heard)
    requires
        chat_fits(s, h),
        !s.completed,
    ensures
        chat_fits(s.finalize(), r),
        r.pieces == h.pieces,
        r.messages == (if s.text is Some {
            h.messages.push(h.said)
        } else {
            h.messages
        }),
        r.calls == h.calls + Seq::new(s.calls.len(), |i: int| done_call(s.calls[i].1)),
        r.end == Some(s.closed().response()),
{
    keys::lemma_event_names();
    keys::lemma_whole_response_keys();
    let r = lemma_chat_closed(s, h);
    let t = s.closed();
    lemma_completed(t.events, t.response(), r);
    Heard { end: Some(t.response()), ..r }
}

proof fn lemma_chat_delta(s: ChatToResponses, delta: JsonV, h: Heard) -> (r: Heard)
    requires
        chat_fits(s, h),
    ensures
        chat_fits(s.delta(delta), r),
        r.pieces == h.pieces + (thinking_piece(delta.str_at("reasoning_content"@))
            + thinking_piece(delta.str_at("reasoning"@)) + text_piece(delta.str_at("content"@))),
        r.messages == h.messages,
        r.calls == h.calls,
        r.said == h.said + delta.str_or("content"@, ""@),
{
    reveal_strlit("");
    let a = delta.str_or("reasoning_content"@, ""@);
    let b = delta.str_or("reasoning"@, ""@);
    let c = delta.str_or("content"@, ""@);
    let pa = thinking_piece(delta.str_at("reasoning_content"@));
    let pb = thinking_piece(delta.str_at("reasoning"@));
    let pc = text_piece(delta.str_at("content"@));
    let s1 = s.reasoning_under(delta, "reasoning_content"@);
    let h1 = if a.len() > 0 {
        lemma_chat_think(s, a, h)
    } else {
        h
    };
    assert(h1.pieces =~= h.pieces + pa);
    let s2 = s1.reasoning_under(delta, "reasoning"@);
    let h2 = if b.len() > 0 {
        lemma_chat_think(s1, b, h1)
    } else {
        h1
    };
    assert(h2.pieces =~= h.pieces + (pa + pb));
    let s3 = if c.len() > 0 {
        s2.push_text(c)
    } else {
        s2
    };
    let h3 = if c.len() > 0 {
        lemma_chat_say(s2, c, h2)
    } else {
        assert(h2.said + c =~= h2.said);
        h2
    };
    assert(h3.pieces =~= h.pieces + (pa + pb + pc));
    match delta.array_at("tool_calls"@) {
        Some(tcs) => {
            let h4 = lemma_chat_close_reasoning(s3, h3);
            lemma_chat_calls(s3.close_reasoning(), tcs, h4)
        },
        None => h3,
    }
}

/// The text of the chunks of a chat stream, all of it.
pub open spec fn text_of_chat(chunks: Seq<JsonV>) -> Seq<char>
    decreases chunks.len(),
{
    if chunks.len() == 0 {
        Seq::empty()
    } else {
        text_of_chat(chunks.drop_last()) + chunk_delta(chunks.last()).str_or("content"@, ""@)
    }
}

proof fn lemma_chat_chunk(s: ChatToResponses, chunk: JsonV, h: Heard) -> (r: Heard)
    requires
        chat_fits(s, h),
    ensures
        chat_fits(s.chunk(chunk), r),
        r.pieces == h.pieces + chunk_pieces(chunk),
        r.messages == h.messages,
        r.calls == h.calls,
        r.said == h.said + chunk_delta(chunk).str_or("content"@, ""@),
        s.chunk(chunk).completed == s.completed,
        s.chunk(chunk).failed == s.failed,
{
    reveal_strlit("");
    lemma_chat_start(s.noted(chunk), h);
    let t = s.noted(chunk).start().used(chunk);
    assert(chat_fits(t, h));
    assert(h.said + Seq::<char>::empty() =~= h.said);
    assert(""@ =~= Seq::<char>::empty());
    match crate::convert::responses::to_anthropic::first_choice(chunk) {
        Some(choice) => match choice.get("delta"@) {
            Some(delta) => {
                lemma_flags(t, delta);
                lemma_chat_delta(t, delta, h)
            },
            None => {
                assert(h.pieces + chunk_pieces(chunk) =~= h.pieces);
                h
            },
        },
        None => {
            assert(h.pieces + chunk_pieces(chunk) =~= h.pieces);
            h
        },
    }
}

proof fn lemma_calls_flags(s: ChatToResponses, tcs: Seq<JsonV>)
    ensures
        s.push_calls(tcs).completed == s.completed,
        s.push_calls(tcs).failed == s.failed,
        s.push_calls(tcs).text == s.text,
    decreases tcs.len(),
{
    if tcs.len() > 0 {
        lemma_calls_flags(s, tcs.drop_last());
    }
}

proof fn lemma_flags(s: ChatToResponses, delta: JsonV)
    ensures
        s.delta(delta).completed == s.completed,
        s.delta(delta).failed == s.failed,
{
    let a = s.reasoning_under(delta, "reasoning_content"@).reasoning_under(delta, "reasoning"@);
    let content = delta.str_or("content"@, ""@);
    let b = if content.len() > 0 {
        a.push_text(content)
    } else {
        a
    };
    match delta.array_at("tool_calls"@) {
        Some(tcs) => {
            lemma_calls_flags(b.close_reasoning(), tcs);
        },
        None => {},
    }
}

proof fn lemma_close_calls_flags(s: ChatToResponses, calls: Seq<(usize, OpenCall)>)
    ensures
        s.close_calls(calls).failed == s.failed,
    decreases calls.len(),
{
    if calls.len() > 0 {
        lemma_close_calls_flags(s, calls.drop_last());
    }
}

proof fn lemma_error_more(lines: Seq<Seq<char>>)
    requires
        lines.len() > 0,
    ensures
        tells_error(lines) == (tells_error(lines.drop_last()) || (line_json(lines.last()) matches Some(
            v,
        ) && v.get("error"@) is Some)),
{
    let first = lines.drop_last();
    if tells_error(first) {
        let i = choose|i: int|
            0 <= i < first.len() && (line_json(#[trigger] first[i]) matches Some(v) && v.get(
                "error"@,
            ) is Some);
        assert(lines[i] == first[i]);
    }
    if tells_error(lines) {
        let i = choose|i: int|
            0 <= i < lines.len() && (line_json(#[trigger] lines[i]) matches Some(v) && v.get(
                "error"@,
            ) is Some);
        if i < first.len() {
            assert(first[i] == lines[i]);
        }
    }
    if line_json(lines.last()) matches Some(v) && v.get("error"@) is Some {
        assert(lines[lines.len() - 1] == lines.last());
    }
}

proof fn lemma_chat_lines(model: Seq<char>, lines: Seq<Seq<char>>) -> (h: Heard)
    ensures
        ({
            let s = sse::read_lines(ChatToResponses::new(model), lines);
            &&& chat_fits(s, h)
            &&& h.pieces == pieces_of_chat(values_of(lines))
            &&& s.failed == tells_error(lines)
        }),
    decreases lines.len(),
{
    if lines.len() == 0 {
        lemma_says_nothing();
        silence()
    } else {
        let first = lines.drop_last();
        let l = lines.last();
        let g = lemma_chat_lines(model, first);
        let s = sse::read_lines(ChatToResponses::new(model), first);
        lemma_error_more(lines);
        if s.failed {
            g
        } else {
            match sse::data_of(l) {
                Some(d) => if d == "[DONE]"@ {
                    if s.completed {
                        g
                    } else {
                        let t = s.start().close_reasoning().close_text();
                        lemma_close_calls_flags(t, t.calls);
                        lemma_chat_finalize(s, g)
                    }
                } else {
                    match json::wire::json_of_text(d) {
                        Some(chunk) => if chunk.get("error"@) is Some {
                            keys::lemma_event_names();
                            lemma_other(
                                s.events,
                                "response.failed"@,
                                response_events::failed_response_v(s.id, "Upstream error"@),
                                g,
                            );
                            g
                        } else {
                            assert(values_of(lines).drop_last() =~= values_of(first));
                            lemma_chat_chunk(s, chunk, g)
                        },
                        None => g,
                    }
                },
                None => g,
            }
        }
    }
}

/// The reasoning and the texts of a Chat Completions stream come out of the Responses stream
/// made from it whole and in order, one event for each piece that came and no other; and every
/// message and reasoning that is done holds just the pieces that came for it.
pub proof fn lemma_chat_to_responses_whole(model: Seq<char>, lines: Seq<Seq<char>>)
    ensures
        exists|h: Heard|
            #[trigger] says(sse::read_lines(ChatToResponses::new(model), lines).events.out, h)
                && h.pieces == pieces_of_chat(values_of(lines)) && h.right,
{
    let h = lemma_chat_lines(model, lines);
    assert(says(sse::read_lines(ChatToResponses::new(model), lines).events.out, h));
}

/// What a stream has told of a tool call: its id and its name, as they were told last, and all
/// of its arguments.
#[verifier::ext_equal]
pub struct ToldCall {
    pub told: bool,
    pub id: Seq<char>,
    pub name: Seq<char>,
    pub arguments: Seq<char>,
}

/// What tool calls of a delta add to what is told of the call at a place.
pub open spec fn told_more(c: ToldCall, tcs: Seq<JsonV>, k: usize) -> ToldCall
    decreases tcs.len(),
{
    if tcs.len() == 0 {
        c
    } else {
        let before = told_more(c, tcs.drop_last(), k);
        let tc = tcs.last();
        let f = tc.get_or_null("function"@);
        if tc.u64_or("index"@, 0) as usize == k {
            ToldCall {
                told: true,
                id: tc.str_or("id"@, before.id),
                name: f.str_or("name"@, before.name),
                arguments: before.arguments + f.str_or("arguments"@, ""@),
            }
        } else {
            before
        }
    }
}

/// What chunks of a chat stream tell of the call at a place.
pub open spec fn told_call(chunks: Seq<JsonV>, k: usize) -> ToldCall
    decreases chunks.len(),
{
    if chunks.len() == 0 {
        ToldCall { told: false, id: Seq::empty(), name: Seq::empty(), arguments: Seq::empty() }
    } else {
        let before = told_call(chunks.drop_last(), k);
        match chunk_delta(chunks.last()).array_at("tool_calls"@) {
            Some(tcs) => told_more(before, tcs, k),
            None => before,
        }
    }
}

/// Whether what is known of a call is what was told of it.
spec fn known_as_told(calls: Seq<(usize, OpenCall)>, k: usize, t: ToldCall) -> bool {
    let c = chat_to_responses::call_at(calls, k);
    &&& chat_to_responses::has_call(calls, k) == t.told
    &&& c.arguments == t.arguments
    &&& t.id.len() > 0 ==> c.call_id == t.id
    &&& t.name.len() > 0 ==> c.name == t.name
}

proof fn lemma_call_place(calls: Seq<(usize, OpenCall)>, i: int)
    requires
        chat_to_responses::sorted(calls),
        0 <= i < calls.len(),
    ensures
        chat_to_responses::place(calls, calls[i].0) == i,
    decreases calls.len(),
{
    let k = calls[i].0;
    if i < calls.len() - 1 {
        let first = calls.drop_last();
        assert(calls[i].0 < calls[calls.len() - 1].0);
        assert forall|a: int, b: int| 0 <= a < b < first.len() implies (#[trigger] first[a]).0 < (
        #[trigger] first[b]).0 by {
            assert(calls[a].0 < calls[b].0);
        }
        lemma_call_place(first, i);
        assert(first[i] == calls[i]);
    } else {
        let first = calls.drop_last();
        lemma_place_end(first, k);
        if first.len() > 0 {
            assert(calls[first.len() - 1].0 < calls[i].0);
            assert(first.last() == calls[first.len() - 1]);
        }
    }
}

proof fn lemma_place_end(calls: Seq<(usize, OpenCall)>, k: usize)
    requires
        calls.len() > 0 ==> calls.last().0 < k,
    ensures
        chat_to_responses::place(calls, k) == calls.len(),
{
}

/// Setting a call leaves the others.
proof fn lemma_other_calls(calls: Seq<(usize, OpenCall)>, k: usize, c: OpenCall, j: usize)
    requires
        chat_to_responses::sorted(calls),
        j != k,
    ensures
        ({
            let after = chat_to_responses::with_call(calls, k, c);
            &&& chat_to_responses::has_call(after, j) == chat_to_responses::has_call(calls, j)
            &&& chat_to_responses::call_at(after, j) == chat_to_responses::call_at(calls, j)
        }),
{
    let after = chat_to_responses::with_call(calls, k, c);
    chat_to_responses::lemma_with_call(calls, k, c);
    let p = chat_to_responses::place(calls, k);
    chat_to_responses::lemma_place(calls, k);
    if chat_to_responses::has_call(calls, j) {
        let i = chat_to_responses::place(calls, j);
        let m = if !chat_to_responses::has_call(calls, k) && i >= p {
            i + 1
        } else {
            i
        };
        assert(after[m] == calls[i]);
        lemma_call_place(after, m);
    }
    if chat_to_responses::has_call(after, j) {
        let m = chat_to_responses::place(after, j);
        let i = if !chat_to_responses::has_call(calls, k) && m > p {
            m - 1
        } else {
            m
        };
        if chat_to_responses::has_call(calls, k) {
            assert(m != p);
            assert(calls[i] == after[m]);
        } else {
            assert(m != p);
            assert(calls[i] == after[m]);
        }
        lemma_call_place(calls, i);
    }
}

proof fn lemma_set_call(calls: Seq<(usize, OpenCall)>, k: usize, c: OpenCall)
    requires
        chat_to_responses::sorted(calls),
    ensures
        ({
            let after = chat_to_responses::with_call(calls, k, c);
            &&& chat_to_responses::sorted(after)
            &&& chat_to_responses::has_call(after, k)
            &&& chat_to_responses::call_at(after, k) == c
        }),
{
    chat_to_responses::lemma_with_call(calls, k, c);
    chat_to_responses::lemma_place(calls, k);
    let after = chat_to_responses::with_call(calls, k, c);
    let p = chat_to_responses::place(calls, k);
    assert(after[p] == (k, c));
    lemma_call_place(after, p);
}

proof fn lemma_call_told(s: ChatToResponses, tc: JsonV, j: usize, t: ToldCall)
    requires
        chat_to_responses::sorted(s.calls),
        known_as_told(s.calls, j, t),
    ensures
        chat_to_responses::sorted(s.push_call(tc).calls),
        known_as_told(s.push_call(tc).calls, j, told_more(t, seq![tc], j)),
{
    reveal_strlit("");
    let k = tc.u64_or("index"@, 0) as usize;
    let c = s.updated_call(tc);
    let after = s.push_call(tc).calls;
    assert(seq![tc].drop_last() =~= Seq::<JsonV>::empty());
    assert(told_more(t, seq![tc].drop_last(), j) == t);
    let x = choose|x: OpenCall|
        after == #[trigger] chat_to_responses::with_call(s.calls, k, x) && x.arguments
            == c.arguments && (c.call_id.len() > 0 ==> x.call_id == c.call_id) && (c.name.len() > 0
            ==> x.name == c.name);
    if !c.added && (c.call_id.len() > 0 || c.name.len() > 0) {
        let call_id = if c.call_id.len() == 0 {
            "call_"@ + text::decimal(k as nat)
        } else {
            c.call_id
        };
        let name = if c.name.len() == 0 {
            "unknown_tool"@
        } else {
            c.name
        };
        let y = OpenCall {
            index: Some(s.next_index),
            item_id: "fc_"@ + call_id,
            call_id,
            name,
            added: true,
            ..c
        };
        assert(after == chat_to_responses::with_call(s.calls, k, y));
    } else {
        assert(after == chat_to_responses::with_call(s.calls, k, c));
    }
    lemma_set_call(s.calls, k, x);
    if j != k {
        lemma_other_calls(s.calls, k, x, j);
    }
}

proof fn lemma_calls_told(s: ChatToResponses, tcs: Seq<JsonV>, j: usize, t: ToldCall)
    requires
        chat_to_responses::sorted(s.calls),
        known_as_told(s.calls, j, t),
    ensures
        chat_to_responses::sorted(s.push_calls(tcs).calls),
        known_as_told(s.push_calls(tcs).calls, j, told_more(t, tcs, j)),
    decreases tcs.len(),
{
    if tcs.len() > 0 {
        let first = tcs.drop_last();
        lemma_calls_told(s, first, j, t);
        let before = told_more(t, first, j);
        lemma_call_told(s.push_calls(first), tcs.last(), j, before);
        let one = seq![tcs.last()];
        assert(one.drop_last() =~= Seq::<JsonV>::empty());
        assert(told_more(before, one.drop_last(), j) == before);
        assert(told_more(before, one, j) == told_more(t, tcs, j));
    }
}

/// The calls and the text item after a delta.
proof fn lemma_delta_told(s: ChatToResponses, delta: JsonV, j: usize, t: ToldCall)
    requires
        chat_to_responses::sorted(s.calls),
        known_as_told(s.calls, j, t),
    ensures
        chat_to_responses::sorted(s.delta(delta).calls),
        known_as_told(
            s.delta(delta).calls,
            j,
            match delta.array_at("tool_calls"@) {
                Some(tcs) => told_more(t, tcs, j),
                None => t,
            },
        ),
        s.delta(delta).text is Some == (s.text is Some || delta.str_or("content"@, ""@).len() > 0),
{
    let a = s.reasoning_under(delta, "reasoning_content"@).reasoning_under(delta, "reasoning"@);
    let content = delta.str_or("content"@, ""@);
    let b = if content.len() > 0 {
        a.push_text(content)
    } else {
        a
    };
    assert(b.calls == s.calls);
    match delta.array_at("tool_calls"@) {
        Some(tcs) => {
            lemma_calls_told(b.close_reasoning(), tcs, j, t);
            lemma_calls_flags(b.close_reasoning(), tcs);
        },
        None => {},
    }
}

/// Whether a stream goes on without an end and without an error.
pub open spec fn goes_on(lines: Seq<Seq<char>>) -> bool {
    !tells_error(lines) && forall|i: int|
        0 <= i < lines.len() ==> sse::data_of(#[trigger] lines[i]) != Some("[DONE]"@)
}

proof fn lemma_chat_told(model: Seq<char>, lines: Seq<Seq<char>>, j: usize) -> (h: Heard)
    requires
        goes_on(lines),
    ensures
        ({
            let s = sse::read_lines(ChatToResponses::new(model), lines);
            let chunks = values_of(lines);
            &&& chat_fits(s, h)
            &&& h.messages.len() == 0
            &&& h.calls.len() == 0
            &&& h.said == text_of_chat(chunks)
            &&& s.text is Some == (h.said.len() > 0)
            &&& !s.completed
            &&& !s.failed
            &&& chat_to_responses::sorted(s.calls)
            &&& known_as_told(s.calls, j, told_call(chunks, j))
        }),
    decreases lines.len(),
{
    if lines.len() == 0 {
        lemma_says_nothing();
        silence()
    } else {
        let first = lines.drop_last();
        lemma_error_more(lines);
        assert(goes_on(first)) by {
            assert forall|i: int| 0 <= i < first.len() implies sse::data_of(#[trigger] first[i])
                != Some("[DONE]"@) by {
                assert(first[i] == lines[i]);
            }
        }
        let g = lemma_chat_told(model, first, j);
        let s = sse::read_lines(ChatToResponses::new(model), first);
        assert(sse::data_of(lines[lines.len() - 1]) != Some("[DONE]"@));
        match line_json(lines.last()) {
            Some(chunk) => {
                let chunks = values_of(lines);
                assert(chunks.drop_last() =~= values_of(first));
                let t = s.noted(chunk).start().used(chunk);
                let told = told_call(values_of(first), j);
                match crate::convert::responses::to_anthropic::first_choice(chunk) {
                    Some(choice) => match choice.get("delta"@) {
                        Some(delta) => {
                            lemma_delta_told(t, delta, j, told);
                        },
                        None => {},
                    },
                    None => {},
                }
                lemma_chat_chunk(s, chunk, g)
            },
            None => g,
        }
    }
}

/// The reason to finish that chunks told last.
pub open spec fn last_finish(chunks: Seq<JsonV>) -> Option<Seq<char>>
    decreases chunks.len(),
{
    if chunks.len() == 0 {
        None
    } else {
        let told = match chunks.last().array_at("choices"@) {
            Some(choices) => if choices.len() > 0 {
                choices[0].str_at("finish_reason"@)
            } else {
                None
            },
            None => None,
        };
        if told is Some {
            told
        } else {
            last_finish(chunks.drop_last())
        }
    }
}

/// The usage that chunks told last.
pub open spec fn last_usage(chunks: Seq<JsonV>) -> Option<JsonV>
    decreases chunks.len(),
{
    if chunks.len() == 0 {
        None
    } else {
        let told = chunks.last().get("usage"@);
        if told is Some && !(told->0 is Null) {
            told
        } else {
            last_usage(chunks.drop_last())
        }
    }
}

/// Whether a usage has the counts of another in which the input is the prompt and the output
/// the completion.
pub open spec fn counts_kept(r: Option<JsonV>, told: Option<JsonV>) -> bool {
    match (r, told) {
        (Some(r), Some(u)) => {
            &&& u.u64_at("prompt_tokens"@) is Some ==> r.u64_at("input_tokens"@) == u.u64_at(
                "prompt_tokens"@,
            )
            &&& u.u64_at("completion_tokens"@) is Some ==> r.u64_at("output_tokens"@) == u.u64_at(
                "completion_tokens"@,
            )
            &&& u.u64_at("total_tokens"@) is Some ==> r.u64_at("total_tokens"@) == u.u64_at(
                "total_tokens"@,
            )
        },
        (Some(r), None) => {
            &&& r.u64_at("input_tokens"@) == Some(0u64)
            &&& r.u64_at("output_tokens"@) == Some(0u64)
            &&& r.u64_at("total_tokens"@) == Some(0u64)
        },
        (None, _) => false,
    }
}

/// Whether a conversion has noted how the stream finished and what it used.
spec fn noted_end(s: ChatToResponses, chunks: Seq<JsonV>, model: Seq<char>) -> bool {
    &&& s.model == model
    &&& s.finish_reason == last_finish(chunks)
    &&& s.usage == match last_usage(chunks) {
        Some(u) => Some(to_responses::usage_of_chat(Some(u))),
        None => None,
    }
}

proof fn lemma_calls_notes(s: ChatToResponses, tcs: Seq<JsonV>)
    ensures
        s.push_calls(tcs).finish_reason == s.finish_reason,
        s.push_calls(tcs).usage == s.usage,
        s.push_calls(tcs).model == s.model,
    decreases tcs.len(),
{
    if tcs.len() > 0 {
        lemma_calls_notes(s, tcs.drop_last());
    }
}

proof fn lemma_close_notes(s: ChatToResponses, calls: Seq<(usize, OpenCall)>)
    ensures
        s.close_calls(calls).finish_reason == s.finish_reason,
        s.close_calls(calls).usage == s.usage,
        s.close_calls(calls).model == s.model,
    decreases calls.len(),
{
    if calls.len() > 0 {
        lemma_close_notes(s, calls.drop_last());
    }
}

proof fn lemma_delta_notes(s: ChatToResponses, delta: JsonV)
    ensures
        s.delta(delta).finish_reason == s.finish_reason,
        s.delta(delta).usage == s.usage,
        s.delta(delta).model == s.model,
{
    let a = s.reasoning_under(delta, "reasoning_content"@).reasoning_under(delta, "reasoning"@);
    let content = delta.str_or("content"@, ""@);
    let b = if content.len() > 0 {
        a.push_text(content)
    } else {
        a
    };
    match delta.array_at("tool_calls"@) {
        Some(tcs) => {
            lemma_calls_notes(b.close_reasoning(), tcs);
        },
        None => {},
    }
}

proof fn lemma_chat_notes(model: Seq<char>, lines: Seq<Seq<char>>)
    requires
        goes_on(lines),
    ensures
        noted_end(sse::read_lines(ChatToResponses::new(model), lines), values_of(lines), model),
        !sse::read_lines(ChatToResponses::new(model), lines).failed,
    decreases lines.len(),
{
    if lines.len() > 0 {
        let first = lines.drop_last();
        lemma_error_more(lines);
        assert(goes_on(first)) by {
            assert forall|i: int| 0 <= i < first.len() implies sse::data_of(#[trigger] first[i])
                != Some("[DONE]"@) by {
                assert(first[i] == lines[i]);
            }
        }
        lemma_chat_notes(model, first);
        let s = sse::read_lines(ChatToResponses::new(model), first);
        assert(sse::data_of(lines[lines.len() - 1]) != Some("[DONE]"@));
        match line_json(lines.last()) {
            Some(chunk) => {
                assert(values_of(lines).drop_last() =~= values_of(first));
                let t = s.noted(chunk).start().used(chunk);
                match crate::convert::responses::to_anthropic::first_choice(chunk) {
                    Some(choice) => match choice.get("delta"@) {
                        Some(delta) => {
                            lemma_delta_notes(t, delta);
                            lemma_flags(t, delta);
                        },
                        None => {},
                    },
                    None => {},
                }
            },
            None => {},
        }
    }
}

/// When a Chat Completions stream ends, the Responses stream made from it ends with a response
/// that holds every item that was done, under the model of the request; it is incomplete just
/// where the chat was cut short by its length, and has the counts that the chat told last.
pub proof fn lemma_chat_response_at_end(model: Seq<char>, lines: Seq<Seq<char>>)
    requires
        goes_on(lines),
    ensures
        exists|h: Heard|
            {
                &&& #[trigger] says(
                    sse::read_lines(ChatToResponses::new(model), lines).end().events.out,
                    h,
                )
                &&& h.right
                &&& h.end is Some
                &&& h.end->0.str_at("model"@) == Some(model)
                &&& h.end->0.array_at("output"@) == Some(h.items)
                &&& h.end->0.str_at("status"@) == Some(
                    if last_finish(values_of(lines)) == Some("length"@) {
                        "incomplete"@
                    } else {
                        "completed"@
                    },
                )
                &&& counts_kept(h.end->0.get("usage"@), last_usage(values_of(lines)))
            },
{
    keys::lemma_whole_response_keys();
    let g = lemma_chat_told(model, lines, 0);
    lemma_chat_notes(model, lines);
    let s = sse::read_lines(ChatToResponses::new(model), lines);
    let h = lemma_chat_finalize(s, g);
    let t = s.start().close_reasoning().close_text();
    lemma_close_notes(t, t.calls);
    let r = s.closed().response();
    assert(noted_end(s.closed(), values_of(lines), model));
    assert(counts_kept(r.get("usage"@), last_usage(values_of(lines))));
    assert(says(s.end().events.out, h));
}

/// When a Chat Completions stream ends, the Responses stream made from it has told of one
/// message with all of its text, where it had any, and of the call at every place of which it
/// told, with all the arguments that came for it and the id and the name that came last for it.
pub proof fn lemma_chat_told_at_end(model: Seq<char>, lines: Seq<Seq<char>>, k: usize)
    requires
        goes_on(lines),
    ensures
        exists|h: Heard|
            {
                let t = told_call(values_of(lines), k);
                let all = text_of_chat(values_of(lines));
                &&& #[trigger] says(
                    sse::read_lines(ChatToResponses::new(model), lines).end().events.out,
                    h,
                )
                &&& h.right
                &&& h.messages == (if all.len() > 0 {
                    seq![all]
                } else {
                    Seq::empty()
                })
                &&& t.told ==> exists|i: int|
                    {
                        &&& 0 <= i < h.calls.len()
                        &&& (#[trigger] h.calls[i]).2 == t.arguments
                        &&& t.id.len() > 0 ==> h.calls[i].0 == t.id
                        &&& t.name.len() > 0 ==> h.calls[i].1 == t.name
                    }
            },
{
    let g = lemma_chat_told(model, lines, k);
    let s = sse::read_lines(ChatToResponses::new(model), lines);
    let h = lemma_chat_finalize(s, g);
    let t = told_call(values_of(lines), k);
    let all = text_of_chat(values_of(lines));
    assert(g.messages.push(g.said) =~= seq![g.said]);
    assert(g.messages =~= Seq::empty());
    assert(says(s.end().events.out, h));
    if t.told {
        let i = chat_to_responses::place(s.calls, k);
        assert(h.calls[g.calls.len() + i] == done_call(s.calls[i].1));
    }
}

/// The type of the delta that an event of an Anthropic stream carries.
pub open spec fn delta_type(v: JsonV) -> Seq<char> {
    if v.str_at("type"@) == Some("content_block_delta"@) {
        v.get_or_null("delta"@).str_or("type"@, ""@)
    } else {
        Seq::empty()
    }
}

/// What an event of an Anthropic stream says.
pub open spec fn event_pieces(v: JsonV) -> Seq<Piece> {
    let said = v.get_or_null("delta"@).str_at("text"@);
    let thought = v.get_or_null("delta"@).str_at("thinking"@);
    if delta_type(v) == "text_delta"@ && said is Some {
        seq![Piece::Text(said->0)]
    } else if delta_type(v) == "thinking_delta"@ && thought is Some {
        seq![Piece::Thinking(thought->0)]
    } else {
        Seq::empty()
    }
}

/// What the events of an Anthropic stream say.
pub open spec fn pieces_of_anthropic(vs: Seq<JsonV>) -> Seq<Piece>
    decreases vs.len(),
{
    if vs.len() == 0 {
        Seq::empty()
    } else {
        pieces_of_anthropic(vs.drop_last()) + event_pieces(vs.last())
    }
}

/// The type of the block that an event starts, empty where it starts none that is known.
pub open spec fn started_type(v: JsonV) -> Seq<char> {
    let kind = v.get_or_null("content_block"@).str_or("type"@, ""@);
    if v.str_at("type"@) == Some("content_block_start"@) && (kind == "text"@ || kind
        == "thinking"@ || kind == "tool_use"@) {
        kind
    } else {
        Seq::empty()
    }
}

/// The type of the block that events are in, empty where they are in none. Text and thinking
/// start a block of their own where they come outside of one.
pub open spec fn block_type(vs: Seq<JsonV>) -> Seq<char>
    decreases vs.len(),
{
    if vs.len() == 0 {
        Seq::empty()
    } else {
        let v = vs.last();
        if started_type(v).len() > 0 {
            started_type(v)
        } else if delta_type(v) == "text_delta"@ {
            "text"@
        } else if delta_type(v) == "thinking_delta"@ {
            "thinking"@
        } else if v.str_at("type"@) == Some("content_block_stop"@) {
            Seq::empty()
        } else {
            block_type(vs.drop_last())
        }
    }
}

/// Whether the block that events are in was ended from outside: by the input of a tool, or by
/// the end of the message.
pub open spec fn is_cut(vs: Seq<JsonV>) -> bool
    decreases vs.len(),
{
    if vs.len() == 0 {
        false
    } else {
        let v = vs.last();
        let before = vs.drop_last();
        if started_type(v).len() > 0 || v.str_at("type"@) == Some("content_block_stop"@) {
            false
        } else if delta_type(v) == "text_delta"@ {
            block_type(before) == "text"@ && is_cut(before)
        } else if delta_type(v) == "thinking_delta"@ {
            block_type(before) == "thinking"@ && is_cut(before)
        } else if delta_type(v) == "input_json_delta"@ || v.str_at("type"@) == Some(
            "message_stop"@,
        ) {
            true
        } else {
            is_cut(before)
        }
    }
}

/// Whether no text and no thinking comes for a block that was ended from outside.
pub open spec fn in_place(vs: Seq<JsonV>) -> bool {
    forall|i: int|
        0 <= i < vs.len() && is_cut(#[trigger] vs.take(i)) ==> !(delta_type(vs[i])
            == "text_delta"@ && block_type(vs.take(i)) == "text"@) && !(delta_type(vs[i])
            == "thinking_delta"@ && block_type(vs.take(i)) == "thinking"@)
}

/// A conversion after events, each handled by its type.
pub open spec fn handled(s: AnthropicToResponses, vs: Seq<JsonV>) -> AnthropicToResponses
    decreases vs.len(),
{
    if vs.len() == 0 {
        s
    } else {
        handled(s, vs.drop_last()).handle(vs.last().str_or("type"@, ""@), vs.last())
    }
}

proof fn lemma_handled(s: AnthropicToResponses, lines: Seq<Seq<char>>)
    requires
        goes_on(lines),
        !s.failed,
        !s.terminated,
    ensures
        sse::read_lines(s, lines) == handled(s, values_of(lines)),
        !sse::read_lines(s, lines).failed,
        !sse::read_lines(s, lines).terminated,
    decreases lines.len(),
{
    if lines.len() > 0 {
        let first = lines.drop_last();
        lemma_error_more(lines);
        assert(goes_on(first)) by {
            assert forall|i: int| 0 <= i < first.len() implies sse::data_of(#[trigger] first[i])
                != Some("[DONE]"@) by {
                assert(first[i] == lines[i]);
            }
        }
        lemma_handled(s, first);
        assert(sse::data_of(lines[lines.len() - 1]) != Some("[DONE]"@));
        match line_json(lines.last()) {
            Some(v) => {
                assert(values_of(lines).drop_last() =~= values_of(first));
            },
            None => {},
        }
    }
}

/// The phase of a conversion in a block of a type.
spec fn phase_of(kind: Seq<char>) -> AnthropicPhase {
    if kind == "text"@ {
        AnthropicPhase::Message
    } else if kind == "thinking"@ {
        AnthropicPhase::Reasoning
    } else if kind == "tool_use"@ {
        AnthropicPhase::ToolCall
    } else {
        AnthropicPhase::Idle
    }
}

/// Whether a conversion in a block has let hear this.
spec fn anthropic_fits(s: AnthropicToResponses, h: Heard, kind: Seq<char>, cut: bool) -> bool {
    &&& says(s.events.out, h)
    &&& h.right
    &&& h.items == s.items
    &&& s.phase == phase_of(kind)
    &&& match s.message {
        Some(item) => kind == "text"@ && !cut && item.text == h.said,
        None => h.said.len() == 0 && !(kind == "text"@ && !cut),
    }
    &&& match s.reasoning {
        Some(item) => kind == "thinking"@ && !cut && item.text == h.thought,
        None => h.thought.len() == 0 && !(kind == "thinking"@ && !cut),
    }
    &&& kind == "text"@ ==> s.tool is None
}

proof fn lemma_block_names()
    ensures
        "text"@ != "thinking"@,
        "text"@ != "tool_use"@,
        "thinking"@ != "tool_use"@,
        "text"@.len() > 0,
        "thinking"@.len() > 0,
        "tool_use"@.len() > 0,
        ""@.len() == 0,
        "text_delta"@ != "thinking_delta"@,
        "text_delta"@ != "input_json_delta"@,
        "thinking_delta"@ != "input_json_delta"@,
        "text_delta"@.len() > 0,
        "thinking_delta"@.len() > 0,
        "input_json_delta"@.len() > 0,
        "message_start"@ != "content_block_start"@,
        "message_start"@ != "content_block_delta"@,
        "message_start"@ != "content_block_stop"@,
        "message_start"@ != "message_delta"@,
        "message_start"@ != "message_stop"@,
        "content_block_start"@ != "content_block_delta"@,
        "content_block_start"@ != "content_block_stop"@,
        "content_block_start"@ != "message_delta"@,
        "content_block_start"@ != "message_stop"@,
        "content_block_delta"@ != "content_block_stop"@,
        "content_block_delta"@ != "message_delta"@,
        "content_block_delta"@ != "message_stop"@,
        "content_block_stop"@ != "message_delta"@,
        "content_block_stop"@ != "message_stop"@,
        "message_delta"@ != "message_stop"@,
        "message_start"@.len() > 0,
        "content_block_start"@.len() > 0,
        "content_block_delta"@.len() > 0,
        "content_block_stop"@.len() > 0,
        "message_delta"@.len() > 0,
        "message_stop"@.len() > 0,
{
    reveal_strlit("text");
    reveal_strlit("thinking");
    reveal_strlit("tool_use");
    reveal_strlit("");
    reveal_strlit("text_delta");
    reveal_strlit("thinking_delta");
    reveal_strlit("input_json_delta");
    reveal_strlit("message_start");
    reveal_strlit("content_block_start");
    reveal_strlit("content_block_delta");
    reveal_strlit("content_block_stop");
    reveal_strlit("message_delta");
    reveal_strlit("message_stop");
    assert("text"@.len() == 4 && "thinking"@.len() == 8 && "tool_use"@.len() == 8);
    assert("thinking"@[1] == 'h' && "tool_use"@[1] == 'o');
    assert("text_delta"@.len() == 10 && "thinking_delta"@.len() == 14);
    assert("input_json_delta"@.len() == 16);
    assert("message_start"@.len() == 13 && "message_delta"@.len() == 13);
    assert("message_start"@[8] == 's' && "message_delta"@[8] == 'd');
    assert("content_block_start"@.len() == 19 && "content_block_delta"@.len() == 19);
    assert("content_block_start"@[14] == 's' && "content_block_delta"@[14] == 'd');
    assert("content_block_stop"@.len() == 18 && "message_stop"@.len() == 12);
}

proof fn lemma_anthropic_start(s: AnthropicToResponses, h: Heard, kind: Seq<char>, cut: bool)
    requires
        anthropic_fits(s, h, kind, cut),
    ensures
        anthropic_fits(s.start(), h, kind, cut),
        s.start().tool == s.tool,
{
    let t = s.start();
    lemma_started(s.events, t.id, t.created, s.model, h);
}

/// A message or reasoning that is open is closed.
proof fn lemma_close_current(
    s: AnthropicToResponses,
    h: Heard,
    kind: Seq<char>,
    cut: bool,
) -> (r: Heard)
    requires
        anthropic_fits(s, h, kind, cut),
    ensures
        anthropic_fits(s.close_current(), r, kind, true),
        r.pieces == h.pieces,
        r.calls == h.calls,
        r.added == h.added,
        r.inputs == h.inputs,
        r.said.len() == 0,
        r.thought.len() == 0,
        s.close_current().tool == s.tool,
        s.close_current().message is None,
        s.close_current().reasoning is None,
{
    lemma_block_names();
    keys::lemma_event_keys();
    match s.phase {
        AnthropicPhase::Reasoning => match s.reasoning {
            Some(item) => {
                let done = anthropic_to_responses::reasoning_item_v(item.id, item.text);
                lemma_reasoning_done(s.events, item.id, item.index, done, h);
                reasoning_over(h, done)
            },
            None => h,
        },
        AnthropicPhase::Message => match s.message {
            Some(item) => {
                lemma_message_done(s.events, item.id, item.index, h);
                message_over(h, item.id)
            },
            None => h,
        },
        _ => h,
    }
}

/// A tool that is open is closed, with all of its arguments.
proof fn lemma_close_tool(
    s: AnthropicToResponses,
    h: Heard,
    kind: Seq<char>,
    cut: bool,
) -> (r: Heard)
    requires
        anthropic_fits(s, h, kind, cut),
    ensures
        anthropic_fits(s.close_tool(), r, kind, cut),
        r.pieces == h.pieces,
        r.added == h.added,
        r.inputs == h.inputs,
        r.said == h.said,
        r.thought == h.thought,
        r.calls == match s.tool {
            Some(tc) => h.calls.push((tc.id, tc.name, tc.args)),
            None => h.calls,
        },
        s.close_tool().tool is None,
{
    match s.tool {
        Some(tc) => {
            lemma_call_done(s.events, tc.id, Some(tc.index), tc.id, tc.name, tc.args, h);
            call_over(h, tc.id, tc.id, tc.name, tc.args)
        },
        None => h,
    }
}

proof fn lemma_start_message(s: AnthropicToResponses, h: Heard, kind: Seq<char>, cut: bool)
    requires
        anthropic_fits(s, h, kind, cut),
        s.message is None,
        s.reasoning is None,
        s.tool is None,
    ensures
        anthropic_fits(s.start_message(), h, "text"@, false),
        s.start_message().message is Some,
{
    lemma_block_names();
    let i = s.next_index;
    lemma_message_added(
        s.events,
        anthropic_to_responses::item_id("msg_"@, s.now, i),
        i,
        h,
    );
    assert(h.said =~= Seq::empty());
}

proof fn lemma_start_reasoning(s: AnthropicToResponses, h: Heard, kind: Seq<char>, cut: bool)
    requires
        anthropic_fits(s, h, kind, cut),
        s.message is None,
        s.reasoning is None,
    ensures
        anthropic_fits(s.start_reasoning(), h, "thinking"@, false),
        s.start_reasoning().reasoning is Some,
{
    lemma_block_names();
    let i = s.next_index;
    lemma_reasoning_added(s.events, anthropic_to_responses::item_id("rs_"@, s.now, i), i, h);
    assert(h.thought =~= Seq::empty());
}

proof fn lemma_block_start(
    s: AnthropicToResponses,
    v: JsonV,
    h: Heard,
    kind: Seq<char>,
    cut: bool,
) -> (r: Heard)
    requires
        anthropic_fits(s, h, kind, cut),
        v.str_at("type"@) == Some("content_block_start"@),
    ensures
        ({
            let k = if started_type(v).len() > 0 {
                started_type(v)
            } else {
                kind
            };
            let block = v.get_or_null("content_block"@);
            &&& anthropic_fits(s.block_start(v), r, k, if started_type(v).len() > 0 {
                false
            } else {
                cut
            })
            &&& r.pieces == h.pieces
            &&& started_type(v) == "tool_use"@ ==> {
                &&& r.added == h.added.push((block.str_or("id"@, ""@), block.str_or("name"@, ""@)))
                &&& r.inputs == h.inputs
                &&& r.calls == h.calls
                &&& s.block_start(v).tool is Some
                &&& s.block_start(v).tool->0.id == block.str_or("id"@, ""@)
                &&& s.block_start(v).tool->0.name == block.str_or("name"@, ""@)
                &&& s.block_start(v).tool->0.args.len() == 0
            }
        }),
{
    lemma_block_names();
    let block = v.get_or_null("content_block"@);
    let kind1 = block.str_or("type"@, ""@);
    if kind1 == "thinking"@ {
        let g = lemma_close_current(s, h, kind, cut);
        lemma_start_reasoning(s.close_current(), g, kind, true);
        g
    } else if kind1 == "text"@ {
        let g = lemma_close_current(s, h, kind, cut);
        let f = lemma_close_tool(s.close_current(), g, kind, true);
        lemma_start_message(s.close_current().close_tool(), f, kind, true);
        f
    } else if kind1 == "tool_use"@ {
        let g = lemma_close_current(s, h, kind, cut);
        let c = s.close_current();
        let id = block.str_or("id"@, ""@);
        let name = block.str_or("name"@, ""@);
        lemma_call_added(c.events, id, c.next_index, id, name, g);
        call_new(g, id, name)
    } else {
        h
    }
}

proof fn lemma_block_delta(
    s: AnthropicToResponses,
    v: JsonV,
    h: Heard,
    kind: Seq<char>,
    cut: bool,
) -> (r: Heard)
    requires
        anthropic_fits(s, h, kind, cut),
        v.str_at("type"@) == Some("content_block_delta"@),
        cut ==> !(delta_type(v) == "text_delta"@ && kind == "text"@) && !(delta_type(v)
            == "thinking_delta"@ && kind == "thinking"@),
    ensures
        ({
            let d = delta_type(v);
            let k = if d == "text_delta"@ {
                "text"@
            } else if d == "thinking_delta"@ {
                "thinking"@
            } else {
                kind
            };
            let now_cut = if d == "text_delta"@ || d == "thinking_delta"@ {
                false
            } else if d == "input_json_delta"@ {
                true
            } else {
                cut
            };
            let piece = v.get_or_null("delta"@).str_at("partial_json"@);
            &&& anthropic_fits(s.block_delta(v), r, k, now_cut)
            &&& r.pieces == h.pieces + event_pieces(v)
            &&& d == "input_json_delta"@ && s.phase == AnthropicPhase::ToolCall && s.tool is Some
                && piece is Some ==> {
                &&& r.inputs == h.inputs.push((s.tool->0.id, piece->0))
                &&& r.added == h.added
                &&& r.calls == h.calls
                &&& s.block_delta(v).tool is Some
                &&& s.block_delta(v).tool->0.id == s.tool->0.id
                &&& s.block_delta(v).tool->0.name == s.tool->0.name
                &&& s.block_delta(v).tool->0.args == s.tool->0.args + piece->0
                &&& s.block_delta(v).phase == s.phase
            }
        }),
{
    lemma_block_names();
    let delta = v.get_or_null("delta"@);
    let d = delta_type(v);
    if d == "thinking_delta"@ {
        let t = if s.phase == AnthropicPhase::Reasoning {
            s
        } else {
            s.close_current().start_reasoning()
        };
        let g = if s.phase == AnthropicPhase::Reasoning {
            h
        } else {
            let g = lemma_close_current(s, h, kind, cut);
            lemma_start_reasoning(s.close_current(), g, kind, true);
            g
        };
        match delta.str_at("thinking"@) {
            Some(x) => {
                let item = t.reasoning->0;
                lemma_reasoning_delta(t.events, item.id, item.index, x, g);
                assert(g.pieces + event_pieces(v) =~= g.pieces.push(Piece::Thinking(x)));
                thinking_more(g, x)
            },
            None => {
                assert(g.pieces + event_pieces(v) =~= g.pieces);
                g
            },
        }
    } else if d == "text_delta"@ {
        let t = if s.phase == AnthropicPhase::Message {
            s
        } else {
            s.close_current().close_tool().start_message()
        };
        let g = if s.phase == AnthropicPhase::Message {
            h
        } else {
            let g = lemma_close_current(s, h, kind, cut);
            let f = lemma_close_tool(s.close_current(), g, kind, true);
            lemma_start_message(s.close_current().close_tool(), f, kind, true);
            f
        };
        match delta.str_at("text"@) {
            Some(x) => {
                let item = t.message->0;
                lemma_message_delta(t.events, item.id, item.index, x, g);
                assert(g.pieces + event_pieces(v) =~= g.pieces.push(Piece::Text(x)));
                text_more(g, x)
            },
            None => {
                assert(g.pieces + event_pieces(v) =~= g.pieces);
                g
            },
        }
    } else if d == "input_json_delta"@ {
        let t = if s.phase == AnthropicPhase::ToolCall {
            s
        } else {
            s.close_current()
        };
        let g = if s.phase == AnthropicPhase::ToolCall {
            h
        } else {
            lemma_close_current(s, h, kind, cut)
        };
        assert(g.pieces + event_pieces(v) =~= g.pieces);
        match delta.str_at("partial_json"@) {
            Some(x) => match t.tool {
                Some(tc) => {
                    lemma_call_delta(t.events, tc.id, tc.index, x, g);
                    input_more(g, tc.id, x)
                },
                None => g,
            },
            None => g,
        }
    } else {
        assert(h.pieces + event_pieces(v) =~= h.pieces);
        h
    }
}

proof fn lemma_anthropic_event(
    s: AnthropicToResponses,
    v: JsonV,
    h: Heard,
    before: Seq<JsonV>,
) -> (r: Heard)
    requires
        anthropic_fits(s, h, block_type(before), is_cut(before)),
        is_cut(before) ==> !(delta_type(v) == "text_delta"@ && block_type(before) == "text"@)
            && !(delta_type(v) == "thinking_delta"@ && block_type(before) == "thinking"@),
    ensures
        anthropic_fits(
            s.handle(v.str_or("type"@, ""@), v),
            r,
            block_type(before.push(v)),
            is_cut(before.push(v)),
        ),
        r.pieces == h.pieces + event_pieces(v),
{
    lemma_block_names();
    let kind = block_type(before);
    let cut = is_cut(before);
    let t = s.start();
    lemma_anthropic_start(s, h, kind, cut);
    assert(before.push(v).drop_last() =~= before);
    assert(h.pieces + Seq::<Piece>::empty() =~= h.pieces);
    let name = v.str_or("type"@, ""@);
    if name == "content_block_start"@ {
        lemma_block_start(t, v, h, kind, cut)
    } else if name == "content_block_delta"@ {
        lemma_block_delta(t, v, h, kind, cut)
    } else if name == "content_block_stop"@ {
        let g = lemma_close_current(t, h, kind, cut);
        lemma_close_tool(t.close_current(), g, kind, true)
    } else if name == "message_stop"@ {
        let g = lemma_close_current(t, h, kind, cut);
        lemma_close_tool(t.close_current(), g, kind, true)
    } else {
        h
    }
}

proof fn lemma_anthropic_values(model: Seq<char>, vs: Seq<JsonV>) -> (h: Heard)
    requires
        in_place(vs),
    ensures
        anthropic_fits(
            handled(AnthropicToResponses::new(model), vs),
            h,
            block_type(vs),
            is_cut(vs),
        ),
        h.pieces == pieces_of_anthropic(vs),
    decreases vs.len(),
{
    lemma_block_names();
    if vs.len() == 0 {
        lemma_says_nothing();
        silence()
    } else {
        let first = vs.drop_last();
        assert(in_place(first)) by {
            assert forall|i: int|
                0 <= i < first.len() && is_cut(#[trigger] first.take(i)) implies !(delta_type(
                first[i],
            ) == "text_delta"@ && block_type(first.take(i)) == "text"@) && !(delta_type(first[i])
                == "thinking_delta"@ && block_type(first.take(i)) == "thinking"@) by {
                assert(first.take(i) =~= vs.take(i));
                assert(first[i] == vs[i]);
            }
        }
        let g = lemma_anthropic_values(model, first);
        assert(vs.take(vs.len() - 1) =~= first);
        assert(vs[vs.len() - 1] == vs.last());
        assert(first.push(vs.last()) =~= vs);
        lemma_anthropic_event(
            handled(AnthropicToResponses::new(model), first),
            vs.last(),
            g,
            first,
        )
    }
}

/// The thinking and the texts of an Anthropic stream come out of the Responses stream made from
/// it whole and in order, one event for each piece that came and no other; and every message
/// and reasoning that is done holds just the pieces that came for it.
pub proof fn lemma_anthropic_to_responses_whole(model: Seq<char>, lines: Seq<Seq<char>>)
    requires
        goes_on(lines),
        in_place(values_of(lines)),
    ensures
        exists|h: Heard|
            #[trigger] says(
                sse::read_lines(AnthropicToResponses::new(model), lines).events.out,
                h,
            ) && h.pieces == pieces_of_anthropic(values_of(lines)) && h.right,
{
    lemma_handled(AnthropicToResponses::new(model), lines);
    let h = lemma_anthropic_values(model, values_of(lines));
    assert(says(sse::read_lines(AnthropicToResponses::new(model), lines).events.out, h));
}

/// All pieces of the input of a tool, one after the other.
pub open spec fn whole_input(deltas: Seq<JsonV>) -> Seq<char>
    decreases deltas.len(),
{
    if deltas.len() == 0 {
        Seq::empty()
    } else {
        whole_input(deltas.drop_last()) + deltas.last().get_or_null("delta"@).str_or(
            "partial_json"@,
            ""@,
        )
    }
}

/// Whether events are all pieces of the input of a tool.
pub open spec fn are_inputs(deltas: Seq<JsonV>) -> bool {
    forall|i: int|
        0 <= i < deltas.len() ==> delta_type(#[trigger] deltas[i]) == "input_json_delta"@
            && deltas[i].get_or_null("delta"@).str_at("partial_json"@) is Some
}

proof fn lemma_inputs(
    s: AnthropicToResponses,
    deltas: Seq<JsonV>,
    h: Heard,
    cut: bool,
) -> (r: Heard)
    requires
        anthropic_fits(s, h, "tool_use"@, cut),
        s.tool is Some,
        are_inputs(deltas),
    ensures
        anthropic_fits(handled(s, deltas), r, "tool_use"@, cut || deltas.len() > 0),
        handled(s, deltas).tool is Some,
        handled(s, deltas).tool->0.id == s.tool->0.id,
        handled(s, deltas).tool->0.name == s.tool->0.name,
        handled(s, deltas).tool->0.args == s.tool->0.args + whole_input(deltas),
        r.pieces == h.pieces,
        r.calls == h.calls,
        r.added == h.added,
        r.inputs == h.inputs + Seq::new(
            deltas.len(),
            |i: int|
                (s.tool->0.id, deltas[i].get_or_null("delta"@).str_or("partial_json"@, ""@)),
        ),
    decreases deltas.len(),
{
    lemma_block_names();
    let id = s.tool->0.id;
    if deltas.len() == 0 {
        assert(s.tool->0.args + whole_input(deltas) =~= s.tool->0.args);
        assert(h.inputs + Seq::new(
            deltas.len(),
            |i: int| (id, deltas[i].get_or_null("delta"@).str_or("partial_json"@, ""@)),
        ) =~= h.inputs);
        h
    } else {
        let first = deltas.drop_last();
        let v = deltas.last();
        assert(are_inputs(first)) by {
            assert forall|i: int| 0 <= i < first.len() implies delta_type(#[trigger] first[i])
                == "input_json_delta"@ && first[i].get_or_null("delta"@).str_at(
                "partial_json"@,
            ) is Some by {
                assert(first[i] == deltas[i]);
            }
        }
        assert(delta_type(deltas[deltas.len() - 1]) == "input_json_delta"@);
        let g = lemma_inputs(s, first, h, cut);
        let t = handled(s, first);
        lemma_anthropic_start(t, g, "tool_use"@, cut || first.len() > 0);
        let r = lemma_block_delta(t.start(), v, g, "tool_use"@, cut || first.len() > 0);
        assert(r.pieces =~= h.pieces);
        assert(s.tool->0.args + whole_input(deltas) =~= t.tool->0.args + v.get_or_null(
            "delta"@,
        ).str_or("partial_json"@, ""@));
        assert(r.inputs =~= h.inputs + Seq::new(
            deltas.len(),
            |i: int| (id, deltas[i].get_or_null("delta"@).str_or("partial_json"@, ""@)),
        ));
        r
    }
}

/// Whether events that follow others tell of one call: its id and its name, its input piece by
/// piece, and the call with all of it.
pub open spec fn tool_told(
    before: Seq<Seq<char>>,
    after: Seq<Seq<char>>,
    id: Seq<char>,
    name: Seq<char>,
    deltas: Seq<JsonV>,
) -> bool {
    exists|h: Heard, r: Heard|
        #![trigger says(before, h), says(after, r)]
        says(before, h) && says(after, r) && r.right && r.added == h.added.push((id, name))
            && r.calls == h.calls.push((id, name, whole_input(deltas))) && r.inputs == h.inputs
            + Seq::new(
            deltas.len(),
            |i: int| (id, deltas[i].get_or_null("delta"@).str_or("partial_json"@, ""@)),
        )
}

/// A tool of an Anthropic stream comes out of the Responses stream made from it whole: it is
/// announced with its id and its name, every piece of its input comes as it is and in order,
/// and when its block stops the call is done with all of its input.
pub proof fn lemma_anthropic_tool_told(
    model: Seq<char>,
    before: Seq<Seq<char>>,
    start: JsonV,
    deltas: Seq<JsonV>,
    stop: JsonV,
)
    requires
        goes_on(before),
        in_place(values_of(before)),
        start.str_at("type"@) == Some("content_block_start"@),
        start.get_or_null("content_block"@).str_at("type"@) == Some("tool_use"@),
        are_inputs(deltas),
        stop.str_at("type"@) == Some("content_block_stop"@),
    ensures
        ({
            let s = sse::read_lines(AnthropicToResponses::new(model), before);
            let t = s.handle("content_block_start"@, start);
            let u = handled(t, deltas).handle("content_block_stop"@, stop);
            let block = start.get_or_null("content_block"@);
            tool_told(
                s.events.out,
                u.events.out,
                block.str_or("id"@, ""@),
                block.str_or("name"@, ""@),
                deltas,
            )
        }),
{
    lemma_block_names();
    let vs = values_of(before);
    lemma_handled(AnthropicToResponses::new(model), before);
    let h = lemma_anthropic_values(model, vs);
    let s = sse::read_lines(AnthropicToResponses::new(model), before);
    let kind = block_type(vs);
    let cut = is_cut(vs);
    lemma_anthropic_start(s, h, kind, cut);
    let g = lemma_block_start(s.start(), start, h, kind, cut);
    let t = s.handle("content_block_start"@, start);
    let f = lemma_inputs(t, deltas, g, false);
    let u = handled(t, deltas);
    lemma_anthropic_start(u, f, "tool_use"@, deltas.len() > 0);
    let w = u.start();
    let e = lemma_close_current(w, f, "tool_use"@, deltas.len() > 0);
    let r = lemma_close_tool(w.close_current(), e, "tool_use"@, true);
    assert(t.tool->0.args + whole_input(deltas) =~= whole_input(deltas));
    assert(says(s.events.out, h));
    assert(says(u.handle("content_block_stop"@, stop).events.out, r));
}

} // verus!
