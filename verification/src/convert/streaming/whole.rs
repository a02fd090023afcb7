//! That what a stream says comes out of the Anthropic stream made from it whole and in order.

use vstd::prelude::*;

use super::anthropic_events;
use super::anthropic_events::{Block, Message};
use super::chat_to_anthropic;
use super::chat_to_anthropic::ChatToAnthropic;
use super::responses_to_anthropic;
use super::responses_to_anthropic::ResponsesToAnthropic;
use super::sse;
use super::sse::LineReader;
use crate::convert::responses::to_anthropic;
use crate::json::{self, JsonV};
use crate::keys;
use crate::seqs;
use crate::text;

verus! {

/// A piece of what a model says.
pub enum Piece {
    Thinking(Seq<char>),
    Text(Seq<char>),
    /// Of the input of a tool.
    Input(Seq<char>),
}

/// The delta that holds a piece.
pub open spec fn piece_delta(p: Piece) -> JsonV {
    match p {
        Piece::Thinking(t) => anthropic_events::delta_v("thinking_delta"@, "thinking"@, t),
        Piece::Text(t) => anthropic_events::delta_v("text_delta"@, "text"@, t),
        Piece::Input(t) => anthropic_events::delta_v("input_json_delta"@, "partial_json"@, t),
    }
}

/// Whether an event adds to a block.
pub open spec fn is_delta(e: Seq<char>) -> bool {
    text::starts(e, "event: content_block_delta\n"@)
}

/// The events that add to a block.
pub open spec fn deltas(out: Seq<Seq<char>>) -> Seq<Seq<char>>
    decreases out.len(),
{
    if out.len() == 0 {
        Seq::empty()
    } else if is_delta(out.last()) {
        deltas(out.drop_last()).push(out.last())
    } else {
        deltas(out.drop_last())
    }
}

/// Whether a delta adds a piece, and nothing else.
pub open spec fn adds(delta: JsonV, p: Piece) -> bool {
    match p {
        Piece::Thinking(t) => {
            &&& delta.str_at("type"@) == Some("thinking_delta"@)
            &&& delta.str_at("thinking"@) == Some(t)
            &&& delta.get("text"@) is None
            &&& delta.get("partial_json"@) is None
        },
        Piece::Text(t) => {
            &&& delta.str_at("type"@) == Some("text_delta"@)
            &&& delta.str_at("text"@) == Some(t)
            &&& delta.get("thinking"@) is None
            &&& delta.get("partial_json"@) is None
        },
        Piece::Input(t) => {
            &&& delta.str_at("type"@) == Some("input_json_delta"@)
            &&& delta.str_at("partial_json"@) == Some(t)
            &&& delta.get("text"@) is None
            &&& delta.get("thinking"@) is None
        },
    }
}

/// Whether an event adds a piece, and nothing else, to a block.
pub open spec fn carries(e: Seq<char>, p: Piece) -> bool {
    exists|v: JsonV|
        {
            &&& e == "event: content_block_delta"@ + "\ndata: "@ + #[trigger] json::wire::json_text(
                v,
            ) + "\n\n"@
            &&& v.str_at("type"@) == Some("content_block_delta"@)
            &&& v.u64_at("index"@) is Some
            &&& adds(v.get_or_null("delta"@), p)
        }
}

/// Whether the events that add to blocks are those of pieces, one for each, in their order.
pub open spec fn tells(out: Seq<Seq<char>>, pieces: Seq<Piece>) -> bool {
    deltas(out).len() == pieces.len() && forall|i: int|
        0 <= i < pieces.len() ==> carries(#[trigger] deltas(out)[i], pieces[i])
}

/// One piece, where it is not empty.
pub open spec fn text_piece(t: Seq<char>) -> Seq<Piece> {
    if t.len() > 0 {
        seq![Piece::Text(t)]
    } else {
        Seq::empty()
    }
}

pub open spec fn thinking_piece(t: Seq<char>) -> Seq<Piece> {
    if t.len() > 0 {
        seq![Piece::Thinking(t)]
    } else {
        Seq::empty()
    }
}

pub open spec fn input_piece(t: Seq<char>) -> Seq<Piece> {
    if t.len() > 0 {
        seq![Piece::Input(t)]
    } else {
        Seq::empty()
    }
}

/// What a tool call of a delta says.
pub open spec fn call_piece_fn() -> spec_fn(JsonV) -> Seq<Piece> {
    |tc: JsonV| input_piece(tc.get_or_null("function"@).str_or("arguments"@, ""@))
}

/// What a delta of a chat says: reasoning, then text, then the arguments of calls.
pub open spec fn delta_pieces(delta: Option<JsonV>) -> Seq<Piece> {
    thinking_piece(
        json::text_or(json::str_of_v(json::at_v(delta, "reasoning_content"@)), ""@),
    ) + text_piece(json::text_or(json::str_of_v(json::at_v(delta, "content"@)), ""@))
        + match json::array_of_v(json::at_v(delta, "tool_calls"@)) {
        Some(tcs) => seqs::flat(tcs, call_piece_fn()),
        None => Seq::empty(),
    }
}

/// What a line of a chat stream says.
pub open spec fn chat_pieces(l: Seq<char>) -> Seq<Piece> {
    let t = text::trimmed(l);
    if t == "data: [DONE]"@ {
        Seq::empty()
    } else {
        match sse::exact_data_of(t) {
            Some(d) => match json::wire::json_of_text(d) {
                Some(chunk) => match to_anthropic::first_choice(chunk) {
                    Some(choice) => delta_pieces(choice.get("delta"@)),
                    None => Seq::empty(),
                },
                None => Seq::empty(),
            },
            None => Seq::empty(),
        }
    }
}

pub open spec fn chat_pieces_fn() -> spec_fn(Seq<char>) -> Seq<Piece> {
    |l: Seq<char>| chat_pieces(l)
}

/// What an event of a Responses stream says.
pub open spec fn event_pieces(e: JsonV) -> Seq<Piece> {
    let kind = e.str_or("type"@, ""@);
    let delta = e.str_or("delta"@, ""@);
    if kind == "response.output_text.delta"@ {
        text_piece(delta)
    } else if kind == "response.function_call_arguments.delta"@ {
        input_piece(delta)
    } else if kind == "response.reasoning_summary_text.delta"@ {
        thinking_piece(delta)
    } else {
        Seq::empty()
    }
}

/// What a line of a Responses stream says.
pub open spec fn responses_pieces(l: Seq<char>) -> Seq<Piece> {
    match sse::exact_data_of(text::trimmed(l)) {
        Some(d) => if d == "[DONE]"@ {
            Seq::empty()
        } else {
            match json::wire::json_of_text(d) {
                Some(e) => event_pieces(e),
                None => Seq::empty(),
            }
        },
        None => Seq::empty(),
    }
}

pub open spec fn responses_pieces_fn() -> spec_fn(Seq<char>) -> Seq<Piece> {
    |l: Seq<char>| responses_pieces(l)
}

proof fn lemma_kinds(v: JsonV, index: u32)
    ensures
        is_delta(sse::event_text("content_block_delta"@, v)),
        !is_delta(sse::event_text("content_block_start"@, v)),
        !is_delta(sse::event_text("message_start"@, v)),
        !is_delta(sse::event_text("message_delta"@, v)),
        !is_delta(anthropic_events::block_stop_text(index)),
        !is_delta("event: message_stop\ndata: {\"type\":\"message_stop\"}\n\n"@),
{
    reveal_strlit("event: ");
    reveal_strlit("\ndata: ");
    reveal_strlit("content_block_start");
    reveal_strlit("content_block_delta");
    reveal_strlit("message_start");
    reveal_strlit("message_delta");
    reveal_strlit("event: content_block_delta\n");
    reveal_strlit(
        "event: content_block_stop\ndata: {\"type\":\"content_block_stop\",\"index\":",
    );
    reveal_strlit("event: message_stop\ndata: {\"type\":\"message_stop\"}\n\n");
    let a = "event: content_block_delta\n"@;
    assert(a.len() == 27 && a[7] == 'c' && a[21] == 'd');
    let d = sse::event_text("content_block_delta"@, v);
    assert(d.take(27) =~= a);
    let s = sse::event_text("content_block_start"@, v);
    assert(s.take(27)[21] == 's');
    let ms = sse::event_text("message_start"@, v);
    assert(ms.len() >= 27 ==> ms.take(27)[7] == 'm');
    let md = sse::event_text("message_delta"@, v);
    assert(md.len() >= 27 ==> md.take(27)[7] == 'm');
    let stop = anthropic_events::block_stop_text(index);
    assert(stop.take(27)[21] == 's');
    let end = "event: message_stop\ndata: {\"type\":\"message_stop\"}\n\n"@;
    assert(end.take(27)[7] == 'm');
}

proof fn lemma_other(m: Message, e: Seq<char>, ps: Seq<Piece>)
    requires
        tells(m.out, ps),
        !is_delta(e),
    ensures
        tells(m.emit(e).out, ps),
{
    assert(m.emit(e).out.drop_last() =~= m.out);
}

proof fn lemma_piece(m: Message, index: u32, p: Piece, ps: Seq<Piece>)
    requires
        tells(m.out, ps),
    ensures
        tells(m.delta_at(index, piece_delta(p)).out, ps.push(p)),
{
    let v = anthropic_events::block_delta_v(index, piece_delta(p));
    let e = sse::event_text("content_block_delta"@, v);
    lemma_kinds(v, 0);
    let out = m.emit(e).out;
    assert(out.drop_last() =~= m.out);
    assert(deltas(out) == deltas(m.out).push(e));
    keys::lemma_anthropic_event_keys();
    assert("event: "@ + "content_block_delta"@ =~= "event: content_block_delta"@) by {
        reveal_strlit("event: ");
        reveal_strlit("content_block_delta");
        reveal_strlit("event: content_block_delta");
    }
    assert(adds(v.get_or_null("delta"@), p));
    assert(e == "event: content_block_delta"@ + "\ndata: "@ + json::wire::json_text(v) + "\n\n"@);
    assert(carries(e, p));
    let qs = ps.push(p);
    assert forall|i: int| 0 <= i < qs.len() implies carries(#[trigger] deltas(out)[i], qs[i]) by {
        if i < ps.len() {
            assert(deltas(out)[i] == deltas(m.out)[i]);
        }
    }
}

proof fn lemma_close(m: Message, ps: Seq<Piece>)
    requires
        tells(m.out, ps),
    ensures
        tells(m.close().out, ps),
{
    lemma_kinds(JsonV::Null, m.index);
    lemma_other(m, anthropic_events::block_stop_text(m.index), ps);
}

proof fn lemma_start_block(m: Message, block: JsonV, ps: Seq<Piece>)
    requires
        tells(m.out, ps),
    ensures
        tells(m.close().start_block(block).out, ps),
{
    lemma_close(m, ps);
    let c = m.close();
    let v = anthropic_events::block_start_v(c.index, block);
    lemma_kinds(v, 0);
    lemma_other(c, sse::event_text("content_block_start"@, v), ps);
}

proof fn lemma_start(m: Message, ps: Seq<Piece>)
    requires
        tells(m.out, ps),
    ensures
        tells(m.start().out, ps),
{
    let v = anthropic_events::message_start_v(m.id, m.model, m.input_tokens);
    lemma_kinds(v, 0);
    lemma_other(Message { started: true, ..m }, sse::event_text("message_start"@, v), ps);
}

proof fn lemma_finish(m: Message, reason: Seq<char>, ps: Seq<Piece>)
    requires
        tells(m.out, ps),
    ensures
        tells(m.finish(reason).out, ps),
{
    let v = anthropic_events::message_delta_v(reason, m.output_tokens);
    lemma_kinds(v, 0);
    let m1 = Message { finished: true, ..m };
    let e = sse::event_text("message_delta"@, v);
    lemma_other(m1, e, ps);
    lemma_other(
        m1.emit(e),
        "event: message_stop\ndata: {\"type\":\"message_stop\"}\n\n"@,
        ps,
    );
}

proof fn lemma_think(m: Message, t: Seq<char>, ps: Seq<Piece>)
    requires
        tells(m.out, ps),
    ensures
        tells(m.think(t).out, ps.push(Piece::Thinking(t))),
{
    let block = anthropic_events::empty_thinking_v();
    lemma_start_block(m, block, ps);
    let b = m.begin(Block::Thinking, block);
    lemma_piece(b, b.index, Piece::Thinking(t), ps);
}

proof fn lemma_say(m: Message, t: Seq<char>, ps: Seq<Piece>)
    requires
        tells(m.out, ps),
    ensures
        tells(m.say(t).out, ps.push(Piece::Text(t))),
{
    let block = crate::convert::parts::text_block_v("text"@, ""@);
    lemma_start_block(m, block, ps);
    let b = m.begin(Block::Text, block);
    lemma_piece(b, b.index, Piece::Text(t), ps);
}

proof fn lemma_input(m: Message, place: usize, t: Seq<char>, ps: Seq<Piece>)
    requires
        tells(m.out, ps),
    ensures
        tells(m.tool_input(place, t).out, ps.push(Piece::Input(t))),
{
    lemma_piece(m, m.tool_index(place), Piece::Input(t), ps);
}

proof fn lemma_tool_call(s: ChatToAnthropic, tc: JsonV, ps: Seq<Piece>)
    requires
        tells(s.message.out, ps),
    ensures
        tells(s.tool_call(tc).message.out, ps + call_piece_fn()(tc)),
{
    reveal_strlit("");
    let block = crate::convert::requests::chat_anthropic::tool_use_v(
        tc.str_or("id"@, ""@),
        crate::convert::requests::chat_anthropic::call_name(tc),
        json::jobj(),
    );
    lemma_start_block(s.message, block, ps);
    let o = s.open_tool(tc);
    assert(tells(o.message.out, ps));
    let t = tc.get_or_null("function"@).str_or("arguments"@, ""@);
    if t.len() > 0 {
        lemma_input(o.message, chat_to_anthropic::call_place(tc), t, ps);
        assert(ps + call_piece_fn()(tc) =~= ps.push(Piece::Input(t)));
    } else {
        assert(ps + call_piece_fn()(tc) =~= ps);
    }
}

proof fn lemma_tool_calls(s: ChatToAnthropic, tcs: Seq<JsonV>, ps: Seq<Piece>)
    requires
        tells(s.message.out, ps),
    ensures
        tells(s.tool_calls(tcs).message.out, ps + seqs::flat(tcs, call_piece_fn())),
    decreases tcs.len(),
{
    if tcs.len() == 0 {
        assert(ps + seqs::flat(tcs, call_piece_fn()) =~= ps);
    } else {
        lemma_tool_calls(s, tcs.drop_last(), ps);
        let before = ps + seqs::flat(tcs.drop_last(), call_piece_fn());
        lemma_tool_call(s.tool_calls(tcs.drop_last()), tcs.last(), before);
        assert(before + call_piece_fn()(tcs.last()) =~= ps + seqs::flat(tcs, call_piece_fn()));
    }
}

proof fn lemma_delta(s: ChatToAnthropic, delta: Option<JsonV>, ps: Seq<Piece>)
    requires
        tells(s.message.out, ps),
    ensures
        tells(s.reasoning(delta).content(delta).calls(delta).message.out, ps + delta_pieces(delta)),
{
    reveal_strlit("");
    let thought = json::text_or(json::str_of_v(json::at_v(delta, "reasoning_content"@)), ""@);
    let said = json::text_or(json::str_of_v(json::at_v(delta, "content"@)), ""@);
    lemma_think(s.message, thought, ps);
    lemma_close(s.message, ps);
    let s1 = s.reasoning(delta);
    let ps1 = ps + thinking_piece(thought);
    assert(ps1 =~= if thought.len() > 0 {
        ps.push(Piece::Thinking(thought))
    } else {
        ps
    });
    assert(tells(s1.message.out, ps1));
    lemma_say(s1.message, said, ps1);
    let s2 = s1.content(delta);
    let ps2 = ps1 + text_piece(said);
    assert(ps2 =~= if said.len() > 0 {
        ps1.push(Piece::Text(said))
    } else {
        ps1
    });
    assert(tells(s2.message.out, ps2));
    match json::array_of_v(json::at_v(delta, "tool_calls"@)) {
        Some(tcs) => {
            lemma_tool_calls(s2, tcs, ps2);
            assert(ps2 + seqs::flat(tcs, call_piece_fn()) =~= ps + delta_pieces(delta));
        },
        None => {
            assert(ps2 =~= ps + delta_pieces(delta));
        },
    }
}

proof fn lemma_chunk(s: ChatToAnthropic, chunk: JsonV, ps: Seq<Piece>)
    requires
        tells(s.message.out, ps),
    ensures
        tells(
            s.chunk(chunk).message.out,
            ps + match to_anthropic::first_choice(chunk) {
                Some(choice) => delta_pieces(choice.get("delta"@)),
                None => Seq::empty(),
            },
        ),
{
    let m = match chunk.get("usage"@) {
        Some(u) => Message {
            input_tokens: u.u64_or("prompt_tokens"@, 0),
            output_tokens: u.u64_or("completion_tokens"@, s.message.output_tokens),
            ..s.message
        },
        None => s.message,
    };
    lemma_start(m, ps);
    let s1 = s.start(chunk);
    assert(tells(s1.message.out, ps));
    match to_anthropic::first_choice(chunk) {
        Some(choice) => {
            let delta = choice.get("delta"@);
            lemma_delta(s1, delta, ps);
            let s2 = s1.reasoning(delta).content(delta).calls(delta);
            let qs = ps + delta_pieces(delta);
            match choice.str_at("finish_reason"@) {
                Some(r) => {
                    lemma_close(s2.message, qs);
                    let c = s2.message.close();
                    let c1 = match chunk.get("usage"@) {
                        Some(u) => Message {
                            output_tokens: u.u64_or("completion_tokens"@, c.output_tokens),
                            ..c
                        },
                        None => c,
                    };
                    lemma_finish(c1, to_anthropic::stop_reason_of_finish(Some(r)), qs);
                    lemma_finish(c1, "end_turn"@, qs);
                },
                None => {},
            }
        },
        None => {
            assert(ps + Seq::<Piece>::empty() =~= ps);
        },
    }
}

proof fn lemma_chat_line(s: ChatToAnthropic, l: Seq<char>, ps: Seq<Piece>)
    requires
        tells(s.message.out, ps),
    ensures
        tells(s.line(l).message.out, ps + chat_pieces(l)),
{
    assert(ps + Seq::<Piece>::empty() =~= ps);
    let t = text::trimmed(l);
    if t == "data: [DONE]"@ {
        lemma_close(s.message, ps);
        lemma_finish(s.message.close(), "end_turn"@, ps);
    } else {
        match sse::exact_data_of(t) {
            Some(d) => match json::wire::json_of_text(d) {
                Some(chunk) => {
                    lemma_chunk(s, chunk, ps);
                },
                None => {},
            },
            None => {},
        }
    }
}

proof fn lemma_chat_lines(s: ChatToAnthropic, lines: Seq<Seq<char>>)
    requires
        tells(s.message.out, Seq::empty()),
    ensures
        tells(
            sse::read_lines(s, lines).message.out,
            seqs::flat(lines, chat_pieces_fn()),
        ),
    decreases lines.len(),
{
    if lines.len() > 0 {
        lemma_chat_lines(s, lines.drop_last());
        lemma_chat_line(
            sse::read_lines(s, lines.drop_last()),
            lines.last(),
            seqs::flat(lines.drop_last(), chat_pieces_fn()),
        );
    }
}

/// The reasoning, the texts and the arguments of a Chat Completions stream come out of the
/// Anthropic stream whole and in order: what adds to blocks there is one event for each piece
/// that came, with that piece, and nothing else.
pub proof fn lemma_chat_comes_whole(id: Seq<char>, model: Seq<char>, lines: Seq<Seq<char>>)
    ensures
        tells(
            sse::read_lines(ChatToAnthropic::new(id, model), lines).message.out,
            seqs::flat(lines, chat_pieces_fn()),
        ),
{
    lemma_chat_lines(ChatToAnthropic::new(id, model), lines);
}

proof fn lemma_responses_event(s: ResponsesToAnthropic, e: JsonV, ps: Seq<Piece>)
    requires
        tells(s.message.out, ps),
    ensures
        tells(s.event(e).message.out, ps + event_pieces(e)),
{
    let kind = e.str_or("type"@, ""@);
    let delta = e.str_or("delta"@, ""@);
    assert(ps + Seq::<Piece>::empty() =~= ps);
    assert(ps + seq![Piece::Text(delta)] =~= ps.push(Piece::Text(delta)));
    assert(ps + seq![Piece::Input(delta)] =~= ps.push(Piece::Input(delta)));
    assert(ps + seq![Piece::Thinking(delta)] =~= ps.push(Piece::Thinking(delta)));
    lemma_other_kinds();
    assert(says(kind) || event_pieces(e) == Seq::<Piece>::empty());
    lemma_close(s.message, ps);
    lemma_say(s.message, delta, ps);
    lemma_think(s.message, delta, ps);
    lemma_input(s.message, responses_to_anthropic::item_place(e), delta, ps);
    if kind == "response.created"@ || kind == "response.in_progress"@ {
        let m = match e.get("response"@) {
            Some(resp) => Message {
                id: resp.str_or("id"@, s.message.id),
                input_tokens: match resp.get("usage"@) {
                    Some(u) => u.u64_or("input_tokens"@, 0),
                    None => s.message.input_tokens,
                },
                ..s.message
            },
            None => s.message,
        };
        lemma_start(m, ps);
    } else if kind == "response.output_item.added"@ {
        let item = e.get_or_null("item"@);
        lemma_start_block(
            s.message,
            crate::convert::requests::chat_anthropic::tool_use_v(
                item.str_or("call_id"@, ""@),
                item.str_or("name"@, ""@),
                json::jobj(),
            ),
            ps,
        );
    } else if kind == "response.completed"@ {
        let m = match e.get_or_null("response"@).get("usage"@) {
            Some(u) => Message {
                output_tokens: u.u64_or("output_tokens"@, s.message.output_tokens),
                ..s.message
            },
            None => s.message,
        };
        lemma_close(m, ps);
        lemma_finish(m.close(), responses_to_anthropic::stop_reason_of_event(e), ps);
    }
}

/// The kinds of events that say something are no others.
proof fn lemma_other_kinds()
    ensures
        forall|k: Seq<char>|
            (k == "response.created"@ || k == "response.in_progress"@ || k
                == "response.output_item.added"@ || k == "response.completed"@ || k
                == "response.output_text.done"@ || k == "response.output_item.done"@ || k
                == "response.reasoning_summary_text.done"@)
                ==> #[trigger] says(k) == false,
{
    reveal_strlit("response.created");
    reveal_strlit("response.in_progress");
    reveal_strlit("response.output_item.added");
    reveal_strlit("response.completed");
    reveal_strlit("response.output_text.done");
    reveal_strlit("response.output_item.done");
    reveal_strlit("response.reasoning_summary_text.done");
    reveal_strlit("response.output_text.delta");
    reveal_strlit("response.function_call_arguments.delta");
    reveal_strlit("response.reasoning_summary_text.delta");
    assert("response.output_text.delta"@.len() == 26 && "response.output_text.delta"@[16] == 't');
    assert("response.output_item.added"@.len() == 26 && "response.output_item.added"@[16] == 'i');
    assert("response.created"@.len() == 16 && "response.in_progress"@.len() == 20);
    assert("response.completed"@.len() == 18 && "response.output_text.done"@.len() == 25);
    assert("response.output_item.done"@.len() == 25);
    assert("response.reasoning_summary_text.done"@.len() == 36);
    assert("response.function_call_arguments.delta"@.len() == 38);
    assert("response.reasoning_summary_text.delta"@.len() == 37);
}

/// Whether an event of a kind says something.
spec fn says(kind: Seq<char>) -> bool {
    kind == "response.output_text.delta"@ || kind == "response.function_call_arguments.delta"@
        || kind == "response.reasoning_summary_text.delta"@
}

proof fn lemma_responses_line(s: ResponsesToAnthropic, l: Seq<char>, ps: Seq<Piece>)
    requires
        tells(s.message.out, ps),
    ensures
        tells(s.line(l).message.out, ps + responses_pieces(l)),
{
    assert(ps + Seq::<Piece>::empty() =~= ps);
    match sse::exact_data_of(text::trimmed(l)) {
        Some(d) => {
            lemma_close(s.message, ps);
            lemma_finish(s.message.close(), "end_turn"@, ps);
            match json::wire::json_of_text(d) {
                Some(e) => {
                    lemma_responses_event(s, e, ps);
                },
                None => {},
            }
        },
        None => {},
    }
}

proof fn lemma_responses_lines(s: ResponsesToAnthropic, lines: Seq<Seq<char>>)
    requires
        tells(s.message.out, Seq::empty()),
    ensures
        tells(
            sse::read_lines(s, lines).message.out,
            seqs::flat(lines, responses_pieces_fn()),
        ),
    decreases lines.len(),
{
    if lines.len() > 0 {
        lemma_responses_lines(s, lines.drop_last());
        lemma_responses_line(
            sse::read_lines(s, lines.drop_last()),
            lines.last(),
            seqs::flat(lines.drop_last(), responses_pieces_fn()),
        );
    }
}

/// The reasoning, the texts and the arguments of a Responses stream come out of the Anthropic
/// stream whole and in order, one event for each piece that came.
pub proof fn lemma_responses_comes_whole(id: Seq<char>, model: Seq<char>, lines: Seq<Seq<char>>)
    ensures
        tells(
            sse::read_lines(ResponsesToAnthropic::new(id, model), lines).message.out,
            seqs::flat(lines, responses_pieces_fn()),
        ),
{
    lemma_responses_lines(ResponsesToAnthropic::new(id, model), lines);
}

} // verus!
