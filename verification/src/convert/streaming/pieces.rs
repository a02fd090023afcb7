//! That what comes out of a conversion does not depend on the pieces in which the stream
//! comes in.

use vstd::prelude::*;

use super::anthropic_events::Message;
use super::anthropic_to_chat::AnthropicToChat;
use super::anthropic_to_responses::AnthropicToResponses;
use super::chat_chunks;
use super::chat_chunks::{ChatOut, EventLine};
use super::chat_to_anthropic;
use super::chat_to_anthropic::ChatToAnthropic;
use super::chat_to_responses;
use super::chat_to_responses::{ChatToResponses, OpenCall};
use super::response_events::Events;
use super::responses_to_anthropic::ResponsesToAnthropic;
use super::responses_to_chat::ResponsesToChat;
use super::sse;
use super::sse::{LineReader, Reading};
use crate::convert::responses::to_anthropic;
use crate::json::{self, JsonV};
use crate::text;

verus! {

/// A conversion that has events behind it, of which it takes no notice.
pub trait Emitter: LineReader {
    /// The events so far.
    spec fn events(self) -> Seq<Seq<char>>;

    /// The state with the events taken out.
    spec fn taken(self) -> Self;

    /// The state with events before those that it has.
    spec fn after(self, before: Seq<Seq<char>>) -> Self;

    /// Events can be taken out and put back.
    proof fn lemma_events(self, before: Seq<Seq<char>>)
        ensures
            self.after(before).events() == before + self.events(),
            self.after(before).taken() == self.taken(),
            self.taken().after(self.events()) == self,
            self.taken().events() == Seq::<Seq<char>>::empty(),
    ;

    /// A line is read in the same way, whatever events came before.
    proof fn lemma_line(self, before: Seq<Seq<char>>, l: Seq<char>)
        ensures
            self.after(before).line(l) == self.line(l).after(before),
    ;
}

proof fn lemma_lines<M: Emitter>(m: M, before: Seq<Seq<char>>, ls: Seq<Seq<char>>)
    ensures
        sse::read_lines(m.after(before), ls) == sse::read_lines(m, ls).after(before),
    decreases ls.len(),
{
    if ls.len() > 0 {
        lemma_lines(m, before, ls.drop_last());
        sse::read_lines(m, ls.drop_last()).lemma_line(before, ls.last());
    }
}

/// A conversion in the middle of a stream with its events taken out.
pub open spec fn emptied<M: Emitter>(r: Reading<M>) -> Reading<M> {
    Reading { machine: r.machine.taken(), ..r }
}

/// However a stream comes in pieces, what comes out is the same: the events of a piece, and
/// then those of the next, are the events of both in one, and the conversion goes on from
/// the same state.
pub proof fn lemma_pieces<M: Emitter>(r: Reading<M>, a: Seq<char>, b: Seq<char>)
    ensures
        sse::fed(r, a + b).machine.events() == sse::fed(r, a).machine.events() + sse::fed(
            emptied(sse::fed(r, a)),
            b,
        ).machine.events(),
        emptied(sse::fed(r, a + b)) == emptied(sse::fed(emptied(sse::fed(r, a)), b)),
{
    sse::lemma_fed_add(r, a, b);
    let f = sse::fed(r, a);
    let g = sse::fed(emptied(f), b);
    f.machine.lemma_events(f.machine.events());
    lemma_lines(f.machine.taken(), f.machine.events(), sse::cut(f.rest, b).lines);
    g.machine.lemma_events(f.machine.events());
    assert(sse::fed(f, b).machine == g.machine.after(f.machine.events()));
}

/// The bytes of a stream, of all its chunks.
pub open spec fn whole(chunks: Seq<Seq<u8>>) -> Seq<u8>
    decreases chunks.len(),
{
    if chunks.len() == 0 {
        Seq::empty()
    } else {
        whole(chunks.drop_last()) + chunks.last()
    }
}

/// What comes out of a conversion for chunks one after the other, and where it stands then.
pub open spec fn fed_chunks<M: Emitter>(r: Reading<M>, chunks: Seq<Seq<u8>>) -> (
    Seq<Seq<char>>,
    Reading<M>,
)
    decreases chunks.len(),
{
    if chunks.len() == 0 {
        (Seq::empty(), r)
    } else {
        let before = fed_chunks(r, chunks.drop_last());
        let f = sse::fed(before.1, text::bytes_text(chunks.last()));
        (before.0 + f.machine.events(), emptied(f))
    }
}

/// Whether every chunk is UTF-8: no character is cut in two.
pub open spec fn all_utf8(chunks: Seq<Seq<u8>>) -> bool {
    forall|i: int| 0 <= i < chunks.len() ==> vstd::utf8::valid_utf8(#[trigger] chunks[i])
}

proof fn lemma_one_chunk<M: Emitter>(r: Reading<M>, chunks: Seq<Seq<u8>>)
    requires
        r.machine.events() == Seq::<Seq<char>>::empty(),
        all_utf8(chunks),
    ensures
        vstd::utf8::valid_utf8(whole(chunks)),
        fed_chunks(r, chunks).0 == sse::fed(r, text::bytes_text(whole(chunks))).machine.events(),
        emptied(fed_chunks(r, chunks).1) == emptied(
            sse::fed(r, text::bytes_text(whole(chunks))),
        ),
        chunks.len() > 0 ==> emptied(fed_chunks(r, chunks).1) == fed_chunks(r, chunks).1,
    decreases chunks.len(),
{
    if chunks.len() == 0 {
        assert(text::bytes_text(whole(chunks)) =~= Seq::<char>::empty());
    } else {
        let first = chunks.drop_last();
        let c = chunks.last();
        assert(vstd::utf8::valid_utf8(chunks[chunks.len() - 1]));
        assert forall|i: int| 0 <= i < first.len() implies vstd::utf8::valid_utf8(
            #[trigger] first[i],
        ) by {
            assert(first[i] == chunks[i]);
        }
        lemma_one_chunk(r, first);
        text::lemma_bytes_text_add(whole(first), c);
        let a = text::bytes_text(whole(first));
        let b = text::bytes_text(c);
        lemma_pieces(r, a, b);
        let f = sse::fed(fed_chunks(r, first).1, b);
        f.machine.lemma_events(Seq::empty());
        if first.len() == 0 {
            assert(a =~= Seq::<char>::empty());
            assert(a + b =~= b);
            assert(fed_chunks(r, chunks).0 =~= f.machine.events());
        }
        lemma_taken_twice(f);
    }
}

proof fn lemma_taken_twice<M: Emitter>(r: Reading<M>)
    ensures
        emptied(emptied(r)) == emptied(r),
{
    let m = r.machine;
    m.lemma_events(m.events());
    m.taken().lemma_events(m.events());
}

/// However the bytes of a stream are cut into chunks, with no character cut in two, the same
/// events come out in the same order, and the conversion goes on from the same state. The
/// conversion starts with no event that was not taken out.
pub proof fn lemma_chunks<M: Emitter>(r: Reading<M>, a: Seq<Seq<u8>>, b: Seq<Seq<u8>>)
    requires
        r.machine.events() == Seq::<Seq<char>>::empty(),
        all_utf8(a),
        all_utf8(b),
        whole(a) == whole(b),
    ensures
        fed_chunks(r, a).0 == fed_chunks(r, b).0,
        emptied(fed_chunks(r, a).1) == emptied(fed_chunks(r, b).1),
{
    lemma_one_chunk(r, a);
    lemma_one_chunk(r, b);
}

/// However the bytes of a stream of ASCII are cut into chunks, also inside of a line, the
/// same events come out in the same order.
pub proof fn lemma_ascii_chunks<M: Emitter>(r: Reading<M>, a: Seq<Seq<u8>>, b: Seq<Seq<u8>>)
    requires
        r.machine.events() == Seq::<Seq<char>>::empty(),
        forall|i: int, k: int| 0 <= i < a.len() && 0 <= k < a[i].len() ==> #[trigger] a[i][k] < 128,
        forall|i: int, k: int| 0 <= i < b.len() && 0 <= k < b[i].len() ==> #[trigger] b[i][k] < 128,
        whole(a) == whole(b),
    ensures
        fed_chunks(r, a).0 == fed_chunks(r, b).0,
        emptied(fed_chunks(r, a).1) == emptied(fed_chunks(r, b).1),
{
    assert forall|i: int| 0 <= i < a.len() implies vstd::utf8::valid_utf8(#[trigger] a[i]) by {
        text::lemma_ascii_valid(a[i]);
    }
    assert forall|i: int| 0 <= i < b.len() implies vstd::utf8::valid_utf8(#[trigger] b[i]) by {
        text::lemma_ascii_valid(b[i]);
    }
    lemma_chunks(r, a, b);
}

// ---- Anthropic messages ----

spec fn message_after(m: Message, b: Seq<Seq<char>>) -> Message {
    Message { out: b + m.out, ..m }
}

proof fn lemma_message(m: Message, b: Seq<Seq<char>>, k: usize, t: Seq<char>, u: Seq<char>)
    ensures
        message_after(m, b).start() == message_after(m.start(), b),
        message_after(m, b).close() == message_after(m.close(), b),
        message_after(m, b).say(t) == message_after(m.say(t), b),
        message_after(m, b).tool_input(k, t) == message_after(m.tool_input(k, t), b),
        message_after(m, b).begin_tool(k, t, u) == message_after(m.begin_tool(k, t, u), b),
        message_after(m, b).finish(t) == message_after(m.finish(t), b),
        message_after(m, b).close_thinking() == message_after(m.close_thinking(), b),
        message_after(m, b).close_text() == message_after(m.close_text(), b),
        message_after(m, b).close_tool(Some(k)) == message_after(m.close_tool(Some(k)), b),
        message_after(m, b).close_tool(None) == message_after(m.close_tool(None), b),
        message_after(m, b).start_tool(k, t, u) == message_after(m.start_tool(k, t, u), b),
        message_after(m, b).think(t) == message_after(m.think(t), b),
{
    assert(message_after(m, b).start() =~= message_after(m.start(), b));
    assert(message_after(m, b).close() =~= message_after(m.close(), b));
    assert(message_after(m, b).say(t) =~= message_after(m.say(t), b));
    assert(message_after(m, b).tool_input(k, t) =~= message_after(m.tool_input(k, t), b));
    assert(message_after(m, b).begin_tool(k, t, u) =~= message_after(m.begin_tool(k, t, u), b));
    assert(message_after(m, b).finish(t) =~= message_after(m.finish(t), b));
    assert(message_after(m, b).close_thinking() =~= message_after(m.close_thinking(), b));
    assert(message_after(m, b).close_text() =~= message_after(m.close_text(), b));
    assert(message_after(m, b).close_tool(Some(k)) =~= message_after(m.close_tool(Some(k)), b));
    assert(message_after(m, b).close_tool(None) =~= message_after(m.close_tool(None), b));
    assert(message_after(m, b).start_tool(k, t, u) =~= message_after(m.start_tool(k, t, u), b));
    assert(message_after(m, b).think(t) =~= message_after(m.think(t), b));
}

// ---- from a Chat Completions stream to an Anthropic one ----

spec fn chat_after(s: ChatToAnthropic, b: Seq<Seq<char>>) -> ChatToAnthropic {
    ChatToAnthropic { message: message_after(s.message, b), ..s }
}

proof fn lemma_chat_tool_call_after(s: ChatToAnthropic, b: Seq<Seq<char>>, tc: JsonV)
    ensures
        chat_after(s, b).tool_call(tc) == chat_after(s.tool_call(tc), b),
{
    let e = Seq::<char>::empty();
    let id = tc.str_or("id"@, ""@);
    let name = crate::convert::requests::chat_anthropic::call_name(tc);
    lemma_message(s.message, b, chat_to_anthropic::call_place(tc), id, name);
    assert(chat_after(s, b).open_tool(tc) == chat_after(s.open_tool(tc), b));
    let o = s.open_tool(tc);
    match tc.get_or_null("function"@).str_at("arguments"@) {
        Some(t) => {
            lemma_message(o.message, b, chat_to_anthropic::call_place(tc), t, e);
        },
        None => {},
    }
}

proof fn lemma_chat_tool_calls_after(s: ChatToAnthropic, b: Seq<Seq<char>>, tcs: Seq<JsonV>)
    ensures
        chat_after(s, b).tool_calls(tcs) == chat_after(s.tool_calls(tcs), b),
    decreases tcs.len(),
{
    if tcs.len() > 0 {
        lemma_chat_tool_calls_after(s, b, tcs.drop_last());
        lemma_chat_tool_call_after(s.tool_calls(tcs.drop_last()), b, tcs.last());
    }
}

proof fn lemma_chat_start_after(s: ChatToAnthropic, b: Seq<Seq<char>>, chunk: JsonV)
    ensures
        chat_after(s, b).start(chunk) == chat_after(s.start(chunk), b),
{
    let e = Seq::<char>::empty();
    lemma_message(s.message, b, 0, e, e);
    match chunk.get("usage"@) {
        Some(u) => {
            let m = Message {
                input_tokens: u.u64_or("prompt_tokens"@, 0),
                output_tokens: u.u64_or("completion_tokens"@, s.message.output_tokens),
                ..s.message
            };
            lemma_message(m, b, 0, e, e);
        },
        None => {},
    }
}

proof fn lemma_chat_reasoning_after(s: ChatToAnthropic, b: Seq<Seq<char>>, delta: Option<JsonV>)
    ensures
        chat_after(s, b).reasoning(delta) == chat_after(s.reasoning(delta), b),
{
    let e = Seq::<char>::empty();
    match json::str_of_v(json::at_v(delta, "reasoning_content"@)) {
        Some(t) => {
            lemma_message(s.message, b, 0, t, e);
        },
        None => {
            lemma_message(s.message, b, 0, e, e);
        },
    }
}

proof fn lemma_chat_content_after(s: ChatToAnthropic, b: Seq<Seq<char>>, delta: Option<JsonV>)
    ensures
        chat_after(s, b).content(delta) == chat_after(s.content(delta), b),
{
    match json::str_of_v(json::at_v(delta, "content"@)) {
        Some(t) => {
            lemma_message(s.message, b, 0, t, Seq::empty());
        },
        None => {},
    }
}

proof fn lemma_chat_finish_after(
    s: ChatToAnthropic,
    b: Seq<Seq<char>>,
    reason: Seq<char>,
    chunk: JsonV,
)
    ensures
        chat_after(s, b).finish(reason, chunk) == chat_after(s.finish(reason, chunk), b),
{
    let e = Seq::<char>::empty();
    lemma_message(s.message, b, 0, e, e);
    let m = s.message.close();
    let m1 = match chunk.get("usage"@) {
        Some(u) => Message {
            output_tokens: u.u64_or("completion_tokens"@, m.output_tokens),
            ..m
        },
        None => m,
    };
    lemma_message(m1, b, 0, to_anthropic::stop_reason_of_finish(Some(reason)), e);
    lemma_message(m1, b, 0, "end_turn"@, e);
}

proof fn lemma_chat_chunk_after(s: ChatToAnthropic, b: Seq<Seq<char>>, chunk: JsonV)
    ensures
        chat_after(s, b).chunk(chunk) == chat_after(s.chunk(chunk), b),
{
    lemma_chat_start_after(s, b, chunk);
    let s1 = s.start(chunk);
    match to_anthropic::first_choice(chunk) {
        Some(choice) => {
            let delta = choice.get("delta"@);
            lemma_chat_reasoning_after(s1, b, delta);
            let s2 = s1.reasoning(delta);
            lemma_chat_content_after(s2, b, delta);
            let s3 = s2.content(delta);
            match json::array_of_v(json::at_v(delta, "tool_calls"@)) {
                Some(tcs) => {
                    lemma_chat_tool_calls_after(s3, b, tcs);
                },
                None => {},
            }
            let s4 = s3.calls(delta);
            match choice.str_at("finish_reason"@) {
                Some(r) => {
                    lemma_chat_finish_after(s4, b, r, chunk);
                },
                None => {},
            }
        },
        None => {},
    }
}

impl Emitter for ChatToAnthropic {
    open spec fn events(self) -> Seq<Seq<char>> {
        self.message.out
    }

    open spec fn taken(self) -> ChatToAnthropic {
        ChatToAnthropic { message: Message { out: Seq::empty(), ..self.message }, ..self }
    }

    open spec fn after(self, before: Seq<Seq<char>>) -> ChatToAnthropic {
        ChatToAnthropic {
            message: Message { out: before + self.message.out, ..self.message },
            ..self
        }
    }

    proof fn lemma_events(self, before: Seq<Seq<char>>) {
        assert(self.taken().after(self.events()) =~= self);
    }

    proof fn lemma_line(self, before: Seq<Seq<char>>, l: Seq<char>) {
        assert(self.after(before) == chat_after(self, before));
        lemma_message(self.message, before, 0, Seq::empty(), Seq::empty());
        lemma_message(self.message.close(), before, 0, "end_turn"@, Seq::empty());
        match sse::exact_data_of(text::trimmed(l)) {
            Some(d) => match json::wire::json_of_text(d) {
                Some(chunk) => {
                    lemma_chat_chunk_after(self, before, chunk);
                },
                None => {},
            },
            None => {},
        }
    }
}

// ---- from a Responses stream to an Anthropic one ----

spec fn responses_after(s: ResponsesToAnthropic, b: Seq<Seq<char>>) -> ResponsesToAnthropic {
    ResponsesToAnthropic { message: message_after(s.message, b) }
}

proof fn lemma_responses_event_after(s: ResponsesToAnthropic, b: Seq<Seq<char>>, e: JsonV)
    ensures
        responses_after(s, b).event(e) == responses_after(s.event(e), b),
{
    let none = Seq::<char>::empty();
    let kind = e.str_or("type"@, ""@);
    let delta = e.str_or("delta"@, ""@);
    let place = super::responses_to_anthropic::item_place(e);
    lemma_message(s.message, b, place, delta, none);
    if kind == "response.created"@ || kind == "response.in_progress"@ {
        match e.get("response"@) {
            Some(resp) => {
                let m = Message {
                    id: resp.str_or("id"@, s.message.id),
                    input_tokens: match resp.get("usage"@) {
                        Some(u) => u.u64_or("input_tokens"@, 0),
                        None => s.message.input_tokens,
                    },
                    ..s.message
                };
                lemma_message(m, b, 0, none, none);
            },
            None => {},
        }
    } else if kind == "response.output_item.added"@ {
        let item = e.get_or_null("item"@);
        lemma_message(
            s.message,
            b,
            place,
            item.str_or("call_id"@, ""@),
            item.str_or("name"@, ""@),
        );
    } else if kind == "response.completed"@ {
        let m = match e.get_or_null("response"@).get("usage"@) {
            Some(u) => Message {
                output_tokens: u.u64_or("output_tokens"@, s.message.output_tokens),
                ..s.message
            },
            None => s.message,
        };
        lemma_message(m, b, 0, none, none);
        lemma_message(
            m.close(),
            b,
            0,
            super::responses_to_anthropic::stop_reason_of_event(e),
            none,
        );
    }
}

impl Emitter for ResponsesToAnthropic {
    open spec fn events(self) -> Seq<Seq<char>> {
        self.message.out
    }

    open spec fn taken(self) -> ResponsesToAnthropic {
        ResponsesToAnthropic { message: Message { out: Seq::empty(), ..self.message } }
    }

    open spec fn after(self, before: Seq<Seq<char>>) -> ResponsesToAnthropic {
        ResponsesToAnthropic {
            message: Message { out: before + self.message.out, ..self.message },
        }
    }

    proof fn lemma_events(self, before: Seq<Seq<char>>) {
        assert(self.taken().after(self.events()) =~= self);
    }

    proof fn lemma_line(self, before: Seq<Seq<char>>, l: Seq<char>) {
        assert(self.after(before) == responses_after(self, before));
        lemma_message(self.message, before, 0, Seq::empty(), Seq::empty());
        lemma_message(self.message.close(), before, 0, "end_turn"@, Seq::empty());
        match sse::exact_data_of(text::trimmed(l)) {
            Some(d) => match json::wire::json_of_text(d) {
                Some(e) => {
                    lemma_responses_event_after(self, before, e);
                },
                None => {},
            },
            None => {},
        }
    }
}

// ---- to a Chat Completions stream ----

spec fn out_after(c: ChatOut, b: Seq<Seq<char>>) -> ChatOut {
    ChatOut { out: b + c.out, ..c }
}

proof fn lemma_out(
    c: ChatOut,
    b: Seq<Seq<char>>,
    reasoning: bool,
    t: Seq<char>,
    calls: Option<JsonV>,
)
    ensures
        out_after(c, b).send(reasoning, t, calls) == out_after(c.send(reasoning, t, calls), b),
        out_after(c, b).finish(t) == out_after(c.finish(t), b),
{
    let d = out_after(c, b);
    assert(forall|delta: JsonV, reason: JsonV|
        #[trigger] chat_chunks::chunk_v(d, delta, reason) == chat_chunks::chunk_v(c, delta, reason));
    assert(d.send(reasoning, t, calls) =~= out_after(c.send(reasoning, t, calls), b));
    assert(d.finish(t) =~= out_after(c.finish(t), b));
}

spec fn to_chat_after(s: ResponsesToChat, b: Seq<Seq<char>>) -> ResponsesToChat {
    ResponsesToChat { chat: out_after(s.chat, b), ..s }
}

proof fn lemma_to_chat_handle_after(
    s: ResponsesToChat,
    b: Seq<Seq<char>>,
    name: Seq<char>,
    e: JsonV,
)
    ensures
        to_chat_after(s, b).handle(name, e) == to_chat_after(s.handle(name, e), b),
{
    let delta = e.str_or("delta"@, ""@);
    let index = e.u64_or("output_index"@, 0);
    let item = e.get_or_null("item"@);
    lemma_out(s.chat, b, true, delta, None);
    lemma_out(s.chat, b, false, delta, None);
    lemma_out(
        s.chat,
        b,
        false,
        ""@,
        Some(super::responses_to_chat::more_arguments_v(index, delta)),
    );
    lemma_out(
        s.chat,
        b,
        false,
        ""@,
        Some(
            super::responses_to_chat::new_call_v(
                index,
                item.str_or("id"@, ""@),
                item.str_or("name"@, ""@),
            ),
        ),
    );
    lemma_out(s.chat, b, false, super::responses_to_chat::finish_of_event(e), None);
    lemma_out(s.chat, b, false, "stop"@, None);
}

impl Emitter for ResponsesToChat {
    open spec fn events(self) -> Seq<Seq<char>> {
        self.chat.out
    }

    open spec fn taken(self) -> ResponsesToChat {
        ResponsesToChat { chat: ChatOut { out: Seq::empty(), ..self.chat }, ..self }
    }

    open spec fn after(self, before: Seq<Seq<char>>) -> ResponsesToChat {
        ResponsesToChat { chat: ChatOut { out: before + self.chat.out, ..self.chat }, ..self }
    }

    proof fn lemma_events(self, before: Seq<Seq<char>>) {
        assert(self.taken().after(self.events()) =~= self);
    }

    proof fn lemma_line(self, before: Seq<Seq<char>>, l: Seq<char>) {
        match chat_chunks::event_line(l) {
            EventLine::Data(e) => {
                lemma_to_chat_handle_after(
                    ResponsesToChat { event: Seq::empty(), ..self },
                    before,
                    chat_chunks::event_name(self.event, e),
                    e,
                );
            },
            _ => {},
        }
    }
}

spec fn anthropic_after(s: AnthropicToChat, b: Seq<Seq<char>>) -> AnthropicToChat {
    AnthropicToChat { chat: out_after(s.chat, b), ..s }
}

proof fn lemma_anthropic_delta_after(s: AnthropicToChat, b: Seq<Seq<char>>, data: JsonV)
    ensures
        anthropic_after(s, b).block_delta(data) == anthropic_after(s.block_delta(data), b),
{
    let delta = data.get_or_null("delta"@);
    let k = super::anthropic_to_chat::block_index(data);
    match delta.str_at("text"@) {
        Some(t) => {
            lemma_out(s.chat, b, false, t, None);
        },
        None => {},
    }
    match delta.str_at("thinking"@) {
        Some(t) => {
            lemma_out(s.chat, b, true, t, None);
        },
        None => {},
    }
    match delta.str_at("partial_json"@) {
        Some(t) => {
            lemma_out(
                s.chat,
                b,
                false,
                ""@,
                Some(super::anthropic_to_chat::more_arguments_v(k, t)),
            );
        },
        None => {},
    }
}

proof fn lemma_anthropic_handle_after(
    s: AnthropicToChat,
    b: Seq<Seq<char>>,
    name: Seq<char>,
    data: JsonV,
)
    ensures
        anthropic_after(s, b).handle(name, data) == anthropic_after(s.handle(name, data), b),
{
    let k = super::anthropic_to_chat::block_index(data);
    lemma_anthropic_delta_after(s, b, data);
    lemma_out(
        s.chat,
        b,
        false,
        ""@,
        Some(super::anthropic_to_chat::call_head_v(k, s.tools[k])),
    );
    assert(anthropic_after(s, b).block_stop(data) == anthropic_after(s.block_stop(data), b));
    lemma_out(
        s.chat,
        b,
        false,
        crate::convert::responses::to_chat::finish_of_stop_reason(Some(s.stop_reason)),
        None,
    );
}

impl Emitter for AnthropicToChat {
    open spec fn events(self) -> Seq<Seq<char>> {
        self.chat.out
    }

    open spec fn taken(self) -> AnthropicToChat {
        AnthropicToChat { chat: ChatOut { out: Seq::empty(), ..self.chat }, ..self }
    }

    open spec fn after(self, before: Seq<Seq<char>>) -> AnthropicToChat {
        AnthropicToChat { chat: ChatOut { out: before + self.chat.out, ..self.chat }, ..self }
    }

    proof fn lemma_events(self, before: Seq<Seq<char>>) {
        assert(self.taken().after(self.events()) =~= self);
    }

    proof fn lemma_line(self, before: Seq<Seq<char>>, l: Seq<char>) {
        match chat_chunks::event_line(l) {
            EventLine::Data(e) => {
                lemma_anthropic_handle_after(
                    AnthropicToChat { event: Seq::empty(), ..self },
                    before,
                    chat_chunks::event_name(self.event, e),
                    e,
                );
            },
            _ => {},
        }
    }
}

// ---- to a Responses stream ----

spec fn events_after(v: Events, b: Seq<Seq<char>>) -> Events {
    Events { out: b + v.out, ..v }
}

proof fn lemma_event(v: Events, b: Seq<Seq<char>>, name: Seq<char>, data: JsonV)
    ensures
        events_after(v, b).event(name, data) == events_after(v.event(name, data), b),
{
    assert(events_after(v, b).event(name, data) =~= events_after(v.event(name, data), b));
}

proof fn lemma_item_events(
    v: Events,
    b: Seq<Seq<char>>,
    id: Seq<char>,
    i: u32,
    t: Seq<char>,
    item: JsonV,
)
    ensures
        events_after(v, b).reasoning_added(id, i) == events_after(v.reasoning_added(id, i), b),
        events_after(v, b).reasoning_delta(id, i, t) == events_after(
            v.reasoning_delta(id, i, t),
            b,
        ),
        events_after(v, b).reasoning_done(id, i, t, item) == events_after(
            v.reasoning_done(id, i, t, item),
            b,
        ),
        events_after(v, b).message_added(id, i) == events_after(v.message_added(id, i), b),
        events_after(v, b).message_delta(id, i, t) == events_after(v.message_delta(id, i, t), b),
        events_after(v, b).message_done(id, i, t) == events_after(v.message_done(id, i, t), b),
        events_after(v, b).call_delta(id, i, t) == events_after(v.call_delta(id, i, t), b),
        events_after(v, b).failed(id, t) == events_after(v.failed(id, t), b),
{
    let w = events_after(v, b);
    assert(w.reasoning_added(id, i) =~= events_after(v.reasoning_added(id, i), b));
    assert(w.reasoning_delta(id, i, t) =~= events_after(v.reasoning_delta(id, i, t), b));
    assert(w.reasoning_done(id, i, t, item) =~= events_after(
        v.reasoning_done(id, i, t, item),
        b,
    ));
    assert(w.message_added(id, i) =~= events_after(v.message_added(id, i), b));
    assert(w.message_delta(id, i, t) =~= events_after(v.message_delta(id, i, t), b));
    assert(w.message_done(id, i, t) =~= events_after(v.message_done(id, i, t), b));
    assert(w.call_delta(id, i, t) =~= events_after(v.call_delta(id, i, t), b));
    assert(w.failed(id, t) =~= events_after(v.failed(id, t), b));
}

proof fn lemma_call_events(
    v: Events,
    b: Seq<Seq<char>>,
    id: Seq<char>,
    i: u32,
    call_id: Seq<char>,
    name: Seq<char>,
    arguments: Seq<char>,
    o: Option<u32>,
)
    ensures
        events_after(v, b).call_added(id, i, call_id, name) == events_after(
            v.call_added(id, i, call_id, name),
            b,
        ),
        events_after(v, b).call_done(id, o, call_id, name, arguments) == events_after(
            v.call_done(id, o, call_id, name, arguments),
            b,
        ),
{
    let w = events_after(v, b);
    assert(w.call_added(id, i, call_id, name) =~= events_after(
        v.call_added(id, i, call_id, name),
        b,
    ));
    assert(w.call_done(id, o, call_id, name, arguments) =~= events_after(
        v.call_done(id, o, call_id, name, arguments),
        b,
    ));
}

proof fn lemma_started(v: Events, b: Seq<Seq<char>>, id: Seq<char>, created: u64, model: Seq<char>)
    ensures
        events_after(v, b).started(id, created, model) == events_after(
            v.started(id, created, model),
            b,
        ),
{
    assert(events_after(v, b).started(id, created, model) =~= events_after(
        v.started(id, created, model),
        b,
    ));
}

spec fn cr_after(s: ChatToResponses, b: Seq<Seq<char>>) -> ChatToResponses {
    ChatToResponses { events: events_after(s.events, b), ..s }
}

proof fn lemma_cr_start(s: ChatToResponses, b: Seq<Seq<char>>)
    ensures
        cr_after(s, b).start() == cr_after(s.start(), b),
{
    lemma_started(s.events, b, s.id, s.created, s.model);
}

proof fn lemma_cr_reasoning(s: ChatToResponses, b: Seq<Seq<char>>, t: Seq<char>)
    ensures
        cr_after(s, b).open_reasoning() == cr_after(s.open_reasoning(), b),
        cr_after(s, b).more_reasoning(t) == cr_after(s.more_reasoning(t), b),
        cr_after(s, b).close_reasoning() == cr_after(s.close_reasoning(), b),
{
    match s.reasoning {
        Some(item) => {
            let done = chat_to_responses::reasoning_item_v(item.id, item.text);
            lemma_item_events(s.events, b, item.id, item.index, item.text, done);
            lemma_item_events(s.events, b, item.id, item.index, t, done);
        },
        None => {
            lemma_item_events(s.events, b, "rs_"@ + s.id, s.next_index, t, JsonV::Null);
        },
    }
}

proof fn lemma_cr_text(s: ChatToResponses, b: Seq<Seq<char>>, t: Seq<char>)
    ensures
        cr_after(s, b).open_text() == cr_after(s.open_text(), b),
        cr_after(s, b).more_text(t) == cr_after(s.more_text(t), b),
        cr_after(s, b).close_text() == cr_after(s.close_text(), b),
{
    lemma_cr_reasoning(s, b, t);
    let c = s.close_reasoning();
    lemma_item_events(c.events, b, c.id + "_msg"@, c.next_index, t, JsonV::Null);
    match s.text {
        Some(item) => {
            lemma_item_events(s.events, b, item.id, item.index, item.text, JsonV::Null);
            lemma_item_events(s.events, b, item.id, item.index, t, JsonV::Null);
        },
        None => {},
    }
}

proof fn lemma_cr_announce(s: ChatToResponses, b: Seq<Seq<char>>, k: usize, c: OpenCall)
    ensures
        cr_after(s, b).announce(k, c) == cr_after(s.announce(k, c), b),
{
    let call_id = if c.call_id.len() == 0 {
        "call_"@ + text::decimal(k as nat)
    } else {
        c.call_id
    };
    let name = if c.name.len() == 0 {
        "unknown_tool"@
    } else {
        c.name
    };
    let item_id = "fc_"@ + call_id;
    let i = s.next_index;
    lemma_call_events(s.events, b, item_id, i, call_id, name, c.arguments, None);
    lemma_item_events(
        s.events.call_added(item_id, i, call_id, name),
        b,
        item_id,
        i,
        c.arguments,
        JsonV::Null,
    );
}

proof fn lemma_cr_push_call(s: ChatToResponses, b: Seq<Seq<char>>, tc: JsonV)
    ensures
        cr_after(s, b).push_call(tc) == cr_after(s.push_call(tc), b),
{
    let k = tc.u64_or("index"@, 0) as usize;
    let c = s.updated_call(tc);
    let t = tc.get_or_null("function"@).str_or("arguments"@, ""@);
    assert(cr_after(s, b).updated_call(tc) == c);
    lemma_cr_announce(s, b, k, c);
    match c.index {
        Some(i) => {
            lemma_item_events(s.events, b, c.item_id, i, t, JsonV::Null);
        },
        None => {},
    }
}

proof fn lemma_cr_push_calls(s: ChatToResponses, b: Seq<Seq<char>>, tcs: Seq<JsonV>)
    ensures
        cr_after(s, b).push_calls(tcs) == cr_after(s.push_calls(tcs), b),
    decreases tcs.len(),
{
    if tcs.len() > 0 {
        lemma_cr_push_calls(s, b, tcs.drop_last());
        lemma_cr_push_call(s.push_calls(tcs.drop_last()), b, tcs.last());
    }
}

proof fn lemma_cr_close_calls(s: ChatToResponses, b: Seq<Seq<char>>, calls: Seq<(usize, OpenCall)>)
    ensures
        cr_after(s, b).close_calls(calls) == cr_after(s.close_calls(calls), b),
    decreases calls.len(),
{
    if calls.len() > 0 {
        lemma_cr_close_calls(s, b, calls.drop_last());
        let c = calls.last().1;
        lemma_call_events(
            s.close_calls(calls.drop_last()).events,
            b,
            c.item_id,
            0,
            c.call_id,
            c.name,
            c.arguments,
            c.index,
        );
    }
}

proof fn lemma_cr_under(s: ChatToResponses, b: Seq<Seq<char>>, delta: JsonV, key: Seq<char>)
    ensures
        cr_after(s, b).reasoning_under(delta, key) == cr_after(s.reasoning_under(delta, key), b),
{
    let t = delta.str_or(key, ""@);
    lemma_cr_reasoning(s, b, t);
    lemma_cr_reasoning(s.open_reasoning(), b, t);
}

proof fn lemma_cr_delta(s: ChatToResponses, b: Seq<Seq<char>>, delta: JsonV)
    ensures
        cr_after(s, b).delta(delta) == cr_after(s.delta(delta), b),
{
    lemma_cr_under(s, b, delta, "reasoning_content"@);
    let s1 = s.reasoning_under(delta, "reasoning_content"@);
    lemma_cr_under(s1, b, delta, "reasoning"@);
    let s2 = s1.reasoning_under(delta, "reasoning"@);
    let content = delta.str_or("content"@, ""@);
    lemma_cr_text(s2, b, content);
    lemma_cr_text(s2.open_text(), b, content);
    let s3 = if content.len() > 0 {
        s2.push_text(content)
    } else {
        s2
    };
    match delta.array_at("tool_calls"@) {
        Some(tcs) => {
            lemma_cr_reasoning(s3, b, ""@);
            lemma_cr_push_calls(s3.close_reasoning(), b, tcs);
        },
        None => {},
    }
}

proof fn lemma_cr_chunk(s: ChatToResponses, b: Seq<Seq<char>>, chunk: JsonV)
    ensures
        cr_after(s, b).chunk(chunk) == cr_after(s.chunk(chunk), b),
{
    let s1 = s.noted(chunk);
    assert(cr_after(s, b).noted(chunk) == cr_after(s1, b));
    lemma_cr_start(s1, b);
    let s2 = s1.start();
    let s3 = s2.used(chunk);
    assert(cr_after(s2, b).used(chunk) == cr_after(s3, b));
    match to_anthropic::first_choice(chunk) {
        Some(choice) => match choice.get("delta"@) {
            Some(delta) => {
                lemma_cr_delta(s3, b, delta);
            },
            None => {},
        },
        None => {},
    }
}

proof fn lemma_cr_finalize(s: ChatToResponses, b: Seq<Seq<char>>)
    ensures
        cr_after(s, b).finalize() == cr_after(s.finalize(), b),
{
    lemma_cr_start(s, b);
    let s1 = s.start();
    lemma_cr_reasoning(s1, b, ""@);
    let s2 = s1.close_reasoning();
    lemma_cr_text(s2, b, ""@);
    let s3 = s2.close_text();
    lemma_cr_close_calls(s3, b, s3.calls);
    let s4 = s.closed();
    assert(cr_after(s, b).closed() == cr_after(s4, b));
    assert(cr_after(s4, b).response() == s4.response());
    lemma_event(s4.events, b, "response.completed"@, s4.response());
}

impl Emitter for ChatToResponses {
    open spec fn events(self) -> Seq<Seq<char>> {
        self.events.out
    }

    open spec fn taken(self) -> ChatToResponses {
        ChatToResponses { events: Events { out: Seq::empty(), ..self.events }, ..self }
    }

    open spec fn after(self, before: Seq<Seq<char>>) -> ChatToResponses {
        ChatToResponses { events: Events { out: before + self.events.out, ..self.events }, ..self }
    }

    proof fn lemma_events(self, before: Seq<Seq<char>>) {
        assert(self.taken().after(self.events()) =~= self);
    }

    proof fn lemma_line(self, before: Seq<Seq<char>>, l: Seq<char>) {
        assert(self.after(before) == cr_after(self, before));
        lemma_cr_finalize(self, before);
        lemma_item_events(self.events, before, self.id, 0, "Upstream error"@, JsonV::Null);
        match sse::data_of(l) {
            Some(d) => match json::wire::json_of_text(d) {
                Some(chunk) => {
                    lemma_cr_chunk(self, before, chunk);
                },
                None => {},
            },
            None => {},
        }
    }
}

spec fn ar_after(s: AnthropicToResponses, b: Seq<Seq<char>>) -> AnthropicToResponses {
    AnthropicToResponses { events: events_after(s.events, b), ..s }
}

proof fn lemma_ar_reasoning(s: AnthropicToResponses, b: Seq<Seq<char>>, t: Seq<char>)
    ensures
        ar_after(s, b).start_reasoning() == ar_after(s.start_reasoning(), b),
        ar_after(s, b).more_reasoning(t) == ar_after(s.more_reasoning(t), b),
        ar_after(s, b).close_reasoning() == ar_after(s.close_reasoning(), b),
{
    lemma_item_events(
        s.events,
        b,
        super::anthropic_to_responses::item_id("rs_"@, s.now, s.next_index),
        s.next_index,
        t,
        JsonV::Null,
    );
    match s.reasoning {
        Some(item) => {
            let done = super::anthropic_to_responses::reasoning_item_v(item.id, item.text);
            lemma_item_events(s.events, b, item.id, item.index, item.text, done);
            lemma_item_events(s.events, b, item.id, item.index, t, done);
        },
        None => {},
    }
}

proof fn lemma_ar_message(s: AnthropicToResponses, b: Seq<Seq<char>>, t: Seq<char>)
    ensures
        ar_after(s, b).start_message() == ar_after(s.start_message(), b),
        ar_after(s, b).more_text(t) == ar_after(s.more_text(t), b),
        ar_after(s, b).close_message() == ar_after(s.close_message(), b),
{
    lemma_item_events(
        s.events,
        b,
        super::anthropic_to_responses::item_id("msg_"@, s.now, s.next_index),
        s.next_index,
        t,
        JsonV::Null,
    );
    match s.message {
        Some(item) => {
            lemma_item_events(s.events, b, item.id, item.index, item.text, JsonV::Null);
            lemma_item_events(s.events, b, item.id, item.index, t, JsonV::Null);
        },
        None => {},
    }
}

proof fn lemma_ar_tool(
    s: AnthropicToResponses,
    b: Seq<Seq<char>>,
    id: Seq<char>,
    name: Seq<char>,
    t: Seq<char>,
)
    ensures
        ar_after(s, b).open_tool(id, name) == ar_after(s.open_tool(id, name), b),
        ar_after(s, b).more_args(t) == ar_after(s.more_args(t), b),
        ar_after(s, b).close_tool() == ar_after(s.close_tool(), b),
{
    lemma_call_events(s.events, b, id, s.next_index, id, name, t, None);
    match s.tool {
        Some(tc) => {
            lemma_item_events(s.events, b, tc.id, tc.index, t, JsonV::Null);
            lemma_call_events(
                s.events,
                b,
                tc.id,
                tc.index,
                tc.id,
                tc.name,
                tc.args,
                Some(tc.index),
            );
        },
        None => {},
    }
}

proof fn lemma_ar_close(s: AnthropicToResponses, b: Seq<Seq<char>>)
    ensures
        ar_after(s, b).close_current() == ar_after(s.close_current(), b),
        ar_after(s, b).close_current().close_tool() == ar_after(
            s.close_current().close_tool(),
            b,
        ),
{
    lemma_ar_reasoning(s, b, ""@);
    lemma_ar_message(s, b, ""@);
    lemma_ar_tool(s.close_current(), b, ""@, ""@, ""@);
}

proof fn lemma_ar_block_start(s: AnthropicToResponses, b: Seq<Seq<char>>, data: JsonV)
    ensures
        ar_after(s, b).block_start(data) == ar_after(s.block_start(data), b),
{
    let block = data.get_or_null("content_block"@);
    lemma_ar_close(s, b);
    lemma_ar_reasoning(s.close_current(), b, ""@);
    lemma_ar_message(s.close_current().close_tool(), b, ""@);
    lemma_ar_tool(
        s.close_current(),
        b,
        block.str_or("id"@, ""@),
        block.str_or("name"@, ""@),
        ""@,
    );
}

proof fn lemma_ar_block_delta(s: AnthropicToResponses, b: Seq<Seq<char>>, data: JsonV)
    ensures
        ar_after(s, b).block_delta(data) == ar_after(s.block_delta(data), b),
{
    let delta = data.get_or_null("delta"@);
    let kind = delta.str_or("type"@, ""@);
    lemma_ar_close(s, b);
    let c = s.close_current();
    if kind == "thinking_delta"@ {
        let t = delta.str_or("thinking"@, ""@);
        lemma_ar_reasoning(c, b, t);
        lemma_ar_reasoning(s, b, t);
        lemma_ar_reasoning(c.start_reasoning(), b, t);
    } else if kind == "text_delta"@ {
        let t = delta.str_or("text"@, ""@);
        lemma_ar_message(c.close_tool(), b, t);
        lemma_ar_message(s, b, t);
        lemma_ar_message(c.close_tool().start_message(), b, t);
    } else if kind == "input_json_delta"@ {
        let t = delta.str_or("partial_json"@, ""@);
        lemma_ar_tool(s, b, ""@, ""@, t);
        lemma_ar_tool(c, b, ""@, ""@, t);
    }
}

proof fn lemma_ar_start(s: AnthropicToResponses, b: Seq<Seq<char>>)
    ensures
        ar_after(s, b).start() == ar_after(s.start(), b),
{
    let id = if s.id.len() == 0 {
        crate::convert::responses::to_responses::timed("resp_"@, s.now)
    } else {
        s.id
    };
    let created = if s.created == 0 {
        s.now / 1000
    } else {
        s.created
    };
    lemma_started(s.events, b, id, created, s.model);
}

proof fn lemma_ar_event(s: AnthropicToResponses, b: Seq<Seq<char>>, kind: Seq<char>, data: JsonV)
    ensures
        ar_after(s, b).event(kind, data) == ar_after(s.event(kind, data), b),
{
    if kind == "message_start"@ {
        assert(ar_after(s, b).message_start(data) == ar_after(s.message_start(data), b));
    } else if kind == "content_block_start"@ {
        lemma_ar_block_start(s, b, data);
    } else if kind == "content_block_delta"@ {
        lemma_ar_block_delta(s, b, data);
    } else if kind == "content_block_stop"@ {
        lemma_ar_close(s, b);
    } else if kind == "message_delta"@ {
        assert(ar_after(s, b).message_delta(data) == ar_after(s.message_delta(data), b));
    } else if kind == "message_stop"@ {
        lemma_ar_close(s, b);
    }
}

proof fn lemma_ar_handle(s: AnthropicToResponses, b: Seq<Seq<char>>, kind: Seq<char>, data: JsonV)
    ensures
        ar_after(s, b).handle(kind, data) == ar_after(s.handle(kind, data), b),
{
    lemma_ar_start(s, b);
    lemma_ar_event(s.start(), b, kind, data);
}

proof fn lemma_ar_finalize(s: AnthropicToResponses, b: Seq<Seq<char>>)
    ensures
        ar_after(s, b).finalize() == ar_after(s.finalize(), b),
{
    let s1 = AnthropicToResponses { terminated: true, ..s };
    lemma_ar_close(s1, b);
    let s2 = s1.close_current().close_tool();
    assert(ar_after(s2, b).response() == s2.response());
    lemma_event(s2.events, b, "response.completed"@, s2.response());
}

impl Emitter for AnthropicToResponses {
    open spec fn events(self) -> Seq<Seq<char>> {
        self.events.out
    }

    open spec fn taken(self) -> AnthropicToResponses {
        AnthropicToResponses { events: Events { out: Seq::empty(), ..self.events }, ..self }
    }

    open spec fn after(self, before: Seq<Seq<char>>) -> AnthropicToResponses {
        AnthropicToResponses {
            events: Events { out: before + self.events.out, ..self.events },
            ..self
        }
    }

    proof fn lemma_events(self, before: Seq<Seq<char>>) {
        assert(self.taken().after(self.events()) =~= self);
    }

    proof fn lemma_line(self, before: Seq<Seq<char>>, l: Seq<char>) {
        assert(self.after(before) == ar_after(self, before));
        lemma_ar_finalize(self, before);
        lemma_item_events(self.events, before, self.id, 0, "Upstream error"@, JsonV::Null);
        match sse::data_of(l) {
            Some(d) => match json::wire::json_of_text(d) {
                Some(data) => {
                    lemma_ar_handle(self, before, data.str_or("type"@, ""@), data);
                },
                None => {},
            },
            None => {},
        }
    }
}

} // verus!
