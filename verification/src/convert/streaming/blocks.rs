//! The blocks of an Anthropic stream: that one is open at a time, that what is opened is
//! closed, and that each has an index of its own.

use vstd::prelude::*;

use super::anthropic_events;
use super::anthropic_events::{Block, CallBlock, Message};
use super::chat_to_anthropic;
use super::chat_to_anthropic::ChatToAnthropic;
use super::responses_to_anthropic;
use super::responses_to_anthropic::ResponsesToAnthropic;
use super::sse;
use super::sse::LineReader;
use crate::convert::responses::to_anthropic;
use crate::json::{self, JsonV};
use crate::text;

verus! {

/// Whether an event starts a block.
pub open spec fn is_start(e: Seq<char>) -> bool {
    text::starts(e, "event: content_block_start\n"@)
}

/// Whether an event ends a block.
pub open spec fn is_stop(e: Seq<char>) -> bool {
    text::starts(e, "event: content_block_stop\n"@)
}

/// How many events start a block.
pub open spec fn started(out: Seq<Seq<char>>) -> nat
    decreases out.len(),
{
    if out.len() == 0 {
        0
    } else {
        started(out.drop_last()) + if is_start(out.last()) {
            1nat
        } else {
            0nat
        }
    }
}

/// How many events end a block.
pub open spec fn stopped(out: Seq<Seq<char>>) -> nat
    decreases out.len(),
{
    if out.len() == 0 {
        0
    } else {
        stopped(out.drop_last()) + if is_stop(out.last()) {
            1nat
        } else {
            0nat
        }
    }
}

/// The index of the block that comes after so many.
pub open spec fn index_after(n: nat) -> u32 {
    (n % 0x1_0000_0000) as u32
}

/// The index of a block that starts with an event: the number of the blocks that have
/// started before.
pub open spec fn index_at(out: Seq<Seq<char>>, i: int) -> u32 {
    index_after(started(out.take(i)))
}

/// Whether an event is where it belongs: a block starts where none is open, with an index of
/// its own, and ends where it is open, with the index with which it has started.
pub open spec fn in_place(out: Seq<Seq<char>>, i: int) -> bool {
    let before = out.take(i);
    &&& is_start(out[i]) ==> started(before) == stopped(before) && exists|block: JsonV|
        out[i] == sse::event_text(
            "content_block_start"@,
            #[trigger] anthropic_events::block_start_v(index_at(out, i), block),
        )
    &&& is_stop(out[i]) ==> started(before) == stopped(before) + 1 && out[i]
        == anthropic_events::block_stop_text(index_after(stopped(before)))
}

/// How many blocks are open.
pub open spec fn open_blocks(m: Message) -> nat {
    if m.open is Nothing {
        0
    } else {
        1
    }
}

/// Whether a block has started with an index.
pub open spec fn has_started(out: Seq<Seq<char>>, index: u32) -> bool {
    exists|i: int|
        0 <= i < out.len() && is_start(#[trigger] out[i]) && index_at(out, i) == index
}

/// Whether every call has a block that has started, and a tool's block that is open is that
/// of the last call.
pub open spec fn calls_known(m: Message) -> bool {
    &&& m.open matches Block::Tool(place) ==> m.calls.len() > 0 && m.calls.last() == (CallBlock {
        place,
        index: m.index,
    })
    &&& forall|j: int|
        0 <= j < m.calls.len() ==> has_started(m.out, (#[trigger] m.calls[j]).index)
}

/// Whether all events of a message are where they belong, and the next will be: one block
/// is open at most, and it is the one that the message knows as open.
pub open spec fn steady(m: Message) -> bool {
    &&& calls_known(m)
    &&& m.index == index_after(stopped(m.out))
    &&& started(m.out) == stopped(m.out) + open_blocks(m)
    &&& forall|i: int| 0 <= i < m.out.len() ==> #[trigger] in_place(m.out, i)
}

proof fn lemma_emit(m: Message, e: Seq<char>)
    requires
        steady(m),
    ensures
        started(m.emit(e).out) == started(m.out) + if is_start(e) {
            1nat
        } else {
            0nat
        },
        stopped(m.emit(e).out) == stopped(m.out) + if is_stop(e) {
            1nat
        } else {
            0nat
        },
        forall|i: int| 0 <= i < m.out.len() ==> #[trigger] in_place(m.emit(e).out, i),
        m.emit(e).out.take(m.out.len() as int) == m.out,
        forall|index: u32|
            has_started(m.out, index) ==> #[trigger] has_started(m.emit(e).out, index),
{
    let out = m.emit(e).out;
    assert(out.drop_last() =~= m.out);
    assert forall|index: u32| has_started(m.out, index) implies #[trigger] has_started(
        out,
        index,
    ) by {
        let i = choose|i: int|
            0 <= i < m.out.len() && is_start(#[trigger] m.out[i]) && index_at(m.out, i) == index;
        assert(out[i] == m.out[i]);
        assert(out.take(i) =~= m.out.take(i));
    }
    assert forall|i: int| 0 <= i < m.out.len() implies #[trigger] in_place(out, i) by {
        assert(in_place(m.out, i));
        assert(out.take(i) =~= m.out.take(i));
    }
    assert(out.take(m.out.len() as int) =~= m.out);
}

/// An event that is not about the start or the end of a block changes nothing.
proof fn lemma_other(m: Message, e: Seq<char>)
    requires
        steady(m),
        !is_start(e),
        !is_stop(e),
    ensures
        steady(m.emit(e)),
{
    lemma_emit(m, e);
    let out = m.emit(e).out;
    assert forall|i: int| 0 <= i < out.len() implies #[trigger] in_place(out, i) by {
        if i == m.out.len() {
            assert(out[i] == e);
        }
    }
}

/// What an event of a name is.
proof fn lemma_kinds(v: JsonV)
    ensures
        is_start(sse::event_text("content_block_start"@, v)),
        !is_stop(sse::event_text("content_block_start"@, v)),
        !is_start(sse::event_text("content_block_delta"@, v)),
        !is_stop(sse::event_text("content_block_delta"@, v)),
        !is_start(sse::event_text("message_start"@, v)),
        !is_stop(sse::event_text("message_start"@, v)),
        !is_start(sse::event_text("message_delta"@, v)),
        !is_stop(sse::event_text("message_delta"@, v)),
{
    reveal_strlit("event: ");
    reveal_strlit("\ndata: ");
    reveal_strlit("content_block_start");
    reveal_strlit("content_block_delta");
    reveal_strlit("message_start");
    reveal_strlit("message_delta");
    reveal_strlit("event: content_block_start\n");
    reveal_strlit("event: content_block_stop\n");
    let a = "event: content_block_start\n"@;
    let b = "event: content_block_stop\n"@;
    assert(a.len() == 27 && b.len() == 26);
    let s = sse::event_text("content_block_start"@, v);
    assert(s.take(27) =~= a);
    assert(s.take(26)[23] == 'a' && b[23] == 'o');
    let d = sse::event_text("content_block_delta"@, v);
    assert(d.take(27)[21] == 'd' && a[21] == 's');
    assert(d.take(26)[21] == 'd' && b[21] == 's');
    let ms = sse::event_text("message_start"@, v);
    assert(ms.len() >= 8 && ms[7] == 'm');
    assert(ms.len() >= 27 ==> ms.take(27)[7] == 'm');
    assert(ms.len() >= 26 ==> ms.take(26)[7] == 'm');
    let md = sse::event_text("message_delta"@, v);
    assert(md.len() >= 8 && md[7] == 'm');
    assert(md.len() >= 27 ==> md.take(27)[7] == 'm');
    assert(md.len() >= 26 ==> md.take(26)[7] == 'm');
    assert(a[7] == 'c' && b[7] == 'c');
}

proof fn lemma_stop_kind(index: u32)
    ensures
        is_stop(anthropic_events::block_stop_text(index)),
        !is_start(anthropic_events::block_stop_text(index)),
{
    reveal_strlit("event: content_block_start\n");
    reveal_strlit("event: content_block_stop\n");
    reveal_strlit(
        "event: content_block_stop\ndata: {\"type\":\"content_block_stop\",\"index\":",
    );
    let a = "event: content_block_start\n"@;
    let b = "event: content_block_stop\n"@;
    let s = anthropic_events::block_stop_text(index);
    assert(a.len() == 27 && b.len() == 26);
    assert(s.take(26) =~= b);
    assert(s.take(27)[23] == 'o' && a[23] == 'a');
}

proof fn lemma_message_stop_kind()
    ensures
        !is_stop("event: message_stop\ndata: {\"type\":\"message_stop\"}\n\n"@),
        !is_start("event: message_stop\ndata: {\"type\":\"message_stop\"}\n\n"@),
{
    reveal_strlit("event: content_block_start\n");
    reveal_strlit("event: content_block_stop\n");
    reveal_strlit("event: message_stop\ndata: {\"type\":\"message_stop\"}\n\n");
    let s = "event: message_stop\ndata: {\"type\":\"message_stop\"}\n\n"@;
    assert(s.take(26)[7] == 'm' && s.take(27)[7] == 'm');
    assert("event: content_block_start\n"@[7] == 'c' && "event: content_block_stop\n"@[7] == 'c');
}

proof fn lemma_start(m: Message)
    requires
        steady(m),
    ensures
        steady(m.start()),
{
    let v = anthropic_events::message_start_v(m.id, m.model, m.input_tokens);
    lemma_kinds(v);
    let m1 = Message { started: true, ..m };
    assert(steady(m1));
    lemma_other(m1, sse::event_text("message_start"@, v));
}

proof fn lemma_delta(m: Message, index: u32, delta: JsonV)
    requires
        steady(m),
    ensures
        steady(m.delta_at(index, delta)),
{
    let v = anthropic_events::block_delta_v(index, delta);
    lemma_kinds(v);
    lemma_other(m, sse::event_text("content_block_delta"@, v));
}

proof fn lemma_close(m: Message)
    requires
        steady(m),
    ensures
        steady(m.close()),
        m.close().open is Nothing,
        m.close().finished == m.finished,
{
    if !(m.open is Nothing) {
        let e = anthropic_events::block_stop_text(m.index);
        lemma_stop_kind(m.index);
        lemma_emit(m, e);
        let out = m.close().out;
        assert(out == m.emit(e).out);
        assert forall|i: int| 0 <= i < out.len() implies #[trigger] in_place(out, i) by {
            if i == m.out.len() {
                assert(out[i] == e);
            }
        }
        let k = stopped(m.out);
        assert(m.index.wrapping_add(1) == index_after(k + 1)) by {
            if m.index == 0xffff_ffff {
                assert((k + 1) % 0x1_0000_0000 == 0);
            } else {
                assert((k + 1) % 0x1_0000_0000 == k % 0x1_0000_0000 + 1);
            }
        }
    }
}

proof fn lemma_started(m: Message, open: Block, calls: Seq<CallBlock>, block: JsonV)
    requires
        steady(m),
        m.open is Nothing,
        match open {
            Block::Nothing => false,
            Block::Tool(place) => calls == m.calls.push(CallBlock { place, index: m.index }),
            _ => calls == m.calls,
        },
    ensures
        steady(Message { open, calls, ..m.start_block(block) }),
{
    let v = anthropic_events::block_start_v(m.index, block);
    let e = sse::event_text("content_block_start"@, v);
    lemma_kinds(v);
    lemma_emit(m, e);
    let out = m.emit(e).out;
    assert(m.start_block(block).out == out);
    assert forall|i: int| 0 <= i < out.len() implies #[trigger] in_place(out, i) by {
        if i == m.out.len() {
            assert(out[i] == e);
            assert(m.index == index_at(out, i));
        }
    }
    assert(has_started(out, m.index)) by {
        let i = m.out.len() as int;
        assert(is_start(out[i]) && index_at(out, i) == m.index);
    }
    assert forall|j: int| 0 <= j < calls.len() implies has_started(
        out,
        (#[trigger] calls[j]).index,
    ) by {
        if j < m.calls.len() {
            assert(calls[j] == m.calls[j]);
        }
    }
}

proof fn lemma_begin(m: Message, open: Block, block: JsonV)
    requires
        steady(m),
        open is Thinking || open is Text,
    ensures
        steady(m.begin(open, block)),
        m.begin(open, block).finished == m.finished,
{
    if m.open != open {
        lemma_close(m);
        lemma_started(m.close(), open, m.close().calls, block);
        assert(m.begin(open, block) =~= (Message {
            open,
            calls: m.close().calls,
            ..m.close().start_block(block)
        }));
    }
}

proof fn lemma_think(m: Message, t: Seq<char>)
    requires
        steady(m),
    ensures
        steady(m.think(t)),
{
    lemma_begin(m, Block::Thinking, anthropic_events::empty_thinking_v());
    lemma_delta(
        m.begin(Block::Thinking, anthropic_events::empty_thinking_v()),
        m.begin(Block::Thinking, anthropic_events::empty_thinking_v()).index,
        anthropic_events::delta_v("thinking_delta"@, "thinking"@, t),
    );
}

proof fn lemma_say(m: Message, t: Seq<char>)
    requires
        steady(m),
    ensures
        steady(m.say(t)),
{
    let block = crate::convert::parts::text_block_v("text"@, ""@);
    lemma_begin(m, Block::Text, block);
    lemma_delta(
        m.begin(Block::Text, block),
        m.begin(Block::Text, block).index,
        anthropic_events::delta_v("text_delta"@, "text"@, t),
    );
}

proof fn lemma_start_tool(m: Message, place: usize, id: Seq<char>, name: Seq<char>)
    requires
        steady(m),
    ensures
        steady(m.start_tool(place, id, name)),
        m.start_tool(place, id, name).finished == m.finished,
{
    lemma_close(m);
    lemma_started(
        m.close(),
        Block::Tool(place),
        m.close().calls.push(CallBlock { place, index: m.close().index }),
        crate::convert::requests::chat_anthropic::tool_use_v(id, name, json::jobj()),
    );
}

proof fn lemma_tool_input(m: Message, place: usize, t: Seq<char>)
    requires
        steady(m),
    ensures
        steady(m.tool_input(place, t)),
{
    lemma_delta(
        m,
        m.tool_index(place),
        anthropic_events::delta_v("input_json_delta"@, "partial_json"@, t),
    );
}

proof fn lemma_finish(m: Message, reason: Seq<char>)
    requires
        steady(m),
    ensures
        steady(m.finish(reason)),
{
    let v = anthropic_events::message_delta_v(reason, m.output_tokens);
    lemma_kinds(v);
    lemma_message_stop_kind();
    let m1 = Message { finished: true, ..m };
    assert(steady(m1));
    lemma_other(m1, sse::event_text("message_delta"@, v));
    lemma_other(
        m1.emit(sse::event_text("message_delta"@, v)),
        "event: message_stop\ndata: {\"type\":\"message_stop\"}\n\n"@,
    );
}

proof fn lemma_started_grows(out: Seq<Seq<char>>, i: int, j: int)
    requires
        0 <= i <= j <= out.len(),
    ensures
        started(out.take(i)) <= started(out.take(j)),
    decreases j - i,
{
    if i < j {
        lemma_started_grows(out, i, j - 1);
        assert(out.take(j).drop_last() =~= out.take(j - 1));
    }
}

/// No two blocks share an index, in a message of fewer blocks than there are indices.
pub open spec fn own_indices(out: Seq<Seq<char>>) -> bool {
    forall|i: int, j: int|
        0 <= i < j < out.len() && is_start(out[i]) && is_start(out[j]) ==> #[trigger] index_at(
            out,
            i,
        ) != #[trigger] index_at(out, j)
}

proof fn lemma_own_indices(out: Seq<Seq<char>>)
    requires
        started(out) <= 0x1_0000_0000,
    ensures
        own_indices(out),
{
    assert forall|i: int, j: int|
        0 <= i < j < out.len() && is_start(out[i]) && is_start(out[j]) implies #[trigger] index_at(
        out,
        i,
    ) != #[trigger] index_at(out, j) by {
        let a = started(out.take(i));
        let b = started(out.take(j));
        assert(out.take(i + 1).drop_last() =~= out.take(i));
        assert(out.take(i + 1).last() == out[i]);
        lemma_started_grows(out, i + 1, j);
        assert(out.take(j + 1).drop_last() =~= out.take(j));
        assert(out.take(j + 1).last() == out[j]);
        lemma_started_grows(out, j + 1, out.len() as int);
        assert(out.take(out.len() as int) =~= out);
        assert(a < b < 0x1_0000_0000);
        assert(a % 0x1_0000_0000 == a && b % 0x1_0000_0000 == b);
    }
}

proof fn lemma_chat_tool_call(s: ChatToAnthropic, tc: JsonV)
    requires
        steady(s.message),
    ensures
        steady(s.tool_call(tc).message),
        s.tool_call(tc).message.finished == s.message.finished,
{
    lemma_start_tool(
        s.message,
        chat_to_anthropic::call_place(tc),
        tc.str_or("id"@, ""@),
        crate::convert::requests::chat_anthropic::call_name(tc),
    );
    match tc.get_or_null("function"@).str_at("arguments"@) {
        Some(t) => {
            lemma_tool_input(s.open_tool(tc).message, chat_to_anthropic::call_place(tc), t);
        },
        None => {},
    }
}

proof fn lemma_chat_tool_calls(s: ChatToAnthropic, tcs: Seq<JsonV>)
    requires
        steady(s.message),
    ensures
        steady(s.tool_calls(tcs).message),
        s.tool_calls(tcs).message.finished == s.message.finished,
    decreases tcs.len(),
{
    if tcs.len() > 0 {
        lemma_chat_tool_calls(s, tcs.drop_last());
        lemma_chat_tool_call(s.tool_calls(tcs.drop_last()), tcs.last());
    }
}

proof fn lemma_chat_start(s: ChatToAnthropic, chunk: JsonV)
    requires
        steady(s.message),
    ensures
        steady(s.start(chunk).message),
        s.start(chunk).message.finished == s.message.finished,
{
    if !s.message.started {
        let m = match chunk.get("usage"@) {
            Some(u) => Message {
                input_tokens: u.u64_or("prompt_tokens"@, 0),
                output_tokens: u.u64_or("completion_tokens"@, s.message.output_tokens),
                ..s.message
            },
            None => s.message,
        };
        assert(steady(m));
        lemma_start(m);
    }
}

/// After a chunk the blocks are in order; where the chunk ends the message, none is open.
proof fn lemma_chat_chunk(s: ChatToAnthropic, chunk: JsonV)
    requires
        steady(s.message),
    ensures
        steady(s.chunk(chunk).message),
        s.chunk(chunk).message.finished && !s.message.finished ==> s.chunk(
            chunk,
        ).message.open is Nothing,
{
    lemma_chat_start(s, chunk);
    let s1 = s.start(chunk);
    match to_anthropic::first_choice(chunk) {
        Some(choice) => {
            let delta = choice.get("delta"@);
            match json::str_of_v(json::at_v(delta, "reasoning_content"@)) {
                Some(t) => {
                    lemma_think(s1.message, t);
                },
                None => {
                    lemma_close(s1.message);
                },
            }
            let s2 = s1.reasoning(delta);
            assert(s2.message.finished == s.message.finished);
            match json::str_of_v(json::at_v(delta, "content"@)) {
                Some(t) => {
                    lemma_say(s2.message, t);
                },
                None => {},
            }
            let s3 = s2.content(delta);
            assert(s3.message.finished == s.message.finished);
            match json::array_of_v(json::at_v(delta, "tool_calls"@)) {
                Some(tcs) => {
                    lemma_chat_tool_calls(s3, tcs);
                },
                None => {},
            }
            let s4 = s3.calls(delta);
            match choice.str_at("finish_reason"@) {
                Some(r) => {
                    lemma_close(s4.message);
                    let m = s4.message.close();
                    let m1 = match chunk.get("usage"@) {
                        Some(u) => Message {
                            output_tokens: u.u64_or("completion_tokens"@, m.output_tokens),
                            ..m
                        },
                        None => m,
                    };
                    assert(steady(m1));
                    lemma_finish(m1, to_anthropic::stop_reason_of_finish(Some(r)));
                    lemma_finish(m1, "end_turn"@);
                },
                None => {},
            }
        },
        None => {},
    }
}

proof fn lemma_chat_line(s: ChatToAnthropic, l: Seq<char>)
    requires
        steady(s.message),
    ensures
        steady(s.line(l).message),
        s.line(l).message.finished && !s.message.finished ==> s.line(l).message.open is Nothing,
{
    let t = text::trimmed(l);
    if t == "data: [DONE]"@ {
        lemma_close(s.message);
        lemma_finish(s.message.close(), "end_turn"@);
    } else {
        match sse::exact_data_of(t) {
            Some(d) => match json::wire::json_of_text(d) {
                Some(chunk) => {
                    lemma_chat_chunk(s, chunk);
                },
                None => {},
            },
            None => {},
        }
    }
}

proof fn lemma_chat_lines(s: ChatToAnthropic, lines: Seq<Seq<char>>)
    requires
        steady(s.message),
    ensures
        steady(sse::read_lines(s, lines).message),
    decreases lines.len(),
{
    if lines.len() > 0 {
        lemma_chat_lines(s, lines.drop_last());
        lemma_chat_line(sse::read_lines(s, lines.drop_last()), lines.last());
    }
}

/// At every time of a Chat Completions stream one block is open at most: each starts where
/// none is open and ends with the index with which it has started, and no two share an
/// index while there are indices.
pub proof fn lemma_chat_blocks(id: Seq<char>, model: Seq<char>, lines: Seq<Seq<char>>)
    ensures
        ({
            let m = sse::read_lines(ChatToAnthropic::new(id, model), lines).message;
            steady(m) && (started(m.out) <= 0x1_0000_0000 ==> own_indices(m.out))
        }),
{
    let s = ChatToAnthropic::new(id, model);
    assert(steady(s.message));
    lemma_chat_lines(s, lines);
    let m = sse::read_lines(s, lines).message;
    if started(m.out) <= 0x1_0000_0000 {
        lemma_own_indices(m.out);
    }
}

proof fn lemma_block_started(m: Message, calls: Seq<CallBlock>, place: usize)
    requires
        forall|j: int| 0 <= j < calls.len() ==> has_started(m.out, (#[trigger] calls[j]).index),
    ensures
        match anthropic_events::block_of_call(calls, place) {
            Some(index) => has_started(m.out, index),
            None => true,
        },
    decreases calls.len(),
{
    if calls.len() > 0 {
        assert(has_started(m.out, calls[calls.len() - 1].index));
        let first = calls.drop_last();
        assert forall|j: int| 0 <= j < first.len() implies has_started(
            m.out,
            (#[trigger] first[j]).index,
        ) by {
            assert(first[j] == calls[j]);
        }
        lemma_block_started(m, first, place);
    }
}

/// At every time of a Chat Completions stream the arguments of a call go to the block of that
/// call: one that has started. A piece of a call that has a block, and that names no id anew,
/// starts no other block, whatever calls came between.
pub proof fn lemma_chat_arguments_to_own_block(
    id: Seq<char>,
    model: Seq<char>,
    lines: Seq<Seq<char>>,
    tc: JsonV,
)
    ensures
        ({
            let s = sse::read_lines(ChatToAnthropic::new(id, model), lines);
            let place = chat_to_anthropic::call_place(tc);
            let m = s.open_tool(tc).message;
            let own = anthropic_events::block_of_call(m.calls, place);
            &&& own == Some(m.tool_index(place))
            &&& has_started(m.out, m.tool_index(place))
            &&& tc.str_or("id"@, ""@).len() == 0 && anthropic_events::block_of_call(
                s.message.calls,
                place,
            ) is Some ==> m == s.message
        }),
{
    let s0 = ChatToAnthropic::new(id, model);
    assert(steady(s0.message));
    lemma_chat_lines(s0, lines);
    let s = sse::read_lines(s0, lines);
    let place = chat_to_anthropic::call_place(tc);
    lemma_start_tool(
        s.message,
        place,
        tc.str_or("id"@, ""@),
        crate::convert::requests::chat_anthropic::call_name(tc),
    );
    let m = s.open_tool(tc).message;
    assert(steady(m));
    assert(anthropic_events::block_of_call(m.calls, place) is Some);
    lemma_block_started(m, m.calls, place);
}

/// When the message of a Chat Completions stream ends, every block that was started has
/// been ended.
pub proof fn lemma_chat_blocks_closed(id: Seq<char>, model: Seq<char>, lines: Seq<Seq<char>>)
    requires
        lines.len() > 0,
        !sse::read_lines(
            ChatToAnthropic::new(id, model),
            lines.drop_last(),
        ).message.finished,
        sse::read_lines(ChatToAnthropic::new(id, model), lines).message.finished,
    ensures
        ({
            let m = sse::read_lines(ChatToAnthropic::new(id, model), lines).message;
            started(m.out) == stopped(m.out)
        }),
{
    let s = ChatToAnthropic::new(id, model);
    assert(steady(s.message));
    lemma_chat_lines(s, lines.drop_last());
    lemma_chat_line(sse::read_lines(s, lines.drop_last()), lines.last());
}

proof fn lemma_responses_event(s: ResponsesToAnthropic, e: JsonV)
    requires
        steady(s.message),
    ensures
        steady(s.event(e).message),
        s.event(e).message.finished && !s.message.finished ==> s.event(e).message.open is Nothing,
{
    let kind = e.str_or("type"@, ""@);
    let delta = e.str_or("delta"@, ""@);
    lemma_close(s.message);
    lemma_say(s.message, delta);
    lemma_think(s.message, delta);
    lemma_tool_input(s.message, responses_to_anthropic::item_place(e), delta);
    if kind == "response.created"@ || kind == "response.in_progress"@ {
        if !s.message.started {
            let m = match e.get("response"@) {
                Some(resp) => Message {
                    id: resp.str_or("id"@, s.message.id),
                    input_tokens: match resp.get("usage"@) {
                        Some(u) => u.u64_or("input_tokens"@, 0),
                        None => s.message.input_tokens,
                    },
                    ..s.message
                },
                None => s.message,
            };
            assert(steady(m));
            lemma_start(m);
        }
    } else if kind == "response.output_item.added"@ {
        let item = e.get_or_null("item"@);
        lemma_start_tool(
            s.message,
            responses_to_anthropic::item_place(e),
            item.str_or("call_id"@, ""@),
            item.str_or("name"@, ""@),
        );
    } else if kind == "response.completed"@ {
        let m = match e.get_or_null("response"@).get("usage"@) {
            Some(u) => Message {
                output_tokens: u.u64_or("output_tokens"@, s.message.output_tokens),
                ..s.message
            },
            None => s.message,
        };
        assert(steady(m));
        lemma_close(m);
        lemma_finish(m.close(), responses_to_anthropic::stop_reason_of_event(e));
    }
}

proof fn lemma_responses_line(s: ResponsesToAnthropic, l: Seq<char>)
    requires
        steady(s.message),
    ensures
        steady(s.line(l).message),
        s.line(l).message.finished && !s.message.finished ==> s.line(l).message.open is Nothing,
{
    match sse::exact_data_of(text::trimmed(l)) {
        Some(d) => {
            lemma_close(s.message);
            lemma_finish(s.message.close(), "end_turn"@);
            match json::wire::json_of_text(d) {
                Some(e) => {
                    lemma_responses_event(s, e);
                },
                None => {},
            }
        },
        None => {},
    }
}

proof fn lemma_responses_lines(s: ResponsesToAnthropic, lines: Seq<Seq<char>>)
    requires
        steady(s.message),
    ensures
        steady(sse::read_lines(s, lines).message),
    decreases lines.len(),
{
    if lines.len() > 0 {
        lemma_responses_lines(s, lines.drop_last());
        lemma_responses_line(sse::read_lines(s, lines.drop_last()), lines.last());
    }
}

/// At every time of a Responses stream one block is open at most: each starts where none is
/// open and ends with the index with which it has started, and no two share an index while
/// there are indices.
pub proof fn lemma_responses_blocks(id: Seq<char>, model: Seq<char>, lines: Seq<Seq<char>>)
    ensures
        ({
            let m = sse::read_lines(ResponsesToAnthropic::new(id, model), lines).message;
            steady(m) && (started(m.out) <= 0x1_0000_0000 ==> own_indices(m.out))
        }),
{
    let s = ResponsesToAnthropic::new(id, model);
    assert(steady(s.message));
    lemma_responses_lines(s, lines);
    let m = sse::read_lines(s, lines).message;
    if started(m.out) <= 0x1_0000_0000 {
        lemma_own_indices(m.out);
    }
}

/// At every time of a Responses stream a call that is added has a block that has started, and
/// the arguments of a call that has a block go to it, whatever calls came between.
pub proof fn lemma_responses_arguments_to_own_block(
    id: Seq<char>,
    model: Seq<char>,
    lines: Seq<Seq<char>>,
    e: JsonV,
)
    ensures
        ({
            let s = sse::read_lines(ResponsesToAnthropic::new(id, model), lines);
            let place = responses_to_anthropic::item_place(e);
            let m = s.item_added(e).message;
            let own = anthropic_events::block_of_call(s.message.calls, place);
            &&& responses_to_anthropic::is_call_item(e) ==> {
                &&& anthropic_events::block_of_call(m.calls, place) == Some(m.tool_index(place))
                &&& has_started(m.out, m.tool_index(place))
            }
            &&& own is Some ==> {
                &&& own == Some(s.message.tool_index(place))
                &&& has_started(s.message.out, s.message.tool_index(place))
            }
        }),
{
    let s0 = ResponsesToAnthropic::new(id, model);
    assert(steady(s0.message));
    lemma_responses_lines(s0, lines);
    let s = sse::read_lines(s0, lines);
    let place = responses_to_anthropic::item_place(e);
    lemma_block_started(s.message, s.message.calls, place);
    if responses_to_anthropic::is_call_item(e) {
        let item = e.get_or_null("item"@);
        lemma_start_tool(s.message, place, item.str_or("call_id"@, ""@), item.str_or("name"@, ""@));
        let m = s.item_added(e).message;
        assert(steady(m));
        assert(anthropic_events::block_of_call(m.calls, place) is Some);
        lemma_block_started(m, m.calls, place);
    }
}

/// When the message of a Responses stream ends, every block that was started has been
/// ended.
pub proof fn lemma_responses_blocks_closed(id: Seq<char>, model: Seq<char>, lines: Seq<Seq<char>>)
    requires
        lines.len() > 0,
        !sse::read_lines(
            ResponsesToAnthropic::new(id, model),
            lines.drop_last(),
        ).message.finished,
        sse::read_lines(ResponsesToAnthropic::new(id, model), lines).message.finished,
    ensures
        ({
            let m = sse::read_lines(ResponsesToAnthropic::new(id, model), lines).message;
            started(m.out) == stopped(m.out)
        }),
{
    let s = ResponsesToAnthropic::new(id, model);
    assert(steady(s.message));
    lemma_responses_lines(s, lines.drop_last());
    lemma_responses_line(sse::read_lines(s, lines.drop_last()), lines.last());
}

} // verus!
