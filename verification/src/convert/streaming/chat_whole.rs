//! That what a stream says comes out of the Chat Completions stream made from it whole and in
//! order.

use vstd::prelude::*;

use super::anthropic_to_chat;
use super::anthropic_to_chat::{AnthropicToChat, OpenTool};
use super::chat_chunks;
use super::chat_chunks::{ChatOut, EventLine};
use super::responses_to_chat;
use super::responses_to_chat::ResponsesToChat;
use super::sse;
use crate::json::{self, JsonV};
use crate::keys;
use crate::seqs;

verus! {

/// What one event of a chat stream tells.
pub enum Told {
    Thinking(Seq<char>),
    Text(Seq<char>),
    /// More of the arguments of the call at a place.
    Arguments(u64, Seq<char>),
    /// The id and the name of the call at a place.
    Call(u64, Seq<char>, Seq<char>),
    /// Why the answer ends.
    Finish(Seq<char>),
    /// That nothing comes any more.
    Done,
}

/// The only choice of a chunk.
pub open spec fn only_choice(v: JsonV) -> JsonV {
    v.array_at("choices"@)->0[0]
}

/// The only tool call of a delta.
pub open spec fn only_call(delta: JsonV) -> JsonV {
    delta.array_at("tool_calls"@)->0[0]
}

/// Whether a delta holds one tool call.
pub open spec fn has_one_call(delta: JsonV) -> bool {
    delta.array_at("tool_calls"@) is Some && delta.array_at("tool_calls"@)->0.len() == 1
}

/// Whether a delta tells something, and nothing else.
pub open spec fn delta_tells(delta: JsonV, told: Told) -> bool {
    let tc = only_call(delta);
    let f = tc.get_or_null("function"@);
    match told {
        Told::Thinking(t) => {
            &&& delta.str_at("reasoning_content"@) == Some(t)
            &&& delta.get("content"@) is None
            &&& delta.get("tool_calls"@) is None
        },
        Told::Text(t) => {
            &&& delta.get("reasoning_content"@) is None
            &&& delta.get("content"@) == if t.len() > 0 {
                Some(JsonV::Str(t))
            } else {
                None
            }
            &&& delta.get("tool_calls"@) is None
        },
        Told::Arguments(k, t) => {
            &&& delta.get("reasoning_content"@) is None
            &&& delta.get("content"@) is None
            &&& has_one_call(delta)
            &&& tc.u64_at("index"@) == Some(k)
            &&& tc.get("id"@) is None
            &&& f.str_at("arguments"@) == Some(t)
        },
        Told::Call(k, id, name) => {
            &&& delta.get("reasoning_content"@) is None
            &&& delta.get("content"@) is None
            &&& has_one_call(delta)
            &&& tc.u64_at("index"@) == Some(k)
            &&& tc.str_at("id"@) == Some(id)
            &&& tc.str_at("type"@) == Some("function"@)
            &&& f.str_at("name"@) == Some(name)
            &&& f.str_at("arguments"@) == Some(""@)
        },
        Told::Finish(_) | Told::Done => {
            &&& delta.get("reasoning_content"@) is None
            &&& delta.get("content"@) is None
            &&& delta.get("tool_calls"@) is None
        },
    }
}

/// Whether a chunk tells something to a client that asked for a model.
pub open spec fn chunk_tells(v: JsonV, told: Told, model: Seq<char>) -> bool {
    &&& v.str_at("model"@) == Some(model)
    &&& v.str_at("object"@) == Some("chat.completion.chunk"@)
    &&& v.array_at("choices"@) is Some
    &&& v.array_at("choices"@)->0.len() == 1
    &&& delta_tells(only_choice(v).get_or_null("delta"@), told)
    &&& only_choice(v).get("finish_reason"@) == match told {
        Told::Finish(r) => Some(JsonV::Str(r)),
        _ => Some(JsonV::Null),
    }
}

/// Whether an event is the text of a chunk that tells something.
pub open spec fn carries(e: Seq<char>, told: Told, model: Seq<char>) -> bool {
    match told {
        Told::Done => e == "data: [DONE]\n\n"@,
        told => exists|v: JsonV|
            e == "data: "@ + #[trigger] json::wire::json_text(v) + "\n\n"@ && chunk_tells(
                v,
                told,
                model,
            ),
    }
}

/// Whether events tell these things, one event for each, in their order.
pub open spec fn tells(out: Seq<Seq<char>>, told: Seq<Told>, model: Seq<char>) -> bool {
    out.len() == told.len() && forall|i: int|
        0 <= i < told.len() ==> carries(#[trigger] out[i], told[i], model)
}

/// The events of a stream: the name of each, which a line before it may give and which is its
/// type otherwise, and its data.
pub open spec fn events_of(lines: Seq<Seq<char>>) -> Seq<(Seq<char>, JsonV)>
    decreases lines.len(),
{
    if lines.len() == 0 {
        Seq::empty()
    } else {
        let before = events_of(lines.drop_last());
        let named = name_for_next(lines.drop_last());
        match chat_chunks::event_line(lines.last()) {
            EventLine::Data(e) => before.push(
                (
                    if named.len() > 0 {
                        named
                    } else {
                        e.str_or("type"@, ""@)
                    },
                    e,
                ),
            ),
            _ => before,
        }
    }
}

/// The name that lines give to the event that follows them, empty where they give none.
pub open spec fn name_for_next(lines: Seq<Seq<char>>) -> Seq<char>
    decreases lines.len(),
{
    if lines.len() == 0 {
        Seq::empty()
    } else {
        match chat_chunks::event_line(lines.last()) {
            EventLine::Nothing => name_for_next(lines.drop_last()),
            EventLine::Name(name) => name,
            EventLine::Data(_) => Seq::empty(),
        }
    }
}

proof fn lemma_sent(
    c: ChatOut,
    reasoning: bool,
    content: Seq<char>,
    tool_calls: Option<JsonV>,
    told: Told,
    all: Seq<Told>,
)
    requires
        tells(c.out, all, c.model),
        !(told is Done) && !(told is Finish),
        forall|first: bool|
            delta_tells(
                #[trigger] chat_chunks::chat_delta_v(first, reasoning, content, tool_calls),
                told,
            ),
    ensures
        tells(c.send(reasoning, content, tool_calls).out, all.push(told), c.model),
{
    keys::lemma_chunk_keys();
    let delta = chat_chunks::chat_delta_v(c.sent == 0, reasoning, content, tool_calls);
    let v = chat_chunks::chunk_v(c, delta, JsonV::Null);
    let out = c.send(reasoning, content, tool_calls).out;
    assert(delta_tells(delta, told));
    assert(chunk_tells(v, told, c.model));
    assert(out.last() == "data: "@ + json::wire::json_text(v) + "\n\n"@);
    assert(carries(out.last(), told, c.model));
    let more = all.push(told);
    assert forall|i: int| 0 <= i < more.len() implies carries(
        #[trigger] out[i],
        more[i],
        c.model,
    ) by {
        if i < all.len() {
            assert(out[i] == c.out[i]);
        }
    }
}

proof fn lemma_finished(c: ChatOut, reason: Seq<char>, all: Seq<Told>)
    requires
        tells(c.out, all, c.model),
    ensures
        tells(c.finish(reason).out, all.push(Told::Finish(reason)).push(Told::Done), c.model),
{
    keys::lemma_chunk_keys();
    let v = chat_chunks::chunk_v(c, json::jobj(), JsonV::Str(reason));
    let out = c.finish(reason).out;
    let n = c.out.len() as int;
    assert(chunk_tells(v, Told::Finish(reason), c.model));
    assert(out[n] == "data: "@ + json::wire::json_text(v) + "\n\n"@);
    assert(carries(out[n], Told::Finish(reason), c.model));
    let more = all.push(Told::Finish(reason)).push(Told::Done);
    assert forall|i: int| 0 <= i < more.len() implies carries(
        #[trigger] out[i],
        more[i],
        c.model,
    ) by {
        if i < all.len() {
            assert(out[i] == c.out[i]);
        }
    }
}

/// Why a chat ends where a response ends: it was cut short, it has called functions, or it is
/// complete.
pub open spec fn end_of_response(response: JsonV) -> Seq<char> {
    let output = response.array_at("output"@);
    if response.str_at("status"@) == Some("incomplete"@) {
        "length"@
    } else if response.str_at("status"@) != Some("failed"@) && output is Some && exists|i: int|
        0 <= i < output->0.len() && (#[trigger] output->0[i]).str_at("type"@) == Some(
            "function_call"@,
        ) {
        "tool_calls"@
    } else {
        "stop"@
    }
}

/// What an event of a Responses stream tells a chat client. Empty deltas tell nothing.
pub open spec fn told_by_responses(name: Seq<char>, e: JsonV) -> Seq<Told> {
    let delta = e.str_or("delta"@, ""@);
    let place = e.u64_or("output_index"@, 0);
    let item = e.get_or_null("item"@);
    if name == "response.output_text.delta"@ {
        if_some_text(delta, Told::Text(delta))
    } else if name == "response.reasoning_summary_text.delta"@ {
        if_some_text(delta, Told::Thinking(delta))
    } else if name == "response.function_call_arguments.delta"@ {
        if_some_text(delta, Told::Arguments(place, delta))
    } else if name == "response.output_item.added"@ && item.str_at("type"@) == Some(
        "function_call"@,
    ) {
        seq![Told::Call(place, item.str_or("id"@, ""@), item.str_or("name"@, ""@))]
    } else if name == "response.completed"@ {
        seq![Told::Finish(end_of_response(e.get_or_null("response"@))), Told::Done]
    } else if name == "response.failed"@ {
        seq![Told::Finish("stop"@), Told::Done]
    } else {
        Seq::empty()
    }
}

/// One thing, where its text is not empty.
pub open spec fn if_some_text(t: Seq<char>, told: Told) -> Seq<Told> {
    if t.len() > 0 {
        seq![told]
    } else {
        Seq::empty()
    }
}

pub open spec fn told_by_responses_fn() -> spec_fn((Seq<char>, JsonV)) -> Seq<Told> {
    |e: (Seq<char>, JsonV)| told_by_responses(e.0, e.1)
}

proof fn lemma_responses_names()
    ensures
        "response.output_text.delta"@ != "response.reasoning_summary_text.delta"@,
        "response.output_text.delta"@ != "response.created"@,
        "response.output_text.delta"@ != "response.in_progress"@,
        "response.output_text.delta"@ != "response.function_call_arguments.delta"@,
        "response.output_item.added"@ != "response.output_text.delta"@,
        "response.output_item.added"@ != "response.created"@,
        "response.output_item.added"@ != "response.in_progress"@,
        "response.output_item.added"@ != "response.reasoning_summary_text.delta"@,
        "response.output_item.added"@ != "response.function_call_arguments.delta"@,
        "response.output_item.added"@ != "response.completed"@,
        "response.output_item.added"@ != "response.failed"@,
        "response.reasoning_summary_text.delta"@ != "response.created"@,
        "response.reasoning_summary_text.delta"@ != "response.in_progress"@,
        "response.function_call_arguments.delta"@ != "response.created"@,
        "response.function_call_arguments.delta"@ != "response.in_progress"@,
        "response.function_call_arguments.delta"@ != "response.reasoning_summary_text.delta"@,
        "response.completed"@ != "response.created"@,
        "response.completed"@ != "response.in_progress"@,
        "response.completed"@ != "response.output_text.delta"@,
        "response.completed"@ != "response.reasoning_summary_text.delta"@,
        "response.completed"@ != "response.function_call_arguments.delta"@,
        "response.failed"@ != "response.created"@,
        "response.failed"@ != "response.in_progress"@,
        "response.failed"@ != "response.output_text.delta"@,
        "response.failed"@ != "response.reasoning_summary_text.delta"@,
        "response.failed"@ != "response.function_call_arguments.delta"@,
        "response.failed"@ != "response.completed"@,
        "failed"@ != "incomplete"@,
{
    reveal_strlit("response.output_text.delta");
    reveal_strlit("response.output_item.added");
    reveal_strlit("response.reasoning_summary_text.delta");
    reveal_strlit("response.function_call_arguments.delta");
    reveal_strlit("response.created");
    reveal_strlit("response.in_progress");
    reveal_strlit("response.completed");
    reveal_strlit("response.failed");
    reveal_strlit("failed");
    reveal_strlit("incomplete");
    assert("response.output_text.delta"@.len() == 26);
    assert("response.output_item.added"@.len() == 26);
    assert("response.output_text.delta"@[16] == 't' && "response.output_item.added"@[16] == 'i');
    assert("response.reasoning_summary_text.delta"@.len() == 37);
    assert("response.function_call_arguments.delta"@.len() == 38);
    assert("response.created"@.len() == 16 && "response.in_progress"@.len() == 20);
    assert("response.completed"@.len() == 18 && "response.failed"@.len() == 15);
    assert("failed"@.len() == 6 && "incomplete"@.len() == 10);
}

proof fn lemma_responses_event(s: ResponsesToChat, name: Seq<char>, e: JsonV, all: Seq<Told>)
    requires
        tells(s.chat.out, all, s.chat.model),
    ensures
        tells(
            s.handle(name, e).chat.out,
            all + told_by_responses(name, e),
            s.handle(name, e).chat.model,
        ),
{
    keys::lemma_chunk_keys();
    lemma_responses_names();
    reveal_strlit("");
    let delta = e.str_or("delta"@, ""@);
    let index = e.u64_or("output_index"@, 0);
    let item = e.get_or_null("item"@);
    let told = told_by_responses(name, e);
    if told.len() == 0 {
        assert(all + told =~= all);
    } else if told.len() == 1 {
        assert(all + told =~= all.push(told[0]));
        if name == "response.output_text.delta"@ {
            lemma_sent(s.chat, false, delta, None, told[0], all);
        } else if name == "response.reasoning_summary_text.delta"@ {
            lemma_sent(s.chat, true, delta, None, told[0], all);
        } else if name == "response.function_call_arguments.delta"@ {
            let tcs = responses_to_chat::more_arguments_v(index, delta);
            lemma_sent(s.chat, false, ""@, Some(tcs), told[0], all);
        } else {
            let tcs = responses_to_chat::new_call_v(
                index,
                item.str_or("id"@, ""@),
                item.str_or("name"@, ""@),
            );
            lemma_sent(s.chat, false, ""@, Some(tcs), told[0], all);
        }
    } else {
        let reason = responses_to_chat::finish_of_event(e);
        if name == "response.completed"@ {
            assert(reason == end_of_response(e.get_or_null("response"@)));
            lemma_finished(s.chat, reason, all);
        } else {
            lemma_finished(s.chat, "stop"@, all);
        }
        assert(all + told =~= all.push(told[0]).push(told[1]));
    }
}

/// What a Responses stream says comes out of the Chat Completions stream made from it whole
/// and in order: every text, every piece of reasoning, every piece of arguments with the place
/// of its call, every call with its id and its name, and why the answer ends. Each comes in a
/// chunk of its own under the model of the request, and no other chunk comes.
pub proof fn lemma_responses_to_chat_whole(model: Seq<char>, lines: Seq<Seq<char>>)
    ensures
        tells(
            sse::read_lines(ResponsesToChat::new(model), lines).chat.out,
            seqs::flat(events_of(lines), told_by_responses_fn()),
            model,
        ),
        sse::read_lines(ResponsesToChat::new(model), lines).event == name_for_next(lines),
        sse::read_lines(ResponsesToChat::new(model), lines).chat.model == model,
    decreases lines.len(),
{
    if lines.len() > 0 {
        let first = lines.drop_last();
        lemma_responses_to_chat_whole(model, first);
        let s = sse::read_lines(ResponsesToChat::new(model), first);
        match chat_chunks::event_line(lines.last()) {
            EventLine::Data(e) => {
                let events = events_of(lines);
                let all = seqs::flat(events_of(first), told_by_responses_fn());
                assert(events.drop_last() =~= events_of(first));
                let s1 = ResponsesToChat { event: Seq::empty(), ..s };
                lemma_responses_event(s1, events.last().0, e, all);
            },
            _ => {},
        }
    }
}

/// The index of the block that an event of an Anthropic stream is about.
pub open spec fn block_at(e: JsonV) -> u32 {
    e.u64_or("index"@, 0) as u32
}

/// The block that is open at an index after events: the last that has started there, where it
/// has not stopped since.
pub open spec fn open_block(events: Seq<(Seq<char>, JsonV)>, k: u32) -> Option<JsonV>
    decreases events.len(),
{
    if events.len() == 0 {
        None
    } else {
        let (name, e) = events.last();
        if name == "content_block_start"@ && block_at(e) == k {
            Some(e.get_or_null("content_block"@))
        } else if name == "content_block_stop"@ && block_at(e) == k {
            None
        } else {
            open_block(events.drop_last(), k)
        }
    }
}

/// The reason to stop that was told last, "stop" where none was.
pub open spec fn last_stop_reason(events: Seq<(Seq<char>, JsonV)>) -> Seq<char>
    decreases events.len(),
{
    if events.len() == 0 {
        "stop"@
    } else {
        let (name, e) = events.last();
        let reason = e.get_or_null("delta"@).str_at("stop_reason"@);
        if name == "message_delta"@ && reason is Some {
            reason->0
        } else {
            last_stop_reason(events.drop_last())
        }
    }
}

/// Why a chat ends, by the reason of Anthropic.
pub open spec fn end_by_stop_reason(reason: Seq<char>) -> Seq<char> {
    if reason == "tool_use"@ {
        "tool_calls"@
    } else if reason == "max_tokens"@ {
        "length"@
    } else {
        "stop"@
    }
}

/// What a delta of an Anthropic block tells a chat client.
pub open spec fn told_by_delta(e: JsonV) -> Seq<Told> {
    let delta = e.get_or_null("delta"@);
    let kind = delta.str_at("type"@);
    let said = delta.str_at("text"@);
    let thought = delta.str_at("thinking"@);
    let piece = delta.str_at("partial_json"@);
    if kind == Some("text_delta"@) && said is Some {
        seq![Told::Text(said->0)]
    } else if kind == Some("thinking_delta"@) && thought is Some {
        if_some_text(thought->0, Told::Thinking(thought->0))
    } else if kind == Some("input_json_delta"@) && piece is Some {
        seq![Told::Arguments(block_at(e) as u64, piece->0)]
    } else {
        Seq::empty()
    }
}

/// What an event of an Anthropic stream tells a chat client after the events before it.
pub open spec fn told_by_anthropic(
    before: Seq<(Seq<char>, JsonV)>,
    name: Seq<char>,
    e: JsonV,
) -> Seq<Told> {
    let block = open_block(before, block_at(e));
    if name == "content_block_delta"@ {
        told_by_delta(e)
    } else if name == "content_block_stop"@ && block is Some && block->0.str_at("type"@) == Some(
        "tool_use"@,
    ) {
        seq![
            Told::Call(
                block_at(e) as u64,
                block->0.str_or("id"@, ""@),
                block->0.str_or("name"@, ""@),
            ),
        ]
    } else if name == "message_stop"@ {
        seq![Told::Finish(end_by_stop_reason(last_stop_reason(before))), Told::Done]
    } else {
        Seq::empty()
    }
}

/// What the events of an Anthropic stream tell a chat client.
pub open spec fn told_by_all(events: Seq<(Seq<char>, JsonV)>) -> Seq<Told>
    decreases events.len(),
{
    if events.len() == 0 {
        Seq::empty()
    } else {
        told_by_all(events.drop_last()) + told_by_anthropic(
            events.drop_last(),
            events.last().0,
            events.last().1,
        )
    }
}

/// Whether the block that is open at an index is known, with its type and, where it asks for a
/// tool, with the id and the name of the tool.
spec fn knows_block(
    kinds: Map<u32, Seq<char>>,
    tools: Map<u32, OpenTool>,
    block: Option<JsonV>,
    k: u32,
) -> bool {
    &&& kinds.contains_key(k) == (block is Some)
    &&& block is Some ==> kinds[k] == block->0.str_or("type"@, ""@)
    &&& block is Some && block->0.str_at("type"@) == Some("tool_use"@) ==> {
        &&& tools.contains_key(k)
        &&& tools[k].id == block->0.str_or("id"@, ""@)
        &&& tools[k].name == block->0.str_or("name"@, ""@)
    }
}

/// Whether the open blocks are known.
spec fn knows_blocks(
    kinds: Map<u32, Seq<char>>,
    tools: Map<u32, OpenTool>,
    events: Seq<(Seq<char>, JsonV)>,
) -> bool {
    forall|k: u32| knows_block(kinds, tools, #[trigger] open_block(events, k), k)
}

/// Whether a conversion knows the open blocks and the reason to stop.
spec fn knows(s: AnthropicToChat, events: Seq<(Seq<char>, JsonV)>) -> bool {
    s.stop_reason == last_stop_reason(events) && knows_blocks(s.kinds, s.tools, events)
}

proof fn lemma_anthropic_names()
    ensures
        "content_block_start"@ != "content_block_delta"@,
        "content_block_start"@ != "content_block_stop"@,
        "content_block_start"@ != "message_start"@,
        "content_block_start"@ != "message_delta"@,
        "content_block_start"@ != "message_stop"@,
        "content_block_delta"@ != "content_block_stop"@,
        "content_block_delta"@ != "message_start"@,
        "content_block_delta"@ != "message_delta"@,
        "content_block_delta"@ != "message_stop"@,
        "content_block_stop"@ != "message_start"@,
        "content_block_stop"@ != "message_delta"@,
        "content_block_stop"@ != "message_stop"@,
        "message_start"@ != "message_delta"@,
        "message_start"@ != "message_stop"@,
        "message_delta"@ != "message_stop"@,
        "text_delta"@ != "thinking_delta"@,
        "text_delta"@ != "input_json_delta"@,
        "thinking_delta"@ != "input_json_delta"@,
        "text_delta"@ != ""@,
        "thinking_delta"@ != ""@,
        "input_json_delta"@ != ""@,
        "tool_use"@ != ""@,
        ""@.len() == 0,
{
    reveal_strlit("content_block_start");
    reveal_strlit("content_block_delta");
    reveal_strlit("content_block_stop");
    reveal_strlit("message_start");
    reveal_strlit("message_delta");
    reveal_strlit("message_stop");
    reveal_strlit("text_delta");
    reveal_strlit("thinking_delta");
    reveal_strlit("input_json_delta");
    reveal_strlit("tool_use");
    reveal_strlit("");
    assert("content_block_start"@[14] == 's' && "content_block_delta"@[14] == 'd');
    assert("content_block_start"@.len() == 19 && "content_block_delta"@.len() == 19);
    assert("content_block_stop"@.len() == 18 && "message_start"@.len() == 13);
    assert("message_delta"@.len() == 13 && "message_stop"@.len() == 12);
    assert("message_start"@[8] == 's' && "message_delta"@[8] == 'd');
    assert("text_delta"@.len() == 10 && "thinking_delta"@.len() == 14);
    assert("input_json_delta"@.len() == 16 && "tool_use"@.len() == 8);
}

proof fn lemma_anthropic_event(
    s: AnthropicToChat,
    before: Seq<(Seq<char>, JsonV)>,
    name: Seq<char>,
    e: JsonV,
)
    requires
        knows(s, before),
        tells(s.chat.out, told_by_all(before), s.chat.model),
    ensures
        knows(s.handle(name, e), before.push((name, e))),
        tells(
            s.handle(name, e).chat.out,
            told_by_all(before.push((name, e))),
            s.handle(name, e).chat.model,
        ),
        s.handle(name, e).chat.model == s.chat.model,
        s.handle(name, e).event == s.event,
{
    keys::lemma_chunk_keys();
    lemma_anthropic_names();
    let all = told_by_all(before);
    let told = told_by_anthropic(before, name, e);
    let events = before.push((name, e));
    assert(events.drop_last() =~= before);
    let t = s.handle(name, e);
    let k = block_at(e);
    assert(knows_block(s.kinds, s.tools, open_block(before, k), k));
    assert forall|j: u32| knows_block(t.kinds, t.tools, #[trigger] open_block(events, j), j) by {
        assert(knows_block(s.kinds, s.tools, open_block(before, j), j));
    }
    assert(t.stop_reason == last_stop_reason(events));
    assert(knows(t, events));
    if told.len() == 0 {
        assert(all + told =~= all);
    } else if name == "content_block_delta"@ {
        assert(all + told =~= all.push(told[0]));
        let delta = e.get_or_null("delta"@);
        match told[0] {
            Told::Text(x) => {
                lemma_sent(s.chat, false, x, None, told[0], all);
            },
            Told::Thinking(x) => {
                lemma_sent(s.chat, true, x, None, told[0], all);
            },
            _ => {
                let x = delta.str_at("partial_json"@)->0;
                lemma_sent(
                    s.chat,
                    false,
                    ""@,
                    Some(anthropic_to_chat::more_arguments_v(k, x)),
                    told[0],
                    all,
                );
            },
        }
    } else if name == "content_block_stop"@ {
        assert(all + told =~= all.push(told[0]));
        lemma_sent(
            s.chat,
            false,
            ""@,
            Some(anthropic_to_chat::call_head_v(k, s.tools[k])),
            told[0],
            all,
        );
    } else {
        let reason = end_by_stop_reason(last_stop_reason(before));
        lemma_finished(s.chat, reason, all);
        assert(all + told =~= all.push(told[0]).push(told[1]));
    }
}

/// What an Anthropic stream says comes out of the Chat Completions stream made from it whole
/// and in order: every text, every piece of thinking, every piece of a tool's input with the
/// index of its block, every tool with its id and its name once its block stops, and why the
/// answer ends. Each comes in a chunk of its own under the model of the request, and no other
/// chunk comes.
pub proof fn lemma_anthropic_to_chat_whole(model: Seq<char>, created: u64, lines: Seq<Seq<char>>)
    ensures
        tells(
            sse::read_lines(AnthropicToChat::new(model, created), lines).chat.out,
            told_by_all(events_of(lines)),
            model,
        ),
{
    lemma_anthropic_lines(model, created, lines);
}

proof fn lemma_anthropic_lines(model: Seq<char>, created: u64, lines: Seq<Seq<char>>)
    ensures
        ({
            let s = sse::read_lines(AnthropicToChat::new(model, created), lines);
            &&& tells(s.chat.out, told_by_all(events_of(lines)), model)
            &&& knows(s, events_of(lines))
            &&& s.event == name_for_next(lines)
            &&& s.chat.model == model
        }),
    decreases lines.len(),
{
    if lines.len() > 0 {
        let first = lines.drop_last();
        lemma_anthropic_lines(model, created, first);
        let s = sse::read_lines(AnthropicToChat::new(model, created), first);
        match chat_chunks::event_line(lines.last()) {
            EventLine::Data(e) => {
                let s1 = AnthropicToChat { event: Seq::empty(), ..s };
                assert(knows(s1, events_of(first)));
                lemma_anthropic_event(s1, events_of(first), events_of(lines).last().0, e);
            },
            EventLine::Name(name) => {
                assert(knows(AnthropicToChat { event: name, ..s }, events_of(first)));
            },
            EventLine::Nothing => {},
        }
    }
}

} // verus!
