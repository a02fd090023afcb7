//! What an answer keeps when it becomes an answer of another format.

use vstd::prelude::*;

use super::to_anthropic;
use super::to_chat;
use super::to_responses;
use crate::convert::parts;
use crate::convert::readings;
use crate::convert::readings::Call;
use crate::convert::requests::{
    anthropic_chat, anthropic_kept, anthropic_responses, chat_anthropic, codex_anthropic,
};
use crate::convert::think;
use crate::json::{self, JsonV};
use crate::keys;
use crate::seqs;
use crate::text;

verus! {

/// The message of the first choice of a chat answer, null where there is none.
pub open spec fn chat_message(body: JsonV) -> JsonV {
    if readings::list(body, "choices"@).len() > 0 {
        readings::list(body, "choices"@)[0].get_or_null("message"@)
    } else {
        JsonV::Null
    }
}

/// Why a chat answer finished.
pub open spec fn chat_finish(body: JsonV) -> Option<Seq<char>> {
    if readings::list(body, "choices"@).len() > 0 {
        readings::list(body, "choices"@)[0].str_at("finish_reason"@)
    } else {
        None
    }
}

/// A count of the usage of an answer, zero where it is not told.
pub open spec fn count(body: JsonV, key: Seq<char>) -> u64 {
    body.get_or_null("usage"@).u64_or(key, 0)
}

/// The block, where it asks for a tool.
pub open spec fn if_tool_fn() -> spec_fn(JsonV) -> Seq<JsonV> {
    |b: JsonV|
        if b.str_at("type"@) == Some("tool_use"@) {
            seq![b]
        } else {
            Seq::empty()
        }
}

/// The item, where it calls a function.
pub open spec fn if_call_fn() -> spec_fn(JsonV) -> Seq<JsonV> {
    |item: JsonV|
        if item.str_at("type"@) == Some("function_call"@) {
            seq![item]
        } else {
            Seq::empty()
        }
}

/// The text of a part of a message of the Responses format.
pub open spec fn words_of_part_fn() -> spec_fn(JsonV) -> Seq<char> {
    |p: JsonV|
        if p.str_at("type"@) == Some("output_text"@) {
            p.str_or("text"@, ""@)
        } else {
            Seq::empty()
        }
}

/// The text of an item of the Responses format.
pub open spec fn words_of_item_fn() -> spec_fn(JsonV) -> Seq<char> {
    |item: JsonV|
        if item.str_at("type"@) == Some("message"@) {
            seqs::flat(readings::list(item, "content"@), words_of_part_fn())
        } else {
            Seq::empty()
        }
}

/// The value of arguments: what their text holds, nothing but an empty object where it is no
/// JSON.
pub open spec fn parsed(arguments: Seq<char>) -> JsonV {
    match json::wire::json_of_text(arguments) {
        Some(v) => v,
        None => json::jobj(),
    }
}

/// Whether a block asks for a call with its value as the input.
pub open spec fn asks(b: JsonV, c: Call) -> bool {
    &&& b.str_at("type"@) == Some("tool_use"@)
    &&& c.id.len() > 0 ==> b.str_at("id"@) == Some(c.id)
    &&& b.str_at("name"@) == Some(c.name)
    &&& b.get("input"@) == Some(parsed(c.arguments))
}

/// Whether the tools that blocks ask for are calls, each in its place.
pub open spec fn ask_for(tools: Seq<JsonV>, calls: Seq<Call>) -> bool {
    tools.len() == calls.len() && forall|i: int|
        0 <= i < calls.len() ==> asks(#[trigger] tools[i], calls[i])
}

/// Why an Anthropic answer stops, by how a chat answer finished.
pub open spec fn stop_by_finish(finish: Option<Seq<char>>) -> Seq<char> {
    if finish == Some("tool_calls"@) {
        "tool_use"@
    } else if finish == Some("length"@) {
        "max_tokens"@
    } else {
        "end_turn"@
    }
}

/// Why a chat answer finishes, by how an Anthropic answer stopped.
pub open spec fn finish_by_stop(stop: Option<Seq<char>>) -> Seq<char> {
    if stop == Some("tool_use"@) {
        "tool_calls"@
    } else if stop == Some("max_tokens"@) {
        "length"@
    } else {
        "stop"@
    }
}

/// The words, the thinking and the tools of the blocks of an Anthropic answer.
spec fn blocks_say(
    blocks: Seq<JsonV>,
    said: Seq<char>,
    thought: Seq<char>,
    tools: Seq<JsonV>,
) -> bool {
    &&& seqs::flat(blocks, anthropic_kept::words_of_text_block_fn()) == said
    &&& seqs::flat(blocks, anthropic_kept::thoughts_of_block_fn()) == thought
    &&& seqs::flat(blocks, if_tool_fn()) == tools
}

proof fn lemma_blocks_add(
    a: Seq<JsonV>,
    b: Seq<JsonV>,
    s: (Seq<char>, Seq<char>),
    t: (Seq<char>, Seq<char>),
    u: (Seq<JsonV>, Seq<JsonV>),
)
    requires
        blocks_say(a, s.0, t.0, u.0),
        blocks_say(b, s.1, t.1, u.1),
    ensures
        blocks_say(a + b, s.0 + s.1, t.0 + t.1, u.0 + u.1),
{
    seqs::lemma_flat_add(a, b, anthropic_kept::words_of_text_block_fn());
    seqs::lemma_flat_add(a, b, anthropic_kept::thoughts_of_block_fn());
    seqs::lemma_flat_add(a, b, if_tool_fn());
}

proof fn lemma_no_blocks()
    ensures
        blocks_say(Seq::empty(), Seq::empty(), Seq::empty(), Seq::empty()),
{
}

proof fn lemma_one_block(b: JsonV)
    ensures
        blocks_say(
            seq![b],
            anthropic_kept::words_of_text_block_fn()(b),
            anthropic_kept::thoughts_of_block_fn()(b),
            if_tool_fn()(b),
        ),
{
    seqs::lemma_flat_one(b, anthropic_kept::words_of_text_block_fn());
    seqs::lemma_flat_one(b, anthropic_kept::thoughts_of_block_fn());
    seqs::lemma_flat_one(b, if_tool_fn());
}

/// A block of text, where there is any.
proof fn lemma_text_if_any(t: Option<Seq<char>>)
    ensures
        blocks_say(
            chat_anthropic::text_block_if_any("text"@, t),
            match t {
                Some(t) => t,
                None => Seq::empty(),
            },
            Seq::empty(),
            Seq::empty(),
        ),
{
    keys::lemma_answer_keys();
    lemma_no_blocks();
    match t {
        Some(t) => {
            if t.len() > 0 {
                lemma_one_block(parts::text_block_v("text"@, t));
            } else {
                assert(t =~= Seq::<char>::empty());
            }
        },
        None => {},
    }
}

/// A block of thinking, where there is any.
proof fn lemma_thinking_if_any(t: Seq<char>)
    ensures
        blocks_say(codex_anthropic::thinking_if_any(t), Seq::empty(), t, Seq::empty()),
{
    keys::lemma_answer_keys();
    lemma_no_blocks();
    if t.len() > 0 {
        lemma_one_block(codex_anthropic::thinking_block_v(t));
    } else {
        assert(t =~= Seq::<char>::empty());
    }
}

/// Blocks that all ask for tools.
proof fn lemma_all_tools(tools: Seq<JsonV>)
    requires
        forall|i: int|
            0 <= i < tools.len() ==> (#[trigger] tools[i]).str_at("type"@) == Some("tool_use"@),
    ensures
        blocks_say(tools, Seq::empty(), Seq::empty(), tools),
{
    keys::lemma_answer_keys();
    assert forall|i: int| 0 <= i < tools.len() implies if_tool_fn()(#[trigger] tools[i]) == seq![
        tools[i],
    ] && anthropic_kept::words_of_text_block_fn()(tools[i]) == Seq::<char>::empty()
        && anthropic_kept::thoughts_of_block_fn()(tools[i]) == Seq::<char>::empty() by {}
    seqs::lemma_flat_each(tools, if_tool_fn(), tools);
    seqs::lemma_flat_none(tools, anthropic_kept::words_of_text_block_fn());
    seqs::lemma_flat_none(tools, anthropic_kept::thoughts_of_block_fn());
}

/// The content of an Anthropic answer: the blocks, or an empty text.
proof fn lemma_content(
    id: Seq<char>,
    content: Seq<JsonV>,
    model: Seq<char>,
    stop: Seq<char>,
    usage: JsonV,
    said: Seq<char>,
    thought: Seq<char>,
    tools: Seq<JsonV>,
)
    requires
        blocks_say(content, said, thought, tools),
    ensures
        ({
            let out = to_anthropic::anthropic_message_v(id, content, model, stop, usage);
            &&& blocks_say(readings::list(out, "content"@), said, thought, tools)
            &&& out.str_at("id"@) == Some(id)
            &&& out.str_at("role"@) == Some("assistant"@)
            &&& out.str_at("type"@) == Some("message"@)
            &&& out.str_at("stop_reason"@) == Some(stop)
            &&& out.get("usage"@) == Some(usage)
        }),
{
    keys::lemma_answer_keys();
    reveal_strlit("");
    assert(""@ =~= Seq::<char>::empty());
    if content.len() == 0 {
        lemma_one_block(parts::text_block_v("text"@, ""@));
        assert(content =~= Seq::empty());
        lemma_no_blocks();
        assert(said =~= Seq::<char>::empty());
    }
}

/// An Anthropic answer made from a chat answer holds what the chat answer holds: its id, all of
/// its text, all of its reasoning, its tool calls each in its place with the id, the name and
/// the value of the arguments, why it finished, and what it used.
pub proof fn lemma_chat_answer_to_anthropic(body: JsonV, model: Seq<char>)
    ensures
        ({
            let out = to_anthropic::chat_response_as_anthropic(body, model);
            let blocks = readings::list(out, "content"@);
            let m = chat_message(body);
            &&& body.str_at("id"@) is Some ==> out.str_at("id"@) == body.str_at("id"@)
            &&& seqs::flat(blocks, anthropic_kept::words_of_text_block_fn()) == m.str_or(
                "content"@,
                ""@,
            )
            &&& seqs::flat(blocks, anthropic_kept::thoughts_of_block_fn()) == m.str_or(
                "reasoning_content"@,
                ""@,
            )
            &&& ask_for(
                seqs::flat(blocks, if_tool_fn()),
                seqs::flat(readings::list(m, "tool_calls"@), readings::call_of_chat_fn()),
            )
            &&& out.str_at("stop_reason"@) == Some(stop_by_finish(chat_finish(body)))
            &&& count(out, "input_tokens"@) == count(body, "prompt_tokens"@)
            &&& count(out, "output_tokens"@) == count(body, "completion_tokens"@)
        }),
{
    keys::lemma_answer_keys();
    reveal_strlit("");
    assert(""@ =~= Seq::<char>::empty());
    let m = chat_message(body);
    let tcs = readings::list(m, "tool_calls"@);
    let message = json::at_v(to_anthropic::first_choice(body), "message"@);
    let content = to_anthropic::blocks_of_chat(message);
    let said = m.str_or("content"@, ""@);
    let thought = m.str_or("reasoning_content"@, ""@);
    let tools = tcs.map(to_anthropic::tool_use_at_fn());
    lemma_all_tools(tools);
    lemma_text_if_any(m.str_at("content"@));
    lemma_thinking_if_any(thought);
    let a = codex_anthropic::thinking_if_any(thought);
    let b = chat_anthropic::text_block_if_any("text"@, m.str_at("content"@));
    lemma_blocks_add(
        a,
        b,
        (Seq::empty(), said),
        (thought, Seq::empty()),
        (Seq::empty(), Seq::empty()),
    );
    lemma_blocks_add(
        a + b,
        tools,
        (Seq::empty() + said, Seq::empty()),
        (thought + Seq::empty(), Seq::empty()),
        (Seq::<JsonV>::empty() + Seq::empty(), tools),
    );
    assert(Seq::<char>::empty() + said + Seq::<char>::empty() =~= said);
    assert(thought + Seq::<char>::empty() + Seq::<char>::empty() =~= thought);
    assert(Seq::<JsonV>::empty() + Seq::<JsonV>::empty() + tools =~= tools);
    assert(content =~= a + b + tools) by {
        match message {
            Some(x) => {
                assert(x == m);
                if m.array_at("tool_calls"@) is None {
                    assert(tools =~= Seq::empty());
                }
            },
            None => {
                assert(m is Null);
                assert(tools =~= Seq::empty());
            },
        }
    }
    let finish = json::str_of_v(json::at_v(to_anthropic::first_choice(body), "finish_reason"@));
    assert(finish == chat_finish(body));
    lemma_content(
        body.str_or("id"@, "msg_unknown"@),
        content,
        model,
        to_anthropic::stop_reason_of_finish(finish),
        to_anthropic::anthropic_usage_v(
            to_anthropic::usage_of(body, "prompt_tokens"@),
            to_anthropic::usage_of(body, "completion_tokens"@),
        ),
        said,
        thought,
        tools,
    );
    let calls = Seq::new(tcs.len(), |i: int| readings::call_of_chat(tcs[i]));
    seqs::lemma_flat_each(tcs, readings::call_of_chat_fn(), calls);
    assert(ask_for(tools, calls));
}

/// The blocks of the parts of a message.
proof fn lemma_parts(ps: Seq<JsonV>)
    ensures
        blocks_say(
            seqs::flat(ps, to_anthropic::block_of_part_fn()),
            seqs::flat(ps, words_of_part_fn()),
            Seq::empty(),
            Seq::empty(),
        ),
    decreases ps.len(),
{
    reveal_strlit("");
    assert(""@ =~= Seq::<char>::empty());
    lemma_no_blocks();
    if ps.len() > 0 {
        let first = ps.drop_last();
        lemma_parts(first);
        let p = ps.last();
        lemma_text_if_any(p.str_at("text"@));
        lemma_blocks_add(
            seqs::flat(first, to_anthropic::block_of_part_fn()),
            to_anthropic::block_of_part(p),
            (seqs::flat(first, words_of_part_fn()), words_of_part_fn()(p)),
            (Seq::empty(), Seq::empty()),
            (Seq::empty(), Seq::empty()),
        );
        assert(Seq::<char>::empty() + Seq::<char>::empty() =~= Seq::<char>::empty());
        assert(Seq::<JsonV>::empty() + Seq::<JsonV>::empty() =~= Seq::<JsonV>::empty());
    }
}

/// The tool that a function call becomes.
spec fn tool_of_item_fn() -> spec_fn(JsonV) -> Seq<JsonV> {
    |item: JsonV|
        if item.str_at("type"@) == Some("function_call"@) {
            to_anthropic::blocks_of_item(item)
        } else {
            Seq::empty()
        }
}

proof fn lemma_items(items: Seq<JsonV>)
    ensures
        blocks_say(
            seqs::flat(items, to_anthropic::blocks_of_item_fn()),
            seqs::flat(items, words_of_item_fn()),
            Seq::empty(),
            seqs::flat(items, tool_of_item_fn()),
        ),
        ask_for(
            seqs::flat(items, tool_of_item_fn()),
            seqs::flat(items, readings::call_of_item_fn()),
        ),
    decreases items.len(),
{
    keys::lemma_answer_keys();
    lemma_no_blocks();
    if items.len() > 0 {
        let first = items.drop_last();
        lemma_items(first);
        let item = items.last();
        let blocks = to_anthropic::blocks_of_item(item);
        if item.str_at("type"@) == Some("message"@) {
            lemma_parts(readings::list(item, "content"@));
        } else if item.str_at("type"@) == Some("function_call"@) {
            assert(blocks =~= seq![blocks[0]]);
            lemma_one_block(blocks[0]);
            assert(if_tool_fn()(blocks[0]) =~= blocks);
        }
        assert(blocks_say(blocks, words_of_item_fn()(item), Seq::empty(), tool_of_item_fn()(item)));
        lemma_blocks_add(
            seqs::flat(first, to_anthropic::blocks_of_item_fn()),
            blocks,
            (seqs::flat(first, words_of_item_fn()), words_of_item_fn()(item)),
            (Seq::empty(), Seq::empty()),
            (seqs::flat(first, tool_of_item_fn()), tool_of_item_fn()(item)),
        );
        assert(Seq::<char>::empty() + Seq::<char>::empty() =~= Seq::<char>::empty());
        let tools = seqs::flat(items, tool_of_item_fn());
        let calls = seqs::flat(items, readings::call_of_item_fn());
        let n = seqs::flat(first, tool_of_item_fn()).len();
        assert forall|i: int| 0 <= i < calls.len() implies asks(#[trigger] tools[i], calls[i]) by {
            if i < n {
                assert(tools[i] == seqs::flat(first, tool_of_item_fn())[i]);
                assert(calls[i] == seqs::flat(first, readings::call_of_item_fn())[i]);
            } else {
                assert(tools[i] == blocks[0]);
                assert(calls[i] == readings::call_of_item(item)[0]);
            }
        }
    }
}

/// An Anthropic answer made from a Responses answer holds what it holds: its id, all of its
/// text, its function calls each in its place with the id under which the provider waits for
/// the output, the name and the value of the arguments, and what it used. It stops for tools
/// where it calls any, else for its length where it is incomplete.
pub proof fn lemma_responses_answer_to_anthropic(body: JsonV, model: Seq<char>)
    ensures
        ({
            let out = to_anthropic::responses_response_as_anthropic(body, model);
            let blocks = readings::list(out, "content"@);
            let items = readings::list(body, "output"@);
            let calls = seqs::flat(items, readings::call_of_item_fn());
            &&& body.str_at("id"@) is Some ==> out.str_at("id"@) == body.str_at("id"@)
            &&& seqs::flat(blocks, anthropic_kept::words_of_text_block_fn()) == seqs::flat(
                items,
                words_of_item_fn(),
            )
            &&& ask_for(seqs::flat(blocks, if_tool_fn()), calls)
            &&& out.str_at("stop_reason"@) == Some(
                if calls.len() > 0 {
                    "tool_use"@
                } else if body.str_at("status"@) == Some("incomplete"@) {
                    "max_tokens"@
                } else {
                    "end_turn"@
                },
            )
            &&& count(out, "input_tokens"@) == count(body, "input_tokens"@)
            &&& count(out, "output_tokens"@) == count(body, "output_tokens"@)
        }),
{
    keys::lemma_answer_keys();
    let items = readings::list(body, "output"@);
    lemma_items(items);
    lemma_has_call(items);
    lemma_content(
        body.str_or("id"@, "msg_unknown"@),
        seqs::flat(items, to_anthropic::blocks_of_item_fn()),
        model,
        to_anthropic::stop_reason_of_responses(body),
        to_anthropic::anthropic_usage_v(
            to_anthropic::usage_of(body, "input_tokens"@),
            to_anthropic::usage_of(body, "output_tokens"@),
        ),
        seqs::flat(items, words_of_item_fn()),
        Seq::empty(),
        seqs::flat(items, tool_of_item_fn()),
    );
}

/// The id under which a provider waits for the output of a function call comes back to it. The
/// call becomes a tool use with that id, and whatever request answers a tool use of that id, in
/// any of its messages, holds for the provider an output under the same id, with the text of
/// the answer.
pub proof fn lemma_call_id_comes_back(
    answer: JsonV,
    model: Seq<char>,
    c: int,
    request: JsonV,
    target: Seq<char>,
    i: int,
    k: int,
)
    requires
        ({
            let calls = seqs::flat(
                readings::list(answer, "output"@),
                readings::call_of_item_fn(),
            );
            let out = to_anthropic::responses_response_as_anthropic(answer, model);
            let tools = seqs::flat(readings::list(out, "content"@), if_tool_fn());
            let m = readings::list(request, "messages"@)[i];
            let b = readings::list(m, "content"@)[k];
            &&& 0 <= c < calls.len()
            &&& calls[c].id.len() > 0
            &&& 0 <= i < readings::list(request, "messages"@).len()
            &&& m.str_at("role"@) == Some("user"@)
            &&& 0 <= k < readings::list(m, "content"@).len()
            &&& b.str_at("type"@) == Some("tool_result"@)
            &&& b.get("tool_use_id"@) == tools[c].get("id"@)
        }),
    ensures
        ({
            let calls = seqs::flat(
                readings::list(answer, "output"@),
                readings::call_of_item_fn(),
            );
            let b = readings::list(readings::list(request, "messages"@)[i], "content"@)[k];
            let items = readings::list(
                anthropic_responses::anthropic_as_responses(request, target),
                "input"@,
            );
            exists|j: int|
                {
                    &&& 0 <= j < items.len()
                    &&& (#[trigger] items[j]).str_at("type"@) == Some("function_call_output"@)
                    &&& items[j].str_at("call_id"@) == Some(calls[c].id)
                    &&& items[j].str_at("output"@) == Some(readings::words(b.get("content"@)))
                }
        }),
{
    lemma_responses_answer_to_anthropic(answer, model);
    let calls = seqs::flat(readings::list(answer, "output"@), readings::call_of_item_fn());
    let out = to_anthropic::responses_response_as_anthropic(answer, model);
    let tools = seqs::flat(readings::list(out, "content"@), if_tool_fn());
    let b = readings::list(readings::list(request, "messages"@)[i], "content"@)[k];
    assert(asks(tools[c], calls[c]));
    assert(b.str_or("tool_use_id"@, ""@) == calls[c].id);
    anthropic_kept::lemma_answer_reaches_responses(request, target, i, k);
}

proof fn lemma_has_call(items: Seq<JsonV>)
    ensures
        to_anthropic::has_function_call(items) == (seqs::flat(
            items,
            readings::call_of_item_fn(),
        ).len() > 0),
    decreases items.len(),
{
    if items.len() > 0 {
        let first = items.drop_last();
        lemma_has_call(first);
        if to_anthropic::has_function_call(first) {
            let i = choose|i: int|
                0 <= i < first.len() && (#[trigger] first[i]).str_is("type"@, "function_call"@);
            assert(items[i] == first[i]);
        }
        if to_anthropic::has_function_call(items) {
            let i = choose|i: int|
                0 <= i < items.len() && (#[trigger] items[i]).str_is("type"@, "function_call"@);
            if i < first.len() {
                assert(first[i] == items[i]);
            }
        }
        if items.last().str_is("type"@, "function_call"@) {
            assert(items[items.len() - 1].str_is("type"@, "function_call"@));
        }
    }
}

/// The message of a chat answer.
proof fn lemma_chat_message(
    content: JsonV,
    reasoning: Option<Seq<char>>,
    calls: Seq<JsonV>,
    finish: Seq<char>,
)
    ensures
        ({
            let m = to_chat::chat_message_v(content, reasoning, calls);
            let c = to_chat::one_choice_v(m, finish)->Arr_0[0];
            &&& c.get("message"@) == Some(m)
            &&& c.str_at("finish_reason"@) == Some(finish)
            &&& m.str_at("role"@) == Some("assistant"@)
            &&& m.get("content"@) == Some(content)
            &&& m.str_at("reasoning_content"@) == reasoning
            &&& readings::list(m, "tool_calls"@) == calls
        }),
{
    keys::lemma_answer_keys();
    if calls.len() == 0 {
        assert(calls =~= Seq::empty());
    }
}

/// The call of a block with the text of its input: the JSON of an object, a text as it is.
pub open spec fn call_in_answer_fn() -> spec_fn(JsonV) -> Seq<Call> {
    |b: JsonV|
        if b.str_at("type"@) == Some("tool_use"@) {
            seq![
                Call {
                    id: b.str_or("id"@, ""@),
                    name: b.str_or("name"@, ""@),
                    arguments: match b.get("input"@) {
                        Some(JsonV::Str(s)) => s,
                        Some(JsonV::Obj(o)) => json::wire::json_text(JsonV::Obj(o)),
                        _ => "{}"@,
                    },
                },
            ]
        } else {
            Seq::empty()
        }
}

/// A chat answer made from an Anthropic answer holds what it holds: its id, all of its text,
/// all of its thinking as the reasoning, its tools each in its place with the id, the name and
/// the input, why it stopped, and what it used.
pub proof fn lemma_anthropic_answer_to_chat(body: JsonV, model: Seq<char>, created: u64)
    ensures
        ({
            let out = to_chat::anthropic_response_as_chat(body, model, created);
            let m = chat_message(out);
            let blocks = readings::list(body, "content"@);
            let thought = seqs::flat(blocks, anthropic_kept::thoughts_of_block_fn());
            &&& body.str_at("id"@) is Some ==> out.str_at("id"@) == body.str_at("id"@)
            &&& m.str_at("role"@) == Some("assistant"@)
            &&& m.str_at("content"@) == Some(
                seqs::flat(blocks, anthropic_kept::words_of_text_block_fn()),
            )
            &&& m.str_or("reasoning_content"@, ""@) == thought
            &&& seqs::flat(readings::list(m, "tool_calls"@), readings::call_of_chat_fn())
                == seqs::flat(blocks, call_in_answer_fn())
            &&& chat_finish(out) == Some(finish_by_stop(body.str_at("stop_reason"@)))
            &&& count(out, "prompt_tokens"@) == count(body, "input_tokens"@)
            &&& count(out, "completion_tokens"@) == count(body, "output_tokens"@)
            &&& count(body, "input_tokens"@) + count(body, "output_tokens"@) <= u64::MAX ==> count(
                out,
                "total_tokens"@,
            ) == count(body, "input_tokens"@) + count(body, "output_tokens"@)
            &&& out.u64_at("created"@) == Some(created)
        }),
{
    keys::lemma_answer_keys();
    reveal_strlit("");
    assert(""@ =~= Seq::<char>::empty());
    let blocks = readings::list(body, "content"@);
    anthropic_kept::lemma_typed(blocks);
    let thoughts = seqs::flat(blocks, anthropic_chat::typed_text_fn("thinking"@, "thinking"@));
    if thoughts.len() == 0 {
        assert(text::joined(thoughts, ""@) =~= Seq::<char>::empty());
    }
    let calls = seqs::flat(blocks, to_chat::call_of_block_fn());
    let f = to_chat::call_of_block_fn();
    assert forall|i: int| 0 <= i < blocks.len() implies seqs::flat(
        f(#[trigger] blocks[i]),
        readings::call_of_chat_fn(),
    ) == call_in_answer_fn()(blocks[i]) by {
        let b = blocks[i];
        if b.str_at("type"@) == Some("tool_use"@) {
            assert(f(b) =~= seq![f(b)[0]]);
            seqs::lemma_flat_one(f(b)[0], readings::call_of_chat_fn());
        }
    }
    seqs::lemma_flat_flat(blocks, f, readings::call_of_chat_fn(), call_in_answer_fn());
    lemma_chat_message(
        JsonV::Str(
            text::joined(seqs::flat(blocks, anthropic_chat::typed_text_fn("text"@, "text"@)), ""@),
        ),
        if thoughts.len() > 0 {
            Some(text::joined(thoughts, ""@))
        } else {
            None
        },
        calls,
        to_chat::finish_of_stop_reason(body.str_at("stop_reason"@)),
    );
}

/// A chat answer made from a Responses answer holds what it holds: its id, all of its text, its
/// function calls each in its place with the id, the name and the arguments, and what it used.
/// It finishes for tools where it calls any, else for its length where it is incomplete.
pub proof fn lemma_responses_answer_to_chat(body: JsonV, model: Seq<char>)
    ensures
        ({
            let out = to_chat::responses_response_as_chat(body, model);
            let m = chat_message(out);
            let items = readings::list(body, "output"@);
            let calls = seqs::flat(items, readings::call_of_item_fn());
            &&& body.str_at("id"@) is Some ==> out.str_at("id"@) == body.str_at("id"@)
            &&& m.str_at("role"@) == Some("assistant"@)
            &&& readings::words(m.get("content"@)) == seqs::flat(items, words_of_item_fn())
            &&& seqs::flat(readings::list(m, "tool_calls"@), readings::call_of_chat_fn()) == calls
            &&& chat_finish(out) == Some(
                if calls.len() > 0 {
                    "tool_calls"@
                } else if body.str_at("status"@) == Some("incomplete"@) {
                    "length"@
                } else {
                    "stop"@
                },
            )
            &&& count(out, "prompt_tokens"@) == count(body, "input_tokens"@)
            &&& count(out, "completion_tokens"@) == count(body, "output_tokens"@)
            &&& count(out, "total_tokens"@) == count(body, "total_tokens"@)
        }),
{
    keys::lemma_answer_keys();
    reveal_strlit("");
    assert(""@ =~= Seq::<char>::empty());
    let items = readings::list(body, "output"@);
    let f = to_chat::item_call_fn();
    assert forall|i: int| 0 <= i < items.len() implies seqs::flat(
        f(#[trigger] items[i]),
        readings::call_of_chat_fn(),
    ) == readings::call_of_item_fn()(items[i]) by {
        let item = items[i];
        if item.str_at("type"@) == Some("function_call"@) {
            assert(f(item) =~= seq![f(item)[0]]);
            seqs::lemma_flat_one(f(item)[0], readings::call_of_chat_fn());
        }
    }
    seqs::lemma_flat_flat(items, f, readings::call_of_chat_fn(), readings::call_of_item_fn());
    let calls = seqs::flat(items, f);
    let heads = Seq::new(calls.len(), |i: int| readings::call_of_chat(calls[i]));
    seqs::lemma_flat_each(calls, readings::call_of_chat_fn(), heads);
    let g = to_chat::item_texts_fn();
    assert forall|i: int| 0 <= i < items.len() implies seqs::flat(
        g(#[trigger] items[i]),
        |t: Seq<char>| t,
    ) == words_of_item_fn()(items[i]) by {
        let ps = readings::list(items[i], "content"@);
        let h = to_chat::output_part_text_fn();
        assert forall|k: int| 0 <= k < ps.len() implies seqs::flat(
            h(#[trigger] ps[k]),
            |t: Seq<char>| t,
        ) == words_of_part_fn()(ps[k]) by {
            anthropic_kept::lemma_texts_under(ps[k], "text"@);
            readings::lemma_one_text(Seq::empty());
        }
        seqs::lemma_flat_flat(ps, h, |t: Seq<char>| t, words_of_part_fn());
        readings::lemma_one_text(Seq::empty());
    }
    readings::lemma_joined_flat(items, g, words_of_item_fn());
    let t = text::joined(seqs::flat(items, g), ""@);
    if t.len() == 0 {
        assert(t =~= Seq::<char>::empty());
    }
    lemma_chat_message(
        to_chat::text_or_null(t),
        None,
        calls,
        to_chat::finish_of_responses(body, calls),
    );
}

/// The call of a chat answer in a Responses answer: arguments that are no text are kept as JSON.
pub open spec fn call_to_item(tc: JsonV) -> Call {
    let f = tc.get_or_null("function"@);
    Call {
        id: tc.str_or("id"@, ""@),
        name: f.str_or("name"@, ""@),
        arguments: match f.get("arguments"@) {
            Some(JsonV::Str(s)) => s,
            Some(v) => json::wire::json_text(v),
            None => "{}"@,
        },
    }
}

/// Whether an item calls the function of a tool call.
pub open spec fn calls_as(item: JsonV, c: Call) -> bool {
    &&& item.str_at("type"@) == Some("function_call"@)
    &&& c.id.len() > 0 ==> item.str_at("call_id"@) == Some(c.id)
    &&& item.str_at("name"@) == Some(c.name)
    &&& item.str_at("arguments"@) == Some(c.arguments)
}

/// The thinking of an item of the Responses format: of its summary, and of its content.
pub open spec fn thoughts_of_item_fn() -> spec_fn(JsonV) -> Seq<char> {
    |item: JsonV|
        if item.str_at("type"@) == Some("reasoning"@) {
            seqs::flat(readings::list(item, "summary"@), readings::block_words_fn()) + seqs::flat(
                readings::list(item, "content"@),
                readings::block_words_fn(),
            )
        } else {
            Seq::empty()
        }
}

/// The words, the thinking and the calls of items.
spec fn items_say(
    items: Seq<JsonV>,
    said: Seq<char>,
    thought: Seq<char>,
    calls: Seq<JsonV>,
) -> bool {
    &&& seqs::flat(items, words_of_item_fn()) == said
    &&& seqs::flat(items, thoughts_of_item_fn()) == thought
    &&& seqs::flat(items, if_call_fn()) == calls
}

proof fn lemma_items_add(
    a: Seq<JsonV>,
    b: Seq<JsonV>,
    s: (Seq<char>, Seq<char>),
    t: (Seq<char>, Seq<char>),
    u: (Seq<JsonV>, Seq<JsonV>),
)
    requires
        items_say(a, s.0, t.0, u.0),
        items_say(b, s.1, t.1, u.1),
    ensures
        items_say(a + b, s.0 + s.1, t.0 + t.1, u.0 + u.1),
{
    seqs::lemma_flat_add(a, b, words_of_item_fn());
    seqs::lemma_flat_add(a, b, thoughts_of_item_fn());
    seqs::lemma_flat_add(a, b, if_call_fn());
}

proof fn lemma_one_item(item: JsonV)
    ensures
        items_say(
            seq![item],
            words_of_item_fn()(item),
            thoughts_of_item_fn()(item),
            if_call_fn()(item),
        ),
{
    seqs::lemma_flat_one(item, words_of_item_fn());
    seqs::lemma_flat_one(item, thoughts_of_item_fn());
    seqs::lemma_flat_one(item, if_call_fn());
}

proof fn lemma_no_items()
    ensures
        items_say(Seq::empty(), Seq::empty(), Seq::empty(), Seq::empty()),
{
}

/// An item with a text.
proof fn lemma_message_item(id: Seq<char>, t: Seq<char>)
    ensures
        items_say(
            seq![to_responses::message_item_v(id, t)],
            t,
            Seq::empty(),
            Seq::empty(),
        ),
{
    keys::lemma_answer_keys();
    let item = to_responses::message_item_v(id, t);
    lemma_one_item(item);
    let p = to_responses::output_text_v(t);
    seqs::lemma_flat_one(p, words_of_part_fn());
    assert(readings::list(item, "content"@) =~= seq![p]);
}

/// A Responses answer made from a chat answer holds what it holds: all of its text, its
/// reasoning, its tool calls each in its place with the id, the name and the arguments, and
/// whether it was cut short. A block of thinking at the start of the text, where there is one,
/// is no part of the text; it is the reasoning where none stands beside the text.
pub proof fn lemma_chat_answer_to_responses(body: JsonV, model: Seq<char>)
    ensures
        ({
            let out = to_responses::chat_response_as_responses(body, model);
            let items = readings::list(out, "output"@);
            let m = chat_message(body);
            let content = m.str_or("content"@, ""@);
            let tcs = readings::list(m, "tool_calls"@);
            let calls = seqs::flat(items, if_call_fn());
            &&& seqs::flat(items, words_of_item_fn()) == match think::think_block(content) {
                Some(p) => p.1,
                None => content,
            }
            &&& m.str_or("reasoning_content"@, ""@).len() > 0 ==> seqs::flat(
                items,
                thoughts_of_item_fn(),
            ) == m.str_or("reasoning_content"@, ""@)
            &&& m.str_or("reasoning_content"@, ""@).len() == 0 && m.str_or("reasoning"@, ""@).len()
                > 0 ==> seqs::flat(items, thoughts_of_item_fn()) == m.str_or("reasoning"@, ""@)
            &&& calls.len() == tcs.len()
            &&& forall|i: int|
                0 <= i < tcs.len() ==> calls_as(#[trigger] calls[i], call_to_item(tcs[i]))
            &&& out.str_at("status"@) == Some(
                if chat_finish(body) == Some("length"@) {
                    "incomplete"@
                } else {
                    "completed"@
                },
            )
        }),
{
    keys::lemma_answer_keys();
    reveal_strlit("");
    assert(""@ =~= Seq::<char>::empty());
    let m = chat_message(body);
    let message = json::at_v(to_anthropic::first_choice(body), "message"@);
    let id = to_responses::response_id(body.str_at("id"@));
    let content = m.str_or("content"@, ""@);
    let tcs = readings::list(m, "tool_calls"@);
    let calls = tcs.map(to_responses::call_item_at_fn());
    let a = to_responses::reasoning_items(id, m);
    let b = to_responses::answer_items(id, m);
    let said = to_responses::answer_text(content);
    let thought = match to_responses::chat_reasoning(m) {
        Some(t) => t,
        None => Seq::empty(),
    };
    assert(think::think_block(Seq::<char>::empty()) is None) by {
        reveal_strlit("<think");
        assert("<think"@.len() == 6);
    }
    lemma_no_items();
    assert(items_say(a, Seq::empty(), thought, Seq::empty())) by {
        match to_responses::chat_reasoning(m) {
            Some(t) => {
                let item = a[0];
                assert(a =~= seq![item]);
                lemma_one_item(item);
                let p = parts::text_block_v("summary_text"@, t);
                seqs::lemma_flat_one(p, readings::block_words_fn());
                assert(readings::list(item, "summary"@) =~= seq![p]);
                assert(readings::list(item, "content"@) =~= Seq::empty());
                assert(t + Seq::<char>::empty() =~= t);
            },
            None => {},
        }
    }
    assert(items_say(b, said, Seq::empty(), Seq::empty())) by {
        match m.str_at("content"@) {
            Some(t) => {
                if said.len() > 0 {
                    lemma_message_item(id + "_msg"@, said);
                } else {
                    assert(said =~= Seq::<char>::empty());
                }
            },
            None => {
                assert(said =~= Seq::<char>::empty());
            },
        }
    }
    assert forall|i: int| 0 <= i < calls.len() implies if_call_fn()(#[trigger] calls[i]) == seq![
        calls[i],
    ] && words_of_item_fn()(calls[i]) == Seq::<char>::empty() && thoughts_of_item_fn()(calls[i])
        == Seq::<char>::empty() && calls_as(calls[i], call_to_item(tcs[i])) by {}
    seqs::lemma_flat_each(calls, if_call_fn(), calls);
    seqs::lemma_flat_none(calls, words_of_item_fn());
    seqs::lemma_flat_none(calls, thoughts_of_item_fn());
    lemma_items_add(
        a,
        b,
        (Seq::empty(), said),
        (thought, Seq::empty()),
        (Seq::empty(), Seq::empty()),
    );
    lemma_items_add(
        a + b,
        calls,
        (Seq::<char>::empty() + said, Seq::empty()),
        (thought + Seq::<char>::empty(), Seq::empty()),
        (Seq::<JsonV>::empty() + Seq::<JsonV>::empty(), calls),
    );
    assert(Seq::<char>::empty() + said + Seq::<char>::empty() =~= said);
    assert(thought + Seq::<char>::empty() + Seq::<char>::empty() =~= thought);
    assert(Seq::<JsonV>::empty() + Seq::<JsonV>::empty() + calls =~= calls);
    assert(to_responses::items_of_chat(id, message) =~= a + b + calls) by {
        match message {
            Some(x) => {
                assert(x == m);
                if m.array_at("tool_calls"@) is None {
                    assert(calls =~= Seq::empty());
                }
            },
            None => {
                assert(m is Null);
                assert(calls =~= Seq::empty());
                assert(a =~= Seq::empty());
                assert(b =~= Seq::empty());
            },
        }
    }
}

/// The call of a block as an item of a Responses answer.
proof fn lemma_block_items(blocks: Seq<JsonV>, now: u64)
    ensures
        items_say(
            seqs::flat(blocks, to_responses::item_of_block_fn(now)),
            seqs::flat(blocks, anthropic_kept::words_of_text_block_fn()),
            seqs::flat(blocks, anthropic_kept::thoughts_of_block_fn()),
            seqs::flat(
                seqs::flat(blocks, to_responses::item_of_block_fn(now)),
                if_call_fn(),
            ),
        ),
        seqs::flat(
            seqs::flat(blocks, to_responses::item_of_block_fn(now)),
            readings::call_of_item_fn(),
        ) == seqs::flat(blocks, readings::call_of_block_fn()),
    decreases blocks.len(),
{
    keys::lemma_answer_keys();
    reveal_strlit("");
    assert(""@ =~= Seq::<char>::empty());
    lemma_no_items();
    if blocks.len() > 0 {
        let first = blocks.drop_last();
        lemma_block_items(first, now);
        let b = blocks.last();
        let before = seqs::flat(first, to_responses::item_of_block_fn(now));
        let items = to_responses::item_of_block(b, now);
        if items.len() > 0 {
            let item = items[0];
            assert(items =~= seq![item]);
            lemma_one_item(item);
            seqs::lemma_flat_one(item, readings::call_of_item_fn());
            if b.str_at("type"@) == Some("text"@) {
                lemma_message_item(to_responses::timed("msg_"@, now), b.str_or("text"@, ""@));
            } else if b.str_at("type"@) == Some("thinking"@) {
                let p = parts::text_block_v("reasoning_text"@, b.str_or("thinking"@, ""@));
                seqs::lemma_flat_one(p, readings::block_words_fn());
                assert(readings::list(item, "content"@) =~= seq![p]);
                assert(readings::list(item, "summary"@) =~= Seq::empty());
                assert(Seq::<char>::empty() + b.str_or("thinking"@, ""@) =~= b.str_or(
                    "thinking"@,
                    ""@,
                ));
            }
        }
        assert(seqs::flat(items, words_of_item_fn())
            == anthropic_kept::words_of_text_block_fn()(b));
        assert(seqs::flat(items, thoughts_of_item_fn())
            == anthropic_kept::thoughts_of_block_fn()(b));
        assert(seqs::flat(items, readings::call_of_item_fn()) == readings::call_of_block(b));
        seqs::lemma_flat_add(before, items, words_of_item_fn());
        seqs::lemma_flat_add(before, items, thoughts_of_item_fn());
        seqs::lemma_flat_add(before, items, readings::call_of_item_fn());
    }
}

/// A Responses answer made from an Anthropic answer holds what it holds: all of its text, all of
/// its thinking, its tools each in its place with the id, the name and the input, and what it
/// used.
pub proof fn lemma_anthropic_answer_to_responses(body: JsonV, model: Seq<char>, now: u64)
    ensures
        ({
            let out = to_responses::anthropic_response_as_responses(body, model, now);
            let items = readings::list(out, "output"@);
            let blocks = readings::list(body, "content"@);
            let said = seqs::flat(blocks, anthropic_kept::words_of_text_block_fn());
            &&& seqs::flat(items, words_of_item_fn()) == said
            &&& out.str_at("output_text"@) == Some(said)
            &&& seqs::flat(items, thoughts_of_item_fn()) == seqs::flat(
                blocks,
                anthropic_kept::thoughts_of_block_fn(),
            )
            &&& seqs::flat(items, readings::call_of_item_fn()) == seqs::flat(
                blocks,
                readings::call_of_block_fn(),
            )
            &&& out.str_at("status"@) == Some("completed"@)
            &&& count(out, "input_tokens"@) == count(body, "input_tokens"@)
            &&& count(out, "output_tokens"@) == count(body, "output_tokens"@)
            &&& count(body, "input_tokens"@) + count(body, "output_tokens"@) <= u64::MAX ==> count(
                out,
                "total_tokens"@,
            ) == count(body, "input_tokens"@) + count(body, "output_tokens"@)
        }),
{
    keys::lemma_answer_keys();
    let blocks = readings::list(body, "content"@);
    lemma_block_items(blocks, now);
    anthropic_kept::lemma_typed(blocks);
}

/// What a chat answer used is what the Responses answer made from it tells: the counts of the
/// prompt and of the completion, and the total, or their sum where no total is told.
pub proof fn lemma_chat_usage_to_responses(body: JsonV, model: Seq<char>)
    requires
        body.get_or_null("usage"@).u64_at("prompt_tokens"@) is Some,
        body.get_or_null("usage"@).u64_at("completion_tokens"@) is Some,
    ensures
        ({
            let out = to_responses::chat_response_as_responses(body, model);
            let total = body.get_or_null("usage"@).u64_at("total_tokens"@);
            let input = count(body, "prompt_tokens"@);
            let output = count(body, "completion_tokens"@);
            &&& count(out, "input_tokens"@) == input
            &&& count(out, "output_tokens"@) == output
            &&& total is Some ==> count(out, "total_tokens"@) == total->0
            &&& total is None && input + output <= u64::MAX ==> count(out, "total_tokens"@) == input
                + output
        }),
{
    keys::lemma_answer_keys();
    keys::lemma_whole_response_keys();
}

} // verus!
