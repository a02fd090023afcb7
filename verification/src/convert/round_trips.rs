//! Responses that go to another format and come back.

use vstd::prelude::*;

use super::requests::{anthropic_chat, chat_anthropic, codex_anthropic};
use super::responses::{to_anthropic, to_chat, to_responses};
use super::{parts, think};
use crate::json::{self, JsonV};
use crate::keys;
use crate::seqs;
use crate::text;

verus! {

/// Whether a block asks for a tool and has nothing else: an id, a name, and an object.
pub open spec fn is_tool_block(b: JsonV) -> bool {
    &&& b == chat_anthropic::tool_use_v(
        b.str_or("id"@, ""@),
        b.str_or("name"@, ""@),
        b.get_or_null("input"@),
    )
    &&& b.str_or("id"@, ""@).len() > 0
    &&& b.get_or_null("input"@) is Obj
}

/// Whether the input of a tool is read back as it is written.
pub open spec fn input_reads_back(b: JsonV) -> bool {
    json::wire::reads_back(b.get_or_null("input"@))
}

/// The content of a response: thinking, where there is any, then text, where there is any,
/// then tools.
pub open spec fn plain_content(
    thought: Seq<char>,
    said: Seq<char>,
    tools: Seq<JsonV>,
) -> Seq<JsonV> {
    codex_anthropic::thinking_if_any(thought) + chat_anthropic::text_block_if_any(
        "text"@,
        Some(said),
    ) + tools
}

/// The call that a block becomes.
spec fn call_v(b: JsonV) -> JsonV {
    anthropic_chat::chat_tool_call_v(
        b.str_or("id"@, ""@),
        b.str_or("name"@, ""@),
        json::wire::json_text(b.get_or_null("input"@)),
    )
}

proof fn lemma_block_kinds(t: Seq<char>)
    ensures
        codex_anthropic::thinking_block_v(t).str_at("type"@) == Some("thinking"@),
        codex_anthropic::thinking_block_v(t).str_at("thinking"@) == Some(t),
        parts::text_block_v("text"@, t).str_at("type"@) == Some("text"@),
        parts::text_block_v("text"@, t).str_at("text"@) == Some(t),
{
    keys::lemma_block_keys();
}

proof fn lemma_tool_kind(b: JsonV)
    requires
        is_tool_block(b),
    ensures
        b.str_at("type"@) == Some("tool_use"@),
{
    keys::lemma_block_keys();
}

/// What the three parts of a content give.
proof fn lemma_parts<B>(
    thought: Seq<char>,
    said: Seq<char>,
    tools: Seq<JsonV>,
    f: spec_fn(JsonV) -> Seq<B>,
)
    ensures
        seqs::flat(plain_content(thought, said, tools), f) == (if thought.len() > 0 {
            f(codex_anthropic::thinking_block_v(thought))
        } else {
            Seq::empty()
        }) + (if said.len() > 0 {
            f(parts::text_block_v("text"@, said))
        } else {
            Seq::empty()
        }) + seqs::flat(tools, f),
{
    let a = codex_anthropic::thinking_if_any(thought);
    let b = chat_anthropic::text_block_if_any("text"@, Some(said));
    seqs::lemma_flat_add(a + b, tools, f);
    seqs::lemma_flat_add(a, b, f);
    reveal_with_fuel(seqs::flat, 2);
    if thought.len() > 0 {
        assert(a.drop_last() =~= Seq::<JsonV>::empty());
        assert(seqs::flat(a, f) =~= f(codex_anthropic::thinking_block_v(thought)));
    }
    if said.len() > 0 {
        assert(b.drop_last() =~= Seq::<JsonV>::empty());
        assert(seqs::flat(b, f) =~= f(parts::text_block_v("text"@, said)));
    }
}

/// The message that a content becomes.
proof fn lemma_message_made(
    a: JsonV,
    thought: Seq<char>,
    said: Seq<char>,
    tools: Seq<JsonV>,
)
    requires
        a.array_at("content"@) == Some(plain_content(thought, said, tools)),
        forall|i: int| 0 <= i < tools.len() ==> is_tool_block(#[trigger] tools[i]),
    ensures
        to_chat::message_of_anthropic(a) == to_chat::chat_message_v(
            JsonV::Str(said),
            if thought.len() > 0 {
                Some(thought)
            } else {
                None
            },
            tools.map_values(|b: JsonV| call_v(b)),
        ),
{
    keys::lemma_block_keys();
    lemma_block_kinds(thought);
    lemma_block_kinds(said);
    let texts = anthropic_chat::typed_text_fn("text"@, "text"@);
    let thoughts = anthropic_chat::typed_text_fn("thinking"@, "thinking"@);
    let calls = to_chat::call_of_block_fn();
    lemma_parts(thought, said, tools, texts);
    lemma_parts(thought, said, tools, thoughts);
    lemma_parts(thought, said, tools, calls);
    let made = tools.map_values(|b: JsonV| call_v(b));
    assert forall|i: int| 0 <= i < tools.len() implies texts(#[trigger] tools[i]) == Seq::<
        Seq<char>,
    >::empty() && thoughts(tools[i]) == Seq::<Seq<char>>::empty() && calls(tools[i])
        == seq![made[i]] by {
        assert(is_tool_block(tools[i]));
        lemma_tool_kind(tools[i]);
        assert(made[i] == call_v(tools[i]));
    }
    seqs::lemma_flat_none(tools, texts);
    seqs::lemma_flat_none(tools, thoughts);
    seqs::lemma_flat_each(tools, calls, made);
    let content = plain_content(thought, said, tools);
    assert(seqs::flat(content, texts) =~= if said.len() > 0 {
        seq![said]
    } else {
        Seq::empty()
    });
    assert(seqs::flat(content, thoughts) =~= if thought.len() > 0 {
        seq![thought]
    } else {
        Seq::empty()
    });
    assert(seqs::flat(content, calls) =~= made);
    assert(text::joined(seqs::flat(content, texts), ""@) =~= said);
    if thought.len() > 0 {
        assert(text::joined(seqs::flat(content, thoughts), ""@) =~= thought);
    }
}

/// The content that a message becomes again.
proof fn lemma_content_back(thought: Seq<char>, said: Seq<char>, tools: Seq<JsonV>)
    requires
        forall|i: int|
            0 <= i < tools.len() ==> is_tool_block(#[trigger] tools[i]) && input_reads_back(
                tools[i],
            ),
    ensures
        to_anthropic::blocks_of_chat(
            Some(
                to_chat::chat_message_v(
                    JsonV::Str(said),
                    if thought.len() > 0 {
                        Some(thought)
                    } else {
                        None
                    },
                    tools.map_values(|b: JsonV| call_v(b)),
                ),
            ),
        ) == plain_content(thought, said, tools),
{
    keys::lemma_block_keys();
    let made = tools.map_values(|b: JsonV| call_v(b));
    let m = to_chat::chat_message_v(
        JsonV::Str(said),
        if thought.len() > 0 {
            Some(thought)
        } else {
            None
        },
        made,
    );
    assert(m.str_at("content"@) == Some(said));
    assert(m.str_or("reasoning_content"@, ""@) =~= thought);
    assert(m.array_at("tool_calls"@) == if made.len() > 0 {
        Some(made)
    } else {
        None
    });
    let f = to_anthropic::tool_use_at_fn();
    assert forall|i: int| 0 <= i < tools.len() implies f(i, made[i]) == #[trigger] tools[i] by {
        let b = tools[i];
        assert(is_tool_block(b));
        let tc = made[i];
        assert(tc == call_v(b));
        assert(tc.str_at("id"@) == Some(b.str_or("id"@, ""@)));
        let func = tc.get_or_null("function"@);
        assert(func.str_at("name"@) == Some(b.str_or("name"@, ""@)));
        assert(func.str_at("arguments"@) == Some(json::wire::json_text(b.get_or_null("input"@))));
    }
    assert(made.map(f) =~= tools);
    if made.len() == 0 {
        assert(tools =~= Seq::<JsonV>::empty());
    }
}

/// Whether a response has what an Anthropic response had: its id, its content, why it stops,
/// and its usage; and the model of the request.
pub open spec fn is_kept(a: JsonV, r: JsonV, model: Seq<char>) -> bool {
    &&& r.str_at("id"@) == a.str_at("id"@)
    &&& r.array_at("content"@) == a.array_at("content"@)
    &&& r.str_at("stop_reason"@) == a.str_at("stop_reason"@)
    &&& to_anthropic::usage_of(r, "input_tokens"@) == to_anthropic::usage_of(a, "input_tokens"@)
    &&& to_anthropic::usage_of(r, "output_tokens"@) == to_anthropic::usage_of(a, "output_tokens"@)
    &&& r.str_at("model"@) == Some(model)
}

/// Whether blocks are of tools alone, with inputs that JSON text holds exactly.
pub open spec fn are_plain_tools(tools: Seq<JsonV>) -> bool {
    forall|i: int|
        0 <= i < tools.len() ==> is_tool_block(#[trigger] tools[i]) && json::wire::is_plain(
            tools[i].get_or_null("input"@),
            127,
        )
}

/// Whether an Anthropic response has an id, a reason to stop, and a content of thinking, text
/// and tools in that order, at most one of the first two.
pub open spec fn is_plain_response(a: JsonV) -> bool {
    &&& a.str_at("id"@) is Some
    &&& a.str_is("stop_reason"@, "end_turn"@) || a.str_is("stop_reason"@, "tool_use"@) || a.str_is(
        "stop_reason"@,
        "max_tokens"@,
    )
    &&& exists|thought: Seq<char>, said: Seq<char>, tools: Seq<JsonV>|
        a.array_at("content"@) == Some(#[trigger] plain_content(thought, said, tools))
            && plain_content(thought, said, tools).len() > 0 && are_plain_tools(tools)
}

/// An Anthropic response that goes to a chat response and comes back keeps its id, its
/// content, why it stops, and its usage. Its content is thinking, text and tools in that
/// order, at most one of the first two, with inputs that are read back as they are written.
pub proof fn lemma_anthropic_by_chat(
    a: JsonV,
    thought: Seq<char>,
    said: Seq<char>,
    tools: Seq<JsonV>,
    through: Seq<char>,
    created: u64,
    model: Seq<char>,
)
    requires
        a.str_at("id"@) is Some,
        a.array_at("content"@) == Some(plain_content(thought, said, tools)),
        plain_content(thought, said, tools).len() > 0,
        forall|i: int|
            0 <= i < tools.len() ==> is_tool_block(#[trigger] tools[i]) && input_reads_back(
                tools[i],
            ),
        a.str_is("stop_reason"@, "end_turn"@) || a.str_is("stop_reason"@, "tool_use"@) || a.str_is(
            "stop_reason"@,
            "max_tokens"@,
        ),
    ensures
        is_kept(
            a,
            to_anthropic::chat_response_as_anthropic(
                to_chat::anthropic_response_as_chat(a, through, created),
                model,
            ),
            model,
        ),
{
    keys::lemma_response_keys();
    keys::lemma_message_keys();
    lemma_message_made(a, thought, said, tools);
    lemma_content_back(thought, said, tools);
    let o = to_chat::anthropic_response_as_chat(a, through, created);
    let m = to_chat::message_of_anthropic(a);
    let finish = to_chat::finish_of_stop_reason(a.str_at("stop_reason"@));
    lemma_chat_made(a, through, created);
    let input = to_anthropic::usage_of(a, "input_tokens"@);
    let output = to_anthropic::usage_of(a, "output_tokens"@);
    assert(o.get("usage"@) == Some(
        to_chat::chat_usage_v(input, output, input.wrapping_add(output)),
    ));
    assert(to_anthropic::usage_of(o, "prompt_tokens"@) == input);
    assert(to_anthropic::usage_of(o, "completion_tokens"@) == output);
    assert(o.str_at("id"@) == a.str_at("id"@));
}

/// The choice of a chat response made from an Anthropic one.
proof fn lemma_chat_made(a: JsonV, model: Seq<char>, created: u64)
    ensures
        ({
            let o = to_chat::anthropic_response_as_chat(a, model, created);
            let choice = to_anthropic::first_choice(o);
            &&& json::at_v(choice, "message"@) == Some(to_chat::message_of_anthropic(a))
            &&& json::str_of_v(json::at_v(choice, "finish_reason"@)) == Some(
                to_chat::finish_of_stop_reason(a.str_at("stop_reason"@)),
            )
        }),
{
    keys::lemma_response_keys();
    let o = to_chat::anthropic_response_as_chat(a, model, created);
    let m = to_chat::message_of_anthropic(a);
    let finish = to_chat::finish_of_stop_reason(a.str_at("stop_reason"@));
    assert(o.array_at("choices"@) == Some(to_chat::one_choice_v(m, finish)->Arr_0));
}

/// A chat response made from a plain Anthropic response becomes that response again, where
/// the arguments of its calls are read exactly.
pub(crate) proof fn lemma_made_from_anthropic(
    a: JsonV,
    through: Seq<char>,
    created: u64,
    model: Seq<char>,
)
    requires
        is_plain_response(a),
        ({
            let calls = to_anthropic::calls_of_chat(
                to_chat::anthropic_response_as_chat(a, through, created),
            );
            forall|i: int|
                0 <= i < calls.len() ==> to_anthropic::read_exactly(#[trigger] calls[i])
        }),
    ensures
        is_kept(
            a,
            to_anthropic::chat_response_as_anthropic(
                to_chat::anthropic_response_as_chat(a, through, created),
                model,
            ),
            model,
        ),
{
    let (thought, said, tools) = choose|thought: Seq<char>, said: Seq<char>, tools: Seq<JsonV>|
        a.array_at("content"@) == Some(#[trigger] plain_content(thought, said, tools))
            && plain_content(thought, said, tools).len() > 0 && are_plain_tools(tools);
    keys::lemma_block_keys();
    lemma_message_made(a, thought, said, tools);
    lemma_chat_made(a, through, created);
    let calls = to_anthropic::calls_of_chat(
        to_chat::anthropic_response_as_chat(a, through, created),
    );
    let made = tools.map_values(|b: JsonV| call_v(b));
    let m = to_chat::message_of_anthropic(a);
    assert(m.array_at("tool_calls"@) == if made.len() > 0 {
        Some(made)
    } else {
        None
    });
    assert forall|i: int| 0 <= i < tools.len() implies is_tool_block(#[trigger] tools[i])
        && input_reads_back(tools[i]) by {
        let input = tools[i].get_or_null("input"@);
        assert(json::wire::is_plain(input, 127));
        assert(calls[i] == call_v(tools[i]));
        assert(to_anthropic::read_exactly(calls[i]));
        let func = calls[i].get_or_null("function"@);
        assert(func.str_at("arguments"@) == Some(json::wire::json_text(input)));
    }
    lemma_anthropic_by_chat(a, thought, said, tools, through, created, model);
}

/// Whether a call of a function has nothing but an id, a name and the text of its arguments.
pub open spec fn is_plain_call(tc: JsonV) -> bool {
    let f = tc.get_or_null("function"@);
    &&& tc == anthropic_chat::chat_tool_call_v(
        tc.str_or("id"@, ""@),
        f.str_or("name"@, ""@),
        f.str_or("arguments"@, ""@),
    )
    &&& tc.str_or("id"@, ""@).len() > 0
}

/// The item of a call becomes the call again.
proof fn lemma_call_item(i: int, tc: JsonV)
    requires
        is_plain_call(tc),
    ensures
        to_chat::item_call(to_responses::call_item_at(i, tc)) == seq![tc],
        to_chat::item_texts(to_responses::call_item_at(i, tc)) == Seq::<Seq<char>>::empty(),
{
    keys::lemma_block_keys();
    keys::lemma_item_keys();
    let item = to_responses::call_item_at(i, tc);
    let f = tc.get_or_null("function"@);
    let id = tc.str_or("id"@, ""@);
    assert(f.get("arguments"@) == Some(JsonV::Str(f.str_or("arguments"@, ""@))));
    assert(f.str_at("name"@) == Some(f.str_or("name"@, ""@)));
    assert(item.str_at("type"@) == Some("function_call"@));
    assert(item.str_at("call_id"@) == Some(id));
    assert(item.str_at("name"@) == Some(f.str_or("name"@, ""@)));
    assert(item.str_at("arguments"@) == Some(f.str_or("arguments"@, ""@)));
}

/// The item of a text gives the text again.
proof fn lemma_text_item(id: Seq<char>, t: Seq<char>)
    ensures
        to_chat::item_texts(to_responses::message_item_v(id, t)) == seq![t],
        to_chat::item_call(to_responses::message_item_v(id, t)) == Seq::<JsonV>::empty(),
{
    keys::lemma_block_keys();
    keys::lemma_item_keys();
    let item = to_responses::message_item_v(id, t);
    let part = to_responses::output_text_v(t);
    assert(item.str_at("type"@) == Some("message"@));
    assert(item.array_at("content"@) == Some(seq![part]));
    assert(part.str_at("type"@) == Some("output_text"@));
    assert(part.str_at("text"@) == Some(t));
    let f = to_chat::output_part_text_fn();
    assert(f(part) == seq![t]);
    seqs::lemma_flat_each(seq![part], f, seq![t]);
}

/// The items of reasoning give neither text nor calls.
proof fn lemma_reasoning_items(id: Seq<char>, m: JsonV)
    ensures
        seqs::flat(to_responses::reasoning_items(id, m), to_chat::item_texts_fn()) == Seq::<
            Seq<char>,
        >::empty(),
        seqs::flat(to_responses::reasoning_items(id, m), to_chat::item_call_fn()) == Seq::<
            JsonV,
        >::empty(),
{
    keys::lemma_block_keys();
    keys::lemma_item_keys();
    let items = to_responses::reasoning_items(id, m);
    assert forall|i: int| 0 <= i < items.len() implies to_chat::item_texts_fn()(
        #[trigger] items[i],
    ) == Seq::<Seq<char>>::empty() && to_chat::item_call_fn()(items[i]) == Seq::<JsonV>::empty() by {
        assert(items[i].str_at("type"@) == Some("reasoning"@));
    }
    seqs::lemma_flat_none(items, to_chat::item_texts_fn());
    seqs::lemma_flat_none(items, to_chat::item_call_fn());
}

/// The items of a message give its text and its calls again.
proof fn lemma_items_back(id: Seq<char>, m: JsonV, said: Seq<char>, calls: Seq<JsonV>)
    requires
        m.get("content"@) == Some(to_chat::text_or_null(said)),
        think::think_block(said) is None,
        m.get("tool_calls"@) == (if calls.len() > 0 {
            Some(JsonV::Arr(calls))
        } else {
            None
        }),
        forall|i: int| 0 <= i < calls.len() ==> is_plain_call(#[trigger] calls[i]),
    ensures
        text::joined(
            seqs::flat(to_responses::items_of_chat(id, Some(m)), to_chat::item_texts_fn()),
            ""@,
        ) == said,
        seqs::flat(to_responses::items_of_chat(id, Some(m)), to_chat::item_call_fn()) == calls,
{
    let texts = to_chat::item_texts_fn();
    let called = to_chat::item_call_fn();
    let a = to_responses::reasoning_items(id, m);
    let b = to_responses::answer_items(id, m);
    let made = calls.map(to_responses::call_item_at_fn());
    let items = to_responses::items_of_chat(id, Some(m));
    if calls.len() == 0 {
        assert(made =~= Seq::<JsonV>::empty());
    }
    assert(items =~= a + b + made);
    lemma_reasoning_items(id, m);
    lemma_text_item(id + "_msg"@, said);
    assert forall|i: int| 0 <= i < made.len() implies texts(#[trigger] made[i]) == Seq::<
        Seq<char>,
    >::empty() && called(made[i]) == seq![calls[i]] by {
        assert(is_plain_call(calls[i]));
        lemma_call_item(i, calls[i]);
        assert(made[i] == to_responses::call_item_at(i, calls[i]));
    }
    seqs::lemma_flat_none(made, texts);
    seqs::lemma_flat_each(made, called, calls);
    seqs::lemma_flat_add(a + b, made, texts);
    seqs::lemma_flat_add(a, b, texts);
    seqs::lemma_flat_add(a + b, made, called);
    seqs::lemma_flat_add(a, b, called);
    if said.len() > 0 {
        let item = to_responses::message_item_v(id + "_msg"@, said);
        assert(b =~= seq![item]);
        assert(texts(item) == seq![said]);
        seqs::lemma_flat_each(b, texts, seq![said]);
        assert(called(b[0]) == Seq::<JsonV>::empty());
        seqs::lemma_flat_none(b, called);
        assert(seqs::flat(items, texts) =~= seq![said]);
    } else {
        assert(b =~= Seq::<JsonV>::empty());
        assert(seqs::flat(items, texts) =~= Seq::<Seq<char>>::empty());
        assert(said =~= Seq::<char>::empty());
    }
    assert(seqs::flat(items, called) =~= calls);
}

/// A chat response that goes to a Responses response and comes back keeps its text, its
/// calls, why it finishes, and its usage. Its text does not start with reasoning, and it
/// finishes for calls where it has any and for no other reason then.
pub proof fn lemma_chat_by_responses(
    c: JsonV,
    choice: JsonV,
    m: JsonV,
    said: Seq<char>,
    calls: Seq<JsonV>,
    finish: Seq<char>,
    usage: (u64, u64, u64),
    model: Seq<char>,
)
    requires
        to_anthropic::first_choice(c) == Some(choice),
        choice.get("message"@) == Some(m),
        m.get("content"@) == Some(to_chat::text_or_null(said)),
        think::think_block(said) is None,
        m.get("tool_calls"@) == (if calls.len() > 0 {
            Some(JsonV::Arr(calls))
        } else {
            None
        }),
        forall|i: int| 0 <= i < calls.len() ==> is_plain_call(#[trigger] calls[i]),
        choice.str_at("finish_reason"@) == Some(finish),
        if calls.len() > 0 {
            finish == "tool_calls"@
        } else {
            finish == "stop"@ || finish == "length"@
        },
        c.get("usage"@) == Some(to_chat::chat_usage_v(usage.0, usage.1, usage.2)),
    ensures
        ({
            let r = to_responses::chat_response_as_responses(c, model);
            let back = to_chat::responses_response_as_chat(r, model);
            let message = json::at_v(to_anthropic::first_choice(back), "message"@);
            &&& json::at_v(message, "content"@) == m.get("content"@)
            &&& json::at_v(message, "tool_calls"@) == m.get("tool_calls"@)
            &&& json::at_v(to_anthropic::first_choice(back), "finish_reason"@) == Some(
                JsonV::Str(finish),
            )
            &&& back.get("usage"@) == c.get("usage"@)
            &&& back.str_at("model"@) == Some(model)
        }),
{
    keys::lemma_block_keys();
    keys::lemma_response_keys();
    keys::lemma_message_keys();
    keys::lemma_item_keys();
    let r = to_responses::chat_response_as_responses(c, model);
    let id = to_responses::response_id(c.str_at("id"@));
    lemma_items_back(id, m, said, calls);
    let items = to_responses::items_of_chat(id, Some(m));
    assert(r.array_at("output"@) == Some(items));
    assert(to_anthropic::output_of(r) == items);
    let u = to_chat::chat_usage_v(usage.0, usage.1, usage.2);
    assert(u.get("prompt_tokens"@) == Some(json::jnum(usage.0)));
    assert(u.get("completion_tokens"@) == Some(json::jnum(usage.1)));
    assert(u.get("total_tokens"@) == Some(json::jnum(usage.2)));
    assert(r.get("usage"@) == Some(
        to_responses::responses_usage_v(usage.0, usage.1, usage.2),
    ));
    assert(to_anthropic::usage_of(r, "input_tokens"@) == usage.0);
    assert(to_anthropic::usage_of(r, "output_tokens"@) == usage.1);
    assert(to_anthropic::usage_of(r, "total_tokens"@) == usage.2);
    assert(r.str_is("status"@, "incomplete"@) == (finish == "length"@));
    let back = to_chat::responses_response_as_chat(r, model);
    let made = to_chat::chat_message_v(to_chat::text_or_null(said), None, calls);
    assert(back.array_at("choices"@) == Some(to_chat::one_choice_v(made, finish)->Arr_0));
    assert(json::at_v(to_anthropic::first_choice(back), "message"@) == Some(made));
}

} // verus!
