//! What a Responses request keeps when it becomes an Anthropic request.

use vstd::prelude::*;

use super::anthropic_order;
use super::chat_anthropic;
use super::chat_kept;
use super::codex_anthropic;
use super::codex_anthropic::CodexAnthropic;
use super::codex_chat;
use super::codex_kept;
use super::responses_anthropic;
use crate::convert::parts;
use crate::convert::readings;
use crate::convert::readings::Answer;
use crate::convert::responses::kept;
use crate::json::{self, JsonV};
use crate::keys;
use crate::seqs;
use crate::text;

verus! {

/// A tool that is asked for, with the value of its input.
pub struct Asked {
    pub id: Seq<char>,
    pub name: Seq<char>,
    pub input: JsonV,
}

/// What a block asks for.
pub open spec fn asked_by_block_fn() -> spec_fn(JsonV) -> Seq<Asked> {
    |b: JsonV|
        if b.str_at("type"@) == Some("tool_use"@) {
            seq![
                Asked {
                    id: b.str_or("id"@, ""@),
                    name: b.str_or("name"@, ""@),
                    input: b.get_or_null("input"@),
                },
            ]
        } else {
            Seq::empty()
        }
}

/// What a message of the assistant asks for.
pub open spec fn asked_by_message_fn() -> spec_fn(JsonV) -> Seq<Asked> {
    |m: JsonV|
        if m.str_at("role"@) == Some("assistant"@) {
            seqs::flat(readings::list(m, "content"@), asked_by_block_fn())
        } else {
            Seq::empty()
        }
}

/// What an item of a Responses request asks for: arguments that are a text are read as JSON.
pub open spec fn asked_by_item_fn() -> spec_fn(JsonV) -> Seq<Asked> {
    |item: JsonV|
        if item.str_at("type"@) == Some("function_call"@) {
            seq![
                Asked {
                    id: codex_kept::either(item, "call_id"@, "id"@),
                    name: item.str_or("name"@, ""@),
                    input: match item.get("arguments"@) {
                        None => json::jobj(),
                        Some(JsonV::Str(s)) => kept::parsed(s),
                        Some(v) => v,
                    },
                },
            ]
        } else {
            Seq::empty()
        }
}

/// The answers of a message of a user that say something.
pub open spec fn answers_of_message_fn() -> spec_fn(JsonV) -> Seq<Answer> {
    |m: JsonV|
        if m.str_at("role"@) == Some("user"@) {
            seqs::flat(readings::list(m, "content"@), full_answer_fn())
        } else {
            Seq::empty()
        }
}

/// The answer of a block, where it says something.
pub open spec fn full_answer_fn() -> spec_fn(JsonV) -> Seq<Answer> {
    |b: JsonV|
        if b.str_at("type"@) == Some("tool_result"@) && b.str_or("content"@, ""@).len() > 0 {
            seq![
                Answer { id: b.str_or("tool_use_id"@, ""@), text: b.str_or("content"@, ""@) },
            ]
        } else {
            Seq::empty()
        }
}

/// The answer of an item, where it says something.
pub open spec fn answer_of_input_fn() -> spec_fn(JsonV) -> Seq<Answer> {
    |item: JsonV|
        if item.str_at("type"@) == Some("function_call_output"@) && chat_kept::plain(
            item.get("output"@),
        ).len() > 0 {
            seq![
                Answer {
                    id: codex_kept::either(item, "call_id"@, "tool_call_id"@),
                    text: chat_kept::plain(item.get("output"@)),
                },
            ]
        } else {
            Seq::empty()
        }
}

/// The words of the content of a message: a text, or the texts of its blocks that say
/// something, a line each.
pub open spec fn lines(content: Option<JsonV>) -> Seq<char> {
    match content {
        Some(JsonV::Str(s)) => s,
        Some(JsonV::Arr(blocks)) => text::joined(
            seqs::flat(blocks, codex_kept::filled_words_fn()),
            "\n"@,
        ),
        _ => Seq::empty(),
    }
}

/// Whether an item is a message.
pub open spec fn is_message(item: JsonV) -> bool {
    item.str_at("type"@) is None || item.str_at("type"@) == Some("message"@)
}

/// The words of an item that is not the assistant's.
pub open spec fn said_by_user_fn() -> spec_fn(JsonV) -> Seq<char> {
    |item: JsonV|
        if is_message(item) && item.str_or("role"@, "user"@) != "assistant"@ {
            lines(item.get("content"@))
        } else {
            Seq::empty()
        }
}

/// The words of an item of the assistant.
pub open spec fn said_by_assistant_fn() -> spec_fn(JsonV) -> Seq<char> {
    |item: JsonV|
        if is_message(item) && item.str_or("role"@, "user"@) == "assistant"@ {
            lines(item.get("content"@))
        } else {
            Seq::empty()
        }
}

/// What Anthropic messages say.
#[verifier::ext_equal]
pub struct Said {
    pub asked: Seq<Asked>,
    pub answers: Seq<Answer>,
    pub user: Seq<char>,
    pub assistant: Seq<char>,
}

/// What messages say.
pub open spec fn said(ms: Seq<JsonV>) -> Said {
    Said {
        asked: seqs::flat(ms, asked_by_message_fn()),
        answers: seqs::flat(ms, answers_of_message_fn()),
        user: seqs::flat(ms, readings::words_by_fn("user"@)),
        assistant: seqs::flat(ms, readings::words_by_fn("assistant"@)),
    }
}

/// What is said after something.
pub open spec fn and_then(a: Said, b: Said) -> Said {
    Said {
        asked: a.asked + b.asked,
        answers: a.answers + b.answers,
        user: a.user + b.user,
        assistant: a.assistant + b.assistant,
    }
}

/// What a message says.
spec fn said_by(m: JsonV) -> Said {
    Said {
        asked: asked_by_message_fn()(m),
        answers: answers_of_message_fn()(m),
        user: readings::words_by(m, "user"@),
        assistant: readings::words_by(m, "assistant"@),
    }
}

proof fn lemma_pushed(ms: Seq<JsonV>, m: JsonV)
    ensures
        said(ms.push(m)) == and_then(said(ms), said_by(m)),
{
    assert(ms.push(m).drop_last() =~= ms);
}

/// What items say.
spec fn said_by_items(items: Seq<JsonV>) -> Said {
    Said {
        asked: seqs::flat(items, asked_by_item_fn()),
        answers: seqs::flat(items, answer_of_input_fn()),
        user: seqs::flat(items, said_by_user_fn()),
        assistant: seqs::flat(items, said_by_assistant_fn()),
    }
}

/// What the messages so far say, and the calls that wait.
spec fn so_far(s: CodexAnthropic) -> Said {
    Said {
        asked: said(s.messages).asked + seqs::flat(s.calls, asked_by_block_fn()),
        ..said(s.messages)
    }
}

proof fn lemma_blocks_words(blocks: Seq<JsonV>)
    requires
        forall|i: int|
            0 <= i < blocks.len() ==> (#[trigger] blocks[i]).str_at("type"@) == Some("tool_use"@)
                && blocks[i].get("text"@) is None && !(blocks[i] is Str),
    ensures
        seqs::flat(blocks, readings::block_words_fn()) == Seq::<char>::empty(),
{
    seqs::lemma_flat_none(blocks, readings::block_words_fn());
}

/// Whether calls that wait are all blocks of tools without text.
spec fn are_calls(s: CodexAnthropic) -> bool {
    forall|i: int|
        0 <= i < s.calls.len() ==> (#[trigger] s.calls[i]).str_at("type"@) == Some("tool_use"@)
            && s.calls[i].get("text"@) is None && !(s.calls[i] is Str)
}

proof fn lemma_thinking(t: Seq<char>)
    ensures
        seqs::flat(codex_anthropic::thinking_if_any(t), asked_by_block_fn()) == Seq::<
            Asked,
        >::empty(),
        seqs::flat(codex_anthropic::thinking_if_any(t), readings::block_words_fn()) == Seq::<
            char,
        >::empty(),
{
    keys::lemma_request_keys();
    keys::lemma_tool_block_keys();
    if t.len() > 0 {
        let b = codex_anthropic::thinking_block_v(t);
        seqs::lemma_flat_one(b, asked_by_block_fn());
        seqs::lemma_flat_one(b, readings::block_words_fn());
    }
}

proof fn lemma_flush(s: CodexAnthropic)
    requires
        are_calls(s),
    ensures
        so_far(s.flush()) == so_far(s),
        s.flush().calls.len() == 0,
        are_calls(s.flush()),
{
    keys::lemma_request_keys();
    if s.calls.len() > 0 {
        let first = codex_anthropic::thinking_if_any(s.reasoning);
        let blocks = first + s.calls;
        let m = parts::message_v("assistant"@, JsonV::Arr(blocks));
        parts::lemma_message("assistant"@, JsonV::Arr(blocks));
        lemma_pushed(s.messages, m);
        lemma_thinking(s.reasoning);
        lemma_blocks_words(s.calls);
        seqs::lemma_flat_add(first, s.calls, asked_by_block_fn());
        seqs::lemma_flat_add(first, s.calls, readings::block_words_fn());
        assert(so_far(s.flush()) =~= so_far(s));
    }
}

proof fn lemma_text_message(s: CodexAnthropic, t: Seq<char>)
    requires
        s.calls.len() == 0,
    ensures
        so_far(s.user(t)) == and_then(
            so_far(s),
            (Said { asked: Seq::empty(), answers: Seq::empty(), user: t, assistant: Seq::empty() }),
        ),
        so_far(s.assistant(t)) == and_then(
            so_far(s),
            (Said { asked: Seq::empty(), answers: Seq::empty(), user: Seq::empty(), assistant: t }),
        ),
        s.user(t).calls == s.calls,
        s.assistant(t).calls == s.calls,
{
    keys::lemma_request_keys();
    keys::lemma_tool_block_keys();
    let u = parts::message_v("user"@, JsonV::Str(t));
    parts::lemma_message("user"@, JsonV::Str(t));
    lemma_pushed(s.messages, u);
    if t.len() == 0 {
        assert(t =~= Seq::<char>::empty());
    }
    assert(so_far(s.user(t)) =~= and_then(
        so_far(s),
        (Said { asked: Seq::empty(), answers: Seq::empty(), user: t, assistant: Seq::empty() }),
    ));
    let first = codex_anthropic::thinking_if_any(s.reasoning);
    let more = chat_anthropic::text_block_if_any("text"@, Some(t));
    let blocks = first + more;
    let a = parts::message_v("assistant"@, JsonV::Arr(blocks));
    parts::lemma_message("assistant"@, JsonV::Arr(blocks));
    lemma_pushed(s.messages, a);
    lemma_thinking(s.reasoning);
    seqs::lemma_flat_add(first, more, asked_by_block_fn());
    seqs::lemma_flat_add(first, more, readings::block_words_fn());
    if t.len() > 0 {
        let b = parts::text_block_v("text"@, t);
        seqs::lemma_flat_one(b, asked_by_block_fn());
        seqs::lemma_flat_one(b, readings::block_words_fn());
    }
    assert(so_far(s.assistant(t)) =~= and_then(
        so_far(s),
        (Said { asked: Seq::empty(), answers: Seq::empty(), user: Seq::empty(), assistant: t }),
    ));
}

proof fn lemma_item(s: CodexAnthropic, item: JsonV)
    requires
        are_calls(s),
    ensures
        are_calls(s.item(item)),
        so_far(s.item(item)) == and_then(so_far(s), said_by_items(seq![item])),
{
    keys::lemma_request_keys();
    keys::lemma_tool_block_keys();
    reveal_strlit("");
    assert(""@ =~= Seq::<char>::empty());
    seqs::lemma_flat_one(item, asked_by_item_fn());
    seqs::lemma_flat_one(item, answer_of_input_fn());
    seqs::lemma_flat_one(item, said_by_user_fn());
    seqs::lemma_flat_one(item, said_by_assistant_fn());
    lemma_flush(s);
    let f = s.flush();
    let t = codex_anthropic::lines_of_content(item.get("content"@));
    assert(t == lines(item.get("content"@))) by {
        match item.get("content"@) {
            Some(JsonV::Arr(blocks)) => {
                codex_kept::lemma_filled(blocks);
            },
            _ => {},
        }
    }
    lemma_text_message(f, t);
    lemma_text_message(CodexAnthropic { reasoning: Seq::empty(), ..f }, t);
    if item.str_at("type"@) == Some("function_call"@) {
        let b = codex_anthropic::tool_use_of_item(item);
        assert(s.calls.push(b).drop_last() =~= s.calls);
        assert(b.get("text"@) is None);
        assert(asked_by_block_fn()(b) =~= asked_by_item_fn()(item));
    } else if item.str_at("type"@) == Some("function_call_output"@) {
        let id = codex_chat::id_under(item, "call_id"@, "tool_call_id"@);
        let o = parts::plain_text_or(item.get("output"@), ""@);
        assert(o == chat_kept::plain(item.get("output"@)));
        let b = chat_anthropic::tool_result_v(id, o);
        let m = chat_anthropic::tool_result_message_v(id, o);
        parts::lemma_message("user"@, JsonV::Arr(seq![b]));
        lemma_pushed(f.messages, m);
        seqs::lemma_flat_one(b, full_answer_fn());
        seqs::lemma_flat_one(b, readings::block_words_fn());
        assert(b.get("text"@) is None);
        assert(full_answer_fn()(b) =~= answer_of_input_fn()(item));
    }
    assert(so_far(s.item(item)) =~= and_then(so_far(s), said_by_items(seq![item])));
}

proof fn lemma_items(items: Seq<JsonV>)
    ensures
        are_calls(CodexAnthropic::start().items(items)),
        so_far(CodexAnthropic::start().items(items)) == said_by_items(items),
    decreases items.len(),
{
    if items.len() == 0 {
        assert(so_far(CodexAnthropic::start()) =~= said_by_items(items));
    } else {
        let first = items.drop_last();
        let item = items.last();
        lemma_items(first);
        lemma_item(CodexAnthropic::start().items(first), item);
        seqs::lemma_flat_one(item, asked_by_item_fn());
        seqs::lemma_flat_one(item, answer_of_input_fn());
        seqs::lemma_flat_one(item, said_by_user_fn());
        seqs::lemma_flat_one(item, said_by_assistant_fn());
        assert(and_then(said_by_items(first), said_by_items(seq![item])) =~= said_by_items(items));
    }
}

/// A message with empty results says nothing.
proof fn lemma_empty_results(s: Seq<JsonV>, m: JsonV)
    ensures
        said(s.push(anthropic_order::empty_results_message(m))) == said(s),
{
    keys::lemma_request_keys();
    keys::lemma_tool_block_keys();
    reveal_strlit("");
    assert(""@ =~= Seq::<char>::empty());
    let ids = anthropic_order::asked_ids(m);
    let blocks = ids.map_values(anthropic_order::empty_result_fn());
    let e = anthropic_order::empty_results_message(m);
    parts::lemma_message("user"@, JsonV::Arr(blocks));
    assert forall|i: int| 0 <= i < blocks.len() implies full_answer_fn()(#[trigger] blocks[i])
        == Seq::<Answer>::empty() && readings::block_words_fn()(blocks[i])
        == Seq::<char>::empty() by {
        assert(blocks[i] == chat_anthropic::tool_result_v(ids[i], ""@));
        assert(blocks[i].get("text"@) is None);
    }
    seqs::lemma_flat_none(blocks, full_answer_fn());
    seqs::lemma_flat_none(blocks, readings::block_words_fn());
    lemma_pushed(s, e);
    assert(said(s.push(e)) =~= said(s));
}

/// A message that is added to others says what it says, whether it is merged with the last or
/// not.
proof fn lemma_added(s: Seq<JsonV>, m: JsonV)
    ensures
        said(anthropic_order::with_message(s, m)) == and_then(said(s), said_by(m)),
{
    keys::lemma_request_keys();
    keys::lemma_tool_block_keys();
    let t = anthropic_order::with_results(s, m);
    if t != s {
        lemma_empty_results(s, s.last());
    }
    assert(said(t) == said(s));
    lemma_pushed(t, m);
    match anthropic_order::added_blocks(m) {
        Some(more) => {
            if anthropic_order::is_role(m, "user"@) && anthropic_order::ends_with_user_blocks(t) {
                let last = t.last();
                let before = anthropic_order::blocks_of(last);
                let n = last.put("content"@, JsonV::Arr(before + more));
                assert(t.drop_last().push(last) =~= t);
                lemma_pushed(t.drop_last(), last);
                lemma_pushed(t.drop_last(), n);
                assert(n.get("role"@) == last.get("role"@));
                assert(n.get("content"@) == Some(JsonV::Arr(before + more)));
                seqs::lemma_flat_add(before, more, full_answer_fn());
                seqs::lemma_flat_add(before, more, readings::block_words_fn());
                match m.get("content"@) {
                    Some(JsonV::Str(x)) => {
                        let b = parts::text_block_v("text"@, x);
                        seqs::lemma_flat_one(b, full_answer_fn());
                        seqs::lemma_flat_one(b, readings::block_words_fn());
                    },
                    _ => {},
                }
                assert(said(t.drop_last().push(n)) =~= and_then(said(t), said_by(m)));
            }
        },
        None => {},
    }
}

proof fn lemma_merged(msgs: Seq<JsonV>)
    ensures
        said(anthropic_order::merged(msgs)) == said(msgs),
    decreases msgs.len(),
{
    if msgs.len() > 0 {
        let first = msgs.drop_last();
        lemma_merged(first);
        lemma_added(anthropic_order::merged(first), msgs.last());
        assert(first.push(msgs.last()) =~= msgs);
        lemma_pushed(first, msgs.last());
    }
}

/// In the order of Anthropic, messages ask for the same tools, give the same answers, and the
/// assistant says the same as before. So does the user, who goes on with a blank or with
/// "Continue." where the messages ended without one.
pub proof fn lemma_ordered_anthropic_says(msgs: Seq<JsonV>)
    ensures
        ({
            let out = said(anthropic_order::ordered_anthropic(msgs));
            let before = said(msgs);
            &&& out.asked == before.asked
            &&& out.answers == before.answers
            &&& out.assistant == before.assistant
            &&& out.user == before.user || out.user == before.user + " "@ || out.user
                == before.user + "Continue."@
        }),
{
    keys::lemma_request_keys();
    lemma_merged(msgs);
    let s = anthropic_order::merged(msgs);
    let t = anthropic_order::with_user_end(s);
    let blank = parts::message_v("user"@, JsonV::Str(" "@));
    let go_on = parts::message_v("user"@, JsonV::Str("Continue."@));
    parts::lemma_message("user"@, JsonV::Str(" "@));
    parts::lemma_message("user"@, JsonV::Str("Continue."@));
    lemma_pushed(s, blank);
    lemma_pushed(t, go_on);
    if s.len() > 0 && anthropic_order::is_role(s.last(), "assistant"@) {
        if anthropic_order::asks_tools(s.last()) {
            lemma_empty_results(s, s.last());
            assert(t.last() == anthropic_order::empty_results_message(s.last()));
            parts::lemma_message(
                "user"@,
                JsonV::Arr(
                    anthropic_order::asked_ids(s.last()).map_values(
                        anthropic_order::empty_result_fn(),
                    ),
                ),
            );
            assert(anthropic_order::is_role(t[t.len() - 1], "user"@));
        } else {
            assert(anthropic_order::is_role(t[t.len() - 1], "user"@));
        }
    }
    assert(said(s).asked + Seq::<Asked>::empty() =~= said(s).asked);
    assert(said(s).answers + Seq::<Answer>::empty() =~= said(s).answers);
    assert(said(s).assistant + Seq::<char>::empty() =~= said(s).assistant);
}

/// An Anthropic request made from a Responses request holds what its items say, whole and in
/// order: every call with its id, its name and the value of its arguments, every output that
/// says something with the id of its call and its text, the words of the assistant, and those
/// of the others, which may end with a blank or with "Continue." more.
pub proof fn lemma_responses_to_anthropic_messages(
    body: JsonV,
    model: Seq<char>,
    items: Seq<JsonV>,
)
    requires
        body.get("input"@) == Some(JsonV::Arr(items)),
    ensures
        ({
            let out = said(
                readings::list(
                    responses_anthropic::responses_as_anthropic(body, model),
                    "messages"@,
                ),
            );
            let user = seqs::flat(items, said_by_user_fn());
            &&& out.asked == seqs::flat(items, asked_by_item_fn())
            &&& out.answers == seqs::flat(items, answer_of_input_fn())
            &&& out.assistant == seqs::flat(items, said_by_assistant_fn())
            &&& out.user == user || out.user == user + " "@ || out.user == user + "Continue."@
        }),
{
    keys::lemma_request_keys();
    lemma_items(items);
    let s = CodexAnthropic::start().items(items);
    lemma_flush(s);
    let msgs = s.flush().messages;
    assert(said(msgs).asked + Seq::<Asked>::empty() =~= said(msgs).asked);
    assert(seqs::flat(s.flush().calls, asked_by_block_fn()) =~= Seq::<Asked>::empty());
    assert(said(msgs) =~= so_far(s.flush()));
    lemma_ordered_anthropic_says(msgs);
}

/// A function with a name among the tools of a Responses request.
pub open spec fn if_named_function_fn() -> spec_fn(JsonV) -> Seq<JsonV> {
    |t: JsonV|
        if t.str_at("type"@) == Some("function"@) && t.get("name"@) is Some {
            seq![t]
        } else {
            Seq::empty()
        }
}

/// Whether an Anthropic tool is a function of a Responses request: it has the name, the
/// description and the schema, without what Anthropic does not know.
pub open spec fn is_tool_of(t: JsonV, f: JsonV) -> bool {
    &&& t.get("name"@) == f.get("name"@)
    &&& t.str_at("description"@) == Some(f.str_or("description"@, ""@))
    &&& f.get_or_null("parameters"@) is Obj ==> forall|k: Seq<char>|
        #[trigger]
        t.get_or_null("input_schema"@).get(k) == if k == "additionalProperties"@ || k
            == "strict"@ {
            None
        } else {
            f.get_or_null("parameters"@).get(k)
        }
}

proof fn lemma_tools(tools: Seq<JsonV>)
    ensures
        ({
            let out = seqs::flat(tools, responses_anthropic::anthropic_tool_of_responses_fn());
            let fs = seqs::flat(tools, if_named_function_fn());
            &&& out.len() == fs.len()
            &&& forall|i: int| 0 <= i < out.len() ==> is_tool_of(#[trigger] out[i], fs[i])
        }),
    decreases tools.len(),
{
    keys::lemma_request_keys();
    if tools.len() > 0 {
        let first = tools.drop_last();
        lemma_tools(first);
        let out = seqs::flat(tools, responses_anthropic::anthropic_tool_of_responses_fn());
        let fs = seqs::flat(tools, if_named_function_fn());
        let n = seqs::flat(first, if_named_function_fn()).len();
        let tool = tools.last();
        assert forall|i: int| 0 <= i < out.len() implies is_tool_of(#[trigger] out[i], fs[i]) by {
            if i < n {
                assert(out[i] == seqs::flat(
                    first,
                    responses_anthropic::anthropic_tool_of_responses_fn(),
                )[i]);
                assert(fs[i] == seqs::flat(first, if_named_function_fn())[i]);
            } else {
                assert(fs[i] == tool);
                assert(out[i] == responses_anthropic::anthropic_tool_of_responses(tool)[0]);
                assert(out[i].get("input_schema"@) == Some(
                    responses_anthropic::clean_schema(tool.get("parameters"@)),
                ));
            }
        }
    }
}

/// Every function with a name among the tools of a Responses request reaches the Anthropic
/// request, in its place, with its description and its schema; and so do the instructions, as
/// the system prompt.
pub proof fn lemma_responses_to_anthropic_tools(body: JsonV, model: Seq<char>)
    ensures
        ({
            let r = responses_anthropic::responses_as_anthropic(body, model);
            let out = readings::list(r, "tools"@);
            let fs = seqs::flat(readings::list(body, "tools"@), if_named_function_fn());
            &&& out.len() == fs.len()
            &&& forall|i: int| 0 <= i < out.len() ==> is_tool_of(#[trigger] out[i], fs[i])
            &&& readings::words(r.get("system"@)) == codex_kept::instruction_words(
                body.get("instructions"@),
            )
        }),
{
    keys::lemma_request_keys();
    lemma_tools(readings::list(body, "tools"@));
    match body.get("instructions"@) {
        Some(v) => {
            codex_kept::lemma_instruction_words(v);
            if codex_chat::instruction_text(v).len() == 0 {
                assert(codex_chat::instruction_text(v) =~= Seq::<char>::empty());
            }
        },
        None => {},
    }
}

/// The number of tokens that is asked for reaches the Anthropic request. Where the model is to
/// think, which it is unless thinking is switched off, it has its budget for it, and there is
/// room for an answer beside.
pub proof fn lemma_responses_to_anthropic_tokens(body: JsonV, model: Seq<char>)
    ensures
        ({
            let r = responses_anthropic::responses_as_anthropic(body, model);
            let off = body.get_or_null("thinking"@).str_at("type"@) == Some("disabled"@);
            let told = body.get_or_null("thinking"@).u64_at("budget_tokens"@);
            let budget = if told is Some {
                told->0
            } else {
                10000
            };
            let asked = if body.get("max_output_tokens"@) is Some {
                body.u64_or("max_output_tokens"@, 16384)
            } else {
                body.u64_or("max_tokens"@, 16384)
            };
            let given = r.u64_at("max_tokens"@);
            &&& given is Some
            &&& off ==> given->0 == asked && r.get("thinking"@) is None
            &&& !off ==> r.get_or_null("thinking"@).str_at("type"@) == Some("enabled"@)
                && r.get_or_null("thinking"@).u64_at("budget_tokens"@) == Some(budget)
            &&& !off && budget + 6000 <= u64::MAX ==> given->0 == if asked < budget + 6000 {
                (budget + 6000) as u64
            } else {
                asked
            }
        }),
{
    keys::lemma_request_keys();
    reveal_strlit("type");
    reveal_strlit("budget_tokens");
    assert("type"@.len() == 4 && "budget_tokens"@.len() == 13);
}

} // verus!
