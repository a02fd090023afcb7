//! How the outputs of function calls reach a chat request.

use vstd::prelude::*;

use super::chat_answers;
use super::chat_kept;
use super::chat_order;
use super::chat_order::Order;
use super::codex_chat;
use super::codex_chat::CodexChat;
use super::responses_chat;
use crate::convert::parts;
use crate::convert::readings;
use crate::convert::readings::Answer;
use crate::json::JsonV;
use crate::keys;
use crate::seqs;

verus! {

/// What a tool's message tells of a call, where it tells anything.
pub open spec fn told_by_tool_fn() -> spec_fn(JsonV) -> Seq<Answer> {
    |m: JsonV|
        if m.str_at("tool_call_id"@) is Some && m.str_or("content"@, ""@).len() > 0 {
            seq![Answer { id: m.str_at("tool_call_id"@)->0, text: m.str_or("content"@, ""@) }]
        } else {
            Seq::empty()
        }
}

/// The output of a function call, where there is any.
pub open spec fn output_of_item_fn() -> spec_fn(JsonV) -> Seq<Answer> {
    |item: JsonV|
        if item.str_at("type"@) == Some("function_call_output"@) && chat_kept::plain(
            item.get("output"@),
        ).len() > 0 {
            seq![
                Answer {
                    id: item.str_or("call_id"@, ""@),
                    text: chat_kept::plain(item.get("output"@)),
                },
            ]
        } else {
            Seq::empty()
        }
}

spec fn told(s: CodexChat) -> Seq<Answer> {
    seqs::flat(s.messages, told_by_tool_fn())
}

proof fn lemma_said(s: Seq<JsonV>, m: JsonV)
    ensures
        seqs::flat(s.push(m), told_by_tool_fn()) == seqs::flat(s, told_by_tool_fn())
            + told_by_tool_fn()(m),
{
    assert(s.push(m).drop_last() =~= s);
}

proof fn lemma_nothing_told(s: Seq<JsonV>, m: JsonV)
    requires
        m.get("tool_call_id"@) is None,
    ensures
        seqs::flat(s.push(m), told_by_tool_fn()) == seqs::flat(s, told_by_tool_fn()),
{
    lemma_said(s, m);
    assert(seqs::flat(s, told_by_tool_fn()) + Seq::<Answer>::empty() =~= seqs::flat(
        s,
        told_by_tool_fn(),
    ));
}

proof fn lemma_flush_told(s: CodexChat)
    ensures
        told(s.flush()) == told(s),
{
    keys::lemma_request_keys();
    keys::lemma_message_names();
    if s.calls.len() > 0 {
        let m = s.flush().messages.last();
        assert(m.get("tool_call_id"@) is None);
        lemma_nothing_told(s.messages, m);
        assert(s.flush().messages =~= s.messages.push(m));
    }
}

proof fn lemma_fill_told(s: CodexChat)
    ensures
        told(s.fill()) == told(s),
{
    reveal_strlit("");
    let g = told_by_tool_fn();
    let f = codex_chat::filler_fn(s.messages);
    let none = |id: Seq<char>| Seq::<Answer>::empty();
    assert forall|i: int| 0 <= i < s.flushed.len() implies seqs::flat(
        f(#[trigger] s.flushed[i]),
        g,
    ) == none(s.flushed[i]) by {
        let m = codex_chat::tool_message_v(s.flushed[i], ""@);
        codex_chat::lemma_tool_message(s.flushed[i], ""@);
        assert(g(m) == Seq::<Answer>::empty());
        seqs::lemma_flat_one(m, g);
    }
    seqs::lemma_flat_flat(s.flushed, f, g, none);
    seqs::lemma_flat_none(s.flushed, none);
    seqs::lemma_flat_add(s.messages, seqs::flat(s.flushed, f), g);
    assert(told(s.fill()) =~= told(s));
}

proof fn lemma_message_told(s: CodexChat, item: JsonV)
    ensures
        told(s.message(item)) == told(s),
{
    keys::lemma_request_keys();
    keys::lemma_message_names();
    let raw = item.str_or("role"@, "user"@);
    let role = if raw == "developer"@ || raw == "system"@ {
        "user"@
    } else {
        raw
    };
    let content = match item.get("content"@) {
        Some(c) => codex_chat::chat_content(c),
        None => JsonV::Null,
    };
    let m = parts::message_v(role, content);
    assert(m.get("tool_call_id"@) is None);
    lemma_nothing_told(s.messages, m);
    let t = m.put("reasoning_content"@, JsonV::Str(s.next_reasoning()));
    assert(t.get("tool_call_id"@) is None);
    lemma_nothing_told(s.messages, t);
}

proof fn lemma_item_told(s: CodexChat, item: JsonV)
    ensures
        told(s.item(item)) == told(s) + output_of_item_fn()(item),
{
    keys::lemma_request_keys();
    reveal_strlit("");
    assert(""@ =~= Seq::<char>::empty());
    assert(told(s) + Seq::<Answer>::empty() =~= told(s));
    lemma_flush_told(s);
    lemma_fill_told(s.flush());
    lemma_message_told(s.flush().fill(), item);
    if item.str_at("type"@) == Some("function_call_output"@) {
        let id = item.str_or("call_id"@, ""@);
        let t = parts::plain_text_or(item.get("output"@), ""@);
        codex_chat::lemma_tool_message(id, t);
        lemma_said(s.flush().messages, codex_chat::tool_message_v(id, t));
        assert(t == chat_kept::plain(item.get("output"@)));
    }
}

proof fn lemma_items_told(s: CodexChat, items: Seq<JsonV>)
    ensures
        told(s.items(items)) == told(s) + seqs::flat(items, output_of_item_fn()),
    decreases items.len(),
{
    if items.len() == 0 {
        assert(told(s) + seqs::flat(items, output_of_item_fn()) =~= told(s));
    } else {
        lemma_items_told(s, items.drop_last());
        lemma_item_told(s.items(items.drop_last()), items.last());
        assert(told(s.items(items)) =~= told(s) + seqs::flat(items, output_of_item_fn()));
    }
}

/// The messages that a Responses request becomes tell the output of every function call, under
/// the id of the call and with its text, and no other.
pub proof fn lemma_outputs_told(body: JsonV, items: Seq<JsonV>)
    requires
        body.get("input"@) == Some(JsonV::Arr(items)),
    ensures
        seqs::flat(responses_chat::messages_of_responses(body), told_by_tool_fn()) == seqs::flat(
            items,
            output_of_item_fn(),
        ),
{
    keys::lemma_request_keys();
    keys::lemma_message_names();
    let first = responses_chat::instruction_message(body);
    let s = CodexChat::start(first);
    lemma_items_told(s, items);
    lemma_flush_told(s.items(items));
    if first.len() > 0 {
        assert(first =~= Seq::<JsonV>::empty().push(first[0]));
        assert(first[0].get("tool_call_id"@) is None);
        lemma_nothing_told(Seq::empty(), first[0]);
    }
    assert(told(s) =~= Seq::<Answer>::empty());
    assert(Seq::<Answer>::empty() + seqs::flat(items, output_of_item_fn()) =~= seqs::flat(
        items,
        output_of_item_fn(),
    ));
}

/// Whether a message neither asks for a call nor tells its result.
pub open spec fn knows_not(m: JsonV, id: Seq<char>) -> bool {
    &&& m.str_at("tool_call_id"@) != Some(id)
    &&& forall|c: int|
        0 <= c < readings::list(m, "tool_calls"@).len() ==> (#[trigger] readings::list(
            m,
            "tool_calls"@,
        )[c]).str_at("id"@) != Some(id)
}

/// Whether no call of an id was met yet.
spec fn unmet(o: Order, id: Seq<char>) -> bool {
    &&& !o.placed.contains(id)
    &&& forall|k: int| 0 <= k < o.fixed.len() ==> !chat_order::has_call(#[trigger] o.fixed[k], id)
}

proof fn lemma_not_called(m: JsonV, id: Seq<char>)
    requires
        knows_not(m, id),
    ensures
        !chat_order::has_call(m, id),
{
    match m.array_at("tool_calls"@) {
        Some(tcs) => {
            assert forall|k: int| 0 <= k < tcs.len() implies !(#[trigger] tcs[k]).str_is(
                "id"@,
                id,
            ) by {
                assert(readings::list(m, "tool_calls"@)[k] == tcs[k]);
            }
        },
        None => {},
    }
}

proof fn lemma_not_among(tcs: Seq<JsonV>, id: Seq<char>)
    requires
        forall|k: int| 0 <= k < tcs.len() ==> !(#[trigger] tcs[k]).str_is("id"@, id),
    ensures
        !codex_chat::call_ids(tcs).contains(id),
    decreases tcs.len(),
{
    if tcs.len() > 0 {
        let t = tcs.drop_last();
        assert forall|k: int| 0 <= k < t.len() implies !(#[trigger] t[k]).str_is("id"@, id) by {
            assert(t[k] == tcs[k]);
        }
        lemma_not_among(t, id);
        assert(!tcs[tcs.len() - 1].str_is("id"@, id));
        let ids = codex_chat::call_ids(tcs);
        let before = codex_chat::call_ids(t);
        if ids.contains(id) {
            let p = choose|p: int| 0 <= p < ids.len() && ids[p] == id;
            if p < before.len() {
                assert(before[p] == id);
            }
        }
    }
}

proof fn lemma_results_call_nothing(ids: Seq<Seq<char>>, placed: Set<Seq<char>>, id: Seq<char>)
    ensures
        ({
            let s = seqs::flat(ids, chat_order::empty_result_fn(placed));
            forall|k: int| 0 <= k < s.len() ==> !chat_order::has_call(#[trigger] s[k], id)
        }),
    decreases ids.len(),
{
    if ids.len() > 0 {
        keys::lemma_message_names();
        keys::lemma_request_keys();
        lemma_results_call_nothing(ids.drop_last(), placed, id);
        let m = codex_chat::tool_message_v(ids.last(), ""@);
        assert(m.get("tool_calls"@) is None);
        let s = seqs::flat(ids, chat_order::empty_result_fn(placed));
        let t = seqs::flat(ids.drop_last(), chat_order::empty_result_fn(placed));
        assert forall|k: int| 0 <= k < s.len() implies !chat_order::has_call(
            #[trigger] s[k],
            id,
        ) by {
            if k < t.len() {
                assert(s[k] == t[k]);
            } else {
                assert(s[k] == m);
            }
        }
    }
}

proof fn lemma_filled_unmet(o: Order, id: Seq<char>)
    requires
        unmet(o, id),
    ensures
        unmet(o.filled(), id),
{
    let calls = chat_order::last_calls(o.fixed);
    let ids = codex_chat::call_ids(calls);
    if calls.len() > 0 {
        assert(!chat_order::has_call(o.fixed[o.fixed.len() - 1], id));
    }
    lemma_not_among(calls, id);
    lemma_results_call_nothing(ids, o.placed, id);
}

proof fn lemma_step_unmet(o: Order, m: JsonV, id: Seq<char>)
    requires
        unmet(o, id),
        knows_not(m, id),
    ensures
        unmet(o.step(m), id),
{
    lemma_not_called(m, id);
    lemma_filled_unmet(o, id);
    match m.str_at("tool_call_id"@) {
        Some(other) => {
            chat_answers::lemma_again_alike(o, m, other);
            chat_answers::lemma_caller(o.fixed, other);
            let t = o.again(m, other).fixed;
            assert forall|k: int| 0 <= k < t.len() implies !chat_order::has_call(
                #[trigger] t[k],
                id,
            ) by {
                assert(!chat_order::has_call(o.fixed[k], id));
                assert(o.fixed[k].get("tool_calls"@) == t[k].get("tool_calls"@));
            }
            match chat_order::caller(o.fixed, other) {
                Some(k) => {
                    chat_answers::lemma_after_tools(o.fixed, k + 1);
                },
                None => {},
            }
        },
        None => {},
    }
}

proof fn lemma_steps_unmet(msgs: Seq<JsonV>, id: Seq<char>)
    requires
        forall|k: int| 0 <= k < msgs.len() ==> knows_not(#[trigger] msgs[k], id),
    ensures
        unmet(Order::start().steps(msgs), id),
    decreases msgs.len(),
{
    if msgs.len() > 0 {
        let t = msgs.drop_last();
        assert forall|k: int| 0 <= k < t.len() implies knows_not(#[trigger] t[k], id) by {
            assert(t[k] == msgs[k]);
        }
        lemma_steps_unmet(t, id);
        assert(knows_not(msgs[msgs.len() - 1], id));
        lemma_step_unmet(Order::start().steps(t), msgs.last(), id);
    }
}

/// Whether a message is among some.
pub open spec fn among(s: Seq<JsonV>, m: JsonV) -> bool {
    exists|p: int| 0 <= p < s.len() && #[trigger] s[p] == m
}

proof fn lemma_step_stays(o: Order, m: JsonV, next: JsonV)
    requires
        among(o.fixed, m),
        chat_order::says_something(m),
    ensures
        among(o.step(next).fixed, m),
{
    let p = choose|p: int| 0 <= p < o.fixed.len() && #[trigger] o.fixed[p] == m;
    let f = o.filled().fixed;
    assert(f[p] == m);
    assert(f.push(next)[p] == m);
    assert(o.fixed.push(next)[p] == m);
    match next.str_at("tool_call_id"@) {
        Some(id) => {
            chat_answers::lemma_first_answer(o.fixed, id);
            chat_answers::lemma_caller(o.fixed, id);
            chat_answers::lemma_again_alike(o, next, id);
            assert(o.again(next, id).fixed[p] == m);
            match chat_order::caller(o.fixed, id) {
                Some(k) => {
                    chat_answers::lemma_after_tools(o.fixed, k + 1);
                    let at = chat_order::after_tools(o.fixed, k + 1);
                    let t = o.fixed.insert(at, next);
                    if p < at {
                        assert(t[p] == m);
                    } else {
                        assert(t[p + 1] == m);
                    }
                },
                None => {},
            }
        },
        None => {},
    }
}

proof fn lemma_steps_stay(msgs: Seq<JsonV>, n: int, m: JsonV)
    requires
        0 <= n <= msgs.len(),
        among(Order::start().steps(msgs.take(n)).fixed, m),
        chat_order::says_something(m),
    ensures
        among(Order::start().steps(msgs).fixed, m),
    decreases msgs.len(),
{
    if n == msgs.len() {
        assert(msgs.take(n) =~= msgs);
    } else {
        assert(msgs.drop_last().take(n) =~= msgs.take(n));
        lemma_steps_stay(msgs.drop_last(), n, m);
        lemma_step_stays(Order::start().steps(msgs.drop_last()), m, msgs.last());
    }
}

proof fn lemma_trimmed_stays(s: Seq<JsonV>, m: JsonV)
    requires
        among(s, m),
        !chat_order::is_bare_assistant(m),
    ensures
        among(chat_order::trimmed(s), m),
    decreases s.len(),
{
    let p = choose|p: int| 0 <= p < s.len() && #[trigger] s[p] == m;
    if chat_order::is_bare_assistant(s.last()) {
        assert(s.drop_last()[p] == m);
        lemma_trimmed_stays(s.drop_last(), m);
    }
}

/// In the order that strict providers ask for, the result of a call that stands right behind the
/// message that asks for it is still there, as it is, where the id was not used before.
pub proof fn lemma_ordered_chat_answer(msgs: Seq<JsonV>, i: int, c: int, id: Seq<char>)
    requires
        0 <= i,
        i + 1 < msgs.len(),
        msgs[i].str_at("role"@) == Some("assistant"@),
        0 <= c < readings::list(msgs[i], "tool_calls"@).len(),
        readings::list(msgs[i], "tool_calls"@)[c].str_at("id"@) == Some(id),
        msgs[i + 1].str_at("role"@) == Some("tool"@),
        msgs[i + 1].str_at("tool_call_id"@) == Some(id),
        msgs[i + 1].str_or("content"@, ""@).len() > 0,
        forall|k: int| 0 <= k < i ==> knows_not(#[trigger] msgs[k], id),
    ensures
        among(chat_order::ordered_chat(msgs), msgs[i + 1]),
{
    keys::lemma_message_names();
    reveal_strlit("");
    let m = msgs[i + 1];
    assert(chat_order::says_something(m));
    let before = msgs.take(i);
    assert forall|k: int| 0 <= k < before.len() implies knows_not(#[trigger] before[k], id) by {
        assert(before[k] == msgs[k]);
    }
    lemma_steps_unmet(before, id);
    let o = Order::start().steps(before);
    lemma_filled_unmet(o, id);
    assert(msgs.take(i + 1).drop_last() =~= before);
    assert(msgs.take(i + 2).drop_last() =~= msgs.take(i + 1));
    let called = o.step(msgs[i]);
    assert(called == Order::start().steps(msgs.take(i + 1)));
    let tcs = readings::list(msgs[i], "tool_calls"@);
    assert(tcs[c].str_is("id"@, id));
    assert(chat_order::has_call(msgs[i], id));
    assert(called == o.filled().push(msgs[i]));
    assert(called.fixed.last() == msgs[i]);
    assert(chat_order::open_call(called.fixed, id));
    let answered = called.step(m);
    assert(answered == Order::start().steps(msgs.take(i + 2)));
    assert(answered.fixed == called.fixed.push(m));
    assert(answered.fixed[called.fixed.len() as int] == m);
    lemma_steps_stay(msgs, i + 2, m);
    let end = Order::start().steps(msgs);
    lemma_trimmed_stays(end.fixed, m);
    let s = chat_order::trimmed(end.fixed);
    let p = choose|p: int| 0 <= p < s.len() && #[trigger] s[p] == m;
    let closed = chat_order::closed_order(end);
    assert(closed[p] == m);
    assert(chat_order::is_user_or_tool(closed[p]));
    assert(chat_order::ordered_chat(msgs)[p] == m);
}

} // verus!
