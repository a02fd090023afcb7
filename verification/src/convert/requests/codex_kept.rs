//! What a Responses request keeps when it becomes a request of another format.

use vstd::prelude::*;

use super::chat_answers;
use super::chat_kept;
use super::chat_order;
use super::chat_order::Order;
use super::codex_chat;
use super::codex_chat::CodexChat;
use super::responses_chat;
use crate::convert::parts;
use crate::convert::readings;
use crate::convert::readings::Call;
use crate::json::JsonV;
use crate::keys;
use crate::seqs;
use crate::text;

verus! {

/// The text under a key, that under another where the key is missing.
pub open spec fn either(item: JsonV, key: Seq<char>, other: Seq<char>) -> Seq<char> {
    if item.get(key) is Some {
        item.str_or(key, ""@)
    } else {
        item.str_or(other, ""@)
    }
}

/// The call of an item of a request.
pub open spec fn call_of_input_fn() -> spec_fn(JsonV) -> Seq<Call> {
    |item: JsonV|
        if item.str_at("type"@) == Some("function_call"@) {
            seq![
                Call {
                    id: either(item, "call_id"@, "id"@),
                    name: item.str_or("name"@, ""@),
                    arguments: if item.get("arguments"@) is Some {
                        chat_kept::plain(item.get("arguments"@))
                    } else {
                        "{}"@
                    },
                },
            ]
        } else {
            Seq::empty()
        }
}

/// Whether something is read of messages that neither a tool's message nor an assistant's
/// without calls holds.
spec fn is_read_elsewhere<C>(g: spec_fn(JsonV) -> Seq<C>) -> bool {
    &&& forall|m: JsonV|
        chat_order::role_of(m) == "tool"@ ==> #[trigger] g(m) == Seq::<C>::empty()
    &&& forall|m: JsonV|
        chat_order::is_bare_assistant(m) ==> #[trigger] g(m) == Seq::<C>::empty()
}

proof fn lemma_insert_nothing<C>(s: Seq<JsonV>, p: int, m: JsonV, g: spec_fn(JsonV) -> Seq<C>)
    requires
        0 <= p <= s.len(),
        g(m) == Seq::<C>::empty(),
    ensures
        seqs::flat(s.insert(p, m), g) == seqs::flat(s, g),
{
    let a = s.take(p);
    let b = s.skip(p);
    assert(s =~= a + b);
    assert(s.insert(p, m) =~= a + seq![m] + b);
    seqs::lemma_flat_add(a, b, g);
    seqs::lemma_flat_add(a + seq![m], b, g);
    seqs::lemma_flat_add(a, seq![m], g);
    seqs::lemma_flat_one(m, g);
    assert(seqs::flat(a, g) + Seq::<C>::empty() =~= seqs::flat(a, g));
}

proof fn lemma_results_nothing<C>(
    ids: Seq<Seq<char>>,
    placed: Set<Seq<char>>,
    g: spec_fn(JsonV) -> Seq<C>,
)
    requires
        is_read_elsewhere(g),
    ensures
        seqs::flat(seqs::flat(ids, chat_order::empty_result_fn(placed)), g) == Seq::<C>::empty(),
{
    let f = chat_order::empty_result_fn(placed);
    let none = |id: Seq<char>| Seq::<C>::empty();
    assert forall|i: int| 0 <= i < ids.len() implies seqs::flat(f(#[trigger] ids[i]), g) == none(
        ids[i],
    ) by {
        let m = codex_chat::tool_message_v(ids[i], ""@);
        codex_chat::lemma_tool_message(ids[i], ""@);
        seqs::lemma_flat_one(m, g);
        assert(g(m) == Seq::<C>::empty());
    }
    seqs::lemma_flat_flat(ids, f, g, none);
    seqs::lemma_flat_none(ids, none);
}

proof fn lemma_step_keeps<C>(o: Order, m: JsonV, g: spec_fn(JsonV) -> Seq<C>)
    requires
        is_read_elsewhere(g),
    ensures
        seqs::flat(o.step(m).fixed, g) == seqs::flat(o.fixed, g) + g(m),
{
    keys::lemma_message_names();
    let s = o.fixed;
    assert(seqs::flat(s, g) + Seq::<C>::empty() =~= seqs::flat(s, g));
    if chat_order::role_of(m) == "tool"@ {
        assert(g(m) == Seq::<C>::empty());
        match m.str_at("tool_call_id"@) {
            None => {
                lemma_insert_nothing(s, s.len() as int, m, g);
                assert(s.push(m) =~= s.insert(s.len() as int, m));
            },
            Some(id) => {
                if o.placed.contains(id) {
                    let t = o.again(m, id).fixed;
                    chat_answers::lemma_first_answer(s, id);
                    assert forall|i: int| 0 <= i < s.len() implies g(#[trigger] t[i]) == g(
                        s[i],
                    ) by {
                        if t[i] != s[i] {
                            assert(chat_order::role_of(s[i]) == "tool"@);
                            assert(chat_order::role_of(t[i]) == "tool"@);
                            assert(g(s[i]) == Seq::<C>::empty());
                        }
                    }
                    seqs::lemma_flat_mapped(s, t, g, g);
                } else if chat_order::open_call(s, id) {
                    lemma_insert_nothing(s, s.len() as int, m, g);
                    assert(s.push(m) =~= s.insert(s.len() as int, m));
                } else {
                    match chat_order::caller(s, id) {
                        Some(k) => {
                            chat_answers::lemma_caller(s, id);
                            chat_answers::lemma_after_tools(s, k + 1);
                            lemma_insert_nothing(
                                s,
                                chat_order::after_tools(s, k + 1),
                                m,
                                g,
                            );
                        },
                        None => {},
                    }
                }
            },
        }
    } else {
        let ids = codex_chat::call_ids(chat_order::last_calls(s));
        let more = seqs::flat(ids, chat_order::empty_result_fn(o.placed));
        lemma_results_nothing(ids, o.placed, g);
        seqs::lemma_flat_add(s, more, g);
        let f = o.filled().fixed;
        assert(seqs::flat(f, g) == seqs::flat(s, g));
        assert(f.push(m).drop_last() =~= f);
        if chat_order::is_blank_assistant(m) {
            assert(chat_order::is_bare_assistant(m));
            assert(g(m) == Seq::<C>::empty());
        }
    }
}

proof fn lemma_steps_keep<C>(msgs: Seq<JsonV>, g: spec_fn(JsonV) -> Seq<C>)
    requires
        is_read_elsewhere(g),
    ensures
        seqs::flat(Order::start().steps(msgs).fixed, g) == seqs::flat(msgs, g),
    decreases msgs.len(),
{
    if msgs.len() > 0 {
        lemma_steps_keep(msgs.drop_last(), g);
        lemma_step_keeps(Order::start().steps(msgs.drop_last()), msgs.last(), g);
    }
}

proof fn lemma_trimmed_keeps<C>(s: Seq<JsonV>, g: spec_fn(JsonV) -> Seq<C>)
    requires
        is_read_elsewhere(g),
    ensures
        seqs::flat(chat_order::trimmed(s), g) == seqs::flat(s, g),
    decreases s.len(),
{
    if s.len() > 0 && chat_order::is_bare_assistant(s.last()) {
        lemma_trimmed_keeps(s.drop_last(), g);
        assert(g(s.last()) == Seq::<C>::empty());
        assert(seqs::flat(s, g) =~= seqs::flat(s.drop_last(), g));
    }
}

/// Bringing messages in order keeps what is read elsewhere than in tools' messages and in
/// assistants' without calls.
proof fn lemma_ordered_keeps<C>(msgs: Seq<JsonV>, g: spec_fn(JsonV) -> Seq<C>)
    requires
        is_read_elsewhere(g),
    ensures
        ({
            let go_on = parts::message_v("user"@, JsonV::Str("Continue."@));
            let out = chat_order::ordered_chat(msgs);
            &&& chat_order::has_user_or_tool(
                chat_order::closed_order(Order::start().steps(msgs)),
            ) ==> seqs::flat(out, g) == seqs::flat(msgs, g)
            &&& g(go_on) == Seq::<C>::empty() ==> seqs::flat(out, g) == seqs::flat(msgs, g)
        }),
{
    let o = Order::start().steps(msgs);
    let go_on = parts::message_v("user"@, JsonV::Str("Continue."@));
    lemma_steps_keep(msgs, g);
    lemma_trimmed_keeps(o.fixed, g);
    let s = chat_order::trimmed(o.fixed);
    let ids = codex_chat::call_ids(chat_order::last_calls(s));
    let more = seqs::flat(ids, chat_order::empty_result_fn(o.placed));
    lemma_results_nothing(ids, o.placed, g);
    seqs::lemma_flat_add(s, more, g);
    assert(seqs::flat(s, g) + Seq::<C>::empty() =~= seqs::flat(s, g));
    let c = chat_order::closed_order(o);
    if g(go_on) == Seq::<C>::empty() {
        lemma_insert_nothing(c, 0, go_on, g);
    }
}

/// In the order that strict providers ask for, messages ask for the same calls as before, each
/// in its place.
pub proof fn lemma_ordered_chat_calls(msgs: Seq<JsonV>)
    ensures
        seqs::flat(chat_order::ordered_chat(msgs), readings::calls_of_chat_fn()) == seqs::flat(
            msgs,
            readings::calls_of_chat_fn(),
        ),
{
    keys::lemma_message_names();
    let g = readings::calls_of_chat_fn();
    assert forall|m: JsonV| chat_order::is_bare_assistant(m) implies #[trigger] g(m) == Seq::<
        Call,
    >::empty() by {
        match m.array_at("tool_calls"@) {
            Some(tcs) => {
                assert(seqs::flat(tcs, readings::call_of_chat_fn()) =~= Seq::<Call>::empty());
            },
            None => {},
        }
    }
    parts::lemma_message("user"@, JsonV::Str("Continue."@));
    lemma_ordered_keeps(msgs, g);
}

/// In the order that strict providers ask for, the users say just what they said before, where
/// there is a message of a user.
pub proof fn lemma_ordered_chat_users(msgs: Seq<JsonV>)
    requires
        exists|i: int| 0 <= i < msgs.len() && (#[trigger] msgs[i]).str_at("role"@) == Some("user"@),
    ensures
        seqs::flat(chat_order::ordered_chat(msgs), readings::words_by_fn("user"@)) == seqs::flat(
            msgs,
            readings::words_by_fn("user"@),
        ),
{
    keys::lemma_message_names();
    let g = readings::words_by_fn("user"@);
    lemma_ordered_keeps(msgs, g);
    let one = |m: JsonV|
        if m.str_at("role"@) == Some("user"@) {
            seq![0int]
        } else {
            Seq::empty()
        };
    let c = chat_order::closed_order(Order::start().steps(msgs));
    let i = choose|i: int|
        0 <= i < msgs.len() && (#[trigger] msgs[i]).str_at("role"@) == Some("user"@);
    lemma_user_stays(msgs, one, i);
}

proof fn lemma_user_stays(msgs: Seq<JsonV>, one: spec_fn(JsonV) -> Seq<int>, i: int)
    requires
        forall|m: JsonV|
            #[trigger] one(m) == if m.str_at("role"@) == Some("user"@) {
                seq![0int]
            } else {
                Seq::<int>::empty()
            },
        0 <= i < msgs.len(),
        msgs[i].str_at("role"@) == Some("user"@),
    ensures
        chat_order::has_user_or_tool(chat_order::closed_order(Order::start().steps(msgs))),
{
    keys::lemma_message_names();
    let o = Order::start().steps(msgs);
    lemma_steps_keep(msgs, one);
    lemma_trimmed_keeps(o.fixed, one);
    let s = chat_order::trimmed(o.fixed);
    let c = chat_order::closed_order(o);
    assert(one(msgs[i]) == seq![0int]);
    seqs::lemma_flat_holds(msgs, one, i, 0);
    lemma_some_user(s, one);
    let k = choose|k: int| 0 <= k < s.len() && (#[trigger] s[k]).str_at("role"@) == Some("user"@);
    assert(c[k] == s[k]);
    assert(chat_order::is_user_or_tool(c[k]));
}

proof fn lemma_some_user(s: Seq<JsonV>, one: spec_fn(JsonV) -> Seq<int>)
    requires
        forall|m: JsonV|
            #[trigger] one(m) == if m.str_at("role"@) == Some("user"@) {
                seq![0int]
            } else {
                Seq::<int>::empty()
            },
        seqs::flat(s, one).len() > 0,
    ensures
        exists|k: int| 0 <= k < s.len() && (#[trigger] s[k]).str_at("role"@) == Some("user"@),
    decreases s.len(),
{
    if s.last().str_at("role"@) == Some("user"@) {
        assert(s[s.len() - 1].str_at("role"@) == Some("user"@));
    } else {
        assert(one(s.last()) == Seq::<int>::empty());
        lemma_some_user(s.drop_last(), one);
        let t = s.drop_last();
        let k = choose|k: int|
            0 <= k < t.len() && (#[trigger] t[k]).str_at("role"@) == Some("user"@);
        assert(s[k] == t[k]);
    }
}

/// The calls of the messages so far and of those that wait.
spec fn calls_so_far(s: CodexChat) -> Seq<Call> {
    seqs::flat(s.messages, readings::calls_of_chat_fn()) + seqs::flat(
        s.calls,
        readings::call_of_chat_fn(),
    )
}

proof fn lemma_no_call(s: Seq<JsonV>, m: JsonV)
    requires
        m.get("tool_calls"@) is None,
    ensures
        seqs::flat(s.push(m), readings::calls_of_chat_fn()) == seqs::flat(
            s,
            readings::calls_of_chat_fn(),
        ),
{
    assert(s.push(m).drop_last() =~= s);
    assert(seqs::flat(s.push(m), readings::calls_of_chat_fn()) =~= seqs::flat(
        s,
        readings::calls_of_chat_fn(),
    ));
}

proof fn lemma_flush_calls(s: CodexChat)
    ensures
        calls_so_far(s.flush()) == calls_so_far(s),
        s.flush().calls.len() == 0,
{
    keys::lemma_request_keys();
    if s.calls.len() > 0 {
        let t = s.flush();
        let m = t.messages.last();
        assert(t.messages.drop_last() =~= s.messages);
        assert(m.array_at("tool_calls"@) == Some(s.calls));
        assert(m.str_at("role"@) == Some("assistant"@));
        assert(calls_so_far(t) =~= calls_so_far(s));
    }
}

proof fn lemma_fill_calls(s: CodexChat)
    ensures
        calls_so_far(s.fill()) == calls_so_far(s),
        s.fill().calls == s.calls,
{
    keys::lemma_request_keys();
    let g = readings::calls_of_chat_fn();
    let f = codex_chat::filler_fn(s.messages);
    let none = |id: Seq<char>| Seq::<Call>::empty();
    assert forall|i: int| 0 <= i < s.flushed.len() implies seqs::flat(
        f(#[trigger] s.flushed[i]),
        g,
    ) == none(s.flushed[i]) by {
        let m = codex_chat::tool_message_v(s.flushed[i], ""@);
        codex_chat::lemma_tool_message(s.flushed[i], ""@);
        seqs::lemma_flat_one(m, g);
    }
    seqs::lemma_flat_flat(s.flushed, f, g, none);
    seqs::lemma_flat_none(s.flushed, none);
    seqs::lemma_flat_add(s.messages, seqs::flat(s.flushed, f), g);
    assert(calls_so_far(s.fill()) =~= calls_so_far(s));
}

proof fn lemma_message_calls(s: CodexChat, item: JsonV)
    ensures
        calls_so_far(s.message(item)) == calls_so_far(s),
{
    keys::lemma_request_keys();
    let raw = item.str_or("role"@, "user"@);
    let role = if raw == "developer"@ || raw == "system"@ {
        "user"@
    } else {
        raw
    };
    let content = match item.get("content"@) {
        Some(c) => codex_chat::chat_content(c),
        None => JsonV::Null,
    };
    let m = parts::message_v(role, content);
    assert(m.get("tool_calls"@) is None);
    lemma_no_call(s.messages, m);
    let t = m.put("reasoning_content"@, JsonV::Str(s.next_reasoning()));
    assert(t.get("tool_calls"@) is None);
    lemma_no_call(s.messages, t);
}

proof fn lemma_item_calls(s: CodexChat, item: JsonV)
    ensures
        calls_so_far(s.item(item)) == calls_so_far(s) + call_of_input_fn()(item),
{
    keys::lemma_request_keys();
    reveal_strlit("");
    assert(""@ =~= Seq::<char>::empty());
    assert(calls_so_far(s) + Seq::<Call>::empty() =~= calls_so_far(s));
    lemma_flush_calls(s);
    lemma_fill_calls(s.flush());
    lemma_message_calls(s.flush().fill(), item);
    if item.str_at("type"@) == Some("function_call"@) {
        let tc = codex_chat::tool_call_of_item(item);
        assert(s.calls.push(tc).drop_last() =~= s.calls);
        assert(readings::call_of_chat(tc) == call_of_input_fn()(item)[0]);
        assert(calls_so_far(s.item(item)) =~= calls_so_far(s) + call_of_input_fn()(item));
    } else if item.str_at("type"@) == Some("function_call_output"@) {
        let id = item.str_or("call_id"@, ""@);
        let t = parts::plain_text_or(item.get("output"@), ""@);
        codex_chat::lemma_tool_message(id, t);
        assert(codex_chat::tool_message_v(id, t).get("tool_calls"@) is None);
        lemma_no_call(s.flush().messages, codex_chat::tool_message_v(id, t));
    }
}

proof fn lemma_items_calls(s: CodexChat, items: Seq<JsonV>)
    ensures
        calls_so_far(s.items(items)) == calls_so_far(s) + seqs::flat(items, call_of_input_fn()),
    decreases items.len(),
{
    if items.len() == 0 {
        assert(calls_so_far(s) + seqs::flat(items, call_of_input_fn()) =~= calls_so_far(s));
    } else {
        lemma_items_calls(s, items.drop_last());
        lemma_item_calls(s.items(items.drop_last()), items.last());
        assert(calls_so_far(s.items(items)) =~= calls_so_far(s) + seqs::flat(
            items,
            call_of_input_fn(),
        ));
    }
}

/// A chat request made from a Responses request asks for the same calls, in their order: the
/// id, the name and the arguments of each are kept.
pub proof fn lemma_responses_to_chat_calls(body: JsonV, model: Seq<char>, items: Seq<JsonV>)
    requires
        body.get("input"@) == Some(JsonV::Arr(items)),
    ensures
        seqs::flat(
            readings::list(responses_chat::responses_as_chat(body, model), "messages"@),
            readings::calls_of_chat_fn(),
        ) == seqs::flat(items, call_of_input_fn()),
{
    keys::lemma_request_keys();
    let first = responses_chat::instruction_message(body);
    let s = CodexChat::start(first);
    lemma_items_calls(s, items);
    lemma_flush_calls(s.items(items));
    let msgs = responses_chat::messages_of_responses(body);
    lemma_ordered_chat_calls(msgs);
    assert(calls_so_far(s) =~= Seq::<Call>::empty()) by {
        if first.len() > 0 {
            let m = first[0];
            assert(first =~= seq![m]);
            seqs::lemma_flat_one(m, readings::calls_of_chat_fn());
            assert(m.get("tool_calls"@) is None);
        }
    }
    assert(seqs::flat(msgs, readings::calls_of_chat_fn()) =~= seqs::flat(
        items,
        call_of_input_fn(),
    ));
    lemma_messages_kept(body, model);
}

proof fn lemma_field(out: JsonV, body: JsonV, key: Seq<char>, k: Seq<char>)
    requires
        out is Obj,
        key != k,
    ensures
        responses_chat::with_field(out, body, key) is Obj,
        responses_chat::with_field(out, body, key).get(k) == out.get(k),
{
}

/// The fields that a chat request keeps change no other key.
proof fn lemma_fields(out: JsonV, body: JsonV, k: Seq<char>)
    requires
        out is Obj,
        "frequency_penalty"@ != k,
        "logit_bias"@ != k,
        "logprobs"@ != k,
        "metadata"@ != k,
        "n"@ != k,
        "parallel_tool_calls"@ != k,
        "presence_penalty"@ != k,
        "response_format"@ != k,
        "seed"@ != k,
        "service_tier"@ != k,
        "stop"@ != k,
        "stream_options"@ != k,
        "top_logprobs"@ != k,
        "user"@ != k,
    ensures
        responses_chat::with_chat_fields(out, body).get(k) == out.get(k),
{
    lemma_field(out, body, "frequency_penalty"@, k);
    let o1 = responses_chat::with_field(out, body, "frequency_penalty"@);
    lemma_field(o1, body, "logit_bias"@, k);
    let o2 = responses_chat::with_field(o1, body, "logit_bias"@);
    lemma_field(o2, body, "logprobs"@, k);
    let o3 = responses_chat::with_field(o2, body, "logprobs"@);
    lemma_field(o3, body, "metadata"@, k);
    let o4 = responses_chat::with_field(o3, body, "metadata"@);
    lemma_field(o4, body, "n"@, k);
    let o5 = responses_chat::with_field(o4, body, "n"@);
    lemma_field(o5, body, "parallel_tool_calls"@, k);
    let o6 = responses_chat::with_field(o5, body, "parallel_tool_calls"@);
    lemma_field(o6, body, "presence_penalty"@, k);
    let o7 = responses_chat::with_field(o6, body, "presence_penalty"@);
    lemma_field(o7, body, "response_format"@, k);
    let o8 = responses_chat::with_field(o7, body, "response_format"@);
    lemma_field(o8, body, "seed"@, k);
    let o9 = responses_chat::with_field(o8, body, "seed"@);
    lemma_field(o9, body, "service_tier"@, k);
    let o10 = responses_chat::with_field(o9, body, "service_tier"@);
    lemma_field(o10, body, "stop"@, k);
    let o11 = responses_chat::with_field(o10, body, "stop"@);
    lemma_field(o11, body, "stream_options"@, k);
    let o12 = responses_chat::with_field(o11, body, "stream_options"@);
    lemma_field(o12, body, "top_logprobs"@, k);
    let o13 = responses_chat::with_field(o12, body, "top_logprobs"@);
    lemma_field(o13, body, "user"@, k);
}

/// The messages of a chat request made from a Responses request.
proof fn lemma_messages_kept(body: JsonV, model: Seq<char>)
    ensures
        readings::list(responses_chat::responses_as_chat(body, model), "messages"@)
            == chat_order::ordered_chat(responses_chat::messages_of_responses(body)),
        responses_chat::responses_as_chat(body, model).get("max_tokens"@) == (if body.get(
            "max_tokens"@,
        ) is Some {
            body.get("max_tokens"@)
        } else {
            body.get("max_output_tokens"@)
        }),
        responses_chat::responses_as_chat(body, model).get("temperature"@) == body.get(
            "temperature"@,
        ),
        responses_chat::responses_as_chat(body, model).get("top_p"@) == body.get("top_p"@),
        responses_chat::responses_as_chat(body, model).get("tool_choice"@) == body.get(
            "tool_choice"@,
        ),
        responses_chat::responses_as_chat(body, model).get("tools"@)
            == responses_chat::chat_tools_of_responses(body),
        responses_chat::responses_as_chat(body, model).get("max_completion_tokens"@) == body.get(
            "max_completion_tokens"@,
        ),
{
    keys::lemma_request_keys();
    let out = responses_chat::chat_fields(body, model);
    assert forall|k: Seq<char>| is_setting(k) implies #[trigger] responses_chat::responses_as_chat(
        body,
        model,
    ).get(k) == out.get(k) by {
        keys::lemma_chat_setting_keys();
        lemma_fields(out, body, k);
    }
    assert(is_setting("messages"@) && is_setting("max_tokens"@) && is_setting("temperature"@));
    assert(is_setting("top_p"@) && is_setting("tool_choice"@) && is_setting("tools"@));
    assert(is_setting("max_completion_tokens"@));
}

/// The keys of a chat request that are not kept under their own names alone.
spec fn is_setting(k: Seq<char>) -> bool {
    k == "messages"@ || k == "max_tokens"@ || k == "temperature"@ || k == "top_p"@ || k
        == "tool_choice"@ || k == "tools"@ || k == "max_completion_tokens"@
}

/// The limits and the wishes of a Responses request reach the chat request.
pub proof fn lemma_responses_to_chat_settings(body: JsonV, model: Seq<char>)
    ensures
        ({
            let out = responses_chat::responses_as_chat(body, model);
            &&& out.get("max_tokens"@) == (if body.get("max_tokens"@) is Some {
                body.get("max_tokens"@)
            } else {
                body.get("max_output_tokens"@)
            })
            &&& out.get("max_completion_tokens"@) == body.get("max_completion_tokens"@)
            &&& out.get("temperature"@) == body.get("temperature"@)
            &&& out.get("top_p"@) == body.get("top_p"@)
            &&& out.get("tool_choice"@) == body.get("tool_choice"@)
        }),
{
    lemma_messages_kept(body, model);
}

/// A function among the tools of a Responses request.
pub open spec fn if_function_fn() -> spec_fn(JsonV) -> Seq<JsonV> {
    |t: JsonV|
        if t.str_at("type"@) == Some("function"@) {
            seq![t]
        } else {
            Seq::empty()
        }
}

/// Whether a chat tool is a function of a Responses request: itself where it holds its
/// definition, else one with the name, the description, the schema and the strictness.
pub open spec fn is_chat_tool_of(t: JsonV, tool: JsonV) -> bool {
    let f = t.get_or_null("function"@);
    &&& t.str_at("type"@) == Some("function"@)
    &&& tool.get("function"@) is Some ==> t == tool
    &&& tool.get("function"@) is None ==> {
        &&& f.str_at("name"@) == Some(tool.str_or("name"@, ""@))
        &&& f.get("description"@) == Some(tool.get_or_null("description"@))
        &&& tool.get("parameters"@) is Some ==> f.get("parameters"@) == tool.get("parameters"@)
        &&& f.get("strict"@) == tool.get("strict"@)
    }
}

proof fn lemma_chat_tools(tools: Seq<JsonV>)
    ensures
        ({
            let out = seqs::flat(tools, responses_chat::chat_tools_fn());
            let functions = seqs::flat(tools, if_function_fn());
            &&& out.len() == functions.len()
            &&& forall|i: int|
                0 <= i < out.len() ==> is_chat_tool_of(#[trigger] out[i], functions[i])
        }),
    decreases tools.len(),
{
    keys::lemma_request_keys();
    if tools.len() > 0 {
        let first = tools.drop_last();
        lemma_chat_tools(first);
        let out = seqs::flat(tools, responses_chat::chat_tools_fn());
        let functions = seqs::flat(tools, if_function_fn());
        let n = seqs::flat(first, if_function_fn()).len();
        let tool = tools.last();
        assert forall|i: int| 0 <= i < out.len() implies is_chat_tool_of(
            #[trigger] out[i],
            functions[i],
        ) by {
            if i < n {
                assert(out[i] == seqs::flat(first, responses_chat::chat_tools_fn())[i]);
                assert(functions[i] == seqs::flat(first, if_function_fn())[i]);
            } else {
                assert(functions[i] == tool);
                assert(out[i] == responses_chat::chat_tools_fn()(tool)[0]);
            }
        }
    }
}

/// Every function among the tools of a Responses request reaches the chat request, in its
/// place, with its name, its description, its schema and its strictness.
pub proof fn lemma_responses_to_chat_tools(body: JsonV, model: Seq<char>)
    ensures
        ({
            let out = readings::list(responses_chat::responses_as_chat(body, model), "tools"@);
            let functions = seqs::flat(readings::list(body, "tools"@), if_function_fn());
            &&& out.len() == functions.len()
            &&& forall|i: int|
                0 <= i < out.len() ==> is_chat_tool_of(#[trigger] out[i], functions[i])
        }),
{
    lemma_messages_kept(body, model);
    lemma_chat_tools(readings::list(body, "tools"@));
}

/// The text of a part of a message: of a text, or of a refusal.
pub open spec fn text_of_part(p: JsonV) -> Seq<char> {
    let kind = p.str_at("type"@);
    if kind == Some("input_text"@) || kind == Some("output_text"@) || kind == Some("text"@) {
        p.str_or("text"@, ""@)
    } else if kind == Some("refusal"@) {
        p.str_or("refusal"@, ""@)
    } else {
        Seq::empty()
    }
}

pub open spec fn texts_of_part_fn() -> spec_fn(JsonV) -> Seq<Seq<char>> {
    |p: JsonV|
        if text_of_part(p).len() > 0 {
            seq![text_of_part(p)]
        } else {
            Seq::empty()
        }
}

/// The words of the content of a message: a text, or the texts of its parts, a line each where
/// there is no image among them.
pub open spec fn words_of_input(content: Option<JsonV>) -> Seq<char> {
    match content {
        Some(JsonV::Str(s)) => s,
        Some(JsonV::Arr(ps)) => if exists|i: int|
            0 <= i < ps.len() && codex_chat::is_image(#[trigger] ps[i]) {
            text::joined(seqs::flat(ps, texts_of_part_fn()), ""@)
        } else {
            text::joined(seqs::flat(ps, texts_of_part_fn()), "\n"@)
        },
        _ => Seq::empty(),
    }
}

/// Whether an item is a message of a user: one of the system or of the developer counts.
pub open spec fn is_users_item(item: JsonV) -> bool {
    let role = item.str_or("role"@, "user"@);
    &&& item.str_at("type"@) is None || item.str_at("type"@) == Some("message"@)
    &&& role == "user"@ || role == "developer"@ || role == "system"@
}

/// The words of the users in an item.
pub open spec fn words_of_users_fn() -> spec_fn(JsonV) -> Seq<char> {
    |item: JsonV|
        if is_users_item(item) {
            words_of_input(item.get("content"@))
        } else {
            Seq::empty()
        }
}

proof fn lemma_part_names()
    ensures
        "refusal"@ != "input_text"@,
        "refusal"@ != "output_text"@,
        "refusal"@ != "text"@,
        "input_image"@ != "input_text"@,
        "input_image"@ != "output_text"@,
        "input_image"@ != "text"@,
        "input_image"@ != "refusal"@,
        "developer"@ != "user"@,
        "developer"@ != "assistant"@,
        "developer"@ != "system"@,
        "type"@ != "text"@,
        "type"@ != "image_url"@,
        "text"@ != "image_url"@,
{
    reveal_strlit("refusal");
    reveal_strlit("input_text");
    reveal_strlit("output_text");
    reveal_strlit("text");
    reveal_strlit("input_image");
    reveal_strlit("developer");
    reveal_strlit("user");
    reveal_strlit("assistant");
    reveal_strlit("system");
    reveal_strlit("type");
    reveal_strlit("image_url");
    assert("refusal"@.len() == 7 && "input_text"@.len() == 10 && "output_text"@.len() == 11);
    assert("text"@.len() == 4 && "input_image"@.len() == 11 && "developer"@.len() == 9);
    assert("user"@.len() == 4 && "assistant"@.len() == 9 && "system"@.len() == 6);
    assert("input_image"@[0] == 'i' && "output_text"@[0] == 'o');
    assert("developer"@[0] == 'd' && "assistant"@[0] == 'a');
    assert("type"@.len() == 4 && "type"@[1] == 'y' && "text"@[1] == 'e');
    assert("image_url"@.len() == 9);
}

proof fn lemma_chat_content(content: JsonV)
    ensures
        readings::words(Some(codex_chat::chat_content(content))) == words_of_input(Some(content)),
{
    lemma_part_names();
    reveal_strlit("");
    assert(""@ =~= Seq::<char>::empty());
    match content {
        JsonV::Arr(ps) => {
            assert forall|i: int| 0 <= i < ps.len() implies codex_chat::part_text_fn()(
                #[trigger] ps[i],
            ) == texts_of_part_fn()(ps[i]) by {}
            seqs::lemma_flat_same(ps, codex_chat::part_text_fn(), texts_of_part_fn());
            let g = |p: JsonV| text_of_part(p);
            let f = codex_chat::chat_part_fn();
            assert forall|i: int| 0 <= i < ps.len() implies seqs::flat(
                f(#[trigger] ps[i]),
                readings::block_words_fn(),
            ) == g(ps[i]) && seqs::flat(texts_of_part_fn()(ps[i]), |t: Seq<char>| t) == g(
                ps[i],
            ) by {
                let p = ps[i];
                readings::lemma_one_text(text_of_part(p));
                if f(p).len() > 0 {
                    assert(f(p) =~= seq![f(p)[0]]);
                    seqs::lemma_flat_one(f(p)[0], readings::block_words_fn());
                }
                if text_of_part(p).len() == 0 {
                    assert(text_of_part(p) =~= Seq::<char>::empty());
                }
            }
            seqs::lemma_flat_flat(ps, f, readings::block_words_fn(), g);
            readings::lemma_joined_flat(ps, texts_of_part_fn(), g);
        },
        _ => {},
    }
}

/// The words of a role in the messages so far.
spec fn words_so_far(s: CodexChat, role: Seq<char>) -> Seq<char> {
    seqs::flat(s.messages, readings::words_by_fn(role))
}

proof fn lemma_push_words(s: Seq<JsonV>, m: JsonV, role: Seq<char>)
    ensures
        seqs::flat(s.push(m), readings::words_by_fn(role)) == seqs::flat(
            s,
            readings::words_by_fn(role),
        ) + readings::words_by(m, role),
{
    assert(s.push(m).drop_last() =~= s);
}

proof fn lemma_flush_words(s: CodexChat, role: Seq<char>)
    requires
        role == "user"@ || role == "system"@,
    ensures
        words_so_far(s.flush(), role) == words_so_far(s, role),
        words_so_far(s.fill(), role) == words_so_far(s, role),
{
    keys::lemma_request_keys();
    let g = readings::words_by_fn(role);
    if s.calls.len() > 0 {
        let t = s.flush();
        assert(t.messages.drop_last() =~= s.messages);
        assert(t.messages.last().str_at("role"@) == Some("assistant"@));
        assert(words_so_far(t, role) =~= words_so_far(s, role));
    }
    let f = codex_chat::filler_fn(s.messages);
    let none = |id: Seq<char>| Seq::<char>::empty();
    assert forall|i: int| 0 <= i < s.flushed.len() implies seqs::flat(
        f(#[trigger] s.flushed[i]),
        g,
    ) == none(s.flushed[i]) by {
        let m = codex_chat::tool_message_v(s.flushed[i], ""@);
        codex_chat::lemma_tool_message(s.flushed[i], ""@);
        seqs::lemma_flat_one(m, g);
    }
    seqs::lemma_flat_flat(s.flushed, f, g, none);
    seqs::lemma_flat_none(s.flushed, none);
    seqs::lemma_flat_add(s.messages, seqs::flat(s.flushed, f), g);
    assert(words_so_far(s.fill(), role) =~= words_so_far(s, role));
}

proof fn lemma_item_words(s: CodexChat, item: JsonV, role: Seq<char>)
    requires
        role == "user"@ || role == "system"@,
    ensures
        words_so_far(s.item(item), role) == words_so_far(s, role) + (if role == "user"@ {
            words_of_users_fn()(item)
        } else {
            Seq::empty()
        }),
{
    keys::lemma_request_keys();
    lemma_part_names();
    reveal_strlit("");
    assert(""@ =~= Seq::<char>::empty());
    assert(words_so_far(s, role) + Seq::<char>::empty() =~= words_so_far(s, role));
    lemma_flush_words(s, role);
    lemma_flush_words(s.flush(), role);
    if item.str_at("type"@) == Some("function_call_output"@) {
        let id = item.str_or("call_id"@, ""@);
        let t = parts::plain_text_or(item.get("output"@), ""@);
        codex_chat::lemma_tool_message(id, t);
        lemma_push_words(s.flush().messages, codex_chat::tool_message_v(id, t), role);
    } else if item.str_at("type"@) is None || item.str_at("type"@) == Some("message"@) {
        let f = s.flush().fill();
        let raw = item.str_or("role"@, "user"@);
        let r = if raw == "developer"@ || raw == "system"@ {
            "user"@
        } else {
            raw
        };
        let content = match item.get("content"@) {
            Some(c) => codex_chat::chat_content(c),
            None => JsonV::Null,
        };
        match item.get("content"@) {
            Some(c) => {
                lemma_chat_content(c);
            },
            None => {},
        }
        let m = parts::message_v(r, content);
        parts::lemma_message(r, content);
        lemma_push_words(f.messages, m, role);
        let t = m.put("reasoning_content"@, JsonV::Str(f.next_reasoning()));
        assert(t.get("role"@) == m.get("role"@));
        lemma_push_words(f.messages, t, role);
    }
}

proof fn lemma_items_words(s: CodexChat, items: Seq<JsonV>, role: Seq<char>)
    requires
        role == "user"@ || role == "system"@,
    ensures
        words_so_far(s.items(items), role) == words_so_far(s, role) + (if role == "user"@ {
            seqs::flat(items, words_of_users_fn())
        } else {
            Seq::empty()
        }),
    decreases items.len(),
{
    if items.len() == 0 {
        assert(words_so_far(s, role) + Seq::<char>::empty() =~= words_so_far(s, role));
    } else {
        lemma_items_words(s, items.drop_last(), role);
        lemma_item_words(s.items(items.drop_last()), items.last(), role);
        assert(words_so_far(s.items(items), role) =~= words_so_far(s, role) + (if role
            == "user"@ {
            seqs::flat(items, words_of_users_fn())
        } else {
            Seq::empty()
        }));
    }
}

/// The text of instructions: a string, or the texts of blocks that say something, with a blank
/// line between each two.
pub open spec fn instruction_words(v: Option<JsonV>) -> Seq<char> {
    match v {
        Some(JsonV::Str(s)) => s,
        Some(JsonV::Arr(blocks)) => text::joined(
            seqs::flat(blocks, filled_words_fn()),
            "\n\n"@,
        ),
        _ => Seq::empty(),
    }
}

/// The words of a block, where it has any.
pub open spec fn filled_words_fn() -> spec_fn(JsonV) -> Seq<Seq<char>> {
    |b: JsonV|
        if readings::block_words(b).len() > 0 {
            seq![readings::block_words(b)]
        } else {
            Seq::empty()
        }
}

pub(crate) proof fn lemma_filled(blocks: Seq<JsonV>)
    ensures
        seqs::flat(blocks, codex_chat::filled_block_text_fn()) == seqs::flat(
            blocks,
            filled_words_fn(),
        ),
{
    assert forall|i: int| 0 <= i < blocks.len() implies codex_chat::filled_block_text_fn()(
        #[trigger] blocks[i],
    ) == filled_words_fn()(blocks[i]) by {}
    seqs::lemma_flat_same(blocks, codex_chat::filled_block_text_fn(), filled_words_fn());
}

pub(crate) proof fn lemma_instruction_words(v: JsonV)
    ensures
        codex_chat::instruction_text(v) == instruction_words(Some(v)),
{
    reveal_strlit("");
    assert(""@ =~= Seq::<char>::empty());
    match v {
        JsonV::Arr(blocks) => {
            lemma_filled(blocks);
        },
        _ => {},
    }
}

/// A chat request made from a Responses request holds what is said, whole and in order: the
/// instructions as the system's words, and the words of the users, where there are any.
pub proof fn lemma_responses_to_chat_words(body: JsonV, model: Seq<char>, items: Seq<JsonV>)
    requires
        body.get("input"@) == Some(JsonV::Arr(items)),
    ensures
        ({
            let out = readings::list(
                responses_chat::responses_as_chat(body, model),
                "messages"@,
            );
            &&& seqs::flat(out, readings::words_by_fn("system"@)) == instruction_words(
                body.get("instructions"@),
            )
            &&& seqs::flat(items, words_of_users_fn()).len() > 0 ==> seqs::flat(
                out,
                readings::words_by_fn("user"@),
            ) == seqs::flat(items, words_of_users_fn())
        }),
{
    keys::lemma_request_keys();
    reveal_strlit("");
    assert(""@ =~= Seq::<char>::empty());
    let first = responses_chat::instruction_message(body);
    let s = CodexChat::start(first);
    let msgs = responses_chat::messages_of_responses(body);
    lemma_messages_kept(body, model);
    lemma_items_words(s, items, "user"@);
    lemma_items_words(s, items, "system"@);
    lemma_flush_words(s.items(items), "user"@);
    lemma_flush_words(s.items(items), "system"@);
    match body.get("instructions"@) {
        Some(v) => {
            lemma_instruction_words(v);
            let m = parts::message_v("system"@, JsonV::Str(codex_chat::instruction_text(v)));
            parts::lemma_message("system"@, JsonV::Str(codex_chat::instruction_text(v)));
            seqs::lemma_flat_one(m, readings::words_by_fn("user"@));
            seqs::lemma_flat_one(m, readings::words_by_fn("system"@));
            if codex_chat::instruction_text(v).len() == 0 {
                assert(codex_chat::instruction_text(v) =~= Seq::<char>::empty());
            }
        },
        None => {},
    }
    let u = seqs::flat(items, words_of_users_fn());
    let i = instruction_words(body.get("instructions"@));
    assert(Seq::<char>::empty() + u =~= u);
    assert(i + Seq::<char>::empty() =~= i);
    assert(seqs::flat(msgs, readings::words_by_fn("user"@)) == u);
    assert(seqs::flat(msgs, readings::words_by_fn("system"@)) == i);
    parts::lemma_message("user"@, JsonV::Str("Continue."@));
    keys::lemma_message_names();
    lemma_ordered_keeps(msgs, readings::words_by_fn("system"@));
    if u.len() > 0 {
        lemma_user_there(msgs);
        lemma_ordered_chat_users(msgs);
    }
}

proof fn lemma_user_there(msgs: Seq<JsonV>)
    requires
        seqs::flat(msgs, readings::words_by_fn("user"@)).len() > 0,
    ensures
        exists|i: int| 0 <= i < msgs.len() && (#[trigger] msgs[i]).str_at("role"@) == Some("user"@),
    decreases msgs.len(),
{
    if msgs.last().str_at("role"@) == Some("user"@) {
        assert(msgs[msgs.len() - 1].str_at("role"@) == Some("user"@));
    } else {
        lemma_user_there(msgs.drop_last());
        let t = msgs.drop_last();
        let i = choose|i: int|
            0 <= i < t.len() && (#[trigger] t[i]).str_at("role"@) == Some("user"@);
        assert(msgs[i] == t[i]);
    }
}

/// Requests with messages hold no input items.
pub(crate) proof fn lemma_no_input(body: JsonV, model: Seq<char>)
    ensures
        responses_chat::responses_as_chat(body, model).get("input"@) is None,
        responses_chat::responses_as_chat(body, model).array_at("messages"@) is Some,
{
    lemma_input_free(body, model);
    lemma_messages_there(body, model);
    let out = responses_chat::chat_fields(body, model);
    assert(responses_chat::responses_as_chat(body, model).get("input"@) == out.get("input"@)) by {
        keys::lemma_input_key();
        lemma_fields(out, body, "input"@);
    }
    assert(responses_chat::responses_as_chat(body, model).get("messages"@) == out.get(
        "messages"@,
    )) by {
        keys::lemma_chat_setting_keys();
        lemma_fields(out, body, "messages"@);
    }
}

proof fn lemma_input_free(body: JsonV, model: Seq<char>)
    ensures
        responses_chat::chat_fields(body, model) is Obj,
        responses_chat::chat_fields(body, model).get("input"@) is None,
{
    keys::lemma_request_keys();
}

proof fn lemma_messages_there(body: JsonV, model: Seq<char>)
    ensures
        responses_chat::chat_fields(body, model).array_at("messages"@) is Some,
{
    keys::lemma_request_keys();
}

/// The keys that a Responses request and a chat request have alike.
pub open spec fn is_wish(k: Seq<char>) -> bool {
    k == "frequency_penalty"@ || k == "logit_bias"@ || k == "logprobs"@ || k == "metadata"@ || k == "n"@ || k == "parallel_tool_calls"@ || k == "presence_penalty"@ || k == "response_format"@ || k == "seed"@ || k == "service_tier"@ || k == "stop"@ || k == "stream_options"@ || k == "top_logprobs"@ || k == "user"@
}

proof fn lemma_then(out: JsonV, body: JsonV, key: Seq<char>, k: Seq<char>)
    requires
        out is Obj,
        out.get(k) is None || out.get(k) == body.get(k),
    ensures
        responses_chat::with_field(out, body, key) is Obj,
        ({
            let then = responses_chat::with_field(out, body, key).get(k);
            &&& then is None || then == body.get(k)
            &&& key == k || out.get(k) == body.get(k) ==> then == body.get(k)
        }),
{
}

proof fn lemma_wish(out: JsonV, body: JsonV, k: Seq<char>)
    requires
        out is Obj,
        out.get(k) is None,
        is_wish(k),
    ensures
        responses_chat::with_chat_fields(out, body).get(k) == body.get(k),
{
    lemma_then(out, body, "frequency_penalty"@, k);
    let o1 = responses_chat::with_field(out, body, "frequency_penalty"@);
    lemma_then(o1, body, "logit_bias"@, k);
    let o2 = responses_chat::with_field(o1, body, "logit_bias"@);
    lemma_then(o2, body, "logprobs"@, k);
    let o3 = responses_chat::with_field(o2, body, "logprobs"@);
    lemma_then(o3, body, "metadata"@, k);
    let o4 = responses_chat::with_field(o3, body, "metadata"@);
    lemma_then(o4, body, "n"@, k);
    let o5 = responses_chat::with_field(o4, body, "n"@);
    lemma_then(o5, body, "parallel_tool_calls"@, k);
    let o6 = responses_chat::with_field(o5, body, "parallel_tool_calls"@);
    lemma_then(o6, body, "presence_penalty"@, k);
    let o7 = responses_chat::with_field(o6, body, "presence_penalty"@);
    lemma_then(o7, body, "response_format"@, k);
    let o8 = responses_chat::with_field(o7, body, "response_format"@);
    lemma_then(o8, body, "seed"@, k);
    let o9 = responses_chat::with_field(o8, body, "seed"@);
    lemma_then(o9, body, "service_tier"@, k);
    let o10 = responses_chat::with_field(o9, body, "service_tier"@);
    lemma_then(o10, body, "stop"@, k);
    let o11 = responses_chat::with_field(o10, body, "stop"@);
    lemma_then(o11, body, "stream_options"@, k);
    let o12 = responses_chat::with_field(o11, body, "stream_options"@);
    lemma_then(o12, body, "top_logprobs"@, k);
    let o13 = responses_chat::with_field(o12, body, "top_logprobs"@);
    lemma_then(o13, body, "user"@, k);
}

proof fn lemma_no_wish(body: JsonV, model: Seq<char>, k: Seq<char>)
    requires
        is_wish(k),
    ensures
        responses_chat::chat_fields(body, model) is Obj,
        responses_chat::chat_fields(body, model).get(k) is None,
{
    assert(k != "model"@ && k != "messages"@ && k != "max_tokens"@ && k != "max_completion_tokens"@
        && k != "temperature"@ && k != "top_p"@ && k != "stream"@ && k != "tools"@ && k
        != "tool_choice"@) by {
        keys::lemma_wish_keys();
        keys::lemma_chat_setting_keys();
    }
}

/// Every other wish of a Responses request that a chat request can hold reaches it as it is. So
/// does the wish for a stream. The model is the one that is asked for.
pub proof fn lemma_responses_to_chat_wishes(body: JsonV, model: Seq<char>, k: Seq<char>)
    ensures
        ({
            let out = responses_chat::responses_as_chat(body, model);
            &&& is_wish(k) ==> out.get(k) == body.get(k)
            &&& out.get("stream"@) == body.get("stream"@)
            &&& out.str_at("model"@) == Some(model)
        }),
{
    let out = responses_chat::chat_fields(body, model);
    if is_wish(k) {
        lemma_no_wish(body, model, k);
        lemma_wish(out, body, k);
    }
    assert(out.get("stream"@) == body.get("stream"@) && out.str_at("model"@) == Some(model)) by {
        keys::lemma_request_keys();
        keys::lemma_chat_setting_keys();
    }
    assert(responses_chat::responses_as_chat(body, model).get("stream"@) == out.get("stream"@)) by {
        keys::lemma_wish_keys();
        lemma_fields(out, body, "stream"@);
    }
    assert(responses_chat::responses_as_chat(body, model).get("model"@) == out.get("model"@)) by {
        keys::lemma_wish_keys();
        lemma_fields(out, body, "model"@);
    }
}

/// The address of an image of a chat message.
pub open spec fn image_of_chat_fn() -> spec_fn(JsonV) -> Seq<Seq<char>> {
    |p: JsonV|
        if p.str_at("type"@) == Some("image_url"@) {
            seq![p.get_or_null("image_url"@).str_or("url"@, ""@)]
        } else {
            Seq::empty()
        }
}

/// The address of an image of an input item: a text, or an object that holds it.
pub open spec fn image_of_input_fn() -> spec_fn(JsonV) -> Seq<Seq<char>> {
    |p: JsonV|
        if p.str_at("type"@) == Some("input_image"@) {
            match p.get("image_url"@) {
                Some(JsonV::Str(url)) => seq![url],
                Some(v) => seq![v.str_or("url"@, ""@)],
                None => Seq::empty(),
            }
        } else {
            Seq::empty()
        }
}

/// Every image of a content, and no other, is in the content of the chat message, by its address
/// and in its place.
pub proof fn lemma_images_reach_chat(ps: Seq<JsonV>)
    ensures
        (match codex_chat::chat_content(JsonV::Arr(ps)) {
            JsonV::Arr(qs) => seqs::flat(qs, image_of_chat_fn()),
            _ => Seq::empty(),
        }) == seqs::flat(ps, image_of_input_fn()),
{
    lemma_part_names();
    let f = codex_chat::chat_part_fn();
    let g = image_of_chat_fn();
    let h = image_of_input_fn();
    assert forall|i: int| 0 <= i < ps.len() implies seqs::flat(f(#[trigger] ps[i]), g) == h(
        ps[i],
    ) by {
        let p = ps[i];
        if f(p).len() > 0 {
            assert(f(p) =~= seq![f(p)[0]]);
            seqs::lemma_flat_one(f(p)[0], g);
        }
    }
    seqs::lemma_flat_flat(ps, f, g, h);
    if !(exists|i: int| 0 <= i < ps.len() && codex_chat::is_image(#[trigger] ps[i])) {
        assert forall|i: int| 0 <= i < ps.len() implies h(#[trigger] ps[i]) == Seq::<
            Seq<char>,
        >::empty() by {
            assert(!codex_chat::is_image(ps[i]));
        }
        seqs::lemma_flat_none(ps, h);
    }
}

} // verus!
