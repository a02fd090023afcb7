//! That in ordered chat messages every result of a tool stands behind its call, that no call
//! has two, and that no assistant speaks last.

use vstd::prelude::*;

use super::chat_order;
use super::chat_order::Order;
use super::codex_chat;
use crate::convert::parts;
use crate::json::JsonV;
use crate::keys;
use crate::seqs;

verus! {

/// The id that a tool's message answers.
pub open spec fn answer_id(m: JsonV) -> Option<Seq<char>> {
    if chat_order::role_of(m) == "tool"@ {
        m.str_at("tool_call_id"@)
    } else {
        None
    }
}

/// Whether every tool's message that names a call stands right behind it: before it, up to
/// the message of an assistant that makes that call, there are messages of tools alone.
pub open spec fn behind_calls(s: Seq<JsonV>) -> bool {
    forall|i: int|
        0 <= i < s.len() ==> match answer_id(#[trigger] s[i]) {
            Some(id) => chat_order::open_call(s.take(i), id),
            None => true,
        }
}

/// Whether no two messages of tools name the same call.
pub open spec fn answered_once(s: Seq<JsonV>) -> bool {
    forall|i: int, j: int|
        0 <= i < j < s.len() && answer_id(#[trigger] s[i]) is Some ==> answer_id(s[i])
            != answer_id(#[trigger] s[j])
}

/// Whether the calls of a message have ids of their own.
pub open spec fn own_ids(m: JsonV) -> bool {
    match m.array_at("tool_calls"@) {
        Some(tcs) => codex_chat::call_ids(tcs).no_duplicates(),
        None => true,
    }
}

/// Whether the calls of every message have ids of their own.
pub open spec fn all_own_ids(s: Seq<JsonV>) -> bool {
    forall|i: int| 0 <= i < s.len() ==> own_ids(#[trigger] s[i])
}

/// Whether all ids that are answered are known as placed.
spec fn known(s: Seq<JsonV>, placed: Set<Seq<char>>) -> bool {
    forall|i: int|
        0 <= i < s.len() ==> match answer_id(#[trigger] s[i]) {
            Some(id) => placed.contains(id),
            None => true,
        }
}

spec fn sound(o: Order) -> bool {
    behind_calls(o.fixed) && known(o.fixed, o.placed)
}

proof fn lemma_push(s: Seq<JsonV>, m: JsonV)
    requires
        behind_calls(s),
        match answer_id(m) {
            Some(id) => chat_order::open_call(s, id),
            None => true,
        },
    ensures
        behind_calls(s.push(m)),
{
    let t = s.push(m);
    assert forall|i: int| 0 <= i < t.len() implies match answer_id(#[trigger] t[i]) {
        Some(id) => chat_order::open_call(t.take(i), id),
        None => true,
    } by {
        if i < s.len() {
            assert(t[i] == s[i]);
            assert(t.take(i) =~= s.take(i));
        } else {
            assert(t.take(i) =~= s);
        }
    }
}

/// A call stays open while only tools answer.
proof fn lemma_open_stays(s: Seq<JsonV>, k: int, id: Seq<char>)
    requires
        0 <= k < s.len(),
        chat_order::role_of(s[k]) == "assistant"@,
        chat_order::has_call(s[k], id),
        forall|i: int| k < i < s.len() ==> chat_order::role_of(#[trigger] s[i]) == "tool"@,
    ensures
        chat_order::open_call(s, id),
    decreases s.len(),
{
    keys::lemma_message_names();
    if s.len() > k + 1 {
        assert(chat_order::role_of(s[s.len() - 1]) == "tool"@);
        let t = s.drop_last();
        assert forall|i: int| k < i < t.len() implies chat_order::role_of(#[trigger] t[i])
            == "tool"@ by {
            assert(t[i] == s[i]);
        }
        lemma_open_stays(t, k, id);
    }
}

pub(crate) proof fn lemma_after_tools(s: Seq<JsonV>, from: int)
    requires
        0 <= from <= s.len(),
    ensures
        from <= chat_order::after_tools(s, from) <= s.len(),
        forall|i: int|
            from <= i < chat_order::after_tools(s, from) ==> chat_order::role_of(#[trigger] s[i])
                == "tool"@,
        chat_order::after_tools(s, from) < s.len() ==> chat_order::role_of(
            s[chat_order::after_tools(s, from)],
        ) != "tool"@,
    decreases s.len() - from,
{
    if from < s.len() && chat_order::role_of(s[from]) == "tool"@ {
        lemma_after_tools(s, from + 1);
    }
}

pub(crate) proof fn lemma_caller(s: Seq<JsonV>, id: Seq<char>)
    ensures
        match chat_order::caller(s, id) {
            Some(k) => 0 <= k < s.len() && chat_order::role_of(s[k]) == "assistant"@
                && chat_order::has_call(s[k], id),
            None => true,
        },
    decreases s.len(),
{
    if s.len() > 0 {
        lemma_caller(s.drop_last(), id);
    }
}

/// What is open behind a message that is not a tool's stays open where something is put
/// before that message.
proof fn lemma_open_shifted(s: Seq<JsonV>, p: int, m: JsonV, n: int, id: Seq<char>)
    requires
        0 <= p < n <= s.len(),
        chat_order::role_of(s[p]) != "tool"@,
        chat_order::open_call(s.take(n), id),
    ensures
        chat_order::open_call(s.insert(p, m).take(n + 1), id),
    decreases n,
{
    let a = s.take(n);
    let b = s.insert(p, m).take(n + 1);
    assert(a.last() == s[n - 1]);
    assert(b.last() == s[n - 1]);
    if chat_order::role_of(s[n - 1]) != "assistant"@ {
        assert(n - 1 > p);
        assert(a.drop_last() =~= s.take(n - 1));
        assert(b.drop_last() =~= s.insert(p, m).take(n));
        lemma_open_shifted(s, p, m, n - 1, id);
    }
}

proof fn lemma_insert(s: Seq<JsonV>, k: int, m: JsonV, id: Seq<char>)
    requires
        behind_calls(s),
        0 <= k < s.len(),
        chat_order::role_of(s[k]) == "assistant"@,
        chat_order::has_call(s[k], id),
        answer_id(m) == Some(id),
    ensures
        behind_calls(s.insert(chat_order::after_tools(s, k + 1), m)),
{
    lemma_after_tools(s, k + 1);
    let p = chat_order::after_tools(s, k + 1);
    let t = s.insert(p, m);
    assert forall|i: int| 0 <= i < t.len() implies match answer_id(#[trigger] t[i]) {
        Some(id) => chat_order::open_call(t.take(i), id),
        None => true,
    } by {
        if i < p {
            assert(t[i] == s[i]);
            assert(t.take(i) =~= s.take(i));
        } else if i == p {
            assert(t.take(i) =~= s.take(p));
            let a = s.take(p);
            assert forall|j: int| k < j < a.len() implies chat_order::role_of(#[trigger] a[j])
                == "tool"@ by {
                assert(a[j] == s[j]);
            }
            lemma_open_stays(a, k, id);
        } else {
            assert(t[i] == s[i - 1]);
            if i - 1 > p {
                match answer_id(s[i - 1]) {
                    Some(other) => {
                        lemma_open_shifted(s, p, m, i - 1, other);
                    },
                    None => {},
                }
            }
        }
    }
}

pub(crate) proof fn lemma_first_answer(s: Seq<JsonV>, id: Seq<char>)
    ensures
        match chat_order::first_answer(s, id) {
            Some(k) => 0 <= k < s.len() && chat_order::is_answer(s[k], id),
            None => true,
        },
    decreases s.len(),
{
    if s.len() > 0 {
        lemma_first_answer(s.drop_last(), id);
    }
}

/// The content of a message does not matter for what is open.
proof fn lemma_open_alike(s: Seq<JsonV>, t: Seq<JsonV>, id: Seq<char>)
    requires
        s.len() == t.len(),
        forall|i: int|
            0 <= i < s.len() ==> (#[trigger] s[i]).get("role"@) == t[i].get("role"@) && s[i].get(
                "tool_calls"@,
            ) == t[i].get("tool_calls"@),
    ensures
        chat_order::open_call(s, id) == chat_order::open_call(t, id),
    decreases s.len(),
{
    if s.len() > 0 {
        let n = s.len() - 1;
        assert(s[n].get("role"@) == t[n].get("role"@));
        let s1 = s.drop_last();
        let t1 = t.drop_last();
        assert forall|i: int| 0 <= i < s1.len() implies (#[trigger] s1[i]).get("role"@)
            == t1[i].get("role"@) && s1[i].get("tool_calls"@) == t1[i].get("tool_calls"@) by {
            assert(s1[i] == s[i]);
        }
        lemma_open_alike(s1, t1, id);
    }
}

/// A second result changes a content alone.
pub(crate) proof fn lemma_again_alike(o: Order, m: JsonV, id: Seq<char>)
    ensures
        ({
            let s = o.fixed;
            let t = o.again(m, id).fixed;
            &&& s.len() == t.len()
            &&& o.again(m, id).placed == o.placed
            &&& forall|i: int|
                0 <= i < s.len() ==> (#[trigger] s[i]).get("role"@) == t[i].get("role"@)
                    && s[i].get("tool_calls"@) == t[i].get("tool_calls"@) && s[i].get(
                    "tool_call_id"@,
                ) == t[i].get("tool_call_id"@)
        }),
{
    keys::lemma_message_names();
    lemma_first_answer(o.fixed, id);
}

proof fn lemma_again(o: Order, m: JsonV, id: Seq<char>)
    requires
        sound(o),
    ensures
        sound(o.again(m, id)),
        answered_once(o.fixed) ==> answered_once(o.again(m, id).fixed),
        all_own_ids(o.fixed) ==> all_own_ids(o.again(m, id).fixed),
{
    lemma_again_alike(o, m, id);
    let s = o.fixed;
    let t = o.again(m, id).fixed;
    assert forall|i: int| 0 <= i < t.len() implies answer_id(#[trigger] t[i]) == answer_id(s[i])
        && own_ids(t[i]) == own_ids(s[i]) by {
        assert(s[i].get("role"@) == t[i].get("role"@));
    }
    assert forall|i: int| 0 <= i < t.len() implies match answer_id(#[trigger] t[i]) {
        Some(id) => chat_order::open_call(t.take(i), id),
        None => true,
    } by {
        assert(answer_id(s[i]) == answer_id(t[i]));
        match answer_id(t[i]) {
            Some(id) => {
                let a = s.take(i);
                let b = t.take(i);
                assert forall|j: int| 0 <= j < a.len() implies (#[trigger] a[j]).get("role"@)
                    == b[j].get("role"@) && a[j].get("tool_calls"@) == b[j].get("tool_calls"@) by {
                    assert(a[j] == s[j]);
                }
                lemma_open_alike(a, b, id);
            },
            None => {},
        }
    }
    assert forall|i: int| 0 <= i < t.len() implies match answer_id(#[trigger] t[i]) {
        Some(id) => o.placed.contains(id),
        None => true,
    } by {
        assert(answer_id(s[i]) == answer_id(t[i]));
    }
    if answered_once(s) {
        assert forall|i: int, j: int|
            0 <= i < j < t.len() && answer_id(#[trigger] t[i]) is Some implies answer_id(t[i])
            != answer_id(#[trigger] t[j]) by {
            assert(answer_id(s[i]) == answer_id(t[i]));
            assert(answer_id(s[j]) == answer_id(t[j]));
        }
    }
    if all_own_ids(s) {
        assert forall|i: int| 0 <= i < t.len() implies own_ids(#[trigger] t[i]) by {
            assert(own_ids(s[i]));
        }
    }
}

/// A result for an id that was not placed is the only one.
proof fn lemma_put_once(s: Seq<JsonV>, p: int, m: JsonV, id: Seq<char>, placed: Set<Seq<char>>)
    requires
        0 <= p <= s.len(),
        known(s, placed),
        answer_id(m) == Some(id),
        !placed.contains(id),
    ensures
        known(s.insert(p, m), placed.insert(id)),
        answered_once(s) ==> answered_once(s.insert(p, m)),
{
    let t = s.insert(p, m);
    assert forall|i: int| 0 <= i < t.len() && i != p implies #[trigger] t[i] == s[if i < p {
        i
    } else {
        i - 1
    }] by {}
    assert forall|i: int| 0 <= i < t.len() implies match answer_id(#[trigger] t[i]) {
        Some(x) => placed.insert(id).contains(x),
        None => true,
    } by {
        if i != p {
            let k = if i < p {
                i
            } else {
                i - 1
            };
            assert(t[i] == s[k]);
        }
    }
    if answered_once(s) {
        assert forall|i: int, j: int|
            0 <= i < j < t.len() && answer_id(#[trigger] t[i]) is Some implies answer_id(t[i])
            != answer_id(#[trigger] t[j]) by {
            let a = if i < p {
                i
            } else {
                i - 1
            };
            let b = if j < p {
                j
            } else {
                j - 1
            };
            if i == p {
                assert(t[j] == s[b]);
            } else if j == p {
                assert(t[i] == s[a]);
            } else {
                assert(t[i] == s[a] && t[j] == s[b]);
            }
        }
    }
}

proof fn lemma_tool(o: Order, m: JsonV)
    requires
        sound(o),
        chat_order::role_of(m) == "tool"@,
    ensures
        sound(o.tool(m)),
        answered_once(o.fixed) ==> answered_once(o.tool(m).fixed),
        all_own_ids(o.fixed) && own_ids(m) ==> all_own_ids(o.tool(m).fixed),
{
    let s = o.fixed;
    match m.str_at("tool_call_id"@) {
        None => {
            lemma_push(s, m);
        },
        Some(id) => {
            if o.placed.contains(id) {
                lemma_again(o, m, id);
            } else if chat_order::open_call(s, id) {
                lemma_push(s, m);
                assert(s.push(m) =~= s.insert(s.len() as int, m));
                lemma_put_once(s, s.len() as int, m, id, o.placed);
            } else {
                lemma_caller(s, id);
                match chat_order::caller(s, id) {
                    Some(k) => {
                        lemma_insert(s, k, m, id);
                        lemma_after_tools(s, k + 1);
                        lemma_put_once(s, chat_order::after_tools(s, k + 1), m, id, o.placed);
                    },
                    None => {},
                }
            }
        },
    }
}

/// A message calls the ids of its calls.
proof fn lemma_call_ids(m: JsonV, tcs: Seq<JsonV>, all: Seq<JsonV>)
    requires
        m.array_at("tool_calls"@) == Some(all),
        tcs.len() <= all.len(),
        tcs == all.take(tcs.len() as int),
    ensures
        forall|i: int|
            0 <= i < codex_chat::call_ids(tcs).len() ==> chat_order::has_call(
                m,
                #[trigger] codex_chat::call_ids(tcs)[i],
            ),
    decreases tcs.len(),
{
    if tcs.len() > 0 {
        assert(tcs.drop_last() =~= all.take(tcs.len() - 1));
        lemma_call_ids(m, tcs.drop_last(), all);
        let last = all[tcs.len() - 1];
        assert(tcs.last() == last);
        let before = codex_chat::call_ids(tcs.drop_last());
        assert forall|i: int| 0 <= i < codex_chat::call_ids(tcs).len() implies chat_order::has_call(
            m,
            #[trigger] codex_chat::call_ids(tcs)[i],
        ) by {
            if i < before.len() {
                assert(chat_order::has_call(m, codex_chat::call_ids(tcs.drop_last())[i]));
                assert(codex_chat::call_ids(tcs)[i] == before[i]);
            } else {
                let n = tcs.len() - 1;
                let id = codex_chat::call_ids(tcs)[i];
                assert(codex_chat::call_ids(tcs) == before + codex_chat::call_id_fn()(tcs.last()));
                assert(codex_chat::call_id_fn()(last).len() <= 1);
                assert(id == codex_chat::call_id_fn()(last)[0]);
                let calls = m.array_at("tool_calls"@)->Some_0;
                assert(calls == all);
                assert(calls[n].str_is("id"@, id));
            }
        }
    }
}

/// Empty results behind the message that makes the calls.
proof fn lemma_results(s: Seq<JsonV>, ids: Seq<Seq<char>>, placed: Set<Seq<char>>)
    requires
        behind_calls(s),
        s.len() > 0,
        chat_order::role_of(s.last()) == "assistant"@,
        forall|i: int| 0 <= i < ids.len() ==> chat_order::has_call(s.last(), #[trigger] ids[i]),
    ensures
        ({
            let t = s + seqs::flat(ids, chat_order::empty_result_fn(placed));
            &&& behind_calls(t)
            &&& forall|i: int|
                s.len() <= i < t.len() ==> chat_order::role_of(#[trigger] t[i]) == "tool"@
                    && own_ids(t[i])
            &&& known(s, placed) ==> known(t, placed.union(ids.to_set()))
            &&& known(s, placed) && answered_once(s) && ids.no_duplicates() ==> answered_once(t)
        }),
    decreases ids.len(),
{
    let f = chat_order::empty_result_fn(placed);
    let t = s + seqs::flat(ids, f);
    if ids.len() == 0 {
        assert(t =~= s);
    } else {
        let ids1 = ids.drop_last();
        let id = ids.last();
        assert(ids[ids.len() - 1] == id);
        assert forall|i: int| 0 <= i < ids1.len() implies chat_order::has_call(
            s.last(),
            #[trigger] ids1[i],
        ) by {
            assert(ids1[i] == ids[i]);
        }
        lemma_results(s, ids1, placed);
        let t1 = s + seqs::flat(ids1, f);
        assert forall|x: Seq<char>| #[trigger] ids1.to_set().contains(x) implies ids.to_set().contains(
            x,
        ) by {
            let i = choose|i: int| 0 <= i < ids1.len() && ids1[i] == x;
            assert(ids[i] == x);
        }
        assert(ids.to_set().contains(id));
        if placed.contains(id) {
            assert(t =~= t1);
        } else {
            let m = codex_chat::tool_message_v(id, ""@);
            codex_chat::lemma_tool_message(id, ""@);
            keys::lemma_message_names();
            assert(m.get("tool_calls"@) is None);
            assert(answer_id(m) == Some(id));
            assert(t =~= t1.push(m));
            assert(t1[s.len() - 1] == s.last());
            lemma_open_stays(t1, s.len() - 1, id);
            lemma_push(t1, m);
            if known(s, placed) && answered_once(s) && ids.no_duplicates() {
                assert(ids1.no_duplicates()) by {
                    assert forall|i: int, j: int|
                        0 <= i < ids1.len() && 0 <= j < ids1.len() && i != j implies ids1[i]
                        != ids1[j] by {
                        assert(ids1[i] == ids[i] && ids1[j] == ids[j]);
                    }
                }
                assert(!placed.union(ids1.to_set()).contains(id)) by {
                    if ids1.to_set().contains(id) {
                        let i = choose|i: int| 0 <= i < ids1.len() && ids1[i] == id;
                        assert(ids[i] == ids[ids.len() - 1]);
                    }
                }
                lemma_put_once(t1, t1.len() as int, m, id, placed.union(ids1.to_set()));
                assert(t1.push(m) =~= t1.insert(t1.len() as int, m));
            }
        }
        if known(s, placed) {
            assert forall|i: int| 0 <= i < t.len() implies match answer_id(#[trigger] t[i]) {
                Some(x) => placed.union(ids.to_set()).contains(x),
                None => true,
            } by {
                if i < t1.len() {
                    assert(t[i] == t1[i]);
                }
            }
        }
        assert forall|i: int| s.len() <= i < t.len() implies chat_order::role_of(#[trigger] t[i])
            == "tool"@ && own_ids(t[i]) by {
            if i < t1.len() {
                assert(t[i] == t1[i]);
            }
        }
    }
}

/// Results for the last calls.
proof fn lemma_closed(s: Seq<JsonV>, placed: Set<Seq<char>>)
    requires
        behind_calls(s),
        known(s, placed),
    ensures
        ({
            let ids = codex_chat::call_ids(chat_order::last_calls(s));
            let t = s + seqs::flat(ids, chat_order::empty_result_fn(placed));
            &&& behind_calls(t)
            &&& known(t, placed.union(ids.to_set()))
            &&& answered_once(s) && all_own_ids(s) ==> answered_once(t)
            &&& all_own_ids(s) ==> all_own_ids(t)
        }),
{
    let tcs = chat_order::last_calls(s);
    let ids = codex_chat::call_ids(tcs);
    let t = s + seqs::flat(ids, chat_order::empty_result_fn(placed));
    if tcs.len() == 0 {
        assert(t =~= s);
    } else {
        assert(s[s.len() - 1] == s.last());
        assert(tcs =~= tcs.take(tcs.len() as int));
        lemma_call_ids(s.last(), tcs, tcs);
        lemma_results(s, ids, placed);
        if all_own_ids(s) {
            assert(own_ids(s[s.len() - 1]));
            assert forall|i: int| 0 <= i < t.len() implies own_ids(#[trigger] t[i]) by {
                if i < s.len() {
                    assert(t[i] == s[i]);
                }
            }
        }
    }
}

proof fn lemma_step(o: Order, m: JsonV)
    requires
        sound(o),
    ensures
        sound(o.step(m)),
        answered_once(o.fixed) && all_own_ids(o.fixed) && own_ids(m) ==> answered_once(
            o.step(m).fixed,
        ) && all_own_ids(o.step(m).fixed),
{
    if chat_order::role_of(m) == "tool"@ {
        lemma_tool(o, m);
    } else {
        lemma_closed(o.fixed, o.placed);
        let f = o.filled();
        lemma_push(f.fixed, m);
        let t = f.fixed.push(m);
        assert forall|i: int| 0 <= i < t.len() implies match answer_id(#[trigger] t[i]) {
            Some(x) => f.placed.contains(x),
            None => true,
        } by {
            if i < f.fixed.len() {
                assert(t[i] == f.fixed[i]);
            }
        }
        if answered_once(f.fixed) {
            assert forall|i: int, j: int|
                0 <= i < j < t.len() && answer_id(#[trigger] t[i]) is Some implies answer_id(t[i])
                != answer_id(#[trigger] t[j]) by {
                assert(t[i] == f.fixed[i]);
                if j < f.fixed.len() {
                    assert(t[j] == f.fixed[j]);
                }
            }
        }
    }
}

proof fn lemma_steps(msgs: Seq<JsonV>)
    ensures
        sound(Order::start().steps(msgs)),
        all_own_ids(msgs) ==> answered_once(Order::start().steps(msgs).fixed) && all_own_ids(
            Order::start().steps(msgs).fixed,
        ),
    decreases msgs.len(),
{
    if msgs.len() > 0 {
        let first = msgs.drop_last();
        lemma_steps(first);
        lemma_step(Order::start().steps(first), msgs.last());
        if all_own_ids(msgs) {
            assert forall|i: int| 0 <= i < first.len() implies own_ids(#[trigger] first[i]) by {
                assert(first[i] == msgs[i]);
            }
            assert(own_ids(msgs[msgs.len() - 1]));
        }
    }
}

pub(crate) proof fn lemma_trimmed_start(s: Seq<JsonV>)
    ensures
        chat_order::trimmed(s).len() <= s.len(),
        chat_order::trimmed(s) == s.take(chat_order::trimmed(s).len() as int),
    decreases s.len(),
{
    if s.len() > 0 && chat_order::is_bare_assistant(s.last()) {
        lemma_trimmed_start(s.drop_last());
        let n = chat_order::trimmed(s).len() as int;
        assert(s.drop_last().take(n) =~= s.take(n));
    } else {
        assert(s.take(s.len() as int) =~= s);
    }
}

/// In the order that strict providers ask for, every tool's message that names a call stands
/// right behind it: none is left without its call. Where the calls of a message have ids of
/// their own, no call has two results.
pub proof fn lemma_ordered_chat_answers(msgs: Seq<JsonV>)
    ensures
        behind_calls(chat_order::ordered_chat(msgs)),
        all_own_ids(msgs) ==> answered_once(chat_order::ordered_chat(msgs)),
{
    lemma_steps(msgs);
    let o = Order::start().steps(msgs);
    lemma_trimmed_start(o.fixed);
    let s = chat_order::trimmed(o.fixed);
    assert forall|i: int| 0 <= i < s.len() implies s[i] == o.fixed[i] by {}
    assert forall|i: int| 0 <= i < s.len() implies match answer_id(#[trigger] s[i]) {
        Some(id) => chat_order::open_call(s.take(i), id),
        None => true,
    } by {
        assert(s[i] == o.fixed[i]);
        assert(s.take(i) =~= o.fixed.take(i));
    }
    assert forall|i: int| 0 <= i < s.len() implies match answer_id(#[trigger] s[i]) {
        Some(id) => o.placed.contains(id),
        None => true,
    } by {
        assert(s[i] == o.fixed[i]);
    }
    if all_own_ids(msgs) {
        assert forall|i: int| 0 <= i < s.len() implies own_ids(#[trigger] s[i]) by {
            assert(s[i] == o.fixed[i]);
            assert(own_ids(o.fixed[i]));
        }
        assert forall|i: int, j: int|
            0 <= i < j < s.len() && answer_id(#[trigger] s[i]) is Some implies answer_id(s[i])
            != answer_id(#[trigger] s[j]) by {
            assert(s[i] == o.fixed[i] && s[j] == o.fixed[j]);
        }
    }
    lemma_closed(s, o.placed);
    let c = chat_order::closed_order(o);
    if !chat_order::has_user_or_tool(c) {
        keys::lemma_message_names();
        let m = parts::message_v("user"@, JsonV::Str("Continue."@));
        parts::lemma_message("user"@, JsonV::Str("Continue."@));
        let t = c.insert(0, m);
        assert forall|i: int| 0 <= i < t.len() implies answer_id(#[trigger] t[i]) is None by {
            if i > 0 {
                assert(t[i] == c[i - 1]);
                assert(!chat_order::is_user_or_tool(c[i - 1]));
            }
        }
    }
}

/// Whether no two messages call the same id.
pub open spec fn calls_apart(s: Seq<JsonV>) -> bool {
    forall|i: int, j: int, id: Seq<char>|
        0 <= i < j < s.len() && #[trigger] chat_order::has_call(s[i], id)
            ==> !#[trigger] chat_order::has_call(s[j], id)
}

/// Whether the calls of every message have ids.
pub open spec fn calls_named(s: Seq<JsonV>) -> bool {
    forall|i: int| 0 <= i < s.len() ==> has_named_calls(#[trigger] s[i])
}

/// Whether the calls of a message have ids.
pub open spec fn has_named_calls(m: JsonV) -> bool {
    match m.array_at("tool_calls"@) {
        Some(tcs) => forall|k: int|
            0 <= k < tcs.len() ==> (#[trigger] tcs[k]).str_at("id"@) is Some,
        None => true,
    }
}

/// Whether one of some messages calls an id.
spec fn is_called(s: Seq<JsonV>, id: Seq<char>) -> bool {
    exists|k: int| 0 <= k < s.len() && chat_order::has_call(#[trigger] s[k], id)
}

/// Whether one of some messages answers an id.
spec fn is_answered(s: Seq<JsonV>, id: Seq<char>) -> bool {
    exists|i: int| 0 <= i < s.len() && answer_id(#[trigger] s[i]) == Some(id)
}

/// Whether messages call nothing but what others call.
spec fn drawn(s: Seq<JsonV>, msgs: Seq<JsonV>) -> bool {
    forall|i: int, id: Seq<char>|
        0 <= i < s.len() && #[trigger] chat_order::has_call(s[i], id) ==> is_called(msgs, id)
}

/// What holds of messages in order whose calls are apart.
spec fn kept_apart(o: Order, msgs: Seq<JsonV>) -> bool {
    &&& calls_apart(o.fixed)
    &&& drawn(o.fixed, msgs)
    &&& calls_named(o.fixed)
    &&& forall|id: Seq<char>| #[trigger] o.placed.contains(id) ==> is_answered(o.fixed, id)
}

proof fn lemma_drawn_more(s: Seq<JsonV>, msgs: Seq<JsonV>)
    requires
        msgs.len() > 0,
        drawn(s, msgs.drop_last()),
    ensures
        drawn(s, msgs),
{
    assert forall|i: int, id: Seq<char>|
        0 <= i < s.len() && #[trigger] chat_order::has_call(s[i], id) implies is_called(
        msgs,
        id,
    ) by {
        let first = msgs.drop_last();
        assert(is_called(first, id));
        let k = choose|k: int| 0 <= k < first.len() && chat_order::has_call(#[trigger] first[k], id);
        assert(chat_order::has_call(msgs[k], id));
    }
}

/// One message more, anywhere.
proof fn lemma_put_apart(s: Seq<JsonV>, p: int, msgs: Seq<JsonV>)
    requires
        0 <= p <= s.len(),
        msgs.len() > 0,
        calls_apart(msgs),
        calls_named(msgs),
        calls_apart(s),
        calls_named(s),
        drawn(s, msgs.drop_last()),
    ensures
        calls_apart(s.insert(p, msgs.last())),
        calls_named(s.insert(p, msgs.last())),
        drawn(s.insert(p, msgs.last()), msgs),
        forall|id: Seq<char>|
            is_answered(s, id) ==> #[trigger] is_answered(s.insert(p, msgs.last()), id),
{
    let m = msgs.last();
    let n = msgs.len() - 1;
    let t = s.insert(p, m);
    lemma_drawn_more(s, msgs);
    assert(m == msgs[n]);
    assert(has_named_calls(msgs[n]));
    assert forall|i: int, id: Seq<char>|
        0 <= i < s.len() && #[trigger] chat_order::has_call(s[i], id) implies !chat_order::has_call(
        m,
        id,
    ) by {
        let first = msgs.drop_last();
        assert(is_called(first, id));
        let k = choose|k: int| 0 <= k < first.len() && chat_order::has_call(#[trigger] first[k], id);
        assert(chat_order::has_call(msgs[k], id));
        assert(!chat_order::has_call(msgs[n], id));
    }
    assert forall|i: int, j: int, id: Seq<char>|
        0 <= i < j < t.len() && #[trigger] chat_order::has_call(t[i], id) implies !(
    #[trigger] chat_order::has_call(t[j], id)) by {
        let a = if i < p {
            i
        } else {
            i - 1
        };
        let b = if j < p {
            j
        } else {
            j - 1
        };
        if i == p {
            assert(t[j] == s[b]);
            if chat_order::has_call(s[b], id) {
                assert(!chat_order::has_call(m, id));
            }
        } else if j == p {
            assert(t[i] == s[a]);
            assert(chat_order::has_call(s[a], id));
        } else {
            assert(t[i] == s[a] && t[j] == s[b]);
            assert(chat_order::has_call(s[a], id));
        }
    }
    assert forall|i: int| 0 <= i < t.len() implies has_named_calls(#[trigger] t[i]) by {
        if i != p {
            let a = if i < p {
                i
            } else {
                i - 1
            };
            assert(t[i] == s[a]);
        }
    }
    assert forall|i: int, id: Seq<char>|
        0 <= i < t.len() && #[trigger] chat_order::has_call(t[i], id) implies is_called(
        msgs,
        id,
    ) by {
        if i == p {
            assert(chat_order::has_call(msgs[n], id));
        } else {
            let a = if i < p {
                i
            } else {
                i - 1
            };
            assert(t[i] == s[a]);
            assert(chat_order::has_call(s[a], id));
        }
    }
    assert forall|id: Seq<char>| is_answered(s, id) implies #[trigger] is_answered(t, id) by {
        let i = choose|i: int| 0 <= i < s.len() && answer_id(#[trigger] s[i]) == Some(id);
        if i < p {
            assert(t[i] == s[i]);
        } else {
            assert(t[i + 1] == s[i]);
        }
    }
}

/// Empty results call nothing, and answer what was not answered.
proof fn lemma_fill(s: Seq<JsonV>, ids: Seq<Seq<char>>, placed: Set<Seq<char>>)
    ensures
        ({
            let t = s + seqs::flat(ids, chat_order::empty_result_fn(placed));
            &&& forall|i: int|
                s.len() <= i < t.len() ==> (#[trigger] t[i]).get("tool_calls"@) is None
            &&& forall|id: Seq<char>|
                ids.contains(id) && !placed.contains(id) ==> #[trigger] is_answered(
                    t.skip(s.len() as int),
                    id,
                )
        }),
    decreases ids.len(),
{
    let f = chat_order::empty_result_fn(placed);
    let more = seqs::flat(ids, f);
    let t = s + more;
    assert(t.skip(s.len() as int) =~= more);
    if ids.len() > 0 {
        let ids1 = ids.drop_last();
        let last = ids.last();
        lemma_fill(s, ids1, placed);
        let more1 = seqs::flat(ids1, f);
        let t1 = s + more1;
        assert(t1.skip(s.len() as int) =~= more1);
        let m = codex_chat::tool_message_v(last, ""@);
        keys::lemma_message_names();
        codex_chat::lemma_tool_message(last, ""@);
        assert(m.get("tool_calls"@) is None);
        assert(answer_id(m) == Some(last));
        assert forall|i: int| s.len() <= i < t.len() implies (#[trigger] t[i]).get(
            "tool_calls"@,
        ) is None by {
            if i < t1.len() {
                assert(t[i] == t1[i]);
            }
        }
        assert forall|id: Seq<char>| ids.contains(id) && !placed.contains(id) implies
            #[trigger] is_answered(t.skip(s.len() as int), id) by {
            let k = choose|k: int| 0 <= k < ids.len() && ids[k] == id;
            if k < ids1.len() {
                assert(ids1[k] == id);
                assert(ids1.contains(id));
                assert(is_answered(more1, id));
                let i = choose|i: int| 0 <= i < more1.len() && answer_id(#[trigger] more1[i]) == Some(
                    id,
                );
                assert(more[i] == more1[i]);
            } else {
                assert(more =~= more1.push(m));
                assert(more[more1.len() as int] == m);
            }
        }
    }
}

proof fn lemma_filled_apart(o: Order, msgs: Seq<JsonV>)
    requires
        kept_apart(o, msgs),
    ensures
        kept_apart(o.filled(), msgs),
{
    let ids = codex_chat::call_ids(chat_order::last_calls(o.fixed));
    let s = o.fixed;
    let t = o.filled().fixed;
    lemma_fill(s, ids, o.placed);
    assert forall|i: int, j: int, id: Seq<char>|
        0 <= i < j < t.len() && #[trigger] chat_order::has_call(t[i], id) implies !(
    #[trigger] chat_order::has_call(t[j], id)) by {
        if j < s.len() {
            assert(t[i] == s[i] && t[j] == s[j]);
            assert(chat_order::has_call(s[i], id));
        } else {
            assert(t[j].get("tool_calls"@) is None);
        }
    }
    assert forall|i: int| 0 <= i < t.len() implies has_named_calls(#[trigger] t[i]) by {
        if i < s.len() {
            assert(t[i] == s[i]);
        } else {
            assert(t[i].get("tool_calls"@) is None);
        }
    }
    assert forall|i: int, id: Seq<char>|
        0 <= i < t.len() && #[trigger] chat_order::has_call(t[i], id) implies is_called(
        msgs,
        id,
    ) by {
        if i < s.len() {
            assert(t[i] == s[i]);
            assert(chat_order::has_call(s[i], id));
        } else {
            assert(t[i].get("tool_calls"@) is None);
        }
    }
    assert forall|id: Seq<char>| #[trigger] o.filled().placed.contains(id) implies is_answered(
        t,
        id,
    ) by {
        if o.placed.contains(id) {
            assert(is_answered(s, id));
            let i = choose|i: int| 0 <= i < s.len() && answer_id(#[trigger] s[i]) == Some(id);
            assert(t[i] == s[i]);
        } else {
            assert(ids.to_set().contains(id));
            assert(ids.contains(id));
            let more = t.skip(s.len() as int);
            assert(is_answered(more, id));
            let i = choose|i: int| 0 <= i < more.len() && answer_id(#[trigger] more[i]) == Some(id);
            assert(t[s.len() + i] == more[i]);
        }
    }
}

proof fn lemma_again_apart(o: Order, m: JsonV, id: Seq<char>, msgs: Seq<JsonV>)
    requires
        kept_apart(o, msgs),
    ensures
        kept_apart(o.again(m, id), msgs),
{
    lemma_again_alike(o, m, id);
    let s = o.fixed;
    let t = o.again(m, id).fixed;
    assert forall|i: int, x: Seq<char>| 0 <= i < s.len() implies #[trigger] chat_order::has_call(
        t[i],
        x,
    ) == chat_order::has_call(s[i], x) by {
        assert(s[i].get("tool_calls"@) == t[i].get("tool_calls"@));
    }
    assert forall|i: int| 0 <= i < t.len() implies has_named_calls(#[trigger] t[i]) by {
        assert(s[i].get("tool_calls"@) == t[i].get("tool_calls"@));
        assert(has_named_calls(s[i]));
    }
    assert forall|i: int, j: int, x: Seq<char>|
        0 <= i < j < t.len() && #[trigger] chat_order::has_call(t[i], x) implies !(
    #[trigger] chat_order::has_call(t[j], x)) by {
        assert(chat_order::has_call(s[i], x));
        assert(!chat_order::has_call(s[j], x));
    }
    assert forall|i: int, x: Seq<char>|
        0 <= i < t.len() && #[trigger] chat_order::has_call(t[i], x) implies is_called(msgs, x) by {
        assert(chat_order::has_call(s[i], x));
    }
    assert forall|x: Seq<char>| #[trigger] o.placed.contains(x) implies is_answered(t, x) by {
        assert(is_answered(s, x));
        let i = choose|i: int| 0 <= i < s.len() && answer_id(#[trigger] s[i]) == Some(x);
        assert(s[i].get("role"@) == t[i].get("role"@));
        assert(answer_id(t[i]) == Some(x));
    }
}

proof fn lemma_step_apart(o: Order, msgs: Seq<JsonV>)
    requires
        msgs.len() > 0,
        calls_apart(msgs),
        calls_named(msgs),
        kept_apart(o, msgs.drop_last()),
    ensures
        kept_apart(o.step(msgs.last()), msgs),
{
    let m = msgs.last();
    let s = o.fixed;
    lemma_drawn_more(s, msgs);
    if chat_order::role_of(m) == "tool"@ {
        match m.str_at("tool_call_id"@) {
            None => {
                assert(s.push(m) =~= s.insert(s.len() as int, m));
                lemma_put_apart(s, s.len() as int, msgs);
            },
            Some(id) => {
                if o.placed.contains(id) {
                    lemma_again_apart(o, m, id, msgs);
                } else {
                    let at = if chat_order::open_call(s, id) {
                        Some(s.len() as int)
                    } else {
                        match chat_order::caller(s, id) {
                            Some(k) => Some(chat_order::after_tools(s, k + 1)),
                            None => None,
                        }
                    };
                    lemma_caller(s, id);
                    match chat_order::caller(s, id) {
                        Some(k) => {
                            lemma_after_tools(s, k + 1);
                        },
                        None => {},
                    }
                    match at {
                        Some(p) => {
                            lemma_put_apart(s, p, msgs);
                            let t = s.insert(p, m);
                            assert(s.push(m) =~= s.insert(s.len() as int, m));
                            assert(o.step(m).fixed == t);
                            assert(t[p] == m);
                            assert(answer_id(t[p]) == Some(id));
                            assert forall|x: Seq<char>| #[trigger]
                                o.step(m).placed.contains(x) implies is_answered(t, x) by {
                                if x != id {
                                    assert(o.placed.contains(x));
                                    assert(is_answered(s, x));
                                }
                            }
                        },
                        None => {},
                    }
                }
            },
        }
    } else {
        lemma_filled_apart(o, msgs.drop_last());
        let f = o.filled();
        lemma_drawn_more(f.fixed, msgs);
        lemma_put_apart(f.fixed, f.fixed.len() as int, msgs);
        assert(f.fixed.push(m) =~= f.fixed.insert(f.fixed.len() as int, m));
        assert forall|x: Seq<char>| #[trigger] f.placed.contains(x) implies is_answered(
            f.fixed.push(m),
            x,
        ) by {
            assert(is_answered(f.fixed, x));
        }
    }
}

proof fn lemma_steps_apart(msgs: Seq<JsonV>)
    requires
        calls_apart(msgs),
        calls_named(msgs),
    ensures
        kept_apart(Order::start().steps(msgs), msgs),
    decreases msgs.len(),
{
    if msgs.len() > 0 {
        let first = msgs.drop_last();
        assert(calls_apart(first)) by {
            assert forall|i: int, j: int, id: Seq<char>|
                0 <= i < j < first.len() && #[trigger] chat_order::has_call(first[i], id) implies !(
            #[trigger] chat_order::has_call(first[j], id)) by {
                assert(chat_order::has_call(msgs[i], id));
                assert(!chat_order::has_call(msgs[j], id));
            }
        }
        assert forall|i: int| 0 <= i < first.len() implies has_named_calls(#[trigger] first[i]) by {
            assert(has_named_calls(msgs[i]));
        }
        lemma_steps_apart(first);
        lemma_step_apart(Order::start().steps(first), msgs);
    }
}

/// An open call is made by a message.
proof fn lemma_open_called(s: Seq<JsonV>, id: Seq<char>)
    requires
        chat_order::open_call(s, id),
    ensures
        is_called(s, id),
    decreases s.len(),
{
    let n = s.len() - 1;
    if chat_order::role_of(s.last()) == "assistant"@ {
        assert(chat_order::has_call(s[n], id));
    } else {
        let t = s.drop_last();
        lemma_open_called(t, id);
        let k = choose|k: int| 0 <= k < t.len() && chat_order::has_call(#[trigger] t[k], id);
        assert(s[k] == t[k]);
    }
}

/// What was cut off at the end is of assistants.
proof fn lemma_cut_off(s: Seq<JsonV>, i: int)
    requires
        chat_order::trimmed(s).len() <= i < s.len(),
    ensures
        chat_order::role_of(s[i]) == "assistant"@,
    decreases s.len(),
{
    if s.len() > 0 && chat_order::is_bare_assistant(s.last()) {
        if i < s.len() - 1 {
            lemma_cut_off(s.drop_last(), i);
            assert(s.drop_last()[i] == s[i]);
        }
    }
}

/// The first call of a message has an id that the message calls.
proof fn lemma_first_call(m: JsonV, tcs: Seq<JsonV>)
    requires
        m.array_at("tool_calls"@) == Some(tcs),
        tcs.len() > 0,
        has_named_calls(m),
    ensures
        codex_chat::call_ids(tcs).len() > 0,
        chat_order::has_call(m, codex_chat::call_ids(tcs)[0]),
{
    assert(tcs =~= tcs.take(tcs.len() as int));
    lemma_call_ids(m, tcs, tcs);
    let n = tcs.len() - 1;
    assert(tcs[n].str_at("id"@) is Some);
    assert(codex_chat::call_id_fn()(tcs.last()).len() == 1);
}

/// In the order that strict providers ask for, the last message is no assistant's, where
/// every call has an id and no two messages call the same one.
pub proof fn lemma_ordered_chat_last(msgs: Seq<JsonV>)
    requires
        calls_apart(msgs),
        calls_named(msgs),
    ensures
        chat_order::role_of(chat_order::ordered_chat(msgs).last()) != "assistant"@,
{
    keys::lemma_message_names();
    lemma_steps(msgs);
    lemma_steps_apart(msgs);
    let o = Order::start().steps(msgs);
    let s = chat_order::trimmed(o.fixed);
    lemma_trimmed_start(o.fixed);
    chat_order::lemma_trimmed(o.fixed);
    let tcs = chat_order::last_calls(s);
    let ids = codex_chat::call_ids(tcs);
    let more = seqs::flat(ids, chat_order::empty_result_fn(o.placed));
    let c = chat_order::closed_order(o);
    parts::lemma_message("user"@, JsonV::Str("Continue."@));
    chat_order::lemma_empty_results(ids, o.placed);
    if s.len() > 0 {
        let n = s.len() - 1;
        assert(s[n] == o.fixed[n]);
        if chat_order::role_of(s.last()) == "assistant"@ {
            assert(has_named_calls(o.fixed[n]));
            lemma_first_call(s.last(), tcs);
            let id = ids[0];
            assert(chat_order::has_call(o.fixed[n], id));
            if o.placed.contains(id) {
                assert(is_answered(o.fixed, id));
                let i = choose|i: int|
                    0 <= i < o.fixed.len() && answer_id(#[trigger] o.fixed[i]) == Some(id);
                if i >= s.len() {
                    lemma_cut_off(o.fixed, i);
                }
                assert(i < n);
                assert(chat_order::open_call(o.fixed.take(i), id));
                lemma_open_called(o.fixed.take(i), id);
                let k = choose|k: int|
                    0 <= k < i && chat_order::has_call(#[trigger] o.fixed.take(i)[k], id);
                assert(chat_order::has_call(o.fixed[k], id));
                assert(!chat_order::has_call(o.fixed[n], id));
            }
            lemma_fill(s, ids, o.placed);
            assert(ids.contains(id));
            assert((s + more).skip(s.len() as int) =~= more);
            assert(is_answered(more, id));
            assert(more.len() > 0);
            assert(c.last() == more.last());
        } else {
            assert(tcs =~= Seq::<JsonV>::empty());
            assert(more =~= Seq::<JsonV>::empty());
            assert(c =~= s);
        }
    } else {
        assert(c =~= Seq::<JsonV>::empty());
    }
}

} // verus!
