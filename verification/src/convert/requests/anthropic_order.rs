//! The order of messages that Anthropic asks for: results right after the tools that
//! were asked for, and a user's message at the end.

use vstd::prelude::*;

use super::anthropic_chat;
use super::anthropic_chat::typed_texts;
use super::chat_anthropic;
use super::chat_anthropic::tool_result;
use crate::convert::parts;
use crate::convert::parts::{message, text_block};
use crate::json::{self, Json, JsonV};
use crate::seqs;
use crate::text;

verus! {

/// Whether a message is of that role.
pub open spec fn is_role(m: JsonV, role: Seq<char>) -> bool {
    m.str_is("role"@, role)
}

/// The blocks of a message's content.
pub open spec fn blocks_of(m: JsonV) -> Seq<JsonV> {
    match m.array_at("content"@) {
        Some(a) => a,
        None => Seq::empty(),
    }
}

/// Whether a message asks for tools.
pub open spec fn asks_tools(m: JsonV) -> bool {
    exists|k: int|
        0 <= k < blocks_of(m).len() && (#[trigger] blocks_of(m)[k]).str_is("type"@, "tool_use"@)
}

/// The ids of the tools that a message asks for.
pub open spec fn asked_ids(m: JsonV) -> Seq<Seq<char>> {
    seqs::flat(blocks_of(m), anthropic_chat::typed_text_fn("tool_use"@, "id"@))
}

pub open spec fn empty_result_fn() -> spec_fn(Seq<char>) -> JsonV {
    |id: Seq<char>| chat_anthropic::tool_result_v(id, ""@)
}

/// A user's message with an empty result for each tool that a message asks for.
pub open spec fn empty_results_message(m: JsonV) -> JsonV {
    parts::message_v("user"@, JsonV::Arr(asked_ids(m).map_values(empty_result_fn())))
}

/// The messages with empty results for the tools asked for at their end, where what
/// follows is not the user's.
pub open spec fn with_results(s: Seq<JsonV>, next: JsonV) -> Seq<JsonV> {
    if s.len() > 0 && is_role(s.last(), "assistant"@) && asks_tools(s.last()) && !is_role(
        next,
        "user"@,
    ) && asked_ids(s.last()).len() > 0 {
        s.push(empty_results_message(s.last()))
    } else {
        s
    }
}

/// What a user's message adds to blocks of the user before it: its blocks, or its text.
pub open spec fn added_blocks(m: JsonV) -> Option<Seq<JsonV>> {
    match m.get("content"@) {
        Some(JsonV::Arr(a)) => Some(a),
        Some(JsonV::Str(t)) => Some(seq![parts::text_block_v("text"@, t)]),
        _ => None,
    }
}

/// Whether the last message is the user's and made of blocks.
pub open spec fn ends_with_user_blocks(s: Seq<JsonV>) -> bool {
    s.len() > 0 && is_role(s.last(), "user"@) && s.last().array_at("content"@) is Some
}

/// The messages with one more: a user's message merges into the user's blocks before it.
pub open spec fn with_message(s: Seq<JsonV>, m: JsonV) -> Seq<JsonV> {
    let s = with_results(s, m);
    match added_blocks(m) {
        Some(more) => if is_role(m, "user"@) && ends_with_user_blocks(s) {
            s.drop_last().push(s.last().put("content"@, JsonV::Arr(blocks_of(s.last()) + more)))
        } else {
            s.push(m)
        },
        None => s.push(m),
    }
}

/// The messages one after the other.
pub open spec fn merged(msgs: Seq<JsonV>) -> Seq<JsonV>
    decreases msgs.len(),
{
    if msgs.len() == 0 {
        Seq::empty()
    } else {
        with_message(merged(msgs.drop_last()), msgs.last())
    }
}

/// The messages with one of the user at their end, where the assistant has the last word.
pub open spec fn with_user_end(s: Seq<JsonV>) -> Seq<JsonV> {
    if s.len() > 0 && is_role(s.last(), "assistant"@) {
        if asks_tools(s.last()) {
            s.push(empty_results_message(s.last()))
        } else {
            s.push(parts::message_v("user"@, JsonV::Str(" "@)))
        }
    } else {
        s
    }
}

/// Whether there is a message of the user.
pub open spec fn has_user(s: Seq<JsonV>) -> bool {
    exists|i: int| 0 <= i < s.len() && is_role(#[trigger] s[i], "user"@)
}

/// The messages in order.
pub open spec fn ordered_anthropic(msgs: Seq<JsonV>) -> Seq<JsonV> {
    let s = with_user_end(merged(msgs));
    if has_user(s) {
        s
    } else {
        s.push(parts::message_v("user"@, JsonV::Str("Continue."@)))
    }
}

fn does_ask_tools(m: &Json) -> (r: bool)
    ensures
        r == asks_tools(m@),
{
    if let Some(a) = m.array_at("content") {
        let ghost all = json::views(a@);
        let n: usize = a.len();
        assert(blocks_of(m@) == all);
        for i in 0..n
            invariant
                n == a@.len(),
                all == json::views(a@),
                blocks_of(m@) == all,
                forall|k: int| 0 <= k < i ==> !(#[trigger] all[k]).str_is("type"@, "tool_use"@),
        {
            assert(all[i as int] == a@[i as int]@);
            if a[i].str_is("type", "tool_use") {
                assert(blocks_of(m@)[i as int].str_is("type"@, "tool_use"@));
                return true;
            }
        }
        assert forall|k: int| 0 <= k < blocks_of(m@).len() implies !(#[trigger] blocks_of(
            m@,
        )[k]).str_is("type"@, "tool_use"@) by {
            assert(!all[k].str_is("type"@, "tool_use"@));
        }
    }
    false
}

fn ids_asked(m: &Json) -> (r: Vec<String>)
    ensures
        text::texts(r@) == asked_ids(m@),
{
    match m.array_at("content") {
        Some(a) => typed_texts(a, "tool_use", "id"),
        None => {
            let out: Vec<String> = Vec::new();
            assert(text::texts(out@) =~= Seq::<Seq<char>>::empty());
            out
        },
    }
}

fn results_message(m: &Json) -> (r: Json)
    ensures
        r@ == empty_results_message(m@),
{
    broadcast use json::group_json;

    let ids = ids_asked(m);
    let ghost all = text::texts(ids@);
    let mut out: Vec<Json> = Vec::new();
    let n: usize = ids.len();
    for i in 0..n
        invariant
            n == ids@.len(),
            all == text::texts(ids@),
            json::views(out@) == all.map_values(empty_result_fn()).take(i as int),
    {
        out.push(tool_result(ids[i].as_str(), ""));
        assert(all.map_values(empty_result_fn()).take(i + 1) =~= all.map_values(
            empty_result_fn(),
        ).take(i as int).push(empty_result_fn()(all[i as int])));
    }
    assert(all.map_values(empty_result_fn()).take(n as int) =~= all.map_values(empty_result_fn()));
    message("user", Json::Arr(out))
}

/// Takes one more message.
fn add_message(fixed: &mut Vec<Json>, m: &Json)
    ensures
        json::views(final(fixed)@) == with_message(json::views(old(fixed)@), m@),
{
    broadcast use json::group_json;

    let n: usize = fixed.len();
    if n > 0 {
        assert(json::views(fixed@).last() == fixed@[n - 1]@);
        if fixed[n - 1].str_is("role", "assistant") && does_ask_tools(&fixed[n - 1]) && !m.str_is(
            "role",
            "user",
        ) {
            let ids = ids_asked(&fixed[n - 1]);
            if !ids.is_empty() {
                let r = results_message(&fixed[n - 1]);
                fixed.push(r);
            }
        }
    }
    let ghost s = json::views(fixed@);
    assert(s == with_results(json::views(old(fixed)@), m@));
    let n: usize = fixed.len();
    if n > 0 && m.str_is("role", "user") {
        assert(s.last() == fixed@[n - 1]@);
        if fixed[n - 1].str_is("role", "user") {
            if let Some(blocks) = fixed[n - 1].array_at("content") {
                let more: Option<Vec<Json>> = match m.get("content") {
                    Some(c) => match c {
                        Json::Arr(_) => match c.clone() {
                            Json::Arr(a) => Some(a),
                            _ => None,
                        },
                        Json::Str(t) => {
                            let mut one: Vec<Json> = Vec::new();
                            one.push(text_block("text", t.as_str()));
                            assert(json::views(one@) =~= seq![
                                parts::text_block_v("text"@, t@),
                            ]);
                            Some(one)
                        },
                        _ => None,
                    },
                    None => None,
                };
                if let Some(mut more) = more {
                    assert(added_blocks(m@) == Some(json::views(more@)));
                    let mut all = copy_all(blocks);
                    all.append(&mut more);
                    let v = fixed[n - 1].clone().put("content", Json::Arr(all));
                    let _ = fixed.pop();
                    fixed.push(v);
                    assert(json::views(fixed@) =~= s.drop_last().push(v@));
                    return;
                }
            }
        }
    }
    fixed.push(m.clone());
}

pub(crate) fn copy_all(a: &Vec<Json>) -> (r: Vec<Json>)
    ensures
        json::views(r@) == json::views(a@),
{
    broadcast use json::group_json;

    let mut out: Vec<Json> = Vec::new();
    let n: usize = a.len();
    for i in 0..n
        invariant
            n == a@.len(),
            json::views(out@) == json::views(a@).take(i as int),
    {
        out.push(a[i].clone());
        assert(json::views(a@).take(i + 1) =~= json::views(a@).take(i as int).push(a@[i as int]@));
    }
    assert(json::views(a@).take(n as int) =~= json::views(a@));
    out
}

/// Puts messages in the order that Anthropic asks for.
pub fn codex_fix_anthropic_message_ordering(messages: &Vec<Json>) -> (r: Vec<Json>)
    ensures
        json::views(r@) == ordered_anthropic(json::views(messages@)),
{
    broadcast use json::group_json;

    let ghost all = json::views(messages@);
    let mut fixed: Vec<Json> = Vec::new();
    let n: usize = messages.len();
    assert(all.take(0) =~= Seq::<JsonV>::empty());
    assert(json::views(fixed@) =~= merged(all.take(0)));
    for i in 0..n
        invariant
            n == messages@.len(),
            all == json::views(messages@),
            json::views(fixed@) == merged(all.take(i as int)),
    {
        assert(all.take(i + 1).drop_last() =~= all.take(i as int));
        assert(all.take(i + 1).last() == messages@[i as int]@);
        add_message(&mut fixed, &messages[i]);
    }
    assert(all.take(n as int) =~= all);
    let k: usize = fixed.len();
    if k > 0 {
        assert(json::views(fixed@).last() == fixed@[k - 1]@);
        if fixed[k - 1].str_is("role", "assistant") {
            let end = if does_ask_tools(&fixed[k - 1]) {
                results_message(&fixed[k - 1])
            } else {
                message("user", Json::str(" "))
            };
            fixed.push(end);
        }
    }
    let ghost s = json::views(fixed@);
    assert(s == with_user_end(merged(all)));
    let m: usize = fixed.len();
    for i in 0..m
        invariant
            m == fixed@.len(),
            s == json::views(fixed@),
            s == with_user_end(merged(all)),
            all == json::views(messages@),
            forall|k: int| 0 <= k < i ==> !is_role(#[trigger] s[k], "user"@),
    {
        assert(s[i as int] == fixed@[i as int]@);
        if fixed[i].str_is("role", "user") {
            assert(has_user(s));
            return fixed;
        }
    }
    fixed.push(message("user", Json::str("Continue.")));
    fixed
}

/// In the order that Anthropic asks for, the user speaks, and the assistant does not have
/// the last word.
pub proof fn lemma_ordered_anthropic(msgs: Seq<JsonV>)
    ensures
        has_user(ordered_anthropic(msgs)),
        ordered_anthropic(msgs).len() > 0,
        !is_role(ordered_anthropic(msgs).last(), "assistant"@),
{
    let t = merged(msgs);
    let s = with_user_end(t);
    reveal_strlit("assistant");
    reveal_strlit("user");
    assert("assistant"@.len() == 9 && "user"@.len() == 4);
    if t.len() > 0 {
        parts::lemma_message(
            "user"@,
            JsonV::Arr(asked_ids(t.last()).map_values(empty_result_fn())),
        );
    }
    parts::lemma_message("user"@, JsonV::Str(" "@));
    let m = parts::message_v("user"@, JsonV::Str("Continue."@));
    parts::lemma_message("user"@, JsonV::Str("Continue."@));
    if !has_user(s) {
        assert(ordered_anthropic(msgs)[s.len() as int] == m);
    }
}

} // verus!
