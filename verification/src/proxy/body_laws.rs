//! What holds of the changes to a body: what they leave, and that made again they change
//! nothing.

use vstd::prelude::*;

use super::bodies;
use crate::json::JsonV;
use crate::keys;

verus! {

/// A text block is left as it is.
proof fn lemma_text_block(t: Seq<char>)
    ensures
        bodies::normalized(JsonV::Arr(seq![crate::convert::parts::text_block_v("text"@, t)]))
            == JsonV::Arr(seq![crate::convert::parts::text_block_v("text"@, t)]),
{
    keys::lemma_message_names();
    let block = crate::convert::parts::text_block_v("text"@, t);
    reveal_with_fuel(bodies::normalized, 3);
    assert(bodies::normalized(block) =~= block) by {
        let m = block->Obj_0;
        let n = bodies::normalized(block)->Obj_0;
        assert(!m.contains_key("messages"@));
        assert forall|k: Seq<char>| m.contains_key(k) implies n[k] == m[k] by {
            assert(m[k] is Str);
        }
        assert(n =~= m);
    }
    let a = seq![block];
    assert(bodies::normalized(JsonV::Arr(a))->Arr_0 =~= a);
}

/// A message that is right is left as it is where it stands.
proof fn lemma_right(v: JsonV)
    requires
        bodies::is_message(v),
    ensures
        bodies::fixed_message(v) == v,
        forall|k: Seq<char>| !#[trigger] bodies::set_right(v, k),
{
}

/// What a message becomes is right.
proof fn lemma_message_right(v: JsonV)
    requires
        v is Obj || v is Null,
    ensures
        bodies::is_message(bodies::normalized_message(v)),
        bodies::normalized_message(v) is Obj,
{
    keys::lemma_message_names();
    let fixed = bodies::fixed_message(v);
    assert(bodies::is_message(fixed)) by {
        assert(bodies::with_valid_role(v).get("content"@) == v.get("content"@));
    }
    if v is Obj {
        let m = v->Obj_0;
        let f = fixed->Obj_0;
        assert(fixed is Obj);
        if !(m.contains_key("messages"@) && m["messages"@] is Arr) {
            let r = bodies::normalized_message(v)->Obj_0;
            reveal_with_fuel(bodies::normalized, 2);
            assert(r.contains_key("content"@));
            if !bodies::set_right(v, "content"@) {
                assert(r["content"@] == bodies::normalized(m["content"@]));
            }
            if r.contains_key("role"@) && !bodies::set_right(v, "role"@) {
                assert(m.contains_key("role"@));
                assert(r["role"@] == bodies::normalized(m["role"@]));
            }
        }
    }
}

proof fn lemma_message_again(v: JsonV)
    ensures
        bodies::normalized_message(bodies::normalized_message(v)) == bodies::normalized_message(v),
    decreases v,
{
    keys::lemma_message_names();
    let r = bodies::normalized_message(v);
    match v {
        JsonV::Obj(m) => {
            lemma_message_right(v);
            lemma_right(r);
            let f = bodies::fixed_message(v)->Obj_0;
            let w = r->Obj_0;
            if m.contains_key("messages"@) && m["messages"@] is Arr {
                let msgs = v->Obj_0["messages"@]->Arr_0;
                lemma_messages_again(msgs);
                assert(bodies::normalized_message(r)->Obj_0 =~= w);
            } else {
                assert(!(w.contains_key("messages"@) && w["messages"@] is Arr)) by {
                    if w.contains_key("messages"@) {
                        assert(m.contains_key("messages"@));
                        reveal_with_fuel(bodies::normalized, 2);
                        assert(w["messages"@] == bodies::normalized(m["messages"@]));
                    }
                }
                assert forall|k: Seq<char>| w.contains_key(k) implies bodies::normalized(
                    #[trigger] w[k],
                ) == w[k] by {
                    if m.contains_key(k) && !bodies::set_right(v, k) {
                        lemma_again(v->Obj_0[k]);
                    } else {
                        assert(k == "role"@ || k == "content"@);
                        if k == "role"@ {
                            assert(w[k] is Str);
                        } else {
                            match v.get("content"@) {
                                Some(c) => {
                                    if !(c is Null) {
                                        lemma_text_block(crate::json::wire::json_text(c));
                                    }
                                },
                                None => {},
                            }
                        }
                    }
                }
                assert(bodies::normalized_message(r)->Obj_0 =~= w);
            }
        },
        JsonV::Null => {
            lemma_message_right(v);
            lemma_right(r);
            let w = r->Obj_0;
            assert(w =~= Map::<Seq<char>, JsonV>::empty().insert("content"@, JsonV::Str(""@)));
            assert(bodies::normalized_message(r)->Obj_0 =~= w);
        },
        _ => {},
    }
}

proof fn lemma_messages_again(msgs: Seq<JsonV>)
    ensures
        bodies::normalized_messages(bodies::normalized_messages(msgs))
            == bodies::normalized_messages(msgs),
    decreases msgs,
{
    let out = bodies::normalized_messages(msgs);
    assert forall|i: int| 0 <= i < out.len() implies bodies::normalized_message(#[trigger] out[i])
        == out[i] by {
        lemma_message_again(msgs[i]);
    }
    assert(bodies::normalized_messages(out) =~= out);
}

proof fn lemma_again(v: JsonV)
    ensures
        bodies::normalized(bodies::normalized(v)) == bodies::normalized(v),
    decreases v,
{
    let r = bodies::normalized(v);
    match v {
        JsonV::Obj(m) => {
            let w = r->Obj_0;
            if m.contains_key("messages"@) && m["messages"@] is Arr {
                lemma_messages_again(v->Obj_0["messages"@]->Arr_0);
                assert(bodies::normalized(r)->Obj_0 =~= w);
            } else {
                assert(!(w.contains_key("messages"@) && w["messages"@] is Arr)) by {
                    if w.contains_key("messages"@) {
                        reveal_with_fuel(bodies::normalized, 2);
                        assert(w["messages"@] == bodies::normalized(m["messages"@]));
                    }
                }
                assert forall|k: Seq<char>| w.contains_key(k) implies bodies::normalized(
                    #[trigger] w[k],
                ) == w[k] by {
                    lemma_again(v->Obj_0[k]);
                }
                assert(bodies::normalized(r)->Obj_0 =~= w);
            }
        },
        JsonV::Arr(a) => {
            let w = r->Arr_0;
            assert forall|i: int| 0 <= i < w.len() implies bodies::normalized(#[trigger] w[i])
                == w[i] by {
                lemma_again(v->Arr_0[i]);
            }
            assert(bodies::normalized(r)->Arr_0 =~= w);
        },
        _ => {},
    }
}

/// A body whose messages are fixed is left as it is when they are fixed again.
pub proof fn lemma_normalized_again(v: JsonV)
    ensures
        bodies::normalized(bodies::normalized(v)) == bodies::normalized(v),
{
    lemma_again(v);
}

/// Fixing the messages of a body leaves their number and order, and all other fields of the
/// body. A message with a role becomes the assistant's where it was the assistant's or a
/// tool's, and else the user's; its content becomes a text or an array: a text stays, and
/// nothing, or null, becomes an empty text.
pub proof fn lemma_normalized_body(v: JsonV, msgs: Seq<JsonV>)
    requires
        v is Obj,
        v.array_at("messages"@) == Some(msgs),
    ensures
        normalized_at(v, msgs),
{
    keys::lemma_message_names();
    let out = bodies::normalized_messages(msgs);
    assert(bodies::normalized(v).array_at("messages"@) == Some(out));
    assert forall|i: int| 0 <= i < msgs.len() && msgs[i] is Obj implies became_right(
        #[trigger] msgs[i],
        out[i],
    ) by {
        lemma_became_right(msgs[i]);
        assert(out[i] == bodies::normalized_message(msgs[i]));
    }
}

proof fn lemma_became_right(v: JsonV)
    requires
        v is Obj,
    ensures
        became_right(v, bodies::normalized_message(v)),
{
    keys::lemma_message_names();
    lemma_message_right(v);
    let fixed = bodies::fixed_message(v);
    let w = bodies::with_valid_role(v);
    let m = v->Obj_0;
    let f = fixed->Obj_0;
    let r = bodies::normalized_message(v)->Obj_0;
    assert(w.get("content"@) == v.get("content"@));
    assert(fixed.get("role"@) == w.get("role"@));
    assert(became_right(v, fixed));
    if !(m.contains_key("messages"@) && m["messages"@] is Arr) {
        reveal_with_fuel(bodies::normalized, 2);
        if m.contains_key("role"@) && !bodies::set_right(v, "role"@) {
            assert(r["role"@] == bodies::normalized(m["role"@]));
        }
        if m.contains_key("content"@) && !bodies::set_right(v, "content"@) {
            assert(r["content"@] == bodies::normalized(m["content"@]));
        }
    } else {
        assert(r == f.insert("messages"@, r["messages"@]));
    }
}

/// Whether a message became one that Anthropic takes, with what was right in it kept.
pub open spec fn became_right(m: JsonV, r: JsonV) -> bool {
    &&& match m.str_at("role"@) {
        Some(role) => r.str_at("role"@) == Some(
            if role == "assistant"@ || role == "tool"@ {
                "assistant"@
            } else {
                "user"@
            },
        ),
        None => r.str_at("role"@) is None,
    }
    &&& match m.get("content"@) {
        Some(JsonV::Str(s)) => r.get("content"@) == Some(JsonV::Str(s)),
        Some(JsonV::Null) => r.get("content"@) == Some(JsonV::Str(""@)),
        Some(_) => r.array_at("content"@) is Some,
        None => r.get("content"@) == Some(JsonV::Str(""@)),
    }
}

/// What a body with messages becomes.
pub open spec fn normalized_at(v: JsonV, msgs: Seq<JsonV>) -> bool {
    &&& forall|k: Seq<char>|
        k != "messages"@ ==> #[trigger] bodies::normalized(v).get(k) == v.get(k)
    &&& match bodies::normalized(v).array_at("messages"@) {
        Some(out) => out.len() == msgs.len() && forall|i: int|
            0 <= i < msgs.len() && msgs[i] is Obj ==> became_right(#[trigger] msgs[i], out[i]),
        None => false,
    }
}

/// Whether no object in a value, at any depth, has messages.
pub open spec fn no_messages(v: JsonV) -> bool
    decreases v,
{
    match v {
        JsonV::Obj(m) => !m.contains_key("messages"@) && forall|k: Seq<char>|
            m.contains_key(k) ==> no_messages(#[trigger] m[k]),
        JsonV::Arr(a) => forall|i: int| 0 <= i < a.len() ==> no_messages(#[trigger] a[i]),
        _ => true,
    }
}

/// What has no messages has no thinking to be taken out.
proof fn lemma_nothing_stripped(v: JsonV)
    requires
        no_messages(v),
    ensures
        bodies::stripped(v, false) == v,
    decreases v,
{
    match v {
        JsonV::Obj(m) => {
            let w = bodies::stripped(v, false)->Obj_0;
            assert forall|k: Seq<char>| m.contains_key(k) implies w[k] == #[trigger] m[k] by {
                lemma_nothing_stripped(v->Obj_0[k]);
            }
            assert(w =~= m);
        },
        JsonV::Arr(a) => {
            let w = bodies::stripped(v, false)->Arr_0;
            assert forall|i: int| 0 <= i < a.len() implies w[i] == #[trigger] a[i] by {
                lemma_nothing_stripped(v->Arr_0[i]);
            }
            assert(w =~= a);
        },
        _ => {},
    }
}

/// The blocks that are not thinking, in their order.
pub open spec fn not_thinking(blocks: Seq<JsonV>) -> Seq<JsonV> {
    blocks.filter(|b: JsonV| b.str_at("type"@) != Some("thinking"@))
}

proof fn lemma_blocks_filtered(blocks: Seq<JsonV>)
    requires
        forall|i: int| 0 <= i < blocks.len() ==> no_messages(#[trigger] blocks[i]),
    ensures
        bodies::stripped_blocks(blocks) == not_thinking(blocks),
    decreases blocks.len(),
{
    reveal(Seq::filter);
    if blocks.len() > 0 {
        let first = blocks.drop_last();
        assert forall|i: int| 0 <= i < first.len() implies no_messages(#[trigger] first[i]) by {
            assert(first[i] == blocks[i]);
        }
        lemma_blocks_filtered(first);
        assert(no_messages(blocks[blocks.len() - 1]));
        lemma_nothing_stripped(blocks.last());
    }
}

/// A message without thinking: an assistant's content, where it is an array, has the other
/// blocks, and all else stays.
pub open spec fn message_without_thinking(m: JsonV) -> JsonV {
    match m.array_at("content"@) {
        Some(blocks) => if m.str_is("role"@, "assistant"@) {
            m.put("content"@, JsonV::Arr(not_thinking(blocks)))
        } else {
            m
        },
        None => m,
    }
}

/// In a body with messages on top alone, taking thinking out leaves of an assistant's content
/// all blocks that are not thinking, in their order; contents that are texts, messages of
/// other roles and all other fields stay.
pub proof fn lemma_stripped_body(v: JsonV, msgs: Seq<JsonV>)
    requires
        v is Obj,
        v.array_at("messages"@) == Some(msgs),
        forall|i: int| 0 <= i < msgs.len() ==> no_messages(#[trigger] msgs[i]),
        forall|k: Seq<char>|
            k != "messages"@ && v->Obj_0.contains_key(k) ==> no_messages(
                #[trigger] v->Obj_0[k],
            ),
    ensures
        bodies::without_thinking(v) == v.put(
            "messages"@,
            JsonV::Arr(msgs.map_values(|m: JsonV| message_without_thinking(m))),
        ),
{
    keys::lemma_message_names();
    let out = bodies::stripped_messages(msgs);
    let f = |m: JsonV| message_without_thinking(m);
    assert forall|i: int| 0 <= i < msgs.len() implies out[i] == message_without_thinking(
        #[trigger] msgs[i],
    ) by {
        let m = msgs[i];
        lemma_nothing_stripped(m);
        match m {
            JsonV::Obj(fields) => {
                let assistant = m.str_is("role"@, "assistant"@);
                let w = bodies::stripped(m, assistant)->Obj_0;
                assert forall|k: Seq<char>| fields.contains_key(k) && k != "content"@ implies w[k]
                    == #[trigger] fields[k] by {
                    lemma_nothing_stripped(fields[k]);
                }
                if fields.contains_key("content"@) {
                    lemma_nothing_stripped(fields["content"@]);
                    if fields["content"@] is Arr {
                        assert(no_messages(fields["content"@]));
                        lemma_blocks_filtered(fields["content"@]->Arr_0);
                    }
                }
                assert(w =~= message_without_thinking(m)->Obj_0);
            },
            _ => {},
        }
    }
    assert(out =~= msgs.map_values(f));
    let w = bodies::without_thinking(v)->Obj_0;
    assert forall|k: Seq<char>| v->Obj_0.contains_key(k) && k != "messages"@ implies w[k]
        == #[trigger] v->Obj_0[k] by {
        lemma_nothing_stripped(v->Obj_0[k]);
    }
    assert(w =~= v->Obj_0.insert("messages"@, JsonV::Arr(out)));
}

/// Stripping leaves what a value says of itself: its role, and its type.
proof fn lemma_stripped_texts(v: JsonV, assistant: bool)
    ensures
        bodies::stripped(v, assistant).str_at("role"@) == v.str_at("role"@),
        bodies::stripped(v, assistant).str_at("type"@) == v.str_at("type"@),
{
    keys::lemma_message_names();
    reveal_with_fuel(bodies::stripped, 2);
}

proof fn lemma_stripped_again(v: JsonV, assistant: bool)
    ensures
        bodies::stripped(bodies::stripped(v, assistant), assistant) == bodies::stripped(
            v,
            assistant,
        ),
    decreases v,
{
    let r = bodies::stripped(v, assistant);
    match v {
        JsonV::Obj(m) => {
            let w = r->Obj_0;
            let again = bodies::stripped(r, assistant)->Obj_0;
            assert forall|k: Seq<char>| w.contains_key(k) implies again[k] == #[trigger] w[k] by {
                if k == "messages"@ && m[k] is Arr {
                    lemma_messages_stripped_again(v->Obj_0[k]->Arr_0);
                } else if k == "content"@ && m[k] is Arr && assistant {
                    lemma_blocks_stripped_again(v->Obj_0[k]->Arr_0);
                } else {
                    lemma_stripped_again(v->Obj_0[k], false);
                    assert((w[k] is Arr) == (m[k] is Arr)) by {
                        reveal_with_fuel(bodies::stripped, 2);
                    }
                }
            }
            assert(again =~= w);
        },
        JsonV::Arr(a) => {
            let w = r->Arr_0;
            let again = bodies::stripped(r, assistant)->Arr_0;
            assert forall|i: int| 0 <= i < w.len() implies again[i] == #[trigger] w[i] by {
                lemma_stripped_again(v->Arr_0[i], false);
            }
            assert(again =~= w);
        },
        _ => {},
    }
}

proof fn lemma_messages_stripped_again(msgs: Seq<JsonV>)
    ensures
        bodies::stripped_messages(bodies::stripped_messages(msgs)) == bodies::stripped_messages(
            msgs,
        ),
    decreases msgs,
{
    let out = bodies::stripped_messages(msgs);
    let again = bodies::stripped_messages(out);
    assert forall|i: int| 0 <= i < out.len() implies again[i] == #[trigger] out[i] by {
        let a = msgs[i].str_is("role"@, "assistant"@);
        lemma_stripped_again(msgs[i], a);
        lemma_stripped_texts(msgs[i], a);
    }
    assert(again =~= out);
}

proof fn lemma_blocks_stripped_again(blocks: Seq<JsonV>)
    ensures
        bodies::stripped_blocks(bodies::stripped_blocks(blocks)) == bodies::stripped_blocks(blocks),
    decreases blocks,
{
    if blocks.len() > 0 {
        let first = blocks.drop_last();
        lemma_blocks_stripped_again(first);
        let before = bodies::stripped_blocks(first);
        if !bodies::is_thinking(blocks.last()) {
            let last = blocks[blocks.len() - 1];
            lemma_stripped_again(last, false);
            lemma_stripped_texts(last, false);
            let out = before.push(bodies::stripped(last, false));
            assert(out.drop_last() =~= before);
        }
    }
}

/// A body without thinking is left as it is when thinking is taken out again.
pub proof fn lemma_without_thinking_again(v: JsonV)
    ensures
        bodies::without_thinking(bodies::without_thinking(v)) == bodies::without_thinking(v),
{
    lemma_stripped_again(v, false);
}

/// A value without messages in it is left as it is.
proof fn lemma_no_messages_same(v: JsonV)
    requires
        no_messages(v),
    ensures
        bodies::normalized(v) == v,
    decreases v,
{
    match v {
        JsonV::Obj(m) => {
            assert forall|k: Seq<char>| m.contains_key(k) implies bodies::normalized(
                #[trigger] m[k],
            ) == m[k] by {
                lemma_no_messages_same(m[k]);
            }
            let n = bodies::normalized(v)->Obj_0;
            assert forall|k: Seq<char>| #[trigger] m.contains_key(k) implies n[k] == m[k] by {
                assert(bodies::normalized(m[k]) == m[k]);
            }
            assert(n =~= m);
        },
        JsonV::Arr(a) => {
            assert forall|i: int| 0 <= i < a.len() implies bodies::normalized(#[trigger] a[i])
                == a[i] by {
                lemma_no_messages_same(a[i]);
            }
            assert(bodies::normalized(v)->Arr_0 =~= a);
        },
        _ => {},
    }
}

/// A message that holds no messages itself keeps all that was right in it: its blocks, and what
/// stands beside the role and the content. A content that is neither a text nor blocks becomes
/// one block with its JSON.
pub proof fn lemma_message_kept(v: JsonV, msgs: Seq<JsonV>, i: int)
    requires
        v is Obj,
        v.array_at("messages"@) == Some(msgs),
        0 <= i < msgs.len(),
        msgs[i] is Obj,
        no_messages(msgs[i]),
    ensures
        ({
            let out = bodies::normalized(v).array_at("messages"@)->0[i];
            let content = msgs[i].get("content"@);
            &&& forall|k: Seq<char>|
                k != "role"@ && k != "content"@ ==> #[trigger] out.get(k) == msgs[i].get(k)
            &&& content is Some && content->0 is Arr ==> out.get("content"@) == content
            &&& content is Some && !(content->0 is Arr) && !(content->0 is Str) && !(
            content->0 is Null) ==> {
                &&& out.array_at("content"@) is Some
                &&& out.array_at("content"@)->0.len() == 1
                &&& out.array_at("content"@)->0[0].str_at("type"@) == Some("text"@)
                &&& out.array_at("content"@)->0[0].str_at("text"@) == Some(
                    crate::json::wire::json_text(content->0),
                )
            }
        }),
{
    keys::lemma_message_names();
    keys::lemma_tool_block_keys();
    let m = msgs[i];
    let out = bodies::normalized_messages(msgs);
    assert(bodies::normalized(v).array_at("messages"@) == Some(out));
    assert(out[i] == bodies::normalized_message(m));
    let w = bodies::with_valid_role(m);
    let fixed = bodies::fixed_message(m);
    assert(w.get("content"@) == m.get("content"@));
    assert forall|k: Seq<char>| k != "role"@ && k != "content"@ implies #[trigger] out[i].get(k)
        == m.get(k) by {
        assert(fixed.get(k) == m.get(k));
        if m->Obj_0.contains_key(k) {
            lemma_no_messages_same(m->Obj_0[k]);
            assert(!bodies::set_right(m, k));
        }
    }
    match m.get("content"@) {
        Some(c) => {
            lemma_no_messages_same(m->Obj_0["content"@]);
            if c is Arr {
                assert(!bodies::set_right(m, "content"@));
            }
        },
        None => {},
    }
}

} // verus!
