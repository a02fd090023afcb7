//! Changes to a body that goes on to the provider in a client's own format.

use vstd::prelude::*;

use crate::convert::requests::anthropic_chat;
use crate::convert::requests::anthropic_chat::with_text_or_blocks;
use crate::json::{self, Json, JsonV, Object};
use crate::text;
use crate::text::same;

verus! {

/// The role of a message as Anthropic knows it.
pub open spec fn known_role(role: Seq<char>) -> Seq<char> {
    if role == "assistant"@ || role == "user"@ {
        role
    } else if role == "tool"@ {
        "assistant"@
    } else {
        "user"@
    }
}

/// A message with a role that Anthropic knows.
pub open spec fn with_valid_role(m: JsonV) -> JsonV {
    match m.str_at("role"@) {
        Some(role) => if known_role(role) == role {
            m
        } else {
            m.put("role"@, JsonV::Str(known_role(role)))
        },
        None => m,
    }
}

/// A message with a role that Anthropic knows and a content that is a text or an array.
pub open spec fn fixed_message(m: JsonV) -> JsonV {
    anthropic_chat::with_plain_content(with_valid_role(m))
}

/// Whether the role of a message is one that Anthropic does not know.
pub open spec fn role_wrong(v: JsonV) -> bool {
    match v.str_at("role"@) {
        Some(role) => known_role(role) != role,
        None => false,
    }
}

/// Whether the content of a message is neither a text nor an array.
pub open spec fn content_wrong(v: JsonV) -> bool {
    match v.get("content"@) {
        Some(c) => !(c is Str || c is Arr),
        None => true,
    }
}

/// Whether a field of a message is set right.
pub open spec fn set_right(v: JsonV, k: Seq<char>) -> bool {
    (k == "role"@ && role_wrong(v)) || (k == "content"@ && content_wrong(v))
}

/// A value in which every message, at every depth, is fixed. Below an array of messages
/// only the messages are looked into.
pub open spec fn normalized(v: JsonV) -> JsonV
    decreases v,
{
    match v {
        JsonV::Obj(m) => if m.contains_key("messages"@) && m["messages"@] is Arr {
            let msgs = m["messages"@]->Arr_0;
            JsonV::Obj(m.insert("messages"@, JsonV::Arr(normalized_messages(msgs))))
        } else {
            JsonV::Obj(
                Map::new(
                    |k: Seq<char>| m.contains_key(k),
                    |k: Seq<char>|
                        if m.contains_key(k) {
                            normalized(m[k])
                        } else {
                            JsonV::Null
                        },
                ),
            )
        },
        JsonV::Arr(a) => JsonV::Arr(
            Seq::new(
                a.len(),
                |i: int|
                    if 0 <= i < a.len() {
                        normalized(a[i])
                    } else {
                        JsonV::Null
                    },
            ),
        ),
        other => other,
    }
}

/// Messages fixed, one by one.
pub open spec fn normalized_messages(msgs: Seq<JsonV>) -> Seq<JsonV>
    decreases msgs,
{
    Seq::new(
        msgs.len(),
        |i: int|
            if 0 <= i < msgs.len() {
                normalized_message(msgs[i])
            } else {
                JsonV::Null
            },
    )
}

/// A message fixed: what was wrong in it is set right, and what was not is looked into.
pub open spec fn normalized_message(v: JsonV) -> JsonV
    decreases v,
{
    let fixed = fixed_message(v);
    match (v, fixed) {
        (JsonV::Obj(m), JsonV::Obj(f)) => if m.contains_key("messages"@) && m["messages"@] is Arr {
            let msgs = m["messages"@]->Arr_0;
            JsonV::Obj(f.insert("messages"@, JsonV::Arr(normalized_messages(msgs))))
        } else {
            JsonV::Obj(
                Map::new(
                    |k: Seq<char>| f.contains_key(k),
                    |k: Seq<char>|
                        if m.contains_key(k) && !set_right(v, k) {
                            normalized(m[k])
                        } else {
                            f[k]
                        },
                ),
            )
        },
        _ => fixed,
    }
}

/// Whether every message that is to be fixed, at every depth, is an object or null.
pub open spec fn normalizable(v: JsonV) -> bool
    decreases v,
{
    match v {
        JsonV::Obj(m) => if m.contains_key("messages"@) && m["messages"@] is Arr {
            normalizable_messages(m["messages"@]->Arr_0)
        } else {
            forall|k: Seq<char>| m.contains_key(k) ==> normalizable(#[trigger] m[k])
        },
        JsonV::Arr(a) => forall|i: int| 0 <= i < a.len() ==> normalizable(#[trigger] a[i]),
        _ => true,
    }
}

/// Whether messages can be fixed.
pub open spec fn normalizable_messages(msgs: Seq<JsonV>) -> bool
    decreases msgs,
{
    forall|i: int| 0 <= i < msgs.len() ==> normalizable_message(#[trigger] msgs[i])
}

/// Whether a message can be fixed, and what is not wrong in it can be looked into.
pub open spec fn normalizable_message(v: JsonV) -> bool
    decreases v,
{
    match v {
        JsonV::Obj(m) => if m.contains_key("messages"@) && m["messages"@] is Arr {
            normalizable_messages(m["messages"@]->Arr_0)
        } else {
            forall|k: Seq<char>|
                m.contains_key(k) && !set_right(v, k) ==> normalizable(#[trigger] m[k])
        },
        JsonV::Null => true,
        _ => false,
    }
}

/// Fixing a message leaves what is not wrong in it.
proof fn lemma_fixed(v: JsonV)
    requires
        v is Obj,
    ensures
        fixed_message(v) is Obj,
        fixed_message(v)->Obj_0.dom() =~= v->Obj_0.dom().insert("content"@),
        forall|k: Seq<char>|
            !set_right(v, k) && fixed_message(v)->Obj_0.contains_key(k)
                ==> #[trigger] v->Obj_0.contains_key(k),
{
    reveal_strlit("role");
    reveal_strlit("content");
    assert("role"@.len() == 4 && "content"@.len() == 7);
    assert(with_valid_role(v).get("content"@) == v.get("content"@));
}

fn fix_message(m: &Json) -> (r: Json)
    ensures
        r@ == fixed_message(m@),
{
    let mut out = m.clone();
    if let Some(role) = m.str_at("role") {
        if same(role, "assistant") || same(role, "user") {
        } else if same(role, "tool") {
            out = out.put("role", Json::str("assistant"));
        } else {
            out = out.put("role", Json::str("user"));
        }
    }
    proof {
        lemma_known_role();
    }
    with_text_or_blocks(out)
}

/// The value under a key lies below an object.
proof fn lemma_field_below(v: JsonV, k: Seq<char>)
    requires
        v is Obj,
        v->Obj_0.contains_key(k),
    ensures
        decreases_to!(v => v->Obj_0[k]),
        v->Obj_0[k] is Arr ==> decreases_to!(v => v->Obj_0[k]->Arr_0),
{
    match v {
        JsonV::Obj(m) => {
            assert(decreases_to!(v => m[k]));
            if m[k] is Arr {
                assert(decreases_to!(v => m[k]->Arr_0));
            }
        },
        _ => {},
    }
}

/// An element lies below an array.
proof fn lemma_element_below(v: JsonV, i: int)
    requires
        v is Arr,
        0 <= i < v->Arr_0.len(),
    ensures
        decreases_to!(v => v->Arr_0[i]),
{
    assert(decreases_to!(v => v->Arr_0));
    assert(decreases_to!(v->Arr_0 => v->Arr_0[i]));
}

/// The values of an object so far.
spec fn partial(full: Map<Seq<char>, JsonV>, keys: Seq<Seq<char>>) -> Map<Seq<char>, JsonV> {
    full.restrict(keys.to_set())
}

proof fn lemma_partial_step(full: Map<Seq<char>, JsonV>, keys: Seq<Seq<char>>, i: int)
    requires
        0 <= i < keys.len(),
        full.contains_key(keys[i]),
    ensures
        partial(full, keys.take(i + 1)) == partial(full, keys.take(i)).insert(
            keys[i],
            full[keys[i]],
        ),
{
    let a = keys.take(i);
    let b = keys.take(i + 1);
    assert(b =~= a.push(keys[i]));
    assert forall|k: Seq<char>| b.to_set().contains(k) <==> (a.to_set().contains(k) || k
        == keys[i]) by {
        if a.contains(k) {
            let j = choose|j: int| 0 <= j < a.len() && a[j] == k;
            assert(b[j] == k);
        }
        if k == keys[i] {
            assert(b[i] == k);
        }
    }
    assert(partial(full, b) =~= partial(full, a).insert(keys[i], full[keys[i]]));
}

proof fn lemma_known_role()
    ensures
        forall|role: Seq<char>|
            (#[trigger] known_role(role) == role) == (role == "assistant"@ || role == "user"@),
{
    reveal_strlit("assistant");
    reveal_strlit("user");
    reveal_strlit("tool");
    assert("assistant"@.len() == 9 && "user"@.len() == 4 && "tool"@.len() == 4);
}

fn normalize(value: &Json) -> (r: Json)
    ensures
        r@ == normalized(value@),
    decreases value@,
{
    broadcast use json::group_json;

    match value {
        Json::Obj(o) => {
            if let Some(Json::Arr(msgs)) = o.get("messages") {
                assert(o@["messages"@] == JsonV::Arr(json::views(msgs@)));
                assert(decreases_to!(value@ => json::views(msgs@)));
                let fixed = normalize_messages(msgs);
                return value.clone().put("messages", Json::Arr(fixed));
            }
            let keys = o.keys();
            let ghost all = text::texts(keys@);
            let ghost full = normalized(value@)->Obj_0;
            let mut out = Object::new();
            let n: usize = keys.len();
            assert(partial(full, all.take(0)) =~= Map::<Seq<char>, JsonV>::empty());
            for i in 0..n
                invariant
                    n == keys@.len(),
                    all == text::texts(keys@),
                    value is Obj,
                    *o == value->Obj_0,
                    value@ == JsonV::Obj(o@),
                    all.to_set() == o@.dom(),
                    !(o@.contains_key("messages"@) && o@["messages"@] is Arr),
                    full == normalized(value@)->Obj_0,
                    out@ == partial(full, all.take(i as int)),
            {
                assert(all[i as int] == keys@[i as int]@);
                assert(all.contains(all[i as int]));
                assert(o@.contains_key(all[i as int]));
                if let Some(v) = o.get(keys[i].as_str()) {
                    assert(v@ == o@[all[i as int]]);
                    assert(decreases_to!(value@ => v@));
                    out = out.put(keys[i].as_str(), normalize(v));
                    proof {
                        lemma_partial_step(full, all, i as int);
                    }
                }
            }
            proof {
                assert(all.take(n as int) =~= all);
                assert(partial(full, all) =~= full);
            }
            Json::Obj(out)
        },
        Json::Arr(a) => {
            let ghost all = json::views(a@);
            let ghost full = normalized(value@)->Arr_0;
            let mut out: Vec<Json> = Vec::new();
            let n: usize = a.len();
            for i in 0..n
                invariant
                    n == a@.len(),
                    all == json::views(a@),
                    value@ == JsonV::Arr(all),
                    full == normalized(value@)->Arr_0,
                    json::views(out@) == full.take(i as int),
            {
                assert(all[i as int] == a@[i as int]@);
                assert(decreases_to!(value@ => a@[i as int]@));
                out.push(normalize(&a[i]));
                assert(full.take(i + 1) =~= full.take(i as int).push(full[i as int]));
            }
            assert(full.take(n as int) =~= full);
            Json::Arr(out)
        },
        other => other.clone(),
    }
}

fn normalize_messages(msgs: &Vec<Json>) -> (r: Vec<Json>)
    ensures
        json::views(r@) == normalized_messages(json::views(msgs@)),
    decreases json::views(msgs@),
{
    broadcast use json::group_json;

    let ghost all = json::views(msgs@);
    let ghost full = normalized_messages(all);
    let mut out: Vec<Json> = Vec::new();
    let n: usize = msgs.len();
    for i in 0..n
        invariant
            n == msgs@.len(),
            all == json::views(msgs@),
            full == normalized_messages(all),
            json::views(out@) == full.take(i as int),
    {
        assert(all[i as int] == msgs@[i as int]@);
        assert(decreases_to!(all => all[i as int]));
        out.push(normalize_message(&msgs[i]));
        assert(full.take(i + 1) =~= full.take(i as int).push(full[i as int]));
    }
    assert(full.take(n as int) =~= full);
    out
}

fn normalize_message(m: &Json) -> (r: Json)
    ensures
        r@ == normalized_message(m@),
    decreases m@,
{
    broadcast use json::group_json;

    let fixed = fix_message(m);
    match (m, &fixed) {
        (Json::Obj(o), Json::Obj(f)) => {
            if let Some(Json::Arr(msgs)) = o.get("messages") {
                assert(o@["messages"@] == JsonV::Arr(json::views(msgs@)));
                assert(decreases_to!(m@ => json::views(msgs@)));
                let inner = normalize_messages(msgs);
                return fixed.put("messages", Json::Arr(inner));
            }
            let role_bad = match m.str_at("role") {
                Some(role) => !same(role, "assistant") && !same(role, "user"),
                None => false,
            };
            let content_bad = match m.get("content") {
                Some(Json::Str(_)) => false,
                Some(Json::Arr(_)) => false,
                _ => true,
            };
            let keys = f.keys();
            let ghost all = text::texts(keys@);
            let ghost full = normalized_message(m@)->Obj_0;
            let mut out = Object::new();
            let n: usize = keys.len();
            proof {
                lemma_known_role();
                assert(role_bad == role_wrong(m@));
                assert(content_bad == content_wrong(m@));
                lemma_fixed(m@);
                assert(full.dom() =~= f@.dom());
                assert(partial(full, all.take(0)) =~= Map::<Seq<char>, JsonV>::empty());
            }
            for i in 0..n
                invariant
                    n == keys@.len(),
                    all == text::texts(keys@),
                    m@ == JsonV::Obj(o@),
                    fixed@ == JsonV::Obj(f@),
                    fixed@ == fixed_message(m@),
                    all.to_set() == f@.dom(),
                    !(o@.contains_key("messages"@) && o@["messages"@] is Arr),
                    full == normalized_message(m@)->Obj_0,
                    full.dom() == f@.dom(),
                    role_bad == role_wrong(m@),
                    content_bad == content_wrong(m@),
                    forall|k: Seq<char>|
                        !set_right(m@, k) && f@.contains_key(k) ==> #[trigger] o@.contains_key(k),
                    out@ == partial(full, all.take(i as int)),
            {
                assert(all[i as int] == keys@[i as int]@);
                assert(all.contains(all[i as int]));
                let key = keys[i].as_str();
                assert(f@.contains_key(key@));
                let written = (role_bad && same(key, "role")) || (content_bad && same(
                    key,
                    "content",
                ));
                assert(written == set_right(m@, key@));
                let v: Json = if written {
                    match f.get(key) {
                        Some(v) => v.clone(),
                        None => Json::Null,
                    }
                } else {
                    assert(o@.contains_key(key@));
                    match o.get(key) {
                        Some(v) => {
                            assert(v@ == o@[key@]);
                            assert(decreases_to!(m@ => v@));
                            normalize(v)
                        },
                        None => Json::Null,
                    }
                };
                assert(v@ == full[key@]);
                proof {
                    lemma_partial_step(full, all, i as int);
                }
                out = out.put(key, v);
            }
            proof {
                assert(all.take(n as int) =~= all);
                assert(partial(full, all) =~= full);
            }
            Json::Obj(out)
        },
        _ => fixed,
    }
}

/// Gives every message, at every depth, a role that Anthropic knows and a content that is
/// a text or an array.
pub fn normalize_roles(value: &mut Json)
    requires
        normalizable(old(value)@),
    ensures
        final(value)@ == normalized(old(value)@),
{
    let out = normalize(value);
    *value = out;
}

/// Whether every message that is to be fixed, at every depth, is an object or null.
pub fn is_normalizable(value: &Json) -> (r: bool)
    ensures
        r == normalizable(value@),
    decreases value@,
{
    broadcast use json::group_json;

    match value {
        Json::Obj(o) => {
            if let Some(Json::Arr(msgs)) = o.get("messages") {
                assert(o@["messages"@] == JsonV::Arr(json::views(msgs@)));
                proof {
                    lemma_field_below(value@, "messages"@);
                }
                let r = are_normalizable(msgs);
                assert(value@ == JsonV::Obj(o@));
                return r;
            }
            let keys = o.keys();
            let ghost all = text::texts(keys@);
            let n: usize = keys.len();
            for i in 0..n
                invariant
                    n == keys@.len(),
                    all == text::texts(keys@),
                    value@ == JsonV::Obj(o@),
                    all.to_set() == o@.dom(),
                    !(o@.contains_key("messages"@) && o@["messages"@] is Arr),
                    forall|k: int| 0 <= k < i ==> normalizable(o@[#[trigger] all[k]]),
            {
                assert(all[i as int] == keys@[i as int]@);
                assert(all.contains(all[i as int]));
                assert(o@.contains_key(all[i as int]));
                if let Some(v) = o.get(keys[i].as_str()) {
                    assert(v@ == o@[all[i as int]]);
                    proof {
                        lemma_field_below(value@, all[i as int]);
                    }
                    if !is_normalizable(v) {
                        assert(!normalizable(o@[all[i as int]]));
                        return false;
                    }
                }
            }
            assert forall|k: Seq<char>| o@.contains_key(k) implies normalizable(
                #[trigger] o@[k],
            ) by {
                assert(all.to_set().contains(k));
                let j = choose|j: int| 0 <= j < all.len() && all[j] == k;
                assert(normalizable(o@[all[j]]));
            }
            true
        },
        Json::Arr(a) => {
            let ghost all = json::views(a@);
            let n: usize = a.len();
            for i in 0..n
                invariant
                    n == a@.len(),
                    all == json::views(a@),
                    value@ == JsonV::Arr(all),
                    forall|k: int| 0 <= k < i ==> normalizable(#[trigger] all[k]),
            {
                assert(all[i as int] == a@[i as int]@);
                proof {
                    lemma_element_below(value@, i as int);
                }
                if !is_normalizable(&a[i]) {
                    assert(!normalizable(all[i as int]));
                    return false;
                }
            }
            true
        },
        _ => true,
    }
}

fn are_normalizable(msgs: &Vec<Json>) -> (r: bool)
    ensures
        r == normalizable_messages(json::views(msgs@)),
    decreases json::views(msgs@),
{
    let ghost all = json::views(msgs@);
    let n: usize = msgs.len();
    for i in 0..n
        invariant
            n == msgs@.len(),
            all == json::views(msgs@),
            forall|k: int| 0 <= k < i ==> normalizable_message(#[trigger] all[k]),
    {
        assert(all[i as int] == msgs@[i as int]@);
        assert(decreases_to!(all => all[i as int]));
        if !is_normalizable_message(&msgs[i]) {
            assert(!normalizable_message(all[i as int]));
            return false;
        }
    }
    true
}

fn is_normalizable_message(m: &Json) -> (r: bool)
    ensures
        r == normalizable_message(m@),
    decreases m@,
{
    broadcast use json::group_json;

    match m {
        Json::Obj(o) => {
            if let Some(Json::Arr(msgs)) = o.get("messages") {
                assert(o@["messages"@] == JsonV::Arr(json::views(msgs@)));
                proof {
                    lemma_field_below(m@, "messages"@);
                }
                return are_normalizable(msgs);
            }
            let role_bad = match m.str_at("role") {
                Some(role) => !same(role, "assistant") && !same(role, "user"),
                None => false,
            };
            let content_bad = match m.get("content") {
                Some(Json::Str(_)) => false,
                Some(Json::Arr(_)) => false,
                _ => true,
            };
            proof {
                lemma_known_role();
                assert(role_bad == role_wrong(m@));
                assert(content_bad == content_wrong(m@));
            }
            let keys = o.keys();
            let ghost all = text::texts(keys@);
            let n: usize = keys.len();
            for i in 0..n
                invariant
                    n == keys@.len(),
                    all == text::texts(keys@),
                    m@ == JsonV::Obj(o@),
                    all.to_set() == o@.dom(),
                    !(o@.contains_key("messages"@) && o@["messages"@] is Arr),
                    role_bad == role_wrong(m@),
                    content_bad == content_wrong(m@),
                    forall|k: int|
                        0 <= k < i ==> set_right(m@, #[trigger] all[k]) || normalizable(
                            o@[all[k]],
                        ),
            {
                assert(all[i as int] == keys@[i as int]@);
                assert(all.contains(all[i as int]));
                assert(o@.contains_key(all[i as int]));
                let key = keys[i].as_str();
                let written = (role_bad && same(key, "role")) || (content_bad && same(
                    key,
                    "content",
                ));
                assert(written == set_right(m@, key@));
                if !written {
                    if let Some(v) = o.get(key) {
                        assert(v@ == o@[key@]);
                        proof {
                            lemma_field_below(m@, key@);
                        }
                        if !is_normalizable(v) {
                            assert(!normalizable(o@[key@]));
                            return false;
                        }
                    }
                }
            }
            assert forall|k: Seq<char>| o@.contains_key(k) && !set_right(
                m@,
                k,
            ) implies normalizable(#[trigger] o@[k]) by {
                assert(all.to_set().contains(k));
                let j = choose|j: int| 0 <= j < all.len() && all[j] == k;
                assert(set_right(m@, all[j]) || normalizable(o@[all[j]]));
            }
            true
        },
        Json::Null => true,
        _ => false,
    }
}

/// The messages of a fixed body can have their fields set.
pub proof fn lemma_normalized_settable(v: JsonV)
    requires
        normalizable(v),
    ensures
        anthropic_chat::settable_messages(normalized(v)),
{
    reveal_with_fuel(normalizable, 3);
    reveal_with_fuel(normalized, 3);
    match v {
        JsonV::Obj(m) => {
            if m.contains_key("messages"@) && m["messages"@] is Arr {
                let msgs = m["messages"@]->Arr_0;
                let out = normalized_messages(msgs);
                assert forall|i: int| 0 <= i < out.len() implies anthropic_chat::settable(
                    #[trigger] out[i],
                ) by {
                    assert(normalizable_message(msgs[i]));
                    if msgs[i] is Obj {
                        lemma_fixed(msgs[i]);
                    }
                }
            } else {
                assert(normalized(v).array_at("messages"@) is None) by {
                    if m.contains_key("messages"@) {
                        assert(!(normalized(m["messages"@]) is Arr));
                    }
                }
            }
        },
        _ => {},
    }
}

/// Whether a block is one of thinking.
pub open spec fn is_thinking(b: JsonV) -> bool {
    b.str_is("type"@, "thinking"@)
}

/// A value stripped of thinking at every depth. Where the value is an assistant's message,
/// the blocks of thinking in its content go.
pub open spec fn stripped(v: JsonV, assistant: bool) -> JsonV
    decreases v,
{
    match v {
        JsonV::Obj(m) => JsonV::Obj(
            Map::new(
                |k: Seq<char>| m.contains_key(k),
                |k: Seq<char>|
                    if m.contains_key(k) {
                        if k == "messages"@ && m[k] is Arr {
                            JsonV::Arr(stripped_messages(m[k]->Arr_0))
                        } else if k == "content"@ && m[k] is Arr && assistant {
                            JsonV::Arr(stripped_blocks(m[k]->Arr_0))
                        } else {
                            stripped(m[k], false)
                        }
                    } else {
                        JsonV::Null
                    },
            ),
        ),
        JsonV::Arr(a) => JsonV::Arr(
            Seq::new(
                a.len(),
                |i: int|
                    if 0 <= i < a.len() {
                        stripped(a[i], false)
                    } else {
                        JsonV::Null
                    },
            ),
        ),
        other => other,
    }
}

/// Messages stripped, one by one.
pub open spec fn stripped_messages(msgs: Seq<JsonV>) -> Seq<JsonV>
    decreases msgs,
{
    Seq::new(
        msgs.len(),
        |i: int|
            if 0 <= i < msgs.len() {
                stripped(msgs[i], msgs[i].str_is("role"@, "assistant"@))
            } else {
                JsonV::Null
            },
    )
}

/// Blocks without those of thinking, and the others stripped.
pub open spec fn stripped_blocks(blocks: Seq<JsonV>) -> Seq<JsonV>
    decreases blocks,
{
    if blocks.len() == 0 {
        Seq::empty()
    } else {
        let before = stripped_blocks(blocks.drop_last());
        if is_thinking(blocks.last()) {
            before
        } else {
            before.push(stripped(blocks.last(), false))
        }
    }
}

/// A value in which no assistant's message, at any depth, has a block of thinking.
pub open spec fn without_thinking(v: JsonV) -> JsonV {
    stripped(v, false)
}

fn strip(value: &Json, assistant: bool) -> (r: Json)
    ensures
        r@ == stripped(value@, assistant),
    decreases value@,
{
    broadcast use json::group_json;

    match value {
        Json::Obj(o) => {
            let keys = o.keys();
            let ghost all = text::texts(keys@);
            let ghost full = stripped(value@, assistant)->Obj_0;
            let mut out = Object::new();
            let n: usize = keys.len();
            assert(partial(full, all.take(0)) =~= Map::<Seq<char>, JsonV>::empty());
            for i in 0..n
                invariant
                    n == keys@.len(),
                    all == text::texts(keys@),
                    value@ == JsonV::Obj(o@),
                    all.to_set() == o@.dom(),
                    full == stripped(value@, assistant)->Obj_0,
                    out@ == partial(full, all.take(i as int)),
            {
                let key = keys[i].as_str();
                assert(all[i as int] == key@);
                assert(all.contains(all[i as int]));
                assert(o@.contains_key(key@));
                proof {
                    lemma_field_below(value@, key@);
                }
                if let Some(v) = o.get(key) {
                    assert(v@ == o@[key@]);
                    proof {
                        json::lemma_view(*v);
                    }
                    let inner = if let Json::Arr(items) = v {
                        if same(key, "messages") {
                            Json::Arr(strip_messages(items))
                        } else if assistant && same(key, "content") {
                            Json::Arr(strip_blocks(items))
                        } else {
                            strip(v, false)
                        }
                    } else {
                        strip(v, false)
                    };
                    proof {
                        json::lemma_view(inner);
                    }
                    assert(inner@ == full[key@]);
                    out = out.put(key, inner);
                    proof {
                        lemma_partial_step(full, all, i as int);
                    }
                }
            }
            proof {
                assert(all.take(n as int) =~= all);
                assert(partial(full, all) =~= full);
            }
            Json::Obj(out)
        },
        Json::Arr(a) => {
            let ghost all = json::views(a@);
            let ghost full = stripped(value@, assistant)->Arr_0;
            let mut out: Vec<Json> = Vec::new();
            let n: usize = a.len();
            for i in 0..n
                invariant
                    n == a@.len(),
                    all == json::views(a@),
                    value@ == JsonV::Arr(all),
                    full == stripped(value@, assistant)->Arr_0,
                    json::views(out@) == full.take(i as int),
            {
                assert(all[i as int] == a@[i as int]@);
                proof {
                    lemma_element_below(value@, i as int);
                }
                out.push(strip(&a[i], false));
                assert(full.take(i + 1) =~= full.take(i as int).push(full[i as int]));
            }
            assert(full.take(n as int) =~= full);
            Json::Arr(out)
        },
        other => other.clone(),
    }
}

fn strip_messages(msgs: &Vec<Json>) -> (r: Vec<Json>)
    ensures
        json::views(r@) == stripped_messages(json::views(msgs@)),
    decreases json::views(msgs@),
{
    broadcast use json::group_json;

    let ghost all = json::views(msgs@);
    let ghost full = stripped_messages(all);
    let mut out: Vec<Json> = Vec::new();
    let n: usize = msgs.len();
    for i in 0..n
        invariant
            n == msgs@.len(),
            all == json::views(msgs@),
            full == stripped_messages(all),
            json::views(out@) == full.take(i as int),
    {
        assert(all[i as int] == msgs@[i as int]@);
        assert(decreases_to!(all => all[i as int]));
        let assistant = msgs[i].str_is("role", "assistant");
        out.push(strip(&msgs[i], assistant));
        assert(full.take(i + 1) =~= full.take(i as int).push(full[i as int]));
    }
    assert(full.take(n as int) =~= full);
    out
}

fn strip_blocks(blocks: &Vec<Json>) -> (r: Vec<Json>)
    ensures
        json::views(r@) == stripped_blocks(json::views(blocks@)),
    decreases json::views(blocks@),
{
    broadcast use json::group_json;

    let ghost all = json::views(blocks@);
    let mut out: Vec<Json> = Vec::new();
    let n: usize = blocks.len();
    for i in 0..n
        invariant
            n == blocks@.len(),
            all == json::views(blocks@),
            json::views(out@) == stripped_blocks(all.take(i as int)),
    {
        assert(all[i as int] == blocks@[i as int]@);
        assert(decreases_to!(all => all[i as int]));
        assert(all.take(i + 1).drop_last() =~= all.take(i as int));
        if !blocks[i].str_is("type", "thinking") {
            out.push(strip(&blocks[i], false));
        }
    }
    assert(all.take(n as int) =~= all);
    out
}

/// Takes the blocks of thinking out of every assistant's message, at every depth.
pub fn strip_thinking(value: &mut Json)
    ensures
        final(value)@ == without_thinking(old(value)@),
{
    let out = strip(value, false);
    *value = out;
}

/// What Anthropic takes as a message: its role, where it names one, is one that Anthropic
/// knows, and its content is a text or an array.
pub open spec fn is_message(v: JsonV) -> bool {
    &&& match v.str_at("role"@) {
        Some(role) => role == "user"@ || role == "assistant"@,
        None => true,
    }
    &&& match v.get("content"@) {
        Some(c) => c is Str || c is Arr,
        None => false,
    }
}

proof fn lemma_normalized_message(v: JsonV)
    requires
        normalizable_message(v),
    ensures
        is_message(normalized_message(v)),
{
    reveal_strlit("role");
    reveal_strlit("content");
    reveal_strlit("messages");
    assert("role"@.len() == 4 && "content"@.len() == 7 && "messages"@.len() == 8);
    lemma_known_role();
    let fixed = fixed_message(v);
    assert(is_message(fixed)) by {
        assert(with_valid_role(v).get("content"@) == v.get("content"@));
    }
    if v is Obj {
        lemma_fixed(v);
        let m = v->Obj_0;
        let f = fixed->Obj_0;
        if !(m.contains_key("messages"@) && m["messages"@] is Arr) {
            let r = normalized_message(v)->Obj_0;
            reveal_with_fuel(normalized, 2);
            assert(r.contains_key("content"@));
            if !set_right(v, "content"@) {
                assert(r["content"@] == normalized(m["content"@]));
            }
            if r.contains_key("role"@) && !set_right(v, "role"@) {
                assert(m.contains_key("role"@));
                assert(r["role"@] == normalized(m["role"@]));
            }
        }
    }
}

/// Once the messages of a body are fixed, each is one that Anthropic takes.
pub proof fn lemma_normalized_roles(v: JsonV)
    requires
        normalizable(v),
    ensures
        match normalized(v).array_at("messages"@) {
            Some(msgs) => forall|i: int| 0 <= i < msgs.len() ==> is_message(#[trigger] msgs[i]),
            None => true,
        },
{
    reveal_with_fuel(normalizable, 3);
    reveal_with_fuel(normalized, 3);
    match v {
        JsonV::Obj(m) => {
            if m.contains_key("messages"@) && m["messages"@] is Arr {
                let msgs = m["messages"@]->Arr_0;
                let out = normalized_messages(msgs);
                assert forall|i: int| 0 <= i < out.len() implies is_message(
                    #[trigger] out[i],
                ) by {
                    assert(normalizable_message(msgs[i]));
                    lemma_normalized_message(msgs[i]);
                }
            } else {
                assert(normalized(v).array_at("messages"@) is None) by {
                    if m.contains_key("messages"@) {
                        assert(!(normalized(m["messages"@]) is Arr));
                    }
                }
            }
        },
        _ => {},
    }
}

proof fn lemma_stripped_kind(b: JsonV)
    ensures
        is_thinking(stripped(b, false)) == is_thinking(b),
{
    reveal_strlit("type");
    reveal_strlit("messages");
    reveal_strlit("content");
    assert("type"@.len() == 4 && "messages"@.len() == 8 && "content"@.len() == 7);
    reveal_with_fuel(stripped, 2);
}

proof fn lemma_stripped_blocks(blocks: Seq<JsonV>)
    ensures
        forall|i: int|
            0 <= i < stripped_blocks(blocks).len() ==> !is_thinking(
                #[trigger] stripped_blocks(blocks)[i],
            ),
    decreases blocks.len(),
{
    if blocks.len() > 0 {
        lemma_stripped_blocks(blocks.drop_last());
        lemma_stripped_kind(blocks.last());
        let before = stripped_blocks(blocks.drop_last());
        let all = stripped_blocks(blocks);
        assert forall|i: int| 0 <= i < all.len() implies !is_thinking(#[trigger] all[i]) by {
            if i < before.len() {
                assert(all[i] == before[i]);
            } else {
                assert(all[i] == stripped(blocks.last(), false));
            }
        }
    }
}

/// Once thinking is taken out of a body, no message of an assistant in it has a block of
/// thinking.
pub proof fn lemma_no_thinking(v: JsonV, i: int)
    requires
        without_thinking(v).array_at("messages"@) is Some,
        0 <= i < without_thinking(v).array_at("messages"@)->Some_0.len(),
        without_thinking(v).array_at("messages"@)->Some_0[i].str_is("role"@, "assistant"@),
    ensures
        match without_thinking(v).array_at("messages"@)->Some_0[i].array_at("content"@) {
            Some(blocks) => forall|k: int|
                0 <= k < blocks.len() ==> (#[trigger] blocks[k]).str_at("type"@) != Some(
                    "thinking"@,
                ),
            None => true,
        },
{
    reveal_strlit("role");
    reveal_strlit("messages");
    reveal_strlit("content");
    assert("role"@.len() == 4 && "messages"@.len() == 8 && "content"@.len() == 7);
    let m = v->Obj_0;
    let msgs = m["messages"@]->Arr_0;
    assert(v is Obj && m.contains_key("messages"@));
    if m["messages"@] is Arr {
        let out = stripped_messages(msgs);
        assert(without_thinking(v).array_at("messages"@) == Some(out));
        let msg = msgs[i];
        assert(out[i] == stripped(msg, msg.str_is("role"@, "assistant"@)));
        assert(msg is Obj);
        let f = msg->Obj_0;
        assert(out[i]->Obj_0.contains_key("role"@));
        assert(f.contains_key("role"@));
        assert(out[i]->Obj_0["role"@] == stripped(f["role"@], false));
        assert(f["role"@] is Str) by {
            reveal_with_fuel(stripped, 2);
        }
        assert(msg.str_is("role"@, "assistant"@)) by {
            reveal_with_fuel(stripped, 2);
        }
        if f.contains_key("content"@) && f["content"@] is Arr {
            lemma_stripped_blocks(f["content"@]->Arr_0);
            assert(out[i]->Obj_0["content"@] == JsonV::Arr(
                stripped_blocks(f["content"@]->Arr_0),
            ));
        } else if f.contains_key("content"@) {
            assert(!(stripped(f["content"@], false) is Arr)) by {
                reveal_with_fuel(stripped, 2);
            }
        }
    } else {
        assert(!(stripped(m["messages"@], false) is Arr)) by {
            reveal_with_fuel(stripped, 2);
        }
    }
}

} // verus!
