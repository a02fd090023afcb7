//! What the messages of each format say, read straight from their JSON.

use vstd::prelude::*;

use crate::json::{self, JsonV};
use crate::seqs;
use crate::text;

verus! {

/// A call of a tool that an assistant asks for.
pub struct Call {
    pub id: Seq<char>,
    pub name: Seq<char>,
    /// The arguments, as JSON text.
    pub arguments: Seq<char>,
}

/// What a tool gave back for a call.
pub struct Answer {
    pub id: Seq<char>,
    pub text: Seq<char>,
}

/// The text of a block: what stands under "text", or the block itself where it is a string.
pub open spec fn block_words(b: JsonV) -> Seq<char> {
    if b.str_at("text"@) is Some {
        b.str_at("text"@)->0
    } else if b is Str {
        b->Str_0
    } else {
        Seq::empty()
    }
}

pub open spec fn block_words_fn() -> spec_fn(JsonV) -> Seq<char> {
    |b: JsonV| block_words(b)
}

/// The text of a content: a string, or the texts of its blocks one after the other.
pub open spec fn words(content: Option<JsonV>) -> Seq<char> {
    match content {
        Some(JsonV::Str(s)) => s,
        Some(JsonV::Arr(blocks)) => seqs::flat(blocks, block_words_fn()),
        _ => Seq::empty(),
    }
}

/// The call of a block of an Anthropic message.
pub open spec fn call_of_block(b: JsonV) -> Seq<Call> {
    if b.str_at("type"@) == Some("tool_use"@) {
        seq![
            Call {
                id: b.str_or("id"@, ""@),
                name: b.str_or("name"@, ""@),
                arguments: json::wire::json_text(
                    if b.get("input"@) is Some {
                        b.get("input"@)->0
                    } else {
                        json::jobj()
                    },
                ),
            },
        ]
    } else {
        Seq::empty()
    }
}

pub open spec fn call_of_block_fn() -> spec_fn(JsonV) -> Seq<Call> {
    |b: JsonV| call_of_block(b)
}

/// The calls of the content of an Anthropic message.
pub open spec fn calls_in_content(content: Option<JsonV>) -> Seq<Call> {
    match content {
        Some(JsonV::Arr(blocks)) => seqs::flat(blocks, call_of_block_fn()),
        _ => Seq::empty(),
    }
}

/// The answer of a block of an Anthropic message.
pub open spec fn answer_of_block(b: JsonV) -> Seq<Answer> {
    if b.str_at("type"@) == Some("tool_result"@) {
        seq![Answer { id: b.str_or("tool_use_id"@, ""@), text: words(b.get("content"@)) }]
    } else {
        Seq::empty()
    }
}

pub open spec fn answer_of_block_fn() -> spec_fn(JsonV) -> Seq<Answer> {
    |b: JsonV| answer_of_block(b)
}

/// The answers of the content of an Anthropic message.
pub open spec fn answers_in_content(content: Option<JsonV>) -> Seq<Answer> {
    match content {
        Some(JsonV::Arr(blocks)) => seqs::flat(blocks, answer_of_block_fn()),
        _ => Seq::empty(),
    }
}

/// A tool call of a chat message.
pub open spec fn call_of_chat(tc: JsonV) -> Call {
    let f = tc.get_or_null("function"@);
    Call {
        id: tc.str_or("id"@, ""@),
        name: f.str_or("name"@, ""@),
        arguments: f.str_or("arguments"@, "{}"@),
    }
}

pub open spec fn call_of_chat_fn() -> spec_fn(JsonV) -> Seq<Call> {
    |tc: JsonV| seq![call_of_chat(tc)]
}

/// The calls of a chat message.
pub open spec fn calls_of_chat(m: JsonV) -> Seq<Call> {
    match m.array_at("tool_calls"@) {
        Some(tcs) => if m.str_at("role"@) == Some("assistant"@) {
            seqs::flat(tcs, call_of_chat_fn())
        } else {
            Seq::empty()
        },
        None => Seq::empty(),
    }
}

pub open spec fn calls_of_chat_fn() -> spec_fn(JsonV) -> Seq<Call> {
    |m: JsonV| calls_of_chat(m)
}

/// The answer of a chat message.
pub open spec fn answer_of_chat(m: JsonV) -> Seq<Answer> {
    if m.str_at("role"@) == Some("tool"@) {
        seq![Answer { id: m.str_or("tool_call_id"@, ""@), text: m.str_or("content"@, ""@) }]
    } else {
        Seq::empty()
    }
}

pub open spec fn answer_of_chat_fn() -> spec_fn(JsonV) -> Seq<Answer> {
    |m: JsonV| answer_of_chat(m)
}

/// The words of a message of a role.
pub open spec fn words_by(m: JsonV, role: Seq<char>) -> Seq<char> {
    if m.str_at("role"@) == Some(role) {
        words(m.get("content"@))
    } else {
        Seq::empty()
    }
}

pub open spec fn words_by_fn(role: Seq<char>) -> spec_fn(JsonV) -> Seq<char> {
    |m: JsonV| words_by(m, role)
}

/// The call of an item of a Responses request or response.
pub open spec fn call_of_item(item: JsonV) -> Seq<Call> {
    if item.str_at("type"@) == Some("function_call"@) {
        seq![
            Call {
                id: item.str_or("call_id"@, ""@),
                name: item.str_or("name"@, ""@),
                arguments: item.str_or("arguments"@, "{}"@),
            },
        ]
    } else {
        Seq::empty()
    }
}

pub open spec fn call_of_item_fn() -> spec_fn(JsonV) -> Seq<Call> {
    |item: JsonV| call_of_item(item)
}

/// The answer of an item of a Responses request.
pub open spec fn answer_of_item(item: JsonV) -> Seq<Answer> {
    if item.str_at("type"@) == Some("function_call_output"@) {
        seq![Answer { id: item.str_or("call_id"@, ""@), text: item.str_or("output"@, ""@) }]
    } else {
        Seq::empty()
    }
}

pub open spec fn answer_of_item_fn() -> spec_fn(JsonV) -> Seq<Answer> {
    |item: JsonV| answer_of_item(item)
}

/// The elements of an array under a key, none where there is no array.
pub open spec fn list(v: JsonV, key: Seq<char>) -> Seq<JsonV> {
    match v.array_at(key) {
        Some(a) => a,
        None => Seq::empty(),
    }
}

/// The characters of texts are those of the texts put together without a separator.
pub proof fn lemma_joined_chars(parts: Seq<Seq<char>>)
    ensures
        text::joined(parts, ""@) == seqs::flat(parts, |t: Seq<char>| t),
    decreases parts.len(),
{
    reveal_strlit("");
    let f = |t: Seq<char>| t;
    if parts.len() == 1 {
        seqs::lemma_flat_one(parts[0], f);
        assert(parts =~= seq![parts[0]]);
    } else if parts.len() > 1 {
        lemma_joined_chars(parts.drop_last());
        assert(text::joined(parts, ""@) =~= seqs::flat(parts, f));
    }
}

/// What texts that elements give are, put together without a separator.
pub proof fn lemma_joined_flat<A>(
    s: Seq<A>,
    f: spec_fn(A) -> Seq<Seq<char>>,
    g: spec_fn(A) -> Seq<char>,
)
    requires
        forall|i: int|
            0 <= i < s.len() ==> seqs::flat(f(#[trigger] s[i]), |t: Seq<char>| t) == g(s[i]),
    ensures
        text::joined(seqs::flat(s, f), ""@) == seqs::flat(s, g),
{
    lemma_joined_chars(seqs::flat(s, f));
    seqs::lemma_flat_flat(s, f, |t: Seq<char>| t, g);
}

/// The characters of one text, and of none.
pub proof fn lemma_one_text(t: Seq<char>)
    ensures
        seqs::flat(seq![t], |t: Seq<char>| t) == t,
        seqs::flat(Seq::<Seq<char>>::empty(), |t: Seq<char>| t) == Seq::<char>::empty(),
{
    seqs::lemma_flat_one(t, |t: Seq<char>| t);
}

/// The plain text of a content is its words.
pub proof fn lemma_words(content: JsonV)
    ensures
        crate::convert::parts::content_text(content) == words(Some(content)),
{
    reveal_strlit("");
    assert(""@ =~= Seq::<char>::empty());
    match content {
        JsonV::Arr(blocks) => {
            let f = crate::convert::parts::block_text_fn();
            assert forall|i: int| 0 <= i < blocks.len() implies seqs::flat(
                f(#[trigger] blocks[i]),
                |t: Seq<char>| t,
            ) == block_words_fn()(blocks[i]) by {
                lemma_one_text(block_words(blocks[i]));
                let b = blocks[i];
                assert(f(b) =~= if b.str_at("text"@) is Some || b is Str {
                    seq![block_words(b)]
                } else {
                    Seq::empty()
                });
            }
            lemma_joined_flat(blocks, f, block_words_fn());
        },
        _ => {},
    }
}

} // verus!
