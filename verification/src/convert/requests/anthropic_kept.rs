//! What an Anthropic request keeps when it becomes a request of another format.

use vstd::prelude::*;

use super::anthropic_chat;
use super::anthropic_responses;
use super::chat_anthropic;
use crate::convert::parts;
use crate::convert::readings;
use crate::convert::readings::{Answer, Call};
use crate::json::{self, JsonV};
use crate::keys;
use crate::seqs;
use crate::text;

verus! {

/// The role of a message, a user's where none is told.
pub open spec fn role(m: JsonV) -> Seq<char> {
    m.str_or("role"@, "user"@)
}

/// Whether a chat request takes a message for the assistant's.
pub open spec fn speaks_as_assistant(m: JsonV) -> bool {
    role(m) == "assistant"@ || role(m) == "tool"@ || role(m) == "system"@
}

/// The calls that a message asks for.
pub open spec fn calls_asked_fn() -> spec_fn(JsonV) -> Seq<Call> {
    |m: JsonV|
        if speaks_as_assistant(m) {
            readings::calls_in_content(m.get("content"@))
        } else {
            Seq::empty()
        }
}

/// The answers that a message of a user gives.
pub open spec fn answers_given_fn() -> spec_fn(JsonV) -> Seq<Answer> {
    |m: JsonV|
        if role(m) == "user"@ {
            readings::answers_in_content(m.get("content"@))
        } else {
            Seq::empty()
        }
}

/// The words of a block of a user: its text, nothing of an answer, and any other block as JSON.
pub open spec fn words_of_user_block(b: JsonV) -> Seq<char> {
    if b.str_at("type"@) == Some("tool_result"@) {
        Seq::empty()
    } else if b.str_at("type"@) == Some("text"@) {
        b.str_or("text"@, ""@)
    } else {
        json::wire::json_text(b)
    }
}

pub open spec fn words_of_user_block_fn() -> spec_fn(JsonV) -> Seq<char> {
    |b: JsonV| words_of_user_block(b)
}

/// The text of a block of text.
pub open spec fn words_of_text_block_fn() -> spec_fn(JsonV) -> Seq<char> {
    |b: JsonV|
        if b.str_at("type"@) == Some("text"@) {
            b.str_or("text"@, ""@)
        } else {
            Seq::empty()
        }
}

/// The thinking of a block.
pub open spec fn thoughts_of_block_fn() -> spec_fn(JsonV) -> Seq<char> {
    |b: JsonV|
        if b.str_at("type"@) == Some("thinking"@) {
            b.str_or("thinking"@, ""@)
        } else {
            Seq::empty()
        }
}

/// The words of a content whose blocks are read in a way. No content has no words, and a value
/// that is neither a text nor blocks is read as JSON.
pub open spec fn content_words(
    content: Option<JsonV>,
    block: spec_fn(JsonV) -> Seq<char>,
) -> Seq<char> {
    match content {
        None => Seq::empty(),
        Some(JsonV::Null) => Seq::empty(),
        Some(JsonV::Str(s)) => s,
        Some(JsonV::Arr(blocks)) => seqs::flat(blocks, block),
        Some(c) => json::wire::json_text(c),
    }
}

/// The words that a message of a user, or of a role that is not known, says.
pub open spec fn said_by_user_fn() -> spec_fn(JsonV) -> Seq<char> {
    |m: JsonV|
        if speaks_as_assistant(m) {
            Seq::empty()
        } else if role(m) == "user"@ {
            content_words(m.get("content"@), words_of_user_block_fn())
        } else {
            content_words(m.get("content"@), readings::block_words_fn())
        }
}

/// The words that a message of an assistant says.
pub open spec fn said_by_assistant_fn() -> spec_fn(JsonV) -> Seq<char> {
    |m: JsonV|
        if speaks_as_assistant(m) {
            content_words(m.get("content"@), words_of_text_block_fn())
        } else {
            Seq::empty()
        }
}

proof fn lemma_one_block(t: Seq<char>)
    ensures
        seqs::flat(
            seq![parts::text_block_v("text"@, t)],
            words_of_text_block_fn(),
        ) == t,
        seqs::flat(seq![parts::text_block_v("text"@, t)], words_of_user_block_fn()) == t,
        seqs::flat(seq![parts::text_block_v("text"@, t)], readings::block_words_fn()) == t,
        seqs::flat(seq![parts::text_block_v("text"@, t)], readings::call_of_block_fn()) == Seq::<
            Call,
        >::empty(),
        seqs::flat(seq![parts::text_block_v("text"@, t)], readings::answer_of_block_fn()) == Seq::<
            Answer,
        >::empty(),
{
    keys::lemma_request_keys();
    let b = parts::text_block_v("text"@, t);
    seqs::lemma_flat_one(b, words_of_text_block_fn());
    seqs::lemma_flat_one(b, words_of_user_block_fn());
    seqs::lemma_flat_one(b, readings::block_words_fn());
    seqs::lemma_flat_one(b, readings::call_of_block_fn());
    seqs::lemma_flat_one(b, readings::answer_of_block_fn());
}

/// A message with a valid role and content says what it said.
proof fn lemma_normal(m: JsonV)
    requires
        anthropic_chat::settable(m),
    ensures
        ({
            let n = anthropic_chat::normal_message(m);
            &&& role(n) == (if speaks_as_assistant(m) {
                "assistant"@
            } else {
                role(m)
            })
            &&& n.get("content"@) is Some
            &&& n.get("content"@)->0 is Str || n.get("content"@)->0 is Arr
            &&& content_words(n.get("content"@), words_of_text_block_fn()) == content_words(
                m.get("content"@),
                words_of_text_block_fn(),
            )
            &&& content_words(n.get("content"@), words_of_user_block_fn()) == content_words(
                m.get("content"@),
                words_of_user_block_fn(),
            )
            &&& content_words(n.get("content"@), readings::block_words_fn()) == content_words(
                m.get("content"@),
                readings::block_words_fn(),
            )
            &&& readings::calls_in_content(n.get("content"@)) == readings::calls_in_content(
                m.get("content"@),
            )
            &&& readings::answers_in_content(n.get("content"@)) == readings::answers_in_content(
                m.get("content"@),
            )
        }),
{
    keys::lemma_request_keys();
    reveal_strlit("");
    assert(""@ =~= Seq::<char>::empty());
    match m.get("content"@) {
        Some(c) => {
            lemma_one_block(json::wire::json_text(c));
        },
        None => {},
    }
}

pub(crate) proof fn lemma_texts_under(b: JsonV, key: Seq<char>)
    ensures
        seqs::flat(json::arrays::text_under(b, key), |t: Seq<char>| t) == b.str_or(key, ""@),
{
    reveal_strlit("");
    assert(""@ =~= Seq::<char>::empty());
    readings::lemma_one_text(b.str_or(key, ""@));
}

pub(crate) proof fn lemma_typed(blocks: Seq<JsonV>)
    ensures
        text::joined(
            seqs::flat(blocks, anthropic_chat::typed_text_fn("text"@, "text"@)),
            ""@,
        ) == seqs::flat(blocks, words_of_text_block_fn()),
        text::joined(
            seqs::flat(blocks, anthropic_chat::typed_text_fn("thinking"@, "thinking"@)),
            ""@,
        ) == seqs::flat(blocks, thoughts_of_block_fn()),
        anthropic_chat::user_text(blocks) == seqs::flat(blocks, words_of_user_block_fn()),
{
    let f = anthropic_chat::typed_text_fn("text"@, "text"@);
    assert forall|i: int| 0 <= i < blocks.len() implies seqs::flat(
        f(#[trigger] blocks[i]),
        |t: Seq<char>| t,
    ) == words_of_text_block_fn()(blocks[i]) by {
        lemma_texts_under(blocks[i], "text"@);
        readings::lemma_one_text(Seq::empty());
    }
    readings::lemma_joined_flat(blocks, f, words_of_text_block_fn());
    let g = anthropic_chat::typed_text_fn("thinking"@, "thinking"@);
    assert forall|i: int| 0 <= i < blocks.len() implies seqs::flat(
        g(#[trigger] blocks[i]),
        |t: Seq<char>| t,
    ) == thoughts_of_block_fn()(blocks[i]) by {
        lemma_texts_under(blocks[i], "thinking"@);
        readings::lemma_one_text(Seq::empty());
    }
    readings::lemma_joined_flat(blocks, g, thoughts_of_block_fn());
    let h = anthropic_chat::user_block_text_fn();
    assert forall|i: int| 0 <= i < blocks.len() implies seqs::flat(
        h(#[trigger] blocks[i]),
        |t: Seq<char>| t,
    ) == words_of_user_block_fn()(blocks[i]) by {
        lemma_texts_under(blocks[i], "text"@);
        readings::lemma_one_text(json::wire::json_text(blocks[i]));
    }
    readings::lemma_joined_flat(blocks, h, words_of_user_block_fn());
}

proof fn lemma_chat_calls(blocks: Seq<JsonV>)
    ensures
        seqs::flat(
            seqs::flat(blocks, anthropic_chat::block_tool_call_fn()),
            readings::call_of_chat_fn(),
        ) == seqs::flat(blocks, readings::call_of_block_fn()),
{
    keys::lemma_request_keys();
    let f = anthropic_chat::block_tool_call_fn();
    let g = readings::call_of_chat_fn();
    assert forall|i: int| 0 <= i < blocks.len() implies seqs::flat(f(#[trigger] blocks[i]), g)
        == readings::call_of_block_fn()(blocks[i]) by {
        let b = blocks[i];
        if b.str_at("type"@) == Some("tool_use"@) {
            seqs::lemma_flat_one(f(b)[0], g);
            assert(f(b) =~= seq![f(b)[0]]);
        }
    }
    seqs::lemma_flat_flat(blocks, f, g, readings::call_of_block_fn());
}

/// The chat message of an assistant.
proof fn lemma_assistant(content: Option<JsonV>, thinking: Seq<char>)
    requires
        content is Some,
        content->0 is Str || content->0 is Arr,
    ensures
        ({
            let m = anthropic_chat::chat_assistant(content, thinking);
            &&& m.str_at("role"@) == Some("assistant"@)
            &&& readings::calls_of_chat(m) == readings::calls_in_content(content)
            &&& readings::answer_of_chat(m) == Seq::<Answer>::empty()
            &&& readings::words(m.get("content"@)) == content_words(
                content,
                words_of_text_block_fn(),
            )
            &&& content->0 is Arr && seqs::flat(content->0->Arr_0, thoughts_of_block_fn()).len()
                > 0 ==> m.str_at("reasoning_content"@) == Some(
                seqs::flat(content->0->Arr_0, thoughts_of_block_fn()),
            )
        }),
{
    keys::lemma_request_keys();
    reveal_strlit("");
    assert(""@ =~= Seq::<char>::empty());
    match content {
        Some(JsonV::Arr(blocks)) => {
            lemma_typed(blocks);
            lemma_chat_calls(blocks);
            let calls = seqs::flat(blocks, anthropic_chat::block_tool_call_fn());
            if calls.len() == 0 {
                assert(seqs::flat(calls, readings::call_of_chat_fn()) =~= Seq::<Call>::empty());
            }
            let thoughts = anthropic_chat::assistant_thoughts(content);
            if thoughts.len() == 0 {
                assert(text::joined(thoughts, ""@) =~= Seq::<char>::empty());
            }
        },
        Some(JsonV::Str(s)) => {
            assert(text::joined(seq![s], ""@) == s);
        },
        _ => {},
    }
}

/// The chat messages of the answers of a user.
proof fn lemma_tool_messages(blocks: Seq<JsonV>)
    ensures
        ({
            let ms = seqs::flat(blocks, anthropic_chat::block_tool_message_fn());
            &&& seqs::flat(ms, readings::answer_of_chat_fn()) == seqs::flat(
                blocks,
                readings::answer_of_block_fn(),
            )
            &&& seqs::flat(ms, readings::calls_of_chat_fn()) == Seq::<Call>::empty()
            &&& seqs::flat(ms, readings::words_by_fn("user"@)) == Seq::<char>::empty()
            &&& seqs::flat(ms, readings::words_by_fn("assistant"@)) == Seq::<char>::empty()
            &&& seqs::flat(ms, readings::words_by_fn("system"@)) == Seq::<char>::empty()
            &&& ms.len() == 0 ==> seqs::flat(blocks, readings::answer_of_block_fn()) == Seq::<
                Answer,
            >::empty()
        }),
{
    keys::lemma_request_keys();
    reveal_strlit("");
    assert(""@ =~= Seq::<char>::empty());
    let f = anthropic_chat::block_tool_message_fn();
    let none_calls = |b: JsonV| Seq::<Call>::empty();
    let none_words = |b: JsonV| Seq::<char>::empty();
    assert forall|i: int| 0 <= i < blocks.len() implies ({
        let b = #[trigger] blocks[i];
        &&& seqs::flat(f(b), readings::answer_of_chat_fn()) == readings::answer_of_block_fn()(b)
        &&& seqs::flat(f(b), readings::calls_of_chat_fn()) == none_calls(b)
        &&& seqs::flat(f(b), readings::words_by_fn("user"@)) == none_words(b)
        &&& seqs::flat(f(b), readings::words_by_fn("assistant"@)) == none_words(b)
        &&& seqs::flat(f(b), readings::words_by_fn("system"@)) == none_words(b)
    }) by {
        let b = blocks[i];
        if b.str_at("type"@) == Some("tool_result"@) {
            let m = f(b)[0];
            assert(f(b) =~= seq![m]);
            readings::lemma_words(b.get_or_null("content"@));
            seqs::lemma_flat_one(m, readings::answer_of_chat_fn());
            seqs::lemma_flat_one(m, readings::calls_of_chat_fn());
            seqs::lemma_flat_one(m, readings::words_by_fn("user"@));
            seqs::lemma_flat_one(m, readings::words_by_fn("assistant"@));
            seqs::lemma_flat_one(m, readings::words_by_fn("system"@));
        }
    }
    let ms = seqs::flat(blocks, f);
    seqs::lemma_flat_flat(
        blocks,
        f,
        readings::answer_of_chat_fn(),
        readings::answer_of_block_fn(),
    );
    seqs::lemma_flat_flat(blocks, f, readings::calls_of_chat_fn(), none_calls);
    seqs::lemma_flat_flat(blocks, f, readings::words_by_fn("user"@), none_words);
    seqs::lemma_flat_flat(blocks, f, readings::words_by_fn("assistant"@), none_words);
    seqs::lemma_flat_flat(blocks, f, readings::words_by_fn("system"@), none_words);
    seqs::lemma_flat_none(blocks, none_calls);
    seqs::lemma_flat_none(blocks, none_words);
    if ms.len() == 0 {
        assert(seqs::flat(ms, readings::answer_of_chat_fn()) =~= Seq::<Answer>::empty());
    }
}

/// A message of a user with a content.
proof fn lemma_user_message(c: JsonV)
    ensures
        ({
            let ms = seq![parts::message_v("user"@, c)];
            &&& seqs::flat(ms, readings::calls_of_chat_fn()) == Seq::<Call>::empty()
            &&& seqs::flat(ms, readings::answer_of_chat_fn()) == Seq::<Answer>::empty()
            &&& seqs::flat(ms, readings::words_by_fn("user"@)) == readings::words(Some(c))
            &&& seqs::flat(ms, readings::words_by_fn("assistant"@)) == Seq::<char>::empty()
            &&& seqs::flat(ms, readings::words_by_fn("system"@)) == Seq::<char>::empty()
        }),
{
    keys::lemma_request_keys();
    parts::lemma_message("user"@, c);
    let m = parts::message_v("user"@, c);
    seqs::lemma_flat_one(m, readings::calls_of_chat_fn());
    seqs::lemma_flat_one(m, readings::answer_of_chat_fn());
    seqs::lemma_flat_one(m, readings::words_by_fn("user"@));
    seqs::lemma_flat_one(m, readings::words_by_fn("assistant"@));
    seqs::lemma_flat_one(m, readings::words_by_fn("system"@));
    assert(m.get("tool_calls"@) is None);
}

/// What the chat messages of one message say.
spec fn says_the_same(ms: Seq<JsonV>, m: JsonV) -> bool {
    &&& seqs::flat(ms, readings::calls_of_chat_fn()) == calls_asked_fn()(m)
    &&& seqs::flat(ms, readings::answer_of_chat_fn()) == answers_given_fn()(m)
    &&& seqs::flat(ms, readings::words_by_fn("user"@)) == said_by_user_fn()(m)
    &&& seqs::flat(ms, readings::words_by_fn("assistant"@)) == said_by_assistant_fn()(m)
    &&& seqs::flat(ms, readings::words_by_fn("system"@)) == Seq::<char>::empty()
}

proof fn lemma_message(m: JsonV, thinking: Seq<char>)
    requires
        anthropic_chat::settable(m),
    ensures
        says_the_same(anthropic_chat::chat_messages_fn(thinking)(m), m),
{
    keys::lemma_request_keys();
    reveal_strlit("");
    assert(""@ =~= Seq::<char>::empty());
    lemma_normal(m);
    let n = anthropic_chat::normal_message(m);
    let content = n.get("content"@);
    let ms = anthropic_chat::chat_messages(n, thinking);
    if speaks_as_assistant(m) {
        lemma_assistant(content, thinking);
        let a = ms[0];
        assert(ms =~= seq![a]);
        seqs::lemma_flat_one(a, readings::calls_of_chat_fn());
        seqs::lemma_flat_one(a, readings::answer_of_chat_fn());
        seqs::lemma_flat_one(a, readings::words_by_fn("user"@));
        seqs::lemma_flat_one(a, readings::words_by_fn("assistant"@));
        seqs::lemma_flat_one(a, readings::words_by_fn("system"@));
    } else if role(m) == "user"@ {
        match content {
            Some(JsonV::Arr(blocks)) => {
                lemma_tool_messages(blocks);
                lemma_typed(blocks);
                let results = seqs::flat(blocks, anthropic_chat::block_tool_message_fn());
                let t = anthropic_chat::user_text(blocks);
                let more = anthropic_chat::user_message_if_any(t);
                lemma_user_message(JsonV::Str(t));
                seqs::lemma_flat_add(results, more, readings::calls_of_chat_fn());
                seqs::lemma_flat_add(results, more, readings::answer_of_chat_fn());
                seqs::lemma_flat_add(results, more, readings::words_by_fn("user"@));
                seqs::lemma_flat_add(results, more, readings::words_by_fn("assistant"@));
                seqs::lemma_flat_add(results, more, readings::words_by_fn("system"@));
                if t.len() == 0 {
                    assert(t =~= Seq::<char>::empty());
                }
                assert(seqs::flat(ms, readings::words_by_fn("user"@)) =~= t);
                assert(seqs::flat(ms, readings::calls_of_chat_fn()) =~= Seq::<Call>::empty());
                assert(seqs::flat(ms, readings::answer_of_chat_fn()) =~= seqs::flat(
                    blocks,
                    readings::answer_of_block_fn(),
                ));
                assert(seqs::flat(ms, readings::words_by_fn("assistant"@))
                    =~= Seq::<char>::empty());
                assert(seqs::flat(ms, readings::words_by_fn("system"@)) =~= Seq::<char>::empty());
            },
            Some(c) => {
                lemma_user_message(c);
            },
            None => {},
        }
    } else {
        lemma_user_message(content->0);
    }
}

/// The messages of a chat request made from an Anthropic one.
proof fn lemma_messages(body: JsonV, model: Seq<char>)
    ensures
        readings::list(anthropic_chat::anthropic_as_chat(body, model), "messages"@)
            == anthropic_chat::chat_messages_of_anthropic(body),
        readings::list(body, "messages"@) == chat_anthropic::messages_of(body),
{
    keys::lemma_request_keys();
}

/// The message with the system prompt.
proof fn lemma_system(body: JsonV)
    ensures
        ({
            let ms = anthropic_chat::system_message(body);
            &&& seqs::flat(ms, readings::calls_of_chat_fn()) == Seq::<Call>::empty()
            &&& seqs::flat(ms, readings::answer_of_chat_fn()) == Seq::<Answer>::empty()
            &&& seqs::flat(ms, readings::words_by_fn("user"@)) == Seq::<char>::empty()
            &&& seqs::flat(ms, readings::words_by_fn("assistant"@)) == Seq::<char>::empty()
            &&& seqs::flat(ms, readings::words_by_fn("system"@)) == readings::words(
                body.get("system"@),
            )
        }),
{
    keys::lemma_request_keys();
    match body.get("system"@) {
        Some(system) => {
            readings::lemma_words(system);
            let t = parts::content_text(system);
            let m = parts::message_v("system"@, JsonV::Str(t));
            seqs::lemma_flat_one(m, readings::calls_of_chat_fn());
            seqs::lemma_flat_one(m, readings::answer_of_chat_fn());
            seqs::lemma_flat_one(m, readings::words_by_fn("user"@));
            seqs::lemma_flat_one(m, readings::words_by_fn("assistant"@));
            seqs::lemma_flat_one(m, readings::words_by_fn("system"@));
            if t.len() == 0 {
                assert(t =~= Seq::<char>::empty());
            }
        },
        None => {},
    }
}

/// A chat request made from an Anthropic one asks for the same calls of tools, in their order:
/// the id, the name and the arguments of each are kept.
pub proof fn lemma_anthropic_to_chat_calls(body: JsonV, model: Seq<char>)
    requires
        anthropic_chat::settable_messages(body),
    ensures
        seqs::flat(
            readings::list(anthropic_chat::anthropic_as_chat(body, model), "messages"@),
            readings::calls_of_chat_fn(),
        ) == seqs::flat(readings::list(body, "messages"@), calls_asked_fn()),
{
    lemma_messages(body, model);
    lemma_system(body);
    let f = anthropic_chat::chat_messages_fn(anthropic_chat::thinking_type(body));
    let msgs = readings::list(body, "messages"@);
    assert forall|i: int| 0 <= i < msgs.len() implies seqs::flat(
        f(#[trigger] msgs[i]),
        readings::calls_of_chat_fn(),
    ) == calls_asked_fn()(msgs[i]) by {
        lemma_message(msgs[i], anthropic_chat::thinking_type(body));
    }
    seqs::lemma_flat_flat(msgs, f, readings::calls_of_chat_fn(), calls_asked_fn());
    seqs::lemma_flat_add(
        anthropic_chat::system_message(body),
        seqs::flat(msgs, f),
        readings::calls_of_chat_fn(),
    );
    assert(seqs::flat(
        readings::list(anthropic_chat::anthropic_as_chat(body, model), "messages"@),
        readings::calls_of_chat_fn(),
    ) =~= seqs::flat(msgs, calls_asked_fn()));
}

/// What tools gave back reaches the chat request whole and in order: the id of the call and the
/// text of every answer are kept.
pub proof fn lemma_anthropic_to_chat_answers(body: JsonV, model: Seq<char>)
    requires
        anthropic_chat::settable_messages(body),
    ensures
        seqs::flat(
            readings::list(anthropic_chat::anthropic_as_chat(body, model), "messages"@),
            readings::answer_of_chat_fn(),
        ) == seqs::flat(readings::list(body, "messages"@), answers_given_fn()),
{
    lemma_messages(body, model);
    lemma_system(body);
    let f = anthropic_chat::chat_messages_fn(anthropic_chat::thinking_type(body));
    let msgs = readings::list(body, "messages"@);
    assert forall|i: int| 0 <= i < msgs.len() implies seqs::flat(
        f(#[trigger] msgs[i]),
        readings::answer_of_chat_fn(),
    ) == answers_given_fn()(msgs[i]) by {
        lemma_message(msgs[i], anthropic_chat::thinking_type(body));
    }
    seqs::lemma_flat_flat(msgs, f, readings::answer_of_chat_fn(), answers_given_fn());
    seqs::lemma_flat_add(
        anthropic_chat::system_message(body),
        seqs::flat(msgs, f),
        readings::answer_of_chat_fn(),
    );
    assert(seqs::flat(
        readings::list(anthropic_chat::anthropic_as_chat(body, model), "messages"@),
        readings::answer_of_chat_fn(),
    ) =~= seqs::flat(msgs, answers_given_fn()));
}

/// What is said reaches the chat request whole and in order, each under the role that said it:
/// the system prompt, the words of the users and those of the assistant.
pub proof fn lemma_anthropic_to_chat_words(body: JsonV, model: Seq<char>)
    requires
        anthropic_chat::settable_messages(body),
    ensures
        ({
            let out = readings::list(anthropic_chat::anthropic_as_chat(body, model), "messages"@);
            let msgs = readings::list(body, "messages"@);
            &&& seqs::flat(out, readings::words_by_fn("user"@)) == seqs::flat(
                msgs,
                said_by_user_fn(),
            )
            &&& seqs::flat(out, readings::words_by_fn("assistant"@)) == seqs::flat(
                msgs,
                said_by_assistant_fn(),
            )
            &&& seqs::flat(out, readings::words_by_fn("system"@)) == readings::words(
                body.get("system"@),
            )
        }),
{
    lemma_messages(body, model);
    lemma_system(body);
    let f = anthropic_chat::chat_messages_fn(anthropic_chat::thinking_type(body));
    let msgs = readings::list(body, "messages"@);
    let none = |m: JsonV| Seq::<char>::empty();
    assert forall|i: int| 0 <= i < msgs.len() implies ({
        let m = #[trigger] msgs[i];
        &&& seqs::flat(f(m), readings::words_by_fn("user"@)) == said_by_user_fn()(m)
        &&& seqs::flat(f(m), readings::words_by_fn("assistant"@)) == said_by_assistant_fn()(m)
        &&& seqs::flat(f(m), readings::words_by_fn("system"@)) == none(m)
    }) by {
        lemma_message(msgs[i], anthropic_chat::thinking_type(body));
    }
    let first = anthropic_chat::system_message(body);
    let rest = seqs::flat(msgs, f);
    seqs::lemma_flat_flat(msgs, f, readings::words_by_fn("user"@), said_by_user_fn());
    seqs::lemma_flat_flat(msgs, f, readings::words_by_fn("assistant"@), said_by_assistant_fn());
    seqs::lemma_flat_flat(msgs, f, readings::words_by_fn("system"@), none);
    seqs::lemma_flat_none(msgs, none);
    seqs::lemma_flat_add(first, rest, readings::words_by_fn("user"@));
    seqs::lemma_flat_add(first, rest, readings::words_by_fn("assistant"@));
    seqs::lemma_flat_add(first, rest, readings::words_by_fn("system"@));
    assert(seqs::flat(first + rest, readings::words_by_fn("user"@)) =~= seqs::flat(
        msgs,
        said_by_user_fn(),
    ));
    assert(seqs::flat(first + rest, readings::words_by_fn("assistant"@)) =~= seqs::flat(
        msgs,
        said_by_assistant_fn(),
    ));
    assert(seqs::flat(first + rest, readings::words_by_fn("system"@)) =~= readings::words(
        body.get("system"@),
    ));
}

/// The thinking of an assistant reaches the chat request as its reasoning: all of the thinking
/// of a message, where it has any.
pub proof fn lemma_anthropic_to_chat_thinking(m: JsonV, blocks: Seq<JsonV>, thinking: Seq<char>)
    requires
        m.str_at("role"@) == Some("assistant"@),
        m.get("content"@) == Some(JsonV::Arr(blocks)),
        seqs::flat(blocks, thoughts_of_block_fn()).len() > 0,
    ensures
        ({
            let ms = anthropic_chat::chat_messages_fn(thinking)(m);
            &&& ms.len() == 1
            &&& ms[0].str_at("reasoning_content"@) == Some(
                seqs::flat(blocks, thoughts_of_block_fn()),
            )
        }),
{
    keys::lemma_request_keys();
    lemma_normal(m);
    lemma_assistant(m.get("content"@), thinking);
}

/// Every tool reaches the chat request, in its place: one that is a function already as it is,
/// and any other with its name, its description and its schema.
pub proof fn lemma_anthropic_to_chat_tools(body: JsonV, model: Seq<char>)
    ensures
        ({
            let out = anthropic_chat::anthropic_as_chat(body, model).array_at("tools"@);
            &&& out is Some == (body.array_at("tools"@) is Some)
            &&& body.array_at("tools"@) is Some ==> {
                let tools = body.array_at("tools"@)->0;
                &&& out->0.len() == tools.len()
                &&& forall|i: int|
                    0 <= i < tools.len() ==> {
                        let t = #[trigger] out->0[i];
                        let f = t.get_or_null("function"@);
                        &&& t.str_at("type"@) == Some("function"@)
                        &&& tools[i].str_at("type"@) == Some("function"@) ==> t == tools[i]
                        &&& tools[i].str_at("type"@) != Some("function"@) ==> {
                            &&& f.str_at("name"@) == Some(tools[i].str_or("name"@, ""@))
                            &&& f.str_at("description"@) == Some(
                                tools[i].str_or("description"@, ""@),
                            )
                            &&& tools[i].get("input_schema"@) is Some ==> f.get("parameters"@)
                                == tools[i].get("input_schema"@)
                            &&& tools[i].get("input_schema"@) is None ==> f.get_or_null(
                                "parameters"@,
                            ).str_at("type"@) == Some("object"@)
                        }
                    }
            }
        }),
{
    keys::lemma_request_keys();
    reveal_strlit("type");
    reveal_strlit("properties");
    assert("type"@.len() == 4 && "properties"@.len() == 10);
}

/// The limits and the wishes of a request reach the chat request: the number of tokens, the
/// temperature, and the tool to choose.
pub proof fn lemma_anthropic_to_chat_settings(body: JsonV, model: Seq<char>)
    ensures
        ({
            let out = anthropic_chat::anthropic_as_chat(body, model);
            let wish = body.get("tool_choice"@);
            let choice = out.get("tool_choice"@);
            &&& out.get("max_tokens"@) == body.get("max_tokens"@)
            &&& out.get("temperature"@) == body.get("temperature"@)
            &&& choice is Some == (wish is Some)
            &&& wish == Some(JsonV::Str("any"@)) ==> choice == Some(JsonV::Str("required"@))
            &&& wish == Some(JsonV::Str("none"@)) ==> choice == Some(JsonV::Str("none"@))
            &&& wish is Some && wish != Some(JsonV::Str("any"@)) && wish != Some(
                JsonV::Str("none"@),
            ) && wish->0.str_at("type"@) != Some("tool"@) ==> choice == Some(JsonV::Str("auto"@))
            &&& wish is Some && wish->0.str_at("type"@) == Some("tool"@) ==> {
                &&& choice->0.str_at("type"@) == Some("function"@)
                &&& choice->0.get_or_null("function"@).str_at("name"@) == Some(
                    wish->0.str_or("name"@, ""@),
                )
            }
        }),
{
    keys::lemma_request_keys();
    lemma_choices();
}

proof fn lemma_choices()
    ensures
        "any"@ != "none"@,
        "any"@ != "auto"@,
        "none"@ != "auto"@,
{
    reveal_strlit("any");
    reveal_strlit("none");
    reveal_strlit("auto");
    assert("any"@.len() == 3 && "none"@.len() == 4 && "auto"@.len() == 4);
    assert("none"@[0] == 'n' && "auto"@[0] == 'a');
}

/// The calls that a message of the assistant asks for.
pub open spec fn calls_of_assistant_fn() -> spec_fn(JsonV) -> Seq<Call> {
    |m: JsonV|
        if role(m) == "assistant"@ {
            readings::calls_in_content(m.get("content"@))
        } else {
            Seq::empty()
        }
}

/// The words of a message that is not the assistant's, in a Responses request.
pub open spec fn told_by_user_fn() -> spec_fn(JsonV) -> Seq<char> {
    |m: JsonV|
        if role(m) == "assistant"@ {
            Seq::empty()
        } else {
            match m.get("content"@) {
                Some(JsonV::Arr(blocks)) => if role(m) == "user"@ {
                    seqs::flat(blocks, words_of_user_block_fn())
                } else {
                    seqs::flat(blocks, readings::block_words_fn())
                },
                content => readings::words(content),
            }
        }
}

/// The text of a block that is neither thinking nor a tool's.
pub open spec fn words_of_answer_block_fn() -> spec_fn(JsonV) -> Seq<char> {
    |b: JsonV|
        if b.str_at("type"@) == Some("tool_use"@) || b.str_at("type"@) == Some("thinking"@) {
            Seq::empty()
        } else {
            b.str_or("text"@, ""@)
        }
}

/// The words of a message of the assistant, in a Responses request.
pub open spec fn told_by_assistant_fn() -> spec_fn(JsonV) -> Seq<char> {
    |m: JsonV|
        if role(m) == "assistant"@ {
            match m.get("content"@) {
                Some(JsonV::Arr(blocks)) => seqs::flat(blocks, words_of_answer_block_fn()),
                Some(JsonV::Str(s)) => s,
                _ => Seq::empty(),
            }
        } else {
            Seq::empty()
        }
}

/// Whether items say this.
pub open spec fn items_say(
    items: Seq<JsonV>,
    calls: Seq<Call>,
    answers: Seq<Answer>,
    user: Seq<char>,
    assistant: Seq<char>,
) -> bool {
    &&& seqs::flat(items, readings::call_of_item_fn()) == calls
    &&& seqs::flat(items, readings::answer_of_item_fn()) == answers
    &&& seqs::flat(items, readings::words_by_fn("user"@)) == user
    &&& seqs::flat(items, readings::words_by_fn("assistant"@)) == assistant
}

pub(crate) proof fn lemma_items_add(
    a: Seq<JsonV>,
    b: Seq<JsonV>,
    c: (Seq<Call>, Seq<Call>),
    d: (Seq<Answer>, Seq<Answer>),
    u: (Seq<char>, Seq<char>),
    w: (Seq<char>, Seq<char>),
)
    requires
        items_say(a, c.0, d.0, u.0, w.0),
        items_say(b, c.1, d.1, u.1, w.1),
    ensures
        items_say(a + b, c.0 + c.1, d.0 + d.1, u.0 + u.1, w.0 + w.1),
{
    seqs::lemma_flat_add(a, b, readings::call_of_item_fn());
    seqs::lemma_flat_add(a, b, readings::answer_of_item_fn());
    seqs::lemma_flat_add(a, b, readings::words_by_fn("user"@));
    seqs::lemma_flat_add(a, b, readings::words_by_fn("assistant"@));
}

pub(crate) proof fn lemma_one_item(item: JsonV)
    ensures
        items_say(
            seq![item],
            readings::call_of_item(item),
            readings::answer_of_item(item),
            readings::words_by(item, "user"@),
            readings::words_by(item, "assistant"@),
        ),
{
    seqs::lemma_flat_one(item, readings::call_of_item_fn());
    seqs::lemma_flat_one(item, readings::answer_of_item_fn());
    seqs::lemma_flat_one(item, readings::words_by_fn("user"@));
    seqs::lemma_flat_one(item, readings::words_by_fn("assistant"@));
}

pub(crate) proof fn lemma_no_items()
    ensures
        items_say(Seq::empty(), Seq::empty(), Seq::empty(), Seq::empty(), Seq::empty()),
{
}

/// The items of the answers of a user.
proof fn lemma_outputs(blocks: Seq<JsonV>)
    ensures
        items_say(
            seqs::flat(blocks, anthropic_responses::block_output_fn()),
            Seq::empty(),
            seqs::flat(blocks, readings::answer_of_block_fn()),
            Seq::empty(),
            Seq::empty(),
        ),
    decreases blocks.len(),
{
    keys::lemma_request_keys();
    reveal_strlit("");
    assert(""@ =~= Seq::<char>::empty());
    if blocks.len() == 0 {
        lemma_no_items();
    } else {
        let first = blocks.drop_last();
        lemma_outputs(first);
        let b = blocks.last();
        let items = anthropic_responses::block_output(b);
        let answers = readings::answer_of_block(b);
        if b.str_at("type"@) == Some("tool_result"@) {
            let item = items[0];
            assert(items =~= seq![item]);
            readings::lemma_words(b.get_or_null("content"@));
            lemma_one_item(item);
            assert(readings::answer_of_item(item) =~= answers);
        } else {
            lemma_no_items();
        }
        lemma_items_add(
            seqs::flat(first, anthropic_responses::block_output_fn()),
            items,
            (Seq::empty(), Seq::empty()),
            (seqs::flat(first, readings::answer_of_block_fn()), answers),
            (Seq::empty(), Seq::empty()),
            (Seq::empty(), Seq::empty()),
        );
        assert(Seq::<Call>::empty() + Seq::<Call>::empty() =~= Seq::<Call>::empty());
        assert(Seq::<char>::empty() + Seq::<char>::empty() =~= Seq::<char>::empty());
    }
}

/// The items of the calls of an assistant.
proof fn lemma_function_calls(blocks: Seq<JsonV>)
    ensures
        items_say(
            seqs::flat(blocks, anthropic_responses::block_function_call_fn()),
            seqs::flat(blocks, readings::call_of_block_fn()),
            Seq::empty(),
            Seq::empty(),
            Seq::empty(),
        ),
    decreases blocks.len(),
{
    keys::lemma_request_keys();
    if blocks.len() == 0 {
        lemma_no_items();
    } else {
        let first = blocks.drop_last();
        lemma_function_calls(first);
        let b = blocks.last();
        let items = anthropic_responses::block_function_call(b);
        let calls = readings::call_of_block(b);
        if b.str_at("type"@) == Some("tool_use"@) {
            let item = items[0];
            assert(items =~= seq![item]);
            lemma_one_item(item);
            assert(readings::call_of_item(item) =~= calls);
        } else {
            lemma_no_items();
        }
        lemma_items_add(
            seqs::flat(first, anthropic_responses::block_function_call_fn()),
            items,
            (seqs::flat(first, readings::call_of_block_fn()), calls),
            (Seq::empty(), Seq::empty()),
            (Seq::empty(), Seq::empty()),
            (Seq::empty(), Seq::empty()),
        );
        assert(Seq::<Answer>::empty() + Seq::<Answer>::empty() =~= Seq::<Answer>::empty());
        assert(Seq::<char>::empty() + Seq::<char>::empty() =~= Seq::<char>::empty());
    }
}

proof fn lemma_output_texts(blocks: Seq<JsonV>)
    ensures
        seqs::flat(
            seqs::flat(blocks, anthropic_responses::output_text_fn()),
            readings::block_words_fn(),
        ) == seqs::flat(blocks, words_of_answer_block_fn()),
{
    keys::lemma_request_keys();
    reveal_strlit("");
    assert(""@ =~= Seq::<char>::empty());
    let f = anthropic_responses::output_text_fn();
    assert forall|i: int| 0 <= i < blocks.len() implies seqs::flat(
        f(#[trigger] blocks[i]),
        readings::block_words_fn(),
    ) == words_of_answer_block_fn()(blocks[i]) by {
        let b = blocks[i];
        if f(b).len() > 0 {
            assert(f(b) =~= seq![f(b)[0]]);
            seqs::lemma_flat_one(f(b)[0], readings::block_words_fn());
        }
    }
    seqs::lemma_flat_flat(blocks, f, readings::block_words_fn(), words_of_answer_block_fn());
}

proof fn lemma_assistant_items(content: Option<JsonV>)
    ensures
        items_say(
            anthropic_responses::assistant_items(
                anthropic_responses::assistant_output(content),
                anthropic_responses::assistant_calls(content),
            ),
            readings::calls_in_content(content),
            Seq::empty(),
            Seq::empty(),
            match content {
                Some(JsonV::Arr(blocks)) => seqs::flat(blocks, words_of_answer_block_fn()),
                Some(JsonV::Str(s)) => s,
                _ => Seq::empty(),
            },
        ),
{
    keys::lemma_request_keys();
    let texts = anthropic_responses::assistant_output(content);
    let calls = anthropic_responses::assistant_calls(content);
    let said = match content {
        Some(JsonV::Arr(blocks)) => seqs::flat(blocks, words_of_answer_block_fn()),
        Some(JsonV::Str(s)) => s,
        _ => Seq::empty(),
    };
    assert(seqs::flat(texts, readings::block_words_fn()) == said) by {
        match content {
            Some(JsonV::Arr(blocks)) => {
                lemma_output_texts(blocks);
            },
            Some(JsonV::Str(s)) => {
                if s.len() > 0 {
                    seqs::lemma_flat_one(texts[0], readings::block_words_fn());
                    assert(texts =~= seq![texts[0]]);
                } else {
                    assert(s =~= Seq::<char>::empty());
                }
            },
            _ => {},
        }
    }
    match content {
        Some(JsonV::Arr(blocks)) => {
            lemma_function_calls(blocks);
        },
        _ => {
            lemma_no_items();
        },
    }
    if texts.len() > 0 {
        let m = parts::message_v("assistant"@, JsonV::Arr(texts));
        parts::lemma_message("assistant"@, JsonV::Arr(texts));
        lemma_one_item(m);
        assert(m.get("type"@) is None);
        lemma_items_add(
            seq![m],
            calls,
            (Seq::empty(), readings::calls_in_content(content)),
            (Seq::empty(), Seq::empty()),
            (Seq::empty(), Seq::empty()),
            (said, Seq::empty()),
        );
        assert(Seq::<Call>::empty() + readings::calls_in_content(content)
            =~= readings::calls_in_content(content));
        assert(Seq::<Answer>::empty() + Seq::<Answer>::empty() =~= Seq::<Answer>::empty());
        assert(Seq::<char>::empty() + Seq::<char>::empty() =~= Seq::<char>::empty());
        assert(said + Seq::<char>::empty() =~= said);
    } else {
        assert(said =~= Seq::<char>::empty());
    }
}

pub(crate) proof fn lemma_user_item(c: JsonV)
    ensures
        items_say(
            seq![parts::message_v("user"@, c)],
            Seq::empty(),
            Seq::empty(),
            readings::words(Some(c)),
            Seq::empty(),
        ),
{
    keys::lemma_request_keys();
    parts::lemma_message("user"@, c);
    lemma_one_item(parts::message_v("user"@, c));
    assert(parts::message_v("user"@, c).get("type"@) is None);
}

proof fn lemma_message_items(m: JsonV)
    ensures
        items_say(
            anthropic_responses::message_items(m),
            calls_of_assistant_fn()(m),
            answers_given_fn()(m),
            told_by_user_fn()(m),
            told_by_assistant_fn()(m),
        ),
{
    keys::lemma_request_keys();
    reveal_strlit("");
    assert(""@ =~= Seq::<char>::empty());
    let content = m.get("content"@);
    if role(m) == "assistant"@ {
        lemma_assistant_items(content);
    } else if role(m) == "user"@ {
        match content {
            Some(JsonV::Arr(blocks)) => {
                lemma_outputs(blocks);
                lemma_typed(blocks);
                let t = anthropic_chat::user_text(blocks);
                let more = anthropic_chat::user_message_if_any(t);
                if t.len() > 0 {
                    lemma_user_item(JsonV::Str(t));
                } else {
                    lemma_no_items();
                    assert(t =~= Seq::<char>::empty());
                }
                let answers = seqs::flat(blocks, readings::answer_of_block_fn());
                lemma_items_add(
                    seqs::flat(blocks, anthropic_responses::block_output_fn()),
                    more,
                    (Seq::empty(), Seq::empty()),
                    (answers, Seq::empty()),
                    (Seq::empty(), t),
                    (Seq::empty(), Seq::empty()),
                );
                assert(Seq::<Call>::empty() + Seq::<Call>::empty() =~= Seq::<Call>::empty());
                assert(answers + Seq::<Answer>::empty() =~= answers);
                assert(Seq::<char>::empty() + t =~= t);
                assert(Seq::<char>::empty() + Seq::<char>::empty() =~= Seq::<char>::empty());
            },
            Some(c) => {
                lemma_user_item(c);
            },
            None => {
                lemma_user_item(JsonV::Str(""@));
            },
        }
    } else {
        match content {
            Some(c) => {
                lemma_user_item(c);
            },
            None => {
                lemma_no_items();
            },
        }
    }
}

proof fn lemma_all_items(msgs: Seq<JsonV>)
    ensures
        items_say(
            seqs::flat(msgs, anthropic_responses::message_items_fn()),
            seqs::flat(msgs, calls_of_assistant_fn()),
            seqs::flat(msgs, answers_given_fn()),
            seqs::flat(msgs, told_by_user_fn()),
            seqs::flat(msgs, told_by_assistant_fn()),
        ),
    decreases msgs.len(),
{
    if msgs.len() == 0 {
        lemma_no_items();
    } else {
        let first = msgs.drop_last();
        let m = msgs.last();
        lemma_all_items(first);
        lemma_message_items(m);
        lemma_items_add(
            seqs::flat(first, anthropic_responses::message_items_fn()),
            anthropic_responses::message_items(m),
            (seqs::flat(first, calls_of_assistant_fn()), calls_of_assistant_fn()(m)),
            (seqs::flat(first, answers_given_fn()), answers_given_fn()(m)),
            (seqs::flat(first, told_by_user_fn()), told_by_user_fn()(m)),
            (seqs::flat(first, told_by_assistant_fn()), told_by_assistant_fn()(m)),
        );
    }
}

/// A Responses request made from an Anthropic one holds what the messages say, whole and in
/// order: every call with its id, its name and its arguments, every answer of a tool with the
/// id of its call and its text, the words of the users, those of the assistant, and the system
/// prompt as the instructions.
pub proof fn lemma_anthropic_to_responses_messages(body: JsonV, model: Seq<char>)
    ensures
        ({
            let out = anthropic_responses::anthropic_as_responses(body, model);
            let items = readings::list(out, "input"@);
            let msgs = readings::list(body, "messages"@);
            &&& seqs::flat(items, readings::call_of_item_fn()) == seqs::flat(
                msgs,
                calls_of_assistant_fn(),
            )
            &&& seqs::flat(items, readings::answer_of_item_fn()) == seqs::flat(
                msgs,
                answers_given_fn(),
            )
            &&& seqs::flat(items, readings::words_by_fn("user"@)) == seqs::flat(
                msgs,
                told_by_user_fn(),
            )
            &&& seqs::flat(items, readings::words_by_fn("assistant"@)) == seqs::flat(
                msgs,
                told_by_assistant_fn(),
            )
            &&& readings::words(out.get("instructions"@)) == readings::words(body.get("system"@))
        }),
{
    keys::lemma_request_keys();
    lemma_all_items(readings::list(body, "messages"@));
    match body.get("system"@) {
        Some(system) => {
            readings::lemma_words(system);
            if parts::content_text(system).len() == 0 {
                assert(parts::content_text(system) =~= Seq::<char>::empty());
            }
        },
        None => {},
    }
}

/// For every answer of a tool in a user's message there is an output in the Responses request,
/// with the id of the call and the text of the answer.
pub proof fn lemma_answer_reaches_responses(body: JsonV, model: Seq<char>, i: int, k: int)
    requires
        0 <= i < readings::list(body, "messages"@).len(),
        role(readings::list(body, "messages"@)[i]) == "user"@,
        0 <= k < readings::list(readings::list(body, "messages"@)[i], "content"@).len(),
        readings::list(readings::list(body, "messages"@)[i], "content"@)[k].str_at("type"@)
            == Some("tool_result"@),
    ensures
        ({
            let b = readings::list(readings::list(body, "messages"@)[i], "content"@)[k];
            let items = readings::list(
                anthropic_responses::anthropic_as_responses(body, model),
                "input"@,
            );
            exists|j: int|
                {
                    &&& 0 <= j < items.len()
                    &&& (#[trigger] items[j]).str_at("type"@) == Some("function_call_output"@)
                    &&& items[j].str_at("call_id"@) == Some(b.str_or("tool_use_id"@, ""@))
                    &&& items[j].str_at("output"@) == Some(readings::words(b.get("content"@)))
                }
        }),
{
    keys::lemma_request_keys();
    reveal_strlit("");
    assert(""@ =~= Seq::<char>::empty());
    let msgs = readings::list(body, "messages"@);
    let m = msgs[i];
    let blocks = readings::list(m, "content"@);
    let b = blocks[k];
    let items = readings::list(
        anthropic_responses::anthropic_as_responses(body, model),
        "input"@,
    );
    let item = anthropic_responses::block_output(b)[0];
    readings::lemma_words(b.get_or_null("content"@));
    seqs::lemma_flat_holds(blocks, anthropic_responses::block_output_fn(), k, 0);
    let outputs = seqs::flat(blocks, anthropic_responses::block_output_fn());
    let p = choose|p: int| 0 <= p < outputs.len() && #[trigger] outputs[p] == item;
    assert(anthropic_responses::message_items(m)[p] == item);
    seqs::lemma_flat_holds(msgs, anthropic_responses::message_items_fn(), i, p);
    let j = choose|j: int| 0 <= j < items.len() && #[trigger] items[j] == item;
    assert(items[j].str_at("call_id"@) == Some(b.str_or("tool_use_id"@, ""@)));
}

/// Every tool reaches the Responses request, in its place: one that is a function already as it
/// is, and any other with its name, its description and its schema. The limits and the wishes
/// reach it too.
pub proof fn lemma_anthropic_to_responses_tools(body: JsonV, model: Seq<char>)
    ensures
        ({
            let r = anthropic_responses::anthropic_as_responses(body, model);
            let out = r.array_at("tools"@);
            let wish = body.get("tool_choice"@);
            let choice = r.get("tool_choice"@);
            &&& out is Some == (body.array_at("tools"@) is Some)
            &&& body.array_at("tools"@) is Some ==> {
                let tools = body.array_at("tools"@)->0;
                &&& out->0.len() == tools.len()
                &&& forall|i: int|
                    0 <= i < tools.len() ==> {
                        let t = #[trigger] out->0[i];
                        &&& t.str_at("type"@) == Some("function"@)
                        &&& tools[i].str_at("type"@) == Some("function"@) ==> t == tools[i]
                        &&& tools[i].str_at("type"@) != Some("function"@) ==> {
                            &&& t.str_at("name"@) == Some(tools[i].str_or("name"@, ""@))
                            &&& t.str_at("description"@) == Some(
                                tools[i].str_or("description"@, ""@),
                            )
                            &&& tools[i].get("input_schema"@) is Some ==> t.get("parameters"@)
                                == tools[i].get("input_schema"@)
                        }
                    }
            }
            &&& r.get("max_output_tokens"@) == body.get("max_tokens"@)
            &&& r.get("temperature"@) == body.get("temperature"@)
            &&& choice is Some == (wish is Some)
            &&& wish == Some(JsonV::Str("any"@)) ==> choice == Some(JsonV::Str("required"@))
            &&& wish == Some(JsonV::Str("none"@)) ==> choice == Some(JsonV::Str("none"@))
            &&& wish is Some && wish != Some(JsonV::Str("any"@)) && wish != Some(
                JsonV::Str("none"@),
            ) && wish->0.str_at("type"@) != Some("tool"@) ==> choice == Some(JsonV::Str("auto"@))
            &&& wish is Some && wish->0.str_at("type"@) == Some("tool"@) ==> {
                &&& choice->0.str_at("type"@) == Some("function"@)
                &&& choice->0.str_at("name"@) == Some(wish->0.str_or("name"@, ""@))
            }
        }),
{
    keys::lemma_request_keys();
    lemma_choices();
}

} // verus!
