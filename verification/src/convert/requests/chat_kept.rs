//! What a chat request keeps when it becomes a request of another format.

use vstd::prelude::*;

use super::anthropic_kept;
use super::anthropic_responses;
use super::chat_anthropic;
use super::chat_responses;
use crate::convert::parts;
use crate::convert::readings;
use crate::convert::readings::{Answer, Call};
use crate::convert::responses::kept;
use crate::json::{self, JsonV};
use crate::keys;
use crate::seqs;
use crate::text;

verus! {

/// The role of a message, a user's where none is told.
pub open spec fn role(m: JsonV) -> Seq<char> {
    m.str_or("role"@, "user"@)
}

/// Whether a message counts as a user's: it is neither the system's, nor the assistant's, nor
/// a tool's.
pub open spec fn is_users(m: JsonV) -> bool {
    role(m) != "system"@ && role(m) != "assistant"@ && role(m) != "tool"@
}

/// The tools that the blocks of a message ask for.
pub open spec fn tools_asked_fn() -> spec_fn(JsonV) -> Seq<JsonV> {
    |m: JsonV|
        if m.str_at("role"@) == Some("assistant"@) {
            seqs::flat(readings::list(m, "content"@), kept::if_tool_fn())
        } else {
            Seq::empty()
        }
}

/// The answers in the blocks of a message of a user.
pub open spec fn answers_told_fn() -> spec_fn(JsonV) -> Seq<Answer> {
    |m: JsonV|
        if m.str_at("role"@) == Some("user"@) {
            readings::answers_in_content(m.get("content"@))
        } else {
            Seq::empty()
        }
}

/// The text of a message of a user.
pub open spec fn text_of_user_fn() -> spec_fn(JsonV) -> Seq<char> {
    |m: JsonV|
        if is_users(m) {
            m.str_or("content"@, ""@)
        } else {
            Seq::empty()
        }
}

/// The text of a message of the assistant.
pub open spec fn text_of_assistant_fn() -> spec_fn(JsonV) -> Seq<char> {
    |m: JsonV|
        if role(m) == "assistant"@ {
            m.str_or("content"@, ""@)
        } else {
            Seq::empty()
        }
}

/// The text of a message of the system.
pub open spec fn texts_of_system_fn() -> spec_fn(JsonV) -> Seq<Seq<char>> {
    |m: JsonV|
        if m.str_at("role"@) == Some("system"@) && m.str_at("content"@) is Some {
            seq![m.str_at("content"@)->0]
        } else {
            Seq::empty()
        }
}

/// What Anthropic messages say.
spec fn messages_say(
    ms: Seq<JsonV>,
    tools: Seq<JsonV>,
    answers: Seq<Answer>,
    user: Seq<char>,
    assistant: Seq<char>,
) -> bool {
    &&& seqs::flat(ms, tools_asked_fn()) == tools
    &&& seqs::flat(ms, answers_told_fn()) == answers
    &&& seqs::flat(ms, readings::words_by_fn("user"@)) == user
    &&& seqs::flat(ms, readings::words_by_fn("assistant"@)) == assistant
}

proof fn lemma_one_message(m: JsonV)
    ensures
        messages_say(
            seq![m],
            tools_asked_fn()(m),
            answers_told_fn()(m),
            readings::words_by(m, "user"@),
            readings::words_by(m, "assistant"@),
        ),
{
    seqs::lemma_flat_one(m, tools_asked_fn());
    seqs::lemma_flat_one(m, answers_told_fn());
    seqs::lemma_flat_one(m, readings::words_by_fn("user"@));
    seqs::lemma_flat_one(m, readings::words_by_fn("assistant"@));
}

proof fn lemma_messages_add(
    a: Seq<JsonV>,
    b: Seq<JsonV>,
    c: (Seq<JsonV>, Seq<JsonV>),
    d: (Seq<Answer>, Seq<Answer>),
    u: (Seq<char>, Seq<char>),
    w: (Seq<char>, Seq<char>),
)
    requires
        messages_say(a, c.0, d.0, u.0, w.0),
        messages_say(b, c.1, d.1, u.1, w.1),
    ensures
        messages_say(a + b, c.0 + c.1, d.0 + d.1, u.0 + u.1, w.0 + w.1),
{
    seqs::lemma_flat_add(a, b, tools_asked_fn());
    seqs::lemma_flat_add(a, b, answers_told_fn());
    seqs::lemma_flat_add(a, b, readings::words_by_fn("user"@));
    seqs::lemma_flat_add(a, b, readings::words_by_fn("assistant"@));
}

/// The tools that the calls of a message become.
spec fn tools_of_fn() -> spec_fn(JsonV) -> Seq<JsonV> {
    |m: JsonV|
        if role(m) == "assistant"@ {
            readings::list(m, "tool_calls"@).map_values(chat_anthropic::tool_use_of_call_fn())
        } else {
            Seq::empty()
        }
}

/// The tools ask for the calls.
proof fn lemma_tools_of(m: JsonV)
    ensures
        kept::ask_for(tools_of_fn()(m), readings::calls_of_chat(m)),
        forall|i: int|
            0 <= i < tools_of_fn()(m).len() ==> (#[trigger] tools_of_fn()(m)[i]).str_at("type"@)
                == Some("tool_use"@),
{
    keys::lemma_request_keys();
    let tcs = readings::list(m, "tool_calls"@);
    let calls = Seq::new(tcs.len(), |i: int| readings::call_of_chat(tcs[i]));
    seqs::lemma_flat_each(tcs, readings::call_of_chat_fn(), calls);
    if role(m) == "assistant"@ {
        assert(m.str_at("role"@) == Some("assistant"@));
    } else {
        assert(readings::calls_of_chat(m) =~= Seq::empty());
    }
}

proof fn lemma_assistant(m: JsonV)
    requires
        role(m) == "assistant"@,
    ensures
        ({
            let a = chat_anthropic::anthropic_assistant(m);
            messages_say(
                seq![a],
                tools_of_fn()(m),
                Seq::empty(),
                Seq::empty(),
                m.str_or("content"@, ""@),
            )
        }),
{
    keys::lemma_request_keys();
    reveal_strlit("");
    assert(""@ =~= Seq::<char>::empty());
    lemma_tools_of(m);
    let a = chat_anthropic::anthropic_assistant(m);
    let said = m.str_or("content"@, ""@);
    let tools = tools_of_fn()(m);
    let first = chat_anthropic::text_block_if_any("text"@, m.str_at("content"@));
    let blocks = chat_anthropic::assistant_blocks(m);
    assert(blocks =~= first + tools);
    parts::lemma_message("assistant"@, JsonV::Arr(blocks));
    parts::lemma_message("assistant"@, JsonV::Str(said));
    lemma_one_message(a);
    seqs::lemma_flat_add(first, tools, kept::if_tool_fn());
    seqs::lemma_flat_add(first, tools, readings::block_words_fn());
    seqs::lemma_flat_each(tools, kept::if_tool_fn(), tools);
    assert forall|i: int| 0 <= i < tools.len() implies readings::block_words_fn()(
        #[trigger] tools[i],
    ) == Seq::<char>::empty() by {
        keys::lemma_tool_block_keys();
        let tc = readings::list(m, "tool_calls"@)[i];
        assert(tools[i] == chat_anthropic::tool_use_of_call(tc));
        assert(tools[i].get("text"@) is None);
    }
    seqs::lemma_flat_none(tools, readings::block_words_fn());
    if said.len() > 0 {
        let b = first[0];
        assert(first =~= seq![b]);
        seqs::lemma_flat_one(b, kept::if_tool_fn());
        seqs::lemma_flat_one(b, readings::block_words_fn());
    } else {
        assert(first =~= Seq::empty());
        assert(said =~= Seq::empty());
    }
    assert(seqs::flat(blocks, kept::if_tool_fn()) =~= tools);
    assert(seqs::flat(blocks, readings::block_words_fn()) =~= said);
    if blocks.len() == 0 {
        assert(tools =~= Seq::empty());
        assert(readings::list(a, "content"@) =~= Seq::empty());
    }
}

proof fn lemma_message(m: JsonV)
    ensures
        messages_say(
            chat_anthropic::anthropic_message(m),
            tools_of_fn()(m),
            readings::answer_of_chat(m),
            text_of_user_fn()(m),
            text_of_assistant_fn()(m),
        ),
{
    keys::lemma_request_keys();
    reveal_strlit("");
    assert(""@ =~= Seq::<char>::empty());
    if role(m) == "system"@ {
    } else if role(m) == "assistant"@ {
        lemma_assistant(m);
    } else if role(m) == "tool"@ {
        let id = m.str_or("tool_call_id"@, ""@);
        let t = m.str_or("content"@, ""@);
        let b = chat_anthropic::tool_result_v(id, t);
        let r = chat_anthropic::tool_result_message_v(id, t);
        parts::lemma_message("user"@, JsonV::Arr(seq![b]));
        lemma_one_message(r);
        seqs::lemma_flat_one(b, readings::answer_of_block_fn());
        seqs::lemma_flat_one(b, readings::block_words_fn());
        assert(readings::answers_in_content(r.get("content"@)) =~= readings::answer_of_chat(m));
    } else {
        let t = JsonV::Str(m.str_or("content"@, ""@));
        parts::lemma_message("user"@, t);
        lemma_one_message(parts::message_v("user"@, t));
    }
}

proof fn lemma_all_messages(msgs: Seq<JsonV>)
    ensures
        messages_say(
            seqs::flat(msgs, chat_anthropic::anthropic_message_fn()),
            seqs::flat(msgs, tools_of_fn()),
            seqs::flat(msgs, readings::answer_of_chat_fn()),
            seqs::flat(msgs, text_of_user_fn()),
            seqs::flat(msgs, text_of_assistant_fn()),
        ),
        kept::ask_for(
            seqs::flat(msgs, tools_of_fn()),
            seqs::flat(msgs, readings::calls_of_chat_fn()),
        ),
    decreases msgs.len(),
{
    if msgs.len() > 0 {
        let first = msgs.drop_last();
        let m = msgs.last();
        lemma_all_messages(first);
        lemma_message(m);
        lemma_messages_add(
            seqs::flat(first, chat_anthropic::anthropic_message_fn()),
            chat_anthropic::anthropic_message(m),
            (seqs::flat(first, tools_of_fn()), tools_of_fn()(m)),
            (seqs::flat(first, readings::answer_of_chat_fn()), readings::answer_of_chat(m)),
            (seqs::flat(first, text_of_user_fn()), text_of_user_fn()(m)),
            (seqs::flat(first, text_of_assistant_fn()), text_of_assistant_fn()(m)),
        );
        lemma_tools_of(m);
        let tools = seqs::flat(msgs, tools_of_fn());
        let calls = seqs::flat(msgs, readings::calls_of_chat_fn());
        let n = seqs::flat(first, tools_of_fn()).len();
        assert forall|i: int| 0 <= i < calls.len() implies kept::asks(
            #[trigger] tools[i],
            calls[i],
        ) by {
            if i < n {
                assert(tools[i] == seqs::flat(first, tools_of_fn())[i]);
                assert(calls[i] == seqs::flat(first, readings::calls_of_chat_fn())[i]);
            } else {
                assert(tools[i] == tools_of_fn()(m)[i - n]);
                assert(calls[i] == readings::calls_of_chat(m)[i - n]);
            }
        }
    }
}

/// An Anthropic request made from a chat request holds what the messages say, whole and in
/// order: every call with its id, its name and the value of its arguments, every answer of a
/// tool with the id of its call and its text, the words of the users and those of the
/// assistant. The texts of the system, a line each, are its system prompt.
pub proof fn lemma_chat_to_anthropic_messages(body: JsonV, model: Seq<char>)
    ensures
        ({
            let out = chat_anthropic::chat_as_anthropic(body, model);
            let ms = readings::list(out, "messages"@);
            let msgs = readings::list(body, "messages"@);
            let system = seqs::flat(msgs, texts_of_system_fn());
            &&& kept::ask_for(
                seqs::flat(ms, tools_asked_fn()),
                seqs::flat(msgs, readings::calls_of_chat_fn()),
            )
            &&& seqs::flat(ms, answers_told_fn()) == seqs::flat(
                msgs,
                readings::answer_of_chat_fn(),
            )
            &&& seqs::flat(ms, readings::words_by_fn("user"@)) == seqs::flat(
                msgs,
                text_of_user_fn(),
            )
            &&& seqs::flat(ms, readings::words_by_fn("assistant"@)) == seqs::flat(
                msgs,
                text_of_assistant_fn(),
            )
            &&& out.get("system"@) == if system.len() > 0 {
                Some(JsonV::Str(text::joined(system, "\n"@)))
            } else {
                None
            }
        }),
{
    keys::lemma_request_keys();
    let msgs = readings::list(body, "messages"@);
    lemma_all_messages(msgs);
    assert forall|i: int| 0 <= i < msgs.len() implies chat_anthropic::system_text_fn()(
        #[trigger] msgs[i],
    ) == texts_of_system_fn()(msgs[i]) by {}
    seqs::lemma_flat_same(msgs, chat_anthropic::system_text_fn(), texts_of_system_fn());
}

/// Every tool reaches the Anthropic request, in its place, with its name, its description and
/// its schema, and so do the limits: the number of tokens, the temperature, the share of
/// likely words, what to stop at, and the metadata.
pub proof fn lemma_chat_to_anthropic_tools(body: JsonV, model: Seq<char>)
    ensures
        ({
            let r = chat_anthropic::chat_as_anthropic(body, model);
            let out = r.array_at("tools"@);
            let stop = body.get("stop"@);
            &&& out is Some == (body.array_at("tools"@) is Some)
            &&& body.array_at("tools"@) is Some ==> {
                let tools = body.array_at("tools"@)->0;
                &&& out->0.len() == tools.len()
                &&& forall|i: int|
                    0 <= i < tools.len() ==> {
                        let t = #[trigger] out->0[i];
                        let f = if tools[i].get("function"@) is Some {
                            tools[i].get("function"@)->0
                        } else {
                            tools[i]
                        };
                        &&& t.str_at("name"@) == Some(f.str_or("name"@, ""@))
                        &&& t.str_at("description"@) == Some(f.str_or("description"@, ""@))
                        &&& f.get("parameters"@) is Some ==> t.get("input_schema"@) == f.get(
                            "parameters"@,
                        )
                        &&& f.get("parameters"@) is None && f.get("input_schema"@) is Some
                            ==> t.get("input_schema"@) == f.get("input_schema"@)
                    }
            }
            &&& r.get("max_tokens"@) == body.get("max_tokens"@)
            &&& r.get("temperature"@) == body.get("temperature"@)
            &&& r.get("top_p"@) == body.get("top_p"@)
            &&& r.get("metadata"@) == body.get("metadata"@)
            &&& r.get("stop_sequences"@) is Some == (stop is Some)
            &&& stop is Some && stop->0 is Arr ==> r.get("stop_sequences"@) == stop
            &&& stop is Some && !(stop->0 is Arr) ==> r.array_at("stop_sequences"@) == Some(
                seq![stop->0],
            )
        }),
{
    keys::lemma_request_keys();
}

/// The text of a value: a string as it is, another value as JSON, nothing where there is none.
pub open spec fn plain(v: Option<JsonV>) -> Seq<char> {
    match v {
        Some(JsonV::Str(s)) => s,
        Some(v) => json::wire::json_text(v),
        None => Seq::empty(),
    }
}

/// The answer of a chat message, whatever its content is.
pub open spec fn plain_answer_fn() -> spec_fn(JsonV) -> Seq<Answer> {
    |m: JsonV|
        if role(m) == "tool"@ {
            seq![Answer { id: m.str_or("tool_call_id"@, ""@), text: plain(m.get("content"@)) }]
        } else {
            Seq::empty()
        }
}

/// Whether the system has told the instructions.
pub open spec fn has_instructions(msgs: Seq<JsonV>) -> bool {
    exists|i: int|
        0 <= i < msgs.len() && #[trigger] is_instruction(msgs[i])
}

/// Whether a message holds instructions.
pub open spec fn is_instruction(m: JsonV) -> bool {
    m.str_at("role"@) == Some("system"@) && plain(m.get("content"@)).len() > 0
}

/// The words of the users: those of their messages, and those of the system once it has told
/// the instructions.
pub open spec fn users_words(msgs: Seq<JsonV>) -> Seq<char>
    decreases msgs.len(),
{
    if msgs.len() == 0 {
        Seq::empty()
    } else {
        let m = msgs.last();
        users_words(msgs.drop_last()) + if is_users(m) {
            readings::words(m.get("content"@))
        } else if role(m) == "system"@ && has_instructions(msgs.drop_last()) {
            plain(m.get("content"@))
        } else {
            Seq::empty()
        }
    }
}

proof fn lemma_instructions(msgs: Seq<JsonV>)
    ensures
        chat_responses::instructions_of(msgs) is Some == has_instructions(msgs),
        forall|i: int|
            0 <= i < msgs.len() && #[trigger] is_instruction(msgs[i]) && !has_instructions(
                msgs.take(i),
            ) ==> chat_responses::instructions_of(msgs) == Some(plain(msgs[i].get("content"@))),
    decreases msgs.len(),
{
    reveal_strlit("");
    assert(""@ =~= Seq::<char>::empty());
    if msgs.len() > 0 {
        let first = msgs.drop_last();
        let m = msgs.last();
        lemma_instructions(first);
        assert(chat_responses::message_text(m) == plain(m.get("content"@)));
        if has_instructions(first) {
            let i = choose|i: int| 0 <= i < first.len() && #[trigger] is_instruction(first[i]);
            assert(is_instruction(msgs[i]));
        }
        if is_instruction(m) {
            assert(is_instruction(msgs[msgs.len() - 1]));
        }
        if has_instructions(msgs) {
            let i = choose|i: int| 0 <= i < msgs.len() && #[trigger] is_instruction(msgs[i]);
            if i < first.len() {
                assert(is_instruction(first[i]));
            }
        }
        assert forall|i: int|
            0 <= i < msgs.len() && #[trigger] is_instruction(msgs[i]) && !has_instructions(
                msgs.take(i),
            ) implies chat_responses::instructions_of(msgs) == Some(
            plain(msgs[i].get("content"@)),
        ) by {
            if i < first.len() {
                assert(first.take(i) =~= msgs.take(i));
                assert(is_instruction(first[i]));
            } else {
                assert(msgs.take(i) =~= first);
            }
        }
    }
}

proof fn lemma_chat_items(m: JsonV, instructed: bool)
    ensures
        anthropic_kept::items_say(
            chat_responses::chat_items(m, instructed),
            readings::calls_of_chat(m),
            plain_answer_fn()(m),
            if is_users(m) {
                readings::words(m.get("content"@))
            } else if role(m) == "system"@ && instructed {
                plain(m.get("content"@))
            } else {
                Seq::empty()
            },
            text_of_assistant_fn()(m),
        ),
{
    keys::lemma_request_keys();
    reveal_strlit("");
    assert(""@ =~= Seq::<char>::empty());
    anthropic_kept::lemma_no_items();
    assert(chat_responses::message_text(m) == plain(m.get("content"@)));
    if role(m) == "system"@ {
        if instructed {
            anthropic_kept::lemma_user_item(JsonV::Str(plain(m.get("content"@))));
        }
    } else if role(m) == "assistant"@ {
        let texts = chat_anthropic::text_block_if_any("output_text"@, m.str_at("content"@));
        let items = chat_responses::calls_of_assistant(m);
        let said = m.str_or("content"@, ""@);
        let tcs = readings::list(m, "tool_calls"@);
        let calls = Seq::new(tcs.len(), |i: int| readings::call_of_chat(tcs[i]));
        seqs::lemma_flat_each(tcs, readings::call_of_chat_fn(), calls);
        assert(readings::calls_of_chat(m) =~= calls);
        assert(items.len() == tcs.len());
        assert forall|i: int| 0 <= i < items.len() implies readings::call_of_item_fn()(
            #[trigger] items[i],
        ) == seq![calls[i]] && readings::answer_of_item_fn()(items[i]) == Seq::<Answer>::empty()
            && readings::words_by_fn("user"@)(items[i]) == Seq::<char>::empty()
            && readings::words_by_fn("assistant"@)(items[i]) == Seq::<char>::empty() by {
            assert(readings::call_of_item(items[i]) =~= seq![calls[i]]);
        }
        seqs::lemma_flat_each(items, readings::call_of_item_fn(), calls);
        seqs::lemma_flat_none(items, readings::answer_of_item_fn());
        seqs::lemma_flat_none(items, readings::words_by_fn("user"@));
        seqs::lemma_flat_none(items, readings::words_by_fn("assistant"@));
        if said.len() > 0 {
            let b = parts::text_block_v("output_text"@, said);
            let a = parts::message_v("assistant"@, JsonV::Arr(texts));
            assert(texts =~= seq![b]);
            seqs::lemma_flat_one(b, readings::block_words_fn());
            parts::lemma_message("assistant"@, JsonV::Arr(texts));
            anthropic_kept::lemma_one_item(a);
            assert(a.get("type"@) is None);
            anthropic_kept::lemma_items_add(
                seq![a],
                items,
                (Seq::empty(), calls),
                (Seq::empty(), Seq::empty()),
                (Seq::empty(), Seq::empty()),
                (said, Seq::empty()),
            );
            assert(Seq::<Call>::empty() + calls =~= calls);
            assert(Seq::<Answer>::empty() + Seq::<Answer>::empty() =~= Seq::<Answer>::empty());
            assert(Seq::<char>::empty() + Seq::<char>::empty() =~= Seq::<char>::empty());
            assert(said + Seq::<char>::empty() =~= said);
        } else {
            assert(said =~= Seq::<char>::empty());
        }
    } else if role(m) == "tool"@ {
        let item = anthropic_responses::function_output_v(
            m.str_or("tool_call_id"@, ""@),
            plain(m.get("content"@)),
        );
        anthropic_kept::lemma_one_item(item);
        assert(readings::answer_of_item(item) =~= plain_answer_fn()(m));
    } else {
        anthropic_kept::lemma_user_item(
            match m.get("content"@) {
                Some(c) => c,
                None => JsonV::Str(""@),
            },
        );
    }
}

proof fn lemma_all_chat_items(msgs: Seq<JsonV>)
    ensures
        anthropic_kept::items_say(
            chat_responses::all_chat_items(msgs),
            seqs::flat(msgs, readings::calls_of_chat_fn()),
            seqs::flat(msgs, plain_answer_fn()),
            users_words(msgs),
            seqs::flat(msgs, text_of_assistant_fn()),
        ),
    decreases msgs.len(),
{
    if msgs.len() == 0 {
        anthropic_kept::lemma_no_items();
    } else {
        let first = msgs.drop_last();
        let m = msgs.last();
        lemma_all_chat_items(first);
        lemma_instructions(first);
        let instructed = has_instructions(first);
        lemma_chat_items(m, instructed);
        anthropic_kept::lemma_items_add(
            chat_responses::all_chat_items(first),
            chat_responses::chat_items(m, instructed),
            (seqs::flat(first, readings::calls_of_chat_fn()), readings::calls_of_chat(m)),
            (seqs::flat(first, plain_answer_fn()), plain_answer_fn()(m)),
            (
                users_words(first),
                if is_users(m) {
                    readings::words(m.get("content"@))
                } else if role(m) == "system"@ && instructed {
                    plain(m.get("content"@))
                } else {
                    Seq::empty()
                },
            ),
            (seqs::flat(first, text_of_assistant_fn()), text_of_assistant_fn()(m)),
        );
    }
}

/// A Responses request made from a chat request holds what the messages say, whole and in
/// order: every call with its id, its name and its arguments, every answer of a tool with the
/// id of its call and its text, the words of the users and those of the assistant. The first
/// text of the system is the instructions.
pub proof fn lemma_chat_to_responses_messages(body: JsonV, model: Seq<char>)
    ensures
        ({
            let out = chat_responses::chat_as_responses(body, model);
            let items = readings::list(out, "input"@);
            let msgs = readings::list(body, "messages"@);
            &&& seqs::flat(items, readings::call_of_item_fn()) == seqs::flat(
                msgs,
                readings::calls_of_chat_fn(),
            )
            &&& seqs::flat(items, readings::answer_of_item_fn()) == seqs::flat(
                msgs,
                plain_answer_fn(),
            )
            &&& seqs::flat(items, readings::words_by_fn("user"@)) == users_words(msgs)
            &&& seqs::flat(items, readings::words_by_fn("assistant"@)) == seqs::flat(
                msgs,
                text_of_assistant_fn(),
            )
            &&& out.get("instructions"@) is Some == has_instructions(msgs)
            &&& forall|i: int|
                0 <= i < msgs.len() && #[trigger] is_instruction(msgs[i]) && !has_instructions(
                    msgs.take(i),
                ) ==> out.str_at("instructions"@) == Some(plain(msgs[i].get("content"@)))
        }),
{
    keys::lemma_request_keys();
    let msgs = readings::list(body, "messages"@);
    lemma_all_chat_items(msgs);
    lemma_instructions(msgs);
}

/// The tools of a chat request, the tool to choose and its limits reach the Responses request.
pub proof fn lemma_chat_to_responses_settings(body: JsonV, model: Seq<char>)
    ensures
        ({
            let out = chat_responses::chat_as_responses(body, model);
            &&& out.get("tools"@) == body.get("tools"@)
            &&& out.get("tool_choice"@) == body.get("tool_choice"@)
            &&& out.get("temperature"@) == body.get("temperature"@)
            &&& out.get("max_output_tokens"@) == if body.get("max_completion_tokens"@) is Some {
                body.get("max_completion_tokens"@)
            } else {
                body.get("max_tokens"@)
            }
        }),
{
    keys::lemma_request_keys();
}

} // verus!
