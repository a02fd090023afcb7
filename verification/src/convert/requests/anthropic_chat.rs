//! Anthropic Messages requests as Chat Completions requests.

use vstd::prelude::*;

use crate::convert::parts;
use crate::convert::parts::{extract_text_from_content, message, text_block};
use crate::json::arrays::{each, gather, gather_texts, texts_under};
use crate::json::{self, Json, JsonV};
use crate::seqs;
use crate::text;
use crate::text::same;

verus! {

/// Whether a field of the value can be set: it is an object, or null.
pub open spec fn settable(j: JsonV) -> bool {
    j is Obj || j is Null
}

/// Whether every message of a body can have its fields set.
pub open spec fn settable_messages(body: JsonV) -> bool {
    match body.array_at("messages"@) {
        Some(msgs) => forall|i: int| 0 <= i < msgs.len() ==> settable(#[trigger] msgs[i]),
        None => true,
    }
}

/// The role of a message, tools and the system taken as the assistant.
pub open spec fn with_known_role(m: JsonV) -> JsonV {
    if m.str_is("role"@, "tool"@) || m.str_is("role"@, "system"@) {
        m.put("role"@, JsonV::Str("assistant"@))
    } else {
        m
    }
}

/// A message whose content is a string or an array: null or no content becomes the
/// empty text, and any other value becomes one block with its JSON text.
pub open spec fn with_plain_content(m: JsonV) -> JsonV {
    match m.get("content"@) {
        None => m.put("content"@, JsonV::Str(""@)),
        Some(JsonV::Null) => m.put("content"@, JsonV::Str(""@)),
        Some(JsonV::Str(_)) => m,
        Some(JsonV::Arr(_)) => m,
        Some(c) => m.put(
            "content"@,
            JsonV::Arr(seq![parts::text_block_v("text"@, json::wire::json_text(c))]),
        ),
    }
}

/// A message of a client with a valid role and content.
pub open spec fn normal_message(m: JsonV) -> JsonV {
    with_plain_content(with_known_role(m))
}

fn normalize_message(m: &Json) -> (r: Json)
    ensures
        r@ == normal_message(m@),
{
    broadcast use json::group_json;

    let m = if m.str_is("role", "tool") || m.str_is("role", "system") {
        m.clone().put("role", Json::str("assistant"))
    } else {
        m.clone()
    };
    with_text_or_blocks(m)
}

/// A message whose content is a text or an array.
pub(crate) fn with_text_or_blocks(m: Json) -> (r: Json)
    ensures
        r@ == with_plain_content(m@),
{
    broadcast use json::group_json;

    let content: Option<Json> = match m.get("content") {
        None => Some(Json::str("")),
        Some(c) => match c {
            Json::Null => Some(Json::str("")),
            Json::Str(_) => None,
            Json::Arr(_) => None,
            c => {
                let block = text_block("text", c.to_text().as_str());
                let mut blocks: Vec<Json> = Vec::new();
                blocks.push(block);
                assert(json::views(blocks@) =~= seq![block@]);
                Some(Json::Arr(blocks))
            },
        },
    };
    match content {
        Some(c) => m.put("content", c),
        None => m,
    }
}

/// What stands under a key of a block of a type.
pub open spec fn typed_text(b: JsonV, kind: Seq<char>, key: Seq<char>) -> Seq<Seq<char>> {
    if b.str_is("type"@, kind) {
        json::arrays::text_under(b, key)
    } else {
        Seq::empty()
    }
}

pub open spec fn typed_text_fn(kind: Seq<char>, key: Seq<char>) -> spec_fn(JsonV) -> Seq<Seq<char>> {
    |b: JsonV| typed_text(b, kind, key)
}

/// The texts under a key of the blocks of a type.
pub(crate) fn typed_texts(blocks: &Vec<Json>, kind: &str, key: &str) -> (r: Vec<String>)
    ensures
        text::texts(r@) == seqs::flat(json::views(blocks@), typed_text_fn(kind@, key@)),
{
    let ghost f = typed_text_fn(kind@, key@);
    let ghost all = json::views(blocks@);
    let mut out: Vec<String> = Vec::new();
    let n: usize = blocks.len();
    proof {
        seqs::lemma_flat_all(all, f);
        assert(text::texts(out@) =~= Seq::<Seq<char>>::empty());
    }
    for i in 0..n
        invariant
            n == blocks@.len(),
            all == json::views(blocks@),
            f == typed_text_fn(kind@, key@),
            text::texts(out@) == seqs::flat(all.take(i as int), f),
    {
        let ghost before = text::texts(out@);
        let b = &blocks[i];
        if b.str_is("type", kind) {
            if let Some(t) = b.str_at(key) {
                out.push(t.to_owned());
            }
        }
        proof {
            seqs::lemma_flat_step(all, i as int, f);
            assert(text::texts(out@) =~= before + typed_text(b@, kind@, key@));
        }
    }
    proof {
        seqs::lemma_flat_all(all, f);
    }
    out
}

/// A tool call of a chat message.
pub open spec fn chat_tool_call_v(id: Seq<char>, name: Seq<char>, arguments: Seq<char>) -> JsonV {
    json::jobj().put("id"@, JsonV::Str(id)).put("type"@, JsonV::Str("function"@)).put(
        "function"@,
        json::jobj().put("name"@, JsonV::Str(name)).put("arguments"@, JsonV::Str(arguments)),
    )
}

pub(crate) fn chat_tool_call(id: &str, name: &str, arguments: &str) -> (r: Json)
    ensures
        r@ == chat_tool_call_v(id@, name@, arguments@),
{
    Json::object().put("id", Json::str(id)).put("type", Json::str("function")).put(
        "function",
        Json::object().put("name", Json::str(name)).put("arguments", Json::str(arguments)),
    )
}

/// The tool call that a block asks for: its input is written out as JSON text.
pub open spec fn block_tool_call(b: JsonV) -> Seq<JsonV> {
    if b.str_is("type"@, "tool_use"@) {
        seq![
            chat_tool_call_v(
                b.str_or("id"@, ""@),
                b.str_or("name"@, ""@),
                json::wire::json_text(b.get_or_empty("input"@)),
            ),
        ]
    } else {
        Seq::empty()
    }
}

pub open spec fn block_tool_call_fn() -> spec_fn(JsonV) -> Seq<JsonV> {
    |b: JsonV| block_tool_call(b)
}

fn tool_call_of_block(b: &Json) -> (r: Vec<Json>)
    ensures
        json::views(r@) == block_tool_call(b@),
{
    let mut out: Vec<Json> = Vec::new();
    if b.str_is("type", "tool_use") {
        let input = b.get_or_empty("input").to_text();
        out.push(chat_tool_call(b.str_or("id", ""), b.str_or("name", ""), input.as_str()));
    }
    assert(json::views(out@) =~= block_tool_call(b@));
    out
}

/// The texts of an assistant's content.
pub open spec fn assistant_texts(content: Option<JsonV>) -> Seq<Seq<char>> {
    match content {
        Some(JsonV::Arr(blocks)) => seqs::flat(blocks, typed_text_fn("text"@, "text"@)),
        Some(JsonV::Str(s)) => seq![s],
        _ => Seq::empty(),
    }
}

/// The texts of the thinking blocks of an assistant's content.
pub open spec fn assistant_thoughts(content: Option<JsonV>) -> Seq<Seq<char>> {
    match content {
        Some(JsonV::Arr(blocks)) => seqs::flat(blocks, typed_text_fn("thinking"@, "thinking"@)),
        _ => Seq::empty(),
    }
}

/// The tool calls that an assistant's content asks for.
pub open spec fn assistant_tool_calls(content: Option<JsonV>) -> Seq<JsonV> {
    match content {
        Some(JsonV::Arr(blocks)) => seqs::flat(blocks, block_tool_call_fn()),
        _ => Seq::empty(),
    }
}

/// Whether thinking of that type asks for reasoning on every tool call.
pub open spec fn thinking_on(thinking: Seq<char>) -> bool {
    thinking == "enabled"@ || thinking == "adaptive"@
}

/// An assistant's message. The content is always a text. Thinking becomes the reasoning;
/// where there is none, tool calls under active thinking have a blank for it.
pub open spec fn chat_assistant(content: Option<JsonV>, thinking: Seq<char>) -> JsonV {
    let thoughts = assistant_thoughts(content);
    let calls = assistant_tool_calls(content);
    parts::message_v(
        "assistant"@,
        JsonV::Str(text::joined(assistant_texts(content), ""@)),
    ).put_opt(
        "reasoning_content"@,
        if thoughts.len() > 0 {
            Some(JsonV::Str(text::joined(thoughts, ""@)))
        } else if calls.len() > 0 && thinking_on(thinking) {
            Some(JsonV::Str(" "@))
        } else {
            None
        },
    ).put_opt(
        "tool_calls"@,
        if calls.len() > 0 {
            Some(JsonV::Arr(calls))
        } else {
            None
        },
    )
}

fn assistant_to_chat(content: Option<&Json>, thinking: &str) -> (r: Json)
    ensures
        r@ == chat_assistant(json::opt_view(content), thinking@),
{
    broadcast use json::group_json;

    let mut texts: Vec<String> = Vec::new();
    let mut thoughts: Vec<String> = Vec::new();
    let mut calls: Vec<Json> = Vec::new();
    match content {
        Some(Json::Arr(blocks)) => {
            texts = typed_texts(blocks, "text", "text");
            thoughts = typed_texts(blocks, "thinking", "thinking");
            calls = gather(blocks, tool_call_of_block, Ghost(block_tool_call_fn()));
        },
        Some(Json::Str(s)) => {
            texts.push(s.clone());
        },
        _ => {},
    }
    proof {
        let c = json::opt_view(content);
        assert(text::texts(texts@) =~= assistant_texts(c));
        assert(text::texts(thoughts@) =~= assistant_thoughts(c));
        assert(json::views(calls@) =~= assistant_tool_calls(c));
    }
    let mut m = message("assistant", Json::str(text::join(&texts, "").as_str()));
    if !thoughts.is_empty() {
        m = m.put("reasoning_content", Json::str(text::join(&thoughts, "").as_str()));
    } else if !calls.is_empty() && (same(thinking, "enabled") || same(thinking, "adaptive")) {
        m = m.put("reasoning_content", Json::str(" "));
    }
    if !calls.is_empty() {
        m = m.put("tool_calls", Json::Arr(calls));
    }
    m
}

/// The tool message that a block with a tool's result becomes.
pub open spec fn block_tool_message(b: JsonV) -> Seq<JsonV> {
    if b.str_is("type"@, "tool_result"@) {
        seq![
            json::jobj().put("role"@, JsonV::Str("tool"@)).put(
                "tool_call_id"@,
                JsonV::Str(b.str_or("tool_use_id"@, ""@)),
            ).put("content"@, JsonV::Str(parts::content_text(b.get_or_null("content"@)))),
        ]
    } else {
        Seq::empty()
    }
}

pub open spec fn block_tool_message_fn() -> spec_fn(JsonV) -> Seq<JsonV> {
    |b: JsonV| block_tool_message(b)
}

fn tool_message_of_block(b: &Json) -> (r: Vec<Json>)
    ensures
        json::views(r@) == block_tool_message(b@),
{
    let mut out: Vec<Json> = Vec::new();
    if b.str_is("type", "tool_result") {
        let t = extract_text_from_content(&b.get_or_null("content"));
        out.push(
            Json::object().put("role", Json::str("tool")).put(
                "tool_call_id",
                Json::str(b.str_or("tool_use_id", "")),
            ).put("content", Json::str(t.as_str())),
        );
    }
    assert(json::views(out@) =~= block_tool_message(b@));
    out
}

/// The text of a block of a user's message: the text of a text block, nothing of a
/// tool's result, and any other block as JSON.
pub open spec fn user_block_text(b: JsonV) -> Seq<Seq<char>> {
    if b.str_is("type"@, "tool_result"@) {
        Seq::empty()
    } else if b.str_is("type"@, "text"@) {
        json::arrays::text_under(b, "text"@)
    } else {
        seq![json::wire::json_text(b)]
    }
}

pub open spec fn user_block_text_fn() -> spec_fn(JsonV) -> Seq<Seq<char>> {
    |b: JsonV| user_block_text(b)
}

pub(crate) fn text_of_user_block(b: &Json) -> (r: Vec<String>)
    ensures
        text::texts(r@) == user_block_text(b@),
{
    let mut out: Vec<String> = Vec::new();
    if b.str_is("type", "tool_result") {
    } else if b.str_is("type", "text") {
        out = texts_under(b, "text");
    } else {
        out.push(b.to_text());
    }
    assert(text::texts(out@) =~= user_block_text(b@));
    out
}

/// The text of the blocks of a user's message.
pub open spec fn user_text(blocks: Seq<JsonV>) -> Seq<char> {
    text::joined(seqs::flat(blocks, user_block_text_fn()), ""@)
}

/// A message of a user, where there is text for it.
pub open spec fn user_message_if_any(t: Seq<char>) -> Seq<JsonV> {
    if t.len() > 0 {
        seq![parts::message_v("user"@, JsonV::Str(t))]
    } else {
        Seq::empty()
    }
}

/// The messages that a user's message becomes: results of tools first, each as a message
/// of its own, and what text there is after them.
pub open spec fn chat_user(content: Option<JsonV>) -> Seq<JsonV> {
    match content {
        Some(JsonV::Arr(blocks)) => {
            let results = seqs::flat(blocks, block_tool_message_fn());
            if results.len() > 0 {
                results + user_message_if_any(user_text(blocks))
            } else {
                seq![parts::message_v("user"@, JsonV::Str(user_text(blocks)))]
            }
        },
        Some(c) => seq![parts::message_v("user"@, c)],
        None => seq![parts::message_v("user"@, JsonV::Str(""@))],
    }
}

fn user_to_chat(content: Option<&Json>) -> (r: Vec<Json>)
    ensures
        json::views(r@) == chat_user(json::opt_view(content)),
{
    broadcast use json::group_json;

    let mut out: Vec<Json> = Vec::new();
    match content {
        Some(Json::Arr(blocks)) => {
            let texts = gather_texts(blocks, text_of_user_block, Ghost(user_block_text_fn()));
            let t = text::join(&texts, "");
            out = gather(blocks, tool_message_of_block, Ghost(block_tool_message_fn()));
            let ghost results = json::views(out@);
            if out.is_empty() {
                out.push(message("user", Json::str(t.as_str())));
            } else if !t.as_str().is_empty() {
                out.push(message("user", Json::str(t.as_str())));
            } else {
                assert(results + Seq::<JsonV>::empty() =~= results);
            }
        },
        Some(c) => {
            out.push(message("user", c.clone()));
        },
        None => {
            out.push(message("user", Json::str("")));
        },
    }
    assert(json::views(out@) =~= chat_user(json::opt_view(content)));
    out
}

/// The chat messages that a message becomes.
pub open spec fn chat_messages(m: JsonV, thinking: Seq<char>) -> Seq<JsonV> {
    let role = m.str_or("role"@, "user"@);
    let content = m.get("content"@);
    if role == "assistant"@ {
        seq![chat_assistant(content, thinking)]
    } else if role == "user"@ {
        chat_user(content)
    } else {
        match content {
            Some(c) => seq![parts::message_v("user"@, c)],
            None => Seq::empty(),
        }
    }
}

fn message_to_chat(m: &Json, thinking: &str) -> (r: Vec<Json>)
    ensures
        json::views(r@) == chat_messages(m@, thinking@),
{
    let role = m.str_or("role", "user");
    let content = m.get("content");
    let mut out: Vec<Json> = Vec::new();
    if same(role, "assistant") {
        out.push(assistant_to_chat(content, thinking));
    } else if same(role, "user") {
        out = user_to_chat(content);
    } else if let Some(c) = content {
        out.push(message("user", c.clone()));
    }
    assert(json::views(out@) =~= chat_messages(m@, thinking@));
    out
}

pub open spec fn chat_messages_fn(thinking: Seq<char>) -> spec_fn(JsonV) -> Seq<JsonV> {
    |m: JsonV| chat_messages(normal_message(m), thinking)
}

/// The type of the thinking that a request asks for.
pub open spec fn thinking_type(body: JsonV) -> Seq<char> {
    json::text_or(json::str_of_v(json::at_v(body.get("thinking"@), "type"@)), ""@)
}

/// The message that carries the system prompt, where there is one.
pub open spec fn system_message(body: JsonV) -> Seq<JsonV> {
    match body.get("system"@) {
        Some(system) => if parts::content_text(system).len() > 0 {
            seq![parts::message_v("system"@, JsonV::Str(parts::content_text(system)))]
        } else {
            Seq::empty()
        },
        None => Seq::empty(),
    }
}

/// The messages of a chat request made from an Anthropic one.
pub open spec fn chat_messages_of_anthropic(body: JsonV) -> Seq<JsonV> {
    system_message(body) + match body.array_at("messages"@) {
        Some(msgs) => seqs::flat(msgs, chat_messages_fn(thinking_type(body))),
        None => Seq::empty(),
    }
}

/// The schema of a tool without parameters.
pub open spec fn empty_schema_v() -> JsonV {
    json::jobj().put("type"@, JsonV::Str("object"@)).put("properties"@, json::jobj())
}

pub(crate) fn empty_schema() -> (r: Json)
    ensures
        r@ == empty_schema_v(),
{
    Json::object().put("type", Json::str("object")).put("properties", Json::object())
}

/// The schema of an Anthropic tool.
pub open spec fn input_schema_v(tool: JsonV) -> JsonV {
    match tool.get("input_schema"@) {
        Some(s) => s,
        None => empty_schema_v(),
    }
}

pub(crate) fn input_schema(tool: &Json) -> (r: Json)
    ensures
        r@ == input_schema_v(tool@),
{
    match tool.get("input_schema") {
        Some(s) => s.clone(),
        None => empty_schema(),
    }
}

/// A tool of a chat request: one that is a function already, or one of Anthropic.
pub open spec fn chat_tool(tool: JsonV) -> JsonV {
    if tool.str_is("type"@, "function"@) {
        tool
    } else {
        json::jobj().put("type"@, JsonV::Str("function"@)).put(
            "function"@,
            json::jobj().put("name"@, JsonV::Str(tool.str_or("name"@, ""@))).put(
                "description"@,
                JsonV::Str(tool.str_or("description"@, ""@)),
            ).put("parameters"@, input_schema_v(tool)),
        )
    }
}

pub open spec fn chat_tool_fn() -> spec_fn(JsonV) -> JsonV {
    |tool: JsonV| chat_tool(tool)
}

fn tool_to_chat(tool: &Json) -> (r: Json)
    ensures
        r@ == chat_tool(tool@),
{
    if tool.str_is("type", "function") {
        tool.clone()
    } else {
        Json::object().put("type", Json::str("function")).put(
            "function",
            Json::object().put("name", Json::str(tool.str_or("name", ""))).put(
                "description",
                Json::str(tool.str_or("description", "")),
            ).put("parameters", input_schema(tool)),
        )
    }
}

/// The mode of choosing tools that a text of Anthropic stands for.
pub open spec fn choice_mode(s: Seq<char>) -> Seq<char> {
    if s == "any"@ {
        "required"@
    } else if s == "none"@ {
        "none"@
    } else {
        "auto"@
    }
}

/// The choice of tools in a chat request: a mode, or one function.
pub open spec fn chat_tool_choice(tc: JsonV) -> JsonV {
    match tc {
        JsonV::Str(s) => JsonV::Str(choice_mode(s)),
        tc => if tc.str_is("type"@, "tool"@) {
            json::jobj().put("type"@, JsonV::Str("function"@)).put(
                "function"@,
                json::jobj().put("name"@, JsonV::Str(tc.str_or("name"@, ""@))),
            )
        } else {
            JsonV::Str("auto"@)
        },
    }
}

pub(crate) fn choice_of_mode(s: &str) -> (r: Json)
    ensures
        r@ == JsonV::Str(choice_mode(s@)),
{
    if same(s, "any") {
        Json::str("required")
    } else if same(s, "none") {
        Json::str("none")
    } else {
        Json::str("auto")
    }
}

fn tool_choice_to_chat(tc: &Json) -> (r: Json)
    ensures
        r@ == chat_tool_choice(tc@),
{
    broadcast use json::group_json;

    match tc {
        Json::Str(s) => choice_of_mode(s.as_str()),
        tc => if tc.str_is("type", "tool") {
            Json::object().put("type", Json::str("function")).put(
                "function",
                Json::object().put("name", Json::str(tc.str_or("name", ""))),
            )
        } else {
            Json::str("auto")
        },
    }
}

/// A chat request made from an Anthropic one.
pub open spec fn anthropic_as_chat(body: JsonV, model: Seq<char>) -> JsonV {
    json::jobj().put("model"@, JsonV::Str(model)).put(
        "messages"@,
        JsonV::Arr(chat_messages_of_anthropic(body)),
    ).put_opt("max_tokens"@, body.get("max_tokens"@)).put_opt(
        "temperature"@,
        body.get("temperature"@),
    ).put_opt("stream"@, body.get("stream"@)).put_opt(
        "tools"@,
        match body.array_at("tools"@) {
            Some(tools) => Some(JsonV::Arr(tools.map_values(chat_tool_fn()))),
            None => None,
        },
    ).put_opt(
        "tool_choice"@,
        match body.get("tool_choice"@) {
            Some(tc) => Some(chat_tool_choice(tc)),
            None => None,
        },
    )
}

/// Converts an Anthropic Messages request to a Chat Completions request.
pub fn anthropic_to_openai_request(body: &Json, target_model: &str) -> (r: Json)
    requires
        settable_messages(body@),
    ensures
        r@ == anthropic_as_chat(body@, target_model@),
{
    broadcast use json::group_json;

    let mut messages: Vec<Json> = Vec::new();
    if let Some(system) = body.get("system") {
        let t = extract_text_from_content(system);
        if !t.as_str().is_empty() {
            messages.push(message("system", Json::str(t.as_str())));
        }
    }
    let ghost first = json::views(messages@);
    assert(first =~= system_message(body@));
    if let Some(msgs) = body.array_at("messages") {
        let thinking = match json::str_of(json::at(body.get("thinking"), "type")) {
            Some(t) => t,
            None => "",
        };
        let ghost f = chat_messages_fn(thinking@);
        let ghost all = json::views(msgs@);
        let n: usize = msgs.len();
        proof {
            seqs::lemma_flat_all(all, f);
            assert(first + Seq::<JsonV>::empty() =~= first);
        }
        for i in 0..n
            invariant
                n == msgs@.len(),
                all == json::views(msgs@),
                f == chat_messages_fn(thinking@),
                json::views(messages@) == first + seqs::flat(all.take(i as int), f),
        {
            let m = normalize_message(&msgs[i]);
            let mut more = message_to_chat(&m, thinking);
            proof {
                seqs::lemma_flat_step(all, i as int, f);
                assert(first + (seqs::flat(all.take(i as int), f) + json::views(more@))
                    =~= json::views(messages@) + json::views(more@));
            }
            messages.append(&mut more);
        }
        proof {
            seqs::lemma_flat_all(all, f);
        }
    } else {
        assert(first + Seq::<JsonV>::empty() =~= first);
    }
    let mut out = Json::object().put("model", Json::str(target_model)).put(
        "messages",
        Json::Arr(messages),
    ).put_opt("max_tokens", body.get("max_tokens")).put_opt(
        "temperature",
        body.get("temperature"),
    ).put_opt("stream", body.get("stream"));
    if let Some(tools) = body.array_at("tools") {
        out = out.put("tools", Json::Arr(each(tools, tool_to_chat, Ghost(chat_tool_fn()))));
    }
    if let Some(tc) = body.get("tool_choice") {
        out = out.put("tool_choice", tool_choice_to_chat(tc));
    }
    out
}

} // verus!
