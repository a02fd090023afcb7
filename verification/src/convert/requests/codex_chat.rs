//! The items of a Responses request as chat messages.

use vstd::prelude::*;
use vstd::string::StringExecFns;

use super::anthropic_chat::chat_tool_call;
use crate::convert::parts;
use crate::convert::parts::{as_plain_text, message, text_block};
use crate::json::arrays::{gather, gather_texts, texts_under};
use crate::json::{self, Json, JsonV};
use crate::seqs;
use crate::text;
use crate::text::same;

verus! {

/// The text of a block where it is not empty.
pub open spec fn filled_block_text(b: JsonV) -> Seq<Seq<char>> {
    let t = parts::block_text(b);
    if t.len() > 0 && t[0].len() > 0 {
        t
    } else {
        Seq::empty()
    }
}

pub open spec fn filled_block_text_fn() -> spec_fn(JsonV) -> Seq<Seq<char>> {
    |b: JsonV| filled_block_text(b)
}

pub(crate) fn filled_text_of_block(b: &Json) -> (r: Vec<String>)
    ensures
        text::texts(r@) == filled_block_text(b@),
{
    let mut out: Vec<String> = Vec::new();
    if let Some(t) = b.str_at("text") {
        if !t.is_empty() {
            out.push(t.to_owned());
        }
    } else if let Some(s) = b.as_str() {
        if !s.is_empty() {
            out.push(s.to_owned());
        }
    }
    assert(text::texts(out@) =~= filled_block_text(b@));
    out
}

/// The text of instructions: a string, or the texts of blocks with blank lines between.
pub open spec fn instruction_text(value: JsonV) -> Seq<char> {
    match value {
        JsonV::Str(s) => s,
        JsonV::Arr(blocks) => text::joined(seqs::flat(blocks, filled_block_text_fn()), "\n\n"@),
        _ => ""@,
    }
}

/// Extracts the text of instructions.
pub fn codex_instruction_text(value: &Json) -> (r: String)
    ensures
        r@ == instruction_text(value@),
{
    broadcast use json::group_json;

    match value {
        Json::Str(s) => s.clone(),
        Json::Arr(blocks) => {
            let texts = gather_texts(blocks, filled_text_of_block, Ghost(filled_block_text_fn()));
            text::join(&texts, "\n\n")
        },
        _ => "".to_owned(),
    }
}

/// The text of a part of reasoning.
pub open spec fn reasoning_part(c: JsonV) -> Seq<Seq<char>> {
    if c.str_is("type"@, "reasoning_text"@) || c.str_is("type"@, "reasoning"@) {
        json::arrays::text_under(c, "text"@)
    } else {
        Seq::empty()
    }
}

pub open spec fn reasoning_part_fn() -> spec_fn(JsonV) -> Seq<Seq<char>> {
    |c: JsonV| reasoning_part(c)
}

fn text_of_reasoning(c: &Json) -> (r: Vec<String>)
    ensures
        text::texts(r@) == reasoning_part(c@),
{
    let mut out: Vec<String> = Vec::new();
    if c.str_is("type", "reasoning_text") || c.str_is("type", "reasoning") {
        out = texts_under(c, "text");
    }
    assert(text::texts(out@) =~= reasoning_part(c@));
    out
}

/// The text of a part of a summary.
pub open spec fn summary_part(c: JsonV) -> Seq<Seq<char>> {
    if c.str_is("type"@, "summary_text"@) {
        json::arrays::text_under(c, "text"@)
    } else {
        Seq::empty()
    }
}

pub open spec fn summary_part_fn() -> spec_fn(JsonV) -> Seq<Seq<char>> {
    |c: JsonV| summary_part(c)
}

fn text_of_summary(c: &Json) -> (r: Vec<String>)
    ensures
        text::texts(r@) == summary_part(c@),
{
    let mut out: Vec<String> = Vec::new();
    if c.str_is("type", "summary_text") {
        out = texts_under(c, "text");
    }
    assert(text::texts(out@) =~= summary_part(c@));
    out
}

/// The joined texts of an array that may be missing.
pub open spec fn joined_parts(
    o: Option<Seq<JsonV>>,
    f: spec_fn(JsonV) -> Seq<Seq<char>>,
) -> Seq<char> {
    match o {
        Some(a) => text::joined(seqs::flat(a, f), ""@),
        None => ""@,
    }
}

/// The reasoning of an item: of its content, or else of its summary.
pub open spec fn reasoning_text(item: JsonV) -> Seq<char> {
    let own = joined_parts(item.array_at("content"@), reasoning_part_fn());
    if own.len() > 0 {
        own
    } else {
        joined_parts(item.array_at("summary"@), summary_part_fn())
    }
}

/// Extracts the reasoning of an item.
pub fn codex_extract_reasoning_text(item: &Json) -> (r: String)
    ensures
        r@ == reasoning_text(item@),
{
    let own = match item.array_at("content") {
        Some(a) => text::join(&gather_texts(a, text_of_reasoning, Ghost(reasoning_part_fn())), ""),
        None => "".to_owned(),
    };
    if !own.as_str().is_empty() {
        return own;
    }
    match item.array_at("summary") {
        Some(a) => text::join(&gather_texts(a, text_of_summary, Ghost(summary_part_fn())), ""),
        None => "".to_owned(),
    }
}

/// Where the id of a call stands: under the one key, or else under the other.
pub open spec fn id_under(item: JsonV, key: Seq<char>, other: Seq<char>) -> Seq<char> {
    match item.get(key) {
        Some(v) => json::text_or(v.as_str(), ""@),
        None => item.str_or(other, ""@),
    }
}

pub(crate) fn id_at<'a>(item: &'a Json, key: &str, other: &str) -> (r: &'a str)
    ensures
        r@ == id_under(item@, key@, other@),
{
    match item.get(key) {
        Some(v) => match v.as_str() {
            Some(s) => s,
            None => "",
        },
        None => item.str_or(other, ""),
    }
}

/// The tool call that an item stands for.
pub open spec fn tool_call_of_item(item: JsonV) -> JsonV {
    super::anthropic_chat::chat_tool_call_v(
        id_under(item, "call_id"@, "id"@),
        item.str_or("name"@, ""@),
        parts::plain_text_or(item.get("arguments"@), "{}"@),
    )
}

/// Converts a function call item to a tool call.
pub fn codex_responses_function_call_to_chat_tool_call(item: &Json) -> (r: Json)
    ensures
        r@ == tool_call_of_item(item@),
{
    let arguments = as_plain_text(item.get("arguments"), "{}");
    chat_tool_call(id_at(item, "call_id", "id"), item.str_or("name", ""), arguments.as_str())
}

/// Whether a part has a type that says it is text.
pub open spec fn is_text_part(p: JsonV) -> bool {
    p.str_is("type"@, "input_text"@) || p.str_is("type"@, "output_text"@) || p.str_is(
        "type"@,
        "text"@,
    )
}

/// The text of a part, where it is not empty: its text, or what it says in refusal.
pub open spec fn part_text(p: JsonV) -> Seq<Seq<char>> {
    let t = if is_text_part(p) {
        p.str_at("text"@)
    } else if p.str_is("type"@, "refusal"@) {
        p.str_at("refusal"@)
    } else {
        None
    };
    match t {
        Some(t) => if t.len() > 0 {
            seq![t]
        } else {
            Seq::empty()
        },
        None => Seq::empty(),
    }
}

pub open spec fn part_text_fn() -> spec_fn(JsonV) -> Seq<Seq<char>> {
    |p: JsonV| part_text(p)
}

fn text_of_part(p: &Json) -> (r: Vec<String>)
    ensures
        text::texts(r@) == part_text(p@),
{
    let t = if p.str_is("type", "input_text") || p.str_is("type", "output_text") || p.str_is(
        "type",
        "text",
    ) {
        p.str_at("text")
    } else if p.str_is("type", "refusal") {
        p.str_at("refusal")
    } else {
        None
    };
    let mut out: Vec<String> = Vec::new();
    if let Some(t) = t {
        if !t.is_empty() {
            out.push(t.to_owned());
        }
    }
    assert(text::texts(out@) =~= part_text(p@));
    out
}

/// Whether a part is an image.
pub open spec fn is_image(p: JsonV) -> bool {
    p.str_is("type"@, "input_image"@) && p.get("image_url"@) is Some
}

/// The address of an image, as an object.
pub open spec fn image_url_v(url: JsonV) -> JsonV {
    if url is Obj {
        url
    } else {
        json::jobj().put("url"@, JsonV::Str(json::text_or(url.as_str(), ""@)))
    }
}

/// The part of a chat message that a part becomes.
pub open spec fn chat_part(p: JsonV) -> Seq<JsonV> {
    if is_image(p) {
        seq![
            json::jobj().put("type"@, JsonV::Str("image_url"@)).put(
                "image_url"@,
                image_url_v(p.get_or_null("image_url"@)),
            ),
        ]
    } else {
        match part_text(p) {
            t => if t.len() > 0 {
                seq![parts::text_block_v("text"@, t[0])]
            } else {
                Seq::empty()
            },
        }
    }
}

pub open spec fn chat_part_fn() -> spec_fn(JsonV) -> Seq<JsonV> {
    |p: JsonV| chat_part(p)
}

fn part_to_chat(p: &Json) -> (r: Vec<Json>)
    ensures
        json::views(r@) == chat_part(p@),
{
    let mut out: Vec<Json> = Vec::new();
    if p.str_is("type", "input_image") && p.get("image_url").is_some() {
        let url = p.get_or_null("image_url");
        let url = if url.is_object() {
            url
        } else {
            let t = match url.as_str() {
                Some(s) => s,
                None => "",
            };
            Json::object().put("url", Json::str(t))
        };
        out.push(Json::object().put("type", Json::str("image_url")).put("image_url", url));
    } else {
        let t = text_of_part(p);
        if t.len() > 0 {
            assert(text::texts(t@)[0] == t@[0]@);
            out.push(text_block("text", t[0].as_str()));
        }
    }
    assert(json::views(out@) =~= chat_part(p@));
    out
}

/// The content of a chat message: one text, or parts where there is an image.
pub open spec fn chat_content(content: JsonV) -> JsonV {
    match content {
        JsonV::Arr(ps) => if exists|i: int| 0 <= i < ps.len() && is_image(#[trigger] ps[i]) {
            JsonV::Arr(seqs::flat(ps, chat_part_fn()))
        } else {
            JsonV::Str(text::joined(seqs::flat(ps, part_text_fn()), "\n"@))
        },
        other => other,
    }
}

/// Converts the content of an item to the content of a chat message.
pub fn codex_responses_content_to_chat_content(content: &Json) -> (r: Json)
    ensures
        r@ == chat_content(content@),
{
    broadcast use json::group_json;

    let ps = match content {
        Json::Arr(ps) => ps,
        other => return other.clone(),
    };
    let ghost all = json::views(ps@);
    let mut image: bool = false;
    let n: usize = ps.len();
    for i in 0..n
        invariant
            n == ps@.len(),
            all == json::views(ps@),
            image == exists|k: int| 0 <= k < i && is_image(#[trigger] all[k]),
    {
        let p = &ps[i];
        assert(all[i as int] == p@);
        if p.str_is("type", "input_image") && p.get("image_url").is_some() {
            image = true;
        }
    }
    if image {
        Json::Arr(gather(ps, part_to_chat, Ghost(chat_part_fn())))
    } else {
        let texts = gather_texts(ps, text_of_part, Ghost(part_text_fn()));
        Json::str(text::join(&texts, "\n").as_str())
    }
}

/// A message with the result of a tool.
pub open spec fn tool_message_v(id: Seq<char>, content: Seq<char>) -> JsonV {
    json::jobj().put("role"@, JsonV::Str("tool"@)).put("tool_call_id"@, JsonV::Str(id)).put(
        "content"@,
        JsonV::Str(content),
    )
}

/// The message with a tool's result is the tool's.
pub proof fn lemma_tool_message(id: Seq<char>, content: Seq<char>)
    ensures
        tool_message_v(id, content).get("role"@) == Some(JsonV::Str("tool"@)),
        tool_message_v(id, content).get("tool_call_id"@) == Some(JsonV::Str(id)),
        tool_message_v(id, content).get("content"@) == Some(JsonV::Str(content)),
{
    reveal_strlit("role");
    reveal_strlit("content");
    reveal_strlit("tool_call_id");
    assert("role"@.len() == 4 && "content"@.len() == 7 && "tool_call_id"@.len() == 12);
}

pub(crate) fn tool_message(id: &str, content: &str) -> (r: Json)
    ensures
        r@ == tool_message_v(id@, content@),
{
    Json::object().put("role", Json::str("tool")).put("tool_call_id", Json::str(id)).put(
        "content",
        Json::str(content),
    )
}

/// The id of a tool call.
pub open spec fn call_id_fn() -> spec_fn(JsonV) -> Seq<Seq<char>> {
    |tc: JsonV| json::arrays::text_under(tc, "id"@)
}

/// The ids of tool calls.
pub open spec fn call_ids(calls: Seq<JsonV>) -> Seq<Seq<char>> {
    seqs::flat(calls, call_id_fn())
}

fn id_of_call(tc: &Json) -> (r: Vec<String>)
    ensures
        text::texts(r@) == json::arrays::text_under(tc@, "id"@),
{
    texts_under(tc, "id")
}

pub(crate) fn ids_of_calls(calls: &Vec<Json>) -> (r: Vec<String>)
    ensures
        text::texts(r@) == call_ids(json::views(calls@)),
{
    gather_texts(calls, id_of_call, Ghost(call_id_fn()))
}

/// Whether a call is answered by one of the tool messages at the end.
pub open spec fn answered_at_end(msgs: Seq<JsonV>, id: Seq<char>) -> bool
    decreases msgs.len(),
{
    msgs.len() > 0 && msgs.last().str_is("role"@, "tool"@) && (msgs.last().str_is(
        "tool_call_id"@,
        id,
    ) || answered_at_end(msgs.drop_last(), id))
}

fn is_answered_at_end(msgs: &Vec<Json>, id: &str) -> (r: bool)
    ensures
        r == answered_at_end(json::views(msgs@), id@),
{
    let ghost all = json::views(msgs@);
    let mut i: usize = msgs.len();
    assert(all.take(i as int) =~= all);
    while i > 0
        invariant
            i <= msgs@.len(),
            all == json::views(msgs@),
            answered_at_end(all, id@) == answered_at_end(all.take(i as int), id@),
        decreases i,
    {
        i = i - 1;
        assert(all.take(i + 1).drop_last() =~= all.take(i as int));
        assert(all.take(i + 1).last() == msgs@[i as int]@);
        let m = &msgs[i];
        if !m.str_is("role", "tool") {
            return false;
        }
        if m.str_is("tool_call_id", id) {
            return true;
        }
    }
    false
}

/// An empty result for a call that is not answered.
pub open spec fn filler(msgs: Seq<JsonV>, id: Seq<char>) -> Seq<JsonV> {
    if answered_at_end(msgs, id) {
        Seq::empty()
    } else {
        seq![tool_message_v(id, ""@)]
    }
}

pub open spec fn filler_fn(msgs: Seq<JsonV>) -> spec_fn(Seq<char>) -> Seq<JsonV> {
    |id: Seq<char>| filler(msgs, id)
}

/// The state of a conversion of items to messages.
#[verifier::ext_equal]
pub struct CodexChat {
    /// Reasoning that no message has yet.
    pub reasoning: Seq<char>,
    /// The reasoning of the message before.
    pub last_reasoning: Seq<char>,
    /// Tool calls that no message has yet.
    pub calls: Seq<JsonV>,
    /// The ids of the tool calls of the last message that had any.
    pub flushed: Seq<Seq<char>>,
    /// The messages so far.
    pub messages: Seq<JsonV>,
}

impl CodexChat {
    /// The state at the start.
    pub open spec fn start(messages: Seq<JsonV>) -> CodexChat {
        CodexChat {
            reasoning: Seq::empty(),
            last_reasoning: Seq::empty(),
            calls: Seq::empty(),
            flushed: Seq::empty(),
            messages,
        }
    }

    /// The reasoning for the next message: what is pending, or else the last one again.
    pub open spec fn next_reasoning(self) -> Seq<char> {
        if self.reasoning.len() > 0 {
            self.reasoning
        } else {
            self.last_reasoning
        }
    }

    /// The state once that reasoning is used.
    pub open spec fn consumed(self) -> CodexChat {
        if self.reasoning.len() > 0 {
            CodexChat { reasoning: Seq::empty(), last_reasoning: self.reasoning, ..self }
        } else {
            self
        }
    }

    /// The state once the pending tool calls have their message.
    pub open spec fn flush(self) -> CodexChat {
        if self.calls.len() == 0 {
            self
        } else {
            let t = self.next_reasoning();
            let m = parts::message_v("assistant"@, JsonV::Null).put(
                "tool_calls"@,
                JsonV::Arr(self.calls),
            ).put_opt(
                "reasoning_content"@,
                if t.len() > 0 {
                    Some(JsonV::Str(t))
                } else {
                    None
                },
            );
            CodexChat {
                calls: Seq::empty(),
                flushed: call_ids(self.calls),
                messages: self.messages.push(m),
                ..self.consumed()
            }
        }
    }

    /// The state once every call of the last message with calls has a result.
    pub open spec fn fill(self) -> CodexChat {
        CodexChat {
            flushed: Seq::empty(),
            messages: self.messages + seqs::flat(self.flushed, filler_fn(self.messages)),
            ..self
        }
    }

    /// The state with one message more.
    pub open spec fn say(self, m: JsonV) -> CodexChat {
        CodexChat { messages: self.messages.push(m), ..self }
    }

    /// The state after a message item, once calls are flushed and filled.
    pub open spec fn message(self, item: JsonV) -> CodexChat {
        let raw = item.str_or("role"@, "user"@);
        let role = if raw == "developer"@ || raw == "system"@ {
            "user"@
        } else {
            raw
        };
        let content = match item.get("content"@) {
            Some(c) => chat_content(c),
            None => JsonV::Null,
        };
        let m = parts::message_v(role, content);
        if item.get("role"@) is None && item.get("content"@) is None {
            self
        } else if role == "user"@ {
            CodexChat { reasoning: Seq::empty(), last_reasoning: Seq::empty(), ..self }.say(m)
        } else if role == "assistant"@ {
            let t = self.next_reasoning();
            if t.len() > 0 {
                self.consumed().say(m.put("reasoning_content"@, JsonV::Str(t)))
            } else if content is Null || content == JsonV::Str(Seq::empty()) {
                self
            } else {
                self.say(m)
            }
        } else {
            self.say(m)
        }
    }

    /// The state after an item.
    pub open spec fn item(self, item: JsonV) -> CodexChat {
        match item.str_at("type"@) {
            None => self.flush().fill().message(item),
            Some(kind) => if kind == "reasoning"@ {
                CodexChat { reasoning: self.reasoning + reasoning_text(item), ..self }
            } else if kind == "function_call"@ {
                CodexChat { calls: self.calls.push(tool_call_of_item(item)), ..self }
            } else if kind == "function_call_output"@ {
                self.flush().say(
                    tool_message_v(
                        item.str_or("call_id"@, ""@),
                        parts::plain_text_or(item.get("output"@), ""@),
                    ),
                )
            } else if kind == "message"@ {
                self.flush().fill().message(item)
            } else {
                self.flush().fill()
            },
        }
    }

    /// The state after items.
    pub open spec fn items(self, items: Seq<JsonV>) -> CodexChat
        decreases items.len(),
    {
        if items.len() == 0 {
            self
        } else {
            self.items(items.drop_last()).item(items.last())
        }
    }
}

/// State for tracking pending tool calls and reasoning during conversion.
pub struct CodexChatConversionState {
    pending_reasoning: String,
    last_reasoning: String,
    pending_tool_calls: Vec<Json>,
    last_flushed_tool_call_ids: Vec<String>,
    messages: Vec<Json>,
}

impl View for CodexChatConversionState {
    type V = CodexChat;

    closed spec fn view(&self) -> CodexChat {
        CodexChat {
            reasoning: self.pending_reasoning@,
            last_reasoning: self.last_reasoning@,
            calls: json::views(self.pending_tool_calls@),
            flushed: text::texts(self.last_flushed_tool_call_ids@),
            messages: json::views(self.messages@),
        }
    }
}

impl CodexChatConversionState {
    /// The state at the start, with the messages that come first.
    pub fn new(messages: Vec<Json>) -> (r: CodexChatConversionState)
        ensures
            r@ == CodexChat::start(json::views(messages@)),
    {
        let r = CodexChatConversionState {
            pending_reasoning: String::new(),
            last_reasoning: String::new(),
            pending_tool_calls: Vec::new(),
            last_flushed_tool_call_ids: Vec::new(),
            messages,
        };
        assert(r@ =~= CodexChat::start(json::views(messages@)));
        r
    }

    /// The messages.
    pub fn into_messages(self) -> (r: Vec<Json>)
        ensures
            json::views(r@) == self@.messages,
    {
        self.messages
    }

    /// Takes the reasoning for the next message.
    pub fn consume_reasoning(&mut self) -> (r: String)
        ensures
            r@ == old(self)@.next_reasoning(),
            final(self)@ == old(self)@.consumed(),
    {
        if !self.pending_reasoning.as_str().is_empty() {
            self.last_reasoning = self.pending_reasoning.clone();
            self.pending_reasoning = String::new();
        }
        assert(self@ =~= old(self)@.consumed());
        self.last_reasoning.clone()
    }

    /// Puts the pending tool calls into a message.
    pub fn flush_tool_calls(&mut self)
        ensures
            final(self)@ == old(self)@.flush(),
    {
        broadcast use json::group_json;

        if self.pending_tool_calls.is_empty() {
            return;
        }
        let reasoning = self.consume_reasoning();
        let ghost mid = self@;
        let mut calls: Vec<Json> = Vec::new();
        calls.append(&mut self.pending_tool_calls);
        self.last_flushed_tool_call_ids = ids_of_calls(&calls);
        let mut m = message("assistant", Json::Null).put("tool_calls", Json::Arr(calls));
        if !reasoning.as_str().is_empty() {
            m = m.put("reasoning_content", Json::str(reasoning.as_str()));
        }
        self.messages.push(m);
        assert(self@ =~= old(self)@.flush());
    }

    /// Adds an empty result for each tool call that has none.
    pub fn fill_missing_tool_results(&mut self)
        ensures
            final(self)@ == old(self)@.fill(),
    {
        broadcast use json::group_json;

        let ghost all = text::texts(self.last_flushed_tool_call_ids@);
        let ghost before = json::views(self.messages@);
        let ghost f = filler_fn(before);
        let n: usize = self.last_flushed_tool_call_ids.len();
        let mut fillers: Vec<Json> = Vec::new();
        proof {
            seqs::lemma_flat_all(all, f);
            assert(json::views(fillers@) =~= Seq::<JsonV>::empty());
        }
        for i in 0..n
            invariant
                n == self.last_flushed_tool_call_ids@.len(),
                *self == *old(self),
                all == text::texts(self.last_flushed_tool_call_ids@),
                before == json::views(self.messages@),
                f == filler_fn(before),
                json::views(fillers@) == seqs::flat(all.take(i as int), f),
        {
            let id = self.last_flushed_tool_call_ids[i].as_str();
            let ghost done = json::views(fillers@);
            if !is_answered_at_end(&self.messages, id) {
                fillers.push(tool_message(id, ""));
            }
            proof {
                seqs::lemma_flat_step(all, i as int, f);
                assert(json::views(fillers@) =~= done + filler(before, id@));
            }
        }
        proof {
            seqs::lemma_flat_all(all, f);
        }
        self.messages.append(&mut fillers);
        self.last_flushed_tool_call_ids = Vec::new();
        assert(self@ =~= old(self)@.fill());
    }

    /// Takes in a message item.
    fn append_message(&mut self, item: &Json)
        ensures
            final(self)@ == old(self)@.message(item@),
    {
        broadcast use json::group_json;

        if item.get("role").is_none() && item.get("content").is_none() {
            return;
        }
        let raw = item.str_or("role", "user");
        let role = if same(raw, "developer") || same(raw, "system") {
            "user"
        } else {
            raw
        };
        let content = match item.get("content") {
            Some(c) => codex_responses_content_to_chat_content(c),
            None => Json::Null,
        };
        let empty = match &content {
            Json::Null => true,
            Json::Str(s) => s.as_str().is_empty(),
            _ => false,
        };
        assert(empty == (content@ is Null || content@ == JsonV::Str(Seq::empty()))) by {
            match content@ {
                JsonV::Str(s) => {
                    if s.len() == 0 {
                        assert(s =~= Seq::<char>::empty());
                    }
                },
                _ => {},
            }
        }
        let mut m = message(role, content);
        if same(role, "user") {
            self.pending_reasoning = String::new();
            self.last_reasoning = String::new();
        } else if same(role, "assistant") {
            let reasoning = self.consume_reasoning();
            if !reasoning.as_str().is_empty() {
                m = m.put("reasoning_content", Json::str(reasoning.as_str()));
            } else if empty {
                assert(self@ =~= old(self)@.message(item@));
                return;
            }
        }
        self.messages.push(m);
        assert(self@ =~= old(self)@.message(item@));
    }

    /// Takes in an item.
    pub fn codex_append_responses_item_as_chat_message(&mut self, item: &Json)
        ensures
            final(self)@ == old(self)@.item(item@),
    {
        broadcast use json::group_json;

        match item.str_at("type") {
            None => {
                self.flush_tool_calls();
                self.fill_missing_tool_results();
                self.append_message(item);
            },
            Some(kind) => {
                if same(kind, "reasoning") {
                    let t = codex_extract_reasoning_text(item);
                    self.pending_reasoning.append(t.as_str());
                    assert(self@ =~= old(self)@.item(item@));
                } else if same(kind, "function_call") {
                    let tc = codex_responses_function_call_to_chat_tool_call(item);
                    self.pending_tool_calls.push(tc);
                    assert(self@ =~= old(self)@.item(item@));
                } else if same(kind, "function_call_output") {
                    self.flush_tool_calls();
                    let output = as_plain_text(item.get("output"), "");
                    self.messages.push(tool_message(item.str_or("call_id", ""), output.as_str()));
                    assert(self@ =~= old(self)@.item(item@));
                } else if same(kind, "message") {
                    self.flush_tool_calls();
                    self.fill_missing_tool_results();
                    self.append_message(item);
                } else {
                    self.flush_tool_calls();
                    self.fill_missing_tool_results();
                }
            },
        }
    }
}

/// The messages with those of an input after them: a text of the user, items, or one item.
pub open spec fn messages_with_input(messages: Seq<JsonV>, input: JsonV) -> Seq<JsonV> {
    match input {
        JsonV::Str(t) => messages.push(parts::message_v("user"@, JsonV::Str(t))),
        JsonV::Arr(items) => CodexChat::start(messages).items(items).flush().messages,
        JsonV::Obj(_) => CodexChat::start(messages).item(input).flush().messages,
        _ => messages,
    }
}

/// Appends the messages of an input.
pub fn codex_append_responses_input_as_chat_messages(input: &Json, messages: Vec<Json>) -> (r: Vec<
    Json,
>)
    ensures
        json::views(r@) == messages_with_input(json::views(messages@), input@),
{
    broadcast use json::group_json;

    match input {
        Json::Str(t) => {
            let mut out = messages;
            out.push(message("user", Json::str(t.as_str())));
            out
        },
        Json::Arr(items) => {
            let ghost start = CodexChat::start(json::views(messages@));
            let ghost all = json::views(items@);
            let mut state = CodexChatConversionState::new(messages);
            let n: usize = items.len();
            assert(all.take(0) =~= Seq::<JsonV>::empty());
            for i in 0..n
                invariant
                    n == items@.len(),
                    all == json::views(items@),
                    state@ == start.items(all.take(i as int)),
            {
                proof {
                    assert(all.take(i + 1).drop_last() =~= all.take(i as int));
                    assert(all.take(i + 1).last() == items@[i as int]@);
                }
                state.codex_append_responses_item_as_chat_message(&items[i]);
            }
            assert(all.take(n as int) =~= all);
            state.flush_tool_calls();
            state.into_messages()
        },
        Json::Obj(_) => {
            let mut state = CodexChatConversionState::new(messages);
            state.codex_append_responses_item_as_chat_message(input);
            state.flush_tool_calls();
            state.into_messages()
        },
        _ => messages,
    }
}

} // verus!
