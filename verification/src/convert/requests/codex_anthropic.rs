//! The items of a Responses request as Anthropic messages.

use vstd::prelude::*;
use vstd::string::StringExecFns;

use super::chat_anthropic;
use super::chat_anthropic::{parse_arguments, tool_result_message, tool_use};
use super::codex_chat;
use super::codex_chat::{codex_extract_reasoning_text, filled_text_of_block, id_at};
use crate::convert::parts;
use crate::convert::parts::{as_plain_text, message, text_block};
use crate::json::arrays::gather_texts;
use crate::json::{self, Json, JsonV};
use crate::seqs;
use crate::text;
use crate::text::same;

verus! {

/// The text of a content that may be missing: a string, or the texts of blocks, a line each.
pub open spec fn lines_of_content(content: Option<JsonV>) -> Seq<char> {
    match content {
        Some(JsonV::Str(s)) => s,
        Some(JsonV::Arr(blocks)) => text::joined(
            seqs::flat(blocks, codex_chat::filled_block_text_fn()),
            "\n"@,
        ),
        _ => ""@,
    }
}

/// Extracts the text of a content.
pub fn codex_anthropic_content_to_text(content: Option<&Json>) -> (r: String)
    ensures
        r@ == lines_of_content(json::opt_view(content)),
{
    broadcast use json::group_json;

    match content {
        Some(Json::Str(s)) => s.clone(),
        Some(Json::Arr(blocks)) => {
            let texts = gather_texts(
                blocks,
                filled_text_of_block,
                Ghost(codex_chat::filled_block_text_fn()),
            );
            text::join(&texts, "\n")
        },
        _ => "".to_owned(),
    }
}

/// The input of a function call: its arguments, read as JSON where they are text.
pub open spec fn input_of_item(item: JsonV) -> JsonV {
    match item.get("arguments"@) {
        None => json::jobj(),
        Some(JsonV::Str(s)) => chat_anthropic::arguments_value(s),
        Some(v) => v,
    }
}

fn item_input(item: &Json) -> (r: Json)
    ensures
        r@ == input_of_item(item@),
{
    broadcast use json::group_json;

    match item.get("arguments") {
        None => Json::object(),
        Some(v) => match v {
            Json::Str(s) => parse_arguments(s.as_str()),
            v => v.clone(),
        },
    }
}

/// The block that a function call becomes.
pub open spec fn tool_use_of_item(item: JsonV) -> JsonV {
    chat_anthropic::tool_use_v(
        codex_chat::id_under(item, "call_id"@, "id"@),
        item.str_or("name"@, ""@),
        input_of_item(item),
    )
}

/// A block of thinking.
pub open spec fn thinking_block_v(t: Seq<char>) -> JsonV {
    json::jobj().put("type"@, JsonV::Str("thinking"@)).put("thinking"@, JsonV::Str(t))
}

/// One block of thinking, where there is any.
pub open spec fn thinking_if_any(t: Seq<char>) -> Seq<JsonV> {
    if t.len() > 0 {
        seq![thinking_block_v(t)]
    } else {
        Seq::empty()
    }
}

pub(crate) fn thinking_blocks(t: &str) -> (r: Vec<Json>)
    ensures
        json::views(r@) == thinking_if_any(t@),
{
    let mut out: Vec<Json> = Vec::new();
    if !t.is_empty() {
        out.push(Json::object().put("type", Json::str("thinking")).put("thinking", Json::str(t)));
    }
    assert(json::views(out@) =~= thinking_if_any(t@));
    out
}

/// The state of a conversion of items to Anthropic messages.
#[verifier::ext_equal]
pub struct CodexAnthropic {
    /// Reasoning that no message has yet.
    pub reasoning: Seq<char>,
    /// Tool calls that no message has yet.
    pub calls: Seq<JsonV>,
    /// The messages so far.
    pub messages: Seq<JsonV>,
}

impl CodexAnthropic {
    /// The state at the start.
    pub open spec fn start() -> CodexAnthropic {
        CodexAnthropic { reasoning: Seq::empty(), calls: Seq::empty(), messages: Seq::empty() }
    }

    /// The state once the pending tool calls have their message, reasoning first.
    pub open spec fn flush(self) -> CodexAnthropic {
        if self.calls.len() == 0 {
            self
        } else {
            CodexAnthropic {
                reasoning: Seq::empty(),
                calls: Seq::empty(),
                messages: self.messages.push(
                    parts::message_v(
                        "assistant"@,
                        JsonV::Arr(thinking_if_any(self.reasoning) + self.calls),
                    ),
                ),
            }
        }
    }

    /// The state with a message of the user, where there is text for it.
    pub open spec fn user(self, t: Seq<char>) -> CodexAnthropic {
        if t.len() > 0 {
            CodexAnthropic {
                messages: self.messages.push(parts::message_v("user"@, JsonV::Str(t))),
                ..self
            }
        } else {
            self
        }
    }

    /// The state with a message of the assistant: the pending reasoning and its text.
    pub open spec fn assistant(self, t: Seq<char>) -> CodexAnthropic {
        let blocks = thinking_if_any(self.reasoning) + chat_anthropic::text_block_if_any(
            "text"@,
            Some(t),
        );
        if blocks.len() > 0 {
            CodexAnthropic {
                reasoning: Seq::empty(),
                messages: self.messages.push(
                    parts::message_v("assistant"@, JsonV::Arr(blocks)),
                ),
                ..self
            }
        } else {
            self
        }
    }

    /// The state after a message item, once calls are flushed.
    pub open spec fn message(self, item: JsonV) -> CodexAnthropic {
        let role = item.str_or("role"@, "user"@);
        let t = lines_of_content(item.get("content"@));
        if role == "user"@ {
            CodexAnthropic { reasoning: Seq::empty(), ..self }.user(t)
        } else if role == "assistant"@ {
            self.assistant(t)
        } else {
            self.user(t)
        }
    }

    /// The state after an item.
    pub open spec fn item(self, item: JsonV) -> CodexAnthropic {
        match item.str_at("type"@) {
            None => self.flush().message(item),
            Some(kind) => if kind == "reasoning"@ {
                CodexAnthropic {
                    reasoning: self.reasoning + codex_chat::reasoning_text(item),
                    ..self
                }
            } else if kind == "function_call"@ {
                CodexAnthropic { calls: self.calls.push(tool_use_of_item(item)), ..self }
            } else if kind == "function_call_output"@ {
                CodexAnthropic {
                    messages: self.flush().messages.push(
                        chat_anthropic::tool_result_message_v(
                            codex_chat::id_under(item, "call_id"@, "tool_call_id"@),
                            parts::plain_text_or(item.get("output"@), ""@),
                        ),
                    ),
                    ..self.flush()
                }
            } else if kind == "message"@ {
                self.flush().message(item)
            } else {
                self.flush()
            },
        }
    }

    /// The state after items.
    pub open spec fn items(self, items: Seq<JsonV>) -> CodexAnthropic
        decreases items.len(),
    {
        if items.len() == 0 {
            self
        } else {
            self.items(items.drop_last()).item(items.last())
        }
    }
}

/// State for tracking pending tool calls and reasoning during conversion.
pub struct CodexAnthropicState {
    pending_reasoning: String,
    pending_tool_calls: Vec<Json>,
    messages: Vec<Json>,
}

impl View for CodexAnthropicState {
    type V = CodexAnthropic;

    closed spec fn view(&self) -> CodexAnthropic {
        CodexAnthropic {
            reasoning: self.pending_reasoning@,
            calls: json::views(self.pending_tool_calls@),
            messages: json::views(self.messages@),
        }
    }
}

impl CodexAnthropicState {
    /// The state at the start.
    pub fn new() -> (r: CodexAnthropicState)
        ensures
            r@ == CodexAnthropic::start(),
    {
        let r = CodexAnthropicState {
            pending_reasoning: String::new(),
            pending_tool_calls: Vec::new(),
            messages: Vec::new(),
        };
        assert(r@ =~= CodexAnthropic::start());
        r
    }

    /// The messages.
    pub fn into_messages(self) -> (r: Vec<Json>)
        ensures
            json::views(r@) == self@.messages,
    {
        self.messages
    }

    /// Puts the pending tool calls into a message.
    pub fn codex_flush_anthropic_tool_calls(&mut self)
        ensures
            final(self)@ == old(self)@.flush(),
    {
        broadcast use json::group_json;

        if self.pending_tool_calls.is_empty() {
            return;
        }
        let mut content = thinking_blocks(self.pending_reasoning.as_str());
        content.append(&mut self.pending_tool_calls);
        self.pending_reasoning = String::new();
        self.messages.push(message("assistant", Json::Arr(content)));
        assert(self@ =~= old(self)@.flush());
    }

    fn append_user(&mut self, t: &str)
        ensures
            final(self)@ == old(self)@.user(t@),
    {
        broadcast use json::group_json;

        if !t.is_empty() {
            self.messages.push(message("user", Json::str(t)));
        }
        assert(self@ =~= old(self)@.user(t@));
    }

    fn append_assistant(&mut self, t: &str)
        ensures
            final(self)@ == old(self)@.assistant(t@),
    {
        broadcast use json::group_json;

        let mut content = thinking_blocks(self.pending_reasoning.as_str());
        let ghost first = json::views(content@);
        if !t.is_empty() {
            content.push(text_block("text", t));
        }
        assert(json::views(content@) =~= first + chat_anthropic::text_block_if_any(
            "text"@,
            Some(t@),
        ));
        if !content.is_empty() {
            self.pending_reasoning = String::new();
            self.messages.push(message("assistant", Json::Arr(content)));
        }
        assert(self@ =~= old(self)@.assistant(t@));
    }

    fn append_message(&mut self, item: &Json)
        ensures
            final(self)@ == old(self)@.message(item@),
    {
        let role = item.str_or("role", "user");
        let t = codex_anthropic_content_to_text(item.get("content"));
        if same(role, "user") {
            self.pending_reasoning = String::new();
            assert(self@ =~= (CodexAnthropic { reasoning: Seq::empty(), ..old(self)@ }));
            self.append_user(t.as_str());
        } else if same(role, "assistant") {
            self.append_assistant(t.as_str());
        } else {
            self.append_user(t.as_str());
        }
    }

    /// Takes in an item.
    pub fn append_item(&mut self, item: &Json)
        ensures
            final(self)@ == old(self)@.item(item@),
    {
        broadcast use json::group_json;

        match item.str_at("type") {
            None => {
                self.codex_flush_anthropic_tool_calls();
                self.append_message(item);
            },
            Some(kind) => {
                if same(kind, "reasoning") {
                    let t = codex_extract_reasoning_text(item);
                    self.pending_reasoning.append(t.as_str());
                    assert(self@ =~= old(self)@.item(item@));
                } else if same(kind, "function_call") {
                    let block = tool_use(
                        id_at(item, "call_id", "id"),
                        item.str_or("name", ""),
                        item_input(item),
                    );
                    self.pending_tool_calls.push(block);
                    assert(self@ =~= old(self)@.item(item@));
                } else if same(kind, "function_call_output") {
                    self.codex_flush_anthropic_tool_calls();
                    let output = as_plain_text(item.get("output"), "");
                    let m = tool_result_message(
                        id_at(item, "call_id", "tool_call_id"),
                        output.as_str(),
                    );
                    self.messages.push(m);
                    assert(self@ =~= old(self)@.item(item@));
                } else if same(kind, "message") {
                    self.codex_flush_anthropic_tool_calls();
                    self.append_message(item);
                } else {
                    self.codex_flush_anthropic_tool_calls();
                }
            },
        }
    }
}

/// The messages of an input: a text of the user, or items.
pub open spec fn anthropic_messages_of_input(input: JsonV) -> Seq<JsonV> {
    match input {
        JsonV::Str(t) => seq![parts::message_v("user"@, JsonV::Str(t))],
        JsonV::Arr(items) => CodexAnthropic::start().items(items).flush().messages,
        _ => Seq::empty(),
    }
}

/// Converts an input to messages.
pub fn codex_append_responses_input_as_anthropic_messages(input: &Json) -> (r: Vec<Json>)
    ensures
        json::views(r@) == anthropic_messages_of_input(input@),
{
    broadcast use json::group_json;

    match input {
        Json::Str(t) => {
            let mut out: Vec<Json> = Vec::new();
            out.push(message("user", Json::str(t.as_str())));
            assert(json::views(out@) =~= anthropic_messages_of_input(input@));
            out
        },
        Json::Arr(items) => {
            let ghost all = json::views(items@);
            let mut state = CodexAnthropicState::new();
            let n: usize = items.len();
            assert(all.take(0) =~= Seq::<JsonV>::empty());
            for i in 0..n
                invariant
                    n == items@.len(),
                    all == json::views(items@),
                    state@ == CodexAnthropic::start().items(all.take(i as int)),
            {
                proof {
                    assert(all.take(i + 1).drop_last() =~= all.take(i as int));
                    assert(all.take(i + 1).last() == items@[i as int]@);
                }
                state.append_item(&items[i]);
            }
            assert(all.take(n as int) =~= all);
            state.codex_flush_anthropic_tool_calls();
            state.into_messages()
        },
        _ => {
            let out: Vec<Json> = Vec::new();
            assert(json::views(out@) =~= Seq::<JsonV>::empty());
            out
        },
    }
}

} // verus!
