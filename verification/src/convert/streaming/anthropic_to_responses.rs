//! An Anthropic stream as a Responses stream.

use vstd::prelude::*;
use vstd::string::StringExecFns;

use super::chat_to_responses::{ItemState, OpenItem};
use super::chat_to_responses;
use super::response_events;
use super::response_events::{call_item, EventWriter, Events};
use super::pieces::Emitter;
use super::sse;
use super::sse::{data_in, LineBuffer, LineReader, Reading};
use crate::clock::chrono_like_id;
use crate::convert::parts;
use crate::convert::parts::text_block;
use crate::convert::requests::anthropic_order::copy_all;
use crate::convert::responses::to_chat;
use crate::convert::responses::to_chat::texts_of_item;
use crate::convert::responses::to_responses;
use crate::convert::responses::to_responses::{message_item, only, responses_usage, with_time};
use crate::json::arrays::gather_texts;
use crate::json::{self, Json, JsonV};
use crate::seqs;
use crate::text;
use crate::text::{concat3, same, to_decimal};

verus! {

/// What kind of item a stream is at.
#[derive(PartialEq, Eq, Structural)]
pub enum AnthropicPhase {
    Idle,
    Reasoning,
    Message,
    ToolCall,
}

/// A function call that is not complete.
#[verifier::ext_equal]
pub struct OpenToolCall {
    pub index: u32,
    pub id: Seq<char>,
    pub name: Seq<char>,
    pub args: Seq<char>,
}

/// An Anthropic stream in the middle of its conversion.
#[verifier::ext_equal]
pub struct AnthropicToResponses {
    pub events: Events,
    /// The time of the piece that is read, in milliseconds since the epoch.
    pub now: u64,
    /// Whether the response has started.
    pub started: bool,
    /// Whether the response has ended.
    pub terminated: bool,
    /// Whether the stream has failed.
    pub failed: bool,
    pub id: Seq<char>,
    pub model: Seq<char>,
    pub created: u64,
    /// The index of the next item.
    pub next_index: u32,
    /// The items that are complete.
    pub items: Seq<JsonV>,
    pub input_tokens: u64,
    pub output_tokens: u64,
    pub stop_reason: Option<Seq<char>>,
    pub phase: AnthropicPhase,
    pub reasoning: Option<OpenItem>,
    pub message: Option<OpenItem>,
    pub tool: Option<OpenToolCall>,
}

/// The id of an item that starts at a time.
pub open spec fn item_id(prefix: Seq<char>, now: u64, index: u32) -> Seq<char> {
    prefix + text::decimal(now as nat) + "_"@ + text::decimal(index as nat)
}

fn make_item_id(prefix: &str, now: u64, index: u32) -> (r: String)
    ensures
        r@ == item_id(prefix@, now, index),
{
    let mut out = concat3(prefix, to_decimal(now).as_str(), "_");
    out.append(to_decimal(index as u64).as_str());
    out
}

/// A reasoning item that is complete.
pub open spec fn reasoning_item_v(id: Seq<char>, t: Seq<char>) -> JsonV {
    json::jobj().put("id"@, JsonV::Str(id)).put("type"@, JsonV::Str("reasoning"@)).put(
        "status"@,
        JsonV::Str("completed"@),
    ).put("summary"@, to_responses::one(parts::text_block_v("summary_text"@, t)))
}

impl AnthropicToResponses {
    /// The conversion before its start.
    pub open spec fn new(model: Seq<char>) -> AnthropicToResponses {
        AnthropicToResponses {
            events: Events { sequence: 0, out: Seq::empty() },
            now: 0,
            started: false,
            terminated: false,
            failed: false,
            id: Seq::empty(),
            model,
            created: 0,
            next_index: 0,
            items: Seq::empty(),
            input_tokens: 0,
            output_tokens: 0,
            stop_reason: None,
            phase: AnthropicPhase::Idle,
            reasoning: None,
            message: None,
            tool: None,
        }
    }

    /// The conversion at a time.
    pub open spec fn at(self, now: u64) -> AnthropicToResponses {
        AnthropicToResponses { now, ..self }
    }

    /// The response started, where it has not; its id and its time are those of now where
    /// they are not known.
    pub open spec fn start(self) -> AnthropicToResponses {
        if self.started {
            self
        } else {
            let id = if self.id.len() == 0 {
                to_responses::timed("resp_"@, self.now)
            } else {
                self.id
            };
            let created = if self.created == 0 {
                self.now / 1000
            } else {
                self.created
            };
            AnthropicToResponses {
                started: true,
                id,
                created,
                events: self.events.started(id, created, self.model),
                ..self
            }
        }
    }

    /// A new reasoning item.
    pub open spec fn start_reasoning(self) -> AnthropicToResponses {
        let i = self.next_index;
        let id = item_id("rs_"@, self.now, i);
        AnthropicToResponses {
            next_index: i.wrapping_add(1),
            reasoning: Some(OpenItem { index: i, id, text: Seq::empty() }),
            phase: AnthropicPhase::Reasoning,
            events: self.events.reasoning_added(id, i),
            ..self
        }
    }

    /// More reasoning, where an item is open for it.
    pub open spec fn more_reasoning(self, t: Seq<char>) -> AnthropicToResponses {
        match self.reasoning {
            Some(item) => AnthropicToResponses {
                reasoning: Some(OpenItem { text: item.text + t, ..item }),
                events: self.events.reasoning_delta(item.id, item.index, t),
                ..self
            },
            None => self,
        }
    }

    /// The reasoning item closed, where one is open.
    pub open spec fn close_reasoning(self) -> AnthropicToResponses {
        match self.reasoning {
            Some(item) => {
                let done = reasoning_item_v(item.id, item.text);
                AnthropicToResponses {
                    reasoning: None,
                    items: self.items.push(done),
                    events: self.events.reasoning_done(item.id, item.index, item.text, done),
                    ..self
                }
            },
            None => self,
        }
    }

    /// A new message item.
    pub open spec fn start_message(self) -> AnthropicToResponses {
        let i = self.next_index;
        let id = item_id("msg_"@, self.now, i);
        AnthropicToResponses {
            next_index: i.wrapping_add(1),
            message: Some(OpenItem { index: i, id, text: Seq::empty() }),
            phase: AnthropicPhase::Message,
            events: self.events.message_added(id, i),
            ..self
        }
    }

    /// More text, where an item is open for it.
    pub open spec fn more_text(self, t: Seq<char>) -> AnthropicToResponses {
        match self.message {
            Some(item) => AnthropicToResponses {
                message: Some(OpenItem { text: item.text + t, ..item }),
                events: self.events.message_delta(item.id, item.index, t),
                ..self
            },
            None => self,
        }
    }

    /// The message item closed, where one is open.
    pub open spec fn close_message(self) -> AnthropicToResponses {
        match self.message {
            Some(item) => AnthropicToResponses {
                message: None,
                items: self.items.push(to_responses::message_item_v(item.id, item.text)),
                events: self.events.message_done(item.id, item.index, item.text),
                ..self
            },
            None => self,
        }
    }

    /// A new function call.
    pub open spec fn open_tool(self, id: Seq<char>, name: Seq<char>) -> AnthropicToResponses {
        let i = self.next_index;
        AnthropicToResponses {
            next_index: i.wrapping_add(1),
            tool: Some(OpenToolCall { index: i, id, name, args: Seq::empty() }),
            phase: AnthropicPhase::ToolCall,
            events: self.events.call_added(id, i, id, name),
            ..self
        }
    }

    /// More arguments, where a call is open for them.
    pub open spec fn more_args(self, t: Seq<char>) -> AnthropicToResponses {
        match self.tool {
            Some(tc) => AnthropicToResponses {
                tool: Some(OpenToolCall { args: tc.args + t, ..tc }),
                events: self.events.call_delta(tc.id, tc.index, t),
                ..self
            },
            None => self,
        }
    }

    /// The function call closed, where one is open.
    pub open spec fn close_tool(self) -> AnthropicToResponses {
        match self.tool {
            Some(tc) => AnthropicToResponses {
                tool: None,
                items: self.items.push(
                    response_events::call_item_v(tc.id, tc.id, tc.name, tc.args, "completed"@),
                ),
                events: self.events.call_done(tc.id, Some(tc.index), tc.id, tc.name, tc.args),
                ..self
            },
            None => self,
        }
    }

    /// The reasoning or the message that the stream is at closed.
    pub open spec fn close_current(self) -> AnthropicToResponses {
        match self.phase {
            AnthropicPhase::Reasoning => self.close_reasoning(),
            AnthropicPhase::Message => self.close_message(),
            _ => self,
        }
    }

    /// The id and the usage of a message.
    pub open spec fn message_start(self, data: JsonV) -> AnthropicToResponses {
        match data.get("message"@) {
            Some(m) => AnthropicToResponses {
                id: if m.str_or("id"@, ""@).len() > 0 {
                    m.str_or("id"@, ""@)
                } else {
                    self.id
                },
                input_tokens: match m.get("usage"@) {
                    Some(u) => u.u64_or("input_tokens"@, 0),
                    None => self.input_tokens,
                },
                output_tokens: match m.get("usage"@) {
                    Some(u) => u.u64_or("output_tokens"@, 0),
                    None => self.output_tokens,
                },
                ..self
            },
            None => self,
        }
    }

    /// A block starts.
    pub open spec fn block_start(self, data: JsonV) -> AnthropicToResponses {
        let block = data.get_or_null("content_block"@);
        let kind = block.str_or("type"@, ""@);
        if kind == "thinking"@ {
            self.close_current().start_reasoning()
        } else if kind == "text"@ {
            self.close_current().close_tool().start_message()
        } else if kind == "tool_use"@ {
            self.close_current().open_tool(block.str_or("id"@, ""@), block.str_or("name"@, ""@))
        } else {
            self
        }
    }

    /// A block goes on; an item is started for it where the stream is not at one.
    pub open spec fn block_delta(self, data: JsonV) -> AnthropicToResponses {
        let delta = data.get_or_null("delta"@);
        let kind = delta.str_or("type"@, ""@);
        if kind == "thinking_delta"@ {
            let s = if self.phase == AnthropicPhase::Reasoning {
                self
            } else {
                self.close_current().start_reasoning()
            };
            match delta.str_at("thinking"@) {
                Some(t) => s.more_reasoning(t),
                None => s,
            }
        } else if kind == "text_delta"@ {
            let s = if self.phase == AnthropicPhase::Message {
                self
            } else {
                self.close_current().close_tool().start_message()
            };
            match delta.str_at("text"@) {
                Some(t) => s.more_text(t),
                None => s,
            }
        } else if kind == "input_json_delta"@ {
            let s = if self.phase == AnthropicPhase::ToolCall {
                self
            } else {
                self.close_current()
            };
            match delta.str_at("partial_json"@) {
                Some(t) => s.more_args(t),
                None => s,
            }
        } else {
            self
        }
    }

    /// The reason to stop and the usage of a message.
    pub open spec fn message_delta(self, data: JsonV) -> AnthropicToResponses {
        AnthropicToResponses {
            stop_reason: match data.get_or_null("delta"@).str_at("stop_reason"@) {
                Some(r) => Some(r),
                None => self.stop_reason,
            },
            output_tokens: match data.get("usage"@) {
                Some(u) => u.u64_or("output_tokens"@, self.output_tokens),
                None => self.output_tokens,
            },
            ..self
        }
    }

    /// The state after an event of that type, once the response has started.
    pub open spec fn event(self, kind: Seq<char>, data: JsonV) -> AnthropicToResponses {
        if kind == "message_start"@ {
            self.message_start(data)
        } else if kind == "content_block_start"@ {
            self.block_start(data)
        } else if kind == "content_block_delta"@ {
            self.block_delta(data)
        } else if kind == "content_block_stop"@ {
            AnthropicToResponses {
                phase: AnthropicPhase::Idle,
                ..self.close_current().close_tool()
            }
        } else if kind == "message_delta"@ {
            self.message_delta(data)
        } else if kind == "message_stop"@ {
            self.close_current().close_tool()
        } else {
            self
        }
    }

    /// The state after an event of that type.
    pub open spec fn handle(self, kind: Seq<char>, data: JsonV) -> AnthropicToResponses {
        self.start().event(kind, data)
    }

    /// Whether the response was cut off at its limit.
    pub open spec fn cut_off(self) -> bool {
        self.stop_reason == Some("max_tokens"@)
    }

    /// The response as it is at its end.
    pub open spec fn response(self) -> JsonV {
        json::jobj().put("id"@, JsonV::Str(self.id)).put("object"@, JsonV::Str("response"@)).put(
            "created_at"@,
            json::jnum(self.created),
        ).put(
            "status"@,
            JsonV::Str(
                if self.cut_off() {
                    "incomplete"@
                } else {
                    "completed"@
                },
            ),
        ).put("model"@, JsonV::Str(self.model)).put("output"@, JsonV::Arr(self.items)).put(
            "output_text"@,
            JsonV::Str(text::joined(seqs::flat(self.items, to_chat::item_texts_fn()), ""@)),
        ).put(
            "usage"@,
            to_responses::responses_usage_v(
                self.input_tokens,
                self.output_tokens,
                self.input_tokens.wrapping_add(self.output_tokens),
            ),
        ).put_opt(
            "incomplete_details"@,
            if self.cut_off() {
                Some(json::jobj().put("reason"@, JsonV::Str("max_output_tokens"@)))
            } else {
                None
            },
        )
    }

    /// The response ended, where it has not.
    pub open spec fn finalize(self) -> AnthropicToResponses {
        if self.terminated {
            self
        } else {
            let s = AnthropicToResponses { terminated: true, ..self }.close_current().close_tool();
            AnthropicToResponses {
                events: s.events.event("response.completed"@, s.response()),
                ..s
            }
        }
    }

    /// The stream failed.
    pub open spec fn fail(self, message: Seq<char>) -> AnthropicToResponses {
        AnthropicToResponses {
            terminated: true,
            failed: true,
            events: self.events.failed(self.id, message),
            ..self
        }
    }

    /// The stream ended.
    pub open spec fn end(self) -> AnthropicToResponses {
        if self.failed {
            self
        } else {
            self.finalize()
        }
    }
}

impl LineReader for AnthropicToResponses {
    open spec fn line(self, l: Seq<char>) -> AnthropicToResponses {
        if self.failed {
            self
        } else {
            match sse::data_of(l) {
                Some(d) => if d == "[DONE]"@ {
                    self.finalize()
                } else {
                    match json::wire::json_of_text(d) {
                        Some(data) => if data.get("error"@) is Some {
                            self.fail("Upstream error"@)
                        } else {
                            self.handle(data.str_or("type"@, ""@), data)
                        },
                        None => self,
                    }
                },
                None => self,
            }
        }
    }
}

/// A function call that is not complete.
pub struct AnthropicToolCallState {
    index: u32,
    id: String,
    name: String,
    args: String,
}

impl View for AnthropicToolCallState {
    type V = OpenToolCall;

    closed spec fn view(&self) -> OpenToolCall {
        OpenToolCall { index: self.index, id: self.id@, name: self.name@, args: self.args@ }
    }
}

/// The view of a call that may be missing.
spec fn opt_call(o: Option<AnthropicToolCallState>) -> Option<OpenToolCall> {
    match o {
        Some(t) => Some(t@),
        None => None,
    }
}

/// Converts an Anthropic stream to a Responses stream.
pub struct CodexAnthropicToResponsesState {
    events: EventWriter,
    now: u64,
    response_started: bool,
    stream_terminated: bool,
    stream_failed: bool,
    response_id: String,
    model: String,
    created_at: u64,
    output_index: u32,
    output_items: Vec<Json>,
    input_tokens: u64,
    output_tokens: u64,
    stop_reason: Option<String>,
    phase: AnthropicPhase,
    current_reasoning: Option<ItemState>,
    current_message: Option<ItemState>,
    current_tool: Option<AnthropicToolCallState>,
    buffer: LineBuffer,
}

impl View for CodexAnthropicToResponsesState {
    type V = Reading<AnthropicToResponses>;

    closed spec fn view(&self) -> Reading<AnthropicToResponses> {
        Reading { machine: self.state(), rest: self.buffer@ }
    }
}

/// The conversion after a piece of the stream that comes at a time.
pub open spec fn fed_at(r: Reading<AnthropicToResponses>, now: u64, s: Seq<char>) -> Reading<
    AnthropicToResponses,
> {
    sse::fed(Reading { machine: r.machine.at(now), ..r }, s)
}

impl CodexAnthropicToResponsesState {
    closed spec fn state(self) -> AnthropicToResponses {
        AnthropicToResponses {
            events: self.events@,
            now: self.now,
            started: self.response_started,
            terminated: self.stream_terminated,
            failed: self.stream_failed,
            id: self.response_id@,
            model: self.model@,
            created: self.created_at,
            next_index: self.output_index,
            items: json::views(self.output_items@),
            input_tokens: self.input_tokens,
            output_tokens: self.output_tokens,
            stop_reason: text::opt_text(self.stop_reason),
            phase: self.phase,
            reasoning: chat_to_responses::opt_item(self.current_reasoning),
            message: chat_to_responses::opt_item(self.current_message),
            tool: opt_call(self.current_tool),
        }
    }

    /// The conversion of a stream.
    pub fn new(request_model: &str) -> (r: CodexAnthropicToResponsesState)
        ensures
            r@.machine == AnthropicToResponses::new(request_model@),
            r@.rest == Seq::<char>::empty(),
    {
        let r = CodexAnthropicToResponsesState {
            events: EventWriter::new(),
            now: 0,
            response_started: false,
            stream_terminated: false,
            stream_failed: false,
            response_id: String::new(),
            model: request_model.to_owned(),
            created_at: 0,
            output_index: 0,
            output_items: Vec::new(),
            input_tokens: 0,
            output_tokens: 0,
            stop_reason: None,
            phase: AnthropicPhase::Idle,
            current_reasoning: None,
            current_message: None,
            current_tool: None,
            buffer: LineBuffer::new(),
        };
        assert(r.state() =~= AnthropicToResponses::new(request_model@));
        r
    }

    /// Whether the stream has failed.
    pub fn is_failed(&self) -> (r: bool)
        ensures
            r == self@.machine.failed,
    {
        self.stream_failed
    }

    fn next_output_index(&mut self) -> (r: u32)
        ensures
            r == old(self).state().next_index,
            final(self).state() == (AnthropicToResponses {
                next_index: r.wrapping_add(1),
                ..old(self).state()
            }),
            final(self).buffer == old(self).buffer,
    {
        let i: u32 = self.output_index;
        self.output_index = i.wrapping_add(1);
        i
    }

    fn ensure_response_started(&mut self)
        ensures
            final(self).state() == old(self).state().start(),
            final(self).buffer == old(self).buffer,
    {
        if !self.response_started {
            self.response_started = true;
            if self.response_id.as_str().is_empty() {
                self.response_id = with_time("resp_", self.now);
            }
            if self.created_at == 0 {
                self.created_at = self.now / 1000;
            }
            self.events.started(self.response_id.as_str(), self.created_at, self.model.as_str());
        }
        assert(self.state() =~= old(self).state().start());
    }

    fn start_reasoning_item(&mut self)
        ensures
            final(self).state() == old(self).state().start_reasoning(),
            final(self).buffer == old(self).buffer,
    {
        let i: u32 = self.next_output_index();
        let id = make_item_id("rs_", self.now, i);
        self.events.reasoning_added(id.as_str(), i);
        self.current_reasoning = Some(ItemState { index: i, id, text: String::new() });
        self.phase = AnthropicPhase::Reasoning;
        assert(self.state() =~= old(self).state().start_reasoning());
    }

    fn append_reasoning_delta(&mut self, delta: &str)
        ensures
            final(self).state() == old(self).state().more_reasoning(delta@),
            final(self).buffer == old(self).buffer,
    {
        if let Some(mut item) = self.current_reasoning.take() {
            item.text.append(delta);
            self.events.reasoning_delta(item.id.as_str(), item.index, delta);
            self.current_reasoning = Some(item);
        }
        assert(self.state() =~= old(self).state().more_reasoning(delta@));
    }

    fn close_reasoning_item(&mut self)
        ensures
            final(self).state() == old(self).state().close_reasoning(),
            final(self).buffer == old(self).buffer,
    {
        broadcast use json::group_json;

        if let Some(item) = self.current_reasoning.take() {
            let done = Json::object().put("id", Json::str(item.id.as_str())).put(
                "type",
                Json::str("reasoning"),
            ).put("status", Json::str("completed")).put(
                "summary",
                only(text_block("summary_text", item.text.as_str())),
            );
            self.output_items.push(done.clone());
            self.events.reasoning_done(item.id.as_str(), item.index, item.text.as_str(), done);
        }
        assert(self.state() =~= old(self).state().close_reasoning());
    }

    fn start_message_item(&mut self)
        ensures
            final(self).state() == old(self).state().start_message(),
            final(self).buffer == old(self).buffer,
    {
        let i: u32 = self.next_output_index();
        let id = make_item_id("msg_", self.now, i);
        self.events.message_added(id.as_str(), i);
        self.current_message = Some(ItemState { index: i, id, text: String::new() });
        self.phase = AnthropicPhase::Message;
        assert(self.state() =~= old(self).state().start_message());
    }

    fn append_message_delta(&mut self, delta: &str)
        ensures
            final(self).state() == old(self).state().more_text(delta@),
            final(self).buffer == old(self).buffer,
    {
        if let Some(mut item) = self.current_message.take() {
            item.text.append(delta);
            self.events.message_delta(item.id.as_str(), item.index, delta);
            self.current_message = Some(item);
        }
        assert(self.state() =~= old(self).state().more_text(delta@));
    }

    fn close_message_item(&mut self)
        ensures
            final(self).state() == old(self).state().close_message(),
            final(self).buffer == old(self).buffer,
    {
        broadcast use json::group_json;

        if let Some(item) = self.current_message.take() {
            self.output_items.push(message_item(item.id.as_str(), item.text.as_str()));
            self.events.message_done(item.id.as_str(), item.index, item.text.as_str());
        }
        assert(self.state() =~= old(self).state().close_message());
    }

    fn open_tool_call_item(&mut self, id: &str, name: &str)
        ensures
            final(self).state() == old(self).state().open_tool(id@, name@),
            final(self).buffer == old(self).buffer,
    {
        let i: u32 = self.next_output_index();
        self.events.call_added(id, i, id, name);
        self.current_tool = Some(
            AnthropicToolCallState {
                index: i,
                id: id.to_owned(),
                name: name.to_owned(),
                args: String::new(),
            },
        );
        self.phase = AnthropicPhase::ToolCall;
        assert(self.state() =~= old(self).state().open_tool(id@, name@));
    }

    fn append_tool_call_args(&mut self, delta: &str)
        ensures
            final(self).state() == old(self).state().more_args(delta@),
            final(self).buffer == old(self).buffer,
    {
        if let Some(mut tc) = self.current_tool.take() {
            tc.args.append(delta);
            self.events.call_delta(tc.id.as_str(), tc.index, delta);
            self.current_tool = Some(tc);
        }
        assert(self.state() =~= old(self).state().more_args(delta@));
    }

    fn close_tool_call_item(&mut self)
        ensures
            final(self).state() == old(self).state().close_tool(),
            final(self).buffer == old(self).buffer,
    {
        broadcast use json::group_json;

        if let Some(tc) = self.current_tool.take() {
            self.output_items.push(
                call_item(
                    tc.id.as_str(),
                    tc.id.as_str(),
                    tc.name.as_str(),
                    tc.args.as_str(),
                    "completed",
                ),
            );
            self.events.call_done(
                tc.id.as_str(),
                Some(tc.index),
                tc.id.as_str(),
                tc.name.as_str(),
                tc.args.as_str(),
            );
        }
        assert(self.state() =~= old(self).state().close_tool());
    }

    fn close_current(&mut self)
        ensures
            final(self).state() == old(self).state().close_current(),
            final(self).buffer == old(self).buffer,
    {
        match self.phase {
            AnthropicPhase::Reasoning => self.close_reasoning_item(),
            AnthropicPhase::Message => self.close_message_item(),
            _ => {},
        }
    }

    fn message_start(&mut self, data: &Json)
        ensures
            final(self).state() == old(self).state().message_start(data@),
            final(self).buffer == old(self).buffer,
    {
        if let Some(m) = data.get("message") {
            let id = m.str_or("id", "");
            if !id.is_empty() {
                self.response_id = id.to_owned();
            }
            if let Some(u) = m.get("usage") {
                self.input_tokens = u.u64_or("input_tokens", 0);
                self.output_tokens = u.u64_or("output_tokens", 0);
            }
        }
        assert(self.state() =~= old(self).state().message_start(data@));
    }

    fn block_start(&mut self, data: &Json)
        ensures
            final(self).state() == old(self).state().block_start(data@),
            final(self).buffer == old(self).buffer,
    {
        let block = data.get_or_null("content_block");
        let kind = block.str_or("type", "");
        if same(kind, "thinking") {
            self.close_current();
            self.start_reasoning_item();
        } else if same(kind, "text") {
            self.close_current();
            self.close_tool_call_item();
            self.start_message_item();
        } else if same(kind, "tool_use") {
            self.close_current();
            self.open_tool_call_item(block.str_or("id", ""), block.str_or("name", ""));
        }
    }

    fn block_delta(&mut self, data: &Json)
        ensures
            final(self).state() == old(self).state().block_delta(data@),
            final(self).buffer == old(self).buffer,
    {
        let delta = data.get_or_null("delta");
        let kind = delta.str_or("type", "");
        if same(kind, "thinking_delta") {
            if self.phase != AnthropicPhase::Reasoning {
                self.close_current();
                self.start_reasoning_item();
            }
            if let Some(t) = delta.str_at("thinking") {
                self.append_reasoning_delta(t);
            }
        } else if same(kind, "text_delta") {
            if self.phase != AnthropicPhase::Message {
                self.close_current();
                self.close_tool_call_item();
                self.start_message_item();
            }
            if let Some(t) = delta.str_at("text") {
                self.append_message_delta(t);
            }
        } else if same(kind, "input_json_delta") {
            if self.phase != AnthropicPhase::ToolCall {
                self.close_current();
            }
            if let Some(t) = delta.str_at("partial_json") {
                self.append_tool_call_args(t);
            }
        }
    }

    fn message_delta(&mut self, data: &Json)
        ensures
            final(self).state() == old(self).state().message_delta(data@),
            final(self).buffer == old(self).buffer,
    {
        let delta = data.get_or_null("delta");
        if let Some(r) = delta.str_at("stop_reason") {
            self.stop_reason = Some(r.to_owned());
        }
        if let Some(u) = data.get("usage") {
            self.output_tokens = u.u64_or("output_tokens", self.output_tokens);
        }
        assert(self.state() =~= old(self).state().message_delta(data@));
    }

    /// Takes in an event.
    pub fn handle_anthropic_event(&mut self, event_type: &str, data: &Json)
        ensures
            final(self)@.machine == old(self)@.machine.handle(event_type@, data@),
            final(self)@.rest == old(self)@.rest,
    {
        self.ensure_response_started();
        if same(event_type, "message_start") {
            self.message_start(data);
        } else if same(event_type, "content_block_start") {
            self.block_start(data);
        } else if same(event_type, "content_block_delta") {
            self.block_delta(data);
        } else if same(event_type, "content_block_stop") {
            self.close_current();
            self.close_tool_call_item();
            self.phase = AnthropicPhase::Idle;
        } else if same(event_type, "message_delta") {
            self.message_delta(data);
        } else if same(event_type, "message_stop") {
            self.close_current();
            self.close_tool_call_item();
        }
        assert(self.state() =~= old(self).state().handle(event_type@, data@));
    }

    fn response(&self) -> (r: Json)
        ensures
            r@ == self.state().response(),
    {
        broadcast use json::group_json;

        let cut = match &self.stop_reason {
            Some(r) => same(r.as_str(), "max_tokens"),
            None => false,
        };
        let status = if cut {
            "incomplete"
        } else {
            "completed"
        };
        let texts = gather_texts(
            &self.output_items,
            texts_of_item,
            Ghost(to_chat::item_texts_fn()),
        );
        let total: u64 = self.input_tokens.wrapping_add(self.output_tokens);
        let mut out = Json::object().put("id", Json::str(self.response_id.as_str())).put(
            "object",
            Json::str("response"),
        ).put("created_at", Json::number(self.created_at)).put("status", Json::str(status)).put(
            "model",
            Json::str(self.model.as_str()),
        ).put("output", Json::Arr(copy_all(&self.output_items))).put(
            "output_text",
            Json::str(text::join(&texts, "").as_str()),
        ).put("usage", responses_usage(self.input_tokens, self.output_tokens, total));
        if cut {
            out = out.put(
                "incomplete_details",
                Json::object().put("reason", Json::str("max_output_tokens")),
            );
        }
        out
    }

    /// Ends the response, where it has not ended.
    pub fn finalize(&mut self)
        ensures
            final(self)@.machine == old(self)@.machine.finalize(),
            final(self)@.rest == old(self)@.rest,
    {
        if self.stream_terminated {
            return;
        }
        self.stream_terminated = true;
        self.close_current();
        self.close_tool_call_item();
        let r = self.response();
        self.events.sse_event("response.completed", r);
        assert(self.state() =~= old(self).state().finalize());
    }

    fn failed_event(&mut self, message: &str)
        ensures
            final(self).state() == old(self).state().fail(message@),
            final(self).buffer == old(self).buffer,
    {
        self.stream_terminated = true;
        self.stream_failed = true;
        self.events.failed(self.response_id.as_str(), message);
    }

    fn line(&mut self, l: &str)
        ensures
            final(self).state() == old(self).state().line(l@),
            final(self)@.rest == old(self)@.rest,
    {
        if self.stream_failed {
            return;
        }
        if let Some(d) = data_in(l) {
            if same(d, "[DONE]") {
                self.finalize();
            } else if let Some(data) = Json::parse(d) {
                if data.get("error").is_some() {
                    self.failed_event("Upstream error");
                } else {
                    self.handle_anthropic_event(data.str_or("type", ""), &data);
                }
            }
        }
    }

    /// Takes in a piece of the stream that comes at a time, in milliseconds since the
    /// epoch, and gives out the events that it makes.
    pub fn feed_at(&mut self, chunk: &[u8], now: u64) -> (r: Vec<String>)
        ensures
            text::texts(r@) == fed_at(
                old(self)@,
                now,
                text::bytes_text(chunk@),
            ).machine.events.out,
            final(self)@.machine == fed_at(old(self)@, now, text::bytes_text(chunk@)).machine.taken(),
            final(self)@.rest == fed_at(old(self)@, now, text::bytes_text(chunk@)).rest,
    {
        self.now = now;
        let ghost start = self.state();
        let lines = self.buffer.push_bytes(chunk);
        let ghost all = text::texts(lines@);
        let ghost rest = self.buffer@;
        let n: usize = lines.len();
        assert(all.take(0) =~= Seq::<Seq<char>>::empty());
        for i in 0..n
            invariant
                n == lines@.len(),
                all == text::texts(lines@),
                self.buffer@ == rest,
                self.state() == sse::read_lines(start, all.take(i as int)),
        {
            proof {
                assert(all.take(i + 1).drop_last() =~= all.take(i as int));
                assert(all.take(i + 1).last() == lines@[i as int]@);
            }
            self.line(lines[i].as_str());
        }
        assert(all.take(n as int) =~= all);
        self.events.take()
    }

    /// Takes in a piece of the stream that comes now, and gives out the events that it
    /// makes.
    pub fn feed(&mut self, chunk: &[u8]) -> (r: Vec<String>)
        ensures
            exists|now: u64|
                text::texts(r@) == (#[trigger] fed_at(
                    old(self)@,
                    now,
                    text::bytes_text(chunk@),
                )).machine.events.out && final(self)@.machine == fed_at(old(self)@, now, text::bytes_text(chunk@)).machine.taken() && final(self)@.rest == fed_at(old(self)@, now, text::bytes_text(chunk@)).rest,
    {
        let now: u64 = chrono_like_id();
        self.feed_at(chunk, now)
    }

    /// Takes in that the stream broke off, and gives out the events that this makes.
    pub fn fail(&mut self, message: &str) -> (r: Vec<String>)
        ensures
            text::texts(r@) == old(self)@.machine.fail(message@).events.out,
            final(self)@.machine == old(self)@.machine.fail(message@).taken(),
            final(self)@.rest == old(self)@.rest,
    {
        self.failed_event(message);
        self.events.take()
    }

    /// Takes in that the stream is over, and gives out the events that this makes.
    pub fn end(&mut self) -> (r: Vec<String>)
        ensures
            text::texts(r@) == old(self)@.machine.end().events.out,
            final(self)@.machine == old(self)@.machine.end().taken(),
            final(self)@.rest == old(self)@.rest,
    {
        if !self.stream_failed {
            self.finalize();
        }
        self.events.take()
    }
}

/// A response ends once: ending it again says nothing more.
pub proof fn lemma_finalize_once(s: AnthropicToResponses)
    ensures
        s.finalize().terminated,
        s.finalize().finalize() == s.finalize(),
{
}

} // verus!
