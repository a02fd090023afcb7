//! A Responses stream as an Anthropic stream.

use vstd::prelude::*;

use super::anthropic_events::{Message, MessageWriter};
use super::chat_to_anthropic;
use super::chat_to_anthropic::make_message_id;
use super::pieces;
use super::sse;
use super::sse::{exact_data_in, LineBuffer, LineReader, Reading};
use crate::clock::unix_millis;
use crate::convert::responses::to_anthropic;
use crate::convert::responses::to_anthropic::calls_function;
use crate::json::{self, Json, JsonV};
use crate::text;
use crate::text::{same, trim};

verus! {

/// A Responses stream in the middle of its conversion.
#[verifier::ext_equal]
pub struct ResponsesToAnthropic {
    pub message: Message,
}

/// The type of the item of an event.
pub open spec fn is_call_item(e: JsonV) -> bool {
    e.get_or_null("item"@).str_is("type"@, "function_call"@)
}

/// Why an Anthropic message stops, by the response that an event holds.
pub open spec fn stop_reason_of_event(e: JsonV) -> Seq<char> {
    to_anthropic::stop_reason_of_responses(e.get_or_null("response"@))
}

/// The place of the item that an event is about.
pub open spec fn item_place(e: JsonV) -> usize {
    e.u64_or("output_index"@, 0) as usize
}

/// The place that an event tells, where it tells one.
pub open spec fn told_place(e: JsonV) -> Option<usize> {
    match e.u64_at("output_index"@) {
        Some(_) => Some(item_place(e)),
        None => None,
    }
}

impl ResponsesToAnthropic {
    /// The conversion before its start.
    pub open spec fn new(id: Seq<char>, model: Seq<char>) -> ResponsesToAnthropic {
        ResponsesToAnthropic { message: Message::new(id, model) }
    }

    /// The message started with the id and the usage of its response.
    pub open spec fn start(self, e: JsonV) -> ResponsesToAnthropic {
        if self.message.started {
            self
        } else {
            let m = match e.get("response"@) {
                Some(resp) => Message {
                    id: resp.str_or("id"@, self.message.id),
                    input_tokens: match resp.get("usage"@) {
                        Some(u) => u.u64_or("input_tokens"@, 0),
                        None => self.message.input_tokens,
                    },
                    ..self.message
                },
                None => self.message,
            };
            ResponsesToAnthropic { message: m.start() }
        }
    }

    /// A tool opened; what was open is closed before it.
    pub open spec fn item_added(self, e: JsonV) -> ResponsesToAnthropic {
        if is_call_item(e) {
            let item = e.get_or_null("item"@);
            ResponsesToAnthropic {
                message: self.message.start_tool(
                    item_place(e),
                    item.str_or("call_id"@, ""@),
                    item.str_or("name"@, ""@),
                ),
            }
        } else {
            self
        }
    }

    /// The message ended with the response that an event holds.
    pub open spec fn completed(self, e: JsonV) -> ResponsesToAnthropic {
        if self.message.finished {
            self
        } else {
            let m = match e.get_or_null("response"@).get("usage"@) {
                Some(u) => Message {
                    output_tokens: u.u64_or("output_tokens"@, self.message.output_tokens),
                    ..self.message
                },
                None => self.message,
            };
            ResponsesToAnthropic { message: m.close().finish(stop_reason_of_event(e)) }
        }
    }

    /// The state after an event.
    pub open spec fn event(self, e: JsonV) -> ResponsesToAnthropic {
        let kind = e.str_or("type"@, ""@);
        let delta = e.str_or("delta"@, ""@);
        if kind == "response.created"@ || kind == "response.in_progress"@ {
            self.start(e)
        } else if kind == "response.output_text.delta"@ {
            if delta.len() > 0 {
                ResponsesToAnthropic { message: self.message.say(delta) }
            } else {
                self
            }
        } else if kind == "response.output_text.done"@ {
            ResponsesToAnthropic { message: self.message.close_text() }
        } else if kind == "response.output_item.added"@ {
            self.item_added(e)
        } else if kind == "response.function_call_arguments.delta"@ {
            if delta.len() > 0 {
                ResponsesToAnthropic { message: self.message.tool_input(item_place(e), delta) }
            } else {
                self
            }
        } else if kind == "response.output_item.done"@ {
            if is_call_item(e) {
                ResponsesToAnthropic { message: self.message.close_tool(told_place(e)) }
            } else {
                self
            }
        } else if kind == "response.completed"@ {
            self.completed(e)
        } else if kind == "response.reasoning_summary_text.delta"@ {
            if delta.len() > 0 {
                ResponsesToAnthropic { message: self.message.think(delta) }
            } else {
                self
            }
        } else if kind == "response.reasoning_summary_text.done"@ {
            ResponsesToAnthropic { message: self.message.close_thinking() }
        } else {
            self
        }
    }

    /// The state after the end of the stream is announced.
    pub open spec fn done(self) -> ResponsesToAnthropic {
        if self.message.finished {
            self
        } else {
            ResponsesToAnthropic { message: self.message.close().finish("end_turn"@) }
        }
    }
}

impl LineReader for ResponsesToAnthropic {
    open spec fn line(self, l: Seq<char>) -> ResponsesToAnthropic {
        match sse::exact_data_of(text::trimmed(l)) {
            Some(d) => if d == "[DONE]"@ {
                self.done()
            } else {
                match json::wire::json_of_text(d) {
                    Some(e) => self.event(e),
                    None => self,
                }
            },
            None => self,
        }
    }
}

/// Converts a Responses stream to an Anthropic stream.
pub struct ResponsesStreamState {
    message: MessageWriter,
    buffer: LineBuffer,
}

impl View for ResponsesStreamState {
    type V = Reading<ResponsesToAnthropic>;

    closed spec fn view(&self) -> Reading<ResponsesToAnthropic> {
        Reading { machine: self.state(), rest: self.buffer@ }
    }
}

impl ResponsesStreamState {
    closed spec fn state(self) -> ResponsesToAnthropic {
        ResponsesToAnthropic { message: self.message@ }
    }

    /// The conversion of a stream that starts at a time, in milliseconds since the epoch.
    pub fn new_at(request_model: &str, millis: u128) -> (r: ResponsesStreamState)
        ensures
            r@.machine == ResponsesToAnthropic::new(
                chat_to_anthropic::message_id(millis),
                request_model@,
            ),
            r@.rest == Seq::<char>::empty(),
    {
        ResponsesStreamState {
            message: MessageWriter::new(make_message_id(millis), request_model),
            buffer: LineBuffer::new(),
        }
    }

    /// The conversion of a stream that starts now.
    pub fn new(request_model: &str) -> (r: ResponsesStreamState)
        ensures
            exists|millis: u128|
                r@.machine == ResponsesToAnthropic::new(
                    #[trigger] chat_to_anthropic::message_id(millis),
                    request_model@,
                ),
            r@.rest == Seq::<char>::empty(),
    {
        let millis: u128 = unix_millis();
        ResponsesStreamState::new_at(request_model, millis)
    }

    fn start(&mut self, e: &Json)
        ensures
            final(self).state() == old(self).state().start(e@),
            final(self).buffer == old(self).buffer,
    {
        if !self.message.started {
            if let Some(resp) = e.get("response") {
                if let Some(id) = resp.str_at("id") {
                    self.message.id = id.to_owned();
                }
                if let Some(u) = resp.get("usage") {
                    self.message.input_tokens = u.u64_or("input_tokens", 0);
                }
            }
            assert(self.message@ =~= match e@.get("response"@) {
                Some(resp) => Message {
                    id: resp.str_or("id"@, old(self).message@.id),
                    input_tokens: match resp.get("usage"@) {
                        Some(u) => u.u64_or("input_tokens"@, 0),
                        None => old(self).message@.input_tokens,
                    },
                    ..old(self).message@
                },
                None => old(self).message@,
            });
            self.message.start();
        }
        assert(self.state() =~= old(self).state().start(e@));
    }

    fn item_added(&mut self, e: &Json)
        ensures
            final(self).state() == old(self).state().item_added(e@),
            final(self).buffer == old(self).buffer,
    {
        let item = e.get_or_null("item");
        if item.str_is("type", "function_call") {
            let place: usize = e.u64_or("output_index", 0) as usize;
            self.message.start_tool(place, item.str_or("call_id", ""), item.str_or("name", ""));
        }
        assert(self.state() =~= old(self).state().item_added(e@));
    }

    fn completed(&mut self, e: &Json)
        ensures
            final(self).state() == old(self).state().completed(e@),
            final(self).buffer == old(self).buffer,
    {
        if self.message.finished {
            return;
        }
        let resp = e.get_or_null("response");
        if let Some(u) = resp.get("usage") {
            self.message.output_tokens = u.u64_or("output_tokens", self.message.output_tokens);
        }
        assert(self.state() =~= (ResponsesToAnthropic {
            message: match e@.get_or_null("response"@).get("usage"@) {
                Some(u) => Message {
                    output_tokens: u.u64_or("output_tokens"@, old(self).message@.output_tokens),
                    ..old(self).message@
                },
                None => old(self).message@,
            },
        }));
        self.message.close();
        let calls = match resp.array_at("output") {
            Some(items) => calls_function(items),
            None => false,
        };
        assert(calls == to_anthropic::has_function_call(to_anthropic::output_of(resp@)));
        let stop = if calls {
            "tool_use"
        } else if resp.str_is("status", "incomplete") {
            "max_tokens"
        } else {
            "end_turn"
        };
        self.message.finish(stop);
        assert(self.state() =~= old(self).state().completed(e@));
    }

    fn event(&mut self, e: &Json)
        ensures
            final(self).state() == old(self).state().event(e@),
            final(self).buffer == old(self).buffer,
    {
        let kind = e.str_or("type", "");
        let delta = e.str_or("delta", "");
        if same(kind, "response.created") || same(kind, "response.in_progress") {
            self.start(e);
        } else if same(kind, "response.output_text.delta") {
            if !delta.is_empty() {
                self.message.say(delta);
            }
        } else if same(kind, "response.output_text.done") {
            self.message.close_text();
        } else if same(kind, "response.output_item.added") {
            self.item_added(e);
        } else if same(kind, "response.function_call_arguments.delta") {
            if !delta.is_empty() {
                self.message.tool_input(e.u64_or("output_index", 0) as usize, delta);
            }
        } else if same(kind, "response.output_item.done") {
            if e.get_or_null("item").str_is("type", "function_call") {
                let place: Option<usize> = match e.u64_at("output_index") {
                    Some(k) => Some(k as usize),
                    None => None,
                };
                self.message.close_tool(place);
            }
        } else if same(kind, "response.completed") {
            self.completed(e);
        } else if same(kind, "response.reasoning_summary_text.delta") {
            if !delta.is_empty() {
                self.message.think(delta);
            }
        } else if same(kind, "response.reasoning_summary_text.done") {
            self.message.close_thinking();
        }
        assert(self.state() =~= old(self).state().event(e@));
    }

    fn done(&mut self)
        ensures
            final(self).state() == old(self).state().done(),
            final(self).buffer == old(self).buffer,
    {
        if !self.message.finished {
            self.message.close();
            self.message.finish("end_turn");
        }
        assert(self.state() =~= old(self).state().done());
    }

    fn line(&mut self, l: &str)
        ensures
            final(self).state() == old(self).state().line(l@),
            final(self).buffer == old(self).buffer,
    {
        if let Some(d) = exact_data_in(trim(l)) {
            if same(d, "[DONE]") {
                self.done();
            } else if let Some(e) = Json::parse(d) {
                self.event(&e);
            }
        }
    }

    /// Takes in a piece of the stream and gives out the events that it makes.
    pub fn feed(&mut self, chunk: &[u8]) -> (r: Vec<String>)
        ensures
            text::texts(r@) == sse::fed(old(self)@, text::bytes_text(chunk@)).machine.message.out,
            final(self)@ == pieces::emptied(
                sse::fed(old(self)@, text::bytes_text(chunk@)),
            ),
    {
        let lines = self.buffer.push_bytes(chunk);
        let ghost all = text::texts(lines@);
        let ghost rest = self.buffer@;
        let n: usize = lines.len();
        assert(all.take(0) =~= Seq::<Seq<char>>::empty());
        for i in 0..n
            invariant
                n == lines@.len(),
                all == text::texts(lines@),
                self.buffer@ == rest,
                self.state() == sse::read_lines(old(self).state(), all.take(i as int)),
        {
            proof {
                assert(all.take(i + 1).drop_last() =~= all.take(i as int));
                assert(all.take(i + 1).last() == lines@[i as int]@);
            }
            self.line(lines[i].as_str());
        }
        assert(all.take(n as int) =~= all);
        self.message.take()
    }
}

} // verus!
