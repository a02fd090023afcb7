//! A Chat Completions stream as an Anthropic stream.

use vstd::prelude::*;

use super::anthropic_events::{Message, MessageWriter};
use super::pieces;
use super::sse;
use super::sse::{exact_data_in, LineBuffer, LineReader, Reading};
use crate::clock::unix_millis;
use crate::convert::requests::chat_anthropic;
use crate::convert::responses::to_anthropic;
use crate::convert::responses::to_anthropic::{choice_of, finish_to_stop_reason};
use crate::json::{self, Json, JsonV};
use crate::text;
use crate::text::{concat2, same, to_hexadecimal, trim};

verus! {

/// A Chat Completions stream in the middle of its conversion.
#[verifier::ext_equal]
pub struct ChatToAnthropic {
    pub message: Message,
    /// Whether a tool was called.
    pub called: bool,
}

/// The place of a tool call.
pub open spec fn call_place(tc: JsonV) -> usize {
    tc.u64_or("index"@, 0) as usize
}

impl ChatToAnthropic {
    /// The conversion before its start.
    pub open spec fn new(id: Seq<char>, model: Seq<char>) -> ChatToAnthropic {
        ChatToAnthropic { message: Message::new(id, model), called: false }
    }

    /// The message started with the usage of the first chunk.
    pub open spec fn start(self, chunk: JsonV) -> ChatToAnthropic {
        if self.message.started {
            self
        } else {
            let m = match chunk.get("usage"@) {
                Some(u) => Message {
                    input_tokens: u.u64_or("prompt_tokens"@, 0),
                    output_tokens: u.u64_or("completion_tokens"@, self.message.output_tokens),
                    ..self.message
                },
                None => self.message,
            };
            ChatToAnthropic { message: m.start(), ..self }
        }
    }

    /// Reasoning becomes thinking; where there is none, thinking is over.
    pub open spec fn reasoning(self, delta: Option<JsonV>) -> ChatToAnthropic {
        ChatToAnthropic {
            message: match json::str_of_v(json::at_v(delta, "reasoning_content"@)) {
                Some(t) => if t.len() > 0 {
                    self.message.think(t)
                } else {
                    self.message
                },
                None => self.message.close_thinking(),
            },
            ..self
        }
    }

    /// Text becomes text.
    pub open spec fn content(self, delta: Option<JsonV>) -> ChatToAnthropic {
        match json::str_of_v(json::at_v(delta, "content"@)) {
            Some(t) => if t.len() > 0 {
                ChatToAnthropic { message: self.message.say(t), ..self }
            } else {
                self
            },
            None => self,
        }
    }

    /// A tool call has a block.
    pub open spec fn open_tool(self, tc: JsonV) -> ChatToAnthropic {
        ChatToAnthropic {
            message: self.message.begin_tool(
                call_place(tc),
                tc.str_or("id"@, ""@),
                chat_anthropic::call_name(tc),
            ),
            called: true,
        }
    }

    /// A tool call becomes a tool with its input.
    pub open spec fn tool_call(self, tc: JsonV) -> ChatToAnthropic {
        let s = self.open_tool(tc);
        match tc.get_or_null("function"@).str_at("arguments"@) {
            Some(t) => if t.len() > 0 {
                ChatToAnthropic { message: s.message.tool_input(call_place(tc), t), ..s }
            } else {
                s
            },
            None => s,
        }
    }

    /// Tool calls one after the other.
    pub open spec fn tool_calls(self, tcs: Seq<JsonV>) -> ChatToAnthropic
        decreases tcs.len(),
    {
        if tcs.len() == 0 {
            self
        } else {
            self.tool_calls(tcs.drop_last()).tool_call(tcs.last())
        }
    }

    /// The tool calls of a delta.
    pub open spec fn calls(self, delta: Option<JsonV>) -> ChatToAnthropic {
        match json::array_of_v(json::at_v(delta, "tool_calls"@)) {
            Some(tcs) => self.tool_calls(tcs),
            None => self,
        }
    }

    /// The message ended for the reason of a chunk; a turn in which no tool was called does
    /// not end for the use of tools.
    pub open spec fn finish(self, reason: Seq<char>, chunk: JsonV) -> ChatToAnthropic {
        let stop = to_anthropic::stop_reason_of_finish(Some(reason));
        let stop = if stop == "tool_use"@ && !self.called {
            "end_turn"@
        } else {
            stop
        };
        let m = self.message.close();
        let m = match chunk.get("usage"@) {
            Some(u) => Message {
                output_tokens: u.u64_or("completion_tokens"@, m.output_tokens),
                ..m
            },
            None => m,
        };
        ChatToAnthropic { message: m.finish(stop), ..self }
    }

    /// The message ended where the choice says why.
    pub open spec fn finish_reason(self, choice: JsonV, chunk: JsonV) -> ChatToAnthropic {
        match choice.str_at("finish_reason"@) {
            Some(r) => if r.len() > 0 && r != "null"@ && !self.message.finished {
                self.finish(r, chunk)
            } else {
                self
            },
            None => self,
        }
    }

    /// The state after a chunk.
    pub open spec fn chunk(self, chunk: JsonV) -> ChatToAnthropic {
        let s = self.start(chunk);
        match to_anthropic::first_choice(chunk) {
            Some(choice) => {
                let delta = choice.get("delta"@);
                s.reasoning(delta).content(delta).calls(delta).finish_reason(choice, chunk)
            },
            None => s,
        }
    }

    /// The state after the end of the stream is announced.
    pub open spec fn done(self) -> ChatToAnthropic {
        if self.message.finished {
            self
        } else {
            ChatToAnthropic { message: self.message.close().finish("end_turn"@), ..self }
        }
    }
}

impl LineReader for ChatToAnthropic {
    open spec fn line(self, l: Seq<char>) -> ChatToAnthropic {
        let t = text::trimmed(l);
        if t == "data: [DONE]"@ {
            self.done()
        } else {
            match sse::exact_data_of(t) {
                Some(d) => match json::wire::json_of_text(d) {
                    Some(chunk) => self.chunk(chunk),
                    None => self,
                },
                None => self,
            }
        }
    }
}

/// The id of a message that starts at a time, in milliseconds since the epoch.
pub open spec fn message_id(millis: u128) -> Seq<char> {
    "msg_"@ + text::hexadecimal(millis as nat)
}

pub(crate) fn make_message_id(millis: u128) -> (r: String)
    ensures
        r@ == message_id(millis),
{
    concat2("msg_", to_hexadecimal(millis).as_str())
}

/// Converts a Chat Completions stream to an Anthropic stream.
pub struct StreamState {
    message: MessageWriter,
    tool_called: bool,
    buffer: LineBuffer,
}

impl View for StreamState {
    type V = Reading<ChatToAnthropic>;

    closed spec fn view(&self) -> Reading<ChatToAnthropic> {
        Reading { machine: self.state(), rest: self.buffer@ }
    }
}

impl StreamState {
    closed spec fn state(self) -> ChatToAnthropic {
        ChatToAnthropic { message: self.message@, called: self.tool_called }
    }

    /// The conversion of a stream that starts at a time, in milliseconds since the epoch.
    pub fn new_at(request_model: &str, millis: u128) -> (r: StreamState)
        ensures
            r@.machine == ChatToAnthropic::new(message_id(millis), request_model@),
            r@.rest == Seq::<char>::empty(),
    {
        StreamState {
            message: MessageWriter::new(make_message_id(millis), request_model),
            tool_called: false,
            buffer: LineBuffer::new(),
        }
    }

    /// The conversion of a stream that starts now.
    pub fn new(request_model: &str) -> (r: StreamState)
        ensures
            exists|millis: u128|
                r@.machine == ChatToAnthropic::new(#[trigger] message_id(millis), request_model@),
            r@.rest == Seq::<char>::empty(),
    {
        let millis: u128 = unix_millis();
        StreamState::new_at(request_model, millis)
    }

    fn start(&mut self, chunk: &Json)
        ensures
            final(self).state() == old(self).state().start(chunk@),
            final(self).buffer == old(self).buffer,
    {
        if !self.message.started {
            if let Some(u) = chunk.get("usage") {
                self.message.input_tokens = u.u64_or("prompt_tokens", 0);
                self.message.output_tokens = u.u64_or(
                    "completion_tokens",
                    self.message.output_tokens,
                );
            }
            let ghost m = self.message@;
            assert(m =~= match chunk@.get("usage"@) {
                Some(u) => Message {
                    input_tokens: u.u64_or("prompt_tokens"@, 0),
                    output_tokens: u.u64_or("completion_tokens"@, old(self).message@.output_tokens),
                    ..old(self).message@
                },
                None => old(self).message@,
            });
            self.message.start();
        }
        assert(self.state() =~= old(self).state().start(chunk@));
    }

    fn reasoning(&mut self, delta: Option<&Json>)
        ensures
            final(self).state() == old(self).state().reasoning(json::opt_view(delta)),
            final(self).buffer == old(self).buffer,
    {
        match json::str_of(json::at(delta, "reasoning_content")) {
            Some(t) => {
                if !t.is_empty() {
                    self.message.think(t);
                }
            },
            None => self.message.close_thinking(),
        }
        assert(self.state() =~= old(self).state().reasoning(json::opt_view(delta)));
    }

    fn content(&mut self, delta: Option<&Json>)
        ensures
            final(self).state() == old(self).state().content(json::opt_view(delta)),
            final(self).buffer == old(self).buffer,
    {
        if let Some(t) = json::str_of(json::at(delta, "content")) {
            if !t.is_empty() {
                self.message.say(t);
            }
        }
        assert(self.state() =~= old(self).state().content(json::opt_view(delta)));
    }

    fn open_tool(&mut self, tc: &Json)
        ensures
            final(self).state() == old(self).state().open_tool(tc@),
            final(self).buffer == old(self).buffer,
    {
        let place: usize = tc.u64_or("index", 0) as usize;
        let func = tc.get_or_null("function");
        self.message.begin_tool(place, tc.str_or("id", ""), func.str_or("name", ""));
        self.tool_called = true;
        assert(self.state() =~= old(self).state().open_tool(tc@));
    }

    fn tool_call(&mut self, tc: &Json)
        ensures
            final(self).state() == old(self).state().tool_call(tc@),
            final(self).buffer == old(self).buffer,
    {
        self.open_tool(tc);
        let func = tc.get_or_null("function");
        if let Some(t) = func.str_at("arguments") {
            if !t.is_empty() {
                self.message.tool_input(tc.u64_or("index", 0) as usize, t);
            }
        }
        assert(self.state() =~= old(self).state().tool_call(tc@));
    }

    fn calls(&mut self, delta: Option<&Json>)
        ensures
            final(self).state() == old(self).state().calls(json::opt_view(delta)),
            final(self).buffer == old(self).buffer,
    {
        if let Some(tcs) = json::array_of(json::at(delta, "tool_calls")) {
            let ghost all = json::views(tcs@);
            let n: usize = tcs.len();
            assert(all.take(0) =~= Seq::<JsonV>::empty());
            for i in 0..n
                invariant
                    n == tcs@.len(),
                    all == json::views(tcs@),
                    self.buffer == old(self).buffer,
                    self.state() == old(self).state().tool_calls(all.take(i as int)),
            {
                proof {
                    assert(all.take(i + 1).drop_last() =~= all.take(i as int));
                    assert(all.take(i + 1).last() == tcs@[i as int]@);
                }
                self.tool_call(&tcs[i]);
            }
            assert(all.take(n as int) =~= all);
        }
    }

    fn finish_reason(&mut self, choice: &Json, chunk: &Json)
        ensures
            final(self).state() == old(self).state().finish_reason(choice@, chunk@),
            final(self).buffer == old(self).buffer,
    {
        if let Some(reason) = choice.str_at("finish_reason") {
            if !reason.is_empty() && !same(reason, "null") && !self.message.finished {
                let mut stop = finish_to_stop_reason(Some(reason));
                if same(stop, "tool_use") && !self.tool_called {
                    stop = "end_turn";
                }
                self.message.close();
                let ghost m = self.message@;
                if let Some(u) = chunk.get("usage") {
                    self.message.output_tokens = u.u64_or(
                        "completion_tokens",
                        self.message.output_tokens,
                    );
                    assert(self.message@ =~= (Message {
                        output_tokens: chunk@.get("usage"@)->0.u64_or(
                            "completion_tokens"@,
                            m.output_tokens,
                        ),
                        ..m
                    }));
                }
                self.message.finish(stop);
                assert(self.state() =~= old(self).state().finish(reason@, chunk@));
            }
        }
    }

    fn chunk(&mut self, chunk: &Json)
        ensures
            final(self).state() == old(self).state().chunk(chunk@),
            final(self).buffer == old(self).buffer,
    {
        self.start(chunk);
        if let Some(choice) = choice_of(chunk) {
            let delta = choice.get("delta");
            self.reasoning(delta);
            self.content(delta);
            self.calls(delta);
            self.finish_reason(choice, chunk);
        }
    }

    fn done(&mut self)
        ensures
            final(self).state() == old(self).state().done(),
            final(self).buffer == old(self).buffer,
    {
        if !self.message.finished {
            self.message.close();
            self.message.finish("end_turn");
        }
        assert(self.state() =~= old(self).state().done());
    }

    fn line(&mut self, l: &str)
        ensures
            final(self).state() == old(self).state().line(l@),
            final(self).buffer == old(self).buffer,
    {
        let t = trim(l);
        if same(t, "data: [DONE]") {
            self.done();
        } else if let Some(d) = exact_data_in(t) {
            if let Some(chunk) = Json::parse(d) {
                self.chunk(&chunk);
            }
        }
    }

    /// Takes in a piece of the stream and gives out the events that it makes.
    pub fn feed(&mut self, chunk: &[u8]) -> (r: Vec<String>)
        ensures
            text::texts(r@) == sse::fed(old(self)@, text::bytes_text(chunk@)).machine.message.out,
            final(self)@ == pieces::emptied(
                sse::fed(old(self)@, text::bytes_text(chunk@)),
            ),
    {
        let lines = self.buffer.push_bytes(chunk);
        let ghost all = text::texts(lines@);
        let ghost rest = self.buffer@;
        let n: usize = lines.len();
        assert(all.take(0) =~= Seq::<Seq<char>>::empty());
        for i in 0..n
            invariant
                n == lines@.len(),
                all == text::texts(lines@),
                self.buffer@ == rest,
                self.state() == sse::read_lines(old(self).state(), all.take(i as int)),
        {
            proof {
                assert(all.take(i + 1).drop_last() =~= all.take(i as int));
                assert(all.take(i + 1).last() == lines@[i as int]@);
            }
            self.line(lines[i].as_str());
        }
        assert(all.take(n as int) =~= all);
        let r = self.message.take();
        assert(self.state() =~= ChatToAnthropic {
            message: Message { out: Seq::empty(), ..self.message@ },
            ..self.state()
        });
        r
    }
}

} // verus!
