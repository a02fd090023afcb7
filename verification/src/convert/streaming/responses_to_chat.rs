//! A Responses stream as a Chat Completions stream.

use vstd::prelude::*;

use super::chat_chunks;
use super::chat_chunks::{read_line, ChatOut, ChatWriter, EventLine, ReadLine};
use super::responses_to_anthropic;
use super::pieces;
use super::sse;
use super::sse::{LineBuffer, LineReader, Reading};
use crate::convert::responses::to_anthropic;
use crate::convert::responses::to_anthropic::calls_function;
use crate::convert::responses::to_responses;
use crate::convert::responses::to_responses::only;
use crate::json::{self, Json, JsonV};
use crate::text;
use crate::text::same;

verus! {

/// A Responses stream in the middle of its conversion. The model that is reported is the
/// one of the request, whatever the stream says.
#[verifier::ext_equal]
pub struct ResponsesToChat {
    /// The name of the event that follows, empty where none was given.
    pub event: Seq<char>,
    pub chat: ChatOut,
}

/// The part of a tool call that adds to its arguments.
pub open spec fn more_arguments_v(index: u64, delta: Seq<char>) -> JsonV {
    to_responses::one(
        json::jobj().put("index"@, json::jnum(index)).put(
            "function"@,
            json::jobj().put("arguments"@, JsonV::Str(delta)).put("name"@, JsonV::Null),
        ),
    )
}

/// The start of a tool call.
pub open spec fn new_call_v(index: u64, id: Seq<char>, name: Seq<char>) -> JsonV {
    to_responses::one(
        json::jobj().put("index"@, json::jnum(index)).put("id"@, JsonV::Str(id)).put(
            "type"@,
            JsonV::Str("function"@),
        ).put(
            "function"@,
            json::jobj().put("name"@, JsonV::Str(name)).put("arguments"@, JsonV::Str(""@)),
        ),
    )
}

/// Why a chat finishes, by the response that an event holds.
pub open spec fn finish_of_event(e: JsonV) -> Seq<char> {
    let resp = e.get_or_null("response"@);
    if resp.str_is("status"@, "incomplete"@) {
        "length"@
    } else if resp.str_is("status"@, "failed"@) {
        "stop"@
    } else if to_anthropic::has_function_call(to_anthropic::output_of(resp)) {
        "tool_calls"@
    } else {
        "stop"@
    }
}

impl ResponsesToChat {
    /// The conversion before its start.
    pub open spec fn new(model: Seq<char>) -> ResponsesToChat {
        ResponsesToChat {
            event: Seq::empty(),
            chat: ChatOut { id: Seq::empty(), model, created: 0, sent: 0, out: Seq::empty() },
        }
    }

    /// The state with a delta sent.
    pub open spec fn send(
        self,
        reasoning: bool,
        content: Seq<char>,
        tool_calls: Option<JsonV>,
    ) -> ResponsesToChat {
        ResponsesToChat { chat: self.chat.send(reasoning, content, tool_calls), ..self }
    }

    /// The state with the id and the time of the response, where they are not known yet.
    pub open spec fn start(self, e: JsonV) -> ResponsesToChat {
        match e.get("response"@) {
            Some(resp) => ResponsesToChat {
                chat: ChatOut {
                    id: if self.chat.id.len() == 0 {
                        resp.str_or("id"@, ""@)
                    } else {
                        self.chat.id
                    },
                    created: if self.chat.created == 0 {
                        resp.u64_or("created_at"@, 0)
                    } else {
                        self.chat.created
                    },
                    ..self.chat
                },
                ..self
            },
            None => self,
        }
    }

    /// The state after an event of that name.
    pub open spec fn handle(self, name: Seq<char>, e: JsonV) -> ResponsesToChat {
        let delta = e.str_or("delta"@, ""@);
        let index = e.u64_or("output_index"@, 0);
        let item = e.get_or_null("item"@);
        if name == "response.created"@ || name == "response.in_progress"@ {
            self.start(e)
        } else if name == "response.reasoning_summary_text.delta"@ {
            if delta.len() > 0 {
                self.send(true, delta, None)
            } else {
                self
            }
        } else if name == "response.output_text.delta"@ {
            if delta.len() > 0 {
                self.send(false, delta, None)
            } else {
                self
            }
        } else if name == "response.function_call_arguments.delta"@ {
            if delta.len() > 0 {
                self.send(false, ""@, Some(more_arguments_v(index, delta)))
            } else {
                self
            }
        } else if name == "response.output_item.added"@ {
            if responses_to_anthropic::is_call_item(e) {
                self.send(
                    false,
                    ""@,
                    Some(new_call_v(index, item.str_or("id"@, ""@), item.str_or("name"@, ""@))),
                )
            } else {
                self
            }
        } else if name == "response.completed"@ {
            ResponsesToChat { chat: self.chat.finish(finish_of_event(e)), ..self }
        } else if name == "response.failed"@ {
            ResponsesToChat { chat: self.chat.finish("stop"@), ..self }
        } else {
            self
        }
    }
}

impl LineReader for ResponsesToChat {
    open spec fn line(self, l: Seq<char>) -> ResponsesToChat {
        match chat_chunks::event_line(l) {
            EventLine::Nothing => self,
            EventLine::Name(name) => ResponsesToChat { event: name, ..self },
            EventLine::Data(e) => ResponsesToChat { event: Seq::empty(), ..self }.handle(
                chat_chunks::event_name(self.event, e),
                e,
            ),
        }
    }
}

/// Converts a Responses stream to a Chat Completions stream.
pub struct ResponsesChatState {
    event_type: String,
    chat: ChatWriter,
    buffer: LineBuffer,
}

impl View for ResponsesChatState {
    type V = Reading<ResponsesToChat>;

    closed spec fn view(&self) -> Reading<ResponsesToChat> {
        Reading { machine: self.state(), rest: self.buffer@ }
    }
}

impl ResponsesChatState {
    closed spec fn state(self) -> ResponsesToChat {
        ResponsesToChat { event: self.event_type@, chat: self.chat@ }
    }

    /// The conversion of a stream.
    pub fn new(request_model: &str) -> (r: ResponsesChatState)
        ensures
            r@.machine == ResponsesToChat::new(request_model@),
            r@.rest == Seq::<char>::empty(),
    {
        ResponsesChatState {
            event_type: String::new(),
            chat: ChatWriter::new(request_model, 0),
            buffer: LineBuffer::new(),
        }
    }

    fn start(&mut self, e: &Json)
        ensures
            final(self).state() == old(self).state().start(e@),
            final(self).buffer == old(self).buffer,
    {
        if let Some(resp) = e.get("response") {
            if self.chat.id.as_str().is_empty() {
                self.chat.id = resp.str_or("id", "").to_owned();
            }
            if self.chat.created == 0 {
                self.chat.created = resp.u64_or("created_at", 0);
            }
        }
        assert(self.state() =~= old(self).state().start(e@));
    }

    fn handle(&mut self, name: &str, e: &Json)
        ensures
            final(self).state() == old(self).state().handle(name@, e@),
            final(self).buffer == old(self).buffer,
    {
        let delta = e.str_or("delta", "");
        let index: u64 = e.u64_or("output_index", 0);
        if same(name, "response.created") || same(name, "response.in_progress") {
            self.start(e);
        } else if same(name, "response.reasoning_summary_text.delta") {
            if !delta.is_empty() {
                self.chat.chat_delta_chunk(true, delta, None);
            }
        } else if same(name, "response.output_text.delta") {
            if !delta.is_empty() {
                self.chat.chat_delta_chunk(false, delta, None);
            }
        } else if same(name, "response.function_call_arguments.delta") {
            if !delta.is_empty() {
                let tc = only(
                    Json::object().put("index", Json::number(index)).put(
                        "function",
                        Json::object().put("arguments", Json::str(delta)).put("name", Json::null()),
                    ),
                );
                self.chat.chat_delta_chunk(false, "", Some(tc));
            }
        } else if same(name, "response.output_item.added") {
            let item = e.get_or_null("item");
            if item.str_is("type", "function_call") {
                let tc = only(
                    Json::object().put("index", Json::number(index)).put(
                        "id",
                        Json::str(item.str_or("id", "")),
                    ).put("type", Json::str("function")).put(
                        "function",
                        Json::object().put("name", Json::str(item.str_or("name", ""))).put(
                            "arguments",
                            Json::str(""),
                        ),
                    ),
                );
                self.chat.chat_delta_chunk(false, "", Some(tc));
            }
        } else if same(name, "response.completed") {
            let resp = e.get_or_null("response");
            let calls = match resp.array_at("output") {
                Some(items) => calls_function(items),
                None => false,
            };
            assert(calls == to_anthropic::has_function_call(to_anthropic::output_of(resp@)));
            let finish = if resp.str_is("status", "incomplete") {
                "length"
            } else if resp.str_is("status", "failed") {
                "stop"
            } else if calls {
                "tool_calls"
            } else {
                "stop"
            };
            self.chat.finish(finish);
        } else if same(name, "response.failed") {
            self.chat.finish("stop");
        }
    }

    fn line(&mut self, l: &str)
        ensures
            final(self).state() == old(self).state().line(l@),
            final(self).buffer == old(self).buffer,
    {
        match read_line(l) {
            ReadLine::Nothing => {},
            ReadLine::Name(name) => {
                self.event_type = name;
            },
            ReadLine::Data(e) => {
                let name = if !self.event_type.as_str().is_empty() {
                    self.event_type.clone()
                } else {
                    e.str_or("type", "").to_owned()
                };
                self.event_type = String::new();
                self.handle(name.as_str(), &e);
            },
        }
    }

    /// Takes in a piece of the stream and gives out the chunks that it makes.
    pub fn feed(&mut self, chunk: &[u8]) -> (r: Vec<String>)
        ensures
            text::texts(r@) == sse::fed(old(self)@, text::bytes_text(chunk@)).machine.chat.out,
            final(self)@ == pieces::emptied(
                sse::fed(old(self)@, text::bytes_text(chunk@)),
            ),
    {
        let lines = self.buffer.push_bytes(chunk);
        let ghost all = text::texts(lines@);
        let ghost rest = self.buffer@;
        let n: usize = lines.len();
        assert(all.take(0) =~= Seq::<Seq<char>>::empty());
        for i in 0..n
            invariant
                n == lines@.len(),
                all == text::texts(lines@),
                self.buffer@ == rest,
                self.state() == sse::read_lines(old(self).state(), all.take(i as int)),
        {
            proof {
                assert(all.take(i + 1).drop_last() =~= all.take(i as int));
                assert(all.take(i + 1).last() == lines@[i as int]@);
            }
            self.line(lines[i].as_str());
        }
        assert(all.take(n as int) =~= all);
        self.chat.take()
    }
}

/// Whatever a Responses stream says, the chunks report the model of the request.
pub proof fn lemma_responses_to_chat_keeps_model(s: ResponsesToChat, l: Seq<char>)
    ensures
        s.line(l).chat.model == s.chat.model,
{
}

} // verus!
