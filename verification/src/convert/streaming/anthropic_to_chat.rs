//! An Anthropic stream as a Chat Completions stream.

use std::collections::HashMap;

use vstd::prelude::*;

use super::chat_chunks;
use super::chat_chunks::{read_line, ChatOut, ChatWriter, EventLine, ReadLine};
use super::pieces;
use super::sse;
use super::sse::{LineBuffer, LineReader, Reading};
use crate::clock::unix_seconds;
use crate::convert::responses::to_chat;
use crate::convert::responses::to_chat::stop_reason_to_finish;
use crate::convert::responses::to_responses;
use crate::convert::responses::to_responses::only;
use crate::json::{self, Json, JsonV};
use crate::text;
use crate::text::same;

verus! {

/// A tool whose block is open.
#[verifier::ext_equal]
pub struct OpenTool {
    pub id: Seq<char>,
    pub name: Seq<char>,
}

/// An Anthropic stream in the middle of its conversion.
#[verifier::ext_equal]
pub struct AnthropicToChat {
    /// The name of the event that follows, empty where none was given.
    pub event: Seq<char>,
    pub chat: ChatOut,
    pub stop_reason: Seq<char>,
    /// The types of the open blocks, by their index.
    pub kinds: Map<u32, Seq<char>>,
    /// The tools whose blocks are open, by the index of their block.
    pub tools: Map<u32, OpenTool>,
}

/// The index of the block that an event is about.
pub open spec fn block_index(data: JsonV) -> u32 {
    data.u64_or("index"@, 0) as u32
}

/// The part of a tool call that adds to its arguments.
pub open spec fn more_arguments_v(index: u32, partial: Seq<char>) -> JsonV {
    to_responses::one(
        json::jobj().put("index"@, json::jnum(index as u64)).put(
            "function"@,
            json::jobj().put("arguments"@, JsonV::Str(partial)),
        ),
    )
}

/// The part of a tool call that says which tool is called. It adds nothing to the arguments,
/// which are sent as they come.
pub open spec fn call_head_v(index: u32, t: OpenTool) -> JsonV {
    to_responses::one(
        json::jobj().put("index"@, json::jnum(index as u64)).put("id"@, JsonV::Str(t.id)).put(
            "type"@,
            JsonV::Str("function"@),
        ).put(
            "function"@,
            json::jobj().put("name"@, JsonV::Str(t.name)).put("arguments"@, JsonV::Str(""@)),
        ),
    )
}

impl AnthropicToChat {
    /// The conversion before its start, for a stream of a time in seconds since the epoch.
    pub open spec fn new(model: Seq<char>, created: u64) -> AnthropicToChat {
        AnthropicToChat {
            event: Seq::empty(),
            chat: ChatOut { id: Seq::empty(), model, created, sent: 0, out: Seq::empty() },
            stop_reason: "stop"@,
            kinds: Map::empty(),
            tools: Map::empty(),
        }
    }

    /// The state with a delta sent.
    pub open spec fn send(
        self,
        reasoning: bool,
        content: Seq<char>,
        tool_calls: Option<JsonV>,
    ) -> AnthropicToChat {
        AnthropicToChat { chat: self.chat.send(reasoning, content, tool_calls), ..self }
    }

    /// The state with a block opened.
    pub open spec fn block_start(self, data: JsonV) -> AnthropicToChat {
        let k = block_index(data);
        let block = data.get_or_null("content_block"@);
        let kind = block.str_or("type"@, ""@);
        AnthropicToChat {
            kinds: self.kinds.insert(k, kind),
            tools: if kind == "tool_use"@ {
                self.tools.insert(
                    k,
                    OpenTool { id: block.str_or("id"@, ""@), name: block.str_or("name"@, ""@) },
                )
            } else {
                self.tools
            },
            ..self
        }
    }

    /// The state with more arguments for a tool.
    pub open spec fn arguments(self, k: u32, partial: Seq<char>) -> AnthropicToChat {
        self.send(false, ""@, Some(more_arguments_v(k, partial)))
    }

    /// The state with more in a block.
    pub open spec fn block_delta(self, data: JsonV) -> AnthropicToChat {
        let delta = data.get_or_null("delta"@);
        let kind = delta.str_or("type"@, ""@);
        if kind == "text_delta"@ {
            match delta.str_at("text"@) {
                Some(t) => self.send(false, t, None),
                None => self,
            }
        } else if kind == "thinking_delta"@ {
            match delta.str_at("thinking"@) {
                Some(t) => if t.len() > 0 {
                    self.send(true, t, None)
                } else {
                    self
                },
                None => self,
            }
        } else if kind == "input_json_delta"@ {
            match delta.str_at("partial_json"@) {
                Some(t) => self.arguments(block_index(data), t),
                None => self,
            }
        } else {
            self
        }
    }

    /// The state with a block closed: of a tool it is sent which one it is.
    pub open spec fn block_stop(self, data: JsonV) -> AnthropicToChat {
        let k = block_index(data);
        let s = if self.kinds.contains_key(k) && self.kinds[k] == "tool_use"@
            && self.tools.contains_key(k) {
            self.send(false, ""@, Some(call_head_v(k, self.tools[k])))
        } else {
            self
        };
        AnthropicToChat { kinds: s.kinds.remove(k), tools: s.tools.remove(k), ..s }
    }

    /// The state after an event of that name.
    pub open spec fn handle(self, name: Seq<char>, data: JsonV) -> AnthropicToChat {
        if name == "message_start"@ {
            match data.get("message"@) {
                Some(m) => AnthropicToChat {
                    chat: ChatOut { id: m.str_or("id"@, "msg_unknown"@), ..self.chat },
                    ..self
                },
                None => self,
            }
        } else if name == "content_block_start"@ {
            self.block_start(data)
        } else if name == "content_block_delta"@ {
            self.block_delta(data)
        } else if name == "content_block_stop"@ {
            self.block_stop(data)
        } else if name == "message_delta"@ {
            AnthropicToChat {
                stop_reason: data.get_or_null("delta"@).str_or("stop_reason"@, self.stop_reason),
                ..self
            }
        } else if name == "message_stop"@ {
            AnthropicToChat {
                chat: self.chat.finish(to_chat::finish_of_stop_reason(Some(self.stop_reason))),
                ..self
            }
        } else {
            self
        }
    }
}

impl LineReader for AnthropicToChat {
    open spec fn line(self, l: Seq<char>) -> AnthropicToChat {
        match chat_chunks::event_line(l) {
            EventLine::Nothing => self,
            EventLine::Name(name) => AnthropicToChat { event: name, ..self },
            EventLine::Data(data) => AnthropicToChat { event: Seq::empty(), ..self }.handle(
                chat_chunks::event_name(self.event, data),
                data,
            ),
        }
    }
}

/// A tool whose block is open.
pub struct ToolBlock {
    id: String,
    name: String,
}

impl View for ToolBlock {
    type V = OpenTool;

    closed spec fn view(&self) -> OpenTool {
        OpenTool { id: self.id@, name: self.name@ }
    }
}

/// Converts an Anthropic stream to a Chat Completions stream.
pub struct AnthropicStreamState {
    event_type: String,
    chat: ChatWriter,
    stop_reason: String,
    block_index_to_type: HashMap<u32, String>,
    tool_blocks: HashMap<u32, ToolBlock>,
    buffer: LineBuffer,
}

impl View for AnthropicStreamState {
    type V = Reading<AnthropicToChat>;

    closed spec fn view(&self) -> Reading<AnthropicToChat> {
        Reading { machine: self.state(), rest: self.buffer@ }
    }
}

/// The texts of a map of strings.
spec fn kinds_view(m: Map<u32, String>) -> Map<u32, Seq<char>> {
    m.map_values(|s: String| s@)
}

/// The views of a map of tools.
spec fn tools_view(m: Map<u32, ToolBlock>) -> Map<u32, OpenTool> {
    m.map_values(|t: ToolBlock| t@)
}

impl AnthropicStreamState {
    closed spec fn state(self) -> AnthropicToChat {
        AnthropicToChat {
            event: self.event_type@,
            chat: self.chat@,
            stop_reason: self.stop_reason@,
            kinds: kinds_view(self.block_index_to_type@),
            tools: tools_view(self.tool_blocks@),
        }
    }

    /// The conversion of a stream of a time, in seconds since the epoch.
    pub fn new_at(request_model: &str, created: u64) -> (r: AnthropicStreamState)
        ensures
            r@.machine == AnthropicToChat::new(request_model@, created),
            r@.rest == Seq::<char>::empty(),
    {
        let r = AnthropicStreamState {
            event_type: String::new(),
            chat: ChatWriter::new(request_model, created),
            stop_reason: "stop".to_owned(),
            block_index_to_type: HashMap::new(),
            tool_blocks: HashMap::new(),
            buffer: LineBuffer::new(),
        };
        proof {
            assert(kinds_view(r.block_index_to_type@) =~= Map::<u32, Seq<char>>::empty());
            assert(tools_view(r.tool_blocks@) =~= Map::<u32, OpenTool>::empty());
        }
        r
    }

    /// The conversion of a stream of now.
    pub fn new(request_model: &str) -> (r: AnthropicStreamState)
        ensures
            exists|created: u64| r@.machine == AnthropicToChat::new(request_model@, created),
            r@.rest == Seq::<char>::empty(),
    {
        let created: u64 = unix_seconds();
        AnthropicStreamState::new_at(request_model, created)
    }

    fn send(&mut self, is_reasoning: bool, content: &str, tool_calls: Option<Json>)
        ensures
            final(self).state() == old(self).state().send(
                is_reasoning,
                content@,
                json::wire::opt_json(tool_calls),
            ),
            final(self).buffer == old(self).buffer,
    {
        self.chat.chat_delta_chunk(is_reasoning, content, tool_calls);
    }

    fn block_start(&mut self, data: &Json)
        ensures
            final(self).state() == old(self).state().block_start(data@),
            final(self).buffer == old(self).buffer,
    {
        broadcast use vstd::std_specs::hash::group_hash_axioms;

        let k: u32 = data.u64_or("index", 0) as u32;
        let block = data.get_or_null("content_block");
        let kind = block.str_or("type", "");
        self.block_index_to_type.insert(k, kind.to_owned());
        if same(kind, "tool_use") {
            self.tool_blocks.insert(
                k,
                ToolBlock {
                    id: block.str_or("id", "").to_owned(),
                    name: block.str_or("name", "").to_owned(),
                },
            );
        }
        assert(self.state() =~= old(self).state().block_start(data@));
    }

    fn arguments(&mut self, k: u32, partial: &str)
        ensures
            final(self).state() == old(self).state().arguments(k, partial@),
            final(self).buffer == old(self).buffer,
    {
        let tc = only(
            Json::object().put("index", Json::number(k as u64)).put(
                "function",
                Json::object().put("arguments", Json::str(partial)),
            ),
        );
        self.send(false, "", Some(tc));
    }

    fn block_delta(&mut self, data: &Json)
        ensures
            final(self).state() == old(self).state().block_delta(data@),
            final(self).buffer == old(self).buffer,
    {
        let delta = data.get_or_null("delta");
        let kind = delta.str_or("type", "");
        if same(kind, "text_delta") {
            if let Some(t) = delta.str_at("text") {
                self.send(false, t, None);
            }
        } else if same(kind, "thinking_delta") {
            if let Some(t) = delta.str_at("thinking") {
                if !t.is_empty() {
                    self.send(true, t, None);
                }
            }
        } else if same(kind, "input_json_delta") {
            if let Some(t) = delta.str_at("partial_json") {
                let k: u32 = data.u64_or("index", 0) as u32;
                self.arguments(k, t);
            }
        }
    }

    fn block_stop(&mut self, data: &Json)
        ensures
            final(self).state() == old(self).state().block_stop(data@),
            final(self).buffer == old(self).buffer,
    {
        broadcast use vstd::std_specs::hash::group_hash_axioms;

        let k: u32 = data.u64_or("index", 0) as u32;
        let is_tool = match self.block_index_to_type.get(&k) {
            Some(kind) => same(kind.as_str(), "tool_use"),
            None => false,
        };
        if is_tool {
            let tc: Option<Json> = match self.tool_blocks.get(&k) {
                Some(t) => Some(
                    only(
                        Json::object().put("index", Json::number(k as u64)).put(
                            "id",
                            Json::str(t.id.as_str()),
                        ).put("type", Json::str("function")).put(
                            "function",
                            Json::object().put("name", Json::str(t.name.as_str())).put(
                                "arguments",
                                Json::str(""),
                            ),
                        ),
                    ),
                ),
                None => None,
            };
            if tc.is_some() {
                self.send(false, "", tc);
            }
        }
        let ghost mid = self.state();
        self.block_index_to_type.remove(&k);
        self.tool_blocks.remove(&k);
        proof {
            assert(self.state().kinds =~= mid.kinds.remove(k));
            assert(self.state().tools =~= mid.tools.remove(k));
            assert(self.state() =~= old(self).state().block_stop(data@));
        }
    }

    fn handle(&mut self, name: &str, data: &Json)
        ensures
            final(self).state() == old(self).state().handle(name@, data@),
            final(self).buffer == old(self).buffer,
    {
        if same(name, "message_start") {
            if let Some(m) = data.get("message") {
                self.chat.id = m.str_or("id", "msg_unknown").to_owned();
            }
            assert(self.state() =~= old(self).state().handle(name@, data@));
        } else if same(name, "content_block_start") {
            self.block_start(data);
        } else if same(name, "content_block_delta") {
            self.block_delta(data);
        } else if same(name, "content_block_stop") {
            self.block_stop(data);
        } else if same(name, "message_delta") {
            let delta = data.get_or_null("delta");
            if let Some(reason) = delta.str_at("stop_reason") {
                self.stop_reason = reason.to_owned();
            }
            assert(self.state() =~= old(self).state().handle(name@, data@));
        } else if same(name, "message_stop") {
            let finish = stop_reason_to_finish(Some(self.stop_reason.as_str()));
            self.chat.finish(finish);
        }
    }

    fn line(&mut self, l: &str)
        ensures
            final(self).state() == old(self).state().line(l@),
            final(self).buffer == old(self).buffer,
    {
        match read_line(l) {
            ReadLine::Nothing => {},
            ReadLine::Name(name) => {
                self.event_type = name;
            },
            ReadLine::Data(data) => {
                let name = if !self.event_type.as_str().is_empty() {
                    self.event_type.clone()
                } else {
                    data.str_or("type", "").to_owned()
                };
                self.event_type = String::new();
                self.handle(name.as_str(), &data);
            },
        }
    }

    /// Takes in a piece of the stream and gives out the chunks that it makes.
    pub fn feed(&mut self, chunk: &[u8]) -> (r: Vec<String>)
        ensures
            text::texts(r@) == sse::fed(old(self)@, text::bytes_text(chunk@)).machine.chat.out,
            final(self)@ == pieces::emptied(
                sse::fed(old(self)@, text::bytes_text(chunk@)),
            ),
    {
        let lines = self.buffer.push_bytes(chunk);
        let ghost all = text::texts(lines@);
        let ghost rest = self.buffer@;
        let n: usize = lines.len();
        assert(all.take(0) =~= Seq::<Seq<char>>::empty());
        for i in 0..n
            invariant
                n == lines@.len(),
                all == text::texts(lines@),
                self.buffer@ == rest,
                self.state() == sse::read_lines(old(self).state(), all.take(i as int)),
        {
            proof {
                assert(all.take(i + 1).drop_last() =~= all.take(i as int));
                assert(all.take(i + 1).last() == lines@[i as int]@);
            }
            self.line(lines[i].as_str());
        }
        assert(all.take(n as int) =~= all);
        self.chat.take()
    }
}

} // verus!
