//! The events of an Anthropic stream: a message made of blocks, one open at a time.

use vstd::prelude::*;

use super::sse;
use super::sse::to_event_text;
use crate::convert::requests::chat_anthropic;
use crate::convert::requests::chat_anthropic::tool_use;
use crate::convert::parts;
use crate::convert::parts::text_block;
use crate::convert::responses::to_responses;
use crate::convert::responses::to_responses::no_elements;
use crate::json::{self, Json, JsonV};
use crate::text;
use crate::text::{concat3, to_decimal};

verus! {

/// The block of a message that is open, if any.
#[derive(Clone, Copy, PartialEq, Eq, Structural)]
pub enum Block {
    Nothing,
    Thinking,
    Text,
    /// The block of a tool, by the place of its call.
    Tool(usize),
}

/// The block of a tool's call: the place of the call, and the index of the block.
#[derive(Clone, Copy)]
pub struct CallBlock {
    pub place: usize,
    pub index: u32,
}

/// The index of the block of the last call at a place.
pub open spec fn block_of_call(calls: Seq<CallBlock>, place: usize) -> Option<u32>
    decreases calls.len(),
{
    if calls.len() == 0 {
        None
    } else if calls.last().place == place {
        Some(calls.last().index)
    } else {
        block_of_call(calls.drop_last(), place)
    }
}

fn find_block(calls: &Vec<CallBlock>, place: usize) -> (r: Option<u32>)
    ensures
        r == block_of_call(calls@, place),
{
    let mut i: usize = calls.len();
    assert(calls@.take(i as int) =~= calls@);
    while i > 0
        invariant
            i <= calls@.len(),
            block_of_call(calls@, place) == block_of_call(calls@.take(i as int), place),
        decreases i,
    {
        i = i - 1;
        assert(calls@.take(i + 1).drop_last() =~= calls@.take(i as int));
        if calls[i].place == place {
            return Some(calls[i].index);
        }
    }
    None
}

/// A message in the middle of its stream.
#[verifier::ext_equal]
pub struct Message {
    /// Whether the message has started.
    pub started: bool,
    /// Whether the message has ended.
    pub finished: bool,
    /// The index of the block that is open, or of the next one.
    pub index: u32,
    /// The block that is open.
    pub open: Block,
    /// The blocks of the calls so far.
    pub calls: Seq<CallBlock>,
    pub id: Seq<char>,
    pub model: Seq<char>,
    pub input_tokens: u64,
    pub output_tokens: u64,
    /// The events so far.
    pub out: Seq<Seq<char>>,
}

/// The data of the event that starts a message.
pub open spec fn message_start_v(id: Seq<char>, model: Seq<char>, input_tokens: u64) -> JsonV {
    json::jobj().put("type"@, JsonV::Str("message_start"@)).put(
        "message"@,
        json::jobj().put("id"@, JsonV::Str(id)).put("type"@, JsonV::Str("message"@)).put(
            "role"@,
            JsonV::Str("assistant"@),
        ).put("content"@, to_responses::nothing()).put("model"@, JsonV::Str(model)).put(
            "stop_reason"@,
            JsonV::Null,
        ).put("stop_sequence"@, JsonV::Null).put(
            "usage"@,
            json::jobj().put("input_tokens"@, json::jnum(input_tokens)).put(
                "output_tokens"@,
                json::jnum(1),
            ).put("cache_creation_input_tokens"@, json::jnum(0)).put(
                "cache_read_input_tokens"@,
                json::jnum(0),
            ),
        ),
    )
}

/// The data of the event that starts a block.
pub open spec fn block_start_v(index: u32, block: JsonV) -> JsonV {
    json::jobj().put("type"@, JsonV::Str("content_block_start"@)).put(
        "index"@,
        json::jnum(index as u64),
    ).put("content_block"@, block)
}

/// The data of the event that adds to a block.
pub open spec fn block_delta_v(index: u32, delta: JsonV) -> JsonV {
    json::jobj().put("type"@, JsonV::Str("content_block_delta"@)).put(
        "index"@,
        json::jnum(index as u64),
    ).put("delta"@, delta)
}

/// The text of the event that ends a block.
pub open spec fn block_stop_text(index: u32) -> Seq<char> {
    "event: content_block_stop\ndata: {\"type\":\"content_block_stop\",\"index\":"@ + text::decimal(
        index as nat,
    ) + "}\n\n"@
}

/// The data of the event that says why a message ends.
pub open spec fn message_delta_v(stop_reason: Seq<char>, output_tokens: u64) -> JsonV {
    json::jobj().put("type"@, JsonV::Str("message_delta"@)).put(
        "delta"@,
        json::jobj().put("stop_reason"@, JsonV::Str(stop_reason)).put(
            "stop_sequence"@,
            JsonV::Null,
        ),
    ).put("usage"@, json::jobj().put("output_tokens"@, json::jnum(output_tokens)))
}

/// A delta of a kind, with its text under a key.
pub open spec fn delta_v(kind: Seq<char>, key: Seq<char>, t: Seq<char>) -> JsonV {
    json::jobj().put("type"@, JsonV::Str(kind)).put(key, JsonV::Str(t))
}

/// An empty block of thinking.
pub open spec fn empty_thinking_v() -> JsonV {
    json::jobj().put("type"@, JsonV::Str("thinking"@)).put("thinking"@, JsonV::Str(""@))
}

impl Message {
    /// A message before its start.
    pub open spec fn new(id: Seq<char>, model: Seq<char>) -> Message {
        Message {
            started: false,
            finished: false,
            index: 0,
            open: Block::Nothing,
            calls: Seq::empty(),
            id,
            model,
            input_tokens: 0,
            output_tokens: 0,
            out: Seq::empty(),
        }
    }

    /// The message with one event more.
    pub open spec fn emit(self, e: Seq<char>) -> Message {
        Message { out: self.out.push(e), ..self }
    }

    /// The message once it has started.
    pub open spec fn start(self) -> Message {
        Message { started: true, ..self }.emit(
            sse::event_text(
                "message_start"@,
                message_start_v(self.id, self.model, self.input_tokens),
            ),
        )
    }

    /// The message with the end of a block.
    pub open spec fn stop_block(self) -> Message {
        Message { index: self.index.wrapping_add(1), ..self }.emit(block_stop_text(self.index))
    }

    /// The message without an open block.
    pub open spec fn close(self) -> Message {
        if self.open is Nothing {
            self
        } else {
            Message { open: Block::Nothing, ..self.stop_block() }
        }
    }

    /// The message without an open block of thinking.
    pub open spec fn close_thinking(self) -> Message {
        if self.open is Thinking {
            self.close()
        } else {
            self
        }
    }

    /// The message without an open block of text.
    pub open spec fn close_text(self) -> Message {
        if self.open is Text {
            self.close()
        } else {
            self
        }
    }

    /// The message without an open block of a tool; of the call at a place, where one is told.
    pub open spec fn close_tool(self, place: Option<usize>) -> Message {
        match (self.open, place) {
            (Block::Tool(p), Some(k)) => if p == k {
                self.close()
            } else {
                self
            },
            (Block::Tool(_), None) => self.close(),
            _ => self,
        }
    }

    /// The message with the start of a block.
    pub open spec fn start_block(self, block: JsonV) -> Message {
        self.emit(sse::event_text("content_block_start"@, block_start_v(self.index, block)))
    }

    /// The message with a block open: one that is not open yet starts, and what was open
    /// is closed before it.
    pub open spec fn begin(self, open: Block, block: JsonV) -> Message {
        if self.open == open {
            self
        } else {
            Message { open, ..self.close().start_block(block) }
        }
    }

    /// The message with more in a block.
    pub open spec fn delta_at(self, index: u32, delta: JsonV) -> Message {
        self.emit(sse::event_text("content_block_delta"@, block_delta_v(index, delta)))
    }

    /// The message with more in its open block.
    pub open spec fn delta(self, delta: JsonV) -> Message {
        self.delta_at(self.index, delta)
    }

    /// The message with more thinking.
    pub open spec fn think(self, t: Seq<char>) -> Message {
        self.begin(Block::Thinking, empty_thinking_v()).delta(
            delta_v("thinking_delta"@, "thinking"@, t),
        )
    }

    /// The message with more text.
    pub open spec fn say(self, t: Seq<char>) -> Message {
        self.begin(Block::Text, parts::text_block_v("text"@, ""@)).delta(
            delta_v("text_delta"@, "text"@, t),
        )
    }

    /// The message with a block for a call at a place; what was open is closed before it.
    pub open spec fn start_tool(self, place: usize, id: Seq<char>, name: Seq<char>) -> Message {
        let m = self.close();
        Message {
            open: Block::Tool(place),
            calls: m.calls.push(CallBlock { place, index: m.index }),
            ..m.start_block(chat_anthropic::tool_use_v(id, name, json::jobj()))
        }
    }

    /// The message with a block for the call at a place. A call has one already where its block
    /// is open, or where it had one and the call is not announced with an id anew.
    pub open spec fn begin_tool(self, place: usize, id: Seq<char>, name: Seq<char>) -> Message {
        if self.open == Block::Tool(place) || (id.len() == 0 && block_of_call(
            self.calls,
            place,
        ) is Some) {
            self
        } else {
            self.start_tool(place, id, name)
        }
    }

    /// The index of the block for what comes for a place: that of its call, or else of the last
    /// call.
    pub open spec fn tool_index(self, place: usize) -> u32 {
        match block_of_call(self.calls, place) {
            Some(index) => index,
            None => if self.calls.len() > 0 {
                self.calls.last().index
            } else {
                self.index
            },
        }
    }

    /// The message with more input for the call at a place, in the block of that call.
    pub open spec fn tool_input(self, place: usize, t: Seq<char>) -> Message {
        self.delta_at(self.tool_index(place), delta_v("input_json_delta"@, "partial_json"@, t))
    }

    /// The message once it has ended.
    pub open spec fn finish(self, stop_reason: Seq<char>) -> Message {
        Message { finished: true, ..self }.emit(
            sse::event_text("message_delta"@, message_delta_v(stop_reason, self.output_tokens)),
        ).emit("event: message_stop\ndata: {\"type\":\"message_stop\"}\n\n"@)
    }
}

/// Writes the events of a message.
pub struct MessageWriter {
    pub started: bool,
    pub finished: bool,
    pub index: u32,
    pub open: Block,
    pub calls: Vec<CallBlock>,
    pub id: String,
    pub model: String,
    pub input_tokens: u64,
    pub output_tokens: u64,
    pub out: Vec<String>,
}

impl View for MessageWriter {
    type V = Message;

    open spec fn view(&self) -> Message {
        Message {
            started: self.started,
            finished: self.finished,
            index: self.index,
            open: self.open,
            calls: self.calls@,
            id: self.id@,
            model: self.model@,
            input_tokens: self.input_tokens,
            output_tokens: self.output_tokens,
            out: text::texts(self.out@),
        }
    }
}

impl MessageWriter {
    /// A message before its start.
    pub fn new(id: String, model: &str) -> (r: MessageWriter)
        ensures
            r@ == Message::new(id@, model@),
    {
        let r = MessageWriter {
            started: false,
            finished: false,
            index: 0,
            open: Block::Nothing,
            calls: Vec::new(),
            id,
            model: model.to_owned(),
            input_tokens: 0,
            output_tokens: 0,
            out: Vec::new(),
        };
        assert(r@ =~= Message::new(id@, model@));
        r
    }

    /// Takes the events so far out.
    pub fn take(&mut self) -> (r: Vec<String>)
        ensures
            text::texts(r@) == old(self)@.out,
            final(self)@ == (Message { out: Seq::empty(), ..old(self)@ }),
    {
        let mut out: Vec<String> = Vec::new();
        out.append(&mut self.out);
        proof {
            assert(text::texts(out@) =~= old(self)@.out);
            assert(self@ =~= (Message { out: Seq::empty(), ..old(self)@ }));
        }
        out
    }

    fn emit(&mut self, e: String)
        ensures
            final(self)@ == old(self)@.emit(e@),
    {
        self.out.push(e);
        assert(self@ =~= old(self)@.emit(e@));
    }

    /// Starts the message.
    pub fn start(&mut self)
        ensures
            final(self)@ == old(self)@.start(),
    {
        self.started = true;
        let usage = Json::object().put("input_tokens", Json::number(self.input_tokens)).put(
            "output_tokens",
            Json::number(1),
        ).put("cache_creation_input_tokens", Json::number(0)).put(
            "cache_read_input_tokens",
            Json::number(0),
        );
        let m = Json::object().put("id", Json::str(self.id.as_str())).put(
            "type",
            Json::str("message"),
        ).put("role", Json::str("assistant")).put("content", no_elements()).put(
            "model",
            Json::str(self.model.as_str()),
        ).put("stop_reason", Json::null()).put("stop_sequence", Json::null()).put(
            "usage",
            usage,
        );
        let data = Json::object().put("type", Json::str("message_start")).put("message", m);
        assert(data@ == message_start_v(self.id@, self.model@, self.input_tokens));
        self.emit(to_event_text("message_start", &data));
    }

    fn stop_block(&mut self)
        ensures
            final(self)@ == old(self)@.stop_block(),
    {
        let e = concat3(
            "event: content_block_stop\ndata: {\"type\":\"content_block_stop\",\"index\":",
            to_decimal(self.index as u64).as_str(),
            "}\n\n",
        );
        self.index = self.index.wrapping_add(1);
        self.emit(e);
    }

    /// Closes the block that is open, if any.
    pub fn close(&mut self)
        ensures
            final(self)@ == old(self)@.close(),
    {
        if let Block::Nothing = self.open {
        } else {
            self.stop_block();
            self.open = Block::Nothing;
            assert(self@ =~= old(self)@.close());
        }
    }

    /// Closes the block of thinking, where it is open.
    pub fn close_thinking(&mut self)
        ensures
            final(self)@ == old(self)@.close_thinking(),
    {
        if let Block::Thinking = self.open {
            self.close();
        }
    }

    /// Closes the block of text, where it is open.
    pub fn close_text(&mut self)
        ensures
            final(self)@ == old(self)@.close_text(),
    {
        if let Block::Text = self.open {
            self.close();
        }
    }

    /// Closes the block of a tool, where it is open; of the call at a place, where one is told.
    pub fn close_tool(&mut self, place: Option<usize>)
        ensures
            final(self)@ == old(self)@.close_tool(place),
    {
        if let Block::Tool(p) = self.open {
            let told = match place {
                Some(k) => p == k,
                None => true,
            };
            if told {
                self.close();
            }
        }
    }

    fn start_block(&mut self, block: Json)
        ensures
            final(self)@ == old(self)@.start_block(block@),
    {
        let data = Json::object().put("type", Json::str("content_block_start")).put(
            "index",
            Json::number(self.index as u64),
        ).put("content_block", block);
        self.emit(to_event_text("content_block_start", &data));
    }

    fn begin(&mut self, open: Block, block: Json)
        ensures
            final(self)@ == old(self)@.begin(open, block@),
    {
        if self.open == open {
            return;
        }
        self.close();
        self.start_block(block);
        self.open = open;
        assert(self@ =~= old(self)@.begin(open, block@));
    }

    fn delta_at(&mut self, index: u32, kind: &str, key: &str, t: &str)
        ensures
            final(self)@ == old(self)@.delta_at(index, delta_v(kind@, key@, t@)),
    {
        let delta = Json::object().put("type", Json::str(kind)).put(key, Json::str(t));
        let data = Json::object().put("type", Json::str("content_block_delta")).put(
            "index",
            Json::number(index as u64),
        ).put("delta", delta);
        self.emit(to_event_text("content_block_delta", &data));
    }

    /// Adds thinking.
    pub fn think(&mut self, t: &str)
        ensures
            final(self)@ == old(self)@.think(t@),
    {
        let block = Json::object().put("type", Json::str("thinking")).put(
            "thinking",
            Json::str(""),
        );
        self.begin(Block::Thinking, block);
        self.delta_at(self.index, "thinking_delta", "thinking", t);
    }

    /// Adds text.
    pub fn say(&mut self, t: &str)
        ensures
            final(self)@ == old(self)@.say(t@),
    {
        self.begin(Block::Text, text_block("text", ""));
        self.delta_at(self.index, "text_delta", "text", t);
    }

    /// Starts a block for a call at a place.
    pub fn start_tool(&mut self, place: usize, id: &str, name: &str)
        ensures
            final(self)@ == old(self)@.start_tool(place, id@, name@),
    {
        self.close();
        let index: u32 = self.index;
        self.start_block(tool_use(id, name, Json::object()));
        self.calls.push(CallBlock { place, index });
        self.open = Block::Tool(place);
        assert(self@ =~= old(self)@.start_tool(place, id@, name@));
    }

    /// Starts a block for the call at a place, where it has none.
    pub fn begin_tool(&mut self, place: usize, id: &str, name: &str)
        ensures
            final(self)@ == old(self)@.begin_tool(place, id@, name@),
    {
        proof {
            reveal_strlit("");
            assert(id@.len() == 0 ==> id@ =~= ""@);
        }
        if self.open == Block::Tool(place) || (id.is_empty() && find_block(
            &self.calls,
            place,
        ).is_some()) {
            return;
        }
        self.start_tool(place, id, name);
    }

    /// Adds input for the call at a place.
    pub fn tool_input(&mut self, place: usize, t: &str)
        ensures
            final(self)@ == old(self)@.tool_input(place, t@),
    {
        let index: u32 = match find_block(&self.calls, place) {
            Some(index) => index,
            None => if self.calls.len() > 0 {
                self.calls[self.calls.len() - 1].index
            } else {
                self.index
            },
        };
        self.delta_at(index, "input_json_delta", "partial_json", t);
    }

    /// Ends the message.
    pub fn finish(&mut self, stop_reason: &str)
        ensures
            final(self)@ == old(self)@.finish(stop_reason@),
    {
        self.finished = true;
        let delta = Json::object().put("stop_reason", Json::str(stop_reason)).put(
            "stop_sequence",
            Json::null(),
        );
        let data = Json::object().put("type", Json::str("message_delta")).put("delta", delta).put(
            "usage",
            Json::object().put("output_tokens", Json::number(self.output_tokens)),
        );
        self.emit(to_event_text("message_delta", &data));
        self.emit("event: message_stop\ndata: {\"type\":\"message_stop\"}\n\n".to_owned());
    }
}

} // verus!
