//! The chunks of a Chat Completions stream, and the named events that some of them are
//! made from.

use vstd::prelude::*;

use super::sse;
use super::sse::{data_in, to_data_text};
use crate::convert::responses::to_responses;
use crate::convert::responses::to_responses::only;
use crate::json::{self, Json, JsonV};
use crate::text;
use crate::text::{same, strip_prefix, trim};

verus! {

/// A line of a stream of named events.
pub enum EventLine {
    /// Nothing to read.
    Nothing,
    /// The name of the event that follows.
    Name(Seq<char>),
    /// The data of an event.
    Data(JsonV),
}

/// What a line of a stream of named events is.
pub open spec fn event_line(l: Seq<char>) -> EventLine {
    let t = text::trimmed(l);
    match text::stripped(t, "event: "@) {
        Some(name) => EventLine::Name(text::trimmed(name)),
        None => match sse::data_of(t) {
            Some(d) => if d == "[DONE]"@ {
                EventLine::Nothing
            } else {
                match json::wire::json_of_text(d) {
                    Some(v) => EventLine::Data(v),
                    None => EventLine::Nothing,
                }
            },
            None => EventLine::Nothing,
        },
    }
}

/// A line of a stream of named events.
pub enum ReadLine {
    Nothing,
    Name(String),
    Data(Json),
}

impl View for ReadLine {
    type V = EventLine;

    open spec fn view(&self) -> EventLine {
        match self {
            ReadLine::Nothing => EventLine::Nothing,
            ReadLine::Name(s) => EventLine::Name(s@),
            ReadLine::Data(j) => EventLine::Data(j@),
        }
    }
}

/// Reads a line of a stream of named events.
pub fn read_line(l: &str) -> (r: ReadLine)
    ensures
        r@ == event_line(l@),
{
    let t = trim(l);
    if let Some(name) = strip_prefix(t, "event: ") {
        return ReadLine::Name(trim(name).to_owned());
    }
    if let Some(d) = data_in(t) {
        if !same(d, "[DONE]") {
            if let Some(v) = Json::parse(d) {
                return ReadLine::Data(v);
            }
        }
    }
    ReadLine::Nothing
}

/// The name of an event: what the line before it says, or else its type.
pub open spec fn event_name(named: Seq<char>, data: JsonV) -> Seq<char> {
    if named.len() > 0 {
        named
    } else {
        data.str_or("type"@, ""@)
    }
}

/// A Chat Completions stream so far.
#[verifier::ext_equal]
pub struct ChatOut {
    pub id: Seq<char>,
    pub model: Seq<char>,
    pub created: u64,
    /// How many chunks with a delta were sent.
    pub sent: usize,
    /// The events so far.
    pub out: Seq<Seq<char>>,
}

/// A chunk with a delta, and the reason where it is the last.
pub open spec fn chunk_v(c: ChatOut, delta: JsonV, finish_reason: JsonV) -> JsonV {
    json::jobj().put("id"@, JsonV::Str(c.id)).put(
        "object"@,
        JsonV::Str("chat.completion.chunk"@),
    ).put("created"@, json::jnum(c.created)).put("model"@, JsonV::Str(c.model)).put(
        "choices"@,
        to_responses::one(
            json::jobj().put("index"@, json::jnum(0)).put("delta"@, delta).put(
                "finish_reason"@,
                finish_reason,
            ),
        ),
    )
}

/// A delta. The first one, and each without content, names the role.
pub open spec fn chat_delta_v(
    first: bool,
    reasoning: bool,
    content: Seq<char>,
    tool_calls: Option<JsonV>,
) -> JsonV {
    let d = json::jobj().put_opt(
        "role"@,
        if first || content.len() == 0 {
            Some(JsonV::Str("assistant"@))
        } else {
            None
        },
    );
    let d = if reasoning {
        d.put("reasoning_content"@, JsonV::Str(content))
    } else if content.len() > 0 {
        d.put("content"@, JsonV::Str(content))
    } else {
        d
    };
    d.put_opt("tool_calls"@, tool_calls)
}

impl ChatOut {
    /// The stream with a delta more.
    pub open spec fn send(self, reasoning: bool, content: Seq<char>, tool_calls: Option<JsonV>) -> ChatOut {
        ChatOut {
            sent: self.sent.wrapping_add(1),
            out: self.out.push(
                sse::data_text(
                    chunk_v(
                        self,
                        chat_delta_v(self.sent == 0, reasoning, content, tool_calls),
                        JsonV::Null,
                    ),
                ),
            ),
            ..self
        }
    }

    /// The stream with its end.
    pub open spec fn finish(self, reason: Seq<char>) -> ChatOut {
        ChatOut {
            out: self.out.push(
                sse::data_text(chunk_v(self, json::jobj(), JsonV::Str(reason))),
            ).push("data: [DONE]\n\n"@),
            ..self
        }
    }
}

/// Writes the chunks of a Chat Completions stream.
pub struct ChatWriter {
    pub id: String,
    pub model: String,
    pub created: u64,
    pub sent: usize,
    pub out: Vec<String>,
}

impl View for ChatWriter {
    type V = ChatOut;

    open spec fn view(&self) -> ChatOut {
        ChatOut {
            id: self.id@,
            model: self.model@,
            created: self.created,
            sent: self.sent,
            out: text::texts(self.out@),
        }
    }
}

impl ChatWriter {
    /// A stream before its first chunk.
    pub fn new(model: &str, created: u64) -> (r: ChatWriter)
        ensures
            r@ == (ChatOut {
                id: Seq::empty(),
                model: model@,
                created,
                sent: 0,
                out: Seq::empty(),
            }),
    {
        let r = ChatWriter {
            id: String::new(),
            model: model.to_owned(),
            created,
            sent: 0,
            out: Vec::new(),
        };
        assert(text::texts(r.out@) =~= Seq::<Seq<char>>::empty());
        r
    }

    /// Takes the events so far out.
    pub fn take(&mut self) -> (r: Vec<String>)
        ensures
            text::texts(r@) == old(self)@.out,
            final(self)@ == (ChatOut { out: Seq::empty(), ..old(self)@ }),
    {
        let mut out: Vec<String> = Vec::new();
        out.append(&mut self.out);
        proof {
            assert(text::texts(out@) =~= old(self)@.out);
            assert(self@ =~= (ChatOut { out: Seq::empty(), ..old(self)@ }));
        }
        out
    }

    fn chunk(&self, delta: Json, finish_reason: Json) -> (r: Json)
        ensures
            r@ == chunk_v(self@, delta@, finish_reason@),
    {
        Json::object().put("id", Json::str(self.id.as_str())).put(
            "object",
            Json::str("chat.completion.chunk"),
        ).put("created", Json::number(self.created)).put(
            "model",
            Json::str(self.model.as_str()),
        ).put(
            "choices",
            only(
                Json::object().put("index", Json::number(0)).put("delta", delta).put(
                    "finish_reason",
                    finish_reason,
                ),
            ),
        )
    }

    /// Sends a delta.
    pub fn chat_delta_chunk(&mut self, is_reasoning: bool, content: &str, tool_calls: Option<Json>)
        ensures
            final(self)@ == old(self)@.send(
                is_reasoning,
                content@,
                json::wire::opt_json(tool_calls),
            ),
    {
        let mut delta = Json::object();
        if self.sent == 0 || content.is_empty() {
            delta = delta.put("role", Json::str("assistant"));
        }
        if is_reasoning {
            delta = delta.put("reasoning_content", Json::str(content));
        } else if !content.is_empty() {
            delta = delta.put("content", Json::str(content));
        }
        if let Some(tc) = tool_calls {
            delta = delta.put("tool_calls", tc);
        }
        let chunk = self.chunk(delta, Json::null());
        self.out.push(to_data_text(&chunk));
        self.sent = self.sent.wrapping_add(1);
        assert(self@ =~= old(self)@.send(is_reasoning, content@, json::wire::opt_json(tool_calls)));
    }

    /// Ends the stream.
    pub fn finish(&mut self, reason: &str)
        ensures
            final(self)@ == old(self)@.finish(reason@),
    {
        let chunk = self.chunk(Json::object(), Json::str(reason));
        self.out.push(to_data_text(&chunk));
        self.out.push("data: [DONE]\n\n".to_owned());
        assert(self@ =~= old(self)@.finish(reason@));
    }
}

} // verus!
