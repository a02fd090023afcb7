//! The events of a Responses stream, numbered one after the other.

use vstd::prelude::*;

use super::sse;
use super::sse::to_event_text;
use crate::convert::parts;
use crate::convert::parts::text_block;
use crate::convert::responses::to_responses;
use crate::convert::responses::to_responses::{message_item, no_elements, output_text};
use crate::json::{self, Json, JsonV};
use crate::text;
use crate::text::same;

verus! {

/// The events of a Responses stream so far.
#[verifier::ext_equal]
pub struct Events {
    /// The number of the last event.
    pub sequence: u64,
    pub out: Seq<Seq<char>>,
}

/// Whether an event is about the response as a whole.
pub open spec fn is_lifecycle(name: Seq<char>) -> bool {
    name == "response.created"@ || name == "response.in_progress"@ || name
        == "response.completed"@ || name == "response.failed"@
}

/// The data of an event with its type and its number.
pub open spec fn payload(name: Seq<char>, sequence: u64, data: JsonV) -> JsonV {
    let head = json::jobj().put("type"@, JsonV::Str(name)).put(
        "sequence_number"@,
        json::jnum(sequence),
    );
    if is_lifecycle(name) {
        head.put("response"@, data)
    } else if data is Obj {
        data.put("type"@, JsonV::Str(name)).put("sequence_number"@, json::jnum(sequence))
    } else {
        head.put("data"@, data)
    }
}

/// An event carries its type and its number.
pub proof fn lemma_payload(name: Seq<char>, sequence: u64, data: JsonV)
    ensures
        payload(name, sequence, data).get("type"@) == Some(JsonV::Str(name)),
        payload(name, sequence, data).get("sequence_number"@) == Some(json::jnum(sequence)),
{
    reveal_strlit("type");
    reveal_strlit("sequence_number");
    reveal_strlit("response");
    reveal_strlit("data");
    assert("type"@.len() == 4 && "sequence_number"@.len() == 15 && "response"@.len() == 8);
    assert("type"@[0] == 't' && "data"@[0] == 'd');
}

/// A number of an item.
pub open spec fn index_v(index: Option<u32>) -> JsonV {
    match index {
        Some(i) => json::jnum(i as u64),
        None => JsonV::Null,
    }
}

fn index_json(i: Option<u32>) -> (r: Json)
    ensures
        r@ == index_v(i),
{
    match i {
        Some(i) => Json::number(i as u64),
        None => Json::null(),
    }
}

/// What an event about an item starts with.
pub open spec fn about_item(id: Seq<char>, index: Option<u32>) -> JsonV {
    json::jobj().put("item_id"@, JsonV::Str(id)).put("output_index"@, index_v(index))
}

fn about(id: &str, i: Option<u32>) -> (r: Json)
    ensures
        r@ == about_item(id@, i),
{
    Json::object().put("item_id", Json::str(id)).put("output_index", index_json(i))
}

/// What an event about a summary starts with.
pub open spec fn about_summary(id: Seq<char>, index: u32) -> JsonV {
    about_item(id, Some(index)).put("summary_index"@, json::jnum(0))
}

/// What an event about a content starts with.
pub open spec fn about_content(id: Seq<char>, index: u32) -> JsonV {
    about_item(id, Some(index)).put("content_index"@, json::jnum(0))
}

/// The data of an event with an item.
pub open spec fn with_item(index: Option<u32>, item: JsonV) -> JsonV {
    json::jobj().put("output_index"@, index_v(index)).put("item"@, item)
}

/// A reasoning item that is not complete.
pub open spec fn open_reasoning_v(id: Seq<char>) -> JsonV {
    json::jobj().put("id"@, JsonV::Str(id)).put("type"@, JsonV::Str("reasoning"@)).put(
        "status"@,
        JsonV::Str("in_progress"@),
    ).put("summary"@, to_responses::nothing())
}

/// A message item that is not complete.
pub open spec fn open_message_v(id: Seq<char>) -> JsonV {
    json::jobj().put("id"@, JsonV::Str(id)).put("type"@, JsonV::Str("message"@)).put(
        "status"@,
        JsonV::Str("in_progress"@),
    ).put("role"@, JsonV::Str("assistant"@)).put("content"@, to_responses::nothing())
}

/// A function call item in a state.
pub open spec fn call_item_v(
    id: Seq<char>,
    call_id: Seq<char>,
    name: Seq<char>,
    arguments: Seq<char>,
    status: Seq<char>,
) -> JsonV {
    json::jobj().put("id"@, JsonV::Str(id)).put("type"@, JsonV::Str("function_call"@)).put(
        "status"@,
        JsonV::Str(status),
    ).put("call_id"@, JsonV::Str(call_id)).put("name"@, JsonV::Str(name)).put(
        "arguments"@,
        JsonV::Str(arguments),
    )
}

pub(crate) fn call_item(id: &str, call_id: &str, name: &str, arguments: &str, status: &str) -> (r:
    Json)
    ensures
        r@ == call_item_v(id@, call_id@, name@, arguments@, status@),
{
    Json::object().put("id", Json::str(id)).put("type", Json::str("function_call")).put(
        "status",
        Json::str(status),
    ).put("call_id", Json::str(call_id)).put("name", Json::str(name)).put(
        "arguments",
        Json::str(arguments),
    )
}

/// A response that has started.
pub open spec fn open_response_v(id: Seq<char>, created: u64, model: Seq<char>) -> JsonV {
    json::jobj().put("id"@, JsonV::Str(id)).put("object"@, JsonV::Str("response"@)).put(
        "created_at"@,
        json::jnum(created),
    ).put("status"@, JsonV::Str("in_progress"@)).put("model"@, JsonV::Str(model)).put(
        "output"@,
        to_responses::nothing(),
    )
}

/// A response that has failed.
pub open spec fn failed_response_v(id: Seq<char>, message: Seq<char>) -> JsonV {
    json::jobj().put("id"@, JsonV::Str(id)).put("object"@, JsonV::Str("response"@)).put(
        "status"@,
        JsonV::Str("failed"@),
    ).put("error"@, json::jobj().put("message"@, JsonV::Str(message)))
}

impl Events {
    /// The events with one more, numbered next.
    pub open spec fn event(self, name: Seq<char>, data: JsonV) -> Events {
        let n = self.sequence.wrapping_add(1);
        Events {
            sequence: n,
            out: self.out.push(sse::event_text(name, payload(name, n, data))),
        }
    }

    /// A response starts.
    pub open spec fn started(self, id: Seq<char>, created: u64, model: Seq<char>) -> Events {
        let r = open_response_v(id, created, model);
        self.event("response.created"@, r).event("response.in_progress"@, r)
    }

    /// A reasoning item starts.
    pub open spec fn reasoning_added(self, id: Seq<char>, index: u32) -> Events {
        self.event(
            "response.output_item.added"@,
            with_item(Some(index), open_reasoning_v(id)),
        ).event(
            "response.reasoning_summary_part.added"@,
            about_summary(id, index).put("part"@, parts::text_block_v("summary_text"@, ""@)),
        )
    }

    /// A reasoning item goes on.
    pub open spec fn reasoning_delta(self, id: Seq<char>, index: u32, t: Seq<char>) -> Events {
        self.event(
            "response.reasoning_summary_text.delta"@,
            about_summary(id, index).put("delta"@, JsonV::Str(t)),
        )
    }

    /// A reasoning item ends.
    pub open spec fn reasoning_done(
        self,
        id: Seq<char>,
        index: u32,
        t: Seq<char>,
        item: JsonV,
    ) -> Events {
        self.event(
            "response.reasoning_summary_text.done"@,
            about_summary(id, index).put("text"@, JsonV::Str(t)),
        ).event(
            "response.reasoning_summary_part.done"@,
            about_summary(id, index).put("part"@, parts::text_block_v("summary_text"@, t)),
        ).event("response.output_item.done"@, with_item(Some(index), item))
    }

    /// A message item starts.
    pub open spec fn message_added(self, id: Seq<char>, index: u32) -> Events {
        self.event(
            "response.output_item.added"@,
            with_item(Some(index), open_message_v(id)),
        ).event(
            "response.content_part.added"@,
            about_content(id, index).put("part"@, to_responses::output_text_v(""@)),
        )
    }

    /// A message item goes on.
    pub open spec fn message_delta(self, id: Seq<char>, index: u32, t: Seq<char>) -> Events {
        self.event(
            "response.output_text.delta"@,
            about_content(id, index).put("delta"@, JsonV::Str(t)),
        )
    }

    /// A message item ends.
    pub open spec fn message_done(self, id: Seq<char>, index: u32, t: Seq<char>) -> Events {
        self.event(
            "response.output_text.done"@,
            about_content(id, index).put("text"@, JsonV::Str(t)),
        ).event(
            "response.content_part.done"@,
            about_content(id, index).put("part"@, to_responses::output_text_v(t)),
        ).event(
            "response.output_item.done"@,
            with_item(Some(index), to_responses::message_item_v(id, t)),
        )
    }

    /// A function call starts.
    pub open spec fn call_added(
        self,
        id: Seq<char>,
        index: u32,
        call_id: Seq<char>,
        name: Seq<char>,
    ) -> Events {
        self.event(
            "response.output_item.added"@,
            with_item(Some(index), call_item_v(id, call_id, name, ""@, "in_progress"@)),
        )
    }

    /// A function call goes on.
    pub open spec fn call_delta(self, id: Seq<char>, index: u32, t: Seq<char>) -> Events {
        self.event(
            "response.function_call_arguments.delta"@,
            about_item(id, Some(index)).put("delta"@, JsonV::Str(t)),
        )
    }

    /// A function call ends.
    pub open spec fn call_done(
        self,
        id: Seq<char>,
        index: Option<u32>,
        call_id: Seq<char>,
        name: Seq<char>,
        arguments: Seq<char>,
    ) -> Events {
        self.event(
            "response.function_call_arguments.done"@,
            about_item(id, index).put("arguments"@, JsonV::Str(arguments)),
        ).event(
            "response.output_item.done"@,
            with_item(index, call_item_v(id, call_id, name, arguments, "completed"@)),
        )
    }

    /// The response fails.
    pub open spec fn failed(self, id: Seq<char>, message: Seq<char>) -> Events {
        self.event("response.failed"@, failed_response_v(id, message))
    }
}

/// Writes the events of a Responses stream.
pub struct EventWriter {
    pub sequence_number: u64,
    pub out: Vec<String>,
}

impl View for EventWriter {
    type V = Events;

    open spec fn view(&self) -> Events {
        Events { sequence: self.sequence_number, out: text::texts(self.out@) }
    }
}

impl EventWriter {
    /// The stream before its first event.
    pub fn new() -> (r: EventWriter)
        ensures
            r@ == (Events { sequence: 0, out: Seq::empty() }),
    {
        let r = EventWriter { sequence_number: 0, out: Vec::new() };
        assert(text::texts(r.out@) =~= Seq::<Seq<char>>::empty());
        r
    }

    /// Takes the events so far out.
    pub fn take(&mut self) -> (r: Vec<String>)
        ensures
            text::texts(r@) == old(self)@.out,
            final(self)@ == (Events { out: Seq::empty(), ..old(self)@ }),
    {
        let mut out: Vec<String> = Vec::new();
        out.append(&mut self.out);
        proof {
            assert(text::texts(out@) =~= old(self)@.out);
            assert(self@ =~= (Events { out: Seq::empty(), ..old(self)@ }));
        }
        out
    }

    /// Writes an event with its type and the next number.
    pub fn sse_event(&mut self, event: &str, data: Json)
        ensures
            final(self)@ == old(self)@.event(event@, data@),
    {
        self.sequence_number = self.sequence_number.wrapping_add(1);
        let kind = Json::str(event);
        let number = Json::number(self.sequence_number);
        let payload = if same(event, "response.created") || same(event, "response.in_progress")
            || same(event, "response.completed") || same(event, "response.failed") {
            Json::object().put("type", kind).put("sequence_number", number).put("response", data)
        } else if data.is_object() {
            data.put("type", kind).put("sequence_number", number)
        } else {
            Json::object().put("type", kind).put("sequence_number", number).put("data", data)
        };
        self.out.push(to_event_text(event, &payload));
        assert(self@ =~= old(self)@.event(event@, data@));
    }

    /// Says that a response starts.
    pub fn started(&mut self, id: &str, created: u64, model: &str)
        ensures
            final(self)@ == old(self)@.started(id@, created, model@),
    {
        let r = Json::object().put("id", Json::str(id)).put("object", Json::str("response")).put(
            "created_at",
            Json::number(created),
        ).put("status", Json::str("in_progress")).put("model", Json::str(model)).put(
            "output",
            no_elements(),
        );
        let again = r.clone();
        self.sse_event("response.created", r);
        self.sse_event("response.in_progress", again);
    }

    /// Says that a reasoning item starts.
    pub fn reasoning_added(&mut self, id: &str, i: u32)
        ensures
            final(self)@ == old(self)@.reasoning_added(id@, i),
    {
        let item = Json::object().put("id", Json::str(id)).put("type", Json::str("reasoning")).put(
            "status",
            Json::str("in_progress"),
        ).put("summary", no_elements());
        self.sse_event(
            "response.output_item.added",
            Json::object().put("output_index", index_json(Some(i))).put("item", item),
        );
        self.sse_event(
            "response.reasoning_summary_part.added",
            about(id, Some(i)).put("summary_index", Json::number(0)).put(
                "part",
                text_block("summary_text", ""),
            ),
        );
    }

    /// Says that a reasoning item goes on.
    pub fn reasoning_delta(&mut self, id: &str, i: u32, t: &str)
        ensures
            final(self)@ == old(self)@.reasoning_delta(id@, i, t@),
    {
        self.sse_event(
            "response.reasoning_summary_text.delta",
            about(id, Some(i)).put("summary_index", Json::number(0)).put("delta", Json::str(t)),
        );
    }

    /// Says that a reasoning item ends.
    pub fn reasoning_done(&mut self, id: &str, i: u32, t: &str, item: Json)
        ensures
            final(self)@ == old(self)@.reasoning_done(id@, i, t@, item@),
    {
        self.sse_event(
            "response.reasoning_summary_text.done",
            about(id, Some(i)).put("summary_index", Json::number(0)).put("text", Json::str(t)),
        );
        self.sse_event(
            "response.reasoning_summary_part.done",
            about(id, Some(i)).put("summary_index", Json::number(0)).put(
                "part",
                text_block("summary_text", t),
            ),
        );
        self.sse_event(
            "response.output_item.done",
            Json::object().put("output_index", index_json(Some(i))).put("item", item),
        );
    }

    /// Says that a message item starts.
    pub fn message_added(&mut self, id: &str, i: u32)
        ensures
            final(self)@ == old(self)@.message_added(id@, i),
    {
        let item = Json::object().put("id", Json::str(id)).put("type", Json::str("message")).put(
            "status",
            Json::str("in_progress"),
        ).put("role", Json::str("assistant")).put("content", no_elements());
        self.sse_event(
            "response.output_item.added",
            Json::object().put("output_index", index_json(Some(i))).put("item", item),
        );
        self.sse_event(
            "response.content_part.added",
            about(id, Some(i)).put("content_index", Json::number(0)).put("part", output_text("")),
        );
    }

    /// Says that a message item goes on.
    pub fn message_delta(&mut self, id: &str, i: u32, t: &str)
        ensures
            final(self)@ == old(self)@.message_delta(id@, i, t@),
    {
        self.sse_event(
            "response.output_text.delta",
            about(id, Some(i)).put("content_index", Json::number(0)).put("delta", Json::str(t)),
        );
    }

    /// Says that a message item ends.
    pub fn message_done(&mut self, id: &str, i: u32, t: &str)
        ensures
            final(self)@ == old(self)@.message_done(id@, i, t@),
    {
        self.sse_event(
            "response.output_text.done",
            about(id, Some(i)).put("content_index", Json::number(0)).put("text", Json::str(t)),
        );
        self.sse_event(
            "response.content_part.done",
            about(id, Some(i)).put("content_index", Json::number(0)).put("part", output_text(t)),
        );
        self.sse_event(
            "response.output_item.done",
            Json::object().put("output_index", index_json(Some(i))).put("item", message_item(id, t)),
        );
    }

    /// Says that a function call starts.
    pub fn call_added(&mut self, id: &str, i: u32, call_id: &str, name: &str)
        ensures
            final(self)@ == old(self)@.call_added(id@, i, call_id@, name@),
    {
        self.sse_event(
            "response.output_item.added",
            Json::object().put("output_index", index_json(Some(i))).put(
                "item",
                call_item(id, call_id, name, "", "in_progress"),
            ),
        );
    }

    /// Says that a function call goes on.
    pub fn call_delta(&mut self, id: &str, i: u32, t: &str)
        ensures
            final(self)@ == old(self)@.call_delta(id@, i, t@),
    {
        self.sse_event(
            "response.function_call_arguments.delta",
            about(id, Some(i)).put("delta", Json::str(t)),
        );
    }

    /// Says that a function call ends.
    pub fn call_done(
        &mut self,
        id: &str,
        i: Option<u32>,
        call_id: &str,
        name: &str,
        arguments: &str,
    )
        ensures
            final(self)@ == old(self)@.call_done(id@, i, call_id@, name@, arguments@),
    {
        self.sse_event(
            "response.function_call_arguments.done",
            about(id, i).put("arguments", Json::str(arguments)),
        );
        self.sse_event(
            "response.output_item.done",
            Json::object().put("output_index", index_json(i)).put(
                "item",
                call_item(id, call_id, name, arguments, "completed"),
            ),
        );
    }

    /// Says that the response fails.
    pub fn failed(&mut self, id: &str, message: &str)
        ensures
            final(self)@ == old(self)@.failed(id@, message@),
    {
        self.sse_event(
            "response.failed",
            Json::object().put("id", Json::str(id)).put("object", Json::str("response")).put(
                "status",
                Json::str("failed"),
            ).put("error", Json::object().put("message", Json::str(message))),
        );
    }
}

} // verus!
