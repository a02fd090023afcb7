//! A Chat Completions stream as a Responses stream.

use vstd::prelude::*;
use vstd::string::StringExecFns;

use super::response_events;
use super::response_events::{call_item, EventWriter, Events};
use super::pieces;
use super::pieces::Emitter;
use super::sse;
use super::sse::{data_in, LineBuffer, LineReader, Reading};
use crate::convert::parts;
use crate::convert::parts::text_block;
use crate::convert::responses::to_anthropic;
use crate::convert::responses::to_anthropic::choice_of;
use crate::convert::responses::to_responses;
use crate::convert::responses::to_responses::{
    codex_chat_usage_to_responses_usage, codex_response_id_from_chat_id, message_item, only,
    responses_usage,
};
use crate::json::{self, Json, JsonV};
use crate::text;
use crate::text::{concat2, same, to_decimal};

verus! {

/// An item that is not complete.
#[verifier::ext_equal]
pub struct OpenItem {
    pub index: u32,
    pub id: Seq<char>,
    pub text: Seq<char>,
}

/// A function call so far.
#[verifier::ext_equal]
pub struct OpenCall {
    /// The index of its item, once it has one.
    pub index: Option<u32>,
    pub item_id: Seq<char>,
    pub call_id: Seq<char>,
    pub name: Seq<char>,
    pub arguments: Seq<char>,
    /// Whether its item was announced.
    pub added: bool,
}

/// A function call of which nothing is known.
pub open spec fn unknown_call() -> OpenCall {
    OpenCall {
        index: None,
        item_id: Seq::empty(),
        call_id: Seq::empty(),
        name: Seq::empty(),
        arguments: Seq::empty(),
        added: false,
    }
}

/// Where, in calls sorted by their number, a number stands or would stand.
pub open spec fn place(calls: Seq<(usize, OpenCall)>, k: usize) -> int
    decreases calls.len(),
{
    if calls.len() == 0 {
        0
    } else if calls.last().0 < k {
        calls.len() as int
    } else {
        place(calls.drop_last(), k)
    }
}

/// Whether there is a call of that number.
pub open spec fn has_call(calls: Seq<(usize, OpenCall)>, k: usize) -> bool {
    0 <= place(calls, k) < calls.len() && calls[place(calls, k)].0 == k
}

/// The call of a number, unknown where there is none.
pub open spec fn call_at(calls: Seq<(usize, OpenCall)>, k: usize) -> OpenCall {
    if has_call(calls, k) {
        calls[place(calls, k)].1
    } else {
        unknown_call()
    }
}

/// The calls with one set.
pub open spec fn with_call(calls: Seq<(usize, OpenCall)>, k: usize, c: OpenCall) -> Seq<
    (usize, OpenCall),
> {
    if has_call(calls, k) {
        calls.update(place(calls, k), (k, c))
    } else {
        calls.insert(place(calls, k), (k, c))
    }
}

/// Whether calls stand in the order of their numbers, no number twice.
pub open spec fn sorted(calls: Seq<(usize, OpenCall)>) -> bool {
    forall|i: int, j: int| 0 <= i < j < calls.len() ==> (#[trigger] calls[i]).0 < (#[trigger] calls[j]).0
}

pub(crate) proof fn lemma_place(calls: Seq<(usize, OpenCall)>, k: usize)
    ensures
        0 <= place(calls, k) <= calls.len(),
        place(calls, k) > 0 ==> calls[place(calls, k) - 1].0 < k,
        forall|i: int| place(calls, k) <= i < calls.len() ==> (#[trigger] calls[i]).0 >= k,
    decreases calls.len(),
{
    if calls.len() > 0 && !(calls.last().0 < k) {
        lemma_place(calls.drop_last(), k);
        assert forall|i: int| place(calls, k) <= i < calls.len() implies (#[trigger] calls[i]).0
            >= k by {
            if i < calls.len() - 1 {
                assert(calls.drop_last()[i].0 >= k);
            }
        }
    }
}

/// Setting a call keeps the order, and the call is then found under its number.
pub proof fn lemma_with_call(calls: Seq<(usize, OpenCall)>, k: usize, c: OpenCall)
    requires
        sorted(calls),
    ensures
        sorted(with_call(calls, k, c)),
        call_at(with_call(calls, k, c), k) == c,
{
    lemma_place(calls, k);
    let p = place(calls, k);
    let s = with_call(calls, k, c);
    if has_call(calls, k) {
        assert forall|i: int, j: int| 0 <= i < j < s.len() implies (#[trigger] s[i]).0 < (#[trigger] s[j]).0 by {
            assert(calls[i].0 < calls[j].0);
        }
    } else {
        assert forall|i: int, j: int| 0 <= i < j < s.len() implies (#[trigger] s[i]).0 < (#[trigger] s[j]).0 by {
            if j < p {
                assert(calls[i].0 < calls[j].0);
            } else if j == p {
                if i < p - 1 {
                    assert(calls[i].0 < calls[p - 1].0);
                }
            } else if i < p {
                assert(calls[i].0 < calls[j - 1].0);
            } else if i == p {
                assert(calls[j - 1].0 >= k);
                assert(calls[p].0 >= k);
                if j - 1 > p {
                    assert(calls[p].0 < calls[j - 1].0);
                }
            } else {
                assert(calls[i - 1].0 < calls[j - 1].0);
            }
        }
    }
    lemma_place(s, k);
    let q = place(s, k);
    assert(s[p] == (k, c));
    if q < p {
        assert(s[q].0 >= k);
        assert(s[q].0 < s[p].0);
    } else if q > p {
        if q - 1 > p {
            assert(s[p].0 < s[q - 1].0);
        }
    }
}

/// A Chat Completions stream in the middle of its conversion.
#[verifier::ext_equal]
pub struct ChatToResponses {
    pub events: Events,
    /// Whether the response has started.
    pub started: bool,
    /// Whether the response has ended.
    pub completed: bool,
    /// Whether the stream has failed.
    pub failed: bool,
    pub id: Seq<char>,
    pub model: Seq<char>,
    pub created: u64,
    /// The index of the next item.
    pub next_index: u32,
    pub text: Option<OpenItem>,
    pub reasoning: Option<OpenItem>,
    pub calls: Seq<(usize, OpenCall)>,
    /// The items that are complete.
    pub items: Seq<JsonV>,
    pub usage: Option<JsonV>,
    pub finish_reason: Option<Seq<char>>,
}

/// A reasoning item that is complete.
pub open spec fn reasoning_item_v(id: Seq<char>, t: Seq<char>) -> JsonV {
    json::jobj().put("id"@, JsonV::Str(id)).put("type"@, JsonV::Str("reasoning"@)).put(
        "summary"@,
        to_responses::one(parts::text_block_v("summary_text"@, t)),
    )
}

impl ChatToResponses {
    /// The conversion before its start.
    pub open spec fn new(model: Seq<char>) -> ChatToResponses {
        ChatToResponses {
            events: Events { sequence: 0, out: Seq::empty() },
            started: false,
            completed: false,
            failed: false,
            id: Seq::empty(),
            model,
            created: 0,
            next_index: 0,
            text: None,
            reasoning: None,
            calls: Seq::empty(),
            items: Seq::empty(),
            usage: None,
            finish_reason: None,
        }
    }

    /// The response started, where it has not.
    pub open spec fn start(self) -> ChatToResponses {
        if self.started {
            self
        } else {
            ChatToResponses {
                started: true,
                events: self.events.started(self.id, self.created, self.model),
                ..self
            }
        }
    }

    /// A reasoning item open.
    pub open spec fn open_reasoning(self) -> ChatToResponses {
        match self.reasoning {
            Some(_) => self,
            None => {
                let id = "rs_"@ + self.id;
                ChatToResponses {
                    next_index: self.next_index.wrapping_add(1),
                    reasoning: Some(OpenItem { index: self.next_index, id, text: Seq::empty() }),
                    events: self.events.reasoning_added(id, self.next_index),
                    ..self
                }
            },
        }
    }

    /// More reasoning in the open item.
    pub open spec fn more_reasoning(self, t: Seq<char>) -> ChatToResponses {
        match self.reasoning {
            Some(item) => ChatToResponses {
                reasoning: Some(OpenItem { text: item.text + t, ..item }),
                events: self.events.reasoning_delta(item.id, item.index, t),
                ..self
            },
            None => self,
        }
    }

    /// More reasoning, opened first where it is not.
    pub open spec fn push_reasoning(self, t: Seq<char>) -> ChatToResponses {
        self.open_reasoning().more_reasoning(t)
    }

    /// The reasoning item closed, where it is open.
    pub open spec fn close_reasoning(self) -> ChatToResponses {
        match self.reasoning {
            Some(item) => {
                let done = reasoning_item_v(item.id, item.text);
                ChatToResponses {
                    reasoning: None,
                    items: self.items.push(done),
                    events: self.events.reasoning_done(item.id, item.index, item.text, done),
                    ..self
                }
            },
            None => self,
        }
    }

    /// A message item open; reasoning is closed before it.
    pub open spec fn open_text(self) -> ChatToResponses {
        match self.text {
            Some(_) => self,
            None => {
                let s = self.close_reasoning();
                let id = s.id + "_msg"@;
                ChatToResponses {
                    next_index: s.next_index.wrapping_add(1),
                    text: Some(OpenItem { index: s.next_index, id, text: Seq::empty() }),
                    events: s.events.message_added(id, s.next_index),
                    ..s
                }
            },
        }
    }

    /// More text in the open item.
    pub open spec fn more_text(self, t: Seq<char>) -> ChatToResponses {
        match self.text {
            Some(item) => ChatToResponses {
                text: Some(OpenItem { text: item.text + t, ..item }),
                events: self.events.message_delta(item.id, item.index, t),
                ..self
            },
            None => self,
        }
    }

    /// More text, opened first where it is not.
    pub open spec fn push_text(self, t: Seq<char>) -> ChatToResponses {
        self.open_text().more_text(t)
    }

    /// The message item closed, where it is open.
    pub open spec fn close_text(self) -> ChatToResponses {
        match self.text {
            Some(item) => ChatToResponses {
                text: None,
                items: self.items.push(to_responses::message_item_v(item.id, item.text)),
                events: self.events.message_done(item.id, item.index, item.text),
                ..self
            },
            None => self,
        }
    }

    /// A call with what a delta says of it.
    pub open spec fn updated_call(self, tc: JsonV) -> OpenCall {
        let c = call_at(self.calls, (tc.u64_or("index"@, 0) as usize));
        let f = tc.get_or_null("function"@);
        OpenCall {
            call_id: tc.str_or("id"@, c.call_id),
            name: f.str_or("name"@, c.name),
            arguments: c.arguments + f.str_or("arguments"@, ""@),
            ..c
        }
    }

    /// The state with a call announced: it gets an index, and an id and a name where it
    /// has none.
    pub open spec fn announce(self, k: usize, c: OpenCall) -> ChatToResponses {
        let call_id = if c.call_id.len() == 0 {
            "call_"@ + text::decimal(k as nat)
        } else {
            c.call_id
        };
        let name = if c.name.len() == 0 {
            "unknown_tool"@
        } else {
            c.name
        };
        let item_id = "fc_"@ + call_id;
        let i = self.next_index;
        let added = self.events.call_added(item_id, i, call_id, name);
        ChatToResponses {
            next_index: i.wrapping_add(1),
            calls: with_call(
                self.calls,
                k,
                OpenCall { index: Some(i), item_id, call_id, name, added: true, ..c },
            ),
            events: if c.arguments.len() > 0 {
                added.call_delta(item_id, i, c.arguments)
            } else {
                added
            },
            ..self
        }
    }

    /// The state with more of a call.
    pub open spec fn push_call(self, tc: JsonV) -> ChatToResponses {
        let k = tc.u64_or("index"@, 0) as usize;
        let c = self.updated_call(tc);
        let t = tc.get_or_null("function"@).str_or("arguments"@, ""@);
        if !c.added && (c.call_id.len() > 0 || c.name.len() > 0) {
            self.announce(k, c)
        } else {
            ChatToResponses {
                calls: with_call(self.calls, k, c),
                events: match c.index {
                    Some(i) => if c.added && t.len() > 0 {
                        self.events.call_delta(c.item_id, i, t)
                    } else {
                        self.events
                    },
                    None => self.events,
                },
                ..self
            }
        }
    }

    /// The state with more of calls.
    pub open spec fn push_calls(self, tcs: Seq<JsonV>) -> ChatToResponses
        decreases tcs.len(),
    {
        if tcs.len() == 0 {
            self
        } else {
            self.push_calls(tcs.drop_last()).push_call(tcs.last())
        }
    }

    /// The state with a call closed.
    pub open spec fn close_call(self, c: OpenCall) -> ChatToResponses {
        ChatToResponses {
            items: self.items.push(
                response_events::call_item_v(
                    c.item_id,
                    c.call_id,
                    c.name,
                    c.arguments,
                    "completed"@,
                ),
            ),
            events: self.events.call_done(c.item_id, c.index, c.call_id, c.name, c.arguments),
            ..self
        }
    }

    /// The state with calls closed, in the order of their numbers.
    pub open spec fn close_calls(self, calls: Seq<(usize, OpenCall)>) -> ChatToResponses
        decreases calls.len(),
    {
        if calls.len() == 0 {
            self
        } else {
            self.close_calls(calls.drop_last()).close_call(calls.last().1)
        }
    }

    /// The id and the time that a chunk says.
    pub open spec fn noted(self, chunk: JsonV) -> ChatToResponses {
        ChatToResponses {
            id: match chunk.str_at("id"@) {
                Some(id) => to_responses::response_id(Some(id)),
                None => self.id,
            },
            created: chunk.u64_or("created"@, self.created),
            ..self
        }
    }

    /// The usage that a chunk says.
    pub open spec fn used(self, chunk: JsonV) -> ChatToResponses {
        match chunk.get("usage"@) {
            Some(u) => if u is Null {
                self
            } else {
                ChatToResponses { usage: Some(to_responses::usage_of_chat(Some(u))), ..self }
            },
            None => self,
        }
    }

    /// Reasoning where a delta has it under a key.
    pub open spec fn reasoning_under(self, delta: JsonV, key: Seq<char>) -> ChatToResponses {
        if delta.str_or(key, ""@).len() > 0 {
            self.push_reasoning(delta.str_or(key, ""@))
        } else {
            self
        }
    }

    /// The state after a delta.
    pub open spec fn delta(self, delta: JsonV) -> ChatToResponses {
        let s = self.reasoning_under(delta, "reasoning_content"@).reasoning_under(
            delta,
            "reasoning"@,
        );
        let content = delta.str_or("content"@, ""@);
        let s = if content.len() > 0 {
            s.push_text(content)
        } else {
            s
        };
        match delta.array_at("tool_calls"@) {
            Some(tcs) => s.close_reasoning().push_calls(tcs),
            None => s,
        }
    }

    /// The state after a choice.
    pub open spec fn choice(self, choice: JsonV) -> ChatToResponses {
        let s = match choice.get("delta"@) {
            Some(delta) => self.delta(delta),
            None => self,
        };
        match choice.str_at("finish_reason"@) {
            Some(r) => ChatToResponses { finish_reason: Some(r), ..s },
            None => s,
        }
    }

    /// The state after a chunk.
    pub open spec fn chunk(self, chunk: JsonV) -> ChatToResponses {
        let s = self.noted(chunk).start().used(chunk);
        match to_anthropic::first_choice(chunk) {
            Some(choice) => s.choice(choice),
            None => s,
        }
    }

    /// Whether the response was cut off at its limit.
    pub open spec fn cut_off(self) -> bool {
        self.finish_reason == Some("length"@)
    }

    /// The response as it is at its end.
    pub open spec fn response(self) -> JsonV {
        json::jobj().put("id"@, JsonV::Str(self.id)).put("object"@, JsonV::Str("response"@)).put(
            "created_at"@,
            json::jnum(self.created),
        ).put(
            "status"@,
            JsonV::Str(
                if self.cut_off() {
                    "incomplete"@
                } else {
                    "completed"@
                },
            ),
        ).put("model"@, JsonV::Str(self.model)).put("output"@, JsonV::Arr(self.items)).put(
            "usage"@,
            match self.usage {
                Some(u) => u,
                None => to_responses::responses_usage_v(0, 0, 0),
            },
        ).put_opt(
            "incomplete_details"@,
            if self.cut_off() {
                Some(json::jobj().put("reason"@, JsonV::Str("max_output_tokens"@)))
            } else {
                None
            },
        )
    }

    /// The state with every item closed.
    pub open spec fn closed(self) -> ChatToResponses {
        let s = self.start().close_reasoning().close_text();
        s.close_calls(s.calls)
    }

    /// The response ended, where it has not.
    pub open spec fn finalize(self) -> ChatToResponses {
        if self.completed {
            self
        } else {
            let s = self.closed();
            ChatToResponses {
                completed: true,
                events: s.events.event("response.completed"@, s.response()),
                ..s
            }
        }
    }

    /// The stream failed.
    pub open spec fn fail(self, message: Seq<char>) -> ChatToResponses {
        ChatToResponses {
            completed: true,
            failed: true,
            events: self.events.failed(self.id, message),
            ..self
        }
    }

    /// The stream ended.
    pub open spec fn end(self) -> ChatToResponses {
        if self.failed {
            self
        } else {
            self.finalize()
        }
    }
}

impl LineReader for ChatToResponses {
    open spec fn line(self, l: Seq<char>) -> ChatToResponses {
        if self.failed {
            self
        } else {
            match sse::data_of(l) {
                Some(d) => if d == "[DONE]"@ {
                    self.finalize()
                } else {
                    match json::wire::json_of_text(d) {
                        Some(chunk) => if chunk.get("error"@) is Some {
                            self.fail("Upstream error"@)
                        } else {
                            self.chunk(chunk)
                        },
                        None => self,
                    }
                },
                None => self,
            }
        }
    }
}

/// An item that is not complete.
pub struct ItemState {
    pub index: u32,
    pub id: String,
    pub text: String,
}

impl View for ItemState {
    type V = OpenItem;

    open spec fn view(&self) -> OpenItem {
        OpenItem { index: self.index, id: self.id@, text: self.text@ }
    }
}

/// The view of an item that may be missing.
pub open spec fn opt_item(o: Option<ItemState>) -> Option<OpenItem> {
    match o {
        Some(i) => Some(i@),
        None => None,
    }
}

/// A function call so far.
pub struct CodexToolCallState {
    output_index: Option<u32>,
    item_id: String,
    call_id: String,
    name: String,
    arguments: String,
    added: bool,
}

impl View for CodexToolCallState {
    type V = OpenCall;

    closed spec fn view(&self) -> OpenCall {
        OpenCall {
            index: self.output_index,
            item_id: self.item_id@,
            call_id: self.call_id@,
            name: self.name@,
            arguments: self.arguments@,
            added: self.added,
        }
    }
}

/// The views of calls.
spec fn calls_view(s: Seq<(usize, CodexToolCallState)>) -> Seq<(usize, OpenCall)> {
    Seq::new(s.len(), |i: int| (s[i].0, s[i].1@))
}

fn find_place(calls: &Vec<(usize, CodexToolCallState)>, k: usize) -> (r: usize)
    ensures
        r <= calls@.len(),
        r == place(calls_view(calls@), k),
{
    let ghost all = calls_view(calls@);
    let mut i: usize = calls.len();
    assert(all.take(i as int) =~= all);
    while i > 0
        invariant
            i <= calls@.len(),
            all == calls_view(calls@),
            place(all, k) == place(all.take(i as int), k),
        decreases i,
    {
        assert(all.take(i as int).drop_last() =~= all.take(i - 1));
        assert(all.take(i as int).last() == all[i - 1]);
        if calls[i - 1].0 < k {
            return i;
        }
        i = i - 1;
    }
    0
}

fn copy_call(c: &CodexToolCallState) -> (r: CodexToolCallState)
    ensures
        r@ == c@,
{
    CodexToolCallState {
        output_index: c.output_index,
        item_id: c.item_id.clone(),
        call_id: c.call_id.clone(),
        name: c.name.clone(),
        arguments: c.arguments.clone(),
        added: c.added,
    }
}

fn find_call(calls: &Vec<(usize, CodexToolCallState)>, k: usize) -> (r: CodexToolCallState)
    ensures
        r@ == call_at(calls_view(calls@), k),
{
    let p: usize = find_place(calls, k);
    if p < calls.len() && calls[p].0 == k {
        copy_call(&calls[p].1)
    } else {
        let r = CodexToolCallState {
            output_index: None,
            item_id: String::new(),
            call_id: String::new(),
            name: String::new(),
            arguments: String::new(),
            added: false,
        };
        assert(r@ =~= unknown_call());
        r
    }
}

/// Function calls by their numbers, in the order of the numbers and no number twice.
struct ToolCalls {
    entries: Vec<(usize, CodexToolCallState)>,
}

impl View for ToolCalls {
    type V = Seq<(usize, OpenCall)>;

    closed spec fn view(&self) -> Seq<(usize, OpenCall)> {
        calls_view(self.entries@)
    }
}

impl ToolCalls {
    #[verifier::type_invariant]
    spec fn inv(self) -> bool {
        sorted(calls_view(self.entries@))
    }

    fn new() -> (r: ToolCalls)
        ensures
            r@ == Seq::<(usize, OpenCall)>::empty(),
    {
        let r = ToolCalls { entries: Vec::new() };
        assert(r@ =~= Seq::<(usize, OpenCall)>::empty());
        r
    }

    fn len(&self) -> (r: usize)
        ensures
            r == self@.len(),
    {
        self.entries.len()
    }

    fn get(&self, i: usize) -> (r: CodexToolCallState)
        requires
            i < self@.len(),
        ensures
            r@ == self@[i as int].1,
    {
        copy_call(&self.entries[i].1)
    }

    fn find(&self, k: usize) -> (r: CodexToolCallState)
        ensures
            r@ == call_at(self@, k),
    {
        find_call(&self.entries, k)
    }

    /// Sets the call of a number.
    fn set(&mut self, k: usize, c: CodexToolCallState)
        ensures
            final(self)@ == with_call(old(self)@, k, c@),
            sorted(final(self)@),
    {
        proof {
            use_type_invariant(&*self);
        }
        let ghost before = self@;
        let ghost v = c@;
        let p: usize = find_place(&self.entries, k);
        let mut entries: Vec<(usize, CodexToolCallState)> = Vec::new();
        assert(calls_view(entries@) =~= Seq::<(usize, OpenCall)>::empty());
        std::mem::swap(&mut entries, &mut self.entries);
        if p < entries.len() && entries[p].0 == k {
            entries.set(p, (k, c));
            assert(calls_view(entries@) =~= before.update(p as int, (k, v)));
        } else {
            entries.insert(p, (k, c));
            assert(calls_view(entries@) =~= before.insert(p as int, (k, v)));
        }
        proof {
            lemma_with_call(before, k, v);
        }
        self.entries = entries;
    }
}

/// Converts a Chat Completions stream to a Responses stream.
pub struct CodexChatToResponsesState {
    events: EventWriter,
    response_started: bool,
    completed: bool,
    stream_failed: bool,
    response_id: String,
    model: String,
    created_at: u64,
    next_output_index: u32,
    text: Option<ItemState>,
    reasoning: Option<ItemState>,
    tools: ToolCalls,
    output_items: Vec<Json>,
    latest_usage: Option<Json>,
    finish_reason: Option<String>,
    buffer: LineBuffer,
}

impl View for CodexChatToResponsesState {
    type V = Reading<ChatToResponses>;

    closed spec fn view(&self) -> Reading<ChatToResponses> {
        Reading { machine: self.state(), rest: self.buffer@ }
    }
}

impl CodexChatToResponsesState {
    closed spec fn state(self) -> ChatToResponses {
        ChatToResponses {
            events: self.events@,
            started: self.response_started,
            completed: self.completed,
            failed: self.stream_failed,
            id: self.response_id@,
            model: self.model@,
            created: self.created_at,
            next_index: self.next_output_index,
            text: opt_item(self.text),
            reasoning: opt_item(self.reasoning),
            calls: self.tools@,
            items: json::views(self.output_items@),
            usage: json::wire::opt_json(self.latest_usage),
            finish_reason: text::opt_text(self.finish_reason),
        }
    }

    /// The conversion of a stream.
    pub fn new(request_model: &str) -> (r: CodexChatToResponsesState)
        ensures
            r@.machine == ChatToResponses::new(request_model@),
            r@.rest == Seq::<char>::empty(),
    {
        let r = CodexChatToResponsesState {
            events: EventWriter::new(),
            response_started: false,
            completed: false,
            stream_failed: false,
            response_id: String::new(),
            model: request_model.to_owned(),
            created_at: 0,
            next_output_index: 0,
            text: None,
            reasoning: None,
            tools: ToolCalls::new(),
            output_items: Vec::new(),
            latest_usage: None,
            finish_reason: None,
            buffer: LineBuffer::new(),
        };
        assert(r.state() =~= ChatToResponses::new(request_model@));
        r
    }

    /// Whether the stream has failed.
    pub fn is_failed(&self) -> (r: bool)
        ensures
            r == self@.machine.failed,
    {
        self.stream_failed
    }

    fn next_output_index(&mut self) -> (r: u32)
        ensures
            r == old(self).state().next_index,
            final(self).state() == (ChatToResponses {
                next_index: r.wrapping_add(1),
                ..old(self).state()
            }),
            final(self).buffer == old(self).buffer,
    {
        let i: u32 = self.next_output_index;
        self.next_output_index = i.wrapping_add(1);
        i
    }

    fn ensure_response_started(&mut self)
        ensures
            final(self).state() == old(self).state().start(),
            final(self).buffer == old(self).buffer,
    {
        if !self.response_started {
            self.response_started = true;
            self.events.started(self.response_id.as_str(), self.created_at, self.model.as_str());
        }
    }

    fn push_reasoning_delta(&mut self, delta: &str)
        ensures
            final(self).state() == old(self).state().push_reasoning(delta@),
            final(self).buffer == old(self).buffer,
    {
        if self.reasoning.is_none() {
            let i: u32 = self.next_output_index();
            let id = concat2("rs_", self.response_id.as_str());
            self.events.reasoning_added(id.as_str(), i);
            self.reasoning = Some(ItemState { index: i, id, text: String::new() });
        }
        assert(self.state() =~= old(self).state().open_reasoning());
        if let Some(mut item) = self.reasoning.take() {
            item.text.append(delta);
            self.events.reasoning_delta(item.id.as_str(), item.index, delta);
            self.reasoning = Some(item);
        }
        assert(self.state() =~= old(self).state().push_reasoning(delta@));
    }

    fn finalize_reasoning(&mut self)
        ensures
            final(self).state() == old(self).state().close_reasoning(),
            final(self).buffer == old(self).buffer,
    {
        broadcast use json::group_json;

        if let Some(item) = self.reasoning.take() {
            let done = Json::object().put("id", Json::str(item.id.as_str())).put(
                "type",
                Json::str("reasoning"),
            ).put("summary", only(text_block("summary_text", item.text.as_str())));
            self.output_items.push(done.clone());
            self.events.reasoning_done(item.id.as_str(), item.index, item.text.as_str(), done);
        }
        assert(self.state() =~= old(self).state().close_reasoning());
    }

    fn push_text_delta(&mut self, delta: &str)
        ensures
            final(self).state() == old(self).state().push_text(delta@),
            final(self).buffer == old(self).buffer,
    {
        if self.text.is_none() {
            self.finalize_reasoning();
            let i: u32 = self.next_output_index();
            let id = concat2(self.response_id.as_str(), "_msg");
            self.events.message_added(id.as_str(), i);
            self.text = Some(ItemState { index: i, id, text: String::new() });
        }
        assert(self.state() =~= old(self).state().open_text());
        if let Some(mut item) = self.text.take() {
            item.text.append(delta);
            self.events.message_delta(item.id.as_str(), item.index, delta);
            self.text = Some(item);
        }
        assert(self.state() =~= old(self).state().push_text(delta@));
    }

    fn finalize_text(&mut self)
        ensures
            final(self).state() == old(self).state().close_text(),
            final(self).buffer == old(self).buffer,
    {
        broadcast use json::group_json;

        if let Some(item) = self.text.take() {
            self.output_items.push(message_item(item.id.as_str(), item.text.as_str()));
            self.events.message_done(item.id.as_str(), item.index, item.text.as_str());
        }
        assert(self.state() =~= old(self).state().close_text());
    }

    fn announce(&mut self, k: usize, c: CodexToolCallState)
        ensures
            final(self).state() == old(self).state().announce(k, c@),
            final(self).buffer == old(self).buffer,
    {
        let mut c = c;
        let ghost given = c@;
        let i: u32 = self.next_output_index();
        if c.call_id.as_str().is_empty() {
            c.call_id = concat2("call_", to_decimal(k as u64).as_str());
        }
        if c.name.as_str().is_empty() {
            c.name = "unknown_tool".to_owned();
        }
        c.item_id = concat2("fc_", c.call_id.as_str());
        c.output_index = Some(i);
        c.added = true;
        self.events.call_added(c.item_id.as_str(), i, c.call_id.as_str(), c.name.as_str());
        if !c.arguments.as_str().is_empty() {
            self.events.call_delta(c.item_id.as_str(), i, c.arguments.as_str());
        }
        self.tools.set(k, c);
        assert(self.state() =~= old(self).state().announce(k, given));
    }

    fn push_tool_call_delta(&mut self, tc: &Json)
        ensures
            final(self).state() == old(self).state().push_call(tc@),
            final(self).buffer == old(self).buffer,
    {
        let k: usize = tc.u64_or("index", 0) as usize;
        let f = tc.get_or_null("function");
        let delta = f.str_or("arguments", "");
        let mut c = self.tools.find(k);
        if let Some(id) = tc.str_at("id") {
            c.call_id = id.to_owned();
        }
        if let Some(name) = f.str_at("name") {
            c.name = name.to_owned();
        }
        c.arguments.append(delta);
        assert(c@ =~= self.state().updated_call(tc@));
        if !c.added && (!c.call_id.as_str().is_empty() || !c.name.as_str().is_empty()) {
            self.announce(k, c);
        } else {
            if c.added && !delta.is_empty() {
                if let Some(i) = c.output_index {
                    self.events.call_delta(c.item_id.as_str(), i, delta);
                }
            }
            self.tools.set(k, c);
            assert(self.state() =~= old(self).state().push_call(tc@));
        }
    }

    fn push_tool_calls(&mut self, tcs: &Vec<Json>)
        ensures
            final(self).state() == old(self).state().push_calls(json::views(tcs@)),
            final(self).buffer == old(self).buffer,
    {
        let ghost all = json::views(tcs@);
        let n: usize = tcs.len();
        assert(all.take(0) =~= Seq::<JsonV>::empty());
        for i in 0..n
            invariant
                n == tcs@.len(),
                all == json::views(tcs@),
                self.buffer == old(self).buffer,
                self.state() == old(self).state().push_calls(all.take(i as int)),
        {
            proof {
                assert(all.take(i + 1).drop_last() =~= all.take(i as int));
                assert(all.take(i + 1).last() == tcs@[i as int]@);
            }
            self.push_tool_call_delta(&tcs[i]);
        }
        assert(all.take(n as int) =~= all);
    }

    fn finalize_tools(&mut self)
        ensures
            final(self).state() == old(self).state().close_calls(old(self).state().calls),
            final(self).buffer == old(self).buffer,
    {
        broadcast use json::group_json;

        let ghost all = self.state().calls;
        let n: usize = self.tools.len();
        assert(all.take(0) =~= Seq::<(usize, OpenCall)>::empty());
        for i in 0..n
            invariant
                n == self.tools@.len(),
                all == self.tools@,
                self.tools == old(self).tools,
                self.buffer == old(self).buffer,
                self.state() == old(self).state().close_calls(all.take(i as int)),
        {
            proof {
                assert(all.take(i + 1).drop_last() =~= all.take(i as int));
                assert(all.take(i + 1).last() == all[i as int]);
            }
            let ghost before = self.state();
            let c = self.tools.get(i);
            self.output_items.push(
                call_item(
                    c.item_id.as_str(),
                    c.call_id.as_str(),
                    c.name.as_str(),
                    c.arguments.as_str(),
                    "completed",
                ),
            );
            self.events.call_done(
                c.item_id.as_str(),
                c.output_index,
                c.call_id.as_str(),
                c.name.as_str(),
                c.arguments.as_str(),
            );
            assert(self.state() =~= before.close_call(c@));
        }
        assert(all.take(n as int) =~= all);
    }

    fn note(&mut self, chunk: &Json)
        ensures
            final(self).state() == old(self).state().noted(chunk@),
            final(self).buffer == old(self).buffer,
    {
        if let Some(id) = chunk.str_at("id") {
            self.response_id = codex_response_id_from_chat_id(Some(id));
        }
        self.created_at = chunk.u64_or("created", self.created_at);
        assert(self.state() =~= old(self).state().noted(chunk@));
    }

    fn use_up(&mut self, chunk: &Json)
        ensures
            final(self).state() == old(self).state().used(chunk@),
            final(self).buffer == old(self).buffer,
    {
        if let Some(u) = chunk.get("usage") {
            if !u.is_null() {
                self.latest_usage = Some(codex_chat_usage_to_responses_usage(Some(u)));
            }
        }
        assert(self.state() =~= old(self).state().used(chunk@));
    }

    fn reasoning_under(&mut self, delta: &Json, key: &str)
        ensures
            final(self).state() == old(self).state().reasoning_under(delta@, key@),
            final(self).buffer == old(self).buffer,
    {
        let t = delta.str_or(key, "");
        if !t.is_empty() {
            self.push_reasoning_delta(t);
        }
    }

    fn delta(&mut self, delta: &Json)
        ensures
            final(self).state() == old(self).state().delta(delta@),
            final(self).buffer == old(self).buffer,
    {
        self.reasoning_under(delta, "reasoning_content");
        self.reasoning_under(delta, "reasoning");
        let content = delta.str_or("content", "");
        if !content.is_empty() {
            self.push_text_delta(content);
        }
        if let Some(tcs) = delta.array_at("tool_calls") {
            self.finalize_reasoning();
            self.push_tool_calls(tcs);
        }
    }

    /// Takes in a chunk.
    pub fn handle_chat_chunk(&mut self, chunk: &Json)
        ensures
            final(self)@.machine == old(self)@.machine.chunk(chunk@),
            final(self)@.rest == old(self)@.rest,
    {
        self.note(chunk);
        self.ensure_response_started();
        self.use_up(chunk);
        if let Some(choice) = choice_of(chunk) {
            if let Some(delta) = choice.get("delta") {
                self.delta(delta);
            }
            let ghost mid = self.state();
            if let Some(r) = choice.str_at("finish_reason") {
                self.finish_reason = Some(r.to_owned());
            }
            assert(self.state() =~= match choice@.str_at("finish_reason"@) {
                Some(r) => ChatToResponses { finish_reason: Some(r), ..mid },
                None => mid,
            });
        }
    }

    fn response(&self) -> (r: Json)
        ensures
            r@ == self.state().response(),
    {
        broadcast use json::group_json;

        let cut = match &self.finish_reason {
            Some(r) => same(r.as_str(), "length"),
            None => false,
        };
        let status = if cut {
            "incomplete"
        } else {
            "completed"
        };
        let usage = match &self.latest_usage {
            Some(u) => u.clone(),
            None => responses_usage(0, 0, 0),
        };
        let mut items: Vec<Json> = Vec::new();
        let n: usize = self.output_items.len();
        for i in 0..n
            invariant
                n == self.output_items@.len(),
                json::views(items@) == json::views(self.output_items@).take(i as int),
        {
            items.push(self.output_items[i].clone());
            assert(json::views(self.output_items@).take(i + 1) =~= json::views(
                self.output_items@,
            ).take(i as int).push(self.output_items@[i as int]@));
        }
        assert(json::views(self.output_items@).take(n as int) =~= json::views(self.output_items@));
        let mut out = Json::object().put("id", Json::str(self.response_id.as_str())).put(
            "object",
            Json::str("response"),
        ).put("created_at", Json::number(self.created_at)).put("status", Json::str(status)).put(
            "model",
            Json::str(self.model.as_str()),
        ).put("output", Json::Arr(items)).put("usage", usage);
        if cut {
            out = out.put(
                "incomplete_details",
                Json::object().put("reason", Json::str("max_output_tokens")),
            );
        }
        out
    }

    /// Ends the response, where it has not ended.
    pub fn finalize(&mut self)
        ensures
            final(self)@.machine == old(self)@.machine.finalize(),
            final(self)@.rest == old(self)@.rest,
    {
        if self.completed {
            return;
        }
        self.ensure_response_started();
        self.finalize_reasoning();
        self.finalize_text();
        self.finalize_tools();
        let r = self.response();
        self.events.sse_event("response.completed", r);
        self.completed = true;
        assert(self.state() =~= old(self).state().finalize());
    }

    fn failed_event(&mut self, message: &str)
        ensures
            final(self).state() == old(self).state().fail(message@),
            final(self).buffer == old(self).buffer,
    {
        self.completed = true;
        self.stream_failed = true;
        self.events.failed(self.response_id.as_str(), message);
    }

    fn line(&mut self, l: &str)
        ensures
            final(self).state() == old(self).state().line(l@),
            final(self)@.rest == old(self)@.rest,
    {
        if self.stream_failed {
            return;
        }
        if let Some(d) = data_in(l) {
            if same(d, "[DONE]") {
                self.finalize();
            } else if let Some(chunk) = Json::parse(d) {
                if chunk.get("error").is_some() {
                    self.failed_event("Upstream error");
                } else {
                    self.handle_chat_chunk(&chunk);
                }
            }
        }
    }

    /// Takes in a piece of the stream and gives out the events that it makes.
    pub fn feed(&mut self, chunk: &[u8]) -> (r: Vec<String>)
        ensures
            text::texts(r@) == sse::fed(old(self)@, text::bytes_text(chunk@)).machine.events.out,
            final(self)@ == pieces::emptied(
                sse::fed(old(self)@, text::bytes_text(chunk@)),
            ),
    {
        let lines = self.buffer.push_bytes(chunk);
        let ghost all = text::texts(lines@);
        let ghost rest = self.buffer@;
        let n: usize = lines.len();
        assert(all.take(0) =~= Seq::<Seq<char>>::empty());
        for i in 0..n
            invariant
                n == lines@.len(),
                all == text::texts(lines@),
                self.buffer@ == rest,
                self.state() == sse::read_lines(old(self).state(), all.take(i as int)),
        {
            proof {
                assert(all.take(i + 1).drop_last() =~= all.take(i as int));
                assert(all.take(i + 1).last() == lines@[i as int]@);
            }
            self.line(lines[i].as_str());
        }
        assert(all.take(n as int) =~= all);
        self.events.take()
    }

    /// Takes in that the stream broke off, and gives out the events that this makes.
    pub fn fail(&mut self, message: &str) -> (r: Vec<String>)
        ensures
            text::texts(r@) == old(self)@.machine.fail(message@).events.out,
            final(self)@.machine == old(self)@.machine.fail(message@).taken(),
            final(self)@.rest == old(self)@.rest,
    {
        self.failed_event(message);
        self.events.take()
    }

    /// Takes in that the stream is over, and gives out the events that this makes.
    pub fn end(&mut self) -> (r: Vec<String>)
        ensures
            text::texts(r@) == old(self)@.machine.end().events.out,
            final(self)@.machine == old(self)@.machine.end().taken(),
            final(self)@.rest == old(self)@.rest,
    {
        if !self.stream_failed {
            self.finalize();
        }
        self.events.take()
    }
}

/// A response ends once: ending it again says nothing more.
pub proof fn lemma_finalize_once(s: ChatToResponses)
    ensures
        s.finalize().completed,
        s.finalize().finalize() == s.finalize(),
{
}

proof fn lemma_push_calls_sorted(s: ChatToResponses, tcs: Seq<JsonV>)
    requires
        sorted(s.calls),
    ensures
        sorted(s.push_calls(tcs).calls),
    decreases tcs.len(),
{
    if tcs.len() > 0 {
        lemma_push_calls_sorted(s, tcs.drop_last());
        let before = s.push_calls(tcs.drop_last());
        let after = before.push_call(tcs.last());
        let k = tcs.last().u64_or("index"@, 0) as usize;
        let c = before.updated_call(tcs.last());
        if !c.added && (c.call_id.len() > 0 || c.name.len() > 0) {
            assert(exists|x: OpenCall| after.calls == #[trigger] with_call(before.calls, k, x));
            let x = choose|x: OpenCall| after.calls == #[trigger] with_call(before.calls, k, x);
            lemma_with_call(before.calls, k, x);
        } else {
            lemma_with_call(before.calls, k, c);
        }
    }
}

proof fn lemma_close_calls(s: ChatToResponses, calls: Seq<(usize, OpenCall)>)
    ensures
        s.close_calls(calls).calls == s.calls,
        s.close_calls(calls).items == s.items + Seq::new(
            calls.len(),
            |i: int| closed_item(calls[i].1),
        ),
    decreases calls.len(),
{
    if calls.len() > 0 {
        lemma_close_calls(s, calls.drop_last());
        assert(s.close_calls(calls).items =~= s.items + Seq::new(
            calls.len(),
            |i: int| closed_item(calls[i].1),
        ));
    } else {
        assert(s.items + Seq::new(calls.len(), |i: int| closed_item(calls[i].1)) =~= s.items);
    }
}

/// The item of a call that is closed.
pub open spec fn closed_item(c: OpenCall) -> JsonV {
    response_events::call_item_v(c.item_id, c.call_id, c.name, c.arguments, "completed"@)
}

proof fn lemma_line_sorted(s: ChatToResponses, l: Seq<char>)
    requires
        sorted(s.calls),
    ensures
        sorted(s.line(l).calls),
{
    let c = s.start().close_reasoning().close_text();
    assert(c.calls == s.calls);
    lemma_close_calls(c, c.calls);
    match sse::data_of(l) {
        Some(d) => match json::wire::json_of_text(d) {
            Some(chunk) => {
                let t = s.noted(chunk).start().used(chunk);
                assert(t.calls == s.calls);
                match to_anthropic::first_choice(chunk) {
                    Some(choice) => match choice.get("delta"@) {
                        Some(delta) => {
                            let u = t.reasoning_under(delta, "reasoning_content"@).reasoning_under(
                                delta,
                                "reasoning"@,
                            );
                            assert(u.calls == s.calls);
                            let content = delta.str_or("content"@, ""@);
                            let w = if content.len() > 0 {
                                u.push_text(content)
                            } else {
                                u
                            };
                            assert(w.calls == s.calls);
                            match delta.array_at("tool_calls"@) {
                                Some(tcs) => {
                                    assert(w.close_reasoning().calls == s.calls);
                                    lemma_push_calls_sorted(w.close_reasoning(), tcs);
                                },
                                None => {},
                            }
                        },
                        None => {},
                    },
                    None => {},
                }
            },
            None => {},
        },
        None => {},
    }
}

/// At every time of a stream its calls stand in the order of their numbers, no number twice;
/// at its end they are closed in that order, each once.
pub proof fn lemma_calls_in_order(model: Seq<char>, lines: Seq<Seq<char>>)
    ensures
        ({
            let s = sse::read_lines(ChatToResponses::new(model), lines);
            let open = s.start().close_reasoning().close_text();
            &&& sorted(s.calls)
            &&& open.calls == s.calls
            &&& s.closed().items == open.items + Seq::new(
                s.calls.len(),
                |i: int| closed_item(s.calls[i].1),
            )
        }),
    decreases lines.len(),
{
    let s = sse::read_lines(ChatToResponses::new(model), lines);
    if lines.len() > 0 {
        lemma_calls_in_order(model, lines.drop_last());
        lemma_line_sorted(
            sse::read_lines(ChatToResponses::new(model), lines.drop_last()),
            lines.last(),
        );
    }
    let open = s.start().close_reasoning().close_text();
    assert(open.calls == s.calls);
    lemma_close_calls(open, open.calls);
}

} // verus!
