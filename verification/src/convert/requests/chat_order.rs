//! The order of chat messages that strict providers ask for: every tool message right
//! after the assistant's message whose call it answers.

use vstd::prelude::*;

use super::codex_chat;
use super::codex_chat::{ids_of_calls, tool_message};
use crate::convert::parts;
use crate::convert::parts::message;
use crate::json::{self, Json, JsonV};
use crate::keys;
use crate::seqs;
use crate::text;
use crate::text::{has, same};

verus! {

/// The role of a message, empty where it has none.
pub open spec fn role_of(m: JsonV) -> Seq<char> {
    m.str_or("role"@, ""@)
}

/// Whether a message calls a tool under that id.
pub open spec fn has_call(m: JsonV, id: Seq<char>) -> bool {
    match m.array_at("tool_calls"@) {
        Some(tcs) => exists|k: int| 0 <= k < tcs.len() && (#[trigger] tcs[k]).str_is("id"@, id),
        None => false,
    }
}

/// Whether a message is a tool's, in answer to that id.
pub open spec fn is_answer(m: JsonV, id: Seq<char>) -> bool {
    m.str_is("role"@, "tool"@) && m.str_is("tool_call_id"@, id)
}

/// Where the first answer to an id stands.
pub open spec fn first_answer(s: Seq<JsonV>, id: Seq<char>) -> Option<int>
    decreases s.len(),
{
    if s.len() == 0 {
        None
    } else {
        match first_answer(s.drop_last(), id) {
            Some(k) => Some(k),
            None => if is_answer(s.last(), id) {
                Some(s.len() - 1)
            } else {
                None
            },
        }
    }
}

/// Whether a message's content says something: a text that is not empty.
pub open spec fn says_something(m: JsonV) -> bool {
    match m.str_at("content"@) {
        Some(s) => s.len() > 0,
        None => false,
    }
}

/// Whether the tool messages at the end follow an assistant's message that calls that id.
pub open spec fn open_call(s: Seq<JsonV>, id: Seq<char>) -> bool
    decreases s.len(),
{
    if s.len() == 0 {
        false
    } else if role_of(s.last()) == "assistant"@ {
        has_call(s.last(), id)
    } else {
        role_of(s.last()) == "tool"@ && open_call(s.drop_last(), id)
    }
}

/// Where, in the assistants and tools at the end, the last message stands that calls
/// that id.
pub open spec fn caller(s: Seq<JsonV>, id: Seq<char>) -> Option<int>
    decreases s.len(),
{
    if s.len() == 0 {
        None
    } else if role_of(s.last()) == "assistant"@ {
        if has_call(s.last(), id) {
            Some(s.len() - 1)
        } else {
            caller(s.drop_last(), id)
        }
    } else if role_of(s.last()) == "tool"@ {
        caller(s.drop_last(), id)
    } else {
        None
    }
}

/// Where the tool messages from a place on end.
pub open spec fn after_tools(s: Seq<JsonV>, from: int) -> int
    decreases s.len() - from,
{
    if 0 <= from < s.len() && role_of(s[from]) == "tool"@ {
        after_tools(s, from + 1)
    } else {
        from
    }
}

/// Whether a message is an assistant's that neither says nor calls anything.
pub open spec fn is_blank_assistant(m: JsonV) -> bool {
    role_of(m) == "assistant"@ && !says_something(m) && m.get("tool_calls"@) is None && m.get(
        "reasoning_content"@,
    ) is None
}

/// An empty result for a call that has none.
pub open spec fn empty_result(placed: Set<Seq<char>>, id: Seq<char>) -> Seq<JsonV> {
    if placed.contains(id) {
        Seq::empty()
    } else {
        seq![codex_chat::tool_message_v(id, ""@)]
    }
}

pub open spec fn empty_result_fn(placed: Set<Seq<char>>) -> spec_fn(Seq<char>) -> Seq<JsonV> {
    |id: Seq<char>| empty_result(placed, id)
}

/// The tool calls of the last message, where it is an assistant's.
pub open spec fn last_calls(s: Seq<JsonV>) -> Seq<JsonV> {
    if s.len() > 0 && role_of(s.last()) == "assistant"@ {
        match s.last().array_at("tool_calls"@) {
            Some(tcs) => tcs,
            None => Seq::empty(),
        }
    } else {
        Seq::empty()
    }
}

/// The state of putting messages in order.
#[verifier::ext_equal]
pub struct Order {
    /// The messages in order.
    pub fixed: Seq<JsonV>,
    /// The ids of the calls that have their result.
    pub placed: Set<Seq<char>>,
}

impl Order {
    /// The state with a message at the end.
    pub open spec fn push(self, m: JsonV) -> Order {
        Order { fixed: self.fixed.push(m), ..self }
    }

    /// The state with a second result for a call: its content replaces that of the first
    /// where the first says nothing.
    pub open spec fn again(self, m: JsonV, id: Seq<char>) -> Order {
        match (first_answer(self.fixed, id), m.get("content"@)) {
            (Some(k), Some(c)) => if says_something(self.fixed[k]) {
                self
            } else {
                Order { fixed: self.fixed.update(k, self.fixed[k].put("content"@, c)), ..self }
            },
            _ => self,
        }
    }

    /// The state with a tool's message: at the end where its call is open there, else
    /// after its call's other results, else nowhere.
    pub open spec fn tool(self, m: JsonV) -> Order {
        match m.str_at("tool_call_id"@) {
            None => self.push(m),
            Some(id) => if self.placed.contains(id) {
                self.again(m, id)
            } else if open_call(self.fixed, id) {
                Order { fixed: self.fixed.push(m), placed: self.placed.insert(id) }
            } else {
                match caller(self.fixed, id) {
                    Some(k) => Order {
                        fixed: self.fixed.insert(after_tools(self.fixed, k + 1), m),
                        placed: self.placed.insert(id),
                    },
                    None => self,
                }
            },
        }
    }

    /// The state with empty results for the calls at the end that have none.
    pub open spec fn filled(self) -> Order {
        let ids = codex_chat::call_ids(last_calls(self.fixed));
        Order {
            fixed: self.fixed + seqs::flat(ids, empty_result_fn(self.placed)),
            placed: self.placed.union(ids.to_set()),
        }
    }

    /// The state with a message that is not a tool's.
    pub open spec fn other(self, m: JsonV) -> Order {
        let f = self.filled();
        if is_blank_assistant(m) && f.fixed.len() > 0 && role_of(f.fixed.last()) == "assistant"@ {
            f
        } else {
            f.push(m)
        }
    }

    /// The state with a message.
    pub open spec fn step(self, m: JsonV) -> Order {
        if role_of(m) == "tool"@ {
            self.tool(m)
        } else {
            self.other(m)
        }
    }

    /// The state with messages.
    pub open spec fn steps(self, msgs: Seq<JsonV>) -> Order
        decreases msgs.len(),
    {
        if msgs.len() == 0 {
            self
        } else {
            self.steps(msgs.drop_last()).step(msgs.last())
        }
    }

    /// The state at the start.
    pub open spec fn start() -> Order {
        Order { fixed: Seq::empty(), placed: Set::empty() }
    }
}

/// Whether a message is an assistant's without tool calls.
pub open spec fn is_bare_assistant(m: JsonV) -> bool {
    role_of(m) == "assistant"@ && match m.array_at("tool_calls"@) {
        Some(tcs) => tcs.len() == 0,
        None => true,
    }
}

/// The messages without the bare assistants at their end.
pub open spec fn trimmed(s: Seq<JsonV>) -> Seq<JsonV>
    decreases s.len(),
{
    if s.len() > 0 && is_bare_assistant(s.last()) {
        trimmed(s.drop_last())
    } else {
        s
    }
}

/// Whether a message is a user's or a tool's.
pub open spec fn is_user_or_tool(m: JsonV) -> bool {
    role_of(m) == "user"@ || role_of(m) == "tool"@
}

/// Whether there is a message of a user or a tool.
pub open spec fn has_user_or_tool(s: Seq<JsonV>) -> bool {
    exists|i: int| 0 <= i < s.len() && is_user_or_tool(#[trigger] s[i])
}

/// The end of the messages in order: no bare assistant, and results for the last calls.
pub open spec fn closed_order(o: Order) -> Seq<JsonV> {
    let s = trimmed(o.fixed);
    s + seqs::flat(codex_chat::call_ids(last_calls(s)), empty_result_fn(o.placed))
}

/// The messages in order, with a user's message first where no user and no tool speaks.
pub open spec fn ordered_chat(msgs: Seq<JsonV>) -> Seq<JsonV> {
    let s = closed_order(Order::start().steps(msgs));
    if has_user_or_tool(s) {
        s
    } else {
        s.insert(0, parts::message_v("user"@, JsonV::Str("Continue."@)))
    }
}

/// The state of putting messages in order.
pub struct ChatOrder {
    fixed: Vec<Json>,
    placed: Vec<String>,
}

impl View for ChatOrder {
    type V = Order;

    closed spec fn view(&self) -> Order {
        Order { fixed: json::views(self.fixed@), placed: text::texts(self.placed@).to_set() }
    }
}

fn calls_tool(m: &Json, id: &str) -> (r: bool)
    ensures
        r == has_call(m@, id@),
{
    if let Some(tcs) = m.array_at("tool_calls") {
        let ghost all = json::views(tcs@);
        let n: usize = tcs.len();
        for i in 0..n
            invariant
                n == tcs@.len(),
                all == json::views(tcs@),
                m@.array_at("tool_calls"@) == Some(all),
                forall|k: int| 0 <= k < i ==> !(#[trigger] all[k]).str_is("id"@, id@),
        {
            assert(all[i as int] == tcs@[i as int]@);
            if tcs[i].str_is("id", id) {
                assert(all[i as int].str_is("id"@, id@));
                assert(m@.array_at("tool_calls"@)->0 == all);
                return true;
            }
        }
    }
    false
}

fn speaks(m: &Json) -> (r: bool)
    ensures
        r == says_something(m@),
{
    match m.str_at("content") {
        Some(s) => !s.is_empty(),
        None => false,
    }
}

fn find_first_answer(s: &Vec<Json>, id: &str) -> (r: Option<usize>)
    ensures
        match r {
            Some(k) => k < s@.len() && first_answer(json::views(s@), id@) == Some(k as int),
            None => first_answer(json::views(s@), id@) is None,
        },
{
    let ghost all = json::views(s@);
    let n: usize = s.len();
    assert(all.take(0) =~= Seq::<JsonV>::empty());
    for i in 0..n
        invariant
            n == s@.len(),
            all == json::views(s@),
            first_answer(all.take(i as int), id@) is None,
    {
        assert(all.take(i + 1).drop_last() =~= all.take(i as int));
        assert(all.take(i + 1).last() == s@[i as int]@);
        if s[i].str_is("role", "tool") && s[i].str_is("tool_call_id", id) {
            proof {
                lemma_first_answer_stays(all, i + 1, id@);
            }
            return Some(i);
        }
    }
    assert(all.take(n as int) =~= all);
    None
}

proof fn lemma_first_answer_stays(s: Seq<JsonV>, n: int, id: Seq<char>)
    requires
        0 <= n <= s.len(),
        first_answer(s.take(n), id) is Some,
    ensures
        first_answer(s, id) == first_answer(s.take(n), id),
    decreases s.len() - n,
{
    if n < s.len() {
        assert(s.take(n + 1).drop_last() =~= s.take(n));
        lemma_first_answer_stays(s, n + 1, id);
    } else {
        assert(s.take(n) =~= s);
    }
}

fn is_open_call(s: &Vec<Json>, id: &str) -> (r: bool)
    ensures
        r == open_call(json::views(s@), id@),
{
    let ghost all = json::views(s@);
    let mut i: usize = s.len();
    assert(all.take(i as int) =~= all);
    while i > 0
        invariant
            i <= s@.len(),
            all == json::views(s@),
            open_call(all, id@) == open_call(all.take(i as int), id@),
        decreases i,
    {
        i = i - 1;
        assert(all.take(i + 1).drop_last() =~= all.take(i as int));
        assert(all.take(i + 1).last() == s@[i as int]@);
        let role = s[i].str_or("role", "");
        if same(role, "assistant") {
            return calls_tool(&s[i], id);
        }
        if !same(role, "tool") {
            return false;
        }
    }
    false
}

fn find_caller(s: &Vec<Json>, id: &str) -> (r: Option<usize>)
    ensures
        match r {
            Some(k) => k < s@.len() && caller(json::views(s@), id@) == Some(k as int),
            None => caller(json::views(s@), id@) is None,
        },
{
    let ghost all = json::views(s@);
    let mut i: usize = s.len();
    assert(all.take(i as int) =~= all);
    while i > 0
        invariant
            i <= s@.len(),
            all == json::views(s@),
            caller(all, id@) == caller(all.take(i as int), id@),
        decreases i,
    {
        i = i - 1;
        assert(all.take(i + 1).drop_last() =~= all.take(i as int));
        assert(all.take(i + 1).last() == s@[i as int]@);
        let role = s[i].str_or("role", "");
        if same(role, "assistant") {
            if calls_tool(&s[i], id) {
                return Some(i);
            }
        } else if !same(role, "tool") {
            return None;
        }
    }
    None
}

fn find_after_tools(s: &Vec<Json>, from: usize) -> (r: usize)
    requires
        from <= s@.len(),
    ensures
        r == after_tools(json::views(s@), from as int),
        r <= s@.len(),
{
    let ghost all = json::views(s@);
    let mut i: usize = from;
    while i < s.len() && same(s[i].str_or("role", ""), "tool")
        invariant
            i <= s@.len(),
            all == json::views(s@),
            after_tools(all, from as int) == after_tools(all, i as int),
        decreases s@.len() - i,
    {
        assert(all[i as int] == s@[i as int]@);
        i = i + 1;
    }
    if i < s.len() {
        assert(all[i as int] == s@[i as int]@);
    }
    i
}

/// The results that an id gets where it has none.
fn empty_results(placed: &Vec<String>, ids: &Vec<String>) -> (r: Vec<Json>)
    ensures
        json::views(r@) == seqs::flat(
            text::texts(ids@),
            empty_result_fn(text::texts(placed@).to_set()),
        ),
{
    broadcast use json::group_json;

    let ghost all = text::texts(ids@);
    let ghost f = empty_result_fn(text::texts(placed@).to_set());
    let n: usize = ids.len();
    let mut out: Vec<Json> = Vec::new();
    proof {
        seqs::lemma_flat_all(all, f);
        assert(json::views(out@) =~= Seq::<JsonV>::empty());
    }
    for i in 0..n
        invariant
            n == ids@.len(),
            all == text::texts(ids@),
            f == empty_result_fn(text::texts(placed@).to_set()),
            json::views(out@) == seqs::flat(all.take(i as int), f),
    {
        let ghost done = json::views(out@);
        let known = has(placed, ids[i].as_str());
        if !known {
            out.push(tool_message(ids[i].as_str(), ""));
        }
        proof {
            seqs::lemma_flat_step(all, i as int, f);
            assert(json::views(out@) =~= done + f(all[i as int]));
        }
    }
    proof {
        seqs::lemma_flat_all(all, f);
    }
    out
}

/// The ids of the calls of the last message, where it is an assistant's.
fn ids_of_last_calls(s: &Vec<Json>) -> (r: Vec<String>)
    ensures
        text::texts(r@) == codex_chat::call_ids(last_calls(json::views(s@))),
{
    let mut out: Vec<String> = Vec::new();
    let n: usize = s.len();
    if n > 0 {
        let last = &s[n - 1];
        assert(json::views(s@).last() == last@);
        if same(last.str_or("role", ""), "assistant") {
            if let Some(tcs) = last.array_at("tool_calls") {
                return ids_of_calls(tcs);
            }
        }
    }
    assert(text::texts(out@) =~= codex_chat::call_ids(last_calls(json::views(s@))));
    out
}

impl ChatOrder {
    /// The state at the start.
    pub fn new() -> (r: ChatOrder)
        ensures
            r@ == Order::start(),
    {
        let r = ChatOrder { fixed: Vec::new(), placed: Vec::new() };
        assert(r@ =~= Order::start());
        r
    }

    /// Takes a message to its end.
    fn push(&mut self, m: &Json)
        ensures
            final(self)@ == old(self)@.push(m@),
    {
        broadcast use json::group_json;

        self.fixed.push(m.clone());
        assert(self@ =~= old(self)@.push(m@));
    }

    /// Notes that a call has its result.
    fn place(&mut self, id: &str)
        ensures
            final(self)@ == (Order { placed: old(self)@.placed.insert(id@), ..old(self)@ }),
    {
        let ghost before = text::texts(self.placed@);
        self.placed.push(id.to_owned());
        proof {
            let after = text::texts(self.placed@);
            assert(after =~= before.push(id@));
            assert(after.to_set() =~= before.to_set().insert(id@)) by {
                assert(after[after.len() - 1] == id@);
                assert forall|x: Seq<char>| before.contains(x) implies after.contains(x) by {
                    let k = choose|k: int| 0 <= k < before.len() && before[k] == x;
                    assert(after[k] == x);
                }
            }
        }
    }

    /// Takes in a second result for a call.
    fn again(&mut self, m: &Json, id: &str)
        ensures
            final(self)@ == old(self)@.again(m@, id@),
    {
        if let Some(k) = find_first_answer(&self.fixed, id) {
            if let Some(c) = m.get("content") {
                assert(self@.fixed[k as int] == self.fixed@[k as int]@);
                if !speaks(&self.fixed[k]) {
                    let v = self.fixed[k].clone().put("content", c.clone());
                    self.fixed.set(k, v);
                    assert(self@.fixed =~= old(self)@.fixed.update(k as int, v@));
                }
            }
        }
        assert(self@ =~= old(self)@.again(m@, id@));
    }

    /// Takes in a tool's message.
    fn tool(&mut self, m: &Json)
        ensures
            final(self)@ == old(self)@.tool(m@),
    {
        match m.str_at("tool_call_id") {
            None => self.push(m),
            Some(id) => {
                if has(&self.placed, id) {
                    self.again(m, id);
                } else if is_open_call(&self.fixed, id) {
                    self.push(m);
                    self.place(id);
                } else if let Some(k) = find_caller(&self.fixed, id) {
                    assert(k < self.fixed.len());
                    let at: usize = find_after_tools(&self.fixed, k + 1);
                    let ghost before = self@;
                    let copy = m.clone();
                    self.fixed.insert(at, copy);
                    assert(self@.fixed =~= before.fixed.insert(at as int, m@));
                    self.place(id);
                }
            },
        }
        assert(self@ =~= old(self)@.tool(m@));
    }

    /// Adds empty results for the calls at the end that have none.
    fn fill(&mut self)
        ensures
            final(self)@ == old(self)@.filled(),
    {
        broadcast use json::group_json;

        let mut ids = ids_of_last_calls(&self.fixed);
        let mut more = empty_results(&self.placed, &ids);
        let ghost before = text::texts(self.placed@);
        let ghost new = text::texts(ids@);
        self.fixed.append(&mut more);
        self.placed.append(&mut ids);
        proof {
            let after = text::texts(self.placed@);
            assert(after =~= before + new);
            assert(after.to_set() =~= before.to_set().union(new.to_set())) by {
                assert forall|x: Seq<char>| before.contains(x) || new.contains(x) implies after.contains(
                    x,
                ) by {
                    if before.contains(x) {
                        let k = choose|k: int| 0 <= k < before.len() && before[k] == x;
                        assert(after[k] == x);
                    } else {
                        let k = choose|k: int| 0 <= k < new.len() && new[k] == x;
                        assert(after[before.len() + k] == x);
                    }
                }
            }
            assert(self@ =~= old(self)@.filled());
        }
    }

    /// Takes in a message that is not a tool's.
    fn other(&mut self, m: &Json)
        ensures
            final(self)@ == old(self)@.other(m@),
    {
        self.fill();
        let n: usize = self.fixed.len();
        if n > 0 && same(m.str_or("role", ""), "assistant") && !speaks(m) && m.get(
            "tool_calls",
        ).is_none() && m.get("reasoning_content").is_none() {
            assert(self@.fixed.last() == self.fixed@[n - 1]@);
            if same(self.fixed[n - 1].str_or("role", ""), "assistant") {
                return;
            }
        }
        self.push(m);
    }

    /// Takes in a message.
    pub fn step(&mut self, m: &Json)
        ensures
            final(self)@ == old(self)@.step(m@),
    {
        if same(m.str_or("role", ""), "tool") {
            self.tool(m);
        } else {
            self.other(m);
        }
    }

    /// The messages, with no bare assistant at their end and with results for the last
    /// calls.
    pub fn close(self) -> (r: Vec<Json>)
        ensures
            json::views(r@) == closed_order(self@),
    {
        broadcast use json::group_json;

        let placed = self.placed;
        let mut fixed = self.fixed;
        while fixed.len() > 0 && is_bare(&fixed[fixed.len() - 1])
            invariant
                trimmed(json::views(fixed@)) == trimmed(self@.fixed),
            decreases fixed@.len(),
        {
            let ghost before = json::views(fixed@);
            assert(before.last() == fixed@[fixed@.len() - 1]@);
            let _ = fixed.pop();
            assert(json::views(fixed@) =~= before.drop_last());
        }
        proof {
            if fixed@.len() > 0 {
                assert(json::views(fixed@).last() == fixed@[fixed@.len() - 1]@);
            }
            assert(json::views(fixed@) == trimmed(self@.fixed));
        }
        let ids = ids_of_last_calls(&fixed);
        let mut more = empty_results(&placed, &ids);
        fixed.append(&mut more);
        fixed
    }
}

fn is_bare(m: &Json) -> (r: bool)
    ensures
        r == is_bare_assistant(m@),
{
    same(m.str_or("role", ""), "assistant") && match m.array_at("tool_calls") {
        Some(tcs) => tcs.is_empty(),
        None => true,
    }
}

/// Puts messages in the order that strict providers ask for.
pub fn codex_fix_chat_message_ordering(messages: &Vec<Json>) -> (r: Vec<Json>)
    ensures
        json::views(r@) == ordered_chat(json::views(messages@)),
{
    let ghost all = json::views(messages@);
    let mut order = ChatOrder::new();
    let n: usize = messages.len();
    assert(all.take(0) =~= Seq::<JsonV>::empty());
    for i in 0..n
        invariant
            n == messages@.len(),
            all == json::views(messages@),
            order@ == Order::start().steps(all.take(i as int)),
    {
        assert(all.take(i + 1).drop_last() =~= all.take(i as int));
        assert(all.take(i + 1).last() == messages@[i as int]@);
        order.step(&messages[i]);
    }
    assert(all.take(n as int) =~= all);
    let mut fixed = order.close();
    let ghost s = json::views(fixed@);
    let m: usize = fixed.len();
    for i in 0..m
        invariant
            m == fixed@.len(),
            s == json::views(fixed@),
            s == closed_order(Order::start().steps(all)),
            all == json::views(messages@),
            forall|k: int| 0 <= k < i ==> !is_user_or_tool(#[trigger] s[k]),
    {
        assert(s[i as int] == fixed@[i as int]@);
        let role = fixed[i].str_or("role", "");
        if same(role, "user") || same(role, "tool") {
            assert(has_user_or_tool(s));
            return fixed;
        }
    }
    let first = message("user", Json::str("Continue."));
    fixed.insert(0, first);
    assert(json::views(fixed@) =~= s.insert(0, first@));
    fixed
}

/// In the order that strict providers ask for, a user or a tool speaks.
pub proof fn lemma_ordered_chat_has_user_or_tool(msgs: Seq<JsonV>)
    ensures
        has_user_or_tool(ordered_chat(msgs)),
{
    let s = closed_order(Order::start().steps(msgs));
    if !has_user_or_tool(s) {
        let m = parts::message_v("user"@, JsonV::Str("Continue."@));
        parts::lemma_message("user"@, JsonV::Str("Continue."@));
        assert(ordered_chat(msgs)[0] == m);
    }
}

pub(crate) proof fn lemma_trimmed(s: Seq<JsonV>)
    ensures
        trimmed(s).len() > 0 ==> !is_bare_assistant(trimmed(s).last()),
    decreases s.len(),
{
    if s.len() > 0 && is_bare_assistant(s.last()) {
        lemma_trimmed(s.drop_last());
    }
}

pub(crate) proof fn lemma_empty_results(ids: Seq<Seq<char>>, placed: Set<Seq<char>>)
    ensures
        ({
            let t = seqs::flat(ids, empty_result_fn(placed));
            t.len() > 0 ==> role_of(t.last()) == "tool"@
        }),
    decreases ids.len(),
{
    if ids.len() > 0 {
        lemma_empty_results(ids.drop_last(), placed);
        codex_chat::lemma_tool_message(ids.last(), ""@);
    }
}

/// In the order that strict providers ask for, there is a last message, and it is not an
/// assistant's without tool calls.
pub proof fn lemma_ordered_chat_end(msgs: Seq<JsonV>)
    ensures
        ordered_chat(msgs).len() > 0,
        !is_bare_assistant(ordered_chat(msgs).last()),
{
    let o = Order::start().steps(msgs);
    let s = trimmed(o.fixed);
    lemma_trimmed(o.fixed);
    lemma_empty_results(codex_chat::call_ids(last_calls(s)), o.placed);
    parts::lemma_message("user"@, JsonV::Str("Continue."@));
    keys::lemma_message_names();
}

} // verus!
