//! The model in a stream that goes back in the provider's own format.

use vstd::prelude::*;

use crate::convert::streaming::sse;
use crate::convert::streaming::sse::{exact_data_in, to_data_text, LineBuffer};
use crate::json::{self, Json, JsonV};
use crate::text;
use crate::text::{concat2, concat3, from_utf8_lossy, same, trim};
use vstd::string::StrSliceExecFns;

verus! {

/// An event whose message names the model of the request: always at the start of a
/// message, else where it named one.
pub open spec fn with_request_model(e: JsonV, model: Seq<char>) -> JsonV {
    match e.get("message"@) {
        Some(m) => if m is Obj && (e.str_is("type"@, "message_start"@) || m.get("model"@) is Some) {
            e.put("message"@, m.put("model"@, JsonV::Str(model)))
        } else {
            e
        },
        None => e,
    }
}

fn set_request_model(e: Json, model: &str) -> (r: Json)
    ensures
        r@ == with_request_model(e@, model@),
{
    let message: Option<Json> = match e.get("message") {
        Some(m) => {
            if m.is_object() && (e.str_is("type", "message_start") || m.get("model").is_some()) {
                Some(m.clone().put("model", Json::str(model)))
            } else {
                None
            }
        },
        None => None,
    };
    match message {
        Some(m) => e.put("message", m),
        None => e,
    }
}

/// What a line of a stream becomes.
pub open spec fn replaced_line(line: Seq<char>, model: Seq<char>) -> Seq<char> {
    let t = text::trimmed(line);
    if t.len() == 0 {
        "\n"@
    } else {
        match sse::exact_data_of(t) {
            None => line + "\n"@,
            Some(d) => if d == "[DONE]"@ {
                "data: [DONE]\n\n"@
            } else {
                match json::wire::json_of_text(d) {
                    None => "data: "@ + d + "\n\n"@,
                    Some(e) => sse::data_text(with_request_model(e, model)),
                }
            },
        }
    }
}

pub open spec fn replaced_line_fn(model: Seq<char>) -> spec_fn(Seq<char>) -> Seq<char> {
    |line: Seq<char>| replaced_line(line, model)
}

fn replace_line(line: &str, model: &str) -> (r: String)
    ensures
        r@ == replaced_line(line@, model@),
{
    let t = trim(line);
    if same(t, "") {
        proof {
            reveal_strlit("");
        }
        return "\n".to_owned();
    }
    proof {
        reveal_strlit("");
        assert(t@.len() == 0 ==> t@ =~= ""@);
    }
    match exact_data_in(t) {
        None => concat2(line, "\n"),
        Some(d) => {
            if same(d, "[DONE]") {
                "data: [DONE]\n\n".to_owned()
            } else {
                match Json::parse(d) {
                    None => concat3("data: ", d, "\n\n"),
                    Some(e) => to_data_text(&set_request_model(e, model)),
                }
            }
        },
    }
}

/// A stream of Anthropic events in which the model of the request stands for the
/// provider's.
pub struct ModelStream {
    model: String,
    buffer: LineBuffer,
}

/// Such a stream: the model of the request, and the line that is not complete.
#[verifier::ext_equal]
pub struct ModelStreamV {
    pub model: Seq<char>,
    pub rest: Seq<char>,
}

impl View for ModelStream {
    type V = ModelStreamV;

    closed spec fn view(&self) -> ModelStreamV {
        ModelStreamV { model: self.model@, rest: self.buffer@ }
    }
}

/// What a text of a stream becomes after what was left before it.
pub open spec fn replaced(s: ModelStreamV, t: Seq<char>) -> Seq<Seq<char>> {
    sse::cut(s.rest, t).lines.map_values(replaced_line_fn(s.model))
}

/// The stream after a text.
pub open spec fn replaced_rest(s: ModelStreamV, t: Seq<char>) -> ModelStreamV {
    ModelStreamV { rest: sse::cut(s.rest, t).rest, ..s }
}

impl ModelStream {
    /// The stream at its start.
    pub fn new(request_model: &str) -> (r: ModelStream)
        ensures
            r@ == (ModelStreamV { model: request_model@, rest: Seq::empty() }),
    {
        ModelStream { model: request_model.to_owned(), buffer: LineBuffer::new() }
    }

    /// Takes in a piece of the stream and gives out what the lines that it completes become.
    pub fn feed(&mut self, chunk: &[u8]) -> (r: Vec<String>)
        ensures
            text::texts(r@) == replaced(old(self)@, text::bytes_text(chunk@)),
            final(self)@ == replaced_rest(old(self)@, text::bytes_text(chunk@)),
    {
        broadcast use text::lemma_texts_push;

        let lines = self.buffer.push_bytes(chunk);
        let ghost all = text::texts(lines@);
        let ghost f = replaced_line_fn(self.model@);
        let mut out: Vec<String> = Vec::new();
        let n: usize = lines.len();
        assert(text::texts(out@) =~= all.take(0).map_values(f));
        for i in 0..n
            invariant
                n == lines@.len(),
                all == text::texts(lines@),
                f == replaced_line_fn(self.model@),
                text::texts(out@) == all.take(i as int).map_values(f),
        {
            let line = replace_line(lines[i].as_str(), self.model.as_str());
            assert(all.take(i + 1).map_values(f) =~= all.take(i as int).map_values(f).push(line@));
            out.push(line);
        }
        assert(all.take(n as int) =~= all);
        out
    }
}

/// However a stream comes in pieces, what comes out is the same.
pub proof fn lemma_replaced_add(s: ModelStreamV, a: Seq<char>, b: Seq<char>)
    ensures
        replaced(s, a + b) == replaced(s, a) + replaced(replaced_rest(s, a), b),
        replaced_rest(s, a + b) == replaced_rest(replaced_rest(s, a), b),
{
    sse::lemma_cut_add(s.rest, a, b);
    assert(replaced(s, a + b) =~= replaced(s, a) + replaced(replaced_rest(s, a), b));
}

/// Where the message of an event names a model, or is at its start, it names the model of
/// the request; the rest of the event stays.
pub proof fn lemma_request_model(e: JsonV, model: Seq<char>)
    ensures
        match e.get("message"@) {
            Some(m) => m is Obj && (e.str_is("type"@, "message_start"@) || m.get("model"@) is Some)
                ==> with_request_model(e, model).get("message"@) == Some(
                m.put("model"@, JsonV::Str(model)),
            ) && m.put("model"@, JsonV::Str(model)).str_at("model"@) == Some(model),
            None => with_request_model(e, model) == e,
        },
        forall|k: Seq<char>|
            k != "message"@ ==> #[trigger] with_request_model(e, model).get(k) == e.get(k),
{
}

/// A value that names the model of the request, where it names one.
pub open spec fn renamed(v: JsonV, model: Seq<char>) -> JsonV {
    if v.get("model"@) is Some {
        v.put("model"@, JsonV::Str(model))
    } else {
        v
    }
}

/// A value in which the one under a key names the model of the request, where it names one.
pub open spec fn renamed_at(v: JsonV, key: Seq<char>, model: Seq<char>) -> JsonV {
    match v.get(key) {
        Some(inner) => v.put(key, renamed(inner, model)),
        None => v,
    }
}

/// An event of any format that names the model of the request, where it names one: on top,
/// in its message, or in its response.
pub open spec fn with_alias(e: JsonV, model: Seq<char>) -> JsonV {
    renamed_at(renamed_at(renamed(e, model), "message"@, model), "response"@, model)
}

/// Whether the value under a key names a model.
pub open spec fn names_model_at(v: JsonV, key: Seq<char>) -> bool {
    match v.get(key) {
        Some(inner) => inner.get("model"@) is Some,
        None => false,
    }
}

/// Whether an event of any format names a model.
pub open spec fn names_model(e: JsonV) -> bool {
    e.get("model"@) is Some || names_model_at(e, "message"@) || names_model_at(e, "response"@)
}

fn rename(v: Json, model: &str) -> (r: Json)
    ensures
        r@ == renamed(v@, model@),
{
    if v.get("model").is_some() {
        v.put("model", Json::str(model))
    } else {
        v
    }
}

fn rename_at(v: Json, key: &str, model: &str) -> (r: Json)
    ensures
        r@ == renamed_at(v@, key@, model@),
{
    let inner: Option<Json> = match v.get(key) {
        Some(inner) => Some(rename(inner.clone(), model)),
        None => None,
    };
    match inner {
        Some(inner) => v.put(key, inner),
        None => v,
    }
}

fn has_model_at(v: &Json, key: &str) -> (r: bool)
    ensures
        r == names_model_at(v@, key@),
{
    match v.get(key) {
        Some(inner) => inner.get("model").is_some(),
        None => false,
    }
}

/// The event of a line of any format that names a model.
pub open spec fn model_event(line: Seq<char>) -> Option<JsonV> {
    match sse::exact_data_of(text::trimmed(line)) {
        Some(d) => match json::wire::json_of_text(d) {
            Some(e) => if names_model(e) {
                Some(e)
            } else {
                None
            },
            None => None,
        },
        None => None,
    }
}

fn find_model_event(line: &str) -> (r: Option<Json>)
    ensures
        json::wire::opt_json(r) == model_event(line@),
{
    match exact_data_in(trim(line)) {
        Some(d) => match Json::parse(d) {
            Some(e) => {
                if e.get("model").is_some() || has_model_at(&e, "message") || has_model_at(
                    &e,
                    "response",
                ) {
                    Some(e)
                } else {
                    None
                }
            },
            None => None,
        },
        None => None,
    }
}

/// What a line becomes, without its end: the line itself, byte for byte, unless it is an
/// event that names a model.
pub open spec fn passed_line(line: Seq<u8>, model: Seq<char>) -> Seq<u8> {
    match model_event(text::utf8_lossy(line)) {
        Some(e) => vstd::utf8::encode_utf8(
            "data: "@ + json::wire::json_text(with_alias(e, model)),
        ),
        None => line,
    }
}

fn pass_line(line: &Vec<u8>, model: &str) -> (r: Vec<u8>)
    ensures
        r@ == passed_line(line@, model@),
{
    let t = from_utf8_lossy(line.as_slice());
    match find_model_event(t.as_str()) {
        Some(e) => {
            let renamed_event = rename_at(
                rename_at(rename(e, model), "message", model),
                "response",
                model,
            );
            concat2("data: ", renamed_event.to_text().as_str()).as_str().as_bytes_vec()
        },
        None => line.clone(),
    }
}

/// A stream of the provider's own format on its way back: the model of the request, the
/// line that is not complete, and what came out.
#[verifier::ext_equal]
pub struct PassStreamV {
    pub model: Seq<char>,
    pub rest: Seq<u8>,
    pub out: Seq<u8>,
}

/// The stream after a byte.
pub open spec fn pass_byte(s: PassStreamV, b: u8) -> PassStreamV {
    if b == 10u8 {
        PassStreamV {
            rest: Seq::empty(),
            out: s.out + passed_line(s.rest, s.model).push(10u8),
            ..s
        }
    } else {
        PassStreamV { rest: s.rest.push(b), ..s }
    }
}

/// The stream after bytes.
pub open spec fn pass_bytes(s: PassStreamV, bytes: Seq<u8>) -> PassStreamV
    decreases bytes.len(),
{
    if bytes.len() == 0 {
        s
    } else {
        pass_byte(pass_bytes(s, bytes.drop_last()), bytes.last())
    }
}

/// A stream of the provider's own format on its way back.
pub struct PassStream {
    model: String,
    rest: Vec<u8>,
}

impl PassStream {
    /// The stream in the middle, with nothing come out since.
    pub closed spec fn state(&self) -> PassStreamV {
        PassStreamV { model: self.model@, rest: self.rest@, out: Seq::empty() }
    }

    /// The stream at its start.
    pub fn new(request_model: &str) -> (r: PassStream)
        ensures
            r.state() == (PassStreamV {
                model: request_model@,
                rest: Seq::empty(),
                out: Seq::empty(),
            }),
    {
        PassStream { model: request_model.to_owned(), rest: Vec::new() }
    }

    /// Takes in a piece of the stream and gives out what the lines that it completes become.
    pub fn feed(&mut self, chunk: &[u8]) -> (r: Vec<u8>)
        ensures
            r@ == pass_bytes(old(self).state(), chunk@).out,
            final(self).state() == (PassStreamV {
                out: Seq::empty(),
                ..pass_bytes(old(self).state(), chunk@)
            }),
    {
        let ghost start = self.state();
        let mut out: Vec<u8> = Vec::new();
        let n: usize = chunk.len();
        assert(chunk@.take(0) =~= Seq::<u8>::empty());
        for i in 0..n
            invariant
                n == chunk@.len(),
                (PassStreamV { out: out@, ..self.state() }) == pass_bytes(
                    start,
                    chunk@.take(i as int),
                ),
        {
            let b: u8 = chunk[i];
            assert(chunk@.take(i + 1).drop_last() =~= chunk@.take(i as int));
            if b == 10 {
                let mut line = pass_line(&self.rest, self.model.as_str());
                line.push(10u8);
                out.append(&mut line);
                self.rest = Vec::new();
            } else {
                self.rest.push(b);
            }
        }
        assert(chunk@.take(n as int) =~= chunk@);
        out
    }

    /// Gives out what a last line without an end becomes.
    pub fn end(&mut self) -> (r: Vec<u8>)
        ensures
            r@ == passed_line(old(self).state().rest, old(self).state().model),
            final(self).state() == (PassStreamV { rest: Seq::empty(), ..old(self).state() }),
    {
        let line = pass_line(&self.rest, self.model.as_str());
        self.rest = Vec::new();
        line
    }
}

/// However a stream comes in pieces, what comes out is the same.
pub proof fn lemma_pass_add(s: PassStreamV, a: Seq<u8>, b: Seq<u8>)
    ensures
        pass_bytes(s, a + b) == pass_bytes(pass_bytes(s, a), b),
    decreases b.len(),
{
    if b.len() == 0 {
        assert(a + b =~= a);
    } else {
        lemma_pass_add(s, a, b.drop_last());
        assert((a + b).drop_last() =~= a + b.drop_last());
    }
}

/// Wherever an event of any format named a model, it names the model of the request.
pub proof fn lemma_alias(e: JsonV, model: Seq<char>)
    ensures
        e.get("model"@) is Some ==> with_alias(e, model).str_at("model"@) == Some(model),
        names_model_at(e, "message"@) ==> with_alias(e, model).get_or_null("message"@).str_at(
            "model"@,
        ) == Some(model),
        names_model_at(e, "response"@) ==> with_alias(e, model).get_or_null("response"@).str_at(
            "model"@,
        ) == Some(model),
{
    reveal_strlit("model");
    reveal_strlit("message");
    reveal_strlit("response");
    assert("model"@.len() == 5 && "message"@.len() == 7 && "response"@.len() == 8);
}

/// Giving an event the model of the request changes nothing but models.
pub proof fn lemma_alias_keeps(e: JsonV, model: Seq<char>)
    ensures
        ({
            let out = with_alias(e, model);
            &&& forall|k: Seq<char>|
                k != "model"@ && k != "message"@ && k != "response"@ ==> #[trigger] out.get(k)
                    == e.get(k)
            &&& forall|k: Seq<char>|
                k != "model"@ ==> #[trigger] out.get_or_null("message"@).get(k) == e.get_or_null(
                    "message"@,
                ).get(k)
            &&& forall|k: Seq<char>|
                k != "model"@ ==> #[trigger] out.get_or_null("response"@).get(k) == e.get_or_null(
                    "response"@,
                ).get(k)
        }),
{
    reveal_strlit("model");
    reveal_strlit("message");
    reveal_strlit("response");
    assert("model"@.len() == 5 && "message"@.len() == 7 && "response"@.len() == 8);
}

/// Whether no line of bytes after a rest names a model.
pub open spec fn names_none(rest: Seq<u8>, bytes: Seq<u8>) -> bool
    decreases bytes.len(),
{
    bytes.len() == 0 || (names_none(rest, bytes.drop_last()) && (bytes.last() == 10u8
        ==> model_event(text::utf8_lossy(open_line(rest, bytes.drop_last()))) is None))
}

/// The line that bytes after a rest leave open.
pub open spec fn open_line(rest: Seq<u8>, bytes: Seq<u8>) -> Seq<u8>
    decreases bytes.len(),
{
    if bytes.len() == 0 {
        rest
    } else if bytes.last() == 10u8 {
        Seq::empty()
    } else {
        open_line(rest, bytes.drop_last()).push(bytes.last())
    }
}

/// A stream in which no line names a model passes byte for byte.
pub proof fn lemma_pass_unchanged(s: PassStreamV, bytes: Seq<u8>)
    requires
        names_none(s.rest, bytes),
    ensures
        ({
            let t = pass_bytes(s, bytes);
            &&& t.out + t.rest == s.out + s.rest + bytes
            &&& t.rest == open_line(s.rest, bytes)
        }),
    decreases bytes.len(),
{
    if bytes.len() == 0 {
        assert(s.out + s.rest + bytes =~= s.out + s.rest);
    } else {
        let first = bytes.drop_last();
        lemma_pass_model(s, first);
        lemma_pass_unchanged(s, first);
        let u = pass_bytes(s, first);
        let t = pass_bytes(s, bytes);
        assert(bytes =~= first.push(bytes.last()));
        assert(t.out + t.rest =~= (u.out + u.rest).push(bytes.last()));
        assert((s.out + s.rest + first).push(bytes.last()) =~= s.out + s.rest + bytes);
    }
}

proof fn lemma_pass_model(s: PassStreamV, bytes: Seq<u8>)
    ensures
        pass_bytes(s, bytes).model == s.model,
    decreases bytes.len(),
{
    if bytes.len() > 0 {
        lemma_pass_model(s, bytes.drop_last());
    }
}

/// A line that names a model passes with the model of the request in its place: what follows is
/// the JSON of the event with that model.
pub proof fn lemma_pass_renamed(s: PassStreamV, e: JsonV)
    requires
        model_event(text::utf8_lossy(s.rest)) == Some(e),
    ensures
        pass_byte(s, 10u8).out == s.out + vstd::utf8::encode_utf8(
            "data: "@ + json::wire::json_text(with_alias(e, s.model)),
        ).push(10u8),
{
}

/// Lines that carry no data go on as they are.
pub proof fn lemma_other_lines(line: Seq<char>, model: Seq<char>)
    requires
        text::trimmed(line).len() > 0,
        sse::exact_data_of(text::trimmed(line)) is None,
    ensures
        replaced_line(line, model) == line + "\n"@,
{
}

} // verus!
