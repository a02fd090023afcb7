//! JSON as text: reading and writing it with `serde_json`.

use vstd::prelude::*;

use super::{Json, JsonV, NumberV, Object};

verus! {

/// `serde_json::Value`: a JSON value as `serde_json` holds it.
#[verifier::external_type_specification]
#[verifier::external_body]
pub struct ExValue(serde_json::Value);

/// What a `serde_json::Value` holds.
pub uninterp spec fn value_json(v: serde_json::Value) -> JsonV;

/// What `serde_json::to_string` writes for a value: its compact JSON text.
pub uninterp spec fn json_text(v: JsonV) -> Seq<char>;

/// What `serde_json::from_str` reads from a text: the value, or nothing where the
/// text is not JSON.
pub uninterp spec fn json_of_text(s: Seq<char>) -> Option<JsonV>;

/// What `serde_json::from_slice` reads from bytes: the value, or the text of the error.
pub uninterp spec fn json_of_bytes(b: Seq<u8>) -> Result<JsonV, Seq<char>>;

/// One level of a `serde_json::Value`.
enum Node {
    Null,
    Bool(bool),
    Num(serde_json::Number),
    Str(String),
    Arr(Vec<serde_json::Value>),
    Obj(Vec<(String, serde_json::Value)>),
}

/// The map of the entries of an object.
spec fn pairs_view(s: Seq<(String, serde_json::Value)>) -> Map<Seq<char>, JsonV>
    decreases s.len(),
{
    if s.len() == 0 {
        Map::empty()
    } else {
        pairs_view(s.drop_last()).insert(s.last().0@, value_json(s.last().1))
    }
}

/// What one level of a value holds.
spec fn node_view(n: Node) -> JsonV {
    match n {
        Node::Null => JsonV::Null,
        Node::Bool(b) => JsonV::Bool(b),
        Node::Num(n) => JsonV::Num(super::number_view(n)),
        Node::Str(s) => JsonV::Str(s@),
        Node::Arr(a) => JsonV::Arr(Seq::new(a@.len(), |i: int| value_json(a@[i]))),
        Node::Obj(e) => JsonV::Obj(pairs_view(e@)),
    }
}

/// The variants of `serde_json::Value`, each made of the matching [`Node`]. An object
/// collects its entries, of which no two have the same key.
#[verifier::external_body]
fn build(n: Node) -> (r: serde_json::Value)
    requires
        n matches Node::Obj(e) ==> forall|i: int, j: int|
            0 <= i < j < e@.len() ==> #[trigger] e@[i].0@ != #[trigger] e@[j].0@,
    ensures
        value_json(r) == node_view(n),
{
    match n {
        Node::Null => serde_json::Value::Null,
        Node::Bool(b) => serde_json::Value::Bool(b),
        Node::Num(n) => serde_json::Value::Number(n),
        Node::Str(s) => serde_json::Value::String(s),
        Node::Arr(a) => serde_json::Value::Array(a),
        Node::Obj(e) => serde_json::Value::Object(e.into_iter().collect()),
    }
}

/// The variants of `serde_json::Value`, each told apart into the matching [`Node`].
/// `serde_json::Map` holds no key twice.
#[verifier::external_body]
fn open_value(v: serde_json::Value) -> (r: Node)
    ensures
        node_view(r) == value_json(v),
        r matches Node::Obj(e) ==> forall|i: int, j: int|
            0 <= i < j < e@.len() ==> #[trigger] e@[i].0@ != #[trigger] e@[j].0@,
{
    match v {
        serde_json::Value::Null => Node::Null,
        serde_json::Value::Bool(b) => Node::Bool(b),
        serde_json::Value::Number(n) => Node::Num(n),
        serde_json::Value::String(s) => Node::Str(s),
        serde_json::Value::Array(a) => Node::Arr(a),
        serde_json::Value::Object(m) => Node::Obj(m.into_iter().collect()),
    }
}

/// `serde_json::to_string` of a value: the text under its name, which depends on what
/// the value holds and on nothing else.
#[verifier::external_body]
fn value_to_string(v: &serde_json::Value) -> (r: String)
    ensures
        r@ == json_text(value_json(*v)),
{
    serde_json::to_string(v).unwrap_or_default()
}

/// Whether a value is one that JSON text holds exactly: its numbers are integers, its objects
/// are finite and none has the key that `serde_json` keeps for itself, and arrays and objects
/// nest at most so deep.
pub open spec fn is_plain(v: JsonV, depth: nat) -> bool
    decreases v,
{
    match v {
        JsonV::Num(NumberV::Other(n)) => super::number_u64(n) is None && super::number_i64(
            n,
        ) is Some,
        JsonV::Arr(a) => depth > 0 && forall|i: int|
            0 <= i < a.len() ==> is_plain(#[trigger] a[i], (depth - 1) as nat),
        JsonV::Obj(m) => depth > 0 && m.dom().finite() && !m.contains_key(
            "$serde_json::private::RawValue"@,
        ) && forall|k: Seq<char>|
            m.contains_key(k) ==> is_plain(#[trigger] m[k], (depth - 1) as nat),
        _ => true,
    }
}

/// Whether a value is read back as it was written.
pub open spec fn reads_back(v: JsonV) -> bool {
    json_of_text(json_text(v)) == Some(v)
}

/// `serde_json::from_str` into a value: what it reads, or nothing, under its name. From the
/// text that `to_string` writes of a value it reads that value, where its numbers are integers
/// (a fraction may be read as its neighbour), no object has the key that marks a raw value (an
/// object that starts with it is read as what it holds), and arrays and objects nest no deeper
/// than the 127 levels that are read.
#[verifier::external_body]
fn value_from_str(s: &str) -> (r: Option<serde_json::Value>)
    ensures
        match r {
            Some(v) => json_of_text(s@) == Some(value_json(v)),
            None => json_of_text(s@) is None,
        },
        forall|v: JsonV| #[trigger]
            is_plain(v, 127) && s@ == json_text(v) ==> match r {
                Some(x) => value_json(x) == v,
                None => false,
            },
{
    serde_json::from_str(s).ok()
}

/// `serde_json::from_slice` into a value: what it reads, or the error's text, under
/// its name.
#[verifier::external_body]
fn value_from_slice(b: &[u8]) -> (r: Result<serde_json::Value, String>)
    ensures
        match r {
            Ok(v) => json_of_bytes(b@) == Ok::<JsonV, Seq<char>>(value_json(v)),
            Err(e) => json_of_bytes(b@) == Err::<JsonV, Seq<char>>(e@),
        },
{
    serde_json::from_slice(b).map_err(|e| e.to_string())
}

proof fn lemma_pairs(s: Seq<(String, serde_json::Value)>, t: Seq<(String, Json)>)
    requires
        s.len() == t.len(),
        forall|i: int| 0 <= i < s.len() ==> (#[trigger] s[i]).0@ == t[i].0@,
        forall|i: int| 0 <= i < s.len() ==> value_json((#[trigger] s[i]).1) == t[i].1@,
    ensures
        pairs_view(s) == super::entries_view(t),
    decreases s.len(),
{
    if s.len() > 0 {
        let s1 = s.drop_last();
        let t1 = t.drop_last();
        assert forall|i: int| 0 <= i < s1.len() implies (#[trigger] s1[i]).0@ == t1[i].0@ by {
            assert(s1[i] == s[i]);
        }
        assert forall|i: int| 0 <= i < s1.len() implies value_json((#[trigger] s1[i]).1)
            == t1[i].1@ by {
            assert(s1[i] == s[i]);
        }
        lemma_pairs(s1, t1);
        assert(s[s.len() - 1].0@ == t[s.len() - 1].0@);
        assert(value_json(s[s.len() - 1].1) == t[s.len() - 1].1@);
    }
}

/// The entries of an object lie below it.
proof fn lemma_pair_below(s: Seq<(String, serde_json::Value)>, i: int)
    requires
        0 <= i < s.len(),
        forall|i: int, j: int| 0 <= i < j < s.len() ==> #[trigger] s[i].0@ != #[trigger] s[j].0@,
    ensures
        pairs_view(s).contains_key(s[i].0@),
        pairs_view(s)[s[i].0@] == value_json(s[i].1),
    decreases s.len(),
{
    if i < s.len() - 1 {
        let t = s.drop_last();
        assert forall|i: int, j: int| 0 <= i < j < t.len() implies #[trigger] t[i].0@
            != #[trigger] t[j].0@ by {
            assert(t[i] == s[i] && t[j] == s[j]);
        }
        lemma_pair_below(t, i);
        assert(s[i].0@ != s[s.len() - 1].0@);
    }
}

/// The `serde_json::Value` that holds what a [`Json`] holds.
fn to_value(j: &Json) -> (r: serde_json::Value)
    ensures
        value_json(r) == j@,
    decreases j,
{
    broadcast use super::group_json;

    match j {
        Json::Null => build(Node::Null),
        Json::Bool(b) => build(Node::Bool(*b)),
        Json::Num(n) => build(Node::Num(n.clone())),
        Json::Str(s) => build(Node::Str(s.clone())),
        Json::Arr(a) => {
            let mut out: Vec<serde_json::Value> = Vec::new();
            let n: usize = a.len();
            for i in 0..n
                invariant
                    n == a@.len(),
                    j is Arr,
                    *a == j->Arr_0,
                    out@.len() == i,
                    forall|k: int| 0 <= k < i ==> value_json(#[trigger] out@[k]) == a@[k]@,
            {
                assert(decreases_to!(a@ => a@[i as int]));
                out.push(to_value(&a[i]));
            }
            let node = Node::Arr(out);
            assert(node_view(node)->Arr_0 =~= super::views(a@));
            build(node)
        },
        Json::Obj(o) => {
            let mut out: Vec<(String, serde_json::Value)> = Vec::new();
            let n: usize = o.entries.len();
            for i in 0..n
                invariant
                    n == o.entries@.len(),
                    j is Obj,
                    *o == j->Obj_0,
                    out@.len() == i,
                    forall|k: int| 0 <= k < i ==> (#[trigger] out@[k]).0@ == o.entries@[k].0@,
                    forall|k: int|
                        0 <= k < i ==> value_json((#[trigger] out@[k]).1) == o.entries@[k].1@,
            {
                out.push((o.entries[i].0.clone(), to_value(&o.entries[i].1)));
            }
            proof {
                lemma_pairs(out@, o.entries@);
                use_type_invariant(o);
                assert forall|i: int, j: int| 0 <= i < j < out@.len() implies #[trigger] out@[i].0@
                    != #[trigger] out@[j].0@ by {
                    assert(o.entries@[i].0@ != o.entries@[j].0@);
                }
            }
            build(Node::Obj(out))
        },
    }
}

/// The [`Json`] that holds what a `serde_json::Value` holds.
fn from_value(v: serde_json::Value) -> (r: Json)
    ensures
        r@ == value_json(v),
    decreases value_json(v),
{
    broadcast use super::group_json;

    match open_value(v) {
        Node::Null => Json::Null,
        Node::Bool(b) => Json::Bool(b),
        Node::Num(n) => Json::Num(n),
        Node::Str(s) => Json::Str(s),
        Node::Arr(a) => {
            let ghost s = a@;
            let mut out: Vec<Json> = Vec::new();
            for x in it: a
                invariant
                    it.seq() == s,
                    value_json(v) == node_view(Node::Arr(a)),
                    a@ == s,
                    out@.len() == it.index(),
                    forall|k: int| 0 <= k < it.index() ==> (#[trigger] out@[k])@ == value_json(s[k]),
            {
                proof {
                    let k = it.index();
                    assert(value_json(v)->Arr_0[k] == value_json(x));
                }
                out.push(from_value(x));
            }
            let r = Json::Arr(out);
            assert(r@->Arr_0 =~= value_json(v)->Arr_0);
            r
        },
        Node::Obj(e) => {
            let ghost s = e@;
            let mut out: Vec<(String, Json)> = Vec::new();
            for x in it: e
                invariant
                    it.seq() == s,
                    value_json(v) == node_view(Node::Obj(e)),
                    e@ == s,
                    forall|i: int, j: int|
                        0 <= i < j < s.len() ==> #[trigger] s[i].0@ != #[trigger] s[j].0@,
                    out@.len() == it.index(),
                    forall|k: int|
                        0 <= k < it.index() ==> s[k].0@ == (#[trigger] out@[k]).0@,
                    forall|k: int|
                        0 <= k < it.index() ==> value_json(s[k].1) == (#[trigger] out@[k]).1@,
            {
                proof {
                    lemma_pair_below(s, it.index());
                    assert(value_json(v)->Obj_0[x.0@] == value_json(x.1));
                }
                out.push((x.0, from_value(x.1)));
            }
            proof {
                assert forall|i: int| 0 <= i < s.len() implies (#[trigger] s[i]).0@ == out@[i].0@ by {
                    assert(s[i].0@ == out@[i].0@);
                }
                assert forall|i: int| 0 <= i < s.len() implies value_json((#[trigger] s[i]).1)
                    == out@[i].1@ by {
                    assert(value_json(s[i].1) == out@[i].1@);
                }
                lemma_pairs(s, out@);
                assert forall|i: int, j: int| 0 <= i < j < out@.len() implies #[trigger] out@[i].0@
                    != #[trigger] out@[j].0@ by {
                    assert(s[i].0@ != s[j].0@);
                }
            }
            Json::Obj(Object { entries: out })
        },
    }
}

impl Json {
    /// The value as compact JSON text.
    pub fn to_text(&self) -> (r: String)
        ensures
            r@ == json_text(self@),
    {
        let v = to_value(self);
        value_to_string(&v)
    }

    /// The value that a JSON text holds; none where the text is not JSON. A plain value is
    /// read back from its text.
    pub fn parse(s: &str) -> (r: Option<Json>)
        ensures
            opt_json(r) == json_of_text(s@),
            forall|v: JsonV| #[trigger] is_plain(v, 127) && s@ == json_text(v) ==> reads_back(v),
    {
        match value_from_str(s) {
            Some(v) => Some(from_value(v)),
            None => None,
        }
    }

    /// The value that JSON bytes hold, or why they are not JSON.
    pub fn parse_bytes(b: &[u8]) -> (r: Result<Json, String>)
        ensures
            match r {
                Ok(j) => json_of_bytes(b@) == Ok::<JsonV, Seq<char>>(j@),
                Err(e) => json_of_bytes(b@) == Err::<JsonV, Seq<char>>(e@),
            },
    {
        match value_from_slice(b) {
            Ok(v) => Ok(from_value(v)),
            Err(e) => Err(e),
        }
    }
}

/// The view of a value that may be missing.
pub open spec fn opt_json(o: Option<Json>) -> Option<JsonV> {
    match o {
        Some(j) => Some(j@),
        None => None,
    }
}

} // verus!
