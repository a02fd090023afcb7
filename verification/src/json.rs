//! JSON values.
//!
//! [`Json`] is what the converters read and build. In contracts it is seen as a
//! [`JsonV`], in which an object is a map from its keys to its values.

pub mod arrays;
pub mod wire;

use vstd::prelude::*;

use crate::text::same;

verus! {

/// `serde_json::Number`. It is carried as it came; all that is ever read of it is
/// the `u64` that it may be.
#[verifier::external_type_specification]
#[verifier::external_body]
pub struct ExNumber(serde_json::Number);

/// What `serde_json::Number::as_u64` returns: the number, where it is an integer
/// that `u64` can hold.
pub uninterp spec fn number_u64(n: serde_json::Number) -> Option<u64>;

/// `serde_json::Number::as_u64`, under its name.
#[verifier::external_body]
fn number_as_u64(n: &serde_json::Number) -> (r: Option<u64>)
    ensures
        r == number_u64(*n),
{
    n.as_u64()
}

/// What `serde_json::Number::as_i64` returns: the number, where it is an integer that `i64`
/// can hold.
pub uninterp spec fn number_i64(n: serde_json::Number) -> Option<i64>;

/// The `u64` as an `i64`, where it can hold it.
pub open spec fn signed(u: u64) -> Option<i64> {
    if u <= 0x7fff_ffff_ffff_ffff {
        Some(u as i64)
    } else {
        None
    }
}

/// `serde_json::Number::as_i64`, under its name. A number that is a `u64` is that number,
/// where `i64` can hold it.
#[verifier::external_body]
fn number_as_i64(n: &serde_json::Number) -> (r: Option<i64>)
    ensures
        r == number_i64(*n),
        number_u64(*n) matches Some(u) ==> r == signed(u),
{
    n.as_i64()
}

/// `serde_json::Number` made from a `u64`, which reads back as that `u64`.
#[verifier::external_body]
fn number_from_u64(n: u64) -> (r: serde_json::Number)
    ensures
        number_u64(r) == Some(n),
{
    serde_json::Number::from(n)
}

/// `Clone` of `serde_json::Number`, which is derived: the copy is the same number.
pub assume_specification[ <serde_json::Number as Clone>::clone ](
    n: &serde_json::Number,
) -> (r: serde_json::Number)
    ensures
        r == *n,
;

/// The view of a JSON number: a `u64`, or another number (negative, with a fraction,
/// out of range) of which no more is said.
pub enum NumberV {
    Unsigned(u64),
    Other(serde_json::Number),
}

pub open spec fn number_view(n: serde_json::Number) -> NumberV {
    match number_u64(n) {
        Some(u) => NumberV::Unsigned(u),
        None => NumberV::Other(n),
    }
}

/// A JSON value.
#[derive(Debug)]
pub enum Json {
    Null,
    Bool(bool),
    Num(serde_json::Number),
    Str(String),
    Arr(Vec<Json>),
    Obj(Object),
}

/// A JSON object: pairs of a key and a value, no key twice.
#[derive(Debug)]
pub struct Object {
    entries: Vec<(String, Json)>,
}

/// The mathematical view of a JSON value.
#[verifier::ext_equal]
pub enum JsonV {
    Null,
    Bool(bool),
    Num(NumberV),
    Str(Seq<char>),
    Arr(Seq<JsonV>),
    Obj(Map<Seq<char>, JsonV>),
}

/// What a value is.
pub closed spec fn json_view(j: Json) -> JsonV
    decreases j,
{
    match j {
        Json::Null => JsonV::Null,
        Json::Bool(b) => JsonV::Bool(b),
        Json::Num(n) => JsonV::Num(number_view(n)),
        Json::Str(s) => JsonV::Str(s@),
        Json::Arr(a) => JsonV::Arr(
            Seq::new(
                a@.len(),
                |i: int|
                    if 0 <= i < a@.len() {
                        json_view(a@[i])
                    } else {
                        JsonV::Null
                    },
            ),
        ),
        Json::Obj(o) => JsonV::Obj(entries_view(o.entries@)),
    }
}

/// What a list of entries is: the map with each key's value.
spec fn entries_view(s: Seq<(String, Json)>) -> Map<Seq<char>, JsonV>
    decreases s,
{
    if s.len() == 0 {
        Map::empty()
    } else {
        entries_view(s.drop_last()).insert(s.last().0@, json_view(s.last().1))
    }
}

impl View for Json {
    type V = JsonV;

    closed spec fn view(&self) -> JsonV {
        json_view(*self)
    }
}

impl View for Object {
    type V = Map<Seq<char>, JsonV>;

    closed spec fn view(&self) -> Map<Seq<char>, JsonV> {
        entries_view(self.entries@)
    }
}

/// No key occurs twice.
spec fn distinct_keys(s: Seq<(String, Json)>) -> bool {
    forall|i: int, j: int| 0 <= i < j < s.len() ==> #[trigger] s[i].0@ != #[trigger] s[j].0@
}

impl Object {
    #[verifier::type_invariant]
    spec fn inv(self) -> bool {
        distinct_keys(self.entries@)
    }
}

/// The views of the elements of an array.
pub open spec fn views(s: Seq<Json>) -> Seq<JsonV> {
    Seq::new(s.len(), |i: int| s[i]@)
}

/// The view of a value that may be missing.
pub open spec fn opt_view(o: Option<&Json>) -> Option<JsonV> {
    match o {
        Some(j) => Some(j@),
        None => None,
    }
}

/// The text of a string that may be missing.
pub open spec fn opt_str(o: Option<&str>) -> Option<Seq<char>> {
    match o {
        Some(s) => Some(s@),
        None => None,
    }
}

/// The elements of an array that may be missing.
pub open spec fn opt_views(o: Option<&Vec<Json>>) -> Option<Seq<JsonV>> {
    match o {
        Some(a) => Some(views(a@)),
        None => None,
    }
}

impl JsonV {
    /// The value under a key; none where there is no such key, or no object.
    pub open spec fn get(self, key: Seq<char>) -> Option<JsonV> {
        match self {
            JsonV::Obj(m) => if m.contains_key(key) {
                Some(m[key])
            } else {
                None
            },
            _ => None,
        }
    }

    /// The object with a key set. Null becomes an object; another value stays.
    pub open spec fn put(self, key: Seq<char>, value: JsonV) -> JsonV {
        match self {
            JsonV::Obj(m) => JsonV::Obj(m.insert(key, value)),
            JsonV::Null => JsonV::Obj(Map::empty().insert(key, value)),
            _ => self,
        }
    }

    pub open spec fn as_str(self) -> Option<Seq<char>> {
        match self {
            JsonV::Str(s) => Some(s),
            _ => None,
        }
    }

    pub open spec fn as_array(self) -> Option<Seq<JsonV>> {
        match self {
            JsonV::Arr(a) => Some(a),
            _ => None,
        }
    }

    pub open spec fn as_u64(self) -> Option<u64> {
        match self {
            JsonV::Num(NumberV::Unsigned(n)) => Some(n),
            _ => None,
        }
    }

    pub open spec fn as_i64(self) -> Option<i64> {
        match self {
            JsonV::Num(NumberV::Unsigned(u)) => signed(u),
            JsonV::Num(NumberV::Other(n)) => number_i64(n),
            _ => None,
        }
    }

    pub open spec fn as_bool(self) -> Option<bool> {
        match self {
            JsonV::Bool(b) => Some(b),
            _ => None,
        }
    }

    /// The string under a key.
    pub open spec fn str_at(self, key: Seq<char>) -> Option<Seq<char>> {
        match self.get(key) {
            Some(v) => v.as_str(),
            None => None,
        }
    }

    /// The string under a key, or another text.
    pub open spec fn str_or(self, key: Seq<char>, other: Seq<char>) -> Seq<char> {
        match self.str_at(key) {
            Some(s) => s,
            None => other,
        }
    }

    /// The array under a key.
    pub open spec fn array_at(self, key: Seq<char>) -> Option<Seq<JsonV>> {
        match self.get(key) {
            Some(v) => v.as_array(),
            None => None,
        }
    }

    /// The `u64` under a key.
    pub open spec fn u64_at(self, key: Seq<char>) -> Option<u64> {
        match self.get(key) {
            Some(v) => v.as_u64(),
            None => None,
        }
    }

    /// The `u64` under a key, or another number.
    pub open spec fn u64_or(self, key: Seq<char>, other: u64) -> u64 {
        match self.u64_at(key) {
            Some(n) => n,
            None => other,
        }
    }

    /// The value under a key, null where there is none.
    pub open spec fn get_or_null(self, key: Seq<char>) -> JsonV {
        match self.get(key) {
            Some(v) => v,
            None => JsonV::Null,
        }
    }

    /// The value under a key, an empty object where there is none.
    pub open spec fn get_or_empty(self, key: Seq<char>) -> JsonV {
        match self.get(key) {
            Some(v) => v,
            None => jobj(),
        }
    }
}

impl JsonV {
    /// The object with a key set where there is a value for it.
    pub open spec fn put_opt(self, key: Seq<char>, value: Option<JsonV>) -> JsonV {
        match value {
            Some(v) => self.put(key, v),
            None => self,
        }
    }

    /// Whether the string under a key is that text.
    pub open spec fn str_is(self, key: Seq<char>, text: Seq<char>) -> bool {
        self.str_at(key) == Some(text)
    }
}

/// The empty object.
pub open spec fn jobj() -> JsonV {
    JsonV::Obj(Map::empty())
}

/// A number.
pub open spec fn jnum(n: u64) -> JsonV {
    JsonV::Num(NumberV::Unsigned(n))
}

/// What a value is, by its kind.
pub broadcast proof fn lemma_view(j: Json)
    ensures
        #![trigger j@]
        match j {
            Json::Null => j@ == JsonV::Null,
            Json::Bool(b) => j@ == JsonV::Bool(b),
            Json::Num(n) => j@ == JsonV::Num(number_view(n)),
            Json::Str(s) => j@ == JsonV::Str(s@),
            Json::Arr(a) => j@ == JsonV::Arr(views(a@)),
            Json::Obj(o) => j@ == JsonV::Obj(o@),
        },
{
    match j {
        Json::Arr(a) => {
            assert(j@->Arr_0 =~= views(a@));
        },
        _ => {},
    }
}

/// A list of values with one more has that value's view more.
pub broadcast proof fn lemma_views_push(s: Seq<Json>, j: Json)
    ensures
        #[trigger] views(s.push(j)) == views(s).push(j@),
{
    assert(views(s.push(j)) =~= views(s).push(j@));
}

/// Two lists of values, one after the other.
pub broadcast proof fn lemma_views_add(s: Seq<Json>, t: Seq<Json>)
    ensures
        #[trigger] views(s + t) == views(s) + views(t),
{
    assert(views(s + t) =~= views(s) + views(t));
}

proof fn lemma_lookup(s: Seq<(String, Json)>, i: int)
    requires
        0 <= i < s.len(),
        forall|j: int| i < j < s.len() ==> #[trigger] s[j].0@ != s[i].0@,
    ensures
        entries_view(s).contains_key(s[i].0@),
        entries_view(s)[s[i].0@] == s[i].1@,
    decreases s.len(),
{
    if i < s.len() - 1 {
        assert(s[s.len() - 1].0@ != s[i].0@);
        assert forall|j: int| i < j < s.drop_last().len() implies #[trigger] s.drop_last()[j].0@
            != s.drop_last()[i].0@ by {
            assert(s[j].0@ != s[i].0@);
        }
        lemma_lookup(s.drop_last(), i);
    }
}

proof fn lemma_lookup_none(s: Seq<(String, Json)>, key: Seq<char>)
    requires
        forall|j: int| 0 <= j < s.len() ==> #[trigger] s[j].0@ != key,
    ensures
        !entries_view(s).contains_key(key),
    decreases s.len(),
{
    if s.len() > 0 {
        assert(s[s.len() - 1].0@ != key);
        assert forall|j: int| 0 <= j < s.drop_last().len() implies #[trigger] s.drop_last()[j].0@
            != key by {
            assert(s[j].0@ != key);
        }
        lemma_lookup_none(s.drop_last(), key);
    }
}

/// Taking out the one entry under a key takes the key out of the map.
proof fn lemma_take_out(s: Seq<(String, Json)>, i: int)
    requires
        0 <= i < s.len(),
        distinct_keys(s),
    ensures
        entries_view(s.remove(i)) == entries_view(s).remove(s[i].0@),
        forall|j: int|
            0 <= j < s.remove(i).len() ==> #[trigger] s.remove(i)[j].0@ != s[i].0@,
        distinct_keys(s.remove(i)),
    decreases s.len(),
{
    let t = s.drop_last();
    let key = s[i].0@;
    assert forall|j: int| 0 <= j < s.remove(i).len() implies #[trigger] s.remove(i)[j].0@
        != s[i].0@ by {
        if j < i {
            assert(s.remove(i)[j] == s[j]);
        } else {
            assert(s.remove(i)[j] == s[j + 1]);
        }
    }
    assert forall|j: int, k: int| 0 <= j < k < s.remove(i).len() implies #[trigger] s.remove(
        i,
    )[j].0@ != #[trigger] s.remove(i)[k].0@ by {
        assert(s.remove(i)[j] == s[if j < i { j } else { j + 1 }]);
        assert(s.remove(i)[k] == s[if k < i { k } else { k + 1 }]);
    }
    assert(distinct_keys(t)) by {
        assert forall|j: int, k: int| 0 <= j < k < t.len() implies #[trigger] t[j].0@
            != #[trigger] t[k].0@ by {
            assert(t[j] == s[j] && t[k] == s[k]);
        }
    }
    if i == s.len() - 1 {
        assert(s.remove(i) =~= t);
        assert forall|j: int| 0 <= j < t.len() implies #[trigger] t[j].0@ != key by {
            assert(s[j].0@ != s[i].0@);
        }
        lemma_lookup_none(t, key);
        assert(entries_view(s).remove(key) =~= entries_view(t));
    } else {
        lemma_take_out(t, i);
        assert(s.remove(i).drop_last() =~= t.remove(i));
        assert(s.remove(i).last() == s.last());
        assert(s[s.len() - 1].0@ != key);
        assert(entries_view(s).remove(key) =~= entries_view(t).remove(key).insert(
            s.last().0@,
            json_view(s.last().1),
        ));
    }
}

impl Object {
    /// The object without keys.
    pub fn new() -> (r: Object)
        ensures
            r@ == Map::<Seq<char>, JsonV>::empty(),
    {
        Object { entries: Vec::new() }
    }

    /// Where an entry of that key stands, the last one; past the end if there is none.
    fn position(&self, key: &str) -> (r: usize)
        ensures
            r <= self.entries@.len(),
            r < self.entries@.len() ==> self.entries@[r as int].0@ == key@ && self@.contains_key(
                key@,
            ) && self@[key@] == self.entries@[r as int].1@,
            r == self.entries@.len() ==> !self@.contains_key(key@) && forall|j: int|
                0 <= j < self.entries@.len() ==> #[trigger] self.entries@[j].0@ != key@,
    {
        let n: usize = self.entries.len();
        let mut i: usize = n;
        while i > 0
            invariant
                i <= n,
                n == self.entries@.len(),
                forall|j: int| i <= j < n ==> #[trigger] self.entries@[j].0@ != key@,
            decreases i,
        {
            i = i - 1;
            if same(self.entries[i].0.as_str(), key) {
                proof {
                    lemma_lookup(self.entries@, i as int);
                }
                return i;
            }
        }
        proof {
            lemma_lookup_none(self.entries@, key@);
        }
        n
    }

    /// The value under a key.
    pub fn get(&self, key: &str) -> (r: Option<&Json>)
        ensures
            opt_view(r) == JsonV::Obj(self@).get(key@),
    {
        let i: usize = self.position(key);
        if i < self.entries.len() {
            Some(&self.entries[i].1)
        } else {
            None
        }
    }

    /// The object without a key.
    pub fn remove(self, key: &str) -> (r: Object)
        ensures
            r@ == self@.remove(key@),
    {
        proof {
            use_type_invariant(&self);
        }
        let i: usize = self.position(key);
        let mut entries = self.entries;
        if i < entries.len() {
            proof {
                lemma_take_out(entries@, i as int);
            }
            let _ = entries.remove(i);
        } else {
            assert(self@.remove(key@) =~= self@);
        }
        Object { entries }
    }

    /// The object with a key set to a value.
    pub fn put(self, key: &str, value: Json) -> (r: Object)
        ensures
            r@ == self@.insert(key@, value@),
    {
        proof {
            use_type_invariant(&self);
        }
        let i: usize = self.position(key);
        let mut entries = self.entries;
        if i < entries.len() {
            proof {
                lemma_take_out(entries@, i as int);
            }
            let _ = entries.remove(i);
        }
        let ghost rest = entries@;
        entries.push((key.to_owned(), value));
        proof {
            assert(entries@.drop_last() =~= rest);
            assert(entries_view(entries@) =~= self@.insert(key@, value@));
            assert forall|j: int, k: int| 0 <= j < k < entries@.len() implies #[trigger] entries@[j].0@
                != #[trigger] entries@[k].0@ by {
                assert(entries@[j] == rest[j]);
                if k < rest.len() {
                    assert(entries@[k] == rest[k]);
                }
            }
        }
        Object { entries }
    }

    /// The keys, each once, in no particular order.
    pub fn keys(&self) -> (r: Vec<String>)
        ensures
            crate::text::texts(r@).no_duplicates(),
            crate::text::texts(r@).to_set() == self@.dom(),
    {
        proof {
            use_type_invariant(self);
        }
        let mut out: Vec<String> = Vec::new();
        let n: usize = self.entries.len();
        for i in 0..n
            invariant
                n == self.entries@.len(),
                out@.len() == i,
                forall|k: int| 0 <= k < i ==> (#[trigger] out@[k])@ == self.entries@[k].0@,
        {
            out.push(self.entries[i].0.clone());
        }
        proof {
            lemma_keys(self.entries@, out@);
        }
        out
    }
}

proof fn lemma_keys(s: Seq<(String, Json)>, keys: Seq<String>)
    requires
        distinct_keys(s),
        keys.len() == s.len(),
        forall|k: int| 0 <= k < s.len() ==> (#[trigger] keys[k])@ == s[k].0@,
    ensures
        crate::text::texts(keys).no_duplicates(),
        crate::text::texts(keys).to_set() == entries_view(s).dom(),
{
    let t = crate::text::texts(keys);
    assert forall|i: int, j: int| 0 <= i < t.len() && 0 <= j < t.len() && i != j implies t[i]
        != t[j] by {
        assert(keys[i]@ == s[i].0@ && keys[j]@ == s[j].0@);
        if i < j {
            assert(s[i].0@ != s[j].0@);
        } else {
            assert(s[j].0@ != s[i].0@);
        }
    }
    assert forall|k: Seq<char>| t.to_set().contains(k) <==> entries_view(s).dom().contains(k) by {
        if t.contains(k) {
            let i = choose|i: int| 0 <= i < t.len() && t[i] == k;
            assert(keys[i]@ == s[i].0@);
            assert forall|j: int| i < j < s.len() implies #[trigger] s[j].0@ != s[i].0@ by {}
            lemma_lookup(s, i);
        } else {
            assert forall|j: int| 0 <= j < s.len() implies #[trigger] s[j].0@ != k by {
                assert(keys[j]@ == s[j].0@);
                assert(t[j] == keys[j]@);
            }
            lemma_lookup_none(s, k);
        }
    }
    assert(t.to_set() =~= entries_view(s).dom());
}

impl Clone for Json {
    fn clone(&self) -> (r: Json)
        ensures
            r@ == self@,
        decreases self,
    {
        broadcast use {lemma_view, lemma_views_push};

        match self {
            Json::Null => Json::Null,
            Json::Bool(b) => Json::Bool(*b),
            Json::Num(n) => Json::Num(n.clone()),
            Json::Str(s) => Json::Str(s.clone()),
            Json::Arr(a) => {
                let mut out: Vec<Json> = Vec::new();
                let n: usize = a.len();
                for i in 0..n
                    invariant
                        n == a@.len(),
                        self is Arr,
                        *a == self->Arr_0,
                        views(out@) == views(a@).take(i as int),
                {
                    assert(decreases_to!(a@ => a@[i as int]));
                    out.push(a[i].clone());
                    assert(views(a@).take(i + 1) =~= views(a@).take(i as int).push(a@[i as int]@));
                }
                assert(views(a@).take(n as int) =~= views(a@));
                Json::Arr(out)
            },
            Json::Obj(o) => {
                let mut out: Vec<(String, Json)> = Vec::new();
                let n: usize = o.entries.len();
                for i in 0..n
                    invariant
                        n == o.entries@.len(),
                        self is Obj,
                        *o == self->Obj_0,
                        out@.len() == i,
                        forall|j: int| 0 <= j < i ==> (#[trigger] out@[j]).0@ == o.entries@[j].0@,
                        forall|j: int| 0 <= j < i ==> (#[trigger] out@[j]).1@ == o.entries@[j].1@,
                {
                    out.push((o.entries[i].0.clone(), o.entries[i].1.clone()));
                }
                proof {
                    use_type_invariant(o);
                    lemma_same_entries(out@, o.entries@);
                }
                Json::Obj(Object { entries: out })
            },
        }
    }
}

proof fn lemma_same_entries(s: Seq<(String, Json)>, t: Seq<(String, Json)>)
    requires
        s.len() == t.len(),
        forall|j: int| 0 <= j < s.len() ==> (#[trigger] s[j]).0@ == t[j].0@,
        forall|j: int| 0 <= j < s.len() ==> (#[trigger] s[j]).1@ == t[j].1@,
    ensures
        entries_view(s) == entries_view(t),
        distinct_keys(t) ==> distinct_keys(s),
    decreases s.len(),
{
    if s.len() > 0 {
        let s1 = s.drop_last();
        let t1 = t.drop_last();
        assert forall|j: int| 0 <= j < s1.len() implies (#[trigger] s1[j]).0@ == t1[j].0@ by {
            assert(s1[j] == s[j]);
        }
        assert forall|j: int| 0 <= j < s1.len() implies (#[trigger] s1[j]).1@ == t1[j].1@ by {
            assert(s1[j] == s[j]);
        }
        lemma_same_entries(s1, t1);
        assert(s[s.len() - 1].1@ == t[s.len() - 1].1@);
        assert(s[s.len() - 1].0@ == t[s.len() - 1].0@);
    }
    if distinct_keys(t) {
        assert forall|i: int, j: int| 0 <= i < j < s.len() implies #[trigger] s[i].0@
            != #[trigger] s[j].0@ by {
            assert(t[i].0@ != t[j].0@);
        }
    }
}

pub broadcast group group_json {
    lemma_view,
    lemma_views_push,
    lemma_views_add,
}

/// The value under a key of a value that may be missing.
pub open spec fn at_v(o: Option<JsonV>, key: Seq<char>) -> Option<JsonV> {
    match o {
        Some(v) => v.get(key),
        None => None,
    }
}

/// The string that a value that may be missing is.
pub open spec fn str_of_v(o: Option<JsonV>) -> Option<Seq<char>> {
    match o {
        Some(v) => v.as_str(),
        None => None,
    }
}

/// A text that may be missing, or another.
pub open spec fn text_or(o: Option<Seq<char>>, other: Seq<char>) -> Seq<char> {
    match o {
        Some(s) => s,
        None => other,
    }
}

/// The array that a value that may be missing is.
pub open spec fn array_of_v(o: Option<JsonV>) -> Option<Seq<JsonV>> {
    match o {
        Some(v) => v.as_array(),
        None => None,
    }
}

/// The value under a key of a value that may be missing.
pub fn at<'a>(o: Option<&'a Json>, key: &str) -> (r: Option<&'a Json>)
    ensures
        opt_view(r) == at_v(opt_view(o), key@),
{
    match o {
        Some(j) => j.get(key),
        None => None,
    }
}

/// The string that a value that may be missing is.
pub fn str_of<'a>(o: Option<&'a Json>) -> (r: Option<&'a str>)
    ensures
        opt_str(r) == str_of_v(opt_view(o)),
{
    match o {
        Some(j) => j.as_str(),
        None => None,
    }
}

/// The array that a value that may be missing is.
pub fn array_of<'a>(o: Option<&'a Json>) -> (r: Option<&'a Vec<Json>>)
    ensures
        opt_views(r) == array_of_v(opt_view(o)),
{
    match o {
        Some(j) => j.as_array(),
        None => None,
    }
}

impl Json {
    /// The empty object.
    pub fn object() -> (r: Json)
        ensures
            r@ == jobj(),
    {
        broadcast use group_json;

        Json::Obj(Object::new())
    }

    /// Null.
    pub fn null() -> (r: Json)
        ensures
            r@ == JsonV::Null,
    {
        broadcast use group_json;

        Json::Null
    }

    /// A string.
    pub fn str(s: &str) -> (r: Json)
        ensures
            r@ == JsonV::Str(s@),
    {
        broadcast use group_json;

        Json::Str(s.to_owned())
    }

    /// A number.
    pub fn number(n: u64) -> (r: Json)
        ensures
            r@ == jnum(n),
    {
        broadcast use group_json;

        Json::Num(number_from_u64(n))
    }

    /// The value under a key; none where there is no such key, or no object.
    pub fn get(&self, key: &str) -> (r: Option<&Json>)
        ensures
            opt_view(r) == self@.get(key@),
    {
        broadcast use group_json;

        match self {
            Json::Obj(o) => o.get(key),
            _ => None,
        }
    }

    /// The object with a key set. Null becomes an object; another value stays.
    pub fn put(self, key: &str, value: Json) -> (r: Json)
        ensures
            r@ == self@.put(key@, value@),
    {
        broadcast use group_json;

        match self {
            Json::Obj(o) => Json::Obj(o.put(key, value)),
            Json::Null => Json::Obj(Object::new().put(key, value)),
            other => other,
        }
    }

    /// The object with a key set to a copy of a value, where there is one.
    pub fn put_opt(self, key: &str, value: Option<&Json>) -> (r: Json)
        ensures
            r@ == self@.put_opt(key@, opt_view(value)),
    {
        match value {
            Some(v) => self.put(key, v.clone()),
            None => self,
        }
    }

    /// Whether the string under a key is that text.
    pub fn str_is(&self, key: &str, text: &str) -> (r: bool)
        ensures
            r == self@.str_is(key@, text@),
    {
        match self.str_at(key) {
            Some(s) => same(s, text),
            None => false,
        }
    }

    /// The text, where the value is a string.
    pub fn as_str(&self) -> (r: Option<&str>)
        ensures
            opt_str(r) == self@.as_str(),
    {
        broadcast use group_json;

        match self {
            Json::Str(s) => Some(s.as_str()),
            _ => None,
        }
    }

    /// The elements, where the value is an array.
    pub fn as_array(&self) -> (r: Option<&Vec<Json>>)
        ensures
            opt_views(r) == self@.as_array(),
    {
        broadcast use group_json;

        match self {
            Json::Arr(a) => Some(a),
            _ => None,
        }
    }

    /// The number, where the value is an integer that `u64` can hold.
    pub fn as_u64(&self) -> (r: Option<u64>)
        ensures
            r == self@.as_u64(),
    {
        broadcast use group_json;

        match self {
            Json::Num(n) => number_as_u64(n),
            _ => None,
        }
    }

    /// The number, where the value is an integer that `i64` can hold.
    pub fn as_i64(&self) -> (r: Option<i64>)
        ensures
            r == self@.as_i64(),
    {
        broadcast use group_json;

        match self {
            Json::Num(n) => number_as_i64(n),
            _ => None,
        }
    }

    /// The truth value, where the value is one.
    pub fn as_bool(&self) -> (r: Option<bool>)
        ensures
            r == self@.as_bool(),
    {
        broadcast use group_json;

        match self {
            Json::Bool(b) => Some(*b),
            _ => None,
        }
    }

    /// Whether the value is null.
    pub fn is_null(&self) -> (r: bool)
        ensures
            r == (self@ is Null),
    {
        broadcast use group_json;

        match self {
            Json::Null => true,
            _ => false,
        }
    }

    /// Whether the value is an object.
    pub fn is_object(&self) -> (r: bool)
        ensures
            r == (self@ is Obj),
    {
        broadcast use group_json;

        match self {
            Json::Obj(_) => true,
            _ => false,
        }
    }

    /// The string under a key.
    pub fn str_at(&self, key: &str) -> (r: Option<&str>)
        ensures
            opt_str(r) == self@.str_at(key@),
    {
        str_of(self.get(key))
    }

    /// The string under a key, or another text.
    pub fn str_or<'a>(&'a self, key: &str, other: &'a str) -> (r: &'a str)
        ensures
            r@ == self@.str_or(key@, other@),
    {
        match self.str_at(key) {
            Some(s) => s,
            None => other,
        }
    }

    /// The array under a key.
    pub fn array_at(&self, key: &str) -> (r: Option<&Vec<Json>>)
        ensures
            opt_views(r) == self@.array_at(key@),
    {
        array_of(self.get(key))
    }

    /// The `u64` under a key.
    pub fn u64_at(&self, key: &str) -> (r: Option<u64>)
        ensures
            r == self@.u64_at(key@),
    {
        match self.get(key) {
            Some(v) => v.as_u64(),
            None => None,
        }
    }

    /// The `u64` under a key, or another number.
    pub fn u64_or(&self, key: &str, other: u64) -> (r: u64)
        ensures
            r == self@.u64_or(key@, other),
    {
        match self.u64_at(key) {
            Some(n) => n,
            None => other,
        }
    }

    /// A copy of the value under a key, null where there is none.
    pub fn get_or_null(&self, key: &str) -> (r: Json)
        ensures
            r@ == self@.get_or_null(key@),
    {
        broadcast use group_json;

        match self.get(key) {
            Some(v) => v.clone(),
            None => Json::Null,
        }
    }

    /// A copy of the value under a key, an empty object where there is none.
    pub fn get_or_empty(&self, key: &str) -> (r: Json)
        ensures
            r@ == self@.get_or_empty(key@),
    {
        match self.get(key) {
            Some(v) => v.clone(),
            None => Json::object(),
        }
    }
}

} // verus!
