//! Arrays mapped element by element.

use vstd::prelude::*;

use super::Json;
use super::JsonV;

verus! {

/// What a function gives for each element, one after the other.
pub(crate) fn gather<F: Fn(&Json) -> Vec<Json>>(
    a: &Vec<Json>,
    f: F,
    Ghost(g): Ghost<spec_fn(JsonV) -> Seq<JsonV>>,
) -> (r: Vec<Json>)
    requires
        forall|j: &Json| #[trigger] f.requires((j,)),
        forall|j: &Json, v: Vec<Json>| #[trigger] f.ensures((j,), v) ==> super::views(v@) == g(j@),
    ensures
        super::views(r@) == crate::seqs::flat(super::views(a@), g),
{
    broadcast use super::group_json;

    let mut out: Vec<Json> = Vec::new();
    let n: usize = a.len();
    proof {
        crate::seqs::lemma_flat_all(super::views(a@), g);
        assert(super::views(out@) =~= Seq::<JsonV>::empty());
    }
    for i in 0..n
        invariant
            n == a@.len(),
            forall|j: &Json| #[trigger] f.requires((j,)),
            forall|j: &Json, v: Vec<Json>|
                #[trigger] f.ensures((j,), v) ==> super::views(v@) == g(j@),
            super::views(out@) == crate::seqs::flat(super::views(a@).take(i as int), g),
    {
        let mut more = f(&a[i]);
        proof {
            crate::seqs::lemma_flat_step(super::views(a@), i as int, g);
            assert(super::views(more@) == g(a@[i as int]@));
        }
        out.append(&mut more);
    }
    proof {
        crate::seqs::lemma_flat_all(super::views(a@), g);
    }
    out
}

/// The texts that a function gives for each element, one after the other.
pub(crate) fn gather_texts<F: Fn(&Json) -> Vec<String>>(
    a: &Vec<Json>,
    f: F,
    Ghost(g): Ghost<spec_fn(JsonV) -> Seq<Seq<char>>>,
) -> (r: Vec<String>)
    requires
        forall|j: &Json| #[trigger] f.requires((j,)),
        forall|j: &Json, v: Vec<String>|
            #[trigger] f.ensures((j,), v) ==> crate::text::texts(v@) == g(j@),
    ensures
        crate::text::texts(r@) == crate::seqs::flat(super::views(a@), g),
{
    let mut out: Vec<String> = Vec::new();
    let n: usize = a.len();
    proof {
        crate::seqs::lemma_flat_all(super::views(a@), g);
        assert(crate::text::texts(out@) =~= Seq::<Seq<char>>::empty());
    }
    for i in 0..n
        invariant
            n == a@.len(),
            forall|j: &Json| #[trigger] f.requires((j,)),
            forall|j: &Json, v: Vec<String>|
                #[trigger] f.ensures((j,), v) ==> crate::text::texts(v@) == g(j@),
            crate::text::texts(out@) == crate::seqs::flat(super::views(a@).take(i as int), g),
    {
        let mut more = f(&a[i]);
        proof {
            crate::seqs::lemma_flat_step(super::views(a@), i as int, g);
            assert(crate::text::texts(more@) == g(a@[i as int]@));
            assert(crate::text::texts(out@ + more@) =~= crate::text::texts(out@)
                + crate::text::texts(more@));
        }
        out.append(&mut more);
    }
    proof {
        crate::seqs::lemma_flat_all(super::views(a@), g);
    }
    out
}

/// What a function gives for each element, one for one.
pub(crate) fn each<F: Fn(&Json) -> Json>(
    a: &Vec<Json>,
    f: F,
    Ghost(g): Ghost<spec_fn(JsonV) -> JsonV>,
) -> (r: Vec<Json>)
    requires
        forall|j: &Json| #[trigger] f.requires((j,)),
        forall|j: &Json, v: Json| #[trigger] f.ensures((j,), v) ==> v@ == g(j@),
    ensures
        super::views(r@) == super::views(a@).map_values(g),
{
    broadcast use super::group_json;

    let mut out: Vec<Json> = Vec::new();
    let n: usize = a.len();
    for i in 0..n
        invariant
            n == a@.len(),
            forall|j: &Json| #[trigger] f.requires((j,)),
            forall|j: &Json, v: Json| #[trigger] f.ensures((j,), v) ==> v@ == g(j@),
            super::views(out@) == super::views(a@).map_values(g).take(i as int),
    {
        let v = f(&a[i]);
        assert(v@ == g(a@[i as int]@));
        out.push(v);
        assert(super::views(a@).map_values(g).take(i + 1) =~= super::views(a@).map_values(g).take(
            i as int,
        ).push(v@));
    }
    assert(super::views(a@).map_values(g).take(n as int) =~= super::views(a@).map_values(g));
    out
}

/// The one string under a key, if there is one.
pub open spec fn text_under(j: JsonV, key: Seq<char>) -> Seq<Seq<char>> {
    match j.str_at(key) {
        Some(t) => seq![t],
        None => Seq::empty(),
    }
}

/// The one string under a key, if there is one.
pub(crate) fn texts_under(j: &Json, key: &str) -> (r: Vec<String>)
    ensures
        crate::text::texts(r@) == text_under(j@, key@),
{
    let mut out: Vec<String> = Vec::new();
    if let Some(t) = j.str_at(key) {
        out.push(t.to_owned());
    }
    assert(crate::text::texts(out@) =~= text_under(j@, key@));
    out
}

} // verus!
