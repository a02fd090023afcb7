//! Sequences mapped piece by piece.

use vstd::prelude::*;

verus! {

/// What a function gives for each element of a sequence, one after the other.
pub open spec fn flat<A, B>(s: Seq<A>, f: spec_fn(A) -> Seq<B>) -> Seq<B>
    decreases s.len(),
{
    if s.len() == 0 {
        Seq::empty()
    } else {
        flat(s.drop_last(), f) + f(s.last())
    }
}

/// One element more gives what the function gives for it more.
pub proof fn lemma_flat_step<A, B>(s: Seq<A>, i: int, f: spec_fn(A) -> Seq<B>)
    requires
        0 <= i < s.len(),
    ensures
        flat(s.take(i + 1), f) == flat(s.take(i), f) + f(s[i]),
{
    assert(s.take(i + 1).drop_last() =~= s.take(i));
    assert(s.take(i + 1).last() == s[i]);
}

/// The whole sequence is what all its elements give.
pub proof fn lemma_flat_all<A, B>(s: Seq<A>, f: spec_fn(A) -> Seq<B>)
    ensures
        flat(s.take(s.len() as int), f) == flat(s, f),
        flat(s.take(0), f) == Seq::<B>::empty(),
{
    assert(s.take(s.len() as int) =~= s);
}

/// Sequences one after the other give what each gives.
pub proof fn lemma_flat_add<A, B>(a: Seq<A>, b: Seq<A>, f: spec_fn(A) -> Seq<B>)
    ensures
        flat(a + b, f) == flat(a, f) + flat(b, f),
    decreases b.len(),
{
    if b.len() == 0 {
        assert(a + b =~= a);
        assert(flat(a, f) + flat(b, f) =~= flat(a, f));
    } else {
        lemma_flat_add(a, b.drop_last(), f);
        assert((a + b).drop_last() =~= a + b.drop_last());
        assert(flat(a + b, f) =~= flat(a, f) + flat(b, f));
    }
}

/// Elements that each give one thing give these, in their order.
pub proof fn lemma_flat_each<A, B>(s: Seq<A>, f: spec_fn(A) -> Seq<B>, t: Seq<B>)
    requires
        s.len() == t.len(),
        forall|i: int| 0 <= i < s.len() ==> f(#[trigger] s[i]) == seq![t[i]],
    ensures
        flat(s, f) == t,
    decreases s.len(),
{
    if s.len() == 0 {
        assert(t =~= Seq::<B>::empty());
    } else {
        let s1 = s.drop_last();
        let t1 = t.drop_last();
        assert forall|i: int| 0 <= i < s1.len() implies f(#[trigger] s1[i]) == seq![t1[i]] by {
            assert(s1[i] == s[i]);
        }
        lemma_flat_each(s1, f, t1);
        assert(f(s[s.len() - 1]) == seq![t[s.len() - 1]]);
        assert(flat(s, f) =~= t);
    }
}

/// Elements that each give nothing give nothing.
pub proof fn lemma_flat_none<A, B>(s: Seq<A>, f: spec_fn(A) -> Seq<B>)
    requires
        forall|i: int| 0 <= i < s.len() ==> f(#[trigger] s[i]) == Seq::<B>::empty(),
    ensures
        flat(s, f) == Seq::<B>::empty(),
    decreases s.len(),
{
    if s.len() > 0 {
        let s1 = s.drop_last();
        assert forall|i: int| 0 <= i < s1.len() implies f(#[trigger] s1[i])
            == Seq::<B>::empty() by {
            assert(s1[i] == s[i]);
        }
        lemma_flat_none(s1, f);
        assert(f(s[s.len() - 1]) == Seq::<B>::empty());
        assert(flat(s, f) =~= Seq::<B>::empty());
    }
}

/// What is read of what each element gives is what is read element by element.
pub proof fn lemma_flat_flat<A, B, C>(
    s: Seq<A>,
    f: spec_fn(A) -> Seq<B>,
    g: spec_fn(B) -> Seq<C>,
    h: spec_fn(A) -> Seq<C>,
)
    requires
        forall|i: int| 0 <= i < s.len() ==> flat(f(#[trigger] s[i]), g) == h(s[i]),
    ensures
        flat(flat(s, f), g) == flat(s, h),
    decreases s.len(),
{
    if s.len() > 0 {
        let s1 = s.drop_last();
        assert forall|i: int| 0 <= i < s1.len() implies flat(f(#[trigger] s1[i]), g) == h(
            s1[i],
        ) by {
            assert(s1[i] == s[i]);
        }
        lemma_flat_flat(s1, f, g, h);
        assert(flat(f(s[s.len() - 1]), g) == h(s[s.len() - 1]));
        lemma_flat_add(flat(s1, f), f(s.last()), g);
    }
}

/// Two functions that agree on every element give the same.
pub proof fn lemma_flat_same<A, B>(s: Seq<A>, f: spec_fn(A) -> Seq<B>, g: spec_fn(A) -> Seq<B>)
    requires
        forall|i: int| 0 <= i < s.len() ==> f(#[trigger] s[i]) == g(s[i]),
    ensures
        flat(s, f) == flat(s, g),
    decreases s.len(),
{
    if s.len() > 0 {
        let s1 = s.drop_last();
        assert forall|i: int| 0 <= i < s1.len() implies f(#[trigger] s1[i]) == g(s1[i]) by {
            assert(s1[i] == s[i]);
        }
        lemma_flat_same(s1, f, g);
        assert(f(s[s.len() - 1]) == g(s[s.len() - 1]));
    }
}

/// What is read of mapped elements is what is read of the elements.
pub proof fn lemma_flat_mapped<A, B, C>(
    s: Seq<A>,
    t: Seq<B>,
    g: spec_fn(B) -> Seq<C>,
    h: spec_fn(A) -> Seq<C>,
)
    requires
        s.len() == t.len(),
        forall|i: int| 0 <= i < s.len() ==> g(#[trigger] t[i]) == h(s[i]),
    ensures
        flat(t, g) == flat(s, h),
    decreases s.len(),
{
    if s.len() > 0 {
        let s1 = s.drop_last();
        let t1 = t.drop_last();
        assert forall|i: int| 0 <= i < s1.len() implies g(#[trigger] t1[i]) == h(s1[i]) by {
            assert(t1[i] == t[i]);
        }
        lemma_flat_mapped(s1, t1, g, h);
        assert(g(t[t.len() - 1]) == h(s[s.len() - 1]));
    }
}

/// One element gives what the function gives for it.
pub proof fn lemma_flat_one<A, B>(a: A, f: spec_fn(A) -> Seq<B>)
    ensures
        flat(seq![a], f) == f(a),
{
    assert(seq![a].drop_last() =~= Seq::<A>::empty());
    assert(flat(seq![a].drop_last(), f) =~= Seq::<B>::empty());
    assert(flat(seq![a], f) =~= f(a));
}

/// What an element gives is among what all give.
pub proof fn lemma_flat_holds<A, B>(s: Seq<A>, f: spec_fn(A) -> Seq<B>, i: int, k: int)
    requires
        0 <= i < s.len(),
        0 <= k < f(s[i]).len(),
    ensures
        exists|p: int| 0 <= p < flat(s, f).len() && #[trigger] flat(s, f)[p] == f(s[i])[k],
    decreases s.len(),
{
    let s1 = s.drop_last();
    if i < s1.len() {
        lemma_flat_holds(s1, f, i, k);
        let p = choose|p: int| 0 <= p < flat(s1, f).len() && #[trigger] flat(s1, f)[p] == f(
            s1[i],
        )[k];
        assert(flat(s, f)[p] == f(s[i])[k]);
    } else {
        assert(flat(s, f)[flat(s1, f).len() + k] == f(s[i])[k]);
    }
}

} // verus!
