//! Texts in their order: that of their characters, one by one.

use vstd::prelude::*;

use crate::text;
use crate::text::{same, to_chars};

verus! {

/// Whether a text comes before another.
pub open spec fn less(a: Seq<char>, b: Seq<char>) -> bool
    decreases a.len(),
{
    if b.len() == 0 {
        false
    } else if a.len() == 0 {
        true
    } else if a[0] != b[0] {
        a[0] < b[0]
    } else {
        less(a.drop_first(), b.drop_first())
    }
}

/// No text comes before itself.
pub proof fn lemma_irreflexive(a: Seq<char>)
    ensures
        !less(a, a),
    decreases a.len(),
{
    if a.len() > 0 {
        lemma_irreflexive(a.drop_first());
    }
}

/// What comes before a text comes before all that come after it.
pub proof fn lemma_transitive(a: Seq<char>, b: Seq<char>, c: Seq<char>)
    requires
        less(a, b),
        less(b, c),
    ensures
        less(a, c),
    decreases a.len(),
{
    if a.len() > 0 && a[0] == b[0] && b[0] == c[0] {
        lemma_transitive(a.drop_first(), b.drop_first(), c.drop_first());
    }
}

/// Of two texts that are not the same, one comes before the other.
pub proof fn lemma_total(a: Seq<char>, b: Seq<char>)
    ensures
        a == b || less(a, b) || less(b, a),
    decreases a.len(),
{
    if a.len() == 0 || b.len() == 0 {
        if a.len() == 0 && b.len() == 0 {
            assert(a =~= b);
        }
    } else if a[0] == b[0] {
        lemma_total(a.drop_first(), b.drop_first());
        if a.drop_first() == b.drop_first() {
            assert(a =~= seq![a[0]] + a.drop_first());
            assert(b =~= seq![b[0]] + b.drop_first());
        }
    }
}

/// Whether a text comes before another.
pub fn is_less(a: &str, b: &str) -> (r: bool)
    ensures
        r == less(a@, b@),
{
    let ca = to_chars(a);
    let cb = to_chars(b);
    let la: usize = ca.len();
    let lb: usize = cb.len();
    let mut i: usize = 0;
    assert(a@.skip(0) =~= a@);
    assert(b@.skip(0) =~= b@);
    while i < la && i < lb && ca[i] == cb[i]
        invariant
            ca@ == a@,
            cb@ == b@,
            la == a@.len(),
            lb == b@.len(),
            i <= la,
            i <= lb,
            less(a@, b@) == less(a@.skip(i as int), b@.skip(i as int)),
        decreases la - i,
    {
        assert(a@.skip(i as int).drop_first() =~= a@.skip(i + 1));
        assert(b@.skip(i as int).drop_first() =~= b@.skip(i + 1));
        i = i + 1;
    }
    if i >= lb {
        false
    } else if i >= la {
        true
    } else {
        ca[i] < cb[i]
    }
}

/// Whether texts stand in their order, none twice.
pub open spec fn ascending(s: Seq<Seq<char>>) -> bool {
    forall|i: int, j: int| 0 <= i < j < s.len() ==> less(#[trigger] s[i], #[trigger] s[j])
}

/// Puts a text at its place, where it does not stand there yet.
pub fn insert_text(list: &mut Vec<String>, t: &str)
    requires
        ascending(text::texts(old(list)@)),
    ensures
        ascending(text::texts(final(list)@)),
        text::texts(final(list)@).to_set() == text::texts(old(list)@).to_set().insert(t@),
{
    let ghost s = text::texts(list@);
    let n: usize = list.len();
    let mut k: usize = 0;
    while k < n && is_less(list[k].as_str(), t)
        invariant
            n == list@.len(),
            s == text::texts(list@),
            k <= n,
            forall|j: int| 0 <= j < k ==> less(#[trigger] s[j], t@),
        decreases n - k,
    {
        assert(s[k as int] == list@[k as int]@);
        k = k + 1;
    }
    if k < n && same(list[k].as_str(), t) {
        assert(s[k as int] == t@);
        assert(s.to_set() =~= s.to_set().insert(t@));
        return;
    }
    proof {
        assert(k < n ==> s[k as int] == list@[k as int]@);
        assert forall|j: int| k <= j < n implies less(t@, #[trigger] s[j]) by {
            lemma_total(s[k as int], t@);
            if j > k {
                lemma_transitive(t@, s[k as int], s[j]);
            }
        }
    }
    list.insert(k, t.to_owned());
    proof {
        let r = text::texts(list@);
        assert(r =~= s.insert(k as int, t@));
        assert forall|i: int, j: int| 0 <= i < j < r.len() implies less(
            #[trigger] r[i],
            #[trigger] r[j],
        ) by {
            let i0 = if i < k {
                i
            } else {
                i - 1
            };
            let j0 = if j < k {
                j
            } else {
                j - 1
            };
            if i != k {
                assert(r[i] == s[i0]);
            }
            if j != k {
                assert(r[j] == s[j0]);
            }
        }
        assert forall|x: Seq<char>| r.to_set().contains(x) <==> s.to_set().insert(t@).contains(
            x,
        ) by {
            if s.contains(x) {
                let j = choose|j: int| 0 <= j < s.len() && s[j] == x;
                assert(r[if j < k {
                    j
                } else {
                    j + 1
                }] == x);
            }
            if x == t@ {
                assert(r[k as int] == x);
            }
            if r.contains(x) {
                let j = choose|j: int| 0 <= j < r.len() && r[j] == x;
                if j != k {
                    assert(s[if j < k {
                        j
                    } else {
                        j - 1
                    }] == x);
                }
            }
        }
        assert(r.to_set() =~= s.to_set().insert(t@));
    }
}

/// The last of texts in their order is the greatest of them.
proof fn lemma_last(s: Seq<Seq<char>>, x: Seq<char>)
    requires
        ascending(s),
        s.contains(x),
    ensures
        x == s.last() || less(x, s.last()),
{
    let j = choose|j: int| 0 <= j < s.len() && s[j] == x;
    if j < s.len() - 1 {
        assert(less(s[j], s[s.len() - 1]));
    }
}

/// There is one order: texts in their order are the same where they are the same set.
pub proof fn lemma_one_order(s: Seq<Seq<char>>, t: Seq<Seq<char>>)
    requires
        ascending(s),
        ascending(t),
        s.to_set() == t.to_set(),
    ensures
        s == t,
    decreases s.len(),
{
    if s.len() == 0 {
        if t.len() > 0 {
            assert(t.to_set().contains(t[0]));
            assert(s.contains(t[0]));
        }
        assert(s =~= t);
    } else {
        assert(s.to_set().contains(s[0]));
        assert(t.contains(s[0]));
        assert(s.to_set().contains(s.last())) by {
            assert(s[s.len() - 1] == s.last());
        }
        assert(t.to_set().contains(t.last())) by {
            assert(t[t.len() - 1] == t.last());
        }
        lemma_last(t, s.last());
        lemma_last(s, t.last());
        if s.last() != t.last() {
            lemma_transitive(s.last(), t.last(), s.last());
            lemma_irreflexive(s.last());
        }
        let s1 = s.drop_last();
        let t1 = t.drop_last();
        assert forall|x: Seq<char>| s1.to_set().contains(x) <==> t1.to_set().contains(x) by {
            lemma_without_last(s, x);
            lemma_without_last(t, x);
            assert(s.to_set().contains(x) <==> t.to_set().contains(x));
        }
        assert(s1.to_set() =~= t1.to_set());
        assert forall|i: int, j: int| 0 <= i < j < s1.len() implies less(
            #[trigger] s1[i],
            #[trigger] s1[j],
        ) by {
            assert(less(s[i], s[j]));
        }
        assert forall|i: int, j: int| 0 <= i < j < t1.len() implies less(
            #[trigger] t1[i],
            #[trigger] t1[j],
        ) by {
            assert(less(t[i], t[j]));
        }
        lemma_one_order(s1, t1);
        assert(s =~= s1.push(s.last()));
        assert(t =~= t1.push(t.last()));
    }
}

/// Without the last of texts in their order, the others are left.
proof fn lemma_without_last(s: Seq<Seq<char>>, x: Seq<char>)
    requires
        ascending(s),
        s.len() > 0,
    ensures
        s.drop_last().to_set().contains(x) <==> (s.to_set().contains(x) && x != s.last()),
{
    let t = s.drop_last();
    if t.contains(x) {
        let j = choose|j: int| 0 <= j < t.len() && t[j] == x;
        assert(s[j] == x);
        assert(less(s[j], s[s.len() - 1]));
        lemma_irreflexive(x);
    }
    if s.contains(x) && x != s.last() {
        let j = choose|j: int| 0 <= j < s.len() && s[j] == x;
        assert(t[j] == x);
    }
}

} // verus!
