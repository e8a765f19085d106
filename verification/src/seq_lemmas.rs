//! Small reusable facts about sequence filtering, used by the loops that
//! rebuild or scan a table.

use vstd::prelude::*;

verus! {

/// Extending a prefix by one element extends its filtered image by that
/// element exactly when the element matches.
pub proof fn lemma_filter_take_step<A>(s: Seq<A>, pred: spec_fn(A) -> bool, i: int)
    requires
        0 <= i < s.len(),
    ensures
        pred(s[i]) ==> s.take(i + 1).filter(pred) == s.take(i).filter(pred).push(s[i]),
        !pred(s[i]) ==> s.take(i + 1).filter(pred) == s.take(i).filter(pred),
{
    assert(s.take(i + 1).drop_last() =~= s.take(i));
    assert(s.take(i + 1).last() == s[i]);
    reveal(Seq::filter);
}

/// Filtering with a predicate that no element matches yields the empty
/// sequence.
pub proof fn lemma_filter_none<A>(s: Seq<A>, pred: spec_fn(A) -> bool)
    requires
        forall|i: int| 0 <= i < s.len() ==> !pred(#[trigger] s[i]),
    ensures
        s.filter(pred) == Seq::<A>::empty(),
    decreases s.len(),
{
    reveal(Seq::filter);
    if s.len() > 0 {
        let d = s.drop_last();
        assert forall|i: int| 0 <= i < d.len() implies !pred(#[trigger] d[i]) by {
            assert(d[i] == s[i]);
        }
        lemma_filter_none(d, pred);
    }
}

/// Every element of a filtered sequence comes from the sequence itself.
pub proof fn lemma_filter_subset<A>(s: Seq<A>, pred: spec_fn(A) -> bool, k: int)
    requires
        0 <= k < s.filter(pred).len(),
    ensures
        exists|w: int| 0 <= w < s.len() && #[trigger] s[w] == s.filter(pred)[k],
    decreases s.len(),
{
    reveal(Seq::filter);
    if s.len() > 0 {
        let d = s.drop_last();
        if pred(s.last()) && k == s.filter(pred).len() - 1 {
            assert(s[s.len() - 1] == s.filter(pred)[k]);
        } else {
            lemma_filter_subset(d, pred, k);
            let w = choose|w: int| 0 <= w < d.len() && #[trigger] d[w] == d.filter(pred)[k];
            assert(s[w] == d[w]);
        }
    }
}

/// Inserting an element anywhere adds exactly that element to the
/// sequence's multiset.
pub proof fn lemma_insert_multiset<A>(s: Seq<A>, p: int, x: A)
    requires
        0 <= p <= s.len(),
    ensures
        s.insert(p, x).to_multiset() == s.to_multiset().insert(x),
{
    broadcast use vstd::multiset::group_multiset_axioms;

    let a = s.subrange(0, p);
    let b = s.subrange(p, s.len() as int);
    assert(s =~= a + b);
    vstd::seq_lib::lemma_multiset_commutative(a, b);
    a.to_multiset_ensures();
    vstd::seq_lib::lemma_multiset_commutative(a.push(x), b);
    assert(s.insert(p, x) == a.push(x) + b);
    assert(a.push(x).to_multiset() =~= a.to_multiset().insert(x));
    assert(a.to_multiset().insert(x).add(b.to_multiset()) =~= a.to_multiset().add(
        b.to_multiset(),
    ).insert(x));
}

} // verus!
