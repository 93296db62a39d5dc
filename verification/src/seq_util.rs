//! Small general facts about `Seq::filter` that the protocol state and the
//! orchestrator both lean on when they drop entries by id.

use vstd::prelude::*;

verus! {

/// A filter whose predicate holds of no element yields the empty sequence.
pub proof fn lemma_filter_all_false<A>(s: Seq<A>, pred: spec_fn(A) -> bool)
    requires
        forall|i: int| 0 <= i < s.len() ==> !pred(s[i]),
    ensures
        s.filter(pred) =~= Seq::<A>::empty(),
    decreases s.len(),
{
    reveal(Seq::filter);
    if s.len() > 0 {
        lemma_filter_all_false(s.drop_last(), pred);
    }
}

/// A filter whose predicate holds of every element is the identity.
pub proof fn lemma_filter_all_true<A>(s: Seq<A>, pred: spec_fn(A) -> bool)
    requires
        forall|i: int| 0 <= i < s.len() ==> pred(s[i]),
    ensures
        s.filter(pred) =~= s,
    decreases s.len(),
{
    reveal(Seq::filter);
    if s.len() > 0 {
        lemma_filter_all_true(s.drop_last(), pred);
    }
}

/// What a filter holds: exactly the elements of the original that satisfy the
/// predicate.
pub proof fn lemma_filter_membership<A>(s: Seq<A>, pred: spec_fn(A) -> bool)
    ensures
        forall|i: int| 0 <= i < s.filter(pred).len() ==> pred(#[trigger] s.filter(pred)[i]),
        forall|x: A| s.filter(pred).contains(x) <==> s.contains(x) && pred(x),
{
    let out = s.filter(pred);
    assert forall|i: int| 0 <= i < out.len() implies pred(out[i]) by {
        s.lemma_filter_pred(pred, i);
    }
    assert forall|x: A| out.contains(x) implies s.contains(x) && pred(x) by {
        s.lemma_filter_contains_rev(pred, x);
        let i = choose|i: int| 0 <= i < out.len() && out[i] == x;
        assert(pred(out[i]));
    }
    assert forall|x: A| s.contains(x) && pred(x) implies out.contains(x) by {
        let i = choose|i: int| 0 <= i < s.len() && s[i] == x;
        s.lemma_filter_contains(pred, i);
    }
}

/// Removing an element the filter would skip anyway does not change the
/// filter's result.
pub proof fn lemma_filter_remove_match<A>(s: Seq<A>, pred: spec_fn(A) -> bool, i: int)
    requires
        0 <= i < s.len(),
        !pred(s[i]),
    ensures
        s.remove(i).filter(pred) == s.filter(pred),
{
    let a = s.subrange(0, i);
    let b = s.subrange(i + 1, s.len() as int);
    assert(s =~= a + seq![s[i]] + b);
    assert(s.remove(i) =~= a + b);
    Seq::filter_distributes_over_add(a + seq![s[i]], b, pred);
    Seq::filter_distributes_over_add(a, seq![s[i]], pred);
    Seq::filter_distributes_over_add(a, b, pred);
    lemma_filter_all_false(seq![s[i]], pred);
    assert(s.filter(pred) =~= s.remove(i).filter(pred));
}

/// A filter of a duplicate-free sequence is duplicate-free.
pub proof fn lemma_filter_no_duplicates<A>(s: Seq<A>, pred: spec_fn(A) -> bool)
    requires
        s.no_duplicates(),
    ensures
        s.filter(pred).no_duplicates(),
    decreases s.len(),
{
    reveal(Seq::filter);
    if s.len() > 0 {
        let rest = s.drop_last();
        assert(rest.no_duplicates());
        lemma_filter_no_duplicates(rest, pred);
        if pred(s.last()) {
            let f = rest.filter(pred);
            assert(!f.contains(s.last())) by {
                lemma_filter_membership(rest, pred);
                if f.contains(s.last()) {
                    assert(rest.contains(s.last()));
                    let j = choose|j: int| 0 <= j < rest.len() && rest[j] == s.last();
                    assert(s[j] == rest[j]);
                    assert(s[j] != s[s.len() - 1]);
                }
            }
            let out = f.push(s.last());
            assert forall|i: int, j: int|
                0 <= i < out.len() && 0 <= j < out.len() && i != j implies out[i] != out[j] by {
                if i == out.len() - 1 && j < i {
                    assert(f.contains(f[j]));
                } else if j == out.len() - 1 && i < j {
                    assert(f.contains(f[i]));
                }
            }
            assert(s.filter(pred) == out);
        }
    }
}

/// Appending a fresh element keeps a sequence duplicate-free.
pub proof fn lemma_no_duplicates_push<A>(s: Seq<A>, x: A)
    requires
        s.no_duplicates(),
        !s.contains(x),
    ensures
        s.push(x).no_duplicates(),
{
    let out = s.push(x);
    assert forall|i: int, j: int|
        0 <= i < out.len() && 0 <= j < out.len() && i != j implies out[i] != out[j] by {
        if i == out.len() - 1 && j < i {
            assert(s.contains(s[j]));
        } else if j == out.len() - 1 && i < j {
            assert(s.contains(s[i]));
        }
    }
}

/// Filtering twice with the same predicate filters once.
pub proof fn lemma_filter_idempotent<A>(s: Seq<A>, pred: spec_fn(A) -> bool)
    ensures
        s.filter(pred).filter(pred) == s.filter(pred),
{
    lemma_filter_membership(s, pred);
    lemma_filter_all_true(s.filter(pred), pred);
}

} // verus!
