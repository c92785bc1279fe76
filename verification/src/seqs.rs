//! Facts about picking and mapping the items of a sequence.

use vstd::prelude::*;

verus! {

/// An item that a test maps to a value shows up among the mapped values.
pub proof fn lemma_filter_map_has<A, B>(s: Seq<A>, f: spec_fn(A) -> Option<B>, i: int)
    requires
        0 <= i < s.len(),
        f(s[i]) is Some,
    ensures
        s.filter_map(f).contains(f(s[i])->0),
    decreases s.len(),
{
    let rest = s.drop_last();
    let tail = match f(s.last()) {
        Some(b) => seq![b],
        None => Seq::empty(),
    };
    assert(s.filter_map(f) == rest.filter_map(f) + tail);
    if i == s.len() - 1 {
        let at = rest.filter_map(f).len() as int;
        assert(s.filter_map(f)[at] == f(s[i])->0);
    } else {
        lemma_filter_map_has(rest, f, i);
        let e = f(s[i])->0;
        let at = choose|at: int| 0 <= at < rest.filter_map(f).len() && rest.filter_map(f)[at] == e;
        assert(s.filter_map(f)[at] == e);
    }
}

/// Mapping adds no items: there are at most as many mapped values as items.
pub proof fn lemma_filter_map_len<A, B>(s: Seq<A>, f: spec_fn(A) -> Option<B>)
    ensures
        s.filter_map(f).len() <= s.len(),
    decreases s.len(),
{
    if s.len() > 0 {
        lemma_filter_map_len(s.drop_last(), f);
    }
}

/// Mapping keeps items apart: if no two places of a sequence are mapped to
/// the same value, no value comes out twice.
pub proof fn lemma_filter_map_no_duplicates<A, B>(s: Seq<A>, f: spec_fn(A) -> Option<B>)
    requires
        forall|i: int, j: int|
            0 <= i < s.len() && 0 <= j < s.len() && i != j && f(s[i]) is Some ==> f(s[i]) != f(
                s[j],
            ),
    ensures
        s.filter_map(f).no_duplicates(),
    decreases s.len(),
{
    if s.len() > 0 {
        let rest = s.drop_last();
        let last = s.len() - 1;
        assert forall|i: int, j: int|
            0 <= i < rest.len() && 0 <= j < rest.len() && i != j && f(rest[i]) is Some implies f(
            rest[i],
        ) != f(rest[j]) by {
            assert(rest[i] == s[i] && rest[j] == s[j]);
        }
        lemma_filter_map_no_duplicates(rest, f);
        let head = rest.filter_map(f);
        match f(s.last()) {
            Some(b) => {
                assert(s.filter_map(f) == head + seq![b]);
                if head.contains(b) {
                    rest.lemma_filter_map_contains(f, b);
                    let t = choose|t: A| #[trigger] rest.contains(t) && f(t) == Some(b);
                    let j = choose|j: int| 0 <= j < rest.len() && rest[j] == t;
                    assert(s[j] == t);
                    assert(f(s[last]) == f(s[j]));
                    assert(false);
                }
                assert forall|i: int, j: int|
                    0 <= i < head.len() + 1 && 0 <= j < head.len() + 1 && i != j implies (head
                    + seq![b])[i] != (head + seq![b])[j] by {
                    if i < head.len() && j < head.len() {
                    } else if i < head.len() {
                        assert(head.contains(head[i]));
                    } else {
                        assert(head.contains(head[j]));
                    }
                }
            },
            None => {
                assert(s.filter_map(f) == head + Seq::<B>::empty());
                assert(head + Seq::<B>::empty() =~= head);
            },
        }
    } else {
        assert(s.filter_map(f) =~= Seq::<B>::empty());
    }
}

/// A sequence without repetitions whose every item occurs in another
/// sequence is at most as long as the other.
pub proof fn lemma_contained_is_shorter<A>(a: Seq<A>, b: Seq<A>)
    requires
        a.no_duplicates(),
        forall|i: int| 0 <= i < a.len() ==> b.contains(#[trigger] a[i]),
    ensures
        a.len() <= b.len(),
{
    a.unique_seq_to_set();
    vstd::seq_lib::seq_to_set_is_finite(b);
    assert(a.to_set().subset_of(b.to_set())) by {
        assert forall|e: A| a.to_set().contains(e) implies b.to_set().contains(e) by {
            let i = choose|i: int| 0 <= i < a.len() && a[i] == e;
            assert(b.contains(a[i]));
        }
    }
    vstd::set_lib::lemma_len_subset(a.to_set(), b.to_set());
    b.lemma_cardinality_of_set();
}

} // verus!
