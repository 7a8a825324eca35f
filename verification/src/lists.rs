//! Sequences: what filtering does to them, and their last elements.

use vstd::prelude::*;

verus! {

/// The last `n` of a list, or all where it has no more.
pub open spec fn last_of<A>(list: Seq<A>, n: nat) -> Seq<A> {
    if list.len() > n {
        list.skip(list.len() - n)
    } else {
        list
    }
}

/// Filtering a sequence that grows by one at its end.
pub proof fn filter_push<A>(s: Seq<A>, a: A, pred: spec_fn(A) -> bool)
    ensures
        s.push(a).filter(pred) == if pred(a) {
            s.filter(pred).push(a)
        } else {
            s.filter(pred)
        },
{
    reveal(Seq::filter);
    assert(s.push(a).drop_last() =~= s);
}

/// Filtering a sequence of which nothing passes.
pub proof fn filter_none<A>(s: Seq<A>, pred: spec_fn(A) -> bool)
    requires
        forall|i: int| 0 <= i < s.len() ==> !pred(#[trigger] s[i]),
    ensures
        s.filter(pred) == Seq::<A>::empty(),
    decreases s.len(),
{
    reveal(Seq::filter);
    if s.len() > 0 {
        filter_none(s.drop_last(), pred);
    }
}

/// Filtering a sequence of which everything passes.
pub proof fn filter_all<A>(s: Seq<A>, pred: spec_fn(A) -> bool)
    requires
        forall|i: int| 0 <= i < s.len() ==> pred(#[trigger] s[i]),
    ensures
        s.filter(pred) == s,
    decreases s.len(),
{
    reveal(Seq::filter);
    if s.len() > 0 {
        filter_all(s.drop_last(), pred);
        assert(s.drop_last().push(s.last()) =~= s);
    }
}

/// What passes a filter was in the sequence, and passes.
pub proof fn filter_keeps<A>(s: Seq<A>, pred: spec_fn(A) -> bool)
    ensures
        forall|i: int|
            0 <= i < s.filter(pred).len() ==> pred(#[trigger] s.filter(pred)[i]) && s.contains(
                s.filter(pred)[i],
            ),
    decreases s.len(),
{
    reveal(Seq::filter);
    if s.len() > 0 {
        filter_keeps(s.drop_last(), pred);
        let kept = s.drop_last().filter(pred);
        assert forall|i: int| 0 <= i < s.filter(pred).len() implies pred(
            #[trigger] s.filter(pred)[i],
        ) && s.contains(s.filter(pred)[i]) by {
            if i < kept.len() {
                assert(s.filter(pred)[i] == kept[i]);
                let j = choose|j: int|
                    0 <= j < s.drop_last().len() && s.drop_last()[j] == kept[i];
                assert(s[j] == kept[i]);
            } else {
                assert(s[s.len() - 1] == s.last());
            }
        }
    }
}

/// The last `n` of a list end it, are `n` where it has as many, and are all of it where it has
/// fewer.
pub proof fn last_ones_end_the_list<A>(list: Seq<A>, n: nat)
    ensures
        last_of(list, n).is_suffix_of(list),
        last_of(list, n).len() == (if list.len() < n {
            list.len()
        } else {
            n
        }),
{
    let last = last_of(list, n);
    assert(list.subrange(list.len() - last.len(), list.len() as int) =~= last);
}

} // verus!
