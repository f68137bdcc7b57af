//! Scanning a sequence: counting the items that have a property, and finding
//! the first of them.

use vstd::prelude::*;

verus! {

/// Number of items of `s` that satisfy `pred`.
pub open spec fn count<A>(s: Seq<A>, pred: spec_fn(A) -> bool) -> nat {
    s.filter(pred).len()
}

/// Index of the first item of `s` that satisfies `pred`.
pub open spec fn first_index<A>(s: Seq<A>, pred: spec_fn(A) -> bool) -> Option<int>
    decreases s.len(),
{
    if s.len() == 0 {
        None
    } else {
        match first_index(s.drop_last(), pred) {
            Some(i) => Some(i),
            None => if pred(s.last()) {
                Some(s.len() - 1)
            } else {
                None
            },
        }
    }
}

/// Counting one item more adds one where the item satisfies `pred`.
pub proof fn lemma_count_step<A>(s: Seq<A>, pred: spec_fn(A) -> bool, i: int)
    requires
        0 <= i < s.len(),
    ensures
        count(s.take(i + 1), pred) == count(s.take(i), pred) + if pred(s[i]) {
            1nat
        } else {
            0nat
        },
{
    reveal(Seq::filter);
    assert(s.take(i + 1).drop_last() =~= s.take(i));
    assert(s.take(i + 1).last() == s[i]);
}

/// Nothing is counted in an empty prefix, the whole sequence is its own
/// longest prefix, and no more items are counted than there are.
pub proof fn lemma_count_ends<A>(s: Seq<A>, pred: spec_fn(A) -> bool)
    ensures
        count(s.take(0), pred) == 0,
        count(s.take(s.len() as int), pred) == count(s, pred),
        count(s, pred) <= s.len(),
{
    reveal(Seq::filter);
    assert(s.take(0).len() == 0);
    assert(s.take(s.len() as int) =~= s);
    s.lemma_filter_len(pred);
}

/// `first_index` names the least index of an item that satisfies `pred`,
/// and is `None` exactly when no item does.
pub proof fn lemma_first_index<A>(s: Seq<A>, pred: spec_fn(A) -> bool)
    ensures
        match first_index(s, pred) {
            Some(i) => {
                &&& 0 <= i < s.len()
                &&& pred(s[i])
                &&& forall|j: int| 0 <= j < i ==> !pred(#[trigger] s[j])
            },
            None => forall|j: int| 0 <= j < s.len() ==> !pred(#[trigger] s[j]),
        },
    decreases s.len(),
{
    if s.len() > 0 {
        lemma_first_index(s.drop_last(), pred);
        let shorter = s.drop_last();
        assert(forall|j: int| 0 <= j < shorter.len() ==> shorter[j] == s[j]);
    }
}

} // verus!
