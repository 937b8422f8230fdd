//! Searching a sequence for the first element with a property.

use vstd::prelude::*;

verus! {

/// The index of the first element of `s` that satisfies `pred`, or
/// `s.len()` if none does.
pub open spec fn first_index<T>(s: Seq<T>, pred: spec_fn(T) -> bool) -> int
    decreases s.len(),
{
    if s.len() == 0 {
        0
    } else if pred(s[0]) {
        0
    } else {
        1 + first_index(s.drop_first(), pred)
    }
}

/// `first_index` is in range, points at an element that satisfies the
/// predicate if it points at any, and skips none.
pub proof fn lemma_first_index<T>(s: Seq<T>, pred: spec_fn(T) -> bool)
    ensures
        0 <= first_index(s, pred) <= s.len(),
        first_index(s, pred) < s.len() ==> pred(s[first_index(s, pred)]),
        forall|j: int| 0 <= j < first_index(s, pred) ==> !pred(#[trigger] s[j]),
    decreases s.len(),
{
    if s.len() == 0 {
    } else if pred(s[0]) {
    } else {
        let rest = s.drop_first();
        lemma_first_index(rest, pred);
        let k = first_index(rest, pred);
        assert forall|j: int| 0 <= j < 1 + k implies !pred(#[trigger] s[j]) by {
            if j > 0 {
                assert(s[j] == rest[j - 1]);
            }
        }
        if k < rest.len() {
            assert(s[1 + k] == rest[k]);
        }
    }
}

/// An index whose element satisfies the predicate, with none before it
/// that does, is the first index.
pub proof fn lemma_first_index_is<T>(s: Seq<T>, pred: spec_fn(T) -> bool, i: int)
    requires
        0 <= i <= s.len(),
        i < s.len() ==> pred(s[i]),
        forall|j: int| 0 <= j < i ==> !pred(#[trigger] s[j]),
    ensures
        first_index(s, pred) == i,
{
    lemma_first_index(s, pred);
    let k = first_index(s, pred);
    if k < i {
        assert(!pred(s[k]));
    } else if k > i {
        assert(!pred(s[i]));
    }
}

} // verus!
