//! Sums over sequences, and how they move under the edits that a ledger
//! makes to its lists.

use vstd::prelude::*;

verus! {

/// The sum of `value` over the items of `s`.
pub open spec fn total<T>(s: Seq<T>, value: spec_fn(T) -> nat) -> nat
    decreases s.len(),
{
    if s.len() == 0 {
        0
    } else {
        total(s.drop_last(), value) + value(s.last())
    }
}

/// A new last item adds its value.
pub proof fn lemma_total_push<T>(s: Seq<T>, value: spec_fn(T) -> nat, item: T)
    ensures
        total(s.push(item), value) == total(s, value) + value(item),
{
    assert(s.push(item).drop_last() =~= s);
}

/// An item replaced gives up its value for that of the new one.
pub proof fn lemma_total_update<T>(s: Seq<T>, value: spec_fn(T) -> nat, i: int, item: T)
    requires
        0 <= i < s.len(),
    ensures
        total(s.update(i, item), value) + value(s[i]) == total(s, value) + value(item),
    decreases s.len(),
{
    if i == s.len() - 1 {
        assert(s.update(i, item).drop_last() =~= s.drop_last());
    } else {
        lemma_total_update(s.drop_last(), value, i, item);
        assert(s.update(i, item).drop_last() =~= s.drop_last().update(i, item));
    }
}

/// An item taken out takes its value with it.
pub proof fn lemma_total_remove<T>(s: Seq<T>, value: spec_fn(T) -> nat, i: int)
    requires
        0 <= i < s.len(),
    ensures
        total(s.remove(i), value) + value(s[i]) == total(s, value),
    decreases s.len(),
{
    if i == s.len() - 1 {
        assert(s.remove(i) =~= s.drop_last());
    } else {
        lemma_total_remove(s.drop_last(), value, i);
        assert(s.remove(i).drop_last() =~= s.drop_last().remove(i));
        assert(s.remove(i).last() == s.last());
    }
}

/// No item is worth more than the whole.
pub proof fn lemma_total_bounds<T>(s: Seq<T>, value: spec_fn(T) -> nat, i: int)
    requires
        0 <= i < s.len(),
    ensures
        value(s[i]) <= total(s, value),
    decreases s.len(),
{
    if i < s.len() - 1 {
        lemma_total_bounds(s.drop_last(), value, i);
    }
}

} // verus!
