//! Sequences without repetition, and facts about filtered sequences.

use vstd::prelude::*;

verus! {

/// The items of a sequence, each once, in the order in which they first occur.
pub open spec fn distinct<A>(items: Seq<A>) -> Seq<A>
    decreases items.len(),
{
    if items.len() == 0 {
        seq![]
    } else if items.drop_last().contains(items.last()) {
        distinct(items.drop_last())
    } else {
        distinct(items.drop_last()).push(items.last())
    }
}

/// The items of a sequence that are marked, in their order.
pub open spec fn marked<A>(items: Seq<A>, marks: Seq<bool>) -> Seq<A>
    decreases items.len(),
{
    if items.len() == 0 {
        seq![]
    } else if marks[items.len() - 1] {
        marked(items.drop_last(), marks).push(items.last())
    } else {
        marked(items.drop_last(), marks)
    }
}

/// A marked item is one of the items.
pub proof fn lemma_marked_members<A>(items: Seq<A>, marks: Seq<bool>, i: int)
    requires
        0 <= i < marked(items, marks).len(),
    ensures
        items.contains(marked(items, marks)[i]),
    decreases items.len(),
{
    let rest = items.drop_last();
    let kept = marked(rest, marks);
    if i < kept.len() {
        lemma_marked_members(rest, marks, i);
        let j = choose|j: int| 0 <= j < rest.len() && rest[j] == kept[i];
        assert(items[j] == kept[i]);
    } else {
        assert(items[items.len() - 1] == marked(items, marks)[i]);
    }
}

/// A sequence with an item at its end contains that item and what it contained before.
pub proof fn lemma_push_contains<A>(items: Seq<A>, item: A)
    ensures
        forall|a: A| #[trigger] items.push(item).contains(a) <==> items.contains(a) || a == item,
{
    assert forall|a: A| #[trigger] items.push(item).contains(a) <==> items.contains(a) || a
        == item by {
        if items.contains(a) {
            let k = choose|k: int| 0 <= k < items.len() && items[k] == a;
            assert(items.push(item)[k] == a);
        }
        assert(items.push(item)[items.len() as int] == item);
    }
}

/// `distinct` repeats nothing, and neither adds nor loses an item.
pub proof fn lemma_distinct<A>(items: Seq<A>)
    ensures
        distinct(items).no_duplicates(),
        forall|a: A| #[trigger] distinct(items).contains(a) <==> items.contains(a),
    decreases items.len(),
{
    if items.len() > 0 {
        let rest = items.drop_last();
        let last = items.last();
        lemma_distinct(rest);
        assert(items == rest.push(last));
        lemma_push_contains(rest, last);
        lemma_push_contains(distinct(rest), last);
        assert forall|i: int, j: int|
            0 <= i < distinct(items).len() && 0 <= j < distinct(items).len() && i
                != j implies distinct(items)[i] != distinct(items)[j] by {
            if i < distinct(rest).len() {
                assert(distinct(rest).contains(distinct(items)[i]));
            }
            if j < distinct(rest).len() {
                assert(distinct(rest).contains(distinct(items)[j]));
            }
        }
    }
}

/// An item at the end of a sequence is kept or dropped by `keep` alone.
pub proof fn lemma_filter_push<A>(items: Seq<A>, item: A, keep: spec_fn(A) -> bool)
    ensures
        items.push(item).filter(keep) == if keep(item) {
            items.filter(keep).push(item)
        } else {
            items.filter(keep)
        },
{
    reveal(Seq::filter);
    assert(items.push(item).drop_last() =~= items);
}

/// A filtered sequence contains what the sequence contains and `keep` keeps.
pub proof fn lemma_filter_members<A>(items: Seq<A>, keep: spec_fn(A) -> bool)
    ensures
        forall|a: A| #[trigger] items.filter(keep).contains(a) <==> items.contains(a) && keep(a),
    decreases items.len(),
{
    reveal(Seq::filter);
    if items.len() > 0 {
        let rest = items.drop_last();
        assert(items == rest.push(items.last()));
        lemma_filter_members(rest, keep);
        lemma_filter_push(rest, items.last(), keep);
        lemma_push_contains(rest, items.last());
        lemma_push_contains(rest.filter(keep), items.last());
    }
}

/// A filter that keeps every item changes nothing.
pub proof fn lemma_filter_all<A>(items: Seq<A>, keep: spec_fn(A) -> bool)
    requires
        forall|i: int| 0 <= i < items.len() ==> keep(#[trigger] items[i]),
    ensures
        items.filter(keep) == items,
    decreases items.len(),
{
    reveal(Seq::filter);
    if items.len() > 0 {
        lemma_filter_all(items.drop_last(), keep);
        assert(items == items.drop_last().push(items.last()));
    }
}

/// A filter that keeps no item leaves nothing.
pub proof fn lemma_filter_none<A>(items: Seq<A>, keep: spec_fn(A) -> bool)
    requires
        forall|i: int| 0 <= i < items.len() ==> !keep(#[trigger] items[i]),
    ensures
        items.filter(keep) == Seq::<A>::empty(),
    decreases items.len(),
{
    reveal(Seq::filter);
    if items.len() > 0 {
        lemma_filter_none(items.drop_last(), keep);
    }
}

/// The places of what a filter keeps: they go up, and none is left out.
pub proof fn lemma_filter_places<A>(items: Seq<A>, keep: spec_fn(A) -> bool) -> (at: Seq<int>)
    ensures
        at.len() == items.filter(keep).len(),
        forall|j: int, k: int| 0 <= j < k < at.len() ==> #[trigger] at[j] < #[trigger] at[k],
        forall|i: int| #[trigger]
            at.contains(i) <==> 0 <= i < items.len() && keep(items[i]),
        forall|j: int|
            0 <= j < at.len() ==> 0 <= #[trigger] at[j] < items.len() && items.filter(keep)[j]
                == items[at[j]],
    decreases items.len(),
{
    reveal(Seq::filter);
    if items.len() == 0 {
        seq![]
    } else {
        let rest = items.drop_last();
        let last = items.len() - 1;
        let before = lemma_filter_places(rest, keep);
        let at = if keep(items.last()) {
            before.push(last)
        } else {
            before
        };
        lemma_push_contains(before, last);
        assert forall|j: int| 0 <= j < at.len() implies 0 <= #[trigger] at[j] < items.len()
            && items.filter(keep)[j] == items[at[j]] by {
            if j < before.len() {
                assert(at[j] == before[j]);
                assert(rest.filter(keep)[j] == rest[before[j]]);
            }
        }
        assert forall|j: int, k: int| 0 <= j < k < at.len() implies #[trigger] at[j]
            < #[trigger] at[k] by {
            assert(at[j] == before[j]);
            if k < before.len() {
                assert(at[k] == before[k]);
            }
        }
        at
    }
}

/// A sequence that repeats nothing is its own `distinct`.
pub proof fn lemma_distinct_of_distinct<A>(items: Seq<A>)
    requires
        items.no_duplicates(),
    ensures
        distinct(items) == items,
    decreases items.len(),
{
    if items.len() > 0 {
        let rest = items.drop_last();
        lemma_distinct_of_distinct(rest);
        if rest.contains(items.last()) {
            let k = choose|k: int| 0 <= k < rest.len() && rest[k] == items.last();
            assert(items[k] == items[items.len() - 1]);
        }
        assert(items == rest.push(items.last()));
    }
}

/// Two sequences contain together what one or the other contains.
pub proof fn lemma_add_contains<A>(a: Seq<A>, b: Seq<A>)
    ensures
        forall|item: A| #[trigger] (a + b).contains(item) <==> a.contains(item) || b.contains(item),
{
    assert forall|item: A| #[trigger] (a + b).contains(item) <==> a.contains(item) || b.contains(
        item,
    ) by {
        if a.contains(item) {
            let k = choose|k: int| 0 <= k < a.len() && a[k] == item;
            assert((a + b)[k] == item);
        }
        if b.contains(item) {
            let k = choose|k: int| 0 <= k < b.len() && b[k] == item;
            assert((a + b)[a.len() + k] == item);
        }
    }
}

/// Repetitions within two sequences may be dropped before those across them.
pub proof fn lemma_distinct_add<A>(a: Seq<A>, b: Seq<A>)
    ensures
        distinct(a + b) == distinct(distinct(a) + distinct(b)),
    decreases b.len(),
{
    lemma_distinct(a);
    if b.len() == 0 {
        lemma_distinct_of_distinct(distinct(a));
        assert(a + b == a);
        assert(distinct(a) + distinct(b) == distinct(a));
    } else {
        let rest = b.drop_last();
        let last = b.last();
        lemma_distinct_add(a, rest);
        lemma_distinct(rest);
        lemma_add_contains(a, rest);
        lemma_add_contains(distinct(a), distinct(rest));
        assert((a + b).drop_last() == a + rest);
        assert((a + b).last() == last);
        if !rest.contains(last) {
            let shorter = distinct(a) + distinct(rest);
            assert(distinct(a) + distinct(b) == shorter.push(last));
            assert(shorter.push(last).drop_last() == shorter);
        }
    }
}

} // verus!
