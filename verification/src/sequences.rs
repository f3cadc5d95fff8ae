//! Facts about filtered sequences and sequences without repetition.
use vstd::prelude::*;

verus! {

/// Filtering a prefix one element longer.
pub proof fn filter_next<A>(s: Seq<A>, i: int, pred: spec_fn(A) -> bool)
    requires
        0 <= i < s.len(),
    ensures
        s.take(i + 1).filter(pred) == if pred(s[i]) {
            s.take(i).filter(pred).push(s[i])
        } else {
            s.take(i).filter(pred)
        },
{
    reveal(Seq::filter);
    assert(s.take(i + 1).drop_last() =~= s.take(i));
    assert(s.take(i + 1).last() == s[i]);
}

/// Filtering nothing gives nothing.
pub proof fn filter_none<A>(s: Seq<A>, pred: spec_fn(A) -> bool)
    ensures
        s.take(0).filter(pred) == Seq::<A>::empty(),
{
    reveal(Seq::filter);
}

/// As many items of a sequence without repetition pass a test as there are
/// among the set of its items.
pub proof fn filtered_count<A>(s: Seq<A>, pred: spec_fn(A) -> bool)
    requires
        s.no_duplicates(),
    ensures
        s.filter(pred).len() == s.to_set().filter(pred).len(),
        s.filter(pred).no_duplicates(),
        s.filter(pred).to_set() == s.to_set().filter(pred),
{
    let kept = s.filter(pred);
    filtered_distinct(s, pred);
    assert forall|a: A| kept.to_set().contains(a) <==> s.to_set().filter(pred).contains(a) by {
        if kept.contains(a) {
            s.lemma_filter_contains_rev(pred, a);
            let i = choose|i: int| 0 <= i < kept.len() && kept[i] == a;
            s.lemma_filter_pred(pred, i);
        }
        if s.contains(a) && pred(a) {
            let i = choose|i: int| 0 <= i < s.len() && s[i] == a;
            s.lemma_filter_contains(pred, i);
        }
    }
    assert(kept.to_set() =~= s.to_set().filter(pred));
    kept.unique_seq_to_set();
}

/// A sequence without its repetitions: each item where it occurs first.
pub open spec fn first_occurrences<A>(s: Seq<A>) -> Seq<A>
    decreases s.len(),
{
    if s.len() == 0 {
        Seq::empty()
    } else {
        with_item(first_occurrences(s.drop_last()), s.last())
    }
}

/// A sequence with an item at its end, unless it is there already.
pub open spec fn with_item<A>(s: Seq<A>, item: A) -> Seq<A> {
    if s.contains(item) {
        s
    } else {
        s.push(item)
    }
}

/// True when `i` is where an item first occurs in a sequence.
pub open spec fn occurs_first<A>(s: Seq<A>, item: A, i: int) -> bool {
    &&& 0 <= i < s.len()
    &&& s[i] == item
    &&& forall|j: int| 0 <= j < i ==> #[trigger] s[j] != item
}

/// A sequence without its repetitions has the same items, each once, in the order
/// in which they first occur.
pub proof fn first_occurrences_in_order<A>(s: Seq<A>)
    ensures
        first_occurrences(s).no_duplicates(),
        forall|item: A| #[trigger] first_occurrences(s).contains(item) <==> s.contains(item),
        forall|a: int, b: int, i: int, j: int|
            0 <= a < b < first_occurrences(s).len() && #[trigger] occurs_first(
                s,
                first_occurrences(s)[a],
                i,
            ) && #[trigger] occurs_first(s, first_occurrences(s)[b], j) ==> i < j,
    decreases s.len(),
{
    if s.len() > 0 {
        let shorter = s.drop_last();
        let n = shorter.len() as int;
        let earlier = first_occurrences(shorter);
        let items = first_occurrences(s);
        first_occurrences_in_order(shorter);
        assert forall|item: A| #[trigger] items.contains(item) <==> s.contains(item) by {
            if items.contains(item) {
                if earlier.contains(item) {
                    let i = choose|i: int| 0 <= i < n && shorter[i] == item;
                    assert(s[i] == item);
                } else {
                    assert(s[n] == item);
                }
            }
            if s.contains(item) {
                let i = choose|i: int| 0 <= i < s.len() && s[i] == item;
                if i < n {
                    assert(shorter[i] == item);
                    assert(earlier.contains(item));
                    let k = choose|k: int| 0 <= k < earlier.len() && earlier[k] == item;
                    assert(items[k] == item);
                } else if !earlier.contains(item) {
                    assert(items[earlier.len() as int] == item);
                }
            }
        }
        assert forall|a: int, b: int, i: int, j: int|
            0 <= a < b < items.len() && #[trigger] occurs_first(s, items[a], i)
                && #[trigger] occurs_first(s, items[b], j) implies i < j by {
            first_is_earlier(s, earlier, a, i);
            if b < earlier.len() {
                first_is_earlier(s, earlier, b, j);
            } else if j < n {
                assert(shorter[j] == s.last());
                assert(earlier.contains(s.last()));
            }
        }
    }
}

/// A sequence without repetition has nothing to lose.
pub proof fn distinct_items_are_kept<A>(s: Seq<A>)
    requires
        s.no_duplicates(),
    ensures
        first_occurrences(s) == s,
    decreases s.len(),
{
    if s.len() > 0 {
        let shorter = s.drop_last();
        assert forall|i: int, j: int|
            0 <= i < shorter.len() && 0 <= j < shorter.len() && i != j implies shorter[i]
            != shorter[j] by {
            assert(s[i] != s[j]);
        }
        distinct_items_are_kept(shorter);
        if shorter.contains(s.last()) {
            let k = choose|k: int| 0 <= k < shorter.len() && shorter[k] == s.last();
            assert(s[k] == s[s.len() - 1]);
        }
        assert(shorter.push(s.last()) =~= s);
    }
}

/// An item of a prefix first occurs in it.
proof fn first_is_earlier<A>(s: Seq<A>, earlier: Seq<A>, a: int, i: int)
    requires
        s.len() > 0,
        forall|item: A| #[trigger] earlier.contains(item) <==> s.drop_last().contains(item),
        0 <= a < earlier.len(),
        occurs_first(s, earlier[a], i),
    ensures
        occurs_first(s.drop_last(), earlier[a], i),
{
    let shorter = s.drop_last();
    assert(earlier.contains(earlier[a]));
    let p = choose|p: int| 0 <= p < shorter.len() && shorter[p] == earlier[a];
    assert(s[p] == earlier[a]);
    assert(i <= p);
    assert forall|k: int| 0 <= k < i implies #[trigger] shorter[k] != earlier[a] by {
        assert(s[k] != earlier[a]);
    }
}

/// Two tests that agree on every item of a sequence keep the same ones.
pub proof fn filters_agree<A>(s: Seq<A>, p: spec_fn(A) -> bool, q: spec_fn(A) -> bool)
    requires
        forall|k: int| 0 <= k < s.len() ==> p(#[trigger] s[k]) == q(s[k]),
    ensures
        s.filter(p) == s.filter(q),
    decreases s.len(),
{
    reveal(Seq::filter);
    if s.len() > 0 {
        assert forall|k: int| 0 <= k < s.drop_last().len() implies p(
            #[trigger] s.drop_last()[k],
        ) == q(s.drop_last()[k]) by {
            assert(p(s[k]) == q(s[k]));
        }
        filters_agree(s.drop_last(), p, q);
        assert(p(s[s.len() - 1]) == q(s[s.len() - 1]));
    }
}

/// An item of a sequence without repetition has one position.
pub proof fn position_is_unique<A>(s: Seq<A>, i: int)
    requires
        s.no_duplicates(),
        0 <= i < s.len(),
    ensures
        s.index_of(s[i]) == i,
{
    let k = choose|k: int| 0 <= k < s.len() && s[k] == s[i];
    assert(0 <= i < s.len() && s[i] == s[i]);
    assert(s[k] == s[i]);
}

/// Filtering brings no repetition in.
proof fn filtered_distinct<A>(s: Seq<A>, pred: spec_fn(A) -> bool)
    requires
        s.no_duplicates(),
    ensures
        s.filter(pred).no_duplicates(),
    decreases s.len(),
{
    reveal(Seq::filter);
    if s.len() > 0 {
        let rest = s.drop_last();
        filtered_distinct(rest, pred);
        if pred(s.last()) {
            let kept = rest.filter(pred);
            assert forall|i: int| 0 <= i < kept.len() implies kept[i] != s.last() by {
                rest.lemma_filter_contains_rev(pred, kept[i]);
                let j = choose|j: int| 0 <= j < rest.len() && rest[j] == kept[i];
                assert(s[j] == kept[i]);
            }
        }
    }
}

} // verus!
