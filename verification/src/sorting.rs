//! Sorting by name in natural order. The sort is stable: items of one name
//! keep the order in which they came.

use crate::natural::{
    compute_all_digits, digit_sum, lemma_natural_less_total, lemma_natural_not_after_transitive,
    natural_less, weighed_less,
};
use vstd::multiset::*;
use vstd::prelude::*;
use vstd::seq_lib::*;

verus! {

/// Something that is listed under a name.
pub trait Named {
    /// The name, as mathematical text.
    spec fn name_text(&self) -> Seq<char>;

    /// The name.
    fn name(&self) -> (name: &str)
        ensures
            name@ == self.name_text(),
    ;
}

/// The function that gives each item its name.
pub open spec fn name_key<T: Named>() -> spec_fn(T) -> Seq<char> {
    |item: T| item.name_text()
}

/// The views of a sequence of items.
pub open spec fn views<T: View>(items: Seq<T>) -> Seq<T::V> {
    items.map_values(|item: T| item.view())
}

/// Whether no name in the sequence comes before an earlier one.
pub open spec fn in_natural_order(names: Seq<Seq<char>>) -> bool {
    forall|i: int, j: int|
        0 <= i < j < names.len() ==> !natural_less(#[trigger] names[j], #[trigger] names[i])
}

/// The test for having a given name.
pub open spec fn has_name<V>(name_of: spec_fn(V) -> Seq<char>, name: Seq<char>) -> spec_fn(
    V,
) -> bool {
    |item: V| name_of(item) == name
}

/// The items of one name, in the order in which they stand.
pub open spec fn group<V>(items: Seq<V>, name_of: spec_fn(V) -> Seq<char>, name: Seq<char>) -> Seq<
    V,
> {
    items.filter(has_name(name_of, name))
}

/// Whether `sorted` is `items` sorted by name: its names are in natural order,
/// and under every name it lists the same items as `items`, in the same order.
/// Only one sequence is that.
pub open spec fn is_natural_sort<V>(
    sorted: Seq<V>,
    items: Seq<V>,
    name_of: spec_fn(V) -> Seq<char>,
) -> bool {
    &&& in_natural_order(sorted.map_values(name_of))
    &&& forall|name: Seq<char>| #[trigger]
        group(sorted, name_of, name) == group(items, name_of, name)
}

/// An item occurs in a sequence as often as among the items of its name.
proof fn lemma_count_in_group<V>(items: Seq<V>, name_of: spec_fn(V) -> Seq<char>, item: V)
    ensures
        items.to_multiset().count(item) == group(items, name_of, name_of(item)).to_multiset().count(
            item,
        ),
    decreases items.len(),
{
    broadcast use group_multiset_axioms;

    let same = has_name(name_of, name_of(item));
    if items.len() == 0 {
        reveal(Seq::filter);
        assert(items.filter(same) =~= items);
    } else {
        let rest = items.drop_last();
        let last = items.last();
        assert(items =~= rest.push(last));
        lemma_count_in_group(rest, name_of, item);
        to_multiset_build(rest, last);
        rest.lemma_filter_push(last, same);
        if same(last) {
            to_multiset_build(rest.filter(same), last);
        }
    }
}

/// A sorted sequence is a rearrangement of what was sorted: every item occurs
/// as often in the one as in the other.
pub proof fn lemma_natural_sort_rearranges<V>(
    sorted: Seq<V>,
    items: Seq<V>,
    name_of: spec_fn(V) -> Seq<char>,
)
    requires
        is_natural_sort(sorted, items, name_of),
    ensures
        sorted.to_multiset() == items.to_multiset(),
        sorted.len() == items.len(),
{
    assert forall|item: V| sorted.to_multiset().count(item) == items.to_multiset().count(
        item,
    ) by {
        lemma_count_in_group(sorted, name_of, item);
        lemma_count_in_group(items, name_of, item);
        assert(group(sorted, name_of, name_of(item)) == group(items, name_of, name_of(item)));
    }
    assert(sorted.to_multiset() =~= items.to_multiset());
    to_multiset_len(sorted);
    to_multiset_len(items);
}

/// Two sequences in natural order that list the same items under every name
/// are the same sequence.
proof fn lemma_same_groups_same_sequence<V>(
    first: Seq<V>,
    second: Seq<V>,
    name_of: spec_fn(V) -> Seq<char>,
)
    requires
        in_natural_order(first.map_values(name_of)),
        in_natural_order(second.map_values(name_of)),
        forall|name: Seq<char>| #[trigger]
            group(first, name_of, name) == group(second, name_of, name),
    ensures
        first == second,
    decreases first.len(),
{
    lemma_natural_sort_rearranges(first, second, name_of);
    if first.len() == 0 {
        assert(first =~= second);
    } else {
        let x = first.last();
        let y = second.last();
        let first_names = first.map_values(name_of);
        let second_names = second.map_values(name_of);
        let last = first.len() - 1;
        to_multiset_contains(first, x);
        to_multiset_contains(second, x);
        to_multiset_contains(first, y);
        to_multiset_contains(second, y);
        assert(first.contains(x));
        assert(second.contains(y));
        let j = choose|j: int| 0 <= j < second.len() && second[j] == x;
        let k = choose|k: int| 0 <= k < first.len() && first[k] == y;
        assert(!natural_less(name_of(y), name_of(x))) by {
            if j < last {
                assert(!natural_less(second_names[last], second_names[j]));
            } else {
                lemma_natural_less_total(name_of(x), name_of(x));
            }
        }
        assert(!natural_less(name_of(x), name_of(y))) by {
            if k < last {
                assert(!natural_less(first_names[last], first_names[k]));
            } else {
                lemma_natural_less_total(name_of(y), name_of(y));
            }
        }
        lemma_natural_less_total(name_of(x), name_of(y));
        assert(name_of(x) == name_of(y));
        let shorter_first = first.drop_last();
        let shorter_second = second.drop_last();
        assert(first =~= shorter_first.push(x));
        assert(second =~= shorter_second.push(y));
        assert forall|name: Seq<char>| #[trigger]
            group(shorter_first, name_of, name) == group(shorter_second, name_of, name) by {
            let same = has_name(name_of, name);
            shorter_first.lemma_filter_push(x, same);
            shorter_second.lemma_filter_push(y, same);
            assert(group(first, name_of, name) == group(second, name_of, name));
            if same(x) {
                assert(shorter_first.filter(same).push(x).drop_last() =~= shorter_first.filter(
                    same,
                ));
                assert(shorter_second.filter(same).push(y).drop_last() =~= shorter_second.filter(
                    same,
                ));
            }
        }
        assert(x == y) by {
            let same = has_name(name_of, name_of(x));
            shorter_first.lemma_filter_push(x, same);
            shorter_second.lemma_filter_push(y, same);
            assert(group(first, name_of, name_of(x)) == group(second, name_of, name_of(x)));
            assert(shorter_first.filter(same).push(x).last() == x);
            assert(shorter_second.filter(same).push(y).last() == y);
        }
        assert(shorter_first.map_values(name_of) =~= first_names.drop_last());
        assert(shorter_second.map_values(name_of) =~= second_names.drop_last());
        assert(in_natural_order(first_names.drop_last())) by {
            assert forall|i: int, j: int|
                0 <= i < j < first_names.drop_last().len() implies !natural_less(
                #[trigger] first_names.drop_last()[j],
                #[trigger] first_names.drop_last()[i],
            ) by {
                assert(!natural_less(first_names[j], first_names[i]));
            }
        }
        assert(in_natural_order(second_names.drop_last())) by {
            assert forall|i: int, j: int|
                0 <= i < j < second_names.drop_last().len() implies !natural_less(
                #[trigger] second_names.drop_last()[j],
                #[trigger] second_names.drop_last()[i],
            ) by {
                assert(!natural_less(second_names[j], second_names[i]));
            }
        }
        lemma_same_groups_same_sequence(shorter_first, shorter_second, name_of);
    }
}

/// Sorting by name has one outcome only: whatever two sorts of one sequence
/// return, they return the same.
pub proof fn lemma_natural_sort_is_unique<V>(
    first: Seq<V>,
    second: Seq<V>,
    items: Seq<V>,
    name_of: spec_fn(V) -> Seq<char>,
)
    requires
        is_natural_sort(first, items, name_of),
        is_natural_sort(second, items, name_of),
    ensures
        first == second,
{
    assert forall|name: Seq<char>| #[trigger]
        group(first, name_of, name) == group(second, name_of, name) by {
        assert(group(first, name_of, name) == group(items, name_of, name));
        assert(group(second, name_of, name) == group(items, name_of, name));
    }
    lemma_same_groups_same_sequence(first, second, name_of);
}

/// Sorting the items sorts their views, where an item's name can be read off
/// its view.
pub proof fn lemma_natural_sort_of_views<T: View>(
    sorted: Seq<T>,
    items: Seq<T>,
    name_of: spec_fn(T) -> Seq<char>,
    view_name_of: spec_fn(T::V) -> Seq<char>,
)
    requires
        forall|item: T| #[trigger] name_of(item) == view_name_of(item.view()),
        is_natural_sort(sorted, items, name_of),
    ensures
        is_natural_sort(views(sorted), views(items), view_name_of),
{
    assert(views(sorted).map_values(view_name_of) =~= sorted.map_values(name_of));
    assert forall|name: Seq<char>| #[trigger]
        group(views(sorted), view_name_of, name) == group(views(items), view_name_of, name) by {
        let same = has_name(name_of, name);
        let view_same = has_name(view_name_of, name);
        assert(group(sorted, name_of, name) == group(items, name_of, name));
        lemma_filter_view_commute(sorted, same, view_same);
        lemma_filter_view_commute(items, same, view_same);
    }
}

/// Putting an item into a sorted sequence, behind the items that come before
/// it and in front of all others, gives the sort of the sequence with the item
/// in front.
proof fn lemma_insert_keeps_sort<V>(
    sorted: Seq<V>,
    items: Seq<V>,
    name_of: spec_fn(V) -> Seq<char>,
    item: V,
    at: int,
)
    requires
        is_natural_sort(sorted, items, name_of),
        0 <= at <= sorted.len(),
        forall|i: int| 0 <= i < at ==> natural_less(name_of(#[trigger] sorted[i]), name_of(item)),
        at < sorted.len() ==> !natural_less(name_of(sorted[at]), name_of(item)),
    ensures
        is_natural_sort(sorted.insert(at, item), seq![item] + items, name_of),
{
    let longer = sorted.insert(at, item);
    let names = sorted.map_values(name_of);
    let longer_names = longer.map_values(name_of);
    assert forall|i: int, j: int| 0 <= i < j < longer_names.len() implies !natural_less(
        #[trigger] longer_names[j],
        #[trigger] longer_names[i],
    ) by {
        if j == at {
            assert(longer[i] == sorted[i]);
            lemma_natural_less_total(name_of(sorted[i]), name_of(item));
        } else if i == at {
            assert(longer[j] == sorted[j - 1]);
            assert(names[at] == name_of(sorted[at]));
            assert(names[j - 1] == name_of(sorted[j - 1]));
            if j - 1 > at {
                assert(!natural_less(names[j - 1], names[at]));
            } else {
                lemma_natural_less_total(names[at], names[at]);
            }
            lemma_natural_not_after_transitive(name_of(item), names[at], names[j - 1]);
        } else {
            let i0 = if i < at {
                i
            } else {
                i - 1
            };
            let j0 = if j < at {
                j
            } else {
                j - 1
            };
            assert(longer[i] == sorted[i0]);
            assert(longer[j] == sorted[j0]);
            assert(!natural_less(names[j0], names[i0]));
        }
    }
    assert forall|name: Seq<char>| #[trigger]
        group(longer, name_of, name) == group(seq![item] + items, name_of, name) by {
        let same = has_name(name_of, name);
        let before = sorted.take(at);
        let after = sorted.skip(at);
        assert(sorted =~= before + after);
        assert(longer =~= before + seq![item] + after);
        assert(group(sorted, name_of, name) == group(items, name_of, name));
        Seq::filter_distributes_over_add(before, after, same);
        Seq::filter_distributes_over_add(before, seq![item], same);
        Seq::filter_distributes_over_add(before + seq![item], after, same);
        Seq::filter_distributes_over_add(seq![item], items, same);
        if same(item) {
            assert forall|i: int| 0 <= i < before.len() implies !same(#[trigger] before[i]) by {
                assert(before[i] == sorted[i]);
                lemma_natural_less_total(name_of(sorted[i]), name_of(item));
            }
            before.lemma_all_neg_filter_empty(same);
            assert(before.filter(same) =~= Seq::<V>::empty());
            assert(before.filter(same) + seq![item].filter(same) + after.filter(same) =~= seq![
                item,
            ].filter(same) + (before.filter(same) + after.filter(same)));
        } else {
            seq![item].lemma_all_neg_filter_empty(same);
            assert(seq![item].filter(same) =~= Seq::<V>::empty());
            assert(before.filter(same) + seq![item].filter(same) + after.filter(same) =~= seq![
                item,
            ].filter(same) + (before.filter(same) + after.filter(same)));
        }
    }
}

/// Sorts the items by name in natural order, keeping items of one name in the
/// order in which they came. Each name is weighed once.
pub fn sort_by_name<T: Named>(items: Vec<T>) -> (sorted: Vec<T>)
    ensures
        is_natural_sort(sorted@, items@, name_key::<T>()),
        sorted@.to_multiset() == items@.to_multiset(),
        sorted@.len() == items@.len(),
{
    let ghost name_of = name_key::<T>();
    let mut rest = items;
    let mut sorted: Vec<T> = Vec::new();
    let mut weights: Vec<u128> = Vec::new();
    proof {
        assert(items@.skip(items@.len() as int) =~= Seq::<T>::empty());
        assert(sorted@.map_values(name_of) =~= Seq::<Seq<char>>::empty());
    }
    while rest.len() > 0
        invariant
            name_of == name_key::<T>(),
            rest@.len() <= items@.len(),
            rest@ == items@.take(rest@.len() as int),
            weights@.len() == sorted@.len(),
            forall|i: int|
                0 <= i < sorted@.len() ==> #[trigger] weights@[i] == digit_sum(
                    sorted@[i].name_text(),
                ),
            is_natural_sort(sorted@, items@.skip(rest@.len() as int), name_of),
        decreases rest.len(),
    {
        let ghost left = rest@.len() as int;
        let item = rest.pop().unwrap();
        let weight = compute_all_digits(item.name());
        let mut at: usize = 0;
        while at < sorted.len() && weighed_less(
            weights[at],
            sorted[at].name(),
            weight,
            item.name(),
        )
            invariant
                at <= sorted@.len(),
                weights@.len() == sorted@.len(),
                weight == digit_sum(item.name_text()),
                forall|i: int|
                    0 <= i < sorted@.len() ==> #[trigger] weights@[i] == digit_sum(
                        sorted@[i].name_text(),
                    ),
                forall|i: int|
                    0 <= i < at ==> natural_less(
                        (#[trigger] sorted@[i]).name_text(),
                        item.name_text(),
                    ),
            decreases sorted@.len() - at,
        {
            at += 1;
        }
        proof {
            lemma_insert_keeps_sort(sorted@, items@.skip(left), name_of, item, at as int);
            assert(seq![item] + items@.skip(left) =~= items@.skip(left - 1));
            assert(rest@ =~= items@.take(left - 1));
        }
        sorted.insert(at, item);
        weights.insert(at, weight);
    }
    proof {
        assert(items@.skip(0) =~= items@);
        lemma_natural_sort_rearranges(sorted@, items@, name_of);
    }
    sorted
}

} // verus!
