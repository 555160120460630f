//! Sorting.

use crate::paths::compare_bytes;
use crate::paths::lemma_precedes_asymmetric;
use crate::paths::lemma_precedes_total;
use crate::paths::lemma_precedes_transitive;
use crate::paths::precedes;
use crate::paths::Collation;
use crate::paths::PathOrder;
use vstd::multiset::Multiset;
use vstd::prelude::*;

verus! {

/// Something that can be put in order.
pub trait Sortable: Sized {
    /// `self` has to stand before `other`.
    spec fn stands_before(&self, other: &Self) -> bool;

    /// Of two at most one has to stand before the other.
    proof fn asymmetric(first: &Self, second: &Self)
        requires
            first.stands_before(second),
        ensures
            !second.stands_before(first),
    ;

    /// What need not stand before what need not stand before a third need not
    /// stand before the third.
    proof fn transitive(first: &Self, second: &Self, third: &Self)
        requires
            !second.stands_before(first),
            !third.stands_before(second),
        ensures
            !third.stands_before(first),
    ;

    /// Whether `self` has to stand before `other`.
    fn comes_before(&self, other: &Self) -> (before: bool)
        ensures
            before == self.stands_before(other),
    ;
}

/// None has to stand before one that it follows.
pub open spec fn is_sorted<T: Sortable>(items: Seq<T>) -> bool {
    forall|i: int, j: int|
        #![trigger items[i], items[j]]
        0 <= i < j < items.len() ==> !items[j].stands_before(&items[i])
}

/// The items of two sorted lists, as one sorted list.
fn merge<T: Sortable>(left: Vec<T>, right: Vec<T>) -> (merged: Vec<T>)
    requires
        is_sorted(left@),
        is_sorted(right@),
    ensures
        is_sorted(merged@),
        merged@.to_multiset() == left@.to_multiset().add(right@.to_multiset()),
{
    broadcast use vstd::seq_lib::group_to_multiset_ensures;
    let ghost all = left@.to_multiset().add(right@.to_multiset());
    let mut left = left;
    let mut right = right;
    // The largest items come first here; the list is turned round at the end.
    let mut falling: Vec<T> = Vec::new();
    while left.len() > 0 || right.len() > 0
        invariant
            is_sorted(left@),
            is_sorted(right@),
            forall|i: int, j: int|
                #![trigger falling@[i], falling@[j]]
                0 <= i < j < falling@.len() ==> !falling@[i].stands_before(&falling@[j]),
            forall|i: int, j: int|
                #![trigger falling@[i], left@[j]]
                0 <= i < falling@.len() && 0 <= j < left@.len() ==> !falling@[i].stands_before(
                    &left@[j],
                ),
            forall|i: int, j: int|
                #![trigger falling@[i], right@[j]]
                0 <= i < falling@.len() && 0 <= j < right@.len() ==> !falling@[i].stands_before(
                    &right@[j],
                ),
            all == left@.to_multiset().add(right@.to_multiset()).add(falling@.to_multiset()),
        decreases left@.len() + right@.len(),
    {
        broadcast use vstd::seq_lib::group_to_multiset_ensures;
        let ghost left_before = left@;
        let ghost right_before = right@;
        let ghost falling_before = falling@;
        let from_left: bool = if right.len() == 0 {
            true
        } else if left.len() == 0 {
            false
        } else {
            right[right.len() - 1].comes_before(&left[left.len() - 1])
        };
        if from_left {
            let ghost top = left@.last();
            proof {
                assert forall|j: int| 0 <= j < right_before.len() implies !top.stands_before(
                    &#[trigger] right_before[j],
                ) by {
                    T::asymmetric(&right_before.last(), &top);
                    if j < right_before.len() - 1 {
                        assert(!right_before[right_before.len() - 1].stands_before(
                            &right_before[j],
                        ));
                        T::transitive(&right_before[j], &right_before.last(), &top);
                    }
                }
                assert forall|j: int| 0 <= j < left_before.len() - 1 implies !top.stands_before(
                    &#[trigger] left_before[j],
                ) by {
                    assert(!left_before[left_before.len() - 1].stands_before(&left_before[j]));
                }
            }
            if let Some(item) = left.pop() {
                falling.push(item);
                proof {
                    assert(left_before =~= left@.push(item));
                    assert(falling@ =~= falling_before.push(item));
                    lemma_moved(left@, item, right@, falling_before);
                }
            }
        } else {
            let ghost top = right@.last();
            proof {
                assert forall|j: int| 0 <= j < left_before.len() implies !top.stands_before(
                    &#[trigger] left_before[j],
                ) by {
                    if j < left_before.len() - 1 {
                        assert(!left_before[left_before.len() - 1].stands_before(
                            &left_before[j],
                        ));
                        T::transitive(&left_before[j], &left_before.last(), &top);
                    }
                }
                assert forall|j: int| 0 <= j < right_before.len() - 1 implies !top.stands_before(
                    &#[trigger] right_before[j],
                ) by {
                    assert(!right_before[right_before.len() - 1].stands_before(&right_before[j]));
                }
            }
            if let Some(item) = right.pop() {
                falling.push(item);
                proof {
                    assert(right_before =~= right@.push(item));
                    assert(falling@ =~= falling_before.push(item));
                    lemma_moved(right@, item, left@, falling_before);
                    assert(left@.to_multiset().add(right@.to_multiset()) =~= right@.to_multiset().add(
                        left@.to_multiset(),
                    ));
                    assert(left@.to_multiset().add(right_before.to_multiset())
                        =~= right_before.to_multiset().add(left@.to_multiset()));
                }
            }
        }
    }
    proof {
        assert(left@.to_multiset() =~= Multiset::empty());
        assert(right@.to_multiset() =~= Multiset::empty());
        assert(all =~= falling@.to_multiset());
    }
    turned(falling)
}

/// Moving an item from one list to another keeps what the lists hold together.
proof fn lemma_moved<T>(rest: Seq<T>, item: T, other: Seq<T>, target: Seq<T>)
    ensures
        rest.push(item).to_multiset().add(other.to_multiset()).add(target.to_multiset())
            == rest.to_multiset().add(other.to_multiset()).add(target.push(item).to_multiset()),
{
    broadcast use vstd::seq_lib::group_to_multiset_ensures;
    assert(rest.push(item).to_multiset().add(other.to_multiset()).add(target.to_multiset())
        =~= rest.to_multiset().add(other.to_multiset()).add(target.push(item).to_multiset()));
}

/// The list from its end to its start.
fn turned<T: Sortable>(falling: Vec<T>) -> (rising: Vec<T>)
    requires
        forall|i: int, j: int|
            #![trigger falling@[i], falling@[j]]
            0 <= i < j < falling@.len() ==> !falling@[i].stands_before(&falling@[j]),
    ensures
        is_sorted(rising@),
        rising@.to_multiset() == falling@.to_multiset(),
{
    broadcast use vstd::seq_lib::group_to_multiset_ensures;
    let ghost given = falling@;
    let mut rest = falling;
    let mut rising: Vec<T> = Vec::new();
    while rest.len() > 0
        invariant
            rest@.len() <= given.len(),
            rest@ == given.take(rest@.len() as int),
            rising@.len() == given.len() - rest@.len(),
            forall|i: int| 0 <= i < rising@.len() ==> rising@[i] == given[given.len() - 1 - i],
            given.to_multiset() == rest@.to_multiset().add(rising@.to_multiset()),
        decreases rest@.len(),
    {
        broadcast use vstd::seq_lib::group_to_multiset_ensures;
        let ghost rest_before = rest@;
        let ghost rising_before = rising@;
        if let Some(item) = rest.pop() {
            rising.push(item);
            proof {
                assert(rest_before =~= rest@.push(item));
                assert(rest@ =~= given.take(rest@.len() as int));
                assert(rest_before.to_multiset().add(rising_before.to_multiset())
                    =~= rest@.to_multiset().add(rising@.to_multiset()));
            }
        }
    }
    proof {
        assert(rest@.to_multiset() =~= Multiset::empty());
        assert(given.to_multiset() =~= rising@.to_multiset());
        assert forall|i: int, j: int|
            #![trigger rising@[i], rising@[j]]
            0 <= i < j < rising@.len() implies !rising@[j].stands_before(&rising@[i]) by {
            assert(!given[given.len() - 1 - j].stands_before(&given[given.len() - 1 - i]));
        }
    }
    rising
}

/// The items in order.
pub fn sort<T: Sortable>(items: Vec<T>) -> (sorted: Vec<T>)
    ensures
        is_sorted(sorted@),
        sorted@.to_multiset() == items@.to_multiset(),
    decreases items@.len(),
{
    broadcast use vstd::seq_lib::group_to_multiset_ensures;
    if items.len() <= 1 {
        return items;
    }
    let ghost all = items@;
    let half: usize = items.len() / 2;
    let mut left = items;
    let right = left.split_off(half);
    proof {
        assert(all =~= left@ + right@);
        vstd::seq_lib::lemma_multiset_commutative(left@, right@);
    }
    merge(sort(left), sort(right))
}

impl Sortable for Vec<u8> {
    open spec fn stands_before(&self, other: &Self) -> bool {
        precedes(Collation::Plain, self@, other@)
    }

    proof fn asymmetric(first: &Self, second: &Self) {
        lemma_precedes_asymmetric(Collation::Plain, first@, second@);
    }

    proof fn transitive(first: &Self, second: &Self, third: &Self) {
        lemma_not_before_transitive(Collation::Plain, first@, second@, third@);
    }

    fn comes_before(&self, other: &Self) -> (before: bool) {
        match compare_bytes(Collation::Plain, self.as_slice(), other.as_slice()) {
            PathOrder::Less => true,
            _ => false,
        }
    }
}

/// Not coming after is transitive.
pub proof fn lemma_not_before_transitive(
    collation: Collation,
    first: Seq<u8>,
    second: Seq<u8>,
    third: Seq<u8>,
)
    requires
        !precedes(collation, second, first),
        !precedes(collation, third, second),
    ensures
        !precedes(collation, third, first),
{
    if precedes(collation, third, first) {
        lemma_precedes_total(collation, first, second);
        lemma_precedes_total(collation, second, third);
        if first == second {
        } else if second == third {
        } else {
            lemma_precedes_transitive(collation, first, second, third);
            lemma_precedes_asymmetric(collation, third, first);
        }
    }
}

/// What two lists of the same items are mapped to is the same items again.
pub proof fn lemma_mapped_items<A, B>(first: Seq<A>, second: Seq<A>, f: spec_fn(A) -> B)
    requires
        first.to_multiset() == second.to_multiset(),
    ensures
        first.map_values(f).to_multiset() == second.map_values(f).to_multiset(),
        first.len() == second.len(),
    decreases first.len(),
{
    broadcast use vstd::seq_lib::group_to_multiset_ensures;
    assert(first.to_multiset().len() == first.len());
    assert(second.to_multiset().len() == second.len());
    if first.len() == 0 {
        assert(first.map_values(f) =~= second.map_values(f));
    } else {
        let item = first.last();
        let less = first.drop_last();
        assert(first =~= less.push(item));
        assert(first.to_multiset().count(item) > 0);
        assert(second.contains(item));
        let k = choose|k: int| 0 <= k < second.len() && second[k] == item;
        let rest = second.remove(k);
        assert(rest.to_multiset() =~= second.to_multiset().remove(item));
        assert(less.to_multiset() =~= first.to_multiset().remove(item));
        lemma_mapped_items(less, rest, f);
        assert(first.map_values(f) =~= less.map_values(f).push(f(item)));
        assert(second.map_values(f).remove(k) =~= rest.map_values(f));
        assert(second.map_values(f)[k] == f(item));
        assert(second.map_values(f).to_multiset() =~= rest.map_values(f).to_multiset().insert(
            f(item),
        ));
    }
}

/// Whether items repeat does not depend on their order.
pub proof fn lemma_repeats_ignore_order<A>(first: Seq<A>, second: Seq<A>)
    requires
        first.to_multiset() == second.to_multiset(),
    ensures
        first.no_duplicates() <==> second.no_duplicates(),
        forall|a: A| first.contains(a) <==> second.contains(a),
{
    broadcast use vstd::seq_lib::group_to_multiset_ensures;
    if first.no_duplicates() {
        first.lemma_multiset_has_no_duplicates();
        second.lemma_multiset_has_no_duplicates_conv();
    }
    if second.no_duplicates() {
        second.lemma_multiset_has_no_duplicates();
        first.lemma_multiset_has_no_duplicates_conv();
    }
    assert forall|a: A| first.contains(a) <==> second.contains(a) by {
        vstd::seq_lib::to_multiset_contains(first, a);
        vstd::seq_lib::to_multiset_contains(second, a);
    }
}

} // verus!
