//! The resident classification of a walk and the fold over its sorted scratch
//! agree.

use crate::backend::held::model::NodeIdentity;
use crate::backend::held::topology::alias_count;
use crate::backend::held::topology::file_of;
use crate::backend::held::topology::first_alias;
use crate::backend::held::topology::first_miscount;
use crate::backend::held::topology::first_mismatch;
use crate::backend::held::topology::is_miscounted;
use crate::backend::held::topology::is_mismatched;
use crate::backend::held::topology::lemma_first_alias;
use crate::backend::held::topology::shared_entries;
use crate::backend::held::topology::shared_files;
use crate::backend::held::topology::topology_fault;
use crate::backend::held::topology::LinkView;
use crate::backend::held::topology_fold::complete_entries;
use crate::backend::held::topology_fold::complete_runs;
use crate::backend::held::topology_fold::differs_in_run;
use crate::backend::held::topology_fold::is_miscounted_run;
use crate::backend::held::topology_fold::least_difference;
use crate::backend::held::topology_fold::least_miscount;
use crate::backend::held::topology_fold::lemma_inside_run;
use crate::backend::held::topology_fold::lemma_least_difference;
use crate::backend::held::topology_fold::lemma_least_miscount;
use crate::backend::held::topology_fold::lemma_next_start;
use crate::backend::held::topology_fold::lemma_run_start;
use crate::backend::held::topology_fold::next_start;
use crate::backend::held::topology_fold::run_size;
use crate::backend::held::topology_fold::run_start;
use crate::backend::held::topology_fold::starts_run;
use crate::backend::held::topology_fold::stream_fault;
use crate::paths::lemma_precedes_asymmetric;
use crate::paths::lemma_precedes_total;
use crate::paths::path_less;
use crate::paths::Collation;
use vstd::prelude::*;

verus! {

/// The entries of a walk, in path order.
pub open spec fn is_walk_order(walk: Seq<LinkView>) -> bool {
    forall|i: int, j: int|
        0 <= i < j < walk.len() ==> path_less(#[trigger] walk[i].path, #[trigger] walk[j].path)
}

/// The entries of one file stand together, in path order.
pub open spec fn is_file_order(sorted: Seq<LinkView>) -> bool {
    &&& forall|i: int, j: int, k: int|
        #![trigger file_of(sorted, i), file_of(sorted, j), file_of(sorted, k)]
        0 <= i < j < k < sorted.len() && file_of(sorted, i) == file_of(sorted, k) ==> file_of(
            sorted,
            j,
        ) == file_of(sorted, i)
    &&& forall|i: int, j: int|
        0 <= i < j < sorted.len() && file_of(sorted, i) == file_of(sorted, j) ==> path_less(
            #[trigger] sorted[i].path,
            #[trigger] sorted[j].path,
        )
}

/// How many elements satisfy `test`.
spec fn tally(list: Seq<LinkView>, test: spec_fn(LinkView) -> bool) -> nat
    decreases list.len(),
{
    if list.len() == 0 {
        0
    } else {
        tally(list.drop_last(), test) + if test(list.last()) {
            1nat
        } else {
            0
        }
    }
}

proof fn lemma_tally_multiset(list: Seq<LinkView>, test: spec_fn(LinkView) -> bool)
    ensures
        tally(list, test) == list.to_multiset().filter(test).len(),
    decreases list.len(),
{
    broadcast use {vstd::multiset::group_multiset_axioms, vstd::seq_lib::group_to_multiset_ensures};

    if list.len() == 0 {
        assert(list.to_multiset().filter(test) =~= vstd::multiset::Multiset::empty());
    } else {
        let before = list.drop_last();
        let last = list.last();
        lemma_tally_multiset(before, test);
        assert(before.push(last) =~= list);
        assert(list.to_multiset() =~= before.to_multiset().insert(last));
        if test(last) {
            assert(list.to_multiset().filter(test) =~= before.to_multiset().filter(test).insert(
                last,
            ));
        } else {
            assert(list.to_multiset().filter(test) =~= before.to_multiset().filter(test));
        }
    }
}

/// A rearrangement has as many elements of each kind.
proof fn lemma_tally_rearranged(
    walk: Seq<LinkView>,
    sorted: Seq<LinkView>,
    test: spec_fn(LinkView) -> bool,
)
    requires
        walk.to_multiset() == sorted.to_multiset(),
    ensures
        tally(walk, test) == tally(sorted, test),
{
    lemma_tally_multiset(walk, test);
    lemma_tally_multiset(sorted, test);
}

proof fn lemma_alias_count_tally(list: Seq<LinkView>, file: NodeIdentity)
    ensures
        alias_count(list, file) == tally(list, |link: LinkView| link.observation.identity == file),
    decreases list.len(),
{
    if list.len() > 0 {
        lemma_alias_count_tally(list.drop_last(), file);
    }
}

proof fn lemma_same_elements(walk: Seq<LinkView>, sorted: Seq<LinkView>)
    requires
        walk.to_multiset() == sorted.to_multiset(),
    ensures
        walk.len() == sorted.len(),
        forall|i: int| 0 <= i < walk.len() ==> sorted.contains(#[trigger] walk[i]),
        forall|i: int| 0 <= i < sorted.len() ==> walk.contains(#[trigger] sorted[i]),
{
    broadcast use {vstd::multiset::group_multiset_axioms, vstd::seq_lib::group_to_multiset_ensures};

    walk.to_multiset_ensures();
    sorted.to_multiset_ensures();
    assert forall|i: int| 0 <= i < walk.len() implies sorted.contains(#[trigger] walk[i]) by {
        assert(walk.contains(walk[i]));
        assert(walk.to_multiset().count(walk[i]) > 0);
    }
    assert forall|i: int| 0 <= i < sorted.len() implies walk.contains(#[trigger] sorted[i]) by {
        assert(sorted.contains(sorted[i]));
        assert(sorted.to_multiset().count(sorted[i]) > 0);
    }
}

/// `link` has the first path of its file.
spec fn is_least(list: Seq<LinkView>, link: LinkView) -> bool {
    forall|i: int|
        0 <= i < list.len() && file_of(list, i) == link.observation.identity ==> !path_less(
            (#[trigger] list[i]).path,
            link.path,
        )
}

/// The first alias in walk order has the first path of its file.
proof fn lemma_walk_first(walk: Seq<LinkView>, i: int)
    requires
        is_walk_order(walk),
        0 <= i < walk.len(),
    ensures
        is_least(walk, walk[first_alias(walk, i)]),
        is_least(walk, walk[i]) <==> first_alias(walk, i) == i,
{
    lemma_first_alias(walk, i);
    let f = first_alias(walk, i);
    assert forall|j: int| 0 <= j < walk.len() && file_of(walk, j)
        == walk[f].observation.identity implies !path_less(
        (#[trigger] walk[j]).path,
        walk[f].path,
    ) by {
        if path_less(walk[j].path, walk[f].path) {
            if f < j {
                assert(path_less(walk[f].path, walk[j].path));
            }
            lemma_precedes_asymmetric(Collation::Components, walk[j].path, walk[f].path);
        }
    }
    if f < i {
        assert(path_less(walk[f].path, walk[i].path));
        assert(file_of(walk, f) == walk[i].observation.identity);
        assert(!is_least(walk, walk[i]));
    }
}

/// The start of a run has the first path of its file, and the run is the file.
proof fn lemma_sorted_run(sorted: Seq<LinkView>, i: int)
    requires
        is_file_order(sorted),
        0 <= i < sorted.len(),
    ensures
        is_least(sorted, sorted[run_start(sorted, i)]),
        is_least(sorted, sorted[i]) <==> run_start(sorted, i) == i,
        starts_run(sorted, i) <==> run_start(sorted, i) == i,
        forall|j: int|
            0 <= j < sorted.len() ==> (#[trigger] file_of(sorted, j) == file_of(sorted, i) <==> run_start(
                sorted,
                i,
            ) <= j < next_start(sorted, run_start(sorted, i) + 1)),
{
    lemma_run_start(sorted, i);
    let s = run_start(sorted, i);
    lemma_next_start(sorted, s + 1);
    let e = next_start(sorted, s + 1);
    assert(i < e) by {
        if e <= i {
            assert(!starts_run(sorted, e));
        }
    }
    assert forall|j: int| 0 <= j < sorted.len() implies (#[trigger] file_of(sorted, j) == file_of(
        sorted,
        i,
    ) <==> s <= j < e) by {
        if s <= j < e {
            lemma_run_constant(sorted, s, e, j);
        } else if file_of(sorted, j) == file_of(sorted, i) {
            if j < s {
                if j < s - 1 {
                    assert(file_of(sorted, s - 1) == file_of(sorted, j));
                }
                assert(starts_run(sorted, s));
            } else {
                if e < j {
                    assert(file_of(sorted, e) == file_of(sorted, s));
                }
                lemma_run_constant(sorted, s, e, e - 1);
                assert(starts_run(sorted, e));
            }
        }
    }
    assert forall|j: int| 0 <= j < sorted.len() && file_of(sorted, j)
        == sorted[s].observation.identity implies !path_less(
        (#[trigger] sorted[j]).path,
        sorted[s].path,
    ) by {
        assert(file_of(sorted, j) == file_of(sorted, i));
        if path_less(sorted[j].path, sorted[s].path) {
            if s < j {
                assert(path_less(sorted[s].path, sorted[j].path));
            }
            lemma_precedes_asymmetric(Collation::Components, sorted[j].path, sorted[s].path);
        }
    }
    if s < i {
        assert(path_less(sorted[s].path, sorted[i].path));
        assert(!is_least(sorted, sorted[i]));
        assert(!starts_run(sorted, i));
    }
}

proof fn lemma_run_constant(list: Seq<LinkView>, start: int, end: int, j: int)
    requires
        0 <= start <= j < end <= list.len(),
        forall|k: int| start < k < end ==> !#[trigger] starts_run(list, k),
    ensures
        file_of(list, j) == file_of(list, start),
    decreases j - start,
{
    if j > start {
        lemma_run_constant(list, start, end, j - 1);
        assert(!starts_run(list, j));
    }
}

/// The size of a run is the number of entries of its file.
proof fn lemma_run_size(sorted: Seq<LinkView>, k: int)
    requires
        is_file_order(sorted),
        0 <= k < sorted.len(),
        starts_run(sorted, k),
    ensures
        run_size(sorted, k) == alias_count(sorted, file_of(sorted, k)),
        run_size(sorted, k) >= 1,
{
    lemma_sorted_run(sorted, k);
    lemma_next_start(sorted, k + 1);
    let e = next_start(sorted, k + 1);
    lemma_count_range(sorted, file_of(sorted, k), k, e, sorted.len() as int);
    assert(sorted.take(sorted.len() as int) =~= sorted);
}

proof fn lemma_count_range(
    list: Seq<LinkView>,
    file: NodeIdentity,
    start: int,
    end: int,
    count: int,
)
    requires
        0 <= start <= end <= list.len(),
        0 <= count <= list.len(),
        forall|j: int|
            0 <= j < list.len() ==> (#[trigger] file_of(list, j) == file <==> start <= j < end),
    ensures
        alias_count(list.take(count), file) == if count <= start {
            0
        } else if count <= end {
            count - start
        } else {
            end - start
        },
    decreases count,
{
    if count > 0 {
        lemma_count_range(list, file, start, end, count - 1);
        let longer = list.take(count);
        assert(longer.drop_last() =~= list.take(count - 1));
        assert(longer.last() == list[count - 1]);
        assert(file_of(longer, count - 1) == file_of(list, count - 1));
    }
}

/// Two entries of a walk with the same path are one.
proof fn lemma_same_path(walk: Seq<LinkView>, i: int, j: int)
    requires
        is_walk_order(walk),
        0 <= i < walk.len(),
        0 <= j < walk.len(),
        walk[i].path == walk[j].path,
    ensures
        i == j,
{
    if i < j {
        assert(path_less(walk[i].path, walk[j].path));
        lemma_precedes_asymmetric(Collation::Components, walk[i].path, walk[j].path);
    } else if j < i {
        assert(path_less(walk[j].path, walk[i].path));
        lemma_precedes_asymmetric(Collation::Components, walk[j].path, walk[i].path);
    }
}

/// Two entries of one file that both have its first path are one.
proof fn lemma_least_unique(walk: Seq<LinkView>, i: int, j: int)
    requires
        is_walk_order(walk),
        0 <= i < walk.len(),
        0 <= j < walk.len(),
        file_of(walk, i) == file_of(walk, j),
        is_least(walk, walk[i]),
        is_least(walk, walk[j]),
    ensures
        i == j,
{
    lemma_precedes_total(Collation::Components, walk[i].path, walk[j].path);
    if walk[i].path == walk[j].path {
        lemma_same_path(walk, i, j);
    }
}

/// What a rearrangement keeps: which entry is the first of its file, how many
/// entries a file has, and which entries differ from the first of their file.
proof fn lemma_correspond(walk: Seq<LinkView>, sorted: Seq<LinkView>, i: int, k: int)
    requires
        is_walk_order(walk),
        is_file_order(sorted),
        walk.to_multiset() == sorted.to_multiset(),
        0 <= i < walk.len(),
        0 <= k < sorted.len(),
        walk[i] == sorted[k],
    ensures
        walk[first_alias(walk, i)] == sorted[run_start(sorted, k)],
        first_alias(walk, i) == i <==> starts_run(sorted, k),
        is_mismatched(walk, i) == differs_in_run(sorted, k),
        alias_count(walk, file_of(walk, i)) == alias_count(sorted, file_of(sorted, k)),
{
    lemma_same_elements(walk, sorted);
    lemma_walk_first(walk, i);
    lemma_sorted_run(sorted, k);
    lemma_first_alias(walk, i);
    lemma_run_start(sorted, k);
    lemma_least_transfers(walk, sorted, walk[i]);
    let s = run_start(sorted, k);
    lemma_least_transfers(walk, sorted, sorted[s]);
    let m = choose|m: int| 0 <= m < walk.len() && walk[m] == sorted[s];
    assert(walk.contains(sorted[s]));
    lemma_least_unique(walk, m, first_alias(walk, i));
    let file = file_of(walk, i);
    lemma_alias_count_tally(walk, file);
    lemma_alias_count_tally(sorted, file);
    lemma_tally_rearranged(
        walk,
        sorted,
        |link: LinkView| link.observation.identity == file,
    );
}

proof fn lemma_least_transfers(walk: Seq<LinkView>, sorted: Seq<LinkView>, link: LinkView)
    requires
        walk.to_multiset() == sorted.to_multiset(),
    ensures
        is_least(walk, link) == is_least(sorted, link),
{
    lemma_same_elements(walk, sorted);
    if is_least(walk, link) {
        assert forall|i: int| 0 <= i < sorted.len() && file_of(sorted, i)
            == link.observation.identity implies !path_less(
            (#[trigger] sorted[i]).path,
            link.path,
        ) by {
            let j = choose|j: int| 0 <= j < walk.len() && walk[j] == sorted[i];
            assert(walk.contains(sorted[i]));
            assert(file_of(walk, j) == link.observation.identity);
        }
    }
    if is_least(sorted, link) {
        assert forall|i: int| 0 <= i < walk.len() && file_of(walk, i)
            == link.observation.identity implies !path_less(
            (#[trigger] walk[i]).path,
            link.path,
        ) by {
            let j = choose|j: int| 0 <= j < sorted.len() && sorted[j] == walk[i];
            assert(sorted.contains(walk[i]));
            assert(file_of(sorted, j) == link.observation.identity);
        }
    }
}

proof fn lemma_first_mismatch(walk: Seq<LinkView>, count: int)
    requires
        0 <= count <= walk.len(),
    ensures
        match first_mismatch(walk, count) {
            Some(i) => 0 <= i < count && is_mismatched(walk, i) && forall|j: int|
                0 <= j < i ==> !#[trigger] is_mismatched(walk, j),
            None => forall|j: int| 0 <= j < count ==> !#[trigger] is_mismatched(walk, j),
        },
    decreases count,
{
    if count > 0 {
        lemma_first_mismatch(walk, count - 1);
    }
}

proof fn lemma_first_miscount(walk: Seq<LinkView>, count: int)
    requires
        0 <= count <= walk.len(),
    ensures
        match first_miscount(walk, count) {
            Some(i) => 0 <= i < count && is_miscounted(walk, i) && forall|j: int|
                0 <= j < i ==> !#[trigger] is_miscounted(walk, j),
            None => forall|j: int| 0 <= j < count ==> !#[trigger] is_miscounted(walk, j),
        },
    decreases count,
{
    if count > 0 {
        lemma_first_miscount(walk, count - 1);
    }
}

/// The first mismatched entry of the walk is the difference with the first path.
proof fn lemma_same_difference(walk: Seq<LinkView>, sorted: Seq<LinkView>)
    requires
        is_walk_order(walk),
        is_file_order(sorted),
        walk.to_multiset() == sorted.to_multiset(),
    ensures
        match (
            first_mismatch(walk, walk.len() as int),
            least_difference(sorted, sorted.len() as int),
        ) {
            (Some(i), Some(k)) => {
                &&& walk[first_alias(walk, i)] == sorted[run_start(sorted, k)]
            },
            (None, None) => true,
            _ => false,
        },
{
    lemma_same_elements(walk, sorted);
    lemma_first_mismatch(walk, walk.len() as int);
    lemma_least_difference(sorted, sorted.len() as int);
    if let Some(i) = first_mismatch(walk, walk.len() as int) {
        assert(sorted.contains(walk[i]));
        let m = choose|m: int| 0 <= m < sorted.len() && sorted[m] == walk[i];
        lemma_correspond(walk, sorted, i, m);
        assert(differs_in_run(sorted, m));
        let k = least_difference(sorted, sorted.len() as int)->0;
        assert(walk.contains(sorted[k]));
        let j = choose|j: int| 0 <= j < walk.len() && walk[j] == sorted[k];
        lemma_correspond(walk, sorted, j, k);
        assert(is_mismatched(walk, j));
        if i < j {
            assert(path_less(walk[i].path, walk[j].path));
            assert(!path_less(sorted[m].path, sorted[k].path));
        }
        assert(i == j);
    } else if let Some(k) = least_difference(sorted, sorted.len() as int) {
        assert(walk.contains(sorted[k]));
        let j = choose|j: int| 0 <= j < walk.len() && walk[j] == sorted[k];
        lemma_correspond(walk, sorted, j, k);
        assert(is_mismatched(walk, j));
    }
}

/// With no mismatch, an entry is miscounted exactly if the first of its file is.
proof fn lemma_miscount_of_first(walk: Seq<LinkView>, i: int)
    requires
        0 <= i < walk.len(),
        !is_mismatched(walk, i),
    ensures
        is_miscounted(walk, i) == is_miscounted(walk, first_alias(walk, i)),
{
    lemma_first_alias(walk, i);
}

/// The first miscounted entry of the walk is the miscounted run with the first
/// path.
proof fn lemma_same_miscount(walk: Seq<LinkView>, sorted: Seq<LinkView>)
    requires
        is_walk_order(walk),
        is_file_order(sorted),
        walk.to_multiset() == sorted.to_multiset(),
        first_mismatch(walk, walk.len() as int) is None,
    ensures
        match (
            first_miscount(walk, walk.len() as int),
            least_miscount(sorted, sorted.len() as int),
        ) {
            (Some(i), Some(k)) => {
                &&& walk[i] == sorted[k]
                &&& first_alias(walk, i) == i
                &&& run_size(sorted, k) == alias_count(walk, file_of(walk, i))
            },
            (None, None) => true,
            _ => false,
        },
{
    lemma_same_elements(walk, sorted);
    lemma_first_mismatch(walk, walk.len() as int);
    lemma_first_miscount(walk, walk.len() as int);
    lemma_least_miscount(sorted, sorted.len() as int);
    if let Some(i) = first_miscount(walk, walk.len() as int) {
        lemma_miscount_of_first(walk, i);
        lemma_first_alias(walk, i);
        assert(first_alias(walk, i) == i);
        assert(sorted.contains(walk[i]));
        let m = choose|m: int| 0 <= m < sorted.len() && sorted[m] == walk[i];
        lemma_correspond(walk, sorted, i, m);
        lemma_run_size(sorted, m);
        assert(is_miscounted_run(sorted, m));
        let k = least_miscount(sorted, sorted.len() as int)->0;
        lemma_run_size(sorted, k);
        assert(walk.contains(sorted[k]));
        let j = choose|j: int| 0 <= j < walk.len() && walk[j] == sorted[k];
        lemma_correspond(walk, sorted, j, k);
        assert(is_miscounted(walk, j));
        if i < j {
            assert(path_less(walk[i].path, walk[j].path));
            assert(!path_less(sorted[m].path, sorted[k].path));
        }
        assert(i == j);
    } else if let Some(k) = least_miscount(sorted, sorted.len() as int) {
        lemma_run_size(sorted, k);
        assert(walk.contains(sorted[k]));
        let j = choose|j: int| 0 <= j < walk.len() && walk[j] == sorted[k];
        lemma_correspond(walk, sorted, j, k);
        assert(is_miscounted(walk, j));
    }
}

/// An entry that names a file with several entries.
spec fn shared(walk: Seq<LinkView>) -> spec_fn(LinkView) -> bool {
    |link: LinkView| alias_count(walk, link.observation.identity) > 1
}

/// The first entry of a file with several entries.
spec fn shared_first(walk: Seq<LinkView>) -> spec_fn(LinkView) -> bool {
    |link: LinkView| alias_count(walk, link.observation.identity) > 1 && is_least(walk, link)
}

proof fn lemma_walk_tallies(walk: Seq<LinkView>, count: int)
    requires
        is_walk_order(walk),
        0 <= count <= walk.len(),
    ensures
        shared_files(walk, count) == tally(walk.take(count), shared_first(walk)),
        shared_entries(walk, count) == tally(walk.take(count), shared(walk)),
    decreases count,
{
    if count > 0 {
        lemma_walk_tallies(walk, count - 1);
        lemma_walk_first(walk, count - 1);
        assert(walk.take(count).drop_last() =~= walk.take(count - 1));
        assert(walk.take(count).last() == walk[count - 1]);
    }
}

proof fn lemma_sorted_runs_tally(walk: Seq<LinkView>, sorted: Seq<LinkView>, count: int)
    requires
        is_walk_order(walk),
        is_file_order(sorted),
        walk.to_multiset() == sorted.to_multiset(),
        least_miscount(sorted, sorted.len() as int) is None,
        0 <= count <= sorted.len(),
    ensures
        complete_runs(sorted, count) == tally(sorted.take(count), shared_first(walk)),
    decreases count,
{
    if count > 0 {
        let k = count - 1;
        lemma_sorted_runs_tally(walk, sorted, k);
        lemma_least_miscount(sorted, sorted.len() as int);
        assert(!is_miscounted_run(sorted, k));
        lemma_same_elements(walk, sorted);
        assert(walk.contains(sorted[k]));
        let j = choose|j: int| 0 <= j < walk.len() && walk[j] == sorted[k];
        lemma_correspond(walk, sorted, j, k);
        lemma_sorted_run(sorted, k);
        lemma_least_transfers(walk, sorted, sorted[k]);
        if starts_run(sorted, k) {
            lemma_run_size(sorted, k);
        }
        assert(sorted.take(count).drop_last() =~= sorted.take(k));
        assert(sorted.take(count).last() == sorted[k]);
    }
}

proof fn lemma_tally_constant(
    list: Seq<LinkView>,
    test: spec_fn(LinkView) -> bool,
    start: int,
    end: int,
)
    requires
        0 <= start <= end <= list.len(),
        forall|j: int| start <= j < end ==> test(#[trigger] list[j]) == test(list[start]),
    ensures
        tally(list.take(end), test) == tally(list.take(start), test) + if start < end && test(
            list[start],
        ) {
            end - start
        } else {
            0
        },
    decreases end - start,
{
    if start < end {
        lemma_tally_constant(list, test, start, end - 1);
        assert(list.take(end).drop_last() =~= list.take(end - 1));
        assert(list.take(end).last() == list[end - 1]);
        assert(test(list[end - 1]) == test(list[start]));
    }
}

/// Up to a run boundary, the runs counted hold the shared entries.
proof fn lemma_sorted_entries_tally(walk: Seq<LinkView>, sorted: Seq<LinkView>, end: int)
    requires
        is_walk_order(walk),
        is_file_order(sorted),
        walk.to_multiset() == sorted.to_multiset(),
        least_miscount(sorted, sorted.len() as int) is None,
        0 <= end <= sorted.len(),
        end < sorted.len() ==> starts_run(sorted, end),
    ensures
        complete_entries(sorted, end) == tally(sorted.take(end), shared(walk)),
    decreases end,
{
    if end > 0 {
        lemma_run_start(sorted, end - 1);
        let start = run_start(sorted, end - 1);
        lemma_sorted_entries_tally(walk, sorted, start);
        lemma_inside_run(sorted, start, end);
        lemma_least_miscount(sorted, sorted.len() as int);
        assert(!is_miscounted_run(sorted, start));
        lemma_run_size(sorted, start);
        lemma_sorted_run(sorted, start);
        lemma_next_start(sorted, start + 1);
        let next = next_start(sorted, start + 1);
        assert(next == end) by {
            if next < end {
                assert(!starts_run(sorted, next));
            } else if end < next {
                assert(!starts_run(sorted, end));
            }
        }
        lemma_same_elements(walk, sorted);
        assert(walk.contains(sorted[start]));
        let j = choose|j: int| 0 <= j < walk.len() && walk[j] == sorted[start];
        lemma_correspond(walk, sorted, j, start);
        assert forall|i: int| start <= i < end implies shared(walk)(#[trigger] sorted[i]) == shared(
            walk,
        )(sorted[start]) by {
            assert(file_of(sorted, i) == file_of(sorted, start));
        }
        lemma_tally_constant(sorted, shared(walk), start, end);
    }
}

/// However a walk's observations are rearranged so that those of one file stand
/// together in path order, the fold over them refuses exactly what the resident
/// classification refuses, for the same reason, and otherwise finds the same
/// topology.
pub proof fn law_fold_agrees_with_classification(walk: Seq<LinkView>, sorted: Seq<LinkView>)
    requires
        is_walk_order(walk),
        is_file_order(sorted),
        walk.to_multiset() == sorted.to_multiset(),
    ensures
        stream_fault(sorted) == topology_fault(walk),
        topology_fault(walk) is None ==> {
            &&& complete_runs(sorted, sorted.len() as int) == shared_files(walk, walk.len() as int)
            &&& complete_entries(sorted, sorted.len() as int) == shared_entries(
                walk,
                walk.len() as int,
            )
        },
{
    lemma_same_elements(walk, sorted);
    lemma_same_difference(walk, sorted);
    if first_mismatch(walk, walk.len() as int) is None {
        lemma_same_miscount(walk, sorted);
        if first_miscount(walk, walk.len() as int) is None {
            lemma_walk_tallies(walk, walk.len() as int);
            lemma_sorted_runs_tally(walk, sorted, sorted.len() as int);
            lemma_sorted_entries_tally(walk, sorted, sorted.len() as int);
            assert(walk.take(walk.len() as int) =~= walk);
            assert(sorted.take(sorted.len() as int) =~= sorted);
            lemma_tally_rearranged(walk, sorted, shared_first(walk));
            lemma_tally_rearranged(walk, sorted, shared(walk));
        }
    }
}

} // verus!
