//! The hard-link topology of a tree, folded from a stream of observations that
//! are sorted by file.
//!
//! Only the current file and the candidates for the error to report stay
//! resident.

use crate::backend::held::error::refused_for;
use crate::backend::held::error::HeldTreeError;
use crate::backend::held::error::TreeFault;
use crate::backend::held::model::RegularFileObservation;
use crate::backend::held::model::RegularHardLinkTopology;
use crate::backend::held::topology::file_of;
use crate::backend::held::topology::LinkView;
use crate::bytes::to_vec;
use crate::paths::compare_bytes;
use crate::paths::path_less;
use crate::paths::Collation;
use crate::paths::PathOrder;
use vstd::prelude::*;

verus! {

/// One observation of the stream.
#[derive(Clone, Copy, Debug, PartialEq, Eq)]
pub struct HardlinkScratchObservation<'a> {
    pub path: &'a [u8],
    pub observation: RegularFileObservation,
}

impl<'a> View for HardlinkScratchObservation<'a> {
    type V = LinkView;

    open spec fn view(&self) -> LinkView {
        LinkView { path: self.path@, observation: self.observation }
    }
}

/// Observation `k` names another file than the one before it.
pub open spec fn starts_run(list: Seq<LinkView>, k: int) -> bool {
    k == 0 || file_of(list, k) != file_of(list, k - 1)
}

/// Where the run of equal files that holds observation `i` starts.
pub open spec fn run_start(list: Seq<LinkView>, i: int) -> int
    decreases i,
{
    if i <= 0 || starts_run(list, i) {
        i
    } else {
        run_start(list, i - 1)
    }
}

/// The first start of a run at or after `from`; the end if there is none.
pub open spec fn next_start(list: Seq<LinkView>, from: int) -> int
    decreases list.len() - from,
{
    if from >= list.len() || starts_run(list, from) {
        from
    } else {
        next_start(list, from + 1)
    }
}

/// How many observations the run that starts at `k` holds.
pub open spec fn run_size(list: Seq<LinkView>, k: int) -> int {
    next_start(list, k + 1) - k
}

/// Observation `i` differs from the first of its run.
pub open spec fn differs_in_run(list: Seq<LinkView>, i: int) -> bool {
    list[i].observation != list[run_start(list, i)].observation
}

/// Of two candidates, the one whose path comes first; the earlier one where
/// neither does.
pub open spec fn preferred(list: Seq<LinkView>, candidate: Option<int>, next: int) -> Option<int> {
    match candidate {
        Some(i) => if path_less(list[next].path, list[i].path) {
            Some(next)
        } else {
            Some(i)
        },
        None => Some(next),
    }
}

/// Of the first `count` observations that differ from the first of their run,
/// the one whose path comes first.
pub open spec fn least_difference(list: Seq<LinkView>, count: int) -> Option<int>
    decreases count,
{
    if count <= 0 {
        None
    } else if differs_in_run(list, count - 1) {
        preferred(list, least_difference(list, count - 1), count - 1)
    } else {
        least_difference(list, count - 1)
    }
}

/// The run that starts at `k` is longer or shorter than the link count of its
/// file.
pub open spec fn is_miscounted_run(list: Seq<LinkView>, k: int) -> bool {
    starts_run(list, k) && run_size(list, k) != list[k].observation.nlink
}

/// Of the miscounted runs that start before `count`, the one whose first path
/// comes first.
pub open spec fn least_miscount(list: Seq<LinkView>, count: int) -> Option<int>
    decreases count,
{
    if count <= 0 {
        None
    } else if is_miscounted_run(list, count - 1) {
        preferred(list, least_miscount(list, count - 1), count - 1)
    } else {
        least_miscount(list, count - 1)
    }
}

/// How many runs of several observations that start before `count` are as long
/// as the link count of their file.
pub open spec fn complete_runs(list: Seq<LinkView>, count: int) -> nat
    decreases count,
{
    if count <= 0 {
        0
    } else {
        complete_runs(list, count - 1) + if starts_run(list, count - 1) && !is_miscounted_run(
            list,
            count - 1,
        ) && run_size(list, count - 1) != 1 {
            1nat
        } else {
            0
        }
    }
}

/// How many observations those runs hold.
pub open spec fn complete_entries(list: Seq<LinkView>, count: int) -> int
    decreases count,
{
    if count <= 0 {
        0
    } else {
        complete_entries(list, count - 1) + if starts_run(list, count - 1) && !is_miscounted_run(
            list,
            count - 1,
        ) && run_size(list, count - 1) != 1 {
            run_size(list, count - 1)
        } else {
            0
        }
    }
}

/// Why a stream is refused.
pub open spec fn stream_fault(list: Seq<LinkView>) -> Option<TreeFault> {
    match least_difference(list, list.len() as int) {
        Some(i) => Some(TreeFault::ContentChangedDuringHash(list[run_start(list, i)].path)),
        None => match least_miscount(list, list.len() as int) {
            Some(k) => Some(
                if run_size(list, k) < list[k].observation.nlink {
                    TreeFault::ExternalOrUnenumeratedHardLink(list[k].path)
                } else {
                    TreeFault::ContentChangedDuringHash(list[k].path)
                },
            ),
            None => None,
        },
    }
}

/// A run starts at or before each of its observations, and nothing between
/// starts another.
pub proof fn lemma_run_start(list: Seq<LinkView>, i: int)
    requires
        0 <= i < list.len(),
    ensures
        0 <= run_start(list, i) <= i,
        starts_run(list, run_start(list, i)),
        file_of(list, run_start(list, i)) == file_of(list, i),
        forall|j: int| run_start(list, i) < j <= i ==> !#[trigger] starts_run(list, j),
    decreases i,
{
    if i > 0 && !starts_run(list, i) {
        lemma_run_start(list, i - 1);
    }
}

/// Between `from` and the next start nothing starts a run.
pub proof fn lemma_next_start(list: Seq<LinkView>, from: int)
    requires
        0 <= from <= list.len(),
    ensures
        from <= next_start(list, from) <= list.len(),
        next_start(list, from) < list.len() ==> starts_run(list, next_start(list, from)),
        forall|j: int| from <= j < next_start(list, from) ==> !#[trigger] starts_run(list, j),
    decreases list.len() - from,
{
    if from < list.len() && !starts_run(list, from) {
        lemma_next_start(list, from + 1);
    }
}

/// The next start is determined by where runs start.
proof fn lemma_next_start_is(list: Seq<LinkView>, from: int, at: int)
    requires
        0 <= from <= at <= list.len(),
        at < list.len() ==> starts_run(list, at),
        forall|j: int| from <= j < at ==> !#[trigger] starts_run(list, j),
    ensures
        next_start(list, from) == at,
    decreases at - from,
{
    if from < at {
        assert(!starts_run(list, from));
        lemma_next_start_is(list, from + 1, at);
    }
}

/// A longer stream has the same runs up to the last one.
proof fn lemma_push_keeps(list: Seq<LinkView>, next: LinkView, count: int)
    requires
        0 <= count <= list.len(),
    ensures
        count > 0 ==> run_start(list.push(next), count - 1) == run_start(list, count - 1),
        least_difference(list.push(next), count) == least_difference(list, count),
    decreases count,
{
    let longer = list.push(next);
    if count > 0 {
        lemma_push_keeps(list, next, count - 1);
        assert(longer[count - 1] == list[count - 1]);
        if count > 1 {
            assert(longer[count - 2] == list[count - 2]);
        }
        lemma_run_start(list, count - 1);
        if least_difference(list, count - 1) is Some {
            lemma_least_difference(list, count - 1);
            let i = least_difference(list, count - 1)->0;
            assert(longer[i] == list[i]);
        }
        let r = run_start(list, count - 1);
        assert(longer[r] == list[r]);
    }
}

/// The least difference is one of the observations considered.
pub proof fn lemma_least_difference(list: Seq<LinkView>, count: int)
    requires
        0 <= count <= list.len(),
    ensures
        match least_difference(list, count) {
            Some(i) => 0 <= i < count && differs_in_run(list, i) && forall|j: int|
                0 <= j < count && #[trigger] differs_in_run(list, j) ==> !path_less(
                    list[j].path,
                    list[i].path,
                ),
            None => forall|j: int| 0 <= j < count ==> !#[trigger] differs_in_run(list, j),
        },
    decreases count,
{
    if count > 0 {
        lemma_least_difference(list, count - 1);
        let last = count - 1;
        if let Some(i) = least_difference(list, count) {
            assert forall|j: int| 0 <= j < count && #[trigger] differs_in_run(
                list,
                j,
            ) implies !path_less(list[j].path, list[i].path) by {
                if path_less(list[j].path, list[i].path) {
                    if i == last {
                        if j == last {
                            crate::paths::lemma_precedes_asymmetric(
                                Collation::Components,
                                list[j].path,
                                list[i].path,
                            );
                        } else {
                            let k = least_difference(list, count - 1)->0;
                            crate::paths::lemma_precedes_transitive(
                                Collation::Components,
                                list[j].path,
                                list[i].path,
                                list[k].path,
                            );
                        }
                    }
                }
            }
        }
    }
}

/// The least miscount is one of the runs considered.
pub proof fn lemma_least_miscount(list: Seq<LinkView>, count: int)
    requires
        0 <= count <= list.len(),
    ensures
        match least_miscount(list, count) {
            Some(i) => 0 <= i < count && is_miscounted_run(list, i) && forall|j: int|
                0 <= j < count && #[trigger] is_miscounted_run(list, j) ==> !path_less(
                    list[j].path,
                    list[i].path,
                ),
            None => forall|j: int| 0 <= j < count ==> !#[trigger] is_miscounted_run(list, j),
        },
    decreases count,
{
    if count > 0 {
        lemma_least_miscount(list, count - 1);
        let last = count - 1;
        if let Some(i) = least_miscount(list, count) {
            assert forall|j: int| 0 <= j < count && #[trigger] is_miscounted_run(
                list,
                j,
            ) implies !path_less(list[j].path, list[i].path) by {
                if path_less(list[j].path, list[i].path) {
                    if i == last {
                        if j == last {
                            crate::paths::lemma_precedes_asymmetric(
                                Collation::Components,
                                list[j].path,
                                list[i].path,
                            );
                        } else {
                            let k = least_miscount(list, count - 1)->0;
                            crate::paths::lemma_precedes_transitive(
                                Collation::Components,
                                list[j].path,
                                list[i].path,
                                list[k].path,
                            );
                        }
                    }
                }
            }
        }
    }
}

/// What was found of the runs before the last one stays true of a longer stream.
proof fn lemma_push_keeps_runs(list: Seq<LinkView>, next: LinkView, last: int, count: int)
    requires
        0 <= count <= last < list.len(),
        starts_run(list, last),
    ensures
        least_miscount(list.push(next), count) == least_miscount(list, count),
        complete_runs(list.push(next), count) == complete_runs(list, count),
        complete_entries(list.push(next), count) == complete_entries(list, count),
    decreases count,
{
    let longer = list.push(next);
    if count > 0 {
        let k = count - 1;
        lemma_push_keeps_runs(list, next, last, k);
        assert forall|j: int| 0 <= j <= last implies #[trigger] starts_run(longer, j) == starts_run(
            list,
            j,
        ) by {
            assert(longer[j] == list[j]);
            if j > 0 {
                assert(longer[j - 1] == list[j - 1]);
            }
        }
        lemma_next_start(list, k + 1);
        let at = next_start(list, k + 1);
        assert(at <= last) by {
            if at > last {
                assert(!starts_run(list, last));
            }
        }
        lemma_next_start_is(longer, k + 1, at);
        assert(run_size(longer, k) == run_size(list, k));
        assert(longer[k] == list[k]);
        if least_miscount(list, k) is Some {
            lemma_least_miscount(list, k);
            let i = least_miscount(list, k)->0;
            assert(longer[i] == list[i]);
        }
    }
}

/// Between the start of a run and the next start nothing is found.
pub proof fn lemma_inside_run(list: Seq<LinkView>, start: int, end: int)
    requires
        0 <= start < end <= list.len(),
        forall|j: int| start < j < end ==> !#[trigger] starts_run(list, j),
    ensures
        least_miscount(list, end) == least_miscount(list, start + 1),
        complete_runs(list, end) == complete_runs(list, start + 1),
        complete_entries(list, end) == complete_entries(list, start + 1),
    decreases end - start,
{
    if end > start + 1 {
        lemma_inside_run(list, start, end - 1);
        assert(!starts_run(list, end - 1));
    }
}

/// The observations counted in runs before `count` lie before the run there.
proof fn lemma_complete_bounds(list: Seq<LinkView>, count: int)
    requires
        0 <= count <= list.len(),
    ensures
        complete_runs(list, count) <= count,
        0 <= complete_entries(list, count) <= next_start(list, count),
    decreases count,
{
    lemma_next_start(list, count);
    if count > 0 {
        let k = count - 1;
        lemma_complete_bounds(list, k);
        lemma_next_start(list, k);
        if starts_run(list, k) {
            assert(next_start(list, k) == k);
        } else {
            assert(next_start(list, k) == next_start(list, k + 1));
        }
    }
}

/// The file whose observations are arriving.
struct StreamedRegularGroup {
    first_path: Vec<u8>,
    observation: RegularFileObservation,
    enumerated: u64,
}

/// A difference found so far: where it was seen, and the first path of its file.
struct Difference {
    detected: Vec<u8>,
    first_path: Vec<u8>,
}

/// A miscounted file found so far.
struct Miscount {
    first_path: Vec<u8>,
    external: bool,
}

/// Fold over observations sorted by file.
pub struct HardlinkTopologyFold {
    current: Option<StreamedRegularGroup>,
    first_mismatch: Option<Difference>,
    first_count_failure: Option<Miscount>,
    topology: RegularHardLinkTopology,
    history: Ghost<Seq<LinkView>>,
}

impl HardlinkTopologyFold {
    /// The observations so far.
    pub closed spec fn observed(&self) -> Seq<LinkView> {
        self.history@
    }

    spec fn counted(&self, list: Seq<LinkView>, count: int) -> bool {
        &&& match (self.first_count_failure, least_miscount(list, count)) {
            (Some(found), Some(k)) => {
                &&& found.first_path@ == list[k].path
                &&& found.external == (run_size(list, k) < list[k].observation.nlink)
            },
            (None, None) => true,
            _ => false,
        }
        &&& self.topology.multi_link_groups == complete_runs(list, count)
        &&& self.topology.linked_entries == complete_entries(list, count)
    }

    spec fn compared(&self, list: Seq<LinkView>) -> bool {
        match (self.first_mismatch, least_difference(list, list.len() as int)) {
            (Some(found), Some(i)) => {
                &&& found.detected@ == list[i].path
                &&& found.first_path@ == list[run_start(list, i)].path
            },
            (None, None) => true,
            _ => false,
        }
    }

    /// The resident state describes exactly the observations so far.
    pub closed spec fn wf(&self) -> bool {
        let list = self.history@;
        &&& list.len() <= u64::MAX
        &&& self.compared(list)
        &&& match self.current {
            None => list.len() == 0 && self.counted(list, 0),
            Some(group) => {
                let start = run_start(list, list.len() - 1);
                &&& list.len() > 0
                &&& group.first_path@ == list[start].path
                &&& group.observation == list[start].observation
                &&& group.enumerated == list.len() - start
                &&& self.counted(list, start)
            },
        }
    }

    /// A fold that has observed nothing.
    pub fn new() -> (fold: Self)
        ensures
            fold.wf(),
            fold.observed() == Seq::<LinkView>::empty(),
    {
        HardlinkTopologyFold {
            current: None,
            first_mismatch: None,
            first_count_failure: None,
            topology: RegularHardLinkTopology { multi_link_groups: 0, linked_entries: 0 },
            history: Ghost(Seq::empty()),
        }
    }

    /// Takes in the next observation.
    pub fn observe(&mut self, record: HardlinkScratchObservation) -> (outcome: Result<
        (),
        HeldTreeError,
    >)
        requires
            old(self).wf(),
            old(self).observed().len() < u64::MAX,
        ensures
            outcome is Ok,
            final(self).wf(),
            final(self).observed() == old(self).observed().push(record@),
    {
        let ghost list = self.history@;
        let ghost next = record@;
        let ghost longer = list.push(next);
        let ghost n = list.len() as int;
        let same_file = match &self.current {
            Some(group) => group.observation.identity == record.observation.identity,
            None => false,
        };
        proof {
            assert(longer[n] == next);
            lemma_push_keeps(list, next, n);
            if n > 0 {
                lemma_run_start(list, n - 1);
                assert(longer[n - 1] == list[n - 1]);
                assert(starts_run(longer, n) == !same_file);
            }
            if least_difference(list, n) is Some {
                lemma_least_difference(list, n);
                let i = least_difference(list, n)->0;
                assert(longer[i] == list[i]);
                lemma_push_keeps(list, next, i + 1);
                lemma_run_start(list, i);
                assert(longer[run_start(list, i)] == list[run_start(list, i)]);
            }
        }
        if !same_file {
            self.finish_current();
            self.current =
            Some(
                StreamedRegularGroup {
                    first_path: to_vec(record.path),
                    observation: record.observation,
                    enumerated: 1,
                },
            );
            self.history = Ghost(longer);
            proof {
                lemma_new_run(list, next);
                assert(!differs_in_run(longer, n));
                if least_miscount(list, n) is Some {
                    lemma_least_miscount(list, n);
                    let k = least_miscount(list, n)->0;
                    assert(longer[k] == list[k]);
                }
            }
            return Ok(());
        }
        let ghost start = run_start(list, n - 1);
        proof {
            lemma_push_keeps_runs(list, next, start, start);
            lemma_push_keeps_sizes(list, next, start);
            assert(run_start(longer, n) == start);
            assert(longer[start] == list[start]);
        }
        if let Some(group) = self.current.take() {
            let mut group = group;
            if !group.observation.same(&record.observation) {
                let sooner = match &self.first_mismatch {
                    Some(found) => compare_bytes(Collation::Components, record.path, &found.detected)
                        == PathOrder::Less,
                    None => true,
                };
                if sooner {
                    self.first_mismatch =
                    Some(
                        Difference {
                            detected: to_vec(record.path),
                            first_path: to_vec(&group.first_path),
                        },
                    );
                }
                assert(differs_in_run(longer, n));
            } else {
                assert(!differs_in_run(longer, n));
            }
            group.enumerated = group.enumerated + 1;
            self.current = Some(group);
        }
        self.history = Ghost(longer);
        proof {
            if least_miscount(list, start) is Some {
                lemma_least_miscount(list, start);
                let k = least_miscount(list, start)->0;
                assert(longer[k] == list[k]);
            }
        }
        Ok(())
    }

    /// Closes the current file, if there is one.
    fn finish_current(&mut self)
        requires
            old(self).wf(),
        ensures
            final(self).observed() == old(self).observed(),
            final(self).current is None,
            final(self).first_mismatch == old(self).first_mismatch,
            final(self).counted(old(self).observed(), old(self).observed().len() as int),
    {
        let ghost list = self.history@;
        let ghost n = list.len() as int;
        if let Some(group) = self.current.take() {
            let ghost start = run_start(list, n - 1);
            proof {
                lemma_run_start(list, n - 1);
                lemma_next_start_is(list, start + 1, n);
                lemma_inside_run(list, start, n);
                lemma_complete_bounds(list, start);
                lemma_next_start(list, start);
                assert(next_start(list, start) == start);
                assert(run_size(list, start) == group.enumerated);
                lemma_least_miscount(list, start);
            }
            if group.enumerated == group.observation.nlink {
                if group.enumerated != 1 {
                    self.topology =
                    RegularHardLinkTopology {
                        multi_link_groups: self.topology.multi_link_groups + 1,
                        linked_entries: self.topology.linked_entries + group.enumerated,
                    };
                }
            } else {
                let external = group.enumerated < group.observation.nlink;
                let sooner = match &self.first_count_failure {
                    Some(found) => compare_bytes(
                        Collation::Components,
                        &group.first_path,
                        &found.first_path,
                    ) == PathOrder::Less,
                    None => true,
                };
                if sooner {
                    self.first_count_failure =
                    Some(Miscount { first_path: group.first_path, external });
                }
            }
        }
    }

    /// Ends the stream.
    pub fn finish(self) -> (outcome: Result<RegularHardLinkTopology, HeldTreeError>)
        requires
            self.wf(),
        ensures
            refused_for(outcome, stream_fault(self.observed())),
            outcome matches Ok(topology) ==> {
                &&& topology.multi_link_groups == complete_runs(
                    self.observed(),
                    self.observed().len() as int,
                )
                &&& topology.linked_entries == complete_entries(
                    self.observed(),
                    self.observed().len() as int,
                )
            },
    {
        let mut closed = self;
        closed.finish_current();
        if let Some(found) = closed.first_mismatch {
            return Err(HeldTreeError::ContentChangedDuringHash(found.first_path));
        }
        if let Some(found) = closed.first_count_failure {
            if found.external {
                return Err(HeldTreeError::ExternalOrUnenumeratedHardLink(found.first_path));
            }
            return Err(HeldTreeError::ContentChangedDuringHash(found.first_path));
        }
        Ok(closed.topology)
    }
}

/// Runs before the last one keep their sizes in a longer stream.
proof fn lemma_push_keeps_sizes(list: Seq<LinkView>, next: LinkView, last: int)
    requires
        0 <= last < list.len(),
        starts_run(list, last),
    ensures
        forall|k: int| 0 <= k < last ==> #[trigger] run_size(list.push(next), k) == run_size(list, k),
{
    let longer = list.push(next);
    assert forall|j: int| 0 <= j <= last implies #[trigger] starts_run(longer, j) == starts_run(
        list,
        j,
    ) by {
        assert(longer[j] == list[j]);
        if j > 0 {
            assert(longer[j - 1] == list[j - 1]);
        }
    }
    assert forall|k: int| 0 <= k < last implies #[trigger] run_size(longer, k) == run_size(
        list,
        k,
    ) by {
        lemma_next_start(list, k + 1);
        let at = next_start(list, k + 1);
        assert(at <= last) by {
            if at > last {
                assert(!starts_run(list, last));
            }
        }
        lemma_next_start_is(longer, k + 1, at);
    }
}

/// A stream that goes on with another file has closed all runs before.
proof fn lemma_new_run(list: Seq<LinkView>, next: LinkView)
    requires
        list.len() > 0 ==> file_of(list, list.len() - 1) != next.observation.identity,
    ensures
        ({
            let longer = list.push(next);
            let n = list.len() as int;
            &&& starts_run(longer, n)
            &&& run_start(longer, n) == n
            &&& least_miscount(longer, n) == least_miscount(list, n)
            &&& complete_runs(longer, n) == complete_runs(list, n)
            &&& complete_entries(longer, n) == complete_entries(list, n)
            &&& forall|k: int| 0 <= k < n ==> #[trigger] run_size(longer, k) == run_size(list, k)
        }),
{
    let longer = list.push(next);
    let n = list.len() as int;
    assert(longer[n] == next);
    if n > 0 {
        assert(longer[n - 1] == list[n - 1]);
    }
    assert forall|j: int| 0 <= j < n implies #[trigger] starts_run(longer, j) == starts_run(
        list,
        j,
    ) by {
        assert(longer[j] == list[j]);
        if j > 0 {
            assert(longer[j - 1] == list[j - 1]);
        }
    }
    assert forall|k: int| 0 <= k < n implies #[trigger] run_size(longer, k) == run_size(
        list,
        k,
    ) by {
        lemma_next_start(list, k + 1);
        lemma_next_start_is(longer, k + 1, next_start(list, k + 1));
    }
    lemma_same_runs(list, longer, n);
}

/// Streams that agree on their runs agree on what is found in them.
proof fn lemma_same_runs(list: Seq<LinkView>, longer: Seq<LinkView>, count: int)
    requires
        0 <= count <= list.len() <= longer.len(),
        forall|j: int| 0 <= j < list.len() ==> longer[j] == list[j],
        forall|j: int|
            0 <= j < list.len() ==> #[trigger] starts_run(longer, j) == starts_run(list, j),
        forall|k: int|
            0 <= k < list.len() ==> #[trigger] run_size(longer, k) == run_size(list, k),
    ensures
        least_miscount(longer, count) == least_miscount(list, count),
        complete_runs(longer, count) == complete_runs(list, count),
        complete_entries(longer, count) == complete_entries(list, count),
    decreases count,
{
    if count > 0 {
        let k = count - 1;
        lemma_same_runs(list, longer, k);
        assert(longer[k] == list[k]);
        assert(starts_run(longer, k) == starts_run(list, k));
        assert(run_size(longer, k) == run_size(list, k));
        if least_miscount(list, k) is Some {
            lemma_least_miscount(list, k);
            let i = least_miscount(list, k)->0;
            assert(longer[i] == list[i]);
        }
    }
}

} // verus!
