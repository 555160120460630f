//! What the sources of findings report.
//!
//! A source looks for the roots of its caches and scans them. Where it loses
//! sight of a tree it says so, and why: what was not measured weighs more than
//! what was left out on purpose, and what is not known counts as not measured.

use crate::bytes::bytes_equal;
use crate::bytes::to_vec;
use crate::disposition::derived;
use crate::disposition::scan_priority;
use crate::disposition::stated;
use crate::finding::is_measured;
use crate::finding::FindingCandidate;
use crate::finding::FindingFacts;
use crate::paths::paths_equal;
use crate::paths::push_path;
use crate::paths::pushed;
use crate::paths::same_path;
use crate::text::lossy_string;
use crate::text::lossy_text;
use vstd::prelude::*;

verus! {

/// An error of the operating system, carried along as it came.
#[verifier::external_type_specification]
#[verifier::external_body]
pub struct ExIoError(std::io::Error);

/// When a root is scanned.
#[derive(Clone, Copy, Debug, PartialEq, Eq, Structural, PartialOrd, Ord)]
pub enum ScanPriority {
    Preferred,
    Deferred,
}

/// A root that could not be looked for.
#[derive(Debug)]
pub struct RootFailure {
    pub path: Vec<u8>,
    pub error: std::io::Error,
}

/// The roots that a source found.
#[derive(Debug)]
pub struct RootOutcome {
    pub roots: Vec<Root>,
    pub incomplete: bool,
    pub truncated: bool,
    /// The first probes that failed.
    pub failures: Vec<RootFailure>,
}

impl Default for RootOutcome {
    fn default() -> (outcome: Self)
        ensures
            outcome.roots@.len() == 0,
            !outcome.incomplete,
            !outcome.truncated,
            outcome.failures@.len() == 0,
    {
        RootOutcome {
            roots: Vec::new(),
            incomplete: false,
            truncated: false,
            failures: Vec::new(),
        }
    }
}

/// The failures that are kept when more come in.
pub open spec fn kept_failures(kept: Seq<RootFailure>, more: Seq<RootFailure>) -> Seq<RootFailure> {
    if kept.len() >= RootOutcome::FAILURE_SAMPLE_CAP {
        kept
    } else if kept.len() + more.len() <= RootOutcome::FAILURE_SAMPLE_CAP {
        kept + more
    } else {
        kept + more.take(RootOutcome::FAILURE_SAMPLE_CAP - kept.len())
    }
}

impl RootOutcome {
    /// How many failed probes an outcome keeps.
    pub const FAILURE_SAMPLE_CAP: usize = 8;

    /// Nothing was found because looking failed.
    pub fn failed() -> (outcome: Self)
        ensures
            outcome.incomplete,
            outcome.roots@.len() == 0,
            !outcome.truncated,
            outcome.failures@.len() == 0,
    {
        RootOutcome {
            roots: Vec::new(),
            incomplete: true,
            truncated: false,
            failures: Vec::new(),
        }
    }

    /// Adds what another search found.
    pub fn merge(&mut self, other: Self)
        ensures
            final(self).roots@ == old(self).roots@ + other.roots@,
            final(self).incomplete == (old(self).incomplete || other.incomplete),
            final(self).truncated == (old(self).truncated || other.truncated),
            final(self).failures@ == kept_failures(old(self).failures@, other.failures@),
    {
        let mut other = other;
        let ghost kept = self.failures@;
        let ghost more = other.failures@;
        self.roots.append(&mut other.roots);
        self.incomplete = self.incomplete || other.incomplete;
        self.truncated = self.truncated || other.truncated;
        if self.failures.len() >= RootOutcome::FAILURE_SAMPLE_CAP {
            return ;
        }
        let room: usize = RootOutcome::FAILURE_SAMPLE_CAP - self.failures.len();
        other.failures.truncate(room);
        self.failures.append(&mut other.failures);
        assert(self.failures@ =~= kept_failures(kept, more));
    }

    /// Something was missed.
    pub fn mark_incomplete(&mut self)
        ensures
            *final(self) == (RootOutcome { incomplete: true, ..*old(self) }),
    {
        self.incomplete = true;
    }

    /// A root was missed; where and why is kept, unless too many failed before.
    pub fn record_failure(&mut self, path: Vec<u8>, error: std::io::Error)
        ensures
            final(self).roots@ == old(self).roots@,
            final(self).incomplete,
            final(self).truncated == old(self).truncated,
            final(self).failures@ == kept_failures(
                old(self).failures@,
                seq![RootFailure { path, error }],
            ),
    {
        let ghost kept = self.failures@;
        self.incomplete = true;
        let failure = RootFailure { path, error };
        let ghost more = seq![failure];
        if self.failures.len() < RootOutcome::FAILURE_SAMPLE_CAP {
            self.failures.push(failure);
        }
        assert(self.failures@ =~= kept_failures(kept, more));
    }

    /// The search stopped early.
    pub fn mark_truncated(&mut self)
        ensures
            *final(self) == (RootOutcome { truncated: true, ..*old(self) }),
    {
        self.truncated = true;
    }
}

/// Why a region is incomplete.
#[derive(Clone, Copy, Debug, PartialEq, Eq, Structural)]
pub enum RegionCause {
    /// It could not be measured, or nobody knows why.
    Measurement,
    /// It was left out on purpose, by name.
    Protected,
}

/// A region that is incomplete.
#[derive(Debug)]
pub struct IncompleteRegion {
    path: Vec<u8>,
    cause: RegionCause,
}

/// The content of an [`IncompleteRegion`].
#[verifier::ext_equal]
pub struct RegionView {
    pub path: Seq<u8>,
    pub cause: RegionCause,
}

impl View for IncompleteRegion {
    type V = RegionView;

    closed spec fn view(&self) -> RegionView {
        RegionView { path: self.path@, cause: self.cause }
    }
}

impl Clone for IncompleteRegion {
    fn clone(&self) -> (copy: Self)
        ensures
            copy@ == self@,
    {
        IncompleteRegion { path: to_vec(self.path.as_slice()), cause: self.cause }
    }
}

impl IncompleteRegion {
    /// Where sight was lost.
    pub fn path(&self) -> (path: &[u8])
        ensures
            path@ == self@.path,
    {
        self.path.as_slice()
    }

    /// Why sight was lost.
    pub fn cause(&self) -> (cause: RegionCause)
        ensures
            cause == self@.cause,
    {
        self.cause
    }
}

/// The regions that are incomplete: some with their place, and how many more
/// there were.
#[derive(Debug)]
pub struct IncompleteRegions {
    sample: Vec<IncompleteRegion>,
    overflowed: u64,
    unlocated: u64,
}

/// The content of [`IncompleteRegions`].
#[verifier::ext_equal]
pub struct RegionsView {
    pub sample: Seq<RegionView>,
    /// Regions that were not kept because there were too many.
    pub overflowed: u64,
    /// Regions without a place.
    pub unlocated: u64,
}

/// The contents of a list of regions.
pub open spec fn region_views(list: Seq<IncompleteRegion>) -> Seq<RegionView> {
    Seq::new(list.len(), |i: int| list[i]@)
}

impl View for IncompleteRegions {
    type V = RegionsView;

    closed spec fn view(&self) -> RegionsView {
        RegionsView {
            sample: region_views(self.sample@),
            overflowed: self.overflowed,
            unlocated: self.unlocated,
        }
    }
}

/// No region.
pub open spec fn no_regions() -> RegionsView {
    RegionsView { sample: Seq::empty(), overflowed: 0, unlocated: 0 }
}

/// One more, as far as that can be counted.
pub open spec fn counted_up(count: u64, by: u64) -> u64 {
    if count + by > u64::MAX {
        u64::MAX
    } else {
        (count + by) as u64
    }
}

/// Where a path stands in the sample.
pub open spec fn region_at(sample: Seq<RegionView>, path: Seq<u8>, from: int) -> Option<int>
    decreases sample.len() - from,
{
    if from >= sample.len() {
        None
    } else if same_path(sample[from].path, path) {
        Some(from)
    } else {
        region_at(sample, path, from + 1)
    }
}

/// The regions with one more. A region that is known keeps its path and the
/// stricter cause; a new one is kept while there is room, and counted otherwise.
pub open spec fn with_region(regions: RegionsView, region: RegionView) -> RegionsView {
    match region_at(regions.sample, region.path, 0) {
        Some(i) => if region.cause is Measurement {
            RegionsView {
                sample: regions.sample.update(
                    i,
                    RegionView { cause: RegionCause::Measurement, ..regions.sample[i] },
                ),
                ..regions
            }
        } else {
            regions
        },
        None => if regions.sample.len() >= IncompleteRegions::SAMPLE_CAP {
            RegionsView { overflowed: counted_up(regions.overflowed, 1), ..regions }
        } else {
            RegionsView { sample: regions.sample.push(region), ..regions }
        },
    }
}

/// The regions with the first `count` of a list.
pub open spec fn with_regions(regions: RegionsView, more: Seq<RegionView>, count: int)
    -> RegionsView
    decreases count,
{
    if count <= 0 {
        regions
    } else {
        with_region(with_regions(regions, more, count - 1), more[count - 1])
    }
}

/// The regions of two together.
pub open spec fn merged_regions(regions: RegionsView, other: RegionsView) -> RegionsView {
    with_regions(
        RegionsView {
            overflowed: counted_up(regions.overflowed, other.overflowed),
            unlocated: counted_up(regions.unlocated, other.unlocated),
            ..regions
        },
        other.sample,
        other.sample.len() as int,
    )
}

/// How many regions have no place in the sample.
pub open spec fn unsampled_regions(regions: RegionsView) -> u64 {
    counted_up(regions.overflowed, regions.unlocated)
}

/// Something was not measured, or is not known to have been.
pub open spec fn is_unmeasured(regions: RegionsView) -> bool {
    regions.overflowed > 0 || regions.unlocated > 0 || exists|i: int|
        0 <= i < regions.sample.len() && (#[trigger] regions.sample[i]).cause is Measurement
}

/// How many of the first `count` regions were left out on purpose.
pub open spec fn protected_count(sample: Seq<RegionView>, count: int) -> nat
    decreases count,
{
    if count <= 0 {
        0
    } else if sample[count - 1].cause is Protected {
        protected_count(sample, count - 1) + 1
    } else {
        protected_count(sample, count - 1)
    }
}

/// The sample is as small as it has to be and names no path twice.
pub open spec fn is_sample(sample: Seq<RegionView>) -> bool {
    &&& sample.len() <= IncompleteRegions::SAMPLE_CAP
    &&& forall|i: int, j: int|
        #![trigger sample[i], sample[j]]
        0 <= i < j < sample.len() ==> !same_path(sample[i].path, sample[j].path)
}

/// A found place holds the path.
proof fn lemma_region_at(sample: Seq<RegionView>, path: Seq<u8>, from: int)
    requires
        0 <= from,
    ensures
        match region_at(sample, path, from) {
            Some(i) => from <= i < sample.len() && same_path(sample[i].path, path),
            None => forall|i: int|
                from <= i < sample.len() ==> !same_path((#[trigger] sample[i]).path, path),
        },
    decreases sample.len() - from,
{
    if from < sample.len() && !same_path(sample[from].path, path) {
        lemma_region_at(sample, path, from + 1);
    }
}

/// One more region keeps the sample in order.
pub proof fn law_sample_stays_bounded(regions: RegionsView, region: RegionView)
    requires
        is_sample(regions.sample),
    ensures
        is_sample(with_region(regions, region).sample),
{
    lemma_region_at(regions.sample, region.path, 0);
}

/// What was not measured stays so: recording anything never hides it, and
/// recording that a region was not measured always shows.
pub proof fn law_unmeasured_regions_stay(regions: RegionsView, region: RegionView)
    ensures
        is_unmeasured(regions) || region.cause is Measurement ==> is_unmeasured(
            with_region(regions, region),
        ),
        is_unmeasured(with_region(regions, region)) ==> is_unmeasured(regions)
            || region.cause is Measurement || regions.sample.len() >= IncompleteRegions::SAMPLE_CAP,
{
    let after = with_region(regions, region);
    lemma_region_at(regions.sample, region.path, 0);
    let place = region_at(regions.sample, region.path, 0);
    if is_unmeasured(regions) && !(regions.overflowed > 0 || regions.unlocated > 0) {
        let i = choose|i: int|
            0 <= i < regions.sample.len() && (#[trigger] regions.sample[i]).cause is Measurement;
        assert(after.sample[i].cause is Measurement);
    }
    if region.cause is Measurement {
        match place {
            Some(i) => assert(after.sample[i].cause is Measurement),
            None => if regions.sample.len() < IncompleteRegions::SAMPLE_CAP {
                assert(after.sample[regions.sample.len() as int].cause is Measurement);
            },
        }
    }
    if is_unmeasured(after) && !(after.overflowed > 0 || after.unlocated > 0) {
        let i = choose|i: int|
            0 <= i < after.sample.len() && (#[trigger] after.sample[i]).cause is Measurement;
        if region.cause is Protected && i < regions.sample.len() {
            assert(regions.sample[i].cause is Measurement);
        }
    }
}

/// What either of two did not measure, both together did not.
pub proof fn law_merging_hides_nothing(regions: RegionsView, other: RegionsView)
    ensures
        is_unmeasured(regions) || is_unmeasured(other) ==> is_unmeasured(
            merged_regions(regions, other),
        ),
{
    let start = RegionsView {
        overflowed: counted_up(regions.overflowed, other.overflowed),
        unlocated: counted_up(regions.unlocated, other.unlocated),
        ..regions
    };
    if is_unmeasured(regions) && !(regions.overflowed > 0 || regions.unlocated > 0) {
        let i = choose|i: int|
            0 <= i < regions.sample.len() && (#[trigger] regions.sample[i]).cause is Measurement;
        assert(start.sample[i].cause is Measurement);
    }
    if is_unmeasured(start) {
        lemma_merge_keeps(start, other.sample, other.sample.len() as int);
    } else if is_unmeasured(other) {
        let i = choose|i: int|
            0 <= i < other.sample.len() && (#[trigger] other.sample[i]).cause is Measurement;
        lemma_merge_shows(start, other.sample, i, other.sample.len() as int);
    }
}

/// Recording more regions hides nothing.
proof fn lemma_merge_keeps(regions: RegionsView, more: Seq<RegionView>, count: int)
    requires
        0 <= count <= more.len(),
        is_unmeasured(regions),
    ensures
        is_unmeasured(with_regions(regions, more, count)),
    decreases count,
{
    if count > 0 {
        lemma_merge_keeps(regions, more, count - 1);
        law_unmeasured_regions_stay(with_regions(regions, more, count - 1), more[count - 1]);
    }
}

/// A region that was not measured shows among those recorded.
proof fn lemma_merge_shows(regions: RegionsView, more: Seq<RegionView>, at: int, count: int)
    requires
        0 <= at < count <= more.len(),
        more[at].cause is Measurement,
    ensures
        is_unmeasured(with_regions(regions, more, count)),
    decreases count,
{
    if at < count - 1 {
        lemma_merge_shows(regions, more, at, count - 1);
    }
    law_unmeasured_regions_stay(with_regions(regions, more, count - 1), more[count - 1]);
}

impl Default for IncompleteRegions {
    fn default() -> (regions: Self)
        ensures
            regions@ == no_regions(),
    {
        let regions = IncompleteRegions { sample: Vec::new(), overflowed: 0, unlocated: 0 };
        assert(regions@.sample =~= Seq::<RegionView>::empty());
        regions
    }
}

impl Clone for IncompleteRegions {
    fn clone(&self) -> (copy: Self)
        ensures
            copy@ == self@,
    {
        proof {
            use_type_invariant(self);
        }
        let mut sample: Vec<IncompleteRegion> = Vec::new();
        let mut i: usize = 0;
        while i < self.sample.len()
            invariant
                i <= self.sample@.len(),
                region_views(sample@) == region_views(self.sample@).take(i as int),
            decreases self.sample@.len() - i,
        {
            let ghost before = region_views(sample@);
            sample.push(self.sample[i].clone());
            assert(region_views(sample@) =~= before.push(self.sample@[i as int]@));
            assert(region_views(self.sample@).take(i + 1) =~= before.push(self.sample@[i as int]@));
            i += 1;
        }
        assert(region_views(sample@) =~= region_views(self.sample@));
        IncompleteRegions { sample, overflowed: self.overflowed, unlocated: self.unlocated }
    }
}

impl IncompleteRegions {
    /// How many regions are kept with their place.
    pub const SAMPLE_CAP: usize = 32;

    #[verifier::type_invariant]
    spec fn is_valid(self) -> bool {
        is_sample(region_views(self.sample@))
    }

    fn position(&self, path: &[u8]) -> (position: Option<usize>)
        ensures
            match position {
                Some(i) => i < self.sample@.len() && region_at(self@.sample, path@, 0) == Some(
                    i as int,
                ),
                None => region_at(self@.sample, path@, 0) is None,
            },
    {
        let mut i: usize = 0;
        while i < self.sample.len()
            invariant
                i <= self.sample@.len(),
                region_at(self@.sample, path@, 0) == region_at(self@.sample, path@, i as int),
            decreases self.sample@.len() - i,
        {
            assert(self@.sample[i as int] == self.sample@[i as int]@);
            if paths_equal(self.sample[i].path.as_slice(), path) {
                return Some(i);
            }
            i += 1;
        }
        None
    }

    /// Records a region.
    pub fn record(&mut self, path: &[u8], cause: RegionCause)
        ensures
            final(self)@ == with_region(old(self)@, RegionView { path: path@, cause }),
    {
        let ghost before = self@;
        let ghost region = RegionView { path: path@, cause };
        proof {
            use_type_invariant(&*self);
            law_sample_stays_bounded(before, region);
            lemma_region_at(before.sample, path@, 0);
        }
        match self.position(path) {
            Some(i) => {
                if cause == RegionCause::Measurement {
                    let mut sample: Vec<IncompleteRegion> = Vec::new();
                    std::mem::swap(&mut sample, &mut self.sample);
                    let known = to_vec(sample[i].path.as_slice());
                    sample.set(i, IncompleteRegion { path: known, cause });
                    assert(region_views(sample@) =~= before.sample.update(
                        i as int,
                        RegionView { cause, ..before.sample[i as int] },
                    ));
                    self.sample = sample;
                }
            },
            None => {
                if self.sample.len() >= IncompleteRegions::SAMPLE_CAP {
                    self.overflowed = self.overflowed.saturating_add(1);
                } else {
                    let mut sample: Vec<IncompleteRegion> = Vec::new();
                    std::mem::swap(&mut sample, &mut self.sample);
                    sample.push(IncompleteRegion { path: to_vec(path), cause });
                    assert(region_views(sample@) =~= before.sample.push(region));
                    self.sample = sample;
                }
            },
        }
    }

    /// Records a region without a place.
    pub fn record_unlocated(&mut self)
        ensures
            final(self)@ == (RegionsView {
                unlocated: counted_up(old(self)@.unlocated, 1),
                ..old(self)@
            }),
    {
        proof {
            use_type_invariant(&*self);
        }
        self.unlocated = self.unlocated.saturating_add(1);
    }

    /// Gives every region without a place the place of the root that it lies
    /// under. Why they are incomplete is not known, so they were not measured.
    pub fn resolve_unlocated(&mut self, root: &[u8])
        ensures
            final(self)@ == if old(self)@.unlocated == 0 {
                old(self)@
            } else {
                with_region(
                    RegionsView { unlocated: 0, ..old(self)@ },
                    RegionView { path: root@, cause: RegionCause::Measurement },
                )
            },
    {
        if self.unlocated == 0 {
            return ;
        }
        proof {
            use_type_invariant(&*self);
        }
        self.unlocated = 0;
        self.record(root, RegionCause::Measurement);
    }

    /// Adds the regions of another.
    pub fn merge(&mut self, other: Self)
        ensures
            final(self)@ == merged_regions(old(self)@, other@),
    {
        proof {
            use_type_invariant(&*self);
        }
        self.overflowed = self.overflowed.saturating_add(other.overflowed);
        self.unlocated = self.unlocated.saturating_add(other.unlocated);
        let ghost start = self@;
        let ghost more = other@.sample;
        let mut i: usize = 0;
        while i < other.sample.len()
            invariant
                i <= other.sample@.len(),
                more == region_views(other.sample@),
                self@ == with_regions(start, more, i as int),
            decreases other.sample@.len() - i,
        {
            assert(more[i as int] == other.sample@[i as int]@);
            self.record(other.sample[i].path.as_slice(), other.sample[i].cause);
            i += 1;
        }
    }

    /// The regions with a place: not too many, and none twice.
    pub fn sample(&self) -> (sample: &[IncompleteRegion])
        ensures
            region_views(sample@) == self@.sample,
            is_sample(self@.sample),
    {
        proof {
            use_type_invariant(self);
        }
        self.sample.as_slice()
    }

    /// How many regions have no place in the sample.
    pub fn unsampled(&self) -> (count: u64)
        ensures
            count == unsampled_regions(self@),
    {
        self.overflowed.saturating_add(self.unlocated)
    }

    /// Whether something was not measured, or is not known to have been.
    pub fn has_measurement_events(&self) -> (found: bool)
        ensures
            found == is_unmeasured(self@),
    {
        if self.unsampled() > 0 {
            return true;
        }
        let mut i: usize = 0;
        while i < self.sample.len()
            invariant
                i <= self.sample@.len(),
                self@.overflowed == 0,
                self@.unlocated == 0,
                forall|j: int| 0 <= j < i ==> !((#[trigger] self@.sample[j]).cause is Measurement),
            decreases self.sample@.len() - i,
        {
            assert(self@.sample[i as int] == self.sample@[i as int]@);
            if self.sample[i].cause == RegionCause::Measurement {
                return true;
            }
            i += 1;
        }
        false
    }

    /// How many regions were left out on purpose.
    pub fn protected_regions(&self) -> (count: usize)
        ensures
            count == protected_count(self@.sample, self@.sample.len() as int),
    {
        let mut count: usize = 0;
        let mut i: usize = 0;
        while i < self.sample.len()
            invariant
                i <= self.sample@.len(),
                count <= i,
                count == protected_count(self@.sample, i as int),
            decreases self.sample@.len() - i,
        {
            assert(self@.sample[i as int] == self.sample@[i as int]@);
            if self.sample[i].cause == RegionCause::Protected {
                count += 1;
            }
            i += 1;
        }
        count
    }

    /// How many regions were not kept because there were too many.
    pub fn overflowed(&self) -> (count: u64)
        ensures
            count == self@.overflowed,
    {
        self.overflowed
    }

    /// How many regions have no place.
    pub fn unlocated(&self) -> (count: u64)
        ensures
            count == self@.unlocated,
    {
        self.unlocated
    }

    /// Whether nothing is incomplete.
    pub fn is_empty(&self) -> (empty: bool)
        ensures
            empty == (self@ == no_regions()),
    {
        let empty = self.sample.len() == 0 && self.unsampled() == 0;
        proof {
            assert(self@.sample.len() == self.sample@.len());
            if empty {
                assert(self@ =~= no_regions());
            }
        }
        empty
    }
}

/// What the scan of a root came to.
#[derive(Debug)]
pub struct ScanOutcome {
    pub candidates: Vec<FindingCandidate>,
    pub incomplete: bool,
    pub truncated: bool,
    /// Where the scan lost sight of the tree.
    pub incomplete_regions: IncompleteRegions,
}

impl Default for ScanOutcome {
    fn default() -> (outcome: Self)
        ensures
            outcome.candidates@.len() == 0,
            !outcome.incomplete,
            !outcome.truncated,
            outcome.incomplete_regions@ == no_regions(),
    {
        ScanOutcome {
            candidates: Vec::new(),
            incomplete: false,
            truncated: false,
            incomplete_regions: IncompleteRegions::default(),
        }
    }
}

/// Why a candidate is incomplete, if it is.
pub open spec fn candidate_cause(candidate: FindingCandidate) -> Option<RegionCause> {
    if !is_measured(candidate) {
        Some(RegionCause::Measurement)
    } else if candidate.protected_boundaries > 0 {
        Some(RegionCause::Protected)
    } else {
        None
    }
}

/// The incomplete regions of the first `count` candidates.
pub open spec fn candidate_regions(candidates: Seq<FindingCandidate>, count: int) -> RegionsView
    decreases count,
{
    if count <= 0 {
        no_regions()
    } else {
        match candidate_cause(candidates[count - 1]) {
            Some(cause) => with_region(
                candidate_regions(candidates, count - 1),
                RegionView { path: candidates[count - 1].path@, cause },
            ),
            None => candidate_regions(candidates, count - 1),
        }
    }
}

/// One of the candidates is incomplete.
pub open spec fn some_incomplete(candidates: Seq<FindingCandidate>) -> bool {
    exists|i: int|
        0 <= i < candidates.len() && candidate_cause(#[trigger] candidates[i]) is Some
}

/// One of the candidates was cut short.
pub open spec fn some_truncated(candidates: Seq<FindingCandidate>) -> bool {
    exists|i: int| 0 <= i < candidates.len() && (#[trigger] candidates[i]).truncated
}

/// The regions of candidates are empty exactly where none is incomplete.
proof fn lemma_candidate_regions(candidates: Seq<FindingCandidate>, count: int)
    requires
        0 <= count <= candidates.len(),
    ensures
        candidate_regions(candidates, count) == no_regions() <==> forall|i: int|
            0 <= i < count ==> candidate_cause(#[trigger] candidates[i]) is None,
        candidate_regions(candidates, count) != no_regions() ==> candidate_regions(
            candidates,
            count,
        ).sample.len() > 0,
    decreases count,
{
    if count > 0 {
        lemma_candidate_regions(candidates, count - 1);
        let before = candidate_regions(candidates, count - 1);
        let path = candidates[count - 1].path@;
        lemma_region_at(before.sample, path, 0);
        if candidate_cause(candidates[count - 1]) is Some {
            assert(candidate_regions(candidates, count).sample.len() > 0);
        }
    }
}

fn candidate_region_cause(candidate: &FindingCandidate) -> (cause: Option<RegionCause>)
    ensures
        cause == candidate_cause(*candidate),
{
    if candidate.skipped > 0 || candidate.unvisited_dirs > 0 || candidate.truncated {
        Some(RegionCause::Measurement)
    } else if candidate.protected_boundaries > 0 {
        Some(RegionCause::Protected)
    } else {
        None
    }
}

impl ScanOutcome {
    /// The outcome of a scan that found these candidates. It is incomplete where
    /// one of them is.
    pub fn from_candidates(candidates: Vec<FindingCandidate>) -> (outcome: Self)
        ensures
            outcome.candidates@ == candidates@,
            outcome.incomplete == some_incomplete(candidates@),
            outcome.truncated == some_truncated(candidates@),
            outcome.incomplete_regions@ == candidate_regions(
                candidates@,
                candidates@.len() as int,
            ),
    {
        let mut incomplete_regions = IncompleteRegions::default();
        let mut truncated = false;
        let mut i: usize = 0;
        while i < candidates.len()
            invariant
                i <= candidates@.len(),
                incomplete_regions@ == candidate_regions(candidates@, i as int),
                truncated == exists|j: int| 0 <= j < i && (#[trigger] candidates@[j]).truncated,
            decreases candidates@.len() - i,
        {
            match candidate_region_cause(&candidates[i]) {
                Some(cause) => incomplete_regions.record(candidates[i].path.as_slice(), cause),
                None => {},
            }
            if candidates[i].truncated {
                truncated = true;
            }
            i += 1;
        }
        proof {
            lemma_candidate_regions(candidates@, candidates@.len() as int);
        }
        let incomplete = !incomplete_regions.is_empty();
        ScanOutcome { candidates, incomplete, truncated, incomplete_regions }
    }

    /// The scan failed.
    pub fn failed() -> (outcome: Self)
        ensures
            outcome.candidates@.len() == 0,
            outcome.incomplete,
            !outcome.truncated,
            outcome.incomplete_regions@ == (RegionsView { unlocated: 1, ..no_regions() }),
    {
        let mut incomplete_regions = IncompleteRegions::default();
        incomplete_regions.record_unlocated();
        ScanOutcome {
            candidates: Vec::new(),
            incomplete: true,
            truncated: false,
            incomplete_regions,
        }
    }

    /// The scan was cut short before it found anything.
    pub fn truncated() -> (outcome: Self)
        ensures
            outcome.candidates@.len() == 0,
            !outcome.incomplete,
            outcome.truncated,
            outcome.incomplete_regions@ == no_regions(),
    {
        ScanOutcome {
            candidates: Vec::new(),
            incomplete: false,
            truncated: true,
            incomplete_regions: IncompleteRegions::default(),
        }
    }

    /// Adds the outcome of another scan.
    pub fn merge(&mut self, other: Self)
        ensures
            final(self).candidates@ == old(self).candidates@ + other.candidates@,
            final(self).incomplete == (old(self).incomplete || other.incomplete),
            final(self).truncated == (old(self).truncated || other.truncated),
            final(self).incomplete_regions@ == merged_regions(
                old(self).incomplete_regions@,
                other.incomplete_regions@,
            ),
    {
        let mut candidates = other.candidates;
        self.candidates.append(&mut candidates);
        self.incomplete = self.incomplete || other.incomplete;
        self.truncated = self.truncated || other.truncated;
        self.incomplete_regions.merge(other.incomplete_regions);
    }

    /// Something was missed, nobody knows where.
    pub fn mark_incomplete(&mut self)
        ensures
            final(self).candidates@ == old(self).candidates@,
            final(self).incomplete,
            final(self).truncated == old(self).truncated,
            final(self).incomplete_regions@ == (RegionsView {
                unlocated: counted_up(old(self).incomplete_regions@.unlocated, 1),
                ..old(self).incomplete_regions@
            }),
    {
        self.incomplete = true;
        self.incomplete_regions.record_unlocated();
    }

    /// Something was missed there.
    pub fn mark_incomplete_at(&mut self, region: &[u8])
        ensures
            final(self).candidates@ == old(self).candidates@,
            final(self).incomplete,
            final(self).truncated == old(self).truncated,
            final(self).incomplete_regions@ == with_region(
                old(self).incomplete_regions@,
                RegionView { path: region@, cause: RegionCause::Measurement },
            ),
    {
        self.incomplete = true;
        self.incomplete_regions.record(region, RegionCause::Measurement);
    }

    /// The scan was cut short.
    pub fn mark_truncated(&mut self)
        ensures
            *final(self) == (ScanOutcome { truncated: true, ..*old(self) }),
    {
        self.truncated = true;
    }
}

/// How much the place of a root is worth.
#[derive(Clone, Copy, Debug, PartialEq, Eq, Structural)]
pub enum RootProvenance {
    /// It is where it always is.
    WellKnown,
    /// It was moved; more has to speak for it.
    Redirect,
}

/// Where the path of a root came from.
#[derive(Clone, Copy, Debug, PartialEq, Eq)]
pub enum RootOrigin {
    Fixed,
    /// The environment variable of that name.
    Environment(&'static str),
}

/// Where a cache may be, and how that is known.
#[derive(Clone, Debug)]
pub struct Root {
    pub path: Vec<u8>,
    pub provenance: RootProvenance,
    pub origin: RootOrigin,
    /// Which of the roots of its source it is.
    pub role: Option<&'static str>,
}

impl Root {
    /// A root where it always is.
    pub fn well_known(path: Vec<u8>) -> (root: Self)
        ensures
            root == (Root {
                path,
                provenance: RootProvenance::WellKnown,
                origin: RootOrigin::Fixed,
                role: None,
            }),
    {
        Root { path, provenance: RootProvenance::WellKnown, origin: RootOrigin::Fixed, role: None }
    }

    /// A root that an environment variable moved.
    pub fn redirect(variable: &'static str, path: Vec<u8>) -> (root: Self)
        ensures
            root == (Root {
                path,
                provenance: RootProvenance::Redirect,
                origin: RootOrigin::Environment(variable),
                role: None,
            }),
    {
        Root {
            path,
            provenance: RootProvenance::Redirect,
            origin: RootOrigin::Environment(variable),
            role: None,
        }
    }

    fn well_known_environment(variable: &'static str, path: Vec<u8>) -> (root: Self)
        ensures
            root == (Root {
                path,
                provenance: RootProvenance::WellKnown,
                origin: RootOrigin::Environment(variable),
                role: None,
            }),
    {
        Root {
            path,
            provenance: RootProvenance::WellKnown,
            origin: RootOrigin::Environment(variable),
            role: None,
        }
    }

    /// The root at `path` below this one.
    pub fn join(self, path: &[u8]) -> (root: Self)
        ensures
            root.path@ == pushed(self.path@, path@),
            root == (Root { path: root.path, ..self }),
    {
        let mut root = self;
        root.path = push_path(root.path.as_slice(), path);
        root
    }

    /// The root with a role.
    pub fn with_role(self, role: &'static str) -> (root: Self)
        ensures
            root == (Root { role: Some(role), ..self }),
    {
        let mut root = self;
        root.role = Some(role);
        root
    }
}

/// A variable by which a cache can be moved.
#[derive(Clone, Copy, Debug)]
pub struct Relocation {
    pub var: &'static str,
    pub subdir: &'static str,
}

/// A variable by which a cache cannot be moved, and why.
#[derive(Clone, Copy, Debug)]
pub struct RelocationRefusal {
    pub var: &'static str,
    pub reason: &'static str,
}

/// A variable of the environment.
#[derive(Debug)]
pub struct EnvironmentVariable {
    pub key: Vec<u8>,
    pub value: Vec<u8>,
}

/// The content of an [`EnvironmentVariable`].
#[verifier::ext_equal]
pub struct VariableView {
    pub key: Seq<u8>,
    pub value: Seq<u8>,
}

impl View for EnvironmentVariable {
    type V = VariableView;

    open spec fn view(&self) -> VariableView {
        VariableView { key: self.key@, value: self.value@ }
    }
}

impl Clone for EnvironmentVariable {
    fn clone(&self) -> (copy: Self)
        ensures
            copy@ == self@,
    {
        EnvironmentVariable {
            key: to_vec(self.key.as_slice()),
            value: to_vec(self.value.as_slice()),
        }
    }
}

/// The contents of a list of variables.
pub open spec fn variables(list: Seq<EnvironmentVariable>) -> Seq<VariableView> {
    Seq::new(list.len(), |i: int| list[i]@)
}

/// The value of a variable among the first `count`: the last one that was set.
pub open spec fn last_value(list: Seq<VariableView>, key: Seq<u8>, count: int) -> Option<Seq<u8>>
    decreases count,
{
    if count <= 0 {
        None
    } else if list[count - 1].key == key {
        Some(list[count - 1].value)
    } else {
        last_value(list, key, count - 1)
    }
}

/// A count that is not zero.
#[derive(Clone, Copy, Debug, PartialEq, Eq)]
pub struct NonZeroCount {
    count: usize,
}

impl NonZeroCount {
    #[verifier::type_invariant]
    spec fn is_valid(self) -> bool {
        self.count > 0
    }

    /// The count.
    pub closed spec fn count(&self) -> usize {
        self.count
    }

    /// A count, unless it is zero.
    pub fn new(count: usize) -> (made: Option<Self>)
        ensures
            made is Some <==> count > 0,
            made matches Some(value) ==> value.count() == count,
    {
        if count == 0 {
            None
        } else {
            Some(NonZeroCount { count })
        }
    }

    /// The count.
    pub fn get(self) -> (count: usize)
        ensures
            count == self.count(),
            count > 0,
    {
        proof {
            use_type_invariant(&self);
        }
        self.count
    }
}

/// What a source may know: the home of the account, a copy of the environment,
/// and how far it may go.
#[derive(Debug)]
pub struct DetectCtx {
    pub home: Vec<u8>,
    /// How many directories may be read at a time.
    pub max_concurrency: Option<NonZeroCount>,
    /// When to stop, on the clock that [`DetectCtx::deadline_elapsed`] is asked
    /// with.
    pub deadline: Option<u64>,
    env: Vec<EnvironmentVariable>,
}

/// The content of a [`DetectCtx`].
#[verifier::ext_equal]
pub struct DetectCtxView {
    pub home: Seq<u8>,
    pub max_concurrency: Option<NonZeroCount>,
    pub deadline: Option<u64>,
    pub env: Seq<VariableView>,
}

impl View for DetectCtx {
    type V = DetectCtxView;

    closed spec fn view(&self) -> DetectCtxView {
        DetectCtxView {
            home: self.home@,
            max_concurrency: self.max_concurrency,
            deadline: self.deadline,
            env: variables(self.env@),
        }
    }
}

impl Clone for DetectCtx {
    fn clone(&self) -> (copy: Self)
        ensures
            copy@ == self@,
    {
        let mut env: Vec<EnvironmentVariable> = Vec::new();
        let mut i: usize = 0;
        while i < self.env.len()
            invariant
                i <= self.env@.len(),
                variables(env@) == variables(self.env@).take(i as int),
            decreases self.env@.len() - i,
        {
            let ghost before = variables(env@);
            env.push(self.env[i].clone());
            proof {
                let next = variables(self.env@)[i as int];
                assert(variables(env@) =~= before.push(next));
                assert(variables(self.env@).take(i + 1) =~= before.push(next));
            }
            i += 1;
        }
        assert(variables(self.env@).take(i as int) =~= variables(self.env@));
        DetectCtx {
            home: to_vec(self.home.as_slice()),
            max_concurrency: self.max_concurrency,
            deadline: self.deadline,
            env,
        }
    }
}

/// A context without a bound.
pub open spec fn fresh_context(home: Seq<u8>, env: Seq<VariableView>) -> DetectCtxView {
    DetectCtxView { home, max_concurrency: None, deadline: None, env }
}

/// The sources whose invalid roots have been reported. Whoever goes by one such
/// list reports each of them once, in however many contexts.
#[derive(Debug)]
pub struct InvalidRootClaims {
    reported: Vec<&'static str>,
}

/// The texts of a list.
pub open spec fn texts(list: Seq<&'static str>) -> Seq<Seq<char>> {
    Seq::new(list.len(), |i: int| list[i]@)
}

impl View for InvalidRootClaims {
    type V = Set<Seq<char>>;

    closed spec fn view(&self) -> Set<Seq<char>> {
        texts(self.reported@).to_set()
    }
}

impl Default for InvalidRootClaims {
    fn default() -> (claims: Self)
        ensures
            claims@ == Set::<Seq<char>>::empty(),
    {
        let claims = InvalidRootClaims { reported: Vec::new() };
        assert(claims@ =~= Set::<Seq<char>>::empty());
        claims
    }
}

impl InvalidRootClaims {
    /// Claims the report on a source, and tells whether nobody has before.
    pub fn claim(&mut self, source: &'static str) -> (first: bool)
        ensures
            first == !old(self)@.contains(source@),
            final(self)@ == old(self)@.insert(source@),
    {
        let ghost before = texts(self.reported@);
        let mut i: usize = 0;
        while i < self.reported.len()
            invariant
                i <= self.reported@.len(),
                before == texts(self.reported@),
                *self == *old(self),
                self@ == before.to_set(),
                forall|j: int| 0 <= j < i ==> #[trigger] before[j] != source@,
            decreases self.reported@.len() - i,
        {
            if self.reported[i].to_owned() == source.to_owned() {
                assert(before[i as int] == source@);
                assert(self@ =~= self@.insert(source@));
                return false;
            }
            i += 1;
        }
        self.reported.push(source);
        proof {
            assert(!before.contains(source@));
            let after = texts(self.reported@);
            assert(after =~= before.push(source@));
            assert forall|text: Seq<char>|
                #![trigger after.to_set().contains(text)]
                after.to_set().contains(text) == before.to_set().insert(source@).contains(text) by {
                if before.contains(text) {
                    let i = choose|i: int| 0 <= i < before.len() && before[i] == text;
                    assert(after[i] == text);
                }
                assert(after[before.len() as int] == source@);
                if after.contains(text) {
                    let i = choose|i: int| 0 <= i < after.len() && after[i] == text;
                    if i < before.len() {
                        assert(before[i] == text);
                    }
                }
            }
            assert(after.to_set() =~= before.to_set().insert(source@));
        }
        true
    }
}

/// Why there is no context.
#[derive(Debug)]
pub enum DetectCtxError {
    /// The account has no home.
    MissingHome,
    /// The home cannot be found.
    HomeCanonicalize { path: Vec<u8>, source: std::io::Error },
}

impl DetectCtxError {
    /// The error in words. What the operating system said is not repeated.
    pub fn describe(&self) -> (text: String)
        ensures
            text@ == match *self {
                DetectCtxError::MissingHome =>
                    "HOME is not set; degu works strictly in user space"@,
                DetectCtxError::HomeCanonicalize { path, .. } => "failed to canonicalize HOME "@
                    + lossy_text(path@),
            },
    {
        match self {
            DetectCtxError::MissingHome =>
                "HOME is not set; degu works strictly in user space".to_owned(),
            DetectCtxError::HomeCanonicalize { path, .. } => {
                let mut text = "failed to canonicalize HOME ".to_owned();
                text.append(lossy_string(path.as_slice()).as_str());
                text
            },
        }
    }
}

/// The value of a variable of a context, unless it is empty.
pub open spec fn env_value(context: DetectCtxView, key: Seq<char>) -> Option<Seq<u8>> {
    match last_value(context.env, vstd::utf8::encode_utf8(key), context.env.len() as int) {
        Some(value) => if value.len() == 0 {
            None
        } else {
            Some(value)
        },
        None => None,
    }
}

/// Where a variable points, or else a place below the home.
pub open spec fn place(context: DetectCtxView, variable: Seq<char>, fallback: Seq<char>) -> Seq<
    u8,
> {
    match env_value(context, variable) {
        Some(value) => value,
        None => pushed(context.home, vstd::utf8::encode_utf8(fallback)),
    }
}

/// The root there.
pub open spec fn is_place_root(
    root: Root,
    context: DetectCtxView,
    variable: &'static str,
    fallback: Seq<char>,
) -> bool {
    &&& root.path@ == place(context, variable@, fallback)
    &&& root.provenance == RootProvenance::WellKnown
    &&& root.role is None
    &&& root.origin == if env_value(context, variable@) is Some {
        RootOrigin::Environment(variable)
    } else {
        RootOrigin::Fixed
    }
}

impl DetectCtx {
    /// The context of a process: `home` is its variable of that name, and
    /// `canonical` what that leads to.
    pub fn from_process(
        home: Option<Vec<u8>>,
        canonical: Result<Vec<u8>, std::io::Error>,
        env: Vec<EnvironmentVariable>,
    ) -> (context: Result<Self, DetectCtxError>)
        ensures
            match (home, canonical) {
                (None, _) => context matches Err(DetectCtxError::MissingHome),
                (Some(given), found) => if given@.len() == 0 {
                    context matches Err(DetectCtxError::MissingHome)
                } else {
                    match found {
                        Ok(path) => context matches Ok(made) && made@ == fresh_context(
                            path@,
                            variables(env@),
                        ),
                        Err(error) => context == Err::<DetectCtx, DetectCtxError>(
                            DetectCtxError::HomeCanonicalize { path: given, source: error },
                        ),
                    }
                },
            },
    {
        let given = match home {
            Some(given) => given,
            None => {
                return Err(DetectCtxError::MissingHome);
            },
        };
        if given.len() == 0 {
            return Err(DetectCtxError::MissingHome);
        }
        match canonical {
            Ok(path) => Ok(DetectCtx::for_test(path, env)),
            Err(error) => Err(DetectCtxError::HomeCanonicalize { path: given, source: error }),
        }
    }

    /// A context with a given home and environment.
    pub fn for_test(home: Vec<u8>, env: Vec<EnvironmentVariable>) -> (context: Self)
        ensures
            context@ == fresh_context(home@, variables(env@)),
    {
        DetectCtx { home, max_concurrency: None, deadline: None, env }
    }

    /// The context with a bound on how many directories are read at a time.
    pub fn with_max_concurrency(self, max_concurrency: Option<NonZeroCount>) -> (context: Self)
        ensures
            context@ == (DetectCtxView { max_concurrency, ..self@ }),
    {
        let mut context = self;
        context.max_concurrency = max_concurrency;
        context
    }

    /// The context with a time to stop.
    pub fn with_deadline(self, deadline: Option<u64>) -> (context: Self)
        ensures
            context@ == (DetectCtxView { deadline, ..self@ }),
    {
        let mut context = self;
        context.deadline = deadline;
        context
    }

    /// Whether it is time to stop.
    pub fn deadline_elapsed(&self, now: u64) -> (elapsed: bool)
        ensures
            elapsed == (self@.deadline matches Some(deadline) && now >= deadline),
    {
        match self.deadline {
            Some(deadline) => now >= deadline,
            None => false,
        }
    }

    /// The value of a variable. An empty one counts as not set.
    pub fn env(&self, key: &str) -> (value: Option<&[u8]>)
        ensures
            match env_value(self@, key@) {
                Some(expected) => value matches Some(found) && found@ == expected,
                None => value is None,
            },
    {
        let name = key.as_bytes();
        let mut rest: usize = self.env.len();
        while rest > 0
            invariant
                rest <= self.env@.len(),
                last_value(variables(self.env@), name@, self.env@.len() as int) == last_value(
                    variables(self.env@),
                    name@,
                    rest as int,
                ),
                name@ == vstd::utf8::encode_utf8(key@),
            decreases rest,
        {
            rest -= 1;
            assert(variables(self.env@)[rest as int] == self.env@[rest as int]@);
            if bytes_equal(self.env[rest].key.as_slice(), name) {
                if self.env[rest].value.len() == 0 {
                    return None;
                }
                return Some(self.env[rest].value.as_slice());
            }
        }
        None
    }

    /// Whether an invalid root of a source is to be reported: once, for all who
    /// go by `claims`.
    pub fn claim_invalid_root_diagnostic(
        &self,
        claims: &mut InvalidRootClaims,
        source: &'static str,
    ) -> (first: bool)
        ensures
            first == !old(claims)@.contains(source@),
            final(claims)@ == old(claims)@.insert(source@),
    {
        claims.claim(source)
    }

    fn place_at(&self, variable: &'static str, fallback: &str) -> (path: Vec<u8>)
        ensures
            path@ == place(self@, variable@, fallback@),
    {
        match self.env(variable) {
            Some(value) => to_vec(value),
            None => push_path(self.home.as_slice(), fallback.as_bytes()),
        }
    }

    fn xdg_root(&self, variable: &'static str, fallback: &str) -> (root: Root)
        ensures
            is_place_root(root, self@, variable, fallback@),
    {
        let path = self.place_at(variable, fallback);
        match self.env(variable) {
            Some(_) => Root::well_known_environment(variable, path),
            None => Root::well_known(path),
        }
    }

    /// Where caches are kept.
    pub fn xdg_cache(&self) -> (root: Root)
        ensures
            is_place_root(root, self@, "XDG_CACHE_HOME", ".cache"@),
    {
        self.xdg_root("XDG_CACHE_HOME", ".cache")
    }

    /// Where data is kept.
    pub fn xdg_data(&self) -> (root: Root)
        ensures
            is_place_root(root, self@, "XDG_DATA_HOME", ".local/share"@),
    {
        self.xdg_root("XDG_DATA_HOME", ".local/share")
    }

    /// Where configuration is kept.
    pub fn xdg_config(&self) -> (path: Vec<u8>)
        ensures
            path@ == place(self@, "XDG_CONFIG_HOME"@, ".config"@),
    {
        self.place_at("XDG_CONFIG_HOME", ".config")
    }

    /// Where state is kept.
    pub fn xdg_state(&self) -> (path: Vec<u8>)
        ensures
            path@ == place(self@, "XDG_STATE_HOME"@, ".local/state"@),
    {
        self.place_at("XDG_STATE_HOME", ".local/state")
    }
}

/// A source of findings. It looks, and never removes.
pub trait Ecosystem: Send + Sync {
    /// The name by which it is switched on and off.
    fn id(&self) -> &'static str;

    /// Looks for its roots. Where it fails, the outcome is incomplete. What it
    /// reports of invalid roots it claims first.
    fn roots(&self, ctx: &DetectCtx, claims: &mut InvalidRootClaims) -> RootOutcome;

    /// Scans one root, without changing anything.
    fn scan(&self, root: &Root, ctx: &DetectCtx, claims: &mut InvalidRootClaims) -> ScanOutcome;

    /// What it states of everything under a root.
    fn stated_facts(&self, root: &Root) -> FindingFacts;

    /// When a root is scanned: what can only be reported can wait.
    fn scan_priority(&self, root: &Root) -> (priority: ScanPriority)
        default_ensures
            exists|facts: FindingFacts| #[trigger]
                call_ensures(Self::stated_facts, (self, root), facts) && priority == if derived(
                    stated(facts),
                ).mode is ReportOnly {
                    ScanPriority::Deferred
                } else {
                    ScanPriority::Preferred
                },
    {
        let facts = self.stated_facts(root);
        scan_priority(facts)
    }

    /// The platform that it needs, if it needs one.
    fn platform_requirement(&self) -> (platform: Option<&'static str>)
        default_ensures
            platform is None,
    {
        None
    }

    /// The variables by which its caches can be moved.
    fn relocations(&self) -> (list: Vec<Relocation>)
        default_ensures
            list@.len() == 0,
    {
        Vec::new()
    }

    /// The variables by which its caches cannot be moved.
    fn relocation_refusals(&self) -> (list: Vec<RelocationRefusal>)
        default_ensures
            list@.len() == 0,
    {
        Vec::new()
    }
}

/// A candidate is incomplete for want of measurement wherever anything was skipped,
/// cut short or left unvisited, and for protection only where that is all.
pub proof fn law_incomplete_candidates_say_why(candidate: FindingCandidate)
    ensures
        candidate_cause(candidate) == Some(RegionCause::Measurement) <==> candidate.skipped > 0
            || candidate.unvisited_dirs > 0 || candidate.truncated,
        candidate_cause(candidate) == Some(RegionCause::Protected) <==> candidate.skipped == 0
            && candidate.unvisited_dirs == 0 && !candidate.truncated
            && candidate.protected_boundaries > 0,
        candidate_cause(candidate) is None <==> candidate.skipped == 0 && candidate.unvisited_dirs
            == 0 && !candidate.truncated && candidate.protected_boundaries == 0,
{
}

/// A variable that is set several times has its last value; one that is empty counts
/// as not set; where none is set, the place below the home counts.
pub proof fn law_the_last_value_counts(
    context: DetectCtxView,
    variable: Seq<char>,
    fallback: Seq<char>,
    value: Seq<u8>,
)
    ensures
        ({
            let key = vstd::utf8::encode_utf8(variable);
            let set = DetectCtxView {
                env: context.env.push(VariableView { key, value }),
                ..context
            };
            &&& value.len() > 0 ==> env_value(set, variable) == Some(value) && place(
                set,
                variable,
                fallback,
            ) == value
            &&& value.len() == 0 ==> env_value(set, variable) is None && place(
                set,
                variable,
                fallback,
            ) == pushed(context.home, vstd::utf8::encode_utf8(fallback))
        }),
        context.env.len() == 0 ==> place(context, variable, fallback) == pushed(
            context.home,
            vstd::utf8::encode_utf8(fallback),
        ),
{
}

/// A region that is recorded is in the sample or counted, and one that was not
/// measured is never softened to one that was left out on purpose.
pub proof fn law_recorded_regions_are_kept(regions: RegionsView, region: RegionView)
    ensures
        ({
            let after = with_region(regions, region);
            &&& after.sample.len() >= regions.sample.len()
            &&& after.unlocated == regions.unlocated
            &&& forall|i: int|
                0 <= i < regions.sample.len() ==> after.sample[i].path == (
                #[trigger] regions.sample[i]).path && (regions.sample[i].cause is Measurement
                    ==> after.sample[i].cause is Measurement)
            &&& after.overflowed > regions.overflowed || regions.overflowed == u64::MAX || exists|
                i: int,
            |
                0 <= i < after.sample.len() && same_path((#[trigger] after.sample[i]).path, region.path)
        }),
{
    lemma_region_at(regions.sample, region.path, 0);
    let after = with_region(regions, region);
    match region_at(regions.sample, region.path, 0) {
        Some(i) => {
            assert(same_path(after.sample[i].path, region.path));
        },
        None => {
            if regions.sample.len() < IncompleteRegions::SAMPLE_CAP {
                let last = regions.sample.len() as int;
                assert(same_path(after.sample[last].path, region.path));
            }
        },
    }
}

} // verus!
