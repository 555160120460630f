//! Removing a tree that has been inventoried.
//!
//! The deepest entries go first, so that every directory is empty when its turn
//! comes, and the root goes last. Each entry has to be exactly what the
//! inventory says of it right before it is removed.

use crate::backend::held::child::seen_fault;
use crate::backend::held::child::TreeContext;
use crate::backend::held::content::ContentFinding;
use crate::backend::held::content::FoundContent;
use crate::backend::held::error::refused_for;
use crate::backend::held::error::HeldTreeError;
use crate::backend::held::error::HeldTreeLimit;
use crate::backend::held::error::TreeFault;
use crate::backend::held::forward::proved_entry;
use crate::backend::held::inspect::require_boundary;
use crate::backend::held::inspect::require_owner;
use crate::backend::held::inspect::require_same_identity;
use crate::backend::held::inspect::Inspection;
use crate::backend::held::inventory::HeldTreeInventory;
use crate::backend::held::limits::fresh_budget;
use crate::backend::held::limits::Budget;
use crate::backend::held::limits::HeldTreeLimits;
use crate::backend::held::model::entries;
use crate::backend::held::model::EntryView;
use crate::backend::held::model::ManifestEntry;
use crate::backend::held::model::NodeKind;
use crate::backend::held::reobserve::file_name;
use crate::backend::held::reobserve::split_name;
use crate::bytes::to_vec;
use crate::paths::compare_bytes;
use crate::paths::depth;
use crate::paths::is_beneath;
use crate::paths::lemma_pieces_nonempty;
use crate::paths::lemma_precedes_asymmetric;
use crate::paths::parent;
use crate::paths::path_less;
use crate::paths::pieces;
use crate::paths::split;
use crate::paths::Collation;
use crate::paths::PathOrder;
use crate::paths::SLASH;
use crate::sorting::lemma_mapped_items;
use crate::sorting::lemma_not_before_transitive;
use crate::sorting::sort;
use crate::sorting::Sortable;
use vstd::prelude::*;

verus! {

/// How often an interrupted operation is tried.
pub const PURGE_IO_ATTEMPTS: u32 = 3;

/// How often an operation has been tried.
#[derive(Clone, Copy, Debug, PartialEq, Eq, Structural)]
pub struct InterruptedRetry {
    pub attempts: u32,
}

impl InterruptedRetry {
    /// Before the first attempt.
    pub fn new() -> (retry: Self)
        ensures
            retry.attempts == 0,
    {
        InterruptedRetry { attempts: 0 }
    }

    /// Takes the outcome of an attempt and tells whether to try again: only an
    /// interruption is worth it, and only so often.
    pub fn again(&mut self, interrupted: bool) -> (again: bool)
        requires
            old(self).attempts < PURGE_IO_ATTEMPTS,
        ensures
            again == (interrupted && old(self).attempts + 1 < PURGE_IO_ATTEMPTS),
            final(self).attempts == old(self).attempts + 1,
    {
        self.attempts = self.attempts + 1;
        interrupted && self.attempts < PURGE_IO_ATTEMPTS
    }
}

/// An entry that is to be removed, with its depth.
#[derive(Debug)]
pub struct PurgeEntry {
    pub depth: usize,
    pub entry: ManifestEntry,
}

/// `first` is removed before `second`: it lies deeper, or as deep and later in
/// path order.
pub open spec fn removed_before(first: Seq<u8>, second: Seq<u8>) -> bool {
    depth(first) > depth(second) || (depth(first) == depth(second) && path_less(second, first))
}

impl PurgeEntry {
    /// The depth is that of the path.
    pub open spec fn wf(&self) -> bool {
        self.depth == depth(self.entry@.path)
    }
}

impl Sortable for PurgeEntry {
    open spec fn stands_before(&self, other: &Self) -> bool {
        self.depth > other.depth || (self.depth == other.depth && path_less(
            other.entry.path@,
            self.entry.path@,
        ))
    }

    proof fn asymmetric(first: &Self, second: &Self) {
        if first.depth == second.depth {
            lemma_precedes_asymmetric(
                Collation::Components,
                second.entry.path@,
                first.entry.path@,
            );
        }
    }

    proof fn transitive(first: &Self, second: &Self, third: &Self) {
        if first.depth == second.depth && second.depth == third.depth {
            lemma_not_before_transitive(
                Collation::Components,
                third.entry.path@,
                second.entry.path@,
                first.entry.path@,
            );
        }
    }

    fn comes_before(&self, other: &Self) -> (before: bool) {
        if self.depth != other.depth {
            return self.depth > other.depth;
        }
        match compare_bytes(
            Collation::Components,
            other.entry.path.as_slice(),
            self.entry.path.as_slice(),
        ) {
            PathOrder::Less => true,
            _ => false,
        }
    }
}

/// The entries below the root among the first `count`.
pub open spec fn below_root(manifest: Seq<EntryView>, count: int) -> Seq<EntryView>
    decreases count,
{
    if count <= 0 {
        Seq::empty()
    } else if manifest[count - 1].path.len() > 0 {
        below_root(manifest, count - 1).push(manifest[count - 1])
    } else {
        below_root(manifest, count - 1)
    }
}

/// None is removed before one that it follows.
pub open spec fn is_removal_order(order: Seq<EntryView>) -> bool {
    forall|i: int, j: int|
        #![trigger order[i], order[j]]
        0 <= i < j < order.len() ==> !removed_before(order[j].path, order[i].path)
}

/// The order in which a tree is removed: the entries below the root, deepest
/// first.
pub open spec fn is_removal_plan(order: Seq<EntryView>, manifest: Seq<EntryView>) -> bool {
    &&& is_removal_order(order)
    &&& order.to_multiset() == below_root(manifest, manifest.len() as int).to_multiset()
}

/// What lies at a longer stretch of a path is at least as deep.
proof fn lemma_pieces_grow(path: Seq<u8>, length: int)
    requires
        0 <= length <= path.len(),
    ensures
        pieces(path.take(length), SLASH).len() <= pieces(path, SLASH).len(),
    decreases path.len() - length,
{
    if length < path.len() {
        lemma_pieces_grow(path, length + 1);
        let longer = path.take(length + 1);
        assert(longer.drop_last() =~= path.take(length));
    } else {
        assert(path.take(length) =~= path);
    }
}

/// What lies below a directory is deeper than it, and so is removed before it.
pub proof fn law_children_are_removed_first(directory: Seq<u8>, path: Seq<u8>)
    requires
        is_beneath(directory, path),
    ensures
        depth(path) > depth(directory),
        removed_before(path, directory),
        !removed_before(directory, path),
{
    lemma_pieces_nonempty(path, SLASH);
    if directory.len() > 0 {
        let length = directory.len() as int;
        lemma_pieces_grow(path, length + 1);
        let longer = path.take(length + 1);
        assert(longer.drop_last() =~= directory);
        assert(longer.last() == SLASH);
    }
}

/// In the order of removal nothing that lies below an entry comes after it.
pub proof fn law_directories_are_empty_when_removed(order: Seq<EntryView>, i: int, j: int)
    requires
        is_removal_order(order),
        0 <= i < j < order.len(),
    ensures
        !is_beneath(order[i].path, order[j].path),
{
    if is_beneath(order[i].path, order[j].path) {
        law_children_are_removed_first(order[i].path, order[j].path);
        assert(!removed_before(order[j].path, order[i].path));
    }
}

/// The entries of an order of removal.
pub open spec fn planned(list: Seq<PurgeEntry>) -> Seq<EntryView> {
    Seq::new(list.len(), |i: int| list[i].entry@)
}

/// Puts the entries below the root in the order of their removal.
pub fn removal_plan(manifest: &Vec<ManifestEntry>) -> (order: Vec<PurgeEntry>)
    ensures
        is_removal_plan(planned(order@), entries(manifest@)),
{
    let ghost views = entries(manifest@);
    let mut list: Vec<PurgeEntry> = Vec::new();
    let mut i: usize = 0;
    proof {
        assert(planned(list@) =~= below_root(views, 0));
    }
    while i < manifest.len()
        invariant
            i <= manifest@.len(),
            views == entries(manifest@),
            planned(list@) == below_root(views, i as int),
            forall|n: int| 0 <= n < list@.len() ==> (#[trigger] list@[n]).wf(),
        decreases manifest@.len() - i,
    {
        assert(views[i as int] == manifest@[i as int]@);
        if manifest[i].path.len() > 0 {
            let level: usize = split(manifest[i].path.as_slice(), SLASH).len();
            let ghost before = planned(list@);
            list.push(PurgeEntry { depth: level, entry: manifest[i].clone() });
            assert(planned(list@) =~= before.push(views[i as int]));
        }
        i += 1;
    }
    let ghost unordered = list@;
    let order = sort(list);
    proof {
        broadcast use vstd::seq_lib::group_to_multiset_ensures;
        let f = |item: PurgeEntry| item.entry@;
        lemma_mapped_items(order@, unordered, f);
        assert(order@.map_values(f) =~= planned(order@));
        assert(unordered.map_values(f) =~= planned(unordered));
        assert forall|n: int| 0 <= n < order@.len() implies (#[trigger] order@[n]).wf() by {
            assert(order@.contains(order@[n]));
            assert(order@.to_multiset().count(order@[n]) > 0);
            assert(unordered.contains(order@[n]));
        }
        let all = planned(order@);
        assert forall|a: int, b: int|
            #![trigger all[a], all[b]]
            0 <= a < b < all.len() implies !removed_before(all[b].path, all[a].path) by {
            assert(!order@[b].stands_before(&order@[a]));
            assert(order@[a].wf() && order@[b].wf());
        }
    }
    order
}

/// The next entry to remove.
#[derive(Debug)]
pub struct PurgeTarget {
    pub path: Vec<u8>,
    /// The directory that it lies in.
    pub directory: Vec<u8>,
    /// Its name there.
    pub name: Vec<u8>,
    pub is_directory: bool,
}

/// How far the removal of the next entry has come.
#[derive(Clone, Copy, Debug, PartialEq, Eq, Structural)]
pub enum PurgeStage {
    /// It has not been looked at.
    Next,
    /// It was seen.
    Seen(Inspection),
    /// It is what the inventory says of it, and may be removed.
    Confirmed,
    /// Nothing is left below the root, the root is the one of the inventory, and
    /// may be removed.
    RootConfirmed,
}

/// The removal of a tree.
#[derive(Debug)]
pub struct TreePurge {
    context: TreeContext,
    limits: HeldTreeLimits,
    order: Vec<PurgeEntry>,
    at: usize,
    stage: PurgeStage,
    removed: u64,
    budget: Budget,
}

/// The content of a [`TreePurge`].
#[verifier::ext_equal]
pub struct PurgeView {
    pub context: TreeContext,
    pub limits: HeldTreeLimits,
    pub order: Seq<EntryView>,
    /// How many entries of the order are done.
    pub at: nat,
    pub stage: PurgeStage,
    /// How many removals were counted.
    pub removed: u64,
    pub budget: Budget,
}

impl View for TreePurge {
    type V = PurgeView;

    closed spec fn view(&self) -> PurgeView {
        PurgeView {
            context: self.context,
            limits: self.limits,
            order: planned(self.order@),
            at: self.at as nat,
            stage: self.stage,
            removed: self.removed,
            budget: self.budget,
        }
    }
}

/// What was seen and proved of an entry is what the inventory says of it.
pub open spec fn is_confirmed(expected: EntryView, seen: Inspection, found: FoundContent) -> bool {
    found matches FoundContent::Proved(proof) && proved_entry(expected.path, seen, proof@)
        == expected
}

/// Why the root may not be removed.
pub open spec fn root_removal_fault(
    context: TreeContext,
    named: Result<Inspection, HeldTreeError>,
    held: Result<Inspection, HeldTreeError>,
) -> Option<TreeFault> {
    match (named, held) {
        (Err(error), _) => Some(error@),
        (Ok(_), Err(error)) => Some(error@),
        (Ok(named), Ok(held)) => if named.identity != context.root_identity || held.identity
            != context.root_identity {
            Some(TreeFault::IdentityChanged(Seq::empty()))
        } else {
            None
        },
    }
}

impl TreePurge {
    /// Plans the removal of a tree whose root is still bound where it was.
    pub fn begin(inventory: &HeldTreeInventory, bound: Result<(), HeldTreeError>) -> (purge: Result<
        Self,
        HeldTreeError,
    >)
        ensures
            refused_for(
                purge,
                match bound {
                    Ok(_) => None,
                    Err(error) => Some(error@),
                },
            ),
            purge matches Ok(begun) ==> is_removal_plan(begun@.order, inventory@.manifest)
                && begun@ == (PurgeView {
                context: inventory@.context,
                limits: inventory@.limits,
                order: begun@.order,
                at: 0,
                stage: PurgeStage::Next,
                removed: 0,
                budget: fresh_budget(inventory@.limits, inventory@.manifest_schema),
            }),
    {
        bound?;
        Ok(TreePurge {
            context: inventory.context(),
            limits: inventory.limits(),
            order: removal_plan(inventory.manifest()),
            at: 0,
            stage: PurgeStage::Next,
            removed: 0,
            budget: Budget::new(inventory.limits(), inventory.manifest_schema()),
        })
    }

    /// The next entry below the root, if one is left.
    pub fn next_target(&self) -> (target: Option<PurgeTarget>)
        ensures
            match target {
                Some(next) => {
                    let entry = self@.order[self@.at as int];
                    &&& self@.at < self@.order.len()
                    &&& next.path@ == entry.path
                    &&& next.directory@ == parent(entry.path)
                    &&& next.name@ == file_name(entry.path)
                    &&& next.is_directory == (entry.identity.kind == NodeKind::Directory)
                },
                None => self@.at >= self@.order.len(),
            },
    {
        if self.at >= self.order.len() {
            return None;
        }
        let expected = &self.order[self.at].entry;
        assert(self@.order[self.at as int] == expected@);
        let (directory, name) = split_name(expected.path.as_slice());
        Some(
            PurgeTarget {
                path: to_vec(expected.path.as_slice()),
                directory,
                name,
                is_directory: expected.identity.kind == NodeKind::Directory,
            },
        )
    }

    /// Takes what is seen of the next entry, before its content is looked at, and
    /// who the process acts for then.
    pub fn see(&mut self, seen: Result<Inspection, HeldTreeError>, effective_uid: u32)
        -> (admitted: Result<Inspection, HeldTreeError>)
        requires
            old(self)@.stage == PurgeStage::Next,
            old(self)@.at < old(self)@.order.len(),
        ensures
            refused_for(
                admitted,
                seen_fault(
                    old(self)@.order[old(self)@.at as int].path,
                    seen,
                    effective_uid,
                    old(self)@.context,
                ),
            ),
            match admitted {
                Ok(value) => seen == Ok::<Inspection, HeldTreeError>(value) && final(self)@ == (
                PurgeView { stage: PurgeStage::Seen(value), ..old(self)@ }),
                Err(_) => final(self)@ == old(self)@,
            },
    {
        let expected = &self.order[self.at].entry;
        assert(self@.order[self.at as int] == expected@);
        let seen = seen?;
        let path = expected.path.as_slice();
        require_owner(path, seen.uid, effective_uid)?;
        require_boundary(path, self.context.backend, self.context.mount_id, &seen)?;
        self.stage = PurgeStage::Seen(seen);
        Ok(seen)
    }

    /// What has been spent on content.
    pub fn spent(&self) -> (budget: Budget)
        ensures
            budget == self@.budget,
    {
        self.budget
    }

    /// Requires that the next entry, as it was seen, is what the inventory says
    /// of it.
    pub fn confirm(&mut self, finding: ContentFinding) -> (outcome: Result<(), HeldTreeError>)
        requires
            old(self)@.at < old(self)@.order.len(),
            old(self)@.stage matches PurgeStage::Seen(seen) && finding.is_on(
                old(self)@.order[old(self)@.at as int].path,
                seen,
                old(self)@.budget,
            ),
            finding.found() is Proved,
        ensures
            ({
                let expected = old(self)@.order[old(self)@.at as int];
                refused_for(
                    outcome,
                    if is_confirmed(expected, old(self)@.stage->Seen_0, finding.found()) {
                        None
                    } else {
                        Some(TreeFault::IdentityChanged(expected.path))
                    },
                )
            }),
            ({
                let expected = old(self)@.order[old(self)@.at as int];
                let seen = old(self)@.stage->Seen_0;
                outcome is Ok <==> {
                    &&& seen.identity == expected.identity
                    &&& seen.uid == expected.uid
                    &&& seen.gid == expected.gid
                    &&& seen.mode == expected.mode
                    &&& finding.found()->Proved_0@ == expected.content
                }
            }),
            final(self)@ == (PurgeView {
                stage: if outcome is Ok {
                    PurgeStage::Confirmed
                } else {
                    old(self)@.stage
                },
                budget: finding.spent(),
                ..old(self)@
            }),
    {
        let expected = &self.order[self.at].entry;
        assert(self@.order[self.at as int] == expected@);
        let (content, budget) = finding.into_proof();
        self.budget = budget;
        if let PurgeStage::Seen(seen) = self.stage {
            let actual = seen.into_manifest(to_vec(expected.path.as_slice()), content);
            if !actual.same(expected) {
                return Err(HeldTreeError::IdentityChanged(to_vec(expected.path.as_slice())));
            }
            self.stage = PurgeStage::Confirmed;
        }
        Ok(())
    }

    /// Counts a removal.
    fn count(&mut self) -> (removed: Result<u64, HeldTreeError>)
        ensures
            refused_for(
                removed,
                if old(self)@.removed == u64::MAX {
                    Some(
                        TreeFault::Limit {
                            kind: HeldTreeLimit::Entries,
                            limit: old(self)@.limits.max_entries,
                        },
                    )
                } else {
                    None
                },
            ),
            removed matches Ok(count) ==> count == old(self)@.removed + 1 && final(self)@
                == (PurgeView { removed: count, ..old(self)@ }),
            removed is Err ==> *final(self) == *old(self),
    {
        match self.removed.checked_add(1) {
            Some(count) => {
                self.removed = count;
                Ok(count)
            },
            None => Err(
                HeldTreeError::Limit {
                    kind: HeldTreeLimit::Entries,
                    limit: self.limits.max_entries,
                },
            ),
        }
    }

    /// Goes on once the next entry, which was confirmed, was removed; the number
    /// of removals is to be recorded with its path.
    pub fn removed(&mut self) -> (count: Result<u64, HeldTreeError>)
        requires
            old(self)@.stage == PurgeStage::Confirmed,
            old(self)@.at < old(self)@.order.len(),
        ensures
            refused_for(
                count,
                if old(self)@.removed == u64::MAX {
                    Some(
                        TreeFault::Limit {
                            kind: HeldTreeLimit::Entries,
                            limit: old(self)@.limits.max_entries,
                        },
                    )
                } else {
                    None
                },
            ),
            count matches Ok(total) ==> total == old(self)@.removed + 1 && final(self)@
                == (PurgeView {
                removed: total,
                at: old(self)@.at + 1,
                stage: PurgeStage::Next,
                ..old(self)@
            }),
            count is Err ==> final(self)@ == old(self)@,
    {
        let count = self.count()?;
        assert(self.order@.len() == self@.order.len());
        let size: usize = self.order.len();
        self.at = self.at + 1;
        self.stage = PurgeStage::Next;
        Ok(count)
    }

    /// Requires that the root is still the one of the inventory, under its name
    /// and through the descriptor that is held.
    pub fn confirm_root(
        &mut self,
        named: Result<Inspection, HeldTreeError>,
        held: Result<Inspection, HeldTreeError>,
    ) -> (outcome: Result<(), HeldTreeError>)
        requires
            old(self)@.stage == PurgeStage::Next,
            old(self)@.at == old(self)@.order.len(),
        ensures
            refused_for(outcome, root_removal_fault(old(self)@.context, named, held)),
            final(self)@ == if outcome is Ok {
                PurgeView { stage: PurgeStage::RootConfirmed, ..old(self)@ }
            } else {
                old(self)@
            },
    {
        let named = named?;
        let held = held?;
        let path: Vec<u8> = Vec::new();
        assert(path@ =~= Seq::<u8>::empty());
        require_same_identity(path.as_slice(), self.context.root_identity, named.identity)?;
        require_same_identity(path.as_slice(), self.context.root_identity, held.identity)?;
        self.stage = PurgeStage::RootConfirmed;
        Ok(())
    }

    /// The number of removals, once the root, which was confirmed, was removed
    /// too.
    pub fn finish(self) -> (count: Result<u64, HeldTreeError>)
        requires
            self@.stage == PurgeStage::RootConfirmed,
            self@.at == self@.order.len(),
        ensures
            refused_for(
                count,
                if self@.removed == u64::MAX {
                    Some(
                        TreeFault::Limit {
                            kind: HeldTreeLimit::Entries,
                            limit: self@.limits.max_entries,
                        },
                    )
                } else {
                    None
                },
            ),
            count matches Ok(total) ==> total == self@.removed + 1,
    {
        let mut purge = self;
        purge.count()
    }
}

/// A step in which the next entry is seen, and belongs to whom the process acts
/// for then.
pub open spec fn is_seeing(
    before: PurgeView,
    after: PurgeView,
    seen: Inspection,
    effective_uid: u32,
) -> bool {
    &&& before.stage == PurgeStage::Next
    &&& before.at < before.order.len()
    &&& seen_fault(
        before.order[before.at as int].path,
        Ok(seen),
        effective_uid,
        before.context,
    ) is None
    &&& after == (PurgeView { stage: PurgeStage::Seen(seen), ..before })
}

/// A step in which the next entry, as it was seen, is confirmed.
pub open spec fn is_confirming(
    before: PurgeView,
    after: PurgeView,
    seen: Inspection,
    found: FoundContent,
) -> bool {
    &&& before.stage == PurgeStage::Seen(seen)
    &&& is_confirmed(before.order[before.at as int], seen, found)
    &&& after == (PurgeView { stage: PurgeStage::Confirmed, budget: after.budget, ..before })
}

/// A step in which the next entry, which was confirmed, is removed.
pub open spec fn is_removing(before: PurgeView, after: PurgeView) -> bool {
    &&& before.stage == PurgeStage::Confirmed
    &&& after == (PurgeView {
        stage: PurgeStage::Next,
        at: before.at + 1,
        removed: after.removed,
        ..before
    })
}

/// A step in which the root is confirmed.
pub open spec fn is_confirming_root(before: PurgeView, after: PurgeView) -> bool {
    &&& before.stage == PurgeStage::Next
    &&& before.at == before.order.len()
    &&& after == (PurgeView { stage: PurgeStage::RootConfirmed, ..before })
}

/// A step of a removal that succeeds.
pub open spec fn is_purge_step(before: PurgeView, after: PurgeView) -> bool {
    ||| exists|seen: Inspection, effective_uid: u32| #[trigger]
        is_seeing(before, after, seen, effective_uid)
    ||| exists|seen: Inspection, found: FoundContent| #[trigger]
        is_confirming(before, after, seen, found)
    ||| is_removing(before, after)
    ||| is_confirming_root(before, after)
}

/// The states of a removal, from its start on.
pub open spec fn is_purge(states: Seq<PurgeView>) -> bool {
    &&& states.len() > 0
    &&& states[0].stage == PurgeStage::Next
    &&& states[0].at == 0
    &&& forall|k: int| 0 < k < states.len() ==> is_purge_step(states[k - 1], #[trigger] states[k])
}

/// Everything that was recorded of an entry still holds, field by field.
pub open spec fn is_as_recorded(expected: EntryView, seen: Inspection, found: FoundContent) -> bool {
    &&& seen.identity.kind == expected.identity.kind
    &&& seen.identity.device == expected.identity.device
    &&& seen.identity.inode == expected.identity.inode
    &&& seen.identity.incarnation == expected.identity.incarnation
    &&& seen.uid == expected.uid
    &&& seen.gid == expected.gid
    &&& seen.mode == expected.mode
    &&& found matches FoundContent::Proved(proof) && proof@ == expected.content
}

/// An entry is confirmed exactly where everything that was recorded of it still
/// holds: any change of what it is, of its owner, group, mode or content keeps it
/// from being removed.
pub proof fn law_confirmed_is_as_recorded(
    expected: EntryView,
    seen: Inspection,
    found: FoundContent,
)
    ensures
        is_confirmed(expected, seen, found) <==> is_as_recorded(expected, seen, found),
        seen.identity != expected.identity ==> !is_confirmed(expected, seen, found),
        seen.uid != expected.uid ==> !is_confirmed(expected, seen, found),
        seen.gid != expected.gid ==> !is_confirmed(expected, seen, found),
        seen.mode != expected.mode ==> !is_confirmed(expected, seen, found),
        found->Proved_0@ != expected.content ==> !is_confirmed(expected, seen, found),
{
}

/// The root may be removed where both its name and the descriptor that is held
/// lead to the root of the inventory.
pub proof fn law_only_the_recorded_root_is_removed(
    context: TreeContext,
    named: Result<Inspection, HeldTreeError>,
    held: Result<Inspection, HeldTreeError>,
)
    ensures
        root_removal_fault(context, named, held) is None <==> (named matches Ok(bound) && (
        held matches Ok(open) && bound.identity == context.root_identity && open.identity
            == context.root_identity)),
{
}

/// Nothing is removed that was not confirmed right before: wherever an entry is
/// gone, the step before found everything that was recorded of it to hold still,
/// and the one before that saw it, on the file system of the tree and as that of
/// whom the process acts for. The root is confirmed only once nothing is
/// left below it.
pub proof fn law_nothing_is_removed_unconfirmed(states: Seq<PurgeView>, k: int)
    requires
        is_purge(states),
        0 < k < states.len(),
    ensures
        states[k].order == states[0].order,
        states[k].at != states[k - 1].at ==> k >= 3 && states[k].at == states[k - 1].at + 1
            && exists|seen: Inspection, effective_uid: u32, found: FoundContent|
            {
                &&& #[trigger] is_seeing(states[k - 3], states[k - 2], seen, effective_uid)
                &&& #[trigger] is_confirming(states[k - 2], states[k - 1], seen, found)
                &&& is_removing(states[k - 1], states[k])
                &&& is_confirmed(states[0].order[states[k - 1].at as int], seen, found)
                &&& is_as_recorded(states[0].order[states[k - 1].at as int], seen, found)
                &&& seen.uid == effective_uid
                &&& seen.backend == states[k - 3].context.backend
                &&& seen.mount_id == states[k - 3].context.mount_id
            },
        states[k].stage == PurgeStage::RootConfirmed ==> states[k].at == states[0].order.len(),
{
    lemma_order_stays(states, k);
    lemma_order_stays(states, k - 1);
    assert(is_purge_step(states[k - 1], states[k]));
    if states[k].at != states[k - 1].at {
        assert(is_removing(states[k - 1], states[k]));
        assert(k - 1 > 0);
        assert(is_purge_step(states[k - 2], states[k - 1]));
        let (seen, found) = choose|seen: Inspection, found: FoundContent| #[trigger]
            is_confirming(states[k - 2], states[k - 1], seen, found);
        assert(is_confirming(states[k - 2], states[k - 1], seen, found));
        assert(k - 2 > 0);
        assert(is_purge_step(states[k - 3], states[k - 2]));
        let (shown, effective_uid) = choose|seen: Inspection, effective_uid: u32| #[trigger]
            is_seeing(states[k - 3], states[k - 2], seen, effective_uid);
        assert(is_seeing(states[k - 3], states[k - 2], shown, effective_uid));
        assert(shown == seen);
    }
}

/// The order of a removal stays.
proof fn lemma_order_stays(states: Seq<PurgeView>, k: int)
    requires
        is_purge(states),
        0 <= k < states.len(),
    ensures
        states[k].order == states[0].order,
    decreases k,
{
    if k > 0 {
        lemma_order_stays(states, k - 1);
        assert(is_purge_step(states[k - 1], states[k]));
    }
}

/// Everything below the root is removed, and nothing else: each entry of the
/// manifest but the root is in the order of removal, and each entry of the order is
/// one of them.
pub proof fn law_everything_below_the_root_is_removed(
    order: Seq<EntryView>,
    manifest: Seq<EntryView>,
)
    requires
        is_removal_plan(order, manifest),
    ensures
        forall|i: int|
            0 <= i < manifest.len() && (#[trigger] manifest[i]).path.len() > 0 ==> order.contains(
                manifest[i],
            ),
        forall|j: int|
            0 <= j < order.len() ==> manifest.contains(#[trigger] order[j]) && order[j].path.len()
                > 0,
{
    broadcast use vstd::seq_lib::group_to_multiset_ensures;

    let kept = below_root(manifest, manifest.len() as int);
    lemma_below_root(manifest, manifest.len() as int);
    assert forall|i: int|
        0 <= i < manifest.len() && (#[trigger] manifest[i]).path.len() > 0 implies order.contains(
        manifest[i],
    ) by {
        assert(kept.contains(manifest[i]));
        assert(kept.to_multiset().count(manifest[i]) > 0);
    }
    assert forall|j: int| 0 <= j < order.len() implies manifest.contains(#[trigger] order[j])
        && order[j].path.len() > 0 by {
        assert(order.contains(order[j]));
        assert(order.to_multiset().count(order[j]) > 0);
        assert(kept.contains(order[j]));
        let n = choose|n: int| 0 <= n < kept.len() && kept[n] == order[j];
        assert(manifest.contains(kept[n]));
    }
}

/// What is kept below the root is all that lies there.
proof fn lemma_below_root(manifest: Seq<EntryView>, count: int)
    requires
        0 <= count <= manifest.len(),
    ensures
        forall|i: int|
            0 <= i < count && (#[trigger] manifest[i]).path.len() > 0 ==> below_root(
                manifest,
                count,
            ).contains(manifest[i]),
        forall|n: int|
            0 <= n < below_root(manifest, count).len() ==> manifest.contains(
                #[trigger] below_root(manifest, count)[n],
            ) && below_root(manifest, count)[n].path.len() > 0,
    decreases count,
{
    if count > 0 {
        lemma_below_root(manifest, count - 1);
        let before = below_root(manifest, count - 1);
        let after = below_root(manifest, count);
        let last = manifest[count - 1];
        assert forall|i: int|
            0 <= i < count && (#[trigger] manifest[i]).path.len() > 0 implies after.contains(
            manifest[i],
        ) by {
            if i < count - 1 {
                assert(before.contains(manifest[i]));
                let n = choose|n: int| 0 <= n < before.len() && before[n] == manifest[i];
                assert(after[n] == manifest[i]);
            } else {
                assert(after[after.len() - 1] == last);
            }
        }
        assert forall|n: int| 0 <= n < after.len() implies manifest.contains(#[trigger] after[n])
            && after[n].path.len() > 0 by {
            if n < before.len() {
                assert(after[n] == before[n]);
            } else {
                assert(manifest.contains(last));
            }
        }
    }
}

} // verus!
