//! The second walk of a tree, which compares how its entries sit.
//!
//! Nothing of a file's content is read again, only its size, its links and its
//! times; the target of a link is.

use crate::backend::held::child::SeenChild;
use crate::backend::held::child::lies_in;
use crate::backend::held::content::ContentFinding;
use crate::backend::held::content::link_content;
use crate::backend::held::content::spent_on_link;
use crate::backend::held::directories::Reopening;
use crate::backend::held::directories::has_reached;
use crate::backend::held::error::refused_for;
use crate::backend::held::error::HeldTreeError;
use crate::backend::held::error::TreeFault;
use crate::backend::held::forward::proved_entry;
use crate::backend::held::inspect::seen_structure;
use crate::backend::held::inspect::structure_fault;
use crate::backend::held::inspect::Inspection;
use crate::backend::held::inventory::HeldTreeInventory;
use crate::backend::held::inventory::InventoryView;
use crate::backend::held::limits::directory_fault;
use crate::backend::held::limits::first_fault;
use crate::backend::held::limits::fresh_budget;
use crate::backend::held::limits::path_fault;
use crate::backend::held::limits::with_directory;
use crate::backend::held::limits::with_path;
use crate::backend::held::limits::Budget;
use crate::backend::held::limits::NAMES_ONLY_VERSION;
use crate::backend::held::model::StabilityView;
use crate::backend::held::model::entries;
use crate::backend::held::model::structure_of;
use crate::backend::held::model::structures;
use crate::backend::held::model::ContentView;
use crate::backend::held::model::EntryView;
use crate::backend::held::model::ManifestEntry;
use crate::backend::held::model::NodeKind;
use crate::backend::held::model::StructureEvidence;
use crate::backend::held::model::StructureView;
use crate::backend::held::walk::root_budget_fault;
use crate::bytes::to_vec;
use crate::paths::compare_bytes;
use crate::paths::lemma_precedes_asymmetric;
use crate::paths::path_less;
use crate::paths::Collation;
use crate::paths::PathOrder;
use crate::sorting::lemma_mapped_items;
use crate::sorting::lemma_not_before_transitive;
use crate::sorting::sort;
use crate::sorting::Sortable;
use vstd::prelude::*;

verus! {

impl Sortable for StructureEvidence {
    open spec fn stands_before(&self, other: &Self) -> bool {
        path_less(self.path@, other.path@)
    }

    proof fn asymmetric(first: &Self, second: &Self) {
        lemma_precedes_asymmetric(Collation::Components, first.path@, second.path@);
    }

    proof fn transitive(first: &Self, second: &Self, third: &Self) {
        lemma_not_before_transitive(Collation::Components, first.path@, second.path@, third.path@);
    }

    fn comes_before(&self, other: &Self) -> (before: bool) {
        match compare_bytes(
            Collation::Components,
            self.path.as_slice(),
            other.path.as_slice(),
        ) {
            PathOrder::Less => true,
            _ => false,
        }
    }
}

/// How the entries of a manifest sit in the tree.
pub open spec fn expected_structures(manifest: Seq<EntryView>) -> Seq<StructureView> {
    Seq::new(manifest.len(), |i: int| structure_of(manifest[i]))
}

/// The first difference from `at` on between what is expected and what was
/// found, both in path order.
pub open spec fn rewalk_fault(
    expected: Seq<StructureView>,
    found: Seq<StructureView>,
    at: int,
) -> Option<TreeFault>
    decreases expected.len() - at,
{
    if at >= expected.len() {
        if at < found.len() {
            Some(TreeFault::PostAdded(found[at].path))
        } else {
            None
        }
    } else if at >= found.len() || path_less(expected[at].path, found[at].path) {
        Some(TreeFault::PostRemoved(expected[at].path))
    } else if path_less(found[at].path, expected[at].path) {
        Some(TreeFault::PostAdded(found[at].path))
    } else if expected[at] != found[at] {
        Some(TreeFault::PostChanged(expected[at].path))
    } else {
        rewalk_fault(expected, found, at + 1)
    }
}

/// From `at` on the two are the same where no difference is found.
proof fn lemma_no_difference(expected: Seq<StructureView>, found: Seq<StructureView>, at: int)
    requires
        0 <= at <= expected.len(),
        rewalk_fault(expected, found, at) is None,
        at <= found.len(),
    ensures
        expected.len() == found.len(),
        forall|i: int| at <= i < expected.len() ==> expected[i] == found[i],
    decreases expected.len() - at,
{
    if at < expected.len() {
        lemma_no_difference(expected, found, at + 1);
    }
}

/// No difference is found between a list and itself.
proof fn lemma_same(list: Seq<StructureView>, at: int)
    requires
        0 <= at <= list.len(),
    ensures
        rewalk_fault(list, list, at) is None,
    decreases list.len() - at,
{
    if at < list.len() {
        if path_less(list[at].path, list[at].path) {
            lemma_precedes_asymmetric(Collation::Components, list[at].path, list[at].path);
        }
        lemma_same(list, at + 1);
    }
}

/// A second walk passes exactly where every entry sits as it did, none is gone
/// and none has come.
pub proof fn law_rewalk_passes_exactly_the_same_tree(
    expected: Seq<StructureView>,
    found: Seq<StructureView>,
)
    ensures
        rewalk_fault(expected, found, 0) is None <==> expected == found,
{
    if rewalk_fault(expected, found, 0) is None {
        lemma_no_difference(expected, found, 0);
        assert(expected =~= found);
    }
    if expected == found {
        lemma_same(expected, 0);
    }
}

/// Compares what was found, in path order, with a manifest.
pub fn compare_structures(manifest: &Vec<ManifestEntry>, actual: &Vec<StructureEvidence>)
    -> (outcome: Result<(), HeldTreeError>)
    ensures
        refused_for(
            outcome,
            rewalk_fault(expected_structures(entries(manifest@)), structures(actual@), 0),
        ),
{
    let ghost expected_list = expected_structures(entries(manifest@));
    let ghost found_list = structures(actual@);
    let mut i: usize = 0;
    while i < manifest.len()
        invariant
            i <= manifest@.len(),
            i <= actual@.len(),
            expected_list == expected_structures(entries(manifest@)),
            found_list == structures(actual@),
            rewalk_fault(expected_list, found_list, 0) == rewalk_fault(
                expected_list,
                found_list,
                i as int,
            ),
        decreases manifest@.len() - i,
    {
        let expected = manifest[i].structure_evidence();
        assert(expected@ == expected_list[i as int]);
        if i >= actual.len() {
            return Err(HeldTreeError::PostRemoved(expected.path));
        }
        let found = &actual[i];
        assert(found@ == found_list[i as int]);
        match compare_bytes(
            Collation::Components,
            expected.path.as_slice(),
            found.path.as_slice(),
        ) {
            PathOrder::Less => {
                return Err(HeldTreeError::PostRemoved(expected.path));
            },
            PathOrder::Greater => {
                proof {
                    if path_less(expected.path@, found.path@) {
                        lemma_precedes_asymmetric(
                            Collation::Components,
                            expected.path@,
                            found.path@,
                        );
                    }
                }
                return Err(HeldTreeError::PostAdded(to_vec(found.path.as_slice())));
            },
            PathOrder::Equal => {
                proof {
                    if path_less(expected.path@, found.path@) {
                        lemma_precedes_asymmetric(
                            Collation::Components,
                            expected.path@,
                            found.path@,
                        );
                    }
                    if path_less(found.path@, expected.path@) {
                        lemma_precedes_asymmetric(
                            Collation::Components,
                            found.path@,
                            expected.path@,
                        );
                    }
                }
                if !expected.same(found) {
                    return Err(HeldTreeError::PostChanged(expected.path));
                }
            },
        }
        i += 1;
    }
    if i < actual.len() {
        assert(actual@[i as int]@ == found_list[i as int]);
        return Err(HeldTreeError::PostAdded(to_vec(actual[i].path.as_slice())));
    }
    Ok(())
}

/// A second walk of a tree in progress.
#[derive(Debug)]
pub struct StructureRewalk<'a> {
    inventory: &'a HeldTreeInventory,
    actual: Vec<StructureEvidence>,
    listed: usize,
    reached: bool,
    budget: Budget,
}

/// The content of a [`StructureRewalk`].
#[verifier::ext_equal]
pub struct RewalkView {
    /// The inventory of the walk before.
    pub inventory: InventoryView,
    pub actual: Seq<StructureView>,
    /// How many of the directories of the inventory were read to their end.
    pub listed: nat,
    /// Whether the next one was reached.
    pub reached: bool,
    pub budget: Budget,
}

impl<'a> View for StructureRewalk<'a> {
    type V = RewalkView;

    closed spec fn view(&self) -> RewalkView {
        RewalkView {
            inventory: self.inventory@,
            actual: structures(self.actual@),
            listed: self.listed as nat,
            reached: self.reached,
            budget: self.budget,
        }
    }
}

/// How an entry sits. Of a link, the target has been read again.
pub open spec fn rewalked_structure(
    path: Seq<u8>,
    seen: Inspection,
    link: Option<ContentView>,
    manifest_schema: u16,
) -> StructureView {
    match link {
        Some(content) => structure_of(proved_entry(path, seen, content)),
        None => seen_structure(seen, path, manifest_schema),
    }
}

/// Why a further entry does not fit.
pub open spec fn rewalk_child_fault(
    rewalk: RewalkView,
    path: Seq<u8>,
    depth: u32,
    seen: Inspection,
    link: Option<ContentView>,
) -> Option<TreeFault> {
    first_fault(
        if link is Some {
            None
        } else {
            structure_fault(seen, path, rewalk.inventory.manifest_schema)
        },
        first_fault(
            path_fault(rewalk.budget, path.len(), depth),
            if seen.identity.kind == NodeKind::Directory {
                directory_fault(with_path(rewalk.budget, path.len()))
            } else {
                None
            },
        ),
    )
}

impl<'a> StructureRewalk<'a> {
    /// Starts the second walk at the root, which has to be bound where it was.
    pub fn begin(
        inventory: &'a HeldTreeInventory,
        bound: Result<(), HeldTreeError>,
        root: Result<Inspection, HeldTreeError>,
    ) -> (rewalk: Result<Self, HeldTreeError>)
        ensures
            refused_for(
                rewalk,
                match (bound, root) {
                    (Err(error), _) => Some(error@),
                    (Ok(_), Err(error)) => Some(error@),
                    (Ok(_), Ok(seen)) => first_fault(
                        structure_fault(seen, Seq::empty(), inventory@.manifest_schema),
                        root_budget_fault(inventory@.limits, inventory@.manifest_schema),
                    ),
                },
            ),
            rewalk matches Ok(started) ==> root is Ok && started@ == (RewalkView {
                inventory: inventory@,
                actual: seq![
                    seen_structure(root->Ok_0, Seq::empty(), inventory@.manifest_schema),
                ],
                listed: 0,
                reached: false,
                budget: with_directory(
                    with_path(fresh_budget(inventory@.limits, inventory@.manifest_schema), 0),
                ),
            }),
    {
        bound?;
        let seen = root?;
        let path: Vec<u8> = Vec::new();
        assert(path@ =~= Seq::<u8>::empty());
        let schema: u16 = inventory.manifest_schema();
        let evidence = seen.structure_evidence(path, schema)?;
        let mut budget = Budget::new(inventory.limits(), schema);
        budget.add_path(evidence.path.as_slice(), 0)?;
        budget.add_directory()?;
        let rewalk = StructureRewalk {
            inventory,
            actual: vec![evidence],
            listed: 0,
            reached: false,
            budget,
        };
        assert(rewalk@.actual =~= seq![
            seen_structure(root->Ok_0, Seq::empty(), inventory@.manifest_schema),
        ]);
        Ok(rewalk)
    }

    /// What has been spent.
    pub fn spent(&self) -> (budget: Budget)
        ensures
            budget == self@.budget,
    {
        self.budget
    }

    /// Which directory of the inventory is read next.
    pub fn next_directory(&self) -> (next: Option<usize>)
        ensures
            next == if self@.listed < self@.inventory.directories.len() {
                Some(self@.listed as usize)
            } else {
                None
            },
    {
        if self.listed < self.inventory.directories().len() {
            Some(self.listed)
        } else {
            None
        }
    }

    /// Reaches the directory that is read next, at the end of the way to it.
    pub fn reach(&mut self, way: &Reopening)
        requires
            old(self)@.listed < old(self)@.inventory.directories.len(),
            has_reached(
                *way,
                old(self)@.inventory.directories[old(self)@.listed as int].path,
                old(self)@.inventory.directories,
            ),
        ensures
            final(self)@ == (RewalkView { reached: true, ..old(self)@ }),
    {
        self.reached = true;
    }

    /// Ends the directory that is being read.
    pub fn end_directory(&mut self)
        requires
            old(self)@.listed < old(self)@.inventory.directories.len(),
            old(self)@.reached,
        ensures
            final(self)@ == (RewalkView {
                listed: old(self)@.listed + 1,
                reached: false,
                ..old(self)@
            }),
    {
        let count: usize = self.inventory.directories().len();
        assert(count == self@.inventory.directories.len());
        self.listed = self.listed + 1;
        self.reached = false;
    }

    /// Whether the target of what was seen has to be read again: that of a link,
    /// unless only names are committed to.
    pub fn reads_target(&self, seen: &Inspection) -> (reads: bool)
        ensures
            reads == (seen.identity.kind == NodeKind::Symlink && self@.inventory.manifest_schema
                != NAMES_ONLY_VERSION),
    {
        seen.identity.kind == NodeKind::Symlink && self.inventory.manifest_schema()
            != NAMES_ONLY_VERSION
    }

    /// Adds an entry of the directory that is being read. The content of a link
    /// has to come with it, unless only names are committed to.
    pub fn add_child(&mut self, child: SeenChild, link: Option<ContentFinding>) -> (outcome: Result<
        (),
        HeldTreeError,
    >)
        requires
            old(self)@.listed < old(self)@.inventory.directories.len(),
            old(self)@.reached,
            lies_in(
                child.path(),
                child.depth(),
                old(self)@.inventory.directories[old(self)@.listed as int],
            ),
            link is Some <==> child.seen().identity.kind == NodeKind::Symlink && old(
                self,
            )@.inventory.manifest_schema != NAMES_ONLY_VERSION,
            link matches Some(finding) ==> finding.is_on(
                child.path(),
                child.seen(),
                old(self)@.budget,
            ) && finding.found() is Proved,
        ensures
            ({
                let content = link_content(link);
                let before = RewalkView {
                    budget: spent_on_link(old(self)@.budget, link),
                    ..old(self)@
                };
                &&& refused_for(
                    outcome,
                    rewalk_child_fault(
                        before,
                        child.path(),
                        child.depth(),
                        child.seen(),
                        content,
                    ),
                )
                &&& outcome is Ok ==> final(self)@ == (RewalkView {
                    actual: before.actual.push(
                        rewalked_structure(
                            child.path(),
                            child.seen(),
                            content,
                            before.inventory.manifest_schema,
                        ),
                    ),
                    budget: if child.seen().identity.kind == NodeKind::Directory {
                        with_directory(with_path(before.budget, child.path().len()))
                    } else {
                        with_path(before.budget, child.path().len())
                    },
                    ..before
                })
                &&& outcome is Err ==> final(self)@ == (RewalkView {
                    budget: if link is None && structure_fault(
                        child.seen(),
                        child.path(),
                        before.inventory.manifest_schema,
                    ) is Some {
                        before.budget
                    } else if path_fault(before.budget, child.path().len(), child.depth()) is Some {
                        with_path(before.budget, child.path().len())
                    } else {
                        with_directory(with_path(before.budget, child.path().len()))
                    },
                    ..before
                })
            }),
    {
        let ghost before = self@;
        let seen = child.inspection();
        let path = to_vec(child.path_bytes().as_slice());
        let evidence = match link {
            Some(finding) => {
                let (content, budget) = finding.into_proof();
                self.budget = budget;
                seen.into_manifest(path, content).structure_evidence()
            },
            None => seen.structure_evidence(path, self.inventory.manifest_schema())?,
        };
        self.budget.add_path(evidence.path.as_slice(), child.level())?;
        if seen.identity.kind == NodeKind::Directory {
            self.budget.add_directory()?;
        }
        let ghost structure = evidence@;
        self.actual.push(evidence);
        assert(structures(self.actual@) =~= before.actual.push(structure));
        Ok(())
    }

    /// Holds what was found against the manifest, once every directory was read;
    /// the root has to be bound where it was.
    pub fn finish(self, bound: Result<(), HeldTreeError>) -> (outcome: Result<(), HeldTreeError>)
        requires
            self@.listed == self@.inventory.directories.len(),
        ensures
            exists|found: Seq<StructureView>|
                #![trigger is_in_path_order(found)]
                is_in_path_order(found) && found.to_multiset() == self@.actual.to_multiset()
                    && refused_for(
                    outcome,
                    first_fault(
                        rewalk_fault(expected_structures(self@.inventory.manifest), found, 0),
                        match bound {
                            Ok(_) => None,
                            Err(error) => Some(error@),
                        },
                    ),
                ),
    {
        let ghost before = self.actual@;
        let actual = sort(self.actual);
        let compared = compare_structures(self.inventory.manifest(), &actual);
        proof {
            let f = |evidence: StructureEvidence| evidence@;
            lemma_mapped_items(actual@, before, f);
            assert(actual@.map_values(f) =~= structures(actual@));
            assert(before.map_values(f) =~= structures(before));
            let found = structures(actual@);
            assert forall|i: int, j: int|
                #![trigger found[i], found[j]]
                0 <= i < j < found.len() implies !path_less(found[j].path, found[i].path) by {
                assert(!actual@[j].stands_before(&actual@[i]));
            }
            assert(is_in_path_order(found));
        }
        match compared {
            Ok(_) => bound,
            Err(error) => Err(error),
        }
    }
}

/// Each path is at most the next.
pub open spec fn is_in_path_order(list: Seq<StructureView>) -> bool {
    forall|i: int, j: int|
        #![trigger list[i], list[j]]
        0 <= i < j < list.len() ==> !path_less(list[j].path, list[i].path)
}

/// A second walk looks at an entry as the first did: what it finds of a link is
/// what was read of it again, and of anything else what is seen.
pub proof fn law_second_looks_show_what_is_there(
    path: Seq<u8>,
    seen: Inspection,
    link: Option<ContentView>,
    manifest_schema: u16,
)
    ensures
        ({
            let structure = rewalked_structure(path, seen, link, manifest_schema);
            &&& structure.path == path
            &&& structure.identity == seen.identity
            &&& structure.uid == seen.uid
            &&& structure.gid == seen.gid
            &&& structure.mode == seen.mode
            &&& link matches Some(ContentView::Symlink { target }) ==> structure.stability == (
            StabilityView::Symlink { target })
        }),
{
}

/// The first thing that differs is named: what has come, what is gone, or what has
/// changed.
pub proof fn law_first_differences_are_named(
    expected: Seq<StructureView>,
    found: Seq<StructureView>,
)
    ensures
        expected.len() == 0 && found.len() > 0 ==> rewalk_fault(expected, found, 0) == Some(
            TreeFault::PostAdded(found[0].path),
        ),
        expected.len() > 0 && found.len() == 0 ==> rewalk_fault(expected, found, 0) == Some(
            TreeFault::PostRemoved(expected[0].path),
        ),
        expected.len() > 0 && found.len() > 0 && path_less(expected[0].path, found[0].path)
            ==> rewalk_fault(expected, found, 0) == Some(TreeFault::PostRemoved(expected[0].path)),
        expected.len() > 0 && found.len() > 0 && path_less(found[0].path, expected[0].path)
            ==> rewalk_fault(expected, found, 0) == Some(TreeFault::PostAdded(found[0].path)),
        expected.len() > 0 && found.len() > 0 && expected[0].path == found[0].path && expected[0]
            != found[0] ==> rewalk_fault(expected, found, 0) == Some(
            TreeFault::PostChanged(expected[0].path),
        ),
{
    if expected.len() > 0 && found.len() > 0 {
        let (left, right) = (expected[0].path, found[0].path);
        if path_less(left, right) && path_less(right, left) {
            lemma_precedes_asymmetric(Collation::Components, left, right);
        }
        if path_less(left, left) {
            lemma_precedes_asymmetric(Collation::Components, left, left);
        }
    }
}

} // verus!
