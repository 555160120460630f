//! The bounded walk of a tree, directory by directory.
//!
//! A walk keeps the directories in the order in which they were found and reads
//! them in that order. What it collects is put in path order at the end.

use crate::backend::certify::AclProbe;
use crate::backend::evidence::HeldLocalBackendEvidence;
use crate::backend::held::child::admit_root;
use crate::backend::held::child::is_admitted;
use crate::backend::held::child::is_admitted_root;
use crate::backend::held::child::is_dot_name;
use crate::backend::held::child::lies_in;
use crate::backend::held::child::root_fault;
use crate::backend::held::child::AdmittedChild;
use crate::backend::held::child::AdmittedRoot;
use crate::backend::held::child::ChildView;
use crate::backend::held::child::RootProbe;
use crate::backend::held::child::TreeContext;
use crate::backend::held::child::WalkRequest;
use crate::backend::held::content::ContentFinding;
use crate::backend::held::content::FoundContent;
use crate::backend::held::directories::Reopening;
use crate::backend::held::directories::current_directory_fault;
use crate::backend::held::directories::directory_views;
use crate::backend::held::directories::find_directory;
use crate::backend::held::directories::has_reached;
use crate::backend::held::directories::lemma_position;
use crate::backend::held::directories::position_of;
use crate::backend::held::directories::DirectoryEvidence;
use crate::backend::held::directories::DirectoryView;
use crate::backend::held::directories::require_directory_evidence_current;
use crate::backend::held::error::refused_for;
use crate::backend::held::error::HeldTreeError;
use crate::backend::held::error::TreeFault;
use crate::backend::held::inspect::observed_file;
use crate::backend::held::inspect::parent_fault;
use crate::backend::held::inspect::protection_fault;
use crate::backend::held::inspect::require_parent_admission;
use crate::backend::held::inspect::root_binding_fault;
use crate::backend::held::inspect::verify_root_binding_fields;
use crate::backend::held::inspect::Inspection;
use crate::backend::held::inspect::ParentAdmission;
use crate::backend::held::inspect::ParentProbe;
use crate::backend::held::limits::directory_fault;
use crate::backend::held::limits::first_fault;
use crate::backend::held::limits::fresh_budget;
use crate::backend::held::limits::path_fault;
use crate::backend::held::limits::with_directory;
use crate::backend::held::limits::with_path;
use crate::backend::held::limits::Budget;
use crate::backend::held::limits::HeldTreeLimits;
use crate::backend::held::limits::NAMES_ONLY_VERSION;
use crate::backend::held::model::ContentProof;
use crate::backend::held::model::ContentView;
use crate::backend::held::model::EntryView;
use crate::backend::held::model::ManifestEntry;
use crate::backend::held::model::NodeIdentity;
use crate::backend::held::model::NodeKind;
use crate::backend::held::model::RegularFileObservation;
use crate::backend::held::model::RegularXattrProof;
use crate::backend::held::model::RegularXattrTopology;
use crate::bytes::to_vec;
use crate::paths::SLASH;
use crate::paths::compare_bytes;
use crate::paths::joined;
use crate::paths::lemma_precedes_asymmetric;
use crate::paths::pieces;
use crate::paths::precedes;
use crate::paths::views;
use crate::paths::Collation;
use crate::paths::PathOrder;
use crate::sorting::lemma_mapped_items;
use crate::sorting::lemma_not_before_transitive;
use crate::sorting::sort;
use crate::sorting::Sortable;
use vstd::prelude::*;

verus! {

/// What a walk keeps of one entry.
#[derive(Debug)]
pub struct WalkEntry {
    pub path: Vec<u8>,
    pub identity: NodeIdentity,
    /// What is committed to; a walk that only assesses commits to nothing.
    pub manifest: Option<ManifestEntry>,
    /// What was seen of a regular file.
    pub regular: Option<RegularFileObservation>,
    /// The attributes of a regular file.
    pub xattrs: Option<RegularXattrProof>,
}

/// The content of a [`WalkEntry`].
#[verifier::ext_equal]
pub struct WalkEntryView {
    pub path: Seq<u8>,
    pub identity: NodeIdentity,
    pub manifest: Option<EntryView>,
    pub regular: Option<RegularFileObservation>,
    pub xattrs: Option<RegularXattrProof>,
}

impl View for WalkEntry {
    type V = WalkEntryView;

    open spec fn view(&self) -> WalkEntryView {
        WalkEntryView {
            path: self.path@,
            identity: self.identity,
            manifest: match self.manifest {
                Some(entry) => Some(entry@),
                None => None,
            },
            regular: self.regular,
            xattrs: self.xattrs,
        }
    }
}

/// The contents of a list of entries.
pub open spec fn walk_views(list: Seq<WalkEntry>) -> Seq<WalkEntryView> {
    Seq::new(list.len(), |i: int| list[i]@)
}

/// What is kept of an entry, given what was seen of it and found out about its
/// content.
pub open spec fn kept_entry(path: Seq<u8>, seen: Inspection, found: FoundContent)
    -> WalkEntryView {
    WalkEntryView {
        path,
        identity: seen.identity,
        manifest: match found {
            FoundContent::Proved(content) => Some(
                EntryView {
                    path,
                    identity: seen.identity,
                    uid: seen.uid,
                    gid: seen.gid,
                    mode: seen.mode,
                    content: content@,
                },
            ),
            FoundContent::Assessed(_) => None,
        },
        regular: match found {
            FoundContent::Proved(content) => match content@ {
                ContentView::Regular { sha256, xattrs, .. } => observed_file(
                    seen,
                    Some(sha256),
                    xattrs,
                ),
                _ => None,
            },
            FoundContent::Assessed(Some(xattrs)) => observed_file(seen, None, xattrs),
            FoundContent::Assessed(None) => None,
        },
        xattrs: match found {
            FoundContent::Proved(content) => match content@ {
                ContentView::Regular { xattrs, .. } => Some(xattrs),
                _ => None,
            },
            FoundContent::Assessed(xattrs) => xattrs,
        },
    }
}

/// Keeps an entry.
pub fn keep_entry(path: Vec<u8>, seen: Inspection, found: FoundContent) -> (entry: WalkEntry)
    ensures
        entry@ == kept_entry(path@, seen, found),
{
    match found {
        FoundContent::Proved(content) => {
            let (regular, xattrs) = match &content {
                ContentProof::Regular { sha256, xattrs, .. } => (
                    seen.regular_file_observation(Some(*sha256), *xattrs),
                    Some(*xattrs),
                ),
                _ => (None, None),
            };
            let copy = to_vec(path.as_slice());
            WalkEntry {
                path,
                identity: seen.identity,
                manifest: Some(seen.into_manifest(copy, content)),
                regular,
                xattrs,
            }
        },
        FoundContent::Assessed(xattrs) => WalkEntry {
            path,
            identity: seen.identity,
            manifest: None,
            regular: match xattrs {
                Some(proof) => seen.regular_file_observation(None, proof),
                None => None,
            },
            xattrs,
        },
    }
}

impl Sortable for WalkEntry {
    open spec fn stands_before(&self, other: &Self) -> bool {
        precedes(Collation::Components, self.path@, other.path@)
    }

    proof fn asymmetric(first: &Self, second: &Self) {
        lemma_precedes_asymmetric(Collation::Components, first.path@, second.path@);
    }

    proof fn transitive(first: &Self, second: &Self, third: &Self) {
        lemma_not_before_transitive(Collation::Components, first.path@, second.path@, third.path@);
    }

    fn comes_before(&self, other: &Self) -> (before: bool) {
        match compare_bytes(
            Collation::Components,
            self.path.as_slice(),
            other.path.as_slice(),
        ) {
            PathOrder::Less => true,
            _ => false,
        }
    }
}

/// A walk in progress.
#[derive(Debug)]
pub struct TreeWalk {
    context: TreeContext,
    root_name: Vec<u8>,
    protected_names: Vec<Vec<u8>>,
    manifest_schema: u16,
    directories: Vec<DirectoryEvidence>,
    entries: Vec<WalkEntry>,
    fresh_directories: Vec<DirectoryEvidence>,
    fresh_entries: Vec<WalkEntry>,
    listed: usize,
    reached: bool,
    finished: bool,
    budget: Budget,
}

/// The content of a [`TreeWalk`].
#[verifier::ext_equal]
pub struct WalkView {
    pub context: TreeContext,
    pub root_name: Seq<u8>,
    pub protected_names: Seq<Seq<u8>>,
    pub manifest_schema: u16,
    /// The directories in the order in which they were found.
    pub directories: Seq<DirectoryView>,
    /// The entries that were kept.
    pub entries: Seq<WalkEntryView>,
    /// The directories found in the one that is being read.
    pub fresh_directories: Seq<DirectoryView>,
    /// The entries of the one that is being read.
    pub fresh_entries: Seq<WalkEntryView>,
    /// How many of the directories were read to their end.
    pub listed: nat,
    /// Whether the next one was reached.
    pub reached: bool,
    /// Whether the walk was ended.
    pub finished: bool,
    pub budget: Budget,
}

impl View for TreeWalk {
    type V = WalkView;

    closed spec fn view(&self) -> WalkView {
        WalkView {
            context: self.context,
            root_name: self.root_name@,
            protected_names: views(self.protected_names@),
            manifest_schema: self.manifest_schema,
            directories: directory_views(self.directories@),
            entries: walk_views(self.entries@),
            fresh_directories: directory_views(self.fresh_directories@),
            fresh_entries: walk_views(self.fresh_entries@),
            listed: self.listed as nat,
            reached: self.reached,
            finished: self.finished,
            budget: self.budget,
        }
    }
}

/// A directory has to be reached.
pub open spec fn is_under_way(walk: WalkView) -> bool {
    !walk.finished && walk.listed < walk.directories.len() && !walk.reached
}

/// A directory is being read.
pub open spec fn is_reading(walk: WalkView) -> bool {
    !walk.finished && walk.listed < walk.directories.len() && walk.reached
}

/// How the directory that is read next is reached.
pub open spec fn check_of(walk: WalkView) -> DirectoryCheck {
    if walk.manifest_schema == NAMES_ONLY_VERSION {
        DirectoryCheck::FromBoundRoot
    } else if walk.listed == 0 {
        DirectoryCheck::Current
    } else {
        DirectoryCheck::FromNamedRoot
    }
}

/// Every directory that was found was read to its end.
pub open spec fn is_read_through(walk: WalkView) -> bool {
    &&& !walk.finished
    &&& walk.listed == walk.directories.len()
    &&& !walk.reached
    &&& walk.fresh_directories.len() == 0
    &&& walk.fresh_entries.len() == 0
}

/// The walk after a directory was read to its end.
pub open spec fn after_directory(walk: WalkView) -> WalkView {
    WalkView {
        directories: walk.directories + walk.fresh_directories,
        entries: walk.entries + walk.fresh_entries,
        fresh_directories: Seq::empty(),
        fresh_entries: Seq::empty(),
        listed: walk.listed + 1,
        reached: false,
        ..walk
    }
}

/// The walk after an entry of the directory that is being read.
pub open spec fn after_child(
    walk: WalkView,
    child: ChildView,
    found: FoundContent,
    budget: Budget,
) -> WalkView {
    WalkView {
        fresh_entries: walk.fresh_entries.push(kept_entry(child.path, child.seen, found)),
        fresh_directories: match child.directory {
            Some(directory) => walk.fresh_directories.push(directory),
            None => walk.fresh_directories,
        },
        budget,
        ..walk
    }
}

/// What a finished walk leaves behind.
#[derive(Debug)]
pub struct WalkParts {
    pub root_name: Vec<u8>,
    pub protected_names: Vec<Vec<u8>>,
    pub directories: Vec<DirectoryEvidence>,
    pub entries: Vec<WalkEntry>,
}

/// Why the root does not fit the limits.
pub open spec fn root_budget_fault(limits: HeldTreeLimits, manifest_schema: u16) -> Option<
    TreeFault,
> {
    let fresh = fresh_budget(limits, manifest_schema);
    first_fault(path_fault(fresh, 0, 0), directory_fault(with_path(fresh, 0)))
}

/// The walk after its root has been admitted.
pub open spec fn started_walk(
    request: WalkRequest,
    root: AdmittedRoot,
    content: FoundContent,
) -> WalkView {
    WalkView {
        context: root.context,
        root_name: request.root_name@,
        protected_names: views(request.protected_names@),
        manifest_schema: request.manifest_schema,
        directories: seq![root.evidence@],
        entries: seq![kept_entry(Seq::empty(), root.opened, content)],
        fresh_directories: Seq::empty(),
        fresh_entries: Seq::empty(),
        listed: 0,
        reached: false,
        finished: false,
        budget: with_directory(
            with_path(fresh_budget(request.limits, request.manifest_schema), 0),
        ),
    }
}

/// Why an admitted entry does not fit the limits.
pub open spec fn child_budget_fault(budget: Budget, child: ChildView) -> Option<TreeFault> {
    first_fault(
        path_fault(budget, child.path.len(), child.depth),
        if child.directory is Some {
            directory_fault(with_path(budget, child.path.len()))
        } else {
            None
        },
    )
}

/// What has been spent after an admitted entry.
pub open spec fn child_budget(budget: Budget, child: ChildView) -> Budget {
    if child.directory is Some {
        with_directory(with_path(budget, child.path.len()))
    } else {
        with_path(budget, child.path.len())
    }
}

/// What has been counted once an entry was admitted or refused: its path is
/// counted in any case, and a directory is one more where the path fits.
pub open spec fn spent_on_child(budget: Budget, child: ChildView) -> Budget {
    if path_fault(budget, child.path.len(), child.depth) is Some {
        with_path(budget, child.path.len())
    } else {
        child_budget(budget, child)
    }
}

/// Counts an admitted entry.
pub fn charge_child(budget: &mut Budget, child: &AdmittedChild) -> (outcome: Result<
    (),
    HeldTreeError,
>)
    ensures
        refused_for(outcome, child_budget_fault(*old(budget), child@)),
        outcome is Ok ==> *final(budget) == child_budget(*old(budget), child@),
        *final(budget) == spent_on_child(*old(budget), child@),
{
    budget.add_path(child.path_bytes().as_slice(), child.level())?;
    if child.is_directory() {
        budget.add_directory()?;
    }
    Ok(())
}

/// The first of the fresh directories, from `at` on, whose path is known
/// already.
pub open spec fn repeated_directory(
    known: Seq<DirectoryView>,
    fresh: Seq<DirectoryView>,
    at: int,
) -> Option<Seq<u8>>
    decreases fresh.len() - at,
{
    if at >= fresh.len() {
        None
    } else if position_of(known + fresh.take(at), fresh[at].path, 0) is Some {
        Some(fresh[at].path)
    } else {
        repeated_directory(known, fresh, at + 1)
    }
}

/// How a directory is reached before it is read.
#[derive(Clone, Copy, Debug, PartialEq, Eq, Structural)]
pub enum DirectoryCheck {
    /// It is the root, which is held, and has to be what was recorded.
    Current,
    /// It is reached from the root, whose name has to lead to it.
    FromNamedRoot,
    /// It is reached from the root, whose name has to lead to it in a parent
    /// that nobody else writes to.
    FromBoundRoot,
}

impl TreeWalk {
    /// Which directory is read next: the one that was found first among those
    /// that were not read yet.
    pub fn next_directory(&self) -> (next: Option<usize>)
        ensures
            next == if self@.listed < self@.directories.len() {
                Some(self@.listed as usize)
            } else {
                None
            },
    {
        if self.listed < self.directories.len() {
            Some(self.listed)
        } else {
            None
        }
    }

    /// How the directory that is read next is reached before it is read.
    pub fn directory_check(&self) -> (check: DirectoryCheck)
        ensures
            check == check_of(self@),
    {
        if self.manifest_schema == NAMES_ONLY_VERSION {
            DirectoryCheck::FromBoundRoot
        } else if self.listed == 0 {
            DirectoryCheck::Current
        } else {
            DirectoryCheck::FromNamedRoot
        }
    }

    /// Reaches the root, whose descriptor was kept, if it is what it was.
    pub fn reach_root(
        &mut self,
        acl: AclProbe,
        seen: Result<Inspection, HeldTreeError>,
        effective_uid: u32,
    ) -> (outcome: Result<(), HeldTreeError>)
        requires
            is_under_way(old(self)@),
            check_of(old(self)@) == DirectoryCheck::Current,
        ensures
            refused_for(
                outcome,
                current_directory_fault(
                    acl,
                    seen,
                    effective_uid,
                    old(self)@.directories[0],
                    old(self)@.context.backend,
                    old(self)@.context.mount_id,
                ),
            ),
            final(self)@ == (WalkView { reached: outcome is Ok, ..old(self)@ }),
    {
        assert(self@.directories[0] == self.directories@[0]@);
        require_directory_evidence_current(
            acl,
            seen,
            effective_uid,
            &self.directories[0],
            self.context.backend,
            self.context.mount_id,
        )?;
        self.reached = true;
        Ok(())
    }

    /// Reaches the directory that is read next, at the end of the way to it.
    pub fn reach(&mut self, way: &Reopening)
        requires
            is_under_way(old(self)@),
            check_of(old(self)@) != DirectoryCheck::Current,
            has_reached(
                *way,
                old(self)@.directories[old(self)@.listed as int].path,
                old(self)@.directories,
            ),
        ensures
            final(self)@ == (WalkView { reached: true, ..old(self)@ }),
    {
        self.reached = true;
    }

    /// Starts a walk at an admitted root.
    pub fn begin(
        request: WalkRequest,
        parent: &HeldLocalBackendEvidence,
        admission: ParentAdmission,
        probe: RootProbe<'_>,
        root_content: FoundContent,
    ) -> (walk: Result<Self, HeldTreeError>)
        ensures
            refused_for(
                walk,
                first_fault(
                    root_fault(request, parent@, admission, probe),
                    root_budget_fault(request.limits, request.manifest_schema),
                ),
            ),
            walk matches Ok(started) ==> started@.directories[0].path.len() == 0
                && !started@.protected_names.contains(started@.root_name),
            walk matches Ok(started) ==> {
                &&& started@.protected_names == views(request.protected_names@)
                &&& started@.root_name == request.root_name@
                &&& started@.manifest_schema == request.manifest_schema
                &&& started@.budget.limits == request.limits
                &&& started@.budget.entries == 1
                &&& started@.budget.directories == 1
                &&& started@.context.backend == parent@.snapshot.backend
                &&& started@.context.mount_id == parent@.snapshot.mount_id
                &&& started@.entries[0].identity == started@.context.root_identity
                &&& started@.directories[0].identity == started@.context.root_identity
            },
            walk matches Ok(started) ==> is_started(started@) && exists|root: AdmittedRoot|
                is_admitted_root(root, parent@, probe) && started@ == #[trigger] started_walk(
                    request,
                    root,
                    root_content,
                ),
    {
        let root = admit_root(&request, parent, admission, probe)?;
        let ghost admitted = root;
        let mut budget = Budget::new(request.limits, request.manifest_schema);
        let path: Vec<u8> = Vec::new();
        assert(path@ =~= Seq::<u8>::empty());
        budget.add_path(path.as_slice(), 0)?;
        budget.add_directory()?;
        let entry = keep_entry(path, root.opened, root_content);
        let walk = TreeWalk {
            context: root.context,
            root_name: request.root_name,
            protected_names: request.protected_names,
            manifest_schema: request.manifest_schema,
            directories: vec![root.evidence],
            entries: vec![entry],
            fresh_directories: Vec::new(),
            fresh_entries: Vec::new(),
            listed: 0,
            reached: false,
            finished: false,
            budget,
        };
        proof {
            assert(directory_views(walk.directories@) =~= seq![admitted.evidence@]);
            assert(walk_views(walk.entries@) =~= seq![
                kept_entry(Seq::empty(), admitted.opened, root_content),
            ]);
            assert(directory_views(walk.fresh_directories@) =~= Seq::<DirectoryView>::empty());
            assert(walk_views(walk.fresh_entries@) =~= Seq::<WalkEntryView>::empty());
            assert(walk@ == started_walk(request, admitted, root_content));
        }
        Ok(walk)
    }

    /// What the walk is confined to.
    pub fn context(&self) -> (context: TreeContext)
        ensures
            context == self@.context,
    {
        self.context
    }

    /// The name of the root in its parent.
    pub fn root_name(&self) -> (name: &Vec<u8>)
        ensures
            name@ == self@.root_name,
    {
        &self.root_name
    }

    /// The names that stop the walk.
    pub fn protected_names(&self) -> (names: &Vec<Vec<u8>>)
        ensures
            views(names@) == self@.protected_names,
    {
        &self.protected_names
    }

    /// The schema of the manifest that is collected for.
    pub fn manifest_schema(&self) -> (schema: u16)
        ensures
            schema == self@.manifest_schema,
    {
        self.manifest_schema
    }

    /// The directories found so far.
    pub fn directories(&self) -> (directories: &Vec<DirectoryEvidence>)
        ensures
            directory_views(directories@) == self@.directories,
    {
        &self.directories
    }

    /// The entries kept so far.
    pub fn entries(&self) -> (entries: &Vec<WalkEntry>)
        ensures
            walk_views(entries@) == self@.entries,
    {
        &self.entries
    }

    /// Adds an entry of the directory that is being read, with what was found
    /// out about its content and spent on it.
    pub fn add_child(&mut self, child: AdmittedChild, finding: ContentFinding) -> (outcome: Result<
        (),
        HeldTreeError,
    >)
        requires
            is_reading(old(self)@),
            lies_in(
                child@.path,
                child@.depth,
                old(self)@.directories[old(self)@.listed as int],
            ),
            is_admitted(child@, old(self)@.context),
            finding.is_on(child@.path, child@.seen, old(self)@.budget),
        ensures
            refused_for(outcome, child_budget_fault(finding.spent(), child@)),
            outcome is Ok ==> final(self)@ == after_child(
                old(self)@,
                child@,
                finding.found(),
                child_budget(finding.spent(), child@),
            ),
            outcome is Err ==> final(self)@ == (WalkView {
                budget: spent_on_child(finding.spent(), child@),
                ..old(self)@
            }),
    {
        let (found, budget) = finding.into_parts();
        self.budget = budget;
        charge_child(&mut self.budget, &child)?;
        let seen = child.inspection();
        let (path, directory) = child.into_parts();
        let entry = keep_entry(path, seen, found);
        let ghost entries_before = self.fresh_entries@;
        let ghost directories_before = self.fresh_directories@;
        self.fresh_entries.push(entry);
        match directory {
            Some(evidence) => {
                self.fresh_directories.push(evidence);
            },
            None => {},
        }
        proof {
            assert(walk_views(self.fresh_entries@) =~= walk_views(entries_before).push(entry@));
            assert(directory is Some ==> directory_views(self.fresh_directories@)
                =~= directory_views(directories_before).push(directory->0@));
        }
        Ok(())
    }

    /// Ends the directory that is being read: its directories will be read after
    /// those that are known already. One that is known already is refused where
    /// content is proved.
    pub fn end_directory(&mut self) -> (outcome: Result<(), HeldTreeError>)
        requires
            is_reading(old(self)@),
        ensures
            refused_for(
                outcome,
                if old(self)@.manifest_schema == NAMES_ONLY_VERSION {
                    None
                } else {
                    match repeated_directory(
                        old(self)@.directories,
                        old(self)@.fresh_directories,
                        0,
                    ) {
                        Some(path) => Some(TreeFault::IdentityChanged(path)),
                        None => None,
                    }
                },
            ),
            outcome is Ok ==> final(self)@ == after_directory(old(self)@),
            outcome is Err ==> *final(self) == *old(self),
    {
        let ghost before = self@;
        let mut at: usize = 0;
        if self.manifest_schema != NAMES_ONLY_VERSION {
            while at < self.fresh_directories.len()
                invariant
                    at <= self.fresh_directories@.len(),
                    *self == *old(self),
                    before == self@,
                    before == old(self)@,
                    before.manifest_schema != NAMES_ONLY_VERSION,
                    repeated_directory(before.directories, before.fresh_directories, 0)
                        == repeated_directory(
                        before.directories,
                        before.fresh_directories,
                        at as int,
                    ),
                decreases self.fresh_directories@.len() - at,
            {
                let known = directory_known(
                    &self.directories,
                    &self.fresh_directories,
                    at,
                    self.fresh_directories[at].relative_path.as_slice(),
                );
                assert(before.fresh_directories[at as int] == self.fresh_directories@[at as int]@);
                if known {
                    return Err(
                        HeldTreeError::IdentityChanged(
                            to_vec(self.fresh_directories[at].relative_path.as_slice()),
                        ),
                    );
                }
                at += 1;
            }
        }
        let ghost entries_before = self.entries@;
        let ghost directories_before = self.directories@;
        let ghost fresh_entries_before = self.fresh_entries@;
        let ghost fresh_directories_before = self.fresh_directories@;
        let known: usize = self.directories.len();
        assert(before.directories.len() == known);
        self.entries.append(&mut self.fresh_entries);
        self.directories.append(&mut self.fresh_directories);
        self.listed = self.listed + 1;
        self.reached = false;
        proof {
            assert(walk_views(self.entries@) =~= walk_views(entries_before) + walk_views(
                fresh_entries_before,
            ));
            assert(directory_views(self.directories@) =~= directory_views(directories_before)
                + directory_views(fresh_directories_before));
            assert(walk_views(self.fresh_entries@) =~= Seq::<WalkEntryView>::empty());
            assert(directory_views(self.fresh_directories@) =~= Seq::<DirectoryView>::empty());
        }
        Ok(())
    }

    /// Ends the walk, once every directory was read: the entries are put in path
    /// order, and the parent and the binding of the root have to be what they
    /// were.
    pub fn finish(
        self,
        parent: &HeldLocalBackendEvidence,
        admission: ParentAdmission,
        probe: ParentProbe,
        rebound: Result<Inspection, HeldTreeError>,
    ) -> (walk: Result<Self, HeldTreeError>)
        requires
            is_read_through(self@),
        ensures
            refused_for(
                walk,
                first_fault(
                    parent_fault(parent@, self@.context.backend, admission, probe),
                    root_binding_fault(
                        self@.context.root_identity,
                        self@.context.mount_id,
                        self@.context.backend,
                        rebound,
                    ),
                ),
            ),
            walk matches Ok(done) ==> is_finished_walk(done@, self@),
    {
        let ghost entries_before = self.entries@;
        let mut walk = self;
        let entries = sort(walk.entries);
        proof {
            let f = |entry: WalkEntry| entry@;
            lemma_mapped_items(entries@, entries_before, f);
            assert(entries@.map_values(f) =~= walk_views(entries@));
            assert(entries_before.map_values(f) =~= walk_views(entries_before));
        }
        walk.entries = entries;
        walk.finished = true;
        require_parent_admission(parent, walk.context.backend, admission, probe)?;
        verify_root_binding_fields(
            walk.context.root_identity,
            walk.context.mount_id,
            walk.context.backend,
            rebound,
        )?;
        proof {
            assert forall|i: int, j: int|
                #![trigger walk@.entries[i], walk@.entries[j]]
                0 <= i < j < walk@.entries.len() implies !precedes(
                Collation::Components,
                walk@.entries[j].path,
                walk@.entries[i].path,
            ) by {
                assert(!walk.entries@[j].stands_before(&walk.entries@[i]));
            }
        }
        Ok(walk)
    }

    /// What has been spent.
    pub fn spent(&self) -> (budget: Budget)
        ensures
            budget == self@.budget,
    {
        self.budget
    }

    /// The limits of the walk.
    pub fn budget_limits(&self) -> (limits: HeldTreeLimits)
        ensures
            limits == self@.budget.limits,
    {
        self.budget.limits
    }

    /// What a finished walk leaves behind.
    pub fn into_parts(self) -> (parts: WalkParts)
        ensures
            parts.root_name@ == self@.root_name,
            views(parts.protected_names@) == self@.protected_names,
            directory_views(parts.directories@) == self@.directories,
            walk_views(parts.entries@) == self@.entries,
    {
        WalkParts {
            root_name: self.root_name,
            protected_names: self.protected_names,
            directories: self.directories,
            entries: self.entries,
        }
    }
}

/// The walk is the one before, with its entries in path order.
pub open spec fn is_finished_walk(done: WalkView, before: WalkView) -> bool {
    &&& done == (WalkView { entries: done.entries, finished: true, ..before })
    &&& done.entries.to_multiset() == before.entries.to_multiset()
    &&& forall|i: int, j: int|
        #![trigger done.entries[i], done.entries[j]]
        0 <= i < j < done.entries.len() ==> !precedes(
            Collation::Components,
            done.entries[j].path,
            done.entries[i].path,
        )
}

/// The state follows on the one before it: the next directory was reached, an
/// entry was added to the one that is being read, or that was read to its end.
pub open spec fn walk_follows(states: Seq<WalkView>, k: int) -> bool {
    let (before, after) = (states[k - 1], states[k]);
    if is_under_way(before) {
        after == (WalkView { reached: true, ..before })
    } else {
        &&& is_reading(before)
        &&& after == after_directory(before) || exists|
            child: ChildView,
            found: FoundContent,
            budget: Budget,
        |
            lies_in(child.path, child.depth, before.directories[before.listed as int])
                && is_admitted(child, before.context) && after == #[trigger] after_child(
                before,
                child,
                found,
                budget,
            )
    }
}

/// A walk that has only found its root.
pub open spec fn is_started(walk: WalkView) -> bool {
    &&& !walk.finished
    &&& !walk.reached
    &&& walk.listed == 0
    &&& walk.directories.len() == 1
    &&& walk.entries.len() == 1
    &&& walk.entries[0].path == walk.directories[0].path
    &&& walk.fresh_directories.len() == 0
    &&& walk.fresh_entries.len() == 0
}

/// The states of a walk while every step succeeds.
pub open spec fn is_walk(states: Seq<WalkView>) -> bool {
    &&& states.len() > 0
    &&& is_started(states[0])
    &&& forall|k: int| 0 < k < states.len() ==> #[trigger] walk_follows(states, k)
}

/// A directory was read to its end at some step, and had been reached before.
pub open spec fn was_read(states: Seq<WalkView>, k: int, directory: int) -> bool {
    exists|n: int|
        0 < n <= k && #[trigger] walk_follows(states, n) && states[n - 1].listed == directory
            && states[n - 1].reached && states[n] == after_directory(states[n - 1])
}

/// An entry below the root lies in one of the directories that were read so far
/// or in the one that is being read.
pub open spec fn has_place(path: Seq<u8>, walk: WalkView) -> bool {
    exists|d: int, depth: u32|
        0 <= d <= walk.listed && d < walk.directories.len() && #[trigger] lies_in(
            path,
            depth,
            walk.directories[d],
        )
}

/// Every directory among the entries is among the directories.
pub open spec fn are_found(list: Seq<WalkEntryView>, directories: Seq<DirectoryView>) -> bool {
    forall|i: int|
        0 <= i < list.len() && (#[trigger] list[i]).identity.kind == NodeKind::Directory
            ==> exists|d: int|
            0 <= d < directories.len() && (#[trigger] directories[d]).path == list[i].path
}

/// A walk that is through has read every directory that it found, one after the
/// other; each of its entries but the root lies in one of them, and each that is
/// a directory is one of them.
pub proof fn law_every_directory_is_read(states: Seq<WalkView>, k: int)
    requires
        is_walk(states),
        0 <= k < states.len(),
        is_read_through(states[k]),
    ensures
        forall|d: int| 0 <= d < states[k].directories.len() ==> #[trigger] was_read(states, k, d),
        forall|i: int|
            0 < i < states[k].entries.len() ==> has_place(
                (#[trigger] states[k].entries[i]).path,
                states[k],
            ),
        are_found(states[k].entries, states[k].directories),
{
    lemma_walk(states, k);
}

/// An entry whose name was let through: a single name, of an entry and not
/// protected, under which it lies in the directory.
pub open spec fn was_let_through(
    policy: Seq<Seq<u8>>,
    directory: Seq<u8>,
    name: Seq<u8>,
    path: Seq<u8>,
) -> bool {
    &&& name.len() > 0
    &&& !name.contains(SLASH)
    &&& !is_dot_name(name)
    &&& path == joined(directory, name)
    &&& protection_fault(policy, name, path) is None
}

/// Where an entry was added, its name had been let through.
pub open spec fn adds_what_was_let_through(states: Seq<WalkView>, k: int) -> bool {
    let (before, after) = (states[k - 1], states[k]);
    after.fresh_entries.len() > before.fresh_entries.len() ==> exists|name: Seq<u8>| #[trigger]
        was_let_through(
            before.protected_names,
            before.directories[before.listed as int].path,
            name,
            after.fresh_entries.last().path,
        )
}

/// No component of the path is one of the names.
pub open spec fn is_clear_of(path: Seq<u8>, names: Seq<Seq<u8>>) -> bool {
    path.len() > 0 ==> forall|i: int|
        0 <= i < pieces(path, SLASH).len() ==> !names.contains(#[trigger] pieces(path, SLASH)[i])
}

/// At no depth does a walk find anything under a protected name: in a tree that
/// was walked to its end no component of the path of any entry is one of the
/// protected names.
pub proof fn law_no_protected_name_is_inventoried(states: Seq<WalkView>, done: WalkView)
    requires
        is_walk(states),
        states[0].directories[0].path.len() == 0,
        forall|k: int| 0 < k < states.len() ==> #[trigger] adds_what_was_let_through(states, k),
        is_finished_walk(done, states.last()),
    ensures
        done.protected_names == states[0].protected_names,
        forall|i: int|
            0 <= i < done.entries.len() ==> is_clear_of(
                (#[trigger] done.entries[i]).path,
                states[0].protected_names,
            ),
        forall|i: int|
            0 <= i < done.directories.len() ==> is_clear_of(
                (#[trigger] done.directories[i]).path,
                states[0].protected_names,
            ),
        forall|i: int, c: int|
            0 <= i < done.entries.len() && done.entries[i].path.len() > 0 && 0 <= c < pieces(
                done.entries[i].path,
                SLASH,
            ).len() ==> !states[0].protected_names.contains(
                #[trigger] pieces(done.entries[i].path, SLASH)[c],
            ),
{
    broadcast use vstd::seq_lib::group_to_multiset_ensures;

    let k = states.len() - 1;
    let names = states[0].protected_names;
    lemma_clear_walk(states, k);
    assert forall|i: int| 0 <= i < done.entries.len() implies is_clear_of(
        (#[trigger] done.entries[i]).path,
        names,
    ) by {
        assert(done.entries.contains(done.entries[i]));
        assert(done.entries.to_multiset().count(done.entries[i]) > 0);
        assert(states[k].entries.contains(done.entries[i]));
        let n = choose|n: int|
            0 <= n < states[k].entries.len() && states[k].entries[n] == done.entries[i];
        assert(is_clear_of(states[k].entries[n].path, names));
    }
}

/// The pieces of what lies in a directory are those of the directory and the
/// name.
proof fn lemma_pieces_below(start: Seq<u8>, name: Seq<u8>)
    requires
        !name.contains(SLASH),
    ensures
        pieces(start + seq![SLASH] + name, SLASH) == pieces(start, SLASH).push(name),
        pieces(name, SLASH) == seq![name],
    decreases name.len(),
{
    let whole = start + seq![SLASH] + name;
    if name.len() == 0 {
        assert(whole.drop_last() =~= start);
        assert(whole.last() == SLASH);
        assert(name =~= Seq::<u8>::empty());
    } else {
        let less = name.drop_last();
        assert(name.contains(name.last()));
        assert forall|b: u8| less.contains(b) implies name.contains(b) by {
            let n = choose|n: int| 0 <= n < less.len() && less[n] == b;
            assert(name[n] == b);
        }
        lemma_pieces_below(start, less);
        assert(whole.drop_last() =~= start + seq![SLASH] + less);
        assert(whole.last() == name.last());
        assert(less.push(name.last()) =~= name);
        assert(pieces(whole, SLASH) =~= pieces(start, SLASH).push(name));
        assert(pieces(name, SLASH) =~= seq![name]);
    }
}

/// An entry whose name was let through is clear of the protected names where its
/// directory is.
proof fn lemma_clear_below(
    policy: Seq<Seq<u8>>,
    directory: Seq<u8>,
    name: Seq<u8>,
    path: Seq<u8>,
)
    requires
        is_clear_of(directory, policy),
        was_let_through(policy, directory, name, path),
    ensures
        is_clear_of(path, policy),
{
    lemma_pieces_below(directory, name);
    let parts = pieces(path, SLASH);
    if directory.len() == 0 {
        assert(path =~= name);
    } else {
        assert(path =~= directory + seq![SLASH] + name);
    }
    assert forall|i: int| 0 <= i < parts.len() implies !policy.contains(#[trigger] parts[i]) by {
        if i == parts.len() - 1 {
            assert(parts[i] == name);
        } else {
            assert(parts[i] == pieces(directory, SLASH)[i]);
        }
    }
}

/// Whatever a walk holds is clear of the protected names, at every step.
proof fn lemma_clear_walk(states: Seq<WalkView>, k: int)
    requires
        is_walk(states),
        states[0].directories[0].path.len() == 0,
        forall|n: int| 0 < n < states.len() ==> #[trigger] adds_what_was_let_through(states, n),
        0 <= k < states.len(),
    ensures
        states[k].protected_names == states[0].protected_names,
        forall|i: int|
            0 <= i < states[k].entries.len() ==> is_clear_of(
                (#[trigger] states[k].entries[i]).path,
                states[0].protected_names,
            ),
        forall|i: int|
            0 <= i < states[k].fresh_entries.len() ==> is_clear_of(
                (#[trigger] states[k].fresh_entries[i]).path,
                states[0].protected_names,
            ),
        forall|i: int|
            0 <= i < states[k].directories.len() ==> is_clear_of(
                (#[trigger] states[k].directories[i]).path,
                states[0].protected_names,
            ),
        forall|i: int|
            0 <= i < states[k].fresh_directories.len() ==> is_clear_of(
                (#[trigger] states[k].fresh_directories[i]).path,
                states[0].protected_names,
            ),
    decreases k,
{
    if k > 0 {
        lemma_clear_walk(states, k - 1);
        assert(walk_follows(states, k));
        assert(adds_what_was_let_through(states, k));
        let (before, after) = (states[k - 1], states[k]);
        let names = states[0].protected_names;
        if is_under_way(before) {
        } else if after == after_directory(before) {
            assert forall|i: int| 0 <= i < after.entries.len() implies is_clear_of(
                (#[trigger] after.entries[i]).path,
                names,
            ) by {
                if i < before.entries.len() {
                    assert(after.entries[i] == before.entries[i]);
                } else {
                    assert(after.entries[i] == before.fresh_entries[i - before.entries.len()]);
                }
            }
            assert forall|i: int| 0 <= i < after.directories.len() implies is_clear_of(
                (#[trigger] after.directories[i]).path,
                names,
            ) by {
                if i < before.directories.len() {
                    assert(after.directories[i] == before.directories[i]);
                } else {
                    assert(after.directories[i] == before.fresh_directories[i
                        - before.directories.len()]);
                }
            }
        } else {
            let (child, found, budget) = choose|
                child: ChildView,
                found: FoundContent,
                budget: Budget,
            |
                lies_in(child.path, child.depth, before.directories[before.listed as int])
                    && is_admitted(child, before.context) && after == #[trigger] after_child(
                    before,
                    child,
                    found,
                    budget,
                );
            let directory = before.directories[before.listed as int].path;
            let name = choose|name: Seq<u8>| #[trigger]
                was_let_through(
                    before.protected_names,
                    directory,
                    name,
                    after.fresh_entries.last().path,
                );
            assert(after.fresh_entries.last().path == child.path);
            assert(is_clear_of(before.directories[before.listed as int].path, names));
            lemma_clear_below(names, directory, name, child.path);
            assert forall|i: int| 0 <= i < after.fresh_entries.len() implies is_clear_of(
                (#[trigger] after.fresh_entries[i]).path,
                names,
            ) by {
                if i < before.fresh_entries.len() {
                    assert(after.fresh_entries[i] == before.fresh_entries[i]);
                }
            }
            assert forall|i: int| 0 <= i < after.fresh_directories.len() implies is_clear_of(
                (#[trigger] after.fresh_directories[i]).path,
                names,
            ) by {
                if i < before.fresh_directories.len() {
                    assert(after.fresh_directories[i] == before.fresh_directories[i]);
                }
            }
        }
    }
}

/// What holds at every state of a walk.
proof fn lemma_walk(states: Seq<WalkView>, k: int)
    requires
        is_walk(states),
        0 <= k < states.len(),
    ensures
        states[k].listed <= states[k].directories.len(),
        states[k].entries.len() > 0,
        forall|d: int| 0 <= d < states[k].listed ==> #[trigger] was_read(states, k, d),
        forall|i: int|
            0 < i < states[k].entries.len() ==> has_place(
                (#[trigger] states[k].entries[i]).path,
                states[k],
            ),
        forall|i: int|
            0 <= i < states[k].fresh_entries.len() ==> has_place(
                (#[trigger] states[k].fresh_entries[i]).path,
                states[k],
            ),
        states[k].listed == states[k].directories.len() ==> states[k].fresh_entries.len() == 0,
        are_found(states[k].entries, states[k].directories),
        are_found(states[k].fresh_entries, states[k].fresh_directories),
    decreases k,
{
    if k == 0 {
        let start = states[0];
        assert(start.directories[0].path == start.entries[0].path);
    } else {
        lemma_walk(states, k - 1);
        assert(walk_follows(states, k));
        let before = states[k - 1];
        let after = states[k];
        assert forall|d: int| 0 <= d < before.listed implies #[trigger] was_read(states, k, d) by {
            assert(was_read(states, k - 1, d));
        }
        if is_under_way(before) {
            assert forall|i: int| 0 < i < after.entries.len() implies has_place(
                (#[trigger] after.entries[i]).path,
                after,
            ) by {
                lemma_has_place(before.entries[i].path, before, after);
            }
            assert forall|i: int| 0 <= i < after.fresh_entries.len() implies has_place(
                (#[trigger] after.fresh_entries[i]).path,
                after,
            ) by {
                lemma_has_place(before.fresh_entries[i].path, before, after);
            }
        } else if after == after_directory(before) {
            assert(was_read(states, k, before.listed as int));
            assert forall|i: int| 0 < i < after.entries.len() implies has_place(
                (#[trigger] after.entries[i]).path,
                after,
            ) by {
                let path = after.entries[i].path;
                if i < before.entries.len() {
                    assert(before.entries[i].path == path);
                } else {
                    assert(before.fresh_entries[i - before.entries.len()].path == path);
                }
                lemma_has_place(path, before, after);
            }
            lemma_are_found(before, after);
        } else {
            let (child, found, budget) = choose|
                child: ChildView,
                found: FoundContent,
                budget: Budget,
            |
                lies_in(child.path, child.depth, before.directories[before.listed as int])
                    && is_admitted(child, before.context) && after == #[trigger] after_child(
                    before,
                    child,
                    found,
                    budget,
                );
            assert forall|i: int| 0 < i < after.entries.len() implies has_place(
                (#[trigger] after.entries[i]).path,
                after,
            ) by {
                lemma_has_place(before.entries[i].path, before, after);
            }
            assert forall|i: int| 0 <= i < after.fresh_entries.len() implies has_place(
                (#[trigger] after.fresh_entries[i]).path,
                after,
            ) by {
                if i < before.fresh_entries.len() {
                    assert(before.fresh_entries[i] == after.fresh_entries[i]);
                    lemma_has_place(before.fresh_entries[i].path, before, after);
                } else {
                    assert(lies_in(
                        child.path,
                        child.depth,
                        after.directories[after.listed as int],
                    ));
                }
            }
            let list = after.fresh_entries;
            let directories = after.fresh_directories;
            assert forall|i: int|
                0 <= i < list.len() && (#[trigger] list[i]).identity.kind
                    == NodeKind::Directory implies exists|d: int|
                0 <= d < directories.len() && (#[trigger] directories[d]).path == list[i].path by {
                if i < before.fresh_entries.len() {
                    assert(before.fresh_entries[i] == list[i]);
                    let d = choose|d: int|
                        0 <= d < before.fresh_directories.len() && (
                        #[trigger] before.fresh_directories[d]).path == list[i].path;
                    assert(directories[d] == before.fresh_directories[d]);
                } else {
                    assert(child.directory is Some);
                    assert(directories[before.fresh_directories.len() as int].path == list[i].path);
                }
            }
        }
    }
}

/// A place in the directories stays one while more are found.
proof fn lemma_has_place(path: Seq<u8>, before: WalkView, after: WalkView)
    requires
        has_place(path, before),
        before.listed <= after.listed,
        before.directories.len() <= after.directories.len(),
        forall|d: int|
            0 <= d < before.directories.len() ==> #[trigger] before.directories[d]
                == after.directories[d],
    ensures
        has_place(path, after),
{
    let (d, depth) = choose|d: int, depth: u32|
        0 <= d <= before.listed && d < before.directories.len() && #[trigger] lies_in(
            path,
            depth,
            before.directories[d],
        );
    assert(lies_in(path, depth, after.directories[d]));
}

/// Directories that were found stay so once the one they lie in was read.
proof fn lemma_are_found(before: WalkView, after: WalkView)
    requires
        are_found(before.entries, before.directories),
        are_found(before.fresh_entries, before.fresh_directories),
        after == after_directory(before),
    ensures
        are_found(after.entries, after.directories),
{
    let list = after.entries;
    let directories = after.directories;
    assert forall|i: int|
        0 <= i < list.len() && (#[trigger] list[i]).identity.kind
            == NodeKind::Directory implies exists|d: int|
        0 <= d < directories.len() && (#[trigger] directories[d]).path == list[i].path by {
        if i < before.entries.len() {
            assert(before.entries[i] == list[i]);
            let d = choose|d: int|
                0 <= d < before.directories.len() && (#[trigger] before.directories[d]).path
                    == list[i].path;
            assert(directories[d] == before.directories[d]);
        } else {
            let fresh = before.fresh_entries[i - before.entries.len()];
            assert(fresh == list[i]);
            let d = choose|d: int|
                0 <= d < before.fresh_directories.len() && (
                #[trigger] before.fresh_directories[d]).path == list[i].path;
            assert(directories[before.directories.len() + d] == before.fresh_directories[d]);
        }
    }
}

/// Whether `path` is that of a known directory or of one of the first `count`
/// fresh ones.
fn directory_known(
    known: &Vec<DirectoryEvidence>,
    fresh: &Vec<DirectoryEvidence>,
    count: usize,
    path: &[u8],
) -> (found: bool)
    requires
        count <= fresh@.len(),
    ensures
        found == (position_of(
            directory_views(known@) + directory_views(fresh@).take(count as int),
            path@,
            0,
        ) is Some),
{
    let ghost all = directory_views(known@) + directory_views(fresh@).take(count as int);
    proof {
        lemma_position(all, path@, 0);
        lemma_position(directory_views(known@), path@, 0);
    }
    match find_directory(known, path) {
        Some(position) => {
            assert(all[position as int].path == path@);
            return true;
        },
        None => {},
    }
    let mut i: usize = 0;
    while i < count
        invariant
            i <= count <= fresh@.len(),
            all == directory_views(known@) + directory_views(fresh@).take(count as int),
            match position_of(all, path@, 0) {
                Some(p) => 0 <= p < all.len() && all[p].path == path@,
                None => forall|n: int| 0 <= n < all.len() ==> (#[trigger] all[n]).path != path@,
            },
            forall|n: int|
                0 <= n < known@.len() ==> (#[trigger] directory_views(known@)[n]).path != path@,
            forall|n: int|
                0 <= n < i ==> (#[trigger] directory_views(fresh@)[n]).path != path@,
        decreases count - i,
    {
        if crate::bytes::bytes_equal(fresh[i].relative_path.as_slice(), path) {
            assert(all[known@.len() + i].path == path@);
            return true;
        }
        i += 1;
    }
    proof {
        assert forall|n: int| 0 <= n < all.len() implies (#[trigger] all[n]).path != path@ by {
            if n < known@.len() {
                assert(all[n] == directory_views(known@)[n]);
            } else {
                assert(all[n] == directory_views(fresh@)[n - known@.len()]);
            }
        }
    }
    false
}

/// The attributes of the first `count` entries added up.
pub open spec fn xattr_sum(entries: Seq<WalkEntryView>, count: int) -> (int, int, int)
    decreases count,
{
    if count <= 0 {
        (0, 0, 0)
    } else {
        let before = xattr_sum(entries, count - 1);
        match entries[count - 1].xattrs {
            Some(proof) => if has_attributes(proof) {
                (
                    before.0 + 1,
                    before.1 + proof.attribute_count,
                    before.2 + proof.value_bytes,
                )
            } else {
                before
            },
            None => before,
        }
    }
}

/// The proof is of at least one attribute.
pub open spec fn has_attributes(proof: RegularXattrProof) -> bool {
    proof.attribute_count != 0
}

/// The first entry at which the sums can no longer be held.
pub open spec fn xattr_overflow(entries: Seq<WalkEntryView>, at: int) -> Option<Seq<u8>>
    decreases entries.len() - at,
{
    if at >= entries.len() {
        None
    } else {
        let sum = xattr_sum(entries, at + 1);
        if sum.0 > u64::MAX || sum.1 > u64::MAX || sum.2 > u64::MAX {
            Some(entries[at].path)
        } else {
            xattr_overflow(entries, at + 1)
        }
    }
}

/// Adds the attributes of one file to what was counted before.
pub fn count_regular_xattrs(
    topology: RegularXattrTopology,
    proof: RegularXattrProof,
    path: &[u8],
) -> (counted: Result<RegularXattrTopology, HeldTreeError>)
    ensures
        ({
            let more = if has_attributes(proof) {
                1int
            } else {
                0int
            };
            let attributes = if has_attributes(proof) {
                proof.attribute_count as int
            } else {
                0int
            };
            let bytes = if has_attributes(proof) {
                proof.value_bytes as int
            } else {
                0int
            };
            &&& refused_for(
                counted,
                if topology.entries + more > u64::MAX || topology.attributes + attributes
                    > u64::MAX || topology.value_bytes + bytes > u64::MAX {
                    Some(TreeFault::XattrsChangedDuringProof(path@))
                } else {
                    None
                },
            )
            &&& counted matches Ok(sum) ==> sum.entries == topology.entries + more
                && sum.attributes == topology.attributes + attributes && sum.value_bytes
                == topology.value_bytes + bytes
        }),
{
    if proof.is_empty() {
        return Ok(topology);
    }
    match (
        topology.entries.checked_add(1),
        topology.attributes.checked_add(proof.attribute_count),
        topology.value_bytes.checked_add(proof.value_bytes),
    ) {
        (Some(entries), Some(attributes), Some(value_bytes)) => Ok(
            RegularXattrTopology { entries, attributes, value_bytes },
        ),
        _ => Err(HeldTreeError::XattrsChangedDuringProof(to_vec(path))),
    }
}

/// Adds up the attributes of all regular files.
pub fn summarize_regular_xattrs(entries: &Vec<WalkEntry>) -> (topology: Result<
    RegularXattrTopology,
    HeldTreeError,
>)
    ensures
        refused_for(
            topology,
            match xattr_overflow(walk_views(entries@), 0) {
                Some(path) => Some(TreeFault::XattrsChangedDuringProof(path)),
                None => None,
            },
        ),
        topology matches Ok(sum) ==> (sum.entries as int, sum.attributes as int, sum.value_bytes
            as int) == xattr_sum(walk_views(entries@), entries@.len() as int),
{
    let ghost list = walk_views(entries@);
    let mut topology = RegularXattrTopology::default();
    let mut i: usize = 0;
    while i < entries.len()
        invariant
            i <= entries@.len(),
            list == walk_views(entries@),
            (topology.entries as int, topology.attributes as int, topology.value_bytes as int)
                == xattr_sum(list, i as int),
            xattr_overflow(list, 0) == xattr_overflow(list, i as int),
        decreases entries@.len() - i,
    {
        assert(list[i as int] == entries@[i as int]@);
        match entries[i].xattrs {
            Some(proof) => {
                topology = count_regular_xattrs(topology, proof, entries[i].path.as_slice())?;
            },
            None => {},
        }
        i += 1;
    }
    Ok(topology)
}

/// What is kept of an entry is what was seen of it, under its path, with the
/// content that was proved.
pub proof fn law_entries_are_kept_as_seen(path: Seq<u8>, seen: Inspection, found: FoundContent)
    ensures
        ({
            let kept = kept_entry(path, seen, found);
            &&& kept.path == path
            &&& kept.identity == seen.identity
            &&& found matches FoundContent::Proved(content) ==> (kept.manifest matches Some(entry)
                && entry.path == path && entry.identity == seen.identity && entry.uid == seen.uid
                && entry.gid == seen.gid && entry.mode == seen.mode && entry.content == content@)
            &&& found is Assessed ==> kept.manifest is None
            &&& kept.regular matches Some(file) ==> file.identity == seen.identity && file.size
                == seen.size && file.nlink == seen.nlink && file.uid == seen.uid && file.gid
                == seen.gid && file.mode == seen.mode && file.mtime_sec == seen.mtime_sec
                && file.mtime_nsec == seen.mtime_nsec && file.ctime_sec == seen.ctime_sec
                && file.ctime_nsec == seen.ctime_nsec
        }),
{
}

/// The first directory that is known already is refused, and none is where there
/// is no such.
pub proof fn law_repeated_directories_are_seen(
    known: Seq<DirectoryView>,
    fresh: Seq<DirectoryView>,
    at: int,
    i: int,
    j: int,
)
    requires
        0 <= at <= i < fresh.len(),
        0 <= j < known.len() + i,
        (known + fresh)[j].path == fresh[i].path,
    ensures
        repeated_directory(known, fresh, at) is Some,
    decreases i - at,
{
    if at == i {
        let all = known + fresh.take(at);
        assert(all[j] == (known + fresh)[j]);
        lemma_path_is_found(all, fresh[i].path, j, 0);
    } else {
        law_repeated_directories_are_seen(known, fresh, at + 1, i, j);
    }
}

/// A path that stands in a list is found.
proof fn lemma_path_is_found(list: Seq<DirectoryView>, path: Seq<u8>, at: int, from: int)
    requires
        0 <= from <= at < list.len(),
        list[at].path == path,
    ensures
        position_of(list, path, from) is Some,
    decreases at - from,
{
    if from < at && list[from].path != path {
        lemma_path_is_found(list, path, at, from + 1);
    }
}

/// The directories are read in the order in which they were found, each reached
/// in the way that its schema asks for: the root of a tree whose content is proved
/// through the descriptor that is held, anything else anew from the root.
pub proof fn law_directories_are_reached_anew(walk: WalkView)
    ensures
        check_of(walk) == DirectoryCheck::Current <==> walk.manifest_schema != 1 && walk.listed
            == 0,
        check_of(walk) == DirectoryCheck::FromBoundRoot <==> walk.manifest_schema == 1,
{
}

/// An admitted entry is accepted exactly where it keeps the limits of entries, and
/// one that is a directory those of directories too; both are counted once.
pub proof fn law_children_are_counted(budget: Budget, child: ChildView)
    ensures
        child_budget_fault(budget, child) is None <==> path_fault(
            budget,
            child.path.len(),
            child.depth,
        ) is None && (child.directory is Some ==> directory_fault(
            with_path(budget, child.path.len()),
        ) is None),
        child_budget_fault(budget, child) is None ==> spent_on_child(budget, child)
            == child_budget(budget, child),
        child_budget_fault(budget, child) is None && budget.entries < u64::MAX
            && budget.directories < u64::MAX ==> {
            let after = child_budget(budget, child);
            &&& after.entries == budget.entries + 1
            &&& after.directories == budget.directories + if child.directory is Some {
                1int
            } else {
                0
            }
            &&& after.limits == budget.limits
            &&& after.content_bytes == budget.content_bytes
        },
{
}

/// The attributes of each file that has any are added, and those of no other: a file
/// adds itself, its attributes and the bytes of their values.
pub proof fn law_attributes_of_every_file_are_added(entries: Seq<WalkEntryView>, count: int)
    requires
        0 < count <= entries.len(),
    ensures
        ({
            let (before, after) = (xattr_sum(entries, count - 1), xattr_sum(entries, count));
            match entries[count - 1].xattrs {
                Some(proof) => if proof.attribute_count > 0 {
                    &&& after.0 == before.0 + 1
                    &&& after.1 == before.1 + proof.attribute_count
                    &&& after.2 == before.2 + proof.value_bytes
                } else {
                    after == before
                },
                None => after == before,
            }
        }),
        xattr_sum(entries, 0) == (0int, 0int, 0int),
{
}

} // verus!
