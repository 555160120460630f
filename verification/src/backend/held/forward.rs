//! The walk whose records are written out as they come.
//!
//! After the directories of a tree have been sealed, the walk that proves it
//! keeps nothing but the root: every record leaves at once, in the order of the
//! file system, and is sorted outside. The sorted records come back one by one;
//! each regular file among them is looked at a last time, and the directories on
//! the way to it are known from the records before.

use crate::backend::certify::CertifiedLocalBackend;
use crate::backend::evidence::HeldLocalBackendEvidence;
use crate::backend::held::child::admit_root;
use crate::backend::held::child::is_admitted;
use crate::backend::held::child::is_admitted_root;
use crate::backend::held::child::lies_in;
use crate::backend::held::child::root_fault;
use crate::backend::held::child::AdmittedChild;
use crate::backend::held::child::AdmittedRoot;
use crate::backend::held::child::RootProbe;
use crate::backend::held::child::TreeContext;
use crate::backend::held::child::WalkRequest;
use crate::backend::held::content::ContentFinding;
use crate::backend::held::content::link_content;
use crate::backend::held::content::spent_on_link;
use crate::backend::held::decoder::ManifestV3Record;
use crate::backend::held::decoder::ManifestV3RecordContent;
use crate::backend::held::decoder::ManifestV3RecordKind;
use crate::backend::held::directories::directory_views;
use crate::backend::held::directories::DirectoryEvidence;
use crate::backend::held::directories::DirectoryView;
use crate::backend::held::error::refused_for;
use crate::backend::held::error::HeldTreeError;
use crate::backend::held::error::HeldTreeLimit;
use crate::backend::held::error::ManifestV3CodecError;
use crate::backend::held::error::TreeFault;
use crate::backend::held::inspect::parent_fault;
use crate::backend::held::inspect::require_exclusive_parent;
use crate::backend::held::inspect::root_binding_fault;
use crate::backend::held::inspect::seen_structure;
use crate::backend::held::inspect::structure_fault;
use crate::backend::held::inspect::verify_root_binding_fields;
use crate::backend::held::inspect::Inspection;
use crate::backend::held::inspect::ParentAdmission;
use crate::backend::held::inspect::ParentProbe;
use crate::backend::held::limits::first_fault;
use crate::backend::held::limits::fresh_budget;
use crate::backend::held::limits::with_directory;
use crate::backend::held::limits::with_path;
use crate::backend::held::limits::Budget;
use crate::backend::held::limits::HeldTreeLimits;
use crate::backend::held::limits::CONTENT_PROOF_VERSION;
use crate::backend::held::manifest::record_v3;
use crate::backend::held::model::ContentProof;
use crate::backend::held::model::ContentView;
use crate::backend::held::model::DurableTreeManifest;
use crate::backend::held::model::EntryView;
use crate::backend::held::model::HeldTreeFingerprint;
use crate::backend::held::model::NodeIdentity;
use crate::backend::held::model::NodeKind;
use crate::backend::held::model::RegularFileObservation;
use crate::backend::held::model::RegularHardLinkTopology;
use crate::backend::held::model::RegularXattrProof;
use crate::backend::held::model::RegularXattrTopology;
use crate::backend::held::model::StructureEvidence;
use crate::backend::held::model::StructureView;
use crate::backend::held::model::structure_of;
use crate::backend::held::decoder::MANIFEST_V3_MAX_SEGMENT_PAYLOAD;
use crate::backend::held::reobserve::LastLook;
use crate::backend::held::reobserve::LookStage;
use crate::backend::held::scratch::emit_structure_record;
use crate::backend::held::scratch::encode_hardlink_scratch_record;
use crate::backend::held::scratch::link_record;
use crate::backend::held::scratch::link_record_error;
use crate::backend::held::scratch::structure_record;
use crate::backend::held::scratch::structure_record_error;
use crate::backend::held::stream::emit_forward_v3_record;
use crate::backend::held::stream::record_size_error;
use crate::backend::held::topology::LinkView;
use crate::backend::held::walk::charge_child;
use crate::backend::held::walk::child_budget;
use crate::backend::held::walk::child_budget_fault;
use crate::backend::held::walk::count_regular_xattrs;
use crate::backend::held::walk::root_budget_fault;
use crate::backend::held::walk::spent_on_child;
use crate::bytes::arrays_equal;
use crate::bytes::bytes_equal;
use crate::bytes::to_vec;
use crate::paths::depth;
use crate::paths::is_beneath;
use crate::paths::is_canonical;
use crate::paths::parent;
use crate::paths::path_is_beneath;
use crate::paths::path_parent_bytes;
use crate::paths::split;
use crate::paths::views;
use crate::paths::SLASH;
use vstd::prelude::*;

verus! {

/// Why a walk that writes its records out is refused.
#[derive(Debug, PartialEq, Eq)]
pub enum HeldTreeV3CollectError {
    Tree(HeldTreeError),
    Codec(ManifestV3CodecError),
}

/// The content of a [`HeldTreeV3CollectError`].
#[verifier::ext_equal]
pub enum CollectFault {
    Tree(TreeFault),
    Codec(ManifestV3CodecError),
}

impl View for HeldTreeV3CollectError {
    type V = CollectFault;

    open spec fn view(&self) -> CollectFault {
        match *self {
            HeldTreeV3CollectError::Tree(error) => CollectFault::Tree(error@),
            HeldTreeV3CollectError::Codec(error) => CollectFault::Codec(error),
        }
    }
}

/// A step that either succeeds or is refused for exactly one reason.
pub open spec fn collected_unless<T>(
    outcome: Result<T, HeldTreeV3CollectError>,
    fault: Option<CollectFault>,
) -> bool {
    match fault {
        Some(fault) => outcome matches Err(error) && error@ == fault,
        None => outcome is Ok,
    }
}

/// The first of a fault of the tree and a fault of the record.
pub open spec fn tree_then_codec(
    tree: Option<TreeFault>,
    codec: Option<ManifestV3CodecError>,
) -> Option<CollectFault> {
    match tree {
        Some(fault) => Some(CollectFault::Tree(fault)),
        None => match codec {
            Some(error) => Some(CollectFault::Codec(error)),
            None => None,
        },
    }
}

/// A record, with the room that it needs.
fn encode_record(entry: &crate::backend::held::model::ManifestEntry) -> (record: Result<
    Vec<u8>,
    HeldTreeV3CollectError,
>)
    ensures
        collected_unless(
            record,
            tree_then_codec(None, record_size_error(entry@, MANIFEST_V3_MAX_SEGMENT_PAYLOAD)),
        ),
        record matches Ok(bytes) ==> bytes@ == record_v3(entry@),
{
    let mut record: Vec<u8> = Vec::new();
    match emit_forward_v3_record(entry, &mut record) {
        Ok(_) => Ok(record),
        Err(error) => Err(HeldTreeV3CollectError::Codec(error)),
    }
}

/// The manifest entry of a directory that has been opened.
pub open spec fn directory_entry(path: Seq<u8>, seen: Inspection) -> EntryView {
    EntryView {
        path,
        identity: seen.identity,
        uid: seen.uid,
        gid: seen.gid,
        mode: seen.mode,
        content: ContentView::Directory,
    }
}

/// The manifest entry of what was seen, with its content.
pub open spec fn proved_entry(path: Seq<u8>, seen: Inspection, content: ContentView) -> EntryView {
    EntryView {
        path,
        identity: seen.identity,
        uid: seen.uid,
        gid: seen.gid,
        mode: seen.mode,
        content,
    }
}

/// A walk that writes its records out as they come.
#[derive(Debug)]
pub struct ForwardWalk {
    context: TreeContext,
    root: DirectoryEvidence,
    root_name: Vec<u8>,
    protected_names: Vec<Vec<u8>>,
    reading: Vec<DirectoryEvidence>,
    budget: Budget,
}

/// The content of a [`ForwardWalk`].
#[verifier::ext_equal]
pub struct ForwardView {
    pub context: TreeContext,
    pub root: DirectoryView,
    pub root_name: Seq<u8>,
    pub protected_names: Seq<Seq<u8>>,
    /// The directories that are being read, from the root down.
    pub reading: Seq<DirectoryView>,
    pub budget: Budget,
}

impl View for ForwardWalk {
    type V = ForwardView;

    closed spec fn view(&self) -> ForwardView {
        ForwardView {
            context: self.context,
            root: self.root@,
            root_name: self.root_name@,
            protected_names: views(self.protected_names@),
            reading: directory_views(self.reading@),
            budget: self.budget,
        }
    }
}

/// The directories that are being read after an entry of the last of them: one
/// that is a directory is read at once.
pub open spec fn after_entry(
    reading: Seq<DirectoryView>,
    directory: Option<DirectoryView>,
) -> Seq<DirectoryView> {
    match directory {
        Some(below) => reading.push(below),
        None => reading,
    }
}

/// The walk after its root has been admitted.
pub open spec fn started_forward(request: WalkRequest, root: AdmittedRoot) -> ForwardView {
    ForwardView {
        context: root.context,
        root: root.evidence@,
        root_name: request.root_name@,
        protected_names: views(request.protected_names@),
        reading: seq![root.evidence@],
        budget: with_directory(
            with_path(fresh_budget(request.limits, CONTENT_PROOF_VERSION), 0),
        ),
    }
}

impl ForwardWalk {
    /// Starts a walk at an admitted root and gives the root's record.
    pub fn begin(request: WalkRequest, parent: &HeldLocalBackendEvidence, probe: RootProbe<'_>)
        -> (started: Result<(Self, Vec<u8>), HeldTreeV3CollectError>)
        ensures
            collected_unless(
                started,
                tree_then_codec(
                    first_fault(
                        root_fault(request, parent@, ParentAdmission::CurrentExclusive, probe),
                        root_budget_fault(request.limits, CONTENT_PROOF_VERSION),
                    ),
                    match probe.opening.opened {
                        Ok(opened) => record_size_error(
                            directory_entry(Seq::empty(), opened),
                            MANIFEST_V3_MAX_SEGMENT_PAYLOAD,
                        ),
                        Err(_) => None,
                    },
                ),
            ),
            started matches Ok((walk, _)) ==> {
                &&& walk@.protected_names == views(request.protected_names@)
                &&& !walk@.protected_names.contains(request.root_name@)
                &&& walk@.root_name == request.root_name@
                &&& walk@.budget.limits == request.limits
                &&& walk@.context.backend == parent@.snapshot.backend
                &&& walk@.context.mount_id == parent@.snapshot.mount_id
                &&& walk@.root.identity == walk@.context.root_identity
            },
            started matches Ok((walk, record)) ==> exists|root: AdmittedRoot|
                is_admitted_root(root, parent@, probe) && walk@ == #[trigger] started_forward(
                    request,
                    root,
                ) && record@ == record_v3(directory_entry(Seq::empty(), root.opened)),
    {
        let root = match admit_root(&request, parent, ParentAdmission::CurrentExclusive, probe) {
            Ok(root) => root,
            Err(error) => {
                return Err(HeldTreeV3CollectError::Tree(error));
            },
        };
        let ghost admitted = root;
        let path: Vec<u8> = Vec::new();
        assert(path@ =~= Seq::<u8>::empty());
        let mut budget = Budget::new(request.limits, CONTENT_PROOF_VERSION);
        match budget.add_path(path.as_slice(), 0) {
            Ok(_) => {},
            Err(error) => {
                return Err(HeldTreeV3CollectError::Tree(error));
            },
        }
        match budget.add_directory() {
            Ok(_) => {},
            Err(error) => {
                return Err(HeldTreeV3CollectError::Tree(error));
            },
        }
        let entry = root.opened.into_manifest(path, ContentProof::Directory);
        let record = encode_record(&entry)?;
        let walk = ForwardWalk {
            context: root.context,
            reading: vec![root.evidence.clone()],
            root: root.evidence,
            root_name: request.root_name,
            protected_names: request.protected_names,
            budget,
        };
        assert(walk@.reading =~= seq![admitted.evidence@]);
        assert(walk@ == started_forward(request, admitted));
        Ok((walk, record))
    }

    /// What the walk is confined to.
    pub fn context(&self) -> (context: TreeContext)
        ensures
            context == self@.context,
    {
        self.context
    }

    /// The names that stop the walk.
    pub fn protected_names(&self) -> (names: &Vec<Vec<u8>>)
        ensures
            views(names@) == self@.protected_names,
    {
        &self.protected_names
    }

    /// What has been spent.
    pub fn spent(&self) -> (budget: Budget)
        ensures
            budget == self@.budget,
    {
        self.budget
    }

    /// The directory whose entries come next, until every directory was read.
    pub fn current_directory(&self) -> (current: Option<&DirectoryEvidence>)
        ensures
            match current {
                Some(directory) => self@.reading.len() > 0 && directory@ == self@.reading.last(),
                None => self@.reading.len() == 0,
            },
    {
        last_directory(&self.reading)
    }

    /// Ends the directory that is being read; that which it lies in is gone on
    /// with.
    pub fn end_directory(&mut self)
        requires
            old(self)@.reading.len() > 0,
        ensures
            final(self)@ == (ForwardView {
                reading: old(self)@.reading.drop_last(),
                ..old(self)@
            }),
    {
        leave_last(&mut self.reading);
    }

    /// Counts an entry of the directory that is being read, on top of what was
    /// spent on its content, and gives its record. A directory is read next.
    pub fn add_child(&mut self, child: AdmittedChild, finding: ContentFinding) -> (added: Result<
        Vec<u8>,
        HeldTreeV3CollectError,
    >)
        requires
            old(self)@.reading.len() > 0,
            lies_in(child@.path, child@.depth, old(self)@.reading.last()),
            is_admitted(child@, old(self)@.context),
            finding.is_on(child@.path, child@.seen, old(self)@.budget),
            finding.found() is Proved,
        ensures
            collected_unless(
                added,
                tree_then_codec(
                    child_budget_fault(finding.spent(), child@),
                    record_size_error(
                        proved_entry(child@.path, child@.seen, finding.found()->Proved_0@),
                        MANIFEST_V3_MAX_SEGMENT_PAYLOAD,
                    ),
                ),
            ),
            final(self)@ == (ForwardView {
                reading: if added is Ok {
                    after_entry(old(self)@.reading, child@.directory)
                } else {
                    old(self)@.reading
                },
                budget: spent_on_child(finding.spent(), child@),
                ..old(self)@
            }),
            added matches Ok(record) ==> record@ == record_v3(
                proved_entry(child@.path, child@.seen, finding.found()->Proved_0@),
            ) && final(self)@.budget == child_budget(finding.spent(), child@),
    {
        let (content, budget) = finding.into_proof();
        self.budget = budget;
        match charge_child(&mut self.budget, &child) {
            Ok(_) => {},
            Err(error) => {
                return Err(HeldTreeV3CollectError::Tree(error));
            },
        }
        let seen = child.inspection();
        let (path, directory) = child.into_parts();
        let entry = seen.into_manifest(path, content);
        let record = encode_record(&entry)?;
        go_down(&mut self.reading, directory);
        Ok(record)
    }

    /// Ends the walk, once every directory was read: the parent and the binding
    /// of the root have to be what they were.
    pub fn finish(
        self,
        parent: &HeldLocalBackendEvidence,
        probe: ParentProbe,
        rebound: Result<Inspection, HeldTreeError>,
    ) -> (pending: Result<PendingV3Inventory, HeldTreeError>)
        requires
            self@.reading.len() == 0,
        ensures
            refused_for(
                pending,
                binding_fault(parent@, self@.context, probe, rebound),
            ),
            pending matches Ok(done) ==> done@ == self@,
    {
        verify_root_binding(parent, &self.context, probe, rebound)?;
        Ok(PendingV3Inventory { walk: self })
    }
}

/// The last directory of those that are being read.
fn last_directory(reading: &Vec<DirectoryEvidence>) -> (last: Option<&DirectoryEvidence>)
    ensures
        match last {
            Some(directory) => reading@.len() > 0 && directory@ == directory_views(
                reading@,
            ).last(),
            None => reading@.len() == 0,
        },
{
    let count: usize = reading.len();
    if count == 0 {
        None
    } else {
        Some(&reading[count - 1])
    }
}

/// Ends the last directory of those that are being read.
fn leave_last(reading: &mut Vec<DirectoryEvidence>)
    requires
        old(reading)@.len() > 0,
    ensures
        directory_views(final(reading)@) == directory_views(old(reading)@).drop_last(),
{
    reading.pop();
    assert(directory_views(reading@) =~= directory_views(old(reading)@).drop_last());
}

/// Goes on with an entry that is a directory.
fn go_down(reading: &mut Vec<DirectoryEvidence>, directory: Option<DirectoryEvidence>)
    ensures
        directory_views(final(reading)@) == after_entry(
            directory_views(old(reading)@),
            match directory {
                Some(below) => Some(below@),
                None => None,
            },
        ),
{
    match directory {
        Some(below) => {
            reading.push(below);
            assert(directory_views(reading@) =~= directory_views(old(reading)@).push(below@));
        },
        None => {},
    }
}

/// The directories that are being read follow on those before: an entry of the
/// last one was met, or the last one was read to its end.
pub open spec fn reading_follows(states: Seq<Seq<DirectoryView>>, k: int) -> bool {
    let (before, after) = (states[k - 1], states[k]);
    &&& before.len() > 0
    &&& after == before.drop_last() || after == before || after.len() == before.len() + 1
        && after.drop_last() == before && lies_in(
        after.last().path,
        after.last().depth,
        before.last(),
    )
}

/// The directories that are being read by a walk that goes down at once, step by
/// step.
pub open spec fn is_descent(states: Seq<Seq<DirectoryView>>) -> bool {
    forall|k: int| 0 < k < states.len() ==> #[trigger] reading_follows(states, k)
}

/// A directory that is being read was read to its end at some step, before the
/// one that it lies in was gone on with.
pub open spec fn was_left(states: Seq<Seq<DirectoryView>>, start: int, k: int) -> bool {
    exists|n: int|
        start < n <= k && #[trigger] reading_follows(states, n) && states[n - 1] == states[start]
            && states[n] == states[start].drop_last()
}

/// A walk that goes down at once ends only once it has read every directory that
/// it met to its end.
pub proof fn law_every_directory_met_is_read(
    states: Seq<Seq<DirectoryView>>,
    start: int,
    k: int,
)
    requires
        is_descent(states),
        0 <= start <= k < states.len(),
        states[start].len() > 0,
        states[k].len() == 0,
    ensures
        was_left(states, start, k),
{
    lemma_descent(states, start, k);
}

/// Until a directory is left, what is being read lies at or below it.
proof fn lemma_descent(states: Seq<Seq<DirectoryView>>, start: int, k: int)
    requires
        is_descent(states),
        0 <= start <= k < states.len(),
        states[start].len() > 0,
    ensures
        was_left(states, start, k) || states[k].len() >= states[start].len() && states[k].take(
            states[start].len() as int,
        ) == states[start],
    decreases k - start,
{
    let depth = states[start].len() as int;
    if k == start {
        assert(states[k].take(depth) =~= states[start]);
    } else {
        lemma_descent(states, start, k - 1);
        assert(reading_follows(states, k));
        let before = states[k - 1];
        let after = states[k];
        if was_left(states, start, k - 1) {
            assert(was_left(states, start, k));
        } else if after == before.drop_last() && before.len() == depth {
            assert(before.take(depth) =~= before);
            assert(was_left(states, start, k));
        } else if after == before.drop_last() {
            assert(after.take(depth) =~= before.take(depth));
        } else if after != before {
            assert(after.take(depth) =~= after.drop_last().take(depth));
        }
    }
}

/// Why the root is no longer bound where it was, in a parent that is its
/// owner's alone.
pub open spec fn binding_fault(
    parent: crate::backend::evidence::EvidenceView,
    context: TreeContext,
    probe: ParentProbe,
    rebound: Result<Inspection, HeldTreeError>,
) -> Option<TreeFault> {
    first_fault(
        parent_fault(parent, context.backend, ParentAdmission::CurrentExclusive, probe),
        root_binding_fault(context.root_identity, context.mount_id, context.backend, rebound),
    )
}

/// Requires that the root is still bound where it was, in a parent that is its
/// owner's alone.
pub fn verify_root_binding(
    parent: &HeldLocalBackendEvidence,
    context: &TreeContext,
    probe: ParentProbe,
    rebound: Result<Inspection, HeldTreeError>,
) -> (outcome: Result<(), HeldTreeError>)
    ensures
        refused_for(outcome, binding_fault(parent@, *context, probe, rebound)),
{
    require_exclusive_parent(parent, context.backend, probe)?;
    verify_root_binding_fields(
        context.root_identity,
        context.mount_id,
        context.backend,
        rebound,
    )
}

/// Requires that a directory stream is on the tree's file system.
pub fn certify_directory_stream(
    held: Result<&HeldLocalBackendEvidence, HeldTreeError>,
    path: &[u8],
    context: &TreeContext,
) -> (outcome: Result<(), HeldTreeError>)
    ensures
        refused_for(
            outcome,
            match held {
                Err(error) => Some(error@),
                Ok(held) => if held@.snapshot.backend != context.backend || held@.snapshot.mount_id
                    != context.mount_id {
                    Some(TreeFault::BackendBoundary(path@))
                } else {
                    None
                },
            },
        ),
{
    let held = held?;
    if held.backend() != context.backend || held.mount_id() != context.mount_id {
        return Err(HeldTreeError::BackendBoundary(to_vec(path)));
    }
    Ok(())
}

/// A walk whose records have left, before its files were looked at a last time.
#[derive(Debug)]
pub struct PendingV3Inventory {
    walk: ForwardWalk,
}

impl View for PendingV3Inventory {
    type V = ForwardView;

    closed spec fn view(&self) -> ForwardView {
        self.walk@
    }
}

impl PendingV3Inventory {
    /// How many entries were counted.
    pub fn entry_count(&self) -> (count: u64)
        ensures
            count == self@.budget.entries,
    {
        self.walk.budget.entries
    }

    /// Starts the last look at the sorted records, of which there have to be as
    /// many as left.
    pub fn into_finalizer(self, expected_manifest: DurableTreeManifest) -> (finalizer: Result<
        PendingV3Finalizer,
        HeldTreeError,
    >)
        ensures
            refused_for(
                finalizer,
                if self@.budget.entries != expected_manifest.entry_count {
                    Some(TreeFault::PostChanged(Seq::empty()))
                } else {
                    None
                },
            ),
            finalizer matches Ok(started) ==> started@ == (FinalizerView {
                walk: self@,
                expected: HeldTreeFingerprint {
                    schema_version: expected_manifest.schema_version,
                    entry_count: expected_manifest.entry_count,
                    sha256: expected_manifest.sha256,
                },
                observed_entries: 0,
                active: Seq::empty(),
                xattrs: RegularXattrTopology { entries: 0, attributes: 0, value_bytes: 0 },
                pending: None,
            }),
    {
        if self.walk.budget.entries != expected_manifest.entry_count {
            let path: Vec<u8> = Vec::new();
            assert(path@ =~= Seq::<u8>::empty());
            return Err(HeldTreeError::PostChanged(path));
        }
        let finalizer = PendingV3Finalizer {
            walk: self.walk,
            expected_manifest: HeldTreeFingerprint {
                schema_version: expected_manifest.schema_version,
                entry_count: expected_manifest.entry_count,
                sha256: expected_manifest.sha256,
            },
            observed_entries: 0,
            active_directories: Vec::new(),
            regular_xattrs: RegularXattrTopology::default(),
            pending: None,
        };
        assert(directory_views(finalizer.active_directories@) =~= Seq::<DirectoryView>::empty());
        Ok(finalizer)
    }
}

/// The last look at a walk, record by record.
#[derive(Debug)]
pub struct PendingV3Finalizer {
    walk: ForwardWalk,
    expected_manifest: HeldTreeFingerprint,
    observed_entries: u64,
    active_directories: Vec<DirectoryEvidence>,
    regular_xattrs: RegularXattrTopology,
    pending: Option<PendingFile>,
}

/// A regular file that was recorded and has to be looked at.
#[derive(Debug)]
struct PendingFile {
    path: Vec<u8>,
    observation: RegularFileObservation,
}

/// The content of a [`PendingV3Finalizer`].
#[verifier::ext_equal]
pub struct FinalizerView {
    pub walk: ForwardView,
    pub expected: HeldTreeFingerprint,
    pub observed_entries: u64,
    /// The directories above the record that was observed last, from the root.
    pub active: Seq<DirectoryView>,
    pub xattrs: RegularXattrTopology,
    /// The regular file that has to be looked at before anything else.
    pub pending: Option<LinkView>,
}

impl View for PendingV3Finalizer {
    type V = FinalizerView;

    closed spec fn view(&self) -> FinalizerView {
        FinalizerView {
            walk: self.walk@,
            expected: self.expected_manifest,
            observed_entries: self.observed_entries,
            active: directory_views(self.active_directories@),
            xattrs: self.regular_xattrs,
            pending: match self.pending {
                Some(file) => Some(LinkView { path: file.path@, observation: file.observation }),
                None => None,
            },
        }
    }
}

/// The directories that `path` lies below: those from the first on, up to the
/// last that it lies below.
pub open spec fn still_active(active: Seq<DirectoryView>, path: Seq<u8>) -> Seq<DirectoryView>
    decreases active.len(),
{
    if active.len() == 0 || is_beneath(active.last().path, path) {
        active
    } else {
        still_active(active.drop_last(), path)
    }
}

/// What a record says of its directory. The mode is the one that was observed,
/// where it differs from the recorded one.
pub open spec fn recorded_directory(record: EntryView, observed_mode: Option<u32>)
    -> DirectoryView {
    DirectoryView {
        path: record.path,
        depth: depth(record.path) as u32,
        identity: record.identity,
        owner_uid: record.uid,
        group_gid: record.gid,
        observed_mode: match observed_mode {
            Some(mode) => mode,
            None => record.mode,
        },
    }
}

/// What a record says of its regular file.
pub open spec fn recorded_file(record: EntryView) -> Option<RegularFileObservation> {
    match record.content {
        ContentView::Regular {
            size,
            nlink,
            mtime_sec,
            mtime_nsec,
            ctime_sec,
            ctime_nsec,
            sha256,
            xattrs,
        } => Some(
            RegularFileObservation {
                identity: NodeIdentity {
                    kind: NodeKind::Regular,
                    device: record.identity.device,
                    inode: record.identity.inode,
                    incarnation: record.identity.incarnation,
                },
                uid: record.uid,
                gid: record.gid,
                mode: record.mode,
                size,
                nlink,
                mtime_sec,
                mtime_nsec,
                ctime_sec,
                ctime_nsec,
                sha256: Some(sha256),
                xattrs,
            },
        ),
        _ => None,
    }
}

/// Why a record cannot follow those before it.
pub open spec fn record_fault(state: FinalizerView, record: EntryView, observed_mode: Option<u32>)
    -> Option<TreeFault> {
    let active = still_active(state.active, record.path);
    if state.observed_entries == u64::MAX {
        Some(
            TreeFault::Limit {
                kind: HeldTreeLimit::Entries,
                limit: state.walk.budget.limits.max_entries,
            },
        )
    } else if record.path.len() > 0 && (active.len() == 0 || active.last().path != parent(
        record.path,
    )) {
        Some(TreeFault::PostChanged(record.path))
    } else if record.identity.kind != NodeKind::Directory {
        None
    } else if depth(record.path) > u32::MAX {
        Some(
            TreeFault::Limit {
                kind: HeldTreeLimit::Depth,
                limit: state.walk.budget.limits.max_depth as u64,
            },
        )
    } else if record.path.len() == 0 && recorded_directory(record, observed_mode)
        != state.walk.root {
        Some(TreeFault::PostChanged(Seq::empty()))
    } else {
        None
    }
}

/// The last look after a record was taken.
pub open spec fn after_record(state: FinalizerView, record: EntryView, observed_mode: Option<u32>)
    -> FinalizerView {
    let active = still_active(state.active, record.path);
    FinalizerView {
        observed_entries: (state.observed_entries + 1) as u64,
        active: if record.identity.kind == NodeKind::Directory {
            active.push(recorded_directory(record, observed_mode))
        } else {
            active
        },
        pending: match recorded_file(record) {
            Some(observation) => Some(LinkView { path: record.path, observation }),
            None => None,
        },
        ..state
    }
}

/// The last look after a record was refused: it was counted, and the directories
/// that it does not lie in were left.
pub open spec fn after_refused_record(state: FinalizerView, record: EntryView) -> FinalizerView {
    if state.observed_entries == u64::MAX {
        state
    } else {
        FinalizerView {
            observed_entries: (state.observed_entries + 1) as u64,
            active: still_active(state.active, record.path),
            ..state
        }
    }
}

impl PendingV3Finalizer {
    /// What the walk was confined to.
    pub fn context(&self) -> (context: TreeContext)
        ensures
            context == self@.walk.context,
    {
        self.walk.context
    }

    /// The evidence on the root.
    pub fn root(&self) -> (root: &DirectoryEvidence)
        ensures
            root@ == self@.walk.root,
    {
        &self.walk.root
    }

    /// Where the regular file lies that has to be looked at before anything else.
    pub fn pending_path(&self) -> (path: Option<&Vec<u8>>)
        ensures
            match path {
                Some(found) => self@.pending is Some && self@.pending->0.path == found@,
                None => self@.pending is None,
            },
    {
        match &self.pending {
            Some(file) => Some(&file.path),
            None => None,
        }
    }

    /// The directories above the record that was observed last.
    pub fn active_directories(&self) -> (directories: &Vec<DirectoryEvidence>)
        ensures
            directory_views(directories@) == self@.active,
    {
        &self.active_directories
    }

    /// Takes the next record with the modes that it records.
    pub fn observe(&mut self, record: &ManifestV3Record<'_>) -> (file: Result<
        Option<RegularFileObservation>,
        HeldTreeError,
    >)
        requires
            is_canonical(record@.path),
            old(self)@.pending is None,
        ensures
            refused_for(file, record_fault(old(self)@, record@, None)),
            file matches Ok(found) ==> found == recorded_file(record@) && final(self)@
                == after_record(old(self)@, record@, None),
            file is Err ==> final(self)@ == after_refused_record(old(self)@, record@),
    {
        self.observe_with_directory_mode(record, None)
    }

    /// Takes the next record. A directory is kept for the records below it, with
    /// the mode that it has now; a regular file has to be looked at, and what
    /// was recorded of it is given back.
    pub fn observe_with_directory_mode(
        &mut self,
        record: &ManifestV3Record<'_>,
        observed_directory_mode: Option<u32>,
    ) -> (file: Result<Option<RegularFileObservation>, HeldTreeError>)
        requires
            is_canonical(record@.path),
            old(self)@.pending is None,
        ensures
            refused_for(file, record_fault(old(self)@, record@, observed_directory_mode)),
            file matches Ok(found) ==> found == recorded_file(record@) && final(self)@
                == after_record(old(self)@, record@, observed_directory_mode),
            file is Err ==> final(self)@ == after_refused_record(old(self)@, record@),
    {
        if self.observed_entries == u64::MAX {
            return Err(
                HeldTreeError::Limit {
                    kind: HeldTreeLimit::Entries,
                    limit: self.walk.budget.limits.max_entries,
                },
            );
        }
        self.observed_entries = self.observed_entries + 1;
        self.leave_directories(record.path);
        let ghost active = directory_views(self.active_directories@);
        let above = path_parent_bytes(record.path);
        if record.path.len() > 0 {
            let count = self.active_directories.len();
            assert(active.len() == count);
            if count == 0 {
                return Err(HeldTreeError::PostChanged(to_vec(record.path)));
            }
            assert(active.last() == self.active_directories@[count - 1]@);
            if !bytes_equal(self.active_directories[count - 1].relative_path.as_slice(), above) {
                return Err(HeldTreeError::PostChanged(to_vec(record.path)));
            }
        }
        match record.kind {
            ManifestV3RecordKind::Directory => {
                let level: usize = if record.path.len() == 0 {
                    0
                } else {
                    split(record.path, SLASH).len()
                };
                assert(level == depth(record.path@));
                if level > u32::MAX as usize {
                    return Err(
                        HeldTreeError::Limit {
                            kind: HeldTreeLimit::Depth,
                            limit: self.walk.budget.limits.max_depth as u64,
                        },
                    );
                }
                let evidence = DirectoryEvidence {
                    relative_path: to_vec(record.path),
                    depth: level as u32,
                    identity: NodeIdentity {
                        kind: NodeKind::Directory,
                        device: record.device,
                        inode: record.inode,
                        incarnation: record.incarnation,
                    },
                    owner_uid: record.uid,
                    group_gid: record.gid,
                    observed_mode: match observed_directory_mode {
                        Some(mode) => mode,
                        None => record.mode,
                    },
                };
                if record.path.len() == 0 && !evidence.same(&self.walk.root) {
                    let path: Vec<u8> = Vec::new();
                    assert(path@ =~= Seq::<u8>::empty());
                    return Err(HeldTreeError::PostChanged(path));
                }
                self.active_directories.push(evidence);
                proof {
                    assert(directory_views(self.active_directories@) =~= active.push(evidence@));
                    assert(evidence@ == recorded_directory(record@, observed_directory_mode));
                }
            },
            _ => {},
        }
        match record.content {
            ManifestV3RecordContent::Regular {
                size,
                nlink,
                mtime_sec,
                mtime_nsec,
                ctime_sec,
                ctime_nsec,
                sha256,
                xattr_count,
                xattr_value_bytes,
                xattr_sha256,
            } => {
                let observation = RegularFileObservation {
                    identity: NodeIdentity {
                        kind: NodeKind::Regular,
                        device: record.device,
                        inode: record.inode,
                        incarnation: record.incarnation,
                    },
                    uid: record.uid,
                    gid: record.gid,
                    mode: record.mode,
                    size,
                    nlink,
                    mtime_sec,
                    mtime_nsec,
                    ctime_sec,
                    ctime_nsec,
                    sha256: Some(sha256),
                    xattrs: RegularXattrProof {
                        attribute_count: xattr_count,
                        value_bytes: xattr_value_bytes,
                        sha256: xattr_sha256,
                    },
                };
                self.pending = Some(PendingFile { path: to_vec(record.path), observation });
                Ok(Some(observation))
            },
            _ => Ok(None),
        }
    }

    /// Leaves the directories that `path` does not lie below.
    fn leave_directories(&mut self, path: &[u8])
        ensures
            final(self)@ == (FinalizerView {
                active: still_active(old(self)@.active, path@),
                ..old(self)@
            }),
    {
        let ghost before = self@;
        while self.active_directories.len() > 0
            invariant_except_break
                still_active(before.active, path@) == still_active(
                    directory_views(self.active_directories@),
                    path@,
                ),
                self@ == (FinalizerView {
                    active: directory_views(self.active_directories@),
                    ..before
                }),
            ensures
                self@ == (FinalizerView { active: still_active(before.active, path@), ..before }),
            decreases self.active_directories@.len(),
        {
            let ghost active = directory_views(self.active_directories@);
            let last = self.active_directories.len() - 1;
            assert(active.last() == self.active_directories@[last as int]@);
            if path_is_beneath(self.active_directories[last].relative_path.as_slice(), path) {
                break ;
            }
            self.active_directories.pop();
            assert(directory_views(self.active_directories@) =~= active.drop_last());
        }
    }

    /// Takes the last look, which is done, at the regular file that was observed
    /// last: counts its attributes and gives the record by which its links are
    /// counted.
    pub fn accept_file(&mut self, look: LastLook) -> (record: Result<
        Vec<u8>,
        HeldTreeV3CollectError,
    >)
        requires
            look.stage() == LookStage::Finished,
            look.context() == old(self)@.walk.context,
            old(self)@.pending == Some(
                LinkView { path: look.path(), observation: look.recorded() },
            ),
        ensures
            ({
                let file = LinkView { path: look.path(), observation: look.recorded() };
                let fault = file_count_fault(
                    old(self)@.xattrs,
                    file.observation.xattrs,
                    file.path,
                );
                &&& collected_unless(record, tree_then_codec(fault, link_record_error(file)))
                &&& record matches Ok(bytes) ==> bytes@ == link_record(file)
                &&& final(self)@ == (FinalizerView {
                    xattrs: if fault is Some {
                        old(self)@.xattrs
                    } else {
                        counted_file(old(self)@.xattrs, file.observation.xattrs)
                    },
                    pending: if record is Ok {
                        None
                    } else {
                        old(self)@.pending
                    },
                    ..old(self)@
                })
            }),
    {
        let path = to_vec(look.path_bytes().as_slice());
        let path = path.as_slice();
        let observation = look.finish();
        match count_regular_xattrs(self.regular_xattrs, observation.xattrs, path) {
            Ok(topology) => {
                self.regular_xattrs = topology;
            },
            Err(error) => {
                return Err(HeldTreeV3CollectError::Tree(error));
            },
        }
        let mut record: Vec<u8> = Vec::new();
        match encode_hardlink_scratch_record(path, observation, &mut record) {
            Ok(_) => {
                self.pending = None;
                Ok(record)
            },
            Err(error) => Err(HeldTreeV3CollectError::Codec(error)),
        }
    }

    /// The inventory, if the manifest that was authenticated is the expected one
    /// and every one of its records was observed.
    pub fn finish(
        self,
        authenticated: DurableTreeManifest,
        regular_hard_links: RegularHardLinkTopology,
    ) -> (inventory: Result<StreamedV3Inventory, HeldTreeError>)
        requires
            self@.pending is None,
        ensures
            refused_for(
                inventory,
                if authenticated.schema_version != self@.expected.schema_version
                    || authenticated.entry_count != self@.expected.entry_count
                    || authenticated.sha256 != self@.expected.sha256 || self@.observed_entries
                    != self@.expected.entry_count {
                    Some(TreeFault::PostChanged(Seq::empty()))
                } else {
                    None
                },
            ),
            inventory matches Ok(done) ==> done@ == (StreamedView {
                walk: self@.walk,
                links: regular_hard_links,
                xattrs: self@.xattrs,
                manifest: self@.expected,
            }),
    {
        if authenticated.schema_version != self.expected_manifest.schema_version
            || authenticated.entry_count != self.expected_manifest.entry_count || !arrays_equal(
            &authenticated.sha256,
            &self.expected_manifest.sha256,
        ) || self.observed_entries != self.expected_manifest.entry_count {
            let path: Vec<u8> = Vec::new();
            assert(path@ =~= Seq::<u8>::empty());
            return Err(HeldTreeError::PostChanged(path));
        }
        Ok(
            StreamedV3Inventory {
                walk: self.walk,
                regular_hard_links,
                regular_xattrs: self.regular_xattrs,
                manifest: self.expected_manifest,
            },
        )
    }
}

/// Why the attributes of one more file cannot be counted.
pub open spec fn file_count_fault(
    topology: RegularXattrTopology,
    proof: RegularXattrProof,
    path: Seq<u8>,
) -> Option<TreeFault> {
    if proof.attribute_count != 0 && (topology.entries == u64::MAX || topology.attributes
        + proof.attribute_count > u64::MAX || topology.value_bytes + proof.value_bytes
        > u64::MAX) {
        Some(TreeFault::XattrsChangedDuringProof(path))
    } else {
        None
    }
}

/// The attributes counted, with those of one more file.
pub open spec fn counted_file(topology: RegularXattrTopology, proof: RegularXattrProof)
    -> RegularXattrTopology {
    if proof.attribute_count == 0 {
        topology
    } else {
        RegularXattrTopology {
            entries: (topology.entries + 1) as u64,
            attributes: (topology.attributes + proof.attribute_count) as u64,
            value_bytes: (topology.value_bytes + proof.value_bytes) as u64,
        }
    }
}

/// A proved tree whose manifest is kept outside.
#[derive(Debug)]
pub struct StreamedV3Inventory {
    walk: ForwardWalk,
    regular_hard_links: RegularHardLinkTopology,
    regular_xattrs: RegularXattrTopology,
    manifest: HeldTreeFingerprint,
}

/// The content of a [`StreamedV3Inventory`].
#[verifier::ext_equal]
pub struct StreamedView {
    pub walk: ForwardView,
    pub links: RegularHardLinkTopology,
    pub xattrs: RegularXattrTopology,
    pub manifest: HeldTreeFingerprint,
}

impl View for StreamedV3Inventory {
    type V = StreamedView;

    closed spec fn view(&self) -> StreamedView {
        StreamedView {
            walk: self.walk@,
            links: self.regular_hard_links,
            xattrs: self.regular_xattrs,
            manifest: self.manifest,
        }
    }
}

impl StreamedV3Inventory {
    /// The fingerprint of the manifest.
    pub fn fingerprint(&self) -> (fingerprint: HeldTreeFingerprint)
        ensures
            fingerprint == self@.manifest,
    {
        self.manifest
    }

    /// How its files are linked.
    pub fn regular_hard_link_topology(&self) -> (topology: RegularHardLinkTopology)
        ensures
            topology == self@.links,
    {
        self.regular_hard_links
    }

    /// What attributes its files have.
    pub fn regular_xattr_topology(&self) -> (topology: RegularXattrTopology)
        ensures
            topology == self@.xattrs,
    {
        self.regular_xattrs
    }

    /// What the tree is confined to.
    pub fn context(&self) -> (context: TreeContext)
        ensures
            context == self@.walk.context,
    {
        self.walk.context
    }

    /// Starts to look at the structure of the tree again and gives the root's
    /// structure record.
    pub fn begin_structure(
        &self,
        bound: Result<(), HeldTreeError>,
        root: Result<Inspection, HeldTreeError>,
    ) -> (started: Result<(StructureWalk, Vec<u8>), HeldTreeV3CollectError>)
        ensures
            collected_unless(
                started,
                tree_then_codec(
                    structure_root_fault(bound, root, self@.walk.budget.limits),
                    match root {
                        Ok(seen) => structure_record_error(
                            seen_structure(seen, Seq::empty(), CONTENT_PROOF_VERSION),
                        ),
                        Err(_) => None,
                    },
                ),
            ),
            started matches Ok((walk, record)) ==> {
                &&& walk.context() == self@.walk.context
                &&& walk.reading() == seq![self@.walk.root]
                &&& walk.budget() == with_directory(
                    with_path(fresh_budget(self@.walk.budget.limits, CONTENT_PROOF_VERSION), 0),
                )
                &&& root matches Ok(seen) && record@ == structure_record(
                    seen_structure(seen, Seq::empty(), CONTENT_PROOF_VERSION),
                )
            },
    {
        match bound {
            Ok(_) => {},
            Err(error) => {
                return Err(HeldTreeV3CollectError::Tree(error));
            },
        }
        let seen = match root {
            Ok(seen) => seen,
            Err(error) => {
                return Err(HeldTreeV3CollectError::Tree(error));
            },
        };
        let path: Vec<u8> = Vec::new();
        assert(path@ =~= Seq::<u8>::empty());
        let evidence = match seen.structure_evidence(path, CONTENT_PROOF_VERSION) {
            Ok(evidence) => evidence,
            Err(error) => {
                return Err(HeldTreeV3CollectError::Tree(error));
            },
        };
        let mut budget = Budget::new(self.walk.budget.limits, CONTENT_PROOF_VERSION);
        match budget.add_path(evidence.path.as_slice(), 0) {
            Ok(_) => {},
            Err(error) => {
                return Err(HeldTreeV3CollectError::Tree(error));
            },
        }
        match budget.add_directory() {
            Ok(_) => {},
            Err(error) => {
                return Err(HeldTreeV3CollectError::Tree(error));
            },
        }
        let record = encode_structure(&evidence)?;
        let walk = StructureWalk {
            context: self.walk.context,
            reading: vec![self.walk.root.clone()],
            budget,
        };
        assert(walk.reading() =~= seq![self@.walk.root]);
        Ok((walk, record))
    }

    /// Requires, after the structure was looked at again, that the root is still
    /// bound where it was.
    pub fn finish_streamed_structure_rewalk(
        &self,
        parent: &HeldLocalBackendEvidence,
        probe: ParentProbe,
        rebound: Result<Inspection, HeldTreeError>,
    ) -> (outcome: Result<(), HeldTreeError>)
        ensures
            refused_for(outcome, binding_fault(parent@, self@.walk.context, probe, rebound)),
    {
        verify_root_binding(parent, &self.walk.context, probe, rebound)
    }
}

/// Why the structure of a tree cannot be looked at again from its root.
pub open spec fn structure_root_fault(
    bound: Result<(), HeldTreeError>,
    root: Result<Inspection, HeldTreeError>,
    limits: HeldTreeLimits,
) -> Option<TreeFault> {
    match (bound, root) {
        (Err(error), _) => Some(error@),
        (Ok(_), Err(error)) => Some(error@),
        (Ok(_), Ok(seen)) => first_fault(
            structure_fault(seen, Seq::empty(), CONTENT_PROOF_VERSION),
            root_budget_fault(limits, CONTENT_PROOF_VERSION),
        ),
    }
}

/// A structure record, with the room that it needs.
fn encode_structure(evidence: &StructureEvidence) -> (record: Result<
    Vec<u8>,
    HeldTreeV3CollectError,
>)
    ensures
        collected_unless(record, tree_then_codec(None, structure_record_error(evidence@))),
        record matches Ok(bytes) ==> bytes@ == structure_record(evidence@),
{
    let mut record: Vec<u8> = Vec::new();
    match emit_structure_record(evidence, &mut record) {
        Ok(_) => Ok(record),
        Err(error) => Err(HeldTreeV3CollectError::Codec(error)),
    }
}

/// A second look at the structure of a tree.
#[derive(Debug)]
pub struct StructureWalk {
    context: TreeContext,
    reading: Vec<DirectoryEvidence>,
    budget: Budget,
}

/// What is seen of how an entry sits in the tree. Of a link, the target has to
/// be read again.
pub open spec fn child_structure(
    path: Seq<u8>,
    seen: Inspection,
    link: Option<ContentView>,
) -> StructureView {
    match link {
        Some(content) => structure_of(proved_entry(path, seen, content)),
        None => seen_structure(seen, path, CONTENT_PROOF_VERSION),
    }
}

impl StructureWalk {
    /// What the look is confined to.
    pub closed spec fn context(&self) -> TreeContext {
        self.context
    }

    /// The directories that are being read, from the root down.
    pub closed spec fn reading(&self) -> Seq<DirectoryView> {
        directory_views(self.reading@)
    }

    /// What has been spent.
    pub closed spec fn budget(&self) -> Budget {
        self.budget
    }

    /// The directory whose entries come next, until every directory was read.
    pub fn current_directory(&self) -> (current: Option<&DirectoryEvidence>)
        ensures
            match current {
                Some(directory) => self.reading().len() > 0 && directory@
                    == self.reading().last(),
                None => self.reading().len() == 0,
            },
    {
        last_directory(&self.reading)
    }

    /// Ends the directory that is being read; that which it lies in is gone on
    /// with.
    pub fn end_directory(&mut self)
        requires
            old(self).reading().len() > 0,
        ensures
            final(self).context() == old(self).context(),
            final(self).reading() == old(self).reading().drop_last(),
            final(self).budget() == old(self).budget(),
    {
        leave_last(&mut self.reading);
    }

    /// Ends the look, once every directory was read: the root has to be bound
    /// where it was.
    pub fn finish(
        self,
        parent: &HeldLocalBackendEvidence,
        probe: ParentProbe,
        rebound: Result<Inspection, HeldTreeError>,
    ) -> (outcome: Result<(), HeldTreeError>)
        requires
            self.reading().len() == 0,
        ensures
            refused_for(outcome, binding_fault(parent@, self.context(), probe, rebound)),
    {
        verify_root_binding(parent, &self.context, probe, rebound)
    }

    /// What the look is confined to.
    pub fn tree(&self) -> (context: TreeContext)
        ensures
            context == self.context(),
    {
        self.context
    }

    /// What has been spent.
    pub fn spent(&self) -> (budget: Budget)
        ensures
            budget == self.budget(),
    {
        self.budget
    }

    /// Counts an entry of the directory that is being read and gives its
    /// structure record. The content of a link has to come with it. A directory
    /// is read next.
    pub fn add_child(&mut self, child: AdmittedChild, link: Option<ContentFinding>) -> (added: Result<
        Vec<u8>,
        HeldTreeV3CollectError,
    >)
        requires
            old(self).reading().len() > 0,
            lies_in(child@.path, child@.depth, old(self).reading().last()),
            is_admitted(child@, old(self).context()),
            link is Some <==> child@.seen.identity.kind == NodeKind::Symlink,
            link matches Some(finding) ==> finding.is_on(
                child@.path,
                child@.seen,
                old(self).budget(),
            ) && finding.found() is Proved,
        ensures
            final(self).context() == old(self).context(),
            final(self).reading() == if added is Ok {
                after_entry(old(self).reading(), child@.directory)
            } else {
                old(self).reading()
            },
            ({
                let content = link_content(link);
                let before = spent_on_link(old(self).budget(), link);
                let structure = child_structure(child@.path, child@.seen, content);
                &&& collected_unless(
                    added,
                    tree_then_codec(
                        first_fault(
                            if link is Some {
                                None
                            } else {
                                structure_fault(
                                    child@.seen,
                                    child@.path,
                                    CONTENT_PROOF_VERSION,
                                )
                            },
                            child_budget_fault(before, child@),
                        ),
                        structure_record_error(structure),
                    ),
                )
                &&& final(self).budget() == if link is None && structure_fault(
                    child@.seen,
                    child@.path,
                    CONTENT_PROOF_VERSION,
                ) is Some {
                    before
                } else {
                    spent_on_child(before, child@)
                }
                &&& added matches Ok(record) ==> record@ == structure_record(structure)
                    && final(self).budget() == child_budget(before, child@)
            }),
    {
        let seen = child.inspection();
        let path = to_vec(child.path_bytes().as_slice());
        let evidence = match link {
            Some(finding) => {
                let (content, budget) = finding.into_proof();
                self.budget = budget;
                seen.into_manifest(path, content).structure_evidence()
            },
            None => match seen.structure_evidence(path, CONTENT_PROOF_VERSION) {
                Ok(evidence) => evidence,
                Err(error) => {
                    return Err(HeldTreeV3CollectError::Tree(error));
                },
            },
        };
        match charge_child(&mut self.budget, &child) {
            Ok(_) => {},
            Err(error) => {
                return Err(HeldTreeV3CollectError::Tree(error));
            },
        }
        let record = encode_structure(&evidence)?;
        let (_, directory) = child.into_parts();
        go_down(&mut self.reading, directory);
        Ok(record)
    }
}

/// What a tree has to be after its directories were sealed: the root it was, and
/// the manifest it had, with the modes of the seals.
#[derive(Clone, Copy, Debug)]
pub struct PostSealManifestExpectation {
    pub root_identity: NodeIdentity,
    pub backend: CertifiedLocalBackend,
    pub mount_id: u64,
    pub fingerprint: HeldTreeFingerprint,
}

/// Why a tree is not what it has to be.
pub open spec fn expectation_fault(
    expectation: PostSealManifestExpectation,
    post: StreamedView,
) -> Option<TreeFault> {
    if expectation.backend != post.walk.context.backend || expectation.mount_id
        != post.walk.context.mount_id || expectation.root_identity
        != post.walk.context.root_identity {
        Some(TreeFault::RootBindingChanged)
    } else if expectation.fingerprint != post.manifest {
        Some(TreeFault::PostChanged(Seq::empty()))
    } else {
        None
    }
}

impl PostSealManifestExpectation {
    /// Requires that the tree is what it has to be.
    pub fn verify(self, post: &StreamedV3Inventory) -> (fingerprint: Result<
        HeldTreeFingerprint,
        HeldTreeError,
    >)
        ensures
            refused_for(fingerprint, expectation_fault(self, post@)),
            fingerprint matches Ok(actual) ==> actual == post@.manifest,
    {
        let context = post.context();
        if self.backend != context.backend || self.mount_id != context.mount_id
            || self.root_identity != context.root_identity {
            return Err(HeldTreeError::RootBindingChanged);
        }
        let actual = post.fingerprint();
        if !self.fingerprint.same(&actual) {
            let path: Vec<u8> = Vec::new();
            assert(path@ =~= Seq::<u8>::empty());
            return Err(HeldTreeError::PostChanged(path));
        }
        Ok(actual)
    }
}

/// A tree is what it has to be after its directories were sealed exactly where its
/// root is the same object on the same mount of the same file system and its
/// manifest has the fingerprint that was expected.
pub proof fn law_sealed_trees_are_the_expected_ones(
    expectation: PostSealManifestExpectation,
    post: StreamedView,
)
    ensures
        expectation_fault(expectation, post) is None <==> {
            &&& expectation.backend == post.walk.context.backend
            &&& expectation.mount_id == post.walk.context.mount_id
            &&& expectation.root_identity == post.walk.context.root_identity
            &&& expectation.fingerprint == post.manifest
        },
{
}

/// What a manifest says of an entry is what was seen of it, with its content.
pub proof fn law_records_say_what_was_seen(path: Seq<u8>, seen: Inspection, content: ContentView)
    ensures
        ({
            let entry = proved_entry(path, seen, content);
            &&& entry.path == path
            &&& entry.identity == seen.identity
            &&& entry.uid == seen.uid
            &&& entry.gid == seen.gid
            &&& entry.mode == seen.mode
            &&& entry.content == content
        }),
        directory_entry(path, seen) == proved_entry(path, seen, ContentView::Directory),
{
}

/// What a record says of a file is all that was recorded of it.
pub proof fn law_recorded_files_are_complete(record: EntryView)
    ensures
        recorded_file(record) is Some <==> record.content is Regular,
        record.content matches ContentView::Regular {
            size,
            nlink,
            mtime_sec,
            mtime_nsec,
            ctime_sec,
            ctime_nsec,
            sha256,
            xattrs,
        } ==> (recorded_file(record) matches Some(file) && {
            &&& file.identity.kind == NodeKind::Regular
            &&& file.identity.device == record.identity.device
            &&& file.identity.inode == record.identity.inode
            &&& file.identity.incarnation == record.identity.incarnation
            &&& file.uid == record.uid
            &&& file.gid == record.gid
            &&& file.mode == record.mode
            &&& file.size == size
            &&& file.nlink == nlink
            &&& file.mtime_sec == mtime_sec
            &&& file.mtime_nsec == mtime_nsec
            &&& file.ctime_sec == ctime_sec
            &&& file.ctime_nsec == ctime_nsec
            &&& file.sha256 == Some(sha256)
            &&& file.xattrs == xattrs
        }),
{
}

/// A record follows those before it only where its own directory is among the
/// directories that are still being read, as the last of them, or where it is the
/// root; and the root is the one that was walked.
pub proof fn law_records_follow_their_directories(
    state: FinalizerView,
    record: EntryView,
    observed_mode: Option<u32>,
)
    requires
        record_fault(state, record, observed_mode) is None,
    ensures
        record.path.len() > 0 ==> still_active(state.active, record.path).len() > 0
            && still_active(state.active, record.path).last().path == parent(record.path),
        record.path.len() == 0 && record.identity.kind == NodeKind::Directory ==> record.identity
            == state.walk.root.identity && record.uid == state.walk.root.owner_uid && record.gid
            == state.walk.root.group_gid,
        after_record(state, record, observed_mode).observed_entries == state.observed_entries + 1,
        record.identity.kind == NodeKind::Directory ==> after_record(
            state,
            record,
            observed_mode,
        ).active.last().path == record.path,
{
}

/// The root is still bound exactly where its name leads to the same object on the
/// same mount of the same file system, in a parent that passes as its owner's
/// alone.
pub proof fn law_bound_roots_are_still_there(
    parent: crate::backend::evidence::EvidenceView,
    context: TreeContext,
    probe: ParentProbe,
    rebound: Result<Inspection, HeldTreeError>,
)
    ensures
        binding_fault(parent, context, probe, rebound) is None <==> parent_fault(
            parent,
            context.backend,
            ParentAdmission::CurrentExclusive,
            probe,
        ) is None && (rebound matches Ok(seen) && seen.identity == context.root_identity
            && seen.mount_id == context.mount_id && seen.backend == context.backend),
{
}

/// The attributes of a file that has any are added to those counted, and nothing
/// is lost on the way.
pub proof fn law_attributes_add_up(
    topology: RegularXattrTopology,
    proof: RegularXattrProof,
    path: Seq<u8>,
)
    requires
        file_count_fault(topology, proof, path) is None,
    ensures
        proof.attribute_count > 0 ==> {
            let after = counted_file(topology, proof);
            &&& after.entries == topology.entries + 1
            &&& after.attributes == topology.attributes + proof.attribute_count
            &&& after.value_bytes == topology.value_bytes + proof.value_bytes
        },
        proof.attribute_count == 0 ==> counted_file(topology, proof) == topology,
{
}

/// The directories that are still being read are the first of those before, and the
/// record lies below the last of them; only what it does not lie in was left.
pub proof fn law_only_left_directories_are_dropped(active: Seq<DirectoryView>, path: Seq<u8>)
    ensures
        ({
            let rest = still_active(active, path);
            &&& rest.len() <= active.len()
            &&& rest == active.take(rest.len() as int)
            &&& rest.len() > 0 ==> is_beneath(rest.last().path, path)
            &&& forall|i: int|
                rest.len() <= i < active.len() ==> !is_beneath((#[trigger] active[i]).path, path)
        }),
    decreases active.len(),
{
    let rest = still_active(active, path);
    if active.len() == 0 || is_beneath(active.last().path, path) {
        assert(active =~= active.take(active.len() as int));
    } else {
        let less = active.drop_last();
        law_only_left_directories_are_dropped(less, path);
        assert(less.take(rest.len() as int) =~= active.take(rest.len() as int));
        assert forall|i: int| rest.len() <= i < active.len() implies !is_beneath(
            (#[trigger] active[i]).path,
            path,
        ) by {
            if i < less.len() {
                assert(less[i] == active[i]);
            }
        }
    }
}

} // verus!
