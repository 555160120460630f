//! The inventory of a tree: its directories and its manifest.
//!
//! An inventory comes out of a walk once every regular file has been looked at a
//! last time. It can be fingerprinted, also with other directory modes, and its
//! directories can be sealed one by one.

use crate::backend::evidence::HeldLocalBackendEvidence;
use crate::backend::held::child::is_admitted_root;
use crate::backend::held::child::root_fault;
use crate::backend::held::child::AdmittedRoot;
use crate::backend::held::child::RootProbe;
use crate::backend::held::child::TreeContext;
use crate::backend::held::child::WalkRequest;
use crate::backend::held::decoder::MANIFEST_V3_MAX_SEGMENT_PAYLOAD;
use crate::backend::held::directories::build_directory_index;
use crate::backend::held::directories::directories_deepest_first;
use crate::backend::held::directories::directory_views;
use crate::backend::held::directories::find_directory;
use crate::backend::held::directories::index_fault;
use crate::backend::held::directories::is_directory_tree;
use crate::backend::held::directories::is_order_of;
use crate::backend::held::directories::position_of;
use crate::backend::held::directories::DirectoryEvidence;
use crate::backend::held::directories::DirectoryView;
use crate::backend::held::directories::HeldDirectoryOrder;
use crate::backend::held::error::refused_for;
use crate::backend::held::error::HeldTreeError;
use crate::backend::held::error::ManifestV3CodecError;
use crate::backend::held::error::TreeFault;
use crate::backend::held::forward::binding_fault;
use crate::backend::held::forward::verify_root_binding;
use crate::backend::held::forward::PostSealManifestExpectation;
use crate::backend::held::inspect::input_fault;
use crate::backend::held::inspect::projected_parent_seal;
use crate::backend::held::inspect::projection;
use crate::backend::held::inspect::projection_fault;
use crate::backend::held::inspect::validate_v2_inputs;
use crate::backend::held::inspect::Inspection;
use crate::backend::held::inspect::ParentAdmission;
use crate::backend::held::inspect::ParentProbe;
use crate::backend::held::limits::first_fault;
use crate::backend::held::limits::HeldTreeLimits;
use crate::backend::held::limits::CONTENT_PROOF_VERSION;
use crate::backend::held::limits::LEGACY_CONTENT_PROOF_VERSION;
use crate::backend::held::limits::NAMES_ONLY_VERSION;
use crate::backend::held::manifest::fingerprint_manifest;
use crate::backend::held::manifest::fingerprint_manifest_v3;
use crate::backend::held::manifest::is_fingerprint;
use crate::backend::held::manifest::record_v3;
use crate::backend::held::model::entries;
use crate::backend::held::model::ContentProof;
use crate::backend::held::model::ContentView;
use crate::backend::held::model::EntryView;
use crate::backend::held::model::HeldTreeFingerprint;
use crate::backend::held::model::ManifestEntry;
use crate::backend::held::model::NodeKind;
use crate::backend::held::model::RegularHardLinkTopology;
use crate::backend::held::model::RegularXattrTopology;
use crate::backend::held::modes::directory_count;
use crate::backend::held::modes::fingerprint_v3_with_modes;
use crate::backend::held::modes::first_without_mode;
use crate::backend::held::modes::has_unused_mode;
use crate::backend::held::modes::manifest_with_mode_list;
use crate::backend::held::modes::manifest_with_modes;
use crate::backend::held::modes::mode_is_unused;
use crate::backend::held::modes::substituted_modes;
use crate::backend::held::modes::DirectoryModes;
use crate::backend::held::policy::HeldTreeAdmissionAssessment;
use crate::backend::held::policy::HeldTreePolicyAssessment;
use crate::backend::held::policy::SourceParentSealProjection;
use crate::backend::held::policy::SourceParentSealValidation;
use crate::backend::held::policy::TreePolicyDeferralReason;
use crate::backend::held::policy::UnixTime;
use crate::backend::held::reobserve::LastLook;
use crate::backend::held::reobserve::LookStage;
use crate::backend::held::sealing::with_sealed_directory;
use crate::backend::held::stream::first_size_error;
use crate::backend::held::stream::is_segmentation;
use crate::backend::held::stream::stream_manifest_v3_records;
use crate::backend::held::stream::stream_manifest_v3_segments;
use crate::backend::held::stream::ManifestSegment;
use crate::backend::held::topology::classify_regular_file_topology;
use crate::backend::held::topology::is_topology;
use crate::backend::held::topology::links;
use crate::backend::held::topology::topology_fault;
use crate::backend::held::topology::LinkView;
use crate::backend::held::topology::RegularFileReobservation;
use crate::backend::held::walk::is_finished_walk;
use crate::backend::held::walk::is_read_through;
use crate::backend::held::walk::is_started;
use crate::backend::held::walk::root_budget_fault;
use crate::backend::held::walk::started_walk;
use crate::backend::held::walk::summarize_regular_xattrs;
use crate::backend::held::walk::walk_views;
use crate::backend::held::walk::xattr_overflow;
use crate::backend::held::walk::xattr_sum;
use crate::backend::held::content::FoundContent;
use crate::backend::held::walk::TreeWalk;
use crate::backend::held::walk::WalkEntry;
use crate::backend::held::walk::WalkEntryView;
use crate::backend::held::walk::WalkView;
use crate::bytes::to_vec;
use crate::paths::views;
use crate::paths::Component;
use vstd::prelude::*;

verus! {

/// A schema that no inventory can be collected for.
pub open spec fn schema_fault(manifest_schema: u16) -> Option<TreeFault> {
    if manifest_schema == NAMES_ONLY_VERSION || manifest_schema == LEGACY_CONTENT_PROOF_VERSION
        || manifest_schema == CONTENT_PROOF_VERSION {
        None
    } else {
        Some(TreeFault::UnsupportedContentProof(Seq::empty()))
    }
}

/// The place of the first regular file from `from` on.
pub open spec fn next_file(list: Seq<WalkEntryView>, from: int) -> int
    decreases list.len() - from,
{
    if from >= list.len() || list[from].regular is Some {
        from
    } else {
        next_file(list, from + 1)
    }
}

/// The regular files among the first `count` entries.
pub open spec fn file_links(list: Seq<WalkEntryView>, count: int) -> Seq<LinkView>
    decreases count,
{
    if count <= 0 {
        Seq::empty()
    } else {
        match list[count - 1].regular {
            Some(observation) => file_links(list, count - 1).push(
                LinkView { path: list[count - 1].path, observation },
            ),
            None => file_links(list, count - 1),
        }
    }
}

/// The last looks at the regular files of a finished walk, one after the other.
#[derive(Debug)]
pub struct LastLooks {
    walk: TreeWalk,
    at: usize,
}

/// Why a looked-over walk is refused.
pub open spec fn looked_over_fault(list: Seq<WalkEntryView>) -> Option<TreeFault> {
    first_fault(
        topology_fault(file_links(list, list.len() as int)),
        match xattr_overflow(list, 0) {
            Some(path) => Some(TreeFault::XattrsChangedDuringProof(path)),
            None => None,
        },
    )
}

impl LastLooks {
    /// The walk.
    pub closed spec fn walk(&self) -> WalkView {
        self.walk@
    }

    /// How many entries need not be looked at any more.
    pub closed spec fn passed(&self) -> int {
        self.at as int
    }

    /// Starts with the first entry.
    pub fn begin(walk: TreeWalk) -> (looks: Self)
        requires
            walk@.finished,
        ensures
            looks.walk() == walk@,
            looks.passed() == 0,
    {
        LastLooks { walk, at: 0 }
    }

    /// The walk that is looked over.
    pub fn finished_walk(&self) -> (walk: &TreeWalk)
        ensures
            walk@ == self.walk(),
    {
        &self.walk
    }

    /// Goes on to the next regular file and starts the look at it.
    pub fn next_look(&mut self) -> (look: Option<Result<LastLook, HeldTreeError>>)
        requires
            old(self).passed() <= old(self).walk().entries.len(),
        ensures
            final(self).walk() == old(self).walk(),
            final(self).passed() == next_file(old(self).walk().entries, old(self).passed()),
            final(self).passed() <= final(self).walk().entries.len(),
            ({
                let at = final(self).passed();
                let list = old(self).walk().entries;
                match look {
                    None => at == list.len(),
                    Some(started) => at < list.len() && list[at].regular is Some && refused_for(
                        started,
                        if list[at].path.len() == 0 {
                            Some(TreeFault::ContentChangedDuringHash(list[at].path))
                        } else {
                            None
                        },
                    ) && (started matches Ok(begun) ==> begun.path() == list[at].path
                        && begun.recorded() == list[at].regular->0 && begun.context()
                        == old(self).walk().context && begun.stage() == LookStage::Start),
                }
            }),
    {
        let ghost list = self.walk@.entries;
        let ghost before = self.at;
        let ghost walk = self.walk@;
        let entries_len = self.walk.entries().len();
        while self.at < entries_len
            invariant
                self.walk@ == walk,
                walk == old(self).walk(),
                before == old(self).passed(),
                list == walk.entries,
                entries_len == list.len(),
                self.at <= entries_len,
                next_file(list, before as int) == next_file(list, self.at as int),
            decreases entries_len - self.at,
        {
            let entry = &self.walk.entries()[self.at];
            assert(list[self.at as int] == entry@);
            match entry.regular {
                Some(recorded) => {
                    return Some(
                        LastLook::begin(entry.path.as_slice(), recorded, self.walk.context()),
                    );
                },
                None => {},
            }
            self.at = self.at + 1;
        }
        None
    }

    /// Takes a look that is done.
    pub fn accept(&mut self, look: LastLook)
        requires
            old(self).passed() < old(self).walk().entries.len(),
            look.stage() == LookStage::Finished,
            look.path() == old(self).walk().entries[old(self).passed()].path,
            Some(look.recorded()) == old(self).walk().entries[old(self).passed()].regular,
        ensures
            final(self).walk() == old(self).walk(),
            final(self).passed() == old(self).passed() + 1,
    {
        let entries_len = self.walk.entries().len();
        assert(self.walk@.entries.len() == entries_len);
        self.at = self.at + 1;
    }

    /// Counts the links and the attributes of the regular files, once each of
    /// them has been looked at.
    pub fn finish(self) -> (walk: Result<LookedOverWalk, HeldTreeError>)
        requires
            self.walk().finished,
            next_file(self.walk().entries, self.passed()) == self.walk().entries.len(),
        ensures
            refused_for(walk, looked_over_fault(self.walk().entries)),
            walk matches Ok(done) ==> done.walk@ == self.walk() && is_looked_over(done),
    {
        let regular_hard_links = classify_walk(&self.walk)?;
        let regular_xattrs = summarize_regular_xattrs(self.walk.entries())?;
        Ok(LookedOverWalk { walk: self.walk, regular_hard_links, regular_xattrs })
    }
}

/// The attributes of all regular files added up.
pub open spec fn is_xattr_sum(sum: RegularXattrTopology, list: Seq<WalkEntryView>) -> bool {
    (sum.entries as int, sum.attributes as int, sum.value_bytes as int) == xattr_sum(
        list,
        list.len() as int,
    )
}

/// Counts the links of the regular files of a walk.
fn classify_walk(walk: &TreeWalk) -> (topology: Result<RegularHardLinkTopology, HeldTreeError>)
    ensures
        ({
            let files = file_links(walk@.entries, walk@.entries.len() as int);
            &&& refused_for(topology, topology_fault(files))
            &&& topology matches Ok(counted) ==> is_topology(counted, files)
        }),
{
    let list = walk.entries();
    let ghost all = walk@.entries;
    let mut files: Vec<RegularFileReobservation> = Vec::new();
    let mut i: usize = 0;
    proof {
        assert(links(files@) =~= file_links(all, 0));
    }
    while i < list.len()
        invariant
            i <= list@.len(),
            all == walk_views(list@),
            links(files@) == file_links(all, i as int),
        decreases list@.len() - i,
    {
        assert(all[i as int] == list@[i as int]@);
        let ghost before = links(files@);
        match list[i].regular {
            Some(observation) => {
                files.push(
                    RegularFileReobservation { path: list[i].path.as_slice(), observation },
                );
                assert(links(files@) =~= before.push(
                    LinkView { path: all[i as int].path, observation },
                ));
            },
            None => {},
        }
        i += 1;
    }
    classify_regular_file_topology(files.as_slice())
}

/// A walk whose regular files have been looked at a last time.
#[derive(Debug)]
pub struct LookedOverWalk {
    pub walk: TreeWalk,
    pub regular_hard_links: RegularHardLinkTopology,
    pub regular_xattrs: RegularXattrTopology,
}

/// The walk was ended, and the links and the attributes are those of its files.
pub open spec fn is_looked_over(looked_over: LookedOverWalk) -> bool {
    let list = looked_over.walk@.entries;
    &&& looked_over.walk@.finished
    &&& is_topology(looked_over.regular_hard_links, file_links(list, list.len() as int))
    &&& is_xattr_sum(looked_over.regular_xattrs, list)
}

/// What an object is, on which mount.
#[derive(Clone, Copy, Debug, PartialEq, Eq, Structural)]
pub struct StrongObjectIdentity {
    pub device: u64,
    pub inode: u64,
    pub incarnation: u64,
    pub mount_id: u64,
}

/// The inventory of a tree.
#[derive(Debug)]
pub struct HeldTreeInventory {
    context: TreeContext,
    root_name: Vec<u8>,
    protected_names: Vec<Vec<u8>>,
    limits: HeldTreeLimits,
    manifest_schema: u16,
    regular_hard_links: RegularHardLinkTopology,
    regular_xattrs: RegularXattrTopology,
    directories: Vec<DirectoryEvidence>,
    manifest: Vec<ManifestEntry>,
}

/// The content of a [`HeldTreeInventory`].
#[verifier::ext_equal]
pub struct InventoryView {
    pub context: TreeContext,
    pub root_name: Seq<u8>,
    pub protected_names: Seq<Seq<u8>>,
    pub limits: HeldTreeLimits,
    pub manifest_schema: u16,
    pub links: RegularHardLinkTopology,
    pub xattrs: RegularXattrTopology,
    /// In the order in which they were found.
    pub directories: Seq<DirectoryView>,
    /// In path order.
    pub manifest: Seq<EntryView>,
}

impl View for HeldTreeInventory {
    type V = InventoryView;

    closed spec fn view(&self) -> InventoryView {
        InventoryView {
            context: self.context,
            root_name: self.root_name@,
            protected_names: views(self.protected_names@),
            limits: self.limits,
            manifest_schema: self.manifest_schema,
            links: self.regular_hard_links,
            xattrs: self.regular_xattrs,
            directories: directory_views(self.directories@),
            manifest: entries(self.manifest@),
        }
    }
}

/// Each entry of the walk is committed to.
pub open spec fn is_proven(list: Seq<WalkEntryView>) -> bool {
    forall|i: int| 0 <= i < list.len() ==> (#[trigger] list[i]).manifest is Some
}

/// What the entries of a walk commit to.
pub open spec fn proven_manifest(list: Seq<WalkEntryView>) -> Seq<EntryView> {
    Seq::new(list.len(), |i: int| list[i].manifest->0)
}

/// The inventory that comes out of a walk.
pub open spec fn inventory_of(
    walk: WalkView,
    links: RegularHardLinkTopology,
    xattrs: RegularXattrTopology,
) -> InventoryView {
    InventoryView {
        context: walk.context,
        root_name: walk.root_name,
        protected_names: walk.protected_names,
        limits: walk.budget.limits,
        manifest_schema: walk.manifest_schema,
        links,
        xattrs,
        directories: walk.directories,
        manifest: proven_manifest(walk.entries),
    }
}

/// Takes what the entries of a walk commit to.
fn take_manifest(list: Vec<WalkEntry>) -> (manifest: Vec<ManifestEntry>)
    requires
        is_proven(walk_views(list@)),
    ensures
        entries(manifest@) == proven_manifest(walk_views(list@)),
{
    let ghost all = list@;
    let ghost views = walk_views(all);
    let mut list = list;
    let mut turned: Vec<ManifestEntry> = Vec::new();
    let count: usize = list.len();
    while list.len() > 0
        invariant
            list@ == all.take(list@.len() as int),
            list@.len() + turned@.len() == count == all.len(),
            views == walk_views(all),
            is_proven(views),
            forall|i: int|
                0 <= i < turned@.len() ==> (#[trigger] turned@[i])@ == views[count - 1
                    - i].manifest->0,
        decreases list@.len(),
    {
        let ghost last = list@.len() - 1;
        if let Some(entry) = list.pop() {
            proof {
                assert(entry == all[last]);
                assert(views[last] == entry@);
                assert(list@ =~= all.take(last));
            }
            match entry.manifest {
                Some(manifest) => turned.push(manifest),
                None => {},
            }
        }
    }
    let mut manifest: Vec<ManifestEntry> = Vec::new();
    let ghost reversed = turned@;
    while turned.len() > 0
        invariant
            turned@ == reversed.take(turned@.len() as int),
            manifest@.len() + turned@.len() == count == reversed.len() == views.len(),
            forall|i: int|
                0 <= i < reversed.len() ==> (#[trigger] reversed[i])@ == views[count - 1
                    - i].manifest->0,
            forall|i: int|
                0 <= i < manifest@.len() ==> (#[trigger] manifest@[i])@ == views[i].manifest->0,
        decreases turned@.len(),
    {
        let ghost last = turned@.len() - 1;
        if let Some(entry) = turned.pop() {
            proof {
                assert(entry == reversed[last]);
                assert(turned@ =~= reversed.take(last));
            }
            manifest.push(entry);
        }
    }
    assert(entries(manifest@) =~= proven_manifest(views));
    manifest
}

/// The inventory of a finished walk whose directories make a tree.
fn inventory_from_walk(
    walk: TreeWalk,
    regular_hard_links: RegularHardLinkTopology,
    regular_xattrs: RegularXattrTopology,
) -> (inventory: HeldTreeInventory)
    requires
        walk@.finished,
        is_proven(walk@.entries),
    ensures
        inventory@ == inventory_of(walk@, regular_hard_links, regular_xattrs),
{
    let context = walk.context();
    let manifest_schema: u16 = walk.manifest_schema();
    let limits = walk.budget_limits();
    let parts = walk.into_parts();
    let manifest = take_manifest(parts.entries);
    HeldTreeInventory {
        context,
        root_name: parts.root_name,
        protected_names: parts.protected_names,
        limits,
        manifest_schema,
        regular_hard_links,
        regular_xattrs,
        directories: parts.directories,
        manifest,
    }
}

/// What is committed to of the content of the root.
pub open spec fn root_content(manifest_schema: u16) -> ContentView {
    if manifest_schema == NAMES_ONLY_VERSION {
        ContentView::Legacy
    } else {
        ContentView::Directory
    }
}

/// Starts the walk for an inventory of the asked schema.
pub fn begin_collection(
    request: WalkRequest,
    parent: &HeldLocalBackendEvidence,
    probe: RootProbe<'_>,
) -> (walk: Result<TreeWalk, HeldTreeError>)
    ensures
        refused_for(
            walk,
            first_fault(
                schema_fault(request.manifest_schema),
                first_fault(
                    root_fault(request, parent@, ParentAdmission::CurrentExclusive, probe),
                    root_budget_fault(request.limits, request.manifest_schema),
                ),
            ),
        ),
        walk matches Ok(started) ==> {
            &&& started@.protected_names == views(request.protected_names@)
            &&& !started@.protected_names.contains(request.root_name@)
            &&& started@.budget.limits == request.limits
            &&& started@.manifest_schema == request.manifest_schema
            &&& started@.context.backend == parent@.snapshot.backend
            &&& started@.context.mount_id == parent@.snapshot.mount_id
        },
        walk matches Ok(started) ==> is_started(started@) && is_proven(
            started@.entries,
        ) && exists|
            root: AdmittedRoot,
            content: ContentProof,
        |
            is_admitted_root(root, parent@, probe) && content@ == root_content(
                request.manifest_schema,
            ) && started@ == #[trigger] started_walk(request, root, FoundContent::Proved(content)),
{
    if request.manifest_schema != NAMES_ONLY_VERSION && request.manifest_schema
        != LEGACY_CONTENT_PROOF_VERSION && request.manifest_schema != CONTENT_PROOF_VERSION {
        let path: Vec<u8> = Vec::new();
        assert(path@ =~= Seq::<u8>::empty());
        return Err(HeldTreeError::UnsupportedContentProof(path));
    }
    let content = if request.manifest_schema == NAMES_ONLY_VERSION {
        ContentProof::Legacy
    } else {
        ContentProof::Directory
    };
    TreeWalk::begin(
        request,
        parent,
        ParentAdmission::CurrentExclusive,
        probe,
        FoundContent::Proved(content),
    )
}

/// The first directory of the manifest that is not among the directories.
pub open spec fn first_unlisted(
    manifest: Seq<EntryView>,
    directories: Seq<DirectoryView>,
    from: int,
) -> Option<Seq<u8>>
    decreases manifest.len() - from,
{
    if from >= manifest.len() {
        None
    } else if manifest[from].identity.kind == NodeKind::Directory && position_of(
        directories,
        manifest[from].path,
        0,
    ) is None {
        Some(manifest[from].path)
    } else {
        first_unlisted(manifest, directories, from + 1)
    }
}

/// The entry with the mode that its directory has now.
pub open spec fn currently(entry: EntryView, directories: Seq<DirectoryView>) -> EntryView {
    if entry.identity.kind == NodeKind::Directory {
        EntryView {
            mode: directories[position_of(directories, entry.path, 0)->0].observed_mode,
            ..entry
        }
    } else {
        entry
    }
}

/// The manifest with the modes that the directories have now.
pub open spec fn current_manifest(manifest: Seq<EntryView>, directories: Seq<DirectoryView>)
    -> Seq<EntryView> {
    Seq::new(manifest.len(), |i: int| currently(manifest[i], directories))
}

/// Why the manifest with other directory modes is not fingerprinted.
pub open spec fn modes_fault(inventory: InventoryView, modes: Map<Seq<Component>, u32>) -> Option<
    TreeFault,
> {
    let manifest = inventory.manifest;
    match first_without_mode(manifest, modes, 0) {
        Some(path) => Some(TreeFault::IdentityChanged(path)),
        None => if inventory.manifest_schema == CONTENT_PROOF_VERSION {
            if directory_count(manifest, manifest.len() as int) != modes.len() {
                Some(TreeFault::IdentityChanged(Seq::empty()))
            } else {
                None
            }
        } else if has_unused_mode(manifest, modes) {
            Some(TreeFault::IdentityChanged(Seq::empty()))
        } else {
            schema_fault(inventory.manifest_schema)
        },
    }
}

impl HeldTreeInventory {
    /// The inventory of a looked-over walk.
    pub fn from_proven_walk(looked_over: LookedOverWalk) -> (inventory: Result<
        Self,
        HeldTreeError,
    >)
        requires
            is_proven(looked_over.walk@.entries),
            is_looked_over(looked_over),
        ensures
            refused_for(inventory, index_fault(looked_over.walk@.directories, 0)),
            inventory matches Ok(done) ==> done@ == inventory_of(
                looked_over.walk@,
                looked_over.regular_hard_links,
                looked_over.regular_xattrs,
            ) && is_directory_tree(done@.directories),
    {
        build_directory_index(looked_over.walk.directories())?;
        Ok(
            inventory_from_walk(
                looked_over.walk,
                looked_over.regular_hard_links,
                looked_over.regular_xattrs,
            ),
        )
    }

    /// The inventory of a walk that commits to names alone.
    pub fn from_names_only_walk(
        walk: TreeWalk,
        parent: &HeldLocalBackendEvidence,
        probe: ParentProbe,
        rebound: Result<Inspection, HeldTreeError>,
    ) -> (inventory: Result<Self, HeldTreeError>)
        requires
            is_read_through(walk@),
            is_proven(walk@.entries),
        ensures
            refused_for(
                inventory,
                first_fault(
                    index_fault(walk@.directories, 0),
                    binding_fault(parent@, walk@.context, probe, rebound),
                ),
            ),
            inventory matches Ok(done) ==> is_directory_tree(done@.directories) && exists|
                finished: WalkView,
            |
                #![trigger is_finished_walk(finished, walk@)]
                is_finished_walk(finished, walk@) && done@ == inventory_of(
                    finished,
                    RegularHardLinkTopology { multi_link_groups: 0, linked_entries: 0 },
                    RegularXattrTopology { entries: 0, attributes: 0, value_bytes: 0 },
                ),
    {
        build_directory_index(walk.directories())?;
        let ghost before = walk@;
        let finished = walk.finish(parent, ParentAdmission::CurrentExclusive, probe, rebound)?;
        proof {
            lemma_proven_in_any_order(finished@.entries, before.entries);
        }
        let ghost done = finished@;
        let inventory = inventory_from_walk(
            finished,
            RegularHardLinkTopology::default(),
            RegularXattrTopology::default(),
        );
        assert(is_finished_walk(done, before));
        Ok(inventory)
    }

    /// What the tree is confined to.
    pub fn context(&self) -> (context: TreeContext)
        ensures
            context == self@.context,
    {
        self.context
    }

    /// The name of the root in its parent.
    pub fn root_name(&self) -> (name: &Vec<u8>)
        ensures
            name@ == self@.root_name,
    {
        &self.root_name
    }

    /// The names that stop a walk.
    pub fn protected_names(&self) -> (names: &Vec<Vec<u8>>)
        ensures
            views(names@) == self@.protected_names,
    {
        &self.protected_names
    }

    /// The limits of the walk.
    pub fn limits(&self) -> (limits: HeldTreeLimits)
        ensures
            limits == self@.limits,
    {
        self.limits
    }

    /// The schema of the manifest.
    pub fn manifest_schema(&self) -> (schema: u16)
        ensures
            schema == self@.manifest_schema,
    {
        self.manifest_schema
    }

    /// The directories in the order in which they were found.
    pub fn directories(&self) -> (directories: &Vec<DirectoryEvidence>)
        ensures
            directory_views(directories@) == self@.directories,
    {
        &self.directories
    }

    /// The manifest.
    pub fn manifest(&self) -> (manifest: &Vec<ManifestEntry>)
        ensures
            entries(manifest@) == self@.manifest,
    {
        &self.manifest
    }

    /// How many entries the manifest has.
    pub fn entry_count(&self) -> (count: u64)
        ensures
            count == self@.manifest.len(),
    {
        let count: usize = self.manifest.len();
        count as u64
    }

    /// How the regular files are linked.
    pub fn regular_hard_link_topology(&self) -> (topology: RegularHardLinkTopology)
        ensures
            topology == self@.links,
    {
        self.regular_hard_links
    }

    /// What attributes the regular files have.
    pub fn regular_xattr_topology(&self) -> (topology: RegularXattrTopology)
        ensures
            topology == self@.xattrs,
    {
        self.regular_xattrs
    }

    /// The fingerprint of the manifest under the third schema.
    pub fn fingerprint(&self) -> (fingerprint: HeldTreeFingerprint)
        ensures
            is_fingerprint(fingerprint, self@.manifest, CONTENT_PROOF_VERSION),
    {
        fingerprint_manifest_v3(self.manifest.as_slice())
    }

    /// The fingerprint of the manifest, if the schema is that of the inventory
    /// and known.
    pub fn fingerprint_for_schema(&self, schema_version: u16) -> (fingerprint: Option<
        HeldTreeFingerprint,
    >)
        ensures
            fingerprint is Some <==> schema_version == self@.manifest_schema && schema_fault(
                schema_version,
            ) is None,
            fingerprint matches Some(value) ==> is_fingerprint(
                value,
                self@.manifest,
                schema_version,
            ),
    {
        if schema_version != self.manifest_schema {
            return None;
        }
        if schema_version == NAMES_ONLY_VERSION || schema_version == LEGACY_CONTENT_PROOF_VERSION
            || schema_version == CONTENT_PROOF_VERSION {
            return Some(fingerprint_manifest(self.manifest.as_slice(), schema_version));
        }
        None
    }

    /// The segments of the manifest under the third schema.
    pub fn stream_manifest_v3_segments(&self) -> (segments: Result<
        Vec<ManifestSegment>,
        ManifestV3CodecError,
    >)
        ensures
            match first_size_error(self@.manifest, MANIFEST_V3_MAX_SEGMENT_PAYLOAD) {
                Some(error) => segments == Err::<Vec<ManifestSegment>, ManifestV3CodecError>(error),
                None => segments matches Ok(list) && is_segmentation(
                    list@,
                    self@.manifest,
                    MANIFEST_V3_MAX_SEGMENT_PAYLOAD,
                ),
            },
    {
        stream_manifest_v3_segments(self.manifest.as_slice(), MANIFEST_V3_MAX_SEGMENT_PAYLOAD)
    }

    /// The records of the manifest under the third schema.
    pub fn stream_manifest_v3_records(&self) -> (records: Result<
        Vec<Vec<u8>>,
        ManifestV3CodecError,
    >)
        ensures
            match first_size_error(self@.manifest, MANIFEST_V3_MAX_SEGMENT_PAYLOAD) {
                Some(error) => records == Err::<Vec<Vec<u8>>, ManifestV3CodecError>(error),
                None => records matches Ok(list) && views(list@) == Seq::new(
                    self@.manifest.len(),
                    |i: int| record_v3(self@.manifest[i]),
                ),
            },
    {
        let records = stream_manifest_v3_records(self.manifest.as_slice());
        proof {
            if records is Ok {
                assert(views(records->Ok_0@) =~= Seq::new(
                    self@.manifest.len(),
                    |i: int| record_v3(self@.manifest[i]),
                ));
            }
        }
        records
    }

    /// The fingerprint of the manifest with other directory modes. Every
    /// directory needs a mode, and every mode a directory.
    pub fn fingerprint_with_directory_modes(&self, modes: &DirectoryModes) -> (fingerprint: Result<
        HeldTreeFingerprint,
        HeldTreeError,
    >)
        ensures
            refused_for(fingerprint, modes_fault(self@, modes@)),
            fingerprint matches Ok(value) ==> is_fingerprint(
                value,
                manifest_with_modes(self@.manifest, modes@),
                self@.manifest_schema,
            ),
    {
        let nowhere: Vec<u8> = Vec::new();
        assert(nowhere@ =~= Seq::<u8>::empty());
        let (list, directories) = match substituted_modes(&self.manifest, modes) {
            Ok(found) => found,
            Err(i) => {
                return Err(
                    HeldTreeError::IdentityChanged(to_vec(self.manifest[i].path.as_slice())),
                );
            },
        };
        if self.manifest_schema == CONTENT_PROOF_VERSION {
            if directories != modes.len() {
                return Err(HeldTreeError::IdentityChanged(nowhere));
            }
            return Ok(fingerprint_v3_with_modes(&self.manifest, &list));
        }
        if mode_is_unused(&self.manifest, modes) {
            return Err(HeldTreeError::IdentityChanged(nowhere));
        }
        if self.manifest_schema != NAMES_ONLY_VERSION && self.manifest_schema
            != LEGACY_CONTENT_PROOF_VERSION {
            return Err(HeldTreeError::UnsupportedContentProof(nowhere));
        }
        let manifest = copy_with_modes(&self.manifest, &list);
        Ok(fingerprint_manifest(manifest.as_slice(), self.manifest_schema))
    }

    /// The directories from the last that was found to the root.
    pub fn directories_deepest_first(&self) -> (order: Vec<HeldDirectoryOrder>)
        ensures
            order@.len() == self@.directories.len(),
            forall|i: int|
                0 <= i < order@.len() ==> is_order_of(
                    #[trigger] order@[i],
                    self@.directories[self@.directories.len() - 1 - i],
                ),
    {
        directories_deepest_first(&self.directories)
    }

    /// What the root is, on which mount.
    pub fn root_strong_identity(&self) -> (identity: StrongObjectIdentity)
        ensures
            identity == (StrongObjectIdentity {
                device: self@.context.root_identity.device,
                inode: self@.context.root_identity.inode,
                incarnation: self@.context.root_identity.incarnation,
                mount_id: self@.context.mount_id,
            }),
    {
        StrongObjectIdentity {
            device: self.context.root_identity.device,
            inode: self.context.root_identity.inode,
            incarnation: self.context.root_identity.incarnation,
            mount_id: self.context.mount_id,
        }
    }

    /// The evidence on a directory.
    pub fn directory_evidence(&self, relative_path: &[u8]) -> (evidence: Option<&DirectoryEvidence>)
        ensures
            match position_of(self@.directories, relative_path@, 0) {
                Some(i) => evidence matches Some(found) && found@ == self@.directories[i],
                None => evidence is None,
            },
    {
        match find_directory(&self.directories, relative_path) {
            Some(i) => Some(&self.directories[i]),
            None => None,
        }
    }

    /// Sets the mode that one directory has now.
    pub(crate) fn set_observed_mode(&mut self, position: usize, mode: u32)
        requires
            position < old(self)@.directories.len(),
        ensures
            final(self)@ == with_sealed_directory(old(self)@, position as int, mode),
    {
        let ghost before = self@;
        let mut directory = self.directories[position].clone();
        directory.observed_mode = mode;
        self.directories.set(position, directory);
        assert(directory_views(self.directories@) =~= with_sealed_directory(
            before,
            position as int,
            mode,
        ).directories);
    }

    /// Requires that the root is still bound where it was.
    pub fn verify_root_binding(
        &self,
        parent: &HeldLocalBackendEvidence,
        probe: ParentProbe,
        rebound: Result<Inspection, HeldTreeError>,
    ) -> (outcome: Result<(), HeldTreeError>)
        ensures
            refused_for(outcome, binding_fault(parent@, self@.context, probe, rebound)),
    {
        verify_root_binding(parent, &self.context, probe, rebound)
    }

    /// What the tree has to be after its directories were sealed: what it was,
    /// with the modes that its directories have now.
    pub fn into_post_seal_expectation(self) -> (expectation: Result<
        PostSealManifestExpectation,
        HeldTreeError,
    >)
        ensures
            refused_for(
                expectation,
                if self@.manifest_schema != CONTENT_PROOF_VERSION {
                    Some(TreeFault::UnsupportedContentProof(Seq::empty()))
                } else {
                    match first_unlisted(self@.manifest, self@.directories, 0) {
                        Some(path) => Some(TreeFault::PostChanged(path)),
                        None => None,
                    }
                },
            ),
            expectation matches Ok(expected) ==> {
                &&& expected.root_identity == self@.context.root_identity
                &&& expected.backend == self@.context.backend
                &&& expected.mount_id == self@.context.mount_id
                &&& is_fingerprint(
                    expected.fingerprint,
                    current_manifest(self@.manifest, self@.directories),
                    CONTENT_PROOF_VERSION,
                )
            },
    {
        if self.manifest_schema != CONTENT_PROOF_VERSION {
            let nowhere: Vec<u8> = Vec::new();
            assert(nowhere@ =~= Seq::<u8>::empty());
            return Err(HeldTreeError::UnsupportedContentProof(nowhere));
        }
        let ghost manifest = self@.manifest;
        let ghost directories = self@.directories;
        let mut modes: Vec<u32> = Vec::new();
        let mut i: usize = 0;
        while i < self.manifest.len()
            invariant
                i <= self.manifest@.len(),
                manifest == entries(self.manifest@),
                directories == directory_views(self.directories@),
                self@.manifest == manifest,
                self@.directories == directories,
                self@.manifest_schema == CONTENT_PROOF_VERSION,
                modes@.len() == i,
                first_unlisted(manifest, directories, 0) == first_unlisted(
                    manifest,
                    directories,
                    i as int,
                ),
                forall|j: int|
                    0 <= j < i ==> (#[trigger] modes@[j]) == currently(
                        manifest[j],
                        directories,
                    ).mode,
            decreases self.manifest@.len() - i,
        {
            assert(manifest[i as int] == self.manifest@[i as int]@);
            if self.manifest[i].identity.kind == NodeKind::Directory {
                match find_directory(&self.directories, self.manifest[i].path.as_slice()) {
                    Some(position) => {
                        assert(directories[position as int] == self.directories@[position as int]@);
                        modes.push(self.directories[position].observed_mode);
                    },
                    None => {
                        return Err(
                            HeldTreeError::PostChanged(to_vec(self.manifest[i].path.as_slice())),
                        );
                    },
                }
            } else {
                modes.push(self.manifest[i].mode);
            }
            i += 1;
        }
        let fingerprint = fingerprint_v3_with_modes(&self.manifest, &modes);
        proof {
            assert forall|j: int| 0 <= j < manifest.len() implies (#[trigger]
            manifest_with_mode_list(manifest, modes@)[j]) == current_manifest(
                manifest,
                directories,
            )[j] by {
                assert(modes@[j] == currently(manifest[j], directories).mode);
            }
            assert(manifest_with_mode_list(manifest, modes@) =~= current_manifest(
                manifest,
                directories,
            ));
        }
        Ok(
            PostSealManifestExpectation {
                root_identity: self.context.root_identity,
                backend: self.context.backend,
                mount_id: self.context.mount_id,
                fingerprint,
            },
        )
    }
}

/// The same entries in another order are still committed to.
pub proof fn lemma_proven_in_any_order(list: Seq<WalkEntryView>, before: Seq<WalkEntryView>)
    requires
        list.to_multiset() == before.to_multiset(),
        is_proven(before),
    ensures
        is_proven(list),
{
    broadcast use vstd::seq_lib::group_to_multiset_ensures;
    assert forall|i: int| 0 <= i < list.len() implies (#[trigger] list[i]).manifest is Some by {
        assert(list.contains(list[i]));
        assert(list.to_multiset().count(list[i]) > 0);
        assert(before.contains(list[i]));
    }
}

/// A copy of the manifest with other modes.
fn copy_with_modes(manifest: &Vec<ManifestEntry>, modes: &Vec<u32>) -> (copy: Vec<ManifestEntry>)
    requires
        modes@.len() == manifest@.len(),
    ensures
        entries(copy@) == manifest_with_mode_list(entries(manifest@), modes@),
{
    let mut copy: Vec<ManifestEntry> = Vec::new();
    let mut i: usize = 0;
    while i < manifest.len()
        invariant
            i <= manifest@.len() == modes@.len(),
            copy@.len() == i,
            forall|j: int|
                0 <= j < i ==> (#[trigger] copy@[j])@ == (EntryView {
                    mode: modes@[j],
                    ..manifest@[j]@
                }),
        decreases manifest@.len() - i,
    {
        let entry = manifest[i].clone();
        copy.push(
            ManifestEntry {
                path: entry.path,
                identity: entry.identity,
                uid: entry.uid,
                gid: entry.gid,
                mode: modes[i],
                content: entry.content,
            },
        );
        i += 1;
    }
    assert(entries(copy@) =~= manifest_with_mode_list(entries(manifest@), modes@));
    copy
}

/// What assessing a tree starts with.
#[derive(Clone, Copy, Debug, PartialEq, Eq)]
pub enum AdmissionStart {
    /// The tree cannot be read before its parent is sealed.
    Deferred(HeldTreeAdmissionAssessment),
    /// The tree can be walked with this seal of the parent in view.
    Walk { admission: ParentAdmission, seal: SourceParentSealProjection },
}

/// The seal of the parent that is in view.
pub open spec fn seal_in_view(
    parent: crate::backend::evidence::EvidenceView,
) -> SourceParentSealProjection {
    SourceParentSealProjection {
        original_mode: projection(parent).original_mode,
        projected_mode: projection(parent).projected_mode,
        validation: SourceParentSealValidation::RequiresExecutionValidation,
    }
}

/// Starts to assess a tree. Where the owner cannot search the parent, the tree
/// has to wait for the seal.
pub fn begin_tree_admission(request: &WalkRequest, parent: &HeldLocalBackendEvidence) -> (start:
    Result<AdmissionStart, HeldTreeError>)
    ensures
        refused_for(
            start,
            first_fault(
                input_fault(request.root_name@, views(request.protected_names@), request.limits),
                projection_fault(parent@),
            ),
        ),
        start matches Ok(begun) ==> begun == if parent@.snapshot.mode & 0o100 == 0 {
            AdmissionStart::Deferred(
                HeldTreeAdmissionAssessment::TreePolicyDeferredUntilSourceParentSeal {
                    reason: TreePolicyDeferralReason::SourceParentSearchRequiresExecutionSeal,
                    source_parent_seal: seal_in_view(parent@),
                },
            )
        } else {
            AdmissionStart::Walk {
                admission: ParentAdmission::Projected(projection(parent@)),
                seal: seal_in_view(parent@),
            }
        },
{
    validate_v2_inputs(
        request.root_name.as_slice(),
        &request.protected_names,
        request.limits,
    )?;
    let projected = projected_parent_seal(parent)?;
    let source_parent_seal = SourceParentSealProjection {
        original_mode: projected.original_mode,
        projected_mode: projected.projected_mode,
        validation: SourceParentSealValidation::RequiresExecutionValidation,
    };
    if projected.original_mode & 0o100 == 0 {
        return Ok(
            AdmissionStart::Deferred(
                HeldTreeAdmissionAssessment::TreePolicyDeferredUntilSourceParentSeal {
                    reason: TreePolicyDeferralReason::SourceParentSearchRequiresExecutionSeal,
                    source_parent_seal,
                },
            ),
        );
    }
    Ok(
        AdmissionStart::Walk {
            admission: ParentAdmission::Projected(projected),
            seal: source_parent_seal,
        },
    )
}

/// What an assessed tree comes to.
pub fn assessed_tree(
    looked_over: LookedOverWalk,
    seal: SourceParentSealProjection,
    assessed_at: UnixTime,
) -> (assessment: HeldTreeAdmissionAssessment)
    requires
        is_looked_over(looked_over),
    ensures
        ({
            let budget = looked_over.walk@.budget;
            assessment == (HeldTreeAdmissionAssessment::TreePolicyAssessed {
                tree: HeldTreePolicyAssessment {
                    entries: budget.entries,
                    directories: budget.directories,
                    path_bytes: budget.path_bytes,
                    manifest_bytes: budget.manifest_bytes,
                    content_bytes: budget.content_bytes,
                    regular_hard_links: looked_over.regular_hard_links,
                    regular_xattrs: looked_over.regular_xattrs,
                    assessed_at,
                },
                source_parent_seal: seal,
            })
        }),
{
    let budget = looked_over.walk.spent();
    HeldTreeAdmissionAssessment::TreePolicyAssessed {
        tree: HeldTreePolicyAssessment {
            entries: budget.entries,
            directories: budget.directories,
            path_bytes: budget.path_bytes,
            manifest_bytes: budget.manifest_bytes,
            content_bytes: budget.content_bytes,
            regular_hard_links: looked_over.regular_hard_links,
            regular_xattrs: looked_over.regular_xattrs,
            assessed_at,
        },
        source_parent_seal: seal,
    }
}

/// The manifest as it is now differs from the recorded one in the modes of
/// directories alone, which are those that were last observed.
pub proof fn law_only_observed_modes_are_current(
    manifest: Seq<EntryView>,
    directories: Seq<DirectoryView>,
    i: int,
)
    requires
        0 <= i < manifest.len(),
    ensures
        current_manifest(manifest, directories).len() == manifest.len(),
        ({
            let (before, after) = (manifest[i], current_manifest(manifest, directories)[i]);
            &&& after.path == before.path
            &&& after.identity == before.identity
            &&& after.uid == before.uid
            &&& after.gid == before.gid
            &&& after.content == before.content
            &&& before.identity.kind != NodeKind::Directory ==> after.mode == before.mode
            &&& before.identity.kind == NodeKind::Directory ==> (position_of(
                directories,
                before.path,
                0,
            ) matches Some(at) ==> after.mode == directories[at].observed_mode)
        }),
{
}

/// An inventory can be collected for each of the three schemas and no other, and
/// holds what the walk found, committed to in its order.
pub proof fn law_inventories_hold_the_walk(
    walk: WalkView,
    links: RegularHardLinkTopology,
    xattrs: RegularXattrTopology,
    schema: u16,
)
    ensures
        schema_fault(schema) is None <==> 1 <= schema <= 3,
        root_content(schema) is Legacy <==> schema == 1,
        ({
            let inventory = inventory_of(walk, links, xattrs);
            &&& inventory.context == walk.context
            &&& inventory.root_name == walk.root_name
            &&& inventory.protected_names == walk.protected_names
            &&& inventory.limits == walk.budget.limits
            &&& inventory.manifest_schema == walk.manifest_schema
            &&& inventory.links == links
            &&& inventory.xattrs == xattrs
            &&& inventory.directories == walk.directories
            &&& inventory.manifest.len() == walk.entries.len()
            &&& forall|i: int|
                0 <= i < walk.entries.len() && (#[trigger] walk.entries[i]).manifest is Some
                    ==> Some(inventory.manifest[i]) == walk.entries[i].manifest
        }),
{
}

/// No regular file is left out of the last looks: the next one is the first from
/// there on, and the links are those of all of them.
pub proof fn law_no_file_is_passed_over(list: Seq<WalkEntryView>, from: int)
    requires
        0 <= from <= list.len(),
    ensures
        from <= next_file(list, from) <= list.len(),
        forall|i: int|
            from <= i < next_file(list, from) ==> (#[trigger] list[i]).regular is None,
        next_file(list, from) < list.len() ==> list[next_file(list, from)].regular is Some,
    decreases list.len() - from,
{
    if from < list.len() && list[from].regular is None {
        law_no_file_is_passed_over(list, from + 1);
        assert forall|i: int| from <= i < next_file(list, from) implies (
        #[trigger] list[i]).regular is None by {
            if i > from {
            }
        }
    }
}

/// Each regular file of a walk counts among the links, as it was seen under its
/// path.
pub proof fn law_every_file_counts_among_the_links(list: Seq<WalkEntryView>, count: int, i: int)
    requires
        0 <= i < count <= list.len(),
        list[i].regular is Some,
    ensures
        file_links(list, count).contains(
            LinkView { path: list[i].path, observation: list[i].regular->0 },
        ),
    decreases count,
{
    let link = LinkView { path: list[i].path, observation: list[i].regular->0 };
    let after = file_links(list, count);
    if i == count - 1 {
        assert(after[after.len() - 1] == link);
    } else {
        law_every_file_counts_among_the_links(list, count - 1, i);
        let before = file_links(list, count - 1);
        let n = choose|n: int| 0 <= n < before.len() && before[n] == link;
        assert(after[n] == link);
    }
}

/// Every directory of a manifest is among the directories, or the first that is not
/// is named.
pub proof fn law_every_directory_is_listed(
    manifest: Seq<EntryView>,
    directories: Seq<DirectoryView>,
    from: int,
)
    requires
        0 <= from <= manifest.len(),
    ensures
        first_unlisted(manifest, directories, from) is None <==> forall|i: int|
            from <= i < manifest.len() && (#[trigger] manifest[i]).identity.kind
                == NodeKind::Directory ==> position_of(directories, manifest[i].path, 0) is Some,
    decreases manifest.len() - from,
{
    if from < manifest.len() {
        law_every_directory_is_listed(manifest, directories, from + 1);
        let here = manifest[from];
        if first_unlisted(manifest, directories, from) is None {
            assert forall|i: int|
                from <= i < manifest.len() && (#[trigger] manifest[i]).identity.kind
                    == NodeKind::Directory implies position_of(
                directories,
                manifest[i].path,
                0,
            ) is Some by {
                if i > from {
                }
            }
        }
    }
}

/// A manifest is fingerprinted with other modes only where each of its directories
/// has one and none is given for anything else.
pub proof fn law_modes_fit_the_directories(
    inventory: InventoryView,
    modes: Map<Seq<Component>, u32>,
)
    requires
        modes_fault(inventory, modes) is None,
    ensures
        forall|i: int|
            0 <= i < inventory.manifest.len() && (#[trigger] inventory.manifest[i]).identity.kind
                == NodeKind::Directory ==> modes.dom().contains(
                crate::paths::components(inventory.manifest[i].path),
            ),
        1 <= inventory.manifest_schema <= 3,
        inventory.manifest_schema == 3 ==> directory_count(
            inventory.manifest,
            inventory.manifest.len() as int,
        ) == modes.len(),
        inventory.manifest_schema != 3 ==> !has_unused_mode(inventory.manifest, modes),
{
    crate::backend::held::modes::law_every_directory_needs_a_mode(inventory.manifest, modes, 0);
}

} // verus!
