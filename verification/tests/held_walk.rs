use degu_core::admission::EntryKind;
use degu_core::admission::XattrPlatform;
use degu_core::backend::certify::AclProbe;
use degu_core::backend::certify::CertificationError;
use degu_core::backend::certify::CertifiedLocalBackend;
use degu_core::backend::certify::EXT4_MAGIC;
use degu_core::backend::evidence::certify_held_fd;
use degu_core::backend::evidence::HeldLocalBackendEvidence;
use degu_core::backend::evidence::HeldStat;
use degu_core::backend::evidence::LinuxBackendFacts;
use degu_core::backend::evidence::ProcessCredentials;
use degu_core::backend::evidence::TransactionId;
use degu_core::backend::held::child::io_error;
use degu_core::backend::held::child::name_child;
use degu_core::backend::held::child::open_child;
use degu_core::backend::held::child::see_child;
use degu_core::backend::held::child::Opening;
use degu_core::backend::held::child::RootProbe;
use degu_core::backend::held::child::TreeContext;
use degu_core::backend::held::child::WalkRequest;
use degu_core::backend::held::content::attribute_route;
use degu_core::backend::held::content::inspect_content_admission;
use degu_core::backend::held::content::inspect_content_at;
use degu_core::backend::held::content::inspect_content_for_schema;
use degu_core::backend::held::content::AttributeRoute;
use degu_core::backend::held::content::ContentFinding;
use degu_core::backend::held::content::ContentStart;
use degu_core::backend::held::content::FoundContent;
use degu_core::backend::held::content::LinkReading;
use degu_core::backend::held::content::LinkStage;
use degu_core::backend::held::decoder::ManifestV3Decoder;
use degu_core::backend::held::directories::build_directory_index;
use degu_core::backend::held::directories::DirectoryEvidence;
use degu_core::backend::held::directories::DirectoryProbe;
use degu_core::backend::held::directories::NameProbe;
use degu_core::backend::held::directories::Reopening;
use degu_core::backend::held::error::HeldTreeError;
use degu_core::backend::held::error::HeldTreeLimit;
use degu_core::backend::held::forward::verify_root_binding;
use degu_core::backend::held::forward::ForwardWalk;
use degu_core::backend::held::forward::PendingV3Inventory;
use degu_core::backend::held::forward::StreamedV3Inventory;
use degu_core::backend::held::inspect::require_boundary;
use degu_core::backend::held::inspect::require_owner;
use degu_core::backend::held::inspect::verify_root_binding_fields;
use degu_core::backend::held::inspect::Inspection;
use degu_core::backend::held::inspect::ParentAdmission;
use degu_core::backend::held::inspect::ParentProbe;
use degu_core::backend::held::inventory::assessed_tree;
use degu_core::backend::held::inventory::begin_collection;
use degu_core::backend::held::inventory::begin_tree_admission;
use degu_core::backend::held::inventory::AdmissionStart;
use degu_core::backend::held::inventory::HeldTreeInventory;
use degu_core::backend::held::inventory::LastLooks;
use degu_core::backend::held::limits::HeldTreeLimits;
use degu_core::backend::held::limits::XattrReadBudget;
use degu_core::backend::held::limits::CONTENT_PROOF_VERSION;
use degu_core::backend::held::limits::HARD_DIRECTORY_CAP;
use degu_core::backend::held::limits::LEGACY_CONTENT_PROOF_VERSION;
use degu_core::backend::held::limits::MAX_TREE_DIRECTORIES;
use degu_core::backend::held::limits::NAMES_ONLY_VERSION;
use degu_core::backend::held::manifest::empty_regular_xattr_proof;
use degu_core::backend::held::model::ContentProof;
use degu_core::backend::held::model::ManifestEntry;
use degu_core::backend::held::model::NodeIdentity;
use degu_core::backend::held::model::NodeKind;
use degu_core::backend::held::model::RegularXattrProof;
use degu_core::backend::held::model::RegularXattrTopology;
use degu_core::backend::held::model::StructureEvidence;
use degu_core::backend::held::modes::DirectoryModes;
use degu_core::backend::held::policy::HeldTreeAdmissionAssessment;
use degu_core::backend::held::policy::HeldTreePolicyAssessment;
use degu_core::backend::held::policy::SourceParentSealProjection;
use degu_core::backend::held::policy::SourceParentSealValidation;
use degu_core::backend::held::policy::TreePolicyDeferralReason;
use degu_core::backend::held::policy::UnixTime;
use degu_core::backend::held::purge::TreePurge;
use degu_core::backend::held::reobserve::LastLook;
use degu_core::backend::held::rewalk::StructureRewalk;
use degu_core::backend::held::scratch::decode_hardlink_scratch_record;
use degu_core::backend::held::scratch::emit_structure_record;
use degu_core::backend::held::sealing::SealFailure;
use degu_core::backend::held::sealing::SealResult;
use degu_core::backend::held::sealing::TreeSealing;
use degu_core::backend::held::topology_fold::HardlinkTopologyFold;
use degu_core::backend::held::walk::DirectoryCheck;
use degu_core::backend::held::walk::TreeWalk;
use degu_core::backend::held::xattr::admitted_regular_xattr_names;
use degu_core::backend::held::xattr::assess_collected_metadata;
use degu_core::backend::held::xattr::size_xattr_value;
use degu_core::backend::held::xattr::CollectedXattrs;
use degu_core::backend::held::xattr::ValueReading;
use degu_core::backend::held::xattr::ValueRequest;
use degu_core::backend::held::xattr::XattrProving;
use std::cell::Cell;
use std::collections::BTreeMap;

const EUID: u32 = 10;
const MOUNT: u64 = 7;
const BACKEND: CertifiedLocalBackend = CertifiedLocalBackend::Ext4;
const TEST_XATTR: &[u8] = b"user.degu-content-admission";

/// One entry of a tree that is held in memory.
#[derive(Clone)]
struct Node {
    seen: Inspection,
    content: Vec<u8>,
    xattrs: BTreeMap<Vec<u8>, Vec<u8>>,
    acl: AclProbe,
}

/// A tree that is held in memory, with the directory that it lies in.
struct Disk {
    parent_mode: u32,
    nodes: BTreeMap<Vec<u8>, Node>,
    content_read: Cell<u64>,
    values_read: Cell<u64>,
}

fn node(kind: NodeKind, inode: u64, mode: u32, content: &[u8]) -> Node {
    Node {
        seen: Inspection {
            identity: NodeIdentity {
                kind,
                device: 30,
                inode,
                incarnation: inode,
            },
            uid: EUID,
            gid: 20,
            mode,
            size: content.len() as u64,
            nlink: 1,
            mtime_sec: 1,
            mtime_nsec: 2,
            ctime_sec: 3,
            ctime_nsec: 4,
            content_fields_available: true,
            mount_id: MOUNT,
            backend: BACKEND,
        },
        content: content.to_vec(),
        xattrs: BTreeMap::new(),
        acl: AclProbe::Absent,
    }
}

fn credentials() -> ProcessCredentials {
    ProcessCredentials {
        effective_uid: EUID,
        effective_gid: 20,
        listed_groups: Some(vec![]),
    }
}

fn certify(inode: u64, seen: &HeldStat, acl: AclProbe) -> Result<HeldLocalBackendEvidence, CertificationError> {
    certify_held_fd(
        &LinuxBackendFacts {
            mount: Some((0x1000, MOUNT)),
            mountinfo: Some("7 1 8:1 / / rw - ext4 /dev/sda1 rw\n".to_string()),
            filesystem_magic: Some(EXT4_MAGIC),
        },
        Some(HeldStat { inode, ..*seen }),
        acl,
        &credentials(),
    )
}

fn setup_tree() -> Disk {
    let mut nodes = BTreeMap::new();
    nodes.insert(vec![], node(NodeKind::Directory, 1, 0o755, b""));
    nodes.insert(b"a".to_vec(), node(NodeKind::Directory, 2, 0o755, b""));
    nodes.insert(b"a/b".to_vec(), node(NodeKind::Directory, 3, 0o755, b""));
    nodes.insert(
        b"a/file".to_vec(),
        node(NodeKind::Regular, 4, 0o644, b"one"),
    );
    nodes.insert(b"link".to_vec(), node(NodeKind::Symlink, 5, 0o777, b"/"));
    Disk {
        parent_mode: 0o700,
        nodes,
        content_read: Cell::new(0),
        values_read: Cell::new(0),
    }
}

impl Disk {
    fn at(&mut self, path: &[u8]) -> &mut Node {
        self.nodes.get_mut(path).unwrap()
    }

    fn set_test_xattr(&mut self, path: &[u8], value: &[u8]) {
        let entry = self.at(path);
        entry.xattrs.insert(TEST_XATTR.to_vec(), value.to_vec());
        entry.seen.ctime_nsec += 1;
    }

    fn parent_stat(&self) -> HeldStat {
        HeldStat {
            raw_mode: 0o040000 | self.parent_mode,
            uid: EUID,
            gid: 20,
            device: Some(30),
            inode: 1000,
        }
    }

    fn parent(&self) -> HeldLocalBackendEvidence {
        certify(1000, &self.parent_stat(), AclProbe::Absent).unwrap()
    }

    fn parent_probe(&self) -> ParentProbe {
        ParentProbe {
            acl: AclProbe::Absent,
            stat: Ok(self.parent_stat()),
            backend: Ok(BACKEND),
            effective_uid: EUID,
        }
    }

    fn seen(&self, path: &[u8]) -> Result<Inspection, HeldTreeError> {
        match self.nodes.get(path) {
            Some(node) => Ok(node.seen),
            None => Err(io_error(path, 2)),
        }
    }

    fn acl(&self, path: &[u8]) -> AclProbe {
        self.nodes[path].acl
    }

    fn held(&self, path: &[u8]) -> Result<HeldLocalBackendEvidence, HeldTreeError> {
        let node = match self.nodes.get(path) {
            Some(node) => node,
            None => return Err(io_error(path, 2)),
        };
        let stat = HeldStat {
            raw_mode: 0o040000 | node.seen.mode,
            uid: node.seen.uid,
            gid: node.seen.gid,
            device: Some(node.seen.identity.device),
            inode: node.seen.identity.inode,
        };
        certify(node.seen.identity.inode, &stat, node.acl).map_err(|reason| {
            HeldTreeError::Certification {
                path: path.to_vec(),
                reason,
            }
        })
    }

    fn directory_probe(&self, path: &[u8]) -> DirectoryProbe {
        DirectoryProbe {
            acl: self.acl(path),
            backend: Ok(BACKEND),
            inspected: self.seen(path),
            effective_uid: EUID,
        }
    }

    fn children(&self, directory: &[u8]) -> Vec<Vec<u8>> {
        let mut names = vec![b".".to_vec(), b"..".to_vec()];
        for path in self.nodes.keys() {
            let rest = if directory.is_empty() {
                Some(path.as_slice())
            } else {
                path.strip_prefix(directory)
                    .and_then(|rest| rest.strip_prefix(b"/".as_slice()))
            };
            if let Some(rest) = rest {
                if !rest.is_empty() && !rest.contains(&b'/') {
                    names.push(rest.to_vec());
                }
            }
        }
        names
    }

    fn reopen(
        &self,
        directories: &Vec<DirectoryEvidence>,
        context: TreeContext,
        path: &[u8],
        bound: Result<(), HeldTreeError>,
    ) -> Result<Reopening, HeldTreeError> {
        let root = &directories[0];
        let mut way = Reopening::begin(path, directories, root, false)?;
        way.enter(
            root,
            &self.held(b"")?,
            self.directory_probe(b""),
            bound,
            context.backend,
            context.mount_id,
        )?;
        while let Some(hop) = way.next_hop(directories)? {
            let held = self.held(&hop.prefix)?;
            way.pass(
                &directories[hop.position],
                &held,
                self.directory_probe(&hop.prefix),
                NameProbe {
                    inspected: self.seen(&hop.prefix),
                    effective_uid: EUID,
                },
                None,
                context.backend,
                context.mount_id,
            )?;
        }
        assert!(way.arrived());
        Ok(way)
    }

    fn bound_fields(&self, context: TreeContext) -> Result<(), HeldTreeError> {
        verify_root_binding_fields(
            context.root_identity,
            context.mount_id,
            context.backend,
            self.seen(b""),
        )
    }

    fn bound(&self, context: TreeContext) -> Result<(), HeldTreeError> {
        verify_root_binding(&self.parent(), &context, self.parent_probe(), self.seen(b""))
    }

    fn xattr_names(&self, path: &[u8]) -> CollectedXattrs {
        CollectedXattrs::Names(self.nodes[path].xattrs.keys().cloned().collect())
    }

    fn attributes(
        &self,
        path: &[u8],
        schema: u16,
        assess: bool,
        budget: XattrReadBudget,
    ) -> Result<RegularXattrProof, HeldTreeError> {
        let route = attribute_route(schema, assess, path)?;
        if route == AttributeRoute::Admission {
            assess_collected_metadata(
                path,
                EntryKind::Regular,
                XattrPlatform::Linux,
                Some(self.acl(path)),
                &self.xattr_names(path),
            )?;
            return Ok(empty_regular_xattr_proof());
        }
        let names = admitted_regular_xattr_names(
            self.acl(path),
            self.xattr_names(path),
            XattrPlatform::Linux,
            path,
        )?;
        let mut proving = XattrProving::new(names, budget);
        while let Some(name) = proving.next_name() {
            let stored = self.nodes[path].xattrs[name].clone();
            if route == AttributeRoute::Sizes {
                let size = size_xattr_value(3, Ok(stored.len()), path)?.unwrap();
                proving.add_size(size, path)?;
                continue;
            }
            let budget = proving.remaining();
            let mut reading = ValueReading::new(budget.remaining_bytes, budget.content_limit);
            let mut request = reading.sized(Ok(stored.len()), path)?;
            let value = loop {
                request = match request {
                    ValueRequest::Size => reading.sized(Ok(stored.len()), path)?,
                    ValueRequest::Value(size) => {
                        self.values_read.set(self.values_read.get() + size as u64);
                        reading.read(Ok((size, stored.clone())), path)?
                    }
                    ValueRequest::Done(value) => break value,
                };
            };
            proving.add_value(&value, path)?;
        }
        Ok(proving.finish())
    }

    fn link(&self, path: &[u8], mut reading: LinkReading) -> Result<ContentFinding, HeldTreeError> {
        loop {
            match reading.stage() {
                LinkStage::Admit | LinkStage::AdmitAgain | LinkStage::AdmitLast => {
                    reading.take_attributes(Ok(self.xattr_names(path)), XattrPlatform::Linux)?
                }
                LinkStage::Read | LinkStage::ReadAgain => {
                    reading.read(Ok(self.nodes[path].content.clone()))?
                }
                LinkStage::Look | LinkStage::LookAgain | LinkStage::LookLast => {
                    reading.look(self.seen(path))?
                }
                LinkStage::Done => return reading.finish(),
            }
        }
    }

    fn find_out(
        &self,
        start: ContentStart,
        schema: u16,
        path: &[u8],
        assess: bool,
    ) -> Result<ContentFinding, HeldTreeError> {
        let opening = match start {
            ContentStart::Settled(finding) => return Ok(finding),
            ContentStart::Symlink(reading) => return self.link(path, reading),
            ContentStart::Regular(opening) => opening,
        };
        let xattrs = self.attributes(path, schema, assess, opening.xattr_budget())?;
        let mut proving = opening.open(xattrs, &self.seen(path)?)?;
        if assess {
            let again = self.attributes(path, schema, assess, proving.xattr_budget())?;
            return proving.assess_regular_content(again, &self.seen(path)?);
        }
        for chunk in self.nodes[path].content.chunks(2) {
            self.content_read
                .set(self.content_read.get() + chunk.len() as u64);
            proving = proving.feed(chunk)?;
        }
        let after = self.seen(path)?;
        let again = self.attributes(path, schema, assess, proving.xattr_budget())?;
        proving.finish(&after, again, &self.seen(path)?)
    }

    fn walk(&self, walk: &mut TreeWalk, proving: bool) -> Result<(), HeldTreeError> {
        let context = walk.context();
        let schema = walk.manifest_schema();
        while let Some(index) = walk.next_directory() {
            let directory = walk.directories()[index].clone();
            let path = &directory.relative_path;
            match walk.directory_check() {
                DirectoryCheck::Current => walk.reach_root(self.acl(b""), self.seen(b""), EUID)?,
                DirectoryCheck::FromNamedRoot => {
                    let bound = self.bound_fields(context);
                    let way = self.reopen(walk.directories(), context, path, bound)?;
                    walk.reach(&way);
                }
                DirectoryCheck::FromBoundRoot => {
                    let bound = self.bound(context);
                    let way = self.reopen(walk.directories(), context, path, bound)?;
                    walk.reach(&way);
                }
            }
            for name in self.children(&directory.relative_path) {
                let named = match name_child(walk.protected_names(), &directory, &name)? {
                    Some(named) => named,
                    None => continue,
                };
                let path = named.path_bytes().clone();
                let child = see_child(&context, named, self.seen(&path), EUID)?;
                let seen = child.inspection();
                let held;
                let opening = if seen.identity.kind == NodeKind::Directory {
                    held = self.held(&path)?;
                    Some(Opening {
                        held: Ok(&held),
                        opened: self.seen(&path),
                        effective_uid: EUID,
                    })
                } else {
                    None
                };
                let admitted = open_child(&context, child, opening, false)?;
                let start = if proving {
                    inspect_content_for_schema(schema, walk.spent(), &seen, &path)?
                } else {
                    inspect_content_admission(walk.spent(), &seen, &path)?
                };
                let finding = self.find_out(start, schema, &path, !proving)?;
                walk.add_child(admitted, finding)?;
            }
            walk.end_directory()?;
        }
        Ok(())
    }

    fn last_look(
        &self,
        look: &mut LastLook,
        directories: &Vec<DirectoryEvidence>,
        context: TreeContext,
        schema: u16,
        limits: HeldTreeLimits,
        proving: bool,
    ) -> Result<(), HeldTreeError> {
        let path = look.path_bytes().clone();
        let recorded = look.recorded_file();
        let above = match path.iter().rposition(|byte| *byte == b'/') {
            Some(at) => path[..at].to_vec(),
            None => vec![],
        };
        self.reopen(directories, context, &above, self.bound_fields(context))?;
        look.see(self.seen(&path), EUID)?;
        look.open(Ok(BACKEND))?;
        for _ in 0..2 {
            let budget =
                XattrReadBudget::new(recorded.xattrs.value_bytes, limits.max_xattr_bytes);
            look.attributes(self.attributes(&path, schema, !proving, budget))?;
            look.see(self.seen(&path), EUID)?;
        }
        look.see(self.seen(&path), EUID)
    }

    fn last_looks(&self, walk: TreeWalk, proving: bool) -> Result<LastLooks, HeldTreeError> {
        let mut looks = LastLooks::begin(walk);
        while let Some(look) = looks.next_look() {
            let mut look = look?;
            let finished = looks.finished_walk();
            self.last_look(
                &mut look,
                finished.directories(),
                finished.context(),
                finished.manifest_schema(),
                finished.budget_limits(),
                proving,
            )?;
            looks.accept(look);
        }
        Ok(looks)
    }
}

fn request(policy: &[&[u8]], limits: HeldTreeLimits, manifest_schema: u16) -> WalkRequest {
    WalkRequest {
        root_name: b"root".to_vec(),
        protected_names: policy.iter().map(|name| name.to_vec()).collect(),
        limits,
        manifest_schema,
    }
}

fn collect_after(
    disk: &mut Disk,
    request: WalkRequest,
    before_last_looks: impl FnOnce(&mut Disk),
) -> Result<HeldTreeInventory, HeldTreeError> {
    let parent = disk.parent();
    let schema = request.manifest_schema;
    let held = disk.held(b"")?;
    let mut walk = begin_collection(
        request,
        &parent,
        RootProbe {
            parent: disk.parent_probe(),
            seen: disk.seen(b""),
            opening: Opening {
                held: Ok(&held),
                opened: disk.seen(b""),
                effective_uid: EUID,
            },
            effective_uid: EUID,
        },
    )?;
    disk.walk(&mut walk, true)?;
    if schema == NAMES_ONLY_VERSION {
        return HeldTreeInventory::from_names_only_walk(
            walk,
            &parent,
            disk.parent_probe(),
            disk.seen(b""),
        );
    }
    let walk = walk.finish(
        &parent,
        ParentAdmission::CurrentExclusive,
        disk.parent_probe(),
        disk.seen(b""),
    )?;
    before_last_looks(disk);
    let looked_over = disk.last_looks(walk, true)?.finish()?;
    HeldTreeInventory::from_proven_walk(looked_over)
}

fn collect_for_schema(
    disk: &mut Disk,
    policy: &[&[u8]],
    limits: HeldTreeLimits,
    schema: u16,
) -> Result<HeldTreeInventory, HeldTreeError> {
    collect_after(disk, request(policy, limits, schema), |_| ())
}

fn collect(
    disk: &mut Disk,
    policy: &[&[u8]],
    limits: HeldTreeLimits,
) -> Result<HeldTreeInventory, HeldTreeError> {
    collect_for_schema(disk, policy, limits, CONTENT_PROOF_VERSION)
}

fn assess(
    disk: &Disk,
    policy: &[&[u8]],
    limits: HeldTreeLimits,
) -> Result<HeldTreeAdmissionAssessment, HeldTreeError> {
    let parent = disk.parent();
    let request = request(policy, limits, CONTENT_PROOF_VERSION);
    let (admission, seal) = match begin_tree_admission(&request, &parent)? {
        AdmissionStart::Deferred(assessment) => return Ok(assessment),
        AdmissionStart::Walk { admission, seal } => (admission, seal),
    };
    let held = disk.held(b"")?;
    let mut walk = TreeWalk::begin(
        request,
        &parent,
        admission,
        RootProbe {
            parent: disk.parent_probe(),
            seen: disk.seen(b""),
            opening: Opening {
                held: Ok(&held),
                opened: disk.seen(b""),
                effective_uid: EUID,
            },
            effective_uid: EUID,
        },
        FoundContent::Assessed(None),
    )?;
    disk.walk(&mut walk, false)?;
    let walk = walk.finish(&parent, admission, disk.parent_probe(), disk.seen(b""))?;
    let looked_over = disk.last_looks(walk, false)?.finish()?;
    Ok(assessed_tree(
        looked_over,
        seal,
        UnixTime {
            seconds: 100,
            nanoseconds: 5,
        },
    ))
}

fn unwrap_tree_assessment(
    assessment: HeldTreeAdmissionAssessment,
) -> (HeldTreePolicyAssessment, SourceParentSealProjection) {
    match assessment {
        HeldTreeAdmissionAssessment::TreePolicyAssessed {
            tree,
            source_parent_seal,
        } => (tree, source_parent_seal),
        HeldTreeAdmissionAssessment::TreePolicyDeferredUntilSourceParentSeal {
            reason, ..
        } => {
            panic!("tree policy assessment unexpectedly deferred: {reason:?}")
        }
    }
}

fn reopen_directory(
    disk: &Disk,
    tree: &HeldTreeInventory,
    path: &[u8],
) -> Result<Reopening, HeldTreeError> {
    disk.reopen(tree.directories(), tree.context(), path, disk.bound(tree.context()))
}

fn rewalk_structure(disk: &Disk, tree: &HeldTreeInventory) -> Result<(), HeldTreeError> {
    let context = tree.context();
    let root = reopen_directory(disk, tree, b"").and_then(|_| disk.seen(b""));
    let mut rewalk = StructureRewalk::begin(tree, disk.bound(context), root)?;
    while let Some(index) = rewalk.next_directory() {
        let directory = &tree.directories()[index];
        rewalk.reach(&reopen_directory(disk, tree, &directory.relative_path)?);
        for name in disk.children(&directory.relative_path) {
            let named = match name_child(tree.protected_names(), directory, &name)? {
                Some(named) => named,
                None => continue,
            };
            let path = named.path_bytes().clone();
            let child = see_child(&context, named, disk.seen(&path), EUID)?;
            let seen = child.inspection();
            let link = if rewalk.reads_target(&seen) {
                let reading = LinkReading::begin(rewalk.spent(), &seen, &path, false);
                Some(disk.link(&path, reading)?)
            } else {
                None
            };
            rewalk.add_child(child, link)?;
        }
        rewalk.end_directory();
    }
    rewalk.finish(disk.bound(context))
}

fn rewalk_exact(disk: &mut Disk, tree: &HeldTreeInventory) -> Result<(), HeldTreeError> {
    let protected: Vec<&[u8]> = tree
        .protected_names()
        .iter()
        .map(|name| name.as_slice())
        .collect();
    let again = collect_for_schema(disk, &protected, tree.limits(), tree.manifest_schema())?;
    let expected: BTreeMap<&[u8], &ManifestEntry> = tree
        .manifest()
        .iter()
        .map(|entry| (entry.path.as_slice(), entry))
        .collect();
    let found: BTreeMap<&[u8], &ManifestEntry> = again
        .manifest()
        .iter()
        .map(|entry| (entry.path.as_slice(), entry))
        .collect();
    for path in found.keys() {
        if !expected.contains_key(path) {
            return Err(HeldTreeError::PostAdded(path.to_vec()));
        }
    }
    for (path, entry) in expected {
        match found.get(path) {
            None => return Err(HeldTreeError::PostRemoved(path.to_vec())),
            Some(other) if *other != entry => {
                return Err(HeldTreeError::PostChanged(path.to_vec()))
            }
            Some(_) => {}
        }
    }
    Ok(())
}

#[test]
fn every_traversal_rejects_an_explicit_1024_directory_request() {
    let mut temp = setup_tree();
    let limits = HeldTreeLimits {
        max_directories: HARD_DIRECTORY_CAP,
        ..HeldTreeLimits::default()
    };
    let v2 = collect(&mut temp, &[], limits).unwrap_err();
    let assessment = assess(&temp, &[], limits).unwrap_err();
    let legacy = collect_for_schema(&mut temp, &[], limits, 1).unwrap_err();

    for error in [v2, assessment, legacy] {
        assert!(matches!(error, HeldTreeError::InvalidDirectoryLimit));
        assert_eq!(
            error.describe(""),
            "requested tree directory limit exceeds 1023 total directories (including the root)"
        );
    }
}

#[test]
fn production_boundary_is_1023_total_directories() {
    let mut temp = setup_tree();
    for index in 0..(MAX_TREE_DIRECTORIES - 3) {
        temp.nodes.insert(
            format!("boundary-{index:04}").into_bytes(),
            node(NodeKind::Directory, 100 + index, 0o755, b""),
        );
    }
    let inventory = collect(&mut temp, &[], HeldTreeLimits::default()).unwrap();
    assert_eq!(inventory.directories().len() as u64, MAX_TREE_DIRECTORIES);
    let (assessment, _) =
        unwrap_tree_assessment(assess(&temp, &[], HeldTreeLimits::default()).unwrap());
    assert_eq!(assessment.directories, MAX_TREE_DIRECTORIES);
    temp.nodes.insert(
        b"boundary-over-limit".to_vec(),
        node(NodeKind::Directory, 99, 0o755, b""),
    );
    for error in [
        collect(&mut temp, &[], HeldTreeLimits::default()).unwrap_err(),
        assess(&temp, &[], HeldTreeLimits::default()).unwrap_err(),
    ] {
        assert_eq!(
            error,
            HeldTreeError::Limit {
                kind: HeldTreeLimit::Directories,
                limit: MAX_TREE_DIRECTORIES,
            }
        );
    }
}

#[test]
fn metadata_only_tree_policy_matches_clean_v2_admission_without_claiming_seal_readiness() {
    let mut temp = setup_tree();
    let prove = collect(&mut temp, &[], HeldTreeLimits::default()).unwrap();
    let (tree, seal) =
        unwrap_tree_assessment(assess(&temp, &[], HeldTreeLimits::default()).unwrap());
    assert_eq!(tree.entries, prove.entry_count());
    assert_eq!(tree.directories, prove.directories().len() as u64);
    assert_eq!(seal.original_mode, 0o700);
    assert_eq!(seal.projected_mode, 0o700);
    assert_eq!(
        seal.validation,
        SourceParentSealValidation::RequiresExecutionValidation
    );
    assert!(tree.path_bytes > 0);
    assert!(tree.manifest_bytes > tree.path_bytes);
    assert_eq!(tree.content_bytes, 4); // "one" plus the one-byte symlink target.
}

#[test]
fn assessment_regular_files_remain_metadata_only_while_proving_reads_content() {
    let mut temp = setup_tree();
    unwrap_tree_assessment(assess(&temp, &[], HeldTreeLimits::default()).unwrap());
    assert_eq!(temp.content_read.get(), 0);

    let proved = collect(&mut temp, &[], HeldTreeLimits::default()).unwrap();
    assert_eq!(temp.content_read.get(), 3);
    assert_eq!(proved.entry_count(), 5);

    temp.content_read.set(0);
    rewalk_structure(&temp, &proved).unwrap();
    assert_eq!(temp.content_read.get(), 0);
}

#[test]
fn assessment_sizes_admitted_xattrs_without_reading_values() {
    let mut temp = setup_tree();
    temp.set_test_xattr(b"a/file", b"assessment-must-not-read");

    let (assessment, _) =
        unwrap_tree_assessment(assess(&temp, &[], HeldTreeLimits::default()).unwrap());
    assert_eq!(assessment.regular_xattrs.attributes, 1);
    assert_eq!(assessment.regular_xattrs.value_bytes, 24);
    assert_eq!(
        temp.values_read.get(),
        0,
        "assessment must use only bounded name enumeration and value sizing"
    );

    collect(&mut temp, &[], HeldTreeLimits::default()).unwrap();
    assert!(temp.values_read.get() >= 24);
}

#[test]
fn admitted_xattr_sizes_use_an_independent_aggregate_budget() {
    let mut temp = setup_tree();
    temp.set_test_xattr(b"a/file", b"x");
    let admitted = HeldTreeLimits {
        // The regular file and symlink consume four payload bytes. The
        // admitted one-byte xattr is accounted separately.
        max_content_bytes: Some(4),
        max_xattr_bytes: 1,
        ..HeldTreeLimits::default()
    };
    collect(&mut temp, &[], admitted).unwrap();
    let (assessment, _) = unwrap_tree_assessment(assess(&temp, &[], admitted).unwrap());
    assert_eq!(assessment.content_bytes, 5);
    assert_eq!(assessment.regular_xattrs.value_bytes, 1);

    let rejected = HeldTreeLimits {
        max_content_bytes: Some(4),
        max_xattr_bytes: 0,
        ..HeldTreeLimits::default()
    };
    for result in [
        collect(&mut temp, &[], rejected).map(|_| ()),
        assess(&temp, &[], rejected).map(|_| ()),
    ] {
        assert!(matches!(
            result,
            Err(HeldTreeError::Limit {
                kind: HeldTreeLimit::ContentBytes,
                limit: 0,
            })
        ));
    }
}

#[test]
fn proving_manifest_is_stable_across_bounded_assessment() {
    let mut temp = setup_tree();
    let baseline = collect(&mut temp, &[], HeldTreeLimits::default()).unwrap();
    let baseline_fingerprint = baseline.fingerprint();
    drop(baseline);

    unwrap_tree_assessment(assess(&temp, &[], HeldTreeLimits::default()).unwrap());
    let proved = collect(&mut temp, &[], HeldTreeLimits::default()).unwrap();
    assert_eq!(proved.fingerprint(), baseline_fingerprint);
    assert_eq!(proved.directories().len(), 3);
}

#[test]
fn assessment_and_prove_share_ordinary_xattr_admission() {
    let mut temp = setup_tree();
    temp.set_test_xattr(b"a/file", b"x");
    let inventory = collect(&mut temp, &[], HeldTreeLimits::default()).unwrap();
    let (assessment, _) =
        unwrap_tree_assessment(assess(&temp, &[], HeldTreeLimits::default()).unwrap());
    assert_eq!(
        inventory.regular_xattr_topology(),
        assessment.regular_xattrs
    );
    assert!(assessment.regular_xattrs.contains_xattrs());
}

#[test]
fn synthetic_owner_and_mount_reasons_remain_the_shared_traversal_errors() {
    let temp = setup_tree();
    let held = temp.parent();
    let mut inspected = temp.seen(b"").unwrap();
    inspected.uid = inspected.uid.saturating_add(1);
    assert!(matches!(
        require_owner(b"fixture", inspected.uid, held.effective_uid()),
        Err(HeldTreeError::ForeignOwner(path)) if path == b"fixture"
    ));
    inspected.uid = held.effective_uid();
    inspected.mount_id = inspected.mount_id.saturating_add(1);
    assert!(matches!(
        require_boundary(b"fixture", held.backend(), held.mount_id(), &inspected),
        Err(HeldTreeError::BackendBoundary(path)) if path == b"fixture"
    ));
}

#[test]
fn bounded_collect_records_every_directory_and_exact_rewalks() {
    let mut temp = setup_tree();
    let tree = collect(&mut temp, &[], HeldTreeLimits::default()).unwrap();
    assert_eq!(tree.entry_count(), 5);
    let order = tree.directories_deepest_first();
    assert_eq!(
        order
            .iter()
            .map(|entry| entry.relative_path.as_slice())
            .collect::<Vec<_>>(),
        [b"a/b".as_slice(), b"a", b""]
    );
    assert_eq!(
        order.iter().map(|entry| entry.depth).collect::<Vec<_>>(),
        [2, 1, 0]
    );
    rewalk_structure(&temp, &tree).unwrap();
    rewalk_exact(&mut temp, &tree).unwrap();
}

#[test]
fn directory_evidence_is_descriptor_free_data_and_clean_rewalk_succeeds() {
    fn assert_data_only<T: Send + Sync + Eq + std::fmt::Debug>() {}
    assert_data_only::<DirectoryEvidence>();
    assert_data_only::<StructureEvidence>();

    let mut temp = setup_tree();
    let tree = collect(&mut temp, &[], HeldTreeLimits::default()).unwrap();
    rewalk_structure(&temp, &tree).unwrap();
    rewalk_exact(&mut temp, &tree).unwrap();
}

#[test]
fn directory_evidence_index_rejects_duplicate_paths() {
    let mut temp = setup_tree();
    let tree = collect(&mut temp, &[], HeldTreeLimits::default()).unwrap();
    let mut directories = tree.directories().clone();
    let a = directories
        .iter()
        .position(|directory| directory.relative_path == b"a")
        .unwrap();
    let ab = directories
        .iter()
        .position(|directory| directory.relative_path == b"a/b")
        .unwrap();
    directories[ab].relative_path = b"a".to_vec();
    directories[ab].depth = directories[a].depth;
    assert!(matches!(
        build_directory_index(&directories),
        Err(HeldTreeError::IdentityChanged(path)) if path == b"a"
    ));
}

#[test]
fn confined_reopener_rejects_every_non_normal_relative_form() {
    let mut temp = setup_tree();
    let tree = collect(&mut temp, &[], HeldTreeLimits::default()).unwrap();
    for invalid in ["../a", "/a", "./a", "a/../b", "a/./b", "a//b", "a/"] {
        assert!(matches!(
            reopen_directory(&temp, &tree, invalid.as_bytes()),
            Err(HeldTreeError::InvalidDirectoryPath(path)) if path == invalid.as_bytes()
        ));
    }
    assert!(reopen_directory(&temp, &tree, b"").is_ok());
    assert!(reopen_directory(&temp, &tree, b"a/b").is_ok());
}

#[test]
fn confined_reopener_compares_the_recorded_strong_incarnation() {
    let mut temp = setup_tree();
    let tree = collect(&mut temp, &[], HeldTreeLimits::default()).unwrap();
    let mut directories = tree.directories().clone();
    let directory = directories
        .iter_mut()
        .find(|directory| directory.relative_path == b"a")
        .unwrap();
    directory.identity.incarnation ^= 1;
    assert!(matches!(
        temp.reopen(&directories, tree.context(), b"a", Ok(())),
        Err(HeldTreeError::IdentityChanged(path)) if path == b"a"
    ));
}

#[test]
fn ordinary_regular_xattrs_use_v3_while_v2_rejects_and_directory_xattrs_remain_out_of_scope() {
    let mut temp = setup_tree();
    temp.set_test_xattr(b"a/file", b"x");
    let tree = collect(&mut temp, &[], HeldTreeLimits::default()).unwrap();
    assert_eq!(tree.fingerprint().schema_version, CONTENT_PROOF_VERSION);
    assert_eq!(
        tree.regular_xattr_topology(),
        RegularXattrTopology {
            entries: 1,
            attributes: 1,
            value_bytes: 1,
        }
    );
    rewalk_exact(&mut temp, &tree).unwrap();

    let legacy = collect_for_schema(
        &mut temp,
        &[],
        HeldTreeLimits::default(),
        LEGACY_CONTENT_PROOF_VERSION,
    );
    assert!(matches!(
        legacy,
        Err(HeldTreeError::NonDirectoryExtendedMetadata(path)) if path == b"a/file"
    ));

    let mut temp = setup_tree();
    temp.set_test_xattr(b"a", b"x");
    let tree = collect(&mut temp, &[], HeldTreeLimits::default()).unwrap();
    assert!(!tree.regular_xattr_topology().contains_xattrs());
    rewalk_exact(&mut temp, &tree).unwrap();
}

#[test]
fn ordinary_regular_xattr_value_drift_breaks_structure_and_exact_rewalks() {
    let mut temp = setup_tree();
    temp.set_test_xattr(b"a/file", b"x");
    let tree = collect(&mut temp, &[], HeldTreeLimits::default()).unwrap();
    temp.set_test_xattr(b"a/file", b"y");
    assert!(matches!(
        rewalk_structure(&temp, &tree),
        Err(HeldTreeError::PostChanged(path)) if path == b"a/file"
    ));
    assert!(matches!(
        rewalk_exact(&mut temp, &tree),
        Err(HeldTreeError::PostChanged(path) | HeldTreeError::XattrsChangedDuringProof(path))
            if path == b"a/file"
    ));
}

#[test]
fn special_files_remain_unsupported() {
    let mut temp = setup_tree();
    temp.nodes.insert(
        b"a/fifo".to_vec(),
        node(NodeKind::Other, 9, 0o600, b""),
    );
    assert!(matches!(
        collect(&mut temp, &[], HeldTreeLimits::default()),
        Err(HeldTreeError::UnsupportedContentProof(path)) if path == b"a/fifo"
    ));
}

#[test]
fn ordinary_xattr_drift_before_final_regular_reobservation_fails_closed() {
    let mut temp = setup_tree();
    temp.set_test_xattr(b"a/file", b"x");
    let fired = Cell::new(false);
    let result = collect_after(
        &mut temp,
        request(&[], HeldTreeLimits::default(), CONTENT_PROOF_VERSION),
        |disk| {
            disk.set_test_xattr(b"a/file", b"changed-after-proof");
            fired.set(true);
        },
    );
    assert!(fired.get(), "final re-observation hook did not fire");
    assert!(matches!(
        result,
        Err(HeldTreeError::ContentChangedDuringHash(_))
            | Err(HeldTreeError::XattrsChangedDuringProof(_))
    ));
}

#[test]
fn content_hashing_is_aggregate_bounded() {
    let mut temp = setup_tree();
    assert!(matches!(
        collect(
            &mut temp,
            &[],
            HeldTreeLimits {
                max_content_bytes: Some(2),
                ..HeldTreeLimits::default()
            },
        ),
        Err(HeldTreeError::Limit {
            kind: HeldTreeLimit::ContentBytes,
            ..
        })
    ));
}

#[test]
fn collect_enforces_directory_depth_path_and_manifest_bounds() {
    for (limits, expected) in [
        (
            HeldTreeLimits {
                max_directories: 1,
                ..HeldTreeLimits::default()
            },
            HeldTreeLimit::Directories,
        ),
        (
            HeldTreeLimits {
                max_depth: 0,
                ..HeldTreeLimits::default()
            },
            HeldTreeLimit::Depth,
        ),
        (
            HeldTreeLimits {
                max_path_bytes: 1,
                ..HeldTreeLimits::default()
            },
            HeldTreeLimit::PathBytes,
        ),
        (
            HeldTreeLimits {
                max_manifest_bytes: std::mem::size_of::<ManifestEntry>() as u64,
                ..HeldTreeLimits::default()
            },
            HeldTreeLimit::ManifestBytes,
        ),
    ] {
        let mut temp = setup_tree();
        assert!(matches!(
            collect(&mut temp, &[], limits),
            Err(HeldTreeError::Limit { kind, .. }) if kind == expected
        ));
    }
}

#[test]
fn a_second_walk_sees_what_was_added_removed_replaced_or_changed() {
    let mut temp = setup_tree();
    let tree = collect(&mut temp, &[], HeldTreeLimits::default()).unwrap();
    let baseline = temp.nodes.clone();
    temp.nodes
        .insert(b"added".to_vec(), node(NodeKind::Regular, 9, 0o644, b"new"));
    assert_eq!(
        rewalk_structure(&temp, &tree),
        Err(HeldTreeError::PostAdded(b"added".to_vec()))
    );
    temp.nodes = baseline.clone();
    temp.nodes.remove(b"a/file".as_slice());
    assert_eq!(
        rewalk_structure(&temp, &tree),
        Err(HeldTreeError::PostRemoved(b"a/file".to_vec()))
    );
    temp.nodes = baseline.clone();
    temp.at(b"a/file").seen.identity.incarnation += 1;
    assert_eq!(
        rewalk_structure(&temp, &tree),
        Err(HeldTreeError::PostChanged(b"a/file".to_vec()))
    );
    temp.nodes = baseline.clone();
    temp.at(b"link").content = b"x".to_vec();
    assert_eq!(
        rewalk_structure(&temp, &tree),
        Err(HeldTreeError::PostChanged(b"link".to_vec()))
    );
    temp.nodes = baseline.clone();
    temp.at(b"a/b").seen.mode = 0o700;
    assert_eq!(
        rewalk_structure(&temp, &tree),
        Err(HeldTreeError::IdentityChanged(b"a/b".to_vec()))
    );
    temp.nodes = baseline;
    temp.at(b"").seen.identity.incarnation += 1;
    assert_eq!(
        rewalk_structure(&temp, &tree),
        Err(HeldTreeError::RootBindingChanged)
    );
}

#[test]
fn a_policy_is_accepted_once_and_holds_for_every_walk() {
    let mut temp = setup_tree();
    let tree = collect(&mut temp, &[b".secret"], HeldTreeLimits::default()).unwrap();
    temp.nodes.insert(
        b".secret".to_vec(),
        node(NodeKind::Directory, 9, 0o755, b""),
    );
    assert_eq!(
        rewalk_structure(&temp, &tree),
        Err(HeldTreeError::ProtectedName(b".secret".to_vec()))
    );
    assert_eq!(
        collect(&mut temp, &[b"root"], HeldTreeLimits::default()).err(),
        Some(HeldTreeError::ProtectedName(vec![]))
    );
}

#[test]
fn a_parent_has_to_be_exclusive_or_sealable() {
    let mut temp = setup_tree();
    temp.parent_mode = 0o777;
    assert_eq!(
        collect(&mut temp, &[], HeldTreeLimits::default()).err(),
        Some(HeldTreeError::ParentNotExclusive)
    );
    let (_, seal) =
        unwrap_tree_assessment(assess(&temp, &[], HeldTreeLimits::default()).unwrap());
    assert_eq!(seal.original_mode, 0o777);
    assert_eq!(seal.projected_mode, 0o755);
    temp.parent_mode = 0o600;
    assert!(matches!(
        assess(&temp, &[], HeldTreeLimits::default()),
        Ok(
            HeldTreeAdmissionAssessment::TreePolicyDeferredUntilSourceParentSeal {
                reason: TreePolicyDeferralReason::SourceParentSearchRequiresExecutionSeal,
                ..
            }
        )
    ));
}

#[test]
fn names_alone_are_kept_under_the_first_schema() {
    let mut temp = setup_tree();
    temp.at(b"a/file").seen.nlink = 2;
    let legacy =
        collect_for_schema(&mut temp, &[], HeldTreeLimits::default(), 1).unwrap();
    assert_eq!(
        legacy.fingerprint_for_schema(1).unwrap().schema_version,
        1
    );
    assert!(legacy.fingerprint_for_schema(2).is_none());
    rewalk_exact(&mut temp, &legacy).unwrap();
    assert_eq!(
        collect(&mut temp, &[], HeldTreeLimits::default()).err(),
        Some(HeldTreeError::ExternalOrUnenumeratedHardLink(
            b"a/file".to_vec()
        ))
    );
    let mut alias = temp.nodes[b"a/file".as_slice()].clone();
    alias.seen.nlink = 2;
    temp.nodes.insert(b"a/hardlink".to_vec(), alias);
    let linked = collect(&mut temp, &[], HeldTreeLimits::default()).unwrap();
    assert_eq!(linked.regular_hard_link_topology().multi_link_groups, 1);
    assert_eq!(linked.regular_hard_link_topology().linked_entries, 2);
}

#[test]
fn directories_are_sealed_from_the_deepest_and_expected_as_sealed() {
    let mut temp = setup_tree();
    for path in [b"".as_slice(), b"a", b"a/b"] {
        temp.at(path).seen.mode = 0o775;
    }
    let tree = collect(&mut temp, &[], HeldTreeLimits::default()).unwrap();
    let unsealed = tree.fingerprint();
    let mut sealing = TreeSealing::begin(tree, 40);
    let mut order = Vec::new();
    while let Some(step) = sealing.next_step() {
        temp.at(&step.relative_path).seen.mode = 0o755;
        order.push((step.relative_path, step.mutation_id, step.is_root));
        sealing
            .record(SealResult::Applied { applied_mode: 0o755 })
            .unwrap();
    }
    assert_eq!(
        order,
        vec![
            (b"a/b".to_vec(), 40, false),
            (b"a".to_vec(), 41, false),
            (b"".to_vec(), 42, true),
        ]
    );
    let (sealed, next) = sealing.finish();
    assert_eq!(next, 43);
    let mut modes = DirectoryModes::new();
    for path in [b"".as_slice(), b"a", b"a/b"] {
        modes.insert(path.to_vec(), 0o755);
    }
    let with_modes = sealed.fingerprint_with_directory_modes(&modes).unwrap();
    assert_ne!(with_modes, unsealed);
    let expectation = sealed.into_post_seal_expectation().unwrap();
    assert_eq!(expectation.fingerprint, with_modes);
    let again = collect(&mut temp, &[], HeldTreeLimits::default()).unwrap();
    assert_eq!(again.fingerprint(), with_modes);
}

#[test]
fn a_tree_is_purged_entry_by_entry() {
    let mut temp = setup_tree();
    let tree = collect(&mut temp, &[], HeldTreeLimits::default()).unwrap();
    let mut purge = TreePurge::begin(&tree, temp.bound(tree.context())).unwrap();
    let mut removed = Vec::new();
    while let Some(target) = purge.next_target() {
        let seen = purge.see(temp.seen(&target.path), EUID).unwrap();
        let start = inspect_content_at(purge.spent(), &seen, &target.path).unwrap();
        let finding = temp
            .find_out(start, tree.manifest_schema(), &target.path, false)
            .unwrap();
        purge.confirm(finding).unwrap();
        assert_eq!(
            target.is_directory,
            seen.identity.kind == NodeKind::Directory
        );
        assert!(temp.children(&target.path).len() == 2);
        temp.nodes.remove(&target.path);
        removed.push(target.path);
        purge.removed().unwrap();
    }
    purge.confirm_root(temp.seen(b""), temp.seen(b"")).unwrap();
    assert_eq!(purge.finish(), Ok(5));
    assert_eq!(removed.len(), 4);
    assert_eq!(temp.nodes.len(), 1);
}

#[test]
fn a_changed_entry_stops_a_purge() {
    let mut temp = setup_tree();
    let tree = collect(&mut temp, &[], HeldTreeLimits::default()).unwrap();
    for byte in &mut temp.nodes.get_mut(b"a/file".as_slice()).unwrap().content {
        *byte ^= 1;
    }
    let mut purge = TreePurge::begin(&tree, temp.bound(tree.context())).unwrap();
    loop {
        let target = purge.next_target().unwrap();
        let seen = purge.see(temp.seen(&target.path), EUID).unwrap();
        let start = inspect_content_at(purge.spent(), &seen, &target.path).unwrap();
        let finding = temp
            .find_out(start, tree.manifest_schema(), &target.path, false)
            .unwrap();
        let outcome = purge.confirm(finding);
        if target.path == b"a/file" {
            let changed = HeldTreeError::IdentityChanged(b"a/file".to_vec());
            assert_eq!(outcome, Err(changed));
            return;
        }
        outcome.unwrap();
        temp.nodes.remove(&target.path);
        purge.removed().unwrap();
    }
}

#[test]
fn a_purge_asks_anew_who_the_process_acts_for() {
    let mut temp = setup_tree();
    let tree = collect(&mut temp, &[], HeldTreeLimits::default()).unwrap();
    let mut purge = TreePurge::begin(&tree, temp.bound(tree.context())).unwrap();
    let target = purge.next_target().unwrap();
    assert!(purge.see(temp.seen(&target.path), EUID + 1).is_err());
    assert!(purge.see(temp.seen(&target.path), EUID).is_ok());
}

#[test]
fn a_tree_whose_root_moved_is_not_purged() {
    let mut temp = setup_tree();
    let tree = collect(&mut temp, &[], HeldTreeLimits::default()).unwrap();
    let moved = Err(HeldTreeError::RootBindingChanged);
    assert_eq!(
        TreePurge::begin(&tree, moved).err(),
        Some(HeldTreeError::RootBindingChanged)
    );
}

#[test]
fn an_inventory_of_names_is_not_purged() {
    let mut temp = setup_tree();
    let limits = HeldTreeLimits::default();
    let tree = collect_for_schema(&mut temp, &[], limits, NAMES_ONLY_VERSION).unwrap();
    let mut purge = TreePurge::begin(&tree, temp.bound(tree.context())).unwrap();
    let target = purge.next_target().unwrap();
    let seen = purge.see(temp.seen(&target.path), EUID).unwrap();
    let start = inspect_content_at(purge.spent(), &seen, &target.path).unwrap();
    match temp.find_out(start, NAMES_ONLY_VERSION, &target.path, false) {
        Ok(finding) => {
            let refused = HeldTreeError::IdentityChanged(target.path);
            assert_eq!(purge.confirm(finding), Err(refused));
        }
        Err(error) => {
            let refused = HeldTreeError::UnsupportedContentProof(target.path);
            assert_eq!(error, refused);
        }
    }
}

#[test]
fn content_is_counted_before_a_file_is_opened() {
    let mut temp = setup_tree();
    let limits = HeldTreeLimits {
        max_content_bytes: Some(0),
        ..HeldTreeLimits::default()
    };
    let refused = Some(HeldTreeError::Limit {
        kind: HeldTreeLimit::ContentBytes,
        limit: 0,
    });
    assert_eq!(collect(&mut temp, &[], limits).err(), refused);
    assert_eq!(temp.content_read.get(), 0);
}

#[test]
fn a_link_is_admitted_before_between_and_after_it_is_read() {
    let mut temp = setup_tree();
    let tree = collect(&mut temp, &[], HeldTreeLimits::default()).unwrap();
    let seen = temp.seen(b"link").unwrap();
    let budget = TreePurge::begin(&tree, Ok(())).unwrap().spent();
    let mut reading = LinkReading::begin(budget, &seen, b"link", false);
    let mut stages = Vec::new();
    loop {
        stages.push(reading.stage());
        match reading.stage() {
            LinkStage::Admit | LinkStage::AdmitAgain | LinkStage::AdmitLast => reading
                .take_attributes(Ok(CollectedXattrs::Names(Vec::new())), XattrPlatform::Linux)
                .unwrap(),
            LinkStage::Read | LinkStage::ReadAgain => reading.read(Ok(b"/".to_vec())).unwrap(),
            LinkStage::Look | LinkStage::LookAgain | LinkStage::LookLast => {
                reading.look(Ok(seen)).unwrap()
            }
            LinkStage::Done => break,
        }
    }
    assert_eq!(
        stages,
        [
            LinkStage::Admit,
            LinkStage::Read,
            LinkStage::Look,
            LinkStage::AdmitAgain,
            LinkStage::ReadAgain,
            LinkStage::LookAgain,
            LinkStage::AdmitLast,
            LinkStage::LookLast,
            LinkStage::Done,
        ]
    );
    let (proof, spent) = reading.finish().unwrap().into_proof();
    assert_eq!(
        proof,
        ContentProof::Symlink {
            target: b"/".to_vec()
        }
    );
    assert_eq!(spent.content_bytes, budget.content_bytes + 1);

    let mut refused = LinkReading::begin(budget, &seen, b"link", false);
    let unknown = Ok(CollectedXattrs::Unknown);
    assert_eq!(
        refused.take_attributes(unknown, XattrPlatform::Linux),
        Err(HeldTreeError::NonDirectoryMetadataUnavailable(
            b"link".to_vec()
        ))
    );
    assert_eq!(refused.stage(), LinkStage::Admit);
}

#[test]
fn a_seal_is_bound_to_its_place() {
    let mut temp = setup_tree();
    let tree = collect(&mut temp, &[], HeldTreeLimits::default()).unwrap();
    let mut sealing = TreeSealing::begin(tree, 7);
    let step = sealing.next_step().unwrap();
    let transaction = TransactionId([3; 16]);
    let request = step.request(transaction, b"/src", "fs");
    assert_eq!(request.transaction, transaction);
    assert_eq!(request.mutation_id, 7);
    assert_eq!(
        request.path,
        [b"/src/".as_slice(), step.relative_path.as_slice()].concat()
    );
    assert_eq!(request.filesystem_id, "fs");
    assert_eq!(request.incarnation, step.incarnation);
    assert!(!request.acquire_owner_write_search);
    let failure = SealResult::Failed(SealFailure::Execution("broken".to_string()));
    let error = sealing.record(failure).unwrap_err();
    let place = String::from_utf8(step.relative_path).unwrap();
    assert_eq!(
        error.describe(""),
        format!("held tree seal failed at {place}: broken")
    );
}

fn stream(disk: &Disk, request: WalkRequest) -> (PendingV3Inventory, Vec<Vec<u8>>) {
    let held = disk.held(b"").unwrap();
    let (mut walk, root) = ForwardWalk::begin(
        request,
        &disk.parent(),
        RootProbe {
            parent: disk.parent_probe(),
            seen: disk.seen(b""),
            opening: Opening {
                held: Ok(&held),
                opened: disk.seen(b""),
                effective_uid: EUID,
            },
            effective_uid: EUID,
        },
    )
    .unwrap();
    let mut records = vec![root];
    let mut levels = vec![disk.children(b"")];
    while let Some(directory) = walk.current_directory().cloned() {
        let names = levels.last_mut().unwrap();
        if names.is_empty() {
            walk.end_directory();
            levels.pop();
        } else {
            let name = names.remove(0);
            let context = walk.context();
            let named = match name_child(walk.protected_names(), &directory, &name).unwrap() {
                Some(named) => named,
                None => continue,
            };
            let path = named.path_bytes().clone();
            let child = see_child(&context, named, disk.seen(&path), EUID).unwrap();
            let seen = child.inspection();
            let held;
            let opening = if seen.identity.kind == NodeKind::Directory {
                held = disk.held(&path).unwrap();
                Some(Opening {
                    held: Ok(&held),
                    opened: disk.seen(&path),
                    effective_uid: EUID,
                })
            } else {
                None
            };
            let admitted = open_child(&context, child, opening, true).unwrap();
            let schema = CONTENT_PROOF_VERSION;
            let start = inspect_content_for_schema(schema, walk.spent(), &seen, &path).unwrap();
            let finding = disk.find_out(start, schema, &path, false).unwrap();
            records.push(walk.add_child(admitted, finding).unwrap());
            if seen.identity.kind == NodeKind::Directory {
                levels.push(disk.children(&path));
            }
        }
    }
    let pending = walk
        .finish(&disk.parent(), disk.parent_probe(), disk.seen(b""))
        .unwrap();
    (pending, records)
}

fn finalize(disk: &Disk, tree: &HeldTreeInventory) -> StreamedV3Inventory {
    let (pending, records) = stream(
        disk,
        request(&[], HeldTreeLimits::default(), CONTENT_PROOF_VERSION),
    );
    assert_eq!(pending.entry_count(), 5);
    assert_eq!(records.len(), 5);
    let mut ordered = tree.stream_manifest_v3_records().unwrap();
    let payload = ordered.concat();
    let mut unordered = records;
    ordered.sort();
    unordered.sort();
    assert_eq!(ordered, unordered);

    let mut decoder = ManifestV3Decoder::new(5).unwrap();
    let mut visited = Vec::new();
    decoder
        .push_segment_with(5, &payload, &mut visited)
        .unwrap();
    let manifest = decoder.finish().unwrap();
    let mut finalizer = pending.into_finalizer(manifest).unwrap();
    let mut fold = HardlinkTopologyFold::new();
    for record in &visited {
        if let Some(file) = finalizer.observe(record).unwrap() {
            let path = record.path.to_vec();
            let mut look = LastLook::begin(&path, file, finalizer.context()).unwrap();
            disk.last_look(
                &mut look,
                tree.directories(),
                finalizer.context(),
                CONTENT_PROOF_VERSION,
                HeldTreeLimits::default(),
                true,
            )
            .unwrap();
            assert_eq!(finalizer.pending_path(), Some(&path));
            let scratch = finalizer.accept_file(look).unwrap();
            assert_eq!(finalizer.pending_path(), None);
            fold.observe(decode_hardlink_scratch_record(&scratch).unwrap().unwrap())
                .unwrap();
        }
    }
    finalizer
        .finish(manifest, fold.finish().unwrap())
        .unwrap()
}

#[test]
fn a_streamed_inventory_is_the_resident_one() {
    let mut temp = setup_tree();
    temp.set_test_xattr(b"a/file", b"x");
    let tree = collect(&mut temp, &[], HeldTreeLimits::default()).unwrap();
    let streamed = finalize(&temp, &tree);
    assert_eq!(streamed.fingerprint(), tree.fingerprint());
    assert_eq!(
        streamed.regular_hard_link_topology(),
        tree.regular_hard_link_topology()
    );
    assert_eq!(
        streamed.regular_xattr_topology(),
        tree.regular_xattr_topology()
    );
    let expectation = tree.into_post_seal_expectation().unwrap();
    assert_eq!(
        expectation.verify(&streamed),
        Ok(streamed.fingerprint())
    );
    assert!(streamed
        .finish_streamed_structure_rewalk(
            &temp.parent(),
            temp.parent_probe(),
            temp.seen(b"")
        )
        .is_ok());
}

#[test]
fn the_structure_of_a_streamed_inventory_is_read_depth_first() {
    let mut temp = setup_tree();
    let tree = collect(&mut temp, &[], HeldTreeLimits::default()).unwrap();
    let streamed = finalize(&temp, &tree);
    let context = streamed.context();
    let (mut walk, root) = streamed
        .begin_structure(temp.bound(context), temp.seen(b""))
        .unwrap();
    let mut records = vec![root];
    let mut read = Vec::new();
    let mut levels = vec![temp.children(b"")];
    while let Some(directory) = walk.current_directory().cloned() {
        let names = levels.last_mut().unwrap();
        if names.is_empty() {
            read.push(directory.relative_path);
            walk.end_directory();
            levels.pop();
            continue;
        }
        let name = names.remove(0);
        let Some(named) = name_child(tree.protected_names(), &directory, &name).unwrap() else {
            continue;
        };
        let path = named.path_bytes().clone();
        let child = see_child(&context, named, temp.seen(&path), EUID).unwrap();
        let seen = child.inspection();
        let held;
        let opening = if seen.identity.kind == NodeKind::Directory {
            held = temp.held(&path).unwrap();
            Some(Opening {
                held: Ok(&held),
                opened: temp.seen(&path),
                effective_uid: EUID,
            })
        } else {
            None
        };
        let admitted = open_child(&context, child, opening, true).unwrap();
        let link = if seen.identity.kind == NodeKind::Symlink {
            let reading = LinkReading::begin(walk.spent(), &seen, &path, false);
            Some(temp.link(&path, reading).unwrap())
        } else {
            None
        };
        records.push(walk.add_child(admitted, link).unwrap());
        if seen.identity.kind == NodeKind::Directory {
            levels.push(temp.children(&path));
        }
    }
    assert_eq!(read, [b"a/b".to_vec(), b"a".to_vec(), vec![]]);
    let mut expected = Vec::new();
    for entry in tree.manifest() {
        let mut record = Vec::new();
        emit_structure_record(&entry.structure_evidence(), &mut record).unwrap();
        expected.push(record);
    }
    expected.sort();
    records.sort();
    assert_eq!(records, expected);
    assert_eq!(
        walk.finish(&temp.parent(), temp.parent_probe(), Err(io_error(b"", 2))),
        Err(HeldTreeError::RootBindingChanged)
    );
}

#[test]
fn a_walk_reads_every_directory_in_the_order_they_were_found() {
    let mut temp = setup_tree();
    let held = temp.held(b"").unwrap();
    let mut walk = begin_collection(
        request(&[], HeldTreeLimits::default(), CONTENT_PROOF_VERSION),
        &temp.parent(),
        RootProbe {
            parent: temp.parent_probe(),
            seen: temp.seen(b""),
            opening: Opening {
                held: Ok(&held),
                opened: temp.seen(b""),
                effective_uid: EUID,
            },
            effective_uid: EUID,
        },
    )
    .unwrap();
    assert_eq!(walk.next_directory(), Some(0));
    assert_eq!(walk.directory_check(), DirectoryCheck::Current);
    let mut other = temp.seen(b"").unwrap();
    other.gid ^= 1;
    assert_eq!(
        walk.reach_root(temp.acl(b""), Ok(other), EUID),
        Err(HeldTreeError::IdentityChanged(vec![]))
    );
    temp.walk(&mut walk, true).unwrap();
    assert_eq!(walk.next_directory(), None);
    let paths: Vec<&[u8]> = walk
        .directories()
        .iter()
        .map(|directory| directory.relative_path.as_slice())
        .collect();
    assert_eq!(paths, [b"".as_slice(), b"a", b"a/b"]);
}

#[test]
fn a_second_walk_needs_the_root_where_it_was() {
    let mut temp = setup_tree();
    let tree = collect(&mut temp, &[], HeldTreeLimits::default()).unwrap();
    let moved = || Err(HeldTreeError::RootBindingChanged);
    assert_eq!(
        StructureRewalk::begin(&tree, moved(), temp.seen(b"")).err(),
        moved().err()
    );
    let mut rewalk = StructureRewalk::begin(&tree, Ok(()), temp.seen(b"")).unwrap();
    assert_eq!(rewalk.next_directory(), Some(0));
    while let Some(index) = rewalk.next_directory() {
        let path = &tree.directories()[index].relative_path;
        rewalk.reach(&reopen_directory(&temp, &tree, path).unwrap());
        rewalk.end_directory();
    }
    assert_eq!(
        rewalk.finish(moved()),
        Err(HeldTreeError::PostRemoved(b"a".to_vec()))
    );
}
