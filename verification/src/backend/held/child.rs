//! How one entry of a directory is admitted to a walk.
//!
//! An entry passes three gates, in this order: its name, what is seen under the
//! name, and, for a directory, what is seen once it has been opened. Nothing is
//! opened before the gates before it have been passed.

use crate::backend::certify::CertifiedLocalBackend;
use crate::backend::evidence::EvidenceView;
use crate::backend::evidence::HeldLocalBackendEvidence;
use crate::backend::held::directories::held_directory;
use crate::backend::held::directories::DirectoryEvidence;
use crate::backend::held::directories::DirectoryView;
use crate::backend::held::error::refused_for;
use crate::backend::held::error::HeldTreeError;
use crate::backend::held::error::TreeFault;
use crate::backend::held::inspect::boundary_fault;
use crate::backend::held::inspect::identity_fault;
use crate::backend::held::inspect::input_fault;
use crate::backend::held::inspect::owner_fault;
use crate::backend::held::inspect::parent_fault;
use crate::backend::held::inspect::protection_fault;
use crate::backend::held::inspect::require_boundary;
use crate::backend::held::inspect::require_owner;
use crate::backend::held::inspect::require_parent_admission;
use crate::backend::held::inspect::require_same_identity;
use crate::backend::held::inspect::require_unprotected;
use crate::backend::held::inspect::validate_v2_inputs;
use crate::backend::held::inspect::Inspection;
use crate::backend::held::inspect::ParentAdmission;
use crate::backend::held::inspect::ParentProbe;
use crate::backend::held::limits::first_fault;
use crate::backend::held::limits::HeldTreeLimits;
use crate::backend::held::model::NodeIdentity;
use crate::backend::held::model::NodeKind;
use crate::bytes::to_vec;
use crate::paths::dot;
use crate::paths::dot_dot;
use crate::paths::join;
use crate::paths::joined;
use crate::paths::views;
use crate::paths::DOT;
use vstd::prelude::*;

verus! {

/// What a walk is confined to.
#[derive(Clone, Copy, Debug, PartialEq, Eq, Structural)]
pub struct TreeContext {
    pub root_identity: NodeIdentity,
    pub backend: CertifiedLocalBackend,
    pub mount_id: u64,
}

/// A failed call on an entry.
pub fn io_error(path: &[u8], errno: i32) -> (error: HeldTreeError)
    ensures
        error@ == (TreeFault::Io { path: path@, errno }),
{
    HeldTreeError::Io { path: to_vec(path), errno }
}

/// What is seen of a directory once it has been opened: what it was certified to
/// be, or why it was not, what the descriptor shows, and who the process acts
/// for then.
#[derive(Debug)]
pub struct Opening<'a> {
    pub held: Result<&'a HeldLocalBackendEvidence, HeldTreeError>,
    pub opened: Result<Inspection, HeldTreeError>,
    pub effective_uid: u32,
}

/// Why an opened directory is not the one that was seen. A strict walk asks in
/// addition that nothing at all changed in between.
pub open spec fn opening_fault(
    opening: Opening,
    seen: Inspection,
    path: Seq<u8>,
    backend: CertifiedLocalBackend,
    mount_id: u64,
    strict: bool,
) -> Option<TreeFault> {
    match (opening.held, opening.opened) {
        (Err(error), _) => Some(error@),
        (Ok(_), Err(error)) => Some(error@),
        (Ok(held), Ok(opened)) => first_fault(
            identity_fault(path, seen.identity, opened.identity),
            first_fault(
                owner_fault(path, opened.uid, opening.effective_uid),
                if strict {
                    first_fault(
                        boundary_fault(path, backend, mount_id, opened),
                        if seen == opened {
                            None
                        } else {
                            Some(TreeFault::IdentityChanged(path))
                        },
                    )
                } else if held@.snapshot.backend != backend || held@.snapshot.mount_id != mount_id {
                    Some(TreeFault::BackendBoundary(path))
                } else {
                    None
                },
            ),
        ),
    }
}

/// Requires that an opened directory is the one that was seen.
fn require_opening<'a>(
    opening: Opening<'a>,
    seen: &Inspection,
    path: &[u8],
    backend: CertifiedLocalBackend,
    mount_id: u64,
    strict: bool,
) -> (outcome: Result<(&'a HeldLocalBackendEvidence, Inspection), HeldTreeError>)
    ensures
        refused_for(
            outcome,
            opening_fault(opening, *seen, path@, backend, mount_id, strict),
        ),
        outcome matches Ok((held, opened)) ==> opening.held matches Ok(given) && given@ == held@
            && (opening.opened matches Ok(shown) && shown == opened),
{
    let effective_uid: u32 = opening.effective_uid;
    let held = opening.held?;
    let opened = opening.opened?;
    require_same_identity(path, seen.identity, opened.identity)?;
    require_owner(path, opened.uid, effective_uid)?;
    if strict {
        require_boundary(path, backend, mount_id, &opened)?;
        if !seen.stable_content_fields_equal(&opened) {
            return Err(HeldTreeError::IdentityChanged(to_vec(path)));
        }
    } else if held.backend() != backend || held.mount_id() != mount_id {
        return Err(HeldTreeError::BackendBoundary(to_vec(path)));
    }
    Ok((held, opened))
}

/// What a walk is asked for.
#[derive(Debug)]
pub struct WalkRequest {
    pub root_name: Vec<u8>,
    pub protected_names: Vec<Vec<u8>>,
    pub limits: HeldTreeLimits,
    pub manifest_schema: u16,
}

/// What is seen of the root: under its name, and once it has been opened.
#[derive(Debug)]
pub struct RootProbe<'a> {
    pub parent: ParentProbe,
    pub seen: Result<Inspection, HeldTreeError>,
    pub opening: Opening<'a>,
    pub effective_uid: u32,
}

/// Why the root of a tree is not admitted.
pub open spec fn root_fault(
    request: WalkRequest,
    parent: EvidenceView,
    admission: ParentAdmission,
    probe: RootProbe,
) -> Option<TreeFault> {
    let backend = parent.snapshot.backend;
    let mount_id = parent.snapshot.mount_id;
    first_fault(
        input_fault(request.root_name@, views(request.protected_names@), request.limits),
        first_fault(
            parent_fault(parent, backend, admission, probe.parent),
            match probe.seen {
                Err(error) => Some(error@),
                Ok(seen) => if seen.identity.kind != NodeKind::Directory {
                    Some(TreeFault::RootNotDirectory)
                } else {
                    first_fault(
                        owner_fault(Seq::empty(), seen.uid, probe.effective_uid),
                        first_fault(
                            boundary_fault(Seq::empty(), backend, mount_id, seen),
                            opening_fault(
                                probe.opening,
                                seen,
                                Seq::empty(),
                                backend,
                                mount_id,
                                false,
                            ),
                        ),
                    )
                },
            },
        ),
    )
}

/// The root of a tree, admitted.
pub struct AdmittedRoot {
    pub context: TreeContext,
    pub opened: Inspection,
    pub evidence: DirectoryEvidence,
}

/// The admitted root is what the probe saw.
pub open spec fn is_admitted_root(root: AdmittedRoot, parent: EvidenceView, probe: RootProbe)
    -> bool {
    probe.opening.held matches Ok(held) && (probe.opening.opened matches Ok(opened) && {
        &&& root.opened == opened
        &&& root.context == (TreeContext {
            root_identity: opened.identity,
            backend: parent.snapshot.backend,
            mount_id: held@.snapshot.mount_id,
        })
        &&& root.evidence@ == held_directory(held@, Seq::empty(), 0, opened.identity)
        &&& opened.identity.kind == NodeKind::Directory
        &&& opened.uid == probe.opening.effective_uid
        &&& held@.snapshot.backend == parent.snapshot.backend
        &&& held@.snapshot.mount_id == parent.snapshot.mount_id
    })
}

/// Admits the root of a tree.
pub fn admit_root<'a>(
    request: &WalkRequest,
    parent: &HeldLocalBackendEvidence,
    admission: ParentAdmission,
    probe: RootProbe<'a>,
) -> (root: Result<AdmittedRoot, HeldTreeError>)
    ensures
        refused_for(root, root_fault(*request, parent@, admission, probe)),
        root matches Ok(admitted) ==> is_admitted_root(admitted, parent@, probe),
{
    validate_v2_inputs(
        request.root_name.as_slice(),
        &request.protected_names,
        request.limits,
    )?;
    let backend = parent.backend();
    let mount_id: u64 = parent.mount_id();
    require_parent_admission(parent, backend, admission, probe.parent)?;
    let path: Vec<u8> = Vec::new();
    assert(path@ =~= Seq::<u8>::empty());
    let seen = probe.seen?;
    if seen.identity.kind != NodeKind::Directory {
        return Err(HeldTreeError::RootNotDirectory);
    }
    require_owner(path.as_slice(), seen.uid, probe.effective_uid)?;
    require_boundary(path.as_slice(), backend, mount_id, &seen)?;
    let (held, opened) = require_opening(
        probe.opening,
        &seen,
        path.as_slice(),
        backend,
        mount_id,
        false,
    )?;
    Ok(
        AdmittedRoot {
            context: TreeContext {
                root_identity: opened.identity,
                backend,
                mount_id: held.mount_id(),
            },
            opened,
            evidence: DirectoryEvidence::of_held(held, path, 0, opened.identity),
        },
    )
}

/// The name stands for the directory itself or its parent.
pub open spec fn is_dot_name(name: Seq<u8>) -> bool {
    name == dot() || name == dot_dot()
}

/// Whether the name stands for the directory itself or its parent.
fn dot_name(name: &[u8]) -> (yes: bool)
    ensures
        yes == is_dot_name(name@),
{
    proof {
        assert(name@.len() == 1 && name@[0] == DOT ==> name@ =~= dot());
        assert(name@.len() == 2 && name@[0] == DOT && name@[1] == DOT ==> name@ =~= dot_dot());
    }
    (name.len() == 1 && name[0] == DOT) || (name.len() == 2 && name[0] == DOT && name[1] == DOT)
}

/// One level further down.
pub open spec fn level_below(depth: u32) -> u32 {
    if depth < u32::MAX {
        (depth + 1) as u32
    } else {
        depth
    }
}

/// An entry of a directory: under some name of it, and one level further down.
pub open spec fn lies_in(path: Seq<u8>, depth: u32, directory: DirectoryView) -> bool {
    &&& exists|name: Seq<u8>| path == #[trigger] joined(directory.path, name)
    &&& depth == level_below(directory.depth)
}

/// An entry whose name has passed.
#[derive(Debug)]
pub struct NamedChild {
    path: Vec<u8>,
    depth: u32,
}

impl NamedChild {
    /// Its path below the root.
    pub closed spec fn path(&self) -> Seq<u8> {
        self.path@
    }

    /// How deep it lies.
    pub closed spec fn depth(&self) -> u32 {
        self.depth
    }

    /// Its path below the root.
    pub fn path_bytes(&self) -> (path: &Vec<u8>)
        ensures
            path@ == self.path(),
    {
        &self.path
    }
}

/// Lets a name pass, unless it is protected. The names of the directory itself
/// and of its parent are no entries.
pub fn name_child(
    protected_names: &Vec<Vec<u8>>,
    directory: &DirectoryEvidence,
    name: &[u8],
) -> (child: Result<Option<NamedChild>, HeldTreeError>)
    ensures
        is_dot_name(name@) ==> (child matches Ok(None)),
        !is_dot_name(name@) ==> {
            let path = joined(directory@.path, name@);
            &&& refused_for(child, protection_fault(views(protected_names@), name@, path))
            &&& child matches Ok(found) ==> (found matches Some(named) && named.path() == path
                && named.depth() == level_below(directory@.depth))
        },
        views(protected_names@).contains(name@) && name@ != seq![0x2eu8] && name@ != seq![
            0x2eu8,
            0x2eu8,
        ] ==> child is Err,
        child matches Ok(Some(named)) ==> !views(protected_names@).contains(name@),
        child is Err ==> views(protected_names@).contains(name@),
        child matches Ok(Some(named)) ==> named.depth() > directory@.depth || directory@.depth
            == u32::MAX,
        child matches Ok(None) ==> name@ == seq![0x2eu8] || name@ == seq![0x2eu8, 0x2eu8],
{
    if dot_name(name) {
        return Ok(None);
    }
    let path = join(directory.relative_path.as_slice(), name);
    require_unprotected(protected_names, name, path.as_slice())?;
    Ok(Some(NamedChild { path, depth: directory.depth.saturating_add(1) }))
}

/// An entry that has been seen under its name.
#[derive(Debug)]
pub struct SeenChild {
    path: Vec<u8>,
    depth: u32,
    seen: Inspection,
}

impl SeenChild {
    /// Its path below the root.
    pub closed spec fn path(&self) -> Seq<u8> {
        self.path@
    }

    /// How deep it lies.
    pub closed spec fn depth(&self) -> u32 {
        self.depth
    }

    /// What was seen.
    pub closed spec fn seen(&self) -> Inspection {
        self.seen
    }

    /// Its path below the root.
    pub fn path_bytes(&self) -> (path: &Vec<u8>)
        ensures
            path@ == self.path(),
    {
        &self.path
    }

    /// What was seen.
    pub fn inspection(&self) -> (seen: Inspection)
        ensures
            seen == self.seen(),
    {
        self.seen
    }

    /// How deep it lies.
    pub fn level(&self) -> (depth: u32)
        ensures
            depth == self.depth(),
    {
        self.depth
    }
}

/// It lies on the tree's file system.
pub open spec fn belongs(seen: Inspection, context: TreeContext) -> bool {
    seen.backend == context.backend && seen.mount_id == context.mount_id
}

/// Why what is seen of an entry is not admitted.
pub open spec fn seen_fault(
    path: Seq<u8>,
    seen: Result<Inspection, HeldTreeError>,
    effective_uid: u32,
    context: TreeContext,
) -> Option<TreeFault> {
    match seen {
        Err(error) => Some(error@),
        Ok(seen) => first_fault(
            owner_fault(path, seen.uid, effective_uid),
            boundary_fault(path, context.backend, context.mount_id, seen),
        ),
    }
}

/// Lets an entry pass that belongs to the tree, and to whom the process acts for
/// when it is seen.
pub fn see_child(
    context: &TreeContext,
    child: NamedChild,
    seen: Result<Inspection, HeldTreeError>,
    effective_uid: u32,
) -> (admitted: Result<SeenChild, HeldTreeError>)
    ensures
        refused_for(admitted, seen_fault(child.path(), seen, effective_uid, *context)),
        admitted matches Ok(entry) ==> entry.path() == child.path() && entry.depth()
            == child.depth() && seen == Ok::<Inspection, HeldTreeError>(entry.seen()) && belongs(
            entry.seen(),
            *context,
        ) && entry.seen().uid == effective_uid,
{
    let seen = seen?;
    require_owner(child.path.as_slice(), seen.uid, effective_uid)?;
    require_boundary(child.path.as_slice(), context.backend, context.mount_id, &seen)?;
    Ok(SeenChild { path: child.path, depth: child.depth, seen })
}

/// An entry passes the second gate where it was seen, belongs to whom the process
/// acts for, and lies on the mount and the file system of the tree, and nowhere
/// else.
pub proof fn law_seen_entries_are_ours(
    path: Seq<u8>,
    seen: Result<Inspection, HeldTreeError>,
    effective_uid: u32,
    context: TreeContext,
)
    ensures
        seen_fault(path, seen, effective_uid, context) is None <==> (seen matches Ok(found)
            && found.uid == effective_uid && found.backend == context.backend && found.mount_id
            == context.mount_id),
{
}

/// A directory that was opened is the one that was seen, belongs to whom the
/// process acts for, and lies on the mount and the file system of the tree; in a
/// strict walk nothing at all that is seen of it differs.
pub proof fn law_opened_directories_are_the_seen_ones(
    opening: Opening,
    seen: Inspection,
    path: Seq<u8>,
    backend: CertifiedLocalBackend,
    mount_id: u64,
    strict: bool,
)
    ensures
        opening_fault(opening, seen, path, backend, mount_id, strict) is None <==> (
        opening.held matches Ok(held) && (opening.opened matches Ok(opened) && {
            &&& opened.identity.kind == seen.identity.kind
            &&& opened.identity.device == seen.identity.device
            &&& opened.identity.inode == seen.identity.inode
            &&& opened.identity.incarnation == seen.identity.incarnation
            &&& opened.uid == opening.effective_uid
            &&& if strict {
                opened == seen && opened.backend == backend && opened.mount_id == mount_id
            } else {
                held@.snapshot.backend == backend && held@.snapshot.mount_id == mount_id
            }
        })),
{
}

/// The root of a tree is a directory of whom the process acts for, on the mount
/// and the file system of its parent, under a name that is not protected, and is
/// once opened what it was seen to be.
pub proof fn law_roots_are_ours(
    request: WalkRequest,
    parent: EvidenceView,
    admission: ParentAdmission,
    probe: RootProbe,
)
    requires
        root_fault(request, parent, admission, probe) is None,
    ensures
        !views(request.protected_names@).contains(request.root_name@),
        request.limits.max_directories <= 1023,
        parent_fault(parent, parent.snapshot.backend, admission, probe.parent) is None,
        probe.seen matches Ok(seen) && seen.identity.kind == NodeKind::Directory && seen.uid
            == probe.effective_uid && seen.backend == parent.snapshot.backend && seen.mount_id
            == parent.snapshot.mount_id && (probe.opening.opened matches Ok(opened)
            && opened.identity == seen.identity && opened.uid == probe.opening.effective_uid),
{
}

/// An entry that has passed all gates.
#[derive(Debug)]
pub struct AdmittedChild {
    path: Vec<u8>,
    depth: u32,
    seen: Inspection,
    directory: Option<DirectoryEvidence>,
}

/// The content of an [`AdmittedChild`].
#[verifier::ext_equal]
pub struct ChildView {
    pub path: Seq<u8>,
    pub depth: u32,
    pub seen: Inspection,
    /// The evidence on a directory, for nothing else.
    pub directory: Option<DirectoryView>,
}

impl View for AdmittedChild {
    type V = ChildView;

    closed spec fn view(&self) -> ChildView {
        ChildView {
            path: self.path@,
            depth: self.depth,
            seen: self.seen,
            directory: match self.directory {
                Some(directory) => Some(directory@),
                None => None,
            },
        }
    }
}

/// The entry belongs to the tree, and it is a directory exactly where it has the
/// evidence of one.
pub open spec fn is_admitted(child: ChildView, context: TreeContext) -> bool {
    &&& belongs(child.seen, context)
    &&& child.directory is Some <==> child.seen.identity.kind == NodeKind::Directory
    &&& child.directory matches Some(directory) ==> directory.path == child.path && directory.depth
        == child.depth && directory.identity == child.seen.identity
}

/// Lets an entry pass: a directory once it has been opened, anything else as it
/// is.
pub fn open_child<'a>(
    context: &TreeContext,
    child: SeenChild,
    opening: Option<Opening<'a>>,
    strict: bool,
) -> (admitted: Result<AdmittedChild, HeldTreeError>)
    requires
        belongs(child.seen(), *context),
        opening is Some <==> child.seen().identity.kind == NodeKind::Directory,
    ensures
        refused_for(
            admitted,
            match opening {
                Some(opening) => opening_fault(
                    opening,
                    child.seen(),
                    child.path(),
                    context.backend,
                    context.mount_id,
                    strict,
                ),
                None => None,
            },
        ),
        admitted matches Ok(entry) ==> {
            &&& is_admitted(entry@, *context)
            &&& entry@.path == child.path()
            &&& entry@.depth == child.depth()
            &&& entry@.seen == child.seen()
            &&& opening matches Some(opened) ==> (opened.held matches Ok(held)
                && entry@.directory == Some(
                held_directory(held@, child.path(), child.depth(), child.seen().identity),
            ))
        },
{
    match opening {
        Some(opening) => {
            let (held, opened) = require_opening(
                opening,
                &child.seen,
                child.path.as_slice(),
                context.backend,
                context.mount_id,
                strict,
            )?;
            let directory = DirectoryEvidence::of_held(
                held,
                to_vec(child.path.as_slice()),
                child.depth,
                child.seen.identity,
            );
            Ok(
                AdmittedChild {
                    path: child.path,
                    depth: child.depth,
                    seen: child.seen,
                    directory: Some(directory),
                },
            )
        },
        None => Ok(
            AdmittedChild {
                path: child.path,
                depth: child.depth,
                seen: child.seen,
                directory: None,
            },
        ),
    }
}

impl AdmittedChild {
    /// Its path below the root.
    pub fn path_bytes(&self) -> (path: &Vec<u8>)
        ensures
            path@ == self@.path,
    {
        &self.path
    }

    /// How deep it lies.
    pub fn level(&self) -> (depth: u32)
        ensures
            depth == self@.depth,
    {
        self.depth
    }

    /// What was seen of it.
    pub fn inspection(&self) -> (seen: Inspection)
        ensures
            seen == self@.seen,
    {
        self.seen
    }

    /// Whether it is a directory.
    pub fn is_directory(&self) -> (yes: bool)
        ensures
            yes == (self@.directory is Some),
    {
        self.directory.is_some()
    }

    /// Its path and the evidence on it.
    pub fn into_parts(self) -> (parts: (Vec<u8>, Option<DirectoryEvidence>))
        ensures
            parts.0@ == self@.path,
            match parts.1 {
                Some(directory) => self@.directory == Some(directory@),
                None => self@.directory is None,
            },
    {
        (self.path, self.directory)
    }
}

/// What lies in a directory lies one level further down, as far as levels can be
/// counted, under the path of the directory.
pub proof fn law_entries_lie_one_level_down(path: Seq<u8>, depth: u32, directory: DirectoryView)
    requires
        lies_in(path, depth, directory),
    ensures
        directory.depth < u32::MAX ==> depth == directory.depth + 1,
        path.len() >= directory.path.len(),
        directory.path.len() > 0 ==> path.take(directory.path.len() as int) == directory.path
            && path[directory.path.len() as int] == 0x2f,
{
    let name = choose|name: Seq<u8>| path == #[trigger] joined(directory.path, name);
    if directory.path.len() > 0 {
        assert(path.take(directory.path.len() as int) =~= directory.path);
    }
}

/// An admitted entry is on the mount and the file system of the tree, and has the
/// evidence of a directory, under its own path and identity, exactly where it is
/// one.
pub proof fn law_admitted_entries_belong_to_the_tree(child: ChildView, context: TreeContext)
    ensures
        is_admitted(child, context) ==> {
            &&& child.seen.backend == context.backend
            &&& child.seen.mount_id == context.mount_id
            &&& child.directory is Some <==> child.seen.identity.kind == NodeKind::Directory
            &&& child.directory matches Some(directory) ==> directory.path == child.path
                && directory.identity == child.seen.identity && directory.depth == child.depth
        },
{
}

} // verus!
