//! The directories of a tree, and how one of them is reached again.
//!
//! No descriptor is kept for a directory below the root. What is kept is
//! evidence, and a directory is reached by opening its components one by one
//! from the root and holding each against its evidence.

use crate::backend::certify::acl_refusal;
use crate::backend::certify::require_acl_absent;
use crate::backend::certify::AclProbe;
use crate::backend::certify::CertificationError;
use crate::backend::certify::CertifiedLocalBackend;
use crate::backend::evidence::EvidenceView;
use crate::backend::evidence::HeldLocalBackendEvidence;
use crate::backend::held::error::refused_for;
use crate::backend::held::error::HeldTreeError;
use crate::backend::held::error::TreeFault;
use crate::backend::held::inspect::boundary_fault;
use crate::backend::held::inspect::identity_fault;
use crate::backend::held::inspect::owner_fault;
use crate::backend::held::inspect::require_boundary;
use crate::backend::held::inspect::require_owner;
use crate::backend::held::inspect::require_same_identity;
use crate::backend::held::inspect::Inspection;
use crate::backend::held::limits::first_fault;
use crate::backend::held::model::NodeIdentity;
use crate::bytes::bytes_equal;
use crate::bytes::to_vec;
use crate::paths::depth;
use crate::paths::is_canonical;
use crate::paths::is_normal_piece;
use crate::paths::join;
use crate::paths::joined;
use crate::paths::lemma_pieces_nonempty;
use crate::paths::piece_is_normal;
use crate::paths::pieces;
use crate::paths::split;
use crate::paths::views;
use crate::paths::SLASH;
use vstd::prelude::*;

verus! {

/// What is known of one directory of a tree. It names an object; it gives no
/// authority over it.
#[derive(Debug, PartialEq, Eq)]
pub struct DirectoryEvidence {
    pub relative_path: Vec<u8>,
    pub depth: u32,
    pub identity: NodeIdentity,
    pub owner_uid: u32,
    pub group_gid: u32,
    pub observed_mode: u32,
}

/// The content of a [`DirectoryEvidence`].
#[verifier::ext_equal]
pub struct DirectoryView {
    pub path: Seq<u8>,
    pub depth: u32,
    pub identity: NodeIdentity,
    pub owner_uid: u32,
    pub group_gid: u32,
    pub observed_mode: u32,
}

impl View for DirectoryEvidence {
    type V = DirectoryView;

    open spec fn view(&self) -> DirectoryView {
        DirectoryView {
            path: self.relative_path@,
            depth: self.depth,
            identity: self.identity,
            owner_uid: self.owner_uid,
            group_gid: self.group_gid,
            observed_mode: self.observed_mode,
        }
    }
}

impl Clone for DirectoryEvidence {
    fn clone(&self) -> (copy: Self)
        ensures
            copy@ == self@,
    {
        DirectoryEvidence {
            relative_path: to_vec(self.relative_path.as_slice()),
            depth: self.depth,
            identity: self.identity,
            owner_uid: self.owner_uid,
            group_gid: self.group_gid,
            observed_mode: self.observed_mode,
        }
    }
}

impl DirectoryEvidence {
    /// Whether the two say the same.
    pub fn same(&self, other: &Self) -> (same: bool)
        ensures
            same == (self@ == other@),
    {
        bytes_equal(self.relative_path.as_slice(), other.relative_path.as_slice()) && self.depth
            == other.depth && self.identity == other.identity && self.owner_uid == other.owner_uid
            && self.group_gid == other.group_gid && self.observed_mode == other.observed_mode
    }

    /// The evidence on a directory that has just been opened and certified.
    pub fn of_held(
        held: &HeldLocalBackendEvidence,
        relative_path: Vec<u8>,
        depth: u32,
        identity: NodeIdentity,
    ) -> (evidence: Self)
        ensures
            evidence@ == held_directory(held@, relative_path@, depth, identity),
    {
        DirectoryEvidence {
            relative_path,
            depth,
            identity,
            owner_uid: held.owner_uid(),
            group_gid: held.group_gid(),
            observed_mode: held.mode(),
        }
    }
}

/// The evidence on a directory that has just been opened and certified.
pub open spec fn held_directory(
    held: EvidenceView,
    path: Seq<u8>,
    depth: u32,
    identity: NodeIdentity,
) -> DirectoryView {
    DirectoryView {
        path,
        depth,
        identity,
        owner_uid: held.snapshot.owner_uid,
        group_gid: held.snapshot.group_gid,
        observed_mode: held.snapshot.mode,
    }
}

/// The contents of a list of directories.
pub open spec fn directory_views(list: Seq<DirectoryEvidence>) -> Seq<DirectoryView> {
    Seq::new(list.len(), |i: int| list[i]@)
}

/// The components of a canonical path.
pub open spec fn canonical_components(path: Seq<u8>) -> Seq<Seq<u8>> {
    if path.len() == 0 {
        Seq::empty()
    } else {
        pieces(path, SLASH)
    }
}

/// The components of `path`, which has to be a canonical one.
pub fn normal_relative_components(path: &[u8]) -> (parts: Result<Vec<Vec<u8>>, HeldTreeError>)
    ensures
        refused_for(
            parts,
            if is_canonical(path@) {
                None
            } else {
                Some(TreeFault::InvalidDirectoryPath(path@))
            },
        ),
        parts matches Ok(list) ==> views(list@) == canonical_components(path@),
{
    if path.len() == 0 {
        let none: Vec<Vec<u8>> = Vec::new();
        assert(views(none@) =~= Seq::<Seq<u8>>::empty());
        return Ok(none);
    }
    let parts = split(path, SLASH);
    let mut i: usize = 0;
    while i < parts.len()
        invariant
            i <= parts@.len(),
            path@.len() > 0,
            views(parts@) == pieces(path@, SLASH),
            forall|n: int|
                0 <= n < i ==> is_normal_piece(#[trigger] pieces(path@, SLASH)[n]),
        decreases parts@.len() - i,
    {
        assert(views(parts@)[i as int] == parts@[i as int]@);
        if !piece_is_normal(parts[i].as_slice()) {
            assert(!is_normal_piece(pieces(path@, SLASH)[i as int]));
            return Err(HeldTreeError::InvalidDirectoryPath(to_vec(path)));
        }
        i += 1;
    }
    Ok(parts)
}

/// The first place at which `path` stands in the list.
pub open spec fn position_of(list: Seq<DirectoryView>, path: Seq<u8>, from: int) -> Option<int>
    decreases list.len() - from,
{
    if from >= list.len() {
        None
    } else if list[from].path == path {
        Some(from)
    } else {
        position_of(list, path, from + 1)
    }
}

/// A found position holds the path.
pub proof fn lemma_position(list: Seq<DirectoryView>, path: Seq<u8>, from: int)
    requires
        0 <= from,
    ensures
        match position_of(list, path, from) {
            Some(i) => from <= i < list.len() && list[i].path == path,
            None => forall|i: int| from <= i < list.len() ==> (#[trigger] list[i]).path != path,
        },
    decreases list.len() - from,
{
    if from < list.len() && list[from].path != path {
        lemma_position(list, path, from + 1);
    }
}

/// Where `path` stands in the list.
pub fn find_directory(list: &Vec<DirectoryEvidence>, path: &[u8]) -> (position: Option<usize>)
    ensures
        match position {
            Some(i) => i < list@.len() && position_of(directory_views(list@), path@, 0) == Some(
                i as int,
            ) && list@[i as int].relative_path@ == path@,
            None => position_of(directory_views(list@), path@, 0) is None,
        },
{
    let mut i: usize = 0;
    while i < list.len()
        invariant
            i <= list@.len(),
            position_of(directory_views(list@), path@, 0) == position_of(
                directory_views(list@),
                path@,
                i as int,
            ),
        decreases list@.len() - i,
    {
        assert(directory_views(list@)[i as int] == list@[i as int]@);
        if bytes_equal(list[i].relative_path.as_slice(), path) {
            return Some(i);
        }
        i += 1;
    }
    None
}

/// Why the directories from `from` on do not make a tree: a path that is not
/// one, a depth that is not that of the path, a path that stands twice, or a
/// first directory that is not the root.
pub open spec fn index_fault(list: Seq<DirectoryView>, from: int) -> Option<TreeFault>
    decreases list.len() - from,
{
    if from >= list.len() {
        if list.len() > 0 && list[0].path.len() == 0 {
            None
        } else {
            Some(TreeFault::InvalidDirectoryPath(Seq::empty()))
        }
    } else if !is_canonical(list[from].path) || list[from].depth != depth(list[from].path) {
        Some(TreeFault::InvalidDirectoryPath(list[from].path))
    } else if position_of(list, list[from].path, 0) != Some(from) {
        Some(TreeFault::IdentityChanged(list[from].path))
    } else {
        index_fault(list, from + 1)
    }
}

/// The directories make a tree: each has its path once, with its depth, and the
/// root comes first.
pub open spec fn is_directory_tree(list: Seq<DirectoryView>) -> bool {
    &&& list.len() > 0
    &&& list[0].path.len() == 0
    &&& forall|i: int|
        0 <= i < list.len() ==> is_canonical((#[trigger] list[i]).path) && list[i].depth == depth(
            list[i].path,
        )
    &&& forall|i: int, j: int|
        #![trigger list[i], list[j]]
        0 <= i < j < list.len() ==> list[i].path != list[j].path
}

/// What is not refused makes a tree.
proof fn lemma_index(list: Seq<DirectoryView>, from: int)
    requires
        0 <= from <= list.len(),
        index_fault(list, from) is None,
    ensures
        list.len() > 0,
        list[0].path.len() == 0,
        forall|i: int|
            from <= i < list.len() ==> is_canonical((#[trigger] list[i]).path) && list[i].depth
                == depth(list[i].path) && position_of(list, list[i].path, 0) == Some(i),
    decreases list.len() - from,
{
    if from < list.len() {
        lemma_index(list, from + 1);
    }
}

/// Requires that the directories make a tree.
pub fn build_directory_index(directories: &Vec<DirectoryEvidence>) -> (outcome: Result<
    (),
    HeldTreeError,
>)
    ensures
        refused_for(outcome, index_fault(directory_views(directories@), 0)),
        outcome is Ok ==> is_directory_tree(directory_views(directories@)),
{
    let ghost list = directory_views(directories@);
    let mut i: usize = 0;
    while i < directories.len()
        invariant
            i <= directories@.len(),
            list == directory_views(directories@),
            index_fault(list, 0) == index_fault(list, i as int),
        decreases directories@.len() - i,
    {
        let directory = &directories[i];
        assert(list[i as int] == directory@);
        let parts = normal_relative_components(directory.relative_path.as_slice())?;
        proof {
            assert(views(parts@).len() == parts@.len());
            lemma_pieces_nonempty(directory.relative_path@, SLASH);
            assert(parts@.len() == depth(directory.relative_path@));
        }
        if directory.depth as usize != parts.len() {
            return Err(
                HeldTreeError::InvalidDirectoryPath(to_vec(directory.relative_path.as_slice())),
            );
        }
        match find_directory(directories, directory.relative_path.as_slice()) {
            Some(position) => if position != i {
                return Err(
                    HeldTreeError::IdentityChanged(to_vec(directory.relative_path.as_slice())),
                );
            },
            None => {
                return Err(
                    HeldTreeError::IdentityChanged(to_vec(directory.relative_path.as_slice())),
                );
            },
        }
        i += 1;
    }
    if directories.len() == 0 || directories[0].relative_path.len() != 0 {
        let path: Vec<u8> = Vec::new();
        assert(path@ =~= Seq::<u8>::empty());
        assert(directories@.len() > 0 ==> list[0] == directories@[0]@);
        return Err(HeldTreeError::InvalidDirectoryPath(path));
    }
    proof {
        assert(list[0] == directories@[0]@);
        lemma_index(list, 0);
        assert forall|a: int, b: int|
            #![trigger list[a], list[b]]
            0 <= a < b < list.len() implies list[a].path != list[b].path by {
            assert(position_of(list, list[a].path, 0) == Some(a));
            assert(position_of(list, list[b].path, 0) == Some(b));
        }
    }
    Ok(())
}

/// What is seen of a directory that has been reopened: its access control list,
/// its file system, itself, and who the process is.
#[derive(Debug)]
pub struct DirectoryProbe {
    pub acl: AclProbe,
    pub backend: Result<CertifiedLocalBackend, CertificationError>,
    pub inspected: Result<Inspection, HeldTreeError>,
    pub effective_uid: u32,
}

/// What is seen under the name of a directory that has been reopened.
#[derive(Debug)]
pub struct NameProbe {
    pub inspected: Result<Inspection, HeldTreeError>,
    pub effective_uid: u32,
}

/// The entry is not the recorded directory any more.
pub open spec fn recorded_fault(
    seen: Inspection,
    expected: DirectoryView,
    effective_uid: u32,
) -> Option<TreeFault> {
    first_fault(
        identity_fault(expected.path, expected.identity, seen.identity),
        first_fault(
            owner_fault(expected.path, seen.uid, expected.owner_uid),
            first_fault(
                owner_fault(expected.path, expected.owner_uid, effective_uid),
                if seen.gid != expected.group_gid || seen.mode != expected.observed_mode {
                    Some(TreeFault::IdentityChanged(expected.path))
                } else {
                    None
                },
            ),
        ),
    )
}

/// Requires that the entry is the recorded directory.
fn require_recorded(seen: &Inspection, expected: &DirectoryEvidence, effective_uid: u32)
    -> (outcome: Result<(), HeldTreeError>)
    ensures
        refused_for(outcome, recorded_fault(*seen, expected@, effective_uid)),
{
    let path = expected.relative_path.as_slice();
    require_same_identity(path, expected.identity, seen.identity)?;
    require_owner(path, seen.uid, expected.owner_uid)?;
    require_owner(path, expected.owner_uid, effective_uid)?;
    if seen.gid != expected.group_gid || seen.mode != expected.observed_mode {
        return Err(HeldTreeError::IdentityChanged(to_vec(path)));
    }
    Ok(())
}

/// Why what stands under a name is not the recorded directory.
pub open spec fn reopened_name_fault(
    probe: NameProbe,
    expected: DirectoryView,
    backend: CertifiedLocalBackend,
    mount_id: u64,
) -> Option<TreeFault> {
    match probe.inspected {
        Err(error) => Some(error@),
        Ok(seen) => first_fault(
            recorded_fault(seen, expected, probe.effective_uid),
            boundary_fault(expected.path, backend, mount_id, seen),
        ),
    }
}

/// Requires that what stands under a name is the recorded directory.
pub fn validate_reopened_name(
    probe: NameProbe,
    expected: &DirectoryEvidence,
    backend: CertifiedLocalBackend,
    mount_id: u64,
) -> (outcome: Result<(), HeldTreeError>)
    ensures
        refused_for(outcome, reopened_name_fault(probe, expected@, backend, mount_id)),
{
    let seen = probe.inspected?;
    require_recorded(&seen, expected, probe.effective_uid)?;
    require_boundary(expected.relative_path.as_slice(), backend, mount_id, &seen)
}

/// Why an opened directory is not the recorded one.
pub open spec fn reopened_directory_fault(
    held: EvidenceView,
    probe: DirectoryProbe,
    expected: DirectoryView,
    backend: CertifiedLocalBackend,
    mount_id: u64,
) -> Option<TreeFault> {
    if acl_refusal(probe.acl) is Some {
        Some(
            TreeFault::Certification { path: expected.path, reason: acl_refusal(probe.acl)->0 },
        )
    } else if probe.backend is Err {
        Some(TreeFault::Certification { path: expected.path, reason: probe.backend->Err_0 })
    } else {
        match probe.inspected {
            Err(error) => Some(error@),
            Ok(seen) => first_fault(
                recorded_fault(seen, expected, probe.effective_uid),
                if held.snapshot.backend != backend || probe.backend->Ok_0 != backend
                    || held.snapshot.mount_id != mount_id {
                    Some(TreeFault::BackendBoundary(expected.path))
                } else {
                    boundary_fault(expected.path, backend, mount_id, seen)
                },
            ),
        }
    }
}

/// Requires that an opened directory is the recorded one.
pub fn validate_reopened_directory(
    held: &HeldLocalBackendEvidence,
    probe: DirectoryProbe,
    expected: &DirectoryEvidence,
    backend: CertifiedLocalBackend,
    mount_id: u64,
) -> (outcome: Result<(), HeldTreeError>)
    ensures
        refused_for(
            outcome,
            reopened_directory_fault(held@, probe, expected@, backend, mount_id),
        ),
{
    let path = expected.relative_path.as_slice();
    match require_acl_absent(probe.acl) {
        Ok(_) => {},
        Err(reason) => {
            return Err(HeldTreeError::Certification { path: to_vec(path), reason });
        },
    }
    let fresh_backend = match probe.backend {
        Ok(fresh) => fresh,
        Err(reason) => {
            return Err(HeldTreeError::Certification { path: to_vec(path), reason });
        },
    };
    let seen = probe.inspected?;
    require_recorded(&seen, expected, probe.effective_uid)?;
    if held.backend() != backend || fresh_backend != backend || held.mount_id() != mount_id {
        return Err(HeldTreeError::BackendBoundary(to_vec(path)));
    }
    require_boundary(path, backend, mount_id, &seen)
}

/// Why a directory whose descriptor was kept is not what it was.
pub open spec fn current_directory_fault(
    acl: AclProbe,
    seen: Result<Inspection, HeldTreeError>,
    effective_uid: u32,
    evidence: DirectoryView,
    backend: CertifiedLocalBackend,
    mount_id: u64,
) -> Option<TreeFault> {
    if acl_refusal(acl) is Some {
        Some(TreeFault::Certification { path: evidence.path, reason: acl_refusal(acl)->0 })
    } else {
        match seen {
            Err(error) => Some(error@),
            Ok(seen) => first_fault(
                owner_fault(evidence.path, seen.uid, effective_uid),
                if seen.gid != evidence.group_gid || seen.mode != evidence.observed_mode {
                    Some(TreeFault::IdentityChanged(evidence.path))
                } else {
                    boundary_fault(evidence.path, backend, mount_id, seen)
                },
            ),
        }
    }
}

/// Requires that a directory whose descriptor was kept is what it was.
pub fn require_directory_evidence_current(
    acl: AclProbe,
    seen: Result<Inspection, HeldTreeError>,
    effective_uid: u32,
    evidence: &DirectoryEvidence,
    backend: CertifiedLocalBackend,
    mount_id: u64,
) -> (outcome: Result<(), HeldTreeError>)
    ensures
        refused_for(
            outcome,
            current_directory_fault(acl, seen, effective_uid, evidence@, backend, mount_id),
        ),
{
    let path = evidence.relative_path.as_slice();
    match require_acl_absent(acl) {
        Ok(_) => {},
        Err(reason) => {
            return Err(HeldTreeError::Certification { path: to_vec(path), reason });
        },
    }
    let seen = seen?;
    require_owner(path, seen.uid, effective_uid)?;
    if seen.gid != evidence.group_gid || seen.mode != evidence.observed_mode {
        return Err(HeldTreeError::IdentityChanged(to_vec(path)));
    }
    require_boundary(path, backend, mount_id, &seen)
}

/// The path of the first `count` components.
pub open spec fn prefix_path(parts: Seq<Seq<u8>>, count: int) -> Seq<u8>
    decreases count,
{
    if count <= 0 {
        Seq::empty()
    } else {
        joined(prefix_path(parts, count - 1), parts[count - 1])
    }
}

/// The first `count` pieces of a path with their separators.
spec fn glued(parts: Seq<Seq<u8>>, count: int) -> Seq<u8>
    decreases count,
{
    if count <= 0 {
        Seq::empty()
    } else if count == 1 {
        parts[0]
    } else {
        glued(parts, count - 1).push(SLASH) + parts[count - 1]
    }
}

/// Gluing looks only at the pieces it glues.
proof fn lemma_glued_prefix(first: Seq<Seq<u8>>, second: Seq<Seq<u8>>, count: int)
    requires
        0 <= count <= first.len(),
        count <= second.len(),
        forall|i: int| 0 <= i < count ==> first[i] == second[i],
    ensures
        glued(first, count) == glued(second, count),
    decreases count,
{
    if count > 1 {
        lemma_glued_prefix(first, second, count - 1);
    }
}

/// Gluing the pieces of a path gives the path.
proof fn lemma_glued_pieces(path: Seq<u8>)
    ensures
        glued(pieces(path, SLASH), pieces(path, SLASH).len() as int) == path,
    decreases path.len(),
{
    let parts = pieces(path, SLASH);
    lemma_pieces_nonempty(path, SLASH);
    if path.len() == 0 {
        assert(parts[0] =~= path);
    } else {
        let before = pieces(path.drop_last(), SLASH);
        lemma_pieces_nonempty(path.drop_last(), SLASH);
        lemma_glued_pieces(path.drop_last());
        let n = before.len() as int;
        assert(path =~= path.drop_last().push(path.last()));
        if path.last() == SLASH {
            lemma_glued_prefix(before, parts, n);
            assert(glued(parts, n + 1) =~= path.drop_last().push(SLASH) + Seq::<u8>::empty());
        } else {
            lemma_glued_prefix(before, parts, n - 1);
            if n == 1 {
                assert(parts[0] =~= before[0].push(path.last()));
            } else {
                assert(glued(parts, n) =~= glued(before, n).push(path.last()));
            }
        }
    }
}

/// Joining pieces that are not empty is gluing them.
proof fn lemma_prefix_is_glued(parts: Seq<Seq<u8>>, count: int)
    requires
        0 <= count <= parts.len(),
        forall|i: int| 0 <= i < parts.len() ==> (#[trigger] parts[i]).len() > 0,
    ensures
        prefix_path(parts, count) == glued(parts, count),
        count > 0 ==> prefix_path(parts, count).len() > 0,
    decreases count,
{
    if count > 0 {
        lemma_prefix_is_glued(parts, count - 1);
        if count > 1 {
            assert(prefix_path(parts, count) =~= glued(parts, count));
        }
    }
}

/// Going down all components of a canonical path leads to the path.
pub proof fn law_components_lead_to_the_path(path: Seq<u8>)
    requires
        is_canonical(path),
    ensures
        prefix_path(canonical_components(path), canonical_components(path).len() as int) == path,
{
    if path.len() == 0 {
        assert(prefix_path(canonical_components(path), 0) =~= path);
    } else {
        let parts = pieces(path, SLASH);
        assert forall|i: int| 0 <= i < parts.len() implies (#[trigger] parts[i]).len() > 0 by {
            assert(is_normal_piece(parts[i]));
        }
        lemma_prefix_is_glued(parts, parts.len() as int);
        lemma_glued_pieces(path);
    }
}

/// The way from the root to a recorded directory.
#[derive(Debug)]
pub struct Reopening {
    components: Vec<Vec<u8>>,
    entered: bool,
    next: usize,
    prefix: Vec<u8>,
    at: Option<NodeIdentity>,
    transient_seal: bool,
}

/// The way has come to its end, in the directory that the list has under that
/// path.
pub open spec fn has_reached(way: Reopening, path: Seq<u8>, list: Seq<DirectoryView>) -> bool {
    &&& way.wf()
    &&& way.in_root()
    &&& way.way() == canonical_components(path)
    &&& way.passed() == way.way().len()
    &&& position_of(list, path, 0) matches Some(i) && way.at() == Some(list[i].identity)
}

/// The next directory on the way: the name to open in the one before, the path
/// that it leads to, which directory of the list it has to be, and whether it
/// has to be looked at twice.
#[derive(Debug, PartialEq, Eq)]
pub struct Hop {
    pub component: Vec<u8>,
    pub prefix: Vec<u8>,
    pub position: usize,
    pub look_again: bool,
}

/// Why a way to `path` cannot be started.
pub open spec fn reopening_fault(
    path: Seq<u8>,
    list: Seq<DirectoryView>,
    root: DirectoryView,
) -> Option<TreeFault> {
    if !is_canonical(path) {
        Some(TreeFault::InvalidDirectoryPath(path))
    } else {
        match position_of(list, path, 0) {
            None => Some(TreeFault::IdentityChanged(path)),
            Some(i) => if list[i].depth != depth(path) {
                Some(TreeFault::InvalidDirectoryPath(path))
            } else if root.path.len() != 0 || root.depth != 0 {
                Some(TreeFault::InvalidDirectoryPath(Seq::empty()))
            } else {
                None
            },
        }
    }
}

/// Why the next directory on a way is not one of the list.
pub open spec fn hop_fault(prefix: Seq<u8>, level: int, list: Seq<DirectoryView>) -> Option<
    TreeFault,
> {
    match position_of(list, prefix, 0) {
        None => Some(TreeFault::IdentityChanged(prefix)),
        Some(i) => if list[i].depth != level {
            Some(TreeFault::InvalidDirectoryPath(prefix))
        } else {
            None
        },
    }
}

impl Reopening {
    /// The components of the whole way.
    pub closed spec fn way(&self) -> Seq<Seq<u8>> {
        views(self.components@)
    }

    /// The root has been found to be the recorded one.
    pub closed spec fn in_root(&self) -> bool {
        self.entered
    }

    /// How many of them are behind.
    pub closed spec fn passed(&self) -> int {
        self.next as int
    }

    /// What the directory is that was passed last.
    pub closed spec fn at(&self) -> Option<NodeIdentity> {
        self.at
    }

    /// Whether the last directory is about to be sealed.
    pub closed spec fn for_seal(&self) -> bool {
        self.transient_seal
    }

    /// The prefix is what the components behind lead to.
    pub closed spec fn wf(&self) -> bool {
        &&& self.next <= self.components@.len()
        &&& self.prefix@ == prefix_path(views(self.components@), self.next as int)
    }

    /// Starts the way to `relative_path`.
    pub fn begin(
        relative_path: &[u8],
        directories: &Vec<DirectoryEvidence>,
        root: &DirectoryEvidence,
        transient_seal: bool,
    ) -> (reopening: Result<Self, HeldTreeError>)
        ensures
            refused_for(
                reopening,
                reopening_fault(relative_path@, directory_views(directories@), root@),
            ),
            reopening matches Ok(started) ==> started.wf() && started.way() == canonical_components(
                relative_path@,
            ) && !started.in_root() && started.passed() == 0 && started.at() is None
                && started.for_seal() == transient_seal,
    {
        let components = normal_relative_components(relative_path)?;
        proof {
            assert(views(components@).len() == components@.len());
            lemma_pieces_nonempty(relative_path@, SLASH);
            assert(components@.len() == depth(relative_path@));
        }
        match find_directory(directories, relative_path) {
            None => {
                return Err(HeldTreeError::IdentityChanged(to_vec(relative_path)));
            },
            Some(position) => {
                assert(directory_views(directories@)[position as int]
                    == directories@[position as int]@);
                if directories[position].depth as usize != components.len() {
                    return Err(HeldTreeError::InvalidDirectoryPath(to_vec(relative_path)));
                }
            },
        }
        let prefix: Vec<u8> = Vec::new();
        assert(prefix@ =~= Seq::<u8>::empty());
        if root.relative_path.len() != 0 || root.depth != 0 {
            return Err(HeldTreeError::InvalidDirectoryPath(prefix));
        }
        Ok(Reopening { components, entered: false, next: 0, prefix, at: None, transient_seal })
    }

    /// Enters the root, if it is the recorded one and still bound to its name.
    pub fn enter(
        &mut self,
        root: &DirectoryEvidence,
        held: &HeldLocalBackendEvidence,
        opened: DirectoryProbe,
        bound: Result<(), HeldTreeError>,
        backend: CertifiedLocalBackend,
        mount_id: u64,
    ) -> (outcome: Result<(), HeldTreeError>)
        requires
            old(self).wf(),
            old(self).passed() == 0,
        ensures
            final(self).wf(),
            final(self).way() == old(self).way(),
            final(self).passed() == old(self).passed(),
            final(self).for_seal() == old(self).for_seal(),
            refused_for(
                outcome,
                first_fault(
                    reopened_directory_fault(held@, opened, root@, backend, mount_id),
                    match bound {
                        Ok(_) => None,
                        Err(error) => Some(error@),
                    },
                ),
            ),
            outcome is Ok ==> final(self).in_root() && final(self).at() == Some(root@.identity),
            outcome is Err ==> *final(self) == *old(self),
    {
        validate_reopened_directory(held, opened, root, backend, mount_id)?;
        bound?;
        self.entered = true;
        self.at = Some(root.identity);
        Ok(())
    }

    /// The next directory on the way, or nothing at its end.
    pub fn next_hop(&self, directories: &Vec<DirectoryEvidence>) -> (hop: Result<
        Option<Hop>,
        HeldTreeError,
    >)
        requires
            self.wf(),
            self.in_root(),
        ensures
            self.passed() == self.way().len() ==> (hop matches Ok(None)),
            self.passed() < self.way().len() ==> {
                let prefix = prefix_path(self.way(), self.passed() + 1);
                let list = directory_views(directories@);
                &&& refused_for(hop, hop_fault(prefix, self.passed() + 1, list))
                &&& hop matches Ok(found) ==> (found matches Some(next) && {
                    &&& next.component@ == self.way()[self.passed()]
                    &&& next.prefix@ == prefix
                    &&& position_of(list, prefix, 0) == Some(next.position as int)
                    &&& next.position < directories@.len()
                    &&& next.look_again == (self.for_seal() && self.passed() + 1
                        == self.way().len())
                })
            },
    {
        if self.next >= self.components.len() {
            return Ok(None);
        }
        assert(self.way()[self.next as int] == self.components@[self.next as int]@);
        let component = to_vec(self.components[self.next].as_slice());
        let prefix = join(self.prefix.as_slice(), component.as_slice());
        match find_directory(directories, prefix.as_slice()) {
            None => Err(HeldTreeError::IdentityChanged(prefix)),
            Some(position) => {
                assert(directory_views(directories@)[position as int]
                    == directories@[position as int]@);
                if directories[position].depth as usize != self.next + 1 {
                    return Err(HeldTreeError::InvalidDirectoryPath(prefix));
                }
                Ok(
                    Some(
                        Hop {
                            component,
                            prefix,
                            position,
                            look_again: self.transient_seal && self.next + 1
                                == self.components.len(),
                        },
                    ),
                )
            },
        }
    }

    /// Passes the next directory, if what was seen of it is the recorded one:
    /// itself, what stands under its name, and both again where it is about to
    /// be sealed.
    pub fn pass(
        &mut self,
        expected: &DirectoryEvidence,
        held: &HeldLocalBackendEvidence,
        opened: DirectoryProbe,
        named: NameProbe,
        again: Option<(DirectoryProbe, NameProbe)>,
        backend: CertifiedLocalBackend,
        mount_id: u64,
    ) -> (outcome: Result<(), HeldTreeError>)
        requires
            old(self).wf(),
            old(self).in_root(),
            old(self).passed() < old(self).way().len(),
            expected@.path == prefix_path(old(self).way(), old(self).passed() + 1),
            again is Some <==> old(self).for_seal() && old(self).passed() + 1 == old(
                self,
            ).way().len(),
        ensures
            final(self).wf(),
            final(self).in_root(),
            final(self).way() == old(self).way(),
            final(self).for_seal() == old(self).for_seal(),
            refused_for(
                outcome,
                pass_fault(expected@, held@, opened, named, again, backend, mount_id),
            ),
            final(self).passed() == if outcome is Ok {
                old(self).passed() + 1
            } else {
                old(self).passed()
            },
            final(self).at() == if outcome is Ok {
                Some(expected@.identity)
            } else {
                old(self).at()
            },
    {
        validate_reopened_directory(held, opened, expected, backend, mount_id)?;
        validate_reopened_name(named, expected, backend, mount_id)?;
        match again {
            Some((opened_again, named_again)) => {
                validate_reopened_directory(held, opened_again, expected, backend, mount_id)?;
                validate_reopened_name(named_again, expected, backend, mount_id)?;
            },
            None => {},
        }
        let count = self.components.len();
        assert(self.next < count);
        self.prefix = join(self.prefix.as_slice(), self.components[self.next].as_slice());
        self.next = self.next + 1;
        self.at = Some(expected.identity);
        Ok(())
    }

    /// Whether the way is at its end.
    pub fn arrived(&self) -> (arrived: bool)
        requires
            self.wf(),
        ensures
            arrived == (self.passed() == self.way().len()),
    {
        self.next == self.components.len()
    }
}

/// Why the next directory on a way is not the recorded one.
pub open spec fn pass_fault(
    expected: DirectoryView,
    held: EvidenceView,
    opened: DirectoryProbe,
    named: NameProbe,
    again: Option<(DirectoryProbe, NameProbe)>,
    backend: CertifiedLocalBackend,
    mount_id: u64,
) -> Option<TreeFault> {
    first_fault(
        reopened_directory_fault(held, opened, expected, backend, mount_id),
        first_fault(
            reopened_name_fault(named, expected, backend, mount_id),
            match again {
                Some((opened_again, named_again)) => first_fault(
                    reopened_directory_fault(held, opened_again, expected, backend, mount_id),
                    reopened_name_fault(named_again, expected, backend, mount_id),
                ),
                None => None,
            },
        ),
    )
}

/// A place in the order in which recovery undoes mode changes.
#[derive(Debug, PartialEq, Eq)]
pub struct HeldDirectoryOrder {
    pub relative_path: Vec<u8>,
    pub depth: u32,
    pub device: u64,
    pub inode: u64,
    pub incarnation: u64,
    pub observed_mode: u32,
}

/// The order entry is the one of the directory.
pub open spec fn is_order_of(order: HeldDirectoryOrder, directory: DirectoryView) -> bool {
    &&& order.relative_path@ == directory.path
    &&& order.depth == directory.depth
    &&& order.device == directory.identity.device
    &&& order.inode == directory.identity.inode
    &&& order.incarnation == directory.identity.incarnation
    &&& order.observed_mode == directory.observed_mode
}

/// The directories from the last that was found to the root.
pub fn directories_deepest_first(directories: &Vec<DirectoryEvidence>) -> (order: Vec<
    HeldDirectoryOrder,
>)
    ensures
        order@.len() == directories@.len(),
        forall|i: int|
            0 <= i < order@.len() ==> is_order_of(
                #[trigger] order@[i],
                directories@[directories@.len() - 1 - i]@,
            ),
{
    let mut order: Vec<HeldDirectoryOrder> = Vec::new();
    let mut rest: usize = directories.len();
    while rest > 0
        invariant
            rest <= directories@.len(),
            order@.len() == directories@.len() - rest,
            forall|i: int|
                0 <= i < order@.len() ==> is_order_of(
                    #[trigger] order@[i],
                    directories@[directories@.len() - 1 - i]@,
                ),
        decreases rest,
    {
        rest -= 1;
        let directory = &directories[rest];
        order.push(
            HeldDirectoryOrder {
                relative_path: to_vec(directory.relative_path.as_slice()),
                depth: directory.depth,
                device: directory.identity.device,
                inode: directory.identity.inode,
                incarnation: directory.identity.incarnation,
                observed_mode: directory.observed_mode,
            },
        );
    }
    order
}

/// What stands under the name of a recorded directory is that directory exactly
/// where nothing that was recorded of it differs, it belongs to whom the process
/// acts for, and it lies on the mount and the file system of the tree.
pub proof fn law_reopened_names_are_as_recorded(
    probe: NameProbe,
    expected: DirectoryView,
    backend: CertifiedLocalBackend,
    mount_id: u64,
)
    ensures
        reopened_name_fault(probe, expected, backend, mount_id) is None <==> (
        probe.inspected matches Ok(seen) && {
            &&& seen.identity == expected.identity
            &&& seen.uid == expected.owner_uid
            &&& seen.uid == probe.effective_uid
            &&& seen.gid == expected.group_gid
            &&& seen.mode == expected.observed_mode
            &&& seen.backend == backend
            &&& seen.mount_id == mount_id
        }),
{
}

/// An opened directory is the recorded one exactly where, beyond that, it has no
/// access control list and everything that shows its file system agrees.
pub proof fn law_reopened_directories_are_as_recorded(
    held: EvidenceView,
    probe: DirectoryProbe,
    expected: DirectoryView,
    backend: CertifiedLocalBackend,
    mount_id: u64,
)
    ensures
        reopened_directory_fault(held, probe, expected, backend, mount_id) is None <==> (
        probe.inspected matches Ok(seen) && {
            &&& probe.acl == AclProbe::Absent
            &&& probe.backend == Ok::<CertifiedLocalBackend, CertificationError>(backend)
            &&& held.snapshot.backend == backend
            &&& held.snapshot.mount_id == mount_id
            &&& seen.identity == expected.identity
            &&& seen.uid == expected.owner_uid
            &&& seen.uid == probe.effective_uid
            &&& seen.gid == expected.group_gid
            &&& seen.mode == expected.observed_mode
            &&& seen.backend == backend
            &&& seen.mount_id == mount_id
        }),
{
}

/// A directory whose descriptor was kept is what it was exactly where it has no
/// access control list, belongs to whom the process acts for, has the group and
/// the mode that were recorded, and lies on the mount and the file system of the
/// tree.
pub proof fn law_kept_directories_are_as_recorded(
    acl: AclProbe,
    seen: Result<Inspection, HeldTreeError>,
    effective_uid: u32,
    evidence: DirectoryView,
    backend: CertifiedLocalBackend,
    mount_id: u64,
)
    ensures
        current_directory_fault(acl, seen, effective_uid, evidence, backend, mount_id) is None
            <==> acl == AclProbe::Absent && (seen matches Ok(found) && found.uid == effective_uid
            && found.gid == evidence.group_gid && found.mode == evidence.observed_mode
            && found.backend == backend && found.mount_id == mount_id),
{
}

/// The next directory on a way is passed exactly where it and what stands under
/// its name are the recorded one, and so once more where it is about to be
/// sealed.
pub proof fn law_every_directory_on_the_way_is_checked(
    expected: DirectoryView,
    held: EvidenceView,
    opened: DirectoryProbe,
    named: NameProbe,
    again: Option<(DirectoryProbe, NameProbe)>,
    backend: CertifiedLocalBackend,
    mount_id: u64,
)
    ensures
        pass_fault(expected, held, opened, named, again, backend, mount_id) is None <==> {
            &&& reopened_directory_fault(held, opened, expected, backend, mount_id) is None
            &&& reopened_name_fault(named, expected, backend, mount_id) is None
            &&& again matches Some((opened_again, named_again)) ==> reopened_directory_fault(
                held,
                opened_again,
                expected,
                backend,
                mount_id,
            ) is None && reopened_name_fault(named_again, expected, backend, mount_id) is None
        },
{
}

/// Directories are accepted exactly where they make a tree: the root first, each
/// under its own path, at the depth of that path.
pub proof fn law_accepted_directories_make_a_tree(list: Seq<DirectoryView>)
    ensures
        index_fault(list, 0) is None <==> {
            &&& list.len() > 0
            &&& list[0].path.len() == 0
            &&& forall|i: int|
                0 <= i < list.len() ==> is_canonical((#[trigger] list[i]).path) && list[i].depth
                    == depth(list[i].path)
            &&& forall|i: int, j: int|
                #![trigger list[i], list[j]]
                0 <= i < j < list.len() ==> list[i].path != list[j].path
        },
{
    if index_fault(list, 0) is None {
        lemma_index(list, 0);
        assert forall|a: int, b: int|
            #![trigger list[a], list[b]]
            0 <= a < b < list.len() implies list[a].path != list[b].path by {
            assert(position_of(list, list[a].path, 0) == Some(a));
            assert(position_of(list, list[b].path, 0) == Some(b));
        }
    }
    if is_directory_tree(list) {
        lemma_tree_is_accepted(list, 0);
    }
}

/// A path that stands once is found where it stands.
proof fn lemma_found_where_it_stands(list: Seq<DirectoryView>, at: int, from: int)
    requires
        0 <= from <= at < list.len(),
        forall|i: int| 0 <= i < at ==> (#[trigger] list[i]).path != list[at].path,
    ensures
        position_of(list, list[at].path, from) == Some(at),
    decreases at - from,
{
    if from < at {
        assert(list[from].path != list[at].path);
        lemma_found_where_it_stands(list, at, from + 1);
    }
}

/// What makes a tree is accepted.
proof fn lemma_tree_is_accepted(list: Seq<DirectoryView>, from: int)
    requires
        is_directory_tree(list),
        0 <= from <= list.len(),
    ensures
        index_fault(list, from) is None,
    decreases list.len() - from,
{
    if from < list.len() {
        assert forall|i: int| 0 <= i < from implies (#[trigger] list[i]).path != list[from].path by {
            assert(list[from].path == list[from].path);
        }
        lemma_found_where_it_stands(list, from, 0);
        lemma_tree_is_accepted(list, from + 1);
    }
}

/// A way leads only to a directory of the list, at its depth, from the root.
pub proof fn law_ways_lead_to_recorded_directories(
    path: Seq<u8>,
    list: Seq<DirectoryView>,
    root: DirectoryView,
    level: int,
)
    ensures
        reopening_fault(path, list, root) is None ==> is_canonical(path) && root.path.len() == 0
            && root.depth == 0 && exists|i: int|
            0 <= i < list.len() && (#[trigger] list[i]).path == path && list[i].depth == depth(
                path,
            ),
        hop_fault(path, level, list) is None ==> exists|i: int|
            0 <= i < list.len() && (#[trigger] list[i]).path == path && list[i].depth == level,
        is_canonical(path) && root.path.len() == 0 && root.depth == 0 && (position_of(
            list,
            path,
            0,
        ) matches Some(i) && list[i].depth == depth(path)) ==> reopening_fault(path, list, root)
            is None,
{
    lemma_position(list, path, 0);
    match position_of(list, path, 0) {
        Some(i) => {
            assert(list[i].path == path);
        },
        None => {},
    }
}

/// The order of recovery names each directory by all that tells it from any other,
/// with the mode that was observed.
pub proof fn law_orders_name_their_directory(order: HeldDirectoryOrder, directory: DirectoryView)
    ensures
        is_order_of(order, directory) <==> order.relative_path@ == directory.path && order.depth
            == directory.depth && order.device == directory.identity.device && order.inode
            == directory.identity.inode && order.incarnation == directory.identity.incarnation
            && order.observed_mode == directory.observed_mode,
{
}

} // verus!
