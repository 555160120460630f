//! What is seen of one entry, and the checks that are made on it.

use crate::authority::local_mode::assess_mode_seal;
use crate::authority::local_mode::grants_namespace_write;
use crate::authority::local_mode::has_namespace_writers;
use crate::authority::local_mode::minimal_sealed_mode;
use crate::authority::local_mode::sealed_mode;
use crate::authority::local_mode::ModeSealAssessment;
use crate::authority::local_mode::ModeSealDenial;
use crate::backend::certify::acl_refusal;
use crate::backend::certify::require_acl_absent;
use crate::backend::certify::AclProbe;
use crate::backend::certify::CertificationError;
use crate::backend::certify::CertifiedLocalBackend;
use crate::backend::evidence::EvidenceView;
use crate::backend::evidence::HeldLocalBackendEvidence;
use crate::backend::evidence::HeldStat;
use crate::backend::evidence::FILE_TYPE_MASK;
use crate::backend::evidence::PERMISSION_MASK;
use crate::backend::held::error::refused_for;
use crate::backend::held::error::HeldTreeError;
use crate::backend::held::error::TreeFault;
use crate::backend::held::limits::HeldTreeLimits;
use crate::backend::held::limits::CONTENT_PROOF_VERSION;
use crate::backend::held::limits::LEGACY_CONTENT_PROOF_VERSION;
use crate::backend::held::limits::MAX_TREE_DIRECTORIES;
use crate::backend::held::limits::NAMES_ONLY_VERSION;
use crate::backend::held::model::ContentProof;
use crate::backend::held::model::EntryView;
use crate::backend::held::model::ManifestEntry;
use crate::backend::held::model::NodeIdentity;
use crate::backend::held::model::NodeKind;
use crate::backend::held::model::RegularFileObservation;
use crate::backend::held::model::RegularXattrProof;
use crate::backend::held::model::StabilityView;
use crate::backend::held::model::StructureEvidence;
use crate::backend::held::model::StructureStability;
use crate::backend::held::model::StructureView;
use crate::bytes::bytes_equal;
use crate::bytes::to_vec;
use crate::paths::components;
use crate::paths::part_views;
use crate::paths::path_components;
use crate::paths::views;
use crate::paths::Component;
use crate::paths::PathPart;
use vstd::prelude::*;

verus! {

/// The nanoseconds of a second.
pub const SECOND: u64 = 1_000_000_000;

/// One entry as a single stat call saw it.
#[derive(Clone, Copy, Debug, PartialEq, Eq, Structural)]
pub struct Inspection {
    pub identity: NodeIdentity,
    pub uid: u32,
    pub gid: u32,
    pub mode: u32,
    pub size: u64,
    pub nlink: u64,
    pub mtime_sec: i64,
    pub mtime_nsec: u32,
    pub ctime_sec: i64,
    pub ctime_nsec: u32,
    pub content_fields_available: bool,
    pub mount_id: u64,
    pub backend: CertifiedLocalBackend,
}

/// What the type bits of a mode name.
pub open spec fn kind_of_mode(raw_mode: u32) -> NodeKind {
    let bits = raw_mode & FILE_TYPE_MASK;
    if bits == 0o040000 {
        NodeKind::Directory
    } else if bits == 0o100000 {
        NodeKind::Regular
    } else if bits == 0o120000 {
        NodeKind::Symlink
    } else {
        NodeKind::Other
    }
}

/// What the type bits of a mode name.
pub fn node_kind(raw_mode: u32) -> (kind: NodeKind)
    ensures
        kind == kind_of_mode(raw_mode),
{
    let bits: u32 = raw_mode & FILE_TYPE_MASK;
    if bits == 0o040000 {
        NodeKind::Directory
    } else if bits == 0o100000 {
        NodeKind::Regular
    } else if bits == 0o120000 {
        NodeKind::Symlink
    } else {
        NodeKind::Other
    }
}

/// The nanoseconds from the start of 1970 to a time of birth, where the time is
/// one and the count can be held.
pub open spec fn incarnation(seconds: i64, nanos: u32) -> Option<u64> {
    if nanos < SECOND && seconds >= 0 && seconds * SECOND + nanos <= u64::MAX {
        Some((seconds * SECOND + nanos) as u64)
    } else {
        None
    }
}

/// What tells an entry from another that had its inode before: its time of
/// birth.
pub fn incarnation_from_timestamp(seconds: i64, nanos: u32, path: &[u8]) -> (number: Result<
    u64,
    HeldTreeError,
>)
    ensures
        match incarnation(seconds, nanos) {
            Some(expected) => number == Ok::<u64, HeldTreeError>(expected),
            None => number matches Err(error) && error@
                == TreeFault::StrongIncarnationUnavailable(path@),
        },
{
    if nanos as u64 >= SECOND || seconds < 0 {
        return Err(HeldTreeError::StrongIncarnationUnavailable(to_vec(path)));
    }
    match (seconds as u64).checked_mul(SECOND) {
        Some(value) => match value.checked_add(nanos as u64) {
            Some(value) => Ok(value),
            None => Err(HeldTreeError::StrongIncarnationUnavailable(to_vec(path))),
        },
        None => Err(HeldTreeError::StrongIncarnationUnavailable(to_vec(path))),
    }
}

/// A time as the system gives it.
#[derive(Clone, Copy, Debug, PartialEq, Eq, Structural)]
pub struct StatTime {
    pub seconds: i64,
    pub nanoseconds: u32,
}

/// The answer to an extended stat call on Linux.
#[derive(Clone, Copy, Debug, PartialEq, Eq, Structural)]
pub struct LinuxStatx {
    /// Which fields the answer has.
    pub mask: u32,
    pub raw_mode: u16,
    pub device_major: u32,
    pub device_minor: u32,
    pub inode: u64,
    pub uid: u32,
    pub gid: u32,
    pub size: u64,
    pub nlink: u32,
    pub birth: StatTime,
    pub modified: StatTime,
    pub changed: StatTime,
    pub mount_id: u64,
}

/// The fields without which an entry has no strong identity: type, mode, owner,
/// group, inode, time of birth and mount.
pub const STATX_IDENTITY_FIELDS: u32 = 0x191b;

/// The fields that show that content did not change: links, times and size.
pub const STATX_CONTENT_FIELDS: u32 = 0x2c4;

/// The number of a device, from its two parts.
pub open spec fn device_number(major: u32, minor: u32) -> u64 {
    ((major as u64 & 0xffff_f000u64) << 32) | ((major as u64 & 0x0000_0fffu64) << 8) | ((
    minor as u64 & 0xffff_ff00u64) << 12) | (minor as u64 & 0x0000_00ffu64)
}

/// Calls `rustix::fs::makedev`, which on Linux packs the two parts of a device
/// number as [`device_number`] does.
#[verifier::external_body]
fn makedev(major: u32, minor: u32) -> (device: u64)
    ensures
        device == device_number(major, minor),
{
    rustix::fs::makedev(major, minor)
}

/// What an extended stat shows of an entry, if it shows its identity.
pub open spec fn linux_inspection(stat: LinuxStatx, backend: CertifiedLocalBackend) -> Option<
    Inspection,
> {
    let born = incarnation(stat.birth.seconds, stat.birth.nanoseconds);
    if stat.mask & STATX_IDENTITY_FIELDS != STATX_IDENTITY_FIELDS || born is None {
        None
    } else {
        Some(
            Inspection {
                identity: NodeIdentity {
                    kind: kind_of_mode(stat.raw_mode as u32),
                    device: device_number(stat.device_major, stat.device_minor),
                    inode: stat.inode,
                    incarnation: born->0,
                },
                uid: stat.uid,
                gid: stat.gid,
                mode: stat.raw_mode as u32 & PERMISSION_MASK,
                size: stat.size,
                nlink: stat.nlink as u64,
                mtime_sec: stat.modified.seconds,
                mtime_nsec: stat.modified.nanoseconds,
                ctime_sec: stat.changed.seconds,
                ctime_nsec: stat.changed.nanoseconds,
                content_fields_available: stat.mask & STATX_CONTENT_FIELDS == STATX_CONTENT_FIELDS,
                mount_id: stat.mount_id,
                backend,
            },
        )
    }
}

/// Reads an extended stat of an entry on `backend`.
pub fn inspection_from_linux_statx(
    stat: LinuxStatx,
    backend: CertifiedLocalBackend,
    path: &[u8],
) -> (inspection: Result<Inspection, HeldTreeError>)
    ensures
        match linux_inspection(stat, backend) {
            Some(expected) => inspection == Ok::<Inspection, HeldTreeError>(expected),
            None => inspection matches Err(error) && error@
                == TreeFault::StrongIncarnationUnavailable(path@),
        },
{
    if stat.mask & STATX_IDENTITY_FIELDS != STATX_IDENTITY_FIELDS {
        return Err(HeldTreeError::StrongIncarnationUnavailable(to_vec(path)));
    }
    let born: u64 = incarnation_from_timestamp(stat.birth.seconds, stat.birth.nanoseconds, path)?;
    Ok(
        Inspection {
            identity: NodeIdentity {
                kind: node_kind(stat.raw_mode as u32),
                device: makedev(stat.device_major, stat.device_minor),
                inode: stat.inode,
                incarnation: born,
            },
            uid: stat.uid,
            gid: stat.gid,
            mode: stat.raw_mode as u32 & PERMISSION_MASK,
            size: stat.size,
            nlink: stat.nlink as u64,
            mtime_sec: stat.modified.seconds,
            mtime_nsec: stat.modified.nanoseconds,
            ctime_sec: stat.changed.seconds,
            ctime_nsec: stat.changed.nanoseconds,
            content_fields_available: stat.mask & STATX_CONTENT_FIELDS == STATX_CONTENT_FIELDS,
            mount_id: stat.mount_id,
            backend,
        },
    )
}

/// The answer to a stat call on macOS.
#[derive(Clone, Copy, Debug, PartialEq, Eq, Structural)]
pub struct MacosStat {
    pub raw_mode: u16,
    pub device: i32,
    pub inode: u64,
    pub uid: u32,
    pub gid: u32,
    pub size: i64,
    pub nlink: u16,
    pub birth_seconds: i64,
    pub birth_nanoseconds: i64,
    pub modified_seconds: i64,
    pub modified_nanoseconds: i64,
    pub changed_seconds: i64,
    pub changed_nanoseconds: i64,
}

/// The number fits the unsigned field that it is kept in.
pub open spec fn fits_u32(number: i64) -> bool {
    0 <= number <= u32::MAX
}

/// Why a stat does not show an entry that can be proved.
pub open spec fn macos_fault(stat: MacosStat, path: Seq<u8>) -> Option<TreeFault> {
    if !fits_u32(stat.birth_nanoseconds) || stat.device < 0 || incarnation(
        stat.birth_seconds,
        stat.birth_nanoseconds as u32,
    ) is None {
        Some(TreeFault::StrongIncarnationUnavailable(path))
    } else if stat.size < 0 || !fits_u32(stat.modified_nanoseconds) || !fits_u32(
        stat.changed_nanoseconds,
    ) {
        Some(TreeFault::UnsupportedContentProof(path))
    } else {
        None
    }
}

/// What such a stat shows. The device stands for the mount.
pub open spec fn macos_inspection(stat: MacosStat, backend: CertifiedLocalBackend) -> Inspection {
    Inspection {
        identity: NodeIdentity {
            kind: kind_of_mode(stat.raw_mode as u32),
            device: stat.device as u64,
            inode: stat.inode,
            incarnation: incarnation(stat.birth_seconds, stat.birth_nanoseconds as u32)->0,
        },
        uid: stat.uid,
        gid: stat.gid,
        mode: stat.raw_mode as u32 & PERMISSION_MASK,
        size: stat.size as u64,
        nlink: stat.nlink as u64,
        mtime_sec: stat.modified_seconds,
        mtime_nsec: stat.modified_nanoseconds as u32,
        ctime_sec: stat.changed_seconds,
        ctime_nsec: stat.changed_nanoseconds as u32,
        content_fields_available: true,
        mount_id: stat.device as u64,
        backend,
    }
}

/// Reads a stat of an entry on `backend`.
pub fn inspection_from_macos_stat(
    stat: MacosStat,
    backend: CertifiedLocalBackend,
    path: &[u8],
) -> (inspection: Result<Inspection, HeldTreeError>)
    ensures
        refused_for(inspection, macos_fault(stat, path@)),
        inspection matches Ok(seen) ==> seen == macos_inspection(stat, backend),
{
    if stat.birth_nanoseconds < 0 || stat.birth_nanoseconds > u32::MAX as i64 || stat.device < 0 {
        return Err(HeldTreeError::StrongIncarnationUnavailable(to_vec(path)));
    }
    let born: u64 = incarnation_from_timestamp(
        stat.birth_seconds,
        stat.birth_nanoseconds as u32,
        path,
    )?;
    if stat.size < 0 || stat.modified_nanoseconds < 0 || stat.modified_nanoseconds
        > u32::MAX as i64 || stat.changed_nanoseconds < 0 || stat.changed_nanoseconds
        > u32::MAX as i64 {
        return Err(HeldTreeError::UnsupportedContentProof(to_vec(path)));
    }
    Ok(
        Inspection {
            identity: NodeIdentity {
                kind: node_kind(stat.raw_mode as u32),
                device: stat.device as u64,
                inode: stat.inode,
                incarnation: born,
            },
            uid: stat.uid,
            gid: stat.gid,
            mode: stat.raw_mode as u32 & PERMISSION_MASK,
            size: stat.size as u64,
            nlink: stat.nlink as u64,
            mtime_sec: stat.modified_seconds,
            mtime_nsec: stat.modified_nanoseconds as u32,
            ctime_sec: stat.changed_seconds,
            ctime_nsec: stat.changed_nanoseconds as u32,
            content_fields_available: true,
            mount_id: stat.device as u64,
            backend,
        },
    )
}

/// What an inspection shows of a regular file.
pub open spec fn observed_file(
    seen: Inspection,
    sha256: Option<[u8; 32]>,
    xattrs: RegularXattrProof,
) -> Option<RegularFileObservation> {
    if seen.identity.kind == NodeKind::Regular && seen.content_fields_available {
        Some(
            RegularFileObservation {
                identity: seen.identity,
                uid: seen.uid,
                gid: seen.gid,
                mode: seen.mode,
                size: seen.size,
                nlink: seen.nlink,
                mtime_sec: seen.mtime_sec,
                mtime_nsec: seen.mtime_nsec,
                ctime_sec: seen.ctime_sec,
                ctime_nsec: seen.ctime_nsec,
                sha256,
                xattrs,
            },
        )
    } else {
        None
    }
}

/// Why an inspection alone gives no structure evidence for a manifest of the
/// given schema.
pub open spec fn structure_fault(
    seen: Inspection,
    path: Seq<u8>,
    manifest_schema: u16,
) -> Option<TreeFault> {
    if manifest_schema == NAMES_ONLY_VERSION {
        None
    } else if manifest_schema != LEGACY_CONTENT_PROOF_VERSION && manifest_schema
        != CONTENT_PROOF_VERSION {
        Some(TreeFault::UnsupportedContentProof(path))
    } else {
        match seen.identity.kind {
            NodeKind::Directory => None,
            NodeKind::Regular => if seen.content_fields_available {
                None
            } else {
                Some(TreeFault::ContentChangedDuringHash(path))
            },
            NodeKind::Symlink => Some(TreeFault::UnsupportedContentProof(path)),
            NodeKind::Other => Some(TreeFault::UnsupportedContentProof(path)),
        }
    }
}

/// What an inspection shows of how an entry sits in the tree.
pub open spec fn seen_structure(seen: Inspection, path: Seq<u8>, manifest_schema: u16)
    -> StructureView {
    StructureView {
        path,
        identity: seen.identity,
        uid: seen.uid,
        gid: seen.gid,
        mode: seen.mode,
        stability: if manifest_schema == NAMES_ONLY_VERSION {
            StabilityView::Legacy
        } else if seen.identity.kind == NodeKind::Directory {
            StabilityView::Directory
        } else {
            StabilityView::Regular {
                size: seen.size,
                nlink: seen.nlink,
                mtime_sec: seen.mtime_sec,
                mtime_nsec: seen.mtime_nsec,
                ctime_sec: seen.ctime_sec,
                ctime_nsec: seen.ctime_nsec,
            }
        },
    }
}

impl Inspection {
    /// What was seen of a regular file.
    pub fn regular_file_observation(&self, sha256: Option<[u8; 32]>, xattrs: RegularXattrProof)
        -> (observation: Option<RegularFileObservation>)
        ensures
            observation == observed_file(*self, sha256, xattrs),
    {
        match self.identity.kind {
            NodeKind::Regular => if self.content_fields_available {
                Some(
                    RegularFileObservation {
                        identity: self.identity,
                        uid: self.uid,
                        gid: self.gid,
                        mode: self.mode,
                        size: self.size,
                        nlink: self.nlink,
                        mtime_sec: self.mtime_sec,
                        mtime_nsec: self.mtime_nsec,
                        ctime_sec: self.ctime_sec,
                        ctime_nsec: self.ctime_nsec,
                        sha256,
                        xattrs,
                    },
                )
            } else {
                None
            },
            _ => None,
        }
    }

    /// The manifest entry of what was seen, with its content.
    pub fn into_manifest(self, path: Vec<u8>, content: ContentProof) -> (entry: ManifestEntry)
        ensures
            entry@ == (EntryView {
                path: path@,
                identity: self.identity,
                uid: self.uid,
                gid: self.gid,
                mode: self.mode,
                content: content@,
            }),
    {
        ManifestEntry {
            path,
            identity: self.identity,
            uid: self.uid,
            gid: self.gid,
            mode: self.mode,
            content,
        }
    }

    /// How the entry sits in the tree. A symbolic link has to be read again for
    /// that: its length alone does not keep its target.
    pub fn structure_evidence(&self, path: Vec<u8>, manifest_schema: u16) -> (evidence: Result<
        StructureEvidence,
        HeldTreeError,
    >)
        ensures
            refused_for(evidence, structure_fault(*self, path@, manifest_schema)),
            evidence matches Ok(seen) ==> seen@ == seen_structure(*self, path@, manifest_schema),
    {
        let stability = if manifest_schema == NAMES_ONLY_VERSION {
            StructureStability::Legacy
        } else if manifest_schema != LEGACY_CONTENT_PROOF_VERSION && manifest_schema
            != CONTENT_PROOF_VERSION {
            return Err(HeldTreeError::UnsupportedContentProof(path));
        } else {
            match self.identity.kind {
                NodeKind::Directory => StructureStability::Directory,
                NodeKind::Regular => {
                    if !self.content_fields_available {
                        return Err(HeldTreeError::ContentChangedDuringHash(path));
                    }
                    StructureStability::Regular {
                        size: self.size,
                        nlink: self.nlink,
                        mtime_sec: self.mtime_sec,
                        mtime_nsec: self.mtime_nsec,
                        ctime_sec: self.ctime_sec,
                        ctime_nsec: self.ctime_nsec,
                    }
                },
                _ => {
                    return Err(HeldTreeError::UnsupportedContentProof(path));
                },
            }
        };
        Ok(
            StructureEvidence {
                path,
                identity: self.identity,
                uid: self.uid,
                gid: self.gid,
                mode: self.mode,
                stability,
            },
        )
    }

    /// Whether nothing that is seen of an entry differs.
    pub fn stable_content_fields_equal(&self, other: &Self) -> (same: bool)
        ensures
            same == (*self == *other),
    {
        *self == *other
    }
}

/// Whether what is bound to the root's name is still the root.
pub fn root_binding_matches(
    identity: NodeIdentity,
    mount_id: u64,
    backend: CertifiedLocalBackend,
    actual: &Inspection,
) -> (matches: bool)
    ensures
        matches == (actual.identity == identity && actual.mount_id == mount_id && actual.backend
            == backend),
{
    actual.identity == identity && actual.mount_id == mount_id && actual.backend == backend
}

/// The entry lies on another mount or file system.
pub open spec fn boundary_fault(
    path: Seq<u8>,
    backend: CertifiedLocalBackend,
    mount_id: u64,
    seen: Inspection,
) -> Option<TreeFault> {
    if seen.backend == backend && seen.mount_id == mount_id {
        None
    } else {
        Some(TreeFault::BackendBoundary(path))
    }
}

/// Requires that the entry lies on the given mount and file system.
pub fn require_boundary(
    path: &[u8],
    backend: CertifiedLocalBackend,
    mount_id: u64,
    inspected: &Inspection,
) -> (outcome: Result<(), HeldTreeError>)
    ensures
        refused_for(outcome, boundary_fault(path@, backend, mount_id, *inspected)),
{
    if inspected.backend == backend && inspected.mount_id == mount_id {
        Ok(())
    } else {
        Err(HeldTreeError::BackendBoundary(to_vec(path)))
    }
}

/// The entry belongs to someone else.
pub open spec fn owner_fault(path: Seq<u8>, actual: u32, expected: u32) -> Option<TreeFault> {
    if actual == expected {
        None
    } else {
        Some(TreeFault::ForeignOwner(path))
    }
}

/// Requires that the owner is the expected one.
pub fn require_owner(path: &[u8], actual: u32, expected: u32) -> (outcome: Result<
    (),
    HeldTreeError,
>)
    ensures
        refused_for(outcome, owner_fault(path@, actual, expected)),
{
    if actual == expected {
        Ok(())
    } else {
        Err(HeldTreeError::ForeignOwner(to_vec(path)))
    }
}

/// The entry is another than it was.
pub open spec fn identity_fault(
    path: Seq<u8>,
    expected: NodeIdentity,
    actual: NodeIdentity,
) -> Option<TreeFault> {
    if expected == actual {
        None
    } else {
        Some(TreeFault::IdentityChanged(path))
    }
}

/// Requires that the entry is the one that it was.
pub fn require_same_identity(
    path: &[u8],
    expected: NodeIdentity,
    actual: NodeIdentity,
) -> (outcome: Result<(), HeldTreeError>)
    ensures
        refused_for(outcome, identity_fault(path@, expected, actual)),
{
    if expected == actual {
        Ok(())
    } else {
        Err(HeldTreeError::IdentityChanged(to_vec(path)))
    }
}

/// What sealing the source parent would do to its mode.
#[derive(Clone, Copy, Debug, PartialEq, Eq, Structural)]
pub struct ProjectedParentSeal {
    pub original_mode: u32,
    pub projected_mode: u32,
}

/// Why no seal of the parent can be projected.
pub open spec fn projection_fault(parent: EvidenceView) -> Option<TreeFault> {
    if !parent.mode_verified {
        Some(TreeFault::ParentNotExclusive)
    } else if parent.snapshot.owner_uid != parent.snapshot.effective_uid {
        Some(TreeFault::ParentPolicyRejected)
    } else {
        None
    }
}

/// The projected seal: the minimal mode, with write and search for the owner.
pub open spec fn projection(parent: EvidenceView) -> ProjectedParentSeal {
    ProjectedParentSeal {
        original_mode: parent.snapshot.mode,
        projected_mode: sealed_mode(sealed_mode(parent.snapshot.mode) | 0o300),
    }
}

/// Projects the seal of the source parent. Evidence on a mode that is no longer
/// verified supports none.
pub fn projected_parent_seal(parent: &HeldLocalBackendEvidence) -> (projected: Result<
    ProjectedParentSeal,
    HeldTreeError,
>)
    ensures
        refused_for(projected, projection_fault(parent@)),
        projected matches Ok(seal) ==> seal == projection(parent@),
{
    if !parent.mode_is_verified() {
        return Err(HeldTreeError::ParentNotExclusive);
    }
    match assess_mode_seal(parent) {
        ModeSealAssessment::Candidate { original_mode, sealed_mode } => Ok(
            ProjectedParentSeal {
                original_mode,
                projected_mode: minimal_sealed_mode(sealed_mode | 0o300),
            },
        ),
        ModeSealAssessment::Denied(ModeSealDenial::NotOwner) => Err(
            HeldTreeError::ParentPolicyRejected,
        ),
    }
}

/// On what terms a source parent is accepted.
#[derive(Clone, Copy, Debug, PartialEq, Eq, Structural)]
pub enum ParentAdmission {
    /// Nobody but the owner can change its entries now.
    CurrentExclusive,
    /// Nobody but the owner could after the projected seal.
    Projected(ProjectedParentSeal),
}

/// What was seen of a source parent: its access control list, its stat or the
/// system error of the stat, its file system, and who the process is.
#[derive(Clone, Copy, Debug, PartialEq, Eq)]
pub struct ParentProbe {
    pub acl: AclProbe,
    pub stat: Result<HeldStat, i32>,
    pub backend: Result<CertifiedLocalBackend, CertificationError>,
    pub effective_uid: u32,
}

/// Why a probe fails before anything is held against it.
pub open spec fn probe_fault(probe: ParentProbe) -> Option<TreeFault> {
    if acl_refusal(probe.acl) is Some {
        Some(
            TreeFault::Certification { path: Seq::empty(), reason: acl_refusal(probe.acl)->0 },
        )
    } else if probe.stat is Err {
        Some(TreeFault::Io { path: Seq::empty(), errno: probe.stat->Err_0 })
    } else if probe.backend is Err {
        Some(TreeFault::Certification { path: Seq::empty(), reason: probe.backend->Err_0 })
    } else {
        None
    }
}

/// Why a source parent is not accepted.
pub open spec fn parent_fault(
    parent: EvidenceView,
    backend: CertifiedLocalBackend,
    admission: ParentAdmission,
    probe: ParentProbe,
) -> Option<TreeFault> {
    if probe_fault(probe) is Some {
        probe_fault(probe)
    } else {
        let stat = probe.stat->Ok_0;
        let mode = stat.raw_mode & PERMISSION_MASK;
        let is_ours = parent.snapshot.backend == backend && probe.backend->Ok_0 == backend
            && stat.uid == probe.effective_uid;
        match admission {
            ParentAdmission::CurrentExclusive => if is_ours && !has_namespace_writers(mode) {
                None
            } else {
                Some(TreeFault::ParentNotExclusive)
            },
            ParentAdmission::Projected(projected) => if projection_fault(parent) is Some {
                projection_fault(parent)
            } else if is_ours && mode == projected.original_mode && projection(parent)
                == projected && !has_namespace_writers(projected.projected_mode) {
                None
            } else {
                Some(TreeFault::ParentNotExclusive)
            },
        }
    }
}

/// The stat and the file system of a probe that found no list.
fn checked_probe(probe: ParentProbe) -> (seen: Result<
    (HeldStat, CertifiedLocalBackend),
    HeldTreeError,
>)
    ensures
        refused_for(seen, probe_fault(probe)),
        seen matches Ok((stat, backend)) ==> probe.stat == Ok::<HeldStat, i32>(stat)
            && probe.backend == Ok::<CertifiedLocalBackend, CertificationError>(backend),
{
    match require_acl_absent(probe.acl) {
        Ok(_) => {},
        Err(reason) => {
            let path: Vec<u8> = Vec::new();
            assert(path@ =~= Seq::<u8>::empty());
            return Err(HeldTreeError::Certification { path, reason });
        },
    }
    match (probe.stat, probe.backend) {
        (Ok(stat), Ok(backend)) => Ok((stat, backend)),
        (Err(errno), _) => {
            let path: Vec<u8> = Vec::new();
            assert(path@ =~= Seq::<u8>::empty());
            Err(HeldTreeError::Io { path, errno })
        },
        (Ok(_), Err(reason)) => {
            let path: Vec<u8> = Vec::new();
            assert(path@ =~= Seq::<u8>::empty());
            Err(HeldTreeError::Certification { path, reason })
        },
    }
}

/// Requires that the source parent is acceptable on the given terms.
pub fn require_parent_admission(
    parent: &HeldLocalBackendEvidence,
    backend: CertifiedLocalBackend,
    admission: ParentAdmission,
    probe: ParentProbe,
) -> (outcome: Result<(), HeldTreeError>)
    ensures
        refused_for(outcome, parent_fault(parent@, backend, admission, probe)),
{
    match admission {
        ParentAdmission::CurrentExclusive => require_exclusive_parent(parent, backend, probe),
        ParentAdmission::Projected(projected) => {
            let (stat, actual_backend) = checked_probe(probe)?;
            let refreshed = projected_parent_seal(parent)?;
            if parent.backend() != backend || actual_backend != backend || stat.uid
                != probe.effective_uid || stat.raw_mode & PERMISSION_MASK
                != projected.original_mode || refreshed.original_mode != projected.original_mode
                || refreshed.projected_mode != projected.projected_mode || grants_namespace_write(
                projected.projected_mode,
            ) {
                Err(HeldTreeError::ParentNotExclusive)
            } else {
                Ok(())
            }
        },
    }
}

/// Requires that nobody but the owner can change the entries of the source
/// parent.
pub fn require_exclusive_parent(
    parent: &HeldLocalBackendEvidence,
    backend: CertifiedLocalBackend,
    probe: ParentProbe,
) -> (outcome: Result<(), HeldTreeError>)
    ensures
        refused_for(
            outcome,
            parent_fault(parent@, backend, ParentAdmission::CurrentExclusive, probe),
        ),
{
    let (stat, actual_backend) = checked_probe(probe)?;
    if parent.backend() != backend || actual_backend != backend || stat.uid != probe.effective_uid
        || grants_namespace_write(stat.raw_mode & PERMISSION_MASK) {
        Err(HeldTreeError::ParentNotExclusive)
    } else {
        Ok(())
    }
}

/// Why what is bound to the root's name is not the root. Where it could not be
/// seen, the reason does not matter.
pub open spec fn root_binding_fault(
    identity: NodeIdentity,
    mount_id: u64,
    backend: CertifiedLocalBackend,
    seen: Result<Inspection, HeldTreeError>,
) -> Option<TreeFault> {
    match seen {
        Ok(seen) => if seen.identity == identity && seen.mount_id == mount_id && seen.backend
            == backend {
            None
        } else {
            Some(TreeFault::RootBindingChanged)
        },
        Err(_) => Some(TreeFault::RootBindingChanged),
    }
}

/// Requires that what is bound to the root's name is still the root.
pub fn verify_root_binding_fields(
    identity: NodeIdentity,
    mount_id: u64,
    backend: CertifiedLocalBackend,
    seen: Result<Inspection, HeldTreeError>,
) -> (outcome: Result<(), HeldTreeError>)
    ensures
        refused_for(outcome, root_binding_fault(identity, mount_id, backend, seen)),
{
    match seen {
        Ok(inspected) => if root_binding_matches(identity, mount_id, backend, &inspected) {
            Ok(())
        } else {
            Err(HeldTreeError::RootBindingChanged)
        },
        Err(_) => Err(HeldTreeError::RootBindingChanged),
    }
}

/// The name is one of the protected ones.
pub open spec fn protection_fault(policy: Seq<Seq<u8>>, name: Seq<u8>, path: Seq<u8>) -> Option<
    TreeFault,
> {
    if policy.contains(name) {
        Some(TreeFault::ProtectedName(path))
    } else {
        None
    }
}

/// Whether `names` has `name`.
pub fn names_contain(names: &Vec<Vec<u8>>, name: &[u8]) -> (found: bool)
    ensures
        found == views(names@).contains(name@),
{
    let mut i: usize = 0;
    while i < names.len()
        invariant
            i <= names@.len(),
            forall|n: int| 0 <= n < i ==> views(names@)[n] != name@,
        decreases names@.len() - i,
    {
        if bytes_equal(names[i].as_slice(), name) {
            assert(views(names@)[i as int] == name@);
            return true;
        }
        i += 1;
    }
    false
}

/// Requires that the name is none of the protected ones.
pub fn require_unprotected(policy: &Vec<Vec<u8>>, name: &[u8], path: &[u8]) -> (outcome: Result<
    (),
    HeldTreeError,
>)
    ensures
        refused_for(outcome, protection_fault(views(policy@), name@, path@)),
        outcome is Err <==> exists|i: int| 0 <= i < policy@.len() && (#[trigger] policy@[i])@ == name@,
{
    proof {
        let list = views(policy@);
        assert(forall|i: int| 0 <= i < list.len() ==> list[i] == (#[trigger] policy@[i])@);
        if list.contains(name@) {
            let i = choose|i: int| 0 <= i < list.len() && list[i] == name@;
            assert(policy@[i]@ == name@);
        }
    }
    if names_contain(policy, name) {
        Err(HeldTreeError::ProtectedName(to_vec(path)))
    } else {
        Ok(())
    }
}

/// The name is a path of one component, which is the name itself.
pub open spec fn is_one_component(name: Seq<u8>) -> bool {
    components(name) == seq![Component::Normal(name)]
}

/// Requires that the name is a single component.
pub fn require_one_component(name: &[u8]) -> (outcome: Result<(), HeldTreeError>)
    ensures
        refused_for(
            outcome,
            if is_one_component(name@) {
                None
            } else {
                Some(TreeFault::InvalidRoot)
            },
        ),
{
    let parts = path_components(name);
    proof {
        assert(part_views(parts@).len() == parts@.len());
        assert(parts@.len() == 1 ==> components(name@) =~= seq![parts@[0]@]);
        assert(is_one_component(name@) ==> parts@.len() == 1 && components(name@)[0]
            == Component::Normal(name@));
    }
    if parts.len() != 1 {
        return Err(HeldTreeError::InvalidRoot);
    }
    match &parts[0] {
        PathPart::Normal(component) => if bytes_equal(component.as_slice(), name) {
            Ok(())
        } else {
            Err(HeldTreeError::InvalidRoot)
        },
        _ => Err(HeldTreeError::InvalidRoot),
    }
}

/// A protected name is not a name.
pub open spec fn policy_fault(policy: Seq<Seq<u8>>) -> Option<TreeFault> {
    if forall|i: int| 0 <= i < policy.len() ==> is_one_component(#[trigger] policy[i]) {
        None
    } else {
        Some(TreeFault::InvalidRoot)
    }
}

/// Requires that every protected name is a single component.
pub fn validate_policy(policy: &Vec<Vec<u8>>) -> (outcome: Result<(), HeldTreeError>)
    ensures
        refused_for(outcome, policy_fault(views(policy@))),
{
    let mut i: usize = 0;
    while i < policy.len()
        invariant
            i <= policy@.len(),
            forall|n: int| 0 <= n < i ==> is_one_component(#[trigger] views(policy@)[n]),
        decreases policy@.len() - i,
    {
        let checked = require_one_component(policy[i].as_slice());
        assert(views(policy@)[i as int] == policy@[i as int]@);
        if checked.is_err() {
            return Err(HeldTreeError::InvalidRoot);
        }
        i += 1;
    }
    Ok(())
}

/// Why a request to walk a tree is not one.
pub open spec fn input_fault(
    root_name: Seq<u8>,
    protected_names: Seq<Seq<u8>>,
    limits: HeldTreeLimits,
) -> Option<TreeFault> {
    if !is_one_component(root_name) {
        Some(TreeFault::InvalidRoot)
    } else if policy_fault(protected_names) is Some {
        policy_fault(protected_names)
    } else if limits.max_directories > MAX_TREE_DIRECTORIES {
        Some(TreeFault::InvalidDirectoryLimit)
    } else {
        protection_fault(protected_names, root_name, Seq::empty())
    }
}

/// Requires that a request to walk a tree is one.
pub fn validate_v2_inputs(
    root_name: &[u8],
    protected_names: &Vec<Vec<u8>>,
    limits: HeldTreeLimits,
) -> (outcome: Result<(), HeldTreeError>)
    ensures
        refused_for(outcome, input_fault(root_name@, views(protected_names@), limits)),
{
    require_one_component(root_name)?;
    validate_policy(protected_names)?;
    if limits.max_directories > MAX_TREE_DIRECTORIES {
        return Err(HeldTreeError::InvalidDirectoryLimit);
    }
    let path: Vec<u8> = Vec::new();
    assert(path@ =~= Seq::<u8>::empty());
    require_unprotected(protected_names, root_name, path.as_slice())
}

/// A protected name is refused wherever it stands, and no other name is.
pub proof fn law_protection_does_not_depend_on_the_place(
    policy: Seq<Seq<u8>>,
    name: Seq<u8>,
    path: Seq<u8>,
)
    ensures
        policy.contains(name) ==> protection_fault(policy, name, path) == Some(
            TreeFault::ProtectedName(path),
        ),
        !policy.contains(name) ==> protection_fault(policy, name, path) is None,
{
}

/// A request is one where its root has a single name that is not protected, the
/// protected names are single names, and it asks for no more directories than
/// recovery can undo.
pub proof fn law_requests_are_checked(
    root_name: Seq<u8>,
    protected_names: Seq<Seq<u8>>,
    limits: HeldTreeLimits,
)
    ensures
        input_fault(root_name, protected_names, limits) is None <==> {
            &&& components(root_name) == seq![Component::Normal(root_name)]
            &&& forall|i: int|
                0 <= i < protected_names.len() ==> components(#[trigger] protected_names[i])
                    == seq![Component::Normal(protected_names[i])]
            &&& limits.max_directories <= 1023
            &&& !protected_names.contains(root_name)
        },
{
    if policy_fault(protected_names) is None {
        assert forall|i: int| 0 <= i < protected_names.len() implies components(
            #[trigger] protected_names[i],
        ) == seq![Component::Normal(protected_names[i])] by {
            assert(is_one_component(protected_names[i]));
        }
    }
}

/// What is bound to the name of the root is the root where it was seen to be the
/// same entry on the same mount of the same file system, and nowhere else.
pub proof fn law_root_binding_is_exact(
    identity: NodeIdentity,
    mount_id: u64,
    backend: CertifiedLocalBackend,
    seen: Result<Inspection, HeldTreeError>,
)
    ensures
        root_binding_fault(identity, mount_id, backend, seen) is None <==> (seen matches Ok(found)
            && found.identity.kind == identity.kind && found.identity.device == identity.device
            && found.identity.inode == identity.inode && found.identity.incarnation
            == identity.incarnation && found.mount_id == mount_id && found.backend == backend),
{
}

/// An entry passes where it belongs to whom it has to, lies on the mount and the
/// file system that it has to, and is the one that it was, each for itself.
pub proof fn law_entries_are_checked(
    path: Seq<u8>,
    expected_uid: u32,
    backend: CertifiedLocalBackend,
    mount_id: u64,
    expected: NodeIdentity,
    seen: Inspection,
)
    ensures
        owner_fault(path, seen.uid, expected_uid) == if seen.uid == expected_uid {
            None
        } else {
            Some(TreeFault::ForeignOwner(path))
        },
        boundary_fault(path, backend, mount_id, seen) is None <==> seen.backend == backend
            && seen.mount_id == mount_id,
        identity_fault(path, expected, seen.identity) is None <==> seen.identity.kind
            == expected.kind && seen.identity.device == expected.device && seen.identity.inode
            == expected.inode && seen.identity.incarnation == expected.incarnation,
{
}

/// A check that fails names the entry and what is wrong with it.
pub proof fn law_failed_checks_name_the_entry(
    path: Seq<u8>,
    backend: CertifiedLocalBackend,
    mount_id: u64,
    expected: NodeIdentity,
    seen: Inspection,
)
    ensures
        seen.backend != backend || seen.mount_id != mount_id ==> boundary_fault(
            path,
            backend,
            mount_id,
            seen,
        ) == Some(TreeFault::BackendBoundary(path)),
        seen.identity != expected ==> identity_fault(path, expected, seen.identity) == Some(
            TreeFault::IdentityChanged(path),
        ),
        seen.identity != expected || seen.mount_id != mount_id || seen.backend != backend
            ==> root_binding_fault(
            expected,
            mount_id,
            backend,
            Ok::<Inspection, HeldTreeError>(seen),
        ) == Some(TreeFault::RootBindingChanged),
{
}

/// A source parent passes only where it has no access control list, is on the
/// file system asked for, belongs to whom the process acts for, and is left to
/// its owner alone: as it is, or once the seal that was projected from exactly
/// this mode is made. An exclusive parent that is all of that passes.
pub proof fn law_parents_are_left_to_their_owners(
    parent: EvidenceView,
    backend: CertifiedLocalBackend,
    admission: ParentAdmission,
    probe: ParentProbe,
)
    ensures
        parent_fault(parent, backend, admission, probe) is None ==> {
            &&& probe.acl == AclProbe::Absent
            &&& probe.backend == Ok::<CertifiedLocalBackend, CertificationError>(backend)
            &&& parent.snapshot.backend == backend
            &&& probe.stat matches Ok(stat) && stat.uid == probe.effective_uid && match admission {
                ParentAdmission::CurrentExclusive => stat.raw_mode & 0o030 != 0o030
                    && stat.raw_mode & 0o003 != 0o003,
                ParentAdmission::Projected(seal) => {
                    &&& parent.mode_verified
                    &&& parent.snapshot.owner_uid == parent.snapshot.effective_uid
                    &&& stat.raw_mode & 0o7777 == parent.snapshot.mode
                    &&& seal.original_mode == parent.snapshot.mode
                    &&& seal.projected_mode & 0o030 != 0o030
                    &&& seal.projected_mode & 0o003 != 0o003
                    &&& seal.projected_mode & 0o300 == 0o300
                    &&& seal.projected_mode & !0o322u32 == seal.original_mode & !0o322u32
                },
            }
        },
        probe.acl == AclProbe::Absent && probe.backend == Ok::<
            CertifiedLocalBackend,
            CertificationError,
        >(backend) && parent.snapshot.backend == backend && (probe.stat matches Ok(stat)
            && stat.uid == probe.effective_uid && stat.raw_mode & 0o030 != 0o030 && stat.raw_mode
            & 0o003 != 0o003) ==> parent_fault(
            parent,
            backend,
            ParentAdmission::CurrentExclusive,
            probe,
        ) is None,
{
    if probe.stat is Ok {
        let raw = probe.stat->Ok_0.raw_mode;
        assert(raw & 0o7777 & 0o030 == raw & 0o030 && raw & 0o7777 & 0o003 == raw & 0o003)
            by (bit_vector);
    }
    let mode = parent.snapshot.mode;
    law_projection_is_exclusive(parent);
    crate::authority::local_mode::law_sealing(mode);
    let base = sealed_mode(mode);
    crate::authority::local_mode::law_sealing(base | 0o300);
    let opened = base | 0o300;
    let projected = sealed_mode(opened);
    assert(projected & !0o322u32 == mode & !0o322u32) by (bit_vector)
        requires
            base & !0o022u32 == mode & !0o022u32,
            opened == base | 0o300,
            projected & !0o022u32 == opened & !0o022u32,
    ;
}

/// The projected seal leaves the source parent to its owner, who can write and
/// search it.
pub proof fn law_projection_is_exclusive(parent: EvidenceView)
    ensures
        !has_namespace_writers(projection(parent).projected_mode),
        projection(parent).projected_mode & 0o300 == 0o300,
{
    crate::authority::local_mode::law_sealing(sealed_mode(parent.snapshot.mode) | 0o300);
    let base = sealed_mode(parent.snapshot.mode);
    let opened = base | 0o300;
    let projected = sealed_mode(opened);
    assert(projected & 0o300 == 0o300) by (bit_vector)
        requires
            projected & !0o022u32 == opened & !0o022u32,
            opened == base | 0o300,
    ;
}

/// What an extended stat shows is taken over as it is, and only where it shows all
/// of the identity, with a time of birth that can be told from any other.
pub proof fn law_stats_are_taken_over(stat: LinuxStatx, backend: CertifiedLocalBackend)
    ensures
        linux_inspection(stat, backend) is Some <==> stat.mask & 0x191b == 0x191b
            && stat.birth.nanoseconds < 1_000_000_000 && stat.birth.seconds >= 0
            && stat.birth.seconds * 1_000_000_000 + stat.birth.nanoseconds <= u64::MAX,
        linux_inspection(stat, backend) matches Some(seen) ==> {
            &&& seen.identity.incarnation == stat.birth.seconds * 1_000_000_000
                + stat.birth.nanoseconds
            &&& seen.identity.inode == stat.inode
            &&& seen.uid == stat.uid
            &&& seen.gid == stat.gid
            &&& seen.mode == stat.raw_mode as u32 & 0o7777
            &&& seen.size == stat.size
            &&& seen.nlink == stat.nlink
            &&& seen.mtime_sec == stat.modified.seconds
            &&& seen.mtime_nsec == stat.modified.nanoseconds
            &&& seen.ctime_sec == stat.changed.seconds
            &&& seen.ctime_nsec == stat.changed.nanoseconds
            &&& seen.content_fields_available <==> stat.mask & 0x2c4 == 0x2c4
            &&& seen.mount_id == stat.mount_id
            &&& seen.backend == backend
            &&& seen.identity.kind == NodeKind::Directory <==> stat.raw_mode as u32 & 0o170000
                == 0o040000
            &&& seen.identity.kind == NodeKind::Regular <==> stat.raw_mode as u32 & 0o170000
                == 0o100000
            &&& seen.identity.kind == NodeKind::Symlink <==> stat.raw_mode as u32 & 0o170000
                == 0o120000
        },
{
}

/// Two times of birth that can be told apart give different incarnations.
pub proof fn law_incarnations_tell_births_apart(
    seconds: i64,
    nanos: u32,
    other_seconds: i64,
    other_nanos: u32,
)
    requires
        incarnation(seconds, nanos) is Some,
        incarnation(seconds, nanos) == incarnation(other_seconds, other_nanos),
    ensures
        seconds == other_seconds,
        nanos == other_nanos,
{
}

/// What the stat of macOS shows is taken over as it is, with the device in place
/// of the mount.
pub proof fn law_macos_stats_are_taken_over(
    stat: MacosStat,
    backend: CertifiedLocalBackend,
    path: Seq<u8>,
)
    ensures
        macos_fault(stat, path) is None <==> {
            &&& stat.device >= 0
            &&& stat.size >= 0
            &&& 0 <= stat.birth_nanoseconds < 1_000_000_000
            &&& stat.birth_seconds >= 0
            &&& stat.birth_seconds * 1_000_000_000 + stat.birth_nanoseconds <= u64::MAX
            &&& 0 <= stat.modified_nanoseconds <= u32::MAX
            &&& 0 <= stat.changed_nanoseconds <= u32::MAX
        },
        macos_fault(stat, path) is None ==> {
            let seen = macos_inspection(stat, backend);
            &&& seen.identity.incarnation == stat.birth_seconds * 1_000_000_000
                + stat.birth_nanoseconds
            &&& seen.identity.device == stat.device
            &&& seen.identity.inode == stat.inode
            &&& seen.mount_id == stat.device
            &&& seen.uid == stat.uid
            &&& seen.gid == stat.gid
            &&& seen.mode == stat.raw_mode as u32 & 0o7777
            &&& seen.size == stat.size
            &&& seen.nlink == stat.nlink
            &&& seen.mtime_sec == stat.modified_seconds
            &&& seen.mtime_nsec == stat.modified_nanoseconds
            &&& seen.ctime_sec == stat.changed_seconds
            &&& seen.ctime_nsec == stat.changed_nanoseconds
            &&& seen.backend == backend
        },
{
}

/// What one look shows of how an entry sits is taken over as it is; a link has to
/// be read for that, and what is no directory, file or link sits nowhere.
pub proof fn law_seen_structure_is_what_is_seen(
    seen: Inspection,
    path: Seq<u8>,
    manifest_schema: u16,
)
    ensures
        structure_fault(seen, path, manifest_schema) is None <==> manifest_schema == 1 || ((
        manifest_schema == 2 || manifest_schema == 3) && (seen.identity.kind == NodeKind::Directory
            || (seen.identity.kind == NodeKind::Regular && seen.content_fields_available))),
        ({
            let structure = seen_structure(seen, path, manifest_schema);
            &&& structure.path == path
            &&& structure.identity == seen.identity
            &&& structure.uid == seen.uid
            &&& structure.gid == seen.gid
            &&& structure.mode == seen.mode
            &&& manifest_schema != 1 && seen.identity.kind == NodeKind::Regular
                ==> structure.stability == (StabilityView::Regular {
                size: seen.size,
                nlink: seen.nlink,
                mtime_sec: seen.mtime_sec,
                mtime_nsec: seen.mtime_nsec,
                ctime_sec: seen.ctime_sec,
                ctime_nsec: seen.ctime_nsec,
            })
            &&& manifest_schema != 1 && seen.identity.kind == NodeKind::Directory
                ==> structure.stability is Directory
        }),
{
}

} // verus!
