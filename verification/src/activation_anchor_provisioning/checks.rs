//! What the directories on the way to an anchor have to be.

use crate::activation::error::IoFault;
use crate::activation::publication::FileClass;
use crate::activation::publication::FileStat;
use crate::activation_anchor_provisioning::error::first_of;
use crate::activation_anchor_provisioning::error::unprovisioned_for;
use crate::activation_anchor_provisioning::error::ActivationAnchorProvisioningError;
use crate::activation_anchor_provisioning::error::ProvisionFault;
use crate::backend::certify::CertificationError;
use crate::backend::certify::CertifiedLocalBackend;
use crate::backend::held::inventory::StrongObjectIdentity;
use crate::bytes::to_vec;
use vstd::prelude::*;

verus! {

/// The mode of an anchor.
pub const LEAF_MODE: u32 = 0o700;

/// The mode of the directories above it.
pub const PUBLIC_MODE: u32 = 0o755;

/// The mode of the lock.
pub const PRIVATE_LOCK_MODE: u32 = 0o700;

/// What a directory on the way is for.
#[derive(Clone, Copy, Debug, PartialEq, Eq, Structural)]
pub enum DirectoryKind {
    /// The system provides it.
    System,
    /// It was made for anchors, and everybody may look into it.
    Public,
    /// It is the anchor of that account.
    Leaf(u32),
    /// It is the lock of those who make anchors.
    PrivateLock,
}

/// What is seen of an open directory.
#[derive(Clone, Copy, Debug, PartialEq, Eq)]
pub struct DirectoryProbe {
    pub stat: Result<FileStat, IoFault>,
    pub acl: Result<(), CertificationError>,
    pub backend: Result<CertifiedLocalBackend, CertificationError>,
    pub identity: Option<StrongObjectIdentity>,
    /// Whether the descriptor could be held on to.
    pub held: Result<(), IoFault>,
}

/// A directory that is what it has to be.
#[derive(Clone, Copy, Debug, PartialEq, Eq, Structural)]
pub struct ValidatedDirectory {
    pub identity: StrongObjectIdentity,
    pub backend: CertifiedLocalBackend,
}

/// What a failed certification means.
pub open spec fn certification_fault(path: Seq<u8>, reason: CertificationError) -> ProvisionFault {
    match reason {
        CertificationError::UnsupportedPlatform => ProvisionFault::UnsupportedBackend {
            path,
            reason,
        },
        CertificationError::UnsupportedFilesystem => ProvisionFault::UnsupportedBackend {
            path,
            reason,
        },
        CertificationError::FilesystemMagicMismatch => unsafe_entry(path),
        CertificationError::NotDirectory => unsafe_entry(path),
        CertificationError::AclPresent => unsafe_entry(path),
        reason => ProvisionFault::Uncertain { path, reason },
    }
}

/// What is there contradicts itself.
pub open spec fn unsafe_entry(path: Seq<u8>) -> ProvisionFault {
    ProvisionFault::Unsafe { path, reason: "entry type, ACL, or filesystem identity is unsafe"@ }
}

/// What a failed certification means.
pub fn certification_error(path: &[u8], reason: CertificationError) -> (error:
    ActivationAnchorProvisioningError)
    ensures
        error@ == certification_fault(path@, reason),
{
    let path = to_vec(path);
    match reason {
        CertificationError::UnsupportedPlatform =>
            ActivationAnchorProvisioningError::UnsupportedBackend { path, reason },
        CertificationError::UnsupportedFilesystem =>
            ActivationAnchorProvisioningError::UnsupportedBackend { path, reason },
        CertificationError::FilesystemMagicMismatch => ActivationAnchorProvisioningError::Unsafe {
            path,
            reason: "entry type, ACL, or filesystem identity is unsafe",
        },
        CertificationError::NotDirectory => ActivationAnchorProvisioningError::Unsafe {
            path,
            reason: "entry type, ACL, or filesystem identity is unsafe",
        },
        CertificationError::AclPresent => ActivationAnchorProvisioningError::Unsafe {
            path,
            reason: "entry type, ACL, or filesystem identity is unsafe",
        },
        reason => ActivationAnchorProvisioningError::Uncertain { path, reason },
    }
}

/// Why a directory that was opened by its name could not be.
pub open spec fn opening_fault(path: Seq<u8>, opened: Result<(), IoFault>) -> Option<
    ProvisionFault,
> {
    match opened {
        Ok(_) => None,
        Err(IoFault::Loop) => Some(
            ProvisionFault::Unsafe { path, reason: "entry is not a no-follow directory"@ },
        ),
        Err(IoFault::NotDirectory) => Some(
            ProvisionFault::Unsafe { path, reason: "entry is not a no-follow directory"@ },
        ),
        Err(fault) => Some(ProvisionFault::Io { path, fault }),
    }
}

/// Requires that a directory could be opened.
pub fn require_opened(path: &[u8], opened: Result<(), IoFault>) -> (outcome: Result<
    (),
    ActivationAnchorProvisioningError,
>)
    ensures
        unprovisioned_for(outcome, opening_fault(path@, opened)),
{
    match opened {
        Ok(_) => Ok(()),
        Err(IoFault::Loop) => Err(
            ActivationAnchorProvisioningError::Unsafe {
                path: to_vec(path),
                reason: "entry is not a no-follow directory",
            },
        ),
        Err(IoFault::NotDirectory) => Err(
            ActivationAnchorProvisioningError::Unsafe {
                path: to_vec(path),
                reason: "entry is not a no-follow directory",
            },
        ),
        Err(fault) => Err(ActivationAnchorProvisioningError::Io { path: to_vec(path), fault }),
    }
}

/// Why the mode of a directory is not the one it has to have.
pub open spec fn mode_reason(kind: DirectoryKind, mode: u32) -> Option<Seq<char>> {
    match kind {
        DirectoryKind::System => if mode & 0o7777 & 0o022 != 0 {
            Some("system activation-anchor component grants group or other write"@)
        } else {
            None
        },
        DirectoryKind::Public => if mode & 0o7777 != PUBLIC_MODE {
            Some("public activation-anchor component mode is not exactly 0755"@)
        } else {
            None
        },
        DirectoryKind::PrivateLock => if mode & 0o7777 != PRIVATE_LOCK_MODE {
            Some("private provisioning lock mode is not exactly 0700"@)
        } else {
            None
        },
        DirectoryKind::Leaf(_) => if mode & 0o7777 != LEAF_MODE {
            Some("activation-anchor leaf mode is not exactly 0700"@)
        } else {
            None
        },
    }
}

fn mode_problem(kind: DirectoryKind, mode: u32) -> (reason: Option<&'static str>)
    ensures
        match reason {
            Some(text) => mode_reason(kind, mode) == Some(text@),
            None => mode_reason(kind, mode) is None,
        },
{
    match kind {
        DirectoryKind::System => if mode & 0o7777 & 0o022 != 0 {
            Some("system activation-anchor component grants group or other write")
        } else {
            None
        },
        DirectoryKind::Public => if mode & 0o7777 != PUBLIC_MODE {
            Some("public activation-anchor component mode is not exactly 0755")
        } else {
            None
        },
        DirectoryKind::PrivateLock => if mode & 0o7777 != PRIVATE_LOCK_MODE {
            Some("private provisioning lock mode is not exactly 0700")
        } else {
            None
        },
        DirectoryKind::Leaf(_) => if mode & 0o7777 != LEAF_MODE {
            Some("activation-anchor leaf mode is not exactly 0700")
        } else {
            None
        },
    }
}

/// What is said of a directory with another owner.
pub open spec fn owner_reason(kind: DirectoryKind) -> Seq<char> {
    match kind {
        DirectoryKind::Leaf(_) => "activation-anchor leaf has the wrong owner"@,
        _ => "activation-anchor namespace component is not root-owned"@,
    }
}

/// Why what is seen of a directory is not what it has to be.
pub open spec fn stat_fault(path: Seq<u8>, owner: u32, kind: DirectoryKind, stat: FileStat)
    -> Option<ProvisionFault> {
    if stat.class != FileClass::Directory {
        Some(ProvisionFault::Unsafe { path, reason: "entry is not a directory"@ })
    } else if stat.uid != owner {
        Some(ProvisionFault::Unsafe { path, reason: owner_reason(kind) })
    } else {
        match mode_reason(kind, stat.mode) {
            Some(reason) => Some(ProvisionFault::Unsafe { path, reason }),
            None => None,
        }
    }
}

/// Why a directory is not what it has to be.
pub open spec fn directory_fault(
    path: Seq<u8>,
    owner: u32,
    kind: DirectoryKind,
    probe: DirectoryProbe,
) -> Option<ProvisionFault> {
    match probe.stat {
        Err(fault) => Some(ProvisionFault::Io { path, fault }),
        Ok(stat) => first_of(
            stat_fault(path, owner, kind, stat),
            match (probe.acl, probe.backend, probe.identity, probe.held) {
                (Err(reason), _, _, _) => Some(certification_fault(path, reason)),
                (Ok(_), Err(reason), _, _) => Some(certification_fault(path, reason)),
                (Ok(_), Ok(_), None, _) => Some(
                    ProvisionFault::Unsafe { path, reason: "strong birth identity is unavailable"@ },
                ),
                (Ok(_), Ok(_), Some(_), Err(fault)) => Some(ProvisionFault::Io { path, fault }),
                (Ok(_), Ok(_), Some(_), Ok(_)) => None,
            },
        ),
    }
}

/// Requires that a directory is what it has to be.
pub fn validate_directory(path: &[u8], owner: u32, kind: DirectoryKind, probe: DirectoryProbe)
    -> (validated: Result<ValidatedDirectory, ActivationAnchorProvisioningError>)
    ensures
        unprovisioned_for(validated, directory_fault(path@, owner, kind, probe)),
        validated matches Ok(found) ==> probe.identity == Some(found.identity) && probe.backend
            == Ok::<CertifiedLocalBackend, CertificationError>(found.backend),
        probe.stat matches Ok(stat) && stat.class == FileClass::Directory && stat.uid == owner
            && kind == DirectoryKind::System && stat.mode & 0o022 == 0 && probe.acl is Ok
            && probe.backend is Ok && probe.identity is Some && probe.held is Ok ==> validated
            is Ok,
        validated is Ok ==> (probe.stat matches Ok(stat) && stat.uid == owner && stat.mode & 0o022
            == 0),
{
    proof {
        law_directories_pass_where_they_are_sound(path@, owner, kind, probe);
        if directory_fault(path@, owner, kind, probe) is None {
            law_directories_are_their_owners(path@, owner, kind, probe);
        }
    }
    let stat = match probe.stat {
        Ok(stat) => stat,
        Err(fault) => {
            return Err(ActivationAnchorProvisioningError::Io { path: to_vec(path), fault });
        },
    };
    if stat.class != FileClass::Directory {
        return Err(
            ActivationAnchorProvisioningError::Unsafe {
                path: to_vec(path),
                reason: "entry is not a directory",
            },
        );
    }
    if stat.uid != owner {
        return Err(
            ActivationAnchorProvisioningError::Unsafe {
                path: to_vec(path),
                reason: match kind {
                    DirectoryKind::Leaf(_) => "activation-anchor leaf has the wrong owner",
                    _ => "activation-anchor namespace component is not root-owned",
                },
            },
        );
    }
    match mode_problem(kind, stat.mode) {
        Some(reason) => {
            return Err(ActivationAnchorProvisioningError::Unsafe { path: to_vec(path), reason });
        },
        None => {},
    }
    match probe.acl {
        Ok(_) => {},
        Err(reason) => {
            return Err(certification_error(path, reason));
        },
    }
    let backend = match probe.backend {
        Ok(backend) => backend,
        Err(reason) => {
            return Err(certification_error(path, reason));
        },
    };
    let identity = match probe.identity {
        Some(identity) => identity,
        None => {
            return Err(
                ActivationAnchorProvisioningError::Unsafe {
                    path: to_vec(path),
                    reason: "strong birth identity is unavailable",
                },
            );
        },
    };
    match probe.held {
        Ok(_) => Ok(ValidatedDirectory { identity, backend }),
        Err(fault) => Err(ActivationAnchorProvisioningError::Io { path: to_vec(path), fault }),
    }
}

/// What is seen of a directory under its name and through its descriptor.
#[derive(Clone, Copy, Debug, PartialEq, Eq)]
pub struct EntryProbe {
    pub entry: Result<FileStat, IoFault>,
    pub opened: Result<FileStat, IoFault>,
    pub identity: Option<StrongObjectIdentity>,
}

/// The name leads to the directory that is open, or why that is not known.
pub open spec fn binding_match(probe: EntryProbe) -> Result<bool, IoFault> {
    match (probe.entry, probe.opened) {
        (Err(fault), _) => Err(fault),
        (Ok(_), Err(fault)) => Err(fault),
        (Ok(entry), Ok(opened)) => Ok(
            entry.device == opened.device && entry.inode == opened.inode && entry.class
                == FileClass::Directory,
        ),
    }
}

/// Whether the name leads to the directory that is open.
pub fn binding_matches(probe: &EntryProbe) -> (matches: Result<bool, IoFault>)
    ensures
        matches == binding_match(*probe),
{
    let entry = match probe.entry {
        Ok(entry) => entry,
        Err(fault) => {
            return Err(fault);
        },
    };
    let opened = match probe.opened {
        Ok(opened) => opened,
        Err(fault) => {
            return Err(fault);
        },
    };
    Ok(
        entry.device == opened.device && entry.inode == opened.inode && entry.class
            == FileClass::Directory,
    )
}

/// Why the name does not lead to the directory that is open, or this is not the
/// one it has to be.
pub open spec fn entry_fault(
    path: Seq<u8>,
    identity: StrongObjectIdentity,
    probe: EntryProbe,
    reason: Seq<char>,
) -> Option<ProvisionFault> {
    match binding_match(probe) {
        Err(fault) => Some(ProvisionFault::Io { path, fault }),
        Ok(matches) => if matches && probe.identity == Some(identity) {
            None
        } else {
            Some(ProvisionFault::Unsafe { path, reason })
        },
    }
}

/// Why a held directory is no longer the one under its name.
pub open spec fn binding_fault(path: Seq<u8>, identity: StrongObjectIdentity, probe: EntryProbe)
    -> Option<ProvisionFault> {
    entry_fault(path, identity, probe, "held directory is no longer the exact parent entry"@)
}

/// Requires that the name leads to the directory that is held.
pub fn validate_binding(path: &[u8], identity: StrongObjectIdentity, probe: EntryProbe) -> (outcome:
    Result<(), ActivationAnchorProvisioningError>)
    ensures
        unprovisioned_for(outcome, binding_fault(path@, identity, probe)),
{
    match binding_matches(&probe) {
        Err(fault) => Err(ActivationAnchorProvisioningError::Io { path: to_vec(path), fault }),
        Ok(matches) => {
            let same = match probe.identity {
                Some(found) => found == identity,
                None => false,
            };
            if matches && same {
                Ok(())
            } else {
                Err(
                    ActivationAnchorProvisioningError::Unsafe {
                        path: to_vec(path),
                        reason: "held directory is no longer the exact parent entry",
                    },
                )
            }
        },
    }
}

/// A directory passes wherever it belongs to whom it has to, is on a certified
/// file system, has a strong identity and no access control list, could be held,
/// and has the mode of its kind. One of the system may have any mode that lets
/// neither the group nor everyone write; one that was made for anchors has
/// exactly the mode that it was made with.
pub proof fn law_directories_pass_where_they_are_sound(
    path: Seq<u8>,
    owner: u32,
    kind: DirectoryKind,
    probe: DirectoryProbe,
)
    ensures
        directory_fault(path, owner, kind, probe) is None <==> {
            &&& probe.stat matches Ok(stat) && stat.class == FileClass::Directory && stat.uid
                == owner && match kind {
                DirectoryKind::System => stat.mode & 0o022 == 0,
                DirectoryKind::Public => stat.mode & 0o7777 == 0o755,
                DirectoryKind::Leaf(_) => stat.mode & 0o7777 == 0o700,
                DirectoryKind::PrivateLock => stat.mode & 0o7777 == 0o700,
            }
            &&& probe.acl is Ok
            &&& probe.backend is Ok
            &&& probe.identity is Some
            &&& probe.held is Ok
        },
{
    if probe.stat is Ok {
        let mode = probe.stat->Ok_0.mode;
        assert(mode & 0o7777 & 0o022 == mode & 0o022) by (bit_vector);
    }
}

/// Which bits a directory of the system has beside the write bits of the group
/// and of everyone makes no difference.
pub proof fn law_other_bits_of_system_directories_are_free(
    path: Seq<u8>,
    owner: u32,
    probe: DirectoryProbe,
    stat: FileStat,
    mode: u32,
)
    requires
        probe.stat == Ok::<FileStat, IoFault>(stat),
        mode & 0o022 == stat.mode & 0o022,
    ensures
        directory_fault(path, owner, DirectoryKind::System, probe) == directory_fault(
            path,
            owner,
            DirectoryKind::System,
            DirectoryProbe { stat: Ok(FileStat { mode, ..stat }), ..probe },
        ),
{
    let seen = stat.mode;
    assert(mode & 0o7777 & 0o022 == mode & 0o022) by (bit_vector);
    assert(seen & 0o7777 & 0o022 == seen & 0o022) by (bit_vector);
}

/// A name leads to the directory that is held where both are the same directory
/// on the same device, with the strong identity that was recorded, and nowhere
/// else.
pub proof fn law_binding_needs_the_same_directory(
    path: Seq<u8>,
    identity: StrongObjectIdentity,
    probe: EntryProbe,
)
    ensures
        binding_fault(path, identity, probe) is None <==> (probe.entry matches Ok(entry) && (
        probe.opened matches Ok(opened) && {
            &&& entry.class == FileClass::Directory
            &&& entry.device == opened.device
            &&& entry.inode == opened.inode
            &&& probe.identity == Some(identity)
        })),
{
}

/// Nobody but the owner can change a directory that passes.
pub proof fn law_directories_are_their_owners(
    path: Seq<u8>,
    owner: u32,
    kind: DirectoryKind,
    probe: DirectoryProbe,
)
    requires
        directory_fault(path, owner, kind, probe) is None,
    ensures
        probe.stat matches Ok(stat) && stat.class == FileClass::Directory && stat.uid == owner
            && stat.mode & 0o022 == 0,
        probe.acl is Ok,
{
    let mode = probe.stat->Ok_0.mode;
    assert(mode & 0o7777 & 0o022 == 0 || mode & 0o7777 == 0o755 || mode & 0o7777 == 0o700);
    assert(mode & 0o022 == 0) by (bit_vector)
        requires
            mode & 0o7777 & 0o022 == 0 || mode & 0o7777 == 0o755 || mode & 0o7777 == 0o700,
    ;
}

} // verus!
