//! Opening an anchor.
//!
//! An anchor is only opened under the lock of those who make anchors, so that
//! none is seen half made. It has to belong to who it should, to be what stands
//! under its name, and to lie where nobody else can put another in its place.

use crate::activation::error::refused_as;
use crate::activation::error::unsafe_anchor;
use crate::activation::error::untrusted;
use crate::activation::error::ActivationFault;
use crate::activation::error::IoFault;
use crate::activation::error::StoreActivationError;
use crate::activation::error::StoreError;
use crate::activation::publication::require_synced;
use crate::activation::publication::sync_fault;
use crate::activation::publication::FileClass;
use crate::activation::publication::FileStat;
use crate::activation::record::is_locator;
use crate::activation::record::validate_absolute_locator;
use crate::activation::record::BoundObject;
use crate::activation::record::BoundView;
use crate::activation::selection::ActivationAnchorLocator;
use crate::activation::selection::AnchorKind;
use crate::backend::certify::CertificationError;
use crate::backend::certify::CertifiedLocalBackend;
use crate::backend::held::inventory::StrongObjectIdentity;
use crate::bytes::to_vec;
use crate::paths::enclosing;
use crate::paths::enclosing_directory;
use crate::paths::paths_equal;
use crate::paths::push_path;
use crate::paths::pushed;
use crate::paths::SLASH;
use crate::paths::same_path;
use vstd::prelude::*;
use vstd::utf8::encode_utf8;

verus! {

/// The name of the lock of those who make anchors.
pub const PROVISIONING_LOCK_NAME: &'static str = ".anchor-provisioning-lock";

/// Where the lock of those who make anchors lies.
#[derive(Debug)]
pub struct LockPlace {
    pub lock_path: Vec<u8>,
    pub product_root: Vec<u8>,
}

/// The directory two levels above an anchor.
pub open spec fn product_root_of(anchor: Seq<u8>) -> Option<Seq<u8>> {
    match enclosing(anchor) {
        Some(store_parent) => enclosing(store_parent),
        None => None,
    }
}

/// Where the lock for an anchor lies.
pub fn lock_place(locator: &ActivationAnchorLocator) -> (place: Result<
    LockPlace,
    StoreActivationError,
>)
    ensures
        refused_as(
            place,
            if product_root_of(locator.path@) is Some {
                None
            } else {
                Some(ActivationFault::InvalidLocator)
            },
        ),
        place matches Ok(found) ==> product_root_of(locator.path@) == Some(found.product_root@)
            && found.lock_path@ == pushed(
            found.product_root@,
            encode_utf8(PROVISIONING_LOCK_NAME@),
        ),
{
    let store_parent = match enclosing_directory(locator.path.as_slice()) {
        Some(directory) => directory,
        None => {
            return Err(StoreActivationError::InvalidLocator);
        },
    };
    match enclosing_directory(store_parent.as_slice()) {
        Some(product_root) => {
            let lock_path = push_path(product_root.as_slice(), PROVISIONING_LOCK_NAME.as_bytes());
            Ok(LockPlace { lock_path, product_root })
        },
        None => Err(StoreActivationError::InvalidLocator),
    }
}

/// Whether the lock is there, given what looking for it came to.
pub fn lock_is_present(place: &LockPlace, metadata: Result<(), IoFault>) -> (present: Result<
    bool,
    StoreActivationError,
>)
    ensures
        match metadata {
            Ok(_) => present == Ok::<bool, StoreActivationError>(true),
            Err(IoFault::NotFound) => present == Ok::<bool, StoreActivationError>(false),
            Err(fault) => present matches Err(error) && error@ == (ActivationFault::Io {
                path: place.lock_path@,
                fault,
            }),
        },
{
    match metadata {
        Ok(_) => Ok(true),
        Err(IoFault::NotFound) => Ok(false),
        Err(fault) => Err(
            StoreActivationError::Io { path: to_vec(place.lock_path.as_slice()), fault },
        ),
    }
}

/// Why the directory above the lock is not the one that the lock lies in.
pub open spec fn lock_parent_fault(product_root: Seq<u8>, parent: Result<Vec<u8>, StoreError>)
    -> Option<ActivationFault> {
    match parent {
        Err(error) => Some(ActivationFault::UnsafeAnchor(error@)),
        Ok(path) => if same_path(path@, product_root) {
            None
        } else {
            Some(ActivationFault::InvalidLocator)
        },
    }
}

/// Requires that the directory above the lock is the one that the lock lies in,
/// before the lock is opened.
pub fn require_lock_parent(place: &LockPlace, parent: Result<Vec<u8>, StoreError>) -> (outcome:
    Result<(), StoreActivationError>)
    ensures
        refused_as(outcome, lock_parent_fault(place.product_root@, parent)),
{
    match parent {
        Ok(path) => if paths_equal(path.as_slice(), place.product_root.as_slice()) {
            Ok(())
        } else {
            Err(StoreActivationError::InvalidLocator)
        },
        Err(error) => Err(StoreActivationError::UnsafeAnchor(error)),
    }
}

/// What is seen of the lock: when it is opened, of the opened lock, and under its
/// name.
#[derive(Debug)]
pub struct LockProbe {
    pub opened: Result<(), IoFault>,
    pub stat: Result<FileStat, IoFault>,
    pub acl: Result<(), CertificationError>,
    pub backend: Result<CertifiedLocalBackend, CertificationError>,
    pub entry: Result<FileStat, IoFault>,
    pub euid: u32,
}

/// Who has to own what belongs to an anchor.
pub open spec fn owner_of(kind: AnchorKind, euid: u32) -> u32 {
    match kind {
        AnchorKind::System => 0,
        AnchorKind::SelfManaged => euid,
    }
}

fn expected_owner(kind: AnchorKind, euid: u32) -> (owner: u32)
    ensures
        owner == owner_of(kind, euid),
{
    match kind {
        AnchorKind::System => 0,
        AnchorKind::SelfManaged => euid,
    }
}

/// The two are the same directory, as the name shows it.
pub open spec fn is_same_directory(entry: FileStat, opened: FileStat) -> bool {
    entry.device == opened.device && entry.inode == opened.inode && entry.class
        == FileClass::Directory
}

/// Why the lock is not to be trusted.
pub open spec fn lock_fault(kind: AnchorKind, lock_path: Seq<u8>, probe: LockProbe) -> Option<
    ActivationFault,
> {
    match (probe.opened, probe.stat) {
        (Err(fault), _) => Some(ActivationFault::Io { path: lock_path, fault }),
        (Ok(_), Err(fault)) => Some(ActivationFault::Io { path: lock_path, fault }),
        (Ok(_), Ok(stat)) => if stat.class != FileClass::Directory || stat.mode & 0o7777 != 0o700
            || stat.uid != owner_of(kind, probe.euid) {
            Some(
                untrusted(
                    lock_path,
                    "activation provisioning lock has the wrong type, owner, or mode"@,
                ),
            )
        } else {
            match (probe.acl, probe.backend, probe.entry) {
                (Err(reason), _, _) => Some(ActivationFault::Backend(reason)),
                (Ok(_), Err(reason), _) => Some(ActivationFault::Backend(reason)),
                (Ok(_), Ok(_), Err(fault)) => Some(ActivationFault::Io { path: lock_path, fault }),
                (Ok(_), Ok(_), Ok(entry)) => if is_same_directory(entry, stat) {
                    None
                } else {
                    Some(
                        untrusted(
                            lock_path,
                            "activation provisioning lock is not its exact parent entry"@,
                        ),
                    )
                },
            }
        },
    }
}

/// Requires that the lock can be trusted, before it is taken.
pub fn admit_lock(kind: AnchorKind, place: &LockPlace, probe: LockProbe) -> (outcome: Result<
    (),
    StoreActivationError,
>)
    ensures
        refused_as(outcome, lock_fault(kind, place.lock_path@, probe)),
{
    let path = to_vec(place.lock_path.as_slice());
    match probe.opened {
        Ok(_) => {},
        Err(fault) => {
            return Err(StoreActivationError::Io { path, fault });
        },
    }
    let stat = match probe.stat {
        Ok(stat) => stat,
        Err(fault) => {
            return Err(StoreActivationError::Io { path, fault });
        },
    };
    if stat.class != FileClass::Directory || stat.mode & 0o7777 != 0o700 || stat.uid
        != expected_owner(kind, probe.euid) {
        return Err(
            unsafe_anchor(path, "activation provisioning lock has the wrong type, owner, or mode"),
        );
    }
    match probe.acl {
        Ok(_) => {},
        Err(reason) => {
            return Err(StoreActivationError::Backend(reason));
        },
    }
    match probe.backend {
        Ok(_) => {},
        Err(reason) => {
            return Err(StoreActivationError::Backend(reason));
        },
    }
    let entry = match probe.entry {
        Ok(entry) => entry,
        Err(fault) => {
            return Err(StoreActivationError::Io { path, fault });
        },
    };
    if entry.device != stat.device || entry.inode != stat.inode || entry.class
        != FileClass::Directory {
        return Err(
            unsafe_anchor(path, "activation provisioning lock is not its exact parent entry"),
        );
    }
    Ok(())
}

/// Why a lock was not taken.
#[derive(Clone, Copy, Debug, PartialEq, Eq)]
pub enum LockFault {
    /// Somebody else holds it.
    Busy,
    Io(IoFault),
}

/// What a lock that was not taken means.
pub open spec fn busy_fault(path: Seq<u8>, taken: Result<(), LockFault>) -> Option<
    ActivationFault,
> {
    match taken {
        Ok(_) => None,
        Err(LockFault::Busy) => Some(
            ActivationFault::Io { path, fault: IoFault::Other("activation authority is busy") },
        ),
        Err(LockFault::Io(fault)) => Some(ActivationFault::Io { path, fault }),
    }
}

/// Requires that a lock was taken.
pub fn require_lock(path: &[u8], taken: Result<(), LockFault>) -> (outcome: Result<
    (),
    StoreActivationError,
>)
    ensures
        refused_as(outcome, busy_fault(path@, taken)),
{
    match taken {
        Ok(_) => Ok(()),
        Err(LockFault::Busy) => Err(
            StoreActivationError::Io {
                path: to_vec(path),
                fault: IoFault::Other("activation authority is busy"),
            },
        ),
        Err(LockFault::Io(fault)) => Err(StoreActivationError::Io { path: to_vec(path), fault }),
    }
}

/// Why an anchor is not there to be opened.
pub open spec fn presence_fault(path: Seq<u8>, locked: bool, metadata: Result<(), IoFault>)
    -> Option<ActivationFault> {
    if !is_locator(path) {
        Some(ActivationFault::InvalidLocator)
    } else if !locked && metadata == Err::<(), IoFault>(IoFault::NotFound) {
        Some(ActivationFault::AnchorNotProvisioned { path })
    } else {
        None
    }
}

/// Requires that an anchor is there to be opened. Without a lock nobody has made
/// one yet.
pub fn require_anchor_present(path: &[u8], locked: bool, metadata: Result<(), IoFault>)
    -> (outcome: Result<(), StoreActivationError>)
    ensures
        refused_as(outcome, presence_fault(path@, locked, metadata)),
{
    if !validate_absolute_locator(path) {
        return Err(StoreActivationError::InvalidLocator);
    }
    if !locked {
        match metadata {
            Err(IoFault::NotFound) => {
                return Err(
                    StoreActivationError::AnchorNotProvisioned { path: to_vec(path) },
                );
            },
            _ => {},
        }
    }
    Ok(())
}

/// Why the directory above an anchor is not the one that the anchor lies in.
pub open spec fn anchor_parent_fault(path: Seq<u8>, parent: Result<Vec<u8>, StoreError>) -> Option<
    ActivationFault,
> {
    match enclosing(path) {
        None => Some(ActivationFault::InvalidLocator),
        Some(expected) => match parent {
            Err(StoreError::Io { fault: IoFault::NotFound, .. }) => Some(
                ActivationFault::AnchorNotProvisioned { path },
            ),
            Err(error) => Some(ActivationFault::UnsafeAnchor(error@)),
            Ok(found) => if same_path(found@, expected) {
                None
            } else {
                Some(ActivationFault::InvalidLocator)
            },
        },
    }
}

/// Requires that the directory above an anchor is the one that the anchor lies
/// in, before the anchor is opened.
pub fn require_anchor_parent(path: &[u8], parent: Result<Vec<u8>, StoreError>) -> (outcome: Result<
    (),
    StoreActivationError,
>)
    ensures
        refused_as(outcome, anchor_parent_fault(path@, parent)),
{
    let expected = match enclosing_directory(path) {
        Some(directory) => directory,
        None => {
            return Err(StoreActivationError::InvalidLocator);
        },
    };
    match parent {
        Ok(found) => if paths_equal(found.as_slice(), expected.as_slice()) {
            Ok(())
        } else {
            Err(StoreActivationError::InvalidLocator)
        },
        Err(StoreError::Io { fault: IoFault::NotFound, .. }) => Err(
            StoreActivationError::AnchorNotProvisioned { path: to_vec(path) },
        ),
        Err(error) => Err(StoreActivationError::UnsafeAnchor(error)),
    }
}

/// What is seen of an anchor: when it is opened, and of the opened anchor.
#[derive(Debug)]
pub struct AnchorProbe {
    pub opened: Result<(), IoFault>,
    pub validated: Result<(), StoreError>,
    pub identity: Option<StrongObjectIdentity>,
    pub backend: Result<CertifiedLocalBackend, CertificationError>,
}

/// Why an anchor is not admitted.
pub open spec fn anchor_fault(path: Seq<u8>, locked: bool, probe: AnchorProbe) -> Option<
    ActivationFault,
> {
    match probe.opened {
        Err(IoFault::NotFound) => Some(ActivationFault::AnchorNotProvisioned { path }),
        Err(IoFault::Loop) => Some(
            untrusted(path, "activation anchor is not a no-follow directory"@),
        ),
        Err(IoFault::NotDirectory) => Some(
            untrusted(path, "activation anchor is not a no-follow directory"@),
        ),
        Err(fault) => Some(ActivationFault::Io { path, fault }),
        Ok(_) => if !locked {
            Some(
                untrusted(
                    path,
                    "activation anchor appeared without its provisioning commit lock"@,
                ),
            )
        } else {
            match (probe.validated, probe.identity, probe.backend) {
                (Err(error), _, _) => Some(ActivationFault::UnsafeAnchor(error@)),
                (Ok(_), None, _) => Some(ActivationFault::Identity),
                (Ok(_), Some(_), Err(reason)) => Some(ActivationFault::Backend(reason)),
                (Ok(_), Some(_), Ok(_)) => None,
            }
        },
    }
}

/// An admitted anchor.
pub open spec fn admitted_anchor(path: Seq<u8>, probe: AnchorProbe) -> BoundView {
    BoundView { locator: path, identity: probe.identity->0, backend: probe.backend->Ok_0 }
}

/// Admits an anchor, before it is locked itself.
pub fn admit_anchor(path: &[u8], locked: bool, probe: AnchorProbe) -> (anchor: Result<
    BoundObject,
    StoreActivationError,
>)
    ensures
        refused_as(anchor, anchor_fault(path@, locked, probe)),
        anchor matches Ok(found) ==> found@ == admitted_anchor(path@, probe),
{
    let path = to_vec(path);
    match probe.opened {
        Ok(_) => {},
        Err(IoFault::NotFound) => {
            return Err(StoreActivationError::AnchorNotProvisioned { path });
        },
        Err(IoFault::Loop) => {
            return Err(unsafe_anchor(path, "activation anchor is not a no-follow directory"));
        },
        Err(IoFault::NotDirectory) => {
            return Err(unsafe_anchor(path, "activation anchor is not a no-follow directory"));
        },
        Err(fault) => {
            return Err(StoreActivationError::Io { path, fault });
        },
    }
    if !locked {
        return Err(
            unsafe_anchor(path, "activation anchor appeared without its provisioning commit lock"),
        );
    }
    match probe.validated {
        Ok(_) => {},
        Err(error) => {
            return Err(StoreActivationError::UnsafeAnchor(error));
        },
    }
    let identity = match probe.identity {
        Some(identity) => identity,
        None => {
            return Err(StoreActivationError::Identity);
        },
    };
    match probe.backend {
        Ok(backend) => Ok(BoundObject { locator: path, identity, backend }),
        Err(reason) => Err(StoreActivationError::Backend(reason)),
    }
}

/// What is seen of an opened anchor and of the directory above it.
#[derive(Debug)]
pub struct BindingProbe {
    pub validated: Result<(), StoreError>,
    pub backend: Result<CertifiedLocalBackend, CertificationError>,
    pub identity: Option<StrongObjectIdentity>,
    pub parent: Result<FileStat, IoFault>,
    pub entry: Result<FileStat, IoFault>,
    pub opened: Result<FileStat, IoFault>,
    pub euid: u32,
}

/// The directory above an anchor.
pub open spec fn anchor_parent(path: Seq<u8>) -> Seq<u8> {
    match enclosing(path) {
        Some(directory) => directory,
        None => seq![SLASH],
    }
}

/// Others can put something else in the place of an entry.
pub open spec fn grants_renaming(mode: u32) -> bool {
    mode & 0o030 == 0o030 || mode & 0o003 == 0o003
}

/// Why an anchor is not where it was, or can be replaced.
pub open spec fn anchor_binding_fault(anchor: BoundView, kind: AnchorKind, probe: BindingProbe)
    -> Option<ActivationFault> {
    let path = anchor.locator;
    match (probe.validated, probe.backend, probe.identity) {
        (Err(error), _, _) => Some(ActivationFault::UnsafeAnchor(error@)),
        (Ok(_), Err(reason), _) => Some(ActivationFault::Backend(reason)),
        (Ok(_), Ok(_), None) => Some(ActivationFault::Identity),
        (Ok(_), Ok(backend), Some(identity)) => if backend != anchor.backend || identity
            != anchor.identity {
            Some(untrusted(path, "activation anchor backend or strong identity changed"@))
        } else {
            match probe.parent {
                Err(fault) => Some(ActivationFault::Io { path: anchor_parent(path), fault }),
                Ok(parent) => if parent.uid != owner_of(kind, probe.euid) {
                    Some(
                        untrusted(
                            anchor_parent(path),
                            "activation anchor parent owner does not match its authority mode"@,
                        ),
                    )
                } else if grants_renaming(parent.mode) {
                    Some(
                        untrusted(
                            anchor_parent(path),
                            "activation anchor parent grants foreign rename authority"@,
                        ),
                    )
                } else {
                    match (probe.entry, probe.opened) {
                        (Err(fault), _) => Some(ActivationFault::Io { path, fault }),
                        (Ok(_), Err(fault)) => Some(ActivationFault::Io { path, fault }),
                        (Ok(entry), Ok(opened)) => if is_same_directory(entry, opened) {
                            None
                        } else {
                            Some(
                                untrusted(
                                    path,
                                    "opened activation anchor is not its exact parent entry"@,
                                ),
                            )
                        },
                    }
                },
            }
        },
    }
}

/// Requires that an anchor is where it was and cannot be replaced.
pub fn validate_activation_anchor_binding(
    anchor: &BoundObject,
    kind: AnchorKind,
    probe: BindingProbe,
) -> (outcome: Result<(), StoreActivationError>)
    ensures
        refused_as(outcome, anchor_binding_fault(anchor@, kind, probe)),
{
    let path = to_vec(anchor.locator.as_slice());
    match probe.validated {
        Ok(_) => {},
        Err(error) => {
            return Err(StoreActivationError::UnsafeAnchor(error));
        },
    }
    let backend = match probe.backend {
        Ok(backend) => backend,
        Err(reason) => {
            return Err(StoreActivationError::Backend(reason));
        },
    };
    let identity = match probe.identity {
        Some(identity) => identity,
        None => {
            return Err(StoreActivationError::Identity);
        },
    };
    if backend != anchor.backend || identity != anchor.identity {
        return Err(unsafe_anchor(path, "activation anchor backend or strong identity changed"));
    }
    let parent_path = match enclosing_directory(anchor.locator.as_slice()) {
        Some(directory) => directory,
        None => {
            let root = vec![SLASH];
            assert(root@ =~= seq![SLASH]);
            root
        },
    };
    let parent = match probe.parent {
        Ok(parent) => parent,
        Err(fault) => {
            return Err(StoreActivationError::Io { path: parent_path, fault });
        },
    };
    if parent.uid != expected_owner(kind, probe.euid) {
        return Err(
            unsafe_anchor(
                parent_path,
                "activation anchor parent owner does not match its authority mode",
            ),
        );
    }
    if parent.mode & 0o030 == 0o030 || parent.mode & 0o003 == 0o003 {
        return Err(
            unsafe_anchor(parent_path, "activation anchor parent grants foreign rename authority"),
        );
    }
    let entry = match probe.entry {
        Ok(entry) => entry,
        Err(fault) => {
            return Err(StoreActivationError::Io { path, fault });
        },
    };
    let opened = match probe.opened {
        Ok(opened) => opened,
        Err(fault) => {
            return Err(StoreActivationError::Io { path, fault });
        },
    };
    if entry.device != opened.device || entry.inode != opened.inode || entry.class
        != FileClass::Directory {
        return Err(unsafe_anchor(path, "opened activation anchor is not its exact parent entry"));
    }
    Ok(())
}

/// An anchor that is open, locked and where it has to be.
#[derive(Debug)]
pub struct AuthorityRoot {
    kind: AnchorKind,
    object: BoundObject,
}

impl AuthorityRoot {
    /// Whose anchor it is.
    pub closed spec fn kind(&self) -> AnchorKind {
        self.kind
    }

    /// What it is.
    pub closed spec fn object(&self) -> BoundView {
        self.object@
    }

    /// What it is.
    pub fn bound_object(&self) -> (object: &BoundObject)
        ensures
            object@ == self.object(),
    {
        &self.object
    }

    /// Whose anchor it is.
    pub fn anchor_kind(&self) -> (kind: AnchorKind)
        ensures
            kind == self.kind(),
    {
        self.kind
    }
}

/// What is done next to open an anchor.
#[derive(Clone, Copy, Debug, PartialEq, Eq, Structural)]
pub enum OpeningStage {
    /// The lock of those who make anchors is looked for.
    SeekLock,
    /// The directory above the lock is opened.
    LockParent,
    /// The lock is opened and looked at.
    AdmitLock,
    /// The lock is taken.
    TakeLock,
    /// The anchor is looked for.
    SeekAnchor,
    /// The directory above the anchor is opened.
    AnchorParent,
    /// The anchor is opened and looked at.
    AdmitAnchor,
    /// The anchor is locked.
    HoldAnchor,
    /// The anchor is looked at under its name.
    BindAnchor,
    /// The anchor is made durable.
    SyncAnchor,
    /// The directory above it is made durable.
    SyncParent,
    /// Nothing: it is open.
    Opened,
}

/// The opening of an anchor. The lock of those who make anchors is taken before
/// the anchor is looked at, so that none is seen that is still being made.
#[derive(Debug)]
pub struct AnchorOpening {
    kind: AnchorKind,
    path: Vec<u8>,
    place: LockPlace,
    locked: bool,
    object: Option<BoundObject>,
    stage: OpeningStage,
}

/// The content of an [`AnchorOpening`].
#[verifier::ext_equal]
pub struct OpeningView {
    pub kind: AnchorKind,
    pub path: Seq<u8>,
    pub lock_path: Seq<u8>,
    pub product_root: Seq<u8>,
    /// Whether the lock was taken.
    pub locked: bool,
    /// The anchor, once it was admitted.
    pub object: Option<BoundView>,
    pub stage: OpeningStage,
}

impl View for AnchorOpening {
    type V = OpeningView;

    closed spec fn view(&self) -> OpeningView {
        OpeningView {
            kind: self.kind,
            path: self.path@,
            lock_path: self.place.lock_path@,
            product_root: self.place.product_root@,
            locked: self.locked,
            object: match self.object {
                Some(object) => Some(object@),
                None => None,
            },
            stage: self.stage,
        }
    }
}

/// The position of a stage among all.
pub open spec fn rank(stage: OpeningStage) -> int {
    match stage {
        OpeningStage::SeekLock => 0,
        OpeningStage::LockParent => 1,
        OpeningStage::AdmitLock => 2,
        OpeningStage::TakeLock => 3,
        OpeningStage::SeekAnchor => 4,
        OpeningStage::AnchorParent => 5,
        OpeningStage::AdmitAnchor => 6,
        OpeningStage::HoldAnchor => 7,
        OpeningStage::BindAnchor => 8,
        OpeningStage::SyncAnchor => 9,
        OpeningStage::SyncParent => 10,
        OpeningStage::Opened => 11,
    }
}

/// The opening before anything was looked for.
pub open spec fn begun_opening(kind: AnchorKind, path: Seq<u8>) -> OpeningView {
    let product_root = product_root_of(path)->0;
    OpeningView {
        kind,
        path,
        lock_path: pushed(product_root, encode_utf8(PROVISIONING_LOCK_NAME@)),
        product_root,
        locked: false,
        object: None,
        stage: OpeningStage::SeekLock,
    }
}

/// The opening where a step succeeded, and as it was where it did not.
pub open spec fn moved_on(
    before: OpeningView,
    outcome: Result<(), StoreActivationError>,
    stage: OpeningStage,
) -> OpeningView {
    if outcome is Ok {
        OpeningView { stage, ..before }
    } else {
        before
    }
}

/// Why the lock cannot be looked for.
pub open spec fn seek_fault(lock_path: Seq<u8>, metadata: Result<(), IoFault>) -> Option<
    ActivationFault,
> {
    match metadata {
        Ok(_) => None,
        Err(IoFault::NotFound) => None,
        Err(fault) => Some(ActivationFault::Io { path: lock_path, fault }),
    }
}

/// How the boundary is called that is made durable.
pub open spec fn opening_boundary(stage: OpeningStage) -> Seq<char> {
    if stage == OpeningStage::SyncAnchor {
        "activation anchor directory after validation"@
    } else {
        "activation anchor parent after validation"@
    }
}

impl AnchorOpening {
    #[verifier::type_invariant]
    spec fn is_valid(self) -> bool {
        rank(self.stage) >= 7 ==> self.object is Some
    }

    /// Begins to open an anchor.
    pub fn begin(locator: &ActivationAnchorLocator) -> (opening: Result<
        Self,
        StoreActivationError,
    >)
        ensures
            refused_as(
                opening,
                if product_root_of(locator.path@) is Some {
                    None
                } else {
                    Some(ActivationFault::InvalidLocator)
                },
            ),
            opening matches Ok(begun) ==> begun@ == begun_opening(locator.kind, locator.path@),
    {
        let place = lock_place(locator)?;
        Ok(
            AnchorOpening {
                kind: locator.kind,
                path: to_vec(locator.path.as_slice()),
                place,
                locked: false,
                object: None,
                stage: OpeningStage::SeekLock,
            },
        )
    }

    /// What is done next.
    pub fn next(&self) -> (stage: OpeningStage)
        ensures
            stage == self@.stage,
    {
        self.stage
    }

    /// Where the lock lies.
    pub fn lock_path(&self) -> (path: &[u8])
        ensures
            path@ == self@.lock_path,
    {
        self.place.lock_path.as_slice()
    }

    /// Where the anchor lies.
    pub fn anchor_path(&self) -> (path: &[u8])
        ensures
            path@ == self@.path,
    {
        self.path.as_slice()
    }

    /// Takes what looking for the lock came to. Where there is none, the anchor
    /// is looked for without.
    pub fn lock_sought(&mut self, metadata: Result<(), IoFault>) -> (outcome: Result<
        (),
        StoreActivationError,
    >)
        requires
            old(self)@.stage == OpeningStage::SeekLock,
        ensures
            refused_as(outcome, seek_fault(old(self)@.lock_path, metadata)),
            final(self)@ == moved_on(
                old(self)@,
                outcome,
                if metadata is Ok {
                    OpeningStage::LockParent
                } else {
                    OpeningStage::SeekAnchor
                },
            ),
    {
        let present = lock_is_present(&self.place, metadata)?;
        if present {
            self.stage = OpeningStage::LockParent;
        } else {
            self.stage = OpeningStage::SeekAnchor;
        }
        Ok(())
    }

    /// Takes the directory above the lock.
    pub fn lock_parent(&mut self, parent: Result<Vec<u8>, StoreError>) -> (outcome: Result<
        (),
        StoreActivationError,
    >)
        requires
            old(self)@.stage == OpeningStage::LockParent,
        ensures
            refused_as(outcome, lock_parent_fault(old(self)@.product_root, parent)),
            final(self)@ == moved_on(old(self)@, outcome, OpeningStage::AdmitLock),
    {
        require_lock_parent(&self.place, parent)?;
        self.stage = OpeningStage::AdmitLock;
        Ok(())
    }

    /// Takes what is seen of the lock.
    pub fn lock_seen(&mut self, probe: LockProbe) -> (outcome: Result<(), StoreActivationError>)
        requires
            old(self)@.stage == OpeningStage::AdmitLock,
        ensures
            refused_as(outcome, lock_fault(old(self)@.kind, old(self)@.lock_path, probe)),
            final(self)@ == moved_on(old(self)@, outcome, OpeningStage::TakeLock),
    {
        admit_lock(self.kind, &self.place, probe)?;
        self.stage = OpeningStage::TakeLock;
        Ok(())
    }

    /// Takes whether the lock was taken.
    pub fn lock_taken(&mut self, taken: Result<(), LockFault>) -> (outcome: Result<
        (),
        StoreActivationError,
    >)
        requires
            old(self)@.stage == OpeningStage::TakeLock,
        ensures
            refused_as(outcome, busy_fault(old(self)@.lock_path, taken)),
            final(self)@ == if outcome is Ok {
                OpeningView { locked: true, stage: OpeningStage::SeekAnchor, ..old(self)@ }
            } else {
                old(self)@
            },
    {
        require_lock(self.place.lock_path.as_slice(), taken)?;
        self.locked = true;
        self.stage = OpeningStage::SeekAnchor;
        Ok(())
    }

    /// Takes what looking for the anchor came to.
    pub fn anchor_sought(&mut self, metadata: Result<(), IoFault>) -> (outcome: Result<
        (),
        StoreActivationError,
    >)
        requires
            old(self)@.stage == OpeningStage::SeekAnchor,
        ensures
            refused_as(outcome, presence_fault(old(self)@.path, old(self)@.locked, metadata)),
            final(self)@ == moved_on(old(self)@, outcome, OpeningStage::AnchorParent),
    {
        require_anchor_present(self.path.as_slice(), self.locked, metadata)?;
        self.stage = OpeningStage::AnchorParent;
        Ok(())
    }

    /// Takes the directory above the anchor.
    pub fn anchor_parent(&mut self, parent: Result<Vec<u8>, StoreError>) -> (outcome: Result<
        (),
        StoreActivationError,
    >)
        requires
            old(self)@.stage == OpeningStage::AnchorParent,
        ensures
            refused_as(outcome, anchor_parent_fault(old(self)@.path, parent)),
            final(self)@ == moved_on(old(self)@, outcome, OpeningStage::AdmitAnchor),
    {
        require_anchor_parent(self.path.as_slice(), parent)?;
        self.stage = OpeningStage::AdmitAnchor;
        Ok(())
    }

    /// Takes what is seen of the anchor.
    pub fn anchor_seen(&mut self, probe: AnchorProbe) -> (outcome: Result<
        (),
        StoreActivationError,
    >)
        requires
            old(self)@.stage == OpeningStage::AdmitAnchor,
        ensures
            refused_as(outcome, anchor_fault(old(self)@.path, old(self)@.locked, probe)),
            final(self)@ == if outcome is Ok {
                OpeningView {
                    object: Some(admitted_anchor(old(self)@.path, probe)),
                    stage: OpeningStage::HoldAnchor,
                    ..old(self)@
                }
            } else {
                old(self)@
            },
    {
        let object = admit_anchor(self.path.as_slice(), self.locked, probe)?;
        self.object = Some(object);
        self.stage = OpeningStage::HoldAnchor;
        Ok(())
    }

    /// Takes whether the anchor was locked.
    pub fn anchor_held(&mut self, taken: Result<(), LockFault>) -> (outcome: Result<
        (),
        StoreActivationError,
    >)
        requires
            old(self)@.stage == OpeningStage::HoldAnchor,
        ensures
            refused_as(outcome, busy_fault(old(self)@.path, taken)),
            final(self)@ == moved_on(old(self)@, outcome, OpeningStage::BindAnchor),
    {
        proof {
            use_type_invariant(&*self);
        }
        require_lock(self.path.as_slice(), taken)?;
        self.stage = OpeningStage::BindAnchor;
        Ok(())
    }

    /// Takes what is seen of the anchor under its name.
    pub fn anchor_bound(&mut self, probe: BindingProbe) -> (outcome: Result<
        (),
        StoreActivationError,
    >)
        requires
            old(self)@.stage == OpeningStage::BindAnchor,
        ensures
            old(self)@.object matches Some(anchor) && refused_as(
                outcome,
                anchor_binding_fault(anchor, old(self)@.kind, probe),
            ),
            final(self)@ == moved_on(old(self)@, outcome, OpeningStage::SyncAnchor),
    {
        proof {
            use_type_invariant(&*self);
        }
        match &self.object {
            Some(anchor) => validate_activation_anchor_binding(anchor, self.kind, probe)?,
            None => {},
        }
        self.stage = OpeningStage::SyncAnchor;
        Ok(())
    }

    /// Takes whether the anchor, and then the directory above it, was made
    /// durable.
    pub fn synced(&mut self, synced: bool) -> (outcome: Result<(), StoreActivationError>)
        requires
            old(self)@.stage == OpeningStage::SyncAnchor || old(self)@.stage
                == OpeningStage::SyncParent,
        ensures
            refused_as(outcome, sync_fault(synced, opening_boundary(old(self)@.stage))),
            final(self)@ == moved_on(
                old(self)@,
                outcome,
                if old(self)@.stage == OpeningStage::SyncAnchor {
                    OpeningStage::SyncParent
                } else {
                    OpeningStage::Opened
                },
            ),
    {
        proof {
            use_type_invariant(&*self);
        }
        if self.stage == OpeningStage::SyncAnchor {
            require_synced(synced, "activation anchor directory after validation")?;
            self.stage = OpeningStage::SyncParent;
        } else {
            require_synced(synced, "activation anchor parent after validation")?;
            self.stage = OpeningStage::Opened;
        }
        Ok(())
    }

    /// Hands the anchor out.
    pub fn finish(self) -> (root: AuthorityRoot)
        requires
            self@.stage == OpeningStage::Opened,
        ensures
            root.kind() == self@.kind,
            self@.object == Some(root.object()),
    {
        proof {
            use_type_invariant(&self);
        }
        let kind = self.kind;
        let object = self.object.unwrap();
        AuthorityRoot { kind, object }
    }
}

/// The state follows on the one before it: the step that was next succeeded.
pub open spec fn opening_follows(states: Seq<OpeningView>, k: int) -> bool {
    let (before, after) = (states[k - 1], states[k]);
    match before.stage {
        OpeningStage::SeekLock => exists|metadata: Result<(), IoFault>|
            #![trigger seek_fault(before.lock_path, metadata)]
            seek_fault(before.lock_path, metadata) is None && after == (OpeningView {
                stage: if metadata is Ok {
                    OpeningStage::LockParent
                } else {
                    OpeningStage::SeekAnchor
                },
                ..before
            }),
        OpeningStage::LockParent => after == (OpeningView {
            stage: OpeningStage::AdmitLock,
            ..before
        }) && exists|parent: Result<Vec<u8>, StoreError>|
            #![trigger lock_parent_fault(before.product_root, parent)]
            lock_parent_fault(before.product_root, parent) is None,
        OpeningStage::AdmitLock => after == (OpeningView {
            stage: OpeningStage::TakeLock,
            ..before
        }) && exists|probe: LockProbe|
            #![trigger lock_fault(before.kind, before.lock_path, probe)]
            lock_fault(before.kind, before.lock_path, probe) is None,
        OpeningStage::TakeLock => after == (OpeningView {
            locked: true,
            stage: OpeningStage::SeekAnchor,
            ..before
        }),
        OpeningStage::SeekAnchor => after == (OpeningView {
            stage: OpeningStage::AnchorParent,
            ..before
        }) && exists|metadata: Result<(), IoFault>|
            #![trigger presence_fault(before.path, before.locked, metadata)]
            presence_fault(before.path, before.locked, metadata) is None,
        OpeningStage::AnchorParent => after == (OpeningView {
            stage: OpeningStage::AdmitAnchor,
            ..before
        }) && exists|parent: Result<Vec<u8>, StoreError>|
            #![trigger anchor_parent_fault(before.path, parent)]
            anchor_parent_fault(before.path, parent) is None,
        OpeningStage::AdmitAnchor => exists|probe: AnchorProbe|
            #![trigger anchor_fault(before.path, before.locked, probe)]
            anchor_fault(before.path, before.locked, probe) is None && after == (OpeningView {
                object: Some(admitted_anchor(before.path, probe)),
                stage: OpeningStage::HoldAnchor,
                ..before
            }),
        OpeningStage::HoldAnchor => after == (OpeningView {
            stage: OpeningStage::BindAnchor,
            ..before
        }),
        OpeningStage::BindAnchor => after == (OpeningView {
            stage: OpeningStage::SyncAnchor,
            ..before
        }) && exists|probe: BindingProbe|
            #![trigger anchor_binding_fault(before.object->0, before.kind, probe)]
            anchor_binding_fault(before.object->0, before.kind, probe) is None,
        OpeningStage::SyncAnchor => after == (OpeningView {
            stage: OpeningStage::SyncParent,
            ..before
        }),
        OpeningStage::SyncParent => after == (OpeningView {
            stage: OpeningStage::Opened,
            ..before
        }),
        OpeningStage::Opened => false,
    }
}

/// The states of an opening while every step succeeds.
pub open spec fn is_opening(states: Seq<OpeningView>) -> bool {
    &&& states.len() > 0
    &&& states[0] == begun_opening(states[0].kind, states[0].path)
    &&& forall|k: int| 0 < k < states.len() ==> #[trigger] opening_follows(states, k)
}

/// An anchor is open only after every step was made, one after the other: the
/// lock of those who make anchors is taken before the anchor is looked for, the
/// anchor is locked before it is held against its name, and nothing is made
/// durable before that.
pub proof fn law_anchors_are_opened_in_order(states: Seq<OpeningView>, k: int)
    requires
        is_opening(states),
        0 <= k < states.len(),
        states[k].stage == OpeningStage::Opened,
    ensures
        k == rank(OpeningStage::Opened),
        states[k].locked,
        forall|i: int| 0 <= i <= k ==> rank((#[trigger] states[i]).stage) == i,
{
    lemma_opening(states, k);
    lemma_ranks(states, k);
}

/// How far an opening has come at each state: without the lock, no anchor is
/// admitted.
proof fn lemma_opening(states: Seq<OpeningView>, k: int)
    requires
        is_opening(states),
        0 <= k < states.len(),
    ensures
        ({
            let at = rank(states[k].stage);
            if at <= 3 {
                k == at && !states[k].locked
            } else if states[k].locked {
                k == at
            } else {
                at <= 6 && k == at - 3
            }
        }),
    decreases k,
{
    if k > 0 {
        lemma_opening(states, k - 1);
        assert(opening_follows(states, k));
    }
}

/// Up to a state that holds the lock, each stage stands at its position.
proof fn lemma_ranks(states: Seq<OpeningView>, k: int)
    requires
        is_opening(states),
        0 <= k < states.len(),
        states[k].locked || rank(states[k].stage) <= 3,
    ensures
        forall|i: int| 0 <= i <= k ==> rank((#[trigger] states[i]).stage) == i,
    decreases k,
{
    lemma_opening(states, k);
    if k > 0 {
        assert(opening_follows(states, k));
        lemma_ranks(states, k - 1);
    }
}

/// No anchor is admitted without the lock of those who make anchors.
pub proof fn law_anchor_needs_its_lock(path: Seq<u8>, probe: AnchorProbe)
    ensures
        anchor_fault(path, false, probe) is Some,
{
}

/// An anchor that is handed out belongs, with the directory above it, to who it
/// should, and nobody else can put another in its place.
pub proof fn law_open_anchor_is_guarded(anchor: BoundView, kind: AnchorKind, probe: BindingProbe)
    requires
        anchor_binding_fault(anchor, kind, probe) is None,
    ensures
        probe.parent matches Ok(parent) && parent.uid == owner_of(kind, probe.euid)
            && !grants_renaming(parent.mode),
        probe.identity == Some(anchor.identity),
{
}

/// The lock can be trusted exactly where it could be opened, is a directory that
/// is private to whom the anchor belongs to, root for one of the system and the
/// account itself for its own, has no access control list, lies on a certified
/// file system, and is what stands under its name.
pub proof fn law_locks_are_private(kind: AnchorKind, lock_path: Seq<u8>, probe: LockProbe)
    ensures
        lock_fault(kind, lock_path, probe) is None <==> {
            &&& probe.opened is Ok
            &&& probe.acl is Ok
            &&& probe.backend is Ok
            &&& probe.stat matches Ok(stat) && (probe.entry matches Ok(entry) && {
                &&& stat.class == FileClass::Directory
                &&& stat.mode & 0o7777 == 0o700
                &&& kind == AnchorKind::System ==> stat.uid == 0
                &&& kind == AnchorKind::SelfManaged ==> stat.uid == probe.euid
                &&& entry.class == FileClass::Directory
                &&& entry.device == stat.device
                &&& entry.inode == stat.inode
            })
        },
{
}

/// An anchor is admitted exactly where it could be opened under the lock of those
/// who make anchors, was found sound, has a strong identity, and lies on a
/// certified file system; it is then bound to that path, identity and file
/// system.
pub proof fn law_anchors_are_admitted_under_their_lock(
    path: Seq<u8>,
    locked: bool,
    probe: AnchorProbe,
)
    ensures
        anchor_fault(path, locked, probe) is None <==> locked && probe.opened is Ok
            && probe.validated is Ok && probe.identity is Some && probe.backend is Ok,
        anchor_fault(path, locked, probe) is None ==> {
            let anchor = admitted_anchor(path, probe);
            &&& anchor.locator == path
            &&& probe.identity == Some(anchor.identity)
            &&& probe.backend == Ok::<CertifiedLocalBackend, CertificationError>(anchor.backend)
        },
        probe.opened == Err::<(), IoFault>(IoFault::NotFound) ==> anchor_fault(path, locked, probe)
            == Some(ActivationFault::AnchorNotProvisioned { path }),
{
}

/// An anchor is still bound exactly where it is sound, is the same object on the
/// same file system, stands under its name, and lies in a directory that belongs
/// to whom the anchor belongs to and that nobody else can rename entries of.
pub proof fn law_bound_anchors_cannot_be_replaced(
    anchor: BoundView,
    kind: AnchorKind,
    probe: BindingProbe,
)
    ensures
        anchor_binding_fault(anchor, kind, probe) is None <==> {
            &&& probe.validated is Ok
            &&& probe.backend == Ok::<CertifiedLocalBackend, CertificationError>(anchor.backend)
            &&& probe.identity == Some(anchor.identity)
            &&& probe.parent matches Ok(parent) && {
                &&& kind == AnchorKind::System ==> parent.uid == 0
                &&& kind == AnchorKind::SelfManaged ==> parent.uid == probe.euid
                &&& parent.mode & 0o030 != 0o030
                &&& parent.mode & 0o003 != 0o003
            }
            &&& probe.entry matches Ok(entry) && (probe.opened matches Ok(opened) && entry.class
                == FileClass::Directory && entry.device == opened.device && entry.inode
                == opened.inode)
        },
{
}

/// The lock of an anchor and the anchor itself are sought in the directories that
/// they lie in, and in no other.
pub proof fn law_parents_are_the_right_ones(
    product_root: Seq<u8>,
    path: Seq<u8>,
    parent: Result<Vec<u8>, StoreError>,
)
    ensures
        lock_parent_fault(product_root, parent) is None <==> (parent matches Ok(found)
            && same_path(found@, product_root)),
        anchor_parent_fault(path, parent) is None <==> (parent matches Ok(found) && (enclosing(
            path,
        ) matches Some(expected) && same_path(found@, expected))),
{
}

/// Nothing goes on without a lock that was taken.
pub proof fn law_locks_are_taken(path: Seq<u8>, taken: Result<(), LockFault>)
    ensures
        busy_fault(path, taken) is None <==> taken is Ok,
{
}

} // verus!
