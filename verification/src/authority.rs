//! The vocabulary of mutation authority.
//!
//! Content policy, writer risk, operating system capability, evidence
//! freshness, object identity and transaction state are kept apart: none of
//! them can be turned into another.

pub mod exposure;
pub mod local_mode;
pub mod principal;

pub use crate::authority::exposure::ExposureKey;
pub use crate::authority::exposure::ExposureValue;
pub use crate::authority::exposure::WriterExposureSet;
pub use crate::authority::principal::Principal;
pub use crate::authority::principal::PrincipalSet;

use crate::authority::principal::PrincipalView;
use crate::bytes::to_vec;
use crate::paths::components;
use crate::paths::part_views;
use crate::paths::path_components;
use crate::paths::paths_equal;
use crate::paths::same_path;
use crate::paths::PathPart;
use vstd::prelude::*;

verus! {

/// The version of [`CleanupAssessmentV1`].
pub const CLEANUP_ASSESSMENT_SCHEMA_VERSION: u16 = 1;

/// What a writer may do to the entries of a directory.
#[derive(Clone, Copy, Debug, PartialEq, Eq, Structural)]
pub struct NamespaceRights {
    pub create_file: bool,
    pub create_dir: bool,
    pub delete_child: bool,
    pub replace_child: bool,
    pub traverse: bool,
}

impl Default for NamespaceRights {
    fn default() -> (rights: Self)
        ensures
            rights == no_namespace_rights(),
    {
        NamespaceRights {
            create_file: false,
            create_dir: false,
            delete_child: false,
            replace_child: false,
            traverse: false,
        }
    }
}

/// None of the namespace rights.
pub open spec fn no_namespace_rights() -> NamespaceRights {
    NamespaceRights {
        create_file: false,
        create_dir: false,
        delete_child: false,
        replace_child: false,
        traverse: false,
    }
}

impl NamespaceRights {
    /// Every right that `self` grants is among those of `confirmed`.
    pub open spec fn within(self, confirmed: Self) -> bool {
        &&& self.create_file ==> confirmed.create_file
        &&& self.create_dir ==> confirmed.create_dir
        &&& self.delete_child ==> confirmed.delete_child
        &&& self.replace_child ==> confirmed.replace_child
        &&& self.traverse ==> confirmed.traverse
    }

    /// The rights that either grants.
    pub open spec fn joined(self, other: Self) -> Self {
        NamespaceRights {
            create_file: self.create_file || other.create_file,
            create_dir: self.create_dir || other.create_dir,
            delete_child: self.delete_child || other.delete_child,
            replace_child: self.replace_child || other.replace_child,
            traverse: self.traverse || other.traverse,
        }
    }

    /// Whether `confirmed` grants everything that `self` grants.
    pub fn is_subset_of(self, confirmed: Self) -> (subset: bool)
        ensures
            subset == self.within(confirmed),
    {
        (!self.create_file || confirmed.create_file) && (!self.create_dir || confirmed.create_dir)
            && (!self.delete_child || confirmed.delete_child) && (!self.replace_child
            || confirmed.replace_child) && (!self.traverse || confirmed.traverse)
    }

    /// The rights that either grants.
    pub fn union(self, other: Self) -> (both: Self)
        ensures
            both == self.joined(other),
    {
        NamespaceRights {
            create_file: self.create_file || other.create_file,
            create_dir: self.create_dir || other.create_dir,
            delete_child: self.delete_child || other.delete_child,
            replace_child: self.replace_child || other.replace_child,
            traverse: self.traverse || other.traverse,
        }
    }
}

/// What a controller may do to the policy of a directory.
#[derive(Clone, Copy, Debug, PartialEq, Eq, Structural)]
pub struct AuthorityControlRights {
    pub change_mode: bool,
    pub change_acl: bool,
    pub replace_binding: bool,
}

impl Default for AuthorityControlRights {
    fn default() -> (rights: Self)
        ensures
            rights == (AuthorityControlRights {
                change_mode: false,
                change_acl: false,
                replace_binding: false,
            }),
    {
        AuthorityControlRights { change_mode: false, change_acl: false, replace_binding: false }
    }
}

impl AuthorityControlRights {
    /// Every right that `self` grants is among those of `confirmed`.
    pub open spec fn within(self, confirmed: Self) -> bool {
        &&& self.change_mode ==> confirmed.change_mode
        &&& self.change_acl ==> confirmed.change_acl
        &&& self.replace_binding ==> confirmed.replace_binding
    }

    /// The rights that either grants.
    pub open spec fn joined(self, other: Self) -> Self {
        AuthorityControlRights {
            change_mode: self.change_mode || other.change_mode,
            change_acl: self.change_acl || other.change_acl,
            replace_binding: self.replace_binding || other.replace_binding,
        }
    }

    /// Whether `confirmed` grants everything that `self` grants.
    pub fn is_subset_of(self, confirmed: Self) -> (subset: bool)
        ensures
            subset == self.within(confirmed),
    {
        (!self.change_mode || confirmed.change_mode) && (!self.change_acl || confirmed.change_acl)
            && (!self.replace_binding || confirmed.replace_binding)
    }

    /// The rights that either grants.
    pub fn union(self, other: Self) -> (both: Self)
        ensures
            both == self.joined(other),
    {
        AuthorityControlRights {
            change_mode: self.change_mode || other.change_mode,
            change_acl: self.change_acl || other.change_acl,
            replace_binding: self.replace_binding || other.replace_binding,
        }
    }
}

/// Where the evidence on a writer comes from.
#[derive(Clone, Copy, Debug, PartialEq, Eq, PartialOrd, Ord, Structural)]
pub enum AuthorityBackend {
    PosixMode,
    LinuxPosixAcl,
    MacOsAcl,
    Nfs4Acl,
    Unknown,
}

impl AuthorityBackend {
    /// Whether the backend is one of those that are understood.
    pub fn is_known(self) -> (known: bool)
        ensures
            known == (self != AuthorityBackend::Unknown),
    {
        self != AuthorityBackend::Unknown
    }
}

/// How sure the evidence is.
#[derive(Clone, Copy, Debug, PartialEq, Eq, Structural)]
pub enum EvidenceCertainty {
    Verified,
    Inferred,
    Unknown,
}

impl EvidenceCertainty {
    /// Unknown evidence is weaker than any, itself not excepted; inferred
    /// evidence is weaker than verified.
    pub open spec fn no_weaker(self, confirmed: Self) -> bool {
        match confirmed {
            EvidenceCertainty::Verified => self == EvidenceCertainty::Verified,
            EvidenceCertainty::Inferred => self != EvidenceCertainty::Unknown,
            EvidenceCertainty::Unknown => false,
        }
    }

    /// The less sure of the two.
    pub open spec fn weaker_of(self, other: Self) -> Self {
        if self == EvidenceCertainty::Unknown || other == EvidenceCertainty::Unknown {
            EvidenceCertainty::Unknown
        } else if self == EvidenceCertainty::Inferred || other == EvidenceCertainty::Inferred {
            EvidenceCertainty::Inferred
        } else {
            EvidenceCertainty::Verified
        }
    }

    /// Whether `self` can stand in for what was `confirmed`.
    pub fn is_no_weaker_than(self, confirmed: Self) -> (enough: bool)
        ensures
            enough == self.no_weaker(confirmed),
    {
        match confirmed {
            EvidenceCertainty::Verified => self == EvidenceCertainty::Verified,
            EvidenceCertainty::Inferred => self != EvidenceCertainty::Unknown,
            EvidenceCertainty::Unknown => false,
        }
    }

    /// The less sure of the two.
    pub fn least(self, other: Self) -> (weaker: Self)
        ensures
            weaker == self.weaker_of(other),
    {
        if self == EvidenceCertainty::Unknown || other == EvidenceCertainty::Unknown {
            EvidenceCertainty::Unknown
        } else if self == EvidenceCertainty::Inferred || other == EvidenceCertainty::Inferred {
            EvidenceCertainty::Inferred
        } else {
            EvidenceCertainty::Verified
        }
    }
}

/// Whether the evidence still describes the present.
#[derive(Clone, Copy, Debug, PartialEq, Eq, Structural)]
pub enum EvidenceFreshness {
    Fresh,
    Stale,
    Unknown,
}

impl Default for EvidenceFreshness {
    fn default() -> (freshness: Self)
        ensures
            freshness == EvidenceFreshness::Unknown,
    {
        EvidenceFreshness::Unknown
    }
}

/// Names one unit of mutation.
#[derive(Clone, Copy, Debug, PartialEq, Eq, PartialOrd, Ord, Structural)]
pub struct MutationUnitId(pub u64);

/// Names one mount.
#[derive(Clone, Copy, Debug, PartialEq, Eq, PartialOrd, Ord, Structural)]
pub struct MountId(pub u64);

/// What kind of file system object it is.
#[derive(Clone, Copy, Debug, PartialEq, Eq, PartialOrd, Ord, Structural)]
pub enum ObjectFileType {
    Directory,
    RegularFile,
    Symlink,
    Other,
}

/// What tells one file system object from another.
#[derive(Clone, Copy, Debug, PartialEq, Eq, PartialOrd, Ord, Structural)]
pub struct StableObjectId {
    pub mount_id: MountId,
    pub device: u64,
    pub inode: u64,
    pub file_type: ObjectFileType,
}

/// What one stat call saw of an object.
#[derive(Clone, Copy, Debug, PartialEq, Eq, Structural)]
pub struct StatSnapshot {
    pub stable_id: StableObjectId,
    pub uid: u32,
    pub gid: u32,
    pub mode: u32,
    pub ctime_seconds: i64,
    pub ctime_nanoseconds: i64,
}

/// A path that stays below the directory it is resolved from: at least one
/// component, all of them names.
pub open spec fn is_confined(path: Seq<u8>) -> bool {
    &&& components(path).len() > 0
    &&& forall|i: int|
        0 <= i < components(path).len() ==> (#[trigger] components(path)[i]) is Normal
}

/// Whether `path` stays below the directory it is resolved from.
pub fn is_confined_relative_path(path: &[u8]) -> (confined: bool)
    ensures
        confined == is_confined(path@),
{
    let parts = path_components(path);
    proof {
        assert(part_views(parts@).len() == parts@.len());
    }
    if parts.len() == 0 {
        return false;
    }
    let mut i: usize = 0;
    while i < parts.len()
        invariant
            i <= parts@.len(),
            part_views(parts@) == components(path@),
            forall|n: int| 0 <= n < i ==> (#[trigger] components(path@)[n]) is Normal,
        decreases parts@.len() - i,
    {
        assert(components(path@)[i as int] == parts@[i as int]@);
        match &parts[i] {
            PathPart::Normal(_) => {},
            _ => {
                return false;
            },
        }
        i += 1;
    }
    true
}

/// Evidence for recovery that outlives the process. It names an object; it
/// gives no authority over it.
#[derive(Debug)]
pub struct PersistentRecoveryEvidence {
    relative_path: Vec<u8>,
    filesystem_id: Option<String>,
    device: u64,
    inode: u64,
    generation_or_btime: Option<u64>,
    expected_mode: u32,
}

/// The content of [`PersistentRecoveryEvidence`].
#[verifier::ext_equal]
pub struct RecoveryEvidenceView {
    pub relative_path: Seq<u8>,
    pub filesystem_id: Option<Seq<char>>,
    pub device: u64,
    pub inode: u64,
    pub generation_or_btime: Option<u64>,
    pub expected_mode: u32,
}

/// The text of an optional string.
pub open spec fn text_of(text: Option<String>) -> Option<Seq<char>> {
    match text {
        Some(text) => Some(text@),
        None => None,
    }
}

impl View for PersistentRecoveryEvidence {
    type V = RecoveryEvidenceView;

    closed spec fn view(&self) -> RecoveryEvidenceView {
        RecoveryEvidenceView {
            relative_path: self.relative_path@,
            filesystem_id: text_of(self.filesystem_id),
            device: self.device,
            inode: self.inode,
            generation_or_btime: self.generation_or_btime,
            expected_mode: self.expected_mode,
        }
    }
}

impl Clone for PersistentRecoveryEvidence {
    fn clone(&self) -> (copy: Self)
        ensures
            copy@ == self@,
    {
        proof {
            use_type_invariant(self);
        }
        PersistentRecoveryEvidence {
            relative_path: to_vec(self.relative_path.as_slice()),
            filesystem_id: match &self.filesystem_id {
                Some(text) => Some(text.clone()),
                None => None,
            },
            device: self.device,
            inode: self.inode,
            generation_or_btime: self.generation_or_btime,
            expected_mode: self.expected_mode,
        }
    }
}

/// The two are on one object: their paths have the same components, and the rest
/// is equal.
pub open spec fn same_evidence(left: RecoveryEvidenceView, right: RecoveryEvidenceView) -> bool {
    &&& same_path(left.relative_path, right.relative_path)
    &&& left.filesystem_id == right.filesystem_id
    &&& left.device == right.device
    &&& left.inode == right.inode
    &&& left.generation_or_btime == right.generation_or_btime
    &&& left.expected_mode == right.expected_mode
}

fn same_filesystem(left: &Option<String>, right: &Option<String>) -> (same: bool)
    ensures
        same == (text_of(*left) == text_of(*right)),
{
    match (left, right) {
        (Some(first), Some(second)) => *first == *second,
        (None, None) => true,
        _ => false,
    }
}

fn same_incarnation(left: Option<u64>, right: Option<u64>) -> (same: bool)
    ensures
        same == (left == right),
{
    match (left, right) {
        (Some(first), Some(second)) => first == second,
        (None, None) => true,
        _ => false,
    }
}

impl PartialEq for PersistentRecoveryEvidence {
    fn eq(&self, other: &Self) -> (same: bool) {
        paths_equal(self.relative_path.as_slice(), other.relative_path.as_slice())
            && same_filesystem(&self.filesystem_id, &other.filesystem_id) && self.device
            == other.device && self.inode == other.inode && same_incarnation(
            self.generation_or_btime,
            other.generation_or_btime,
        ) && self.expected_mode == other.expected_mode
    }
}

impl vstd::std_specs::cmp::PartialEqSpecImpl for PersistentRecoveryEvidence {
    open spec fn obeys_eq_spec() -> bool {
        true
    }

    open spec fn eq_spec(&self, other: &Self) -> bool {
        same_evidence(self@, other@)
    }
}

impl Eq for PersistentRecoveryEvidence {

}

impl PersistentRecoveryEvidence {
    /// The path stays below the directory that recovery starts from.
    #[verifier::type_invariant]
    spec fn is_below(self) -> bool {
        is_confined(self.relative_path@)
    }

    /// Evidence on the object at `relative_path`, if that path is confined.
    pub fn new(
        relative_path: Vec<u8>,
        filesystem_id: Option<String>,
        device: u64,
        inode: u64,
        generation_or_btime: Option<u64>,
        expected_mode: u32,
    ) -> (evidence: Option<Self>)
        ensures
            evidence is Some <==> is_confined(relative_path@),
            evidence matches Some(made) ==> made@ == (RecoveryEvidenceView {
                relative_path: relative_path@,
                filesystem_id: text_of(filesystem_id),
                device,
                inode,
                generation_or_btime,
                expected_mode,
            }),
    {
        if is_confined_relative_path(&relative_path) {
            Some(
                PersistentRecoveryEvidence {
                    relative_path,
                    filesystem_id,
                    device,
                    inode,
                    generation_or_btime,
                    expected_mode,
                },
            )
        } else {
            None
        }
    }

    /// Where the object is.
    pub fn relative_path(&self) -> (path: &Vec<u8>)
        ensures
            path@ == self@.relative_path,
            is_confined(path@),
    {
        proof {
            use_type_invariant(self);
        }
        &self.relative_path
    }

    /// Which file system holds it.
    pub fn filesystem_id(&self) -> (id: Option<&String>)
        ensures
            match id {
                Some(text) => self@.filesystem_id == Some(text@),
                None => self@.filesystem_id is None,
            },
    {
        match &self.filesystem_id {
            Some(text) => Some(text),
            None => None,
        }
    }

    /// Its device number.
    pub fn device(&self) -> (device: u64)
        ensures
            device == self@.device,
    {
        self.device
    }

    /// Its inode number.
    pub fn inode(&self) -> (inode: u64)
        ensures
            inode == self@.inode,
    {
        self.inode
    }

    /// What tells it from another object with the same inode number.
    pub fn generation_or_btime(&self) -> (incarnation: Option<u64>)
        ensures
            incarnation == self@.generation_or_btime,
    {
        self.generation_or_btime
    }

    /// The mode bits that recovery expects.
    pub fn expected_mode(&self) -> (mode: u32)
        ensures
            mode == self@.expected_mode,
    {
        self.expected_mode
    }
}

/// What part of a mutation unit an exposure covers.
#[derive(Clone, Copy, Debug, PartialEq, Eq, PartialOrd, Ord, Structural)]
pub enum AuthorityScope {
    RootBinding,
    WholeMutationUnit,
    Directory(StableObjectId),
}

impl AuthorityScope {
    /// The whole unit covers each of its directories; otherwise a scope covers
    /// itself alone.
    pub open spec fn inside(self, confirmed: Self) -> bool {
        self == confirmed || (self is Directory && confirmed == AuthorityScope::WholeMutationUnit)
    }

    /// Whether `confirmed` covers everything that `self` covers.
    pub fn is_within(&self, confirmed: &Self) -> (within: bool)
        ensures
            within == self.inside(*confirmed),
    {
        match (self, confirmed) {
            (AuthorityScope::RootBinding, AuthorityScope::RootBinding) => true,
            (AuthorityScope::WholeMutationUnit, AuthorityScope::WholeMutationUnit) => true,
            (AuthorityScope::Directory(_), AuthorityScope::WholeMutationUnit) => true,
            (AuthorityScope::Directory(actual), AuthorityScope::Directory(expected)) => *actual
                == *expected,
            _ => false,
        }
    }
}

/// Someone who can write.
#[derive(Clone, Debug, PartialEq, Eq)]
pub struct WriterExposure {
    pub principal: Principal,
    pub rights: NamespaceRights,
    pub source: AuthorityBackend,
    pub inherited: bool,
    pub certainty: EvidenceCertainty,
}

/// Someone who can change who can write.
#[derive(Clone, Debug, PartialEq, Eq)]
pub struct AuthorityControllerExposure {
    pub principal: Principal,
    pub rights: AuthorityControlRights,
}

/// Why policy refuses.
#[derive(Clone, Copy, Debug, PartialEq, Eq, Structural)]
pub enum PolicyReason {
    ForeignContent,
    ProtectedContent,
    UnacceptedWriter,
    UnknownEvidence,
}

/// What may be done about a finding.
#[derive(Clone, Copy, Debug, PartialEq, Eq, Structural)]
pub enum CleanupDisposition {
    Eligible,
    ReviewRequired,
    ReportOnly,
}

impl Default for CleanupDisposition {
    fn default() -> (disposition: Self)
        ensures
            disposition == CleanupDisposition::ReportOnly,
    {
        CleanupDisposition::ReportOnly
    }
}

/// A plan, and the principals that were accepted as writers for it.
#[derive(Debug, PartialEq, Eq)]
pub struct PlanBoundAcceptance {
    plan_id: String,
    principals: PrincipalSet,
}

impl Clone for PlanBoundAcceptance {
    fn clone(&self) -> (copy: Self)
        ensures
            copy.plan() == self.plan(),
            copy.accepted() == self.accepted(),
    {
        proof {
            use_type_invariant(self);
        }
        PlanBoundAcceptance { plan_id: self.plan_id.clone(), principals: self.principals.clone() }
    }
}

impl PlanBoundAcceptance {
    /// The plan that the acceptance is bound to.
    pub closed spec fn plan(&self) -> Seq<char> {
        self.plan_id@
    }

    /// The accepted principals, in their order.
    pub closed spec fn accepted(&self) -> Seq<PrincipalView> {
        self.principals@
    }

    /// A named plan, and at least one principal, none of them unknown.
    #[verifier::type_invariant]
    spec fn is_acceptable(self) -> bool {
        &&& self.plan_id@.len() > 0
        &&& self.principals@.len() > 0
        &&& !self.principals@.contains(PrincipalView::Unknown)
    }

    /// The acceptance of `principals` for `plan_id`, if there is a plan, and
    /// there are principals, all of them known.
    pub fn new(plan_id: String, principals: PrincipalSet) -> (acceptance: Option<Self>)
        ensures
            acceptance is Some <==> plan_id@.len() > 0 && principals@.len() > 0
                && !principals@.contains(PrincipalView::Unknown),
            acceptance matches Some(made) ==> made.plan() == plan_id@
                && made.accepted() == principals@,
    {
        if plan_id.as_str().unicode_len() == 0 || principals.is_empty()
            || principals.has_unknown() {
            None
        } else {
            Some(PlanBoundAcceptance { plan_id, principals })
        }
    }

    /// The plan that the acceptance is bound to.
    pub fn plan_id(&self) -> (plan: &String)
        ensures
            plan@ == self.plan(),
    {
        &self.plan_id
    }

    /// The accepted principals.
    pub fn principals(&self) -> (principals: &PrincipalSet)
        ensures
            principals@ == self.accepted(),
            principals@.len() > 0,
            !principals@.contains(PrincipalView::Unknown),
    {
        proof {
            use_type_invariant(self);
        }
        &self.principals
    }
}

/// What has been decided about the writers of a mutation unit.
#[derive(Clone, Debug, PartialEq, Eq)]
pub enum WriterRiskDecision {
    NoAdditionalWriter,
    AcceptanceRequired(PrincipalSet),
    Accepted(PlanBoundAcceptance),
    Forbidden(PolicyReason),
}

impl Default for WriterRiskDecision {
    fn default() -> (decision: Self)
        ensures
            decision == WriterRiskDecision::Forbidden(PolicyReason::UnknownEvidence),
    {
        WriterRiskDecision::Forbidden(PolicyReason::UnknownEvidence)
    }
}

/// That a capability is there, and which backend says so.
#[derive(Clone, Copy, Debug, PartialEq, Eq, Structural)]
pub struct CapabilityEvidence {
    backend: AuthorityBackend,
}

impl CapabilityEvidence {
    /// The backend that says so.
    pub closed spec fn source(self) -> AuthorityBackend {
        self.backend
    }

    /// The backend is a known one.
    pub open spec fn wf(self) -> bool {
        self.source() != AuthorityBackend::Unknown
    }

    /// Evidence from `backend`, if that backend is known.
    pub fn new(backend: AuthorityBackend) -> (evidence: Option<Self>)
        ensures
            evidence is Some <==> backend != AuthorityBackend::Unknown,
            evidence matches Some(made) ==> made.source() == backend,
    {
        if backend.is_known() {
            Some(CapabilityEvidence { backend })
        } else {
            None
        }
    }

    /// The backend that says so.
    pub fn backend(self) -> (backend: AuthorityBackend)
        ensures
            backend == self.source(),
    {
        self.backend
    }
}

/// How a capability could be gained.
#[derive(Clone, Copy, Debug, PartialEq, Eq, Structural)]
pub enum CapabilityAcquisition {
    OwnerModeTransform { original: u32, required: u32 },
    BackendSpecific { backend: AuthorityBackend },
}

/// Why a capability is missing.
#[derive(Clone, Copy, Debug, PartialEq, Eq, Structural)]
pub enum CapabilityReason {
    PermissionDenied,
    NotOwner,
    Unsupported,
}

/// Why a capability is not known.
#[derive(Clone, Copy, Debug, PartialEq, Eq, Structural)]
pub enum UnknownReason {
    UncertifiedBackend,
    ProbeFailed,
    ServerDecides,
}

/// What is known of a capability.
#[derive(Clone, Copy, Debug, PartialEq, Eq, Structural)]
pub enum CapabilityAssessment {
    Present(CapabilityEvidence),
    Acquirable(CapabilityAcquisition),
    Missing(CapabilityReason),
    Unknown(UnknownReason),
}

impl Default for CapabilityAssessment {
    fn default() -> (assessment: Self)
        ensures
            assessment == CapabilityAssessment::Unknown(UnknownReason::ProbeFailed),
    {
        CapabilityAssessment::Unknown(UnknownReason::ProbeFailed)
    }
}

/// How the binding of a root in its parent is protected.
#[derive(Clone, Debug, PartialEq, Eq)]
pub enum RootBindingStrategy {
    AlreadyExclusive,
    SealOwnedParent,
    StickyConfinement,
    AcceptedWriters(PlanBoundAcceptance),
}

/// How stable the content has to be between classification and mutation.
#[derive(Clone, Copy, Debug, PartialEq, Eq, Structural)]
pub enum ContentStabilityRequirement {
    PathAndOwnershipOnly,
    ImmutableAfterClassification,
    NativeCoordinationRequired,
}

impl Default for ContentStabilityRequirement {
    fn default() -> (requirement: Self)
        ensures
            requirement == ContentStabilityRequirement::NativeCoordinationRequired,
    {
        ContentStabilityRequirement::NativeCoordinationRequired
    }
}

/// How far a transaction has come.
#[derive(Clone, Copy, Debug, PartialEq, Eq, Structural)]
pub enum TransactionState {
    Prepared,
    ParentSealIntent,
    ParentSealed,
    TreeSealIntent,
    TreeSealed,
    RenameIntent,
    StagedUnverified,
    StagedSealed,
    VerifiedCommitted,
    Purgeable,
    Purged,
    RollbackIntent,
    RolledBack,
    RestoreIntent,
    Restored,
    Quarantined,
    RecoveryRequired,
}

impl TransactionState {
    /// The transaction has been verified and committed.
    pub open spec fn committed(self) -> bool {
        self == TransactionState::VerifiedCommitted || self == TransactionState::Purgeable || self
            == TransactionState::Purged
    }

    /// Whether an acceptance of writers has run out: it does when the
    /// transaction commits.
    pub fn writer_acceptance_expired(self) -> (expired: bool)
        ensures
            expired == self.committed(),
    {
        matches!(
            self,
            TransactionState::VerifiedCommitted | TransactionState::Purgeable
                | TransactionState::Purged
        )
    }
}

/// The authority to purge. It comes only of a purgeable transaction.
#[derive(Clone, Copy, Debug, PartialEq, Eq)]
pub struct PurgeAuthority(());

impl PurgeAuthority {
    /// The authority over a transaction in `state`; the state itself where it
    /// gives none.
    pub fn try_from(state: TransactionState) -> (authority: Result<Self, TransactionState>)
        ensures
            authority is Ok <==> state == TransactionState::Purgeable,
            authority matches Err(refused) ==> refused == state,
    {
        if state == TransactionState::Purgeable {
            Ok(PurgeAuthority(()))
        } else {
            Err(state)
        }
    }
}

/// Whether a unit may be mutated.
#[derive(Clone, Copy, Debug, PartialEq, Eq, Structural)]
pub enum MutationUnitAuthority {
    Authorized,
    Denied(PolicyReason),
}

/// The authority over one unit.
#[derive(Clone, Copy, Debug, PartialEq, Eq, Structural)]
pub struct MutationUnitAssessment {
    pub id: MutationUnitId,
    pub authority: MutationUnitAuthority,
}

/// Everything that is known before a cleanup.
#[derive(Clone, Debug, PartialEq, Eq)]
pub struct CleanupAssessmentV1 {
    pub schema_version: u16,
    pub disposition: CleanupDisposition,
    pub writer_exposure: WriterExposureSet,
    pub writer_risk: WriterRiskDecision,
    pub capability: CapabilityAssessment,
    pub freshness: EvidenceFreshness,
    pub root_binding: Option<RootBindingStrategy>,
    pub content_stability: ContentStabilityRequirement,
    pub mutation_units: Vec<MutationUnitAssessment>,
}

impl Default for CleanupAssessmentV1 {
    fn default() -> (assessment: Self)
        ensures
            assessment.schema_version == CLEANUP_ASSESSMENT_SCHEMA_VERSION,
            assessment.disposition == CleanupDisposition::ReportOnly,
            assessment.writer_exposure@.len() == 0,
            assessment.writer_risk == WriterRiskDecision::Forbidden(PolicyReason::UnknownEvidence),
            assessment.capability == CapabilityAssessment::Unknown(UnknownReason::ProbeFailed),
            assessment.freshness == EvidenceFreshness::Unknown,
            assessment.root_binding is None,
            assessment.content_stability
                == ContentStabilityRequirement::NativeCoordinationRequired,
            assessment.mutation_units@.len() == 0,
    {
        CleanupAssessmentV1 {
            schema_version: CLEANUP_ASSESSMENT_SCHEMA_VERSION,
            disposition: CleanupDisposition::ReportOnly,
            writer_exposure: WriterExposureSet::default(),
            writer_risk: WriterRiskDecision::default(),
            capability: CapabilityAssessment::default(),
            freshness: EvidenceFreshness::default(),
            root_binding: None,
            content_stability: ContentStabilityRequirement::default(),
            mutation_units: Vec::new(),
        }
    }
}

/// Two pieces of recovery evidence are on one object only where everything that
/// tells objects apart agrees.
pub proof fn law_recovery_evidence_is_compared_in_full(
    left: RecoveryEvidenceView,
    right: RecoveryEvidenceView,
)
    ensures
        same_evidence(left, right) <==> {
            &&& components(left.relative_path) == components(right.relative_path)
            &&& left.filesystem_id == right.filesystem_id
            &&& left.device == right.device
            &&& left.inode == right.inode
            &&& left.generation_or_btime == right.generation_or_btime
            &&& left.expected_mode == right.expected_mode
        },
{
}

/// A subset grants, right by right, nothing that the whole does not; the union
/// grants exactly what either does; and the weaker of two pieces of evidence is
/// never surer than either.
pub proof fn law_rights_are_compared_one_by_one(
    left: NamespaceRights,
    right: NamespaceRights,
    own: AuthorityControlRights,
    other: AuthorityControlRights,
    first: EvidenceCertainty,
    second: EvidenceCertainty,
)
    ensures
        left.within(right) <==> left.joined(right) == right,
        own.within(other) <==> own.joined(other) == other,
        left.joined(right).create_file == (left.create_file || right.create_file),
        left.joined(right).create_dir == (left.create_dir || right.create_dir),
        left.joined(right).delete_child == (left.delete_child || right.delete_child),
        left.joined(right).replace_child == (left.replace_child || right.replace_child),
        left.joined(right).traverse == (left.traverse || right.traverse),
        own.joined(other).change_mode == (own.change_mode || other.change_mode),
        own.joined(other).change_acl == (own.change_acl || other.change_acl),
        own.joined(other).replace_binding == (own.replace_binding || other.replace_binding),
        first.no_weaker(second) ==> second.weaker_of(first) == second,
        first != EvidenceCertainty::Unknown ==> first.no_weaker(first),
        !EvidenceCertainty::Unknown.no_weaker(second),
        !first.no_weaker(EvidenceCertainty::Unknown),
        EvidenceCertainty::Verified.no_weaker(EvidenceCertainty::Inferred),
        !EvidenceCertainty::Inferred.no_weaker(EvidenceCertainty::Verified),
{
}

/// What was accepted of writers holds up to the commit and no further: it has run
/// out once the transaction was verified and committed, may be purged or was, and
/// in no state before or beside that.
pub proof fn law_acceptance_ends_with_the_commit(state: TransactionState)
    ensures
        state.committed() <==> !(state is Prepared || state is ParentSealIntent
            || state is ParentSealed || state is TreeSealIntent || state is TreeSealed
            || state is RenameIntent || state is StagedUnverified || state is StagedSealed
            || state is RollbackIntent || state is RolledBack || state is RestoreIntent
            || state is Restored || state is Quarantined || state is RecoveryRequired),
{
}

/// A scope covers itself, and the whole unit covers each of its directories; nothing
/// else covers anything, and a directory never covers the unit or the binding of the
/// root.
pub proof fn law_scopes_cover_little(actual: AuthorityScope, confirmed: AuthorityScope)
    ensures
        actual.inside(actual),
        actual.inside(confirmed) && actual != confirmed ==> actual is Directory && confirmed
            is WholeMutationUnit,
        actual is Directory && confirmed is WholeMutationUnit ==> actual.inside(confirmed),
        actual is WholeMutationUnit && confirmed is Directory ==> !actual.inside(confirmed),
        actual is RootBinding && !(confirmed is RootBinding) ==> !actual.inside(confirmed),
        confirmed is RootBinding && !(actual is RootBinding) ==> !actual.inside(confirmed),
{
}

} // verus!
