//! What a held directory is known to be, and how its mode is changed.
//!
//! The evidence is data: whoever holds the descriptor inspects it and hands
//! what was seen to the steps below, which decide. A mode change goes through
//! three of them. It is prepared against what the descriptor shows, admitted
//! against what it shows just before the change, and finished with what the
//! change returned and what the descriptor shows after it.

use crate::authority::local_mode::grants_namespace_write;
use crate::authority::local_mode::has_namespace_writers;
use crate::authority::local_mode::law_sealing;
use crate::authority::local_mode::minimal_sealed_mode;
use crate::authority::local_mode::sealed_mode;
use crate::backend::certify::acl_refusal;
use crate::backend::certify::certify_linux_mount;
use crate::backend::certify::certify_macos_filesystem_name;
use crate::backend::certify::require_acl_absent;
use crate::backend::certify::AclProbe;
use crate::backend::certify::CertificationError;
use crate::backend::certify::CertifiedLocalBackend;
use crate::backend::certify::apfs;
use crate::backend::certify::linux_certificate;
use crate::bytes::bytes_equal;
use std::collections::BTreeSet;
use vstd::prelude::*;

verus! {

broadcast use vstd::std_specs::btree::group_btree_axioms;

/// Why a held directory is not, or no longer, what it was certified to be.
#[derive(Clone, Copy, Debug, PartialEq, Eq, Structural)]
pub enum LocalModeRevalidationFailure {
    DescriptorUnavailable,
    DescriptorCannotChmod,
    BackendUnavailable,
    BackendChanged,
    MountChanged,
    IdentityChanged,
    NotDirectory,
    OwnerChanged,
    GroupChanged,
    EffectiveUidChanged,
    EffectiveGroupsChanged,
    ModeChanged { expected: u32, actual: u32 },
    AclPresent,
    AclProbeUnknown,
    InvalidTargetMode,
    EvidenceUnverified,
    SealAlreadyActive,
    MissingSealLineage,
    SealLineageMismatch,
    NamespaceWritersPresent,
}

/// The file types that can be certified.
#[derive(Clone, Copy, Debug, PartialEq, Eq, Structural)]
pub enum VerifiedLocalFileType {
    Directory,
}

/// Names one transaction.
#[derive(Clone, Copy, Debug, PartialEq, Eq)]
pub struct TransactionId(pub [u8; 16]);

impl TransactionId {
    /// Whether the two are the same transaction.
    pub fn same(&self, other: &Self) -> (same: bool)
        ensures
            same == (self.0@ == other.0@),
    {
        bytes_equal(self.0.as_slice(), other.0.as_slice())
    }
}

/// Whether two sets of groups have the same members.
pub fn same_groups(left: &BTreeSet<u32>, right: &BTreeSet<u32>) -> (same: bool)
    ensures
        same == (left@ == right@),
{
    if !groups_within(left, right) || !groups_within(right, left) {
        return false;
    }
    assert(left@ =~= right@);
    true
}

/// Whether `right` has every member of `left`.
fn groups_within(left: &BTreeSet<u32>, right: &BTreeSet<u32>) -> (within: bool)
    ensures
        within == left@.subset_of(right@),
{
    for group in walk: left.iter()
        invariant
            walk.seq().unref().to_set() == left@,
            forall|n: int| 0 <= n < walk.index() ==> right@.contains(#[trigger] walk.seq().unref()[n]),
    {
        if !right.contains(group) {
            proof {
                let seen = walk.seq().unref();
                assert(seen[walk.index() as int] == *group);
                assert(seen.to_set().contains(*group));
            }
            return false;
        }
    }
    true
}

/// A held directory as one inspection showed it.
#[derive(Clone, Debug, PartialEq, Eq)]
pub struct VerifiedLocalModeSnapshot {
    pub backend: CertifiedLocalBackend,
    pub mount_id: u64,
    pub owner_uid: u32,
    pub group_gid: u32,
    pub mode: u32,
    pub device: u64,
    pub inode: u64,
    pub file_type: VerifiedLocalFileType,
    pub effective_uid: u32,
    pub effective_groups: BTreeSet<u32>,
}

/// The content of a [`VerifiedLocalModeSnapshot`].
#[verifier::ext_equal]
pub struct SnapshotView {
    pub backend: CertifiedLocalBackend,
    pub mount_id: u64,
    pub owner_uid: u32,
    pub group_gid: u32,
    pub mode: u32,
    pub device: u64,
    pub inode: u64,
    pub file_type: VerifiedLocalFileType,
    pub effective_uid: u32,
    pub effective_groups: Set<u32>,
}

impl View for VerifiedLocalModeSnapshot {
    type V = SnapshotView;

    open spec fn view(&self) -> SnapshotView {
        SnapshotView {
            backend: self.backend,
            mount_id: self.mount_id,
            owner_uid: self.owner_uid,
            group_gid: self.group_gid,
            mode: self.mode,
            device: self.device,
            inode: self.inode,
            file_type: self.file_type,
            effective_uid: self.effective_uid,
            effective_groups: self.effective_groups@,
        }
    }
}

/// The first thing in which `actual` differs from what was `expected`, with the
/// mode expected apart. The process has to be the owner.
pub open spec fn snapshot_fault(
    actual: SnapshotView,
    expected: SnapshotView,
    expected_mode: u32,
) -> Option<LocalModeRevalidationFailure> {
    if actual.backend != expected.backend {
        Some(LocalModeRevalidationFailure::BackendChanged)
    } else if actual.mount_id != expected.mount_id {
        Some(LocalModeRevalidationFailure::MountChanged)
    } else if actual.device != expected.device || actual.inode != expected.inode {
        Some(LocalModeRevalidationFailure::IdentityChanged)
    } else if actual.file_type != expected.file_type {
        Some(LocalModeRevalidationFailure::NotDirectory)
    } else if actual.owner_uid != expected.owner_uid {
        Some(LocalModeRevalidationFailure::OwnerChanged)
    } else if actual.group_gid != expected.group_gid {
        Some(LocalModeRevalidationFailure::GroupChanged)
    } else if actual.effective_uid != expected.effective_uid || actual.effective_uid
        != actual.owner_uid {
        Some(LocalModeRevalidationFailure::EffectiveUidChanged)
    } else if actual.effective_groups != expected.effective_groups {
        Some(LocalModeRevalidationFailure::EffectiveGroupsChanged)
    } else if actual.mode != expected_mode {
        Some(
            LocalModeRevalidationFailure::ModeChanged {
                expected: expected_mode,
                actual: actual.mode,
            },
        )
    } else {
        None
    }
}

/// Whether `outcome` is the one that `fault` asks for.
pub open spec fn settled<T>(
    outcome: Result<T, LocalModeRevalidationFailure>,
    fault: Option<LocalModeRevalidationFailure>,
) -> bool {
    match outcome {
        Ok(_) => fault is None,
        Err(error) => fault == Some(error),
    }
}

/// Requires that `actual` is what was `expected`, with the mode expected apart.
pub fn validate_snapshot(
    actual: &VerifiedLocalModeSnapshot,
    expected: &VerifiedLocalModeSnapshot,
    expected_mode: u32,
) -> (outcome: Result<(), LocalModeRevalidationFailure>)
    ensures
        settled(outcome, snapshot_fault(actual@, expected@, expected_mode)),
{
    if actual.backend != expected.backend {
        return Err(LocalModeRevalidationFailure::BackendChanged);
    }
    if actual.mount_id != expected.mount_id {
        return Err(LocalModeRevalidationFailure::MountChanged);
    }
    if actual.device != expected.device || actual.inode != expected.inode {
        return Err(LocalModeRevalidationFailure::IdentityChanged);
    }
    if actual.file_type != expected.file_type {
        return Err(LocalModeRevalidationFailure::NotDirectory);
    }
    if actual.owner_uid != expected.owner_uid {
        return Err(LocalModeRevalidationFailure::OwnerChanged);
    }
    if actual.group_gid != expected.group_gid {
        return Err(LocalModeRevalidationFailure::GroupChanged);
    }
    if actual.effective_uid != expected.effective_uid || actual.effective_uid != actual.owner_uid {
        return Err(LocalModeRevalidationFailure::EffectiveUidChanged);
    }
    if !same_groups(&actual.effective_groups, &expected.effective_groups) {
        return Err(LocalModeRevalidationFailure::EffectiveGroupsChanged);
    }
    if actual.mode != expected_mode {
        return Err(
            LocalModeRevalidationFailure::ModeChanged {
                expected: expected_mode,
                actual: actual.mode,
            },
        );
    }
    Ok(())
}

/// Which mutation sealed a directory, and what it was then.
#[derive(Clone, Debug, PartialEq, Eq)]
pub struct SealLineage {
    transaction: TransactionId,
    mutation_id: u64,
    sealed: VerifiedLocalModeSnapshot,
    original_mode: u32,
}

/// The content of a [`SealLineage`]: the mutation, the directory with its
/// sealed mode, and the mode it had before.
#[verifier::ext_equal]
pub struct LineageView {
    pub transaction: Seq<u8>,
    pub mutation_id: u64,
    pub sealed: SnapshotView,
    pub original_mode: u32,
}

impl View for SealLineage {
    type V = LineageView;

    closed spec fn view(&self) -> LineageView {
        LineageView {
            transaction: self.transaction.0@,
            mutation_id: self.mutation_id,
            sealed: self.sealed@,
            original_mode: self.original_mode,
        }
    }
}

impl VerifiedLocalModeSnapshot {
    /// The same snapshot again.
    pub fn duplicate(&self) -> (copy: Self)
        ensures
            copy@ == self@,
    {
        VerifiedLocalModeSnapshot {
            backend: self.backend,
            mount_id: self.mount_id,
            owner_uid: self.owner_uid,
            group_gid: self.group_gid,
            mode: self.mode,
            device: self.device,
            inode: self.inode,
            file_type: self.file_type,
            effective_uid: self.effective_uid,
            effective_groups: self.effective_groups.clone(),
        }
    }

    /// Whether the two show the same.
    pub fn same(&self, other: &Self) -> (same: bool)
        ensures
            same == (self@ == other@),
    {
        self.backend == other.backend && self.mount_id == other.mount_id && self.owner_uid
            == other.owner_uid && self.group_gid == other.group_gid && self.mode == other.mode
            && self.device == other.device && self.inode == other.inode && self.file_type
            == other.file_type && self.effective_uid == other.effective_uid && same_groups(
            &self.effective_groups,
            &other.effective_groups,
        )
    }
}

impl SealLineage {
    /// The same lineage again.
    pub fn duplicate(&self) -> (copy: Self)
        ensures
            copy@ == self@,
    {
        SealLineage {
            transaction: self.transaction,
            mutation_id: self.mutation_id,
            sealed: self.sealed.duplicate(),
            original_mode: self.original_mode,
        }
    }

    /// Whether the two are the same lineage.
    pub fn same(&self, other: &Self) -> (same: bool)
        ensures
            same == (self@ == other@),
    {
        self.transaction.same(&other.transaction) && self.mutation_id == other.mutation_id
            && self.sealed.same(&other.sealed) && self.original_mode == other.original_mode
    }
}

/// What a prepared mode change is for.
#[derive(Debug)]
pub enum PreparedModeChangeKind {
    Seal,
    Restore(SealLineage),
}

/// The content of a [`PreparedModeChangeKind`].
#[verifier::ext_equal]
pub enum KindView {
    Seal,
    Restore(LineageView),
}

impl View for PreparedModeChangeKind {
    type V = KindView;

    open spec fn view(&self) -> KindView {
        match *self {
            PreparedModeChangeKind::Seal => KindView::Seal,
            PreparedModeChangeKind::Restore(lineage) => KindView::Restore(lineage@),
        }
    }
}

/// A mode change that has been prepared against what the directory showed. It
/// is used once.
#[derive(Debug)]
pub struct PreparedHeldModeChange {
    pre: VerifiedLocalModeSnapshot,
    target_mode: u32,
    kind: PreparedModeChangeKind,
}

/// The content of a [`PreparedHeldModeChange`].
#[verifier::ext_equal]
pub struct PreparedView {
    pub pre: SnapshotView,
    pub target_mode: u32,
    pub kind: KindView,
}

impl View for PreparedHeldModeChange {
    type V = PreparedView;

    closed spec fn view(&self) -> PreparedView {
        PreparedView { pre: self.pre@, target_mode: self.target_mode, kind: self.kind@ }
    }
}

impl PreparedHeldModeChange {
    /// The mode before the change.
    pub fn pre_mode(&self) -> (mode: u32)
        ensures
            mode == self@.pre.mode,
    {
        self.pre.mode
    }

    /// The mode that the change asks for.
    pub fn target_mode(&self) -> (mode: u32)
        ensures
            mode == self@.target_mode,
    {
        self.target_mode
    }

    /// The device of the directory.
    pub fn device(&self) -> (device: u64)
        ensures
            device == self@.pre.device,
    {
        self.pre.device
    }

    /// The inode of the directory.
    pub fn inode(&self) -> (inode: u64)
        ensures
            inode == self@.pre.inode,
    {
        self.pre.inode
    }
}

/// A mode change that may be made now.
#[derive(Debug)]
pub struct AdmittedModeChange {
    prepared: PreparedHeldModeChange,
    pre: VerifiedLocalModeSnapshot,
    consumed_lineage: Option<SealLineage>,
}

/// The content of an optional lineage.
pub open spec fn lineage_of(lineage: Option<SealLineage>) -> Option<LineageView> {
    match lineage {
        Some(lineage) => Some(lineage@),
        None => None,
    }
}

/// The content of an [`AdmittedModeChange`].
#[verifier::ext_equal]
pub struct AdmittedView {
    pub prepared: PreparedView,
    pub pre: SnapshotView,
    pub consumed_lineage: Option<LineageView>,
}

impl View for AdmittedModeChange {
    type V = AdmittedView;

    closed spec fn view(&self) -> AdmittedView {
        AdmittedView {
            prepared: self.prepared@,
            pre: self.pre@,
            consumed_lineage: lineage_of(self.consumed_lineage),
        }
    }
}

impl AdmittedModeChange {
    /// The mode to set.
    pub fn target_mode(&self) -> (mode: u32)
        ensures
            mode == self@.prepared.target_mode,
    {
        self.prepared.target_mode
    }
}

/// The system error number that a mode change failed with.
#[derive(Clone, Copy, Debug, PartialEq, Eq, Structural)]
pub struct ModeSyscallFailure(pub i32);

/// How a mode change ended.
#[derive(Clone, Debug, PartialEq, Eq)]
pub enum HeldModeChangeOutcome {
    AppliedVerified { pre: VerifiedLocalModeSnapshot, post: VerifiedLocalModeSnapshot },
    NotAppliedVerified { snapshot: VerifiedLocalModeSnapshot, cause: ModeSyscallFailure },
    RefusedBeforeMutation { reason: LocalModeRevalidationFailure },
    AppliedButUnverified { expected_target: u32, reason: LocalModeRevalidationFailure },
    OutcomeUnknown { syscall: ModeSyscallFailure, post_failure: LocalModeRevalidationFailure },
}

/// The content of a [`HeldModeChangeOutcome`].
#[verifier::ext_equal]
pub enum OutcomeView {
    AppliedVerified { pre: SnapshotView, post: SnapshotView },
    NotAppliedVerified { snapshot: SnapshotView, cause: ModeSyscallFailure },
    RefusedBeforeMutation { reason: LocalModeRevalidationFailure },
    AppliedButUnverified { expected_target: u32, reason: LocalModeRevalidationFailure },
    OutcomeUnknown { syscall: ModeSyscallFailure, post_failure: LocalModeRevalidationFailure },
}

impl View for HeldModeChangeOutcome {
    type V = OutcomeView;

    open spec fn view(&self) -> OutcomeView {
        match *self {
            HeldModeChangeOutcome::AppliedVerified { pre, post } => OutcomeView::AppliedVerified {
                pre: pre@,
                post: post@,
            },
            HeldModeChangeOutcome::NotAppliedVerified { snapshot, cause } =>
                OutcomeView::NotAppliedVerified { snapshot: snapshot@, cause },
            HeldModeChangeOutcome::RefusedBeforeMutation { reason } =>
                OutcomeView::RefusedBeforeMutation { reason },
            HeldModeChangeOutcome::AppliedButUnverified { expected_target, reason } =>
                OutcomeView::AppliedButUnverified { expected_target, reason },
            HeldModeChangeOutcome::OutcomeUnknown { syscall, post_failure } =>
                OutcomeView::OutcomeUnknown { syscall, post_failure },
        }
    }
}

/// What an inspection of the descriptor gave.
pub type Inspected = Result<VerifiedLocalModeSnapshot, LocalModeRevalidationFailure>;

/// What a directory was certified to be. It carries no authority to mutate.
#[derive(Debug)]
pub struct HeldLocalBackendEvidence {
    snapshot: VerifiedLocalModeSnapshot,
    mode_verified: bool,
    seal_lineage: Option<SealLineage>,
}

/// The content of a [`HeldLocalBackendEvidence`].
#[verifier::ext_equal]
pub struct EvidenceView {
    /// The directory with its mode as last observed.
    pub snapshot: SnapshotView,
    /// Whether that mode can still be relied on.
    pub mode_verified: bool,
    /// The mutation that sealed the directory, if one did.
    pub lineage: Option<LineageView>,
}

impl View for HeldLocalBackendEvidence {
    type V = EvidenceView;

    closed spec fn view(&self) -> EvidenceView {
        EvidenceView {
            snapshot: self.snapshot@,
            mode_verified: self.mode_verified,
            lineage: lineage_of(self.seal_lineage),
        }
    }
}

/// What is wrong with an inspection, held against what is expected.
pub open spec fn inspection_fault(
    observed: Inspected,
    expected: SnapshotView,
    expected_mode: u32,
) -> Option<LocalModeRevalidationFailure> {
    match observed {
        Ok(actual) => snapshot_fault(actual@, expected, expected_mode),
        Err(failure) => Some(failure),
    }
}

/// The evidence without the claim that its mode can be relied on.
pub open spec fn doubted(evidence: EvidenceView) -> EvidenceView {
    EvidenceView {
        snapshot: evidence.snapshot,
        mode_verified: false,
        lineage: evidence.lineage,
    }
}

/// The snapshot with another mode.
pub open spec fn with_mode(snapshot: SnapshotView, mode: u32) -> SnapshotView {
    SnapshotView {
        backend: snapshot.backend,
        mount_id: snapshot.mount_id,
        owner_uid: snapshot.owner_uid,
        group_gid: snapshot.group_gid,
        mode,
        device: snapshot.device,
        inode: snapshot.inode,
        file_type: snapshot.file_type,
        effective_uid: snapshot.effective_uid,
        effective_groups: snapshot.effective_groups,
    }
}

/// The evidence after its mode has become uncertain: the best observation, no
/// reliance on it, and no lineage.
pub open spec fn invalidated(evidence: EvidenceView, best_observation: u32) -> EvidenceView {
    EvidenceView {
        snapshot: with_mode(evidence.snapshot, best_observation),
        mode_verified: false,
        lineage: None,
    }
}

/// Why a change to `target_mode` cannot be prepared.
pub open spec fn exact_change_fault(
    evidence: EvidenceView,
    target_mode: u32,
    observed: Inspected,
) -> Option<LocalModeRevalidationFailure> {
    if target_mode & !0o7777u32 != 0 {
        Some(LocalModeRevalidationFailure::InvalidTargetMode)
    } else {
        inspection_fault(observed, evidence.snapshot, evidence.snapshot.mode)
    }
}

/// The evidence after a change to `target_mode` was asked for: doubted, where
/// the directory is not what it was.
pub open spec fn after_exact_change(
    evidence: EvidenceView,
    target_mode: u32,
    observed: Inspected,
) -> EvidenceView {
    if target_mode & !0o7777u32 == 0 && exact_change_fault(evidence, target_mode, observed)
        is Some {
        doubted(evidence)
    } else {
        evidence
    }
}

/// The mode that sealing asks for: the minimal one, with write and search for
/// the owner where they are asked for too.
pub open spec fn seal_target(mode: u32, acquire_owner_write_search: bool) -> u32 {
    sealed_mode(
        if acquire_owner_write_search {
            mode | 0o300
        } else {
            mode
        },
    )
}

/// Why sealing cannot start, whatever the directory shows now.
pub open spec fn seal_refusal(evidence: EvidenceView) -> Option<LocalModeRevalidationFailure> {
    if !evidence.mode_verified {
        Some(LocalModeRevalidationFailure::EvidenceUnverified)
    } else if evidence.lineage is Some {
        Some(LocalModeRevalidationFailure::SealAlreadyActive)
    } else {
        None
    }
}

/// The lineage of a directory that the given mutation sealed.
pub open spec fn sealed_lineage(
    evidence: EvidenceView,
    transaction: Seq<u8>,
    mutation_id: u64,
    original_mode: u32,
    sealed: u32,
) -> LineageView {
    LineageView {
        transaction,
        mutation_id,
        sealed: with_mode(evidence.snapshot, sealed),
        original_mode,
    }
}

/// Why a restore cannot start, whatever the directory shows now.
pub open spec fn restore_refusal(
    evidence: EvidenceView,
    transaction: Seq<u8>,
    original_mutation_id: u64,
    original_expected_mode: u32,
    original_pre_mode: u32,
) -> Option<LocalModeRevalidationFailure> {
    if !evidence.mode_verified || evidence.snapshot.mode != original_expected_mode {
        Some(LocalModeRevalidationFailure::EvidenceUnverified)
    } else if evidence.lineage is None {
        Some(LocalModeRevalidationFailure::MissingSealLineage)
    } else if evidence.lineage->0 != sealed_lineage(
        evidence,
        transaction,
        original_mutation_id,
        original_pre_mode,
        original_expected_mode,
    ) {
        Some(LocalModeRevalidationFailure::SealLineageMismatch)
    } else {
        None
    }
}

/// Why a prepared change is refused just before it is made.
pub open spec fn admission_fault(
    evidence: EvidenceView,
    prepared: PreparedView,
    observed: Inspected,
) -> Option<LocalModeRevalidationFailure> {
    match inspection_fault(observed, prepared.pre, prepared.pre.mode) {
        Some(fault) => Some(fault),
        None => match prepared.kind {
            KindView::Seal => None,
            KindView::Restore(expected) => match evidence.lineage {
                None => Some(LocalModeRevalidationFailure::MissingSealLineage),
                Some(actual) => if actual != expected {
                    Some(LocalModeRevalidationFailure::SealLineageMismatch)
                } else {
                    None
                },
            },
        },
    }
}

/// The evidence after a change was admitted or refused: doubted, where the
/// directory is not what it was; without its lineage, where the change undoes
/// the seal.
pub open spec fn after_admission(
    evidence: EvidenceView,
    prepared: PreparedView,
    observed: Inspected,
) -> EvidenceView {
    if inspection_fault(observed, prepared.pre, prepared.pre.mode) is Some {
        doubted(evidence)
    } else if admission_fault(evidence, prepared, observed) is None && prepared.kind is Restore {
        EvidenceView {
            snapshot: evidence.snapshot,
            mode_verified: evidence.mode_verified,
            lineage: None,
        }
    } else {
        evidence
    }
}

/// What was observed, as far as a failure tells; else what was asked for.
pub open spec fn best_observation(failure: LocalModeRevalidationFailure, target_mode: u32) -> u32 {
    match failure {
        LocalModeRevalidationFailure::ModeChanged { expected: _, actual } => actual,
        _ => target_mode,
    }
}

/// How a change that the system reported as made ends.
pub open spec fn applied_outcome(
    target_mode: u32,
    pre: SnapshotView,
    post: Inspected,
) -> OutcomeView {
    match post {
        Ok(post) => OutcomeView::AppliedVerified { pre, post: post@ },
        Err(reason) => OutcomeView::AppliedButUnverified { expected_target: target_mode, reason },
    }
}

/// The evidence after such a change.
pub open spec fn after_applied(evidence: EvidenceView, target_mode: u32, post: Inspected)
    -> EvidenceView {
    match post {
        Ok(post) => EvidenceView {
            snapshot: with_mode(evidence.snapshot, post@.mode),
            mode_verified: true,
            lineage: evidence.lineage,
        },
        Err(reason) => invalidated(evidence, best_observation(reason, target_mode)),
    }
}

/// How an admitted change ends, given what the system said of it and what the
/// directory shows then.
pub open spec fn finished_outcome(
    admitted: AdmittedView,
    syscall: Result<(), ModeSyscallFailure>,
    observed: Inspected,
) -> OutcomeView {
    match syscall {
        Ok(_) => match inspection_fault(
            observed,
            admitted.prepared.pre,
            admitted.prepared.target_mode,
        ) {
            None => OutcomeView::AppliedVerified { pre: admitted.pre, post: observed->Ok_0@ },
            Some(reason) => OutcomeView::AppliedButUnverified {
                expected_target: admitted.prepared.target_mode,
                reason,
            },
        },
        Err(cause) => match inspection_fault(
            observed,
            admitted.prepared.pre,
            admitted.prepared.pre.mode,
        ) {
            None => OutcomeView::NotAppliedVerified { snapshot: observed->Ok_0@, cause },
            Some(post_failure) => OutcomeView::OutcomeUnknown { syscall: cause, post_failure },
        },
    }
}

/// The evidence after an admitted change has ended.
pub open spec fn after_finish(
    evidence: EvidenceView,
    admitted: AdmittedView,
    syscall: Result<(), ModeSyscallFailure>,
    observed: Inspected,
) -> EvidenceView {
    match syscall {
        Ok(_) => match inspection_fault(
            observed,
            admitted.prepared.pre,
            admitted.prepared.target_mode,
        ) {
            None => EvidenceView {
                snapshot: with_mode(evidence.snapshot, admitted.prepared.target_mode),
                mode_verified: true,
                lineage: evidence.lineage,
            },
            Some(reason) => invalidated(
                evidence,
                best_observation(reason, admitted.prepared.target_mode),
            ),
        },
        Err(_) => if inspection_fault(
            observed,
            admitted.prepared.pre,
            admitted.prepared.pre.mode,
        ) is Some {
            invalidated(evidence, evidence.snapshot.mode)
        } else if admitted.consumed_lineage is Some {
            EvidenceView {
                snapshot: evidence.snapshot,
                mode_verified: evidence.mode_verified,
                lineage: admitted.consumed_lineage,
            }
        } else {
            evidence
        },
    }
}

/// Holds an inspection against what is expected.
fn checked(
    observed: Inspected,
    expected: &VerifiedLocalModeSnapshot,
    expected_mode: u32,
) -> (checked: Inspected)
    ensures
        settled(checked, inspection_fault(observed, expected@, expected_mode)),
        checked matches Ok(actual) ==> observed == Ok::<
            VerifiedLocalModeSnapshot,
            LocalModeRevalidationFailure,
        >(actual),
{
    match observed {
        Ok(actual) => match validate_snapshot(&actual, expected, expected_mode) {
            Ok(_) => Ok(actual),
            Err(failure) => Err(failure),
        },
        Err(failure) => Err(failure),
    }
}

impl HeldLocalBackendEvidence {
    /// The file system.
    pub fn backend(&self) -> (backend: CertifiedLocalBackend)
        ensures
            backend == self@.snapshot.backend,
    {
        self.snapshot.backend
    }

    /// The mount.
    pub fn mount_id(&self) -> (mount_id: u64)
        ensures
            mount_id == self@.snapshot.mount_id,
    {
        self.snapshot.mount_id
    }

    /// The owner.
    pub fn owner_uid(&self) -> (uid: u32)
        ensures
            uid == self@.snapshot.owner_uid,
    {
        self.snapshot.owner_uid
    }

    /// The group.
    pub fn group_gid(&self) -> (gid: u32)
        ensures
            gid == self@.snapshot.group_gid,
    {
        self.snapshot.group_gid
    }

    /// The mode, as last observed.
    pub fn mode(&self) -> (mode: u32)
        ensures
            mode == self@.snapshot.mode,
    {
        self.snapshot.mode
    }

    /// Whether the mode can be relied on.
    pub fn mode_is_verified(&self) -> (verified: bool)
        ensures
            verified == self@.mode_verified,
    {
        self.mode_verified
    }

    /// The device.
    pub fn device(&self) -> (device: u64)
        ensures
            device == self@.snapshot.device,
    {
        self.snapshot.device
    }

    /// The inode.
    pub fn inode(&self) -> (inode: u64)
        ensures
            inode == self@.snapshot.inode,
    {
        self.snapshot.inode
    }

    /// The effective user of the process.
    pub fn effective_uid(&self) -> (uid: u32)
        ensures
            uid == self@.snapshot.effective_uid,
    {
        self.snapshot.effective_uid
    }

    /// The groups of the process.
    pub fn effective_groups(&self) -> (groups: &BTreeSet<u32>)
        ensures
            groups@ == self@.snapshot.effective_groups,
    {
        &self.snapshot.effective_groups
    }

    /// Requires that the directory is what it was certified to be, with the
    /// given mode.
    pub fn verify_current_mode(&self, expected_mode: u32, observed: Inspected) -> (outcome: Result<
        (),
        LocalModeRevalidationFailure,
    >)
        ensures
            settled(outcome, inspection_fault(observed, self@.snapshot, expected_mode)),
    {
        match checked(observed, &self.snapshot, expected_mode) {
            Ok(_) => Ok(()),
            Err(failure) => Err(failure),
        }
    }

    /// Requires that the directory is what it was certified to be, and that its
    /// mode lets nobody but the owner change its entries.
    pub fn verify_namespace_exclusive(&self, observed: Inspected) -> (outcome: Result<
        (),
        LocalModeRevalidationFailure,
    >)
        ensures
            settled(
                outcome,
                match inspection_fault(observed, self@.snapshot, self@.snapshot.mode) {
                    Some(fault) => Some(fault),
                    None => if has_namespace_writers(self@.snapshot.mode) {
                        Some(LocalModeRevalidationFailure::NamespaceWritersPresent)
                    } else {
                        None
                    },
                },
            ),
            outcome is Ok ==> (observed matches Ok(actual) && actual@ == self@.snapshot)
                && self@.snapshot.mode & 0o030 != 0o030 && self@.snapshot.mode & 0o003 != 0o003,
    {
        proof {
            if inspection_fault(observed, self@.snapshot, self@.snapshot.mode) is None {
                assert(observed->Ok_0@ =~= self@.snapshot);
            }
        }
        self.verify_current_mode(self.snapshot.mode, observed)?;
        if grants_namespace_write(self.snapshot.mode) {
            Err(LocalModeRevalidationFailure::NamespaceWritersPresent)
        } else {
            Ok(())
        }
    }

    /// Prepares the minimal seal of the directory.
    pub fn prepare_minimal_seal(
        &mut self,
        acquire_owner_write_search: bool,
        observed: Inspected,
    ) -> (prepared: Result<PreparedHeldModeChange, LocalModeRevalidationFailure>)
        ensures
            ({
                let target = seal_target(old(self)@.snapshot.mode, acquire_owner_write_search);
                let refusal = seal_refusal(old(self)@);
                &&& settled(
                    prepared,
                    if refusal is Some {
                        refusal
                    } else {
                        exact_change_fault(old(self)@, target, observed)
                    },
                )
                &&& final(self)@ == if refusal is Some {
                    old(self)@
                } else {
                    after_exact_change(old(self)@, target, observed)
                }
                &&& prepared matches Ok(change) ==> change@ == (PreparedView {
                    pre: observed->Ok_0@,
                    target_mode: target,
                    kind: KindView::Seal,
                })
            }),
            prepared matches Ok(change) ==> {
                let mode = old(self)@.snapshot.mode;
                let target = change@.target_mode;
                &&& !acquire_owner_write_search ==> target | mode == mode && target & !0o022u32
                    == mode & !0o022u32
                &&& acquire_owner_write_search ==> target & 0o300 == 0o300 && target & !0o322u32
                    == mode & !0o322u32
                &&& target & 0o030 != 0o030
                &&& target & 0o003 != 0o003
            },
    {
        proof {
            law_seal_asks_for_the_least(self.snapshot.mode, acquire_owner_write_search);
        }
        if !self.mode_verified {
            return Err(LocalModeRevalidationFailure::EvidenceUnverified);
        }
        if self.seal_lineage.is_some() {
            return Err(LocalModeRevalidationFailure::SealAlreadyActive);
        }
        let base: u32 = if acquire_owner_write_search {
            self.snapshot.mode | 0o300
        } else {
            self.snapshot.mode
        };
        self.prepare_exact_mode_change(
            minimal_sealed_mode(base),
            PreparedModeChangeKind::Seal,
            observed,
        )
    }

    /// Takes up the lineage of a seal that recovery has found, for exactly this
    /// directory.
    pub fn bind_recovered_seal_lineage(
        &mut self,
        transaction: TransactionId,
        original_mutation_id: u64,
        original_pre_mode: u32,
        original_expected_mode: u32,
        expected_backend: CertifiedLocalBackend,
        expected_device: u64,
        expected_inode: u64,
    ) -> (outcome: Result<(), LocalModeRevalidationFailure>)
        ensures
            outcome is Ok <==> old(self)@.mode_verified && old(self)@.lineage is None && old(
                self,
            )@.snapshot.backend == expected_backend && old(self)@.snapshot.device
                == expected_device && old(self)@.snapshot.inode == expected_inode && old(
                self,
            )@.snapshot.mode == original_expected_mode,
            outcome matches Err(failure) ==> failure
                == LocalModeRevalidationFailure::SealLineageMismatch && final(self)@ == old(self)@,
            outcome is Ok ==> final(self)@ == (EvidenceView {
                snapshot: old(self)@.snapshot,
                mode_verified: true,
                lineage: Some(
                    sealed_lineage(
                        old(self)@,
                        transaction.0@,
                        original_mutation_id,
                        original_pre_mode,
                        original_expected_mode,
                    ),
                ),
            }),
    {
        if !self.mode_verified || self.seal_lineage.is_some() || self.snapshot.backend
            != expected_backend || self.snapshot.device != expected_device || self.snapshot.inode
            != expected_inode || self.snapshot.mode != original_expected_mode {
            return Err(LocalModeRevalidationFailure::SealLineageMismatch);
        }
        self.seal_lineage = Some(
            SealLineage {
                transaction,
                mutation_id: original_mutation_id,
                sealed: self.snapshot.duplicate(),
                original_mode: original_pre_mode,
            },
        );
        Ok(())
    }

    /// Prepares to give the directory back the mode it had before the given
    /// mutation sealed it.
    pub fn prepare_wal_bound_restore(
        &mut self,
        transaction: TransactionId,
        original_mutation_id: u64,
        original_expected_mode: u32,
        original_pre_mode: u32,
        observed: Inspected,
    ) -> (prepared: Result<PreparedHeldModeChange, LocalModeRevalidationFailure>)
        ensures
            ({
                let refusal = restore_refusal(
                    old(self)@,
                    transaction.0@,
                    original_mutation_id,
                    original_expected_mode,
                    original_pre_mode,
                );
                &&& settled(
                    prepared,
                    if refusal is Some {
                        refusal
                    } else {
                        exact_change_fault(old(self)@, original_pre_mode, observed)
                    },
                )
                &&& final(self)@ == if refusal is Some {
                    old(self)@
                } else {
                    after_exact_change(old(self)@, original_pre_mode, observed)
                }
                &&& prepared matches Ok(change) ==> change@ == (PreparedView {
                    pre: observed->Ok_0@,
                    target_mode: original_pre_mode,
                    kind: KindView::Restore(old(self)@.lineage->0),
                })
            }),
    {
        if !self.mode_verified || self.snapshot.mode != original_expected_mode {
            return Err(LocalModeRevalidationFailure::EvidenceUnverified);
        }
        let kind = match &self.seal_lineage {
            None => {
                return Err(LocalModeRevalidationFailure::MissingSealLineage);
            },
            Some(lineage) => {
                if !lineage.transaction.same(&transaction) || lineage.mutation_id
                    != original_mutation_id || !lineage.sealed.same(&self.snapshot)
                    || lineage.original_mode != original_pre_mode {
                    return Err(LocalModeRevalidationFailure::SealLineageMismatch);
                }
                PreparedModeChangeKind::Restore(lineage.duplicate())
            },
        };
        self.prepare_exact_mode_change(original_pre_mode, kind, observed)
    }

    /// Prepares a change to `target_mode`.
    fn prepare_exact_mode_change(
        &mut self,
        target_mode: u32,
        kind: PreparedModeChangeKind,
        observed: Inspected,
    ) -> (prepared: Result<PreparedHeldModeChange, LocalModeRevalidationFailure>)
        ensures
            settled(prepared, exact_change_fault(old(self)@, target_mode, observed)),
            final(self)@ == after_exact_change(old(self)@, target_mode, observed),
            prepared matches Ok(change) ==> change@ == (PreparedView {
                pre: observed->Ok_0@,
                target_mode,
                kind: kind@,
            }),
    {
        if target_mode & !0o7777u32 != 0 {
            return Err(LocalModeRevalidationFailure::InvalidTargetMode);
        }
        match checked(observed, &self.snapshot, self.snapshot.mode) {
            Ok(pre) => Ok(PreparedHeldModeChange { pre, target_mode, kind }),
            Err(failure) => {
                self.mode_verified = false;
                Err(failure)
            },
        }
    }

    /// Gives up the mode and the lineage, after the log of the mutation has
    /// become uncertain.
    pub fn invalidate_after_wal_uncertainty(&mut self)
        ensures
            final(self)@ == invalidated(old(self)@, old(self)@.snapshot.mode),
    {
        self.invalidate_mode(self.snapshot.mode);
    }

    /// Records which mutation sealed the directory.
    pub fn record_applied_seal_lineage(
        &mut self,
        transaction: TransactionId,
        mutation_id: u64,
        original_mode: u32,
        sealed_mode: u32,
    ) -> (outcome: Result<(), LocalModeRevalidationFailure>)
        ensures
            settled(
                outcome,
                if !old(self)@.mode_verified || old(self)@.snapshot.mode != sealed_mode {
                    Some(LocalModeRevalidationFailure::EvidenceUnverified)
                } else if old(self)@.lineage is Some {
                    Some(LocalModeRevalidationFailure::SealAlreadyActive)
                } else {
                    None
                },
            ),
            outcome is Err ==> final(self)@ == old(self)@,
            outcome is Ok ==> final(self)@ == (EvidenceView {
                snapshot: old(self)@.snapshot,
                mode_verified: true,
                lineage: Some(
                    sealed_lineage(
                        old(self)@,
                        transaction.0@,
                        mutation_id,
                        original_mode,
                        sealed_mode,
                    ),
                ),
            }),
    {
        if !self.mode_verified || self.snapshot.mode != sealed_mode {
            return Err(LocalModeRevalidationFailure::EvidenceUnverified);
        }
        if self.seal_lineage.is_some() {
            return Err(LocalModeRevalidationFailure::SealAlreadyActive);
        }
        self.seal_lineage = Some(
            SealLineage {
                transaction,
                mutation_id,
                sealed: self.snapshot.duplicate(),
                original_mode,
            },
        );
        Ok(())
    }

    /// Decides, just before the system is asked, whether a prepared change may
    /// be made. A restore takes the lineage of the seal with it.
    pub fn admit_mode_change(
        &mut self,
        prepared: PreparedHeldModeChange,
        observed: Inspected,
    ) -> (admitted: Result<AdmittedModeChange, HeldModeChangeOutcome>)
        ensures
            final(self)@ == after_admission(old(self)@, prepared@, observed),
            match admission_fault(old(self)@, prepared@, observed) {
                Some(reason) => admitted matches Err(outcome) && outcome@
                    == (OutcomeView::RefusedBeforeMutation { reason }),
                None => admitted matches Ok(change) && change@ == (AdmittedView {
                    prepared: prepared@,
                    pre: observed->Ok_0@,
                    consumed_lineage: match prepared@.kind {
                        KindView::Seal => None,
                        KindView::Restore(_) => old(self)@.lineage,
                    },
                }),
            },
    {
        let pre = match checked(observed, &prepared.pre, prepared.pre.mode) {
            Ok(pre) => pre,
            Err(reason) => {
                self.mode_verified = false;
                return Err(HeldModeChangeOutcome::RefusedBeforeMutation { reason });
            },
        };
        let is_ours = match &prepared.kind {
            PreparedModeChangeKind::Seal => {
                return Ok(AdmittedModeChange { prepared, pre, consumed_lineage: None });
            },
            PreparedModeChangeKind::Restore(expected) => match &self.seal_lineage {
                None => {
                    return Err(
                        HeldModeChangeOutcome::RefusedBeforeMutation {
                            reason: LocalModeRevalidationFailure::MissingSealLineage,
                        },
                    );
                },
                Some(actual) => actual.same(expected),
            },
        };
        if !is_ours {
            return Err(
                HeldModeChangeOutcome::RefusedBeforeMutation {
                    reason: LocalModeRevalidationFailure::SealLineageMismatch,
                },
            );
        }
        let consumed_lineage = self.seal_lineage.take();
        Ok(AdmittedModeChange { prepared, pre, consumed_lineage })
    }

    /// Ends an admitted change, with what the system said of it and what the
    /// directory shows then.
    pub fn finish_mode_change(
        &mut self,
        admitted: AdmittedModeChange,
        syscall: Result<(), ModeSyscallFailure>,
        observed: Inspected,
    ) -> (outcome: HeldModeChangeOutcome)
        ensures
            outcome@ == finished_outcome(admitted@, syscall, observed),
            final(self)@ == after_finish(old(self)@, admitted@, syscall, observed),
    {
        match syscall {
            Ok(_) => {
                let target_mode = admitted.prepared.target_mode;
                let post = checked(observed, &admitted.prepared.pre, target_mode);
                self.finish_successful_chmod(target_mode, admitted.pre, post)
            },
            Err(cause) => match checked(
                observed,
                &admitted.prepared.pre,
                admitted.prepared.pre.mode,
            ) {
                Ok(snapshot) => {
                    match admitted.consumed_lineage {
                        Some(lineage) => {
                            self.seal_lineage = Some(lineage);
                        },
                        None => {},
                    }
                    HeldModeChangeOutcome::NotAppliedVerified { snapshot, cause }
                },
                Err(post_failure) => {
                    self.invalidate_mode(self.snapshot.mode);
                    HeldModeChangeOutcome::OutcomeUnknown { syscall: cause, post_failure }
                },
            },
        }
    }

    /// Ends a change that the system reported as made.
    pub fn finish_successful_chmod(
        &mut self,
        target_mode: u32,
        pre: VerifiedLocalModeSnapshot,
        post: Inspected,
    ) -> (outcome: HeldModeChangeOutcome)
        ensures
            outcome@ == applied_outcome(target_mode, pre@, post),
            final(self)@ == after_applied(old(self)@, target_mode, post),
    {
        match post {
            Ok(post) => {
                self.snapshot.mode = post.mode;
                self.mode_verified = true;
                HeldModeChangeOutcome::AppliedVerified { pre, post }
            },
            Err(reason) => {
                let observed: u32 = match reason {
                    LocalModeRevalidationFailure::ModeChanged { expected: _, actual } => actual,
                    _ => target_mode,
                };
                self.invalidate_mode(observed);
                HeldModeChangeOutcome::AppliedButUnverified {
                    expected_target: target_mode,
                    reason,
                }
            },
        }
    }

    /// Gives up the mode and the lineage.
    fn invalidate_mode(&mut self, best_observation: u32)
        ensures
            final(self)@ == invalidated(old(self)@, best_observation),
    {
        self.snapshot.mode = best_observation;
        self.mode_verified = false;
        self.seal_lineage = None;
    }

    /// What the directory was certified to be.
    pub fn certified_snapshot(&self) -> (snapshot: VerifiedLocalModeSnapshot)
        ensures
            snapshot@ == self@.snapshot,
    {
        self.snapshot.duplicate()
    }
}

/// What one stat call shows of a held object. The device is missing where its
/// number cannot be represented.
#[derive(Clone, Copy, Debug, PartialEq, Eq, Structural)]
pub struct HeldStat {
    pub raw_mode: u32,
    pub uid: u32,
    pub gid: u32,
    pub device: Option<u64>,
    pub inode: u64,
}

/// The bits of a mode that name the file type.
pub const FILE_TYPE_MASK: u32 = 0o170000;

/// The file type of a directory.
pub const DIRECTORY_TYPE: u32 = 0o040000;

/// The permission bits of a mode.
pub const PERMISSION_MASK: u32 = 0o7777;

/// The open flag of a descriptor that names an object without opening it.
pub const LINUX_PATH_FLAG: u32 = 0o10000000;

/// The bit of an extended stat that says that the mount id is there.
pub const STATX_MOUNT_ID: u32 = 0x1000;

/// The mode is that of a directory.
pub open spec fn is_directory_mode(raw_mode: u32) -> bool {
    raw_mode & FILE_TYPE_MASK == DIRECTORY_TYPE
}

/// A device number of the platform whose numbers are signed.
pub fn apple_device_number(device: i32) -> (number: Option<u64>)
    ensures
        number == if device >= 0 {
            Some(device as u64)
        } else {
            None::<u64>
        },
{
    if device >= 0 {
        Some(device as u64)
    } else {
        None
    }
}

/// What the process is: its effective user and group, and the groups it lists,
/// if they could be listed.
#[derive(Clone, Debug, PartialEq, Eq)]
pub struct ProcessCredentials {
    pub effective_uid: u32,
    pub effective_gid: u32,
    pub listed_groups: Option<Vec<u32>>,
}

/// The groups of the process: those listed, and the effective one.
pub open spec fn all_groups(listed: Seq<u32>, effective_gid: u32) -> Set<u32> {
    listed.to_set().insert(effective_gid)
}

/// The groups of the process, if they could be listed.
pub fn current_groups(credentials: &ProcessCredentials) -> (groups: Option<BTreeSet<u32>>)
    ensures
        match (groups, credentials.listed_groups) {
            (Some(groups), Some(listed)) => groups@ == all_groups(
                listed@,
                credentials.effective_gid,
            ),
            (None, None) => true,
            _ => false,
        },
{
    match &credentials.listed_groups {
        None => None,
        Some(listed) => {
            let mut groups: BTreeSet<u32> = BTreeSet::new();
            let mut i: usize = 0;
            assert(listed@.take(0).to_set() =~= Set::<u32>::empty());
            while i < listed.len()
                invariant
                    i <= listed@.len(),
                    groups@ == listed@.take(i as int).to_set(),
                decreases listed@.len() - i,
            {
                groups.insert(listed[i]);
                proof {
                    let before = listed@.take(i as int);
                    let after = listed@.take(i + 1);
                    assert(after =~= before.push(listed@[i as int]));
                    assert(after.to_set() =~= before.to_set().insert(listed@[i as int])) by {
                        assert forall|g: u32| after.contains(g) <==> before.contains(g) || g
                            == listed@[i as int] by {
                            if before.contains(g) {
                                let n = choose|n: int| 0 <= n < before.len() && before[n] == g;
                                assert(after[n] == g);
                            }
                            assert(after[i as int] == listed@[i as int]);
                            if after.contains(g) {
                                let n = choose|n: int| 0 <= n < after.len() && after[n] == g;
                                if n < i {
                                    assert(before[n] == g);
                                }
                            }
                        }
                    }
                }
                i += 1;
            }
            groups.insert(credentials.effective_gid);
            assert(listed@.take(listed@.len() as int) =~= listed@);
            Some(groups)
        },
    }
}

/// Why a directory on a certified file system is not certified.
pub open spec fn certification_refusal(
    stat: Option<HeldStat>,
    acl: AclProbe,
    credentials: ProcessCredentials,
) -> Option<CertificationError> {
    match stat {
        None => Some(CertificationError::InspectionFailed),
        Some(stat) => if !is_directory_mode(stat.raw_mode) {
            Some(CertificationError::NotDirectory)
        } else if acl_refusal(acl) is Some {
            acl_refusal(acl)
        } else if credentials.listed_groups is None {
            Some(CertificationError::ProcessCredentialsUnavailable)
        } else if stat.device is None {
            Some(CertificationError::InspectionFailed)
        } else {
            None
        },
    }
}

/// A directory as its stat and the process show it.
pub open spec fn snapshot_of(
    backend: CertifiedLocalBackend,
    mount_id: u64,
    stat: HeldStat,
    credentials: ProcessCredentials,
) -> SnapshotView {
    SnapshotView {
        backend,
        mount_id,
        owner_uid: stat.uid,
        group_gid: stat.gid,
        mode: stat.raw_mode & PERMISSION_MASK,
        device: stat.device->0,
        inode: stat.inode,
        file_type: VerifiedLocalFileType::Directory,
        effective_uid: credentials.effective_uid,
        effective_groups: all_groups(credentials.listed_groups->0@, credentials.effective_gid),
    }
}

/// Certifies a directory on a certified file system.
pub fn finish_certification(
    backend: CertifiedLocalBackend,
    mount_id: u64,
    stat: Option<HeldStat>,
    acl: AclProbe,
    credentials: &ProcessCredentials,
) -> (evidence: Result<HeldLocalBackendEvidence, CertificationError>)
    ensures
        match certification_refusal(stat, acl, *credentials) {
            Some(error) => evidence matches Err(refused) && refused == error,
            None => evidence matches Ok(made) && made@ == (EvidenceView {
                snapshot: snapshot_of(backend, mount_id, stat->0, *credentials),
                mode_verified: true,
                lineage: None,
            }),
        },
{
    let stat = match stat {
        Some(stat) => stat,
        None => {
            return Err(CertificationError::InspectionFailed);
        },
    };
    if stat.raw_mode & FILE_TYPE_MASK != DIRECTORY_TYPE {
        return Err(CertificationError::NotDirectory);
    }
    require_acl_absent(acl)?;
    let effective_groups = match current_groups(credentials) {
        Some(groups) => groups,
        None => {
            return Err(CertificationError::ProcessCredentialsUnavailable);
        },
    };
    let device: u64 = match stat.device {
        Some(device) => device,
        None => {
            return Err(CertificationError::InspectionFailed);
        },
    };
    Ok(
        HeldLocalBackendEvidence {
            snapshot: VerifiedLocalModeSnapshot {
                backend,
                mount_id,
                owner_uid: stat.uid,
                group_gid: stat.gid,
                mode: stat.raw_mode & PERMISSION_MASK,
                device,
                inode: stat.inode,
                file_type: VerifiedLocalFileType::Directory,
                effective_uid: credentials.effective_uid,
                effective_groups,
            },
            mode_verified: true,
            seal_lineage: None,
        },
    )
}

/// What Linux shows of the file system of a held object; each part is missing
/// where the system would not tell.
#[derive(Clone, Debug, PartialEq, Eq)]
pub struct LinuxBackendFacts {
    /// The answer mask and the mount id of an extended stat.
    pub mount: Option<(u32, u64)>,
    pub mountinfo: Option<String>,
    pub filesystem_magic: Option<u64>,
}

/// The mount id, if the answer has one.
pub open spec fn known_mount(facts: LinuxBackendFacts) -> Option<u64> {
    match facts.mount {
        Some((mask, mount_id)) => if mask & STATX_MOUNT_ID == STATX_MOUNT_ID {
            Some(mount_id)
        } else {
            None
        },
        None => None,
    }
}

/// What certifying the file system of a held object comes to.
pub open spec fn linux_backend(facts: LinuxBackendFacts) -> Result<
    CertifiedLocalBackend,
    CertificationError,
> {
    if known_mount(facts) is None {
        Err(CertificationError::MountIdentityUnavailable)
    } else if facts.mountinfo is None {
        Err(CertificationError::MountInfoUnreadable)
    } else if facts.filesystem_magic is None {
        Err(CertificationError::InspectionFailed)
    } else {
        linux_certificate(
            known_mount(facts)->0,
            facts.mountinfo->0@,
            facts.filesystem_magic->0,
        )
    }
}

/// Certifies the file system of a held object: not its type, owner or mode.
pub fn certify_held_fd_backend(facts: &LinuxBackendFacts) -> (backend: Result<
    CertifiedLocalBackend,
    CertificationError,
>)
    ensures
        backend == linux_backend(*facts),
{
    let mount_id: u64 = match facts.mount {
        Some((mask, mount_id)) => {
            if mask & STATX_MOUNT_ID != STATX_MOUNT_ID {
                return Err(CertificationError::MountIdentityUnavailable);
            }
            mount_id
        },
        None => {
            return Err(CertificationError::MountIdentityUnavailable);
        },
    };
    match (&facts.mountinfo, facts.filesystem_magic) {
        (None, _) => Err(CertificationError::MountInfoUnreadable),
        (Some(_), None) => Err(CertificationError::InspectionFailed),
        (Some(mountinfo), Some(magic)) => certify_linux_mount(mount_id, mountinfo.as_str(), magic),
    }
}

/// Certifies a held directory on Linux.
pub fn certify_held_fd(
    facts: &LinuxBackendFacts,
    stat: Option<HeldStat>,
    acl: AclProbe,
    credentials: &ProcessCredentials,
) -> (evidence: Result<HeldLocalBackendEvidence, CertificationError>)
    ensures
        match linux_backend(*facts) {
            Err(error) => evidence matches Err(refused) && refused == error,
            Ok(backend) => match certification_refusal(stat, acl, *credentials) {
                Some(error) => evidence matches Err(refused) && refused == error,
                None => evidence matches Ok(made) && made@ == (EvidenceView {
                    snapshot: snapshot_of(backend, known_mount(*facts)->0, stat->0, *credentials),
                    mode_verified: true,
                    lineage: None,
                }),
            },
        },
{
    let backend = certify_held_fd_backend(facts)?;
    let mount_id: u64 = match facts.mount {
        Some((_, mount_id)) => mount_id,
        None => {
            return Err(CertificationError::MountIdentityUnavailable);
        },
    };
    finish_certification(backend, mount_id, stat, acl, credentials)
}

/// Certifies a held directory on macOS, where the device stands for the mount.
pub fn certify_held_fd_macos(
    filesystem_name: Option<Vec<u8>>,
    stat: Option<HeldStat>,
    acl: AclProbe,
    credentials: &ProcessCredentials,
) -> (evidence: Result<HeldLocalBackendEvidence, CertificationError>)
    ensures
        ({
            let refusal = if filesystem_name is None {
                Some(CertificationError::InspectionFailed)
            } else if filesystem_name->0@ != apfs() {
                Some(CertificationError::UnsupportedFilesystem)
            } else if stat is None || stat->0.device is None {
                Some(CertificationError::InspectionFailed)
            } else {
                certification_refusal(stat, acl, *credentials)
            };
            match refusal {
                Some(error) => evidence matches Err(refused) && refused == error,
                None => evidence matches Ok(made) && made@ == (EvidenceView {
                    snapshot: snapshot_of(
                        CertifiedLocalBackend::Apfs,
                        stat->0.device->0,
                        stat->0,
                        *credentials,
                    ),
                    mode_verified: true,
                    lineage: None,
                }),
            }
        }),
{
    let name = match filesystem_name {
        Some(name) => name,
        None => {
            return Err(CertificationError::InspectionFailed);
        },
    };
    let backend = certify_macos_filesystem_name(&name)?;
    let mount_id: u64 = match stat {
        Some(seen) => match seen.device {
            Some(device) => device,
            None => {
                return Err(CertificationError::InspectionFailed);
            },
        },
        None => {
            return Err(CertificationError::InspectionFailed);
        },
    };
    finish_certification(backend, mount_id, stat, acl, credentials)
}

/// Why an access control list stops a mode change.
pub open spec fn acl_failure(probe: AclProbe) -> Option<LocalModeRevalidationFailure> {
    match probe {
        AclProbe::Absent => None,
        AclProbe::Present => Some(LocalModeRevalidationFailure::AclPresent),
        AclProbe::Unknown => Some(LocalModeRevalidationFailure::AclProbeUnknown),
    }
}

/// Requires that there is no access control list.
pub fn checked_acl(probe: AclProbe) -> (outcome: Result<(), LocalModeRevalidationFailure>)
    ensures
        settled(outcome, acl_failure(probe)),
{
    match probe {
        AclProbe::Absent => Ok(()),
        AclProbe::Present => Err(LocalModeRevalidationFailure::AclPresent),
        AclProbe::Unknown => Err(LocalModeRevalidationFailure::AclProbeUnknown),
    }
}

/// Why the inspection of a held directory fails, once its file system and its
/// mount are known.
pub open spec fn held_stat_failure(
    stat: Option<HeldStat>,
    acl: AclProbe,
    credentials: ProcessCredentials,
) -> Option<LocalModeRevalidationFailure> {
    match stat {
        None => Some(LocalModeRevalidationFailure::DescriptorUnavailable),
        Some(stat) => if !is_directory_mode(stat.raw_mode) {
            Some(LocalModeRevalidationFailure::NotDirectory)
        } else if acl_failure(acl) is Some {
            acl_failure(acl)
        } else if stat.device is None {
            Some(LocalModeRevalidationFailure::IdentityChanged)
        } else if credentials.listed_groups is None {
            Some(LocalModeRevalidationFailure::EffectiveGroupsChanged)
        } else {
            None
        },
    }
}

/// A held directory as its stat and the process show it.
fn inspect_stat(
    backend: CertifiedLocalBackend,
    mount_id: u64,
    stat: Option<HeldStat>,
    acl: AclProbe,
    credentials: &ProcessCredentials,
) -> (inspected: Inspected)
    ensures
        settled(inspected, held_stat_failure(stat, acl, *credentials)),
        inspected matches Ok(made) ==> made@ == snapshot_of(
            backend,
            mount_id,
            stat->0,
            *credentials,
        ),
{
    let stat = match stat {
        Some(stat) => stat,
        None => {
            return Err(LocalModeRevalidationFailure::DescriptorUnavailable);
        },
    };
    if stat.raw_mode & FILE_TYPE_MASK != DIRECTORY_TYPE {
        return Err(LocalModeRevalidationFailure::NotDirectory);
    }
    checked_acl(acl)?;
    let device: u64 = match stat.device {
        Some(device) => device,
        None => {
            return Err(LocalModeRevalidationFailure::IdentityChanged);
        },
    };
    match current_groups(credentials) {
        None => Err(LocalModeRevalidationFailure::EffectiveGroupsChanged),
        Some(effective_groups) => Ok(
            VerifiedLocalModeSnapshot {
                backend,
                mount_id,
                owner_uid: stat.uid,
                group_gid: stat.gid,
                mode: stat.raw_mode & PERMISSION_MASK,
                device,
                inode: stat.inode,
                file_type: VerifiedLocalFileType::Directory,
                effective_uid: credentials.effective_uid,
                effective_groups,
            },
        ),
    }
}

/// Why the inspection of a held directory on Linux fails.
pub open spec fn linux_inspection_failure(
    open_flags: Option<u32>,
    facts: LinuxBackendFacts,
    stat: Option<HeldStat>,
    acl: AclProbe,
    credentials: ProcessCredentials,
) -> Option<LocalModeRevalidationFailure> {
    match open_flags {
        None => Some(LocalModeRevalidationFailure::DescriptorUnavailable),
        Some(flags) => if flags & LINUX_PATH_FLAG == LINUX_PATH_FLAG {
            Some(LocalModeRevalidationFailure::DescriptorCannotChmod)
        } else if linux_backend(facts) is Err {
            Some(LocalModeRevalidationFailure::BackendUnavailable)
        } else {
            held_stat_failure(stat, acl, credentials)
        },
    }
}

/// A held directory on Linux, as everything that was asked about it shows it.
pub fn inspect_held_fd(
    open_flags: Option<u32>,
    facts: &LinuxBackendFacts,
    stat: Option<HeldStat>,
    acl: AclProbe,
    credentials: &ProcessCredentials,
) -> (inspected: Inspected)
    ensures
        settled(
            inspected,
            linux_inspection_failure(open_flags, *facts, stat, acl, *credentials),
        ),
        inspected matches Ok(made) ==> made@ == snapshot_of(
            linux_backend(*facts)->Ok_0,
            known_mount(*facts)->0,
            stat->0,
            *credentials,
        ),
{
    match open_flags {
        None => {
            return Err(LocalModeRevalidationFailure::DescriptorUnavailable);
        },
        Some(flags) => {
            if flags & LINUX_PATH_FLAG == LINUX_PATH_FLAG {
                return Err(LocalModeRevalidationFailure::DescriptorCannotChmod);
            }
        },
    }
    match (certify_held_fd_backend(facts), facts.mount) {
        (Ok(backend), Some((_, mount_id))) => inspect_stat(
            backend,
            mount_id,
            stat,
            acl,
            credentials,
        ),
        _ => Err(LocalModeRevalidationFailure::BackendUnavailable),
    }
}

/// A held directory on macOS, as everything that was asked about it shows it.
pub fn inspect_held_fd_macos(
    is_open: bool,
    filesystem_name: Option<Vec<u8>>,
    stat: Option<HeldStat>,
    acl: AclProbe,
    credentials: &ProcessCredentials,
) -> (inspected: Inspected)
    ensures
        settled(
            inspected,
            if !is_open {
                Some(LocalModeRevalidationFailure::DescriptorUnavailable)
            } else if filesystem_name is None || filesystem_name->0@ != apfs() {
                Some(LocalModeRevalidationFailure::BackendUnavailable)
            } else if stat is Some && is_directory_mode(stat->0.raw_mode) && acl_failure(acl)
                is None && stat->0.device is None {
                Some(LocalModeRevalidationFailure::MountChanged)
            } else {
                held_stat_failure(stat, acl, *credentials)
            },
        ),
        inspected matches Ok(made) ==> made@ == snapshot_of(
            CertifiedLocalBackend::Apfs,
            stat->0.device->0,
            stat->0,
            *credentials,
        ),
{
    if !is_open {
        return Err(LocalModeRevalidationFailure::DescriptorUnavailable);
    }
    let backend = match filesystem_name {
        Some(name) => match certify_macos_filesystem_name(&name) {
            Ok(backend) => backend,
            Err(_) => {
                return Err(LocalModeRevalidationFailure::BackendUnavailable);
            },
        },
        None => {
            return Err(LocalModeRevalidationFailure::BackendUnavailable);
        },
    };
    let mount_id: u64 = match stat {
        Some(seen) => {
            if seen.raw_mode & FILE_TYPE_MASK == DIRECTORY_TYPE {
                checked_acl(acl)?;
            }
            match seen.device {
                Some(device) => device,
                None => {
                    if seen.raw_mode & FILE_TYPE_MASK == DIRECTORY_TYPE {
                        return Err(LocalModeRevalidationFailure::MountChanged);
                    }
                    0
                },
            }
        },
        None => 0,
    };
    inspect_stat(backend, mount_id, stat, acl, credentials)
}

/// A directory is what it was exactly where nothing that is known of it differs,
/// its mode is the one expected, and the process is its owner.
pub proof fn law_snapshots_are_compared_in_full(
    actual: SnapshotView,
    expected: SnapshotView,
    expected_mode: u32,
)
    ensures
        snapshot_fault(actual, expected, expected_mode) is None <==> {
            &&& actual.backend == expected.backend
            &&& actual.mount_id == expected.mount_id
            &&& actual.device == expected.device
            &&& actual.inode == expected.inode
            &&& actual.file_type == expected.file_type
            &&& actual.owner_uid == expected.owner_uid
            &&& actual.group_gid == expected.group_gid
            &&& actual.effective_uid == expected.effective_uid
            &&& actual.effective_uid == actual.owner_uid
            &&& actual.effective_groups == expected.effective_groups
            &&& actual.mode == expected_mode
        },
{
}

/// A change can be prepared only to permission bits, and only while the
/// directory is what the evidence says; what it shows otherwise puts the mode of
/// the evidence in doubt.
pub proof fn law_changes_are_prepared_on_what_is_there(
    evidence: EvidenceView,
    target_mode: u32,
    observed: Inspected,
)
    ensures
        exact_change_fault(evidence, target_mode, observed) is None ==> target_mode <= 0o7777 && (
        observed matches Ok(actual) && actual@ == evidence.snapshot && evidence.snapshot.owner_uid
            == evidence.snapshot.effective_uid),
        target_mode <= 0o7777 && (observed matches Ok(actual) && actual@ == evidence.snapshot
            && actual@.owner_uid == actual@.effective_uid) ==> exact_change_fault(
            evidence,
            target_mode,
            observed,
        ) is None && after_exact_change(evidence, target_mode, observed) == evidence,
        target_mode <= 0o7777 && (observed matches Ok(actual) ==> actual@ != evidence.snapshot) ==> {
            let after = after_exact_change(evidence, target_mode, observed);
            &&& !after.mode_verified
            &&& after.snapshot == evidence.snapshot
            &&& after.lineage == evidence.lineage
        },
{
    assert(target_mode & !0o7777u32 == 0 <==> target_mode <= 0o7777) by (bit_vector);
    if exact_change_fault(evidence, target_mode, observed) is None {
        assert(observed->Ok_0@ =~= evidence.snapshot);
    }
}

/// A seal starts from a mode that can be relied on, and never on a directory
/// that is sealed already.
pub proof fn law_seals_are_not_stacked(evidence: EvidenceView)
    ensures
        seal_refusal(evidence) is None <==> evidence.mode_verified && evidence.lineage is None,
{
}

/// A restore starts only for the transaction and the mutation that sealed the
/// directory, from the mode that it was sealed with to the one it had before, and
/// only while the directory is the one that was sealed.
pub proof fn law_restores_undo_their_own_seal(
    evidence: EvidenceView,
    transaction: Seq<u8>,
    original_mutation_id: u64,
    original_expected_mode: u32,
    original_pre_mode: u32,
)
    ensures
        restore_refusal(
            evidence,
            transaction,
            original_mutation_id,
            original_expected_mode,
            original_pre_mode,
        ) is None <==> {
            &&& evidence.mode_verified
            &&& evidence.snapshot.mode == original_expected_mode
            &&& evidence.lineage matches Some(seal) && seal.transaction == transaction
                && seal.mutation_id == original_mutation_id && seal.original_mode
                == original_pre_mode && seal.sealed == evidence.snapshot
        },
{
    let asked = sealed_lineage(
        evidence,
        transaction,
        original_mutation_id,
        original_pre_mode,
        original_expected_mode,
    );
    if evidence.snapshot.mode == original_expected_mode {
        assert(asked.sealed =~= evidence.snapshot);
        if evidence.lineage is Some && evidence.lineage->0.transaction == transaction
            && evidence.lineage->0.mutation_id == original_mutation_id
            && evidence.lineage->0.original_mode == original_pre_mode && evidence.lineage->0.sealed
            == evidence.snapshot {
            assert(evidence.lineage->0 =~= asked);
        }
    }
}

/// A prepared change is made only while the directory still shows what it was
/// prepared against, and a restore only under the very seal that it undoes. It
/// uses that seal up; a seal uses up nothing.
pub proof fn law_admitted_changes_are_still_right(
    evidence: EvidenceView,
    prepared: PreparedView,
    observed: Inspected,
)
    ensures
        admission_fault(evidence, prepared, observed) is None ==> {
            &&& observed matches Ok(actual) && actual@ == prepared.pre && actual@.effective_uid
                == actual@.owner_uid
            &&& prepared.kind matches KindView::Restore(seal) ==> evidence.lineage == Some(seal)
            &&& after_admission(evidence, prepared, observed).snapshot == evidence.snapshot
            &&& after_admission(evidence, prepared, observed).mode_verified
                == evidence.mode_verified
            &&& prepared.kind is Restore ==> after_admission(evidence, prepared, observed).lineage
                is None
            &&& prepared.kind is Seal ==> after_admission(evidence, prepared, observed).lineage
                == evidence.lineage
        },
        (observed matches Ok(actual) && actual@ == prepared.pre && actual@.effective_uid
            == actual@.owner_uid) && prepared.kind is Seal ==> admission_fault(
            evidence,
            prepared,
            observed,
        ) is None,
        (observed matches Ok(actual) && actual@ == prepared.pre && actual@.effective_uid
            == actual@.owner_uid) && (prepared.kind matches KindView::Restore(seal)
            && evidence.lineage == Some(seal)) ==> admission_fault(evidence, prepared, observed)
            is None,
        (observed matches Ok(actual) ==> actual@ != prepared.pre) ==> admission_fault(
            evidence,
            prepared,
            observed,
        ) is Some && !after_admission(evidence, prepared, observed).mode_verified,
{
    if inspection_fault(observed, prepared.pre, prepared.pre.mode) is None {
        assert(observed->Ok_0@ =~= prepared.pre);
    }
}

/// A change that failed and left the directory as it was leaves the evidence as
/// it was too: a restore gives the seal back that it had used up.
pub proof fn law_failed_changes_lose_nothing(
    evidence: EvidenceView,
    admitted: AdmittedView,
    cause: ModeSyscallFailure,
    observed: Inspected,
)
    requires
        observed matches Ok(actual) && actual@ == admitted.prepared.pre && actual@.effective_uid
            == actual@.owner_uid,
    ensures
        finished_outcome(admitted, Err(cause), observed) == (OutcomeView::NotAppliedVerified {
            snapshot: admitted.prepared.pre,
            cause,
        }),
        ({
            let after = after_finish(evidence, admitted, Err(cause), observed);
            &&& after.snapshot == evidence.snapshot
            &&& after.mode_verified == evidence.mode_verified
            &&& after.lineage == if admitted.consumed_lineage is Some {
                admitted.consumed_lineage
            } else {
                evidence.lineage
            }
        }),
{
}

/// What is sealed and restored under one transaction ends with the mode that it
/// had before, with nothing left of the seal: each step of the way is accepted
/// where the directory shows what the step before left.
pub proof fn law_a_restore_gives_the_mode_back(
    evidence: EvidenceView,
    acquire_owner_write_search: bool,
    transaction: Seq<u8>,
    mutation_id: u64,
    sealed: VerifiedLocalModeSnapshot,
    restored: VerifiedLocalModeSnapshot,
)
    requires
        evidence.mode_verified,
        evidence.lineage is None,
        evidence.snapshot.mode <= 0o7777,
        evidence.snapshot.owner_uid == evidence.snapshot.effective_uid,
        sealed@ == with_mode(
            evidence.snapshot,
            seal_target(evidence.snapshot.mode, acquire_owner_write_search),
        ),
        restored@ == evidence.snapshot,
    ensures
        ({
            let mode = evidence.snapshot.mode;
            let target = seal_target(mode, acquire_owner_write_search);
            let seal = AdmittedView {
                prepared: PreparedView { pre: evidence.snapshot, target_mode: target, kind:
                    KindView::Seal },
                pre: evidence.snapshot,
                consumed_lineage: None,
            };
            let after_seal = after_finish(evidence, seal, Ok(()), Ok(sealed));
            let recorded = EvidenceView {
                lineage: Some(
                    sealed_lineage(after_seal, transaction, mutation_id, mode, target),
                ),
                ..after_seal
            };
            let undo = PreparedView {
                pre: sealed@,
                target_mode: mode,
                kind: KindView::Restore(recorded.lineage->0),
            };
            let restore = AdmittedView {
                prepared: undo,
                pre: sealed@,
                consumed_lineage: recorded.lineage,
            };
            let admitted = after_admission(recorded, undo, Ok(sealed));
            &&& finished_outcome(seal, Ok(()), Ok(sealed)) is AppliedVerified
            &&& after_seal.mode_verified
            &&& after_seal.snapshot.mode == target
            &&& restore_refusal(recorded, transaction, mutation_id, target, mode) is None
            &&& exact_change_fault(recorded, mode, Ok(sealed)) is None
            &&& admission_fault(recorded, undo, Ok(sealed)) is None
            &&& finished_outcome(restore, Ok(()), Ok(restored)) is AppliedVerified
            &&& after_finish(admitted, restore, Ok(()), Ok(restored)) == evidence
        }),
{
    let mode = evidence.snapshot.mode;
    assert(mode & !0o7777u32 == 0) by (bit_vector)
        requires
            mode <= 0o7777,
    ;
    let target = seal_target(mode, acquire_owner_write_search);
    let seal = AdmittedView {
        prepared: PreparedView { pre: evidence.snapshot, target_mode: target, kind: KindView::Seal },
        pre: evidence.snapshot,
        consumed_lineage: None,
    };
    let after_seal = after_finish(evidence, seal, Ok(()), Ok(sealed));
    assert(after_seal.snapshot =~= sealed@);
    let recorded = EvidenceView {
        lineage: Some(sealed_lineage(after_seal, transaction, mutation_id, mode, target)),
        ..after_seal
    };
    assert(recorded.lineage->0 =~= sealed_lineage(recorded, transaction, mutation_id, mode, target));
    let undo = PreparedView {
        pre: sealed@,
        target_mode: mode,
        kind: KindView::Restore(recorded.lineage->0),
    };
    let restore = AdmittedView {
        prepared: undo,
        pre: sealed@,
        consumed_lineage: recorded.lineage,
    };
    let admitted = after_admission(recorded, undo, Ok(sealed));
    assert(with_mode(admitted.snapshot, mode) =~= evidence.snapshot);
    assert(after_finish(admitted, restore, Ok(()), Ok(restored)) =~= evidence);
}

/// A directory is certified where its stat shows a directory on a device that has
/// a number, there is no access control list, and the groups of the process are
/// known. What is certified is what the stat and the process show.
pub proof fn law_certified_is_what_is_shown(
    backend: CertifiedLocalBackend,
    mount_id: u64,
    stat: Option<HeldStat>,
    acl: AclProbe,
    credentials: ProcessCredentials,
)
    ensures
        certification_refusal(stat, acl, credentials) is None <==> (stat matches Some(seen)
            && seen.raw_mode & 0o170000 == 0o040000 && seen.device is Some) && acl
            == AclProbe::Absent && credentials.listed_groups is Some,
        held_stat_failure(stat, acl, credentials) is None <==> (stat matches Some(seen)
            && seen.raw_mode & 0o170000 == 0o040000 && seen.device is Some) && acl
            == AclProbe::Absent && credentials.listed_groups is Some,
        stat matches Some(seen) ==> {
            let shown = snapshot_of(backend, mount_id, seen, credentials);
            &&& shown.backend == backend
            &&& shown.mount_id == mount_id
            &&& shown.owner_uid == seen.uid
            &&& shown.group_gid == seen.gid
            &&& shown.mode == seen.raw_mode & 0o7777
            &&& shown.mode <= 0o7777
            &&& seen.device is Some ==> Some(shown.device) == seen.device
            &&& shown.inode == seen.inode
            &&& shown.effective_uid == credentials.effective_uid
            &&& forall|group: u32| #[trigger]
                shown.effective_groups.contains(group) <==> group == credentials.effective_gid
                    || credentials.listed_groups->0@.contains(group)
        },
{
    if stat is Some {
        let raw = stat->0.raw_mode;
        assert(raw & 0o7777 <= 0o7777) by (bit_vector);
        assert forall|group: u32| #[trigger]
            snapshot_of(backend, mount_id, stat->0, credentials).effective_groups.contains(
                group,
            ) <==> group == credentials.effective_gid
            || credentials.listed_groups->0@.contains(group) by {
            assert(credentials.listed_groups->0@.to_set().contains(group)
                <==> credentials.listed_groups->0@.contains(group));
        }
    }
}

/// A held directory on Linux is inspected only through a descriptor that it can
/// be changed through, on a file system that is certified.
pub proof fn law_inspection_needs_a_usable_descriptor(
    open_flags: Option<u32>,
    facts: LinuxBackendFacts,
    stat: Option<HeldStat>,
    acl: AclProbe,
    credentials: ProcessCredentials,
)
    ensures
        linux_inspection_failure(open_flags, facts, stat, acl, credentials) is None <==> (
        open_flags matches Some(flags) && flags & 0o10000000 == 0) && linux_backend(facts) is Ok
            && held_stat_failure(stat, acl, credentials) is None,
        linux_backend(facts) is Ok ==> (facts.mount matches Some((mask, mount_id)) && mask & 0x1000
            == 0x1000 && known_mount(facts) == Some(mount_id)) && facts.mountinfo is Some
            && facts.filesystem_magic is Some,
{
    if open_flags is Some {
        let flags = open_flags->0;
        assert(flags & 0o10000000 == 0o10000000 || flags & 0o10000000 == 0) by (bit_vector);
    }
}

/// Sealing asks for the least that leaves nobody but the owner a way to change
/// entries. Nothing is granted unasked: without write and search for the owner
/// only write bits of the group and of everyone are dropped, and only where they
/// combine with search; with them the owner has both, and every other bit is
/// treated alike.
pub proof fn law_seal_asks_for_the_least(mode: u32, acquire_owner_write_search: bool)
    ensures
        ({
            let target = seal_target(mode, acquire_owner_write_search);
            &&& target & 0o030 != 0o030
            &&& target & 0o003 != 0o003
            &&& !acquire_owner_write_search ==> target | mode == mode && target & !0o022u32 == mode
                & !0o022u32
            &&& acquire_owner_write_search ==> target & 0o300 == 0o300
            &&& target & !0o322u32 == mode & !0o322u32
            &&& mode & 0o030 != 0o030 ==> target & 0o020 == mode & 0o020
            &&& mode & 0o003 != 0o003 ==> target & 0o002 == mode & 0o002
        }),
        seal_target(mode, true) & !0o300u32 == seal_target(mode, false) & !0o300u32,
        mode & 0o030 != 0o030 && mode & 0o003 != 0o003 ==> seal_target(mode, false) == mode,
        mode & 0o300 == 0o300 ==> seal_target(mode, true) == seal_target(mode, false),
{
    let opened = mode | 0o300;
    law_sealing(mode);
    law_sealing(opened);
    let (plain, wide) = (seal_target(mode, false), seal_target(mode, true));
    let half = if mode & 0o030 == 0o030 {
        mode & !0o020u32
    } else {
        mode
    };
    let half_wide = if opened & 0o030 == 0o030 {
        opened & !0o020u32
    } else {
        opened
    };
    assert(plain & 0o030 != 0o030 && plain & 0o003 != 0o003 && plain | mode == mode && plain
        & !0o022u32 == mode & !0o022u32 && plain & !0o322u32 == mode & !0o322u32 && (mode & 0o030
        != 0o030 ==> plain & 0o020 == mode & 0o020) && (mode & 0o003 != 0o003 ==> plain & 0o002
        == mode & 0o002) && (mode & 0o030 != 0o030 && mode & 0o003 != 0o003 ==> plain == mode)
        && wide & 0o030 != 0o030 && wide & 0o003 != 0o003 && wide & 0o300 == 0o300 && wide
        & !0o322u32 == mode & !0o322u32 && (mode & 0o030 != 0o030 ==> wide & 0o020 == mode & 0o020)
        && (mode & 0o003 != 0o003 ==> wide & 0o002 == mode & 0o002) && wide & !0o300u32 == plain
        & !0o300u32 && (mode & 0o300 == 0o300 ==> wide == plain)) by (bit_vector)
        requires
            opened == mode | 0o300,
            half == if mode & 0o030 == 0o030 {
                mode & !0o020u32
            } else {
                mode
            },
            plain == if mode & 0o003 == 0o003 {
                half & !0o002u32
            } else {
                half
            },
            half_wide == if opened & 0o030 == 0o030 {
                opened & !0o020u32
            } else {
                opened
            },
            wide == if opened & 0o003 == 0o003 {
                half_wide & !0o002u32
            } else {
                half_wide
            },
    ;
}

/// A mode change never ends verified unless the directory showed, right after
/// it, that it is still the one that was prepared, with exactly the mode that
/// was asked for; then and only then does the evidence rely on the new mode.
pub proof fn law_verified_change(
    evidence: EvidenceView,
    admitted: AdmittedView,
    syscall: Result<(), ModeSyscallFailure>,
    observed: Inspected,
)
    ensures
        finished_outcome(admitted, syscall, observed) is AppliedVerified ==> {
            let post = finished_outcome(admitted, syscall, observed)->AppliedVerified_post;
            &&& syscall is Ok
            &&& post.mode == admitted.prepared.target_mode
            &&& post.device == admitted.prepared.pre.device
            &&& post.inode == admitted.prepared.pre.inode
            &&& after_finish(evidence, admitted, syscall, observed).mode_verified
            &&& after_finish(evidence, admitted, syscall, observed).snapshot.mode
                == admitted.prepared.target_mode
        },
        finished_outcome(admitted, syscall, observed) is AppliedButUnverified
            || finished_outcome(admitted, syscall, observed) is OutcomeUnknown ==> {
            let after = after_finish(evidence, admitted, syscall, observed);
            &&& !after.mode_verified
            &&& after.lineage is None
            &&& seal_refusal(after) == Some(LocalModeRevalidationFailure::EvidenceUnverified)
        },
{
}

/// Recording a seal and preparing its restore fit together: the lineage that is
/// recorded is the one that the restore asks for, so the restore is refused
/// only for what the directory shows.
pub proof fn law_recorded_seal_can_be_restored(
    evidence: EvidenceView,
    transaction: Seq<u8>,
    mutation_id: u64,
    original_mode: u32,
)
    requires
        evidence.mode_verified,
        evidence.lineage is None,
    ensures
        restore_refusal(
            EvidenceView {
                snapshot: evidence.snapshot,
                mode_verified: true,
                lineage: Some(
                    sealed_lineage(
                        evidence,
                        transaction,
                        mutation_id,
                        original_mode,
                        evidence.snapshot.mode,
                    ),
                ),
            },
            transaction,
            mutation_id,
            evidence.snapshot.mode,
            original_mode,
        ) is None,
{
}

/// Once the mode is in doubt, nothing can be prepared: neither a seal nor a
/// restore.
pub proof fn law_doubt_stops_every_change(
    evidence: EvidenceView,
    best_observation: u32,
    transaction: Seq<u8>,
    mutation_id: u64,
    expected_mode: u32,
    pre_mode: u32,
)
    ensures
        seal_refusal(invalidated(evidence, best_observation)) == Some(
            LocalModeRevalidationFailure::EvidenceUnverified,
        ),
        restore_refusal(
            invalidated(evidence, best_observation),
            transaction,
            mutation_id,
            expected_mode,
            pre_mode,
        ) == Some(LocalModeRevalidationFailure::EvidenceUnverified),
{
}

} // verus!
