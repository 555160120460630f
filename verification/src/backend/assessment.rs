//! How the assessment of a held tree is reported.

use crate::backend::certify::CertificationError;
use crate::backend::held::error::HeldTreeError;
use crate::backend::held::error::HeldTreeLimit;
use crate::backend::held::error::TreeFault;
use crate::backend::held::policy::HeldTreeAdmissionAssessment;
use crate::backend::held::policy::SourceParentSealProjection;
use crate::backend::held::policy::UnixTime;
use crate::bytes::to_vec;
use crate::paths::paths_equal;
use crate::paths::same_path;
use crate::text::lossy_string;
use crate::text::lossy_text;
use vstd::prelude::*;

verus! {

broadcast use vstd::string::group_string_axioms;

/// What the assessment of a tree's metadata came to. Contents were not read,
/// and whoever mutates the tree has to check everything again.
#[derive(Clone, Copy, Debug, PartialEq, Eq, Structural)]
pub enum HeldTreePolicyAssessmentOutcome {
    TreePolicyAssessed {
        tree: HeldTreePolicySummary,
        source_parent_seal: SourceParentSealAssessment,
    },
    TreePolicyDeferredUntilSourceParentSeal {
        reason: HeldTreePolicyDeferralReason,
        source_parent_seal: SourceParentSealAssessment,
    },
}

/// What an assessed tree comes to.
#[derive(Clone, Copy, Debug, PartialEq, Eq, Structural)]
pub struct HeldTreePolicySummary {
    pub entries: u64,
    pub directories: u64,
    pub path_bytes: u64,
    pub manifest_bytes: u64,
    pub content_bytes_from_metadata: u64,
    pub assessed_at: UnixTime,
}

/// What sealing the source parent would do.
#[derive(Clone, Copy, Debug, PartialEq, Eq, Structural)]
pub struct SourceParentSealAssessment {
    pub original_mode: u32,
    pub projected_mode: u32,
    pub validation: SourceParentSealAssessmentStatus,
}

/// How far the seal of the source parent has been validated.
#[derive(Clone, Copy, Debug, PartialEq, Eq, Structural)]
pub enum SourceParentSealAssessmentStatus {
    RequiresExecutionValidation,
}

/// Why the tree could not be assessed yet.
#[derive(Clone, Copy, Debug, PartialEq, Eq, Structural)]
pub enum HeldTreePolicyDeferralReason {
    SourceParentSearchRequiresExecutionSeal,
}

/// Which kind of trouble a failure is.
#[derive(Clone, Copy, Debug, PartialEq, Eq, Structural)]
pub enum HeldTreeAssessmentFailureCategory {
    Input,
    ResourceLimit,
    TreePolicy,
    PlatformEvidence,
    RaceOrIo,
    InternalFailClosed,
}

/// The label of a category.
pub open spec fn category_text(value: HeldTreeAssessmentFailureCategory) -> Seq<char> {
    match value {
        HeldTreeAssessmentFailureCategory::Input => "input"@,
        HeldTreeAssessmentFailureCategory::ResourceLimit => "resource_limit"@,
        HeldTreeAssessmentFailureCategory::TreePolicy => "tree_policy"@,
        HeldTreeAssessmentFailureCategory::PlatformEvidence => "platform_evidence"@,
        HeldTreeAssessmentFailureCategory::RaceOrIo => "race_or_io"@,
        HeldTreeAssessmentFailureCategory::InternalFailClosed => "internal_fail_closed"@,
    }
}

impl HeldTreeAssessmentFailureCategory {
    /// The label of the category, for logs and adapters.
    pub fn as_str(self) -> (label: &'static str)
        ensures
            label@ == category_text(self),
    {
        match self {
            HeldTreeAssessmentFailureCategory::Input => "input",
            HeldTreeAssessmentFailureCategory::ResourceLimit => "resource_limit",
            HeldTreeAssessmentFailureCategory::TreePolicy => "tree_policy",
            HeldTreeAssessmentFailureCategory::PlatformEvidence => "platform_evidence",
            HeldTreeAssessmentFailureCategory::RaceOrIo => "race_or_io",
            HeldTreeAssessmentFailureCategory::InternalFailClosed => "internal_fail_closed",
        }
    }
}

/// Why an assessment failed.
#[derive(Clone, Copy, Debug, PartialEq, Eq, Structural)]
pub enum HeldTreeAssessmentFailureKind {
    InvalidRoot,
    InvalidDirectoryLimit,
    EntryLimitExceeded,
    DirectoryLimitExceeded,
    DepthLimitExceeded,
    PathBytesLimitExceeded,
    ManifestBytesLimitExceeded,
    ContentBytesLimitExceeded,
    SourceParentPolicyRejected,
    SourceParentStateChanged,
    ForeignOwner,
    ProtectedName,
    BackendBoundary,
    IdentityChanged,
    StrongIncarnationUnavailable,
    ExternalHardLink,
    NonDirectoryExtendedMetadata,
    MetadataEvidenceUnavailable,
    AclPresent,
    UnsupportedContentKind,
    ContentOrMetadataChanged,
    RootNotDirectory,
    CertificationFailed,
    IoFailure,
    ProveOnlyStateObserved,
    RootBindingChanged,
}

/// The label of a kind.
pub open spec fn kind_text(value: HeldTreeAssessmentFailureKind) -> Seq<char> {
    match value {
        HeldTreeAssessmentFailureKind::InvalidRoot => "invalid_root"@,
        HeldTreeAssessmentFailureKind::InvalidDirectoryLimit => "invalid_directory_limit"@,
        HeldTreeAssessmentFailureKind::EntryLimitExceeded => "entry_limit_exceeded"@,
        HeldTreeAssessmentFailureKind::DirectoryLimitExceeded => "directory_limit_exceeded"@,
        HeldTreeAssessmentFailureKind::DepthLimitExceeded => "depth_limit_exceeded"@,
        HeldTreeAssessmentFailureKind::PathBytesLimitExceeded => "path_bytes_limit_exceeded"@,
        HeldTreeAssessmentFailureKind::ManifestBytesLimitExceeded => "manifest_bytes_limit_exceeded"@,
        HeldTreeAssessmentFailureKind::ContentBytesLimitExceeded => "content_bytes_limit_exceeded"@,
        HeldTreeAssessmentFailureKind::SourceParentPolicyRejected => "source_parent_policy_rejected"@,
        HeldTreeAssessmentFailureKind::SourceParentStateChanged => "source_parent_state_changed"@,
        HeldTreeAssessmentFailureKind::ForeignOwner => "foreign_owner"@,
        HeldTreeAssessmentFailureKind::ProtectedName => "protected_name"@,
        HeldTreeAssessmentFailureKind::BackendBoundary => "backend_boundary"@,
        HeldTreeAssessmentFailureKind::IdentityChanged => "identity_changed"@,
        HeldTreeAssessmentFailureKind::StrongIncarnationUnavailable => "strong_incarnation_unavailable"@,
        HeldTreeAssessmentFailureKind::ExternalHardLink => "external_hard_link"@,
        HeldTreeAssessmentFailureKind::NonDirectoryExtendedMetadata => "non_directory_extended_metadata"@,
        HeldTreeAssessmentFailureKind::MetadataEvidenceUnavailable => "metadata_evidence_unavailable"@,
        HeldTreeAssessmentFailureKind::AclPresent => "acl_present"@,
        HeldTreeAssessmentFailureKind::UnsupportedContentKind => "unsupported_content_kind"@,
        HeldTreeAssessmentFailureKind::ContentOrMetadataChanged => "content_or_metadata_changed"@,
        HeldTreeAssessmentFailureKind::RootNotDirectory => "root_not_directory"@,
        HeldTreeAssessmentFailureKind::CertificationFailed => "certification_failed"@,
        HeldTreeAssessmentFailureKind::IoFailure => "io_failure"@,
        HeldTreeAssessmentFailureKind::ProveOnlyStateObserved => "prove_only_state_observed"@,
        HeldTreeAssessmentFailureKind::RootBindingChanged => "root_binding_changed"@,
    }
}

/// What a user is told of a kind.
pub open spec fn message_text(value: HeldTreeAssessmentFailureKind) -> Seq<char> {
    match value {
        HeldTreeAssessmentFailureKind::InvalidRoot => "invalid root"@,
        HeldTreeAssessmentFailureKind::InvalidDirectoryLimit => "invalid directory limit"@,
        HeldTreeAssessmentFailureKind::EntryLimitExceeded => "entry limit exceeded"@,
        HeldTreeAssessmentFailureKind::DirectoryLimitExceeded => "directory limit exceeded"@,
        HeldTreeAssessmentFailureKind::DepthLimitExceeded => "depth limit exceeded"@,
        HeldTreeAssessmentFailureKind::PathBytesLimitExceeded => "path-byte limit exceeded"@,
        HeldTreeAssessmentFailureKind::ManifestBytesLimitExceeded => "manifest-byte limit exceeded"@,
        HeldTreeAssessmentFailureKind::ContentBytesLimitExceeded => "content-byte limit exceeded"@,
        HeldTreeAssessmentFailureKind::SourceParentPolicyRejected => "source parent policy rejected"@,
        HeldTreeAssessmentFailureKind::SourceParentStateChanged => "source parent state changed"@,
        HeldTreeAssessmentFailureKind::ForeignOwner => "entry has a foreign owner"@,
        HeldTreeAssessmentFailureKind::ProtectedName => "protected name encountered"@,
        HeldTreeAssessmentFailureKind::BackendBoundary => "backend boundary encountered"@,
        HeldTreeAssessmentFailureKind::IdentityChanged => "entry identity changed"@,
        HeldTreeAssessmentFailureKind::StrongIncarnationUnavailable => "strong entry incarnation unavailable"@,
        HeldTreeAssessmentFailureKind::ExternalHardLink => "external hard link encountered"@,
        HeldTreeAssessmentFailureKind::NonDirectoryExtendedMetadata => "unsupported extended metadata"@,
        HeldTreeAssessmentFailureKind::MetadataEvidenceUnavailable => "extended-metadata evidence unavailable"@,
        HeldTreeAssessmentFailureKind::AclPresent => "ACL present"@,
        HeldTreeAssessmentFailureKind::UnsupportedContentKind => "unsupported content kind"@,
        HeldTreeAssessmentFailureKind::ContentOrMetadataChanged => "content or metadata changed"@,
        HeldTreeAssessmentFailureKind::RootNotDirectory => "root is not a directory"@,
        HeldTreeAssessmentFailureKind::CertificationFailed => "directory certification failed"@,
        HeldTreeAssessmentFailureKind::IoFailure => "filesystem operation failed"@,
        HeldTreeAssessmentFailureKind::ProveOnlyStateObserved => "unproven tree change observed"@,
        HeldTreeAssessmentFailureKind::RootBindingChanged => "root binding changed"@,
    }
}

/// The category of a kind.
pub open spec fn category_of(kind: HeldTreeAssessmentFailureKind) -> HeldTreeAssessmentFailureCategory {
    match kind {
        HeldTreeAssessmentFailureKind::InvalidRoot => HeldTreeAssessmentFailureCategory::Input,
        HeldTreeAssessmentFailureKind::InvalidDirectoryLimit => HeldTreeAssessmentFailureCategory::Input,
        HeldTreeAssessmentFailureKind::EntryLimitExceeded => HeldTreeAssessmentFailureCategory::ResourceLimit,
        HeldTreeAssessmentFailureKind::DirectoryLimitExceeded => HeldTreeAssessmentFailureCategory::ResourceLimit,
        HeldTreeAssessmentFailureKind::DepthLimitExceeded => HeldTreeAssessmentFailureCategory::ResourceLimit,
        HeldTreeAssessmentFailureKind::PathBytesLimitExceeded => HeldTreeAssessmentFailureCategory::ResourceLimit,
        HeldTreeAssessmentFailureKind::ManifestBytesLimitExceeded => HeldTreeAssessmentFailureCategory::ResourceLimit,
        HeldTreeAssessmentFailureKind::ContentBytesLimitExceeded => HeldTreeAssessmentFailureCategory::ResourceLimit,
        HeldTreeAssessmentFailureKind::SourceParentPolicyRejected => HeldTreeAssessmentFailureCategory::TreePolicy,
        HeldTreeAssessmentFailureKind::SourceParentStateChanged => HeldTreeAssessmentFailureCategory::RaceOrIo,
        HeldTreeAssessmentFailureKind::ForeignOwner => HeldTreeAssessmentFailureCategory::TreePolicy,
        HeldTreeAssessmentFailureKind::ProtectedName => HeldTreeAssessmentFailureCategory::TreePolicy,
        HeldTreeAssessmentFailureKind::BackendBoundary => HeldTreeAssessmentFailureCategory::PlatformEvidence,
        HeldTreeAssessmentFailureKind::IdentityChanged => HeldTreeAssessmentFailureCategory::RaceOrIo,
        HeldTreeAssessmentFailureKind::StrongIncarnationUnavailable => HeldTreeAssessmentFailureCategory::PlatformEvidence,
        HeldTreeAssessmentFailureKind::ExternalHardLink => HeldTreeAssessmentFailureCategory::TreePolicy,
        HeldTreeAssessmentFailureKind::NonDirectoryExtendedMetadata => HeldTreeAssessmentFailureCategory::TreePolicy,
        HeldTreeAssessmentFailureKind::MetadataEvidenceUnavailable => HeldTreeAssessmentFailureCategory::RaceOrIo,
        HeldTreeAssessmentFailureKind::AclPresent => HeldTreeAssessmentFailureCategory::TreePolicy,
        HeldTreeAssessmentFailureKind::UnsupportedContentKind => HeldTreeAssessmentFailureCategory::TreePolicy,
        HeldTreeAssessmentFailureKind::ContentOrMetadataChanged => HeldTreeAssessmentFailureCategory::RaceOrIo,
        HeldTreeAssessmentFailureKind::RootNotDirectory => HeldTreeAssessmentFailureCategory::TreePolicy,
        HeldTreeAssessmentFailureKind::CertificationFailed => HeldTreeAssessmentFailureCategory::PlatformEvidence,
        HeldTreeAssessmentFailureKind::IoFailure => HeldTreeAssessmentFailureCategory::RaceOrIo,
        HeldTreeAssessmentFailureKind::ProveOnlyStateObserved => HeldTreeAssessmentFailureCategory::InternalFailClosed,
        HeldTreeAssessmentFailureKind::RootBindingChanged => HeldTreeAssessmentFailureCategory::RaceOrIo,
    }
}

impl HeldTreeAssessmentFailureKind {
    /// The label of the kind, for logs and adapters.
    pub fn as_str(self) -> (label: &'static str)
        ensures
            label@ == kind_text(self),
    {
        match self {
            HeldTreeAssessmentFailureKind::InvalidRoot => "invalid_root",
            HeldTreeAssessmentFailureKind::InvalidDirectoryLimit => "invalid_directory_limit",
            HeldTreeAssessmentFailureKind::EntryLimitExceeded => "entry_limit_exceeded",
            HeldTreeAssessmentFailureKind::DirectoryLimitExceeded => "directory_limit_exceeded",
            HeldTreeAssessmentFailureKind::DepthLimitExceeded => "depth_limit_exceeded",
            HeldTreeAssessmentFailureKind::PathBytesLimitExceeded => "path_bytes_limit_exceeded",
            HeldTreeAssessmentFailureKind::ManifestBytesLimitExceeded => "manifest_bytes_limit_exceeded",
            HeldTreeAssessmentFailureKind::ContentBytesLimitExceeded => "content_bytes_limit_exceeded",
            HeldTreeAssessmentFailureKind::SourceParentPolicyRejected => "source_parent_policy_rejected",
            HeldTreeAssessmentFailureKind::SourceParentStateChanged => "source_parent_state_changed",
            HeldTreeAssessmentFailureKind::ForeignOwner => "foreign_owner",
            HeldTreeAssessmentFailureKind::ProtectedName => "protected_name",
            HeldTreeAssessmentFailureKind::BackendBoundary => "backend_boundary",
            HeldTreeAssessmentFailureKind::IdentityChanged => "identity_changed",
            HeldTreeAssessmentFailureKind::StrongIncarnationUnavailable => "strong_incarnation_unavailable",
            HeldTreeAssessmentFailureKind::ExternalHardLink => "external_hard_link",
            HeldTreeAssessmentFailureKind::NonDirectoryExtendedMetadata => "non_directory_extended_metadata",
            HeldTreeAssessmentFailureKind::MetadataEvidenceUnavailable => "metadata_evidence_unavailable",
            HeldTreeAssessmentFailureKind::AclPresent => "acl_present",
            HeldTreeAssessmentFailureKind::UnsupportedContentKind => "unsupported_content_kind",
            HeldTreeAssessmentFailureKind::ContentOrMetadataChanged => "content_or_metadata_changed",
            HeldTreeAssessmentFailureKind::RootNotDirectory => "root_not_directory",
            HeldTreeAssessmentFailureKind::CertificationFailed => "certification_failed",
            HeldTreeAssessmentFailureKind::IoFailure => "io_failure",
            HeldTreeAssessmentFailureKind::ProveOnlyStateObserved => "prove_only_state_observed",
            HeldTreeAssessmentFailureKind::RootBindingChanged => "root_binding_changed",
        }
    }

    /// What a user is told.
    pub fn user_message(self) -> (message: &'static str)
        ensures
            message@ == message_text(self),
    {
        match self {
            HeldTreeAssessmentFailureKind::InvalidRoot => "invalid root",
            HeldTreeAssessmentFailureKind::InvalidDirectoryLimit => "invalid directory limit",
            HeldTreeAssessmentFailureKind::EntryLimitExceeded => "entry limit exceeded",
            HeldTreeAssessmentFailureKind::DirectoryLimitExceeded => "directory limit exceeded",
            HeldTreeAssessmentFailureKind::DepthLimitExceeded => "depth limit exceeded",
            HeldTreeAssessmentFailureKind::PathBytesLimitExceeded => "path-byte limit exceeded",
            HeldTreeAssessmentFailureKind::ManifestBytesLimitExceeded => "manifest-byte limit exceeded",
            HeldTreeAssessmentFailureKind::ContentBytesLimitExceeded => "content-byte limit exceeded",
            HeldTreeAssessmentFailureKind::SourceParentPolicyRejected => "source parent policy rejected",
            HeldTreeAssessmentFailureKind::SourceParentStateChanged => "source parent state changed",
            HeldTreeAssessmentFailureKind::ForeignOwner => "entry has a foreign owner",
            HeldTreeAssessmentFailureKind::ProtectedName => "protected name encountered",
            HeldTreeAssessmentFailureKind::BackendBoundary => "backend boundary encountered",
            HeldTreeAssessmentFailureKind::IdentityChanged => "entry identity changed",
            HeldTreeAssessmentFailureKind::StrongIncarnationUnavailable => "strong entry incarnation unavailable",
            HeldTreeAssessmentFailureKind::ExternalHardLink => "external hard link encountered",
            HeldTreeAssessmentFailureKind::NonDirectoryExtendedMetadata => "unsupported extended metadata",
            HeldTreeAssessmentFailureKind::MetadataEvidenceUnavailable => "extended-metadata evidence unavailable",
            HeldTreeAssessmentFailureKind::AclPresent => "ACL present",
            HeldTreeAssessmentFailureKind::UnsupportedContentKind => "unsupported content kind",
            HeldTreeAssessmentFailureKind::ContentOrMetadataChanged => "content or metadata changed",
            HeldTreeAssessmentFailureKind::RootNotDirectory => "root is not a directory",
            HeldTreeAssessmentFailureKind::CertificationFailed => "directory certification failed",
            HeldTreeAssessmentFailureKind::IoFailure => "filesystem operation failed",
            HeldTreeAssessmentFailureKind::ProveOnlyStateObserved => "unproven tree change observed",
            HeldTreeAssessmentFailureKind::RootBindingChanged => "root binding changed",
        }
    }

    /// The category of the kind.
    pub fn category(self) -> (category: HeldTreeAssessmentFailureCategory)
        ensures
            category == category_of(self),
    {
        match self {
            HeldTreeAssessmentFailureKind::InvalidRoot | HeldTreeAssessmentFailureKind::InvalidDirectoryLimit => HeldTreeAssessmentFailureCategory::Input,
            HeldTreeAssessmentFailureKind::EntryLimitExceeded | HeldTreeAssessmentFailureKind::DirectoryLimitExceeded | HeldTreeAssessmentFailureKind::DepthLimitExceeded | HeldTreeAssessmentFailureKind::PathBytesLimitExceeded | HeldTreeAssessmentFailureKind::ManifestBytesLimitExceeded | HeldTreeAssessmentFailureKind::ContentBytesLimitExceeded => HeldTreeAssessmentFailureCategory::ResourceLimit,
            HeldTreeAssessmentFailureKind::SourceParentPolicyRejected | HeldTreeAssessmentFailureKind::ForeignOwner | HeldTreeAssessmentFailureKind::ProtectedName | HeldTreeAssessmentFailureKind::ExternalHardLink | HeldTreeAssessmentFailureKind::NonDirectoryExtendedMetadata | HeldTreeAssessmentFailureKind::AclPresent | HeldTreeAssessmentFailureKind::UnsupportedContentKind | HeldTreeAssessmentFailureKind::RootNotDirectory => HeldTreeAssessmentFailureCategory::TreePolicy,
            HeldTreeAssessmentFailureKind::BackendBoundary | HeldTreeAssessmentFailureKind::StrongIncarnationUnavailable | HeldTreeAssessmentFailureKind::CertificationFailed => HeldTreeAssessmentFailureCategory::PlatformEvidence,
            HeldTreeAssessmentFailureKind::SourceParentStateChanged | HeldTreeAssessmentFailureKind::IdentityChanged | HeldTreeAssessmentFailureKind::MetadataEvidenceUnavailable | HeldTreeAssessmentFailureKind::ContentOrMetadataChanged | HeldTreeAssessmentFailureKind::IoFailure | HeldTreeAssessmentFailureKind::RootBindingChanged => HeldTreeAssessmentFailureCategory::RaceOrIo,
            HeldTreeAssessmentFailureKind::ProveOnlyStateObserved => HeldTreeAssessmentFailureCategory::InternalFailClosed,
        }
    }
}

/// Why an assessment failed, and where.
#[derive(Debug)]
pub struct HeldTreeAssessmentFailure {
    kind: HeldTreeAssessmentFailureKind,
    relative_path: Option<Vec<u8>>,
}

/// The content of a [`HeldTreeAssessmentFailure`]. No path stands for the root
/// or the whole tree.
#[verifier::ext_equal]
pub struct FailureView {
    pub kind: HeldTreeAssessmentFailureKind,
    pub relative_path: Option<Seq<u8>>,
}

impl View for HeldTreeAssessmentFailure {
    type V = FailureView;

    closed spec fn view(&self) -> FailureView {
        FailureView {
            kind: self.kind,
            relative_path: match self.relative_path {
                Some(path) => Some(path@),
                None => None,
            },
        }
    }
}

impl Clone for HeldTreeAssessmentFailure {
    fn clone(&self) -> (copy: Self)
        ensures
            copy@ == self@,
    {
        HeldTreeAssessmentFailure {
            kind: self.kind,
            relative_path: match &self.relative_path {
                Some(path) => Some(to_vec(path.as_slice())),
                None => None,
            },
        }
    }
}

/// The two say the same of one path.
pub open spec fn same_failure(left: FailureView, right: FailureView) -> bool {
    left.kind == right.kind && match (left.relative_path, right.relative_path) {
        (Some(first), Some(second)) => same_path(first, second),
        (None, None) => true,
        _ => false,
    }
}

impl PartialEq for HeldTreeAssessmentFailure {
    fn eq(&self, other: &Self) -> (same: bool) {
        self.kind == other.kind && match (&self.relative_path, &other.relative_path) {
            (Some(first), Some(second)) => paths_equal(first.as_slice(), second.as_slice()),
            (None, None) => true,
            _ => false,
        }
    }
}

impl vstd::std_specs::cmp::PartialEqSpecImpl for HeldTreeAssessmentFailure {
    open spec fn obeys_eq_spec() -> bool {
        true
    }

    open spec fn eq_spec(&self, other: &Self) -> bool {
        same_failure(self@, other@)
    }
}

impl Eq for HeldTreeAssessmentFailure {

}

/// What a user is told of a failure.
pub open spec fn failure_text(failure: FailureView) -> Seq<char> {
    let told = "held-tree assessment failed: "@ + message_text(failure.kind);
    match failure.relative_path {
        Some(path) => told + " at "@ + lossy_text(path),
        None => told,
    }
}

impl HeldTreeAssessmentFailure {
    /// Why it failed.
    pub fn kind(&self) -> (kind: HeldTreeAssessmentFailureKind)
        ensures
            kind == self@.kind,
    {
        self.kind
    }

    /// Which kind of trouble it is.
    pub fn category(&self) -> (category: HeldTreeAssessmentFailureCategory)
        ensures
            category == category_of(self@.kind),
    {
        self.kind.category()
    }

    /// Where it failed, relative to the source parent.
    pub fn relative_path(&self) -> (path: Option<&Vec<u8>>)
        ensures
            match path {
                Some(path) => self@.relative_path == Some(path@),
                None => self@.relative_path is None,
            },
    {
        match &self.relative_path {
            Some(path) => Some(path),
            None => None,
        }
    }

    /// What a user is told.
    pub fn describe(&self) -> (text: String)
        ensures
            text@ == failure_text(self@),
    {
        let mut text = "held-tree assessment failed: ".to_owned();
        text.append(self.kind.user_message());
        match &self.relative_path {
            Some(path) => {
                text.append(" at ");
                text.append(lossy_string(path.as_slice()).as_str());
            },
            None => {},
        }
        text
    }
}

/// The assessment of a seal, as it is reported.
pub open spec fn reported_seal(seal: SourceParentSealProjection) -> SourceParentSealAssessment {
    SourceParentSealAssessment {
        original_mode: seal.original_mode,
        projected_mode: seal.projected_mode,
        validation: SourceParentSealAssessmentStatus::RequiresExecutionValidation,
    }
}

/// The assessment of a tree, as it is reported.
pub open spec fn reported_assessment(assessment: HeldTreeAdmissionAssessment)
    -> HeldTreePolicyAssessmentOutcome {
    match assessment {
        HeldTreeAdmissionAssessment::TreePolicyAssessed { tree, source_parent_seal } =>
            HeldTreePolicyAssessmentOutcome::TreePolicyAssessed {
                tree: HeldTreePolicySummary {
                    entries: tree.entries,
                    directories: tree.directories,
                    path_bytes: tree.path_bytes,
                    manifest_bytes: tree.manifest_bytes,
                    content_bytes_from_metadata: tree.content_bytes,
                    assessed_at: tree.assessed_at,
                },
                source_parent_seal: reported_seal(source_parent_seal),
            },
        HeldTreeAdmissionAssessment::TreePolicyDeferredUntilSourceParentSeal {
            reason: _,
            source_parent_seal,
        } => HeldTreePolicyAssessmentOutcome::TreePolicyDeferredUntilSourceParentSeal {
            reason: HeldTreePolicyDeferralReason::SourceParentSearchRequiresExecutionSeal,
            source_parent_seal: reported_seal(source_parent_seal),
        },
    }
}

/// Reports the assessment of a tree.
pub fn map_tree_assessment(assessment: HeldTreeAdmissionAssessment) -> (outcome:
    HeldTreePolicyAssessmentOutcome)
    ensures
        outcome == reported_assessment(assessment),
{
    match assessment {
        HeldTreeAdmissionAssessment::TreePolicyAssessed { tree, source_parent_seal } =>
            HeldTreePolicyAssessmentOutcome::TreePolicyAssessed {
                tree: HeldTreePolicySummary {
                    entries: tree.entries,
                    directories: tree.directories,
                    path_bytes: tree.path_bytes,
                    manifest_bytes: tree.manifest_bytes,
                    content_bytes_from_metadata: tree.content_bytes,
                    assessed_at: tree.assessed_at,
                },
                source_parent_seal: SourceParentSealAssessment {
                    original_mode: source_parent_seal.original_mode,
                    projected_mode: source_parent_seal.projected_mode,
                    validation: SourceParentSealAssessmentStatus::RequiresExecutionValidation,
                },
            },
        HeldTreeAdmissionAssessment::TreePolicyDeferredUntilSourceParentSeal {
            reason: _,
            source_parent_seal,
        } => HeldTreePolicyAssessmentOutcome::TreePolicyDeferredUntilSourceParentSeal {
            reason: HeldTreePolicyDeferralReason::SourceParentSearchRequiresExecutionSeal,
            source_parent_seal: SourceParentSealAssessment {
                original_mode: source_parent_seal.original_mode,
                projected_mode: source_parent_seal.projected_mode,
                validation: SourceParentSealAssessmentStatus::RequiresExecutionValidation,
            },
        },
    }
}

/// The kind that a fault is reported as.
pub open spec fn reported_kind(fault: TreeFault) -> HeldTreeAssessmentFailureKind {
    match fault {
        TreeFault::InvalidRoot => HeldTreeAssessmentFailureKind::InvalidRoot,
        TreeFault::InvalidDirectoryLimit => HeldTreeAssessmentFailureKind::InvalidDirectoryLimit,
        TreeFault::ParentPolicyRejected => HeldTreeAssessmentFailureKind::SourceParentPolicyRejected,
        TreeFault::ParentNotExclusive => HeldTreeAssessmentFailureKind::SourceParentStateChanged,
        TreeFault::RootNotDirectory => HeldTreeAssessmentFailureKind::RootNotDirectory,
        TreeFault::RootBindingChanged => HeldTreeAssessmentFailureKind::RootBindingChanged,
        TreeFault::Limit { kind, limit: _ } => match kind {
            HeldTreeLimit::Entries => HeldTreeAssessmentFailureKind::EntryLimitExceeded,
            HeldTreeLimit::Directories => HeldTreeAssessmentFailureKind::DirectoryLimitExceeded,
            HeldTreeLimit::Depth => HeldTreeAssessmentFailureKind::DepthLimitExceeded,
            HeldTreeLimit::PathBytes => HeldTreeAssessmentFailureKind::PathBytesLimitExceeded,
            HeldTreeLimit::ManifestBytes => HeldTreeAssessmentFailureKind::ManifestBytesLimitExceeded,
            HeldTreeLimit::ContentBytes => HeldTreeAssessmentFailureKind::ContentBytesLimitExceeded,
        },
        TreeFault::InvalidDirectoryPath(_) => HeldTreeAssessmentFailureKind::IdentityChanged,
        TreeFault::ForeignOwner(_) => HeldTreeAssessmentFailureKind::ForeignOwner,
        TreeFault::ProtectedName(_) => HeldTreeAssessmentFailureKind::ProtectedName,
        TreeFault::BackendBoundary(_) => HeldTreeAssessmentFailureKind::BackendBoundary,
        TreeFault::IdentityChanged(_) => HeldTreeAssessmentFailureKind::IdentityChanged,
        TreeFault::StrongIncarnationUnavailable(_) => HeldTreeAssessmentFailureKind::StrongIncarnationUnavailable,
        TreeFault::ExternalOrUnenumeratedHardLink(_) => HeldTreeAssessmentFailureKind::ExternalHardLink,
        TreeFault::NonDirectoryExtendedMetadata(_) => HeldTreeAssessmentFailureKind::NonDirectoryExtendedMetadata,
        TreeFault::NonDirectoryMetadataUnavailable(_) => HeldTreeAssessmentFailureKind::MetadataEvidenceUnavailable,
        TreeFault::UnsupportedContentProof(_) => HeldTreeAssessmentFailureKind::UnsupportedContentKind,
        TreeFault::ContentChangedDuringHash(_) => HeldTreeAssessmentFailureKind::ContentOrMetadataChanged,
        TreeFault::XattrsChangedDuringProof(_) => HeldTreeAssessmentFailureKind::ContentOrMetadataChanged,
        TreeFault::PostAdded(_) => HeldTreeAssessmentFailureKind::ProveOnlyStateObserved,
        TreeFault::PostRemoved(_) => HeldTreeAssessmentFailureKind::ProveOnlyStateObserved,
        TreeFault::PostChanged(_) => HeldTreeAssessmentFailureKind::ProveOnlyStateObserved,
        TreeFault::Certification { path: _, reason } => match reason {
            CertificationError::AclPresent => HeldTreeAssessmentFailureKind::AclPresent,
            CertificationError::NotDirectory => HeldTreeAssessmentFailureKind::RootNotDirectory,
            _ => HeldTreeAssessmentFailureKind::CertificationFailed,
        },
        TreeFault::Io { path: _, errno: _ } => HeldTreeAssessmentFailureKind::IoFailure,
    }
}

/// The path that a fault is about, if it is about one.
pub open spec fn fault_path(fault: TreeFault) -> Option<Seq<u8>> {
    match fault {
        TreeFault::InvalidDirectoryPath(path) => Some(path),
        TreeFault::ForeignOwner(path) => Some(path),
        TreeFault::ProtectedName(path) => Some(path),
        TreeFault::BackendBoundary(path) => Some(path),
        TreeFault::IdentityChanged(path) => Some(path),
        TreeFault::StrongIncarnationUnavailable(path) => Some(path),
        TreeFault::ExternalOrUnenumeratedHardLink(path) => Some(path),
        TreeFault::NonDirectoryExtendedMetadata(path) => Some(path),
        TreeFault::NonDirectoryMetadataUnavailable(path) => Some(path),
        TreeFault::UnsupportedContentProof(path) => Some(path),
        TreeFault::ContentChangedDuringHash(path) => Some(path),
        TreeFault::XattrsChangedDuringProof(path) => Some(path),
        TreeFault::PostAdded(path) => Some(path),
        TreeFault::PostRemoved(path) => Some(path),
        TreeFault::PostChanged(path) => Some(path),
        TreeFault::Certification { path, reason: _ } => Some(path),
        TreeFault::Io { path, errno: _ } => Some(path),
        _ => None,
    }
}

/// What is reported of a fault; the empty path is the root and is left out.
pub open spec fn reported_failure(fault: TreeFault) -> FailureView {
    FailureView {
        kind: reported_kind(fault),
        relative_path: match fault_path(fault) {
            Some(path) => if path.len() > 0 {
                Some(path)
            } else {
                None
            },
            None => None,
        },
    }
}

/// Reports why a tree was refused.
pub fn map_tree_assessment_failure(error: HeldTreeError) -> (failure: HeldTreeAssessmentFailure)
    ensures
        failure@ == reported_failure(error@),
{
    let (kind, path): (HeldTreeAssessmentFailureKind, Option<Vec<u8>>) = match error {
        HeldTreeError::InvalidRoot => (HeldTreeAssessmentFailureKind::InvalidRoot, None),
        HeldTreeError::InvalidDirectoryLimit => (HeldTreeAssessmentFailureKind::InvalidDirectoryLimit, None),
        HeldTreeError::ParentPolicyRejected => (HeldTreeAssessmentFailureKind::SourceParentPolicyRejected, None),
        HeldTreeError::ParentNotExclusive => (HeldTreeAssessmentFailureKind::SourceParentStateChanged, None),
        HeldTreeError::RootNotDirectory => (HeldTreeAssessmentFailureKind::RootNotDirectory, None),
        HeldTreeError::RootBindingChanged => (HeldTreeAssessmentFailureKind::RootBindingChanged, None),
        HeldTreeError::Limit { kind, limit: _ } => (
        match kind {
            HeldTreeLimit::Entries => HeldTreeAssessmentFailureKind::EntryLimitExceeded,
            HeldTreeLimit::Directories => HeldTreeAssessmentFailureKind::DirectoryLimitExceeded,
            HeldTreeLimit::Depth => HeldTreeAssessmentFailureKind::DepthLimitExceeded,
            HeldTreeLimit::PathBytes => HeldTreeAssessmentFailureKind::PathBytesLimitExceeded,
            HeldTreeLimit::ManifestBytes => HeldTreeAssessmentFailureKind::ManifestBytesLimitExceeded,
            HeldTreeLimit::ContentBytes => HeldTreeAssessmentFailureKind::ContentBytesLimitExceeded,
        },
        None,
        ),
        HeldTreeError::InvalidDirectoryPath(path) => (HeldTreeAssessmentFailureKind::IdentityChanged, Some(path)),
        HeldTreeError::ForeignOwner(path) => (HeldTreeAssessmentFailureKind::ForeignOwner, Some(path)),
        HeldTreeError::ProtectedName(path) => (HeldTreeAssessmentFailureKind::ProtectedName, Some(path)),
        HeldTreeError::BackendBoundary(path) => (HeldTreeAssessmentFailureKind::BackendBoundary, Some(path)),
        HeldTreeError::IdentityChanged(path) => (HeldTreeAssessmentFailureKind::IdentityChanged, Some(path)),
        HeldTreeError::StrongIncarnationUnavailable(path) => (HeldTreeAssessmentFailureKind::StrongIncarnationUnavailable, Some(path)),
        HeldTreeError::ExternalOrUnenumeratedHardLink(path) => (HeldTreeAssessmentFailureKind::ExternalHardLink, Some(path)),
        HeldTreeError::NonDirectoryExtendedMetadata(path) => (HeldTreeAssessmentFailureKind::NonDirectoryExtendedMetadata, Some(path)),
        HeldTreeError::NonDirectoryMetadataUnavailable(path) => (HeldTreeAssessmentFailureKind::MetadataEvidenceUnavailable, Some(path)),
        HeldTreeError::UnsupportedContentProof(path) => (HeldTreeAssessmentFailureKind::UnsupportedContentKind, Some(path)),
        HeldTreeError::ContentChangedDuringHash(path) => (HeldTreeAssessmentFailureKind::ContentOrMetadataChanged, Some(path)),
        HeldTreeError::XattrsChangedDuringProof(path) => (HeldTreeAssessmentFailureKind::ContentOrMetadataChanged, Some(path)),
        HeldTreeError::PostAdded(path) => (HeldTreeAssessmentFailureKind::ProveOnlyStateObserved, Some(path)),
        HeldTreeError::PostRemoved(path) => (HeldTreeAssessmentFailureKind::ProveOnlyStateObserved, Some(path)),
        HeldTreeError::PostChanged(path) => (HeldTreeAssessmentFailureKind::ProveOnlyStateObserved, Some(path)),
        HeldTreeError::Certification { path, reason } => (
        match reason {
            CertificationError::AclPresent => HeldTreeAssessmentFailureKind::AclPresent,
            CertificationError::NotDirectory => HeldTreeAssessmentFailureKind::RootNotDirectory,
            _ => HeldTreeAssessmentFailureKind::CertificationFailed,
        },
        Some(path),
        ),
        HeldTreeError::Io { path, errno: _ } => (HeldTreeAssessmentFailureKind::IoFailure, Some(path)),
    };
    let relative_path = match path {
        Some(path) => if path.len() > 0 {
            Some(path)
        } else {
            None
        },
        None => None,
    };
    HeldTreeAssessmentFailure { kind, relative_path }
}

/// The length of the label of a kind, and some of its letters.
spec fn label_marks(kind: HeldTreeAssessmentFailureKind) -> (int, char) {
    match kind {
        HeldTreeAssessmentFailureKind::InvalidRoot => (12, 'v'),
        HeldTreeAssessmentFailureKind::InvalidDirectoryLimit => (23, 'v'),
        HeldTreeAssessmentFailureKind::EntryLimitExceeded => (20, 't'),
        HeldTreeAssessmentFailureKind::DirectoryLimitExceeded => (24, 'r'),
        HeldTreeAssessmentFailureKind::DepthLimitExceeded => (20, 'p'),
        HeldTreeAssessmentFailureKind::PathBytesLimitExceeded => (25, 't'),
        HeldTreeAssessmentFailureKind::ManifestBytesLimitExceeded => (29, 'n'),
        HeldTreeAssessmentFailureKind::ContentBytesLimitExceeded => (28, 'n'),
        HeldTreeAssessmentFailureKind::SourceParentPolicyRejected => (29, 'u'),
        HeldTreeAssessmentFailureKind::SourceParentStateChanged => (27, 'u'),
        HeldTreeAssessmentFailureKind::ForeignOwner => (13, 'r'),
        HeldTreeAssessmentFailureKind::ProtectedName => (14, 'o'),
        HeldTreeAssessmentFailureKind::BackendBoundary => (16, 'c'),
        HeldTreeAssessmentFailureKind::IdentityChanged => (16, 'e'),
        HeldTreeAssessmentFailureKind::StrongIncarnationUnavailable => (30, 'r'),
        HeldTreeAssessmentFailureKind::ExternalHardLink => (18, 't'),
        HeldTreeAssessmentFailureKind::NonDirectoryExtendedMetadata => (31, 'n'),
        HeldTreeAssessmentFailureKind::MetadataEvidenceUnavailable => (29, 't'),
        HeldTreeAssessmentFailureKind::AclPresent => (11, 'l'),
        HeldTreeAssessmentFailureKind::UnsupportedContentKind => (24, 's'),
        HeldTreeAssessmentFailureKind::ContentOrMetadataChanged => (27, 'n'),
        HeldTreeAssessmentFailureKind::RootNotDirectory => (18, 'o'),
        HeldTreeAssessmentFailureKind::CertificationFailed => (20, 'r'),
        HeldTreeAssessmentFailureKind::IoFailure => (10, '_'),
        HeldTreeAssessmentFailureKind::ProveOnlyStateObserved => (25, 'o'),
        HeldTreeAssessmentFailureKind::RootBindingChanged => (20, 'o'),
    }
}

proof fn lemma_label_marks(kind: HeldTreeAssessmentFailureKind)
    ensures
        label_marks(kind).0 == kind_text(kind).len(),
        label_marks(kind).1 == kind_text(kind)[2],
{
    reveal_strlit("invalid_root");
    reveal_strlit("invalid_directory_limit");
    reveal_strlit("entry_limit_exceeded");
    reveal_strlit("directory_limit_exceeded");
    reveal_strlit("depth_limit_exceeded");
    reveal_strlit("path_bytes_limit_exceeded");
    reveal_strlit("manifest_bytes_limit_exceeded");
    reveal_strlit("content_bytes_limit_exceeded");
    reveal_strlit("source_parent_policy_rejected");
    reveal_strlit("source_parent_state_changed");
    reveal_strlit("foreign_owner");
    reveal_strlit("protected_name");
    reveal_strlit("backend_boundary");
    reveal_strlit("identity_changed");
    reveal_strlit("strong_incarnation_unavailable");
    reveal_strlit("external_hard_link");
    reveal_strlit("non_directory_extended_metadata");
    reveal_strlit("metadata_evidence_unavailable");
    reveal_strlit("acl_present");
    reveal_strlit("unsupported_content_kind");
    reveal_strlit("content_or_metadata_changed");
    reveal_strlit("root_not_directory");
    reveal_strlit("certification_failed");
    reveal_strlit("io_failure");
    reveal_strlit("prove_only_state_observed");
    reveal_strlit("root_binding_changed");
}

/// No two kinds share a label.
pub proof fn law_labels_are_distinct(
    left: HeldTreeAssessmentFailureKind,
    right: HeldTreeAssessmentFailureKind,
)
    requires
        kind_text(left) == kind_text(right),
    ensures
        left == right,
{
    lemma_label_marks(left);
    lemma_label_marks(right);
}

/// What only the comparison with a proved tree can find is reported as one kind
/// that fails closed, with its path.
pub proof fn law_prove_only_faults_fail_closed(path: Seq<u8>)
    requires
        path.len() > 0,
    ensures
        category_of(reported_failure(TreeFault::PostAdded(path)).kind)
            == HeldTreeAssessmentFailureCategory::InternalFailClosed,
        category_of(reported_failure(TreeFault::PostRemoved(path)).kind)
            == HeldTreeAssessmentFailureCategory::InternalFailClosed,
        category_of(reported_failure(TreeFault::PostChanged(path)).kind)
            == HeldTreeAssessmentFailureCategory::InternalFailClosed,
        reported_failure(TreeFault::PostAdded(path)).relative_path == Some(path),
        reported_failure(TreeFault::PostRemoved(path)).relative_path == Some(path),
        reported_failure(TreeFault::PostChanged(path)).relative_path == Some(path),
{
}

/// What is reported of a tree is what was assessed, number by number, and a seal
/// that is only in view is never reported as made.
pub proof fn law_reports_repeat_the_assessment(assessment: HeldTreeAdmissionAssessment)
    ensures
        assessment matches HeldTreeAdmissionAssessment::TreePolicyAssessed {
            tree,
            source_parent_seal,
        } ==> (reported_assessment(
            assessment,
        ) matches HeldTreePolicyAssessmentOutcome::TreePolicyAssessed {
            tree: summary,
            source_parent_seal: seal,
        } && summary.entries == tree.entries && summary.directories == tree.directories
            && summary.path_bytes == tree.path_bytes && summary.manifest_bytes
            == tree.manifest_bytes && summary.content_bytes_from_metadata == tree.content_bytes
            && summary.assessed_at == tree.assessed_at && seal.original_mode
            == source_parent_seal.original_mode && seal.projected_mode
            == source_parent_seal.projected_mode && seal.validation
            is RequiresExecutionValidation),
        assessment is TreePolicyDeferredUntilSourceParentSeal <==> reported_assessment(assessment)
            is TreePolicyDeferredUntilSourceParentSeal,
{
}

/// A refusal is reported with the path that it is about, and the root is not named.
pub proof fn law_reports_name_the_entry(path: Seq<u8>)
    requires
        path.len() > 0,
    ensures
        reported_failure(TreeFault::ProtectedName(path)).relative_path == Some(path),
        reported_failure(TreeFault::ProtectedName(path)).kind
            == HeldTreeAssessmentFailureKind::ProtectedName,
        reported_failure(TreeFault::ForeignOwner(path)).relative_path == Some(path),
        reported_failure(TreeFault::ForeignOwner(path)).kind
            == HeldTreeAssessmentFailureKind::ForeignOwner,
        reported_failure(TreeFault::BackendBoundary(path)).relative_path == Some(path),
        reported_failure(TreeFault::BackendBoundary(path)).kind
            == HeldTreeAssessmentFailureKind::BackendBoundary,
        reported_failure(TreeFault::IdentityChanged(path)).relative_path == Some(path),
        reported_failure(TreeFault::ExternalOrUnenumeratedHardLink(path)).kind
            == HeldTreeAssessmentFailureKind::ExternalHardLink,
        reported_failure(TreeFault::ForeignOwner(Seq::empty())).relative_path is None,
        reported_failure(TreeFault::RootBindingChanged).relative_path is None,
{
}

} // verus!
