//! The assessment of a tree's metadata before anything is done to it.

use crate::backend::held::model::RegularHardLinkTopology;
use crate::backend::held::model::RegularXattrTopology;
use vstd::prelude::*;

verus! {

/// A time, counted from the start of the year 1970.
#[derive(Clone, Copy, Debug, PartialEq, Eq, Structural)]
pub struct UnixTime {
    pub seconds: i64,
    pub nanoseconds: u32,
}

/// What the assessment of a tree came to.
#[derive(Clone, Copy, Debug, PartialEq, Eq, Structural)]
pub enum HeldTreeAdmissionAssessment {
    TreePolicyAssessed {
        tree: HeldTreePolicyAssessment,
        source_parent_seal: SourceParentSealProjection,
    },
    TreePolicyDeferredUntilSourceParentSeal {
        reason: TreePolicyDeferralReason,
        source_parent_seal: SourceParentSealProjection,
    },
}

/// What an assessed tree comes to.
#[derive(Clone, Copy, Debug, PartialEq, Eq, Structural)]
pub struct HeldTreePolicyAssessment {
    pub entries: u64,
    pub directories: u64,
    pub path_bytes: u64,
    pub manifest_bytes: u64,
    pub content_bytes: u64,
    pub regular_hard_links: RegularHardLinkTopology,
    pub regular_xattrs: RegularXattrTopology,
    pub assessed_at: UnixTime,
}

/// What sealing the source parent would do.
#[derive(Clone, Copy, Debug, PartialEq, Eq, Structural)]
pub struct SourceParentSealProjection {
    pub original_mode: u32,
    pub projected_mode: u32,
    pub validation: SourceParentSealValidation,
}

/// How far the seal has been validated.
#[derive(Clone, Copy, Debug, PartialEq, Eq, Structural)]
pub enum SourceParentSealValidation {
    RequiresExecutionValidation,
}

/// Why the tree could not be assessed yet.
#[derive(Clone, Copy, Debug, PartialEq, Eq, Structural)]
pub enum TreePolicyDeferralReason {
    SourceParentSearchRequiresExecutionSeal,
}

} // verus!
