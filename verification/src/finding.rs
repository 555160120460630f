//! What is known of something that was found.

use vstd::prelude::*;

verus! {

/// How hard it is to make something again.
#[derive(Clone, Copy, Debug, PartialEq, Eq, Structural)]
pub enum RegenCost {
    Cheap,
    Costly,
}

/// What it takes to get something back.
#[derive(Clone, Copy, Debug, PartialEq, Eq, Structural)]
pub enum Recovery {
    /// Nobody knows.
    Unknown,
    /// It belongs to the user and cannot be made again.
    UserAsset,
    /// Its tool makes it again.
    Regenerable { cost: RegenCost },
}

/// Who may remove something.
#[derive(Clone, Copy, Debug, PartialEq, Eq, Structural)]
pub enum Ownership {
    Unknown,
    /// Anybody, without asking.
    Standalone,
    /// Only the tool that owns it.
    ToolCoordinated,
}

/// What removing something can do.
#[derive(Clone, Copy, Debug, PartialEq, Eq, Structural)]
pub enum Hazard {
    /// Software that links into it can break.
    BreaksConsumers,
    /// Sessions that use it can be disturbed.
    ActiveUse,
}

/// Whether something is where it is known to be.
#[derive(Clone, Copy, Debug, PartialEq, Eq, Structural)]
pub enum Confidence {
    Verified,
    Unverified,
}

/// What may be done with something.
#[derive(Clone, Copy, Debug, PartialEq, Eq, Structural)]
pub enum DispositionMode {
    /// It may be removed.
    Eligible,
    /// It may be removed when asked for.
    OptIn,
    /// It may only be reported.
    ReportOnly,
}

/// What may be done with something, and why no more than that.
#[derive(Debug, PartialEq, Eq)]
pub struct Disposition {
    pub mode: DispositionMode,
    pub reason: Option<String>,
}

/// The content of a [`Disposition`].
#[verifier::ext_equal]
pub struct DispositionView {
    pub mode: DispositionMode,
    pub reason: Option<Seq<char>>,
}

impl View for Disposition {
    type V = DispositionView;

    open spec fn view(&self) -> DispositionView {
        DispositionView {
            mode: self.mode,
            reason: match self.reason {
                Some(text) => Some(text@),
                None => None,
            },
        }
    }
}

/// What a source states of everything under one of its roots.
pub type FindingFacts = (Recovery, Ownership, Option<Hazard>);

/// What kind of thing was found.
#[derive(Clone, Copy, Debug, PartialEq, Eq, Structural)]
#[non_exhaustive]
pub enum FindingKind {
    PackageCache,
}

/// Something that was found, before it is decided what may be done with it.
#[derive(Debug, PartialEq, Eq)]
pub struct FindingCandidate {
    pub ecosystem: String,
    pub path: Vec<u8>,
    pub kind: FindingKind,
    pub bytes_apparent: u64,
    pub bytes_allocated: u64,
    pub age_days: Option<u64>,
    pub bytes_hardlinked: u64,
    pub inodes: u64,
    /// How many entries could not be read.
    pub skipped: u64,
    /// Whether the walk stopped early.
    pub truncated: bool,
    /// How many directories were not entered.
    pub unvisited_dirs: u64,
    /// How many entries were left out on purpose, by name.
    pub protected_boundaries: u64,
    /// How many of those may hold credentials.
    pub protected_credential_boundaries: u64,
    pub recovery: Recovery,
    pub ownership: Ownership,
    pub hazard: Option<Hazard>,
    pub rationale: String,
}

/// Everything in it was measured.
pub open spec fn is_measured(candidate: FindingCandidate) -> bool {
    candidate.skipped == 0 && !candidate.truncated && candidate.unvisited_dirs == 0
}

/// Something was measured in full exactly where nothing was skipped, cut short or
/// left unvisited.
pub proof fn law_measured_means_in_full(candidate: FindingCandidate)
    ensures
        is_measured(candidate) <==> candidate.skipped == 0 && candidate.unvisited_dirs == 0
            && !candidate.truncated,
{
}

} // verus!
