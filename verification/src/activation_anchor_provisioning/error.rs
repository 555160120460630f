//! Why an anchor is not made.

use crate::activation::error::IoFault;
use crate::backend::certify::CertificationError;
use crate::backend::certify::reason_name;
use crate::bytes::to_vec;
use crate::paths::views;
use crate::text::decimal_text;
use crate::text::lossy_text;
use crate::text::number_text;
use crate::text::words_at;
use vstd::prelude::*;

verus! {

/// Why an anchor is not made.
#[derive(Debug)]
pub enum ActivationAnchorProvisioningError {
    /// Only the administrator makes anchors.
    NotRoot,
    /// The account cannot have one.
    InvalidUid { uid: u32 },
    /// The system has no place for one.
    UnsupportedPlatform,
    /// What is there cannot be trusted.
    Unsafe { path: Vec<u8>, reason: &'static str },
    /// The file system does not support one.
    UnsupportedBackend { path: Vec<u8>, reason: CertificationError },
    /// What is there could not be looked at.
    Uncertain { path: Vec<u8>, reason: CertificationError },
    /// A file system call failed.
    Io { path: Vec<u8>, fault: IoFault },
    /// Somebody else is making one.
    Busy { path: Vec<u8> },
    /// It failed, and something that was made is left, or may be.
    RollbackResidue { failure: FailureCause, residue: Vec<Vec<u8>> },
}

/// What left something behind.
#[derive(Debug)]
pub enum FailureCause {
    Error(Box<ActivationAnchorProvisioningError>),
    Text(&'static str),
}

/// The content of an [`ActivationAnchorProvisioningError`].
#[verifier::ext_equal]
pub enum ProvisionFault {
    NotRoot,
    InvalidUid { uid: u32 },
    UnsupportedPlatform,
    Unsafe { path: Seq<u8>, reason: Seq<char> },
    UnsupportedBackend { path: Seq<u8>, reason: CertificationError },
    Uncertain { path: Seq<u8>, reason: CertificationError },
    Io { path: Seq<u8>, fault: IoFault },
    Busy { path: Seq<u8> },
    RollbackResidue { failure: CauseView, residue: Seq<Seq<u8>> },
}

/// The content of a [`FailureCause`].
pub enum CauseView {
    Error(Box<ProvisionFault>),
    Text(Seq<char>),
}

/// The content of an error.
pub open spec fn fault_of(error: ActivationAnchorProvisioningError) -> ProvisionFault
    decreases error,
{
    match error {
        ActivationAnchorProvisioningError::NotRoot => ProvisionFault::NotRoot,
        ActivationAnchorProvisioningError::InvalidUid { uid } => ProvisionFault::InvalidUid { uid },
        ActivationAnchorProvisioningError::UnsupportedPlatform =>
            ProvisionFault::UnsupportedPlatform,
        ActivationAnchorProvisioningError::Unsafe { path, reason } => ProvisionFault::Unsafe {
            path: path@,
            reason: reason@,
        },
        ActivationAnchorProvisioningError::UnsupportedBackend {
            path,
            reason,
        } => ProvisionFault::UnsupportedBackend { path: path@, reason },
        ActivationAnchorProvisioningError::Uncertain { path, reason } =>
            ProvisionFault::Uncertain { path: path@, reason },
        ActivationAnchorProvisioningError::Io { path, fault } => ProvisionFault::Io {
            path: path@,
            fault,
        },
        ActivationAnchorProvisioningError::Busy { path } => ProvisionFault::Busy { path: path@ },
        ActivationAnchorProvisioningError::RollbackResidue {
            failure,
            residue,
        } => ProvisionFault::RollbackResidue {
            failure: match failure {
                FailureCause::Error(inner) => CauseView::Error(Box::new(fault_of(*inner))),
                FailureCause::Text(text) => CauseView::Text(text@),
            },
            residue: views(residue@),
        },
    }
}

impl View for ActivationAnchorProvisioningError {
    type V = ProvisionFault;

    open spec fn view(&self) -> ProvisionFault {
        fault_of(*self)
    }
}

/// A step that either succeeds or is refused for exactly one reason.
pub open spec fn unprovisioned_for<T>(
    outcome: Result<T, ActivationAnchorProvisioningError>,
    fault: Option<ProvisionFault>,
) -> bool {
    match fault {
        Some(fault) => outcome matches Err(error) && error@ == fault,
        None => outcome is Ok,
    }
}

/// The first of two reasons.
pub open spec fn first_of(first: Option<ProvisionFault>, second: Option<ProvisionFault>) -> Option<
    ProvisionFault,
> {
    if first is Some {
        first
    } else {
        second
    }
}

/// A failure that left something behind.
pub open spec fn residue_fault(failure: ProvisionFault, residue: Seq<Seq<u8>>) -> ProvisionFault {
    ProvisionFault::RollbackResidue { failure: CauseView::Error(Box::new(failure)), residue }
}

/// A failure that left something behind.
pub fn leaves_residue(failure: ActivationAnchorProvisioningError, residue: Vec<Vec<u8>>) -> (error:
    ActivationAnchorProvisioningError)
    ensures
        error@ == residue_fault(failure@, views(residue@)),
{
    ActivationAnchorProvisioningError::RollbackResidue {
        failure: FailureCause::Error(Box::new(failure)),
        residue,
    }
}

/// One path that is left.
pub fn one_path(path: &[u8]) -> (residue: Vec<Vec<u8>>)
    ensures
        views(residue@) == seq![path@],
{
    let residue = vec![to_vec(path)];
    assert(views(residue@) =~= seq![path@]);
    residue
}

/// Words about a place, and why.
pub open spec fn words_at_because(words: Seq<char>, path: Seq<u8>, reason: Seq<char>) -> Seq<char> {
    words + lossy_text(path) + ": "@ + reason
}

fn at_because(words: &str, path: &Vec<u8>, reason: &str) -> (text: String)
    ensures
        text@ == words_at_because(words@, path@, reason@),
{
    let mut text = words_at(words, path);
    text.append(": ");
    text.append(reason);
    text
}

/// An error in words. `source` is what the error below it says, where there is
/// one; `listed` are the paths that are left, where there are any.
pub open spec fn provisioning_error_text(
    fault: ProvisionFault,
    source: Seq<char>,
    listed: Seq<char>,
) -> Seq<char> {
    match fault {
        ProvisionFault::NotRoot => "activation-anchor provisioning requires effective UID 0"@,
        ProvisionFault::InvalidUid { uid } => "UID "@ + number_text(uid as u64)
            + " cannot be an activation-anchor target"@,
        ProvisionFault::UnsupportedPlatform =>
            "activation-anchor provisioning is unsupported on this platform"@,
        ProvisionFault::Unsafe { path, reason } => words_at_because(
            "unsafe existing activation-anchor namespace entry at "@,
            path,
            reason,
        ),
        ProvisionFault::UnsupportedBackend { path, reason } => words_at_because(
            "activation-anchor backend is unsupported at "@,
            path,
            reason_name(reason),
        ),
        ProvisionFault::Uncertain { path, reason } => words_at_because(
            "activation-anchor inspection is uncertain at "@,
            path,
            reason_name(reason),
        ),
        ProvisionFault::Io { path, .. } => words_at_because(
            "activation-anchor provisioning I/O failed at "@,
            path,
            source,
        ),
        ProvisionFault::Busy { path } => "activation-anchor provisioning is busy at "@
            + lossy_text(path),
        ProvisionFault::RollbackResidue { failure, .. } => "activation-anchor provisioning failed: "@
            + (match failure {
            CauseView::Error(_) => source,
            CauseView::Text(text) => text,
        }) + "; rollback is uncertain or left residue at "@ + listed,
    }
}

impl ActivationAnchorProvisioningError {
    /// The error in words. `source` is what the error below it says, where there
    /// is one; `listed` are the paths that are left, where there are any.
    pub fn describe(&self, source: &str, listed: &str) -> (text: String)
        ensures
            text@ == provisioning_error_text(self@, source@, listed@),
    {
        match self {
            ActivationAnchorProvisioningError::NotRoot =>
                "activation-anchor provisioning requires effective UID 0".to_owned(),
            ActivationAnchorProvisioningError::InvalidUid { uid } => {
                let mut text = "UID ".to_owned();
                text.append(decimal_text(*uid as u64).as_str());
                text.append(" cannot be an activation-anchor target");
                text
            },
            ActivationAnchorProvisioningError::UnsupportedPlatform =>
                "activation-anchor provisioning is unsupported on this platform".to_owned(),
            ActivationAnchorProvisioningError::Unsafe { path, reason } => at_because(
                "unsafe existing activation-anchor namespace entry at ",
                path,
                reason,
            ),
            ActivationAnchorProvisioningError::UnsupportedBackend { path, reason } => at_because(
                "activation-anchor backend is unsupported at ",
                path,
                reason.name(),
            ),
            ActivationAnchorProvisioningError::Uncertain { path, reason } => at_because(
                "activation-anchor inspection is uncertain at ",
                path,
                reason.name(),
            ),
            ActivationAnchorProvisioningError::Io { path, .. } => at_because(
                "activation-anchor provisioning I/O failed at ",
                path,
                source,
            ),
            ActivationAnchorProvisioningError::Busy { path } => words_at(
                "activation-anchor provisioning is busy at ",
                path,
            ),
            ActivationAnchorProvisioningError::RollbackResidue { failure, .. } => {
                let mut text = "activation-anchor provisioning failed: ".to_owned();
                match failure {
                    FailureCause::Error(_) => text.append(source),
                    FailureCause::Text(reason) => text.append(reason),
                }
                text.append("; rollback is uncertain or left residue at ");
                text.append(listed);
                text
            },
        }
    }
}

} // verus!
