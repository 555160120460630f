//! Why a store is not activated.

use crate::activation::record::InvalidLocator;
use crate::anchor_layout::SelfAnchorRootError;
use crate::backend::certify::reason_name;
use crate::backend::certify::CertificationError;
use crate::bytes::to_vec;
use crate::text::lossy_string;
use crate::text::lossy_text;
use crate::text::words_at;
use vstd::prelude::*;

verus! {

/// How a file system call failed.
#[derive(Clone, Copy, Debug, PartialEq, Eq)]
pub enum IoFault {
    /// There is nothing there.
    NotFound,
    /// There is a symbolic link there.
    Loop,
    /// There is something else than a directory there.
    NotDirectory,
    /// There is something there already.
    Exists,
    /// Another error of the system.
    Os(i32),
    /// The random number source failed.
    Random(getrandom::Error),
    /// An error that is not the system's.
    Other(&'static str),
}

/// How a store failed.
#[derive(Debug)]
pub enum StoreError {
    /// Its path is no place for a store.
    InvalidPath(Vec<u8>),
    /// A directory cannot be trusted.
    UnsafeDirectory { path: Vec<u8>, reason: &'static str },
    /// Its log cannot be trusted.
    UnsafeWal { path: Vec<u8> },
    /// It is gone.
    MissingStore { path: Vec<u8> },
    /// Its log is gone.
    MissingWal { path: Vec<u8> },
    /// A file system call failed.
    Io { path: Vec<u8>, fault: IoFault },
    /// The file system above it is not certified.
    ParentBackend { path: Vec<u8>, reason: CertificationError },
    /// Its file system could not be looked at.
    BackendInspection { path: Vec<u8>, reason: CertificationError },
    /// Somebody else holds it.
    Lease(IoFault),
}

/// The content of a [`StoreError`].
#[verifier::ext_equal]
pub enum StoreFault {
    InvalidPath(Seq<u8>),
    UnsafeDirectory { path: Seq<u8>, reason: Seq<char> },
    UnsafeWal { path: Seq<u8> },
    MissingStore { path: Seq<u8> },
    MissingWal { path: Seq<u8> },
    Io { path: Seq<u8>, fault: IoFault },
    ParentBackend { path: Seq<u8>, reason: CertificationError },
    BackendInspection { path: Seq<u8>, reason: CertificationError },
    Lease(IoFault),
}

impl View for StoreError {
    type V = StoreFault;

    open spec fn view(&self) -> StoreFault {
        match *self {
            StoreError::InvalidPath(path) => StoreFault::InvalidPath(path@),
            StoreError::UnsafeDirectory { path, reason } => StoreFault::UnsafeDirectory {
                path: path@,
                reason: reason@,
            },
            StoreError::UnsafeWal { path } => StoreFault::UnsafeWal { path: path@ },
            StoreError::MissingStore { path } => StoreFault::MissingStore { path: path@ },
            StoreError::MissingWal { path } => StoreFault::MissingWal { path: path@ },
            StoreError::Io { path, fault } => StoreFault::Io { path: path@, fault },
            StoreError::ParentBackend { path, reason } => StoreFault::ParentBackend {
                path: path@,
                reason,
            },
            StoreError::BackendInspection { path, reason } => StoreFault::BackendInspection {
                path: path@,
                reason,
            },
            StoreError::Lease(fault) => StoreFault::Lease(fault),
        }
    }
}

/// Why a store is not activated.
#[derive(Debug)]
pub enum StoreActivationError {
    /// The account's own place is not known.
    AccountBase(SelfAnchorRootError),
    /// The account's own place has moved.
    AccountBaseChanged { expected: Vec<u8>, actual: Vec<u8> },
    /// The anchor has not been made.
    AnchorNotProvisioned { path: Vec<u8> },
    /// The anchor cannot be trusted.
    UnsafeAnchor(StoreError),
    /// A file system call failed.
    Io { path: Vec<u8>, fault: IoFault },
    /// A file system is not certified.
    Backend(CertificationError),
    /// It is not known what an object is.
    Identity,
    /// The store failed.
    Store(StoreError),
    /// There is nothing to start or to go on with.
    NotResumable,
    /// Neither anchor has been made.
    NoAuthority { system: Vec<u8>, self_managed: Vec<u8> },
    /// Both anchors hold traces of an activation.
    SplitAuthority { system: Vec<u8>, self_managed: Vec<u8> },
    /// A claim does not fit what it is found with.
    AuthorityClaimInvalid { path: Vec<u8> },
    /// The anchor that a claim names is gone.
    SelectedAuthorityLost { selected: Vec<u8>, witness: Vec<u8> },
    /// The account's own anchor has to be declared first.
    SelfInitializationRequired,
    /// The declaration has to say that it is the first.
    InitialAssertionRequired,
    /// The administrator's anchor is there.
    SystemAuthorityPresent { path: Vec<u8> },
    /// A place cannot be recorded.
    InvalidLocator,
    /// A record could not be looked at.
    RecordInspection { path: Vec<u8>, reason: CertificationError },
    /// It is not known whether something was made durable.
    SyncUncertain(&'static str),
    /// No random number could be drawn.
    Random(getrandom::Error),
}

/// The content of a [`StoreActivationError`].
#[verifier::ext_equal]
pub enum ActivationFault {
    AccountBase(SelfAnchorRootError),
    AccountBaseChanged { expected: Seq<u8>, actual: Seq<u8> },
    AnchorNotProvisioned { path: Seq<u8> },
    UnsafeAnchor(StoreFault),
    Io { path: Seq<u8>, fault: IoFault },
    Backend(CertificationError),
    Identity,
    Store(StoreFault),
    NotResumable,
    NoAuthority { system: Seq<u8>, self_managed: Seq<u8> },
    SplitAuthority { system: Seq<u8>, self_managed: Seq<u8> },
    AuthorityClaimInvalid { path: Seq<u8> },
    SelectedAuthorityLost { selected: Seq<u8>, witness: Seq<u8> },
    SelfInitializationRequired,
    InitialAssertionRequired,
    SystemAuthorityPresent { path: Seq<u8> },
    InvalidLocator,
    RecordInspection { path: Seq<u8>, reason: CertificationError },
    SyncUncertain(Seq<char>),
    Random(getrandom::Error),
}

impl View for StoreActivationError {
    type V = ActivationFault;

    open spec fn view(&self) -> ActivationFault {
        match *self {
            StoreActivationError::AccountBase(error) => ActivationFault::AccountBase(error),
            StoreActivationError::AccountBaseChanged {
                expected,
                actual,
            } => ActivationFault::AccountBaseChanged { expected: expected@, actual: actual@ },
            StoreActivationError::AnchorNotProvisioned {
                path,
            } => ActivationFault::AnchorNotProvisioned { path: path@ },
            StoreActivationError::UnsafeAnchor(error) => ActivationFault::UnsafeAnchor(error@),
            StoreActivationError::Io { path, fault } => ActivationFault::Io { path: path@, fault },
            StoreActivationError::Backend(reason) => ActivationFault::Backend(reason),
            StoreActivationError::Identity => ActivationFault::Identity,
            StoreActivationError::Store(error) => ActivationFault::Store(error@),
            StoreActivationError::NotResumable => ActivationFault::NotResumable,
            StoreActivationError::NoAuthority {
                system,
                self_managed,
            } => ActivationFault::NoAuthority { system: system@, self_managed: self_managed@ },
            StoreActivationError::SplitAuthority {
                system,
                self_managed,
            } => ActivationFault::SplitAuthority { system: system@, self_managed: self_managed@ },
            StoreActivationError::AuthorityClaimInvalid {
                path,
            } => ActivationFault::AuthorityClaimInvalid { path: path@ },
            StoreActivationError::SelectedAuthorityLost {
                selected,
                witness,
            } => ActivationFault::SelectedAuthorityLost { selected: selected@, witness: witness@ },
            StoreActivationError::SelfInitializationRequired =>
                ActivationFault::SelfInitializationRequired,
            StoreActivationError::InitialAssertionRequired =>
                ActivationFault::InitialAssertionRequired,
            StoreActivationError::SystemAuthorityPresent {
                path,
            } => ActivationFault::SystemAuthorityPresent { path: path@ },
            StoreActivationError::InvalidLocator => ActivationFault::InvalidLocator,
            StoreActivationError::RecordInspection {
                path,
                reason,
            } => ActivationFault::RecordInspection { path: path@, reason },
            StoreActivationError::SyncUncertain(boundary) => ActivationFault::SyncUncertain(
                boundary@,
            ),
            StoreActivationError::Random(error) => ActivationFault::Random(error),
        }
    }
}

/// An error in words. `source` is what the error below it says, where there is
/// one.
pub open spec fn activation_error_text(fault: ActivationFault, source: Seq<char>) -> Seq<char> {
    match fault {
        ActivationFault::Identity => "store activation strong identity is unavailable"@,
        ActivationFault::NotResumable => "activation is not in a resumable never/preparing state"@,
        ActivationFault::SelfInitializationRequired => "self-managed activation requires an explicit initial declaration"@,
        ActivationFault::InitialAssertionRequired => "self-managed initialization requires an explicit initial-use assertion"@,
        ActivationFault::InvalidLocator => "activation record locator is invalid"@,
        ActivationFault::AnchorNotProvisioned { path } => "activation anchor is not provisioned at "@
            + lossy_text(path),
        ActivationFault::AuthorityClaimInvalid { path } => "authority claim is invalid or conflicts with activation evidence at "@
            + lossy_text(path),
        ActivationFault::SystemAuthorityPresent { path } => "self-managed initialization is blocked by an existing system authority at "@
            + lossy_text(path),
        ActivationFault::AccountBase(_) => "current account activation-anchor base is unavailable: "@ + source,
        ActivationFault::UnsafeAnchor(_) => "activation anchor is unsafe: "@ + source,
        ActivationFault::Store(_) => "seal WAL store operation failed: "@ + source,
        ActivationFault::Random(_) => "operating-system randomness for activation id failed: "@ + source,
        ActivationFault::AccountBaseChanged { expected, actual } => "current account activation-anchor path changed from "@ + lossy_text(
            expected,
        ) + " to "@ + lossy_text(actual),
        ActivationFault::NoAuthority { system, self_managed } => "neither activation authority is provisioned (system: "@ + lossy_text(
            system,
        ) + "; self-managed: "@ + lossy_text(self_managed) + ")"@,
        ActivationFault::SplitAuthority { system, self_managed } => "system and self-managed anchors both carry activation evidence (system: "@ + lossy_text(
            system,
        ) + "; self-managed: "@ + lossy_text(self_managed) + ")"@,
        ActivationFault::SelectedAuthorityLost { selected, witness } => "authority selected by the durable witness is missing (selected: "@ + lossy_text(
            selected,
        ) + "; witness: "@ + lossy_text(witness) + ")"@,
        ActivationFault::Io { path, .. } => "store activation I/O failed at "@ + lossy_text(path)
            + ": "@ + source,
        ActivationFault::Backend(reason) => "store activation requires a certified backend: "@
            + reason_name(reason),
        ActivationFault::RecordInspection { path, reason } =>
            "activation record inspection was uncertain at "@ + lossy_text(path) + ": "@
                + reason_name(reason),
        ActivationFault::SyncUncertain(boundary) =>
            "durability of activation publication is uncertain at "@ + boundary,
    }
}

/// Two sets of words.
fn words_and(words: &str, more: &str) -> (text: String)
    ensures
        text@ == words@ + more@,
{
    let mut text = words.to_owned();
    text.append(more);
    text
}

impl StoreActivationError {
    /// The error in words. `source` is what the error below it says, where
    /// there is one.
    pub fn describe(&self, source: &str) -> (text: String)
        ensures
            text@ == activation_error_text(self@, source@),
    {
        match self {
            StoreActivationError::Identity => "store activation strong identity is unavailable".to_owned(),
            StoreActivationError::NotResumable => "activation is not in a resumable never/preparing state".to_owned(),
            StoreActivationError::SelfInitializationRequired => "self-managed activation requires an explicit initial declaration".to_owned(),
            StoreActivationError::InitialAssertionRequired => "self-managed initialization requires an explicit initial-use assertion".to_owned(),
            StoreActivationError::InvalidLocator => "activation record locator is invalid".to_owned(),
            StoreActivationError::AnchorNotProvisioned { path } => words_at(
                "activation anchor is not provisioned at ",
                path,
            ),
            StoreActivationError::AuthorityClaimInvalid { path } => words_at(
                "authority claim is invalid or conflicts with activation evidence at ",
                path,
            ),
            StoreActivationError::SystemAuthorityPresent { path } => words_at(
                "self-managed initialization is blocked by an existing system authority at ",
                path,
            ),
            StoreActivationError::AccountBase(_) => words_and("current account activation-anchor base is unavailable: ", source),
            StoreActivationError::UnsafeAnchor(_) => words_and("activation anchor is unsafe: ", source),
            StoreActivationError::Store(_) => words_and("seal WAL store operation failed: ", source),
            StoreActivationError::Random(_) => words_and(
                "operating-system randomness for activation id failed: ",
                source,
            ),
            StoreActivationError::AccountBaseChanged { expected, actual } => {
                let mut text = words_at("current account activation-anchor path changed from ", expected);
                text.append(" to ");
                text.append(lossy_string(actual.as_slice()).as_str());
                text
            },
            StoreActivationError::NoAuthority { system, self_managed } => {
                let mut text = words_at("neither activation authority is provisioned (system: ", system);
                text.append("; self-managed: ");
                text.append(lossy_string(self_managed.as_slice()).as_str());
                text.append(")");
                text
            },
            StoreActivationError::SplitAuthority { system, self_managed } => {
                let mut text = words_at("system and self-managed anchors both carry activation evidence (system: ", system);
                text.append("; self-managed: ");
                text.append(lossy_string(self_managed.as_slice()).as_str());
                text.append(")");
                text
            },
            StoreActivationError::SelectedAuthorityLost { selected, witness } => {
                let mut text = words_at("authority selected by the durable witness is missing (selected: ", selected);
                text.append("; witness: ");
                text.append(lossy_string(witness.as_slice()).as_str());
                text.append(")");
                text
            },
            StoreActivationError::Io { path, .. } => {
                let mut text = words_at("store activation I/O failed at ", path);
                text.append(": ");
                text.append(source);
                text
            },
            StoreActivationError::Backend(reason) => words_and(
                "store activation requires a certified backend: ",
                reason.name(),
            ),
            StoreActivationError::RecordInspection { path, reason } => {
                let mut text = words_at("activation record inspection was uncertain at ", path);
                text.append(": ");
                text.append(reason.name());
                text
            },
            StoreActivationError::SyncUncertain(boundary) => words_and(
                "durability of activation publication is uncertain at ",
                boundary,
            ),
        }
    }
}

/// A step that either succeeds or is refused for exactly one reason.
pub open spec fn refused_as<T>(
    outcome: Result<T, StoreActivationError>,
    fault: Option<ActivationFault>,
) -> bool {
    match fault {
        Some(fault) => outcome matches Err(error) && error@ == fault,
        None => outcome is Ok,
    }
}

/// The first of two reasons.
pub open spec fn first_reason(first: Option<ActivationFault>, second: Option<ActivationFault>)
    -> Option<ActivationFault> {
    if first is Some {
        first
    } else {
        second
    }
}

/// A place that cannot be recorded stops the activation.
pub fn unrecordable(error: InvalidLocator) -> (refusal: StoreActivationError)
    ensures
        refusal@ == ActivationFault::InvalidLocator,
{
    StoreActivationError::InvalidLocator
}

/// An anchor that cannot be trusted.
pub fn unsafe_anchor(path: Vec<u8>, reason: &'static str) -> (error: StoreActivationError)
    ensures
        error@ == untrusted(path@, reason@),
{
    StoreActivationError::UnsafeAnchor(StoreError::UnsafeDirectory { path, reason })
}

/// An anchor that cannot be trusted.
pub open spec fn untrusted(path: Seq<u8>, reason: Seq<char>) -> ActivationFault {
    ActivationFault::UnsafeAnchor(StoreFault::UnsafeDirectory { path, reason })
}

/// Why a record could not be read.
#[derive(Debug)]
pub enum RecordReadError {
    /// It is not what it has to be.
    Corrupt,
    Io(Vec<u8>, IoFault),
    Inspection(Vec<u8>, CertificationError),
}

impl Clone for RecordReadError {
    fn clone(&self) -> (copy: Self)
        ensures
            copy@ == self@,
    {
        match self {
            RecordReadError::Corrupt => RecordReadError::Corrupt,
            RecordReadError::Io(path, fault) => RecordReadError::Io(
                to_vec(path.as_slice()),
                *fault,
            ),
            RecordReadError::Inspection(path, reason) => RecordReadError::Inspection(
                to_vec(path.as_slice()),
                *reason,
            ),
        }
    }
}

/// The content of a [`RecordReadError`].
#[verifier::ext_equal]
pub enum ReadFault {
    Corrupt,
    Io(Seq<u8>, IoFault),
    Inspection(Seq<u8>, CertificationError),
}

impl View for RecordReadError {
    type V = ReadFault;

    open spec fn view(&self) -> ReadFault {
        match *self {
            RecordReadError::Corrupt => ReadFault::Corrupt,
            RecordReadError::Io(path, fault) => ReadFault::Io(path@, fault),
            RecordReadError::Inspection(path, reason) => ReadFault::Inspection(path@, reason),
        }
    }
}

/// What a record that could not be read means for the activation.
pub open spec fn read_refusal(fault: ReadFault) -> ActivationFault {
    match fault {
        ReadFault::Corrupt => ActivationFault::NotResumable,
        ReadFault::Io(path, fault) => ActivationFault::Io { path, fault },
        ReadFault::Inspection(path, reason) => ActivationFault::RecordInspection { path, reason },
    }
}

/// What a record that could not be read means for the activation.
pub fn store_error_from_record_read(error: RecordReadError) -> (refusal: StoreActivationError)
    ensures
        refusal@ == read_refusal(error@),
{
    match error {
        RecordReadError::Corrupt => StoreActivationError::NotResumable,
        RecordReadError::Io(path, fault) => StoreActivationError::Io { path, fault },
        RecordReadError::Inspection(path, reason) => StoreActivationError::RecordInspection {
            path,
            reason,
        },
    }
}

/// Why a record is not what it has to be.
#[derive(Clone, Copy, Debug, PartialEq, Eq)]
pub enum RecordValidationError {
    Corrupt,
    Io(IoFault),
    Inspection(CertificationError),
}

/// What a record that was just written and is not what it has to be means for
/// the activation.
pub fn store_error_from_record_validation(path: Vec<u8>, error: RecordValidationError) -> (refusal:
    StoreActivationError)
    ensures
        refusal@ == validation_refusal(path@, error),
{
    match error {
        RecordValidationError::Corrupt => StoreActivationError::NotResumable,
        RecordValidationError::Io(fault) => StoreActivationError::Io { path, fault },
        RecordValidationError::Inspection(reason) => StoreActivationError::RecordInspection {
            path,
            reason,
        },
    }
}

/// What a record that is not what it has to be means for the activation.
pub open spec fn validation_refusal(path: Seq<u8>, error: RecordValidationError)
    -> ActivationFault {
    read_refusal(validation_read(path, error))
}

/// What a record that is not what it has to be means for its reader.
pub open spec fn validation_read(path: Seq<u8>, error: RecordValidationError) -> ReadFault {
    match error {
        RecordValidationError::Corrupt => ReadFault::Corrupt,
        RecordValidationError::Io(fault) => ReadFault::Io(path, fault),
        RecordValidationError::Inspection(reason) => ReadFault::Inspection(path, reason),
    }
}

/// What a record that is not what it has to be means for its reader.
pub fn read_error(path: Vec<u8>, error: RecordValidationError) -> (refusal: RecordReadError)
    ensures
        refusal@ == validation_read(path@, error),
{
    match error {
        RecordValidationError::Corrupt => RecordReadError::Corrupt,
        RecordValidationError::Io(fault) => RecordReadError::Io(path, fault),
        RecordValidationError::Inspection(reason) => RecordReadError::Inspection(path, reason),
    }
}

} // verus!
