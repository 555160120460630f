//! What state an activation is in.
//!
//! A store is activated where the record of the activation, the one that
//! prepared it and the marker in the store agree, and where everything that
//! they name is what they say. What contradicts itself is never taken for
//! something that was not there.

use crate::activation::error::read_refusal;
use crate::activation::error::refused_as;
use crate::activation::error::store_error_from_record_read;
use crate::activation::error::unrecordable;
use crate::activation::error::ActivationFault;
use crate::activation::error::IoFault;
use crate::activation::error::ReadFault;
use crate::activation::error::RecordReadError;
use crate::activation::error::StoreActivationError;
use crate::activation::error::StoreError;
use crate::activation::error::StoreFault;
use crate::activation::publication::is_missing;
use crate::activation::publication::sync_fault;
use crate::activation::record::active_bytes;
use crate::activation::record::authority_bytes;
use crate::activation::record::decode_active;
use crate::activation::record::decode_authority;
use crate::activation::record::decode_prepare;
use crate::activation::record::encode_active;
use crate::activation::record::is_binding;
use crate::activation::record::is_locator;
use crate::activation::record::is_storable;
use crate::activation::record::prepare_bytes;
use crate::activation::record::same_object;
use crate::activation::record::same_preparation;
use crate::activation::record::validate_absolute_locator;
use crate::activation::record::ActiveRecord;
use crate::activation::record::AuthorityRecord;
use crate::activation::record::BoundObject;
use crate::activation::record::BoundView;
use crate::activation::record::ClaimView;
use crate::activation::record::PrepareRecord;
use crate::activation::record::PrepareView;
use crate::backend::certify::CertifiedLocalBackend;
use crate::backend::held::inventory::StrongObjectIdentity;
use crate::bytes::bytes_equal;
use crate::bytes::to_vec;
use vstd::prelude::*;

verus! {

/// What state an activation is in.
#[derive(Clone, Copy, Debug, PartialEq, Eq, Structural)]
pub enum StoreActivationKind {
    /// There is no trace of one.
    NeverActivated,
    /// It was started.
    Preparing,
    /// It is complete.
    Activated,
    /// Its store is gone.
    Lost,
    /// Something is not what its records say.
    CorruptOrReplaced,
}

/// What a record that may be missing holds: nothing, a record, or not what it
/// has to.
pub open spec fn is_optional_prepare(
    record: Result<Option<PrepareView>, ReadFault>,
    read: Result<Vec<u8>, RecordReadError>,
) -> bool {
    match record {
        Ok(None) => is_missing(read),
        Ok(Some(found)) => read matches Ok(bytes) && bytes@ == prepare_bytes(found) && is_binding(
            found,
        ),
        Err(fault) => match read {
            Ok(bytes) => fault == ReadFault::Corrupt && forall|any: PrepareView|
                is_binding(any) ==> bytes@ != #[trigger] prepare_bytes(any),
            Err(error) => !is_missing(read) && fault == error@,
        },
    }
}

/// The content of what was read.
pub open spec fn optional_prepare_view(record: Result<Option<PrepareRecord>, RecordReadError>)
    -> Result<Option<PrepareView>, ReadFault> {
    match record {
        Ok(Some(found)) => Ok(Some(found@)),
        Ok(None) => Ok(None),
        Err(error) => Err(error@),
    }
}

/// Reads the record that prepares an activation, if it is there.
pub fn read_optional_prepare(read: Result<Vec<u8>, RecordReadError>) -> (record: Result<
    Option<PrepareRecord>,
    RecordReadError,
>)
    ensures
        is_optional_prepare(optional_prepare_view(record), read),
{
    match read {
        Ok(bytes) => match decode_prepare(bytes.as_slice()) {
            Some(record) => Ok(Some(record)),
            None => Err(RecordReadError::Corrupt),
        },
        Err(RecordReadError::Io(_, IoFault::NotFound)) => Ok(None),
        Err(error) => Err(error),
    }
}

/// What the record of an activation holds, if it is there.
pub open spec fn is_optional_active(
    record: Result<Option<PrepareView>, ReadFault>,
    read: Result<Vec<u8>, RecordReadError>,
) -> bool {
    match record {
        Ok(None) => is_missing(read),
        Ok(Some(found)) => read matches Ok(bytes) && bytes@ == active_bytes(found) && is_binding(
            found,
        ),
        Err(fault) => match read {
            Ok(bytes) => fault == ReadFault::Corrupt && forall|any: PrepareView|
                is_binding(any) ==> bytes@ != #[trigger] active_bytes(any),
            Err(error) => !is_missing(read) && fault == error@,
        },
    }
}

/// The content of what was read.
pub open spec fn optional_active_view(record: Result<Option<ActiveRecord>, RecordReadError>)
    -> Result<Option<PrepareView>, ReadFault> {
    match record {
        Ok(Some(found)) => Ok(Some(found.prepare@)),
        Ok(None) => Ok(None),
        Err(error) => Err(error@),
    }
}

/// Reads the record of an activation, if it is there.
pub fn read_optional_active(read: Result<Vec<u8>, RecordReadError>) -> (record: Result<
    Option<ActiveRecord>,
    RecordReadError,
>)
    ensures
        is_optional_active(optional_active_view(record), read),
{
    match read {
        Ok(bytes) => match decode_active(bytes.as_slice()) {
            Some(record) => Ok(Some(record)),
            None => Err(RecordReadError::Corrupt),
        },
        Err(RecordReadError::Io(_, IoFault::NotFound)) => Ok(None),
        Err(error) => Err(error),
    }
}

/// Reads a claim, if it is there.
pub fn read_optional_authority(read: Result<Vec<u8>, RecordReadError>) -> (record: Result<
    Option<AuthorityRecord>,
    RecordReadError,
>)
    ensures
        match record {
            Ok(None) => is_missing(read),
            Ok(Some(found)) => read matches Ok(bytes) && bytes@ == authority_bytes(found@)
                && is_storable(found@.selected),
            Err(error) => match read {
                Ok(bytes) => error@ == ReadFault::Corrupt && forall|any: ClaimView|
                    is_storable(any.selected) ==> bytes@ != #[trigger] authority_bytes(any),
                Err(given) => !is_missing(read) && error == given,
            },
        },
{
    match read {
        Ok(bytes) => match decode_authority(bytes.as_slice()) {
            Some(record) => Ok(Some(record)),
            None => Err(RecordReadError::Corrupt),
        },
        Err(RecordReadError::Io(_, IoFault::NotFound)) => Ok(None),
        Err(error) => Err(error),
    }
}

/// What the records of an anchor say, before the store is looked at.
#[derive(Debug)]
pub enum Discovery {
    /// There is no trace of an activation.
    NeverActivated,
    /// The records contradict themselves.
    CorruptOrReplaced,
    /// One was started.
    CheckPreparing(PrepareRecord),
    /// One was completed.
    CheckActivated(ActiveRecord),
}

/// The records that were read and the state that follows from them.
pub open spec fn is_discovery(
    outcome: Result<Discovery, StoreActivationError>,
    active: Result<Option<PrepareView>, ReadFault>,
    prepare: Result<Option<PrepareView>, ReadFault>,
) -> bool {
    match active {
        Err(ReadFault::Corrupt) => outcome matches Ok(Discovery::CorruptOrReplaced),
        Err(fault) => outcome matches Err(error) && error@ == read_refusal(fault),
        Ok(Some(complete)) => match prepare {
            Ok(Some(started)) => if same_preparation(started, complete) {
                outcome matches Ok(Discovery::CheckActivated(found)) && found.prepare@ == complete
            } else {
                outcome matches Ok(Discovery::CorruptOrReplaced)
            },
            Ok(None) => outcome matches Ok(Discovery::CorruptOrReplaced),
            Err(ReadFault::Corrupt) => outcome matches Ok(Discovery::CorruptOrReplaced),
            Err(fault) => outcome matches Err(error) && error@ == read_refusal(fault),
        },
        Ok(None) => match prepare {
            Ok(Some(started)) => outcome matches Ok(Discovery::CheckPreparing(found)) && found@
                == started,
            Ok(None) => outcome matches Ok(Discovery::NeverActivated),
            Err(ReadFault::Corrupt) => outcome matches Ok(Discovery::CorruptOrReplaced),
            Err(fault) => outcome matches Err(error) && error@ == read_refusal(fault),
        },
    }
}

/// What follows from the records of an anchor.
pub fn discover(
    active: Result<Option<ActiveRecord>, RecordReadError>,
    prepare: Result<Option<PrepareRecord>, RecordReadError>,
) -> (discovery: Result<Discovery, StoreActivationError>)
    ensures
        is_discovery(discovery, optional_active_view(active), optional_prepare_view(prepare)),
{
    match active {
        Err(RecordReadError::Corrupt) => Ok(Discovery::CorruptOrReplaced),
        Err(error) => Err(store_error_from_record_read(error)),
        Ok(Some(complete)) => match prepare {
            Ok(Some(started)) => if started.same(&complete.prepare) {
                Ok(Discovery::CheckActivated(complete))
            } else {
                Ok(Discovery::CorruptOrReplaced)
            },
            Ok(None) => Ok(Discovery::CorruptOrReplaced),
            Err(RecordReadError::Corrupt) => Ok(Discovery::CorruptOrReplaced),
            Err(error) => Err(store_error_from_record_read(error)),
        },
        Ok(None) => match prepare {
            Ok(Some(started)) => Ok(Discovery::CheckPreparing(started)),
            Ok(None) => Ok(Discovery::NeverActivated),
            Err(RecordReadError::Corrupt) => Ok(Discovery::CorruptOrReplaced),
            Err(error) => Err(store_error_from_record_read(error)),
        },
    }
}

/// What opening the recorded store came to.
#[derive(Clone, Copy, Debug, PartialEq, Eq, Structural)]
pub enum RecordedStore {
    Open,
    Lost,
    Corrupt,
}

/// The store is there, and not what it has to be.
pub open spec fn is_evidence(fault: StoreFault) -> bool {
    fault is InvalidPath || fault is UnsafeDirectory || fault is UnsafeWal || fault is MissingWal
}

/// Decides what opening the recorded store came to. What may pass is no
/// evidence of anything.
pub fn open_recorded_store(opened: Result<(), StoreError>) -> (store: Result<
    RecordedStore,
    StoreActivationError,
>)
    ensures
        match opened {
            Ok(_) => store == Ok::<RecordedStore, StoreActivationError>(RecordedStore::Open),
            Err(error) => if error@ is MissingStore {
                store == Ok::<RecordedStore, StoreActivationError>(RecordedStore::Lost)
            } else if is_evidence(error@) {
                store == Ok::<RecordedStore, StoreActivationError>(RecordedStore::Corrupt)
            } else {
                store matches Err(refusal) && refusal@ == ActivationFault::Store(error@)
            },
        },
{
    match opened {
        Ok(_) => Ok(RecordedStore::Open),
        Err(StoreError::MissingStore { .. }) => Ok(RecordedStore::Lost),
        Err(StoreError::InvalidPath(_)) => Ok(RecordedStore::Corrupt),
        Err(StoreError::UnsafeDirectory { .. }) => Ok(RecordedStore::Corrupt),
        Err(StoreError::UnsafeWal { .. }) => Ok(RecordedStore::Corrupt),
        Err(StoreError::MissingWal { .. }) => Ok(RecordedStore::Corrupt),
        Err(error) => Err(StoreActivationError::Store(error)),
    }
}

/// What is seen of an open store: its file system, what it is, whether it still
/// is where it was, and its marker.
#[derive(Debug)]
pub struct StoreProbe {
    pub backend: CertifiedLocalBackend,
    pub identity: Option<StrongObjectIdentity>,
    pub revalidated: Result<(), StoreError>,
    pub binding: Result<Vec<u8>, RecordReadError>,
}

/// The store is the recorded one, or why that is not known.
pub open spec fn store_match(probe: StoreProbe, store: BoundView) -> Result<
    bool,
    ActivationFault,
> {
    if probe.backend != store.backend {
        Ok(false)
    } else {
        match probe.identity {
            None => Err(ActivationFault::Identity),
            Some(identity) => if identity != store.identity {
                Ok(false)
            } else {
                match probe.revalidated {
                    Ok(_) => Ok(true),
                    Err(error) => if error@ is MissingStore || is_evidence(error@) {
                        Ok(false)
                    } else {
                        Err(ActivationFault::Store(error@))
                    },
                }
            },
        }
    }
}

/// Whether the store is the recorded one.
pub fn classify_store_binding(
    backend: CertifiedLocalBackend,
    identity: Option<StrongObjectIdentity>,
    revalidated: Result<(), StoreError>,
    store: &BoundObject,
) -> (matches: Result<bool, StoreActivationError>)
    ensures
        forall|binding: Result<Vec<u8>, RecordReadError>|
            match #[trigger] store_match(
                StoreProbe { backend, identity, revalidated, binding },
                store@,
            ) {
                Ok(yes) => matches == Ok::<bool, StoreActivationError>(yes),
                Err(fault) => matches matches Err(error) && error@ == fault,
            },
{
    if backend != store.backend {
        return Ok(false);
    }
    match identity {
        Some(found) => if found != store.identity {
            return Ok(false);
        },
        None => {
            return Err(StoreActivationError::Identity);
        },
    }
    match open_recorded_store(revalidated)? {
        RecordedStore::Open => Ok(true),
        _ => Ok(false),
    }
}

/// What the marker of a store means while its activation is being prepared: it
/// may be missing, and has to be right where it is not.
pub open spec fn marker_allows_preparing(
    binding: Result<Vec<u8>, RecordReadError>,
    prepare: PrepareView,
) -> Result<bool, ActivationFault> {
    if is_missing(binding) {
        Ok(true)
    } else {
        match binding {
            Ok(bytes) => Ok(bytes@ == active_bytes(prepare)),
            Err(RecordReadError::Corrupt) => Ok(false),
            Err(error) => Err(read_refusal(error@)),
        }
    }
}

/// What the marker of a store means once it is activated: it has to be there and
/// to be right.
pub open spec fn marker_confirms(
    binding: Result<Vec<u8>, RecordReadError>,
    prepare: PrepareView,
) -> Result<bool, ActivationFault> {
    if is_missing(binding) {
        Ok(false)
    } else {
        match binding {
            Ok(bytes) => Ok(bytes@ == active_bytes(prepare)),
            Err(RecordReadError::Corrupt) => Ok(false),
            Err(error) => Err(read_refusal(error@)),
        }
    }
}

/// Whether the marker of a store fits its record. A missing one fits as told.
fn marker_fits(
    binding: Result<Vec<u8>, RecordReadError>,
    expected: &Vec<u8>,
    when_missing: bool,
) -> (fits: Result<bool, StoreActivationError>)
    ensures
        match fits {
            Ok(yes) => if is_missing(binding) {
                yes == when_missing
            } else {
                match binding {
                    Ok(bytes) => yes == (bytes@ == expected@),
                    Err(error) => error@ == ReadFault::Corrupt && !yes,
                }
            },
            Err(refusal) => !is_missing(binding) && (binding matches Err(error) && error@
                != ReadFault::Corrupt && refusal@ == read_refusal(error@)),
        },
{
    match binding {
        Ok(bytes) => Ok(bytes_equal(bytes.as_slice(), expected.as_slice())),
        Err(RecordReadError::Io(_, IoFault::NotFound)) => Ok(when_missing),
        Err(RecordReadError::Corrupt) => Ok(false),
        Err(error) => Err(store_error_from_record_read(error)),
    }
}

/// Where the state of an activation stands, or why that is not known.
pub enum Standing {
    Known(StoreActivationKind),
    Unknown(ActivationFault),
}

/// Either part of a check: passed, failed, or not known.
pub open spec fn both(
    store: Result<bool, ActivationFault>,
    marker: Result<bool, ActivationFault>,
    passed: StoreActivationKind,
) -> Standing {
    match store {
        Err(fault) => Standing::Unknown(fault),
        Ok(false) => Standing::Known(StoreActivationKind::CorruptOrReplaced),
        Ok(true) => match marker {
            Err(fault) => Standing::Unknown(fault),
            Ok(false) => Standing::Known(StoreActivationKind::CorruptOrReplaced),
            Ok(true) => Standing::Known(passed),
        },
    }
}

/// The state of an activation whose records name `prepare`, found at
/// `authority`, given its store.
pub open spec fn standing(
    authority: BoundView,
    prepare: PrepareView,
    store: Result<StoreProbe, StoreError>,
    complete: bool,
) -> Standing {
    if !same_object(prepare.authority, authority) {
        Standing::Known(StoreActivationKind::CorruptOrReplaced)
    } else {
        match store {
            Err(error) => if error@ is MissingStore {
                Standing::Known(StoreActivationKind::Lost)
            } else if is_evidence(error@) {
                Standing::Known(StoreActivationKind::CorruptOrReplaced)
            } else {
                Standing::Unknown(ActivationFault::Store(error@))
            },
            Ok(probe) => both(
                store_match(probe, prepare.store),
                if !is_binding(prepare) {
                    Err(ActivationFault::InvalidLocator)
                } else if complete {
                    marker_confirms(probe.binding, prepare)
                } else {
                    marker_allows_preparing(probe.binding, prepare)
                },
                if complete {
                    StoreActivationKind::Activated
                } else {
                    StoreActivationKind::Preparing
                },
            ),
        }
    }
}

/// The outcome is the standing.
pub open spec fn is_standing(
    outcome: Result<StoreActivationKind, StoreActivationError>,
    standing: Standing,
) -> bool {
    match standing {
        Standing::Known(kind) => outcome == Ok::<StoreActivationKind, StoreActivationError>(kind),
        Standing::Unknown(fault) => outcome matches Err(error) && error@ == fault,
    }
}

fn classify(
    authority: &BoundObject,
    active: &ActiveRecord,
    store: Result<StoreProbe, StoreError>,
    complete: bool,
) -> (kind: Result<StoreActivationKind, StoreActivationError>)
    ensures
        is_standing(kind, standing(authority@, active.prepare@, store, complete)),
{
    if !active.prepare.authority.same(authority) {
        return Ok(StoreActivationKind::CorruptOrReplaced);
    }
    let probe = match store {
        Ok(probe) => probe,
        Err(error) => {
            return match open_recorded_store(Err(error))? {
                RecordedStore::Lost => Ok(StoreActivationKind::Lost),
                _ => Ok(StoreActivationKind::CorruptOrReplaced),
            };
        },
    };
    let ghost seen = probe;
    let matched = classify_store_binding(
        probe.backend,
        probe.identity,
        probe.revalidated,
        &active.prepare.store,
    );
    assert(seen == (StoreProbe {
        backend: seen.backend,
        identity: seen.identity,
        revalidated: seen.revalidated,
        binding: seen.binding,
    }));
    if !matched? {
        return Ok(StoreActivationKind::CorruptOrReplaced);
    }
    let expected = match encode_active(active) {
        Ok(bytes) => bytes,
        Err(error) => {
            return Err(unrecordable(error));
        },
    };
    if !marker_fits(probe.binding, &expected, !complete)? {
        return Ok(StoreActivationKind::CorruptOrReplaced);
    }
    if complete {
        Ok(StoreActivationKind::Activated)
    } else {
        Ok(StoreActivationKind::Preparing)
    }
}

/// The state of an activation that was started.
pub fn classify_preparing(
    authority: &BoundObject,
    prepare: &PrepareRecord,
    store: Result<StoreProbe, StoreError>,
) -> (kind: Result<StoreActivationKind, StoreActivationError>)
    ensures
        is_standing(kind, standing(authority@, prepare@, store, false)),
{
    let active = ActiveRecord { prepare: prepare.clone() };
    classify(authority, &active, store, false)
}

/// The state of an activation that was completed, before the anchor is looked at
/// once more and everything is made durable.
pub fn validate_activated(
    authority: &BoundObject,
    active: &ActiveRecord,
    store: Result<StoreProbe, StoreError>,
) -> (kind: Result<StoreActivationKind, StoreActivationError>)
    ensures
        is_standing(kind, standing(authority@, active.prepare@, store, true)),
{
    classify(authority, active, store, true)
}

/// Why a store that is activated is not used.
pub open spec fn settle_fault(
    anchor: Result<(), StoreActivationError>,
    store_synced: bool,
    anchor_synced: bool,
) -> Option<ActivationFault> {
    match anchor {
        Err(error) => Some(error@),
        Ok(_) => if !store_synced {
            Some(ActivationFault::SyncUncertain("activated store directory"@))
        } else {
            sync_fault(anchor_synced, "activation anchor directory"@)
        },
    }
}

/// Ends the check of a store that is activated: the anchor is still where it
/// was, and both are durable.
pub fn settle_activated(
    anchor: Result<(), StoreActivationError>,
    store_synced: bool,
    anchor_synced: bool,
) -> (outcome: Result<(), StoreActivationError>)
    ensures
        refused_as(outcome, settle_fault(anchor, store_synced, anchor_synced)),
{
    anchor?;
    if !store_synced {
        return Err(StoreActivationError::SyncUncertain("activated store directory"));
    }
    if !anchor_synced {
        return Err(StoreActivationError::SyncUncertain("activation anchor directory"));
    }
    Ok(())
}

/// Why no store can be activated at the desired place.
pub open spec fn support_fault(
    desired: Seq<u8>,
    probe: Result<CertifiedLocalBackend, StoreError>,
) -> Option<ActivationFault> {
    if !is_locator(desired) {
        Some(ActivationFault::InvalidLocator)
    } else {
        match probe {
            Ok(_) => None,
            Err(StoreError::ParentBackend { reason, .. }) => Some(
                ActivationFault::Backend(reason),
            ),
            Err(error) => Some(ActivationFault::Store(error@)),
        }
    }
}

/// Requires that a store can be activated at the desired place.
pub fn probe_desired_store_support(
    desired: &[u8],
    probe: Result<CertifiedLocalBackend, StoreError>,
) -> (outcome: Result<(), StoreActivationError>)
    ensures
        refused_as(outcome, support_fault(desired@, probe)),
{
    if !validate_absolute_locator(desired) {
        return Err(StoreActivationError::InvalidLocator);
    }
    match probe {
        Ok(_) => Ok(()),
        Err(StoreError::ParentBackend { reason, .. }) => Err(
            StoreActivationError::Backend(reason),
        ),
        Err(error) => Err(StoreActivationError::Store(error)),
    }
}

/// Requires that an activation that was started can be gone on with.
pub fn require_preparing(kind: StoreActivationKind) -> (outcome: Result<(), StoreActivationError>)
    ensures
        refused_as(
            outcome,
            if kind == StoreActivationKind::Preparing {
                None
            } else {
                Some(ActivationFault::NotResumable)
            },
        ),
{
    match kind {
        StoreActivationKind::Preparing => Ok(()),
        _ => Err(StoreActivationError::NotResumable),
    }
}

/// Requires that an activation is complete.
pub fn require_activated(kind: StoreActivationKind) -> (outcome: Result<(), StoreActivationError>)
    ensures
        refused_as(
            outcome,
            if kind == StoreActivationKind::Activated {
                None
            } else {
                Some(ActivationFault::NotResumable)
            },
        ),
{
    match kind {
        StoreActivationKind::Activated => Ok(()),
        _ => Err(StoreActivationError::NotResumable),
    }
}

/// The record that starts the activation of a store that was just made.
pub fn new_prepare_record(
    claim: &AuthorityRecord,
    authority: &BoundObject,
    desired_store: &[u8],
    identity: Option<StrongObjectIdentity>,
    backend: CertifiedLocalBackend,
) -> (record: Result<PrepareRecord, StoreActivationError>)
    ensures
        refused_as(
            record,
            if identity is None {
                Some(ActivationFault::Identity)
            } else {
                None
            },
        ),
        record matches Ok(made) ==> made@ == (PrepareView {
            activation_id: claim@.selection_id,
            authority: authority@,
            store: BoundView { locator: desired_store@, identity: identity->0, backend },
        }),
{
    let identity = match identity {
        Some(identity) => identity,
        None => {
            return Err(StoreActivationError::Identity);
        },
    };
    Ok(
        PrepareRecord {
            activation_id: claim.selection_id,
            authority: authority.clone(),
            store: BoundObject { locator: to_vec(desired_store), identity, backend },
        },
    )
}

/// A store counts as activated only where everything agrees: the anchor and the
/// store are the recorded ones, and the marker repeats the record.
pub proof fn law_activation_needs_every_record(
    authority: BoundView,
    prepare: PrepareView,
    store: Result<StoreProbe, StoreError>,
)
    ensures
        standing(authority, prepare, store, true) == Standing::Known(
            StoreActivationKind::Activated,
        ) <==> is_binding(prepare) && same_object(prepare.authority, authority) && (store matches Ok(probe) && probe.backend
            == prepare.store.backend && probe.identity == Some(prepare.store.identity)
            && probe.revalidated is Ok && (probe.binding matches Ok(bytes) && bytes@
            == active_bytes(prepare))),
{
}

/// A store that is gone is never taken for one that never was: where there is a
/// record, the state is not that of an anchor without one.
pub proof fn law_records_are_never_forgotten(
    authority: BoundView,
    prepare: PrepareView,
    store: Result<StoreProbe, StoreError>,
    complete: bool,
)
    ensures
        standing(authority, prepare, store, complete) != Standing::Known(
            StoreActivationKind::NeverActivated,
        ),
{
}

/// An activation counts as started only where the anchor and the store are the
/// recorded ones, and the marker of the store, where there is one, repeats the
/// record.
pub proof fn law_preparing_needs_the_recorded_store(
    authority: BoundView,
    prepare: PrepareView,
    store: Result<StoreProbe, StoreError>,
)
    ensures
        standing(authority, prepare, store, false) == Standing::Known(
            StoreActivationKind::Preparing,
        ) <==> is_binding(prepare) && same_object(prepare.authority, authority) && (
        store matches Ok(probe) && probe.backend == prepare.store.backend && probe.identity == Some(
            prepare.store.identity,
        ) && probe.revalidated is Ok && ((probe.binding matches Ok(bytes) && bytes@ == active_bytes(
            prepare,
        )) || (probe.binding matches Err(RecordReadError::Io(_, IoFault::NotFound))))),
{
}

/// A store is lost exactly where the anchor is the recorded one and the store is
/// not there; a store that is there and is another one, or is not sound, was
/// replaced.
pub proof fn law_lost_is_not_replaced(
    authority: BoundView,
    prepare: PrepareView,
    store: Result<StoreProbe, StoreError>,
    complete: bool,
)
    ensures
        standing(authority, prepare, store, complete) == Standing::Known(StoreActivationKind::Lost)
            <==> same_object(prepare.authority, authority) && (store matches Err(error) && error@
            is MissingStore),
        !same_object(prepare.authority, authority) ==> standing(authority, prepare, store, complete)
            == Standing::Known(StoreActivationKind::CorruptOrReplaced),
        same_object(prepare.authority, authority) && (store matches Ok(probe) && (probe.backend
            != prepare.store.backend || (probe.identity is Some && probe.identity != Some(
            prepare.store.identity,
        )))) ==> standing(authority, prepare, store, complete) == Standing::Known(
            StoreActivationKind::CorruptOrReplaced,
        ),
{
}

/// A store that is activated is used only where the anchor is still bound and both
/// are durable.
pub proof fn law_activated_stores_are_durable(
    anchor: Result<(), StoreActivationError>,
    store_synced: bool,
    anchor_synced: bool,
)
    ensures
        settle_fault(anchor, store_synced, anchor_synced) is None <==> anchor is Ok && store_synced
            && anchor_synced,
{
}

/// What follows from the records of an anchor: no records mean that there never was
/// an activation, one that was started and not completed is checked as such, and a
/// completed one is checked only where both records are of the same activation.
/// Anything else is no state to go on from.
pub proof fn law_records_decide(
    outcome: Result<Discovery, StoreActivationError>,
    active: Result<Option<PrepareView>, ReadFault>,
    prepare: Result<Option<PrepareView>, ReadFault>,
)
    requires
        is_discovery(outcome, active, prepare),
    ensures
        (outcome matches Ok(Discovery::NeverActivated)) <==> active == Ok::<
            Option<PrepareView>,
            ReadFault,
        >(None) && prepare == Ok::<Option<PrepareView>, ReadFault>(None),
        (outcome matches Ok(Discovery::CheckPreparing(found))) ==> active == Ok::<
            Option<PrepareView>,
            ReadFault,
        >(None) && (prepare matches Ok(Some(started)) && outcome->Ok_0->CheckPreparing_0@
            == started),
        (outcome matches Ok(Discovery::CheckActivated(found))) ==> (active matches Ok(Some(complete))
            && outcome->Ok_0->CheckActivated_0.prepare@ == complete && (prepare matches Ok(
            Some(started),
        ) && started.activation_id == complete.activation_id && same_object(
            started.authority,
            complete.authority,
        ) && same_object(started.store, complete.store))),
        (active matches Ok(Some(complete))) && prepare == Ok::<Option<PrepareView>, ReadFault>(None)
            ==> (outcome matches Ok(Discovery::CorruptOrReplaced)),
{
}

} // verus!
