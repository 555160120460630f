use degu_core::activation::anchor::admit_anchor;
use degu_core::activation::anchor::admit_lock;
use degu_core::activation::anchor::lock_is_present;
use degu_core::activation::anchor::lock_place;
use degu_core::activation::anchor::require_anchor_present;
use degu_core::activation::anchor::require_lock;
use degu_core::activation::anchor::validate_activation_anchor_binding;
use degu_core::activation::anchor::require_anchor_parent;
use degu_core::activation::anchor::require_lock_parent;
use degu_core::activation::anchor::AnchorOpening;
use degu_core::activation::anchor::AnchorProbe;
use degu_core::activation::anchor::OpeningStage;
use degu_core::activation::anchor::BindingProbe;
use degu_core::activation::anchor::LockFault;
use degu_core::activation::anchor::LockProbe;
use degu_core::activation::discovery::classify_preparing;
use degu_core::activation::discovery::discover;
use degu_core::activation::discovery::open_recorded_store;
use degu_core::activation::discovery::probe_desired_store_support;
use degu_core::activation::discovery::read_optional_active;
use degu_core::activation::discovery::read_optional_authority;
use degu_core::activation::discovery::read_optional_prepare;
use degu_core::activation::discovery::settle_activated;
use degu_core::activation::discovery::validate_activated;
use degu_core::activation::discovery::Discovery;
use degu_core::activation::discovery::RecordedStore;
use degu_core::activation::discovery::StoreActivationKind;
use degu_core::activation::discovery::StoreProbe;
use degu_core::activation::error::IoFault;
use degu_core::activation::error::RecordReadError;
use degu_core::activation::error::RecordValidationError;
use degu_core::activation::error::StoreActivationError;
use degu_core::activation::error::StoreError;
use degu_core::activation::publication::begin_publication;
use degu_core::activation::publication::check_written;
use degu_core::activation::publication::read_exact_record;
use degu_core::activation::publication::temporary_name;
use degu_core::activation::publication::validate_record_binding;
use degu_core::activation::publication::validate_record_fd;
use degu_core::activation::publication::FileClass;
use degu_core::activation::publication::FileStat;
use degu_core::activation::publication::RecordPublication;
use degu_core::activation::publication::RecordStage;
use degu_core::activation::publication::PublicationStart;
use degu_core::activation::publication::RecordProbe;
use degu_core::activation::publication::WriteProbe;
use degu_core::activation::publication::TEMPORARY_NAME_ATTEMPTS;
use degu_core::activation::record::decode_active;
use degu_core::activation::record::decode_authority;
use degu_core::activation::record::decode_prepare;
use degu_core::activation::record::encode_active;
use degu_core::activation::record::encode_authority;
use degu_core::activation::record::encode_prepare;
use degu_core::activation::record::validate_absolute_locator;
use degu_core::activation::record::ActiveRecord;
use degu_core::activation::record::AuthorityRecord;
use degu_core::activation::record::BoundObject;
use degu_core::activation::record::InvalidLocator;
use degu_core::activation::record::PrepareRecord;
use degu_core::activation::resume::ActivationStage;
use degu_core::activation::resume::require_marked_store;
use degu_core::activation::resume::Activating;
use degu_core::activation::resume::NewStoreProbe;
use degu_core::activation::selection::activation_step;
use degu_core::activation::selection::check_current_euid_authority_readiness;
use degu_core::activation::selection::choose_authority;
use degu_core::activation::selection::claimed_authority_choice;
use degu_core::activation::selection::ensure_authority_claim;
use degu_core::activation::selection::initialize_current_euid_self_authority;
use degu_core::activation::selection::plan_claim;
use degu_core::activation::selection::probed_step;
use degu_core::activation::selection::require_current_self_path;
use degu_core::activation::selection::select_authority_pair;
use degu_core::activation::selection::ActivationAnchorLocator;
use degu_core::activation::selection::ActivationAuthorityMode;
use degu_core::activation::selection::ActivationStep;
use degu_core::activation::selection::AnchorKind;
use degu_core::activation::selection::AuthorityCandidate;
use degu_core::activation::selection::AuthorityChoice;
use degu_core::activation::selection::ProbedStep;
use degu_core::activation::selection::SelfAuthorityInitializationError;
use degu_core::activation::selection::ClaimPublication;
use degu_core::activation::selection::ClaimStage;
use degu_core::activation::selection::SelfInitialization;
use degu_core::activation_anchor_provisioning::error::ActivationAnchorProvisioningError;
use degu_core::activation_anchor_provisioning::plan::ActivationAnchorProvisioningOutcome;
use degu_core::activation_anchor_provisioning::plan::ActivationAnchorProvisioningStatus;
use degu_core::anchor_layout::AnchorPlatform;
use degu_core::anchor_layout::SelfAnchorRootError;
use degu_core::backend::certify::CertificationError;
use degu_core::backend::certify::CertifiedLocalBackend;
use degu_core::backend::held::inventory::StrongObjectIdentity;

const SYSTEM: &[u8] = b"/var/lib/degu/store-activation/10";
const OWN: &[u8] = b"/home/someone/.local/state/degu/store-activation/10";
const EUID: u32 = 10;

fn identity(inode: u64) -> StrongObjectIdentity {
    StrongObjectIdentity {
        device: 1,
        inode,
        incarnation: inode,
        mount_id: 7,
    }
}

fn object(locator: &[u8], inode: u64) -> BoundObject {
    BoundObject {
        locator: locator.to_vec(),
        identity: identity(inode),
        backend: CertifiedLocalBackend::Ext4,
    }
}

fn preparation() -> PrepareRecord {
    PrepareRecord {
        activation_id: [5; 32],
        authority: object(SYSTEM, 1),
        store: object(b"/store", 2),
    }
}

fn claim(selected: BoundObject, id: u8) -> AuthorityRecord {
    AuthorityRecord {
        selection_id: [id; 32],
        selected,
    }
}

fn missing<T>() -> Result<T, RecordReadError> {
    Err(RecordReadError::Io(b"/record".to_vec(), IoFault::NotFound))
}

#[test]
fn a_record_is_read_back_as_it_was_written() {
    let prepare = preparation();
    let bytes = encode_prepare(&prepare).unwrap();
    assert_eq!(&bytes[..8], b"DGUAPRP1");
    assert_eq!(&bytes[8..40], &[5; 32]);
    assert_eq!(&bytes[40..44], &(SYSTEM.len() as u32).to_be_bytes());
    assert_eq!(bytes.len(), 8 + 32 + 2 * (4 + 32 + 1) + SYSTEM.len() + 6);
    assert!(decode_prepare(&bytes).unwrap().same(&prepare));
    let active = ActiveRecord {
        prepare: preparation(),
    };
    let bytes = encode_active(&active).unwrap();
    assert_eq!(&bytes[..8], b"DGUACTV1");
    assert!(decode_active(&bytes).unwrap().prepare.same(&prepare));
    let authority = claim(object(OWN, 3), 9);
    let bytes = encode_authority(&authority).unwrap();
    assert_eq!(&bytes[..8], b"DGUAUTH1");
    assert!(decode_authority(&bytes).unwrap().same(&authority));
}

#[test]
fn records_are_told_apart_and_nothing_else_is_one() {
    let bytes = encode_prepare(&preparation()).unwrap();
    assert!(decode_active(&bytes).is_none());
    assert!(decode_authority(&bytes).is_none());
    let mut longer = bytes.clone();
    longer.push(0);
    assert!(decode_prepare(&longer).is_none());
    assert!(decode_prepare(&bytes[..bytes.len() - 1]).is_none());
    let mut relative = preparation();
    relative.store.locator = b"store".to_vec();
    assert_eq!(encode_prepare(&relative), Err(InvalidLocator));
    let mut backend = bytes.clone();
    let last = backend.len() - 1;
    backend[last] = 9;
    assert!(decode_prepare(&backend).is_none());
}

#[test]
fn a_locator_is_absolute_and_has_no_dots() {
    for valid in [b"/a".as_slice(), b"/a/b", b"//a"] {
        assert!(validate_absolute_locator(valid));
    }
    for invalid in [b"a".as_slice(), b"", b"/", b"/a/../b", b"/.."] {
        assert!(!validate_absolute_locator(invalid));
    }
}

fn file(inode: u64) -> FileStat {
    FileStat {
        class: FileClass::Regular,
        device: 1,
        inode,
        uid: EUID,
        mode: 0o600,
        links: 1,
    }
}

fn record_probe(bytes: Vec<u8>) -> RecordProbe {
    RecordProbe {
        opened: Ok(()),
        stat: Ok(file(4)),
        acl: Ok(()),
        bytes: Ok(bytes),
        stat_again: Ok(file(4)),
        entry: Ok(file(4)),
        euid: EUID,
    }
}

#[test]
fn a_record_file_is_private_and_bound_to_its_name() {
    assert_eq!(validate_record_fd(Ok(file(4)), Ok(()), EUID), Ok(()));
    for stat in [
        FileStat {
            mode: 0o644,
            ..file(4)
        },
        FileStat {
            links: 2,
            ..file(4)
        },
        FileStat { uid: 11, ..file(4) },
        FileStat {
            class: FileClass::Other,
            ..file(4)
        },
    ] {
        assert_eq!(
            validate_record_fd(Ok(stat), Ok(()), EUID),
            Err(RecordValidationError::Corrupt)
        );
    }
    assert_eq!(
        validate_record_fd(Ok(file(4)), Err(CertificationError::AclProbeUnknown), EUID),
        Err(RecordValidationError::Inspection(
            CertificationError::AclProbeUnknown
        ))
    );
    assert_eq!(
        validate_record_binding(Ok(file(4)), Ok(file(5))),
        Err(RecordValidationError::Corrupt)
    );
    assert_eq!(
        validate_record_binding(Ok(file(4)), Err(IoFault::Os(5))),
        Err(RecordValidationError::Io(IoFault::Os(5)))
    );
}

#[test]
fn a_record_is_read_once_it_is_trusted() {
    assert_eq!(
        read_exact_record(b"/anchor", "name", record_probe(b"bytes".to_vec())).unwrap(),
        b"bytes"
    );
    assert!(matches!(
        read_exact_record(
            b"/anchor",
            "name",
            RecordProbe {
                opened: Err(IoFault::NotFound),
                ..record_probe(vec![])
            }
        ),
        Err(RecordReadError::Io(path, IoFault::NotFound)) if path == b"/anchor/name"
    ));
    for probe in [
        RecordProbe {
            opened: Err(IoFault::Loop),
            ..record_probe(vec![])
        },
        RecordProbe {
            entry: Ok(file(9)),
            ..record_probe(vec![])
        },
        record_probe(vec![0; 131_073]),
    ] {
        assert!(matches!(
            read_exact_record(b"/anchor", "name", probe),
            Err(RecordReadError::Corrupt)
        ));
    }
}

#[test]
fn a_published_record_stays() {
    assert_eq!(
        begin_publication(missing(), b"new").unwrap(),
        PublicationStart::Write
    );
    assert_eq!(
        begin_publication(Ok(b"new".to_vec()), b"new").unwrap(),
        PublicationStart::AlreadyThere
    );
    assert!(matches!(
        begin_publication(Ok(b"old".to_vec()), b"new"),
        Err(StoreActivationError::NotResumable)
    ));
    assert_eq!(
        temporary_name("sealed-staging.active", 42, 7),
        b".sealed-staging.active.tmp-42-7"
    );
    let mut full = publication(missing());
    for _ in 1..TEMPORARY_NAME_ATTEMPTS {
        full.opened(b"taken", Err(IoFault::Exists)).unwrap();
        assert_eq!(full.next(), RecordStage::Open);
    }
    assert!(matches!(
        full.opened(b"taken", Err(IoFault::Exists)),
        Err(StoreActivationError::Io {
            path,
            fault: IoFault::Other("activation temporary names are exhausted")
        }) if path == b"/anchor"
    ));
    let mut denied = publication(missing());
    assert!(matches!(
        denied.opened(b"free", Err(IoFault::Os(13))),
        Err(StoreActivationError::Io { path, .. }) if path == b"/anchor/free"
    ));
}

fn publication(existing: Result<Vec<u8>, RecordReadError>) -> RecordPublication {
    RecordPublication::begin(existing, b"/anchor", "name", b"new", "boundary").unwrap()
}

fn write_probe() -> WriteProbe {
    WriteProbe {
        chmod: Ok(()),
        written: Ok(()),
        synced: true,
        stat: Ok(file(4)),
        acl: Ok(()),
        euid: EUID,
    }
}

#[test]
fn a_record_is_named_once_it_is_durable() {
    let mut record = publication(missing());
    record.opened(b"free", Ok(())).unwrap();
    assert_eq!(record.next(), RecordStage::Write);
    let unsynced = WriteProbe {
        synced: false,
        ..write_probe()
    };
    assert!(record.written(unsynced).is_err());
    assert_eq!(record.next(), RecordStage::Write);
    record.written(write_probe()).unwrap();
    assert_eq!(record.next(), RecordStage::Name);
    assert!(matches!(
        record.named(Err(IoFault::Exists)),
        Err(StoreActivationError::Io { path, .. }) if path == b"/anchor/name"
    ));
    record.named(Ok(())).unwrap();
    assert_eq!(record.next(), RecordStage::Sync);
    assert!(matches!(
        record.synced(false),
        Err(StoreActivationError::SyncUncertain("boundary"))
    ));
    record.synced(true).unwrap();
    assert_eq!(record.next(), RecordStage::Published);
    assert_eq!(publication(Ok(b"new".to_vec())).next(), RecordStage::Sync);
    assert!(matches!(
        RecordPublication::begin(Ok(b"old".to_vec()), b"/anchor", "name", b"new", "boundary"),
        Err(StoreActivationError::NotResumable)
    ));
}

#[test]
fn what_was_written_is_checked_before_it_is_named() {
    let probe = write_probe;
    assert!(check_written(b"/anchor/t".to_vec(), "boundary", probe()).is_ok());
    assert!(matches!(
        check_written(
            b"/anchor/t".to_vec(),
            "boundary",
            WriteProbe {
                written: Err(IoFault::Os(28)),
                ..probe()
            }
        ),
        Err(StoreActivationError::Io {
            fault: IoFault::Os(28),
            ..
        })
    ));
    assert!(matches!(
        check_written(
            b"/anchor/t".to_vec(),
            "boundary",
            WriteProbe {
                synced: false,
                ..probe()
            }
        ),
        Err(StoreActivationError::SyncUncertain("boundary"))
    ));
}

fn active() -> ActiveRecord {
    ActiveRecord {
        prepare: preparation(),
    }
}

#[test]
fn what_is_found_depends_on_both_records() {
    assert!(matches!(
        discover(Ok(None), Ok(None)),
        Ok(Discovery::NeverActivated)
    ));
    assert!(matches!(
        discover(Ok(None), Ok(Some(preparation()))),
        Ok(Discovery::CheckPreparing(_))
    ));
    assert!(matches!(
        discover(Ok(Some(active())), Ok(Some(preparation()))),
        Ok(Discovery::CheckActivated(_))
    ));
    let mut other = preparation();
    other.activation_id = [6; 32];
    for prepare in [Ok(None), Ok(Some(other)), Err(RecordReadError::Corrupt)] {
        assert!(matches!(
            discover(Ok(Some(active())), prepare),
            Ok(Discovery::CorruptOrReplaced)
        ));
    }
    assert!(matches!(
        discover(
            Ok(None),
            Err(RecordReadError::Io(b"/r".to_vec(), IoFault::Os(5)))
        ),
        Err(StoreActivationError::Io { .. })
    ));
    assert!(matches!(
        discover(
            Err(RecordReadError::Inspection(
                b"/r".to_vec(),
                CertificationError::AclProbeUnknown
            )),
            Ok(None)
        ),
        Err(StoreActivationError::RecordInspection { .. })
    ));
}

#[test]
fn a_missing_record_is_no_record() {
    assert!(matches!(read_optional_prepare(missing()), Ok(None)));
    assert!(matches!(read_optional_active(missing()), Ok(None)));
    assert!(matches!(read_optional_authority(missing()), Ok(None)));
    let bytes = encode_active(&active()).unwrap();
    assert!(matches!(read_optional_active(Ok(bytes.clone())), Ok(Some(_))));
    assert!(matches!(
        read_optional_prepare(Ok(bytes)),
        Err(RecordReadError::Corrupt)
    ));
}

fn store_probe(binding: Result<Vec<u8>, RecordReadError>) -> Result<StoreProbe, StoreError> {
    Ok(StoreProbe {
        backend: CertifiedLocalBackend::Ext4,
        identity: Some(identity(2)),
        revalidated: Ok(()),
        binding,
    })
}

#[test]
fn a_store_is_activated_only_with_every_record() {
    let authority = object(SYSTEM, 1);
    let marker = encode_active(&active()).unwrap();
    let validated = |store| validate_activated(&authority, &active(), store).unwrap();
    assert_eq!(
        validated(store_probe(Ok(marker.clone()))),
        StoreActivationKind::Activated
    );
    assert_eq!(
        validated(store_probe(missing())),
        StoreActivationKind::CorruptOrReplaced
    );
    assert_eq!(
        validated(Err(StoreError::MissingStore {
            path: b"/store".to_vec()
        })),
        StoreActivationKind::Lost
    );
    assert_eq!(
        validated(Err(StoreError::MissingWal {
            path: b"/store".to_vec()
        })),
        StoreActivationKind::CorruptOrReplaced
    );
    let replaced = object(SYSTEM, 99);
    assert_eq!(
        validate_activated(&replaced, &active(), store_probe(Ok(marker.clone()))).unwrap(),
        StoreActivationKind::CorruptOrReplaced
    );
    assert!(matches!(
        validate_activated(&authority, &active(), Err(StoreError::Lease(IoFault::Os(11)))),
        Err(StoreActivationError::Store(_))
    ));
    let preparing = |store| classify_preparing(&authority, &preparation(), store).unwrap();
    assert_eq!(
        preparing(store_probe(missing())),
        StoreActivationKind::Preparing
    );
    assert_eq!(
        preparing(store_probe(Ok(marker))),
        StoreActivationKind::Preparing
    );
    assert_eq!(
        preparing(store_probe(Ok(b"other".to_vec()))),
        StoreActivationKind::CorruptOrReplaced
    );
    assert!(settle_activated(Ok(()), true, true).is_ok());
    assert!(matches!(
        settle_activated(Ok(()), false, true),
        Err(StoreActivationError::SyncUncertain("activated store directory"))
    ));
}

#[test]
fn a_recorded_store_is_open_lost_or_corrupt() {
    assert_eq!(open_recorded_store(Ok(())).unwrap(), RecordedStore::Open);
    assert_eq!(
        open_recorded_store(Err(StoreError::MissingStore {
            path: b"/store".to_vec()
        }))
        .unwrap(),
        RecordedStore::Lost
    );
    assert_eq!(
        open_recorded_store(Err(StoreError::UnsafeWal {
            path: b"/store".to_vec()
        }))
        .unwrap(),
        RecordedStore::Corrupt
    );
    assert!(matches!(
        probe_desired_store_support(
            b"/store",
            Err(StoreError::ParentBackend {
                path: b"/".to_vec(),
                reason: CertificationError::UnsupportedFilesystem,
            })
        ),
        Err(StoreActivationError::Backend(
            CertificationError::UnsupportedFilesystem
        ))
    ));
    assert!(matches!(
        probe_desired_store_support(b"store", Ok(CertifiedLocalBackend::Ext4)),
        Err(StoreActivationError::InvalidLocator)
    ));
}

fn candidate(
    authority: BoundObject,
    state: StoreActivationKind,
    claim: Option<AuthorityRecord>,
) -> Option<AuthorityCandidate> {
    Some(AuthorityCandidate {
        authority,
        state,
        claim,
        prepared: Ok(None),
    })
}

fn never(locator: &[u8], inode: u64) -> Option<AuthorityCandidate> {
    candidate(
        object(locator, inode),
        StoreActivationKind::NeverActivated,
        None,
    )
}

fn lost(locator: &[u8], inode: u64) -> Option<AuthorityCandidate> {
    candidate(object(locator, inode), StoreActivationKind::Lost, None)
}

#[test]
fn evidence_prevails_over_rank() {
    let fresh = Some(StoreActivationKind::NeverActivated);
    let evident = Some(StoreActivationKind::Lost);
    assert_eq!(choose_authority(fresh, fresh), Ok(AuthorityChoice::System));
    assert_eq!(choose_authority(fresh, evident), Ok(AuthorityChoice::SelfManaged));
    assert_eq!(choose_authority(evident, fresh), Ok(AuthorityChoice::System));
    assert_eq!(choose_authority(None, fresh), Ok(AuthorityChoice::SelfManaged));
    assert_eq!(choose_authority(evident, evident), Err(()));
}

#[test]
fn a_split_authority_is_refused() {
    assert!(matches!(
        select_authority_pair(lost(SYSTEM, 1), lost(OWN, 2), SYSTEM, OWN),
        Err(StoreActivationError::SplitAuthority { .. })
    ));
    assert!(matches!(
        select_authority_pair(None, None, SYSTEM, OWN),
        Err(StoreActivationError::NoAuthority { .. })
    ));
    let selection =
        select_authority_pair(never(SYSTEM, 1), never(OWN, 2), SYSTEM, OWN).unwrap();
    assert_eq!(
        selection.mode,
        ActivationAuthorityMode::AdministratorHardened
    );
    assert!(selection.peer.is_some());
    let readiness = check_current_euid_authority_readiness(&selection).unwrap();
    assert_eq!(readiness.path(), SYSTEM);
    assert_eq!(readiness.backend(), CertifiedLocalBackend::Ext4);
    assert_eq!(readiness.activation(), StoreActivationKind::NeverActivated);
}

#[test]
fn a_claim_binds_the_choice() {
    let own = claim(object(OWN, 2), 9);
    let witnessed = candidate(
        object(SYSTEM, 1),
        StoreActivationKind::NeverActivated,
        Some(own.clone()),
    );
    assert_eq!(
        claimed_authority_choice(&witnessed, &never(OWN, 2), SYSTEM, OWN).unwrap(),
        Some(AuthorityChoice::SelfManaged)
    );
    assert!(matches!(
        claimed_authority_choice(&witnessed, &None, SYSTEM, OWN),
        Err(StoreActivationError::SelectedAuthorityLost { selected, witness })
            if selected == OWN && witness == SYSTEM
    ));
    assert!(matches!(
        claimed_authority_choice(&witnessed, &never(OWN, 3), SYSTEM, OWN),
        Err(StoreActivationError::AuthorityClaimInvalid { path }) if path == OWN
    ));
    let conflicting = candidate(
        object(OWN, 2),
        StoreActivationKind::NeverActivated,
        Some(claim(object(OWN, 2), 8)),
    );
    assert!(matches!(
        claimed_authority_choice(&witnessed, &conflicting, SYSTEM, OWN),
        Err(StoreActivationError::SplitAuthority { .. })
    ));
    assert_eq!(
        claimed_authority_choice(&never(SYSTEM, 1), &never(OWN, 2), SYSTEM, OWN).unwrap(),
        None
    );
}

#[test]
fn a_claim_is_stable_once_made() {
    let authority = object(SYSTEM, 1);
    let plan = plan_claim(&authority, &None, None, &Ok(None), [7; 32]).unwrap();
    assert_eq!(plan.record.selection_id, [7; 32]);
    assert_eq!(plan.bytes, encode_authority(&plan.record).unwrap());
    let again = plan_claim(
        &authority,
        &None,
        Some(&plan.record),
        &Ok(None),
        [8; 32],
    )
    .unwrap();
    assert!(again.record.same(&plan.record));
    assert!(matches!(
        plan_claim(
            &authority,
            &None,
            Some(&plan.record),
            &Ok(Some([1; 32])),
            [8; 32]
        ),
        Err(StoreActivationError::AuthorityClaimInvalid { .. })
    ));
    assert_eq!(
        plan_claim(&authority, &None, None, &Ok(Some([3; 32])), [8; 32])
            .unwrap()
            .record
            .selection_id,
        [3; 32]
    );
}

#[test]
fn a_new_claim_draws_a_new_number() {
    let authority = object(SYSTEM, 1);
    let first = ensure_authority_claim(&authority, &None, None, &Ok(None)).unwrap();
    let second = ensure_authority_claim(&authority, &None, None, &Ok(None)).unwrap();
    assert_ne!(first.record.selection_id, second.record.selection_id);
    assert_ne!(first.record.selection_id, [0; 32]);
    assert!(first.record.selected.same(&authority));
}

#[test]
fn a_step_depends_on_what_the_anchor_shows() {
    let step = |own, system| {
        let selection = select_authority_pair(system, own, SYSTEM, OWN).unwrap();
        activation_step(&selection)
    };
    assert!(matches!(
        step(never(OWN, 2), None),
        Err(StoreActivationError::SelfInitializationRequired)
    ));
    assert!(matches!(
        step(None, lost(SYSTEM, 1)),
        Err(StoreActivationError::NotResumable)
    ));
    assert_eq!(step(None, never(SYSTEM, 1)).unwrap(), ActivationStep::Probe);
    assert_eq!(
        step(
            None,
            candidate(object(SYSTEM, 1), StoreActivationKind::Activated, None)
        )
        .unwrap(),
        ActivationStep::HandOut
    );
    assert_eq!(
        step(
            None,
            candidate(object(SYSTEM, 1), StoreActivationKind::Preparing, None)
        )
        .unwrap(),
        ActivationStep::Resume
    );
    assert_eq!(probed_step(Ok(()), true).unwrap(), ProbedStep::Activate);
    assert_eq!(
        probed_step(
            Err(StoreActivationError::Backend(
                CertificationError::UnsupportedFilesystem
            )),
            true
        )
        .unwrap(),
        ProbedStep::Unsupported { see_to_claim: true }
    );
    assert!(probed_step(Err(StoreActivationError::Identity), true).is_err());
}

fn provisioned() -> ActivationAnchorProvisioningOutcome {
    ActivationAnchorProvisioningOutcome {
        path: OWN.to_vec(),
        uid: EUID,
        backend: CertifiedLocalBackend::Ext4,
        status: ActivationAnchorProvisioningStatus::AlreadyProvisioned,
    }
}

#[test]
fn an_account_declares_its_own_anchor() {
    assert!(matches!(
        initialize_current_euid_self_authority(false, &None),
        Err(StoreActivationError::InitialAssertionRequired)
    ));
    assert!(matches!(
        initialize_current_euid_self_authority(true, &never(SYSTEM, 1)),
        Err(StoreActivationError::SystemAuthorityPresent { path }) if path == SYSTEM
    ));
    assert!(initialize_current_euid_self_authority(true, &None).is_ok());
    let own_claim = claim(object(OWN, 2), 9);
    let here = || Ok(OWN.to_vec());
    let mut step = SelfInitialization::provisioned(Ok(provisioned()), here()).unwrap();
    assert!(matches!(
        step.unopposed(&never(SYSTEM, 1)),
        Err(StoreActivationError::SystemAuthorityPresent { .. })
    ));
    step.unopposed(&None).unwrap();
    assert!(matches!(
        step.declare(&None, here()),
        Err(StoreActivationError::AnchorNotProvisioned { .. })
    ));
    assert!(matches!(
        step.declare(&never(OWN, 2), Ok(b"/elsewhere".to_vec())),
        Err(StoreActivationError::AccountBaseChanged { .. })
    ));
    assert!(step.declare(&never(OWN, 2), here()).unwrap());
    let outcome = step.finish(Ok(own_claim.clone()), here()).unwrap();
    assert!(outcome.declared);
    assert!(outcome.mutated());

    let mut again = SelfInitialization::provisioned(Ok(provisioned()), here()).unwrap();
    again.unopposed(&None).unwrap();
    let declared = candidate(
        object(OWN, 2),
        StoreActivationKind::NeverActivated,
        Some(own_claim.clone()),
    );
    assert!(!again.declare(&declared, here()).unwrap());
    let outcome = again.finish(Ok(own_claim), here()).unwrap();
    assert!(!outcome.mutated());

    let mut broken = SelfInitialization::provisioned(Ok(provisioned()), here()).unwrap();
    broken.unopposed(&None).unwrap();
    broken.declare(&never(OWN, 2), here()).unwrap();
    assert!(matches!(
        broken.finish(Err(StoreActivationError::Identity), here()),
        Err(StoreActivationError::Identity)
    ));
    assert!(matches!(
        SelfInitialization::provisioned(
            Err(ActivationAnchorProvisioningError::NotRoot),
            here()
        ),
        Err(SelfAuthorityInitializationError::Provision(
            ActivationAnchorProvisioningError::NotRoot
        ))
    ));
    assert!(matches!(
        SelfInitialization::provisioned(Ok(provisioned()), Ok(b"/elsewhere".to_vec())),
        Err(SelfAuthorityInitializationError::Authority(
            StoreActivationError::AccountBaseChanged { .. }
        ))
    ));
    assert!(require_current_self_path(OWN, Ok([OWN, b"/"].concat())).is_ok());
    assert!(matches!(
        require_current_self_path(OWN, Ok(b"/elsewhere".to_vec())),
        Err(StoreActivationError::AccountBaseChanged { .. })
    ));
    assert!(matches!(
        require_current_self_path(OWN, Err(SelfAnchorRootError::AccountMissing)),
        Err(StoreActivationError::AccountBase(
            SelfAnchorRootError::AccountMissing
        ))
    ));
}

#[test]
fn a_witness_of_the_choice_is_written_before_the_choice() {
    let authority = object(SYSTEM, 1);
    let plan = || plan_claim(&authority, &None, None, &Ok(None), [7; 32]).unwrap();
    let mut publication = ClaimPublication::begin(plan(), true);
    assert_eq!(publication.claim_bytes(), &plan().bytes);
    assert_eq!(publication.next(), ClaimStage::Peer);
    assert_eq!(publication.boundary(), "peer authority witness");
    assert!(publication
        .written(Err(StoreActivationError::Identity))
        .is_err());
    assert_eq!(publication.next(), ClaimStage::Peer);
    publication.written(Ok(())).unwrap();
    assert_eq!(publication.next(), ClaimStage::Own);
    assert_eq!(publication.boundary(), "selected authority claim");
    publication.written(Ok(())).unwrap();
    assert_eq!(publication.next(), ClaimStage::Stands);
    assert!(publication.finish().same(&plan().record));
    assert_eq!(ClaimPublication::begin(plan(), false).next(), ClaimStage::Own);
}

#[test]
fn an_object_is_the_same_however_its_path_is_spelled() {
    assert!(object(b"/a/b", 1).same(&object(b"/a//b/", 1)));
    assert!(object(b"/a/./b", 1).same(&object(b"/a/b", 1)));
    assert!(!object(b"/a/../b", 1).same(&object(b"/b", 1)));
    assert!(!object(b"/a/b", 1).same(&object(b"a/b", 1)));
    assert!(!object(b"/a/b", 1).same(&object(b"/a/b", 2)));
    assert!(claim(object(b"/a/b", 1), 5).same(&claim(object(b"/a/b/", 1), 5)));
    assert!(!claim(object(b"/a/b", 1), 5).same(&claim(object(b"/a/b/", 1), 6)));
}

fn directory(inode: u64, uid: u32, mode: u32) -> FileStat {
    FileStat {
        class: FileClass::Directory,
        device: 1,
        inode,
        uid,
        mode,
        links: 2,
    }
}

#[test]
fn an_anchor_lies_where_the_layout_says() {
    let system = ActivationAnchorLocator::for_current_euid(AnchorPlatform::Linux, EUID);
    assert_eq!(system.path, SYSTEM);
    assert_eq!(system.kind, AnchorKind::System);
    let own = ActivationAnchorLocator::for_current_euid_self(
        Ok(Some(b"/home/someone".to_vec())),
        EUID,
    )
    .unwrap();
    assert_eq!(own.path, OWN);
    assert!(matches!(
        ActivationAnchorLocator::for_current_euid_self(Ok(None), EUID),
        Err(StoreActivationError::AccountBase(_))
    ));
    let place = lock_place(&system).unwrap();
    assert_eq!(
        place.lock_path,
        b"/var/lib/degu/.anchor-provisioning-lock"
    );
    assert_eq!(place.product_root, b"/var/lib/degu");
    assert!(!lock_is_present(&place, Err(IoFault::NotFound)).unwrap());
    assert!(lock_is_present(&place, Ok(())).unwrap());
}

#[test]
fn a_lock_is_the_owners_and_taken_by_one() {
    let system = ActivationAnchorLocator::for_current_euid(AnchorPlatform::Linux, EUID);
    let place = lock_place(&system).unwrap();
    let probe = |uid: u32, mode: u32| LockProbe {
        opened: Ok(()),
        stat: Ok(directory(3, uid, mode)),
        acl: Ok(()),
        backend: Ok(CertifiedLocalBackend::Ext4),
        entry: Ok(directory(3, uid, mode)),
        euid: EUID,
    };
    assert!(admit_lock(AnchorKind::System, &place, probe(0, 0o700)).is_ok());
    assert!(matches!(
        admit_lock(AnchorKind::System, &place, probe(EUID, 0o700)),
        Err(StoreActivationError::UnsafeAnchor(_))
    ));
    assert!(admit_lock(AnchorKind::SelfManaged, &place, probe(EUID, 0o700)).is_ok());
    assert!(matches!(
        admit_lock(AnchorKind::System, &place, probe(0, 0o755)),
        Err(StoreActivationError::UnsafeAnchor(_))
    ));
    assert!(require_lock_parent(&place, Ok(b"/var/lib/degu/".to_vec())).is_ok());
    assert!(matches!(
        require_lock_parent(&place, Ok(b"/elsewhere".to_vec())),
        Err(StoreActivationError::InvalidLocator)
    ));
    assert!(require_lock(b"/lock", Ok(())).is_ok());
    assert!(matches!(
        require_lock(b"/lock", Err(LockFault::Busy)),
        Err(StoreActivationError::Io {
            fault: IoFault::Other("activation authority is busy"),
            ..
        })
    ));
}

fn anchor_probe() -> AnchorProbe {
    AnchorProbe {
        opened: Ok(()),
        validated: Ok(()),
        identity: Some(identity(1)),
        backend: Ok(CertifiedLocalBackend::Ext4),
    }
}

#[test]
fn an_anchor_needs_its_lock() {
    assert!(require_anchor_parent(SYSTEM, Ok(b"/var/lib/degu/store-activation".to_vec())).is_ok());
    assert!(matches!(
        require_anchor_parent(SYSTEM, Ok(b"/var/lib/degu".to_vec())),
        Err(StoreActivationError::InvalidLocator)
    ));
    assert!(matches!(
        require_anchor_parent(b"/", Ok(vec![])),
        Err(StoreActivationError::InvalidLocator)
    ));
    assert!(matches!(
        require_anchor_present(SYSTEM, false, Err(IoFault::NotFound)),
        Err(StoreActivationError::AnchorNotProvisioned { .. })
    ));
    assert!(require_anchor_present(SYSTEM, true, Err(IoFault::NotFound)).is_ok());
    let admitted = admit_anchor(SYSTEM, true, anchor_probe()).unwrap();
    assert!(admitted.same(&object(SYSTEM, 1)));
    assert!(matches!(
        admit_anchor(SYSTEM, false, anchor_probe()),
        Err(StoreActivationError::UnsafeAnchor(_))
    ));
    assert!(matches!(
        admit_anchor(
            SYSTEM,
            true,
            AnchorProbe {
                identity: None,
                ..anchor_probe()
            }
        ),
        Err(StoreActivationError::Identity)
    ));
    assert!(matches!(
        admit_anchor(
            SYSTEM,
            true,
            AnchorProbe {
                opened: Err(IoFault::NotFound),
                ..anchor_probe()
            }
        ),
        Err(StoreActivationError::AnchorNotProvisioned { .. })
    ));
}

fn binding_probe() -> BindingProbe {
    BindingProbe {
        validated: Ok(()),
        backend: Ok(CertifiedLocalBackend::Ext4),
        identity: Some(identity(1)),
        parent: Ok(directory(8, 0, 0o755)),
        entry: Ok(directory(1, EUID, 0o700)),
        opened: Ok(directory(1, EUID, 0o700)),
        euid: EUID,
    }
}

#[test]
fn an_open_anchor_is_guarded() {
    let anchor = object(SYSTEM, 1);
    assert!(matches!(
        validate_activation_anchor_binding(
            &anchor,
            AnchorKind::System,
            BindingProbe {
                parent: Ok(directory(8, 0, 0o777)),
                ..binding_probe()
            }
        ),
        Err(StoreActivationError::UnsafeAnchor(_))
    ));
    assert!(matches!(
        validate_activation_anchor_binding(
            &anchor,
            AnchorKind::System,
            BindingProbe {
                identity: Some(identity(9)),
                ..binding_probe()
            }
        ),
        Err(StoreActivationError::UnsafeAnchor(_))
    ));
}

fn trusted_lock() -> LockProbe {
    LockProbe {
        opened: Ok(()),
        stat: Ok(directory(3, 0, 0o700)),
        acl: Ok(()),
        backend: Ok(CertifiedLocalBackend::Ext4),
        entry: Ok(directory(3, 0, 0o700)),
        euid: EUID,
    }
}

#[test]
fn an_anchor_is_opened_step_by_step() {
    let system = ActivationAnchorLocator::for_current_euid(AnchorPlatform::Linux, EUID);
    let mut opening = AnchorOpening::begin(&system).unwrap();
    assert_eq!(
        opening.lock_path(),
        b"/var/lib/degu/.anchor-provisioning-lock"
    );
    assert_eq!(opening.anchor_path(), SYSTEM);
    let mut stages = Vec::new();
    while opening.next() != OpeningStage::Opened {
        stages.push(opening.next());
        match opening.next() {
            OpeningStage::SeekLock => {
                assert!(opening.lock_sought(Err(IoFault::Os(13))).is_err());
                opening.lock_sought(Ok(())).unwrap();
            }
            OpeningStage::LockParent => {
                assert!(opening.lock_parent(Ok(b"/".to_vec())).is_err());
                opening.lock_parent(Ok(b"/var/lib/degu".to_vec())).unwrap();
            }
            OpeningStage::AdmitLock => opening.lock_seen(trusted_lock()).unwrap(),
            OpeningStage::TakeLock => {
                assert!(opening.lock_taken(Err(LockFault::Busy)).is_err());
                opening.lock_taken(Ok(())).unwrap();
            }
            OpeningStage::SeekAnchor => opening.anchor_sought(Ok(())).unwrap(),
            OpeningStage::AnchorParent => opening
                .anchor_parent(Ok(b"/var/lib/degu/store-activation".to_vec()))
                .unwrap(),
            OpeningStage::AdmitAnchor => opening.anchor_seen(anchor_probe()).unwrap(),
            OpeningStage::HoldAnchor => {
                assert!(opening.anchor_held(Err(LockFault::Busy)).is_err());
                opening.anchor_held(Ok(())).unwrap();
            }
            OpeningStage::BindAnchor => opening.anchor_bound(binding_probe()).unwrap(),
            OpeningStage::SyncAnchor => {
                assert!(matches!(
                    opening.synced(false),
                    Err(StoreActivationError::SyncUncertain(
                        "activation anchor directory after validation"
                    ))
                ));
                opening.synced(true).unwrap();
            }
            OpeningStage::SyncParent => {
                assert!(matches!(
                    opening.synced(false),
                    Err(StoreActivationError::SyncUncertain(
                        "activation anchor parent after validation"
                    ))
                ));
                opening.synced(true).unwrap();
            }
            OpeningStage::Opened => unreachable!(),
        }
    }
    assert_eq!(
        stages,
        [
            OpeningStage::SeekLock,
            OpeningStage::LockParent,
            OpeningStage::AdmitLock,
            OpeningStage::TakeLock,
            OpeningStage::SeekAnchor,
            OpeningStage::AnchorParent,
            OpeningStage::AdmitAnchor,
            OpeningStage::HoldAnchor,
            OpeningStage::BindAnchor,
            OpeningStage::SyncAnchor,
            OpeningStage::SyncParent,
        ]
    );
    let root = opening.finish();
    assert!(root.bound_object().same(&object(SYSTEM, 1)));
    assert_eq!(root.anchor_kind(), AnchorKind::System);
}

#[test]
fn an_anchor_that_appears_without_its_lock_is_not_opened() {
    let system = ActivationAnchorLocator::for_current_euid(AnchorPlatform::Linux, EUID);
    let mut opening = AnchorOpening::begin(&system).unwrap();
    opening.lock_sought(Err(IoFault::NotFound)).unwrap();
    assert_eq!(opening.next(), OpeningStage::SeekAnchor);
    assert!(matches!(
        opening.anchor_sought(Err(IoFault::NotFound)),
        Err(StoreActivationError::AnchorNotProvisioned { .. })
    ));
    opening.anchor_sought(Ok(())).unwrap();
    opening
        .anchor_parent(Ok(b"/var/lib/degu/store-activation".to_vec()))
        .unwrap();
    assert!(matches!(
        opening.anchor_seen(anchor_probe()),
        Err(StoreActivationError::UnsafeAnchor(_))
    ));
}

fn new_store() -> NewStoreProbe {
    NewStoreProbe {
        support: Ok(()),
        opened: Ok(()),
        revalidated: Ok(()),
        identity: Some(identity(2)),
        backend: CertifiedLocalBackend::Ext4,
    }
}

#[test]
fn an_activation_is_started_once_and_gone_on_with() {
    let own_claim = claim(object(SYSTEM, 1), 5);
    let activating =
        Activating::begin(object(SYSTEM, 1), own_claim.clone(), missing()).unwrap();
    assert!(activating.recorded_preparation().is_none());
    let bound = activating.start(b"/store", new_store()).unwrap();
    assert!(bound.active().prepare.same(&preparation()));
    assert_eq!(
        bound.preparing_bytes(),
        &encode_prepare(&preparation()).unwrap()
    );
    assert_eq!(
        bound.completing_bytes(),
        &encode_active(&active()).unwrap()
    );
    let resuming = Activating::begin(
        object(SYSTEM, 1),
        own_claim.clone(),
        Ok(bound.preparing_bytes().clone()),
    )
    .unwrap();
    assert!(resuming
        .recorded_preparation()
        .unwrap()
        .same(&preparation()));
    let resumed = resuming
        .resume(Ok(StoreActivationKind::Preparing), Ok(()))
        .unwrap();
    assert_eq!(resumed.completing_bytes(), bound.completing_bytes());
    assert_eq!(resumed.next(), ActivationStage::Sync);
    let mut bound = bound;
    let mut stages = Vec::new();
    loop {
        let stage = bound.next();
        stages.push(stage);
        match stage {
            ActivationStage::Activated => break,
            ActivationStage::Validate => {
                assert!(matches!(
                    bound.validated(Ok(StoreActivationKind::Preparing)),
                    Err(StoreActivationError::NotResumable)
                ));
                bound.validated(Ok(StoreActivationKind::Activated)).unwrap();
            }
            _ => {
                assert!(bound.written(Err(StoreActivationError::Identity)).is_err());
                assert_eq!(bound.next(), stage);
                bound.written(Ok(())).unwrap();
            }
        }
    }
    assert_eq!(
        stages,
        [
            ActivationStage::Prepare,
            ActivationStage::Sync,
            ActivationStage::Mark,
            ActivationStage::Complete,
            ActivationStage::Validate,
            ActivationStage::Activated,
        ]
    );
    assert_eq!(bound.finish(), b"/store");
    let failing = Activating::begin(object(SYSTEM, 1), own_claim, missing()).unwrap();
    assert!(matches!(
        failing.start(
            b"/store",
            NewStoreProbe {
                identity: None,
                ..new_store()
            }
        ),
        Err(StoreActivationError::Identity)
    ));
    assert!(require_marked_store(Ok(())).is_ok());
    assert!(require_marked_store(Err(StoreError::MissingStore {
        path: b"/store".to_vec()
    }))
    .is_err());
}

#[test]
fn a_refused_activation_is_told_in_words() {
    assert_eq!(
        StoreActivationError::NoAuthority {
            system: SYSTEM.to_vec(),
            self_managed: b"/own".to_vec(),
        }
        .describe(""),
        "neither activation authority is provisioned (system: \
         /var/lib/degu/store-activation/10; self-managed: /own)"
    );
    assert_eq!(
        StoreActivationError::Backend(CertificationError::UnsupportedFilesystem).describe(""),
        "store activation requires a certified backend: UnsupportedFilesystem"
    );
    assert_eq!(
        StoreActivationError::Io {
            path: b"/p".to_vec(),
            fault: IoFault::NotFound,
        }
        .describe("gone"),
        "store activation I/O failed at /p: gone"
    );
    assert_eq!(
        StoreActivationError::SyncUncertain("the parent").describe(""),
        "durability of activation publication is uncertain at the parent"
    );
}
