use degu_core::activation_anchor_provisioning::checks::certification_error;
use degu_core::activation_anchor_provisioning::checks::validate_binding;
use degu_core::activation_anchor_provisioning::checks::validate_directory;
use degu_core::activation_anchor_provisioning::checks::DirectoryKind;
use degu_core::activation_anchor_provisioning::checks::DirectoryProbe;
use degu_core::activation_anchor_provisioning::checks::EntryProbe;
use degu_core::activation_anchor_provisioning::checks::ValidatedDirectory;
use degu_core::activation_anchor_provisioning::error::ActivationAnchorProvisioningError;
use degu_core::activation_anchor_provisioning::error::FailureCause;
use degu_core::activation_anchor_provisioning::plan::fixed_path;
use degu_core::activation_anchor_provisioning::plan::plan_directories;
use degu_core::activation_anchor_provisioning::plan::provision;
use degu_core::activation_anchor_provisioning::plan::provision_activation_anchor;
use degu_core::activation_anchor_provisioning::plan::ActivationAnchorProvisioningStatus;
use degu_core::activation_anchor_provisioning::plan::Credentials;
use degu_core::activation_anchor_provisioning::plan::ProvisioningRequest;
use degu_core::activation_anchor_provisioning::plan::Role;
use degu_core::activation_anchor_provisioning::publish::check_removed;
use degu_core::activation_anchor_provisioning::publish::cleanup_after_failure;
use degu_core::activation_anchor_provisioning::publish::find_directory;
use degu_core::activation_anchor_provisioning::publish::may_remove;
use degu_core::activation_anchor_provisioning::publish::name_initializer;
use degu_core::activation_anchor_provisioning::publish::private_temp_name;
use degu_core::activation_anchor_provisioning::publish::take_directory;
use degu_core::activation_anchor_provisioning::publish::take_root;
use degu_core::activation_anchor_provisioning::publish::DirectoryRequest;
use degu_core::activation_anchor_provisioning::publish::FoundProbe;
use degu_core::activation_anchor_provisioning::publish::InitializedProbe;
use degu_core::activation_anchor_provisioning::publish::Initializer;
use degu_core::activation_anchor_provisioning::publish::Naming;
use degu_core::activation_anchor_provisioning::publish::PublishedProbe;
use degu_core::activation_anchor_provisioning::walk::Provisioning;
use degu_core::activation_anchor_provisioning::walk::ProvisioningStage;
use degu_core::activation_anchor_provisioning::walk::SettledDirectory;
use degu_core::activation::anchor::LockFault;
use degu_core::activation::error::IoFault;
use degu_core::activation::publication::FileClass;
use degu_core::activation::publication::FileStat;
use degu_core::anchor_layout::AnchorPlatform;
use degu_core::backend::certify::CertificationError;
use degu_core::backend::certify::CertifiedLocalBackend;
use degu_core::backend::held::inventory::StrongObjectIdentity;

const CONTROLLER: u32 = 1000;

#[test]
fn fixed_path_contains_only_platform_and_decimal_uid() {
    assert_eq!(
        fixed_path(b"/", Some(AnchorPlatform::Linux), 12345),
        b"/var/lib/degu/store-activation/12345"
    );
    assert_eq!(
        fixed_path(b"/", Some(AnchorPlatform::MacOs), 12345),
        b"/private/var/db/degu/store-activation/12345"
    );
}

#[test]
fn production_entry_requires_real_root() {
    assert!(matches!(
        provision_activation_anchor(1000, true, Some(AnchorPlatform::Linux), 1000),
        Err(ActivationAnchorProvisioningError::NotRoot)
    ));
    let request =
        provision_activation_anchor(1000, true, Some(AnchorPlatform::Linux), 0).unwrap();
    assert_eq!(request.filesystem_root, b"/");
    assert_eq!(request.uid, 1000);
    assert!(request.credentials.enforce_root);
}

fn test_credentials() -> Credentials {
    Credentials {
        controller_uid: CONTROLLER,
        enforce_root: false,
    }
}

fn request() -> ProvisioningRequest {
    provision(
        b"/fixture".to_vec(),
        Some(AnchorPlatform::Linux),
        1234,
        true,
        test_credentials(),
        CONTROLLER,
    )
    .unwrap()
}

#[test]
fn an_initial_assertion_and_an_ordinary_account_are_required() {
    let refused = |uid: u32, initial: bool, platform: Option<AnchorPlatform>| {
        provision(
            b"/fixture".to_vec(),
            platform,
            uid,
            initial,
            test_credentials(),
            CONTROLLER,
        )
        .err()
        .unwrap()
    };
    for uid in [0, u32::MAX] {
        assert!(matches!(
            refused(uid, true, Some(AnchorPlatform::Linux)),
            ActivationAnchorProvisioningError::InvalidUid { uid: rejected } if rejected == uid
        ));
    }
    match refused(1234, false, Some(AnchorPlatform::Linux)) {
        ActivationAnchorProvisioningError::Unsafe { path, reason } => {
            assert_eq!(path, b"/fixture/var/lib/degu/store-activation/1234");
            assert!(reason.contains("--initial"));
        }
        error => panic!("{error:?}"),
    }
    assert!(matches!(
        refused(1234, true, None),
        ActivationAnchorProvisioningError::UnsupportedPlatform
    ));
}

#[test]
fn the_plan_leads_from_the_file_system_root_to_the_anchor() {
    let plan = plan_directories(&request());
    let paths: Vec<&[u8]> = plan.iter().map(|planned| planned.path.as_slice()).collect();
    assert_eq!(
        paths,
        vec![
            b"/fixture".as_slice(),
            b"/fixture/var",
            b"/fixture/var/lib",
            b"/fixture/var/lib/degu",
            b"/fixture/var/lib/degu/.anchor-provisioning-lock",
            b"/fixture/var/lib/degu/store-activation",
            b"/fixture/var/lib/degu/store-activation/1234",
        ]
    );
    assert_eq!(plan[3].role, Role::Product);
    assert_eq!(plan[4].role, Role::Lock);
    assert_eq!(plan[6].role, Role::Anchor);
    assert_eq!(plan[6].owner, CONTROLLER);
}

fn identity(inode: u64) -> StrongObjectIdentity {
    StrongObjectIdentity {
        device: 1,
        inode,
        incarnation: inode,
        mount_id: 7,
    }
}

fn stat(inode: u64, mode: u32) -> FileStat {
    FileStat {
        class: FileClass::Directory,
        device: 1,
        inode,
        uid: CONTROLLER,
        mode,
        links: 2,
    }
}

fn mode_of(kind: DirectoryKind) -> u32 {
    match kind {
        DirectoryKind::System | DirectoryKind::Public => 0o755,
        DirectoryKind::PrivateLock | DirectoryKind::Leaf(_) => 0o700,
    }
}

fn directory(inode: u64, mode: u32) -> DirectoryProbe {
    DirectoryProbe {
        stat: Ok(stat(inode, mode)),
        acl: Ok(()),
        backend: Ok(CertifiedLocalBackend::Ext4),
        identity: Some(identity(inode)),
        held: Ok(()),
    }
}

fn entry(inode: u64) -> EntryProbe {
    EntryProbe {
        entry: Ok(stat(inode, 0o700)),
        opened: Ok(stat(inode, 0o700)),
        identity: Some(identity(inode)),
    }
}

fn settled(inode: u64, created: bool) -> SettledDirectory {
    SettledDirectory {
        directory: ValidatedDirectory {
            identity: identity(inode),
            backend: CertifiedLocalBackend::Ext4,
        },
        created,
    }
}

fn walk(created: bool) -> Provisioning {
    let mut provisioning = Provisioning::begin(request());
    let mut inode = 1;
    loop {
        match provisioning.stage() {
            ProvisioningStage::Directories => {
                let role = provisioning.next_directory().role;
                provisioning
                    .settle(Ok(settled(inode, created && role != Role::Existing)))
                    .unwrap();
                inode += 1;
            }
            ProvisioningStage::TakeLock => provisioning.lock_taken(Ok(())).unwrap(),
            ProvisioningStage::CheckLock => provisioning
                .lock_checked(entry(5), directory(5, 0o700))
                .unwrap(),
            _ => return provisioning,
        }
    }
}

fn inode_of(path: &[u8]) -> u64 {
    plan_directories(&request())
        .iter()
        .position(|planned| planned.path == path)
        .unwrap() as u64
        + 1
}

#[test]
fn an_anchor_is_created_and_then_found() {
    for (created, status) in [
        (true, ActivationAnchorProvisioningStatus::Created),
        (false, ActivationAnchorProvisioningStatus::AlreadyProvisioned),
    ] {
        let mut provisioning = walk(created);
        assert_eq!(
            provisioning.lock_path(),
            b"/fixture/var/lib/degu/.anchor-provisioning-lock"
        );
        let mut synced = Vec::new();
        loop {
            match provisioning.stage() {
                ProvisioningStage::Recheck => {
                    let planned = provisioning.current_directory();
                    let inode = inode_of(&planned.path);
                    let mode = mode_of(planned.kind);
                    provisioning
                        .rechecked(entry(inode), directory(inode, mode))
                        .unwrap();
                }
                ProvisioningStage::Sync => {
                    synced.push(provisioning.current_directory().path.clone());
                    provisioning.synced(Ok(())).unwrap();
                }
                _ => break,
            }
        }
        assert_eq!(
            synced.first().map(Vec::as_slice),
            Some(b"/fixture/var/lib/degu/store-activation/1234".as_slice())
        );
        let outcome = provisioning.finish();
        assert_eq!(outcome.status, status);
        assert_eq!(outcome.mutated(), created);
        assert_eq!(outcome.path, b"/fixture/var/lib/degu/store-activation/1234");
        assert_eq!(outcome.uid, 1234);
        assert_eq!(outcome.backend, CertifiedLocalBackend::Ext4);
    }
}

#[test]
fn a_failure_takes_back_only_what_was_made_below_the_lock() {
    let provisioning = walk(true);
    let targets: Vec<Vec<u8>> = provisioning
        .rollback_targets()
        .into_iter()
        .map(|target| target.path)
        .collect();
    assert_eq!(
        targets,
        vec![
            b"/fixture/var/lib/degu/store-activation/1234".to_vec(),
            b"/fixture/var/lib/degu/store-activation".to_vec(),
        ]
    );
    let failure = ActivationAnchorProvisioningError::UnsupportedPlatform;
    match provisioning.report_failure(failure, vec![targets[1].clone()]) {
        ActivationAnchorProvisioningError::RollbackResidue { failure, residue } => {
            assert!(matches!(
                failure,
                FailureCause::Error(inner)
                    if matches!(*inner, ActivationAnchorProvisioningError::UnsupportedPlatform)
            ));
            assert_eq!(
                residue,
                vec![
                    b"/fixture/var/lib/degu".to_vec(),
                    b"/fixture/var/lib/degu/.anchor-provisioning-lock".to_vec(),
                    b"/fixture/var/lib/degu/store-activation".to_vec(),
                ]
            );
        }
        error => panic!("{error:?}"),
    }
    let spelled = vec![[targets[1].as_slice(), b"/"].concat(), targets[1].clone()];
    let failure = ActivationAnchorProvisioningError::UnsupportedPlatform;
    match walk(true).report_failure(failure, spelled) {
        ActivationAnchorProvisioningError::RollbackResidue { residue, .. } => {
            assert_eq!(residue.len(), 3);
            assert_eq!(residue[2], b"/fixture/var/lib/degu/store-activation/");
        }
        error => panic!("{error:?}"),
    }
    let untouched = walk(false);
    assert!(untouched.rollback_targets().is_empty());
    assert!(matches!(
        untouched.report_failure(ActivationAnchorProvisioningError::UnsupportedPlatform, vec![]),
        ActivationAnchorProvisioningError::UnsupportedPlatform
    ));
}

#[test]
fn a_busy_lock_stops_the_walk() {
    let mut provisioning = Provisioning::begin(request());
    for inode in 1..=5 {
        provisioning.settle(Ok(settled(inode, false))).unwrap();
    }
    assert_eq!(provisioning.stage(), ProvisioningStage::TakeLock);
    assert!(matches!(
        provisioning.lock_taken(Err(LockFault::Busy)),
        Err(ActivationAnchorProvisioningError::Busy { path })
            if path == b"/fixture/var/lib/degu/.anchor-provisioning-lock"
    ));
}

fn reason_of(
    outcome: Result<ValidatedDirectory, ActivationAnchorProvisioningError>,
) -> &'static str {
    match outcome {
        Err(ActivationAnchorProvisioningError::Unsafe { reason, .. }) => reason,
        other => panic!("{other:?}"),
    }
}

#[test]
fn a_directory_is_its_owners_and_has_its_mode() {
    let path = b"/anchor";
    assert!(validate_directory(
        path,
        CONTROLLER,
        DirectoryKind::Leaf(CONTROLLER),
        directory(3, 0o700)
    )
    .is_ok());
    assert_eq!(
        reason_of(validate_directory(
            path,
            1,
            DirectoryKind::Leaf(1),
            directory(3, 0o700)
        )),
        "activation-anchor leaf has the wrong owner"
    );
    assert_eq!(
        reason_of(validate_directory(
            path,
            CONTROLLER,
            DirectoryKind::Public,
            directory(3, 0o775)
        )),
        "public activation-anchor component mode is not exactly 0755"
    );
    assert_eq!(
        reason_of(validate_directory(
            path,
            CONTROLLER,
            DirectoryKind::System,
            directory(3, 0o1777)
        )),
        "system activation-anchor component grants group or other write"
    );
    assert_eq!(
        reason_of(validate_directory(
            path,
            CONTROLLER,
            DirectoryKind::Public,
            DirectoryProbe {
                identity: None,
                ..directory(3, 0o755)
            }
        )),
        "strong birth identity is unavailable"
    );
    assert!(matches!(
        validate_directory(
            path,
            CONTROLLER,
            DirectoryKind::Public,
            DirectoryProbe {
                backend: Err(CertificationError::UnsupportedFilesystem),
                ..directory(3, 0o755)
            }
        ),
        Err(ActivationAnchorProvisioningError::UnsupportedBackend { .. })
    ));
    assert!(matches!(
        certification_error(path, CertificationError::MountInfoMalformed),
        ActivationAnchorProvisioningError::Uncertain { .. }
    ));
    assert!(validate_binding(path, identity(3), entry(3)).is_ok());
    assert!(matches!(
        validate_binding(path, identity(4), entry(3)),
        Err(ActivationAnchorProvisioningError::Unsafe { .. })
    ));
}

fn wanted() -> DirectoryRequest {
    DirectoryRequest {
        path: b"/fixture/degu".to_vec(),
        owner: CONTROLLER,
        kind: DirectoryKind::Public,
    }
}

#[test]
fn an_existing_entry_is_never_replaced() {
    let found = |opened: Result<(), IoFault>| {
        find_directory(
            &wanted(),
            FoundProbe {
                opened,
                directory: directory(9, 0o755),
                entry: entry(9),
            },
        )
    };
    assert_eq!(found(Ok(())).unwrap(), Some(settled(9, false)));
    assert!(matches!(found(Err(IoFault::NotFound)), Ok(None)));
    for fault in [IoFault::Loop, IoFault::NotDirectory] {
        assert!(matches!(
            found(Err(fault)),
            Err(ActivationAnchorProvisioningError::Unsafe { .. })
        ));
    }
    assert!(matches!(
        found(Err(IoFault::Os(13))),
        Err(ActivationAnchorProvisioningError::Io { .. })
    ));
}

fn begun() -> Initializer {
    Initializer::begin(
        wanted(),
        &name_initializer(&[0xab, 0x01]),
        Ok(()),
        Ok(()),
        Some(identity(9)),
    )
    .unwrap()
}

fn initialized_probe() -> InitializedProbe {
    InitializedProbe {
        chmod: Ok(()),
        chown: Ok(()),
        directory: directory(9, 0o755),
        entry: entry(9),
        synced: Ok(()),
        parent_synced: Ok(()),
    }
}

fn initialized() -> Initializer {
    let mut initializer = begun();
    initializer.check_born(entry(9)).unwrap();
    initializer.check_initialized(initialized_probe()).unwrap();
    initializer
}

#[test]
fn an_initializer_is_checked_before_and_after_it_is_named() {
    let mut initializer = begun();
    assert_eq!(
        initializer.temporary_path(),
        b"/fixture/.degu-anchor-initializing-ab01"
    );
    assert_eq!(initializer.mode(), 0o755);
    assert!(initializer.check_born(entry(8)).is_err());
    initializer.check_born(entry(9)).unwrap();
    assert!(initializer
        .check_initialized(InitializedProbe {
            parent_synced: Err(IoFault::Os(5)),
            ..initialized_probe()
        })
        .is_err());
    initializer.check_initialized(initialized_probe()).unwrap();
    assert!(initializer.named(Err(IoFault::Os(13))).is_err());
    assert_eq!(initializer.named(Ok(())).unwrap(), Naming::Published);
    let published = initializer
        .check_published(PublishedProbe {
            parent_synced: Ok(()),
            entry: entry(9),
            directory: directory(9, 0o755),
        })
        .unwrap();
    assert_eq!(published, settled(9, true));
}

#[test]
fn what_another_published_first_is_taken_as_it_is() {
    let mut initializer = initialized();
    assert_eq!(
        initializer.named(Err(IoFault::Exists)).unwrap(),
        Naming::Adopt
    );
    let found = FoundProbe {
        opened: Ok(()),
        directory: directory(11, 0o755),
        entry: entry(11),
    };
    assert_eq!(
        initializer.adopt(Ok(()), found).unwrap(),
        settled(11, false)
    );
    assert!(matches!(
        initializer.adopt(
            Ok(()),
            FoundProbe {
                opened: Err(IoFault::NotFound),
                ..found
            }
        ),
        Err(ActivationAnchorProvisioningError::Io { .. })
    ));
    assert!(matches!(
        initializer.adopt(Err(ActivationAnchorProvisioningError::NotRoot), found),
        Err(ActivationAnchorProvisioningError::NotRoot)
    ));
}

#[test]
fn a_directory_that_has_to_be_there_is_only_taken() {
    let found = FoundProbe {
        opened: Ok(()),
        directory: directory(9, 0o755),
        entry: entry(9),
    };
    assert_eq!(take_directory(&wanted(), found).unwrap(), settled(9, false));
    assert!(matches!(
        take_directory(
            &wanted(),
            FoundProbe {
                opened: Err(IoFault::NotFound),
                ..found
            }
        ),
        Err(ActivationAnchorProvisioningError::Io { .. })
    ));
    assert!(take_directory(
        &wanted(),
        FoundProbe {
            entry: entry(8),
            ..found
        }
    )
    .is_err());
    assert_eq!(
        take_root(&wanted(), directory(2, 0o755)).unwrap(),
        settled(2, false)
    );
    assert!(take_root(&wanted(), directory(2, 0o777)).is_err());
}

#[test]
fn an_initializer_stands_beside_what_it_becomes() {
    let beside = |path: &[u8]| {
        let request = DirectoryRequest {
            path: path.to_vec(),
            ..wanted()
        };
        let initializer =
            Initializer::begin(request, b"temp", Ok(()), Ok(()), Some(identity(9))).unwrap();
        initializer.temporary_path().to_vec()
    };
    assert_eq!(beside(b"/fixture/degu"), b"/fixture/temp");
    assert_eq!(beside(b"/fixture/degu/"), b"/fixture/temp");
    assert_eq!(beside(b"/"), b"/temp");
}

#[test]
fn a_refused_provisioning_is_told_in_words() {
    assert_eq!(
        ActivationAnchorProvisioningError::NotRoot.describe("", ""),
        "activation-anchor provisioning requires effective UID 0"
    );
    assert_eq!(
        ActivationAnchorProvisioningError::InvalidUid { uid: 0 }.describe("", ""),
        "UID 0 cannot be an activation-anchor target"
    );
    assert_eq!(
        ActivationAnchorProvisioningError::Busy {
            path: b"/lock".to_vec()
        }
        .describe("", ""),
        "activation-anchor provisioning is busy at /lock"
    );
    assert_eq!(
        ActivationAnchorProvisioningError::Io {
            path: b"/anchor".to_vec(),
            fault: IoFault::Os(13),
        }
        .describe("denied", ""),
        "activation-anchor provisioning I/O failed at /anchor: denied"
    );
    assert_eq!(
        cleanup_after_failure(b"/temp", false, ActivationAnchorProvisioningError::NotRoot)
            .describe("why", "[\"/temp\"]"),
        "activation-anchor provisioning failed: why; rollback is uncertain or left residue at [\"/temp\"]"
    );
}

#[test]
fn a_second_run_finds_what_the_first_made() {
    let mut outcomes = Vec::new();
    for created in [true, false] {
        let mut provisioning = walk(created);
        loop {
            match provisioning.stage() {
                ProvisioningStage::Recheck => {
                    let planned = provisioning.current_directory();
                    let inode = inode_of(&planned.path);
                    let probe = directory(inode, mode_of(planned.kind));
                    provisioning.rechecked(entry(inode), probe).unwrap();
                }
                ProvisioningStage::Sync => provisioning.synced(Ok(())).unwrap(),
                _ => break,
            }
        }
        outcomes.push(provisioning.finish());
    }
    assert!(outcomes[0].mutated());
    assert!(!outcomes[1].mutated());
    outcomes[0].status = ActivationAnchorProvisioningStatus::AlreadyProvisioned;
    assert_eq!(outcomes[0], outcomes[1]);
}

#[test]
fn an_initializer_without_an_identity_is_left_and_told() {
    let error = Initializer::begin(wanted(), b"temp", Ok(()), Ok(()), None)
        .err()
        .unwrap();
    match error {
        ActivationAnchorProvisioningError::RollbackResidue {
            failure: FailureCause::Text(text),
            residue,
        } => {
            assert_eq!(
                text,
                "strong birth identity is unavailable for the private initializer"
            );
            assert_eq!(residue, vec![b"/fixture/temp".to_vec()]);
        }
        error => panic!("{error:?}"),
    }
}

#[test]
fn only_what_was_made_is_removed() {
    let path = b"/fixture/temp";
    assert!(may_remove(path, identity(9), Ok(()), entry(9)).is_ok());
    assert!(may_remove(path, identity(8), Ok(()), entry(9)).is_err());
    assert!(check_removed(path, Ok(()), Ok(())).is_ok());
    assert!(check_removed(path, Err(IoFault::Os(39)), Ok(())).is_err());
    assert!(matches!(
        cleanup_after_failure(path, true, ActivationAnchorProvisioningError::NotRoot),
        ActivationAnchorProvisioningError::NotRoot
    ));
    assert!(matches!(
        cleanup_after_failure(path, false, ActivationAnchorProvisioningError::NotRoot),
        ActivationAnchorProvisioningError::RollbackResidue { residue, .. }
            if residue == vec![path.to_vec()]
    ));
}

#[test]
fn a_private_name_is_drawn_anew() {
    let first = private_temp_name().unwrap();
    let second = private_temp_name().unwrap();
    assert!(first.starts_with(b".degu-anchor-initializing-"));
    assert_eq!(first.len(), second.len());
    assert_ne!(first, second);
    assert!(first[b".degu-anchor-initializing-".len()..]
        .iter()
        .all(|byte| byte.is_ascii_hexdigit()));
}
