use degu_core::backend::assessment::map_tree_assessment;
use degu_core::backend::assessment::map_tree_assessment_failure;
use degu_core::backend::assessment::HeldTreeAssessmentFailureCategory;
use degu_core::backend::assessment::HeldTreeAssessmentFailureKind;
use degu_core::backend::assessment::HeldTreePolicyAssessmentOutcome;
use degu_core::backend::assessment::HeldTreeAssessmentFailureCategory as C;
use degu_core::backend::assessment::HeldTreeAssessmentFailureKind as K;
use degu_core::backend::certify::certify_linux_mount;
use degu_core::backend::certify::certify_macos_filesystem_name;
use degu_core::backend::certify::combine_acl_probes;
use degu_core::backend::certify::linux_acl_probe;
use degu_core::backend::certify::macos_acl_probe;
use degu_core::backend::certify::parse_linux_mountinfo;
use degu_core::backend::certify::require_acl_absent;
use degu_core::backend::certify::AclProbe;
use degu_core::backend::certify::CertificationError;
use degu_core::backend::certify::CertifiedLocalBackend;
use degu_core::backend::certify::EXT4_MAGIC;
use degu_core::backend::certify::XFS_MAGIC;
use degu_core::backend::evidence::apple_device_number;
use degu_core::backend::evidence::certify_held_fd;
use degu_core::backend::evidence::certify_held_fd_macos;
use degu_core::backend::evidence::finish_certification;
use degu_core::backend::evidence::inspect_held_fd;
use degu_core::backend::evidence::inspect_held_fd_macos;
use degu_core::backend::evidence::validate_snapshot;
use degu_core::backend::evidence::HeldLocalBackendEvidence;
use degu_core::backend::evidence::HeldModeChangeOutcome;
use degu_core::backend::evidence::HeldStat;
use degu_core::backend::evidence::LinuxBackendFacts;
use degu_core::backend::evidence::LocalModeRevalidationFailure;
use degu_core::backend::evidence::ModeSyscallFailure;
use degu_core::backend::evidence::ProcessCredentials;
use degu_core::backend::evidence::TransactionId;
use degu_core::backend::evidence::VerifiedLocalFileType;
use degu_core::backend::evidence::VerifiedLocalModeSnapshot;
use degu_core::backend::held::error::HeldTreeError;
use degu_core::backend::held::error::HeldTreeLimit;
use degu_core::backend::held::policy::HeldTreeAdmissionAssessment;
use degu_core::backend::held::policy::HeldTreePolicyAssessment;
use degu_core::backend::held::policy::SourceParentSealProjection;
use degu_core::backend::held::policy::SourceParentSealValidation;
use degu_core::backend::held::policy::UnixTime;
use degu_core::backend::held::model::RegularHardLinkTopology;
use degu_core::backend::held::model::RegularXattrTopology;

#[test]
fn every_public_assessment_failure_kind_has_the_expected_category() {
    let cases = [
        (K::InvalidRoot, C::Input),
        (K::InvalidDirectoryLimit, C::Input),
        (K::EntryLimitExceeded, C::ResourceLimit),
        (K::DirectoryLimitExceeded, C::ResourceLimit),
        (K::DepthLimitExceeded, C::ResourceLimit),
        (K::PathBytesLimitExceeded, C::ResourceLimit),
        (K::ManifestBytesLimitExceeded, C::ResourceLimit),
        (K::ContentBytesLimitExceeded, C::ResourceLimit),
        (K::SourceParentPolicyRejected, C::TreePolicy),
        (K::SourceParentStateChanged, C::RaceOrIo),
        (K::ForeignOwner, C::TreePolicy),
        (K::ProtectedName, C::TreePolicy),
        (K::BackendBoundary, C::PlatformEvidence),
        (K::IdentityChanged, C::RaceOrIo),
        (K::StrongIncarnationUnavailable, C::PlatformEvidence),
        (K::ExternalHardLink, C::TreePolicy),
        (K::NonDirectoryExtendedMetadata, C::TreePolicy),
        (K::MetadataEvidenceUnavailable, C::RaceOrIo),
        (K::AclPresent, C::TreePolicy),
        (K::UnsupportedContentKind, C::TreePolicy),
        (K::ContentOrMetadataChanged, C::RaceOrIo),
        (K::RootNotDirectory, C::TreePolicy),
        (K::CertificationFailed, C::PlatformEvidence),
        (K::IoFailure, C::RaceOrIo),
        (K::ProveOnlyStateObserved, C::InternalFailClosed),
        (K::RootBindingChanged, C::RaceOrIo),
    ];
    let mut labels = std::collections::BTreeSet::new();
    for (kind, category) in cases {
        assert_eq!(kind.category(), category, "{kind:?}");
        assert!(
            labels.insert(kind.as_str()),
            "duplicate kind label for {kind:?}"
        );
    }
    assert_eq!(labels.len(), 26);
}

#[test]
fn stable_parent_policy_and_transient_metadata_map_in_the_right_direction() {
    for (error, expected_kind, expected_category) in [
        (
            HeldTreeError::ParentPolicyRejected,
            HeldTreeAssessmentFailureKind::SourceParentPolicyRejected,
            HeldTreeAssessmentFailureCategory::TreePolicy,
        ),
        (
            HeldTreeError::NonDirectoryMetadataUnavailable(b"file".to_vec()),
            HeldTreeAssessmentFailureKind::MetadataEvidenceUnavailable,
            HeldTreeAssessmentFailureCategory::RaceOrIo,
        ),
        (
            HeldTreeError::Certification {
                path: vec![],
                reason: CertificationError::AclPresent,
            },
            HeldTreeAssessmentFailureKind::AclPresent,
            HeldTreeAssessmentFailureCategory::TreePolicy,
        ),
        (
            HeldTreeError::Certification {
                path: vec![],
                reason: CertificationError::NotDirectory,
            },
            HeldTreeAssessmentFailureKind::RootNotDirectory,
            HeldTreeAssessmentFailureCategory::TreePolicy,
        ),
    ] {
        let mapped = map_tree_assessment_failure(error);
        assert_eq!(mapped.kind(), expected_kind);
        assert_eq!(mapped.category(), expected_category);
    }
}

#[test]
fn prove_only_failures_map_to_one_explicit_fail_closed_public_kind() {
    for error in [
        HeldTreeError::PostAdded(b"added".to_vec()),
        HeldTreeError::PostRemoved(b"removed".to_vec()),
        HeldTreeError::PostChanged(b"changed".to_vec()),
    ] {
        let mapped = map_tree_assessment_failure(error);
        assert_eq!(
            mapped.kind(),
            HeldTreeAssessmentFailureKind::ProveOnlyStateObserved
        );
        assert_eq!(
            mapped.category(),
            HeldTreeAssessmentFailureCategory::InternalFailClosed
        );
        assert!(mapped.relative_path().is_some());
    }
}

fn snapshot() -> VerifiedLocalModeSnapshot {
    VerifiedLocalModeSnapshot {
        backend: CertifiedLocalBackend::Ext4,
        mount_id: 7,
        owner_uid: 10,
        group_gid: 20,
        mode: 0o770,
        device: 30,
        inode: 40,
        file_type: VerifiedLocalFileType::Directory,
        effective_uid: 10,
        effective_groups: [20, 21].into_iter().collect(),
    }
}

#[test]
fn snapshot_validation_fails_closed_on_every_authority_field() {
    let expected = snapshot();
    let mut cases = Vec::new();
    let mut changed = expected.clone();
    changed.backend = CertifiedLocalBackend::Xfs;
    cases.push((changed, LocalModeRevalidationFailure::BackendChanged));
    let mut changed = expected.clone();
    changed.mount_id += 1;
    cases.push((changed, LocalModeRevalidationFailure::MountChanged));
    let mut changed = expected.clone();
    changed.device += 1;
    cases.push((changed, LocalModeRevalidationFailure::IdentityChanged));
    let mut changed = expected.clone();
    changed.inode += 1;
    cases.push((changed, LocalModeRevalidationFailure::IdentityChanged));
    let mut changed = expected.clone();
    changed.owner_uid += 1;
    changed.effective_uid = changed.owner_uid;
    cases.push((changed, LocalModeRevalidationFailure::OwnerChanged));
    let mut changed = expected.clone();
    changed.group_gid += 1;
    cases.push((changed, LocalModeRevalidationFailure::GroupChanged));
    let mut changed = expected.clone();
    changed.effective_uid += 1;
    cases.push((changed, LocalModeRevalidationFailure::EffectiveUidChanged));
    let mut changed = expected.clone();
    changed.effective_groups.insert(99);
    cases.push((
        changed,
        LocalModeRevalidationFailure::EffectiveGroupsChanged,
    ));
    let mut changed = expected.clone();
    changed.mode = 0o750;
    cases.push((
        changed,
        LocalModeRevalidationFailure::ModeChanged {
            expected: 0o770,
            actual: 0o750,
        },
    ));

    for (actual, error) in cases {
        assert_eq!(validate_snapshot(&actual, &expected, 0o770), Err(error));
    }
    assert_eq!(validate_snapshot(&expected, &expected, 0o770), Ok(()));
}

#[test]
fn linux_requires_mount_id_type_and_magic_to_agree() {
    let mountinfo = "31 20 0:27 / / rw - overlay overlay rw\n\
             44 31 8:1 / /data rw - ext4 /dev/sda1 rw\n\
             45 31 8:2 / /xfs rw shared:1 - xfs /dev/sda2 rw\n";
    assert_eq!(
        certify_linux_mount(44, mountinfo, EXT4_MAGIC),
        Ok(CertifiedLocalBackend::Ext4)
    );
    assert_eq!(
        certify_linux_mount(45, mountinfo, XFS_MAGIC),
        Ok(CertifiedLocalBackend::Xfs)
    );
    assert_eq!(
        certify_linux_mount(44, mountinfo, XFS_MAGIC),
        Err(CertificationError::FilesystemMagicMismatch)
    );
    assert_eq!(
        certify_linux_mount(31, mountinfo, 0x794c_7630),
        Err(CertificationError::UnsupportedFilesystem)
    );
    assert_eq!(
        certify_linux_mount(99, mountinfo, EXT4_MAGIC),
        Err(CertificationError::MountInfoMissing)
    );
}

#[test]
fn malformed_or_duplicate_mountinfo_fails_closed() {
    assert_eq!(
        parse_linux_mountinfo("not mountinfo", 1),
        Err(CertificationError::MountInfoMalformed)
    );
    let duplicate = "2 1 8:1 / /a rw - ext4 /dev/a rw\n\
             2 1 8:2 / /b rw - ext4 /dev/b rw\n";
    assert_eq!(
        parse_linux_mountinfo(duplicate, 2),
        Err(CertificationError::MountInfoAmbiguous)
    );
}

#[test]
fn overlay_tmpfs_network_and_distributed_types_are_not_certified() {
    for (name, magic) in [
        ("overlay", 0x794c_7630),
        ("tmpfs", 0x0102_1994),
        ("nfs", 0x6969),
        ("lustre", 0x0bd0_0bd0),
        ("gpfs", 0x4750_4653),
        ("fuse", 0x6573_5546),
    ] {
        let mountinfo = format!("7 1 0:1 / /mnt rw - {name} source rw\n");
        assert_eq!(
            certify_linux_mount(7, &mountinfo, magic),
            Err(CertificationError::UnsupportedFilesystem),
            "filesystem {name}"
        );
    }
}

#[test]
fn acl_probe_combination_is_hermetic_and_fail_closed() {
    assert_eq!(combine_acl_probes(&[AclProbe::Absent]), AclProbe::Absent);
    assert_eq!(
        combine_acl_probes(&[AclProbe::Absent, AclProbe::Unknown]),
        AclProbe::Unknown
    );
    assert_eq!(
        combine_acl_probes(&[AclProbe::Unknown, AclProbe::Present]),
        AclProbe::Present
    );
}

#[test]
fn acl_presence_and_probe_uncertainty_fail_closed() {
    assert_eq!(require_acl_absent(AclProbe::Absent), Ok(()));
    assert_eq!(
        require_acl_absent(AclProbe::Present),
        Err(CertificationError::AclPresent)
    );
    assert_eq!(
        require_acl_absent(AclProbe::Unknown),
        Err(CertificationError::AclProbeUnknown)
    );
}

#[test]
fn macos_certifies_apfs_only() {
    assert_eq!(
        certify_macos_filesystem_name(b"apfs"),
        Ok(CertifiedLocalBackend::Apfs)
    );
    for name in [b"hfs".as_slice(), b"nfs", b"smbfs", b"tmpfs", b"fuse"] {
        assert_eq!(
            certify_macos_filesystem_name(name),
            Err(CertificationError::UnsupportedFilesystem)
        );
    }
}

#[test]
fn a_refused_tree_is_described_with_its_place() {
    let failure = map_tree_assessment_failure(HeldTreeError::ForeignOwner(b"a/b".to_vec()));
    assert_eq!(failure.relative_path(), Some(&b"a/b".to_vec()));
    assert_eq!(
        failure.describe(),
        format!(
            "held-tree assessment failed: {} at a/b",
            failure.kind().user_message()
        )
    );
    let unlocated = map_tree_assessment_failure(HeldTreeError::InvalidDirectoryLimit);
    assert_eq!(unlocated.relative_path(), None);
    assert_eq!(
        unlocated.describe(),
        format!(
            "held-tree assessment failed: {}",
            unlocated.kind().user_message()
        )
    );
    let odd = map_tree_assessment_failure(HeldTreeError::ForeignOwner(b"a\xffb".to_vec()));
    assert_eq!(
        odd.describe(),
        format!(
            "held-tree assessment failed: {} at a\u{fffd}b",
            odd.kind().user_message()
        )
    );
}

#[test]
fn each_limit_is_reported_as_itself() {
    for (kind, expected) in [
        (HeldTreeLimit::Entries, K::EntryLimitExceeded),
        (HeldTreeLimit::Directories, K::DirectoryLimitExceeded),
        (HeldTreeLimit::Depth, K::DepthLimitExceeded),
        (HeldTreeLimit::PathBytes, K::PathBytesLimitExceeded),
        (HeldTreeLimit::ManifestBytes, K::ManifestBytesLimitExceeded),
        (HeldTreeLimit::ContentBytes, K::ContentBytesLimitExceeded),
    ] {
        let mapped = map_tree_assessment_failure(HeldTreeError::Limit { kind, limit: 3 });
        assert_eq!(mapped.kind(), expected);
        assert_eq!(mapped.category(), C::ResourceLimit);
    }
}

#[test]
fn an_assessed_tree_keeps_its_counts() {
    let assessment = HeldTreeAdmissionAssessment::TreePolicyAssessed {
        tree: HeldTreePolicyAssessment {
            entries: 1,
            directories: 2,
            path_bytes: 3,
            manifest_bytes: 4,
            content_bytes: 5,
            regular_hard_links: RegularHardLinkTopology::default(),
            regular_xattrs: RegularXattrTopology::default(),
            assessed_at: UnixTime {
                seconds: 6,
                nanoseconds: 7,
            },
        },
        source_parent_seal: SourceParentSealProjection {
            original_mode: 0o770,
            projected_mode: 0o750,
            validation: SourceParentSealValidation::RequiresExecutionValidation,
        },
    };
    match map_tree_assessment(assessment) {
        HeldTreePolicyAssessmentOutcome::TreePolicyAssessed {
            tree,
            source_parent_seal,
        } => {
            assert_eq!(tree.entries, 1);
            assert_eq!(tree.directories, 2);
            assert_eq!(tree.path_bytes, 3);
            assert_eq!(tree.manifest_bytes, 4);
            assert_eq!(tree.content_bytes_from_metadata, 5);
            assert_eq!(tree.assessed_at.seconds, 6);
            assert_eq!(source_parent_seal.original_mode, 0o770);
            assert_eq!(source_parent_seal.projected_mode, 0o750);
        }
        outcome => panic!("{outcome:?}"),
    }
}

fn credentials() -> ProcessCredentials {
    ProcessCredentials {
        effective_uid: 10,
        effective_gid: 20,
        listed_groups: Some(vec![21]),
    }
}

fn stat(mode: u32) -> HeldStat {
    HeldStat {
        raw_mode: 0o040000 | mode,
        uid: 10,
        gid: 20,
        device: Some(30),
        inode: 40,
    }
}

fn ext4() -> LinuxBackendFacts {
    LinuxBackendFacts {
        mount: Some((0x1000, 7)),
        mountinfo: Some("7 1 8:1 / /data rw - ext4 /dev/sda1 rw\n".to_string()),
        filesystem_magic: Some(EXT4_MAGIC),
    }
}

fn held(mode: u32) -> HeldLocalBackendEvidence {
    certify_held_fd(&ext4(), Some(stat(mode)), AclProbe::Absent, &credentials()).unwrap()
}

fn observed(mode: u32) -> Result<VerifiedLocalModeSnapshot, LocalModeRevalidationFailure> {
    inspect_held_fd(
        Some(0),
        &ext4(),
        Some(stat(mode)),
        AclProbe::Absent,
        &credentials(),
    )
}

#[test]
fn certification_names_what_it_lacks() {
    let facts = ext4();
    assert_eq!(held(0o770).mode(), 0o770);
    assert_eq!(held(0o770).certified_snapshot(), snapshot());
    let refused = |facts: &LinuxBackendFacts, stat, acl, credentials: &ProcessCredentials| {
        certify_held_fd(facts, stat, acl, credentials)
            .err()
            .unwrap()
    };
    assert_eq!(
        refused(
            &LinuxBackendFacts {
                mount: None,
                ..facts.clone()
            },
            Some(stat(0o700)),
            AclProbe::Absent,
            &credentials()
        ),
        CertificationError::MountIdentityUnavailable
    );
    assert_eq!(
        refused(
            &LinuxBackendFacts {
                mountinfo: None,
                ..facts.clone()
            },
            Some(stat(0o700)),
            AclProbe::Absent,
            &credentials()
        ),
        CertificationError::MountInfoUnreadable
    );
    assert_eq!(
        refused(&facts, None, AclProbe::Absent, &credentials()),
        CertificationError::InspectionFailed
    );
    assert_eq!(
        refused(
            &facts,
            Some(HeldStat {
                raw_mode: 0o100700,
                ..stat(0)
            }),
            AclProbe::Absent,
            &credentials()
        ),
        CertificationError::NotDirectory
    );
    assert_eq!(
        refused(&facts, Some(stat(0o700)), AclProbe::Present, &credentials()),
        CertificationError::AclPresent
    );
    assert_eq!(
        refused(
            &facts,
            Some(stat(0o700)),
            AclProbe::Absent,
            &ProcessCredentials {
                listed_groups: None,
                ..credentials()
            }
        ),
        CertificationError::ProcessCredentialsUnavailable
    );
}

#[test]
fn an_apple_volume_is_certified_by_its_name() {
    let held = certify_held_fd_macos(
        Some(b"apfs".to_vec()),
        Some(stat(0o700)),
        AclProbe::Absent,
        &credentials(),
    )
    .unwrap();
    assert_eq!(held.backend(), CertifiedLocalBackend::Apfs);
    assert!(inspect_held_fd_macos(
        true,
        Some(b"apfs".to_vec()),
        Some(stat(0o700)),
        AclProbe::Absent,
        &credentials(),
    )
    .is_ok());
    assert_eq!(
        inspect_held_fd_macos(
            false,
            Some(b"apfs".to_vec()),
            Some(stat(0o700)),
            AclProbe::Absent,
            &credentials(),
        ),
        Err(LocalModeRevalidationFailure::DescriptorUnavailable)
    );
    assert_eq!(apple_device_number(5), Some(5));
    assert_eq!(apple_device_number(-1), None);
}

#[test]
fn a_sealed_directory_is_restored_by_its_own_transaction_alone() {
    let transaction = TransactionId([41; 16]);
    let mut held = held(0o770);
    let prepared = held.prepare_minimal_seal(false, observed(0o770)).unwrap();
    assert_eq!((prepared.pre_mode(), prepared.target_mode()), (0o770, 0o750));
    let admitted = held.admit_mode_change(prepared, observed(0o770)).unwrap();
    assert_eq!(admitted.target_mode(), 0o750);
    assert!(matches!(
        held.finish_mode_change(admitted, Ok(()), observed(0o750)),
        HeldModeChangeOutcome::AppliedVerified { .. }
    ));
    assert_eq!(held.mode(), 0o750);
    assert!(held.verify_current_mode(0o750, observed(0o750)).is_ok());
    assert!(held.verify_namespace_exclusive(observed(0o750)).is_ok());
    assert_eq!(
        held.record_applied_seal_lineage(transaction, 7, 0o770, 0o750),
        Ok(())
    );
    assert_eq!(
        held.prepare_minimal_seal(false, observed(0o750)).err(),
        Some(LocalModeRevalidationFailure::SealAlreadyActive)
    );
    assert_eq!(
        held.prepare_wal_bound_restore(
            TransactionId([42; 16]),
            7,
            0o750,
            0o770,
            observed(0o750)
        )
        .err(),
        Some(LocalModeRevalidationFailure::SealLineageMismatch)
    );
    let restore = held
        .prepare_wal_bound_restore(transaction, 7, 0o750, 0o770, observed(0o750))
        .unwrap();
    let admitted = held.admit_mode_change(restore, observed(0o750)).unwrap();
    assert!(matches!(
        held.finish_mode_change(admitted, Ok(()), observed(0o770)),
        HeldModeChangeOutcome::AppliedVerified { .. }
    ));
    assert_eq!(held.mode(), 0o770);
    assert_eq!(
        held.prepare_wal_bound_restore(transaction, 7, 0o770, 0o770, observed(0o770))
            .err(),
        Some(LocalModeRevalidationFailure::MissingSealLineage)
    );
}

#[test]
fn a_mode_change_that_failed_is_never_called_applied() {
    let mut held_directory = held(0o770);
    let prepared = held_directory
        .prepare_minimal_seal(false, observed(0o770))
        .unwrap();
    let admitted = held_directory
        .admit_mode_change(prepared, observed(0o770))
        .unwrap();
    assert!(matches!(
        held_directory.finish_mode_change(admitted, Err(ModeSyscallFailure(1)), observed(0o770)),
        HeldModeChangeOutcome::NotAppliedVerified {
            cause: ModeSyscallFailure(1),
            ..
        }
    ));
    let mut unknown = held(0o770);
    let prepared = unknown.prepare_minimal_seal(false, observed(0o770)).unwrap();
    let admitted = unknown.admit_mode_change(prepared, observed(0o770)).unwrap();
    assert_eq!(
        unknown.finish_mode_change(
            admitted,
            Err(ModeSyscallFailure(5)),
            Err(LocalModeRevalidationFailure::DescriptorUnavailable)
        ),
        HeldModeChangeOutcome::OutcomeUnknown {
            syscall: ModeSyscallFailure(5),
            post_failure: LocalModeRevalidationFailure::DescriptorUnavailable,
        }
    );
    assert!(!unknown.mode_is_verified());
    let mut moved = held(0o770);
    let prepared = moved.prepare_minimal_seal(false, observed(0o770)).unwrap();
    assert_eq!(
        moved.admit_mode_change(prepared, observed(0o755)).err(),
        Some(HeldModeChangeOutcome::RefusedBeforeMutation {
            reason: LocalModeRevalidationFailure::ModeChanged {
                expected: 0o770,
                actual: 0o755,
            },
        })
    );
}

#[test]
fn a_change_that_cannot_be_looked_at_again_is_unverified() {
    let mut held = held(0o770);
    let outcome = held.finish_successful_chmod(
        0o750,
        snapshot(),
        Err(LocalModeRevalidationFailure::AclProbeUnknown),
    );
    assert_eq!(
        outcome,
        HeldModeChangeOutcome::AppliedButUnverified {
            expected_target: 0o750,
            reason: LocalModeRevalidationFailure::AclProbeUnknown,
        }
    );
    assert!(!held.mode_is_verified());
    assert_eq!(
        held.prepare_minimal_seal(false, observed(0o750)).err(),
        Some(LocalModeRevalidationFailure::EvidenceUnverified)
    );
}

#[test]
fn a_recovered_seal_is_bound_to_the_object_it_was_made_on() {
    let transaction = TransactionId([1; 16]);
    let mut held = held(0o750);
    assert_eq!(
        held.bind_recovered_seal_lineage(
            transaction,
            3,
            0o770,
            0o750,
            CertifiedLocalBackend::Ext4,
            30,
            41
        ),
        Err(LocalModeRevalidationFailure::SealLineageMismatch)
    );
    assert_eq!(
        held.bind_recovered_seal_lineage(
            transaction,
            3,
            0o770,
            0o750,
            CertifiedLocalBackend::Ext4,
            30,
            40
        ),
        Ok(())
    );
    assert_eq!(
        held.prepare_wal_bound_restore(transaction, 3, 0o750, 0o770, observed(0o750))
            .unwrap()
            .target_mode(),
        0o770
    );
}

#[test]
fn an_attribute_query_tells_an_absent_list_from_a_failure() {
    assert_eq!(linux_acl_probe(Ok(4), 61), AclProbe::Present);
    assert_eq!(linux_acl_probe(Err(61), 61), AclProbe::Absent);
    assert_eq!(linux_acl_probe(Err(95), 61), AclProbe::Unknown);
    assert_eq!(macos_acl_probe(Ok(true), 2), AclProbe::Present);
    assert_eq!(macos_acl_probe(Ok(false), 2), AclProbe::Unknown);
    assert_eq!(macos_acl_probe(Err(2), 2), AclProbe::Absent);
    assert_eq!(macos_acl_probe(Err(13), 2), AclProbe::Unknown);
}

#[test]
fn the_first_record_of_a_mount_is_found() {
    let record = parse_linux_mountinfo("9 1 8:1 / /a rw - xfs /dev/a rw\n", 9).unwrap();
    assert_eq!(record.mount_id, 9);
    assert_eq!(record.filesystem_type, "xfs");
    assert_eq!(
        finish_certification(
            CertifiedLocalBackend::Xfs,
            9,
            Some(stat(0o700)),
            AclProbe::Absent,
            &credentials()
        )
        .unwrap()
        .mount_id(),
        9
    );
}
