use degu_core::authority::AuthorityBackend;
use degu_core::authority::AuthorityControlRights;
use degu_core::authority::AuthorityScope;
use degu_core::authority::CapabilityAssessment;
use degu_core::authority::CapabilityEvidence;
use degu_core::authority::CleanupAssessmentV1;
use degu_core::authority::CleanupDisposition;
use degu_core::authority::ContentStabilityRequirement;
use degu_core::authority::EvidenceCertainty;
use degu_core::authority::EvidenceFreshness;
use degu_core::authority::ExposureKey;
use degu_core::authority::ExposureValue;
use degu_core::authority::MountId;
use degu_core::authority::MutationUnitId;
use degu_core::authority::NamespaceRights;
use degu_core::authority::ObjectFileType;
use degu_core::authority::PersistentRecoveryEvidence;
use degu_core::authority::PlanBoundAcceptance;
use degu_core::authority::PolicyReason;
use degu_core::authority::Principal;
use degu_core::authority::PrincipalSet;
use degu_core::authority::PurgeAuthority;
use degu_core::authority::StableObjectId;
use degu_core::authority::TransactionState;
use degu_core::authority::UnknownReason;
use degu_core::authority::WriterExposureSet;
use degu_core::authority::WriterRiskDecision;
use degu_core::authority::CLEANUP_ASSESSMENT_SCHEMA_VERSION;

fn set(principals: &[Principal]) -> PrincipalSet {
    PrincipalSet::from_principals(principals.to_vec())
}

fn rights(create: bool, delete: bool) -> NamespaceRights {
    NamespaceRights {
        create_file: create,
        delete_child: delete,
        traverse: true,
        ..NamespaceRights::default()
    }
}

fn stable(inode: u64) -> StableObjectId {
    StableObjectId {
        mount_id: MountId(1),
        device: 2,
        inode,
        file_type: ObjectFileType::Directory,
    }
}

fn key(scope: AuthorityScope, principal: Principal, backend: AuthorityBackend) -> ExposureKey {
    ExposureKey {
        mutation_unit_id: MutationUnitId(7),
        scope,
        principal,
        backend,
    }
}

fn value(rights: NamespaceRights, certainty: EvidenceCertainty) -> ExposureValue {
    ExposureValue {
        rights,
        control_rights: AuthorityControlRights::default(),
        certainty,
    }
}

#[test]
fn rights_and_scope_must_not_widen() {
    let confirmed_rights = rights(true, false);
    assert!(rights(false, false).is_subset_of(confirmed_rights));
    assert!(!rights(false, true).is_subset_of(confirmed_rights));

    let whole = AuthorityScope::WholeMutationUnit;
    let directory = AuthorityScope::Directory(stable(9));
    assert!(directory.is_within(&whole));
    assert!(!whole.is_within(&directory));
}

#[test]
fn exposure_comparison_fails_closed_on_every_authority_axis() {
    let gid = Principal::PosixGid(42);
    let mut confirmed = WriterExposureSet::default();
    confirmed.insert(
        key(
            AuthorityScope::WholeMutationUnit,
            gid.clone(),
            AuthorityBackend::PosixMode,
        ),
        value(rights(true, true), EvidenceCertainty::Verified),
    );

    let mut narrower = WriterExposureSet::default();
    narrower.insert(
        key(
            AuthorityScope::Directory(stable(9)),
            gid.clone(),
            AuthorityBackend::PosixMode,
        ),
        value(rights(false, true), EvidenceCertainty::Verified),
    );
    assert!(narrower.is_no_wider_than(&confirmed));

    let cases = [
        key(
            AuthorityScope::WholeMutationUnit,
            Principal::PosixGid(99),
            AuthorityBackend::PosixMode,
        ),
        key(
            AuthorityScope::WholeMutationUnit,
            gid.clone(),
            AuthorityBackend::LinuxPosixAcl,
        ),
        key(
            AuthorityScope::WholeMutationUnit,
            Principal::Unknown,
            AuthorityBackend::PosixMode,
        ),
        key(
            AuthorityScope::WholeMutationUnit,
            gid,
            AuthorityBackend::Unknown,
        ),
    ];
    for actual_key in cases {
        let mut actual = WriterExposureSet::default();
        actual.insert(
            actual_key,
            value(rights(true, true), EvidenceCertainty::Verified),
        );
        assert!(!actual.is_no_wider_than(&confirmed));
    }

    let mut weaker_certainty = WriterExposureSet::default();
    weaker_certainty.insert(
        key(
            AuthorityScope::WholeMutationUnit,
            Principal::PosixGid(42),
            AuthorityBackend::PosixMode,
        ),
        value(rights(true, true), EvidenceCertainty::Inferred),
    );
    assert!(!weaker_certainty.is_no_wider_than(&confirmed));
}

#[test]
fn recovery_evidence_accepts_only_confined_relative_paths() {
    let evidence = |path: &str| {
        PersistentRecoveryEvidence::new(path.as_bytes().to_vec(), None, 1, 2, None, 0o700)
    };
    assert_eq!(
        evidence("root/child").unwrap().relative_path(),
        b"root/child"
    );
    assert!(evidence("").is_none());
    assert!(evidence(".").is_none());
    assert!(evidence("../root").is_none());
    assert!(evidence("/root").is_none());
}

#[test]
fn purge_and_writer_acceptance_follow_committed_state() {
    for state in [
        TransactionState::Prepared,
        TransactionState::TreeSealed,
        TransactionState::StagedSealed,
        TransactionState::VerifiedCommitted,
        TransactionState::Purged,
        TransactionState::RecoveryRequired,
    ] {
        assert_eq!(PurgeAuthority::try_from(state), Err(state));
    }
    assert!(PurgeAuthority::try_from(TransactionState::Purgeable).is_ok());
    assert!(TransactionState::VerifiedCommitted.writer_acceptance_expired());
    assert!(!TransactionState::StagedSealed.writer_acceptance_expired());
}

#[test]
fn plan_acceptance_rejects_unknown_or_unbound_principals() {
    assert!(PlanBoundAcceptance::new("".to_string(), set(&[Principal::PosixUid(1)])).is_none());
    assert!(PlanBoundAcceptance::new("plan".to_string(), set(&[])).is_none());
    assert!(PlanBoundAcceptance::new("plan".to_string(), set(&[Principal::Unknown])).is_none());
    let acceptance =
        PlanBoundAcceptance::new("plan".to_string(), set(&[Principal::PosixUid(1)])).unwrap();
    assert_eq!(acceptance.plan_id(), "plan");
}

#[test]
fn recovery_evidence_keeps_what_it_was_made_of() {
    let evidence = PersistentRecoveryEvidence::new(
        b"root".to_vec(),
        Some("fs".to_string()),
        3,
        4,
        Some(5),
        0o750,
    )
    .unwrap();
    assert_eq!(evidence.filesystem_id(), Some(&"fs".to_string()));
    assert_eq!(evidence.device(), 3);
    assert_eq!(evidence.inode(), 4);
    assert_eq!(evidence.generation_or_btime(), Some(5));
    assert_eq!(evidence.expected_mode(), 0o750);
}

#[test]
fn recovery_evidence_is_equal_where_its_path_leads_the_same_way() {
    let evidence = |path: &[u8], inode: u64| {
        PersistentRecoveryEvidence::new(path.to_vec(), None, 1, inode, None, 0o700).unwrap()
    };
    assert_eq!(evidence(b"a/b", 2), evidence(b"a//b", 2));
    assert_ne!(evidence(b"a/b", 2), evidence(b"a/c", 2));
    assert_ne!(evidence(b"a/b", 2), evidence(b"a/b", 3));
    assert_eq!(evidence(b"a//b", 2).clone().relative_path(), b"a//b");
}

#[test]
fn a_fresh_assessment_authorizes_nothing() {
    let assessment = CleanupAssessmentV1::default();
    assert_eq!(assessment.schema_version, CLEANUP_ASSESSMENT_SCHEMA_VERSION);
    assert_eq!(assessment.disposition, CleanupDisposition::ReportOnly);
    assert_eq!(
        assessment.writer_risk,
        WriterRiskDecision::Forbidden(PolicyReason::UnknownEvidence)
    );
    assert_eq!(
        assessment.capability,
        CapabilityAssessment::Unknown(UnknownReason::ProbeFailed)
    );
    assert_eq!(assessment.freshness, EvidenceFreshness::Unknown);
    assert_eq!(
        assessment.content_stability,
        ContentStabilityRequirement::NativeCoordinationRequired
    );
    assert!(assessment.writer_exposure.iter().is_empty());
    assert!(assessment.root_binding.is_none());
    assert!(assessment.mutation_units.is_empty());
}

#[test]
fn exposure_of_one_key_is_joined_and_stays_sorted() {
    let mut set = WriterExposureSet::default();
    let later = key(
        AuthorityScope::WholeMutationUnit,
        Principal::PosixGid(42),
        AuthorityBackend::PosixMode,
    );
    let earlier = key(
        AuthorityScope::RootBinding,
        Principal::PosixUid(1),
        AuthorityBackend::PosixMode,
    );
    set.insert(
        later.clone(),
        value(rights(true, false), EvidenceCertainty::Verified),
    );
    set.insert(
        earlier.clone(),
        value(rights(false, false), EvidenceCertainty::Verified),
    );
    set.insert(
        later.clone(),
        value(rights(false, true), EvidenceCertainty::Inferred),
    );
    assert_eq!(set.iter().len(), 2);
    assert_eq!(set.iter()[0].0, earlier);
    assert_eq!(
        set.iter()[1],
        (
            later,
            value(rights(true, true), EvidenceCertainty::Inferred)
        )
    );
    assert!(set.is_no_wider_than(&set.clone()));
}

#[test]
fn exposures_are_walked_in_one_order_however_they_came_in() {
    let entries: Vec<(ExposureKey, ExposureValue)> = [
        (AuthorityScope::WholeMutationUnit, Principal::PosixGid(42)),
        (AuthorityScope::RootBinding, Principal::PosixUid(1)),
        (AuthorityScope::RootBinding, Principal::PosixGid(1)),
        (AuthorityScope::WholeMutationUnit, Principal::PosixGid(42)),
    ]
    .into_iter()
    .enumerate()
    .map(|(index, (scope, principal))| {
        (
            key(scope, principal, AuthorityBackend::PosixMode),
            value(rights(index == 0, index == 3), EvidenceCertainty::Verified),
        )
    })
    .collect();
    let mut forward = WriterExposureSet::default();
    for (key, value) in entries.iter().cloned() {
        forward.insert(key, value);
    }
    let mut backward = WriterExposureSet::default();
    for (key, value) in entries.into_iter().rev() {
        backward.insert(key, value);
    }
    assert_eq!(forward.iter().len(), 3);
    assert_eq!(forward.iter(), backward.iter());
}

#[test]
fn only_a_known_backend_is_evidence() {
    assert_eq!(
        CapabilityEvidence::new(AuthorityBackend::MacOsAcl).map(|known| known.backend()),
        Some(AuthorityBackend::MacOsAcl)
    );
    assert!(CapabilityEvidence::new(AuthorityBackend::Unknown).is_none());
}

#[test]
fn a_set_of_principals_names_each_once() {
    let mut principals = set(&[
        Principal::Nfs4("owner@".to_string()),
        Principal::PosixUid(3),
        Principal::PosixUid(3),
    ]);
    assert_eq!(principals.len(), 2);
    assert_eq!(principals.get(0), &Principal::PosixUid(3));
    assert!(!principals.has_unknown());
    principals.insert(Principal::Unknown);
    assert!(principals.has_unknown());
    assert!(principals.contains(&Principal::Nfs4("owner@".to_string())));
    assert!(!principals.contains(&Principal::Nfs4("group@".to_string())));
}
