use degu_core::authority::local_mode::effective_access_class;
use degu_core::authority::local_mode::evaluate_namespace_rights;
use degu_core::authority::local_mode::foreign_mode_exposure;
use degu_core::authority::local_mode::minimal_sealed_mode;
use degu_core::authority::local_mode::grants_namespace_write;
use degu_core::authority::local_mode::assess_capability_facts;
use degu_core::authority::local_mode::assess_mode_seal;
use degu_core::authority::local_mode::assess_process_capability;
use degu_core::authority::local_mode::mode_facts;
use degu_core::authority::local_mode::AccessClass;
use degu_core::authority::local_mode::DirectoryModeFacts;
use degu_core::authority::local_mode::ModeSealAssessment;
use degu_core::authority::local_mode::ModeSealDenial;
use degu_core::authority::local_mode::PosixSubject;
use degu_core::authority::AuthorityBackend;
use degu_core::authority::CapabilityAcquisition;
use degu_core::authority::CapabilityAssessment;
use degu_core::authority::CapabilityReason;
use degu_core::authority::EvidenceCertainty;
use degu_core::authority::NamespaceRights;
use degu_core::authority::Principal;
use degu_core::backend::certify::AclProbe;
use degu_core::backend::certify::CertifiedLocalBackend;
use degu_core::backend::evidence::finish_certification;
use degu_core::backend::evidence::HeldLocalBackendEvidence;
use degu_core::backend::evidence::HeldStat;
use degu_core::backend::evidence::ProcessCredentials;
use degu_core::backend::held::error::HeldTreeError;
use degu_core::backend::held::inspect::projected_parent_seal;
use degu_core::backend::held::inspect::ProjectedParentSeal;

fn subject(uid: u32, groups: &[u32]) -> PosixSubject {
    PosixSubject {
        uid,
        groups: groups.iter().copied().collect(),
    }
}

#[test]
fn owner_group_other_precedence_never_unions_classes() {
    let facts = DirectoryModeFacts {
        mode: 0o027,
        owner_uid: 10,
        group_gid: 20,
    };
    assert_eq!(
        effective_access_class(facts, &subject(10, &[20])),
        AccessClass::Owner
    );
    assert_eq!(
        evaluate_namespace_rights(facts, &subject(10, &[20]), Some(99)),
        NamespaceRights::default()
    );
    assert_eq!(
        effective_access_class(facts, &subject(11, &[20])),
        AccessClass::Group
    );
    assert!(!evaluate_namespace_rights(facts, &subject(11, &[20]), Some(99)).create_file);
    assert!(evaluate_namespace_rights(facts, &subject(12, &[]), Some(99)).create_file);
}

#[test]
fn write_and_search_are_both_required() {
    let facts = |mode| DirectoryModeFacts {
        mode,
        owner_uid: 1,
        group_gid: 2,
    };
    assert!(!evaluate_namespace_rights(facts(0o720), &subject(3, &[2]), Some(9)).create_file);
    assert!(!evaluate_namespace_rights(facts(0o702), &subject(3, &[]), Some(9)).create_file);
    assert!(evaluate_namespace_rights(facts(0o730), &subject(3, &[2]), Some(9)).create_file);
    assert!(evaluate_namespace_rights(facts(0o703), &subject(3, &[]), Some(9)).create_file);
}

#[test]
fn sticky_separates_create_from_existing_binding_mutation() {
    let facts = DirectoryModeFacts {
        mode: 0o1777,
        owner_uid: 1,
        group_gid: 2,
    };
    let foreign = evaluate_namespace_rights(facts, &subject(3, &[]), Some(4));
    assert!(foreign.create_file && foreign.create_dir && foreign.traverse);
    assert!(!foreign.delete_child && !foreign.replace_child);
    let entry_owner = evaluate_namespace_rights(facts, &subject(4, &[]), Some(4));
    assert!(entry_owner.delete_child && entry_owner.replace_child);
    let directory_owner = evaluate_namespace_rights(facts, &subject(1, &[]), Some(4));
    assert!(directory_owner.delete_child && directory_owner.replace_child);
    let unknown_binding_owner = evaluate_namespace_rights(facts, &subject(4, &[]), None);
    assert!(unknown_binding_owner.create_file);
    assert!(!unknown_binding_owner.delete_child && !unknown_binding_owner.replace_child);
}

#[test]
fn foreign_owner_is_always_a_controller() {
    let facts = DirectoryModeFacts {
        mode: 0o1400,
        owner_uid: 8,
        group_gid: 9,
    };
    let (_, controllers) = foreign_mode_exposure(facts, 7);
    assert_eq!(controllers.len(), 1);
    assert_eq!(controllers[0].principal, Principal::PosixUid(8));
    assert!(controllers[0].rights.change_mode && controllers[0].rights.change_acl);
    assert!(controllers[0].rights.replace_binding);
}

#[test]
fn minimal_transform_preserves_special_read_and_search_bits() {
    for (mode, expected) in [
        (0o775, 0o755),
        (0o770, 0o750),
        (0o777, 0o755),
        (0o720, 0o720),
        (0o702, 0o702),
        (0o6777, 0o6755),
        (0o4775, 0o4755),
        (0o1777, 0o1755),
    ] {
        assert_eq!(minimal_sealed_mode(mode), expected, "mode {mode:o}");
    }
}

#[test]
fn current_owner_capability_is_present() {
    let facts = DirectoryModeFacts {
        mode: 0o775,
        owner_uid: 7,
        group_gid: 8,
    };
    let capability = assess_capability_facts(facts, &subject(7, &[]), None);
    assert!(matches!(capability, CapabilityAssessment::Present(_)));
}

#[test]
fn owner_capability_is_acquirable_with_reversible_minimal_transform() {
    let facts = DirectoryModeFacts {
        mode: 0o550,
        owner_uid: 7,
        group_gid: 8,
    };
    assert_eq!(
        assess_capability_facts(facts, &subject(7, &[]), None),
        CapabilityAssessment::Acquirable(CapabilityAcquisition::OwnerModeTransform {
            original: 0o550,
            required: 0o750,
        })
    );
}

#[test]
fn foreign_process_without_current_rights_is_permission_denied() {
    let facts = DirectoryModeFacts {
        mode: 0o700,
        owner_uid: 7,
        group_gid: 8,
    };
    assert_eq!(
        assess_capability_facts(facts, &subject(9, &[]), Some(9)),
        CapabilityAssessment::Missing(CapabilityReason::PermissionDenied)
    );
}

#[test]
fn owner_class_precedence_cannot_borrow_group_capability() {
    let facts = DirectoryModeFacts {
        mode: 0o470,
        owner_uid: 7,
        group_gid: 8,
    };
    assert_eq!(
        assess_capability_facts(facts, &subject(7, &[8]), None),
        CapabilityAssessment::Acquirable(CapabilityAcquisition::OwnerModeTransform {
            original: 0o470,
            required: 0o750,
        })
    );
    assert!(matches!(
        assess_capability_facts(facts, &subject(9, &[8]), Some(9)),
        CapabilityAssessment::Present(_)
    ));
}

#[test]
fn acquisition_preserves_special_bits_and_records_restore_mode() {
    let facts = DirectoryModeFacts {
        mode: 0o4577,
        owner_uid: 7,
        group_gid: 8,
    };
    assert_eq!(
        assess_capability_facts(facts, &subject(7, &[8]), None),
        CapabilityAssessment::Acquirable(CapabilityAcquisition::OwnerModeTransform {
            original: 0o4577,
            required: 0o4755,
        })
    );
}

#[test]
fn sticky_unknown_binding_owner_is_missing_for_a_foreign_writer() {
    let facts = DirectoryModeFacts {
        mode: 0o1770,
        owner_uid: 7,
        group_gid: 8,
    };
    assert_eq!(
        assess_capability_facts(facts, &subject(9, &[8]), None),
        CapabilityAssessment::Missing(CapabilityReason::PermissionDenied)
    );
    assert!(matches!(
        assess_capability_facts(facts, &subject(9, &[8]), Some(9)),
        CapabilityAssessment::Present(_)
    ));
}

fn held(mode: u32, owner: u32, process: u32) -> HeldLocalBackendEvidence {
    finish_certification(
        CertifiedLocalBackend::Ext4,
        7,
        Some(HeldStat {
            raw_mode: 0o040000 | mode,
            uid: owner,
            gid: 20,
            device: Some(30),
            inode: 40,
        }),
        AclProbe::Absent,
        &ProcessCredentials {
            effective_uid: process,
            effective_gid: 20,
            listed_groups: Some(vec![21]),
        },
    )
    .unwrap()
}

#[test]
fn only_the_owner_can_seal() {
    let mut owned = held(0o4777, 10, 10);
    assert_eq!(mode_facts(&owned).mode, 0o4777);
    assert_eq!(
        assess_mode_seal(&owned),
        ModeSealAssessment::Candidate {
            original_mode: 0o4777,
            sealed_mode: 0o4755,
        }
    );
    assert_eq!(
        assess_mode_seal(&held(0o777, 11, 10)),
        ModeSealAssessment::Denied(ModeSealDenial::NotOwner)
    );
    owned.invalidate_after_wal_uncertainty();
    assert_eq!(
        assess_mode_seal(&owned),
        ModeSealAssessment::Candidate {
            original_mode: 0o4777,
            sealed_mode: 0o4755,
        }
    );
}

#[test]
fn a_seal_of_the_parent_is_projected_from_verified_evidence() {
    let mut owned = held(0o4477, 10, 10);
    assert_eq!(
        projected_parent_seal(&owned),
        Ok(ProjectedParentSeal {
            original_mode: 0o4477,
            projected_mode: 0o4755,
        })
    );
    assert_eq!(
        projected_parent_seal(&held(0o777, 11, 10)),
        Err(HeldTreeError::ParentPolicyRejected)
    );
    owned.invalidate_after_wal_uncertainty();
    assert_eq!(
        projected_parent_seal(&owned),
        Err(HeldTreeError::ParentNotExclusive)
    );
}

#[test]
fn the_process_has_the_rights_of_its_class_alone() {
    assert!(matches!(
        assess_process_capability(&held(0o770, 11, 10), Some(10)),
        CapabilityAssessment::Present(_)
    ));
    assert_eq!(
        assess_process_capability(&held(0o570, 10, 10), Some(10)),
        CapabilityAssessment::Acquirable(CapabilityAcquisition::OwnerModeTransform {
            original: 0o570,
            required: 0o750,
        })
    );
}

#[test]
fn exposure_names_every_class_that_is_not_the_process() {
    let facts = DirectoryModeFacts {
        mode: 0o773,
        owner_uid: 8,
        group_gid: 9,
    };
    let (writers, controllers) = foreign_mode_exposure(facts, 7);
    let principals: Vec<Principal> = writers
        .iter()
        .map(|writer| writer.principal.clone())
        .collect();
    assert_eq!(
        principals,
        vec![
            Principal::PosixUid(8),
            Principal::PosixGid(9),
            Principal::Everyone,
        ]
    );
    assert!(writers.iter().all(|writer| {
        writer.source == AuthorityBackend::PosixMode
            && !writer.inherited
            && writer.certainty == EvidenceCertainty::Verified
    }));
    assert_eq!(controllers.len(), 1);
    let (writers, controllers) = foreign_mode_exposure(facts, 8);
    assert_eq!(writers.len(), 2);
    assert!(controllers.is_empty());
}

#[test]
fn a_sealed_mode_has_no_namespace_writers() {
    for mode in [0o777, 0o770, 0o703, 0o6777, 0o1777, 0o720, 0] {
        assert!(!grants_namespace_write(minimal_sealed_mode(mode)));
    }
    assert!(grants_namespace_write(0o730));
    assert!(grants_namespace_write(0o703));
    assert!(!grants_namespace_write(0o722));
}
