use degu_core::disposition::authority_rank;
use degu_core::disposition::scan_priority;
use degu_core::disposition::ConstraintReasons;
use degu_core::disposition::DispositionFacts;
use degu_core::disposition::ACTIVE_USE;
use degu_core::disposition::BREAKS_CONSUMERS;
use degu_core::disposition::COSTLY_REGEN;
use degu_core::disposition::STATIC_REASONS;
use degu_core::disposition::UNKNOWN_RECOVERY;
use degu_core::disposition::USER_ASSET;
use degu_core::ecosystem::ScanPriority;
use degu_core::finding::Confidence;
use degu_core::finding::Disposition;
use degu_core::finding::DispositionMode;
use degu_core::finding::FindingCandidate;
use degu_core::finding::FindingKind;
use degu_core::finding::Hazard;
use degu_core::finding::Ownership;
use degu_core::finding::Recovery;
use degu_core::finding::RegenCost;

const RECOVERIES: [Recovery; 3] = [
    Recovery::UserAsset,
    Recovery::Regenerable {
        cost: RegenCost::Cheap,
    },
    Recovery::Regenerable {
        cost: RegenCost::Costly,
    },
];
const OWNERSHIPS: [Ownership; 2] = [Ownership::Standalone, Ownership::ToolCoordinated];
const HAZARDS: [Option<Hazard>; 3] =
    [None, Some(Hazard::BreaksConsumers), Some(Hazard::ActiveUse)];
const CONFIDENCES: [Confidence; 2] = [Confidence::Verified, Confidence::Unverified];
const CASE_COUNT: usize = 36;

#[derive(Clone, Copy)]
enum ExpectedRule {
    UserAsset,
    ToolCoordinated,
    Unverified,
    BreaksConsumers,
    ActiveUse,
    Costly,
    Eligible,
}

const EXPECTED: [ExpectedRule; CASE_COUNT] = [
    ExpectedRule::UserAsset,
    ExpectedRule::UserAsset,
    ExpectedRule::UserAsset,
    ExpectedRule::UserAsset,
    ExpectedRule::UserAsset,
    ExpectedRule::UserAsset,
    ExpectedRule::UserAsset,
    ExpectedRule::UserAsset,
    ExpectedRule::UserAsset,
    ExpectedRule::UserAsset,
    ExpectedRule::UserAsset,
    ExpectedRule::UserAsset,
    ExpectedRule::Eligible,
    ExpectedRule::Unverified,
    ExpectedRule::BreaksConsumers,
    ExpectedRule::Unverified,
    ExpectedRule::ActiveUse,
    ExpectedRule::Unverified,
    ExpectedRule::ToolCoordinated,
    ExpectedRule::ToolCoordinated,
    ExpectedRule::ToolCoordinated,
    ExpectedRule::ToolCoordinated,
    ExpectedRule::ToolCoordinated,
    ExpectedRule::ToolCoordinated,
    ExpectedRule::Costly,
    ExpectedRule::Unverified,
    ExpectedRule::BreaksConsumers,
    ExpectedRule::Unverified,
    ExpectedRule::ActiveUse,
    ExpectedRule::Unverified,
    ExpectedRule::ToolCoordinated,
    ExpectedRule::ToolCoordinated,
    ExpectedRule::ToolCoordinated,
    ExpectedRule::ToolCoordinated,
    ExpectedRule::ToolCoordinated,
    ExpectedRule::ToolCoordinated,
];

impl ExpectedRule {
    fn disposition(self) -> Disposition {
        let (mode, reason) = match self {
            Self::UserAsset => (
                DispositionMode::ReportOnly,
                Some("user asset: degu cannot recreate it"),
            ),
            Self::ToolCoordinated => (
                DispositionMode::ReportOnly,
                Some("managed by the owning tool; delete through it"),
            ),
            Self::Unverified => (
                DispositionMode::ReportOnly,
                Some("relocated via an environment variable degu cannot verify"),
            ),
            Self::BreaksConsumers => (
                DispositionMode::OptIn,
                Some("deletion can break software that links into this data"),
            ),
            Self::ActiveUse => (
                DispositionMode::OptIn,
                Some("deletion can disrupt active sessions using this data"),
            ),
            Self::Costly => (DispositionMode::OptIn, Some("costly to regenerate")),
            Self::Eligible => (DispositionMode::Eligible, None),
        };
        Disposition {
            mode,
            reason: reason.map(str::to_string),
        }
    }
}

#[test]
fn scan_priority_defers_exactly_the_static_report_only_classes() {
    let cheap = Recovery::Regenerable {
        cost: RegenCost::Cheap,
    };
    let costly = Recovery::Regenerable {
        cost: RegenCost::Costly,
    };
    let preferred = [
        (cheap, Ownership::Standalone, None),
        (costly, Ownership::Standalone, None),
        (cheap, Ownership::Standalone, Some(Hazard::BreaksConsumers)),
        (cheap, Ownership::Standalone, Some(Hazard::ActiveUse)),
    ];
    let deferred = [
        (Recovery::Unknown, Ownership::Standalone, None),
        (Recovery::UserAsset, Ownership::Standalone, None),
        (cheap, Ownership::ToolCoordinated, None),
        (costly, Ownership::Unknown, None),
        (
            Recovery::UserAsset,
            Ownership::ToolCoordinated,
            Some(Hazard::ActiveUse),
        ),
    ];
    for facts in preferred {
        assert_eq!(scan_priority(facts), ScanPriority::Preferred, "{facts:?}");
    }
    for facts in deferred {
        assert_eq!(scan_priority(facts), ScanPriority::Deferred, "{facts:?}");
    }
}

#[test]
fn derive_exhaustive_known_fact_table() {
    let mut actual = Vec::with_capacity(CASE_COUNT);
    for recovery in RECOVERIES {
        for ownership in OWNERSHIPS {
            for hazard in HAZARDS {
                actual.extend(CONFIDENCES.map(|confidence| {
                    degu_core::disposition::derive(DispositionFacts {
                        recovery,
                        ownership,
                        hazard,
                        confidence,
                        measurement_complete: true,
                    })
                }));
            }
        }
    }

    let expected = EXPECTED.map(ExpectedRule::disposition);
    assert_eq!(actual, expected);
    for disposition in &actual {
        if let Some(reason) = &disposition.reason {
            assert!(STATIC_REASONS.contains(&reason.as_str()), "{reason}");
        }
    }
}

#[test]
fn unknown_recovery_precedes_other_facts() {
    for ownership in [
        Ownership::Unknown,
        Ownership::Standalone,
        Ownership::ToolCoordinated,
    ] {
        for hazard in HAZARDS {
            for confidence in CONFIDENCES {
                let disposition = degu_core::disposition::derive(DispositionFacts {
                    recovery: Recovery::Unknown,
                    ownership,
                    hazard,
                    confidence,
                    measurement_complete: true,
                });
                assert_eq!(disposition.mode, DispositionMode::ReportOnly);
                assert_eq!(
                    disposition.reason.as_deref(),
                    Some("recovery requirements are unknown")
                );
            }
        }
    }
}

#[test]
fn unknown_ownership_yields_only_to_recovery_facts() {
    for recovery in RECOVERIES {
        let expected = match recovery {
            Recovery::UserAsset => "user asset: degu cannot recreate it",
            _ => "ownership and coordination requirements are unknown",
        };
        for hazard in HAZARDS {
            for confidence in CONFIDENCES {
                let disposition = degu_core::disposition::derive(DispositionFacts {
                    recovery,
                    ownership: Ownership::Unknown,
                    hazard,
                    confidence,
                    measurement_complete: true,
                });
                assert_eq!(disposition.mode, DispositionMode::ReportOnly);
                assert_eq!(disposition.reason.as_deref(), Some(expected));
            }
        }
    }
}

#[test]
fn incomplete_measurement_is_report_only_without_masking_stronger_facts() {
    let cases = [
        (
            Recovery::Regenerable {
                cost: RegenCost::Cheap,
            },
            Ownership::Standalone,
            "measurement incomplete: some paths were not measured",
        ),
        (
            Recovery::Regenerable {
                cost: RegenCost::Costly,
            },
            Ownership::Standalone,
            "measurement incomplete: some paths were not measured",
        ),
        (
            Recovery::UserAsset,
            Ownership::Standalone,
            "user asset: degu cannot recreate it",
        ),
        (
            Recovery::Regenerable {
                cost: RegenCost::Cheap,
            },
            Ownership::ToolCoordinated,
            "managed by the owning tool; delete through it",
        ),
    ];
    for (recovery, ownership, reason) in cases {
        let disposition = degu_core::disposition::derive(DispositionFacts {
            recovery,
            ownership,
            hazard: None,
            confidence: Confidence::Verified,
            measurement_complete: false,
        });
        assert_eq!(disposition.mode, DispositionMode::ReportOnly);
        assert_eq!(disposition.reason.as_deref(), Some(reason));
        assert!(STATIC_REASONS.contains(&reason), "{reason}");
    }
}

#[test]
fn authority_rank_orders_stricter_reasons_above_weaker_ones() {
    let stricter = authority_rank(
        &Disposition {
        mode: DispositionMode::OptIn,
        reason: Some(BREAKS_CONSUMERS.to_owned()),
    },
        &CONSTRAINTS,
    );
    let weaker = authority_rank(
        &Disposition {
        mode: DispositionMode::OptIn,
        reason: Some(COSTLY_REGEN.to_owned()),
    },
        &CONSTRAINTS,
    );
    assert!(stricter > weaker);
    let eligible = authority_rank(
        &Disposition {
        mode: DispositionMode::Eligible,
        reason: None,
    },
        &CONSTRAINTS,
    );
    assert_eq!(eligible, (0, 0));
}

const CONSTRAINTS: ConstraintReasons<'static> = ConstraintReasons {
    protected_credential: "a credential lies inside",
    mixed_state_ai_tool: "state and assets are mixed",
};

fn rank(mode: DispositionMode, reason: &str) -> (u8, u8) {
    authority_rank(
        &Disposition {
            mode,
            reason: Some(reason.to_string()),
        },
        &CONSTRAINTS,
    )
}

#[test]
fn a_mode_outranks_every_reason() {
    assert!(
        rank(DispositionMode::ReportOnly, UNKNOWN_RECOVERY)
            > rank(DispositionMode::OptIn, BREAKS_CONSUMERS)
    );
    assert!(
        rank(DispositionMode::ReportOnly, CONSTRAINTS.protected_credential)
            > rank(DispositionMode::ReportOnly, USER_ASSET)
    );
    assert!(
        rank(DispositionMode::OptIn, BREAKS_CONSUMERS)
            > rank(DispositionMode::OptIn, ACTIVE_USE)
    );
}

#[test]
fn facts_of_a_candidate_say_whether_it_was_measured() {
    let mut candidate = FindingCandidate {
        ecosystem: "test".to_string(),
        path: b"/degu-test-cache".to_vec(),
        kind: FindingKind::PackageCache,
        bytes_apparent: 1,
        bytes_allocated: 1,
        age_days: None,
        bytes_hardlinked: 0,
        inodes: 1,
        skipped: 0,
        truncated: false,
        unvisited_dirs: 0,
        protected_boundaries: 0,
        protected_credential_boundaries: 0,
        recovery: Recovery::Regenerable {
            cost: RegenCost::Cheap,
        },
        ownership: Ownership::Standalone,
        hazard: None,
        rationale: "test fixture".to_string(),
    };
    let facts = DispositionFacts::from_candidate(&candidate, Confidence::Verified);
    assert!(facts.measurement_complete);
    assert_eq!(degu_core::disposition::derive(facts).mode, DispositionMode::Eligible);
    candidate.skipped = 1;
    let facts = DispositionFacts::from_candidate(&candidate, Confidence::Verified);
    assert!(!facts.measurement_complete);
    assert_eq!(degu_core::disposition::derive(facts).mode, DispositionMode::ReportOnly);
}
