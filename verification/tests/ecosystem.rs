use degu_core::ecosystem::DetectCtx;
use degu_core::ecosystem::DetectCtxError;
use degu_core::ecosystem::Ecosystem;
use degu_core::ecosystem::EnvironmentVariable;
use degu_core::ecosystem::IncompleteRegions;
use degu_core::ecosystem::InvalidRootClaims;
use degu_core::ecosystem::NonZeroCount;
use degu_core::ecosystem::RegionCause;
use degu_core::ecosystem::Root;
use degu_core::ecosystem::RootOrigin;
use degu_core::ecosystem::RootOutcome;
use degu_core::ecosystem::RootProvenance;
use degu_core::ecosystem::ScanOutcome;
use degu_core::ecosystem::ScanPriority;
use degu_core::finding::FindingCandidate;
use degu_core::finding::FindingFacts;
use degu_core::finding::FindingKind;
use degu_core::finding::Ownership;
use degu_core::finding::Recovery;
use degu_core::finding::RegenCost;

// Renderers that walk the source chain print the io error themselves, so
// repeating it in the display string would double it.
#[test]
fn home_canonicalize_display_does_not_repeat_its_source() {
    let error = DetectCtxError::HomeCanonicalize {
        path: b"/degu-test-home".to_vec(),
        source: std::io::Error::from_raw_os_error(2),
    };
    let source = match &error {
        DetectCtxError::HomeCanonicalize { source, .. } => source.to_string(),
        DetectCtxError::MissingHome => panic!("HomeCanonicalize must keep its source"),
    };
    assert!(
        !error.describe().contains(&source),
        "display repeats its source: {error:?}"
    );
}

#[test]
fn recorded_root_failures_mark_incompleteness_and_survive_merges() {
    let mut outcome = RootOutcome::default();
    outcome.record_failure(
        b"/degu-test/.cache/pip".to_vec(),
        std::io::Error::from_raw_os_error(2),
    );
    assert!(outcome.incomplete);

    let mut merged = RootOutcome::default();
    merged.merge(outcome);

    assert!(merged.incomplete);
    let failure = merged.failures.first().expect("failure sample survives");
    assert_eq!(failure.path, b"/degu-test/.cache/pip".to_vec());
    assert_eq!(
        failure.error.raw_os_error(),
        Some(2),
        "the OS error travels with the path"
    );
}

#[test]
fn root_failure_sample_is_bounded() {
    let mut outcome = RootOutcome::default();
    for index in 0..=RootOutcome::FAILURE_SAMPLE_CAP {
        outcome.record_failure(
            format!("/degu-test-{index}").into_bytes(),
            std::io::Error::from_raw_os_error(2),
        );
    }
    assert_eq!(outcome.failures.len(), RootOutcome::FAILURE_SAMPLE_CAP);
}

fn sole_cause(regions: &IncompleteRegions) -> RegionCause {
    assert_eq!(regions.sample().len(), 1, "expected exactly one region");
    regions.sample()[0].cause()
}

#[test]
fn dedup_collision_upgrades_protected_to_measurement() {
    let path = b"/degu-test-region";
    let mut regions = IncompleteRegions::default();
    regions.record(path, RegionCause::Protected);
    regions.record(path, RegionCause::Measurement);
    assert_eq!(sole_cause(&regions), RegionCause::Measurement);
    assert!(regions.has_measurement_events());
}

#[test]
fn dedup_collision_never_downgrades_measurement_to_protected() {
    let path = b"/degu-test-region";
    let mut regions = IncompleteRegions::default();
    regions.record(path, RegionCause::Measurement);
    regions.record(path, RegionCause::Protected);
    assert_eq!(sole_cause(&regions), RegionCause::Measurement);
    assert!(regions.has_measurement_events());
}

#[test]
fn merge_collision_upgrades_to_the_strictest_cause_in_both_orders() {
    let path = b"/degu-test-region";
    let mut protected = IncompleteRegions::default();
    protected.record(path, RegionCause::Protected);
    let mut measurement = IncompleteRegions::default();
    measurement.record(path, RegionCause::Measurement);

    let mut protected_first = protected.clone();
    protected_first.merge(measurement.clone());
    assert_eq!(sole_cause(&protected_first), RegionCause::Measurement);

    let mut measurement_first = measurement;
    measurement_first.merge(protected);
    assert_eq!(sole_cause(&measurement_first), RegionCause::Measurement);
}

#[test]
fn only_protected_samples_report_no_measurement_events() {
    let mut regions = IncompleteRegions::default();
    regions.record(b"/degu-test-region", RegionCause::Protected);
    assert!(!regions.has_measurement_events());
    assert_eq!(regions.protected_regions(), 1);

    regions.record_unlocated();
    assert!(
        regions.has_measurement_events(),
        "unsampled events must fail closed as measurement events"
    );
}

fn boundary_candidate() -> FindingCandidate {
    FindingCandidate {
        ecosystem: "test".to_string(),
        path: b"/degu-test-cache".to_vec(),
        kind: FindingKind::PackageCache,
        bytes_apparent: 1,
        bytes_allocated: 1,
        age_days: None,
        bytes_hardlinked: 0,
        inodes: 1,
        skipped: 0,
        truncated: false,
        unvisited_dirs: 0,
        protected_boundaries: 1,
        protected_credential_boundaries: 0,
        recovery: Recovery::Unknown,
        ownership: Ownership::Unknown,
        hazard: None,
        rationale: "test fixture".to_string(),
    }
}

#[test]
fn a_pure_protected_prune_records_a_protected_region() {
    let outcome = ScanOutcome::from_candidates(vec![boundary_candidate()]);
    assert!(outcome.incomplete, "the scan-level flag stays as today");
    assert_eq!(
        sole_cause(&outcome.incomplete_regions),
        RegionCause::Protected
    );
}

#[test]
fn protected_boundaries_with_unvisited_dirs_fail_closed_as_measurement() {
    let mut candidate = boundary_candidate();
    candidate.unvisited_dirs = 1;
    let outcome = ScanOutcome::from_candidates(vec![candidate]);
    assert_eq!(
        sole_cause(&outcome.incomplete_regions),
        RegionCause::Measurement
    );
}

#[test]
fn protected_boundaries_with_skips_or_truncation_fail_closed_as_measurement() {
    let mut skipped = boundary_candidate();
    skipped.skipped = 1;
    let outcome = ScanOutcome::from_candidates(vec![skipped]);
    assert_eq!(
        sole_cause(&outcome.incomplete_regions),
        RegionCause::Measurement
    );

    let mut truncated = boundary_candidate();
    truncated.truncated = true;
    let outcome = ScanOutcome::from_candidates(vec![truncated]);
    assert_eq!(
        sole_cause(&outcome.incomplete_regions),
        RegionCause::Measurement
    );
}

#[test]
fn unvisited_only_and_truncated_only_candidates_mark_the_scan_incomplete() {
    for mutate in [
        (|c: &mut FindingCandidate| c.unvisited_dirs = 1) as fn(&mut FindingCandidate),
        |c: &mut FindingCandidate| c.truncated = true,
    ] {
        let mut candidate = boundary_candidate();
        candidate.protected_boundaries = 0;
        mutate(&mut candidate);
        let outcome = ScanOutcome::from_candidates(vec![candidate]);
        assert!(
            outcome.incomplete,
            "measurement counter must mark incomplete"
        );
        assert_eq!(
            sole_cause(&outcome.incomplete_regions),
            RegionCause::Measurement
        );
    }
}

#[test]
fn the_sample_of_regions_is_bounded_and_the_rest_is_counted() {
    let mut regions = IncompleteRegions::default();
    assert!(regions.is_empty());
    for index in 0..IncompleteRegions::SAMPLE_CAP + 2 {
        regions.record(
            format!("/degu-test-{index}").as_bytes(),
            RegionCause::Protected,
        );
    }
    assert_eq!(regions.sample().len(), IncompleteRegions::SAMPLE_CAP);
    assert_eq!(regions.overflowed(), 2);
    assert_eq!(regions.unsampled(), 2);
    assert!(regions.has_measurement_events());
    let mut merged = IncompleteRegions::default();
    merged.record_unlocated();
    merged.merge(regions);
    assert_eq!(merged.overflowed(), 2);
    assert_eq!(merged.unlocated(), 1);
    assert_eq!(merged.unsampled(), 3);
}

#[test]
fn one_place_spelled_in_two_ways_is_one_region() {
    let mut regions = IncompleteRegions::default();
    regions.record(b"/degu-test/a", RegionCause::Protected);
    regions.record(b"/degu-test//a/", RegionCause::Measurement);
    assert_eq!(sole_cause(&regions), RegionCause::Measurement);
    assert_eq!(regions.sample()[0].path(), b"/degu-test/a");
    for index in 1..IncompleteRegions::SAMPLE_CAP {
        regions.record(
            format!("/degu-test-{index}").as_bytes(),
            RegionCause::Protected,
        );
    }
    regions.record(b"/degu-test-1/.", RegionCause::Measurement);
    assert_eq!(regions.overflowed(), 0);
    assert_eq!(regions.sample()[1].cause(), RegionCause::Measurement);
    let mut other = IncompleteRegions::default();
    other.record(b"/degu-test-2/", RegionCause::Protected);
    regions.merge(other);
    assert_eq!(regions.overflowed(), 0);
    assert_eq!(regions.sample().len(), IncompleteRegions::SAMPLE_CAP);
    regions.record(b"/degu-test/b/../a", RegionCause::Measurement);
    assert_eq!(regions.overflowed(), 1);
}

#[test]
fn an_unlocated_region_is_put_at_its_root() {
    let mut regions = IncompleteRegions::default();
    regions.record_unlocated();
    regions.resolve_unlocated(b"/degu-test-root");
    assert_eq!(regions.unlocated(), 0);
    assert_eq!(regions.sample()[0].path(), b"/degu-test-root");
    assert_eq!(sole_cause(&regions), RegionCause::Measurement);
}

#[test]
fn merging_outcomes_hides_nothing() {
    let mut outcome = ScanOutcome::default();
    outcome.merge(ScanOutcome::failed());
    outcome.merge(ScanOutcome::truncated());
    outcome.mark_incomplete_at(b"/degu-test-region");
    assert!(outcome.incomplete && outcome.truncated);
    assert!(outcome.incomplete_regions.has_measurement_events());
    let mut roots = RootOutcome::failed();
    roots.merge(RootOutcome::default());
    assert!(roots.incomplete);
    assert!(!roots.truncated);
    roots.mark_truncated();
    assert!(roots.truncated);
}

fn context(variables: &[(&str, &str)]) -> DetectCtx {
    DetectCtx::for_test(
        b"/home/someone".to_vec(),
        variables
            .iter()
            .map(|(key, value)| EnvironmentVariable {
                key: key.as_bytes().to_vec(),
                value: value.as_bytes().to_vec(),
            })
            .collect(),
    )
}

#[test]
fn a_place_comes_from_its_variable_or_lies_in_the_home() {
    let plain = context(&[("XDG_CACHE_HOME", "")]);
    assert_eq!(plain.xdg_cache().path, b"/home/someone/.cache");
    assert_eq!(plain.xdg_cache().origin, RootOrigin::Fixed);
    assert_eq!(plain.xdg_data().path, b"/home/someone/.local/share");
    assert_eq!(plain.xdg_config(), b"/home/someone/.config");
    assert_eq!(plain.xdg_state(), b"/home/someone/.local/state");
    let moved = context(&[("XDG_CACHE_HOME", "/first"), ("XDG_CACHE_HOME", "/scratch")]);
    assert_eq!(moved.xdg_cache().path, b"/scratch");
    assert_eq!(
        moved.xdg_cache().origin,
        RootOrigin::Environment("XDG_CACHE_HOME")
    );
    assert_eq!(moved.env("XDG_CACHE_HOME"), Some(b"/scratch".as_slice()));
    assert_eq!(moved.env("XDG_STATE_HOME"), None);
}

#[test]
fn a_context_needs_a_home_that_can_be_found() {
    let missing = DetectCtx::from_process(None, Ok(b"/unused".to_vec()), vec![]);
    assert!(matches!(missing, Err(DetectCtxError::MissingHome)));
    assert_eq!(
        DetectCtxError::MissingHome.describe(),
        "HOME is not set; degu works strictly in user space"
    );
    let lost = DetectCtx::from_process(
        Some(b"/gone".to_vec()),
        Err(std::io::Error::from_raw_os_error(2)),
        vec![],
    );
    match lost {
        Err(error) => assert_eq!(error.describe(), "failed to canonicalize HOME /gone"),
        Ok(_) => panic!("a home that cannot be found is refused"),
    }
    let found = DetectCtx::from_process(
        Some(b"/link".to_vec()),
        Ok(b"/real".to_vec()),
        vec![],
    );
    assert_eq!(found.unwrap().home, b"/real");
}

struct Pip {
    recovery: Recovery,
}

impl Ecosystem for Pip {
    fn id(&self) -> &'static str {
        "pip"
    }

    fn roots(&self, ctx: &DetectCtx, claims: &mut InvalidRootClaims) -> RootOutcome {
        let mut outcome = RootOutcome::default();
        let value = ctx.env("PIP_CACHE_DIR").unwrap_or_default();
        if !value.starts_with(b"/") && ctx.claim_invalid_root_diagnostic(claims, "PIP_CACHE_DIR") {
            outcome.record_failure(value.to_vec(), std::io::Error::from_raw_os_error(22));
        }
        outcome
    }

    fn scan(&self, _: &Root, _: &DetectCtx, _: &mut InvalidRootClaims) -> ScanOutcome {
        ScanOutcome::default()
    }

    fn stated_facts(&self, _: &Root) -> FindingFacts {
        (self.recovery, Ownership::Standalone, None)
    }
}

#[test]
fn sources_share_what_was_claimed() {
    let context = context(&[("PIP_CACHE_DIR", "relative")]);
    let mut claims = InvalidRootClaims::default();
    let regenerable = Pip {
        recovery: Recovery::Regenerable { cost: RegenCost::Cheap },
    };
    let kept = Pip {
        recovery: Recovery::UserAsset,
    };
    assert_eq!(regenerable.roots(&context, &mut claims).failures.len(), 1);
    assert_eq!(kept.roots(&context.clone(), &mut claims).failures.len(), 0);
    let root = Root::well_known(b"/home/.cache/pip".to_vec());
    assert_eq!(regenerable.scan_priority(&root), ScanPriority::Preferred);
    assert_eq!(kept.scan_priority(&root), ScanPriority::Deferred);
    assert_eq!(kept.id(), "pip");
    assert_eq!(kept.platform_requirement(), None);
    assert!(kept.relocations().is_empty());
    assert!(kept.relocation_refusals().is_empty());
}

#[test]
fn a_diagnostic_is_claimed_once() {
    let context = context(&[("PIP_CACHE_DIR", "relative")]);
    let copy = context.clone();
    let mut claims = InvalidRootClaims::default();
    assert!(context.claim_invalid_root_diagnostic(&mut claims, "PIP_CACHE_DIR"));
    assert!(!copy.claim_invalid_root_diagnostic(&mut claims, "PIP_CACHE_DIR"));
    assert!(copy.claim_invalid_root_diagnostic(&mut claims, "CARGO_HOME"));
    assert!(!context.claim_invalid_root_diagnostic(&mut claims, "CARGO_HOME"));
    assert!(InvalidRootClaims::default().claim("CARGO_HOME"));
    assert_eq!(copy.home, context.home);
    assert_eq!(copy.env("PIP_CACHE_DIR"), Some(b"relative".as_slice()));
}

#[test]
fn a_deadline_elapses_when_its_time_has_come() {
    let context = context(&[])
        .with_deadline(Some(10))
        .with_max_concurrency(NonZeroCount::new(4));
    assert!(!context.deadline_elapsed(9));
    assert!(context.deadline_elapsed(10));
    assert_eq!(context.max_concurrency.map(NonZeroCount::get), Some(4));
    assert!(NonZeroCount::new(0).is_none());
    assert!(!context.with_deadline(None).deadline_elapsed(u64::MAX));
}

#[test]
fn a_root_keeps_where_it_came_from() {
    let root = Root::redirect("PIP_CACHE_DIR", b"/cache".to_vec())
        .join(b"wheels")
        .with_role("wheels");
    assert_eq!(root.path, b"/cache/wheels");
    assert_eq!(root.provenance, RootProvenance::Redirect);
    assert_eq!(root.origin, RootOrigin::Environment("PIP_CACHE_DIR"));
    assert_eq!(root.role, Some("wheels"));
    assert_eq!(
        Root::well_known(b"/cache".to_vec()).provenance,
        RootProvenance::WellKnown
    );
}
