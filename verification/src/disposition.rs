//! What may be done with something that was found.
//!
//! Authority to remove comes from here and nowhere else. What the data is
//! weighs most, then who owns it, then whether its place can be trusted, then
//! whether it was measured, then what removing it can do, and last what it costs
//! to make again.

use crate::ecosystem::ScanPriority;
use crate::finding::is_measured;
use crate::finding::Confidence;
use crate::finding::Disposition;
use crate::finding::DispositionMode;
use crate::finding::DispositionView;
use crate::finding::FindingCandidate;
use crate::finding::FindingFacts;
use crate::finding::Hazard;
use crate::finding::Ownership;
use crate::finding::Recovery;
use crate::finding::RegenCost;
use vstd::prelude::*;

verus! {

pub const UNKNOWN_RECOVERY: &'static str = "recovery requirements are unknown";

pub const USER_ASSET: &'static str = "user asset: degu cannot recreate it";

pub const TOOL_MANAGED: &'static str = "managed by the owning tool; delete through it";

pub const UNKNOWN_OWNERSHIP: &'static str = "ownership and coordination requirements are unknown";

pub const UNVERIFIED_REDIRECT: &'static str =
    "relocated via an environment variable degu cannot verify";

pub const INCOMPLETE_MEASUREMENT: &'static str =
    "measurement incomplete: some paths were not measured";

pub const BREAKS_CONSUMERS: &'static str = "deletion can break software that links into this data";

pub const ACTIVE_USE: &'static str = "deletion can disrupt active sessions using this data";

pub const COSTLY_REGEN: &'static str = "costly to regenerate";

/// Every reason that facts can give, the strictest first.
pub const STATIC_REASONS: [&'static str; 9] = [
    UNKNOWN_RECOVERY,
    USER_ASSET,
    TOOL_MANAGED,
    UNKNOWN_OWNERSHIP,
    UNVERIFIED_REDIRECT,
    INCOMPLETE_MEASUREMENT,
    BREAKS_CONSUMERS,
    ACTIVE_USE,
    COSTLY_REGEN,
];

/// The reasons of the two constraints that outrank every fact.
#[derive(Clone, Copy, Debug)]
pub struct ConstraintReasons<'a> {
    /// Why something that may hold credentials is left alone.
    pub protected_credential: &'a str,
    /// Why the mixed state of an AI tool is left alone.
    pub mixed_state_ai_tool: &'a str,
}

/// How strict a mode is.
pub open spec fn mode_rank(mode: DispositionMode) -> u8 {
    match mode {
        DispositionMode::Eligible => 0,
        DispositionMode::OptIn => 1,
        DispositionMode::ReportOnly => 2,
    }
}

/// The place of a reason among the first `count` of [`STATIC_REASONS`].
pub open spec fn static_position(reason: Seq<char>, from: int) -> Option<int>
    decreases STATIC_REASONS@.len() - from,
{
    if from >= STATIC_REASONS@.len() {
        None
    } else if STATIC_REASONS@[from]@ == reason {
        Some(from)
    } else {
        static_position(reason, from + 1)
    }
}

/// How strict a reason is: constraints before facts, facts in their order,
/// anything else last.
pub open spec fn strictness(reason: Seq<char>, constraints: ConstraintReasons) -> int {
    if reason == constraints.protected_credential@ {
        11
    } else if reason == constraints.mixed_state_ai_tool@ {
        10
    } else {
        match static_position(reason, 0) {
            Some(index) => 9 - index,
            None => 0,
        }
    }
}

/// How strict a reason is.
fn reason_rank(reason: &str, constraints: &ConstraintReasons<'_>) -> (rank: u8)
    ensures
        rank == strictness(reason@, *constraints),
{
    if same_text(reason, constraints.protected_credential) {
        return 11;
    }
    if same_text(reason, constraints.mixed_state_ai_tool) {
        return 10;
    }
    let reasons = STATIC_REASONS;
    let mut i: usize = 0;
    while i < 9
        invariant
            i <= 9,
            reasons == STATIC_REASONS,
            static_position(reason@, 0) == static_position(reason@, i as int),
            reason@ != constraints.protected_credential@,
            reason@ != constraints.mixed_state_ai_tool@,
        decreases 9 - i,
    {
        if same_text(reasons[i], reason) {
            return 9 - i as u8;
        }
        i += 1;
    }
    0
}

/// Whether two texts are the same.
fn same_text(left: &str, right: &str) -> (same: bool)
    ensures
        same == (left@ == right@),
{
    left.to_owned() == right.to_owned()
}

/// How strict a disposition is: its mode, then its reason. Of two on the same
/// path the stricter one stays.
pub fn authority_rank(disposition: &Disposition, constraints: &ConstraintReasons<'_>) -> (rank: (
    u8,
    u8,
))
    ensures
        rank.0 == mode_rank(disposition@.mode),
        rank.1 == match disposition@.reason {
            Some(reason) => strictness(reason, *constraints),
            None => 0,
        },
{
    let mode: u8 = match disposition.mode {
        DispositionMode::Eligible => 0,
        DispositionMode::OptIn => 1,
        DispositionMode::ReportOnly => 2,
    };
    let reason: u8 = match &disposition.reason {
        Some(text) => reason_rank(text.as_str(), constraints),
        None => 0,
    };
    (mode, reason)
}

/// What the disposition of something follows from.
#[derive(Clone, Copy, Debug, PartialEq, Eq, Structural)]
pub struct DispositionFacts {
    pub recovery: Recovery,
    pub ownership: Ownership,
    pub hazard: Option<Hazard>,
    pub confidence: Confidence,
    pub measurement_complete: bool,
}

impl DispositionFacts {
    /// The facts of a candidate.
    pub fn from_candidate(candidate: &FindingCandidate, confidence: Confidence) -> (facts: Self)
        ensures
            facts == (DispositionFacts {
                recovery: candidate.recovery,
                ownership: candidate.ownership,
                hazard: candidate.hazard,
                confidence,
                measurement_complete: is_measured(*candidate),
            }),
    {
        DispositionFacts {
            recovery: candidate.recovery,
            ownership: candidate.ownership,
            hazard: candidate.hazard,
            confidence,
            measurement_complete: candidate.skipped == 0 && !candidate.truncated
                && candidate.unvisited_dirs == 0,
        }
    }
}

/// Why something may only be reported.
pub open spec fn report_only(facts: DispositionFacts) -> Option<Seq<char>> {
    if facts.recovery is Unknown {
        Some(UNKNOWN_RECOVERY@)
    } else if facts.recovery is UserAsset {
        Some(USER_ASSET@)
    } else if facts.ownership is ToolCoordinated {
        Some(TOOL_MANAGED@)
    } else if facts.ownership is Unknown {
        Some(UNKNOWN_OWNERSHIP@)
    } else if facts.confidence is Unverified {
        Some(UNVERIFIED_REDIRECT@)
    } else if !facts.measurement_complete {
        Some(INCOMPLETE_MEASUREMENT@)
    } else {
        None
    }
}

/// Why something has to be asked for.
pub open spec fn opt_in(facts: DispositionFacts) -> Option<Seq<char>> {
    match facts.hazard {
        Some(Hazard::BreaksConsumers) => Some(BREAKS_CONSUMERS@),
        Some(Hazard::ActiveUse) => Some(ACTIVE_USE@),
        None => if facts.recovery == (Recovery::Regenerable { cost: RegenCost::Costly }) {
            Some(COSTLY_REGEN@)
        } else {
            None
        },
    }
}

/// What may be done with something, given its facts.
pub open spec fn derived(facts: DispositionFacts) -> DispositionView {
    if report_only(facts) is Some {
        DispositionView { mode: DispositionMode::ReportOnly, reason: report_only(facts) }
    } else if opt_in(facts) is Some {
        DispositionView { mode: DispositionMode::OptIn, reason: opt_in(facts) }
    } else {
        DispositionView { mode: DispositionMode::Eligible, reason: None }
    }
}

fn report_only_reason(facts: DispositionFacts) -> (reason: Option<&'static str>)
    ensures
        match reason {
            Some(text) => report_only(facts) == Some(text@),
            None => report_only(facts) is None,
        },
{
    match (facts.recovery, facts.ownership, facts.confidence) {
        (Recovery::Unknown, _, _) => Some(UNKNOWN_RECOVERY),
        (Recovery::UserAsset, _, _) => Some(USER_ASSET),
        (_, Ownership::ToolCoordinated, _) => Some(TOOL_MANAGED),
        (_, Ownership::Unknown, _) => Some(UNKNOWN_OWNERSHIP),
        (_, _, Confidence::Unverified) => Some(UNVERIFIED_REDIRECT),
        _ => if facts.measurement_complete {
            None
        } else {
            Some(INCOMPLETE_MEASUREMENT)
        },
    }
}

fn opt_in_reason(facts: DispositionFacts) -> (reason: Option<&'static str>)
    ensures
        match reason {
            Some(text) => opt_in(facts) == Some(text@),
            None => opt_in(facts) is None,
        },
{
    match (facts.hazard, facts.recovery) {
        (Some(Hazard::BreaksConsumers), _) => Some(BREAKS_CONSUMERS),
        (Some(Hazard::ActiveUse), _) => Some(ACTIVE_USE),
        (None, Recovery::Regenerable { cost: RegenCost::Costly }) => Some(COSTLY_REGEN),
        _ => None,
    }
}

/// Decides what may be done with something.
pub fn derive(facts: DispositionFacts) -> (disposition: Disposition)
    ensures
        disposition@ == derived(facts),
{
    match report_only_reason(facts) {
        Some(reason) => Disposition {
            mode: DispositionMode::ReportOnly,
            reason: Some(reason.to_owned()),
        },
        None => match opt_in_reason(facts) {
            Some(reason) => Disposition {
                mode: DispositionMode::OptIn,
                reason: Some(reason.to_owned()),
            },
            None => Disposition { mode: DispositionMode::Eligible, reason: None },
        },
    }
}

/// What is stated of a root before anything under it was measured.
pub open spec fn stated(facts: FindingFacts) -> DispositionFacts {
    DispositionFacts {
        recovery: facts.0,
        ownership: facts.1,
        hazard: facts.2,
        confidence: Confidence::Verified,
        measurement_complete: true,
    }
}

/// When a root is scanned. What can only be reported can wait.
pub fn scan_priority(facts: FindingFacts) -> (priority: ScanPriority)
    ensures
        priority == if derived(stated(facts)).mode is ReportOnly {
            ScanPriority::Deferred
        } else {
            ScanPriority::Preferred
        },
{
    let (recovery, ownership, hazard) = facts;
    let disposition = derive(
        DispositionFacts {
            recovery,
            ownership,
            hazard,
            confidence: Confidence::Verified,
            measurement_complete: true,
        },
    );
    match disposition.mode {
        DispositionMode::ReportOnly => ScanPriority::Deferred,
        _ => ScanPriority::Preferred,
    }
}

/// Only what can be made again cheaply, by anybody, in a place that is trusted,
/// fully measured and without a hazard may be removed unasked.
pub proof fn law_eligibility_needs_every_fact(facts: DispositionFacts)
    ensures
        derived(facts).mode is Eligible <==> facts.recovery == (Recovery::Regenerable {
            cost: RegenCost::Cheap,
        }) && facts.ownership is Standalone && facts.confidence is Verified
            && facts.measurement_complete && facts.hazard is None,
        derived(facts).mode is Eligible <==> derived(facts).reason is None,
{
}

/// Evidence that comes in while scanning only takes authority away: a place that
/// is not trusted and a measurement that is not complete never loosen what the
/// stated facts allow.
pub proof fn law_scanning_never_loosens(facts: DispositionFacts)
    ensures
        mode_rank(derived(facts).mode) >= mode_rank(
            derived(stated((facts.recovery, facts.ownership, facts.hazard))).mode,
        ),
        facts.confidence is Unverified || !facts.measurement_complete ==> derived(
            facts,
        ).mode is ReportOnly,
{
}

/// The texts of the reasons differ.
proof fn lemma_reasons_differ()
    ensures
        forall|i: int, j: int|
            #![trigger STATIC_REASONS@[i], STATIC_REASONS@[j]]
            0 <= i < j < 9 ==> STATIC_REASONS@[i]@ != STATIC_REASONS@[j]@,
{
    reveal_strlit("recovery requirements are unknown");
    reveal_strlit("user asset: degu cannot recreate it");
    reveal_strlit("managed by the owning tool; delete through it");
    reveal_strlit("ownership and coordination requirements are unknown");
    reveal_strlit("relocated via an environment variable degu cannot verify");
    reveal_strlit("measurement incomplete: some paths were not measured");
    reveal_strlit("deletion can break software that links into this data");
    reveal_strlit("deletion can disrupt active sessions using this data");
    reveal_strlit("costly to regenerate");
    assert(STATIC_REASONS@[0]@ == UNKNOWN_RECOVERY@);
    assert(UNKNOWN_RECOVERY@.len() == 33);
    assert(STATIC_REASONS@[1]@ == USER_ASSET@);
    assert(USER_ASSET@.len() == 35);
    assert(STATIC_REASONS@[2]@ == TOOL_MANAGED@);
    assert(TOOL_MANAGED@.len() == 45);
    assert(STATIC_REASONS@[3]@ == UNKNOWN_OWNERSHIP@);
    assert(UNKNOWN_OWNERSHIP@.len() == 51);
    assert(STATIC_REASONS@[4]@ == UNVERIFIED_REDIRECT@);
    assert(UNVERIFIED_REDIRECT@.len() == 56);
    assert(STATIC_REASONS@[5]@ == INCOMPLETE_MEASUREMENT@);
    assert(INCOMPLETE_MEASUREMENT@.len() == 52);
    assert(STATIC_REASONS@[6]@ == BREAKS_CONSUMERS@);
    assert(BREAKS_CONSUMERS@.len() == 53);
    assert(STATIC_REASONS@[7]@ == ACTIVE_USE@);
    assert(ACTIVE_USE@.len() == 52);
    assert(STATIC_REASONS@[8]@ == COSTLY_REGEN@);
    assert(COSTLY_REGEN@.len() == 20);
    assert(INCOMPLETE_MEASUREMENT@[0] == 'm');
    assert(ACTIVE_USE@[0] == 'd');
}

/// Of two reasons the one that stands earlier is the stricter one, and both
/// constraints are stricter than any.
pub proof fn law_stricter_reasons_rank_higher(constraints: ConstraintReasons, i: int, j: int)
    requires
        0 <= i < j < 9,
        forall|n: int|
            0 <= n < 9 ==> (#[trigger] STATIC_REASONS@[n])@ != constraints.protected_credential@
                && STATIC_REASONS@[n]@ != constraints.mixed_state_ai_tool@,
    ensures
        strictness(STATIC_REASONS@[i]@, constraints) > strictness(
            STATIC_REASONS@[j]@,
            constraints,
        ),
        strictness(STATIC_REASONS@[i]@, constraints) == 9 - i,
        strictness(constraints.protected_credential@, constraints) > strictness(
            STATIC_REASONS@[i]@,
            constraints,
        ),
        strictness(constraints.mixed_state_ai_tool@, constraints) > strictness(
            STATIC_REASONS@[i]@,
            constraints,
        ),
{
    lemma_place(i, 0);
    lemma_place(j, 0);
}

/// Each reason is found where it stands.
proof fn lemma_place(index: int, from: int)
    requires
        0 <= from <= index < 9,
    ensures
        static_position(STATIC_REASONS@[index]@, from) == Some(index),
    decreases index - from,
{
    lemma_reasons_differ();
    if from < index {
        assert(STATIC_REASONS@[from]@ != STATIC_REASONS@[index]@);
        lemma_place(index, from + 1);
    }
}

/// Every reason that facts give is one of [`STATIC_REASONS`].
pub proof fn law_reasons_are_listed(facts: DispositionFacts)
    ensures
        derived(facts).reason matches Some(reason) ==> static_position(reason, 0) is Some,
{
    lemma_place(0, 0);
    lemma_place(1, 0);
    lemma_place(2, 0);
    lemma_place(3, 0);
    lemma_place(4, 0);
    lemma_place(5, 0);
    lemma_place(6, 0);
    lemma_place(7, 0);
    lemma_place(8, 0);
}

/// Something is only reported wherever it is not known how it comes back, belongs
/// to the user or to a tool, lies where a redirect was not verified, or was not
/// measured in full, and nowhere else; it has to be asked for wherever it may be
/// removed but is in use, is needed by others or takes long to come back.
pub proof fn law_modes_follow_the_facts(facts: DispositionFacts)
    ensures
        derived(facts).mode is ReportOnly <==> !(facts.recovery is Regenerable)
            || !(facts.ownership is Standalone) || !(facts.confidence is Verified)
            || !facts.measurement_complete,
        derived(facts).mode is OptIn <==> facts.recovery is Regenerable && facts.ownership
            is Standalone && facts.confidence is Verified && facts.measurement_complete && (
        facts.hazard is Some || facts.recovery == (Recovery::Regenerable {
            cost: RegenCost::Costly,
        })),
        derived(facts).mode is ReportOnly || derived(facts).mode is OptIn ==> derived(facts).reason
            is Some,
{
}

/// Nothing that is known of something can make up for something else: facts that
/// differ only in one that counts against it never allow more.
pub proof fn law_worse_facts_never_allow_more(facts: DispositionFacts, hazard: Hazard)
    ensures
        mode_rank(derived(DispositionFacts { hazard: Some(hazard), ..facts }).mode) >= mode_rank(
            derived(DispositionFacts { hazard: None, ..facts }).mode,
        ),
        mode_rank(derived(DispositionFacts { measurement_complete: false, ..facts }).mode)
            >= mode_rank(derived(facts).mode),
        mode_rank(
            derived(
                DispositionFacts {
                    recovery: Recovery::Regenerable { cost: RegenCost::Costly },
                    ..facts
                },
            ).mode,
        ) >= mode_rank(
            derived(
                DispositionFacts {
                    recovery: Recovery::Regenerable { cost: RegenCost::Cheap },
                    ..facts
                },
            ).mode,
        ),
        mode_rank(DispositionMode::Eligible) < mode_rank(DispositionMode::OptIn),
        mode_rank(DispositionMode::OptIn) < mode_rank(DispositionMode::ReportOnly),
{
}

} // verus!
