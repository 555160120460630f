//! Making one anchor twice.
//!
//! A run is what becomes of a [`Provisioning`] while every step succeeds. What it
//! meets at the places of its plan is given as a tree: nothing, or what a look by
//! name shows.

use crate::activation_anchor_provisioning::checks::directory_fault;
use crate::activation_anchor_provisioning::checks::DirectoryProbe;
use crate::activation_anchor_provisioning::checks::ValidatedDirectory;
use crate::activation_anchor_provisioning::error::ProvisionFault;
use crate::activation_anchor_provisioning::plan::plan_of;
use crate::activation_anchor_provisioning::plan::OutcomeView;
use crate::activation_anchor_provisioning::plan::PlannedView;
use crate::activation_anchor_provisioning::plan::ActivationAnchorProvisioningStatus;
use crate::activation_anchor_provisioning::plan::ProvisioningRequest;
use crate::activation_anchor_provisioning::plan::Role;
use crate::activation_anchor_provisioning::publish::found_fault;
use crate::activation_anchor_provisioning::publish::is_taken;
use crate::activation_anchor_provisioning::publish::mode_of;
use crate::activation_anchor_provisioning::publish::published_fault;
use crate::activation_anchor_provisioning::publish::FoundProbe;
use crate::activation_anchor_provisioning::publish::PublishedProbe;
use crate::activation_anchor_provisioning::publish::RequestView;
use crate::activation_anchor_provisioning::walk::after_recheck;
use crate::activation_anchor_provisioning::walk::after_settling;
use crate::activation_anchor_provisioning::walk::after_sync;
use crate::activation_anchor_provisioning::walk::anchor_at;
use crate::activation_anchor_provisioning::walk::is_consistent;
use crate::activation_anchor_provisioning::walk::lemma_plan;
use crate::activation_anchor_provisioning::walk::lock_at;
use crate::activation_anchor_provisioning::walk::lock_check_fault;
use crate::activation_anchor_provisioning::walk::outcome_of;
use crate::activation_anchor_provisioning::walk::product_at;
use crate::activation_anchor_provisioning::walk::recheck_fault;
use crate::activation_anchor_provisioning::walk::to_take_back;
use crate::activation_anchor_provisioning::walk::ProvisioningStage;
use crate::activation_anchor_provisioning::walk::ProvisioningView;
use crate::activation_anchor_provisioning::walk::SettledDirectory;
use crate::backend::held::inventory::StrongObjectIdentity;
use vstd::prelude::*;

verus! {

/// What is asked for at a place of a plan.
pub open spec fn request_at(planned: PlannedView) -> RequestView {
    RequestView { path: planned.path, owner: planned.owner, kind: planned.kind }
}

/// Why what is at a place of a plan is not taken. The root has no name to go by.
pub open spec fn look_fault(request: ProvisioningRequest, place: int, probe: FoundProbe) -> Option<
    ProvisionFault,
> {
    let planned = plan_of(request)[place];
    if place == 0 {
        directory_fault(planned.path, planned.owner, planned.kind, probe.directory)
    } else {
        found_fault(request_at(planned), probe)
    }
}

/// The directory is the one that is seen.
pub open spec fn is_seen(probe: DirectoryProbe, directory: ValidatedDirectory) -> bool {
    &&& probe.identity == Some(directory.identity)
    &&& probe.backend is Ok
    &&& probe.backend->Ok_0 == directory.backend
}

/// What is at a place is taken; where nothing is, the directory is made, unless
/// the system has to provide it.
pub open spec fn is_settled(
    request: ProvisioningRequest,
    tree: Seq<Option<FoundProbe>>,
    place: int,
    settled: SettledDirectory,
) -> bool {
    match tree[place] {
        Some(probe) => look_fault(request, place, probe) is None && is_taken(
            settled,
            probe.directory,
            false,
        ),
        None => settled.created && plan_of(request)[place].role != Role::Existing,
    }
}

/// One step of a run.
pub open spec fn is_step(
    tree: Seq<Option<FoundProbe>>,
    before: ProvisioningView,
    after: ProvisioningView,
) -> bool {
    match before.stage {
        ProvisioningStage::Directories => exists|settled: SettledDirectory| #[trigger]
            is_settled(before.request, tree, before.settled.len() as int, settled) && after
                == after_settling(before, settled),
        ProvisioningStage::TakeLock => after == (ProvisioningView {
            stage: ProvisioningStage::CheckLock,
            ..before
        }),
        ProvisioningStage::CheckLock => after == (ProvisioningView {
            stage: ProvisioningStage::Directories,
            ..before
        }),
        ProvisioningStage::Recheck => after == after_recheck(before),
        ProvisioningStage::Sync => after == after_sync(before),
        ProvisioningStage::Finished => false,
    }
}

/// The states of a run, from the start on.
pub open spec fn is_run(
    request: ProvisioningRequest,
    tree: Seq<Option<FoundProbe>>,
    states: Seq<ProvisioningView>,
) -> bool {
    &&& tree.len() == plan_of(request).len()
    &&& states.len() > 0
    &&& states[0] == (ProvisioningView {
        request,
        settled: Seq::empty(),
        stage: ProvisioningStage::Directories,
        at: 0,
    })
    &&& forall|k: int|
        0 < k < states.len() ==> is_step(tree, states[k - 1], #[trigger] states[k])
}

/// A look shows what was published, and that it is one directory.
pub open spec fn shows_published(
    request: RequestView,
    probe: FoundProbe,
    identity: StrongObjectIdentity,
    published: PublishedProbe,
) -> bool {
    &&& published_fault(request, identity, published) is None
    &&& probe.opened is Ok
    &&& probe.directory == published.directory
    &&& probe.entry == published.entry
    &&& probe.entry.identity == probe.directory.identity
}

/// The tree is what a run that met `before` left: what was there is as it was,
/// and what was made is there as it was published.
pub open spec fn is_left(
    request: ProvisioningRequest,
    before: Seq<Option<FoundProbe>>,
    state: ProvisioningView,
    after: Seq<Option<FoundProbe>>,
) -> bool {
    &&& after.len() == before.len()
    &&& forall|place: int|
        0 <= place < before.len() ==> match before[place] {
            Some(probe) => (#[trigger] after[place]) == Some(probe),
            None => after[place] matches Some(probe) && is_seen(
                probe.directory,
                state.settled[place].directory,
            ) && exists|identity: StrongObjectIdentity, published: PublishedProbe| #[trigger]
                shows_published(request_at(plan_of(request)[place]), probe, identity, published),
        }
}

/// Every directory that a run has settled was settled by what it met.
proof fn lemma_run(
    request: ProvisioningRequest,
    tree: Seq<Option<FoundProbe>>,
    states: Seq<ProvisioningView>,
    k: int,
)
    requires
        is_run(request, tree, states),
        0 <= k < states.len(),
    ensures
        states[k].request == request,
        is_consistent(states[k]),
        states[k].settled.len() <= plan_of(request).len(),
        forall|i: int|
            0 <= i < states[k].settled.len() ==> is_settled(
                request,
                tree,
                i,
                #[trigger] states[k].settled[i],
            ),
    decreases k,
{
    lemma_plan(request);
    if k > 0 {
        lemma_run(request, tree, states, k - 1);
        let before = states[k - 1];
        assert(is_step(tree, before, states[k]));
    }
}

/// What a run left passes when it is looked for again.
proof fn lemma_left_passes(
    request: ProvisioningRequest,
    before: Seq<Option<FoundProbe>>,
    states: Seq<ProvisioningView>,
    after: Seq<Option<FoundProbe>>,
    place: int,
)
    requires
        is_run(request, before, states),
        states.last().stage == ProvisioningStage::Finished,
        is_left(request, before, states.last(), after),
        0 <= place < before.len(),
    ensures
        after[place] is Some,
        look_fault(request, place, after[place]->0) is None,
        is_seen(after[place]->0.directory, states.last().settled[place].directory),
        place > 0 ==> after[place]->0.entry.identity == after[place]->0.directory.identity,
{
    lemma_plan(request);
    lemma_run(request, before, states, states.len() - 1);
    let settled = states.last().settled[place];
    assert(is_settled(request, before, place, settled));
    let probe = after[place]->0;
    assert(after[place] == after[place]);
    if before[place] is None {
        let (identity, published) = choose|identity: StrongObjectIdentity, published: PublishedProbe|
            #[trigger]
            shows_published(request_at(plan_of(request)[place]), probe, identity, published);
        assert(shows_published(request_at(plan_of(request)[place]), probe, identity, published));
    }
}

/// Making an anchor where nothing was made yet creates it, with exactly the
/// modes that its directories have to have. Making it again finds everything:
/// nothing is refused, made or taken back, and the outcome is the same but for
/// saying so.
pub proof fn law_second_run_changes_nothing(
    request: ProvisioningRequest,
    tree: Seq<Option<FoundProbe>>,
    first: Seq<ProvisioningView>,
    left: Seq<Option<FoundProbe>>,
    second: Seq<ProvisioningView>,
)
    requires
        is_run(request, tree, first),
        first.last().stage == ProvisioningStage::Finished,
        forall|place: int|
            product_at(request) <= place <= anchor_at(request) ==> (#[trigger] tree[place]) is None,
        is_left(request, tree, first.last(), left),
        is_run(request, left, second),
    ensures
        outcome_of(first.last()).status == ActivationAnchorProvisioningStatus::Created,
        outcome_of(first.last()).uid == request.uid,
        outcome_of(first.last()).path == plan_of(request)[anchor_at(request)].path,
        forall|place: int|
            product_at(request) <= place <= anchor_at(request) ==> ((
            #[trigger] left[place])->0.directory.stat matches Ok(stat) && stat.mode & 0o7777
                == mode_of(plan_of(request)[place].kind)),
        forall|k: int, i: int|
            0 <= k < second.len() && 0 <= i < second[k].settled.len()
                ==> #[trigger] second[k].settled[i] == (SettledDirectory {
                directory: first.last().settled[i].directory,
                created: false,
            }),
        forall|k: int|
            0 <= k < second.len() ==> to_take_back(#[trigger] second[k]).len() == 0 && match second[k].stage {
                ProvisioningStage::Directories => look_fault(
                    request,
                    second[k].settled.len() as int,
                    left[second[k].settled.len() as int]->0,
                ) is None,
                ProvisioningStage::CheckLock => lock_check_fault(
                    second[k],
                    left[lock_at(request)]->0.entry,
                    left[lock_at(request)]->0.directory,
                ) is None,
                ProvisioningStage::Recheck => recheck_fault(
                    second[k],
                    left[second[k].at as int]->0.entry,
                    left[second[k].at as int]->0.directory,
                ) is None,
                _ => true,
            },
        second.last().stage == ProvisioningStage::Finished ==> outcome_of(second.last()) == (
        OutcomeView {
            status: ActivationAnchorProvisioningStatus::AlreadyProvisioned,
            ..outcome_of(first.last())
        }),
{
    lemma_plan(request);
    lemma_run(request, tree, first, first.len() - 1);
    let anchor = anchor_at(request);
    assert(is_settled(request, tree, anchor, first.last().settled[anchor]));
    assert(tree[anchor] is None);
    assert forall|place: int| product_at(request) <= place <= anchor_at(request) implies ((
    #[trigger] left[place])->0.directory.stat matches Ok(stat) && stat.mode & 0o7777 == mode_of(
        plan_of(request)[place].kind,
    )) by {
        lemma_left_passes(request, tree, first, left, place);
    }
    assert forall|k: int, i: int|
        0 <= k < second.len() && 0 <= i < second[k].settled.len() implies #[trigger] second[k].settled[i]
        == (SettledDirectory { directory: first.last().settled[i].directory, created: false }) by {
        lemma_run(request, left, second, k);
        lemma_left_passes(request, tree, first, left, i);
        assert(is_settled(request, left, i, second[k].settled[i]));
    }
    assert forall|k: int| 0 <= k < second.len() implies to_take_back(#[trigger] second[k]).len()
        == 0 && match second[k].stage {
        ProvisioningStage::Directories => look_fault(
            request,
            second[k].settled.len() as int,
            left[second[k].settled.len() as int]->0,
        ) is None,
        ProvisioningStage::CheckLock => lock_check_fault(
            second[k],
            left[lock_at(request)]->0.entry,
            left[lock_at(request)]->0.directory,
        ) is None,
        ProvisioningStage::Recheck => recheck_fault(
            second[k],
            left[second[k].at as int]->0.entry,
            left[second[k].at as int]->0.directory,
        ) is None,
        _ => true,
    } by {
        let state = second[k];
        lemma_run(request, left, second, k);
        if state.settled.len() > anchor {
            assert(!state.settled[anchor].created);
        }
        if state.settled.len() > anchor - 1 {
            assert(!state.settled[anchor - 1].created);
        }
        match state.stage {
            ProvisioningStage::Directories => {
                lemma_left_passes(request, tree, first, left, state.settled.len() as int);
            },
            ProvisioningStage::CheckLock => {
                lemma_left_passes(request, tree, first, left, lock_at(request));
                assert(state.settled[lock_at(request)].directory
                    == first.last().settled[lock_at(request)].directory);
            },
            ProvisioningStage::Recheck => {
                lemma_left_passes(request, tree, first, left, state.at as int);
                assert(state.settled[state.at as int].directory
                    == first.last().settled[state.at as int].directory);
            },
            _ => {},
        }
    }
    lemma_run(request, left, second, second.len() - 1);
    if second.last().stage == ProvisioningStage::Finished {
        assert(second[second.len() - 1].settled[anchor].directory
            == first.last().settled[anchor].directory);
    }
}

} // verus!
