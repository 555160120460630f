//! Making an anchor, directory by directory.
//!
//! The way down to the lock comes first; under the lock the rest is made. Then
//! everything that is held is looked at once more and made durable. What goes
//! wrong before that is taken back, but for the directory of the product and the
//! lock: others may be using them by now.

use crate::activation::anchor::LockFault;
use crate::activation::error::IoFault;
use crate::activation_anchor_provisioning::checks::binding_fault;
use crate::activation_anchor_provisioning::checks::directory_fault;
use crate::activation_anchor_provisioning::checks::validate_binding;
use crate::activation_anchor_provisioning::checks::validate_directory;
use crate::activation_anchor_provisioning::checks::DirectoryProbe;
use crate::activation_anchor_provisioning::checks::EntryProbe;
use crate::activation_anchor_provisioning::checks::ValidatedDirectory;
use crate::activation_anchor_provisioning::error::first_of;
use crate::activation_anchor_provisioning::error::leaves_residue;
use crate::activation_anchor_provisioning::error::residue_fault;
use crate::activation_anchor_provisioning::error::unprovisioned_for;
use crate::activation_anchor_provisioning::error::ActivationAnchorProvisioningError;
use crate::activation_anchor_provisioning::error::ProvisionFault;
use crate::activation_anchor_provisioning::plan::fixed_anchor_path;
use crate::activation_anchor_provisioning::plan::fixed_path;
use crate::activation_anchor_provisioning::plan::lemma_system_part;
use crate::activation_anchor_provisioning::plan::plan_directories;
use crate::activation_anchor_provisioning::plan::plan_of;
use crate::activation_anchor_provisioning::plan::planned_views;
use crate::activation_anchor_provisioning::plan::ActivationAnchorProvisioningOutcome;
use crate::activation_anchor_provisioning::plan::ActivationAnchorProvisioningStatus;
use crate::activation_anchor_provisioning::plan::OutcomeView;
use crate::activation_anchor_provisioning::plan::PlannedDirectory;
use crate::activation_anchor_provisioning::plan::ProvisioningRequest;
use crate::activation_anchor_provisioning::plan::Role;
use crate::anchor_layout::os_prefix;
use crate::backend::held::inventory::StrongObjectIdentity;
use crate::bytes::to_vec;
use crate::paths::compare_bytes;
use crate::paths::components;
use crate::paths::lemma_precedes_asymmetric;
use crate::paths::path_less;
use crate::paths::paths_equal;
use crate::paths::same_path;
use crate::paths::views;
use crate::paths::Collation;
use crate::paths::Component;
use crate::paths::PathOrder;
use crate::sorting::lemma_mapped_items;
use crate::sorting::lemma_not_before_transitive;
use crate::sorting::lemma_repeats_ignore_order;
use crate::sorting::sort;
use crate::sorting::Sortable;
use vstd::prelude::*;

verus! {

/// What comes next.
#[derive(Clone, Copy, Debug, PartialEq, Eq, Structural)]
pub enum ProvisioningStage {
    /// The next directory is found or made.
    Directories,
    /// The lock is taken.
    TakeLock,
    /// The lock is looked at once more.
    CheckLock,
    /// Every directory is looked at once more.
    Recheck,
    /// Every directory is made durable.
    Sync,
    /// Nothing.
    Finished,
}

/// A directory that is there.
#[derive(Clone, Copy, Debug, PartialEq, Eq, Structural)]
pub struct SettledDirectory {
    pub directory: ValidatedDirectory,
    /// Whether it was made.
    pub created: bool,
}

/// The making of an anchor.
#[derive(Debug)]
pub struct Provisioning {
    request: ProvisioningRequest,
    plan: Vec<PlannedDirectory>,
    settled: Vec<SettledDirectory>,
    stage: ProvisioningStage,
    at: usize,
}

/// The content of a [`Provisioning`].
#[verifier::ext_equal]
pub struct ProvisioningView {
    pub request: ProvisioningRequest,
    /// The directories that are there, in the order of the plan.
    pub settled: Seq<SettledDirectory>,
    pub stage: ProvisioningStage,
    /// The place in the plan that the stage has come to.
    pub at: nat,
}

impl View for Provisioning {
    type V = ProvisioningView;

    closed spec fn view(&self) -> ProvisioningView {
        ProvisioningView {
            request: self.request,
            settled: self.settled@,
            stage: self.stage,
            at: self.at as nat,
        }
    }
}

/// How many directories a plan has before the one of the product.
pub open spec fn system_count(request: ProvisioningRequest) -> nat {
    os_prefix(request.platform).len() + 1
}

/// The place of the product's directory.
pub open spec fn product_at(request: ProvisioningRequest) -> int {
    system_count(request) as int
}

/// The place of the lock.
pub open spec fn lock_at(request: ProvisioningRequest) -> int {
    system_count(request) as int + 1
}

/// The place of the anchor.
pub open spec fn anchor_at(request: ProvisioningRequest) -> int {
    system_count(request) as int + 3
}

/// The state is one that the making can come to.
pub open spec fn is_consistent(state: ProvisioningView) -> bool {
    let total = anchor_at(state.request) + 1;
    match state.stage {
        ProvisioningStage::Directories => state.settled.len() < total,
        ProvisioningStage::TakeLock => state.settled.len() == lock_at(state.request) + 1,
        ProvisioningStage::CheckLock => state.settled.len() == lock_at(state.request) + 1,
        ProvisioningStage::Recheck => state.settled.len() == total && state.at < total && state.at
            != lock_at(state.request),
        ProvisioningStage::Sync => state.settled.len() == total && state.at < total && state.at
            != lock_at(state.request),
        ProvisioningStage::Finished => state.settled.len() == total,
    }
}

/// The shape of a plan.
pub proof fn lemma_plan(request: ProvisioningRequest)
    ensures
        plan_of(request).len() == anchor_at(request) + 1,
        plan_of(request)[product_at(request)].role == Role::Product,
        plan_of(request)[lock_at(request)].role == Role::Lock,
        plan_of(request)[lock_at(request) + 1].role == Role::Store,
        plan_of(request)[anchor_at(request)].role == Role::Anchor,
        plan_of(request)[anchor_at(request)].path == fixed_anchor_path(
            request.filesystem_root@,
            Some(request.platform),
            request.uid,
        ),
        forall|i: int|
            0 <= i < product_at(request) ==> (#[trigger] plan_of(request)[i]).role
                == Role::Existing,
        system_count(request) >= 3,
{
    lemma_system_part(
        request.filesystem_root@,
        os_prefix(request.platform),
        os_prefix(request.platform).len() as int,
        request.credentials.controller_uid,
    );
}

/// Whether a directory was made.
pub open spec fn was_created(state: ProvisioningView, place: int) -> bool {
    place < state.settled.len() && state.settled[place].created
}

/// What was made and has to be taken back: the anchor, and the directory of the
/// anchors.
pub open spec fn to_take_back(state: ProvisioningView) -> Seq<int> {
    let anchor = anchor_at(state.request);
    let store = anchor - 1;
    if was_created(state, anchor) {
        if was_created(state, store) {
            seq![anchor, store]
        } else {
            seq![anchor]
        }
    } else if was_created(state, store) {
        seq![store]
    } else {
        Seq::empty()
    }
}

/// What was made and stays: the directory of the product, and the lock.
pub open spec fn stays(state: ProvisioningView) -> Seq<Seq<u8>> {
    let product = product_at(state.request);
    let lock = lock_at(state.request);
    let plan = plan_of(state.request);
    if was_created(state, product) {
        if was_created(state, lock) {
            seq![plan[product].path, plan[lock].path]
        } else {
            seq![plan[product].path]
        }
    } else if was_created(state, lock) {
        seq![plan[lock].path]
    } else {
        Seq::empty()
    }
}

/// Something that was made, and what it is.
#[derive(Debug)]
pub struct CreatedEntry {
    pub path: Vec<u8>,
    pub identity: StrongObjectIdentity,
}

/// The next place in the plan on the way up, without the lock.
pub open spec fn next_up(request: ProvisioningRequest, at: int) -> int {
    if at + 1 == lock_at(request) {
        at + 2
    } else {
        at + 1
    }
}

/// The next place in the plan on the way down, without the lock.
pub open spec fn next_down(request: ProvisioningRequest, at: int) -> int {
    if at - 1 == lock_at(request) {
        at - 2
    } else {
        at - 1
    }
}

/// Why a directory does not pass when it is looked at once more. The root has no
/// name to go by.
pub open spec fn recheck_fault(
    state: ProvisioningView,
    entry: EntryProbe,
    directory: DirectoryProbe,
) -> Option<ProvisionFault> {
    let at = state.at as int;
    let planned = plan_of(state.request)[at];
    first_of(
        if at == 0 {
            None
        } else {
            binding_fault(planned.path, state.settled[at].directory.identity, entry)
        },
        directory_fault(planned.path, planned.owner, planned.kind, directory),
    )
}

/// Why the lock does not pass when it is looked at once more.
pub open spec fn lock_check_fault(
    state: ProvisioningView,
    entry: EntryProbe,
    directory: DirectoryProbe,
) -> Option<ProvisionFault> {
    let lock = lock_at(state.request);
    let planned = plan_of(state.request)[lock];
    first_of(
        binding_fault(planned.path, state.settled[lock].directory.identity, entry),
        directory_fault(planned.path, planned.owner, planned.kind, directory),
    )
}

/// The state once the next directory is there.
pub open spec fn after_settling(state: ProvisioningView, directory: SettledDirectory)
    -> ProvisioningView {
    ProvisioningView {
        settled: state.settled.push(directory),
        stage: if state.settled.len() == lock_at(state.request) {
            ProvisioningStage::TakeLock
        } else if state.settled.len() == anchor_at(state.request) {
            ProvisioningStage::Recheck
        } else {
            ProvisioningStage::Directories
        },
        at: 0,
        ..state
    }
}

/// The state once a directory was looked at once more.
pub open spec fn after_recheck(state: ProvisioningView) -> ProvisioningView {
    if state.at == anchor_at(state.request) {
        ProvisioningView { stage: ProvisioningStage::Sync, ..state }
    } else {
        ProvisioningView { at: next_up(state.request, state.at as int) as nat, ..state }
    }
}

/// The state once a directory was made durable.
pub open spec fn after_sync(state: ProvisioningView) -> ProvisioningView {
    if state.at == 0 {
        ProvisioningView { stage: ProvisioningStage::Finished, ..state }
    } else {
        ProvisioningView { at: next_down(state.request, state.at as int) as nat, ..state }
    }
}

/// What a making that is finished came to.
pub open spec fn outcome_of(state: ProvisioningView) -> OutcomeView {
    let anchor = state.settled[anchor_at(state.request)];
    OutcomeView {
        path: fixed_anchor_path(
            state.request.filesystem_root@,
            Some(state.request.platform),
            state.request.uid,
        ),
        uid: state.request.uid,
        backend: anchor.directory.backend,
        status: if anchor.created {
            ActivationAnchorProvisioningStatus::Created
        } else {
            ActivationAnchorProvisioningStatus::AlreadyProvisioned
        },
    }
}

impl Provisioning {
    /// The state is one that the making can come to.
    pub closed spec fn wf(&self) -> bool {
        &&& planned_views(self.plan@) == plan_of(self.request)
        &&& is_consistent(self@)
    }

    /// Starts at the root.
    pub fn begin(request: ProvisioningRequest) -> (provisioning: Self)
        ensures
            provisioning.wf(),
            provisioning@ == (ProvisioningView {
                request,
                settled: Seq::empty(),
                stage: ProvisioningStage::Directories,
                at: 0,
            }),
    {
        let plan = plan_directories(&request);
        let provisioning = Provisioning {
            request,
            plan,
            settled: Vec::new(),
            stage: ProvisioningStage::Directories,
            at: 0,
        };
        assert(provisioning@.settled =~= Seq::<SettledDirectory>::empty());
        provisioning
    }

    /// What comes next.
    pub fn stage(&self) -> (stage: ProvisioningStage)
        ensures
            stage == self@.stage,
    {
        self.stage
    }

    fn planned(&self, place: usize) -> (planned: &PlannedDirectory)
        requires
            self.wf(),
            place <= anchor_at(self@.request),
        ensures
            planned@ == plan_of(self@.request)[place as int],
    {
        proof {
            lemma_plan(self.request);
            assert(planned_views(self.plan@).len() == self.plan@.len());
            assert(planned_views(self.plan@)[place as int] == self.plan@[place as int]@);
        }
        &self.plan[place]
    }

    fn total(&self) -> (total: usize)
        requires
            self.wf(),
        ensures
            total == anchor_at(self@.request) + 1,
            total >= 7,
    {
        proof {
            lemma_plan(self.request);
            assert(planned_views(self.plan@).len() == self.plan@.len());
        }
        self.plan.len()
    }

    /// The directory that is to be there next.
    pub fn next_directory(&self) -> (planned: &PlannedDirectory)
        requires
            self.wf(),
            self@.stage == ProvisioningStage::Directories,
        ensures
            planned@ == plan_of(self@.request)[self@.settled.len() as int],
    {
        let next: usize = self.settled.len();
        self.planned(next)
    }

    /// The directory that is being looked at once more, or made durable.
    pub fn current_directory(&self) -> (planned: &PlannedDirectory)
        requires
            self.wf(),
            self@.stage == ProvisioningStage::Recheck || self@.stage == ProvisioningStage::Sync,
        ensures
            planned@ == plan_of(self@.request)[self@.at as int],
    {
        self.planned(self.at)
    }

    /// Where the lock lies.
    pub fn lock_path(&self) -> (path: &[u8])
        requires
            self.wf(),
        ensures
            path@ == plan_of(self@.request)[lock_at(self@.request)].path,
    {
        let total: usize = self.total();
        self.planned(total - 3).path.as_slice()
    }

    /// Takes the next directory, found or made.
    pub fn settle(
        &mut self,
        found: Result<SettledDirectory, ActivationAnchorProvisioningError>,
    ) -> (outcome: Result<(), ActivationAnchorProvisioningError>)
        requires
            old(self).wf(),
            old(self)@.stage == ProvisioningStage::Directories,
        ensures
            final(self).wf(),
            match found {
                Err(error) => outcome == Err::<(), ActivationAnchorProvisioningError>(error)
                    && final(self)@ == old(self)@,
                Ok(directory) => outcome is Ok && final(self)@ == after_settling(
                    old(self)@,
                    directory,
                ),
            },
    {
        let directory = found?;
        let total: usize = self.total();
        let count: usize = self.settled.len();
        self.settled.push(directory);
        self.at = 0;
        if count == total - 3 {
            self.stage = ProvisioningStage::TakeLock;
        } else if count == total - 1 {
            self.stage = ProvisioningStage::Recheck;
        }
        Ok(())
    }

    /// Goes on once the lock was taken.
    pub fn lock_taken(&mut self, taken: Result<(), LockFault>) -> (outcome: Result<
        (),
        ActivationAnchorProvisioningError,
    >)
        requires
            old(self).wf(),
            old(self)@.stage == ProvisioningStage::TakeLock,
        ensures
            final(self).wf(),
            ({
                let path = plan_of(old(self)@.request)[lock_at(old(self)@.request)].path;
                unprovisioned_for(
                    outcome,
                    match taken {
                        Ok(_) => None,
                        Err(LockFault::Busy) => Some(ProvisionFault::Busy { path }),
                        Err(LockFault::Io(fault)) => Some(ProvisionFault::Io { path, fault }),
                    },
                )
            }),
            final(self)@ == if taken is Ok {
                ProvisioningView { stage: ProvisioningStage::CheckLock, ..old(self)@ }
            } else {
                old(self)@
            },
    {
        match taken {
            Ok(_) => {
                self.stage = ProvisioningStage::CheckLock;
                Ok(())
            },
            Err(LockFault::Busy) => Err(
                ActivationAnchorProvisioningError::Busy { path: to_vec(self.lock_path()) },
            ),
            Err(LockFault::Io(fault)) => Err(
                ActivationAnchorProvisioningError::Io { path: to_vec(self.lock_path()), fault },
            ),
        }
    }

    /// Goes on once the lock that was taken was looked at once more.
    pub fn lock_checked(&mut self, entry: EntryProbe, directory: DirectoryProbe) -> (outcome: Result<
        (),
        ActivationAnchorProvisioningError,
    >)
        requires
            old(self).wf(),
            old(self)@.stage == ProvisioningStage::CheckLock,
        ensures
            final(self).wf(),
            unprovisioned_for(outcome, lock_check_fault(old(self)@, entry, directory)),
            final(self)@ == if outcome is Ok {
                ProvisioningView { stage: ProvisioningStage::Directories, ..old(self)@ }
            } else {
                old(self)@
            },
    {
        let total: usize = self.total();
        let lock: usize = total - 3;
        let identity = self.settled[lock].directory.identity;
        let planned = self.planned(lock);
        validate_binding(planned.path.as_slice(), identity, entry)?;
        validate_directory(planned.path.as_slice(), planned.owner, planned.kind, directory)?;
        self.stage = ProvisioningStage::Directories;
        Ok(())
    }

    /// Goes on once a directory was looked at once more.
    pub fn rechecked(&mut self, entry: EntryProbe, directory: DirectoryProbe) -> (outcome: Result<
        (),
        ActivationAnchorProvisioningError,
    >)
        requires
            old(self).wf(),
            old(self)@.stage == ProvisioningStage::Recheck,
        ensures
            final(self).wf(),
            unprovisioned_for(outcome, recheck_fault(old(self)@, entry, directory)),
            final(self)@ == if outcome is Err {
                old(self)@
            } else {
                after_recheck(old(self)@)
            },
    {
        let total: usize = self.total();
        let at: usize = self.at;
        let identity = self.settled[at].directory.identity;
        let planned = self.planned(at);
        if at != 0 {
            validate_binding(planned.path.as_slice(), identity, entry)?;
        }
        validate_directory(planned.path.as_slice(), planned.owner, planned.kind, directory)?;
        if at == total - 1 {
            self.stage = ProvisioningStage::Sync;
        } else if at + 1 == total - 3 {
            self.at = at + 2;
        } else {
            self.at = at + 1;
        }
        Ok(())
    }

    /// Goes on once a directory was made durable, from the anchor up to the root.
    pub fn synced(&mut self, synced: Result<(), IoFault>) -> (outcome: Result<
        (),
        ActivationAnchorProvisioningError,
    >)
        requires
            old(self).wf(),
            old(self)@.stage == ProvisioningStage::Sync,
        ensures
            final(self).wf(),
            unprovisioned_for(
                outcome,
                match synced {
                    Ok(_) => None,
                    Err(fault) => Some(
                        ProvisionFault::Io {
                            path: plan_of(old(self)@.request)[old(self)@.at as int].path,
                            fault,
                        },
                    ),
                },
            ),
            final(self)@ == if outcome is Err {
                old(self)@
            } else {
                after_sync(old(self)@)
            },
    {
        let total: usize = self.total();
        let at: usize = self.at;
        match synced {
            Ok(_) => {},
            Err(fault) => {
                return Err(
                    ActivationAnchorProvisioningError::Io {
                        path: to_vec(self.planned(at).path.as_slice()),
                        fault,
                    },
                );
            },
        }
        if at == 0 {
            self.stage = ProvisioningStage::Finished;
        } else if at - 1 == total - 3 {
            self.at = at - 2;
        } else {
            self.at = at - 1;
        }
        Ok(())
    }

    /// What the making came to.
    pub fn finish(self) -> (outcome: ActivationAnchorProvisioningOutcome)
        requires
            self.wf(),
            self@.stage == ProvisioningStage::Finished,
        ensures
            outcome@ == outcome_of(self@),
    {
        let total: usize = self.total();
        let anchor = self.settled[total - 1];
        ActivationAnchorProvisioningOutcome {
            path: fixed_path(
                self.request.filesystem_root.as_slice(),
                Some(self.request.platform),
                self.request.uid,
            ),
            uid: self.request.uid,
            backend: anchor.directory.backend,
            status: if anchor.created {
                ActivationAnchorProvisioningStatus::Created
            } else {
                ActivationAnchorProvisioningStatus::AlreadyProvisioned
            },
        }
    }

    fn created_at(&self, place: usize) -> (created: bool)
        ensures
            created == was_created(self@, place as int),
    {
        place < self.settled.len() && self.settled[place].created
    }

    /// What has to be taken back after a failure, in this order.
    pub fn rollback_targets(&self) -> (targets: Vec<CreatedEntry>)
        requires
            self.wf(),
        ensures
            targets@.len() == to_take_back(self@).len(),
            forall|i: int|
                0 <= i < targets@.len() ==> {
                    let place = to_take_back(self@)[i];
                    (#[trigger] targets@[i]).path@ == plan_of(self@.request)[place].path
                        && targets@[i].identity == self@.settled[place].directory.identity
                },
    {
        let total: usize = self.total();
        let anchor: usize = total - 1;
        let store: usize = total - 2;
        let mut targets: Vec<CreatedEntry> = Vec::new();
        if self.created_at(anchor) {
            targets.push(
                CreatedEntry {
                    path: to_vec(self.planned(anchor).path.as_slice()),
                    identity: self.settled[anchor].directory.identity,
                },
            );
        }
        if self.created_at(store) {
            targets.push(
                CreatedEntry {
                    path: to_vec(self.planned(store).path.as_slice()),
                    identity: self.settled[store].directory.identity,
                },
            );
        }
        targets
    }

    /// What is left to say of a failure, given what could not be taken back.
    pub fn report_failure(
        self,
        failure: ActivationAnchorProvisioningError,
        not_removed: Vec<Vec<u8>>,
    ) -> (error: ActivationAnchorProvisioningError)
        requires
            self.wf(),
        ensures
            ({
                let left = views(not_removed@) + stays(self@);
                if left.len() == 0 {
                    error == failure
                } else {
                    exists|residue: Seq<Seq<u8>>|
                        is_residue(residue, left) && error@ == #[trigger] residue_fault(
                            failure@,
                            residue,
                        )
                }
            }),
    {
        let total: usize = self.total();
        let product: usize = total - 4;
        let lock: usize = total - 3;
        let ghost given = views(not_removed@);
        let mut left = not_removed;
        if self.created_at(product) {
            let path = to_vec(self.planned(product).path.as_slice());
            let ghost before = views(left@);
            left.push(path);
            assert(views(left@) =~= before.push(path@));
        }
        if self.created_at(lock) {
            let path = to_vec(self.planned(lock).path.as_slice());
            let ghost before = views(left@);
            left.push(path);
            assert(views(left@) =~= before.push(path@));
        }
        assert(views(left@) =~= given + stays(self@));
        if left.len() == 0 {
            return failure;
        }
        let residue = ordered_paths(left);
        let ghost listed = views(residue@);
        let ghost reason = failure@;
        let error = leaves_residue(failure, residue);
        assert(error@ == residue_fault(reason, listed));
        error
    }
}

/// The path stands in the list, and none before it leads to the same place.
pub open spec fn stands_first(left: Seq<Seq<u8>>, path: Seq<u8>) -> bool {
    exists|i: int|
        0 <= i < left.len() && #[trigger] left[i] == path && forall|j: int|
            0 <= j < i ==> !same_path(#[trigger] left[j], path)
}

/// The paths that are left, in order and each place once.
pub open spec fn is_residue(residue: Seq<Seq<u8>>, left: Seq<Seq<u8>>) -> bool {
    &&& forall|i: int, j: int|
        #![trigger residue[i], residue[j]]
        0 <= i < j < residue.len() ==> !path_less(residue[j], residue[i]) && !same_path(
            residue[i],
            residue[j],
        )
    &&& forall|path: Seq<u8>| #[trigger] residue.contains(path) <==> stands_first(left, path)
}

/// A path that is put in order.
struct OrderedPath {
    path: Vec<u8>,
}

impl Sortable for OrderedPath {
    closed spec fn stands_before(&self, other: &Self) -> bool {
        path_less(self.path@, other.path@)
    }

    proof fn asymmetric(first: &Self, second: &Self) {
        lemma_precedes_asymmetric(Collation::Components, first.path@, second.path@);
    }

    proof fn transitive(first: &Self, second: &Self, third: &Self) {
        lemma_not_before_transitive(Collation::Components, first.path@, second.path@, third.path@);
    }

    fn comes_before(&self, other: &Self) -> (before: bool) {
        match compare_bytes(
            Collation::Components,
            self.path.as_slice(),
            other.path.as_slice(),
        ) {
            PathOrder::Less => true,
            _ => false,
        }
    }
}

/// The paths of a list that is being put in order.
spec fn ordered_views(list: Seq<OrderedPath>) -> Seq<Seq<u8>> {
    Seq::new(list.len(), |i: int| list[i].path@)
}

/// The places that they lead to.
spec fn places(list: Seq<Seq<u8>>) -> Seq<Seq<Component>> {
    Seq::new(list.len(), |i: int| components(list[i]))
}

/// Whether a path leads where one that is being put in order does.
fn is_listed(items: &Vec<OrderedPath>, path: &[u8]) -> (listed: bool)
    ensures
        listed == places(ordered_views(items@)).contains(components(path@)),
{
    let ghost list = ordered_views(items@);
    let mut i: usize = 0;
    while i < items.len()
        invariant
            i <= items@.len(),
            list == ordered_views(items@),
            forall|n: int| 0 <= n < i ==> #[trigger] places(list)[n] != components(path@),
        decreases items@.len() - i,
    {
        assert(places(list)[i as int] == components(items@[i as int].path@));
        if paths_equal(items[i].path.as_slice(), path) {
            return true;
        }
        i += 1;
    }
    false
}

/// Puts paths in order, each place once.
fn ordered_paths(left: Vec<Vec<u8>>) -> (residue: Vec<Vec<u8>>)
    ensures
        is_residue(views(residue@), views(left@)),
{
    let ghost given = views(left@);
    let mut items: Vec<OrderedPath> = Vec::new();
    let mut i: usize = 0;
    while i < left.len()
        invariant
            i <= left@.len(),
            given == views(left@),
            are_firsts(ordered_views(items@), given.take(i as int)),
        decreases left@.len() - i,
    {
        let ghost before = ordered_views(items@);
        let ghost path = given[i as int];
        let listed = is_listed(&items, left[i].as_slice());
        if !listed {
            items.push(OrderedPath { path: to_vec(left[i].as_slice()) });
        }
        proof {
            let after = ordered_views(items@);
            if !listed {
                assert(after =~= before.push(path));
            } else {
                assert(after =~= before);
            }
            lemma_one_more(before, after, given, i as int);
        }
        i += 1;
    }
    assert(given.take(i as int) =~= given);
    let ghost unordered = items@;
    let sorted = sort(items);
    let ghost order = sorted@;
    proof {
        let f = |item: OrderedPath| item.path@;
        lemma_mapped_items(order, unordered, f);
        assert(order.map_values(f) =~= ordered_views(order));
        assert(unordered.map_values(f) =~= ordered_views(unordered));
        lemma_repeats_ignore_order(ordered_views(order), ordered_views(unordered));
        let g = |item: OrderedPath| components(item.path@);
        lemma_mapped_items(order, unordered, g);
        assert(order.map_values(g) =~= places(ordered_views(order)));
        assert(unordered.map_values(g) =~= places(ordered_views(unordered)));
        lemma_repeats_ignore_order(
            places(ordered_views(order)),
            places(ordered_views(unordered)),
        );
    }
    let mut residue: Vec<Vec<u8>> = Vec::new();
    let mut n: usize = 0;
    while n < sorted.len()
        invariant
            n <= sorted@.len(),
            order == sorted@,
            views(residue@) == ordered_views(order).take(n as int),
        decreases sorted@.len() - n,
    {
        let ghost before = views(residue@);
        residue.push(to_vec(sorted[n].path.as_slice()));
        proof {
            assert(views(residue@) =~= before.push(order[n as int].path@));
            assert(ordered_views(order).take(n + 1) =~= before.push(order[n as int].path@));
        }
        n += 1;
    }
    proof {
        let list = views(residue@);
        assert(list =~= ordered_views(order));
        assert forall|a: int, b: int|
            #![trigger list[a], list[b]]
            0 <= a < b < list.len() implies !path_less(list[b], list[a]) && !same_path(
            list[a],
            list[b],
        ) by {
            assert(!order[b].stands_before(&order[a]));
            assert(places(list)[a] != places(list)[b]);
        }
    }
    residue
}

/// The paths are those that stand first in the list, each place once.
spec fn are_firsts(firsts: Seq<Seq<u8>>, given: Seq<Seq<u8>>) -> bool {
    &&& places(firsts).no_duplicates()
    &&& forall|path: Seq<u8>| #[trigger] firsts.contains(path) <==> stands_first(given, path)
    &&& forall|n: int|
        0 <= n < given.len() ==> places(firsts).contains(components(#[trigger] given[n]))
}

/// One more path, unless its place is listed.
proof fn lemma_one_more(
    before: Seq<Seq<u8>>,
    after: Seq<Seq<u8>>,
    given: Seq<Seq<u8>>,
    i: int,
)
    requires
        0 <= i < given.len(),
        are_firsts(before, given.take(i)),
        after == if places(before).contains(components(given[i])) {
            before
        } else {
            before.push(given[i])
        },
    ensures
        are_firsts(after, given.take(i + 1)),
{
    let shorter = given.take(i);
    let longer = given.take(i + 1);
    let next = given[i];
    let listed = places(before).contains(components(next));
    assert(longer =~= shorter.push(next));
    if !listed {
        assert(places(after) =~= places(before).push(components(next)));
        assert forall|j: int| 0 <= j < i implies !same_path(#[trigger] longer[j], next) by {
            assert(shorter[j] == longer[j]);
        }
        assert(longer[i] == next);
        assert(stands_first(longer, next));
    } else {
        let m = choose|m: int|
            0 <= m < places(before).len() && places(before)[m] == components(next);
        assert(before.contains(before[m]));
        let n = choose|n: int| 0 <= n < shorter.len() && #[trigger] shorter[n] == before[m];
        assert(same_path(longer[n], next));
    }
    assert forall|path: Seq<u8>| stands_first(shorter, path) implies stands_first(
        longer,
        path,
    ) by {
        let n = choose|n: int|
            0 <= n < shorter.len() && #[trigger] shorter[n] == path && forall|j: int|
                0 <= j < n ==> !same_path(#[trigger] shorter[j], path);
        assert(longer[n] == path);
        assert forall|j: int| 0 <= j < n implies !same_path(#[trigger] longer[j], path) by {
            assert(shorter[j] == longer[j]);
        }
    }
    assert forall|path: Seq<u8>|
        stands_first(longer, path) && !stands_first(shorter, path) implies path == next
        && !listed by {
        let n = choose|n: int|
            0 <= n < longer.len() && #[trigger] longer[n] == path && forall|j: int|
                0 <= j < n ==> !same_path(#[trigger] longer[j], path);
        if n < i {
            assert(shorter[n] == path);
            assert forall|j: int| 0 <= j < n implies !same_path(#[trigger] shorter[j], path) by {
                assert(shorter[j] == longer[j]);
            }
        }
    }
    assert forall|path: Seq<u8>| #[trigger]
        after.contains(path) <==> stands_first(longer, path) by {
        if before.contains(path) {
            let m = choose|m: int| 0 <= m < before.len() && before[m] == path;
            assert(after[m] == path);
        }
        if after.contains(path) {
            let m = choose|m: int| 0 <= m < after.len() && after[m] == path;
            if m < before.len() {
                assert(before[m] == path);
                assert(before.contains(path));
            }
        }
        if !listed {
            assert(after[before.len() as int] == next);
        }
    }
    assert forall|n: int| 0 <= n < longer.len() implies places(after).contains(
        components(#[trigger] longer[n]),
    ) by {
        if n < i {
            assert(shorter[n] == longer[n]);
            let m = choose|m: int|
                0 <= m < places(before).len() && places(before)[m] == components(shorter[n]);
            assert(places(after)[m] == components(longer[n]));
        } else if listed {
            assert(longer[n] == next);
        } else {
            assert(places(after)[before.len() as int] == components(longer[n]));
        }
    }
}

/// What the system provides is never taken back, and neither are the directory
/// of the product and the lock.
pub proof fn law_shared_directories_stay(state: ProvisioningView, i: int)
    requires
        0 <= i < to_take_back(state).len(),
    ensures
        ({
            let role = plan_of(state.request)[to_take_back(state)[i]].role;
            role == Role::Store || role == Role::Anchor
        }),
{
    lemma_plan(state.request);
}

/// Looking once more at everything but the lock, from the root up to the anchor,
/// leaves nothing out: each place but that of the lock follows on the one before
/// it, and the last is the anchor; making it durable goes the same way back.
pub proof fn law_nothing_is_left_out(state: ProvisioningView)
    requires
        is_consistent(state),
        state.stage == ProvisioningStage::Recheck || state.stage == ProvisioningStage::Sync,
    ensures
        state.stage == ProvisioningStage::Recheck && state.at < anchor_at(state.request) ==> {
            let after = after_recheck(state);
            &&& after.stage == ProvisioningStage::Recheck
            &&& after.at > state.at
            &&& forall|p: int|
                state.at < p < after.at ==> #[trigger] plan_of(state.request)[p].role == Role::Lock
        },
        state.stage == ProvisioningStage::Recheck && state.at == anchor_at(state.request) ==> {
            let after = after_recheck(state);
            after.stage == ProvisioningStage::Sync && after.at == state.at
        },
        state.stage == ProvisioningStage::Sync && state.at > 0 ==> {
            let after = after_sync(state);
            &&& after.stage == ProvisioningStage::Sync
            &&& after.at < state.at
            &&& forall|p: int|
                after.at < p < state.at ==> #[trigger] plan_of(state.request)[p].role == Role::Lock
        },
        state.stage == ProvisioningStage::Sync && state.at == 0 ==> after_sync(state).stage
            == ProvisioningStage::Finished,
{
    lemma_plan(state.request);
}

/// A directory that is looked at once more passes exactly where it still passes
/// as what it is to be and, but for the root, its name still leads to the very
/// directory that was settled.
pub proof fn law_rechecks_find_the_settled_directory(
    state: ProvisioningView,
    entry: EntryProbe,
    directory: DirectoryProbe,
)
    ensures
        recheck_fault(state, entry, directory) is None <==> {
            let planned = plan_of(state.request)[state.at as int];
            &&& directory_fault(planned.path, planned.owner, planned.kind, directory) is None
            &&& state.at > 0 ==> binding_fault(
                planned.path,
                state.settled[state.at as int].directory.identity,
                entry,
            ) is None
        },
        state.at > 0 && recheck_fault(state, entry, directory) is None ==> entry.identity == Some(
            state.settled[state.at as int].directory.identity,
        ),
        lock_check_fault(state, entry, directory) is None ==> entry.identity == Some(
            state.settled[lock_at(state.request)].directory.identity,
        ) && directory_fault(
            plan_of(state.request)[lock_at(state.request)].path,
            plan_of(state.request)[lock_at(state.request)].owner,
            plan_of(state.request)[lock_at(state.request)].kind,
            directory,
        ) is None,
{
}

/// What a making came to is said of the anchor of the account that was asked for,
/// and says that it was made exactly where it was.
pub proof fn law_outcomes_speak_of_the_anchor(state: ProvisioningView)
    ensures
        ({
            let anchor = plan_of(state.request).len() - 1;
            let outcome = outcome_of(state);
            &&& outcome.uid == state.request.uid
            &&& outcome.path == plan_of(state.request)[anchor].path
            &&& outcome.backend == state.settled[anchor].directory.backend
            &&& outcome.status == ActivationAnchorProvisioningStatus::Created
                <==> state.settled[anchor].created
            &&& outcome.status == ActivationAnchorProvisioningStatus::AlreadyProvisioned
                <==> !state.settled[anchor].created
        }),
{
    lemma_plan(state.request);
}

/// What was made is taken back or stays, and nothing that was only found is
/// touched.
pub proof fn law_only_what_was_made_is_taken_back(state: ProvisioningView)
    ensures
        forall|i: int|
            0 <= i < to_take_back(state).len() ==> {
                let place = #[trigger] to_take_back(state)[i];
                place < state.settled.len() && state.settled[place].created
            },
        forall|place: int|
            product_at(state.request) <= place <= anchor_at(state.request) && place
                < state.settled.len() && (#[trigger] state.settled[place]).created && (plan_of(
                state.request,
            )[place].role == Role::Store || plan_of(state.request)[place].role == Role::Anchor)
                ==> to_take_back(state).contains(place),
        to_take_back(state).len() == 2 ==> to_take_back(state)[0] > to_take_back(state)[1],
{
    lemma_plan(state.request);
    let taken = to_take_back(state);
    let anchor = anchor_at(state.request);
    assert forall|place: int|
        product_at(state.request) <= place <= anchor && place < state.settled.len() && (
        #[trigger] state.settled[place]).created && (plan_of(state.request)[place].role
            == Role::Store || plan_of(state.request)[place].role == Role::Anchor) implies taken.contains(
    place) by {
        if place == anchor {
            assert(taken[0] == place);
        } else {
            assert(place == anchor - 1);
            if was_created(state, anchor) {
                assert(taken[1] == place);
            } else {
                assert(taken[0] == place);
            }
        }
    }
}

} // verus!
