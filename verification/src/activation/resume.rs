//! Starting an activation, or going on with one.
//!
//! What was started names its store; another place that is desired by now does
//! not count. What is started records the store before it marks it.

use crate::activation::discovery::is_optional_prepare;
use crate::activation::discovery::new_prepare_record;
use crate::activation::discovery::open_recorded_store;
use crate::activation::discovery::read_optional_prepare;
use crate::activation::discovery::require_activated;
use crate::activation::discovery::require_preparing;
use crate::activation::discovery::is_evidence;
use crate::activation::discovery::RecordedStore;
use crate::activation::discovery::StoreActivationKind;
use crate::activation::error::read_refusal;
use crate::activation::error::refused_as;
use crate::activation::error::store_error_from_record_read;
use crate::activation::error::unrecordable;
use crate::activation::error::ActivationFault;
use crate::activation::error::ReadFault;
use crate::activation::error::RecordReadError;
use crate::activation::error::StoreActivationError;
use crate::activation::error::StoreError;
use crate::activation::record::active_bytes;
use crate::activation::record::encode_active;
use crate::activation::record::encode_prepare;
use crate::activation::record::is_binding;
use crate::activation::record::prepare_bytes;
use crate::activation::record::ActiveRecord;
use crate::activation::record::AuthorityRecord;
use crate::activation::record::BoundObject;
use crate::activation::record::BoundView;
use crate::activation::record::ClaimView;
use crate::activation::record::PrepareRecord;
use crate::activation::record::PrepareView;
use crate::backend::certify::CertifiedLocalBackend;
use crate::backend::held::inventory::StrongObjectIdentity;
use vstd::prelude::*;

verus! {

/// An activation that is being started or gone on with.
#[derive(Debug)]
pub struct Activating {
    authority: BoundObject,
    claim: AuthorityRecord,
    recorded: Option<PrepareRecord>,
}

/// What comes next while an activation is written down.
#[derive(Clone, Copy, Debug, PartialEq, Eq, Structural)]
pub enum ActivationStage {
    /// The record that starts it is published in the anchor.
    Prepare,
    /// The anchor is made durable.
    Sync,
    /// The store is marked with the record that completes it.
    Mark,
    /// That record is published in the anchor.
    Complete,
    /// What stands by now is looked at.
    Validate,
    /// Nothing: it is complete.
    Activated,
}

/// What comes after a step. The store is marked before the anchor says that it
/// is activated, and the anchor names the store before that is marked: at every
/// moment it can be gone on with from what stands.
pub open spec fn next_stage(stage: ActivationStage) -> ActivationStage {
    match stage {
        ActivationStage::Prepare => ActivationStage::Sync,
        ActivationStage::Sync => ActivationStage::Mark,
        ActivationStage::Mark => ActivationStage::Complete,
        ActivationStage::Complete => ActivationStage::Validate,
        _ => ActivationStage::Activated,
    }
}

/// The step writes something down or makes it durable.
pub open spec fn is_write(stage: ActivationStage) -> bool {
    stage != ActivationStage::Validate && stage != ActivationStage::Activated
}

/// An activation whose store is known: what stands in its records, and how far
/// it has come.
#[derive(Debug)]
pub struct BoundActivation {
    active: ActiveRecord,
    prepare_record: Vec<u8>,
    active_record: Vec<u8>,
    stage: ActivationStage,
}

/// What is seen of a store that was just opened or made.
#[derive(Debug)]
pub struct NewStoreProbe {
    /// Whether a store can be activated there.
    pub support: Result<(), StoreActivationError>,
    pub opened: Result<(), StoreError>,
    pub revalidated: Result<(), StoreError>,
    pub identity: Option<StrongObjectIdentity>,
    pub backend: CertifiedLocalBackend,
}

/// The store that is activated.
pub open spec fn new_store(desired: Seq<u8>, probe: NewStoreProbe) -> BoundView {
    BoundView { locator: desired, identity: probe.identity->0, backend: probe.backend }
}

/// Why no activation is started.
pub open spec fn start_fault(authority: BoundView, desired: Seq<u8>, probe: NewStoreProbe)
    -> Option<ActivationFault> {
    match (probe.support, probe.opened, probe.revalidated) {
        (Err(error), _, _) => Some(error@),
        (Ok(_), Err(error), _) => Some(ActivationFault::Store(error@)),
        (Ok(_), Ok(_), Err(error)) => Some(ActivationFault::Store(error@)),
        (Ok(_), Ok(_), Ok(_)) => if probe.identity is None {
            Some(ActivationFault::Identity)
        } else if !crate::activation::record::is_storable(authority)
            || !crate::activation::record::is_storable(new_store(desired, probe)) {
            Some(ActivationFault::InvalidLocator)
        } else {
            None
        },
    }
}

/// Why an activation is not gone on with.
pub open spec fn resume_fault(
    kind: Result<StoreActivationKind, StoreActivationError>,
    opened: Result<(), StoreError>,
) -> Option<ActivationFault> {
    match kind {
        Err(error) => Some(error@),
        Ok(kind) => if kind != StoreActivationKind::Preparing {
            Some(ActivationFault::NotResumable)
        } else {
            match opened {
                Ok(_) => None,
                Err(error) => if error@ is MissingStore || is_evidence(error@) {
                    Some(ActivationFault::NotResumable)
                } else {
                    Some(ActivationFault::Store(error@))
                },
            }
        },
    }
}

impl Activating {
    /// The anchor.
    pub closed spec fn authority(&self) -> BoundView {
        self.authority@
    }

    /// The claim that stands in it.
    pub closed spec fn claim(&self) -> ClaimView {
        self.claim@
    }

    /// What was started, if anything was.
    pub closed spec fn recorded(&self) -> Option<PrepareView> {
        match self.recorded {
            Some(record) => Some(record@),
            None => None,
        }
    }

    /// Looks for what was started.
    pub fn begin(
        authority: BoundObject,
        claim: AuthorityRecord,
        read: Result<Vec<u8>, RecordReadError>,
    ) -> (activating: Result<Self, StoreActivationError>)
        ensures
            match activating {
                Ok(begun) => begun.authority() == authority@ && begun.claim() == claim@
                    && is_optional_prepare(
                    Ok::<Option<PrepareView>, ReadFault>(begun.recorded()),
                    read,
                ) && (begun.recorded() matches Some(record) ==> is_binding(record)),
                Err(error) => exists|fault: ReadFault|
                    #![trigger read_refusal(fault)]
                    is_optional_prepare(Err::<Option<PrepareView>, ReadFault>(fault), read)
                        && error@ == read_refusal(fault),
            },
    {
        match read_optional_prepare(read) {
            Ok(recorded) => Ok(Activating { authority, claim, recorded }),
            Err(error) => {
                let ghost fault = error@;
                let refusal = store_error_from_record_read(error);
                assert(is_optional_prepare(Err::<Option<PrepareView>, ReadFault>(fault), read));
                assert(refusal@ == read_refusal(fault));
                Err(refusal)
            },
        }
    }

    /// What was started, if anything was.
    pub fn recorded_preparation(&self) -> (record: Option<&PrepareRecord>)
        ensures
            match record {
                Some(found) => self.recorded() == Some(found@),
                None => self.recorded() is None,
            },
    {
        match &self.recorded {
            Some(record) => Some(record),
            None => None,
        }
    }

    /// Goes on with what was started, given its state and what opening its store
    /// came to.
    pub fn resume(
        self,
        kind: Result<StoreActivationKind, StoreActivationError>,
        opened: Result<(), StoreError>,
    ) -> (bound: Result<BoundActivation, StoreActivationError>)
        requires
            self.recorded() is Some,
            is_binding(self.recorded()->0),
        ensures
            refused_as(bound, resume_fault(kind, opened)),
            bound matches Ok(activation) ==> activation.record() == self.recorded()->0
                && activation.stage() == ActivationStage::Sync,
    {
        let kind = kind?;
        require_preparing(kind)?;
        match open_recorded_store(opened)? {
            RecordedStore::Open => {},
            _ => {
                return Err(StoreActivationError::NotResumable);
            },
        }
        match self.recorded {
            Some(prepare) => bind(prepare, ActivationStage::Sync),
            None => Err(StoreActivationError::NotResumable),
        }
    }

    /// Starts the activation of a store at the desired place.
    pub fn start(self, desired_store: &[u8], probe: NewStoreProbe) -> (bound: Result<
        BoundActivation,
        StoreActivationError,
    >)
        requires
            self.recorded() is None,
        ensures
            refused_as(bound, start_fault(self.authority(), desired_store@, probe)),
            bound matches Ok(activation) ==> activation.record() == (PrepareView {
                activation_id: self.claim().selection_id,
                authority: self.authority(),
                store: new_store(desired_store@, probe),
            }) && activation.stage() == ActivationStage::Prepare,
    {
        probe.support?;
        match probe.opened {
            Ok(_) => {},
            Err(error) => {
                return Err(StoreActivationError::Store(error));
            },
        }
        match probe.revalidated {
            Ok(_) => {},
            Err(error) => {
                return Err(StoreActivationError::Store(error));
            },
        }
        let prepare = new_prepare_record(
            &self.claim,
            &self.authority,
            desired_store,
            probe.identity,
            probe.backend,
        )?;
        bind(prepare, ActivationStage::Prepare)
    }
}

/// Writes out the records of an activation.
fn bind(prepare: PrepareRecord, stage: ActivationStage) -> (bound: Result<
    BoundActivation,
    StoreActivationError,
>)
    ensures
        refused_as(
            bound,
            if is_binding(prepare@) {
                None
            } else {
                Some(ActivationFault::InvalidLocator)
            },
        ),
        bound matches Ok(activation) ==> activation.record() == prepare@ && activation.stage()
            == stage,
{
    let prepare_record = match encode_prepare(&prepare) {
        Ok(bytes) => bytes,
        Err(error) => {
            return Err(unrecordable(error));
        },
    };
    let active = ActiveRecord { prepare };
    match encode_active(&active) {
        Ok(active_record) => Ok(
            BoundActivation { active, prepare_record, active_record, stage },
        ),
        Err(error) => Err(unrecordable(error)),
    }
}

impl BoundActivation {
    #[verifier::type_invariant]
    spec fn is_valid(self) -> bool {
        &&& is_binding(self.active.prepare@)
        &&& self.prepare_record@ == prepare_bytes(self.active.prepare@)
        &&& self.active_record@ == active_bytes(self.active.prepare@)
    }

    /// What its records say.
    pub closed spec fn record(&self) -> PrepareView {
        self.active.prepare@
    }

    /// What comes next.
    pub closed spec fn stage(&self) -> ActivationStage {
        self.stage
    }

    /// What comes next.
    pub fn next(&self) -> (stage: ActivationStage)
        ensures
            stage == self.stage(),
    {
        self.stage
    }

    /// Goes on once a step was done.
    pub fn written(&mut self, outcome: Result<(), StoreActivationError>) -> (step: Result<
        (),
        StoreActivationError,
    >)
        requires
            is_write(old(self).stage()),
        ensures
            step == outcome,
            final(self).record() == old(self).record(),
            final(self).stage() == if outcome is Ok {
                next_stage(old(self).stage())
            } else {
                old(self).stage()
            },
    {
        proof {
            use_type_invariant(&*self);
        }
        outcome?;
        self.stage = match self.stage {
            ActivationStage::Prepare => ActivationStage::Sync,
            ActivationStage::Sync => ActivationStage::Mark,
            ActivationStage::Mark => ActivationStage::Complete,
            _ => ActivationStage::Validate,
        };
        Ok(())
    }

    /// Ends the activation, if what stands by now is a complete one.
    pub fn validated(&mut self, kind: Result<StoreActivationKind, StoreActivationError>) -> (step:
        Result<(), StoreActivationError>)
        requires
            old(self).stage() == ActivationStage::Validate,
        ensures
            refused_as(
                step,
                match kind {
                    Err(error) => Some(error@),
                    Ok(kind) => if kind == StoreActivationKind::Activated {
                        None
                    } else {
                        Some(ActivationFault::NotResumable)
                    },
                },
            ),
            final(self).record() == old(self).record(),
            final(self).stage() == if step is Ok {
                ActivationStage::Activated
            } else {
                old(self).stage()
            },
    {
        proof {
            use_type_invariant(&*self);
        }
        let kind = kind?;
        require_activated(kind)?;
        self.stage = ActivationStage::Activated;
        Ok(())
    }

    /// Where the store lies, once it is activated.
    pub fn finish(self) -> (locator: Vec<u8>)
        requires
            self.stage() == ActivationStage::Activated,
        ensures
            locator@ == self.record().store.locator,
    {
        self.active.prepare.store.locator
    }

    /// The record that is to stand once it is complete.
    pub fn active(&self) -> (active: &ActiveRecord)
        ensures
            active.prepare@ == self.record(),
            is_binding(self.record()),
    {
        proof {
            use_type_invariant(self);
        }
        &self.active
    }

    /// The bytes of the record that starts it.
    pub fn preparing_bytes(&self) -> (bytes: &Vec<u8>)
        ensures
            bytes@ == prepare_bytes(self.record()),
    {
        proof {
            use_type_invariant(self);
        }
        &self.prepare_record
    }

    /// The bytes of the record that completes it, which also mark the store.
    pub fn completing_bytes(&self) -> (bytes: &Vec<u8>)
        ensures
            bytes@ == active_bytes(self.record()),
    {
        proof {
            use_type_invariant(self);
        }
        &self.active_record
    }
}

/// Requires that the store still is where it was, after it was marked.
pub fn require_marked_store(revalidated: Result<(), StoreError>) -> (outcome: Result<
    (),
    StoreActivationError,
>)
    ensures
        refused_as(
            outcome,
            match revalidated {
                Ok(_) => None,
                Err(error) => Some(ActivationFault::Store(error@)),
            },
        ),
{
    match revalidated {
        Ok(_) => Ok(()),
        Err(error) => Err(StoreActivationError::Store(error)),
    }
}

/// The stage is the one that comes after the one before it.
pub open spec fn follows(stages: Seq<ActivationStage>, k: int) -> bool {
    stages[k] == next_stage(stages[k - 1])
}

/// The stages of an activation, one after the other.
pub open spec fn is_activation(stages: Seq<ActivationStage>) -> bool {
    &&& stages.len() > 0
    &&& stages[0] == ActivationStage::Prepare || stages[0] == ActivationStage::Sync
    &&& forall|k: int| 0 < k < stages.len() ==> #[trigger] follows(stages, k)
}

/// An activation is complete only after its store was marked, its store is
/// marked only after the anchor that names it was made durable, and one that was
/// started has named it before that.
pub proof fn law_activation_is_written_in_order(stages: Seq<ActivationStage>, k: int)
    requires
        is_activation(stages),
        0 <= k < stages.len(),
    ensures
        stages[k] == ActivationStage::Sync ==> k == 0 || stages[k - 1] == ActivationStage::Prepare,
        stages[k] == ActivationStage::Mark ==> k >= 1 && stages[k - 1] == ActivationStage::Sync,
        stages[k] == ActivationStage::Complete ==> k >= 2 && stages[k - 1] == ActivationStage::Mark
            && stages[k - 2] == ActivationStage::Sync,
        stages[k] == ActivationStage::Activated ==> exists|n: int|
            0 < n < k && stages[n] == ActivationStage::Complete && stages[n - 1]
                == ActivationStage::Mark && #[trigger] follows(stages, n),
    decreases k,
{
    if k > 0 {
        law_activation_is_written_in_order(stages, k - 1);
        assert(follows(stages, k));
        if k > 1 {
            law_activation_is_written_in_order(stages, k - 2);
            assert(follows(stages, k - 1));
        }
        if stages[k] == ActivationStage::Activated {
            if stages[k - 1] == ActivationStage::Validate {
                assert(stages[k - 2] == ActivationStage::Complete);
                assert(follows(stages, k - 2));
            }
        }
    }
}

/// An activation is started only where a store can be activated, it was opened and
/// is still where it was, it has a strong identity, and both it and the anchor can
/// be written down.
pub proof fn law_activations_start_on_a_sound_store(
    authority: BoundView,
    desired: Seq<u8>,
    probe: NewStoreProbe,
)
    ensures
        start_fault(authority, desired, probe) is None <==> probe.support is Ok && probe.opened
            is Ok && probe.revalidated is Ok && probe.identity is Some
            && crate::activation::record::is_storable(authority)
            && crate::activation::record::is_storable(new_store(desired, probe)),
        probe.identity is Some ==> {
            let store = new_store(desired, probe);
            store.locator == desired && Some(store.identity) == probe.identity && store.backend
                == probe.backend
        },
{
}

/// Only what was started, and whose store can be opened, is gone on with.
pub proof fn law_only_started_activations_are_resumed(
    kind: Result<StoreActivationKind, StoreActivationError>,
    opened: Result<(), StoreError>,
)
    ensures
        resume_fault(kind, opened) is None <==> opened is Ok && kind == Ok::<
            StoreActivationKind,
            StoreActivationError,
        >(StoreActivationKind::Preparing),
{
}

} // verus!
