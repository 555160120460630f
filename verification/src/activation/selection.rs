//! Which authority an activation is under.
//!
//! There are two candidates, and at most one of them holds traces of an
//! activation. A claim names the one that was chosen; it is written into the
//! other one first, so that the loss of the chosen one shows.

use crate::activation::discovery::StoreActivationKind;
use crate::activation::error::first_reason;
use crate::activation::error::read_refusal;
use crate::activation::error::refused_as;
use crate::activation::error::store_error_from_record_read;
use crate::activation::error::unrecordable;
use crate::activation::error::ActivationFault;
use crate::activation::error::ReadFault;
use crate::activation::error::RecordReadError;
use crate::activation::error::StoreActivationError;
use crate::activation::record::authority_bytes;
use crate::activation::record::encode_authority;
use crate::activation::record::is_storable;
use crate::activation::record::AuthorityRecord;
use crate::activation::record::BoundObject;
use crate::activation::record::BoundView;
use crate::activation::record::ClaimView;
use crate::activation::record::ACTIVATION_ID_LEN;
use crate::activation::record::same_claim;
use crate::activation::record::same_object;
use crate::activation_anchor_provisioning::error::ActivationAnchorProvisioningError;
use crate::activation_anchor_provisioning::ActivationAnchorProvisioningOutcome;
use crate::activation_anchor_provisioning::ActivationAnchorProvisioningStatus;
use crate::anchor_layout::self_anchor_root;
use crate::anchor_layout::self_root;
use crate::anchor_layout::system_anchor_root;
use crate::anchor_layout::system_root;
use crate::anchor_layout::AnchorPlatform;
use crate::anchor_layout::SelfAnchorRootError;
use crate::backend::certify::CertificationError;
use crate::backend::certify::CertifiedLocalBackend;
use crate::bytes::arrays_equal;
use crate::bytes::get_array32;
use crate::bytes::to_vec;
use crate::paths::is_absolute;
use crate::paths::paths_equal;
use crate::paths::push_path;
use crate::paths::pushed;
use crate::paths::same_path;
use crate::random::random_bytes;
use crate::text::decimal_bytes;
use crate::text::digits_of;
use vstd::prelude::*;

verus! {

/// Who provides for an activation.
#[derive(Clone, Copy, Debug, PartialEq, Eq, Structural)]
pub enum ActivationAuthorityMode {
    AdministratorHardened,
    SelfManaged,
}

/// Whose anchor it is.
#[derive(Clone, Copy, Debug, PartialEq, Eq, Structural)]
pub enum AnchorKind {
    System,
    SelfManaged,
}

/// Where an anchor lies, and whose it is.
#[derive(Debug)]
pub struct ActivationAnchorLocator {
    pub path: Vec<u8>,
    pub kind: AnchorKind,
}

/// The anchor of an account below the root of anchors.
pub open spec fn leaf_of(root: Seq<u8>, uid: u32) -> Seq<u8> {
    pushed(root, digits_of(uid as nat))
}

impl ActivationAnchorLocator {
    /// The anchor that the administrator provides for an account.
    pub fn for_current_euid(platform: AnchorPlatform, euid: u32) -> (locator: Self)
        ensures
            locator.kind == AnchorKind::System,
            locator.path@ == leaf_of(system_root(platform), euid),
    {
        let root = system_anchor_root(platform);
        ActivationAnchorLocator {
            path: push_path(root.as_slice(), decimal_bytes(euid as u64).as_slice()),
            kind: AnchorKind::System,
        }
    }

    /// The account's own anchor, given what the account database says of its
    /// home.
    pub fn for_current_euid_self(home: Result<Option<Vec<u8>>, i32>, euid: u32) -> (locator: Result<
        Self,
        StoreActivationError,
    >)
        ensures
            refused_as(
                locator,
                match home {
                    Err(errno) => Some(
                        ActivationFault::AccountBase(SelfAnchorRootError::Lookup(errno)),
                    ),
                    Ok(None) => Some(
                        ActivationFault::AccountBase(SelfAnchorRootError::AccountMissing),
                    ),
                    Ok(Some(home)) => if is_absolute(home@) {
                        None
                    } else {
                        Some(ActivationFault::AccountBase(SelfAnchorRootError::HomeNotAbsolute))
                    },
                },
            ),
            locator matches Ok(found) ==> found.kind == AnchorKind::SelfManaged && (
            home matches Ok(Some(home)) && found.path@ == leaf_of(self_root(home@), euid)),
    {
        match self_anchor_root(home) {
            Ok(root) => Ok(
                ActivationAnchorLocator {
                    path: push_path(root.as_slice(), decimal_bytes(euid as u64).as_slice()),
                    kind: AnchorKind::SelfManaged,
                },
            ),
            Err(error) => Err(StoreActivationError::AccountBase(error)),
        }
    }
}

/// An anchor that is there: what it is, the state of its activation, its claim,
/// and the number of the activation that is recorded in it.
#[derive(Debug)]
pub struct AuthorityCandidate {
    pub authority: BoundObject,
    pub state: StoreActivationKind,
    pub claim: Option<AuthorityRecord>,
    pub prepared: Result<Option<[u8; 32]>, RecordReadError>,
}

/// The content of an [`AuthorityCandidate`].
#[verifier::ext_equal]
pub struct CandidateView {
    pub authority: BoundView,
    pub state: StoreActivationKind,
    pub claim: Option<ClaimView>,
    pub prepared: Result<Option<[u8; 32]>, ReadFault>,
}

/// The content of a claim that may be missing.
pub open spec fn claim_view(claim: Option<AuthorityRecord>) -> Option<ClaimView> {
    match claim {
        Some(record) => Some(record@),
        None => None,
    }
}

/// The content of what was read of the number of an activation.
pub open spec fn prepared_view(prepared: Result<Option<[u8; 32]>, RecordReadError>) -> Result<
    Option<[u8; 32]>,
    ReadFault,
> {
    match prepared {
        Ok(id) => Ok(id),
        Err(error) => Err(error@),
    }
}

impl View for AuthorityCandidate {
    type V = CandidateView;

    open spec fn view(&self) -> CandidateView {
        CandidateView {
            authority: self.authority@,
            state: self.state,
            claim: claim_view(self.claim),
            prepared: prepared_view(self.prepared),
        }
    }
}

/// The content of a candidate that may be missing.
pub open spec fn candidate_view(candidate: Option<AuthorityCandidate>) -> Option<CandidateView> {
    match candidate {
        Some(found) => Some(found@),
        None => None,
    }
}

/// Which of the two authorities.
#[derive(Clone, Copy, Debug, PartialEq, Eq, Structural)]
pub enum AuthorityChoice {
    System,
    SelfManaged,
}

/// There is a trace of an activation.
pub open spec fn has_evidence(kind: StoreActivationKind) -> bool {
    kind != StoreActivationKind::NeverActivated
}

/// Which authority holds, going by the traces alone. Traces in both are no
/// matter of preference.
pub open spec fn evident_choice(
    system: Option<StoreActivationKind>,
    self_managed: Option<StoreActivationKind>,
) -> Option<AuthorityChoice> {
    match (system, self_managed) {
        (Some(_), None) => Some(AuthorityChoice::System),
        (None, Some(_)) => Some(AuthorityChoice::SelfManaged),
        (Some(theirs), Some(own)) => if has_evidence(theirs) && has_evidence(own) {
            None
        } else if has_evidence(own) {
            Some(AuthorityChoice::SelfManaged)
        } else {
            Some(AuthorityChoice::System)
        },
        (None, None) => None,
    }
}

/// Chooses between the authorities that are there, going by the traces alone.
pub fn choose_authority(
    system: Option<StoreActivationKind>,
    self_managed: Option<StoreActivationKind>,
) -> (choice: Result<AuthorityChoice, ()>)
    requires
        system is Some || self_managed is Some,
    ensures
        match evident_choice(system, self_managed) {
            Some(chosen) => choice == Ok::<AuthorityChoice, ()>(chosen),
            None => choice is Err,
        },
{
    match (system, self_managed) {
        (Some(theirs), Some(own)) => {
            let theirs_evident = theirs != StoreActivationKind::NeverActivated;
            let own_evident = own != StoreActivationKind::NeverActivated;
            if theirs_evident && own_evident {
                Err(())
            } else if own_evident {
                Ok(AuthorityChoice::SelfManaged)
            } else {
                Ok(AuthorityChoice::System)
            }
        },
        (Some(_), None) => Ok(AuthorityChoice::System),
        _ => Ok(AuthorityChoice::SelfManaged),
    }
}

/// The claim of a candidate that may be missing.
pub open spec fn claim_of(candidate: Option<CandidateView>) -> Option<ClaimView> {
    match candidate {
        Some(found) => found.claim,
        None => None,
    }
}

/// The claim that was found: the administrator's anchor is asked first.
pub open spec fn found_claim(system: Option<CandidateView>, self_managed: Option<CandidateView>)
    -> Option<ClaimView> {
    if claim_of(system) is Some {
        claim_of(system)
    } else {
        claim_of(self_managed)
    }
}

/// Where the claim was found.
pub open spec fn witness_of(
    system: Option<CandidateView>,
    system_path: Seq<u8>,
    self_path: Seq<u8>,
) -> Seq<u8> {
    if claim_of(system) is Some {
        system_path
    } else {
        self_path
    }
}

/// Why the chosen authority does not fit the claim, or the other one holds
/// traces too.
pub open spec fn chosen_fault(
    claim: ClaimView,
    selected: CandidateView,
    peer: Option<CandidateView>,
    system_path: Seq<u8>,
    self_path: Seq<u8>,
) -> Option<ActivationFault> {
    let invalid = Some(ActivationFault::AuthorityClaimInvalid { path: selected.authority.locator });
    if selected.authority.identity != claim.selected.identity || selected.authority.backend
        != claim.selected.backend {
        invalid
    } else {
        match selected.prepared {
            Err(fault) => Some(read_refusal(fault)),
            Ok(Some(id)) if id != claim.selection_id => invalid,
            Ok(_) => match peer {
                Some(other) => if has_evidence(other.state) {
                    Some(
                        ActivationFault::SplitAuthority {
                            system: system_path,
                            self_managed: self_path,
                        },
                    )
                } else {
                    None
                },
                None => None,
            },
        }
    }
}

/// The authority that the claims name: none where there is no claim, a fault
/// where they do not fit.
pub open spec fn claimed_choice(
    system: Option<CandidateView>,
    self_managed: Option<CandidateView>,
    system_path: Seq<u8>,
    self_path: Seq<u8>,
) -> Result<Option<AuthorityChoice>, ActivationFault> {
    let split = ActivationFault::SplitAuthority { system: system_path, self_managed: self_path };
    let witness = witness_of(system, system_path, self_path);
    match found_claim(system, self_managed) {
        None => Ok(None),
        Some(claim) => if claim_of(system) is Some && claim_of(self_managed) is Some && !same_claim(
            claim_of(system)->0,
            claim_of(self_managed)->0,
        ) {
            Err(split)
        } else if same_path(claim.selected.locator, system_path) {
            match system {
                None => Err(
                    ActivationFault::SelectedAuthorityLost {
                        selected: claim.selected.locator,
                        witness,
                    },
                ),
                Some(selected) => match chosen_fault(
                    claim,
                    selected,
                    self_managed,
                    system_path,
                    self_path,
                ) {
                    Some(fault) => Err(fault),
                    None => Ok(Some(AuthorityChoice::System)),
                },
            }
        } else if same_path(claim.selected.locator, self_path) {
            match self_managed {
                None => Err(
                    ActivationFault::SelectedAuthorityLost {
                        selected: claim.selected.locator,
                        witness,
                    },
                ),
                Some(selected) => match chosen_fault(
                    claim,
                    selected,
                    system,
                    system_path,
                    self_path,
                ) {
                    Some(fault) => Err(fault),
                    None => Ok(Some(AuthorityChoice::SelfManaged)),
                },
            }
        } else {
            Err(ActivationFault::AuthorityClaimInvalid { path: witness })
        },
    }
}

fn claim_ref(candidate: &Option<AuthorityCandidate>) -> (claim: Option<&AuthorityRecord>)
    ensures
        match claim {
            Some(found) => claim_of(candidate_view(*candidate)) == Some(found@),
            None => claim_of(candidate_view(*candidate)) is None,
        },
{
    match candidate {
        Some(found) => match &found.claim {
            Some(claim) => Some(claim),
            None => None,
        },
        None => None,
    }
}

/// Requires that the chosen authority fits the claim and stands alone.
fn require_chosen(
    claim: &AuthorityRecord,
    selected: &AuthorityCandidate,
    peer: &Option<AuthorityCandidate>,
    system_path: &[u8],
    self_path: &[u8],
) -> (outcome: Result<(), StoreActivationError>)
    ensures
        refused_as(
            outcome,
            chosen_fault(claim@, selected@, candidate_view(*peer), system_path@, self_path@),
        ),
{
    if selected.authority.identity != claim.selected.identity || selected.authority.backend
        != claim.selected.backend {
        return Err(
            StoreActivationError::AuthorityClaimInvalid {
                path: to_vec(selected.authority.locator.as_slice()),
            },
        );
    }
    match &selected.prepared {
        Err(error) => {
            return Err(store_error_from_record_read(error.clone()));
        },
        Ok(Some(id)) => {
            if !arrays_equal(id, &claim.selection_id) {
                return Err(
                    StoreActivationError::AuthorityClaimInvalid {
                        path: to_vec(selected.authority.locator.as_slice()),
                    },
                );
            }
        },
        Ok(None) => {},
    }
    match peer {
        Some(other) => if other.state != StoreActivationKind::NeverActivated {
            Err(
                StoreActivationError::SplitAuthority {
                    system: to_vec(system_path),
                    self_managed: to_vec(self_path),
                },
            )
        } else {
            Ok(())
        },
        None => Ok(()),
    }
}

/// The authority that the claims name.
pub fn claimed_authority_choice(
    system: &Option<AuthorityCandidate>,
    self_managed: &Option<AuthorityCandidate>,
    system_path: &[u8],
    self_path: &[u8],
) -> (choice: Result<Option<AuthorityChoice>, StoreActivationError>)
    ensures
        match claimed_choice(
            candidate_view(*system),
            candidate_view(*self_managed),
            system_path@,
            self_path@,
        ) {
            Ok(chosen) => choice == Ok::<Option<AuthorityChoice>, StoreActivationError>(chosen),
            Err(fault) => choice matches Err(error) && error@ == fault,
        },
{
    let theirs = claim_ref(system);
    let own = claim_ref(self_managed);
    let (claim, witness) = match (theirs, own) {
        (None, None) => {
            return Ok(None);
        },
        (Some(first), Some(second)) => {
            if !first.same(second) {
                return Err(
                    StoreActivationError::SplitAuthority {
                        system: to_vec(system_path),
                        self_managed: to_vec(self_path),
                    },
                );
            }
            (first, system_path)
        },
        (Some(first), None) => (first, system_path),
        (None, Some(second)) => (second, self_path),
    };
    let locator = claim.selected.locator.as_slice();
    if paths_equal(locator, system_path) {
        match system {
            Some(selected) => {
                require_chosen(claim, selected, self_managed, system_path, self_path)?;
                Ok(Some(AuthorityChoice::System))
            },
            None => Err(
                StoreActivationError::SelectedAuthorityLost {
                    selected: to_vec(locator),
                    witness: to_vec(witness),
                },
            ),
        }
    } else if paths_equal(locator, self_path) {
        match self_managed {
            Some(selected) => {
                require_chosen(claim, selected, system, system_path, self_path)?;
                Ok(Some(AuthorityChoice::SelfManaged))
            },
            None => Err(
                StoreActivationError::SelectedAuthorityLost {
                    selected: to_vec(locator),
                    witness: to_vec(witness),
                },
            ),
        }
    } else {
        Err(StoreActivationError::AuthorityClaimInvalid { path: to_vec(witness) })
    }
}

/// The authority that was chosen, and the other one.
#[derive(Debug)]
pub struct AuthoritySelection {
    pub mode: ActivationAuthorityMode,
    pub selected: AuthorityCandidate,
    pub peer: Option<AuthorityCandidate>,
}

/// The content of an [`AuthoritySelection`].
#[verifier::ext_equal]
pub struct SelectionView {
    pub mode: ActivationAuthorityMode,
    pub selected: CandidateView,
    pub peer: Option<CandidateView>,
}

impl View for AuthoritySelection {
    type V = SelectionView;

    open spec fn view(&self) -> SelectionView {
        SelectionView {
            mode: self.mode,
            selected: self.selected@,
            peer: candidate_view(self.peer),
        }
    }
}

fn kind_of(candidate: &Option<AuthorityCandidate>) -> (kind: Option<StoreActivationKind>)
    ensures
        kind == match *candidate {
            Some(found) => Some(found.state),
            None => None,
        },
{
    match candidate {
        Some(found) => Some(found.state),
        None => None,
    }
}

/// The states of the candidates.
pub open spec fn state_of(candidate: Option<CandidateView>) -> Option<StoreActivationKind> {
    match candidate {
        Some(found) => Some(found.state),
        None => None,
    }
}

/// Which authority holds, or why none does.
pub open spec fn selected_choice(
    system: Option<CandidateView>,
    self_managed: Option<CandidateView>,
    system_path: Seq<u8>,
    self_path: Seq<u8>,
) -> Result<AuthorityChoice, ActivationFault> {
    if system is None && self_managed is None {
        Err(ActivationFault::NoAuthority { system: system_path, self_managed: self_path })
    } else {
        match claimed_choice(system, self_managed, system_path, self_path) {
            Err(fault) => Err(fault),
            Ok(Some(choice)) => Ok(choice),
            Ok(None) => match evident_choice(state_of(system), state_of(self_managed)) {
                Some(choice) => Ok(choice),
                None => Err(
                    ActivationFault::SplitAuthority {
                        system: system_path,
                        self_managed: self_path,
                    },
                ),
            },
        }
    }
}

/// The candidate with the claim that was found, if it has none itself.
pub open spec fn with_claim(candidate: CandidateView, claim: Option<ClaimView>) -> CandidateView {
    CandidateView {
        claim: if candidate.claim is Some {
            candidate.claim
        } else {
            claim
        },
        ..candidate
    }
}

/// The selection that follows from a choice.
pub open spec fn selection_of(
    choice: AuthorityChoice,
    system: Option<CandidateView>,
    self_managed: Option<CandidateView>,
) -> SelectionView {
    let claim = found_claim(system, self_managed);
    match choice {
        AuthorityChoice::System => SelectionView {
            mode: ActivationAuthorityMode::AdministratorHardened,
            selected: with_claim(system->0, claim),
            peer: self_managed,
        },
        AuthorityChoice::SelfManaged => SelectionView {
            mode: ActivationAuthorityMode::SelfManaged,
            selected: with_claim(self_managed->0, claim),
            peer: system,
        },
    }
}

/// What is chosen is there.
proof fn lemma_choice_is_there(
    system: Option<CandidateView>,
    self_managed: Option<CandidateView>,
    system_path: Seq<u8>,
    self_path: Seq<u8>,
)
    ensures
        match selected_choice(system, self_managed, system_path, self_path) {
            Ok(AuthorityChoice::System) => system is Some,
            Ok(AuthorityChoice::SelfManaged) => self_managed is Some,
            Err(_) => true,
        },
{
}

/// Chooses between the two authorities.
pub fn select_authority_pair(
    system: Option<AuthorityCandidate>,
    self_managed: Option<AuthorityCandidate>,
    system_path: &[u8],
    self_path: &[u8],
) -> (selection: Result<AuthoritySelection, StoreActivationError>)
    ensures
        match selected_choice(
            candidate_view(system),
            candidate_view(self_managed),
            system_path@,
            self_path@,
        ) {
            Ok(choice) => selection matches Ok(made) && made@ == selection_of(
                choice,
                candidate_view(system),
                candidate_view(self_managed),
            ),
            Err(fault) => selection matches Err(error) && error@ == fault,
        },
{
    let ghost theirs = candidate_view(system);
    let ghost own = candidate_view(self_managed);
    if system.is_none() && self_managed.is_none() {
        return Err(
            StoreActivationError::NoAuthority {
                system: to_vec(system_path),
                self_managed: to_vec(self_path),
            },
        );
    }
    let inherited: Option<AuthorityRecord> = match claim_ref(&system) {
        Some(claim) => Some(claim.clone()),
        None => match claim_ref(&self_managed) {
            Some(claim) => Some(claim.clone()),
            None => None,
        },
    };
    assert(claim_view(inherited) == found_claim(theirs, own));
    let choice = match claimed_authority_choice(&system, &self_managed, system_path, self_path)? {
        Some(choice) => choice,
        None => match choose_authority(kind_of(&system), kind_of(&self_managed)) {
            Ok(choice) => choice,
            Err(_) => {
                return Err(
                    StoreActivationError::SplitAuthority {
                        system: to_vec(system_path),
                        self_managed: to_vec(self_path),
                    },
                );
            },
        },
    };
    proof {
        lemma_choice_is_there(theirs, own, system_path@, self_path@);
    }
    let (mode, selected, peer) = match choice {
        AuthorityChoice::System => (
            ActivationAuthorityMode::AdministratorHardened,
            system,
            self_managed,
        ),
        AuthorityChoice::SelfManaged => (
            ActivationAuthorityMode::SelfManaged,
            self_managed,
            system,
        ),
    };
    let mut selected = selected.unwrap();
    if selected.claim.is_none() {
        selected.claim = inherited;
    }
    Ok(AuthoritySelection { mode, selected, peer })
}

/// The claim that has to stand in both anchors, and its bytes.
#[derive(Debug)]
pub struct ClaimPlan {
    pub record: AuthorityRecord,
    pub bytes: Vec<u8>,
}

/// The number of an activation: the one that is there, or the one that was
/// drawn.
pub open spec fn claim_id(
    existing: Option<ClaimView>,
    prepared: Option<[u8; 32]>,
    drawn: [u8; 32],
) -> [u8; 32] {
    match (existing, prepared) {
        (Some(claim), _) => claim.selection_id,
        (None, Some(id)) => id,
        (None, None) => drawn,
    }
}

/// The claim that has to stand.
pub open spec fn planned_claim(
    authority: BoundView,
    existing: Option<ClaimView>,
    prepared: Option<[u8; 32]>,
    drawn: [u8; 32],
) -> ClaimView {
    ClaimView { selection_id: claim_id(existing, prepared, drawn), selected: authority }
}

/// Why no claim may stand.
pub open spec fn claim_fault(
    authority: BoundView,
    peer: Option<CandidateView>,
    existing: Option<ClaimView>,
    prepared: Result<Option<[u8; 32]>, ReadFault>,
    drawn: [u8; 32],
) -> Option<ActivationFault> {
    match prepared {
        Err(fault) => Some(read_refusal(fault)),
        Ok(id) => {
            let planned = planned_claim(authority, existing, id, drawn);
            if existing is Some && ((id is Some && id->0 != existing->0.selection_id)
                || !same_claim(existing->0, planned)) {
                Some(ActivationFault::AuthorityClaimInvalid { path: authority.locator })
            } else if claim_of(peer) is Some && !same_claim(claim_of(peer)->0, planned) {
                Some(
                    ActivationFault::AuthorityClaimInvalid { path: peer->0.authority.locator },
                )
            } else if !is_storable(authority) {
                Some(ActivationFault::InvalidLocator)
            } else {
                None
            }
        },
    }
}

/// The plan is the one for the number that was drawn.
pub open spec fn is_claim_plan(
    plan: Result<ClaimPlan, StoreActivationError>,
    authority: BoundView,
    peer: Option<CandidateView>,
    existing: Option<ClaimView>,
    prepared: Result<Option<[u8; 32]>, ReadFault>,
    drawn: [u8; 32],
) -> bool {
    &&& refused_as(plan, claim_fault(authority, peer, existing, prepared, drawn))
    &&& plan matches Ok(made) ==> {
        &&& prepared is Ok
        &&& made.record@ == planned_claim(authority, existing, prepared->Ok_0, drawn)
        &&& made.bytes@ == authority_bytes(made.record@)
    }
}

/// The content of a claim that may be missing.
pub open spec fn claim_ref_view(claim: Option<&AuthorityRecord>) -> Option<ClaimView> {
    match claim {
        Some(record) => Some(record@),
        None => None,
    }
}

/// Plans the claim of an authority, with the number that was drawn for it where
/// it has none.
pub fn plan_claim(
    authority: &BoundObject,
    peer: &Option<AuthorityCandidate>,
    existing: Option<&AuthorityRecord>,
    prepared: &Result<Option<[u8; 32]>, RecordReadError>,
    drawn: [u8; 32],
) -> (plan: Result<ClaimPlan, StoreActivationError>)
    ensures
        is_claim_plan(
            plan,
            authority@,
            candidate_view(*peer),
            claim_ref_view(existing),
            prepared_view(*prepared),
            drawn,
        ),
{
    let id = match prepared {
        Ok(id) => *id,
        Err(error) => {
            return Err(store_error_from_record_read(error.clone()));
        },
    };
    let selection_id: [u8; 32] = match existing {
        Some(claim) => {
            match id {
                Some(recorded) => {
                    if !arrays_equal(&claim.selection_id, &recorded) {
                        return Err(
                            StoreActivationError::AuthorityClaimInvalid {
                                path: to_vec(authority.locator.as_slice()),
                            },
                        );
                    }
                },
                None => {},
            }
            claim.selection_id
        },
        None => match id {
            Some(recorded) => recorded,
            None => drawn,
        },
    };
    let record = AuthorityRecord { selection_id, selected: authority.clone() };
    match existing {
        Some(claim) => {
            if !claim.same(&record) {
                return Err(
                    StoreActivationError::AuthorityClaimInvalid {
                        path: to_vec(authority.locator.as_slice()),
                    },
                );
            }
        },
        None => {},
    }
    match claim_ref(peer) {
        Some(claim) => {
            if !claim.same(&record) {
                match peer {
                    Some(other) => {
                        return Err(
                            StoreActivationError::AuthorityClaimInvalid {
                                path: to_vec(other.authority.locator.as_slice()),
                            },
                        );
                    },
                    None => {},
                }
            }
        },
        None => {},
    }
    match encode_authority(&record) {
        Ok(bytes) => Ok(ClaimPlan { record, bytes }),
        Err(error) => Err(unrecordable(error)),
    }
}

/// Plans the claim of an authority. A number is drawn where it has none: nothing
/// was claimed and nothing is recorded.
pub fn ensure_authority_claim(
    authority: &BoundObject,
    peer: &Option<AuthorityCandidate>,
    existing: Option<&AuthorityRecord>,
    prepared: &Result<Option<[u8; 32]>, RecordReadError>,
) -> (plan: Result<ClaimPlan, StoreActivationError>)
    ensures
        ({
            ||| existing is None && (*prepared matches Ok(None)) && (plan matches Err(error)
                && error@ is Random)
            ||| exists|drawn: [u8; 32]| #[trigger]
                is_claim_plan(
                    plan,
                    authority@,
                    candidate_view(*peer),
                    claim_ref_view(existing),
                    prepared_view(*prepared),
                    drawn,
                )
        }),
{
    let drawn: [u8; 32] = match (existing, prepared) {
        (None, Ok(None)) => match random_bytes(ACTIVATION_ID_LEN) {
            Ok(bytes) => get_array32(bytes.as_slice(), 0),
            Err(error) => {
                return Err(StoreActivationError::Random(error));
            },
        },
        _ => [0u8; 32],
    };
    plan_claim(authority, peer, existing, prepared, drawn)
}

/// Where a claim is written down next.
#[derive(Clone, Copy, Debug, PartialEq, Eq, Structural)]
pub enum ClaimStage {
    /// At the anchor that was not chosen, as a witness of the choice.
    Peer,
    /// At the chosen anchor.
    Own,
    /// Nowhere: it stands.
    Stands,
}

/// The writing down of a claim. The witness comes first: there is never a choice
/// whose loss the other anchor would not show.
#[derive(Debug)]
pub struct ClaimPublication {
    plan: ClaimPlan,
    stage: ClaimStage,
}

impl ClaimPublication {
    /// The claim.
    pub closed spec fn claim(&self) -> ClaimView {
        self.plan.record@
    }

    /// Its bytes.
    pub closed spec fn bytes(&self) -> Seq<u8> {
        self.plan.bytes@
    }

    /// Where it is written down next.
    pub closed spec fn stage(&self) -> ClaimStage {
        self.stage
    }

    /// Starts at the anchor that was not chosen, where there is one.
    pub fn begin(plan: ClaimPlan, has_peer: bool) -> (publication: Self)
        ensures
            publication.claim() == plan.record@,
            publication.bytes() == plan.bytes@,
            publication.stage() == if has_peer {
                ClaimStage::Peer
            } else {
                ClaimStage::Own
            },
    {
        ClaimPublication {
            plan,
            stage: if has_peer {
                ClaimStage::Peer
            } else {
                ClaimStage::Own
            },
        }
    }

    /// Where it is written down next.
    pub fn next(&self) -> (stage: ClaimStage)
        ensures
            stage == self.stage(),
    {
        self.stage
    }

    /// The bytes that are written down.
    pub fn claim_bytes(&self) -> (bytes: &Vec<u8>)
        ensures
            bytes@ == self.bytes(),
    {
        &self.plan.bytes
    }

    /// What is said of the step where it is uncertain whether it is durable.
    pub fn boundary(&self) -> (text: &'static str)
        ensures
            text@ == if self.stage() == ClaimStage::Peer {
                "peer authority witness"@
            } else {
                "selected authority claim"@
            },
    {
        match self.stage {
            ClaimStage::Peer => "peer authority witness",
            _ => "selected authority claim",
        }
    }

    /// Goes on once the claim was written down.
    pub fn written(&mut self, outcome: Result<(), StoreActivationError>) -> (step: Result<
        (),
        StoreActivationError,
    >)
        requires
            old(self).stage() != ClaimStage::Stands,
        ensures
            step == outcome,
            final(self).claim() == old(self).claim(),
            final(self).bytes() == old(self).bytes(),
            final(self).stage() == if outcome is Err {
                old(self).stage()
            } else if old(self).stage() == ClaimStage::Peer {
                ClaimStage::Own
            } else {
                ClaimStage::Stands
            },
    {
        outcome?;
        self.stage = match self.stage {
            ClaimStage::Peer => ClaimStage::Own,
            _ => ClaimStage::Stands,
        };
        Ok(())
    }

    /// The claim, once it stands.
    pub fn finish(self) -> (claim: AuthorityRecord)
        requires
            self.stage() == ClaimStage::Stands,
        ensures
            claim@ == self.claim(),
    {
        self.plan.record
    }
}

/// What is done with a selection.
#[derive(Clone, Copy, Debug, PartialEq, Eq, Structural)]
pub enum ActivationStep {
    /// The store is activated: its claim is seen to, and it is handed out.
    HandOut,
    /// It is to be found out whether a store can be activated at the desired
    /// place.
    Probe,
    /// The activation is gone on with.
    Resume,
}

/// Why nothing is done with a selection.
pub open spec fn step_fault(selection: SelectionView) -> Option<ActivationFault> {
    match selection.selected.state {
        StoreActivationKind::Lost => Some(ActivationFault::NotResumable),
        StoreActivationKind::CorruptOrReplaced => Some(ActivationFault::NotResumable),
        StoreActivationKind::NeverActivated => if selection.mode
            == ActivationAuthorityMode::SelfManaged && selection.selected.claim is None {
            Some(ActivationFault::SelfInitializationRequired)
        } else {
            None
        },
        _ => None,
    }
}

/// Decides what is done with a selection.
pub fn activation_step(selection: &AuthoritySelection) -> (step: Result<
    ActivationStep,
    StoreActivationError,
>)
    ensures
        refused_as(step, step_fault(selection@)),
        step matches Ok(next) ==> next == match selection@.selected.state {
            StoreActivationKind::Activated => ActivationStep::HandOut,
            StoreActivationKind::Preparing => ActivationStep::Resume,
            _ => ActivationStep::Probe,
        },
{
    match selection.selected.state {
        StoreActivationKind::Activated => Ok(ActivationStep::HandOut),
        StoreActivationKind::Lost => Err(StoreActivationError::NotResumable),
        StoreActivationKind::CorruptOrReplaced => Err(StoreActivationError::NotResumable),
        StoreActivationKind::NeverActivated => {
            if selection.mode == ActivationAuthorityMode::SelfManaged
                && selection.selected.claim.is_none() {
                return Err(StoreActivationError::SelfInitializationRequired);
            }
            Ok(ActivationStep::Probe)
        },
        StoreActivationKind::Preparing => Ok(ActivationStep::Resume),
    }
}

/// What follows from probing the desired place.
#[derive(Clone, Copy, Debug, PartialEq, Eq, Structural)]
pub enum ProbedStep {
    /// The store is activated.
    Activate,
    /// No store can be activated there, and none is. A claim that was found is
    /// seen to.
    Unsupported { see_to_claim: bool },
}

/// The file system is known not to support a store.
pub open spec fn is_unsupported(fault: ActivationFault) -> bool {
    fault == ActivationFault::Backend(CertificationError::UnsupportedPlatform) || fault
        == ActivationFault::Backend(CertificationError::UnsupportedFilesystem)
}

/// Decides what follows from probing the desired place. Only what is known not
/// to work may go on without a store.
pub fn probed_step(probe: Result<(), StoreActivationError>, claimed: bool) -> (step: Result<
    ProbedStep,
    StoreActivationError,
>)
    ensures
        match probe {
            Ok(_) => step == Ok::<ProbedStep, StoreActivationError>(ProbedStep::Activate),
            Err(error) => if is_unsupported(error@) {
                step == Ok::<ProbedStep, StoreActivationError>(
                    ProbedStep::Unsupported { see_to_claim: claimed },
                )
            } else {
                step == Err::<ProbedStep, StoreActivationError>(error)
            },
        },
{
    match probe {
        Ok(_) => Ok(ProbedStep::Activate),
        Err(StoreActivationError::Backend(CertificationError::UnsupportedPlatform)) => Ok(
            ProbedStep::Unsupported { see_to_claim: claimed },
        ),
        Err(StoreActivationError::Backend(CertificationError::UnsupportedFilesystem)) => Ok(
            ProbedStep::Unsupported { see_to_claim: claimed },
        ),
        Err(error) => Err(error),
    }
}

/// What the selected authority of an account is.
#[derive(Debug)]
pub struct CurrentEuidAuthorityReadiness {
    mode: ActivationAuthorityMode,
    path: Vec<u8>,
    backend: CertifiedLocalBackend,
    activation: StoreActivationKind,
}

/// The content of a [`CurrentEuidAuthorityReadiness`].
#[verifier::ext_equal]
pub struct ReadinessView {
    pub mode: ActivationAuthorityMode,
    pub path: Seq<u8>,
    pub backend: CertifiedLocalBackend,
    pub activation: StoreActivationKind,
}

impl View for CurrentEuidAuthorityReadiness {
    type V = ReadinessView;

    closed spec fn view(&self) -> ReadinessView {
        ReadinessView {
            mode: self.mode,
            path: self.path@,
            backend: self.backend,
            activation: self.activation,
        }
    }
}

impl CurrentEuidAuthorityReadiness {
    /// Who provides for it.
    pub fn mode(&self) -> (mode: ActivationAuthorityMode)
        ensures
            mode == self@.mode,
    {
        self.mode
    }

    /// Where its anchor lies.
    pub fn path(&self) -> (path: &[u8])
        ensures
            path@ == self@.path,
    {
        self.path.as_slice()
    }

    /// The file system of its anchor.
    pub fn backend(&self) -> (backend: CertifiedLocalBackend)
        ensures
            backend == self@.backend,
    {
        self.backend
    }

    /// The state of its activation.
    pub fn activation(&self) -> (kind: StoreActivationKind)
        ensures
            kind == self@.activation,
    {
        self.activation
    }
}

/// Tells what the selected authority of an account is. An account's own anchor
/// that was never declared is none.
pub fn check_current_euid_authority_readiness(selection: &AuthoritySelection) -> (readiness: Result<
    CurrentEuidAuthorityReadiness,
    StoreActivationError,
>)
    ensures
        refused_as(
            readiness,
            if selection@.mode == ActivationAuthorityMode::SelfManaged
                && selection@.selected.claim is None && !has_evidence(selection@.selected.state) {
                Some(ActivationFault::SelfInitializationRequired)
            } else {
                None
            },
        ),
        readiness matches Ok(ready) ==> ready@ == (ReadinessView {
            mode: selection@.mode,
            path: selection@.selected.authority.locator,
            backend: selection@.selected.authority.backend,
            activation: selection@.selected.state,
        }),
{
    if selection.mode == ActivationAuthorityMode::SelfManaged && selection.selected.claim.is_none()
        && selection.selected.state == StoreActivationKind::NeverActivated {
        return Err(StoreActivationError::SelfInitializationRequired);
    }
    Ok(
        CurrentEuidAuthorityReadiness {
            mode: selection.mode,
            path: to_vec(selection.selected.authority.locator.as_slice()),
            backend: selection.selected.authority.backend,
            activation: selection.selected.state,
        },
    )
}

/// What declaring an account's own authority came to.
#[derive(Debug)]
pub struct SelfAuthorityInitializationOutcome {
    pub provisioning: ActivationAnchorProvisioningOutcome,
    pub declared: bool,
}

impl SelfAuthorityInitializationOutcome {
    /// Whether something was made or declared.
    pub fn mutated(&self) -> (mutated: bool)
        ensures
            mutated == (self.provisioning.status == ActivationAnchorProvisioningStatus::Created
                || self.declared),
    {
        self.provisioning.mutated() || self.declared
    }
}

/// Why the administrator's anchor stands in the way.
pub open spec fn system_fault(system: Option<CandidateView>) -> Option<ActivationFault> {
    match system {
        Some(candidate) => Some(
            ActivationFault::SystemAuthorityPresent { path: candidate.authority.locator },
        ),
        None => None,
    }
}

/// Requires that the administrator has not provided an anchor.
pub fn require_no_system_authority(system: &Option<AuthorityCandidate>) -> (outcome: Result<
    (),
    StoreActivationError,
>)
    ensures
        refused_as(outcome, system_fault(candidate_view(*system))),
{
    match system {
        Some(candidate) => Err(
            StoreActivationError::SystemAuthorityPresent {
                path: to_vec(candidate.authority.locator.as_slice()),
            },
        ),
        None => Ok(()),
    }
}

/// Why the account's own place is not where it was.
pub open spec fn self_path_fault(
    expected: Seq<u8>,
    actual: Result<Vec<u8>, SelfAnchorRootError>,
) -> Option<ActivationFault> {
    match actual {
        Err(error) => Some(ActivationFault::AccountBase(error)),
        Ok(path) => if same_path(path@, expected) {
            None
        } else {
            Some(ActivationFault::AccountBaseChanged { expected, actual: path@ })
        },
    }
}

/// Requires that the account's own place is where it was.
pub fn require_current_self_path(
    expected: &[u8],
    actual: Result<Vec<u8>, SelfAnchorRootError>,
) -> (outcome: Result<(), StoreActivationError>)
    ensures
        refused_as(outcome, self_path_fault(expected@, actual)),
{
    match actual {
        Ok(path) => if paths_equal(path.as_slice(), expected) {
            Ok(())
        } else {
            Err(
                StoreActivationError::AccountBaseChanged {
                    expected: to_vec(expected),
                    actual: path,
                },
            )
        },
        Err(error) => Err(StoreActivationError::AccountBase(error)),
    }
}

/// Why an account could not declare its own authority.
#[derive(Debug)]
pub enum SelfAuthorityInitializationError {
    /// The anchor could not be made.
    Provision(ActivationAnchorProvisioningError),
    /// The authority is refused.
    Authority(StoreActivationError),
}

/// How far the declaration of an account's own authority has come.
#[derive(Clone, Copy, Debug, PartialEq, Eq, Structural)]
pub enum DeclarationStage {
    /// Its anchor was made.
    Provisioned,
    /// The administrator has still not provided one.
    Unopposed,
    /// It can be declared, or was before.
    Declared { fresh: bool },
}

/// The declaration of an account's own authority, with its anchor made.
#[derive(Debug)]
pub struct SelfInitialization {
    provisioning: ActivationAnchorProvisioningOutcome,
    stage: DeclarationStage,
}

/// Lets the declaration of an account's own authority start: it has to say that
/// it is the first, and the administrator must not have provided an anchor.
pub fn initialize_current_euid_self_authority(
    initial: bool,
    system: &Option<AuthorityCandidate>,
) -> (outcome: Result<(), StoreActivationError>)
    ensures
        refused_as(
            outcome,
            if !initial {
                Some(ActivationFault::InitialAssertionRequired)
            } else {
                system_fault(candidate_view(*system))
            },
        ),
{
    if !initial {
        return Err(StoreActivationError::InitialAssertionRequired);
    }
    require_no_system_authority(system)
}

/// Why an account's own anchor is not declared.
pub open spec fn declaration_fault(path: Seq<u8>, candidate: Option<CandidateView>) -> Option<
    ActivationFault,
> {
    match candidate {
        None => Some(ActivationFault::AnchorNotProvisioned { path }),
        Some(own) => if own.state == StoreActivationKind::Lost || own.state
            == StoreActivationKind::CorruptOrReplaced {
            Some(ActivationFault::NotResumable)
        } else if own.claim is None && has_evidence(own.state) {
            Some(ActivationFault::AuthorityClaimInvalid { path: own.authority.locator })
        } else {
            None
        },
    }
}

impl SelfInitialization {
    /// What making the anchor came to.
    pub closed spec fn provisioning(&self) -> ActivationAnchorProvisioningOutcome {
        self.provisioning
    }

    /// How far it has come.
    pub closed spec fn stage(&self) -> DeclarationStage {
        self.stage
    }

    /// Goes on once the anchor was made: the account's own place has not moved.
    pub fn provisioned(
        provisioning: Result<
            ActivationAnchorProvisioningOutcome,
            ActivationAnchorProvisioningError,
        >,
        actual: Result<Vec<u8>, SelfAnchorRootError>,
    ) -> (step: Result<Self, SelfAuthorityInitializationError>)
        ensures
            match provisioning {
                Err(error) => step matches Err(SelfAuthorityInitializationError::Provision(told))
                    && told@ == error@,
                Ok(made) => match self_path_fault(made.path@, actual) {
                    Some(fault) => step matches Err(
                        SelfAuthorityInitializationError::Authority(error),
                    ) && error@ == fault,
                    None => step matches Ok(next) && next.provisioning() == made && next.stage()
                        == DeclarationStage::Provisioned,
                },
            },
    {
        let provisioning = match provisioning {
            Ok(made) => made,
            Err(error) => {
                return Err(SelfAuthorityInitializationError::Provision(error));
            },
        };
        if let Err(error) = require_current_self_path(provisioning.path.as_slice(), actual) {
            return Err(SelfAuthorityInitializationError::Authority(error));
        }
        Ok(SelfInitialization { provisioning, stage: DeclarationStage::Provisioned })
    }

    /// Requires that the administrator has still not provided an anchor.
    pub fn unopposed(&mut self, system: &Option<AuthorityCandidate>) -> (outcome: Result<
        (),
        StoreActivationError,
    >)
        requires
            old(self).stage() == DeclarationStage::Provisioned,
        ensures
            refused_as(outcome, system_fault(candidate_view(*system))),
            final(self).provisioning() == old(self).provisioning(),
            final(self).stage() == if outcome is Ok {
                DeclarationStage::Unopposed
            } else {
                old(self).stage()
            },
    {
        require_no_system_authority(system)?;
        self.stage = DeclarationStage::Unopposed;
        Ok(())
    }

    /// Requires that the anchor can be declared, and tells whether it has not
    /// been yet.
    pub fn declare(
        &mut self,
        candidate: &Option<AuthorityCandidate>,
        actual: Result<Vec<u8>, SelfAnchorRootError>,
    ) -> (fresh: Result<bool, StoreActivationError>)
        requires
            old(self).stage() == DeclarationStage::Unopposed,
        ensures
            refused_as(
                fresh,
                first_reason(
                    declaration_fault(
                        old(self).provisioning().path@,
                        candidate_view(*candidate),
                    ),
                    self_path_fault(old(self).provisioning().path@, actual),
                ),
            ),
            fresh matches Ok(yes) ==> yes == (claim_of(candidate_view(*candidate)) is None),
            final(self).provisioning() == old(self).provisioning(),
            final(self).stage() == match fresh {
                Ok(yes) => DeclarationStage::Declared { fresh: yes },
                Err(_) => old(self).stage(),
            },
    {
        let own = match candidate {
            Some(own) => own,
            None => {
                return Err(
                    StoreActivationError::AnchorNotProvisioned {
                        path: to_vec(self.provisioning.path.as_slice()),
                    },
                );
            },
        };
        if own.state == StoreActivationKind::Lost || own.state
            == StoreActivationKind::CorruptOrReplaced {
            return Err(StoreActivationError::NotResumable);
        }
        if own.claim.is_none() && own.state != StoreActivationKind::NeverActivated {
            return Err(
                StoreActivationError::AuthorityClaimInvalid {
                    path: to_vec(own.authority.locator.as_slice()),
                },
            );
        }
        let fresh = own.claim.is_none();
        require_current_self_path(self.provisioning.path.as_slice(), actual)?;
        self.stage = DeclarationStage::Declared { fresh };
        Ok(fresh)
    }

    /// Ends the declaration, if the claim stands.
    pub fn finish(
        self,
        claimed: Result<AuthorityRecord, StoreActivationError>,
        actual: Result<Vec<u8>, SelfAnchorRootError>,
    ) -> (outcome: Result<SelfAuthorityInitializationOutcome, StoreActivationError>)
        requires
            self.stage() is Declared,
        ensures
            refused_as(
                outcome,
                match claimed {
                    Err(error) => Some(error@),
                    Ok(_) => self_path_fault(self.provisioning().path@, actual),
                },
            ),
            outcome matches Ok(done) ==> done.provisioning == self.provisioning() && self.stage()
                == (DeclarationStage::Declared { fresh: done.declared }),
    {
        claimed?;
        require_current_self_path(self.provisioning.path.as_slice(), actual)?;
        let declared = match self.stage {
            DeclarationStage::Declared { fresh } => fresh,
            _ => false,
        };
        Ok(SelfAuthorityInitializationOutcome { provisioning: self.provisioning, declared })
    }
}

/// Traces of an activation in both anchors are never settled by preference,
/// whatever the claims say.
pub proof fn law_split_authority_is_refused(
    system: CandidateView,
    self_managed: CandidateView,
    system_path: Seq<u8>,
    self_path: Seq<u8>,
)
    requires
        has_evidence(system.state),
        has_evidence(self_managed.state),
    ensures
        selected_choice(Some(system), Some(self_managed), system_path, self_path) is Err,
{
}

/// An anchor without traces never overrides one with them.
pub proof fn law_evidence_prevails(
    system: CandidateView,
    self_managed: CandidateView,
    system_path: Seq<u8>,
    self_path: Seq<u8>,
)
    requires
        has_evidence(self_managed.state) != has_evidence(system.state),
    ensures
        selected_choice(Some(system), Some(self_managed), system_path, self_path) matches Ok(
            choice,
        ) ==> selection_of(choice, Some(system), Some(self_managed)).selected.state == if has_evidence(
            system.state,
        ) {
            system.state
        } else {
            self_managed.state
        },
{
}

/// A claim that was made stays: planning it again with whatever number gives the
/// same claim, and one that was published is accepted by its own plan.
pub proof fn law_claims_are_stable(
    authority: BoundView,
    peer: Option<CandidateView>,
    prepared: Option<[u8; 32]>,
    first: [u8; 32],
    second: [u8; 32],
)
    requires
        claim_fault(authority, peer, None, Ok(prepared), first) is None,
    ensures
        ({
            let made = planned_claim(authority, None, prepared, first);
            &&& claim_fault(authority, peer, Some(made), Ok(prepared), second) is None
            &&& planned_claim(authority, Some(made), prepared, second) == made
        }),
{
}

/// Without a claim the traces decide: the only authority that is there, or the only
/// one with traces, or the administrator's where neither has any; never one of two
/// that both have them.
pub proof fn law_traces_decide(
    system: Option<StoreActivationKind>,
    self_managed: Option<StoreActivationKind>,
)
    ensures
        evident_choice(system, self_managed) == Some(AuthorityChoice::System) <==> (
        system matches Some(theirs) && match self_managed {
            None => true,
            Some(own) => own == StoreActivationKind::NeverActivated,
        }),
        evident_choice(system, self_managed) == Some(AuthorityChoice::SelfManaged) <==> (
        self_managed matches Some(own) && match system {
            None => true,
            Some(theirs) => theirs == StoreActivationKind::NeverActivated && own
                != StoreActivationKind::NeverActivated,
        }),
{
}

/// An authority that a claim names is chosen only where it is the very object that
/// was claimed, was started under no other number, and the other authority has no
/// traces.
pub proof fn law_chosen_authorities_fit_their_claim(
    claim: ClaimView,
    selected: CandidateView,
    peer: Option<CandidateView>,
    system_path: Seq<u8>,
    self_path: Seq<u8>,
)
    ensures
        chosen_fault(claim, selected, peer, system_path, self_path) is None <==> {
            &&& selected.authority.identity == claim.selected.identity
            &&& selected.authority.backend == claim.selected.backend
            &&& selected.prepared matches Ok(id) && (id is Some ==> id == Some(claim.selection_id))
            &&& peer matches Some(other) ==> other.state == StoreActivationKind::NeverActivated
        },
{
}

/// A claim names the authority that it stands in, under the number that is there
/// already, in the claim or in what was started, and a new one only where there is
/// none.
pub proof fn law_claims_keep_their_number(
    authority: BoundView,
    existing: Option<ClaimView>,
    prepared: Option<[u8; 32]>,
    drawn: [u8; 32],
)
    ensures
        planned_claim(authority, existing, prepared, drawn).selected == authority,
        existing matches Some(claim) ==> planned_claim(
            authority,
            existing,
            prepared,
            drawn,
        ).selection_id == claim.selection_id,
        existing is None && prepared is Some ==> planned_claim(
            authority,
            existing,
            prepared,
            drawn,
        ).selection_id == prepared->0,
        existing is None && prepared is None ==> planned_claim(
            authority,
            existing,
            prepared,
            drawn,
        ).selection_id == drawn,
{
}

/// No claim is made over another one: one that stands in either anchor is the one
/// that is planned, and what was started carries its number.
pub proof fn law_claims_never_contradict(
    authority: BoundView,
    peer: Option<CandidateView>,
    existing: Option<ClaimView>,
    prepared: Result<Option<[u8; 32]>, ReadFault>,
    drawn: [u8; 32],
)
    requires
        claim_fault(authority, peer, existing, prepared, drawn) is None,
    ensures
        prepared is Ok,
        existing matches Some(claim) ==> same_object(claim.selected, authority) && (
        prepared->Ok_0 matches Some(id) ==> id == claim.selection_id),
        claim_of(peer) matches Some(claim) ==> same_object(claim.selected, authority)
            && claim.selection_id == planned_claim(
            authority,
            existing,
            prepared->Ok_0,
            drawn,
        ).selection_id,
        is_storable(authority),
{
}

/// A selection is handed out, gone on with or started only where its store is not
/// gone and not another one, and an account's own authority is started only once it
/// was claimed.
pub proof fn law_lost_stores_stop_everything(selection: SelectionView)
    ensures
        step_fault(selection) is None <==> selection.selected.state != StoreActivationKind::Lost
            && selection.selected.state != StoreActivationKind::CorruptOrReplaced && !(
        selection.selected.state == StoreActivationKind::NeverActivated && selection.mode
            == ActivationAuthorityMode::SelfManaged && selection.selected.claim is None),
{
}

/// An account declares its own authority only where the administrator has provided
/// none, its own place is where it was, and what stands there is sound and, where an
/// activation has left traces, claimed.
pub proof fn law_self_authority_is_declared_unopposed(
    system: Option<CandidateView>,
    expected: Seq<u8>,
    actual: Result<Vec<u8>, SelfAnchorRootError>,
    path: Seq<u8>,
    own: Option<CandidateView>,
)
    ensures
        system_fault(system) is None <==> system is None,
        self_path_fault(expected, actual) is None <==> (actual matches Ok(found) && same_path(
            found@,
            expected,
        )),
        declaration_fault(path, own) is None <==> (own matches Some(candidate) && match candidate.state {
            StoreActivationKind::NeverActivated => true,
            StoreActivationKind::Preparing => candidate.claim is Some,
            StoreActivationKind::Activated => candidate.claim is Some,
            StoreActivationKind::Lost => false,
            StoreActivationKind::CorruptOrReplaced => false,
        }),
{
}

/// The selection that follows from a choice is that authority, with the claim that
/// was found, and the other one beside it.
pub proof fn law_selections_follow_the_choice(
    system: Option<CandidateView>,
    self_managed: Option<CandidateView>,
)
    ensures
        system matches Some(theirs) ==> {
            let selection = selection_of(AuthorityChoice::System, system, self_managed);
            &&& selection.mode == ActivationAuthorityMode::AdministratorHardened
            &&& selection.selected.authority == theirs.authority
            &&& selection.selected.state == theirs.state
            &&& selection.peer == self_managed
        },
        self_managed matches Some(own) ==> {
            let selection = selection_of(AuthorityChoice::SelfManaged, system, self_managed);
            &&& selection.mode == ActivationAuthorityMode::SelfManaged
            &&& selection.selected.authority == own.authority
            &&& selection.selected.state == own.state
            &&& selection.peer == system
        },
        has_evidence(StoreActivationKind::Preparing),
        has_evidence(StoreActivationKind::Activated),
        has_evidence(StoreActivationKind::Lost),
        has_evidence(StoreActivationKind::CorruptOrReplaced),
        !has_evidence(StoreActivationKind::NeverActivated),
{
}

/// The anchor that is made for an account is the one that is looked for.
pub proof fn law_made_anchors_are_found(platform: AnchorPlatform, uid: u32)
    ensures
        leaf_of(system_root(platform), uid)
            == crate::activation_anchor_provisioning::plan::fixed_anchor_path(
            seq![crate::paths::SLASH],
            Some(platform),
            uid,
        ),
{
    reveal_with_fuel(crate::anchor_layout::followed, 4);
}

} // verus!
