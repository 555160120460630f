//! What mode bits let whom do to a directory.
//!
//! The results describe; none of them is an authority.

use crate::authority::principal::Principal;
use crate::authority::AuthorityBackend;
use crate::authority::AuthorityControlRights;
use crate::authority::AuthorityControllerExposure;
use crate::authority::CapabilityAcquisition;
use crate::authority::CapabilityAssessment;
use crate::authority::CapabilityEvidence;
use crate::authority::CapabilityReason;
use crate::authority::EvidenceCertainty;
use crate::authority::NamespaceRights;
use crate::authority::WriterExposure;
use crate::backend::evidence::HeldLocalBackendEvidence;
use std::collections::BTreeSet;
use vstd::prelude::*;

verus! {

broadcast use vstd::std_specs::btree::group_btree_axioms;

/// The owner may write.
pub const OWNER_WRITE: u32 = 0o200;

/// The owner may search.
pub const OWNER_EXECUTE: u32 = 0o100;

/// The group may write.
pub const GROUP_WRITE: u32 = 0o020;

/// The group may search.
pub const GROUP_EXECUTE: u32 = 0o010;

/// Everyone else may write.
pub const OTHER_WRITE: u32 = 0o002;

/// Everyone else may search.
pub const OTHER_EXECUTE: u32 = 0o001;

/// Existing entries belong to their owners.
pub const STICKY: u32 = 0o1000;

/// Which of the three classes of mode bits counts for someone.
#[derive(Clone, Copy, Debug, PartialEq, Eq, Structural)]
pub enum AccessClass {
    Owner,
    Group,
    Other,
}

/// Someone, as the mode bits see them.
#[derive(Clone, Debug, PartialEq, Eq)]
pub struct PosixSubject {
    pub uid: u32,
    pub groups: BTreeSet<u32>,
}

/// What a directory shows of its mode.
#[derive(Clone, Copy, Debug, PartialEq, Eq, Structural)]
pub struct DirectoryModeFacts {
    pub mode: u32,
    pub owner_uid: u32,
    pub group_gid: u32,
}

/// The class of `uid` with `groups`: the first that applies, never several.
pub open spec fn access_class(facts: DirectoryModeFacts, uid: u32, groups: Set<u32>) -> AccessClass {
    if uid == facts.owner_uid {
        AccessClass::Owner
    } else if groups.contains(facts.group_gid) {
        AccessClass::Group
    } else {
        AccessClass::Other
    }
}

/// The class of `subject`: the first that applies, never several.
pub fn effective_access_class(facts: DirectoryModeFacts, subject: &PosixSubject) -> (class:
    AccessClass)
    ensures
        class == access_class(facts, subject.uid, subject.groups@),
{
    if subject.uid == facts.owner_uid {
        AccessClass::Owner
    } else if subject.groups.contains(&facts.group_gid) {
        AccessClass::Group
    } else {
        AccessClass::Other
    }
}

/// The write bit of a class.
pub open spec fn write_bit(class: AccessClass) -> u32 {
    match class {
        AccessClass::Owner => OWNER_WRITE,
        AccessClass::Group => GROUP_WRITE,
        AccessClass::Other => OTHER_WRITE,
    }
}

/// The search bit of a class.
pub open spec fn search_bit(class: AccessClass) -> u32 {
    match class {
        AccessClass::Owner => OWNER_EXECUTE,
        AccessClass::Group => GROUP_EXECUTE,
        AccessClass::Other => OTHER_EXECUTE,
    }
}

/// The rights of a class. Changing the entries of a directory takes both write
/// and search; changing an entry that is there takes also that the sticky bit
/// does not forbid it.
pub open spec fn class_rights(mode: u32, class: AccessClass, past_sticky: bool) -> NamespaceRights {
    let search = mode & search_bit(class) != 0;
    let change = mode & write_bit(class) != 0 && search;
    let change_existing = change && (mode & STICKY == 0 || past_sticky);
    NamespaceRights {
        create_file: change,
        create_dir: change,
        delete_child: change_existing,
        replace_child: change_existing,
        traverse: search,
    }
}

/// The rights of `uid` with `groups`, over an entry with the given owner. The
/// sticky bit does not bind the owner of the directory or of the entry.
pub open spec fn subject_rights(
    facts: DirectoryModeFacts,
    uid: u32,
    groups: Set<u32>,
    binding_owner_uid: Option<u32>,
) -> NamespaceRights {
    class_rights(
        facts.mode,
        access_class(facts, uid, groups),
        uid == facts.owner_uid || binding_owner_uid == Some(uid),
    )
}

/// The rights of `subject` over an entry with the given owner.
pub fn evaluate_namespace_rights(
    facts: DirectoryModeFacts,
    subject: &PosixSubject,
    binding_owner_uid: Option<u32>,
) -> (rights: NamespaceRights)
    ensures
        rights == subject_rights(facts, subject.uid, subject.groups@, binding_owner_uid),
{
    let (write, search) = match effective_access_class(facts, subject) {
        AccessClass::Owner => (facts.mode & OWNER_WRITE != 0, facts.mode & OWNER_EXECUTE != 0),
        AccessClass::Group => (facts.mode & GROUP_WRITE != 0, facts.mode & GROUP_EXECUTE != 0),
        AccessClass::Other => (facts.mode & OTHER_WRITE != 0, facts.mode & OTHER_EXECUTE != 0),
    };
    let can_write_namespace = write && search;
    let owns_binding = match binding_owner_uid {
        Some(owner) => subject.uid == owner,
        None => false,
    };
    let can_mutate_existing = facts.mode & STICKY == 0 || subject.uid == facts.owner_uid
        || owns_binding;
    NamespaceRights {
        create_file: can_write_namespace,
        create_dir: can_write_namespace,
        delete_child: can_write_namespace && can_mutate_existing,
        replace_child: can_write_namespace && can_mutate_existing,
        traverse: search,
    }
}

/// A writer known by the mode bits.
pub open spec fn mode_writer(principal: Principal, rights: NamespaceRights) -> WriterExposure {
    WriterExposure {
        principal,
        rights,
        source: AuthorityBackend::PosixMode,
        inherited: false,
        certainty: EvidenceCertainty::Verified,
    }
}

/// The owner, where foreign, with any right at all.
pub open spec fn owner_writers(facts: DirectoryModeFacts, effective_uid: u32) -> Seq<
    WriterExposure,
> {
    let rights = class_rights(facts.mode, AccessClass::Owner, true);
    if facts.owner_uid != effective_uid && (rights.create_file || rights.delete_child
        || rights.traverse) {
        seq![mode_writer(Principal::PosixUid(facts.owner_uid), rights)]
    } else {
        Seq::empty()
    }
}

/// The given class, where it can change entries.
pub open spec fn class_writers(
    principal: Principal,
    facts: DirectoryModeFacts,
    class: AccessClass,
) -> Seq<WriterExposure> {
    let rights = class_rights(facts.mode, class, false);
    if rights.create_file || rights.delete_child {
        seq![mode_writer(principal, rights)]
    } else {
        Seq::empty()
    }
}

/// Who else than `effective_uid` can write: the owner, the group, everyone.
pub open spec fn foreign_writers(facts: DirectoryModeFacts, effective_uid: u32) -> Seq<
    WriterExposure,
> {
    owner_writers(facts, effective_uid) + class_writers(
        Principal::PosixGid(facts.group_gid),
        facts,
        AccessClass::Group,
    ) + class_writers(Principal::Everyone, facts, AccessClass::Other)
}

/// Who else than `effective_uid` controls the directory: its owner, who can
/// change the mode before anything else, whatever the mode says now.
pub open spec fn foreign_controllers(facts: DirectoryModeFacts, effective_uid: u32) -> Seq<
    AuthorityControllerExposure,
> {
    if facts.owner_uid != effective_uid {
        seq![
            AuthorityControllerExposure {
                principal: Principal::PosixUid(facts.owner_uid),
                rights: AuthorityControlRights {
                    change_mode: true,
                    change_acl: true,
                    replace_binding: true,
                },
            },
        ]
    } else {
        Seq::empty()
    }
}

/// The rights that two bits of the mode give a class.
fn rights_of_bits(mode: u32, write: u32, execute: u32, past_sticky: bool) -> (rights:
    NamespaceRights)
    ensures
        forall|class: AccessClass|
            write == write_bit(class) && execute == search_bit(class) ==> rights
                == #[trigger] class_rights(mode, class, past_sticky),
{
    let traverse = mode & execute != 0;
    let write_and_search = mode & write != 0 && traverse;
    let existing = write_and_search && (mode & STICKY == 0 || past_sticky);
    NamespaceRights {
        create_file: write_and_search,
        create_dir: write_and_search,
        delete_child: existing,
        replace_child: existing,
        traverse,
    }
}

/// Who else than `effective_uid` can write or controls who can. The group and
/// everyone are not said to change existing entries of a sticky directory: that
/// depends on who owns the entry.
pub fn foreign_mode_exposure(facts: DirectoryModeFacts, effective_uid: u32) -> (exposure: (
    Vec<WriterExposure>,
    Vec<AuthorityControllerExposure>,
))
    ensures
        exposure.0@ == foreign_writers(facts, effective_uid),
        exposure.1@ == foreign_controllers(facts, effective_uid),
{
    let mut writers: Vec<WriterExposure> = Vec::new();
    let owner = rights_of_bits(facts.mode, OWNER_WRITE, OWNER_EXECUTE, true);
    assert(owner == class_rights(facts.mode, AccessClass::Owner, true));
    if facts.owner_uid != effective_uid && (owner.create_file || owner.delete_child
        || owner.traverse) {
        writers.push(
            WriterExposure {
                principal: Principal::PosixUid(facts.owner_uid),
                rights: owner,
                source: AuthorityBackend::PosixMode,
                inherited: false,
                certainty: EvidenceCertainty::Verified,
            },
        );
    }
    assert(writers@ =~= owner_writers(facts, effective_uid));
    let group = rights_of_bits(facts.mode, GROUP_WRITE, GROUP_EXECUTE, false);
    assert(group == class_rights(facts.mode, AccessClass::Group, false));
    if group.create_file || group.delete_child {
        writers.push(
            WriterExposure {
                principal: Principal::PosixGid(facts.group_gid),
                rights: group,
                source: AuthorityBackend::PosixMode,
                inherited: false,
                certainty: EvidenceCertainty::Verified,
            },
        );
    }
    assert(writers@ =~= owner_writers(facts, effective_uid) + class_writers(
        Principal::PosixGid(facts.group_gid),
        facts,
        AccessClass::Group,
    ));
    let other = rights_of_bits(facts.mode, OTHER_WRITE, OTHER_EXECUTE, false);
    assert(other == class_rights(facts.mode, AccessClass::Other, false));
    if other.create_file || other.delete_child {
        writers.push(
            WriterExposure {
                principal: Principal::Everyone,
                rights: other,
                source: AuthorityBackend::PosixMode,
                inherited: false,
                certainty: EvidenceCertainty::Verified,
            },
        );
    }
    assert(writers@ =~= foreign_writers(facts, effective_uid));
    let mut controllers: Vec<AuthorityControllerExposure> = Vec::new();
    if facts.owner_uid != effective_uid {
        controllers.push(
            AuthorityControllerExposure {
                principal: Principal::PosixUid(facts.owner_uid),
                rights: AuthorityControlRights {
                    change_mode: true,
                    change_acl: true,
                    replace_binding: true,
                },
            },
        );
    }
    assert(controllers@ =~= foreign_controllers(facts, effective_uid));
    (writers, controllers)
}

/// Someone other than the owner can change the entries of a directory with
/// this mode.
pub open spec fn has_namespace_writers(mode: u32) -> bool {
    mode & 0o030 == 0o030 || mode & 0o003 == 0o003
}

/// The mode without those write bits of the group and of everyone that combine
/// with search. All other bits stay.
pub open spec fn sealed_mode(mode: u32) -> u32 {
    let group_sealed = if mode & 0o030 == 0o030 {
        mode & !0o020u32
    } else {
        mode
    };
    if mode & 0o003 == 0o003 {
        group_sealed & !0o002u32
    } else {
        group_sealed
    }
}

/// The mode without those write bits of the group and of everyone that combine
/// with search.
pub fn minimal_sealed_mode(mode: u32) -> (sealed: u32)
    ensures
        sealed == sealed_mode(mode),
{
    let mut sealed: u32 = mode;
    if mode & 0o030 == 0o030 {
        sealed = sealed & !0o020u32;
    }
    if mode & 0o003 == 0o003 {
        sealed = sealed & !0o002u32;
    }
    sealed
}

/// Whether someone other than the owner can change the entries of a directory
/// with this mode.
pub fn grants_namespace_write(mode: u32) -> (grants: bool)
    ensures
        grants == has_namespace_writers(mode),
{
    mode & 0o030 == 0o030 || mode & 0o003 == 0o003
}

/// What sealing a directory by its mode would come to.
#[derive(Clone, Copy, Debug, PartialEq, Eq, Structural)]
pub enum ModeSealAssessment {
    /// A description of the change; it is no capability to make it.
    Candidate { original_mode: u32, sealed_mode: u32 },
    Denied(ModeSealDenial),
}

/// Why a directory cannot be sealed by its mode.
#[derive(Clone, Copy, Debug, PartialEq, Eq, Structural)]
pub enum ModeSealDenial {
    NotOwner,
}

/// What the evidence shows of the mode.
pub open spec fn facts_of(evidence: &HeldLocalBackendEvidence) -> DirectoryModeFacts {
    DirectoryModeFacts {
        mode: evidence@.snapshot.mode,
        owner_uid: evidence@.snapshot.owner_uid,
        group_gid: evidence@.snapshot.group_gid,
    }
}

/// What the evidence shows of the mode.
pub fn mode_facts(evidence: &HeldLocalBackendEvidence) -> (facts: DirectoryModeFacts)
    ensures
        facts == facts_of(evidence),
{
    DirectoryModeFacts {
        mode: evidence.mode(),
        owner_uid: evidence.owner_uid(),
        group_gid: evidence.group_gid(),
    }
}

/// What sealing the held directory would come to, by what the evidence holds.
/// Only the owner can seal.
pub open spec fn seal_assessment(evidence: &HeldLocalBackendEvidence) -> ModeSealAssessment {
    if evidence@.snapshot.owner_uid != evidence@.snapshot.effective_uid {
        ModeSealAssessment::Denied(ModeSealDenial::NotOwner)
    } else {
        ModeSealAssessment::Candidate {
            original_mode: evidence@.snapshot.mode,
            sealed_mode: sealed_mode(evidence@.snapshot.mode),
        }
    }
}

/// What sealing the held directory would come to.
pub fn assess_mode_seal(evidence: &HeldLocalBackendEvidence) -> (assessment: ModeSealAssessment)
    ensures
        assessment == seal_assessment(evidence),
{
    let facts = mode_facts(evidence);
    if facts.owner_uid != evidence.effective_uid() {
        return ModeSealAssessment::Denied(ModeSealDenial::NotOwner);
    }
    ModeSealAssessment::Candidate {
        original_mode: facts.mode,
        sealed_mode: minimal_sealed_mode(facts.mode),
    }
}

/// Whether `uid` with `groups` can replace an entry with the given owner: it
/// can, or it owns the directory and could after changing the mode, or it
/// cannot.
pub open spec fn is_capability(
    assessment: CapabilityAssessment,
    facts: DirectoryModeFacts,
    uid: u32,
    groups: Set<u32>,
    binding_owner_uid: Option<u32>,
) -> bool {
    if subject_rights(facts, uid, groups, binding_owner_uid).replace_child {
        assessment matches CapabilityAssessment::Present(evidence) && evidence.source()
            == AuthorityBackend::PosixMode
    } else if uid == facts.owner_uid {
        assessment == CapabilityAssessment::Acquirable(
            CapabilityAcquisition::OwnerModeTransform {
                original: facts.mode,
                required: sealed_mode(facts.mode | OWNER_WRITE | OWNER_EXECUTE),
            },
        )
    } else {
        assessment == CapabilityAssessment::Missing(CapabilityReason::PermissionDenied)
    }
}

/// Whether the process that holds the directory can rename or delete an entry
/// with the given owner.
pub fn assess_process_capability(
    evidence: &HeldLocalBackendEvidence,
    binding_owner_uid: Option<u32>,
) -> (assessment: CapabilityAssessment)
    ensures
        is_capability(
            assessment,
            facts_of(evidence),
            evidence@.snapshot.effective_uid,
            evidence@.snapshot.effective_groups,
            binding_owner_uid,
        ),
{
    let subject = PosixSubject {
        uid: evidence.effective_uid(),
        groups: evidence.effective_groups().clone(),
    };
    assess_capability_facts(mode_facts(evidence), &subject, binding_owner_uid)
}

/// Whether `subject` can replace an entry with the given owner.
pub fn assess_capability_facts(
    facts: DirectoryModeFacts,
    subject: &PosixSubject,
    binding_owner_uid: Option<u32>,
) -> (assessment: CapabilityAssessment)
    ensures
        is_capability(assessment, facts, subject.uid, subject.groups@, binding_owner_uid),
{
    let rights = evaluate_namespace_rights(facts, subject, binding_owner_uid);
    if rights.replace_child {
        if let Some(evidence) = CapabilityEvidence::new(AuthorityBackend::PosixMode) {
            return CapabilityAssessment::Present(evidence);
        }
    }
    if subject.uid == facts.owner_uid {
        let required = minimal_sealed_mode(facts.mode | OWNER_WRITE | OWNER_EXECUTE);
        return CapabilityAssessment::Acquirable(
            CapabilityAcquisition::OwnerModeTransform { original: facts.mode, required },
        );
    }
    CapabilityAssessment::Missing(CapabilityReason::PermissionDenied)
}

/// A sealed mode has no writers but the owner, sealing it again changes
/// nothing, and only write bits of the group and of everyone are gone.
pub proof fn law_sealing(mode: u32)
    ensures
        !has_namespace_writers(sealed_mode(mode)),
        sealed_mode(sealed_mode(mode)) == sealed_mode(mode),
        sealed_mode(mode) | mode == mode,
        sealed_mode(mode) & !0o022u32 == mode & !0o022u32,
        sealed_mode(mode) == mode <==> !has_namespace_writers(mode),
        mode & !0o7777u32 == 0 ==> sealed_mode(mode) & !0o7777u32 == 0,
{
    let group_sealed = if mode & 0o030 == 0o030 {
        mode & !0o020u32
    } else {
        mode
    };
    let sealed = if mode & 0o003 == 0o003 {
        group_sealed & !0o002u32
    } else {
        group_sealed
    };
    assert(sealed == sealed_mode(mode));
    assert(sealed & 0o030 != 0o030 && sealed & 0o003 != 0o003 && sealed | mode == mode && sealed
        & !0o022u32 == mode & !0o022u32 && (sealed == mode <==> !(mode & 0o030 == 0o030 || mode
        & 0o003 == 0o003)) && (mode & !0o7777u32 == 0 ==> sealed & !0o7777u32 == 0))
        by (bit_vector)
        requires
            group_sealed == if mode & 0o030 == 0o030 {
                mode & !0o020u32
            } else {
                mode
            },
            sealed == if mode & 0o003 == 0o003 {
                group_sealed & !0o002u32
            } else {
                group_sealed
            },
    ;
}

/// Sealing takes no right away from the owner and leaves no one else a way to
/// change entries.
pub proof fn law_sealing_keeps_the_owner(mode: u32, past_sticky: bool)
    ensures
        class_rights(sealed_mode(mode), AccessClass::Owner, past_sticky) == class_rights(
            mode,
            AccessClass::Owner,
            past_sticky,
        ),
        !class_rights(sealed_mode(mode), AccessClass::Group, past_sticky).create_file,
        !class_rights(sealed_mode(mode), AccessClass::Group, past_sticky).replace_child,
        !class_rights(sealed_mode(mode), AccessClass::Other, past_sticky).create_file,
        !class_rights(sealed_mode(mode), AccessClass::Other, past_sticky).replace_child,
        class_rights(sealed_mode(mode), AccessClass::Group, past_sticky).traverse == class_rights(
            mode,
            AccessClass::Group,
            past_sticky,
        ).traverse,
        class_rights(sealed_mode(mode), AccessClass::Other, past_sticky).traverse == class_rights(
            mode,
            AccessClass::Other,
            past_sticky,
        ).traverse,
{
    law_sealing(mode);
    let sealed = sealed_mode(mode);
    assert(sealed & 0o200 == mode & 0o200 && sealed & 0o100 == mode & 0o100 && sealed & 0o1000
        == mode & 0o1000 && sealed & 0o010 == mode & 0o010 && sealed & 0o001 == mode & 0o001)
        by (bit_vector)
        requires
            sealed & !0o022u32 == mode & !0o022u32,
    ;
    assert(!(sealed & 0o020 != 0 && sealed & 0o010 != 0) && !(sealed & 0o002 != 0 && sealed
        & 0o001 != 0)) by (bit_vector)
        requires
            sealed & 0o030 != 0o030,
            sealed & 0o003 != 0o003,
    ;
}

/// What a mode lets a class do. Making an entry takes write and search; changing
/// one that is there takes also that the directory is not sticky or that the
/// sticky bit does not bind; going through it takes search alone.
pub proof fn law_rights_follow_the_bits(mode: u32, past_sticky: bool)
    ensures
        ({
            let rights = class_rights(mode, AccessClass::Owner, past_sticky);
            &&& rights.create_file == (mode & 0o200 != 0 && mode & 0o100 != 0)
            &&& rights.create_dir == rights.create_file
            &&& rights.replace_child == (rights.create_file && (mode & 0o1000 == 0 || past_sticky))
            &&& rights.delete_child == rights.replace_child
            &&& rights.traverse == (mode & 0o100 != 0)
        }),
        ({
            let rights = class_rights(mode, AccessClass::Group, past_sticky);
            &&& rights.create_file == (mode & 0o020 != 0 && mode & 0o010 != 0)
            &&& rights.create_dir == rights.create_file
            &&& rights.replace_child == (rights.create_file && (mode & 0o1000 == 0 || past_sticky))
            &&& rights.delete_child == rights.replace_child
            &&& rights.traverse == (mode & 0o010 != 0)
        }),
        ({
            let rights = class_rights(mode, AccessClass::Other, past_sticky);
            &&& rights.create_file == (mode & 0o002 != 0 && mode & 0o001 != 0)
            &&& rights.create_dir == rights.create_file
            &&& rights.replace_child == (rights.create_file && (mode & 0o1000 == 0 || past_sticky))
            &&& rights.delete_child == rights.replace_child
            &&& rights.traverse == (mode & 0o001 != 0)
        }),
        has_namespace_writers(mode) <==> class_rights(
            mode,
            AccessClass::Group,
            past_sticky,
        ).create_file || class_rights(mode, AccessClass::Other, past_sticky).create_file,
{
    assert((mode & 0o030 == 0o030) == (mode & 0o020 != 0 && mode & 0o010 != 0) && (mode & 0o003
        == 0o003) == (mode & 0o002 != 0 && mode & 0o001 != 0)) by (bit_vector);
}

/// The first class that someone belongs to counts, even where a later one would
/// let them do more; the sticky bit does not bind the owner of the directory or
/// of the entry, and binds everyone else.
pub proof fn law_one_class_counts(
    facts: DirectoryModeFacts,
    uid: u32,
    groups: Set<u32>,
    binding_owner_uid: Option<u32>,
)
    ensures
        uid == facts.owner_uid ==> access_class(facts, uid, groups) == AccessClass::Owner,
        uid != facts.owner_uid && groups.contains(facts.group_gid) ==> access_class(
            facts,
            uid,
            groups,
        ) == AccessClass::Group,
        uid != facts.owner_uid && !groups.contains(facts.group_gid) ==> access_class(
            facts,
            uid,
            groups,
        ) == AccessClass::Other,
        uid == facts.owner_uid ==> subject_rights(facts, uid, groups, binding_owner_uid)
            == class_rights(facts.mode, AccessClass::Owner, true),
        uid != facts.owner_uid && facts.mode & 0o1000 != 0 && binding_owner_uid != Some(uid)
            ==> !subject_rights(facts, uid, groups, binding_owner_uid).replace_child
            && !subject_rights(facts, uid, groups, binding_owner_uid).delete_child,
        binding_owner_uid == Some(uid) || facts.mode & 0o1000 == 0 ==> subject_rights(
            facts,
            uid,
            groups,
            binding_owner_uid,
        ).replace_child == subject_rights(facts, uid, groups, binding_owner_uid).create_file,
{
}

/// Whoever else can make or change entries is among the writers, with exactly the
/// rights of their class, and nobody stands among them who is the process itself.
pub proof fn law_foreign_writers_are_all_found(facts: DirectoryModeFacts, effective_uid: u32)
    ensures
        ({
            let writers = foreign_writers(facts, effective_uid);
            let owner = class_rights(facts.mode, AccessClass::Owner, true);
            let group = class_rights(facts.mode, AccessClass::Group, false);
            let other = class_rights(facts.mode, AccessClass::Other, false);
            &&& facts.owner_uid != effective_uid && (owner.create_file || owner.traverse)
                ==> writers.len() > 0 && writers[0].principal == Principal::PosixUid(
                facts.owner_uid,
            ) && writers[0].rights == owner
            &&& group.create_file ==> exists|i: int|
                0 <= i < writers.len() && (#[trigger] writers[i]).principal == Principal::PosixGid(
                    facts.group_gid,
                ) && writers[i].rights == group
            &&& other.create_file ==> writers.len() > 0 && writers.last().principal
                == Principal::Everyone && writers.last().rights == other
            &&& forall|i: int|
                0 <= i < writers.len() ==> {
                    let writer = #[trigger] writers[i];
                    &&& writer.source == AuthorityBackend::PosixMode
                    &&& writer.certainty == EvidenceCertainty::Verified
                    &&& !writer.inherited
                    &&& writer.principal == Principal::PosixUid(effective_uid) ==> false
                    &&& writer.principal is PosixUid ==> facts.owner_uid != effective_uid
                    &&& writer.principal is PosixGid ==> group.create_file
                    &&& writer.principal is Everyone ==> other.create_file
                }
            &&& facts.owner_uid == effective_uid && !has_namespace_writers(facts.mode)
                ==> writers.len() == 0
        }),
        facts.owner_uid == effective_uid ==> foreign_controllers(facts, effective_uid).len() == 0,
        facts.owner_uid != effective_uid ==> {
            let controllers = foreign_controllers(facts, effective_uid);
            &&& controllers.len() == 1
            &&& controllers[0].principal == Principal::PosixUid(facts.owner_uid)
            &&& controllers[0].rights.change_mode
            &&& controllers[0].rights.change_acl
            &&& controllers[0].rights.replace_binding
        },
{
    law_rights_follow_the_bits(facts.mode, false);
    let owners = owner_writers(facts, effective_uid);
    let group = class_writers(Principal::PosixGid(facts.group_gid), facts, AccessClass::Group);
    let others = class_writers(Principal::Everyone, facts, AccessClass::Other);
    let writers = foreign_writers(facts, effective_uid);
    assert(writers == owners + group + others);
    if class_rights(facts.mode, AccessClass::Group, false).create_file {
        assert(writers[owners.len() as int] == group[0]);
    }
}

/// Only the owner can seal, and then to the mode that drops the write bits which
/// let others change entries, and nothing else.
pub proof fn law_assessed_seals_are_minimal(evidence: &HeldLocalBackendEvidence)
    ensures
        evidence@.snapshot.owner_uid != evidence@.snapshot.effective_uid ==> seal_assessment(
            evidence,
        ) is Denied,
        evidence@.snapshot.owner_uid == evidence@.snapshot.effective_uid ==> (seal_assessment(
            evidence,
        ) matches ModeSealAssessment::Candidate { original_mode, sealed_mode } && {
            &&& original_mode == evidence@.snapshot.mode
            &&& sealed_mode | original_mode == original_mode
            &&& sealed_mode & !0o022u32 == original_mode & !0o022u32
            &&& sealed_mode & 0o030 != 0o030
            &&& sealed_mode & 0o003 != 0o003
        }),
{
    law_sealing(evidence@.snapshot.mode);
}

/// A capability is present only for whom the mode lets replace an entry, can be
/// acquired only by the owner of the directory, and is missing for anyone else.
pub proof fn law_capabilities_follow_the_mode(
    assessment: CapabilityAssessment,
    facts: DirectoryModeFacts,
    uid: u32,
    groups: Set<u32>,
    binding_owner_uid: Option<u32>,
)
    requires
        is_capability(assessment, facts, uid, groups, binding_owner_uid),
    ensures
        assessment is Present <==> subject_rights(
            facts,
            uid,
            groups,
            binding_owner_uid,
        ).replace_child,
        assessment is Acquirable ==> uid == facts.owner_uid,
        assessment is Missing ==> uid != facts.owner_uid,
        assessment matches CapabilityAssessment::Acquirable(
            CapabilityAcquisition::OwnerModeTransform { original, required },
        ) ==> original == facts.mode && required & 0o300 == 0o300 && required & 0o030 != 0o030
            && required & 0o003 != 0o003 && required & !0o322u32 == original & !0o322u32,
{
    let mode = facts.mode;
    let asked = mode | OWNER_WRITE | OWNER_EXECUTE;
    law_sealing(asked);
    let required = sealed_mode(asked);
    assert(required & 0o300 == 0o300 && required & !0o322u32 == mode & !0o322u32) by (bit_vector)
        requires
            asked == mode | 0o200 | 0o100,
            required & !0o022u32 == asked & !0o022u32,
    ;
}

/// What an owner can acquire is enough: with the required mode the owner can
/// replace an entry.
pub proof fn law_acquired_mode_suffices(facts: DirectoryModeFacts, groups: Set<u32>, binding: Option<u32>)
    ensures
        subject_rights(
            DirectoryModeFacts {
                mode: sealed_mode(facts.mode | OWNER_WRITE | OWNER_EXECUTE),
                owner_uid: facts.owner_uid,
                group_gid: facts.group_gid,
            },
            facts.owner_uid,
            groups,
            binding,
        ).replace_child,
{
    let mode = facts.mode;
    let asked = mode | OWNER_WRITE | OWNER_EXECUTE;
    law_sealing_keeps_the_owner(asked, true);
    assert((mode | 0o200 | 0o100) & 0o200 != 0 && (mode | 0o200 | 0o100) & 0o100 != 0)
        by (bit_vector);
}

} // verus!
