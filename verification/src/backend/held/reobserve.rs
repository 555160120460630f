//! The last look at a regular file before its links are counted.
//!
//! A recorded file is looked at once more under its name, through a fresh
//! descriptor, with its attributes before and after, and under its name again.
//! Each look has to show exactly what was recorded.

use crate::backend::certify::CertifiedLocalBackend;
use crate::backend::held::child::TreeContext;
use crate::backend::held::error::refused_for;
use crate::backend::held::error::HeldTreeError;
use crate::backend::held::error::TreeFault;
use crate::backend::held::inspect::boundary_fault;
use crate::backend::held::inspect::observed_file;
use crate::backend::held::inspect::owner_fault;
use crate::backend::held::inspect::require_boundary;
use crate::backend::held::inspect::require_owner;
use crate::backend::held::inspect::Inspection;
use crate::backend::held::limits::first_fault;
use crate::backend::held::model::NodeKind;
use crate::backend::held::model::RegularFileObservation;
use crate::backend::held::model::RegularXattrProof;
use crate::bytes::to_vec;
use crate::paths::parent;
use crate::paths::path_parent_bytes;
use vstd::prelude::*;

verus! {

/// The last component of a canonical path.
pub open spec fn file_name(path: Seq<u8>) -> Seq<u8> {
    if parent(path).len() == 0 {
        path
    } else {
        path.skip(parent(path).len() as int + 1)
    }
}

/// Splits a path into the directory it lies in and its name there.
pub fn split_name(path: &[u8]) -> (parts: (Vec<u8>, Vec<u8>))
    ensures
        parts.0@ == parent(path@),
        parts.1@ == file_name(path@),
{
    let above = path_parent_bytes(path);
    let size = path.len();
    proof {
        crate::paths::lemma_parent(path@);
    }
    let start: usize = if above.len() == 0 {
        0
    } else {
        above.len() + 1
    };
    let name = vstd::slice::slice_subrange(path, start, size);
    assert(name@ =~= file_name(path@));
    (to_vec(above), to_vec(name))
}

/// How far the last look has come.
#[derive(Clone, Copy, Debug, PartialEq, Eq, Structural)]
pub enum LookStage {
    /// Nothing has been looked at.
    Start,
    /// The file was seen under its name.
    Named,
    /// It was opened on the right file system.
    Opened,
    /// Its attributes were read.
    AttributesRead,
    /// It was seen through the descriptor.
    DescriptorSeen,
    /// Its attributes were read again.
    AttributesReadAgain,
    /// It was seen through the descriptor again.
    DescriptorSeenAgain,
    /// It was seen under its name again.
    Finished,
}

/// The last look at one file.
#[derive(Debug)]
pub struct LastLook {
    path: Vec<u8>,
    recorded: RegularFileObservation,
    context: TreeContext,
    stage: LookStage,
}

/// Why one sight of the file does not show what was recorded.
pub open spec fn sight_fault(
    seen: Result<Inspection, HeldTreeError>,
    recorded: RegularFileObservation,
    path: Seq<u8>,
    effective_uid: u32,
    context: TreeContext,
) -> Option<TreeFault> {
    match seen {
        Err(error) => Some(error@),
        Ok(seen) => first_fault(
            owner_fault(path, seen.uid, effective_uid),
            first_fault(
                boundary_fault(path, context.backend, context.mount_id, seen),
                if observed_file(seen, recorded.sha256, recorded.xattrs) == Some(recorded) {
                    None
                } else {
                    Some(TreeFault::ContentChangedDuringHash(path))
                },
            ),
        ),
    }
}

/// Why the attributes are not those that were recorded.
pub open spec fn attributes_fault(
    xattrs: Result<RegularXattrProof, HeldTreeError>,
    recorded: RegularFileObservation,
    path: Seq<u8>,
) -> Option<TreeFault> {
    match xattrs {
        Err(error) => Some(error@),
        Ok(xattrs) => if xattrs == recorded.xattrs {
            None
        } else {
            Some(TreeFault::XattrsChangedDuringProof(path))
        },
    }
}

impl LastLook {
    /// Where the file lies.
    pub closed spec fn path(&self) -> Seq<u8> {
        self.path@
    }

    /// What was recorded of it.
    pub closed spec fn recorded(&self) -> RegularFileObservation {
        self.recorded
    }

    /// What the tree is confined to.
    pub closed spec fn context(&self) -> TreeContext {
        self.context
    }

    /// How far the look has come.
    pub closed spec fn stage(&self) -> LookStage {
        self.stage
    }

    /// Where the file lies.
    pub fn path_bytes(&self) -> (path: &Vec<u8>)
        ensures
            path@ == self.path(),
    {
        &self.path
    }

    /// What was recorded of it.
    pub fn recorded_file(&self) -> (file: RegularFileObservation)
        ensures
            file == self.recorded(),
    {
        self.recorded
    }

    /// The look is the same, but for how far it has come.
    pub open spec fn is_later(&self, before: &Self) -> bool {
        self.path() == before.path() && self.recorded() == before.recorded() && self.context()
            == before.context()
    }

    /// Starts the last look. The root is no file.
    pub fn begin(path: &[u8], recorded: RegularFileObservation, context: TreeContext) -> (look:
        Result<Self, HeldTreeError>)
        ensures
            refused_for(
                look,
                if path@.len() == 0 {
                    Some(TreeFault::ContentChangedDuringHash(path@))
                } else {
                    None
                },
            ),
            look matches Ok(started) ==> started.path() == path@ && started.recorded() == recorded
                && started.context() == context && started.stage() == LookStage::Start,
    {
        if path.len() == 0 {
            return Err(HeldTreeError::ContentChangedDuringHash(to_vec(path)));
        }
        Ok(LastLook { path: to_vec(path), recorded, context, stage: LookStage::Start })
    }

    /// Requires that one sight shows what was recorded.
    fn require_sight(&self, seen: Result<Inspection, HeldTreeError>, effective_uid: u32)
        -> (outcome: Result<(), HeldTreeError>)
        ensures
            refused_for(
                outcome,
                sight_fault(
                    seen,
                    self.recorded(),
                    self.path(),
                    effective_uid,
                    self.context(),
                ),
            ),
    {
        let seen = seen?;
        let path = self.path.as_slice();
        require_owner(path, seen.uid, effective_uid)?;
        require_boundary(path, self.context.backend, self.context.mount_id, &seen)?;
        match seen.regular_file_observation(self.recorded.sha256, self.recorded.xattrs) {
            Some(observation) => if observation.same(&self.recorded) {
                Ok(())
            } else {
                Err(HeldTreeError::ContentChangedDuringHash(to_vec(path)))
            },
            None => Err(HeldTreeError::ContentChangedDuringHash(to_vec(path))),
        }
    }

    /// Takes what is seen under the name, before the file is opened or at the
    /// end, or what the descriptor shows, and who the process acts for then.
    pub fn see(&mut self, seen: Result<Inspection, HeldTreeError>, effective_uid: u32) -> (outcome:
        Result<(), HeldTreeError>)
        requires
            next_sight(old(self).stage()) is Some,
        ensures
            final(self).is_later(old(self)),
            refused_for(
                outcome,
                sight_fault(
                    seen,
                    old(self).recorded(),
                    old(self).path(),
                    effective_uid,
                    old(self).context(),
                ),
            ),
            final(self).stage() == if outcome is Ok {
                next_sight(old(self).stage())->0
            } else {
                old(self).stage()
            },
    {
        self.require_sight(seen, effective_uid)?;
        self.stage = match self.stage {
            LookStage::Start => LookStage::Named,
            LookStage::AttributesRead => LookStage::DescriptorSeen,
            LookStage::AttributesReadAgain => LookStage::DescriptorSeenAgain,
            _ => LookStage::Finished,
        };
        Ok(())
    }

    /// Takes the file system of the opened file.
    pub fn open(&mut self, backend: Result<CertifiedLocalBackend, HeldTreeError>) -> (outcome:
        Result<(), HeldTreeError>)
        requires
            old(self).stage() == LookStage::Named,
        ensures
            final(self).is_later(old(self)),
            refused_for(
                outcome,
                match backend {
                    Err(error) => Some(error@),
                    Ok(fresh) => if fresh == old(self).context().backend {
                        None
                    } else {
                        Some(TreeFault::BackendBoundary(old(self).path()))
                    },
                },
            ),
            final(self).stage() == if outcome is Ok {
                LookStage::Opened
            } else {
                old(self).stage()
            },
    {
        let fresh = backend?;
        if fresh != self.context.backend {
            return Err(HeldTreeError::BackendBoundary(to_vec(self.path.as_slice())));
        }
        self.stage = LookStage::Opened;
        Ok(())
    }

    /// Takes the attributes of the opened file.
    pub fn attributes(&mut self, xattrs: Result<RegularXattrProof, HeldTreeError>) -> (outcome:
        Result<(), HeldTreeError>)
        requires
            old(self).stage() == LookStage::Opened || old(self).stage()
                == LookStage::DescriptorSeen,
        ensures
            final(self).is_later(old(self)),
            refused_for(
                outcome,
                attributes_fault(xattrs, old(self).recorded(), old(self).path()),
            ),
            final(self).stage() == if outcome is Err {
                old(self).stage()
            } else if old(self).stage() == LookStage::Opened {
                LookStage::AttributesRead
            } else {
                LookStage::AttributesReadAgain
            },
    {
        let xattrs = xattrs?;
        if !xattrs.same(&self.recorded.xattrs) {
            return Err(HeldTreeError::XattrsChangedDuringProof(to_vec(self.path.as_slice())));
        }
        self.stage = match self.stage {
            LookStage::Opened => LookStage::AttributesRead,
            _ => LookStage::AttributesReadAgain,
        };
        Ok(())
    }

    /// What the last look saw: what was recorded.
    pub fn finish(self) -> (observation: RegularFileObservation)
        requires
            self.stage() == LookStage::Finished,
        ensures
            observation == self.recorded(),
    {
        self.recorded
    }
}

/// Where a sight leads.
pub open spec fn next_sight(stage: LookStage) -> Option<LookStage> {
    match stage {
        LookStage::Start => Some(LookStage::Named),
        LookStage::AttributesRead => Some(LookStage::DescriptorSeen),
        LookStage::AttributesReadAgain => Some(LookStage::DescriptorSeenAgain),
        LookStage::DescriptorSeenAgain => Some(LookStage::Finished),
        _ => None,
    }
}

/// A sight shows a recorded file exactly where everything that was recorded of it
/// is still seen, it belongs to whom the process acts for, and it lies on the
/// mount and the file system of the tree.
pub proof fn law_last_sights_show_what_was_recorded(
    seen: Result<Inspection, HeldTreeError>,
    recorded: RegularFileObservation,
    path: Seq<u8>,
    effective_uid: u32,
    context: TreeContext,
)
    ensures
        sight_fault(seen, recorded, path, effective_uid, context) is None <==> (seen matches Ok(
            found,
        ) && {
            &&& found.uid == effective_uid
            &&& found.backend == context.backend
            &&& found.mount_id == context.mount_id
            &&& found.content_fields_available
            &&& found.identity.kind == NodeKind::Regular
            &&& found.identity == recorded.identity
            &&& found.uid == recorded.uid
            &&& found.gid == recorded.gid
            &&& found.mode == recorded.mode
            &&& found.size == recorded.size
            &&& found.nlink == recorded.nlink
            &&& found.mtime_sec == recorded.mtime_sec
            &&& found.mtime_nsec == recorded.mtime_nsec
            &&& found.ctime_sec == recorded.ctime_sec
            &&& found.ctime_nsec == recorded.ctime_nsec
        }),
{
}

/// The attributes of a file are those that were recorded, or the file is refused.
pub proof fn law_last_attributes_are_the_recorded_ones(
    xattrs: Result<RegularXattrProof, HeldTreeError>,
    recorded: RegularFileObservation,
    path: Seq<u8>,
)
    ensures
        attributes_fault(xattrs, recorded, path) is None <==> xattrs == Ok::<
            RegularXattrProof,
            HeldTreeError,
        >(recorded.xattrs),
{
}

} // verus!
