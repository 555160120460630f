//! Sealing the directories of a tree, one by one.
//!
//! The directories are sealed from the last that was found to the root, each
//! under a number of its own. Only a seal that was applied and verified changes
//! what is known of a directory.

use crate::backend::evidence::TransactionId;
use crate::backend::held::directories::DirectoryView;
use crate::backend::held::error::HeldTreeError;
use crate::backend::held::error::tree_error_text;
use crate::backend::held::inventory::HeldTreeInventory;
use crate::backend::held::inventory::InventoryView;
use crate::bytes::to_vec;
use crate::paths::push_path;
use crate::paths::pushed;
use crate::text::lossy_text;
use crate::text::words_at;
use vstd::prelude::*;

verus! {

/// Why the directories of a tree could not be sealed.
#[derive(Debug, PartialEq, Eq)]
pub enum HeldTreeSealError {
    /// The tree is not what it was.
    Tree(HeldTreeError),
    /// There are no more numbers for mutations.
    MutationIdExhausted,
    /// The seal of a directory failed, or its outcome is unknown.
    Mutation { path: Vec<u8>, source: SealFailure },
    /// The seal of a directory was not applied.
    ConfirmedNotApplied(Vec<u8>),
}

/// Why the seal of a directory failed.
#[derive(Debug, PartialEq, Eq)]
pub enum SealFailure {
    /// It was not tried: what was handed to it is not a directory to seal.
    InvalidRequest(&'static str),
    /// What carried it out said so.
    Execution(String),
}

/// Why the seal of a directory failed, in words.
pub open spec fn seal_failure_text(failure: SealFailure) -> Seq<char> {
    match failure {
        SealFailure::InvalidRequest(text) => text@,
        SealFailure::Execution(text) => text@,
    }
}

/// An error in words. `system` is what the operating system says of an error of
/// its own.
pub open spec fn seal_error_text(error: HeldTreeSealError, system: Seq<char>) -> Seq<char> {
    match error {
        HeldTreeSealError::Tree(error) => "held tree seal validation failed: "@ + tree_error_text(
            error@,
            system,
        ),
        HeldTreeSealError::MutationIdExhausted => "tree seal mutation id space is exhausted"@,
        HeldTreeSealError::Mutation { path, source } => "held tree seal failed at "@ + lossy_text(
            path@,
        ) + ": "@ + seal_failure_text(source),
        HeldTreeSealError::ConfirmedNotApplied(path) =>
            "held tree seal was durably confirmed not applied at "@ + lossy_text(path@),
    }
}

impl HeldTreeSealError {
    /// The error in words. `system` is what the operating system says of an
    /// error of its own.
    pub fn describe(&self, system: &str) -> (text: String)
        ensures
            text@ == seal_error_text(*self, system@),
    {
        match self {
            HeldTreeSealError::Tree(error) => {
                let mut text = "held tree seal validation failed: ".to_owned();
                text.append(error.describe(system).as_str());
                text
            },
            HeldTreeSealError::MutationIdExhausted =>
                "tree seal mutation id space is exhausted".to_owned(),
            HeldTreeSealError::Mutation { path, source } => {
                let mut text = words_at("held tree seal failed at ", path);
                text.append(": ");
                match source {
                    SealFailure::InvalidRequest(reason) => text.append(reason),
                    SealFailure::Execution(reason) => text.append(reason.as_str()),
                }
                text
            },
            HeldTreeSealError::ConfirmedNotApplied(path) => words_at(
                "held tree seal was durably confirmed not applied at ",
                path,
            ),
        }
    }
}

/// What became of the seal of one directory.
#[derive(Debug, PartialEq, Eq)]
pub enum SealResult {
    /// It was applied and verified.
    Applied { applied_mode: u32 },
    /// It is certain that it was not applied.
    ConfirmedNotApplied,
    /// It failed, or what became of it is unknown.
    Failed(SealFailure),
}

/// The next directory to seal.
#[derive(Debug)]
pub struct SealStep {
    pub relative_path: Vec<u8>,
    pub incarnation: u64,
    pub mutation_id: u64,
    /// The root is sealed through the descriptor that is held.
    pub is_root: bool,
}

/// What is handed to what seals a directory: the seal goes under a number of the
/// transaction, is bound to the directory by its place, its file system and its
/// incarnation, and only takes rights away.
#[derive(Debug)]
pub struct SealRequest {
    pub transaction: TransactionId,
    pub mutation_id: u64,
    pub path: Vec<u8>,
    pub filesystem_id: String,
    pub incarnation: u64,
    pub acquire_owner_write_search: bool,
}

impl SealStep {
    /// What is handed to what seals the directory.
    pub fn request(&self, transaction: TransactionId, source_root: &[u8], filesystem_id: &str)
        -> (request: SealRequest)
        ensures
            request.transaction == transaction,
            request.mutation_id == self.mutation_id,
            request.path@ == pushed(source_root@, self.relative_path@),
            request.filesystem_id@ == filesystem_id@,
            request.incarnation == self.incarnation,
            !request.acquire_owner_write_search,
    {
        SealRequest {
            transaction,
            mutation_id: self.mutation_id,
            path: push_path(source_root, self.relative_path.as_slice()),
            filesystem_id: filesystem_id.to_owned(),
            incarnation: self.incarnation,
            acquire_owner_write_search: false,
        }
    }
}

/// The sealing of a tree.
#[derive(Debug)]
pub struct TreeSealing {
    inventory: HeldTreeInventory,
    rest: usize,
    mutation_id: u64,
}

/// The directory with another mode.
pub open spec fn with_observed_mode(directory: DirectoryView, mode: u32) -> DirectoryView {
    DirectoryView { observed_mode: mode, ..directory }
}

/// The inventory with another mode of one directory.
pub open spec fn with_sealed_directory(inventory: InventoryView, position: int, mode: u32)
    -> InventoryView {
    InventoryView {
        directories: inventory.directories.update(
            position,
            with_observed_mode(inventory.directories[position], mode),
        ),
        ..inventory
    }
}

impl TreeSealing {
    /// The inventory as it is now.
    pub closed spec fn inventory(&self) -> InventoryView {
        self.inventory@
    }

    /// How many directories are left.
    pub closed spec fn rest(&self) -> nat {
        self.rest as nat
    }

    /// The number of the next mutation.
    pub closed spec fn mutation_id(&self) -> u64 {
        self.mutation_id
    }

    /// There are no more directories left than the tree has.
    pub open spec fn wf(&self) -> bool {
        self.rest() <= self.inventory().directories.len()
    }

    /// Starts with all directories.
    pub fn begin(inventory: HeldTreeInventory, first_mutation_id: u64) -> (sealing: Self)
        ensures
            sealing.wf(),
            sealing.inventory() == inventory@,
            sealing.rest() == inventory@.directories.len(),
            sealing.mutation_id() == first_mutation_id,
    {
        let rest: usize = inventory.directories().len();
        TreeSealing { inventory, rest, mutation_id: first_mutation_id }
    }

    /// The inventory as it is now.
    pub fn inventory_now(&self) -> (inventory: &HeldTreeInventory)
        ensures
            inventory@ == self.inventory(),
    {
        &self.inventory
    }

    /// The next directory: the last of those that are left.
    pub fn next_step(&self) -> (step: Option<SealStep>)
        requires
            self.wf(),
        ensures
            match step {
                Some(next) => {
                    let directory = self.inventory().directories[self.rest() - 1];
                    &&& self.rest() > 0
                    &&& next.relative_path@ == directory.path
                    &&& next.incarnation == directory.identity.incarnation
                    &&& next.mutation_id == self.mutation_id()
                    &&& next.is_root == (self.rest() == 1)
                },
                None => self.rest() == 0,
            },
    {
        if self.rest == 0 {
            return None;
        }
        let directories = self.inventory.directories();
        let position: usize = self.rest - 1;
        let directory = &directories[position];
        assert(directory@ == self.inventory@.directories[position as int]);
        Some(
            SealStep {
                relative_path: to_vec(directory.relative_path.as_slice()),
                incarnation: directory.identity.incarnation,
                mutation_id: self.mutation_id,
                is_root: position == 0,
            },
        )
    }

    /// Takes what became of the seal of the next directory.
    pub fn record(&mut self, result: SealResult) -> (outcome: Result<(), HeldTreeSealError>)
        requires
            old(self).wf(),
            old(self).rest() > 0,
        ensures
            final(self).wf(),
            match result {
                SealResult::Applied { applied_mode } => {
                    &&& final(self).inventory() == with_sealed_directory(
                        old(self).inventory(),
                        old(self).rest() - 1,
                        applied_mode,
                    )
                    &&& final(self).rest() == old(self).rest() - 1
                    &&& match outcome {
                        Ok(_) => final(self).mutation_id() == old(self).mutation_id() + 1,
                        Err(error) => error is MutationIdExhausted && old(self).mutation_id()
                            == u64::MAX && final(self).mutation_id() == u64::MAX,
                    }
                },
                SealResult::ConfirmedNotApplied => {
                    &&& *final(self) == *old(self)
                    &&& outcome matches Err(HeldTreeSealError::ConfirmedNotApplied(path)) && path@
                        == old(self).inventory().directories[old(self).rest() - 1].path
                },
                SealResult::Failed(failure) => {
                    &&& *final(self) == *old(self)
                    &&& outcome matches Err(HeldTreeSealError::Mutation { path, source }) && path@
                        == old(self).inventory().directories[old(self).rest() - 1].path && source
                        == failure
                },
            },
    {
        let position: usize = self.rest - 1;
        match result {
            SealResult::Applied { applied_mode } => {
                self.inventory.set_observed_mode(position, applied_mode);
                self.rest = position;
                match self.mutation_id.checked_add(1) {
                    Some(next) => {
                        self.mutation_id = next;
                        Ok(())
                    },
                    None => Err(HeldTreeSealError::MutationIdExhausted),
                }
            },
            SealResult::ConfirmedNotApplied => Err(
                HeldTreeSealError::ConfirmedNotApplied(self.path_at(position)),
            ),
            SealResult::Failed(source) => Err(
                HeldTreeSealError::Mutation { path: self.path_at(position), source },
            ),
        }
    }

    fn path_at(&self, position: usize) -> (path: Vec<u8>)
        requires
            position < self.inventory().directories.len(),
        ensures
            path@ == self.inventory().directories[position as int].path,
    {
        let directories = self.inventory.directories();
        assert(directories@[position as int]@ == self.inventory@.directories[position as int]);
        to_vec(directories[position].relative_path.as_slice())
    }

    /// The inventory with every directory sealed, and the next number.
    pub fn finish(self) -> (parts: (HeldTreeInventory, u64))
        requires
            self.rest() == 0,
        ensures
            parts.0@ == self.inventory(),
            parts.1 == self.mutation_id(),
    {
        (self.inventory, self.mutation_id)
    }
}

/// Sealing a directory changes its mode in the inventory and nothing else, of it or
/// of any other.
pub proof fn law_sealing_changes_one_mode(inventory: InventoryView, position: int, mode: u32, i: int)
    requires
        0 <= position < inventory.directories.len(),
        0 <= i < inventory.directories.len(),
    ensures
        ({
            let after = with_sealed_directory(inventory, position, mode);
            let (was, is_now) = (inventory.directories[i], after.directories[i]);
            &&& after.manifest == inventory.manifest
            &&& after.context == inventory.context
            &&& after.directories.len() == inventory.directories.len()
            &&& i != position ==> is_now == was
            &&& is_now.path == was.path
            &&& is_now.depth == was.depth
            &&& is_now.identity == was.identity
            &&& is_now.owner_uid == was.owner_uid
            &&& is_now.group_gid == was.group_gid
            &&& i == position ==> is_now.observed_mode == mode
        }),
{
}

} // verus!
