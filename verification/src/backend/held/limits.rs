//! The bounds of a tree request and the budget that a walk spends.

use crate::backend::held::error::refused_for;
use crate::backend::held::error::HeldTreeError;
use crate::backend::held::error::HeldTreeLimit;
use crate::backend::held::error::TreeFault;
use crate::backend::held::model::ManifestEntry;
use crate::backend::held::model::NodeIdentity;
use vstd::prelude::*;

verus! {

/// How many permission operations recovery may keep active at once.
pub const HARD_DIRECTORY_CAP: u64 = 1024;

/// One operation is reserved for the source-parent seal, so a tree request may
/// ask for one directory less, root included.
pub const MAX_TREE_DIRECTORIES: u64 = 1023;

/// The schema that commits to names and metadata alone.
pub const NAMES_ONLY_VERSION: u16 = 1;

/// The schema that added content digests.
pub const LEGACY_CONTENT_PROOF_VERSION: u16 = 2;

/// The schema that added ordinary extended attributes.
pub const CONTENT_PROOF_VERSION: u16 = 3;

/// The bounds of one tree request.
#[derive(Clone, Copy, Debug, PartialEq, Eq, Structural)]
pub struct HeldTreeLimits {
    pub max_entries: u64,
    pub max_directories: u64,
    pub max_depth: u32,
    pub max_path_bytes: u64,
    pub max_manifest_bytes: u64,
    /// Bound on regular-file and symlink content; `None` is unbounded.
    pub max_content_bytes: Option<u64>,
    /// Bound on the ordinary attribute values read in one pass.
    pub max_xattr_bytes: u64,
}

/// The production bounds.
pub open spec fn default_limits() -> HeldTreeLimits {
    HeldTreeLimits {
        max_entries: 100_000,
        max_directories: MAX_TREE_DIRECTORIES,
        max_depth: 128,
        max_path_bytes: 16_777_216,
        max_manifest_bytes: 67_108_864,
        max_content_bytes: None,
        max_xattr_bytes: 1_073_741_824,
    }
}

impl Default for HeldTreeLimits {
    fn default() -> (limits: Self)
        ensures
            limits == default_limits(),
    {
        HeldTreeLimits {
            max_entries: 100_000,
            max_directories: MAX_TREE_DIRECTORIES,
            max_depth: 128,
            max_path_bytes: 16_777_216,
            max_manifest_bytes: 67_108_864,
            max_content_bytes: None,
            max_xattr_bytes: 1_073_741_824,
        }
    }
}

/// The shape of a manifest entry before content proofs. Only its size counts:
/// it is what one entry of the first schema costs.
pub struct LegacyManifestEntryAccounting {
    pub path: Vec<u8>,
    pub identity: NodeIdentity,
    pub uid: u32,
    pub gid: u32,
    pub mode: u32,
}

/// What one manifest entry costs under a schema, besides its path.
pub open spec fn entry_cost(manifest_schema: u16) -> nat {
    if manifest_schema == NAMES_ONLY_VERSION {
        vstd::layout::size_of::<LegacyManifestEntryAccounting>()
    } else {
        vstd::layout::size_of::<ManifestEntry>()
    }
}

/// `left + right`, or the largest value where that does not fit.
pub open spec fn saturating(left: int, right: int) -> int {
    if left + right > u64::MAX {
        u64::MAX as int
    } else {
        left + right
    }
}

/// The limit that `value` breaks, if it does.
pub open spec fn over(value: int, limit: u64, kind: HeldTreeLimit) -> Option<TreeFault> {
    if value <= limit {
        None
    } else {
        Some(TreeFault::Limit { kind, limit })
    }
}

/// The first of two faults.
pub open spec fn first_fault(first: Option<TreeFault>, second: Option<TreeFault>) -> Option<
    TreeFault,
> {
    if first is Some {
        first
    } else {
        second
    }
}

/// Passes exactly where `value` is within `limit`.
pub fn check(value: u64, limit: u64, kind: HeldTreeLimit) -> (outcome: Result<(), HeldTreeError>)
    ensures
        refused_for(outcome, over(value as int, limit, kind)),
{
    if value <= limit {
        Ok(())
    } else {
        Err(HeldTreeError::Limit { kind, limit })
    }
}

/// Adds content bytes; an unrepresentable sum breaks the content limit.
pub fn checked_content_add(current: u64, bytes: u64) -> (outcome: Result<u64, HeldTreeError>)
    ensures
        refused_for(outcome, over(current + bytes, u64::MAX, HeldTreeLimit::ContentBytes)),
        outcome matches Ok(sum) ==> sum == current + bytes,
{
    match current.checked_add(bytes) {
        Some(sum) => Ok(sum),
        None => Err(HeldTreeError::Limit { kind: HeldTreeLimit::ContentBytes, limit: u64::MAX }),
    }
}

/// What remains of the attribute budget while one file is read.
#[derive(Clone, Copy, Debug, PartialEq, Eq, Structural)]
pub struct XattrReadBudget {
    pub remaining_bytes: u64,
    pub content_limit: u64,
}

impl XattrReadBudget {
    /// A budget of `remaining_bytes`, reported against `content_limit`.
    pub fn new(remaining_bytes: u64, content_limit: u64) -> (budget: Self)
        ensures
            budget.remaining_bytes == remaining_bytes,
            budget.content_limit == content_limit,
    {
        XattrReadBudget { remaining_bytes, content_limit }
    }

    /// Spends `bytes`, or refuses and spends nothing.
    pub fn charge(&mut self, bytes: u64) -> (outcome: Result<(), HeldTreeError>)
        ensures
            final(self).content_limit == old(self).content_limit,
            bytes <= old(self).remaining_bytes ==> {
                &&& outcome is Ok
                &&& final(self).remaining_bytes == old(self).remaining_bytes - bytes
            },
            bytes > old(self).remaining_bytes ==> {
                &&& refused_for(
                    outcome,
                    Some(
                        TreeFault::Limit {
                            kind: HeldTreeLimit::ContentBytes,
                            limit: old(self).content_limit,
                        },
                    ),
                )
                &&& *final(self) == *old(self)
            },
    {
        match self.remaining_bytes.checked_sub(bytes) {
            Some(rest) => {
                self.remaining_bytes = rest;
                Ok(())
            },
            None => Err(
                HeldTreeError::Limit {
                    kind: HeldTreeLimit::ContentBytes,
                    limit: self.content_limit,
                },
            ),
        }
    }
}

/// What a walk has spent so far.
#[derive(Clone, Copy, Debug, PartialEq, Eq, Structural)]
pub struct Budget {
    pub limits: HeldTreeLimits,
    pub manifest_entry_bytes: u64,
    pub entries: u64,
    pub directories: u64,
    pub path_bytes: u64,
    pub manifest_bytes: u64,
    /// Regular-file and symlink bytes plus ordinary attribute value bytes.
    pub content_bytes: u64,
    /// Regular-file and symlink bytes only.
    pub payload_bytes: u64,
    /// Ordinary attribute value bytes only.
    pub xattr_bytes: u64,
}

/// The budget after one more entry.
pub open spec fn with_path(budget: Budget, path_len: nat) -> Budget {
    Budget {
        entries: saturating(budget.entries as int, 1) as u64,
        path_bytes: saturating(budget.path_bytes as int, path_len as int) as u64,
        manifest_bytes: saturating(
            saturating(budget.manifest_bytes as int, budget.manifest_entry_bytes as int),
            path_len as int,
        ) as u64,
        ..budget
    }
}

/// What one more entry at `depth` breaks, in the order in which it is checked.
pub open spec fn path_fault(budget: Budget, path_len: nat, depth: u32) -> Option<TreeFault> {
    let after = with_path(budget, path_len);
    first_fault(
        over(after.entries as int, budget.limits.max_entries, HeldTreeLimit::Entries),
        first_fault(
            over(depth as int, budget.limits.max_depth as u64, HeldTreeLimit::Depth),
            first_fault(
                over(after.path_bytes as int, budget.limits.max_path_bytes, HeldTreeLimit::PathBytes),
                over(
                    after.manifest_bytes as int,
                    budget.limits.max_manifest_bytes,
                    HeldTreeLimit::ManifestBytes,
                ),
            ),
        ),
    )
}

/// The budget after one more directory.
pub open spec fn with_directory(budget: Budget) -> Budget {
    Budget { directories: saturating(budget.directories as int, 1) as u64, ..budget }
}

/// Whether one more directory is too many.
pub open spec fn directory_fault(budget: Budget) -> Option<TreeFault> {
    over(
        with_directory(budget).directories as int,
        budget.limits.max_directories,
        HeldTreeLimit::Directories,
    )
}

/// The budget after `bytes` more content bytes, where their sums fit.
pub open spec fn with_content(budget: Budget, bytes: u64) -> Budget {
    Budget {
        content_bytes: (budget.content_bytes + bytes) as u64,
        payload_bytes: (budget.payload_bytes + bytes) as u64,
        ..budget
    }
}

/// What has been counted once content bytes were accepted or refused: each sum
/// that they fit into, one after the other.
pub open spec fn spent_on_content(budget: Budget, bytes: u64) -> Budget {
    if budget.content_bytes + bytes > u64::MAX {
        budget
    } else if budget.payload_bytes + bytes > u64::MAX {
        Budget { content_bytes: (budget.content_bytes + bytes) as u64, ..budget }
    } else {
        with_content(budget, bytes)
    }
}

/// What has been counted once attribute bytes were accepted or refused.
pub open spec fn spent_on_xattrs(budget: Budget, bytes: u64) -> Budget {
    if budget.content_bytes + bytes > u64::MAX {
        budget
    } else if budget.xattr_bytes + bytes > u64::MAX {
        Budget { content_bytes: (budget.content_bytes + bytes) as u64, ..budget }
    } else {
        with_xattrs(budget, bytes)
    }
}

/// Why `bytes` more content bytes are refused.
pub open spec fn content_fault(budget: Budget, bytes: u64) -> Option<TreeFault> {
    first_fault(
        over(budget.content_bytes + bytes, u64::MAX, HeldTreeLimit::ContentBytes),
        first_fault(
            over(budget.payload_bytes + bytes, u64::MAX, HeldTreeLimit::ContentBytes),
            match budget.limits.max_content_bytes {
                Some(limit) => over(
                    budget.payload_bytes + bytes,
                    limit,
                    HeldTreeLimit::ContentBytes,
                ),
                None => None,
            },
        ),
    )
}

/// The budget after `bytes` more attribute bytes, where their sums fit.
pub open spec fn with_xattrs(budget: Budget, bytes: u64) -> Budget {
    Budget {
        content_bytes: (budget.content_bytes + bytes) as u64,
        xattr_bytes: (budget.xattr_bytes + bytes) as u64,
        ..budget
    }
}

/// Why `bytes` more attribute bytes are refused.
pub open spec fn xattr_fault(budget: Budget, bytes: u64) -> Option<TreeFault> {
    first_fault(
        over(budget.content_bytes + bytes, u64::MAX, HeldTreeLimit::ContentBytes),
        first_fault(
            over(budget.xattr_bytes + bytes, u64::MAX, HeldTreeLimit::ContentBytes),
            over(
                budget.xattr_bytes + bytes,
                budget.limits.max_xattr_bytes,
                HeldTreeLimit::ContentBytes,
            ),
        ),
    )
}

/// A budget that has spent nothing.
pub open spec fn fresh_budget(limits: HeldTreeLimits, manifest_schema: u16) -> Budget {
    Budget {
        limits,
        manifest_entry_bytes: entry_cost(manifest_schema) as u64,
        entries: 0,
        directories: 0,
        path_bytes: 0,
        manifest_bytes: 0,
        content_bytes: 0,
        payload_bytes: 0,
        xattr_bytes: 0,
    }
}

impl Budget {
    /// A fresh budget under `limits`.
    pub fn new(limits: HeldTreeLimits, manifest_schema: u16) -> (budget: Self)
        ensures
            budget == fresh_budget(limits, manifest_schema),
            budget.manifest_entry_bytes == entry_cost(manifest_schema),
    {
        let manifest_entry_bytes: u64 = if manifest_schema == NAMES_ONLY_VERSION {
            core::mem::size_of::<LegacyManifestEntryAccounting>() as u64
        } else {
            core::mem::size_of::<ManifestEntry>() as u64
        };
        Budget {
            limits,
            manifest_entry_bytes,
            entries: 0,
            directories: 0,
            path_bytes: 0,
            manifest_bytes: 0,
            content_bytes: 0,
            payload_bytes: 0,
            xattr_bytes: 0,
        }
    }

    /// Counts one entry, then checks the entry, depth, path and manifest bounds
    /// in that order.
    pub fn add_path(&mut self, path: &[u8], depth: u32) -> (outcome: Result<(), HeldTreeError>)
        ensures
            *final(self) == with_path(*old(self), path@.len()),
            refused_for(outcome, path_fault(*old(self), path@.len(), depth)),
    {
        let path_len: u64 = path.len() as u64;
        self.entries = self.entries.saturating_add(1);
        self.path_bytes = self.path_bytes.saturating_add(path_len);
        self.manifest_bytes = self.manifest_bytes.saturating_add(
            self.manifest_entry_bytes,
        ).saturating_add(path_len);
        check(self.entries, self.limits.max_entries, HeldTreeLimit::Entries)?;
        check(depth as u64, self.limits.max_depth as u64, HeldTreeLimit::Depth)?;
        check(self.path_bytes, self.limits.max_path_bytes, HeldTreeLimit::PathBytes)?;
        check(self.manifest_bytes, self.limits.max_manifest_bytes, HeldTreeLimit::ManifestBytes)
    }

    /// How many attribute value bytes may still be read.
    pub fn remaining_xattr_bytes(&self) -> (bytes: u64)
        ensures
            bytes == if self.xattr_bytes <= self.limits.max_xattr_bytes {
                self.limits.max_xattr_bytes - self.xattr_bytes
            } else {
                0
            },
    {
        self.limits.max_xattr_bytes.saturating_sub(self.xattr_bytes)
    }

    /// The attribute budget for the next file.
    pub fn xattr_read_budget(&self) -> (budget: XattrReadBudget)
        ensures
            budget.content_limit == self.limits.max_xattr_bytes,
            budget.remaining_bytes == if self.xattr_bytes <= self.limits.max_xattr_bytes {
                self.limits.max_xattr_bytes - self.xattr_bytes
            } else {
                0
            },
    {
        XattrReadBudget::new(self.remaining_xattr_bytes(), self.limits.max_xattr_bytes)
    }

    /// Counts regular-file or symlink bytes.
    pub fn add_content(&mut self, bytes: u64) -> (outcome: Result<(), HeldTreeError>)
        ensures
            refused_for(outcome, content_fault(*old(self), bytes)),
            outcome is Ok ==> *final(self) == with_content(*old(self), bytes),
            *final(self) == spent_on_content(*old(self), bytes),
    {
        self.content_bytes = checked_content_add(self.content_bytes, bytes)?;
        self.payload_bytes = checked_content_add(self.payload_bytes, bytes)?;
        if let Some(limit) = self.limits.max_content_bytes {
            check(self.payload_bytes, limit, HeldTreeLimit::ContentBytes)?;
        }
        Ok(())
    }

    /// Counts ordinary attribute value bytes.
    pub fn add_xattrs(&mut self, bytes: u64) -> (outcome: Result<(), HeldTreeError>)
        ensures
            refused_for(outcome, xattr_fault(*old(self), bytes)),
            outcome is Ok ==> *final(self) == with_xattrs(*old(self), bytes),
            *final(self) == spent_on_xattrs(*old(self), bytes),
    {
        self.content_bytes = checked_content_add(self.content_bytes, bytes)?;
        self.xattr_bytes = checked_content_add(self.xattr_bytes, bytes)?;
        check(self.xattr_bytes, self.limits.max_xattr_bytes, HeldTreeLimit::ContentBytes)
    }

    /// Counts one directory.
    pub fn add_directory(&mut self) -> (outcome: Result<(), HeldTreeError>)
        ensures
            *final(self) == with_directory(*old(self)),
            refused_for(outcome, directory_fault(*old(self))),
    {
        self.directories = self.directories.saturating_add(1);
        check(self.directories, self.limits.max_directories, HeldTreeLimit::Directories)
    }
}

/// Nothing that was spent exceeds its limit, and the content is what was read of
/// files and links and of attributes.
pub open spec fn is_within_limits(budget: Budget) -> bool {
    &&& budget.entries <= budget.limits.max_entries
    &&& budget.directories <= budget.limits.max_directories
    &&& budget.path_bytes <= budget.limits.max_path_bytes
    &&& budget.manifest_bytes <= budget.limits.max_manifest_bytes
    &&& budget.limits.max_content_bytes matches Some(limit) ==> budget.payload_bytes <= limit
    &&& budget.xattr_bytes <= budget.limits.max_xattr_bytes
    &&& budget.content_bytes == budget.payload_bytes + budget.xattr_bytes
}

/// A budget starts within its limits, and whatever it accepts leaves it there.
pub proof fn law_accepted_spending_stays_within_limits(
    limits: HeldTreeLimits,
    manifest_schema: u16,
    budget: Budget,
    path_len: nat,
    depth: u32,
    bytes: u64,
)
    requires
        is_within_limits(budget),
    ensures
        is_within_limits(fresh_budget(limits, manifest_schema)),
        path_fault(budget, path_len, depth) is None ==> is_within_limits(
            with_path(budget, path_len),
        ) && depth <= budget.limits.max_depth,
        directory_fault(budget) is None ==> is_within_limits(with_directory(budget)),
        content_fault(budget, bytes) is None ==> is_within_limits(with_content(budget, bytes)),
        xattr_fault(budget, bytes) is None ==> is_within_limits(with_xattrs(budget, bytes)),
{
}

/// One more entry is accepted exactly where it keeps every limit: the number of
/// entries, the depth, the bytes of paths and those of the manifest. An entry
/// counts once, with its path, and a manifest entry costs what it costs.
pub proof fn law_entries_are_accepted_up_to_the_limits(
    budget: Budget,
    path_len: nat,
    depth: u32,
    bytes: u64,
)
    requires
        budget.entries < u64::MAX,
        budget.directories < u64::MAX,
        budget.path_bytes + path_len <= u64::MAX,
        budget.manifest_bytes + budget.manifest_entry_bytes + path_len <= u64::MAX,
    ensures
        path_fault(budget, path_len, depth) is None <==> {
            &&& budget.entries + 1 <= budget.limits.max_entries
            &&& depth <= budget.limits.max_depth
            &&& budget.path_bytes + path_len <= budget.limits.max_path_bytes
            &&& budget.manifest_bytes + budget.manifest_entry_bytes + path_len
                <= budget.limits.max_manifest_bytes
        },
        with_path(budget, path_len).entries == budget.entries + 1,
        with_path(budget, path_len).path_bytes == budget.path_bytes + path_len,
        with_path(budget, path_len).manifest_bytes == budget.manifest_bytes
            + budget.manifest_entry_bytes + path_len,
        with_path(budget, path_len).directories == budget.directories,
        with_path(budget, path_len).limits == budget.limits,
        directory_fault(budget) is None <==> budget.directories + 1
            <= budget.limits.max_directories,
        with_directory(budget).directories == budget.directories + 1,
        with_directory(budget).entries == budget.entries,
{
}

/// Content is accepted exactly where its sums can be held and what is read of
/// files and links, or of attributes, keeps its limit.
pub proof fn law_content_is_accepted_up_to_the_limits(budget: Budget, bytes: u64)
    ensures
        content_fault(budget, bytes) is None <==> {
            &&& budget.content_bytes + bytes <= u64::MAX
            &&& budget.payload_bytes + bytes <= u64::MAX
            &&& budget.limits.max_content_bytes matches Some(limit) ==> budget.payload_bytes + bytes
                <= limit
        },
        xattr_fault(budget, bytes) is None <==> {
            &&& budget.content_bytes + bytes <= u64::MAX
            &&& budget.xattr_bytes + bytes <= budget.limits.max_xattr_bytes
        },
        content_fault(budget, bytes) is None ==> with_content(budget, bytes).payload_bytes
            == budget.payload_bytes + bytes && with_content(budget, bytes).xattr_bytes
            == budget.xattr_bytes,
        xattr_fault(budget, bytes) is None ==> with_xattrs(budget, bytes).xattr_bytes
            == budget.xattr_bytes + bytes && with_xattrs(budget, bytes).payload_bytes
            == budget.payload_bytes,
{
}

/// The bounds that hold unless others are asked for leave recovery room for one
/// more mode change than the tree has directories, and bound everything but the
/// content of files.
pub proof fn law_default_bounds_leave_room()
    ensures
        default_limits().max_directories + 1 == 1024,
        default_limits().max_entries == 100_000,
        default_limits().max_depth == 128,
        default_limits().max_path_bytes == 16 * 1024 * 1024,
        default_limits().max_manifest_bytes == 64 * 1024 * 1024,
        default_limits().max_content_bytes is None,
        default_limits().max_xattr_bytes == 1024 * 1024 * 1024,
{
}

} // verus!
