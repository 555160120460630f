//! What the content of an entry is proved to be.
//!
//! A proof counts only if nothing that can be seen of the entry changed while it
//! was read.

use crate::admission::EntryKind;
use crate::admission::Evidence;
use crate::admission::XattrPlatform;
use crate::backend::held::error::refused_for;
use crate::backend::held::error::HeldTreeError;
use crate::backend::held::error::TreeFault;
use crate::backend::held::inspect::Inspection;
use crate::backend::held::limits::XattrReadBudget;
use crate::backend::held::limits::content_fault;
use crate::backend::held::limits::first_fault;
use crate::backend::held::limits::with_content;
use crate::backend::held::limits::with_xattrs;
use crate::backend::held::limits::xattr_fault;
use crate::backend::held::limits::Budget;
use crate::backend::held::limits::CONTENT_PROOF_VERSION;
use crate::backend::held::limits::LEGACY_CONTENT_PROOF_VERSION;
use crate::backend::held::limits::NAMES_ONLY_VERSION;
use crate::backend::held::model::ContentProof;
use crate::backend::held::model::ContentView;
use crate::backend::held::model::NodeKind;
use crate::backend::held::model::RegularXattrProof;
use crate::backend::held::xattr::CollectedXattrs;
use crate::backend::held::xattr::assess_symlink_xattrs;
use crate::backend::held::xattr::metadata_refusal;
use crate::bytes::bytes_equal;
use crate::bytes::to_vec;
use crate::digest::absorbed;
use crate::digest::sha256_finalize;
use crate::digest::sha256_new;
use crate::digest::sha256_of;
use crate::digest::sha256_update;
use crate::digest::Sha256Stream;
use vstd::prelude::*;

verus! {

/// How the content of an entry is proved.
#[derive(Clone, Copy, Debug, PartialEq, Eq, Structural)]
pub enum ContentRoute {
    /// Not at all: the schema does not cover content.
    Legacy,
    /// By being a directory.
    Directory,
    /// By hashing it.
    Regular,
    /// By reading the target.
    Symlink,
}

/// Why the content of an entry cannot be proved at all.
pub open spec fn route_fault(schema_version: u16, before: Inspection, path: Seq<u8>) -> Option<
    TreeFault,
> {
    if schema_version == NAMES_ONLY_VERSION {
        None
    } else if schema_version != LEGACY_CONTENT_PROOF_VERSION && schema_version
        != CONTENT_PROOF_VERSION {
        Some(TreeFault::UnsupportedContentProof(path))
    } else if !before.content_fields_available {
        if before.identity.kind == NodeKind::Regular {
            Some(TreeFault::ContentChangedDuringHash(path))
        } else {
            Some(TreeFault::UnsupportedContentProof(path))
        }
    } else if before.identity.kind == NodeKind::Other {
        Some(TreeFault::UnsupportedContentProof(path))
    } else {
        None
    }
}

/// How the content of an entry is proved, where it can be.
pub open spec fn route(schema_version: u16, before: Inspection) -> ContentRoute {
    if schema_version == NAMES_ONLY_VERSION {
        ContentRoute::Legacy
    } else {
        match before.identity.kind {
            NodeKind::Directory => ContentRoute::Directory,
            NodeKind::Regular => ContentRoute::Regular,
            _ => ContentRoute::Symlink,
        }
    }
}

/// What was found out about the content of an entry.
#[derive(Debug)]
pub enum FoundContent {
    /// Its proof.
    Proved(ContentProof),
    /// The attributes of a regular file, and nothing for anything else.
    Assessed(Option<RegularXattrProof>),
}

/// How many bytes of content an entry counts for: those of a file, or of the
/// target of a link.
pub open spec fn found_payload(seen: Inspection, found: FoundContent, target_len: u64) -> u64 {
    match found {
        FoundContent::Proved(proof) => match proof@ {
            ContentView::Regular { size, .. } => size,
            ContentView::Symlink { target } => target.len() as u64,
            _ => 0,
        },
        FoundContent::Assessed(Some(_)) => seen.size,
        FoundContent::Assessed(None) => target_len,
    }
}

/// How many bytes of attribute values an entry counts for.
pub open spec fn found_xattr_bytes(found: FoundContent) -> u64 {
    match found {
        FoundContent::Proved(proof) => match proof@ {
            ContentView::Regular { xattrs, .. } => xattrs.value_bytes,
            _ => 0,
        },
        FoundContent::Assessed(Some(xattrs)) => xattrs.value_bytes,
        FoundContent::Assessed(None) => 0,
    }
}

/// What has been spent once the content of an entry was found out.
pub open spec fn spent_on_found(
    budget: Budget,
    seen: Inspection,
    found: FoundContent,
    target_len: u64,
) -> Budget {
    with_xattrs(
        with_content(budget, found_payload(seen, found, target_len)),
        found_xattr_bytes(found),
    )
}

/// What was found out about the content of an entry as it was seen, with what
/// was spent on it. It comes only out of the steps that read the content and
/// count it.
#[derive(Debug)]
pub struct ContentFinding {
    path: Vec<u8>,
    seen: Inspection,
    found: FoundContent,
    target_len: u64,
    start: Budget,
    budget: Budget,
}

impl ContentFinding {
    #[verifier::type_invariant]
    spec fn is_counted(self) -> bool {
        self.budget == spent_on_found(self.start, self.seen, self.found, self.target_len)
    }

    /// Where the entry lies.
    pub closed spec fn path(&self) -> Seq<u8> {
        self.path@
    }

    /// What was seen of it before its content was looked at.
    pub closed spec fn seen(&self) -> Inspection {
        self.seen
    }

    /// What was found out.
    pub closed spec fn found(&self) -> FoundContent {
        self.found
    }

    /// How long the target of a link is that was only assessed.
    pub closed spec fn target_len(&self) -> u64 {
        self.target_len
    }

    /// What had been spent before.
    pub closed spec fn start(&self) -> Budget {
        self.start
    }

    /// What has been spent with it.
    pub open spec fn spent(&self) -> Budget {
        spent_on_found(self.start(), self.seen(), self.found(), self.target_len())
    }

    /// It is about that entry, and was counted on top of that budget.
    pub open spec fn is_on(&self, path: Seq<u8>, seen: Inspection, budget: Budget) -> bool {
        self.path() == path && self.seen() == seen && self.start() == budget
    }

    /// What was found out, and what has been spent with it.
    pub fn into_parts(self) -> (parts: (FoundContent, Budget))
        ensures
            parts.0 == self.found(),
            parts.1 == self.spent(),
    {
        proof {
            use_type_invariant(&self);
        }
        (self.found, self.budget)
    }

    /// The proof, and what has been spent with it.
    pub fn into_proof(self) -> (parts: (ContentProof, Budget))
        requires
            self.found() is Proved,
        ensures
            parts.0 == self.found()->Proved_0,
            parts.1 == self.spent(),
    {
        match self.into_parts() {
            (FoundContent::Proved(proof), budget) => (proof, budget),
            (FoundContent::Assessed(_), budget) => (ContentProof::Legacy, budget),
        }
    }

    /// A finding that costs nothing.
    fn free(path: &[u8], seen: &Inspection, found: FoundContent, budget: Budget) -> (finding: Self)
        requires
            found matches FoundContent::Proved(proof) ==> proof@ is Legacy || proof@ is Directory,
            found matches FoundContent::Assessed(xattrs) ==> xattrs is None,
        ensures
            finding.is_on(path@, *seen, budget),
            finding.found() == found,
            finding.target_len() == 0,
    {
        ContentFinding { path: to_vec(path), seen: *seen, found, target_len: 0, start: budget, budget }
    }
}

/// What was proved of a link, where it was read.
pub open spec fn link_content(link: Option<ContentFinding>) -> Option<ContentView> {
    match link {
        Some(finding) => Some(finding.found()->Proved_0@),
        None => None,
    }
}

/// What has been spent once a link was read, or was not.
pub open spec fn spent_on_link(budget: Budget, link: Option<ContentFinding>) -> Budget {
    match link {
        Some(finding) => finding.spent(),
        None => budget,
    }
}

/// How the content of an entry is found out.
#[derive(Debug)]
pub enum ContentStart {
    /// There is nothing to read.
    Settled(ContentFinding),
    /// The file has to be opened.
    Regular(RegularOpening),
    /// The link has to be read.
    Symlink(LinkReading),
}

/// The start is the one for the way.
pub open spec fn is_start(
    start: ContentStart,
    way: ContentRoute,
    path: Seq<u8>,
    seen: Inspection,
    budget: Budget,
    assess: bool,
) -> bool {
    match start {
        ContentStart::Settled(finding) => {
            &&& way == ContentRoute::Legacy || way == ContentRoute::Directory
            &&& finding.is_on(path, seen, budget)
            &&& finding.target_len() == 0
            &&& match finding.found() {
                FoundContent::Proved(proof) => !assess && proof@ == if way
                    == ContentRoute::Legacy {
                    ContentView::Legacy
                } else {
                    ContentView::Directory
                },
                FoundContent::Assessed(xattrs) => assess && xattrs is None,
            }
        },
        ContentStart::Regular(opening) => way == ContentRoute::Regular && opening@ == (
        OpeningView { path, seen, assess, start: budget }),
        ContentStart::Symlink(reading) => way == ContentRoute::Symlink && reading@ == begun_reading(
            path,
            seen,
            assess,
            budget,
        ),
    }
}

/// Why the content of an entry is not looked at: there is no way to, or it is
/// too much. A file is counted before it is opened.
pub open spec fn start_fault(schema_version: u16, seen: Inspection, path: Seq<u8>, budget: Budget)
    -> Option<TreeFault> {
    first_fault(
        route_fault(schema_version, seen, path),
        if route(schema_version, seen) == ContentRoute::Regular {
            content_fault(budget, seen.size)
        } else {
            None
        },
    )
}

fn start_content(budget: Budget, seen: &Inspection, path: &[u8], assess: bool) -> (start: Result<
    ContentStart,
    HeldTreeError,
>)
    ensures
        refused_for(start, start_fault(CONTENT_PROOF_VERSION, *seen, path@, budget)),
        start matches Ok(started) ==> is_start(
            started,
            route(CONTENT_PROOF_VERSION, *seen),
            path@,
            *seen,
            budget,
            assess,
        ),
{
    if !seen.content_fields_available {
        return Err(
            if seen.identity.kind == NodeKind::Regular {
                HeldTreeError::ContentChangedDuringHash(to_vec(path))
            } else {
                HeldTreeError::UnsupportedContentProof(to_vec(path))
            },
        );
    }
    match seen.identity.kind {
        NodeKind::Directory => {
            let found = if assess {
                FoundContent::Assessed(None)
            } else {
                FoundContent::Proved(ContentProof::Directory)
            };
            Ok(ContentStart::Settled(ContentFinding::free(path, seen, found, budget)))
        },
        NodeKind::Regular => {
            let mut charged = budget;
            charged.add_content(seen.size)?;
            Ok(
                ContentStart::Regular(
                    RegularOpening {
                        path: to_vec(path),
                        seen: *seen,
                        assess,
                        start: budget,
                        budget: charged,
                    },
                ),
            )
        },
        NodeKind::Symlink => Ok(
            ContentStart::Symlink(LinkReading::begin(budget, seen, path, assess)),
        ),
        NodeKind::Other => Err(HeldTreeError::UnsupportedContentProof(to_vec(path))),
    }
}

/// Starts to prove the content of an entry as the schema asks for it.
pub fn inspect_content_for_schema(
    schema_version: u16,
    budget: Budget,
    seen: &Inspection,
    path: &[u8],
) -> (start: Result<ContentStart, HeldTreeError>)
    ensures
        refused_for(start, start_fault(schema_version, *seen, path@, budget)),
        start matches Ok(started) ==> is_start(
            started,
            route(schema_version, *seen),
            path@,
            *seen,
            budget,
            false,
        ),
{
    if schema_version == NAMES_ONLY_VERSION {
        let found = FoundContent::Proved(ContentProof::Legacy);
        return Ok(ContentStart::Settled(ContentFinding::free(path, seen, found, budget)));
    }
    if schema_version != LEGACY_CONTENT_PROOF_VERSION && schema_version != CONTENT_PROOF_VERSION {
        return Err(HeldTreeError::UnsupportedContentProof(to_vec(path)));
    }
    start_content(budget, seen, path, false)
}

/// Starts to prove the content of an entry, whatever the schema.
pub fn inspect_content_at(budget: Budget, seen: &Inspection, path: &[u8]) -> (start: Result<
    ContentStart,
    HeldTreeError,
>)
    ensures
        refused_for(start, start_fault(CONTENT_PROOF_VERSION, *seen, path@, budget)),
        start matches Ok(started) ==> is_start(
            started,
            route(CONTENT_PROOF_VERSION, *seen),
            path@,
            *seen,
            budget,
            false,
        ),
{
    start_content(budget, seen, path, false)
}

/// Starts to look an entry over without reading its content.
pub fn inspect_content_admission(budget: Budget, seen: &Inspection, path: &[u8]) -> (start: Result<
    ContentStart,
    HeldTreeError,
>)
    ensures
        refused_for(start, start_fault(CONTENT_PROOF_VERSION, *seen, path@, budget)),
        start matches Ok(started) ==> is_start(
            started,
            route(CONTENT_PROOF_VERSION, *seen),
            path@,
            *seen,
            budget,
            true,
        ),
{
    start_content(budget, seen, path, true)
}

/// How the attributes of a regular file are collected.
#[derive(Clone, Copy, Debug, PartialEq, Eq, Structural)]
pub enum AttributeRoute {
    /// They are admitted and no more is kept of them.
    Admission,
    /// Their values are read.
    Values,
    /// The lengths of their values are asked for.
    Sizes,
}

/// Chooses how the attributes of a regular file are collected. A walk that only
/// assesses reads no values, whatever the schema.
pub fn attribute_route(schema_version: u16, assess: bool, path: &[u8]) -> (way: Result<
    AttributeRoute,
    HeldTreeError,
>)
    ensures
        refused_for(
            way,
            if !assess && schema_version != LEGACY_CONTENT_PROOF_VERSION && schema_version
                != CONTENT_PROOF_VERSION {
                Some(TreeFault::UnsupportedContentProof(path@))
            } else {
                None
            },
        ),
        way matches Ok(chosen) ==> chosen == if assess {
            AttributeRoute::Sizes
        } else if schema_version == LEGACY_CONTENT_PROOF_VERSION {
            AttributeRoute::Admission
        } else {
            AttributeRoute::Values
        },
{
    if assess {
        Ok(AttributeRoute::Sizes)
    } else if schema_version == LEGACY_CONTENT_PROOF_VERSION {
        Ok(AttributeRoute::Admission)
    } else if schema_version == CONTENT_PROOF_VERSION {
        Ok(AttributeRoute::Values)
    } else {
        Err(HeldTreeError::UnsupportedContentProof(to_vec(path)))
    }
}

/// The opened file is not the one that was seen.
pub open spec fn opened_fault(before: Inspection, opened: Inspection, path: Seq<u8>) -> Option<
    TreeFault,
> {
    if before == opened && opened.identity.kind == NodeKind::Regular {
        None
    } else {
        Some(TreeFault::ContentChangedDuringHash(path))
    }
}

/// Why a file whose content was not read does not count as stable.
pub open spec fn assessment_fault(
    opened: Inspection,
    xattrs: RegularXattrProof,
    final_xattrs: RegularXattrProof,
    final_inspection: Inspection,
    path: Seq<u8>,
) -> Option<TreeFault> {
    if xattrs != final_xattrs {
        Some(TreeFault::XattrsChangedDuringProof(path))
    } else if opened != final_inspection {
        Some(TreeFault::ContentChangedDuringHash(path))
    } else {
        None
    }
}

/// A regular file that was counted and is about to be opened.
#[derive(Debug)]
pub struct RegularOpening {
    path: Vec<u8>,
    seen: Inspection,
    assess: bool,
    start: Budget,
    budget: Budget,
}

/// The content of a [`RegularOpening`].
#[verifier::ext_equal]
pub struct OpeningView {
    pub path: Seq<u8>,
    pub seen: Inspection,
    /// Whether the content is not read.
    pub assess: bool,
    /// What had been spent before.
    pub start: Budget,
}

impl View for RegularOpening {
    type V = OpeningView;

    closed spec fn view(&self) -> OpeningView {
        OpeningView { path: self.path@, seen: self.seen, assess: self.assess, start: self.start }
    }
}

impl RegularOpening {
    #[verifier::type_invariant]
    spec fn is_counted(self) -> bool {
        self.budget == with_content(self.start, self.seen.size)
    }

    /// What may be read of the attributes of the opened file.
    pub fn xattr_budget(&self) -> (budget: XattrReadBudget)
        ensures
            budget.content_limit == self@.start.limits.max_xattr_bytes,
            budget.remaining_bytes == if self@.start.xattr_bytes
                <= self@.start.limits.max_xattr_bytes {
                self@.start.limits.max_xattr_bytes - self@.start.xattr_bytes
            } else {
                0
            },
    {
        proof {
            use_type_invariant(self);
        }
        self.budget.xattr_read_budget()
    }

    /// Goes on with the opened file, if it is the one that was seen. Its
    /// attributes are counted first.
    pub fn open(self, xattrs: RegularXattrProof, opened: &Inspection) -> (proving: Result<
        RegularProving,
        HeldTreeError,
    >)
        ensures
            refused_for(
                proving,
                first_fault(
                    xattr_fault(
                        with_content(self@.start, self@.seen.size),
                        xattrs.value_bytes,
                    ),
                    opened_fault(self@.seen, *opened, self@.path),
                ),
            ),
            proving matches Ok(started) ==> started@ == (ProvingView {
                path: self@.path,
                seen: self@.seen,
                assess: self@.assess,
                start: self@.start,
                xattrs,
                content: Seq::empty(),
            }),
    {
        proof {
            use_type_invariant(&self);
        }
        let mut budget = self.budget;
        budget.add_xattrs(xattrs.value_bytes)?;
        if !self.seen.stable_content_fields_equal(opened) || opened.identity.kind
            != NodeKind::Regular {
            return Err(HeldTreeError::ContentChangedDuringHash(self.path));
        }
        Ok(
            RegularProving {
                path: self.path,
                seen: self.seen,
                assess: self.assess,
                start: self.start,
                budget,
                xattrs,
                total: 0,
                digest: sha256_new(),
            },
        )
    }
}

/// A regular file that was opened and is read, unless it is only assessed.
pub struct RegularProving {
    path: Vec<u8>,
    seen: Inspection,
    assess: bool,
    start: Budget,
    budget: Budget,
    xattrs: RegularXattrProof,
    total: u64,
    digest: Sha256Stream,
}

/// The content of a [`RegularProving`].
#[verifier::ext_equal]
pub struct ProvingView {
    pub path: Seq<u8>,
    /// The file as it was seen before it was read.
    pub seen: Inspection,
    pub assess: bool,
    pub start: Budget,
    /// Its attributes.
    pub xattrs: RegularXattrProof,
    /// What has been read of it.
    pub content: Seq<u8>,
}

impl View for RegularProving {
    type V = ProvingView;

    closed spec fn view(&self) -> ProvingView {
        ProvingView {
            path: self.path@,
            seen: self.seen,
            assess: self.assess,
            start: self.start,
            xattrs: self.xattrs,
            content: absorbed(self.digest),
        }
    }
}

impl RegularProving {
    /// No more has been read than the file had, and it was counted.
    #[verifier::type_invariant]
    spec fn is_counted(self) -> bool {
        &&& self.total == absorbed(self.digest).len()
        &&& self.total <= self.seen.size
        &&& self.budget == with_xattrs(
            with_content(self.start, self.seen.size),
            self.xattrs.value_bytes,
        )
    }

    /// What may be read of the attributes when they are collected again.
    pub fn xattr_budget(&self) -> (budget: XattrReadBudget)
        ensures
            budget.remaining_bytes == self@.xattrs.value_bytes,
            budget.content_limit == self@.start.limits.max_xattr_bytes,
    {
        XattrReadBudget::new(self.xattrs.value_bytes, self.start.limits.max_xattr_bytes)
    }

    /// Takes in what was read next. A file that has more than it had is refused.
    pub fn feed(self, chunk: &[u8]) -> (proving: Result<Self, HeldTreeError>)
        ensures
            refused_for(
                proving,
                if self@.content.len() + chunk@.len() > self@.seen.size {
                    Some(TreeFault::ContentChangedDuringHash(self@.path))
                } else {
                    None
                },
            ),
            proving matches Ok(further) ==> further@ == (ProvingView {
                content: self@.content + chunk@,
                ..self@
            }),
    {
        proof {
            use_type_invariant(&self);
        }
        let total: u64 = match self.total.checked_add(chunk.len() as u64) {
            Some(total) => total,
            None => {
                return Err(HeldTreeError::ContentChangedDuringHash(self.path));
            },
        };
        if total > self.seen.size {
            return Err(HeldTreeError::ContentChangedDuringHash(self.path));
        }
        let mut digest = self.digest;
        sha256_update(&mut digest, chunk);
        Ok(
            RegularProving {
                path: self.path,
                seen: self.seen,
                assess: self.assess,
                start: self.start,
                budget: self.budget,
                xattrs: self.xattrs,
                total,
                digest,
            },
        )
    }

    /// The proof of what was read, if the file was stable all the while.
    pub fn finish(
        self,
        after: &Inspection,
        final_xattrs: RegularXattrProof,
        final_inspection: &Inspection,
    ) -> (finding: Result<ContentFinding, HeldTreeError>)
        requires
            !self@.assess,
        ensures
            refused_for(
                finding,
                if self@.xattrs != final_xattrs {
                    Some(TreeFault::XattrsChangedDuringProof(self@.path))
                } else if self@.content.len() != self@.seen.size || self@.seen != *after || *after
                    != *final_inspection {
                    Some(TreeFault::ContentChangedDuringHash(self@.path))
                } else {
                    None
                },
            ),
            finding matches Ok(made) ==> made.is_on(self@.path, self@.seen, self@.start) && (
            made.found() matches FoundContent::Proved(proof) && is_regular_proof(
                proof@,
                self@.seen,
                self@.xattrs,
                self@.content,
            )),
    {
        proof {
            use_type_invariant(&self);
        }
        if !self.xattrs.same(&final_xattrs) {
            return Err(HeldTreeError::XattrsChangedDuringProof(self.path));
        }
        if self.total != self.seen.size || !self.seen.stable_content_fields_equal(after)
            || !after.stable_content_fields_equal(final_inspection) {
            return Err(HeldTreeError::ContentChangedDuringHash(self.path));
        }
        let proof = ContentProof::Regular {
            size: after.size,
            nlink: after.nlink,
            mtime_sec: after.mtime_sec,
            mtime_nsec: after.mtime_nsec,
            ctime_sec: after.ctime_sec,
            ctime_nsec: after.ctime_nsec,
            sha256: sha256_finalize(self.digest),
            xattrs: self.xattrs,
        };
        Ok(
            ContentFinding {
                path: self.path,
                seen: self.seen,
                found: FoundContent::Proved(proof),
                target_len: 0,
                start: self.start,
                budget: self.budget,
            },
        )
    }

    /// The attributes of a file whose content is not read, if it was stable.
    pub fn assess_regular_content(
        self,
        final_xattrs: RegularXattrProof,
        final_inspection: &Inspection,
    ) -> (finding: Result<ContentFinding, HeldTreeError>)
        requires
            self@.assess,
        ensures
            refused_for(
                finding,
                assessment_fault(
                    self@.seen,
                    self@.xattrs,
                    final_xattrs,
                    *final_inspection,
                    self@.path,
                ),
            ),
            finding matches Ok(made) ==> made.is_on(self@.path, self@.seen, self@.start)
                && made.found() == FoundContent::Assessed(Some(self@.xattrs)),
    {
        proof {
            use_type_invariant(&self);
        }
        if !self.xattrs.same(&final_xattrs) {
            return Err(HeldTreeError::XattrsChangedDuringProof(self.path));
        }
        if !self.seen.stable_content_fields_equal(final_inspection) {
            return Err(HeldTreeError::ContentChangedDuringHash(self.path));
        }
        Ok(
            ContentFinding {
                path: self.path,
                seen: self.seen,
                found: FoundContent::Assessed(Some(self.xattrs)),
                target_len: 0,
                start: self.start,
                budget: self.budget,
            },
        )
    }
}

/// The proof of a file with the given content: what was seen of it, its
/// attributes, and the digest of its bytes.
pub open spec fn is_regular_proof(
    proof: ContentView,
    seen: Inspection,
    file_xattrs: RegularXattrProof,
    content: Seq<u8>,
) -> bool {
    proof matches ContentView::Regular {
        size,
        nlink,
        mtime_sec,
        mtime_nsec,
        ctime_sec,
        ctime_nsec,
        sha256,
        xattrs,
    } && {
        &&& size == seen.size
        &&& size == content.len()
        &&& nlink == seen.nlink
        &&& mtime_sec == seen.mtime_sec
        &&& mtime_nsec == seen.mtime_nsec
        &&& ctime_sec == seen.ctime_sec
        &&& ctime_nsec == seen.ctime_nsec
        &&& sha256@ == sha256_of(content)
        &&& xattrs == file_xattrs
    }
}

/// What comes next while a symbolic link is read.
#[derive(Clone, Copy, Debug, PartialEq, Eq, Structural)]
pub enum LinkStage {
    /// Its attributes are admitted.
    Admit,
    /// Its target is read.
    Read,
    /// It is looked at.
    Look,
    /// Its attributes are admitted again.
    AdmitAgain,
    /// Its target is read again.
    ReadAgain,
    /// It is looked at again.
    LookAgain,
    /// Its attributes are admitted a last time.
    AdmitLast,
    /// It is looked at a last time.
    LookLast,
    /// Nothing.
    Done,
}

/// The reading of a symbolic link. Its target is read twice; before, between and
/// after, its attributes are admitted and it is looked at.
#[derive(Debug)]
pub struct LinkReading {
    path: Vec<u8>,
    seen: Inspection,
    assess: bool,
    start: Budget,
    stage: LinkStage,
    target: Vec<u8>,
    middle: Inspection,
    target_again: Vec<u8>,
    after: Inspection,
    last: Inspection,
}

/// The content of a [`LinkReading`].
#[verifier::ext_equal]
pub struct ReadingView {
    pub path: Seq<u8>,
    /// The link as it was seen before it was read.
    pub seen: Inspection,
    /// Whether its target is only counted.
    pub assess: bool,
    pub start: Budget,
    pub stage: LinkStage,
    pub target: Seq<u8>,
    pub middle: Inspection,
    pub target_again: Seq<u8>,
    pub after: Inspection,
    pub last: Inspection,
}

impl View for LinkReading {
    type V = ReadingView;

    closed spec fn view(&self) -> ReadingView {
        ReadingView {
            path: self.path@,
            seen: self.seen,
            assess: self.assess,
            start: self.start,
            stage: self.stage,
            target: self.target@,
            middle: self.middle,
            target_again: self.target_again@,
            after: self.after,
            last: self.last,
        }
    }
}

/// A reading before its first step.
pub open spec fn begun_reading(path: Seq<u8>, seen: Inspection, assess: bool, start: Budget)
    -> ReadingView {
    ReadingView {
        path,
        seen,
        assess,
        start,
        stage: LinkStage::Admit,
        target: Seq::empty(),
        middle: seen,
        target_again: Seq::empty(),
        after: seen,
        last: seen,
    }
}

/// Where an admission leads.
pub open spec fn after_admission(stage: LinkStage) -> Option<LinkStage> {
    match stage {
        LinkStage::Admit => Some(LinkStage::Read),
        LinkStage::AdmitAgain => Some(LinkStage::ReadAgain),
        LinkStage::AdmitLast => Some(LinkStage::LookLast),
        _ => None,
    }
}

/// The reading once a target was read.
pub open spec fn after_reading(reading: ReadingView, target: Seq<u8>) -> ReadingView {
    if reading.stage == LinkStage::Read {
        ReadingView { target, stage: LinkStage::Look, ..reading }
    } else {
        ReadingView { target_again: target, stage: LinkStage::LookAgain, ..reading }
    }
}

/// The reading once the link was looked at.
pub open spec fn after_look(reading: ReadingView, seen: Inspection) -> ReadingView {
    if reading.stage == LinkStage::Look {
        ReadingView { middle: seen, stage: LinkStage::AdmitAgain, ..reading }
    } else if reading.stage == LinkStage::LookAgain {
        ReadingView { after: seen, stage: LinkStage::AdmitLast, ..reading }
    } else {
        ReadingView { last: seen, stage: LinkStage::Done, ..reading }
    }
}

/// The link was not stable.
pub open spec fn symlink_fault(reading: ReadingView) -> Option<TreeFault> {
    if reading.seen == reading.middle && reading.seen == reading.after && reading.after
        == reading.last && reading.target == reading.target_again {
        None
    } else {
        Some(TreeFault::ContentChangedDuringHash(reading.path))
    }
}

impl LinkReading {
    /// Starts to read a symbolic link.
    pub fn begin(budget: Budget, seen: &Inspection, path: &[u8], assess: bool) -> (reading: Self)
        ensures
            reading@ == begun_reading(path@, *seen, assess, budget),
    {
        let reading = LinkReading {
            path: to_vec(path),
            seen: *seen,
            assess,
            start: budget,
            stage: LinkStage::Admit,
            target: Vec::new(),
            middle: *seen,
            target_again: Vec::new(),
            after: *seen,
            last: *seen,
        };
        assert(reading@ =~= begun_reading(path@, *seen, assess, budget));
        reading
    }

    /// What comes next.
    pub fn stage(&self) -> (stage: LinkStage)
        ensures
            stage == self@.stage,
    {
        self.stage
    }

    /// Takes the attributes of the link, or why they could not be asked for.
    pub fn take_attributes(
        &mut self,
        collected: Result<CollectedXattrs, HeldTreeError>,
        platform: XattrPlatform,
    ) -> (outcome: Result<(), HeldTreeError>)
        requires
            after_admission(old(self)@.stage) is Some,
        ensures
            refused_for(
                outcome,
                match collected {
                    Err(error) => Some(error@),
                    Ok(names) => metadata_refusal(
                        names@,
                        EntryKind::Symlink,
                        platform,
                        Evidence::Absent,
                        old(self)@.path,
                    ),
                },
            ),
            final(self)@ == if outcome is Ok {
                ReadingView { stage: after_admission(old(self)@.stage)->0, ..old(self)@ }
            } else {
                old(self)@
            },
    {
        let names = collected?;
        assess_symlink_xattrs(self.path.as_slice(), platform, &names)?;
        self.stage = match self.stage {
            LinkStage::Admit => LinkStage::Read,
            LinkStage::AdmitAgain => LinkStage::ReadAgain,
            _ => LinkStage::LookLast,
        };
        Ok(())
    }

    /// Takes the target that was read.
    pub fn read(&mut self, target: Result<Vec<u8>, HeldTreeError>) -> (outcome: Result<
        (),
        HeldTreeError,
    >)
        requires
            old(self)@.stage == LinkStage::Read || old(self)@.stage == LinkStage::ReadAgain,
        ensures
            match target {
                Ok(read) => outcome is Ok && final(self)@ == after_reading(old(self)@, read@),
                Err(error) => outcome == Err::<(), HeldTreeError>(error) && final(self)@ == old(
                    self,
                )@,
            },
    {
        let target = target?;
        match self.stage {
            LinkStage::Read => {
                self.target = target;
                self.stage = LinkStage::Look;
            },
            _ => {
                self.target_again = target;
                self.stage = LinkStage::LookAgain;
            },
        }
        Ok(())
    }

    /// Takes what is seen of the link.
    pub fn look(&mut self, seen: Result<Inspection, HeldTreeError>) -> (outcome: Result<
        (),
        HeldTreeError,
    >)
        requires
            old(self)@.stage == LinkStage::Look || old(self)@.stage == LinkStage::LookAgain || old(
                self,
            )@.stage == LinkStage::LookLast,
        ensures
            match seen {
                Ok(shown) => outcome is Ok && final(self)@ == after_look(old(self)@, shown),
                Err(error) => outcome == Err::<(), HeldTreeError>(error) && final(self)@ == old(
                    self,
                )@,
            },
    {
        let seen = seen?;
        match self.stage {
            LinkStage::Look => {
                self.middle = seen;
                self.stage = LinkStage::AdmitAgain;
            },
            LinkStage::LookAgain => {
                self.after = seen;
                self.stage = LinkStage::AdmitLast;
            },
            _ => {
                self.last = seen;
                self.stage = LinkStage::Done;
            },
        }
        Ok(())
    }

    /// Requires that the link was stable while it was read.
    fn read_stable_symlink_target(&self) -> (outcome: Result<(), HeldTreeError>)
        ensures
            refused_for(outcome, symlink_fault(self@)),
    {
        if !self.seen.stable_content_fields_equal(&self.middle)
            || !self.seen.stable_content_fields_equal(&self.after)
            || !self.after.stable_content_fields_equal(&self.last) || !bytes_equal(
            self.target.as_slice(),
            self.target_again.as_slice(),
        ) {
            return Err(HeldTreeError::ContentChangedDuringHash(to_vec(self.path.as_slice())));
        }
        Ok(())
    }

    /// The target, which counts as content, if the link was stable all the
    /// while.
    pub fn finish(self) -> (finding: Result<ContentFinding, HeldTreeError>)
        requires
            self@.stage == LinkStage::Done,
        ensures
            refused_for(
                finding,
                first_fault(
                    symlink_fault(self@),
                    content_fault(self@.start, self@.target.len() as u64),
                ),
            ),
            finding matches Ok(made) ==> {
                &&& made.is_on(self@.path, self@.seen, self@.start)
                &&& made.target_len() == self@.target.len()
                &&& match made.found() {
                    FoundContent::Proved(proof) => !self@.assess && proof@ == (
                    ContentView::Symlink { target: self@.target }),
                    FoundContent::Assessed(xattrs) => self@.assess && xattrs is None,
                }
            },
    {
        self.read_stable_symlink_target()?;
        let target_len: u64 = self.target.len() as u64;
        let mut budget = self.start;
        budget.add_content(target_len)?;
        Ok(
            ContentFinding {
                path: self.path,
                seen: self.seen,
                found: if self.assess {
                    FoundContent::Assessed(None)
                } else {
                    FoundContent::Proved(ContentProof::Symlink { target: self.target })
                },
                target_len,
                start: self.start,
                budget,
            },
        )
    }
}

/// Content is proved only under a schema that covers it and of what its fields
/// were seen of: files by their bytes, links by their targets, directories by
/// being one, and of nothing else.
pub proof fn law_content_has_one_way(schema_version: u16, before: Inspection, path: Seq<u8>)
    ensures
        route_fault(schema_version, before, path) is None <==> schema_version == 1 || ((
        schema_version == 2 || schema_version == 3) && before.content_fields_available
            && before.identity.kind != NodeKind::Other),
        schema_version == 1 <==> route(schema_version, before) == ContentRoute::Legacy,
        route_fault(schema_version, before, path) is None && schema_version != 1 ==> (route(
            schema_version,
            before,
        ) == ContentRoute::Regular <==> before.identity.kind == NodeKind::Regular) && (route(
            schema_version,
            before,
        ) == ContentRoute::Symlink <==> before.identity.kind == NodeKind::Symlink) && (route(
            schema_version,
            before,
        ) == ContentRoute::Directory <==> before.identity.kind == NodeKind::Directory),
{
}

/// A file is read only where the descriptor shows exactly what its name showed,
/// and counts only where nothing differs once it was read; a link only where both
/// readings gave the same target and nothing that was seen of it ever differed.
pub proof fn law_content_is_stable(
    before: Inspection,
    opened: Inspection,
    xattrs: RegularXattrProof,
    final_xattrs: RegularXattrProof,
    last: Inspection,
    path: Seq<u8>,
    reading: ReadingView,
)
    ensures
        opened_fault(before, opened, path) is None <==> opened == before && before.identity.kind
            == NodeKind::Regular,
        assessment_fault(opened, xattrs, final_xattrs, last, path) is None <==> xattrs
            == final_xattrs && opened == last,
        symlink_fault(reading) is None <==> reading.target == reading.target_again
            && reading.middle == reading.seen && reading.after == reading.seen && reading.last
            == reading.seen,
{
}

/// A link is admitted, read and looked at, then admitted, read and looked at
/// again, and admitted and looked at a last time: neither reading stands without
/// a look before and after it.
pub proof fn law_links_are_read_between_looks(reading: ReadingView, target: Seq<u8>, seen: Inspection)
    ensures
        after_admission(LinkStage::Admit) == Some(LinkStage::Read),
        after_admission(LinkStage::AdmitAgain) == Some(LinkStage::ReadAgain),
        after_admission(LinkStage::AdmitLast) == Some(LinkStage::LookLast),
        reading.stage == LinkStage::Read ==> after_reading(reading, target).target == target
            && after_reading(reading, target).stage == LinkStage::Look && after_reading(
            reading,
            target,
        ).target_again == reading.target_again,
        reading.stage == LinkStage::ReadAgain ==> after_reading(reading, target).target_again
            == target && after_reading(reading, target).stage == LinkStage::LookAgain
            && after_reading(reading, target).target == reading.target,
        reading.stage == LinkStage::Look ==> after_look(reading, seen).middle == seen
            && after_look(reading, seen).stage == LinkStage::AdmitAgain,
        reading.stage == LinkStage::LookAgain ==> after_look(reading, seen).after == seen
            && after_look(reading, seen).stage == LinkStage::AdmitLast,
        reading.stage == LinkStage::LookLast ==> after_look(reading, seen).last == seen
            && after_look(reading, seen).stage == LinkStage::Done,
        after_look(reading, seen).seen == reading.seen,
        after_reading(reading, target).seen == reading.seen,
{
}

/// What is spent on content is what was found: the bytes of a file and of its
/// attribute values, the bytes of a target, and nothing for anything else.
pub proof fn law_content_is_counted_once(
    budget: Budget,
    seen: Inspection,
    found: FoundContent,
    target_len: u64,
)
    requires
        budget.content_bytes + found_payload(seen, found, target_len) + found_xattr_bytes(found)
            <= u64::MAX,
        budget.payload_bytes + found_payload(seen, found, target_len) <= u64::MAX,
        budget.xattr_bytes + found_xattr_bytes(found) <= u64::MAX,
    ensures
        ({
            let after = spent_on_found(budget, seen, found, target_len);
            &&& after.payload_bytes == budget.payload_bytes + found_payload(seen, found, target_len)
            &&& after.xattr_bytes == budget.xattr_bytes + found_xattr_bytes(found)
            &&& after.content_bytes == budget.content_bytes + found_payload(
                seen,
                found,
                target_len,
            ) + found_xattr_bytes(found)
            &&& after.entries == budget.entries
            &&& after.directories == budget.directories
            &&& after.limits == budget.limits
        }),
        found matches FoundContent::Proved(proof) ==> (proof@ matches ContentView::Regular {
            size,
            xattrs,
            ..
        } ==> found_payload(seen, found, target_len) == size && found_xattr_bytes(found)
            == xattrs.value_bytes) && (proof@ is Directory || proof@ is Legacy ==> found_payload(
            seen,
            found,
            target_len,
        ) == 0 && found_xattr_bytes(found) == 0),
        found matches FoundContent::Assessed(Some(xattrs)) ==> found_payload(
            seen,
            found,
            target_len,
        ) == seen.size && found_xattr_bytes(found) == xattrs.value_bytes,
{
}

} // verus!
