//! Extended attributes: how they are listed, sized, read and proved.
//!
//! The caller asks the system; the machines below say what to ask for next and
//! what the answers come to. Every uncertainty is refused.

use crate::admission::assess_content;
use crate::admission::class_of_name;
use crate::admission::content_admission;
use crate::admission::is_ordinary;
use crate::admission::known_names;
use crate::admission::name_views;
use crate::admission::ordinary_regular_xattr_is_admitted;
use crate::admission::Admission;
use crate::admission::AdmissionView;
use crate::admission::EntryFacts;
use crate::admission::EntryKind;
use crate::admission::Evidence;
use crate::admission::RejectReason;
use crate::admission::XattrPlatform;
use crate::admission::Xattrs;
use crate::backend::certify::AclProbe;
use crate::backend::held::error::refused_for;
use crate::backend::held::error::HeldTreeError;
use crate::backend::held::error::HeldTreeLimit;
use crate::backend::held::error::TreeFault;
use crate::backend::held::limits::XattrReadBudget;
use crate::backend::held::manifest::xattr_domain_v3;
use crate::backend::held::manifest::xattr_proof_domain_v3;
use crate::backend::held::model::RegularXattrProof;
use crate::bytes::be64;
use crate::bytes::bytes_equal;
use crate::bytes::put_u64;
use crate::bytes::to_vec;
use crate::digest::absorbed;
use crate::digest::sha256_finalize;
use crate::digest::sha256_new;
use crate::digest::sha256_of;
use crate::digest::sha256_update;
use crate::digest::Sha256Stream;
use crate::paths::lemma_precedes_asymmetric;
use crate::paths::lemma_precedes_total;
use crate::paths::lemma_precedes_transitive;
use crate::paths::pieces;
use crate::paths::precedes;
use crate::paths::split;
use crate::paths::views;
use crate::paths::Collation;
use crate::sorting::is_sorted;
use crate::sorting::lemma_mapped_items;
use crate::sorting::lemma_repeats_ignore_order;
use crate::sorting::sort;
use crate::sorting::Sortable;
use vstd::prelude::*;

verus! {

/// How often the system is asked before an answer is given up.
pub const XATTR_LIST_ATTEMPTS: u8 = 3;

/// The longest list of names that is read.
pub const MAX_XATTR_NAME_LIST_BYTES: usize = 65_536;

/// The most names that are accepted.
pub const MAX_XATTR_NAMES: usize = 1_024;

/// The system error of an interrupted call.
pub const INTERRUPTED: i32 = 4;

/// The system error of a buffer that was too small.
pub const OUT_OF_RANGE: i32 = 34;

/// The names of the attributes of an entry.
#[derive(Debug, PartialEq, Eq)]
pub enum CollectedXattrs {
    Names(Vec<Vec<u8>>),
    Unknown,
}

impl View for CollectedXattrs {
    type V = Option<Seq<Seq<u8>>>;

    open spec fn view(&self) -> Option<Seq<Seq<u8>>> {
        match *self {
            CollectedXattrs::Names(names) => Some(views(names@)),
            CollectedXattrs::Unknown => None,
        }
    }
}

/// The names in a list of names, each of which ends with a zero byte: none is
/// empty, and there are not too many.
pub open spec fn listed_names(bytes: Seq<u8>) -> Option<Seq<Seq<u8>>> {
    if bytes.len() == 0 || bytes.last() != 0 {
        None
    } else {
        let names = pieces(bytes.drop_last(), 0);
        if names.len() <= MAX_XATTR_NAMES && forall|i: int|
            0 <= i < names.len() ==> (#[trigger] names[i]).len() > 0 {
            Some(names)
        } else {
            None
        }
    }
}

/// Reads a list of names.
pub fn parse_name_list(bytes: &[u8]) -> (names: CollectedXattrs)
    ensures
        names@ == listed_names(bytes@),
{
    if bytes.len() == 0 || bytes[bytes.len() - 1] != 0 {
        return CollectedXattrs::Unknown;
    }
    let body = vstd::slice::slice_subrange(bytes, 0, bytes.len() - 1);
    assert(body@ =~= bytes@.drop_last());
    let names = split(body, 0);
    proof {
        assert(views(names@).len() == names@.len());
    }
    if names.len() > MAX_XATTR_NAMES {
        return CollectedXattrs::Unknown;
    }
    let mut i: usize = 0;
    while i < names.len()
        invariant
            i <= names@.len(),
            forall|n: int| 0 <= n < i ==> (#[trigger] views(names@)[n]).len() > 0,
            views(names@) == pieces(bytes@.drop_last(), 0),
            bytes@.len() > 0,
            bytes@.last() == 0,
        decreases names@.len() - i,
    {
        assert(views(names@)[i as int] == names@[i as int]@);
        if names[i].len() == 0 {
            return CollectedXattrs::Unknown;
        }
        i += 1;
    }
    CollectedXattrs::Names(names)
}

/// What to ask the system for next.
#[derive(Debug, PartialEq, Eq)]
pub enum ListRequest {
    /// How long the list of names is.
    Size,
    /// The list itself, into a buffer of this length.
    Names(usize),
    /// Nothing: this is what the answers come to.
    Done(CollectedXattrs),
}

/// The content of a [`ListRequest`].
#[verifier::ext_equal]
pub enum RequestView {
    Size,
    Names(usize),
    Done(Option<Seq<Seq<u8>>>),
}

impl View for ListRequest {
    type V = RequestView;

    open spec fn view(&self) -> RequestView {
        match *self {
            ListRequest::Size => RequestView::Size,
            ListRequest::Names(length) => RequestView::Names(length),
            ListRequest::Done(names) => RequestView::Done(names@),
        }
    }
}

/// Lists the attribute names of an entry.
#[derive(Clone, Copy, Debug, PartialEq, Eq, Structural)]
pub struct NameListing {
    /// How many attempts are left, this one included.
    pub attempts: u8,
    /// Whether an answer was seen that an empty list would contradict.
    pub rejection_observed: bool,
}

/// After an attempt that may be made again.
pub open spec fn listing_retry(listing: NameListing) -> (NameListing, RequestView) {
    let next = NameListing {
        attempts: (listing.attempts - 1) as u8,
        rejection_observed: true,
    };
    if listing.attempts > 1 {
        (next, RequestView::Size)
    } else {
        (next, RequestView::Done(None))
    }
}

/// What the answer to [`ListRequest::Size`] leads to. An empty list counts only
/// if nothing spoke against it.
pub open spec fn listing_after_size(listing: NameListing, answer: Result<usize, i32>) -> (
    NameListing,
    RequestView,
) {
    match answer {
        Err(errno) => if errno == INTERRUPTED {
            listing_retry(listing)
        } else {
            (listing, RequestView::Done(None))
        },
        Ok(size) => if size == 0 {
            (
                listing,
                RequestView::Done(
                    if listing.rejection_observed {
                        None
                    } else {
                        Some(Seq::empty())
                    },
                ),
            )
        } else {
            let next = NameListing { attempts: listing.attempts, rejection_observed: true };
            if size > MAX_XATTR_NAME_LIST_BYTES {
                (next, RequestView::Done(None))
            } else {
                (next, RequestView::Names(size))
            }
        },
    }
}

/// What the answer to [`ListRequest::Names`] leads to: how many bytes the system
/// says it wrote, and the buffer.
pub open spec fn listing_after_names(
    listing: NameListing,
    answer: Result<(usize, Seq<u8>), i32>,
) -> (NameListing, RequestView) {
    match answer {
        Err(errno) => if errno == INTERRUPTED || errno == OUT_OF_RANGE {
            listing_retry(listing)
        } else {
            (listing, RequestView::Done(None))
        },
        Ok((read, buffer)) => if read == 0 || read > buffer.len() {
            (listing, RequestView::Done(None))
        } else {
            (listing, RequestView::Done(listed_names(buffer.take(read as int))))
        },
    }
}

/// The content of an answer with a buffer.
pub open spec fn answer_view(answer: Result<(usize, Vec<u8>), i32>) -> Result<
    (usize, Seq<u8>),
    i32,
> {
    match answer {
        Ok((read, buffer)) => Ok((read, buffer@)),
        Err(errno) => Err(errno),
    }
}

impl NameListing {
    /// A listing that has not asked yet; it asks for the size first.
    pub fn new() -> (listing: Self)
        ensures
            listing == (NameListing { attempts: XATTR_LIST_ATTEMPTS, rejection_observed: false }),
    {
        NameListing { attempts: XATTR_LIST_ATTEMPTS, rejection_observed: false }
    }

    /// Goes on after an attempt that may be made again.
    fn retry(&mut self) -> (request: ListRequest)
        requires
            old(self).attempts >= 1,
        ensures
            (*final(self), request@) == listing_retry(*old(self)),
    {
        self.attempts = self.attempts - 1;
        self.rejection_observed = true;
        if self.attempts > 0 {
            ListRequest::Size
        } else {
            ListRequest::Done(CollectedXattrs::Unknown)
        }
    }

    /// Takes the answer to [`ListRequest::Size`].
    pub fn sized(&mut self, answer: Result<usize, i32>) -> (request: ListRequest)
        requires
            old(self).attempts >= 1,
        ensures
            (*final(self), request@) == listing_after_size(*old(self), answer),
            !(request is Done) ==> final(self).attempts >= 1,
    {
        match answer {
            Err(errno) => if errno == INTERRUPTED {
                self.retry()
            } else {
                ListRequest::Done(CollectedXattrs::Unknown)
            },
            Ok(size) => {
                if size == 0 {
                    if self.rejection_observed {
                        return ListRequest::Done(CollectedXattrs::Unknown);
                    }
                    let names: Vec<Vec<u8>> = Vec::new();
                    assert(views(names@) =~= Seq::<Seq<u8>>::empty());
                    return ListRequest::Done(CollectedXattrs::Names(names));
                }
                self.rejection_observed = true;
                if size > MAX_XATTR_NAME_LIST_BYTES {
                    ListRequest::Done(CollectedXattrs::Unknown)
                } else {
                    ListRequest::Names(size)
                }
            },
        }
    }

    /// Takes the answer to [`ListRequest::Names`].
    pub fn listed(&mut self, answer: Result<(usize, Vec<u8>), i32>) -> (request: ListRequest)
        requires
            old(self).attempts >= 1,
        ensures
            (*final(self), request@) == listing_after_names(*old(self), answer_view(answer)),
            !(request is Done) ==> final(self).attempts >= 1,
    {
        match answer {
            Err(errno) => if errno == INTERRUPTED || errno == OUT_OF_RANGE {
                self.retry()
            } else {
                ListRequest::Done(CollectedXattrs::Unknown)
            },
            Ok((read, buffer)) => {
                if read == 0 || read > buffer.len() {
                    return ListRequest::Done(CollectedXattrs::Unknown);
                }
                let list = vstd::slice::slice_subrange(buffer.as_slice(), 0, read);
                assert(list@ =~= buffer@.take(read as int));
                ListRequest::Done(parse_name_list(list))
            },
        }
    }
}

/// What to ask the system for next, of one attribute value.
#[derive(Debug, PartialEq, Eq)]
pub enum ValueRequest {
    /// How long the value is.
    Size,
    /// The value itself, into a buffer of this length.
    Value(usize),
    /// Nothing: this is the value.
    Done(Vec<u8>),
}

/// Reads one attribute value.
#[derive(Clone, Copy, Debug, PartialEq, Eq, Structural)]
pub struct ValueReading {
    /// How many attempts are left, this one included.
    pub attempts: u8,
    /// The longest value that is accepted.
    pub maximum_value_bytes: u64,
    /// The bound that is named where a value is longer.
    pub content_limit: u64,
}

/// What an answer about a value leads to.
#[verifier::ext_equal]
pub enum ValueStep {
    Retry,
    Ask(usize),
    Done(Seq<u8>),
    Refused(TreeFault),
}

/// What the answer to [`ValueRequest::Size`] leads to.
pub open spec fn value_after_size(
    reading: ValueReading,
    answer: Result<usize, i32>,
    path: Seq<u8>,
) -> ValueStep {
    match answer {
        Err(errno) => if errno == INTERRUPTED {
            ValueStep::Retry
        } else {
            ValueStep::Refused(TreeFault::XattrsChangedDuringProof(path))
        },
        Ok(size) => if size > reading.maximum_value_bytes {
            ValueStep::Refused(
                TreeFault::Limit {
                    kind: HeldTreeLimit::ContentBytes,
                    limit: reading.content_limit,
                },
            )
        } else {
            ValueStep::Ask(size)
        },
    }
}

/// What the answer to [`ValueRequest::Value`] leads to: the value counts only if
/// it has the length that was announced.
pub open spec fn value_after_read(answer: Result<(usize, Seq<u8>), i32>, path: Seq<u8>)
    -> ValueStep {
    match answer {
        Err(errno) => if errno == INTERRUPTED || errno == OUT_OF_RANGE {
            ValueStep::Retry
        } else {
            ValueStep::Refused(TreeFault::XattrsChangedDuringProof(path))
        },
        Ok((read, buffer)) => if read == buffer.len() {
            ValueStep::Done(buffer)
        } else {
            ValueStep::Retry
        },
    }
}

/// Whether `outcome` and the reading after it are what `step` asks for. A retry
/// without attempts left is a refusal.
pub open spec fn value_step_taken(
    before: ValueReading,
    after: ValueReading,
    outcome: Result<ValueRequest, HeldTreeError>,
    step: ValueStep,
    path: Seq<u8>,
) -> bool {
    match step {
        ValueStep::Retry => {
            &&& after == (ValueReading {
                attempts: (before.attempts - 1) as u8,
                maximum_value_bytes: before.maximum_value_bytes,
                content_limit: before.content_limit,
            })
            &&& if before.attempts > 1 {
                outcome matches Ok(ValueRequest::Size)
            } else {
                outcome matches Err(error) && error@ == TreeFault::XattrsChangedDuringProof(path)
            }
        },
        ValueStep::Ask(size) => after == before && (outcome matches Ok(ValueRequest::Value(asked))
            && asked == size),
        ValueStep::Done(value) => after == before && (outcome matches Ok(ValueRequest::Done(read))
            && read@ == value),
        ValueStep::Refused(fault) => after == before && (outcome matches Err(error) && error@
            == fault),
    }
}

impl ValueReading {
    /// A reading that has not asked yet; it asks for the size first.
    pub fn new(maximum_value_bytes: u64, content_limit: u64) -> (reading: Self)
        ensures
            reading == (ValueReading {
                attempts: XATTR_LIST_ATTEMPTS,
                maximum_value_bytes,
                content_limit,
            }),
    {
        ValueReading { attempts: XATTR_LIST_ATTEMPTS, maximum_value_bytes, content_limit }
    }

    /// Goes on after an attempt that may be made again.
    fn retry(&mut self, path: &[u8]) -> (outcome: Result<ValueRequest, HeldTreeError>)
        requires
            old(self).attempts >= 1,
        ensures
            value_step_taken(*old(self), *final(self), outcome, ValueStep::Retry, path@),
    {
        self.attempts = self.attempts - 1;
        if self.attempts > 0 {
            Ok(ValueRequest::Size)
        } else {
            Err(HeldTreeError::XattrsChangedDuringProof(to_vec(path)))
        }
    }

    /// Takes the answer to [`ValueRequest::Size`].
    pub fn sized(&mut self, answer: Result<usize, i32>, path: &[u8]) -> (outcome: Result<
        ValueRequest,
        HeldTreeError,
    >)
        requires
            old(self).attempts >= 1,
        ensures
            value_step_taken(
                *old(self),
                *final(self),
                outcome,
                value_after_size(*old(self), answer, path@),
                path@,
            ),
    {
        match answer {
            Err(errno) => if errno == INTERRUPTED {
                self.retry(path)
            } else {
                Err(HeldTreeError::XattrsChangedDuringProof(to_vec(path)))
            },
            Ok(size) => if size as u64 > self.maximum_value_bytes {
                Err(
                    HeldTreeError::Limit {
                        kind: HeldTreeLimit::ContentBytes,
                        limit: self.content_limit,
                    },
                )
            } else {
                Ok(ValueRequest::Value(size))
            },
        }
    }

    /// Takes the answer to [`ValueRequest::Value`].
    pub fn read(&mut self, answer: Result<(usize, Vec<u8>), i32>, path: &[u8]) -> (outcome: Result<
        ValueRequest,
        HeldTreeError,
    >)
        requires
            old(self).attempts >= 1,
        ensures
            value_step_taken(
                *old(self),
                *final(self),
                outcome,
                value_after_read(answer_view(answer), path@),
                path@,
            ),
    {
        match answer {
            Err(errno) => if errno == INTERRUPTED || errno == OUT_OF_RANGE {
                self.retry(path)
            } else {
                Err(HeldTreeError::XattrsChangedDuringProof(to_vec(path)))
            },
            Ok((read, buffer)) => if read == buffer.len() {
                Ok(ValueRequest::Done(buffer))
            } else {
                self.retry(path)
            },
        }
    }
}

/// What sizing an attribute value comes to after one answer: the size, another
/// attempt, or a refusal.
pub fn size_xattr_value(attempts_left: u8, answer: Result<usize, i32>, path: &[u8]) -> (outcome:
    Result<Option<u64>, HeldTreeError>)
    requires
        attempts_left >= 1,
    ensures
        match answer {
            Ok(size) => outcome == Ok::<Option<u64>, HeldTreeError>(Some(size as u64)),
            Err(errno) => if errno == INTERRUPTED && attempts_left > 1 {
                outcome == Ok::<Option<u64>, HeldTreeError>(None)
            } else {
                outcome matches Err(error) && error@ == TreeFault::NonDirectoryMetadataUnavailable(
                    path@,
                )
            },
        },
{
    match answer {
        Ok(size) => Ok(Some(size as u64)),
        Err(errno) => if errno == INTERRUPTED && attempts_left > 1 {
            Ok(None)
        } else {
            Err(HeldTreeError::NonDirectoryMetadataUnavailable(to_vec(path)))
        },
    }
}

/// What an access control list probe says as evidence.
pub open spec fn probe_evidence(probe: AclProbe) -> Evidence {
    match probe {
        AclProbe::Absent => Evidence::Absent,
        AclProbe::Present => Evidence::Present,
        AclProbe::Unknown => Evidence::Unknown,
    }
}

/// What an access control list probe says as evidence.
pub fn acl_evidence(probe: AclProbe) -> (evidence: Evidence)
    ensures
        evidence == probe_evidence(probe),
{
    match probe {
        AclProbe::Absent => Evidence::Absent,
        AclProbe::Present => Evidence::Present,
        AclProbe::Unknown => Evidence::Unknown,
    }
}

/// Why an entry is refused, given what the policy says of it.
pub open spec fn admission_refusal(admission: AdmissionView, path: Seq<u8>) -> Option<TreeFault> {
    match admission {
        AdmissionView::Admit => None,
        AdmissionView::UnsupportedEntryKind => Some(TreeFault::UnsupportedContentProof(path)),
        AdmissionView::AclPresent => Some(TreeFault::NonDirectoryExtendedMetadata(path)),
        AdmissionView::ExtendedAttributePresent { name: _, class: _ } => Some(
            TreeFault::NonDirectoryExtendedMetadata(path),
        ),
        AdmissionView::AclUnknown => Some(TreeFault::NonDirectoryMetadataUnavailable(path)),
        AdmissionView::ExtendedAttributesUnknown => Some(
            TreeFault::NonDirectoryMetadataUnavailable(path),
        ),
    }
}

/// Requires that the policy admits an entry.
pub fn require_content_admitted(facts: EntryFacts<'_>, path: &[u8]) -> (outcome: Result<
    (),
    HeldTreeError,
>)
    ensures
        refused_for(
            outcome,
            admission_refusal(
                content_admission(
                    facts.kind,
                    known_names(facts.xattrs),
                    facts.xattr_platform,
                    facts.acl,
                ),
                path@,
            ),
        ),
{
    match assess_content(&facts) {
        Admission::Admit => Ok(()),
        Admission::Reject(reason) => Err(
            match reason {
                RejectReason::UnsupportedEntryKind => HeldTreeError::UnsupportedContentProof(
                    to_vec(path),
                ),
                RejectReason::AclPresent | RejectReason::ExtendedAttributePresent { .. } =>
                    HeldTreeError::NonDirectoryExtendedMetadata(to_vec(path)),
                RejectReason::AclUnknown | RejectReason::ExtendedAttributesUnknown =>
                    HeldTreeError::NonDirectoryMetadataUnavailable(to_vec(path)),
            },
        ),
    }
}

/// The names as a list of slices.
fn name_slices<'a>(names: &'a Vec<Vec<u8>>) -> (slices: Vec<&'a [u8]>)
    ensures
        name_views(slices@) == views(names@),
{
    let mut slices: Vec<&'a [u8]> = Vec::new();
    let mut i: usize = 0;
    while i < names.len()
        invariant
            i <= names@.len(),
            slices@.len() == i,
            forall|n: int| 0 <= n < i ==> (#[trigger] slices@[n])@ == names@[n]@,
        decreases names@.len() - i,
    {
        slices.push(names[i].as_slice());
        i += 1;
    }
    assert(name_views(slices@) =~= views(names@));
    slices
}

/// Why an entry with the collected attributes is refused. The access control
/// list counts only where it was asked for and there are no attributes.
pub open spec fn metadata_refusal(
    collected: Option<Seq<Seq<u8>>>,
    kind: EntryKind,
    platform: XattrPlatform,
    acl: Evidence,
    path: Seq<u8>,
) -> Option<TreeFault> {
    match collected {
        None => Some(TreeFault::NonDirectoryMetadataUnavailable(path)),
        Some(names) => {
            let counted = if names.len() == 0 {
                acl
            } else {
                Evidence::Absent
            };
            if counted == Evidence::Unknown {
                Some(TreeFault::NonDirectoryMetadataUnavailable(path))
            } else {
                admission_refusal(content_admission(kind, Some(names), platform, counted), path)
            }
        },
    }
}

/// Requires that an entry with the collected attributes is admitted. Without a
/// probe the access control list is not asked about.
pub fn assess_collected_metadata(
    path: &[u8],
    kind: EntryKind,
    platform: XattrPlatform,
    acl: Option<AclProbe>,
    collected: &CollectedXattrs,
) -> (outcome: Result<(), HeldTreeError>)
    ensures
        refused_for(
            outcome,
            metadata_refusal(
                collected@,
                kind,
                platform,
                match acl {
                    Some(probe) => probe_evidence(probe),
                    None => Evidence::Absent,
                },
                path@,
            ),
        ),
{
    match collected {
        CollectedXattrs::Unknown => Err(
            HeldTreeError::NonDirectoryMetadataUnavailable(to_vec(path)),
        ),
        CollectedXattrs::Names(names) => {
            let counted = match acl {
                Some(probe) => if names.len() == 0 {
                    acl_evidence(probe)
                } else {
                    Evidence::Absent
                },
                None => Evidence::Absent,
            };
            assert(views(names@).len() == names@.len());
            if counted == Evidence::Unknown {
                return Err(HeldTreeError::NonDirectoryMetadataUnavailable(to_vec(path)));
            }
            let slices = name_slices(names);
            require_content_admitted(
                EntryFacts {
                    kind,
                    acl: counted,
                    xattr_platform: platform,
                    xattrs: Xattrs::Names(slices.as_slice()),
                },
                path,
            )
        },
    }
}

/// Requires that a symbolic link with the collected attributes is admitted.
pub fn assess_symlink_xattrs(path: &[u8], platform: XattrPlatform, collected: &CollectedXattrs)
    -> (outcome: Result<(), HeldTreeError>)
    ensures
        refused_for(
            outcome,
            metadata_refusal(collected@, EntryKind::Symlink, platform, Evidence::Absent, path@),
        ),
{
    assess_collected_metadata(path, EntryKind::Symlink, platform, None, collected)
}

/// Why the attributes of a regular file cannot be proved.
pub open spec fn regular_names_refusal(
    acl: AclProbe,
    collected: Option<Seq<Seq<u8>>>,
    platform: XattrPlatform,
    path: Seq<u8>,
) -> Option<TreeFault> {
    match acl {
        AclProbe::Present => Some(TreeFault::NonDirectoryExtendedMetadata(path)),
        AclProbe::Unknown => Some(TreeFault::NonDirectoryMetadataUnavailable(path)),
        AclProbe::Absent => match collected {
            None => Some(TreeFault::NonDirectoryMetadataUnavailable(path)),
            Some(names) => if !names.no_duplicates() {
                Some(TreeFault::XattrsChangedDuringProof(path))
            } else if exists|i: int|
                0 <= i < names.len() && !is_ordinary(
                    class_of_name(platform, #[trigger] names[i]),
                ) {
                Some(TreeFault::NonDirectoryExtendedMetadata(path))
            } else {
                None
            },
        },
    }
}

/// The names are those given, in byte order.
pub open spec fn is_ordering_of(ordered: Seq<Seq<u8>>, names: Seq<Seq<u8>>) -> bool {
    &&& ordered.to_multiset() == names.to_multiset()
    &&& forall|i: int, j: int|
        #![trigger ordered[i], ordered[j]]
        0 <= i < j < ordered.len() ==> precedes(Collation::Plain, ordered[i], ordered[j])
}

/// Sorts names, and tells whether one stands twice.
fn sorted_names(names: Vec<Vec<u8>>) -> (sorted: (Vec<Vec<u8>>, bool))
    ensures
        sorted.1 == !views(names@).no_duplicates(),
        !sorted.1 ==> is_ordering_of(views(sorted.0@), views(names@)),
        forall|name: Seq<u8>| views(sorted.0@).contains(name) <==> views(names@).contains(name),
{
    let ghost given = names@;
    let sorted = sort(names);
    proof {
        let f = |name: Vec<u8>| name@;
        lemma_mapped_items(sorted@, given, f);
        assert(sorted@.map_values(f) =~= views(sorted@));
        assert(given.map_values(f) =~= views(given));
        lemma_repeats_ignore_order(views(sorted@), views(given));
    }
    let ghost list = views(sorted@);
    let mut i: usize = 1;
    while i < sorted.len()
        invariant
            1 <= i,
            i <= sorted@.len() || sorted@.len() == 0,
            given == names@,
            list == views(sorted@),
            is_sorted(sorted@),
            list.no_duplicates() <==> views(given).no_duplicates(),
            list.to_multiset() == views(given).to_multiset(),
            forall|name: Seq<u8>| list.contains(name) <==> views(given).contains(name),
            forall|j: int, k: int|
                #![trigger list[j], list[k]]
                0 <= j < k < i && k < list.len() ==> precedes(Collation::Plain, list[j], list[k]),
        decreases sorted@.len() - i,
    {
        if bytes_equal(sorted[i - 1].as_slice(), sorted[i].as_slice()) {
            assert(list[i - 1] == list[i as int]);
            return (sorted, true);
        }
        proof {
            assert(!sorted@[i as int].stands_before(&sorted@[i - 1]));
            lemma_precedes_total(Collation::Plain, list[i - 1], list[i as int]);
            assert(precedes(Collation::Plain, list[i - 1], list[i as int]));
            assert forall|j: int| 0 <= j < i implies precedes(
                Collation::Plain,
                #[trigger] list[j],
                list[i as int],
            ) by {
                if j < i - 1 {
                    assert(precedes(Collation::Plain, list[j], list[i - 1]));
                    lemma_precedes_transitive(
                        Collation::Plain,
                        list[j],
                        list[i - 1],
                        list[i as int],
                    );
                }
            }
        }
        i += 1;
    }
    proof {
        assert forall|j: int, k: int|
            #![trigger list[j], list[k]]
            0 <= j < list.len() && 0 <= k < list.len() && j != k implies list[j] != list[k] by {
            if j < k {
                lemma_precedes_asymmetric(Collation::Plain, list[j], list[k]);
            } else {
                lemma_precedes_asymmetric(Collation::Plain, list[k], list[j]);
            }
        }
        assert(list.no_duplicates());
    }
    (sorted, false)
}

/// The attribute names of a regular file whose attributes can be proved, in
/// byte order. The access control list is a fact of its own and is asked about
/// whatever attributes there are.
pub fn admitted_regular_xattr_names(
    acl: AclProbe,
    collected: CollectedXattrs,
    platform: XattrPlatform,
    path: &[u8],
) -> (names: Result<Vec<Vec<u8>>, HeldTreeError>)
    ensures
        refused_for(names, regular_names_refusal(acl, collected@, platform, path@)),
        names matches Ok(ordered) ==> is_ordering_of(views(ordered@), collected@->0),
{
    match acl {
        AclProbe::Absent => {},
        AclProbe::Present => {
            return Err(HeldTreeError::NonDirectoryExtendedMetadata(to_vec(path)));
        },
        AclProbe::Unknown => {
            return Err(HeldTreeError::NonDirectoryMetadataUnavailable(to_vec(path)));
        },
    }
    let names = match collected {
        CollectedXattrs::Names(names) => names,
        CollectedXattrs::Unknown => {
            return Err(HeldTreeError::NonDirectoryMetadataUnavailable(to_vec(path)));
        },
    };
    let ghost given = views(names@);
    let (sorted, repeated) = sorted_names(names);
    if repeated {
        return Err(HeldTreeError::XattrsChangedDuringProof(to_vec(path)));
    }
    let mut i: usize = 0;
    while i < sorted.len()
        invariant
            i <= sorted@.len(),
            acl == AclProbe::Absent,
            collected@ == Some(given),
            given.no_duplicates(),
            is_ordering_of(views(sorted@), given),
            forall|name: Seq<u8>| views(sorted@).contains(name) <==> given.contains(name),
            forall|n: int|
                0 <= n < i ==> is_ordinary(class_of_name(platform, #[trigger] views(sorted@)[n])),
        decreases sorted@.len() - i,
    {
        let name = &sorted[i];
        assert(views(sorted@)[i as int] == name@);
        if !ordinary_regular_xattr_is_admitted(platform, name.as_slice()) {
            proof {
                assert(views(sorted@).contains(name@));
                assert(given.contains(name@));
                let k = choose|k: int| 0 <= k < given.len() && given[k] == name@;
                assert(!is_ordinary(class_of_name(platform, given[k])));
            }
            return Err(HeldTreeError::NonDirectoryExtendedMetadata(to_vec(path)));
        }
        i += 1;
    }
    proof {
        assert forall|k: int| 0 <= k < given.len() implies is_ordinary(
            class_of_name(platform, #[trigger] given[k]),
        ) by {
            assert(given.contains(given[k]));
            assert(views(sorted@).contains(given[k]));
            let n = choose|n: int|
                0 <= n < views(sorted@).len() && views(sorted@)[n] == given[k];
            assert(is_ordinary(class_of_name(platform, views(sorted@)[n])));
        }
    }
    Ok(sorted)
}

/// What a proof hashes for one attribute: its name, the length of its value,
/// and, where the value is committed to, the value.
pub open spec fn attribute_bytes(name: Seq<u8>, value_len: u64, value: Seq<u8>) -> Seq<u8> {
    be64(name.len() as u64) + name + be64(value_len) + value
}

/// One attribute that has been added to a proof.
#[verifier::ext_equal]
pub struct ProvedAttribute {
    pub name: Seq<u8>,
    pub value_len: u64,
    /// The value, where it was read; empty where it was only sized.
    pub value: Seq<u8>,
}

/// What a proof hashes for its attributes.
pub open spec fn attributes_bytes(attributes: Seq<ProvedAttribute>) -> Seq<u8>
    decreases attributes.len(),
{
    if attributes.len() == 0 {
        Seq::empty()
    } else {
        attributes_bytes(attributes.drop_last()) + attribute_bytes(
            attributes.last().name,
            attributes.last().value_len,
            attributes.last().value,
        )
    }
}

/// The length of all values together.
pub open spec fn attributes_total(attributes: Seq<ProvedAttribute>) -> int
    decreases attributes.len(),
{
    if attributes.len() == 0 {
        0
    } else {
        attributes_total(attributes.drop_last()) + attributes.last().value_len
    }
}

/// What a proof of `count` attributes hashes.
pub open spec fn xattr_message(count: nat, attributes: Seq<ProvedAttribute>) -> Seq<u8> {
    xattr_proof_domain_v3() + be64(count as u64) + attributes_bytes(attributes)
}

/// Proves the attributes of a regular file, one after the other.
pub struct XattrProving {
    names: Vec<Vec<u8>>,
    next: usize,
    budget: XattrReadBudget,
    value_bytes: u64,
    digest: Sha256Stream,
    proved: Ghost<Seq<ProvedAttribute>>,
}

impl XattrProving {
    /// The names of the attributes.
    pub closed spec fn wanted(&self) -> Seq<Seq<u8>> {
        views(self.names@)
    }

    /// What has been added so far.
    pub closed spec fn proved(&self) -> Seq<ProvedAttribute> {
        self.proved@
    }

    /// What may still be read.
    pub closed spec fn budget(&self) -> XattrReadBudget {
        self.budget
    }

    /// The digest has taken in what was added, the attributes follow the names,
    /// and the total is theirs.
    pub closed spec fn wf(&self) -> bool {
        &&& self.next <= self.names@.len()
        &&& self.proved@.len() == self.next
        &&& self.value_bytes == attributes_total(self.proved@)
        &&& absorbed(self.digest) == xattr_message(self.names@.len(), self.proved@)
        &&& forall|i: int|
            0 <= i < self.next ==> (#[trigger] self.proved@[i]).name == self.names@[i]@
    }

    /// Starts to prove the attributes with the given names.
    pub fn new(names: Vec<Vec<u8>>, budget: XattrReadBudget) -> (proving: Self)
        ensures
            proving.wf(),
            proving.wanted() == views(names@),
            proving.proved() == Seq::<ProvedAttribute>::empty(),
            proving.budget() == budget,
    {
        let mut message = xattr_domain_v3();
        put_u64(&mut message, names.len() as u64);
        let mut digest = sha256_new();
        sha256_update(&mut digest, message.as_slice());
        proof {
            assert(absorbed(digest) =~= xattr_message(names@.len(), Seq::empty()));
        }
        XattrProving { names, next: 0, budget, value_bytes: 0, digest, proved: Ghost(Seq::empty()) }
    }

    /// The name of the attribute that comes next, if one does.
    pub fn next_name(&self) -> (name: Option<&Vec<u8>>)
        requires
            self.wf(),
        ensures
            match name {
                Some(name) => self.proved().len() < self.wanted().len() && name@
                    == self.wanted()[self.proved().len() as int],
                None => self.proved().len() == self.wanted().len(),
            },
    {
        if self.next < self.names.len() {
            assert(self.wanted()[self.next as int] == self.names@[self.next as int]@);
            Some(&self.names[self.next])
        } else {
            None
        }
    }

    /// What may still be read, so that the next value can be bounded by it.
    pub fn remaining(&self) -> (budget: XattrReadBudget)
        ensures
            budget == self.budget(),
    {
        self.budget
    }

    /// Adds the next attribute, whose value has the given length; `value` is the
    /// value, or nothing where it is not committed to.
    fn add_attribute(&mut self, value_len: u64, value: &[u8], path: &[u8]) -> (outcome: Result<
        (),
        HeldTreeError,
    >)
        requires
            old(self).wf(),
            old(self).proved().len() < old(self).wanted().len(),
        ensures
            final(self).wf(),
            final(self).wanted() == old(self).wanted(),
            refused_for(outcome, attribute_refusal(*old(self), value_len, path@)),
            outcome is Err ==> final(self).proved() == old(self).proved(),
            outcome is Ok ==> {
                &&& final(self).proved() == old(self).proved().push(
                    ProvedAttribute {
                        name: old(self).wanted()[old(self).proved().len() as int],
                        value_len,
                        value: value@,
                    },
                )
                &&& final(self).budget() == charged(old(self).budget(), value_len)
            },
    {
        self.budget.charge(value_len)?;
        let total: u64 = match self.value_bytes.checked_add(value_len) {
            Some(total) => total,
            None => {
                return Err(HeldTreeError::XattrsChangedDuringProof(to_vec(path)));
            },
        };
        let ghost before = self.proved@;
        let ghost name = self.names@[self.next as int]@;
        let ghost attribute = ProvedAttribute { name, value_len, value: value@ };
        let count = self.names.len();
        assert(self.next < count);
        let mut head: Vec<u8> = Vec::new();
        put_u64(&mut head, self.names[self.next].len() as u64);
        sha256_update(&mut self.digest, head.as_slice());
        sha256_update(&mut self.digest, self.names[self.next].as_slice());
        let mut length: Vec<u8> = Vec::new();
        put_u64(&mut length, value_len);
        sha256_update(&mut self.digest, length.as_slice());
        sha256_update(&mut self.digest, value);
        self.value_bytes = total;
        self.next = self.next + 1;
        self.proved = Ghost(before.push(attribute));
        proof {
            let after = before.push(attribute);
            assert(after.drop_last() =~= before);
            assert(head@ =~= be64(name.len() as u64));
            assert(length@ =~= be64(value_len));
            assert(absorbed(self.digest) =~= xattr_message(self.names@.len(), after));
        }
        Ok(())
    }

    /// Adds the next attribute with its value.
    pub fn add_value(&mut self, value: &[u8], path: &[u8]) -> (outcome: Result<(), HeldTreeError>)
        requires
            old(self).wf(),
            old(self).proved().len() < old(self).wanted().len(),
        ensures
            final(self).wf(),
            final(self).wanted() == old(self).wanted(),
            refused_for(outcome, attribute_refusal(*old(self), value@.len() as u64, path@)),
            outcome is Ok ==> final(self).proved() == old(self).proved().push(
                ProvedAttribute {
                    name: old(self).wanted()[old(self).proved().len() as int],
                    value_len: value@.len() as u64,
                    value: value@,
                },
            ),
            outcome is Ok ==> final(self).budget() == charged(old(self).budget(), value@.len() as u64),
            outcome is Err ==> final(self).proved() == old(self).proved(),
    {
        self.add_attribute(value.len() as u64, value, path)
    }

    /// Adds the next attribute with the length of its value alone.
    pub fn add_size(&mut self, value_len: u64, path: &[u8]) -> (outcome: Result<(), HeldTreeError>)
        requires
            old(self).wf(),
            old(self).proved().len() < old(self).wanted().len(),
        ensures
            final(self).wf(),
            final(self).wanted() == old(self).wanted(),
            refused_for(outcome, attribute_refusal(*old(self), value_len, path@)),
            outcome is Ok ==> final(self).proved() == old(self).proved().push(
                ProvedAttribute {
                    name: old(self).wanted()[old(self).proved().len() as int],
                    value_len,
                    value: Seq::empty(),
                },
            ),
            outcome is Ok ==> final(self).budget() == charged(old(self).budget(), value_len),
            outcome is Err ==> final(self).proved() == old(self).proved(),
    {
        let nothing: Vec<u8> = Vec::new();
        assert(nothing@ =~= Seq::<u8>::empty());
        self.add_attribute(value_len, nothing.as_slice(), path)
    }

    /// The proof, once every attribute has been added.
    pub fn finish(self) -> (proof: RegularXattrProof)
        requires
            self.wf(),
            self.proved().len() == self.wanted().len(),
        ensures
            is_xattr_proof(proof, self.wanted(), self.proved()),
    {
        RegularXattrProof {
            attribute_count: self.names.len() as u64,
            value_bytes: self.value_bytes,
            sha256: sha256_finalize(self.digest),
        }
    }
}

/// What may still be read once `bytes` more have been.
pub open spec fn charged(budget: XattrReadBudget, bytes: u64) -> XattrReadBudget {
    XattrReadBudget {
        remaining_bytes: (budget.remaining_bytes - bytes) as u64,
        content_limit: budget.content_limit,
    }
}

/// Why the next attribute cannot be added.
pub open spec fn attribute_refusal(proving: XattrProving, value_len: u64, path: Seq<u8>) -> Option<
    TreeFault,
> {
    if value_len > proving.budget().remaining_bytes {
        Some(
            TreeFault::Limit {
                kind: HeldTreeLimit::ContentBytes,
                limit: proving.budget().content_limit,
            },
        )
    } else if attributes_total(proving.proved()) + value_len > u64::MAX {
        Some(TreeFault::XattrsChangedDuringProof(path))
    } else {
        None
    }
}

/// The proof counts the names, adds up the values, and hashes them in order.
pub open spec fn is_xattr_proof(
    proof: RegularXattrProof,
    names: Seq<Seq<u8>>,
    proved: Seq<ProvedAttribute>,
) -> bool {
    &&& proof.attribute_count == names.len()
    &&& proof.value_bytes == attributes_total(proved)
    &&& proof.sha256@ == sha256_of(xattr_message(names.len(), proved))
    &&& forall|i: int| 0 <= i < proved.len() ==> (#[trigger] proved[i]).name == names[i]
}

/// The attributes of a regular file are proved exactly where it has no access
/// control list, all names are known, none stands twice, and each is ordinary.
pub proof fn law_only_ordinary_attributes_are_proved(
    acl: AclProbe,
    collected: Option<Seq<Seq<u8>>>,
    platform: XattrPlatform,
    path: Seq<u8>,
)
    ensures
        regular_names_refusal(acl, collected, platform, path) is None <==> acl == AclProbe::Absent
            && (collected matches Some(names) && names.no_duplicates() && forall|i: int|
            0 <= i < names.len() ==> is_ordinary(class_of_name(platform, #[trigger] names[i]))),
{
}

/// An entry whose metadata is not committed to passes exactly where it is a file or
/// a link, its attributes are known and there are none, and no access control list
/// was found or left open.
pub proof fn law_bare_entries_carry_nothing(
    collected: Option<Seq<Seq<u8>>>,
    kind: EntryKind,
    platform: XattrPlatform,
    acl: Evidence,
    path: Seq<u8>,
)
    requires
        kind == EntryKind::Regular || kind == EntryKind::Symlink,
    ensures
        metadata_refusal(collected, kind, platform, acl, path) is None <==> collected is Some
            && collected->0.len() == 0 && acl == Evidence::Absent,
{
}

/// An entry is refused exactly where the policy does not admit it.
pub proof fn law_refusals_follow_the_policy(admission: AdmissionView, path: Seq<u8>, probe: AclProbe)
    ensures
        admission_refusal(admission, path) is None <==> admission is Admit,
        probe_evidence(probe) == Evidence::Absent <==> probe == AclProbe::Absent,
        probe_evidence(probe) == Evidence::Present <==> probe == AclProbe::Present,
{
}

/// A value counts only where it has exactly the length that was announced, and is
/// asked for only where it fits what may still be read.
pub proof fn law_values_are_read_in_full(
    reading: ValueReading,
    size: Result<usize, i32>,
    answer: Result<(usize, Seq<u8>), i32>,
    path: Seq<u8>,
)
    ensures
        value_after_size(reading, size, path) matches ValueStep::Ask(asked) ==> size == Ok::<
            usize,
            i32,
        >(asked) && asked <= reading.maximum_value_bytes,
        size matches Ok(asked) && asked <= reading.maximum_value_bytes ==> value_after_size(
            reading,
            size,
            path,
        ) == ValueStep::Ask(size->Ok_0),
        value_after_read(answer, path) matches ValueStep::Done(value) ==> answer == Ok::<
            (usize, Seq<u8>),
            i32,
        >((value.len() as usize, value)),
        answer matches Ok((read, value)) && read == value.len() ==> value_after_read(answer, path)
            == ValueStep::Done(answer->Ok_0.1),
{
}

/// An attribute is added only while its value fits what may still be read.
pub proof fn law_attributes_keep_the_budget(
    proving: XattrProving,
    value_len: u64,
    path: Seq<u8>,
)
    ensures
        attribute_refusal(proving, value_len, path) is None <==> value_len
            <= proving.budget().remaining_bytes && attributes_total(proving.proved()) + value_len
            <= u64::MAX,
        value_len <= proving.budget().remaining_bytes ==> charged(
            proving.budget(),
            value_len,
        ).remaining_bytes == proving.budget().remaining_bytes - value_len && charged(
            proving.budget(),
            value_len,
        ).content_limit == proving.budget().content_limit,
{
}

} // verus!
