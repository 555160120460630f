//! Which entries a content proof can represent.
//!
//! Callers collect facts on an entry; the policy says whether the proof format
//! can hold them, and if not, why. It owns no handles and gives no authority.

use crate::bytes::bytes_equal;
use crate::bytes::has_prefix;
use crate::bytes::starts_with;
use crate::paths::compare_bytes;
use crate::paths::lemma_precedes_asymmetric;
use crate::paths::lemma_precedes_total;
use crate::paths::lemma_precedes_transitive;
use crate::paths::precedes;
use crate::paths::Collation;
use crate::paths::PathOrder;
use vstd::prelude::*;
use vstd::utf8::encode_utf8;

verus! {

/// What an entry is.
#[derive(Clone, Copy, Debug, PartialEq, Eq, Structural)]
pub enum EntryKind {
    Directory,
    Regular,
    Symlink,
    Other,
}

/// What is known of something that should not be there.
#[derive(Clone, Copy, Debug, PartialEq, Eq, Structural)]
pub enum Evidence {
    Absent,
    Present,
    Unknown,
}

/// Whose attribute names they are.
#[derive(Clone, Copy, Debug, PartialEq, Eq, Structural)]
pub enum XattrPlatform {
    Linux,
    MacOs,
    Other,
}

/// What an attribute name stands for.
#[derive(Clone, Copy, Debug, PartialEq, Eq, Structural)]
pub enum XattrNameClass {
    LinuxUser,
    LinuxSystem,
    LinuxTrusted,
    LinuxSecurityCapability,
    LinuxSecurity,
    LinuxOther,
    MacOsQuarantine,
    MacOsProvenance,
    MacOsMetadata,
    MacOsLastUsedDate,
    MacOsFinderInfo,
    MacOsResourceFork,
    MacOsOther,
    OtherPlatform,
}

/// The attributes of an entry.
#[derive(Clone, Copy, Debug, PartialEq, Eq)]
pub enum Xattrs<'a> {
    /// All names. No names prove that there are no attributes.
    Names(&'a [&'a [u8]]),
    /// The names could not be listed, or not all of them.
    Unknown,
}

/// What was collected on an entry.
#[derive(Clone, Copy, Debug, PartialEq, Eq)]
pub struct EntryFacts<'a> {
    pub kind: EntryKind,
    pub acl: Evidence,
    pub xattr_platform: XattrPlatform,
    pub xattrs: Xattrs<'a>,
}

/// Why an entry is rejected.
#[derive(Clone, Copy, Debug, PartialEq, Eq)]
pub enum RejectReason<'a> {
    UnsupportedEntryKind,
    AclPresent,
    AclUnknown,
    ExtendedAttributePresent { name: &'a [u8], class: XattrNameClass },
    ExtendedAttributesUnknown,
}

/// What the policy says of an entry.
#[derive(Clone, Copy, Debug, PartialEq, Eq)]
pub enum Admission<'a> {
    Admit,
    Reject(RejectReason<'a>),
}

/// The content of an [`Admission`].
#[verifier::ext_equal]
pub enum AdmissionView {
    Admit,
    UnsupportedEntryKind,
    AclPresent,
    AclUnknown,
    ExtendedAttributePresent { name: Seq<u8>, class: XattrNameClass },
    ExtendedAttributesUnknown,
}

impl<'a> View for Admission<'a> {
    type V = AdmissionView;

    open spec fn view(&self) -> AdmissionView {
        match *self {
            Admission::Admit => AdmissionView::Admit,
            Admission::Reject(RejectReason::UnsupportedEntryKind) =>
                AdmissionView::UnsupportedEntryKind,
            Admission::Reject(RejectReason::AclPresent) => AdmissionView::AclPresent,
            Admission::Reject(RejectReason::AclUnknown) => AdmissionView::AclUnknown,
            Admission::Reject(RejectReason::ExtendedAttributePresent { name, class }) =>
                AdmissionView::ExtendedAttributePresent { name: name@, class },
            Admission::Reject(RejectReason::ExtendedAttributesUnknown) =>
                AdmissionView::ExtendedAttributesUnknown,
        }
    }
}

/// The contents of a list of names.
pub open spec fn name_views(names: Seq<&[u8]>) -> Seq<Seq<u8>> {
    Seq::new(names.len(), |i: int| names[i]@)
}

/// The first in byte order of the names, of which there is at least one.
pub open spec fn least_name(names: Seq<Seq<u8>>) -> Seq<u8>
    decreases names.len(),
{
    if names.len() <= 1 {
        names[0]
    } else {
        let least = least_name(names.drop_last());
        if precedes(Collation::Plain, names.last(), least) {
            names.last()
        } else {
            least
        }
    }
}

/// What the policy says of an entry that is not a directory, given the names of
/// its attributes where they are known.
pub open spec fn metadata_admission(
    names: Option<Seq<Seq<u8>>>,
    platform: XattrPlatform,
    acl: Evidence,
) -> AdmissionView {
    match names {
        None => AdmissionView::ExtendedAttributesUnknown,
        Some(names) => if names.len() > 0 {
            AdmissionView::ExtendedAttributePresent {
                name: least_name(names),
                class: class_of_name(platform, least_name(names)),
            }
        } else {
            match acl {
                Evidence::Absent => AdmissionView::Admit,
                Evidence::Present => AdmissionView::AclPresent,
                Evidence::Unknown => AdmissionView::AclUnknown,
            }
        },
    }
}

/// What the policy says of an entry. The metadata of a directory is not its
/// subject.
pub open spec fn content_admission(
    kind: EntryKind,
    names: Option<Seq<Seq<u8>>>,
    platform: XattrPlatform,
    acl: Evidence,
) -> AdmissionView {
    match kind {
        EntryKind::Directory => AdmissionView::Admit,
        EntryKind::Other => AdmissionView::UnsupportedEntryKind,
        EntryKind::Regular => metadata_admission(names, platform, acl),
        EntryKind::Symlink => metadata_admission(names, platform, acl),
    }
}

/// The names of the facts, where they are known.
pub open spec fn known_names(xattrs: Xattrs) -> Option<Seq<Seq<u8>>> {
    match xattrs {
        Xattrs::Names(names) => Some(name_views(names@)),
        Xattrs::Unknown => None,
    }
}

/// What the policy says of an entry.
pub fn assess_content<'a>(facts: &EntryFacts<'a>) -> (admission: Admission<'a>)
    ensures
        admission@ == content_admission(
            facts.kind,
            known_names(facts.xattrs),
            facts.xattr_platform,
            facts.acl,
        ),
{
    match facts.kind {
        EntryKind::Directory => Admission::Admit,
        EntryKind::Other => Admission::Reject(RejectReason::UnsupportedEntryKind),
        EntryKind::Regular => assess_non_directory_metadata(facts),
        EntryKind::Symlink => assess_non_directory_metadata(facts),
    }
}

/// What the policy says of an entry that is not a directory. A present or
/// uncertain attribute comes before the access control list.
fn assess_non_directory_metadata<'a>(facts: &EntryFacts<'a>) -> (admission: Admission<'a>)
    ensures
        admission@ == metadata_admission(
            known_names(facts.xattrs),
            facts.xattr_platform,
            facts.acl,
        ),
{
    match facts.xattrs {
        Xattrs::Names(names) => {
            if names.len() > 0 {
                let mut least: &'a [u8] = names[0];
                let mut i: usize = 1;
                let ghost list = name_views(names@);
                assert(list.take(1)[0] == list[0]);
                while i < names.len()
                    invariant
                        1 <= i <= names@.len(),
                        list == name_views(names@),
                        least@ == least_name(list.take(i as int)),
                    decreases names@.len() - i,
                {
                    assert(list.take(i + 1).drop_last() =~= list.take(i as int));
                    assert(list.take(i + 1).last() == names@[i as int]@);
                    match compare_bytes(Collation::Plain, names[i], least) {
                        PathOrder::Less => {
                            least = names[i];
                        },
                        _ => {},
                    }
                    i += 1;
                }
                assert(list.take(list.len() as int) =~= list);
                return Admission::Reject(
                    RejectReason::ExtendedAttributePresent {
                        name: least,
                        class: classify_xattr(facts.xattr_platform, least),
                    },
                );
            }
        },
        Xattrs::Unknown => {
            return Admission::Reject(RejectReason::ExtendedAttributesUnknown);
        },
    }
    match facts.acl {
        Evidence::Absent => Admission::Admit,
        Evidence::Present => Admission::Reject(RejectReason::AclPresent),
        Evidence::Unknown => Admission::Reject(RejectReason::AclUnknown),
    }
}

/// What an attribute name of Linux stands for.
pub open spec fn linux_class(name: Seq<u8>) -> XattrNameClass {
    if name == encode_utf8("security.capability"@) {
        XattrNameClass::LinuxSecurityCapability
    } else if has_prefix(name, encode_utf8("user."@)) {
        XattrNameClass::LinuxUser
    } else if has_prefix(name, encode_utf8("system."@)) {
        XattrNameClass::LinuxSystem
    } else if has_prefix(name, encode_utf8("trusted."@)) {
        XattrNameClass::LinuxTrusted
    } else if has_prefix(name, encode_utf8("security."@)) {
        XattrNameClass::LinuxSecurity
    } else {
        XattrNameClass::LinuxOther
    }
}

/// What an attribute name of macOS stands for.
pub open spec fn macos_class(name: Seq<u8>) -> XattrNameClass {
    if name == encode_utf8("com.apple.quarantine"@) {
        XattrNameClass::MacOsQuarantine
    } else if name == encode_utf8("com.apple.provenance"@) {
        XattrNameClass::MacOsProvenance
    } else if name == encode_utf8("com.apple.lastuseddate#PS"@) {
        XattrNameClass::MacOsLastUsedDate
    } else if name == encode_utf8("com.apple.FinderInfo"@) {
        XattrNameClass::MacOsFinderInfo
    } else if name == encode_utf8("com.apple.ResourceFork"@) {
        XattrNameClass::MacOsResourceFork
    } else if has_prefix(name, encode_utf8("com.apple.metadata:"@)) {
        XattrNameClass::MacOsMetadata
    } else {
        XattrNameClass::MacOsOther
    }
}

/// What an attribute name stands for.
pub open spec fn class_of_name(platform: XattrPlatform, name: Seq<u8>) -> XattrNameClass {
    match platform {
        XattrPlatform::Linux => linux_class(name),
        XattrPlatform::MacOs => macos_class(name),
        XattrPlatform::Other => XattrNameClass::OtherPlatform,
    }
}

/// What an attribute name stands for, so that names that bear on security and
/// names that are not known stay apart.
pub fn classify_xattr(platform: XattrPlatform, name: &[u8]) -> (class: XattrNameClass)
    ensures
        class == class_of_name(platform, name@),
{
    match platform {
        XattrPlatform::Linux => classify_linux_xattr(name),
        XattrPlatform::MacOs => classify_macos_xattr(name),
        XattrPlatform::Other => XattrNameClass::OtherPlatform,
    }
}

/// What an attribute name of Linux stands for.
fn classify_linux_xattr(name: &[u8]) -> (class: XattrNameClass)
    ensures
        class == linux_class(name@),
{
    if bytes_equal(name, "security.capability".as_bytes()) {
        XattrNameClass::LinuxSecurityCapability
    } else if starts_with(name, "user.".as_bytes()) {
        XattrNameClass::LinuxUser
    } else if starts_with(name, "system.".as_bytes()) {
        XattrNameClass::LinuxSystem
    } else if starts_with(name, "trusted.".as_bytes()) {
        XattrNameClass::LinuxTrusted
    } else if starts_with(name, "security.".as_bytes()) {
        XattrNameClass::LinuxSecurity
    } else {
        XattrNameClass::LinuxOther
    }
}

/// What an attribute name of macOS stands for.
fn classify_macos_xattr(name: &[u8]) -> (class: XattrNameClass)
    ensures
        class == macos_class(name@),
{
    if bytes_equal(name, "com.apple.quarantine".as_bytes()) {
        XattrNameClass::MacOsQuarantine
    } else if bytes_equal(name, "com.apple.provenance".as_bytes()) {
        XattrNameClass::MacOsProvenance
    } else if bytes_equal(name, "com.apple.lastuseddate#PS".as_bytes()) {
        XattrNameClass::MacOsLastUsedDate
    } else if bytes_equal(name, "com.apple.FinderInfo".as_bytes()) {
        XattrNameClass::MacOsFinderInfo
    } else if bytes_equal(name, "com.apple.ResourceFork".as_bytes()) {
        XattrNameClass::MacOsResourceFork
    } else if starts_with(name, "com.apple.metadata:".as_bytes()) {
        XattrNameClass::MacOsMetadata
    } else {
        XattrNameClass::MacOsOther
    }
}

/// Whether a regular file may carry an attribute of this class into a proof that
/// commits to attribute values: those that users set on Linux, and the
/// quarantine mark of macOS.
pub open spec fn is_ordinary(class: XattrNameClass) -> bool {
    class == XattrNameClass::LinuxUser || class == XattrNameClass::MacOsQuarantine
}

/// Whether a regular file may carry an attribute with this name into a proof
/// that commits to attribute values.
pub fn ordinary_regular_xattr_is_admitted(platform: XattrPlatform, name: &[u8]) -> (admitted: bool)
    ensures
        admitted == is_ordinary(class_of_name(platform, name@)),
{
    matches!(
        classify_xattr(platform, name),
        XattrNameClass::LinuxUser | XattrNameClass::MacOsQuarantine
    )
}

/// The least name is one of the names, and none comes before it.
pub proof fn lemma_least_name(names: Seq<Seq<u8>>)
    requires
        names.len() > 0,
    ensures
        names.contains(least_name(names)),
        forall|i: int|
            0 <= i < names.len() ==> !precedes(
                Collation::Plain,
                #[trigger] names[i],
                least_name(names),
            ),
    decreases names.len(),
{
    if names.len() == 1 {
        if precedes(Collation::Plain, names[0], names[0]) {
            lemma_precedes_asymmetric(Collation::Plain, names[0], names[0]);
        }
        assert(names.contains(names[0]));
    } else {
        let less = names.drop_last();
        lemma_least_name(less);
        let least = least_name(less);
        let last = names.last();
        let k = choose|k: int| 0 <= k < less.len() && less[k] == least;
        assert(names[k] == least);
        assert(names[names.len() - 1] == last);
        assert forall|i: int| 0 <= i < names.len() implies !precedes(
            Collation::Plain,
            #[trigger] names[i],
            least_name(names),
        ) by {
            if precedes(Collation::Plain, names[i], least_name(names)) {
                if i < less.len() {
                    assert(less[i] == names[i]);
                    if precedes(Collation::Plain, last, least) {
                        lemma_precedes_transitive(Collation::Plain, names[i], last, least);
                    }
                } else {
                    lemma_precedes_asymmetric(Collation::Plain, names[i], least_name(names));
                }
            }
        }
    }
}

/// The order in which the attributes are listed does not matter: lists of the
/// same names are judged alike.
pub proof fn law_admission_ignores_listing_order(
    kind: EntryKind,
    first: Seq<Seq<u8>>,
    second: Seq<Seq<u8>>,
    platform: XattrPlatform,
    acl: Evidence,
)
    requires
        forall|name: Seq<u8>| first.contains(name) <==> second.contains(name),
    ensures
        content_admission(kind, Some(first), platform, acl) == content_admission(
            kind,
            Some(second),
            platform,
            acl,
        ),
{
    if first.len() > 0 {
        assert(first.contains(first[0]));
    }
    if second.len() > 0 {
        assert(second.contains(second[0]));
    }
    if first.len() > 0 && second.len() > 0 {
        lemma_least_name(first);
        lemma_least_name(second);
        let a = least_name(first);
        let b = least_name(second);
        assert(second.contains(a));
        assert(first.contains(b));
        let i = choose|i: int| 0 <= i < second.len() && second[i] == a;
        let j = choose|j: int| 0 <= j < first.len() && first[j] == b;
        assert(!precedes(Collation::Plain, second[i], b));
        assert(!precedes(Collation::Plain, first[j], a));
        lemma_precedes_total(Collation::Plain, a, b);
    }
}

/// Only what is known to be clean is admitted: an entry that is not a directory
/// is admitted exactly if it is a regular file or a link with no attributes and
/// no access control list.
pub proof fn law_admission_fails_closed(
    kind: EntryKind,
    names: Option<Seq<Seq<u8>>>,
    platform: XattrPlatform,
    acl: Evidence,
)
    requires
        kind != EntryKind::Directory,
    ensures
        content_admission(kind, names, platform, acl) == AdmissionView::Admit <==> (kind
            != EntryKind::Other && names is Some && names->0.len() == 0 && acl
            == Evidence::Absent),
{
}

/// Nothing but what users set on Linux and the quarantine mark of macOS is
/// ordinary; on other systems nothing is.
pub proof fn law_little_is_ordinary(platform: XattrPlatform, name: Seq<u8>)
    ensures
        is_ordinary(class_of_name(platform, name)) ==> match platform {
            XattrPlatform::Linux => has_prefix(name, encode_utf8("user."@)),
            XattrPlatform::MacOs => name == encode_utf8("com.apple.quarantine"@),
            XattrPlatform::Other => false,
        },
        platform == XattrPlatform::MacOs && name == encode_utf8("com.apple.quarantine"@)
            ==> is_ordinary(class_of_name(platform, name)),
        platform == XattrPlatform::Linux && has_prefix(name, encode_utf8("user."@)) && name
            != encode_utf8("security.capability"@) ==> is_ordinary(class_of_name(platform, name)),
{
}

/// Directories are admitted whatever they carry, and what is neither a directory
/// nor a file nor a link never is. What is rejected names the reason that comes
/// first: attributes before the access control list, and of the attributes the
/// least name.
pub proof fn law_rejections_name_the_first_reason(
    names: Option<Seq<Seq<u8>>>,
    platform: XattrPlatform,
    acl: Evidence,
)
    ensures
        content_admission(EntryKind::Directory, names, platform, acl) is Admit,
        content_admission(EntryKind::Other, names, platform, acl) is UnsupportedEntryKind,
        names is None ==> content_admission(EntryKind::Regular, names, platform, acl)
            is ExtendedAttributesUnknown,
        names matches Some(list) && list.len() > 0 ==> (content_admission(
            EntryKind::Regular,
            names,
            platform,
            acl,
        ) matches AdmissionView::ExtendedAttributePresent { name, class } && names->0.contains(name)
            && class == class_of_name(platform, name) && forall|i: int|
            0 <= i < names->0.len() ==> !precedes(
                Collation::Plain,
                #[trigger] names->0[i],
                name,
            )),
        names matches Some(list) && list.len() == 0 ==> (content_admission(
            EntryKind::Regular,
            names,
            platform,
            acl,
        ) is AclPresent <==> acl == Evidence::Present),
        content_admission(EntryKind::Symlink, names, platform, acl) == content_admission(
            EntryKind::Regular,
            names,
            platform,
            acl,
        ),
{
    if names is Some && names->0.len() > 0 {
        lemma_least_name(names->0);
    }
}

} // verus!
