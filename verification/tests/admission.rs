use degu_core::admission::assess_content;
use degu_core::admission::classify_xattr;
use degu_core::admission::ordinary_regular_xattr_is_admitted;
use degu_core::admission::Admission;
use degu_core::admission::EntryFacts;
use degu_core::admission::EntryKind;
use degu_core::admission::Evidence;
use degu_core::admission::RejectReason;
use degu_core::admission::XattrNameClass;
use degu_core::admission::XattrPlatform;
use degu_core::admission::Xattrs;

const ONE_XATTR: &[&[u8]] = &[b"user.example"];
const NO_XATTRS: &[&[u8]] = &[];

#[test]
fn policy_matrix_is_exhaustive_and_fail_closed() {
    let kinds = [
        EntryKind::Directory,
        EntryKind::Regular,
        EntryKind::Symlink,
        EntryKind::Other,
    ];
    let acls = [Evidence::Absent, Evidence::Present, Evidence::Unknown];
    let xattrs = [
        Xattrs::Names(NO_XATTRS),
        Xattrs::Names(ONE_XATTR),
        Xattrs::Unknown,
    ];

    let mut cases = 0;
    for kind in kinds {
        for acl in acls {
            for xattrs in xattrs {
                cases += 1;
                let facts = EntryFacts {
                    kind,
                    acl,
                    xattr_platform: XattrPlatform::Linux,
                    xattrs,
                };
                assert_eq!(
                    assess_content(&facts),
                    expected(kind, acl, xattrs),
                    "{facts:?}"
                );
            }
        }
    }
    assert_eq!(cases, 36);
}

fn expected<'a>(kind: EntryKind, acl: Evidence, xattrs: Xattrs<'a>) -> Admission<'a> {
    if kind == EntryKind::Directory {
        return Admission::Admit;
    }
    if kind == EntryKind::Other {
        return Admission::Reject(RejectReason::UnsupportedEntryKind);
    }
    match xattrs {
        Xattrs::Names([]) => {}
        Xattrs::Names(names) => {
            return Admission::Reject(RejectReason::ExtendedAttributePresent {
                name: names[0],
                class: XattrNameClass::LinuxUser,
            });
        }
        Xattrs::Unknown => {
            return Admission::Reject(RejectReason::ExtendedAttributesUnknown);
        }
    }
    match acl {
        Evidence::Present => Admission::Reject(RejectReason::AclPresent),
        Evidence::Unknown => Admission::Reject(RejectReason::AclUnknown),
        Evidence::Absent => Admission::Admit,
    }
}

#[test]
fn linux_namespace_taxonomy_is_table_driven() {
    let cases: &[(&[u8], XattrNameClass)] = &[
        (b"user.comment", XattrNameClass::LinuxUser),
        (b"system.posix_acl_access", XattrNameClass::LinuxSystem),
        (b"trusted.overlay.opaque", XattrNameClass::LinuxTrusted),
        (
            b"security.capability",
            XattrNameClass::LinuxSecurityCapability,
        ),
        (b"security.selinux", XattrNameClass::LinuxSecurity),
        (b"security.unknown", XattrNameClass::LinuxSecurity),
        (b"vendor.attribute", XattrNameClass::LinuxOther),
        (b"\xffnon-utf8", XattrNameClass::LinuxOther),
    ];
    for &(name, expected) in cases {
        assert_eq!(
            classify_xattr(XattrPlatform::Linux, name),
            expected,
            "{name:?}"
        );
    }
}

#[test]
fn macos_namespace_taxonomy_is_table_driven() {
    let cases: &[(&[u8], XattrNameClass)] = &[
        (b"com.apple.quarantine", XattrNameClass::MacOsQuarantine),
        (b"com.apple.provenance", XattrNameClass::MacOsProvenance),
        (
            b"com.apple.metadata:kMDItemWhereFroms",
            XattrNameClass::MacOsMetadata,
        ),
        (
            b"com.apple.lastuseddate#PS",
            XattrNameClass::MacOsLastUsedDate,
        ),
        (b"com.apple.FinderInfo", XattrNameClass::MacOsFinderInfo),
        (b"com.apple.ResourceFork", XattrNameClass::MacOsResourceFork),
        (b"com.apple.unknown", XattrNameClass::MacOsOther),
        (b"vendor.attribute", XattrNameClass::MacOsOther),
    ];
    for &(name, expected) in cases {
        assert_eq!(
            classify_xattr(XattrPlatform::MacOs, name),
            expected,
            "{name:?}"
        );
    }
}

#[test]
fn every_named_xattr_class_is_rejected_by_the_current_policy() {
    let cases: &[(XattrPlatform, &[u8], XattrNameClass)] = &[
        (
            XattrPlatform::Linux,
            b"user.comment",
            XattrNameClass::LinuxUser,
        ),
        (
            XattrPlatform::Linux,
            b"system.posix_acl_access",
            XattrNameClass::LinuxSystem,
        ),
        (
            XattrPlatform::Linux,
            b"trusted.overlay.opaque",
            XattrNameClass::LinuxTrusted,
        ),
        (
            XattrPlatform::Linux,
            b"security.capability",
            XattrNameClass::LinuxSecurityCapability,
        ),
        (
            XattrPlatform::Linux,
            b"security.selinux",
            XattrNameClass::LinuxSecurity,
        ),
        (
            XattrPlatform::Linux,
            b"vendor.attribute",
            XattrNameClass::LinuxOther,
        ),
        (
            XattrPlatform::MacOs,
            b"com.apple.quarantine",
            XattrNameClass::MacOsQuarantine,
        ),
        (
            XattrPlatform::MacOs,
            b"com.apple.provenance",
            XattrNameClass::MacOsProvenance,
        ),
        (
            XattrPlatform::MacOs,
            b"com.apple.metadata:kMDItemWhereFroms",
            XattrNameClass::MacOsMetadata,
        ),
        (
            XattrPlatform::MacOs,
            b"com.apple.lastuseddate#PS",
            XattrNameClass::MacOsLastUsedDate,
        ),
        (
            XattrPlatform::MacOs,
            b"com.apple.FinderInfo",
            XattrNameClass::MacOsFinderInfo,
        ),
        (
            XattrPlatform::MacOs,
            b"com.apple.ResourceFork",
            XattrNameClass::MacOsResourceFork,
        ),
        (
            XattrPlatform::MacOs,
            b"com.apple.unknown",
            XattrNameClass::MacOsOther,
        ),
        (
            XattrPlatform::Other,
            b"user.comment",
            XattrNameClass::OtherPlatform,
        ),
    ];

    for &(platform, name, class) in cases {
        let names = [name];
        let facts = EntryFacts {
            kind: EntryKind::Symlink,
            acl: Evidence::Absent,
            xattr_platform: platform,
            xattrs: Xattrs::Names(&names),
        };
        assert_eq!(
            assess_content(&facts),
            Admission::Reject(RejectReason::ExtendedAttributePresent { name, class }),
            "{platform:?} {name:?}",
        );
    }
}

#[test]
fn unsupported_platform_xattrs_remain_distinct_and_rejected() {
    assert_eq!(
        classify_xattr(XattrPlatform::Other, b"user.example"),
        XattrNameClass::OtherPlatform
    );
    let facts = EntryFacts {
        kind: EntryKind::Regular,
        acl: Evidence::Absent,
        xattr_platform: XattrPlatform::Other,
        xattrs: Xattrs::Names(&[b"user.example"]),
    };
    assert_eq!(
        assess_content(&facts),
        Admission::Reject(RejectReason::ExtendedAttributePresent {
            name: b"user.example",
            class: XattrNameClass::OtherPlatform,
        })
    );
}

#[test]
fn rejection_precedence_is_stable() {
    let facts = EntryFacts {
        kind: EntryKind::Regular,
        acl: Evidence::Unknown,
        xattr_platform: XattrPlatform::Linux,
        xattrs: Xattrs::Unknown,
    };
    assert_eq!(
        assess_content(&facts),
        Admission::Reject(RejectReason::ExtendedAttributesUnknown)
    );
}

#[test]
fn xattr_rejection_is_independent_of_enumeration_order() {
    let first = [b"user.comment".as_slice(), b"security.selinux".as_slice()];
    let reversed = [b"security.selinux".as_slice(), b"user.comment".as_slice()];
    let facts = |names| EntryFacts {
        kind: EntryKind::Symlink,
        acl: Evidence::Absent,
        xattr_platform: XattrPlatform::Linux,
        xattrs: Xattrs::Names(names),
    };
    let expected = Admission::Reject(RejectReason::ExtendedAttributePresent {
        name: b"security.selinux",
        class: XattrNameClass::LinuxSecurity,
    });
    assert_eq!(assess_content(&facts(&first)), expected);
    assert_eq!(assess_content(&facts(&reversed)), expected);
}

#[test]
fn directory_metadata_is_deliberately_outside_content_admission() {
    let facts = EntryFacts {
        kind: EntryKind::Directory,
        acl: Evidence::Present,
        xattr_platform: XattrPlatform::Other,
        xattrs: Xattrs::Unknown,
    };
    assert_eq!(assess_content(&facts), Admission::Admit);
}

#[test]
fn xattr_rejection_precedes_acl_rejection() {
    let names = [b"user.example".as_slice()];
    let facts = EntryFacts {
        kind: EntryKind::Regular,
        acl: Evidence::Present,
        xattr_platform: XattrPlatform::Linux,
        xattrs: Xattrs::Names(&names),
    };
    assert_eq!(
        assess_content(&facts),
        Admission::Reject(RejectReason::ExtendedAttributePresent {
            name: b"user.example",
            class: XattrNameClass::LinuxUser,
        })
    );
}

#[test]
fn only_user_names_and_quarantine_are_ordinary() {
    assert!(ordinary_regular_xattr_is_admitted(
        XattrPlatform::Linux,
        b"user.comment"
    ));
    assert!(ordinary_regular_xattr_is_admitted(
        XattrPlatform::MacOs,
        b"com.apple.quarantine"
    ));
    assert!(!ordinary_regular_xattr_is_admitted(
        XattrPlatform::Linux,
        b"user"
    ));
    assert!(!ordinary_regular_xattr_is_admitted(
        XattrPlatform::Linux,
        b"security.capability"
    ));
    assert!(!ordinary_regular_xattr_is_admitted(
        XattrPlatform::MacOs,
        b"com.apple.provenance"
    ));
    assert!(!ordinary_regular_xattr_is_admitted(
        XattrPlatform::Other,
        b"user.comment"
    ));
}
