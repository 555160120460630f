use degu_core::admission::EntryFacts;
use degu_core::admission::EntryKind;
use degu_core::admission::Evidence;
use degu_core::admission::XattrPlatform;
use degu_core::admission::Xattrs;
use degu_core::backend::certify::AclProbe;
use degu_core::backend::certify::CertificationError;
use degu_core::backend::certify::CertifiedLocalBackend;
use degu_core::backend::held::decoder::validate_manifest_path;
use degu_core::backend::held::decoder::ManifestV3Decoder;
use degu_core::backend::held::decoder::ManifestV3RecordContent;
use degu_core::backend::held::decoder::ManifestV3RecordKind;
use degu_core::backend::held::directories::build_directory_index;
use degu_core::backend::held::directories::directories_deepest_first;
use degu_core::backend::held::directories::normal_relative_components;
use degu_core::backend::held::directories::DirectoryEvidence;
use degu_core::backend::held::error::HeldTreeError;
use degu_core::backend::held::error::HeldTreeLimit;
use degu_core::backend::held::error::ManifestV3CodecError;
use degu_core::backend::held::inspect::incarnation_from_timestamp;
use degu_core::backend::held::inspect::inspection_from_linux_statx;
use degu_core::backend::held::inspect::inspection_from_macos_stat;
use degu_core::backend::held::inspect::node_kind;
use degu_core::backend::held::inspect::require_same_identity;
use degu_core::backend::held::inspect::root_binding_matches;
use degu_core::backend::held::inspect::Inspection;
use degu_core::backend::held::inspect::LinuxStatx;
use degu_core::backend::held::inspect::MacosStat;
use degu_core::backend::held::inspect::StatTime;
use degu_core::backend::held::inspect::STATX_CONTENT_FIELDS;
use degu_core::backend::held::inspect::STATX_IDENTITY_FIELDS;
use degu_core::backend::held::limits::Budget;
use degu_core::backend::held::limits::HeldTreeLimits;
use degu_core::backend::held::limits::CONTENT_PROOF_VERSION;
use degu_core::backend::held::limits::HARD_DIRECTORY_CAP;
use degu_core::backend::held::limits::LEGACY_CONTENT_PROOF_VERSION;
use degu_core::backend::held::limits::MAX_TREE_DIRECTORIES;
use degu_core::backend::held::manifest::emit_manifest_entry_v3;
use degu_core::backend::held::manifest::empty_regular_xattr_proof;
use degu_core::backend::held::manifest::fingerprint_manifest_v1;
use degu_core::backend::held::manifest::fingerprint_manifest_v2;
use degu_core::backend::held::manifest::fingerprint_manifest_v3;
use degu_core::backend::held::manifest::manifest_entry_v3_len;
use degu_core::backend::held::model::ContentProof;
use degu_core::backend::held::model::ManifestEntry;
use degu_core::backend::held::model::NodeIdentity;
use degu_core::backend::held::model::NodeKind;
use degu_core::backend::held::model::RegularFileObservation;
use degu_core::backend::held::model::RegularHardLinkTopology;
use degu_core::backend::held::model::RegularXattrProof;
use degu_core::backend::held::modes::fingerprint_v3_with_modes;
use degu_core::backend::held::modes::mode_is_unused;
use degu_core::backend::held::modes::substituted_modes;
use degu_core::backend::held::modes::DirectoryModes;
use degu_core::backend::held::purge::removal_plan;
use degu_core::backend::held::purge::InterruptedRetry;
use degu_core::backend::held::reobserve::split_name;
use degu_core::backend::held::rewalk::compare_structures;
use degu_core::backend::held::scratch::decode_hardlink_scratch_record;
use degu_core::backend::held::scratch::decode_structure_record;
use degu_core::backend::held::scratch::emit_structure_record;
use degu_core::backend::held::scratch::encode_hardlink_scratch_record;
use degu_core::backend::held::scratch::hardlink_scratch_sentinel_record;
use degu_core::backend::held::scratch::structure_evidence_from_v3_record;
use degu_core::backend::held::stream::emit_forward_v3_record;
use degu_core::backend::held::stream::stream_manifest_v3_records;
use degu_core::backend::held::stream::stream_manifest_v3_segments;
use degu_core::backend::held::topology::classify_regular_file_topology;
use degu_core::backend::held::topology::RegularFileReobservation;
use degu_core::backend::held::topology_fold::HardlinkScratchObservation;
use degu_core::backend::held::topology_fold::HardlinkTopologyFold;
use degu_core::backend::held::xattr::admitted_regular_xattr_names;
use degu_core::backend::held::xattr::assess_symlink_xattrs;
use degu_core::backend::held::xattr::require_content_admitted;
use degu_core::backend::held::xattr::size_xattr_value;
use degu_core::backend::held::xattr::CollectedXattrs;
use degu_core::backend::held::xattr::ListRequest;
use degu_core::backend::held::xattr::NameListing;
use degu_core::backend::held::xattr::ValueReading;
use degu_core::backend::held::xattr::ValueRequest;
use degu_core::backend::held::xattr::XattrProving;
use degu_core::backend::held::xattr::MAX_XATTR_NAMES;
use degu_core::backend::held::xattr::MAX_XATTR_NAME_LIST_BYTES;
use degu_core::backend::held::limits::XattrReadBudget;

#[test]
fn production_directory_budget_fits_the_recovery_permission_envelope() {
    let limits = HeldTreeLimits::default();
    assert_eq!(limits.max_directories, MAX_TREE_DIRECTORIES);
    assert_eq!(MAX_TREE_DIRECTORIES + 1, HARD_DIRECTORY_CAP);
    assert_eq!(HARD_DIRECTORY_CAP, 1024);
    assert_eq!(limits.max_entries, 100_000);
    assert_eq!(limits.max_depth, 128);
    assert_eq!(limits.max_path_bytes, 16 * 1024 * 1024);
    assert_eq!(limits.max_manifest_bytes, 64 * 1024 * 1024);
    assert_eq!(limits.max_content_bytes, None);
    assert_eq!(limits.max_xattr_bytes, 1024 * 1024 * 1024);
}

#[test]
fn unknown_acl_and_xattr_evidence_are_unavailable_not_present() {
    for facts in [
        EntryFacts {
            kind: EntryKind::Regular,
            acl: Evidence::Unknown,
            xattr_platform: XattrPlatform::Linux,
            xattrs: Xattrs::Names(&[]),
        },
        EntryFacts {
            kind: EntryKind::Regular,
            acl: Evidence::Absent,
            xattr_platform: XattrPlatform::Linux,
            xattrs: Xattrs::Unknown,
        },
    ] {
        assert!(matches!(
            require_content_admitted(facts, b"file"),
            Err(HeldTreeError::NonDirectoryMetadataUnavailable(path))
                if path == b"file"
        ));
    }
}

#[test]
fn fingerprint_codec_is_domain_separated_raw_and_field_complete() {
    let base = ManifestEntry {
        path: vec![b'a', 0xff],
        identity: NodeIdentity {
            kind: NodeKind::Regular,
            device: 7,
            inode: 11,
            incarnation: 14,
        },
        uid: 12,
        gid: 13,
        mode: 0o640,
        content: ContentProof::Regular {
            size: 3,
            nlink: 1,
            mtime_sec: 17,
            mtime_nsec: 18,
            ctime_sec: 19,
            ctime_nsec: 20,
            sha256: [0x42; 32],
            xattrs: empty_regular_xattr_proof(),
        },
    };
    let fingerprint = fingerprint_manifest_v1(std::slice::from_ref(&base));
    assert_eq!(fingerprint.entry_count, 1);
    assert_eq!(
        fingerprint.sha256,
        [
            0xfa, 0xe6, 0x37, 0xba, 0x3e, 0x80, 0xbb, 0x23, 0x91, 0xa9, 0x87, 0xf6, 0x50, 0xdf,
            0x16, 0x97, 0x6a, 0x03, 0x29, 0x3c, 0xda, 0x77, 0xaa, 0x38, 0xe4, 0x46, 0x1e, 0xe1,
            0x11, 0xc1, 0xc4, 0xd1,
        ]
    );
    let v2 = fingerprint_manifest_v2(std::slice::from_ref(&base));
    assert_eq!(v2.schema_version, LEGACY_CONTENT_PROOF_VERSION);
    assert_eq!(
        v2.sha256,
        [
            0x58, 0x90, 0x03, 0xec, 0x4f, 0x17, 0x6d, 0xb1, 0x1c, 0x87, 0x64, 0x53, 0x51, 0x40,
            0xe2, 0x4f, 0x44, 0x9d, 0xb3, 0x68, 0x1b, 0x8f, 0xe9, 0x19, 0xd1, 0x7e, 0x38, 0x1d,
            0x08, 0x2f, 0x33, 0xfc,
        ]
    );

    let v3 = fingerprint_manifest_v3(std::slice::from_ref(&base));
    assert_eq!(v3.schema_version, CONTENT_PROOF_VERSION);
    assert_eq!(
        v3.sha256,
        [
            0xc9, 0x4b, 0xa1, 0xf3, 0x7f, 0x70, 0x07, 0x79, 0x07, 0xb0, 0x19, 0x9d, 0xab, 0x07,
            0x0d, 0x0e, 0x9d, 0x25, 0x79, 0xbf, 0x84, 0x37, 0x32, 0x99, 0x7a, 0xda, 0x62, 0xeb,
            0xf9, 0x41, 0xe9, 0x3f,
        ],
        "the pre-segmentation v3 fingerprint bytes are frozen",
    );
    assert_ne!(v3.sha256, v2.sha256);
    let mut with_xattr = base.clone();
    if let ContentProof::Regular { xattrs, .. } = &mut with_xattr.content {
        xattrs.attribute_count = 1;
        xattrs.value_bytes = 3;
        xattrs.sha256 = [0x77; 32];
    }
    assert_ne!(
        fingerprint_manifest_v3(std::slice::from_ref(&with_xattr)).sha256,
        v3.sha256
    );
    assert_eq!(
        fingerprint_manifest_v2(std::slice::from_ref(&with_xattr)).sha256,
        v2.sha256,
        "v2 bytes must ignore the v3-only xattr proof"
    );

    let mut variants = Vec::new();
    let mut value = base.clone();
    value.path = b"b".to_vec();
    variants.push(value);
    let mut value = base.clone();
    value.identity.kind = NodeKind::Symlink;
    variants.push(value);
    let mut value = base.clone();
    value.identity.device += 1;
    variants.push(value);
    let mut value = base.clone();
    value.identity.inode += 1;
    variants.push(value);
    let mut value = base.clone();
    value.identity.incarnation += 1;
    variants.push(value);
    let mut value = base.clone();
    value.uid += 1;
    variants.push(value);
    let mut value = base.clone();
    value.gid += 1;
    variants.push(value);
    let mut value = base;
    value.mode ^= 1;
    variants.push(value);
    for variant in variants {
        assert_ne!(
            fingerprint_manifest_v1(&[variant]).sha256,
            fingerprint.sha256
        );
    }
}

#[test]
fn reused_device_and_inode_with_a_new_incarnation_is_changed() {
    let expected = NodeIdentity {
        kind: NodeKind::Regular,
        device: 7,
        inode: 11,
        incarnation: 14,
    };
    let actual = NodeIdentity {
        incarnation: 15,
        ..expected
    };
    assert!(matches!(
        require_same_identity(b"victim", expected, actual),
        Err(HeldTreeError::IdentityChanged(path)) if path == b"victim"
    ));
}

#[test]
fn alias_group_rejects_differing_proved_content_hashes() {
    let identity = NodeIdentity {
        kind: NodeKind::Regular,
        device: 7,
        inode: 11,
        incarnation: 13,
    };
    let observation = RegularFileObservation {
        identity,
        uid: 17,
        gid: 19,
        mode: 0o600,
        size: 3,
        nlink: 2,
        mtime_sec: 23,
        mtime_nsec: 29,
        ctime_sec: 31,
        ctime_nsec: 37,
        sha256: Some([0x41; 32]),
        xattrs: empty_regular_xattr_proof(),
    };
    let aliases = [
        RegularFileReobservation {
            path: b"a/alias",
            observation,
        },
        RegularFileReobservation {
            path: b"a/file",
            observation: RegularFileObservation {
                sha256: Some([0x42; 32]),
                ..observation
            },
        },
    ];
    assert!(matches!(
        classify_regular_file_topology(&aliases),
        Err(HeldTreeError::ContentChangedDuringHash(path)) if path == b"a/alias"
    ));
}

#[test]
fn root_binding_comparison_includes_mount_and_backend() {
    let identity = NodeIdentity {
        kind: NodeKind::Directory,
        device: 7,
        inode: 11,
        incarnation: 14,
    };
    let actual = Inspection {
        identity,
        uid: 1,
        gid: 1,
        mode: 0o700,
        size: 0,
        nlink: 1,
        mtime_sec: 0,
        mtime_nsec: 0,
        ctime_sec: 0,
        ctime_nsec: 0,
        content_fields_available: true,
        mount_id: 42,
        backend: CertifiedLocalBackend::Ext4,
    };
    assert!(root_binding_matches(
        identity,
        42,
        CertifiedLocalBackend::Ext4,
        &actual
    ));
    assert!(!root_binding_matches(
        identity,
        43,
        CertifiedLocalBackend::Ext4,
        &actual
    ));
    assert!(!root_binding_matches(
        identity,
        42,
        CertifiedLocalBackend::Xfs,
        &actual
    ));
    assert!(!root_binding_matches(
        NodeIdentity {
            device: 8,
            ..identity
        },
        42,
        CertifiedLocalBackend::Ext4,
        &actual
    ));
}

fn codec_manifest_fixture() -> Vec<ManifestEntry> {
    vec![
        ManifestEntry {
            path: vec![],
            identity: NodeIdentity {
                kind: NodeKind::Directory,
                device: 1,
                inode: 1,
                incarnation: 1,
            },
            uid: 10,
            gid: 20,
            mode: 0o700,
            content: ContentProof::Directory,
        },
        ManifestEntry {
            path: b"a".to_vec(),
            identity: NodeIdentity {
                kind: NodeKind::Directory,
                device: 1,
                inode: 2,
                incarnation: 2,
            },
            uid: 10,
            gid: 20,
            mode: 0o750,
            content: ContentProof::Directory,
        },
        ManifestEntry {
            path: b"a/file".to_vec(),
            identity: NodeIdentity {
                kind: NodeKind::Regular,
                device: 1,
                inode: 3,
                incarnation: 3,
            },
            uid: 10,
            gid: 20,
            mode: 0o640,
            content: ContentProof::Regular {
                size: 4,
                nlink: 1,
                mtime_sec: 5,
                mtime_nsec: 6,
                ctime_sec: 7,
                ctime_nsec: 8,
                sha256: [0x31; 32],
                xattrs: empty_regular_xattr_proof(),
            },
        },
        ManifestEntry {
            path: b"link".to_vec(),
            identity: NodeIdentity {
                kind: NodeKind::Symlink,
                device: 1,
                inode: 4,
                incarnation: 4,
            },
            uid: 10,
            gid: 20,
            mode: 0o777,
            content: ContentProof::Symlink {
                target: b"a/file".to_vec(),
            },
        },
    ]
}

fn encoded_v3_record(entry: &ManifestEntry) -> Vec<u8> {
    let mut bytes = Vec::new();
    emit_manifest_entry_v3(entry, &mut bytes);
    bytes
}

#[test]
fn v3_segmented_round_trip_is_the_existing_fingerprint_stream() {
    let manifest = codec_manifest_fixture();
    let old = fingerprint_manifest_v3(&manifest);
    let segments: Vec<(u64, Vec<u8>)> = stream_manifest_v3_segments(&manifest, 180)
        .unwrap()
        .into_iter()
        .map(|segment| (segment.records, segment.payload))
        .collect();

    assert!(segments.len() > 1);
    assert!(segments.iter().all(|(_, payload)| payload.len() <= 180));
    assert_eq!(segments.iter().map(|(count, _)| count).sum::<u64>(), 4);

    let mut decoder = ManifestV3Decoder::new(old.entry_count).unwrap();
    for (records, payload) in segments {
        decoder.push_segment(records, &payload).unwrap();
    }
    let decoded = decoder.finish().unwrap();
    assert_eq!(decoded.schema_version, old.schema_version);
    assert_eq!(decoded.entry_count, old.entry_count);
    assert_eq!(decoded.sha256, old.sha256);
}

#[test]
fn v3_decoder_rejects_record_count_trailing_and_order_mismatches() {
    let manifest = codec_manifest_fixture();
    let root = encoded_v3_record(&manifest[0]);

    let mut decoder = ManifestV3Decoder::new(2).unwrap();
    assert_eq!(
        decoder.push_segment(2, &root),
        Err(ManifestV3CodecError::RecordCountMismatch)
    );

    let mut trailing = root.clone();
    trailing.push(0);
    let mut decoder = ManifestV3Decoder::new(1).unwrap();
    assert_eq!(
        decoder.push_segment(1, &trailing),
        Err(ManifestV3CodecError::TrailingBytes)
    );

    let mut out_of_order = vec![manifest[0].clone(), manifest[3].clone()];
    let mut last = manifest[3].clone();
    last.path = b"a".to_vec();
    last.identity.kind = NodeKind::Directory;
    last.content = ContentProof::Directory;
    out_of_order.push(last);
    let mut payload = Vec::new();
    for entry in &out_of_order {
        emit_manifest_entry_v3(entry, &mut payload);
    }
    let mut decoder = ManifestV3Decoder::new(3).unwrap();
    assert_eq!(
        decoder.push_segment(3, &payload),
        Err(ManifestV3CodecError::InvalidOrder)
    );
}

#[test]
fn v3_decoder_validates_paths_tags_modes_and_timestamps() {
    let manifest = codec_manifest_fixture();

    let mut invalid_path = manifest[0].clone();
    invalid_path.path = b"../escape".to_vec();
    let bytes = encoded_v3_record(&invalid_path);
    let mut decoder = ManifestV3Decoder::new(1).unwrap();
    assert_eq!(
        decoder.push_segment(1, &bytes),
        Err(ManifestV3CodecError::InvalidPath)
    );

    let mut invalid_mode = manifest[0].clone();
    invalid_mode.mode = 0o10_000;
    let bytes = encoded_v3_record(&invalid_mode);
    let mut decoder = ManifestV3Decoder::new(1).unwrap();
    assert_eq!(
        decoder.push_segment(1, &bytes),
        Err(ManifestV3CodecError::InvalidMode)
    );

    let mut mismatched = manifest[0].clone();
    mismatched.content = ContentProof::Symlink {
        target: b"x".to_vec(),
    };
    let bytes = encoded_v3_record(&mismatched);
    let mut decoder = ManifestV3Decoder::new(1).unwrap();
    assert_eq!(
        decoder.push_segment(1, &bytes),
        Err(ManifestV3CodecError::KindContentMismatch)
    );

    let mut invalid_nsec = manifest[2].clone();
    if let ContentProof::Regular { mtime_nsec, .. } = &mut invalid_nsec.content {
        *mtime_nsec = 1_000_000_000;
    }
    let mut bytes = encoded_v3_record(&manifest[0]);
    bytes.extend_from_slice(&encoded_v3_record(&manifest[1]));
    bytes.extend_from_slice(&encoded_v3_record(&invalid_nsec));
    let mut decoder = ManifestV3Decoder::new(3).unwrap();
    assert_eq!(
        decoder.push_segment(3, &bytes),
        Err(ManifestV3CodecError::InvalidNanoseconds)
    );
}

const EINTR: i32 = 4;
const EIO: i32 = 5;
const ERANGE: i32 = 34;

#[derive(Clone, Copy)]
enum XattrStep {
    Count(usize),
    Bytes(&'static [u8]),
    Error(i32),
}

fn collect_script(steps: &[XattrStep]) -> CollectedXattrs {
    let mut steps = steps.iter().copied();
    let mut listing = NameListing::new();
    let mut request = ListRequest::Size;
    loop {
        request = match request {
            ListRequest::Size => listing.sized(match steps.next().unwrap() {
                XattrStep::Count(count) => Ok(count),
                XattrStep::Error(errno) => Err(errno),
                XattrStep::Bytes(bytes) => Ok(bytes.len()),
            }),
            ListRequest::Names(size) => listing.listed(match steps.next().unwrap() {
                XattrStep::Count(count) => Ok((count, vec![0; size])),
                XattrStep::Error(errno) => Err(errno),
                XattrStep::Bytes(bytes) => {
                    assert!(bytes.len() <= size);
                    let mut buffer = vec![0; size];
                    buffer[..bytes.len()].copy_from_slice(bytes);
                    Ok((bytes.len(), buffer))
                }
            }),
            ListRequest::Done(collected) => {
                assert!(
                    steps.next().is_none(),
                    "script contained unused xattr steps"
                );
                return collected;
            }
        };
    }
}

#[test]
fn xattr_enumeration_retries_are_deterministic_and_fail_closed() {
    let names = CollectedXattrs::Names(vec![b"user.z".to_vec(), b"security.a".to_vec()]);
    let list = b"user.z\0security.a\0";
    for (label, steps, expected) in [
        (
            "stable zero",
            vec![XattrStep::Count(0)],
            CollectedXattrs::Names(vec![]),
        ),
        (
            "stable list",
            vec![XattrStep::Count(list.len()), XattrStep::Bytes(list)],
            names,
        ),
        (
            "sizing EINTR then list",
            vec![
                XattrStep::Error(EINTR),
                XattrStep::Count(list.len()),
                XattrStep::Bytes(list),
            ],
            CollectedXattrs::Names(vec![b"user.z".to_vec(), b"security.a".to_vec()]),
        ),
        (
            "sizing EINTR then zero",
            vec![XattrStep::Error(EINTR), XattrStep::Count(0)],
            CollectedXattrs::Unknown,
        ),
        (
            "data EINTR then list",
            vec![
                XattrStep::Count(list.len()),
                XattrStep::Error(EINTR),
                XattrStep::Count(list.len()),
                XattrStep::Bytes(list),
            ],
            CollectedXattrs::Names(vec![b"user.z".to_vec(), b"security.a".to_vec()]),
        ),
        (
            "data ERANGE then list",
            vec![
                XattrStep::Count(list.len()),
                XattrStep::Error(ERANGE),
                XattrStep::Count(list.len()),
                XattrStep::Bytes(list),
            ],
            CollectedXattrs::Names(vec![b"user.z".to_vec(), b"security.a".to_vec()]),
        ),
        (
            "sizing retry exhaustion",
            vec![
                XattrStep::Error(EINTR),
                XattrStep::Error(EINTR),
                XattrStep::Error(EINTR),
            ],
            CollectedXattrs::Unknown,
        ),
        (
            "data retry exhaustion",
            vec![
                XattrStep::Count(2),
                XattrStep::Error(ERANGE),
                XattrStep::Count(2),
                XattrStep::Error(ERANGE),
                XattrStep::Count(2),
                XattrStep::Error(ERANGE),
            ],
            CollectedXattrs::Unknown,
        ),
        (
            "sizing ERANGE",
            vec![XattrStep::Error(ERANGE)],
            CollectedXattrs::Unknown,
        ),
        (
            "sizing nonretryable error",
            vec![XattrStep::Error(EIO)],
            CollectedXattrs::Unknown,
        ),
        (
            "data nonretryable error",
            vec![XattrStep::Count(2), XattrStep::Error(EIO)],
            CollectedXattrs::Unknown,
        ),
        (
            "oversized list",
            vec![XattrStep::Count(MAX_XATTR_NAME_LIST_BYTES + 1)],
            CollectedXattrs::Unknown,
        ),
        (
            "read exceeds allocation",
            vec![XattrStep::Count(1), XattrStep::Count(2)],
            CollectedXattrs::Unknown,
        ),
        (
            "missing trailing NUL",
            vec![XattrStep::Count(3), XattrStep::Bytes(b"abc")],
            CollectedXattrs::Unknown,
        ),
        (
            "empty name",
            vec![XattrStep::Count(3), XattrStep::Bytes(b"a\0\0")],
            CollectedXattrs::Unknown,
        ),
        (
            "positive then retry then zero",
            vec![
                XattrStep::Count(2),
                XattrStep::Error(ERANGE),
                XattrStep::Count(0),
            ],
            CollectedXattrs::Unknown,
        ),
    ] {
        assert_eq!(collect_script(&steps), expected, "{label}");
    }

    let too_many = vec![b'a', 0]
        .into_iter()
        .cycle()
        .take((MAX_XATTR_NAMES + 1) * 2)
        .collect::<Vec<_>>();
    let mut listing = NameListing::new();
    assert_eq!(
        listing.sized(Ok(too_many.len())),
        ListRequest::Names(too_many.len())
    );
    assert_eq!(
        listing.listed(Ok((too_many.len(), too_many.clone()))),
        ListRequest::Done(CollectedXattrs::Unknown)
    );
}

fn identity(kind: NodeKind, inode: u64) -> NodeIdentity {
    NodeIdentity {
        kind,
        device: 1,
        inode,
        incarnation: inode,
    }
}

fn observation(inode: u64, nlink: u64) -> RegularFileObservation {
    RegularFileObservation {
        identity: identity(NodeKind::Regular, inode),
        uid: 17,
        gid: 19,
        mode: 0o600,
        size: 3,
        nlink,
        mtime_sec: 23,
        mtime_nsec: 29,
        ctime_sec: 31,
        ctime_nsec: 37,
        sha256: Some([0x41; 32]),
        xattrs: empty_regular_xattr_proof(),
    }
}

fn fold(
    records: &[(&[u8], RegularFileObservation)],
) -> Result<RegularHardLinkTopology, HeldTreeError> {
    let mut fold = HardlinkTopologyFold::new();
    for (path, observation) in records {
        fold.observe(HardlinkScratchObservation {
            path,
            observation: *observation,
        })?;
    }
    fold.finish()
}

fn classify(
    files: &[(&[u8], RegularFileObservation)],
) -> Result<RegularHardLinkTopology, HeldTreeError> {
    let list: Vec<RegularFileReobservation> = files
        .iter()
        .map(|(path, observation)| RegularFileReobservation {
            path,
            observation: *observation,
        })
        .collect();
    classify_regular_file_topology(&list)
}

#[test]
fn links_are_counted_alike_in_memory_and_in_a_stream() {
    let linked: [(&[u8], RegularFileObservation); 3] = [
        (b"a", observation(1, 2)),
        (b"b", observation(1, 2)),
        (b"c", observation(2, 1)),
    ];
    let counted = RegularHardLinkTopology {
        multi_link_groups: 1,
        linked_entries: 2,
    };
    assert_eq!(classify(&linked), Ok(counted));
    assert_eq!(fold(&linked), Ok(counted));
    assert!(counted.contains_multi_link_group());

    let external: [(&[u8], RegularFileObservation); 1] = [(b"a", observation(1, 2))];
    let refused = Err(HeldTreeError::ExternalOrUnenumeratedHardLink(b"a".to_vec()));
    assert_eq!(classify(&external), refused);
    assert_eq!(fold(&external), refused);

    let drifted: [(&[u8], RegularFileObservation); 2] =
        [(b"a", observation(1, 2)), (b"b", observation(1, 3))];
    let refused = Err(HeldTreeError::ContentChangedDuringHash(b"a".to_vec()));
    assert_eq!(classify(&drifted), refused);
    assert_eq!(fold(&drifted), refused);
}

#[test]
fn a_scratch_record_is_read_back_as_it_was_written() {
    let mut record = Vec::new();
    encode_hardlink_scratch_record(b"a/file", observation(3, 2), &mut record).unwrap();
    let read = decode_hardlink_scratch_record(&record).unwrap().unwrap();
    assert_eq!(read.path, b"a/file");
    assert_eq!(read.observation, observation(3, 2));
    assert_eq!(
        decode_hardlink_scratch_record(&hardlink_scratch_sentinel_record()),
        Ok(None)
    );
    record.pop();
    assert!(decode_hardlink_scratch_record(&record).is_err());
}

#[test]
fn a_structure_record_is_read_back_as_it_was_written() {
    for entry in codec_manifest_fixture() {
        let evidence = entry.structure_evidence();
        let mut record = Vec::new();
        emit_structure_record(&evidence, &mut record).unwrap();
        assert_eq!(decode_structure_record(&record), Ok(evidence));
    }
    assert_eq!(
        decode_structure_record(&[]),
        Err(ManifestV3CodecError::RecordCountMismatch)
    );
}

#[test]
fn a_decoded_record_gives_the_structure_of_its_entry() {
    let manifest = codec_manifest_fixture();
    let mut payload = Vec::new();
    for entry in &manifest {
        let mut record = Vec::new();
        emit_forward_v3_record(entry, &mut record).unwrap();
        assert_eq!(record, encoded_v3_record(entry));
        assert_eq!(manifest_entry_v3_len(entry), Ok(record.len()));
        payload.extend_from_slice(&record);
    }
    assert_eq!(
        stream_manifest_v3_records(&manifest).unwrap().concat(),
        payload
    );
    let mut decoder = ManifestV3Decoder::new(4).unwrap();
    let mut visited = Vec::new();
    decoder
        .push_segment_with(4, &payload, &mut visited)
        .unwrap();
    assert_eq!(visited.len(), 4);
    assert_eq!(visited[1].kind, ManifestV3RecordKind::Directory);
    assert_eq!(
        visited[3].content,
        ManifestV3RecordContent::Symlink { target: b"a/file" }
    );
    for (record, entry) in visited.into_iter().zip(&manifest) {
        assert_eq!(
            structure_evidence_from_v3_record(record),
            entry.structure_evidence()
        );
    }
}

#[test]
fn a_decoder_refuses_what_no_manifest_holds() {
    let manifest = codec_manifest_fixture();
    let root = encoded_v3_record(&manifest[0]);
    let decode = |entries: u64, payload: &[u8]| {
        ManifestV3Decoder::new(entries)
            .unwrap()
            .push_segment(entries, payload)
    };
    assert_eq!(
        decode(1, &encoded_v3_record(&manifest[1])),
        Err(ManifestV3CodecError::InvalidRoot)
    );
    let mut orphan = root.clone();
    orphan.extend_from_slice(&encoded_v3_record(&manifest[2]));
    assert_eq!(
        decode(2, &orphan),
        Err(ManifestV3CodecError::MissingParent)
    );
    let mut tagged = root.clone();
    tagged[8] = 9;
    assert_eq!(decode(1, &tagged), Err(ManifestV3CodecError::InvalidTag));
    assert_eq!(
        ManifestV3Decoder::with_limits(
            2,
            HeldTreeLimits {
                max_entries: 1,
                ..HeldTreeLimits::default()
            }
        )
        .err(),
        Some(ManifestV3CodecError::Limit(HeldTreeLimit::Entries))
    );
    let mut short = ManifestV3Decoder::new(2).unwrap();
    short.push_segment(1, &root).unwrap();
    assert_eq!(
        short.finish(),
        Err(ManifestV3CodecError::EntryCountMismatch)
    );
    assert_eq!(
        stream_manifest_v3_segments(&manifest, 10),
        Err(ManifestV3CodecError::RecordTooLarge)
    );
    assert_eq!(validate_manifest_path(b"a/b", 2), Ok(()));
    assert_eq!(
        validate_manifest_path(b"a/b", 1),
        Err(ManifestV3CodecError::Limit(HeldTreeLimit::Depth))
    );
}

#[test]
fn directory_evidence_makes_a_tree_or_is_refused() {
    let directory = |path: &[u8], depth: u32, inode: u64| DirectoryEvidence {
        relative_path: path.to_vec(),
        depth,
        identity: identity(NodeKind::Directory, inode),
        owner_uid: 1,
        group_gid: 2,
        observed_mode: 0o755,
    };
    let tree = vec![
        directory(b"", 0, 1),
        directory(b"a", 1, 2),
        directory(b"a/b", 2, 3),
    ];
    assert_eq!(build_directory_index(&tree), Ok(()));
    let order = directories_deepest_first(&tree);
    assert_eq!(
        order.iter().map(|entry| entry.depth).collect::<Vec<_>>(),
        [2, 1, 0]
    );
    assert_eq!(
        build_directory_index(&vec![directory(b"a", 1, 2)]),
        Err(HeldTreeError::InvalidDirectoryPath(vec![]))
    );
    assert_eq!(
        build_directory_index(&vec![directory(b"", 0, 1), directory(b"a", 2, 2)]),
        Err(HeldTreeError::InvalidDirectoryPath(b"a".to_vec()))
    );
    assert_eq!(
        normal_relative_components(b"a/b"),
        Ok(vec![b"a".to_vec(), b"b".to_vec()])
    );
    assert_eq!(
        normal_relative_components(b"a/./b"),
        Err(HeldTreeError::InvalidDirectoryPath(b"a/./b".to_vec()))
    );
    assert_eq!(split_name(b"a/b"), (b"a".to_vec(), b"b".to_vec()));
}

#[test]
fn modes_are_substituted_in_the_fingerprint_alone() {
    let manifest = codec_manifest_fixture();
    let mut modes = DirectoryModes::new();
    modes.insert(vec![], 0o700);
    assert_eq!(substituted_modes(&manifest, &modes), Err(1));
    modes.insert(b"a".to_vec(), 0o755);
    modes.insert(b"a/".to_vec(), 0o750);
    assert_eq!(modes.len(), 2);
    assert_eq!(modes.get(b"a"), Some(0o750));
    assert_eq!(modes.get(b"a//."), Some(0o750));
    assert_eq!(modes.get(b"./a"), None);
    assert!(!mode_is_unused(&manifest, &modes));
    let (list, _) = substituted_modes(&manifest, &modes).unwrap();
    assert_eq!(list, vec![0o700, 0o750, 0o640, 0o777]);
    assert_eq!(
        fingerprint_v3_with_modes(&manifest, &list),
        fingerprint_manifest_v3(&manifest)
    );
    let mut other = list.clone();
    other[1] = 0o700;
    assert_ne!(
        fingerprint_v3_with_modes(&manifest, &other),
        fingerprint_manifest_v3(&manifest)
    );
    modes.insert(b"gone".to_vec(), 0o700);
    assert!(mode_is_unused(&manifest, &modes));
}

#[test]
fn a_tree_is_removed_from_its_leaves() {
    let order: Vec<Vec<u8>> = removal_plan(&codec_manifest_fixture())
        .into_iter()
        .map(|entry| entry.entry.path)
        .collect();
    assert_eq!(order.len(), 3);
    let place = |path: &[u8]| order.iter().position(|other| other == path).unwrap();
    assert!(place(b"a/file") < place(b"a"));
}

#[test]
fn an_interrupted_call_is_tried_so_often() {
    let mut retry = InterruptedRetry::new();
    assert!(retry.again(true));
    assert!(retry.again(true));
    assert!(!retry.again(true));
    assert!(!InterruptedRetry::new().again(false));
}

#[test]
fn structures_are_compared_in_path_order() {
    let manifest = codec_manifest_fixture();
    let structures = || {
        manifest
            .iter()
            .map(ManifestEntry::structure_evidence)
            .collect::<Vec<_>>()
    };
    assert_eq!(compare_structures(&manifest, &structures()), Ok(()));
    let mut removed = structures();
    removed.remove(2);
    assert_eq!(
        compare_structures(&manifest, &removed),
        Err(HeldTreeError::PostRemoved(b"a/file".to_vec()))
    );
    let mut added = structures();
    let mut more = manifest[2].structure_evidence();
    more.path = b"b".to_vec();
    added.insert(3, more);
    assert_eq!(
        compare_structures(&manifest, &added),
        Err(HeldTreeError::PostAdded(b"b".to_vec()))
    );
    let mut changed = structures();
    changed[1].normalize_directory_mode(0o700);
    assert_eq!(
        compare_structures(&manifest, &changed),
        Err(HeldTreeError::PostChanged(b"a".to_vec()))
    );
}

#[test]
fn the_type_bits_of_a_mode_name_the_kind() {
    assert_eq!(node_kind(0o040755), NodeKind::Directory);
    assert_eq!(node_kind(0o100644), NodeKind::Regular);
    assert_eq!(node_kind(0o120777), NodeKind::Symlink);
    assert_eq!(node_kind(0o010600), NodeKind::Other);
}

#[test]
fn a_birth_time_is_the_incarnation() {
    assert_eq!(
        incarnation_from_timestamp(2, 5, b"x"),
        Ok(2_000_000_005)
    );
    assert_eq!(
        incarnation_from_timestamp(-1, 0, b"x"),
        Err(HeldTreeError::StrongIncarnationUnavailable(b"x".to_vec()))
    );
    assert_eq!(
        incarnation_from_timestamp(0, 1_000_000_000, b"x"),
        Err(HeldTreeError::StrongIncarnationUnavailable(b"x".to_vec()))
    );
}

#[test]
fn a_linux_stat_is_read_with_its_device_number() {
    let stat = LinuxStatx {
        mask: STATX_IDENTITY_FIELDS | STATX_CONTENT_FIELDS,
        raw_mode: 0o100640,
        device_major: 8,
        device_minor: 1,
        inode: 11,
        uid: 10,
        gid: 20,
        size: 5,
        nlink: 1,
        birth: StatTime {
            seconds: 1,
            nanoseconds: 2,
        },
        modified: StatTime {
            seconds: 3,
            nanoseconds: 4,
        },
        changed: StatTime {
            seconds: 5,
            nanoseconds: 6,
        },
        mount_id: 7,
    };
    let seen = inspection_from_linux_statx(stat, CertifiedLocalBackend::Ext4, b"f").unwrap();
    assert_eq!(seen.identity.device, 0x801);
    assert_eq!(seen.identity.inode, 11);
    assert_eq!(seen.identity.incarnation, 1_000_000_002);
    assert_eq!(seen.identity.kind, NodeKind::Regular);
    assert_eq!(seen.mode, 0o640);
    assert!(seen.content_fields_available);
    let partial = LinuxStatx {
        mask: STATX_IDENTITY_FIELDS,
        ..stat
    };
    assert!(
        !inspection_from_linux_statx(partial, CertifiedLocalBackend::Ext4, b"f")
            .unwrap()
            .content_fields_available
    );
    let nameless = LinuxStatx { mask: 0, ..stat };
    assert_eq!(
        inspection_from_linux_statx(nameless, CertifiedLocalBackend::Ext4, b"f"),
        Err(HeldTreeError::StrongIncarnationUnavailable(b"f".to_vec()))
    );
}

#[test]
fn a_macos_stat_is_read_with_its_birth_time() {
    let stat = MacosStat {
        raw_mode: 0o040700,
        device: 3,
        inode: 4,
        uid: 5,
        gid: 6,
        size: 7,
        nlink: 2,
        birth_seconds: 1,
        birth_nanoseconds: 0,
        modified_seconds: 2,
        modified_nanoseconds: 0,
        changed_seconds: 3,
        changed_nanoseconds: 0,
    };
    let seen = inspection_from_macos_stat(stat, CertifiedLocalBackend::Apfs, b"d").unwrap();
    assert_eq!(seen.identity.kind, NodeKind::Directory);
    assert_eq!(seen.identity.incarnation, 1_000_000_000);
    assert_eq!(seen.mode, 0o700);
    assert!(
        inspection_from_macos_stat(
            MacosStat {
                birth_seconds: -1,
                ..stat
            },
            CertifiedLocalBackend::Apfs,
            b"d"
        )
        .is_err()
    );
}

#[test]
fn budgets_refuse_the_first_thing_beyond_them() {
    let limits = HeldTreeLimits {
        max_entries: 2,
        max_directories: 1,
        max_content_bytes: Some(4),
        max_xattr_bytes: 3,
        ..HeldTreeLimits::default()
    };
    let limit = |kind, limit| Err(HeldTreeError::Limit { kind, limit });
    let mut budget = Budget::new(limits, CONTENT_PROOF_VERSION);
    assert_eq!(budget.add_path(b"", 0), Ok(()));
    assert_eq!(budget.add_directory(), Ok(()));
    assert_eq!(budget.add_directory(), limit(HeldTreeLimit::Directories, 1));
    assert_eq!(budget.add_path(b"a", 1), Ok(()));
    assert_eq!(budget.add_path(b"b", 1), limit(HeldTreeLimit::Entries, 2));
    assert_eq!(budget.add_content(4), Ok(()));
    assert_eq!(
        budget.add_content(1),
        limit(HeldTreeLimit::ContentBytes, 4)
    );
    let mut budget = Budget::new(limits, CONTENT_PROOF_VERSION);
    assert_eq!(budget.add_xattrs(3), Ok(()));
    assert_eq!(budget.remaining_xattr_bytes(), 0);
    assert_eq!(
        budget.add_xattrs(1),
        limit(HeldTreeLimit::ContentBytes, 3)
    );
}

#[test]
fn an_attribute_value_is_read_within_its_bound() {
    let mut reading = ValueReading::new(4, 9);
    assert_eq!(
        reading.sized(Err(EINTR), b"f"),
        Ok(ValueRequest::Size)
    );
    assert_eq!(reading.sized(Ok(3), b"f"), Ok(ValueRequest::Value(3)));
    assert_eq!(
        reading.read(Ok((3, b"abc".to_vec())), b"f"),
        Ok(ValueRequest::Done(b"abc".to_vec()))
    );
    assert_eq!(
        ValueReading::new(4, 9).sized(Ok(5), b"f"),
        Err(HeldTreeError::Limit {
            kind: HeldTreeLimit::ContentBytes,
            limit: 9,
        })
    );
    assert_eq!(
        ValueReading::new(4, 9).sized(Err(EIO), b"f"),
        Err(HeldTreeError::XattrsChangedDuringProof(b"f".to_vec()))
    );
    assert_eq!(size_xattr_value(3, Ok(7), b"f"), Ok(Some(7)));
    assert_eq!(size_xattr_value(2, Err(EINTR), b"f"), Ok(None));
    assert_eq!(
        size_xattr_value(1, Err(EINTR), b"f"),
        Err(HeldTreeError::NonDirectoryMetadataUnavailable(
            b"f".to_vec()
        ))
    );
}

#[test]
fn attributes_are_proved_in_byte_order() {
    let names = |list: &[&[u8]]| {
        admitted_regular_xattr_names(
            AclProbe::Absent,
            CollectedXattrs::Names(list.iter().map(|name| name.to_vec()).collect()),
            XattrPlatform::Linux,
            b"f",
        )
    };
    assert_eq!(
        names(&[b"user.z", b"user.a"]),
        Ok(vec![b"user.a".to_vec(), b"user.z".to_vec()])
    );
    assert_eq!(
        names(&[b"security.selinux"]),
        Err(HeldTreeError::NonDirectoryExtendedMetadata(b"f".to_vec()))
    );
    assert_eq!(
        admitted_regular_xattr_names(
            AclProbe::Present,
            CollectedXattrs::Names(vec![]),
            XattrPlatform::Linux,
            b"f"
        ),
        Err(HeldTreeError::NonDirectoryExtendedMetadata(b"f".to_vec()))
    );
    assert_eq!(
        assess_symlink_xattrs(b"l", XattrPlatform::Linux, &CollectedXattrs::Unknown),
        Err(HeldTreeError::NonDirectoryMetadataUnavailable(
            b"l".to_vec()
        ))
    );
    let prove = |value: &[u8]| {
        let mut proving = XattrProving::new(
            vec![b"user.a".to_vec()],
            XattrReadBudget::new(8, 8),
        );
        assert_eq!(proving.next_name(), Some(&b"user.a".to_vec()));
        proving.add_value(value, b"f").unwrap();
        assert_eq!(proving.next_name(), None);
        proving.finish()
    };
    let proof: RegularXattrProof = prove(b"one");
    assert_eq!(proof.attribute_count, 1);
    assert_eq!(proof.value_bytes, 3);
    assert_ne!(proof, prove(b"two"));
    assert_eq!(proof, prove(b"one"));
}

#[test]
fn an_error_is_told_in_words() {
    assert_eq!(
        HeldTreeError::Limit {
            kind: HeldTreeLimit::PathBytes,
            limit: 1023,
        }
        .describe(""),
        "held tree exceeded its PathBytes limit of 1023"
    );
    assert_eq!(
        HeldTreeError::Certification {
            path: b"a".to_vec(),
            reason: CertificationError::AclPresent,
        }
        .describe(""),
        "directory certification failed at a: AclPresent"
    );
    assert_eq!(
        HeldTreeError::Io {
            path: b"a".to_vec(),
            errno: 13,
        }
        .describe("denied"),
        "filesystem operation failed at a: denied"
    );
    assert_eq!(
        ManifestV3CodecError::Limit(HeldTreeLimit::Depth).describe(),
        "v3 manifest exceeds its existing held-tree Depth limit"
    );
    assert_eq!(
        ManifestV3CodecError::InvalidRoot.describe(),
        "v3 manifest does not begin with its directory root"
    );
}
