//! The binary manifest of a tree and its fingerprints.
//!
//! A record holds raw path bytes and fixed-width big-endian fields, so that no
//! display form, text encoding or byte order of the machine enters a
//! fingerprint. A fingerprint is the digest of a domain string, the number of
//! entries, and the records in order.

use crate::backend::held::error::ManifestV3CodecError;
use crate::backend::held::limits::CONTENT_PROOF_VERSION;
use crate::backend::held::limits::LEGACY_CONTENT_PROOF_VERSION;
use crate::backend::held::limits::NAMES_ONLY_VERSION;
use crate::backend::held::model::entries;
use crate::backend::held::model::ContentProof;
use crate::backend::held::model::ContentView;
use crate::backend::held::model::EntryView;
use crate::backend::held::model::HeldTreeFingerprint;
use crate::backend::held::model::ManifestEntry;
use crate::backend::held::model::NodeKind;
use crate::backend::held::model::RegularXattrProof;
use crate::bytes::append;
use crate::bytes::be32;
use crate::bytes::be64;
use crate::bytes::be_i64;
use crate::bytes::put_i64;
use crate::bytes::put_u32;
use crate::bytes::put_u64;
use crate::digest::absorbed;
use crate::digest::sha256_finalize;
use crate::digest::sha256_new;
use crate::digest::sha256_of;
use crate::digest::sha256_update;
use crate::digest::Sha256Stream;
use vstd::prelude::*;

verus! {

/// The domain of a fingerprint of the first schema:
/// `degu-held-tree-manifest-v1` and a zero byte.
pub open spec fn manifest_domain_v1() -> Seq<u8> {
    seq![
        0x64u8, 0x65, 0x67, 0x75, 0x2d, 0x68, 0x65, 0x6c, 0x64, 0x2d, 0x74, 0x72, 0x65, 0x65, 0x2d,
        0x6d, 0x61, 0x6e, 0x69, 0x66, 0x65, 0x73, 0x74, 0x2d, 0x76, 0x31, 0x00,
    ]
}

/// `degu-held-tree-manifest-v2-content` and a zero byte.
pub open spec fn manifest_domain_v2() -> Seq<u8> {
    seq![
        0x64u8, 0x65, 0x67, 0x75, 0x2d, 0x68, 0x65, 0x6c, 0x64, 0x2d, 0x74, 0x72, 0x65, 0x65, 0x2d,
        0x6d, 0x61, 0x6e, 0x69, 0x66, 0x65, 0x73, 0x74, 0x2d, 0x76, 0x32, 0x2d, 0x63, 0x6f, 0x6e,
        0x74, 0x65, 0x6e, 0x74, 0x00,
    ]
}

/// `degu-held-tree-manifest-v3-content-xattr` and a zero byte.
pub open spec fn manifest_domain_v3() -> Seq<u8> {
    seq![
        0x64u8, 0x65, 0x67, 0x75, 0x2d, 0x68, 0x65, 0x6c, 0x64, 0x2d, 0x74, 0x72, 0x65, 0x65, 0x2d,
        0x6d, 0x61, 0x6e, 0x69, 0x66, 0x65, 0x73, 0x74, 0x2d, 0x76, 0x33, 0x2d, 0x63, 0x6f, 0x6e,
        0x74, 0x65, 0x6e, 0x74, 0x2d, 0x78, 0x61, 0x74, 0x74, 0x72, 0x00,
    ]
}

/// `degu-regular-xattr-proof-v3` and a zero byte.
pub open spec fn xattr_proof_domain_v3() -> Seq<u8> {
    seq![
        0x64u8, 0x65, 0x67, 0x75, 0x2d, 0x72, 0x65, 0x67, 0x75, 0x6c, 0x61, 0x72, 0x2d, 0x78, 0x61,
        0x74, 0x74, 0x72, 0x2d, 0x70, 0x72, 0x6f, 0x6f, 0x66, 0x2d, 0x76, 0x33, 0x00,
    ]
}

/// The domain of the first schema.
pub fn domain_v1() -> (domain: Vec<u8>)
    ensures
        domain@ == manifest_domain_v1(),
{
    let domain = vec![
        0x64u8, 0x65, 0x67, 0x75, 0x2d, 0x68, 0x65, 0x6c, 0x64, 0x2d, 0x74, 0x72, 0x65, 0x65, 0x2d,
        0x6d, 0x61, 0x6e, 0x69, 0x66, 0x65, 0x73, 0x74, 0x2d, 0x76, 0x31, 0x00,
    ];
    assert(domain@ =~= manifest_domain_v1());
    domain
}

/// The domain of the second schema.
pub fn domain_v2() -> (domain: Vec<u8>)
    ensures
        domain@ == manifest_domain_v2(),
{
    let domain = vec![
        0x64u8, 0x65, 0x67, 0x75, 0x2d, 0x68, 0x65, 0x6c, 0x64, 0x2d, 0x74, 0x72, 0x65, 0x65, 0x2d,
        0x6d, 0x61, 0x6e, 0x69, 0x66, 0x65, 0x73, 0x74, 0x2d, 0x76, 0x32, 0x2d, 0x63, 0x6f, 0x6e,
        0x74, 0x65, 0x6e, 0x74, 0x00,
    ];
    assert(domain@ =~= manifest_domain_v2());
    domain
}

/// The domain of the third schema.
pub fn domain_v3() -> (domain: Vec<u8>)
    ensures
        domain@ == manifest_domain_v3(),
{
    let domain = vec![
        0x64u8, 0x65, 0x67, 0x75, 0x2d, 0x68, 0x65, 0x6c, 0x64, 0x2d, 0x74, 0x72, 0x65, 0x65, 0x2d,
        0x6d, 0x61, 0x6e, 0x69, 0x66, 0x65, 0x73, 0x74, 0x2d, 0x76, 0x33, 0x2d, 0x63, 0x6f, 0x6e,
        0x74, 0x65, 0x6e, 0x74, 0x2d, 0x78, 0x61, 0x74, 0x74, 0x72, 0x00,
    ];
    assert(domain@ =~= manifest_domain_v3());
    domain
}

/// The domain of an attribute proof.
pub fn xattr_domain_v3() -> (domain: Vec<u8>)
    ensures
        domain@ == xattr_proof_domain_v3(),
{
    let domain = vec![
        0x64u8, 0x65, 0x67, 0x75, 0x2d, 0x72, 0x65, 0x67, 0x75, 0x6c, 0x61, 0x72, 0x2d, 0x78, 0x61,
        0x74, 0x74, 0x72, 0x2d, 0x70, 0x72, 0x6f, 0x6f, 0x66, 0x2d, 0x76, 0x33, 0x00,
    ];
    assert(domain@ =~= xattr_proof_domain_v3());
    domain
}

/// The commitment of a regular file without ordinary attributes.
pub fn empty_regular_xattr_proof() -> (proof: RegularXattrProof)
    ensures
        proof.attribute_count == 0,
        proof.value_bytes == 0,
        proof.sha256@ == sha256_of(xattr_proof_domain_v3() + be64(0)),
{
    let mut message = xattr_domain_v3();
    put_u64(&mut message, 0);
    let mut digest = sha256_new();
    sha256_update(&mut digest, &message);
    proof {
        assert(absorbed(digest) =~= xattr_proof_domain_v3() + be64(0));
    }
    RegularXattrProof { attribute_count: 0, value_bytes: 0, sha256: sha256_finalize(digest) }
}

/// The byte that stands for an entry kind.
pub open spec fn kind_tag(kind: NodeKind) -> u8 {
    match kind {
        NodeKind::Directory => 0,
        NodeKind::Regular => 1,
        NodeKind::Symlink => 2,
        NodeKind::Other => 3,
    }
}

/// The byte that stands for `kind`.
pub fn node_kind_tag(kind: NodeKind) -> (tag: u8)
    ensures
        tag == kind_tag(kind),
{
    match kind {
        NodeKind::Directory => 0,
        NodeKind::Regular => 1,
        NodeKind::Symlink => 2,
        NodeKind::Other => 3,
    }
}

/// The identity, ownership and mode fields of a record.
pub open spec fn fixed_fields(entry: EntryView, mode: u32) -> Seq<u8> {
    be64(entry.identity.device) + be64(entry.identity.inode) + be64(entry.identity.incarnation)
        + be32(entry.uid) + be32(entry.gid) + be32(mode)
}

/// What precedes the content of a record: the length of the path, the path, the
/// kind, and the fixed fields.
pub open spec fn record_head(entry: EntryView, mode: u32) -> Seq<u8> {
    be64(entry.path.len() as u64) + entry.path + seq![kind_tag(entry.identity.kind)]
        + fixed_fields(entry, mode)
}

/// The size, link count and times of a regular file.
pub open spec fn regular_fields(
    size: u64,
    nlink: u64,
    mtime_sec: i64,
    mtime_nsec: u32,
    ctime_sec: i64,
    ctime_nsec: u32,
) -> Seq<u8> {
    be64(size) + be64(nlink) + be_i64(mtime_sec) + be32(mtime_nsec) + be_i64(ctime_sec) + be32(
        ctime_nsec,
    )
}

/// The commitment to the attributes of a regular file.
pub open spec fn xattr_fields(xattrs: RegularXattrProof) -> Seq<u8> {
    be64(xattrs.attribute_count) + be64(xattrs.value_bytes) + xattrs.sha256@
}

/// The content of a record of the third schema.
pub open spec fn content_v3(content: ContentView) -> Seq<u8> {
    match content {
        ContentView::Legacy => seq![0xffu8],
        ContentView::Directory => seq![0u8],
        ContentView::Regular {
            size,
            nlink,
            mtime_sec,
            mtime_nsec,
            ctime_sec,
            ctime_nsec,
            sha256,
            xattrs,
        } => seq![1u8] + regular_fields(size, nlink, mtime_sec, mtime_nsec, ctime_sec, ctime_nsec)
            + sha256@ + xattr_fields(xattrs),
        ContentView::Symlink { target } => seq![2u8] + be64(target.len() as u64) + target,
    }
}

/// The content of a record of the second schema, which knows no attributes.
pub open spec fn content_v2(content: ContentView) -> Seq<u8> {
    match content {
        ContentView::Legacy => seq![0xffu8],
        ContentView::Directory => seq![0u8],
        ContentView::Regular {
            size,
            nlink,
            mtime_sec,
            mtime_nsec,
            ctime_sec,
            ctime_nsec,
            sha256,
            ..
        } => seq![1u8] + regular_fields(size, nlink, mtime_sec, mtime_nsec, ctime_sec, ctime_nsec)
            + sha256@,
        ContentView::Symlink { target } => seq![2u8] + be64(target.len() as u64) + target,
    }
}

/// A record of the third schema, with `mode` in place of the entry's own.
#[verifier::opaque]
pub open spec fn record_v3_with_mode(entry: EntryView, mode: u32) -> Seq<u8> {
    record_head(entry, mode) + content_v3(entry.content)
}

/// A record of the third schema.
pub open spec fn record_v3(entry: EntryView) -> Seq<u8> {
    record_v3_with_mode(entry, entry.mode)
}

/// A record of any schema.
pub open spec fn record_for(entry: EntryView, schema_version: u16) -> Seq<u8> {
    if schema_version == NAMES_ONLY_VERSION {
        record_head(entry, entry.mode)
    } else if schema_version == CONTENT_PROOF_VERSION {
        record_v3(entry)
    } else {
        record_head(entry, entry.mode) + content_v2(entry.content)
    }
}

/// The records of a manifest, one after the other.
pub open spec fn records_for(manifest: Seq<EntryView>, schema_version: u16) -> Seq<u8>
    decreases manifest.len(),
{
    if manifest.len() == 0 {
        Seq::empty()
    } else {
        records_for(manifest.drop_last(), schema_version) + record_for(
            manifest.last(),
            schema_version,
        )
    }
}

/// The records of a manifest of the third schema.
pub open spec fn records_v3(manifest: Seq<EntryView>) -> Seq<u8> {
    records_for(manifest, CONTENT_PROOF_VERSION)
}

/// The domain of a schema.
pub open spec fn domain_for(schema_version: u16) -> Seq<u8> {
    if schema_version == NAMES_ONLY_VERSION {
        manifest_domain_v1()
    } else if schema_version == LEGACY_CONTENT_PROOF_VERSION {
        manifest_domain_v2()
    } else {
        manifest_domain_v3()
    }
}

/// The message whose digest is the fingerprint of a manifest.
pub open spec fn fingerprint_message(manifest: Seq<EntryView>, schema_version: u16) -> Seq<u8> {
    domain_for(schema_version) + be64(manifest.len() as u64) + records_for(manifest, schema_version)
}

/// `fingerprint` commits to `manifest` under `schema_version`.
pub open spec fn is_fingerprint(
    fingerprint: HeldTreeFingerprint,
    manifest: Seq<EntryView>,
    schema_version: u16,
) -> bool {
    &&& fingerprint.schema_version == schema_version
    &&& fingerprint.entry_count == manifest.len()
    &&& fingerprint.sha256@ == sha256_of(fingerprint_message(manifest, schema_version))
}

fn put_record_head(entry: &ManifestEntry, mode: u32, out: &mut Vec<u8>)
    ensures
        final(out)@ == old(out)@ + record_head(entry@, mode),
{
    put_u64(out, entry.path.len() as u64);
    append(out, &entry.path);
    out.push(node_kind_tag(entry.identity.kind));
    put_u64(out, entry.identity.device);
    put_u64(out, entry.identity.inode);
    put_u64(out, entry.identity.incarnation);
    put_u32(out, entry.uid);
    put_u32(out, entry.gid);
    put_u32(out, mode);
    assert(out@ =~= old(out)@ + record_head(entry@, mode));
}

fn put_content(content: &ContentProof, with_xattrs: bool, out: &mut Vec<u8>)
    ensures
        final(out)@ == old(out)@ + if with_xattrs {
            content_v3(content@)
        } else {
            content_v2(content@)
        },
{
    let ghost expected = if with_xattrs {
        content_v3(content@)
    } else {
        content_v2(content@)
    };
    match content {
        ContentProof::Legacy => {
            out.push(0xff);
        },
        ContentProof::Directory => {
            out.push(0);
        },
        ContentProof::Regular {
            size,
            nlink,
            mtime_sec,
            mtime_nsec,
            ctime_sec,
            ctime_nsec,
            sha256,
            xattrs,
        } => {
            out.push(1);
            put_u64(out, *size);
            put_u64(out, *nlink);
            put_i64(out, *mtime_sec);
            put_u32(out, *mtime_nsec);
            put_i64(out, *ctime_sec);
            put_u32(out, *ctime_nsec);
            append(out, sha256);
            if with_xattrs {
                put_u64(out, xattrs.attribute_count);
                put_u64(out, xattrs.value_bytes);
                append(out, &xattrs.sha256);
            }
        },
        ContentProof::Symlink { target } => {
            out.push(2);
            put_u64(out, target.len() as u64);
            append(out, target);
        },
    }
    assert(out@ =~= old(out)@ + expected);
}

/// Appends the record of `entry`, with `mode` in place of its own.
pub fn emit_manifest_entry_v3_with_mode(entry: &ManifestEntry, mode: u32, out: &mut Vec<u8>)
    ensures
        final(out)@ == old(out)@ + record_v3_with_mode(entry@, mode),
{
    put_record_head(entry, mode, out);
    put_content(&entry.content, true, out);
    reveal(record_v3_with_mode);
    assert(out@ =~= old(out)@ + record_v3_with_mode(entry@, mode));
}

/// Appends the record of `entry`.
pub fn emit_manifest_entry_v3(entry: &ManifestEntry, out: &mut Vec<u8>)
    ensures
        final(out)@ == old(out)@ + record_v3(entry@),
{
    emit_manifest_entry_v3_with_mode(entry, entry.mode, out);
}

/// How long the content of a record is.
pub proof fn lemma_content_len(content: ContentView)
    ensures
        content_v3(content).len() == match content {
            ContentView::Legacy => 1,
            ContentView::Directory => 1,
            ContentView::Regular { .. } => 121,
            ContentView::Symlink { target } => 9 + target.len(),
        },
{
    if let ContentView::Regular { sha256, xattrs, .. } = content {
        vstd::array::array_len_matches_n(&sha256);
        vstd::array::array_len_matches_n(&xattrs.sha256);
    }
}

/// How long a record is.
pub proof fn lemma_record_len(entry: EntryView, mode: u32)
    ensures
        record_head(entry, mode).len() == 45 + entry.path.len(),
        record_v3_with_mode(entry, mode).len() == 45 + entry.path.len() + content_v3(
            entry.content,
        ).len(),
{
    reveal(record_v3_with_mode);
}

/// The length of the record of `entry`, where it fits.
pub fn manifest_entry_v3_len(entry: &ManifestEntry) -> (outcome: Result<
    usize,
    ManifestV3CodecError,
>)
    ensures
        match outcome {
            Ok(length) => length == record_v3(entry@).len(),
            Err(error) => error == ManifestV3CodecError::LengthOverflow && record_v3(entry@).len()
                > usize::MAX,
        },
{
    proof {
        lemma_record_len(entry@, entry.mode);
        lemma_content_len(entry@.content);
    }
    let head: usize = match entry.path.len().checked_add(45) {
        Some(length) => length,
        None => return Err(ManifestV3CodecError::LengthOverflow),
    };
    let content: usize = match &entry.content {
        ContentProof::Legacy => 1,
        ContentProof::Directory => 1,
        ContentProof::Regular { .. } => 121,
        ContentProof::Symlink { target } => match target.len().checked_add(9) {
            Some(length) => length,
            None => return Err(ManifestV3CodecError::LengthOverflow),
        },
    };
    match head.checked_add(content) {
        Some(length) => Ok(length),
        None => Err(ManifestV3CodecError::LengthOverflow),
    }
}

fn start_fingerprint(domain: &[u8], entry_count: u64) -> (digest: Sha256Stream)
    ensures
        absorbed(digest) == domain@ + be64(entry_count),
{
    let mut count: Vec<u8> = Vec::new();
    put_u64(&mut count, entry_count);
    let mut digest = sha256_new();
    sha256_update(&mut digest, domain);
    sha256_update(&mut digest, &count);
    assert(absorbed(digest) =~= domain@ + be64(entry_count));
    digest
}

/// A digest that has taken in the domain and the entry count of the third
/// schema.
pub(crate) fn start_fingerprint_v3(entry_count: u64) -> (digest: Sha256Stream)
    ensures
        absorbed(digest) == manifest_domain_v3() + be64(entry_count),
{
    let domain = domain_v3();
    start_fingerprint(&domain, entry_count)
}

/// Appending one entry appends its record.
pub proof fn lemma_records_push(manifest: Seq<EntryView>, schema_version: u16, index: int)
    requires
        0 <= index < manifest.len(),
    ensures
        records_for(manifest.take(index + 1), schema_version) == records_for(
            manifest.take(index),
            schema_version,
        ) + record_for(manifest[index], schema_version),
{
    let longer = manifest.take(index + 1);
    assert(longer.drop_last() =~= manifest.take(index));
    assert(longer.last() == manifest[index]);
}

/// The fingerprint of `manifest` under one of the three schemas.
pub fn fingerprint_manifest(manifest: &[ManifestEntry], schema_version: u16) -> (fingerprint:
    HeldTreeFingerprint)
    requires
        schema_version == NAMES_ONLY_VERSION || schema_version == LEGACY_CONTENT_PROOF_VERSION
            || schema_version == CONTENT_PROOF_VERSION,
    ensures
        is_fingerprint(fingerprint, entries(manifest@), schema_version),
{
    let domain = if schema_version == NAMES_ONLY_VERSION {
        domain_v1()
    } else if schema_version == LEGACY_CONTENT_PROOF_VERSION {
        domain_v2()
    } else {
        domain_v3()
    };
    let mut digest = start_fingerprint(&domain, manifest.len() as u64);
    let ghost views = entries(manifest@);
    let ghost start = domain_for(schema_version) + be64(manifest@.len() as u64);
    let mut i: usize = 0;
    proof {
        assert(views.take(0) =~= Seq::<EntryView>::empty());
        assert(absorbed(digest) =~= start + records_for(views.take(0), schema_version));
    }
    while i < manifest.len()
        invariant
            i <= manifest.len(),
            views == entries(manifest@),
            schema_version == NAMES_ONLY_VERSION || schema_version == LEGACY_CONTENT_PROOF_VERSION
                || schema_version == CONTENT_PROOF_VERSION,
            absorbed(digest) == start + records_for(views.take(i as int), schema_version),
        decreases manifest.len() - i,
    {
        let entry = &manifest[i];
        let mut record: Vec<u8> = Vec::new();
        put_record_head(entry, entry.mode, &mut record);
        if schema_version != NAMES_ONLY_VERSION {
            put_content(&entry.content, schema_version == CONTENT_PROOF_VERSION, &mut record);
        }
        reveal(record_v3_with_mode);
        assert(record@ =~= record_for(entry@, schema_version));
        sha256_update(&mut digest, &record);
        proof {
            lemma_records_push(views, schema_version, i as int);
            assert(absorbed(digest) =~= start + records_for(views.take(i + 1), schema_version));
        }
        i += 1;
    }
    assert(views.take(i as int) =~= views);
    HeldTreeFingerprint {
        schema_version,
        entry_count: manifest.len() as u64,
        sha256: sha256_finalize(digest),
    }
}

/// The fingerprint of the first schema.
pub fn fingerprint_manifest_v1(manifest: &[ManifestEntry]) -> (fingerprint: HeldTreeFingerprint)
    ensures
        is_fingerprint(fingerprint, entries(manifest@), NAMES_ONLY_VERSION),
{
    fingerprint_manifest(manifest, NAMES_ONLY_VERSION)
}

/// The fingerprint of the second schema.
pub fn fingerprint_manifest_v2(manifest: &[ManifestEntry]) -> (fingerprint: HeldTreeFingerprint)
    ensures
        is_fingerprint(fingerprint, entries(manifest@), LEGACY_CONTENT_PROOF_VERSION),
{
    fingerprint_manifest(manifest, LEGACY_CONTENT_PROOF_VERSION)
}

/// The fingerprint of the third schema.
pub fn fingerprint_manifest_v3(manifest: &[ManifestEntry]) -> (fingerprint: HeldTreeFingerprint)
    ensures
        is_fingerprint(fingerprint, entries(manifest@), CONTENT_PROOF_VERSION),
{
    fingerprint_manifest(manifest, CONTENT_PROOF_VERSION)
}

/// The records of the three schemas build on each other: the first commits to where
/// an entry lies, what it is, whose it is and its mode; the second adds the content,
/// and the third the attributes of files.
pub proof fn law_schemas_build_on_each_other(entry: EntryView)
    ensures
        record_for(entry, 1) == be64(entry.path.len() as u64) + entry.path + seq![
            kind_tag(entry.identity.kind),
        ] + (be64(entry.identity.device) + be64(entry.identity.inode) + be64(
            entry.identity.incarnation,
        ) + be32(entry.uid) + be32(entry.gid) + be32(entry.mode)),
        record_for(entry, 2) == record_for(entry, 1) + content_v2(entry.content),
        record_for(entry, 3) == record_for(entry, 1) + content_v3(entry.content),
        entry.content matches ContentView::Regular { xattrs, .. } ==> content_v3(entry.content)
            == content_v2(entry.content) + (be64(xattrs.attribute_count) + be64(xattrs.value_bytes)
            + xattrs.sha256@),
        !(entry.content is Regular) ==> content_v3(entry.content) == content_v2(entry.content),
{
    reveal(record_v3_with_mode);
}

/// Each kind has a byte of its own.
pub proof fn law_kinds_are_told_apart(first: NodeKind, second: NodeKind)
    ensures
        kind_tag(first) == kind_tag(second) ==> first == second,
{
}

} // verus!
