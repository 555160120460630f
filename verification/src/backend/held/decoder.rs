//! Incremental decoding of a manifest stream of the third schema.
//!
//! The decoder accepts exactly the streams that encode a complete inventory in
//! canonical order: the root first, every other entry after its directory,
//! nothing twice. It keeps the previous path and the lengths of its directory
//! ancestors, not the paths of all directories.

use crate::backend::held::error::HeldTreeLimit;
use crate::backend::held::error::ManifestV3CodecError;
use crate::backend::held::limits::HeldTreeLimits;
use crate::backend::held::limits::CONTENT_PROOF_VERSION;
use crate::backend::held::manifest::content_v3;
use crate::backend::held::manifest::fingerprint_message;
use crate::backend::held::manifest::fixed_fields;
use crate::backend::held::manifest::kind_tag;
use crate::backend::held::manifest::lemma_content_len;
use crate::backend::held::manifest::lemma_record_len;
use crate::backend::held::manifest::manifest_domain_v3;
use crate::backend::held::manifest::record_head;
use crate::backend::held::manifest::record_v3;
use crate::backend::held::manifest::record_v3_with_mode;
use crate::backend::held::manifest::records_v3;
use crate::backend::held::manifest::regular_fields;
use crate::backend::held::manifest::start_fingerprint_v3;
use crate::backend::held::manifest::xattr_fields;
use crate::backend::held::model::ContentView;
use crate::backend::held::model::DurableTreeManifest;
use crate::backend::held::model::EntryView;
use crate::backend::held::model::ManifestEntry;
use crate::backend::held::model::NodeIdentity;
use crate::backend::held::model::NodeKind;
use crate::backend::held::model::RegularXattrProof;
use crate::bytes::be32;
use crate::bytes::be64;
use crate::bytes::be_i64;
use crate::bytes::bytes_equal;
use crate::bytes::from_be32;
use crate::bytes::from_be64;
use crate::bytes::from_be_i64;
use crate::bytes::get_array32;
use crate::bytes::get_i64;
use crate::bytes::get_u32;
use crate::bytes::get_u64;
use crate::bytes::to_vec;
use crate::digest::absorbed;
use crate::digest::sha256_finalize;
use crate::digest::sha256_of;
use crate::digest::sha256_update;
use crate::digest::Sha256Stream;
use crate::paths::compare_bytes;
use crate::paths::depth;
use crate::paths::is_beneath;
use crate::paths::is_canonical;
use crate::paths::is_normal_piece;
use crate::paths::parent;
use crate::paths::path_less;
use crate::paths::path_parent_bytes;
use crate::paths::piece_is_normal;
use crate::paths::pieces;
use crate::paths::split;
use crate::paths::views;
use crate::paths::Collation;
use crate::paths::PathOrder;
use crate::paths::SLASH;
use vstd::prelude::*;

verus! {

/// The largest segment payload, and so the largest record.
pub const MANIFEST_V3_MAX_SEGMENT_PAYLOAD: usize = 1_048_576;

/// Nanoseconds in a second.
pub const NANOSECONDS: u32 = 1_000_000_000;

/// The permission bits that a mode may have.
pub const MODE_BITS: u32 = 0o7777;

/// The kind of a decoded record.
#[derive(Clone, Copy, Debug, PartialEq, Eq, Structural)]
pub enum ManifestV3RecordKind {
    Directory,
    Regular,
    Symlink,
}

/// The content of a decoded record.
#[derive(Clone, Copy, Debug, PartialEq, Eq)]
pub enum ManifestV3RecordContent<'a> {
    Directory,
    Regular {
        size: u64,
        nlink: u64,
        mtime_sec: i64,
        mtime_nsec: u32,
        ctime_sec: i64,
        ctime_nsec: u32,
        sha256: [u8; 32],
        xattr_count: u64,
        xattr_value_bytes: u64,
        xattr_sha256: [u8; 32],
    },
    Symlink { target: &'a [u8] },
}

/// One validated record, borrowed from its segment.
#[derive(Clone, Copy, Debug, PartialEq, Eq)]
pub struct ManifestV3Record<'a> {
    pub path: &'a [u8],
    pub kind: ManifestV3RecordKind,
    pub device: u64,
    pub inode: u64,
    pub incarnation: u64,
    pub uid: u32,
    pub gid: u32,
    pub mode: u32,
    pub content: ManifestV3RecordContent<'a>,
}

/// The entry kind of a record.
pub open spec fn node_kind_of(kind: ManifestV3RecordKind) -> NodeKind {
    match kind {
        ManifestV3RecordKind::Directory => NodeKind::Directory,
        ManifestV3RecordKind::Regular => NodeKind::Regular,
        ManifestV3RecordKind::Symlink => NodeKind::Symlink,
    }
}

impl<'a> View for ManifestV3RecordContent<'a> {
    type V = ContentView;

    open spec fn view(&self) -> ContentView {
        match *self {
            ManifestV3RecordContent::Directory => ContentView::Directory,
            ManifestV3RecordContent::Regular {
                size,
                nlink,
                mtime_sec,
                mtime_nsec,
                ctime_sec,
                ctime_nsec,
                sha256,
                xattr_count,
                xattr_value_bytes,
                xattr_sha256,
            } => ContentView::Regular {
                size,
                nlink,
                mtime_sec,
                mtime_nsec,
                ctime_sec,
                ctime_nsec,
                sha256,
                xattrs: RegularXattrProof {
                    attribute_count: xattr_count,
                    value_bytes: xattr_value_bytes,
                    sha256: xattr_sha256,
                },
            },
            ManifestV3RecordContent::Symlink { target } => ContentView::Symlink {
                target: target@,
            },
        }
    }
}

impl<'a> View for ManifestV3Record<'a> {
    type V = EntryView;

    open spec fn view(&self) -> EntryView {
        EntryView {
            path: self.path@,
            identity: NodeIdentity {
                kind: node_kind_of(self.kind),
                device: self.device,
                inode: self.inode,
                incarnation: self.incarnation,
            },
            uid: self.uid,
            gid: self.gid,
            mode: self.mode,
            content: self.content@,
        }
    }
}

/// The contents of a list of decoded records.
pub open spec fn record_views(list: Seq<ManifestV3Record>) -> Seq<EntryView> {
    Seq::new(list.len(), |i: int| list[i]@)
}

/// How many pieces fit the depth counter.
pub open spec fn countable() -> int {
    u32::MAX + 1
}

/// Why a byte string is not the path of a manifest entry.
pub open spec fn path_error(path: Seq<u8>, max_depth: u32) -> Option<ManifestV3CodecError> {
    let parts = pieces(path, SLASH);
    if path.contains(0u8) {
        Some(ManifestV3CodecError::InvalidPath)
    } else if path.len() == 0 {
        None
    } else if exists|i: int|
        0 <= i < parts.len() && i < countable() && !is_normal_piece(#[trigger] parts[i]) {
        Some(ManifestV3CodecError::InvalidPath)
    } else if parts.len() >= countable() {
        Some(ManifestV3CodecError::LengthOverflow)
    } else if parts.len() > max_depth {
        Some(ManifestV3CodecError::Limit(HeldTreeLimit::Depth))
    } else {
        None
    }
}

/// An accepted path is canonical, has no zero byte, and is not too deep.
pub proof fn lemma_accepted_path(path: Seq<u8>, max_depth: u32)
    ensures
        path_error(path, max_depth) is None <==> {
            &&& is_canonical(path)
            &&& !path.contains(0u8)
            &&& depth(path) <= max_depth
        },
{
    let parts = pieces(path, SLASH);
    if path_error(path, max_depth) is None && path.len() > 0 {
        assert forall|i: int| 0 <= i < parts.len() implies is_normal_piece(
            #[trigger] parts[i],
        ) by {}
    }
}

/// A manifest holds no path that steps out of the tree or names an entry in two
/// ways: between the slashes of an accepted path stands neither nothing nor `.`
/// nor `..`, it has no zero byte, and it has no more names than it may; and
/// every such path is accepted.
pub proof fn law_accepted_paths_stay_below_the_root(path: Seq<u8>, max_depth: u32)
    ensures
        path_error(path, max_depth) is None <==> path.len() == 0 || {
            &&& forall|i: int| 0 <= i < path.len() ==> path[i] != 0
            &&& pieces(path, 0x2fu8).len() <= max_depth
            &&& forall|i: int| #![trigger pieces(path, 0x2fu8)[i]]
                0 <= i < pieces(path, 0x2fu8).len() ==> {
                    &&& pieces(path, 0x2fu8)[i].len() > 0
                    &&& pieces(path, 0x2fu8)[i] != seq![0x2eu8]
                    &&& pieces(path, 0x2fu8)[i] != seq![0x2eu8, 0x2eu8]
                }
        },
{
    lemma_accepted_path(path, max_depth);
    let parts = pieces(path, SLASH);
    assert(path.contains(0u8) <==> exists|i: int| 0 <= i < path.len() && path[i] == 0);
    if path.len() > 0 {
        if is_canonical(path) {
            assert forall|i: int| 0 <= i < parts.len() implies {
                &&& (#[trigger] parts[i]).len() > 0
                &&& parts[i] != seq![0x2eu8]
                &&& parts[i] != seq![0x2eu8, 0x2eu8]
            } by {
                assert(is_normal_piece(parts[i]));
            }
        } else {
            let i = choose|i: int| 0 <= i < parts.len() && !is_normal_piece(#[trigger] parts[i]);
            assert(parts[i].len() == 0 || parts[i] == seq![0x2eu8] || parts[i] == seq![
                0x2eu8,
                0x2eu8,
            ]);
        }
    }
}

/// Checks that `path` may be the path of a manifest entry.
pub fn validate_manifest_path(path: &[u8], max_depth: u32) -> (outcome: Result<
    (),
    ManifestV3CodecError,
>)
    ensures
        match path_error(path@, max_depth) {
            Some(error) => outcome == Err::<(), ManifestV3CodecError>(error),
            None => outcome is Ok,
        },
{
    let mut i: usize = 0;
    while i < path.len()
        invariant
            i <= path.len(),
            forall|j: int| 0 <= j < i ==> path@[j] != 0,
        decreases path.len() - i,
    {
        if path[i] == 0 {
            assert(path@[i as int] == 0u8);
            return Err(ManifestV3CodecError::InvalidPath);
        }
        i += 1;
    }
    assert(!path@.contains(0u8));
    if path.len() == 0 {
        return Ok(());
    }
    let parts = split(path, SLASH);
    let ghost cut = pieces(path@, SLASH);
    let mut counted: u32 = 0;
    let mut k: usize = 0;
    while k < parts.len()
        invariant
            k <= parts.len(),
            counted == k,
            cut == pieces(path@, SLASH),
            views(parts@) == cut,
            parts@.len() == cut.len(),
            path@.len() > 0,
            !path@.contains(0u8),
            forall|j: int| 0 <= j < k ==> is_normal_piece(#[trigger] cut[j]),
        decreases parts.len() - k,
    {
        let piece = &parts[k];
        assert(piece@ == views(parts@)[k as int]);
        if !piece_is_normal(piece) {
            assert(!is_normal_piece(cut[k as int]));
            return Err(ManifestV3CodecError::InvalidPath);
        }
        match counted.checked_add(1) {
            Some(next) => {
                counted = next;
            },
            None => {
                assert forall|j: int|
                    0 <= j < cut.len() && j < countable() implies is_normal_piece(
                    #[trigger] cut[j],
                ) by {
                    assert(j <= k);
                }
                return Err(ManifestV3CodecError::LengthOverflow);
            },
        }
        k += 1;
    }
    if counted > max_depth {
        return Err(ManifestV3CodecError::Limit(HeldTreeLimit::Depth));
    }
    Ok(())
}

/// The length of the path of the record that starts `bytes`.
pub open spec fn encoded_path_len(bytes: Seq<u8>) -> int {
    from_be64(bytes.subrange(0, 8)) as int
}

/// The path of the record that starts `bytes`.
pub open spec fn encoded_path(bytes: Seq<u8>) -> Seq<u8> {
    bytes.subrange(8, 8 + encoded_path_len(bytes))
}

/// The length of the symlink target of the record that starts `bytes`.
pub open spec fn encoded_target_len(bytes: Seq<u8>) -> int {
    let n = encoded_path_len(bytes);
    from_be64(bytes.subrange(46 + n, 54 + n)) as int
}

/// How long the record that starts `bytes` is.
#[verifier::opaque]
pub open spec fn encoded_len(bytes: Seq<u8>) -> int {
    let n = encoded_path_len(bytes);
    if bytes[8 + n] == 0 {
        46 + n
    } else if bytes[8 + n] == 1 {
        166 + n
    } else {
        54 + n + encoded_target_len(bytes)
    }
}

/// Thirty-two bytes as an array.
pub open spec fn as_array32(bytes: Seq<u8>) -> [u8; 32] {
    choose|array: [u8; 32]| array@ == bytes
}

/// An array is determined by its bytes.
pub proof fn lemma_as_array32(array: [u8; 32])
    ensures
        as_array32(array@) == array,
{
    let chosen = as_array32(array@);
    assert(chosen@ == array@);
    assert(chosen =~= array);
}

/// Any thirty-two bytes are the bytes of an array.
pub proof fn lemma_array32_of(bytes: Seq<u8>)
    requires
        bytes.len() == 32,
    ensures
        as_array32(bytes)@ == bytes,
{
    let array = array_with_prefix(bytes, 32);
    assert(array@ =~= bytes);
}

proof fn array_with_prefix(bytes: Seq<u8>, count: int) -> (array: [u8; 32])
    requires
        bytes.len() == 32,
        0 <= count <= 32,
    ensures
        array@.len() == 32,
        forall|i: int| 0 <= i < count ==> array@[i] == bytes[i],
    decreases count,
{
    if count == 0 {
        let array = as_array32(bytes);
        vstd::array::array_len_matches_n(&array);
        array
    } else {
        let shorter = array_with_prefix(bytes, count - 1);
        let array = vstd::array::spec_array_update(shorter, count - 1, bytes[count - 1]);
        vstd::array::axiom_spec_array_update(shorter, count - 1, bytes[count - 1]);
        array
    }
}

/// The content that the regular-file fields in `fields` encode.
pub open spec fn encoded_regular(fields: Seq<u8>) -> ContentView {
    ContentView::Regular {
        size: from_be64(fields.subrange(0, 8)),
        nlink: from_be64(fields.subrange(8, 16)),
        mtime_sec: from_be_i64(fields.subrange(16, 24)),
        mtime_nsec: from_be32(fields.subrange(24, 28)),
        ctime_sec: from_be_i64(fields.subrange(28, 36)),
        ctime_nsec: from_be32(fields.subrange(36, 40)),
        sha256: as_array32(fields.subrange(40, 72)),
        xattrs: RegularXattrProof {
            attribute_count: from_be64(fields.subrange(72, 80)),
            value_bytes: from_be64(fields.subrange(80, 88)),
            sha256: as_array32(fields.subrange(88, 120)),
        },
    }
}

/// The content of the record that starts `bytes`.
pub open spec fn encoded_content(bytes: Seq<u8>) -> ContentView {
    let n = encoded_path_len(bytes);
    if bytes[8 + n] == 0 {
        ContentView::Directory
    } else if bytes[8 + n] == 1 {
        encoded_regular(bytes.subrange(46 + n, 166 + n))
    } else {
        ContentView::Symlink {
            target: bytes.subrange(54 + n, 54 + n + encoded_target_len(bytes)),
        }
    }
}

/// The entry that the record that starts `bytes` encodes.
#[verifier::opaque]
pub open spec fn encoded_entry(bytes: Seq<u8>) -> EntryView {
    let n = encoded_path_len(bytes);
    let fixed = bytes.subrange(9 + n, 45 + n);
    EntryView {
        path: encoded_path(bytes),
        identity: NodeIdentity {
            kind: if bytes[8 + n] == 0 {
                NodeKind::Directory
            } else if bytes[8 + n] == 1 {
                NodeKind::Regular
            } else {
                NodeKind::Symlink
            },
            device: from_be64(fixed.subrange(0, 8)),
            inode: from_be64(fixed.subrange(8, 16)),
            incarnation: from_be64(fixed.subrange(16, 24)),
        },
        uid: from_be32(fixed.subrange(24, 28)),
        gid: from_be32(fixed.subrange(28, 32)),
        mode: from_be32(fixed.subrange(32, 36)),
        content: encoded_content(bytes),
    }
}

/// The attribute value bytes that an entry commits to.
pub open spec fn xattr_value_bytes(entry: EntryView) -> nat {
    match entry.content {
        ContentView::Regular { xattrs, .. } => xattrs.value_bytes as nat,
        _ => 0,
    }
}

/// The path bytes of a list of entries.
pub open spec fn path_total(list: Seq<EntryView>) -> nat
    decreases list.len(),
{
    if list.len() == 0 {
        0
    } else {
        path_total(list.drop_last()) + list.last().path.len()
    }
}

/// What a list of entries costs the manifest budget.
pub open spec fn manifest_total(list: Seq<EntryView>) -> nat
    decreases list.len(),
{
    if list.len() == 0 {
        0
    } else {
        manifest_total(list.drop_last()) + vstd::layout::size_of::<ManifestEntry>()
            + list.last().path.len()
    }
}

/// The attribute value bytes of a list of entries.
pub open spec fn xattr_total(list: Seq<EntryView>) -> nat
    decreases list.len(),
{
    if list.len() == 0 {
        0
    } else {
        xattr_total(list.drop_last()) + xattr_value_bytes(list.last())
    }
}

/// How many directories a list of entries holds.
pub open spec fn directory_total(list: Seq<EntryView>) -> nat
    decreases list.len(),
{
    if list.len() == 0 {
        0
    } else {
        directory_total(list.drop_last()) + if list.last().identity.kind == NodeKind::Directory {
            1nat
        } else {
            0
        }
    }
}

/// Every entry counts: one more entry adds the length of its path, the bytes of
/// its attribute values where it is a file, and one directory where it is one.
pub proof fn law_every_entry_counts(list: Seq<EntryView>, entry: EntryView)
    ensures
        path_total(list.push(entry)) == path_total(list) + entry.path.len(),
        manifest_total(list.push(entry)) == manifest_total(list) + vstd::layout::size_of::<
            ManifestEntry,
        >() + entry.path.len(),
        entry.content is Regular ==> xattr_total(list.push(entry)) == xattr_total(list)
            + entry.content->Regular_xattrs.value_bytes,
        entry.content !is Regular ==> xattr_total(list.push(entry)) == xattr_total(list),
        entry.identity.kind == NodeKind::Directory ==> directory_total(list.push(entry))
            == directory_total(list) + 1,
        entry.identity.kind != NodeKind::Directory ==> directory_total(list.push(entry))
            == directory_total(list),
{
    assert(list.push(entry).drop_last() =~= list);
}

/// `list` holds a directory at `path`.
pub open spec fn has_directory(list: Seq<EntryView>, path: Seq<u8>) -> bool {
    exists|i: int|
        0 <= i < list.len() && (#[trigger] list[i]).identity.kind == NodeKind::Directory
            && list[i].path == path
}

/// Why `path` may not follow the entries decoded so far.
pub open spec fn placement_error(decoded: Seq<EntryView>, path: Seq<u8>) -> Option<
    ManifestV3CodecError,
> {
    if decoded.len() == 0 {
        if path.len() == 0 {
            None
        } else {
            Some(ManifestV3CodecError::InvalidRoot)
        }
    } else if path.len() == 0 {
        Some(ManifestV3CodecError::InvalidRoot)
    } else if !path_less(decoded.last().path, path) {
        Some(ManifestV3CodecError::InvalidOrder)
    } else if !has_directory(decoded, parent(path)) {
        Some(ManifestV3CodecError::MissingParent)
    } else {
        None
    }
}

/// Why the record that starts `bytes` has no valid path in its place.
pub open spec fn record_path_error(
    limits: HeldTreeLimits,
    decoded: Seq<EntryView>,
    bytes: Seq<u8>,
) -> Option<ManifestV3CodecError> {
    if bytes.len() < 8 {
        Some(ManifestV3CodecError::RecordCountMismatch)
    } else if encoded_path_len(bytes) > usize::MAX {
        Some(ManifestV3CodecError::LengthOverflow)
    } else if bytes.len() < 8 + encoded_path_len(bytes) {
        Some(ManifestV3CodecError::RecordCountMismatch)
    } else if path_error(encoded_path(bytes), limits.max_depth) is Some {
        path_error(encoded_path(bytes), limits.max_depth)
    } else {
        placement_error(decoded, encoded_path(bytes))
    }
}

/// Why the fields between the path and the content are refused.
pub open spec fn record_fields_error(bytes: Seq<u8>) -> Option<ManifestV3CodecError> {
    let n = encoded_path_len(bytes);
    if bytes.len() < 9 + n {
        Some(ManifestV3CodecError::RecordCountMismatch)
    } else if bytes[8 + n] > 3 {
        Some(ManifestV3CodecError::InvalidTag)
    } else if bytes.len() < 45 + n {
        Some(ManifestV3CodecError::RecordCountMismatch)
    } else if encoded_entry(bytes).mode > MODE_BITS {
        Some(ManifestV3CodecError::InvalidMode)
    } else if bytes.len() < 46 + n {
        Some(ManifestV3CodecError::RecordCountMismatch)
    } else if bytes[45 + n] > 2 {
        Some(ManifestV3CodecError::InvalidTag)
    } else if bytes[8 + n] != bytes[45 + n] {
        Some(ManifestV3CodecError::KindContentMismatch)
    } else {
        None
    }
}

/// Why the content of the record that starts `bytes` cannot be read.
pub open spec fn content_shape_error(bytes: Seq<u8>) -> Option<ManifestV3CodecError> {
    let n = encoded_path_len(bytes);
    if bytes[8 + n] == 0 {
        None
    } else if bytes[8 + n] == 1 {
        if bytes.len() < 166 + n {
            Some(ManifestV3CodecError::RecordCountMismatch)
        } else {
            match encoded_content(bytes) {
                ContentView::Regular { mtime_nsec, ctime_nsec, .. } => {
                    if mtime_nsec >= NANOSECONDS || ctime_nsec >= NANOSECONDS {
                        Some(ManifestV3CodecError::InvalidNanoseconds)
                    } else {
                        None
                    }
                },
                _ => None,
            }
        }
    } else if bytes.len() < 54 + n {
        Some(ManifestV3CodecError::RecordCountMismatch)
    } else if encoded_target_len(bytes) > usize::MAX {
        Some(ManifestV3CodecError::LengthOverflow)
    } else if bytes.len() < 54 + n + encoded_target_len(bytes) {
        Some(ManifestV3CodecError::RecordCountMismatch)
    } else {
        None
    }
}

/// Why the content of the record that starts `bytes` is refused.
pub open spec fn record_content_error(
    limits: HeldTreeLimits,
    decoded: Seq<EntryView>,
    bytes: Seq<u8>,
) -> Option<ManifestV3CodecError> {
    let values = xattr_total(decoded) + xattr_value_bytes(encoded_entry(bytes));
    if content_shape_error(bytes) is Some {
        content_shape_error(bytes)
    } else if encoded_content(bytes) is Regular && values > u64::MAX {
        Some(ManifestV3CodecError::LengthOverflow)
    } else if encoded_content(bytes) is Regular && values > limits.max_xattr_bytes {
        Some(ManifestV3CodecError::Limit(HeldTreeLimit::ContentBytes))
    } else {
        None
    }
}

/// Which bound `entry` breaks when it follows `decoded`.
pub open spec fn record_budget_error(
    limits: HeldTreeLimits,
    decoded: Seq<EntryView>,
    entry: EntryView,
) -> Option<ManifestV3CodecError> {
    let paths = path_total(decoded) + entry.path.len();
    let cost = manifest_total(decoded.push(entry));
    if paths > u64::MAX {
        Some(ManifestV3CodecError::LengthOverflow)
    } else if paths > limits.max_path_bytes {
        Some(ManifestV3CodecError::Limit(HeldTreeLimit::PathBytes))
    } else if cost > u64::MAX {
        Some(ManifestV3CodecError::LengthOverflow)
    } else if cost > limits.max_manifest_bytes {
        Some(ManifestV3CodecError::Limit(HeldTreeLimit::ManifestBytes))
    } else if entry.identity.kind == NodeKind::Directory && directory_total(decoded)
        >= limits.max_directories {
        Some(ManifestV3CodecError::Limit(HeldTreeLimit::Directories))
    } else if decoded.len() == 0 && entry.identity.kind != NodeKind::Directory {
        Some(ManifestV3CodecError::InvalidRoot)
    } else {
        None
    }
}

/// Why the record that starts `bytes` is refused after `decoded`; the rules are
/// tried in this order.
#[verifier::opaque]
pub open spec fn record_error(
    limits: HeldTreeLimits,
    expected_entries: u64,
    decoded: Seq<EntryView>,
    bytes: Seq<u8>,
) -> Option<ManifestV3CodecError> {
    if decoded.len() >= expected_entries {
        Some(ManifestV3CodecError::EntryCountMismatch)
    } else if record_path_error(limits, decoded, bytes) is Some {
        record_path_error(limits, decoded, bytes)
    } else if record_fields_error(bytes) is Some {
        record_fields_error(bytes)
    } else if record_content_error(limits, decoded, bytes) is Some {
        record_content_error(limits, decoded, bytes)
    } else {
        record_budget_error(limits, decoded, encoded_entry(bytes))
    }
}


/// An accepted record is the encoding of the entry that it decodes to, and lies
/// within the input.
pub proof fn lemma_accepted_record(
    limits: HeldTreeLimits,
    expected_entries: u64,
    decoded: Seq<EntryView>,
    bytes: Seq<u8>,
)
    requires
        record_error(limits, expected_entries, decoded, bytes) is None,
    ensures
        46 <= encoded_len(bytes) <= bytes.len(),
        record_v3(encoded_entry(bytes)) == bytes.take(encoded_len(bytes)),
{
    reveal(record_error);
    reveal(encoded_entry);
    reveal(encoded_len);
    reveal(record_v3_with_mode);
    let n = encoded_path_len(bytes);
    let entry = encoded_entry(bytes);
    let fixed = bytes.subrange(9 + n, 45 + n);
    crate::bytes::lemma_be64_bytes_round_trip(bytes.subrange(0, 8));
    assert(be64(entry.path.len() as u64) == bytes.subrange(0, 8));
    crate::bytes::lemma_be64_bytes_round_trip(fixed.subrange(0, 8));
    crate::bytes::lemma_be64_bytes_round_trip(fixed.subrange(8, 16));
    crate::bytes::lemma_be64_bytes_round_trip(fixed.subrange(16, 24));
    crate::bytes::lemma_be32_bytes_round_trip(fixed.subrange(24, 28));
    crate::bytes::lemma_be32_bytes_round_trip(fixed.subrange(28, 32));
    crate::bytes::lemma_be32_bytes_round_trip(fixed.subrange(32, 36));
    assert(fixed_fields(entry, entry.mode) =~= fixed);
    assert(kind_tag(entry.identity.kind) == bytes[8 + n]);
    assert(record_head(entry, entry.mode) =~= bytes.subrange(0, 45 + n));
    if bytes[8 + n] == 0 {
        assert(content_v3(entry.content) =~= bytes.subrange(45 + n, 46 + n));
    } else if bytes[8 + n] == 1 {
        let fields = bytes.subrange(46 + n, 166 + n);
        lemma_regular_fields(fields);
        assert(content_v3(entry.content) =~= bytes.subrange(45 + n, 166 + n));
    } else {
        let m = encoded_target_len(bytes);
        crate::bytes::lemma_be64_bytes_round_trip(bytes.subrange(46 + n, 54 + n));
        assert(content_v3(entry.content) =~= bytes.subrange(45 + n, 54 + n + m));
    }
    assert(record_v3(entry) =~= bytes.take(encoded_len(bytes)));
}

/// The regular-file fields of a record are the encoding of what they decode to.
proof fn lemma_regular_fields(fields: Seq<u8>)
    requires
        fields.len() == 120,
    ensures
        content_v3(encoded_regular(fields)) == seq![1u8] + fields,
{
    crate::bytes::lemma_be64_bytes_round_trip(fields.subrange(0, 8));
    crate::bytes::lemma_be64_bytes_round_trip(fields.subrange(8, 16));
    crate::bytes::lemma_be_i64_bytes_round_trip(fields.subrange(16, 24));
    crate::bytes::lemma_be32_bytes_round_trip(fields.subrange(24, 28));
    crate::bytes::lemma_be_i64_bytes_round_trip(fields.subrange(28, 36));
    crate::bytes::lemma_be32_bytes_round_trip(fields.subrange(36, 40));
    crate::bytes::lemma_be64_bytes_round_trip(fields.subrange(72, 80));
    crate::bytes::lemma_be64_bytes_round_trip(fields.subrange(80, 88));
    lemma_array32_of(fields.subrange(40, 72));
    lemma_array32_of(fields.subrange(88, 120));
    assert(content_v3(encoded_regular(fields)) =~= seq![1u8] + fields);
}

/// An entry that a record of the third schema can hold.
pub open spec fn is_encodable(entry: EntryView) -> bool {
    &&& entry.mode <= MODE_BITS
    &&& entry.path.len() <= usize::MAX
    &&& match entry.content {
        ContentView::Legacy => false,
        ContentView::Directory => entry.identity.kind == NodeKind::Directory,
        ContentView::Regular { mtime_nsec, ctime_nsec, .. } => {
            &&& entry.identity.kind == NodeKind::Regular
            &&& mtime_nsec < NANOSECONDS
            &&& ctime_nsec < NANOSECONDS
        },
        ContentView::Symlink { target } => {
            &&& entry.identity.kind == NodeKind::Symlink
            &&& target.len() <= usize::MAX
        },
    }
}

/// What a record can hold: permission bits and nothing else of a mode, moments
/// with less than a second in nanoseconds, and content of the entry's own kind.
pub proof fn law_records_hold_what_entries_are(entry: EntryView)
    ensures
        is_encodable(entry) ==> entry.mode <= 0o7777,
        is_encodable(entry) ==> entry.identity.kind != NodeKind::Other,
        is_encodable(entry) && entry.identity.kind == NodeKind::Directory ==> entry.content
            == ContentView::Directory,
        is_encodable(entry) && entry.identity.kind == NodeKind::Regular ==> entry.content is Regular
            && entry.content->Regular_mtime_nsec < 1_000_000_000
            && entry.content->Regular_ctime_nsec < 1_000_000_000,
        is_encodable(entry) && entry.identity.kind == NodeKind::Symlink ==> entry.content
            is Symlink,
        entry.mode <= 0o7777 && entry.path.len() <= usize::MAX && entry.identity.kind
            == NodeKind::Directory && entry.content == ContentView::Directory ==> is_encodable(
            entry,
        ),
        entry.mode <= 0o7777 && entry.path.len() <= usize::MAX && entry.identity.kind
            == NodeKind::Regular && entry.content is Regular && entry.content->Regular_mtime_nsec
            < 1_000_000_000 && entry.content->Regular_ctime_nsec < 1_000_000_000 ==> is_encodable(
            entry,
        ),
        entry.mode <= 0o7777 && entry.path.len() <= usize::MAX && entry.identity.kind
            == NodeKind::Symlink && (entry.content matches ContentView::Symlink { target }
            && target.len() <= usize::MAX) ==> is_encodable(entry),
{
}

/// What precedes the content of a record decodes to the entry's own fields,
/// whatever follows it.
proof fn lemma_head_decodes(entry: EntryView, rest: Seq<u8>)
    requires
        entry.path.len() <= usize::MAX,
        entry.identity.kind != NodeKind::Other,
    ensures
        ({
            let bytes = record_head(entry, entry.mode) + rest;
            let n = entry.path.len() as int;
            &&& encoded_path_len(bytes) == n
            &&& encoded_path(bytes) == entry.path
            &&& bytes[8 + n] == kind_tag(entry.identity.kind)
            &&& encoded_entry(bytes).identity == entry.identity
            &&& encoded_entry(bytes).uid == entry.uid
            &&& encoded_entry(bytes).gid == entry.gid
            &&& encoded_entry(bytes).mode == entry.mode
            &&& bytes.skip(45 + n) == rest
        }),
{
    reveal(encoded_entry);
    let head = record_head(entry, entry.mode);
    let bytes = head + rest;
    let n = entry.path.len() as int;
    let fixed = fixed_fields(entry, entry.mode);
    crate::bytes::lemma_be64_round_trip(entry.path.len() as u64);
    assert(bytes.subrange(0, 8) =~= be64(entry.path.len() as u64));
    assert(bytes.subrange(8, 8 + n) =~= entry.path);
    assert(bytes.subrange(9 + n, 45 + n) =~= fixed);
    assert(bytes.skip(45 + n) =~= rest);
    crate::bytes::lemma_be64_round_trip(entry.identity.device);
    crate::bytes::lemma_be64_round_trip(entry.identity.inode);
    crate::bytes::lemma_be64_round_trip(entry.identity.incarnation);
    crate::bytes::lemma_be32_round_trip(entry.uid);
    crate::bytes::lemma_be32_round_trip(entry.gid);
    crate::bytes::lemma_be32_round_trip(entry.mode);
    assert(fixed.subrange(0, 8) =~= be64(entry.identity.device));
    assert(fixed.subrange(8, 16) =~= be64(entry.identity.inode));
    assert(fixed.subrange(16, 24) =~= be64(entry.identity.incarnation));
    assert(fixed.subrange(24, 28) =~= be32(entry.uid));
    assert(fixed.subrange(28, 32) =~= be32(entry.gid));
    assert(fixed.subrange(32, 36) =~= be32(entry.mode));
}

/// The content of a record decodes to the entry's content, whatever follows it.
proof fn lemma_content_decodes(entry: EntryView, bytes: Seq<u8>, tail: Seq<u8>)
    requires
        is_encodable(entry),
        encoded_path_len(bytes) == entry.path.len(),
        bytes.len() == 45 + entry.path.len() + content_v3(entry.content).len() + tail.len(),
        bytes[8int + entry.path.len()] == kind_tag(entry.identity.kind),
        bytes.skip(45int + entry.path.len()) == content_v3(entry.content) + tail,
    ensures
        encoded_content(bytes) == entry.content,
        encoded_len(bytes) == 45 + entry.path.len() + content_v3(entry.content).len(),
        bytes[45int + entry.path.len()] == kind_tag(entry.identity.kind),
        entry.content is Symlink ==> encoded_target_len(bytes) == entry.content->target.len(),
{
    reveal(encoded_len);
    let n = entry.path.len() as int;
    let content = content_v3(entry.content);
    let rest = content + tail;
    lemma_content_len(entry.content);
    assert(bytes[45 + n] == bytes.skip(45 + n)[0]);
    assert(rest[0] == content[0]);
    match entry.content {
        ContentView::Regular {
            size,
            nlink,
            mtime_sec,
            mtime_nsec,
            ctime_sec,
            ctime_nsec,
            sha256,
            xattrs,
        } => {
            let fields = regular_fields(size, nlink, mtime_sec, mtime_nsec, ctime_sec, ctime_nsec)
                + sha256@ + xattr_fields(xattrs);
            assert(content =~= seq![1u8] + fields);
            assert(bytes.subrange(46 + n, 166 + n) =~= bytes.skip(45 + n).subrange(1, 121));
            assert(rest.subrange(1, 121) =~= fields);
            lemma_regular_decodes(
                size,
                nlink,
                mtime_sec,
                mtime_nsec,
                ctime_sec,
                ctime_nsec,
                sha256,
                xattrs,
            );
        },
        ContentView::Symlink { target } => {
            crate::bytes::lemma_be64_round_trip(target.len() as u64);
            assert(bytes.subrange(46 + n, 54 + n) =~= bytes.skip(45 + n).subrange(1, 9));
            assert(rest.subrange(1, 9) =~= be64(target.len() as u64));
            assert(bytes.subrange(54 + n, 54 + n + target.len()) =~= bytes.skip(45 + n).subrange(
                9,
                9int + target.len(),
            ));
            assert(rest.subrange(9, 9int + target.len()) =~= target);
        },
        _ => {},
    }
}

/// Decoding the record of an entry gives the entry back, whatever follows the
/// record.
#[verifier::spinoff_prover]
#[verifier::rlimit(60)]
pub proof fn lemma_record_decodes(entry: EntryView, tail: Seq<u8>)
    requires
        is_encodable(entry),
    ensures
        encoded_entry(record_v3(entry) + tail) == entry,
        encoded_path(record_v3(entry) + tail) == entry.path,
        encoded_path_len(record_v3(entry) + tail) == entry.path.len(),
        encoded_len(record_v3(entry) + tail) == record_v3(entry).len(),
        record_fields_error(record_v3(entry) + tail) is None,
        content_shape_error(record_v3(entry) + tail) is None,
        encoded_content(record_v3(entry) + tail) == entry.content,
{
    let bytes = record_v3(entry) + tail;
    let rest = content_v3(entry.content) + tail;
    lemma_record_len(entry, entry.mode);
    lemma_content_len(entry.content);
    assert(bytes == record_head(entry, entry.mode) + rest) by {
        reveal(record_v3_with_mode);
        assert(bytes =~= record_head(entry, entry.mode) + rest);
    }
    lemma_head_decodes(entry, rest);
    lemma_content_decodes(entry, bytes, tail);
    assert(encoded_entry(bytes) == entry) by {
        reveal(encoded_entry);
        assert(encoded_entry(bytes) =~= entry);
    }
}

/// Decoding the fields of a regular file gives them back.
proof fn lemma_regular_decodes(
    size: u64,
    nlink: u64,
    mtime_sec: i64,
    mtime_nsec: u32,
    ctime_sec: i64,
    ctime_nsec: u32,
    sha256: [u8; 32],
    xattrs: RegularXattrProof,
)
    ensures
        encoded_regular(
            regular_fields(size, nlink, mtime_sec, mtime_nsec, ctime_sec, ctime_nsec) + sha256@
                + xattr_fields(xattrs),
        ) == (ContentView::Regular {
            size,
            nlink,
            mtime_sec,
            mtime_nsec,
            ctime_sec,
            ctime_nsec,
            sha256,
            xattrs,
        }),
{
    let fields = regular_fields(size, nlink, mtime_sec, mtime_nsec, ctime_sec, ctime_nsec)
        + sha256@ + xattr_fields(xattrs);
    vstd::array::array_len_matches_n(&sha256);
    vstd::array::array_len_matches_n(&xattrs.sha256);
    crate::bytes::lemma_be64_round_trip(size);
    crate::bytes::lemma_be64_round_trip(nlink);
    crate::bytes::lemma_be_i64_round_trip(mtime_sec);
    crate::bytes::lemma_be32_round_trip(mtime_nsec);
    crate::bytes::lemma_be_i64_round_trip(ctime_sec);
    crate::bytes::lemma_be32_round_trip(ctime_nsec);
    crate::bytes::lemma_be64_round_trip(xattrs.attribute_count);
    crate::bytes::lemma_be64_round_trip(xattrs.value_bytes);
    lemma_as_array32(sha256);
    lemma_as_array32(xattrs.sha256);
    assert(fields.subrange(0, 8) =~= be64(size));
    assert(fields.subrange(8, 16) =~= be64(nlink));
    assert(fields.subrange(16, 24) =~= be_i64(mtime_sec));
    assert(fields.subrange(24, 28) =~= be32(mtime_nsec));
    assert(fields.subrange(28, 36) =~= be_i64(ctime_sec));
    assert(fields.subrange(36, 40) =~= be32(ctime_nsec));
    assert(fields.subrange(40, 72) =~= sha256@);
    assert(fields.subrange(72, 80) =~= be64(xattrs.attribute_count));
    assert(fields.subrange(80, 88) =~= be64(xattrs.value_bytes));
    assert(fields.subrange(88, 120) =~= xattrs.sha256@);
}

/// `directory` is `path` or lies above it.
pub open spec fn is_above(directory: Seq<u8>, path: Seq<u8>) -> bool {
    directory == path || is_beneath(directory, path)
}

/// The paths of `list` are in strict canonical order.
pub open spec fn in_path_order(list: Seq<EntryView>) -> bool {
    forall|i: int, j: int|
        0 <= i < j < list.len() ==> path_less(#[trigger] list[i].path, #[trigger] list[j].path)
}

/// `ends` holds the lengths of exactly those directories of `list` that are the
/// last path or lie above it, shortest first.
pub open spec fn is_ancestor_stack(ends: Seq<usize>, list: Seq<EntryView>) -> bool {
    let last = list.last().path;
    &&& forall|k: int| #![trigger ends[k]]
        0 <= k < ends.len() ==> {
            &&& ends[k] <= last.len()
            &&& has_directory(list, last.take(ends[k] as int))
            &&& is_above(last.take(ends[k] as int), last)
        }
    &&& forall|j: int, k: int| 0 <= j < k < ends.len() ==> ends[j] < ends[k]
    &&& forall|i: int| #![trigger list[i]]
        0 <= i < list.len() && list[i].identity.kind == NodeKind::Directory && is_above(
            list[i].path,
            last,
        ) ==> exists|k: int| 0 <= k < ends.len() && #[trigger] ends[k] == list[i].path.len()
}

/// The parent of a new path was decoded as a directory exactly if it is on the
/// ancestor stack.
proof fn lemma_parent_on_stack(ends: Seq<usize>, list: Seq<EntryView>, path: Seq<u8>)
    requires
        list.len() > 0,
        in_path_order(list),
        is_ancestor_stack(ends, list),
        path.len() > 0,
        path_less(list.last().path, path),
    ensures
        has_directory(list, parent(path)) <==> exists|k: int|
            0 <= k < ends.len() && list.last().path.take(#[trigger] ends[k] as int) == parent(path),
{
    let last = list.last().path;
    let above = parent(path);
    crate::paths::lemma_parent(path);
    if has_directory(list, above) {
        let i = choose|i: int|
            0 <= i < list.len() && (#[trigger] list[i]).identity.kind == NodeKind::Directory
                && list[i].path == above;
        if i < list.len() - 1 {
            assert(path_less(list[i].path, list[list.len() - 1].path));
        }
        assert(is_beneath(above, path));
        crate::paths::lemma_subtree_contiguous(above, last, path);
        assert(is_above(list[i].path, last));
        let k = choose|k: int| 0 <= k < ends.len() && #[trigger] ends[k] == list[i].path.len();
        assert(last.take(ends[k] as int) =~= above);
    }
}

/// Keeping the stack up to the parent, and adding the new path if it is a
/// directory, gives the stack of the longer list.
proof fn lemma_stack_push(
    ends: Seq<usize>,
    list: Seq<EntryView>,
    kept: int,
    entry: EntryView,
    new_ends: Seq<usize>,
)
    requires
        list.len() > 0,
        in_path_order(list.push(entry)),
        is_ancestor_stack(ends, list),
        entry.path.len() > 0,
        entry.path.len() <= usize::MAX,
        path_less(list.last().path, entry.path),
        1 <= kept <= ends.len(),
        list.last().path.take(ends[kept - 1] as int) == parent(entry.path),
        new_ends == if entry.identity.kind == NodeKind::Directory {
            ends.take(kept).push(entry.path.len() as usize)
        } else {
            ends.take(kept)
        },
    ensures
        is_ancestor_stack(new_ends, list.push(entry)),
{
    let last = list.last().path;
    let path = entry.path;
    let above = parent(path);
    let longer = list.push(entry);
    crate::paths::lemma_parent(path);
    assert(longer.last().path == path);
    assert(above.len() == ends[kept - 1]);
    assert forall|k: int| #![trigger new_ends[k]] 0 <= k < new_ends.len() implies {
        &&& new_ends[k] <= path.len()
        &&& has_directory(longer, path.take(new_ends[k] as int))
        &&& is_above(path.take(new_ends[k] as int), path)
    } by {
        if k < kept {
            let e = ends[k] as int;
            assert(e <= above.len());
            assert(path.take(e) =~= above.take(e));
            assert(last.take(e) =~= above.take(e));
            let i = choose|i: int|
                0 <= i < list.len() && (#[trigger] list[i]).identity.kind == NodeKind::Directory
                    && list[i].path == last.take(e);
            assert(longer[i] == list[i]);
            if e == above.len() {
                assert(path.take(e) =~= above);
            } else if e > 0 {
                assert(above[e] == last[e]);
                assert(above[e] == path[e]);
            }
        } else {
            assert(path.take(path.len() as int) =~= path);
            assert(longer[list.len() as int] == entry);
        }
    }
    assert forall|j: int, k: int| 0 <= j < k < new_ends.len() implies new_ends[j]
        < new_ends[k] by {
        if k == kept {
            assert(ends[j] <= above.len());
        }
    }
    assert forall|i: int| #![trigger longer[i]]
        0 <= i < longer.len() && longer[i].identity.kind == NodeKind::Directory && is_above(
            longer[i].path,
            path,
        ) implies exists|k: int|
        0 <= k < new_ends.len() && #[trigger] new_ends[k] == longer[i].path.len() by {
        if i == list.len() {
            assert(new_ends[kept] == longer[i].path.len());
        } else {
            let d = longer[i].path;
            assert(path_less(longer[i].path, longer[list.len() as int].path));
            crate::paths::lemma_precedes_asymmetric(Collation::Components, d, path);
            assert(is_beneath(d, path));
            if d.len() > 0 {
                assert(d.len() <= above.len());
                assert(above.take(d.len() as int) =~= path.take(d.len() as int));
                if d.len() < above.len() {
                    assert(above[d.len() as int] == path[d.len() as int]);
                } else {
                    assert(above =~= d);
                }
            } else {
                assert(d =~= Seq::<u8>::empty());
                assert(above.len() == 0 ==> above =~= d);
            }
            assert(is_above(d, above));
            assert(is_above(above, last));
            if d.len() < above.len() && d.len() > 0 {
                assert(last.take(d.len() as int) =~= above.take(d.len() as int));
                assert(last[d.len() as int] == above[d.len() as int]);
            }
            assert(is_above(d, last));
            assert(list[i] == longer[i]);
            let k = choose|k: int| 0 <= k < ends.len() && #[trigger] ends[k] == list[i].path.len();
            if k > kept - 1 {
                assert(ends[kept - 1] < ends[k]);
            }
            assert(new_ends[k] == longer[i].path.len());
        }
    }
}

/// Reads everything of the record at the front of `input` but its path, which
/// was read already.
fn parse_record<'a>(input: &'a [u8], path: &'a [u8]) -> (outcome: Result<
    (ManifestV3Record<'a>, usize),
    ManifestV3CodecError,
>)
    requires
        input@.len() >= 8,
        encoded_path_len(input@) <= usize::MAX,
        8 + encoded_path_len(input@) <= input@.len(),
        path@ == encoded_path(input@),
    ensures
        match record_fields_error(input@) {
            Some(error) => outcome == Err::<(ManifestV3Record<'a>, usize), ManifestV3CodecError>(
                error,
            ),
            None => match content_shape_error(input@) {
                Some(error) => outcome == Err::<
                    (ManifestV3Record<'a>, usize),
                    ManifestV3CodecError,
                >(error),
                None => {
                    &&& outcome is Ok
                    &&& outcome->Ok_0.0@ == encoded_entry(input@)
                    &&& outcome->Ok_0.1 == encoded_len(input@)
                    &&& outcome->Ok_0.1 <= input@.len()
                },
            },
        },
{
    proof {
        reveal(encoded_entry);
        reveal(encoded_len);
    }
    let ghost bytes = input@;
    let path_len: usize = path.len();
    if input.len() - 8 - path_len < 1 {
        return Err(ManifestV3CodecError::RecordCountMismatch);
    }
    let kind_byte: u8 = input[8 + path_len];
    if kind_byte > 3 {
        return Err(ManifestV3CodecError::InvalidTag);
    }
    if input.len() - 9 - path_len < 36 {
        return Err(ManifestV3CodecError::RecordCountMismatch);
    }
    let fixed = vstd::slice::slice_subrange(input, 9 + path_len, 45 + path_len);
    assert(fixed@ == bytes.subrange(9 + path_len, 45 + path_len));
    let mode: u32 = get_u32(fixed, 32);
    if mode > MODE_BITS {
        return Err(ManifestV3CodecError::InvalidMode);
    }
    if input.len() - 45 - path_len < 1 {
        return Err(ManifestV3CodecError::RecordCountMismatch);
    }
    let content_byte: u8 = input[45 + path_len];
    if content_byte > 2 {
        return Err(ManifestV3CodecError::InvalidTag);
    }
    if kind_byte != content_byte {
        return Err(ManifestV3CodecError::KindContentMismatch);
    }
    let kind: ManifestV3RecordKind;
    let content: ManifestV3RecordContent<'a>;
    let consumed: usize;
    if kind_byte == 0 {
        kind = ManifestV3RecordKind::Directory;
        content = ManifestV3RecordContent::Directory;
        consumed = 46 + path_len;
    } else if kind_byte == 1 {
        if input.len() - 46 - path_len < 120 {
            return Err(ManifestV3CodecError::RecordCountMismatch);
        }
        let fields = vstd::slice::slice_subrange(input, 46 + path_len, 166 + path_len);
        assert(fields@ == bytes.subrange(46 + path_len, 166 + path_len));
        let mtime_nsec: u32 = get_u32(fields, 24);
        let ctime_nsec: u32 = get_u32(fields, 36);
        if mtime_nsec >= NANOSECONDS || ctime_nsec >= NANOSECONDS {
            return Err(ManifestV3CodecError::InvalidNanoseconds);
        }
        let sha256 = get_array32(fields, 40);
        let xattr_sha256 = get_array32(fields, 88);
        proof {
            lemma_as_array32(sha256);
            lemma_as_array32(xattr_sha256);
        }
        kind = ManifestV3RecordKind::Regular;
        content =
        ManifestV3RecordContent::Regular {
            size: get_u64(fields, 0),
            nlink: get_u64(fields, 8),
            mtime_sec: get_i64(fields, 16),
            mtime_nsec,
            ctime_sec: get_i64(fields, 28),
            ctime_nsec,
            sha256,
            xattr_count: get_u64(fields, 72),
            xattr_value_bytes: get_u64(fields, 80),
            xattr_sha256,
        };
        consumed = 166 + path_len;
    } else {
        if input.len() - 46 - path_len < 8 {
            return Err(ManifestV3CodecError::RecordCountMismatch);
        }
        let target_len_wide: u64 = get_u64(input, 46 + path_len);
        if target_len_wide > usize::MAX as u64 {
            return Err(ManifestV3CodecError::LengthOverflow);
        }
        let target_len: usize = target_len_wide as usize;
        if input.len() - 54 - path_len < target_len {
            return Err(ManifestV3CodecError::RecordCountMismatch);
        }
        kind = ManifestV3RecordKind::Symlink;
        content =
        ManifestV3RecordContent::Symlink {
            target: vstd::slice::slice_subrange(input, 54 + path_len, 54 + path_len + target_len),
        };
        consumed = 54 + path_len + target_len;
    }
    let record = ManifestV3Record {
        path,
        kind,
        device: get_u64(fixed, 0),
        inode: get_u64(fixed, 8),
        incarnation: get_u64(fixed, 16),
        uid: get_u32(fixed, 24),
        gid: get_u32(fixed, 28),
        mode,
        content,
    };
    assert(record@ =~= encoded_entry(bytes));
    Ok((record, consumed))
}

/// Incremental decoder of one manifest stream.
pub struct ManifestV3Decoder {
    expected_entries: u64,
    decoded_entries: u64,
    limits: HeldTreeLimits,
    path_bytes: u64,
    manifest_bytes: u64,
    xattr_bytes: u64,
    decoded_directories: u64,
    directory_ancestor_ends: Vec<usize>,
    previous_path: Option<Vec<u8>>,
    digest: Sha256Stream,
    history: Ghost<Seq<EntryView>>,
}

/// Decodes `count` records from the front of `payload`, which must hold nothing
/// else: the entries decoded by then, or the first reason to refuse.
pub open spec fn segment_outcome(
    limits: HeldTreeLimits,
    expected_entries: u64,
    decoded: Seq<EntryView>,
    count: nat,
    payload: Seq<u8>,
) -> Result<Seq<EntryView>, ManifestV3CodecError>
    decreases count,
{
    if count == 0 {
        if payload.len() == 0 {
            Ok(decoded)
        } else {
            Err(ManifestV3CodecError::TrailingBytes)
        }
    } else {
        match record_error(limits, expected_entries, decoded, payload) {
            Some(error) => Err(error),
            None => segment_outcome(
                limits,
                expected_entries,
                decoded.push(encoded_entry(payload)),
                (count - 1) as nat,
                payload.skip(encoded_len(payload)),
            ),
        }
    }
}

/// Adding an entry adds its share to every total.
proof fn lemma_totals_push(list: Seq<EntryView>, entry: EntryView)
    ensures
        path_total(list.push(entry)) == path_total(list) + entry.path.len(),
        manifest_total(list.push(entry)) == manifest_total(list) + vstd::layout::size_of::<
            ManifestEntry,
        >() + entry.path.len(),
        xattr_total(list.push(entry)) == xattr_total(list) + xattr_value_bytes(entry),
        directory_total(list.push(entry)) == directory_total(list) + if entry.identity.kind
            == NodeKind::Directory {
            1nat
        } else {
            0
        },
        records_v3(list.push(entry)) == records_v3(list) + record_v3(entry),
{
    assert(list.push(entry).drop_last() =~= list);
}

impl ManifestV3Decoder {
    /// The entries decoded so far.
    pub closed spec fn decoded(&self) -> Seq<EntryView> {
        self.history@
    }

    /// How many entries the stream must hold.
    pub closed spec fn expected(&self) -> u64 {
        self.expected_entries
    }

    /// The bounds that the stream must keep.
    pub closed spec fn bounds(&self) -> HeldTreeLimits {
        self.limits
    }

    /// The counters, the ancestor stack and the digest describe exactly the
    /// entries decoded so far.
    pub closed spec fn wf(&self) -> bool {
        let list = self.history@;
        &&& self.decoded_entries == list.len()
        &&& list.len() <= self.expected_entries <= self.limits.max_entries
        &&& self.path_bytes == path_total(list)
        &&& self.manifest_bytes == manifest_total(list)
        &&& self.xattr_bytes == xattr_total(list)
        &&& self.decoded_directories == directory_total(list)
        &&& self.path_bytes <= self.limits.max_path_bytes
        &&& self.manifest_bytes <= self.limits.max_manifest_bytes
        &&& self.xattr_bytes <= self.limits.max_xattr_bytes
        &&& self.decoded_directories <= self.limits.max_directories
        &&& in_path_order(list)
        &&& (self.previous_path is None <==> list.len() == 0)
        &&& list.len() == 0 ==> self.directory_ancestor_ends@.len() == 0
        &&& list.len() > 0 ==> {
            &&& self.previous_path->0@ == list.last().path
            &&& is_ancestor_stack(self.directory_ancestor_ends@, list)
        }
        &&& absorbed(self.digest) == manifest_domain_v3() + be64(self.expected_entries)
            + records_v3(list)
    }

    /// A decoder of a stream of `expected_entries` entries, under the production
    /// bounds.
    pub fn new(expected_entries: u64) -> (outcome: Result<Self, ManifestV3CodecError>)
        ensures
            match outcome {
                Ok(decoder) => {
                    &&& decoder.wf()
                    &&& decoder.decoded() == Seq::<EntryView>::empty()
                    &&& decoder.expected() == expected_entries
                    &&& decoder.bounds() == crate::backend::held::limits::default_limits()
                    &&& 0 < expected_entries
                        <= crate::backend::held::limits::default_limits().max_entries
                },
                Err(error) => error == if expected_entries == 0 {
                    ManifestV3CodecError::InvalidRoot
                } else {
                    ManifestV3CodecError::Limit(HeldTreeLimit::Entries)
                } && (expected_entries == 0 || expected_entries
                    > crate::backend::held::limits::default_limits().max_entries),
            },
    {
        ManifestV3Decoder::with_limits(expected_entries, HeldTreeLimits::default())
    }

    /// A decoder of a stream of `expected_entries` entries, under `limits`.
    pub fn with_limits(expected_entries: u64, limits: HeldTreeLimits) -> (outcome: Result<
        Self,
        ManifestV3CodecError,
    >)
        ensures
            match outcome {
                Ok(decoder) => {
                    &&& decoder.wf()
                    &&& decoder.decoded() == Seq::<EntryView>::empty()
                    &&& decoder.expected() == expected_entries
                    &&& decoder.bounds() == limits
                    &&& 0 < expected_entries <= limits.max_entries
                },
                Err(error) => error == if expected_entries == 0 {
                    ManifestV3CodecError::InvalidRoot
                } else {
                    ManifestV3CodecError::Limit(HeldTreeLimit::Entries)
                } && (expected_entries == 0 || expected_entries > limits.max_entries),
            },
    {
        if expected_entries == 0 {
            return Err(ManifestV3CodecError::InvalidRoot);
        }
        if expected_entries > limits.max_entries {
            return Err(ManifestV3CodecError::Limit(HeldTreeLimit::Entries));
        }
        let digest = start_fingerprint_v3(expected_entries);
        let decoder = ManifestV3Decoder {
            expected_entries,
            decoded_entries: 0,
            limits,
            path_bytes: 0,
            manifest_bytes: 0,
            xattr_bytes: 0,
            decoded_directories: 0,
            directory_ancestor_ends: Vec::new(),
            previous_path: None,
            digest,
            history: Ghost(Seq::empty()),
        };
        assert(absorbed(decoder.digest) =~= manifest_domain_v3() + be64(expected_entries)
            + records_v3(Seq::<EntryView>::empty()));
        Ok(decoder)
    }

    /// How many ancestors to keep so that `parent` is the innermost, or `None`
    /// where it is not a directory on the stack.
    fn retain_directory_parent(&self, above: &[u8]) -> (kept: Option<usize>)
        requires
            self.wf(),
            self.decoded().len() > 0,
        ensures
            match kept {
                Some(count) => {
                    &&& 1 <= count <= self.directory_ancestor_ends@.len()
                    &&& self.decoded().last().path.take(
                        self.directory_ancestor_ends@[count - 1] as int,
                    ) == above@
                },
                None => forall|k: int|
                    0 <= k < self.directory_ancestor_ends@.len() ==> self.decoded().last().path.take(
                        #[trigger] self.directory_ancestor_ends@[k] as int,
                    ) != above@,
            },
    {
        let previous = match &self.previous_path {
            Some(path) => path,
            None => {
                assert(false);
                return None;
            },
        };
        let mut count: usize = self.directory_ancestor_ends.len();
        while count > 0
            invariant
                self.wf(),
                self.decoded().len() > 0,
                previous@ == self.decoded().last().path,
                count <= self.directory_ancestor_ends@.len(),
                forall|k: int|
                    count <= k < self.directory_ancestor_ends@.len()
                        ==> self.decoded().last().path.take(
                        #[trigger] self.directory_ancestor_ends@[k] as int,
                    ) != above@,
            decreases count,
        {
            let end: usize = self.directory_ancestor_ends[count - 1];
            assert(end <= previous@.len());
            let prefix = vstd::slice::slice_subrange(previous.as_slice(), 0, end);
            assert(prefix@ =~= previous@.take(end as int));
            if bytes_equal(prefix, above) {
                return Some(count);
            }
            count -= 1;
        }
        None
    }

    /// Decodes the record at the front of `input` and says how long it is. A
    /// refused record leaves the decoder as it was.
    pub fn decode_record<'a>(&mut self, input: &'a [u8]) -> (outcome: Result<
        (ManifestV3Record<'a>, usize),
        ManifestV3CodecError,
    >)
        requires
            old(self).wf(),
        ensures
            final(self).wf(),
            final(self).expected() == old(self).expected(),
            final(self).bounds() == old(self).bounds(),
            match record_error(
                old(self).bounds(),
                old(self).expected(),
                old(self).decoded(),
                input@,
            ) {
                Some(error) => {
                    &&& outcome == Err::<(ManifestV3Record<'a>, usize), ManifestV3CodecError>(error)
                    &&& *final(self) == *old(self)
                },
                None => {
                    &&& outcome is Ok
                    &&& outcome->Ok_0.0@ == encoded_entry(input@)
                    &&& outcome->Ok_0.1 == encoded_len(input@)
                    &&& outcome->Ok_0.1 <= input@.len()
                    &&& final(self).decoded() == old(self).decoded().push(encoded_entry(input@))
                },
            },
            outcome matches Ok((record, _)) ==> is_canonical(record@.path),
    {
        let ghost list = self.history@;
        let ghost bytes = input@;
        proof {
            reveal(record_error);
            reveal(encoded_entry);
        }
        if self.decoded_entries >= self.expected_entries {
            return Err(ManifestV3CodecError::EntryCountMismatch);
        }
        if input.len() < 8 {
            return Err(ManifestV3CodecError::RecordCountMismatch);
        }
        let path_len_wide: u64 = get_u64(input, 0);
        if path_len_wide > usize::MAX as u64 {
            return Err(ManifestV3CodecError::LengthOverflow);
        }
        let path_len: usize = path_len_wide as usize;
        if input.len() - 8 < path_len {
            return Err(ManifestV3CodecError::RecordCountMismatch);
        }
        let path = vstd::slice::slice_subrange(input, 8, 8 + path_len);
        assert(path@ == encoded_path(bytes));
        validate_manifest_path(path, self.limits.max_depth)?;
        proof {
            lemma_accepted_path(path@, self.limits.max_depth);
        }
        let mut kept: usize = 0;
        if self.decoded_entries == 0 {
            if path.len() > 0 {
                return Err(ManifestV3CodecError::InvalidRoot);
            }
        } else {
            if path.len() == 0 {
                return Err(ManifestV3CodecError::InvalidRoot);
            }
            let ordered = match &self.previous_path {
                Some(previous) => compare_bytes(Collation::Components, previous, path)
                    == PathOrder::Less,
                None => true,
            };
            if !ordered {
                return Err(ManifestV3CodecError::InvalidOrder);
            }
            proof {
                lemma_parent_on_stack(self.directory_ancestor_ends@, list, path@);
            }
            match self.retain_directory_parent(path_parent_bytes(path)) {
                Some(count) => {
                    kept = count;
                },
                None => {
                    return Err(ManifestV3CodecError::MissingParent);
                },
            }
        }
        let (record, consumed) = parse_record(input, path)?;
        let mut xattr_bytes: u64 = self.xattr_bytes;
        if let ManifestV3RecordContent::Regular { xattr_value_bytes, .. } = record.content {
            match self.xattr_bytes.checked_add(xattr_value_bytes) {
                Some(sum) => {
                    xattr_bytes = sum;
                },
                None => {
                    return Err(ManifestV3CodecError::LengthOverflow);
                },
            }
            if xattr_bytes > self.limits.max_xattr_bytes {
                return Err(ManifestV3CodecError::Limit(HeldTreeLimit::ContentBytes));
            }
        }
        let ghost entry = encoded_entry(bytes);
        proof {
            lemma_totals_push(list, entry);
        }
        let path_bytes: u64 = match self.path_bytes.checked_add(path_len as u64) {
            Some(sum) => sum,
            None => return Err(ManifestV3CodecError::LengthOverflow),
        };
        if path_bytes > self.limits.max_path_bytes {
            return Err(ManifestV3CodecError::Limit(HeldTreeLimit::PathBytes));
        }
        let entry_bytes: u64 = match self.manifest_bytes.checked_add(
            core::mem::size_of::<ManifestEntry>() as u64,
        ) {
            Some(sum) => sum,
            None => return Err(ManifestV3CodecError::LengthOverflow),
        };
        let manifest_bytes: u64 = match entry_bytes.checked_add(path_len as u64) {
            Some(sum) => sum,
            None => return Err(ManifestV3CodecError::LengthOverflow),
        };
        if manifest_bytes > self.limits.max_manifest_bytes {
            return Err(ManifestV3CodecError::Limit(HeldTreeLimit::ManifestBytes));
        }
        let is_directory = record.kind == ManifestV3RecordKind::Directory;
        if is_directory && self.decoded_directories >= self.limits.max_directories {
            return Err(ManifestV3CodecError::Limit(HeldTreeLimit::Directories));
        }
        if self.decoded_entries == 0 && !is_directory {
            return Err(ManifestV3CodecError::InvalidRoot);
        }
        proof {
            lemma_accepted_record(self.limits, self.expected_entries, list, bytes);
        }
        let encoded = vstd::slice::slice_subrange(input, 0, consumed);
        assert(encoded@ =~= bytes.take(consumed as int));
        let ghost ends = self.directory_ancestor_ends@;
        self.directory_ancestor_ends.truncate(kept);
        if is_directory {
            self.decoded_directories = self.decoded_directories + 1;
            self.directory_ancestor_ends.push(path_len);
        }
        self.path_bytes = path_bytes;
        self.manifest_bytes = manifest_bytes;
        self.xattr_bytes = xattr_bytes;
        sha256_update(&mut self.digest, encoded);
        self.previous_path = Some(to_vec(path));
        self.decoded_entries = self.decoded_entries + 1;
        self.history = Ghost(list.push(entry));
        proof {
            lemma_order_push(list, entry);
            let longer = list.push(entry);
            if list.len() > 0 {
                lemma_stack_push(
                    ends,
                    list,
                    kept as int,
                    entry,
                    self.directory_ancestor_ends@,
                );
            } else {
                lemma_root_stack(entry, self.directory_ancestor_ends@);
                assert(longer =~= seq![entry]);
            }
            assert(absorbed(self.digest) =~= manifest_domain_v3() + be64(self.expected_entries)
                + records_v3(longer));
        }
        Ok((record, consumed))
    }
}

/// A path after the last one comes after all of them.
proof fn lemma_order_push(list: Seq<EntryView>, entry: EntryView)
    requires
        in_path_order(list),
        list.len() > 0 ==> path_less(list.last().path, entry.path),
    ensures
        in_path_order(list.push(entry)),
{
    let longer = list.push(entry);
    assert forall|i: int, j: int| 0 <= i < j < longer.len() implies path_less(
        #[trigger] longer[i].path,
        #[trigger] longer[j].path,
    ) by {
        if j == list.len() && i < list.len() - 1 {
            assert(path_less(list[i].path, list[list.len() - 1].path));
            crate::paths::lemma_precedes_transitive(
                Collation::Components,
                list[i].path,
                list.last().path,
                entry.path,
            );
        }
    }
}

/// The root alone is its own ancestor stack.
proof fn lemma_root_stack(entry: EntryView, ends: Seq<usize>)
    requires
        entry.path.len() == 0,
        entry.identity.kind == NodeKind::Directory,
        ends =~= seq![0usize],
    ensures
        is_ancestor_stack(ends, seq![entry]),
{
    let list = seq![entry];
    assert(entry.path.take(0) =~= entry.path);
    assert(list[0] == entry);
    assert(has_directory(list, entry.path));
    assert(ends[0] == list[0].path.len());
}

/// Why a segment is refused before its first record is read.
pub open spec fn segment_header_error(record_count: u64, payload: Seq<u8>) -> Option<
    ManifestV3CodecError,
> {
    if record_count == 0 {
        Some(ManifestV3CodecError::RecordCountMismatch)
    } else if payload.len() > MANIFEST_V3_MAX_SEGMENT_PAYLOAD {
        Some(ManifestV3CodecError::RecordTooLarge)
    } else {
        None
    }
}

/// What a segment does to a decoder: the entries decoded afterwards, or why it
/// is refused.
pub open spec fn pushed_segment(
    decoder: &ManifestV3Decoder,
    record_count: u64,
    payload: Seq<u8>,
) -> Result<Seq<EntryView>, ManifestV3CodecError> {
    match segment_header_error(record_count, payload) {
        Some(error) => Err(error),
        None => segment_outcome(
            decoder.bounds(),
            decoder.expected(),
            decoder.decoded(),
            record_count as nat,
            payload,
        ),
    }
}

impl ManifestV3Decoder {
    /// Decodes one segment of exactly `record_count` complete records. A
    /// decoder that refused a segment is to be discarded.
    pub fn push_segment(&mut self, record_count: u64, payload: &[u8]) -> (outcome: Result<
        (),
        ManifestV3CodecError,
    >)
        requires
            old(self).wf(),
        ensures
            final(self).wf(),
            final(self).expected() == old(self).expected(),
            final(self).bounds() == old(self).bounds(),
            match pushed_segment(old(self), record_count, payload@) {
                Ok(list) => outcome is Ok && final(self).decoded() == list,
                Err(error) => outcome == Err::<(), ManifestV3CodecError>(error),
            },
            old(self).decoded().is_prefix_of(final(self).decoded()),
    {
        let mut visited: Vec<ManifestV3Record> = Vec::new();
        self.push_segment_with(record_count, payload, &mut visited)
    }

    /// Decodes one segment and appends each of its records to `visited` as it is
    /// accepted. The records carry no authority: the caller acts on them only
    /// once the whole stream has been accepted.
    pub fn push_segment_with<'a>(
        &mut self,
        record_count: u64,
        payload: &'a [u8],
        visited: &mut Vec<ManifestV3Record<'a>>,
    ) -> (outcome: Result<(), ManifestV3CodecError>)
        requires
            old(self).wf(),
        ensures
            final(self).wf(),
            final(self).expected() == old(self).expected(),
            final(self).bounds() == old(self).bounds(),
            match pushed_segment(old(self), record_count, payload@) {
                Ok(list) => outcome is Ok && final(self).decoded() == list,
                Err(error) => outcome == Err::<(), ManifestV3CodecError>(error),
            },
            old(self).decoded().is_prefix_of(final(self).decoded()),
            record_views(final(visited)@) == record_views(old(visited)@)
                + final(self).decoded().skip(old(self).decoded().len() as int),
            forall|i: int|
                old(visited)@.len() <= i < final(visited)@.len() ==> is_canonical(
                    (#[trigger] final(visited)@[i])@.path,
                ),
    {
        let ghost before = self.decoded();
        let ghost seen = record_views(visited@);
        proof {
            assert(seen + before.skip(before.len() as int) =~= seen);
        }
        if record_count == 0 {
            return Err(ManifestV3CodecError::RecordCountMismatch);
        }
        if payload.len() > MANIFEST_V3_MAX_SEGMENT_PAYLOAD {
            return Err(ManifestV3CodecError::RecordTooLarge);
        }
        let mut rest: &'a [u8] = payload;
        let mut left: u64 = record_count;
        while left > 0
            invariant
                self.wf(),
                self.expected() == old(self).expected(),
                self.bounds() == old(self).bounds(),
                before == old(self).decoded(),
                seen == record_views(old(visited)@),
                before.is_prefix_of(self.decoded()),
                record_views(visited@) == seen + self.decoded().skip(before.len() as int),
                forall|i: int|
                    old(visited)@.len() <= i < visited@.len() ==> is_canonical(
                        (#[trigger] visited@[i])@.path,
                    ),
                segment_header_error(record_count, payload@) is None,
                segment_outcome(
                    old(self).bounds(),
                    old(self).expected(),
                    self.decoded(),
                    left as nat,
                    rest@,
                ) == segment_outcome(
                    old(self).bounds(),
                    old(self).expected(),
                    before,
                    record_count as nat,
                    payload@,
                ),
            decreases left,
        {
            let ghost current = self.decoded();
            let ghost listed = record_views(visited@);
            match self.decode_record(rest) {
                Ok((record, consumed)) => {
                    visited.push(record);
                    proof {
                        assert(record_views(visited@) =~= listed.push(record@));
                        assert(self.decoded().skip(before.len() as int) =~= current.skip(
                            before.len() as int,
                        ).push(record@));
                        assert(record_views(visited@) =~= seen + self.decoded().skip(
                            before.len() as int,
                        ));
                    }
                    let ghost tail = rest@.skip(consumed as int);
                    rest = vstd::slice::slice_subrange(rest, consumed, rest.len());
                    assert(rest@ =~= tail);
                    left = left - 1;
                },
                Err(error) => {
                    assert(self.decoded() == current);
                    return Err(error);
                },
            }
        }
        if rest.len() > 0 {
            return Err(ManifestV3CodecError::TrailingBytes);
        }
        Ok(())
    }

    /// Ends the stream: it must have held every expected entry.
    pub fn finish(self) -> (outcome: Result<DurableTreeManifest, ManifestV3CodecError>)
        requires
            self.wf(),
        ensures
            match outcome {
                Ok(manifest) => {
                    &&& self.decoded().len() == self.expected()
                    &&& manifest.schema_version == CONTENT_PROOF_VERSION
                    &&& manifest.entry_count == self.decoded().len()
                    &&& manifest.sha256@ == sha256_of(
                        fingerprint_message(self.decoded(), CONTENT_PROOF_VERSION),
                    )
                },
                Err(error) => {
                    &&& error == ManifestV3CodecError::EntryCountMismatch
                    &&& self.decoded().len() != self.expected()
                },
            },
    {
        if self.decoded_entries != self.expected_entries {
            return Err(ManifestV3CodecError::EntryCountMismatch);
        }
        Ok(
            DurableTreeManifest {
                schema_version: CONTENT_PROOF_VERSION,
                entry_count: self.decoded_entries,
                sha256: sha256_finalize(self.digest),
            },
        )
    }
}

/// A complete inventory within `limits`: the root first, every path canonical
/// and after the one before it, every entry in a directory of the inventory.
#[verifier::opaque]
pub open spec fn is_inventory(limits: HeldTreeLimits, list: Seq<EntryView>) -> bool {
    &&& list.len() <= limits.max_entries
    &&& in_path_order(list)
    &&& forall|i: int| #![trigger list[i]]
        0 <= i < list.len() ==> {
            &&& is_encodable(list[i])
            &&& path_error(list[i].path, limits.max_depth) is None
            &&& list[i].path.len() == 0 <==> i == 0
            &&& i == 0 ==> list[i].identity.kind == NodeKind::Directory
            &&& i > 0 ==> has_directory(list.take(i), parent(list[i].path))
        }
    &&& path_total(list) <= limits.max_path_bytes
    &&& manifest_total(list) <= limits.max_manifest_bytes
    &&& xattr_total(list) <= limits.max_xattr_bytes
    &&& directory_total(list) <= limits.max_directories
}

/// No total of a prefix exceeds that of the whole.
proof fn lemma_totals_monotone(list: Seq<EntryView>, count: int)
    requires
        0 <= count <= list.len(),
    ensures
        path_total(list.take(count)) <= path_total(list),
        manifest_total(list.take(count)) <= manifest_total(list),
        xattr_total(list.take(count)) <= xattr_total(list),
        directory_total(list.take(count)) <= directory_total(list),
    decreases list.len() - count,
{
    if count == list.len() {
        assert(list.take(count) =~= list);
    } else {
        lemma_totals_monotone(list, count + 1);
        assert(list.take(count + 1) =~= list.take(count).push(list[count]));
        lemma_totals_push(list.take(count), list[count]);
    }
}

/// The record of the next entry of an inventory is accepted, whatever follows
/// it, and decodes to that entry.
pub proof fn lemma_next_record_accepted(
    limits: HeldTreeLimits,
    list: Seq<EntryView>,
    index: int,
    tail: Seq<u8>,
)
    requires
        is_inventory(limits, list),
        0 <= index < list.len(),
    ensures
        record_error(
            limits,
            list.len() as u64,
            list.take(index),
            record_v3(list[index]) + tail,
        ) is None,
        encoded_entry(record_v3(list[index]) + tail) == list[index],
        encoded_len(record_v3(list[index]) + tail) == record_v3(list[index]).len(),
{
    reveal(is_inventory);
    let entry = list[index];
    let done = list.take(index);
    let bytes = record_v3(entry) + tail;
    lemma_record_decodes(entry, tail);
    lemma_record_len(entry, entry.mode);
    lemma_content_len(entry.content);
    lemma_totals_push(done, entry);
    assert(done.push(entry) =~= list.take(index + 1));
    lemma_totals_monotone(list, index + 1);
    if index > 0 {
        assert(done.last() == list[index - 1]);
        assert(path_less(list[index - 1].path, list[index].path));
    }
    assert(placement_error(done, entry.path) is None);
    assert(record_path_error(limits, done, bytes) is None);
    assert(record_content_error(limits, done, bytes) is None);
    assert(record_budget_error(limits, done, entry) is None);
    reveal(record_error);
}

/// The records of a longer run start with the record of its first entry.
proof fn lemma_records_front(list: Seq<EntryView>)
    requires
        list.len() > 0,
    ensures
        records_v3(list) == record_v3(list[0]) + records_v3(list.skip(1)),
    decreases list.len(),
{
    if list.len() == 1 {
        assert(list.drop_last() =~= Seq::<EntryView>::empty());
        assert(list.skip(1) =~= Seq::<EntryView>::empty());
        assert(records_v3(list) =~= record_v3(list[0]) + records_v3(list.skip(1)));
    } else {
        lemma_records_front(list.drop_last());
        assert(list.drop_last().skip(1) =~= list.skip(1).drop_last());
        assert(records_v3(list) =~= record_v3(list[0]) + records_v3(list.skip(1)));
    }
}

/// A manifest survives its stream: however an inventory is cut into runs of
/// records, a decoder that has the entries before a run accepts the run and
/// then has the entries through its end.
pub proof fn law_inventory_round_trip(
    limits: HeldTreeLimits,
    list: Seq<EntryView>,
    start: int,
    end: int,
)
    requires
        is_inventory(limits, list),
        0 <= start <= end <= list.len(),
    ensures
        segment_outcome(
            limits,
            list.len() as u64,
            list.take(start),
            (end - start) as nat,
            records_v3(list.subrange(start, end)),
        ) == Ok::<Seq<EntryView>, ManifestV3CodecError>(list.take(end)),
    decreases end - start,
{
    let run = list.subrange(start, end);
    if start == end {
        assert(run =~= Seq::<EntryView>::empty());
    } else {
        lemma_records_front(run);
        let tail = records_v3(run.skip(1));
        assert(run.skip(1) =~= list.subrange(start + 1, end));
        lemma_next_record_accepted(limits, list, start, tail);
        let payload = records_v3(run);
        assert(payload == record_v3(list[start]) + tail);
        assert(payload.skip(encoded_len(payload)) =~= tail);
        assert(list.take(start).push(list[start]) =~= list.take(start + 1));
        law_inventory_round_trip(limits, list, start + 1, end);
    }
}

/// Nothing else is accepted: where decoding started from an inventory, what it
/// accepts extends that inventory, and the payload is the encoding of what was
/// added.
pub proof fn law_accepted_stream_is_inventory(
    limits: HeldTreeLimits,
    expected_entries: u64,
    decoded: Seq<EntryView>,
    count: nat,
    payload: Seq<u8>,
)
    requires
        expected_entries <= limits.max_entries,
        is_inventory(limits, decoded),
        segment_outcome(limits, expected_entries, decoded, count, payload) is Ok,
    ensures
        ({
            let list = segment_outcome(limits, expected_entries, decoded, count, payload)->Ok_0;
            &&& is_inventory(limits, list)
            &&& decoded.is_prefix_of(list)
            &&& list.len() == decoded.len() + count
            &&& payload == records_v3(list.skip(decoded.len() as int))
        }),
    decreases count,
{
    let list = segment_outcome(limits, expected_entries, decoded, count, payload)->Ok_0;
    if count == 0 {
        assert(list.skip(decoded.len() as int) =~= Seq::<EntryView>::empty());
        assert(payload =~= Seq::<u8>::empty());
    } else {
        let entry = encoded_entry(payload);
        let longer = decoded.push(entry);
        lemma_accepted_record(limits, expected_entries, decoded, payload);
        lemma_inventory_push(limits, expected_entries, decoded, payload);
        let rest = payload.skip(encoded_len(payload));
        law_accepted_stream_is_inventory(
            limits,
            expected_entries,
            longer,
            (count - 1) as nat,
            rest,
        );
        let added = list.skip(decoded.len() as int);
        assert(list[decoded.len() as int] == longer[decoded.len() as int]);
        assert(added[0] == entry);
        assert(added.skip(1) =~= list.skip(longer.len() as int));
        lemma_records_front(added);
        assert(payload =~= payload.take(encoded_len(payload)) + rest);
        assert(decoded.is_prefix_of(list)) by {
            assert(longer.take(decoded.len() as int) =~= decoded);
        }
    }
}

/// What acceptance says of the entry of a record.
proof fn lemma_accepted_fields(
    limits: HeldTreeLimits,
    expected_entries: u64,
    decoded: Seq<EntryView>,
    bytes: Seq<u8>,
)
    requires
        record_error(limits, expected_entries, decoded, bytes) is None,
    ensures
        decoded.len() < expected_entries,
        is_encodable(encoded_entry(bytes)),
        path_error(encoded_entry(bytes).path, limits.max_depth) is None,
        placement_error(decoded, encoded_entry(bytes).path) is None,
        record_budget_error(limits, decoded, encoded_entry(bytes)) is None,
        xattr_total(decoded) + xattr_value_bytes(encoded_entry(bytes)) <= limits.max_xattr_bytes
            || !(encoded_entry(bytes).content is Regular),
{
    reveal(record_error);
    reveal(encoded_entry);
}

/// An accepted record extends an inventory to an inventory.
proof fn lemma_inventory_push(
    limits: HeldTreeLimits,
    expected_entries: u64,
    decoded: Seq<EntryView>,
    bytes: Seq<u8>,
)
    requires
        expected_entries <= limits.max_entries,
        is_inventory(limits, decoded),
        record_error(limits, expected_entries, decoded, bytes) is None,
    ensures
        is_inventory(limits, decoded.push(encoded_entry(bytes))),
{
    let entry = encoded_entry(bytes);
    let longer = decoded.push(entry);
    lemma_accepted_fields(limits, expected_entries, decoded, bytes);
    lemma_totals_push(decoded, entry);
    reveal(is_inventory);
    lemma_order_push(decoded, entry);
    assert forall|i: int| #![trigger longer[i]] 0 <= i < longer.len() implies {
        &&& is_encodable(longer[i])
        &&& path_error(longer[i].path, limits.max_depth) is None
        &&& longer[i].path.len() == 0 <==> i == 0
        &&& i == 0 ==> longer[i].identity.kind == NodeKind::Directory
        &&& i > 0 ==> has_directory(longer.take(i), parent(longer[i].path))
    } by {
        assert(longer.take(i) =~= decoded.take(i));
        if i < decoded.len() {
            assert(longer[i] == decoded[i]);
        } else {
            assert(decoded.take(i) =~= decoded);
        }
    }
}

} // verus!
