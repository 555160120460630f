//! Private scratch records: final regular-file observations, keyed by file, and
//! structure evidence.

use crate::backend::held::decoder::as_array32;
use crate::backend::held::decoder::lemma_as_array32;
use crate::backend::held::decoder::path_error;
use crate::backend::held::decoder::validate_manifest_path;
use crate::backend::held::decoder::ManifestV3Record;
use crate::backend::held::decoder::ManifestV3RecordContent;
use crate::backend::held::decoder::ManifestV3RecordKind;
use crate::backend::held::decoder::MANIFEST_V3_MAX_SEGMENT_PAYLOAD;
use crate::backend::held::decoder::MODE_BITS;
use crate::backend::held::decoder::NANOSECONDS;
use crate::backend::held::error::ManifestV3CodecError;
use crate::backend::held::limits::default_limits;
use crate::backend::held::limits::HeldTreeLimits;
use crate::backend::held::manifest::kind_tag;
use crate::backend::held::manifest::node_kind_tag;
use crate::backend::held::manifest::regular_fields;
use crate::backend::held::manifest::xattr_fields;
use crate::backend::held::model::structure_of;
use crate::backend::held::model::NodeIdentity;
use crate::backend::held::model::NodeKind;
use crate::backend::held::model::RegularFileObservation;
use crate::backend::held::model::RegularXattrProof;
use crate::backend::held::model::StabilityView;
use crate::backend::held::model::StructureEvidence;
use crate::backend::held::model::StructureStability;
use crate::backend::held::model::StructureView;
use crate::backend::held::topology::LinkView;
use crate::backend::held::topology_fold::HardlinkScratchObservation;
use crate::bytes::append;
use crate::bytes::be32;
use crate::bytes::be64;
use crate::bytes::be_i64;
use crate::bytes::bytes_equal;
use crate::bytes::from_be32;
use crate::bytes::from_be64;
use crate::bytes::from_be_i64;
use crate::bytes::get_array32;
use crate::bytes::get_i64;
use crate::bytes::get_u32;
use crate::bytes::get_u64;
use crate::bytes::put_i64;
use crate::bytes::put_u32;
use crate::bytes::put_u64;
use crate::bytes::to_vec;
use vstd::prelude::*;

verus! {

/// The sort key of an observation: a one, the file, the path.
pub open spec fn link_key(link: LinkView) -> Seq<u8> {
    seq![1u8] + be64(link.observation.identity.device) + be64(link.observation.identity.inode)
        + be64(link.observation.identity.incarnation) + link.path
}

/// What follows the key of an observation.
#[verifier::opaque]
pub open spec fn link_fields(observation: RegularFileObservation) -> Seq<u8> {
    be32(observation.uid) + be32(observation.gid) + be32(observation.mode) + regular_fields(
        observation.size,
        observation.nlink,
        observation.mtime_sec,
        observation.mtime_nsec,
        observation.ctime_sec,
        observation.ctime_nsec,
    ) + observation.sha256->0@ + xattr_fields(observation.xattrs)
}

/// The scratch record of an observation: the length of the key, the key, the
/// fields.
pub open spec fn link_record(link: LinkView) -> Seq<u8> {
    be64((25 + link.path.len()) as u64) + link_key(link) + link_fields(link.observation)
}

/// The record that ends the scratch.
pub open spec fn sentinel() -> Seq<u8> {
    be64(1) + seq![0u8]
}

/// The record that ends the scratch.
pub fn hardlink_scratch_sentinel_record() -> (record: Vec<u8>)
    ensures
        record@ == sentinel(),
{
    let mut record: Vec<u8> = Vec::new();
    put_u64(&mut record, 1);
    record.push(0);
    assert(record@ =~= sentinel());
    record
}

/// Why an observation cannot be written to scratch.
pub open spec fn link_record_error(link: LinkView) -> Option<ManifestV3CodecError> {
    if 165 + link.path.len() > usize::MAX {
        Some(ManifestV3CodecError::LengthOverflow)
    } else if 165 + link.path.len() > MANIFEST_V3_MAX_SEGMENT_PAYLOAD {
        Some(ManifestV3CodecError::RecordTooLarge)
    } else if link.observation.sha256 is None {
        Some(ManifestV3CodecError::KindContentMismatch)
    } else {
        None
    }
}

/// Replaces `encoded` by the scratch record of an observation.
pub fn encode_hardlink_scratch_record(
    path: &[u8],
    observation: RegularFileObservation,
    encoded: &mut Vec<u8>,
) -> (outcome: Result<(), ManifestV3CodecError>)
    ensures
        match link_record_error(LinkView { path: path@, observation }) {
            Some(error) => {
                &&& outcome == Err::<(), ManifestV3CodecError>(error)
                &&& final(encoded)@ == old(encoded)@
            },
            None => {
                &&& outcome is Ok
                &&& final(encoded)@ == link_record(LinkView { path: path@, observation })
            },
        },
{
    let record_len: usize = match path.len().checked_add(165) {
        Some(length) => length,
        None => return Err(ManifestV3CodecError::LengthOverflow),
    };
    if record_len > MANIFEST_V3_MAX_SEGMENT_PAYLOAD {
        return Err(ManifestV3CodecError::RecordTooLarge);
    }
    let sha256 = match observation.sha256 {
        Some(sha256) => sha256,
        None => return Err(ManifestV3CodecError::KindContentMismatch),
    };
    let key_len: usize = 25 + path.len();
    encoded.clear();
    put_u64(encoded, key_len as u64);
    encoded.push(1);
    put_u64(encoded, observation.identity.device);
    put_u64(encoded, observation.identity.inode);
    put_u64(encoded, observation.identity.incarnation);
    append(encoded, path);
    put_u32(encoded, observation.uid);
    put_u32(encoded, observation.gid);
    put_u32(encoded, observation.mode);
    put_u64(encoded, observation.size);
    put_u64(encoded, observation.nlink);
    put_i64(encoded, observation.mtime_sec);
    put_u32(encoded, observation.mtime_nsec);
    put_i64(encoded, observation.ctime_sec);
    put_u32(encoded, observation.ctime_nsec);
    append(encoded, &sha256);
    put_u64(encoded, observation.xattrs.attribute_count);
    put_u64(encoded, observation.xattrs.value_bytes);
    append(encoded, &observation.xattrs.sha256);
    reveal(link_fields);
    assert(encoded@ =~= link_record(LinkView { path: path@, observation }));
    Ok(())
}

/// The length of the key of a scratch record.
pub open spec fn record_key_len(record: Seq<u8>) -> int {
    from_be64(record.subrange(0, 8)) as int
}

/// The observation that a scratch record holds.
#[verifier::opaque]
pub open spec fn recorded_link(record: Seq<u8>) -> LinkView {
    let n = record_key_len(record);
    let fields = record.subrange(8 + n, 140 + n);
    LinkView {
        path: record.subrange(33, 8 + n),
        observation: RegularFileObservation {
            identity: NodeIdentity {
                kind: NodeKind::Regular,
                device: from_be64(record.subrange(9, 17)),
                inode: from_be64(record.subrange(17, 25)),
                incarnation: from_be64(record.subrange(25, 33)),
            },
            uid: from_be32(fields.subrange(0, 4)),
            gid: from_be32(fields.subrange(4, 8)),
            mode: from_be32(fields.subrange(8, 12)),
            size: from_be64(fields.subrange(12, 20)),
            nlink: from_be64(fields.subrange(20, 28)),
            mtime_sec: from_be_i64(fields.subrange(28, 36)),
            mtime_nsec: from_be32(fields.subrange(36, 40)),
            ctime_sec: from_be_i64(fields.subrange(40, 48)),
            ctime_nsec: from_be32(fields.subrange(48, 52)),
            sha256: Some(as_array32(fields.subrange(52, 84))),
            xattrs: RegularXattrProof {
                attribute_count: from_be64(fields.subrange(84, 92)),
                value_bytes: from_be64(fields.subrange(92, 100)),
                sha256: as_array32(fields.subrange(100, 132)),
            },
        },
    }
}

/// The key of the record is the single zero of the sentinel.
pub open spec fn has_sentinel_key(record: Seq<u8>) -> bool {
    record_key_len(record) == 1 && record[8] == 0
}

/// Why a scratch record is refused.
pub open spec fn scratch_error(record: Seq<u8>) -> Option<ManifestV3CodecError> {
    let n = record_key_len(record);
    if record.len() < 8 {
        Some(ManifestV3CodecError::RecordCountMismatch)
    } else if n > usize::MAX {
        Some(ManifestV3CodecError::LengthOverflow)
    } else if record.len() < 8 + n {
        Some(ManifestV3CodecError::RecordCountMismatch)
    } else if has_sentinel_key(record) {
        if record.len() == 9 {
            None
        } else {
            Some(ManifestV3CodecError::TrailingBytes)
        }
    } else if n < 25 || record[8] != 1 {
        Some(ManifestV3CodecError::InvalidPath)
    } else if n == 25 {
        Some(ManifestV3CodecError::InvalidPath)
    } else if path_error(record.subrange(33, 8 + n), default_limits().max_depth) is Some {
        path_error(record.subrange(33, 8 + n), default_limits().max_depth)
    } else if record.len() < 140 + n {
        Some(ManifestV3CodecError::RecordCountMismatch)
    } else if record.len() > 140 + n {
        Some(ManifestV3CodecError::TrailingBytes)
    } else if recorded_link(record).observation.mode > MODE_BITS {
        Some(ManifestV3CodecError::InvalidMode)
    } else if recorded_link(record).observation.mtime_nsec >= NANOSECONDS || recorded_link(
        record,
    ).observation.ctime_nsec >= NANOSECONDS {
        Some(ManifestV3CodecError::InvalidNanoseconds)
    } else {
        None
    }
}

/// Reads a scratch record; the sentinel holds no observation.
pub fn decode_hardlink_scratch_record<'a>(record: &'a [u8]) -> (outcome: Result<
    Option<HardlinkScratchObservation<'a>>,
    ManifestV3CodecError,
>)
    ensures
        match scratch_error(record@) {
            Some(error) => outcome == Err::<
                Option<HardlinkScratchObservation<'a>>,
                ManifestV3CodecError,
            >(error),
            None => {
                &&& outcome is Ok
                &&& outcome->Ok_0 is None <==> has_sentinel_key(record@)
                &&& outcome->Ok_0 is Some ==> outcome->Ok_0->0@ == recorded_link(record@)
            },
        },
{
    let ghost bytes = record@;
    if record.len() < 8 {
        return Err(ManifestV3CodecError::RecordCountMismatch);
    }
    let key_len_wide: u64 = get_u64(record, 0);
    if key_len_wide > usize::MAX as u64 {
        return Err(ManifestV3CodecError::LengthOverflow);
    }
    let key_len: usize = key_len_wide as usize;
    if record.len() - 8 < key_len {
        return Err(ManifestV3CodecError::RecordCountMismatch);
    }
    if key_len == 1 && record[8] == 0 {
        if record.len() == 9 {
            return Ok(None);
        }
        return Err(ManifestV3CodecError::TrailingBytes);
    }
    if key_len < 25 || record[8] != 1 {
        return Err(ManifestV3CodecError::InvalidPath);
    }
    let path = vstd::slice::slice_subrange(record, 33, 8 + key_len);
    if path.len() == 0 {
        return Err(ManifestV3CodecError::InvalidPath);
    }
    let limits = HeldTreeLimits::default();
    validate_manifest_path(path, limits.max_depth)?;
    if record.len() - 8 - key_len < 132 {
        return Err(ManifestV3CodecError::RecordCountMismatch);
    }
    if record.len() - 8 - key_len > 132 {
        return Err(ManifestV3CodecError::TrailingBytes);
    }
    let fields = vstd::slice::slice_subrange(record, 8 + key_len, 140 + key_len);
    let sha256 = get_array32(fields, 52);
    let xattr_sha256 = get_array32(fields, 100);
    let observation = RegularFileObservation {
        identity: NodeIdentity {
            kind: NodeKind::Regular,
            device: get_u64(record, 9),
            inode: get_u64(record, 17),
            incarnation: get_u64(record, 25),
        },
        uid: get_u32(fields, 0),
        gid: get_u32(fields, 4),
        mode: get_u32(fields, 8),
        size: get_u64(fields, 12),
        nlink: get_u64(fields, 20),
        mtime_sec: get_i64(fields, 28),
        mtime_nsec: get_u32(fields, 36),
        ctime_sec: get_i64(fields, 40),
        ctime_nsec: get_u32(fields, 48),
        sha256: Some(sha256),
        xattrs: RegularXattrProof {
            attribute_count: get_u64(fields, 84),
            value_bytes: get_u64(fields, 92),
            sha256: xattr_sha256,
        },
    };
    let link = HardlinkScratchObservation { path, observation };
    proof {
        lemma_as_array32(sha256);
        lemma_as_array32(xattr_sha256);
        assert(link@ == recorded_link(bytes)) by {
            reveal(recorded_link);
            assert(link@ =~= recorded_link(bytes));
        }
    }
    if observation.mode > MODE_BITS {
        return Err(ManifestV3CodecError::InvalidMode);
    }
    if observation.mtime_nsec >= NANOSECONDS || observation.ctime_nsec >= NANOSECONDS {
        return Err(ManifestV3CodecError::InvalidNanoseconds);
    }
    Ok(Some(link))
}

/// An observation that a scratch record can hold.
pub open spec fn is_recordable(link: LinkView) -> bool {
    &&& link_record_error(link) is None
    &&& link.path.len() > 0
    &&& path_error(link.path, default_limits().max_depth) is None
    &&& link.observation.identity.kind == NodeKind::Regular
    &&& link.observation.mode <= MODE_BITS
    &&& link.observation.mtime_nsec < NANOSECONDS
    &&& link.observation.ctime_nsec < NANOSECONDS
}

/// The fields of an observation decode to themselves.
proof fn lemma_link_fields(observation: RegularFileObservation)
    requires
        observation.sha256 is Some,
    ensures
        ({
            let fields = link_fields(observation);
            &&& fields.len() == 132
            &&& from_be32(fields.subrange(0, 4)) == observation.uid
            &&& from_be32(fields.subrange(4, 8)) == observation.gid
            &&& from_be32(fields.subrange(8, 12)) == observation.mode
            &&& from_be64(fields.subrange(12, 20)) == observation.size
            &&& from_be64(fields.subrange(20, 28)) == observation.nlink
            &&& from_be_i64(fields.subrange(28, 36)) == observation.mtime_sec
            &&& from_be32(fields.subrange(36, 40)) == observation.mtime_nsec
            &&& from_be_i64(fields.subrange(40, 48)) == observation.ctime_sec
            &&& from_be32(fields.subrange(48, 52)) == observation.ctime_nsec
            &&& as_array32(fields.subrange(52, 84)) == observation.sha256->0
            &&& from_be64(fields.subrange(84, 92)) == observation.xattrs.attribute_count
            &&& from_be64(fields.subrange(92, 100)) == observation.xattrs.value_bytes
            &&& as_array32(fields.subrange(100, 132)) == observation.xattrs.sha256
        }),
{
    reveal(link_fields);
    let fields = link_fields(observation);
    let sha256 = observation.sha256->0;
    let xattrs = observation.xattrs;
    vstd::array::array_len_matches_n(&sha256);
    vstd::array::array_len_matches_n(&xattrs.sha256);
    crate::bytes::lemma_be32_round_trip(observation.uid);
    crate::bytes::lemma_be32_round_trip(observation.gid);
    crate::bytes::lemma_be32_round_trip(observation.mode);
    crate::bytes::lemma_be64_round_trip(observation.size);
    crate::bytes::lemma_be64_round_trip(observation.nlink);
    crate::bytes::lemma_be_i64_round_trip(observation.mtime_sec);
    crate::bytes::lemma_be32_round_trip(observation.mtime_nsec);
    crate::bytes::lemma_be_i64_round_trip(observation.ctime_sec);
    crate::bytes::lemma_be32_round_trip(observation.ctime_nsec);
    crate::bytes::lemma_be64_round_trip(xattrs.attribute_count);
    crate::bytes::lemma_be64_round_trip(xattrs.value_bytes);
    lemma_as_array32(sha256);
    lemma_as_array32(xattrs.sha256);
    assert(fields.subrange(0, 4) =~= be32(observation.uid));
    assert(fields.subrange(4, 8) =~= be32(observation.gid));
    assert(fields.subrange(8, 12) =~= be32(observation.mode));
    assert(fields.subrange(12, 20) =~= be64(observation.size));
    assert(fields.subrange(20, 28) =~= be64(observation.nlink));
    assert(fields.subrange(28, 36) =~= be_i64(observation.mtime_sec));
    assert(fields.subrange(36, 40) =~= be32(observation.mtime_nsec));
    assert(fields.subrange(40, 48) =~= be_i64(observation.ctime_sec));
    assert(fields.subrange(48, 52) =~= be32(observation.ctime_nsec));
    assert(fields.subrange(52, 84) =~= sha256@);
    assert(fields.subrange(84, 92) =~= be64(xattrs.attribute_count));
    assert(fields.subrange(92, 100) =~= be64(xattrs.value_bytes));
    assert(fields.subrange(100, 132) =~= xattrs.sha256@);
}

/// What is written to scratch is read back: the record of an observation is
/// accepted and holds that observation, and the sentinel holds none.
pub proof fn law_scratch_round_trip(link: LinkView)
    requires
        is_recordable(link),
    ensures
        scratch_error(link_record(link)) is None,
        !has_sentinel_key(link_record(link)),
        recorded_link(link_record(link)) == link,
        scratch_error(sentinel()) is None,
        has_sentinel_key(sentinel()),
{
    let record = link_record(link);
    let key = link_key(link);
    let fields = link_fields(link.observation);
    let n = 25 + link.path.len() as int;
    lemma_link_fields(link.observation);
    crate::bytes::lemma_be64_round_trip(n as u64);
    crate::bytes::lemma_be64_round_trip(1);
    crate::bytes::lemma_be64_round_trip(link.observation.identity.device);
    crate::bytes::lemma_be64_round_trip(link.observation.identity.inode);
    crate::bytes::lemma_be64_round_trip(link.observation.identity.incarnation);
    assert(sentinel().subrange(0, 8) =~= be64(1));
    assert(record.subrange(0, 8) =~= be64(n as u64));
    assert(key.len() == n);
    assert(record.subrange(8 + n, 140 + n) =~= fields);
    assert(record[8] == key[0]);
    assert(record.subrange(9, 17) =~= be64(link.observation.identity.device));
    assert(record.subrange(17, 25) =~= be64(link.observation.identity.inode));
    assert(record.subrange(25, 33) =~= be64(link.observation.identity.incarnation));
    assert(record.subrange(33, 8 + n) =~= link.path);
    assert(recorded_link(record) == link) by {
        reveal(recorded_link);
        assert(recorded_link(record) =~= link);
    }
}

/// `DHS1`, which marks a structure record.
pub open spec fn structure_magic() -> Seq<u8> {
    seq![0x44u8, 0x48, 0x53, 0x31]
}

/// The stable metadata of a structure record.
pub open spec fn stability_fields(stability: StabilityView) -> Seq<u8> {
    match stability {
        StabilityView::Regular { size, nlink, mtime_sec, mtime_nsec, ctime_sec, ctime_nsec } =>
            regular_fields(size, nlink, mtime_sec, mtime_nsec, ctime_sec, ctime_nsec),
        StabilityView::Symlink { target } => be64(target.len() as u64) + target,
        _ => Seq::empty(),
    }
}

/// What precedes the stable metadata of a structure record.
#[verifier::opaque]
pub open spec fn structure_head(evidence: StructureView) -> Seq<u8> {
    be64(evidence.path.len() as u64) + evidence.path + structure_magic() + seq![
        kind_tag(evidence.identity.kind),
    ] + be64(evidence.identity.device) + be64(evidence.identity.inode) + be64(
        evidence.identity.incarnation,
    ) + be32(evidence.uid) + be32(evidence.gid) + be32(evidence.mode)
}

/// The structure record of an entry.
pub open spec fn structure_record(evidence: StructureView) -> Seq<u8> {
    structure_head(evidence) + stability_fields(evidence.stability)
}

/// Why evidence cannot be written as a structure record.
pub open spec fn structure_record_error(evidence: StructureView) -> Option<ManifestV3CodecError> {
    if evidence.stability is Legacy {
        Some(ManifestV3CodecError::KindContentMismatch)
    } else if structure_record(evidence).len() > MANIFEST_V3_MAX_SEGMENT_PAYLOAD {
        Some(ManifestV3CodecError::RecordTooLarge)
    } else {
        None
    }
}

/// The bytes that mark a structure record.
fn structure_magic_bytes() -> (magic: Vec<u8>)
    ensures
        magic@ == structure_magic(),
{
    let magic = vec![0x44u8, 0x48, 0x53, 0x31];
    assert(magic@ =~= structure_magic());
    magic
}

/// Replaces `encoded` by the structure record of `evidence`.
pub fn emit_structure_record(evidence: &StructureEvidence, encoded: &mut Vec<u8>) -> (outcome:
    Result<(), ManifestV3CodecError>)
    ensures
        match structure_record_error(evidence@) {
            Some(error) => outcome == Err::<(), ManifestV3CodecError>(error),
            None => outcome is Ok,
        },
        final(encoded)@ == if evidence@.stability is Legacy {
            structure_head(evidence@)
        } else {
            structure_record(evidence@)
        },
{
    encoded.clear();
    put_u64(encoded, evidence.path.len() as u64);
    append(encoded, &evidence.path);
    let magic = structure_magic_bytes();
    append(encoded, &magic);
    encoded.push(node_kind_tag(evidence.identity.kind));
    put_u64(encoded, evidence.identity.device);
    put_u64(encoded, evidence.identity.inode);
    put_u64(encoded, evidence.identity.incarnation);
    put_u32(encoded, evidence.uid);
    put_u32(encoded, evidence.gid);
    put_u32(encoded, evidence.mode);
    reveal(structure_head);
    assert(encoded@ =~= structure_head(evidence@));
    match &evidence.stability {
        StructureStability::Directory => {},
        StructureStability::Regular {
            size,
            nlink,
            mtime_sec,
            mtime_nsec,
            ctime_sec,
            ctime_nsec,
        } => {
            put_u64(encoded, *size);
            put_u64(encoded, *nlink);
            put_i64(encoded, *mtime_sec);
            put_u32(encoded, *mtime_nsec);
            put_i64(encoded, *ctime_sec);
            put_u32(encoded, *ctime_nsec);
        },
        StructureStability::Symlink { target } => {
            put_u64(encoded, target.len() as u64);
            append(encoded, target);
        },
        StructureStability::Legacy => {
            return Err(ManifestV3CodecError::KindContentMismatch);
        },
    }
    assert(encoded@ =~= structure_record(evidence@));
    if encoded.len() > MANIFEST_V3_MAX_SEGMENT_PAYLOAD {
        return Err(ManifestV3CodecError::RecordTooLarge);
    }
    Ok(())
}

/// The length of the path of a structure record.
pub open spec fn structure_path_len(record: Seq<u8>) -> int {
    from_be64(record.subrange(0, 8)) as int
}

/// The length of the symlink target of a structure record.
pub open spec fn structure_target_len(record: Seq<u8>) -> int {
    let n = structure_path_len(record);
    from_be64(record.subrange(49 + n, 57 + n)) as int
}

/// The stable metadata that a structure record holds.
pub open spec fn recorded_stability(record: Seq<u8>) -> StabilityView {
    let n = structure_path_len(record);
    if record[12 + n] == 0 {
        StabilityView::Directory
    } else if record[12 + n] == 1 {
        let fields = record.subrange(49 + n, 89 + n);
        StabilityView::Regular {
            size: from_be64(fields.subrange(0, 8)),
            nlink: from_be64(fields.subrange(8, 16)),
            mtime_sec: from_be_i64(fields.subrange(16, 24)),
            mtime_nsec: from_be32(fields.subrange(24, 28)),
            ctime_sec: from_be_i64(fields.subrange(28, 36)),
            ctime_nsec: from_be32(fields.subrange(36, 40)),
        }
    } else {
        StabilityView::Symlink {
            target: record.subrange(57 + n, 57 + n + structure_target_len(record)),
        }
    }
}

/// The evidence that a structure record holds.
#[verifier::opaque]
pub open spec fn recorded_structure(record: Seq<u8>) -> StructureView {
    let n = structure_path_len(record);
    let fixed = record.subrange(13 + n, 49 + n);
    StructureView {
        path: record.subrange(8, 8 + n),
        identity: NodeIdentity {
            kind: if record[12 + n] == 0 {
                NodeKind::Directory
            } else if record[12 + n] == 1 {
                NodeKind::Regular
            } else {
                NodeKind::Symlink
            },
            device: from_be64(fixed.subrange(0, 8)),
            inode: from_be64(fixed.subrange(8, 16)),
            incarnation: from_be64(fixed.subrange(16, 24)),
        },
        uid: from_be32(fixed.subrange(24, 28)),
        gid: from_be32(fixed.subrange(28, 32)),
        mode: from_be32(fixed.subrange(32, 36)),
        stability: recorded_stability(record),
    }
}

/// Why the part of a structure record before its metadata is refused.
pub open spec fn structure_head_error(record: Seq<u8>) -> Option<ManifestV3CodecError> {
    let n = structure_path_len(record);
    if record.len() > MANIFEST_V3_MAX_SEGMENT_PAYLOAD {
        Some(ManifestV3CodecError::RecordTooLarge)
    } else if record.len() < 8 {
        Some(ManifestV3CodecError::RecordCountMismatch)
    } else if n > usize::MAX {
        Some(ManifestV3CodecError::LengthOverflow)
    } else if record.len() < 8 + n {
        Some(ManifestV3CodecError::RecordCountMismatch)
    } else if path_error(record.subrange(8, 8 + n), default_limits().max_depth) is Some {
        path_error(record.subrange(8, 8 + n), default_limits().max_depth)
    } else if record.len() < 12 + n {
        Some(ManifestV3CodecError::RecordCountMismatch)
    } else if record.subrange(8 + n, 12 + n) != structure_magic() {
        Some(ManifestV3CodecError::InvalidTag)
    } else if record.len() < 13 + n {
        Some(ManifestV3CodecError::RecordCountMismatch)
    } else if record[12 + n] > 2 {
        Some(ManifestV3CodecError::InvalidTag)
    } else if record.len() < 49 + n {
        Some(ManifestV3CodecError::RecordCountMismatch)
    } else if recorded_structure(record).mode > MODE_BITS {
        Some(ManifestV3CodecError::InvalidMode)
    } else {
        None
    }
}

/// Why a structure record is refused.
pub open spec fn structure_error(record: Seq<u8>) -> Option<ManifestV3CodecError> {
    let n = structure_path_len(record);
    if structure_head_error(record) is Some {
        structure_head_error(record)
    } else if record[12 + n] == 0 {
        if record.len() > 49 + n {
            Some(ManifestV3CodecError::TrailingBytes)
        } else {
            None
        }
    } else if record[12 + n] == 1 {
        if record.len() < 89 + n {
            Some(ManifestV3CodecError::RecordCountMismatch)
        } else if recorded_stability(record)->mtime_nsec >= NANOSECONDS || recorded_stability(
            record,
        )->ctime_nsec >= NANOSECONDS {
            Some(ManifestV3CodecError::InvalidNanoseconds)
        } else if record.len() > 89 + n {
            Some(ManifestV3CodecError::TrailingBytes)
        } else {
            None
        }
    } else if record.len() < 57 + n {
        Some(ManifestV3CodecError::RecordCountMismatch)
    } else if structure_target_len(record) > usize::MAX {
        Some(ManifestV3CodecError::LengthOverflow)
    } else if record.len() < 57 + n + structure_target_len(record) {
        Some(ManifestV3CodecError::RecordCountMismatch)
    } else if record.len() > 57 + n + structure_target_len(record) {
        Some(ManifestV3CodecError::TrailingBytes)
    } else {
        None
    }
}

/// Reads the stable metadata of a structure record whose head was accepted.
fn decode_stability(record: &[u8], path_len: usize) -> (outcome: Result<
    StructureStability,
    ManifestV3CodecError,
>)
    requires
        structure_head_error(record@) is None,
        path_len == structure_path_len(record@),
    ensures
        match structure_error(record@) {
            Some(error) => outcome == Err::<StructureStability, ManifestV3CodecError>(error),
            None => outcome is Ok && outcome->Ok_0@ == recorded_stability(record@),
        },
{
    let ghost bytes = record@;
    let kind_byte: u8 = record[12 + path_len];
    if kind_byte == 0 {
        if record.len() > 49 + path_len {
            return Err(ManifestV3CodecError::TrailingBytes);
        }
        return Ok(StructureStability::Directory);
    }
    if kind_byte == 1 {
        if record.len() - 49 - path_len < 40 {
            return Err(ManifestV3CodecError::RecordCountMismatch);
        }
        let fields = vstd::slice::slice_subrange(record, 49 + path_len, 89 + path_len);
        assert(fields@ == bytes.subrange(49 + path_len, 89 + path_len));
        let mtime_nsec: u32 = get_u32(fields, 24);
        let ctime_nsec: u32 = get_u32(fields, 36);
        if mtime_nsec >= NANOSECONDS || ctime_nsec >= NANOSECONDS {
            return Err(ManifestV3CodecError::InvalidNanoseconds);
        }
        if record.len() - 49 - path_len > 40 {
            return Err(ManifestV3CodecError::TrailingBytes);
        }
        return Ok(
            StructureStability::Regular {
                size: get_u64(fields, 0),
                nlink: get_u64(fields, 8),
                mtime_sec: get_i64(fields, 16),
                mtime_nsec,
                ctime_sec: get_i64(fields, 28),
                ctime_nsec,
            },
        );
    }
    if record.len() - 49 - path_len < 8 {
        return Err(ManifestV3CodecError::RecordCountMismatch);
    }
    let target_len_wide: u64 = get_u64(record, 49 + path_len);
    if target_len_wide > usize::MAX as u64 {
        return Err(ManifestV3CodecError::LengthOverflow);
    }
    let target_len: usize = target_len_wide as usize;
    if record.len() - 57 - path_len < target_len {
        return Err(ManifestV3CodecError::RecordCountMismatch);
    }
    if record.len() - 57 - path_len > target_len {
        return Err(ManifestV3CodecError::TrailingBytes);
    }
    let target = vstd::slice::slice_subrange(record, 57 + path_len, 57 + path_len + target_len);
    Ok(StructureStability::Symlink { target: to_vec(target) })
}

/// Reads a structure record.
pub fn decode_structure_record(record: &[u8]) -> (outcome: Result<
    StructureEvidence,
    ManifestV3CodecError,
>)
    ensures
        match structure_error(record@) {
            Some(error) => outcome == Err::<StructureEvidence, ManifestV3CodecError>(error),
            None => outcome is Ok && outcome->Ok_0@ == recorded_structure(record@),
        },
{
    let ghost bytes = record@;
    if record.len() > MANIFEST_V3_MAX_SEGMENT_PAYLOAD {
        return Err(ManifestV3CodecError::RecordTooLarge);
    }
    if record.len() < 8 {
        return Err(ManifestV3CodecError::RecordCountMismatch);
    }
    let path_len_wide: u64 = get_u64(record, 0);
    if path_len_wide > usize::MAX as u64 {
        return Err(ManifestV3CodecError::LengthOverflow);
    }
    let path_len: usize = path_len_wide as usize;
    if record.len() - 8 < path_len {
        return Err(ManifestV3CodecError::RecordCountMismatch);
    }
    let path = vstd::slice::slice_subrange(record, 8, 8 + path_len);
    let limits = HeldTreeLimits::default();
    validate_manifest_path(path, limits.max_depth)?;
    if record.len() - 8 - path_len < 4 {
        return Err(ManifestV3CodecError::RecordCountMismatch);
    }
    let magic = structure_magic_bytes();
    if !bytes_equal(vstd::slice::slice_subrange(record, 8 + path_len, 12 + path_len), &magic) {
        return Err(ManifestV3CodecError::InvalidTag);
    }
    if record.len() - 12 - path_len < 1 {
        return Err(ManifestV3CodecError::RecordCountMismatch);
    }
    let kind_byte: u8 = record[12 + path_len];
    if kind_byte > 2 {
        return Err(ManifestV3CodecError::InvalidTag);
    }
    if record.len() - 13 - path_len < 36 {
        return Err(ManifestV3CodecError::RecordCountMismatch);
    }
    let fixed = vstd::slice::slice_subrange(record, 13 + path_len, 49 + path_len);
    assert(fixed@ == bytes.subrange(13 + path_len, 49 + path_len));
    let mode: u32 = get_u32(fixed, 32);
    proof {
        reveal(recorded_structure);
    }
    if mode > MODE_BITS {
        return Err(ManifestV3CodecError::InvalidMode);
    }
    let stability = decode_stability(record, path_len)?;
    let kind = if kind_byte == 0 {
        NodeKind::Directory
    } else if kind_byte == 1 {
        NodeKind::Regular
    } else {
        NodeKind::Symlink
    };
    let evidence = StructureEvidence {
        path: to_vec(path),
        identity: NodeIdentity {
            kind,
            device: get_u64(fixed, 0),
            inode: get_u64(fixed, 8),
            incarnation: get_u64(fixed, 16),
        },
        uid: get_u32(fixed, 24),
        gid: get_u32(fixed, 28),
        mode,
        stability,
    };
    assert(evidence@ =~= recorded_structure(bytes));
    Ok(evidence)
}

/// Evidence that a structure record can hold.
pub open spec fn is_structure_recordable(evidence: StructureView) -> bool {
    &&& structure_record_error(evidence) is None
    &&& path_error(evidence.path, default_limits().max_depth) is None
    &&& evidence.mode <= MODE_BITS
    &&& match evidence.stability {
        StabilityView::Legacy => false,
        StabilityView::Directory => evidence.identity.kind == NodeKind::Directory,
        StabilityView::Regular { mtime_nsec, ctime_nsec, .. } => {
            &&& evidence.identity.kind == NodeKind::Regular
            &&& mtime_nsec < NANOSECONDS
            &&& ctime_nsec < NANOSECONDS
        },
        StabilityView::Symlink { .. } => evidence.identity.kind == NodeKind::Symlink,
    }
}

/// How long the head of a structure record is.
proof fn lemma_structure_head_len(evidence: StructureView)
    ensures
        structure_head(evidence).len() == 49 + evidence.path.len(),
{
    reveal(structure_head);
}

/// The head of a structure record decodes to the evidence's own fields.
proof fn lemma_structure_head(evidence: StructureView, rest: Seq<u8>)
    requires
        evidence.path.len() <= usize::MAX,
        evidence.identity.kind != NodeKind::Other,
    ensures
        ({
            let record = structure_head(evidence) + rest;
            let n = evidence.path.len() as int;
            &&& structure_head(evidence).len() == 49 + n
            &&& structure_path_len(record) == n
            &&& record.subrange(8, 8 + n) == evidence.path
            &&& record.subrange(8 + n, 12 + n) == structure_magic()
            &&& record[12 + n] == kind_tag(evidence.identity.kind)
            &&& recorded_structure(record).path == evidence.path
            &&& recorded_structure(record).identity == evidence.identity
            &&& recorded_structure(record).uid == evidence.uid
            &&& recorded_structure(record).gid == evidence.gid
            &&& recorded_structure(record).mode == evidence.mode
            &&& record.skip(49 + n) == rest
        }),
{
    reveal(recorded_structure);
    reveal(structure_head);
    let record = structure_head(evidence) + rest;
    let n = evidence.path.len() as int;
    let fixed = be64(evidence.identity.device) + be64(evidence.identity.inode) + be64(
        evidence.identity.incarnation,
    ) + be32(evidence.uid) + be32(evidence.gid) + be32(evidence.mode);
    crate::bytes::lemma_be64_round_trip(n as u64);
    crate::bytes::lemma_be64_round_trip(evidence.identity.device);
    crate::bytes::lemma_be64_round_trip(evidence.identity.inode);
    crate::bytes::lemma_be64_round_trip(evidence.identity.incarnation);
    crate::bytes::lemma_be32_round_trip(evidence.uid);
    crate::bytes::lemma_be32_round_trip(evidence.gid);
    crate::bytes::lemma_be32_round_trip(evidence.mode);
    assert(record.subrange(0, 8) =~= be64(n as u64));
    assert(record.subrange(8, 8 + n) =~= evidence.path);
    assert(record.subrange(8 + n, 12 + n) =~= structure_magic());
    assert(record.subrange(13 + n, 49 + n) =~= fixed);
    assert(fixed.subrange(0, 8) =~= be64(evidence.identity.device));
    assert(fixed.subrange(8, 16) =~= be64(evidence.identity.inode));
    assert(fixed.subrange(16, 24) =~= be64(evidence.identity.incarnation));
    assert(fixed.subrange(24, 28) =~= be32(evidence.uid));
    assert(fixed.subrange(28, 32) =~= be32(evidence.gid));
    assert(fixed.subrange(32, 36) =~= be32(evidence.mode));
    assert(record.skip(49 + n) =~= rest);
}

/// What is written as a structure record is read back.
pub proof fn law_structure_round_trip(evidence: StructureView)
    requires
        is_structure_recordable(evidence),
    ensures
        structure_error(structure_record(evidence)) is None,
        recorded_structure(structure_record(evidence)) == evidence,
{
    let record = structure_record(evidence);
    let rest = stability_fields(evidence.stability);
    let n = evidence.path.len() as int;
    lemma_structure_head_len(evidence);
    lemma_structure_head(evidence, rest);
    match evidence.stability {
        StabilityView::Regular { size, nlink, mtime_sec, mtime_nsec, ctime_sec, ctime_nsec } => {
            crate::bytes::lemma_be64_round_trip(size);
            crate::bytes::lemma_be64_round_trip(nlink);
            crate::bytes::lemma_be_i64_round_trip(mtime_sec);
            crate::bytes::lemma_be32_round_trip(mtime_nsec);
            crate::bytes::lemma_be_i64_round_trip(ctime_sec);
            crate::bytes::lemma_be32_round_trip(ctime_nsec);
            let fields = record.subrange(49 + n, 89 + n);
            assert(fields =~= rest);
            assert(fields.subrange(0, 8) =~= be64(size));
            assert(fields.subrange(8, 16) =~= be64(nlink));
            assert(fields.subrange(16, 24) =~= be_i64(mtime_sec));
            assert(fields.subrange(24, 28) =~= be32(mtime_nsec));
            assert(fields.subrange(28, 36) =~= be_i64(ctime_sec));
            assert(fields.subrange(36, 40) =~= be32(ctime_nsec));
        },
        StabilityView::Symlink { target } => {
            crate::bytes::lemma_be64_round_trip(target.len() as u64);
            assert(record.subrange(49 + n, 57 + n) =~= be64(target.len() as u64));
            assert(record.subrange(57 + n, 57 + n + target.len()) =~= target);
        },
        _ => {},
    }
    assert(recorded_structure(record) == evidence) by {
        reveal(recorded_structure);
        assert(recorded_structure(record) =~= evidence);
    }
}

/// The structure evidence that a decoded manifest record implies.
pub fn structure_evidence_from_v3_record(record: ManifestV3Record) -> (evidence: StructureEvidence)
    ensures
        evidence@ == structure_of(record@),
{
    let kind = match record.kind {
        ManifestV3RecordKind::Directory => NodeKind::Directory,
        ManifestV3RecordKind::Regular => NodeKind::Regular,
        ManifestV3RecordKind::Symlink => NodeKind::Symlink,
    };
    let stability = match record.content {
        ManifestV3RecordContent::Directory => StructureStability::Directory,
        ManifestV3RecordContent::Regular {
            size,
            nlink,
            mtime_sec,
            mtime_nsec,
            ctime_sec,
            ctime_nsec,
            ..
        } => StructureStability::Regular {
            size,
            nlink,
            mtime_sec,
            mtime_nsec,
            ctime_sec,
            ctime_nsec,
        },
        ManifestV3RecordContent::Symlink { target } => StructureStability::Symlink {
            target: to_vec(target),
        },
    };
    StructureEvidence {
        path: to_vec(record.path),
        identity: NodeIdentity {
            kind,
            device: record.device,
            inode: record.inode,
            incarnation: record.incarnation,
        },
        uid: record.uid,
        gid: record.gid,
        mode: record.mode,
        stability,
    }
}

} // verus!
