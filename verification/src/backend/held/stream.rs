//! Manifest records and segments ready to be written out.

use crate::backend::held::decoder::is_inventory;
use crate::backend::held::decoder::law_inventory_round_trip;
use crate::backend::held::decoder::segment_header_error;
use crate::backend::held::decoder::segment_outcome;
use crate::backend::held::decoder::MANIFEST_V3_MAX_SEGMENT_PAYLOAD;
use crate::backend::held::error::ManifestV3CodecError;
use crate::backend::held::limits::HeldTreeLimits;
use crate::backend::held::limits::CONTENT_PROOF_VERSION;
use crate::backend::held::manifest::emit_manifest_entry_v3;
use crate::backend::held::manifest::lemma_records_push;
use crate::backend::held::manifest::manifest_entry_v3_len;
use crate::backend::held::manifest::record_v3;
use crate::backend::held::manifest::records_v3;
use crate::backend::held::model::entries;
use crate::backend::held::model::EntryView;
use crate::backend::held::model::ManifestEntry;
use crate::paths::views;
use vstd::prelude::*;

verus! {

/// Why a record cannot be written with at most `max_payload` bytes.
pub open spec fn record_size_error(entry: EntryView, max_payload: usize) -> Option<
    ManifestV3CodecError,
> {
    if record_v3(entry).len() > usize::MAX {
        Some(ManifestV3CodecError::LengthOverflow)
    } else if record_v3(entry).len() > max_payload {
        Some(ManifestV3CodecError::RecordTooLarge)
    } else {
        None
    }
}

/// The first entry of `list` that cannot be written, if any.
pub open spec fn first_size_error(list: Seq<EntryView>, max_payload: usize) -> Option<
    ManifestV3CodecError,
>
    decreases list.len(),
{
    if list.len() == 0 {
        None
    } else if first_size_error(list.drop_last(), max_payload) is Some {
        first_size_error(list.drop_last(), max_payload)
    } else {
        record_size_error(list.last(), max_payload)
    }
}

/// An error of a prefix is the error of the whole.
proof fn lemma_first_size_error(list: Seq<EntryView>, max_payload: usize, count: int)
    requires
        0 <= count <= list.len(),
        first_size_error(list.take(count), max_payload) is Some,
    ensures
        first_size_error(list, max_payload) == first_size_error(list.take(count), max_payload),
    decreases list.len() - count,
{
    if count == list.len() {
        assert(list.take(count) =~= list);
    } else {
        let longer = list.take(count + 1);
        assert(longer.drop_last() =~= list.take(count));
        lemma_first_size_error(list, max_payload, count + 1);
    }
}

/// One step of the search for the first entry that cannot be written.
proof fn lemma_size_error_step(list: Seq<EntryView>, max_payload: usize, index: int)
    requires
        0 <= index < list.len(),
        first_size_error(list.take(index), max_payload) is None,
    ensures
        first_size_error(list.take(index + 1), max_payload) == record_size_error(
            list[index],
            max_payload,
        ),
{
    let longer = list.take(index + 1);
    assert(longer.drop_last() =~= list.take(index));
    assert(longer.last() == list[index]);
}

/// Replaces `record` by the encoding of `entry`.
pub fn emit_forward_v3_record(entry: &ManifestEntry, record: &mut Vec<u8>) -> (outcome: Result<
    (),
    ManifestV3CodecError,
>)
    ensures
        match record_size_error(entry@, MANIFEST_V3_MAX_SEGMENT_PAYLOAD) {
            Some(error) => {
                &&& outcome == Err::<(), ManifestV3CodecError>(error)
                &&& final(record)@ == old(record)@
            },
            None => outcome is Ok && final(record)@ == record_v3(entry@),
        },
{
    let length: usize = manifest_entry_v3_len(entry)?;
    if length > MANIFEST_V3_MAX_SEGMENT_PAYLOAD {
        return Err(ManifestV3CodecError::RecordTooLarge);
    }
    record.clear();
    emit_manifest_entry_v3(entry, record);
    assert(record@ =~= record_v3(entry@));
    Ok(())
}

/// The records of `manifest`, one by one.
pub fn stream_manifest_v3_records(manifest: &[ManifestEntry]) -> (outcome: Result<
    Vec<Vec<u8>>,
    ManifestV3CodecError,
>)
    ensures
        match first_size_error(entries(manifest@), MANIFEST_V3_MAX_SEGMENT_PAYLOAD) {
            Some(error) => outcome == Err::<Vec<Vec<u8>>, ManifestV3CodecError>(error),
            None => {
                &&& outcome is Ok
                &&& views(outcome->Ok_0@) == Seq::new(
                    manifest@.len(),
                    |i: int| record_v3(manifest@[i]@),
                )
            },
        },
{
    let ghost list = entries(manifest@);
    let mut records: Vec<Vec<u8>> = Vec::new();
    let mut i: usize = 0;
    while i < manifest.len()
        invariant
            i <= manifest.len(),
            list == entries(manifest@),
            first_size_error(list.take(i as int), MANIFEST_V3_MAX_SEGMENT_PAYLOAD) is None,
            views(records@) == Seq::new(i as nat, |j: int| record_v3(manifest@[j]@)),
        decreases manifest.len() - i,
    {
        proof {
            lemma_size_error_step(list, MANIFEST_V3_MAX_SEGMENT_PAYLOAD, i as int);
        }
        let mut record: Vec<u8> = Vec::new();
        match emit_forward_v3_record(&manifest[i], &mut record) {
            Ok(_) => {},
            Err(error) => {
                proof {
                    lemma_first_size_error(list, MANIFEST_V3_MAX_SEGMENT_PAYLOAD, i + 1);
                }
                return Err(error);
            },
        }
        let ghost before = views(records@);
        records.push(record);
        assert(views(records@) =~= before.push(record_v3(manifest@[i as int]@)));
        assert(views(records@) =~= Seq::new((i + 1) as nat, |j: int| record_v3(manifest@[j]@)));
        i += 1;
    }
    assert(list.take(i as int) =~= list);
    Ok(records)
}

/// Some consecutive records, never split.
#[derive(Debug, PartialEq, Eq)]
pub struct ManifestSegment {
    pub records: u64,
    pub payload: Vec<u8>,
}

/// How many records the first `count` segments hold.
pub open spec fn records_before(segments: Seq<ManifestSegment>, count: int) -> int
    decreases count,
{
    if count <= 0 {
        0
    } else {
        records_before(segments, count - 1) + segments[count - 1].records
    }
}

/// Segment `k` holds the records that follow those of the segments before it,
/// at least one of them, in at most `max_payload` bytes.
pub open spec fn is_segment(
    segments: Seq<ManifestSegment>,
    list: Seq<EntryView>,
    max_payload: usize,
    k: int,
) -> bool {
    let start = records_before(segments, k);
    let end = start + segments[k].records;
    &&& segments[k].records > 0
    &&& 0 <= start < end <= list.len()
    &&& segments[k].payload@ == records_v3(list.subrange(start, end))
    &&& segments[k].payload@.len() <= max_payload
}

/// The record that follows segment `k` does not fit into it.
pub open spec fn is_full(
    segments: Seq<ManifestSegment>,
    list: Seq<EntryView>,
    max_payload: usize,
    k: int,
) -> bool {
    let end = records_before(segments, k + 1);
    &&& 0 <= end < list.len()
    &&& segments[k].payload@.len() + record_v3(list[end]).len() > max_payload
}

/// `segments` holds the records of `list` in order, and starts a new segment
/// only where a record does not fit into the one before.
pub open spec fn is_segmentation(
    segments: Seq<ManifestSegment>,
    list: Seq<EntryView>,
    max_payload: usize,
) -> bool {
    &&& forall|k: int|
        0 <= k < segments.len() ==> #[trigger] is_segment(segments, list, max_payload, k)
    &&& forall|k: int|
        0 <= k < segments.len() - 1 ==> #[trigger] is_full(segments, list, max_payload, k)
    &&& records_before(segments, segments.len() as int) == list.len()
}

/// Adding a segment leaves the segments before it as they were.
proof fn lemma_records_before_push(
    segments: Seq<ManifestSegment>,
    segment: ManifestSegment,
    count: int,
)
    requires
        0 <= count <= segments.len(),
    ensures
        records_before(segments.push(segment), count) == records_before(segments, count),
    decreases count,
{
    if count > 0 {
        lemma_records_before_push(segments, segment, count - 1);
        assert(segments.push(segment)[count - 1] == segments[count - 1]);
    }
}

/// A segment that continues a partial segmentation.
proof fn lemma_segment_push(
    segments: Seq<ManifestSegment>,
    segment: ManifestSegment,
    list: Seq<EntryView>,
    max_payload: usize,
    start: int,
)
    requires
        forall|k: int|
            0 <= k < segments.len() ==> #[trigger] is_segment(segments, list, max_payload, k),
        forall|k: int|
            0 <= k < segments.len() ==> #[trigger] is_full(segments, list, max_payload, k),
        records_before(segments, segments.len() as int) == start,
        segment.records > 0,
        0 <= start,
        start + segment.records <= list.len(),
        segment.payload@ == records_v3(list.subrange(start, start + segment.records)),
        segment.payload@.len() <= max_payload,
    ensures
        ({
            let longer = segments.push(segment);
            &&& forall|k: int|
                0 <= k < longer.len() ==> #[trigger] is_segment(longer, list, max_payload, k)
            &&& forall|k: int|
                0 <= k < segments.len() ==> #[trigger] is_full(longer, list, max_payload, k)
            &&& records_before(longer, longer.len() as int) == start + segment.records
        }),
{
    let longer = segments.push(segment);
    assert forall|k: int| 0 <= k <= segments.len() implies records_before(longer, k)
        == records_before(segments, k) by {
        lemma_records_before_push(segments, segment, k);
    }
    assert forall|k: int| 0 <= k < longer.len() implies #[trigger] is_segment(
        longer,
        list,
        max_payload,
        k,
    ) by {
        if k < segments.len() {
            assert(is_segment(segments, list, max_payload, k));
            assert(longer[k] == segments[k]);
        } else {
            assert(longer[k] == segment);
        }
    }
    assert forall|k: int| 0 <= k < segments.len() implies #[trigger] is_full(
        longer,
        list,
        max_payload,
        k,
    ) by {
        assert(is_full(segments, list, max_payload, k));
        assert(longer[k] == segments[k]);
    }
}

/// The records of a run grow by the record of its next entry.
proof fn lemma_run_push(list: Seq<EntryView>, start: int, end: int)
    requires
        0 <= start <= end < list.len(),
    ensures
        records_v3(list.subrange(start, end + 1)) == records_v3(list.subrange(start, end))
            + record_v3(list[end]),
{
    let run = list.subrange(start, end + 1);
    lemma_records_push(run, CONTENT_PROOF_VERSION, end - start);
    assert(run.take(end - start + 1) =~= run);
    assert(run.take(end - start) =~= list.subrange(start, end));
}

/// The largest payload that a caller may ask for is capped.
pub open spec fn segment_bound(max_payload: usize) -> usize {
    if max_payload < MANIFEST_V3_MAX_SEGMENT_PAYLOAD {
        max_payload
    } else {
        MANIFEST_V3_MAX_SEGMENT_PAYLOAD
    }
}

/// The records of `manifest` in segments of at most `max_payload` bytes.
pub fn stream_manifest_v3_segments(manifest: &[ManifestEntry], max_payload: usize) -> (outcome:
    Result<Vec<ManifestSegment>, ManifestV3CodecError>)
    ensures
        match first_size_error(entries(manifest@), segment_bound(max_payload)) {
            Some(error) => outcome == Err::<Vec<ManifestSegment>, ManifestV3CodecError>(error),
            None => {
                &&& outcome is Ok
                &&& is_segmentation(
                    outcome->Ok_0@,
                    entries(manifest@),
                    segment_bound(max_payload),
                )
            },
        },
{
    let bound: usize = if max_payload < MANIFEST_V3_MAX_SEGMENT_PAYLOAD {
        max_payload
    } else {
        MANIFEST_V3_MAX_SEGMENT_PAYLOAD
    };
    let ghost list = entries(manifest@);
    let mut segments: Vec<ManifestSegment> = Vec::new();
    let mut payload: Vec<u8> = Vec::new();
    let mut records: u64 = 0;
    let mut i: usize = 0;
    proof {
        assert(list.subrange(0, 0) =~= Seq::<EntryView>::empty());
        assert(payload@ =~= records_v3(list.subrange(0, 0)));
    }
    while i < manifest.len()
        invariant
            i <= manifest.len(),
            bound == segment_bound(max_payload),
            list == entries(manifest@),
            first_size_error(list.take(i as int), bound) is None,
            records <= i,
            records == 0 ==> i == 0,
            records_before(segments@, segments@.len() as int) == i - records,
            payload@ == records_v3(list.subrange(i - records, i as int)),
            payload@.len() <= bound,
            forall|k: int|
                0 <= k < segments@.len() ==> #[trigger] is_segment(segments@, list, bound, k),
            forall|k: int|
                0 <= k < segments@.len() ==> #[trigger] is_full(segments@, list, bound, k),
        decreases manifest.len() - i,
    {
        proof {
            lemma_size_error_step(list, bound, i as int);
        }
        let entry = &manifest[i];
        let length: usize = match manifest_entry_v3_len(entry) {
            Ok(length) => length,
            Err(error) => {
                proof {
                    lemma_first_size_error(list, bound, i + 1);
                }
                return Err(error);
            },
        };
        if length > bound {
            proof {
                lemma_first_size_error(list, bound, i + 1);
            }
            return Err(ManifestV3CodecError::RecordTooLarge);
        }
        if records != 0 && payload.len() + length > bound {
            let ghost before = segments@;
            let ghost start = i - records;
            let segment = ManifestSegment { records, payload };
            proof {
                lemma_segment_push(before, segment, list, bound, start);
            }
            let ghost full = segment;
            segments.push(segment);
            proof {
                assert(is_full(segments@, list, bound, before.len() as int)) by {
                    assert(segments@[before.len() as int] == full);
                }
                assert(list.subrange(i as int, i as int) =~= Seq::<EntryView>::empty());
            }
            payload = Vec::new();
            records = 0;
            assert(payload@ =~= records_v3(list.subrange(i as int, i as int)));
        }
        proof {
            lemma_run_push(list, i - records, i as int);
        }
        emit_manifest_entry_v3(entry, &mut payload);
        records = records + 1;
        i += 1;
    }
    assert(list.take(i as int) =~= list);
    if records != 0 {
        let segment = ManifestSegment { records, payload };
        proof {
            lemma_segment_push(segments@, segment, list, bound, i - records);
        }
        segments.push(segment);
    }
    Ok(segments)
}

/// A segmented inventory is accepted segment by segment: each segment takes the
/// decoder from the entries before it to the entries through its end.
pub proof fn law_segments_round_trip(
    limits: HeldTreeLimits,
    list: Seq<EntryView>,
    segments: Seq<ManifestSegment>,
    max_payload: usize,
    k: int,
)
    requires
        is_inventory(limits, list),
        max_payload <= MANIFEST_V3_MAX_SEGMENT_PAYLOAD,
        is_segmentation(segments, list, max_payload),
        0 <= k < segments.len(),
    ensures
        segment_header_error(segments[k].records, segments[k].payload@) is None,
        segment_outcome(
            limits,
            list.len() as u64,
            list.take(records_before(segments, k)),
            segments[k].records as nat,
            segments[k].payload@,
        ) == Ok::<Seq<EntryView>, ManifestV3CodecError>(
            list.take(records_before(segments, k + 1)),
        ),
        records_before(segments, 0) == 0,
        records_before(segments, segments.len() as int) == list.len(),
{
    assert(is_segment(segments, list, max_payload, k));
    law_inventory_round_trip(
        limits,
        list,
        records_before(segments, k),
        records_before(segments, k + 1),
    );
}

} // verus!
