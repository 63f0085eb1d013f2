//! Detection of one contiguous raw payload span covering a full selection.
use vstd::prelude::*;

use crate::reduction::ReductionKind;
use crate::types::{PlannedChunkIo, ReadPlan, CODEC_RAW};

verus! {

/// Contiguous raw byte range covering the full logical selection in on-disk order.
#[derive(Clone, Copy, PartialEq, Eq, Debug, Structural)]
pub struct ContiguousRawSpan {
    pub start: usize,
    pub len: usize,
}

/// Every chunk is stored uncompressed (raw codec, stored length equals raw length).
pub open spec fn all_chunks_raw(chunks: Seq<PlannedChunkIo>) -> bool {
    forall|i: int|
        0 <= i < chunks.len() ==> (#[trigger] chunks[i]).codec == CODEC_RAW
            && chunks[i].stored_byte_len == chunks[i].raw_byte_len
}

/// Each payload starts exactly where the previous one ends.
pub open spec fn chunks_adjacent(chunks: Seq<PlannedChunkIo>) -> bool {
    forall|i: int|
        0 <= i < chunks.len() - 1 ==> (#[trigger] chunks[i]).payload_offset
            + chunks[i].raw_byte_len == chunks[i + 1].payload_offset
}

/// Sum of raw payload lengths.
pub open spec fn sum_raw(chunks: Seq<PlannedChunkIo>) -> int
    decreases chunks.len(),
{
    if chunks.len() == 0 {
        0
    } else {
        sum_raw(chunks.drop_last()) + chunks.last().raw_byte_len
    }
}

/// The span that [`detect_contiguous_raw_span`] reports for a plan, if any.
pub open spec fn spec_contiguous_raw_span(
    chunks: Seq<PlannedChunkIo>,
    element_count: usize,
    elem_size: usize,
) -> Option<ContiguousRawSpan> {
    let expected = element_count * elem_size;
    if chunks.len() == 0 || expected > usize::MAX || expected == 0 || !all_chunks_raw(chunks)
        || !chunks_adjacent(chunks) || sum_raw(chunks) != expected || chunks[0].payload_offset
        > usize::MAX {
        None
    } else {
        Some(ContiguousRawSpan { start: chunks[0].payload_offset as usize, len: expected as usize })
    }
}

/// Scalar kinds that a byte-stream scan supports (everything but arg-min / arg-max).
pub open spec fn spec_supports_scalar_kind(kind: ReductionKind) -> bool {
    !(kind is ArgMin || kind is ArgMax)
}

/// Tier-A/B scalar ops supported without per-element logical indices.
pub fn supports_scalar_kind(kind: ReductionKind) -> (r: bool)
    ensures
        r == spec_supports_scalar_kind(kind),
{
    match kind {
        ReductionKind::ArgMin | ReductionKind::ArgMax => false,
        _ => true,
    }
}

proof fn lemma_sum_raw_nonneg(chunks: Seq<PlannedChunkIo>)
    ensures
        sum_raw(chunks) >= 0,
    decreases chunks.len(),
{
    if chunks.len() > 0 {
        lemma_sum_raw_nonneg(chunks.drop_last());
    }
}

/// Full dense scan with raw codec and adjacent payloads in logical plan order.
pub fn detect_contiguous_raw_span(plan: &ReadPlan, elem_size: usize) -> (r: Option<
    ContiguousRawSpan,
>)
    ensures
        r == spec_contiguous_raw_span(plan.chunks@, plan.logical_f32_element_count, elem_size),
{
    let n = plan.chunks.len();
    if n == 0 {
        return None;
    }
    let expected = match plan.logical_f32_element_count.checked_mul(elem_size) {
        Some(e) => e,
        None => return None,
    };
    if expected == 0 {
        return None;
    }
    let mut i: usize = 0;
    while i < n
        invariant
            n == plan.chunks@.len(),
            0 <= i <= n,
            forall|k: int|
                0 <= k < i ==> (#[trigger] plan.chunks@[k]).codec == CODEC_RAW
                    && plan.chunks@[k].stored_byte_len == plan.chunks@[k].raw_byte_len,
        decreases n - i,
    {
        let c = &plan.chunks[i];
        if c.codec != CODEC_RAW || c.stored_byte_len != c.raw_byte_len {
            assert(!all_chunks_raw(plan.chunks@));
            return None;
        }
        i += 1;
    }
    let mut j: usize = 0;
    while j + 1 < n
        invariant
            n == plan.chunks@.len(),
            n >= 1,
            0 <= j < n,
            forall|k: int|
                0 <= k < j ==> (#[trigger] plan.chunks@[k]).payload_offset + plan.chunks@[k].raw_byte_len
                    == plan.chunks@[k + 1].payload_offset,
        decreases n - j,
    {
        let a = &plan.chunks[j];
        let b = &plan.chunks[j + 1];
        match a.payload_offset.checked_add(a.raw_byte_len) {
            Some(end) => {
                if end != b.payload_offset {
                    assert(!chunks_adjacent(plan.chunks@));
                    return None;
                }
            },
            None => {
                assert(!chunks_adjacent(plan.chunks@));
                return None;
            },
        }
        j += 1;
    }
    // Sum raw lengths; any partial sum beyond `expected` settles the answer.
    let mut total: usize = 0;
    let mut k: usize = 0;
    while k < n
        invariant
            n == plan.chunks@.len(),
            0 <= k <= n,
            total as int == sum_raw(plan.chunks@.subrange(0, k as int)),
            total <= expected,
            expected == plan.logical_f32_element_count * elem_size,
        decreases n - k,
    {
        proof {
            assert(plan.chunks@.subrange(0, k + 1).drop_last() =~= plan.chunks@.subrange(0, k as int));
        }
        let len = plan.chunks[k].raw_byte_len;
        if len > (expected - total) as u64 {
            proof {
                lemma_sum_raw_prefix_monotone(plan.chunks@, k + 1);
            }
            return None;
        }
        total = total + len as usize;
        k += 1;
    }
    assert(plan.chunks@.subrange(0, n as int) =~= plan.chunks@);
    if total != expected {
        return None;
    }
    let start = plan.chunks[0].payload_offset;
    if start > usize::MAX as u64 {
        return None;
    }
    Some(ContiguousRawSpan { start: start as usize, len: expected })
}

/// Sums of raw lengths never decrease along the chunk list.
proof fn lemma_sum_raw_prefix_monotone(chunks: Seq<PlannedChunkIo>, k: int)
    requires
        0 <= k <= chunks.len(),
    ensures
        sum_raw(chunks.subrange(0, k)) <= sum_raw(chunks),
    decreases chunks.len() - k,
{
    if k < chunks.len() {
        lemma_sum_raw_prefix_monotone(chunks, k + 1);
        assert(chunks.subrange(0, k + 1).drop_last() =~= chunks.subrange(0, k));
    } else {
        assert(chunks.subrange(0, k) =~= chunks);
    }
}

} // verus!
