//! Fold I/O policy: parallel vs sequential chunk visits for streaming reductions.
use vstd::prelude::*;

use crate::budget::ExecutionBudget;
use crate::linear_scan::{detect_contiguous_raw_span, spec_contiguous_raw_span};
use crate::types::{ElementDtype, ExecutionHints, PlannedChunkIo, ReadPlan, TetError};

verus! {

/// Share of host RAM (basis points) treated as in-core page-cache headroom.
pub const IN_CORE_IO_HEADROOM_BPS: u64 = 8500;

/// Whether the logical selection is likely served from page cache vs storage-bound.
#[derive(Clone, Copy, PartialEq, Eq, Debug, Structural)]
pub enum IoRegime {
    InCore,
    OutOfCore,
    Unknown,
}

impl IoRegime {
    pub open spec fn spec_as_str(self) -> Seq<char> {
        match self {
            IoRegime::InCore => "in_core"@,
            IoRegime::OutOfCore => "out_of_core"@,
            IoRegime::Unknown => "unknown"@,
        }
    }

    /// Stable wire token.
    pub fn as_str(self) -> (r: &'static str)
        ensures
            r@ == self.spec_as_str(),
    {
        match self {
            IoRegime::InCore => "in_core",
            IoRegime::OutOfCore => "out_of_core",
            IoRegime::Unknown => "unknown",
        }
    }
}

/// Resolved streaming-fold chunk visit strategy.
#[derive(Clone, Copy, PartialEq, Eq, Debug, Structural)]
pub struct FoldIoPolicy {
    pub parallel: bool,
    pub io_regime: IoRegime,
    /// Visit chunks in ascending `payload_offset` order (sequential fold on full scans).
    pub sequential_io: bool,
    /// Optional worker cap for parallel fold; default uses the global pool size.
    pub fold_workers: Option<usize>,
    /// Sequential byte-stream fold over one contiguous raw payload span.
    pub linear_scan: bool,
}

pub open spec fn seq_all_eq(s: Seq<u64>, v: u64) -> bool {
    forall|i: int| 0 <= i < s.len() ==> s[i] == v
}

/// Dense unit-step selection over the full dataset shape.
pub open spec fn spec_is_full_dense(plan: &ReadPlan) -> bool {
    seq_all_eq(plan.selection_step@, 1) && seq_all_eq(plan.selection_box_start@, 0)
        && plan.selection_box_stop_exclusive@ == plan.dataset_shape@
}

pub open spec fn spec_io_regime(host: Option<u64>, logical_bytes: u64) -> IoRegime {
    match host {
        Some(avail) => {
            let headroom = if avail * IN_CORE_IO_HEADROOM_BPS > u64::MAX {
                u64::MAX / 10000
            } else {
                (avail * IN_CORE_IO_HEADROOM_BPS / 10000) as u64
            };
            if logical_bytes > headroom {
                IoRegime::OutOfCore
            } else {
                IoRegime::InCore
            }
        },
        None => IoRegime::Unknown,
    }
}

/// The policy chosen for a plan whose selection occupies `logical_bytes` bytes.
pub open spec fn spec_fold_policy(
    plan: &ReadPlan,
    host: Option<u64>,
    fold_parallel: Option<bool>,
    logical_bytes: u64,
    elem_size: usize,
) -> FoldIoPolicy {
    let io_regime = spec_io_regime(host, logical_bytes);
    let multi_chunk = plan.chunks@.len() > 1;
    let full_dense = spec_is_full_dense(plan);
    let contiguous_raw = spec_contiguous_raw_span(
        plan.chunks@,
        plan.logical_f32_element_count,
        elem_size,
    ) is Some;
    let linear_scan = io_regime == IoRegime::OutOfCore && full_dense && contiguous_raw
        && fold_parallel != Some(true);
    let parallel = if linear_scan {
        false
    } else {
        match fold_parallel {
            Some(true) => multi_chunk,
            Some(false) => false,
            None => multi_chunk,
        }
    };
    FoldIoPolicy {
        parallel,
        io_regime,
        sequential_io: !parallel && !linear_scan && multi_chunk && full_dense,
        fold_workers: None,
        linear_scan,
    }
}

fn all_eq(v: &Vec<u64>, x: u64) -> (r: bool)
    ensures
        r == seq_all_eq(v@, x),
{
    let mut i: usize = 0;
    while i < v.len()
        invariant
            0 <= i <= v.len(),
            forall|k: int| 0 <= k < i ==> v@[k] == x,
        decreases v.len() - i,
    {
        if v[i] != x {
            return false;
        }
        i += 1;
    }
    true
}

fn vec_eq(a: &Vec<u64>, b: &Vec<u64>) -> (r: bool)
    ensures
        r == (a@ == b@),
{
    if a.len() != b.len() {
        return false;
    }
    let mut i: usize = 0;
    while i < a.len()
        invariant
            a.len() == b.len(),
            0 <= i <= a.len(),
            forall|k: int| 0 <= k < i ==> a@[k] == b@[k],
        decreases a.len() - i,
    {
        if a[i] != b[i] {
            return false;
        }
        i += 1;
    }
    assert(a@ =~= b@);
    true
}

impl FoldIoPolicy {
    /// Dense unit-step selection over the full dataset shape (full-tensor scan).
    pub fn is_dense_unit_step_full_selection(plan: &ReadPlan) -> (r: bool)
        ensures
            r == spec_is_full_dense(plan),
    {
        if !all_eq(&plan.selection_step, 1) {
            return false;
        }
        if !all_eq(&plan.selection_box_start, 0) {
            return false;
        }
        vec_eq(&plan.selection_box_stop_exclusive, &plan.dataset_shape)
    }

    /// In-core: parallel chunks. Out-of-core full dense raw scan with contiguous payloads:
    /// linear scan. `execution.fold_parallel: false` asks for offset-ordered sequential visits.
    pub fn resolve(
        plan: &ReadPlan,
        budget: &ExecutionBudget,
        hints: Option<&ExecutionHints>,
        dtype: ElementDtype,
    ) -> (r: Result<Self, TetError>)
        ensures
            r is Err <==> plan.logical_f32_element_count * dtype.spec_elem_size() > u64::MAX,
            r matches Ok(p) ==> p == spec_fold_policy(
                plan,
                budget.host_available_ram_bytes,
                match hints {
                    Some(h) => h.fold_parallel,
                    None => None,
                },
                (plan.logical_f32_element_count * dtype.spec_elem_size()) as u64,
                dtype.spec_elem_size() as usize,
            ),
    {
        let logical_bytes = budget.logical_element_bytes(dtype, plan.logical_f32_element_count)?;
        let io_regime = resolve_io_regime(budget, logical_bytes);
        let multi_chunk = plan.chunks.len() > 1;
        let full_dense = Self::is_dense_unit_step_full_selection(plan);
        let contiguous_raw = detect_contiguous_raw_span(plan, dtype.elem_size()).is_some();
        let fold_parallel = match hints {
            Some(h) => h.fold_parallel,
            None => None,
        };
        let linear_scan = io_regime == IoRegime::OutOfCore && full_dense && contiguous_raw
            && fold_parallel != Some(true);
        let parallel = if linear_scan {
            false
        } else {
            match fold_parallel {
                Some(true) => multi_chunk,
                Some(false) => false,
                None => multi_chunk,
            }
        };
        let sequential_io = !parallel && !linear_scan && multi_chunk && full_dense;
        Ok(FoldIoPolicy { parallel, io_regime, sequential_io, fold_workers: None, linear_scan })
    }
}

/// In-core when the selection fits in 85 % of the detected host RAM.
pub fn resolve_io_regime(budget: &ExecutionBudget, logical_bytes: u64) -> (r: IoRegime)
    ensures
        r == spec_io_regime(budget.host_available_ram_bytes, logical_bytes),
{
    match budget.host_available_ram_bytes {
        Some(avail) => {
            let headroom = match avail.checked_mul(IN_CORE_IO_HEADROOM_BPS) {
                Some(v) => v / 10000,
                None => u64::MAX / 10000,
            };
            if logical_bytes > headroom {
                IoRegime::OutOfCore
            } else {
                IoRegime::InCore
            }
        },
        None => IoRegime::Unknown,
    }
}

/// Sort key order: by payload offset, ties by chunk position.
pub open spec fn offset_key_lt(chunks: Seq<PlannedChunkIo>, a: usize, b: usize) -> bool {
    chunks[a as int].payload_offset < chunks[b as int].payload_offset || (
    chunks[a as int].payload_offset == chunks[b as int].payload_offset && a < b)
}

/// `r` lists every chunk position `0..n` exactly once.
pub open spec fn is_index_permutation(r: Seq<usize>, n: nat) -> bool {
    &&& r.len() == n
    &&& forall|i: int| 0 <= i < r.len() ==> r[i] < n
    &&& forall|i: int, j: int| 0 <= i < j < r.len() ==> r[i] != r[j]
}

/// Chunk visit order for a sequential fold: by on-disk offset (stable) when `sequential_io`
/// and there are several chunks, plan order otherwise.
pub fn chunk_indices_for_fold(plan: &ReadPlan, sequential_io: bool) -> (r: Vec<usize>)
    ensures
        is_index_permutation(r@, plan.chunks@.len()),
        sequential_io && plan.chunks@.len() > 1 ==> forall|i: int, j: int|
            0 <= i < j < r@.len() ==> offset_key_lt(plan.chunks@, r@[i], r@[j]),
        !(sequential_io && plan.chunks@.len() > 1) ==> forall|i: int|
            0 <= i < r@.len() ==> r@[i] == i,
{
    let n = plan.chunks.len();
    let mut out: Vec<usize> = Vec::new();
    if !(sequential_io && n > 1) {
        let mut i: usize = 0;
        while i < n
            invariant
                0 <= i <= n,
                out@.len() == i,
                forall|k: int| 0 <= k < i ==> out@[k] == k,
            decreases n - i,
        {
            out.push(i);
            i += 1;
        }
        return out;
    }
    let chunks = &plan.chunks;
    let mut i: usize = 0;
    while i < n
        invariant
            n == chunks@.len(),
            0 <= i <= n,
            out@.len() == i,
            forall|k: int| 0 <= k < out@.len() ==> out@[k] < i,
            forall|a: int, b: int| 0 <= a < b < out@.len() ==> out@[a] != out@[b],
            forall|a: int, b: int|
                0 <= a < b < out@.len() ==> offset_key_lt(chunks@, out@[a], out@[b]),
        decreases n - i,
    {
        let off = chunks[i].payload_offset;
        let mut pos = out.len();
        while pos > 0 && chunks[out[pos - 1]].payload_offset > off
            invariant
                n == chunks@.len(),
                i < n,
                out@.len() == i,
                0 <= pos <= out@.len(),
                off == chunks@[i as int].payload_offset,
                forall|k: int| 0 <= k < out@.len() ==> out@[k] < i,
                forall|k: int| pos <= k < out@.len() ==> chunks@[out@[k] as int].payload_offset > off,
            decreases pos,
        {
            pos -= 1;
        }
        let ghost old_out = out@;
        proof {
            assert forall|k: int| 0 <= k < pos implies offset_key_lt(chunks@, old_out[k], i) by {
                if k < pos - 1 {
                    assert(offset_key_lt(chunks@, old_out[k], old_out[pos - 1]));
                }
            }
        }
        out.insert(pos, i);
        proof {
            assert forall|a: int, b: int| 0 <= a < b < out@.len() implies offset_key_lt(
                chunks@,
                out@[a],
                out@[b],
            ) by {
                if b < pos {
                    assert(out@[a] == old_out[a] && out@[b] == old_out[b]);
                } else if b == pos {
                    assert(out@[a] == old_out[a]);
                } else if a == pos {
                    assert(out@[b] == old_out[b - 1]);
                } else if a < pos {
                    assert(out@[a] == old_out[a] && out@[b] == old_out[b - 1]);
                    assert(offset_key_lt(chunks@, old_out[a], i));
                } else {
                    assert(out@[a] == old_out[a - 1] && out@[b] == old_out[b - 1]);
                }
            }
            assert forall|a: int, b: int| 0 <= a < b < out@.len() implies out@[a] != out@[b] by {
                assert(offset_key_lt(chunks@, out@[a], out@[b]));
            }
        }
        i += 1;
    }
    out
}

} // verus!
