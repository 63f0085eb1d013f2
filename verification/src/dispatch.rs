//! Read-plan materialization: scatter every planned chunk into a capped logical preview.
use vstd::prelude::*;

use crate::chunk_decode::{
    chunk_cover, chunk_nelem, chunk_ok, chunk_raw, chunk_scatter, elem_value, global_of,
    lemma_chunk_scatter_from_grid, on_grid_at, scatter_chunk_into, steps_positive, tile_seq,
};
use crate::types::{ElementDtype, ReadPlan, TetError};

verus! {

/// Sum of the stored byte lengths of the first `j` planned chunks.
pub open spec fn sum_stored(plan: &ReadPlan, j: nat) -> int
    decreases j,
{
    if j == 0 || j > plan.chunks@.len() {
        0
    } else {
        sum_stored(plan, (j - 1) as nat) + plan.chunks@[j - 1].stored_byte_len
    }
}

/// `out` after scattering the first `j` planned chunks in plan order.
pub open spec fn plan_scatter(out: Seq<u64>, plan: &ReadPlan, mmap: Seq<u8>, elem_size: nat, j: nat) -> Seq<
    u64,
>
    decreases j,
{
    if j == 0 || j > plan.chunks@.len() {
        out
    } else {
        let c = plan.chunks@[j - 1];
        chunk_scatter(
            plan_scatter(out, plan, mmap, elem_size, (j - 1) as nat),
            plan,
            c.chunk_index@,
            tile_seq(plan, c.chunk_index@),
            chunk_raw(mmap, c),
            elem_size as int,
            chunk_nelem(c, elem_size),
        )
    }
}

/// `cover` after marking the positions the first `j` planned chunks write.
pub open spec fn plan_cover(cover: Seq<bool>, plan: &ReadPlan, elem_size: nat, j: nat) -> Seq<bool>
    decreases j,
{
    if j == 0 || j > plan.chunks@.len() {
        cover
    } else {
        let c = plan.chunks@[j - 1];
        chunk_cover(
            plan_cover(cover, plan, elem_size, (j - 1) as nat),
            plan,
            c.chunk_index@,
            tile_seq(plan, c.chunk_index@),
            chunk_nelem(c, elem_size),
        )
    }
}

/// For each logical position, whether some planned chunk writes it.
pub open spec fn plan_coverage(plan: &ReadPlan, elem_size: nat) -> Seq<bool> {
    plan_cover(
        Seq::new(plan.logical_f32_element_count as nat, |k: int| false),
        plan,
        elem_size,
        plan.chunks@.len(),
    )
}

/// Every logical position of the selection is written by some planned chunk.
pub open spec fn fully_covered(plan: &ReadPlan, elem_size: nat) -> bool {
    forall|i: int|
        0 <= i < plan.logical_f32_element_count ==> #[trigger] plan_coverage(plan, elem_size)[i]
}

/// The logical selection of `plan` as a zero-filled row-major buffer with every planned chunk
/// scattered into it.
pub open spec fn plan_values(plan: &ReadPlan, mmap: Seq<u8>, elem_size: nat) -> Seq<u64> {
    plan_scatter(
        Seq::new(plan.logical_f32_element_count as nat, |i: int| 0u64),
        plan,
        mmap,
        elem_size,
        plan.chunks@.len(),
    )
}

/// Element `k` of planned chunk `q` lies on the selection's stride grid at logical position `p`
/// and holds `v`.
pub open spec fn grid_element_at(
    plan: &ReadPlan,
    mmap: Seq<u8>,
    elem_size: nat,
    q: int,
    k: int,
    p: int,
    v: u64,
) -> bool {
    let c = plan.chunks@[q];
    &&& 0 <= q < plan.chunks@.len()
    &&& 0 <= k < chunk_nelem(c, elem_size)
    &&& on_grid_at(plan, global_of(plan, c.chunk_index@, tile_seq(plan, c.chunk_index@), k), p)
    &&& v == elem_value(chunk_raw(mmap, c), k, elem_size as int) as u64
}

/// After the first `j` planned chunks, a logical position either keeps its value and coverage,
/// or is covered and holds an element of a planned chunk on the stride grid at that position.
proof fn lemma_plan_scatter_from_grid(
    out: Seq<u64>,
    cover: Seq<bool>,
    plan: &ReadPlan,
    mmap: Seq<u8>,
    elem_size: nat,
    j: nat,
    p: int,
)
    requires
        out.len() == cover.len(),
        0 <= p < out.len(),
        steps_positive(plan),
        plan.geometry_wf(),
    ensures
        plan_scatter(out, plan, mmap, elem_size, j).len() == out.len(),
        plan_cover(cover, plan, elem_size, j).len() == cover.len(),
        (plan_scatter(out, plan, mmap, elem_size, j)[p] == out[p] && plan_cover(
            cover,
            plan,
            elem_size,
            j,
        )[p] == cover[p]) || (plan_cover(cover, plan, elem_size, j)[p] && exists|q: int, k: int|
            #[trigger] grid_element_at(
                plan,
                mmap,
                elem_size,
                q,
                k,
                p,
                plan_scatter(out, plan, mmap, elem_size, j)[p],
            )),
    decreases j,
{
    if j > 0 && j <= plan.chunks@.len() {
        lemma_plan_scatter_from_grid(out, cover, plan, mmap, elem_size, (j - 1) as nat, p);
        let c = plan.chunks@[j - 1];
        let prev = plan_scatter(out, plan, mmap, elem_size, (j - 1) as nat);
        let prevc = plan_cover(cover, plan, elem_size, (j - 1) as nat);
        let cc = c.chunk_index@;
        let tile = tile_seq(plan, cc);
        let raw = chunk_raw(mmap, c);
        let n = chunk_nelem(c, elem_size);
        lemma_chunk_scatter_from_grid(prev, prevc, plan, cc, tile, raw, elem_size as int, n, p);
        let now = chunk_scatter(prev, plan, cc, tile, raw, elem_size as int, n);
        if now[p] == prev[p] && chunk_cover(prevc, plan, cc, tile, n)[p] == prevc[p] {
            if !(now[p] == out[p] && prevc[p] == cover[p]) {
                let (q, k) = choose|q: int, k: int|
                    #[trigger] grid_element_at(plan, mmap, elem_size, q, k, p, prev[p]);
                assert(grid_element_at(plan, mmap, elem_size, q, k, p, now[p]));
            }
        } else {
            let k = choose|k: int|
                0 <= k < n && on_grid_at(plan, #[trigger] global_of(plan, cc, tile, k), p)
                    && now[p] == elem_value(raw, k, elem_size as int) as u64;
            assert(grid_element_at(plan, mmap, elem_size, j - 1, k, p, now[p]));
        }
    }
}

/// Every value of a materialized selection comes from the stride grid: when the planned chunks
/// cover the selection, the value at each logical position is an element of a planned chunk
/// whose global coordinate is `start + n * step` on every axis and whose logical position
/// (`n` in row-major order) is that position. Elements off the grid are never written.
pub proof fn lemma_materialized_values_on_grid(plan: &ReadPlan, mmap: Seq<u8>, elem_size: nat, p: int)
    requires
        0 <= p < plan.logical_f32_element_count,
        steps_positive(plan),
        plan.geometry_wf(),
        fully_covered(plan, elem_size),
    ensures
        exists|q: int, k: int|
            #[trigger] grid_element_at(plan, mmap, elem_size, q, k, p, plan_values(plan, mmap, elem_size)[p]),
{
    let zeros = Seq::new(plan.logical_f32_element_count as nat, |i: int| 0u64);
    let unset = Seq::new(plan.logical_f32_element_count as nat, |k: int| false);
    lemma_plan_scatter_from_grid(zeros, unset, plan, mmap, elem_size, plan.chunks@.len(), p);
    assert(plan_values(plan, mmap, elem_size) == plan_scatter(zeros, plan, mmap, elem_size, plan.chunks@.len()));
    assert(plan_coverage(plan, elem_size) == plan_cover(unset, plan, elem_size, plan.chunks@.len()));
    assert(plan_coverage(plan, elem_size)[p]);
    assert(!unset[p]);
}

/// Check that the plan's per-axis geometry has one rank and that an output buffer of `out_len`
/// elements holds the logical selection.
pub fn validate_read_plan_geometry(plan: &ReadPlan, out_len: usize) -> (r: Result<(), TetError>)
    ensures
        r is Ok <==> plan.geometry_wf() && out_len == plan.logical_f32_element_count,
        r matches Err(e) ==> e is Validation,
{
    let ndim = plan.dataset_shape.len();
    if plan.chunk_shape.len() != ndim || plan.selection_box_start.len() != ndim
        || plan.selection_box_stop_exclusive.len() != ndim || plan.selection_step.len() != ndim
        || plan.logical_selection_shape.len() != ndim {
        return Err(TetError::Validation(String::from_str("read_plan geometry fields have inconsistent rank")));
    }
    if out_len != plan.logical_f32_element_count {
        return Err(TetError::Validation(String::from_str(
            "output buffer length differs from read_plan.logical_f32_element_count",
        )));
    }
    Ok(())
}

/// Scattering never changes the buffer length.
pub proof fn lemma_chunk_scatter_len(
    out: Seq<u64>,
    plan: &ReadPlan,
    cc: Seq<u64>,
    tile: Seq<u64>,
    raw: Seq<u8>,
    elem_size: int,
    k: nat,
)
    ensures
        chunk_scatter(out, plan, cc, tile, raw, elem_size, k).len() == out.len(),
    decreases k,
{
    if k > 0 {
        lemma_chunk_scatter_len(out, plan, cc, tile, raw, elem_size, (k - 1) as nat);
        let g = crate::chunk_decode::global_of(plan, cc, tile, k - 1);
        lemma_logical_index_nonneg(plan, g, g.len() as int);
    }
}

/// Logical indices are never negative.
pub proof fn lemma_logical_index_nonneg(plan: &ReadPlan, g: Seq<u64>, ndim: int)
    ensures
        crate::dense_visit::spec_logical_index(plan, g, ndim) matches Some(i) ==> i >= 0,
{
    let lc = crate::dense_visit::logical_coords(
        g,
        plan.selection_box_start@,
        plan.selection_step@,
        ndim,
    );
    if crate::dense_visit::coords_fit_usize(lc) {
        let cs = crate::dense_visit::as_usize_seq(lc);
        let shape = plan.logical_selection_shape@;
        if crate::indexing::coords_in_range(cs, shape) {
            crate::indexing::lemma_rm_offset_bound(cs, shape, 0);
        }
    }
}

/// Scattering planned chunks never changes the buffer length.
pub proof fn lemma_plan_scatter_len(out: Seq<u64>, plan: &ReadPlan, mmap: Seq<u8>, elem_size: nat, j: nat)
    ensures
        plan_scatter(out, plan, mmap, elem_size, j).len() == out.len(),
    decreases j,
{
    if j > 0 && j <= plan.chunks@.len() {
        lemma_plan_scatter_len(out, plan, mmap, elem_size, (j - 1) as nat);
        let c = plan.chunks@[j - 1];
        lemma_chunk_scatter_len(
            plan_scatter(out, plan, mmap, elem_size, (j - 1) as nat),
            plan,
            c.chunk_index@,
            tile_seq(plan, c.chunk_index@),
            chunk_raw(mmap, c),
            elem_size as int,
            chunk_nelem(c, elem_size),
        );
    }
}

/// The first `j` chunks all scatter without error.
pub open spec fn chunks_ok(plan: &ReadPlan, mmap: Seq<u8>, elem_size: nat, j: nat) -> bool {
    forall|i: int| 0 <= i < j ==> chunk_ok(plan, #[trigger] plan.chunks@[i], mmap, elem_size)
}

/// Preview length for a logical selection of `n` elements capped at `max`.
pub open spec fn preview_cap(n: usize, max: Option<usize>) -> usize {
    match max {
        Some(m) => if m < n {
            m
        } else {
            n
        },
        None => n,
    }
}

/// Add a chunk's byte count to a running total, a validation error on overflow.
pub fn accumulate_chunk_read_bytes(total: &mut u64, chunk_bytes: u64) -> (r: Result<(), TetError>)
    ensures
        r is Ok <==> old(total) + chunk_bytes <= u64::MAX,
        r is Ok ==> *final(total) == old(total) + chunk_bytes,
        r is Err ==> *final(total) == *old(total),
{
    match total.checked_add(chunk_bytes) {
        Some(v) => {
            *total = v;
            Ok(())
        },
        None => Err(TetError::Validation(String::from_str("total bytes read overflow"))),
    }
}

pub open spec fn seq_sum(s: Seq<u64>) -> int
    decreases s.len(),
{
    if s.len() == 0 {
        0
    } else {
        seq_sum(s.drop_last()) + s.last()
    }
}

/// Sum of chunk byte counts, a validation error when it exceeds `u64::MAX`.
pub fn sum_chunk_read_bytes(bytes: &Vec<u64>) -> (r: Result<u64, TetError>)
    ensures
        r matches Ok(t) ==> t == seq_sum(bytes@),
        r is Err <==> seq_sum(bytes@) > u64::MAX,
{
    let mut total: u64 = 0;
    let mut i: usize = 0;
    while i < bytes.len()
        invariant
            0 <= i <= bytes@.len(),
            total == seq_sum(bytes@.take(i as int)),
        decreases bytes@.len() - i,
    {
        proof {
            assert(bytes@.take(i + 1).drop_last() =~= bytes@.take(i as int));
        }
        if accumulate_chunk_read_bytes(&mut total, bytes[i]).is_err() {
            proof {
                lemma_seq_sum_prefix(bytes@, i + 1);
            }
            return Err(TetError::Validation(String::from_str("total bytes read overflow")));
        }
        i += 1;
    }
    assert(bytes@.take(bytes@.len() as int) =~= bytes@);
    Ok(total)
}

proof fn lemma_seq_sum_prefix(s: Seq<u64>, k: int)
    requires
        0 <= k <= s.len(),
    ensures
        seq_sum(s.take(k)) <= seq_sum(s),
    decreases s.len() - k,
{
    if k < s.len() {
        lemma_seq_sum_prefix(s, k + 1);
        assert(s.take(k + 1).drop_last() =~= s.take(k));
    } else {
        assert(s.take(k) =~= s);
    }
}

proof fn lemma_sum_stored_mono(plan: &ReadPlan, a: nat, b: nat)
    requires
        a <= b <= plan.chunks@.len(),
    ensures
        sum_stored(plan, a) <= sum_stored(plan, b),
    decreases b - a,
{
    if a < b {
        lemma_sum_stored_mono(plan, a, (b - 1) as nat);
    }
}

/// Scatter every planned chunk into the full logical selection (row-major element bit patterns)
/// and return it with the stored bytes read; fails when the geometry is inconsistent, a chunk
/// does not decode, the byte total overflows, or some position is left unwritten.
fn materialize_scatter_fill(mmap: &[u8], plan: &ReadPlan, elem_size: usize) -> (r: Result<
    (Vec<u64>, u64),
    TetError,
>)
    requires
        steps_positive(plan),
        1 <= elem_size <= 8,
    ensures
        r is Ok <==> plan.geometry_wf() && chunks_ok(plan, mmap@, elem_size as nat, plan.chunks@.len())
            && sum_stored(plan, plan.chunks@.len()) <= u64::MAX && fully_covered(plan, elem_size as nat),
        r matches Ok((v, b)) ==> v@ == plan_values(plan, mmap@, elem_size as nat) && b == sum_stored(
            plan,
            plan.chunks@.len(),
        ),
{
    let n = plan.logical_f32_element_count;
    validate_read_plan_geometry(plan, n)?;
    let mut out: Vec<u64> = Vec::new();
    let mut cover: Vec<bool> = Vec::new();
    let mut i: usize = 0;
    while i < n
        invariant
            0 <= i <= n,
            out@.len() == i,
            cover@.len() == i,
            forall|k: int| 0 <= k < i ==> out@[k] == 0,
            forall|k: int| 0 <= k < i ==> !cover@[k],
        decreases n - i,
    {
        out.push(0);
        cover.push(false);
        i += 1;
    }
    let ghost zeros = Seq::new(n as nat, |i: int| 0u64);
    let ghost falses = Seq::new(n as nat, |i: int| false);
    assert(out@ =~= zeros);
    assert(cover@ =~= falses);
    let mut total: u64 = 0;
    let nchunks = plan.chunks.len();
    let mut j: usize = 0;
    while j < nchunks
        invariant
            plan.geometry_wf(),
            steps_positive(plan),
            1 <= elem_size <= 8,
            nchunks == plan.chunks@.len(),
            0 <= j <= nchunks,
            out@.len() == n,
            cover@.len() == n,
            out@ == plan_scatter(zeros, plan, mmap@, elem_size as nat, j as nat),
            cover@ == plan_cover(falses, plan, elem_size as nat, j as nat),
            chunks_ok(plan, mmap@, elem_size as nat, j as nat),
            total == sum_stored(plan, j as nat),
        decreases nchunks - j,
    {
        let b = scatter_chunk_into(mmap, plan, &plan.chunks[j], elem_size, &mut out, &mut cover)?;
        if accumulate_chunk_read_bytes(&mut total, b).is_err() {
            proof {
                lemma_sum_stored_mono(plan, (j + 1) as nat, nchunks as nat);
            }
            return Err(TetError::Validation(String::from_str("total bytes read overflow")));
        }
        proof {
            assert forall|i: int| 0 <= i < j + 1 implies chunk_ok(
                plan,
                #[trigger] plan.chunks@[i],
                mmap@,
                elem_size as nat,
            ) by {
                if i < j {
                    assert(chunks_ok(plan, mmap@, elem_size as nat, j as nat));
                }
            }
        }
        j += 1;
    }
    let mut k: usize = 0;
    while k < n
        invariant
            0 <= k <= n,
            cover@.len() == n,
            n == plan.logical_f32_element_count,
            cover@ == plan_cover(falses, plan, elem_size as nat, plan.chunks@.len()),
            falses == Seq::new(n as nat, |i: int| false),
            forall|t: int| 0 <= t < k ==> cover@[t],
        decreases n - k,
    {
        if !cover[k] {
            proof {
                assert(cover@ == plan_coverage(plan, elem_size as nat));
                assert(!plan_coverage(plan, elem_size as nat)[k as int]);
            }
            return Err(TetError::Validation(String::from_str(
                "materialized selection has unset elements (chunk payloads vs selection mismatch)",
            )));
        }
        k += 1;
    }
    proof {
        assert(cover@ == plan_coverage(plan, elem_size as nat));
        assert forall|t: int| 0 <= t < n implies #[trigger] plan_coverage(plan, elem_size as nat)[t] by {
            assert(cover@[t]);
        }
    }
    Ok((out, total))
}

/// The first `cap` elements of `v`.
fn prefix_copy(v: &Vec<u64>, cap: usize) -> (r: Vec<u64>)
    requires
        cap <= v@.len(),
    ensures
        r@ == v@.take(cap as int),
{
    let mut out: Vec<u64> = Vec::new();
    let mut i: usize = 0;
    while i < cap
        invariant
            0 <= i <= cap <= v@.len(),
            out@ == v@.take(i as int),
        decreases cap - i,
    {
        out.push(v[i]);
        assert(v@.take(i + 1) =~= v@.take(i as int).push(v@[i as int]));
        i += 1;
    }
    out
}

/// Decode the plan's selection into row-major element bit patterns, capped at `max_elements`.
/// Returns the values, whether they stop short of the logical selection, and the stored bytes
/// read. `Some(0)` returns nothing and reads nothing.
pub fn materialize_read_plan_bits(
    mmap: &[u8],
    plan: &ReadPlan,
    elem_size: usize,
    max_elements: Option<usize>,
) -> (r: Result<(Vec<u64>, bool, u64), TetError>)
    requires
        steps_positive(plan),
        1 <= elem_size <= 8,
    ensures
        max_elements == Some(0usize) ==> (r matches Ok((v, t, b)) && v@.len() == 0 && !t && b == 0),
        max_elements != Some(0usize) ==> (r is Ok <==> plan.geometry_wf() && chunks_ok(
            plan,
            mmap@,
            elem_size as nat,
            plan.chunks@.len(),
        ) && sum_stored(plan, plan.chunks@.len()) <= u64::MAX && fully_covered(
            plan,
            elem_size as nat,
        )),
        max_elements != Some(0usize) ==> (r matches Ok((v, t, b)) ==> {
            let cap = preview_cap(plan.logical_f32_element_count, max_elements);
            &&& v@ == plan_values(plan, mmap@, elem_size as nat).take(cap as int)
            &&& t == (cap < plan.logical_f32_element_count)
            &&& b == sum_stored(plan, plan.chunks@.len())
        }),
{
    match max_elements {
        Some(m) => if m == 0 {
            return Ok((Vec::new(), false, 0));
        },
        None => {},
    }
    let n = plan.logical_f32_element_count;
    let (all, total) = materialize_scatter_fill(mmap, plan, elem_size)?;
    proof {
        lemma_plan_scatter_len(
            Seq::new(n as nat, |i: int| 0u64),
            plan,
            mmap@,
            elem_size as nat,
            plan.chunks@.len(),
        );
    }
    let cap = match max_elements {
        Some(m) => if m < n {
            m
        } else {
            n
        },
        None => n,
    };
    let values = prefix_copy(&all, cap);
    Ok((values, cap < n, total))
}

/// A capped logical preview: element bit patterns of one dtype.
pub struct DecodePreview {
    pub dtype: ElementDtype,
    /// Little-endian element bit patterns in logical row-major order.
    pub bits: Vec<u64>,
    /// The preview holds fewer elements than the logical selection.
    pub truncated: bool,
}

/// Materialize a capped preview of the plan's selection for `dtype`, with the stored bytes read.
pub fn materialize_for_execution(
    mmap: &[u8],
    plan: &ReadPlan,
    max_elements: Option<usize>,
    dtype: ElementDtype,
) -> (r: Result<(DecodePreview, u64), TetError>)
    requires
        steps_positive(plan),
    ensures
        max_elements == Some(0usize) ==> (r matches Ok((p, b)) && p.dtype == dtype && p.bits@.len()
            == 0 && !p.truncated && b == 0),
        max_elements != Some(0usize) ==> (r is Ok <==> plan.geometry_wf() && chunks_ok(
            plan,
            mmap@,
            dtype.spec_elem_size(),
            plan.chunks@.len(),
        ) && sum_stored(plan, plan.chunks@.len()) <= u64::MAX && fully_covered(
            plan,
            dtype.spec_elem_size(),
        )),
        max_elements != Some(0usize) ==> (r matches Ok((p, b)) ==> {
            let cap = preview_cap(plan.logical_f32_element_count, max_elements);
            &&& p.dtype == dtype
            &&& p.bits@ == plan_values(plan, mmap@, dtype.spec_elem_size()).take(cap as int)
            &&& p.truncated == (cap < plan.logical_f32_element_count)
            &&& b == sum_stored(plan, plan.chunks@.len())
        }),
{
    let (bits, truncated, bytes) = materialize_read_plan_bits(mmap, plan, dtype.elem_size(), max_elements)?;
    Ok((DecodePreview { dtype, bits, truncated }, bytes))
}


/// Outcome of [`materialize_read_plan_bits_into`].
#[derive(Debug, Clone, Copy, PartialEq, Eq, Structural)]
pub struct MaterializeReadPlanF32IntoOutcome {
    /// Logical tensor element count (selection grid product).
    pub logical_element_count: usize,
    /// Values written to the start of the caller buffer.
    pub elements_written: usize,
    pub truncated: bool,
    pub total_bytes_read_from_disk: u64,
}

/// Like [`materialize_read_plan_bits`], but writes the first `min(max_elements, logical)` element
/// bit patterns into the start of `dst` (which must be long enough) instead of returning them.
/// `max_elements == Some(0)` writes and reads nothing.
pub fn materialize_read_plan_bits_into(
    mmap: &[u8],
    plan: &ReadPlan,
    elem_size: usize,
    max_elements: Option<usize>,
    dst: &mut Vec<u64>,
) -> (r: Result<MaterializeReadPlanF32IntoOutcome, TetError>)
    requires
        steps_positive(plan),
        1 <= elem_size <= 8,
    ensures
        max_elements == Some(0usize) ==> r == Ok::<_, TetError>(
            MaterializeReadPlanF32IntoOutcome {
                logical_element_count: plan.logical_f32_element_count,
                elements_written: 0,
                truncated: plan.logical_f32_element_count > 0,
                total_bytes_read_from_disk: 0,
            },
        ) && final(dst)@ == old(dst)@,
        max_elements != Some(0usize) ==> (r is Ok <==> (old(dst)@.len() >= preview_cap(
            plan.logical_f32_element_count,
            max_elements,
        ) && plan.geometry_wf() && chunks_ok(plan, mmap@, elem_size as nat, plan.chunks@.len())
            && sum_stored(plan, plan.chunks@.len()) <= u64::MAX && fully_covered(
            plan,
            elem_size as nat,
        ))),
        max_elements != Some(0usize) ==> (r matches Ok(o) ==> {
            let cap = preview_cap(plan.logical_f32_element_count, max_elements);
            &&& o.logical_element_count == plan.logical_f32_element_count
            &&& o.elements_written == cap
            &&& o.truncated == (cap < plan.logical_f32_element_count)
            &&& o.total_bytes_read_from_disk == sum_stored(plan, plan.chunks@.len())
            &&& final(dst)@.len() == old(dst)@.len()
            &&& final(dst)@.subrange(0, cap as int) == plan_values(
                plan,
                mmap@,
                elem_size as nat,
            ).take(cap as int)
            &&& final(dst)@.subrange(cap as int, final(dst)@.len() as int) == old(dst)@.subrange(
                cap as int,
                old(dst)@.len() as int,
            )
        }),
        r is Err ==> final(dst)@ == old(dst)@,
{
    let n = plan.logical_f32_element_count;
    match max_elements {
        Some(m) => if m == 0 {
            return Ok(
                MaterializeReadPlanF32IntoOutcome {
                    logical_element_count: n,
                    elements_written: 0,
                    truncated: n > 0,
                    total_bytes_read_from_disk: 0,
                },
            );
        },
        None => {},
    }
    let want = match max_elements {
        Some(m) => if m < n {
            m
        } else {
            n
        },
        None => n,
    };
    if dst.len() < want {
        return Err(TetError::Validation(String::from_str(
            "destination buffer is shorter than the elements to write",
        )));
    }
    let (vals, _truncated, total) = materialize_read_plan_bits(mmap, plan, elem_size, max_elements)?;
    proof {
        lemma_plan_scatter_len(
            Seq::new(n as nat, |i: int| 0u64),
            plan,
            mmap@,
            elem_size as nat,
            plan.chunks@.len(),
        );
    }
    let mut i: usize = 0;
    while i < want
        invariant
            want <= dst@.len(),
            dst@.len() == old(dst)@.len(),
            vals@.len() == want,
            0 <= i <= want,
            forall|k: int| 0 <= k < i ==> dst@[k] == vals@[k],
            forall|k: int| i <= k < dst@.len() ==> dst@[k] == old(dst)@[k],
        decreases want - i,
    {
        dst.set(i, vals[i]);
        i += 1;
    }
    assert(dst@.subrange(0, want as int) =~= vals@);
    assert(dst@.subrange(want as int, dst@.len() as int) =~= old(dst)@.subrange(
        want as int,
        old(dst)@.len() as int,
    ));
    Ok(
        MaterializeReadPlanF32IntoOutcome {
            logical_element_count: n,
            elements_written: want,
            truncated: want < n,
            total_bytes_read_from_disk: total,
        },
    )
}

} // verus!
