//! Chunk payload I/O: mapped-file slices, tile geometry and per-element scatter.
//!
//! Elements are handled as little-endian bit patterns (`u64`), whatever their dtype; the
//! caller reinterprets the bits (`f32::from_bits`, sign extension, …).
use vstd::prelude::*;

use crate::dense_visit::{as_usize_seq, logical_coords, logical_index_for_global, spec_logical_index};
use crate::indexing::{coords_from_linear_row_major, spec_coord_of, suffix_prod,
    lemma_suffix_prod_pos, all_extents_positive, extents_fit_usize};
use crate::partial_geometry::{shape_product, shape_product_usize};
use crate::text::{decimal_strings, decimals, join_strings, join_with, owned, push_decimal, push_str};
use crate::types::{PlannedChunkIo, ReadPlan, TetError, CODEC_RAW};

verus! {

/// Unsigned little-endian value of `bytes`.
pub open spec fn le_value(bytes: Seq<u8>) -> nat
    decreases bytes.len(),
{
    if bytes.len() == 0 {
        0
    } else {
        bytes[0] as nat + 256 * le_value(bytes.drop_first())
    }
}

pub open spec fn pow256(k: nat) -> nat
    decreases k,
{
    if k == 0 {
        1
    } else {
        256 * pow256((k - 1) as nat)
    }
}

proof fn lemma_le_value_bound(bytes: Seq<u8>)
    ensures
        le_value(bytes) < pow256(bytes.len()),
    decreases bytes.len(),
{
    if bytes.len() > 0 {
        lemma_le_value_bound(bytes.drop_first());
        let rest = le_value(bytes.drop_first());
        let p = pow256((bytes.len() - 1) as nat);
        assert(bytes[0] as nat + 256 * rest < 256 * p) by (nonlinear_arith)
            requires rest < p, bytes[0] < 256;
    }
}

proof fn lemma_pow256_le8(k: nat)
    requires
        k <= 8,
    ensures
        pow256(k) <= 0x1_0000_0000_0000_0000,
{
    reveal_with_fuel(pow256, 9);
}

/// Element `k` (of `elem_size` bytes) of `raw`, little-endian.
pub open spec fn elem_value(raw: Seq<u8>, k: int, elem_size: int) -> nat {
    le_value(raw.subrange(k * elem_size, k * elem_size + elem_size))
}

/// Little-endian unsigned value of element `k`.
pub fn read_le_elem(raw: &[u8], k: usize, elem_size: usize) -> (r: u64)
    requires
        1 <= elem_size <= 8,
        (k + 1) * elem_size <= raw@.len(),
    ensures
        r == elem_value(raw@, k as int, elem_size as int),
{
    let n = raw.len();
    proof {
        assert(k * elem_size + elem_size == (k + 1) * elem_size) by (nonlinear_arith);
    }
    let base = k * elem_size;
    let ghost bytes = raw@.subrange(base as int, base + elem_size);
    let mut v: u64 = 0;
    let mut j: usize = elem_size;
    proof {
        assert(bytes.subrange(elem_size as int, elem_size as int) =~= Seq::<u8>::empty());
    }
    while j > 0
        invariant
            1 <= elem_size <= 8,
            base + elem_size <= raw@.len(),
            raw@.len() == n,
            bytes == raw@.subrange(base as int, base + elem_size),
            0 <= j <= elem_size,
            v as nat == le_value(bytes.subrange(j as int, elem_size as int)),
        decreases j,
    {
        let i = j - 1;
        proof {
            let tail = bytes.subrange(j as int, elem_size as int);
            let ext = bytes.subrange(i as int, elem_size as int);
            assert(ext.drop_first() =~= tail);
            lemma_le_value_bound(ext);
            lemma_pow256_le8(ext.len());
            assert(v as nat * 256 + bytes[i as int] as nat == le_value(ext));
        }
        v = v * 256 + raw[base + i] as u64;
        j = i;
    }
    assert(bytes.subrange(0, elem_size as int) =~= bytes);
    v
}

/// Sum with saturation at `u64::MAX`.
pub open spec fn sat_add(a: int, b: int) -> int {
    if a + b > u64::MAX {
        u64::MAX as int
    } else {
        a + b
    }
}

/// Product with saturation at `u64::MAX`.
pub open spec fn sat_mul(a: int, b: int) -> int {
    if a * b > u64::MAX {
        u64::MAX as int
    } else {
        a * b
    }
}

/// Global origin of the chunk at grid coordinate `cc` on axis `d`.
pub open spec fn chunk_origin(plan: &ReadPlan, cc: Seq<u64>, d: int) -> int {
    sat_mul(cc[d] as int, plan.chunk_shape@[d] as int)
}

/// Extent of the (possibly clipped edge) tile on axis `d`.
pub open spec fn tile_ext(plan: &ReadPlan, cc: Seq<u64>, d: int) -> int {
    let o = chunk_origin(plan, cc, d);
    let s = plan.dataset_shape@[d] as int;
    let cs = plan.chunk_shape@[d] as int;
    if o >= s {
        0
    } else if cs < s - o {
        cs
    } else {
        s - o
    }
}

/// Tile extents of the chunk at `cc`.
pub open spec fn tile_seq(plan: &ReadPlan, cc: Seq<u64>) -> Seq<u64> {
    Seq::new(plan.dataset_shape@.len(), |d: int| tile_ext(plan, cc, d) as u64)
}

/// Global coordinate of element `k` (row-major within the tile) of the chunk at `cc`.
pub open spec fn global_of(plan: &ReadPlan, cc: Seq<u64>, tile: Seq<u64>, k: int) -> Seq<u64> {
    Seq::new(
        plan.dataset_shape@.len(),
        |d: int| sat_add(chunk_origin(plan, cc, d), spec_coord_of(k, tile, d)) as u64,
    )
}

/// Axis `d` of `g` lies in the selection box on the stride grid.
pub open spec fn axis_selected(plan: &ReadPlan, g: Seq<u64>, d: int) -> bool {
    let st = plan.selection_box_start@[d];
    let step = plan.selection_step@[d];
    g[d] >= st && g[d] < plan.selection_box_stop_exclusive@[d] && (g[d] - st) % (step as int) == 0
}

/// `g` is a selected global coordinate.
pub open spec fn is_selected(plan: &ReadPlan, g: Seq<u64>) -> bool {
    forall|d: int| 0 <= d < g.len() ==> #[trigger] axis_selected(plan, g, d)
}

/// Selection steps are all at least one.
pub open spec fn steps_positive(plan: &ReadPlan) -> bool {
    forall|d: int| 0 <= d < plan.selection_step@.len() ==> #[trigger] plan.selection_step@[d] >= 1
}

/// `out` after scattering the first `k` elements of a chunk (later writes win).
pub open spec fn chunk_scatter(
    out: Seq<u64>,
    plan: &ReadPlan,
    cc: Seq<u64>,
    tile: Seq<u64>,
    raw: Seq<u8>,
    elem_size: int,
    k: nat,
) -> Seq<u64>
    decreases k,
{
    if k == 0 {
        out
    } else {
        let prev = chunk_scatter(out, plan, cc, tile, raw, elem_size, (k - 1) as nat);
        let g = global_of(plan, cc, tile, k - 1);
        if is_selected(plan, g) && spec_logical_index(plan, g, g.len() as int) is Some
            && spec_logical_index(plan, g, g.len() as int)->0 < prev.len() {
            prev.update(
                spec_logical_index(plan, g, g.len() as int)->0,
                elem_value(raw, k - 1, elem_size) as u64,
            )
        } else {
            prev
        }
    }
}

/// `cover` after marking the logical positions that the first `k` elements of a chunk write.
pub open spec fn chunk_cover(
    cover: Seq<bool>,
    plan: &ReadPlan,
    cc: Seq<u64>,
    tile: Seq<u64>,
    k: nat,
) -> Seq<bool>
    decreases k,
{
    if k == 0 {
        cover
    } else {
        let prev = chunk_cover(cover, plan, cc, tile, (k - 1) as nat);
        let g = global_of(plan, cc, tile, k - 1);
        if is_selected(plan, g) && spec_logical_index(plan, g, g.len() as int) is Some
            && spec_logical_index(plan, g, g.len() as int)->0 < prev.len() {
            prev.update(spec_logical_index(plan, g, g.len() as int)->0, true)
        } else {
            prev
        }
    }
}

/// `g` lies inside the selection box on the stride grid of every axis, and it is the global
/// coordinate `start + n * step` of logical row-major position `p`, `n` being the coordinates
/// of `p` in the logical selection shape.
pub open spec fn on_grid_at(plan: &ReadPlan, g: Seq<u64>, p: int) -> bool {
    &&& forall|d: int|
        0 <= d < g.len() ==> plan.selection_box_start@[d] <= #[trigger] g[d]
            && g[d] < plan.selection_box_stop_exclusive@[d] && (g[d] - plan.selection_box_start@[d])
            % (plan.selection_step@[d] as int) == 0
    &&& g.len() == plan.logical_selection_shape@.len()
    &&& forall|d: int|
        0 <= d < g.len() ==> #[trigger] g[d] == plan.selection_box_start@[d] + spec_coord_of(
            p,
            plan.logical_selection_shape@,
            d,
        ) * plan.selection_step@[d]
    &&& spec_logical_index(plan, g, g.len() as int) == Some(p)
}

/// Scattering a chunk changes a logical position only with an element of the chunk that lies on
/// the selection's stride grid at that position: after the first `k` elements, position `p`
/// either keeps its value and coverage, or is covered and holds element `j` of the chunk whose
/// global coordinate is on the grid at `p`.
pub proof fn lemma_chunk_scatter_from_grid(
    out: Seq<u64>,
    cover: Seq<bool>,
    plan: &ReadPlan,
    cc: Seq<u64>,
    tile: Seq<u64>,
    raw: Seq<u8>,
    elem_size: int,
    k: nat,
    p: int,
)
    requires
        out.len() == cover.len(),
        0 <= p < out.len(),
        steps_positive(plan),
        plan.selection_step@.len() == plan.dataset_shape@.len(),
        plan.selection_box_start@.len() == plan.dataset_shape@.len(),
    ensures
        chunk_scatter(out, plan, cc, tile, raw, elem_size, k).len() == out.len(),
        chunk_cover(cover, plan, cc, tile, k).len() == cover.len(),
        (chunk_scatter(out, plan, cc, tile, raw, elem_size, k)[p] == out[p] && chunk_cover(
            cover,
            plan,
            cc,
            tile,
            k,
        )[p] == cover[p]) || (chunk_cover(cover, plan, cc, tile, k)[p] && exists|j: int|
            0 <= j < k && on_grid_at(plan, #[trigger] global_of(plan, cc, tile, j), p)
                && chunk_scatter(out, plan, cc, tile, raw, elem_size, k)[p] == elem_value(
                raw,
                j,
                elem_size,
            ) as u64),
    decreases k,
{
    if k > 0 {
        lemma_chunk_scatter_from_grid(out, cover, plan, cc, tile, raw, elem_size, (k - 1) as nat, p);
        let prev = chunk_scatter(out, plan, cc, tile, raw, elem_size, (k - 1) as nat);
        let prevc = chunk_cover(cover, plan, cc, tile, (k - 1) as nat);
        let g = global_of(plan, cc, tile, k - 1);
        let li = spec_logical_index(plan, g, g.len() as int);
        if li is Some {
            let lc = as_usize_seq(logical_coords(g, plan.selection_box_start@, plan.selection_step@, g.len() as int));
            crate::indexing::lemma_rm_offset_bound(lc, plan.logical_selection_shape@, 0);
            assert(li->0 >= 0);
        }
        let hit = is_selected(plan, g) && li is Some && li->0 < prev.len();
        assert(chunk_scatter(out, plan, cc, tile, raw, elem_size, k) == if hit {
            prev.update(li->0, elem_value(raw, k - 1, elem_size) as u64)
        } else {
            prev
        });
        assert(chunk_cover(cover, plan, cc, tile, k) == if hit {
            prevc.update(li->0, true)
        } else {
            prevc
        });
        if hit {
            if li->0 == p {
                assert forall|d: int| 0 <= d < g.len() implies plan.selection_box_start@[d]
                    <= #[trigger] g[d] && g[d] < plan.selection_box_stop_exclusive@[d] && (g[d]
                    - plan.selection_box_start@[d]) % (plan.selection_step@[d] as int) == 0 by {
                    assert(axis_selected(plan, g, d));
                }
                let shape = plan.logical_selection_shape@;
                let lc = logical_coords(g, plan.selection_box_start@, plan.selection_step@, g.len() as int);
                let lcu = as_usize_seq(lc);
                crate::indexing::lemma_coords_roundtrip(lcu, shape);
                assert forall|d: int| 0 <= d < g.len() implies #[trigger] g[d]
                    == plan.selection_box_start@[d] + spec_coord_of(p, shape, d)
                    * plan.selection_step@[d] by {
                    assert(axis_selected(plan, g, d));
                    assert(plan.selection_step@[d] >= 1);
                    let x = g[d] - plan.selection_box_start@[d];
                    let st = plan.selection_step@[d] as int;
                    vstd::arithmetic::div_mod::lemma_fundamental_div_mod(x, st);
                    assert(lcu[d] == lc[d]);
                    assert(spec_coord_of(p, shape, d) == x / st);
                    assert(x == st * (x / st));
                    assert(st * (x / st) == (x / st) * st) by (nonlinear_arith);
                }
                assert(on_grid_at(plan, g, p));
            }
        }
    }
}

/// Some element among the first `k` is selected but has no representable logical index.
pub open spec fn chunk_index_error(plan: &ReadPlan, cc: Seq<u64>, tile: Seq<u64>, k: nat) -> bool {
    exists|j: int|
        0 <= j < k && is_selected(plan, #[trigger] global_of(plan, cc, tile, j))
            && spec_logical_index(plan, global_of(plan, cc, tile, j), plan.dataset_shape@.len() as int) is None
}

/// Stored payload range of a planned chunk, checked against the mapped length.
pub open spec fn payload_in_bounds(c: PlannedChunkIo, mmap_len: nat) -> bool {
    c.payload_offset + c.stored_byte_len <= mmap_len
}

/// `[a, b, …]`: the debug text of a chunk's grid coordinates.
fn index_list_text(v: &Vec<u64>) -> (r: String)
    ensures
        r@ == "["@ + join_with(decimals(v@), ", "@) + "]"@,
{
    let parts = decimal_strings(v);
    let body = join_strings(&parts, ", ");
    let mut out = owned("[");
    push_str(&mut out, body.as_str());
    push_str(&mut out, "]");
    out
}

/// `usize` value of the `u64` field `field`, a validation error when it does not fit.
pub fn u64_to_usize(field: &str, v: u64) -> (r: Result<usize, TetError>)
    ensures
        r matches Ok(u) ==> u == v,
        r is Err <==> v > usize::MAX,
        r matches Err(e) ==> e.is_validation(),
{
    if v > usize::MAX as u64 {
        let mut msg = owned(field);
        push_str(&mut msg, "=");
        push_decimal(&mut msg, v);
        push_str(&mut msg, " is too large for this platform");
        Err(TetError::Validation(msg))
    } else {
        Ok(v as usize)
    }
}

/// Byte range `[start, end)` of the stored payload of `c` inside a mapping of `mmap_len` bytes.
pub fn planned_chunk_stored_range(mmap_len: usize, c: &PlannedChunkIo) -> (r: Result<
    (usize, usize),
    TetError,
>)
    ensures
        r matches Ok((s, e)) ==> s == c.payload_offset && e == c.payload_offset
            + c.stored_byte_len && e <= mmap_len,
        r is Err <==> !payload_in_bounds(*c, mmap_len as nat),
        r matches Err(e) ==> e.is_validation(),
{
    let off = u64_to_usize("payload_offset", c.payload_offset)?;
    let len = u64_to_usize("stored_byte_len", c.stored_byte_len)?;
    match off.checked_add(len) {
        Some(end) => {
            if end > mmap_len {
                let mut msg = owned("chunk_index=");
                let idx = index_list_text(&c.chunk_index);
                push_str(&mut msg, idx.as_str());
                push_str(&mut msg, ": payload byte range extends past mmap length ");
                push_decimal(&mut msg, mmap_len as u64);
                push_str(&mut msg, " (end=");
                push_decimal(&mut msg, end as u64);
                push_str(&mut msg, ")");
                Err(TetError::Validation(msg))
            } else {
                Ok((off, end))
            }
        },
        None => Err(TetError::Validation(String::from_str("payload byte range overflow"))),
    }
}

/// Stored payload bytes of `c` (a zero-copy slice of `mmap`).
pub fn planned_chunk_stored_slice<'a>(mmap: &'a [u8], c: &PlannedChunkIo) -> (r: Result<
    &'a [u8],
    TetError,
>)
    ensures
        r matches Ok(s) ==> payload_in_bounds(*c, mmap@.len()) && s@ == mmap@.subrange(
            c.payload_offset as int,
            c.payload_offset + c.stored_byte_len,
        ),
        r is Err <==> !payload_in_bounds(*c, mmap@.len()),
        r matches Err(e) ==> e.is_validation(),
{
    let (start, end) = planned_chunk_stored_range(mmap.len(), c)?;
    Ok(&mmap[start..end])
}

/// Tile extents of the chunk at grid coordinate `chunk_coord` (edge tiles are clipped).
pub fn tile_extent(plan: &ReadPlan, chunk_coord: &[u64]) -> (r: Vec<u64>)
    requires
        plan.geometry_wf(),
        chunk_coord@.len() == plan.dataset_shape@.len(),
    ensures
        r@ == tile_seq(plan, chunk_coord@),
{
    let n = plan.dataset_shape.len();
    let mut out: Vec<u64> = Vec::new();
    let mut d: usize = 0;
    while d < n
        invariant
            plan.geometry_wf(),
            n == plan.dataset_shape@.len(),
            chunk_coord@.len() == n,
            0 <= d <= n,
            out@.len() == d,
            forall|k: int| 0 <= k < d ==> out@[k] == tile_seq(plan, chunk_coord@)[k],
        decreases n - d,
    {
        let o = match chunk_coord[d].checked_mul(plan.chunk_shape[d]) {
            Some(v) => v,
            None => u64::MAX,
        };
        let s = plan.dataset_shape[d];
        let cs = plan.chunk_shape[d];
        let e = if o >= s {
            0
        } else if cs < s - o {
            cs
        } else {
            s - o
        };
        out.push(e);
        d += 1;
    }
    assert(out@ =~= tile_seq(plan, chunk_coord@));
    out
}

/// A chunk ready for element visits: its raw payload range and tile geometry.
pub struct PreparedChunk {
    /// Stored bytes read from the mapping.
    pub bytes_read: u64,
    /// Raw payload range `[raw_start, raw_end)` in the mapping.
    pub raw_start: usize,
    pub raw_end: usize,
    /// Number of elements in the tile.
    pub nelem: usize,
    pub tile: Vec<u64>,
}

/// Conditions under which a chunk prepares successfully.
pub open spec fn chunk_prepares(plan: &ReadPlan, c: PlannedChunkIo, mmap_len: nat, elem_size: nat) -> bool {
    let tile = tile_seq(plan, c.chunk_index@);
    &&& c.chunk_index@.len() == plan.dataset_shape@.len()
    &&& payload_in_bounds(c, mmap_len)
    &&& c.codec == CODEC_RAW
    &&& c.raw_byte_len == c.stored_byte_len
    &&& (c.stored_byte_len as nat) % elem_size == 0
    &&& shape_product(tile) == (c.stored_byte_len as nat) / elem_size
}

/// Map the payload of `c`, check its codec, and check that its length matches the tile.
///
/// Only the raw codec is decoded here; compressed payloads are reported as unsupported.
pub fn prepare_chunk(mmap: &[u8], plan: &ReadPlan, c: &PlannedChunkIo, elem_size: usize) -> (r:
    Result<PreparedChunk, TetError>)
    requires
        plan.geometry_wf(),
        1 <= elem_size <= 8,
    ensures
        r is Ok <==> chunk_prepares(plan, *c, mmap@.len(), elem_size as nat),
        r matches Ok(p) ==> {
            &&& p.raw_start == c.payload_offset
            &&& p.raw_end == c.payload_offset + c.stored_byte_len
            &&& p.raw_end <= mmap@.len()
            &&& p.bytes_read == c.stored_byte_len
            &&& p.tile@ == tile_seq(plan, c.chunk_index@)
            &&& p.nelem == (c.stored_byte_len as int) / (elem_size as int)
            &&& p.nelem * elem_size == p.raw_end - p.raw_start
        },
{
    let ndim = plan.dataset_shape.len();
    if c.chunk_index.len() != ndim {
        let mut msg = owned("chunk_index=");
        let idx = index_list_text(&c.chunk_index);
        push_str(&mut msg, idx.as_str());
        push_str(&mut msg, " rank ");
        push_decimal(&mut msg, c.chunk_index.len() as u64);
        push_str(&mut msg, " != dataset rank ");
        push_decimal(&mut msg, ndim as u64);
        return Err(TetError::Validation(msg));
    }
    let (start, end) = planned_chunk_stored_range(mmap.len(), c)?;
    if c.codec != CODEC_RAW {
        return Err(TetError::Validation(String::from_str("chunk payload codec is not supported")));
    }
    if c.raw_byte_len != c.stored_byte_len {
        return Err(TetError::Validation(String::from_str("raw payload length differs from stored length")));
    }
    let len = end - start;
    if len % elem_size != 0 {
        let mut msg = owned("chunk raw length ");
        push_decimal(&mut msg, len as u64);
        push_str(&mut msg, " is not a multiple of ");
        push_decimal(&mut msg, elem_size as u64);
        push_str(&mut msg, " (chunk_index=");
        let idx = index_list_text(&c.chunk_index);
        push_str(&mut msg, idx.as_str());
        push_str(&mut msg, ")");
        return Err(TetError::Validation(msg));
    }
    let nelem = len / elem_size;
    let tile = tile_extent(plan, c.chunk_index.as_slice());
    let tile_elems = match shape_product_usize(tile.as_slice()) {
        Ok(t) => t,
        Err(e) => {
            proof {
                assert(nelem <= usize::MAX);
            }
            return Err(TetError::Validation(String::from_str("tile element count too large for this host")));
        },
    };
    if tile_elems != nelem {
        let mut msg = owned("chunk_index=");
        let idx = index_list_text(&c.chunk_index);
        push_str(&mut msg, idx.as_str());
        push_str(&mut msg, ": tile has ");
        push_decimal(&mut msg, tile_elems as u64);
        push_str(&mut msg, " values but raw_byte_len implies ");
        push_decimal(&mut msg, nelem as u64);
        return Err(TetError::Validation(msg));
    }
    proof {
        assert(nelem * elem_size == len) by (nonlinear_arith)
            requires nelem == len / elem_size, len % elem_size == 0, elem_size >= 1;
    }
    Ok(PreparedChunk { bytes_read: c.stored_byte_len, raw_start: start, raw_end: end, nelem, tile })
}

/// With positive extents, each extent is at most the element count.
proof fn lemma_extent_le_product(shape: Seq<u64>, d: int)
    requires
        all_extents_positive(shape),
        0 <= d < shape.len(),
    ensures
        shape[d] <= suffix_prod(shape, 0),
{
    crate::indexing::lemma_suffix_prod_mono(shape, 0, d);
    lemma_suffix_prod_pos(shape, d + 1);
    assert(suffix_prod(shape, d) == shape[d] * suffix_prod(shape, d + 1));
    assert(shape[d] * suffix_prod(shape, d + 1) >= shape[d]) by (nonlinear_arith)
        requires suffix_prod(shape, d + 1) >= 1;
}

/// A positive element count means every extent is positive.
proof fn lemma_positive_product_extents(shape: Seq<u64>, d: int)
    requires
        0 <= d <= shape.len(),
        suffix_prod(shape, d) > 0,
    ensures
        forall|k: int| d <= k < shape.len() ==> #[trigger] shape[k] >= 1,
    decreases shape.len() - d,
{
    if d < shape.len() {
        let p = suffix_prod(shape, d + 1);
        let e = shape[d] as int;
        assert(e * p > 0);
        assert(e >= 1 && p > 0) by (nonlinear_arith)
            requires e * p > 0, e >= 0, p >= 0 || p < 0;
        crate::indexing::lemma_suffix_prod_pos_or_zero(shape, d + 1);
        lemma_positive_product_extents(shape, d + 1);
    }
}

/// Raw payload bytes of a planned chunk.
pub open spec fn chunk_raw(mmap: Seq<u8>, c: PlannedChunkIo) -> Seq<u8> {
    mmap.subrange(c.payload_offset as int, c.payload_offset + c.stored_byte_len)
}

/// Element count of a planned chunk.
pub open spec fn chunk_nelem(c: PlannedChunkIo, elem_size: nat) -> nat {
    (c.stored_byte_len as nat) / elem_size
}

/// A chunk scatters without error: it prepares, and every selected element has a logical index.
pub open spec fn chunk_ok(plan: &ReadPlan, c: PlannedChunkIo, mmap: Seq<u8>, elem_size: nat) -> bool {
    chunk_prepares(plan, c, mmap.len(), elem_size) && !chunk_index_error(
        plan,
        c.chunk_index@,
        tile_seq(plan, c.chunk_index@),
        chunk_nelem(c, elem_size),
    )
}

/// Scatter every element of one planned chunk into `out` at its logical row-major index
/// (positions at or beyond `out.len()` are skipped). Returns the stored bytes read.
pub fn scatter_chunk_into(
    mmap: &[u8],
    plan: &ReadPlan,
    c: &PlannedChunkIo,
    elem_size: usize,
    out: &mut Vec<u64>,
    cover: &mut Vec<bool>,
) -> (r: Result<u64, TetError>)
    requires
        plan.geometry_wf(),
        steps_positive(plan),
        1 <= elem_size <= 8,
        old(cover)@.len() == old(out)@.len(),
    ensures
        final(out)@.len() == old(out)@.len(),
        final(cover)@.len() == old(cover)@.len(),
        r is Ok <==> chunk_ok(plan, *c, mmap@, elem_size as nat),
        r matches Ok(b) ==> b == c.stored_byte_len && final(out)@ == chunk_scatter(
            old(out)@,
            plan,
            c.chunk_index@,
            tile_seq(plan, c.chunk_index@),
            chunk_raw(mmap@, *c),
            elem_size as int,
            chunk_nelem(*c, elem_size as nat),
        ) && final(cover)@ == chunk_cover(
            old(cover)@,
            plan,
            c.chunk_index@,
            tile_seq(plan, c.chunk_index@),
            chunk_nelem(*c, elem_size as nat),
        ),
{
    let prep = prepare_chunk(mmap, plan, c, elem_size)?;
    let raw = &mmap[prep.raw_start..prep.raw_end];
    let ndim = plan.dataset_shape.len();
    let ghost cc = c.chunk_index@;
    let ghost tile = tile_seq(plan, cc);
    let ghost old_out = out@;
    let ghost old_cover = cover@;
    proof {
        assert(raw@ == chunk_raw(mmap@, *c));
        if prep.nelem > 0 {
            lemma_positive_product_extents(tile, 0);
            assert forall|d: int| 0 <= d < tile.len() implies tile[d] <= usize::MAX by {
                lemma_extent_le_product(tile, d);
            }
        }
    }
    let mut k: usize = 0;
    while k < prep.nelem
        invariant
            plan.geometry_wf(),
            steps_positive(plan),
            1 <= elem_size <= 8,
            ndim == plan.dataset_shape@.len(),
            cc == c.chunk_index@,
            cc.len() == ndim,
            tile == tile_seq(plan, cc),
            prep.tile@ == tile,
            prep.nelem == chunk_nelem(*c, elem_size as nat),
            prep.nelem * elem_size == raw@.len(),
            raw@ == chunk_raw(mmap@, *c),
            prep.nelem > 0 ==> all_extents_positive(tile) && extents_fit_usize(tile),
            0 <= k <= prep.nelem,
            out@.len() == old_out.len(),
            old_out == old(out)@,
            out@ == chunk_scatter(old_out, plan, cc, tile, raw@, elem_size as int, k as nat),
            cover@.len() == old_cover.len(),
            old_cover == old(cover)@,
            old_cover.len() == old_out.len(),
            cover@ == chunk_cover(old_cover, plan, cc, tile, k as nat),
            !chunk_index_error(plan, cc, tile, k as nat),
        decreases prep.nelem - k,
    {
        let local = match coords_from_linear_row_major(k, prep.tile.as_slice()) {
            Ok(v) => v,
            Err(e) => {
                assert(false);
                return Err(e);
            },
        };
        let ghost g_spec = global_of(plan, cc, tile, k as int);
        let mut g: Vec<u64> = Vec::new();
        let mut selected = true;
        let mut d: usize = 0;
        while d < ndim
            invariant
                plan.geometry_wf(),
                steps_positive(plan),
                ndim == plan.dataset_shape@.len(),
                cc == c.chunk_index@,
                cc.len() == ndim,
                tile == tile_seq(plan, cc),
                local@.len() == ndim,
                forall|m: int| 0 <= m < ndim ==> local@[m] as int == spec_coord_of(k as int, tile, m),
                g_spec == global_of(plan, cc, tile, k as int),
                0 <= d <= ndim,
                g@.len() == d,
                forall|m: int| 0 <= m < d ==> g@[m] == g_spec[m],
                selected == (forall|m: int| 0 <= m < d ==> #[trigger] axis_selected(plan, g_spec, m)),
                out@.len() == old_out.len(),
                old_out == old(out)@,
                cover@.len() == old_cover.len(),
                old_cover == old(cover)@,
            decreases ndim - d,
        {
            let o = match c.chunk_index[d].checked_mul(plan.chunk_shape[d]) {
                Some(v) => v,
                None => u64::MAX,
            };
            let x = match o.checked_add(local[d] as u64) {
                Some(v) => v,
                None => u64::MAX,
            };
            let st = plan.selection_box_start[d];
            let step = plan.selection_step[d];
            let ok = x >= st && x < plan.selection_box_stop_exclusive[d] && (x - st) % step == 0;
            proof {
                assert(g_spec[d as int] == x);
                assert(axis_selected(plan, g_spec, d as int) == ok);
            }
            if !ok {
                selected = false;
            }
            g.push(x);
            d += 1;
        }
        assert(g@ =~= g_spec);
        if selected {
            proof {
                assert forall|m: int| 0 <= m < ndim implies #[trigger] g@[m] >= plan.selection_box_start@[m] by {
                    assert(axis_selected(plan, g_spec, m));
                }
                assert forall|m: int| 0 <= m < ndim implies #[trigger] plan.selection_step@[m] >= 1 by {}
            }
            let li = match logical_index_for_global(plan, g.as_slice(), ndim) {
                Ok(li) => li,
                Err(e) => {
                    proof {
                        assert(is_selected(plan, global_of(plan, cc, tile, k as int)));
                        assert(chunk_index_error(plan, cc, tile, prep.nelem as nat));
                    }
                    return Err(e);
                },
            };
            if li < out.len() {
                proof {
                    assert(k * elem_size + elem_size == (k + 1) * elem_size) by (nonlinear_arith);
                    assert((k + 1) * elem_size <= prep.nelem * elem_size) by (nonlinear_arith)
                        requires k + 1 <= prep.nelem, elem_size >= 1;
                }
                let v = read_le_elem(raw, k, elem_size);
                out.set(li, v);
                cover.set(li, true);
            }
        }
        proof {
            assert(!chunk_index_error(plan, cc, tile, (k + 1) as nat)) by {
                if chunk_index_error(plan, cc, tile, (k + 1) as nat) {
                    let j = choose|j: int|
                        0 <= j < k + 1 && is_selected(plan, #[trigger] global_of(plan, cc, tile, j))
                            && spec_logical_index(plan, global_of(plan, cc, tile, j), ndim as int) is None;
                    if j < k {
                        assert(chunk_index_error(plan, cc, tile, k as nat));
                    }
                }
            }
        }
        k += 1;
    }
    Ok(prep.bytes_read)
}


/// A planned chunk maps to a raw payload slice: raw codec, in bounds, raw length equal to the
/// stored length.
pub open spec fn chunk_maps_raw(c: PlannedChunkIo, mmap_len: nat) -> bool {
    c.codec == CODEC_RAW && payload_in_bounds(c, mmap_len) && c.raw_byte_len == c.stored_byte_len
}

/// Map each planned chunk to its stored payload inside `mmap` (zero-copy).
///
/// Fails with a validation error when a planned chunk is not raw-coded, lies outside `mmap`, or
/// its raw length differs from its stored length.
pub fn planned_chunk_mmap_slices<'a>(mmap: &'a [u8], plan: &ReadPlan) -> (r: Result<
    Vec<&'a [u8]>,
    TetError,
>)
    ensures
        r is Ok <==> forall|i: int|
            0 <= i < plan.chunks@.len() ==> chunk_maps_raw(#[trigger] plan.chunks@[i], mmap@.len()),
        r matches Ok(v) ==> v@.len() == plan.chunks@.len() && forall|i: int|
            0 <= i < v@.len() ==> (#[trigger] v@[i])@ == chunk_raw(mmap@, plan.chunks@[i]),
        r matches Err(e) ==> e.is_validation(),
{
    let mut out: Vec<&'a [u8]> = Vec::new();
    let mut i: usize = 0;
    while i < plan.chunks.len()
        invariant
            0 <= i <= plan.chunks@.len(),
            out@.len() == i,
            forall|k: int| 0 <= k < i ==> chunk_maps_raw(#[trigger] plan.chunks@[k], mmap@.len()),
            forall|k: int| 0 <= k < i ==> (#[trigger] out@[k])@ == chunk_raw(mmap@, plan.chunks@[k]),
        decreases plan.chunks@.len() - i,
    {
        let c = &plan.chunks[i];
        if c.codec != CODEC_RAW {
            let mut msg = owned("planned_chunk_mmap_slices requires codec 0 (raw); got codec=");
            push_decimal(&mut msg, c.codec as u64);
            push_str(&mut msg, " for chunk_index=");
            let idx = index_list_text(&c.chunk_index);
            push_str(&mut msg, idx.as_str());
            return Err(TetError::Validation(msg));
        }
        let stored = planned_chunk_stored_slice(mmap, c)?;
        if c.raw_byte_len != c.stored_byte_len {
            return Err(TetError::Validation(String::from_str(
                "raw payload length differs from stored length",
            )));
        }
        out.push(stored);
        i += 1;
    }
    Ok(out)
}

} // verus!
