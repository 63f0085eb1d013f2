//! Fast paths when a chunk tile lies fully inside a unit-step selection box.
use vstd::prelude::*;

use crate::fold_policy::seq_all_eq;
use crate::indexing::{linear_rm_index, spec_linear_rm_index};
use crate::text::{owned, push_decimal, push_str};
use crate::types::{ReadPlan, TetError};

verus! {

/// Every selection axis uses step `1`.
pub open spec fn spec_unit_step(plan: &ReadPlan) -> bool {
    seq_all_eq(plan.selection_step@, 1)
}

/// Logical (selection-relative) coordinates of `global` under steps `step`.
pub open spec fn logical_coords(global: Seq<u64>, start: Seq<u64>, step: Seq<u64>, ndim: int) -> Seq<
    int,
> {
    Seq::new(ndim as nat, |d: int| (global[d] - start[d]) / (step[d] as int))
}

/// The coordinates fit in `usize`.
pub open spec fn coords_fit_usize(c: Seq<int>) -> bool {
    forall|d: int| 0 <= d < c.len() ==> 0 <= #[trigger] c[d] <= usize::MAX
}

pub open spec fn as_usize_seq(c: Seq<int>) -> Seq<usize> {
    c.map_values(|x: int| x as usize)
}

/// Logical row-major index of a selected global coordinate, when its logical coordinates fit in
/// `usize` and it lies inside the logical selection shape.
pub open spec fn spec_logical_index(plan: &ReadPlan, global: Seq<u64>, ndim: int) -> Option<int> {
    let lc = logical_coords(global, plan.selection_box_start@, plan.selection_step@, ndim);
    if coords_fit_usize(lc) {
        spec_linear_rm_index(as_usize_seq(lc), plan.logical_selection_shape@)
    } else {
        None
    }
}

/// True when every selection axis uses step `1` (dense, no striding).
pub fn selection_is_unit_step(plan: &ReadPlan) -> (r: bool)
    ensures
        r == spec_unit_step(plan),
{
    let mut i: usize = 0;
    while i < plan.selection_step.len()
        invariant
            0 <= i <= plan.selection_step@.len(),
            forall|k: int| 0 <= k < i ==> plan.selection_step@[k] == 1,
        decreases plan.selection_step@.len() - i,
    {
        if plan.selection_step[i] != 1 {
            return false;
        }
        i += 1;
    }
    true
}

/// Logical row-major index of `global` under the plan's selection (`(g - start) / step` per
/// axis, step `1` on unit-step selections).
pub fn logical_index_for_global(plan: &ReadPlan, global: &[u64], ndim: usize) -> (r: Result<
    usize,
    TetError,
>)
    requires
        ndim <= global@.len(),
        ndim <= plan.selection_box_start@.len(),
        ndim <= plan.selection_step@.len(),
        forall|d: int| 0 <= d < ndim ==> #[trigger] global@[d] >= plan.selection_box_start@[d],
        forall|d: int| 0 <= d < ndim ==> #[trigger] plan.selection_step@[d] >= 1,
    ensures
        r matches Ok(i) ==> spec_logical_index(plan, global@, ndim as int) == Some(i as int),
        r is Err <==> spec_logical_index(plan, global@, ndim as int) is None,
{
    let mut lc: Vec<usize> = Vec::new();
    let mut d: usize = 0;
    let ghost lcs = logical_coords(global@, plan.selection_box_start@, plan.selection_step@, ndim as int);
    while d < ndim
        invariant
            0 <= d <= ndim,
            ndim <= global@.len(),
            ndim <= plan.selection_box_start@.len(),
            ndim <= plan.selection_step@.len(),
            forall|k: int| 0 <= k < ndim ==> #[trigger] global@[k] >= plan.selection_box_start@[k],
            forall|k: int| 0 <= k < ndim ==> #[trigger] plan.selection_step@[k] >= 1,
            lcs == logical_coords(global@, plan.selection_box_start@, plan.selection_step@, ndim as int),
            lc@.len() == d,
            forall|k: int| 0 <= k < d ==> lc@[k] as int == lcs[k],
            forall|k: int| 0 <= k < d ==> 0 <= #[trigger] lcs[k] <= usize::MAX,
        decreases ndim - d,
    {
        let q = (global[d] - plan.selection_box_start[d]) / plan.selection_step[d];
        if q > usize::MAX as u64 {
            assert(lcs[d as int] == q);
            assert(!coords_fit_usize(lcs));
            let mut msg = owned("logical coordinate on axis ");
            push_decimal(&mut msg, d as u64);
            push_str(&mut msg, " does not fit usize on this host");
            return Err(TetError::Validation(msg));
        }
        lc.push(q as usize);
        d += 1;
    }
    assert(lc@ =~= as_usize_seq(lcs));
    linear_rm_index(lc.as_slice(), plan.logical_selection_shape.as_slice())
}

/// Logical row-major index for a global coordinate under a unit-step selection.
pub fn logical_index_unit_step(plan: &ReadPlan, global: &[u64], ndim: usize) -> (r: Result<
    usize,
    TetError,
>)
    requires
        ndim <= global@.len(),
        ndim <= plan.selection_box_start@.len(),
        ndim <= plan.selection_step@.len(),
        forall|d: int| 0 <= d < ndim ==> #[trigger] global@[d] >= plan.selection_box_start@[d],
        forall|d: int| 0 <= d < ndim ==> #[trigger] plan.selection_step@[d] == 1,
    ensures
        r matches Ok(i) ==> spec_logical_index(plan, global@, ndim as int) == Some(i as int),
        r is Err <==> spec_logical_index(plan, global@, ndim as int) is None,
{
    logical_index_for_global(plan, global, ndim)
}

/// Origin of the tile at `chunk_coord` on axis `d` (saturating product).
pub open spec fn tile_origin(plan: &ReadPlan, chunk_coord: Seq<u64>, d: int) -> int {
    if chunk_coord[d] * plan.chunk_shape@[d] > u64::MAX {
        u64::MAX as int
    } else {
        chunk_coord[d] * plan.chunk_shape@[d]
    }
}

/// The tile at `chunk_coord` with extents `tile` lies inside the selection box on every axis.
pub open spec fn tile_inside_box(plan: &ReadPlan, chunk_coord: Seq<u64>, tile: Seq<u64>) -> bool {
    forall|d: int|
        0 <= d < plan.dataset_shape@.len() ==> #[trigger] axis_inside(plan, chunk_coord, tile, d)
}

/// Axis `d` of the tile lies inside the selection box (saturating bounds).
pub open spec fn axis_inside(plan: &ReadPlan, chunk_coord: Seq<u64>, tile: Seq<u64>, d: int) -> bool {
    let g0 = tile_origin(plan, chunk_coord, d);
    let g1 = if g0 + tile[d] > u64::MAX {
        u64::MAX as int
    } else {
        g0 + tile[d]
    };
    g0 >= plan.selection_box_start@[d] && g1 <= plan.selection_box_stop_exclusive@[d]
}

/// Tile origin as a global coordinate.
pub open spec fn tile_origin_seq(plan: &ReadPlan, chunk_coord: Seq<u64>) -> Seq<u64> {
    Seq::new(
        plan.dataset_shape@.len(),
        |d: int| (chunk_coord[d] * plan.chunk_shape@[d]) as u64,
    )
}

/// When the tile at `chunk_coord` lies fully inside a unit-step selection box, the logical
/// row-major index of the tile's first element.
pub fn dense_tile_logical_base(plan: &ReadPlan, chunk_coord: &[u64], tile: &[u64]) -> (r: Result<
    Option<usize>,
    TetError,
>)
    requires
        plan.geometry_wf(),
        forall|d: int|
            0 <= d < chunk_coord@.len() && d < plan.chunk_shape@.len() ==> chunk_coord@[d]
                * plan.chunk_shape@[d] <= u64::MAX,
    ensures
        !(spec_unit_step(plan) && chunk_coord@.len() == plan.dataset_shape@.len() && tile@.len()
            == plan.dataset_shape@.len() && tile_inside_box(plan, chunk_coord@, tile@)) ==> r
            == Ok::<Option<usize>, TetError>(None),
        spec_unit_step(plan) && chunk_coord@.len() == plan.dataset_shape@.len() && tile@.len()
            == plan.dataset_shape@.len() && tile_inside_box(plan, chunk_coord@, tile@) ==> {
            &&& r matches Ok(Some(i)) ==> spec_logical_index(
                plan,
                tile_origin_seq(plan, chunk_coord@),
                plan.dataset_shape@.len() as int,
            ) == Some(i as int)
            &&& r is Err <==> spec_logical_index(
                plan,
                tile_origin_seq(plan, chunk_coord@),
                plan.dataset_shape@.len() as int,
            ) is None
            &&& r matches Ok(o) ==> o is Some
        },
{
    if !selection_is_unit_step(plan) {
        return Ok(None);
    }
    let ndim = plan.dataset_shape.len();
    if chunk_coord.len() != ndim || tile.len() != ndim {
        return Ok(None);
    }
    let mut d: usize = 0;
    while d < ndim
        invariant
            plan.geometry_wf(),
            ndim == plan.dataset_shape@.len(),
            chunk_coord@.len() == ndim,
            tile@.len() == ndim,
            0 <= d <= ndim,
            forall|k: int| 0 <= k < d ==> #[trigger] axis_inside(plan, chunk_coord@, tile@, k),
        decreases ndim - d,
    {
        let g0 = match chunk_coord[d].checked_mul(plan.chunk_shape[d]) {
            Some(v) => v,
            None => u64::MAX,
        };
        let g1 = match g0.checked_add(tile[d]) {
            Some(v) => v,
            None => u64::MAX,
        };
        if g0 < plan.selection_box_start[d] || g1 > plan.selection_box_stop_exclusive[d] {
            assert(!axis_inside(plan, chunk_coord@, tile@, d as int));
            return Ok(None);
        }
        d += 1;
    }
    let mut g: Vec<u64> = Vec::new();
    let mut k: usize = 0;
    while k < ndim
        invariant
            plan.geometry_wf(),
            ndim == plan.dataset_shape@.len(),
            chunk_coord@.len() == ndim,
            0 <= k <= ndim,
            g@.len() == k,
            tile@.len() == ndim,
            forall|j: int| 0 <= j < ndim ==> #[trigger] axis_inside(plan, chunk_coord@, tile@, j),
            forall|j: int|
                0 <= j < chunk_coord@.len() && j < plan.chunk_shape@.len() ==> chunk_coord@[j]
                    * plan.chunk_shape@[j] <= u64::MAX,
            forall|j: int| 0 <= j < k ==> g@[j] == tile_origin_seq(plan, chunk_coord@)[j],
        decreases ndim - k,
    {
        g.push(chunk_coord[k] * plan.chunk_shape[k]);
        k += 1;
    }
    assert(g@ =~= tile_origin_seq(plan, chunk_coord@));
    assert forall|j: int| 0 <= j < ndim implies #[trigger] g@[j] >= plan.selection_box_start@[j] by {
        assert(axis_inside(plan, chunk_coord@, tile@, j));
    }
    assert forall|j: int| 0 <= j < ndim implies #[trigger] plan.selection_step@[j] == 1 by {}
    let base = logical_index_unit_step(plan, g.as_slice(), ndim)?;
    Ok(Some(base))
}

} // verus!
