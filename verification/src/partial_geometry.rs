//! Partial-axis reduction geometry: reduced output shape and index mapping.
use vstd::prelude::*;

use crate::indexing::{
    all_extents_positive, coords_from_linear_row_major, extents_fit_usize, lemma_suffix_prod_mono,
    lemma_suffix_prod_pos, linear_rm_index, spec_coord_of, spec_linear_rm_index, suffix_prod,
};
use crate::text::{owned, parse_usize, push_decimal, push_str, spec_parse_usize};
use crate::types::{ReadPlan, TetError};

verus! {

/// Reduced axes and output geometry of a partial-axis reduction.
pub struct PartialAxisLayout {
    /// Reduced axes, strictly ascending.
    pub axis_indices: Vec<usize>,
    /// Extents of the kept axes, in axis order.
    pub out_shape: Vec<u64>,
    /// Number of output cells.
    pub out_len: usize,
}

/// Value of axis label `i`.
pub open spec fn label_value(labels: Seq<String>, i: int) -> usize {
    spec_parse_usize(labels[i]@)->0
}

/// Every label is a decimal axis index below `ndim`, and no index repeats.
pub open spec fn labels_valid(labels: Seq<String>, ndim: usize) -> bool {
    &&& forall|i: int|
        0 <= i < labels.len() ==> spec_parse_usize(#[trigger] labels[i]@) is Some
            && label_value(labels, i) < ndim
    &&& forall|i: int, j: int|
        0 <= i < j < labels.len() ==> label_value(labels, i) != label_value(labels, j)
}

pub open spec fn strictly_ascending(s: Seq<usize>) -> bool {
    forall|i: int, j: int| 0 <= i < j < s.len() ==> s[i] < s[j]
}

/// `r` holds exactly the label values, ascending.
pub open spec fn sorted_label_values(r: Seq<usize>, labels: Seq<String>) -> bool {
    &&& r.len() == labels.len()
    &&& strictly_ascending(r)
    &&& forall|i: int| 0 <= i < labels.len() ==> r.contains(label_value(labels, i))
    &&& forall|k: int| 0 <= k < r.len() ==> is_label_value(labels, #[trigger] r[k])
}

/// `x` is the value of some label.
pub open spec fn is_label_value(labels: Seq<String>, x: usize) -> bool {
    exists|i: int| 0 <= i < labels.len() && #[trigger] label_value(labels, i) == x
}

/// Entries of `s` at positions outside `axes`, in order.
pub open spec fn keep_dims<T>(s: Seq<T>, axes: Seq<usize>) -> Seq<T>
    decreases s.len(),
{
    if s.len() == 0 {
        Seq::empty()
    } else {
        let prev = keep_dims(s.drop_last(), axes);
        if axes.contains((s.len() - 1) as usize) {
            prev
        } else {
            prev.push(s.last())
        }
    }
}

/// Entries of `s` at positions `idx`, in the order of `idx`.
pub open spec fn pick_dims<T>(s: Seq<T>, idx: Seq<usize>) -> Seq<T> {
    idx.map_values(|d: usize| s[d as int])
}

/// Product of all extents.
pub open spec fn shape_product(shape: Seq<u64>) -> int {
    suffix_prod(shape, 0)
}

/// Parse operation axis labels as distinct axis indices below `ndim`, sorted ascending.
pub fn parse_axis_indices(labels: &[String], ndim: usize) -> (r: Result<Vec<usize>, TetError>)
    ensures
        r is Ok <==> labels_valid(labels@, ndim),
        r matches Ok(v) ==> sorted_label_values(v@, labels@),
        r matches Err(e) ==> e.is_validation(),
{
    let n = labels.len();
    let mut out: Vec<usize> = Vec::new();
    let ghost mut src: Seq<int> = Seq::empty();
    let mut i: usize = 0;
    while i < n
        invariant
            n == labels@.len(),
            0 <= i <= n,
            out@.len() == i,
            strictly_ascending(out@),
            forall|k: int| 0 <= k < i ==> spec_parse_usize(#[trigger] labels@[k]@) is Some
                && label_value(labels@, k) < ndim,
            forall|k: int, j: int|
                0 <= k < j < i ==> label_value(labels@, k) != label_value(labels@, j),
            forall|k: int| 0 <= k < i ==> out@.contains(label_value(labels@, k)),
            src.len() == out@.len(),
            forall|m: int| 0 <= m < out@.len() ==> 0 <= #[trigger] src[m] < i
                && label_value(labels@, src[m]) == out@[m],
        decreases n - i,
    {
        let v = match parse_usize(labels[i].as_str()) {
            Some(v) => v,
            None => {
                let mut msg = owned("invalid operation axis index ");
                let quoted = crate::response::debug_quoted(labels[i].as_str());
                push_str(&mut msg, quoted.as_str());
                return Err(TetError::Validation(msg));
            },
        };
        if v >= ndim {
            let mut msg = owned("operation axis index ");
            push_decimal(&mut msg, v as u64);
            push_str(&mut msg, " out of range for rank ");
            push_decimal(&mut msg, ndim as u64);
            return Err(TetError::Validation(msg));
        }
        // Find the insertion point; a repeat is a duplicate axis.
        let mut pos: usize = 0;
        while pos < out.len() && out[pos] < v
            invariant
                0 <= pos <= out@.len(),
                strictly_ascending(out@),
                forall|m: int| 0 <= m < pos ==> out@[m] < v,
            decreases out@.len() - pos,
        {
            pos += 1;
        }
        if pos < out.len() && out[pos] == v {
            proof {
                let k = src[pos as int];
                assert(label_value(labels@, k) == label_value(labels@, i as int));
            }
            let mut msg = owned("duplicate operation axis index ");
            push_decimal(&mut msg, v as u64);
            return Err(TetError::Validation(msg));
        }
        let ghost old_out = out@;
        let ghost old_src = src;
        proof {
            assert forall|k: int| 0 <= k < i implies label_value(labels@, k) != label_value(
                labels@,
                i as int,
            ) by {
                assert(old_out.contains(label_value(labels@, k)));
                let m = choose|m: int| 0 <= m < old_out.len() && old_out[m] == label_value(labels@, k);
                if m < pos {
                } else if m == pos {
                } else {
                    assert(old_out[pos as int] < old_out[m]);
                }
            }
        }
        out.insert(pos, v);
        proof {
            src = old_src.insert(pos as int, i as int);
            assert forall|a: int, b: int| 0 <= a < b < out@.len() implies out@[a] < out@[b] by {
                if b < pos {
                    assert(out@[a] == old_out[a] && out@[b] == old_out[b]);
                } else if b == pos {
                    assert(out@[a] == old_out[a]);
                } else if a == pos {
                    assert(out@[b] == old_out[b - 1]);
                } else if a < pos {
                    assert(out@[a] == old_out[a] && out@[b] == old_out[b - 1]);
                } else {
                    assert(out@[a] == old_out[a - 1] && out@[b] == old_out[b - 1]);
                }
            }
            assert forall|k: int| 0 <= k < i + 1 implies out@.contains(label_value(labels@, k)) by {
                if k < i {
                    let m = choose|m: int| 0 <= m < old_out.len() && old_out[m] == label_value(labels@, k);
                    if m < pos {
                        assert(out@[m] == old_out[m]);
                    } else {
                        assert(out@[m + 1] == old_out[m]);
                    }
                } else {
                    assert(out@[pos as int] == v);
                }
            }
            assert forall|m: int| 0 <= m < out@.len() implies 0 <= #[trigger] src[m] < i + 1
                && label_value(labels@, src[m]) == out@[m] by {
                if m < pos {
                    assert(out@[m] == old_out[m] && src[m] == old_src[m]);
                } else if m == pos {
                } else {
                    assert(out@[m] == old_out[m - 1] && src[m] == old_src[m - 1]);
                }
            }
        }
        i += 1;
    }
    assert(out@.len() == labels@.len());
    assert(strictly_ascending(out@));
    assert(forall|k: int| 0 <= k < labels@.len() ==> out@.contains(label_value(labels@, k)));
    assert forall|m: int| 0 <= m < out@.len() implies is_label_value(labels@, #[trigger] out@[m]) by {
        let k = src[m];
        assert(0 <= k < labels@.len() && label_value(labels@, k) == out@[m]);
    }
    Ok(out)
}

/// Extents of `shape` at the axes outside `axis_indices`, in axis order.
pub fn out_shape(shape: &[u64], axis_indices: &[usize]) -> (r: Vec<u64>)
    ensures
        r@ == keep_dims(shape@, axis_indices@),
{
    let mut out: Vec<u64> = Vec::new();
    let mut d: usize = 0;
    while d < shape.len()
        invariant
            0 <= d <= shape@.len(),
            out@ == keep_dims(shape@.take(d as int), axis_indices@),
        decreases shape@.len() - d,
    {
        proof {
            assert(shape@.take(d + 1).drop_last() =~= shape@.take(d as int));
        }
        if !contains_usize(axis_indices, d) {
            out.push(shape[d]);
        }
        d += 1;
    }
    assert(shape@.take(shape@.len() as int) =~= shape@);
    out
}

fn contains_usize(v: &[usize], x: usize) -> (r: bool)
    ensures
        r == v@.contains(x),
{
    let mut i: usize = 0;
    while i < v.len()
        invariant
            0 <= i <= v@.len(),
            forall|k: int| 0 <= k < i ==> v@[k] != x,
        decreases v@.len() - i,
    {
        if v[i] == x {
            assert(v@[i as int] == x);
            return true;
        }
        i += 1;
    }
    false
}

/// Product of the extents of `shape`, a validation error when it does not fit in `usize`.
pub fn shape_product_usize(shape: &[u64]) -> (r: Result<usize, TetError>)
    ensures
        r matches Ok(p) ==> p == shape_product(shape@),
        r is Err <==> shape_product(shape@) > usize::MAX,
        r matches Err(e) ==> e.is_validation(),
{
    let n = shape.len();
    let mut k: usize = 0;
    while k < n
        invariant
            n == shape@.len(),
            0 <= k <= n,
            forall|j: int| 0 <= j < k ==> #[trigger] shape@[j] >= 1,
        decreases n - k,
    {
        if shape[k] == 0 {
            proof {
                lemma_suffix_prod_zero(shape@, 0, k as int);
            }
            return Ok(0);
        }
        k += 1;
    }
    let mut acc: usize = 1;
    let mut d: usize = n;
    while d > 0
        invariant
            n == shape@.len(),
            0 <= d <= n,
            all_extents_positive(shape@),
            acc == suffix_prod(shape@, d as int),
        decreases d,
    {
        let a = d - 1;
        let e = shape[a];
        proof {
            lemma_suffix_prod_mono(shape@, 0, a as int);
            lemma_suffix_prod_pos(shape@, d as int);
            assert(suffix_prod(shape@, a as int) == e * suffix_prod(shape@, d as int));
            assert(e * suffix_prod(shape@, d as int) >= e) by (nonlinear_arith)
                requires suffix_prod(shape@, d as int) >= 1;
        }
        if e > usize::MAX as u64 {
            return Err(TetError::Validation(String::from_str("shape element count overflow")));
        }
        proof {
            assert(acc * e == e * acc) by (nonlinear_arith);
        }
        match acc.checked_mul(e as usize) {
            Some(v) => {
                acc = v;
            },
            None => {
                return Err(TetError::Validation(String::from_str("shape element count overflow")));
            },
        }
        d = a;
    }
    Ok(acc)
}

proof fn lemma_suffix_prod_zero(shape: Seq<u64>, d: int, k: int)
    requires
        0 <= d <= k < shape.len(),
        shape[k] == 0,
    ensures
        suffix_prod(shape, d) == 0,
    decreases k - d,
{
    if d < k {
        lemma_suffix_prod_zero(shape, d + 1, k);
    }
}

/// The layout [`partial_axis_layout`] builds for `labels` over `shape`, if any.
pub open spec fn layout_ok(labels: Seq<String>, shape: Seq<u64>, axes: Seq<usize>) -> bool {
    &&& labels_valid(labels, shape.len() as usize)
    &&& labels.len() > 0
    &&& labels.len() != shape.len()
    &&& shape_product(keep_dims(shape, axes)) <= usize::MAX
}

/// Axis layout of a partial-axis reduction over the plan's logical selection.
pub fn partial_axis_layout(plan: &ReadPlan, axis_labels: &[String]) -> (r: Result<
    PartialAxisLayout,
    TetError,
>)
    ensures
        r matches Ok(l) ==> {
            &&& sorted_label_values(l.axis_indices@, axis_labels@)
            &&& layout_ok(axis_labels@, plan.logical_selection_shape@, l.axis_indices@)
            &&& l.out_shape@ == keep_dims(plan.logical_selection_shape@, l.axis_indices@)
            &&& l.out_len == shape_product(l.out_shape@)
        },
        r is Err ==> !labels_valid(axis_labels@, plan.logical_selection_shape@.len() as usize)
            || axis_labels@.len() == 0 || axis_labels@.len() == plan.logical_selection_shape@.len()
            || shape_product(keep_dims(plan.logical_selection_shape@, sorted_axes_of(axis_labels@))) > usize::MAX,
        r matches Err(e) ==> e.is_validation(),
{
    let shape = &plan.logical_selection_shape;
    let ndim = shape.len();
    let axis_indices = parse_axis_indices(axis_labels, ndim)?;
    if axis_indices.len() == 0 {
        return Err(
            TetError::Validation(String::from_str("internal: partial layout requires non-empty axes")),
        );
    }
    if axis_indices.len() == ndim {
        return Err(TetError::Validation(String::from_str(
            "operation axes list reduces every dimension; use \"axes\": [] for a scalar reduction",
        )));
    }
    let out = out_shape(shape.as_slice(), axis_indices.as_slice());
    proof {
        lemma_sorted_axes_unique(axis_indices@, sorted_axes_of(axis_labels@), axis_labels@);
    }
    let out_len = shape_product_usize(out.as_slice())?;
    Ok(PartialAxisLayout { axis_indices, out_shape: out, out_len })
}

/// The ascending list of label values (defined when the labels are valid).
pub open spec fn sorted_axes_of(labels: Seq<String>) -> Seq<usize> {
    choose|r: Seq<usize>| sorted_label_values(r, labels)
}

/// Two ascending lists holding exactly the label values are the same list.
proof fn lemma_sorted_axes_unique(a: Seq<usize>, b: Seq<usize>, labels: Seq<String>)
    requires
        sorted_label_values(a, labels),
    ensures
        sorted_label_values(b, labels) ==> a == b,
{
    if sorted_label_values(b, labels) {
        assert forall|k: int| 0 <= k < a.len() implies a[k] == b[k] by {
            lemma_sorted_same_rank(a, b, labels, k);
        }
        assert(a =~= b);
    }
}

proof fn lemma_sorted_same_rank(a: Seq<usize>, b: Seq<usize>, labels: Seq<String>, k: int)
    requires
        sorted_label_values(a, labels),
        sorted_label_values(b, labels),
        0 <= k < a.len(),
    ensures
        a[k] == b[k],
    decreases k,
{
    // Both lists are strictly ascending and hold the same values.
    assert(is_label_value(labels, a[k]));
    let i = choose|i: int| 0 <= i < labels.len() && #[trigger] label_value(labels, i) == a[k];
    assert(b.contains(a[k]));
    let kb = choose|kb: int| 0 <= kb < b.len() && b[kb] == a[k];
    assert(is_label_value(labels, b[k]));
    let j = choose|j: int| 0 <= j < labels.len() && #[trigger] label_value(labels, j) == b[k];
    assert(a.contains(b[k]));
    let ka = choose|ka: int| 0 <= ka < a.len() && a[ka] == b[k];
    if k > 0 {
        assert forall|t: int| 0 <= t < k implies a[t] == b[t] by {
            lemma_sorted_same_rank(a, b, labels, t);
        }
    }
    if kb < k {
        lemma_sorted_same_rank(a, b, labels, kb);
    }
    if ka < k {
        lemma_sorted_same_rank(a, b, labels, ka);
    }
    if kb > k && ka > k {
        assert(a[k] < a[ka]);
        assert(b[k] < b[kb]);
    }
}

/// Row-major index of the output cell that holds `coords` (reduced axes dropped).
pub fn reduced_index(coords: &[usize], axis_indices: &[usize], out_shape: &[u64]) -> (r: Result<
    usize,
    TetError,
>)
    ensures
        r matches Ok(i) ==> spec_linear_rm_index(keep_dims(coords@, axis_indices@), out_shape@)
            == Some(i as int),
        r is Err <==> spec_linear_rm_index(keep_dims(coords@, axis_indices@), out_shape@) is None,
{
    let mut out_c: Vec<usize> = Vec::new();
    let mut d: usize = 0;
    while d < coords.len()
        invariant
            0 <= d <= coords@.len(),
            out_c@ == keep_dims(coords@.take(d as int), axis_indices@),
        decreases coords@.len() - d,
    {
        proof {
            assert(coords@.take(d + 1).drop_last() =~= coords@.take(d as int));
        }
        if !contains_usize(axis_indices, d) {
            out_c.push(coords[d]);
        }
        d += 1;
    }
    assert(coords@.take(coords@.len() as int) =~= coords@);
    linear_rm_index(out_c.as_slice(), out_shape)
}

/// Row-major index of `coords` along the reduced axes (position within the fiber).
pub fn fiber_linear_index(coords: &[usize], axis_indices: &[usize], shape: &[u64]) -> (r: Result<
    usize,
    TetError,
>)
    requires
        forall|k: int|
            0 <= k < axis_indices@.len() ==> #[trigger] axis_indices@[k] < shape@.len()
                && axis_indices@[k] < coords@.len(),
    ensures
        r matches Ok(i) ==> spec_linear_rm_index(
            pick_dims(coords@, axis_indices@),
            pick_dims(shape@, axis_indices@),
        ) == Some(i as int),
        r is Err <==> spec_linear_rm_index(
            pick_dims(coords@, axis_indices@),
            pick_dims(shape@, axis_indices@),
        ) is None,
{
    let mut rshape: Vec<u64> = Vec::new();
    let mut rc: Vec<usize> = Vec::new();
    let mut k: usize = 0;
    while k < axis_indices.len()
        invariant
            0 <= k <= axis_indices@.len(),
            forall|j: int|
                0 <= j < axis_indices@.len() ==> #[trigger] axis_indices@[j] < shape@.len()
                    && axis_indices@[j] < coords@.len(),
            rshape@ == pick_dims(shape@, axis_indices@.take(k as int)),
            rc@ == pick_dims(coords@, axis_indices@.take(k as int)),
        decreases axis_indices@.len() - k,
    {
        let d = axis_indices[k];
        rshape.push(shape[d]);
        rc.push(coords[d]);
        proof {
            assert(pick_dims(shape@, axis_indices@.take(k + 1)) =~= pick_dims(
                shape@,
                axis_indices@.take(k as int),
            ).push(shape@[d as int]));
            assert(pick_dims(coords@, axis_indices@.take(k + 1)) =~= pick_dims(
                coords@,
                axis_indices@.take(k as int),
            ).push(coords@[d as int]));
        }
        k += 1;
    }
    assert(axis_indices@.take(axis_indices@.len() as int) =~= axis_indices@);
    linear_rm_index(rc.as_slice(), rshape.as_slice())
}

/// Output cell and fiber position of logical element `li` in a partial-axis reduction.
pub fn reduced_cell_index(li: usize, shape: &[u64], layout: &PartialAxisLayout) -> (r: Result<
    (usize, u64),
    TetError,
>)
    requires
        forall|k: int|
            0 <= k < layout.axis_indices@.len() ==> #[trigger] layout.axis_indices@[k]
                < shape@.len(),
    ensures
        r matches Ok((oi, fi)) ==> {
            let coords = Seq::new(shape@.len(), |d: int| spec_coord_of(li as int, shape@, d) as usize);
            &&& all_extents_positive(shape@) && extents_fit_usize(shape@)
            &&& spec_linear_rm_index(keep_dims(coords, layout.axis_indices@), layout.out_shape@)
                == Some(oi as int)
            &&& spec_linear_rm_index(
                pick_dims(coords, layout.axis_indices@),
                pick_dims(shape@, layout.axis_indices@),
            ) == Some(fi as int)
        },
        r is Err <==> ({
            let coords = Seq::new(shape@.len(), |d: int| spec_coord_of(li as int, shape@, d) as usize);
            ||| !(all_extents_positive(shape@) && extents_fit_usize(shape@))
            ||| spec_linear_rm_index(keep_dims(coords, layout.axis_indices@), layout.out_shape@) is None
            ||| spec_linear_rm_index(
                pick_dims(coords, layout.axis_indices@),
                pick_dims(shape@, layout.axis_indices@),
            ) is None
        }),
{
    let coords = coords_from_linear_row_major(li, shape)?;
    let ghost cs = Seq::new(shape@.len(), |d: int| spec_coord_of(li as int, shape@, d) as usize);
    assert(coords@ =~= cs);
    let oi = reduced_index(coords.as_slice(), layout.axis_indices.as_slice(), layout.out_shape.as_slice())?;
    let fi = fiber_linear_index(coords.as_slice(), layout.axis_indices.as_slice(), shape)?;
    Ok((oi, fi as u64))
}

} // verus!
