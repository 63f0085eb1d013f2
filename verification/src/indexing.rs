//! Logical row-major linear index helpers shared by materialization and reductions.
use vstd::prelude::*;
use vstd::arithmetic::div_mod::{
    lemma_div_denominator, lemma_fundamental_div_mod_converse, lemma_mod_breakdown,
    lemma_small_mod,
};

use crate::text::{owned, push_decimal, push_str};
use crate::types::TetError;

verus! {

/// Product of the extents `shape[d..]` (the row-major stride of axis `d - 1`).
pub open spec fn suffix_prod(shape: Seq<u64>, d: int) -> int
    decreases shape.len() - d,
{
    if d < 0 || d >= shape.len() {
        1
    } else {
        shape[d] * suffix_prod(shape, d + 1)
    }
}

/// Row-major offset contributed by axes `d..` of `coords`.
pub open spec fn rm_offset(coords: Seq<usize>, shape: Seq<u64>, d: int) -> int
    decreases shape.len() - d,
{
    if d < 0 || d >= shape.len() {
        0
    } else {
        coords[d] * suffix_prod(shape, d + 1) + rm_offset(coords, shape, d + 1)
    }
}

/// Same rank, and every coordinate strictly inside its axis.
pub open spec fn coords_in_range(coords: Seq<usize>, shape: Seq<u64>) -> bool {
    coords.len() == shape.len() && forall|d: int| 0 <= d < shape.len() ==> coords[d] < shape[d]
}

/// Row-major index of `coords`, defined when the coordinates are in range and the element
/// count of `shape` fits in `usize`.
pub open spec fn spec_linear_rm_index(coords: Seq<usize>, shape: Seq<u64>) -> Option<int> {
    if coords_in_range(coords, shape) && suffix_prod(shape, 0) <= usize::MAX {
        Some(rm_offset(coords, shape, 0))
    } else {
        None
    }
}

/// Coordinate of axis `d` for linear index `li` (the leading axis absorbs any excess).
pub open spec fn spec_coord_of(li: int, shape: Seq<u64>, d: int) -> int {
    (li / suffix_prod(shape, d + 1)) % (shape[d] as int)
}

pub open spec fn all_extents_positive(shape: Seq<u64>) -> bool {
    forall|d: int| 0 <= d < shape.len() ==> shape[d] >= 1
}

pub open spec fn extents_fit_usize(shape: Seq<u64>) -> bool {
    forall|d: int| 0 <= d < shape.len() ==> shape[d] <= usize::MAX
}

/// Extents that are all positive have a positive product.
pub proof fn lemma_suffix_prod_pos(shape: Seq<u64>, d: int)
    requires
        0 <= d,
        forall|k: int| d <= k < shape.len() ==> shape[k] >= 1,
    ensures
        suffix_prod(shape, d) >= 1,
    decreases shape.len() - d,
{
    if d < shape.len() {
        lemma_suffix_prod_pos(shape, d + 1);
        let p = suffix_prod(shape, d + 1);
        let s = shape[d] as int;
        assert(s * p >= 1) by (nonlinear_arith)
            requires s >= 1, p >= 1;
    }
}

/// Element counts are never negative.
pub proof fn lemma_suffix_prod_pos_or_zero(shape: Seq<u64>, d: int)
    ensures
        suffix_prod(shape, d) >= 0,
    decreases shape.len() - d,
{
    if 0 <= d < shape.len() {
        lemma_suffix_prod_pos_or_zero(shape, d + 1);
        let p = suffix_prod(shape, d + 1);
        let e = shape[d] as int;
        assert(e * p >= 0) by (nonlinear_arith)
            requires e >= 0, p >= 0;
    }
}

/// With positive extents, the product over a longer suffix is at least as large.
pub proof fn lemma_suffix_prod_mono(shape: Seq<u64>, a: int, b: int)
    requires
        0 <= a <= b,
        forall|k: int| a <= k < shape.len() ==> shape[k] >= 1,
    ensures
        suffix_prod(shape, a) >= suffix_prod(shape, b),
    decreases b - a,
{
    if a < b && a < shape.len() {
        lemma_suffix_prod_mono(shape, a + 1, b);
        lemma_suffix_prod_pos(shape, a + 1);
        let p = suffix_prod(shape, a + 1);
        let s = shape[a] as int;
        assert(s * p >= p) by (nonlinear_arith)
            requires s >= 1, p >= 1;
    }
}

/// The offset of in-range coordinates lies below the element count.
pub proof fn lemma_rm_offset_bound(coords: Seq<usize>, shape: Seq<u64>, d: int)
    requires
        0 <= d,
        coords.len() == shape.len(),
        forall|k: int| d <= k < shape.len() ==> coords[k] < shape[k],
    ensures
        0 <= rm_offset(coords, shape, d) < suffix_prod(shape, d),
    decreases shape.len() - d,
{
    if d < shape.len() {
        lemma_rm_offset_bound(coords, shape, d + 1);
        let p = suffix_prod(shape, d + 1);
        let r = rm_offset(coords, shape, d + 1);
        let c = coords[d] as int;
        let s = shape[d] as int;
        assert(c * p + r < s * p && c * p >= 0) by (nonlinear_arith)
            requires 0 <= c < s, 0 <= r < p;
    }
}

/// Row-major linear index of `logical_coords` within `shape`.
pub fn linear_rm_index(logical_coords: &[usize], shape: &[u64]) -> (r: Result<usize, TetError>)
    ensures
        r matches Ok(i) ==> spec_linear_rm_index(logical_coords@, shape@) == Some(i as int),
        r is Err <==> spec_linear_rm_index(logical_coords@, shape@) is None,
        r matches Err(e) ==> e.is_validation(),
{
    if logical_coords.len() != shape.len() {
        return Err(
            TetError::Validation(String::from_str("internal: logical coordinate rank mismatch")),
        );
    }
    let n = shape.len();
    let mut idx: usize = 0;
    let mut stride: usize = 1;
    let mut d: usize = n;
    while d > 0
        invariant
            n == shape@.len(),
            logical_coords@.len() == n,
            0 <= d <= n,
            idx as int == rm_offset(logical_coords@, shape@, d as int),
            stride as int == suffix_prod(shape@, d as int),
            forall|k: int| d <= k < n ==> logical_coords@[k] < shape@[k],
        decreases d,
    {
        let a = d - 1;
        proof {
            lemma_rm_offset_bound(logical_coords@, shape@, d as int);
        }
        let ext = shape[a];
        let c = logical_coords[a];
        if ext > usize::MAX as u64 || c as u64 >= ext {
            proof {
                if coords_in_range(logical_coords@, shape@) {
                    lemma_suffix_prod_mono(shape@, 0, a as int);
                    assert(suffix_prod(shape@, a as int) == ext * suffix_prod(shape@, d as int));
                    lemma_suffix_prod_pos(shape@, d as int);
                    assert(ext * suffix_prod(shape@, d as int) >= ext) by (nonlinear_arith)
                        requires suffix_prod(shape@, d as int) >= 1;
                }
            }
            if ext > usize::MAX as u64 {
                let mut msg = owned("logical shape extent ");
                push_decimal(&mut msg, ext);
                push_str(&mut msg, " is too large for this host");
                return Err(TetError::Validation(msg));
            }
            let mut msg = owned("internal: logical coordinate ");
            push_decimal(&mut msg, c as u64);
            push_str(&mut msg, " out of range for axis ");
            push_decimal(&mut msg, a as u64);
            push_str(&mut msg, " (extent ");
            push_decimal(&mut msg, ext);
            push_str(&mut msg, ")");
            return Err(TetError::Validation(msg));
        }
        let sd = ext as usize;
        proof {
            assert(c * stride < sd * stride) by (nonlinear_arith)
                requires c < sd, stride >= 1;
            lemma_suffix_prod_pos(shape@, d as int);
        }
        let t = match c.checked_mul(stride) {
            Some(t) => t,
            None => {
                proof {
                    if coords_in_range(logical_coords@, shape@) {
                        lemma_suffix_prod_mono(shape@, 0, a as int);
                    }
                }
                return Err(TetError::Validation(String::from_str("linear index overflow")));
            },
        };
        let next = match idx.checked_add(t) {
            Some(v) => v,
            None => {
                proof {
                    assert(idx + t < sd * stride) by (nonlinear_arith)
                        requires idx < stride, t == c * stride, c + 1 <= sd;
                    if coords_in_range(logical_coords@, shape@) {
                        lemma_suffix_prod_mono(shape@, 0, a as int);
                    }
                }
                return Err(TetError::Validation(String::from_str("linear index overflow")));
            },
        };
        let next_stride = match stride.checked_mul(sd) {
            Some(v) => v,
            None => {
                proof {
                    assert(stride * sd == sd * stride) by (nonlinear_arith);
                    if coords_in_range(logical_coords@, shape@) {
                        lemma_suffix_prod_mono(shape@, 0, a as int);
                    }
                }
                return Err(TetError::Validation(String::from_str("linear index stride overflow")));
            },
        };
        proof {
            assert(next_stride == sd * stride) by (nonlinear_arith)
                requires next_stride == stride * sd;
        }
        idx = next;
        stride = next_stride;
        d = a;
    }
    Ok(idx)
}

/// Row-major coordinates of linear index `li` within `shape`.
pub fn coords_from_linear_row_major(li: usize, shape: &[u64]) -> (r: Result<Vec<usize>, TetError>)
    ensures
        r is Err <==> !(all_extents_positive(shape@) && extents_fit_usize(shape@)),
        r matches Ok(c) ==> c@.len() == shape@.len() && forall|d: int|
            0 <= d < shape@.len() ==> c@[d] as int == spec_coord_of(li as int, shape@, d),
        r matches Err(e) ==> e.is_validation(),
{
    let n = shape.len();
    let mut k: usize = 0;
    while k < n
        invariant
            0 <= k <= n,
            n == shape@.len(),
            forall|j: int| 0 <= j < k ==> 1 <= #[trigger] shape@[j] <= usize::MAX,
        decreases n - k,
    {
        if shape[k] > usize::MAX as u64 {
            let mut msg = owned("shape extent ");
            push_decimal(&mut msg, shape[k]);
            push_str(&mut msg, " is too large for this host");
            return Err(TetError::Validation(msg));
        }
        if shape[k] == 0 {
            return Err(TetError::Validation(String::from_str("internal: zero extent in shape")));
        }
        k += 1;
    }
    let mut coords: Vec<usize> = Vec::new();
    let mut j: usize = 0;
    while j < n
        invariant
            0 <= j <= n,
            coords@.len() == j,
        decreases n - j,
    {
        coords.push(0);
        j += 1;
    }
    let mut rest: usize = li;
    let mut d: usize = n;
    while d > 0
        invariant
            n == shape@.len(),
            coords@.len() == n,
            0 <= d <= n,
            all_extents_positive(shape@),
            extents_fit_usize(shape@),
            rest as int == li as int / suffix_prod(shape@, d as int),
            forall|m: int|
                d <= m < n ==> coords@[m] as int == spec_coord_of(li as int, shape@, m),
        decreases d,
    {
        let a = d - 1;
        let sd = shape[a] as usize;
        proof {
            lemma_suffix_prod_pos(shape@, d as int);
            lemma_div_denominator(li as int, suffix_prod(shape@, d as int), sd as int);
            assert(suffix_prod(shape@, d as int) * (sd as int) == suffix_prod(shape@, a as int))
                by (nonlinear_arith)
                requires suffix_prod(shape@, a as int) == (sd as int) * suffix_prod(shape@, d as int);
        }
        coords.set(a, rest % sd);
        rest = rest / sd;
        d = a;
    }
    Ok(coords)
}

spec fn horner(coords: Seq<usize>, shape: Seq<u64>, k: int) -> int
    decreases k,
{
    if k <= 0 {
        0
    } else {
        horner(coords, shape, k - 1) * shape[k - 1] + coords[k - 1]
    }
}

proof fn lemma_horner_split(coords: Seq<usize>, shape: Seq<u64>, d: int)
    requires
        0 <= d <= shape.len(),
    ensures
        rm_offset(coords, shape, 0) == horner(coords, shape, d) * suffix_prod(shape, d) + rm_offset(
            coords,
            shape,
            d,
        ),
    decreases d,
{
    if d > 0 {
        lemma_horner_split(coords, shape, d - 1);
        let h = horner(coords, shape, d - 1);
        let s = shape[d - 1] as int;
        let c = coords[d - 1] as int;
        let p = suffix_prod(shape, d);
        let r = rm_offset(coords, shape, d);
        assert((h * s + c) * p + r == h * (s * p) + (c * p + r)) by (nonlinear_arith);
    }
}

proof fn lemma_horner_nonneg(coords: Seq<usize>, shape: Seq<u64>, k: int)
    ensures
        horner(coords, shape, k) >= 0,
    decreases k,
{
    if k > 0 {
        lemma_horner_nonneg(coords, shape, k - 1);
        let h = horner(coords, shape, k - 1);
        let s = shape[k - 1] as int;
        assert(h * s >= 0) by (nonlinear_arith)
            requires h >= 0, s >= 0;
    }
}

/// Decoding the linear index of in-range coordinates gives the coordinates back.
pub proof fn lemma_coords_roundtrip(coords: Seq<usize>, shape: Seq<u64>)
    requires
        coords_in_range(coords, shape),
    ensures
        forall|d: int|
            0 <= d < shape.len() ==> spec_coord_of(rm_offset(coords, shape, 0), shape, d)
                == coords[d],
{
    assert forall|d: int| 0 <= d < shape.len() implies spec_coord_of(
        rm_offset(coords, shape, 0),
        shape,
        d,
    ) == coords[d] by {
        lemma_horner_split(coords, shape, d + 1);
        lemma_rm_offset_bound(coords, shape, d + 1);
        lemma_horner_nonneg(coords, shape, d);
        let p = suffix_prod(shape, d + 1);
        let h1 = horner(coords, shape, d + 1);
        lemma_fundamental_div_mod_converse(rm_offset(coords, shape, 0), p, h1, rm_offset(coords, shape, d + 1));
        lemma_fundamental_div_mod_converse(h1, shape[d] as int, horner(coords, shape, d), coords[d] as int);
    }
}

spec fn decoded_offset(li: int, shape: Seq<u64>, d: int) -> int
    decreases shape.len() - d,
{
    if d < 0 || d >= shape.len() {
        0
    } else {
        spec_coord_of(li, shape, d) * suffix_prod(shape, d + 1) + decoded_offset(li, shape, d + 1)
    }
}

proof fn lemma_decoded_offset_is_mod(li: int, shape: Seq<u64>, d: int)
    requires
        0 <= li,
        0 <= d <= shape.len(),
        all_extents_positive(shape),
    ensures
        decoded_offset(li, shape, d) == li % suffix_prod(shape, d),
    decreases shape.len() - d,
{
    if d == shape.len() {
        assert(li % 1 == 0);
    } else {
        lemma_decoded_offset_is_mod(li, shape, d + 1);
        let p = suffix_prod(shape, d + 1);
        lemma_suffix_prod_pos(shape, d + 1);
        let s = shape[d] as int;
        lemma_mod_breakdown(li, p, s);
        assert(p * s == s * p) by (nonlinear_arith);
        assert(p * ((li / p) % s) == ((li / p) % s) * p) by (nonlinear_arith);
    }
}

/// Encoding the decoded coordinates of an in-range index gives the index back.
pub proof fn lemma_index_roundtrip(li: usize, shape: Seq<u64>, coords: Seq<usize>)
    requires
        all_extents_positive(shape),
        li < suffix_prod(shape, 0),
        coords.len() == shape.len(),
        forall|d: int| 0 <= d < shape.len() ==> coords[d] as int == spec_coord_of(li as int, shape, d),
    ensures
        coords_in_range(coords, shape),
        rm_offset(coords, shape, 0) == li,
{
    assert forall|d: int| 0 <= d < shape.len() implies coords[d] < shape[d] by {
        lemma_suffix_prod_pos(shape, d + 1);
    }
    lemma_decoded_offset_is_mod(li as int, shape, 0);
    lemma_small_mod(li as nat, suffix_prod(shape, 0) as nat);
    lemma_rm_eq_decoded(li as int, shape, coords, 0);
}

proof fn lemma_rm_eq_decoded(li: int, shape: Seq<u64>, coords: Seq<usize>, d: int)
    requires
        0 <= d <= shape.len(),
        coords.len() == shape.len(),
        forall|k: int| 0 <= k < shape.len() ==> coords[k] as int == spec_coord_of(li, shape, k),
    ensures
        rm_offset(coords, shape, d) == decoded_offset(li, shape, d),
    decreases shape.len() - d,
{
    if d < shape.len() {
        lemma_rm_eq_decoded(li, shape, coords, d + 1);
    }
}

} // verus!
