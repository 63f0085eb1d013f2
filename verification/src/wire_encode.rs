//! Encoding a [`QueryDocument`] in the flat JSON wire format (the inverse of
//! [`crate::document_wire::parse_query_value`]).
use vstd::prelude::*;

use crate::document_wire::{
    byte_len, keys_within, spec_axis_item, spec_axis_items, spec_axis_slice, spec_axis_slices,
    spec_axis_spec, spec_execution, spec_execution_keys, spec_kind_of_name, spec_opt_index,
    spec_opt_label, spec_parametric_axes, spec_parse_operation, spec_percent_to_bps_checked,
    spec_selection, spec_slice_keys, spec_write, spec_write_keys, spec_write_target,
    valid_axis_token, MAX_NAME_BYTES,
};
use crate::float_bits::{
    bps_percent_bits, bps_to_percent_bits, f64_is_finite, lemma_bps_percent_round_trip,
    percent_in_range,
};
use crate::json::{
    json_number_from_u64, json_of_f64_bits, lemma_obj_get_empty, lemma_obj_get_push, obj_get,
    JsonValue, NumberRepr,
};
use crate::text::{decimal, owned, parse_u64, spec_parse_u64};
use crate::types::{opt_str, plain_op, OperationView, TransformMethod, WriteHintsView};
use crate::wire_keys::{key_id, lemma_key_ids};
use crate::document_wire::{
    present_ops, spec_is_allowed_key, spec_op_keys, spec_parse_query, spec_query_head_ok,
    spec_query_op, spec_reserved_keys, spec_spill_output,
};
use crate::types::{OutputHintView, QueryDocView as DocView};
use crate::types::{
    strs, AxisSlice, ExecutionHints, OpKind, Operation, OutputHint, QueryDocView, QueryDocument,
    TetError, WriteHints, WriteTarget,
};

verus! {

broadcast use vstd::string::group_string_axioms;

/// Every label reads as a `u64` index.
pub open spec fn all_u64_labels(axes: Seq<Seq<char>>) -> bool {
    forall|i: int| 0 <= i < axes.len() ==> (#[trigger] spec_parse_u64(axes[i])) is Some
}

/// Operations written as an object with parameters.
pub open spec fn is_parametric_kind(k: OpKind) -> bool {
    k == OpKind::Quantile || k == OpKind::Histogram || k == OpKind::NullCount || k
        == OpKind::Transform
}

/// Whether a document can be written: the axis list of a plain operation (and a multi-axis list
/// of a parametric one) must consist of index labels.
pub open spec fn spec_wire_encodable(d: QueryDocView) -> bool {
    match d.operation {
        Some(o) => if is_parametric_kind(o.kind) {
            o.axes.len() <= 1 || all_u64_labels(o.axes)
        } else {
            all_u64_labels(o.axes)
        },
        None => true,
    }
}

fn number_value(u: u64) -> (r: JsonValue)
    ensures
        r matches JsonValue::Number(n) && n.repr == NumberRepr::PosInt(u),
{
    JsonValue::Number(json_number_from_u64(u))
}

fn member(key: &str, v: JsonValue) -> (r: (String, JsonValue))
    ensures
        r.0@ == key@,
        r.1 == v,
{
    (owned(key), v)
}

/// A label reads back as itself: an index label is the plain decimal text of its number.
pub open spec fn canonical_label(l: Seq<char>) -> bool {
    match spec_parse_u64(l) {
        Some(n) => l == decimal(n as nat),
        None => true,
    }
}

/// The axis labels read back unchanged: index labels are canonical, and a lone label of a
/// parametric operation that is no index is a valid axis label.
pub open spec fn axes_read_back(axes: Seq<Seq<char>>, parametric: bool) -> bool {
    &&& forall|i: int| 0 <= i < axes.len() ==> canonical_label(#[trigger] axes[i])
    &&& (parametric && axes.len() == 1 && spec_parse_u64(axes[0]) is None) ==> valid_axis_token(
        axes[0],
    )
}

/// `v` is the index number whose decimal text is `l`.
pub open spec fn number_for_label(v: JsonValue, l: Seq<char>) -> bool {
    v matches JsonValue::Number(n) && n.repr matches NumberRepr::PosInt(u) && l == decimal(
        u as nat,
    )
}

/// A list of index numbers reads back as their decimal texts.
pub proof fn lemma_axis_items_numbers(items: Seq<JsonValue>, labels: Seq<Seq<char>>)
    requires
        items.len() == labels.len(),
        forall|i: int| 0 <= i < items.len() ==> number_for_label(#[trigger] items[i], labels[i]),
    ensures
        spec_axis_items(items) == Some(labels),
    decreases items.len(),
{
    if items.len() > 0 {
        let n = items.len() - 1;
        assert forall|i: int| 0 <= i < n implies number_for_label(
            #[trigger] items.drop_last()[i],
            labels.drop_last()[i],
        ) by {
            assert(items.drop_last()[i] == items[i]);
            assert(number_for_label(items[i], labels[i]));
        }
        lemma_axis_items_numbers(items.drop_last(), labels.drop_last());
        assert(number_for_label(items[n], labels[n]));
        assert(spec_axis_item(items.last()) == Some(labels.last()));
        assert(labels.drop_last().push(labels.last()) =~= labels);
    } else {
        assert(labels =~= Seq::<Seq<char>>::empty());
    }
}

/// Index numbers of a list of index labels, `None` when some label is not one.
fn index_numbers(axes: &Vec<String>) -> (r: Option<Vec<u64>>)
    ensures
        r is Some <==> all_u64_labels(strs(axes@)),
        r matches Some(v) ==> v@.len() == axes@.len() && forall|i: int|
            0 <= i < v@.len() ==> spec_parse_u64(axes@[i]@) == Some(#[trigger] v@[i]),
{
    let mut out: Vec<u64> = Vec::new();
    let mut i: usize = 0;
    while i < axes.len()
        invariant
            0 <= i <= axes@.len(),
            out@.len() == i,
            forall|k: int| 0 <= k < i ==> spec_parse_u64(axes@[k]@) == Some(#[trigger] out@[k]),
        decreases axes@.len() - i,
    {
        match parse_u64(axes[i].as_str()) {
            Some(n) => out.push(n),
            None => {
                proof {
                    assert(strs(axes@)[i as int] == axes@[i as int]@);
                }
                return None;
            },
        }
        i += 1;
    }
    proof {
        assert forall|k: int| 0 <= k < strs(axes@).len() implies (#[trigger] spec_parse_u64(
            strs(axes@)[k],
        )) is Some by {
            assert(strs(axes@)[k] == axes@[k]@);
            assert(spec_parse_u64(axes@[k]@) == Some(out@[k]));
        }
    }
    Some(out)
}

fn number_array(nums: &Vec<u64>) -> (r: JsonValue)
    ensures
        r matches JsonValue::Array(items) && items@.len() == nums@.len() && forall|i: int|
            0 <= i < items@.len() ==> (#[trigger] items@[i] matches JsonValue::Number(n)
                && n.repr == NumberRepr::PosInt(nums@[i])),
{
    let mut items: Vec<JsonValue> = Vec::new();
    let mut i: usize = 0;
    while i < nums.len()
        invariant
            0 <= i <= nums@.len(),
            items@.len() == i,
            forall|k: int|
                0 <= k < i ==> (#[trigger] items@[k] matches JsonValue::Number(n) && n.repr
                    == NumberRepr::PosInt(nums@[k])),
        decreases nums@.len() - i,
    {
        items.push(number_value(nums[i]));
        i += 1;
    }
    JsonValue::Array(items)
}

/// Axis spec of a plain operation: `[]`, one index number, or a list of index numbers.
fn axis_spec_value(axes: &Vec<String>) -> (r: Result<JsonValue, TetError>)
    ensures
        r is Ok <==> all_u64_labels(strs(axes@)),
        r matches Ok(v) ==> (axes_read_back(strs(axes@), false) ==> spec_axis_spec(v) == Some(
            strs(axes@),
        )),
{
    if axes.len() == 0 {
        let items: Vec<JsonValue> = Vec::new();
        proof {
            lemma_axis_items_numbers(items@, strs(axes@));
        }
        return Ok(JsonValue::Array(items));
    }
    if axes.len() == 1 {
        match parse_u64(axes[0].as_str()) {
            Some(n) => {
                proof {
                    assert(strs(axes@)[0] == axes@[0]@);
                    assert forall|i: int| 0 <= i < strs(axes@).len() implies (#[trigger] spec_parse_u64(
                        strs(axes@)[i],
                    )) is Some by {
                        assert(i == 0);
                    }
                    if axes_read_back(strs(axes@), false) {
                        assert(canonical_label(strs(axes@)[0]));
                        assert(strs(axes@) =~= seq![decimal(n as nat)]);
                    }
                }
                return Ok(number_value(n));
            },
            None => {},
        }
    }
    match index_numbers(axes) {
        Some(nums) => {
            let v = number_array(&nums);
            proof {
                if axes_read_back(strs(axes@), false) {
                    let items = v->Array_0@;
                    assert forall|i: int| 0 <= i < items.len() implies number_for_label(
                        #[trigger] items[i],
                        strs(axes@)[i],
                    ) by {
                        assert(strs(axes@)[i] == axes@[i]@);
                        assert(spec_parse_u64(axes@[i]@) == Some(nums@[i]));
                        assert(canonical_label(strs(axes@)[i]));
                    }
                    lemma_axis_items_numbers(items, strs(axes@));
                }
            }
            Ok(v)
        },
        None => Err(TetError::Validation(String::from_str(
            "axis labels of this operation must be index numbers to be written",
        ))),
    }
}

/// The `axis` / `axes` member of a parametric operation (none for a scalar reduction).
fn parametric_axes_member(axes: &Vec<String>) -> (r: Result<Option<(String, JsonValue)>, TetError>)
    ensures
        r is Ok <==> (axes@.len() <= 1 || all_u64_labels(strs(axes@))),
        r matches Ok(None) ==> axes@.len() == 0,
        r matches Ok(Some(m)) ==> (m.0@ == "axis"@ || m.0@ == "axes"@) && (axes_read_back(
            strs(axes@),
            true,
        ) ==> spec_axis_spec(m.1) == Some(strs(axes@))),
{
    if axes.len() == 0 {
        return Ok(None);
    }
    if axes.len() == 1 {
        proof {
            assert(strs(axes@)[0] == axes@[0]@);
            assert(strs(axes@) =~= seq![axes@[0]@]);
        }
        match parse_u64(axes[0].as_str()) {
            Some(n) => {
                proof {
                    if axes_read_back(strs(axes@), true) {
                        assert(canonical_label(strs(axes@)[0]));
                    }
                }
                return Ok(Some(member("axis", number_value(n))));
            },
            None => {
                return Ok(Some(member("axis", JsonValue::String(owned(axes[0].as_str())))));
            },
        }
    }
    let spec = axis_spec_value(axes)?;
    proof {
        if axes_read_back(strs(axes@), true) {
            assert(axes_read_back(strs(axes@), false));
        }
    }
    Ok(Some(member("axes", spec)))
}

/// The operation's wire value reads back as the operation: labels read back, and the float
/// parameters are finite.
pub open spec fn op_reads_back(o: OperationView) -> bool {
    &&& axes_read_back(o.axes, is_parametric_kind(o.kind))
    &&& o.kind == OpKind::Quantile ==> f64_is_finite(o.q)
    &&& o.kind == OpKind::Histogram ==> (o.min matches Some(x) ==> f64_is_finite(x)) && (
    o.max matches Some(x) ==> f64_is_finite(x))
    &&& o.kind == OpKind::NullCount ==> (o.fill matches Some(x) ==> f64_is_finite(x))
}

/// Parameter members followed by the axis member, as an object.
fn parametric_object(params: Vec<(String, JsonValue)>, axes: &Vec<String>) -> (r: Result<
    JsonValue,
    TetError,
>)
    requires
        forall|i: int|
            0 <= i < params@.len() ==> key_id((#[trigger] params@[i]).0@) != 38 && key_id(
                params@[i].0@,
            ) != 39,
    ensures
        r is Ok <==> (axes@.len() <= 1 || all_u64_labels(strs(axes@))),
        r matches Ok(v) ==> v is Object && (forall|k: Seq<char>|
            key_id(k) != 38 && key_id(k) != 39 ==> #[trigger] obj_get(v->Object_0@, k) == obj_get(
                params@,
                k,
            )) && (axes_read_back(strs(axes@), true) ==> spec_parametric_axes(v->Object_0@) == Some(
            strs(axes@),
        )),
{
    let mut members = params;
    let ghost base = members@;
    let am = parametric_axes_member(axes)?;
    proof {
        lemma_key_ids();
        reveal_strlit("axis");
        reveal_strlit("axes");
        assert forall|k: Seq<char>| key_id(k) == 38 || key_id(k) == 39 implies #[trigger] obj_get(
            base,
            k,
        ) is None by {
            lemma_obj_get_absent(base, k);
        }
    }
    match am {
        Some(m) => {
            let ghost mm = m;
            members.push(m);
            proof {
                assert forall|k: Seq<char>| key_id(k) != 38 && key_id(k) != 39 implies #[trigger] obj_get(
                    members@,
                    k,
                ) == obj_get(base, k) by {
                    lemma_obj_get_push(base, mm.0, mm.1, k);
                }
                lemma_obj_get_push(base, mm.0, mm.1, "axis"@);
                lemma_obj_get_push(base, mm.0, mm.1, "axes"@);
            }
        },
        None => {
            proof {
                assert(axes@.len() == 0);
                assert(strs(axes@) =~= Seq::<Seq<char>>::empty());
            }
        },
    }
    Ok(JsonValue::Object(members))
}

/// Each operation key names its operation kind.
pub proof fn lemma_kind_of_wire_key(op: &Operation)
    ensures
        spec_kind_of_name(op.spec_wire_key()) == Some(op@.kind),
{
    lemma_key_ids();
}

fn one_param(key: &str, v: JsonValue) -> (r: Vec<(String, JsonValue)>)
    ensures
        r@.len() == 1,
        r@[0].0@ == key@,
        r@[0].1 == v,
        forall|k: Seq<char>| #[trigger] obj_get(r@, k) == (if k == key@ {
            Some(v)
        } else {
            None::<JsonValue>
        }),
{
    let mut out: Vec<(String, JsonValue)> = Vec::new();
    let m = member(key, v);
    let ghost mm = m;
    out.push(m);
    proof {
        assert forall|k: Seq<char>| #[trigger] obj_get(out@, k) == (if k == key@ {
            Some(v)
        } else {
            None::<JsonValue>
        }) by {
            lemma_obj_get_empty(k);
            assert(Seq::<(String, JsonValue)>::empty().push(mm) =~= out@);
            lemma_obj_get_push(Seq::<(String, JsonValue)>::empty(), mm.0, mm.1, k);
        }
    }
    out
}

fn push_param(params: &mut Vec<(String, JsonValue)>, key: &str, v: JsonValue)
    ensures
        final(params)@ == old(params)@.push((final(params)@.last().0, v)),
        final(params)@.last().0@ == key@,
        forall|k: Seq<char>| #[trigger] obj_get(final(params)@, k) == (if obj_get(old(params)@, k) is Some {
            obj_get(old(params)@, k)
        } else if k == key@ {
            Some(v)
        } else {
            None::<JsonValue>
        }),
{
    let m = member(key, v);
    let ghost mm = m;
    let ghost before = params@;
    params.push(m);
    proof {
        assert forall|k: Seq<char>| #[trigger] obj_get(params@, k) == (if obj_get(before, k) is Some {
            obj_get(before, k)
        } else if k == key@ {
            Some(v)
        } else {
            None::<JsonValue>
        }) by {
            lemma_obj_get_push(before, mm.0, mm.1, k);
        }
    }
}

fn quantile_value(op: &Operation, axes: &Vec<String>, q: u64) -> (r: Result<JsonValue, TetError>)
    requires
        *op == (Operation::Quantile { axes: *axes, q }),
    ensures
        r is Ok <==> (axes@.len() <= 1 || all_u64_labels(strs(axes@))),
        r matches Ok(v) ==> (op_reads_back(op@) ==> spec_parse_operation("quantile"@, v) == Some(
            op@,
        )),
{
    proof {
        lemma_key_ids();
        crate::document::lemma_op_view_axes(op);
    }
    let qv = json_of_f64_bits(q);
    let params = one_param("q", qv);
    let ghost pm = params@;
    let v = parametric_object(params, axes)?;
    proof {
        if op_reads_back(op@) {
            let vm = v->Object_0@;
            assert(obj_get(vm, "q"@) == obj_get(pm, "q"@));
            assert(crate::document_wire::spec_opt_f64(obj_get(vm, "q"@)) == Some(q));
            assert(spec_parametric_axes(vm) == Some(strs(axes@)));
            assert(spec_kind_of_name("quantile"@) == Some(OpKind::Quantile));
        }
    }
    Ok(v)
}

fn histogram_value(
    op: &Operation,
    axes: &Vec<String>,
    bins: u32,
    min: Option<u64>,
    max: Option<u64>,
) -> (r: Result<JsonValue, TetError>)
    requires
        *op == (Operation::Histogram { axes: *axes, bins, min, max }),
    ensures
        r is Ok <==> (axes@.len() <= 1 || all_u64_labels(strs(axes@))),
        r matches Ok(v) ==> (op_reads_back(op@) ==> spec_parse_operation("histogram"@, v) == Some(
            op@,
        )),
{
    proof {
        lemma_key_ids();
        crate::document::lemma_op_view_axes(op);
        reveal_strlit("bins");
        reveal_strlit("min");
        reveal_strlit("max");
    }
    let mut params = one_param("bins", number_value(bins as u64));
    match min {
        Some(x) => push_param(&mut params, "min", json_of_f64_bits(x)),
        None => {},
    }
    match max {
        Some(x) => push_param(&mut params, "max", json_of_f64_bits(x)),
        None => {},
    }
    proof {
        assert forall|i: int| 0 <= i < params@.len() implies key_id((#[trigger] params@[i]).0@)
            != 38 && key_id(params@[i].0@) != 39 by {
            assert(params@[i].0@ == "bins"@ || params@[i].0@ == "min"@ || params@[i].0@ == "max"@);
        }
    }
    let ghost pm = params@;
    let v = parametric_object(params, axes)?;
    proof {
        if op_reads_back(op@) {
            let vm = v->Object_0@;
            assert(obj_get(vm, "bins"@) == obj_get(pm, "bins"@));
            assert(obj_get(vm, "min"@) == obj_get(pm, "min"@));
            assert(obj_get(vm, "max"@) == obj_get(pm, "max"@));
            assert(crate::document_wire::spec_bins(obj_get(vm, "bins"@)) == Some(bins));
            assert(crate::document_wire::spec_opt_f64(obj_get(vm, "min"@)) == min);
            assert(crate::document_wire::spec_opt_f64(obj_get(vm, "max"@)) == max);
            assert(spec_parametric_axes(vm) == Some(strs(axes@)));
            assert(spec_kind_of_name("histogram"@) == Some(OpKind::Histogram));
        }
    }
    Ok(v)
}

fn null_count_value(op: &Operation, axes: &Vec<String>, fill: Option<u64>) -> (r: Result<
    JsonValue,
    TetError,
>)
    requires
        *op == (Operation::NullCount { axes: *axes, fill }),
    ensures
        r is Ok <==> (axes@.len() <= 1 || all_u64_labels(strs(axes@))),
        r matches Ok(v) ==> (op_reads_back(op@) ==> spec_parse_operation("null_count"@, v) == Some(
            op@,
        )),
{
    proof {
        lemma_key_ids();
        crate::document::lemma_op_view_axes(op);
        reveal_strlit("fill");
    }
    let mut params: Vec<(String, JsonValue)> = Vec::new();
    proof {
        assert forall|k: Seq<char>| #[trigger] obj_get(params@, k) is None by {
            lemma_obj_get_empty(k);
        }
    }
    match fill {
        Some(x) => push_param(&mut params, "fill", json_of_f64_bits(x)),
        None => {},
    }
    let ghost pm = params@;
    let v = parametric_object(params, axes)?;
    proof {
        if op_reads_back(op@) {
            let vm = v->Object_0@;
            assert(obj_get(vm, "fill"@) == obj_get(pm, "fill"@));
            assert(crate::document_wire::spec_opt_f64(obj_get(vm, "fill"@)) == fill);
            assert(spec_parametric_axes(vm) == Some(strs(axes@)));
            assert(spec_kind_of_name("null_count"@) == Some(OpKind::NullCount));
        }
    }
    Ok(v)
}

fn transform_value(op: &Operation, axes: &Vec<String>, method: TransformMethod) -> (r: Result<
    JsonValue,
    TetError,
>)
    requires
        *op == (Operation::Transform { method, axes: *axes }),
    ensures
        r is Ok <==> (axes@.len() <= 1 || all_u64_labels(strs(axes@))),
        r matches Ok(v) ==> (op_reads_back(op@) ==> spec_parse_operation("transform"@, v) == Some(
            op@,
        )),
{
    proof {
        lemma_key_ids();
        crate::document::lemma_op_view_axes(op);
        reveal_strlit("zscore");
        reveal_strlit("min_max_normalize");
    }
    let name = owned(method.as_str());
    let mv = JsonValue::String(name);
    proof {
        assert("min_max_normalize"@.len() == 17);
        assert("zscore"@.len() == 6);
        assert("min_max_normalize"@ != "zscore"@);
        match method {
            TransformMethod::Zscore => {},
            TransformMethod::MinMaxNormalize => {},
        }
    }
    assert(TransformMethod::spec_parse(method.spec_as_str()) == Some(method));
    let params = one_param("method", mv);
    let ghost pm = params@;
    let v = parametric_object(params, axes)?;
    proof {
        if op_reads_back(op@) {
            let vm = v->Object_0@;
            assert(obj_get(vm, "method"@) == obj_get(pm, "method"@));
            assert(obj_get(vm, "method"@) == Some(mv));
            assert(crate::document_wire::spec_method(obj_get(vm, "method"@)) == Some(method));
            assert(spec_parametric_axes(vm) == Some(strs(axes@)));
            assert(spec_kind_of_name("transform"@) == Some(OpKind::Transform));
        }
    }
    Ok(v)
}

fn plain_value(op: &Operation) -> (r: Result<JsonValue, TetError>)
    requires
        !is_parametric_kind(op@.kind),
    ensures
        r is Ok <==> all_u64_labels(op@.axes),
        r matches Ok(v) ==> (op_reads_back(op@) ==> spec_parse_operation(op.spec_wire_key(), v)
            == Some(op@)),
{
    proof {
        crate::document::lemma_op_view_axes(op);
        lemma_kind_of_wire_key(op);
    }
    let spec = axis_spec_value(op.axes())?;
    proof {
        if op_reads_back(op@) {
            assert(spec_axis_spec(spec) == Some(op@.axes));
            assert(op@ == plain_op(op@.kind, op@.axes));
        }
    }
    Ok(spec)
}

/// The `(key, value)` member of an operation.
fn operation_member(op: &Operation) -> (r: Result<(String, JsonValue), TetError>)
    ensures
        r is Ok <==> (if is_parametric_kind(op@.kind) {
            op@.axes.len() <= 1 || all_u64_labels(op@.axes)
        } else {
            all_u64_labels(op@.axes)
        }),
        r matches Ok(m) ==> m.0@ == op.spec_wire_key(),
        r matches Ok(m) ==> (op_reads_back(op@) ==> spec_parse_operation(op.spec_wire_key(), m.1)
            == Some(op@)),
{
    proof {
        crate::document::lemma_op_view_axes(op);
    }
    match op {
        Operation::Quantile { axes, q } => {
            let v = quantile_value(op, axes, *q)?;
            Ok(member("quantile", v))
        },
        Operation::Histogram { axes, bins, min, max } => {
            let v = histogram_value(op, axes, *bins, *min, *max)?;
            Ok(member("histogram", v))
        },
        Operation::NullCount { axes, fill } => {
            let v = null_count_value(op, axes, *fill)?;
            Ok(member("null_count", v))
        },
        Operation::Transform { method, axes } => {
            let v = transform_value(op, axes, *method)?;
            Ok(member("transform", v))
        },
        _ => {
            let v = plain_value(op)?;
            Ok(member(op.wire_key(), v))
        },
    }
}

/// No member of `m` carries a name numbered like `k`.
proof fn lemma_obj_get_absent(m: Seq<(String, JsonValue)>, k: Seq<char>)
    requires
        forall|i: int| 0 <= i < m.len() ==> key_id((#[trigger] m[i]).0@) != key_id(k),
    ensures
        obj_get(m, k) is None,
    decreases m.len(),
{
    if m.len() == 0 {
        lemma_obj_get_empty(k);
        assert(m =~= Seq::<(String, JsonValue)>::empty());
    } else {
        let l = m.drop_last();
        assert forall|i: int| 0 <= i < l.len() implies key_id((#[trigger] l[i]).0@) != key_id(k) by {
            assert(l[i] == m[i]);
        }
        lemma_obj_get_absent(l, k);
        assert(l.push((m.last().0, m.last().1)) =~= m);
        assert(key_id(m[m.len() - 1].0@) != key_id(k));
        assert(m.last().0@ != k);
        lemma_obj_get_push(l, m.last().0, m.last().1, k);
    }
}

/// Appends `key: <index number>` when `v` is set.
fn push_opt_index(members: &mut Vec<(String, JsonValue)>, key: &str, v: Option<u64>)
    ensures
        forall|k: Seq<char>| k != key@ ==> #[trigger] obj_get(final(members)@, k) == obj_get(old(members)@, k),
        obj_get(old(members)@, key@) is None ==> spec_opt_index(final(members)@, key@) == Some(v),
        obj_get(old(members)@, key@) is None ==> match v {
            None => obj_get(final(members)@, key@) is None,
            Some(x) => obj_get(final(members)@, key@) matches Some(JsonValue::Number(n)) && n.repr
                == NumberRepr::PosInt(x),
        },
        v is None ==> final(members)@ == old(members)@,
        v is Some ==> final(members)@.len() == old(members)@.len() + 1,
        final(members)@.len() >= old(members)@.len(),
        forall|i: int| 0 <= i < old(members)@.len() ==> #[trigger] final(members)@[i] == old(members)@[i],
        forall|i: int| old(members)@.len() <= i < final(members)@.len() ==> (#[trigger] final(members)@[i]).0@ == key@,
{
    let ghost before = members@;
    match v {
        Some(x) => push_param(members, key, number_value(x)),
        None => {
            proof {
                lemma_obj_get_absent_or_none(before, key@);
            }
        },
    }
}

/// Appends `key: <text>` when `v` is set.
fn push_opt_label(members: &mut Vec<(String, JsonValue)>, key: &str, v: &Option<String>)
    ensures
        forall|k: Seq<char>| k != key@ ==> #[trigger] obj_get(final(members)@, k) == obj_get(old(members)@, k),
        obj_get(old(members)@, key@) is None ==> spec_opt_label(final(members)@, key@) == Some(
            opt_str(*v),
        ),
        final(members)@.len() >= old(members)@.len(),
        forall|i: int| 0 <= i < old(members)@.len() ==> #[trigger] final(members)@[i] == old(members)@[i],
        forall|i: int| old(members)@.len() <= i < final(members)@.len() ==> (#[trigger] final(members)@[i]).0@ == key@,
{
    match v {
        Some(x) => push_param(members, key, JsonValue::String(owned(x.as_str()))),
        None => {},
    }
}

/// A lookup that finds nothing stays a lookup that finds nothing.
proof fn lemma_obj_get_absent_or_none(m: Seq<(String, JsonValue)>, k: Seq<char>)
    ensures
        obj_get(m, k) is None ==> obj_get(m, k) == None::<JsonValue>,
{
}

/// One selection axis as an object of its set bounds.
fn slice_value(sl: &AxisSlice) -> (r: JsonValue)
    ensures
        spec_axis_slice(r) == Some(sl@),
{
    proof {
        lemma_key_ids();
    }
    let mut members: Vec<(String, JsonValue)> = Vec::new();
    proof {
        assert forall|k: Seq<char>| #[trigger] obj_get(members@, k) is None by {
            lemma_obj_get_empty(k);
        }
    }
    let ghost m0 = members@;
    push_opt_index(&mut members, "start", sl.start);
    let ghost m1 = members@;
    push_opt_index(&mut members, "stop", sl.stop);
    let ghost m2 = members@;
    push_opt_index(&mut members, "step", sl.step);
    let ghost m3 = members@;
    push_opt_label(&mut members, "start_label", &sl.start_label);
    let ghost m4 = members@;
    push_opt_label(&mut members, "stop_label", &sl.stop_label);
    proof {
        let m = members@;
        assert(spec_opt_index(m1, "start"@) == Some(sl.start));
        assert(obj_get(m, "start"@) == obj_get(m1, "start"@));
        assert(spec_opt_index(m2, "stop"@) == Some(sl.stop));
        assert(obj_get(m, "stop"@) == obj_get(m2, "stop"@));
        assert(spec_opt_index(m3, "step"@) == Some(sl.step));
        assert(obj_get(m, "step"@) == obj_get(m3, "step"@));
        assert(spec_opt_label(m4, "start_label"@) == Some(opt_str(sl.start_label)));
        assert(obj_get(m, "start_label"@) == obj_get(m4, "start_label"@));
        assert(spec_opt_label(m, "stop_label"@) == Some(opt_str(sl.stop_label)));
        assert forall|i: int| 0 <= i < m.len() implies spec_slice_keys().contains(
            #[trigger] m[i].0@,
        ) by {
            let key = m[i].0@;
            if i < m1.len() {
                assert(key == "start"@);
                assert(spec_slice_keys()[0] == key);
            } else if i < m2.len() {
                assert(key == "stop"@);
                assert(spec_slice_keys()[1] == key);
            } else if i < m3.len() {
                assert(key == "step"@);
                assert(spec_slice_keys()[2] == key);
            } else if i < m4.len() {
                assert(key == "start_label"@);
                assert(spec_slice_keys()[3] == key);
            } else {
                assert(key == "stop_label"@);
                assert(spec_slice_keys()[4] == key);
            }
        }
        assert(keys_within(m, spec_slice_keys()));
    }
    JsonValue::Object(members)
}

fn selection_value(sel: &Vec<AxisSlice>) -> (r: JsonValue)
    ensures
        spec_selection(r) == Some(sel@.map_values(|a: AxisSlice| a@)),
{
    let mut items: Vec<JsonValue> = Vec::new();
    let mut i: usize = 0;
    while i < sel.len()
        invariant
            0 <= i <= sel@.len(),
            spec_axis_slices(items@) == Some(sel@.take(i as int).map_values(|a: AxisSlice| a@)),
        decreases sel@.len() - i,
    {
        let v = slice_value(&sel[i]);
        let ghost before = items@;
        items.push(v);
        proof {
            assert(items@.drop_last() =~= before);
            assert(sel@.take(i + 1).map_values(|a: AxisSlice| a@) =~= sel@.take(i as int).map_values(
                |a: AxisSlice| a@,
            ).push(sel@[i as int]@));
        }
        i += 1;
    }
    assert(sel@.take(sel@.len() as int) =~= sel@);
    JsonValue::Array(items)
}

/// A path reads back: non-empty and at most [`MAX_NAME_BYTES`] bytes.
pub open spec fn path_reads_back(p: Seq<char>) -> bool {
    p.len() > 0 && byte_len(p) <= MAX_NAME_BYTES
}

/// Write hints are written (not the default) and their path reads back.
pub open spec fn write_reads_back(w: WriteHintsView) -> bool {
    &&& !(w.target == WriteTarget::Switch && w.path is None)
    &&& (w.path matches Some(p) ==> path_reads_back(p))
}

fn write_value(w: &WriteHints) -> (r: Option<JsonValue>)
    ensures
        r is None <==> (w.path is None && w.target == WriteTarget::Switch),
        r matches Some(v) ==> (write_reads_back(w@) ==> spec_write(v) == Some(w@)),
{
    proof {
        lemma_key_ids();
        reveal_strlit("switch");
        reveal_strlit("spill");
        reveal_strlit("sidecar");
        reveal_strlit("ram");
        assert("switch"@.len() == 6 && "spill"@.len() == 5 && "sidecar"@.len() == 7 && "ram"@.len()
            == 3);
        match w.target {
            WriteTarget::Switch => {},
            WriteTarget::Spill => {
                assert("spill"@ != "switch"@);
            },
            WriteTarget::Sidecar => {
                assert("sidecar"@ != "switch"@ && "sidecar"@ != "spill"@);
            },
            WriteTarget::Ram => {
                assert("ram"@ != "switch"@ && "ram"@ != "spill"@ && "ram"@ != "sidecar"@);
            },
        }
        assert(spec_write_target(w.target.spec_as_wire_str()) == Some(w.target));
    }
    match &w.path {
        None => {
            if w.target == WriteTarget::Switch {
                None
            } else {
                Some(JsonValue::String(owned(w.target.as_wire_str())))
            }
        },
        Some(p) => {
            let tv = JsonValue::String(owned(w.target.as_wire_str()));
            let mut members = one_param("target", tv);
            let ghost m1 = members@;
            let pv = JsonValue::String(owned(p.as_str()));
            push_param(&mut members, "path", pv);
            proof {
                let m = members@;
                assert(obj_get(m, "target"@) == Some(tv));
                assert(obj_get(m, "path"@) == Some(pv));
                assert forall|i: int| 0 <= i < m.len() implies spec_write_keys().contains(
                    #[trigger] m[i].0@,
                ) by {
                    if i == 0 {
                        assert(spec_write_keys()[0] == m[i].0@);
                    } else {
                        assert(spec_write_keys()[1] == m[i].0@);
                    }
                }
            }
            Some(JsonValue::Object(members))
        },
    }
}

/// Basis points that survive being written as a percent and read back.
pub open spec fn bps_reads_back(bps: u16) -> bool {
    let bits = bps_percent_bits(bps as nat) as u64;
    &&& f64_is_finite(bits)
    &&& percent_in_range(bits)
    &&& spec_percent_to_bps_checked(bits) == Some(bps)
}

/// Every basis-point value up to `10000` (100 percent) is written as a finite percent in range
/// and read back unchanged.
pub proof fn lemma_bps_reads_back(bps: u16)
    requires
        bps <= 10000,
    ensures
        bps_reads_back(bps),
{
    lemma_bps_percent_round_trip(bps as nat);
}

/// Execution hints are written (some field is set) and their basis points are at most `10000`.
pub open spec fn execution_reads_back(ex: ExecutionHints) -> bool {
    &&& !(ex.memory_budget_bytes is None && ex.memory_budget_percent_bps is None
        && ex.fold_parallel is None && ex.device is None)
    &&& (ex.memory_budget_percent_bps matches Some(b) ==> b <= 10000)
}

fn execution_value(ex: &ExecutionHints) -> (r: Option<JsonValue>)
    ensures
        r is None <==> (ex.memory_budget_bytes is None && ex.memory_budget_percent_bps is None
            && ex.fold_parallel is None && ex.device is None),
        r matches Some(v) ==> (execution_reads_back(*ex) ==> spec_execution(v) == Some(*ex)),
{
    proof {
        lemma_key_ids();
    }
    let mut members: Vec<(String, JsonValue)> = Vec::new();
    proof {
        assert forall|k: Seq<char>| #[trigger] obj_get(members@, k) is None by {
            lemma_obj_get_empty(k);
        }
    }
    let ghost m0 = members@;
    push_opt_index(&mut members, "memory_budget_bytes", ex.memory_budget_bytes);
    let ghost m1 = members@;
    match ex.memory_budget_percent_bps {
        Some(bps) => {
            let pv = json_of_f64_bits(bps_to_percent_bits(bps));
            push_param(&mut members, "memory_budget_percent", pv);
        },
        None => {},
    }
    let ghost m2 = members@;
    match ex.fold_parallel {
        Some(b) => push_param(&mut members, "fold_parallel", JsonValue::Bool(b)),
        None => {},
    }
    let ghost m3 = members@;
    match ex.device {
        Some(d) => push_param(&mut members, "device", JsonValue::String(d.to_token())),
        None => {},
    }
    proof {
        let m = members@;
        if execution_reads_back(*ex) {
            match ex.memory_budget_percent_bps {
                Some(bps) => lemma_bps_reads_back(bps),
                None => {},
            }
            assert(obj_get(m, "memory_budget_bytes"@) == obj_get(m1, "memory_budget_bytes"@));
            assert(obj_get(m, "memory_budget_percent_bps"@) is None);
            assert(obj_get(m, "memory_budget_percent"@) == obj_get(m2, "memory_budget_percent"@));
            assert(obj_get(m, "fold_parallel"@) == obj_get(m3, "fold_parallel"@));
            match ex.device {
                Some(d) => crate::document_wire::lemma_device_token_roundtrip(d),
                None => {},
            }
            assert forall|i: int| 0 <= i < m.len() implies spec_execution_keys().contains(
                #[trigger] m[i].0@,
            ) by {
                let key = m[i].0@;
                if i < m1.len() {
                    assert(spec_execution_keys()[0] == key);
                } else if i < m2.len() {
                    assert(spec_execution_keys()[1] == key);
                } else if i < m3.len() {
                    assert(spec_execution_keys()[3] == key);
                } else {
                    assert(spec_execution_keys()[4] == key);
                }
            }
            assert(crate::document_wire::spec_opt_field(
                obj_get(m, "memory_budget_bytes"@),
                |x| crate::document_wire::spec_u64_field(x),
            ) == Some(ex.memory_budget_bytes));
            assert(crate::document_wire::spec_budget_bps(m) == Some(ex.memory_budget_percent_bps));
            assert(crate::document_wire::spec_opt_field(
                obj_get(m, "fold_parallel"@),
                |x| crate::document_wire::spec_bool_value(x),
            ) == Some(ex.fold_parallel));
            assert(crate::document_wire::spec_opt_field(
                obj_get(m, "device"@),
                |x| crate::document_wire::spec_device_value(x),
            ) == Some(ex.device));
            assert(spec_execution(JsonValue::Object(members)) == Some(*ex));
        }
    }
    if members.len() == 0 {
        None
    } else {
        Some(JsonValue::Object(members))
    }
}

/// The key of an operation is operation key number `key_id` of it.
pub proof fn lemma_wire_key_index(op: &Operation)
    ensures
        0 <= key_id(op.spec_wire_key()) < 26,
        spec_op_keys()[key_id(op.spec_wire_key())] == op.spec_wire_key(),
{
    lemma_key_ids();
    match op {
        Operation::Sum { .. } => {
            assert(spec_op_keys()[0] == "sum"@);
        },
        Operation::Mean { .. } => {
            assert(spec_op_keys()[1] == "mean"@);
        },
        Operation::Min { .. } => {
            assert(spec_op_keys()[2] == "min"@);
        },
        Operation::Max { .. } => {
            assert(spec_op_keys()[3] == "max"@);
        },
        Operation::Count { .. } => {
            assert(spec_op_keys()[4] == "count"@);
        },
        Operation::Var { .. } => {
            assert(spec_op_keys()[5] == "var"@);
        },
        Operation::Std { .. } => {
            assert(spec_op_keys()[6] == "std"@);
        },
        Operation::Product { .. } => {
            assert(spec_op_keys()[7] == "product"@);
        },
        Operation::NormL1 { .. } => {
            assert(spec_op_keys()[8] == "norm_l1"@);
        },
        Operation::NormL2 { .. } => {
            assert(spec_op_keys()[9] == "norm_l2"@);
        },
        Operation::AllFinite { .. } => {
            assert(spec_op_keys()[10] == "all_finite"@);
        },
        Operation::AnyNan { .. } => {
            assert(spec_op_keys()[11] == "any_nan"@);
        },
        Operation::AnyInf { .. } => {
            assert(spec_op_keys()[12] == "any_inf"@);
        },
        Operation::ArgMin { .. } => {
            assert(spec_op_keys()[13] == "arg_min"@);
        },
        Operation::ArgMax { .. } => {
            assert(spec_op_keys()[14] == "arg_max"@);
        },
        Operation::Median { .. } => {
            assert(spec_op_keys()[15] == "median"@);
        },
        Operation::Quantile { .. } => {
            assert(spec_op_keys()[16] == "quantile"@);
        },
        Operation::Histogram { .. } => {
            assert(spec_op_keys()[17] == "histogram"@);
        },
        Operation::NanCount { .. } => {
            assert(spec_op_keys()[18] == "nan_count"@);
        },
        Operation::InfCount { .. } => {
            assert(spec_op_keys()[19] == "inf_count"@);
        },
        Operation::NullCount { .. } => {
            assert(spec_op_keys()[20] == "null_count"@);
        },
        Operation::Covariance { .. } => {
            assert(spec_op_keys()[21] == "covariance"@);
        },
        Operation::Correlation { .. } => {
            assert(spec_op_keys()[22] == "correlation"@);
        },
        Operation::NanMean { .. } => {
            assert(spec_op_keys()[23] == "nan_mean"@);
        },
        Operation::NanStd { .. } => {
            assert(spec_op_keys()[24] == "nan_std"@);
        },
        Operation::Transform { .. } => {
            assert(spec_op_keys()[25] == "transform"@);
        },
    }
}

/// Operation keys present in an object, when exactly the key numbered `kk` (if any) is present.
proof fn lemma_present_ops_exact(m: Seq<(String, JsonValue)>, has: bool, kk: int, k: int)
    requires
        0 <= k <= 26,
        forall|j: int|
            0 <= j < 26 ==> ((#[trigger] obj_get(m, spec_op_keys()[j]) is Some) == (has && j == kk)),
    ensures
        present_ops(m, k) == (if has && 0 <= kk < k {
            seq![kk]
        } else {
            Seq::<int>::empty()
        }),
    decreases k,
{
    if k > 0 {
        lemma_present_ops_exact(m, has, kk, k - 1);
        assert(obj_get(m, spec_op_keys()[k - 1]) is Some == (has && k - 1 == kk));
        if has && 0 <= kk < k - 1 {
        } else if has && kk == k - 1 {
            assert(Seq::<int>::empty().push(kk) =~= seq![kk]);
        }
    }
}

/// Every member name is a top-level key.
pub open spec fn all_keys_allowed(m: Seq<(String, JsonValue)>) -> bool {
    forall|i: int| 0 <= i < m.len() ==> spec_is_allowed_key(#[trigger] m[i].0@)
}

/// A document reads back from its wire form: its operation reads back, its output is a spill
/// path, and its write and execution hints are written and read back.
pub open spec fn doc_reads_back(d: DocView) -> bool {
    &&& (d.operation matches Some(o) ==> op_reads_back(o))
    &&& (d.output matches Some(out) ==> (out matches Some(OutputHintView::SpillArray(p))
        && path_reads_back(p)))
    &&& (d.write matches Some(w) ==> write_reads_back(w))
    &&& (d.execution matches Some(ex) ==> execution_reads_back(ex))
}

/// A lookup after appending `(key, v)`.
pub open spec fn upd(o: Option<JsonValue>, key: Seq<char>, v: JsonValue, k: Seq<char>) -> Option<
    JsonValue,
> {
    if o is Some {
        o
    } else if k == key {
        Some(v)
    } else {
        None
    }
}

fn push_member(members: &mut Vec<(String, JsonValue)>, key: &str, v: JsonValue)
    requires
        all_keys_allowed(old(members)@),
        spec_is_allowed_key(key@),
    ensures
        all_keys_allowed(final(members)@),
        final(members)@.len() == old(members)@.len() + 1,
        obj_get(final(members)@, "layout_version"@) == upd(obj_get(old(members)@, "layout_version"@), key@, v, "layout_version"@),
        obj_get(final(members)@, "dataset"@) == upd(obj_get(old(members)@, "dataset"@), key@, v, "dataset"@),
        obj_get(final(members)@, "selection"@) == upd(obj_get(old(members)@, "selection"@), key@, v, "selection"@),
        obj_get(final(members)@, "spill"@) == upd(obj_get(old(members)@, "spill"@), key@, v, "spill"@),
        obj_get(final(members)@, "write"@) == upd(obj_get(old(members)@, "write"@), key@, v, "write"@),
        obj_get(final(members)@, "execution"@) == upd(obj_get(old(members)@, "execution"@), key@, v, "execution"@),
        obj_get(final(members)@, "operation"@) == upd(obj_get(old(members)@, "operation"@), key@, v, "operation"@),
        obj_get(final(members)@, "output"@) == upd(obj_get(old(members)@, "output"@), key@, v, "output"@),
        forall|j: int|
            0 <= j < 26 ==> #[trigger] obj_get(final(members)@, spec_op_keys()[j]) == upd(
                obj_get(old(members)@, spec_op_keys()[j]),
                key@,
                v,
                spec_op_keys()[j],
            ),
{
    let ghost before = members@;
    let m = member(key, v);
    let ghost mm = m;
    members.push(m);
    proof {
        lemma_obj_get_push(before, mm.0, mm.1, "layout_version"@);
        lemma_obj_get_push(before, mm.0, mm.1, "dataset"@);
        lemma_obj_get_push(before, mm.0, mm.1, "selection"@);
        lemma_obj_get_push(before, mm.0, mm.1, "spill"@);
        lemma_obj_get_push(before, mm.0, mm.1, "write"@);
        lemma_obj_get_push(before, mm.0, mm.1, "execution"@);
        lemma_obj_get_push(before, mm.0, mm.1, "operation"@);
        lemma_obj_get_push(before, mm.0, mm.1, "output"@);
        assert forall|j: int| 0 <= j < 26 implies #[trigger] obj_get(members@, spec_op_keys()[j])
            == upd(obj_get(before, spec_op_keys()[j]), key@, v, spec_op_keys()[j]) by {
            lemma_obj_get_push(before, mm.0, mm.1, spec_op_keys()[j]);
        }
        assert forall|i: int| 0 <= i < members@.len() implies spec_is_allowed_key(
            #[trigger] members@[i].0@,
        ) by {
            if i < before.len() {
                assert(members@[i] == before[i]);
            }
        }
    }
}

/// Reading back an assembled document object, given what each member lookup gives.
proof fn lemma_parse_assembled(v: JsonValue, d: DocView)
    requires
        v is Object,
        all_keys_allowed(v->Object_0@),
        obj_get(v->Object_0@, "operation"@) is None,
        obj_get(v->Object_0@, "output"@) is None,
        obj_get(v->Object_0@, "dataset"@) matches Some(JsonValue::String(x)) && x@ == d.dataset,
        crate::document_wire::spec_opt_field(
            obj_get(v->Object_0@, "layout_version"@),
            |x| crate::document_wire::spec_u32_field(x),
        ) == Some(d.layout_version),
        crate::document_wire::spec_opt_field(
            obj_get(v->Object_0@, "selection"@),
            |x| spec_selection(x),
        ) == Some(d.selection),
        spec_spill_output(obj_get(v->Object_0@, "spill"@)) == Some(d.output),
        crate::document_wire::spec_opt_field(obj_get(v->Object_0@, "write"@), |x| spec_write(x))
            == Some(d.write),
        crate::document_wire::spec_opt_field(
            obj_get(v->Object_0@, "execution"@),
            |x| spec_execution(x),
        ) == Some(d.execution),
        spec_query_op(v->Object_0@) == Some(d.operation),
    ensures
        spec_parse_query(v) == Some(d),
{
    assert(spec_query_head_ok(v));
}

/// Lookups of the top-level keys other than the operation keys agree in two objects.
pub open spec fn same_top_lookups(m: Seq<(String, JsonValue)>, m2: Seq<(String, JsonValue)>) -> bool {
    &&& obj_get(m2, "layout_version"@) == obj_get(m, "layout_version"@)
    &&& obj_get(m2, "dataset"@) == obj_get(m, "dataset"@)
    &&& obj_get(m2, "selection"@) == obj_get(m, "selection"@)
    &&& obj_get(m2, "operation"@) == obj_get(m, "operation"@)
    &&& obj_get(m2, "output"@) == obj_get(m, "output"@)
}

/// Lookups of the operation keys agree in two objects.
pub open spec fn same_op_lookups(m: Seq<(String, JsonValue)>, m2: Seq<(String, JsonValue)>) -> bool {
    forall|j: int|
        0 <= j < 26 ==> #[trigger] obj_get(m2, spec_op_keys()[j]) == obj_get(m, spec_op_keys()[j])
}

proof fn lemma_present_ops_same(m: Seq<(String, JsonValue)>, m2: Seq<(String, JsonValue)>, k: int)
    requires
        0 <= k <= 26,
        same_op_lookups(m, m2),
    ensures
        present_ops(m2, k) == present_ops(m, k),
    decreases k,
{
    if k > 0 {
        lemma_present_ops_same(m, m2, k - 1);
        assert(obj_get(m2, spec_op_keys()[k - 1]) == obj_get(m, spec_op_keys()[k - 1]));
    }
}

proof fn lemma_query_op_same(m: Seq<(String, JsonValue)>, m2: Seq<(String, JsonValue)>)
    requires
        same_op_lookups(m, m2),
    ensures
        spec_query_op(m2) == spec_query_op(m),
{
    lemma_present_ops_same(m, m2, 26);
    let p = present_ops(m, 26);
    if p.len() == 1 {
        lemma_present_ops_range(m, 26);
        assert(obj_get(m2, spec_op_keys()[p[0]]) == obj_get(m, spec_op_keys()[p[0]]));
    }
}

proof fn lemma_present_ops_range(m: Seq<(String, JsonValue)>, k: int)
    requires
        0 <= k <= 26,
    ensures
        forall|t: int| 0 <= t < present_ops(m, k).len() ==> 0 <= #[trigger] present_ops(m, k)[t] < k,
    decreases k,
{
    if k > 0 {
        lemma_present_ops_range(m, k - 1);
        let p = present_ops(m, k - 1);
        assert forall|t: int| 0 <= t < present_ops(m, k).len() implies 0 <= #[trigger] present_ops(
            m,
            k,
        )[t] < k by {
            if t < p.len() {
                assert(present_ops(m, k)[t] == p[t]);
            }
        }
    }
}

/// Members of the head of a document object: `layout_version`, `dataset`, `selection`.
pub open spec fn head_facts(m: Seq<(String, JsonValue)>, d: DocView) -> bool {
    &&& all_keys_allowed(m)
    &&& crate::document_wire::spec_opt_field(
        obj_get(m, "layout_version"@),
        |x| crate::document_wire::spec_u32_field(x),
    ) == Some(d.layout_version)
    &&& obj_get(m, "dataset"@) matches Some(JsonValue::String(x)) && x@ == d.dataset
    &&& crate::document_wire::spec_opt_field(obj_get(m, "selection"@), |x| spec_selection(x))
        == Some(d.selection)
    &&& obj_get(m, "operation"@) is None
    &&& obj_get(m, "output"@) is None
}

fn wire_head(doc: &QueryDocument) -> (r: Vec<(String, JsonValue)>)
    ensures
        head_facts(r@, doc@),
        obj_get(r@, "spill"@) is None,
        obj_get(r@, "write"@) is None,
        obj_get(r@, "execution"@) is None,
        forall|j: int| 0 <= j < 26 ==> #[trigger] obj_get(r@, spec_op_keys()[j]) is None,
{
    proof {
        lemma_key_ids();
        reveal_strlit("layout_version");
        reveal_strlit("dataset");
        reveal_strlit("selection");
        assert(spec_reserved_keys()[0] == "layout_version"@);
        assert(spec_reserved_keys()[1] == "dataset"@);
        assert(spec_reserved_keys()[2] == "selection"@);
    }
    let mut members: Vec<(String, JsonValue)> = Vec::new();
    proof {
        assert forall|k: Seq<char>| #[trigger] obj_get(members@, k) is None by {
            lemma_obj_get_empty(k);
        }
    }
    match doc.layout_version {
        Some(v) => push_member(&mut members, "layout_version", number_value(v as u64)),
        None => {},
    }
    let dv = JsonValue::String(owned(doc.dataset.as_str()));
    push_member(&mut members, "dataset", dv);
    match &doc.selection {
        Some(sel) => {
            let sv = selection_value(sel);
            push_member(&mut members, "selection", sv);
        },
        None => {},
    }
    members
}

fn wire_push_operation(members: &mut Vec<(String, JsonValue)>, doc: &QueryDocument) -> (r: Result<
    (),
    TetError,
>)
    requires
        head_facts(old(members)@, doc@),
        obj_get(old(members)@, "spill"@) is None,
        obj_get(old(members)@, "write"@) is None,
        obj_get(old(members)@, "execution"@) is None,
        forall|j: int| 0 <= j < 26 ==> #[trigger] obj_get(old(members)@, spec_op_keys()[j]) is None,
    ensures
        r is Ok <==> spec_wire_encodable(doc@),
        r is Ok ==> head_facts(final(members)@, doc@),
        r is Ok ==> obj_get(final(members)@, "spill"@) is None,
        r is Ok ==> obj_get(final(members)@, "write"@) is None,
        r is Ok ==> obj_get(final(members)@, "execution"@) is None,
        r is Ok ==> (doc@.operation matches Some(o) && op_reads_back(o) || doc@.operation is None)
            ==> spec_query_op(final(members)@) == Some(doc@.operation),
{
    proof {
        lemma_key_ids();
    }
    let ghost m0 = members@;
    match &doc.operation {
        Some(op) => {
            let m = operation_member(op)?;
            proof {
                lemma_wire_key_index(op);
                assert(spec_op_keys().contains(m.0@)) by {
                    assert(spec_op_keys()[key_id(op.spec_wire_key())] == m.0@);
                }
            }
            let ghost opv = m.1;
            let (k, v) = m;
            push_member(members, k.as_str(), v);
            proof {
                let mf = members@;
                let kk = key_id(op.spec_wire_key());
                assert forall|j: int| 0 <= j < 26 implies ((#[trigger] obj_get(
                    mf,
                    spec_op_keys()[j],
                ) is Some) == (j == kk)) by {
                    assert(key_id(spec_op_keys()[j]) == j);
                    assert(obj_get(m0, spec_op_keys()[j]) is None);
                }
                lemma_present_ops_exact(mf, true, kk, 26);
                assert(obj_get(mf, op.spec_wire_key()) == Some(opv));
                if op_reads_back(op@) {
                    assert(spec_query_op(mf) == Some(Some(op@)));
                }
            }
        },
        None => {
            proof {
                assert forall|j: int| 0 <= j < 26 implies ((#[trigger] obj_get(
                    m0,
                    spec_op_keys()[j],
                ) is Some) == false) by {}
                lemma_present_ops_exact(m0, false, 0, 26);
            }
        },
    }
    Ok(())
}

/// Members after the operation: `spill`, `write`, `execution`.
fn wire_push_tail(members: &mut Vec<(String, JsonValue)>, doc: &QueryDocument)
    requires
        all_keys_allowed(old(members)@),
        obj_get(old(members)@, "spill"@) is None,
        obj_get(old(members)@, "write"@) is None,
        obj_get(old(members)@, "execution"@) is None,
    ensures
        all_keys_allowed(final(members)@),
        same_top_lookups(old(members)@, final(members)@),
        same_op_lookups(old(members)@, final(members)@),
        doc_reads_back(doc@) ==> spec_spill_output(obj_get(final(members)@, "spill"@)) == Some(
            doc@.output,
        ),
        doc_reads_back(doc@) ==> crate::document_wire::spec_opt_field(
            obj_get(final(members)@, "write"@),
            |x| spec_write(x),
        ) == Some(doc@.write),
        doc_reads_back(doc@) ==> crate::document_wire::spec_opt_field(
            obj_get(final(members)@, "execution"@),
            |x| spec_execution(x),
        ) == Some(doc@.execution),
{
    proof {
        lemma_key_ids();
        reveal_strlit("spill");
        reveal_strlit("write");
        reveal_strlit("execution");
        assert(spec_reserved_keys()[3] == "spill"@);
        assert(spec_reserved_keys()[4] == "write"@);
        assert(spec_reserved_keys()[5] == "execution"@);
    }
    let ghost m0 = members@;
    match &doc.output {
        Some(out) => match &out.preferred {
            Some(OutputHint::SpillArray { handle }) => {
                let hv = JsonValue::String(owned(handle.as_str()));
                push_member(members, "spill", hv);
            },
            _ => {},
        },
        None => {},
    }
    let ghost m1 = members@;
    proof {
        assert forall|j: int| 0 <= j < 26 implies #[trigger] obj_get(m1, spec_op_keys()[j])
            == obj_get(m0, spec_op_keys()[j]) by {
            assert(key_id(spec_op_keys()[j]) == j);
        }
    }
    match &doc.write {
        Some(w) => match write_value(w) {
            Some(v) => push_member(members, "write", v),
            None => {},
        },
        None => {},
    }
    let ghost m2 = members@;
    proof {
        assert forall|j: int| 0 <= j < 26 implies #[trigger] obj_get(m2, spec_op_keys()[j])
            == obj_get(m1, spec_op_keys()[j]) by {
            assert(key_id(spec_op_keys()[j]) == j);
        }
    }
    match &doc.execution {
        Some(ex) => match execution_value(ex) {
            Some(v) => push_member(members, "execution", v),
            None => {},
        },
        None => {},
    }
    proof {
        assert forall|j: int| 0 <= j < 26 implies #[trigger] obj_get(members@, spec_op_keys()[j])
            == obj_get(m2, spec_op_keys()[j]) by {
            assert(key_id(spec_op_keys()[j]) == j);
        }
    }
}

/// The document in the flat JSON wire format: `layout_version`, `dataset`, `selection`, the
/// operation key, `spill`, `write` and `execution`, in that order, each only when set (an
/// inline output, a default `write` and empty `execution` hints are left out).
///
/// Fails when an operation's axis list cannot be written (see [`spec_wire_encodable`]). When
/// the document reads back (see [`doc_reads_back`]), parsing the value gives the document.
pub fn query_document_to_wire(doc: &QueryDocument) -> (r: Result<JsonValue, TetError>)
    ensures
        r is Ok <==> spec_wire_encodable(doc@),
        r matches Ok(v) ==> v is Object,
        r matches Ok(v) ==> (doc_reads_back(doc@) ==> spec_parse_query(v) == Some(doc@)),
{
    let mut members = wire_head(doc);
    wire_push_operation(&mut members, doc)?;
    let ghost m1 = members@;
    wire_push_tail(&mut members, doc);
    let v = JsonValue::Object(members);
    proof {
        if doc_reads_back(doc@) {
            lemma_query_op_same(m1, v->Object_0@);
            lemma_parse_assembled(v, doc@);
        }
    }
    Ok(v)
}

} // verus!
