//! Flat JSON query document wire format (v1).
//!
//! Top-level reduction keys (`mean`, `sum`, …) replace a nested `operation`; export spill uses a
//! top-level `"spill": "path"`. Axis specs accept `0`, `[0, 1]`, or `[]` (scalar); parametric ops
//! use `{ "q": …, "axis": … }`.
use vstd::prelude::*;

use crate::float_bits::{
    percent_bits_to_bps, percent_in_range, spec_percent_to_bps, f64_bits_le, F64_ZERO_BITS,
    F64_HUNDRED_BITS,
};
use crate::json::{obj_find, obj_get, obj_lookup, find_key, JsonNumber, JsonValue, NumberRepr};
use crate::text::{
    chars_of, decimal, is_digit, lemma_decimal_is_digits, lemma_decimal_parse_roundtrip, owned,
    parse_usize, push_decimal, push_str, spec_parse_usize, str_eq, u64_to_decimal,
};
use crate::types::{
    strs, AxisSlice, AxisSliceView, ExecutionDeviceHint, ExecutionHints, OpKind, Operation,
    OperationView, OutputHint, OutputHints, OutputHintView, QueryDocView, QueryDocument,
    TetError, TransformMethod, WriteHints, WriteHintsView, WriteTarget, plain_op, opt_str,
};

verus! {

broadcast use vstd::string::group_string_axioms;

/// Maximum length (bytes) of the `dataset` name and of spill / write paths.
pub const MAX_NAME_BYTES: usize = 1024;

/// Maximum length (bytes) of an operation axis label.
pub const MAX_AXIS_LABEL_BYTES: usize = 32;

/// UTF-8 length of a character sequence.
pub open spec fn byte_len(s: Seq<char>) -> usize {
    vstd::utf8::encode_utf8(s).len() as usize
}

/// Byte length of `s` (`str::len`).
pub fn str_byte_len(s: &str) -> (r: usize)
    ensures
        r == byte_len(s@),
{
    s.len()
}

// ---------------------------------------------------------------------------------------------
// Keys

/// The top-level operation keys, in the order they are looked up.
pub open spec fn spec_op_keys() -> Seq<Seq<char>> {
    seq![
        "sum"@, "mean"@, "min"@, "max"@, "count"@, "var"@, "std"@, "product"@, "norm_l1"@,
        "norm_l2"@, "all_finite"@, "any_nan"@, "any_inf"@, "arg_min"@, "arg_max"@, "median"@,
        "quantile"@, "histogram"@, "nan_count"@, "inf_count"@, "null_count"@, "covariance"@,
        "correlation"@, "nan_mean"@, "nan_std"@, "transform"@,
    ]
}

/// The other top-level keys.
pub open spec fn spec_reserved_keys() -> Seq<Seq<char>> {
    seq!["layout_version"@, "dataset"@, "selection"@, "spill"@, "write"@, "execution"@]
}

pub const N_OP_KEYS: usize = 26;

/// Operation key number `i`.
pub fn op_key(i: usize) -> (r: &'static str)
    requires
        i < 26,
    ensures
        r@ == spec_op_keys()[i as int],
{
    match i {
        0 => "sum",
        1 => "mean",
        2 => "min",
        3 => "max",
        4 => "count",
        5 => "var",
        6 => "std",
        7 => "product",
        8 => "norm_l1",
        9 => "norm_l2",
        10 => "all_finite",
        11 => "any_nan",
        12 => "any_inf",
        13 => "arg_min",
        14 => "arg_max",
        15 => "median",
        16 => "quantile",
        17 => "histogram",
        18 => "nan_count",
        19 => "inf_count",
        20 => "null_count",
        21 => "covariance",
        22 => "correlation",
        23 => "nan_mean",
        24 => "nan_std",
        _ => "transform",
    }
}

fn reserved_key(i: usize) -> (r: &'static str)
    requires
        i < 6,
    ensures
        r@ == spec_reserved_keys()[i as int],
{
    match i {
        0 => "layout_version",
        1 => "dataset",
        2 => "selection",
        3 => "spill",
        4 => "write",
        _ => "execution",
    }
}

pub open spec fn spec_is_allowed_key(key: Seq<char>) -> bool {
    spec_reserved_keys().contains(key) || spec_op_keys().contains(key)
}

/// Whether `key` may appear at the top level of a query document.
pub fn is_allowed_key(key: &str) -> (r: bool)
    ensures
        r == spec_is_allowed_key(key@),
{
    let mut i: usize = 0;
    while i < 6
        invariant
            0 <= i <= 6,
            forall|j: int| 0 <= j < i ==> spec_reserved_keys()[j] != key@,
        decreases 6 - i,
    {
        if str_eq(key, reserved_key(i)) {
            assert(spec_reserved_keys()[i as int] == key@);
            return true;
        }
        i += 1;
    }
    let mut k: usize = 0;
    while k < N_OP_KEYS
        invariant
            0 <= k <= 26,
            forall|j: int| 0 <= j < 6 ==> spec_reserved_keys()[j] != key@,
            forall|j: int| 0 <= j < k ==> spec_op_keys()[j] != key@,
        decreases 26 - k,
    {
        if str_eq(key, op_key(k)) {
            assert(spec_op_keys()[k as int] == key@);
            return true;
        }
        k += 1;
    }
    false
}

// ---------------------------------------------------------------------------------------------
// Axis specs

/// Characters allowed in an axis label.
pub open spec fn is_label_char(c: char) -> bool {
    ('a' <= c <= 'z') || ('A' <= c <= 'Z') || ('0' <= c <= '9') || c == '_' || c == '-' || c
        == '.'
}

/// An axis label: non-empty, at most 32 bytes, letters, digits, `_`, `-` and `.` only.
pub open spec fn valid_axis_token(s: Seq<char>) -> bool {
    s.len() > 0 && byte_len(s) <= MAX_AXIS_LABEL_BYTES && forall|i: int|
        0 <= i < s.len() ==> is_label_char(#[trigger] s[i])
}

/// Check that every character of an axis label is a letter, digit, `_`, `-` or `.`.
pub fn validate_axis_label_token(s: &str) -> (r: Result<(), TetError>)
    ensures
        r is Ok <==> forall|i: int| 0 <= i < s@.len() ==> is_label_char(#[trigger] s@[i]),
        r matches Err(e) ==> e.is_validation(),
{
    let chars = chars_of(s);
    let mut i: usize = 0;
    while i < chars.len()
        invariant
            chars@ == s@,
            0 <= i <= chars@.len(),
            forall|k: int| 0 <= k < i ==> is_label_char(#[trigger] chars@[k]),
        decreases chars@.len() - i,
    {
        let c = chars[i];
        if !(('a' <= c && c <= 'z') || ('A' <= c && c <= 'Z') || ('0' <= c && c <= '9') || c
            == '_' || c == '-' || c == '.') {
            return Err(TetError::Validation(String::from_str("axis label holds an invalid character")));
        }
        i += 1;
    }
    Ok(())
}

/// Validate an axis label token, returning an owned copy.
pub fn validate_axis_token(s: &str) -> (r: Result<String, TetError>)
    ensures
        r is Ok <==> valid_axis_token(s@),
        r matches Ok(t) ==> t@ == s@,
        r matches Err(e) ==> e.is_validation(),
        s@.len() == 0 ==> (r matches Err(e) && e->Validation_0@ == "axis index must not be empty"@),
        s@.len() > 0 && byte_len(s@) > MAX_AXIS_LABEL_BYTES ==> (r matches Err(e)
            && e->Validation_0@ == "axis label exceeds maximum length (32)"@),
{
    if s.unicode_len() == 0 {
        return Err(TetError::Validation(String::from_str("axis index must not be empty")));
    }
    if str_byte_len(s) > MAX_AXIS_LABEL_BYTES {
        return Err(TetError::Validation(String::from_str("axis label exceeds maximum length (32)")));
    }
    validate_axis_label_token(s)?;
    Ok(owned(s))
}

/// One entry of an axis list: an index number or a label.
pub open spec fn spec_axis_item(v: JsonValue) -> Option<Seq<char>> {
    match v {
        JsonValue::Number(n) => match n.repr {
            NumberRepr::PosInt(u) => Some(decimal(u as nat)),
            _ => None,
        },
        JsonValue::String(s) => if valid_axis_token(s@) {
            Some(s@)
        } else {
            None
        },
        _ => None,
    }
}

pub open spec fn spec_axis_items(items: Seq<JsonValue>) -> Option<Seq<Seq<char>>>
    decreases items.len(),
{
    if items.len() == 0 {
        Some(Seq::empty())
    } else {
        match (spec_axis_items(items.drop_last()), spec_axis_item(items.last())) {
            (Some(a), Some(x)) => Some(a.push(x)),
            _ => None,
        }
    }
}

/// Axis labels of an axis spec: an index, a label, a list of them, or an object holding an
/// `axis` (else `axes`) member that is itself an axis spec. `null`, booleans, negative or
/// fractional numbers, and objects with neither member are rejected.
pub open spec fn spec_axis_spec(v: JsonValue) -> Option<Seq<Seq<char>>>
    decreases v,
{
    match v {
        JsonValue::Number(n) => match n.repr {
            NumberRepr::PosInt(u) => Some(seq![decimal(u as nat)]),
            _ => None,
        },
        JsonValue::String(s) => if valid_axis_token(s@) {
            Some(seq![s@])
        } else {
            None
        },
        JsonValue::Array(items) => spec_axis_items(items@),
        JsonValue::Object(m) => {
            match find_key(m@, "axis"@) {
                Some(i) => if 0 <= i < m@.len() {
                    proof {
                        assert(decreases_to!(m => m@[i]));
                    }
                    spec_axis_spec(m@[i].1)
                } else {
                    None
                },
                None => match find_key(m@, "axes"@) {
                    Some(i) => if 0 <= i < m@.len() {
                        proof {
                            assert(decreases_to!(m => m@[i]));
                        }
                        spec_axis_spec(m@[i].1)
                    } else {
                        None
                    },
                    None => None,
                },
            }
        },
        _ => None,
    }
}

/// Decimal label of an axis index number.
pub fn parse_axis_index_number(n: &JsonNumber) -> (r: Result<String, TetError>)
    ensures
        r is Ok <==> n.repr is PosInt,
        r matches Ok(s) ==> s@ == decimal(n.repr->PosInt_0 as nat),
        r matches Err(e) ==> e.is_validation(),
{
    match n.repr {
        NumberRepr::PosInt(u) => Ok(u64_to_decimal(u)),
        _ => Err(TetError::Validation(String::from_str("axis index must be a non-negative integer"))),
    }
}

/// One entry of an axis list.
pub fn parse_axis_spec_item(v: &JsonValue) -> (r: Result<String, TetError>)
    ensures
        r is Ok <==> spec_axis_item(*v) is Some,
        r matches Ok(s) ==> s@ == spec_axis_item(*v)->0,
        r matches Err(e) ==> e.is_validation(),
{
    match v {
        JsonValue::Number(n) => parse_axis_index_number(n),
        JsonValue::String(s) => validate_axis_token(s.as_str()),
        _ => Err(TetError::Validation(String::from_str("axis list entries must be numbers or strings"))),
    }
}

/// Axis labels of an axis spec.
pub fn parse_axis_spec(v: &JsonValue) -> (r: Result<Vec<String>, TetError>)
    ensures
        r is Ok <==> spec_axis_spec(*v) is Some,
        r matches Ok(a) ==> strs(a@) == spec_axis_spec(*v)->0,
        r matches Err(e) ==> e.is_validation(),
    decreases *v,
{
    match v {
        JsonValue::Null => Err(TetError::Validation(String::from_str("axis spec must not be null"))),
        JsonValue::Number(n) => {
            let idx = parse_axis_index_number(n)?;
            let mut out: Vec<String> = Vec::new();
            out.push(idx);
            assert(strs(out@) =~= seq![decimal(n.repr->PosInt_0 as nat)]);
            Ok(out)
        },
        JsonValue::String(s) => {
            let t = validate_axis_token(s.as_str())?;
            let mut out: Vec<String> = Vec::new();
            out.push(t);
            assert(strs(out@) =~= seq![s@]);
            Ok(out)
        },
        JsonValue::Array(items) => {
            let mut out: Vec<String> = Vec::new();
            let mut i: usize = 0;
            while i < items.len()
                invariant
                    0 <= i <= items@.len(),
                    spec_axis_spec(*v) == spec_axis_items(items@),
                    spec_axis_items(items@.take(i as int)) == Some(strs(out@)),
                decreases items@.len() - i,
            {
                proof {
                    assert(items@.take(i + 1).drop_last() =~= items@.take(i as int));
                }
                let item = match parse_axis_spec_item(&items[i]) {
                    Ok(x) => x,
                    Err(e) => {
                        proof {
                            lemma_axis_items_prefix_none(items@, i + 1);
                        }
                        return Err(e);
                    },
                };
                let ghost before = out@;
                out.push(item);
                assert(strs(out@) =~= strs(before).push(spec_axis_item(items@[i as int])->0));
                i += 1;
            }
            assert(items@.take(items@.len() as int) =~= items@);
            Ok(out)
        },
        JsonValue::Object(m) => {
            match obj_find(m, "axis") {
                Some(i) => {
                    assert(decreases_to!(m => m@[i as int]));
                    parse_axis_spec(&m[i].1)
                },
                None => match obj_find(m, "axes") {
                    Some(i) => {
                        assert(decreases_to!(m => m@[i as int]));
                        parse_axis_spec(&m[i].1)
                    },
                    None => Err(TetError::Validation(
                        String::from_str("axis object must include `axis` or `axes`"),
                    )),
                },
            }
        },
        JsonValue::Bool(_) => Err(TetError::Validation(
            String::from_str("axis spec must be a number, string, or array"),
        )),
    }
}

/// A failing entry makes every longer list fail.
proof fn lemma_axis_items_prefix_none(items: Seq<JsonValue>, k: int)
    requires
        0 < k <= items.len(),
        spec_axis_item(items[k - 1]) is None,
    ensures
        spec_axis_items(items) is None,
    decreases items.len() - k,
{
    if k < items.len() {
        lemma_axis_items_prefix_none_step(items, k);
    } else {
        assert(items.drop_last().len() == k - 1);
    }
}

proof fn lemma_axis_items_prefix_none_step(items: Seq<JsonValue>, k: int)
    requires
        0 < k <= items.len(),
        spec_axis_item(items[k - 1]) is None,
    ensures
        spec_axis_items(items) is None,
    decreases items.len(),
{
    if items.len() == k {
    } else {
        lemma_axis_items_prefix_none_step(items.drop_last(), k);
    }
}

// ---------------------------------------------------------------------------------------------
// Scalars

/// `` `NAME` WHAT ``: the message for a field that fails a check.
pub fn field_message(name: &str, what: &str) -> (r: String)
    ensures
        r@ == "`"@ + name@ + "` "@ + what@,
{
    let mut msg = owned("`");
    push_str(&mut msg, name);
    push_str(&mut msg, "` ");
    push_str(&mut msg, what);
    msg
}

pub open spec fn spec_u64_field(v: JsonValue) -> Option<u64> {
    match v {
        JsonValue::Number(n) => n.spec_as_u64(),
        _ => None,
    }
}

/// The message for an unsigned integer field `name` that fails its check.
pub open spec fn spec_uint_field_message(name: Seq<char>, v: JsonValue) -> Seq<char> {
    if v is Number {
        "`"@ + name + "` "@ + "must be a non-negative integer"@
    } else {
        "`"@ + name + "` "@ + "must be a number"@
    }
}

/// A non-negative integer field.
pub fn parse_u64_field(name: &str, v: &JsonValue) -> (r: Result<u64, TetError>)
    ensures
        r is Ok <==> spec_u64_field(*v) is Some,
        r matches Ok(u) ==> spec_u64_field(*v) == Some(u),
        r matches Err(e) ==> e.is_validation(),
        r matches Err(TetError::Validation(m)) ==> m@ == spec_uint_field_message(name@, *v),
{
    match v {
        JsonValue::Number(n) => match n.as_u64() {
            Some(u) => Ok(u),
            None => Err(TetError::Validation(field_message(name, "must be a non-negative integer"))),
        },
        _ => Err(TetError::Validation(field_message(name, "must be a number"))),
    }
}

pub open spec fn spec_u32_field(v: JsonValue) -> Option<u32> {
    match spec_u64_field(v) {
        Some(u) => if u <= u32::MAX {
            Some(u as u32)
        } else {
            None
        },
        None => None,
    }
}

/// A non-negative integer field that fits in `u32`.
pub fn parse_u32_field(name: &str, v: &JsonValue) -> (r: Result<u32, TetError>)
    ensures
        r is Ok <==> spec_u32_field(*v) is Some,
        r matches Ok(u) ==> spec_u32_field(*v) == Some(u),
        r matches Err(e) ==> e.is_validation(),
        r matches Err(TetError::Validation(m)) ==> m@ == spec_uint_field_message(name@, *v),
{
    let u = parse_u64_field(name, v)?;
    if u > u32::MAX as u64 {
        return Err(TetError::Validation(field_message(name, "must be a non-negative integer")));
    }
    Ok(u as u32)
}

pub open spec fn spec_percent_bps_field(v: JsonValue) -> Option<u16> {
    match spec_u64_field(v) {
        Some(u) => if u <= 10000 {
            Some(u as u16)
        } else {
            None
        },
        None => None,
    }
}

/// Basis points in `[0, 10000]`.
pub fn parse_percent_bps_field(name: &str, v: &JsonValue) -> (r: Result<u16, TetError>)
    ensures
        r is Ok <==> spec_percent_bps_field(*v) is Some,
        r matches Ok(u) ==> spec_percent_bps_field(*v) == Some(u),
        r matches Err(e) ==> e.is_validation(),
{
    let bps = parse_u64_field(name, v)?;
    if bps > u16::MAX as u64 {
        return Err(TetError::Validation(field_message(name, "exceeds u16")));
    }
    if bps > 10000 {
        return Err(TetError::Validation(field_message(name, "must be <= 10000 (100%)")));
    }
    Ok(bps as u16)
}

pub open spec fn spec_percent_field(v: JsonValue) -> Option<u64> {
    match v {
        JsonValue::Number(n) => if percent_in_range(n.f64_bits) {
            Some(n.f64_bits)
        } else {
            None
        },
        _ => None,
    }
}

/// A percent in `[0, 100]`, as an `f64` bit pattern.
pub fn parse_percent_field(name: &str, v: &JsonValue) -> (r: Result<u64, TetError>)
    ensures
        r is Ok <==> spec_percent_field(*v) is Some,
        r matches Ok(b) ==> spec_percent_field(*v) == Some(b),
        r matches Err(e) ==> e.is_validation(),
{
    let pct = match v {
        JsonValue::Number(n) => n.as_f64_bits(),
        _ => return Err(TetError::Validation(field_message(name, "must be a number"))),
    };
    if !(f64_bits_le(F64_ZERO_BITS, pct) && f64_bits_le(pct, F64_HUNDRED_BITS)) {
        return Err(TetError::Validation(field_message(name, "must be in [0, 100]")));
    }
    Ok(pct)
}

pub open spec fn spec_percent_to_bps_checked(b: u64) -> Option<u16> {
    if spec_percent_to_bps(b) <= 10000 {
        Some(spec_percent_to_bps(b) as u16)
    } else {
        None
    }
}

/// Basis points of a percent (`(percent * 100.0).round()`), at most `10000`.
pub fn percent_to_bps(percent: u64) -> (r: Result<u16, TetError>)
    requires
        percent_in_range(percent),
    ensures
        r is Ok <==> spec_percent_to_bps_checked(percent) is Some,
        r matches Ok(u) ==> spec_percent_to_bps_checked(percent) == Some(u),
        r matches Err(e) ==> e.is_validation(),
{
    let bps = percent_bits_to_bps(percent);
    if bps > 10000 {
        return Err(TetError::Validation(String::from_str("memory_budget_percent must be <= 100")));
    }
    Ok(bps as u16)
}

// ---------------------------------------------------------------------------------------------
// Tokens

impl WriteTarget {
    pub open spec fn spec_as_wire_str(self) -> Seq<char> {
        match self {
            WriteTarget::Switch => "switch"@,
            WriteTarget::Spill => "spill"@,
            WriteTarget::Sidecar => "sidecar"@,
            WriteTarget::Ram => "ram"@,
        }
    }

    /// Wire token of the target.
    pub fn as_wire_str(self) -> (r: &'static str)
        ensures
            r@ == self.spec_as_wire_str(),
    {
        match self {
            WriteTarget::Switch => "switch",
            WriteTarget::Spill => "spill",
            WriteTarget::Sidecar => "sidecar",
            WriteTarget::Ram => "ram",
        }
    }
}

pub open spec fn spec_write_target(s: Seq<char>) -> Option<WriteTarget> {
    if s == "switch"@ {
        Some(WriteTarget::Switch)
    } else if s == "spill"@ {
        Some(WriteTarget::Spill)
    } else if s == "sidecar"@ {
        Some(WriteTarget::Sidecar)
    } else if s == "ram"@ {
        Some(WriteTarget::Ram)
    } else {
        None
    }
}

/// `switch`, `spill`, `sidecar` or `ram`.
pub fn parse_write_target_token(s: &str) -> (r: Result<WriteTarget, TetError>)
    ensures
        r is Ok <==> spec_write_target(s@) is Some,
        r matches Ok(t) ==> spec_write_target(s@) == Some(t),
        r matches Err(e) ==> e.is_validation(),
{
    if str_eq(s, "switch") {
        Ok(WriteTarget::Switch)
    } else if str_eq(s, "spill") {
        Ok(WriteTarget::Spill)
    } else if str_eq(s, "sidecar") {
        Ok(WriteTarget::Sidecar)
    } else if str_eq(s, "ram") {
        Ok(WriteTarget::Ram)
    } else {
        let mut msg = owned("unknown write target `");
        push_str(&mut msg, s);
        push_str(&mut msg, "` (expected switch, spill, sidecar, or ram)");
        Err(TetError::Validation(msg))
    }
}

impl TransformMethod {
    pub open spec fn spec_as_str(self) -> Seq<char> {
        match self {
            TransformMethod::Zscore => "zscore"@,
            TransformMethod::MinMaxNormalize => "min_max_normalize"@,
        }
    }

    pub open spec fn spec_parse(s: Seq<char>) -> Option<TransformMethod> {
        if s == "zscore"@ {
            Some(TransformMethod::Zscore)
        } else if s == "min_max_normalize"@ {
            Some(TransformMethod::MinMaxNormalize)
        } else {
            None
        }
    }

    /// Wire token of the method.
    pub fn as_str(self) -> (r: &'static str)
        ensures
            r@ == self.spec_as_str(),
    {
        match self {
            TransformMethod::Zscore => "zscore",
            TransformMethod::MinMaxNormalize => "min_max_normalize",
        }
    }

    /// `zscore` or `min_max_normalize`.
    pub fn parse(s: &str) -> (r: Result<TransformMethod, TetError>)
        ensures
            r is Ok <==> Self::spec_parse(s@) is Some,
            r matches Ok(m) ==> Self::spec_parse(s@) == Some(m),
            r matches Err(e) ==> e.is_validation(),
    {
        if str_eq(s, "zscore") {
            Ok(TransformMethod::Zscore)
        } else if str_eq(s, "min_max_normalize") {
            Ok(TransformMethod::MinMaxNormalize)
        } else {
            Err(TetError::Validation(String::from_str("unknown transform method")))
        }
    }
}

// ---------------------------------------------------------------------------------------------
// Device tokens

/// Wire token of a device hint (`cuda:N` / `rocm:N` for indexed GPUs).
pub open spec fn spec_device_token(h: ExecutionDeviceHint) -> Seq<char> {
    match h {
        ExecutionDeviceHint::Auto => "auto"@,
        ExecutionDeviceHint::Cpu => "cpu"@,
        ExecutionDeviceHint::Metal => "metal"@,
        ExecutionDeviceHint::Cuda(n) => "cuda:"@ + decimal(n as nat),
        ExecutionDeviceHint::CudaMulti => "cuda:multi"@,
        ExecutionDeviceHint::Rocm(n) => "rocm:"@ + decimal(n as nat),
        ExecutionDeviceHint::RocmMulti => "rocm:multi"@,
    }
}

/// Device named by an indexed token tail: `multi`, or a device number.
pub open spec fn spec_gpu_tail(rest: Seq<char>, multi: ExecutionDeviceHint, rocm: bool) -> Option<
    ExecutionDeviceHint,
> {
    if rest == "multi"@ {
        Some(multi)
    } else {
        match spec_parse_usize(rest) {
            Some(n) => if rocm {
                Some(ExecutionDeviceHint::Rocm(n))
            } else {
                Some(ExecutionDeviceHint::Cuda(n))
            },
            None => None,
        }
    }
}

/// Device hint of a token: `auto`, `cpu`, `metal`, `cuda` (device 0), `cuda:N`, `cuda:multi`,
/// `rocm` (device 0), `rocm:N`, `rocm:multi`.
pub open spec fn spec_parse_device(s: Seq<char>) -> Option<ExecutionDeviceHint> {
    if s == "auto"@ {
        Some(ExecutionDeviceHint::Auto)
    } else if s == "cpu"@ {
        Some(ExecutionDeviceHint::Cpu)
    } else if s == "metal"@ {
        Some(ExecutionDeviceHint::Metal)
    } else if s == "cuda"@ {
        Some(ExecutionDeviceHint::Cuda(0))
    } else if s == "rocm"@ {
        Some(ExecutionDeviceHint::Rocm(0))
    } else if s.len() > 5 && s.subrange(0, 5) == "cuda:"@ {
        spec_gpu_tail(s.subrange(5, s.len() as int), ExecutionDeviceHint::CudaMulti, false)
    } else if s.len() > 5 && s.subrange(0, 5) == "rocm:"@ {
        spec_gpu_tail(s.subrange(5, s.len() as int), ExecutionDeviceHint::RocmMulti, true)
    } else {
        None
    }
}

impl ExecutionDeviceHint {
    /// Parse an `execution.device` token.
    pub fn parse(s: &str) -> (r: Result<ExecutionDeviceHint, TetError>)
        ensures
            r is Ok <==> spec_parse_device(s@) is Some,
            r matches Ok(h) ==> spec_parse_device(s@) == Some(h),
            r matches Err(e) ==> e.is_validation(),
    {
        if str_eq(s, "auto") {
            return Ok(ExecutionDeviceHint::Auto);
        }
        if str_eq(s, "cpu") {
            return Ok(ExecutionDeviceHint::Cpu);
        }
        if str_eq(s, "metal") {
            return Ok(ExecutionDeviceHint::Metal);
        }
        if str_eq(s, "cuda") {
            return Ok(ExecutionDeviceHint::Cuda(0));
        }
        if str_eq(s, "rocm") {
            return Ok(ExecutionDeviceHint::Rocm(0));
        }
        let n = s.unicode_len();
        if n > 5 {
            let head = s.substring_char(0, 5);
            let rest = s.substring_char(5, n);
            let is_cuda = str_eq(head, "cuda:");
            let is_rocm = str_eq(head, "rocm:");
            if is_cuda || is_rocm {
                if str_eq(rest, "multi") {
                    return Ok(
                        if is_cuda {
                            ExecutionDeviceHint::CudaMulti
                        } else {
                            ExecutionDeviceHint::RocmMulti
                        },
                    );
                }
                match parse_usize(rest) {
                    Some(idx) => {
                        return Ok(
                            if is_cuda {
                                ExecutionDeviceHint::Cuda(idx)
                            } else {
                                ExecutionDeviceHint::Rocm(idx)
                            },
                        );
                    },
                    None => {},
                }
            }
        }
        Err(TetError::Validation(String::from_str(
            "unknown execution.device (expected auto, cpu, metal, cuda[:N|:multi], rocm[:N|:multi])",
        )))
    }

    /// Wire token of the hint.
    pub fn to_token(self) -> (r: String)
        ensures
            r@ == spec_device_token(self),
    {
        match self {
            ExecutionDeviceHint::Auto => owned("auto"),
            ExecutionDeviceHint::Cpu => owned("cpu"),
            ExecutionDeviceHint::Metal => owned("metal"),
            ExecutionDeviceHint::Cuda(n) => {
                let mut out = owned("cuda:");
                let digits = u64_to_decimal(n as u64);
                push_str(&mut out, digits.as_str());
                out
            },
            ExecutionDeviceHint::CudaMulti => owned("cuda:multi"),
            ExecutionDeviceHint::Rocm(n) => {
                let mut out = owned("rocm:");
                let digits = u64_to_decimal(n as u64);
                push_str(&mut out, digits.as_str());
                out
            },
            ExecutionDeviceHint::RocmMulti => owned("rocm:multi"),
        }
    }
}

/// Every device hint survives a trip through its wire token.
pub proof fn lemma_device_token_roundtrip(h: ExecutionDeviceHint)
    ensures
        spec_parse_device(spec_device_token(h)) == Some(h),
{
    reveal_strlit("auto");
    reveal_strlit("cpu");
    reveal_strlit("metal");
    reveal_strlit("cuda");
    reveal_strlit("rocm");
    reveal_strlit("cuda:");
    reveal_strlit("rocm:");
    reveal_strlit("multi");
    reveal_strlit("cuda:multi");
    reveal_strlit("rocm:multi");
    match h {
        ExecutionDeviceHint::Cuda(n) => {
            let t = "cuda:"@ + decimal(n as nat);
            lemma_decimal_parse_roundtrip(n);
            lemma_decimal_is_digits(n as nat);
            assert(t.subrange(0, 5) =~= "cuda:"@);
            assert(t.subrange(5, t.len() as int) =~= decimal(n as nat));
            assert(decimal(n as nat) != "multi"@) by {
                assert(is_digit(decimal(n as nat)[0]));
            }
            assert(t != "cuda"@ && t != "rocm"@ && t != "auto"@ && t != "cpu"@ && t != "metal"@) by {
                assert(t[4] == ':');
            }
        },
        ExecutionDeviceHint::Rocm(n) => {
            let t = "rocm:"@ + decimal(n as nat);
            lemma_decimal_parse_roundtrip(n);
            lemma_decimal_is_digits(n as nat);
            assert(t.subrange(0, 5) =~= "rocm:"@);
            assert(t.subrange(5, t.len() as int) =~= decimal(n as nat));
            assert(decimal(n as nat) != "multi"@) by {
                assert(is_digit(decimal(n as nat)[0]));
            }
            assert(t != "cuda"@ && t != "rocm"@ && t != "auto"@ && t != "cpu"@ && t != "metal"@) by {
                assert(t[4] == ':');
            }
            assert(t.subrange(0, 5) != "cuda:"@) by {
                assert(t.subrange(0, 5)[0] == 'r');
            }
        },
        ExecutionDeviceHint::CudaMulti => {
            let t = "cuda:multi"@;
            assert(t.subrange(0, 5) =~= "cuda:"@);
            assert(t.subrange(5, t.len() as int) =~= "multi"@);
        },
        ExecutionDeviceHint::RocmMulti => {
            let t = "rocm:multi"@;
            assert(t.subrange(0, 5) =~= "rocm:"@);
            assert(t.subrange(5, t.len() as int) =~= "multi"@);
            assert(t.subrange(0, 5) != "cuda:"@) by {
                assert(t.subrange(0, 5)[0] == 'r');
            }
        },
        _ => {},
    }
}

// ---------------------------------------------------------------------------------------------
// Spill and write

/// A path string: non-empty and at most [`MAX_NAME_BYTES`] bytes.
pub open spec fn spec_path_value(v: JsonValue) -> Option<Seq<char>> {
    match v {
        JsonValue::String(s) => if s@.len() > 0 && byte_len(s@) <= MAX_NAME_BYTES {
            Some(s@)
        } else {
            None
        },
        _ => None,
    }
}

/// Message for a path value that fails its check: `label` names the field, `not_string` is the
/// message for a value that is not a string.
pub open spec fn spec_path_message(label: Seq<char>, not_string: Seq<char>, v: JsonValue) -> Seq<
    char,
> {
    match v {
        JsonValue::String(s) => if s@.len() == 0 {
            label + " must not be empty"@
        } else {
            label + " exceeds maximum length ("@ + decimal(byte_len(s@) as nat) + " > 1024)"@
        },
        _ => not_string,
    }
}

/// Message for a top-level `spill` value that is not a valid path.
pub open spec fn spec_spill_message(v: JsonValue) -> Seq<char> {
    spec_path_message(
        "`spill` path"@,
        "`spill` must be a string path (relative to the `.tet` parent or absolute)"@,
        v,
    )
}

fn parse_path_value(v: &JsonValue, label: &str, not_string: &str) -> (r: Result<String, TetError>)
    ensures
        r is Ok <==> spec_path_value(*v) is Some,
        r matches Ok(p) ==> spec_path_value(*v) == Some(p@),
        r matches Err(e) ==> e.is_validation(),
        r matches Err(TetError::Validation(m)) ==> m@ == spec_path_message(label@, not_string@, *v),
{
    match v {
        JsonValue::String(s) => {
            if s.as_str().unicode_len() == 0 {
                let mut msg = owned(label);
                push_str(&mut msg, " must not be empty");
                return Err(TetError::Validation(msg));
            }
            let len = str_byte_len(s.as_str());
            if len > MAX_NAME_BYTES {
                let mut msg = owned(label);
                push_str(&mut msg, " exceeds maximum length (");
                push_decimal(&mut msg, len as u64);
                push_str(&mut msg, " > 1024)");
                return Err(TetError::Validation(msg));
            }
            Ok(owned(s.as_str()))
        },
        _ => Err(TetError::Validation(owned(not_string))),
    }
}

/// Top-level `spill`: a path string.
pub fn parse_spill(v: &JsonValue) -> (r: Result<OutputHints, TetError>)
    ensures
        r is Ok <==> spec_path_value(*v) is Some,
        r matches Ok(o) ==> o@ == Some(OutputHintView::SpillArray(spec_path_value(*v)->0)),
        r matches Err(e) ==> e.is_validation(),
        r matches Err(TetError::Validation(m)) ==> m@ == spec_spill_message(*v),
{
    let handle = parse_path_value(
        v,
        "`spill` path",
        "`spill` must be a string path (relative to the `.tet` parent or absolute)",
    )?;
    Ok(OutputHints { preferred: Some(OutputHint::SpillArray { handle }) })
}

/// `write.path`: a path string.
pub fn parse_write_path(v: &JsonValue) -> (r: Result<String, TetError>)
    ensures
        r is Ok <==> spec_path_value(*v) is Some,
        r matches Ok(p) ==> spec_path_value(*v) == Some(p@),
        r matches Err(e) ==> e.is_validation(),
{
    parse_path_value(v, "`write.path`", "`write.path` must be a string")
}

pub open spec fn spec_write_target_value(v: JsonValue) -> Option<WriteTarget> {
    match v {
        JsonValue::String(s) => spec_write_target(s@),
        _ => None,
    }
}

/// `write.target`: a target token string.
pub fn parse_write_target_value(v: &JsonValue) -> (r: Result<WriteTarget, TetError>)
    ensures
        r is Ok <==> spec_write_target_value(*v) is Some,
        r matches Ok(t) ==> spec_write_target_value(*v) == Some(t),
        r matches Err(e) ==> e.is_validation(),
{
    match v {
        JsonValue::String(s) => parse_write_target_token(s.as_str()),
        _ => Err(TetError::Validation(String::from_str("`write.target` must be a string"))),
    }
}

/// Every member of an object is named by `allowed`.
pub open spec fn keys_within(m: Seq<(String, JsonValue)>, allowed: Seq<Seq<char>>) -> bool {
    forall|i: int| 0 <= i < m.len() ==> allowed.contains(#[trigger] m[i].0@)
}

pub open spec fn spec_write_keys() -> Seq<Seq<char>> {
    seq!["target"@, "path"@]
}

/// Position of the first member whose key `allowed` does not name.
fn first_key_outside(m: &Vec<(String, JsonValue)>, allowed: &[&str]) -> (r: Option<usize>)
    ensures
        r is None <==> keys_within(m@, allowed@.map_values(|a: &str| a@)),
        r matches Some(i) ==> i < m@.len() && !allowed@.map_values(|a: &str| a@).contains(
            m@[i as int].0@,
        ),
{
    let ghost names = allowed@.map_values(|a: &str| a@);
    let mut i: usize = 0;
    while i < m.len()
        invariant
            0 <= i <= m@.len(),
            names == allowed@.map_values(|a: &str| a@),
            forall|k: int| 0 <= k < i ==> names.contains(#[trigger] m@[k].0@),
        decreases m@.len() - i,
    {
        let mut j: usize = 0;
        let mut found = false;
        while j < allowed.len()
            invariant
                0 <= j <= allowed@.len(),
                i < m@.len(),
                names == allowed@.map_values(|a: &str| a@),
                found <==> exists|t: int| 0 <= t < j && names[t] == m@[i as int].0@,
            decreases allowed@.len() - j,
        {
            assert(names[j as int] == allowed@[j as int]@);
            if str_eq(m[i].0.as_str(), allowed[j]) {
                found = true;
            }
            j += 1;
        }
        if !found {
            proof {
                assert forall|t: int| 0 <= t < names.len() implies names[t] != m@[i as int].0@ by {}
                assert(!names.contains(m@[i as int].0@));
            }
            return Some(i);
        }
        proof {
            let t = choose|t: int| 0 <= t < j && names[t] == m@[i as int].0@;
            assert(names.contains(m@[i as int].0@));
        }
        i += 1;
    }
    None
}

/// `write`: a target token, or an object with optional `target` (default `switch`) and `path`.
pub open spec fn spec_write(v: JsonValue) -> Option<WriteHintsView> {
    match v {
        JsonValue::String(s) => match spec_write_target(s@) {
            Some(t) => Some(WriteHintsView { target: t, path: None }),
            None => None,
        },
        JsonValue::Object(m) => {
            if !keys_within(m@, spec_write_keys()) {
                None
            } else {
                let target = match obj_get(m@, "target"@) {
                    None => Some(WriteTarget::Switch),
                    Some(t) => spec_write_target_value(t),
                };
                let path = match obj_get(m@, "path"@) {
                    None => Some(None),
                    Some(p) => match spec_path_value(p) {
                        Some(x) => Some(Some(x)),
                        None => None,
                    },
                };
                match (target, path) {
                    (Some(t), Some(p)) => Some(WriteHintsView { target: t, path: p }),
                    _ => None,
                }
            }
        },
        _ => None,
    }
}

/// Top-level `write`.
pub fn parse_write(v: &JsonValue) -> (r: Result<WriteHints, TetError>)
    ensures
        r is Ok <==> spec_write(*v) is Some,
        r matches Ok(w) ==> spec_write(*v) == Some(w@),
        r matches Err(e) ==> e.is_validation(),
{
    match v {
        JsonValue::String(s) => {
            let target = parse_write_target_token(s.as_str())?;
            Ok(WriteHints { target, path: None })
        },
        JsonValue::Object(m) => {
            let allowed: [&str; 2] = ["target", "path"];
            proof {
                assert(allowed@.map_values(|a: &str| a@) =~= spec_write_keys());
            }
            match first_key_outside(m, &allowed) {
                Some(i) => {
                    return Err(TetError::Validation(unknown_field_message("write.", m[i].0.as_str())));
                },
                None => {},
            }
            let target = match obj_lookup(m, "target") {
                None => WriteTarget::Switch,
                Some(t) => parse_write_target_value(t)?,
            };
            let path = match obj_lookup(m, "path") {
                None => None,
                Some(p) => Some(parse_write_path(p)?),
            };
            Ok(WriteHints { target, path })
        },
        _ => Err(TetError::Validation(String::from_str(
            "`write` must be a target string (`switch`, `spill`, `sidecar`, `ram`) or an object with `target` / `path`",
        ))),
    }
}

// ---------------------------------------------------------------------------------------------
// Selection

pub open spec fn spec_slice_keys() -> Seq<Seq<char>> {
    seq!["start"@, "stop"@, "step"@, "start_label"@, "stop_label"@]
}

/// An optional index member: absent or `null` is `None`, a non-negative integer is its value,
/// anything else is malformed.
pub open spec fn spec_opt_index(m: Seq<(String, JsonValue)>, key: Seq<char>) -> Option<Option<u64>> {
    match obj_get(m, key) {
        None => Some(None),
        Some(JsonValue::Null) => Some(None),
        Some(JsonValue::Number(n)) => match n.repr {
            NumberRepr::PosInt(u) => Some(Some(u)),
            _ => None,
        },
        _ => None,
    }
}

/// An optional label member: absent or `null` is `None`, a string is its text.
pub open spec fn spec_opt_label(m: Seq<(String, JsonValue)>, key: Seq<char>) -> Option<
    Option<Seq<char>>,
> {
    match obj_get(m, key) {
        None => Some(None),
        Some(JsonValue::Null) => Some(None),
        Some(JsonValue::String(s)) => Some(Some(s@)),
        _ => None,
    }
}

/// One selection axis: an object with optional `start`, `stop`, `step`, `start_label`,
/// `stop_label` and no other member.
pub open spec fn spec_axis_slice(v: JsonValue) -> Option<AxisSliceView> {
    match v {
        JsonValue::Object(m) => {
            if !keys_within(m@, spec_slice_keys()) {
                None
            } else {
                match (
                    spec_opt_index(m@, "start"@),
                    spec_opt_index(m@, "stop"@),
                    spec_opt_index(m@, "step"@),
                    spec_opt_label(m@, "start_label"@),
                    spec_opt_label(m@, "stop_label"@),
                ) {
                    (Some(a), Some(b), Some(c), Some(d), Some(e)) => Some(
                        AxisSliceView { start: a, stop: b, step: c, start_label: d, stop_label: e },
                    ),
                    _ => None,
                }
            }
        },
        _ => None,
    }
}

pub open spec fn spec_axis_slices(items: Seq<JsonValue>) -> Option<Seq<AxisSliceView>>
    decreases items.len(),
{
    if items.len() == 0 {
        Some(Seq::empty())
    } else {
        match (spec_axis_slices(items.drop_last()), spec_axis_slice(items.last())) {
            (Some(a), Some(x)) => Some(a.push(x)),
            _ => None,
        }
    }
}

/// `selection`: an array of axis slices.
pub open spec fn spec_selection(v: JsonValue) -> Option<Seq<AxisSliceView>> {
    match v {
        JsonValue::Array(items) => spec_axis_slices(items@),
        _ => None,
    }
}

fn parse_opt_index(m: &Vec<(String, JsonValue)>, key: &str) -> (r: Result<Option<u64>, TetError>)
    ensures
        r is Ok <==> spec_opt_index(m@, key@) is Some,
        r matches Ok(x) ==> spec_opt_index(m@, key@) == Some(x),
        r matches Err(e) ==> e is InvalidJson,
{
    match obj_lookup(m, key) {
        None => Ok(None),
        Some(JsonValue::Null) => Ok(None),
        Some(JsonValue::Number(n)) => match n.repr {
            NumberRepr::PosInt(u) => Ok(Some(u)),
            _ => Err(TetError::InvalidJson(String::from_str("expected a non-negative integer"))),
        },
        Some(_) => Err(TetError::InvalidJson(String::from_str("expected u64"))),
    }
}

fn parse_opt_label(m: &Vec<(String, JsonValue)>, key: &str) -> (r: Result<Option<String>, TetError>)
    ensures
        r is Ok <==> spec_opt_label(m@, key@) is Some,
        r matches Ok(x) ==> spec_opt_label(m@, key@) == Some(opt_str(x)),
        r matches Err(e) ==> e is InvalidJson,
{
    match obj_lookup(m, key) {
        None => Ok(None),
        Some(JsonValue::Null) => Ok(None),
        Some(JsonValue::String(s)) => Ok(Some(owned(s.as_str()))),
        Some(_) => Err(TetError::InvalidJson(String::from_str("expected a string"))),
    }
}

/// One selection axis object.
pub fn parse_axis_slice(v: &JsonValue) -> (r: Result<AxisSlice, TetError>)
    ensures
        r is Ok <==> spec_axis_slice(*v) is Some,
        r matches Ok(a) ==> spec_axis_slice(*v) == Some(a@),
        r matches Err(e) ==> e is InvalidJson,
{
    match v {
        JsonValue::Object(m) => {
            let allowed: [&str; 5] = ["start", "stop", "step", "start_label", "stop_label"];
            proof {
                assert(allowed@.map_values(|a: &str| a@) =~= spec_slice_keys());
            }
            match first_key_outside(m, &allowed) {
                Some(i) => {
                    return Err(TetError::InvalidJson(unknown_field_message("", m[i].0.as_str())));
                },
                None => {},
            }
            let start = parse_opt_index(m, "start")?;
            let stop = parse_opt_index(m, "stop")?;
            let step = parse_opt_index(m, "step")?;
            let start_label = parse_opt_label(m, "start_label")?;
            let stop_label = parse_opt_label(m, "stop_label")?;
            Ok(AxisSlice { start, stop, step, start_label, stop_label })
        },
        _ => Err(TetError::InvalidJson(String::from_str("selection axis must be an object"))),
    }
}

/// Top-level `selection`: an array of axis slice objects.
pub fn parse_selection(v: &JsonValue) -> (r: Result<Vec<AxisSlice>, TetError>)
    ensures
        r is Ok <==> spec_selection(*v) is Some,
        r matches Ok(s) ==> spec_selection(*v) == Some(s@.map_values(|a: AxisSlice| a@)),
        r matches Err(e) ==> e is InvalidJson,
{
    match v {
        JsonValue::Array(items) => {
            let mut out: Vec<AxisSlice> = Vec::new();
            let mut i: usize = 0;
            while i < items.len()
                invariant
                    0 <= i <= items@.len(),
                    spec_selection(*v) == spec_axis_slices(items@),
                    spec_axis_slices(items@.take(i as int)) == Some(
                        out@.map_values(|a: AxisSlice| a@),
                    ),
                decreases items@.len() - i,
            {
                proof {
                    assert(items@.take(i + 1).drop_last() =~= items@.take(i as int));
                }
                let sl = match parse_axis_slice(&items[i]) {
                    Ok(x) => x,
                    Err(e) => {
                        proof {
                            lemma_axis_slices_prefix_none(items@, i + 1);
                        }
                        return Err(e);
                    },
                };
                let ghost before = out@;
                out.push(sl);
                assert(out@.map_values(|a: AxisSlice| a@) =~= before.map_values(
                    |a: AxisSlice| a@,
                ).push(spec_axis_slice(items@[i as int])->0));
                i += 1;
            }
            assert(items@.take(items@.len() as int) =~= items@);
            Ok(out)
        },
        _ => Err(TetError::InvalidJson(String::from_str("selection must be an array"))),
    }
}

proof fn lemma_axis_slices_prefix_none(items: Seq<JsonValue>, k: int)
    requires
        0 < k <= items.len(),
        spec_axis_slice(items[k - 1]) is None,
    ensures
        spec_axis_slices(items) is None,
    decreases items.len(),
{
    if items.len() == k {
    } else {
        lemma_axis_slices_prefix_none(items.drop_last(), k);
    }
}

// ---------------------------------------------------------------------------------------------
// Execution

pub open spec fn spec_execution_keys() -> Seq<Seq<char>> {
    seq![
        "memory_budget_bytes"@,
        "memory_budget_percent"@,
        "memory_budget_percent_bps"@,
        "fold_parallel"@,
        "device"@,
    ]
}

pub open spec fn spec_opt_field<T>(o: Option<JsonValue>, f: spec_fn(JsonValue) -> Option<T>) -> Option<
    Option<T>,
> {
    match o {
        None => Some(None),
        Some(v) => match f(v) {
            Some(x) => Some(Some(x)),
            None => None,
        },
    }
}

pub open spec fn spec_bool_value(v: JsonValue) -> Option<bool> {
    match v {
        JsonValue::Bool(b) => Some(b),
        _ => None,
    }
}

pub open spec fn spec_device_value(v: JsonValue) -> Option<ExecutionDeviceHint> {
    match v {
        JsonValue::String(s) => spec_parse_device(s@),
        _ => None,
    }
}

/// Basis points from `memory_budget_percent_bps` or `memory_budget_percent` (never both).
pub open spec fn spec_budget_bps(m: Seq<(String, JsonValue)>) -> Option<Option<u16>> {
    let bps = spec_opt_field(obj_get(m, "memory_budget_percent_bps"@), |v| spec_percent_bps_field(v));
    match bps {
        None => None,
        Some(b) => match obj_get(m, "memory_budget_percent"@) {
            None => Some(b),
            Some(p) => if b is Some {
                None
            } else {
                match spec_percent_field(p) {
                    Some(pct) => match spec_percent_to_bps_checked(pct) {
                        Some(x) => Some(Some(x)),
                        None => None,
                    },
                    None => None,
                }
            },
        },
    }
}

/// `execution`: an object with optional `memory_budget_bytes`, `memory_budget_percent`
/// (a percent in `[0, 100]`), `memory_budget_percent_bps` (at most 10000), `fold_parallel` and
/// `device`; no other member.
pub open spec fn spec_execution(v: JsonValue) -> Option<ExecutionHints> {
    match v {
        JsonValue::Object(m) => {
            if !keys_within(m@, spec_execution_keys()) {
                None
            } else {
                match (
                    spec_opt_field(obj_get(m@, "memory_budget_bytes"@), |v| spec_u64_field(v)),
                    spec_budget_bps(m@),
                    spec_opt_field(obj_get(m@, "fold_parallel"@), |v| spec_bool_value(v)),
                    spec_opt_field(obj_get(m@, "device"@), |v| spec_device_value(v)),
                ) {
                    (Some(a), Some(b), Some(c), Some(d)) => Some(
                        ExecutionHints {
                            memory_budget_bytes: a,
                            memory_budget_percent_bps: b,
                            fold_parallel: c,
                            device: d,
                        },
                    ),
                    _ => None,
                }
            }
        },
        _ => None,
    }
}

/// Top-level `execution`.
pub fn parse_execution(v: &JsonValue) -> (r: Result<ExecutionHints, TetError>)
    ensures
        r is Ok <==> spec_execution(*v) is Some,
        r matches Ok(h) ==> spec_execution(*v) == Some(h),
        r matches Err(e) ==> e.is_validation(),
{
    let m = match v {
        JsonValue::Object(m) => m,
        _ => return Err(TetError::Validation(String::from_str("`execution` must be a JSON object"))),
    };
    let allowed: [&str; 5] = [
        "memory_budget_bytes",
        "memory_budget_percent",
        "memory_budget_percent_bps",
        "fold_parallel",
        "device",
    ];
    proof {
        assert(allowed@.map_values(|a: &str| a@) =~= spec_execution_keys());
    }
    match first_key_outside(m, &allowed) {
        Some(i) => {
            return Err(TetError::Validation(unknown_field_message("execution.", m[i].0.as_str())));
        },
        None => {},
    }
    let memory_budget_bytes = match obj_lookup(m, "memory_budget_bytes") {
        None => None,
        Some(x) => Some(parse_u64_field("execution.memory_budget_bytes", x)?),
    };
    let mut memory_budget_percent_bps: Option<u16> = None;
    match obj_lookup(m, "memory_budget_percent_bps") {
        Some(x) => {
            memory_budget_percent_bps = Some(
                parse_percent_bps_field("execution.memory_budget_percent_bps", x)?,
            );
        },
        None => {},
    }
    match obj_lookup(m, "memory_budget_percent") {
        Some(x) => {
            if memory_budget_percent_bps.is_some() {
                return Err(TetError::Validation(String::from_str(
                    "use either `execution.memory_budget_percent` or `execution.memory_budget_percent_bps`, not both",
                )));
            }
            let pct = parse_percent_field("execution.memory_budget_percent", x)?;
            memory_budget_percent_bps = Some(percent_to_bps(pct)?);
        },
        None => {},
    }
    let fold_parallel = match obj_lookup(m, "fold_parallel") {
        None => None,
        Some(JsonValue::Bool(b)) => Some(*b),
        Some(_) => {
            return Err(TetError::Validation(String::from_str("`execution.fold_parallel` must be a boolean")));
        },
    };
    let device = match obj_lookup(m, "device") {
        None => None,
        Some(JsonValue::String(s)) => Some(ExecutionDeviceHint::parse(s.as_str())?),
        Some(_) => {
            return Err(TetError::Validation(String::from_str("`execution.device` must be a string")));
        },
    };
    Ok(ExecutionHints { memory_budget_bytes, memory_budget_percent_bps, fold_parallel, device })
}

// ---------------------------------------------------------------------------------------------
// Operations

/// Operation kind named by a top-level operation key.
pub open spec fn spec_kind_of_name(s: Seq<char>) -> Option<OpKind> {
    if s == "sum"@ {
        Some(OpKind::Sum)
    } else if s == "mean"@ {
        Some(OpKind::Mean)
    } else if s == "min"@ {
        Some(OpKind::Min)
    } else if s == "max"@ {
        Some(OpKind::Max)
    } else if s == "count"@ {
        Some(OpKind::Count)
    } else if s == "var"@ {
        Some(OpKind::Var)
    } else if s == "std"@ {
        Some(OpKind::Std)
    } else if s == "product"@ {
        Some(OpKind::Product)
    } else if s == "norm_l1"@ {
        Some(OpKind::NormL1)
    } else if s == "norm_l2"@ {
        Some(OpKind::NormL2)
    } else if s == "all_finite"@ {
        Some(OpKind::AllFinite)
    } else if s == "any_nan"@ {
        Some(OpKind::AnyNan)
    } else if s == "any_inf"@ {
        Some(OpKind::AnyInf)
    } else if s == "arg_min"@ {
        Some(OpKind::ArgMin)
    } else if s == "arg_max"@ {
        Some(OpKind::ArgMax)
    } else if s == "median"@ {
        Some(OpKind::Median)
    } else if s == "quantile"@ {
        Some(OpKind::Quantile)
    } else if s == "histogram"@ {
        Some(OpKind::Histogram)
    } else if s == "nan_count"@ {
        Some(OpKind::NanCount)
    } else if s == "inf_count"@ {
        Some(OpKind::InfCount)
    } else if s == "null_count"@ {
        Some(OpKind::NullCount)
    } else if s == "covariance"@ {
        Some(OpKind::Covariance)
    } else if s == "correlation"@ {
        Some(OpKind::Correlation)
    } else if s == "nan_mean"@ {
        Some(OpKind::NanMean)
    } else if s == "nan_std"@ {
        Some(OpKind::NanStd)
    } else if s == "transform"@ {
        Some(OpKind::Transform)
    } else {
        None
    }
}

/// Kinds whose value is only an axis spec and that carry no parameter.
pub open spec fn spec_is_plain_kind(k: OpKind) -> bool {
    k == OpKind::Sum || k == OpKind::Mean || k == OpKind::Min || k == OpKind::Max || k == OpKind::Count || k == OpKind::Var || k == OpKind::Std || k == OpKind::Product || k == OpKind::NormL1 || k == OpKind::NormL2 || k == OpKind::AllFinite || k == OpKind::AnyNan || k == OpKind::AnyInf || k == OpKind::ArgMin || k == OpKind::ArgMax || k == OpKind::Median || k == OpKind::NanMean || k == OpKind::NanStd
}

/// Operation kind of a top-level key, if it is one.
pub fn op_kind_of_name(name: &str) -> (r: Option<OpKind>)
    ensures
        r == spec_kind_of_name(name@),
{
    if str_eq(name, "sum") {
        return Some(OpKind::Sum);
    }
    if str_eq(name, "mean") {
        return Some(OpKind::Mean);
    }
    if str_eq(name, "min") {
        return Some(OpKind::Min);
    }
    if str_eq(name, "max") {
        return Some(OpKind::Max);
    }
    if str_eq(name, "count") {
        return Some(OpKind::Count);
    }
    if str_eq(name, "var") {
        return Some(OpKind::Var);
    }
    if str_eq(name, "std") {
        return Some(OpKind::Std);
    }
    if str_eq(name, "product") {
        return Some(OpKind::Product);
    }
    if str_eq(name, "norm_l1") {
        return Some(OpKind::NormL1);
    }
    if str_eq(name, "norm_l2") {
        return Some(OpKind::NormL2);
    }
    if str_eq(name, "all_finite") {
        return Some(OpKind::AllFinite);
    }
    if str_eq(name, "any_nan") {
        return Some(OpKind::AnyNan);
    }
    if str_eq(name, "any_inf") {
        return Some(OpKind::AnyInf);
    }
    if str_eq(name, "arg_min") {
        return Some(OpKind::ArgMin);
    }
    if str_eq(name, "arg_max") {
        return Some(OpKind::ArgMax);
    }
    if str_eq(name, "median") {
        return Some(OpKind::Median);
    }
    if str_eq(name, "quantile") {
        return Some(OpKind::Quantile);
    }
    if str_eq(name, "histogram") {
        return Some(OpKind::Histogram);
    }
    if str_eq(name, "nan_count") {
        return Some(OpKind::NanCount);
    }
    if str_eq(name, "inf_count") {
        return Some(OpKind::InfCount);
    }
    if str_eq(name, "null_count") {
        return Some(OpKind::NullCount);
    }
    if str_eq(name, "covariance") {
        return Some(OpKind::Covariance);
    }
    if str_eq(name, "correlation") {
        return Some(OpKind::Correlation);
    }
    if str_eq(name, "nan_mean") {
        return Some(OpKind::NanMean);
    }
    if str_eq(name, "nan_std") {
        return Some(OpKind::NanStd);
    }
    if str_eq(name, "transform") {
        return Some(OpKind::Transform);
    }
    None
}

/// The parameterless operation `name` over `axes`.
pub fn operation_from_axes(name: &str, axes: Vec<String>) -> (r: Operation)
    requires
        spec_kind_of_name(name@) matches Some(k) && spec_is_plain_kind(k),
    ensures
        r@ == plain_op(spec_kind_of_name(name@)->0, strs(axes@)),
{
    match op_kind_of_name(name) {
        Some(OpKind::Sum) => Operation::Sum { axes },
        Some(OpKind::Mean) => Operation::Mean { axes },
        Some(OpKind::Min) => Operation::Min { axes },
        Some(OpKind::Max) => Operation::Max { axes },
        Some(OpKind::Count) => Operation::Count { axes },
        Some(OpKind::Var) => Operation::Var { axes },
        Some(OpKind::Std) => Operation::Std { axes },
        Some(OpKind::Product) => Operation::Product { axes },
        Some(OpKind::NormL1) => Operation::NormL1 { axes },
        Some(OpKind::NormL2) => Operation::NormL2 { axes },
        Some(OpKind::AllFinite) => Operation::AllFinite { axes },
        Some(OpKind::AnyNan) => Operation::AnyNan { axes },
        Some(OpKind::AnyInf) => Operation::AnyInf { axes },
        Some(OpKind::ArgMin) => Operation::ArgMin { axes },
        Some(OpKind::ArgMax) => Operation::ArgMax { axes },
        Some(OpKind::Median) => Operation::Median { axes },
        Some(OpKind::NanMean) => Operation::NanMean { axes },
        Some(OpKind::NanStd) => Operation::NanStd { axes },
        _ => Operation::Sum { axes },
    }
}

/// Axes of a parametric operation object: its `axis` member, else its `axes` member, else none.
pub open spec fn spec_parametric_axes(m: Seq<(String, JsonValue)>) -> Option<Seq<Seq<char>>> {
    match obj_get(m, "axis"@) {
        Some(a) => spec_axis_spec(a),
        None => match obj_get(m, "axes"@) {
            Some(a) => spec_axis_spec(a),
            None => Some(Seq::empty()),
        },
    }
}

/// A member read with `Value::as_f64`: its `f64` value when it is a number, else `None`.
pub open spec fn spec_opt_f64(o: Option<JsonValue>) -> Option<u64> {
    match o {
        Some(JsonValue::Number(n)) => Some(n.f64_bits),
        _ => None,
    }
}

/// `histogram.bins`: a non-negative integer that fits in `u32`.
pub open spec fn spec_bins(o: Option<JsonValue>) -> Option<u32> {
    match o {
        Some(JsonValue::Number(n)) => match n.repr {
            NumberRepr::PosInt(u) => if u <= u32::MAX {
                Some(u as u32)
            } else {
                None
            },
            _ => None,
        },
        _ => None,
    }
}

pub open spec fn spec_method(o: Option<JsonValue>) -> Option<TransformMethod> {
    match o {
        Some(JsonValue::String(s)) => TransformMethod::spec_parse(s@),
        _ => None,
    }
}

/// The operation under top-level key `name` with value `v`.
///
/// `quantile`, `histogram` and `transform` take an object (`axis` / `axes`, plus `q`; `bins`
/// and optional numeric `min` / `max`; `method`); `null_count` takes an object (optional numeric
/// `fill`) or an axis spec; every other key takes an axis spec.
pub open spec fn spec_parse_operation(name: Seq<char>, v: JsonValue) -> Option<OperationView> {
    match spec_kind_of_name(name) {
        None => None,
        Some(kind) => {
            if kind == OpKind::Quantile {
                match v {
                    JsonValue::Object(m) => match (spec_parametric_axes(m@), spec_opt_f64(obj_get(m@, "q"@))) {
                        (Some(a), Some(q)) => Some(OperationView { q, ..plain_op(kind, a) }),
                        _ => None,
                    },
                    _ => None,
                }
            } else if kind == OpKind::Histogram {
                match v {
                    JsonValue::Object(m) => match (spec_parametric_axes(m@), spec_bins(obj_get(m@, "bins"@))) {
                        (Some(a), Some(bins)) => Some(
                            OperationView {
                                bins,
                                min: spec_opt_f64(obj_get(m@, "min"@)),
                                max: spec_opt_f64(obj_get(m@, "max"@)),
                                ..plain_op(kind, a)
                            },
                        ),
                        _ => None,
                    },
                    _ => None,
                }
            } else if kind == OpKind::Transform {
                match v {
                    JsonValue::Object(m) => match (spec_parametric_axes(m@), spec_method(obj_get(m@, "method"@))) {
                        (Some(a), Some(method)) => Some(OperationView { method, ..plain_op(kind, a) }),
                        _ => None,
                    },
                    _ => None,
                }
            } else if kind == OpKind::NullCount && v is Object {
                match v {
                    JsonValue::Object(m) => match spec_parametric_axes(m@) {
                        Some(a) => Some(
                            OperationView { fill: spec_opt_f64(obj_get(m@, "fill"@)), ..plain_op(kind, a) },
                        ),
                        None => None,
                    },
                    _ => None,
                }
            } else {
                match spec_axis_spec(v) {
                    Some(a) => Some(plain_op(kind, a)),
                    None => None,
                }
            }
        },
    }
}

fn parse_parametric_axes(m: &Vec<(String, JsonValue)>) -> (r: Result<Vec<String>, TetError>)
    ensures
        r is Ok <==> spec_parametric_axes(m@) is Some,
        r matches Ok(a) ==> spec_parametric_axes(m@) == Some(strs(a@)),
        r matches Err(e) ==> e.is_validation(),
{
    match obj_lookup(m, "axis") {
        Some(a) => parse_axis_spec(a),
        None => match obj_lookup(m, "axes") {
            Some(a) => parse_axis_spec(a),
            None => {
                let out: Vec<String> = Vec::new();
                assert(strs(out@) =~= Seq::<Seq<char>>::empty());
                Ok(out)
            },
        },
    }
}

fn opt_f64_member(m: &Vec<(String, JsonValue)>, key: &str) -> (r: Option<u64>)
    ensures
        r == spec_opt_f64(obj_get(m@, key@)),
{
    match obj_lookup(m, key) {
        Some(JsonValue::Number(n)) => Some(n.as_f64_bits()),
        _ => None,
    }
}


/// Parse the value of top-level operation key `name`.
pub fn parse_operation(name: &str, v: &JsonValue) -> (r: Result<Operation, TetError>)
    requires
        spec_kind_of_name(name@) is Some,
    ensures
        r is Ok <==> spec_parse_operation(name@, *v) is Some,
        r matches Ok(o) ==> spec_parse_operation(name@, *v) == Some(o@),
        r matches Err(e) ==> e.is_validation(),
{
    let kind = match op_kind_of_name(name) {
        Some(k) => k,
        None => return Err(TetError::Validation(String::from_str("unknown operation key"))),
    };
    match kind {
        OpKind::Quantile => {
            let m = match v {
                JsonValue::Object(m) => m,
                _ => return Err(TetError::Validation(String::from_str(
                    "`quantile` must be a JSON object (e.g. { \"q\": 0.95, \"axis\": 0 })",
                ))),
            };
            let axes = parse_parametric_axes(m)?;
            let q = match opt_f64_member(m, "q") {
                Some(q) => q,
                None => return Err(TetError::Validation(String::from_str("`quantile.q` is required"))),
            };
            Ok(Operation::Quantile { axes, q })
        },
        OpKind::Histogram => {
            let m = match v {
                JsonValue::Object(m) => m,
                _ => return Err(TetError::Validation(String::from_str(
                    "`histogram` must be a JSON object (e.g. { \"q\": 0.95, \"axis\": 0 })",
                ))),
            };
            let axes = parse_parametric_axes(m)?;
            let bins = match obj_lookup(m, "bins") {
                Some(JsonValue::Number(n)) => match n.as_u64() {
                    Some(u) => if u <= u32::MAX as u64 {
                        u as u32
                    } else {
                        return Err(TetError::Validation(String::from_str("`histogram.bins` is required")));
                    },
                    None => return Err(TetError::Validation(String::from_str("`histogram.bins` is required"))),
                },
                _ => return Err(TetError::Validation(String::from_str("`histogram.bins` is required"))),
            };
            let min = opt_f64_member(m, "min");
            let max = opt_f64_member(m, "max");
            Ok(Operation::Histogram { axes, bins, min, max })
        },
        OpKind::Transform => {
            let m = match v {
                JsonValue::Object(m) => m,
                _ => return Err(TetError::Validation(String::from_str(
                    "`transform` must be a JSON object (e.g. { \"q\": 0.95, \"axis\": 0 })",
                ))),
            };
            let axes = parse_parametric_axes(m)?;
            let method = match obj_lookup(m, "method") {
                Some(JsonValue::String(s)) => TransformMethod::parse(s.as_str())?,
                _ => return Err(TetError::Validation(String::from_str("`transform.method` is required"))),
            };
            Ok(Operation::Transform { method, axes })
        },
        OpKind::NullCount => {
            match v {
                JsonValue::Object(m) => {
                    let axes = parse_parametric_axes(m)?;
                    let fill = opt_f64_member(m, "fill");
                    Ok(Operation::NullCount { axes, fill })
                },
                _ => {
                    let axes = parse_axis_spec(v)?;
                    Ok(Operation::NullCount { axes, fill: None })
                },
            }
        },
        OpKind::NanCount => {
            let axes = parse_axis_spec(v)?;
            Ok(Operation::NanCount { axes })
        },
        OpKind::InfCount => {
            let axes = parse_axis_spec(v)?;
            Ok(Operation::InfCount { axes })
        },
        OpKind::Covariance => {
            let axes = parse_axis_spec(v)?;
            Ok(Operation::Covariance { axes })
        },
        OpKind::Correlation => {
            let axes = parse_axis_spec(v)?;
            Ok(Operation::Correlation { axes })
        },
        _ => {
            let axes = parse_axis_spec(v)?;
            Ok(operation_from_axes(name, axes))
        },
    }
}


// ---------------------------------------------------------------------------------------------
// Documents

/// Indices (below `k`) of the operation keys present in an object, in key order.
pub open spec fn present_ops(m: Seq<(String, JsonValue)>, k: int) -> Seq<int>
    decreases k,
{
    if k <= 0 {
        Seq::empty()
    } else {
        let p = present_ops(m, k - 1);
        if obj_get(m, spec_op_keys()[k - 1]) is Some {
            p.push(k - 1)
        } else {
            p
        }
    }
}

/// The operation of a document: none when no operation key is present, the parsed operation
/// when exactly one is, and a failure when two or more are (or the one present is malformed).
pub open spec fn spec_query_op(m: Seq<(String, JsonValue)>) -> Option<Option<OperationView>> {
    let p = present_ops(m, 26);
    if p.len() == 0 {
        Some(None)
    } else if p.len() == 1 {
        let key = spec_op_keys()[p[0]];
        match spec_parse_operation(key, obj_get(m, key)->0) {
            Some(o) => Some(Some(o)),
            None => None,
        }
    } else {
        None
    }
}

/// The checks made before `selection` is read: an object without `operation` / `output`, with
/// known keys only, a string `dataset` and a valid optional `layout_version`.
pub open spec fn spec_query_head_ok(v: JsonValue) -> bool {
    match v {
        JsonValue::Object(m) => {
            &&& obj_get(m@, "operation"@) is None
            &&& obj_get(m@, "output"@) is None
            &&& forall|i: int| 0 <= i < m@.len() ==> spec_is_allowed_key(#[trigger] m@[i].0@)
            &&& obj_get(m@, "dataset"@) matches Some(JsonValue::String(_))
            &&& spec_opt_field(obj_get(m@, "layout_version"@), |x| spec_u32_field(x)) is Some
        },
        _ => false,
    }
}

/// Position of the first member (from `i`) whose key may not appear at the top level; the
/// length when there is none.
pub open spec fn spec_first_unknown(m: Seq<(String, JsonValue)>, i: int) -> int
    decreases m.len() - i,
{
    if i < 0 || i >= m.len() {
        m.len() as int
    } else if !spec_is_allowed_key(m[i].0@) {
        i
    } else {
        spec_first_unknown(m, i + 1)
    }
}

/// The message of the first check on the head of a document that fails, in the order the
/// checks are made: a JSON object, no nested `operation`, no nested `output`, known keys only,
/// a string `dataset`, a valid optional `layout_version`. `None` when all pass.
pub open spec fn spec_query_head_error(v: JsonValue) -> Option<Seq<char>> {
    match v {
        JsonValue::Object(m) => if obj_get(m@, "operation"@) is Some {
            Some(
                "nested `operation` is not supported; use a top-level op key (e.g. `\"mean\": 0`)"@,
            )
        } else if obj_get(m@, "output"@) is Some {
            Some("nested `output` is not supported; use top-level `\"spill\": \"path\"`"@)
        } else if spec_first_unknown(m@, 0) < m@.len() {
            Some("unknown field `"@ + ""@ + m@[spec_first_unknown(m@, 0)].0@ + "`"@)
        } else if !(obj_get(m@, "dataset"@) matches Some(JsonValue::String(_))) {
            Some("`dataset` must be a string"@)
        } else if spec_opt_field(obj_get(m@, "layout_version"@), |x| spec_u32_field(x)) is None {
            Some(spec_uint_field_message("layout_version"@, obj_get(m@, "layout_version"@)->0))
        } else {
            None
        },
        _ => Some("query document must be a JSON object"@),
    }
}

/// The optional sections after the head (`selection`, `spill`, `write`, `execution`) all parse.
pub open spec fn spec_query_sections_ok(m: Seq<(String, JsonValue)>) -> bool {
    &&& spec_opt_field(obj_get(m, "selection"@), |x| spec_selection(x)) is Some
    &&& spec_spill_output(obj_get(m, "spill"@)) is Some
    &&& spec_opt_field(obj_get(m, "write"@), |x| spec_write(x)) is Some
    &&& spec_opt_field(obj_get(m, "execution"@), |x| spec_execution(x)) is Some
}

/// Two or more operation keys are present and the first of them parses.
pub open spec fn spec_extra_op_key(m: Seq<(String, JsonValue)>) -> bool {
    let p = present_ops(m, 26);
    &&& p.len() >= 2
    &&& spec_parse_operation(spec_op_keys()[p[0]], obj_get(m, spec_op_keys()[p[0]])->0) is Some
}

pub open spec fn spec_spill_output(o: Option<JsonValue>) -> Option<Option<Option<OutputHintView>>> {
    match spec_opt_field(o, |x| spec_path_value(x)) {
        Some(Some(p)) => Some(Some(Some(OutputHintView::SpillArray(p)))),
        Some(None) => Some(None),
        None => None,
    }
}

/// The document a JSON value describes in the flat wire format, if it is valid.
pub open spec fn spec_parse_query(v: JsonValue) -> Option<QueryDocView> {
    if !spec_query_head_ok(v) {
        None
    } else {
        match v {
            JsonValue::Object(m) => {
                let dataset = match obj_get(m@, "dataset"@) {
                    Some(JsonValue::String(s)) => s@,
                    _ => Seq::empty(),
                };
                match (
                    spec_opt_field(obj_get(m@, "layout_version"@), |x| spec_u32_field(x)),
                    spec_opt_field(obj_get(m@, "selection"@), |x| spec_selection(x)),
                    spec_spill_output(obj_get(m@, "spill"@)),
                    spec_opt_field(obj_get(m@, "write"@), |x| spec_write(x)),
                    spec_opt_field(obj_get(m@, "execution"@), |x| spec_execution(x)),
                    spec_query_op(m@),
                ) {
                    (Some(layout_version), Some(selection), Some(output), Some(write), Some(execution), Some(operation)) => Some(
                        QueryDocView {
                            layout_version,
                            dataset,
                            selection,
                            operation,
                            output,
                            write,
                            execution,
                        },
                    ),
                    _ => None,
                }
            },
            _ => None,
        }
    }
}

/// Earlier indices stay in place as more keys are scanned.
proof fn lemma_present_ops_prefix(m: Seq<(String, JsonValue)>, k: int, j: int)
    requires
        0 <= k <= j,
    ensures
        present_ops(m, j).len() >= present_ops(m, k).len(),
        forall|t: int| 0 <= t < present_ops(m, k).len() ==> present_ops(m, j)[t] == present_ops(m, k)[t],
    decreases j - k,
{
    if k < j {
        lemma_present_ops_prefix(m, k, j - 1);
    }
}

proof fn lemma_op_key_kind(k: int)
    requires
        0 <= k < 26,
    ensures
        spec_kind_of_name(spec_op_keys()[k]) is Some,
{
    if k == 0 {
    } else if k == 1 {
    } else if k == 2 {
    } else if k == 3 {
    } else if k == 4 {
    } else if k == 5 {
    } else if k == 6 {
    } else if k == 7 {
    } else if k == 8 {
    } else if k == 9 {
    } else if k == 10 {
    } else if k == 11 {
    } else if k == 12 {
    } else if k == 13 {
    } else if k == 14 {
    } else if k == 15 {
    } else if k == 16 {
    } else if k == 17 {
    } else if k == 18 {
    } else if k == 19 {
    } else if k == 20 {
    } else if k == 21 {
    } else if k == 22 {
    } else if k == 23 {
    } else if k == 24 {
    } else if k == 25 {
    }
}

/// Position of the first member whose key may not appear at the top level.
fn first_unknown_key(m: &Vec<(String, JsonValue)>) -> (r: Option<usize>)
    ensures
        r is None <==> forall|i: int| 0 <= i < m@.len() ==> spec_is_allowed_key(#[trigger] m@[i].0@),
        r matches Some(i) ==> i < m@.len() && !spec_is_allowed_key(m@[i as int].0@),
        r matches Some(i) ==> i == spec_first_unknown(m@, 0),
        r is None ==> spec_first_unknown(m@, 0) == m@.len(),
{
    let mut i: usize = 0;
    while i < m.len()
        invariant
            0 <= i <= m@.len(),
            forall|j: int| 0 <= j < i ==> spec_is_allowed_key(#[trigger] m@[j].0@),
            spec_first_unknown(m@, 0) == spec_first_unknown(m@, i as int),
        decreases m@.len() - i,
    {
        if !is_allowed_key(m[i].0.as_str()) {
            return Some(i);
        }
        i += 1;
    }
    None
}

/// `unknown field `PREFIXKEY``.
fn unknown_field_message(prefix: &str, key: &str) -> (r: String)
    ensures
        r@ == "unknown field `"@ + prefix@ + key@ + "`"@,
{
    let mut msg = owned("unknown field `");
    push_str(&mut msg, prefix);
    push_str(&mut msg, key);
    push_str(&mut msg, "`");
    msg
}

/// The operation of a document object: at most one operation key may be present.
fn scan_operation(m: &Vec<(String, JsonValue)>) -> (r: Result<Option<Operation>, TetError>)
    ensures
        r is Ok <==> spec_query_op(m@) is Some,
        r matches Ok(o) ==> spec_query_op(m@) == Some(
            match o {
                Some(x) => Some(x@),
                None => None::<OperationView>,
            },
        ),
        r matches Err(e) ==> e.is_validation(),
        spec_extra_op_key(m@) ==> (r matches Err(TetError::Validation(msg)) && msg@
            == "query document must include at most one reduction key"@),
{
    let mut operation: Option<Operation> = None;
    let mut k: usize = 0;
    while k < N_OP_KEYS
        invariant
            0 <= k <= 26,
            present_ops(m@, k as int).len() <= 1,
            present_ops(m@, k as int).len() == 0 ==> operation is None,
            present_ops(m@, k as int).len() == 1 ==> (operation matches Some(o) && 0 <= present_ops(
                m@,
                k as int,
            )[0] < 26 && spec_parse_operation(
                spec_op_keys()[present_ops(m@, k as int)[0]],
                obj_get(m@, spec_op_keys()[present_ops(m@, k as int)[0]])->0,
            ) == Some(o@)),
        decreases 26 - k,
    {
        let key = op_key(k);
        match obj_lookup(m, key) {
            Some(x) => {
                proof {
                    lemma_present_ops_prefix(m@, k + 1, 26);
                    lemma_op_key_kind(k as int);
                    assert(present_ops(m@, k + 1) == present_ops(m@, k as int).push(k as int));
                }
                if operation.is_some() {
                    return Err(TetError::Validation(String::from_str(
                        "query document must include at most one reduction key",
                    )));
                }
                let op = match parse_operation(key, x) {
                    Ok(o) => o,
                    Err(e) => {
                        return Err(e);
                    },
                };
                operation = Some(op);
            },
            None => {},
        }
        k += 1;
    }
    Ok(operation)
}

/// Parse a JSON value into a [`QueryDocument`] (flat wire format).
///
/// Errors are [`TetError::Validation`], except a malformed `selection`, which is
/// [`TetError::InvalidJson`].
pub fn parse_query_value(v: &JsonValue) -> (r: Result<QueryDocument, TetError>)
    ensures
        r is Ok <==> spec_parse_query(*v) is Some,
        r matches Ok(d) ==> spec_parse_query(*v) == Some(d@),
        r matches Err(e) ==> (e is InvalidJson <==> (spec_query_head_ok(*v) && spec_opt_field(
            obj_get(v->Object_0@, "selection"@),
            |x| spec_selection(x),
        ) is None)),
        spec_query_head_error(*v) is None <==> spec_query_head_ok(*v),
        spec_query_head_error(*v) matches Some(msg) ==> (r matches Err(TetError::Validation(m))
            && m@ == msg),
        spec_query_head_ok(*v) && spec_opt_field(
            obj_get(v->Object_0@, "selection"@),
            |x| spec_selection(x),
        ) is Some && (obj_get(v->Object_0@, "spill"@) matches Some(x) && spec_path_value(x) is None)
            ==> (r matches Err(TetError::Validation(m)) && m@ == spec_spill_message(
            obj_get(v->Object_0@, "spill"@)->0,
        )),
        spec_query_head_ok(*v) && spec_query_sections_ok(v->Object_0@) && spec_extra_op_key(
            v->Object_0@,
        ) ==> (r matches Err(TetError::Validation(m)) && m@
            == "query document must include at most one reduction key"@),
{
    let m = match v {
        JsonValue::Object(m) => m,
        _ => return Err(TetError::Validation(String::from_str("query document must be a JSON object"))),
    };
    if obj_lookup(m, "operation").is_some() {
        return Err(TetError::Validation(String::from_str(
            "nested `operation` is not supported; use a top-level op key (e.g. `\"mean\": 0`)",
        )));
    }
    if obj_lookup(m, "output").is_some() {
        return Err(TetError::Validation(String::from_str(
            "nested `output` is not supported; use top-level `\"spill\": \"path\"`",
        )));
    }
    match first_unknown_key(m) {
        Some(i) => {
            return Err(TetError::Validation(unknown_field_message("", m[i].0.as_str())));
        },
        None => {},
    }
    let dataset = match obj_lookup(m, "dataset") {
        Some(JsonValue::String(s)) => owned(s.as_str()),
        _ => return Err(TetError::Validation(String::from_str("`dataset` must be a string"))),
    };
    let layout_version = match obj_lookup(m, "layout_version") {
        None => None,
        Some(x) => Some(parse_u32_field("layout_version", x)?),
    };
    assert(spec_query_head_ok(*v));
    let selection = match obj_lookup(m, "selection") {
        None => None,
        Some(x) => Some(parse_selection(x)?),
    };
    let output = match obj_lookup(m, "spill") {
        None => None,
        Some(x) => Some(parse_spill(x)?),
    };
    let write = match obj_lookup(m, "write") {
        None => None,
        Some(x) => Some(parse_write(x)?),
    };
    let execution = match obj_lookup(m, "execution") {
        None => None,
        Some(x) => Some(parse_execution(x)?),
    };
    let operation = scan_operation(m)?;
    let doc = QueryDocument { layout_version, dataset, selection, operation, output, write, execution };
    proof {
        assert(doc@.selection == spec_opt_field(obj_get(m@, "selection"@), |x| spec_selection(x))->0);
    }
    Ok(doc)
}

} // verus!
