//! Parse and validate query documents (flat JSON wire; TOML front-end).
use vstd::prelude::*;

use crate::document_wire::{
    byte_len, parse_query_value, spec_parse_query, spec_query_head_error, str_byte_len,
    valid_axis_token,
    validate_axis_label_token, MAX_AXIS_LABEL_BYTES, MAX_NAME_BYTES,
};
use crate::float_bits::{
    f64_bits_is_finite, f64_bits_le, f64_bits_lt, f64_is_finite, f64_le, f64_lt, F64_ONE_BITS,
    F64_ZERO_BITS,
};
use crate::json::{
    json_int_f64_bits, json_number_from_i64, json_parse, parse_json_text, parse_toml_text,
    toml_parse, JsonNumber, JsonValue, NumberRepr, TomlValue,
};
use crate::text::{char_is_ws, chars_of, decimal, is_ws, owned, push_decimal, push_str};
use crate::types::{
    strs, AxisSlice, AxisSliceView, OpKind, Operation, OperationView, QueryDocView, QueryDocument,
    TetError, WriteHints, WriteTarget, MAX_NDIM,
};

verus! {

broadcast use vstd::string::group_string_axioms;

/// How [`parse_query_text`] chooses a parser.
#[derive(Debug, Clone, Copy, PartialEq, Eq, Structural)]
pub enum QueryInputFormat {
    /// `.json` / `{…}` → JSON; `.toml` / otherwise → TOML.
    Auto,
    Json,
    Toml,
}

impl Default for QueryInputFormat {
    fn default() -> (r: Self)
        ensures
            r == QueryInputFormat::Auto,
    {
        QueryInputFormat::Auto
    }
}

/// Maximum query payload size in bytes.
pub const MAX_JSON_BYTES: usize = 1048576;

/// Maximum composite nesting depth (arrays / objects) of a query value.
pub const MAX_JSON_DEPTH: usize = 64;

/// Input limits enforced by [`parse_query_json`] and [`validate_query`].
#[derive(Debug, Clone, Copy, PartialEq, Eq, Structural)]
pub struct QueryLimits {
    /// Maximum query payload size accepted by [`parse_query_json`].
    pub max_json_bytes: usize,
    /// Maximum composite nesting depth (arrays/objects) in query JSON.
    pub max_json_depth: usize,
    /// Maximum length of the `dataset` name string (bytes).
    pub max_dataset_name_len: usize,
    /// Maximum per-axis operation label length (decimal indices are short).
    pub max_operation_axis_label_len: usize,
}

impl QueryLimits {
    /// Default limits used by the query engine.
    pub fn defaults() -> (r: Self)
        ensures
            r.max_json_bytes == MAX_JSON_BYTES,
            r.max_json_depth == MAX_JSON_DEPTH,
            r.max_dataset_name_len == MAX_NAME_BYTES,
            r.max_operation_axis_label_len == MAX_AXIS_LABEL_BYTES,
    {
        QueryLimits {
            max_json_bytes: MAX_JSON_BYTES,
            max_json_depth: MAX_JSON_DEPTH,
            max_dataset_name_len: MAX_NAME_BYTES,
            max_operation_axis_label_len: MAX_AXIS_LABEL_BYTES,
        }
    }
}

// ---------------------------------------------------------------------------------------------
// Whitespace

/// After leading whitespace, the text starts with `{` (`s.trim_start().starts_with('{')`).
pub open spec fn starts_with_brace(s: Seq<char>) -> bool {
    exists|i: int|
        0 <= i < s.len() && s[i] == '{' && forall|j: int| 0 <= j < i ==> is_ws(#[trigger] s[j])
}

/// Whether the text, after leading whitespace, starts with `{`.
pub fn trimmed_starts_with_brace(s: &str) -> (r: bool)
    ensures
        r == starts_with_brace(s@),
{
    let chars = chars_of(s);
    let mut i: usize = 0;
    while i < chars.len()
        invariant
            chars@ == s@,
            0 <= i <= chars@.len(),
            forall|j: int| 0 <= j < i ==> is_ws(#[trigger] chars@[j]),
        decreases chars@.len() - i,
    {
        let c = chars[i];
        if !char_is_ws(c) {
            if c == '{' {
                return true;
            }
            proof {
                assert forall|k: int|
                    0 <= k < s@.len() && s@[k] == '{' implies !(forall|j: int|
                    0 <= j < k ==> is_ws(#[trigger] s@[j])) by {
                    if k > i {
                        assert(!is_ws(s@[i as int]));
                    }
                }
            }
            return false;
        }
        i += 1;
    }
    false
}

/// Every character is whitespace (`s.trim().is_empty()`).
pub open spec fn all_ws(s: Seq<char>) -> bool {
    forall|i: int| 0 <= i < s.len() ==> is_ws(#[trigger] s[i])
}

fn is_blank(s: &str) -> (r: bool)
    ensures
        r == all_ws(s@),
{
    let chars = chars_of(s);
    let mut i: usize = 0;
    while i < chars.len()
        invariant
            chars@ == s@,
            0 <= i <= chars@.len(),
            forall|j: int| 0 <= j < i ==> is_ws(#[trigger] chars@[j]),
        decreases chars@.len() - i,
    {
        if !char_is_ws(chars[i]) {
            return false;
        }
        i += 1;
    }
    true
}

// ---------------------------------------------------------------------------------------------
// Nesting depth

/// Composite nesting depth: `1 +` the deepest member for arrays and objects, `0` otherwise.
pub open spec fn json_depth(v: JsonValue) -> nat
    decreases v,
{
    match v {
        JsonValue::Array(items) => 1 + items_depth(items@),
        JsonValue::Object(m) => 1 + members_depth(m@),
        _ => 0,
    }
}

/// Deepest element of a sequence of values (`0` when empty).
pub open spec fn items_depth(s: Seq<JsonValue>) -> nat
    decreases s,
{
    if s.len() == 0 {
        0
    } else {
        let a = items_depth(s.drop_last());
        let b = json_depth(s.last());
        if a >= b {
            a
        } else {
            b
        }
    }
}

/// Deepest member value of an object (`0` when empty).
pub open spec fn members_depth(s: Seq<(String, JsonValue)>) -> nat
    decreases s,
{
    if s.len() == 0 {
        0
    } else {
        let a = members_depth(s.drop_last());
        let b = json_depth(s.last().1);
        if a >= b {
            a
        } else {
            b
        }
    }
}

pub open spec fn cap_usize(n: nat) -> usize {
    if n > usize::MAX {
        usize::MAX
    } else {
        n as usize
    }
}

/// Composite nesting depth of a parsed value (saturating at `usize::MAX`).
pub fn json_composite_depth(v: &JsonValue) -> (r: usize)
    ensures
        r == cap_usize(json_depth(*v)),
    decreases *v,
{
    match v {
        JsonValue::Array(items) => {
            let mut acc: usize = 0;
            let mut i: usize = 0;
            while i < items.len()
                invariant
                    0 <= i <= items@.len(),
                    *v is Array && v->Array_0 == *items,
                    acc == cap_usize(items_depth(items@.take(i as int))),
                decreases items@.len() - i,
            {
                assert(decreases_to!(*v => items@[i as int])) by {
                    assert(decreases_to!(*items => items@[i as int]));
                }
                let d = json_composite_depth(&items[i]);
                assert(items@.take(i + 1).drop_last() =~= items@.take(i as int));
                if d > acc {
                    acc = d;
                }
                i += 1;
            }
            assert(items@.take(items@.len() as int) =~= items@);
            if acc == usize::MAX {
                usize::MAX
            } else {
                acc + 1
            }
        },
        JsonValue::Object(m) => {
            let mut acc: usize = 0;
            let mut i: usize = 0;
            while i < m.len()
                invariant
                    0 <= i <= m@.len(),
                    *v is Object && v->Object_0 == *m,
                    acc == cap_usize(members_depth(m@.take(i as int))),
                decreases m@.len() - i,
            {
                assert(decreases_to!(*v => m@[i as int].1)) by {
                    assert(decreases_to!(*m => m@[i as int]));
                }
                let d = json_composite_depth(&m[i].1);
                assert(m@.take(i + 1).drop_last() =~= m@.take(i as int));
                if d > acc {
                    acc = d;
                }
                i += 1;
            }
            assert(m@.take(m@.len() as int) =~= m@);
            if acc == usize::MAX {
                usize::MAX
            } else {
                acc + 1
            }
        },
        _ => 0,
    }
}

/// Message for a payload over [`MAX_JSON_BYTES`].
pub open spec fn spec_size_message(text: Seq<char>) -> Seq<char> {
    "query document exceeds maximum size ("@ + decimal(byte_len(text) as nat)
        + " bytes, limit 1048576)"@
}

/// Message for a value nested deeper than [`MAX_JSON_DEPTH`].
pub open spec fn spec_depth_message(v: JsonValue) -> Seq<char> {
    "query document nesting depth "@ + decimal(cap_usize(json_depth(v)) as nat)
        + " exceeds maximum 64"@
}

/// Reject payloads larger than [`MAX_JSON_BYTES`].
pub fn check_query_payload_size(text: &str) -> (r: Result<(), TetError>)
    ensures
        r is Ok <==> byte_len(text@) <= MAX_JSON_BYTES,
        r matches Err(e) ==> e.is_validation(),
        r matches Err(TetError::Validation(m)) ==> m@ == spec_size_message(text@),
{
    let len = str_byte_len(text);
    if len > MAX_JSON_BYTES {
        let mut msg = owned("query document exceeds maximum size (");
        push_decimal(&mut msg, len as u64);
        push_str(&mut msg, " bytes, limit 1048576)");
        return Err(TetError::Validation(msg));
    }
    Ok(())
}

/// Reject values nested deeper than [`MAX_JSON_DEPTH`].
pub fn check_query_value_depth(v: &JsonValue) -> (r: Result<(), TetError>)
    ensures
        r is Ok <==> json_depth(*v) <= MAX_JSON_DEPTH,
        r matches Err(e) ==> e.is_validation(),
        r matches Err(TetError::Validation(m)) ==> m@ == spec_depth_message(*v),
{
    let depth = json_composite_depth(v);
    if depth > MAX_JSON_DEPTH {
        let mut msg = owned("query document nesting depth ");
        push_decimal(&mut msg, depth as u64);
        push_str(&mut msg, " exceeds maximum 64");
        return Err(TetError::Validation(msg));
    }
    Ok(())
}


// ---------------------------------------------------------------------------------------------
// Format detection

/// The extension `std::path::Path::extension` reports for a path string, as text.
pub uninterp spec fn path_extension(path: Seq<char>) -> Option<Seq<char>>;

/// `Path::new(path).extension()` as UTF-8 text.
///
/// Claims only that the result is [`path_extension`] of the path (a path given as `&str` always
/// has a UTF-8 extension); which part of the path that is follows `Path::extension` and is not
/// stated here.
#[verifier::external_body]
fn file_extension(path: &str) -> (r: Option<String>)
    ensures
        match r {
            Some(e) => path_extension(path@) == Some(e@),
            None => path_extension(path@) is None,
        },
{
    match std::path::Path::new(path).extension() {
        Some(ext) => match ext.to_str() {
            Some(t) => Some(t.to_owned()),
            None => None,
        },
        None => None,
    }
}

/// Format chosen from the payload alone: JSON when it starts with `{` after whitespace.
pub open spec fn spec_format_of_text(text: Seq<char>) -> QueryInputFormat {
    if starts_with_brace(text) {
        QueryInputFormat::Json
    } else {
        QueryInputFormat::Toml
    }
}

/// Format chosen from a path extension (`json`, `toml`) or, failing that, from the payload.
pub open spec fn spec_format_for_extension(ext: Option<Seq<char>>, text: Seq<char>) -> QueryInputFormat {
    match ext {
        Some(e) => if e == "json"@ {
            QueryInputFormat::Json
        } else if e == "toml"@ {
            QueryInputFormat::Toml
        } else {
            spec_format_of_text(text)
        },
        None => spec_format_of_text(text),
    }
}

/// Format for a path extension (`None` when the path has none) and the payload text.
pub fn format_for_extension(ext: Option<&str>, text: &str) -> (r: QueryInputFormat)
    ensures
        r == spec_format_for_extension(
            match ext {
                Some(e) => Some(e@),
                None => None,
            },
            text@,
        ),
{
    match ext {
        Some(e) => {
            if crate::text::str_eq(e, "json") {
                return QueryInputFormat::Json;
            }
            if crate::text::str_eq(e, "toml") {
                return QueryInputFormat::Toml;
            }
        },
        None => {},
    }
    if trimmed_starts_with_brace(text) {
        QueryInputFormat::Json
    } else {
        QueryInputFormat::Toml
    }
}

/// Infer JSON vs TOML from an optional file path and the payload text.
pub fn detect_query_input_format(path_hint: Option<&str>, text: &str) -> (r: QueryInputFormat)
    ensures
        r == match path_hint {
            Some(p) => spec_format_for_extension(path_extension(p@), text@),
            None => spec_format_of_text(text@),
        },
{
    match path_hint {
        Some(p) => {
            let ext = file_extension(p);
            match ext {
                Some(e) => format_for_extension(Some(e.as_str()), text),
                None => format_for_extension(None, text),
            }
        },
        None => format_for_extension(None, text),
    }
}

// ---------------------------------------------------------------------------------------------
// TOML front-end

/// `j` is the JSON form of TOML value `t`: strings and datetimes become strings, integers JSON
/// integers, finite floats JSON floats (non-finite ones their display text), arrays and tables
/// element for element, member for member, in order.
pub open spec fn toml_json(t: TomlValue, j: JsonValue) -> bool
    decreases t,
{
    match t {
        TomlValue::String(s) => j matches JsonValue::String(x) && x@ == s@,
        TomlValue::Integer(i) => j matches JsonValue::Number(n) && n.repr == (if i >= 0 {
            NumberRepr::PosInt(i as u64)
        } else {
            NumberRepr::NegInt(i)
        }) && n.f64_bits == json_int_f64_bits(i),
        TomlValue::Float { bits, display } => if f64_is_finite(bits) {
            j matches JsonValue::Number(n) && n.repr == NumberRepr::Float(bits) && n.f64_bits == bits
        } else {
            j matches JsonValue::String(x) && x@ == display@
        },
        TomlValue::Boolean(b) => j == JsonValue::Bool(b),
        TomlValue::Datetime(s) => j matches JsonValue::String(x) && x@ == s@,
        TomlValue::Array(ts) => j matches JsonValue::Array(js) && toml_json_items(ts@, js@),
        TomlValue::Table(tm) => j matches JsonValue::Object(jm) && toml_json_members(tm@, jm@),
    }
}

pub open spec fn toml_json_items(ts: Seq<TomlValue>, js: Seq<JsonValue>) -> bool
    decreases ts,
{
    ts.len() == js.len() && (ts.len() > 0 ==> (toml_json(ts.last(), js.last()) && toml_json_items(
        ts.drop_last(),
        js.drop_last(),
    )))
}

pub open spec fn toml_json_members(ts: Seq<(String, TomlValue)>, js: Seq<(String, JsonValue)>) -> bool
    decreases ts,
{
    ts.len() == js.len() && (ts.len() > 0 ==> (js.last().0@ == ts.last().0@ && toml_json(
        ts.last().1,
        js.last().1,
    ) && toml_json_members(ts.drop_last(), js.drop_last())))
}

/// JSON form of a parsed TOML value, for the flat JSON wire parser.
pub fn toml_value_to_json(v: &TomlValue) -> (r: JsonValue)
    ensures
        toml_json(*v, r),
    decreases *v,
{
    match v {
        TomlValue::String(s) => JsonValue::String(owned(s.as_str())),
        TomlValue::Integer(i) => JsonValue::Number(json_number_from_i64(*i)),
        TomlValue::Float { bits, display } => {
            if f64_bits_is_finite(*bits) {
                JsonValue::Number(JsonNumber { repr: NumberRepr::Float(*bits), f64_bits: *bits })
            } else {
                JsonValue::String(owned(display.as_str()))
            }
        },
        TomlValue::Boolean(b) => JsonValue::Bool(*b),
        TomlValue::Datetime(s) => JsonValue::String(owned(s.as_str())),
        TomlValue::Array(items) => {
            let mut out: Vec<JsonValue> = Vec::new();
            let mut i: usize = 0;
            while i < items.len()
                invariant
                    0 <= i <= items@.len(),
                    *v is Array && v->Array_0 == *items,
                    toml_json_items(items@.take(i as int), out@),
                decreases items@.len() - i,
            {
                assert(decreases_to!(*v => items@[i as int])) by {
                    assert(decreases_to!(*items => items@[i as int]));
                }
                let j = toml_value_to_json(&items[i]);
                let ghost before = out@;
                out.push(j);
                assert(items@.take(i + 1).drop_last() =~= items@.take(i as int));
                assert(out@.drop_last() =~= before);
                i += 1;
            }
            assert(items@.take(items@.len() as int) =~= items@);
            JsonValue::Array(out)
        },
        TomlValue::Table(t) => {
            let mut out: Vec<(String, JsonValue)> = Vec::new();
            let mut i: usize = 0;
            while i < t.len()
                invariant
                    0 <= i <= t@.len(),
                    *v is Table && v->Table_0 == *t,
                    toml_json_members(t@.take(i as int), out@),
                decreases t@.len() - i,
            {
                assert(decreases_to!(*v => t@[i as int].1)) by {
                    assert(decreases_to!(*t => t@[i as int]));
                }
                let j = toml_value_to_json(&t[i].1);
                let k = owned(t[i].0.as_str());
                let ghost before = out@;
                out.push((k, j));
                assert(t@.take(i + 1).drop_last() =~= t@.take(i as int));
                assert(out@.drop_last() =~= before);
                i += 1;
            }
            assert(t@.take(t@.len() as int) =~= t@);
            JsonValue::Object(out)
        },
    }
}

// ---------------------------------------------------------------------------------------------
// Parsing entry points

/// The whole JSON pipeline on a parsed value: depth limit, then the wire parser.
pub open spec fn spec_query_from_value(j: JsonValue) -> Option<QueryDocView> {
    if json_depth(j) <= MAX_JSON_DEPTH {
        spec_parse_query(j)
    } else {
        None
    }
}

/// The document JSON text describes, when it is within the size limit, parses and is valid.
pub open spec fn spec_json_text_query(text: Seq<char>) -> Option<QueryDocView> {
    if byte_len(text) <= MAX_JSON_BYTES {
        match json_parse(text) {
            Some(j) => spec_query_from_value(j),
            None => None,
        }
    } else {
        None
    }
}

/// TOML text within the size limit that parses to a tree whose JSON form describes `d`.
pub open spec fn spec_toml_text_gives(text: Seq<char>, d: QueryDocView) -> bool {
    byte_len(text) <= MAX_JSON_BYTES && match toml_parse(text) {
        Some(t) => exists|j: JsonValue| toml_json(t, j) && spec_query_from_value(j) == Some(d),
        None => false,
    }
}

/// TOML text that is too large, does not parse, or whose JSON form is no valid document.
pub open spec fn spec_toml_text_fails(text: Seq<char>) -> bool {
    byte_len(text) > MAX_JSON_BYTES || match toml_parse(text) {
        Some(t) => exists|j: JsonValue| toml_json(t, j) && spec_query_from_value(j) is None,
        None => true,
    }
}

/// Parse a JSON query document from `text`.
///
/// Size over [`MAX_JSON_BYTES`] and depth over [`MAX_JSON_DEPTH`] are validation errors; text
/// that is not JSON is [`TetError::InvalidJson`]; the rest is [`parse_query_value`].
pub fn parse_query_json(text: &str) -> (r: Result<QueryDocument, TetError>)
    ensures
        r is Ok <==> spec_json_text_query(text@) is Some,
        r matches Ok(d) ==> spec_json_text_query(text@) == Some(d@),
        r matches Err(e) ==> (byte_len(text@) > MAX_JSON_BYTES ==> e.is_validation()),
        r matches Err(e) ==> (byte_len(text@) <= MAX_JSON_BYTES && json_parse(text@) is None
            ==> e is InvalidJson),
        byte_len(text@) > MAX_JSON_BYTES ==> (r matches Err(TetError::Validation(m)) && m@
            == spec_size_message(text@)),
        (byte_len(text@) <= MAX_JSON_BYTES && json_parse(text@) is Some && json_depth(
            json_parse(text@)->0,
        ) > MAX_JSON_DEPTH) ==> (r matches Err(TetError::Validation(m)) && m@ == spec_depth_message(
            json_parse(text@)->0,
        )),
        (byte_len(text@) <= MAX_JSON_BYTES && json_parse(text@) is Some && json_depth(
            json_parse(text@)->0,
        ) <= MAX_JSON_DEPTH && spec_query_head_error(json_parse(text@)->0) is Some) ==> (r matches Err(
            TetError::Validation(m),
        ) && m@ == spec_query_head_error(json_parse(text@)->0)->0),
{
    check_query_payload_size(text)?;
    let value = match parse_json_text(text) {
        Ok(v) => v,
        Err(msg) => return Err(TetError::InvalidJson(msg)),
    };
    check_query_value_depth(&value)?;
    parse_query_value(&value)
}

/// Parse a TOML query document: the TOML tree is turned into JSON (see [`toml_json`]) and
/// read like a JSON document.
pub fn parse_query_toml(text: &str) -> (r: Result<QueryDocument, TetError>)
    ensures
        r matches Ok(d) ==> spec_toml_text_gives(text@, d@),
        r is Err ==> spec_toml_text_fails(text@),
        r matches Err(e) ==> (byte_len(text@) > MAX_JSON_BYTES ==> e.is_validation()),
        r matches Err(e) ==> (byte_len(text@) <= MAX_JSON_BYTES && toml_parse(text@) is None
            ==> e is InvalidJson),
        byte_len(text@) > MAX_JSON_BYTES ==> (r matches Err(TetError::Validation(m)) && m@
            == spec_size_message(text@)),
{
    check_query_payload_size(text)?;
    let root = match parse_toml_text(text) {
        Ok(v) => v,
        Err(msg) => return Err(TetError::InvalidJson(msg)),
    };
    let value = toml_value_to_json(&root);
    check_query_value_depth(&value)?;
    parse_query_value(&value)
}

/// Whether a document in `format` is read as JSON.
pub open spec fn reads_as_json(text: Seq<char>, format: QueryInputFormat) -> bool {
    format == QueryInputFormat::Json || (format == QueryInputFormat::Auto && starts_with_brace(
        text,
    ))
}

/// What parsing `text` may give, when it is read as JSON (`as_json`) or as TOML: everything
/// [`parse_query_text`] promises of its result depends on the format only through `as_json`.
pub open spec fn spec_text_outcome(text: Seq<char>, as_json: bool, r: Result<QueryDocument, TetError>) -> bool {
    &&& as_json ==> (r is Ok <==> spec_json_text_query(text) is Some)
    &&& as_json ==> (r matches Ok(d) ==> spec_json_text_query(text) == Some(d@))
    &&& !as_json ==> (r matches Ok(d) ==> spec_toml_text_gives(text, d@))
    &&& !as_json ==> (r is Err ==> spec_toml_text_fails(text))
    &&& r matches Err(e) ==> (byte_len(text) > MAX_JSON_BYTES ==> e.is_validation())
    &&& byte_len(text) > MAX_JSON_BYTES ==> (r matches Err(TetError::Validation(m)) && m@
        == spec_size_message(text))
    &&& as_json ==> (r matches Err(e) ==> (byte_len(text) <= MAX_JSON_BYTES && json_parse(text) is None
        ==> e is InvalidJson))
    &&& !as_json ==> (r matches Err(e) ==> (byte_len(text) <= MAX_JSON_BYTES && toml_parse(text) is None
        ==> e is InvalidJson))
    &&& as_json && (byte_len(text) <= MAX_JSON_BYTES && json_parse(text) is Some && json_depth(
        json_parse(text)->0,
    ) > MAX_JSON_DEPTH) ==> (r matches Err(TetError::Validation(m)) && m@ == spec_depth_message(
        json_parse(text)->0,
    ))
    &&& as_json && (byte_len(text) <= MAX_JSON_BYTES && json_parse(text) is Some && json_depth(
        json_parse(text)->0,
    ) <= MAX_JSON_DEPTH && spec_query_head_error(json_parse(text)->0) is Some) ==> (r matches Err(
        TetError::Validation(m),
    ) && m@ == spec_query_head_error(json_parse(text)->0)->0)
}

/// `Auto` reads a document with the parser that format detection without a path picks, so
/// what [`parse_query_text`] promises for `Auto` is exactly what it promises for the detected
/// format: any result one call may give, the other may give too.
pub proof fn lemma_auto_uses_detected_parser(text: Seq<char>, r: Result<QueryDocument, TetError>)
    ensures
        reads_as_json(text, QueryInputFormat::Auto) == reads_as_json(text, spec_format_of_text(text)),
        spec_text_outcome(text, reads_as_json(text, QueryInputFormat::Auto), r) == spec_text_outcome(
            text,
            reads_as_json(text, spec_format_of_text(text)),
            r,
        ),
{
}

/// Parse a query document from JSON or TOML text.
pub fn parse_query_text(text: &str, format: QueryInputFormat) -> (r: Result<QueryDocument, TetError>)
    ensures
        spec_text_outcome(text@, reads_as_json(text@, format), r),
{
    match format {
        QueryInputFormat::Json => parse_query_json(text),
        QueryInputFormat::Toml => parse_query_toml(text),
        QueryInputFormat::Auto => {
            if trimmed_starts_with_brace(text) {
                parse_query_json(text)
            } else {
                parse_query_toml(text)
            }
        },
    }
}


// ---------------------------------------------------------------------------------------------
// Validation

/// JSON-only checks on one selection axis: `step != 0`, not both a numeric and a label bound on
/// one side, and `start < stop` when both are numeric.
pub open spec fn spec_slice_json_ok(a: AxisSliceView) -> bool {
    &&& a.step != Some(0u64)
    &&& !(a.start is Some && a.start_label is Some)
    &&& !(a.stop is Some && a.stop_label is Some)
    &&& !(a.start matches Some(x) && a.stop matches Some(y) && x >= y)
}

/// Message for selection axis `i` when it fails the JSON checks (the first failing one).
pub open spec fn spec_slice_error(i: usize, a: AxisSliceView) -> Seq<char> {
    let head = "selection["@ + decimal(i as nat) + "]"@;
    if a.step == Some(0u64) {
        head + ".step must be >= 1, got 0"@
    } else if a.start is Some && a.start_label is Some {
        head + ": use either `start` or `start_label`, not both"@
    } else if a.stop is Some && a.stop_label is Some {
        head + ": use either `stop` or `stop_label`, not both"@
    } else {
        head + ": start must be < stop when both set (got "@ + decimal(a.start->0 as nat) + " >= "@
            + decimal(a.stop->0 as nat) + ")"@
    }
}

/// Validate selection axis `i` of a JSON document.
pub fn validate_axis_slice_json(i: usize, sl: &AxisSlice) -> (r: Result<(), TetError>)
    ensures
        r is Ok <==> spec_slice_json_ok(sl@),
        r matches Err(e) ==> e is Validation && e->Validation_0@ == spec_slice_error(i, sl@),
{
    let mut msg = owned("selection[");
    push_decimal(&mut msg, i as u64);
    push_str(&mut msg, "]");
    if sl.step == Some(0u64) {
        push_str(&mut msg, ".step must be >= 1, got 0");
        return Err(TetError::Validation(msg));
    }
    if sl.start.is_some() && sl.start_label.is_some() {
        push_str(&mut msg, ": use either `start` or `start_label`, not both");
        return Err(TetError::Validation(msg));
    }
    if sl.stop.is_some() && sl.stop_label.is_some() {
        push_str(&mut msg, ": use either `stop` or `stop_label`, not both");
        return Err(TetError::Validation(msg));
    }
    match (sl.start, sl.stop) {
        (Some(a), Some(b)) => if a >= b {
            push_str(&mut msg, ": start must be < stop when both set (got ");
            push_decimal(&mut msg, a);
            push_str(&mut msg, " >= ");
            push_decimal(&mut msg, b);
            push_str(&mut msg, ")");
            Err(TetError::Validation(msg))
        } else {
            Ok(())
        },
        _ => Ok(()),
    }
}

/// `write.path` only goes with the `spill` and `sidecar` targets.
pub open spec fn spec_write_hints_ok(w: crate::types::WriteHintsView) -> bool {
    (w.target == WriteTarget::Switch || w.target == WriteTarget::Ram) ==> w.path is None
}

/// Validate transform write hints.
pub fn validate_write_hints(w: &WriteHints) -> (r: Result<(), TetError>)
    ensures
        r is Ok <==> spec_write_hints_ok(w@),
        r matches Err(e) ==> e.is_validation(),
{
    match w.target {
        WriteTarget::Switch | WriteTarget::Ram => {
            if w.path.is_some() {
                return Err(TetError::Validation(String::from_str(
                    "`write.path` is only valid with `spill` or `sidecar` targets",
                )));
            }
        },
        WriteTarget::Spill | WriteTarget::Sidecar => {},
    }
    Ok(())
}

/// Maximum histogram bin count.
pub const MAX_HISTOGRAM_BINS: u32 = 4096;

/// Parameter rules: `q` in `[0, 1]`; `bins` in `[1, 4096]` with either no bounds or finite
/// `min < max`; covariance and correlation over exactly one observation axis.
pub open spec fn spec_op_params_ok(o: OperationView) -> bool {
    if o.kind == OpKind::Quantile {
        f64_le(F64_ZERO_BITS, o.q) && f64_le(o.q, F64_ONE_BITS)
    } else if o.kind == OpKind::Histogram {
        &&& 1 <= o.bins <= MAX_HISTOGRAM_BINS
        &&& match (o.min, o.max) {
            (Some(a), Some(b)) => f64_is_finite(a) && f64_is_finite(b) && f64_lt(a, b),
            (None, None) => true,
            _ => false,
        }
    } else if o.kind == OpKind::Covariance || o.kind == OpKind::Correlation {
        o.axes.len() == 1
    } else {
        true
    }
}

/// A quantile's `q` passes the parameter check exactly when it is a pattern of [0.0, 1.0]
/// (`-0.0` included); a document whose quantile lies outside, negative, above one or NaN, never
/// validates.
pub proof fn lemma_quantile_q_in_unit_interval(d: QueryDocView)
    requires
        d.operation matches Some(o) && o.kind == OpKind::Quantile,
    ensures
        spec_op_params_ok(d.operation->0) <==> (d.operation->0.q <= 0x3FF0_0000_0000_0000u64
            || d.operation->0.q == 0x8000_0000_0000_0000u64),
        !(d.operation->0.q <= 0x3FF0_0000_0000_0000u64 || d.operation->0.q
            == 0x8000_0000_0000_0000u64) ==> !spec_query_valid(d),
{
    crate::float_bits::lemma_f64_unit_interval(d.operation->0.q);
}

/// Validate the numeric parameters of an operation.
pub fn validate_operation_params(op: &Operation) -> (r: Result<(), TetError>)
    ensures
        r is Ok <==> spec_op_params_ok(op@),
        r matches Err(e) ==> e.is_validation(),
{
    match op {
        Operation::Quantile { q, .. } => {
            if !(f64_bits_le(F64_ZERO_BITS, *q) && f64_bits_le(*q, F64_ONE_BITS)) {
                return Err(TetError::Validation(String::from_str("quantile q must be in [0.0, 1.0]")));
            }
            Ok(())
        },
        Operation::Histogram { bins, min, max, .. } => {
            if *bins == 0 {
                return Err(TetError::Validation(String::from_str("histogram bins must be >= 1")));
            }
            if *bins > MAX_HISTOGRAM_BINS {
                let mut msg = owned("histogram bins exceeds maximum 4096 (got ");
                push_decimal(&mut msg, *bins as u64);
                push_str(&mut msg, ")");
                return Err(TetError::Validation(msg));
            }
            match (min, max) {
                (Some(a), Some(b)) => {
                    if !f64_bits_is_finite(*a) || !f64_bits_is_finite(*b) {
                        return Err(TetError::Validation(String::from_str("histogram min/max must be finite")));
                    }
                    if !f64_bits_lt(*a, *b) {
                        return Err(TetError::Validation(String::from_str("histogram min must be < max")));
                    }
                    Ok(())
                },
                (None, None) => Ok(()),
                _ => Err(TetError::Validation(String::from_str(
                    "histogram requires both `min` and `max` when either is set",
                ))),
            }
        },
        Operation::Covariance { axes } | Operation::Correlation { axes } => {
            if axes.len() != 1 {
                return Err(TetError::Validation(String::from_str(
                    "covariance / correlation need exactly one observation axis",
                )));
            }
            Ok(())
        },
        _ => Ok(()),
    }
}

/// Validate one operation axis label.
pub fn validate_operation_axis_token(s: &str) -> (r: Result<(), TetError>)
    ensures
        r is Ok <==> valid_axis_token(s@),
        r matches Err(e) ==> e.is_validation(),
        s@.len() == 0 ==> (r matches Err(e) && e->Validation_0@
            == "operation axis label must not be empty"@),
        s@.len() > 0 && byte_len(s@) > MAX_AXIS_LABEL_BYTES ==> (r matches Err(e)
            && e->Validation_0@ == "operation axis label exceeds maximum length ("@ + decimal(
            byte_len(s@) as nat,
        ) + " > 32)"@),
{
    if s.unicode_len() == 0 {
        return Err(TetError::Validation(String::from_str("operation axis label must not be empty")));
    }
    let len = str_byte_len(s);
    if len > MAX_AXIS_LABEL_BYTES {
        let mut msg = owned("operation axis label exceeds maximum length (");
        push_decimal(&mut msg, len as u64);
        push_str(&mut msg, " > 32)");
        return Err(TetError::Validation(msg));
    }
    validate_axis_label_token(s)
}

/// At most [`MAX_NDIM`] axes, each a valid axis label.
pub open spec fn spec_op_axes_ok(axes: Seq<Seq<char>>) -> bool {
    axes.len() <= MAX_NDIM && forall|i: int| 0 <= i < axes.len() ==> valid_axis_token(
        #[trigger] axes[i],
    )
}

/// Validate the axis list of an operation.
pub fn validate_operation_axes_v1(op: &Operation) -> (r: Result<(), TetError>)
    ensures
        r is Ok <==> spec_op_axes_ok(op@.axes),
        r matches Err(e) ==> e.is_validation(),
{
    let axes = op.axes();
    proof {
        lemma_op_view_axes(op);
    }
    if axes.len() > MAX_NDIM {
        let mut msg = owned("operation has ");
        push_decimal(&mut msg, axes.len() as u64);
        push_str(&mut msg, " axes; maximum is 8");
        return Err(TetError::Validation(msg));
    }
    let mut i: usize = 0;
    while i < axes.len()
        invariant
            0 <= i <= axes@.len(),
            strs(axes@) == op@.axes,
            forall|k: int| 0 <= k < i ==> valid_axis_token(#[trigger] op@.axes[k]),
        decreases axes@.len() - i,
    {
        assert(op@.axes[i as int] == axes@[i as int]@);
        validate_operation_axis_token(axes[i].as_str())?;
        i += 1;
    }
    Ok(())
}

/// The view of an operation lists its axis labels.
pub proof fn lemma_op_view_axes(op: &Operation)
    ensures
        op@.axes == strs(op.spec_axes()),
{
}

/// The `dataset` name is non-blank and at most [`MAX_NAME_BYTES`] bytes.
pub open spec fn spec_name_ok(d: QueryDocView) -> bool {
    !all_ws(d.dataset) && byte_len(d.dataset) <= MAX_NAME_BYTES
}

/// The selection, if any, has at most [`MAX_NDIM`] axes, each valid.
pub open spec fn spec_selection_ok(d: QueryDocView) -> bool {
    d.selection matches Some(s) ==> (s.len() <= MAX_NDIM && forall|i: int|
        0 <= i < s.len() ==> spec_slice_json_ok(#[trigger] s[i]))
}

/// The operation, if any, has valid axes and parameters.
pub open spec fn spec_operation_ok(d: QueryDocView) -> bool {
    d.operation matches Some(o) ==> (spec_op_axes_ok(o.axes) && spec_op_params_ok(o))
}

/// A document passes validation: non-blank `dataset` of at most [`MAX_NAME_BYTES`] bytes,
/// at most [`MAX_NDIM`] valid selection axes, a valid operation, `write` only (and optionally)
/// with a transform, which takes no `spill`, and never both `spill` and `write`.
pub open spec fn spec_query_valid(d: QueryDocView) -> bool {
    &&& spec_name_ok(d)
    &&& spec_selection_ok(d)
    &&& match d.operation {
        Some(o) => {
            &&& spec_op_axes_ok(o.axes)
            &&& spec_op_params_ok(o)
            &&& if o.kind == OpKind::Transform {
                d.output is None && (d.write matches Some(w) ==> spec_write_hints_ok(w))
            } else {
                d.write is None
            }
        },
        None => d.write is None,
    }
    &&& !(d.output is Some && d.write is Some)
}

fn validate_selection(axes: &Vec<AxisSlice>) -> (r: Result<(), TetError>)
    ensures
        r is Ok <==> (axes@.len() <= MAX_NDIM && forall|i: int|
            0 <= i < axes@.len() ==> spec_slice_json_ok(#[trigger] axes@[i]@)),
        r matches Err(e) ==> e.is_validation(),
        axes@.len() > MAX_NDIM ==> (r matches Err(TetError::Validation(m)) && m@
            == "selection rank "@ + decimal(axes@.len()) + " exceeds maximum 8"@),
{
    if axes.len() > MAX_NDIM {
        let mut msg = owned("selection rank ");
        push_decimal(&mut msg, axes.len() as u64);
        push_str(&mut msg, " exceeds maximum 8");
        assert(msg@ == "selection rank "@ + decimal(axes@.len()) + " exceeds maximum 8"@);
        return Err(TetError::Validation(msg));
    }
    let mut i: usize = 0;
    while i < axes.len()
        invariant
            0 <= i <= axes@.len(),
            axes@.len() <= MAX_NDIM,
            forall|k: int| 0 <= k < i ==> spec_slice_json_ok(#[trigger] axes@[k]@),
        decreases axes@.len() - i,
    {
        validate_axis_slice_json(i, &axes[i])?;
        i += 1;
    }
    Ok(())
}

/// Validate a parsed query document.
pub fn validate_query(doc: &QueryDocument) -> (r: Result<(), TetError>)
    ensures
        r is Ok <==> spec_query_valid(doc@),
        r matches Err(e) ==> e.is_validation(),
        all_ws(doc@.dataset) ==> (r matches Err(TetError::Validation(m)) && m@
            == "`dataset` must be a non-empty string"@),
        !all_ws(doc@.dataset) && byte_len(doc@.dataset) > MAX_NAME_BYTES ==> (r matches Err(
            TetError::Validation(m),
        ) && m@ == "`dataset` name exceeds maximum length ("@ + decimal(
            byte_len(doc@.dataset) as nat,
        ) + " > 1024)"@),
        spec_name_ok(doc@) && (doc@.selection matches Some(s) && s.len() > MAX_NDIM) ==> (r matches Err(
            TetError::Validation(m),
        ) && m@ == "selection rank "@ + decimal(doc@.selection->0.len()) + " exceeds maximum 8"@),
        spec_name_ok(doc@) && spec_selection_ok(doc@) && spec_operation_ok(doc@) && (
        doc@.operation matches Some(o) && o.kind == OpKind::Transform) && doc@.output is Some ==> (
        r matches Err(TetError::Validation(m)) && m@
            == "transform operations use top-level `write`, not `spill`"@),
        spec_name_ok(doc@) && spec_selection_ok(doc@) && spec_operation_ok(doc@) && (
        doc@.operation matches Some(o) && o.kind != OpKind::Transform) && doc@.write is Some ==> (
        r matches Err(TetError::Validation(m)) && m@
            == "`write` is only valid with `zscore` or `min_max_normalize`"@),
        spec_name_ok(doc@) && spec_selection_ok(doc@) && doc@.operation is None && doc@.write is Some
            ==> (r matches Err(TetError::Validation(m)) && m@
            == "`write` requires a transform operation (`zscore` or `min_max_normalize`)"@),
{
    if is_blank(doc.dataset.as_str()) {
        return Err(TetError::Validation(String::from_str("`dataset` must be a non-empty string")));
    }
    let name_len = str_byte_len(doc.dataset.as_str());
    if name_len > MAX_NAME_BYTES {
        let mut msg = owned("`dataset` name exceeds maximum length (");
        push_decimal(&mut msg, name_len as u64);
        push_str(&mut msg, " > 1024)");
        return Err(TetError::Validation(msg));
    }
    match &doc.selection {
        Some(axes) => {
            proof {
                let sv = axes@.map_values(|a: AxisSlice| a@);
                assert(sv.len() == axes@.len());
                assert forall|k: int| 0 <= k < sv.len() implies sv[k] == axes@[k]@ by {}
            }
            match validate_selection(axes) {
                Ok(()) => {},
                Err(e) => {
                    proof {
                        let sv = axes@.map_values(|a: AxisSlice| a@);
                        if axes@.len() <= MAX_NDIM {
                            let w = choose|k: int|
                                0 <= k < axes@.len() && !spec_slice_json_ok(#[trigger] axes@[k]@);
                            assert(!spec_slice_json_ok(sv[w]));
                        }
                    }
                    return Err(e);
                },
            }
        },
        None => {},
    }
    match &doc.operation {
        Some(op) => {
            validate_operation_axes_v1(op)?;
            validate_operation_params(op)?;
            if op.requires_transform() {
                if doc.output.is_some() {
                    return Err(TetError::Validation(String::from_str(
                        "transform operations use top-level `write`, not `spill`",
                    )));
                }
                match &doc.write {
                    Some(w) => validate_write_hints(w)?,
                    None => {},
                }
            } else if doc.write.is_some() {
                return Err(TetError::Validation(String::from_str(
                    "`write` is only valid with `zscore` or `min_max_normalize`",
                )));
            }
        },
        None => {
            if doc.write.is_some() {
                return Err(TetError::Validation(String::from_str(
                    "`write` requires a transform operation (`zscore` or `min_max_normalize`)",
                )));
            }
        },
    }
    if doc.output.is_some() && doc.write.is_some() {
        return Err(TetError::Validation(String::from_str(
            "query document must not set both `spill` and `write`",
        )));
    }
    Ok(())
}

} // verus!
