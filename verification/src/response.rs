//! Query responses: the plan echo, output formats, execution options and stderr hints.
use vstd::prelude::*;

use crate::info_report::{count_chunks, count_chunks_of, FileExecutionSettings, FileSummary};
use crate::partial_geometry::{shape_product, shape_product_usize};
use crate::text::{
    chars_of, lower_ascii_chars, lower_seq, owned, push_str, str_eq, string_from_chars,
};
use crate::types::{strs, Operation, QueryDocument, ReadPlan, TetError, DTYPE_F32};

verus! {

broadcast use vstd::string::group_string_axioms;

// ---------------------------------------------------------------------------------------------
// Copies with known contents

/// A copy of a list of strings.
pub fn copy_strings(v: &Vec<String>) -> (r: Vec<String>)
    ensures
        strs(r@) == strs(v@),
{
    let mut out: Vec<String> = Vec::new();
    let mut i: usize = 0;
    while i < v.len()
        invariant
            0 <= i <= v@.len(),
            strs(out@) == strs(v@.take(i as int)),
        decreases v@.len() - i,
    {
        let ghost before = out@;
        out.push(owned(v[i].as_str()));
        assert(strs(out@) =~= strs(before).push(v@[i as int]@));
        assert(strs(v@.take(i + 1)) =~= strs(v@.take(i as int)).push(v@[i as int]@));
        i += 1;
    }
    assert(v@.take(v@.len() as int) =~= v@);
    out
}

/// A copy of an operation.
pub fn copy_operation(op: &Operation) -> (r: Operation)
    ensures
        r@ == op@,
{
    match op {
        Operation::Sum { axes } => Operation::Sum { axes: copy_strings(axes) },
        Operation::Mean { axes } => Operation::Mean { axes: copy_strings(axes) },
        Operation::Min { axes } => Operation::Min { axes: copy_strings(axes) },
        Operation::Max { axes } => Operation::Max { axes: copy_strings(axes) },
        Operation::Count { axes } => Operation::Count { axes: copy_strings(axes) },
        Operation::Var { axes } => Operation::Var { axes: copy_strings(axes) },
        Operation::Std { axes } => Operation::Std { axes: copy_strings(axes) },
        Operation::Product { axes } => Operation::Product { axes: copy_strings(axes) },
        Operation::NormL1 { axes } => Operation::NormL1 { axes: copy_strings(axes) },
        Operation::NormL2 { axes } => Operation::NormL2 { axes: copy_strings(axes) },
        Operation::AllFinite { axes } => Operation::AllFinite { axes: copy_strings(axes) },
        Operation::AnyNan { axes } => Operation::AnyNan { axes: copy_strings(axes) },
        Operation::AnyInf { axes } => Operation::AnyInf { axes: copy_strings(axes) },
        Operation::ArgMin { axes } => Operation::ArgMin { axes: copy_strings(axes) },
        Operation::ArgMax { axes } => Operation::ArgMax { axes: copy_strings(axes) },
        Operation::Median { axes } => Operation::Median { axes: copy_strings(axes) },
        Operation::NanMean { axes } => Operation::NanMean { axes: copy_strings(axes) },
        Operation::NanStd { axes } => Operation::NanStd { axes: copy_strings(axes) },
        Operation::Quantile { axes, q } => Operation::Quantile { axes: copy_strings(axes), q: *q },
        Operation::Histogram { axes, bins, min, max } => Operation::Histogram {
            axes: copy_strings(axes),
            bins: *bins,
            min: *min,
            max: *max,
        },
        Operation::NanCount { axes } => Operation::NanCount { axes: copy_strings(axes) },
        Operation::InfCount { axes } => Operation::InfCount { axes: copy_strings(axes) },
        Operation::NullCount { axes, fill } => Operation::NullCount {
            axes: copy_strings(axes),
            fill: *fill,
        },
        Operation::Covariance { axes } => Operation::Covariance { axes: copy_strings(axes) },
        Operation::Correlation { axes } => Operation::Correlation { axes: copy_strings(axes) },
        Operation::Transform { method, axes } => Operation::Transform {
            method: *method,
            axes: copy_strings(axes),
        },
    }
}

// ---------------------------------------------------------------------------------------------
// Responses

/// How the requested dataset name resolved against a `.tet` catalog.
#[derive(Debug)]
pub struct DatasetResolution {
    /// The name is in the catalog.
    pub matched: bool,
    /// Position of the matched dataset in the catalog.
    pub dataset_index: Option<usize>,
    /// Element type tag of the matched dataset.
    pub dtype: Option<u32>,
    /// Extents of the matched dataset.
    pub shape: Option<Vec<u64>>,
    /// Chunk extents of the matched dataset.
    pub chunk_shape: Option<Vec<u64>>,
    /// Chunk index rows that belong to the matched dataset.
    pub chunk_index_rows: Option<usize>,
    /// Bytes of the whole matched dataset as `f32`, for an `f32` dataset whose size fits.
    pub dataset_f32_bytes: Option<u64>,
    /// The file's execution defaults.
    pub file_execution: Option<FileExecutionSettings>,
    /// Catalog dataset names, listed when the name did not match.
    pub available_datasets: Option<Vec<String>>,
}

/// Response to an accepted query: the document echo plus what planning found.
#[derive(Debug)]
pub struct QueryResponse {
    pub status: String,
    pub accepted: bool,
    pub layout_version: Option<u32>,
    pub dataset: String,
    /// Number of selection axes, when a selection was given.
    pub selection_axes: Option<usize>,
    pub operation: Option<Operation>,
    pub message: String,
    /// `.tet` path the query ran against.
    pub tet_file: Option<String>,
    pub catalog: Option<DatasetResolution>,
    pub read_plan: Option<ReadPlan>,
}

/// Message of a plan made without a `.tet` file.
pub open spec fn spec_empty_plan_message() -> Seq<char> {
    "query accepted and validated; pass `--tet PATH` for catalog + read_plan, or add `--execute` with `--tet` for a capped raw f32 mmap preview"@
}

/// An accepted, planned response echoing `doc` with the given message, path, catalog and plan.
pub fn query_response(
    doc: &QueryDocument,
    message: String,
    tet_path: Option<&str>,
    catalog: Option<DatasetResolution>,
    read_plan: Option<ReadPlan>,
) -> (r: QueryResponse)
    ensures
        r.status@ == "planned"@,
        r.accepted,
        r.layout_version == doc.layout_version,
        r.dataset@ == doc.dataset@,
        r.selection_axes == match doc.selection {
            Some(v) => Some(v@.len() as usize),
            None => None,
        },
        match r.operation {
            Some(o) => doc.operation matches Some(d) && o@ == d@,
            None => doc.operation is None,
        },
        r.message == message,
        match r.tet_file {
            Some(t) => tet_path matches Some(p) && t@ == p@,
            None => tet_path is None,
        },
        r.catalog == catalog,
        r.read_plan == read_plan,
{
    let selection_axes = match &doc.selection {
        Some(v) => Some(v.len()),
        None => None,
    };
    let operation = match &doc.operation {
        Some(o) => Some(copy_operation(o)),
        None => None,
    };
    let tet_file = match tet_path {
        Some(p) => Some(owned(p)),
        None => None,
    };
    QueryResponse {
        status: owned("planned"),
        accepted: true,
        layout_version: doc.layout_version,
        dataset: owned(doc.dataset.as_str()),
        selection_axes,
        operation,
        message,
        tet_file,
        catalog,
        read_plan,
    }
}

/// Response echoing the plan without consulting a `.tet` file.
pub fn plan_query_empty(doc: &QueryDocument) -> (r: QueryResponse)
    ensures
        r.status@ == "planned"@,
        r.accepted,
        r.layout_version == doc.layout_version,
        r.dataset@ == doc.dataset@,
        r.selection_axes == match doc.selection {
            Some(v) => Some(v@.len() as usize),
            None => None,
        },
        match r.operation {
            Some(o) => doc.operation matches Some(d) && o@ == d@,
            None => doc.operation is None,
        },
        r.message@ == spec_empty_plan_message(),
        r.tet_file is None,
        r.catalog is None,
        r.read_plan is None,
{
    query_response(
        doc,
        owned(
            "query accepted and validated; pass `--tet PATH` for catalog + read_plan, or add `--execute` with `--tet` for a capped raw f32 mmap preview",
        ),
        None,
        None,
        None,
    )
}

/// Message of a response for a dataset name the catalog does not have.
pub open spec fn spec_unmatched_message() -> Seq<char> {
    "query accepted; dataset name not found in this file (see catalog.available_datasets)"@
}

/// Names of the catalog's datasets, in catalog order.
pub open spec fn dataset_names(s: &FileSummary) -> Seq<Seq<char>> {
    s.datasets@.map_values(|d: crate::info::DatasetListing| d.name@)
}

/// Response for a dataset name that `summary` does not have: not matched, with the file's
/// execution defaults and every dataset name, and no plan.
pub fn plan_query_unmatched_dataset(
    doc: &QueryDocument,
    tet_path: Option<&str>,
    summary: &FileSummary,
) -> (r: QueryResponse)
    ensures
        r.status@ == "planned"@,
        r.accepted,
        r.layout_version == doc.layout_version,
        r.dataset@ == doc.dataset@,
        r.selection_axes == match doc.selection {
            Some(v) => Some(v@.len() as usize),
            None => None,
        },
        match r.operation {
            Some(o) => doc.operation matches Some(d) && o@ == d@,
            None => doc.operation is None,
        },
        r.message@ == spec_unmatched_message(),
        match r.tet_file {
            Some(t) => tet_path matches Some(p) && t@ == p@,
            None => tet_path is None,
        },
        r.catalog matches Some(c) && !c.matched && c.dataset_index is None && c.dtype is None
            && c.shape is None && c.chunk_shape is None && c.chunk_index_rows is None
            && c.dataset_f32_bytes is None && c.file_execution == Some(summary.file_execution)
            && (c.available_datasets matches Some(names) && strs(names@) == dataset_names(summary)),
        r.read_plan is None,
{
    let mut names: Vec<String> = Vec::new();
    let mut i: usize = 0;
    while i < summary.datasets.len()
        invariant
            0 <= i <= summary.datasets@.len(),
            strs(names@) == dataset_names(summary).take(i as int),
        decreases summary.datasets@.len() - i,
    {
        let ghost before = names@;
        names.push(owned(summary.datasets[i].name.as_str()));
        assert(strs(names@) =~= strs(before).push(summary.datasets@[i as int].name@));
        assert(dataset_names(summary).take(i + 1) =~= dataset_names(summary).take(i as int).push(
            summary.datasets@[i as int].name@,
        ));
        i += 1;
    }
    assert(dataset_names(summary).take(summary.datasets@.len() as int) =~= dataset_names(summary));
    query_response(
        doc,
        owned("query accepted; dataset name not found in this file (see catalog.available_datasets)"),
        tet_path,
        Some(
            DatasetResolution {
                matched: false,
                dataset_index: None,
                dtype: None,
                shape: None,
                chunk_shape: None,
                chunk_index_rows: None,
                dataset_f32_bytes: None,
                file_execution: Some(summary.file_execution),
                available_datasets: Some(names),
            },
        ),
        None,
    )
}

/// A copy of a list of extents.
fn copy_extents(v: &Vec<u64>) -> (r: Vec<u64>)
    ensures
        r@ == v@,
{
    let mut out: Vec<u64> = Vec::new();
    let mut i: usize = 0;
    while i < v.len()
        invariant
            0 <= i <= v@.len(),
            out@ == v@.take(i as int),
        decreases v@.len() - i,
    {
        out.push(v[i]);
        assert(v@.take(i + 1) =~= v@.take(i as int).push(v@[i as int]));
        i += 1;
    }
    assert(v@.take(v@.len() as int) =~= v@);
    out
}

/// Bytes of a dataset of `shape` as `f32`: four per element, when that fits in `u64` and
/// the element count in `usize`.
pub open spec fn spec_f32_tensor_bytes(shape: Seq<u64>) -> Option<u64> {
    if shape_product(shape) <= usize::MAX && 4 * shape_product(shape) <= u64::MAX {
        Some((4 * shape_product(shape)) as u64)
    } else {
        None
    }
}

/// `f32` bytes of a dataset of `shape` ([`spec_f32_tensor_bytes`]).
pub fn f32_tensor_bytes_from_shape(shape: &Vec<u64>) -> (r: Option<u64>)
    ensures
        r == spec_f32_tensor_bytes(shape@),
{
    match shape_product_usize(shape.as_slice()) {
        Ok(n) => {
            if n as u64 <= u64::MAX / 4 {
                Some(4 * (n as u64))
            } else {
                None
            }
        },
        Err(_) => None,
    }
}

/// Message of a response for a matched dataset: the plan, and what execution attached when a
/// preview limit was passed.
pub open spec fn spec_matched_message(has_operation: bool, preview_max: Option<usize>) -> Seq<char> {
    let base = "query accepted; dataset matched; read_plan lists mmap payload regions for touched chunks"@;
    match preview_max {
        None => base,
        Some(_) => if has_operation {
            base + "; operation executed (see execution.memory_strategy and operation_*)"@
        } else {
            base + "; mmap f32 preview attached (see execution)"@
        },
    }
}

/// Message when an operation comes without a preview limit.
pub open spec fn spec_operation_needs_limit_message() -> Seq<char> {
    "`operation` requires mmap execution with an explicit preview limit (e.g. `--execute --preview-f32 64`, or `--preview-f32 0` to omit preview floats)"@
}

/// Message when the preview limit is 0 and there is no operation.
pub open spec fn spec_empty_preview_message() -> Seq<char> {
    "preview limit 0 without `operation` would attach an empty execution block; omit `--execute` or use a positive `--preview-f32`"@
}

/// Response for a dataset the catalog has, at position `dataset_idx`, with the read plan the
/// selection gives. An operation needs a preview limit (`Some(0)` runs it without preview
/// values); a limit of 0 without an operation is refused. On success the catalog is matched
/// and describes the dataset: position, element type, shapes, its chunk index rows, its `f32`
/// size for an `f32` dataset, and the file's execution defaults.
pub fn plan_query_matched_response(
    doc: &QueryDocument,
    tet_path: Option<&str>,
    summary: &FileSummary,
    dataset_idx: usize,
    read_plan: ReadPlan,
    preview_max: Option<usize>,
) -> (r: Result<QueryResponse, TetError>)
    requires
        dataset_idx < summary.datasets@.len(),
    ensures
        r is Err <==> ((doc.operation is Some && preview_max is None) || (doc.operation is None
            && preview_max == Some(0usize))),
        doc.operation is Some && preview_max is None ==> (r matches Err(TetError::Validation(m))
            && m@ == spec_operation_needs_limit_message()),
        doc.operation is None && preview_max == Some(0usize) ==> (r matches Err(
            TetError::Validation(m),
        ) && m@ == spec_empty_preview_message()),
        r matches Ok(resp) ==> {
            let rec = summary.datasets@[dataset_idx as int];
            &&& resp.status@ == "planned"@
            &&& resp.accepted
            &&& resp.layout_version == doc.layout_version
            &&& resp.dataset@ == doc.dataset@
            &&& resp.selection_axes == match doc.selection {
                Some(v) => Some(v@.len() as usize),
                None => None,
            }
            &&& match resp.operation {
                Some(o) => doc.operation matches Some(d) && o@ == d@,
                None => doc.operation is None,
            }
            &&& resp.message@ == spec_matched_message(doc.operation is Some, preview_max)
            &&& match resp.tet_file {
                Some(t) => tet_path matches Some(p) && t@ == p@,
                None => tet_path is None,
            }
            &&& resp.catalog matches Some(c) && c.matched && c.dataset_index == Some(dataset_idx)
                && c.dtype == Some(rec.dtype) && (c.shape matches Some(sh) && sh@ == rec.shape@)
                && (c.chunk_shape matches Some(cs) && cs@ == rec.chunk_shape@)
                && c.chunk_index_rows == Some(count_chunks_of(summary.chunks@, dataset_idx as int) as usize)
                && c.dataset_f32_bytes == (if rec.dtype == DTYPE_F32 {
                    spec_f32_tensor_bytes(rec.shape@)
                } else {
                    None
                }) && c.file_execution == Some(summary.file_execution)
                && c.available_datasets is None
            &&& resp.read_plan == Some(read_plan)
        },
{
    if doc.operation.is_some() && preview_max.is_none() {
        return Err(TetError::Validation(String::from_str(
            "`operation` requires mmap execution with an explicit preview limit (e.g. `--execute --preview-f32 64`, or `--preview-f32 0` to omit preview floats)",
        )));
    }
    let mut message = owned(
        "query accepted; dataset matched; read_plan lists mmap payload regions for touched chunks",
    );
    match preview_max {
        None => {},
        Some(limit) => {
            if limit == 0 && doc.operation.is_none() {
                return Err(TetError::Validation(String::from_str(
                    "preview limit 0 without `operation` would attach an empty execution block; omit `--execute` or use a positive `--preview-f32`",
                )));
            }
            if doc.operation.is_some() {
                push_str(&mut message, "; operation executed (see execution.memory_strategy and operation_*)");
            } else {
                push_str(&mut message, "; mmap f32 preview attached (see execution)");
            }
        },
    }
    let rec = &summary.datasets[dataset_idx];
    let rows = count_chunks(&summary.chunks, dataset_idx);
    let f32_bytes = if rec.dtype == DTYPE_F32 {
        f32_tensor_bytes_from_shape(&rec.shape)
    } else {
        None
    };
    let catalog = DatasetResolution {
        matched: true,
        dataset_index: Some(dataset_idx),
        dtype: Some(rec.dtype),
        shape: Some(copy_extents(&rec.shape)),
        chunk_shape: Some(copy_extents(&rec.chunk_shape)),
        chunk_index_rows: Some(rows as usize),
        dataset_f32_bytes: f32_bytes,
        file_execution: Some(summary.file_execution),
        available_datasets: None,
    };
    Ok(query_response(doc, message, tet_path, Some(catalog), Some(read_plan)))
}

// ---------------------------------------------------------------------------------------------
// Hints

/// The text `format!("{:?}", s)` gives for a string (quoted, with escapes).
pub uninterp spec fn str_debug(s: Seq<char>) -> Seq<char>;

/// `format!("{:?}", s)`.
///
/// Claims only that the text is [`str_debug`] of `s`; the quoting and escaping rules of `Debug`
/// for `str` are not stated here.
#[verifier::external_body]
pub(crate) fn debug_quoted(s: &str) -> (r: String)
    ensures
        r@ == str_debug(s@),
{
    format!("{:?}", s)
}

/// `  name\n` for each name.
pub open spec fn name_lines(names: Seq<Seq<char>>) -> Seq<char>
    decreases names.len(),
{
    if names.len() == 0 {
        Seq::empty()
    } else {
        name_lines(names.drop_last()) + "  "@ + names.last() + "\n"@
    }
}

/// Stderr hint when the dataset name is missing from the catalog: `None` without a catalog
/// resolution or when the name matched.
pub open spec fn spec_catalog_miss_hint(r: QueryResponse) -> Option<Seq<char>> {
    match r.catalog {
        None => None,
        Some(c) => if c.matched {
            None
        } else {
            let head = "hint: dataset "@ + str_debug(r.dataset@) + " not found in this .tet\n"@;
            match c.available_datasets {
                None => Some(head),
                Some(names) => Some(
                    head + "available datasets:\n"@ + name_lines(strs(names@)) + match r.tet_file {
                        Some(t) => "tip: run `tet info "@ + t@ + "` to list catalog datasets\n"@,
                        None => "tip: run `tet info <path.tet>` to list catalog datasets\n"@,
                    },
                ),
            }
        },
    }
}

/// Human-oriented stderr when the dataset name is missing from the `.tet` catalog.
pub fn format_catalog_miss_hint(response: &QueryResponse) -> (r: Option<String>)
    ensures
        match r {
            Some(s) => spec_catalog_miss_hint(*response) == Some(s@),
            None => spec_catalog_miss_hint(*response) is None,
        },
{
    let catalog = match &response.catalog {
        None => {
            return None;
        },
        Some(c) => c,
    };
    if catalog.matched {
        return None;
    }
    let mut out = owned("hint: dataset ");
    let quoted = debug_quoted(response.dataset.as_str());
    push_str(&mut out, quoted.as_str());
    push_str(&mut out, " not found in this .tet\n");
    match &catalog.available_datasets {
        None => {},
        Some(names) => {
            push_str(&mut out, "available datasets:\n");
            let ghost before = out@;
            let mut i: usize = 0;
            while i < names.len()
                invariant
                    0 <= i <= names@.len(),
                    out@ == before + name_lines(strs(names@.take(i as int))),
                decreases names@.len() - i,
            {
                proof {
                    assert(strs(names@.take(i + 1)).drop_last() =~= strs(names@.take(i as int)));
                }
                push_str(&mut out, "  ");
                push_str(&mut out, names[i].as_str());
                push_str(&mut out, "\n");
                proof {
                    assert(out@ =~= before + name_lines(strs(names@.take(i + 1))));
                }
                i += 1;
            }
            assert(names@.take(names@.len() as int) =~= names@);
            match &response.tet_file {
                Some(t) => {
                    push_str(&mut out, "tip: run `tet info ");
                    push_str(&mut out, t.as_str());
                    push_str(&mut out, "` to list catalog datasets\n");
                },
                None => {
                    push_str(&mut out, "tip: run `tet info <path.tet>` to list catalog datasets\n");
                },
            }
        },
    }
    proof {
        assert(out@ =~= spec_catalog_miss_hint(*response)->0);
    }
    Some(out)
}

/// Optional stderr text after a successful query (the catalog-miss hint).
pub fn format_query_stderr_hints(response: &QueryResponse) -> (r: Option<String>)
    ensures
        match r {
            Some(s) => spec_catalog_miss_hint(*response) == Some(s@),
            None => spec_catalog_miss_hint(*response) is None,
        },
{
    format_catalog_miss_hint(response)
}

// ---------------------------------------------------------------------------------------------
// Output formats and options

/// How the query command formats stdout (errors stay on stderr).
#[derive(Debug, Clone, Copy, PartialEq, Eq, Structural)]
pub enum QueryOutputFormat {
    /// Pretty-printed full response (default).
    Full,
    /// Compact single-line JSON of the full response.
    Json,
    /// Slim JSON: plan summary + aggregates.
    Stats,
    /// Slim JSON: catalog + `read_plan` only.
    Plan,
    /// One human-readable line.
    Quiet,
    /// ASCII tables.
    Table,
}

impl Default for QueryOutputFormat {
    fn default() -> (r: Self)
        ensures
            r == QueryOutputFormat::Full,
    {
        QueryOutputFormat::Full
    }
}

/// Output format named by a token (ASCII case ignored).
pub open spec fn spec_output_format(s: Seq<char>) -> Option<QueryOutputFormat> {
    let t = lower_seq(s);
    if t == "full"@ {
        Some(QueryOutputFormat::Full)
    } else if t == "json"@ {
        Some(QueryOutputFormat::Json)
    } else if t == "stats"@ {
        Some(QueryOutputFormat::Stats)
    } else if t == "plan"@ {
        Some(QueryOutputFormat::Plan)
    } else if t == "quiet"@ {
        Some(QueryOutputFormat::Quiet)
    } else if t == "table"@ {
        Some(QueryOutputFormat::Table)
    } else {
        None
    }
}

impl QueryOutputFormat {
    /// Parse `full`, `json`, `stats`, `plan`, `quiet` or `table` (ASCII case ignored); other
    /// text gives an error message.
    pub fn parse(s: &str) -> (r: Result<QueryOutputFormat, String>)
        ensures
            r is Ok <==> spec_output_format(s@) is Some,
            r matches Ok(f) ==> spec_output_format(s@) == Some(f),
            r matches Err(m) ==> m@ == "unknown output format "@ + str_debug(lower_seq(s@))
                + "; expected full, json, stats, plan, quiet, or table"@,
    {
        let lowered = string_from_chars(&lower_ascii_chars(&chars_of(s)));
        let t = lowered.as_str();
        if str_eq(t, "full") {
            Ok(QueryOutputFormat::Full)
        } else if str_eq(t, "json") {
            Ok(QueryOutputFormat::Json)
        } else if str_eq(t, "stats") {
            Ok(QueryOutputFormat::Stats)
        } else if str_eq(t, "plan") {
            Ok(QueryOutputFormat::Plan)
        } else if str_eq(t, "quiet") {
            Ok(QueryOutputFormat::Quiet)
        } else if str_eq(t, "table") {
            Ok(QueryOutputFormat::Table)
        } else {
            let mut msg = owned("unknown output format ");
            let quoted = debug_quoted(t);
            push_str(&mut msg, quoted.as_str());
            push_str(&mut msg, "; expected full, json, stats, plan, quiet, or table");
            Err(msg)
        }
    }
}

impl std::str::FromStr for QueryOutputFormat {
    type Err = String;

    fn from_str(s: &str) -> (r: Result<QueryOutputFormat, String>)
        ensures
            r is Ok <==> spec_output_format(s@) is Some,
            r matches Ok(f) ==> spec_output_format(s@) == Some(f),
            r matches Err(m) ==> m@ == "unknown output format "@ + str_debug(lower_seq(s@))
                + "; expected full, json, stats, plan, quiet, or table"@,
    {
        QueryOutputFormat::parse(s)
    }
}

/// Options for running a document against a `.tet` file.
#[derive(Debug, Clone, Copy, PartialEq, Eq, Structural)]
pub struct ExecuteQueryOptions {
    /// Preview element cap when the document has an `operation` (`Some(0)` skips preview
    /// values); `None` plans only.
    pub preview_max: Option<usize>,
}

impl Default for ExecuteQueryOptions {
    fn default() -> (r: Self)
        ensures
            r.preview_max == Some(0usize),
    {
        ExecuteQueryOptions { preview_max: Some(0) }
    }
}

impl ExecuteQueryOptions {
    /// No preview values; aggregates still run when the document has an operation.
    pub fn execute_no_preview() -> (r: Self)
        ensures
            r.preview_max == Some(0usize),
    {
        ExecuteQueryOptions { preview_max: Some(0) }
    }

    /// Plan + catalog only.
    pub fn plan_only() -> (r: Self)
        ensures
            r.preview_max is None,
    {
        ExecuteQueryOptions { preview_max: None }
    }
}

} // verus!
