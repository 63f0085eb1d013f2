//! Core data model of a query: element types, read plans, documents, hints and errors.
//!
//! Floating-point parameters (`q`, histogram bounds, null fill) are carried as their
//! IEEE-754 binary64 bit patterns (`u64`); the predicates the engine needs on them live in
//! [`crate::float_bits`].
use vstd::prelude::*;

verus! {

/// Error returned by query parsing, validation, planning and execution.
#[derive(Debug)]
pub enum TetError {
    /// The document or a selection is semantically invalid.
    Validation(String),
    /// The text is not well-formed JSON / TOML.
    InvalidJson(String),
}

impl TetError {
    pub open spec fn is_validation(&self) -> bool {
        self is Validation
    }
}

/// Element type of a dataset payload.
#[derive(Clone, Copy, PartialEq, Eq, Debug, Structural)]
pub enum ElementDtype {
    F32,
    F64,
    I32,
    I64,
    U8,
    U16,
    I16,
    U32,
    U64,
    F16,
}

/// Wire tags of the element types (dataset records store the tag).
pub const DTYPE_F32: u32 = 0;
pub const DTYPE_F64: u32 = 1;
pub const DTYPE_I32: u32 = 2;
pub const DTYPE_I64: u32 = 3;
pub const DTYPE_U8: u32 = 4;
pub const DTYPE_U16: u32 = 5;
pub const DTYPE_I16: u32 = 6;
pub const DTYPE_U32: u32 = 7;
pub const DTYPE_U64: u32 = 8;
pub const DTYPE_F16: u32 = 9;

/// Chunk payload codec tags.
pub const CODEC_RAW: u32 = 0;
pub const CODEC_ZSTD: u32 = 1;

/// Maximum tensor rank supported by the catalog.
pub const MAX_NDIM: usize = 8;

impl ElementDtype {
    pub open spec fn spec_elem_size(self) -> nat {
        match self {
            ElementDtype::U8 => 1,
            ElementDtype::U16 | ElementDtype::I16 | ElementDtype::F16 => 2,
            ElementDtype::F32 | ElementDtype::I32 | ElementDtype::U32 => 4,
            ElementDtype::F64 | ElementDtype::I64 | ElementDtype::U64 => 8,
        }
    }

    pub open spec fn spec_from_wire(tag: u32) -> Option<ElementDtype> {
        if tag == DTYPE_F32 {
            Some(ElementDtype::F32)
        } else if tag == DTYPE_F64 {
            Some(ElementDtype::F64)
        } else if tag == DTYPE_I32 {
            Some(ElementDtype::I32)
        } else if tag == DTYPE_I64 {
            Some(ElementDtype::I64)
        } else if tag == DTYPE_U8 {
            Some(ElementDtype::U8)
        } else if tag == DTYPE_U16 {
            Some(ElementDtype::U16)
        } else if tag == DTYPE_I16 {
            Some(ElementDtype::I16)
        } else if tag == DTYPE_U32 {
            Some(ElementDtype::U32)
        } else if tag == DTYPE_U64 {
            Some(ElementDtype::U64)
        } else if tag == DTYPE_F16 {
            Some(ElementDtype::F16)
        } else {
            None
        }
    }

    /// Bytes per element.
    pub fn elem_size(self) -> (r: usize)
        ensures
            r == self.spec_elem_size(),
            1 <= r <= 8,
    {
        match self {
            ElementDtype::U8 => 1,
            ElementDtype::U16 | ElementDtype::I16 | ElementDtype::F16 => 2,
            ElementDtype::F32 | ElementDtype::I32 | ElementDtype::U32 => 4,
            ElementDtype::F64 | ElementDtype::I64 | ElementDtype::U64 => 8,
        }
    }

    /// Total bytes of `count` elements, `None` when the product overflows `u64`.
    pub fn bytes_from_elem_count(self, count: u64) -> (r: Option<u64>)
        ensures
            r matches Some(b) ==> b == count * self.spec_elem_size(),
            r is None <==> count * self.spec_elem_size() > u64::MAX,
    {
        let sz = self.elem_size() as u64;
        count.checked_mul(sz)
    }

    /// Element type for a dataset wire tag.
    pub fn from_wire(tag: u32) -> (r: Result<ElementDtype, TetError>)
        ensures
            r matches Ok(d) ==> Self::spec_from_wire(tag) == Some(d),
            r is Err <==> Self::spec_from_wire(tag) is None,
            r matches Err(e) ==> e.is_validation(),
    {
        if tag == DTYPE_F32 {
            Ok(ElementDtype::F32)
        } else if tag == DTYPE_F64 {
            Ok(ElementDtype::F64)
        } else if tag == DTYPE_I32 {
            Ok(ElementDtype::I32)
        } else if tag == DTYPE_I64 {
            Ok(ElementDtype::I64)
        } else if tag == DTYPE_U8 {
            Ok(ElementDtype::U8)
        } else if tag == DTYPE_U16 {
            Ok(ElementDtype::U16)
        } else if tag == DTYPE_I16 {
            Ok(ElementDtype::I16)
        } else if tag == DTYPE_U32 {
            Ok(ElementDtype::U32)
        } else if tag == DTYPE_U64 {
            Ok(ElementDtype::U64)
        } else if tag == DTYPE_F16 {
            Ok(ElementDtype::F16)
        } else {
            Err(TetError::Validation(String::from_str("unsupported dataset dtype tag")))
        }
    }
}

/// File-level execution defaults stored in the `.tet` header.
#[derive(Clone, Copy, PartialEq, Eq, Debug, Structural)]
pub struct FileExecutionSettingsV1 {
    /// Fixed budget in bytes (`0` = unset).
    pub memory_budget_bytes: u32,
    /// Budget as basis points of host RAM (`0` = unset).
    pub memory_budget_percent_bps: u16,
}

/// Engine default share of host RAM (25 %) in basis points.
pub const DEFAULT_MEMORY_BUDGET_PERCENT_BPS: u16 = 2500;

impl FileExecutionSettingsV1 {
    pub open spec fn spec_effective_percent_bps(self) -> u16 {
        if self.memory_budget_percent_bps == 0 {
            DEFAULT_MEMORY_BUDGET_PERCENT_BPS
        } else {
            self.memory_budget_percent_bps
        }
    }

    /// Engine defaults (nothing set in the file header).
    pub fn default_engine() -> (r: Self)
        ensures
            r.memory_budget_bytes == 0,
            r.memory_budget_percent_bps == 0,
    {
        FileExecutionSettingsV1 { memory_budget_bytes: 0, memory_budget_percent_bps: 0 }
    }

    /// Percent of host RAM in basis points, falling back to the engine default when unset.
    pub fn effective_percent_bps(&self) -> (r: u16)
        ensures
            r == self.spec_effective_percent_bps(),
    {
        if self.memory_budget_percent_bps == 0 {
            DEFAULT_MEMORY_BUDGET_PERCENT_BPS
        } else {
            self.memory_budget_percent_bps
        }
    }
}

/// Requested execution device (`execution.device`).
#[derive(Clone, Copy, PartialEq, Eq, Debug, Structural)]
pub enum ExecutionDeviceHint {
    Auto,
    Cpu,
    Metal,
    Cuda(usize),
    CudaMulti,
    Rocm(usize),
    RocmMulti,
}

/// Query-level execution hints (`execution` object).
#[derive(Clone, Copy, PartialEq, Eq, Debug, Structural)]
pub struct ExecutionHints {
    pub memory_budget_bytes: Option<u64>,
    pub memory_budget_percent_bps: Option<u16>,
    pub fold_parallel: Option<bool>,
    pub device: Option<ExecutionDeviceHint>,
}

/// One planned chunk payload region in the mapped file.
#[derive(Debug)]
pub struct PlannedChunkIo {
    /// Chunk grid coordinate, one entry per axis.
    pub chunk_index: Vec<u64>,
    pub payload_offset: u64,
    pub stored_byte_len: u64,
    pub raw_byte_len: u64,
    pub codec: u32,
}

/// Read plan: selection geometry plus the chunk payloads it touches.
#[derive(Debug)]
pub struct ReadPlan {
    pub dataset_shape: Vec<u64>,
    pub chunk_shape: Vec<u64>,
    pub selection_box_start: Vec<u64>,
    pub selection_box_stop_exclusive: Vec<u64>,
    pub selection_step: Vec<u64>,
    /// Extent of the selection along each axis (row-major logical tensor).
    pub logical_selection_shape: Vec<u64>,
    /// Number of logical elements in the selection.
    pub logical_f32_element_count: usize,
    pub chunks: Vec<PlannedChunkIo>,
    pub chunk_count: usize,
    pub total_stored_bytes: u64,
    /// Label of the rule that chose which chunks the plan touches.
    pub chunk_touch_policy: String,
}

impl ReadPlan {
    /// Every per-axis geometry vector has the dataset rank.
    pub open spec fn geometry_wf(&self) -> bool {
        let n = self.dataset_shape@.len();
        &&& self.chunk_shape@.len() == n
        &&& self.selection_box_start@.len() == n
        &&& self.selection_box_stop_exclusive@.len() == n
        &&& self.selection_step@.len() == n
        &&& self.logical_selection_shape@.len() == n
    }
}

/// One axis of a JSON `selection`.
#[derive(Clone, Debug)]
pub struct AxisSlice {
    pub start: Option<u64>,
    pub stop: Option<u64>,
    pub step: Option<u64>,
    pub start_label: Option<String>,
    pub stop_label: Option<String>,
}

/// Normalisation applied by a `transform` operation.
#[derive(Clone, Copy, PartialEq, Eq, Debug, Structural)]
pub enum TransformMethod {
    Zscore,
    MinMaxNormalize,
}

/// Reduction / statistic requested by a query document. Axis lists hold axis labels
/// (decimal indices). Floating parameters are IEEE-754 binary64 bit patterns.
#[derive(Clone, Debug)]
pub enum Operation {
    Sum { axes: Vec<String> },
    Mean { axes: Vec<String> },
    Min { axes: Vec<String> },
    Max { axes: Vec<String> },
    Count { axes: Vec<String> },
    Var { axes: Vec<String> },
    Std { axes: Vec<String> },
    Product { axes: Vec<String> },
    NormL1 { axes: Vec<String> },
    NormL2 { axes: Vec<String> },
    AllFinite { axes: Vec<String> },
    AnyNan { axes: Vec<String> },
    AnyInf { axes: Vec<String> },
    ArgMin { axes: Vec<String> },
    ArgMax { axes: Vec<String> },
    Median { axes: Vec<String> },
    NanMean { axes: Vec<String> },
    NanStd { axes: Vec<String> },
    Quantile { axes: Vec<String>, q: u64 },
    Histogram { axes: Vec<String>, bins: u32, min: Option<u64>, max: Option<u64> },
    NanCount { axes: Vec<String> },
    InfCount { axes: Vec<String> },
    NullCount { axes: Vec<String>, fill: Option<u64> },
    Covariance { axes: Vec<String> },
    Correlation { axes: Vec<String> },
    Transform { method: TransformMethod, axes: Vec<String> },
}

impl Operation {
    /// Axis labels of the operation.
    pub open spec fn spec_axes(&self) -> Seq<String> {
        match self {
            Operation::Sum { axes } => axes@,
            Operation::Mean { axes } => axes@,
            Operation::Min { axes } => axes@,
            Operation::Max { axes } => axes@,
            Operation::Count { axes } => axes@,
            Operation::Var { axes } => axes@,
            Operation::Std { axes } => axes@,
            Operation::Product { axes } => axes@,
            Operation::NormL1 { axes } => axes@,
            Operation::NormL2 { axes } => axes@,
            Operation::AllFinite { axes } => axes@,
            Operation::AnyNan { axes } => axes@,
            Operation::AnyInf { axes } => axes@,
            Operation::ArgMin { axes } => axes@,
            Operation::ArgMax { axes } => axes@,
            Operation::Median { axes } => axes@,
            Operation::NanMean { axes } => axes@,
            Operation::NanStd { axes } => axes@,
            Operation::Quantile { axes, .. } => axes@,
            Operation::Histogram { axes, .. } => axes@,
            Operation::NanCount { axes } => axes@,
            Operation::InfCount { axes } => axes@,
            Operation::NullCount { axes, .. } => axes@,
            Operation::Covariance { axes } => axes@,
            Operation::Correlation { axes } => axes@,
            Operation::Transform { axes, .. } => axes@,
        }
    }

    /// Tier-C statistics and transforms run on a materialized selection, not a streaming fold.
    pub open spec fn spec_requires_materialize(&self) -> bool {
        self is Median || self is Quantile || self is Histogram || self is Covariance
            || self is Correlation || self is Transform
    }

    pub open spec fn spec_requires_transform(&self) -> bool {
        self is Transform
    }

    /// Top-level key of the operation in the flat JSON wire format.
    pub open spec fn spec_wire_key(&self) -> Seq<char> {
        match self {
            Operation::Sum { .. } => "sum"@,
            Operation::Mean { .. } => "mean"@,
            Operation::Min { .. } => "min"@,
            Operation::Max { .. } => "max"@,
            Operation::Count { .. } => "count"@,
            Operation::Var { .. } => "var"@,
            Operation::Std { .. } => "std"@,
            Operation::Product { .. } => "product"@,
            Operation::NormL1 { .. } => "norm_l1"@,
            Operation::NormL2 { .. } => "norm_l2"@,
            Operation::AllFinite { .. } => "all_finite"@,
            Operation::AnyNan { .. } => "any_nan"@,
            Operation::AnyInf { .. } => "any_inf"@,
            Operation::ArgMin { .. } => "arg_min"@,
            Operation::ArgMax { .. } => "arg_max"@,
            Operation::Median { .. } => "median"@,
            Operation::NanMean { .. } => "nan_mean"@,
            Operation::NanStd { .. } => "nan_std"@,
            Operation::Quantile { .. } => "quantile"@,
            Operation::Histogram { .. } => "histogram"@,
            Operation::NanCount { .. } => "nan_count"@,
            Operation::InfCount { .. } => "inf_count"@,
            Operation::NullCount { .. } => "null_count"@,
            Operation::Covariance { .. } => "covariance"@,
            Operation::Correlation { .. } => "correlation"@,
            Operation::Transform { .. } => "transform"@,
        }
    }

    /// Axis labels of the operation.
    pub fn axes(&self) -> (r: &Vec<String>)
        ensures
            r@ == self.spec_axes(),
    {
        match self {
            Operation::Sum { axes } => axes,
            Operation::Mean { axes } => axes,
            Operation::Min { axes } => axes,
            Operation::Max { axes } => axes,
            Operation::Count { axes } => axes,
            Operation::Var { axes } => axes,
            Operation::Std { axes } => axes,
            Operation::Product { axes } => axes,
            Operation::NormL1 { axes } => axes,
            Operation::NormL2 { axes } => axes,
            Operation::AllFinite { axes } => axes,
            Operation::AnyNan { axes } => axes,
            Operation::AnyInf { axes } => axes,
            Operation::ArgMin { axes } => axes,
            Operation::ArgMax { axes } => axes,
            Operation::Median { axes } => axes,
            Operation::NanMean { axes } => axes,
            Operation::NanStd { axes } => axes,
            Operation::Quantile { axes, .. } => axes,
            Operation::Histogram { axes, .. } => axes,
            Operation::NanCount { axes } => axes,
            Operation::InfCount { axes } => axes,
            Operation::NullCount { axes, .. } => axes,
            Operation::Covariance { axes } => axes,
            Operation::Correlation { axes } => axes,
            Operation::Transform { axes, .. } => axes,
        }
    }

    /// Whether the operation needs the full selection materialized (tier C).
    pub fn requires_materialize(&self) -> (r: bool)
        ensures
            r == self.spec_requires_materialize(),
    {
        match self {
            Operation::Median { .. } | Operation::Quantile { .. } | Operation::Histogram { .. }
            | Operation::Covariance { .. } | Operation::Correlation { .. }
            | Operation::Transform { .. } => true,
            _ => false,
        }
    }

    /// Whether the operation is an element-wise transform (writes a tensor).
    pub fn requires_transform(&self) -> (r: bool)
        ensures
            r == self.spec_requires_transform(),
    {
        match self {
            Operation::Transform { .. } => true,
            _ => false,
        }
    }

    /// Wire key of the operation.
    pub fn wire_key(&self) -> (r: &'static str)
        ensures
            r@ == self.spec_wire_key(),
    {
        match self {
            Operation::Sum { .. } => "sum",
            Operation::Mean { .. } => "mean",
            Operation::Min { .. } => "min",
            Operation::Max { .. } => "max",
            Operation::Count { .. } => "count",
            Operation::Var { .. } => "var",
            Operation::Std { .. } => "std",
            Operation::Product { .. } => "product",
            Operation::NormL1 { .. } => "norm_l1",
            Operation::NormL2 { .. } => "norm_l2",
            Operation::AllFinite { .. } => "all_finite",
            Operation::AnyNan { .. } => "any_nan",
            Operation::AnyInf { .. } => "any_inf",
            Operation::ArgMin { .. } => "arg_min",
            Operation::ArgMax { .. } => "arg_max",
            Operation::Median { .. } => "median",
            Operation::NanMean { .. } => "nan_mean",
            Operation::NanStd { .. } => "nan_std",
            Operation::Quantile { .. } => "quantile",
            Operation::Histogram { .. } => "histogram",
            Operation::NanCount { .. } => "nan_count",
            Operation::InfCount { .. } => "inf_count",
            Operation::NullCount { .. } => "null_count",
            Operation::Covariance { .. } => "covariance",
            Operation::Correlation { .. } => "correlation",
            Operation::Transform { .. } => "transform",
        }
    }
}

/// Where an executed selection is delivered.
#[derive(Clone, Debug)]
pub enum OutputHint {
    InlineJson,
    SpillArray { handle: String },
}

/// `spill` output preference.
#[derive(Clone, Debug)]
pub struct OutputHints {
    pub preferred: Option<OutputHint>,
}

/// Destination of a transform result (`write.target`).
#[derive(Clone, Copy, PartialEq, Eq, Debug, Structural)]
pub enum WriteTarget {
    Switch,
    Spill,
    Sidecar,
    Ram,
}

/// `write` hints of a transform query.
#[derive(Clone, Debug)]
pub struct WriteHints {
    pub target: WriteTarget,
    pub path: Option<String>,
}

/// A parsed query document.
#[derive(Clone, Debug)]
pub struct QueryDocument {
    pub layout_version: Option<u32>,
    pub dataset: String,
    pub selection: Option<Vec<AxisSlice>>,
    pub operation: Option<Operation>,
    pub output: Option<OutputHints>,
    pub write: Option<WriteHints>,
    pub execution: Option<ExecutionHints>,
}

/// Character sequences of a list of strings.
pub open spec fn strs(v: Seq<String>) -> Seq<Seq<char>> {
    v.map_values(|s: String| s@)
}

pub open spec fn opt_str(o: Option<String>) -> Option<Seq<char>> {
    match o {
        Some(s) => Some(s@),
        None => None,
    }
}

/// View of one selection axis.
pub struct AxisSliceView {
    pub start: Option<u64>,
    pub stop: Option<u64>,
    pub step: Option<u64>,
    pub start_label: Option<Seq<char>>,
    pub stop_label: Option<Seq<char>>,
}

impl View for AxisSlice {
    type V = AxisSliceView;

    open spec fn view(&self) -> AxisSliceView {
        AxisSliceView {
            start: self.start,
            stop: self.stop,
            step: self.step,
            start_label: opt_str(self.start_label),
            stop_label: opt_str(self.stop_label),
        }
    }
}

/// Kind of an [`Operation`].
#[derive(Clone, Copy, PartialEq, Eq, Debug, Structural)]
pub enum OpKind {
    Sum,
    Mean,
    Min,
    Max,
    Count,
    Var,
    Std,
    Product,
    NormL1,
    NormL2,
    AllFinite,
    AnyNan,
    AnyInf,
    ArgMin,
    ArgMax,
    Median,
    NanMean,
    NanStd,
    Quantile,
    Histogram,
    NanCount,
    InfCount,
    NullCount,
    Covariance,
    Correlation,
    Transform,
}

/// View of an [`Operation`]: its kind, axis labels and parameters (unused parameters are
/// zero / `None` / `Zscore`).
pub struct OperationView {
    pub kind: OpKind,
    pub axes: Seq<Seq<char>>,
    pub q: u64,
    pub bins: u32,
    pub min: Option<u64>,
    pub max: Option<u64>,
    pub fill: Option<u64>,
    pub method: TransformMethod,
}

pub open spec fn plain_op(kind: OpKind, axes: Seq<Seq<char>>) -> OperationView {
    OperationView {
        kind,
        axes,
        q: 0,
        bins: 0,
        min: None,
        max: None,
        fill: None,
        method: TransformMethod::Zscore,
    }
}

impl View for Operation {
    type V = OperationView;

    open spec fn view(&self) -> OperationView {
        match self {
            Operation::Sum { axes } => plain_op(OpKind::Sum, strs(axes@)),
            Operation::Mean { axes } => plain_op(OpKind::Mean, strs(axes@)),
            Operation::Min { axes } => plain_op(OpKind::Min, strs(axes@)),
            Operation::Max { axes } => plain_op(OpKind::Max, strs(axes@)),
            Operation::Count { axes } => plain_op(OpKind::Count, strs(axes@)),
            Operation::Var { axes } => plain_op(OpKind::Var, strs(axes@)),
            Operation::Std { axes } => plain_op(OpKind::Std, strs(axes@)),
            Operation::Product { axes } => plain_op(OpKind::Product, strs(axes@)),
            Operation::NormL1 { axes } => plain_op(OpKind::NormL1, strs(axes@)),
            Operation::NormL2 { axes } => plain_op(OpKind::NormL2, strs(axes@)),
            Operation::AllFinite { axes } => plain_op(OpKind::AllFinite, strs(axes@)),
            Operation::AnyNan { axes } => plain_op(OpKind::AnyNan, strs(axes@)),
            Operation::AnyInf { axes } => plain_op(OpKind::AnyInf, strs(axes@)),
            Operation::ArgMin { axes } => plain_op(OpKind::ArgMin, strs(axes@)),
            Operation::ArgMax { axes } => plain_op(OpKind::ArgMax, strs(axes@)),
            Operation::Median { axes } => plain_op(OpKind::Median, strs(axes@)),
            Operation::NanMean { axes } => plain_op(OpKind::NanMean, strs(axes@)),
            Operation::NanStd { axes } => plain_op(OpKind::NanStd, strs(axes@)),
            Operation::Quantile { axes, q } => OperationView { q: *q, ..plain_op(OpKind::Quantile, strs(axes@)) },
            Operation::Histogram { axes, bins, min, max } => OperationView {
                bins: *bins,
                min: *min,
                max: *max,
                ..plain_op(OpKind::Histogram, strs(axes@))
            },
            Operation::NanCount { axes } => plain_op(OpKind::NanCount, strs(axes@)),
            Operation::InfCount { axes } => plain_op(OpKind::InfCount, strs(axes@)),
            Operation::NullCount { axes, fill } => OperationView {
                fill: *fill,
                ..plain_op(OpKind::NullCount, strs(axes@))
            },
            Operation::Covariance { axes } => plain_op(OpKind::Covariance, strs(axes@)),
            Operation::Correlation { axes } => plain_op(OpKind::Correlation, strs(axes@)),
            Operation::Transform { method, axes } => OperationView {
                method: *method,
                ..plain_op(OpKind::Transform, strs(axes@))
            },
        }
    }
}

/// View of an [`OutputHint`].
pub enum OutputHintView {
    InlineJson,
    SpillArray(Seq<char>),
}

impl View for OutputHints {
    type V = Option<OutputHintView>;

    open spec fn view(&self) -> Option<OutputHintView> {
        match self.preferred {
            Some(OutputHint::InlineJson) => Some(OutputHintView::InlineJson),
            Some(OutputHint::SpillArray { handle }) => Some(OutputHintView::SpillArray(handle@)),
            None => None,
        }
    }
}

/// View of [`WriteHints`].
pub struct WriteHintsView {
    pub target: WriteTarget,
    pub path: Option<Seq<char>>,
}

impl View for WriteHints {
    type V = WriteHintsView;

    open spec fn view(&self) -> WriteHintsView {
        WriteHintsView { target: self.target, path: opt_str(self.path) }
    }
}

/// View of a [`QueryDocument`].
pub struct QueryDocView {
    pub layout_version: Option<u32>,
    pub dataset: Seq<char>,
    pub selection: Option<Seq<AxisSliceView>>,
    pub operation: Option<OperationView>,
    pub output: Option<Option<OutputHintView>>,
    pub write: Option<WriteHintsView>,
    pub execution: Option<ExecutionHints>,
}

impl View for QueryDocument {
    type V = QueryDocView;

    open spec fn view(&self) -> QueryDocView {
        QueryDocView {
            layout_version: self.layout_version,
            dataset: self.dataset@,
            selection: match self.selection {
                Some(v) => Some(v@.map_values(|a: AxisSlice| a@)),
                None => None,
            },
            operation: match self.operation {
                Some(o) => Some(o@),
                None => None,
            },
            output: match self.output {
                Some(o) => Some(o@),
                None => None,
            },
            write: match self.write {
                Some(w) => Some(w@),
                None => None,
            },
            execution: self.execution,
        }
    }
}

} // verus!
