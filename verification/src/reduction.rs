//! Streaming reduction kinds.
use vstd::prelude::*;

use crate::types::{Operation, TetError};

verus! {

/// Single-pass reductions folded over chunks (tier A/B). `NullCount` carries the fill value
/// as an IEEE-754 binary64 bit pattern.
#[derive(Clone, Copy, PartialEq, Eq, Debug, Structural)]
pub enum ReductionKind {
    Sum,
    Mean,
    Min,
    Max,
    Count,
    Var,
    Std,
    Product,
    NormL1,
    NormL2,
    AllFinite,
    AnyNan,
    AnyInf,
    NanCount,
    InfCount,
    NullCount { fill: u64 },
    ArgMin,
    ArgMax,
    NanMean,
    NanStd,
}

/// Operations that map to a streaming reduction: not tier C, and a `null_count` fill resolved.
pub open spec fn spec_is_streaming_op(op: Operation) -> bool {
    !op.spec_requires_materialize() && !(op matches Operation::NullCount { fill: None, .. })
}

pub open spec fn spec_kind_of(op: Operation) -> ReductionKind {
    match op {
        Operation::Sum { .. } => ReductionKind::Sum,
        Operation::Mean { .. } => ReductionKind::Mean,
        Operation::Min { .. } => ReductionKind::Min,
        Operation::Max { .. } => ReductionKind::Max,
        Operation::Count { .. } => ReductionKind::Count,
        Operation::Var { .. } => ReductionKind::Var,
        Operation::Std { .. } => ReductionKind::Std,
        Operation::Product { .. } => ReductionKind::Product,
        Operation::NormL1 { .. } => ReductionKind::NormL1,
        Operation::NormL2 { .. } => ReductionKind::NormL2,
        Operation::AllFinite { .. } => ReductionKind::AllFinite,
        Operation::AnyNan { .. } => ReductionKind::AnyNan,
        Operation::AnyInf { .. } => ReductionKind::AnyInf,
        Operation::NanCount { .. } => ReductionKind::NanCount,
        Operation::InfCount { .. } => ReductionKind::InfCount,
        Operation::NullCount { fill, .. } => ReductionKind::NullCount { fill: fill->0 },
        Operation::ArgMin { .. } => ReductionKind::ArgMin,
        Operation::ArgMax { .. } => ReductionKind::ArgMax,
        Operation::NanMean { .. } => ReductionKind::NanMean,
        Operation::NanStd { .. } => ReductionKind::NanStd,
        _ => ReductionKind::Sum,
    }
}

impl ReductionKind {
    /// Reduction kind of a streaming operation.
    pub fn from_operation(op: &Operation) -> (r: ReductionKind)
        requires
            spec_is_streaming_op(*op),
        ensures
            r == spec_kind_of(*op),
    {
        match op {
            Operation::Sum { .. } => ReductionKind::Sum,
            Operation::Mean { .. } => ReductionKind::Mean,
            Operation::Min { .. } => ReductionKind::Min,
            Operation::Max { .. } => ReductionKind::Max,
            Operation::Count { .. } => ReductionKind::Count,
            Operation::Var { .. } => ReductionKind::Var,
            Operation::Std { .. } => ReductionKind::Std,
            Operation::Product { .. } => ReductionKind::Product,
            Operation::NormL1 { .. } => ReductionKind::NormL1,
            Operation::NormL2 { .. } => ReductionKind::NormL2,
            Operation::AllFinite { .. } => ReductionKind::AllFinite,
            Operation::AnyNan { .. } => ReductionKind::AnyNan,
            Operation::AnyInf { .. } => ReductionKind::AnyInf,
            Operation::NanCount { .. } => ReductionKind::NanCount,
            Operation::InfCount { .. } => ReductionKind::InfCount,
            Operation::NullCount { fill, .. } => match fill {
                Some(f) => ReductionKind::NullCount { fill: *f },
                None => ReductionKind::Sum,
            },
            Operation::ArgMin { .. } => ReductionKind::ArgMin,
            Operation::ArgMax { .. } => ReductionKind::ArgMax,
            Operation::NanMean { .. } => ReductionKind::NanMean,
            Operation::NanStd { .. } => ReductionKind::NanStd,
            _ => ReductionKind::Sum,
        }
    }
}

/// How the preview of a reduction runs.
#[derive(Clone, Copy, PartialEq, Eq, Debug, Structural)]
pub enum PreviewRoute {
    /// Tier-C statistics and transforms: the selection is materialized under a spill path
    /// allowlist.
    Materialize,
    /// A reduction over every axis (`axes: []`): one scalar fold.
    ScalarFold(ReductionKind),
    /// A reduction over some axes: a partial fold.
    PartialFold(ReductionKind),
}

/// The route of an operation's preview.
pub open spec fn spec_preview_route(op: Operation) -> PreviewRoute {
    if op.spec_requires_materialize() {
        PreviewRoute::Materialize
    } else if op.spec_axes().len() == 0 {
        PreviewRoute::ScalarFold(spec_kind_of(op))
    } else {
        PreviewRoute::PartialFold(spec_kind_of(op))
    }
}

/// Message when a materialize-required operation has no spill path allowlist.
pub open spec fn spec_missing_allowlist_message() -> Seq<char> {
    "materialize-required operation needs a spill path allowlist (pass `--tet` so defaults apply)"@
}

/// Route of an operation's preview: a materialize-required operation needs a spill path
/// allowlist (`has_allowlist`); any other runs as a scalar fold when it reduces every axis and
/// as a partial fold otherwise. A `null_count` fill must be resolved first.
pub fn operation_preview_route(op: &Operation, has_allowlist: bool) -> (r: Result<
    PreviewRoute,
    TetError,
>)
    requires
        op.spec_requires_materialize() || spec_is_streaming_op(*op),
    ensures
        r is Err <==> (op.spec_requires_materialize() && !has_allowlist),
        r matches Ok(route) ==> route == spec_preview_route(*op),
        r matches Err(e) ==> (e matches TetError::Validation(m) && m@
            == spec_missing_allowlist_message()),
{
    if op.requires_materialize() {
        if !has_allowlist {
            return Err(TetError::Validation(String::from_str(
                "materialize-required operation needs a spill path allowlist (pass `--tet` so defaults apply)",
            )));
        }
        return Ok(PreviewRoute::Materialize);
    }
    let kind = ReductionKind::from_operation(op);
    if op.axes().len() == 0 {
        Ok(PreviewRoute::ScalarFold(kind))
    } else {
        Ok(PreviewRoute::PartialFold(kind))
    }
}

} // verus!
