//! Execution memory budget: when to stream, spill, or hold buffers in RAM.
use vstd::prelude::*;

use crate::types::{
    ElementDtype, ExecutionHints, FileExecutionSettingsV1, ReadPlan, TetError,
};

verus! {

/// Fallback cap when host RAM cannot be detected and no fixed budget is set (256 MiB).
pub const DEFAULT_MEMORY_BUDGET_BYTES: u64 = 268435456;

/// How the engine chose to execute against a read plan.
#[derive(Clone, Copy, PartialEq, Eq, Debug, Structural)]
pub enum MemoryStrategy {
    /// Scalar / partial reductions fold over chunks without a full logical tensor buffer.
    StreamingFold,
    /// Preview or spill uses a capped in-memory slice only.
    CappedInMemory,
    /// Full logical tensor written to a caller path via file mmap.
    MmapSpill,
    /// Tier-C op: full logical selection held in RAM for the operation.
    InMemoryMaterialize,
    /// Tier-C op: full logical selection written to an engine temp file, then removed.
    TempSpillMaterialize,
}

impl MemoryStrategy {
    pub open spec fn spec_as_str(self) -> Seq<char> {
        match self {
            MemoryStrategy::StreamingFold => "streaming_fold"@,
            MemoryStrategy::CappedInMemory => "capped_in_memory"@,
            MemoryStrategy::MmapSpill => "mmap_spill"@,
            MemoryStrategy::InMemoryMaterialize => "in_memory_materialize"@,
            MemoryStrategy::TempSpillMaterialize => "temp_spill_materialize"@,
        }
    }

    /// Stable wire token of the strategy.
    pub fn as_str(self) -> (r: &'static str)
        ensures
            r@ == self.spec_as_str(),
    {
        match self {
            MemoryStrategy::StreamingFold => "streaming_fold",
            MemoryStrategy::CappedInMemory => "capped_in_memory",
            MemoryStrategy::MmapSpill => "mmap_spill",
            MemoryStrategy::InMemoryMaterialize => "in_memory_materialize",
            MemoryStrategy::TempSpillMaterialize => "temp_spill_materialize",
        }
    }
}

/// Host memory budget for query execution (does not limit mmap spill file size).
#[derive(Clone, Copy, PartialEq, Eq, Debug, Structural)]
pub struct ExecutionBudget {
    pub memory_budget_bytes: u64,
    /// Host RAM available when the budget was resolved, if detectable.
    pub host_available_ram_bytes: Option<u64>,
    /// Percent of host RAM used when the budget was derived from a percent (basis points).
    pub memory_budget_percent_bps: u16,
}

/// `a * b`, clamped at `u64::MAX`.
pub open spec fn sat_mul(a: u64, b: u64) -> u64 {
    if a * b > u64::MAX {
        u64::MAX
    } else {
        (a * b) as u64
    }
}

pub open spec fn max1(a: u64) -> u64 {
    if a == 0 {
        1
    } else {
        a
    }
}

/// Budget resolution: query bytes override the file's fixed bytes, which override a percent of
/// host RAM (query percent, else file percent, else the engine default).
pub open spec fn spec_resolve(
    file: FileExecutionSettingsV1,
    hints: Option<ExecutionHints>,
    host: Option<u64>,
) -> ExecutionBudget {
    if hints is Some && hints->0.memory_budget_bytes is Some {
        ExecutionBudget {
            memory_budget_bytes: max1(hints->0.memory_budget_bytes->0),
            host_available_ram_bytes: host,
            memory_budget_percent_bps: file.spec_effective_percent_bps(),
        }
    } else if file.memory_budget_bytes > 0 {
        ExecutionBudget {
            memory_budget_bytes: file.memory_budget_bytes as u64,
            host_available_ram_bytes: host,
            memory_budget_percent_bps: file.spec_effective_percent_bps(),
        }
    } else {
        let bps: u16 = if hints is Some && hints->0.memory_budget_percent_bps is Some
            && hints->0.memory_budget_percent_bps->0 > 0 {
            hints->0.memory_budget_percent_bps->0
        } else {
            file.spec_effective_percent_bps()
        };
        let bytes: u64 = match host {
            Some(avail) => (sat_mul(avail, bps as u64) / 10000) as u64,
            None => DEFAULT_MEMORY_BUDGET_BYTES,
        };
        ExecutionBudget {
            memory_budget_bytes: max1(bytes),
            host_available_ram_bytes: host,
            memory_budget_percent_bps: bps,
        }
    }
}

/// A byte budget in the query wins over everything else (zero counts as one byte); without
/// one, a fixed byte budget in the file wins.
pub proof fn lemma_resolve_byte_budgets(
    file: FileExecutionSettingsV1,
    hints: Option<ExecutionHints>,
    host: Option<u64>,
)
    ensures
        (hints matches Some(h) && h.memory_budget_bytes matches Some(b)) ==> spec_resolve(
            file,
            hints,
            host,
        ).memory_budget_bytes == (if hints->0.memory_budget_bytes->0 == 0 {
            1
        } else {
            hints->0.memory_budget_bytes->0
        }),
        !(hints matches Some(h) && h.memory_budget_bytes is Some) && file.memory_budget_bytes > 0
            ==> spec_resolve(file, hints, host).memory_budget_bytes == file.memory_budget_bytes,
        spec_resolve(file, hints, host).host_available_ram_bytes == host,
{
}

/// Without a byte budget in the query or the file, a positive percent in the query decides:
/// the budget is that share of the host RAM (the product saturating, at least one byte), or
/// the fallback cap when the RAM is unknown, whatever percent the file sets.
pub proof fn lemma_resolve_query_percent_wins(
    file: FileExecutionSettingsV1,
    hints: ExecutionHints,
    host: Option<u64>,
    p: u16,
)
    requires
        hints.memory_budget_bytes is None,
        file.memory_budget_bytes == 0,
        hints.memory_budget_percent_bps == Some(p),
        p > 0,
    ensures
        spec_resolve(file, Some(hints), host).memory_budget_percent_bps == p,
        spec_resolve(file, Some(hints), host).memory_budget_bytes == match host {
            Some(avail) => {
                let prod = avail as int * p as int;
                let q = if prod > u64::MAX { u64::MAX as int / 10000 } else { prod / 10000 };
                if q == 0 { 1 } else { q }
            },
            None => DEFAULT_MEMORY_BUDGET_BYTES as int,
        },
        forall|other: FileExecutionSettingsV1|
            other.memory_budget_bytes == 0 ==> #[trigger] spec_resolve(other, Some(hints), host)
                == spec_resolve(file, Some(hints), host),
{
}

/// Without any budget in the query and no fixed bytes in the file, the file's percent (or the
/// engine default when it is unset) is the share of host RAM used.
pub proof fn lemma_resolve_file_percent(
    file: FileExecutionSettingsV1,
    hints: Option<ExecutionHints>,
    host: Option<u64>,
)
    requires
        !(hints matches Some(h) && (h.memory_budget_bytes is Some || (h.memory_budget_percent_bps matches Some(p) && p > 0))),
        file.memory_budget_bytes == 0,
    ensures
        spec_resolve(file, hints, host).memory_budget_percent_bps == (if file.memory_budget_percent_bps == 0 {
            crate::types::DEFAULT_MEMORY_BUDGET_PERCENT_BPS
        } else {
            file.memory_budget_percent_bps
        }),
{
}

fn saturating_mul_u64(a: u64, b: u64) -> (r: u64)
    ensures
        r == sat_mul(a, b),
{
    match a.checked_mul(b) {
        Some(v) => v,
        None => u64::MAX,
    }
}

impl ExecutionBudget {
    /// Resolve the budget from the file defaults, the query hints and the host RAM that the
    /// caller probed (`None` when it could not be detected).
    pub fn resolve(
        file: &FileExecutionSettingsV1,
        hints: Option<&ExecutionHints>,
        host: Option<u64>,
    ) -> (r: Self)
        ensures
            r == spec_resolve(*file, match hints {
                Some(h) => Some(*h),
                None => None,
            }, host),
            r.memory_budget_bytes >= 1,
    {
        if let Some(h) = hints {
            if let Some(bytes) = h.memory_budget_bytes {
                return ExecutionBudget {
                    memory_budget_bytes: if bytes == 0 {
                        1
                    } else {
                        bytes
                    },
                    host_available_ram_bytes: host,
                    memory_budget_percent_bps: file.effective_percent_bps(),
                };
            }
        }
        if file.memory_budget_bytes > 0 {
            return ExecutionBudget {
                memory_budget_bytes: file.memory_budget_bytes as u64,
                host_available_ram_bytes: host,
                memory_budget_percent_bps: file.effective_percent_bps(),
            };
        }
        let mut bps = file.effective_percent_bps();
        if let Some(h) = hints {
            if let Some(p) = h.memory_budget_percent_bps {
                if p > 0 {
                    bps = p;
                }
            }
        }
        let memory_budget_bytes = match host {
            Some(avail) => saturating_mul_u64(avail, bps as u64) / 10000,
            None => DEFAULT_MEMORY_BUDGET_BYTES,
        };
        ExecutionBudget {
            memory_budget_bytes: if memory_budget_bytes == 0 {
                1
            } else {
                memory_budget_bytes
            },
            host_available_ram_bytes: host,
            memory_budget_percent_bps: bps,
        }
    }

    /// Resolve with engine file defaults.
    pub fn from_hints(hints: Option<&ExecutionHints>, host: Option<u64>) -> (r: Self)
        ensures
            r == spec_resolve(FileExecutionSettingsV1 {
                memory_budget_bytes: 0,
                memory_budget_percent_bps: 0,
            }, match hints {
                Some(h) => Some(*h),
                None => None,
            }, host),
    {
        Self::resolve(&FileExecutionSettingsV1::default_engine(), hints, host)
    }

    /// Bytes of `element_count` elements of `dtype`; a validation error when the product
    /// overflows `u64`.
    pub fn logical_element_bytes(&self, dtype: ElementDtype, element_count: usize) -> (r: Result<
        u64,
        TetError,
    >)
        ensures
            r matches Ok(b) ==> b == element_count * dtype.spec_elem_size(),
            r is Err <==> element_count * dtype.spec_elem_size() > u64::MAX,
            r matches Err(e) ==> e.is_validation(),
    {
        let count = element_count as u64;
        match dtype.bytes_from_elem_count(count) {
            Some(b) => Ok(b),
            None => Err(
                TetError::Validation(String::from_str("logical element byte size overflow")),
            ),
        }
    }

    /// [`Self::logical_element_bytes`] for `f32`.
    pub fn logical_f32_bytes(&self, element_count: usize) -> (r: Result<u64, TetError>)
        ensures
            r matches Ok(b) ==> b == element_count * 4,
            r is Err <==> element_count * 4 > u64::MAX,
    {
        self.logical_element_bytes(ElementDtype::F32, element_count)
    }

    /// Whether the logical byte size exceeds the budget.
    pub fn exceeds_budget(&self, dtype: ElementDtype, element_count: usize) -> (r: Result<
        bool,
        TetError,
    >)
        ensures
            r matches Ok(b) ==> b == (element_count * dtype.spec_elem_size()
                > self.memory_budget_bytes),
            r is Err <==> element_count * dtype.spec_elem_size() > u64::MAX,
    {
        let bytes = self.logical_element_bytes(dtype, element_count)?;
        Ok(bytes > self.memory_budget_bytes)
    }

    /// [`Self::exceeds_budget`] for `f32`.
    pub fn exceeds_budget_f32(&self, element_count: usize) -> (r: Result<bool, TetError>)
        ensures
            r matches Ok(b) ==> b == (element_count * 4 > self.memory_budget_bytes),
            r is Err <==> element_count * 4 > u64::MAX,
    {
        self.exceeds_budget(ElementDtype::F32, element_count)
    }

    /// Whether a dense buffer for the whole selection of `plan` would exceed the budget.
    pub fn full_tensor_exceeds_budget(&self, plan: &ReadPlan, dtype: ElementDtype) -> (r: Result<
        bool,
        TetError,
    >)
        ensures
            r matches Ok(b) ==> b == (plan.logical_f32_element_count * dtype.spec_elem_size()
                > self.memory_budget_bytes),
            r is Err <==> plan.logical_f32_element_count * dtype.spec_elem_size() > u64::MAX,
    {
        self.exceeds_budget(dtype, plan.logical_f32_element_count)
    }

    /// [`Self::full_tensor_exceeds_budget`] for `f32`.
    pub fn full_tensor_exceeds_budget_f32(&self, plan: &ReadPlan) -> (r: Result<bool, TetError>)
        ensures
            r matches Ok(b) ==> b == (plan.logical_f32_element_count * 4
                > self.memory_budget_bytes),
            r is Err <==> plan.logical_f32_element_count * 4 > u64::MAX,
    {
        self.full_tensor_exceeds_budget(plan, ElementDtype::F32)
    }
}

/// A budget is never zero, whatever the file, hints and host RAM.
pub proof fn lemma_budget_positive(
    file: FileExecutionSettingsV1,
    hints: Option<ExecutionHints>,
    host: Option<u64>,
)
    ensures
        spec_resolve(file, hints, host).memory_budget_bytes >= 1,
{
}

/// An explicit byte budget in the query wins over the file header and host RAM.
pub proof fn lemma_query_bytes_override(
    file: FileExecutionSettingsV1,
    hints: ExecutionHints,
    host: Option<u64>,
)
    requires
        hints.memory_budget_bytes is Some,
        hints.memory_budget_bytes->0 > 0,
    ensures
        spec_resolve(file, Some(hints), host).memory_budget_bytes
            == hints.memory_budget_bytes->0,
{
}

/// A percent budget never exceeds the detected host RAM.
pub proof fn lemma_percent_budget_within_host(
    file: FileExecutionSettingsV1,
    hints: Option<ExecutionHints>,
    avail: u64,
)
    requires
        !(hints is Some && hints->0.memory_budget_bytes is Some),
        file.memory_budget_bytes == 0,
        hints is Some && hints->0.memory_budget_percent_bps is Some ==> hints->0.memory_budget_percent_bps->0 <= 10000,
        file.memory_budget_percent_bps <= 10000,
        avail >= 1,
    ensures
        spec_resolve(file, hints, Some(avail)).memory_budget_bytes <= avail,
{
    let r = spec_resolve(file, hints, Some(avail));
    let bps = r.memory_budget_percent_bps;
    assert(bps <= 10000);
    assert(avail * bps <= avail * 10000) by (nonlinear_arith)
        requires bps <= 10000;
    if avail * bps <= u64::MAX {
        assert((avail * bps) / 10000 <= avail) by (nonlinear_arith)
            requires avail * bps <= avail * 10000;
    } else {
        assert(avail * 10000 > u64::MAX);
        assert(u64::MAX / 10000 <= avail) by (nonlinear_arith)
            requires avail * 10000 > u64::MAX;
    }
}

} // verus!
