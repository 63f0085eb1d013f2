//! Optional GPU execution routing: what device was requested vs what runs.
//!
//! This build carries no GPU backend, so every accelerator request falls back to the host
//! with the reason recorded; the routing rules are kept complete so a backend can be added.
use vstd::prelude::*;

use crate::reduction::{ReductionKind, spec_kind_of};
use crate::types::{ElementDtype, ExecutionDeviceHint, ExecutionHints, Operation, ReadPlan};

verus! {

/// Minimum logical selection size for `device: auto` to consider GPU (64 MiB).
pub const GPU_AUTO_MIN_LOGICAL_BYTES: u64 = 67108864;

/// When host RAM cannot be probed, refuse GPU materialize above this logical size (8 GiB).
pub const GPU_HOST_MATERIALIZE_UNKNOWN_HOST_CAP_BYTES: u64 = 8589934592;

/// Resolved device path for one execution.
#[derive(Clone, Copy, Debug)]
pub struct DeviceRoute {
    pub requested: Option<ExecutionDeviceHint>,
    pub used: &'static str,
    pub fallback_reason: Option<&'static str>,
    pub gpu_reduce: bool,
    /// Decode/GPU overlap (streaming pipeline).
    pub gpu_pipeline: bool,
    /// Chunk shards across multiple devices.
    pub gpu_multi: bool,
    /// Device index when the route uses a CUDA / ROCm device.
    pub cuda_device: Option<usize>,
}

/// Mathematical view of a [`DeviceRoute`] (strings as character sequences).
pub struct DeviceRouteView {
    pub requested: Option<ExecutionDeviceHint>,
    pub used: Seq<char>,
    pub fallback_reason: Option<Seq<char>>,
    pub gpu_reduce: bool,
    pub gpu_pipeline: bool,
    pub gpu_multi: bool,
    pub cuda_device: Option<usize>,
}

impl View for DeviceRoute {
    type V = DeviceRouteView;

    open spec fn view(&self) -> DeviceRouteView {
        DeviceRouteView {
            requested: self.requested,
            used: self.used@,
            fallback_reason: match self.fallback_reason {
                Some(s) => Some(s@),
                None => None,
            },
            gpu_reduce: self.gpu_reduce,
            gpu_pipeline: self.gpu_pipeline,
            gpu_multi: self.gpu_multi,
            cuda_device: self.cuda_device,
        }
    }
}

pub open spec fn spec_cpu_only() -> DeviceRouteView {
    DeviceRouteView {
        requested: None,
        used: "cpu"@,
        fallback_reason: None,
        gpu_reduce: false,
        gpu_pipeline: false,
        gpu_multi: false,
        cuda_device: None,
    }
}

pub open spec fn spec_cpu_fallback(
    requested: Option<ExecutionDeviceHint>,
    reason: Seq<char>,
) -> DeviceRouteView {
    DeviceRouteView {
        requested,
        used: "cpu"@,
        fallback_reason: Some(reason),
        gpu_reduce: false,
        gpu_pipeline: false,
        gpu_multi: false,
        cuda_device: None,
    }
}

pub open spec fn spec_gpu_route(
    requested: Option<ExecutionDeviceHint>,
    used: Seq<char>,
    cuda_device: Option<usize>,
    multi: bool,
) -> DeviceRouteView {
    DeviceRouteView {
        requested,
        used,
        fallback_reason: None,
        gpu_reduce: true,
        gpu_pipeline: false,
        gpu_multi: multi,
        cuda_device,
    }
}

/// Backend availability of this build (no accelerator backend is compiled in).
pub open spec fn spec_cuda_available() -> bool {
    false
}

pub open spec fn spec_rocm_available() -> bool {
    false
}

pub open spec fn spec_metal_available() -> bool {
    false
}

impl DeviceRoute {
    /// Host-only route with nothing requested.
    pub fn cpu_only() -> (r: Self)
        ensures
            r@ == spec_cpu_only(),
    {
        DeviceRoute {
            requested: None,
            used: "cpu",
            fallback_reason: None,
            gpu_reduce: false,
            gpu_pipeline: false,
            gpu_multi: false,
            cuda_device: None,
        }
    }

    /// Host route taken instead of the requested device, with the reason.
    pub fn cpu_fallback(requested: Option<ExecutionDeviceHint>, reason: &'static str) -> (r: Self)
        ensures
            r@ == spec_cpu_fallback(requested, reason@),
    {
        DeviceRoute {
            requested,
            used: "cpu",
            fallback_reason: Some(reason),
            gpu_reduce: false,
            gpu_pipeline: false,
            gpu_multi: false,
            cuda_device: None,
        }
    }
}

/// Whether a CUDA backend is compiled in.
pub fn cuda_backend_available() -> (r: bool)
    ensures
        r == spec_cuda_available(),
{
    false
}

/// Whether a ROCm backend is compiled in.
pub fn rocm_backend_available() -> (r: bool)
    ensures
        r == spec_rocm_available(),
{
    false
}

/// Whether a driver (CUDA or ROCm) backend is compiled in.
pub fn driver_backend_available() -> (r: bool)
    ensures
        r == (spec_cuda_available() || spec_rocm_available()),
{
    cuda_backend_available() || rocm_backend_available()
}

/// Whether the Apple Metal backend is compiled in.
pub fn metal_backend_available() -> (r: bool)
    ensures
        r == spec_metal_available(),
{
    false
}

/// Whether any GPU backend is compiled in.
pub fn gpu_backend_available() -> (r: bool)
    ensures
        r == (spec_cuda_available() || spec_rocm_available() || spec_metal_available()),
{
    driver_backend_available() || metal_backend_available()
}

pub open spec fn spec_gpu_supports_scalar_kind(kind: ReductionKind) -> bool {
    kind is Sum || kind is Mean || kind is Min || kind is Max || kind is Count || kind is Var
        || kind is Std
}

/// Scalar reductions implemented on GPU for dense `f32`.
pub fn gpu_supports_scalar_kind(kind: ReductionKind) -> (r: bool)
    ensures
        r == spec_gpu_supports_scalar_kind(kind),
{
    match kind {
        ReductionKind::Sum | ReductionKind::Mean | ReductionKind::Min | ReductionKind::Max
        | ReductionKind::Count | ReductionKind::Var | ReductionKind::Std => true,
        _ => false,
    }
}

pub open spec fn spec_requested(hints: Option<ExecutionHints>) -> Option<ExecutionDeviceHint> {
    match hints {
        Some(h) => h.device,
        None => None,
    }
}

/// The routing reaches the reduction-kind check: a non-CPU device on an `f32`/`f16` selection
/// with a streaming-eligible operation.
pub open spec fn reaches_kind_check(
    hints: Option<ExecutionHints>,
    dtype: ElementDtype,
    operation: Option<Operation>,
) -> bool {
    &&& spec_requested(hints) is Some
    &&& spec_requested(hints) != Some(ExecutionDeviceHint::Cpu)
    &&& operation is Some
    &&& !operation->0.spec_requires_materialize()
    &&& (dtype == ElementDtype::F32 || dtype == ElementDtype::F16)
}

/// Inputs on which routing is defined: a scalar `null_count` must have its fill resolved.
pub open spec fn device_route_defined(
    hints: Option<ExecutionHints>,
    dtype: ElementDtype,
    operation: Option<Operation>,
) -> bool {
    reaches_kind_check(hints, dtype, operation) && operation->0.spec_axes().len() == 0
        ==> !(operation->0 matches Operation::NullCount { fill: None, .. })
}

pub open spec fn spec_auto_route(requested: Option<ExecutionDeviceHint>) -> DeviceRouteView {
    if spec_metal_available() {
        spec_gpu_route(requested, "metal"@, None, false)
    } else if spec_cuda_available() {
        spec_gpu_route(requested, "cuda"@, Some(0), false)
    } else if spec_rocm_available() {
        spec_gpu_route(requested, "rocm"@, Some(0), false)
    } else {
        spec_cpu_fallback(requested, "gpu_feature_disabled"@)
    }
}

/// The route chosen for an execution.
pub open spec fn spec_device_route(
    hints: Option<ExecutionHints>,
    element_count: usize,
    dtype: ElementDtype,
    operation: Option<Operation>,
) -> DeviceRouteView {
    let req = spec_requested(hints);
    if req is None {
        spec_cpu_only()
    } else if operation is None {
        spec_cpu_fallback(req, "preview_or_spill_only"@)
    } else if operation->0.spec_requires_materialize() {
        spec_cpu_fallback(req, "tier_c_materialize"@)
    } else if req == Some(ExecutionDeviceHint::Cpu) {
        DeviceRouteView {
            requested: req,
            used: "cpu"@,
            fallback_reason: None,
            gpu_reduce: false,
            gpu_pipeline: false,
            gpu_multi: false,
            cuda_device: None,
        }
    } else if !(dtype == ElementDtype::F32 || dtype == ElementDtype::F16) {
        spec_cpu_fallback(req, "gpu_unsupported_dtype"@)
    } else if !(operation->0.spec_axes().len() == 0 && spec_gpu_supports_scalar_kind(
        spec_kind_of(operation->0),
    )) {
        spec_cpu_fallback(req, "gpu_unsupported_op"@)
    } else if req == Some(ExecutionDeviceHint::Auto) && element_count * dtype.spec_elem_size()
        > u64::MAX {
        spec_cpu_fallback(req, "auto_unknown_logical_bytes"@)
    } else if req == Some(ExecutionDeviceHint::Auto) && element_count * dtype.spec_elem_size()
        < GPU_AUTO_MIN_LOGICAL_BYTES {
        spec_cpu_fallback(req, "auto_below_size_threshold"@)
    } else {
        match req->0 {
            ExecutionDeviceHint::Metal => if !spec_metal_available() {
                spec_cpu_fallback(req, "gpu_feature_disabled"@)
            } else {
                spec_gpu_route(req, "metal"@, None, false)
            },
            ExecutionDeviceHint::Cuda(idx) => if !spec_cuda_available() {
                spec_cpu_fallback(req, "gpu_feature_disabled"@)
            } else {
                spec_gpu_route(req, "cuda"@, Some(idx), false)
            },
            ExecutionDeviceHint::CudaMulti => if !spec_cuda_available() {
                spec_cpu_fallback(req, "gpu_feature_disabled"@)
            } else {
                spec_gpu_route(req, "cuda:multi"@, None, true)
            },
            ExecutionDeviceHint::Rocm(idx) => if !spec_rocm_available() {
                spec_cpu_fallback(req, "gpu_feature_disabled"@)
            } else {
                spec_gpu_route(req, "rocm"@, Some(idx), false)
            },
            ExecutionDeviceHint::RocmMulti => if !spec_rocm_available() {
                spec_cpu_fallback(req, "gpu_feature_disabled"@)
            } else {
                spec_gpu_route(req, "rocm:multi"@, None, true)
            },
            _ => spec_auto_route(req),
        }
    }
}

fn gpu_scalar_route(
    requested: Option<ExecutionDeviceHint>,
    used: &'static str,
    cuda_device: Option<usize>,
    multi: bool,
) -> (r: DeviceRoute)
    ensures
        r@ == spec_gpu_route(requested, used@, cuda_device, multi),
{
    DeviceRoute {
        requested,
        used,
        fallback_reason: None,
        gpu_reduce: true,
        gpu_pipeline: false,
        gpu_multi: multi,
        cuda_device,
    }
}

/// `device: auto` — Metal when enabled, else CUDA, else ROCm, else the host.
fn auto_device_route(requested: Option<ExecutionDeviceHint>) -> (r: DeviceRoute)
    ensures
        r@ == spec_auto_route(requested),
{
    if metal_backend_available() {
        return gpu_scalar_route(requested, "metal", None, false);
    }
    if cuda_backend_available() {
        return gpu_scalar_route(requested, "cuda", Some(0), false);
    }
    if rocm_backend_available() {
        return gpu_scalar_route(requested, "rocm", Some(0), false);
    }
    DeviceRoute::cpu_fallback(requested, "gpu_feature_disabled")
}

/// Pick host vs device reduction for one execution.
pub fn resolve_device_route(
    hints: Option<&ExecutionHints>,
    plan: &ReadPlan,
    dtype: ElementDtype,
    operation: Option<&Operation>,
) -> (r: DeviceRoute)
    requires
        device_route_defined(
            match hints {
                Some(h) => Some(*h),
                None => None,
            },
            dtype,
            match operation {
                Some(o) => Some(*o),
                None => None,
            },
        ),
    ensures
        r@ == spec_device_route(
            match hints {
                Some(h) => Some(*h),
                None => None,
            },
            plan.logical_f32_element_count,
            dtype,
            match operation {
                Some(o) => Some(*o),
                None => None,
            },
        ),
{
    let requested = match hints {
        Some(h) => match h.device {
            Some(d) => d,
            None => return DeviceRoute::cpu_only(),
        },
        None => return DeviceRoute::cpu_only(),
    };
    let op = match operation {
        Some(op) => op,
        None => return DeviceRoute::cpu_fallback(Some(requested), "preview_or_spill_only"),
    };
    if op.requires_materialize() {
        return DeviceRoute::cpu_fallback(Some(requested), "tier_c_materialize");
    }
    if requested == ExecutionDeviceHint::Cpu {
        return DeviceRoute {
            requested: Some(requested),
            used: "cpu",
            fallback_reason: None,
            gpu_reduce: false,
            gpu_pipeline: false,
            gpu_multi: false,
            cuda_device: None,
        };
    }
    if !(dtype == ElementDtype::F32 || dtype == ElementDtype::F16) {
        return DeviceRoute::cpu_fallback(Some(requested), "gpu_unsupported_dtype");
    }
    let supported = if op.axes().len() == 0 {
        let kind = ReductionKind::from_operation(op);
        gpu_supports_scalar_kind(kind)
    } else {
        false
    };
    if !supported {
        return DeviceRoute::cpu_fallback(Some(requested), "gpu_unsupported_op");
    }
    let logical_bytes = dtype.bytes_from_elem_count(plan.logical_f32_element_count as u64);
    if requested == ExecutionDeviceHint::Auto {
        match logical_bytes {
            None => {
                return DeviceRoute::cpu_fallback(Some(requested), "auto_unknown_logical_bytes");
            },
            Some(bytes) => {
                if bytes < GPU_AUTO_MIN_LOGICAL_BYTES {
                    return DeviceRoute::cpu_fallback(
                        Some(requested),
                        "auto_below_size_threshold",
                    );
                }
            },
        }
    }
    match requested {
        ExecutionDeviceHint::Metal => {
            if !metal_backend_available() {
                return DeviceRoute::cpu_fallback(Some(requested), "gpu_feature_disabled");
            }
            gpu_scalar_route(Some(requested), "metal", None, false)
        },
        ExecutionDeviceHint::Cuda(idx) => {
            if !cuda_backend_available() {
                return DeviceRoute::cpu_fallback(Some(requested), "gpu_feature_disabled");
            }
            gpu_scalar_route(Some(requested), "cuda", Some(idx), false)
        },
        ExecutionDeviceHint::CudaMulti => {
            if !cuda_backend_available() {
                return DeviceRoute::cpu_fallback(Some(requested), "gpu_feature_disabled");
            }
            gpu_scalar_route(Some(requested), "cuda:multi", None, true)
        },
        ExecutionDeviceHint::Rocm(idx) => {
            if !rocm_backend_available() {
                return DeviceRoute::cpu_fallback(Some(requested), "gpu_feature_disabled");
            }
            gpu_scalar_route(Some(requested), "rocm", Some(idx), false)
        },
        ExecutionDeviceHint::RocmMulti => {
            if !rocm_backend_available() {
                return DeviceRoute::cpu_fallback(Some(requested), "gpu_feature_disabled");
            }
            gpu_scalar_route(Some(requested), "rocm:multi", None, true)
        },
        _ => auto_device_route(Some(requested)),
    }
}

/// Without a device hint the host always runs the execution.
pub proof fn lemma_no_hint_runs_on_cpu(
    element_count: usize,
    dtype: ElementDtype,
    operation: Option<Operation>,
)
    ensures
        spec_device_route(None, element_count, dtype, operation) == spec_cpu_only(),
{
}

/// A fallback route never reports a GPU reduction, and every route without GPU reduction runs
/// on the host.
pub proof fn lemma_route_consistent(
    hints: Option<ExecutionHints>,
    element_count: usize,
    dtype: ElementDtype,
    operation: Option<Operation>,
)
    ensures
        spec_device_route(hints, element_count, dtype, operation).fallback_reason is Some
            ==> !spec_device_route(hints, element_count, dtype, operation).gpu_reduce,
        !spec_device_route(hints, element_count, dtype, operation).gpu_reduce ==> spec_device_route(
            hints,
            element_count,
            dtype,
            operation,
        ).used == "cpu"@,
{
}

} // verus!
