use tet_query::preview_text::integer_preview_samples;
use tet_query::reduction::{operation_preview_route, PreviewRoute};
use tet_query::budget::{ExecutionBudget, MemoryStrategy, DEFAULT_MEMORY_BUDGET_BYTES};
use tet_query::chunk_decode::{planned_chunk_mmap_slices, prepare_chunk};
use tet_query::device::{gpu_backend_available, resolve_device_route, DeviceRoute};
use tet_query::dispatch::{materialize_for_execution, materialize_read_plan_bits_into, DecodePreview};
use tet_query::document::parse_query_json;
use tet_query::float_bits::percent_bits_to_bps;
use tet_query::fold_policy::{chunk_indices_for_fold, resolve_io_regime, FoldIoPolicy, IoRegime};
use tet_query::indexing::{coords_from_linear_row_major, linear_rm_index};
use tet_query::linear_scan::detect_contiguous_raw_span;
use tet_query::partial_geometry::{parse_axis_indices, partial_axis_layout, reduced_cell_index};
use tet_query::reduction::ReductionKind;
use tet_query::text::{parse_usize, u64_to_decimal};
use tet_query::types::{
    ElementDtype, ExecutionDeviceHint, ExecutionHints, FileExecutionSettingsV1, Operation, PlannedChunkIo,
    ReadPlan, TetError, CODEC_RAW, CODEC_ZSTD,
};

fn chunk(index: Vec<u64>, offset: u64, len: u64) -> PlannedChunkIo {
    PlannedChunkIo {
        chunk_index: index,
        payload_offset: offset,
        stored_byte_len: len,
        raw_byte_len: len,
        codec: CODEC_RAW,
    }
}

/// A 2x4 `u8` dataset stored as two 2x2 chunks; the selection is the whole tensor.
fn plan_2x4(chunks: Vec<PlannedChunkIo>) -> ReadPlan {
    let total: u64 = chunks.iter().map(|c| c.stored_byte_len).sum();
    let count = chunks.len();
    ReadPlan {
        dataset_shape: vec![2, 4],
        chunk_shape: vec![2, 2],
        selection_box_start: vec![0, 0],
        selection_box_stop_exclusive: vec![2, 4],
        selection_step: vec![1, 1],
        logical_selection_shape: vec![2, 4],
        logical_f32_element_count: 8,
        chunks,
        chunk_count: count,
        total_stored_bytes: total,
        chunk_touch_policy: "dense_half_open_unit_step".to_string(),
    }
}

fn hints() -> ExecutionHints {
    ExecutionHints {
        memory_budget_bytes: None,
        memory_budget_percent_bps: None,
        fold_parallel: None,
        device: None,
    }
}

#[test]
fn budget_prefers_query_bytes_then_file_then_percent() {
    let file = FileExecutionSettingsV1::default_engine();
    let mut h = hints();
    h.memory_budget_bytes = Some(0);
    let b = ExecutionBudget::resolve(&file, Some(&h), Some(1000));
    assert_eq!(b.memory_budget_bytes, 1);
    let file_fixed = FileExecutionSettingsV1 { memory_budget_bytes: 4096, memory_budget_percent_bps: 0 };
    let b = ExecutionBudget::resolve(&file_fixed, Some(&hints()), Some(1000));
    assert_eq!(b.memory_budget_bytes, 4096);
    let b = ExecutionBudget::resolve(&file, None, Some(1_000_000));
    assert_eq!(b.memory_budget_bytes, 250_000);
    assert_eq!(b.memory_budget_percent_bps, 2500);
    let mut h = hints();
    h.memory_budget_percent_bps = Some(1000);
    let b = ExecutionBudget::resolve(&file, Some(&h), Some(1_000_000));
    assert_eq!(b.memory_budget_bytes, 100_000);
    let b = ExecutionBudget::resolve(&file, None, None);
    assert_eq!(b.memory_budget_bytes, DEFAULT_MEMORY_BUDGET_BYTES);
    let b = ExecutionBudget::resolve(&file, None, Some(u64::MAX));
    assert_eq!(b.memory_budget_bytes, u64::MAX / 10_000);
}

#[test]
fn budget_byte_checks() {
    let b = ExecutionBudget::from_hints(None, Some(4000));
    assert_eq!(b.memory_budget_bytes, 1000);
    assert_eq!(b.logical_f32_bytes(250).unwrap(), 1000);
    assert!(!b.exceeds_budget_f32(250).unwrap());
    assert!(b.exceeds_budget_f32(251).unwrap());
    assert_eq!(b.logical_element_bytes(ElementDtype::F64, 3).unwrap(), 24);
    assert!(b.logical_element_bytes(ElementDtype::U64, usize::MAX).is_err());
    assert!(!b.full_tensor_exceeds_budget(&plan_2x4(vec![]), ElementDtype::U8).unwrap());
    assert_eq!(MemoryStrategy::StreamingFold.as_str(), "streaming_fold");
}

#[test]
fn row_major_index_round_trips() {
    let shape = [3u64, 4, 5];
    assert_eq!(linear_rm_index(&[2, 1, 3], &shape).unwrap(), 2 * 20 + 5 + 3);
    for li in 0..60usize {
        let coords = coords_from_linear_row_major(li, &shape).unwrap();
        assert_eq!(linear_rm_index(&coords, &shape).unwrap(), li);
    }
    assert!(linear_rm_index(&[3, 0, 0], &shape).is_err());
    assert!(linear_rm_index(&[0, 0], &shape).is_err());
}

#[test]
fn decimal_text_round_trips() {
    for n in [0u64, 7, 10, 4096, 18_446_744_073_709_551_615] {
        let s = u64_to_decimal(n);
        assert_eq!(s, n.to_string());
        assert_eq!(parse_usize(&s).map(|v| v as u64), Some(n));
    }
    assert_eq!(parse_usize("+12"), Some(12));
    assert_eq!(parse_usize(""), None);
    assert_eq!(parse_usize("1x"), None);
    assert_eq!(parse_usize("99999999999999999999999"), None);
}

#[test]
fn percent_to_basis_points_matches_float_rounding() {
    for pct in [0.0f64, 0.004, 0.005, 0.0149, 1.0, 12.5, 33.335, 66.665, 99.994, 99.995, 100.0] {
        assert_eq!(percent_bits_to_bps(pct.to_bits()), (pct * 100.0).round() as u64, "{pct}");
    }
}

#[test]
fn io_regime_uses_host_headroom() {
    let b = ExecutionBudget::from_hints(None, Some(10_000));
    assert_eq!(resolve_io_regime(&b, 8_500), IoRegime::InCore);
    assert_eq!(resolve_io_regime(&b, 8_501), IoRegime::OutOfCore);
    let unknown = ExecutionBudget::from_hints(None, None);
    assert_eq!(resolve_io_regime(&unknown, 1), IoRegime::Unknown);
    assert_eq!(IoRegime::OutOfCore.as_str(), "out_of_core");
}

#[test]
fn fold_order_follows_offsets_when_sequential() {
    let plan = plan_2x4(vec![chunk(vec![0, 0], 40, 4), chunk(vec![0, 1], 10, 4), chunk(vec![0, 2], 10, 4)]);
    assert_eq!(chunk_indices_for_fold(&plan, true), vec![1, 2, 0]);
    assert_eq!(chunk_indices_for_fold(&plan, false), vec![0, 1, 2]);
}

#[test]
fn fold_policy_for_full_dense_selection() {
    let plan = plan_2x4(vec![chunk(vec![0, 0], 0, 4), chunk(vec![0, 1], 4, 4)]);
    assert!(FoldIoPolicy::is_dense_unit_step_full_selection(&plan));
    let b = ExecutionBudget::from_hints(None, Some(1_000_000));
    let p = FoldIoPolicy::resolve(&plan, &b, None, ElementDtype::U8).unwrap();
    assert!(p.parallel && !p.linear_scan && !p.sequential_io);
    let mut h = hints();
    h.fold_parallel = Some(false);
    let p = FoldIoPolicy::resolve(&plan, &b, Some(&h), ElementDtype::U8).unwrap();
    assert!(!p.parallel && p.sequential_io);
    let tiny = ExecutionBudget::from_hints(None, Some(1));
    let p = FoldIoPolicy::resolve(&plan, &tiny, Some(&h), ElementDtype::U8).unwrap();
    assert!(p.linear_scan && !p.parallel);
    assert_eq!(p.io_regime, IoRegime::OutOfCore);
}

#[test]
fn contiguous_span_detection() {
    let plan = plan_2x4(vec![chunk(vec![0, 0], 16, 4), chunk(vec![0, 1], 20, 4)]);
    let span = detect_contiguous_raw_span(&plan, 1).expect("contiguous");
    assert_eq!((span.start, span.len), (16, 8));
    let gap = plan_2x4(vec![chunk(vec![0, 0], 16, 4), chunk(vec![0, 1], 21, 4)]);
    assert!(detect_contiguous_raw_span(&gap, 1).is_none());
}

#[test]
fn mmap_slices_and_codec_checks() {
    let mmap: Vec<u8> = (0u8..16).collect();
    let plan = plan_2x4(vec![chunk(vec![0, 0], 0, 4), chunk(vec![0, 1], 8, 4)]);
    let slices = planned_chunk_mmap_slices(&mmap, &plan).unwrap();
    assert_eq!(slices, vec![&mmap[0..4], &mmap[8..12]]);
    let mut zstd = chunk(vec![0, 1], 8, 4);
    zstd.codec = CODEC_ZSTD;
    let bad = plan_2x4(vec![zstd]);
    assert!(matches!(planned_chunk_mmap_slices(&mmap, &bad), Err(TetError::Validation(_))));
    let past_end = plan_2x4(vec![chunk(vec![0, 0], 14, 4)]);
    assert!(planned_chunk_mmap_slices(&mmap, &past_end).is_err());
}

#[test]
fn materializes_chunks_in_row_major_order() {
    // chunk (0,0) holds columns 0..2, chunk (0,1) holds columns 2..4, each 2x2 row-major
    let mmap: Vec<u8> = vec![1, 2, 5, 6, 3, 4, 7, 8];
    let plan = plan_2x4(vec![chunk(vec![0, 0], 0, 4), chunk(vec![0, 1], 4, 4)]);
    let prepared = prepare_chunk(&mmap, &plan, &plan.chunks[1], 1).unwrap();
    assert_eq!((prepared.raw_start, prepared.raw_end, prepared.nelem), (4, 8, 4));
    let (preview, bytes) = materialize_for_execution(&mmap, &plan, None, ElementDtype::U8).unwrap();
    assert_eq!(preview.bits, vec![1, 2, 3, 4, 5, 6, 7, 8]);
    assert!(!preview.truncated);
    assert_eq!(bytes, 8);
    let (capped, _) = materialize_for_execution(&mmap, &plan, Some(3), ElementDtype::U8).unwrap();
    assert_eq!(capped.bits, vec![1, 2, 3]);
    assert!(capped.truncated);
}

#[test]
fn materializes_into_caller_buffer() {
    let mmap: Vec<u8> = vec![1, 2, 5, 6, 3, 4, 7, 8];
    let plan = plan_2x4(vec![chunk(vec![0, 0], 0, 4), chunk(vec![0, 1], 4, 4)]);
    let mut dst = vec![9u64; 10];
    let o = materialize_read_plan_bits_into(&mmap, &plan, 1, Some(5), &mut dst).unwrap();
    assert_eq!(o.elements_written, 5);
    assert!(o.truncated);
    assert_eq!(o.logical_element_count, 8);
    assert_eq!(o.total_bytes_read_from_disk, 8);
    assert_eq!(dst, vec![1, 2, 3, 4, 5, 9, 9, 9, 9, 9]);
    let o = materialize_read_plan_bits_into(&mmap, &plan, 1, Some(0), &mut dst).unwrap();
    assert_eq!((o.elements_written, o.truncated, o.total_bytes_read_from_disk), (0, true, 0));
    let mut short = vec![0u64; 2];
    assert!(materialize_read_plan_bits_into(&mmap, &plan, 1, None, &mut short).is_err());
}

#[test]
fn uncovered_or_inconsistent_plans_are_rejected() {
    let mmap: Vec<u8> = vec![1, 2, 5, 6, 3, 4, 7, 8];
    // only the left chunk: columns 2..4 stay unwritten
    let half = plan_2x4(vec![chunk(vec![0, 0], 0, 4)]);
    assert!(matches!(
        materialize_for_execution(&mmap, &half, None, ElementDtype::U8),
        Err(TetError::Validation(_))
    ));
    let mut ragged = plan_2x4(vec![chunk(vec![0, 0], 0, 4), chunk(vec![0, 1], 4, 4)]);
    ragged.chunk_shape = vec![2];
    assert!(materialize_for_execution(&mmap, &ragged, None, ElementDtype::U8).is_err());
    // a zero cap reads nothing, even for a plan that would fail
    let (p, bytes) = materialize_for_execution(&mmap, &half, Some(0), ElementDtype::U8).unwrap();
    assert!(p.bits.is_empty());
    assert!(!p.truncated);
    assert_eq!(bytes, 0);
}

#[test]
fn mismatched_payload_length_is_rejected() {
    let mmap: Vec<u8> = vec![0; 16];
    let plan = plan_2x4(vec![chunk(vec![0, 0], 0, 3)]);
    assert!(materialize_for_execution(&mmap, &plan, None, ElementDtype::U8).is_err());
}

#[test]
fn partial_axis_geometry() {
    let axes = parse_axis_indices(&["1".to_string(), "0".to_string()], 3).unwrap();
    assert_eq!(axes, vec![0, 1]);
    assert!(parse_axis_indices(&["3".to_string()], 3).is_err());
    match parse_axis_indices(&["x".to_string()], 3) {
        Err(TetError::Validation(m)) => assert_eq!(m, "invalid operation axis index \"x\""),
        other => panic!("unexpected {other:?}"),
    }
    match parse_axis_indices(&["4".to_string()], 3) {
        Err(TetError::Validation(m)) => assert_eq!(m, "operation axis index 4 out of range for rank 3"),
        other => panic!("unexpected {other:?}"),
    }
    match parse_axis_indices(&["1".to_string(), "1".to_string()], 3) {
        Err(TetError::Validation(m)) => assert_eq!(m, "duplicate operation axis index 1"),
        other => panic!("unexpected {other:?}"),
    }
    assert!(parse_axis_indices(&["1".to_string(), "1".to_string()], 3).is_err());
    let plan = plan_2x4(vec![]);
    let layout = partial_axis_layout(&plan, &["1".to_string()]).unwrap();
    assert_eq!(layout.axis_indices, vec![1]);
    assert_eq!(layout.out_shape, vec![2]);
    assert_eq!(layout.out_len, 2);
    // logical element 6 is (1, 2): reducing axis 1 keeps row 1
    assert_eq!(reduced_cell_index(6, &[2, 4], &layout).unwrap(), (1, 2));
}

#[test]
fn device_route_without_hint_stays_on_cpu() {
    let plan = plan_2x4(vec![]);
    let doc = parse_query_json(r#"{"dataset": "t", "sum": []}"#).unwrap();
    let op = doc.operation.as_ref();
    let r = resolve_device_route(None, &plan, ElementDtype::F32, op);
    assert_eq!(r.used, "cpu");
    assert!(r.fallback_reason.is_none());
    let mut h = hints();
    h.device = Some(ExecutionDeviceHint::Cuda(0));
    let r = resolve_device_route(Some(&h), &plan, ElementDtype::F32, op);
    assert_eq!(r.used, "cpu");
    assert_eq!(r.fallback_reason, Some("gpu_feature_disabled"));
    let r = resolve_device_route(Some(&h), &plan, ElementDtype::I32, op);
    assert_eq!(r.fallback_reason, Some("gpu_unsupported_dtype"));
    let median = parse_query_json(r#"{"dataset": "t", "median": []}"#).unwrap();
    let r = resolve_device_route(Some(&h), &plan, ElementDtype::F32, median.operation.as_ref());
    assert_eq!(r.fallback_reason, Some("tier_c_materialize"));
    assert!(!gpu_backend_available());
    assert_eq!(DeviceRoute::cpu_only().used, "cpu");
}

#[test]
fn reduction_kind_of_streaming_ops() {
    let doc = parse_query_json(r#"{"dataset": "t", "nan_mean": 0}"#).unwrap();
    assert_eq!(ReductionKind::from_operation(doc.operation.as_ref().unwrap()), ReductionKind::NanMean);
    let doc = parse_query_json(r#"{"dataset": "t", "null_count": {"fill": 2}}"#).unwrap();
    assert_eq!(
        ReductionKind::from_operation(doc.operation.as_ref().unwrap()),
        ReductionKind::NullCount { fill: 2.0f64.to_bits() }
    );
}

#[test]
fn operation_preview_routes() {
    let mean_all = Operation::Mean { axes: vec![] };
    assert_eq!(operation_preview_route(&mean_all, false).unwrap(), PreviewRoute::ScalarFold(ReductionKind::Mean));
    let sum_axis = Operation::Sum { axes: vec!["0".to_string()] };
    assert_eq!(operation_preview_route(&sum_axis, true).unwrap(), PreviewRoute::PartialFold(ReductionKind::Sum));
    let median = Operation::Median { axes: vec![] };
    assert_eq!(operation_preview_route(&median, true).unwrap(), PreviewRoute::Materialize);
    match operation_preview_route(&median, false) {
        Err(TetError::Validation(m)) => assert_eq!(
            m,
            "materialize-required operation needs a spill path allowlist (pass `--tet` so defaults apply)"
        ),
        other => panic!("unexpected {other:?}"),
    }
}

#[test]
fn integer_preview_sample_text() {
    let p = |dtype: ElementDtype, bits: Vec<u64>| DecodePreview { dtype, bits, truncated: false };
    assert_eq!(integer_preview_samples(&p(ElementDtype::U8, vec![0, 7, 255])).as_deref(), Some("[0,7,255]"));
    assert_eq!(
        integer_preview_samples(&p(ElementDtype::I16, vec![0xFFFF, 0x8000, 0x7FFF])).as_deref(),
        Some("[-1,-32768,32767]")
    );
    assert_eq!(
        integer_preview_samples(&p(ElementDtype::I32, vec![0xFFFF_FFFE, 5])).as_deref(),
        Some("[-2,5]")
    );
    assert_eq!(
        integer_preview_samples(&p(ElementDtype::I64, vec![0x8000_0000_0000_0000, u64::MAX])).as_deref(),
        Some("[-9223372036854775808,-1]")
    );
    assert_eq!(
        integer_preview_samples(&p(ElementDtype::U64, (1..=9).collect())).as_deref(),
        Some("[1,2,3,4,5,6]")
    );
    assert_eq!(integer_preview_samples(&p(ElementDtype::U32, vec![])).as_deref(), Some("[]"));
    assert_eq!(integer_preview_samples(&p(ElementDtype::F32, vec![0])), None);
}
