use tet_query::info::{
    DatasetListing, DatasetMetadata, InfoListFilter, InfoMetadataDisplay, InfoViewSections,
};
use tet_query::info_report::{
    filtered_summary, format_info_quiet, format_info_text, percent_text, CatalogMetadata,
    ChunkIndexEntry, FileExecutionSettings, FileMetadata, FileSummary, HistoryEvent, Superblock,
};
use tet_query::query_output::{
    fmt_name_list, fmt_shape, format_quiet_line, format_table_text, plan_quiet_line,
};
use tet_query::response::{plan_query_matched_response, DatasetResolution, QueryResponse};
use tet_query::types::{Operation, ReadPlan, TetError, CODEC_RAW, CODEC_ZSTD, DTYPE_F32, DTYPE_U8};

fn plan() -> ReadPlan {
    ReadPlan {
        dataset_shape: vec![2, 4],
        chunk_shape: vec![2, 2],
        selection_box_start: vec![0, 0],
        selection_box_stop_exclusive: vec![2, 4],
        selection_step: vec![1, 1],
        logical_selection_shape: vec![2, 4],
        logical_f32_element_count: 8,
        chunks: Vec::new(),
        chunk_count: 2,
        total_stored_bytes: 16,
        chunk_touch_policy: "dense".to_string(),
    }
}

fn response() -> QueryResponse {
    QueryResponse {
        status: "planned".to_string(),
        accepted: true,
        layout_version: Some(1),
        dataset: "temp".to_string(),
        selection_axes: None,
        operation: None,
        message: String::new(),
        tet_file: None,
        catalog: None,
        read_plan: None,
    }
}

#[test]
fn shapes_and_name_lists() {
    assert_eq!(fmt_shape(&vec![]), "0");
    assert_eq!(fmt_shape(&vec![2, 3, 10]), "2×3×10");
    let names: Vec<String> = vec!["a".into(), "b".into()];
    assert_eq!(fmt_name_list(&names), "[a,b]");
    let many: Vec<String> = (0..10).map(|i| format!("n{i}")).collect();
    assert_eq!(fmt_name_list(&many), "[n0,n1,n2,n3,n4,n5,n6,n7,…+2]");
    let eight: Vec<String> = (0..8).map(|i| format!("n{i}")).collect();
    assert_eq!(fmt_name_list(&eight), "[n0,n1,n2,n3,n4,n5,n6,n7]");
    assert_eq!(fmt_name_list(&Vec::new()), "[]");
}

#[test]
fn quiet_lines_for_plan_miss_and_echo() {
    assert_eq!(
        plan_quiet_line("temp", &plan()),
        "dataset=temp status=planned chunks=2 elements=8 stored_bytes=16 logical_shape=2×4 touch_policy=dense"
    );

    let mut echo = response();
    echo.selection_axes = Some(2);
    assert_eq!(
        format_quiet_line(&echo),
        "dataset=temp validated selection_rank=2 hint=pass --tet PATH for catalog and read_plan"
    );
    echo.selection_axes = None;
    assert_eq!(
        format_quiet_line(&echo),
        "dataset=temp validated hint=pass --tet PATH for catalog and read_plan"
    );

    let mut miss = response();
    miss.catalog = Some(DatasetResolution {
        matched: false,
        dataset_index: None,
        dtype: None,
        shape: None,
        chunk_shape: None,
        chunk_index_rows: None,
        dataset_f32_bytes: None,
        file_execution: None,
        available_datasets: Some(vec!["a".into(), "b".into()]),
    });
    miss.read_plan = Some(plan());
    assert_eq!(format_quiet_line(&miss), "dataset=temp status=not_found available=[a,b]");
    miss.catalog = Some(DatasetResolution { matched: false, dataset_index: None, dtype: None, shape: None, chunk_shape: None, chunk_index_rows: None, dataset_f32_bytes: None, file_execution: None, available_datasets: None });
    assert_eq!(format_quiet_line(&miss), "dataset=temp status=not_found");

    let mut planned = response();
    planned.catalog = Some(DatasetResolution { matched: true, dataset_index: None, dtype: None, shape: None, chunk_shape: None, chunk_index_rows: None, dataset_f32_bytes: None, file_execution: None, available_datasets: None });
    planned.read_plan = Some(plan());
    assert!(format_quiet_line(&planned).contains("status=planned chunks=2"));
}

#[test]
fn table_text_for_a_plan() {
    let mut r = response();
    r.operation = Some(Operation::Sum { axes: vec![] });
    r.tet_file = Some("/d/x.tet".to_string());
    r.message = "ok".to_string();
    r.read_plan = Some(plan());
    let mut want = String::from("query:\n");
    for (k, v) in [
        ("dataset", "temp"),
        ("status", "planned"),
        ("accepted", "true"),
        ("operation", "sum (scalar)"),
        ("tet_file", "/d/x.tet"),
        ("message", "ok"),
    ] {
        want.push_str(&format!("  {k:9}  {v}\n"));
    }
    want.push('\n');
    want.push_str("read_plan:\n");
    for (k, v) in [
        ("chunk_touch_policy", "dense"),
        ("chunk_count", "2"),
        ("total_stored_bytes", "16"),
        ("logical_shape", "2×4"),
        ("logical_elements", "8"),
    ] {
        want.push_str(&format!("  {k:18}  {v}\n"));
    }
    want.push('\n');
    assert_eq!(format_table_text(&r), want);

    r.operation = Some(Operation::Mean { axes: vec!["x".into(), "y".into()] });
    assert!(format_table_text(&r).contains("  operation  mean axes=[x,y]\n"));
}

#[test]
fn table_text_for_a_catalog_miss() {
    let mut r = response();
    r.catalog = Some(DatasetResolution {
        matched: false,
        dataset_index: None,
        dtype: None,
        shape: None,
        chunk_shape: None,
        chunk_index_rows: None,
        dataset_f32_bytes: None,
        file_execution: None,
        available_datasets: Some(vec!["alpha".into(), "beta".into()]),
    });
    r.read_plan = Some(plan());
    let want = "query:\n  dataset   temp\n  status    planned\n  accepted  true\n\n\
                catalog:\n  matched  false\n\n\
                datasets:\n    #  name\n    0  alpha\n    1  beta\n\n";
    assert_eq!(format_table_text(&r), want);

    r.catalog = Some(DatasetResolution { matched: false, dataset_index: None, dtype: None, shape: None, chunk_shape: None, chunk_index_rows: None, dataset_f32_bytes: None, file_execution: None, available_datasets: Some(vec![]) });
    assert!(format_table_text(&r).ends_with("catalog:\n  matched  false\n\ndatasets:\n  (none)\n\n"));
    r.catalog = Some(DatasetResolution { matched: false, dataset_index: None, dtype: None, shape: None, chunk_shape: None, chunk_index_rows: None, dataset_f32_bytes: None, file_execution: None, available_datasets: None });
    assert!(format_table_text(&r).ends_with("catalog:\n  matched  false\n\n"));
}

#[test]
fn long_messages_are_cut_in_the_table() {
    let mut r = response();
    r.message = "m".repeat(100);
    let text = format_table_text(&r);
    let want = format!("  message   {}…\n", "m".repeat(69));
    assert!(text.contains(&want), "{text}");
}

#[test]
fn percent_text_matches_float_display() {
    for bps in 0..=u16::MAX {
        assert_eq!(percent_text(bps), format!("{}", f64::from(bps) / 100.0), "{bps}");
    }
    assert_eq!(percent_text(2550), "25.5");
    assert_eq!(percent_text(5), "0.05");
    assert_eq!(percent_text(10000), "100");
}

fn summary() -> FileSummary {
    FileSummary {
        superblock: Superblock {
            layout_version: 1,
            dataset_count: 2,
            flags: 1,
            chunk_index_offset: 4096,
            chunk_index_length: 96,
        },
        datasets: vec![
            DatasetListing {
                name: "temp".into(),
                dtype: DTYPE_F32,
                shape: vec![4, 6],
                chunk_shape: vec![2, 6],
            },
            DatasetListing { name: "mask".into(), dtype: DTYPE_U8, shape: vec![4], chunk_shape: vec![4] },
        ],
        chunks: vec![
            ChunkIndexEntry {
                dataset_id: 0,
                chunk_index: vec![0, 0],
                raw_byte_len: 48,
                stored_byte_len: 48,
                codec: CODEC_RAW,
                payload_offset: 4200,
            },
            ChunkIndexEntry {
                dataset_id: 0,
                chunk_index: vec![1, 0],
                raw_byte_len: 48,
                stored_byte_len: 30,
                codec: CODEC_ZSTD,
                payload_offset: 4248,
            },
            ChunkIndexEntry {
                dataset_id: 1,
                chunk_index: vec![0],
                raw_byte_len: 4,
                stored_byte_len: 4,
                codec: CODEC_RAW,
                payload_offset: 4278,
            },
        ],
        file_execution: FileExecutionSettings { memory_budget_bytes: 0, memory_budget_percent_bps: 2550 },
        history: vec![HistoryEvent { kind: "create".into(), format: "json".into(), at: 1_700_000_000 }],
        metadata: CatalogMetadata {
            file: Some(FileMetadata {
                tool: Some("tet".into()),
                library_version: None,
                created_at: Some("2024-01-01".into()),
            }),
            datasets: vec![(
                "temp".to_string(),
                DatasetMetadata {
                    dim_names: Some(vec!["t".into(), "x".into()]),
                    attrs: vec![("units".into(), "K".into())],
                    coords: Some(vec![("t".into(), vec!["a".into(), "b".into()])]),
                },
            )],
        },
    }
}

fn dataset_header() -> String {
    format!("  {:>3}  {:<20}  {:<5}  {:<16}  {:<12}  chunks\n", "id", "name", "dtype", "shape", "chunk_shape")
}

fn dataset_line(id: usize, name: &str, dtype: &str, shape: &str, chunk_shape: &str, n: usize) -> String {
    format!("  {id:>3}  {name:<20}  {dtype:<5}  {shape:<16}  {chunk_shape:<12}  {n}\n")
}

fn chunk_header() -> String {
    format!(
        "  {:>4}  {:<12}  {:<8}  {:>10}  {:>10}  {:>5}  offset\n",
        "#", "dataset", "coords", "raw", "stored", "codec"
    )
}

fn chunk_line(i: usize, name: &str, coords: &str, raw: u64, stored: u64, codec: &str, off: u64) -> String {
    format!("  {i:>4}  {name:<12}  {coords:<8}  {raw:>10}  {stored:>10}  {codec:>5}  {off}\n")
}

#[test]
fn full_info_report() {
    let s = summary();
    let text = format_info_text(
        Some("/data/a.tet"),
        5000,
        &s,
        None,
        InfoViewSections::all(),
        0,
        InfoMetadataDisplay::WhenPresent,
    );
    let mut want = String::new();
    want.push_str("file: /data/a.tet\n");
    want.push_str("size: 5000 bytes  layout_version: 1  datasets: 2  chunks: 3\n");
    want.push_str("\nlayout:\n  layout_version:    1\n  dataset_count:     2\n");
    want.push_str("  flags:             1 (history_footer=true)\n");
    want.push_str("  chunk_index_offset: 4096\n  chunk_index_length: 96\n");
    want.push_str("\nexecution (file defaults):\n  memory_budget_percent: 25.5\n");
    want.push_str("\nfile metadata:\n  tool: tet\n  created_at: 2024-01-01\n\n");
    want.push_str("datasets:\n");
    want.push_str(&dataset_header());
    want.push_str(&dataset_line(0, "temp", "f32", "4×6", "2×6", 2));
    want.push_str("       dim_names: t, x\n       coords: t(2 labels)\n       units: K\n");
    want.push_str(&dataset_line(1, "mask", "?", "4", "4", 1));
    want.push_str("\nchunks:\n");
    want.push_str(&chunk_header());
    want.push_str(&chunk_line(0, "temp", "0,0", 48, 48, "raw", 4200));
    want.push_str(&chunk_line(1, "temp", "1,0", 48, 30, "zstd", 4248));
    want.push_str(&chunk_line(2, "mask", "0", 4, 4, "raw", 4278));
    want.push_str("\nhistory:\n");
    want.push_str(&format!("  {:>3}  create  json  at=1700000000\n", 1));
    assert_eq!(text, want);
}

#[test]
fn verbose_metadata_and_chunk_limit() {
    let mut s = summary();
    s.metadata.datasets[0].1.coords =
        Some(vec![("t".into(), (0..14).map(|i| format!("L{i}")).collect()), ("z".into(), vec![])]);
    let sections = InfoViewSections { layout: false, execution: false, datasets: true, chunks: true, history: false };
    let text = format_info_text(None, 1, &s, None, sections, 2, InfoMetadataDisplay::Verbose);
    assert!(text.contains(
        "       t: L0, L1, L2, L3, L4, L5, L6, L7, L8, L9, L10, L11 … (+2 more)\n       z: (empty)\n"
    ));
    assert!(text.contains("chunks:\n  (showing 2 of 3; use -n 0 for all)\n"));
    assert!(!text.contains("4278"));
}

#[test]
fn filtered_info_report() {
    let s = summary();
    let f = InfoListFilter { dataset: Some("MA".into()), grep: None };
    let kept = filtered_summary(summary(), Some(&f));
    assert_eq!(kept.datasets.len(), 1);
    assert_eq!(kept.datasets[0].name, "mask");
    assert_eq!(kept.chunks.len(), 1);
    assert_eq!(kept.chunks[0].dataset_id, 0);
    assert_eq!(kept.chunks[0].payload_offset, 4278);
    assert_eq!(kept.chunks[0].chunk_index, vec![0]);
    assert!(kept.metadata.datasets.is_empty());
    assert!(kept.metadata.file.is_some());
    assert_eq!(kept.superblock.dataset_count, 2);
    assert_eq!(kept.history.len(), 1);
    assert_eq!(kept.file_execution.memory_budget_percent_bps, 2550);
    assert_eq!(
        format_info_quiet(None, 5000, &s, Some(&f)),
        "path=- file_len=5000 layout=1 datasets=1 chunks=1 history=1"
    );
    let text = format_info_text(
        None,
        5000,
        &s,
        Some(&f),
        InfoViewSections { layout: false, execution: false, datasets: true, chunks: true, history: false },
        0,
        InfoMetadataDisplay::WhenPresent,
    );
    let mut want = String::new();
    want.push_str("size: 5000 bytes  layout_version: 1  datasets: 2  chunks: 3\n");
    want.push_str("filter: dataset~MA\n");
    want.push_str("\nfile metadata:\n  tool: tet\n  created_at: 2024-01-01\n\n");
    want.push_str("datasets:\n");
    want.push_str(&dataset_header());
    want.push_str(&dataset_line(0, "mask", "?", "4", "4", 1));
    want.push_str("\nchunks:\n");
    want.push_str(&chunk_header());
    want.push_str(&chunk_line(0, "mask", "0", 4, 4, "raw", 4278));
    assert_eq!(text, want);

    let none = InfoListFilter { dataset: None, grep: Some("nothing-here".into()) };
    let text = format_info_text(None, 1, &s, Some(&none), InfoViewSections::default_table(), 0, InfoMetadataDisplay::WhenPresent);
    assert!(text.ends_with("datasets: (no rows match filter)\n"));
    let grep_units = InfoListFilter { dataset: None, grep: Some("units".into()) };
    let by_units = filtered_summary(summary(), Some(&grep_units));
    assert_eq!(by_units.datasets.len(), 1);
    assert_eq!(by_units.datasets[0].name, "temp");
    assert_eq!(by_units.chunks.len(), 2);
    assert!(by_units.chunks.iter().all(|c| c.dataset_id == 0));
    assert_eq!(by_units.metadata.datasets.len(), 1);
    let all = filtered_summary(summary(), None);
    assert_eq!(all.datasets.len(), 2);
    assert_eq!(all.chunks.len(), 3);
    assert_eq!(all.chunks[2].dataset_id, 1);
}

#[test]
fn empty_catalog_report() {
    let s = FileSummary {
        superblock: Superblock { layout_version: 1, dataset_count: 0, flags: 0, chunk_index_offset: 0, chunk_index_length: 0 },
        datasets: vec![],
        chunks: vec![],
        file_execution: FileExecutionSettings { memory_budget_bytes: 0, memory_budget_percent_bps: 0 },
        history: vec![],
        metadata: CatalogMetadata { file: None, datasets: vec![] },
    };
    let text = format_info_text(None, 64, &s, None, InfoViewSections::all(), 0, InfoMetadataDisplay::WhenPresent);
    let want = "size: 64 bytes  layout_version: 1  datasets: 0  chunks: 0\n\
                \nlayout:\n  layout_version:    1\n  dataset_count:     0\n  flags:             0 (history_footer=false)\n  chunk_index_offset: 0\n  chunk_index_length: 0\n\
                \nexecution (file defaults):\n  (engine defaults — 25% host RAM when unset in query JSON)\n\
                \ndatasets: (empty file)\n\
                \nchunks: (none)\n\
                \nhistory:\n  (none)\n";
    assert_eq!(text, want);
    assert_eq!(format_info_quiet(Some("x.tet"), 64, &s, None), "path=x.tet file_len=64 layout=1 datasets=0 chunks=0 history=0");
}

#[test]
fn unmatched_dataset_response_lists_catalog_names() {
    let doc = tet_query::document::parse_query_json(r#"{"layout_version":1,"dataset":"salinity"}"#).unwrap();
    let s = summary();
    let r = tet_query::response::plan_query_unmatched_dataset(&doc, Some("/d/a.tet"), &s);
    assert_eq!(r.status, "planned");
    assert!(r.accepted);
    assert_eq!(r.dataset, "salinity");
    assert_eq!(r.tet_file.as_deref(), Some("/d/a.tet"));
    assert_eq!(
        r.message,
        "query accepted; dataset name not found in this file (see catalog.available_datasets)"
    );
    let c = r.catalog.as_ref().unwrap();
    assert!(!c.matched);
    assert_eq!(c.available_datasets, Some(vec!["temp".to_string(), "mask".to_string()]));
    assert_eq!(c.file_execution.map(|e| e.memory_budget_percent_bps), Some(2550));
    assert!(r.read_plan.is_none());
    assert_eq!(format_quiet_line(&r), "dataset=salinity status=not_found available=[temp,mask]");
}

#[test]
fn matched_dataset_response_describes_the_dataset() {
    let s = summary();
    let plain = tet_query::document::parse_query_json(r#"{"dataset":"temp"}"#).unwrap();
    let r = plan_query_matched_response(&plain, Some("/d/a.tet"), &s, 0, plan(), None).unwrap();
    assert_eq!(
        r.message,
        "query accepted; dataset matched; read_plan lists mmap payload regions for touched chunks"
    );
    let c = r.catalog.as_ref().unwrap();
    assert!(c.matched);
    assert_eq!(c.dataset_index, Some(0));
    assert_eq!(c.dtype, Some(DTYPE_F32));
    assert_eq!(c.shape, Some(vec![4, 6]));
    assert_eq!(c.chunk_shape, Some(vec![2, 6]));
    assert_eq!(c.chunk_index_rows, Some(2));
    assert_eq!(c.dataset_f32_bytes, Some(96));
    assert!(c.available_datasets.is_none());
    assert_eq!(r.read_plan.as_ref().map(|p| p.chunk_count), Some(plan().chunk_count));

    let mask = tet_query::document::parse_query_json(r#"{"dataset":"mask"}"#).unwrap();
    let r = plan_query_matched_response(&mask, None, &s, 1, plan(), Some(8)).unwrap();
    let c = r.catalog.as_ref().unwrap();
    assert_eq!(c.dataset_f32_bytes, None);
    assert_eq!(c.chunk_index_rows, Some(1));
    assert!(r.message.ends_with("; mmap f32 preview attached (see execution)"));
    match plan_query_matched_response(&mask, None, &s, 1, plan(), Some(0)) {
        Err(TetError::Validation(m)) => assert!(m.starts_with("preview limit 0 without `operation`")),
        other => panic!("unexpected {other:?}"),
    }

    let mean = tet_query::document::parse_query_json(r#"{"dataset":"temp","mean":0}"#).unwrap();
    match plan_query_matched_response(&mean, None, &s, 0, plan(), None) {
        Err(TetError::Validation(m)) => assert!(m.starts_with("`operation` requires mmap execution")),
        other => panic!("unexpected {other:?}"),
    }
    let r = plan_query_matched_response(&mean, None, &s, 0, plan(), Some(0)).unwrap();
    assert!(r.message.ends_with("; operation executed (see execution.memory_strategy and operation_*)"));
}
