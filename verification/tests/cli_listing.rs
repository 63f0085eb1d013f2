use tet_query::document::parse_query_json;
use tet_query::history::{
    format_history_list_text, history_entry_mode, history_queries_equal, history_recording_enabled,
    parse_history_execute_filter,
    CliQueryHistoryEntry, HistoryExecuteFilter, HistoryListFilter, HistoryLookupError,
    HistorySettings,
};
use tet_query::info::{
    info_view_sections_from_flags, DatasetListing, DatasetMetadata, InfoListFilter,
    InfoViewSections,
};
use tet_query::response::{
    format_catalog_miss_hint, format_query_stderr_hints, plan_query_empty, DatasetResolution,
    ExecuteQueryOptions, QueryOutputFormat,
};
use tet_query::spill_policy::{resolve_in_directory, tet_spill_parent, SpillPathAllowlist};
use tet_query::text::{contains_ascii_case_insensitive, truncate_field};
use tet_query::types::{TetError, DTYPE_F64, DTYPE_U8};

fn entry(at: u64, dataset: &str, tet: Option<&str>, execute: bool, op: &str) -> CliQueryHistoryEntry {
    let text = if op.is_empty() {
        format!(r#"{{"dataset": "{dataset}"}}"#)
    } else {
        format!(r#"{{"dataset": "{dataset}", "{op}": 0}}"#)
    };
    CliQueryHistoryEntry {
        at,
        tet: tet.map(str::to_owned),
        execute,
        query: parse_query_json(&text).expect("query parses"),
    }
}

fn empty_filter() -> HistoryListFilter {
    HistoryListFilter { dataset: None, tet: None, mode: None, grep: None }
}

#[test]
fn truncate_field_keeps_short_text_and_cuts_long_text() {
    assert_eq!(truncate_field("abc", 3), "abc");
    assert_eq!(truncate_field("abcdefghij", 5), "ab\u{2026}");
    assert_eq!(truncate_field("abcdef", 4), "a\u{2026}");
    assert_eq!(truncate_field("abcdef", 0), "");
    assert_eq!(truncate_field("abcdef", 2), "ab");
    // never splits a multi-byte character: "é" is two bytes
    assert_eq!(truncate_field("aéb", 2), "a");
    assert_eq!(truncate_field("éééé", 4), "\u{2026}");
    assert_eq!(truncate_field("éééé", 5), "\u{e9}\u{2026}");
    for max in 0..12 {
        assert!(truncate_field("a long field name", max).len() <= max);
    }
}

#[test]
fn case_insensitive_contains() {
    assert!(contains_ascii_case_insensitive("Temperature", "PERAT"));
    assert!(contains_ascii_case_insensitive("abc", ""));
    assert!(!contains_ascii_case_insensitive("abc", "abcd"));
    assert!(!contains_ascii_case_insensitive("abc", "x"));
}

#[test]
fn history_mode_labels_and_parsing() {
    assert_eq!(history_entry_mode(true), "x");
    assert_eq!(history_entry_mode(false), "p");
    assert_eq!(parse_history_execute_filter(" X ").unwrap(), HistoryExecuteFilter::Execute);
    assert_eq!(parse_history_execute_filter("Execute").unwrap(), HistoryExecuteFilter::Execute);
    assert_eq!(parse_history_execute_filter("p").unwrap(), HistoryExecuteFilter::Plan);
    assert_eq!(parse_history_execute_filter("PLAN\n").unwrap(), HistoryExecuteFilter::Plan);
    assert!(parse_history_execute_filter("run").is_err());
}

#[test]
fn history_filter_predicates() {
    let e = entry(1, "Temperature", Some("/data/ocean.tet"), true, "mean");
    let mut f = empty_filter();
    assert!(f.is_empty());
    assert!(f.matches(&e));
    f.dataset = Some("temp".into());
    assert!(f.matches(&e));
    f.tet = Some("OCEAN".into());
    assert!(f.matches(&e));
    f.mode = Some(HistoryExecuteFilter::Plan);
    assert!(!f.matches(&e));
    f.mode = Some(HistoryExecuteFilter::Execute);
    f.grep = Some("ocean.tet mean".into());
    assert!(f.matches(&e));
    f.grep = Some("sum".into());
    assert!(!f.matches(&e));
    assert!(!f.is_empty());
    assert_eq!(f.summary(), "dataset~temp tet~OCEAN mode=x grep~sum");
    assert_eq!(empty_filter().summary(), "");
}

#[test]
fn history_settings_override() {
    let d = HistorySettings::default();
    assert_eq!(d.cli_query_max, 50);
    assert_eq!(d.history_max_cap, 10_000);
    assert_eq!(d.history_file_name, "query_history.jsonl");
    assert_eq!(HistorySettings::with_max_override(Some(" 7 ")).cli_query_max, 7);
    assert_eq!(HistorySettings::with_max_override(Some("0")).cli_query_max, 50);
    assert_eq!(HistorySettings::with_max_override(Some("10001")).cli_query_max, 50);
    assert_eq!(HistorySettings::with_max_override(Some("ten")).cli_query_max, 50);
    assert_eq!(HistorySettings::with_max_override(None).cli_query_max, 50);
}

#[test]
fn history_list_is_newest_first_filtered_and_limited() {
    let s = HistorySettings::default();
    let stored = || {
        vec![
            entry(1, "a", None, true, "mean"),
            entry(2, "b", None, false, "sum"),
            entry(3, "a2", None, true, "max"),
        ]
    };
    let all = s.list(stored(), 0, true, None);
    assert_eq!(all.iter().map(|e| e.at).collect::<Vec<_>>(), vec![3, 2, 1]);
    let two = s.list(stored(), 2, false, None);
    assert_eq!(two.iter().map(|e| e.at).collect::<Vec<_>>(), vec![3, 2]);
    let mut f = empty_filter();
    f.dataset = Some("A".into());
    let only_a = s.list(stored(), 10, false, Some(&f));
    assert_eq!(only_a.iter().map(|e| e.at).collect::<Vec<_>>(), vec![3, 1]);
}

#[test]
fn history_get_by_index() {
    let s = HistorySettings::default();
    let stored = || vec![entry(1, "a", None, true, "mean"), entry(2, "b", None, false, "sum")];
    assert_eq!(s.get(stored(), 1, None).unwrap().at, 2);
    assert_eq!(s.get(stored(), 2, None).unwrap().at, 1);
    assert_eq!(
        s.get(stored(), 0, None).unwrap_err(),
        HistoryLookupError::NotFound { index: 0, have: 2 }
    );
    assert_eq!(
        s.get(Vec::new(), 1, None).unwrap_err(),
        HistoryLookupError::NotFound { index: 1, have: 0 }
    );
    assert_eq!(
        s.get(stored(), 3, None).unwrap_err(),
        HistoryLookupError::NotFound { index: 3, have: 2 }
    );
}

#[test]
fn history_append_dedups_and_trims() {
    let mut s = HistorySettings::default();
    s.cli_query_max = 2;
    let mut log = vec![entry(1, "a", Some("f.tet"), true, "mean")];
    s.append(&mut log, entry(5, "a", Some("f.tet"), true, "mean"), true);
    assert_eq!(log.len(), 1);
    assert_eq!(log[0].at, 5);
    s.append(&mut log, entry(6, "a", Some("g.tet"), true, "mean"), true);
    assert_eq!(log.iter().map(|e| e.at).collect::<Vec<_>>(), vec![5, 6]);
    s.append(&mut log, entry(7, "b", None, false, "sum"), false);
    assert_eq!(log.iter().map(|e| e.at).collect::<Vec<_>>(), vec![6, 7]);
    s.append(&mut log, entry(8, "b", None, false, "sum"), false);
    assert_eq!(log.iter().map(|e| e.at).collect::<Vec<_>>(), vec![7, 8]);
}

#[test]
fn history_list_text_empty_and_filtered() {
    let s = HistorySettings::default();
    let text = format_history_list_text(&vec![], None, &s, None);
    assert_eq!(
        text,
        "shown: 0  keep: 50 on disk\n(empty \u{2014} run `tet query \u{2026} -t file.tet -x` to record)\n"
    );
    let mut f = empty_filter();
    f.grep = Some("zz".into());
    let text = format_history_list_text(&vec![], Some("/tmp/h.jsonl"), &s, Some(&f));
    assert_eq!(
        text,
        "file: /tmp/h.jsonl\nshown: 0  keep: 50 on disk\nfilter: grep~zz\n(no rows match filter)\n"
    );
}

#[test]
fn history_list_text_rows() {
    let s = HistorySettings::default();
    let rows = vec![
        entry(2, "temperature_anomaly_daily", Some("/data/ocean.tet"), true, "mean"),
        entry(1, "t", None, false, ""),
    ];
    let text = format_history_list_text(&rows, None, &s, None);
    let expected = [
        "shown: 2  keep: 50 on disk\n",
        "\n",
        "  #  mode  dataset             op          select    tet\n",
        "  1   x    temperature_ano\u{2026}    mean        full      ocean.tet\n",
        "  2   p    t                   -           full      -\n",
        "\n",
        "mode: x = had -x (execute), p = plan only (no -x)\n",
        "replay: tet qhist run <#>  (1 = newest)\n",
    ]
    .concat();
    assert_eq!(text, expected);
}

#[test]
fn info_sections_from_flags() {
    assert_eq!(info_view_sections_from_flags(true, false, false, false, false, false), InfoViewSections::all());
    assert_eq!(
        info_view_sections_from_flags(false, false, false, false, false, false),
        InfoViewSections::default_table()
    );
    let s = info_view_sections_from_flags(false, true, false, false, true, false);
    assert!(s.layout && s.chunks && !s.datasets && !s.execution && !s.history);
}

#[test]
fn info_filter_matches_metadata() {
    let rec = DatasetListing {
        name: "Sea_Temp".into(),
        dtype: DTYPE_F64,
        shape: vec![4, 3],
        chunk_shape: vec![2, 3],
    };
    let meta = DatasetMetadata {
        dim_names: Some(vec!["time".into(), "depth".into()]),
        attrs: vec![("units".into(), "kelvin".into())],
        coords: Some(vec![("depth".into(), vec!["surface".into(), "deep".into()])]),
    };
    let f = InfoListFilter { dataset: Some("sea".into()), grep: Some("F64".into()) };
    assert!(f.matches_dataset(&rec, None));
    assert_eq!(f.summary(), "dataset~sea grep~F64");
    let f = InfoListFilter { dataset: None, grep: Some("KELVIN".into()) };
    assert!(!f.matches_dataset(&rec, None));
    assert!(f.matches_dataset(&rec, Some(&meta)));
    let f = InfoListFilter { dataset: None, grep: Some("depth surface".into()) };
    assert!(f.matches_dataset(&rec, Some(&meta)));
    let other = DatasetListing { name: "mask".into(), dtype: DTYPE_U8, shape: vec![4], chunk_shape: vec![4] };
    let f = InfoListFilter { dataset: None, grep: Some("?".into()) };
    assert!(f.matches_dataset(&other, None));
    assert!(InfoListFilter { dataset: None, grep: None }.is_empty());
}

#[test]
fn plan_query_empty_echoes_document() {
    let doc = parse_query_json(r#"{"dataset": "t", "layout_version": 1, "selection": [{}, {}], "sum": 0}"#)
        .expect("parses");
    let r = plan_query_empty(&doc);
    assert_eq!(r.status, "planned");
    assert!(r.accepted);
    assert_eq!(r.layout_version, Some(1));
    assert_eq!(r.dataset, "t");
    assert_eq!(r.selection_axes, Some(2));
    assert!(r.operation.is_some());
    assert!(r.message.starts_with("query accepted and validated"));
    assert!(r.tet_file.is_none() && r.catalog.is_none() && r.read_plan.is_none());
}

#[test]
fn catalog_miss_hint_lists_datasets() {
    let doc = parse_query_json(r#"{"dataset": "tmp"}"#).expect("parses");
    let mut r = plan_query_empty(&doc);
    assert!(format_catalog_miss_hint(&r).is_none());
    r.catalog = Some(DatasetResolution { matched: true, dataset_index: None, dtype: None, shape: None, chunk_shape: None, chunk_index_rows: None, dataset_f32_bytes: None, file_execution: None, available_datasets: None });
    assert!(format_catalog_miss_hint(&r).is_none());
    r.catalog = Some(DatasetResolution {
        matched: false,
        dataset_index: None,
        dtype: None,
        shape: None,
        chunk_shape: None,
        chunk_index_rows: None,
        dataset_f32_bytes: None,
        file_execution: None,
        available_datasets: Some(vec!["temp".into(), "salt".into()]),
    });
    r.tet_file = Some("ocean.tet".into());
    assert_eq!(
        format_catalog_miss_hint(&r).unwrap(),
        "hint: dataset \"tmp\" not found in this .tet\navailable datasets:\n  temp\n  salt\ntip: run `tet info ocean.tet` to list catalog datasets\n"
    );
    r.catalog = Some(DatasetResolution { matched: false, dataset_index: None, dtype: None, shape: None, chunk_shape: None, chunk_index_rows: None, dataset_f32_bytes: None, file_execution: None, available_datasets: None });
    assert_eq!(
        format_query_stderr_hints(&r).unwrap(),
        "hint: dataset \"tmp\" not found in this .tet\n"
    );
}

#[test]
fn output_format_tokens() {
    assert_eq!(QueryOutputFormat::parse("TABLE").unwrap(), QueryOutputFormat::Table);
    assert_eq!(QueryOutputFormat::parse("stats").unwrap(), QueryOutputFormat::Stats);
    assert!(QueryOutputFormat::parse("yaml").is_err());
    assert_eq!(
        QueryOutputFormat::parse("YAML").unwrap_err(),
        "unknown output format \"yaml\"; expected full, json, stats, plan, quiet, or table"
    );
    assert_eq!("Quiet".parse::<QueryOutputFormat>(), Ok(QueryOutputFormat::Quiet));
    assert_eq!(QueryOutputFormat::default(), QueryOutputFormat::Full);
}

#[test]
fn execute_options_presets() {
    assert_eq!(ExecuteQueryOptions::default().preview_max, Some(0));
    assert_eq!(ExecuteQueryOptions::execute_no_preview().preview_max, Some(0));
    assert_eq!(ExecuteQueryOptions::plan_only().preview_max, None);
}

#[test]
fn spill_allowlist_roots_and_validation() {
    let empty = SpillPathAllowlist::from_roots("/data".into(), vec![]);
    assert!(empty.is_empty());
    assert!(empty.validate("x.bin", "/data/x.bin").is_err());
    let a = SpillPathAllowlist::default_for_tet(
        "/data".into(),
        vec!["/cache/tetration".into(), "/data".into()],
        vec!["/scratch".into(), "/cache/tetration".into()],
    );
    assert!(!a.is_empty());
    assert_eq!(a.relative_base(), "/data");
    assert_eq!(a.validate("out/x.bin", "/data/out/x.bin").unwrap(), "/data/out/x.bin");
    assert!(a.validate("/scratch/y.bin", "/scratch/y.bin").is_ok());
    assert!(a.validate("/datasets/y.bin", "/datasets/y.bin").is_err());
    assert!(a.validate("/etc/passwd", "/etc/passwd").is_err());
    match a.validate("../etc/passwd", "/etc/passwd") {
        Err(TetError::Validation(m)) => assert_eq!(
            m,
            "spill path ../etc/passwd is not under an allowed root (.tet directory, platform cache, or --spill-allow); resolved to /etc/passwd"
        ),
        other => panic!("unexpected {other:?}"),
    }
}

#[test]
fn history_opt_out_values() {
    assert!(history_recording_enabled(None));
    assert!(!history_recording_enabled(Some("1")));
    assert!(!history_recording_enabled(Some("true")));
    assert!(history_recording_enabled(Some("yes")));
    assert!(history_recording_enabled(Some("TRUE")));
    assert!(history_recording_enabled(Some("0")));
}

#[test]
fn recorded_queries_compare_by_document() {
    let q = |t: &str| tet_query::document::parse_query_json(t).unwrap();
    let a = q(r#"{"dataset": "t", "mean": [0, 1], "selection": [{"start": 1}]}"#);
    let b = q(r#"{"selection": [{"start": 1}], "mean": [0, 1], "dataset": "t"}"#);
    assert!(history_queries_equal(&a, &b));
    let c = q(r#"{"dataset": "t", "mean": [0, 2], "selection": [{"start": 1}]}"#);
    assert!(!history_queries_equal(&a, &c));
    let d = q(r#"{"dataset": "t", "quantile": {"q": 0.5, "axis": 0}}"#);
    let e = q(r#"{"dataset": "t", "quantile": {"q": 0.25, "axis": 0}}"#);
    assert!(history_queries_equal(&d, &d));
    assert!(!history_queries_equal(&d, &e));
    // a plain operation over a named axis has no wire form, so it never repeats a row
    let named = q(r#"{"dataset": "t", "mean": "time"}"#);
    assert!(!history_queries_equal(&named, &named));
}

#[test]
fn spill_files_resolve_under_the_tet_directory() {
    assert_eq!(tet_spill_parent("/data/a.tet").unwrap(), "/data");
    assert_eq!(tet_spill_parent("sub/a.tet").unwrap(), "sub");
    match tet_spill_parent("a.tet") {
        Err(TetError::Validation(m)) => {
            assert_eq!(m, "cannot derive spill relative base from `.tet` path a.tet")
        }
        other => panic!("unexpected {other:?}"),
    }
    assert!(tet_spill_parent("/").is_err());
    assert_eq!(resolve_in_directory("/data", "out.bin"), "/data/out.bin");
    let a = SpillPathAllowlist::default_for_tet("/data".into(), vec!["/cache".into()], vec![]);
    assert_eq!(a.validate_file_in_base("out.bin", "out.bin").unwrap(), "/data/out.bin");
}
