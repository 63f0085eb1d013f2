use tet_query::document::{
    detect_query_input_format, parse_query_json, parse_query_text, parse_query_toml,
    validate_query, QueryInputFormat,
};
use tet_query::types::{
    ExecutionDeviceHint, Operation, OutputHint, QueryDocument, TetError, TransformMethod,
    WriteTarget,
};

fn parse(text: &str) -> QueryDocument {
    parse_query_json(text).expect("document should parse")
}

fn is_validation(e: &TetError) -> bool {
    matches!(e, TetError::Validation(_))
}

#[test]
fn parses_scalar_axis_shorthand() {
    let doc = parse(r#"{"dataset": "temp", "mean": 0}"#);
    assert_eq!(doc.dataset, "temp");
    match doc.operation {
        Some(Operation::Mean { axes }) => assert_eq!(axes, vec!["0".to_string()]),
        other => panic!("unexpected operation {other:?}"),
    }
    assert!(doc.selection.is_none());
    assert!(doc.output.is_none());
}

#[test]
fn parses_axis_list_and_empty_scalar_list() {
    let doc = parse(r#"{"dataset": "t", "sum": [0, 2]}"#);
    match doc.operation {
        Some(Operation::Sum { axes }) => assert_eq!(axes, vec!["0".to_string(), "2".to_string()]),
        other => panic!("unexpected operation {other:?}"),
    }
    let doc = parse(r#"{"dataset": "t", "max": []}"#);
    match doc.operation {
        Some(Operation::Max { axes }) => assert!(axes.is_empty()),
        other => panic!("unexpected operation {other:?}"),
    }
}

#[test]
fn parses_axis_labels_and_axis_objects() {
    let doc = parse(r#"{"dataset": "t", "min": {"axes": ["time", 1]}}"#);
    match doc.operation {
        Some(Operation::Min { axes }) => {
            assert_eq!(axes, vec!["time".to_string(), "1".to_string()])
        }
        other => panic!("unexpected operation {other:?}"),
    }
}

#[test]
fn parses_quantile_parameters() {
    let doc = parse(r#"{"dataset": "t", "quantile": {"q": 0.95, "axis": 1}}"#);
    match doc.operation {
        Some(Operation::Quantile { axes, q }) => {
            assert_eq!(axes, vec!["1".to_string()]);
            assert_eq!(q, 0.95f64.to_bits());
        }
        other => panic!("unexpected operation {other:?}"),
    }
}

#[test]
fn parses_histogram_parameters() {
    let doc = parse(r#"{"dataset": "t", "histogram": {"bins": 16, "min": 0, "max": 2.5}}"#);
    match doc.operation {
        Some(Operation::Histogram { axes, bins, min, max }) => {
            assert!(axes.is_empty());
            assert_eq!(bins, 16);
            assert_eq!(min, Some(0.0f64.to_bits()));
            assert_eq!(max, Some(2.5f64.to_bits()));
        }
        other => panic!("unexpected operation {other:?}"),
    }
}

#[test]
fn histogram_without_bins_is_rejected() {
    let err = parse_query_json(r#"{"dataset": "t", "histogram": {"min": 0}}"#).unwrap_err();
    assert!(is_validation(&err));
}

#[test]
fn parses_null_count_both_forms() {
    let doc = parse(r#"{"dataset": "t", "null_count": {"fill": -1, "axis": 0}}"#);
    match doc.operation {
        Some(Operation::NullCount { axes, fill }) => {
            assert_eq!(axes, vec!["0".to_string()]);
            assert_eq!(fill, Some((-1.0f64).to_bits()));
        }
        other => panic!("unexpected operation {other:?}"),
    }
    let doc = parse(r#"{"dataset": "t", "null_count": [1]}"#);
    match doc.operation {
        Some(Operation::NullCount { axes, fill }) => {
            assert_eq!(axes, vec!["1".to_string()]);
            assert_eq!(fill, None);
        }
        other => panic!("unexpected operation {other:?}"),
    }
}

#[test]
fn parses_transform_and_write() {
    let doc = parse(
        r#"{"dataset": "t", "transform": {"method": "zscore"}, "write": {"target": "sidecar", "path": "z.bin"}}"#,
    );
    match doc.operation {
        Some(Operation::Transform { method, axes }) => {
            assert_eq!(method, TransformMethod::Zscore);
            assert!(axes.is_empty());
        }
        other => panic!("unexpected operation {other:?}"),
    }
    let w = doc.write.expect("write hints");
    assert_eq!(w.target, WriteTarget::Sidecar);
    assert_eq!(w.path.as_deref(), Some("z.bin"));
    let doc = parse(r#"{"dataset": "t", "transform": {"method": "min_max_normalize"}, "write": "ram"}"#);
    assert_eq!(doc.write.expect("write").target, WriteTarget::Ram);
}

#[test]
fn write_object_defaults_to_switch() {
    let doc = parse(r#"{"dataset": "t", "transform": {"method": "zscore"}, "write": {}}"#);
    let w = doc.write.expect("write hints");
    assert_eq!(w.target, WriteTarget::Switch);
    assert!(w.path.is_none());
}

#[test]
fn unknown_transform_method_is_rejected() {
    let err = parse_query_json(r#"{"dataset": "t", "transform": {"method": "log"}}"#).unwrap_err();
    assert!(is_validation(&err));
}

#[test]
fn parses_spill_path() {
    let doc = parse(r#"{"dataset": "t", "spill": "out/selection.bin"}"#);
    match doc.output.expect("output").preferred {
        Some(OutputHint::SpillArray { handle }) => assert_eq!(handle, "out/selection.bin"),
        other => panic!("unexpected output {other:?}"),
    }
    let err = parse_query_json(r#"{"dataset": "t", "spill": ""}"#).unwrap_err();
    assert!(is_validation(&err));
}

#[test]
fn parses_selection_slices() {
    let doc = parse(
        r#"{"dataset": "t", "selection": [{"start": 1, "stop": 4, "step": 2}, {"start_label": "a", "stop": null}]}"#,
    );
    let sel = doc.selection.expect("selection");
    assert_eq!(sel.len(), 2);
    assert_eq!(sel[0].start, Some(1));
    assert_eq!(sel[0].stop, Some(4));
    assert_eq!(sel[0].step, Some(2));
    assert_eq!(sel[1].start, None);
    assert_eq!(sel[1].start_label.as_deref(), Some("a"));
    assert_eq!(sel[1].stop, None);
}

#[test]
fn malformed_selection_is_invalid_json() {
    let err = parse_query_json(r#"{"dataset": "t", "selection": [{"begin": 1}]}"#).unwrap_err();
    assert!(matches!(err, TetError::InvalidJson(_)));
    let err = parse_query_json(r#"{"dataset": "t", "selection": [{"start": -1}]}"#).unwrap_err();
    assert!(matches!(err, TetError::InvalidJson(_)));
}

#[test]
fn parses_execution_hints() {
    let doc = parse(
        r#"{"dataset": "t", "execution": {"memory_budget_bytes": 4096, "memory_budget_percent": 12.5, "fold_parallel": false, "device": "cuda:1"}}"#,
    );
    let ex = doc.execution.expect("execution");
    assert_eq!(ex.memory_budget_bytes, Some(4096));
    assert_eq!(ex.memory_budget_percent_bps, Some(1250));
    assert_eq!(ex.fold_parallel, Some(false));
    assert_eq!(ex.device, Some(ExecutionDeviceHint::Cuda(1)));
    let doc = parse(r#"{"dataset": "t", "execution": {"memory_budget_percent_bps": 700}}"#);
    assert_eq!(doc.execution.expect("execution").memory_budget_percent_bps, Some(700));
}

#[test]
fn execution_percent_and_bps_conflict() {
    let err = parse_query_json(
        r#"{"dataset": "t", "execution": {"memory_budget_percent_bps": 10, "memory_budget_percent": 1}}"#,
    )
    .unwrap_err();
    assert!(is_validation(&err));
}

#[test]
fn execution_out_of_range_values_are_rejected() {
    for text in [
        r#"{"dataset": "t", "execution": {"memory_budget_percent": 100.5}}"#,
        r#"{"dataset": "t", "execution": {"memory_budget_percent_bps": 10001}}"#,
        r#"{"dataset": "t", "execution": {"memory_budget_bytes": -1}}"#,
        r#"{"dataset": "t", "execution": {"fold_parallel": 1}}"#,
        r#"{"dataset": "t", "execution": {"device": "tpu"}}"#,
        r#"{"dataset": "t", "execution": {"threads": 4}}"#,
    ] {
        let err = parse_query_json(text).unwrap_err();
        assert!(is_validation(&err), "{text}");
    }
}

#[test]
fn percent_rounds_half_away_from_zero() {
    for pct in [0.0f64, 0.004, 0.005, 0.015, 33.335, 50.0, 99.995, 100.0] {
        let text = format!(r#"{{"dataset": "t", "execution": {{"memory_budget_percent": {pct}}}}}"#);
        let doc = parse(&text);
        let got = doc.execution.expect("execution").memory_budget_percent_bps;
        assert_eq!(got, Some((pct * 100.0).round() as u16), "{pct}");
    }
}

#[test]
fn rejects_nested_operation_and_output() {
    let err = parse_query_json(r#"{"dataset": "t", "operation": {"mean": 0}}"#).unwrap_err();
    assert!(is_validation(&err));
    let err = parse_query_json(r#"{"dataset": "t", "output": "x.bin"}"#).unwrap_err();
    assert!(is_validation(&err));
}

#[test]
fn rejects_unknown_keys_and_two_operations() {
    let err = parse_query_json(r#"{"dataset": "t", "colour": 1}"#).unwrap_err();
    assert!(is_validation(&err));
    let err = parse_query_json(r#"{"dataset": "t", "mean": 0, "sum": 0}"#).unwrap_err();
    assert!(is_validation(&err));
}

#[test]
fn rejects_missing_dataset_and_bad_axis_values() {
    assert!(is_validation(&parse_query_json(r#"{"mean": 0}"#).unwrap_err()));
    assert!(is_validation(&parse_query_json(r#"{"dataset": 3}"#).unwrap_err()));
    assert!(is_validation(&parse_query_json(r#"{"dataset": "t", "mean": null}"#).unwrap_err()));
    assert!(is_validation(&parse_query_json(r#"{"dataset": "t", "mean": true}"#).unwrap_err()));
    assert!(is_validation(&parse_query_json(r#"{"dataset": "t", "mean": -1}"#).unwrap_err()));
    assert!(is_validation(&parse_query_json(r#"{"dataset": "t", "mean": 1.5}"#).unwrap_err()));
    assert!(is_validation(&parse_query_json(r#"{"dataset": "t", "mean": "a b"}"#).unwrap_err()));
    assert!(is_validation(&parse_query_json(r#"{"dataset": "t", "mean": {}}"#).unwrap_err()));
}

#[test]
fn layout_version_must_fit_u32() {
    let doc = parse(r#"{"dataset": "t", "layout_version": 1}"#);
    assert_eq!(doc.layout_version, Some(1));
    let err = parse_query_json(r#"{"dataset": "t", "layout_version": 4294967296}"#).unwrap_err();
    assert!(is_validation(&err));
}

#[test]
fn invalid_json_text_is_invalid_json() {
    let err = parse_query_json("{\"dataset\": ").unwrap_err();
    assert!(matches!(err, TetError::InvalidJson(_)));
}

#[test]
fn oversized_payload_is_rejected() {
    let text = format!(r#"{{"dataset": "{}"}}"#, "a".repeat(1_048_577));
    let err = parse_query_json(&text).unwrap_err();
    assert!(is_validation(&err));
}

#[test]
fn deep_nesting_is_rejected() {
    let deep = format!("{}{}", "[".repeat(64), "]".repeat(64));
    let text = format!(r#"{{"dataset": "t", "spill": {deep}}}"#);
    let err = parse_query_json(&text).unwrap_err();
    assert!(is_validation(&err));
    let ok_depth = format!("{}0{}", "[".repeat(62), "]".repeat(62));
    let text = format!(r#"{{"dataset": "t", "x": {ok_depth}}}"#);
    // depth is fine (63), the unknown key is what fails
    let err = parse_query_json(&text).unwrap_err();
    assert!(is_validation(&err));
}

#[test]
fn toml_front_end_matches_json() {
    let doc = parse_query_toml("dataset = \"temp\"\nmean = [0, 1]\n").expect("toml parses");
    assert_eq!(doc.dataset, "temp");
    match doc.operation {
        Some(Operation::Mean { axes }) => assert_eq!(axes, vec!["0".to_string(), "1".to_string()]),
        other => panic!("unexpected operation {other:?}"),
    }
    let doc = parse_query_toml("dataset = \"t\"\n[execution]\nmemory_budget_percent = 2.5\n")
        .expect("toml parses");
    assert_eq!(doc.execution.expect("execution").memory_budget_percent_bps, Some(250));
    let err = parse_query_toml("dataset = ").unwrap_err();
    assert!(matches!(err, TetError::InvalidJson(_)));
}

#[test]
fn parse_query_text_dispatches_on_format() {
    let json = r#"  {"dataset": "a", "count": 0}"#;
    assert!(parse_query_text(json, QueryInputFormat::Auto).is_ok());
    assert!(parse_query_text(json, QueryInputFormat::Json).is_ok());
    assert!(parse_query_text(json, QueryInputFormat::Toml).is_err());
    let toml = "dataset = \"a\"\ncount = 0\n";
    assert!(parse_query_text(toml, QueryInputFormat::Auto).is_ok());
    assert!(parse_query_text(toml, QueryInputFormat::Json).is_err());
}

#[test]
fn detects_input_format() {
    assert_eq!(detect_query_input_format(Some("q.json"), "x = 1"), QueryInputFormat::Json);
    assert_eq!(detect_query_input_format(Some("dir/q.toml"), "{}"), QueryInputFormat::Toml);
    assert_eq!(detect_query_input_format(Some("q.txt"), " \n{}"), QueryInputFormat::Json);
    assert_eq!(detect_query_input_format(None, "dataset = 'a'"), QueryInputFormat::Toml);
    assert_eq!(detect_query_input_format(None, "\t{\"dataset\": \"a\"}"), QueryInputFormat::Json);
    assert_eq!(QueryInputFormat::default(), QueryInputFormat::Auto);
}

#[test]
fn device_hint_tokens_round_trip() {
    let hints = [
        ExecutionDeviceHint::Auto,
        ExecutionDeviceHint::Cpu,
        ExecutionDeviceHint::Metal,
        ExecutionDeviceHint::Cuda(0),
        ExecutionDeviceHint::Cuda(7),
        ExecutionDeviceHint::CudaMulti,
        ExecutionDeviceHint::Rocm(12),
        ExecutionDeviceHint::RocmMulti,
    ];
    for h in hints {
        let token = h.to_token();
        assert_eq!(ExecutionDeviceHint::parse(&token).expect("token parses"), h);
    }
    assert_eq!(ExecutionDeviceHint::Cuda(3).to_token(), "cuda:3");
    assert_eq!(ExecutionDeviceHint::parse("cuda").expect("cuda"), ExecutionDeviceHint::Cuda(0));
    assert_eq!(ExecutionDeviceHint::parse("rocm").expect("rocm"), ExecutionDeviceHint::Rocm(0));
    assert!(ExecutionDeviceHint::parse("cuda:").is_err());
    assert!(ExecutionDeviceHint::parse("cuda:x").is_err());
    assert!(ExecutionDeviceHint::parse("gpu").is_err());
}

#[test]
fn validate_accepts_plain_document() {
    let doc = parse(r#"{"dataset": "temp", "selection": [{"start": 0, "stop": 2}], "mean": [0]}"#);
    assert!(validate_query(&doc).is_ok());
}

#[test]
fn validate_rejects_bad_documents() {
    for text in [
        r#"{"dataset": "  "}"#,
        r#"{"dataset": "t", "selection": [{"step": 0}]}"#,
        r#"{"dataset": "t", "selection": [{"start": 3, "stop": 3}]}"#,
        r#"{"dataset": "t", "selection": [{"start": 1, "start_label": "a"}]}"#,
        r#"{"dataset": "t", "selection": [{}, {}, {}, {}, {}, {}, {}, {}, {}]}"#,
        r#"{"dataset": "t", "quantile": {"q": 1.5}}"#,
        r#"{"dataset": "t", "histogram": {"bins": 0}}"#,
        r#"{"dataset": "t", "histogram": {"bins": 4097}}"#,
        r#"{"dataset": "t", "histogram": {"bins": 4, "min": 1}}"#,
        r#"{"dataset": "t", "histogram": {"bins": 4, "min": 2, "max": 1}}"#,
        r#"{"dataset": "t", "covariance": [0, 1]}"#,
        r#"{"dataset": "t", "mean": [0, 1, 2, 3, 4, 5, 6, 7, 8]}"#,
        r#"{"dataset": "t", "write": "spill"}"#,
        r#"{"dataset": "t", "mean": 0, "write": "spill"}"#,
        r#"{"dataset": "t", "transform": {"method": "zscore"}, "spill": "a.bin"}"#,
        r#"{"dataset": "t", "transform": {"method": "zscore"}, "write": {"target": "ram", "path": "p"}}"#,
    ] {
        let doc = parse(text);
        let err = validate_query(&doc).unwrap_err();
        assert!(is_validation(&err), "{text}");
    }
}

#[test]
fn validate_accepts_parameter_edges() {
    for text in [
        r#"{"dataset": "t", "quantile": {"q": 0}}"#,
        r#"{"dataset": "t", "quantile": {"q": 1}}"#,
        r#"{"dataset": "t", "histogram": {"bins": 4096, "min": -1, "max": 1}}"#,
        r#"{"dataset": "t", "correlation": 0}"#,
        r#"{"dataset": "t", "transform": {"method": "zscore"}, "write": {"target": "spill", "path": "p"}}"#,
    ] {
        let doc = parse(text);
        assert!(validate_query(&doc).is_ok(), "{text}");
    }
}

fn validation_text<T: std::fmt::Debug>(r: Result<T, TetError>) -> String {
    match r {
        Err(TetError::Validation(m)) => m,
        other => panic!("expected a validation error, got {other:?}"),
    }
}

#[test]
fn parse_errors_name_the_offending_field() {
    assert_eq!(validation_text(parse_query_json(r#"{"dataset": "t", "bogus": 1}"#)), "unknown field `bogus`");
    assert_eq!(
        validation_text(parse_query_json(r#"{"dataset": "t", "execution": {"foo": 1}}"#)),
        "unknown field `execution.foo`"
    );
    assert_eq!(
        validation_text(parse_query_json(r#"{"dataset": "t", "transform": {"method": "zscore"}, "write": {"x": 1}}"#)),
        "unknown field `write.x`"
    );
    assert_eq!(
        validation_text(parse_query_json(r#"{"dataset": "t", "write": "disk"}"#)),
        "unknown write target `disk` (expected switch, spill, sidecar, or ram)"
    );
    assert_eq!(validation_text(parse_query_json(r#"{"dataset": "t", "spill": ""}"#)), "`spill` path must not be empty");
    assert_eq!(
        validation_text(parse_query_json(r#"{"dataset": "t", "spill": 3}"#)),
        "`spill` must be a string path (relative to the `.tet` parent or absolute)"
    );
    assert_eq!(
        validation_text(parse_query_json(r#"{"dataset": "t", "execution": {"memory_budget_bytes": -1}}"#)),
        "`execution.memory_budget_bytes` must be a non-negative integer"
    );
    assert_eq!(
        validation_text(parse_query_json(r#"{"dataset": "t", "layout_version": "1"}"#)),
        "`layout_version` must be a number"
    );
    assert_eq!(
        validation_text(parse_query_json(r#"{"dataset": "t", "execution": {"memory_budget_percent_bps": 10001}}"#)),
        "`execution.memory_budget_percent_bps` must be <= 10000 (100%)"
    );
    assert_eq!(
        validation_text(parse_query_json(r#"{"dataset": "t", "histogram": 3}"#)),
        "`histogram` must be a JSON object (e.g. { \"q\": 0.95, \"axis\": 0 })"
    );
    assert_eq!(
        validation_text(parse_query_json(r#"{"dataset": "t", "sum": "a-much-too-long-axis-label-beyond-32"}"#)),
        "axis label exceeds maximum length (32)"
    );
}

#[test]
fn validation_errors_carry_positions_and_sizes() {
    let doc = parse(r#"{"dataset": "t", "selection": [{}, {"step": 0}]}"#);
    assert_eq!(validation_text(validate_query(&doc)), "selection[1].step must be >= 1, got 0");
    let doc = parse(r#"{"dataset": "t", "selection": [{"start": 5, "stop": 2}]}"#);
    assert_eq!(validation_text(validate_query(&doc)), "selection[0]: start must be < stop when both set (got 5 >= 2)");
    let doc = parse(r#"{"dataset": "t", "selection": [{"start": 1, "start_label": "a"}]}"#);
    assert_eq!(validation_text(validate_query(&doc)), "selection[0]: use either `start` or `start_label`, not both");
    let long = "d".repeat(1025);
    let doc = parse(&format!(r#"{{"dataset": "{long}"}}"#));
    assert_eq!(validation_text(validate_query(&doc)), "`dataset` name exceeds maximum length (1025 > 1024)");
    let doc = parse(r#"{"dataset": "t", "selection": [{},{},{},{},{},{},{},{},{}]}"#);
    assert_eq!(validation_text(validate_query(&doc)), "selection rank 9 exceeds maximum 8");
    let doc = parse(r#"{"dataset": "t", "histogram": {"bins": 5000}}"#);
    assert_eq!(validation_text(validate_query(&doc)), "histogram bins exceeds maximum 4096 (got 5000)");
    let doc = parse(r#"{"dataset": "t", "sum": [0,1,2,3,4,5,6,7,8]}"#);
    assert_eq!(validation_text(validate_query(&doc)), "operation has 9 axes; maximum is 8");
    let big = format!(r#"{{"dataset": "{}"}}"#, "x".repeat(1_048_600));
    assert_eq!(
        validation_text(parse_query_json(&big)),
        format!("query document exceeds maximum size ({} bytes, limit 1048576)", big.len())
    );
    let deep = format!("{}{}", "[".repeat(70), "]".repeat(70));
    let nested = format!(r#"{{"dataset": "t", "selection": {deep}}}"#);
    assert!(validation_text(parse_query_json(&nested)).starts_with("query document nesting depth 71 exceeds maximum 64"));
}

#[test]
fn document_head_errors_have_fixed_messages() {
    assert_eq!(validation_text(parse_query_json("[1]")), "query document must be a JSON object");
    assert_eq!(
        validation_text(parse_query_json(r#"{"dataset": "t", "operation": {"mean": 0}}"#)),
        "nested `operation` is not supported; use a top-level op key (e.g. `\"mean\": 0`)"
    );
    assert_eq!(
        validation_text(parse_query_json(r#"{"dataset": "t", "output": "x.bin"}"#)),
        "nested `output` is not supported; use top-level `\"spill\": \"path\"`"
    );
    assert_eq!(validation_text(parse_query_json(r#"{"mean": 0}"#)), "`dataset` must be a string");
    assert_eq!(
        validation_text(parse_query_json(r#"{"dataset": "t", "layout_version": -1}"#)),
        "`layout_version` must be a non-negative integer"
    );
    assert_eq!(
        validation_text(parse_query_json(r#"{"dataset": "temps", "sum": 0, "mean": 1}"#)),
        "query document must include at most one reduction key"
    );
}

#[test]
fn document_level_validation_messages() {
    let doc = parse(r#"{"dataset": "   "}"#);
    assert_eq!(validation_text(validate_query(&doc)), "`dataset` must be a non-empty string");
    assert!(validate_query(&parse(r#"{"dataset": "d"}"#)).is_ok());
    let doc = parse(r#"{"dataset": "t", "write": "ram"}"#);
    assert_eq!(
        validation_text(validate_query(&doc)),
        "`write` requires a transform operation (`zscore` or `min_max_normalize`)"
    );
    let doc = parse(r#"{"dataset": "t", "mean": 0, "write": "ram"}"#);
    assert_eq!(
        validation_text(validate_query(&doc)),
        "`write` is only valid with `zscore` or `min_max_normalize`"
    );
    let doc = parse(r#"{"dataset": "t", "transform": {"method": "zscore"}, "spill": "o.bin"}"#);
    assert_eq!(
        validation_text(validate_query(&doc)),
        "transform operations use top-level `write`, not `spill`"
    );
}

#[test]
fn auto_format_fails_like_the_detected_format() {
    for text in [
        r#"{"dataset": "t", "sum": 0, "mean": 1}"#,
        r#"  {"dataset": "t", "colour": 1}"#,
        "dataset = \"t\"\nbogus = 1\n",
    ] {
        let auto = validation_text(parse_query_text(text, QueryInputFormat::Auto));
        let detected = validation_text(parse_query_text(text, detect_query_input_format(None, text)));
        assert_eq!(auto, detected);
    }
}
