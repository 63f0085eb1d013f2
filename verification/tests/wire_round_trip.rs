use serde_json::{Number, Value};
use tet_query::document::parse_query_json;
use tet_query::float_bits::{bps_to_percent_bits, percent_bits_to_bps};
use tet_query::json::{JsonValue, NumberRepr};
use tet_query::types::{Operation, QueryDocument, TetError};
use tet_query::wire_encode::query_document_to_wire;

fn to_serde(v: &JsonValue) -> Value {
    match v {
        JsonValue::Null => Value::Null,
        JsonValue::Bool(b) => Value::Bool(*b),
        JsonValue::Number(n) => match n.repr {
            NumberRepr::PosInt(u) => Value::Number(Number::from(u)),
            NumberRepr::NegInt(i) => Value::Number(Number::from(i)),
            NumberRepr::Float(bits) => {
                Number::from_f64(f64::from_bits(bits)).map(Value::Number).unwrap_or(Value::Null)
            }
        },
        JsonValue::String(s) => Value::String(s.clone()),
        JsonValue::Array(items) => Value::Array(items.iter().map(to_serde).collect()),
        JsonValue::Object(members) => {
            let mut map = serde_json::Map::new();
            for (k, v) in members {
                map.insert(k.clone(), to_serde(v));
            }
            Value::Object(map)
        }
    }
}

fn wire_text(doc: &QueryDocument) -> String {
    to_serde(&query_document_to_wire(doc).expect("document encodes")).to_string()
}

fn round_trip(text: &str) -> (QueryDocument, QueryDocument) {
    let doc = parse_query_json(text).expect("document parses");
    let again = parse_query_json(&wire_text(&doc)).expect("wire text parses");
    (doc, again)
}

#[test]
fn plain_document_round_trips() {
    let (a, b) = round_trip(r#"{"dataset": "temp", "layout_version": 1, "mean": [0, 2]}"#);
    assert_eq!(a.dataset, b.dataset);
    assert_eq!(a.layout_version, b.layout_version);
    match (a.operation, b.operation) {
        (Some(Operation::Mean { axes: x }), Some(Operation::Mean { axes: y })) => assert_eq!(x, y),
        other => panic!("unexpected {other:?}"),
    }
}

#[test]
fn wire_text_uses_flat_keys() {
    let doc = parse_query_json(r#"{"dataset": "t", "sum": [3], "spill": "a.bin"}"#).unwrap();
    let v: Value = serde_json::from_str(&wire_text(&doc)).unwrap();
    assert_eq!(v["dataset"], "t");
    assert_eq!(v["sum"], 3);
    assert_eq!(v["spill"], "a.bin");
    let doc = parse_query_json(r#"{"dataset": "t", "max": []}"#).unwrap();
    let v: Value = serde_json::from_str(&wire_text(&doc)).unwrap();
    assert_eq!(v["max"], Value::Array(vec![]));
}

#[test]
fn parametric_document_round_trips() {
    let (a, b) = round_trip(
        r#"{"dataset": "t", "selection": [{"start": 1, "stop": 9, "step": 2}, {"start_label": "x"}], "histogram": {"bins": 12, "min": -2.5, "max": 7, "axes": [0, 1]}}"#,
    );
    match (&a.operation, &b.operation) {
        (
            Some(Operation::Histogram { axes: ax, bins: bx, min: nx, max: mx }),
            Some(Operation::Histogram { axes: ay, bins: by, min: ny, max: my }),
        ) => {
            assert_eq!(ax, ay);
            assert_eq!(bx, by);
            assert_eq!(nx, ny);
            assert_eq!(mx, my);
        }
        other => panic!("unexpected {other:?}"),
    }
    let (sa, sb) = (a.selection.unwrap(), b.selection.unwrap());
    assert_eq!(sa.len(), sb.len());
    for (x, y) in sa.iter().zip(sb.iter()) {
        assert_eq!((x.start, x.stop, x.step), (y.start, y.stop, y.step));
        assert_eq!((&x.start_label, &x.stop_label), (&y.start_label, &y.stop_label));
    }
    let (a, b) = round_trip(r#"{"dataset": "t", "quantile": {"q": 0.25, "axis": "time"}}"#);
    match (a.operation, b.operation) {
        (Some(Operation::Quantile { axes: x, q: p }), Some(Operation::Quantile { axes: y, q: r })) => {
            assert_eq!(x, y);
            assert_eq!(p, r);
        }
        other => panic!("unexpected {other:?}"),
    }
}

#[test]
fn transform_write_and_execution_round_trip() {
    let (a, b) = round_trip(
        r#"{"dataset": "t", "transform": {"method": "min_max_normalize", "axis": 0}, "write": {"target": "spill", "path": "o.bin"}, "execution": {"memory_budget_bytes": 77, "memory_budget_percent": 33.33, "fold_parallel": true, "device": "rocm:2"}}"#,
    );
    let (wa, wb) = (a.write.unwrap(), b.write.unwrap());
    assert_eq!(wa.target, wb.target);
    assert_eq!(wa.path, wb.path);
    assert_eq!(a.execution, b.execution);
    assert_eq!(b.execution.unwrap().memory_budget_percent_bps, Some(3333));
}

#[test]
fn index_labels_are_required_for_plain_operations() {
    let doc = parse_query_json(r#"{"dataset": "t", "mean": "time"}"#).unwrap();
    let err = query_document_to_wire(&doc).unwrap_err();
    assert!(matches!(err, TetError::Validation(_)));
    let doc = parse_query_json(r#"{"dataset": "t", "quantile": {"q": 0.5, "axes": ["a", "b"]}}"#).unwrap();
    assert!(query_document_to_wire(&doc).is_err());
}

#[test]
fn basis_points_survive_percent_text() {
    for bps in 0u16..=10_000 {
        let bits = bps_to_percent_bits(bps);
        assert_eq!(bits, (f64::from(bps) / 100.0).to_bits(), "{bps}");
        assert_eq!(percent_bits_to_bps(bits), u64::from(bps), "{bps}");
    }
    for bps in [10_001u16, 25_000, 65_535] {
        assert_eq!(bps_to_percent_bits(bps), (f64::from(bps) / 100.0).to_bits(), "{bps}");
    }
}
