use namidb_server::introspect::{
    introspect, normalize, sample_properties, try_introspect, DataType, EdgeSample, Endpoint,
    LabelSample, Procedure, PropertyTypes, SampledRecord, SchemaSnapshot, ValueKind,
};
use namidb_server::json::{document, parse, Json};
use namidb_server::outcome::{RunOutcome, StatementType};
use namidb_server::values::{
    json_to_runtime, params_from_json, rows_to_json, runtime_to_json, NodeValue, RelValue, Row,
    RuntimeValue,
};

fn entry<'a>(entries: &'a [(String, RuntimeValue)], key: &str) -> &'a RuntimeValue {
    match entries.iter().find(|(k, _)| k == key) {
        Some((_, v)) => v,
        None => panic!("no entry {}", key),
    }
}

fn value_text(v: &RuntimeValue) -> &str {
    match v {
        RuntimeValue::Text(s) => s.as_str(),
        _ => panic!("not a text"),
    }
}

#[test]
fn json_params_convert_nested_shapes_and_reject_out_of_range_integers() {
    let map = parse(
        r#"{"nested":{"list":[1,2.5,"x",null,true]},"imax":9223372036854775807,"imin":-9223372036854775808,"tenth":0.1}"#,
    )
    .unwrap();
    let params = params_from_json(&map).unwrap();
    match entry(&params, "nested") {
        RuntimeValue::Dict(m) => match entry(m, "list") {
            RuntimeValue::List(items) => {
                assert_eq!(items.len(), 5);
                assert!(matches!(items[0], RuntimeValue::Integer(1)));
                assert!(matches!(items[1], RuntimeValue::Float(f) if f64::from_bits(f) == 2.5));
                assert!(matches!(&items[2], RuntimeValue::Text(s) if s == "x"));
                assert!(matches!(items[3], RuntimeValue::Null));
                assert!(matches!(items[4], RuntimeValue::Bool(true)));
            }
            _ => panic!("nested list must survive"),
        },
        _ => panic!("nested map must survive"),
    }
    assert!(matches!(entry(&params, "imax"), RuntimeValue::Integer(i) if *i == i64::MAX));
    assert!(matches!(entry(&params, "imin"), RuntimeValue::Integer(i) if *i == i64::MIN));
    assert!(
        matches!(entry(&params, "tenth"), RuntimeValue::Float(f) if f64::from_bits(*f) == 0.1),
        "0.1 must round-trip bit-exact"
    );

    let oversized = parse(r#"{"big":18446744073709551615}"#).unwrap();
    let error = match params_from_json(&oversized) {
        Ok(_) => panic!("too wide"),
        Err(e) => e,
    };
    assert!(
        error.contains("64-bit signed range"),
        "a u64 beyond i64::MAX must be rejected, not degraded to a float: {}",
        error
    );
}

#[test]
fn parsing_refuses_what_is_no_json() {
    assert!(parse("{").is_err());
    assert!(parse("").is_err());
    assert!(matches!(parse("[1, 2]"), Ok(Json::Array(items)) if items.len() == 2));
}

#[test]
fn a_document_keeps_every_member() {
    let value: serde_json::Value = serde_json::from_str(r#"{"a":[true,null],"b":-3}"#).unwrap();
    let doc = document(&value);
    assert!(matches!(doc.get("b"), Some(Json::Integer(-3))));
    match doc.get("a") {
        Some(Json::Array(items)) => {
            assert!(matches!(items[0], Json::Bool(true)));
            assert!(matches!(items[1], Json::Null));
        }
        _ => panic!("array missing"),
    }
}

#[test]
fn a_plain_parameter_comes_back_as_it_went_in() {
    let doc = parse(r#"{"a":[1,"x",null,{"b":true}]}"#).unwrap();
    let value = match json_to_runtime(&doc) {
        Ok(v) => v,
        Err(_) => panic!("plain"),
    };
    let back = runtime_to_json(&value);
    match back.get("a") {
        Some(Json::Array(items)) => {
            assert!(matches!(items[0], Json::Integer(1)));
            assert!(matches!(&items[1], Json::Text(s) if s == "x"));
            assert!(matches!(items[3].get("b"), Some(Json::Bool(true))));
        }
        _ => panic!("array missing"),
    }
}

#[test]
fn wide_values_have_their_json_form() {
    match runtime_to_json(&RuntimeValue::Bytes(vec![1, 2, 3])) {
        Json::Text(s) => assert_eq!(s, "AQID"),
        _ => panic!("bytes are text"),
    }
    for (bytes, text) in [
        (vec![], ""),
        (vec![b'f'], "Zg=="),
        (vec![b'f', b'o'], "Zm8="),
        (vec![b'f', b'o', b'o', b'b'], "Zm9vYg=="),
        (vec![0xfb, 0xff, 0xbf], "+/+/"),
    ] {
        match runtime_to_json(&RuntimeValue::Bytes(bytes)) {
            Json::Text(s) => assert_eq!(s, text),
            _ => panic!("bytes are text"),
        }
    }
    match runtime_to_json(&RuntimeValue::DateTime(0)) {
        Json::Text(s) => assert_eq!(s, "1970-01-01T00:00:00+00:00"),
        _ => panic!("a moment is text"),
    }
    match runtime_to_json(&RuntimeValue::Float(f64::NAN.to_bits())) {
        Json::Null => {}
        _ => panic!("JSON has no such number"),
    }
    match runtime_to_json(&RuntimeValue::Float(2.5f64.to_bits())) {
        Json::Float(bits) => assert_eq!(f64::from_bits(bits), 2.5),
        _ => panic!("a float"),
    }
    let node = runtime_to_json(&RuntimeValue::Node(NodeValue {
        id: "n1".to_string(),
        labels: vec!["A".to_string()],
        properties: vec![("age".to_string(), RuntimeValue::Integer(3))],
    }));
    assert!(matches!(node.get("_kind"), Some(Json::Text(s)) if s == "node"));
    assert!(matches!(node.get("id"), Some(Json::Text(s)) if s == "n1"));
    assert!(matches!(node.get("label"), Some(Json::Text(s)) if s == "A"));
    assert!(matches!(node.get("labels"), Some(Json::Array(l)) if l.len() == 1));
    match node.get("properties") {
        Some(properties) => assert!(matches!(properties.get("age"), Some(Json::Integer(3)))),
        None => panic!("properties missing"),
    }
    let rel = runtime_to_json(&RuntimeValue::Rel(RelValue {
        edge_type: "KNOWS".to_string(),
        src: "a".to_string(),
        dst: "b".to_string(),
        properties: vec![],
    }));
    assert!(matches!(rel.get("_kind"), Some(Json::Text(s)) if s == "rel"));
    assert!(matches!(rel.get("edge_type"), Some(Json::Text(s)) if s == "KNOWS"));
}

#[test]
fn columns_come_from_the_first_row() {
    let row = |n: i64| Row {
        bindings: vec![
            ("a".to_string(), RuntimeValue::Integer(n)),
            ("b".to_string(), RuntimeValue::Null),
        ],
    };
    let (columns, rows) = rows_to_json(&vec![row(1), row(2)]);
    assert_eq!(columns, vec!["a".to_string(), "b".to_string()]);
    assert_eq!(rows.len(), 2);
    let (none, empty) = rows_to_json(&vec![]);
    assert!(none.is_empty() && empty.is_empty());
}

#[test]
fn introspection_calls_are_known_by_their_start() {
    assert_eq!(normalize("  CALL db.labels() ;; "), "CALL db.labels()");
    assert_eq!(
        try_introspect("call   DB.LABELS() YIELD label;"),
        Some(Procedure::DbLabels)
    );
    assert_eq!(
        try_introspect("SHOW DATABASES"),
        Some(Procedure::ShowDatabases)
    );
    assert_eq!(try_introspect("MATCH (n) RETURN n"), None);
    assert_eq!(try_introspect(""), None);
}

fn snapshot() -> SchemaSnapshot {
    let mut person = PropertyTypes::new();
    person.set("name", "String", false);
    person.set("age", "Int", false);
    let mut city = PropertyTypes::new();
    city.set("name", "String", false);
    SchemaSnapshot {
        labels: vec![
            LabelSample {
                label: "City".to_string(),
                count: 1,
                properties: city,
            },
            LabelSample {
                label: "Person".to_string(),
                count: 2,
                properties: person,
            },
        ],
        edges: vec![EdgeSample {
            edge_type: "LIVES_IN".to_string(),
            properties: PropertyTypes::new(),
        }],
        endpoints: vec![Endpoint {
            edge_type: "LIVES_IN".to_string(),
            src_label: Some("Person".to_string()),
            dst_label: Some("City".to_string()),
        }],
    }
}

fn first_column(out: &RunOutcome) -> Vec<String> {
    out.rows
        .iter()
        .map(|r| value_text(&r.bindings[0].1).to_string())
        .collect()
}

#[test]
fn labels_types_and_keys_are_listed() {
    let s = snapshot();
    let labels = introspect(Procedure::DbLabels, &s);
    assert_eq!(labels.statement_type, StatementType::Read);
    assert_eq!(labels.fields, vec!["label".to_string()]);
    assert_eq!(first_column(&labels), vec!["City", "Person"]);
    assert_eq!(
        first_column(&introspect(Procedure::DbRelationshipTypes, &s)),
        vec!["LIVES_IN"]
    );
    assert_eq!(
        first_column(&introspect(Procedure::DbPropertyKeys, &s)),
        vec!["age", "name"]
    );
}

#[test]
fn a_node_table_has_a_row_per_property() {
    let out = introspect(Procedure::NodeTypeProperties, &snapshot());
    assert_eq!(out.rows.len(), 3);
    let components = introspect(Procedure::DbmsComponents, &snapshot());
    assert_eq!(components.rows.len(), 1);
}

#[test]
fn the_schema_refers_its_relationships_to_its_labels() {
    let out = introspect(Procedure::MetaUtilSchema, &snapshot());
    assert_eq!(out.rows.len(), 1);
    match &out.rows[0].bindings[0].1 {
        RuntimeValue::Dict(doc) => {
            match entry(doc, "nodes") {
                RuntimeValue::List(nodes) => assert_eq!(nodes.len(), 2),
                _ => panic!("nodes"),
            }
            match entry(doc, "relationships") {
                RuntimeValue::List(rels) => match &rels[0] {
                    RuntimeValue::Dict(rel) => {
                        assert!(matches!(entry(rel, "start"), RuntimeValue::Integer(1)));
                        assert!(matches!(entry(rel, "end"), RuntimeValue::Integer(0)));
                    }
                    _ => panic!("a relationship"),
                },
                _ => panic!("relationships"),
            }
        }
        _ => panic!("a document"),
    }
}

#[test]
fn declared_types_win_over_sampled_ones() {
    let declared = vec![("age".to_string(), DataType::Int64)];
    let records = vec![SampledRecord {
        properties: vec![
            ("age".to_string(), ValueKind::Str),
            ("name".to_string(), ValueKind::Str),
        ],
    }];
    let types = sample_properties(&declared, &records);
    let out = introspect(
        Procedure::NodeTypeProperties,
        &SchemaSnapshot {
            labels: vec![LabelSample {
                label: "P".to_string(),
                count: 1,
                properties: types,
            }],
            edges: vec![],
            endpoints: vec![],
        },
    );
    assert_eq!(out.rows.len(), 2);
    let shown: Vec<String> = out
        .rows
        .iter()
        .map(|r| match entry(&r.bindings, "propertyTypes") {
            RuntimeValue::List(l) => value_text(&l[0]).to_string(),
            RuntimeValue::Text(s) => s.clone(),
            _ => panic!("a type"),
        })
        .collect();
    assert_eq!(shown, vec!["Int", "String"]);
}
