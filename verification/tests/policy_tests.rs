use namidb_server::auth::{Principal, Role};
use namidb_server::authz::{AuthzHook, Denied, NoOpAuthz, SchemaOp};
use namidb_server::json::Json;
use namidb_server::pdp::{
    decide, evaluate, extract_allow, operator_names, plan_input, policy_answer, policy_request, role_str,
    schema_input, OpaAuthz,
};
use namidb_server::plan::{
    collect_route_notes, explain_plan_lines, plan_contains_node_scan, ExplainMode, IndexLookup,
    PlanNode, PlanOperator,
};

fn principal() -> Principal {
    Principal {
        subject: "alice".to_string(),
        role: Role::ReadWrite,
        groups: vec!["eng".to_string()],
    }
}

fn scan() -> PlanNode {
    PlanNode {
        name: "NodeScan".to_string(),
        operator: PlanOperator::NodeScan,
        children: vec![],
    }
}

fn node(name: &str, children: Vec<PlanNode>) -> PlanNode {
    PlanNode {
        name: name.to_string(),
        operator: PlanOperator::Other,
        children,
    }
}

fn lookup(numeric: bool, multi: bool, covered: u64, total: u64) -> PlanNode {
    PlanNode {
        name: "NodeByPropertyValue".to_string(),
        operator: PlanOperator::Lookup(IndexLookup {
            label: "Person".to_string(),
            property: "email".to_string(),
            numeric,
            multi,
            covered,
            total,
        }),
        children: vec![],
    }
}

fn text<'a>(doc: &'a Json, key: &str) -> &'a str {
    match doc.get(key) {
        Some(Json::Text(s)) => s.as_str(),
        _ => panic!("no text under {}", key),
    }
}

struct DenyAll;

impl AuthzHook for DenyAll {
    fn check(&self, _p: &Principal, _plan: &PlanNode) -> Result<(), Denied> {
        Err(Denied::new("denied by policy"))
    }

}

#[test]
fn noop_allows_everything() {
    assert!(NoOpAuthz.check(&principal(), &scan()).is_ok());
    assert!(NoOpAuthz
        .check_schema(&principal(), SchemaOp::DropVectorIndex { name: "ix" })
        .is_ok());
}

#[test]
fn deny_all_denies() {
    let err = DenyAll.check(&principal(), &scan()).unwrap_err();
    assert!(err.to_text().contains("denied by policy"));
    assert_eq!(err.to_text(), "authorization denied: denied by policy");
    assert!(DenyAll
        .check_schema(&principal(), SchemaOp::DropVectorIndex { name: "ix" })
        .is_ok());
}

#[test]
fn allows_on_every_accepted_true_shape() {
    assert!(decide(r#"{"result":{"allow":true}}"#).is_ok());
    assert!(decide(r#"{"result":{"allow":false}}"#).is_err());
    assert!(decide(r#"{"result":true}"#).is_ok());
    assert!(decide(r#"{"result":false}"#).is_err());
    assert!(decide("true").is_ok());
    assert!(decide("false").is_err());
    assert!(decide(r#"{"allow":true}"#).is_ok());
    assert!(decide(r#"{"allow":false}"#).is_err());
}

#[test]
fn fail_closed_on_malformed_or_missing() {
    assert!(decide("{}").is_err());
    assert!(decide(r#"{"result":{}}"#).is_err());
    assert!(decide("not json").is_err());
    assert!(decide("").is_err());
    assert!(decide(r#"{"result":{"allow":"true"}}"#).is_err());
    assert!(decide(r#"{"allow":1}"#).is_err());
    assert!(decide(r#""true""#).is_err());
    assert!(decide("1").is_err());
}

#[test]
fn every_refusal_says_why() {
    assert_eq!(decide("false").unwrap_err().reason, "denied by policy");
    assert!(decide("not json")
        .unwrap_err()
        .reason
        .starts_with("policy response not understood: "));
    assert_eq!(
        evaluate(Err("connection refused".to_string()))
            .unwrap_err()
            .reason,
        "policy endpoint unavailable: connection refused"
    );
    assert!(evaluate(Ok("true".to_string())).is_ok());
}

#[test]
fn a_failing_endpoint_denies() {
    assert_eq!(
        policy_answer(200, "200 OK", "true".to_string()),
        Ok("true".to_string())
    );
    let bad = policy_answer(500, "500 Internal Server Error", "true".to_string());
    assert_eq!(
        evaluate(bad).unwrap_err().reason,
        "policy endpoint unavailable: policy endpoint returned status 500 Internal Server Error"
    );
}

#[test]
fn decision_is_found_in_nested_results() {
    let inner = Json::Object(vec![("allow".to_string(), Json::Bool(true))]);
    let doc = Json::Object(vec![(
        "result".to_string(),
        Json::Object(vec![("result".to_string(), inner)]),
    )]);
    assert_eq!(extract_allow(&doc), Some(true));
    assert_eq!(extract_allow(&Json::Null), None);
}

#[test]
fn operator_names_are_collected_sorted_unique() {
    let plan = node("CrossProduct", vec![scan(), scan()]);
    let ops = operator_names(&plan);
    assert!(ops.contains(&"NodeScan".to_string()));
    assert!(ops.contains(&"CrossProduct".to_string()));
    assert_eq!(ops.iter().filter(|o| *o == "NodeScan").count(), 1);
    assert_eq!(ops, vec!["CrossProduct".to_string(), "NodeScan".to_string()]);
}

#[test]
fn plan_document_tells_subject_action_and_operators() {
    let doc = plan_input(&principal(), true, &node("Create", vec![scan()]), "acme");
    assert_eq!(text(&doc, "subject"), "alice");
    assert_eq!(text(&doc, "role"), "read-write");
    assert_eq!(text(&doc, "action"), "write");
    assert_eq!(text(&doc, "namespace"), "acme");
    match doc.get("operators") {
        Some(Json::Array(items)) => assert_eq!(items.len(), 2),
        _ => panic!("operators missing"),
    }
    match doc.get("groups") {
        Some(Json::Array(items)) => assert_eq!(items.len(), 1),
        _ => panic!("groups missing"),
    }
    let request = policy_request(doc);
    assert!(request.get("input").is_some());
    let reader = Principal {
        subject: "bob".to_string(),
        role: Role::ReadOnly,
        groups: vec![],
    };
    assert_eq!(role_str(&reader), "read-only");
    assert_eq!(text(&plan_input(&reader, false, &scan(), "acme"), "action"), "read");
}

#[test]
fn schema_document_names_the_command() {
    let properties = vec!["a".to_string(), "b".to_string()];
    let doc = schema_input(
        &principal(),
        SchemaOp::CreateVectorIndex {
            name: "ix",
            label: "Doc",
            property: "emb",
        },
        "acme",
    );
    assert_eq!(text(&doc, "namespace"), "acme");
    assert_eq!(text(&doc, "action"), "schema");
    assert_eq!(text(&doc, "schema_op"), "create_vector_index");
    assert_eq!(text(&doc, "index_name"), "ix");
    assert_eq!(text(&doc, "label"), "Doc");
    assert_eq!(text(&doc, "property"), "emb");
    let ops: Vec<(SchemaOp<'_>, &str)> = vec![
        (
            SchemaOp::CreateFulltextIndex {
                name: "ix",
                label: "Doc",
                properties: &properties,
            },
            "create_fulltext_index",
        ),
        (SchemaOp::DropVectorIndex { name: "ix" }, "drop_vector_index"),
        (
            SchemaOp::DropFulltextIndex { name: "ix" },
            "drop_fulltext_index",
        ),
        (
            SchemaOp::CreateConstraint {
                label: "Doc",
                properties: &properties,
            },
            "create_constraint",
        ),
        (
            SchemaOp::CreateIndex {
                label: "Doc",
                property: "a",
            },
            "create_index",
        ),
    ];
    for (op, name) in ops {
        assert_eq!(text(&schema_input(&principal(), op, "acme"), "schema_op"), name);
    }
}

#[test]
fn endpoint_is_kept_as_given() {
    assert_eq!(
        OpaAuthz::new("http://pdp/decide").endpoint(),
        "http://pdp/decide"
    );
}

#[test]
fn scans_are_found_anywhere_in_a_plan() {
    assert!(plan_contains_node_scan(&scan()));
    assert!(plan_contains_node_scan(&node(
        "Project",
        vec![node("Filter", vec![scan()])]
    )));
    assert!(!plan_contains_node_scan(&lookup(false, true, 1, 1)));
}

#[test]
fn route_notes_tell_how_a_lookup_is_served() {
    let mut out: Vec<String> = vec![];
    let plan = node(
        "Union",
        vec![
            lookup(true, true, 0, 3),
            lookup(false, true, 0, 0),
            lookup(false, false, 2, 2),
            lookup(false, true, 1, 2),
        ],
    );
    collect_route_notes(&plan, &mut out);
    assert_eq!(
        out,
        vec![
            "# route: Person.email → scan (numeric equality is not posting-indexed; only String/Bool are)".to_string(),
            "# route: Person.email → memtable (posting lookup; no SSTs in scope)".to_string(),
            "# route: Person.email → index (unique lookup; posting sidecars 2/2 SSTs)".to_string(),
            "# route: Person.email → SCAN FALLBACK (posting sidecars 1/2 SSTs; a compaction pass materializes the rest)".to_string(),
        ]
    );
}

#[test]
fn explained_lines_end_with_the_routes_unless_raw() {
    let plan = lookup(false, true, 1, 1);
    let shown = |text: &str| Ok(text.to_string());
    let lines = explain_plan_lines(
        shown("NodeByPropertyValue\n  x"),
        ExplainMode::asked(false, false),
        &plan,
    );
    assert_eq!(lines.len(), 3);
    assert_eq!(lines[0], "NodeByPropertyValue");
    assert!(lines[2].starts_with("# route: "));
    let raw = ExplainMode::asked(true, false);
    assert_eq!(explain_plan_lines(shown("a\nb"), raw, &plan).len(), 2);
    assert_eq!(
        explain_plan_lines(Err("no plan".to_string()), raw, &plan),
        vec!["explain error: no plan".to_string()]
    );
}

#[test]
fn flags_pick_the_rendering() {
    assert_eq!(ExplainMode::asked(true, true), ExplainMode::RawVerbose);
    assert_eq!(ExplainMode::asked(true, false), ExplainMode::Raw);
    assert_eq!(ExplainMode::asked(false, true), ExplainMode::Verbose);
    assert_eq!(ExplainMode::asked(false, false), ExplainMode::Plain);
    assert!(ExplainMode::asked(true, true).is_raw());
    assert!(!ExplainMode::asked(false, true).is_raw());
}
