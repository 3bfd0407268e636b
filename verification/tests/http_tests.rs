use namidb_server::auth::{AuthConfig, AuthToken, Role};
use namidb_server::engine::{ExecFailure, ExecKind, LowerFailure, Payload, StorageFailure, StorageKind, WriteOutcome};
use namidb_server::cypher::HttpVerdict;
use namidb_server::authz::Denied;
use namidb_server::http::{
    admit_http_cypher_request, estimated_http_request_memory_bytes, http_cypher_wire_bytes,
    namespace_from_header, require_auth, require_auth_multi, resolve_request_namespace,
    strip_bearer, Header, HttpBodyAdmissionError, HTTP_CYPHER_BODY_LIMIT_BYTES,
};
use namidb_server::json::Json;
use namidb_server::memory::MemoryGovernor;
use namidb_server::recovery::WriterHealth;
use namidb_server::reply::{
    exec_error_classification, exec_error_taxonomy, exec_failure_response, explain_response,
    health_paused_response, health_response, http_reply, livez, namespace_unavailable_response, parse_error_response,
    plan_error_response, version, write_intake_rejection, writer_busy_response, Reply,
};
use namidb_server::routes::{routes, Handler};
use namidb_server::schema::SchemaVerdict;
use namidb_server::values::{Row, RuntimeValue};

fn text<'a>(doc: &'a Json, key: &str) -> &'a str {
    match doc.get(key) {
        Some(Json::Text(s)) => s.as_str(),
        _ => panic!("no text under {}", key),
    }
}

fn number(doc: &Json, key: &str) -> i128 {
    match doc.get(key) {
        Some(Json::Integer(n)) => *n,
        _ => panic!("no number under {}", key),
    }
}

fn error_of(r: &Reply) -> &str {
    text(&r.body, "error")
}

fn storage(kind: StorageKind) -> ExecFailure {
    exec(ExecKind::Storage { kind })
}

fn exec(kind: ExecKind) -> ExecFailure {
    ExecFailure {
        kind,
        unsupported: false,
        text: "it broke".to_string(),
        detail: "deep down".to_string(),
    }
}

fn scoped() -> AuthConfig {
    AuthConfig::from_tokens(vec![
        AuthToken {
            name: "acme-only".to_string(),
            secret: "acme-tok".to_string(),
            role: Role::ReadWrite,
            namespaces: Some(vec!["acme".to_string()]),
        },
        AuthToken {
            name: "any".to_string(),
            secret: "any-tok".to_string(),
            role: Role::ReadOnly,
            namespaces: None,
        },
    ])
}

fn params(pairs: &[(&str, &str)]) -> Vec<(String, String)> {
    pairs
        .iter()
        .map(|(k, v)| (k.to_string(), v.to_string()))
        .collect()
}

#[test]
fn http_headroom_uses_exact_lengths_and_real_limit_for_unknown_streams() {
    assert_eq!(http_cypher_wire_bytes(Header::Text("123"), Some(0)), Ok(123));
    assert_eq!(http_cypher_wire_bytes(Header::Absent, Some(5)), Ok(5));
    assert_eq!(
        http_cypher_wire_bytes(Header::Absent, None),
        Ok(HTTP_CYPHER_BODY_LIMIT_BYTES),
        "chunked/unknown bodies reserve the exact extractor ceiling instead of bypassing it"
    );
    let oversized = (HTTP_CYPHER_BODY_LIMIT_BYTES + 1).to_string();
    assert_eq!(
        http_cypher_wire_bytes(Header::Text(&oversized), Some(0)),
        Err(HttpBodyAdmissionError::TooLarge {
            observed: HTTP_CYPHER_BODY_LIMIT_BYTES as u64 + 1
        })
    );
    assert_eq!(
        http_cypher_wire_bytes(Header::Text("not-a-number"), Some(0)),
        Err(HttpBodyAdmissionError::InvalidContentLength)
    );
    assert_eq!(
        http_cypher_wire_bytes(Header::Unreadable, Some(0)),
        Err(HttpBodyAdmissionError::InvalidContentLength)
    );
    assert_eq!(
        estimated_http_request_memory_bytes(100),
        64 * 1024 + 16 * 100
    );
    assert_eq!(estimated_http_request_memory_bytes(usize::MAX), usize::MAX);
}

#[test]
fn a_body_is_charged_before_it_is_decoded() {
    let mut memory = MemoryGovernor::new(100_000);
    let guard = match admit_http_cypher_request(&mut memory, Some(10), Header::Text("10"), None) {
        Ok(g) => g,
        Err(_) => panic!("there is room"),
    };
    assert_eq!(memory.reserved_headroom_bytes(), 64 * 1024 + 160);
    match admit_http_cypher_request(&mut memory, Some(10), Header::Text("10"), None) {
        Ok(_) => panic!("there is no room for a second body"),
        Err(reply) => assert_eq!(reply.status, 503),
    }
    memory.release_headroom(guard);
    assert_eq!(memory.reserved_headroom_bytes(), 0);
}

#[test]
fn oversized_and_malformed_bodies_are_refused_with_their_status() {
    let mut memory = MemoryGovernor::new(0);
    match admit_http_cypher_request(&mut memory, None, Header::Text("2097153"), None) {
        Ok(_) => panic!("too large"),
        Err(reply) => {
            assert_eq!(reply.status, 413);
            assert_eq!(
                error_of(&reply),
                "Cypher JSON body is 2097153 bytes; maximum is 2097152 bytes"
            );
        }
    }
    match admit_http_cypher_request(&mut memory, None, Header::Text("x"), None) {
        Ok(_) => panic!("malformed"),
        Err(reply) => {
            assert_eq!(reply.status, 400);
            assert_eq!(error_of(&reply), "invalid Content-Length for /v0/cypher");
        }
    }
}

#[test]
fn search_index_capacity_is_retryable_http_503() {
    assert_eq!(
        exec_error_classification(&storage(StorageKind::CacheCapacity)),
        (503, Some("search_index_cache_capacity"))
    );
}

#[test]
fn search_workspace_capacity_is_retryable_http_503() {
    assert_eq!(
        exec_error_classification(&storage(StorageKind::WorkspaceExceeded)),
        (503, Some("search_workspace_capacity"))
    );
}

#[test]
fn search_result_and_document_limits_are_http_413() {
    assert_eq!(
        exec_error_classification(&storage(StorageKind::ResultLimit)),
        (413, Some("search_result_limit"))
    );
    assert_eq!(
        exec_error_classification(&storage(StorageKind::DocumentLimit)),
        (413, Some("search_document_limit"))
    );
}

#[test]
fn search_limit_response_exposes_stable_machine_code() {
    let mut e = storage(StorageKind::DocumentLimit);
    e.text = "document too large; see NAMIDB_BM25_MAX_DOCUMENT_BYTES".to_string();
    let reply = exec_failure_response("query failed", &e);
    assert_eq!(reply.status, 413);
    assert_eq!(text(&reply.body, "code"), "search_document_limit");
    assert!(error_of(&reply).contains("NAMIDB_BM25_MAX_DOCUMENT_BYTES"));
}

#[test]
fn timeout_response_exposes_taxonomy_fields() {
    let reply = exec_failure_response("read execution failed", &exec(ExecKind::Timeout));
    assert_eq!(reply.status, 504);
    assert_eq!(text(&reply.body, "code"), "timeout");
    assert_eq!(
        text(&reply.body, "neo4j_code"),
        "Neo.ClientError.Transaction.TransactionTimedOut"
    );
    assert_eq!(text(&reply.body, "gql_status"), "57014");
    assert_eq!(error_of(&reply), "read execution failed: it broke");

    let reply = exec_failure_response(
        "read execution failed",
        &exec(ExecKind::RowCap { cap: 1_000_000 }),
    );
    assert_eq!(reply.status, 413);
    assert_eq!(text(&reply.body, "code"), "row_cap");
    assert_eq!(
        text(&reply.body, "neo4j_code"),
        "Neo.ClientError.Statement.ResourceLimitExceeded"
    );
    assert_eq!(text(&reply.body, "gql_status"), "54000");
}

#[test]
fn evaluation_failures_are_the_clients() {
    let e = exec(ExecKind::Eval);
    assert_eq!(
        exec_error_taxonomy(&e),
        ("Neo.ClientError.Statement.ArgumentError", "22000")
    );
    let reply = exec_failure_response("read execution failed", &e);
    assert_eq!(reply.status, 400);
    assert_eq!(text(&reply.body, "code"), "eval_error");
    assert_eq!(text(&reply.body, "gql_status"), "22000");
}

#[test]
fn parse_errors_carry_the_syntax_taxonomy() {
    let reply = parse_error_response("expected RETURN");
    assert_eq!(reply.status, 400);
    assert_eq!(text(&reply.body, "code"), "parse_error");
    assert_eq!(
        text(&reply.body, "neo4j_code"),
        "Neo.ClientError.Statement.SyntaxError"
    );
    assert_eq!(text(&reply.body, "gql_status"), "42001");
}

#[test]
fn unsupported_plans_are_the_clients() {
    let unsupported = plan_error_response(&LowerFailure {
        unsupported: true,
        text: "no such function".to_string(),
        message: "no such function".to_string(),
    });
    assert_eq!(unsupported.status, 400);
    let broken = plan_error_response(&LowerFailure {
        unsupported: false,
        text: "no".to_string(),
        message: "no".to_string(),
    });
    assert_eq!(broken.status, 400);
}

#[test]
fn every_verdict_has_a_reply_that_tells_success() {
    let written = Payload::Outcome(WriteOutcome {
        rows: vec![],
        nodes_created: 1,
        edges_created: 2,
        nodes_deleted: 3,
        edges_deleted: 4,
        properties_set: 5,
    });
    let reply = http_reply(HttpVerdict::Written, &written);
    assert_eq!(reply.status, 200);
    match reply.body.get("write_outcome") {
        Some(summary) => {
            assert_eq!(number(summary, "nodes_created"), 1);
            assert_eq!(number(summary, "edges_created"), 2);
            assert_eq!(number(summary, "nodes_deleted"), 3);
            assert_eq!(number(summary, "edges_deleted"), 4);
            assert_eq!(number(summary, "properties_set"), 5);
        }
        None => panic!("a write reports what it did"),
    }
    let read = Payload::Rows(vec![Row {
        bindings: vec![("n".to_string(), RuntimeValue::Integer(7))],
    }]);
    let reply = http_reply(HttpVerdict::Read, &read);
    assert_eq!(reply.status, 200);
    match reply.body.get("rows") {
        Some(Json::Array(rows)) => assert_eq!(number(&rows[0], "n"), 7),
        _ => panic!("rows missing"),
    }
    assert_eq!(
        http_reply(
            HttpVerdict::Denied,
            &Payload::Denial(Denied::new("denied by policy"))
        )
        .status,
        403
    );
    assert_eq!(
        http_reply(HttpVerdict::WriteReadOnly, &Payload::Nothing).status,
        403
    );
    assert_eq!(http_reply(HttpVerdict::Busy, &Payload::Nothing).status, 503);
    assert_eq!(
        http_reply(HttpVerdict::Retired, &Payload::Nothing).status,
        503
    );
    assert_eq!(
        http_reply(
            HttpVerdict::WriteDegraded,
            &Payload::Intake("disk full".to_string())
        )
        .status,
        507
    );
    assert_eq!(
        http_reply(
            HttpVerdict::BadParams,
            &Payload::Params("too wide".to_string())
        )
        .status,
        400
    );
    assert_eq!(
        http_reply(
            HttpVerdict::Schema {
                verdict: SchemaVerdict::ReadOnly
            },
            &Payload::Nothing
        )
        .status,
        403
    );
    assert_eq!(
        http_reply(
            HttpVerdict::Schema {
                verdict: SchemaVerdict::Failed { user_error: true }
            },
            &Payload::Storage(StorageFailure {
                kind: StorageKind::Precondition,
                text: "already there".to_string(),
                local_persistence: false,
            })
        )
        .status,
        400
    );
}

#[test]
fn explained_plans_are_rows_of_one_column() {
    let reply = explain_response(&vec!["NodeScan".to_string(), "# route".to_string()]);
    match reply.body.get("rows") {
        Some(Json::Array(rows)) => {
            assert_eq!(rows.len(), 2);
            assert_eq!(text(&rows[0], "plan"), "NodeScan");
        }
        _ => panic!("rows missing"),
    }
}

#[test]
fn the_bearer_scheme_ignores_case() {
    assert_eq!(strip_bearer("Bearer s3cret"), Some("s3cret".to_string()));
    assert_eq!(strip_bearer("bearer s3cret"), Some("s3cret".to_string()));
    assert_eq!(strip_bearer("BEARER  s3cret"), Some(" s3cret".to_string()));
    assert_eq!(strip_bearer("Basic s3cret"), None);
    assert_eq!(strip_bearer("s3cret"), None);
}

#[test]
fn a_challenge_names_the_realm_and_nothing_else_lets_through() {
    let auth = AuthConfig::single_read_write("s3cret");
    assert!(require_auth(&auth, Header::Text("Bearer s3cret")).is_ok());
    for bad in [
        Header::Absent,
        Header::Unreadable,
        Header::Text("Bearer nope"),
        Header::Text("s3cret"),
    ] {
        match require_auth(&auth, bad) {
            Ok(_) => panic!("not authenticated"),
            Err(reply) => {
                assert_eq!(reply.status, 401);
                assert!(reply.authenticate);
            }
        }
    }
    let open = AuthConfig::open();
    assert!(require_auth(&open, Header::Absent).is_ok());
}

#[test]
fn a_scoped_token_reaches_its_namespace_alone() {
    let auth = scoped();
    let acme = params(&[("namespace", "acme")]);
    let beta = params(&[("namespace", "beta")]);
    let none = params(&[]);
    assert!(require_auth_multi(
        &auth,
        Header::Text("Bearer acme-tok"),
        &acme,
        Header::Absent,
        "default"
    )
    .is_ok());
    match require_auth_multi(
        &auth,
        Header::Text("Bearer acme-tok"),
        &beta,
        Header::Absent,
        "default",
    ) {
        Ok(_) => panic!("out of scope"),
        Err(reply) => assert_eq!(reply.status, 401),
    }
    assert!(require_auth_multi(
        &auth,
        Header::Text("Bearer any-tok"),
        &beta,
        Header::Absent,
        "default"
    )
    .is_ok());
    assert!(require_auth_multi(
        &auth,
        Header::Text("Bearer acme-tok"),
        &none,
        Header::Text("acme"),
        "default"
    )
    .is_ok());
    assert!(require_auth_multi(
        &auth,
        Header::Text("Bearer acme-tok"),
        &none,
        Header::Absent,
        "default"
    )
    .is_err());
}

#[test]
fn the_namespace_comes_from_the_path_then_the_header_then_the_default() {
    let path = params(&[("namespace", "acme")]);
    let none = params(&[]);
    assert_eq!(
        resolve_request_namespace(&path, Header::Text("beta"), "default"),
        "acme"
    );
    assert_eq!(
        resolve_request_namespace(&none, Header::Text("beta"), "default"),
        "beta"
    );
    assert_eq!(
        resolve_request_namespace(&none, Header::Absent, "default"),
        "default"
    );
    assert_eq!(namespace_from_header(Header::Text(""), "default"), "default");
    assert_eq!(namespace_from_header(Header::Unreadable, "default"), "default");
    assert_eq!(namespace_from_header(Header::Text("x"), "default"), "x");
}

#[test]
fn health_reports_the_writer_and_the_memory() {
    let memory = MemoryGovernor::new(0);
    let mut health = WriterHealth::new();
    let ok = health_response("ns", 3, 4, &health, Some(5), &memory);
    assert_eq!(ok.status, 200);
    assert_eq!(text(&ok.body, "status"), "ok");
    assert_eq!(text(&ok.body, "writer"), "ok");
    assert_eq!(text(&ok.body, "namespace"), "ns");
    assert_eq!(number(&ok.body, "manifest_version"), 3);
    assert_eq!(number(&ok.body, "epoch"), 4);
    assert_eq!(number(&ok.body, "memtable_bytes"), 5);
    assert!(ok.body.get("writer_error").is_none());
    health.mark_degraded("fenced".to_string());
    let bad = health_response("ns", 3, 4, &health, None, &memory);
    assert_eq!(bad.status, 503);
    assert_eq!(text(&bad.body, "status"), "degraded");
    assert_eq!(text(&bad.body, "writer_error"), "fenced");
    assert!(bad.body.get("memtable_bytes").is_none());
    health.mark_ok();
    assert_eq!(
        health_response("ns", 3, 4, &health, None, &memory).status,
        200
    );
    let mut full = MemoryGovernor::new(100);
    assert!(health_paused_response(&full).is_none());
    let _ = full.admit_query(Some(100));
    let _ = full.observe_resident(Some(100));
    match health_paused_response(&full) {
        Some(reply) => assert_eq!(reply.status, 503),
        None => panic!("a probe opens nothing at the ceiling"),
    }
    assert_eq!(health_response("ns", 3, 4, &health, None, &full).status, 503);
}

#[test]
fn probes_that_look_at_nothing() {
    assert_eq!(livez().status, 200);
    assert_eq!(text(&livez().body, "status"), "ok");
    let v = version("1.2.3", "x86_64");
    assert_eq!(text(&v.body, "version"), "1.2.3");
    assert_eq!(text(&v.body, "build_target"), "x86_64");
}

#[test]
fn degraded_persistence_closes_the_intake() {
    let mut health = WriterHealth::new();
    assert!(write_intake_rejection(&health).is_none());
    health.mark_persistence_degraded("disk full".to_string());
    match write_intake_rejection(&health) {
        Some(reply) => assert_eq!(reply.status, 507),
        None => panic!("writes are refused"),
    }
    health.clear_persistence_degraded();
    assert!(write_intake_rejection(&health).is_none());
    assert_eq!(writer_busy_response().status, 503);
    let cold = namespace_unavailable_response("no such bucket");
    assert_eq!(cold.status, 503);
    assert_eq!(error_of(&cold), "no such bucket");
}

#[test]
fn only_the_probes_are_public() {
    for multi in [false, true] {
        for route in routes(multi) {
            let private = matches!(route.handler, Handler::Cypher | Handler::Flush);
            assert_eq!(route.handler.is_private(), private);
            assert_eq!(route.handler.is_post(), private);
        }
    }
    let single = routes(false);
    assert!(single.iter().any(|r| r.path == "/v0/cypher"));
    assert!(single.iter().all(|r| !r.prefixed));
    let many = routes(true);
    assert!(many.iter().any(|r| r.prefixed));
}
