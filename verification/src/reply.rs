//! HTTP replies: what each outcome is answered with.

use vstd::prelude::*;

use crate::authz::Denied;
use crate::cypher::HttpVerdict;
use crate::engine::{ExecFailure, ExecKind, LowerFailure, Payload, StorageKind, WriteOutcome};
use crate::json::{text_array, trees, Json, JsonTree, Members};
use crate::memory::{saturated, MemoryGovernor, MemoryPressure};
use crate::memory::GovernorModel;
use crate::recovery::{HealthModel, WriterHealth};
use crate::schema::SchemaVerdict;
use crate::text::{decimal, push_decimal, texts};
use crate::values::{row_columns, row_json, rows_to_json, Row};

verus! {

/// A reply: its status, whether it challenges for a bearer token, and its body.
pub struct Reply {
    pub status: u16,
    pub authenticate: bool,
    pub body: Json,
}

/// What a reply says.
#[verifier::ext_equal]
pub struct ReplyModel {
    pub status: u16,
    pub authenticate: bool,
    pub body: JsonTree,
}

impl View for Reply {
    type V = ReplyModel;

    open spec fn view(&self) -> ReplyModel {
        ReplyModel { status: self.status, authenticate: self.authenticate, body: self.body@ }
    }
}

/// The challenge of a reply that asks for a bearer token.
pub const CHALLENGE: &'static str = "Bearer realm=\"namidb\"";

/// The content type of the metrics page.
pub const METRICS_CONTENT_TYPE: &'static str = "text/plain; version=0.0.4; charset=utf-8";

// ---------------------------------------------------------------------------
// Errors in words
// ---------------------------------------------------------------------------

/// A reply whose body is an error text.
pub open spec fn error_model(status: u16, error: Seq<char>) -> ReplyModel {
    ReplyModel {
        status,
        authenticate: false,
        body: JsonTree::Object(seq![("error"@, JsonTree::Text(error))]),
    }
}

/// A reply whose body is an error text.
pub fn error_reply(status: u16, error: &str) -> (r: Reply)
    ensures
        r@ == error_model(status, error@),
{
    let members = Members::new().with_text("error", error);
    assert(members@ =~= seq![("error"@, JsonTree::Text(error@))]);
    Reply { status, authenticate: false, body: members.finish() }
}

/// The reply to a request without valid credentials.
pub open spec fn unauthorized_model(error: Seq<char>) -> ReplyModel {
    ReplyModel { authenticate: true, ..error_model(401, error) }
}

/// The reply to a request without valid credentials.
pub fn unauthorized(error: &str) -> (r: Reply)
    ensures
        r@ == unauthorized_model(error@),
{
    let reply = error_reply(401, error);
    Reply { status: reply.status, authenticate: true, body: reply.body }
}

/// What a write is told while local persistence is degraded.
pub open spec fn degraded_text(reason: Seq<char>) -> Seq<char> {
    "namespace degraded: "@ + reason
}

/// What a write is told while local persistence is degraded.
pub fn degraded_message(reason: &str) -> (out: String)
    ensures
        out@ == degraded_text(reason@),
{
    let mut out = "namespace degraded: ".to_owned();
    out.append(reason);
    out
}

/// What a write is told when the writer lock was not free in time.
pub const WRITER_BUSY: &'static str =
    "writer is busy: could not acquire the write lock within the configured bound; retry";

/// What a write is told whose namespace was evicted meanwhile.
pub const NAMESPACE_RETIRED: &'static str =
    "namespace was evicted while waiting for its writer; retry";

/// What a second flush is told.
pub const FLUSH_BUSY: &'static str = "another flush is already running; retry shortly";

/// What a caller who may not write is told of a write.
pub const WRITE_FORBIDDEN: &'static str =
    "this token is read-only; write queries are forbidden";

/// What a caller who may not write is told of a schema command.
pub const SCHEMA_FORBIDDEN: &'static str =
    "this token is read-only; schema commands are forbidden";

/// What a caller who may not write is told of a flush.
pub const FLUSH_FORBIDDEN: &'static str = "this token is read-only; admin flush is forbidden";

/// The reply to a write while local persistence is degraded: not the transient
/// refusal of a busy writer, since trying again does not help.
pub fn persistence_degraded_response(reason: &str) -> (r: Reply)
    ensures
        r@ == error_model(507, degraded_text(reason@)),
{
    let text = degraded_message(reason);
    error_reply(507, text.as_str())
}

/// The reply with which the intake turns a write away, if it does.
pub fn write_intake_rejection(health: &WriterHealth) -> (r: Option<Reply>)
    ensures
        match r {
            Some(reply) => health@.persistence matches Some(reason) && reply@ == error_model(
                507,
                degraded_text(reason),
            ),
            None => health@.persistence is None,
        },
{
    match health.persistence_degraded_reason() {
        Some(reason) => Some(persistence_degraded_response(reason.as_str())),
        None => None,
    }
}

/// The reply to a write that did not get the writer in time.
pub fn writer_busy_response() -> (r: Reply)
    ensures
        r@ == error_model(503, WRITER_BUSY@),
{
    error_reply(503, WRITER_BUSY)
}

/// The reply to a write whose namespace was evicted meanwhile.
pub fn namespace_retired_response() -> (r: Reply)
    ensures
        r@ == error_model(503, NAMESPACE_RETIRED@),
{
    error_reply(503, NAMESPACE_RETIRED)
}

/// The reply to a request, a probe included, for a namespace that could not be
/// opened.
pub fn namespace_unavailable_response(cause: &str) -> (r: Reply)
    ensures
        r@ == error_model(503, cause@),
{
    error_reply(503, cause)
}

/// The reply to a flush while another one runs.
pub fn admin_flush_busy_response() -> (r: Reply)
    ensures
        r@ == error_model(503, FLUSH_BUSY@),
{
    error_reply(503, FLUSH_BUSY)
}

/// What a request that is refused for want of memory is told.
pub open spec fn pressure_text(p: MemoryPressure) -> Seq<char> {
    let resident = "process memory pressure: resident "@ + decimal(p.resident_bytes as nat);
    if p.requested_headroom_bytes == 0 {
        resident + " bytes reached configured maximum "@ + decimal(p.max_bytes as nat)
            + " bytes; reconstructible caches were reclaimed, retry after memory falls"@
    } else {
        resident + " bytes plus "@ + decimal(p.requested_headroom_bytes as nat)
            + " bytes of projected request headroom would reach "@ + decimal(
            saturated(p.resident_bytes, p.requested_headroom_bytes) as nat,
        ) + " bytes, at or above configured maximum "@ + decimal(p.max_bytes as nat)
            + " bytes; split the request or retry after memory falls"@
    }
}

/// What a request that is refused for want of memory is told.
pub fn pressure_message(p: &MemoryPressure) -> (out: String)
    ensures
        out@ == pressure_text(*p),
{
    let projected: usize = p.resident_bytes.saturating_add(p.requested_headroom_bytes);
    let mut out = "process memory pressure: resident ".to_owned();
    push_decimal(&mut out, p.resident_bytes as u64);
    if p.requested_headroom_bytes == 0 {
        out.append(" bytes reached configured maximum ");
        push_decimal(&mut out, p.max_bytes as u64);
        out.append(" bytes; reconstructible caches were reclaimed, retry after memory falls");
    } else {
        out.append(" bytes plus ");
        push_decimal(&mut out, p.requested_headroom_bytes as u64);
        out.append(" bytes of projected request headroom would reach ");
        push_decimal(&mut out, projected as u64);
        out.append(" bytes, at or above configured maximum ");
        push_decimal(&mut out, p.max_bytes as u64);
        out.append(" bytes; split the request or retry after memory falls");
    }
    out
}

/// The reply to a request that is refused for want of memory.
pub fn memory_pressure_response(p: &MemoryPressure) -> (r: Reply)
    ensures
        r@ == error_model(503, pressure_text(*p)),
{
    let text = pressure_message(p);
    error_reply(503, text.as_str())
}

// ---------------------------------------------------------------------------
// Rejected statements and failed executions
// ---------------------------------------------------------------------------

/// A reply that classifies an error: the short code, if there is one, the dotted
/// class whose second part says whether to try again, and the status class.
pub open spec fn classified_model(
    status: u16,
    error: Seq<char>,
    code: Option<Seq<char>>,
    class: Seq<char>,
    gql: Seq<char>,
) -> ReplyModel {
    let tail = seq![
        ("error"@, JsonTree::Text(error)),
        ("gql_status"@, JsonTree::Text(gql)),
        ("neo4j_code"@, JsonTree::Text(class)),
    ];
    let body = match code {
        Some(c) => seq![("code"@, JsonTree::Text(c))] + tail,
        None => tail,
    };
    ReplyModel { status, authenticate: false, body: JsonTree::Object(body) }
}

/// The view of an optional static text.
pub open spec fn option_code(code: Option<&'static str>) -> Option<Seq<char>> {
    match code {
        Some(c) => Some(c@),
        None => None,
    }
}

/// A reply that classifies an error.
fn classified(
    status: u16,
    error: &str,
    code: Option<&'static str>,
    class: &'static str,
    gql: &'static str,
) -> (r: Reply)
    ensures
        r@ == classified_model(status, error@, option_code(code), class@, gql@),
{
    let head = match code {
        Some(c) => Members::new().with_text("code", c),
        None => Members::new(),
    };
    let members = head.with_text("error", error).with_text("gql_status", gql).with_text(
        "neo4j_code",
        class,
    );
    let ghost built = members@;
    let r = Reply { status, authenticate: false, body: members.finish() };
    proof {
        let model = classified_model(status, error@, option_code(code), class@, gql@);
        assert(built =~= model.body->Object_0);
    }
    r
}

/// The reply to a statement that was rejected before execution.
pub fn statement_rejected_response(
    error: &str,
    code: &'static str,
    neo4j_code: &'static str,
    gql_status: &'static str,
) -> (r: Reply)
    ensures
        r@ == classified_model(400, error@, Some(code@), neo4j_code@, gql_status@),
{
    classified(400, error, Some(code), neo4j_code, gql_status)
}

/// The reply to a text that does not parse.
pub open spec fn parse_error_model(error: Seq<char>) -> ReplyModel {
    classified_model(
        400,
        error,
        Some("parse_error"@),
        "Neo.ClientError.Statement.SyntaxError"@,
        "42001"@,
    )
}

/// The reply to a text that does not parse.
pub fn parse_error_response(error: &str) -> (r: Reply)
    ensures
        r@ == parse_error_model(error@),
{
    statement_rejected_response(
        error,
        "parse_error",
        "Neo.ClientError.Statement.SyntaxError",
        "42001",
    )
}

/// The reply to a statement that cannot be planned.
pub open spec fn plan_error_model(unsupported: bool, text: Seq<char>) -> ReplyModel {
    let error = "plan error: "@ + text;
    if unsupported {
        classified_model(
            400,
            error,
            Some("unsupported"@),
            "Neo.ClientError.Statement.NotSupported"@,
            "0A000"@,
        )
    } else {
        classified_model(
            400,
            error,
            Some("plan_error"@),
            "Neo.ClientError.Statement.SemanticError"@,
            "42000"@,
        )
    }
}

/// The reply to a statement that cannot be planned.
pub fn plan_error_response(e: &LowerFailure) -> (r: Reply)
    ensures
        r@ == plan_error_model(e.unsupported, e.text@),
{
    let mut error = "plan error: ".to_owned();
    error.append(e.text.as_str());
    if e.unsupported {
        statement_rejected_response(
            error.as_str(),
            "unsupported",
            "Neo.ClientError.Statement.NotSupported",
            "0A000",
        )
    } else {
        statement_rejected_response(
            error.as_str(),
            "plan_error",
            "Neo.ClientError.Statement.SemanticError",
            "42000",
        )
    }
}

/// The status of an executor failure and its short code, if it has one: a limit
/// and a duplicate are the caller's doing, a feature that is not there is no
/// server fault, and the rest is.
pub open spec fn exec_class(kind: ExecKind, unsupported: bool) -> (u16, Option<Seq<char>>) {
    match kind {
        ExecKind::Timeout => (504, Some("timeout"@)),
        ExecKind::RowCap { .. } => (413, Some("row_cap"@)),
        ExecKind::Constraint => (409, Some("constraint"@)),
        ExecKind::Storage { kind: StorageKind::CacheCapacity } => (
            503,
            Some("search_index_cache_capacity"@),
        ),
        ExecKind::Storage { kind: StorageKind::WorkspaceExceeded } => (
            503,
            Some("search_workspace_capacity"@),
        ),
        ExecKind::Storage { kind: StorageKind::ResultLimit } => (413, Some("search_result_limit"@)),
        ExecKind::Storage { kind: StorageKind::DocumentLimit } => (
            413,
            Some("search_document_limit"@),
        ),
        _ => if unsupported {
            (400, Some("unsupported"@))
        } else if kind is Eval {
            (400, Some("eval_error"@))
        } else {
            (500, None)
        },
    }
}

/// The status of an executor failure and its short code, if it has one.
pub fn exec_error_classification(e: &ExecFailure) -> (r: (u16, Option<&'static str>))
    ensures
        (r.0, option_code(r.1)) == exec_class(e.kind, e.unsupported),
{
    match e.kind {
        ExecKind::Timeout => (504, Some("timeout")),
        ExecKind::RowCap { .. } => (413, Some("row_cap")),
        ExecKind::Constraint => (409, Some("constraint")),
        ExecKind::Storage { kind: StorageKind::CacheCapacity } => (
            503,
            Some("search_index_cache_capacity"),
        ),
        ExecKind::Storage { kind: StorageKind::WorkspaceExceeded } => (
            503,
            Some("search_workspace_capacity"),
        ),
        ExecKind::Storage { kind: StorageKind::ResultLimit } => (413, Some("search_result_limit")),
        ExecKind::Storage { kind: StorageKind::DocumentLimit } => (
            413,
            Some("search_document_limit"),
        ),
        kind => {
            if e.unsupported {
                (400, Some("unsupported"))
            } else {
                match kind {
                    ExecKind::Eval => (400, Some("eval_error")),
                    _ => (500, None),
                }
            }
        },
    }
}

/// The dotted class of an executor failure and its status class. Only a failure
/// of the storage that may pass is one to try again.
pub open spec fn exec_taxonomy(kind: ExecKind, unsupported: bool) -> (Seq<char>, Seq<char>) {
    match kind {
        ExecKind::Timeout => ("Neo.ClientError.Transaction.TransactionTimedOut"@, "57014"@),
        ExecKind::RowCap { .. } => ("Neo.ClientError.Statement.ResourceLimitExceeded"@, "54000"@),
        ExecKind::Constraint => (
            "Neo.ClientError.Schema.ConstraintValidationFailed"@,
            "23000"@,
        ),
        ExecKind::Storage { kind: StorageKind::ResultLimit } => (
            "Neo.ClientError.Statement.ResourceLimitExceeded"@,
            "54000"@,
        ),
        ExecKind::Storage { kind: StorageKind::DocumentLimit } => (
            "Neo.ClientError.Statement.ResourceLimitExceeded"@,
            "54000"@,
        ),
        ExecKind::Storage { .. } => ("Neo.TransientError.General.DatabaseUnavailable"@, "53000"@),
        _ => if unsupported {
            ("Neo.ClientError.Statement.NotSupported"@, "0A000"@)
        } else if kind is Eval {
            ("Neo.ClientError.Statement.ArgumentError"@, "22000"@)
        } else {
            ("Neo.DatabaseError.General.UnknownError"@, "50N42"@)
        },
    }
}

/// The dotted class of an executor failure and its status class.
pub fn exec_error_taxonomy(e: &ExecFailure) -> (r: (&'static str, &'static str))
    ensures
        (r.0@, r.1@) == exec_taxonomy(e.kind, e.unsupported),
{
    match e.kind {
        ExecKind::Timeout => ("Neo.ClientError.Transaction.TransactionTimedOut", "57014"),
        ExecKind::RowCap { .. } => ("Neo.ClientError.Statement.ResourceLimitExceeded", "54000"),
        ExecKind::Constraint => ("Neo.ClientError.Schema.ConstraintValidationFailed", "23000"),
        ExecKind::Storage { kind: StorageKind::ResultLimit } => (
            "Neo.ClientError.Statement.ResourceLimitExceeded",
            "54000",
        ),
        ExecKind::Storage { kind: StorageKind::DocumentLimit } => (
            "Neo.ClientError.Statement.ResourceLimitExceeded",
            "54000",
        ),
        ExecKind::Storage { .. } => ("Neo.TransientError.General.DatabaseUnavailable", "53000"),
        kind => {
            if e.unsupported {
                ("Neo.ClientError.Statement.NotSupported", "0A000")
            } else {
                match kind {
                    ExecKind::Eval => ("Neo.ClientError.Statement.ArgumentError", "22000"),
                    _ => ("Neo.DatabaseError.General.UnknownError", "50N42"),
                }
            }
        },
    }
}

/// The reply to an execution that failed.
pub open spec fn exec_failure_model(prefix: Seq<char>, e: ExecFailure) -> ReplyModel {
    let class = exec_class(e.kind, e.unsupported);
    let taxonomy = exec_taxonomy(e.kind, e.unsupported);
    classified_model(class.0, prefix + ": "@ + e.text@, class.1, taxonomy.0, taxonomy.1)
}

/// The reply to an execution that failed. An unclassified failure has no short
/// code.
pub fn exec_failure_response(prefix: &str, e: &ExecFailure) -> (r: Reply)
    ensures
        r@ == exec_failure_model(prefix@, *e),
{
    let (status, code) = exec_error_classification(e);
    let (class, gql) = exec_error_taxonomy(e);
    let mut error = prefix.to_owned();
    error.append(": ");
    error.append(e.text.as_str());
    classified(status, error.as_str(), code, class, gql)
}

// ---------------------------------------------------------------------------
// Results
// ---------------------------------------------------------------------------

/// What a write did, for the body of its reply.
#[derive(Debug, Clone, Copy, PartialEq, Eq, Structural)]
pub struct WriteSummary {
    pub nodes_created: u64,
    pub edges_created: u64,
    pub nodes_deleted: u64,
    pub edges_deleted: u64,
    pub properties_set: u64,
}

impl WriteSummary {
    /// The counts of an outcome.
    pub open spec fn of(o: WriteOutcome) -> WriteSummary {
        WriteSummary {
            nodes_created: o.nodes_created,
            edges_created: o.edges_created,
            nodes_deleted: o.nodes_deleted,
            edges_deleted: o.edges_deleted,
            properties_set: o.properties_set,
        }
    }

    /// The counts of an outcome.
    pub fn from_outcome(o: &WriteOutcome) -> (r: WriteSummary)
        ensures
            r == WriteSummary::of(*o),
    {
        WriteSummary {
            nodes_created: o.nodes_created,
            edges_created: o.edges_created,
            nodes_deleted: o.nodes_deleted,
            edges_deleted: o.edges_deleted,
            properties_set: o.properties_set,
        }
    }

    /// The document of the counts.
    pub open spec fn tree(self) -> JsonTree {
        JsonTree::Object(
            seq![
                ("nodes_created"@, JsonTree::Integer(self.nodes_created as int)),
                ("edges_created"@, JsonTree::Integer(self.edges_created as int)),
                ("nodes_deleted"@, JsonTree::Integer(self.nodes_deleted as int)),
                ("edges_deleted"@, JsonTree::Integer(self.edges_deleted as int)),
                ("properties_set"@, JsonTree::Integer(self.properties_set as int)),
            ],
        )
    }

    /// The document of the counts.
    pub fn to_json(self) -> (r: Json)
        ensures
            r@ == self.tree(),
    {
        let members = Members::new().with_number("nodes_created", self.nodes_created).with_number(
            "edges_created",
            self.edges_created,
        ).with_number("nodes_deleted", self.nodes_deleted).with_number(
            "edges_deleted",
            self.edges_deleted,
        ).with_number("properties_set", self.properties_set);
        assert(members@ =~= self.tree()->Object_0);
        members.finish()
    }
}

/// The reply with the result of a query.
pub open spec fn result_model(
    columns: Seq<Seq<char>>,
    rows: Seq<JsonTree>,
    summary: Option<WriteSummary>,
) -> ReplyModel {
    let table = seq![("columns"@, text_array(columns)), ("rows"@, JsonTree::Array(rows))];
    let body = match summary {
        Some(s) => table.push(("write_outcome"@, s.tree())),
        None => table,
    };
    ReplyModel { status: 200, authenticate: false, body: JsonTree::Object(body) }
}

/// The reply with the result of a query.
pub fn cypher_response(columns: &Vec<String>, rows: Vec<Json>, summary: Option<WriteSummary>) -> (r:
    Reply)
    ensures
        r@ == result_model(texts(columns@), trees(rows@), summary),
{
    let ghost shown = trees(rows@);
    let table = Members::new().with("columns", Json::texts(columns)).with(
        "rows",
        Json::array(rows),
    );
    let members = match summary {
        Some(s) => table.with("write_outcome", s.to_json()),
        None => table,
    };
    let ghost built = members@;
    let r = Reply { status: 200, authenticate: false, body: members.finish() };
    proof {
        let model = result_model(texts(columns@), shown, summary);
        assert(built =~= model.body->Object_0);
    }
    r
}

/// The rows of an explained plan: one line each.
pub open spec fn plan_rows(lines: Seq<Seq<char>>) -> Seq<JsonTree> {
    lines.map_values(|l: Seq<char>| JsonTree::Object(seq![("plan"@, JsonTree::Text(l))]))
}

/// The reply with an explained plan.
pub fn explain_response(lines: &Vec<String>) -> (r: Reply)
    ensures
        r@ == result_model(seq!["plan"@], plan_rows(texts(lines@)), None),
{
    let mut rows: Vec<Json> = Vec::new();
    let mut i: usize = 0;
    while i < lines.len()
        invariant
            i <= lines@.len(),
            rows@.len() == i,
            forall|j: int|
                0 <= j < i ==> (#[trigger] rows@[j])@ == JsonTree::Object(
                    seq![("plan"@, JsonTree::Text(lines@[j]@))],
                ),
        decreases lines.len() - i,
    {
        let members = Members::new().with_text("plan", lines[i].as_str());
        assert(members@ =~= seq![("plan"@, JsonTree::Text(lines@[i as int]@))]);
        rows.push(members.finish());
        i = i + 1;
    }
    let columns: Vec<String> = vec!["plan".to_owned()];
    assert(texts(columns@) =~= seq!["plan"@]);
    assert(trees(rows@) =~= plan_rows(texts(lines@)));
    cypher_response(&columns, rows, None)
}

// ---------------------------------------------------------------------------
// The reply to a whole request
// ---------------------------------------------------------------------------

impl Payload {
    /// Whether this is what comes back on the way to the verdict.
    pub open spec fn fits_http(self, verdict: HttpVerdict) -> bool {
        match verdict {
            HttpVerdict::ParseError => self is ParseFailure,
            HttpVerdict::BadParams => self is Params,
            HttpVerdict::Schema { verdict } => match verdict {
                SchemaVerdict::Denied => self is Denial,
                SchemaVerdict::Degraded => self is Intake,
                SchemaVerdict::Failed { user_error } => self matches Payload::Storage(f)
                    && f.kind.is_user() == user_error,
                _ => self is Nothing,
            },
            HttpVerdict::Shown => self is Shown,
            HttpVerdict::PlanError => self is Plan,
            HttpVerdict::Denied => self is Denial,
            HttpVerdict::Explained => self is Lines,
            HttpVerdict::WriteDegraded => self is Intake,
            HttpVerdict::Written => self is Outcome,
            HttpVerdict::WriteFailed | HttpVerdict::ReadFailed => self is Exec,
            HttpVerdict::Read => self is Rows,
            _ => self is Nothing,
        }
    }

    /// Whether this is what comes back on the way to that verdict.
    pub fn suits_http(&self, verdict: HttpVerdict) -> (r: bool)
        ensures
            r == self.fits_http(verdict),
    {
        match (self, verdict) {
            (Payload::ParseFailure { .. }, HttpVerdict::ParseError) => true,
            (Payload::Params(_), HttpVerdict::BadParams) => true,
            (Payload::Denial(_), HttpVerdict::Denied) => true,
            (Payload::Denial(_), HttpVerdict::Schema { verdict: SchemaVerdict::Denied }) => true,
            (Payload::Intake(_), HttpVerdict::WriteDegraded) => true,
            (Payload::Intake(_), HttpVerdict::Schema { verdict: SchemaVerdict::Degraded }) => true,
            (
                Payload::Storage(f),
                HttpVerdict::Schema { verdict: SchemaVerdict::Failed { user_error } },
            ) => f.is_user() == user_error,
            (Payload::Shown { .. }, HttpVerdict::Shown) => true,
            (Payload::Plan(_), HttpVerdict::PlanError) => true,
            (Payload::Lines(_), HttpVerdict::Explained) => true,
            (Payload::Outcome(_), HttpVerdict::Written) => true,
            (Payload::Exec(_), HttpVerdict::WriteFailed | HttpVerdict::ReadFailed) => true,
            (Payload::Rows(_), HttpVerdict::Read) => true,
            (
                Payload::Nothing,
                HttpVerdict::WriteReadOnly | HttpVerdict::Busy | HttpVerdict::Retired,
            ) => true,
            (
                Payload::Nothing,
                HttpVerdict::Schema {
                    verdict: SchemaVerdict::ReadOnly
                    | SchemaVerdict::Busy
                    | SchemaVerdict::Retired
                    | SchemaVerdict::Applied,
                },
            ) => true,
            _ => false,
        }
    }
}

/// The reply to a schema command.
pub open spec fn schema_reply(verdict: SchemaVerdict, payload: Payload) -> ReplyModel {
    match verdict {
        SchemaVerdict::ReadOnly => error_model(403, SCHEMA_FORBIDDEN@),
        SchemaVerdict::Denied => error_model(403, Denied::message(payload->Denial_0.reason@)),
        SchemaVerdict::Degraded => error_model(507, degraded_text(payload->Intake_0@)),
        SchemaVerdict::Busy => error_model(503, WRITER_BUSY@),
        SchemaVerdict::Retired => error_model(503, NAMESPACE_RETIRED@),
        SchemaVerdict::Applied => result_model(Seq::empty(), Seq::empty(), None),
        SchemaVerdict::Failed { user_error } => error_model(
            if user_error {
                400
            } else {
                503
            },
            payload->Storage_0.text@,
        ),
    }
}

/// The reply that a verdict is answered with.
pub open spec fn verdict_reply(verdict: HttpVerdict, payload: Payload) -> ReplyModel {
    match verdict {
        HttpVerdict::ParseError => parse_error_model(
            "parse error: "@ + payload->message@ + " at "@ + payload->span@,
        ),
        HttpVerdict::BadParams => error_model(400, payload->Params_0@),
        HttpVerdict::Schema { verdict } => schema_reply(verdict, payload),
        HttpVerdict::Shown => result_model(
            texts(payload->Shown_columns@),
            row_json(payload->Shown_rows@),
            None,
        ),
        HttpVerdict::PlanError => plan_error_model(
            payload->Plan_0.unsupported,
            payload->Plan_0.text@,
        ),
        HttpVerdict::Denied => error_model(403, Denied::message(payload->Denial_0.reason@)),
        HttpVerdict::Explained => result_model(
            seq!["plan"@],
            plan_rows(texts(payload->Lines_0@)),
            None,
        ),
        HttpVerdict::WriteReadOnly => error_model(403, WRITE_FORBIDDEN@),
        HttpVerdict::WriteDegraded => error_model(507, degraded_text(payload->Intake_0@)),
        HttpVerdict::Busy => error_model(503, WRITER_BUSY@),
        HttpVerdict::Retired => error_model(503, NAMESPACE_RETIRED@),
        HttpVerdict::Written => result_model(
            row_columns(payload->Outcome_0.rows@),
            row_json(payload->Outcome_0.rows@),
            Some(WriteSummary::of(payload->Outcome_0)),
        ),
        HttpVerdict::WriteFailed => exec_failure_model(
            "write execution failed"@,
            payload->Exec_0,
        ),
        HttpVerdict::Read => result_model(
            row_columns(payload->Rows_0@),
            row_json(payload->Rows_0@),
            None,
        ),
        HttpVerdict::ReadFailed => exec_failure_model("read execution failed"@, payload->Exec_0),
    }
}

/// The reply with the rows of a query.
fn rows_response(rows: &Vec<Row>, summary: Option<WriteSummary>) -> (r: Reply)
    ensures
        r@ == result_model(row_columns(rows@), row_json(rows@), summary),
{
    let (columns, json) = rows_to_json(rows);
    cypher_response(&columns, json, summary)
}

/// The reply with no rows.
fn empty_response() -> (r: Reply)
    ensures
        r@ == result_model(Seq::empty(), Seq::empty(), None),
{
    let columns: Vec<String> = Vec::new();
    let rows: Vec<Json> = Vec::new();
    assert(texts(columns@) =~= Seq::<Seq<char>>::empty());
    assert(trees(rows@) =~= Seq::<JsonTree>::empty());
    cypher_response(&columns, rows, None)
}

/// The reply to a refusal by the policy.
fn denied_response(denied: &Denied) -> (r: Reply)
    ensures
        r@ == error_model(403, Denied::message(denied.reason@)),
{
    let text = denied.to_text();
    error_reply(403, text.as_str())
}

/// The reply that a verdict is answered with.
pub fn http_reply(verdict: HttpVerdict, payload: &Payload) -> (r: Reply)
    requires
        payload.fits_http(verdict),
    ensures
        r@ == verdict_reply(verdict, *payload),
{
    match payload {
        Payload::ParseFailure { message, span } => {
            let mut error = "parse error: ".to_owned();
            error.append(message.as_str());
            error.append(" at ");
            error.append(span.as_str());
            parse_error_response(error.as_str())
        },
        Payload::Params(e) => error_reply(400, e.as_str()),
        Payload::Denial(denied) => denied_response(denied),
        Payload::Intake(reason) => persistence_degraded_response(reason.as_str()),
        Payload::Plan(e) => plan_error_response(e),
        Payload::Storage(e) => {
            if e.is_user() {
                error_reply(400, e.text.as_str())
            } else {
                error_reply(503, e.text.as_str())
            }
        },
        Payload::Exec(e) => match verdict {
            HttpVerdict::WriteFailed => exec_failure_response("write execution failed", e),
            _ => exec_failure_response("read execution failed", e),
        },
        Payload::Rows(rows) => rows_response(rows, None),
        Payload::Shown { columns, rows } => {
            let (_bound, json) = rows_to_json(rows);
            cypher_response(columns, json, None)
        },
        Payload::Lines(lines) => explain_response(lines),
        Payload::Outcome(outcome) => rows_response(
            &outcome.rows,
            Some(WriteSummary::from_outcome(outcome)),
        ),
        Payload::Nothing => match verdict {
            HttpVerdict::WriteReadOnly => error_reply(403, WRITE_FORBIDDEN),
            HttpVerdict::Busy => writer_busy_response(),
            HttpVerdict::Retired => namespace_retired_response(),
            HttpVerdict::Schema { verdict } => match verdict {
                SchemaVerdict::ReadOnly => error_reply(403, SCHEMA_FORBIDDEN),
                SchemaVerdict::Busy => writer_busy_response(),
                SchemaVerdict::Retired => namespace_retired_response(),
                _ => empty_response(),
            },
            _ => empty_response(),
        },
    }
}

/// A request succeeds exactly when it is answered with status 200, and a write
/// that the caller may not make, or that the policy refused, is answered with
/// 403.
pub proof fn law_status_tells_success(verdict: HttpVerdict, payload: Payload)
    requires
        payload.fits_http(verdict),
    ensures
        verdict_reply(verdict, payload).status == 200 <==> verdict.ok_spec(),
        verdict is WriteReadOnly || verdict is Denied ==> verdict_reply(verdict, payload).status
            == 403,
        !verdict_reply(verdict, payload).authenticate,
{
}

// ---------------------------------------------------------------------------
// Probes
// ---------------------------------------------------------------------------

/// The readiness of a namespace.
pub open spec fn health_model(
    namespace: Seq<char>,
    manifest_version: u64,
    epoch: u64,
    health: HealthModel,
    memtable_bytes: Option<usize>,
    memory: GovernorModel,
) -> ReplyModel {
    let pressure = memory.max_bytes > 0 && memory.resident_bytes >= memory.max_bytes;
    let degraded = health.degraded is Some || pressure;
    let word = |bad: bool|
        if bad {
            JsonTree::Text("degraded"@)
        } else {
            JsonTree::Text("ok"@)
        };
    let head = seq![
        ("status"@, word(degraded)),
        ("namespace"@, JsonTree::Text(namespace)),
        ("manifest_version"@, JsonTree::Integer(manifest_version as int)),
        ("epoch"@, JsonTree::Integer(epoch as int)),
        ("writer"@, word(health.degraded is Some)),
    ];
    let error = match health.degraded {
        Some(reason) => seq![("writer_error"@, JsonTree::Text(reason))],
        None => Seq::empty(),
    };
    let memtable = match memtable_bytes {
        Some(n) => seq![("memtable_bytes"@, JsonTree::Integer(n as int))],
        None => Seq::empty(),
    };
    let tail = seq![
        ("memory_resident_bytes"@, JsonTree::Integer(memory.resident_bytes as int)),
        ("memory_max_bytes"@, JsonTree::Integer(memory.max_bytes as int)),
        ("memory_pressure"@, JsonTree::Bool(pressure)),
    ];
    ReplyModel {
        status: if degraded {
            503
        } else {
            200
        },
        authenticate: false,
        body: JsonTree::Object(head + error + memtable + tail),
    }
}

/// The readiness of a namespace. A degraded writer and a process at its memory
/// ceiling are not ready: reads may still be served, but traffic is not to be
/// routed here as if all were well.
pub fn health_response(
    namespace: &str,
    manifest_version: u64,
    epoch: u64,
    writer_health: &WriterHealth,
    memtable_bytes: Option<usize>,
    memory: &MemoryGovernor,
) -> (r: Reply)
    ensures
        r@ == health_model(
            namespace@,
            manifest_version,
            epoch,
            writer_health@,
            memtable_bytes,
            memory@,
        ),
{
    let writer_error = writer_health.degraded_reason();
    let writer_degraded = writer_error.is_some();
    let pressure = memory.over_limit();
    let degraded = writer_degraded || pressure;
    let status = if degraded {
        "degraded"
    } else {
        "ok"
    };
    let head = Members::new().with_text("status", status).with_text(
        "namespace",
        namespace,
    ).with_number("manifest_version", manifest_version).with_number("epoch", epoch).with_text(
        "writer",
        writer_health.status(),
    );
    let with_error = match &writer_error {
        Some(reason) => head.with_text("writer_error", reason.as_str()),
        None => head,
    };
    let with_memtable = match memtable_bytes {
        Some(n) => with_error.with_number("memtable_bytes", n as u64),
        None => with_error,
    };
    let members = with_memtable.with_number(
        "memory_resident_bytes",
        memory.resident_bytes() as u64,
    ).with_number("memory_max_bytes", memory.max_bytes() as u64).with_bool(
        "memory_pressure",
        pressure,
    );
    let ghost built = members@;
    let code: u16 = if degraded {
        503
    } else {
        200
    };
    let r = Reply { status: code, authenticate: false, body: members.finish() };
    proof {
        let model = health_model(
            namespace@,
            manifest_version,
            epoch,
            writer_health@,
            memtable_bytes,
            memory@,
        );
        assert(built =~= model.body->Object_0);
    }
    r
}

/// An error in words is found under its name, with the status that it is given,
/// and only a reply without credentials challenges for some.
pub proof fn law_errors_are_told(status: u16, error: Seq<char>)
    ensures
        error_model(status, error).status == status,
        error_model(status, error).body.field("error"@) == Some(JsonTree::Text(error)),
        !error_model(status, error).authenticate,
        unauthorized_model(error).status == 401,
        unauthorized_model(error).body.field("error"@) == Some(JsonTree::Text(error)),
        unauthorized_model(error).authenticate,
{
}

/// A classified error tells under each name what it is: the words, the dotted
/// class, the status class, and the short code if there is one.
pub proof fn law_classified_errors_are_told(
    status: u16,
    error: Seq<char>,
    code: Option<Seq<char>>,
    class: Seq<char>,
    gql: Seq<char>,
)
    ensures
        ({
            let reply = classified_model(status, error, code, class, gql);
            &&& reply.status == status
            &&& !reply.authenticate
            &&& reply.body.field("error"@) == Some(JsonTree::Text(error))
            &&& reply.body.field("neo4j_code"@) == Some(JsonTree::Text(class))
            &&& reply.body.field("gql_status"@) == Some(JsonTree::Text(gql))
            &&& code matches Some(c) ==> reply.body.field("code"@) == Some(JsonTree::Text(c))
            &&& code is None ==> reply.body.field("code"@) is None
        }),
{
    reveal_strlit("code");
    reveal_strlit("error");
    reveal_strlit("gql_status");
    reveal_strlit("neo4j_code");
    assert("code"@.len() != "error"@.len());
    assert("code"@.len() != "gql_status"@.len());
    assert("error"@.len() != "gql_status"@.len());
    assert("code"@.len() != "neo4j_code"@.len());
    assert("error"@.len() != "neo4j_code"@.len());
    assert("gql_status"@[0] != "neo4j_code"@[0]);
    let members = classified_model(status, error, code, class, gql).body->Object_0;
    match code {
        Some(c) => {
            assert(members =~= seq![
                ("code"@, JsonTree::Text(c)),
                ("error"@, JsonTree::Text(error)),
                ("gql_status"@, JsonTree::Text(gql)),
                ("neo4j_code"@, JsonTree::Text(class)),
            ]);
            crate::json::law_first_member_counts(members, 0);
            crate::json::law_first_member_counts(members, 1);
            crate::json::law_first_member_counts(members, 2);
            crate::json::law_first_member_counts(members, 3);
        },
        None => {
            crate::json::law_first_member_counts(members, 0);
            crate::json::law_first_member_counts(members, 1);
            crate::json::law_first_member_counts(members, 2);
            reveal_with_fuel(crate::json::member, 4);
            assert(members.skip(1)[0] == members[1]);
            assert(members.skip(1).skip(1)[0] == members[2]);
            assert(members.skip(1).skip(1).skip(1).len() == 0);
        },
    }
}

/// The counts of a write are told each under its name, those of nodes apart from
/// those of relationships, and what was created apart from what was deleted.
pub proof fn law_write_summary(o: WriteOutcome)
    ensures
        ({
            let told = WriteSummary::of(o).tree();
            &&& told.field("nodes_created"@) == Some(JsonTree::Integer(o.nodes_created as int))
            &&& told.field("edges_created"@) == Some(JsonTree::Integer(o.edges_created as int))
            &&& told.field("nodes_deleted"@) == Some(JsonTree::Integer(o.nodes_deleted as int))
            &&& told.field("edges_deleted"@) == Some(JsonTree::Integer(o.edges_deleted as int))
            &&& told.field("properties_set"@) == Some(JsonTree::Integer(o.properties_set as int))
        }),
{
    reveal_strlit("nodes_created");
    reveal_strlit("edges_created");
    reveal_strlit("nodes_deleted");
    reveal_strlit("edges_deleted");
    reveal_strlit("properties_set");
    assert("nodes_created"@[0] != "edges_created"@[0]);
    assert("nodes_created"@[6] != "nodes_deleted"@[6]);
    assert("edges_created"@[0] != "nodes_deleted"@[0]);
    assert("nodes_created"@[0] != "edges_deleted"@[0]);
    assert("edges_created"@[6] != "edges_deleted"@[6]);
    assert("nodes_deleted"@[0] != "edges_deleted"@[0]);
    assert("nodes_created"@.len() != "properties_set"@.len());
    assert("edges_created"@.len() != "properties_set"@.len());
    assert("nodes_deleted"@.len() != "properties_set"@.len());
    assert("edges_deleted"@.len() != "properties_set"@.len());
    let members = WriteSummary::of(o).tree()->Object_0;
    crate::json::law_first_member_counts(members, 0);
    crate::json::law_first_member_counts(members, 1);
    crate::json::law_first_member_counts(members, 2);
    crate::json::law_first_member_counts(members, 3);
    crate::json::law_first_member_counts(members, 4);
}

/// A result shows its columns and rows in order under their names, and the counts
/// of a write exactly if it was one.
pub proof fn law_results_are_told(
    columns: Seq<Seq<char>>,
    rows: Seq<JsonTree>,
    summary: Option<WriteSummary>,
    i: int,
)
    ensures
        ({
            let reply = result_model(columns, rows, summary);
            &&& reply.status == 200
            &&& !reply.authenticate
            &&& reply.body.field("rows"@) == Some(JsonTree::Array(rows))
            &&& reply.body.field("columns"@) is Some
            &&& reply.body.field("columns"@)->Some_0 is Array
            &&& reply.body.field("columns"@)->Some_0->Array_0.len() == columns.len()
            &&& 0 <= i < columns.len() ==> reply.body.field("columns"@)->Some_0->Array_0[i]
                == JsonTree::Text(columns[i])
            &&& summary matches Some(s) ==> reply.body.field("write_outcome"@) == Some(s.tree())
            &&& summary is None ==> reply.body.field("write_outcome"@) is None
        }),
{
    reveal_strlit("columns");
    reveal_strlit("rows");
    reveal_strlit("write_outcome");
    assert("columns"@.len() != "rows"@.len());
    assert("columns"@.len() != "write_outcome"@.len());
    assert("rows"@.len() != "write_outcome"@.len());
    let members = result_model(columns, rows, summary).body->Object_0;
    crate::json::law_first_member_counts(members, 0);
    crate::json::law_first_member_counts(members, 1);
    if summary is Some {
        crate::json::law_first_member_counts(members, 2);
    } else {
        reveal_with_fuel(crate::json::member, 3);
        assert(members.skip(1)[0] == members[1]);
        assert(members.skip(1).skip(1).len() == 0);
    }
}

/// Each line of an explained plan is a row of its own, in order.
pub proof fn law_plan_rows(lines: Seq<Seq<char>>, i: int)
    requires
        0 <= i < lines.len(),
    ensures
        plan_rows(lines).len() == lines.len(),
        plan_rows(lines)[i].field("plan"@) == Some(JsonTree::Text(lines[i])),
{
}

/// What an HTTP client reads off the status of a reply: 403 that the caller may
/// not do this, 507 that local persistence refuses writes, 503 that the writer was
/// not to be had or the storage is in trouble, 400 that the statement is at fault;
/// and the words are those that came back.
pub proof fn law_statuses_tell_causes(verdict: HttpVerdict, payload: Payload)
    requires
        payload.fits_http(verdict),
    ensures
        ({
            let reply = verdict_reply(verdict, payload);
            let told = reply.body.field("error"@);
            let exec = verdict is WriteFailed || verdict is ReadFailed;
            &&& reply.status == 403 <==> verdict is WriteReadOnly || verdict is Denied || verdict
                == (HttpVerdict::Schema { verdict: SchemaVerdict::ReadOnly }) || verdict == (
            HttpVerdict::Schema { verdict: SchemaVerdict::Denied })
            &&& reply.status == 507 <==> verdict is WriteDegraded || verdict == (
            HttpVerdict::Schema { verdict: SchemaVerdict::Degraded })
            &&& !exec ==> (reply.status == 503 <==> verdict is Busy || verdict is Retired || (
            verdict matches HttpVerdict::Schema { verdict: v } && (v is Busy || v is Retired || v
                == (SchemaVerdict::Failed { user_error: false }))))
            &&& !exec ==> (reply.status == 400 <==> verdict is ParseError || verdict is BadParams
                || verdict is PlanError || verdict == (HttpVerdict::Schema {
                verdict: SchemaVerdict::Failed { user_error: true },
            }))
            &&& payload matches Payload::Params(text) ==> told == Some(JsonTree::Text(text@))
            &&& payload matches Payload::Denial(denied) ==> told == Some(
                JsonTree::Text(Denied::message(denied.reason@)),
            )
            &&& payload matches Payload::Intake(reason) ==> told == Some(
                JsonTree::Text("namespace degraded: "@ + reason@),
            )
            &&& payload matches Payload::Storage(failure) ==> told == Some(
                JsonTree::Text(failure.text@),
            )
            &&& payload matches Payload::ParseFailure { message, span } ==> told == Some(
                JsonTree::Text("parse error: "@ + message@ + " at "@ + span@),
            )
            &&& payload matches Payload::Plan(failure) ==> told == Some(
                JsonTree::Text("plan error: "@ + failure.text@),
            )
            &&& payload matches Payload::Exec(failure) ==> told == Some(
                JsonTree::Text(
                    if verdict is WriteFailed {
                        "write execution failed: "@
                    } else {
                        "read execution failed: "@
                    } + failure.text@,
                ),
            )
        }),
{
    match payload {
        Payload::ParseFailure { message, span } => {
            law_classified_errors_are_told(
                400,
                "parse error: "@ + message@ + " at "@ + span@,
                Some("parse_error"@),
                "Neo.ClientError.Statement.SyntaxError"@,
                "42001"@,
            );
        },
        Payload::Plan(e) => {
            law_classified_errors_are_told(
                400,
                "plan error: "@ + e.text@,
                Some("unsupported"@),
                "Neo.ClientError.Statement.NotSupported"@,
                "0A000"@,
            );
            law_classified_errors_are_told(
                400,
                "plan error: "@ + e.text@,
                Some("plan_error"@),
                "Neo.ClientError.Statement.SemanticError"@,
                "42000"@,
            );
        },
        Payload::Exec(e) => {
            let class = exec_class(e.kind, e.unsupported);
            let taxonomy = exec_taxonomy(e.kind, e.unsupported);
            reveal_strlit("write execution failed");
            reveal_strlit("write execution failed: ");
            reveal_strlit("read execution failed");
            reveal_strlit("read execution failed: ");
            reveal_strlit(": ");
            assert("write execution failed"@ + ": "@ =~= "write execution failed: "@);
            assert("read execution failed"@ + ": "@ =~= "read execution failed: "@);
            law_classified_errors_are_told(
                class.0,
                "write execution failed: "@ + e.text@,
                class.1,
                taxonomy.0,
                taxonomy.1,
            );
            law_classified_errors_are_told(
                class.0,
                "read execution failed: "@ + e.text@,
                class.1,
                taxonomy.0,
                taxonomy.1,
            );
        },
        _ => {},
    }
}

/// The results that a client gets are those that came back: the rows of a read,
/// the rows and counts of a write, the rows of a look at the schema under its own
/// columns, and the lines of a plan.
pub proof fn law_successes_tell_results(verdict: HttpVerdict, payload: Payload)
    requires
        payload.fits_http(verdict),
        verdict.ok_spec(),
    ensures
        ({
            let body = verdict_reply(verdict, payload).body;
            let rows = body.field("rows"@);
            let counts = body.field("write_outcome"@);
            &&& counts is Some <==> payload is Outcome
            &&& payload matches Payload::Outcome(o) ==> counts == Some(WriteSummary::of(o).tree())
                && rows == Some(JsonTree::Array(row_json(o.rows@)))
            &&& payload matches Payload::Rows(all) ==> rows == Some(JsonTree::Array(row_json(all@)))
            &&& payload matches Payload::Shown { rows: all, .. } ==> rows == Some(
                JsonTree::Array(row_json(all@)),
            )
            &&& payload matches Payload::Lines(lines) ==> rows == Some(
                JsonTree::Array(plan_rows(texts(lines@))),
            )
            &&& payload matches Payload::Shown { columns, .. } ==> body.field("columns"@) == Some(
                text_array(texts(columns@)),
            )
            &&& payload is Nothing ==> rows == Some(JsonTree::Array(Seq::empty()))
        }),
{
    match payload {
        Payload::Outcome(o) => law_results_are_told(
            row_columns(o.rows@),
            row_json(o.rows@),
            Some(WriteSummary::of(o)),
            0,
        ),
        Payload::Rows(all) => law_results_are_told(row_columns(all@), row_json(all@), None, 0),
        Payload::Shown { columns, rows } => law_results_are_told(
            texts(columns@),
            row_json(rows@),
            None,
            0,
        ),
        Payload::Lines(lines) => law_results_are_told(
            seq!["plan"@],
            plan_rows(texts(lines@)),
            None,
            0,
        ),
        _ => law_results_are_told(Seq::empty(), Seq::empty(), None, 0),
    }
}

/// What the status of a failed execution tells: 504 that a deadline passed, 409
/// that a constraint was violated, 413 that a limit of the query was met, 503 that
/// there was no room for the search, 400 that the statement is at fault, and 500
/// the rest, which alone has no short code.
pub proof fn law_exec_statuses(kind: ExecKind, unsupported: bool)
    ensures
        ({
            let (status, code) = exec_class(kind, unsupported);
            let limit = kind == (ExecKind::Storage { kind: StorageKind::ResultLimit }) || kind == (
            ExecKind::Storage { kind: StorageKind::DocumentLimit });
            let room = kind == (ExecKind::Storage { kind: StorageKind::CacheCapacity }) || kind == (
            ExecKind::Storage { kind: StorageKind::WorkspaceExceeded });
            let known = kind is Timeout || kind is Constraint || kind is RowCap || limit || room;
            &&& status == 504 <==> kind is Timeout
            &&& status == 409 <==> kind is Constraint
            &&& status == 413 <==> kind is RowCap || limit
            &&& status == 503 <==> room
            &&& status == 400 <==> !known && (unsupported || kind is Eval)
            &&& status == 500 <==> !known && !unsupported && !(kind is Eval)
            &&& status == 500 <==> code is None
        }),
{
}

/// No two kinds of failure that a client tells apart share a short code.
pub proof fn law_exec_codes_differ(a: ExecKind, b: ExecKind)
    requires
        exec_class(a, false).1 is Some,
        exec_class(a, false).1 == exec_class(b, false).1,
    ensures
        a == b || (a is RowCap && b is RowCap),
{
    reveal_strlit("timeout");
    reveal_strlit("row_cap");
    reveal_strlit("constraint");
    reveal_strlit("search_index_cache_capacity");
    reveal_strlit("search_workspace_capacity");
    reveal_strlit("search_result_limit");
    reveal_strlit("search_document_limit");
    reveal_strlit("eval_error");
    assert("timeout"@[0] != "row_cap"@[0]);
    assert("timeout"@.len() != "constraint"@.len());
    assert("row_cap"@.len() != "constraint"@.len());
    assert("timeout"@.len() != "search_index_cache_capacity"@.len());
    assert("row_cap"@.len() != "search_index_cache_capacity"@.len());
    assert("constraint"@.len() != "search_index_cache_capacity"@.len());
    assert("timeout"@.len() != "search_workspace_capacity"@.len());
    assert("row_cap"@.len() != "search_workspace_capacity"@.len());
    assert("constraint"@.len() != "search_workspace_capacity"@.len());
    assert("search_index_cache_capacity"@.len() != "search_workspace_capacity"@.len());
    assert("timeout"@.len() != "search_result_limit"@.len());
    assert("row_cap"@.len() != "search_result_limit"@.len());
    assert("constraint"@.len() != "search_result_limit"@.len());
    assert("search_index_cache_capacity"@.len() != "search_result_limit"@.len());
    assert("search_workspace_capacity"@.len() != "search_result_limit"@.len());
    assert("timeout"@.len() != "search_document_limit"@.len());
    assert("row_cap"@.len() != "search_document_limit"@.len());
    assert("constraint"@.len() != "search_document_limit"@.len());
    assert("search_index_cache_capacity"@.len() != "search_document_limit"@.len());
    assert("search_workspace_capacity"@.len() != "search_document_limit"@.len());
    assert("search_result_limit"@.len() != "search_document_limit"@.len());
    assert("timeout"@.len() != "eval_error"@.len());
    assert("row_cap"@.len() != "eval_error"@.len());
    assert("constraint"@[0] != "eval_error"@[0]);
    assert("search_index_cache_capacity"@.len() != "eval_error"@.len());
    assert("search_workspace_capacity"@.len() != "eval_error"@.len());
    assert("search_result_limit"@.len() != "eval_error"@.len());
    assert("search_document_limit"@.len() != "eval_error"@.len());
}

/// Only a failure of the storage is transient, and none of its limits is; a
/// deadline, a constraint and a limit are the client's, each under its own class.
pub proof fn law_exec_taxonomy(kind: ExecKind, unsupported: bool)
    ensures
        ({
            let (class, gql) = exec_taxonomy(kind, unsupported);
            let limit = kind == (ExecKind::Storage { kind: StorageKind::ResultLimit }) || kind == (
            ExecKind::Storage { kind: StorageKind::DocumentLimit });
            &&& kind is Storage && !limit <==> class
                == "Neo.TransientError.General.DatabaseUnavailable"@
            &&& kind is RowCap || limit <==> class
                == "Neo.ClientError.Statement.ResourceLimitExceeded"@
            &&& kind is Timeout <==> class == "Neo.ClientError.Transaction.TransactionTimedOut"@
            &&& kind is Constraint <==> class
                == "Neo.ClientError.Schema.ConstraintValidationFailed"@
            &&& kind is Timeout <==> gql == "57014"@
            &&& kind is Constraint <==> gql == "23000"@
            &&& kind is RowCap || limit <==> gql == "54000"@
            &&& kind is Storage && !limit <==> gql == "53000"@
            &&& (kind is Eval || kind is Runtime || kind is Cancelled) && unsupported <==> gql
                == "0A000"@
        }),
{
    reveal_strlit("57014");
    reveal_strlit("54000");
    reveal_strlit("23000");
    reveal_strlit("53000");
    reveal_strlit("0A000");
    reveal_strlit("22000");
    reveal_strlit("50N42");
    assert("57014"@[1] != "54000"@[1]);
    assert("57014"@[0] != "23000"@[0]);
    assert("54000"@[0] != "23000"@[0]);
    assert("57014"@[1] != "53000"@[1]);
    assert("54000"@[1] != "53000"@[1]);
    assert("23000"@[0] != "53000"@[0]);
    assert("57014"@[0] != "0A000"@[0]);
    assert("54000"@[0] != "0A000"@[0]);
    assert("23000"@[0] != "0A000"@[0]);
    assert("53000"@[0] != "0A000"@[0]);
    assert("57014"@[0] != "22000"@[0]);
    assert("54000"@[0] != "22000"@[0]);
    assert("23000"@[1] != "22000"@[1]);
    assert("53000"@[0] != "22000"@[0]);
    assert("0A000"@[0] != "22000"@[0]);
    assert("57014"@[1] != "50N42"@[1]);
    assert("54000"@[1] != "50N42"@[1]);
    assert("23000"@[0] != "50N42"@[0]);
    assert("53000"@[1] != "50N42"@[1]);
    assert("0A000"@[0] != "50N42"@[0]);
    assert("22000"@[0] != "50N42"@[0]);
    reveal_strlit("Neo.ClientError.Transaction.TransactionTimedOut");
    reveal_strlit("Neo.ClientError.Statement.ResourceLimitExceeded");
    reveal_strlit("Neo.ClientError.Schema.ConstraintValidationFailed");
    reveal_strlit("Neo.TransientError.General.DatabaseUnavailable");
    reveal_strlit("Neo.ClientError.Statement.NotSupported");
    reveal_strlit("Neo.ClientError.Statement.ArgumentError");
    reveal_strlit("Neo.DatabaseError.General.UnknownError");
    assert("Neo.ClientError.Transaction.TransactionTimedOut"@[16] != "Neo.ClientError.Statement.ResourceLimitExceeded"@[16]);
    assert("Neo.ClientError.Transaction.TransactionTimedOut"@.len() != "Neo.ClientError.Schema.ConstraintValidationFailed"@.len());
    assert("Neo.ClientError.Statement.ResourceLimitExceeded"@.len() != "Neo.ClientError.Schema.ConstraintValidationFailed"@.len());
    assert("Neo.ClientError.Transaction.TransactionTimedOut"@.len() != "Neo.TransientError.General.DatabaseUnavailable"@.len());
    assert("Neo.ClientError.Statement.ResourceLimitExceeded"@.len() != "Neo.TransientError.General.DatabaseUnavailable"@.len());
    assert("Neo.ClientError.Schema.ConstraintValidationFailed"@.len() != "Neo.TransientError.General.DatabaseUnavailable"@.len());
    assert("Neo.ClientError.Transaction.TransactionTimedOut"@.len() != "Neo.ClientError.Statement.NotSupported"@.len());
    assert("Neo.ClientError.Statement.ResourceLimitExceeded"@.len() != "Neo.ClientError.Statement.NotSupported"@.len());
    assert("Neo.ClientError.Schema.ConstraintValidationFailed"@.len() != "Neo.ClientError.Statement.NotSupported"@.len());
    assert("Neo.TransientError.General.DatabaseUnavailable"@.len() != "Neo.ClientError.Statement.NotSupported"@.len());
    assert("Neo.ClientError.Transaction.TransactionTimedOut"@.len() != "Neo.ClientError.Statement.ArgumentError"@.len());
    assert("Neo.ClientError.Statement.ResourceLimitExceeded"@.len() != "Neo.ClientError.Statement.ArgumentError"@.len());
    assert("Neo.ClientError.Schema.ConstraintValidationFailed"@.len() != "Neo.ClientError.Statement.ArgumentError"@.len());
    assert("Neo.TransientError.General.DatabaseUnavailable"@.len() != "Neo.ClientError.Statement.ArgumentError"@.len());
    assert("Neo.ClientError.Statement.NotSupported"@.len() != "Neo.ClientError.Statement.ArgumentError"@.len());
    assert("Neo.ClientError.Transaction.TransactionTimedOut"@.len() != "Neo.DatabaseError.General.UnknownError"@.len());
    assert("Neo.ClientError.Statement.ResourceLimitExceeded"@.len() != "Neo.DatabaseError.General.UnknownError"@.len());
    assert("Neo.ClientError.Schema.ConstraintValidationFailed"@.len() != "Neo.DatabaseError.General.UnknownError"@.len());
    assert("Neo.TransientError.General.DatabaseUnavailable"@.len() != "Neo.DatabaseError.General.UnknownError"@.len());
    assert("Neo.ClientError.Statement.NotSupported"@[4] != "Neo.DatabaseError.General.UnknownError"@[4]);
    assert("Neo.ClientError.Statement.ArgumentError"@.len() != "Neo.DatabaseError.General.UnknownError"@.len());
}

/// A probe tells each fact under its name: which namespace, its manifest and
/// epoch, what keeps the writer from serving, what the memtable holds if it was
/// looked at, and what memory there is. It is ready exactly if the writer is not
/// degraded and memory is below its ceiling.
pub proof fn law_health_is_told(
    namespace: Seq<char>,
    manifest_version: u64,
    epoch: u64,
    health: HealthModel,
    memtable_bytes: Option<usize>,
    memory: GovernorModel,
)
    ensures
        ({
            let reply = health_model(
                namespace,
                manifest_version,
                epoch,
                health,
                memtable_bytes,
                memory,
            );
            let full = memory.max_bytes != 0 && memory.max_bytes <= memory.resident_bytes;
            let ready = health.degraded is None && !full;
            let body = reply.body;
            &&& reply.status == 200 <==> ready
            &&& reply.status == 503 <==> !ready
            &&& !reply.authenticate
            &&& ready ==> body.field("status"@) == Some(JsonTree::Text("ok"@))
            &&& !ready ==> body.field("status"@) == Some(JsonTree::Text("degraded"@))
            &&& body.field("namespace"@) == Some(JsonTree::Text(namespace))
            &&& body.field("manifest_version"@) == Some(JsonTree::Integer(manifest_version as int))
            &&& body.field("epoch"@) == Some(JsonTree::Integer(epoch as int))
            &&& health.degraded is None ==> body.field("writer"@) == Some(JsonTree::Text("ok"@))
            &&& health.degraded matches Some(reason) ==> body.field("writer"@) == Some(
                JsonTree::Text("degraded"@),
            ) && body.field("writer_error"@) == Some(JsonTree::Text(reason))
            &&& memtable_bytes matches Some(n) ==> body.field("memtable_bytes"@) == Some(
                JsonTree::Integer(n as int),
            )
            &&& body.field("memory_resident_bytes"@) == Some(
                JsonTree::Integer(memory.resident_bytes as int),
            )
            &&& body.field("memory_max_bytes"@) == Some(JsonTree::Integer(memory.max_bytes as int))
            &&& body.field("memory_pressure"@) == Some(JsonTree::Bool(full))
        }),
{
    reveal_strlit("status");
    reveal_strlit("namespace");
    reveal_strlit("manifest_version");
    reveal_strlit("epoch");
    reveal_strlit("writer");
    reveal_strlit("writer_error");
    reveal_strlit("memtable_bytes");
    reveal_strlit("memory_resident_bytes");
    reveal_strlit("memory_max_bytes");
    reveal_strlit("memory_pressure");
    assert("status"@.len() != "namespace"@.len());
    assert("status"@.len() != "manifest_version"@.len());
    assert("namespace"@.len() != "manifest_version"@.len());
    assert("status"@.len() != "epoch"@.len());
    assert("namespace"@.len() != "epoch"@.len());
    assert("manifest_version"@.len() != "epoch"@.len());
    assert("status"@[0] != "writer"@[0]);
    assert("namespace"@.len() != "writer"@.len());
    assert("manifest_version"@.len() != "writer"@.len());
    assert("epoch"@.len() != "writer"@.len());
    assert("status"@.len() != "writer_error"@.len());
    assert("namespace"@.len() != "writer_error"@.len());
    assert("manifest_version"@.len() != "writer_error"@.len());
    assert("epoch"@.len() != "writer_error"@.len());
    assert("writer"@.len() != "writer_error"@.len());
    assert("status"@.len() != "memtable_bytes"@.len());
    assert("namespace"@.len() != "memtable_bytes"@.len());
    assert("manifest_version"@.len() != "memtable_bytes"@.len());
    assert("epoch"@.len() != "memtable_bytes"@.len());
    assert("writer"@.len() != "memtable_bytes"@.len());
    assert("writer_error"@.len() != "memtable_bytes"@.len());
    assert("status"@.len() != "memory_resident_bytes"@.len());
    assert("namespace"@.len() != "memory_resident_bytes"@.len());
    assert("manifest_version"@.len() != "memory_resident_bytes"@.len());
    assert("epoch"@.len() != "memory_resident_bytes"@.len());
    assert("writer"@.len() != "memory_resident_bytes"@.len());
    assert("writer_error"@.len() != "memory_resident_bytes"@.len());
    assert("memtable_bytes"@.len() != "memory_resident_bytes"@.len());
    assert("status"@.len() != "memory_max_bytes"@.len());
    assert("namespace"@.len() != "memory_max_bytes"@.len());
    assert("manifest_version"@[1] != "memory_max_bytes"@[1]);
    assert("epoch"@.len() != "memory_max_bytes"@.len());
    assert("writer"@.len() != "memory_max_bytes"@.len());
    assert("writer_error"@.len() != "memory_max_bytes"@.len());
    assert("memtable_bytes"@.len() != "memory_max_bytes"@.len());
    assert("memory_resident_bytes"@.len() != "memory_max_bytes"@.len());
    assert("status"@.len() != "memory_pressure"@.len());
    assert("namespace"@.len() != "memory_pressure"@.len());
    assert("manifest_version"@.len() != "memory_pressure"@.len());
    assert("epoch"@.len() != "memory_pressure"@.len());
    assert("writer"@.len() != "memory_pressure"@.len());
    assert("writer_error"@.len() != "memory_pressure"@.len());
    assert("memtable_bytes"@.len() != "memory_pressure"@.len());
    assert("memory_resident_bytes"@.len() != "memory_pressure"@.len());
    assert("memory_max_bytes"@.len() != "memory_pressure"@.len());
    let members = health_model(
        namespace,
        manifest_version,
        epoch,
        health,
        memtable_bytes,
        memory,
    ).body->Object_0;
    let a: int = if health.degraded is Some {
        1
    } else {
        0
    };
    let b: int = if memtable_bytes is Some {
        1
    } else {
        0
    };
    assert(members.len() == 8 + a + b);
    assert(members[5 + a + b].0 == "memory_resident_bytes"@);
    assert(members[6 + a + b].0 == "memory_max_bytes"@);
    assert(members[7 + a + b].0 == "memory_pressure"@);
    if health.degraded is Some {
        assert(members[5].0 == "writer_error"@);
        crate::json::law_first_member_counts(members, 5);
    }
    if memtable_bytes is Some {
        assert(members[5 + a].0 == "memtable_bytes"@);
        crate::json::law_first_member_counts(members, 5 + a);
    }
    crate::json::law_first_member_counts(members, 0);
    crate::json::law_first_member_counts(members, 1);
    crate::json::law_first_member_counts(members, 2);
    crate::json::law_first_member_counts(members, 3);
    crate::json::law_first_member_counts(members, 4);
    crate::json::law_first_member_counts(members, 5 + a + b);
    crate::json::law_first_member_counts(members, 6 + a + b);
    crate::json::law_first_member_counts(members, 7 + a + b);
}

/// The answer of the liveness probe, which looks at nothing.
pub fn livez() -> (r: Reply)
    ensures
        r@ == (ReplyModel {
            status: 200,
            authenticate: false,
            body: JsonTree::Object(seq![("status"@, JsonTree::Text("ok"@))]),
        }),
{
    let members = Members::new().with_text("status", "ok");
    assert(members@ =~= seq![("status"@, JsonTree::Text("ok"@))]);
    Reply { status: 200, authenticate: false, body: members.finish() }
}

/// The version of the process.
pub fn version(number: &str, build_target: &str) -> (r: Reply)
    ensures
        r@ == (ReplyModel {
            status: 200,
            authenticate: false,
            body: JsonTree::Object(
                seq![
                    ("version"@, JsonTree::Text(number@)),
                    ("build_target"@, JsonTree::Text(build_target@)),
                ],
            ),
        }),
{
    let members = Members::new().with_text("version", number).with_text(
        "build_target",
        build_target,
    );
    assert(members@ =~= seq![
        ("version"@, JsonTree::Text(number@)),
        ("build_target"@, JsonTree::Text(build_target@)),
    ]);
    Reply { status: 200, authenticate: false, body: members.finish() }
}

/// What a probe of one namespace among many is told while the process is at its
/// memory ceiling.
pub open spec fn paused_text(memory: GovernorModel) -> Seq<char> {
    "process memory pressure: resident "@ + decimal(memory.resident_bytes as nat)
        + " bytes reached configured maximum "@ + decimal(memory.max_bytes as nat)
        + " bytes; namespace health work is paused until memory falls"@
}

/// The reply to a probe of one namespace among many, if the process is at its
/// memory ceiling: no namespace is opened for a probe then.
pub fn health_paused_response(memory: &MemoryGovernor) -> (r: Option<Reply>)
    ensures
        match r {
            Some(reply) => memory@.max_bytes > 0 && memory@.resident_bytes >= memory@.max_bytes
                && reply@ == error_model(503, paused_text(memory@)),
            None => memory@.max_bytes == 0 || memory@.resident_bytes < memory@.max_bytes,
        },
{
    if !memory.over_limit() {
        return None;
    }
    let mut text = "process memory pressure: resident ".to_owned();
    push_decimal(&mut text, memory.resident_bytes() as u64);
    text.append(" bytes reached configured maximum ");
    push_decimal(&mut text, memory.max_bytes() as u64);
    text.append(" bytes; namespace health work is paused until memory falls");
    Some(error_reply(503, text.as_str()))
}

} // verus!
