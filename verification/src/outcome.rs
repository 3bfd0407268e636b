//! What a Bolt statement is answered with: its rows and counters, or a typed
//! failure whose class tells a driver whether to try again.

use vstd::prelude::*;

use crate::authz::Denied;
use crate::engine::{ExecFailure, ExecKind, LowerFailure, StorageFailure, StorageKind, WriteOutcome};
use crate::memory::MemoryPressure;
use crate::reply::{
    degraded_message, degraded_text, exec_class, exec_taxonomy, pressure_message, pressure_text,
    WriteSummary, WRITER_BUSY, WRITE_FORBIDDEN,
};
use crate::text::{decimal, push_decimal, texts};
use crate::values::{entry_trees, field_list, row_columns, Row, RuntimeValue, ValueTree};

verus! {

// ---------------------------------------------------------------------------
// Failures
// ---------------------------------------------------------------------------

/// The class of a failure.
#[derive(Debug, Clone, Copy, PartialEq, Eq, Structural)]
pub enum ErrorClass {
    Syntax,
    Semantic,
    Unsupported,
    Constraint,
    Timeout,
    Cancelled,
    ResourceLimit,
    /// Transient: drivers try again.
    Storage,
    Eval,
    Forbidden,
    Other,
}

/// A failure of a statement.
#[derive(Debug)]
pub struct BackendError {
    pub class: ErrorClass,
    pub message: String,
}

/// What a failure says.
#[verifier::ext_equal]
pub struct ErrorModel {
    pub class: ErrorClass,
    pub message: Seq<char>,
}

impl View for BackendError {
    type V = ErrorModel;

    open spec fn view(&self) -> ErrorModel {
        ErrorModel { class: self.class, message: self.message@ }
    }
}

/// A failure of that class.
pub open spec fn failure(class: ErrorClass, message: Seq<char>) -> ErrorModel {
    ErrorModel { class, message }
}

impl BackendError {
    /// A failure of that class.
    pub fn new(class: ErrorClass, message: &str) -> (r: BackendError)
        ensures
            r@ == failure(class, message@),
    {
        BackendError { class, message: message.to_owned() }
    }
}

/// The failure of a write while local persistence is degraded.
pub fn persistence_degraded_error(reason: &str) -> (r: BackendError)
    ensures
        r@ == failure(ErrorClass::Storage, degraded_text(reason@)),
{
    BackendError { class: ErrorClass::Storage, message: degraded_message(reason) }
}

/// The failure of a write that did not get the writer in time.
pub fn writer_busy_error() -> (r: BackendError)
    ensures
        r@ == failure(ErrorClass::Storage, WRITER_BUSY@),
{
    BackendError::new(ErrorClass::Storage, WRITER_BUSY)
}

/// The failure of a request that is refused for want of memory.
pub fn memory_pressure_error(pressure: &MemoryPressure) -> (r: BackendError)
    ensures
        r@ == failure(ErrorClass::Storage, pressure_text(*pressure)),
{
    BackendError { class: ErrorClass::Storage, message: pressure_message(pressure) }
}

/// The failure of a statement that the policy refused.
pub fn denied_error(denied: &Denied) -> (r: BackendError)
    ensures
        r@ == failure(ErrorClass::Forbidden, Denied::message(denied.reason@)),
{
    BackendError { class: ErrorClass::Forbidden, message: denied.to_text() }
}

/// The failure of a write by a caller who may not write.
pub fn write_forbidden_error() -> (r: BackendError)
    ensures
        r@ == failure(ErrorClass::Forbidden, WRITE_FORBIDDEN@),
{
    BackendError::new(ErrorClass::Forbidden, WRITE_FORBIDDEN)
}

/// What is left of a statement whose client has gone.
pub const DISCONNECTED: &'static str = "Bolt client disconnected while RUN was executing";

/// The failure of a statement that needs a transaction where there is none.
pub const NO_TRANSACTION: &'static str = "no open transaction";

/// The failure of a failed commit.
pub fn map_storage_err(e: &StorageFailure) -> (r: BackendError)
    ensures
        r@ == failure(ErrorClass::Storage, e.text@),
{
    BackendError::new(ErrorClass::Storage, e.text.as_str())
}

/// The failure of a schema command that the storage refused.
pub open spec fn schema_failure(e: StorageFailure) -> ErrorModel {
    if e.kind.is_user() {
        failure(ErrorClass::Semantic, e.text@)
    } else {
        failure(ErrorClass::Storage, e.text@)
    }
}

/// The failure of a schema command that the storage refused: the statement's own
/// fault, or a transient one.
pub fn map_schema_err(e: &StorageFailure) -> (r: BackendError)
    ensures
        r@ == schema_failure(*e),
{
    if e.is_user() {
        BackendError::new(ErrorClass::Semantic, e.text.as_str())
    } else {
        map_storage_err(e)
    }
}

/// The failure of a statement that cannot be planned.
pub open spec fn lower_failure(e: LowerFailure) -> ErrorModel {
    if e.unsupported {
        failure(ErrorClass::Unsupported, e.message@)
    } else {
        failure(ErrorClass::Semantic, e.message@)
    }
}

/// The failure of a statement that cannot be planned.
pub fn map_lower_err(e: &LowerFailure) -> (r: BackendError)
    ensures
        r@ == lower_failure(*e),
{
    if e.unsupported {
        BackendError::new(ErrorClass::Unsupported, e.message.as_str())
    } else {
        BackendError::new(ErrorClass::Semantic, e.message.as_str())
    }
}

/// The failure of an execution. A limit that the same query would meet again is
/// not transient.
pub open spec fn exec_failure(e: ExecFailure) -> ErrorModel {
    if e.unsupported {
        failure(ErrorClass::Unsupported, e.text@)
    } else {
        match e.kind {
            ExecKind::Constraint => failure(ErrorClass::Constraint, e.detail@),
            ExecKind::Timeout => failure(
                ErrorClass::Timeout,
                "query exceeded the configured timeout"@,
            ),
            ExecKind::Cancelled => failure(
                ErrorClass::Cancelled,
                "query cancelled by administrator"@,
            ),
            ExecKind::RowCap { cap } => failure(
                ErrorClass::ResourceLimit,
                "query exceeded the configured row cap of "@ + decimal(cap as nat),
            ),
            ExecKind::Storage { kind } => match kind {
                StorageKind::Cancelled => failure(
                    ErrorClass::Cancelled,
                    "query cancelled by administrator"@,
                ),
                StorageKind::ResultLimit | StorageKind::DocumentLimit => failure(
                    ErrorClass::ResourceLimit,
                    "storage: "@ + e.detail@,
                ),
                _ => failure(ErrorClass::Storage, "storage: "@ + e.detail@),
            },
            ExecKind::Eval => failure(ErrorClass::Eval, e.detail@),
            ExecKind::Runtime => failure(ErrorClass::Eval, "runtime: "@ + e.detail@),
        }
    }
}

/// `prefix` and the words of the cause.
fn prefixed(prefix: &str, detail: &str) -> (out: String)
    ensures
        out@ == prefix@ + detail@,
{
    let mut out = prefix.to_owned();
    out.append(detail);
    out
}

/// The failure of an execution.
pub fn map_exec_err(e: &ExecFailure) -> (r: BackendError)
    ensures
        r@ == exec_failure(*e),
{
    if e.unsupported {
        return BackendError::new(ErrorClass::Unsupported, e.text.as_str());
    }
    match e.kind {
        ExecKind::Constraint => BackendError::new(ErrorClass::Constraint, e.detail.as_str()),
        ExecKind::Timeout => BackendError::new(
            ErrorClass::Timeout,
            "query exceeded the configured timeout",
        ),
        ExecKind::Cancelled => BackendError::new(
            ErrorClass::Cancelled,
            "query cancelled by administrator",
        ),
        ExecKind::RowCap { cap } => {
            let mut message = "query exceeded the configured row cap of ".to_owned();
            push_decimal(&mut message, cap);
            BackendError { class: ErrorClass::ResourceLimit, message }
        },
        ExecKind::Storage { kind } => match kind {
            StorageKind::Cancelled => BackendError::new(
                ErrorClass::Cancelled,
                "query cancelled by administrator",
            ),
            StorageKind::ResultLimit | StorageKind::DocumentLimit => BackendError {
                class: ErrorClass::ResourceLimit,
                message: prefixed("storage: ", e.detail.as_str()),
            },
            _ => BackendError {
                class: ErrorClass::Storage,
                message: prefixed("storage: ", e.detail.as_str()),
            },
        },
        ExecKind::Eval => BackendError::new(ErrorClass::Eval, e.detail.as_str()),
        ExecKind::Runtime => BackendError {
            class: ErrorClass::Eval,
            message: prefixed("runtime: ", e.detail.as_str()),
        },
    }
}

/// Drivers are told to try again only where a second try may differ: never after
/// a deadline, a cap, a search limit, a violated constraint or a cancellation.
pub proof fn law_deterministic_failures_are_final(e: ExecFailure)
    ensures
        exec_failure(e).class is Storage ==> e.kind is Storage && !e.unsupported,
        e.kind is Timeout || e.kind is RowCap || e.kind is Constraint || e.kind is Cancelled
            ==> !(exec_failure(e).class is Storage),
        e.kind matches ExecKind::Storage { kind } ==> (kind is ResultLimit || kind is DocumentLimit
            || kind is Cancelled) ==> !(exec_failure(e).class is Storage),
{
}

// ---------------------------------------------------------------------------
// Successes
// ---------------------------------------------------------------------------

/// What a statement turned out to be.
#[derive(Debug, Clone, Copy, PartialEq, Eq, Structural)]
pub enum StatementType {
    Read,
    Write,
    ReadWrite,
    Schema,
}

/// The result of a statement.
pub struct RunOutcome {
    pub fields: Vec<String>,
    pub rows: Vec<Row>,
    pub statement_type: StatementType,
    /// The update counters, in the order of their names.
    pub counters: Vec<(String, i64)>,
}

/// What a result says.
#[verifier::ext_equal]
pub struct OutcomeModel {
    pub fields: Seq<Seq<char>>,
    pub rows: Seq<Seq<(Seq<char>, ValueTree)>>,
    pub statement_type: StatementType,
    pub counters: Seq<(Seq<char>, i64)>,
}

/// What rows say.
pub open spec fn row_trees(rows: Seq<Row>) -> Seq<Seq<(Seq<char>, ValueTree)>> {
    rows.map_values(|r: Row| entry_trees(r.bindings@))
}

/// What counters say.
pub open spec fn counter_values(counters: Seq<(String, i64)>) -> Seq<(Seq<char>, i64)> {
    counters.map_values(|c: (String, i64)| (c.0@, c.1))
}

impl View for RunOutcome {
    type V = OutcomeModel;

    open spec fn view(&self) -> OutcomeModel {
        OutcomeModel {
            fields: texts(self.fields@),
            rows: row_trees(self.rows@),
            statement_type: self.statement_type,
            counters: counter_values(self.counters@),
        }
    }
}

/// What a write turned out to be: reading counts only if rows came back, and a
/// write that neither changed nor returned anything is still a write.
pub open spec fn write_type(o: WriteOutcome) -> StatementType {
    let any_write = o.nodes_created > 0 || o.nodes_deleted > 0 || o.edges_created > 0
        || o.edges_deleted > 0 || o.properties_set > 0;
    if o.rows@.len() == 0 {
        StatementType::Write
    } else if any_write {
        StatementType::ReadWrite
    } else {
        StatementType::Read
    }
}

/// What a write turned out to be.
pub fn classify_write(o: &WriteOutcome) -> (r: StatementType)
    ensures
        r == write_type(*o),
{
    let any_read = o.rows.len() > 0;
    let any_write = o.nodes_created > 0 || o.nodes_deleted > 0 || o.edges_created > 0
        || o.edges_deleted > 0 || o.properties_set > 0;
    match (any_read, any_write) {
        (true, true) => StatementType::ReadWrite,
        (false, true) => StatementType::Write,
        (true, false) => StatementType::Read,
        (false, false) => StatementType::Write,
    }
}

/// The result of a write.
pub open spec fn write_model(o: WriteOutcome) -> OutcomeModel {
    OutcomeModel {
        fields: row_columns(o.rows@),
        rows: row_trees(o.rows@),
        statement_type: write_type(o),
        counters: seq![
            ("nodes-created"@, o.nodes_created as i64),
            ("nodes-deleted"@, o.nodes_deleted as i64),
            ("properties-set"@, o.properties_set as i64),
            ("relationships-created"@, o.edges_created as i64),
            ("relationships-deleted"@, o.edges_deleted as i64),
        ],
    }
}

/// The result of a write: its rows and the update counters.
pub fn write_run_outcome(o: WriteOutcome) -> (r: RunOutcome)
    ensures
        r@ == write_model(o),
{
    let statement_type = classify_write(&o);
    let fields = field_list(&o.rows);
    let counters: Vec<(String, i64)> = vec![
        ("nodes-created".to_owned(), o.nodes_created as i64),
        ("nodes-deleted".to_owned(), o.nodes_deleted as i64),
        ("properties-set".to_owned(), o.properties_set as i64),
        ("relationships-created".to_owned(), o.edges_created as i64),
        ("relationships-deleted".to_owned(), o.edges_deleted as i64),
    ];
    assert(counter_values(counters@) =~= write_model(o).counters);
    RunOutcome { fields, rows: o.rows, statement_type, counters }
}

/// The value of the first counter of that name.
pub open spec fn counter(counters: Seq<(Seq<char>, i64)>, name: Seq<char>) -> Option<i64>
    decreases counters.len(),
{
    if counters.len() == 0 {
        None
    } else if counters[0].0 == name {
        Some(counters[0].1)
    } else {
        counter(counters.skip(1), name)
    }
}

/// A counter is found under its name, unless one of the same name comes before it.
proof fn lemma_counter_at(counters: Seq<(Seq<char>, i64)>, i: int)
    requires
        0 <= i < counters.len(),
        forall|j: int| 0 <= j < i ==> (#[trigger] counters[j]).0 != counters[i].0,
    ensures
        counter(counters, counters[i].0) == Some(counters[i].1),
    decreases i,
{
    if i > 0 {
        let rest = counters.skip(1);
        assert(counters[0].0 != counters[i].0);
        assert(rest[i - 1] == counters[i]);
        assert forall|j: int| 0 <= j < i - 1 implies (#[trigger] rest[j]).0 != rest[i - 1].0 by {
            assert(rest[j] == counters[j + 1]);
        }
        lemma_counter_at(rest, i - 1);
    }
}

/// Every update counter of a write tells under its name how many there were of
/// what it names, nodes apart from relationships and what was created apart from
/// what was deleted, and there is no other counter.
pub proof fn law_write_counters(o: WriteOutcome)
    ensures
        ({
            let counters = write_model(o).counters;
            &&& counter(counters, "nodes-created"@) == Some(o.nodes_created as i64)
            &&& counter(counters, "nodes-deleted"@) == Some(o.nodes_deleted as i64)
            &&& counter(counters, "properties-set"@) == Some(o.properties_set as i64)
            &&& counter(counters, "relationships-created"@) == Some(o.edges_created as i64)
            &&& counter(counters, "relationships-deleted"@) == Some(o.edges_deleted as i64)
            &&& counters.len() == 5
        }),
{
    reveal_strlit("nodes-created");
    reveal_strlit("nodes-deleted");
    reveal_strlit("properties-set");
    reveal_strlit("relationships-created");
    reveal_strlit("relationships-deleted");
    assert("nodes-created"@[6] != "nodes-deleted"@[6]);
    assert("nodes-created"@.len() != "properties-set"@.len());
    assert("nodes-deleted"@.len() != "properties-set"@.len());
    assert("nodes-created"@.len() != "relationships-created"@.len());
    assert("nodes-deleted"@.len() != "relationships-created"@.len());
    assert("properties-set"@.len() != "relationships-created"@.len());
    assert("nodes-created"@.len() != "relationships-deleted"@.len());
    assert("nodes-deleted"@.len() != "relationships-deleted"@.len());
    assert("properties-set"@.len() != "relationships-deleted"@.len());
    assert("relationships-created"@[14] != "relationships-deleted"@[14]);
    let counters = write_model(o).counters;
    lemma_counter_at(counters, 0);
    lemma_counter_at(counters, 1);
    lemma_counter_at(counters, 2);
    lemma_counter_at(counters, 3);
    lemma_counter_at(counters, 4);
}

/// The counters that a Bolt client is told of a write and the counts that an HTTP
/// client is told of the same write agree.
pub proof fn law_counters_agree(o: WriteOutcome)
    ensures
        ({
            let counters = write_model(o).counters;
            let summary = WriteSummary::of(o).tree();
            let number = |key: Seq<char>| summary.field(key)->Some_0->Integer_0 as i64;
            &&& counter(counters, "nodes-created"@) == Some(number("nodes_created"@))
            &&& counter(counters, "nodes-deleted"@) == Some(number("nodes_deleted"@))
            &&& counter(counters, "properties-set"@) == Some(number("properties_set"@))
            &&& counter(counters, "relationships-created"@) == Some(number("edges_created"@))
            &&& counter(counters, "relationships-deleted"@) == Some(number("edges_deleted"@))
        }),
{
    law_write_counters(o);
    crate::reply::law_write_summary(o);
}

/// A write that returns no row is a write, whatever it did; one that returns rows
/// is a read if it changed nothing, and both if it changed anything.
pub proof fn law_write_is_classified(o: WriteOutcome)
    ensures
        ({
            let unchanged = o.nodes_created == 0 && o.nodes_deleted == 0 && o.edges_created == 0
                && o.edges_deleted == 0 && o.properties_set == 0;
            let t = write_model(o).statement_type;
            &&& t == StatementType::Write <==> o.rows@.len() == 0
            &&& t == StatementType::Read <==> o.rows@.len() > 0 && unchanged
            &&& t == StatementType::ReadWrite <==> o.rows@.len() > 0 && !unchanged
        }),
{
}

/// The result of a write shows as many rows as the write returned, each with the
/// names and values that it binds, under the names that the first one binds.
pub proof fn law_write_rows(o: WriteOutcome, i: int, j: int)
    requires
        0 <= i < o.rows@.len(),
        0 <= j < o.rows@[i].bindings@.len(),
    ensures
        ({
            let model = write_model(o);
            &&& model.rows.len() == o.rows@.len()
            &&& model.rows[i].len() == o.rows@[i].bindings@.len()
            &&& model.rows[i][j] == (o.rows@[i].bindings@[j].0@, o.rows@[i].bindings@[j].1@)
            &&& model.fields.len() == o.rows@[0].bindings@.len()
            &&& i == 0 ==> model.fields[j] == o.rows@[0].bindings@[j].0@
        }),
{
}

/// Bolt and HTTP agree on what a failed execution is: a deadline, a violated
/// constraint, a limit of the query and an expression that cannot be evaluated
/// have a class of their own in both, and what Bolt drivers are to try again, HTTP
/// clients are too.
pub proof fn law_failures_agree(e: ExecFailure)
    requires
        !e.unsupported,
    ensures
        ({
            let bolt = exec_failure(e).class;
            let http = exec_class(e.kind, false).0;
            let dotted = exec_taxonomy(e.kind, false).0;
            &&& bolt == ErrorClass::Timeout <==> http == 504
            &&& bolt == ErrorClass::Constraint <==> http == 409
            &&& bolt == ErrorClass::ResourceLimit <==> http == 413
            &&& http == 400 ==> bolt == ErrorClass::Eval
            &&& bolt == ErrorClass::Storage ==> dotted
                == "Neo.TransientError.General.DatabaseUnavailable"@
            &&& bolt != ErrorClass::Syntax && bolt != ErrorClass::Semantic && bolt
                != ErrorClass::Unsupported && bolt != ErrorClass::Forbidden && bolt
                != ErrorClass::Other
        }),
{
}

/// A failure tells its own cause: the words of the failure, of the message in it,
/// or of the limit that was met; and what is deliberately not there is told so
/// before anything else.
pub proof fn law_failures_name_their_cause(e: ExecFailure)
    ensures
        ({
            let told = exec_failure(e);
            &&& e.unsupported ==> told == failure(ErrorClass::Unsupported, e.text@)
            &&& !e.unsupported ==> told.class != ErrorClass::Unsupported
            &&& !e.unsupported && (e.kind is Constraint || e.kind is Eval) ==> told.message
                == e.detail@
            &&& !e.unsupported && e.kind is Runtime ==> told.message == "runtime: "@ + e.detail@
                && told.class == ErrorClass::Eval
            &&& !e.unsupported && (e.kind matches ExecKind::Storage { kind } && !(
            kind is Cancelled)) ==> told.message == "storage: "@ + e.detail@
            &&& !e.unsupported && (e.kind is Cancelled || e.kind == (ExecKind::Storage {
                kind: StorageKind::Cancelled,
            })) <==> told.class == ErrorClass::Cancelled
            &&& !e.unsupported ==> (e.kind matches ExecKind::RowCap { cap } ==> told.message
                == "query exceeded the configured row cap of "@ + decimal(cap as nat))
        }),
{
}

/// A statement that cannot be planned is the caller's: unsupported if the feature
/// is deliberately not there, and meaningless otherwise. A schema command that the
/// storage refuses is the caller's exactly if it asks for what is there already,
/// for what is not, or against a rule of the schema.
pub proof fn law_rejections_are_classified(l: LowerFailure, s: StorageFailure)
    ensures
        lower_failure(l).message == l.message@,
        l.unsupported ==> lower_failure(l).class == ErrorClass::Unsupported,
        !l.unsupported ==> lower_failure(l).class == ErrorClass::Semantic,
        schema_failure(s).message == s.text@,
        schema_failure(s).class == ErrorClass::Semantic <==> s.kind == StorageKind::Precondition
            || s.kind == StorageKind::Invariant,
        schema_failure(s).class != ErrorClass::Semantic ==> schema_failure(s).class
            == ErrorClass::Storage,
{
}

/// A result without counters.
pub open spec fn plain_model(
    fields: Seq<Seq<char>>,
    rows: Seq<Seq<(Seq<char>, ValueTree)>>,
    statement_type: StatementType,
) -> OutcomeModel {
    OutcomeModel { fields, rows, statement_type, counters: Seq::empty() }
}

/// A result without counters.
fn plain(fields: Vec<String>, rows: Vec<Row>, statement_type: StatementType) -> (r: RunOutcome)
    ensures
        r@ == plain_model(texts(fields@), row_trees(rows@), statement_type),
{
    let counters: Vec<(String, i64)> = Vec::new();
    assert(counter_values(counters@) =~= Seq::<(Seq<char>, i64)>::empty());
    RunOutcome { fields, rows, statement_type, counters }
}

/// The result of a read.
pub fn read_run_outcome(rows: Vec<Row>) -> (r: RunOutcome)
    ensures
        r@ == plain_model(row_columns(rows@), row_trees(rows@), StatementType::Read),
{
    let fields = field_list(&rows);
    plain(fields, rows, StatementType::Read)
}

/// The result of a look at the schema, whose columns are there even without a
/// row.
pub fn show_run_outcome(columns: Vec<String>, rows: Vec<Row>) -> (r: RunOutcome)
    ensures
        r@ == plain_model(texts(columns@), row_trees(rows@), StatementType::Read),
{
    plain(columns, rows, StatementType::Read)
}

/// The result of a schema command.
pub fn schema_run_outcome() -> (r: RunOutcome)
    ensures
        r@ == plain_model(Seq::empty(), Seq::empty(), StatementType::Schema),
{
    let fields: Vec<String> = Vec::new();
    let rows: Vec<Row> = Vec::new();
    assert(texts(fields@) =~= Seq::<Seq<char>>::empty());
    assert(row_trees(rows@) =~= Seq::<Seq<(Seq<char>, ValueTree)>>::empty());
    plain(fields, rows, StatementType::Schema)
}

/// The rows of an explained plan: one line each.
pub open spec fn line_rows(lines: Seq<Seq<char>>) -> Seq<Seq<(Seq<char>, ValueTree)>> {
    lines.map_values(|l: Seq<char>| seq![("plan"@, ValueTree::Text(l))])
}

/// The result of an explained plan.
pub fn explain_run_outcome(lines: &Vec<String>) -> (r: RunOutcome)
    ensures
        r@ == plain_model(seq!["plan"@], line_rows(texts(lines@)), StatementType::Read),
{
    let mut rows: Vec<Row> = Vec::new();
    let mut i: usize = 0;
    while i < lines.len()
        invariant
            i <= lines@.len(),
            rows@.len() == i,
            forall|j: int|
                0 <= j < i ==> entry_trees((#[trigger] rows@[j]).bindings@) == seq![
                    ("plan"@, ValueTree::Text(lines@[j]@)),
                ],
        decreases lines.len() - i,
    {
        let bindings: Vec<(String, RuntimeValue)> = vec![
            ("plan".to_owned(), RuntimeValue::Text(lines[i].clone())),
        ];
        assert(entry_trees(bindings@) =~= seq![("plan"@, ValueTree::Text(lines@[i as int]@))]);
        rows.push(Row { bindings });
        i = i + 1;
    }
    let fields: Vec<String> = vec!["plan".to_owned()];
    assert(texts(fields@) =~= seq!["plan"@]);
    assert(row_trees(rows@) =~= line_rows(texts(lines@)));
    plain(fields, rows, StatementType::Read)
}

} // verus!
