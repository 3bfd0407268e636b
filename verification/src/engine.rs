//! What the query engine and the storage report back, as far as the answers
//! depend on it.

use vstd::prelude::*;

use crate::authz::Denied;
use crate::values::Row;

verus! {

/// The kinds of storage failure that are answered differently.
#[derive(Debug, Clone, Copy, PartialEq, Eq, Structural)]
pub enum StorageKind {
    /// The command asks for what is already there, or for what is not.
    Precondition,
    /// The command would break a rule of the schema.
    Invariant,
    /// No room in the search-index cache.
    CacheCapacity,
    /// No room for the search of a query.
    WorkspaceExceeded,
    /// A search found more than it may return.
    ResultLimit,
    /// A search would visit more documents than it may.
    DocumentLimit,
    /// An administrator stopped the query.
    Cancelled,
    Other,
}

impl StorageKind {
    /// Whether the statement itself is at fault.
    pub open spec fn is_user(self) -> bool {
        self is Precondition || self is Invariant
    }
}

/// A storage failure.
#[derive(Debug)]
pub struct StorageFailure {
    pub kind: StorageKind,
    /// The failure in words.
    pub text: String,
    /// The disk below the flush is full or cannot be written.
    pub local_persistence: bool,
}

impl StorageFailure {
    /// Whether the statement itself is at fault.
    pub fn is_user(&self) -> (r: bool)
        ensures
            r == self.kind.is_user(),
    {
        match self.kind {
            StorageKind::Precondition => true,
            StorageKind::Invariant => true,
            _ => false,
        }
    }
}

/// The kinds of executor failure that are answered differently.
#[derive(Debug, Clone, Copy, PartialEq, Eq, Structural)]
pub enum ExecKind {
    /// The query ran past its deadline.
    Timeout,
    /// An administrator stopped the query.
    Cancelled,
    /// An operator produced more rows than the cap.
    RowCap { cap: u64 },
    /// A constraint was violated.
    Constraint,
    Storage { kind: StorageKind },
    /// An expression could not be evaluated.
    Eval,
    Runtime,
}

/// An executor failure.
#[derive(Debug)]
pub struct ExecFailure {
    pub kind: ExecKind,
    /// The feature is deliberately not there.
    pub unsupported: bool,
    /// The failure in words.
    pub text: String,
    /// The message or the cause inside it, in words.
    pub detail: String,
}

/// A statement that could not be planned.
#[derive(Debug)]
pub struct LowerFailure {
    /// The feature is deliberately not there.
    pub unsupported: bool,
    /// The failure in words.
    pub text: String,
    /// The message inside it.
    pub message: String,
}

/// What a write did, and the rows it returned.
pub struct WriteOutcome {
    pub rows: Vec<Row>,
    pub nodes_created: u64,
    pub edges_created: u64,
    pub nodes_deleted: u64,
    pub edges_deleted: u64,
    pub properties_set: u64,
}

/// What came back from outside on the way to a verdict.
pub enum Payload {
    Nothing,
    /// The first parse error and where it is.
    ParseFailure { message: String, span: String },
    /// Why the parameters cannot be bound.
    Params(String),
    /// The policy's refusal.
    Denial(Denied),
    /// Why local persistence is degraded.
    Intake(String),
    Plan(LowerFailure),
    Storage(StorageFailure),
    Exec(ExecFailure),
    Rows(Vec<Row>),
    Shown { columns: Vec<String>, rows: Vec<Row> },
    Lines(Vec<String>),
    Outcome(WriteOutcome),
}

} // verus!
