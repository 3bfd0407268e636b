//! Schema commands: the order in which a `CREATE` or `DROP` of an index or a
//! constraint is gated, applied and answered.
//!
//! A command never reaches the writer before the caller's role, the policy and
//! the state of local persistence have let it through, and the writer is never
//! kept past the answer.

use vstd::prelude::*;

verus! {

/// Which schema command a statement is.
#[derive(Debug, Clone, Copy, PartialEq, Eq, Structural)]
pub enum SchemaKind {
    CreateVectorIndex,
    CreateFulltextIndex,
    DropVectorIndex,
    DropFulltextIndex,
    CreateConstraint,
    CreateIndex,
}

impl SchemaKind {
    /// Whether a success leaves posting sidecars to materialize, so that a
    /// compaction pass is requested at once.
    pub open spec fn wants_compaction(self) -> bool {
        self is CreateConstraint || self is CreateIndex
    }
}

/// How a schema command ended.
#[derive(Debug, Clone, Copy, PartialEq, Eq, Structural)]
pub enum SchemaVerdict {
    /// The caller may not write.
    ReadOnly,
    /// The policy said no.
    Denied,
    /// Local persistence is degraded; no write is taken in.
    Degraded,
    /// The writer was not free within the bound.
    Busy,
    /// The namespace was evicted while waiting for its writer.
    Retired,
    /// The command was committed.
    Applied,
    /// The command failed; `user_error` when the statement itself is at fault.
    Failed { user_error: bool },
}

/// Where a schema command stands: each phase waits for one answer.
#[derive(Debug, Clone, Copy, PartialEq, Eq, Structural)]
pub enum SchemaPhase {
    /// The policy is asked about the command.
    Policy,
    /// The state of local persistence is read.
    Intake,
    /// The writer lock is waited for.
    Lock,
    /// The command is applied under the writer lock.
    Apply,
    /// The writer is reopened, if it is broken, under the writer lock.
    Recover { user_error: bool },
    /// The writer lock is given back.
    Release { verdict: SchemaVerdict },
    /// A compaction pass is requested.
    Compact,
    /// The command is answered.
    Done { verdict: SchemaVerdict },
}

/// An answer to what a phase waits for.
#[derive(Debug, Clone, Copy, PartialEq, Eq, Structural)]
pub enum SchemaEvent {
    Allowed,
    Denied,
    IntakeOpen,
    IntakeDegraded,
    /// The lock is held; `retired` when the namespace was evicted meanwhile.
    Locked { retired: bool },
    LockTimedOut,
    Applied,
    /// The storage refused; `retired` when the namespace has been evicted.
    ApplyFailed { user_error: bool, retired: bool },
    Recovered,
    Released,
    Requested,
}

/// One schema command on its way through the gates.
#[derive(Debug, Clone, Copy, PartialEq, Eq, Structural)]
pub struct SchemaRun {
    pub kind: SchemaKind,
    /// The writer is waited for within the foreground bound only.
    pub bounded: bool,
    pub phase: SchemaPhase,
}

impl SchemaRun {
    /// The run of a command that was just parsed.
    pub open spec fn started(kind: SchemaKind, allows_write: bool, bounded: bool) -> SchemaRun {
        SchemaRun {
            kind,
            bounded,
            phase: if allows_write {
                SchemaPhase::Policy
            } else {
                SchemaPhase::Done { verdict: SchemaVerdict::ReadOnly }
            },
        }
    }

    /// The phase after an answer. An answer to something else changes nothing.
    pub open spec fn after(self, event: SchemaEvent) -> SchemaRun {
        let phase = match (self.phase, event) {
            (SchemaPhase::Policy, SchemaEvent::Allowed) => SchemaPhase::Intake,
            (SchemaPhase::Policy, SchemaEvent::Denied) => SchemaPhase::Done {
                verdict: SchemaVerdict::Denied,
            },
            (SchemaPhase::Intake, SchemaEvent::IntakeOpen) => SchemaPhase::Lock,
            (SchemaPhase::Intake, SchemaEvent::IntakeDegraded) => SchemaPhase::Done {
                verdict: SchemaVerdict::Degraded,
            },
            (SchemaPhase::Lock, SchemaEvent::LockTimedOut) => if self.bounded {
                SchemaPhase::Done { verdict: SchemaVerdict::Busy }
            } else {
                SchemaPhase::Lock
            },
            (SchemaPhase::Lock, SchemaEvent::Locked { retired }) => if retired {
                SchemaPhase::Release { verdict: SchemaVerdict::Retired }
            } else {
                SchemaPhase::Apply
            },
            (SchemaPhase::Apply, SchemaEvent::Applied) => SchemaPhase::Release {
                verdict: SchemaVerdict::Applied,
            },
            (SchemaPhase::Apply, SchemaEvent::ApplyFailed { user_error, retired }) => if retired {
                SchemaPhase::Release { verdict: SchemaVerdict::Failed { user_error } }
            } else {
                SchemaPhase::Recover { user_error }
            },
            (SchemaPhase::Recover { user_error }, SchemaEvent::Recovered) => SchemaPhase::Release {
                verdict: SchemaVerdict::Failed { user_error },
            },
            (SchemaPhase::Release { verdict }, SchemaEvent::Released) => if verdict is Applied
                && self.kind.wants_compaction() {
                SchemaPhase::Compact
            } else {
                SchemaPhase::Done { verdict }
            },
            (SchemaPhase::Compact, SchemaEvent::Requested) => SchemaPhase::Done {
                verdict: SchemaVerdict::Applied,
            },
            (phase, _) => phase,
        };
        SchemaRun { kind: self.kind, bounded: self.bounded, phase }
    }

    /// Whether the writer lock is held in this phase.
    pub open spec fn holds_writer(self) -> bool {
        self.phase is Apply || self.phase is Recover || self.phase is Release
    }

    /// Whether the run is over.
    pub open spec fn done(self) -> bool {
        self.phase is Done
    }

    /// The run of a command that was just parsed.
    pub fn start(kind: SchemaKind, allows_write: bool, bounded: bool) -> (run: SchemaRun)
        ensures
            run == SchemaRun::started(kind, allows_write, bounded),
    {
        if allows_write {
            SchemaRun { kind, bounded, phase: SchemaPhase::Policy }
        } else {
            SchemaRun {
                kind,
                bounded,
                phase: SchemaPhase::Done { verdict: SchemaVerdict::ReadOnly },
            }
        }
    }

    /// Takes one answer in.
    pub fn advance(self, event: SchemaEvent) -> (next: SchemaRun)
        ensures
            next == self.after(event),
    {
        let phase = match (self.phase, event) {
            (SchemaPhase::Policy, SchemaEvent::Allowed) => SchemaPhase::Intake,
            (SchemaPhase::Policy, SchemaEvent::Denied) => SchemaPhase::Done {
                verdict: SchemaVerdict::Denied,
            },
            (SchemaPhase::Intake, SchemaEvent::IntakeOpen) => SchemaPhase::Lock,
            (SchemaPhase::Intake, SchemaEvent::IntakeDegraded) => SchemaPhase::Done {
                verdict: SchemaVerdict::Degraded,
            },
            (SchemaPhase::Lock, SchemaEvent::LockTimedOut) => {
                if self.bounded {
                    SchemaPhase::Done { verdict: SchemaVerdict::Busy }
                } else {
                    SchemaPhase::Lock
                }
            },
            (SchemaPhase::Lock, SchemaEvent::Locked { retired }) => {
                if retired {
                    SchemaPhase::Release { verdict: SchemaVerdict::Retired }
                } else {
                    SchemaPhase::Apply
                }
            },
            (SchemaPhase::Apply, SchemaEvent::Applied) => SchemaPhase::Release {
                verdict: SchemaVerdict::Applied,
            },
            (SchemaPhase::Apply, SchemaEvent::ApplyFailed { user_error, retired }) => {
                if retired {
                    SchemaPhase::Release { verdict: SchemaVerdict::Failed { user_error } }
                } else {
                    SchemaPhase::Recover { user_error }
                }
            },
            (SchemaPhase::Recover { user_error }, SchemaEvent::Recovered) => SchemaPhase::Release {
                verdict: SchemaVerdict::Failed { user_error },
            },
            (SchemaPhase::Release { verdict }, SchemaEvent::Released) => {
                match (verdict, self.kind) {
                    (SchemaVerdict::Applied, SchemaKind::CreateConstraint) => SchemaPhase::Compact,
                    (SchemaVerdict::Applied, SchemaKind::CreateIndex) => SchemaPhase::Compact,
                    _ => SchemaPhase::Done { verdict },
                }
            },
            (SchemaPhase::Compact, SchemaEvent::Requested) => SchemaPhase::Done {
                verdict: SchemaVerdict::Applied,
            },
            (phase, _) => phase,
        };
        SchemaRun { kind: self.kind, bounded: self.bounded, phase }
    }
}

/// The run after a whole series of answers.
pub open spec fn schema_trace(run: SchemaRun, events: Seq<SchemaEvent>) -> SchemaRun
    decreases events.len(),
{
    if events.len() == 0 {
        run
    } else {
        schema_trace(run, events.drop_last()).after(events.last())
    }
}

/// What is true of every run of a command, whatever answers came: the writer is
/// reached only by a caller who may write, after the policy allowed the command
/// and local persistence was found in order, and only a bounded wait for it ends
/// as busy.
pub proof fn law_schema_gates(
    kind: SchemaKind,
    allows_write: bool,
    bounded: bool,
    events: Seq<SchemaEvent>,
)
    ensures
        ({
            let run = schema_trace(SchemaRun::started(kind, allows_write, bounded), events);
            &&& run.kind == kind
            &&& run.bounded == bounded
            &&& run.phase == (SchemaPhase::Done { verdict: SchemaVerdict::Busy }) ==> bounded
            &&& run.phase matches SchemaPhase::Release { verdict } ==> !(verdict is Busy)
            &&& run.holds_writer() || run.phase is Compact ==> {
                &&& allows_write
                &&& events.contains(SchemaEvent::Allowed)
                &&& events.contains(SchemaEvent::IntakeOpen)
            }
            &&& run.phase is Lock ==> {
                &&& allows_write
                &&& events.contains(SchemaEvent::Allowed)
                &&& events.contains(SchemaEvent::IntakeOpen)
            }
            &&& run.phase is Intake ==> allows_write && events.contains(SchemaEvent::Allowed)
            &&& run.phase is Policy ==> allows_write
            &&& run.phase == (SchemaPhase::Done { verdict: SchemaVerdict::Applied })
                || run.phase == (SchemaPhase::Release { verdict: SchemaVerdict::Applied })
                || run.phase is Compact ==> {
                &&& allows_write
                &&& events.contains(SchemaEvent::Allowed)
                &&& events.contains(SchemaEvent::Applied)
            }
        }),
    decreases events.len(),
{
    if events.len() > 0 {
        let before = events.drop_last();
        law_schema_gates(kind, allows_write, bounded, before);
        assert forall|e: SchemaEvent| before.contains(e) implies events.contains(e) by {
            let i = choose|i: int| 0 <= i < before.len() && before[i] == e;
            assert(events[i] == e);
        }
        assert(events.contains(events.last())) by {
            assert(events[events.len() - 1] == events.last());
        }
    }
}

/// Once a command is answered no answer changes it, and the lock is given back
/// by the release alone.
pub proof fn law_schema_release(run: SchemaRun, event: SchemaEvent)
    ensures
        run.done() ==> run.after(event) == run,
        run.holds_writer() && !run.after(event).holds_writer() ==> run.phase is Release
            && event is Released,
        !run.holds_writer() && run.after(event).holds_writer() ==> run.phase is Lock
            && event is Locked,
{
}

/// A compaction is requested for a property index or a constraint that was
/// committed, and for nothing else.
pub proof fn law_schema_compaction(run: SchemaRun, event: SchemaEvent)
    ensures
        run.after(event).phase is Compact && !(run.phase is Compact) ==> {
            &&& run.kind.wants_compaction()
            &&& run.phase == (SchemaPhase::Release { verdict: SchemaVerdict::Applied })
        },
{
}

/// The answers that a command took in: those that it waited for when they came.
pub open spec fn schema_heard(run: SchemaRun, events: Seq<SchemaEvent>) -> Seq<SchemaEvent>
    decreases events.len(),
{
    if events.len() == 0 {
        Seq::empty()
    } else {
        let before = events.drop_last();
        let now = schema_trace(run, before);
        if now.after(events.last()) == now {
            schema_heard(run, before)
        } else {
            schema_heard(run, before).push(events.last())
        }
    }
}

/// What a command has been answered by the time it applies.
pub open spec fn schema_let_through() -> Seq<SchemaEvent> {
    seq![SchemaEvent::Allowed, SchemaEvent::IntakeOpen, SchemaEvent::Locked { retired: false }]
}

/// What a command has been answered by the time it gives the writer back: the
/// namespace was gone, it was applied, or it failed and the writer was looked
/// after unless the namespace was gone.
pub open spec fn schema_settled(verdict: SchemaVerdict, heard: Seq<SchemaEvent>) -> bool {
    match verdict {
        SchemaVerdict::Retired => heard =~= seq![
            SchemaEvent::Allowed,
            SchemaEvent::IntakeOpen,
            SchemaEvent::Locked { retired: true },
        ],
        SchemaVerdict::Applied => heard =~= schema_let_through().push(SchemaEvent::Applied),
        SchemaVerdict::Failed { user_error } => {
            ||| heard =~= schema_let_through().push(
                SchemaEvent::ApplyFailed { user_error, retired: true },
            )
            ||| heard =~= schema_let_through().push(
                SchemaEvent::ApplyFailed { user_error, retired: false },
            ).push(SchemaEvent::Recovered)
        },
        _ => false,
    }
}

/// What a command has been answered, one after the other, where it stands.
pub open spec fn schema_story(
    run: SchemaRun,
    allows_write: bool,
    heard: Seq<SchemaEvent>,
) -> bool {
    let materializes = run.kind is CreateConstraint || run.kind is CreateIndex;
    match run.phase {
        SchemaPhase::Policy => allows_write && heard.len() == 0,
        SchemaPhase::Intake => allows_write && heard =~= seq![SchemaEvent::Allowed],
        SchemaPhase::Lock => allows_write && heard =~= seq![
            SchemaEvent::Allowed,
            SchemaEvent::IntakeOpen,
        ],
        SchemaPhase::Apply => allows_write && heard =~= schema_let_through(),
        SchemaPhase::Recover { user_error } => allows_write && heard
            =~= schema_let_through().push(SchemaEvent::ApplyFailed { user_error, retired: false }),
        SchemaPhase::Release { verdict } => allows_write && schema_settled(verdict, heard),
        SchemaPhase::Compact => allows_write && materializes && heard
            =~= schema_let_through().push(SchemaEvent::Applied).push(SchemaEvent::Released),
        SchemaPhase::Done { verdict } => match verdict {
            SchemaVerdict::ReadOnly => !allows_write && heard.len() == 0,
            SchemaVerdict::Denied => allows_write && heard =~= seq![SchemaEvent::Denied],
            SchemaVerdict::Degraded => allows_write && heard =~= seq![
                SchemaEvent::Allowed,
                SchemaEvent::IntakeDegraded,
            ],
            SchemaVerdict::Busy => allows_write && run.bounded && heard =~= seq![
                SchemaEvent::Allowed,
                SchemaEvent::IntakeOpen,
                SchemaEvent::LockTimedOut,
            ],
            SchemaVerdict::Applied if materializes => allows_write && heard
                =~= schema_let_through().push(SchemaEvent::Applied).push(
                SchemaEvent::Released,
            ).push(SchemaEvent::Requested),
            _ => {
                &&& allows_write
                &&& heard.len() > 0
                &&& heard.last() == SchemaEvent::Released
                &&& schema_settled(verdict, heard.drop_last())
            },
        },
    }
}

/// Over every series of answers, what a command has been answered tells exactly
/// how far it came: it is applied only after the policy, the intake and the
/// writer let it through, each once and in that order; it is reported applied
/// only after it was, with the writer given back and, for a constraint or a
/// property index, a compaction requested; and every refusal and every failure
/// is reported as the one that was answered.
pub proof fn law_schema_story(
    kind: SchemaKind,
    allows_write: bool,
    bounded: bool,
    events: Seq<SchemaEvent>,
)
    ensures
        ({
            let first = SchemaRun::started(kind, allows_write, bounded);
            let run = schema_trace(first, events);
            &&& run.kind == kind
            &&& run.bounded == bounded
            &&& schema_story(run, allows_write, schema_heard(first, events))
        }),
    decreases events.len(),
{
    if events.len() > 0 {
        let before = events.drop_last();
        law_schema_story(kind, allows_write, bounded, before);
        let first = SchemaRun::started(kind, allows_write, bounded);
        let heard = schema_heard(first, before);
        assert(heard.push(events.last()).drop_last() =~= heard);
    }
}

/// A command listens to the answers to what it asked, to all of them, and to
/// nothing else: no answer that it waits for is lost.
pub proof fn law_schema_listens(run: SchemaRun, event: SchemaEvent)
    ensures
        run.after(event) != run <==> match run.phase {
            SchemaPhase::Policy => event is Allowed || event is Denied,
            SchemaPhase::Intake => event is IntakeOpen || event is IntakeDegraded,
            SchemaPhase::Lock => event is Locked || (run.bounded && event is LockTimedOut),
            SchemaPhase::Apply => event is Applied || event is ApplyFailed,
            SchemaPhase::Recover { .. } => event is Recovered,
            SchemaPhase::Release { .. } => event is Released,
            SchemaPhase::Compact => event is Requested,
            SchemaPhase::Done { .. } => false,
        },
{
}

impl SchemaRun {
    /// How much of the way is still ahead.
    pub open spec fn ahead(self) -> nat {
        match self.phase {
            SchemaPhase::Policy => 7,
            SchemaPhase::Intake => 6,
            SchemaPhase::Lock => 5,
            SchemaPhase::Apply => 4,
            SchemaPhase::Recover { .. } => 3,
            SchemaPhase::Release { .. } => 2,
            SchemaPhase::Compact => 1,
            SchemaPhase::Done { .. } => 0,
        }
    }
}

/// A command never goes back: an answer that it waits for brings it nearer to its
/// end, and every other answer leaves it where it is.
pub proof fn law_schema_progress(run: SchemaRun, event: SchemaEvent)
    ensures
        run.after(event) == run || run.after(event).ahead() < run.ahead(),
{
}

/// The writer of a retired namespace is given back unused, and is not reopened
/// after a failure either: its successor owns the namespace.
pub proof fn law_schema_leaves_retired_alone(run: SchemaRun, user_error: bool)
    ensures
        run.phase is Lock ==> run.after(SchemaEvent::Locked { retired: true }).phase == (
        SchemaPhase::Release { verdict: SchemaVerdict::Retired }),
        run.phase is Apply ==> run.after(
            SchemaEvent::ApplyFailed { user_error, retired: true },
        ).phase == (SchemaPhase::Release { verdict: SchemaVerdict::Failed { user_error } }),
{
}

// ---------------------------------------------------------------------------
// Index descriptors
// ---------------------------------------------------------------------------

/// How vectors are compared.
#[derive(Debug, Clone, Copy, PartialEq, Eq, Structural)]
pub enum VectorMetric {
    Cosine,
    Dot,
    Euclidean,
}

/// How vectors are stored.
#[derive(Debug, Clone, Copy, PartialEq, Eq, Structural)]
pub enum VectorQuantization {
    Unquantized,
    Int8,
}

/// A parsed `CREATE VECTOR INDEX`. The pruning factor stays with the engine.
pub struct VectorIndexClause {
    pub name: String,
    pub label: String,
    pub property: String,
    pub dim: u32,
    pub metric: VectorMetric,
    pub quantization: VectorQuantization,
    /// The degree of the graph, if given.
    pub r: Option<u32>,
    /// The width of the search that builds the graph, if given.
    pub l_build: Option<u32>,
}

/// What is registered for a vector index.
pub struct VectorIndexDescriptor {
    pub name: String,
    pub label: String,
    pub property: String,
    pub dim: u32,
    pub metric: VectorMetric,
    pub quantization: VectorQuantization,
    pub r: u32,
    pub l_build: u32,
}

/// The degree of a graph that is not given one.
pub const DEFAULT_DEGREE: u32 = 64;

/// The build width of a graph that is not given one.
pub const DEFAULT_BUILD_WIDTH: u32 = 128;

/// What is registered for a vector index: as the command says, with the build
/// defaults where it says nothing.
pub fn vector_index_descriptor_from(clause: VectorIndexClause) -> (d: VectorIndexDescriptor)
    ensures
        d.name == clause.name,
        d.label == clause.label,
        d.property == clause.property,
        d.dim == clause.dim,
        d.metric == clause.metric,
        d.quantization == clause.quantization,
        d.r == match clause.r {
            Some(r) => r,
            None => DEFAULT_DEGREE,
        },
        d.l_build == match clause.l_build {
            Some(l) => l,
            None => DEFAULT_BUILD_WIDTH,
        },
{
    VectorIndexDescriptor {
        name: clause.name,
        label: clause.label,
        property: clause.property,
        dim: clause.dim,
        metric: clause.metric,
        quantization: clause.quantization,
        r: match clause.r {
            Some(r) => r,
            None => DEFAULT_DEGREE,
        },
        l_build: match clause.l_build {
            Some(l) => l,
            None => DEFAULT_BUILD_WIDTH,
        },
    }
}

} // verus!
