//! One HTTP Cypher request, from the parsed text to its verdict.
//!
//! The shell performs what a phase waits for (parse, plan, ask the policy, wait
//! for the writer, execute) and hands the answer back; the order of the gates
//! and what each answer leads to are decided here, for a server of one namespace
//! and for a server of many alike.

use std::time::Duration;
use vstd::prelude::*;

use crate::metrics::{InFlightGuard, Metrics, Protocol, QueryKind, SlowQuery};
use crate::schema::{
    schema_trace, SchemaEvent, SchemaKind, SchemaPhase, SchemaRun, SchemaVerdict,
};
use crate::span::nanos;

verus! {

/// What a parsed text asks for.
#[derive(Debug, Clone, Copy, PartialEq, Eq, Structural)]
pub enum Statement {
    /// A schema command.
    Schema { kind: SchemaKind },
    /// `SHOW CONSTRAINTS` or `SHOW INDEXES`.
    Show,
    /// A query, or with `explain` the rendering of its plan.
    Query { explain: bool },
}

/// What the gates need to know of a plan.
#[derive(Debug, Clone, Copy, PartialEq, Eq, Structural)]
pub struct PlanFacts {
    /// The plan writes.
    pub writes: bool,
    /// The plan scans a whole label somewhere.
    pub scans: bool,
}

impl PlanFacts {
    /// The kind that a query with this plan is counted under.
    pub open spec fn kind_spec(self) -> QueryKind {
        if self.writes {
            QueryKind::Write
        } else {
            QueryKind::Read
        }
    }

    /// The kind that a query with this plan is counted under.
    pub fn kind(self) -> (r: QueryKind)
        ensures
            r == self.kind_spec(),
    {
        if self.writes {
            QueryKind::Write
        } else {
            QueryKind::Read
        }
    }
}

/// How a request ended.
#[derive(Debug, Clone, Copy, PartialEq, Eq, Structural)]
pub enum HttpVerdict {
    ParseError,
    BadParams,
    Schema { verdict: SchemaVerdict },
    Shown,
    PlanError,
    Denied,
    Explained,
    WriteReadOnly,
    WriteDegraded,
    Busy,
    Retired,
    Written,
    WriteFailed,
    Read,
    ReadFailed,
}

/// Where a request stands: each phase waits for one answer.
#[derive(Debug, Clone, Copy, PartialEq, Eq, Structural)]
pub enum HttpPhase {
    Parse,
    Bind { statement: Statement },
    Schema { run: SchemaRun },
    Show,
    Plan { explain: bool },
    Policy { explain: bool, facts: PlanFacts },
    Explain,
    /// The state of local persistence is read.
    Intake,
    /// The writer lock is waited for, within the foreground bound.
    Lock,
    /// The write is executed and committed under the writer lock.
    Write,
    /// The committed state is published and the backpressure sampled.
    Publish,
    /// The writer is reopened, if it is broken, under the writer lock.
    Recover,
    /// The writer lock is given back.
    Release { verdict: HttpVerdict, stall: bool },
    /// The backpressure delay is slept out, without the lock.
    Stall,
    /// A permit of the scan gate is waited for.
    ScanPermit,
    Read,
    Done { verdict: HttpVerdict },
}

/// An answer to what a phase waits for.
#[derive(Debug, Clone, Copy, PartialEq, Eq, Structural)]
pub enum HttpEvent {
    Parsed { statement: Statement },
    ParseFailed,
    ParamsBound,
    ParamsRejected,
    Schema { event: SchemaEvent },
    Shown,
    Planned { facts: PlanFacts },
    PlanFailed,
    Allowed,
    Denied,
    Explained,
    IntakeOpen,
    IntakeDegraded,
    Locked { retired: bool },
    LockTimedOut,
    Written,
    WriteFailed { retired: bool },
    Published { stall: bool },
    Recovered,
    Released,
    Stalled,
    PermitHeld,
    Read,
    ReadFailed,
}

/// One request on its way through the gates.
#[derive(Debug, Clone, Copy, PartialEq, Eq, Structural)]
pub struct HttpRun {
    /// The caller may write.
    pub allows_write: bool,
    /// Full scans are metered.
    pub scan_gate: bool,
    pub phase: HttpPhase,
}

/// The phase of a schema command, or its verdict once it has one.
pub open spec fn http_schema_phase(run: SchemaRun) -> HttpPhase {
    match run.phase {
        SchemaPhase::Done { verdict } => HttpPhase::Done { verdict: HttpVerdict::Schema { verdict } },
        _ => HttpPhase::Schema { run },
    }
}

/// The phase of a schema command, or its verdict once it has one.
fn schema_phase(run: SchemaRun) -> (phase: HttpPhase)
    ensures
        phase == http_schema_phase(run),
{
    match run.phase {
        SchemaPhase::Done { verdict } => HttpPhase::Done { verdict: HttpVerdict::Schema { verdict } },
        _ => HttpPhase::Schema { run },
    }
}

impl HttpRun {
    /// A request whose text is about to be parsed.
    pub open spec fn started(allows_write: bool, scan_gate: bool) -> HttpRun {
        HttpRun { allows_write, scan_gate, phase: HttpPhase::Parse }
    }

    /// Where an allowed plan goes: rendered, written or read.
    pub open spec fn allowed_phase(self, explain: bool, facts: PlanFacts) -> HttpPhase {
        if explain {
            HttpPhase::Explain
        } else if facts.writes {
            if self.allows_write {
                HttpPhase::Intake
            } else {
                HttpPhase::Done { verdict: HttpVerdict::WriteReadOnly }
            }
        } else if facts.scans && self.scan_gate {
            HttpPhase::ScanPermit
        } else {
            HttpPhase::Read
        }
    }

    /// The phase after an answer. An answer to something else changes nothing.
    pub open spec fn after(self, event: HttpEvent) -> HttpRun {
        let phase = match (self.phase, event) {
            (HttpPhase::Parse, HttpEvent::ParseFailed) => HttpPhase::Done {
                verdict: HttpVerdict::ParseError,
            },
            (HttpPhase::Parse, HttpEvent::Parsed { statement }) => HttpPhase::Bind { statement },
            (HttpPhase::Bind { .. }, HttpEvent::ParamsRejected) => HttpPhase::Done {
                verdict: HttpVerdict::BadParams,
            },
            (HttpPhase::Bind { statement }, HttpEvent::ParamsBound) => match statement {
                Statement::Schema { kind } => http_schema_phase(
                    SchemaRun::started(kind, self.allows_write, false),
                ),
                Statement::Show => HttpPhase::Show,
                Statement::Query { explain } => HttpPhase::Plan { explain },
            },
            (HttpPhase::Schema { run }, HttpEvent::Schema { event }) => http_schema_phase(
                run.after(event),
            ),
            (HttpPhase::Show, HttpEvent::Shown) => HttpPhase::Done { verdict: HttpVerdict::Shown },
            (HttpPhase::Plan { .. }, HttpEvent::PlanFailed) => HttpPhase::Done {
                verdict: HttpVerdict::PlanError,
            },
            (HttpPhase::Plan { explain }, HttpEvent::Planned { facts }) => HttpPhase::Policy {
                explain,
                facts,
            },
            (HttpPhase::Policy { .. }, HttpEvent::Denied) => HttpPhase::Done {
                verdict: HttpVerdict::Denied,
            },
            (HttpPhase::Policy { explain, facts }, HttpEvent::Allowed) => self.allowed_phase(
                explain,
                facts,
            ),
            (HttpPhase::Explain, HttpEvent::Explained) => HttpPhase::Done {
                verdict: HttpVerdict::Explained,
            },
            (HttpPhase::Intake, HttpEvent::IntakeOpen) => HttpPhase::Lock,
            (HttpPhase::Intake, HttpEvent::IntakeDegraded) => HttpPhase::Done {
                verdict: HttpVerdict::WriteDegraded,
            },
            (HttpPhase::Lock, HttpEvent::LockTimedOut) => HttpPhase::Done {
                verdict: HttpVerdict::Busy,
            },
            (HttpPhase::Lock, HttpEvent::Locked { retired }) => if retired {
                HttpPhase::Release { verdict: HttpVerdict::Retired, stall: false }
            } else {
                HttpPhase::Write
            },
            (HttpPhase::Write, HttpEvent::Written) => HttpPhase::Publish,
            (HttpPhase::Write, HttpEvent::WriteFailed { retired }) => if retired {
                HttpPhase::Release { verdict: HttpVerdict::WriteFailed, stall: false }
            } else {
                HttpPhase::Recover
            },
            (HttpPhase::Publish, HttpEvent::Published { stall }) => HttpPhase::Release {
                verdict: HttpVerdict::Written,
                stall,
            },
            (HttpPhase::Recover, HttpEvent::Recovered) => HttpPhase::Release {
                verdict: HttpVerdict::WriteFailed,
                stall: false,
            },
            (HttpPhase::Release { verdict, stall }, HttpEvent::Released) => if stall {
                HttpPhase::Stall
            } else {
                HttpPhase::Done { verdict }
            },
            (HttpPhase::Stall, HttpEvent::Stalled) => HttpPhase::Done {
                verdict: HttpVerdict::Written,
            },
            (HttpPhase::ScanPermit, HttpEvent::PermitHeld) => HttpPhase::Read,
            (HttpPhase::Read, HttpEvent::Read) => HttpPhase::Done { verdict: HttpVerdict::Read },
            (HttpPhase::Read, HttpEvent::ReadFailed) => HttpPhase::Done {
                verdict: HttpVerdict::ReadFailed,
            },
            (phase, _) => phase,
        };
        HttpRun { allows_write: self.allows_write, scan_gate: self.scan_gate, phase }
    }

    /// Whether the writer lock is held in this phase.
    pub open spec fn holds_writer(self) -> bool {
        match self.phase {
            HttpPhase::Schema { run } => run.holds_writer(),
            HttpPhase::Write | HttpPhase::Publish | HttpPhase::Recover => true,
            HttpPhase::Release { .. } => true,
            _ => false,
        }
    }

    /// Whether the time spent in this phase is the request's own. The delay that
    /// backpressure puts on a committed write is not.
    pub open spec fn timed(self) -> bool {
        !(self.phase is Stall) && !(self.phase is Done)
    }

    /// Whether the time spent in this phase is the request's own: the clock is
    /// read when this ceases to hold.
    pub fn is_timed(self) -> (r: bool)
        ensures
            r == self.timed(),
    {
        match self.phase {
            HttpPhase::Stall | HttpPhase::Done { .. } => false,
            _ => true,
        }
    }

    /// A request whose text is about to be parsed.
    pub fn start(allows_write: bool, scan_gate: bool) -> (run: HttpRun)
        ensures
            run == HttpRun::started(allows_write, scan_gate),
    {
        HttpRun { allows_write, scan_gate, phase: HttpPhase::Parse }
    }

    /// Takes one answer in.
    pub fn advance(self, event: HttpEvent) -> (next: HttpRun)
        ensures
            next == self.after(event),
    {
        let phase = match (self.phase, event) {
            (HttpPhase::Parse, HttpEvent::ParseFailed) => HttpPhase::Done {
                verdict: HttpVerdict::ParseError,
            },
            (HttpPhase::Parse, HttpEvent::Parsed { statement }) => HttpPhase::Bind { statement },
            (HttpPhase::Bind { .. }, HttpEvent::ParamsRejected) => HttpPhase::Done {
                verdict: HttpVerdict::BadParams,
            },
            (HttpPhase::Bind { statement }, HttpEvent::ParamsBound) => match statement {
                Statement::Schema { kind } => schema_phase(
                    SchemaRun::start(kind, self.allows_write, false),
                ),
                Statement::Show => HttpPhase::Show,
                Statement::Query { explain } => HttpPhase::Plan { explain },
            },
            (HttpPhase::Schema { run }, HttpEvent::Schema { event }) => schema_phase(
                run.advance(event),
            ),
            (HttpPhase::Show, HttpEvent::Shown) => HttpPhase::Done { verdict: HttpVerdict::Shown },
            (HttpPhase::Plan { .. }, HttpEvent::PlanFailed) => HttpPhase::Done {
                verdict: HttpVerdict::PlanError,
            },
            (HttpPhase::Plan { explain }, HttpEvent::Planned { facts }) => HttpPhase::Policy {
                explain,
                facts,
            },
            (HttpPhase::Policy { .. }, HttpEvent::Denied) => HttpPhase::Done {
                verdict: HttpVerdict::Denied,
            },
            (HttpPhase::Policy { explain, facts }, HttpEvent::Allowed) => {
                if explain {
                    HttpPhase::Explain
                } else if facts.writes {
                    if self.allows_write {
                        HttpPhase::Intake
                    } else {
                        HttpPhase::Done { verdict: HttpVerdict::WriteReadOnly }
                    }
                } else if facts.scans && self.scan_gate {
                    HttpPhase::ScanPermit
                } else {
                    HttpPhase::Read
                }
            },
            (HttpPhase::Explain, HttpEvent::Explained) => HttpPhase::Done {
                verdict: HttpVerdict::Explained,
            },
            (HttpPhase::Intake, HttpEvent::IntakeOpen) => HttpPhase::Lock,
            (HttpPhase::Intake, HttpEvent::IntakeDegraded) => HttpPhase::Done {
                verdict: HttpVerdict::WriteDegraded,
            },
            (HttpPhase::Lock, HttpEvent::LockTimedOut) => HttpPhase::Done {
                verdict: HttpVerdict::Busy,
            },
            (HttpPhase::Lock, HttpEvent::Locked { retired }) => {
                if retired {
                    HttpPhase::Release { verdict: HttpVerdict::Retired, stall: false }
                } else {
                    HttpPhase::Write
                }
            },
            (HttpPhase::Write, HttpEvent::Written) => HttpPhase::Publish,
            (HttpPhase::Write, HttpEvent::WriteFailed { retired }) => {
                if retired {
                    HttpPhase::Release { verdict: HttpVerdict::WriteFailed, stall: false }
                } else {
                    HttpPhase::Recover
                }
            },
            (HttpPhase::Publish, HttpEvent::Published { stall }) => HttpPhase::Release {
                verdict: HttpVerdict::Written,
                stall,
            },
            (HttpPhase::Recover, HttpEvent::Recovered) => HttpPhase::Release {
                verdict: HttpVerdict::WriteFailed,
                stall: false,
            },
            (HttpPhase::Release { verdict, stall }, HttpEvent::Released) => {
                if stall {
                    HttpPhase::Stall
                } else {
                    HttpPhase::Done { verdict }
                }
            },
            (HttpPhase::Stall, HttpEvent::Stalled) => HttpPhase::Done {
                verdict: HttpVerdict::Written,
            },
            (HttpPhase::ScanPermit, HttpEvent::PermitHeld) => HttpPhase::Read,
            (HttpPhase::Read, HttpEvent::Read) => HttpPhase::Done { verdict: HttpVerdict::Read },
            (HttpPhase::Read, HttpEvent::ReadFailed) => HttpPhase::Done {
                verdict: HttpVerdict::ReadFailed,
            },
            (phase, _) => phase,
        };
        HttpRun { allows_write: self.allows_write, scan_gate: self.scan_gate, phase }
    }
}

impl HttpVerdict {
    /// The kind that the request is counted under; none when it failed before
    /// it was known, was denied by the policy, or was a schema command refused
    /// by the intake.
    pub open spec fn kind_spec(self) -> Option<QueryKind> {
        match self {
            HttpVerdict::ParseError | HttpVerdict::BadParams | HttpVerdict::PlanError => None,
            HttpVerdict::Denied => None,
            HttpVerdict::Schema { verdict } => match verdict {
                SchemaVerdict::Denied | SchemaVerdict::Degraded => None,
                _ => Some(QueryKind::Write),
            },
            HttpVerdict::Shown | HttpVerdict::Explained => Some(QueryKind::Read),
            HttpVerdict::Read | HttpVerdict::ReadFailed => Some(QueryKind::Read),
            _ => Some(QueryKind::Write),
        }
    }

    /// Whether the request succeeded.
    pub open spec fn ok_spec(self) -> bool {
        match self {
            HttpVerdict::Schema { verdict } => verdict is Applied,
            HttpVerdict::Shown | HttpVerdict::Explained => true,
            HttpVerdict::Written | HttpVerdict::Read => true,
            _ => false,
        }
    }

    /// The kind that the request is counted under.
    pub fn kind(self) -> (r: Option<QueryKind>)
        ensures
            r == self.kind_spec(),
    {
        match self {
            HttpVerdict::ParseError | HttpVerdict::BadParams | HttpVerdict::PlanError => None,
            HttpVerdict::Denied => None,
            HttpVerdict::Schema { verdict } => match verdict {
                SchemaVerdict::Denied | SchemaVerdict::Degraded => None,
                _ => Some(QueryKind::Write),
            },
            HttpVerdict::Shown | HttpVerdict::Explained => Some(QueryKind::Read),
            HttpVerdict::Read | HttpVerdict::ReadFailed => Some(QueryKind::Read),
            _ => Some(QueryKind::Write),
        }
    }

    /// Whether the request succeeded.
    pub fn ok(self) -> (r: bool)
        ensures
            r == self.ok_spec(),
    {
        match self {
            HttpVerdict::Schema { verdict } => match verdict {
                SchemaVerdict::Applied => true,
                _ => false,
            },
            HttpVerdict::Shown | HttpVerdict::Explained => true,
            HttpVerdict::Written | HttpVerdict::Read => true,
            _ => false,
        }
    }
}

/// The run after a whole series of answers.
pub open spec fn http_trace(run: HttpRun, events: Seq<HttpEvent>) -> HttpRun
    decreases events.len(),
{
    if events.len() == 0 {
        run
    } else {
        http_trace(run, events.drop_last()).after(events.last())
    }
}

/// What has been answered to reach a phase of a query.
pub open spec fn http_gates_passed(run: HttpRun, events: Seq<HttpEvent>) -> bool {
    let allowed = events.contains(HttpEvent::Allowed);
    let bound = events.contains(HttpEvent::ParamsBound);
    let open = events.contains(HttpEvent::IntakeOpen);
    match run.phase {
        HttpPhase::Parse | HttpPhase::Bind { .. } => true,
        HttpPhase::Schema { run: schema } => run.allows_write && bound,
        HttpPhase::Show | HttpPhase::Plan { .. } | HttpPhase::Policy { .. } => bound,
        HttpPhase::Explain | HttpPhase::ScanPermit | HttpPhase::Read => bound && allowed,
        HttpPhase::Intake => bound && allowed && run.allows_write,
        HttpPhase::Lock | HttpPhase::Write | HttpPhase::Publish => bound && allowed && open
            && run.allows_write,
        HttpPhase::Recover | HttpPhase::Release { .. } => bound && allowed && open
            && run.allows_write,
        HttpPhase::Stall => bound && allowed && open && run.allows_write && events.contains(
            HttpEvent::Written,
        ),
        HttpPhase::Done { verdict } => match verdict {
            HttpVerdict::Explained | HttpVerdict::Read | HttpVerdict::ReadFailed => bound
                && allowed,
            HttpVerdict::Busy | HttpVerdict::Retired | HttpVerdict::WriteFailed => bound && allowed
                && open && run.allows_write,
            HttpVerdict::Written => bound && allowed && open && run.allows_write
                && events.contains(HttpEvent::Written),
            HttpVerdict::WriteReadOnly => !run.allows_write,
            _ => true,
        },
    }
}

/// Whatever answers come, a request reads, waits for the writer or writes only
/// after its parameters were bound and the policy allowed its plan; it waits for
/// the writer only for a caller who may write and while local persistence is in
/// order; and it reports a write only when one was committed.
pub proof fn law_http_gates(allows_write: bool, scan_gate: bool, events: Seq<HttpEvent>)
    ensures
        ({
            let run = http_trace(HttpRun::started(allows_write, scan_gate), events);
            &&& run.allows_write == allows_write
            &&& run.scan_gate == scan_gate
            &&& http_gates_passed(run, events)
            &&& run.phase is Publish ==> events.contains(HttpEvent::Written)
            &&& run.phase matches HttpPhase::Release { verdict, stall } ==> {
                &&& verdict is Written || verdict is WriteFailed || verdict is Retired
                &&& verdict is Written ==> events.contains(HttpEvent::Written)
                &&& stall ==> verdict is Written
            }
        }),
    decreases events.len(),
{
    if events.len() > 0 {
        let before = events.drop_last();
        law_http_gates(allows_write, scan_gate, before);
        assert forall|e: HttpEvent| before.contains(e) implies events.contains(e) by {
            let i = choose|i: int| 0 <= i < before.len() && before[i] == e;
            assert(events[i] == e);
        }
        assert(events.contains(events.last())) by {
            assert(events[events.len() - 1] == events.last());
        }
    }
}

/// A request never ends, and never sleeps out its backpressure, with the writer
/// lock held: the lock comes from an answer to the wait for it, and goes by the
/// release alone.
pub proof fn law_http_release(run: HttpRun, event: HttpEvent)
    ensures
        run.phase is Done ==> run.after(event) == run && !run.holds_writer(),
        run.phase is Stall ==> !run.holds_writer(),
        run.holds_writer() && !run.after(event).holds_writer() ==> event is Released || event == (
        HttpEvent::Schema { event: SchemaEvent::Released }),
        !run.holds_writer() && run.after(event).holds_writer() ==> event is Locked || (
        event matches HttpEvent::Schema { event: e } && e is Locked),
{
}

/// The clock of a request stops once, when its outcome stands and the writer lock
/// is free again, and the delay that backpressure adds comes after.
pub proof fn law_http_clock(run: HttpRun, event: HttpEvent)
    ensures
        !run.timed() ==> !run.after(event).timed(),
        !run.timed() ==> !run.holds_writer(),
        run.after(event).phase is Stall && run.timed() ==> run.holds_writer() && event is Released,
{
}

/// `EXPLAIN` renders and never executes: from the moment the statement is known
/// to be one, no phase reads or writes.
pub proof fn law_explain_never_executes(run: HttpRun, event: HttpEvent)
    ensures
        match run.phase {
            HttpPhase::Bind { statement: Statement::Query { explain: true } } => {
                let next = run.after(event).phase;
                next == run.phase || next == (HttpPhase::Plan { explain: true }) || next is Done
            },
            HttpPhase::Plan { explain: true } => {
                let next = run.after(event).phase;
                next == run.phase || (next matches HttpPhase::Policy { explain, .. } && explain)
                    || next is Done
            },
            HttpPhase::Policy { explain: true, .. } => {
                let next = run.after(event).phase;
                next == run.phase || next is Explain || next is Done
            },
            HttpPhase::Explain => {
                let next = run.after(event).phase;
                next is Explain || next is Done
            },
            _ => true,
        },
{
}

/// The answers that a request took in: those that it waited for when they came.
pub open spec fn http_heard(run: HttpRun, events: Seq<HttpEvent>) -> Seq<HttpEvent>
    decreases events.len(),
{
    if events.len() == 0 {
        Seq::empty()
    } else {
        let before = events.drop_last();
        let now = http_trace(run, before);
        if now.after(events.last()) == now {
            http_heard(run, before)
        } else {
            http_heard(run, before).push(events.last())
        }
    }
}

/// The plan among the answers that a request took in: it is the third.
pub open spec fn http_heard_facts(heard: Seq<HttpEvent>) -> PlanFacts {
    heard[2]->facts
}

/// What a request has been answered by the time its plan is known.
pub open spec fn http_planned(explain: bool, facts: PlanFacts) -> Seq<HttpEvent> {
    seq![
        HttpEvent::Parsed { statement: Statement::Query { explain } },
        HttpEvent::ParamsBound,
        HttpEvent::Planned { facts },
    ]
}

/// What a write has been answered by the time it waits for the writer.
pub open spec fn http_admitted(facts: PlanFacts) -> Seq<HttpEvent> {
    http_planned(false, facts).push(HttpEvent::Allowed).push(HttpEvent::IntakeOpen)
}

/// What a write has been answered by the time it is executed.
pub open spec fn http_locked(facts: PlanFacts) -> Seq<HttpEvent> {
    http_admitted(facts).push(HttpEvent::Locked { retired: false })
}

/// What a write has been answered by the time it gives the writer back: its
/// namespace was gone, it was committed and what it committed was published, or
/// it failed and the writer was looked after unless the namespace was gone.
pub open spec fn http_settled(verdict: HttpVerdict, stall: bool, heard: Seq<HttpEvent>) -> bool {
    let facts = http_heard_facts(heard);
    &&& facts.writes
    &&& match verdict {
        HttpVerdict::Retired => !stall && heard =~= http_admitted(facts).push(
            HttpEvent::Locked { retired: true },
        ),
        HttpVerdict::Written => heard =~= http_locked(facts).push(HttpEvent::Written).push(
            HttpEvent::Published { stall },
        ),
        HttpVerdict::WriteFailed => !stall && {
            ||| heard =~= http_locked(facts).push(HttpEvent::WriteFailed { retired: true })
            ||| heard =~= http_locked(facts).push(HttpEvent::WriteFailed { retired: false }).push(
                HttpEvent::Recovered,
            )
        },
        _ => false,
    }
}

/// Whether a read may run: its plan was allowed, and it holds a permit if it scans
/// and scans are metered.
pub open spec fn http_may_read(scan_gate: bool, facts: PlanFacts, heard: Seq<HttpEvent>) -> bool {
    let allowed = http_planned(false, facts).push(HttpEvent::Allowed);
    &&& !facts.writes
    &&& heard =~= if facts.scans && scan_gate {
        allowed.push(HttpEvent::PermitHeld)
    } else {
        allowed
    }
}

/// The answers that a schema command took in.
pub open spec fn schema_part(heard: Seq<HttpEvent>) -> Seq<SchemaEvent> {
    heard.map_values(|e: HttpEvent| e->Schema_event)
}

/// Whether the answers are those of a schema command, which stands at `run`
/// after them.
pub open spec fn http_schema_story(
    allows_write: bool,
    run: SchemaRun,
    heard: Seq<HttpEvent>,
) -> bool {
    &&& heard.len() >= 2
    &&& heard[0] == (HttpEvent::Parsed { statement: Statement::Schema { kind: run.kind } })
    &&& heard[1] == HttpEvent::ParamsBound
    &&& forall|i: int| 2 <= i < heard.len() ==> #[trigger] heard[i] is Schema
    &&& run == schema_trace(
        SchemaRun::started(run.kind, allows_write, false),
        schema_part(heard.skip(2)),
    )
}

/// What a request has been answered, one after the other, where it stands.
pub open spec fn http_story(run: HttpRun, heard: Seq<HttpEvent>) -> bool {
    let facts = http_heard_facts(heard);
    let writing = run.allows_write && facts.writes;
    match run.phase {
        HttpPhase::Parse => heard.len() == 0,
        HttpPhase::Bind { statement } => heard =~= seq![HttpEvent::Parsed { statement }],
        HttpPhase::Schema { run: schema } => !(schema.phase is Done) && http_schema_story(
            run.allows_write,
            schema,
            heard,
        ),
        HttpPhase::Show => heard =~= seq![
            HttpEvent::Parsed { statement: Statement::Show },
            HttpEvent::ParamsBound,
        ],
        HttpPhase::Plan { explain } => heard =~= seq![
            HttpEvent::Parsed { statement: Statement::Query { explain } },
            HttpEvent::ParamsBound,
        ],
        HttpPhase::Policy { explain, facts } => heard =~= http_planned(explain, facts),
        HttpPhase::Explain => heard =~= http_planned(true, facts).push(HttpEvent::Allowed),
        HttpPhase::Intake => writing && heard =~= http_planned(false, facts).push(
            HttpEvent::Allowed,
        ),
        HttpPhase::Lock => writing && heard =~= http_admitted(facts),
        HttpPhase::Write => writing && heard =~= http_locked(facts),
        HttpPhase::Publish => writing && heard =~= http_locked(facts).push(HttpEvent::Written),
        HttpPhase::Recover => writing && heard =~= http_locked(facts).push(
            HttpEvent::WriteFailed { retired: false },
        ),
        HttpPhase::Release { verdict, stall } => run.allows_write && http_settled(
            verdict,
            stall,
            heard,
        ),
        HttpPhase::Stall => {
            &&& run.allows_write
            &&& heard.len() > 0
            &&& heard.last() == HttpEvent::Released
            &&& http_settled(HttpVerdict::Written, true, heard.drop_last())
        },
        HttpPhase::ScanPermit => {
            &&& !facts.writes
            &&& facts.scans
            &&& run.scan_gate
            &&& heard =~= http_planned(false, facts).push(HttpEvent::Allowed)
        },
        HttpPhase::Read => http_may_read(run.scan_gate, facts, heard),
        HttpPhase::Done { verdict } => http_ended(run, verdict, heard),
    }
}

/// What a request has been answered, one after the other, when it ended with a
/// verdict.
pub open spec fn http_ended(run: HttpRun, verdict: HttpVerdict, heard: Seq<HttpEvent>) -> bool {
    let facts = http_heard_facts(heard);
    let so_far = heard.drop_last();
    let writing = run.allows_write && facts.writes;
    match verdict {
        HttpVerdict::ParseError => heard =~= seq![HttpEvent::ParseFailed],
        HttpVerdict::BadParams => {
            &&& heard.len() == 2
            &&& heard[0] is Parsed
            &&& heard[1] == HttpEvent::ParamsRejected
        },
        HttpVerdict::Schema { verdict } => exists|schema: SchemaRun|
            #![trigger http_schema_story(run.allows_write, schema, heard)]
            schema.phase == (SchemaPhase::Done { verdict }) && http_schema_story(
                run.allows_write,
                schema,
                heard,
            ),
        HttpVerdict::Shown => heard =~= seq![
            HttpEvent::Parsed { statement: Statement::Show },
            HttpEvent::ParamsBound,
            HttpEvent::Shown,
        ],
        HttpVerdict::PlanError => {
            &&& heard.len() == 3
            &&& heard[0] matches HttpEvent::Parsed { statement: Statement::Query { .. } }
            &&& heard[1] == HttpEvent::ParamsBound
            &&& heard[2] == HttpEvent::PlanFailed
        },
        HttpVerdict::Denied => exists|explain: bool|
            heard =~= (#[trigger] http_planned(explain, facts)).push(HttpEvent::Denied),
        HttpVerdict::Explained => heard =~= http_planned(true, facts).push(
            HttpEvent::Allowed,
        ).push(HttpEvent::Explained),
        HttpVerdict::WriteReadOnly => {
            &&& !run.allows_write
            &&& facts.writes
            &&& heard =~= http_planned(false, facts).push(HttpEvent::Allowed)
        },
        HttpVerdict::WriteDegraded => writing && heard =~= http_planned(false, facts).push(
            HttpEvent::Allowed,
        ).push(HttpEvent::IntakeDegraded),
        HttpVerdict::Busy => writing && heard =~= http_admitted(facts).push(
            HttpEvent::LockTimedOut,
        ),
        HttpVerdict::Retired | HttpVerdict::WriteFailed => {
            &&& run.allows_write
            &&& heard.len() > 0
            &&& heard.last() == HttpEvent::Released
            &&& http_settled(verdict, false, so_far)
        },
        HttpVerdict::Written => run.allows_write && {
            ||| {
                &&& heard.len() > 0
                &&& heard.last() == HttpEvent::Released
                &&& http_settled(verdict, false, so_far)
            }
            ||| {
                &&& heard.len() > 1
                &&& heard.last() == HttpEvent::Stalled
                &&& so_far.last() == HttpEvent::Released
                &&& http_settled(verdict, true, so_far.drop_last())
            }
        },
        HttpVerdict::Read => heard.len() > 0 && heard.last() == HttpEvent::Read && http_may_read(
            run.scan_gate,
            facts,
            so_far,
        ),
        HttpVerdict::ReadFailed => heard.len() > 0 && heard.last() == HttpEvent::ReadFailed
            && http_may_read(run.scan_gate, facts, so_far),
    }
}

/// One answer to a schema command carries its story on.
proof fn lemma_http_schema_step(
    allows_write: bool,
    run: SchemaRun,
    heard: Seq<HttpEvent>,
    event: SchemaEvent,
)
    requires
        http_schema_story(allows_write, run, heard),
    ensures
        http_schema_story(allows_write, run.after(event), heard.push(HttpEvent::Schema { event })),
{
    let more = heard.push(HttpEvent::Schema { event });
    assert(schema_part(more.skip(2)) =~= schema_part(heard.skip(2)).push(event));
    assert(schema_part(more.skip(2)).drop_last() =~= schema_part(heard.skip(2)));
}

/// One answer carries the story of a request on.
#[verifier::rlimit(80)]
#[verifier::spinoff_prover]
proof fn lemma_http_story_step(run: HttpRun, heard: Seq<HttpEvent>, event: HttpEvent)
    requires
        http_story(run, heard),
        run.after(event) != run,
    ensures
        http_story(run.after(event), heard.push(event)),
{
    let more = heard.push(event);
    let next = run.after(event);
    assert(more.drop_last() =~= heard);
    assert(more.last() == event);
    if heard.len() > 2 {
        assert(http_heard_facts(more) == http_heard_facts(heard));
    }
    match run.phase {
        HttpPhase::Bind { statement } => {
            if let Statement::Schema { kind } = statement {
                let schema = SchemaRun::started(kind, run.allows_write, false);
                assert(schema_part(more.skip(2)) =~= Seq::empty());
                if event is ParamsBound {
                    assert(http_schema_story(next.allows_write, schema, more));
                    if !run.allows_write {
                        let verdict = SchemaVerdict::ReadOnly;
                        assert(http_ended(next, HttpVerdict::Schema { verdict }, more));
                    }
                }
            }
            assert(http_story(next, more));
        },
        HttpPhase::Schema { run: schema } => {
            if let HttpEvent::Schema { event: answer } = event {
                lemma_http_schema_step(run.allows_write, schema, heard, answer);
                assert(http_schema_story(next.allows_write, schema.after(answer), more));
                if let SchemaPhase::Done { verdict } = schema.after(answer).phase {
                    assert(http_ended(next, HttpVerdict::Schema { verdict }, more));
                }
            }
            assert(http_story(next, more));
        },
        HttpPhase::Policy { explain, facts } => {
            assert(http_planned(explain, facts) =~= heard);
            assert(http_story(next, more));
        },
        HttpPhase::Lock | HttpPhase::Write => {
            assert(http_story(next, more));
        },
        HttpPhase::Release { .. } | HttpPhase::Stall => {
            assert(http_story(next, more));
        },
        HttpPhase::Publish | HttpPhase::Recover => {
            assert(http_story(next, more));
        },
        _ => {
            assert(http_story(next, more));
        },
    }
}

/// Over every series of answers, what a request has been answered tells exactly
/// how far it came. A write is reported only after its parameters were bound, its
/// plan allowed, the intake found open and the writer locked; after it was
/// committed, what it committed was published and the writer was given back; and
/// after the delay was slept out exactly if backpressure called for it. Every
/// refusal and failure is reported as the one that was answered.
pub proof fn law_http_story(allows_write: bool, scan_gate: bool, events: Seq<HttpEvent>)
    ensures
        ({
            let first = HttpRun::started(allows_write, scan_gate);
            let run = http_trace(first, events);
            &&& run == (HttpRun { phase: run.phase, ..first })
            &&& http_story(run, http_heard(first, events))
        }),
    decreases events.len(),
{
    if events.len() > 0 {
        let before = events.drop_last();
        law_http_story(allows_write, scan_gate, before);
        let first = HttpRun::started(allows_write, scan_gate);
        let now = http_trace(first, before);
        if now.after(events.last()) != now {
            lemma_http_story_step(now, http_heard(first, before), events.last());
        }
    }
}

/// A request listens to the answers to what it asked, to all of them, and to
/// nothing else: no answer that it waits for is lost.
pub proof fn law_http_listens(run: HttpRun, event: HttpEvent)
    requires
        run.phase matches HttpPhase::Schema { run: schema } ==> !(schema.phase is Done),
    ensures
        run.after(event) != run <==> match run.phase {
            HttpPhase::Parse => event is Parsed || event is ParseFailed,
            HttpPhase::Bind { .. } => event is ParamsBound || event is ParamsRejected,
            HttpPhase::Schema { run: schema } => event matches HttpEvent::Schema { event: answer }
                && schema.after(answer) != schema,
            HttpPhase::Show => event is Shown,
            HttpPhase::Plan { .. } => event is Planned || event is PlanFailed,
            HttpPhase::Policy { .. } => event is Allowed || event is Denied,
            HttpPhase::Explain => event is Explained,
            HttpPhase::Intake => event is IntakeOpen || event is IntakeDegraded,
            HttpPhase::Lock => event is Locked || event is LockTimedOut,
            HttpPhase::Write => event is Written || event is WriteFailed,
            HttpPhase::Publish => event is Published,
            HttpPhase::Recover => event is Recovered,
            HttpPhase::Release { .. } => event is Released,
            HttpPhase::Stall => event is Stalled,
            HttpPhase::ScanPermit => event is PermitHeld,
            HttpPhase::Read => event is Read || event is ReadFailed,
            HttpPhase::Done { .. } => false,
        },
{
}

/// Whether an answer is a refusal or a failure.
pub open spec fn http_setback(event: HttpEvent) -> bool {
    ||| event is ParseFailed || event is ParamsRejected || event is PlanFailed || event is Denied
    ||| event is IntakeDegraded || event is LockTimedOut || event is WriteFailed
    ||| event is ReadFailed || event == (HttpEvent::Locked { retired: true })
}

/// What a verdict tells of the answers that led to it: whether there was a setback
/// among them, and the kind of the plan once it is known.
pub open spec fn http_verdict_counts(
    allows_write: bool,
    verdict: HttpVerdict,
    heard: Seq<HttpEvent>,
) -> bool {
    let facts = http_heard_facts(heard);
    let allowed = heard.len() > 3 && heard[2] is Planned && heard[3] is Allowed;
    let explain = heard[0] == (HttpEvent::Parsed { statement: Statement::Query { explain: true } });
    let refused = allowed && !explain && facts.writes && !allows_write;
    &&& verdict.ok_spec() ==> !refused && forall|i: int|
        0 <= i < heard.len() ==> !http_setback(#[trigger] heard[i])
    &&& !verdict.ok_spec() ==> refused || exists|i: int|
        0 <= i < heard.len() && http_setback(#[trigger] heard[i])
    &&& verdict is Explained || verdict is Shown ==> verdict.kind_spec() == Some(QueryKind::Read)
    &&& allowed && !(verdict is Explained) ==> verdict.kind_spec() == Some(
        if facts.writes {
            QueryKind::Write
        } else {
            QueryKind::Read
        },
    )
    &&& !allowed && !(verdict is Shown) ==> verdict.kind_spec() is None
}

/// The story of a request that ended tells how it is counted.
#[verifier::rlimit(60)]
#[verifier::spinoff_prover]
proof fn lemma_http_counts(run: HttpRun, verdict: HttpVerdict, heard: Seq<HttpEvent>)
    requires
        http_ended(run, verdict, heard),
        !(verdict is Schema),
    ensures
        http_verdict_counts(run.allows_write, verdict, heard),
{
    let once = heard.drop_last();
    let twice = once.drop_last();
    if heard.len() > 4 {
        assert(once[0] == heard[0] && once[2] == heard[2] && once[3] == heard[3]);
        assert forall|i: int| 0 <= i < heard.len() - 1 implies #[trigger] heard[i] == once[i] by {}
    }
    if heard.len() > 5 {
        assert(twice[0] == heard[0] && twice[2] == heard[2] && twice[3] == heard[3]);
        assert forall|i: int| 0 <= i < heard.len() - 2 implies #[trigger] heard[i] == twice[i] by {}
        assert(heard[heard.len() - 3] == twice.last());
    }
    match verdict {
        HttpVerdict::WriteFailed => {
            if once.last() == (HttpEvent::WriteFailed { retired: true }) {
                assert(http_setback(heard[heard.len() - 2]));
            } else {
                assert(http_setback(heard[heard.len() - 3]));
            }
            assert(http_verdict_counts(run.allows_write, verdict, heard));
        },
        HttpVerdict::Retired => {
            assert(http_setback(heard[heard.len() - 2]));
            assert(http_verdict_counts(run.allows_write, verdict, heard));
        },
        HttpVerdict::Written => {
            assert(http_verdict_counts(run.allows_write, verdict, heard));
        },
        HttpVerdict::Read | HttpVerdict::Explained | HttpVerdict::Shown => {
            assert(http_verdict_counts(run.allows_write, verdict, heard));
        },
        HttpVerdict::WriteReadOnly => {
            assert(http_verdict_counts(run.allows_write, verdict, heard));
        },
        _ => {
            assert(http_setback(heard[heard.len() - 1]));
            assert(http_verdict_counts(run.allows_write, verdict, heard));
        },
    }
}

/// A request other than a schema command succeeds exactly if nothing that it was
/// answered is a refusal or a failure, and it does not ask a caller to write who
/// may only read. It is counted under the kind of its plan once that was allowed,
/// and under none before; a rendered plan and a look at the schema count as reads.
pub proof fn law_http_counts(allows_write: bool, scan_gate: bool, events: Seq<HttpEvent>)
    ensures
        ({
            let first = HttpRun::started(allows_write, scan_gate);
            http_trace(first, events).phase matches HttpPhase::Done { verdict } ==> verdict
                is Schema || http_verdict_counts(allows_write, verdict, http_heard(first, events))
        }),
{
    let first = HttpRun::started(allows_write, scan_gate);
    let run = http_trace(first, events);
    law_http_story(allows_write, scan_gate, events);
    if let HttpPhase::Done { verdict } = run.phase {
        if !(verdict is Schema) {
            lemma_http_counts(run, verdict, http_heard(first, events));
        }
    }
}

/// A schema command that was applied is a success counted as a write; one that the
/// policy denied or the intake refused is counted under no kind, and every other
/// is a write that failed.
pub proof fn law_http_counts_schema(verdict: SchemaVerdict)
    ensures
        ({
            let v = HttpVerdict::Schema { verdict };
            &&& v.ok_spec() <==> verdict == SchemaVerdict::Applied
            &&& v.kind_spec() is None <==> verdict == SchemaVerdict::Denied || verdict
                == SchemaVerdict::Degraded
            &&& v.kind_spec() is Some ==> v.kind_spec() == Some(QueryKind::Write)
        }),
{
}

impl HttpRun {
    /// How much of the way is still ahead.
    pub open spec fn ahead(self) -> nat {
        match self.phase {
            HttpPhase::Parse => 20,
            HttpPhase::Bind { .. } => 19,
            HttpPhase::Schema { run } => 1 + run.ahead(),
            HttpPhase::Plan { .. } => 10,
            HttpPhase::Policy { .. } => 9,
            HttpPhase::Intake => 8,
            HttpPhase::Lock => 7,
            HttpPhase::Write => 6,
            HttpPhase::Publish => 5,
            HttpPhase::Recover => 4,
            HttpPhase::Release { .. } => 3,
            HttpPhase::Stall | HttpPhase::ScanPermit => 2,
            HttpPhase::Show | HttpPhase::Explain | HttpPhase::Read => 1,
            HttpPhase::Done { .. } => 0,
        }
    }
}

/// A request never goes back: an answer that it waits for brings it nearer to its
/// end, and every other answer leaves it where it is.
pub proof fn law_http_progress(run: HttpRun, event: HttpEvent)
    ensures
        run.after(event) == run || run.after(event).ahead() < run.ahead(),
{
}

/// The writer of a retired namespace is given back unused, and is not reopened
/// after a failure either: its successor owns the namespace.
pub proof fn law_http_leaves_retired_alone(run: HttpRun)
    ensures
        run.phase is Lock ==> run.after(HttpEvent::Locked { retired: true }).phase == (
        HttpPhase::Release { verdict: HttpVerdict::Retired, stall: false }),
        run.phase is Write ==> run.after(HttpEvent::WriteFailed { retired: true }).phase == (
        HttpPhase::Release { verdict: HttpVerdict::WriteFailed, stall: false }),
{
}

/// A read does not wait for the writer, and the state of local persistence does
/// not keep it out: once its plan is known, it is denied or it reads.
pub proof fn law_http_reads_are_free(run: HttpRun, event: HttpEvent)
    ensures
        match run.phase {
            HttpPhase::Policy { explain: false, facts } if !facts.writes => {
                let next = run.after(event).phase;
                &&& next == run.phase || next is Done || next is ScanPermit || next is Read
                &&& event is Allowed ==> next is ScanPermit || next is Read
            },
            HttpPhase::ScanPermit | HttpPhase::Read => {
                let next = run.after(event).phase;
                next == run.phase || next is Read || next is Done
            },
            _ => true,
        },
{
}

/// Records a request that ended, and takes it off the in-flight gauge. A slow one
/// is handed back for the log.
pub fn observe_request(
    metrics: &mut Metrics,
    guard: InFlightGuard,
    verdict: HttpVerdict,
    elapsed: Duration,
    query: &str,
) -> (slow: Option<SlowQuery>)
    ensures
        final(metrics)@ == old(metrics)@.query_observed(
            Protocol::Http,
            verdict.kind_spec(),
            verdict.ok_spec(),
            nanos(elapsed),
        ).left(),
        slow is Some <==> old(metrics)@.is_slow(nanos(elapsed)),
        slow matches Some(record) ==> record.tells(
            Protocol::Http,
            verdict.kind_spec(),
            verdict.ok_spec(),
            nanos(elapsed),
            query@,
        ),
{
    let slow = metrics.observe_query(Protocol::Http, verdict.kind(), verdict.ok(), elapsed, query);
    metrics.release_in_flight(guard);
    slow
}

} // verus!
