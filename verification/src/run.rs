//! One Bolt statement, from its arrival to its outcome: on its own, or inside an
//! explicit transaction.
//!
//! The shell performs what a phase waits for and hands the answer back. A client
//! that goes away is noticed wherever a statement can be given up without
//! leaving something half done, and nowhere else: once a commit is under way it
//! runs to its end.

use vstd::prelude::*;

use crate::cypher::{PlanFacts, Statement};
use crate::metrics::QueryKind;
use crate::schema::{
    schema_trace, SchemaEvent, SchemaKind, SchemaPhase, SchemaRun, SchemaVerdict,
};

verus! {

/// How a statement ended.
#[derive(Debug, Clone, Copy, PartialEq, Eq, Structural)]
pub enum BoltVerdict {
    /// The client has gone.
    Disconnected { kind: Option<QueryKind> },
    ParseError,
    Schema { verdict: SchemaVerdict },
    /// A schema command inside a transaction.
    SchemaInTx { command: SchemaKind },
    Shown,
    PlanError,
    Denied,
    Explained,
    WriteReadOnly,
    WriteDegraded,
    Busy,
    /// There is no transaction to run in.
    NoTransaction,
    /// The write could not be applied.
    WriteFailed,
    /// The write was applied and could not be committed.
    CommitFailed,
    /// The commit of the group that the write belongs to failed.
    GroupFailed,
    /// The group's committer has gone.
    GroupLost,
    Written,
    Read,
    ReadFailed,
}

impl BoltVerdict {
    /// The kind that the statement is counted under; none when it failed before
    /// it was known, was denied, or was refused by the state of the session.
    pub open spec fn kind_spec(self) -> Option<QueryKind> {
        match self {
            BoltVerdict::Disconnected { kind } => kind,
            BoltVerdict::ParseError | BoltVerdict::PlanError | BoltVerdict::Denied => None,
            BoltVerdict::SchemaInTx { .. } | BoltVerdict::NoTransaction => None,
            BoltVerdict::Schema { verdict } => if verdict is Denied {
                None
            } else {
                Some(QueryKind::Write)
            },
            BoltVerdict::Shown | BoltVerdict::Explained => Some(QueryKind::Read),
            BoltVerdict::Read | BoltVerdict::ReadFailed => Some(QueryKind::Read),
            _ => Some(QueryKind::Write),
        }
    }

    /// Whether the statement succeeded.
    pub open spec fn ok_spec(self) -> bool {
        match self {
            BoltVerdict::Schema { verdict } => verdict is Applied,
            BoltVerdict::Shown | BoltVerdict::Explained => true,
            BoltVerdict::Written | BoltVerdict::Read => true,
            _ => false,
        }
    }

    /// The kind that the statement is counted under.
    pub fn kind(self) -> (r: Option<QueryKind>)
        ensures
            r == self.kind_spec(),
    {
        match self {
            BoltVerdict::Disconnected { kind } => kind,
            BoltVerdict::ParseError | BoltVerdict::PlanError | BoltVerdict::Denied => None,
            BoltVerdict::SchemaInTx { .. } | BoltVerdict::NoTransaction => None,
            BoltVerdict::Schema { verdict } => match verdict {
                SchemaVerdict::Denied => None,
                _ => Some(QueryKind::Write),
            },
            BoltVerdict::Shown | BoltVerdict::Explained => Some(QueryKind::Read),
            BoltVerdict::Read | BoltVerdict::ReadFailed => Some(QueryKind::Read),
            _ => Some(QueryKind::Write),
        }
    }

    /// Whether the time that counts ends with the statement rather than with its
    /// clock: a client that goes away during a delay has waited for it.
    pub fn is_timed_to_the_end(self) -> (r: bool)
        ensures
            r == (self is Disconnected),
    {
        match self {
            BoltVerdict::Disconnected { .. } => true,
            _ => false,
        }
    }

    /// Whether the statement succeeded.
    pub fn ok(self) -> (r: bool)
        ensures
            r == self.ok_spec(),
    {
        match self {
            BoltVerdict::Schema { verdict } => match verdict {
                SchemaVerdict::Applied => true,
                _ => false,
            },
            BoltVerdict::Shown | BoltVerdict::Explained => true,
            BoltVerdict::Written | BoltVerdict::Read => true,
            _ => false,
        }
    }
}

/// What follows once the writer lock is given back.
#[derive(Debug, Clone, Copy, PartialEq, Eq, Structural)]
pub enum Afterwards {
    /// The verdict stands.
    End { verdict: BoltVerdict },
    /// The write is committed; the client may have gone meanwhile.
    Committed { stall: bool },
    /// The write belongs to a group whose commit is waited for.
    Grouped { stall: bool },
}

/// Where a statement of its own stands: each phase waits for one answer.
#[derive(Debug, Clone, Copy, PartialEq, Eq, Structural)]
pub enum BoltPhase {
    /// The client is looked for before anything is done.
    Start,
    Parse,
    Schema { run: SchemaRun },
    Show,
    Plan { explain: bool },
    Policy { explain: bool, facts: PlanFacts },
    /// The client is looked for before anything is executed.
    Check { explain: bool, facts: PlanFacts },
    Explain,
    /// The state of local persistence is read.
    Intake,
    /// The writer lock is waited for, within the bound and while the client is
    /// there.
    Lock,
    /// The write is staged under the writer lock, while the client is there.
    Apply,
    /// The client is looked for before the commit.
    Confirm,
    /// What the statement staged is dropped under the writer lock.
    Discard { recover: bool, verdict: BoltVerdict },
    /// The writer is reopened, if it is broken, under the writer lock.
    Recover { verdict: BoltVerdict },
    /// What is staged is committed under the writer lock.
    Commit,
    /// The committed state is published and the backpressure sampled.
    Publish,
    /// The write joins the group under the writer lock and the backpressure is
    /// sampled.
    Register,
    /// The writer lock is given back.
    Release { then_do: Afterwards },
    /// The group's commit is waited for.
    Ack { stall: bool },
    /// The client is looked for after the commit.
    Linger { stall: bool },
    /// The backpressure delay is slept out, while the client is there.
    Stall,
    /// A permit of the scan gate is waited for.
    ScanPermit,
    /// The read runs, while the client is there.
    Read,
    Done { verdict: BoltVerdict },
}

/// An answer to what a phase waits for.
#[derive(Debug, Clone, Copy, PartialEq, Eq, Structural)]
pub enum BoltEvent {
    /// The client is there.
    Present,
    /// The client has gone.
    Gone,
    Parsed { statement: Statement },
    ParseFailed,
    Schema { event: SchemaEvent },
    Shown,
    Planned { facts: PlanFacts },
    PlanFailed,
    Allowed,
    Denied,
    Explained,
    IntakeOpen,
    IntakeDegraded,
    Locked,
    LockTimedOut,
    Staged,
    StageFailed,
    Discarded,
    Recovered,
    Committed,
    CommitFailed,
    Published { stall: bool },
    Registered { stall: bool },
    Released,
    Acked,
    AckFailed,
    AckLost,
    Stalled,
    PermitHeld,
    Read,
    ReadFailed,
    /// The transaction slot is held; `open` when there is a transaction in it.
    Slot { open: bool },
}

/// One statement of its own on its way through the gates.
#[derive(Debug, Clone, Copy, PartialEq, Eq, Structural)]
pub struct BoltRun {
    /// The caller may write.
    pub allows_write: bool,
    /// Full scans are metered.
    pub scan_gate: bool,
    /// Writes are committed in groups.
    pub group: bool,
    pub phase: BoltPhase,
}

/// The verdict on a client that has gone.
pub open spec fn gone(kind: Option<QueryKind>) -> BoltPhase {
    BoltPhase::Done { verdict: BoltVerdict::Disconnected { kind } }
}

/// A verdict.
pub open spec fn bolt_done(verdict: BoltVerdict) -> BoltPhase {
    BoltPhase::Done { verdict }
}

/// The phase of a schema command, or its verdict once it has one.
pub open spec fn bolt_schema_phase(run: SchemaRun) -> BoltPhase {
    match run.phase {
        SchemaPhase::Done { verdict } => bolt_done(BoltVerdict::Schema { verdict }),
        _ => BoltPhase::Schema { run },
    }
}

/// The phase of a schema command, or its verdict once it has one.
fn schema_phase(run: SchemaRun) -> (phase: BoltPhase)
    ensures
        phase == bolt_schema_phase(run),
{
    match run.phase {
        SchemaPhase::Done { verdict } => BoltPhase::Done { verdict: BoltVerdict::Schema { verdict } },
        _ => BoltPhase::Schema { run },
    }
}

impl BoltRun {
    /// A statement that was just received.
    pub open spec fn started(allows_write: bool, scan_gate: bool, group: bool) -> BoltRun {
        BoltRun { allows_write, scan_gate, group, phase: BoltPhase::Start }
    }

    /// Where a plan goes that the policy allowed and whose client is there:
    /// rendered, written or read.
    pub open spec fn allowed_phase(self, explain: bool, facts: PlanFacts) -> BoltPhase {
        if explain {
            BoltPhase::Explain
        } else if facts.writes {
            if self.allows_write {
                BoltPhase::Intake
            } else {
                bolt_done(BoltVerdict::WriteReadOnly)
            }
        } else if facts.scans && self.scan_gate {
            BoltPhase::ScanPermit
        } else {
            BoltPhase::Read
        }
    }

    /// The phase after an answer.
    pub open spec fn next_phase(self, event: BoltEvent) -> BoltPhase {
        let disconnected = BoltVerdict::Disconnected { kind: Some(QueryKind::Write) };
        match (self.phase, event) {
            (BoltPhase::Start, BoltEvent::Gone) => gone(None),
            (BoltPhase::Start, BoltEvent::Present) => BoltPhase::Parse,
            (BoltPhase::Parse, BoltEvent::ParseFailed) => bolt_done(BoltVerdict::ParseError),
            (BoltPhase::Parse, BoltEvent::Parsed { statement }) => match statement {
                Statement::Schema { kind } => bolt_schema_phase(
                    SchemaRun::started(kind, self.allows_write, true),
                ),
                Statement::Show => BoltPhase::Show,
                Statement::Query { explain } => BoltPhase::Plan { explain },
            },
            (BoltPhase::Schema { run }, BoltEvent::Schema { event }) => bolt_schema_phase(
                run.after(event),
            ),
            (BoltPhase::Show, BoltEvent::Shown) => bolt_done(BoltVerdict::Shown),
            (BoltPhase::Plan { .. }, BoltEvent::PlanFailed) => bolt_done(BoltVerdict::PlanError),
            (BoltPhase::Plan { explain }, BoltEvent::Planned { facts }) => BoltPhase::Policy {
                explain,
                facts,
            },
            (BoltPhase::Policy { .. }, BoltEvent::Denied) => bolt_done(BoltVerdict::Denied),
            (BoltPhase::Policy { explain, facts }, BoltEvent::Allowed) => BoltPhase::Check {
                explain,
                facts,
            },
            (BoltPhase::Check { facts, .. }, BoltEvent::Gone) => gone(Some(facts.kind_spec())),
            (BoltPhase::Check { explain, facts }, BoltEvent::Present) => self.allowed_phase(
                explain,
                facts,
            ),
            (BoltPhase::Explain, BoltEvent::Explained) => bolt_done(BoltVerdict::Explained),
            (BoltPhase::Intake, BoltEvent::IntakeOpen) => BoltPhase::Lock,
            (BoltPhase::Intake, BoltEvent::IntakeDegraded) => bolt_done(BoltVerdict::WriteDegraded),
            (BoltPhase::Lock, BoltEvent::Gone) => gone(Some(QueryKind::Write)),
            (BoltPhase::Lock, BoltEvent::LockTimedOut) => bolt_done(BoltVerdict::Busy),
            (BoltPhase::Lock, BoltEvent::Locked) => BoltPhase::Apply,
            (BoltPhase::Apply, BoltEvent::Gone) => BoltPhase::Discard {
                recover: false,
                verdict: disconnected,
            },
            (BoltPhase::Apply, BoltEvent::StageFailed) => BoltPhase::Discard {
                recover: true,
                verdict: BoltVerdict::WriteFailed,
            },
            (BoltPhase::Apply, BoltEvent::Staged) => BoltPhase::Confirm,
            (BoltPhase::Confirm, BoltEvent::Gone) => BoltPhase::Discard {
                recover: false,
                verdict: disconnected,
            },
            (BoltPhase::Confirm, BoltEvent::Present) => if self.group {
                BoltPhase::Register
            } else {
                BoltPhase::Commit
            },
            (BoltPhase::Discard { recover, verdict }, BoltEvent::Discarded) => if recover {
                BoltPhase::Recover { verdict }
            } else {
                BoltPhase::Release { then_do: Afterwards::End { verdict } }
            },
            (BoltPhase::Recover { verdict }, BoltEvent::Recovered) => BoltPhase::Release {
                then_do: Afterwards::End { verdict },
            },
            (BoltPhase::Commit, BoltEvent::Committed) => BoltPhase::Publish,
            (BoltPhase::Commit, BoltEvent::CommitFailed) => BoltPhase::Discard {
                recover: true,
                verdict: BoltVerdict::CommitFailed,
            },
            (BoltPhase::Publish, BoltEvent::Published { stall }) => BoltPhase::Release {
                then_do: Afterwards::Committed { stall },
            },
            (BoltPhase::Register, BoltEvent::Registered { stall }) => BoltPhase::Release {
                then_do: Afterwards::Grouped { stall },
            },
            (BoltPhase::Release { then_do }, BoltEvent::Released) => match then_do {
                Afterwards::End { verdict } => bolt_done(verdict),
                Afterwards::Committed { stall } => BoltPhase::Linger { stall },
                Afterwards::Grouped { stall } => BoltPhase::Ack { stall },
            },
            (BoltPhase::Ack { stall }, BoltEvent::Acked) => if stall {
                BoltPhase::Stall
            } else {
                bolt_done(BoltVerdict::Written)
            },
            (BoltPhase::Ack { .. }, BoltEvent::AckFailed) => bolt_done(BoltVerdict::GroupFailed),
            (BoltPhase::Ack { .. }, BoltEvent::AckLost) => bolt_done(BoltVerdict::GroupLost),
            (BoltPhase::Linger { .. }, BoltEvent::Gone) => gone(Some(QueryKind::Write)),
            (BoltPhase::Linger { stall }, BoltEvent::Present) => if stall {
                BoltPhase::Stall
            } else {
                bolt_done(BoltVerdict::Written)
            },
            (BoltPhase::Stall, BoltEvent::Gone) => gone(Some(QueryKind::Write)),
            (BoltPhase::Stall, BoltEvent::Stalled) => bolt_done(BoltVerdict::Written),
            (BoltPhase::ScanPermit, BoltEvent::PermitHeld) => BoltPhase::Read,
            (BoltPhase::Read, BoltEvent::Gone) => gone(Some(QueryKind::Read)),
            (BoltPhase::Read, BoltEvent::Read) => bolt_done(BoltVerdict::Read),
            (BoltPhase::Read, BoltEvent::ReadFailed) => bolt_done(BoltVerdict::ReadFailed),
            (phase, _) => phase,
        }
    }

    /// The statement after an answer. An answer to something else changes
    /// nothing.
    pub open spec fn after(self, event: BoltEvent) -> BoltRun {
        BoltRun { phase: self.next_phase(event), ..self }
    }

    /// Whether the writer lock is held in this phase.
    pub open spec fn holds_writer(self) -> bool {
        match self.phase {
            BoltPhase::Schema { run } => run.holds_writer(),
            BoltPhase::Apply | BoltPhase::Confirm | BoltPhase::Discard { .. } => true,
            BoltPhase::Recover { .. } | BoltPhase::Commit | BoltPhase::Publish => true,
            BoltPhase::Register | BoltPhase::Release { .. } => true,
            _ => false,
        }
    }

    /// Whether the statement may have staged something that is neither committed
    /// nor the group's.
    pub open spec fn staging(self) -> bool {
        match self.phase {
            BoltPhase::Apply | BoltPhase::Confirm | BoltPhase::Discard { .. } => true,
            BoltPhase::Commit | BoltPhase::Register => true,
            _ => false,
        }
    }

    /// Whether the time spent in this phase is the statement's own. The delay
    /// that backpressure puts on a committed write is not.
    pub open spec fn timed(self) -> bool {
        !(self.phase is Linger) && !(self.phase is Stall) && !(self.phase is Done)
    }

    /// Whether the time spent in this phase is the statement's own: the clock is
    /// read when this ceases to hold.
    pub fn is_timed(self) -> (r: bool)
        ensures
            r == self.timed(),
    {
        match self.phase {
            BoltPhase::Linger { .. } | BoltPhase::Stall | BoltPhase::Done { .. } => false,
            _ => true,
        }
    }

    /// A statement that was just received.
    pub fn start(allows_write: bool, scan_gate: bool, group: bool) -> (run: BoltRun)
        ensures
            run == BoltRun::started(allows_write, scan_gate, group),
    {
        BoltRun { allows_write, scan_gate, group, phase: BoltPhase::Start }
    }

    /// Whether what is dropped in `Discard` is the whole pending batch. Under
    /// group commit the batch holds the writes of others too, and only this
    /// statement's own are rolled back.
    pub fn discards_whole_batch(self) -> (r: bool)
        ensures
            r == !self.group,
    {
        !self.group
    }

    /// Takes one answer in.
    pub fn advance(self, event: BoltEvent) -> (next: BoltRun)
        ensures
            next == self.after(event),
    {
        let disconnected = BoltVerdict::Disconnected { kind: Some(QueryKind::Write) };
        let phase = match (self.phase, event) {
            (BoltPhase::Start, BoltEvent::Gone) => BoltPhase::Done {
                verdict: BoltVerdict::Disconnected { kind: None },
            },
            (BoltPhase::Start, BoltEvent::Present) => BoltPhase::Parse,
            (BoltPhase::Parse, BoltEvent::ParseFailed) => BoltPhase::Done {
                verdict: BoltVerdict::ParseError,
            },
            (BoltPhase::Parse, BoltEvent::Parsed { statement }) => match statement {
                Statement::Schema { kind } => schema_phase(
                    SchemaRun::start(kind, self.allows_write, true),
                ),
                Statement::Show => BoltPhase::Show,
                Statement::Query { explain } => BoltPhase::Plan { explain },
            },
            (BoltPhase::Schema { run }, BoltEvent::Schema { event }) => schema_phase(
                run.advance(event),
            ),
            (BoltPhase::Show, BoltEvent::Shown) => BoltPhase::Done { verdict: BoltVerdict::Shown },
            (BoltPhase::Plan { .. }, BoltEvent::PlanFailed) => BoltPhase::Done {
                verdict: BoltVerdict::PlanError,
            },
            (BoltPhase::Plan { explain }, BoltEvent::Planned { facts }) => BoltPhase::Policy {
                explain,
                facts,
            },
            (BoltPhase::Policy { .. }, BoltEvent::Denied) => BoltPhase::Done {
                verdict: BoltVerdict::Denied,
            },
            (BoltPhase::Policy { explain, facts }, BoltEvent::Allowed) => BoltPhase::Check {
                explain,
                facts,
            },
            (BoltPhase::Check { facts, .. }, BoltEvent::Gone) => BoltPhase::Done {
                verdict: BoltVerdict::Disconnected { kind: Some(facts.kind()) },
            },
            (BoltPhase::Check { explain, facts }, BoltEvent::Present) => {
                if explain {
                    BoltPhase::Explain
                } else if facts.writes {
                    if self.allows_write {
                        BoltPhase::Intake
                    } else {
                        BoltPhase::Done { verdict: BoltVerdict::WriteReadOnly }
                    }
                } else if facts.scans && self.scan_gate {
                    BoltPhase::ScanPermit
                } else {
                    BoltPhase::Read
                }
            },
            (BoltPhase::Explain, BoltEvent::Explained) => BoltPhase::Done {
                verdict: BoltVerdict::Explained,
            },
            (BoltPhase::Intake, BoltEvent::IntakeOpen) => BoltPhase::Lock,
            (BoltPhase::Intake, BoltEvent::IntakeDegraded) => BoltPhase::Done {
                verdict: BoltVerdict::WriteDegraded,
            },
            (BoltPhase::Lock, BoltEvent::Gone) => BoltPhase::Done { verdict: disconnected },
            (BoltPhase::Lock, BoltEvent::LockTimedOut) => BoltPhase::Done {
                verdict: BoltVerdict::Busy,
            },
            (BoltPhase::Lock, BoltEvent::Locked) => BoltPhase::Apply,
            (BoltPhase::Apply, BoltEvent::Gone) => BoltPhase::Discard {
                recover: false,
                verdict: disconnected,
            },
            (BoltPhase::Apply, BoltEvent::StageFailed) => BoltPhase::Discard {
                recover: true,
                verdict: BoltVerdict::WriteFailed,
            },
            (BoltPhase::Apply, BoltEvent::Staged) => BoltPhase::Confirm,
            (BoltPhase::Confirm, BoltEvent::Gone) => BoltPhase::Discard {
                recover: false,
                verdict: disconnected,
            },
            (BoltPhase::Confirm, BoltEvent::Present) => {
                if self.group {
                    BoltPhase::Register
                } else {
                    BoltPhase::Commit
                }
            },
            (BoltPhase::Discard { recover, verdict }, BoltEvent::Discarded) => {
                if recover {
                    BoltPhase::Recover { verdict }
                } else {
                    BoltPhase::Release { then_do: Afterwards::End { verdict } }
                }
            },
            (BoltPhase::Recover { verdict }, BoltEvent::Recovered) => BoltPhase::Release {
                then_do: Afterwards::End { verdict },
            },
            (BoltPhase::Commit, BoltEvent::Committed) => BoltPhase::Publish,
            (BoltPhase::Commit, BoltEvent::CommitFailed) => BoltPhase::Discard {
                recover: true,
                verdict: BoltVerdict::CommitFailed,
            },
            (BoltPhase::Publish, BoltEvent::Published { stall }) => BoltPhase::Release {
                then_do: Afterwards::Committed { stall },
            },
            (BoltPhase::Register, BoltEvent::Registered { stall }) => BoltPhase::Release {
                then_do: Afterwards::Grouped { stall },
            },
            (BoltPhase::Release { then_do }, BoltEvent::Released) => match then_do {
                Afterwards::End { verdict } => BoltPhase::Done { verdict },
                Afterwards::Committed { stall } => BoltPhase::Linger { stall },
                Afterwards::Grouped { stall } => BoltPhase::Ack { stall },
            },
            (BoltPhase::Ack { stall }, BoltEvent::Acked) => {
                if stall {
                    BoltPhase::Stall
                } else {
                    BoltPhase::Done { verdict: BoltVerdict::Written }
                }
            },
            (BoltPhase::Ack { .. }, BoltEvent::AckFailed) => BoltPhase::Done {
                verdict: BoltVerdict::GroupFailed,
            },
            (BoltPhase::Ack { .. }, BoltEvent::AckLost) => BoltPhase::Done {
                verdict: BoltVerdict::GroupLost,
            },
            (BoltPhase::Linger { .. }, BoltEvent::Gone) => BoltPhase::Done {
                verdict: disconnected,
            },
            (BoltPhase::Linger { stall }, BoltEvent::Present) => {
                if stall {
                    BoltPhase::Stall
                } else {
                    BoltPhase::Done { verdict: BoltVerdict::Written }
                }
            },
            (BoltPhase::Stall, BoltEvent::Gone) => BoltPhase::Done { verdict: disconnected },
            (BoltPhase::Stall, BoltEvent::Stalled) => BoltPhase::Done {
                verdict: BoltVerdict::Written,
            },
            (BoltPhase::ScanPermit, BoltEvent::PermitHeld) => BoltPhase::Read,
            (BoltPhase::Read, BoltEvent::Gone) => BoltPhase::Done {
                verdict: BoltVerdict::Disconnected { kind: Some(QueryKind::Read) },
            },
            (BoltPhase::Read, BoltEvent::Read) => BoltPhase::Done { verdict: BoltVerdict::Read },
            (BoltPhase::Read, BoltEvent::ReadFailed) => BoltPhase::Done {
                verdict: BoltVerdict::ReadFailed,
            },
            (phase, _) => phase,
        };
        BoltRun {
            allows_write: self.allows_write,
            scan_gate: self.scan_gate,
            group: self.group,
            phase,
        }
    }
}

/// The statement after a whole series of answers.
pub open spec fn bolt_trace(run: BoltRun, events: Seq<BoltEvent>) -> BoltRun
    decreases events.len(),
{
    if events.len() == 0 {
        run
    } else {
        bolt_trace(run, events.drop_last()).after(events.last())
    }
}

/// The answer that the committed state was published.
pub open spec fn published_event(stall: bool) -> BoltEvent {
    BoltEvent::Published { stall }
}

/// What has been answered to reach a phase.
pub open spec fn bolt_gates_passed(run: BoltRun, events: Seq<BoltEvent>) -> bool {
    let allowed = events.contains(BoltEvent::Allowed);
    let may_write = allowed && run.allows_write;
    let open = may_write && events.contains(BoltEvent::IntakeOpen);
    let staged = open && events.contains(BoltEvent::Staged);
    let committed = staged && events.contains(BoltEvent::Committed);
    let published = committed && exists|stall: bool|
        events.contains(#[trigger] published_event(stall));
    let durable = if run.group {
        staged && events.contains(BoltEvent::Acked)
    } else {
        published
    };
    match run.phase {
        BoltPhase::Schema { .. } => run.allows_write,
        BoltPhase::Check { .. } | BoltPhase::Explain | BoltPhase::ScanPermit
        | BoltPhase::Read => allowed,
        BoltPhase::Intake => may_write,
        BoltPhase::Lock | BoltPhase::Apply | BoltPhase::Discard { .. }
        | BoltPhase::Recover { .. } => open,
        BoltPhase::Confirm | BoltPhase::Commit | BoltPhase::Register | BoltPhase::Ack {
            ..
        } => staged,
        BoltPhase::Publish => committed,
        BoltPhase::Linger { .. } => published,
        BoltPhase::Release { then_do } => match then_do {
            Afterwards::End { .. } => open,
            Afterwards::Committed { .. } => published,
            Afterwards::Grouped { .. } => staged,
        },
        BoltPhase::Stall => durable,
        BoltPhase::Done { verdict } => match verdict {
            BoltVerdict::Read | BoltVerdict::ReadFailed | BoltVerdict::Explained => allowed,
            BoltVerdict::Busy | BoltVerdict::WriteFailed | BoltVerdict::CommitFailed => open,
            BoltVerdict::Written => durable,
            BoltVerdict::WriteReadOnly => !run.allows_write,
            _ => true,
        },
        _ => true,
    }
}

/// Whether a verdict is one that a statement ends with after dropping what it
/// staged.
pub open spec fn is_undone(verdict: BoltVerdict) -> bool {
    ||| verdict == (BoltVerdict::Disconnected { kind: Some(QueryKind::Write) })
    ||| verdict is WriteFailed
    ||| verdict is CommitFailed
}

/// Whatever answers come, a statement is executed only after the policy allowed
/// its plan, it waits for the writer only for a caller who may write and while
/// local persistence is in order, and it reports a write only when that was
/// committed and published, or committed with its group.
pub proof fn law_bolt_gates(
    allows_write: bool,
    scan_gate: bool,
    group: bool,
    events: Seq<BoltEvent>,
)
    ensures
        ({
            let run = bolt_trace(BoltRun::started(allows_write, scan_gate, group), events);
            &&& run == (BoltRun {
                phase: run.phase,
                ..BoltRun::started(allows_write, scan_gate, group)
            })
            &&& bolt_gates_passed(run, events)
            &&& run.phase is Commit || run.phase is Publish ==> !group
            &&& run.phase is Register || run.phase is Ack ==> group
            &&& run.phase matches BoltPhase::Release { then_do } ==> (then_do is Grouped ==> group)
                && (then_do is Committed ==> !group)
            &&& run.phase is Linger ==> !group
            &&& run.phase matches BoltPhase::Discard { verdict, .. } ==> is_undone(verdict)
            &&& run.phase matches BoltPhase::Recover { verdict } ==> is_undone(verdict)
            &&& run.phase matches BoltPhase::Release { then_do: Afterwards::End { verdict } }
                ==> is_undone(verdict)
        }),
    decreases events.len(),
{
    if events.len() > 0 {
        let before = events.drop_last();
        law_bolt_gates(allows_write, scan_gate, group, before);
        assert forall|e: BoltEvent| before.contains(e) implies events.contains(e) by {
            let i = choose|i: int| 0 <= i < before.len() && before[i] == e;
            assert(events[i] == e);
        }
        assert(events.contains(events.last())) by {
            assert(events[events.len() - 1] == events.last());
        }
        if events.last() is Published {
            assert(events.last() == published_event(events.last()->Published_stall));
        }
    }
}

/// A statement never ends with the writer lock held: the lock comes from an
/// answer to the wait for it, and goes by the release alone.
pub proof fn law_bolt_release(run: BoltRun, event: BoltEvent)
    ensures
        run.phase is Done ==> run.after(event) == run && !run.holds_writer(),
        run.phase is Stall || run.phase is Ack || run.phase is Linger ==> !run.holds_writer(),
        run.holds_writer() && !run.after(event).holds_writer() ==> event is Released || event == (
        BoltEvent::Schema { event: SchemaEvent::Released }),
        !run.holds_writer() && run.after(event).holds_writer() ==> event is Locked || (
        event matches BoltEvent::Schema { event: e } && e is Locked),
{
}

/// The clock of a statement stops once, with the writer lock free again, and the
/// delay that backpressure adds comes after.
pub proof fn law_bolt_clock(run: BoltRun, event: BoltEvent)
    ensures
        !run.timed() ==> !run.after(event).timed(),
        !run.timed() ==> !run.holds_writer(),
        run.after(event).phase is Stall && run.timed() ==> run.phase is Ack && event is Acked,
{
}

/// What a statement stages is never left behind: it ceases to be pending only by
/// a commit, by joining its group, or by being dropped.
pub proof fn law_nothing_staged_is_left_behind(run: BoltRun, event: BoltEvent)
    ensures
        run.staging() && !run.after(event).staging() ==> event is Committed || event is Registered
            || event is Discarded,
        run.staging() ==> run.holds_writer(),
{
}

/// A client that goes away gives a statement up before its commit and no later:
/// during the commit itself nothing listens to it, and an applied write that was
/// not committed is dropped.
pub proof fn law_disconnect_never_tears_a_commit(run: BoltRun)
    ensures
        run.phase is Commit || run.phase is Publish || run.phase is Register || run.phase is Ack
            || run.phase is Release || run.phase is Recover ==> run.after(BoltEvent::Gone) == run,
        run.phase is Apply || run.phase is Confirm ==> run.after(BoltEvent::Gone).phase == (
        BoltPhase::Discard {
            recover: false,
            verdict: BoltVerdict::Disconnected { kind: Some(QueryKind::Write) },
        }),
{
}

/// The answers that a statement took in: those that it waited for when they came.
pub open spec fn bolt_heard(run: BoltRun, events: Seq<BoltEvent>) -> Seq<BoltEvent>
    decreases events.len(),
{
    if events.len() == 0 {
        Seq::empty()
    } else {
        let before = events.drop_last();
        let now = bolt_trace(run, before);
        if now.after(events.last()) == now {
            bolt_heard(run, before)
        } else {
            bolt_heard(run, before).push(events.last())
        }
    }
}

/// The plan among the answers that a statement took in: it is the third.
pub open spec fn heard_facts(heard: Seq<BoltEvent>) -> PlanFacts {
    heard[2]->facts
}

/// What a statement has been answered by the time the policy allowed its plan.
pub open spec fn bolt_allowed(explain: bool, facts: PlanFacts) -> Seq<BoltEvent> {
    seq![
        BoltEvent::Present,
        BoltEvent::Parsed { statement: Statement::Query { explain } },
        BoltEvent::Planned { facts },
        BoltEvent::Allowed,
    ]
}

/// What a write has been answered by the time it holds the writer.
pub open spec fn bolt_locked(facts: PlanFacts) -> Seq<BoltEvent> {
    bolt_allowed(false, facts).push(BoltEvent::Present).push(BoltEvent::IntakeOpen).push(
        BoltEvent::Locked,
    )
}

/// What a write has been answered by the time it is committed or joins its group.
pub open spec fn bolt_confirmed(facts: PlanFacts) -> Seq<BoltEvent> {
    bolt_locked(facts).push(BoltEvent::Staged).push(BoltEvent::Present)
}

/// What a write of its own has been answered by the time it gives the writer
/// back: it was committed, and what it committed was published.
pub open spec fn bolt_published(facts: PlanFacts, stall: bool) -> Seq<BoltEvent> {
    bolt_confirmed(facts).push(BoltEvent::Committed).push(BoltEvent::Published { stall })
}

/// What a write of a group has been answered by the time it gives the writer
/// back.
pub open spec fn bolt_registered(facts: PlanFacts, stall: bool) -> Seq<BoltEvent> {
    bolt_confirmed(facts).push(BoltEvent::Registered { stall })
}

/// What a write has been answered by the time nothing but the delay is left of
/// it: the writer is given back, and the client still there or the group
/// committed.
pub open spec fn bolt_landed(group: bool, facts: PlanFacts, stall: bool) -> Seq<BoltEvent> {
    if group {
        bolt_registered(facts, stall).push(BoltEvent::Released).push(BoltEvent::Acked)
    } else {
        bolt_published(facts, stall).push(BoltEvent::Released).push(BoltEvent::Present)
    }
}

/// What a write has been answered when what it staged is about to be dropped,
/// with the verdict that this leads to and whether the writer is looked after.
pub open spec fn bolt_drops(
    group: bool,
    recover: bool,
    verdict: BoltVerdict,
    heard: Seq<BoltEvent>,
) -> bool {
    let facts = heard_facts(heard);
    let left = BoltVerdict::Disconnected { kind: Some(QueryKind::Write) };
    &&& facts.writes
    &&& {
        ||| verdict == left && !recover && heard =~= bolt_locked(facts).push(BoltEvent::Gone)
        ||| verdict == left && !recover && heard =~= bolt_locked(facts).push(
            BoltEvent::Staged,
        ).push(BoltEvent::Gone)
        ||| verdict is WriteFailed && recover && heard =~= bolt_locked(facts).push(
            BoltEvent::StageFailed,
        )
        ||| verdict is CommitFailed && recover && !group && heard =~= bolt_confirmed(facts).push(
            BoltEvent::CommitFailed,
        )
    }
}

/// What a write has been answered when it gives the writer back with what it
/// staged dropped.
pub open spec fn bolt_dropped(group: bool, verdict: BoltVerdict, heard: Seq<BoltEvent>) -> bool {
    let once = heard.drop_last();
    let twice = once.drop_last();
    ||| {
        &&& heard.len() > 0
        &&& heard.last() == BoltEvent::Discarded
        &&& bolt_drops(group, false, verdict, once)
    }
    ||| {
        &&& heard.len() > 1
        &&& heard.last() == BoltEvent::Recovered
        &&& once.last() == BoltEvent::Discarded
        &&& bolt_drops(group, true, verdict, twice)
    }
}

/// Whether a read may run: its plan was allowed with the client there, and it
/// holds a permit if it scans and scans are metered.
pub open spec fn bolt_may_read(scan_gate: bool, facts: PlanFacts, heard: Seq<BoltEvent>) -> bool {
    let allowed = bolt_allowed(false, facts).push(BoltEvent::Present);
    &&& !facts.writes
    &&& heard =~= if facts.scans && scan_gate {
        allowed.push(BoltEvent::PermitHeld)
    } else {
        allowed
    }
}

/// The answers that a schema command took in.
pub open spec fn schema_part(heard: Seq<BoltEvent>) -> Seq<SchemaEvent> {
    heard.map_values(|e: BoltEvent| e->Schema_event)
}

/// Whether the answers are those of a schema command, which stands at `run`
/// after them.
pub open spec fn bolt_schema_story(
    allows_write: bool,
    run: SchemaRun,
    heard: Seq<BoltEvent>,
) -> bool {
    &&& heard.len() >= 2
    &&& heard[0] == BoltEvent::Present
    &&& heard[1] == (BoltEvent::Parsed { statement: Statement::Schema { kind: run.kind } })
    &&& forall|i: int| 2 <= i < heard.len() ==> #[trigger] heard[i] is Schema
    &&& run == schema_trace(
        SchemaRun::started(run.kind, allows_write, true),
        schema_part(heard.skip(2)),
    )
}

/// What a statement has been answered, one after the other, when its client was
/// found gone, and the kind that it is counted under.
pub open spec fn bolt_left(
    run: BoltRun,
    kind: Option<QueryKind>,
    heard: Seq<BoltEvent>,
) -> bool {
    let facts = heard_facts(heard);
    let so_far = heard.drop_last();
    ||| kind is None && heard =~= seq![BoltEvent::Gone]
    ||| {
        &&& heard.len() > 0
        &&& heard.last() == BoltEvent::Gone
        &&& {
            ||| kind == Some(facts.kind_spec()) && exists|explain: bool|
                so_far =~= #[trigger] bolt_allowed(explain, facts)
            ||| kind == Some(QueryKind::Read) && bolt_may_read(run.scan_gate, facts, so_far)
            ||| kind == Some(QueryKind::Write) && facts.writes && run.allows_write && {
                ||| so_far =~= bolt_allowed(false, facts).push(BoltEvent::Present).push(
                    BoltEvent::IntakeOpen,
                )
                ||| !run.group && exists|stall: bool|
                    so_far =~= (#[trigger] bolt_published(facts, stall)).push(BoltEvent::Released)
                ||| so_far =~= bolt_landed(run.group, facts, true)
            }
        }
    }
    ||| {
        &&& run.allows_write
        &&& heard.len() > 0
        &&& heard.last() == BoltEvent::Released
        &&& bolt_dropped(run.group, BoltVerdict::Disconnected { kind }, so_far)
    }
}

/// What a statement has been answered, one after the other, where it stands.
pub open spec fn bolt_story(run: BoltRun, heard: Seq<BoltEvent>) -> bool {
    let facts = heard_facts(heard);
    let writing = run.allows_write && facts.writes;
    match run.phase {
        BoltPhase::Start => heard.len() == 0,
        BoltPhase::Parse => heard =~= seq![BoltEvent::Present],
        BoltPhase::Schema { run: schema } => !(schema.phase is Done) && bolt_schema_story(
            run.allows_write,
            schema,
            heard,
        ),
        BoltPhase::Show => heard =~= seq![
            BoltEvent::Present,
            BoltEvent::Parsed { statement: Statement::Show },
        ],
        BoltPhase::Plan { explain } => heard =~= seq![
            BoltEvent::Present,
            BoltEvent::Parsed { statement: Statement::Query { explain } },
        ],
        BoltPhase::Policy { explain, facts } => heard =~= seq![
            BoltEvent::Present,
            BoltEvent::Parsed { statement: Statement::Query { explain } },
            BoltEvent::Planned { facts },
        ],
        BoltPhase::Check { explain, facts } => heard =~= bolt_allowed(explain, facts),
        BoltPhase::Explain => heard =~= bolt_allowed(true, facts).push(BoltEvent::Present),
        BoltPhase::Intake => writing && heard =~= bolt_allowed(false, facts).push(
            BoltEvent::Present,
        ),
        BoltPhase::Lock => writing && heard =~= bolt_allowed(false, facts).push(
            BoltEvent::Present,
        ).push(BoltEvent::IntakeOpen),
        BoltPhase::Apply => writing && heard =~= bolt_locked(facts),
        BoltPhase::Confirm => writing && heard =~= bolt_locked(facts).push(BoltEvent::Staged),
        BoltPhase::Discard { recover, verdict } => run.allows_write && bolt_drops(
            run.group,
            recover,
            verdict,
            heard,
        ),
        BoltPhase::Recover { verdict } => run.allows_write && heard.len() > 0 && heard.last()
            == BoltEvent::Discarded && bolt_drops(run.group, true, verdict, heard.drop_last()),
        BoltPhase::Commit => writing && !run.group && heard =~= bolt_confirmed(facts),
        BoltPhase::Publish => writing && !run.group && heard =~= bolt_confirmed(facts).push(
            BoltEvent::Committed,
        ),
        BoltPhase::Register => writing && run.group && heard =~= bolt_confirmed(facts),
        BoltPhase::Release { then_do } => match then_do {
            Afterwards::End { verdict } => run.allows_write && bolt_dropped(
                run.group,
                verdict,
                heard,
            ),
            Afterwards::Committed { stall } => writing && !run.group && heard =~= bolt_published(
                facts,
                stall,
            ),
            Afterwards::Grouped { stall } => writing && run.group && heard =~= bolt_registered(
                facts,
                stall,
            ),
        },
        BoltPhase::Ack { stall } => writing && run.group && heard =~= bolt_registered(
            facts,
            stall,
        ).push(BoltEvent::Released),
        BoltPhase::Linger { stall } => writing && !run.group && heard =~= bolt_published(
            facts,
            stall,
        ).push(BoltEvent::Released),
        BoltPhase::Stall => writing && heard =~= bolt_landed(run.group, facts, true),
        BoltPhase::ScanPermit => {
            &&& !facts.writes
            &&& facts.scans
            &&& run.scan_gate
            &&& heard =~= bolt_allowed(false, facts).push(BoltEvent::Present)
        },
        BoltPhase::Read => bolt_may_read(run.scan_gate, facts, heard),
        BoltPhase::Done { verdict } => bolt_ended(run, verdict, heard),
    }
}

/// What a statement has been answered, one after the other, when it ended with a
/// verdict.
pub open spec fn bolt_ended(run: BoltRun, verdict: BoltVerdict, heard: Seq<BoltEvent>) -> bool {
    let facts = heard_facts(heard);
    let so_far = heard.drop_last();
    let writing = run.allows_write && facts.writes;
    match verdict {
        BoltVerdict::Disconnected { kind } => bolt_left(run, kind, heard),
        BoltVerdict::ParseError => heard =~= seq![BoltEvent::Present, BoltEvent::ParseFailed],
        BoltVerdict::Schema { verdict } => exists|schema: SchemaRun|
            #![trigger bolt_schema_story(run.allows_write, schema, heard)]
            schema.phase == (SchemaPhase::Done { verdict }) && bolt_schema_story(
                run.allows_write,
                schema,
                heard,
            ),
        BoltVerdict::Shown => heard =~= seq![
            BoltEvent::Present,
            BoltEvent::Parsed { statement: Statement::Show },
            BoltEvent::Shown,
        ],
        BoltVerdict::PlanError => {
            &&& heard.len() == 3
            &&& heard[0] == BoltEvent::Present
            &&& heard[1] matches BoltEvent::Parsed { statement: Statement::Query { .. } }
            &&& heard[2] == BoltEvent::PlanFailed
        },
        BoltVerdict::Denied => exists|explain: bool|
            heard =~= (#[trigger] bolt_allowed(explain, facts)).drop_last().push(
                BoltEvent::Denied,
            ),
        BoltVerdict::Explained => heard =~= bolt_allowed(true, facts).push(
            BoltEvent::Present,
        ).push(BoltEvent::Explained),
        BoltVerdict::WriteReadOnly => {
            &&& !run.allows_write
            &&& facts.writes
            &&& heard =~= bolt_allowed(false, facts).push(BoltEvent::Present)
        },
        BoltVerdict::WriteDegraded => writing && heard =~= bolt_allowed(false, facts).push(
            BoltEvent::Present,
        ).push(BoltEvent::IntakeDegraded),
        BoltVerdict::Busy => writing && heard =~= bolt_allowed(false, facts).push(
            BoltEvent::Present,
        ).push(BoltEvent::IntakeOpen).push(BoltEvent::LockTimedOut),
        BoltVerdict::WriteFailed | BoltVerdict::CommitFailed => {
            &&& run.allows_write
            &&& heard.len() > 0
            &&& heard.last() == BoltEvent::Released
            &&& bolt_dropped(run.group, verdict, so_far)
        },
        BoltVerdict::GroupFailed => writing && run.group && exists|stall: bool|
            heard =~= (#[trigger] bolt_registered(facts, stall)).push(BoltEvent::Released).push(
                BoltEvent::AckFailed,
            ),
        BoltVerdict::GroupLost => writing && run.group && exists|stall: bool|
            heard =~= (#[trigger] bolt_registered(facts, stall)).push(BoltEvent::Released).push(
                BoltEvent::AckLost,
            ),
        BoltVerdict::Written => {
            &&& writing
            &&& {
                ||| heard =~= bolt_landed(run.group, facts, false)
                ||| heard =~= bolt_landed(run.group, facts, true).push(BoltEvent::Stalled)
            }
        },
        BoltVerdict::Read => bolt_may_read(run.scan_gate, facts, so_far) && heard =~= so_far.push(
            BoltEvent::Read,
        ),
        BoltVerdict::ReadFailed => bolt_may_read(run.scan_gate, facts, so_far) && heard
            =~= so_far.push(BoltEvent::ReadFailed),
        BoltVerdict::SchemaInTx { .. } | BoltVerdict::NoTransaction => false,
    }
}

/// One answer to a schema command carries its story on.
proof fn lemma_bolt_schema_step(
    allows_write: bool,
    run: SchemaRun,
    heard: Seq<BoltEvent>,
    event: SchemaEvent,
)
    requires
        bolt_schema_story(allows_write, run, heard),
    ensures
        bolt_schema_story(allows_write, run.after(event), heard.push(BoltEvent::Schema { event })),
{
    let more = heard.push(BoltEvent::Schema { event });
    assert(schema_part(more.skip(2)) =~= schema_part(heard.skip(2)).push(event));
    assert(schema_part(more.skip(2)).drop_last() =~= schema_part(heard.skip(2)));
}

/// One answer carries the story of a statement on.
#[verifier::rlimit(100)]
#[verifier::spinoff_prover]
proof fn lemma_bolt_story_step(run: BoltRun, heard: Seq<BoltEvent>, event: BoltEvent)
    requires
        bolt_story(run, heard),
        run.after(event) != run,
    ensures
        bolt_story(run.after(event), heard.push(event)),
{
    let more = heard.push(event);
    let next = run.after(event);
    assert(more.drop_last() =~= heard);
    assert(more.last() == event);
    if heard.len() > 2 {
        assert(heard_facts(more) == heard_facts(heard));
    }
    match run.phase {
        BoltPhase::Parse => {
            if let BoltEvent::Parsed { statement: Statement::Schema { kind } } = event {
                let schema = SchemaRun::started(kind, run.allows_write, true);
                assert(schema_part(more.skip(2)) =~= Seq::empty());
                assert(bolt_schema_story(next.allows_write, schema, more));
                if !run.allows_write {
                    let verdict = SchemaVerdict::ReadOnly;
                    assert(bolt_ended(next, BoltVerdict::Schema { verdict }, more));
                }
            }
            assert(bolt_story(next, more));
        },
        BoltPhase::Schema { run: schema } => {
            if let BoltEvent::Schema { event: answer } = event {
                lemma_bolt_schema_step(run.allows_write, schema, heard, answer);
                assert(bolt_schema_story(next.allows_write, schema.after(answer), more));
                if let SchemaPhase::Done { verdict } = schema.after(answer).phase {
                    assert(bolt_ended(next, BoltVerdict::Schema { verdict }, more));
                }
            }
            assert(bolt_story(next, more));
        },
        BoltPhase::Policy { explain, facts } => {
            assert(bolt_allowed(explain, facts).drop_last() =~= heard);
            assert(bolt_story(next, more));
        },
        BoltPhase::Check { explain, facts } => {
            assert(heard =~= bolt_allowed(explain, facts));
            assert(bolt_story(next, more));
        },
        BoltPhase::Ack { stall } => {
            assert(bolt_registered(heard_facts(heard), stall).push(BoltEvent::Released) =~= heard);
            assert(bolt_story(next, more));
        },
        BoltPhase::Linger { stall } => {
            assert(bolt_published(heard_facts(heard), stall).push(BoltEvent::Released) =~= heard);
            assert(bolt_story(next, more));
        },
        BoltPhase::Lock | BoltPhase::Apply | BoltPhase::Confirm | BoltPhase::Commit => {
            assert(bolt_story(next, more));
        },
        BoltPhase::Discard { .. } | BoltPhase::Recover { .. } => {
            assert(bolt_story(next, more));
        },
        BoltPhase::Release { .. } => {
            assert(bolt_story(next, more));
        },
        BoltPhase::Stall | BoltPhase::Read => {
            assert(bolt_story(next, more));
        },
        _ => {
            assert(bolt_story(next, more));
        },
    }
}

/// Over every series of answers, what a statement has been answered tells exactly
/// how far it came. A write is reported only after the client was looked for, the
/// plan allowed, the intake found open, the writer locked, the write staged and
/// the client found there again; then, without group commit, it was committed and
/// what it committed published before the writer was given back, and with it, it
/// joined the group, gave the writer back and was acknowledged; and the delay was
/// slept out exactly if backpressure called for it. What was staged and not
/// committed is dropped before the writer goes back, and every refusal, failure
/// and departure is reported as the one that was answered.
pub proof fn law_bolt_story(
    allows_write: bool,
    scan_gate: bool,
    group: bool,
    events: Seq<BoltEvent>,
)
    ensures
        ({
            let first = BoltRun::started(allows_write, scan_gate, group);
            let run = bolt_trace(first, events);
            &&& run == (BoltRun { phase: run.phase, ..first })
            &&& bolt_story(run, bolt_heard(first, events))
        }),
    decreases events.len(),
{
    if events.len() > 0 {
        let before = events.drop_last();
        law_bolt_story(allows_write, scan_gate, group, before);
        let first = BoltRun::started(allows_write, scan_gate, group);
        let now = bolt_trace(first, before);
        if now.after(events.last()) != now {
            lemma_bolt_story_step(now, bolt_heard(first, before), events.last());
        }
    }
}

/// A statement listens to the answers to what it asked, to all of them, and to
/// nothing else: no answer that it waits for is lost. The client is listened for
/// wherever the statement can be given up, and nowhere else.
pub proof fn law_bolt_listens(run: BoltRun, event: BoltEvent)
    requires
        run.phase matches BoltPhase::Schema { run: schema } ==> !(schema.phase is Done),
    ensures
        run.after(event) != run <==> match run.phase {
            BoltPhase::Start | BoltPhase::Check { .. } | BoltPhase::Confirm
            | BoltPhase::Linger { .. } => event is Present || event is Gone,
            BoltPhase::Parse => event is Parsed || event is ParseFailed,
            BoltPhase::Schema { run: schema } => event matches BoltEvent::Schema { event: answer }
                && schema.after(answer) != schema,
            BoltPhase::Show => event is Shown,
            BoltPhase::Plan { .. } => event is Planned || event is PlanFailed,
            BoltPhase::Policy { .. } => event is Allowed || event is Denied,
            BoltPhase::Explain => event is Explained,
            BoltPhase::Intake => event is IntakeOpen || event is IntakeDegraded,
            BoltPhase::Lock => event is Locked || event is LockTimedOut || event is Gone,
            BoltPhase::Apply => event is Staged || event is StageFailed || event is Gone,
            BoltPhase::Discard { .. } => event is Discarded,
            BoltPhase::Recover { .. } => event is Recovered,
            BoltPhase::Commit => event is Committed || event is CommitFailed,
            BoltPhase::Publish => event is Published,
            BoltPhase::Register => event is Registered,
            BoltPhase::Release { .. } => event is Released,
            BoltPhase::Ack { .. } => event is Acked || event is AckFailed || event is AckLost,
            BoltPhase::Stall => event is Stalled || event is Gone,
            BoltPhase::ScanPermit => event is PermitHeld,
            BoltPhase::Read => event is Read || event is ReadFailed || event is Gone,
            BoltPhase::Done { .. } => false,
        },
{
}

/// Whether an answer is a refusal, a failure or a departure.
pub open spec fn is_setback(event: BoltEvent) -> bool {
    ||| event is Gone || event is ParseFailed || event is PlanFailed || event is Denied
    ||| event is IntakeDegraded || event is LockTimedOut || event is StageFailed
    ||| event is CommitFailed || event is AckFailed || event is AckLost || event is ReadFailed
    ||| event == (BoltEvent::Slot { open: false })
}

/// What a verdict tells of the answers that led to it: whether there was a
/// setback among them, and the kind of the plan once it is known.
pub open spec fn bolt_verdict_counts(
    allows_write: bool,
    verdict: BoltVerdict,
    heard: Seq<BoltEvent>,
) -> bool {
    let facts = heard_facts(heard);
    let allowed = heard.len() > 3 && heard[2] is Planned && heard[3] is Allowed;
    let explain = heard[1] == (BoltEvent::Parsed { statement: Statement::Query { explain: true } });
    let refused = allowed && !explain && facts.writes && !allows_write;
    &&& verdict.ok_spec() ==> !refused && forall|i: int|
        0 <= i < heard.len() ==> !is_setback(#[trigger] heard[i])
    &&& !verdict.ok_spec() ==> refused || exists|i: int|
        0 <= i < heard.len() && is_setback(#[trigger] heard[i])
    &&& verdict is Explained || verdict is Shown ==> verdict.kind_spec() == Some(QueryKind::Read)
    &&& allowed && !(verdict is Explained) ==> verdict.kind_spec() == Some(
        if facts.writes {
            QueryKind::Write
        } else {
            QueryKind::Read
        },
    )
    &&& !allowed && !(verdict is Shown) ==> verdict.kind_spec() is None
}

/// Where the last answers stand among all of them.
proof fn lemma_last_heard(heard: Seq<BoltEvent>)
    ensures
        heard.len() > 0 ==> heard.last() == heard[heard.len() - 1],
        heard.len() > 1 ==> heard.drop_last().last() == heard[heard.len() - 2],
        heard.len() > 2 ==> heard.drop_last().drop_last().last() == heard[heard.len() - 3],
        heard.len() > 3 ==> heard.drop_last().drop_last().drop_last().last() == heard[heard.len()
            - 4],
{
}

/// The story of a statement that ended tells how it is counted.
#[verifier::rlimit(60)]
#[verifier::spinoff_prover]
proof fn lemma_bolt_counts(run: BoltRun, verdict: BoltVerdict, heard: Seq<BoltEvent>)
    requires
        bolt_ended(run, verdict, heard),
        !(verdict is Schema),
    ensures
        bolt_verdict_counts(run.allows_write, verdict, heard),
{
    lemma_last_heard(heard);
    let once = heard.drop_last();
    let twice = once.drop_last();
    let thrice = twice.drop_last();
    if heard.len() > 5 {
        assert(once[2] == heard[2] && once[3] == heard[3]);
        assert(twice[2] == heard[2] && twice[3] == heard[3]);
    }
    if heard.len() > 6 {
        assert(thrice[2] == heard[2] && thrice[3] == heard[3]);
    }
    match verdict {
        BoltVerdict::Disconnected { .. } => {
            if heard.last() == BoltEvent::Gone {
                assert(is_setback(heard[heard.len() - 1]));
            } else if once.last() == BoltEvent::Discarded {
                assert(is_setback(heard[heard.len() - 3]));
            } else {
                assert(is_setback(heard[heard.len() - 4]));
            }
            assert(bolt_verdict_counts(run.allows_write, verdict, heard));
        },
        BoltVerdict::WriteFailed | BoltVerdict::CommitFailed => {
            if once.last() == BoltEvent::Discarded {
                assert(is_setback(heard[heard.len() - 3]));
            } else {
                assert(is_setback(heard[heard.len() - 4]));
            }
            assert(bolt_verdict_counts(run.allows_write, verdict, heard));
        },
        BoltVerdict::Written => {
            assert(bolt_verdict_counts(run.allows_write, verdict, heard));
        },
        BoltVerdict::Read | BoltVerdict::Explained | BoltVerdict::Shown => {
            assert(bolt_verdict_counts(run.allows_write, verdict, heard));
        },
        BoltVerdict::WriteReadOnly => {
            assert(bolt_verdict_counts(run.allows_write, verdict, heard));
        },
        _ => {
            assert(is_setback(heard[heard.len() - 1]));
            assert(bolt_verdict_counts(run.allows_write, verdict, heard));
        },
    }
}

/// A statement other than a schema command succeeds exactly if nothing that it was
/// answered is a refusal, a failure or a departure, and it does not ask a caller
/// to write who may only read. It is counted under the kind of its plan once that
/// was allowed, and under none before; a rendered plan and a look at the schema
/// count as reads.
pub proof fn law_bolt_counts(
    allows_write: bool,
    scan_gate: bool,
    group: bool,
    events: Seq<BoltEvent>,
)
    ensures
        ({
            let first = BoltRun::started(allows_write, scan_gate, group);
            bolt_trace(first, events).phase matches BoltPhase::Done { verdict } ==> verdict
                is Schema || bolt_verdict_counts(
                allows_write,
                verdict,
                bolt_heard(first, events),
            )
        }),
{
    let first = BoltRun::started(allows_write, scan_gate, group);
    let run = bolt_trace(first, events);
    law_bolt_story(allows_write, scan_gate, group, events);
    if let BoltPhase::Done { verdict } = run.phase {
        if !(verdict is Schema) {
            lemma_bolt_counts(run, verdict, bolt_heard(first, events));
        }
    }
}

/// A schema command that was applied is a success counted as a write; one that the
/// policy denied is counted under no kind, and every other is a write that failed.
pub proof fn law_bolt_counts_schema(verdict: SchemaVerdict)
    ensures
        ({
            let v = BoltVerdict::Schema { verdict };
            &&& v.ok_spec() <==> verdict == SchemaVerdict::Applied
            &&& v.kind_spec() is None <==> verdict == SchemaVerdict::Denied
            &&& v.kind_spec() is Some ==> v.kind_spec() == Some(QueryKind::Write)
        }),
{
}

impl BoltRun {
    /// How much of the way is still ahead.
    pub open spec fn ahead(self) -> nat {
        match self.phase {
            BoltPhase::Start => 22,
            BoltPhase::Parse => 21,
            BoltPhase::Schema { run } => 1 + run.ahead(),
            BoltPhase::Plan { .. } => 20,
            BoltPhase::Policy { .. } => 19,
            BoltPhase::Check { .. } => 18,
            BoltPhase::Intake => 17,
            BoltPhase::Lock => 16,
            BoltPhase::Apply => 15,
            BoltPhase::Confirm => 14,
            BoltPhase::Commit => 13,
            BoltPhase::Register => 12,
            BoltPhase::Publish => 11,
            BoltPhase::Discard { .. } => 10,
            BoltPhase::Recover { .. } => 9,
            BoltPhase::Release { .. } => 8,
            BoltPhase::Ack { .. } => 7,
            BoltPhase::Linger { .. } => 6,
            BoltPhase::Stall => 5,
            BoltPhase::ScanPermit => 2,
            BoltPhase::Show | BoltPhase::Explain | BoltPhase::Read => 1,
            BoltPhase::Done { .. } => 0,
        }
    }
}

/// A statement never goes back: an answer that it waits for brings it nearer to
/// its end, and every other answer leaves it where it is.
pub proof fn law_bolt_progress(run: BoltRun, event: BoltEvent)
    ensures
        run.after(event) == run || run.after(event).ahead() < run.ahead(),
{
}

/// `EXPLAIN` renders and never executes, and a read neither waits for the writer
/// nor is kept out by the state of local persistence.
pub proof fn law_bolt_explains_and_reads_are_free(run: BoltRun, event: BoltEvent)
    ensures
        match run.phase {
            BoltPhase::Plan { explain: true } => {
                let next = run.after(event).phase;
                next == run.phase || (next matches BoltPhase::Policy { explain, .. } && explain)
                    || next is Done
            },
            BoltPhase::Policy { explain: true, .. } => {
                let next = run.after(event).phase;
                next == run.phase || (next matches BoltPhase::Check { explain, .. } && explain)
                    || next is Done
            },
            BoltPhase::Check { explain: true, .. } => {
                let next = run.after(event).phase;
                next == run.phase || next is Explain || next is Done
            },
            BoltPhase::Explain => {
                let next = run.after(event).phase;
                next is Explain || next is Done
            },
            BoltPhase::Check { explain: false, facts } if !facts.writes => {
                let next = run.after(event).phase;
                next == run.phase || next is Done || next is ScanPermit || next is Read
            },
            BoltPhase::ScanPermit | BoltPhase::Read => {
                let next = run.after(event).phase;
                next == run.phase || next is Read || next is Done
            },
            _ => true,
        },
{
}

// ---------------------------------------------------------------------------
// Inside a transaction
// ---------------------------------------------------------------------------

/// Where a statement of a transaction stands.
#[derive(Debug, Clone, Copy, PartialEq, Eq, Structural)]
pub enum TxPhase {
    Start,
    Parse,
    Plan { explain: bool },
    Policy { explain: bool, facts: PlanFacts },
    Check { facts: PlanFacts },
    /// The plan is rendered, while the client is there. Neither the transaction
    /// nor its batch is touched.
    Explain { facts: PlanFacts },
    /// The transaction slot is waited for, while the client is there.
    Slot { facts: PlanFacts },
    /// The write is staged into the transaction's batch, while the client is
    /// there.
    Apply,
    /// The transaction's whole batch is dropped: a failed statement aborts it.
    Discard { verdict: BoltVerdict },
    ScanPermit,
    /// The read runs over what the transaction has staged, while the client is
    /// there.
    Read,
    Done { verdict: BoltVerdict },
}

/// One statement of a transaction on its way through the gates.
#[derive(Debug, Clone, Copy, PartialEq, Eq, Structural)]
pub struct TxRun {
    pub allows_write: bool,
    pub scan_gate: bool,
    pub phase: TxPhase,
}

/// A verdict.
pub open spec fn tx_done(verdict: BoltVerdict) -> TxPhase {
    TxPhase::Done { verdict }
}

impl TxRun {
    /// A statement that was just received.
    pub open spec fn started(allows_write: bool, scan_gate: bool) -> TxRun {
        TxRun { allows_write, scan_gate, phase: TxPhase::Start }
    }

    /// The phase after an answer. A look at the schema has no answer of its own
    /// here: it goes to the planner like any other statement, and what the
    /// planner says of it decides.
    pub open spec fn next_phase(self, event: BoltEvent) -> TxPhase {
        match (self.phase, event) {
            (TxPhase::Start, BoltEvent::Gone) => tx_done(BoltVerdict::Disconnected { kind: None }),
            (TxPhase::Start, BoltEvent::Present) => TxPhase::Parse,
            (TxPhase::Parse, BoltEvent::ParseFailed) => tx_done(BoltVerdict::ParseError),
            (TxPhase::Parse, BoltEvent::Parsed { statement }) => match statement {
                Statement::Schema { kind } => tx_done(BoltVerdict::SchemaInTx { command: kind }),
                Statement::Show => TxPhase::Plan { explain: false },
                Statement::Query { explain } => TxPhase::Plan { explain },
            },
            (TxPhase::Plan { .. }, BoltEvent::PlanFailed) => tx_done(BoltVerdict::PlanError),
            (TxPhase::Plan { explain }, BoltEvent::Planned { facts }) => TxPhase::Policy {
                explain,
                facts,
            },
            (TxPhase::Policy { .. }, BoltEvent::Denied) => tx_done(BoltVerdict::Denied),
            (TxPhase::Policy { explain, facts }, BoltEvent::Allowed) => if explain {
                TxPhase::Explain { facts }
            } else {
                TxPhase::Check { facts }
            },
            (TxPhase::Explain { facts }, BoltEvent::Gone) => tx_done(
                BoltVerdict::Disconnected { kind: Some(facts.kind_spec()) },
            ),
            (TxPhase::Explain { .. }, BoltEvent::Explained) => tx_done(BoltVerdict::Explained),
            (TxPhase::Check { facts }, BoltEvent::Gone) => tx_done(
                BoltVerdict::Disconnected { kind: Some(facts.kind_spec()) },
            ),
            (TxPhase::Check { facts }, BoltEvent::Present) => if facts.writes
                && !self.allows_write {
                tx_done(BoltVerdict::WriteReadOnly)
            } else {
                TxPhase::Slot { facts }
            },
            (TxPhase::Slot { facts }, BoltEvent::Gone) => tx_done(
                BoltVerdict::Disconnected { kind: Some(facts.kind_spec()) },
            ),
            (TxPhase::Slot { facts }, BoltEvent::Slot { open }) => if !open {
                tx_done(BoltVerdict::NoTransaction)
            } else if facts.writes {
                TxPhase::Apply
            } else if facts.scans && self.scan_gate {
                TxPhase::ScanPermit
            } else {
                TxPhase::Read
            },
            (TxPhase::Apply, BoltEvent::Staged) => tx_done(BoltVerdict::Written),
            (TxPhase::Apply, BoltEvent::StageFailed) => TxPhase::Discard {
                verdict: BoltVerdict::WriteFailed,
            },
            (TxPhase::Apply, BoltEvent::Gone) => TxPhase::Discard {
                verdict: BoltVerdict::Disconnected { kind: Some(QueryKind::Write) },
            },
            (TxPhase::Discard { verdict }, BoltEvent::Discarded) => tx_done(verdict),
            (TxPhase::ScanPermit, BoltEvent::PermitHeld) => TxPhase::Read,
            (TxPhase::Read, BoltEvent::Gone) => tx_done(
                BoltVerdict::Disconnected { kind: Some(QueryKind::Read) },
            ),
            (TxPhase::Read, BoltEvent::Read) => tx_done(BoltVerdict::Read),
            (TxPhase::Read, BoltEvent::ReadFailed) => tx_done(BoltVerdict::ReadFailed),
            (phase, _) => phase,
        }
    }

    /// The statement after an answer. An answer to something else changes
    /// nothing.
    pub open spec fn after(self, event: BoltEvent) -> TxRun {
        TxRun { phase: self.next_phase(event), ..self }
    }

    /// A statement that was just received.
    pub fn start(allows_write: bool, scan_gate: bool) -> (run: TxRun)
        ensures
            run == TxRun::started(allows_write, scan_gate),
    {
        TxRun { allows_write, scan_gate, phase: TxPhase::Start }
    }

    /// Takes one answer in.
    pub fn advance(self, event: BoltEvent) -> (next: TxRun)
        ensures
            next == self.after(event),
    {
        let phase = match (self.phase, event) {
            (TxPhase::Start, BoltEvent::Gone) => TxPhase::Done {
                verdict: BoltVerdict::Disconnected { kind: None },
            },
            (TxPhase::Start, BoltEvent::Present) => TxPhase::Parse,
            (TxPhase::Parse, BoltEvent::ParseFailed) => TxPhase::Done {
                verdict: BoltVerdict::ParseError,
            },
            (TxPhase::Parse, BoltEvent::Parsed { statement }) => match statement {
                Statement::Schema { kind } => TxPhase::Done {
                    verdict: BoltVerdict::SchemaInTx { command: kind },
                },
                Statement::Show => TxPhase::Plan { explain: false },
                Statement::Query { explain } => TxPhase::Plan { explain },
            },
            (TxPhase::Plan { .. }, BoltEvent::PlanFailed) => TxPhase::Done {
                verdict: BoltVerdict::PlanError,
            },
            (TxPhase::Plan { explain }, BoltEvent::Planned { facts }) => TxPhase::Policy {
                explain,
                facts,
            },
            (TxPhase::Policy { .. }, BoltEvent::Denied) => TxPhase::Done {
                verdict: BoltVerdict::Denied,
            },
            (TxPhase::Policy { explain, facts }, BoltEvent::Allowed) => {
                if explain {
                    TxPhase::Explain { facts }
                } else {
                    TxPhase::Check { facts }
                }
            },
            (TxPhase::Explain { facts }, BoltEvent::Gone) => TxPhase::Done {
                verdict: BoltVerdict::Disconnected { kind: Some(facts.kind()) },
            },
            (TxPhase::Explain { .. }, BoltEvent::Explained) => TxPhase::Done {
                verdict: BoltVerdict::Explained,
            },
            (TxPhase::Check { facts }, BoltEvent::Gone) => TxPhase::Done {
                verdict: BoltVerdict::Disconnected { kind: Some(facts.kind()) },
            },
            (TxPhase::Check { facts }, BoltEvent::Present) => {
                if facts.writes && !self.allows_write {
                    TxPhase::Done { verdict: BoltVerdict::WriteReadOnly }
                } else {
                    TxPhase::Slot { facts }
                }
            },
            (TxPhase::Slot { facts }, BoltEvent::Gone) => TxPhase::Done {
                verdict: BoltVerdict::Disconnected { kind: Some(facts.kind()) },
            },
            (TxPhase::Slot { facts }, BoltEvent::Slot { open }) => {
                if !open {
                    TxPhase::Done { verdict: BoltVerdict::NoTransaction }
                } else if facts.writes {
                    TxPhase::Apply
                } else if facts.scans && self.scan_gate {
                    TxPhase::ScanPermit
                } else {
                    TxPhase::Read
                }
            },
            (TxPhase::Apply, BoltEvent::Staged) => TxPhase::Done { verdict: BoltVerdict::Written },
            (TxPhase::Apply, BoltEvent::StageFailed) => TxPhase::Discard {
                verdict: BoltVerdict::WriteFailed,
            },
            (TxPhase::Apply, BoltEvent::Gone) => TxPhase::Discard {
                verdict: BoltVerdict::Disconnected { kind: Some(QueryKind::Write) },
            },
            (TxPhase::Discard { verdict }, BoltEvent::Discarded) => TxPhase::Done { verdict },
            (TxPhase::ScanPermit, BoltEvent::PermitHeld) => TxPhase::Read,
            (TxPhase::Read, BoltEvent::Gone) => TxPhase::Done {
                verdict: BoltVerdict::Disconnected { kind: Some(QueryKind::Read) },
            },
            (TxPhase::Read, BoltEvent::Read) => TxPhase::Done { verdict: BoltVerdict::Read },
            (TxPhase::Read, BoltEvent::ReadFailed) => TxPhase::Done {
                verdict: BoltVerdict::ReadFailed,
            },
            (phase, _) => phase,
        };
        TxRun { allows_write: self.allows_write, scan_gate: self.scan_gate, phase }
    }
}

/// The statement after a whole series of answers.
pub open spec fn tx_trace(run: TxRun, events: Seq<BoltEvent>) -> TxRun
    decreases events.len(),
{
    if events.len() == 0 {
        run
    } else {
        tx_trace(run, events.drop_last()).after(events.last())
    }
}

/// Whatever answers come, a statement of a transaction runs only in an open
/// transaction and after the policy allowed its plan, it stages only for a
/// caller who may write, and it commits nothing.
pub proof fn law_tx_gates(allows_write: bool, scan_gate: bool, events: Seq<BoltEvent>)
    ensures
        ({
            let run = tx_trace(TxRun::started(allows_write, scan_gate), events);
            let allowed = events.contains(BoltEvent::Allowed);
            let open = events.contains(BoltEvent::Slot { open: true });
            &&& run == (TxRun { phase: run.phase, ..TxRun::started(allows_write, scan_gate) })
            &&& match run.phase {
                TxPhase::Check { .. } | TxPhase::Explain { .. } => allowed,
                TxPhase::Slot { facts } => allowed && (facts.writes ==> allows_write),
                TxPhase::Apply => allowed && open && allows_write,
                TxPhase::Discard { verdict } => allowed && open && allows_write && is_undone(
                    verdict,
                ),
                TxPhase::ScanPermit | TxPhase::Read => allowed && open,
                TxPhase::Done { verdict } => match verdict {
                    BoltVerdict::Written => allowed && open && allows_write && events.contains(
                        BoltEvent::Staged,
                    ),
                    BoltVerdict::WriteFailed => allowed && open && allows_write,
                    BoltVerdict::Read | BoltVerdict::ReadFailed => allowed && open,
                    BoltVerdict::Explained => allowed,
                    _ => true,
                },
                _ => true,
            }
        }),
    decreases events.len(),
{
    if events.len() > 0 {
        let before = events.drop_last();
        law_tx_gates(allows_write, scan_gate, before);
        assert forall|e: BoltEvent| before.contains(e) implies events.contains(e) by {
            let i = choose|i: int| 0 <= i < before.len() && before[i] == e;
            assert(events[i] == e);
        }
        assert(events.contains(events.last())) by {
            assert(events[events.len() - 1] == events.last());
        }
    }
}

impl TxRun {
    /// Whether the statement is one to explain.
    pub open spec fn explaining(self) -> bool {
        match self.phase {
            TxPhase::Plan { explain } => explain,
            TxPhase::Policy { explain, .. } => explain,
            TxPhase::Explain { .. } => true,
            _ => false,
        }
    }
}

/// `EXPLAIN` inside a transaction renders and never executes, whatever answers
/// come: the statement neither stages nor drops anything and reads nothing, and a
/// success is the rendered plan, counted as a read.
pub proof fn law_tx_explain_never_executes(run: TxRun, events: Seq<BoltEvent>)
    requires
        run.explaining(),
    ensures
        ({
            let now = tx_trace(run, events);
            &&& now.explaining() || now.phase is Done
            &&& !(now.phase is Apply) && !(now.phase is Discard) && !(now.phase is Read)
            &&& now.phase matches TxPhase::Done { verdict } ==> {
                &&& verdict is PlanError || verdict is Denied || verdict is Disconnected
                    || verdict is Explained
                &&& verdict.ok_spec() ==> verdict is Explained && verdict.kind_spec() == Some(
                    QueryKind::Read,
                )
            }
        }),
        (TxRun { phase: TxPhase::Parse, ..run }).after(
            BoltEvent::Parsed { statement: Statement::Query { explain: true } },
        ).explaining(),
    decreases events.len(),
{
    if events.len() > 0 {
        law_tx_explain_never_executes(run, events.drop_last());
    }
}

/// A statement that fails or is given up while it stages takes the transaction's
/// whole batch with it, so that no later commit seals half of it.
pub proof fn law_failed_statement_aborts(run: TxRun, event: BoltEvent)
    ensures
        run.phase is Apply && !(run.after(event).phase is Apply) ==> event is Staged
            || run.after(event).phase is Discard,
        run.phase is Discard && run.after(event) != run ==> event is Discarded,
{
}

/// The answers that a statement of a transaction took in.
pub open spec fn tx_heard(run: TxRun, events: Seq<BoltEvent>) -> Seq<BoltEvent>
    decreases events.len(),
{
    if events.len() == 0 {
        Seq::empty()
    } else {
        let before = events.drop_last();
        let now = tx_trace(run, before);
        if now.after(events.last()) == now {
            tx_heard(run, before)
        } else {
            tx_heard(run, before).push(events.last())
        }
    }
}

/// Whether the answers are those of a statement whose plan the policy allowed. A
/// look at the schema is planned like a query.
pub open spec fn tx_allowed(explain: bool, facts: PlanFacts, heard: Seq<BoltEvent>) -> bool {
    ||| heard =~= bolt_allowed(explain, facts)
    ||| !explain && heard =~= bolt_allowed(false, facts).update(
        1,
        BoltEvent::Parsed { statement: Statement::Show },
    )
}

/// Whether the answers are those of a statement that found its transaction open.
pub open spec fn tx_entered(facts: PlanFacts, heard: Seq<BoltEvent>) -> bool {
    &&& heard.len() == 6
    &&& tx_allowed(false, facts, heard.take(4))
    &&& heard[4] == BoltEvent::Present
    &&& heard[5] == (BoltEvent::Slot { open: true })
}

/// Whether a read of a transaction may run.
pub open spec fn tx_may_read(scan_gate: bool, facts: PlanFacts, heard: Seq<BoltEvent>) -> bool {
    &&& !facts.writes
    &&& if facts.scans && scan_gate {
        heard.len() == 7 && heard[6] == BoltEvent::PermitHeld && tx_entered(facts, heard.take(6))
    } else {
        tx_entered(facts, heard)
    }
}

/// What a statement of a transaction has been answered when the transaction's
/// batch is about to be dropped with the verdict that this leads to.
pub open spec fn tx_drops(verdict: BoltVerdict, heard: Seq<BoltEvent>) -> bool {
    let facts = heard_facts(heard);
    &&& facts.writes
    &&& heard.len() == 7
    &&& tx_entered(facts, heard.take(6))
    &&& {
        ||| heard[6] == BoltEvent::Gone && verdict == (BoltVerdict::Disconnected {
            kind: Some(QueryKind::Write),
        })
        ||| heard[6] == BoltEvent::StageFailed && verdict is WriteFailed
    }
}

/// What a statement of a transaction has been answered where it stands.
pub open spec fn tx_story(run: TxRun, heard: Seq<BoltEvent>) -> bool {
    let facts = heard_facts(heard);
    let so_far = heard.drop_last();
    match run.phase {
        TxPhase::Start => heard.len() == 0,
        TxPhase::Parse => heard =~= seq![BoltEvent::Present],
        TxPhase::Plan { explain } => {
            &&& heard.len() == 2
            &&& heard[0] == BoltEvent::Present
            &&& {
                ||| heard[1] == (BoltEvent::Parsed { statement: Statement::Query { explain } })
                ||| !explain && heard[1] == (BoltEvent::Parsed { statement: Statement::Show })
            }
        },
        TxPhase::Policy { explain, facts } => heard.len() == 3 && heard[2] == (BoltEvent::Planned {
            facts,
        }) && tx_allowed(explain, facts, heard.push(BoltEvent::Allowed)),
        TxPhase::Explain { facts } => tx_allowed(true, facts, heard),
        TxPhase::Check { facts } => tx_allowed(false, facts, heard),
        TxPhase::Slot { facts } => {
            &&& heard.len() == 5
            &&& tx_allowed(false, facts, heard.take(4))
            &&& heard[4] == BoltEvent::Present
            &&& facts.writes ==> run.allows_write
        },
        TxPhase::Apply => facts.writes && run.allows_write && tx_entered(facts, heard),
        TxPhase::Discard { verdict } => run.allows_write && tx_drops(verdict, heard),
        TxPhase::ScanPermit => !facts.writes && facts.scans && run.scan_gate && tx_entered(
            facts,
            heard,
        ),
        TxPhase::Read => tx_may_read(run.scan_gate, facts, heard),
        TxPhase::Done { verdict } => match verdict {
            BoltVerdict::Disconnected { kind } => {
                ||| kind is None && heard =~= seq![BoltEvent::Gone]
                ||| {
                    &&& heard.len() > 0
                    &&& heard.last() == BoltEvent::Gone
                    &&& {
                        ||| kind == Some(facts.kind_spec()) && (tx_allowed(true, facts, so_far)
                            || tx_allowed(false, facts, so_far))
                        ||| kind == Some(facts.kind_spec()) && heard.len() == 6 && tx_allowed(
                            false,
                            facts,
                            heard.take(4),
                        ) && heard[4] == BoltEvent::Present && (facts.writes ==> run.allows_write)
                        ||| kind == Some(QueryKind::Read) && tx_may_read(
                            run.scan_gate,
                            facts,
                            so_far,
                        )
                    }
                }
                ||| {
                    &&& heard.len() > 0
                    &&& heard.last() == BoltEvent::Discarded
                    &&& run.allows_write
                    &&& tx_drops(verdict, so_far)
                }
            },
            BoltVerdict::ParseError => heard =~= seq![BoltEvent::Present, BoltEvent::ParseFailed],
            BoltVerdict::SchemaInTx { command } => heard =~= seq![
                BoltEvent::Present,
                BoltEvent::Parsed { statement: Statement::Schema { kind: command } },
            ],
            BoltVerdict::PlanError => {
                &&& heard.len() == 3
                &&& heard[0] == BoltEvent::Present
                &&& heard[1] is Parsed
                &&& !(heard[1]->statement is Schema)
                &&& heard[2] == BoltEvent::PlanFailed
            },
            BoltVerdict::Denied => {
                &&& heard.len() == 4
                &&& heard[3] == BoltEvent::Denied
                &&& tx_allowed(true, facts, heard.update(3, BoltEvent::Allowed)) || tx_allowed(
                    false,
                    facts,
                    heard.update(3, BoltEvent::Allowed),
                )
            },
            BoltVerdict::Explained => heard.len() == 5 && heard[4] == BoltEvent::Explained
                && tx_allowed(true, facts, so_far),
            BoltVerdict::WriteReadOnly => {
                &&& heard.len() == 5
                &&& heard[4] == BoltEvent::Present
                &&& tx_allowed(false, facts, so_far)
                &&& facts.writes
                &&& !run.allows_write
            },
            BoltVerdict::NoTransaction => {
                &&& heard.len() == 6
                &&& heard[5] == (BoltEvent::Slot { open: false })
                &&& heard[4] == BoltEvent::Present
                &&& tx_allowed(false, facts, heard.take(4))
                &&& facts.writes ==> run.allows_write
            },
            BoltVerdict::Written => {
                &&& facts.writes
                &&& run.allows_write
                &&& heard.len() == 7
                &&& heard[6] == BoltEvent::Staged
                &&& tx_entered(facts, so_far)
            },
            BoltVerdict::WriteFailed => heard.len() > 0 && heard.last() == BoltEvent::Discarded
                && run.allows_write && tx_drops(verdict, so_far),
            BoltVerdict::Read => heard.len() > 0 && heard.last() == BoltEvent::Read && tx_may_read(
                run.scan_gate,
                facts,
                so_far,
            ),
            BoltVerdict::ReadFailed => heard.len() > 0 && heard.last() == BoltEvent::ReadFailed
                && tx_may_read(run.scan_gate, facts, so_far),
            _ => false,
        },
    }
}

/// One answer carries the story of a statement of a transaction on.
#[verifier::rlimit(60)]
#[verifier::spinoff_prover]
proof fn lemma_tx_story_step(run: TxRun, heard: Seq<BoltEvent>, event: BoltEvent)
    requires
        tx_story(run, heard),
        run.after(event) != run,
    ensures
        tx_story(run.after(event), heard.push(event)),
{
    let more = heard.push(event);
    assert(more.drop_last() =~= heard);
    assert(more.last() == event);
    if heard.len() > 2 {
        assert(heard_facts(more) == heard_facts(heard));
    }
    if heard.len() == 4 {
        assert(more.take(4) =~= heard);
    }
    if heard.len() == 5 {
        assert(more.take(4) =~= heard.take(4));
    }
    if heard.len() == 6 {
        assert(more.take(6) =~= heard);
    }
    if heard.len() == 3 {
        assert(more.update(3, BoltEvent::Allowed) =~= heard.push(BoltEvent::Allowed));
    }
    assert(tx_story(run.after(event), more));
}

/// Over every series of answers, what a statement of a transaction has been
/// answered tells exactly how far it came: it enters the transaction after its
/// plan was allowed and its client found there, it reports a write once it was
/// staged and before anything is committed, and a statement that fails or is left
/// while it stages drops the batch before it ends.
pub proof fn law_tx_story(allows_write: bool, scan_gate: bool, events: Seq<BoltEvent>)
    ensures
        ({
            let first = TxRun::started(allows_write, scan_gate);
            let run = tx_trace(first, events);
            &&& run == (TxRun { phase: run.phase, ..first })
            &&& tx_story(run, tx_heard(first, events))
        }),
    decreases events.len(),
{
    if events.len() > 0 {
        let before = events.drop_last();
        law_tx_story(allows_write, scan_gate, before);
        let first = TxRun::started(allows_write, scan_gate);
        let now = tx_trace(first, before);
        if now.after(events.last()) != now {
            lemma_tx_story_step(now, tx_heard(first, before), events.last());
        }
    }
}

/// A statement of a transaction listens to the answers to what it asked, to all of
/// them, and to nothing else.
pub proof fn law_tx_listens(run: TxRun, event: BoltEvent)
    ensures
        run.after(event) != run <==> match run.phase {
            TxPhase::Start | TxPhase::Check { .. } => event is Present || event is Gone,
            TxPhase::Parse => event is Parsed || event is ParseFailed,
            TxPhase::Plan { .. } => event is Planned || event is PlanFailed,
            TxPhase::Policy { .. } => event is Allowed || event is Denied,
            TxPhase::Explain { .. } => event is Explained || event is Gone,
            TxPhase::Slot { .. } => event is Slot || event is Gone,
            TxPhase::Apply => event is Staged || event is StageFailed || event is Gone,
            TxPhase::Discard { .. } => event is Discarded,
            TxPhase::ScanPermit => event is PermitHeld,
            TxPhase::Read => event is Read || event is ReadFailed || event is Gone,
            TxPhase::Done { .. } => false,
        },
{
}

impl TxRun {
    /// How much of the way is still ahead.
    pub open spec fn ahead(self) -> nat {
        match self.phase {
            TxPhase::Start => 8,
            TxPhase::Parse => 7,
            TxPhase::Plan { .. } => 6,
            TxPhase::Policy { .. } => 5,
            TxPhase::Check { .. } => 4,
            TxPhase::Slot { .. } => 3,
            TxPhase::Apply | TxPhase::ScanPermit => 2,
            TxPhase::Discard { .. } | TxPhase::Read | TxPhase::Explain { .. } => 1,
            TxPhase::Done { .. } => 0,
        }
    }
}

/// A statement of a transaction never goes back either.
pub proof fn law_tx_progress(run: TxRun, event: BoltEvent)
    ensures
        run.after(event) == run || run.after(event).ahead() < run.ahead(),
{
}

} // verus!
