//! The operator's flush: one at a time, bounded in every wait, and open under
//! memory pressure, since it is what relieves it.

use std::time::Duration;
use vstd::prelude::*;

use crate::engine::StorageFailure;
use crate::json::{JsonTree, Members};
use crate::recovery::{
    persistence_degraded_reason, persistence_reason, HealthModel, WriterHealth,
};
use crate::reply::{
    admin_flush_busy_response, degraded_text, error_model, error_reply, namespace_retired_response,
    persistence_degraded_response, writer_busy_response, Reply, ReplyModel, FLUSH_BUSY,
    FLUSH_FORBIDDEN, NAMESPACE_RETIRED, WRITER_BUSY,
};
use crate::span::{is_zero, nanos};

verus! {

/// How long a flush waits for its turn and, where no other bound is set, for the
/// writer, in seconds.
pub const ADMIN_FLUSH_WAIT_SECS: u64 = 30;

/// The bound on the wait for the writer.
pub fn admin_flush_bound(writer_lock_timeout: Duration) -> (r: Duration)
    ensures
        nanos(r) == if nanos(writer_lock_timeout) == 0 {
            30_000_000_000
        } else {
            nanos(writer_lock_timeout)
        },
{
    if is_zero(writer_lock_timeout) {
        Duration::from_secs(ADMIN_FLUSH_WAIT_SECS)
    } else {
        writer_lock_timeout
    }
}

/// Whether a flush has freed enough for the allocator to give pages back.
pub fn flush_needs_allocator_trim(ssts_written: usize) -> (r: bool)
    ensures
        r == (ssts_written != 0),
{
    ssts_written != 0
}

/// What a flush wrote.
#[derive(Debug, Clone, Copy, PartialEq, Eq, Structural)]
pub struct FlushSummary {
    pub ssts_written: usize,
    pub bloom_sidecars_written: usize,
    pub manifest_version: u64,
}

/// How a flush ended.
#[derive(Debug, Clone, Copy, PartialEq, Eq, Structural)]
pub enum FlushVerdict {
    /// The caller may not write.
    ReadOnly,
    /// Another flush was running all the while.
    FlushBusy,
    /// The process is at its memory ceiling and the namespace is not open.
    Cold,
    /// The namespace could not be opened.
    OpenFailed,
    /// The writer was not free within the bound.
    WriterBusy,
    /// The namespace was evicted meanwhile.
    Retired,
    Flushed { summary: FlushSummary },
    /// The disk below the flush is at fault.
    Degraded,
    Failed,
}

/// Where a flush stands: each phase waits for one answer.
#[derive(Debug, Clone, Copy, PartialEq, Eq, Structural)]
pub enum FlushPhase {
    /// The one slot for an operator's flush is waited for.
    Permit,
    /// Memory is sampled.
    Sample,
    /// The namespace is looked up among the open ones.
    FindOpen,
    /// The namespace is opened.
    Open,
    /// The writer lock is waited for.
    Lock,
    /// The memtable is flushed under the writer lock.
    Flush,
    /// The flushed state is published under the writer lock.
    Publish { summary: FlushSummary },
    /// The writer is reopened, if it is broken, under the writer lock.
    Recover { local_persistence: bool },
    /// The writer lock is given back.
    Release { verdict: FlushVerdict },
    /// Free pages go back to the system.
    Trim { summary: FlushSummary },
    Done { verdict: FlushVerdict },
}

/// An answer to what a phase waits for.
#[derive(Debug)]
pub enum FlushEvent {
    PermitHeld,
    PermitTimedOut,
    Sampled { over_limit: bool },
    Opened,
    NotOpen,
    OpenFailed { text: String },
    Locked { retired: bool },
    LockTimedOut,
    Flushed { summary: FlushSummary },
    FlushFailed { failure: StorageFailure, retired: bool },
    Published,
    Recovered,
    Released,
    Trimmed,
}

/// One flush on its way.
#[derive(Debug)]
pub struct FlushRun {
    /// The server has many namespaces.
    pub multi: bool,
    pub phase: FlushPhase,
    /// The failure in words, once there is one.
    pub failure: String,
}

/// What a flush has come to.
#[verifier::ext_equal]
pub struct FlushModel {
    pub multi: bool,
    pub phase: FlushPhase,
    pub failure: Seq<char>,
}

impl View for FlushRun {
    type V = FlushModel;

    open spec fn view(&self) -> FlushModel {
        FlushModel { multi: self.multi, phase: self.phase, failure: self.failure@ }
    }
}

impl FlushModel {
    /// A flush that was just asked for.
    pub open spec fn started(multi: bool, allows_write: bool) -> FlushModel {
        FlushModel {
            multi,
            phase: if allows_write {
                FlushPhase::Permit
            } else {
                FlushPhase::Done { verdict: FlushVerdict::ReadOnly }
            },
            failure: Seq::empty(),
        }
    }

    /// The same flush in another phase.
    pub open spec fn at(self, phase: FlushPhase) -> FlushModel {
        FlushModel { phase, ..self }
    }

    /// The flush after an answer. An answer to something else changes nothing.
    pub open spec fn after(self, event: FlushEvent) -> FlushModel {
        match (self.phase, event) {
            (FlushPhase::Permit, FlushEvent::PermitTimedOut) => self.at(
                FlushPhase::Done { verdict: FlushVerdict::FlushBusy },
            ),
            (FlushPhase::Permit, FlushEvent::PermitHeld) => self.at(
                if self.multi {
                    FlushPhase::Sample
                } else {
                    FlushPhase::Lock
                },
            ),
            (FlushPhase::Sample, FlushEvent::Sampled { over_limit }) => self.at(
                if over_limit {
                    FlushPhase::FindOpen
                } else {
                    FlushPhase::Open
                },
            ),
            (FlushPhase::FindOpen, FlushEvent::Opened) => self.at(FlushPhase::Lock),
            (FlushPhase::FindOpen, FlushEvent::NotOpen) => self.at(
                FlushPhase::Done { verdict: FlushVerdict::Cold },
            ),
            (FlushPhase::Open, FlushEvent::Opened) => self.at(FlushPhase::Lock),
            (FlushPhase::Open, FlushEvent::OpenFailed { text }) => FlushModel {
                phase: FlushPhase::Done { verdict: FlushVerdict::OpenFailed },
                failure: text@,
                ..self
            },
            (FlushPhase::Lock, FlushEvent::LockTimedOut) => self.at(
                FlushPhase::Done { verdict: FlushVerdict::WriterBusy },
            ),
            (FlushPhase::Lock, FlushEvent::Locked { retired }) => self.at(
                if retired {
                    FlushPhase::Release { verdict: FlushVerdict::Retired }
                } else {
                    FlushPhase::Flush
                },
            ),
            (FlushPhase::Flush, FlushEvent::Flushed { summary }) => self.at(
                FlushPhase::Publish { summary },
            ),
            (FlushPhase::Flush, FlushEvent::FlushFailed { failure, retired }) => FlushModel {
                phase: if retired {
                    failed_release(failure.local_persistence)
                } else {
                    FlushPhase::Recover { local_persistence: failure.local_persistence }
                },
                failure: failure.text@,
                ..self
            },
            (FlushPhase::Publish { summary }, FlushEvent::Published) => self.at(
                FlushPhase::Release { verdict: FlushVerdict::Flushed { summary } },
            ),
            (FlushPhase::Recover { local_persistence }, FlushEvent::Recovered) => self.at(
                failed_release(local_persistence),
            ),
            (FlushPhase::Release { verdict }, FlushEvent::Released) => self.at(
                match verdict {
                    FlushVerdict::Flushed { summary } => if summary.ssts_written != 0 {
                        FlushPhase::Trim { summary }
                    } else {
                        FlushPhase::Done { verdict }
                    },
                    _ => FlushPhase::Done { verdict },
                },
            ),
            (FlushPhase::Trim { summary }, FlushEvent::Trimmed) => self.at(
                FlushPhase::Done { verdict: FlushVerdict::Flushed { summary } },
            ),
            _ => self,
        }
    }

    /// What an answer changes in the health of the writer: a flush that got
    /// through opens the write intake again, one that failed on local
    /// persistence closes it.
    pub open spec fn health_after(self, event: FlushEvent, health: HealthModel) -> HealthModel {
        let next = self.after(event);
        if self.phase is Flush && event is Flushed {
            HealthModel { persistence: None, ..health }
        } else if !(self.phase is Release) && next.phase == (FlushPhase::Release {
            verdict: FlushVerdict::Degraded,
        }) {
            HealthModel { persistence: Some(persistence_reason(next.failure)), ..health }
        } else {
            health
        }
    }

    /// Whether the slot for an operator's flush is held in this phase.
    pub open spec fn holds_permit(self) -> bool {
        !(self.phase is Permit) && !(self.phase is Done)
    }

    /// Whether the writer lock is held in this phase.
    pub open spec fn holds_writer(self) -> bool {
        self.phase is Flush || self.phase is Publish || self.phase is Recover
            || self.phase is Release
    }
}

/// Where a failed flush goes: its lock is given back.
pub open spec fn failed_release(local_persistence: bool) -> FlushPhase {
    FlushPhase::Release {
        verdict: if local_persistence {
            FlushVerdict::Degraded
        } else {
            FlushVerdict::Failed
        },
    }
}

impl FlushRun {
    /// A flush that was just asked for.
    pub fn start(multi: bool, allows_write: bool) -> (run: FlushRun)
        ensures
            run@ == FlushModel::started(multi, allows_write),
    {
        let phase = if allows_write {
            FlushPhase::Permit
        } else {
            FlushPhase::Done { verdict: FlushVerdict::ReadOnly }
        };
        proof {
            reveal_strlit("");
        }
        let run = FlushRun { multi, phase, failure: "".to_owned() };
        assert(run@.failure =~= Seq::<char>::empty());
        run
    }

    /// Where a failed flush goes, and what is recorded of it.
    fn fail(&mut self, local_persistence: bool, health: &mut WriterHealth)
        ensures
            final(self)@ == old(self)@.at(failed_release(local_persistence)),
            final(health)@ == if local_persistence {
                HealthModel {
                    persistence: Some(persistence_reason(old(self)@.failure)),
                    ..old(health)@
                }
            } else {
                old(health)@
            },
    {
        if local_persistence {
            let reason = persistence_degraded_reason(self.failure.as_str());
            health.mark_persistence_degraded(reason);
            self.phase = FlushPhase::Release { verdict: FlushVerdict::Degraded };
        } else {
            self.phase = FlushPhase::Release { verdict: FlushVerdict::Failed };
        }
    }

    /// Takes one answer in.
    pub fn advance(&mut self, event: FlushEvent, health: &mut WriterHealth)
        ensures
            final(self)@ == old(self)@.after(event),
            final(health)@ == old(self)@.health_after(event, old(health)@),
    {
        match (self.phase, event) {
            (FlushPhase::Permit, FlushEvent::PermitTimedOut) => {
                self.phase = FlushPhase::Done { verdict: FlushVerdict::FlushBusy };
            },
            (FlushPhase::Permit, FlushEvent::PermitHeld) => {
                self.phase = if self.multi {
                    FlushPhase::Sample
                } else {
                    FlushPhase::Lock
                };
            },
            (FlushPhase::Sample, FlushEvent::Sampled { over_limit }) => {
                self.phase = if over_limit {
                    FlushPhase::FindOpen
                } else {
                    FlushPhase::Open
                };
            },
            (FlushPhase::FindOpen, FlushEvent::Opened) => {
                self.phase = FlushPhase::Lock;
            },
            (FlushPhase::FindOpen, FlushEvent::NotOpen) => {
                self.phase = FlushPhase::Done { verdict: FlushVerdict::Cold };
            },
            (FlushPhase::Open, FlushEvent::Opened) => {
                self.phase = FlushPhase::Lock;
            },
            (FlushPhase::Open, FlushEvent::OpenFailed { text }) => {
                self.failure = text;
                self.phase = FlushPhase::Done { verdict: FlushVerdict::OpenFailed };
            },
            (FlushPhase::Lock, FlushEvent::LockTimedOut) => {
                self.phase = FlushPhase::Done { verdict: FlushVerdict::WriterBusy };
            },
            (FlushPhase::Lock, FlushEvent::Locked { retired }) => {
                self.phase = if retired {
                    FlushPhase::Release { verdict: FlushVerdict::Retired }
                } else {
                    FlushPhase::Flush
                };
            },
            (FlushPhase::Flush, FlushEvent::Flushed { summary }) => {
                health.clear_persistence_degraded();
                self.phase = FlushPhase::Publish { summary };
            },
            (FlushPhase::Flush, FlushEvent::FlushFailed { failure, retired }) => {
                let local_persistence = failure.local_persistence;
                self.failure = failure.text;
                if retired {
                    self.fail(local_persistence, health);
                } else {
                    self.phase = FlushPhase::Recover { local_persistence };
                }
            },
            (FlushPhase::Publish { summary }, FlushEvent::Published) => {
                self.phase = FlushPhase::Release { verdict: FlushVerdict::Flushed { summary } };
            },
            (FlushPhase::Recover { local_persistence }, FlushEvent::Recovered) => {
                self.fail(local_persistence, health);
            },
            (FlushPhase::Release { verdict }, FlushEvent::Released) => {
                self.phase = match verdict {
                    FlushVerdict::Flushed { summary } => {
                        if flush_needs_allocator_trim(summary.ssts_written) {
                            FlushPhase::Trim { summary }
                        } else {
                            FlushPhase::Done { verdict }
                        }
                    },
                    _ => FlushPhase::Done { verdict },
                };
            },
            (FlushPhase::Trim { summary }, FlushEvent::Trimmed) => {
                self.phase = FlushPhase::Done { verdict: FlushVerdict::Flushed { summary } };
            },
            _ => {},
        }
    }
}

/// The reply to a flush that ended.
pub open spec fn flush_reply(
    verdict: FlushVerdict,
    namespace: Seq<char>,
    failure: Seq<char>,
) -> ReplyModel {
    match verdict {
        FlushVerdict::ReadOnly => error_model(403, FLUSH_FORBIDDEN@),
        FlushVerdict::FlushBusy => error_model(503, FLUSH_BUSY@),
        FlushVerdict::Cold => error_model(
            503,
            "process memory pressure: namespace '"@ + namespace
                + "' is not open; refusing to recover a cold writer for admin flush"@,
        ),
        FlushVerdict::OpenFailed => error_model(503, failure),
        FlushVerdict::WriterBusy => error_model(503, WRITER_BUSY@),
        FlushVerdict::Retired => error_model(503, NAMESPACE_RETIRED@),
        FlushVerdict::Flushed { summary } => ReplyModel {
            status: 200,
            authenticate: false,
            body: JsonTree::Object(
                seq![
                    ("ssts_written"@, JsonTree::Integer(summary.ssts_written as int)),
                    (
                        "bloom_sidecars_written"@,
                        JsonTree::Integer(summary.bloom_sidecars_written as int),
                    ),
                    ("manifest_version"@, JsonTree::Integer(summary.manifest_version as int)),
                ],
            ),
        },
        FlushVerdict::Degraded => error_model(507, degraded_text(persistence_reason(failure))),
        FlushVerdict::Failed => error_model(500, "flush failed: "@ + failure),
    }
}

/// The reply to a flush that ended.
pub fn admin_flush_response(verdict: FlushVerdict, namespace: &str, failure: &str) -> (r: Reply)
    ensures
        r@ == flush_reply(verdict, namespace@, failure@),
{
    match verdict {
        FlushVerdict::ReadOnly => error_reply(403, FLUSH_FORBIDDEN),
        FlushVerdict::FlushBusy => admin_flush_busy_response(),
        FlushVerdict::Cold => {
            let mut text = "process memory pressure: namespace '".to_owned();
            text.append(namespace);
            text.append("' is not open; refusing to recover a cold writer for admin flush");
            error_reply(503, text.as_str())
        },
        FlushVerdict::OpenFailed => error_reply(503, failure),
        FlushVerdict::WriterBusy => writer_busy_response(),
        FlushVerdict::Retired => namespace_retired_response(),
        FlushVerdict::Flushed { summary } => {
            let members = Members::new().with_number(
                "ssts_written",
                summary.ssts_written as u64,
            ).with_number(
                "bloom_sidecars_written",
                summary.bloom_sidecars_written as u64,
            ).with_number("manifest_version", summary.manifest_version);
            let ghost built = members@;
            let r = Reply { status: 200, authenticate: false, body: members.finish() };
            proof {
                let model = flush_reply(verdict, namespace@, failure@);
                assert(built =~= model.body->Object_0);
            }
            r
        },
        FlushVerdict::Degraded => {
            let reason = persistence_degraded_reason(failure);
            persistence_degraded_response(reason.as_str())
        },
        FlushVerdict::Failed => {
            let mut text = "flush failed: ".to_owned();
            text.append(failure);
            error_reply(500, text.as_str())
        },
    }
}

/// The flush after a whole series of answers.
pub open spec fn flush_trace(run: FlushModel, events: Seq<FlushEvent>) -> FlushModel
    decreases events.len(),
{
    if events.len() == 0 {
        run
    } else {
        flush_trace(run, events.drop_last()).after(events.last())
    }
}

/// The writer lock comes with the wait for it and goes by the release alone; a
/// flush that is over holds nothing; and the allocator is asked for pages only
/// off the lock, within the slot, and after a flush that wrote something.
pub proof fn law_flush_releases(run: FlushModel, event: FlushEvent)
    ensures
        run.phase is Done ==> run.after(event) == run && !run.holds_permit()
            && !run.holds_writer(),
        run.holds_writer() ==> run.holds_permit(),
        run.holds_writer() && !run.after(event).holds_writer() ==> event is Released,
        !run.holds_writer() && run.after(event).holds_writer() ==> event is Locked,
        run.phase is Trim ==> run.holds_permit() && !run.holds_writer(),
        run.after(event).phase matches FlushPhase::Trim { summary } ==> run.phase is Trim || (
        run.phase == (FlushPhase::Release { verdict: FlushVerdict::Flushed { summary } })
            && summary.ssts_written != 0),
{
}

/// At the memory ceiling no namespace is opened for a flush, and a writer whose
/// namespace was evicted is not reopened.
pub proof fn law_flush_opens_nothing_under_pressure(run: FlushModel, event: FlushEvent)
    ensures
        run.after(event).phase is Open && !(run.phase is Open) ==> event == (FlushEvent::Sampled {
            over_limit: false,
        }),
        run.after(event).phase is Recover && !(run.phase is Recover) ==> (
        event matches FlushEvent::FlushFailed { retired, .. } && !retired),
{
}

/// The caller who may not write gets no further than the refusal, and an answer
/// that something was flushed is given only when something was.
pub proof fn law_flush_gates(multi: bool, allows_write: bool, events: Seq<FlushEvent>)
    ensures
        ({
            let run = flush_trace(FlushModel::started(multi, allows_write), events);
            &&& run.multi == multi
            &&& !allows_write ==> run == FlushModel::started(multi, false)
            &&& run.phase matches FlushPhase::Done { verdict: FlushVerdict::Flushed { summary } }
                ==> events.contains(FlushEvent::Flushed { summary })
            &&& run.phase matches FlushPhase::Release {
                verdict: FlushVerdict::Flushed { summary },
            } ==> events.contains(FlushEvent::Flushed { summary })
            &&& run.phase matches FlushPhase::Publish { summary } ==> events.contains(
                FlushEvent::Flushed { summary },
            )
            &&& run.phase matches FlushPhase::Trim { summary } ==> events.contains(
                FlushEvent::Flushed { summary },
            )
        }),
    decreases events.len(),
{
    if events.len() > 0 {
        let before = events.drop_last();
        law_flush_gates(multi, allows_write, before);
        assert forall|e: FlushEvent| before.contains(e) implies events.contains(e) by {
            let i = choose|i: int| 0 <= i < before.len() && before[i] == e;
            assert(events[i] == e);
        }
        assert(events.contains(events.last())) by {
            assert(events[events.len() - 1] == events.last());
        }
    }
}

/// The answers that a flush took in: those that it waited for when they came.
pub open spec fn flush_heard(run: FlushModel, events: Seq<FlushEvent>) -> Seq<FlushEvent>
    decreases events.len(),
{
    if events.len() == 0 {
        Seq::empty()
    } else {
        let before = events.drop_last();
        let now = flush_trace(run, before);
        if now.after(events.last()) == now {
            flush_heard(run, before)
        } else {
            flush_heard(run, before).push(events.last())
        }
    }
}

/// What a flush has been answered by the time it waits for the writer: it has the
/// slot and, among many namespaces, one that is open or was opened.
pub open spec fn flush_waits(multi: bool, heard: Seq<FlushEvent>) -> bool {
    if multi {
        &&& heard.len() == 3
        &&& heard[0] == FlushEvent::PermitHeld
        &&& heard[1] is Sampled
        &&& heard[2] == FlushEvent::Opened
    } else {
        heard =~= seq![FlushEvent::PermitHeld]
    }
}

/// What a flush has been answered by the time it flushes.
pub open spec fn flush_locked(multi: bool, heard: Seq<FlushEvent>) -> bool {
    &&& heard.len() > 0
    &&& heard.last() == (FlushEvent::Locked { retired: false })
    &&& flush_waits(multi, heard.drop_last())
}

/// What a flush has been answered when the memtable could not be flushed.
pub open spec fn flush_fails(
    multi: bool,
    retired: bool,
    local_persistence: bool,
    failure: Seq<char>,
    heard: Seq<FlushEvent>,
) -> bool {
    &&& heard.len() > 0
    &&& heard.last() matches FlushEvent::FlushFailed { failure: f, retired: r }
    &&& r == retired
    &&& f.local_persistence == local_persistence
    &&& f.text@ == failure
    &&& flush_locked(multi, heard.drop_last())
}

/// What a flush has been answered by the time it gives the writer back.
pub open spec fn flush_settled(
    multi: bool,
    verdict: FlushVerdict,
    failure: Seq<char>,
    heard: Seq<FlushEvent>,
) -> bool {
    let so_far = heard.drop_last();
    &&& heard.len() > 0
    &&& match verdict {
        FlushVerdict::Retired => heard.last() == (FlushEvent::Locked { retired: true })
            && flush_waits(multi, so_far),
        FlushVerdict::Flushed { summary } => {
            &&& heard.last() == FlushEvent::Published
            &&& so_far.len() > 0
            &&& so_far.last() == (FlushEvent::Flushed { summary })
            &&& flush_locked(multi, so_far.drop_last())
        },
        FlushVerdict::Degraded | FlushVerdict::Failed => {
            ||| flush_fails(multi, true, verdict is Degraded, failure, heard)
            ||| heard.last() == FlushEvent::Recovered && flush_fails(
                multi,
                false,
                verdict is Degraded,
                failure,
                so_far,
            )
        },
        _ => false,
    }
}

/// What a flush has been answered, one after the other, where it stands.
pub open spec fn flush_story(
    run: FlushModel,
    allows_write: bool,
    heard: Seq<FlushEvent>,
) -> bool {
    let so_far = heard.drop_last();
    match run.phase {
        FlushPhase::Permit => allows_write && heard.len() == 0,
        FlushPhase::Sample => allows_write && run.multi && heard =~= seq![FlushEvent::PermitHeld],
        FlushPhase::FindOpen => allows_write && run.multi && heard =~= seq![
            FlushEvent::PermitHeld,
            FlushEvent::Sampled { over_limit: true },
        ],
        FlushPhase::Open => allows_write && run.multi && heard =~= seq![
            FlushEvent::PermitHeld,
            FlushEvent::Sampled { over_limit: false },
        ],
        FlushPhase::Lock => allows_write && flush_waits(run.multi, heard),
        FlushPhase::Flush => allows_write && flush_locked(run.multi, heard),
        FlushPhase::Publish { summary } => {
            &&& allows_write
            &&& heard.len() > 0
            &&& heard.last() == (FlushEvent::Flushed { summary })
            &&& flush_locked(run.multi, so_far)
        },
        FlushPhase::Recover { local_persistence } => allows_write && flush_fails(
            run.multi,
            false,
            local_persistence,
            run.failure,
            heard,
        ),
        FlushPhase::Release { verdict } => allows_write && flush_settled(
            run.multi,
            verdict,
            run.failure,
            heard,
        ),
        FlushPhase::Trim { summary } => {
            &&& allows_write
            &&& summary.ssts_written != 0
            &&& heard.len() > 0
            &&& heard.last() == FlushEvent::Released
            &&& flush_settled(
                run.multi,
                FlushVerdict::Flushed { summary },
                run.failure,
                so_far,
            )
        },
        FlushPhase::Done { verdict } => flush_ended(run, verdict, allows_write, heard),
    }
}

/// What a flush has been answered, one after the other, when it ended with a
/// verdict.
pub open spec fn flush_ended(
    run: FlushModel,
    verdict: FlushVerdict,
    allows_write: bool,
    heard: Seq<FlushEvent>,
) -> bool {
    let so_far = heard.drop_last();
    let released = |h: Seq<FlushEvent>|
        h.len() > 0 && h.last() == FlushEvent::Released && flush_settled(
            run.multi,
            verdict,
            run.failure,
            h.drop_last(),
        );
    match verdict {
        FlushVerdict::ReadOnly => !allows_write && heard.len() == 0,
        FlushVerdict::FlushBusy => allows_write && heard =~= seq![FlushEvent::PermitTimedOut],
        FlushVerdict::Cold => allows_write && run.multi && heard =~= seq![
            FlushEvent::PermitHeld,
            FlushEvent::Sampled { over_limit: true },
            FlushEvent::NotOpen,
        ],
        FlushVerdict::OpenFailed => {
            &&& allows_write
            &&& run.multi
            &&& heard.len() == 3
            &&& heard[0] == FlushEvent::PermitHeld
            &&& heard[1] == (FlushEvent::Sampled { over_limit: false })
            &&& heard[2] matches FlushEvent::OpenFailed { text }
            &&& run.failure == text@
        },
        FlushVerdict::WriterBusy => {
            &&& allows_write
            &&& heard.len() > 0
            &&& heard.last() == FlushEvent::LockTimedOut
            &&& flush_waits(run.multi, so_far)
        },
        FlushVerdict::Flushed { summary } if summary.ssts_written != 0 => {
            &&& allows_write
            &&& heard.len() > 0
            &&& heard.last() == FlushEvent::Trimmed
            &&& released(so_far)
        },
        _ => allows_write && released(heard),
    }
}

/// Over every series of answers, what a flush has been answered tells exactly how
/// far it came: it has the slot before it looks at memory, opens a namespace only
/// below the ceiling, flushes under the writer lock, publishes what it flushed
/// before the lock goes back, gives pages back exactly if it wrote something, and
/// reports every refusal and failure as the one that was answered, in its words.
#[verifier::rlimit(60)]
#[verifier::spinoff_prover]
pub proof fn law_flush_story(multi: bool, allows_write: bool, events: Seq<FlushEvent>)
    ensures
        ({
            let first = FlushModel::started(multi, allows_write);
            let run = flush_trace(first, events);
            &&& run.multi == multi
            &&& flush_story(run, allows_write, flush_heard(first, events))
        }),
    decreases events.len(),
{
    if events.len() > 0 {
        let before = events.drop_last();
        law_flush_story(multi, allows_write, before);
        let first = FlushModel::started(multi, allows_write);
        let heard = flush_heard(first, before);
        let now = flush_trace(first, before);
        let event = events.last();
        let more = heard.push(event);
        assert(more.drop_last() =~= heard);
        assert(more.last() == event);
        if now.after(event) != now {
            assert(flush_story(now.after(event), allows_write, more));
        }
    }
}

/// A flush listens to the answers to what it asked, to all of them, and to nothing
/// else: no answer that it waits for is lost.
pub proof fn law_flush_listens(run: FlushModel, event: FlushEvent)
    ensures
        run.after(event) != run <==> match run.phase {
            FlushPhase::Permit => event is PermitHeld || event is PermitTimedOut,
            FlushPhase::Sample => event is Sampled,
            FlushPhase::FindOpen => event is Opened || event is NotOpen,
            FlushPhase::Open => event is Opened || event is OpenFailed,
            FlushPhase::Lock => event is Locked || event is LockTimedOut,
            FlushPhase::Flush => event is Flushed || event is FlushFailed,
            FlushPhase::Publish { .. } => event is Published,
            FlushPhase::Recover { .. } => event is Recovered,
            FlushPhase::Release { .. } => event is Released,
            FlushPhase::Trim { .. } => event is Trimmed,
            FlushPhase::Done { .. } => false,
        },
{
}

/// The health of the writer after a whole series of answers.
pub open spec fn flush_health(
    run: FlushModel,
    events: Seq<FlushEvent>,
    health: HealthModel,
) -> HealthModel
    decreases events.len(),
{
    if events.len() == 0 {
        health
    } else {
        let before = events.drop_last();
        flush_trace(run, before).health_after(events.last(), flush_health(run, before, health))
    }
}

/// Over every series of answers, a flush that got through leaves the write intake
/// open, one that failed on local persistence leaves it closed with that failure
/// as the reason, and no other touches it; what else degrades the writer is never
/// touched.
pub proof fn law_flush_health(
    multi: bool,
    allows_write: bool,
    events: Seq<FlushEvent>,
    health: HealthModel,
)
    ensures
        ({
            let first = FlushModel::started(multi, allows_write);
            let run = flush_trace(first, events);
            let after = flush_health(first, events, health);
            let flushed = run.phase is Publish || run.phase is Trim || (
            run.phase matches FlushPhase::Release { verdict } && verdict is Flushed) || (
            run.phase matches FlushPhase::Done { verdict } && verdict is Flushed);
            let degraded = run.phase == (FlushPhase::Release { verdict: FlushVerdict::Degraded })
                || run.phase == (FlushPhase::Done { verdict: FlushVerdict::Degraded });
            &&& after.degraded == health.degraded
            &&& flushed ==> after.persistence is None
            &&& degraded ==> after.persistence == Some(persistence_reason(run.failure))
            &&& !flushed && !degraded ==> after.persistence == health.persistence
        }),
    decreases events.len(),
{
    if events.len() > 0 {
        law_flush_health(multi, allows_write, events.drop_last(), health);
    }
}

/// What the operator is told of a flush: 200 with what was written exactly if it
/// got through, 403 if the caller may not write, 507 if local persistence is at
/// fault, 500 if something else is, and 503 if it could not be tried.
pub proof fn law_flush_reply(verdict: FlushVerdict, namespace: Seq<char>, failure: Seq<char>)
    ensures
        ({
            let reply = flush_reply(verdict, namespace, failure);
            let told = reply.body.field("error"@);
            &&& !reply.authenticate
            &&& reply.status == 200 <==> verdict is Flushed
            &&& reply.status == 403 <==> verdict is ReadOnly
            &&& reply.status == 507 <==> verdict is Degraded
            &&& reply.status == 500 <==> verdict is Failed
            &&& reply.status == 503 <==> verdict is FlushBusy || verdict is Cold || verdict
                is OpenFailed || verdict is WriterBusy || verdict is Retired
            &&& verdict is OpenFailed ==> told == Some(JsonTree::Text(failure))
            &&& verdict is Failed ==> told == Some(JsonTree::Text("flush failed: "@ + failure))
            &&& verdict is Degraded ==> told == Some(
                JsonTree::Text(degraded_text(persistence_reason(failure))),
            )
            &&& verdict is WriterBusy ==> told == Some(JsonTree::Text(WRITER_BUSY@))
            &&& verdict is Retired ==> told == Some(JsonTree::Text(NAMESPACE_RETIRED@))
            &&& verdict is FlushBusy ==> told == Some(JsonTree::Text(FLUSH_BUSY@))
            &&& verdict is ReadOnly ==> told == Some(JsonTree::Text(FLUSH_FORBIDDEN@))
            &&& verdict matches FlushVerdict::Flushed { summary } ==> {
                &&& reply.body.field("ssts_written"@) == Some(
                    JsonTree::Integer(summary.ssts_written as int),
                )
                &&& reply.body.field("bloom_sidecars_written"@) == Some(
                    JsonTree::Integer(summary.bloom_sidecars_written as int),
                )
                &&& reply.body.field("manifest_version"@) == Some(
                    JsonTree::Integer(summary.manifest_version as int),
                )
            }
        }),
{
    if verdict is Flushed {
        reveal_strlit("ssts_written");
        reveal_strlit("bloom_sidecars_written");
        reveal_strlit("manifest_version");
        assert("ssts_written"@.len() != "bloom_sidecars_written"@.len());
        assert("ssts_written"@.len() != "manifest_version"@.len());
        assert("bloom_sidecars_written"@.len() != "manifest_version"@.len());
        let members = flush_reply(verdict, namespace, failure).body->Object_0;
        crate::json::law_first_member_counts(members, 0);
        crate::json::law_first_member_counts(members, 1);
        crate::json::law_first_member_counts(members, 2);
    }
}

impl FlushModel {
    /// How much of the way is still ahead.
    pub open spec fn ahead(self) -> nat {
        match self.phase {
            FlushPhase::Permit => 9,
            FlushPhase::Sample => 8,
            FlushPhase::FindOpen | FlushPhase::Open => 7,
            FlushPhase::Lock => 6,
            FlushPhase::Flush => 5,
            FlushPhase::Publish { .. } | FlushPhase::Recover { .. } => 4,
            FlushPhase::Release { .. } => 3,
            FlushPhase::Trim { .. } => 2,
            FlushPhase::Done { .. } => 0,
        }
    }
}

/// A flush never goes back: an answer that it waits for brings it nearer to its
/// end, and every other answer leaves it where it is.
pub proof fn law_flush_progress(run: FlushModel, event: FlushEvent)
    ensures
        run.after(event) == run || run.after(event).ahead() < run.ahead(),
{
}

/// The writer of a retired namespace is given back unused, and is not reopened
/// after a failure either.
pub proof fn law_flush_leaves_retired_alone(run: FlushModel, failure: StorageFailure)
    ensures
        run.phase is Lock ==> run.after(FlushEvent::Locked { retired: true }).phase == (
        FlushPhase::Release { verdict: FlushVerdict::Retired }),
        run.phase is Flush ==> run.after(
            FlushEvent::FlushFailed { failure, retired: true },
        ).phase is Release,
{
}

} // verus!
