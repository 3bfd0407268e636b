//! Background compaction: who runs it, and what one worker does.
//!
//! Every namespace has a single-flight scheduler. A trigger starts the sole
//! worker, reserves the sole pending follow-up, or is coalesced into that
//! follow-up; a pending follow-up is only its trigger, and the pass that runs it
//! takes a fresh basis. A pass takes the writer twice, briefly: for its basis,
//! and to install what it prepared off-lock.

use std::time::Duration;
use vstd::prelude::*;

use crate::metrics::{
    wrap, CompactionPhase, CompactionStatus, CompactionTrigger, Metrics, MetricsModel,
    WriterLockKind,
};
use crate::span::nanos;

verus! {

/// Per-namespace single-flight compaction scheduler: at most one worker is alive
/// and at most one follow-up is pending.
#[derive(Debug, Clone, Copy, PartialEq, Eq)]
pub struct CompactionScheduler {
    pub worker_active: bool,
    pub pending: Option<CompactionTrigger>,
}

/// What became of a trigger.
#[derive(Debug, Clone, Copy, PartialEq, Eq, Structural)]
pub enum Admission {
    StartWorker,
    QueuedFollowUp,
    Coalesced,
}

impl CompactionScheduler {
    /// A scheduler with nothing to do.
    pub open spec fn idle() -> CompactionScheduler {
        CompactionScheduler { worker_active: false, pending: None }
    }

    /// A follow-up is pending only behind a worker.
    pub open spec fn wf(self) -> bool {
        self.pending is Some ==> self.worker_active
    }

    /// What becomes of a trigger.
    pub open spec fn admission(self) -> Admission {
        if !self.worker_active {
            Admission::StartWorker
        } else if self.pending is None {
            Admission::QueuedFollowUp
        } else {
            Admission::Coalesced
        }
    }

    /// The scheduler after a trigger.
    pub open spec fn admitted(self, trigger: CompactionTrigger) -> CompactionScheduler {
        match self.admission() {
            Admission::StartWorker => CompactionScheduler { worker_active: true, ..self },
            Admission::QueuedFollowUp => CompactionScheduler { pending: Some(trigger), ..self },
            Admission::Coalesced => self,
        }
    }

    /// The scheduler after its worker has ended a pass: the pending follow-up is
    /// taken, or the worker stops.
    pub open spec fn passed(self) -> CompactionScheduler {
        CompactionScheduler {
            worker_active: self.worker_active && self.pending is Some,
            pending: None,
        }
    }

    /// A scheduler with nothing to do.
    pub fn new() -> (r: CompactionScheduler)
        ensures
            r == CompactionScheduler::idle(),
            r.wf(),
    {
        CompactionScheduler { worker_active: false, pending: None }
    }

    /// Takes a trigger in. It never waits.
    pub fn admit_trigger(&mut self, trigger: CompactionTrigger) -> (r: Admission)
        ensures
            r == old(self).admission(),
            *final(self) == old(self).admitted(trigger),
            old(self).wf() ==> final(self).wf(),
    {
        if !self.worker_active {
            self.worker_active = true;
            return Admission::StartWorker;
        }
        if self.pending.is_none() {
            self.pending = Some(trigger);
            Admission::QueuedFollowUp
        } else {
            Admission::Coalesced
        }
    }

    /// Selects the pending follow-up, or makes the scheduler idle.
    pub fn next_trigger_or_stop(&mut self) -> (r: Option<CompactionTrigger>)
        ensures
            r == old(self).pending,
            final(self).pending is None,
            final(self).worker_active == (old(self).worker_active && r is Some),
    {
        match self.pending.take() {
            Some(trigger) => Some(trigger),
            None => {
                self.worker_active = false;
                None
            },
        }
    }

    /// The worker is gone without having come to its end: cancelled, aborted or
    /// panicked.
    pub fn worker_dropped(&mut self)
        ensures
            *final(self) == CompactionScheduler::idle(),
    {
        self.worker_active = false;
        self.pending = None;
    }

    /// Whether the scheduled burst has drained.
    pub fn is_idle(&self) -> (r: bool)
        ensures
            r == !self.worker_active,
    {
        !self.worker_active
    }
}

/// What a worker waits for.
#[derive(Debug, Clone, Copy, PartialEq, Eq, Structural)]
pub enum WorkerPhase {
    /// Whether the namespace has been retired.
    Check,
    /// The lock that keeps a pass and an orphan sweep apart.
    Gate,
    /// The writer, for a basis.
    Basis,
    /// The merge, off-lock.
    Prepare { l0_before: usize },
    /// The writer, to install.
    InstallLock { l0_before: usize },
    /// The manifest install, under the writer.
    Install { l0_before: usize },
    /// The rest of the critical section: publish the new state, or reopen a
    /// broken writer.
    Settle { publish: bool, recover: bool },
    /// Nothing any more.
    Done,
}

/// An answer to what a worker waits for. `cancelled` tells that the namespace
/// has been retired.
pub enum WorkerEvent {
    Checked { cancelled: bool },
    GateHeld { cancelled: bool },
    /// The basis was taken and the writer given back.
    BasisTaken { wait: Duration, cancelled: bool, needs_compaction: bool, l0: usize },
    Prepared { elapsed: Duration, ok: bool, cancelled: bool },
    InstallLocked { wait: Duration, cancelled: bool, l0: usize },
    Installed { removed: usize, written: usize, l0_after: usize },
    /// `stale` when another pass won the race.
    InstallFailed { stale: bool, cancelled: bool, l0_after: usize },
    /// The critical section took this long in all.
    Settled { held: Duration },
}

/// Where an answer takes a worker.
pub enum WorkerMove {
    /// The answer was not waited for.
    Stay,
    Goto(WorkerPhase),
    /// The pass is over.
    EndPass,
    /// The worker stops at once.
    Abandon,
}

/// The sole compaction worker of a namespace.
#[derive(Debug, Clone, Copy, PartialEq, Eq, Structural)]
pub struct CompactionWorker {
    /// What asked for the pass that is under way.
    pub trigger: CompactionTrigger,
    pub phase: WorkerPhase,
}

impl CompactionWorker {
    /// Where an answer takes the worker. One that finds the namespace retired
    /// before its install has begun stops it.
    pub open spec fn moved(self, event: WorkerEvent) -> WorkerMove {
        match (self.phase, event) {
            (WorkerPhase::Check, WorkerEvent::Checked { cancelled }) => if cancelled {
                WorkerMove::Abandon
            } else {
                WorkerMove::Goto(WorkerPhase::Gate)
            },
            (WorkerPhase::Gate, WorkerEvent::GateHeld { cancelled }) => if cancelled {
                WorkerMove::Abandon
            } else {
                WorkerMove::Goto(WorkerPhase::Basis)
            },
            (
                WorkerPhase::Basis,
                WorkerEvent::BasisTaken { wait, cancelled, needs_compaction, l0 },
            ) => if cancelled {
                WorkerMove::Abandon
            } else if needs_compaction {
                WorkerMove::Goto(WorkerPhase::Prepare { l0_before: l0 })
            } else {
                WorkerMove::EndPass
            },
            (
                WorkerPhase::Prepare { l0_before },
                WorkerEvent::Prepared { elapsed, ok, cancelled },
            ) => if !ok {
                WorkerMove::EndPass
            } else if cancelled {
                WorkerMove::Abandon
            } else {
                WorkerMove::Goto(WorkerPhase::InstallLock { l0_before })
            },
            (
                WorkerPhase::InstallLock { l0_before },
                WorkerEvent::InstallLocked { wait, cancelled, l0 },
            ) => if cancelled {
                WorkerMove::Abandon
            } else {
                WorkerMove::Goto(WorkerPhase::Install { l0_before })
            },
            (
                WorkerPhase::Install { l0_before },
                WorkerEvent::Installed { removed, written, l0_after },
            ) => WorkerMove::Goto(WorkerPhase::Settle { publish: removed > 0, recover: false }),
            (
                WorkerPhase::Install { l0_before },
                WorkerEvent::InstallFailed { stale, cancelled, l0_after },
            ) => WorkerMove::Goto(WorkerPhase::Settle { publish: false, recover: !cancelled }),
            (WorkerPhase::Settle { .. }, WorkerEvent::Settled { held }) => WorkerMove::EndPass,
            _ => WorkerMove::Stay,
        }
    }

    /// What an answer adds to the metrics.
    pub open spec fn recorded(self, event: WorkerEvent, m: MetricsModel) -> MetricsModel {
        let t = self.trigger;
        match (self.phase, event) {
            (WorkerPhase::Check, WorkerEvent::Checked { cancelled }) => if cancelled {
                m.result_observed(t, CompactionStatus::Cancelled, 0, 0, 0, 0)
            } else {
                m
            },
            (WorkerPhase::Gate, WorkerEvent::GateHeld { cancelled }) => if cancelled {
                m.result_observed(t, CompactionStatus::Cancelled, 0, 0, 0, 0)
            } else {
                m
            },
            (
                WorkerPhase::Basis,
                WorkerEvent::BasisTaken { wait, cancelled, needs_compaction, l0 },
            ) => {
                let waited = m.lock_observed(WriterLockKind::CompactionBasis, nanos(wait), true);
                if cancelled {
                    waited.result_observed(t, CompactionStatus::Cancelled, 0, 0, 0, 0)
                } else if needs_compaction {
                    waited
                } else {
                    waited.result_observed(t, CompactionStatus::Noop, l0, l0, 0, 0)
                }
            },
            (
                WorkerPhase::Prepare { l0_before },
                WorkerEvent::Prepared { elapsed, ok, cancelled },
            ) => {
                let timed = m.phase_observed(t, CompactionPhase::Prepare, nanos(elapsed));
                if !ok {
                    timed.result_observed(
                        t,
                        CompactionStatus::PrepareError,
                        l0_before,
                        l0_before,
                        0,
                        0,
                    )
                } else if cancelled {
                    timed.result_observed(
                        t,
                        CompactionStatus::Cancelled,
                        l0_before,
                        l0_before,
                        0,
                        0,
                    )
                } else {
                    timed
                }
            },
            (
                WorkerPhase::InstallLock { l0_before },
                WorkerEvent::InstallLocked { wait, cancelled, l0 },
            ) => {
                let waited = m.lock_observed(
                    WriterLockKind::CompactionInstall,
                    nanos(wait),
                    true,
                ).phase_observed(t, CompactionPhase::InstallWait, nanos(wait));
                if cancelled {
                    waited.result_observed(t, CompactionStatus::Cancelled, l0_before, l0, 0, 0)
                } else {
                    waited
                }
            },
            (
                WorkerPhase::Install { l0_before },
                WorkerEvent::Installed { removed, written, l0_after },
            ) => {
                let status = if removed > 0 {
                    CompactionStatus::Applied
                } else {
                    CompactionStatus::Noop
                };
                m.result_observed(t, status, l0_before, l0_after, removed, written)
            },
            (
                WorkerPhase::Install { l0_before },
                WorkerEvent::InstallFailed { stale, cancelled, l0_after },
            ) => {
                let status = if stale {
                    CompactionStatus::Stale
                } else {
                    CompactionStatus::InstallError
                };
                m.result_observed(t, status, l0_before, l0_after, 0, 0)
            },
            (WorkerPhase::Settle { .. }, WorkerEvent::Settled { held }) => m.phase_observed(
                t,
                CompactionPhase::InstallHold,
                nanos(held),
            ),
            _ => m,
        }
    }

    /// The worker and its scheduler after an answer.
    pub open spec fn after(self, event: WorkerEvent, scheduler: CompactionScheduler) -> (
        CompactionWorker,
        CompactionScheduler,
    ) {
        match self.moved(event) {
            WorkerMove::Stay => (self, scheduler),
            WorkerMove::Goto(phase) => (CompactionWorker { phase, ..self }, scheduler),
            WorkerMove::EndPass => match scheduler.pending {
                Some(trigger) => (
                    CompactionWorker { trigger, phase: WorkerPhase::Check },
                    scheduler.passed(),
                ),
                None => (CompactionWorker { phase: WorkerPhase::Done, ..self }, scheduler.passed()),
            },
            WorkerMove::Abandon => (
                CompactionWorker { phase: WorkerPhase::Done, ..self },
                CompactionScheduler::idle(),
            ),
        }
    }

    /// Whether the writer is held while the answer is waited for.
    pub open spec fn holds_writer(self) -> bool {
        self.phase is Install || self.phase is Settle
    }

    /// A pass that ended: goes on to the follow-up, or stops.
    fn end_pass(self, scheduler: &mut CompactionScheduler) -> (next: CompactionWorker)
        ensures
            *final(scheduler) == old(scheduler).passed(),
            next == (match old(scheduler).pending {
                Some(trigger) => CompactionWorker { trigger, phase: WorkerPhase::Check },
                None => CompactionWorker { phase: WorkerPhase::Done, ..self },
            }),
    {
        match scheduler.next_trigger_or_stop() {
            Some(trigger) => CompactionWorker { trigger, phase: WorkerPhase::Check },
            None => CompactionWorker { trigger: self.trigger, phase: WorkerPhase::Done },
        }
    }

    /// A worker that stops at once.
    fn abandon(
        self,
        scheduler: &mut CompactionScheduler,
        metrics: &mut Metrics,
        l0_before: usize,
        l0_after: usize,
    ) -> (next: CompactionWorker)
        ensures
            *final(scheduler) == CompactionScheduler::idle(),
            final(metrics)@ == old(metrics)@.result_observed(
                self.trigger,
                CompactionStatus::Cancelled,
                l0_before,
                l0_after,
                0,
                0,
            ),
            next == (CompactionWorker { phase: WorkerPhase::Done, ..self }),
    {
        metrics.observe_compaction_result(
            self.trigger,
            CompactionStatus::Cancelled,
            l0_before,
            l0_after,
            0,
            0,
        );
        scheduler.worker_dropped();
        CompactionWorker { trigger: self.trigger, phase: WorkerPhase::Done }
    }

    /// The same worker in another phase.
    fn goto(self, phase: WorkerPhase) -> (next: CompactionWorker)
        ensures
            next == (CompactionWorker { phase, ..self }),
    {
        CompactionWorker { trigger: self.trigger, phase }
    }

    /// Takes one answer in: moves the worker on, keeps the scheduler in step and
    /// records what happened.
    pub fn advance(
        self,
        event: WorkerEvent,
        scheduler: &mut CompactionScheduler,
        metrics: &mut Metrics,
    ) -> (next: CompactionWorker)
        ensures
            (next, *final(scheduler)) == self.after(event, *old(scheduler)),
            final(metrics)@ == self.recorded(event, old(metrics)@),
    {
        let t = self.trigger;
        match (self.phase, event) {
            (WorkerPhase::Check, WorkerEvent::Checked { cancelled }) => {
                if cancelled {
                    self.abandon(scheduler, metrics, 0, 0)
                } else {
                    self.goto(WorkerPhase::Gate)
                }
            },
            (WorkerPhase::Gate, WorkerEvent::GateHeld { cancelled }) => {
                if cancelled {
                    self.abandon(scheduler, metrics, 0, 0)
                } else {
                    self.goto(WorkerPhase::Basis)
                }
            },
            (
                WorkerPhase::Basis,
                WorkerEvent::BasisTaken { wait, cancelled, needs_compaction, l0 },
            ) => {
                metrics.observe_writer_lock(WriterLockKind::CompactionBasis, wait, true);
                if cancelled {
                    self.abandon(scheduler, metrics, 0, 0)
                } else if needs_compaction {
                    self.goto(WorkerPhase::Prepare { l0_before: l0 })
                } else {
                    metrics.observe_compaction_result(t, CompactionStatus::Noop, l0, l0, 0, 0);
                    self.end_pass(scheduler)
                }
            },
            (
                WorkerPhase::Prepare { l0_before },
                WorkerEvent::Prepared { elapsed, ok, cancelled },
            ) => {
                metrics.observe_compaction_phase(t, CompactionPhase::Prepare, elapsed);
                if !ok {
                    metrics.observe_compaction_result(
                        t,
                        CompactionStatus::PrepareError,
                        l0_before,
                        l0_before,
                        0,
                        0,
                    );
                    self.end_pass(scheduler)
                } else if cancelled {
                    self.abandon(scheduler, metrics, l0_before, l0_before)
                } else {
                    self.goto(WorkerPhase::InstallLock { l0_before })
                }
            },
            (
                WorkerPhase::InstallLock { l0_before },
                WorkerEvent::InstallLocked { wait, cancelled, l0 },
            ) => {
                metrics.observe_writer_lock(WriterLockKind::CompactionInstall, wait, true);
                metrics.observe_compaction_phase(t, CompactionPhase::InstallWait, wait);
                if cancelled {
                    self.abandon(scheduler, metrics, l0_before, l0)
                } else {
                    self.goto(WorkerPhase::Install { l0_before })
                }
            },
            (
                WorkerPhase::Install { l0_before },
                WorkerEvent::Installed { removed, written, l0_after },
            ) => {
                let status = if removed > 0 {
                    CompactionStatus::Applied
                } else {
                    CompactionStatus::Noop
                };
                metrics.observe_compaction_result(
                    t,
                    status,
                    l0_before,
                    l0_after,
                    removed,
                    written,
                );
                self.goto(WorkerPhase::Settle { publish: removed > 0, recover: false })
            },
            (
                WorkerPhase::Install { l0_before },
                WorkerEvent::InstallFailed { stale, cancelled, l0_after },
            ) => {
                let status = if stale {
                    CompactionStatus::Stale
                } else {
                    CompactionStatus::InstallError
                };
                metrics.observe_compaction_result(t, status, l0_before, l0_after, 0, 0);
                self.goto(WorkerPhase::Settle { publish: false, recover: !cancelled })
            },
            (WorkerPhase::Settle { .. }, WorkerEvent::Settled { held }) => {
                metrics.observe_compaction_phase(t, CompactionPhase::InstallHold, held);
                self.end_pass(scheduler)
            },
            _ => self,
        }
    }
}

/// Requests a compaction. Only a request that finds no worker starts one; a
/// request that is coalesced is counted, and none creates anything to wait on.
pub fn request_compaction(
    scheduler: &mut CompactionScheduler,
    trigger: CompactionTrigger,
    metrics: &mut Metrics,
) -> (r: Option<CompactionWorker>)
    ensures
        *final(scheduler) == old(scheduler).admitted(trigger),
        r == if old(scheduler).admission() is StartWorker {
            Some(CompactionWorker { trigger, phase: WorkerPhase::Check })
        } else {
            None
        },
        final(metrics)@ == if old(scheduler).admission() is Coalesced {
            old(metrics)@.result_observed(trigger, CompactionStatus::Coalesced, 0, 0, 0, 0)
        } else {
            old(metrics)@
        },
{
    match scheduler.admit_trigger(trigger) {
        Admission::QueuedFollowUp => None,
        Admission::Coalesced => {
            metrics.observe_compaction_result(trigger, CompactionStatus::Coalesced, 0, 0, 0, 0);
            None
        },
        Admission::StartWorker => Some(CompactionWorker { trigger, phase: WorkerPhase::Check }),
    }
}

/// No trigger is lost: once it is taken in, a worker is active, and if one was
/// active before, a follow-up is pending behind it.
pub proof fn law_no_trigger_is_lost(s: CompactionScheduler, trigger: CompactionTrigger)
    ensures
        s.admitted(trigger).worker_active,
        s.worker_active ==> s.admitted(trigger).pending is Some,
        s.worker_active && s.pending is Some ==> s.admitted(trigger) == s,
{
}

/// The scheduler after `n` more triggers of one sort.
pub open spec fn burst(s: CompactionScheduler, trigger: CompactionTrigger, n: nat) -> CompactionScheduler
    decreases n,
{
    if n == 0 {
        s
    } else {
        burst(s, trigger, (n - 1) as nat).admitted(trigger)
    }
}

/// A burst behind a worker reserves one follow-up, whatever its length: from the
/// second trigger on each one is coalesced.
pub proof fn law_burst_is_bounded(s: CompactionScheduler, trigger: CompactionTrigger, n: nat)
    requires
        s.worker_active,
        s.pending is None,
        n > 0,
    ensures
        burst(s, trigger, n) == (CompactionScheduler {
            worker_active: true,
            pending: Some(trigger),
        }),
        burst(s, trigger, n).admission() is Coalesced,
    decreases n,
{
    if n > 1 {
        law_burst_is_bounded(s, trigger, (n - 1) as nat);
    } else {
        assert(burst(s, trigger, 0) == s);
    }
}

/// As long as a worker is not done its scheduler counts it active, and a worker
/// that is done leaves its scheduler idle: so there is never a second one.
pub proof fn law_worker_and_scheduler_agree(
    worker: CompactionWorker,
    event: WorkerEvent,
    scheduler: CompactionScheduler,
)
    requires
        !(worker.phase is Done),
        scheduler.worker_active,
    ensures
        ({
            let (next, after) = worker.after(event, scheduler);
            &&& next.phase is Done ==> after == CompactionScheduler::idle()
            &&& !(next.phase is Done) ==> after.worker_active
        }),
{
}

/// The worker after a whole series of answers within one pass, with no follow-up
/// pending behind it.
pub open spec fn worker_trace(
    worker: CompactionWorker,
    events: Seq<WorkerEvent>,
) -> CompactionWorker
    decreases events.len(),
{
    if events.len() == 0 {
        worker
    } else {
        worker_trace(worker, events.drop_last()).after(
            events.last(),
            CompactionScheduler { worker_active: true, pending: None },
        ).0
    }
}

/// The answers that a pass took in: those that it waited for when they came.
pub open spec fn worker_heard(worker: CompactionWorker, events: Seq<WorkerEvent>) -> Seq<
    WorkerEvent,
>
    decreases events.len(),
{
    if events.len() == 0 {
        Seq::empty()
    } else {
        let before = events.drop_last();
        let now = worker_trace(worker, before);
        if now.moved(events.last()) is Stay {
            worker_heard(worker, before)
        } else {
            worker_heard(worker, before).push(events.last())
        }
    }
}

/// Whether an answer tells that the namespace has been retired.
pub open spec fn tells_retired(event: WorkerEvent) -> bool {
    match event {
        WorkerEvent::Checked { cancelled } => cancelled,
        WorkerEvent::GateHeld { cancelled } => cancelled,
        WorkerEvent::BasisTaken { cancelled, .. } => cancelled,
        WorkerEvent::Prepared { cancelled, .. } => cancelled,
        WorkerEvent::InstallLocked { cancelled, .. } => cancelled,
        _ => false,
    }
}

/// Whether the answers are those of a pass that got as far as `n` steps: it was
/// checked, let in, given a basis that needs compaction, prepared, and given the
/// writer to install.
pub open spec fn pass_went(heard: Seq<WorkerEvent>, n: int) -> bool {
    &&& heard.len() >= n
    &&& n > 0 ==> heard[0] is Checked
    &&& n > 1 ==> heard[1] is GateHeld
    &&& n > 2 ==> (heard[2] matches WorkerEvent::BasisTaken { needs_compaction, .. }
        && needs_compaction)
    &&& n > 3 ==> (heard[3] matches WorkerEvent::Prepared { ok, .. } && ok)
    &&& n > 4 ==> heard[4] is InstallLocked
    &&& forall|i: int| 0 <= i < n ==> !tells_retired(#[trigger] heard[i])
}

/// Over every series of answers, what a pass has been answered tells exactly how
/// far it came: it is installed only after it was checked, let in, given a basis
/// that needs compaction, prepared and given the writer, in that order and with the
/// namespace found there each time; what is published is an install that removed
/// something, and the writer is looked after exactly if the install failed on a
/// namespace that is still there. A pass is over early only because the namespace
/// was gone, there was nothing to compact, or the merge failed.
#[verifier::rlimit(40)]
#[verifier::spinoff_prover]
pub proof fn law_pass_story(trigger: CompactionTrigger, events: Seq<WorkerEvent>)
    ensures
        ({
            let first = CompactionWorker { trigger, phase: WorkerPhase::Check };
            let worker = worker_trace(first, events);
            let heard = worker_heard(first, events);
            let n = heard.len() as int;
            &&& worker.trigger == trigger
            &&& match worker.phase {
                WorkerPhase::Check => n == 0,
                WorkerPhase::Gate => n == 1 && pass_went(heard, 1),
                WorkerPhase::Basis => n == 2 && pass_went(heard, 2),
                WorkerPhase::Prepare { l0_before } => n == 3 && pass_went(heard, 3)
                    && heard[2]->BasisTaken_l0 == l0_before,
                WorkerPhase::InstallLock { l0_before } => n == 4 && pass_went(heard, 4)
                    && heard[2]->BasisTaken_l0 == l0_before,
                WorkerPhase::Install { l0_before } => n == 5 && pass_went(heard, 5)
                    && heard[2]->BasisTaken_l0 == l0_before,
                WorkerPhase::Settle { publish, recover } => n == 6 && pass_went(heard, 5) && match
                    heard[5] {
                    WorkerEvent::Installed { removed, .. } => !recover && (publish <==> removed
                        > 0),
                    WorkerEvent::InstallFailed { cancelled, .. } => !publish && (recover
                        <==> !cancelled),
                    _ => false,
                },
                WorkerPhase::Done => {
                    ||| {
                        &&& n == 7
                        &&& pass_went(heard, 5)
                        &&& heard[5] is Installed || heard[5] is InstallFailed
                        &&& heard[6] is Settled
                    }
                    ||| 1 <= n <= 5 && pass_went(heard, n - 1) && tells_retired(heard[n - 1])
                    ||| n == 3 && pass_went(heard, 2) && (
                    heard[2] matches WorkerEvent::BasisTaken { needs_compaction, .. }
                        && !needs_compaction)
                    ||| n == 4 && pass_went(heard, 3) && (
                    heard[3] matches WorkerEvent::Prepared { ok, .. } && !ok)
                },
            }
        }),
    decreases events.len(),
{
    if events.len() > 0 {
        let before = events.drop_last();
        law_pass_story(trigger, before);
        let first = CompactionWorker { trigger, phase: WorkerPhase::Check };
        let heard = worker_heard(first, before);
        let more = heard.push(events.last());
        assert forall|i: int| 0 <= i < heard.len() implies #[trigger] more[i] == heard[i] by {}
        assert(more[heard.len() as int] == events.last());
    }
}

/// A worker listens to the answer to what it asked, to either outcome of it, and
/// to nothing else.
pub proof fn law_worker_listens(worker: CompactionWorker, event: WorkerEvent)
    ensures
        !(worker.moved(event) is Stay) <==> match worker.phase {
            WorkerPhase::Check => event is Checked,
            WorkerPhase::Gate => event is GateHeld,
            WorkerPhase::Basis => event is BasisTaken,
            WorkerPhase::Prepare { .. } => event is Prepared,
            WorkerPhase::InstallLock { .. } => event is InstallLocked,
            WorkerPhase::Install { .. } => event is Installed || event is InstallFailed,
            WorkerPhase::Settle { .. } => event is Settled,
            WorkerPhase::Done => false,
        },
{
}

/// A pass that is over hands its place to the follow-up that is pending, under
/// that one's trigger and from the first check on, and none is lost or run twice;
/// a retired namespace drops it.
pub proof fn law_follow_up_takes_over(
    worker: CompactionWorker,
    event: WorkerEvent,
    scheduler: CompactionScheduler,
)
    requires
        scheduler.worker_active,
    ensures
        ({
            let (next, after) = worker.after(event, scheduler);
            &&& worker.moved(event) is EndPass ==> match scheduler.pending {
                Some(trigger) => next == (CompactionWorker { trigger, phase: WorkerPhase::Check })
                    && after == (CompactionScheduler { worker_active: true, pending: None }),
                None => next.phase is Done && after == CompactionScheduler::idle(),
            }
            &&& worker.moved(event) is Goto || worker.moved(event) is Stay ==> after == scheduler
                && next.trigger == worker.trigger
            &&& worker.moved(event) is Stay ==> next == worker
        }),
{
}

/// How often passes of one trigger have come to a status.
pub open spec fn passes(m: MetricsModel, trigger: CompactionTrigger, status: CompactionStatus) -> u64 {
    m.compactions[trigger.slot()].statuses[status.slot()]
}

/// The status that an answer brings a pass to, if it brings it to one: every pass
/// comes to exactly one.
pub open spec fn comes_to(worker: CompactionWorker, event: WorkerEvent) -> Option<
    CompactionStatus,
> {
    if worker.moved(event) is Abandon {
        Some(CompactionStatus::Cancelled)
    } else {
        match (worker.phase, event) {
            (WorkerPhase::Install { .. }, WorkerEvent::Installed { removed, .. }) => Some(
                if removed > 0 {
                    CompactionStatus::Applied
                } else {
                    CompactionStatus::Noop
                },
            ),
            (WorkerPhase::Install { .. }, WorkerEvent::InstallFailed { stale, .. }) => Some(
                if stale {
                    CompactionStatus::Stale
                } else {
                    CompactionStatus::InstallError
                },
            ),
            (WorkerPhase::Prepare { .. }, WorkerEvent::Prepared { ok: false, .. }) => Some(
                CompactionStatus::PrepareError,
            ),
            (WorkerPhase::Basis, WorkerEvent::BasisTaken { needs_compaction: false, .. }) => Some(
                CompactionStatus::Noop,
            ),
            _ => None,
        }
    }
}

/// An answer is recorded under the trigger of the pass and the status that it
/// brings the pass to, once, and under no other; and what was removed and written
/// is what the install says.
pub proof fn law_pass_is_recorded_once(
    worker: CompactionWorker,
    event: WorkerEvent,
    m: MetricsModel,
    trigger: CompactionTrigger,
    status: CompactionStatus,
)
    requires
        m.wf(),
    ensures
        ({
            let after = worker.recorded(event, m);
            let counted = trigger == worker.trigger && comes_to(worker, event) == Some(status);
            let c = m.compactions[worker.trigger.slot()];
            let d = after.compactions[worker.trigger.slot()];
            &&& passes(after, trigger, status) == if counted {
                wrap(passes(m, trigger, status) + 1)
            } else {
                passes(m, trigger, status)
            }
            &&& worker.phase is Install ==> (event matches WorkerEvent::Installed {
                removed,
                written,
                l0_after,
            } ==> d.removed_ssts == wrap(c.removed_ssts + removed) && d.written_ssts == wrap(
                c.written_ssts + written,
            ) && d.l0_after == l0_after as u64 && d.l0_before == worker.phase->Install_l0_before
                as u64)
            &&& after.http == m.http
            &&& after.bolt == m.bolt
        }),
{
}

/// A namespace that is found retired before the install has begun is left
/// alone: nothing is installed, and the worker stops.
pub proof fn law_retirement_stops_before_install(
    worker: CompactionWorker,
    event: WorkerEvent,
    scheduler: CompactionScheduler,
)
    requires
        match event {
            WorkerEvent::Checked { cancelled } => cancelled && worker.phase is Check,
            WorkerEvent::GateHeld { cancelled } => cancelled && worker.phase is Gate,
            WorkerEvent::BasisTaken { cancelled, .. } => cancelled && worker.phase is Basis,
            WorkerEvent::Prepared { cancelled, ok, .. } => cancelled && ok
                && worker.phase is Prepare,
            WorkerEvent::InstallLocked { cancelled, .. } => cancelled
                && worker.phase is InstallLock,
            _ => false,
        },
    ensures
        worker.after(event, scheduler).0.phase is Done,
        !worker.after(event, scheduler).0.holds_writer(),
        worker.after(event, scheduler).1 == CompactionScheduler::idle(),
{
}

/// The writer is held for the install and what settles it, never for the merge;
/// and it is taken only by an answer to the wait for it.
pub proof fn law_merge_runs_off_lock(
    worker: CompactionWorker,
    event: WorkerEvent,
    scheduler: CompactionScheduler,
)
    ensures
        worker.phase is Prepare ==> !worker.holds_writer(),
        !worker.holds_writer() && worker.after(event, scheduler).0.holds_writer()
            ==> event is InstallLocked && worker.phase is InstallLock,
        worker.after(event, scheduler).0.phase is Settle && !(worker.phase is Settle)
            ==> worker.phase is Install,
{
}

} // verus!
