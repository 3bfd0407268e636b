//! The periodic tasks of a served namespace: flushing the memtable, and
//! compacting and sweeping behind it.

use std::time::Duration;
use vstd::prelude::*;

use crate::engine::StorageFailure;
use crate::recovery::{
    persistence_degraded_reason, persistence_reason, HealthModel, WriterHealth,
};
use crate::span::nanos;

verus! {

/// How long the periodic flush holds back after a failure of local persistence,
/// in nanoseconds: trying at once would only run the same doomed work again
/// under the writer lock.
pub const FLUSH_FAILURE_RETRY_BACKOFF_NANOS: u128 = 30_000_000_000;

/// The periodic flush. Times are those of one clock, as durations since its
/// start.
#[derive(Debug)]
pub struct FlushLoop {
    /// How many level-0 tables in one bucket call for a compaction; zero
    /// switches that off.
    l0_trigger: usize,
    /// When local persistence last failed, unless a flush has got through since.
    failed_at: Option<Duration>,
}

/// What the periodic flush remembers.
pub struct FlushLoopModel {
    pub l0_trigger: usize,
    pub failed_at: Option<nat>,
}

impl View for FlushLoop {
    type V = FlushLoopModel;

    closed spec fn view(&self) -> FlushLoopModel {
        FlushLoopModel {
            l0_trigger: self.l0_trigger,
            failed_at: match self.failed_at {
                Some(d) => Some(nanos(d)),
                None => None,
            },
        }
    }
}

impl FlushLoopModel {
    /// Whether a tick, or a write that woke the task, leads to a flush.
    pub open spec fn is_due(self, now: nat) -> bool {
        match self.failed_at {
            Some(at) => now >= at + 30_000_000_000,
            None => true,
        }
    }
}

impl FlushLoop {
    /// A periodic flush that has not failed.
    pub fn new(l0_trigger: usize) -> (r: FlushLoop)
        ensures
            r@ == (FlushLoopModel { l0_trigger, failed_at: None }),
    {
        FlushLoop { l0_trigger, failed_at: None }
    }

    /// Whether a tick, or a write that woke the task, leads to a flush.
    pub fn due(&self, now: Duration) -> (r: bool)
        ensures
            r == self@.is_due(nanos(now)),
    {
        match &self.failed_at {
            Some(at) => {
                let n: u128 = now.as_nanos();
                let failed: u128 = at.as_nanos();
                n >= failed && n - failed >= FLUSH_FAILURE_RETRY_BACKOFF_NANOS
            },
            None => true,
        }
    }

    /// Notes a flush that got through, and tells whether level 0 is so full that
    /// a compaction is called for at once.
    pub fn flushed(&mut self, max_l0: usize, health: &mut WriterHealth) -> (compact: bool)
        ensures
            compact == (old(self)@.l0_trigger > 0 && max_l0 >= old(self)@.l0_trigger),
            compact == level_is_full(old(self)@.l0_trigger, max_l0),
            final(self)@ == (FlushLoopModel { failed_at: None, ..old(self)@ }),
            final(health)@ == (HealthModel { persistence: None, ..old(health)@ }),
    {
        self.failed_at = None;
        health.clear_persistence_degraded();
        self.l0_trigger > 0 && max_l0 >= self.l0_trigger
    }

    /// Notes a flush that failed: on local persistence it closes the write
    /// intake and holds the next flush back.
    pub fn failed(&mut self, failure: &StorageFailure, now: Duration, health: &mut WriterHealth)
        ensures
            final(self)@ == (FlushLoopModel {
                failed_at: if failure.local_persistence {
                    Some(nanos(now))
                } else {
                    old(self)@.failed_at
                },
                ..old(self)@
            }),
            final(health)@ == if failure.local_persistence {
                HealthModel {
                    persistence: Some(persistence_reason(failure.text@)),
                    ..old(health)@
                }
            } else {
                old(health)@
            },
    {
        if failure.local_persistence {
            health.mark_persistence_degraded(persistence_degraded_reason(failure.text.as_str()));
            self.failed_at = Some(now);
        }
    }
}

/// After a failure of local persistence no flush is tried for thirty seconds,
/// and from then on every tick tries again.
pub proof fn law_flush_backs_off(m: FlushLoopModel, at: nat, now: nat)
    requires
        m.failed_at == Some(at),
        at <= now,
    ensures
        m.is_due(now) <==> now - at >= 30_000_000_000,
{
}

/// Where one round of maintenance stands.
#[derive(Debug, Clone, Copy, PartialEq, Eq, Structural)]
pub enum MaintenancePhase {
    /// The next tick is waited for.
    Tick,
    /// A compaction is requested.
    Request,
    /// The scheduler is waited for until it is idle.
    Idle,
    /// The guard against compactions is waited for.
    Guard,
    /// The epoch of the store is compared with that of the published snapshot.
    Probe,
    /// Unreachable objects are swept, under the guard.
    Sweep,
}

/// An answer to what a round of maintenance waits for.
#[derive(Debug, Clone, Copy, PartialEq, Eq, Structural)]
pub enum MaintenanceEvent {
    Ticked,
    Requested,
    Idle,
    Guarded,
    Probed,
    /// The sweep is over, and the guard given back.
    Swept,
}

impl MaintenancePhase {
    /// The phase after an answer. An answer to something else changes nothing.
    pub open spec fn after(self, event: MaintenanceEvent) -> MaintenancePhase {
        match (self, event) {
            (MaintenancePhase::Tick, MaintenanceEvent::Ticked) => MaintenancePhase::Request,
            (MaintenancePhase::Request, MaintenanceEvent::Requested) => MaintenancePhase::Idle,
            (MaintenancePhase::Idle, MaintenanceEvent::Idle) => MaintenancePhase::Guard,
            (MaintenancePhase::Guard, MaintenanceEvent::Guarded) => MaintenancePhase::Probe,
            (MaintenancePhase::Probe, MaintenanceEvent::Probed) => MaintenancePhase::Sweep,
            (MaintenancePhase::Sweep, MaintenanceEvent::Swept) => MaintenancePhase::Tick,
            (phase, _) => phase,
        }
    }

    /// Whether compactions are kept out.
    pub open spec fn holds_guard(self) -> bool {
        self is Probe || self is Sweep
    }

    /// Takes one answer in.
    pub fn advance(self, event: MaintenanceEvent) -> (next: MaintenancePhase)
        ensures
            next == self.after(event),
    {
        match (self, event) {
            (MaintenancePhase::Tick, MaintenanceEvent::Ticked) => MaintenancePhase::Request,
            (MaintenancePhase::Request, MaintenanceEvent::Requested) => MaintenancePhase::Idle,
            (MaintenancePhase::Idle, MaintenanceEvent::Idle) => MaintenancePhase::Guard,
            (MaintenancePhase::Guard, MaintenanceEvent::Guarded) => MaintenancePhase::Probe,
            (MaintenancePhase::Probe, MaintenanceEvent::Probed) => MaintenancePhase::Sweep,
            (MaintenancePhase::Sweep, MaintenanceEvent::Swept) => MaintenancePhase::Tick,
            (phase, _) => phase,
        }
    }
}

/// A sweep runs only once the scheduler was idle and with compactions kept out,
/// so that it never meets objects that are uploaded and not yet installed.
pub proof fn law_sweep_keeps_compactions_out(phase: MaintenancePhase, event: MaintenanceEvent)
    ensures
        phase is Sweep ==> phase.holds_guard(),
        !phase.holds_guard() && phase.after(event).holds_guard() ==> event is Guarded && phase
            is Guard,
        phase.holds_guard() && !phase.after(event).holds_guard() ==> event is Swept,
        phase.after(event) is Guard && !(phase is Guard) ==> event is Idle,
{
}

/// The round after a whole series of answers.
pub open spec fn maintenance_trace(
    phase: MaintenancePhase,
    events: Seq<MaintenanceEvent>,
) -> MaintenancePhase
    decreases events.len(),
{
    if events.len() == 0 {
        phase
    } else {
        maintenance_trace(phase, events.drop_last()).after(events.last())
    }
}

/// The answers that the rounds took in: those that were waited for when they came.
pub open spec fn maintenance_heard(
    phase: MaintenancePhase,
    events: Seq<MaintenanceEvent>,
) -> Seq<MaintenanceEvent>
    decreases events.len(),
{
    if events.len() == 0 {
        Seq::empty()
    } else {
        let before = events.drop_last();
        let now = maintenance_trace(phase, before);
        if now.after(events.last()) == now {
            maintenance_heard(phase, before)
        } else {
            maintenance_heard(phase, before).push(events.last())
        }
    }
}

/// Over every series of answers, maintenance goes round and round: a tick, a
/// request for a compaction, the scheduler idle, compactions kept out, the epoch
/// probed, the sweep done; nothing is left out and nothing comes out of turn.
pub proof fn law_maintenance_goes_round(events: Seq<MaintenanceEvent>)
    ensures
        ({
            let heard = maintenance_heard(MaintenancePhase::Tick, events);
            let turn = |i: int|
                if i % 6 == 0 {
                    MaintenanceEvent::Ticked
                } else if i % 6 == 1 {
                    MaintenanceEvent::Requested
                } else if i % 6 == 2 {
                    MaintenanceEvent::Idle
                } else if i % 6 == 3 {
                    MaintenanceEvent::Guarded
                } else if i % 6 == 4 {
                    MaintenanceEvent::Probed
                } else {
                    MaintenanceEvent::Swept
                };
            &&& forall|i: int| 0 <= i < heard.len() ==> #[trigger] heard[i] == turn(i)
            &&& match maintenance_trace(MaintenancePhase::Tick, events) {
                MaintenancePhase::Tick => heard.len() % 6 == 0,
                MaintenancePhase::Request => heard.len() % 6 == 1,
                MaintenancePhase::Idle => heard.len() % 6 == 2,
                MaintenancePhase::Guard => heard.len() % 6 == 3,
                MaintenancePhase::Probe => heard.len() % 6 == 4,
                MaintenancePhase::Sweep => heard.len() % 6 == 5,
            }
        }),
    decreases events.len(),
{
    if events.len() > 0 {
        law_maintenance_goes_round(events.drop_last());
    }
}

/// A round listens to the answer to what it asked, and to nothing else.
pub proof fn law_maintenance_listens(phase: MaintenancePhase, event: MaintenanceEvent)
    ensures
        phase.after(event) != phase <==> match phase {
            MaintenancePhase::Tick => event is Ticked,
            MaintenancePhase::Request => event is Requested,
            MaintenancePhase::Idle => event is Idle,
            MaintenancePhase::Guard => event is Guarded,
            MaintenancePhase::Probe => event is Probed,
            MaintenancePhase::Sweep => event is Swept,
        },
{
}

/// Whether level 0 is so full that a compaction is called for at once.
pub open spec fn level_is_full(trigger: usize, max_l0: usize) -> bool {
    trigger > 0 && max_l0 >= trigger
}

/// A compaction is called for as soon as level 0 holds as many tables as the
/// trigger says, and then with every further one; below the trigger and without
/// one it is not.
pub proof fn law_full_level_calls_for_compaction(trigger: usize, max_l0: usize, more: usize)
    requires
        max_l0 <= more,
    ensures
        trigger > 0 ==> level_is_full(trigger, trigger),
        trigger > 0 ==> !level_is_full(trigger, (trigger - 1) as usize),
        !level_is_full(0, max_l0),
        level_is_full(trigger, max_l0) ==> level_is_full(trigger, more),
        max_l0 < trigger ==> !level_is_full(trigger, max_l0),
{
}

/// A flush loop that has not failed, or whose failure is thirty seconds old,
/// flushes; and once it is due it stays due until a flush fails again.
pub proof fn law_flush_stays_due(m: FlushLoopModel, now: nat, later: nat)
    requires
        now <= later,
    ensures
        m.failed_at is None ==> m.is_due(now),
        m.is_due(now) ==> m.is_due(later),
{
}

/// What a sweep found.
#[derive(Debug, Clone, Copy, PartialEq, Eq, Structural)]
pub struct SweepReport {
    pub orphans_found: u64,
    pub manifest_snapshots_reclaimed: u64,
    pub pointer_files_reclaimed: u64,
    pub wal_segments_reclaimed: u64,
    pub memtable_snapshots_reclaimed: u64,
}

impl SweepReport {
    /// Whether there is something to log.
    pub fn is_notable(&self) -> (r: bool)
        ensures
            r == (self.orphans_found > 0 || self.manifest_snapshots_reclaimed > 0
                || self.pointer_files_reclaimed > 0 || self.wal_segments_reclaimed > 0
                || self.memtable_snapshots_reclaimed > 0),
    {
        self.orphans_found > 0 || self.manifest_snapshots_reclaimed > 0
            || self.pointer_files_reclaimed > 0 || self.wal_segments_reclaimed > 0
            || self.memtable_snapshots_reclaimed > 0
    }
}

} // verus!
