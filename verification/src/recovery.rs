//! Writer health and automatic writer-session recovery.
//!
//! A fenced epoch, a lost manifest race or a poisoned session mean that the
//! session must be dropped and reopened. After a failed commit or flush the write
//! paths run a recovery pass under the writer lock they already hold: bounded
//! attempts with a growing pause, and the snapshot republished on success.
//! [`WriterHealth`] carries the outcome to the readiness probe.

use vstd::prelude::*;

use crate::engine::{ExecFailure, ExecKind};
use crate::text::{decimal, has_prefix, push_decimal, starts_with};

verus! {

/// Reopen attempts per recovery pass.
pub const REOPEN_ATTEMPTS: u32 = 3;

/// The pause after the first failed attempt, in milliseconds; it grows by as
/// much with every further one.
pub const REOPEN_BACKOFF_MILLIS: u64 = 50;

/// How every reason starts that the read-fence probe sets.
pub open spec fn fence_prefix() -> Seq<char> {
    "fenced by peer writer"@
}

/// What the read-fence probe reports of a peer that holds a higher epoch.
pub open spec fn fence_reason(observed: u64, local: u64) -> Seq<char> {
    "fenced by peer writer"@ + ": observed epoch "@ + decimal(observed as nat) + " > local "@
        + decimal(local as nat)
        + " (published snapshot is stale; writes will fail until reopen)"@
}

/// What keeps the writer from serving.
#[verifier::ext_equal]
pub struct HealthModel {
    /// The commit, flush or fence failure that a reopen has not yet cleared.
    pub degraded: Option<Seq<char>>,
    /// The local-persistence failure that a flush has not yet cleared.
    pub persistence: Option<Seq<char>>,
}

impl HealthModel {
    /// After one look at the epoch of the store's current manifest: a higher one
    /// than the published snapshot's degrades; parity clears only what the probe
    /// itself has set.
    pub open spec fn probed(self, observed: u64, local: u64) -> HealthModel {
        HealthModel {
            degraded: if observed > local {
                Some(fence_reason(observed, local))
            } else {
                match self.degraded {
                    Some(r) if has_prefix(r, fence_prefix()) => None,
                    other => other,
                }
            },
            ..self
        }
    }
}

/// Writer status for the readiness probe.
#[derive(Debug)]
pub struct WriterHealth {
    degraded: Option<String>,
    persistence: Option<String>,
}

/// The view of an optional text.
pub open spec fn option_text(s: Option<String>) -> Option<Seq<char>> {
    match s {
        Some(t) => Some(t@),
        None => None,
    }
}

impl View for WriterHealth {
    type V = HealthModel;

    closed spec fn view(&self) -> HealthModel {
        HealthModel {
            degraded: option_text(self.degraded),
            persistence: option_text(self.persistence),
        }
    }
}

impl WriterHealth {
    /// A writer that serves.
    pub fn new() -> (r: WriterHealth)
        ensures
            r@ == (HealthModel { degraded: None, persistence: None }),
    {
        WriterHealth { degraded: None, persistence: None }
    }

    /// The failure that keeps the writer degraded, if there is one.
    pub fn degraded_reason(&self) -> (r: Option<String>)
        ensures
            option_text(r) == self@.degraded,
    {
        match &self.degraded {
            Some(s) => Some(s.clone()),
            None => None,
        }
    }

    /// `ok` or `degraded`.
    pub fn status(&self) -> (r: &'static str)
        ensures
            r@ == if self@.degraded is Some {
                "degraded"@
            } else {
                "ok"@
            },
    {
        if self.is_degraded() {
            "degraded"
        } else {
            "ok"
        }
    }

    /// Whether the writer is degraded.
    pub fn is_degraded(&self) -> (r: bool)
        ensures
            r == (self@.degraded is Some),
    {
        self.degraded.is_some()
    }

    /// Records a failure.
    pub fn mark_degraded(&mut self, reason: String)
        ensures
            final(self)@ == (HealthModel { degraded: Some(reason@), ..old(self)@ }),
    {
        self.degraded = Some(reason);
    }

    /// Records that the writer serves again.
    pub fn mark_ok(&mut self)
        ensures
            final(self)@ == (HealthModel { degraded: None, ..old(self)@ }),
    {
        self.degraded = None;
    }

    /// The local-persistence failure that closes the write intake, if there is
    /// one.
    pub fn persistence_degraded_reason(&self) -> (r: Option<String>)
        ensures
            option_text(r) == self@.persistence,
    {
        match &self.persistence {
            Some(s) => Some(s.clone()),
            None => None,
        }
    }

    /// Records a local-persistence failure.
    pub fn mark_persistence_degraded(&mut self, reason: String)
        ensures
            final(self)@ == (HealthModel { persistence: Some(reason@), ..old(self)@ }),
    {
        self.persistence = Some(reason);
    }

    /// Records that a flush got through.
    pub fn clear_persistence_degraded(&mut self)
        ensures
            final(self)@ == (HealthModel { persistence: None, ..old(self)@ }),
    {
        self.persistence = None;
    }

    /// Takes one read-fence probe in.
    pub fn observe_peer_epoch(&mut self, observed: u64, local: u64)
        ensures
            final(self)@ == old(self)@.probed(observed, local),
    {
        if observed > local {
            let mut reason = "fenced by peer writer".to_owned();
            reason.append(": observed epoch ");
            push_decimal(&mut reason, observed);
            reason.append(" > local ");
            push_decimal(&mut reason, local);
            reason.append(" (published snapshot is stale; writes will fail until reopen)");
            self.degraded = Some(reason);
        } else {
            let clear = match &self.degraded {
                Some(r) => starts_with(r.as_str(), "fenced by peer writer"),
                None => false,
            };
            if clear {
                self.degraded = None;
            }
        }
    }
}

/// What a flush failure on local persistence is recorded as, for the operator
/// who reads the health report.
pub open spec fn persistence_reason(error: Seq<char>) -> Seq<char> {
    "flush failed on local persistence (spool disk full or unwritable?): "@ + error
        + "; writes are rejected with 507 and reads keep serving the last committed state; the flush retries automatically and recovery clears this"@
}

/// What a flush failure on local persistence is recorded as.
pub fn persistence_degraded_reason(error: &str) -> (out: String)
    ensures
        out@ == persistence_reason(error@),
{
    let mut out =
        "flush failed on local persistence (spool disk full or unwritable?): ".to_owned();
    out.append(error);
    out.append(
        "; writes are rejected with 507 and reads keep serving the last committed state; the flush retries automatically and recovery clears this",
    );
    out
}

/// What a recovery pass waits for.
#[derive(Debug, Clone, Copy, PartialEq, Eq, Structural)]
pub enum RecoveryPhase {
    /// One attempt to reopen the session.
    Reopen { attempt: u32 },
    /// The recovered session's snapshot to be published.
    Publish,
    /// The pause after a failed attempt.
    Backoff { attempt: u32 },
    /// Nothing any more; `restored` when a reopen has landed.
    Done { restored: bool },
}

/// An answer to what a recovery pass waits for.
#[derive(Debug, Clone, Copy, PartialEq, Eq, Structural)]
pub enum RecoveryEvent {
    Reopened,
    ReopenFailed,
    Published,
    Waited,
}

/// One recovery pass, under the writer lock of the caller.
#[derive(Debug, Clone, Copy, PartialEq, Eq, Structural)]
pub struct RecoveryPass {
    pub phase: RecoveryPhase,
}

impl RecoveryPass {
    /// The pass after an answer.
    pub open spec fn after(self, event: RecoveryEvent) -> RecoveryPass {
        let phase = match (self.phase, event) {
            (RecoveryPhase::Reopen { .. }, RecoveryEvent::Reopened) => RecoveryPhase::Publish,
            (RecoveryPhase::Reopen { attempt }, RecoveryEvent::ReopenFailed) => if attempt
                < REOPEN_ATTEMPTS {
                RecoveryPhase::Backoff { attempt }
            } else {
                RecoveryPhase::Done { restored: false }
            },
            (RecoveryPhase::Publish, RecoveryEvent::Published) => RecoveryPhase::Done {
                restored: true,
            },
            (RecoveryPhase::Backoff { attempt }, RecoveryEvent::Waited) => RecoveryPhase::Reopen {
                attempt: (attempt + 1) as u32,
            },
            (phase, _) => phase,
        };
        RecoveryPass { phase }
    }

    /// The attempt number never passes the limit.
    pub open spec fn wf(self) -> bool {
        match self.phase {
            RecoveryPhase::Reopen { attempt } => 1 <= attempt <= REOPEN_ATTEMPTS,
            RecoveryPhase::Backoff { attempt } => 1 <= attempt < REOPEN_ATTEMPTS,
            _ => true,
        }
    }

    /// Starts a pass if `error` has left the session beyond retry in place:
    /// either the error itself demands a reopen, or the session is poisoned. The
    /// writer is degraded from here on until a reopen lands.
    pub fn start(
        error: &str,
        requires_reopen: bool,
        poisoned: bool,
        health: &mut WriterHealth,
    ) -> (r: Option<RecoveryPass>)
        ensures
            r is Some <==> needs_reopen(requires_reopen, poisoned),
            r == if requires_reopen || poisoned {
                Some(RecoveryPass { phase: RecoveryPhase::Reopen { attempt: 1 } })
            } else {
                None
            },
            final(health)@ == if requires_reopen || poisoned {
                HealthModel { degraded: Some(error@), ..old(health)@ }
            } else {
                old(health)@
            },
    {
        if !(requires_reopen || poisoned) {
            return None;
        }
        health.mark_degraded(error.to_owned());
        Some(RecoveryPass { phase: RecoveryPhase::Reopen { attempt: 1 } })
    }

    /// Starts a pass after a statement that failed, if that can have broken the
    /// session at all: only a failure of the storage can.
    pub fn start_after_write(
        failure: &ExecFailure,
        requires_reopen: bool,
        poisoned: bool,
        health: &mut WriterHealth,
    ) -> (r: Option<RecoveryPass>)
        ensures
            r is Some <==> failure.kind is Storage && needs_reopen(requires_reopen, poisoned),
            r == if failure.kind is Storage && (requires_reopen || poisoned) {
                Some(RecoveryPass { phase: RecoveryPhase::Reopen { attempt: 1 } })
            } else {
                None
            },
            final(health)@ == if failure.kind is Storage && (requires_reopen || poisoned) {
                HealthModel { degraded: Some(failure.detail@), ..old(health)@ }
            } else {
                old(health)@
            },
    {
        match failure.kind {
            ExecKind::Storage { .. } => RecoveryPass::start(
                failure.detail.as_str(),
                requires_reopen,
                poisoned,
                health,
            ),
            _ => None,
        }
    }

    /// Takes one answer in. Publishing the recovered session ends the
    /// degradation.
    pub fn advance(self, event: RecoveryEvent, health: &mut WriterHealth) -> (next: RecoveryPass)
        requires
            self.wf(),
        ensures
            next == self.after(event),
            next.wf(),
            final(health)@ == if self.phase is Publish && event is Published {
                HealthModel { degraded: None, ..old(health)@ }
            } else {
                old(health)@
            },
    {
        let phase = match (self.phase, event) {
            (RecoveryPhase::Reopen { .. }, RecoveryEvent::Reopened) => RecoveryPhase::Publish,
            (RecoveryPhase::Reopen { attempt }, RecoveryEvent::ReopenFailed) => {
                if attempt < REOPEN_ATTEMPTS {
                    RecoveryPhase::Backoff { attempt }
                } else {
                    RecoveryPhase::Done { restored: false }
                }
            },
            (RecoveryPhase::Publish, RecoveryEvent::Published) => {
                health.mark_ok();
                RecoveryPhase::Done { restored: true }
            },
            (RecoveryPhase::Backoff { attempt }, RecoveryEvent::Waited) => RecoveryPhase::Reopen {
                attempt: attempt + 1,
            },
            (phase, _) => phase,
        };
        RecoveryPass { phase }
    }

    /// The pause after a failed attempt, in milliseconds; none in any other
    /// phase.
    pub fn backoff_millis(self) -> (r: u64)
        ensures
            r == match self.phase {
                RecoveryPhase::Backoff { attempt } => REOPEN_BACKOFF_MILLIS * attempt,
                _ => 0int,
            },
    {
        match self.phase {
            RecoveryPhase::Backoff { attempt } => {
                assert(REOPEN_BACKOFF_MILLIS * attempt <= u64::MAX) by (nonlinear_arith)
                    requires
                        attempt <= u32::MAX,
                        REOPEN_BACKOFF_MILLIS == 50,
                ;
                REOPEN_BACKOFF_MILLIS * attempt as u64
            },
            _ => 0,
        }
    }
}

/// The pass after a whole series of answers.
pub open spec fn recovery_trace(pass: RecoveryPass, events: Seq<RecoveryEvent>) -> RecoveryPass
    decreases events.len(),
{
    if events.len() == 0 {
        pass
    } else {
        recovery_trace(pass, events.drop_last()).after(events.last())
    }
}

/// Whatever answers come, a pass makes at most the bounded number of attempts,
/// and it reports the session restored only if a reopen landed and was
/// published.
pub proof fn law_recovery_is_bounded(events: Seq<RecoveryEvent>)
    ensures
        ({
            let first = RecoveryPass { phase: RecoveryPhase::Reopen { attempt: 1 } };
            let pass = recovery_trace(first, events);
            &&& pass.wf()
            &&& pass.phase is Publish || pass.phase == (RecoveryPhase::Done { restored: true })
                ==> events.contains(RecoveryEvent::Reopened)
            &&& pass.phase == (RecoveryPhase::Done { restored: true }) ==> events.contains(
                RecoveryEvent::Published,
            )
        }),
    decreases events.len(),
{
    if events.len() > 0 {
        let before = events.drop_last();
        law_recovery_is_bounded(before);
        assert forall|e: RecoveryEvent| before.contains(e) implies events.contains(e) by {
            let i = choose|i: int| 0 <= i < before.len() && before[i] == e;
            assert(events[i] == e);
        }
        assert(events.contains(events.last())) by {
            assert(events[events.len() - 1] == events.last());
        }
    }
}

/// The answers that a recovery pass took in: those that it waited for when they
/// came.
pub open spec fn recovery_heard(pass: RecoveryPass, events: Seq<RecoveryEvent>) -> Seq<
    RecoveryEvent,
>
    decreases events.len(),
{
    if events.len() == 0 {
        Seq::empty()
    } else {
        let before = events.drop_last();
        let now = recovery_trace(pass, before);
        if now.after(events.last()) == now {
            recovery_heard(pass, before)
        } else {
            recovery_heard(pass, before).push(events.last())
        }
    }
}

/// The answers of `n` failed attempts, each with the pause after it.
pub open spec fn failed_attempts(n: nat) -> Seq<RecoveryEvent> {
    Seq::new(
        2 * n,
        |i: int|
            if i % 2 == 0 {
                RecoveryEvent::ReopenFailed
            } else {
                RecoveryEvent::Waited
            },
    )
}

/// Over every series of answers, what a recovery pass has been answered tells
/// exactly how far it came: every attempt but the last of three is followed by a
/// pause, the session is restored when an attempt landed and was published, and it
/// is given up when the third attempt failed.
pub proof fn law_recovery_story(events: Seq<RecoveryEvent>)
    ensures
        ({
            let first = RecoveryPass { phase: RecoveryPhase::Reopen { attempt: 1 } };
            let heard = recovery_heard(first, events);
            match recovery_trace(first, events).phase {
                RecoveryPhase::Reopen { attempt } => 1 <= attempt <= 3 && heard
                    =~= failed_attempts((attempt - 1) as nat),
                RecoveryPhase::Backoff { attempt } => 1 <= attempt <= 2 && heard
                    =~= failed_attempts((attempt - 1) as nat).push(RecoveryEvent::ReopenFailed),
                RecoveryPhase::Publish => exists|n: nat|
                    n <= 2 && heard =~= (#[trigger] failed_attempts(n)).push(
                        RecoveryEvent::Reopened,
                    ),
                RecoveryPhase::Done { restored: true } => exists|n: nat|
                    n <= 2 && heard =~= (#[trigger] failed_attempts(n)).push(
                        RecoveryEvent::Reopened,
                    ).push(RecoveryEvent::Published),
                RecoveryPhase::Done { restored: false } => heard =~= failed_attempts(2).push(
                    RecoveryEvent::ReopenFailed,
                ),
            }
        }),
    decreases events.len(),
{
    if events.len() > 0 {
        let before = events.drop_last();
        law_recovery_story(before);
        let first = RecoveryPass { phase: RecoveryPhase::Reopen { attempt: 1 } };
        let now = recovery_trace(first, before);
        let heard = recovery_heard(first, before);
        match (now.phase, events.last()) {
            (RecoveryPhase::Backoff { attempt }, RecoveryEvent::Waited) => {
                assert(heard.push(RecoveryEvent::Waited) =~= failed_attempts(attempt as nat));
            },
            (RecoveryPhase::Reopen { attempt }, RecoveryEvent::Reopened) => {
                assert(heard =~= failed_attempts((attempt - 1) as nat));
            },
            (RecoveryPhase::Publish, RecoveryEvent::Published) => {
                let n = choose|n: nat|
                    n <= 2 && heard =~= (#[trigger] failed_attempts(n)).push(
                        RecoveryEvent::Reopened,
                    );
                assert(heard.push(RecoveryEvent::Published) =~= failed_attempts(n).push(
                    RecoveryEvent::Reopened,
                ).push(RecoveryEvent::Published));
            },
            _ => {},
        }
    }
}

/// A recovery pass listens to the answers to what it asked, to all of them, and to
/// nothing else.
pub proof fn law_recovery_listens(pass: RecoveryPass, event: RecoveryEvent)
    requires
        pass.wf(),
    ensures
        pass.after(event) != pass <==> match pass.phase {
            RecoveryPhase::Reopen { .. } => event is Reopened || event is ReopenFailed,
            RecoveryPhase::Publish => event is Published,
            RecoveryPhase::Backoff { .. } => event is Waited,
            RecoveryPhase::Done { .. } => false,
        },
{
}

/// Whether the writer has to be opened anew after a failure.
pub open spec fn needs_reopen(requires_reopen: bool, poisoned: bool) -> bool {
    requires_reopen || poisoned
}

/// A failure that asks for it and a writer that is poisoned each call for a
/// reopening by themselves, and nothing else does.
pub proof fn law_either_cause_reopens(flag: bool)
    ensures
        needs_reopen(true, flag),
        needs_reopen(flag, true),
        !needs_reopen(false, false),
{
}

/// A probe degrades the writer exactly if a peer holds a higher epoch, and names
/// both epochs in the order observed and local; at parity or below, only what a
/// probe has set is cleared.
pub proof fn law_probe_tells_epochs(h: HealthModel, observed: u64, local: u64)
    ensures
        observed > local ==> h.probed(observed, local).degraded == Some(
            "fenced by peer writer"@ + ": observed epoch "@ + decimal(observed as nat)
                + " > local "@ + decimal(local as nat)
                + " (published snapshot is stale; writes will fail until reopen)"@,
        ),
        observed <= local && h.degraded is None ==> h.probed(observed, local).degraded is None,
        observed <= local ==> (h.probed(observed, local).degraded is Some ==> h.probed(
            observed,
            local,
        ).degraded == h.degraded),
{
}

/// Epoch parity clears what the probe set and nothing else, and a probe never
/// touches the state of local persistence.
pub proof fn law_probe_clears_only_its_own(h: HealthModel, observed: u64, local: u64, epoch: u64)
    ensures
        h.probed(observed, local).persistence == h.persistence,
        observed > local ==> h.probed(observed, local).probed(epoch, epoch).degraded is None,
        observed <= local && h.degraded is Some && !has_prefix(h.degraded->Some_0, fence_prefix())
            ==> h.probed(observed, local) == h,
{
    if observed > local {
        let r = fence_reason(observed, local);
        assert(r.take(fence_prefix().len() as int) =~= fence_prefix());
    }
}

} // verus!
