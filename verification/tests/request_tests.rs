use namidb_server::bolt::{bolt_answer, BeginEvent, BeginPhase, ServerBackend, TxState};
use namidb_server::cypher::{HttpEvent, HttpPhase, HttpRun, HttpVerdict, PlanFacts, Statement};
use namidb_server::engine::{Payload, StorageFailure, StorageKind};
use namidb_server::flush::{
    admin_flush_bound, admin_flush_response, flush_needs_allocator_trim, FlushEvent, FlushPhase,
    FlushRun, FlushSummary, FlushVerdict,
};
use namidb_server::metrics::{Metrics, QueryKind};
use namidb_server::recovery::{RecoveryEvent, RecoveryPass, RecoveryPhase, WriterHealth};
use namidb_server::run::{BoltEvent, BoltPhase, BoltRun, BoltVerdict, TxPhase, TxRun};
use namidb_server::schema::{
    vector_index_descriptor_from, SchemaEvent, SchemaKind, SchemaPhase, SchemaRun, SchemaVerdict,
    VectorIndexClause, VectorMetric, VectorQuantization,
};
use std::time::Duration;

const READ: PlanFacts = PlanFacts {
    writes: false,
    scans: false,
};
const SCAN: PlanFacts = PlanFacts {
    writes: false,
    scans: true,
};
const WRITE: PlanFacts = PlanFacts {
    writes: true,
    scans: false,
};

fn http(allows_write: bool, scan_gate: bool, events: &[HttpEvent]) -> HttpPhase {
    let mut run = HttpRun::start(allows_write, scan_gate);
    for e in events {
        run = run.advance(*e);
    }
    run.phase
}

fn bolt(allows_write: bool, group: bool, events: &[BoltEvent]) -> BoltRun {
    let mut run = BoltRun::start(allows_write, false, group);
    for e in events {
        run = run.advance(*e);
    }
    run
}

fn tx(allows_write: bool, events: &[BoltEvent]) -> TxPhase {
    let mut run = TxRun::start(allows_write, false);
    for e in events {
        run = run.advance(*e);
    }
    run.phase
}

fn query(facts: PlanFacts) -> Vec<HttpEvent> {
    vec![
        HttpEvent::Parsed {
            statement: Statement::Query { explain: false },
        },
        HttpEvent::ParamsBound,
        HttpEvent::Planned { facts },
    ]
}

fn then(mut head: Vec<HttpEvent>, tail: &[HttpEvent]) -> Vec<HttpEvent> {
    head.extend_from_slice(tail);
    head
}

#[test]
fn observe_peer_epoch_degrades_and_clears_only_probe_reasons() {
    let mut health = WriterHealth::new();

    health.observe_peer_epoch(3, 1);
    assert!(health.is_degraded());
    assert!(health
        .degraded_reason()
        .unwrap()
        .starts_with("fenced by peer writer"));

    health.observe_peer_epoch(3, 3);
    assert!(!health.is_degraded());

    health.mark_degraded("commit failed: fenced".to_string());
    health.observe_peer_epoch(2, 2);
    assert!(health.is_degraded(), "probe must not clear recovery state");
}

#[test]
fn a_recovery_gives_up_after_three_attempts() {
    let mut health = WriterHealth::new();
    assert!(RecoveryPass::start("fine", false, false, &mut health).is_none());
    assert!(!health.is_degraded());
    let mut pass = RecoveryPass::start("fenced", true, false, &mut health).unwrap();
    assert_eq!(health.degraded_reason(), Some("fenced".to_string()));
    pass = pass.advance(RecoveryEvent::ReopenFailed, &mut health);
    assert_eq!(pass.backoff_millis(), 50);
    pass = pass.advance(RecoveryEvent::Waited, &mut health);
    pass = pass.advance(RecoveryEvent::ReopenFailed, &mut health);
    assert_eq!(pass.backoff_millis(), 100);
    pass = pass.advance(RecoveryEvent::Waited, &mut health);
    pass = pass.advance(RecoveryEvent::ReopenFailed, &mut health);
    assert_eq!(pass.phase, RecoveryPhase::Done { restored: false });
    assert!(health.is_degraded());
}

#[test]
fn a_recovery_that_lands_ends_the_degradation() {
    let mut health = WriterHealth::new();
    let mut pass = RecoveryPass::start("poisoned", false, true, &mut health).unwrap();
    pass = pass.advance(RecoveryEvent::Reopened, &mut health);
    assert!(health.is_degraded());
    pass = pass.advance(RecoveryEvent::Published, &mut health);
    assert_eq!(pass.phase, RecoveryPhase::Done { restored: true });
    assert!(!health.is_degraded());
}

#[test]
fn allocator_trim_is_reserved_for_flushes_that_wrote_an_sst() {
    assert!(!flush_needs_allocator_trim(0));
    assert!(flush_needs_allocator_trim(1));
    assert!(flush_needs_allocator_trim(2));
}

#[test]
fn a_read_asks_the_policy_first() {
    assert_eq!(
        http(true, false, &then(query(READ), &[HttpEvent::Denied])),
        HttpPhase::Done {
            verdict: HttpVerdict::Denied
        }
    );
    assert_eq!(
        http(false, false, &then(query(READ), &[HttpEvent::Allowed])),
        HttpPhase::Read
    );
    assert_eq!(
        http(
            false,
            false,
            &then(query(READ), &[HttpEvent::Allowed, HttpEvent::Read])
        ),
        HttpPhase::Done {
            verdict: HttpVerdict::Read
        }
    );
}

#[test]
fn a_full_scan_takes_a_permit_where_scans_are_metered() {
    assert_eq!(
        http(false, true, &then(query(SCAN), &[HttpEvent::Allowed])),
        HttpPhase::ScanPermit
    );
    assert_eq!(
        http(false, false, &then(query(SCAN), &[HttpEvent::Allowed])),
        HttpPhase::Read
    );
    assert_eq!(
        http(false, true, &then(query(READ), &[HttpEvent::Allowed])),
        HttpPhase::Read
    );
}

#[test]
fn a_read_only_caller_never_waits_for_the_writer() {
    assert_eq!(
        http(false, false, &then(query(WRITE), &[HttpEvent::Allowed])),
        HttpPhase::Done {
            verdict: HttpVerdict::WriteReadOnly
        }
    );
}

#[test]
fn a_write_commits_publishes_releases_and_stalls() {
    let to_lock = then(query(WRITE), &[HttpEvent::Allowed, HttpEvent::IntakeOpen]);
    assert_eq!(http(true, false, &to_lock), HttpPhase::Lock);
    assert_eq!(
        http(true, false, &then(to_lock.clone(), &[HttpEvent::LockTimedOut])),
        HttpPhase::Done {
            verdict: HttpVerdict::Busy
        }
    );
    let published = then(
        to_lock.clone(),
        &[
            HttpEvent::Locked { retired: false },
            HttpEvent::Written,
            HttpEvent::Published { stall: true },
            HttpEvent::Released,
        ],
    );
    assert_eq!(http(true, false, &published), HttpPhase::Stall);
    assert_eq!(
        http(true, false, &then(published, &[HttpEvent::Stalled])),
        HttpPhase::Done {
            verdict: HttpVerdict::Written
        }
    );
    assert_eq!(
        http(
            true,
            false,
            &then(
                to_lock,
                &[HttpEvent::Locked { retired: true }, HttpEvent::Released]
            )
        ),
        HttpPhase::Done {
            verdict: HttpVerdict::Retired
        }
    );
}

#[test]
fn the_clock_stops_before_the_backpressure_delay() {
    let mut run = HttpRun::start(true, false);
    for e in then(
        query(WRITE),
        &[
            HttpEvent::Allowed,
            HttpEvent::IntakeOpen,
            HttpEvent::Locked { retired: false },
            HttpEvent::Written,
            HttpEvent::Published { stall: true },
        ],
    ) {
        run = run.advance(e);
        assert!(run.is_timed());
    }
    run = run.advance(HttpEvent::Released);
    assert_eq!(run.phase, HttpPhase::Stall);
    assert!(!run.is_timed());
    assert!(BoltVerdict::Disconnected { kind: None }.is_timed_to_the_end());
    assert!(!BoltVerdict::Written.is_timed_to_the_end());
    assert!(bolt(true, false, &to_apply()).is_timed());
}

#[test]
fn a_failed_write_recovers_before_it_releases() {
    let failed = then(
        query(WRITE),
        &[
            HttpEvent::Allowed,
            HttpEvent::IntakeOpen,
            HttpEvent::Locked { retired: false },
            HttpEvent::WriteFailed { retired: false },
        ],
    );
    assert_eq!(http(true, false, &failed), HttpPhase::Recover);
    assert_eq!(
        http(
            true,
            false,
            &then(failed, &[HttpEvent::Recovered, HttpEvent::Released])
        ),
        HttpPhase::Done {
            verdict: HttpVerdict::WriteFailed
        }
    );
}

#[test]
fn degraded_persistence_refuses_a_write_before_the_lock() {
    assert_eq!(
        http(
            true,
            false,
            &then(query(WRITE), &[HttpEvent::Allowed, HttpEvent::IntakeDegraded])
        ),
        HttpPhase::Done {
            verdict: HttpVerdict::WriteDegraded
        }
    );
}

#[test]
fn explain_renders_a_write_without_writing() {
    let events = [
        HttpEvent::Parsed {
            statement: Statement::Query { explain: true },
        },
        HttpEvent::ParamsBound,
        HttpEvent::Planned { facts: WRITE },
        HttpEvent::Allowed,
        HttpEvent::Explained,
    ];
    assert_eq!(
        http(false, false, &events),
        HttpPhase::Done {
            verdict: HttpVerdict::Explained
        }
    );
    assert_eq!(HttpVerdict::Explained.kind(), Some(QueryKind::Read));
}

#[test]
fn verdicts_are_counted_by_kind_and_success() {
    assert_eq!(HttpVerdict::ParseError.kind(), None);
    assert_eq!(HttpVerdict::Written.kind(), Some(QueryKind::Write));
    assert!(HttpVerdict::Written.ok());
    assert!(!HttpVerdict::Busy.ok());
    assert_eq!(BoltVerdict::Denied.kind(), None);
    assert_eq!(BoltVerdict::Read.kind(), Some(QueryKind::Read));
    assert!(!BoltVerdict::GroupLost.ok());
}

#[test]
fn a_schema_command_is_gated_by_role_policy_and_intake() {
    let ro = SchemaRun::start(SchemaKind::CreateVectorIndex, false, true);
    assert_eq!(
        ro.phase,
        SchemaPhase::Done {
            verdict: SchemaVerdict::ReadOnly
        }
    );
    let denied =
        SchemaRun::start(SchemaKind::CreateFulltextIndex, true, true).advance(SchemaEvent::Denied);
    assert_eq!(
        denied.phase,
        SchemaPhase::Done {
            verdict: SchemaVerdict::Denied
        }
    );
    let applied = SchemaRun::start(SchemaKind::CreateConstraint, true, true)
        .advance(SchemaEvent::Allowed)
        .advance(SchemaEvent::IntakeOpen)
        .advance(SchemaEvent::Locked { retired: false })
        .advance(SchemaEvent::Applied)
        .advance(SchemaEvent::Released);
    assert_eq!(applied.phase, SchemaPhase::Compact);
    assert_eq!(
        applied.advance(SchemaEvent::Requested).phase,
        SchemaPhase::Done {
            verdict: SchemaVerdict::Applied
        }
    );
    let dropped = SchemaRun::start(SchemaKind::DropVectorIndex, true, true)
        .advance(SchemaEvent::Allowed)
        .advance(SchemaEvent::IntakeOpen)
        .advance(SchemaEvent::Locked { retired: false })
        .advance(SchemaEvent::ApplyFailed {
            user_error: true,
            retired: false,
        })
        .advance(SchemaEvent::Recovered)
        .advance(SchemaEvent::Released);
    assert_eq!(
        dropped.phase,
        SchemaPhase::Done {
            verdict: SchemaVerdict::Failed { user_error: true }
        }
    );
}

#[test]
fn a_schema_command_waits_for_the_writer_without_a_bound_over_http() {
    let at_lock = |bounded: bool| {
        SchemaRun::start(SchemaKind::CreateIndex, true, bounded)
            .advance(SchemaEvent::Allowed)
            .advance(SchemaEvent::IntakeOpen)
            .advance(SchemaEvent::LockTimedOut)
            .phase
    };
    assert_eq!(at_lock(false), SchemaPhase::Lock);
    assert_eq!(
        at_lock(true),
        SchemaPhase::Done {
            verdict: SchemaVerdict::Busy
        }
    );
    let events = [
        HttpEvent::Parsed {
            statement: Statement::Schema {
                kind: SchemaKind::CreateIndex,
            },
        },
        HttpEvent::ParamsBound,
    ];
    assert_eq!(
        http(true, false, &events),
        HttpPhase::Schema {
            run: SchemaRun::start(SchemaKind::CreateIndex, true, false)
        }
    );
}

#[test]
fn an_index_without_tuning_gets_the_defaults() {
    let clause = |r: Option<u32>, l: Option<u32>| VectorIndexClause {
        name: "ix".to_string(),
        label: "Doc".to_string(),
        property: "emb".to_string(),
        dim: 3,
        metric: VectorMetric::Cosine,
        quantization: VectorQuantization::Int8,
        r,
        l_build: l,
    };
    let d = vector_index_descriptor_from(clause(None, None));
    assert_eq!((d.r, d.l_build, d.dim), (64, 128, 3));
    let d = vector_index_descriptor_from(clause(Some(5), Some(6)));
    assert_eq!((d.r, d.l_build), (5, 6));
}

fn to_apply() -> Vec<BoltEvent> {
    vec![
        BoltEvent::Present,
        BoltEvent::Parsed {
            statement: Statement::Query { explain: false },
        },
        BoltEvent::Planned { facts: WRITE },
        BoltEvent::Allowed,
        BoltEvent::Present,
        BoltEvent::IntakeOpen,
        BoltEvent::Locked,
    ]
}

#[test]
fn cancelled_write_discards_its_batch_and_releases_the_writer() {
    let mut events = to_apply();
    events.push(BoltEvent::Gone);
    let run = bolt(true, false, &events);
    assert_eq!(
        run.phase,
        BoltPhase::Discard {
            recover: false,
            verdict: BoltVerdict::Disconnected {
                kind: Some(QueryKind::Write)
            }
        }
    );
    events.push(BoltEvent::Discarded);
    events.push(BoltEvent::Released);
    assert_eq!(
        bolt(true, false, &events).phase,
        BoltPhase::Done {
            verdict: BoltVerdict::Disconnected {
                kind: Some(QueryKind::Write)
            }
        }
    );
}

#[test]
fn a_commit_under_way_does_not_listen_to_a_disconnect() {
    let mut events = to_apply();
    events.push(BoltEvent::Staged);
    events.push(BoltEvent::Present);
    events.push(BoltEvent::Gone);
    assert_eq!(bolt(true, false, &events).phase, BoltPhase::Commit);
    assert_eq!(bolt(true, true, &events).phase, BoltPhase::Register);
}

#[test]
fn a_grouped_write_waits_for_its_group() {
    let mut events = to_apply();
    events.push(BoltEvent::Staged);
    events.push(BoltEvent::Present);
    events.push(BoltEvent::Registered { stall: false });
    events.push(BoltEvent::Released);
    assert_eq!(
        bolt(true, true, &events).phase,
        BoltPhase::Ack { stall: false }
    );
    let mut lost = events.clone();
    lost.push(BoltEvent::AckLost);
    assert_eq!(
        bolt(true, true, &lost).phase,
        BoltPhase::Done {
            verdict: BoltVerdict::GroupLost
        }
    );
    events.push(BoltEvent::Acked);
    assert_eq!(
        bolt(true, true, &events).phase,
        BoltPhase::Done {
            verdict: BoltVerdict::Written
        }
    );
}

#[test]
fn a_failed_statement_aborts_its_transaction() {
    let head = [
        BoltEvent::Present,
        BoltEvent::Parsed {
            statement: Statement::Query { explain: false },
        },
        BoltEvent::Planned { facts: WRITE },
        BoltEvent::Allowed,
        BoltEvent::Present,
        BoltEvent::Slot { open: true },
    ];
    assert_eq!(tx(true, &head), TxPhase::Apply);
    let mut failed = head.to_vec();
    failed.push(BoltEvent::StageFailed);
    assert_eq!(
        tx(true, &failed),
        TxPhase::Discard {
            verdict: BoltVerdict::WriteFailed
        }
    );
    failed.push(BoltEvent::Discarded);
    assert_eq!(
        tx(true, &failed),
        TxPhase::Done {
            verdict: BoltVerdict::WriteFailed
        }
    );
    assert_eq!(
        tx(
            true,
            &[
                BoltEvent::Present,
                BoltEvent::Parsed {
                    statement: Statement::Schema {
                        kind: SchemaKind::CreateIndex
                    }
                }
            ]
        ),
        TxPhase::Done {
            verdict: BoltVerdict::SchemaInTx {
                command: SchemaKind::CreateIndex
            }
        }
    );
}

#[test]
fn explain_inside_a_transaction_renders_and_stages_nothing() {
    let mut metrics = Metrics::new("0.0.0-test", Duration::ZERO);
    let mut session = ServerBackend::new(None);
    session.advance_begin(BeginPhase::Lock, BeginEvent::Locked, Duration::ZERO, &mut metrics);
    let mut run = TxRun::start(true, false);
    for event in [
        BoltEvent::Present,
        BoltEvent::Parsed {
            statement: Statement::Query { explain: true },
        },
        BoltEvent::Planned { facts: WRITE },
        BoltEvent::Allowed,
    ] {
        run = session.advance_in_tx(run, event);
    }
    assert_eq!(run.phase, TxPhase::Explain { facts: WRITE });
    // What would run the write is not waited for.
    run = session.advance_in_tx(run, BoltEvent::Slot { open: true });
    run = session.advance_in_tx(run, BoltEvent::Staged);
    assert_eq!(run.phase, TxPhase::Explain { facts: WRITE });
    run = session.advance_in_tx(run, BoltEvent::Explained);
    let verdict = BoltVerdict::Explained;
    assert_eq!(run.phase, TxPhase::Done { verdict });
    assert_eq!(verdict.kind(), Some(QueryKind::Read));
    assert!(verdict.ok());
    let lines = Payload::Lines(vec!["Create".to_string()]);
    let shown = match bolt_answer(verdict, lines) {
        Ok(outcome) => outcome,
        Err(e) => panic!("{}", e.message),
    };
    assert_eq!(shown.fields, vec!["plan".to_string()]);
    assert_eq!(shown.rows.len(), 1);
    assert_eq!(session.tx_state(), Some(TxState { staged: false }));
}

#[test]
fn explain_leaves_what_a_transaction_has_staged() {
    let mut metrics = Metrics::new("0.0.0-test", Duration::ZERO);
    let mut session = ServerBackend::new(None);
    assert_eq!(session.tx_state(), None);
    session.advance_begin(BeginPhase::Lock, BeginEvent::Locked, Duration::ZERO, &mut metrics);
    let apply = TxRun {
        allows_write: true,
        scan_gate: false,
        phase: TxPhase::Apply,
    };
    session.advance_in_tx(apply, BoltEvent::Staged);
    assert_eq!(session.tx_state(), Some(TxState { staged: true }));
    let explain = TxRun {
        phase: TxPhase::Explain { facts: WRITE },
        ..apply
    };
    let left = session.advance_in_tx(explain, BoltEvent::Gone);
    assert_eq!(
        left.phase,
        TxPhase::Done {
            verdict: BoltVerdict::Disconnected {
                kind: Some(QueryKind::Write)
            }
        }
    );
    assert_eq!(session.tx_state(), Some(TxState { staged: true }));
}

#[test]
fn a_look_at_the_schema_inside_a_transaction_goes_to_the_planner() {
    let shown = [
        BoltEvent::Present,
        BoltEvent::Parsed {
            statement: Statement::Show,
        },
    ];
    assert_eq!(tx(true, &shown), TxPhase::Plan { explain: false });
}

fn summary() -> FlushSummary {
    FlushSummary {
        ssts_written: 2,
        bloom_sidecars_written: 1,
        manifest_version: 9,
    }
}

#[test]
fn a_flush_trims_after_it_released_the_writer() {
    let mut health = WriterHealth::new();
    health.mark_persistence_degraded("disk full".to_string());
    let mut run = FlushRun::start(false, true);
    assert_eq!(run.phase, FlushPhase::Permit);
    run.advance(FlushEvent::PermitHeld, &mut health);
    run.advance(FlushEvent::Locked { retired: false }, &mut health);
    assert_eq!(run.phase, FlushPhase::Flush);
    run.advance(
        FlushEvent::Flushed {
            summary: summary(),
        },
        &mut health,
    );
    run.advance(FlushEvent::Published, &mut health);
    assert_eq!(
        run.phase,
        FlushPhase::Release {
            verdict: FlushVerdict::Flushed {
                summary: summary()
            }
        }
    );
    run.advance(FlushEvent::Released, &mut health);
    assert_eq!(run.phase, FlushPhase::Trim { summary: summary() });
    run.advance(FlushEvent::Trimmed, &mut health);
    assert_eq!(
        run.phase,
        FlushPhase::Done {
            verdict: FlushVerdict::Flushed {
                summary: summary()
            }
        }
    );
    assert!(health.persistence_degraded_reason().is_none());
}

#[test]
fn a_flush_under_pressure_opens_no_cold_namespace() {
    let mut health = WriterHealth::new();
    let mut run = FlushRun::start(true, true);
    run.advance(FlushEvent::PermitHeld, &mut health);
    run.advance(FlushEvent::Sampled { over_limit: true }, &mut health);
    assert_eq!(run.phase, FlushPhase::FindOpen);
    run.advance(FlushEvent::NotOpen, &mut health);
    assert_eq!(
        run.phase,
        FlushPhase::Done {
            verdict: FlushVerdict::Cold
        }
    );
    assert_eq!(
        FlushRun::start(true, false).phase,
        FlushPhase::Done {
            verdict: FlushVerdict::ReadOnly
        }
    );
}

#[test]
fn a_flush_that_the_disk_refused_is_answered_507() {
    let mut health = WriterHealth::new();
    let mut run = FlushRun::start(false, true);
    run.advance(FlushEvent::PermitHeld, &mut health);
    run.advance(FlushEvent::Locked { retired: false }, &mut health);
    run.advance(
        FlushEvent::FlushFailed {
            failure: StorageFailure {
                kind: StorageKind::Other,
                text: "no space".to_string(),
                local_persistence: true,
            },
            retired: false,
        },
        &mut health,
    );
    run.advance(FlushEvent::Recovered, &mut health);
    run.advance(FlushEvent::Released, &mut health);
    assert_eq!(
        run.phase,
        FlushPhase::Done {
            verdict: FlushVerdict::Degraded
        }
    );
    assert!(health.persistence_degraded_reason().is_some());
    assert_eq!(
        admin_flush_response(FlushVerdict::Degraded, "ns", run.failure.as_str()).status,
        507
    );
    assert_eq!(
        admin_flush_response(FlushVerdict::FlushBusy, "ns", "").status,
        503
    );
    assert_eq!(
        admin_flush_response(FlushVerdict::ReadOnly, "ns", "").status,
        403
    );
}

#[test]
fn a_flush_waits_half_a_minute_where_no_bound_is_set() {
    assert_eq!(
        admin_flush_bound(Duration::from_secs(0)),
        Duration::from_secs(30)
    );
    assert_eq!(
        admin_flush_bound(Duration::from_secs(5)),
        Duration::from_secs(5)
    );
}

#[test]
fn a_retired_namespace_is_left_alone() {
    let failed = then(
        query(WRITE),
        &[
            HttpEvent::Allowed,
            HttpEvent::IntakeOpen,
            HttpEvent::Locked { retired: false },
            HttpEvent::WriteFailed { retired: true },
        ],
    );
    assert_eq!(
        http(true, false, &failed),
        HttpPhase::Release {
            verdict: HttpVerdict::WriteFailed,
            stall: false
        }
    );
}

#[test]
fn an_answer_to_something_else_changes_nothing() {
    let run = HttpRun::start(true, false);
    assert_eq!(run.advance(HttpEvent::Written), run);
    let done = run.advance(HttpEvent::ParseFailed);
    assert_eq!(done.advance(HttpEvent::Allowed), done);
    let started = BoltRun::start(true, false, false);
    assert_eq!(started.advance(BoltEvent::Committed), started);
}
