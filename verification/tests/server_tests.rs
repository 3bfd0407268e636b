use namidb_server::auth::{AuthConfig, AuthToken, Principal, Role, TokenFileRead};
use namidb_server::authz::Denied;
use namidb_server::background::{FlushLoop, MaintenanceEvent, MaintenancePhase, SweepReport};
use namidb_server::bolt::{
    admit_request_decode, admit_statement, begin_error, bolt_answer,
    bolt_message_memory_budget_bytes, bolt_partial_message_timeout, bookmark, end_error,
    check_message_budget, listener_settings, make_policy, observe_statement, receive_statement, AuthPolicy, BeginEvent, BeginPhase, ConnectionGate, EndEvent,
    EndPhase, EndVerdict, Entry, ListenerEnvironment, MultiTenantBackend, ServerBackend,
    TokenAuthenticator,
};
use namidb_server::config::{
    bolt_max_connections, bolt_max_tx_lifetime, cache_leaves_no_headroom, http_max_concurrency,
    http_request_timeout, memory_max_bytes, scan_gate, Boot, BootEvent, BootPhase, Config,
    EnvSetting,
};
use namidb_server::engine::{
    ExecFailure, ExecKind, Payload, StorageFailure, StorageKind, WriteOutcome,
};
use namidb_server::introspect::Procedure;
use namidb_server::json::parse;
use namidb_server::maintenance::{
    request_compaction, CompactionScheduler, WorkerEvent, WorkerPhase,
};
use namidb_server::memory::{MemoryGovernor, MemoryPressure};
use namidb_server::metrics::{CompactionTrigger, Metrics, SearchRoutes, StorageGauges};
use namidb_server::outcome::{map_exec_err, ErrorClass, StatementType};
use namidb_server::recovery::WriterHealth;
use namidb_server::registry::{make_room, Room};
use namidb_server::run::BoltVerdict;
use namidb_server::span::readable;
use namidb_server::state::{AppState, CatalogCache};
use std::time::Duration;

const BUDGET: usize = 256 * 1024 * 1024;

/// What a message takes before its first byte, and for each byte.
const BUDGET_BASE: usize = 64 * 1024;
const BUDGET_PER_BYTE: usize = 16;
const SMALLEST: usize = BUDGET_BASE + BUDGET_PER_BYTE;

fn metrics() -> Metrics {
    Metrics::new("test", Duration::from_secs(0))
}

fn page(m: &Metrics) -> String {
    m.render(
        "1",
        &StorageGauges {
            cache_max_bytes: 0,
            cache_capacity_bytes: 0,
            cache_resident_bytes: 0,
            search_index_capacity_bytes: 0,
            vector_index: None,
            text_index_rejections: None,
            search_routes: SearchRoutes {
                text_native: 0,
                text_fallback: 0,
                vector_native: 0,
                vector_fallback: 0,
            },
        },
    )
}

fn pressure() -> MemoryPressure {
    let mut governor = MemoryGovernor::new(100);
    match governor.admit_query(Some(100)) {
        Ok(_) => panic!("at the ceiling"),
        Err(p) => p,
    }
}

fn state() -> AppState {
    AppState::new("test", None, "ns".to_string())
}

fn config() -> Config {
    Config {
        store_uri: "memory://demo".to_string(),
        listen: "0.0.0.0:8080".to_string(),
        auth_token: Some("k".to_string()),
        auth_tokens_file: None,
        no_auth: false,
        jwt: None,
        pdp_url: None,
        flush_interval: Duration::from_secs(30),
        compaction_interval: Duration::from_secs(0),
        sweep_min_age: Duration::from_secs(60),
        sweep_delete: true,
        bolt_listen: None,
        bolt_max_message_bytes: 1024,
        bolt_tx_timeout: Duration::from_secs(30),
        query_timeout: Duration::from_secs(30),
        write_timeout: Duration::from_secs(30),
        query_row_cap: 0,
        compaction_l0_trigger: 8,
        write_stall_l0: 0,
        write_stall_delay: Duration::from_millis(50),
        memtable_flush_bytes: 0,
        memtable_stall_bytes: 0,
        writer_lock_timeout: Duration::from_secs(5),
        tls_cert: None,
        tls_key: None,
        slow_query_threshold: Duration::from_secs(1),
        multi_tenant: false,
        default_namespace: "default".to_string(),
        max_namespaces: 8,
        namespace_idle_timeout: Duration::from_secs(60),
    }
}

fn boot(config: Config, events: Vec<BootEvent>) -> Boot {
    let mut b = Boot::start(config);
    for e in events {
        b.advance(e);
    }
    b
}

#[test]
fn bolt_message_budget_derives_from_memory_ceiling_and_accepts_override() {
    assert_eq!(
        bolt_message_memory_budget_bytes(0, None, BUDGET).unwrap(),
        BUDGET
    );
    assert_eq!(
        bolt_message_memory_budget_bytes(2 * 1024 * 1024 * 1024, None, BUDGET).unwrap(),
        1024 * 1024 * 1024
    );
    assert_eq!(
        bolt_message_memory_budget_bytes(2 * 1024 * 1024 * 1024, Some("123456"), BUDGET).unwrap(),
        123_456
    );
    assert!(bolt_message_memory_budget_bytes(0, Some("0"), BUDGET).is_err());
    assert!(bolt_message_memory_budget_bytes(0, Some("not-a-number"), BUDGET).is_err());
    assert!(
        check_message_budget(BUDGET_BASE, SMALLEST).is_err(),
        "boot must reject a budget that cannot decode one data byte"
    );
    assert!(check_message_budget(SMALLEST, SMALLEST).is_ok());
}

#[test]
fn bolt_partial_message_timeout_has_safe_default_and_explicit_disable() {
    assert_eq!(
        bolt_partial_message_timeout(None).unwrap(),
        Some(Duration::from_secs(120))
    );
    assert_eq!(bolt_partial_message_timeout(Some("0s")).unwrap(), None);
    assert_eq!(
        bolt_partial_message_timeout(Some("750ms")).unwrap(),
        Some(Duration::from_millis(750))
    );
    assert!(bolt_partial_message_timeout(Some("later")).is_err());
}

#[test]
fn an_empty_single_token_is_treated_as_open() {
    assert!(AppState::new("test", Some(""), "ns".to_string())
        .auth
        .is_open());
    assert!(!AppState::new("test", Some("k"), "ns".to_string())
        .auth
        .is_open());
}

#[test]
fn write_stall_for_respects_threshold() {
    let off = state();
    assert!(
        off.write_stall_for(1_000, usize::MAX).is_none(),
        "disabled: never stalls"
    );
    let on = state().with_write_stall(8, Duration::from_millis(50));
    assert_eq!(on.write_stall_for(7, 0), None, "below threshold");
    assert_eq!(
        on.write_stall_for(8, 0),
        Some(Duration::from_millis(50)),
        "at threshold"
    );
    assert_eq!(
        on.write_stall_for(99, 0),
        Some(Duration::from_millis(50)),
        "above threshold"
    );
}

#[test]
fn a_large_memtable_wakes_the_flush_and_shows_on_the_gauge() {
    let mut s = state().with_memtable_thresholds(100, 200);
    let (wake, stall) = s.after_commit_backpressure(0, 99);
    assert!(!wake);
    assert_eq!(stall, None);
    assert_eq!(s.memtable_bytes_gauge, 99);
    let (wake, stall) = s.after_commit_backpressure(0, 150);
    assert!(wake);
    assert_eq!(stall, None);
    let (wake, stall) = s.after_commit_backpressure(0, 200);
    assert!(wake);
    assert!(stall.is_some());
    assert_eq!(s.memtable_bytes_gauge, 200);
}

#[test]
fn zero_limits_are_no_limits() {
    let s = state()
        .with_query_timeout(Duration::from_secs(0))
        .with_write_timeout(Duration::from_secs(3))
        .with_query_row_cap(0)
        .with_writer_lock_timeout(Duration::from_secs(0));
    assert_eq!(s.query_deadline(), None);
    assert_eq!(s.write_deadline(), Some(Duration::from_secs(3)));
    assert_eq!(s.query_row_cap(), None);
    assert_eq!(s.writer_lock_timeout(), None);
    assert_eq!(
        state().with_query_row_cap(7).query_row_cap(),
        Some(7)
    );
}

#[test]
fn a_catalog_is_reused_until_the_version_changes() {
    let mut cache: CatalogCache<u32> = CatalogCache::new();
    assert_eq!(cache.catalog_for(1), None);
    cache.keep(1, 10);
    assert_eq!(cache.catalog_for(1), Some(&10));
    assert_eq!(cache.catalog_for(2), None);
    cache.keep(2, 20);
    assert_eq!(cache.catalog_for(2), Some(&20));
    assert_eq!(cache.catalog_for(1), None);
}

#[test]
fn a_burst_has_one_worker_and_one_fresh_follow_up() {
    let mut scheduler = CompactionScheduler::new();
    let mut m = metrics();
    let mut workers = 0;
    for _ in 0..65 {
        if request_compaction(&mut scheduler, CompactionTrigger::Reactive, &mut m).is_some() {
            workers += 1;
        }
    }
    assert_eq!(workers, 1);
    assert!(!scheduler.is_idle());
    assert!(page(&m)
        .contains("namidb_compactions_total{trigger=\"reactive\",status=\"coalesced\"} 63"));
    assert_eq!(
        scheduler.next_trigger_or_stop(),
        Some(CompactionTrigger::Reactive)
    );
    assert_eq!(scheduler.next_trigger_or_stop(), None);
    assert!(scheduler.is_idle());
}

#[test]
fn a_retired_namespace_installs_nothing() {
    let mut scheduler = CompactionScheduler::new();
    let mut m = metrics();
    let mut worker =
        request_compaction(&mut scheduler, CompactionTrigger::Periodic, &mut m).unwrap();
    let zero = Duration::from_secs(0);
    worker = worker.advance(
        WorkerEvent::Checked { cancelled: false },
        &mut scheduler,
        &mut m,
    );
    worker = worker.advance(
        WorkerEvent::GateHeld { cancelled: false },
        &mut scheduler,
        &mut m,
    );
    worker = worker.advance(
        WorkerEvent::BasisTaken {
            wait: zero,
            cancelled: false,
            needs_compaction: true,
            l0: 3,
        },
        &mut scheduler,
        &mut m,
    );
    assert_eq!(worker.phase, WorkerPhase::Prepare { l0_before: 3 });
    worker = worker.advance(
        WorkerEvent::Prepared {
            elapsed: zero,
            ok: true,
            cancelled: true,
        },
        &mut scheduler,
        &mut m,
    );
    assert_eq!(worker.phase, WorkerPhase::Done);
    assert!(scheduler.is_idle());
}

#[test]
fn a_failed_disk_holds_the_flush_back_for_half_a_minute() {
    let mut health = WriterHealth::new();
    let mut tick = FlushLoop::new(8);
    assert!(tick.due(Duration::from_secs(0)));
    tick.failed(
        &StorageFailure {
            kind: StorageKind::Other,
            text: "no space".to_string(),
            local_persistence: true,
        },
        Duration::from_secs(10),
        &mut health,
    );
    assert!(health.persistence_degraded_reason().is_some());
    assert!(!tick.due(Duration::from_secs(39)));
    assert!(tick.due(Duration::from_secs(40)));
    assert!(!tick.flushed(7, &mut health));
    assert!(health.persistence_degraded_reason().is_none());
    assert!(tick.flushed(8, &mut health));
}

#[test]
fn a_sweep_waits_for_compactions_and_keeps_them_out() {
    let mut phase = MaintenancePhase::Tick;
    for event in [
        MaintenanceEvent::Ticked,
        MaintenanceEvent::Requested,
        MaintenanceEvent::Idle,
        MaintenanceEvent::Guarded,
        MaintenanceEvent::Probed,
    ] {
        phase = phase.advance(event);
    }
    assert_eq!(phase, MaintenancePhase::Sweep);
    assert_eq!(phase.advance(MaintenanceEvent::Swept), MaintenancePhase::Tick);
    assert_eq!(
        MaintenancePhase::Idle.advance(MaintenanceEvent::Swept),
        MaintenancePhase::Idle
    );
    let quiet = SweepReport {
        orphans_found: 0,
        manifest_snapshots_reclaimed: 0,
        pointer_files_reclaimed: 0,
        wal_segments_reclaimed: 0,
        memtable_snapshots_reclaimed: 0,
    };
    assert!(!quiet.is_notable());
}

#[test]
fn a_boot_refuses_what_it_cannot_serve() {
    let served = boot(
        config(),
        vec![
            BootEvent::CacheValid,
            BootEvent::StoreParsed,
            BootEvent::WriterOpened,
        ],
    );
    assert_eq!(served.phase, BootPhase::Serve);
    assert!(served.auth.role_for("k").is_some());

    let empty = boot(
        Config {
            auth_token: Some(String::new()),
            ..config()
        },
        vec![BootEvent::CacheValid],
    );
    assert_eq!(empty.phase, BootPhase::Failed);

    let open = boot(
        Config {
            auth_token: None,
            ..config()
        },
        vec![BootEvent::CacheValid],
    );
    assert_eq!(open.phase, BootPhase::Failed);
    let asked = boot(
        Config {
            auth_token: None,
            no_auth: true,
            ..config()
        },
        vec![BootEvent::CacheValid],
    );
    assert_eq!(asked.phase, BootPhase::Store);

    let half_tls = boot(
        Config {
            tls_cert: Some("cert.pem".to_string()),
            ..config()
        },
        vec![
            BootEvent::CacheValid,
            BootEvent::StoreParsed,
            BootEvent::WriterOpened,
        ],
    );
    assert_eq!(half_tls.phase, BootPhase::Failed);

    let no_store = boot(
        config(),
        vec![
            BootEvent::CacheValid,
            BootEvent::StoreInvalid("no scheme".to_string()),
        ],
    );
    assert_eq!(no_store.error, "invalid --store: no scheme");

    let no_file = boot(
        Config {
            auth_tokens_file: Some("tokens.json".to_string()),
            ..config()
        },
        vec![
            BootEvent::CacheValid,
            BootEvent::TokensRead(TokenFileRead::Unreadable("gone".to_string())),
        ],
    );
    assert_eq!(no_file.phase, BootPhase::Failed);

    let both = boot(
        Config {
            multi_tenant: true,
            bolt_listen: Some("0.0.0.0:7687".to_string()),
            ..config()
        },
        vec![BootEvent::CacheValid],
    );
    assert_eq!(both.phase, BootPhase::Failed);
    let mute = boot(
        Config {
            bolt_listen: Some("0.0.0.0:7687".to_string()),
            bolt_max_message_bytes: 0,
            ..config()
        },
        vec![BootEvent::CacheValid],
    );
    assert_eq!(mute.phase, BootPhase::Failed);
}

#[test]
fn tasks_follow_the_intervals() {
    let t = config().tasks(0);
    assert!(t.flush && !t.maintenance && !t.bolt && !t.watchdog);
    let t = Config {
        flush_interval: Duration::from_secs(0),
        compaction_interval: Duration::from_secs(1),
        bolt_listen: Some("x".to_string()),
        ..config()
    }
    .tasks(1);
    assert!(!t.flush && t.maintenance && t.bolt && t.watchdog);
    assert!(cache_leaves_no_headroom(10, 10));
    assert!(!cache_leaves_no_headroom(9, 10));
    assert!(!cache_leaves_no_headroom(10, 0));
}

#[test]
fn settings_fall_back_to_their_defaults() {
    assert_eq!(http_max_concurrency(Some("7")), 7);
    assert_eq!(http_max_concurrency(Some("many")), http_max_concurrency(None));
    assert_eq!(bolt_max_connections(Some("3")), 3);
    assert_eq!(bolt_max_connections(Some("-1")), bolt_max_connections(None));
    assert_eq!(http_request_timeout(Some("2s")), Duration::from_secs(2));
    assert_eq!(
        http_request_timeout(Some("soon")),
        http_request_timeout(None)
    );
    assert_eq!(
        bolt_max_tx_lifetime(Some("1m")),
        Duration::from_secs(60)
    );
    assert_eq!(scan_gate(Some("2")), Some(2));
    assert_eq!(scan_gate(Some("0")), None);
    assert_eq!(scan_gate(None), Some(4));
    assert_eq!(memory_max_bytes(EnvSetting::Absent, Some(1000)), Ok(0));
    assert_eq!(
        memory_max_bytes(EnvSetting::Text("123".to_string()), None),
        Ok(123)
    );
    assert_eq!(
        memory_max_bytes(EnvSetting::Text("auto".to_string()), Some(1000)),
        Ok(900)
    );
    assert!(memory_max_bytes(EnvSetting::Text("12MB".to_string()), None).is_err());
    assert!(memory_max_bytes(EnvSetting::Unreadable("bytes".to_string()), None).is_err());
}

fn writer() -> Principal {
    Principal {
        subject: "w".to_string(),
        role: Role::ReadWrite,
        groups: vec![],
    }
}

fn begun() -> ServerBackend {
    let mut backend = ServerBackend::new(Some(writer()));
    let mut m = metrics();
    let mut phase = backend.begin_tx();
    for event in [
        BeginEvent::Admitted,
        BeginEvent::IntakeOpen,
        BeginEvent::Locked,
    ] {
        phase = backend.advance_begin(phase, event, Duration::from_millis(1), &mut m);
    }
    assert_eq!(phase, BeginPhase::Begun);
    backend
}

#[test]
fn memory_admission_comes_before_the_writer_lock_of_a_transaction() {
    let mut backend = ServerBackend::new(Some(writer()));
    let mut m = metrics();
    let phase = backend.begin_tx();
    assert_eq!(phase, BeginPhase::Admission);
    let refused =
        backend.advance_begin(phase, BeginEvent::Refused, Duration::from_millis(0), &mut m);
    assert_eq!(refused, BeginPhase::Pressure);
    assert!(!backend.in_transaction());
    let e = begin_error(refused, &pressure(), "").unwrap();
    assert_eq!(e.class, ErrorClass::Storage);
    assert_eq!(begun().begin_tx(), BeginPhase::AlreadyOpen);
}

#[test]
fn a_transaction_ends_with_its_writer_released() {
    let mut backend = begun();
    let mut phase = backend.commit_tx();
    assert!(!backend.in_transaction());
    assert_eq!(phase, EndPhase::Commit);
    for event in [EndEvent::CommitFailed, EndEvent::Discarded] {
        phase = phase.advance(event);
    }
    assert_eq!(phase, EndPhase::Recover);
    phase = phase.advance(EndEvent::Recovered).advance(EndEvent::Released);
    assert_eq!(
        phase,
        EndPhase::Done {
            verdict: EndVerdict::Failed
        }
    );
    assert!(end_error(EndVerdict::Failed, "fenced").is_some());
    let mut backend = begun();
    let phase = backend
        .rollback_tx()
        .advance(EndEvent::Discarded)
        .advance(EndEvent::Released);
    assert_eq!(
        phase,
        EndPhase::Done {
            verdict: EndVerdict::RolledBack
        }
    );
    let mut idle = ServerBackend::new(None);
    assert_eq!(
        idle.commit_tx(),
        EndPhase::Done {
            verdict: EndVerdict::NoTransaction
        }
    );
    assert!(end_error(EndVerdict::Committed, "").is_none());
}

#[test]
fn logoff_clears_the_principal() {
    let mut backend = ServerBackend::new(Some(writer()));
    assert!(backend.allows_write());
    assert_eq!(backend.principal().subject, "w");
    backend.logoff();
    assert_eq!(backend.principal().subject, Principal::anonymous_rw().subject);
    let ro = ServerBackend::new(Some(Principal {
        subject: "r".to_string(),
        role: Role::ReadOnly,
        groups: vec![],
    }));
    assert_eq!(ro.write_forbidden().unwrap().class, ErrorClass::Forbidden);
}

fn scoped() -> AuthConfig {
    AuthConfig::from_tokens(vec![AuthToken {
        name: "acme".to_string(),
        secret: "acme-tok".to_string(),
        role: Role::ReadWrite,
        namespaces: Some(vec!["acme".to_string()]),
    }])
}

#[test]
fn a_scoped_connection_reaches_its_namespace_alone() {
    let auth = scoped();
    assert!(matches!(
        make_policy(&auth, true),
        AuthPolicy::Tokens { .. }
    ));
    assert!(matches!(
        make_policy(&AuthConfig::open(), true),
        AuthPolicy::Open
    ));
    let mut identity = TokenAuthenticator::new(true);
    let bad = parse(r#"{"scheme":"bearer","credentials":"nope"}"#).unwrap();
    assert!(identity.authenticate(&auth, &bad).is_err());
    let good = parse(r#"{"scheme":"bearer","credentials":"acme-tok"}"#).unwrap();
    assert!(identity.authenticate(&auth, &good).is_ok());
    let mut backend = MultiTenantBackend::new(identity);
    assert!(backend.delegate_for(&auth, Some("beta"), "default").is_err());
    let delegate = match backend.delegate_for(&auth, Some("acme"), "default") {
        Ok(d) => d,
        Err(_) => panic!("in scope"),
    };
    assert_eq!(delegate.namespace, "acme");
    assert!(delegate.backend.allows_write());
    assert!(backend.open_tx_delegate().is_err());
    backend.pin(delegate);
    assert!(backend.open_tx_delegate().is_ok());
    let _ = backend.logoff();
    assert!(backend.open_tx_delegate().is_err());
    assert!(backend.delegate_for(&auth, Some("acme"), "default").is_err());
}

#[test]
fn statements_and_messages_are_admitted_by_memory() {
    let mut memory = MemoryGovernor::new(100);
    let mut m = metrics();
    let (ok, slow) = admit_statement(
        &mut memory,
        &mut m,
        Some(10),
        Duration::from_millis(1),
        "RETURN 1",
    );
    assert!(ok.is_ok() && slow.is_none());
    let (refused, _) = admit_statement(
        &mut memory,
        &mut m,
        Some(100),
        Duration::from_millis(1),
        "RETURN 1",
    );
    assert_eq!(refused.unwrap_err().class, ErrorClass::Storage);
    match admit_request_decode(&mut memory, Some(10), 50) {
        Ok(guard) => {
            assert_eq!(memory.reserved_headroom_bytes(), 50);
            memory.release_headroom(guard);
        }
        Err(_) => panic!("there is room"),
    }
    assert!(admit_request_decode(&mut memory, Some(10), 500).is_err());
}

#[test]
fn memory_admission_comes_before_introspection() {
    let mut memory = MemoryGovernor::new(100);
    let mut m = Metrics::new("test", Duration::from_millis(5));
    let (refused, slow) = receive_statement(
        &mut memory,
        &mut m,
        Some(100),
        Duration::from_millis(7),
        "CALL  db.labels()",
    );
    assert!(refused.is_err());
    let slow = slow.unwrap();
    assert_eq!(slow.protocol, "bolt");
    assert_eq!(slow.kind, "unknown");
    assert_eq!(slow.status, "error");
    assert_eq!(slow.elapsed_ms, 7);
    assert_eq!(slow.query, "CALL db.labels()");
    let (taken, _) = receive_statement(
        &mut memory,
        &mut m,
        Some(10),
        Duration::from_millis(0),
        "CALL db.labels()",
    );
    assert!(matches!(
        taken,
        Ok(Entry::Introspect {
            procedure: Procedure::DbLabels
        })
    ));
    assert!(page(&m).contains("namidb_queries_in_flight 0"));
    let (taken, _) = receive_statement(
        &mut memory,
        &mut m,
        Some(10),
        Duration::from_millis(0),
        "RETURN 1",
    );
    match taken {
        Ok(Entry::Run { guard }) => {
            assert!(page(&m).contains("namidb_queries_in_flight 1"));
            let slow = observe_statement(
                &mut m,
                guard,
                BoltVerdict::Read,
                Duration::from_millis(1),
                "RETURN 1",
            );
            assert!(slow.is_none());
            assert!(page(&m).contains("namidb_queries_in_flight 0"));
        }
        _ => panic!("it is run"),
    }
}

#[test]
fn answers_tell_success() {
    let written = bolt_answer(
        BoltVerdict::Written,
        Payload::Outcome(WriteOutcome {
            rows: vec![],
            nodes_created: 2,
            edges_created: 0,
            nodes_deleted: 0,
            edges_deleted: 0,
            properties_set: 0,
        }),
    );
    match written {
        Ok(out) => {
            assert_eq!(out.statement_type, StatementType::Write);
            assert!(out.counters.contains(&("nodes-created".to_string(), 2)));
        }
        Err(_) => panic!("a write"),
    }
    match bolt_answer(
        BoltVerdict::Denied,
        Payload::Denial(Denied::new("denied by policy")),
    ) {
        Ok(_) => panic!("denied"),
        Err(e) => {
            assert_eq!(e.class, ErrorClass::Forbidden);
            assert_eq!(e.message, "authorization denied: denied by policy");
        }
    }
    match bolt_answer(
        BoltVerdict::Disconnected { kind: None },
        Payload::Nothing,
    ) {
        Ok(_) => panic!("gone"),
        Err(e) => assert_eq!(e.message, "Bolt client disconnected while RUN was executing"),
    }
}

#[test]
fn failures_have_their_class() {
    let of = |kind: ExecKind| {
        map_exec_err(&ExecFailure {
            kind,
            unsupported: false,
            text: "it broke".to_string(),
            detail: "deep down".to_string(),
        })
        .class
    };
    assert_eq!(of(ExecKind::Timeout), ErrorClass::Timeout);
    assert_eq!(of(ExecKind::Cancelled), ErrorClass::Cancelled);
    assert_eq!(of(ExecKind::RowCap { cap: 5 }), ErrorClass::ResourceLimit);
    assert_eq!(of(ExecKind::Constraint), ErrorClass::Constraint);
    assert_eq!(of(ExecKind::Eval), ErrorClass::Eval);
    assert_eq!(
        of(ExecKind::Storage {
            kind: StorageKind::CacheCapacity
        }),
        ErrorClass::Storage
    );
}

#[test]
fn a_listener_is_set_up_from_its_environment() {
    let env = ListenerEnvironment {
        memory_budget: None,
        partial_message_timeout: None,
        max_connections: Some("9"),
        agent: None,
    };
    let s = listener_settings(64, 0, BUDGET, SMALLEST, Duration::from_secs(0), &env).unwrap();
    assert_eq!(s.max_connections, 9);
    assert_eq!(s.message_memory_budget_bytes, BUDGET);
    assert_eq!(s.tx_idle_timeout, None);
    assert_eq!(s.agent, "Neo4j/5.13.0");
    assert!(listener_settings(0, 0, BUDGET, SMALLEST, Duration::from_secs(0), &env).is_err());
    let tiny = ListenerEnvironment {
        memory_budget: Some("1"),
        partial_message_timeout: Some("later"),
        max_connections: None,
        agent: None,
    };
    match listener_settings(64, 0, BUDGET, SMALLEST, Duration::from_secs(0), &tiny) {
        Ok(_) => panic!("a refusal"),
        Err(e) => assert_eq!(
            e,
            "Bolt message memory budget of 1 bytes cannot decode a single byte; \
             the smallest is 65552 bytes"
        ),
    }
    let mut gate = ConnectionGate::new(1);
    assert!(gate.try_enter());
    assert!(!gate.try_enter());
    gate.leave();
    assert!(gate.try_enter());
    assert_eq!(bookmark(7), "namidb:v7");
    assert_eq!(bookmark(0), "namidb:v0");
    assert_eq!(bookmark(u64::MAX), "namidb:v18446744073709551615");
}

#[test]
fn durations_are_read_unless_their_spans_can_overflow() {
    assert!(readable("0000000000000120s"));
    assert!(readable("18446744073709551615s"));
    assert!(readable("1 000.5 s"));
    assert!(readable("1h 30m"));
    assert!(readable("584542046090y 0s"));
    assert!(!readable("584542046090y 1s"));
    assert!(!readable("18446744073709551615s 1000ms"));
    assert_eq!(
        http_request_timeout(Some("0000000000000120s")),
        Duration::from_secs(120)
    );
    assert_eq!(
        http_request_timeout(Some("18446744073709551615s")),
        Duration::from_secs(u64::MAX)
    );
    assert_eq!(
        http_request_timeout(Some("1h 30m")),
        Duration::from_secs(5400)
    );
}

#[test]
fn the_longest_idle_namespace_makes_room() {
    let idle: Vec<Duration> = [5, 90, 70, 90].iter().map(|s| Duration::from_secs(*s)).collect();
    let minute = Duration::from_secs(60);
    assert_eq!(make_room(&idle, 0, minute), Room::Free);
    assert_eq!(make_room(&idle, 5, minute), Room::Free);
    assert_eq!(make_room(&idle, 4, minute), Room::Evict { at: 1 });
    assert_eq!(make_room(&idle, 4, Duration::from_secs(91)), Room::Full);
    assert_eq!(make_room(&vec![], 1, minute), Room::Free);
}
