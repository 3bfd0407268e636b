use namidb_server::memory::MemoryGovernor;
use namidb_server::metrics::{
    sanitize_query, CompactionPhase, CompactionStatus, CompactionTrigger, Histogram, Metrics,
    Protocol, QueryKind, RangeCacheGauges, SearchRoutes, SearchWorkspaceGauges, StorageGauges,
    VectorIndexGauges, WriterLockKind,
};
use std::time::Duration;

fn storage() -> StorageGauges {
    StorageGauges {
        cache_max_bytes: 10,
        cache_capacity_bytes: 20,
        cache_resident_bytes: 30,
        search_index_capacity_bytes: 40,
        vector_index: Some(VectorIndexGauges {
            rejections: 1,
            filter_bitmap_searches: 2,
        }),
        text_index_rejections: Some(3),
        search_routes: SearchRoutes {
            text_native: 4,
            text_fallback: 5,
            vector_native: 6,
            vector_fallback: 7,
        },
    }
}

fn workspace() -> SearchWorkspaceGauges {
    SearchWorkspaceGauges {
        capacity_bytes: 1,
        reserved_bytes: 2,
        peak_reserved_bytes: 3,
        successful_reservations: 4,
        contended_reservations: 5,
        rejected_reservations: 6,
    }
}

fn range_cache() -> RangeCacheGauges {
    RangeCacheGauges {
        ram_budget_bytes: 1,
        memory_capacity_bytes: 2,
        memory_usage_bytes: 3,
        write_buffer_reservation_bytes: 4,
        disk_index_estimate_bytes: 5,
        disk_capacity_bytes: 6,
        memory_hits: 7,
        disk_hits: 8,
        misses: 9,
        outer_fetches: 10,
        inserts: 11,
        admission_rejections: 12,
        corrupt_entries: 13,
        disk_read_bytes: 14,
        disk_write_bytes: 15,
    }
}

#[test]
fn histogram_buckets_are_cumulative_with_sum_and_count() {
    let mut h = Histogram::new();
    h.observe(Duration::from_micros(200));
    h.observe(Duration::from_millis(2));
    h.observe(Duration::from_secs(20));

    let mut out = String::new();
    h.render_into(&mut out, "q", "protocol=\"http\",kind=\"read\"");

    assert!(out.contains("q_bucket{protocol=\"http\",kind=\"read\",le=\"0.0005\"} 1"));
    assert!(out.contains("q_bucket{protocol=\"http\",kind=\"read\",le=\"0.005\"} 2"));
    assert!(out.contains("q_bucket{protocol=\"http\",kind=\"read\",le=\"10.0\"} 2"));
    assert!(out.contains("q_bucket{protocol=\"http\",kind=\"read\",le=\"+Inf\"} 3"));
    assert!(out.contains("q_count{protocol=\"http\",kind=\"read\"} 3"));
    assert!(out.contains("q_sum{protocol=\"http\",kind=\"read\"} 20.0022\n"));
}

#[test]
fn observe_query_splits_counters_by_status_and_kind() {
    let mut m = Metrics::new("0.0.0-test", Duration::ZERO);
    m.observe_query(
        Protocol::Http,
        Some(QueryKind::Read),
        true,
        Duration::from_millis(1),
        "MATCH (n) RETURN n",
    );
    m.observe_query(
        Protocol::Http,
        Some(QueryKind::Write),
        true,
        Duration::from_millis(2),
        "CREATE (n)",
    );
    m.observe_query(
        Protocol::Bolt,
        None,
        false,
        Duration::from_millis(1),
        "NOT CYPHER",
    );

    let text = m.render("1.5", &storage());
    assert!(text.contains("namidb_queries_total{protocol=\"http\",status=\"ok\"} 2"));
    assert!(text.contains("namidb_queries_total{protocol=\"bolt\",status=\"error\"} 1"));
    assert!(
        text.contains("namidb_query_duration_seconds_count{protocol=\"http\",kind=\"read\"} 1")
    );
    assert!(
        text.contains("namidb_query_duration_seconds_count{protocol=\"http\",kind=\"write\"} 1")
    );
    assert!(
        text.contains("namidb_query_duration_seconds_count{protocol=\"bolt\",kind=\"read\"} 0")
    );
    assert!(text.contains("namidb_slow_queries_total 0"));
    assert!(text.contains("namidb_build_info{version=\"0.0.0-test\"} 1"));
    assert!(text.contains("namidb_cache_max_bytes "));
    assert!(text.contains("namidb_cache_capacity_bytes "));
    assert!(text.contains("namidb_cache_resident_bytes "));
    assert!(text.contains("namidb_search_index_cache_capacity_bytes "));
    assert!(text.contains("namidb_search_index_cache_admission_rejections_total"));
    assert!(text.contains("namidb_vector_filter_bitmap_searches_total "));

    let memory = MemoryGovernor::new(123_456);
    let with_memory = m.render_with_memory(
        "1.5",
        &storage(),
        &memory,
        Some(range_cache()),
        Some(workspace()),
    );
    assert!(with_memory.contains("namidb_memory_max_bytes 123456"));
    assert!(with_memory.contains("namidb_memory_resident_bytes "));
    assert!(with_memory.contains("namidb_memory_reclaims_total 0"));
    assert!(with_memory.contains("namidb_memory_rejected_queries_total 0"));
    assert!(with_memory.contains("namidb_range_cache_enabled "));
    assert!(with_memory.contains("namidb_range_cache_bytes{tier=\"ram\",kind=\"usage\"} "));
    assert!(with_memory.contains("namidb_range_cache_lookups_total{outcome=\"memory_hit\"} "));
    assert!(with_memory.contains("namidb_range_cache_remote_fetches_total "));
    assert!(with_memory.contains("namidb_range_cache_nvme_io_bytes_total{operation=\"read\"} "));
    assert!(with_memory.contains("namidb_search_workspace_enabled "));
    assert!(with_memory.contains("namidb_search_workspace_bytes{kind=\"reserved\"} "));
    assert!(
        with_memory.contains("namidb_search_workspace_reservations_total{outcome=\"rejected\"} ")
    );
}

#[test]
fn slow_threshold_counts_queries_at_or_above_it() {
    let mut m = Metrics::new("0.0.0-test", Duration::from_millis(10));
    let fast = m.observe_query(
        Protocol::Http,
        Some(QueryKind::Read),
        true,
        Duration::from_millis(1),
        "fast",
    );
    let slow = m.observe_query(
        Protocol::Http,
        Some(QueryKind::Read),
        true,
        Duration::from_millis(50),
        "slow\n  one",
    );
    assert!(m.render("0", &storage()).contains("namidb_slow_queries_total 1"));
    assert!(fast.is_none());
    let slow = slow.unwrap();
    assert_eq!(slow.protocol, "http");
    assert_eq!(slow.kind, "read");
    assert_eq!(slow.status, "ok");
    assert_eq!(slow.elapsed_ms, 50);
    assert_eq!(slow.query, "slow one");
}

#[test]
fn in_flight_guard_increments_then_decrements() {
    let mut m = Metrics::new("0.0.0-test", Duration::ZERO);
    let g1 = m.track_in_flight();
    let g2 = m.track_in_flight();
    assert!(m.render("0", &storage()).contains("namidb_queries_in_flight 2"));
    m.release_in_flight(g1);
    m.release_in_flight(g2);
    assert!(m.render("0", &storage()).contains("namidb_queries_in_flight 0"));
}

#[test]
fn writer_lock_metrics_separate_waits_and_timeouts() {
    let mut m = Metrics::new("0.0.0-test", Duration::ZERO);
    m.observe_writer_lock(WriterLockKind::Http, Duration::from_millis(2), true);
    m.observe_writer_lock(WriterLockKind::Http, Duration::from_secs(45), false);
    m.observe_writer_lock(
        WriterLockKind::CompactionInstall,
        Duration::from_millis(3),
        true,
    );

    let text = m.render("0", &storage());
    assert!(text.contains("namidb_writer_lock_wait_seconds_count{purpose=\"http\"} 2"));
    assert!(text.contains("namidb_writer_lock_wait_seconds_bucket{purpose=\"http\",le=\"60.0\"} 2"));
    assert!(
        text.contains("namidb_writer_lock_wait_seconds_count{purpose=\"compaction_install\"} 1")
    );
    assert!(text.contains("namidb_writer_lock_timeouts_total{purpose=\"http\"} 1"));
    assert!(text.contains("namidb_writer_lock_timeouts_total{purpose=\"compaction_install\"} 0"));
}

#[test]
fn compaction_metrics_render_phase_result_and_backlog_deltas() {
    let mut m = Metrics::new("0.0.0-test", Duration::ZERO);
    m.observe_compaction_phase(
        CompactionTrigger::Reactive,
        CompactionPhase::Prepare,
        Duration::from_secs(90),
    );
    m.observe_compaction_phase(
        CompactionTrigger::Reactive,
        CompactionPhase::InstallWait,
        Duration::from_millis(8),
    );
    m.observe_compaction_phase(
        CompactionTrigger::Reactive,
        CompactionPhase::InstallHold,
        Duration::from_millis(4),
    );
    m.observe_compaction_result(
        CompactionTrigger::Reactive,
        CompactionStatus::Applied,
        24,
        3,
        21,
        2,
    );
    m.observe_compaction_result(
        CompactionTrigger::Periodic,
        CompactionStatus::Stale,
        8,
        9,
        0,
        0,
    );
    m.observe_compaction_result(
        CompactionTrigger::Periodic,
        CompactionStatus::Coalesced,
        9,
        9,
        0,
        0,
    );

    let text = m.render("0", &storage());
    assert!(text.contains(
        "namidb_compaction_phase_duration_seconds_count{trigger=\"reactive\",phase=\"prepare\"} 1"
    ));
    assert!(text.contains(
        "namidb_compaction_phase_duration_seconds_bucket{trigger=\"reactive\",phase=\"prepare\",le=\"120.0\"} 1"
    ));
    assert!(text.contains(
        "namidb_compaction_phase_duration_seconds_count{trigger=\"reactive\",phase=\"install_wait\"} 1"
    ));
    assert!(text.contains(
        "namidb_compaction_phase_duration_seconds_count{trigger=\"reactive\",phase=\"install_hold\"} 1"
    ));
    assert!(text.contains("namidb_compactions_total{trigger=\"reactive\",status=\"applied\"} 1"));
    assert!(text.contains("namidb_compactions_total{trigger=\"periodic\",status=\"stale\"} 1"));
    assert!(text.contains("namidb_compactions_total{trigger=\"periodic\",status=\"coalesced\"} 1"));
    assert!(
        text.contains("namidb_compaction_l0_backlog_ssts{trigger=\"reactive\",stage=\"before\"} 24")
    );
    assert!(
        text.contains("namidb_compaction_l0_backlog_ssts{trigger=\"reactive\",stage=\"after\"} 3")
    );
    assert!(
        text.contains("namidb_compaction_ssts_total{trigger=\"reactive\",action=\"removed\"} 21")
    );
    assert!(
        text.contains("namidb_compaction_ssts_total{trigger=\"reactive\",action=\"written\"} 2")
    );
}

#[test]
fn sanitize_collapses_whitespace_and_truncates() {
    assert_eq!(
        sanitize_query("MATCH (n)\n  RETURN   n"),
        "MATCH (n) RETURN n"
    );
    let long = "X".repeat(400);
    let s = sanitize_query(&long);
    assert!(s.ends_with("..."));
    assert!(s.len() <= 303);
}

#[test]
fn every_family_names_itself_before_its_samples() {
    let m = Metrics::new("9.9.9", Duration::ZERO);
    let text = m.render("12.25", &storage());
    assert!(text.contains("namidb_uptime_seconds 12.25\n"));
    let help = text.find("# HELP namidb_queries_total").unwrap();
    let kind = text.find("# TYPE namidb_queries_total counter").unwrap();
    let sample = text.find("namidb_queries_total{").unwrap();
    assert!(help < kind && kind < sample);
    assert!(text.ends_with('\n'));
}

#[test]
fn metrics_expose_the_search_route_counters() {
    let m = Metrics::new("0.0.0-test", Duration::ZERO);
    let memory = MemoryGovernor::new(0);
    let text = m.render_with_memory("0", &storage(), &memory, None, None);
    for series in [
        "namidb_search_route_total{kind=\"text\",route=\"native\"}",
        "namidb_search_route_total{kind=\"text\",route=\"fallback\"}",
        "namidb_search_route_total{kind=\"vector\",route=\"native\"}",
        "namidb_search_route_total{kind=\"vector\",route=\"fallback\"}",
    ] {
        assert!(text.contains(series), "the page must export `{series}`; got:\n{text}");
    }
    assert!(text.contains("# TYPE namidb_search_route_total counter\n"));
    assert!(text.contains("{kind=\"text\",route=\"native\"} 4\n"));
    assert!(text.contains("{kind=\"text\",route=\"fallback\"} 5\n"));
    assert!(text.contains("{kind=\"vector\",route=\"native\"} 6\n"));
    assert!(text.contains("{kind=\"vector\",route=\"fallback\"} 7\n"));
}
