use namidb_server::memory::{
    cgroup_directory, cgroup_memory_limit_paths, finite_cgroup_memory_limit_bytes,
    parse_cgroup_limit, percent, resolve_memory_max_bytes, MemoryGovernor, MemoryPressure,
    ReclaimStep, CGROUP_V1_UNLIMITED_FLOOR, HARD_RECLAIM_COOLDOWN_NANOS,
};
use std::time::Duration;

/// One look at the resident set: whether it starts a relief pass, or that a
/// query is refused.
fn observe(governor: &mut MemoryGovernor, resident: usize) -> Result<bool, MemoryPressure> {
    let now = Duration::from_secs(1);
    let begun = governor.begin_relief(Some(resident), now);
    if begun {
        governor.end_relief(Some(resident));
    }
    governor.admit_query(Some(resident))?;
    Ok(begun)
}

fn cooldown() -> Duration {
    Duration::from_nanos(HARD_RECLAIM_COOLDOWN_NANOS as u64)
}

#[test]
fn memory_limit_parser_accepts_exact_bytes_and_rejects_ambiguous_units() {
    assert_eq!(resolve_memory_max_bytes("0", None), Ok(0));
    assert_eq!(
        resolve_memory_max_bytes(" 3758096384 ", None),
        Ok(3_758_096_384)
    );
    let error = resolve_memory_max_bytes("4GiB", None).unwrap_err();
    assert!(error.contains("exact byte count, 0, or auto"));
}

#[test]
fn auto_takes_most_of_a_finite_limit_and_refuses_without_one() {
    assert_eq!(resolve_memory_max_bytes("auto", Some(1000)), Ok(percent(1000, 90)));
    assert_eq!(resolve_memory_max_bytes(" AUTO ", Some(1000)), Ok(900));
    assert!(resolve_memory_max_bytes("auto", None)
        .unwrap_err()
        .contains("finite cgroup memory limit"));
}

#[test]
fn cgroup_limit_parser_rejects_unlimited_and_overflow_sentinels() {
    assert_eq!(parse_cgroup_limit("max\n", false), None);
    assert_eq!(parse_cgroup_limit("0", false), None);
    assert_eq!(
        parse_cgroup_limit("4294967296", false),
        usize::try_from(4_294_967_296u64).ok()
    );
    assert_eq!(
        parse_cgroup_limit(&(CGROUP_V1_UNLIMITED_FLOOR - 1).to_string(), true),
        usize::try_from(CGROUP_V1_UNLIMITED_FLOOR - 1).ok()
    );
    assert_eq!(
        parse_cgroup_limit(&CGROUP_V1_UNLIMITED_FLOOR.to_string(), true),
        None
    );
    assert_eq!(
        parse_cgroup_limit(&(usize::MAX as u128 + 1).to_string(), false),
        None
    );
}

#[test]
fn cgroup_membership_paths_stay_beneath_the_controller_mount() {
    assert_eq!(
        cgroup_directory("/sys/fs/cgroup", "/tenant.slice/namidb.service"),
        Some("/sys/fs/cgroup/tenant.slice/namidb.service".to_string())
    );
    assert_eq!(
        cgroup_directory("/sys/fs/cgroup", "/"),
        Some("/sys/fs/cgroup".to_string())
    );
    assert_eq!(
        cgroup_directory("/sys/fs/cgroup", "../../etc"),
        None,
        "kernel membership text must never be allowed to escape the mount"
    );
}

#[test]
fn limit_files_of_the_own_group_come_before_those_of_the_mount() {
    let paths = cgroup_memory_limit_paths(Some("0::/a/b\n5:cpu,memory:/c\n"));
    assert_eq!(
        paths[0],
        ("/sys/fs/cgroup/a/b/memory.max".to_string(), false)
    );
    assert!(paths
        .iter()
        .any(|p| p.0 == "/sys/fs/cgroup/memory/c/memory.limit_in_bytes" && p.1));
    assert!(paths
        .iter()
        .any(|p| p.0 == "/sys/fs/cgroup/memory.max" && !p.1));
}

#[test]
fn first_finite_limit_is_taken() {
    let contents = vec![
        (None, false),
        (Some("max".to_string()), false),
        (Some("2048\n".to_string()), false),
        (Some("4096".to_string()), false),
    ];
    assert_eq!(finite_cgroup_memory_limit_bytes(&contents), Some(2048));
    assert_eq!(finite_cgroup_memory_limit_bytes(&vec![]), None);
}

#[test]
fn a_v2_limit_is_preferred_wherever_its_line_stands() {
    let membership = "4:memory:/a\n0::/a\n";
    let paths = cgroup_memory_limit_paths(Some(membership));
    let contents: Vec<(Option<String>, bool)> = paths
        .into_iter()
        .map(|(path, v1)| match path.as_str() {
            "/sys/fs/cgroup/memory/a/memory.limit_in_bytes" => (Some("1000".to_string()), v1),
            "/sys/fs/cgroup/a/memory.max" => (Some("2000".to_string()), v1),
            _ => (None, v1),
        })
        .collect();
    assert_eq!(contents[0], (Some("1000".to_string()), true));
    assert_eq!(finite_cgroup_memory_limit_bytes(&contents), Some(2000));
    let only_v1 = vec![
        (Some("1000".to_string()), true),
        (Some("max".to_string()), false),
    ];
    assert_eq!(finite_cgroup_memory_limit_bytes(&only_v1), Some(1000));
}

#[test]
fn disabled_governor_never_rejects() {
    let mut governor = MemoryGovernor::new(0);
    assert_eq!(governor.sample_for_admission(), None);
    assert_eq!(governor.admit_query(Some(usize::MAX)), Ok(()));
    assert_eq!(governor.resident_bytes(), 0);
    assert_eq!(observe(&mut governor, usize::MAX), Ok(false));
}

#[test]
fn reclaim_has_hysteresis_and_limit_rejects() {
    let mut governor = MemoryGovernor::new(1_000);
    assert_eq!(observe(&mut governor, 899), Ok(false));
    assert_eq!(observe(&mut governor, 900), Ok(true));
    assert_eq!(observe(&mut governor, 950), Ok(false));
    assert_eq!(
        observe(&mut governor, 1_000),
        Err(MemoryPressure {
            resident_bytes: 1_000,
            requested_headroom_bytes: 0,
            max_bytes: 1_000,
        })
    );
    assert_eq!(observe(&mut governor, 800), Ok(false));
    assert_eq!(observe(&mut governor, 900), Ok(true));
}

#[test]
fn projected_headroom_rejects_before_allocation_and_saturates() {
    assert_eq!(
        MemoryGovernor::projected_pressure(800, 200, 1_000),
        Some(MemoryPressure {
            resident_bytes: 800,
            requested_headroom_bytes: 200,
            max_bytes: 1_000,
        }),
        "reaching the ceiling with the projected decode working set must reject"
    );
    assert!(
        MemoryGovernor::projected_pressure(800, 199, 1_000).is_none(),
        "one byte below the projected ceiling remains admissible"
    );
    assert_eq!(
        MemoryGovernor::projected_pressure(1, usize::MAX, usize::MAX),
        Some(MemoryPressure {
            resident_bytes: 1,
            requested_headroom_bytes: usize::MAX,
            max_bytes: usize::MAX,
        }),
        "overflow must conservatively saturate instead of wrapping"
    );
    assert!(
        MemoryGovernor::projected_pressure(usize::MAX, usize::MAX, 0).is_none(),
        "a disabled governor remains disabled regardless of headroom"
    );
}

#[test]
fn headroom_reservations_are_atomic_and_drop_readmits() {
    let mut governor = MemoryGovernor::new(1_000);
    let first = governor
        .try_reserve_observed(100, 400)
        .expect("first projected working set fits");
    assert_eq!(governor.reserved_headroom_bytes(), 400);

    let rejected = governor
        .try_reserve_observed(100, 500)
        .expect_err("concurrent reservations must be included in projection");
    assert_eq!(rejected.resident_bytes, 100);
    assert_eq!(rejected.requested_headroom_bytes, 900);

    governor.release_headroom(first);
    assert_eq!(governor.reserved_headroom_bytes(), 0);
    let second = governor
        .try_reserve_observed(100, 500)
        .expect("dropping the first guard must readmit the second");
    assert_eq!(governor.reserved_headroom_bytes(), 500);
    governor.release_headroom(second);

    assert!(governor.try_reserve_observed(1, usize::MAX).is_err());
    assert_eq!(
        governor.reserved_headroom_bytes(),
        0,
        "overflow rejection must not leak a reservation"
    );
}

#[test]
fn disabled_headroom_reservation_is_a_zero_byte_guard() {
    let mut governor = MemoryGovernor::new(0);
    let guard = governor
        .reserve_query_headroom(Some(1), usize::MAX)
        .expect("disabled governor never rejects");
    assert_eq!(guard.bytes(), 0);
    assert_eq!(governor.reserved_headroom_bytes(), 0);
}

#[test]
fn reclaim_is_single_flight_and_hard_retries_are_cooled_down() {
    let start = Duration::from_secs(100);
    let mut governor = MemoryGovernor::new(1_000);
    assert!(governor.try_begin_reclaim(true, false, start));
    assert!(
        !governor.try_begin_reclaim(false, true, start),
        "a second caller must not overlap an active clear"
    );
    governor.finish_reclaim(950);
    assert!(
        !governor.try_begin_reclaim(false, true, start),
        "hard-limit retries are rate limited"
    );

    let later = start + cooldown();
    assert!(governor.try_begin_reclaim(false, true, later));
    assert!(!governor.begin_relief(Some(950), later));
    assert!(governor.pressure_active());
    governor.finish_reclaim(850);
    assert!(
        !governor.pressure_active(),
        "an effective clear below 90% must re-arm pressure detection"
    );
}

#[test]
fn blocking_reclaim_jobs_are_pre_gated_across_queue_and_cooldown() {
    let start = Duration::from_secs(100);
    let mut governor = MemoryGovernor::new(1_000);
    let permit = governor
        .try_schedule_reclaim(900, start)
        .expect("first pressure observer schedules one job");
    assert!(
        governor.try_schedule_reclaim(900, start).is_none(),
        "a burst cannot enqueue a second blocking job before the first starts"
    );
    let before = governor.jobs_completed();
    governor.release_reclaim(permit);
    assert_eq!(governor.jobs_completed(), before + 1);

    assert!(governor.begin_relief(Some(950), start));
    governor.end_relief(Some(950));
    assert!(
        governor.try_schedule_reclaim(950, start).is_none(),
        "one clear serves the active soft-pressure episode"
    );
    assert!(
        governor.try_schedule_reclaim(1_000, start).is_none(),
        "hard-pressure retries respect the cooldown before queueing"
    );
    assert!(
        governor
            .try_schedule_reclaim(1_000, start + cooldown())
            .is_some(),
        "one hard-pressure retry is admitted after the cooldown"
    );
}

#[test]
fn at_the_ceiling_an_admission_waits_for_the_job_under_way() {
    let start = Duration::from_secs(100);
    let mut governor = MemoryGovernor::new(1_000);
    let step = governor.plan_reclaim(1_000, start);
    assert!(matches!(step, ReclaimStep::Run(_)));
    assert!(matches!(
        governor.plan_reclaim(1_000, start),
        ReclaimStep::Wait
    ));
    assert!(matches!(
        governor.plan_reclaim(950, start),
        ReclaimStep::Decide
    ));
}

#[test]
fn maintenance_reclaim_never_counts_as_a_rejected_query() {
    let mut governor = MemoryGovernor::new(1);
    let sample = governor.sample();
    if governor.begin_relief(sample, Duration::from_secs(1)) {
        let after = governor.sample();
        governor.end_relief(after);
    }
    assert_eq!(governor.rejected_queries(), 0);
}

#[test]
fn sampling_reports_the_resident_set_of_this_process() {
    let mut governor = MemoryGovernor::new(usize::MAX);
    if let Some(resident) = governor.sample_for_admission() {
        assert!(resident > 0);
        assert_eq!(governor.resident_bytes(), resident);
    }
}

#[test]
fn admin_flush_gate_is_process_wide_single_flight() {
    let mut governor = MemoryGovernor::new(0);
    let first = governor.try_begin_flush().unwrap();
    assert!(governor.try_begin_flush().is_none());
    governor.end_flush(first);
    assert!(governor.try_begin_flush().is_some());
}

#[test]
fn reservations_are_handed_back_in_any_order() {
    let mut governor = MemoryGovernor::new(1_000);
    let first = governor.try_reserve_observed(100, 200).unwrap();
    let second = governor.try_reserve_observed(100, 300).unwrap();
    assert_eq!(governor.reserved_headroom_bytes(), 500);
    assert!(governor.try_reserve_observed(100, 400).is_err());
    governor.release_headroom(first);
    assert_eq!(governor.reserved_headroom_bytes(), 300);
    governor.release_headroom(second);
    assert_eq!(governor.reserved_headroom_bytes(), 0);
}
