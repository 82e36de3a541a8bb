//! Retry schedules, failure episodes and the claims that attempts hold.

use waygate_upstream::assoc::Assoc;
use waygate_upstream::clock::{Duration, Instant, WallTime};
use waygate_upstream::entry::UpstreamEntry;
use waygate_upstream::heal::{settle_heal, HealInstall, HealOutcome};
use waygate_upstream::health::UpstreamErrorClass;
use waygate_upstream::lane::BreakerState;
use waygate_upstream::lifecycle::{ClaimedAttempt, OperatorReconnect, ReconnectWait};
use waygate_upstream::manifest::{
    ApprovalMode, ClassificationMode, Transport, UpstreamAuth, UpstreamManifest, UpstreamProtocol,
};
use waygate_upstream::pool::UpstreamPool;
use waygate_upstream::reconnect::{
    exponential_cap, full_jitter, mix64, stable_hash, CredentialMaterialVersion, ReconnectPolicy,
    ReconnectState,
};

fn policy(base_secs: u64, ceiling_secs: u64) -> ReconnectPolicy {
    ReconnectPolicy {
        base: Duration::from_secs(base_secs),
        ceiling: Duration::from_secs(ceiling_secs),
        seed: 7,
        credential_key: [9; 32],
    }
}

fn credential_version(byte: u128) -> CredentialMaterialVersion {
    CredentialMaterialVersion { high: byte, low: byte }
}

fn at(secs: u64) -> Instant {
    Instant { nanos: Duration::from_secs(secs).nanos }
}

fn epoch() -> WallTime {
    WallTime { unix_nanos: 0 }
}

fn stdio_manifest(name: &str, command: &[&str]) -> UpstreamManifest {
    UpstreamManifest {
        name: name.to_owned(),
        classification_mode: ClassificationMode::Manifest,
        approval_mode: ApprovalMode::PerCall,
        transport: Transport::Stdio,
        protocol: UpstreamProtocol::Auto,
        url: None,
        command: Some(command.iter().map(|part| part.to_string()).collect()),
        tools: Vec::new(),
        resources: Vec::new(),
        exchange: None,
        auth: None,
        mtls: None,
        tier_a_required: false,
        tier_c_peer: None,
        session: None,
    }
}

fn http_manifest_with_bearer(name: &str, bearer_env: &str) -> UpstreamManifest {
    let mut manifest = stdio_manifest(name, &[]);
    manifest.transport = Transport::Http;
    manifest.url = Some("http://127.0.0.1:1/mcp".to_owned());
    manifest.command = None;
    manifest.auth = Some(UpstreamAuth {
        bearer_env: Some(bearer_env.to_owned()),
        catalog_probe_groups: Vec::new(),
    });
    manifest
}

fn disconnected_pool(manifests: Vec<UpstreamManifest>, timeout: Duration) -> UpstreamPool {
    let mut asked = Assoc::new();
    for manifest in manifests {
        asked.insert(manifest.name.clone(), (manifest, credential_version(1)));
    }
    UpstreamPool::from_manifests_disconnected(asked, policy(60, 900), at(0), epoch())
        .with_redial_dial_timeout(timeout)
}

/// Let an upstream's retry fall due at a moment.
fn force_deadline(pool: &mut UpstreamPool, name: &str, deadline: Instant) {
    let mut entry = pool.entries.remove(name).unwrap();
    entry.reconnect.active_claim = None;
    entry.reconnect.current_backoff = Some(Duration::zero());
    entry.reconnect.next_retry = Some(deadline);
    entry.reconnect.next_retry_at = Some(epoch());
    pool.entries.insert(name.to_owned(), entry);
}

/// Exchange an upstream's entry for a rebuilt one and hand back the old one.
fn replace(pool: &mut UpstreamPool, name: &str, mut replacement: UpstreamEntry) -> UpstreamEntry {
    replacement.id = 1;
    let retired = pool.entries.remove(name).unwrap();
    pool.entries.insert(name.to_owned(), replacement);
    retired
}

fn replacement_for(name: &str) -> UpstreamEntry {
    let mut pool = disconnected_pool(
        vec![stdio_manifest(name, &["/replacement-does-not-run"])],
        Duration::from_millis(50),
    );
    pool.entries.remove(name).unwrap()
}

fn state_of(pool: &UpstreamPool, name: &str) -> ReconnectState {
    pool.entries.get(name).unwrap().reconnect
}

/// An attempt that dialed every lane in vain.
fn nothing_installed(state: &ReconnectState) -> HealInstall {
    HealInstall {
        healed: 0,
        breaker_open: false,
        connected_after: 0,
        tool_count: 0,
        revision: state.revision(),
        drift: Vec::new(),
        catalog_changed: false,
    }
}

fn fail_attempt(pool: &mut UpstreamPool, name: &str, version: CredentialMaterialVersion) -> HealOutcome {
    let mut entry = pool.entries.remove(name).unwrap();
    let install = nothing_installed(&entry.reconnect);
    let outcome = settle_heal(
        &mut entry,
        true,
        &install,
        None,
        false,
        false,
        Some(UpstreamErrorClass::Transport),
        version,
        at(1),
        epoch(),
    );
    pool.entries.insert(name.to_owned(), entry);
    outcome
}

#[test]
fn exponential_backoff_escalates_and_stops_at_the_ceiling() {
    assert_eq!(
        exponential_cap(Duration::from_secs(5), Duration::from_secs(20), 1),
        Duration::from_secs(5)
    );
    assert_eq!(
        exponential_cap(Duration::from_secs(5), Duration::from_secs(20), 2),
        Duration::from_secs(10)
    );
    assert_eq!(
        exponential_cap(Duration::from_secs(5), Duration::from_secs(20), 3),
        Duration::from_secs(20)
    );
    assert_eq!(
        exponential_cap(Duration::from_secs(5), Duration::from_secs(20), 40),
        Duration::from_secs(20)
    );
}

#[test]
fn full_jitter_is_deterministic_and_bounded() {
    let cap = Duration::from_secs(10);
    let first = full_jitter(cap, 42, 1);
    assert_eq!(first, full_jitter(cap, 42, 1));
    assert!(first <= cap);
    assert_ne!(first, full_jitter(cap, 42, 2));
}

#[test]
fn success_and_operator_reset_end_the_failure_episode() {
    let mut state = ReconnectState::after_boot_at(
        policy(5, 20),
        "kagi",
        true,
        credential_version(1),
        at(0),
        epoch(),
    );
    let first = state.record_failure_at(at(1), epoch());
    let second = state.record_failure_at(at(2), epoch());
    assert!(first.episode_started);
    assert_eq!(second.episode_attempt, 2);
    state.record_success_at(false, at(3), epoch());
    assert_eq!(state.snapshot(), (None, None));

    state.observe_runtime_failure_at(at(4), epoch());
    assert!(state.snapshot().1.is_some());
    state.reset_for_operator_at(at(5), epoch());
    assert!(state.snapshot().0.is_some());
    assert!(state.snapshot().1.is_some());
    assert!(state.record_failure_at(at(6), epoch()).episode_started);
}

#[test]
fn stale_redial_success_cannot_clear_a_newer_lane_failure() {
    let mut state = ReconnectState::after_boot_at(
        policy(5, 20),
        "versioned",
        false,
        credential_version(1),
        at(0),
        epoch(),
    );
    let revision_at_install = state.revision();

    state.observe_runtime_failure_at(at(1), epoch());
    let newer_schedule = state.snapshot();
    let newer_revision = state.revision();

    assert!(!state.record_success_if_revision(
        revision_at_install,
        false,
        credential_version(2),
        at(2),
        epoch(),
    ));
    assert_eq!(state.revision(), newer_revision);
    assert_eq!(state.snapshot(), newer_schedule);
    assert!(state.is_scheduled());

    assert!(state.record_success_if_revision(
        newer_revision,
        false,
        credential_version(2),
        at(3),
        epoch(),
    ));
    assert!(!state.is_scheduled());
}

#[test]
fn stale_reconnect_failure_cannot_overwrite_a_newer_redial_success() {
    let mut state = ReconnectState::after_boot_at(
        policy(5, 20),
        "versioned",
        true,
        credential_version(1),
        at(0),
        epoch(),
    );
    let revision_at_install = state.revision();

    state.record_success_at(false, at(1), epoch());
    let recovered_revision = state.revision();
    assert_eq!(state.snapshot(), (None, None));

    assert!(state
        .record_failure_if_revision(revision_at_install, credential_version(1), at(2), epoch())
        .is_none());
    assert_eq!(state.revision(), recovered_revision);
    assert_eq!(state.snapshot(), (None, None));
    assert_eq!(state.episode_attempts(), 0);
}

#[test]
fn stale_reconnect_success_leaves_its_claim_to_rearm_after_a_newer_failure() {
    let mut state = ReconnectState::after_boot_at(
        policy(5, 20),
        "claimed",
        true,
        credential_version(1),
        at(0),
        epoch(),
    );
    let claim = state.claim_due(at(30)).expect("boot retry is due");
    let revision_at_install = state.revision();

    state.observe_runtime_failure_at(at(30), epoch());
    assert!(!state.record_success_if_revision(
        revision_at_install,
        false,
        credential_version(2),
        at(30),
        epoch(),
    ));
    assert!(state.claim_is_active(claim));
    assert_eq!(state.snapshot(), (None, None));

    assert!(state.release_claim(claim, true, at(30), epoch()));
    assert!(state.is_scheduled());
}

#[test]
fn catalog_jitter_stays_between_floor_and_deadline() {
    let state = ReconnectState::after_boot_at(
        policy(5, 20),
        "kagi",
        false,
        credential_version(1),
        at(0),
        epoch(),
    );
    let floor = Duration::from_secs(60);
    let ttl = Duration::from_secs(900);
    let interval = state.jitter_catalog_interval(floor, ttl);
    assert!((floor..=ttl).contains(&interval));
    assert!(interval.nanos >= ttl.nanos - ttl.nanos / 10);
    assert_eq!(state.jitter_catalog_interval(floor, ttl), interval);
}

#[test]
fn fake_time_pins_deadlines_escalation_and_reset() {
    let now = at(1_000);
    let wall = epoch();
    let mut state = ReconnectState::after_boot_at(
        policy(5, 20),
        "kagi",
        true,
        credential_version(1),
        now,
        wall,
    );
    let (initial_backoff, initial_deadline) = state.snapshot();
    let initial_backoff = initial_backoff.expect("boot failure schedules a retry");
    assert!(initial_backoff <= Duration::from_secs(5));
    let calendar = time::OffsetDateTime::UNIX_EPOCH
        + time::Duration::nanoseconds(initial_backoff.nanos as i64);
    assert_eq!(
        initial_deadline,
        Some(WallTime { unix_nanos: calendar.unix_timestamp_nanos() })
    );
    assert_eq!(state.delay(now), Some(initial_backoff));

    let retry_now = at(1_030);
    let retry_wall = wall.checked_add(Duration::from_secs(30)).unwrap();
    let second = state.record_failure_at(retry_now, retry_wall);
    assert!(second.backoff <= Duration::from_secs(10));
    let third = state.record_failure_at(retry_now, retry_wall);
    assert!(third.backoff <= Duration::from_secs(20));
    let capped = state.record_failure_at(retry_now, retry_wall);
    assert!(capped.backoff <= Duration::from_secs(20));

    state.record_success_at(false, retry_now, retry_wall);
    assert_eq!(state.snapshot(), (None, None));
    assert!(!state.is_due(at(1_030 + 3600)));
}

#[test]
fn claimed_deadline_is_hidden_until_attempt_settles() {
    let now = at(1_030);
    let mut state = ReconnectState::after_boot_at(
        policy(5, 20),
        "kagi",
        true,
        credential_version(1),
        at(1_000),
        epoch(),
    );

    let claim = state.claim_due(now).expect("due deadline is claimed");
    assert_eq!(state.claim_due(now), None);
    assert_eq!(state.delay(now), None);
    state.observe_runtime_failure_at(now, epoch());
    assert_eq!(state.delay(now), None);

    assert!(state.release_claim(claim, true, now, epoch()));
    assert!(state.snapshot().1.is_some());
}

#[test]
fn cancellation_only_breaker_trip_arms_scheduler_deadline() {
    let mut pool = disconnected_pool(
        vec![stdio_manifest("cancelled", &["/does-not-run"])],
        Duration::from_millis(50),
    )
    .with_reconnect_policy(Duration::from_millis(1), Duration::from_millis(1), at(0), epoch());
    let mut entry = pool.entries.remove("cancelled").unwrap();
    entry.reconnect.record_success_at(false, at(0), epoch());
    pool.entries.insert("cancelled".to_owned(), entry);
    assert_eq!(pool.wait_for_reconnect_due(at(1), epoch()), ReconnectWait::Idle);

    let mut entry = pool.entries.remove("cancelled").unwrap();
    entry.breaker = BreakerState::Open;
    pool.entries.insert("cancelled".to_owned(), entry);
    assert_ne!(pool.wait_for_reconnect_due(at(1), epoch()), ReconnectWait::Idle);
    assert!(
        state_of(&pool, "cancelled").is_scheduled(),
        "cancellation-only failures must create recovery work",
    );
    assert_eq!(pool.wait_for_reconnect_due(at(2), epoch()), ReconnectWait::Due);
}

#[test]
fn removal_clear_is_final_against_a_late_reconnect_arm() {
    let mut pool = disconnected_pool(
        vec![stdio_manifest("removed-race", &["/does-not-run"])],
        Duration::from_millis(50),
    );
    let mut entry = pool.entries.remove("removed-race").unwrap();
    entry.retire(at(1), epoch());
    assert!(!entry.arm_reconnect(true, at(2), epoch()));
    assert!(!entry.reconnect.is_scheduled());
    assert_eq!(entry.reconnect.snapshot(), (None, None));
}

#[test]
fn same_name_replacement_owns_the_reconnect_schedule() {
    let mut pool = disconnected_pool(
        vec![stdio_manifest("replaced-arm", &["/does-not-run"])],
        Duration::from_millis(50),
    );
    let mut replacement = replacement_for("replaced-arm");
    replacement.reconnect.record_success_at(false, at(0), epoch());
    let mut retired = replace(&mut pool, "replaced-arm", replacement);
    retired.reconnect.record_success_at(false, at(0), epoch());

    let current = pool.is_published_entry("replaced-arm", retired.id);
    assert!(!retired.arm_reconnect(current, at(1), epoch()));

    assert!(!retired.reconnect.is_scheduled());
    assert!(!state_of(&pool, "replaced-arm").is_scheduled());
}

#[test]
fn retired_probe_recovery_cannot_clear_its_successor_schedule() {
    let mut pool = disconnected_pool(
        vec![stdio_manifest("replaced-probe", &["/does-not-run"])],
        Duration::from_millis(50),
    );
    let mut retired = replace(&mut pool, "replaced-probe", replacement_for("replaced-probe"));
    let current = pool.is_published_entry("replaced-probe", retired.id);
    assert!(!retired.settle_probe_recovery(true, current, false, at(1), epoch()));
    assert!(
        retired.reconnect.is_scheduled(),
        "the retired entry's private state must not be republished or settled",
    );
    assert!(
        state_of(&pool, "replaced-probe").is_scheduled(),
        "a stale success must not clear its successor's retry",
    );
}

#[test]
fn replacement_before_due_claim_cannot_launch_the_retired_entry() {
    let mut pool = disconnected_pool(
        vec![stdio_manifest("replaced-claim", &["/does-not-run"])],
        Duration::from_millis(50),
    );
    force_deadline(&mut pool, "replaced-claim", at(1));
    let mut replacement = replacement_for("replaced-claim");
    replacement.reconnect.record_success_at(false, at(0), epoch());
    let retired = replace(&mut pool, "replaced-claim", replacement);

    assert!(
        pool.reconnect_due_task(at(1), epoch()).is_empty(),
        "the replacement has no due work, so no task may be returned",
    );
    assert!(retired.reconnect.active_claim.is_none());
    assert!(retired.reconnect.is_scheduled());
    assert!(!state_of(&pool, "replaced-claim").is_scheduled());
}

#[test]
fn cancelled_claim_after_replacement_does_not_rearm_the_retired_entry() {
    let mut pool = disconnected_pool(
        vec![stdio_manifest("claimed-replacement", &["/does-not-run"])],
        Duration::from_millis(50),
    );
    force_deadline(&mut pool, "claimed-replacement", at(1));
    let claimed = pool.reconnect_due_task(at(1), epoch());
    assert_eq!(claimed.len(), 1);

    let mut replacement = replacement_for("claimed-replacement");
    replacement.reconnect.record_success_at(false, at(0), epoch());
    let mut retired = replace(&mut pool, "claimed-replacement", replacement);

    let current = pool.is_published_entry("claimed-replacement", claimed[0].id);
    assert!(retired.abandon_claim(claimed[0].claim, current, at(2), epoch()));

    assert!(retired.reconnect.active_claim.is_none());
    assert!(!retired.reconnect.is_scheduled());
    assert!(!state_of(&pool, "claimed-replacement").is_scheduled());
}

#[test]
fn cancelled_claim_deferred_by_the_structural_fence_rearms_current_entry() {
    let mut pool = disconnected_pool(
        vec![stdio_manifest("claimed-current-fence", &["/does-not-run"])],
        Duration::from_millis(50),
    );
    force_deadline(&mut pool, "claimed-current-fence", at(1));
    let claimed = pool.reconnect_due_task(at(1), epoch());
    assert_eq!(claimed.len(), 1);
    let current = pool.is_published_entry("claimed-current-fence", claimed[0].id);
    let mut entry = pool.entries.remove("claimed-current-fence").unwrap();
    assert!(entry.abandon_claim(claimed[0].claim, current, at(2), epoch()));
    assert!(entry.reconnect.active_claim.is_none());
    assert!(entry.reconnect.is_scheduled());
}

#[test]
fn fleet_reload_attempt_preserves_the_failure_episode() {
    let mut pool = disconnected_pool(
        vec![stdio_manifest("reload-reset", &["/does-not-run"])],
        Duration::from_millis(50),
    )
    .with_reconnect_policy(Duration::from_millis(1), Duration::from_millis(64), at(0), epoch());
    let mut entry = pool.entries.remove("reload-reset").unwrap();
    for _ in 0..6 {
        entry.reconnect.record_failure_at(at(0), epoch());
    }
    assert_eq!(entry.reconnect.episode_attempts, 6);
    assert_eq!(entry.reconnect.consecutive_failures, 6);
    pool.entries.insert("reload-reset".to_owned(), entry);

    assert_eq!(pool.reconnect_candidates(), vec!["reload-reset".to_owned()]);
    assert!(pool.begin_recheck("reload-reset", 0, credential_version(1), at(1), epoch()));
    fail_attempt(&mut pool, "reload-reset", credential_version(1));

    let state = state_of(&pool, "reload-reset");
    assert_eq!(state.episode_attempts, 7);
    assert_eq!(state.consecutive_failures, 7);
    assert!(state.current_backoff <= Some(Duration::from_millis(64)));
}

#[test]
fn fleet_reload_resets_once_when_referenced_credential_material_rotates() {
    let mut pool = disconnected_pool(
        vec![http_manifest_with_bearer("rotated", "GW_TEST_RECONNECT_ROTATED_BEARER")],
        Duration::from_millis(50),
    )
    .with_reconnect_policy(Duration::from_millis(1), Duration::from_millis(64), at(0), epoch());
    let mut entry = pool.entries.remove("rotated").unwrap();
    for _ in 0..6 {
        entry.reconnect.record_failure_at(at(0), epoch());
    }
    pool.entries.insert("rotated".to_owned(), entry);

    assert!(pool.begin_recheck("rotated", 0, credential_version(1), at(1), epoch()));
    fail_attempt(&mut pool, "rotated", credential_version(1));
    assert_eq!(
        state_of(&pool, "rotated").episode_attempts(),
        7,
        "unchanged material must preserve the current failure episode",
    );

    assert!(pool.begin_recheck("rotated", 0, credential_version(2), at(1), epoch()));
    fail_attempt(&mut pool, "rotated", credential_version(2));
    assert_eq!(
        state_of(&pool, "rotated").episode_attempts(),
        1,
        "the first attempt after rotation must start a new episode",
    );

    assert!(pool.begin_recheck("rotated", 0, credential_version(2), at(1), epoch()));
    fail_attempt(&mut pool, "rotated", credential_version(2));
    assert_eq!(
        state_of(&pool, "rotated").episode_attempts(),
        2,
        "repeated reloads must not repeatedly reset unchanged material",
    );
}

#[test]
fn replacement_during_outcome_gap_suppresses_stale_failure() {
    let mut pool = disconnected_pool(
        vec![stdio_manifest("replaced", &["/does-not-run"])],
        Duration::from_millis(50),
    );
    assert!(pool.begin_recheck("replaced", 0, credential_version(1), at(1), epoch()));
    let install = nothing_installed(&state_of(&pool, "replaced"));
    let mut retired = replace(&mut pool, "replaced", replacement_for("replaced"));
    let current = pool.is_published_entry("replaced", retired.id);
    let outcome = settle_heal(
        &mut retired,
        current,
        &install,
        None,
        false,
        false,
        Some(UpstreamErrorClass::Transport),
        credential_version(1),
        at(2),
        epoch(),
    );
    assert_eq!(outcome, HealOutcome::Retired);
    assert_eq!(retired.reconnect.episode_attempts, 0);
    assert_eq!(retired.reconnect.consecutive_failures, 1);
    assert!(retired.reconnect.is_scheduled());
}

#[test]
fn successful_redial_state_wins_over_an_older_reconnect_failure() {
    let mut pool = disconnected_pool(
        vec![stdio_manifest("redial-wins", &["/does-not-run"])],
        Duration::from_millis(50),
    );
    assert!(pool.begin_recheck("redial-wins", 0, credential_version(1), at(1), epoch()));
    let mut entry = pool.entries.remove("redial-wins").unwrap();
    let install = nothing_installed(&entry.reconnect);
    entry.reconnect.record_success_at(false, at(2), epoch());
    let outcome = settle_heal(
        &mut entry,
        true,
        &install,
        None,
        false,
        false,
        Some(UpstreamErrorClass::Transport),
        credential_version(1),
        at(3),
        epoch(),
    );
    assert_eq!(outcome, HealOutcome::Stale);
    assert_eq!(entry.reconnect.episode_attempts(), 0);
    assert_eq!(entry.reconnect.snapshot(), (None, None));
}

#[test]
fn probe_recovery_during_reconnect_suppresses_the_stale_dial_failure() {
    let mut pool = disconnected_pool(
        vec![stdio_manifest("probe-wins", &["/does-not-run"])],
        Duration::from_millis(50),
    )
    .with_reconnect_policy(Duration::from_millis(1), Duration::from_millis(64), at(0), epoch());
    assert!(pool.begin_recheck("probe-wins", 0, credential_version(1), at(1), epoch()));
    let mut entry = pool.entries.remove("probe-wins").unwrap();
    let install = nothing_installed(&entry.reconnect);
    let outcome = settle_heal(
        &mut entry,
        true,
        &install,
        None,
        true,
        false,
        Some(UpstreamErrorClass::Transport),
        credential_version(1),
        at(2),
        epoch(),
    );
    assert_eq!(outcome, HealOutcome::ProbeRecovered);
    assert_eq!(entry.reconnect.episode_attempts, 0);
    assert_eq!(entry.reconnect.consecutive_failures, 0);
    assert!(
        entry.reconnect.is_scheduled(),
        "the still-missing lane must retain a base-delay retry"
    );
}

#[test]
fn operator_reset_linearizes_after_queued_attempt() {
    let mut pool = disconnected_pool(
        vec![stdio_manifest("missing", &["/does-not-run"])],
        Duration::from_millis(50),
    );
    fail_attempt(&mut pool, "missing", credential_version(1));
    fail_attempt(&mut pool, "missing", credential_version(1));
    assert_eq!(
        pool.reconnect_one("missing", 0, true, at(1), epoch()),
        OperatorReconnect::Dial
    );
    fail_attempt(&mut pool, "missing", credential_version(1));
    assert!(!pool.is_connected("missing"), "the nonexistent upstream remains disconnected");
    assert_eq!(
        state_of(&pool, "missing").episode_attempts(),
        1,
        "the operator dial must be the first attempt after its reset",
    );
}

#[test]
fn cancelled_operator_reconnect_keeps_scheduler_fallback() {
    let mut pool = disconnected_pool(
        vec![stdio_manifest("cancelled-operator", &["/bin/sh", "-c", "sleep 10"])],
        Duration::from_secs(10),
    )
    .with_reconnect_policy(Duration::from_secs(30), Duration::from_secs(30), at(0), epoch());
    let mut entry = pool.entries.remove("cancelled-operator").unwrap();
    entry.reconnect.record_success_at(false, at(0), epoch());
    pool.entries.insert("cancelled-operator".to_owned(), entry);

    assert_eq!(
        pool.reconnect_one("cancelled-operator", 0, true, at(1), epoch()),
        OperatorReconnect::Dial
    );
    let state = state_of(&pool, "cancelled-operator");
    assert!(state.is_scheduled());
    assert_eq!(state.episode_attempts(), 0);
}

#[test]
fn operator_reset_invalidates_an_unstarted_background_claim() {
    let mut pool = disconnected_pool(
        vec![stdio_manifest("missing", &["/does-not-run"])],
        Duration::from_millis(50),
    );
    force_deadline(&mut pool, "missing", at(1));
    let background = pool.reconnect_due_task(at(1), epoch());
    assert_eq!(background.len(), 1);

    assert_eq!(
        pool.reconnect_one("missing", 0, true, at(2), epoch()),
        OperatorReconnect::Dial
    );
    fail_attempt(&mut pool, "missing", credential_version(1));
    assert_eq!(
        pool.reconnect_claimed_entry("missing", 0, background[0].claim, at(3), epoch()),
        ClaimedAttempt::Lapsed
    );
    assert_eq!(
        state_of(&pool, "missing").episode_attempts(),
        1,
        "the invalidated background claim must not dial after the operator attempt",
    );
}

#[test]
fn hashes_and_jitter_have_fixed_values() {
    assert_eq!(stable_hash(b""), 0xcbf2_9ce4_8422_2325);
    assert_eq!(stable_hash(b"a"), 12_642_967_877_113_212_044);
    assert_eq!(mix64(0), 0xe220_a839_7b1d_cdaf);
    assert_eq!(full_jitter(Duration::zero(), 42, 1), Duration::zero());
    assert_eq!(
        full_jitter(Duration::from_millis(9), 0, 0),
        Duration::from_millis(0xe220_a839_7b1d_cdaf % 10)
    );
}

#[test]
fn random_policies_differ_and_keep_the_defaults() {
    let a = ReconnectPolicy::random();
    let b = ReconnectPolicy::random();
    assert_eq!(a.base, Duration::from_secs(60));
    assert_eq!(a.ceiling, Duration::from_secs(900));
    assert_ne!(a.credential_key, b.credential_key);
    assert_ne!(a.seed, b.seed);
    assert_ne!(*a.credential_key(), [0u8; 32]);
}

#[test]
fn servers_have_their_own_jitter_streams() {
    let shared = policy(5, 20);
    assert_ne!(shared.for_server("a").seed, shared.for_server("b").seed);
    assert_eq!(shared.for_server("a").seed, shared.for_server("a").seed);
    assert_eq!(shared.for_server("a").base, Duration::from_secs(5));
}

#[test]
fn wall_deadlines_follow_the_calendar_and_end_with_it() {
    let noon = WallTime { unix_nanos: 1_700_000_000_000_000_000 };
    assert_eq!(
        noon.checked_add(Duration::from_secs(90)),
        Some(WallTime { unix_nanos: 1_700_000_090_000_000_000 })
    );
    let forever = Duration { nanos: u128::MAX };
    assert_eq!(noon.checked_add(forever), None);
    assert_eq!(at(1).checked_add(forever), None);
    assert_eq!(at(3).saturating_duration_since(at(1)), Duration::from_secs(2));
    assert_eq!(at(1).saturating_duration_since(at(3)), Duration::zero());
}

#[test]
fn two_claims_of_one_retry_differ() {
    let mut state = ReconnectState::after_boot_at(
        policy(5, 20),
        "kagi",
        true,
        credential_version(1),
        at(0),
        epoch(),
    );
    let first = state.claim_due(at(30)).unwrap();
    assert!(state.release_claim(first, true, at(30), epoch()));
    let second = state.claim_due(at(60)).unwrap();
    assert_ne!(first, second);
    assert!(!state.release_claim(first, true, at(60), epoch()));
    assert!(state.claim_is_active(second));
}

#[test]
fn a_healthy_claim_is_settled_without_a_dial() {
    let mut pool = disconnected_pool(
        vec![stdio_manifest("removed", &["/does-not-run"])],
        Duration::from_millis(50),
    );
    force_deadline(&mut pool, "removed", at(1));
    let due = pool.reconnect_due_task(at(1), epoch());
    assert_eq!(
        pool.reconnect_claimed_entry("removed", 0, due[0].claim, at(2), epoch()),
        ClaimedAttempt::Dial
    );
    let mut entry = pool.entries.remove("removed").unwrap();
    entry.removed = true;
    pool.entries.insert("removed".to_owned(), entry);
    assert_eq!(
        pool.reconnect_claimed_entry("removed", 0, due[0].claim, at(2), epoch()),
        ClaimedAttempt::Settled
    );
    assert!(!state_of(&pool, "removed").is_scheduled());
    assert_eq!(
        pool.reconnect_one("removed", 0, true, at(3), epoch()),
        OperatorReconnect::Gone
    );
    assert_eq!(
        pool.reconnect_one("unknown", 0, true, at(3), epoch()),
        OperatorReconnect::Gone
    );
}

#[test]
fn the_earliest_retry_sets_the_wait() {
    let mut pool = disconnected_pool(
        vec![stdio_manifest("a", &["/x"]), stdio_manifest("b", &["/y"])],
        Duration::from_millis(50),
    );
    force_deadline(&mut pool, "a", at(20));
    force_deadline(&mut pool, "b", at(12));
    assert_eq!(pool.next_delay(at(10)), Some(Duration::from_secs(2)));
    assert_eq!(
        pool.wait_for_reconnect_due(at(10), epoch()),
        ReconnectWait::Sleep(Duration::from_secs(2))
    );
    let due = pool.reconnect_due_task(at(20), epoch());
    assert_eq!(due.iter().map(|d| d.name.as_str()).collect::<Vec<_>>(), vec!["a", "b"]);
    assert_eq!(pool.next_delay(at(20)), None);
}
