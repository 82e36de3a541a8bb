//! Listings, listeners, settings, first dials and heals, and what is recorded.

use waygate_upstream::assoc::Assoc;
use waygate_upstream::audit::{
    drift_row, reconnect_failed_row, reconnected_row, redial_failed_row, redialed_row, refresh_row,
    refused_schema_row, AuditOutcome,
};
use waygate_upstream::boot::{
    boot_dials_done, choose_lane, commit_boot, settle_boot_dials, BootDial, Checkout,
};
use waygate_upstream::clock::{Duration, Instant, WallTime};
use waygate_upstream::drift::{DriftReport, QuarantineThreshold};
use waygate_upstream::entry::UpstreamEntry;
use waygate_upstream::facts::{operation_classifications, risk_to_tier, CatalogOperation, ToolFacts};
use waygate_upstream::freshness::CatalogFreshnessTrigger;
use waygate_upstream::heal::{
    collect_attempt, commit_heal, heal_gate, installable, lanes_to_dial, prepare_heal,
    publication_refused, settle_heal, settle_nothing_to_dial, HealGate, HealOutcome,
};
use waygate_upstream::health::{DialError, UpstreamErrorClass};
use waygate_upstream::lane::{BreakerState, Connection};
use waygate_upstream::listen::{
    lifecycle_check, listener_gate, settle_establish, CatalogListenerExit, EstablishEvent,
    ListenerEvent, RefreshPacer,
};
use waygate_upstream::listing::{ListedPage, ListingStep, SessionToolsReadError, ToolsListing};
use waygate_upstream::manifest::{
    ApprovalMode, ClassificationMode, RiskTier, ToolClassification, Transport, UpstreamManifest,
    UpstreamProtocol,
};
use waygate_upstream::names::{sort_names, sort_unique, text_lt};
use waygate_upstream::reconnect::{CredentialMaterialVersion, ReconnectFailure, ReconnectPolicy};
use waygate_upstream::redial::{Publication, RedialFailure, RedialOutcome};
use waygate_upstream::refusal_record::RejectedOutputSchema;
use waygate_upstream::settings::{
    parse_pool_size, parse_quarantine_threshold, parse_strict_pending_approval,
};
use waygate_upstream::text::decimal;
use waygate_upstream::tools::Tool;
use waygate_upstream::value::Value;

fn at(secs: u64) -> Instant {
    Instant { nanos: Duration::from_secs(secs).nanos }
}

fn epoch() -> WallTime {
    WallTime { unix_nanos: 0 }
}

fn version() -> CredentialMaterialVersion {
    CredentialMaterialVersion { high: 0, low: 0 }
}

fn tool(name: &str) -> Tool {
    Tool {
        name: name.to_owned(),
        presentation: String::new(),
        input_schema: "{}".to_owned(),
        output_schema: None,
        annotations: None,
        action_metadata: None,
        claims: None,
        schema_hash: format!("s:{name}"),
        behavior_hash: format!("b:{name}"),
        behavior_hash_sans_output_schema: format!("b:{name}"),
        metadata_error: None,
    }
}

fn lane(session: u64, tools: &[&str]) -> Connection {
    Connection {
        session,
        live_tools: tools.iter().map(|name| tool(name)).collect(),
        tools: tools.iter().map(|name| tool(name)).collect(),
        negotiated_protocol: None,
        resource_capability_advertised: false,
        cleartext_control_plane: false,
        network_destination: None,
        ttl_hint_ms: None,
        dialed_at: at(0),
        rejected_output_schemas: Vec::new(),
        unregisterable_input_schemas: Vec::new(),
    }
}

fn manifest(tools: &[&str]) -> UpstreamManifest {
    UpstreamManifest {
        name: "mock".to_owned(),
        classification_mode: ClassificationMode::Manifest,
        approval_mode: ApprovalMode::PerCall,
        transport: Transport::Http,
        protocol: UpstreamProtocol::Auto,
        url: None,
        command: None,
        tools: tools
            .iter()
            .map(|name| ToolClassification {
                name: name.to_string(),
                risk: RiskTier::High,
                side_effects: false,
                pii: false,
                approved_behavior_hash: None,
                discriminator: None,
                operations: Vec::new(),
            })
            .collect(),
        resources: Vec::new(),
        exchange: None,
        auth: None,
        mtls: None,
        tier_a_required: false,
        tier_c_peer: None,
        session: None,
    }
}

fn entry(manifest: UpstreamManifest, lanes: Vec<Option<Connection>>) -> UpstreamEntry {
    let policy = ReconnectPolicy {
        base: Duration::from_secs(5),
        ceiling: Duration::from_secs(20),
        seed: 7,
        credential_key: [9; 32],
    };
    UpstreamEntry::build(
        1,
        "mock",
        manifest,
        lanes,
        Some(UpstreamErrorClass::Dns),
        true,
        policy,
        version(),
        0,
        at(0),
        epoch(),
    )
}

fn page(tools: &[&str], ttl_ms: Option<u64>, next_cursor: Option<&str>) -> ListedPage {
    ListedPage {
        tools: tools.iter().map(|name| tool(name)).collect(),
        ttl_ms,
        next_cursor: next_cursor.map(str::to_owned),
    }
}

#[test]
fn listings_are_complete_and_as_fresh_as_their_stalest_page() {
    let mut listing = ToolsListing::begin(at(7));
    assert!(listing.may_request().is_ok());
    assert_eq!(
        listing.accept(page(&["a"], Some(500), Some("1"))),
        ListingStep::Next("1".to_owned())
    );
    assert_eq!(
        listing.accept(page(&["b"], None, Some("2"))),
        ListingStep::Next("2".to_owned())
    );
    assert_eq!(listing.accept(page(&["c"], Some(200), None)), ListingStep::Complete);
    let catalog = listing.finish();
    let names: Vec<&str> = catalog.tools.iter().map(|tool| tool.name.as_str()).collect();
    assert_eq!(names, vec!["a", "b", "c"]);
    assert_eq!(catalog.ttl_hint_ms, Some(200));
    assert_eq!(catalog.listed_at, at(7));
}

#[test]
fn listings_refuse_loops_and_endless_pages() {
    let mut looping = ToolsListing::begin(at(0));
    looping.accept(page(&[], None, Some("1")));
    assert_eq!(
        looping.accept(page(&[], None, Some("1"))),
        ListingStep::Refused("upstream repeated tools/list cursor `1`".to_owned())
    );
    let mut endless = ToolsListing::begin(at(0));
    for n in 0..50 {
        assert!(endless.may_request().is_ok());
        endless.accept(page(&[], None, Some(format!("{n}").as_str())));
    }
    assert_eq!(
        endless.may_request(),
        Err("upstream exceeded the 50-page tools/list limit".to_owned())
    );
}

#[test]
fn listing_errors_keep_their_class() {
    let late = SessionToolsReadError::timed_out(Duration::from_secs(30));
    assert_eq!(late.detail(), "tools/list did not complete within 30s");
    assert_eq!(late.error_class(), UpstreamErrorClass::Timeout);
    let refused = SessionToolsReadError::refused("no".to_owned());
    assert_eq!(refused.detail(), "no");
    assert_eq!(refused.error_class(), UpstreamErrorClass::Protocol);
}

#[test]
fn bursts_of_announcements_are_answered_once_per_window() {
    let mut pacer = RefreshPacer::new(Duration::from_secs(10));
    assert_eq!(pacer.observe(ListenerEvent::ToolsChanged), None);
    assert!(pacer.take_refresh(at(1)));
    assert!(!pacer.take_refresh(at(2)));
    pacer.observe(ListenerEvent::ToolsChanged);
    pacer.observe(ListenerEvent::ToolsChanged);
    assert!(!pacer.take_refresh(at(5)));
    assert_eq!(pacer.flush_at(), Some(at(11)));
    assert!(pacer.take_refresh(at(11)));
    assert_eq!(pacer.flush_at(), None);
    assert_eq!(pacer.observe(ListenerEvent::Other), None);
    assert_eq!(pacer.observe(ListenerEvent::StreamEnded), Some(CatalogListenerExit::Ended));
    assert_eq!(pacer.observe(ListenerEvent::Shutdown), Some(CatalogListenerExit::Shutdown));
}

#[test]
fn listeners_end_with_what_they_listen_to() {
    let m = manifest(&[]);
    let live = entry(m.dup(), vec![None]);
    assert!(listener_gate(Some(&live)).is_ok());
    assert_eq!(listener_gate(None).unwrap_err().exit, CatalogListenerExit::Removed);
    let mut sse = manifest(&[]);
    sse.transport = Transport::Sse;
    assert_eq!(
        listener_gate(Some(&entry(sse, vec![None]))).unwrap_err().exit,
        CatalogListenerExit::Unsupported
    );
    assert_eq!(lifecycle_check(Some(&live), &m), None);
    assert_eq!(lifecycle_check(None, &m), Some(CatalogListenerExit::Removed));
    let mut moved = manifest(&[]);
    moved.url = Some("http://elsewhere".to_owned());
    assert_eq!(
        lifecycle_check(Some(&live), &moved),
        Some(CatalogListenerExit::ManifestChanged)
    );
}

#[test]
fn listeners_are_established_by_an_acknowledgment_of_tools() {
    let m = manifest(&[]);
    let heard = EstablishEvent::Acknowledged { tools_list_changed: Some(true) };
    assert_eq!(settle_establish(&m, heard), None);
    for deaf in [
        EstablishEvent::DialFailed,
        EstablishEvent::Refused,
        EstablishEvent::TimedOut,
        EstablishEvent::Acknowledged { tools_list_changed: Some(false) },
        EstablishEvent::Acknowledged { tools_list_changed: None },
    ] {
        let outcome = settle_establish(&m, deaf).unwrap();
        assert_eq!(outcome.exit, CatalogListenerExit::Unsupported);
        assert_eq!(outcome.shape, Some(m.dup()));
    }
    assert_eq!(
        settle_establish(&m, EstablishEvent::Shutdown).unwrap().exit,
        CatalogListenerExit::Shutdown
    );
}

#[test]
fn settings_fall_back_where_they_cannot_be_read() {
    assert_eq!(parse_quarantine_threshold(None), QuarantineThreshold::Off);
    assert_eq!(parse_quarantine_threshold(Some(" High ")), QuarantineThreshold::High);
    assert_eq!(parse_quarantine_threshold(Some("medium")), QuarantineThreshold::Medium);
    assert_eq!(parse_quarantine_threshold(Some("ALL")), QuarantineThreshold::All);
    assert_eq!(parse_quarantine_threshold(Some("maybe")), QuarantineThreshold::Off);
    assert!(parse_strict_pending_approval(Some("TRUE")));
    assert!(parse_strict_pending_approval(Some("1")));
    assert!(!parse_strict_pending_approval(Some("yes please")));
    assert!(!parse_strict_pending_approval(None));
    assert_eq!(parse_pool_size(Some("8")), 8);
    assert_eq!(parse_pool_size(Some(" +8 ")), 8);
    assert_eq!(parse_pool_size(Some("0")), 1);
    assert_eq!(parse_pool_size(Some("-1")), 4);
    assert_eq!(parse_pool_size(Some("99999999999999999999999999")), 4);
    assert_eq!(parse_pool_size(Some("many")), 4);
    assert_eq!(parse_pool_size(None), 4);
}

#[test]
fn the_first_ready_lane_is_taken() {
    let lanes = vec![None, Some(lane(1, &[])), Some(lane(2, &[]))];
    assert_eq!(choose_lane(&lanes, &vec![false, false, false]), Checkout::Take(1));
    assert_eq!(choose_lane(&lanes, &vec![false, true, false]), Checkout::Take(2));
    assert_eq!(choose_lane(&lanes, &vec![false, true, true]), Checkout::Take(0));
    assert_eq!(choose_lane(&lanes, &vec![true, true, true]), Checkout::WaitFor(0));
}

#[test]
fn first_dials_are_settled_and_published_together() {
    let (mut lanes, class) = settle_boot_dials(
        vec![
            BootDial::Connected(lane(1, &["t"])),
            BootDial::Failed(DialError::ResolveNetwork),
            BootDial::TimedOut,
        ],
        3,
    );
    assert_eq!(lanes.len(), 3);
    assert!(lanes[0].is_some() && lanes[1].is_none() && lanes[2].is_none());
    let (short, _) = settle_boot_dials(vec![BootDial::TimedOut], 2);
    assert!(short.len() == 2 && short[0].is_none() && short[1].is_none());
    assert_eq!(class, Some(UpstreamErrorClass::Timeout));
    let publication = Publication {
        publish_index: 0,
        common_live_tools: vec![tool("t")],
        published: vec![tool("t")],
        previous_tools: Vec::new(),
    };
    assert_eq!(commit_boot(&mut lanes, &publication, true), None);
    assert_eq!(lanes[0].as_ref().unwrap().tools.len(), 1);
    assert_eq!(
        commit_boot(&mut lanes, &publication, false),
        Some(UpstreamErrorClass::Catalog)
    );
    assert!(lanes[0].is_none());
}

#[test]
fn a_hung_dial_ends_the_first_dials() {
    assert!(!boot_dials_done(&vec![], 2));
    assert!(!boot_dials_done(&vec![BootDial::Failed(DialError::Connect)], 2));
    assert!(boot_dials_done(&vec![BootDial::TimedOut], 2));
    assert!(boot_dials_done(&vec![BootDial::Connected(lane(1, &[]))], 1));
}

#[test]
fn attempts_keep_their_sessions_and_their_last_failure() {
    let failure = |class, detail: &str| RedialFailure { class, detail: detail.to_owned() };
    let (dialed, last) = collect_attempt(vec![
        Some(Err(failure(UpstreamErrorClass::Dns, "first"))),
        None,
        Some(Ok(lane(1, &[]))),
        Some(Err(failure(UpstreamErrorClass::Timeout, "last"))),
        None,
    ]);
    assert_eq!(dialed.len(), 5);
    assert_eq!(dialed[2].as_ref().unwrap().session, 1);
    assert!(dialed[0].is_none() && dialed[1].is_none() && dialed[3].is_none());
    assert_eq!(last, Some(failure(UpstreamErrorClass::Timeout, "last")));
    assert_eq!(collect_attempt(vec![None]).1, None);
    assert_eq!(
        publication_refused("locked"),
        failure(UpstreamErrorClass::Catalog, "search index publish failed: locked")
    );
}

#[test]
fn entries_remember_how_they_started() {
    let up = entry(manifest(&["t"]), vec![Some(lane(1, &["t"]))]);
    assert!(up.any_connected() && up.forwards_identity);
    assert!(!up.reconnect.is_scheduled());
    assert_eq!(up.recovery.last_error_class, None);
    assert_eq!(up.observed_schemas.get("t"), Some(&"s:t".to_owned()));
    let down = entry(manifest(&[]), vec![None]);
    assert_eq!(down.recovery.last_error_class, Some(UpstreamErrorClass::Dns));
    assert!(down.reconnect.is_scheduled());
    assert!(down.needs_reconnect(false));
}

#[test]
fn a_rebuilt_entry_keeps_its_quarantine_and_sees_drift() {
    let mut old = entry(manifest(&["t", "u"]), vec![Some(lane(1, &["t", "u"]))]);
    old.quarantined = vec!["u".to_owned()];
    let mut changed = lane(2, &["t"]);
    changed.live_tools[0].schema_hash = "another".to_owned();
    let mut rebuilt = entry(manifest(&["t", "u"]), vec![Some(changed)]);
    let drift = rebuilt.inherit_drift_state(&old, QuarantineThreshold::High);
    assert_eq!(drift.len(), 1);
    assert!(drift[0].quarantined);
    assert_eq!(rebuilt.quarantined, vec!["t".to_owned(), "u".to_owned()]);
}

#[test]
fn a_heal_adds_lanes_and_keeps_sessions() {
    let mut healing = entry(manifest(&["t"]), vec![Some(lane(1, &["t", "x"])), None]);
    let wanted = lanes_to_dial(&healing.lanes, false);
    assert_eq!(wanted, vec![false, true]);
    let from = healing.manifest.dup();
    assert_eq!(heal_gate(&healing, true, &from), HealGate::Proceed);
    assert_eq!(heal_gate(&healing, false, &from), HealGate::Discard);
    let dialed = vec![None, Some(lane(2, &["t"]))];
    let install = installable(&healing.lanes, &wanted, &dialed, false);
    assert_eq!(install, vec![false, true]);
    let publication = prepare_heal(&healing, &dialed, &install, false);
    let done = commit_heal(
        &mut healing,
        dialed,
        &wanted,
        &install,
        false,
        publication.as_ref(),
        QuarantineThreshold::Off,
    );
    assert_eq!((done.healed, done.connected_after), (1, 2));
    assert_eq!(healing.lanes[0].as_ref().unwrap().session, 1);
    for lane in healing.lanes.iter().flatten() {
        assert_eq!(lane.tools.len(), 1);
    }
    let outcome = settle_heal(
        &mut healing,
        true,
        &done,
        None,
        false,
        false,
        None,
        version(),
        at(1),
        epoch(),
    );
    assert_eq!(outcome, HealOutcome::Reconnected { failed_attempts: 0 });
    assert!(!healing.reconnect.is_scheduled());
    assert!(settle_nothing_to_dial(&mut healing, true, None, version(), at(2), epoch()));
}

#[test]
fn a_heal_resets_the_breaker_once_a_session_serves() {
    let heal = |fresh: Option<Connection>| {
        let mut healing = entry(manifest(&["t"]), vec![Some(lane(1, &["t"]))]);
        healing.breaker = BreakerState::Open;
        let wanted = lanes_to_dial(&healing.lanes, true);
        let dialed = vec![fresh];
        let install = installable(&healing.lanes, &wanted, &dialed, true);
        let publication = prepare_heal(&healing, &dialed, &install, true);
        let done = commit_heal(
            &mut healing,
            dialed,
            &wanted,
            &install,
            true,
            publication.as_ref(),
            QuarantineThreshold::Off,
        );
        (done.healed, healing.breaker, healing.is_serving())
    };
    assert_eq!(heal(Some(lane(2, &["t"]))), (1, BreakerState::Closed, true));
    assert_eq!(heal(None), (0, BreakerState::Open, false));
}

#[test]
fn a_failed_heal_escalates_and_a_lane_can_go_down() {
    let mut failing = entry(manifest(&[]), vec![Some(lane(1, &[])), None]);
    let wanted = lanes_to_dial(&failing.lanes, false);
    let done = commit_heal(
        &mut failing,
        vec![None, None],
        &wanted,
        &vec![false, false],
        false,
        None,
        QuarantineThreshold::Off,
    );
    assert_eq!(done.healed, 0);
    let outcome = settle_heal(
        &mut failing,
        true,
        &done,
        None,
        false,
        false,
        Some(UpstreamErrorClass::Dns),
        version(),
        at(1),
        epoch(),
    );
    let HealOutcome::Failed { class, failure } = outcome else {
        panic!("every dial failed");
    };
    assert_eq!(class, UpstreamErrorClass::Dns);
    assert!(failure.episode_started);
    assert_eq!(failure.episode_attempt, 1);
    assert!(failing.mark_slot_down(0, UpstreamErrorClass::Transport, true, at(2), epoch()));
    assert!(failing.lanes[0].is_none());
    assert_eq!(failing.recovery.last_error_class, Some(UpstreamErrorClass::Transport));
}

#[test]
fn operations_refine_a_tool_and_never_exceed_it() {
    let facts = ToolFacts {
        server: "mock".to_owned(),
        name: "t".to_owned(),
        risk: RiskTier::Medium,
        side_effects: true,
        pii: false,
        requires_approval: false,
        requires_approval_known: true,
    };
    let operation = |value: &str, risk: &str| CatalogOperation {
        value: value.to_owned(),
        risk: risk.to_owned(),
        side_effects: false,
        pii: false,
    };
    let refined = operation_classifications(
        &facts,
        false,
        &vec![operation("read", "low"), operation("drop", "high")],
    );
    assert_eq!(refined.len(), 1);
    assert_eq!(refined[0].value, "read");
    assert_eq!(refined[0].risk, RiskTier::Low);
    assert_eq!(risk_to_tier("high"), RiskTier::High);
    assert_eq!(risk_to_tier("medium"), RiskTier::Medium);
    assert_eq!(RiskTier::Low.as_str(), "low");
    assert!(RiskTier::High.covers(RiskTier::Low));
}

#[test]
fn operators_read_what_happened() {
    let drift = DriftReport {
        tool: "t".to_owned(),
        risk: Some(RiskTier::Low),
        side_effects: true,
        quarantined: true,
    };
    let row = drift_row(&drift);
    assert_eq!(row.outcome, AuditOutcome::Denied);
    assert_eq!(
        row.reason,
        "behavior drift on Low-risk tool (side_effects=true) → quarantined (live schemas or security metadata diverged from the last observation)"
    );
    let refreshed = refresh_row(RedialOutcome::Redialed, Some(CatalogFreshnessTrigger::TtlHint));
    assert_eq!(refreshed.outcome, AuditOutcome::Success);
    assert_eq!(
        refreshed.reason,
        format!("outcome=redialed trigger={}", CatalogFreshnessTrigger::TtlHint.as_str())
    );
    assert_eq!(refresh_row(RedialOutcome::Tombstoned, None).reason, "outcome=removed");
    let refused = refused_schema_row(&RejectedOutputSchema {
        tool: "t".to_owned(),
        observed_type: "array".to_owned(),
    });
    assert!(refused.reason.starts_with("advertised output schema root is `array`, not `object`;"));
    assert_eq!(
        reconnected_row("mock", 12, 2, 3).reason,
        "server=mock tools=12 slots=2 failed_attempts=3"
    );
    let failure = ReconnectFailure {
        episode_started: true,
        episode_attempt: 1,
        backoff: Duration::from_millis(1_250),
    };
    assert_eq!(
        reconnect_failed_row("mock", "refused", failure).unwrap().reason,
        "server=mock error=refused episode_attempt=1 next_retry_ms=1250"
    );
    let later = ReconnectFailure { episode_started: false, episode_attempt: 2, ..failure };
    assert!(reconnect_failed_row("mock", "refused", later).is_none());
    assert_eq!(redial_failed_row("mock", None).reason, "server=mock error=unknown");
    assert_eq!(redialed_row("mock", 3, 1).reason, "server=mock redialed=3 down=1");
}

#[test]
fn names_are_kept_in_order() {
    let list = vec!["b".to_owned(), "a".to_owned(), "b".to_owned()];
    assert_eq!(sort_names(&list), vec!["a".to_owned(), "b".to_owned(), "b".to_owned()]);
    assert_eq!(sort_unique(&list), vec!["a".to_owned(), "b".to_owned()]);
    assert!(text_lt("a", "ab"));
    assert!(!text_lt("b", "ab"));
    assert_eq!(decimal(0), "0");
    assert_eq!(decimal(u128::MAX), format!("{}", u128::MAX));
    let mut map = Assoc::new();
    map.insert("a".to_owned(), 1u64);
    map.insert("a".to_owned(), 2u64);
    assert_eq!(map.len(), 1);
    assert_eq!(map.get("a"), Some(&2));
    assert_eq!(map.remove("a"), Some(2));
    assert!(!map.contains_key("a"));
}
