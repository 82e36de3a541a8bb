//! Reloading the manifest set, and what one reload may do to another.

use waygate_upstream::assoc::Assoc;
use waygate_upstream::clock::{Duration, Instant, WallTime};
use waygate_upstream::drift::QuarantineThreshold;
use waygate_upstream::entry::UpstreamEntry;
use waygate_upstream::health::UpstreamErrorClass;
use waygate_upstream::lane::{BreakerState, Connection};
use waygate_upstream::manifest::{
    ApprovalMode, ClassificationMode, ExchangeConfig, ResourceClaim, RiskTier, SessionConfig,
    SessionIsolation, ToolClassification, Transport, UpstreamAuth, UpstreamManifest,
    UpstreamProtocol,
};
use waygate_upstream::pool::UpstreamPool;
use waygate_upstream::reconnect::{CredentialMaterialVersion, ReconnectPolicy};
use waygate_upstream::redial::{
    collect_dials, commit_redial, prepare_redial, redial_all_failed, settle_redial, RedialFailure,
    RedialOutcome,
};
use waygate_upstream::refusal_record::RejectedOutputSchema;
use waygate_upstream::reload::{
    commit_reclassification, next_inventory, prepare_reclassification, publish_from_next_lane,
    ReloadReport, ShapeAction,
};
use waygate_upstream::shape::{
    changed_classified_tools, connection_shape_eq, manifest_connection_shape_eq,
    redial_committed_fields_eq, resolve_isolation, resource_shape_change_requires_restart,
    setup_retry_policy_eq, slot_count, slot_count_stable,
};
use waygate_upstream::structural::ReloadStart;
use waygate_upstream::tools::Tool;
use waygate_upstream::value::Value;

fn at(secs: u64) -> Instant {
    Instant { nanos: Duration::from_secs(secs).nanos }
}

fn epoch() -> WallTime {
    WallTime { unix_nanos: 0 }
}

fn policy() -> ReconnectPolicy {
    ReconnectPolicy {
        base: Duration::from_secs(5),
        ceiling: Duration::from_secs(20),
        seed: 7,
        credential_key: [9; 32],
    }
}

fn version() -> CredentialMaterialVersion {
    CredentialMaterialVersion { high: 0, low: 0 }
}

fn classified(name: &str, risk: RiskTier) -> ToolClassification {
    ToolClassification {
        name: name.to_owned(),
        risk,
        side_effects: false,
        pii: false,
        approved_behavior_hash: None,
        discriminator: None,
        operations: Vec::new(),
    }
}

fn manifest(name: &str, tools: &[&str]) -> UpstreamManifest {
    UpstreamManifest {
        name: name.to_owned(),
        classification_mode: ClassificationMode::Manifest,
        approval_mode: ApprovalMode::PerCall,
        transport: Transport::Http,
        protocol: UpstreamProtocol::Auto,
        url: Some(format!("http://{name}/mcp")),
        command: None,
        tools: tools.iter().map(|tool| classified(tool, RiskTier::Low)).collect(),
        resources: Vec::new(),
        exchange: None,
        auth: None,
        mtls: None,
        tier_a_required: false,
        tier_c_peer: None,
        session: None,
    }
}

fn tool(name: &str) -> Tool {
    Tool {
        name: name.to_owned(),
        presentation: String::new(),
        input_schema: "{}".to_owned(),
        output_schema: None,
        annotations: None,
        action_metadata: None,
        claims: None,
        schema_hash: format!("s:{name}"),
        behavior_hash: format!("b:{name}"),
        behavior_hash_sans_output_schema: format!("b:{name}"),
        metadata_error: None,
    }
}

fn lane(session: u64, tools: &[&str]) -> Connection {
    let tools: Vec<Tool> = tools.iter().map(|name| tool(name)).collect();
    Connection {
        session,
        live_tools: tools.dup(),
        tools,
        negotiated_protocol: None,
        resource_capability_advertised: false,
        cleartext_control_plane: false,
        network_destination: None,
        ttl_hint_ms: None,
        dialed_at: at(0),
        rejected_output_schemas: Vec::new(),
        unregisterable_input_schemas: Vec::new(),
    }
}

fn pool(manifests: Vec<UpstreamManifest>) -> UpstreamPool {
    let mut asked = Assoc::new();
    for manifest in manifests {
        asked.insert(manifest.name.clone(), (manifest, version()));
    }
    UpstreamPool::from_manifests_disconnected(asked, policy(), at(0), epoch())
}

fn connect(pool: &mut UpstreamPool, name: &str, lanes: Vec<Option<Connection>>) {
    let mut entry = pool.entries.remove(name).unwrap();
    entry.lanes = lanes;
    pool.entries.insert(name.to_owned(), entry);
}

fn asked_for(manifests: Vec<UpstreamManifest>) -> Assoc<UpstreamManifest> {
    let mut fresh = Assoc::new();
    for manifest in manifests {
        fresh.insert(manifest.name.clone(), manifest);
    }
    fresh
}

fn built(manifest: UpstreamManifest, lane: Option<Connection>, generation: u64) -> UpstreamEntry {
    let name = manifest.name.clone();
    UpstreamEntry::build(
        generation + 1,
        name.as_str(),
        manifest,
        vec![lane],
        None,
        true,
        policy(),
        version(),
        generation,
        at(0),
        epoch(),
    )
}

fn start(pool: &mut UpstreamPool, fresh: &Assoc<UpstreamManifest>) -> (ReloadStart, ReloadReport) {
    let (start, report) = pool.begin_reload(fresh);
    (start.expect("nothing refuses the set"), report)
}

#[test]
fn a_reload_adds_and_removes_upstreams() {
    let mut pool = pool(vec![manifest("old", &["t"])]).with_catalog().with_evidence();
    let mut refused = lane(1, &["t"]);
    refused.rejected_output_schemas =
        vec![RejectedOutputSchema { tool: "t".to_owned(), observed_type: "array".to_owned() }];
    connect(&mut pool, "old", vec![Some(refused)]);
    assert_eq!(pool.refresh_rejected_output_schemas("old").unwrap().len(), 1);
    assert_eq!(pool.refresh_rejected_output_schemas("old").unwrap().len(), 0);

    let fresh = asked_for(vec![manifest("new", &["a", "b"])]);
    let (begun, mut report) = start(&mut pool, &fresh);
    assert!(begun.topology_changed);
    assert!(!begun.routing_changed);
    assert!(pool
        .stage_reload(&"new".to_owned(), fresh.get("new").unwrap(), begun.generation, &mut report)
        .is_none());
    let mut made = Assoc::new();
    made.insert(
        "new".to_owned(),
        built(manifest("new", &["a", "b"]), Some(lane(2, &["a"])), begun.generation),
    );
    assert!(pool.topology_still_holds(&begun, &fresh, false, &mut report));
    let routing = pool.resource_routing_generation;
    assert!(pool.fence_commit(&begun, &mut report));
    assert_eq!(pool.resource_routing_generation, routing + 1);
    let plan = pool.plan_reload(&made, &fresh, begun.generation);
    assert!(plan.structural && plan.catalog_changed && !plan.superseded);
    let done =
        pool.commit_reload(made, &fresh, begun.generation, true, &mut report, at(1), epoch());
    assert!(done.published);
    report.sort();
    assert_eq!(report.added, vec!["new".to_owned()]);
    assert_eq!(report.removed, vec!["old".to_owned()]);
    assert!(!report.superseded);
    assert!(!report.is_noop());
    assert_eq!(pool.list_servers(), vec!["new".to_owned()]);
    let retired = done.retired.get("old").unwrap();
    assert!(retired.removed);
    assert!(!retired.reconnect.is_scheduled());
    assert!(pool.catalog_reconcile_pending());
    assert!(pool.settle_catalog_reconcile(&report));
    assert!(!pool.catalog_reconcile_pending());
    assert!(!pool.settle_catalog_reconcile(&report));
}

#[test]
fn a_reload_of_the_live_set_changes_nothing() {
    let mut pool = pool(vec![manifest("a", &["t"]), manifest("b", &[])]).with_catalog();
    connect(&mut pool, "a", vec![Some(lane(1, &["t"]))]);
    let fresh = asked_for(vec![manifest("a", &["t"]), manifest("b", &[])]);
    let (begun, mut report) = start(&mut pool, &fresh);
    assert!(!begun.routing_changed && !begun.topology_changed);
    for name in ["a".to_owned(), "b".to_owned()] {
        let asked = fresh.get(name.as_str()).unwrap();
        let update = pool.stage_reload(&name, asked, begun.generation, &mut report).unwrap();
        assert_eq!(update.action, ShapeAction::Keep);
        assert!(update.fenced.is_empty() && update.publication.is_none());
        assert_eq!(pool.entries.get(name.as_str()).unwrap().manifest, *asked);
    }
    assert!(pool.fence_commit(&begun, &mut report));
    let plan = pool.plan_reload(&Assoc::new(), &fresh, begun.generation);
    assert!(!plan.structural && !plan.catalog_changed && !plan.superseded);
    assert!(report.is_noop() && !report.superseded);
    assert!(!pool.catalog_reconcile_pending());
    assert_eq!(pool.resource_routing_generation, 0);
}

#[test]
fn a_refused_index_keeps_the_old_registry() {
    let mut pool = pool(vec![manifest("old", &[])]);
    let fresh = asked_for(vec![]);
    let (begun, mut report) = start(&mut pool, &fresh);
    assert!(pool.fence_commit(&begun, &mut report));
    let done = pool.commit_reload(
        Assoc::new(),
        &fresh,
        begun.generation,
        false,
        &mut report,
        at(1),
        epoch(),
    );
    assert!(!done.published);
    assert!(report.superseded);
    assert!(report.is_noop());
    assert_eq!(pool.list_servers(), vec!["old".to_owned()]);
}

#[test]
fn the_newest_reload_wins_the_commit() {
    let mut pool = pool(vec![manifest("a", &[])]);
    let fresh = asked_for(vec![manifest("a", &[])]);
    let (older, mut older_report) = start(&mut pool, &fresh);
    let (newer, mut newer_report) = start(&mut pool, &fresh);
    assert!(older.generation < newer.generation);
    assert!(pool.fence_commit(&newer, &mut newer_report));
    assert!(!pool.fence_commit(&older, &mut older_report));
    assert!(older_report.superseded);
    assert!(!newer_report.superseded);
}

#[test]
fn an_older_edit_changes_nothing_a_newer_one_has_reached() {
    let mut pool = pool(vec![manifest("a", &["t"])]).with_catalog();
    let newer = manifest("a", &["t", "u"]);
    let mut report = ReloadReport::new(7);
    let update = pool.stage_reload(&"a".to_owned(), &newer, 7, &mut report).unwrap();
    assert!(!update.stale && update.tools_changed);
    assert_eq!(update.fenced, vec!["u".to_owned()]);
    assert_eq!(report.classifications_updated, vec!["a".to_owned()]);
    assert!(pool.catalog_transitions.transition_state("a", "u").unwrap().pending);

    let mut late = ReloadReport::new(3);
    let stale = pool.stage_reload(&"a".to_owned(), &manifest("a", &[]), 3, &mut late).unwrap();
    assert!(stale.stale);
    assert!(late.is_noop());
    assert_eq!(pool.entries.get("a").unwrap().manifest.tools.len(), 2);

    let mut made = Assoc::new();
    made.insert("a".to_owned(), built(manifest("a", &[]), None, 3));
    let fresh = asked_for(vec![manifest("a", &[])]);
    let plan = pool.plan_reload(&made, &fresh, 3);
    assert!(plan.superseded);
    pool.commit_reload(made, &fresh, 3, true, &mut late, at(1), epoch());
    assert!(late.superseded);
    assert_eq!(pool.entries.get("a").unwrap().manifest.tools.len(), 2);
}

#[test]
fn shape_and_ownership_never_move_together() {
    let mut owned = manifest("a", &[]);
    owned.resources =
        vec![ResourceClaim { uri_prefix: "db://".to_owned(), risk: RiskTier::Low }];
    let mut pool = pool(vec![manifest("a", &[])]);
    let mut both = owned.dup();
    both.url = Some("http://elsewhere/mcp".to_owned());
    assert!(resource_shape_change_requires_restart(&manifest("a", &[]), &both));
    let (refused, report) = pool.begin_reload(&asked_for(vec![both]));
    assert!(refused.is_none());
    assert_eq!(report.resource_shape_restart_required, vec!["a".to_owned()]);
    assert!(report.requires_restart());
    assert_eq!(pool.resource_routing_generation, 0);
    assert_eq!(pool.next_reload_gen, 1);

    let (begun, _) = start(&mut pool, &asked_for(vec![owned]));
    assert!(begun.routing_changed);
    assert_eq!(pool.resource_routing_generation, 1);
}

#[test]
fn a_topology_decided_on_other_claims_is_given_up() {
    let mut pool = pool(vec![manifest("a", &[])]);
    let fresh = asked_for(vec![manifest("a", &[]), manifest("b", &[])]);
    let (begun, mut report) = start(&mut pool, &fresh);
    let mut entry = pool.entries.remove("a").unwrap();
    entry.manifest.resources =
        vec![ResourceClaim { uri_prefix: "db://".to_owned(), risk: RiskTier::Low }];
    pool.entries.insert("a".to_owned(), entry);
    assert!(pool.topology_still_holds(&begun, &fresh, true, &mut report));
    assert!(!pool.topology_still_holds(&begun, &fresh, false, &mut report));
    assert!(report.superseded);
}

#[test]
fn an_edit_of_identity_waits_for_its_connection() {
    let mut pool = pool(vec![manifest("a", &[])]);
    let mut identity = manifest("a", &[]);
    identity.exchange = Some(ExchangeConfig { audience: "aud".to_owned(), scope: None });
    let mut report = ReloadReport::new(0);
    let update = pool.stage_reload(&"a".to_owned(), &identity, 0, &mut report).unwrap();
    assert_eq!(update.action, ShapeAction::Keep);
    assert_eq!(report.identity_updated, vec!["a".to_owned()]);
    assert!(pool.entries.get("a").unwrap().manifest.exchange.is_some());

    let mut bearer = manifest("a", &[]);
    bearer.auth = Some(UpstreamAuth {
        bearer_env: Some("TOKEN".to_owned()),
        catalog_probe_groups: Vec::new(),
    });
    let mut second = ReloadReport::new(1);
    let update = pool.stage_reload(&"a".to_owned(), &bearer, 1, &mut second).unwrap();
    assert_eq!(update.action, ShapeAction::Redial);
    assert!(second.identity_updated.is_empty());
    let kept = &pool.entries.get("a").unwrap().manifest;
    assert!(kept.exchange.is_some() && kept.auth.is_none());
    second.note_redial(&"a".to_owned(), RedialOutcome::Failed, &update);
    assert_eq!(second.redial_failed, vec!["a".to_owned()]);
    assert!(second.requires_restart());
    second.note_redial(&"a".to_owned(), RedialOutcome::Redialed, &update);
    assert_eq!(second.identity_updated, vec!["a".to_owned()]);
    second.note_rebuild(&"a".to_owned(), true, &update);
    assert_eq!(second.redialed.len(), 2);
}

#[test]
fn reclassified_tools_are_published_on_every_lane() {
    let mut pool = pool(vec![manifest("a", &["t"])]);
    let mut first = lane(1, &["t", "u"]);
    first.tools = vec![tool("t")];
    let mut second = lane(2, &["u", "t"]);
    second.tools = vec![tool("t")];
    connect(&mut pool, "a", vec![Some(first), Some(second)]);
    let mut report = ReloadReport::new(0);
    let update =
        pool.stage_reload(&"a".to_owned(), &manifest("a", &["t", "u"]), 0, &mut report).unwrap();
    let publication = update.publication.unwrap();
    let mut entry = pool.entries.remove("a").unwrap();
    commit_reclassification(&mut entry, &publication, QuarantineThreshold::Off);
    for lane in entry.lanes.iter().flatten() {
        let names: Vec<&str> = lane.tools.iter().map(|tool| tool.name.as_str()).collect();
        assert_eq!(names, vec!["t", "u"]);
    }
}

#[test]
fn a_redial_exchanges_manifest_and_lanes_together() {
    let mut pool = pool(vec![manifest("a", &["t"])]);
    connect(&mut pool, "a", vec![Some(lane(1, &["t"])), None]);
    let mut entry = pool.entries.remove("a").unwrap();
    entry.breaker = BreakerState::Open;
    let from = entry.manifest.dup();
    let mut new = manifest("a", &["t"]);
    new.url = Some("http://elsewhere/mcp".to_owned());
    let dialed = vec![None, Some(lane(9, &["t"]))];
    let publication = prepare_redial(&entry, true, &from, &dialed).unwrap();
    assert_eq!(publication.publish_index, 1);
    let install =
        commit_redial(&mut entry, &new, dialed, &publication, QuarantineThreshold::Off);
    assert_eq!((install.redialed, install.down), (1, 1));
    assert!(entry.lanes[0].is_none());
    assert_eq!(entry.lanes[1].as_ref().unwrap().session, 9);
    assert_eq!(entry.manifest.url, new.url);
    assert_eq!(entry.breaker, BreakerState::Closed, "new sessions start afresh");
    assert_eq!(
        settle_redial(&mut entry, true, &install, version(), None, at(1), epoch()),
        RedialOutcome::Redialed
    );
    assert!(entry.reconnect.is_scheduled(), "a lane is still missing");

    assert_eq!(
        prepare_redial(&entry, true, &from, &vec![Some(lane(3, &[]))]).unwrap_err(),
        RedialOutcome::Superseded
    );
    assert_eq!(
        redial_all_failed(&mut entry, false, &new, None),
        RedialOutcome::Superseded
    );
    entry.removed = true;
    assert_eq!(
        prepare_redial(&entry, true, &new, &vec![Some(lane(3, &[]))]).unwrap_err(),
        RedialOutcome::Tombstoned
    );
}

#[test]
fn shapes_tell_connections_apart() {
    let a = manifest("a", &["t"]);
    let mut tools = manifest("a", &[]);
    assert!(connection_shape_eq(&a, &tools));
    assert!(redial_committed_fields_eq(&a, &tools));
    tools.session = Some(SessionConfig {
        isolation: None,
        concurrency: None,
        retry_on_setup_failure: Some(false),
    });
    assert!(connection_shape_eq(&a, &tools));
    assert!(!manifest_connection_shape_eq(&a, &tools));
    assert!(!setup_retry_policy_eq(&a, &tools));
    let mut wide = manifest("a", &[]);
    wide.session = Some(SessionConfig {
        isolation: Some(SessionIsolation::PerCall),
        concurrency: Some(9),
        retry_on_setup_failure: None,
    });
    assert!(!connection_shape_eq(&a, &wide));
    assert_eq!(slot_count(&wide, 4), 9);
    assert_eq!(slot_count(&a, 4), 4);
    assert!(!slot_count_stable(&a, &wide));
    assert_eq!(resolve_isolation(&wide), SessionIsolation::PerCall);
    let mut stdio = manifest("a", &[]);
    stdio.transport = Transport::Stdio;
    assert_eq!(slot_count(&stdio, 4), 1);
    assert!(!slot_count_stable(&a, &stdio));
    let mut changed = manifest("a", &["t"]);
    changed.tools = vec![classified("t", RiskTier::High), classified("n", RiskTier::Low)];
    assert_eq!(
        changed_classified_tools(&a, &changed),
        vec!["t".to_owned(), "n".to_owned()]
    );
}

#[test]
fn dials_are_collected_with_the_last_failure() {
    let failure = |class: UpstreamErrorClass| RedialFailure { class, detail: "d".to_owned() };
    let (lanes, last) = collect_dials(vec![
        Err(failure(UpstreamErrorClass::Dns)),
        Ok(lane(4, &[])),
        Err(failure(UpstreamErrorClass::Timeout)),
    ]);
    assert!(lanes[0].is_none() && lanes[2].is_none());
    assert_eq!(lanes[1].as_ref().unwrap().session, 4);
    assert_eq!(last.unwrap().class, UpstreamErrorClass::Timeout);

    let mut pool = pool(vec![manifest("a", &[])]);
    let mut entry = pool.entries.remove("a").unwrap();
    let from = entry.manifest.dup();
    let dns = failure(UpstreamErrorClass::Dns);
    assert_eq!(
        redial_all_failed(&mut entry, true, &from, Some(&dns)),
        RedialOutcome::Failed
    );
    assert_eq!(entry.recovery.last_error_class, Some(UpstreamErrorClass::Dns));
}

#[test]
fn the_index_takes_what_the_commit_will_show() {
    let mut pool = pool(vec![manifest("kept", &["k"]), manifest("newer", &["n"])]);
    connect(&mut pool, "kept", vec![Some(lane(1, &["k"]))]);
    connect(&mut pool, "newer", vec![Some(lane(2, &["n"]))]);
    let mut updated = pool.entries.remove("newer").unwrap();
    updated.last_reload_gen = 9;
    pool.entries.insert("newer".to_owned(), updated);
    let fresh = asked_for(vec![
        manifest("kept", &["k"]),
        manifest("newer", &["n"]),
        manifest("added", &["a"]),
        manifest("unbuilt", &[]),
    ]);
    let mut made = Assoc::new();
    made.insert("added".to_owned(), built(manifest("added", &["a"]), Some(lane(3, &["a"])), 3));
    made.insert("newer".to_owned(), built(manifest("newer", &[]), Some(lane(4, &[])), 3));
    let mut inventory = next_inventory(&pool.entries, &made, &fresh, 3, true);
    assert_eq!(inventory.remove("kept").unwrap(), vec![tool("k")]);
    assert_eq!(inventory.remove("newer").unwrap(), vec![tool("n")]);
    assert_eq!(inventory.remove("added").unwrap(), vec![tool("a")]);
    assert!(inventory.keys().is_empty());
}

#[test]
fn an_inventory_the_index_refuses_moves_to_the_next_lane() {
    let lanes = vec![Some(lane(1, &["t"])), None, Some(lane(2, &["t"])), None];
    let mut publication = prepare_reclassification(&lanes, &manifest("a", &["t"])).unwrap();
    assert_eq!(publication.publish_index, 0);
    assert!(publish_from_next_lane(&mut publication, &lanes));
    assert_eq!(publication.publish_index, 2);
    assert!(!publish_from_next_lane(&mut publication, &lanes));
    assert_eq!(publication.publish_index, 2);
    assert_eq!(publication.published, vec![tool("t")]);
}

#[test]
fn a_replaced_entry_serves_out_its_calls() {
    let mut pool = pool(vec![manifest("a", &["t"])]);
    connect(&mut pool, "a", vec![Some(lane(1, &["t"]))]);
    let fresh = asked_for(vec![manifest("a", &["t"])]);
    let (begun, mut report) = start(&mut pool, &fresh);
    assert!(pool.fence_commit(&begun, &mut report));
    let mut made = Assoc::new();
    made.insert(
        "a".to_owned(),
        built(manifest("a", &["t"]), Some(lane(2, &["t"])), begun.generation),
    );
    let plan = pool.plan_reload(&made, &fresh, begun.generation);
    assert!(plan.structural && !plan.catalog_changed, "clients are shown the same tools");
    let done =
        pool.commit_reload(made, &fresh, begun.generation, false, &mut report, at(1), epoch());
    assert!(done.published);
    let retired = done.retired.get("a").unwrap();
    assert!(!retired.removed);
    assert_eq!(retired.lanes[0].as_ref().unwrap().session, 1);
    assert_eq!(pool.entries.get("a").unwrap().lanes[0].as_ref().unwrap().session, 2);
    assert!(report.added.is_empty() && report.removed.is_empty());
}
