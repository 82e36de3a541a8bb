//! The pool as its callers see it.

use waygate_upstream::assoc::Assoc;
use waygate_upstream::binding::{CatalogLookup, CatalogPolicy, CatalogTool, ResolvedInvocationTool};
use waygate_upstream::clock::{Duration, Instant, WallTime};
use waygate_upstream::contracts::CandidateObservation;
use waygate_upstream::discovery::{protected_on_drift, DiscoveryReads};
use waygate_upstream::drift::QuarantineThreshold;
use waygate_upstream::error::ErrorData;
use waygate_upstream::freshness::{
    refresh_is_decidable, CatalogFreshnessTrigger, ScheduledCatalogRefresh,
};
use waygate_upstream::health::UpstreamRuntimeState;
use waygate_upstream::lane::{BreakerState, Connection};
use waygate_upstream::manifest::{
    ApprovalMode, ClassificationMode, ResourceClaim, RiskTier, ToolClassification, Transport,
    UpstreamManifest, UpstreamProtocol,
};
use waygate_upstream::pool::UpstreamPool;
use waygate_upstream::reconnect::{CredentialMaterialVersion, ReconnectPolicy};
use waygate_upstream::refusal_record::RejectedOutputSchema;
use waygate_upstream::resolution::resolvable_tools;
use waygate_upstream::tools::{BehaviorClaims, Tool};
use waygate_upstream::transitions::{CatalogTransition, CatalogTransitions};

fn at(secs: u64) -> Instant {
    Instant { nanos: Duration::from_secs(secs).nanos }
}

fn epoch() -> WallTime {
    WallTime { unix_nanos: 0 }
}

fn classified(name: &str) -> ToolClassification {
    ToolClassification {
        name: name.to_owned(),
        risk: RiskTier::Medium,
        side_effects: true,
        pii: false,
        approved_behavior_hash: None,
        discriminator: None,
        operations: Vec::new(),
    }
}

fn manifest(name: &str, tools: &[&str]) -> UpstreamManifest {
    UpstreamManifest {
        name: name.to_owned(),
        classification_mode: ClassificationMode::Manifest,
        approval_mode: ApprovalMode::PerCall,
        transport: Transport::Http,
        protocol: UpstreamProtocol::Auto,
        url: Some(format!("http://{name}/mcp")),
        command: None,
        tools: tools.iter().map(|tool| classified(tool)).collect(),
        resources: Vec::new(),
        exchange: None,
        auth: None,
        mtls: None,
        tier_a_required: false,
        tier_c_peer: None,
        session: None,
    }
}

fn tool(name: &str) -> Tool {
    Tool {
        name: name.to_owned(),
        presentation: String::new(),
        input_schema: "{\"type\":\"object\"}".to_owned(),
        output_schema: None,
        annotations: None,
        action_metadata: None,
        claims: None,
        schema_hash: format!("s:{name}"),
        behavior_hash: format!("b:{name}"),
        behavior_hash_sans_output_schema: format!("b:{name}"),
        metadata_error: None,
    }
}

fn lane(tools: &[&str]) -> Connection {
    Connection {
        session: 0,
        live_tools: tools.iter().map(|name| tool(name)).collect(),
        tools: tools.iter().map(|name| tool(name)).collect(),
        negotiated_protocol: Some("2026-07-28".to_owned()),
        resource_capability_advertised: false,
        cleartext_control_plane: false,
        network_destination: None,
        ttl_hint_ms: None,
        dialed_at: at(100),
        rejected_output_schemas: Vec::new(),
        unregisterable_input_schemas: Vec::new(),
    }
}

fn pool(manifests: Vec<UpstreamManifest>) -> UpstreamPool {
    let policy = ReconnectPolicy {
        base: Duration::from_secs(5),
        ceiling: Duration::from_secs(20),
        seed: 7,
        credential_key: [9; 32],
    };
    let mut asked = Assoc::new();
    for manifest in manifests {
        asked.insert(
            manifest.name.clone(),
            (manifest, CredentialMaterialVersion { high: 0, low: 0 }),
        );
    }
    UpstreamPool::from_manifests_disconnected(asked, policy, at(0), epoch())
}

fn connect(pool: &mut UpstreamPool, name: &str, lane: Connection) {
    let mut entry = pool.entries.remove(name).unwrap();
    entry.lanes = vec![Some(lane)];
    pool.entries.insert(name.to_owned(), entry);
}

fn quarantine(pool: &mut UpstreamPool, name: &str, tools: &[&str]) {
    let mut entry = pool.entries.remove(name).unwrap();
    entry.quarantined = tools.iter().map(|tool| tool.to_string()).collect();
    pool.entries.insert(name.to_owned(), entry);
}

fn reads(lookup: CatalogLookup) -> DiscoveryReads {
    DiscoveryReads { review_allows: true, lookup, before: None, after: None, version_hash: None }
}

fn row(requires_approval: bool) -> CatalogTool {
    CatalogTool {
        tool_id: "id".to_owned(),
        schema_hash: "v".to_owned(),
        classification_mode: "manifest".to_owned(),
        risk: "high".to_owned(),
        side_effects: false,
        pii: true,
        requires_approval,
        input_schema: Some("{}".to_owned()),
        output_schema: None,
        tool_annotations: None,
        action_metadata: None,
        discriminator: None,
        operations: Vec::new(),
    }
}

#[test]
fn a_disconnected_pool_starts_with_armed_retries() {
    let pool = pool(vec![manifest("b", &[]), manifest("a", &[])]);
    assert_eq!(pool.list_servers(), vec!["a".to_owned(), "b".to_owned()]);
    assert!(!pool.is_connected("a"));
    assert_eq!(pool.breaker_state("a"), Some(BreakerState::Closed));
    assert_eq!(pool.breaker_state("nobody"), None);
    assert_eq!(pool.quarantine_threshold, QuarantineThreshold::Off);
    assert_eq!(pool.call_timeout, Some(Duration::from_secs(300)));
    assert_eq!(pool.redial_dial_timeout, Duration::from_secs(15));
    assert!(pool.entries.get("a").unwrap().reconnect.is_scheduled());
    let names: Vec<String> = pool.manifests().into_iter().map(|m| m.name).collect();
    assert_eq!(names, vec!["a".to_owned(), "b".to_owned()]);
}

#[test]
fn builders_set_one_thing_each() {
    let pool = pool(vec![])
        .with_call_timeout(None)
        .with_redial_dial_timeout(Duration::from_secs(1))
        .with_quarantine_threshold(QuarantineThreshold::All)
        .with_authoritative_catalog()
        .with_catalog_strict_pending_approval(true)
        .with_tool_reviews()
        .with_evidence();
    assert_eq!(pool.call_timeout, None);
    assert_eq!(pool.redial_dial_timeout, Duration::from_secs(1));
    assert_eq!(pool.quarantine_threshold, QuarantineThreshold::All);
    assert!(pool.catalog_attached && pool.tool_reviews_attached && pool.evidence_attached);
    assert_eq!(
        pool.catalog_policy,
        CatalogPolicy { strict_pending_approval: true, authoritative: true }
    );
    assert_eq!(pool.list_servers(), Vec::<String>::new());
}

#[test]
fn a_new_policy_rearms_what_waits() {
    let mut pool = pool(vec![manifest("down", &[]), manifest("up", &[])]);
    let mut entry = pool.entries.remove("up").unwrap();
    entry.reconnect.record_success_at(false, at(0), epoch());
    pool.entries.insert("up".to_owned(), entry);
    let pool =
        pool.with_reconnect_policy(Duration::from_secs(1), Duration::from_secs(2), at(9), epoch());
    assert!(pool.entries.get("down").unwrap().reconnect.is_scheduled());
    assert!(!pool.entries.get("up").unwrap().reconnect.is_scheduled());
    assert_eq!(pool.entries.get("up").unwrap().reconnect.policy.ceiling, Duration::from_secs(2));
    assert_eq!(pool.reconnect_policy.base, Duration::from_secs(1));
}

#[test]
fn snapshots_are_ordered_and_consistent() {
    let mut pool = pool(vec![manifest("b", &["t"]), manifest("a", &["t"])]);
    connect(&mut pool, "b", lane(&["t"]));
    let status = pool.status_snapshot();
    assert_eq!(status[0].health.name, "a");
    assert_eq!(status[0].health.runtime_state, UpstreamRuntimeState::Disconnected);
    assert!(status[0].health.next_retry_at.is_some());
    assert_eq!(status[1].manifest.name, "b");
    assert_eq!(status[1].health.runtime_state, UpstreamRuntimeState::Connected);
    assert_eq!(pool.health_snapshot()[1], status[1].health);
}

#[test]
fn quarantines_are_shown_and_cleared() {
    let mut pool = pool(vec![manifest("a", &["t", "u"])]).with_evidence();
    let mut served = lane(&["t", "u"]);
    served.rejected_output_schemas =
        vec![RejectedOutputSchema { tool: "u".to_owned(), observed_type: "array".to_owned() }];
    connect(&mut pool, "a", served);
    quarantine(&mut pool, "a", &["t", "u"]);
    assert_eq!(
        pool.quarantined_tools("a"),
        Some(vec!["t".to_owned(), "u".to_owned()])
    );
    assert_eq!(pool.quarantined_tools("nobody"), None);
    assert!(pool.list_tools("a").unwrap().is_empty());
    assert!(pool.clear_quarantine("a", None).is_none());
    assert!(pool.clear_quarantine("nobody", Some(&vec![])).is_none());
    let released = pool.clear_quarantine("a", Some(&vec!["t".to_owned()])).unwrap();
    assert_eq!((released.count, released.remaining), (1, 1));
    assert_eq!(released.owed.len(), 1);
    assert_eq!(pool.list_tools("a").unwrap().len(), 1);
    assert!(pool.list_tools("nobody").is_err());
}

#[test]
fn releases_count_whatever_durable_reviews_add() {
    let mut pool = pool(vec![manifest("a", &["t", "u"])]).with_evidence();
    let mut served = lane(&["t", "u"]);
    served.rejected_output_schemas =
        vec![RejectedOutputSchema { tool: "t".to_owned(), observed_type: "array".to_owned() }];
    connect(&mut pool, "a", served);
    quarantine(&mut pool, "a", &["t"]);
    let released = pool.clear_quarantine("a", Some(&vec!["u".to_owned()])).unwrap();
    assert_eq!((released.count, released.remaining), (1, 1));
    assert_eq!(released.owed.len(), 1, "the released tool is served without its schema");
    assert_eq!(pool.quarantined_tools("a"), Some(vec!["u".to_owned()]));
    let again = pool.clear_quarantine("a", Some(&vec!["u".to_owned(), "t".to_owned()])).unwrap();
    assert_eq!((again.count, again.remaining), (0, 2));
}

#[test]
fn reviews_take_the_place_of_the_local_quarantine() {
    let mut pool = pool(vec![manifest("a", &["t", "u"])]).with_tool_reviews();
    connect(&mut pool, "a", lane(&["t", "u"]));
    quarantine(&mut pool, "a", &["t"]);
    let listed = pool.list_tools("a").unwrap();
    assert_eq!(listed.len(), 2);
    let mut blocked = reads(CatalogLookup::NotAttached);
    blocked.review_allows = false;
    let resolved = vec![
        pool.resolve_invocation_tool("a", &"t".to_owned(), &reads(CatalogLookup::NotAttached)),
        pool.resolve_invocation_tool("a", &"u".to_owned(), &blocked),
    ];
    let shown = resolvable_tools(listed, &resolved);
    assert_eq!(shown.len(), 1);
    assert_eq!(shown[0].name, "t");
}

#[test]
fn tools_resolve_through_the_manifest_or_the_catalog() {
    let mut pool = pool(vec![manifest("a", &["t"])]);
    connect(&mut pool, "a", lane(&["t"]));
    let t = "t".to_owned();
    let ResolvedInvocationTool::Ready(fallback) =
        pool.resolve_invocation_tool("a", &t, &reads(CatalogLookup::NotAttached))
    else {
        panic!("the manifest classifies the tool");
    };
    assert_eq!(fallback.contract.facts.risk, RiskTier::Medium);
    assert!(fallback.contract.facts.side_effects);
    assert!(pool.resolved_side_effects("a", &t, &reads(CatalogLookup::NotAttached)));

    let mut governed = reads(CatalogLookup::Live(row(true)));
    governed.version_hash = Some("v".to_owned());
    let identity = pool.resolved_contract_identity("a", &t, &governed).unwrap();
    assert_eq!(identity.facts.risk, RiskTier::High);
    assert!(!identity.facts.side_effects && identity.facts.pii);
    assert!(identity.facts.requires_approval);
    assert_eq!(identity.tool_id, Some("id".to_owned()));
    assert_eq!(identity.version, Some("v".to_owned()));

    let blocked = reads(CatalogLookup::Quarantined);
    assert!(pool.resolved_contract_identity("a", &t, &blocked).is_none());
    assert!(pool.resolved_side_effects("a", &t, &blocked));
    assert!(matches!(
        pool.resolve_invocation_tool("a", &"stray".to_owned(), &reads(CatalogLookup::NotAttached)),
        ResolvedInvocationTool::Quarantined { .. }
    ));
    quarantine(&mut pool, "a", &["t"]);
    assert!(matches!(
        pool.resolve_invocation_tool("a", &t, &reads(CatalogLookup::NotAttached)),
        ResolvedInvocationTool::Quarantined { .. }
    ));
}

#[test]
fn fences_hold_tools_back_until_the_catalog_catches_up() {
    let mut pool = pool(vec![manifest("a", &["t"])]).with_catalog();
    connect(&mut pool, "a", lane(&["t"]));
    pool.mark_catalog_transitions("a", &vec!["t".to_owned()], 4);
    let mut fenced = reads(CatalogLookup::NotFound);
    fenced.before = pool.catalog_transitions.transition_state("a", "t");
    fenced.after = fenced.before;
    assert!(matches!(
        pool.resolve_invocation_tool("a", &"t".to_owned(), &fenced),
        ResolvedInvocationTool::Quarantined { .. }
    ));
    let mut moved = reads(CatalogLookup::NotFound);
    moved.after = Some(CatalogTransition { generation: 4, pending: false });
    assert!(matches!(
        pool.resolve_invocation_tool("a", &"t".to_owned(), &moved),
        ResolvedInvocationTool::Quarantined { .. }
    ));
    assert!(matches!(
        pool.resolve_invocation_tool("a", &"t".to_owned(), &reads(CatalogLookup::NotFound)),
        ResolvedInvocationTool::Ready(_)
    ));
}

#[test]
fn newer_fences_outlive_older_reconciles() {
    let mut transitions = CatalogTransitions::new();
    transitions.mark("a", &vec!["t".to_owned()], 5);
    transitions.mark("a", &vec!["t".to_owned()], 3);
    assert_eq!(transitions.transition_state("a", "t").unwrap().generation, 5);
    assert!(!transitions.settle(4));
    assert!(transitions.pending());
    assert!(transitions.settle(5));
    assert!(!transitions.pending());
    assert_eq!(
        transitions.transition_state("a", "t"),
        Some(CatalogTransition { generation: 5, pending: false })
    );
    assert_eq!(transitions.transition_state("b", "t"), None);
}

#[test]
fn an_authoritative_catalog_leaves_no_fallback() {
    let mut pool = pool(vec![manifest("a", &["t"])]).with_authoritative_catalog();
    connect(&mut pool, "a", lane(&["t"]));
    let t = "t".to_owned();
    assert!(matches!(
        pool.resolve_invocation_tool("a", &t, &reads(CatalogLookup::NotFound)),
        ResolvedInvocationTool::Quarantined { .. }
    ));
    assert_eq!(pool.discovery_error_generation(), 0);
    assert!(matches!(
        pool.resolve_invocation_tool("a", &t, &reads(CatalogLookup::Failed)),
        ResolvedInvocationTool::Unavailable { .. }
    ));
    assert_eq!(pool.discovery_error_generation(), 1);
    assert!(matches!(
        pool.resolve_invocation_tool("a", &t, &reads(CatalogLookup::PendingApproval)),
        ResolvedInvocationTool::Ready(_)
    ));
    let mut strict = pool.with_catalog_strict_pending_approval(true);
    assert!(matches!(
        strict.resolve_invocation_tool("a", &t, &reads(CatalogLookup::PendingApproval)),
        ResolvedInvocationTool::Quarantined { .. }
    ));
}

#[test]
fn discoveries_answer_for_every_name_or_not_at_all() {
    let mut pool = pool(vec![manifest("a", &["t", "u"])]);
    connect(&mut pool, "a", lane(&["t"]));
    let names = vec!["t".to_owned(), "stray".to_owned()];
    let both = vec![reads(CatalogLookup::NotAttached), reads(CatalogLookup::NotAttached)];
    let found = pool.discover("a", &names, Some(&both)).unwrap();
    assert!(matches!(found[0], ResolvedInvocationTool::Ready(_)));
    assert!(matches!(found[1], ResolvedInvocationTool::Quarantined { .. }));
    assert_eq!(pool.discover("a", &vec![], None).unwrap().len(), 0);
    let short = pool.discover("a", &names, Some(&vec![])).unwrap_err();
    assert_eq!(short.data, ErrorData::CatalogChanging);
    assert!(pool.discover("a", &names, None).is_err());
    assert_eq!(pool.discovery_error_generation(), 2);
    let unknown = pool.discover("nobody", &names, Some(&both)).unwrap_err();
    assert_eq!(unknown.message, "unknown upstream: nobody");
    assert_eq!(pool.discovery_error_generation(), 2);

    assert!(pool.settle_discovery("a", 3, Some(3), Some(1), Some(1)).is_ok());
    assert!(pool.settle_discovery("a", 3, Some(4), Some(1), Some(1)).is_err());
    assert!(pool.settle_discovery("a", 3, Some(3), Some(1), None).is_err());
    assert_eq!(pool.discovery_error_generation(), 4);

    let t = "t".to_owned();
    let sample = pool.sample_resolution("a", &t, None);
    pool.entries.remove("a").unwrap();
    let vanished = pool.settle_discovery("a", 3, Some(3), Some(1), Some(1)).unwrap_err();
    assert_eq!(vanished.data, ErrorData::CatalogChanging);
    assert_eq!(pool.discovery_error_generation(), 5);
    let plain = reads(CatalogLookup::NotAttached);
    assert!(matches!(
        pool.resolve_sampled("a", &t, &sample, &plain),
        ResolvedInvocationTool::Ready(_)
    ));
    let stray = pool.sample_resolution("nobody", &t, None);
    assert!(!stray.refused);
}

#[test]
fn annotated_tools_carry_their_claims() {
    let mut annotated = manifest("a", &["t"]);
    annotated.classification_mode = ClassificationMode::McpAnnotations;
    annotated.tools[0].approved_behavior_hash = Some("b:t".to_owned());
    let mut pool = pool(vec![annotated]);
    let mut session = lane(&["t"]);
    let claims = BehaviorClaims {
        side_effects: false,
        protected_data: true,
        output_sensitive: true,
        requires_review: true,
    };
    for listed in session.tools.iter_mut().chain(session.live_tools.iter_mut()) {
        listed.claims = Some(claims);
        listed.annotations = Some("{}".to_owned());
        listed.action_metadata = Some("{}".to_owned());
    }
    connect(&mut pool, "a", session);
    let t = "t".to_owned();
    let contract = pool
        .resolved_contract_identity("a", &t, &reads(CatalogLookup::NotAttached))
        .unwrap();
    assert!(!contract.facts.side_effects);
    assert!(contract.facts.pii && contract.facts.requires_approval);
    assert!(contract.anticipated_sensitive_output);
    assert_eq!(contract.version, Some("b:t".to_owned()));
    let facts = pool.tool_facts("a", "t");
    assert!(facts.side_effects, "without claims the facts stay cautious");
    assert!(!pool.tool_facts("nobody", "t").side_effects);
}

#[test]
fn candidates_are_judged_against_the_sessions_that_run() {
    let mut pool = pool(vec![manifest("a", &["t"])]);
    connect(&mut pool, "a", lane(&["t"]));
    assert_eq!(pool.connection_shape_is_current(&manifest("a", &[])), Some(true));
    let mut moved = manifest("a", &[]);
    moved.url = Some("http://elsewhere".to_owned());
    assert_eq!(pool.connection_shape_is_current(&moved), Some(false));
    assert_eq!(pool.connection_shape_is_current(&manifest("nobody", &[])), None);
    assert_eq!(
        pool.observe_candidate_contracts(&moved),
        Some(CandidateObservation::ShapeChanged)
    );
    let observed = pool.observed_tool_contracts("a").unwrap();
    assert_eq!(observed.tools[0].behavior_hash, Some("b:t".to_owned()));
    assert!(pool.observed_tool_contracts("nobody").is_none());
}

#[test]
fn listings_fall_due_by_hint_or_ceiling() {
    let mut pool = pool(vec![manifest("hinted", &[]), manifest("mute", &[])]);
    let mut hinted = lane(&[]);
    hinted.ttl_hint_ms = Some(60_000);
    connect(&mut pool, "hinted", hinted);
    connect(&mut pool, "mute", lane(&[]));
    let floor = Duration::zero();
    let ceiling = Duration::from_secs(600);
    assert!(pool.catalog_refresh_due(floor, ceiling, at(159)).is_empty());
    assert_eq!(pool.catalog_refresh_due(floor, ceiling, at(160)), vec!["hinted".to_owned()]);
    assert_eq!(
        pool.catalog_refresh_due(floor, ceiling, at(700)),
        vec!["hinted".to_owned(), "mute".to_owned()]
    );
    assert_eq!(
        pool.scheduled_catalog_refresh("hinted", floor, ceiling, at(160)),
        Ok(CatalogFreshnessTrigger::TtlHint)
    );
    assert_eq!(
        pool.scheduled_catalog_refresh("mute", floor, ceiling, at(700)),
        Ok(CatalogFreshnessTrigger::UnhintedFallback)
    );
    assert_eq!(
        pool.scheduled_catalog_refresh("mute", floor, ceiling, at(160)),
        Err(ScheduledCatalogRefresh::NotDue)
    );
    assert_eq!(
        pool.scheduled_catalog_refresh("nobody", floor, ceiling, at(160)),
        Err(ScheduledCatalogRefresh::Unknown)
    );
    let mut entry = pool.entries.remove("hinted").unwrap();
    entry.breaker = BreakerState::Open;
    pool.entries.insert("hinted".to_owned(), entry);
    assert!(pool.catalog_refresh_due(floor, ceiling, at(160)).is_empty());
}

#[test]
fn crossed_bounds_judge_only_listings_without_a_hint() {
    let mut pool = pool(vec![manifest("mute", &[])]);
    connect(&mut pool, "mute", lane(&[]));
    let floor = Duration::from_secs(600);
    let ceiling = Duration::from_secs(60);
    assert!(refresh_is_decidable(pool.entries.get("mute").unwrap(), floor, ceiling));
    assert!(pool.catalog_refresh_due(floor, ceiling, at(159)).is_empty());
    assert_eq!(pool.catalog_refresh_due(floor, ceiling, at(160)), vec!["mute".to_owned()]);
    let mut hinted = lane(&[]);
    hinted.ttl_hint_ms = Some(1);
    connect(&mut pool, "mute", hinted);
    assert!(!refresh_is_decidable(pool.entries.get("mute").unwrap(), floor, ceiling));
    assert!(refresh_is_decidable(pool.entries.get("mute").unwrap(), ceiling, floor));
}

#[test]
fn listeners_are_worth_it_where_announcements_come() {
    let mut legacy = manifest("legacy", &[]);
    legacy.protocol = UpstreamProtocol::Legacy;
    let mut pool = pool(vec![manifest("new", &[]), legacy, manifest("down", &[])]);
    connect(&mut pool, "new", lane(&[]));
    connect(&mut pool, "legacy", lane(&[]));
    assert_eq!(pool.catalog_listener_candidates(), vec!["new".to_owned()]);
    assert_eq!(pool.listener_manifest("new").unwrap().name, "new");
    assert!(pool.listener_manifest("nobody").is_none());
    let mut entry = pool.entries.remove("new").unwrap();
    entry.removed = true;
    pool.entries.insert("new".to_owned(), entry);
    assert!(pool.listener_manifest("new").is_none());
    assert!(pool.catalog_listener_candidates().is_empty());
}

#[test]
fn resource_ownership_is_told_by_server() {
    let claim = |prefix: &str| ResourceClaim {
        uri_prefix: prefix.to_owned(),
        risk: RiskTier::Low,
    };
    let mut b = manifest("b", &[]);
    b.resources = vec![claim("b://")];
    let mut a = manifest("a", &[]);
    a.resources = vec![claim("a1://"), claim("a2://")];
    let mut pool = pool(vec![b, a]);
    let routing = pool.resource_routing_snapshot();
    assert_eq!(routing.generation, 0);
    let owners: Vec<(&str, &str)> =
        routing.claims.iter().map(|(s, c)| (s.as_str(), c.uri_prefix.as_str())).collect();
    assert_eq!(owners, vec![("a", "a1://"), ("a", "a2://"), ("b", "b://")]);
    assert_eq!(pool.resource_claims("b"), vec![claim("b://")]);
    assert!(pool.resource_claims("nobody").is_empty());
    assert!(pool.resource_operations_supported("a"));
    let mut advertising = lane(&[]);
    advertising.resource_capability_advertised = true;
    connect(&mut pool, "a", advertising);
    assert!(waygate_upstream::resources::resource_capability_advertised(
        pool.entries.get("a").unwrap()
    ));
}

#[test]
fn refusals_of_a_replaced_entry_are_told_but_not_kept() {
    let mut pool = pool(vec![manifest("a", &["t"])]).with_evidence();
    let mut served = lane(&["t"]);
    served.rejected_output_schemas =
        vec![RejectedOutputSchema { tool: "t".to_owned(), observed_type: "array".to_owned() }];
    connect(&mut pool, "a", served);
    let sample = {
        let entry = pool.entries.get("a").unwrap();
        waygate_upstream::health::rejected_union(&entry.lanes, &entry.quarantined)
    };
    let stamp = pool.audited_refusals.observe();
    assert_eq!(pool.record_new_refusals("a", 99, stamp, &sample).len(), 1);
    let again = pool.audited_refusals.observe();
    assert_eq!(pool.record_new_refusals("a", 0, again, &sample).len(), 1);
    let more = pool.audited_refusals.observe();
    assert_eq!(pool.record_new_refusals("a", 0, more, &sample).len(), 0);
    let dark = waygate_upstream::health::ServedRefusals { served: Vec::new(), live: false };
    let none = pool.audited_refusals.observe();
    assert!(pool.record_new_refusals("a", 0, none, &dark).is_empty());
    let still = pool.audited_refusals.observe();
    assert!(pool.record_new_refusals("a", 0, still, &sample).is_empty());
}

#[test]
fn admitted_contracts_are_compared_whole() {
    let mut pool = pool(vec![manifest("a", &["t"])]);
    connect(&mut pool, "a", lane(&["t"]));
    let t = "t".to_owned();
    let plain = reads(CatalogLookup::NotAttached);
    let admitted = pool.resolved_contract_identity("a", &t, &plain).unwrap();
    assert!(pool.resolve_invocation_tool("a", &t, &plain).admits(&admitted));
    let mut governed = reads(CatalogLookup::Live(row(false)));
    governed.version_hash = Some("v".to_owned());
    assert!(!pool.resolve_invocation_tool("a", &t, &governed).admits(&admitted));
    assert!(!pool
        .resolve_invocation_tool("a", &t, &reads(CatalogLookup::Quarantined))
        .admits(&admitted));
}

#[test]
fn drift_protects_by_threshold_and_mode() {
    let low = ToolClassification { risk: RiskTier::Low, side_effects: false, ..classified("t") };
    assert!(!protected_on_drift(
        QuarantineThreshold::High,
        &low,
        ClassificationMode::Manifest
    ));
    assert!(protected_on_drift(
        QuarantineThreshold::High,
        &low,
        ClassificationMode::McpAnnotations
    ));
    assert!(!protected_on_drift(
        QuarantineThreshold::Off,
        &low,
        ClassificationMode::McpAnnotations
    ));
}
