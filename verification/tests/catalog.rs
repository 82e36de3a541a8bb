//! Catalogs of tools: what lanes share, what is published and what changed.

use waygate_upstream::admission::{
    dispatch_contract_is_current, entry_tool_is_admitted, partition_live_tools,
    publish_classified_tools, tool_is_admitted, tool_is_admitted_in_catalog,
};
use waygate_upstream::assoc::Assoc;
use waygate_upstream::clock::{Duration, Instant, WallTime};
use waygate_upstream::contracts::{observe_candidate, observed_contracts, CandidateObservation};
use waygate_upstream::drift::{record_observed_schemas_against, QuarantineThreshold};
use waygate_upstream::health::{
    clear_quarantine, health_of, protocol_generation_counts, published_tools, rejected_union,
    runtime_state, unregisterable_union, DialError, UpstreamErrorClass, UpstreamRecovery,
    UpstreamRuntimeState,
};
use waygate_upstream::lane::{
    find_connected, synchronize_published_catalogs, synchronize_reconnect_catalogs, BreakerState,
    Connection,
};
use waygate_upstream::manifest::{
    ApprovalMode, ClassificationMode, RiskTier, ToolClassification, Transport, UpstreamManifest,
    UpstreamProtocol,
};
use waygate_upstream::redial::{
    catalog_refresh_report, effective_redial, partial_redial_error_class, CatalogRefreshOutcome,
    RedialFailure, RedialOutcome, RedialSource,
};
use waygate_upstream::refusal_record::RejectedOutputSchema;
use waygate_upstream::tools::{
    common_tool_catalog, tool_catalogs_equal, tool_inventory_diff, BehaviorClaims, Tool,
};
use waygate_upstream::value::Value;

/// A tool whose hashes follow from its name and schemas.
fn tool(name: &str, schema_property: Option<&str>) -> Tool {
    let input_schema = match schema_property {
        Some(property) => {
            format!("{{\"properties\":{{\"{property}\":{{\"type\":\"string\"}}}},\"type\":\"object\"}}")
        }
        None => "{\"properties\":{},\"type\":\"object\"}".to_owned(),
    };
    Tool {
        name: name.to_owned(),
        presentation: format!("{name} description"),
        schema_hash: format!("schema:{name}:{input_schema}"),
        behavior_hash: format!("behavior:{name}:{input_schema}:"),
        behavior_hash_sans_output_schema: format!("behavior:{name}:{input_schema}"),
        input_schema,
        output_schema: None,
        annotations: None,
        action_metadata: None,
        claims: None,
        metadata_error: None,
    }
}

fn with_output_schema(property: &str) -> Tool {
    let mut tool = tool("shared", None);
    let schema =
        format!("{{\"properties\":{{\"{property}\":{{\"type\":\"string\"}}}},\"type\":\"object\"}}");
    tool.behavior_hash = format!("{}:{schema}", tool.behavior_hash_sans_output_schema);
    tool.schema_hash = format!("{}:{schema}", tool.schema_hash);
    tool.output_schema = Some(schema);
    tool
}

fn lane(tools: Vec<Tool>) -> Connection {
    Connection {
        session: 0,
        live_tools: tools.dup(),
        tools,
        negotiated_protocol: Some("2025-11-25".to_owned()),
        resource_capability_advertised: false,
        cleartext_control_plane: false,
        network_destination: None,
        ttl_hint_ms: None,
        dialed_at: Instant { nanos: 0 },
        rejected_output_schemas: Vec::new(),
        unregisterable_input_schemas: Vec::new(),
    }
}

fn classified(name: &str, risk: RiskTier, hash: Option<&str>) -> ToolClassification {
    ToolClassification {
        name: name.to_owned(),
        risk,
        side_effects: false,
        pii: false,
        approved_behavior_hash: hash.map(str::to_owned),
        discriminator: None,
        operations: Vec::new(),
    }
}

fn manifest(mode: ClassificationMode, tools: Vec<ToolClassification>) -> UpstreamManifest {
    UpstreamManifest {
        name: "mock".to_owned(),
        classification_mode: mode,
        approval_mode: ApprovalMode::PerCall,
        transport: Transport::Http,
        protocol: UpstreamProtocol::Auto,
        url: Some("http://127.0.0.1:1/mcp".to_owned()),
        command: None,
        tools,
        resources: Vec::new(),
        exchange: None,
        auth: None,
        mtls: None,
        tier_a_required: false,
        tier_c_peer: None,
        session: None,
    }
}

fn names(tools: &[Tool]) -> Vec<&str> {
    tools.iter().map(|tool| tool.name.as_str()).collect()
}

#[test]
fn runtime_state_distinguishes_capacity_from_catalog_lifecycle() {
    assert_eq!(
        runtime_state(0, 4, BreakerState::Closed),
        UpstreamRuntimeState::Disconnected,
        "no live lane is disconnected even before the breaker opens",
    );
    assert_eq!(
        runtime_state(2, 4, BreakerState::Closed),
        UpstreamRuntimeState::Degraded,
        "partial capacity must not render as fully connected",
    );
    assert_eq!(
        runtime_state(4, 4, BreakerState::Open),
        UpstreamRuntimeState::Disconnected,
        "stored sessions behind an open breaker have no usable dispatch capacity",
    );
    assert_eq!(runtime_state(4, 4, BreakerState::Closed), UpstreamRuntimeState::Connected);
}

#[test]
fn catalog_refresh_outcome_strings_are_stable() {
    assert_eq!(CatalogRefreshOutcome::Updated.as_str(), "updated");
    assert_eq!(CatalogRefreshOutcome::Unchanged.as_str(), "unchanged");
    assert_eq!(CatalogRefreshOutcome::Failed.as_str(), "failed");
    assert_eq!(CatalogRefreshOutcome::Superseded.as_str(), "superseded");
    assert_eq!(CatalogRefreshOutcome::Removed.as_str(), "removed");
}

#[test]
fn partial_redial_preserves_the_failed_lanes_bounded_class() {
    let timeout = RedialFailure {
        class: UpstreamErrorClass::Timeout,
        detail: "private timeout detail".to_owned(),
    };
    assert_eq!(
        partial_redial_error_class(1, Some(&timeout)),
        Some(UpstreamErrorClass::Timeout),
    );
    assert_eq!(
        partial_redial_error_class(0, Some(&timeout)),
        None,
        "a fully healed batch must clear the prior error class",
    );
}

#[test]
fn common_catalog_requires_exact_descriptor_on_every_lane() {
    let first = vec![
        tool("shared", None),
        tool("first_only", None),
        tool("schema_drift", Some("old")),
    ];
    let second = vec![
        tool("shared", None),
        tool("second_only", None),
        tool("schema_drift", Some("new")),
    ];

    assert_eq!(
        common_tool_catalog(&vec![&first, &second], ClassificationMode::Manifest),
        vec![tool("shared", None)],
        "a published descriptor must be callable with that schema on every lane",
    );
}

#[test]
fn common_catalog_ignores_display_title_differences() {
    let annotations =
        "{\"destructiveHint\":false,\"idempotentHint\":true,\"openWorldHint\":false,\"readOnlyHint\":true}";
    let mut titled = tool("shared", None);
    titled.presentation = "Renamed in the newer build".to_owned();
    titled.annotations = Some(annotations.to_owned());
    let mut untitled = tool("shared", None);
    untitled.annotations = Some(annotations.to_owned());
    let first = vec![titled.dup()];
    let second = vec![untitled];

    assert_eq!(
        common_tool_catalog(&vec![&first, &second], ClassificationMode::McpAnnotations),
        vec![titled],
        "a title-only lane difference must not drop the shared tool",
    );
}

#[test]
fn output_schema_disagreement_respects_the_classification_authority() {
    let first = vec![with_output_schema("old")];
    let second = vec![with_output_schema("new")];

    let manifest_catalog =
        common_tool_catalog(&vec![&first, &second], ClassificationMode::Manifest);
    assert_eq!(manifest_catalog.len(), 1);
    assert_eq!(manifest_catalog[0].output_schema, None);

    assert!(
        common_tool_catalog(&vec![&first, &second], ClassificationMode::McpAnnotations).is_empty()
    );
}

#[test]
fn canonical_catalog_is_installed_on_every_lane() {
    let published = vec![tool("shared", None)];
    let mut lanes = vec![
        Some(lane(vec![tool("first_only", None)])),
        None,
        Some(lane(vec![tool("second_only", None)])),
    ];

    synchronize_published_catalogs(&mut lanes, &published);

    assert_eq!(lanes[0].as_ref().unwrap().tools, published);
    assert!(lanes[1].is_none());
    assert_eq!(lanes[2].as_ref().unwrap().tools, published);
    assert_eq!(names(&lanes[0].as_ref().unwrap().live_tools), vec!["first_only"]);
}

#[test]
fn reconnect_synchronizes_surviving_and_replacement_lanes() {
    let published = vec![tool("shared", None)];
    let mut existing = vec![Some(lane(vec![tool("surviving_only", None)])), None];
    let mut replacements = vec![
        Some(lane(vec![tool("replacement_only", None)])),
        Some(lane(vec![tool("failed_only", None)])),
    ];

    synchronize_reconnect_catalogs(
        false,
        &mut existing,
        &mut replacements,
        &vec![true, false],
        &published,
    );

    assert_eq!(existing[0].as_ref().unwrap().tools, published);
    assert_eq!(replacements[0].as_ref().unwrap().tools, published);
    assert_eq!(replacements[1].as_ref().unwrap().tools, vec![tool("failed_only", None)]);
}

#[test]
fn an_open_breaker_leaves_the_presumed_dead_lanes_alone() {
    let published = vec![tool("shared", None)];
    let mut existing = vec![Some(lane(vec![tool("dead", None)]))];
    let mut replacements = vec![Some(lane(vec![]))];
    synchronize_reconnect_catalogs(
        true,
        &mut existing,
        &mut replacements,
        &vec![true],
        &published,
    );
    assert_eq!(names(&existing[0].as_ref().unwrap().tools), vec!["dead"]);
    assert_eq!(replacements[0].as_ref().unwrap().tools, published);
}

#[test]
fn inventory_differences_are_told_by_name() {
    let before = vec![tool("kept", None), tool("gone", None), tool("edited", Some("old"))];
    let after = vec![tool("edited", Some("new")), tool("new", None), tool("kept", None)];
    let (added, removed, changed) = tool_inventory_diff(&before, &after);
    assert_eq!(added, vec!["new".to_owned()]);
    assert_eq!(removed, vec!["gone".to_owned()]);
    assert_eq!(changed, vec!["edited".to_owned()]);
    assert!(!tool_catalogs_equal(&before, &after));
    let reordered = vec![tool("gone", None), tool("edited", Some("old")), tool("kept", None)];
    assert!(tool_catalogs_equal(&before, &reordered));
    assert_eq!(tool_inventory_diff(&before, &reordered), (vec![], vec![], vec![]));
}

#[test]
fn a_withheld_output_schema_is_no_change() {
    let shared = |first: &str| {
        let here = vec![with_output_schema(first)];
        let there = vec![with_output_schema("disputed")];
        common_tool_catalog(&vec![&here, &there], ClassificationMode::Manifest)
    };
    let before = shared("old");
    let after = shared("new");
    assert!(before[0].output_schema.is_none() && after[0].output_schema.is_none());
    assert_ne!(before[0].schema_hash, after[0].schema_hash);
    assert!(tool_catalogs_equal(&before, &after));
    assert_eq!(tool_inventory_diff(&before, &after), (vec![], vec![], vec![]));
    assert_eq!(
        catalog_refresh_report("mock", &before, &after, RedialOutcome::Redialed).outcome,
        CatalogRefreshOutcome::Unchanged
    );
    assert!(!tool_catalogs_equal(&before, &vec![with_output_schema("old")]));
}

#[test]
fn refresh_reports_name_what_changed() {
    let before = vec![tool("kept", None), tool("gone", None)];
    let after = vec![tool("kept", None), tool("new", None)];
    let report = catalog_refresh_report("mock", &before, &after, RedialOutcome::Redialed);
    assert_eq!(report.outcome, CatalogRefreshOutcome::Updated);
    assert!(report.session_replaced);
    assert_eq!((report.before_tool_count, report.after_tool_count), (2, 2));
    assert_eq!(report.added, vec!["new".to_owned()]);
    assert_eq!(report.removed, vec!["gone".to_owned()]);
    let same = catalog_refresh_report("mock", &before, &before, RedialOutcome::Redialed);
    assert_eq!(same.outcome, CatalogRefreshOutcome::Unchanged);
    let failed = catalog_refresh_report("mock", &before, &before, RedialOutcome::Failed);
    assert_eq!(failed.outcome, CatalogRefreshOutcome::Failed);
    assert!(!failed.session_replaced);
    let late = catalog_refresh_report("mock", &before, &before, RedialOutcome::Superseded);
    assert_eq!(late.outcome, CatalogRefreshOutcome::Superseded);
    let gone = catalog_refresh_report("mock", &before, &before, RedialOutcome::Tombstoned);
    assert_eq!(gone.outcome, CatalogRefreshOutcome::Removed);
    assert_eq!(
        effective_redial(RedialOutcome::Failed, true, true),
        RedialOutcome::Tombstoned
    );
    assert_eq!(RedialSource::CatalogRefresh.publish_label(), "catalog_refresh");
}

#[test]
fn only_classified_tools_are_published() {
    let live = vec![tool("known", None), tool("stray", None)];
    let declared = vec![
        classified("known", RiskTier::Low, None),
        classified("ghost", RiskTier::Low, None),
    ];
    let (published, withheld, ghosts) =
        partition_live_tools(&declared, ClassificationMode::Manifest, &live);
    assert_eq!(names(&published), vec!["known"]);
    assert_eq!(withheld, vec!["stray".to_owned()]);
    assert_eq!(ghosts, vec!["ghost".to_owned()]);
}

#[test]
fn annotation_mode_admits_the_approved_behavior_alone() {
    let approved = tool("t", None);
    let hash = approved.behavior_hash.clone();
    let declared = classified("t", RiskTier::Low, Some(hash.as_str()));
    assert!(tool_is_admitted(Some(&declared), ClassificationMode::McpAnnotations, &approved));
    assert!(!tool_is_admitted(
        Some(&declared),
        ClassificationMode::McpAnnotations,
        &tool("t", Some("other"))
    ));
    assert!(!tool_is_admitted(None, ClassificationMode::Manifest, &approved));
    let m = manifest(ClassificationMode::McpAnnotations, vec![declared]);
    assert!(tool_is_admitted_in_catalog(&m, &vec![tool("t", None)], "t"));
    assert!(
        !tool_is_admitted_in_catalog(&m, &vec![tool("t", None), tool("t", Some("other"))], "t"),
        "a name listed in an unapproved form too is ambiguous",
    );
    let agreed = vec![Some(lane(vec![tool("t", None)])), None];
    assert!(entry_tool_is_admitted(&agreed, &m, "t"));
    let split = vec![Some(lane(vec![tool("t", None)])), Some(lane(vec![]))];
    assert!(!entry_tool_is_admitted(&split, &m, "t"));
    assert!(!entry_tool_is_admitted(&vec![None], &m, "t"));
}

#[test]
fn a_refused_publication_publishes_nothing() {
    let live = vec![tool("known", None)];
    let declared = vec![classified("known", RiskTier::Low, None)];
    let mut offered = 0;
    let accepted = publish_classified_tools(
        &declared,
        ClassificationMode::Manifest,
        &live,
        |tools: &Vec<Tool>| -> Result<(), String> {
            offered = tools.len();
            Ok(())
        },
    );
    assert_eq!(accepted.map(|tools| tools.len()), Ok(1));
    assert_eq!(offered, 1);
    let refused = publish_classified_tools(
        &declared,
        ClassificationMode::Manifest,
        &live,
        |_: &Vec<Tool>| -> Result<(), String> { Err("index".to_owned()) },
    );
    assert_eq!(refused, Err("index".to_owned()));
}

#[test]
fn a_dispatch_needs_the_contract_it_was_set_up_under() {
    let m = manifest(ClassificationMode::Manifest, vec![classified("t", RiskTier::Low, None)]);
    let live = vec![tool("t", None)];
    assert!(dispatch_contract_is_current(&m, &m, &vec![], &live, "t", true));
    assert!(!dispatch_contract_is_current(&m, &m, &vec!["t".to_owned()], &live, "t", true));
    assert!(dispatch_contract_is_current(&m, &m, &vec!["t".to_owned()], &live, "t", false));
    let mut moved = manifest(ClassificationMode::Manifest, vec![classified("t", RiskTier::Low, None)]);
    moved.url = Some("http://127.0.0.1:2/mcp".to_owned());
    assert!(!dispatch_contract_is_current(&m, &moved, &vec![], &live, "t", true));
    let emptied = manifest(ClassificationMode::Manifest, vec![]);
    assert!(!dispatch_contract_is_current(&m, &emptied, &vec![], &live, "t", true));
}

#[test]
fn the_first_observation_is_silent_and_a_change_is_not() {
    let mut observed = Assoc::new();
    let mut quarantined = Vec::new();
    let declared = vec![classified("t", RiskTier::High, None)];
    let first = record_observed_schemas_against(
        &mut observed,
        &mut quarantined,
        &vec![tool("t", None)],
        QuarantineThreshold::High,
        &declared,
        ClassificationMode::Manifest,
    );
    assert!(first.is_empty());
    let second = record_observed_schemas_against(
        &mut observed,
        &mut quarantined,
        &vec![tool("t", Some("new"))],
        QuarantineThreshold::High,
        &declared,
        ClassificationMode::Manifest,
    );
    assert_eq!(second.len(), 1);
    assert!(second[0].quarantined);
    assert_eq!(second[0].risk, Some(RiskTier::High));
    assert_eq!(quarantined, vec!["t".to_owned()]);
    let third = record_observed_schemas_against(
        &mut observed,
        &mut quarantined,
        &vec![tool("t", Some("newer"))],
        QuarantineThreshold::Off,
        &declared,
        ClassificationMode::Manifest,
    );
    assert!(!third[0].quarantined);
}

#[test]
fn thresholds_cover_risk_or_side_effects() {
    assert!(!QuarantineThreshold::Off.covers(RiskTier::High, true));
    assert!(QuarantineThreshold::High.covers(RiskTier::High, false));
    assert!(!QuarantineThreshold::High.covers(RiskTier::Medium, false));
    assert!(QuarantineThreshold::Medium.covers(RiskTier::Medium, false));
    assert!(QuarantineThreshold::All.covers(RiskTier::Low, false));
}

#[test]
fn clearing_a_quarantine_keeps_what_reviews_block() {
    let mut quarantined = vec!["a".to_owned(), "b".to_owned(), "c".to_owned()];
    assert_eq!(clear_quarantine(&mut quarantined, &vec!["b".to_owned()]), 2);
    assert_eq!(quarantined, vec!["b".to_owned()]);
    assert_eq!(clear_quarantine(&mut quarantined, &vec!["x".to_owned(), "y".to_owned()]), 1);
    assert_eq!(quarantined, vec!["x".to_owned(), "y".to_owned()]);
    assert_eq!(clear_quarantine(&mut quarantined, &vec!["y".to_owned(), "x".to_owned()]), 0);
    assert_eq!(clear_quarantine(&mut quarantined, &vec![]), 2);
    assert!(quarantined.is_empty());
}

#[test]
fn refusals_are_united_over_the_lanes() {
    let refused = |tool: &str, kind: &str| RejectedOutputSchema {
        tool: tool.to_owned(),
        observed_type: kind.to_owned(),
    };
    let mut first = lane(vec![tool("a", None), tool("b", None)]);
    first.rejected_output_schemas = vec![refused("b", "array"), refused("hidden", "array")];
    let mut second = lane(vec![tool("a", None), tool("b", None)]);
    second.rejected_output_schemas = vec![refused("b", "string"), refused("a", "string")];
    let lanes = vec![Some(first), None, Some(second)];
    let union = rejected_union(&lanes, &vec![]);
    assert!(union.live);
    assert_eq!(union.served, vec![refused("a", "string"), refused("b", "array")]);
    let fewer = rejected_union(&lanes, &vec!["b".to_owned()]);
    assert_eq!(fewer.served, vec![refused("a", "string")]);
    assert!(!rejected_union(&vec![None], &vec![]).live);
}

#[test]
fn unregisterable_tools_are_counted_once_and_only_when_offered() {
    let mut first = lane(vec![tool("a", None), tool("b", None)]);
    first.unregisterable_input_schemas = vec!["b".to_owned(), "hidden".to_owned()];
    let mut second = lane(vec![tool("b", None)]);
    second.unregisterable_input_schemas = vec!["b".to_owned()];
    let lanes = vec![Some(first), Some(second)];
    assert_eq!(unregisterable_union(&lanes, &vec![]), vec!["b".to_owned()]);
    assert!(unregisterable_union(&lanes, &vec!["b".to_owned()]).is_empty());
}

#[test]
fn lanes_are_counted_by_generation() {
    let mut newer = lane(vec![]);
    newer.negotiated_protocol = Some("2026-07-28".to_owned());
    let mut odd = lane(vec![]);
    odd.negotiated_protocol = Some("1999-01-01".to_owned());
    let mut mute = lane(vec![]);
    mute.negotiated_protocol = None;
    let lanes = vec![Some(newer), Some(odd), Some(mute), None, Some(lane(vec![]))];
    let labels = vec!["2025-11-25".to_owned(), "2026-07-28".to_owned(), "other".to_owned()];
    assert_eq!(protocol_generation_counts(&lanes, &labels), vec![1, 1, 1]);
}

#[test]
fn health_is_read_off_the_lanes() {
    let mut newer = lane(vec![tool("a", None), tool("b", None)]);
    newer.negotiated_protocol = Some("2026-07-28".to_owned());
    let lanes = vec![None, Some(newer), Some(lane(vec![tool("a", None), tool("b", None)]))];
    let recovery = UpstreamRecovery {
        last_success_at: Some(WallTime { unix_nanos: 5 }),
        last_error_class: Some(UpstreamErrorClass::Dns),
    };
    let health = health_of(
        &"mock".to_owned(),
        &lanes,
        &vec!["b".to_owned()],
        BreakerState::Closed,
        &recovery,
        None,
    );
    assert_eq!(health.runtime_state, UpstreamRuntimeState::Degraded);
    assert_eq!((health.connected_lanes, health.total_lanes), (2, 3));
    assert_eq!((health.published_tool_count, health.quarantined_tool_count), (1, 1));
    assert_eq!(
        health.protocol_versions,
        vec!["2025-11-25".to_owned(), "2026-07-28".to_owned()]
    );
    assert_eq!(health.last_error_class, Some(UpstreamErrorClass::Dns));
    assert_eq!(find_connected(&lanes), Some(1));
    assert_eq!(names(&published_tools(&lanes, &vec!["b".to_owned()], true)), vec!["a"]);
    assert_eq!(names(&published_tools(&lanes, &vec!["b".to_owned()], false)), vec!["a", "b"]);
}

#[test]
fn dial_errors_fall_into_bounded_classes() {
    assert_eq!(
        UpstreamErrorClass::from_dial_error(DialError::ResolveNetwork),
        UpstreamErrorClass::Dns
    );
    assert_eq!(
        UpstreamErrorClass::from_dial_error(DialError::MissingUrl),
        UpstreamErrorClass::Configuration
    );
    assert_eq!(
        UpstreamErrorClass::from_dial_error(DialError::HandshakeTimeout),
        UpstreamErrorClass::Timeout
    );
    assert_eq!(UpstreamErrorClass::Authentication.as_str(), "authentication");
    assert_eq!(UpstreamRuntimeState::Degraded.as_str(), "degraded");
}

#[test]
fn a_hash_is_reported_only_where_lanes_agree() {
    let lanes = vec![
        Some(lane(vec![tool("same", None), tool("split", Some("old"))])),
        Some(lane(vec![tool("same", None), tool("split", Some("new"))])),
    ];
    let observed = observed_contracts(&lanes);
    assert!(observed.connected);
    assert_eq!(observed.tools.len(), 2);
    assert_eq!(observed.tools[0].name, "same");
    assert_eq!(observed.tools[0].behavior_hash, Some(tool("same", None).behavior_hash));
    assert_eq!(observed.tools[1].name, "split");
    assert_eq!(observed.tools[1].behavior_hash, None);

    let current = manifest(ClassificationMode::Manifest, vec![]);
    let mut candidate = manifest(ClassificationMode::McpAnnotations, vec![]);
    assert!(matches!(
        observe_candidate(&current, &candidate, &lanes),
        CandidateObservation::Observed(_)
    ));
    candidate.url = Some("http://127.0.0.1:2/mcp".to_owned());
    assert_eq!(
        observe_candidate(&current, &candidate, &lanes),
        CandidateObservation::ShapeChanged
    );
}

#[test]
fn claims_and_durations_are_plain_values() {
    let claims = BehaviorClaims {
        side_effects: true,
        protected_data: false,
        output_sensitive: false,
        requires_review: true,
    };
    let copy = claims;
    assert_eq!(copy, claims);
    assert_eq!(Duration::from_millis(1_500).millis_saturating(), 1_500);
    assert_eq!(Duration { nanos: u128::MAX }.millis_saturating(), u64::MAX);
}
