//! Calls: what admits them, how they are sent and how they are settled.

use waygate_upstream::assoc::Assoc;
use waygate_upstream::binding::{CatalogLookup, InvocationContract};
use waygate_upstream::call::{
    admit_call, breaker_refusal, identity_audience, refuse_when_exchange_failed,
    refuse_when_no_durable_session, should_consult_tier_a_session, AuthMethod, BreakerError,
    CallAction, CallFlow,
};
use waygate_upstream::clock::{Duration, Instant, WallTime};
use waygate_upstream::discovery::{
    admitted_contract_is_current, resolve_held, DiscoveryReads,
};
use waygate_upstream::dispatch::{
    admitted_safe_retry, call_trace_id, finish_call_response, is_2026, legacy_continuation_refusal,
    manifest_continuation_refusal, mirrored_dial_capabilities, per_call_dial_plan, CallReply,
    CallResult, ClientCapabilities, LaneFault, PermitDisposition, RetryResult, ServiceError,
    ToolCallAttemptError,
};
use waygate_upstream::entry::UpstreamEntry;
use waygate_upstream::error::{
    answered_outcome, failed_outcome, non_final_response, text_contains, ErrorData, ErrorKind,
    ToolCallFailurePhase, UpstreamOutcome,
};
use waygate_upstream::facts::ToolFacts;
use waygate_upstream::health::{DialError, UpstreamErrorClass};
use waygate_upstream::lane::Connection;
use waygate_upstream::manifest::{
    ApprovalMode, ClassificationMode, ExchangeConfig, RiskTier, SessionConfig, SessionIsolation,
    ToolClassification, Transport, UpstreamManifest, UpstreamProtocol,
};
use waygate_upstream::pool::UpstreamPool;
use waygate_upstream::reconnect::{CredentialMaterialVersion, ReconnectPolicy};
use waygate_upstream::recovery::{
    can_retry, deadline_is_live, handoff_budget, remaining, safe_retry, PerCallAction,
    PerCallExecution,
};
use waygate_upstream::shape::pinned_2026_manifest;
use waygate_upstream::tools::Tool;
use waygate_upstream::value::Value;

fn at(secs: u64) -> Instant {
    Instant { nanos: Duration::from_secs(secs).nanos }
}

fn manifest(name: &str, transport: Transport, url: Option<&str>) -> UpstreamManifest {
    UpstreamManifest {
        name: name.to_owned(),
        classification_mode: ClassificationMode::Manifest,
        approval_mode: ApprovalMode::PerCall,
        transport,
        protocol: UpstreamProtocol::Auto,
        url: url.map(str::to_owned),
        command: None,
        tools: Vec::new(),
        resources: Vec::new(),
        exchange: None,
        auth: None,
        mtls: None,
        tier_a_required: false,
        tier_c_peer: None,
        session: None,
    }
}

fn classified(name: &str, hash: Option<&str>) -> ToolClassification {
    ToolClassification {
        name: name.to_owned(),
        risk: RiskTier::Low,
        side_effects: false,
        pii: false,
        approved_behavior_hash: hash.map(str::to_owned),
        discriminator: None,
        operations: Vec::new(),
    }
}

fn approved() -> UpstreamManifest {
    let mut approved = manifest("mock", Transport::Http, None);
    approved.classification_mode = ClassificationMode::McpAnnotations;
    approved.tools = vec![classified("read", Some("b"))];
    approved
}

fn tool(name: &str) -> Tool {
    Tool {
        name: name.to_owned(),
        presentation: String::new(),
        input_schema: "{}".to_owned(),
        output_schema: None,
        annotations: None,
        action_metadata: None,
        claims: None,
        schema_hash: "s".to_owned(),
        behavior_hash: "b".to_owned(),
        behavior_hash_sans_output_schema: "b".to_owned(),
        metadata_error: None,
    }
}

fn lane(version: &str) -> Connection {
    Connection {
        session: 0,
        tools: vec![tool("read")],
        live_tools: vec![tool("read")],
        negotiated_protocol: Some(version.to_owned()),
        resource_capability_advertised: false,
        cleartext_control_plane: false,
        network_destination: None,
        ttl_hint_ms: None,
        dialed_at: at(0),
        rejected_output_schemas: Vec::new(),
        unregisterable_input_schemas: Vec::new(),
    }
}

fn policy() -> ReconnectPolicy {
    ReconnectPolicy {
        base: Duration::from_secs(5),
        ceiling: Duration::from_secs(20),
        seed: 7,
        credential_key: [9; 32],
    }
}

fn reads(lookup: CatalogLookup) -> DiscoveryReads {
    DiscoveryReads { review_allows: true, lookup, before: None, after: None, version_hash: None }
}

/// The contract that a call of `read` runs under on a session.
fn contract_on(
    manifest: &UpstreamManifest,
    conn: &Connection,
    reads: &DiscoveryReads,
) -> InvocationContract {
    let policy = UpstreamPool::new(policy()).catalog_policy;
    resolve_held("mock", &"read".to_owned(), manifest, conn, reads, policy)
        .contract_identity()
        .unwrap()
}

fn entry(manifest: UpstreamManifest, lane: Option<Connection>) -> UpstreamEntry {
    let policy = policy();
    let mut asked = Assoc::new();
    let name = manifest.name.clone();
    asked.insert(name.clone(), (manifest, CredentialMaterialVersion { high: 0, low: 0 }));
    let mut pool =
        UpstreamPool::from_manifests_disconnected(asked, policy, at(0), WallTime { unix_nanos: 0 });
    let mut entry = pool.entries.remove(name.as_str()).unwrap();
    entry.lanes = vec![lane];
    entry
}

fn contract(side_effects: bool) -> InvocationContract {
    InvocationContract {
        facts: ToolFacts {
            server: "mock".to_owned(),
            name: "read".to_owned(),
            risk: RiskTier::Low,
            side_effects,
            pii: false,
            requires_approval: false,
            requires_approval_known: true,
        },
        tool_id: None,
        version: None,
        anticipated_sensitive_output: false,
        input_schema: None,
        output_schema: None,
        tool_annotations: None,
        action_metadata: None,
        discriminator: None,
        operations: Vec::new(),
    }
}

fn caps_with_elicitation() -> ClientCapabilities {
    ClientCapabilities {
        elicitation: Some("{}".to_owned()),
        sampling: Some("{}".to_owned()),
        roots: Some("{}".to_owned()),
        extensions: Some("{\"tasks\":{}}".to_owned()),
        experimental: None,
    }
}

#[test]
fn disconnect_before_request_handoff_is_proven_pre_dispatch() {
    let error = ToolCallAttemptError::before_dispatch(ServiceError::Transport);
    assert_eq!(error.phase, ToolCallFailurePhase::PreDispatch);
    assert!(error.phase.dispatch_proven_absent());
    assert!(matches!(error.source, ServiceError::Transport));
    assert!(!error.retryable);
}

#[test]
fn mirrors_elicitation_only_on_a_2026_lane() {
    let caps = caps_with_elicitation();
    let mirrored = mirrored_dial_capabilities(Some(&caps), Some(&"2026-07-28".to_owned()))
        .expect("2026 lane with declared capabilities mirrors");
    assert!(mirrored.elicitation.is_some());
    assert!(mirrored.extensions.is_none());
    assert!(mirrored.experimental.is_none());
    assert!(mirrored.sampling.is_none());
    assert!(mirrored.roots.is_none());
}

#[test]
fn no_mirror_for_legacy_lanes_or_absent_callers() {
    let caps = caps_with_elicitation();
    assert!(mirrored_dial_capabilities(Some(&caps), Some(&"2025-11-25".to_owned())).is_none());
    assert!(mirrored_dial_capabilities(None, Some(&"2026-07-28".to_owned())).is_none());
}

#[test]
fn bare_2026_caller_gets_a_pinned_empty_declaration() {
    let bare = ClientCapabilities {
        elicitation: None,
        sampling: None,
        roots: None,
        extensions: None,
        experimental: None,
    };
    let mirrored = mirrored_dial_capabilities(Some(&bare), Some(&"2026-07-28".to_owned()))
        .expect("pause-capable caller pins the dial");
    assert!(mirrored.elicitation.is_none());
    assert!(mirrored.sampling.is_none());
    assert!(mirrored.roots.is_none());
}

#[test]
fn continuations_are_refused_where_2026_cannot_be_negotiated() {
    let auto = manifest("mock", Transport::Http, Some("http://127.0.0.1:1/mcp"));
    assert!(manifest_continuation_refusal("mock", true, &auto).is_none());
    assert!(manifest_continuation_refusal("mock", false, &auto).is_none());

    let mut legacy = auto.dup();
    legacy.protocol = UpstreamProtocol::Legacy;
    assert!(manifest_continuation_refusal("mock", true, &legacy).is_some());
    assert!(manifest_continuation_refusal("mock", false, &legacy).is_none());

    let sse = manifest("mock", Transport::Sse, Some("http://127.0.0.1:1/sse"));
    assert!(manifest_continuation_refusal("mock", true, &sse).is_some());
}

#[test]
fn pinned_manifest_requires_discovery() {
    let manifest = manifest("mock", Transport::Http, Some("http://127.0.0.1:1/mcp"));
    assert_eq!(pinned_2026_manifest(&manifest).protocol, UpstreamProtocol::V20260728);
}

#[test]
fn admitted_safe_call_bounds_a_dial_failure_to_one_recovery_attempt() {
    let mut execution = PerCallExecution::begin(
        "provider-neutral",
        "read",
        "trace-dial-failure",
        ClassificationMode::Manifest,
        true,
        None,
        None,
    );
    assert_eq!(
        execution.dial_failed(DialError::MissingUrl, at(0)),
        PerCallAction::DialAgain
    );
    let PerCallAction::Fail { error, class } =
        execution.dial_failed(DialError::MissingUrl, at(0))
    else {
        panic!("a missing HTTP URL must fail before initialization");
    };
    assert_eq!(class, UpstreamErrorClass::Configuration);
    let ErrorData::UpstreamCallFailed { phase, retryable, attempts, trace_id } = error.data else {
        panic!("a failed dial is bounded");
    };
    assert_eq!(phase, ToolCallFailurePhase::Dial);
    assert_eq!(attempts, 2, "the dial gets one recovery attempt");
    assert!(retryable, "dispatch is proven absent at dial time");
    assert_eq!(trace_id, "trace-dial-failure");
}

#[test]
fn request_handoff_failure_uses_the_same_single_attempt_budget() {
    assert!(can_retry(true, 1, ToolCallFailurePhase::PreDispatch, None, at(0)));
    assert!(!can_retry(true, 2, ToolCallFailurePhase::PreDispatch, None, at(0)));
}

#[test]
fn expired_deadline_refuses_handoff_before_a_send_future_is_built() {
    let deadline = Instant { nanos: at(10).nanos - Duration::from_millis(1).nanos };
    let configured_timeout = Duration::from_secs(7);

    let error = handoff_budget(Some(deadline), Some(configured_timeout), at(10))
        .expect_err("an expired deadline must stop before request handoff");

    assert_eq!(error.phase, ToolCallFailurePhase::PreDispatch);
    assert!(!error.retryable);
    assert!(matches!(
        error.source,
        ServiceError::Timeout { timeout } if timeout == configured_timeout
    ));
}

#[test]
fn handoff_takes_what_the_deadline_leaves() {
    assert_eq!(handoff_budget(Some(at(12)), Some(Duration::from_secs(7)), at(10)), Ok(Some(Duration::from_secs(2))));
    assert_eq!(handoff_budget(None, None, at(10)), Ok(None));
    assert_eq!(remaining(Some(at(12)), at(10)), Some(Duration::from_secs(2)));
    assert_eq!(remaining(Some(at(9)), at(10)), Some(Duration::zero()));
    assert_eq!(remaining(None, at(10)), None);
    assert!(deadline_is_live(None, at(10)));
    assert!(!deadline_is_live(Some(at(10)), at(10)));
}

#[test]
fn generations_are_ordered_by_date() {
    assert!(is_2026(Some(&"2026-07-28".to_owned())));
    assert!(is_2026(Some(&"2027-01-01".to_owned())));
    assert!(!is_2026(Some(&"2025-11-25".to_owned())));
    assert!(!is_2026(None));
    assert!(legacy_continuation_refusal("mock", true, Some(&"2025-11-25".to_owned())).is_some());
    assert!(legacy_continuation_refusal("mock", true, Some(&"2026-07-28".to_owned())).is_none());
    assert!(legacy_continuation_refusal("mock", false, None).is_none());
}

#[test]
fn trace_ids_are_kept_or_drawn() {
    assert_eq!(call_trace_id(Some("given".to_owned())), "given");
    let drawn = call_trace_id(None);
    assert_eq!(drawn.len(), 32);
    assert!(drawn.chars().all(|c| c.is_ascii_hexdigit()));
    assert_ne!(drawn, call_trace_id(None));
}

#[test]
fn only_harmless_admitted_calls_are_repeated() {
    let safe = contract(false);
    assert!(admitted_safe_retry(Some(&safe), false, false));
    assert!(!admitted_safe_retry(Some(&safe), true, false));
    assert!(!admitted_safe_retry(Some(&safe), false, true));
    assert!(!admitted_safe_retry(None, false, false));
    assert!(!admitted_safe_retry(Some(&contract(true)), false, false));
    let http = manifest("mock", Transport::Http, None);
    assert!(safe_retry(&http, Some(&safe), false, false));
    let stdio = manifest("mock", Transport::Stdio, None);
    assert!(!safe_retry(&stdio, Some(&safe), false, false));
    let mut off = manifest("mock", Transport::Http, None);
    off.session = Some(SessionConfig {
        isolation: None,
        concurrency: None,
        retry_on_setup_failure: Some(false),
    });
    assert!(!safe_retry(&off, Some(&safe), false, false));
}

#[test]
fn dials_are_pinned_where_a_pause_may_come_back() {
    let m = manifest("mock", Transport::Http, None);
    let caps = caps_with_elicitation();
    let pinned = per_call_dial_plan(&m, Some(&caps), Some(&"2026-07-28".to_owned()), false);
    assert_eq!(pinned.manifest.protocol, UpstreamProtocol::V20260728);
    assert!(pinned.capabilities.unwrap().elicitation.is_some());
    let continued = per_call_dial_plan(&m, None, Some(&"2026-07-28".to_owned()), true);
    assert_eq!(continued.manifest.protocol, UpstreamProtocol::V20260728);
    let plain = per_call_dial_plan(&m, Some(&caps), Some(&"2025-11-25".to_owned()), false);
    assert_eq!(plain.manifest.protocol, UpstreamProtocol::Auto);
    assert!(plain.capabilities.is_none());
}

#[test]
fn settlements_follow_what_the_answer_proves() {
    let answered = finish_call_response(CallResult::Answered, 2, SessionIsolation::Reuse);
    assert_eq!(answered.permit, PermitDisposition::Success);
    assert_eq!(answered.retry, RetryResult::Recovered);
    assert_eq!(answered.fault, LaneFault::Healthy);
    assert_eq!(answered.reply, CallReply::PassThrough);

    let lost = ToolCallAttemptError::after_dispatch(ServiceError::Transport);
    let shared = finish_call_response(CallResult::Failed(lost), 1, SessionIsolation::Reuse);
    assert_eq!(shared.permit, PermitDisposition::Failure);
    assert_eq!(shared.fault, LaneFault::Down(UpstreamErrorClass::Transport));
    assert_eq!(
        shared.reply,
        CallReply::Bounded {
            phase: ToolCallFailurePhase::DispatchedUnknownOutcome,
            retryable: false
        }
    );
    let own = finish_call_response(CallResult::Failed(lost), 2, SessionIsolation::PerCall);
    assert_eq!(own.fault, LaneFault::Recorded(UpstreamErrorClass::Transport));
    assert_eq!(own.retry, RetryResult::Exhausted);

    let refused = ToolCallAttemptError::after_dispatch(ServiceError::Refused);
    let told = finish_call_response(CallResult::Failed(refused), 1, SessionIsolation::Reuse);
    assert_eq!(told.permit, PermitDisposition::Success);
    assert_eq!(told.reply, CallReply::UpstreamRefusal);

    let spoiled = finish_call_response(
        CallResult::ProcessingFailed { upstream_failure: true },
        1,
        SessionIsolation::Reuse,
    );
    assert_eq!(spoiled.fault, LaneFault::Down(UpstreamErrorClass::Protocol));
}

#[test]
fn attempts_are_classed_by_their_error() {
    let timeout = ServiceError::Timeout { timeout: Duration::from_secs(1) };
    assert_eq!(
        ToolCallAttemptError::after_dispatch(timeout).error_class(),
        UpstreamErrorClass::Timeout
    );
    assert_eq!(
        ToolCallAttemptError::after_dispatch(ServiceError::UnexpectedResponse).error_class(),
        UpstreamErrorClass::Protocol
    );
    assert_eq!(
        ToolCallFailurePhase::from_dial_error(DialError::Init),
        ToolCallFailurePhase::Initialize
    );
    assert_eq!(
        ToolCallFailurePhase::from_dial_error(DialError::Connect),
        ToolCallFailurePhase::Dial
    );
    assert!(!ToolCallFailurePhase::DispatchedUnknownOutcome.dispatch_proven_absent());
}

#[test]
fn calls_are_admitted_by_name_and_stay_out_of_removed_upstreams() {
    let mut m = manifest("mock", Transport::Http, None);
    m.tools = vec![classified("read", None)];
    let mut live = entry(m, Some(lane("2026-07-28")));
    assert!(admit_call("mock", "read", Some(&live), false).is_ok());
    let unknown = admit_call("mock", "read", None, false).unwrap_err();
    assert_eq!(unknown.message, "unknown upstream: mock");
    assert_eq!(unknown.kind, ErrorKind::InvalidParams);
    let stray = admit_call("mock", "write", Some(&live), false).unwrap_err();
    assert!(text_contains(stray.message.as_str(), "write"));
    live.removed = true;
    let leaving = admit_call("mock", "read", Some(&live), false).unwrap_err();
    assert_eq!(leaving.message, "upstream `mock` is being removed");
}

#[test]
fn a_shared_lane_dispatches_after_every_gate() {
    let mut m = manifest("mock", Transport::Http, None);
    m.tools = vec![classified("read", None)];
    let snapshot = m.dup();
    let held = entry(m, Some(lane("2025-11-25")));
    let mut flow = CallFlow::begin("mock", "read", "t", SessionIsolation::Reuse, false, true);
    assert_eq!(flow.lane_held(&held, 0, &snapshot, true), CallAction::CheckReview);
    assert_eq!(flow.review_decided(true), CallAction::CheckContract);
    let mut pool = UpstreamPool::new(policy());
    let conn = held.lanes[0].as_ref().unwrap();
    let admitted = contract_on(&snapshot, conn, &reads(CatalogLookup::NotAttached));
    assert_eq!(
        flow.contract_checked(
            &mut pool,
            &snapshot,
            conn,
            &reads(CatalogLookup::NotAttached),
            &admitted
        ),
        CallAction::Dispatch
    );

    let mut paused = CallFlow::begin("mock", "read", "t", SessionIsolation::Reuse, true, false);
    paused.lane_held(&held, 0, &snapshot, true);
    let CallAction::Refuse(refusal) = paused.review_decided(true) else {
        panic!("a legacy lane cannot take a continuation");
    };
    assert_eq!(refusal.permit, PermitDisposition::Neutral);
    assert!(text_contains(refusal.error.message.as_str(), "no longer speaks MCP 2026-07-28"));
}

#[test]
fn an_annotated_session_is_read_before_it_runs_anything() {
    let mut m = manifest("mock", Transport::Http, None);
    m.classification_mode = ClassificationMode::McpAnnotations;
    m.tools = vec![classified("read", Some("b"))];
    let snapshot = m.dup();
    let held = entry(m, Some(lane("2026-07-28")));
    let mut flow = CallFlow::begin("mock", "read", "t", SessionIsolation::Reuse, false, false);
    flow.lane_held(&held, 0, &snapshot, true);
    assert_eq!(flow.review_decided(true), CallAction::ReadSession);
    assert_eq!(flow.session_read(&snapshot, &vec![tool("read")]), CallAction::ObserveSession);
    assert_eq!(flow.session_observed(true), CallAction::CheckSessionReview);
    assert_eq!(flow.session_review_decided(true), CallAction::Dispatch);

    let mut changed = CallFlow::begin("mock", "read", "t", SessionIsolation::Reuse, false, false);
    changed.lane_held(&held, 0, &snapshot, true);
    changed.review_decided(true);
    let mut other = tool("read");
    other.behavior_hash = "another".to_owned();
    changed.session_read(&snapshot, &vec![other]);
    assert_eq!(changed.session_observed(true), CallAction::CheckSessionReview);
    let CallAction::Refuse(refusal) = changed.session_review_decided(true) else {
        panic!("a session runs what it advertises");
    };
    assert_eq!(refusal.fault, LaneFault::Recorded(UpstreamErrorClass::Protocol));
    assert_eq!(
        refusal.error.message,
        "upstream `mock` session advertises a different contract for `read` than the approved behavior"
    );
}

#[test]
fn a_lane_that_is_down_counts_against_the_upstream() {
    let mut m = manifest("mock", Transport::Http, None);
    m.tools = vec![classified("read", None)];
    let snapshot = m.dup();
    let down = entry(m, None);
    let mut flow = CallFlow::begin("mock", "read", "t", SessionIsolation::PerCall, false, false);
    let CallAction::Refuse(refusal) = flow.lane_held(&down, 0, &snapshot, true) else {
        panic!("nothing can be sent on a lane that is down");
    };
    assert_eq!(refusal.permit, PermitDisposition::Failure);
    assert_eq!(refusal.error.message, "upstream `mock` is not connected");
    assert_eq!(failed_outcome(refusal.error.message.as_str()), UpstreamOutcome::NotConnected);
    assert_eq!(failed_outcome("other"), UpstreamOutcome::Error);
    assert_eq!(answered_outcome(false), UpstreamOutcome::Served);
    assert_eq!(answered_outcome(true).as_str(), "error");
}

#[test]
fn a_per_call_session_is_reviewed_then_used_once() {
    let mut m = manifest("mock", Transport::Http, None);
    m.tools = vec![classified("read", None)];
    let snapshot = m.dup();
    let held = entry(m, Some(lane("2026-07-28")));
    let mut flow = CallFlow::begin("mock", "read", "t", SessionIsolation::PerCall, false, false);
    assert_eq!(flow.lane_held(&held, 0, &snapshot, true), CallAction::ObserveReviews);
    assert_eq!(flow.reviews_observed(true), CallAction::CheckReview);
    assert_eq!(flow.review_decided(true), CallAction::Execute);

    let mut run = PerCallExecution::begin(
        "mock",
        "read",
        "t",
        ClassificationMode::McpAnnotations,
        false,
        Some(at(5)),
        Some(Duration::from_secs(5)),
    );
    assert_eq!(run.dialed(), PerCallAction::ReadContract);
    assert_eq!(
        run.contract_read(&approved(), &vec![tool("read")], true, true),
        PerCallAction::CheckReview
    );
    assert_eq!(
        run.review_decided(true, at(1)),
        PerCallAction::Send { budget: Some(Duration::from_secs(4)) }
    );
    assert_eq!(
        run.answered(CallResult::Answered),
        PerCallAction::Finish { result: CallResult::Answered, attempts: 1 }
    );
}

#[test]
fn tier_a_upstreams_refuse_without_a_session() {
    let mut m = manifest("mock", Transport::Http, None);
    assert!(!should_consult_tier_a_session(AuthMethod::Oauth, &m));
    m.exchange = Some(ExchangeConfig { audience: "aud".to_owned(), scope: None });
    assert!(should_consult_tier_a_session(AuthMethod::Oauth, &m));
    assert!(!should_consult_tier_a_session(AuthMethod::ApiKey, &m));
    assert!(refuse_when_no_durable_session(&m, None, "mock", "user").is_ok());
    m.tier_a_required = true;
    let refused = refuse_when_no_durable_session(&m, None, "mock", "user").unwrap_err();
    assert_eq!(
        refused.message,
        "upstream `mock` requires Tier-A (durable upstream session); no session available for principal `user`. Have the user complete an OAuth login (waygate-as) before retrying."
    );
    assert!(refuse_when_no_durable_session(&m, Some(&"s".to_owned()), "mock", "user").is_ok());
    assert!(refuse_when_exchange_failed(&m, None, "mock", "user").is_err());
    assert!(refuse_when_exchange_failed(&m, Some(&"b".to_owned()), "mock", "user").is_ok());
}

#[test]
fn audiences_name_the_peer_or_the_server() {
    assert_eq!(identity_audience("mock", Some(&"https://peer".to_owned())), "https://peer");
    assert!(text_contains(identity_audience("mock", None).as_str(), "mock"));
}

#[test]
fn breaker_refusals_say_why() {
    assert!(text_contains(breaker_refusal("mock", BreakerError::Open).message.as_str(), "mock"));
    assert_ne!(
        breaker_refusal("mock", BreakerError::Open).message,
        breaker_refusal("mock", BreakerError::ProbeInFlight).message
    );
    assert_eq!(
        non_final_response("mock", "read").message,
        "upstream `mock` returned a non-final response for `read` although this dispatch declared no input capabilities"
    );
}

#[test]
fn a_session_that_cannot_be_read_takes_its_lane_down() {
    let mut m = manifest("mock", Transport::Http, None);
    m.classification_mode = ClassificationMode::McpAnnotations;
    m.tools = vec![classified("read", Some("b"))];
    let snapshot = m.dup();
    let held = entry(m, Some(lane("2026-07-28")));
    let mut flow = CallFlow::begin("mock", "read", "t", SessionIsolation::Reuse, false, false);
    flow.lane_held(&held, 0, &snapshot, true);
    flow.review_decided(true);
    let CallAction::Refuse(refusal) = flow.session_read_failed(UpstreamErrorClass::Timeout) else {
        panic!("nothing is sent on a session that does not answer");
    };
    assert_eq!(refusal.permit, PermitDisposition::Failure);
    assert_eq!(refusal.fault, LaneFault::Down(UpstreamErrorClass::Timeout));
    let ErrorData::UpstreamCallFailed { phase, retryable, attempts, trace_id } = refusal.error.data
    else {
        panic!("a failed read is bounded");
    };
    assert_eq!(phase, ToolCallFailurePhase::PreDispatch);
    assert_eq!((retryable, attempts, trace_id.as_str()), (false, 1, "t"));
}

#[test]
fn a_quarantine_or_an_edit_during_setup_refuses_the_call() {
    let mut m = manifest("mock", Transport::Http, None);
    m.tools = vec![classified("read", None)];
    let snapshot = m.dup();
    let mut held = entry(m, Some(lane("2026-07-28")));
    held.quarantined = vec!["read".to_owned()];
    let mut flow = CallFlow::begin("mock", "read", "t", SessionIsolation::Reuse, false, false);
    let CallAction::Refuse(refusal) = flow.lane_held(&held, 0, &snapshot, true) else {
        panic!("a quarantined tool takes no calls");
    };
    assert_eq!(refusal.permit, PermitDisposition::Neutral);
    assert_eq!(
        refusal.error.message,
        "upstream `mock` configuration or approved contract for `read` changed during call setup — retry the call"
    );
    let mut unrecorded =
        CallFlow::begin("mock", "read", "t", SessionIsolation::PerCall, false, false);
    unrecorded.lane_held(&held, 0, &snapshot, false);
    assert!(matches!(unrecorded.reviews_observed(false), CallAction::Refuse(_)));
    let mut swapped = CallFlow::begin("mock", "read", "t", SessionIsolation::Reuse, false, true);
    swapped.lane_held(&held, 0, &snapshot, false);
    swapped.review_decided(true);
    let mut pool = UpstreamPool::new(policy());
    let conn = held.lanes[0].as_ref().unwrap();
    let admitted = contract_on(&snapshot, conn, &reads(CatalogLookup::NotAttached));
    let mut edited = snapshot.dup();
    edited.tools[0].risk = RiskTier::High;
    let plain = reads(CatalogLookup::NotAttached);
    assert!(matches!(
        swapped.contract_checked(&mut pool, &edited, conn, &plain, &admitted),
        CallAction::Refuse(_)
    ));
}

#[test]
fn the_held_session_says_under_which_contract_a_call_runs() {
    let mut m = manifest("mock", Transport::Http, None);
    m.tools = vec![classified("read", None)];
    let read = "read".to_owned();
    let plain = reads(CatalogLookup::NotAttached);
    let conn = lane("2026-07-28");
    let admitted = contract_on(&m, &conn, &plain);
    let mut pool = UpstreamPool::new(policy()).with_authoritative_catalog();
    assert!(pool.admitted_contract_is_current("mock", &read, &m, &conn, &plain, &admitted));

    let mut other = lane("2026-07-28");
    other.tools[0].input_schema = "{\"type\":\"object\"}".to_owned();
    assert!(!pool.admitted_contract_is_current("mock", &read, &m, &other, &plain, &admitted));
    let mut bare = lane("2026-07-28");
    bare.tools.clear();
    assert!(!pool.admitted_contract_is_current("mock", &read, &m, &bare, &plain, &admitted));
    assert_eq!(pool.discovery_error_generation(), 0);

    let unread = reads(CatalogLookup::Failed);
    assert!(!pool.admitted_contract_is_current("mock", &read, &m, &conn, &unread, &admitted));
    assert_eq!(pool.discovery_error_generation(), 1);
    let policy = pool.catalog_policy;
    assert!(admitted_contract_is_current("mock", &read, &m, &conn, &plain, policy, &admitted));
    assert!(!admitted_contract_is_current("mock", &read, &m, &conn, &unread, policy, &admitted));
}

#[test]
fn unread_contracts_and_unsent_requests_are_retried_once() {
    let begin = |safe: bool| {
        PerCallExecution::begin(
            "mock",
            "read",
            "t",
            ClassificationMode::McpAnnotations,
            safe,
            None,
            None,
        )
    };
    let mut run = begin(true);
    run.dialed();
    assert_eq!(
        run.contract_read_failed(UpstreamErrorClass::Protocol, at(0)),
        PerCallAction::DialAgain
    );
    run.dialed();
    run.contract_read(&approved(), &vec![tool("read")], true, true);
    run.review_decided(true, at(0));
    let unsent = ToolCallAttemptError::before_dispatch(ServiceError::Transport);
    let PerCallAction::Finish { result: CallResult::Failed(error), attempts } =
        run.send_failed(unsent, at(0))
    else {
        panic!("one recovery is all there is");
    };
    assert_eq!(attempts, 2);
    assert!(error.phase.dispatch_proven_absent());

    let mut lost = begin(true);
    lost.dialed();
    lost.contract_read(&approved(), &vec![tool("read")], true, true);
    lost.review_decided(true, at(0));
    let unknown = ToolCallAttemptError::after_dispatch(ServiceError::Transport);
    assert!(matches!(
        lost.send_failed(unknown, at(0)),
        PerCallAction::Finish { attempts: 1, .. }
    ));

    for (recorded, allowed) in [(false, true), (true, false)] {
        let mut held_back = begin(false);
        held_back.dialed();
        assert!(matches!(
            held_back.contract_read(&approved(), &vec![tool("read")], recorded, allowed),
            PerCallAction::Fail { .. }
        ));
    }
    let mut differs = begin(false);
    differs.dialed();
    let mut other = tool("read");
    other.behavior_hash = "another".to_owned();
    let PerCallAction::Fail { error, class } =
        differs.contract_read(&approved(), &vec![other], true, true)
    else {
        panic!("an unapproved contract is not run");
    };
    assert_eq!(class, UpstreamErrorClass::Protocol);
    assert_eq!(
        error.message,
        "upstream `mock` per-call session advertises a different contract for `read` than the approved behavior"
    );
}
