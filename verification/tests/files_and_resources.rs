//! File transfers and resources.

use waygate_upstream::assoc::Assoc;
use waygate_upstream::binding::CatalogLookup;
use waygate_upstream::call::BreakerError;
use waygate_upstream::clock::{Duration, Instant, WallTime};
use waygate_upstream::discovery::{resolve_held, DiscoveryReads};
use waygate_upstream::dispatch::{LaneFault, PermitDisposition};
use waygate_upstream::entry::UpstreamEntry;
use waygate_upstream::error::{ErrorData, FileTransferReason};
use waygate_upstream::files::{
    admit_file_transfer, classify_refused_authorization, ensure_file_upload_contract_current,
    file_breaker_refusal, file_dial_failed, file_lane_held, file_transports,
    private_file_destination_addresses, settle_authorization, text_eq_ignore_case,
    AuthorizationResult, FileTransferNetwork,
};
use waygate_upstream::health::{DialError, UpstreamErrorClass};
use waygate_upstream::lane::{Connection, PinnedNetworkDestination};
use waygate_upstream::manifest::{
    ApprovalMode, ClassificationMode, ResourceClaim, RiskTier, SessionIsolation,
    ToolClassification, Transport, UpstreamManifest, UpstreamProtocol,
};
use waygate_upstream::pool::UpstreamPool;
use waygate_upstream::reconnect::{CredentialMaterialVersion, ReconnectPolicy};
use waygate_upstream::resources::{
    admit_resource_read, admit_resource_request, admit_session_read,
    bounded_resource_read_unsupported, resource_dial_failed, resource_lane_held,
    response_too_large, settle_resource, settle_session_read, text_begins_with,
    AdmittedResourceReadError, ResourceReadAdmission, ResourceReply, ResourceRequest,
    ResourceResult, SessionReadReply,
};
use waygate_upstream::tools::Tool;
use waygate_upstream::value::Value;

fn manifest(transport: Transport, url: Option<&str>) -> UpstreamManifest {
    UpstreamManifest {
        name: "printable".to_owned(),
        classification_mode: ClassificationMode::Manifest,
        approval_mode: ApprovalMode::PerCall,
        transport,
        protocol: UpstreamProtocol::Auto,
        url: url.map(str::to_owned),
        command: None,
        tools: Vec::new(),
        resources: Vec::new(),
        exchange: None,
        auth: None,
        mtls: None,
        tier_a_required: false,
        tier_c_peer: None,
        session: None,
    }
}

fn live_policy() -> ReconnectPolicy {
    ReconnectPolicy {
        base: Duration::from_secs(5),
        ceiling: Duration::from_secs(20),
        seed: 7,
        credential_key: [9; 32],
    }
}

fn tool(name: &str) -> Tool {
    Tool {
        name: name.to_owned(),
        presentation: String::new(),
        input_schema: "{}".to_owned(),
        output_schema: None,
        annotations: None,
        action_metadata: None,
        claims: None,
        schema_hash: "s".to_owned(),
        behavior_hash: "b".to_owned(),
        behavior_hash_sans_output_schema: "b".to_owned(),
        metadata_error: None,
    }
}

fn entry(manifest: UpstreamManifest) -> UpstreamEntry {
    let policy = live_policy();
    let mut asked = Assoc::new();
    asked.insert(
        "printable".to_owned(),
        (manifest, CredentialMaterialVersion { high: 0, low: 0 }),
    );
    let mut pool = UpstreamPool::from_manifests_disconnected(
        asked,
        policy,
        Instant { nanos: 0 },
        WallTime { unix_nanos: 0 },
    );
    pool.entries.remove("printable").unwrap()
}

fn pinned() -> PinnedNetworkDestination {
    PinnedNetworkDestination {
        host: "files.internal".to_owned(),
        addresses: vec!["10.0.0.8".to_owned()],
    }
}

#[test]
fn client_capability_advertises_http_only_for_a_cleartext_control_plane() {
    assert_eq!(file_transports(false), vec!["https".to_owned()]);
    assert_eq!(file_transports(true), vec!["https".to_owned(), "http".to_owned()]);
}

#[test]
fn upstream_method_not_found_surfaces_as_missing_native_support() {
    let method_not_found = rmcp::model::ErrorCode::METHOD_NOT_FOUND;
    let unsupported = classify_refused_authorization("printable", method_not_found.0);
    assert!(unsupported.message.contains("does not support native file transfer"));
    assert_eq!(unsupported.data.code(), Some("not_enabled"));

    let invalid_request = rmcp::model::ErrorCode::INVALID_REQUEST;
    let failed = classify_refused_authorization("printable", invalid_request.0);
    assert!(failed.message.contains("file authorization failed"));
    assert_eq!(failed.data.code(), Some("transfer_failed"));
}

#[test]
fn private_file_destination_is_limited_to_the_upstream_host() {
    let manifest = manifest(Transport::Http, Some("http://files.internal:3000/mcp"));
    let destination = pinned();
    assert_eq!(
        private_file_destination_addresses(
            &manifest,
            "https://files.internal:8443/output",
            Some(&destination),
        ),
        vec!["10.0.0.8".to_owned()]
    );
    assert!(private_file_destination_addresses(
        &manifest,
        "https://metadata.internal/output",
        Some(&destination),
    )
    .is_empty());
}

#[test]
fn stdio_upstream_keeps_its_existing_local_network_access() {
    let manifest = manifest(Transport::Stdio, None);
    assert!(private_file_destination_addresses(
        &manifest,
        "https://127.0.0.1:8443/output",
        None,
    )
    .is_empty());
}

#[test]
fn hosts_are_compared_as_the_url_standard_reads_them() {
    let manifest = manifest(Transport::Http, None);
    let destination = pinned();
    // The parser lower-cases the host, drops credentials and resolves escapes.
    assert_eq!(
        private_file_destination_addresses(
            &manifest,
            "https://user@FILES.Internal:8443/a",
            Some(&destination),
        ),
        vec!["10.0.0.8".to_owned()]
    );
    assert_eq!(
        private_file_destination_addresses(
            &manifest,
            "https://files%2Einternal/a",
            Some(&destination),
        ),
        vec!["10.0.0.8".to_owned()]
    );
    assert!(
        private_file_destination_addresses(&manifest, "not a url", Some(&destination)).is_empty()
    );
    assert!(private_file_destination_addresses(
        &manifest,
        "https://evil/files.internal",
        Some(&destination)
    )
    .is_empty());
    assert!(text_eq_ignore_case("Files.Internal", "files.internal"));
    assert!(!text_eq_ignore_case("files", "files.internal"));
}

#[test]
fn authorizations_choose_the_network_of_the_transfer() {
    let m = manifest(Transport::Http, Some("http://files.internal:3000/mcp"));
    let destination = pinned();
    let granted = settle_authorization(
        "printable",
        SessionIsolation::Reuse,
        AuthorizationResult::Authorized { url: "https://files.internal/out".to_owned() },
        &m,
        &m,
        Some(&destination),
        true,
    );
    assert_eq!(granted.permit, PermitDisposition::Success);
    assert_eq!(
        granted.reply,
        Ok(FileTransferNetwork::Pinned {
            addresses: vec!["10.0.0.8".to_owned()],
            cleartext_control_plane: true
        })
    );
    let mut moved = m.dup();
    moved.url = Some("http://elsewhere/mcp".to_owned());
    let changed = settle_authorization(
        "printable",
        SessionIsolation::Reuse,
        AuthorizationResult::Authorized { url: "https://files.internal/out".to_owned() },
        &m,
        &moved,
        Some(&destination),
        true,
    );
    assert!(changed.reply.is_err());
    let late = settle_authorization(
        "printable",
        SessionIsolation::Reuse,
        AuthorizationResult::TimedOut { limit: Duration::from_secs(30) },
        &m,
        &m,
        None,
        false,
    );
    assert_eq!(late.permit, PermitDisposition::Failure);
    assert_eq!(late.fault, LaneFault::Down(UpstreamErrorClass::Timeout));
    assert_eq!(
        late.reply.unwrap_err().message,
        "upstream `printable` file authorization timed out after 30s"
    );
    let failed = settle_authorization(
        "printable",
        SessionIsolation::PerCall,
        AuthorizationResult::Failed { detail: "closed".to_owned() },
        &m,
        &m,
        None,
        false,
    );
    assert_eq!(
        failed.reply.unwrap_err().data,
        ErrorData::FileTransfer(FileTransferReason::TransferFailed)
    );
}

#[test]
fn transfers_need_a_registered_upstream() {
    assert!(admit_file_transfer("printable", None).is_err());
    let live = entry(manifest(Transport::Http, Some("http://h/")));
    assert!(admit_file_transfer("printable", Some(&live)).is_ok());
}

#[test]
fn non_http_bounded_reads_name_the_stable_error_and_transport() {
    for (transport, expected) in [(Transport::Sse, "sse"), (Transport::Stdio, "stdio")] {
        let error = bounded_resource_read_unsupported(transport);
        assert_eq!(error.data.code(), Some("bounded_resource_read_unsupported"));
        let ErrorData::BoundedReadUnsupported { transport: named } = error.data else {
            panic!("stable bounded-read error data");
        };
        assert_eq!(waygate_upstream::resources::resource_transport_name(named), expected);
    }
}

#[test]
fn reads_need_the_routing_they_were_authorized_under() {
    let mut m = manifest(Transport::Http, Some("http://h/"));
    let claim = ResourceClaim { uri_prefix: "db://".to_owned(), risk: RiskTier::Low };
    m.resources = vec![claim.dup()];
    let live = entry(m);
    let admitted = ResourceReadAdmission {
        generation: 3,
        server: "printable".to_owned(),
        claim: Some(claim),
    };
    assert_eq!(
        admit_resource_read(&admitted, "printable", 3, Some(&live), "db://x", true),
        Ok(())
    );
    assert_eq!(
        admit_resource_read(&admitted, "printable", 4, Some(&live), "db://x", true),
        Err(AdmittedResourceReadError::RoutingChanged)
    );
    assert_eq!(
        admit_resource_read(&admitted, "printable", 3, Some(&live), "file://x", true),
        Err(AdmittedResourceReadError::RoutingChanged)
    );
    assert!(matches!(
        admit_resource_read(&admitted, "printable", 3, None, "db://x", true),
        Err(AdmittedResourceReadError::Upstream(_))
    ));
    let unclaimed = ResourceReadAdmission {
        generation: 3,
        server: "printable".to_owned(),
        claim: None,
    };
    assert_eq!(
        admit_resource_read(&unclaimed, "printable", 3, Some(&live), "db://x", false),
        Err(AdmittedResourceReadError::RoutingChanged)
    );
    let sse = entry(manifest(Transport::Sse, Some("http://h/")));
    assert_eq!(
        admit_resource_read(&unclaimed, "printable", 3, Some(&sse), "db://x", true),
        Err(AdmittedResourceReadError::BoundedUnsupported { transport: Transport::Sse })
    );
    assert!(text_begins_with("db://x", "db://"));
    assert!(!text_begins_with("db", "db://"));
}

#[test]
fn resource_requests_are_settled_like_calls() {
    let answered = settle_resource("printable", SessionIsolation::Reuse, ResourceResult::Answered);
    assert_eq!(answered.reply, ResourceReply::PassThrough);
    let late = settle_resource(
        "printable",
        SessionIsolation::Reuse,
        ResourceResult::TimedOut { limit: Duration::from_secs(300) },
    );
    assert_eq!(late.fault, LaneFault::Down(UpstreamErrorClass::Timeout));
    let ResourceReply::Error(error) = late.reply else {
        panic!("a late answer is an error");
    };
    assert_eq!(
        error.message,
        "upstream `printable` resource request timed out after 300s"
    );
    let large = settle_resource(
        "printable",
        SessionIsolation::Reuse,
        ResourceResult::TooLarge { limit_bytes: 10 },
    );
    assert_eq!(large.permit, PermitDisposition::Success);
    assert_eq!(large.reply, ResourceReply::TooLarge { limit_bytes: 10 });
    let too_large = response_too_large(1024, "limit");
    assert_eq!(
        too_large.message,
        "upstream response exceeded the 1024-byte caller materialization budget"
    );
    assert_eq!(too_large.data.code(), Some("limit"));
    assert!(admit_resource_request("printable", None, ResourceRequest::List).is_err());
}

#[test]
fn limited_reads_need_a_transport_that_can_bound_them() {
    let limited = ResourceRequest::Read { limit_bytes: Some(4096) };
    assert_eq!(limited.response_materialization_limit(), Some(4096));
    assert_eq!(ResourceRequest::ListTemplates.response_materialization_limit(), None);
    let unlimited = ResourceRequest::Read { limit_bytes: None };
    assert_eq!(unlimited.response_materialization_limit(), None);
    let http = entry(manifest(Transport::Http, Some("http://h/")));
    assert!(admit_resource_request("printable", Some(&http), limited).is_ok());
    let sse = entry(manifest(Transport::Sse, Some("http://h/")));
    assert!(admit_resource_request("printable", Some(&sse), unlimited).is_ok());
    assert_eq!(
        admit_resource_request("printable", Some(&sse), limited).unwrap_err(),
        bounded_resource_read_unsupported(Transport::Sse)
    );
    let mut delegated = manifest(Transport::Http, Some("http://h/"));
    delegated.tier_a_required = true;
    assert_eq!(
        admit_resource_request("printable", Some(&entry(delegated)), ResourceRequest::List)
            .unwrap_err()
            .message,
        "upstream `printable` requires delegated identity that MCP resource forwarding does not support"
    );
}

#[test]
fn reads_on_a_calls_own_session_are_answered_for_its_processing() {
    assert!(admit_session_read(true, true).is_ok());
    assert!(admit_session_read(false, false).is_ok());
    let refused = admit_session_read(true, false).unwrap_err();
    assert_eq!(
        refused.message,
        "bounded retained-response reads require streamable HTTP transport"
    );
    assert_eq!(refused.data, ErrorData::BoundedSessionReadUnsupported);
    assert_eq!(refused.data.code(), Some("bounded_resource_read_unsupported"));
    assert_eq!(
        settle_session_read("printable", ResourceResult::Answered, "limit"),
        SessionReadReply::PassThrough
    );
    assert_eq!(
        settle_session_read("printable", ResourceResult::Refused, "limit"),
        SessionReadReply::UpstreamRefusal
    );
    assert_eq!(
        settle_session_read("printable", ResourceResult::TooLarge { limit_bytes: 9 }, "limit"),
        SessionReadReply::Refused(response_too_large(9, "limit"))
    );
    let limit = Duration::from_secs(30);
    assert_eq!(
        settle_session_read("printable", ResourceResult::TimedOut { limit }, "limit"),
        SessionReadReply::Broken(
            "upstream `printable` retained-resource request timed out after 30s".to_owned()
        )
    );
    let detail = "gone".to_owned();
    assert_eq!(
        settle_session_read("printable", ResourceResult::Failed { detail }, "limit"),
        SessionReadReply::Broken("upstream `printable` retained-resource request: gone".to_owned())
    );
}

fn lane() -> Connection {
    Connection {
        session: 0,
        tools: Vec::new(),
        live_tools: Vec::new(),
        negotiated_protocol: None,
        resource_capability_advertised: false,
        cleartext_control_plane: false,
        network_destination: None,
        ttl_hint_ms: None,
        dialed_at: Instant { nanos: 0 },
        rejected_output_schemas: Vec::new(),
        unregisterable_input_schemas: Vec::new(),
    }
}

#[test]
fn held_lanes_are_checked_before_a_request_goes_out() {
    let m = manifest(Transport::Http, Some("http://h/"));
    let mut live = entry(m.dup());
    let down = resource_lane_held("printable", &live, 0, &m).unwrap_err();
    assert_eq!(down.permit, PermitDisposition::Failure);
    assert_eq!(down.error.message, "upstream `printable` is not connected");
    assert!(file_lane_held("printable", &live, 0, &m).is_err());
    live.lanes = vec![Some(lane())];
    assert_eq!(
        resource_lane_held("printable", &live, 0, &m).unwrap(),
        SessionIsolation::PerCall
    );
    assert_eq!(
        file_lane_held("printable", &live, 0, &m).unwrap(),
        SessionIsolation::PerCall
    );
    let mut moved = m.dup();
    moved.url = Some("http://elsewhere/".to_owned());
    let changed = resource_lane_held("printable", &live, 0, &moved).unwrap_err();
    assert_eq!(changed.permit, PermitDisposition::Neutral);
    assert_eq!(
        changed.error.message,
        "upstream `printable` connection shape or identity changed during resource request setup — retry the request"
    );
    live.removed = true;
    assert_eq!(
        file_lane_held("printable", &live, 0, &m).unwrap_err().error.message,
        "upstream `printable` is being removed"
    );
}

#[test]
fn failed_dials_and_open_circuits_have_their_answers() {
    let dial = resource_dial_failed("printable", DialError::ResolveNetwork, "no such host");
    assert_eq!(dial.fault, LaneFault::Recorded(UpstreamErrorClass::Dns));
    assert_eq!(
        dial.error.message,
        "upstream `printable` resource-session dial failed: no such host"
    );
    let file = file_dial_failed("printable", DialError::Connect);
    assert_eq!(
        file.error.message,
        "upstream `printable` file session could not be established"
    );
    assert_eq!(
        file_breaker_refusal("printable", BreakerError::Open).message,
        "upstream `printable` circuit open"
    );
    assert_eq!(
        file_breaker_refusal("printable", BreakerError::ProbeInFlight).data,
        ErrorData::FileTransfer(FileTransferReason::TemporarilyUnavailable)
    );
}

#[test]
fn uploads_are_bound_to_the_contract_they_were_admitted_under() {
    let mut m = manifest(Transport::Http, Some("http://h/"));
    m.tools = vec![ToolClassification {
        name: "put".to_owned(),
        risk: RiskTier::Low,
        side_effects: true,
        pii: false,
        approved_behavior_hash: None,
        discriminator: None,
        operations: Vec::new(),
    }];
    let live = entry(m.dup());
    let mut pool = UpstreamPool::new(live_policy());
    let put = "put".to_owned();
    let plain = DiscoveryReads {
        review_allows: true,
        lookup: CatalogLookup::NotAttached,
        before: None,
        after: None,
        version_hash: None,
    };
    let admitted = resolve_held("printable", &put, &m, &lane(), &plain, pool.catalog_policy)
        .contract_identity()
        .unwrap();
    let mut other = lane();
    other.tools = vec![tool("put")];
    let mut check = |tool: &str, conn: &Connection| {
        let tool = tool.to_owned();
        ensure_file_upload_contract_current(
            &mut pool, "printable", &tool, &m, &live, conn, &plain, &admitted,
        )
    };
    assert_eq!(check("put", &lane()), Ok(()));
    assert!(check("put", &other).is_err());
    let stray = check("stray", &lane()).unwrap_err();
    assert_eq!(
        stray.data,
        ErrorData::FileTransfer(FileTransferReason::TemporarilyUnavailable)
    );
}
