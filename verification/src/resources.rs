//! Native resource requests over the pool.

use vstd::prelude::*;

use crate::assoc::Assoc;
use crate::call::{neutral, CallRefusal};
use crate::clock::{Duration, NANOS_PER_SEC};
use crate::dispatch::{LaneFault, PermitDisposition};
use crate::entry::UpstreamEntry;
use crate::error::{
    about, being_removed, not_connected, plain, unknown_upstream, ErrorData, ErrorKind, PoolError,
};
use crate::health::{DialError, UpstreamErrorClass};
use crate::manifest::{Claim, ResourceClaim, SessionIsolation, Transport, UpstreamManifest};
use crate::names::{chars_of, sort_names, sorted, text_eq};
use crate::reload::Registry;
use crate::shape::{
    manifest_supports_resource_operations, redial_committed_fields_eq, resolve_isolation,
    spec_resolve_isolation,
};
use crate::text::{decimal, decimal_digits, join3, join4, join5};
use crate::value::Value;

verus! {

pub open spec fn transport_name(transport: Transport) -> Seq<char> {
    match transport {
        Transport::Http => "http"@,
        Transport::Sse => "sse"@,
        Transport::Stdio => "stdio"@,
    }
}

pub fn resource_transport_name(transport: Transport) -> (r: &'static str)
    ensures
        r@ == transport_name(transport),
{
    match transport {
        Transport::Http => "http",
        Transport::Sse => "sse",
        Transport::Stdio => "stdio",
    }
}

/// The answer says that this transport cannot bound a read.
pub open spec fn says_bounded_unsupported(error: PoolError, transport: Transport) -> bool {
    &&& error.kind == ErrorKind::Internal
    &&& error.message@ == "bounded resource reads are unsupported for "@ + transport_name(transport)
        + " transport"@
    &&& error.data == (ErrorData::BoundedReadUnsupported { transport })
}

/// The answer to a bounded read over a transport that cannot bound it.
pub fn bounded_resource_read_unsupported(transport: Transport) -> (r: PoolError)
    ensures
        says_bounded_unsupported(r, transport),
{
    PoolError {
        kind: ErrorKind::Internal,
        message: join3(
            "bounded resource reads are unsupported for ",
            resource_transport_name(transport),
            " transport",
        ),
        data: ErrorData::BoundedReadUnsupported { transport },
    }
}

/// The answer says that a result exceeds what the caller can take.
pub open spec fn says_too_large(error: PoolError, limit_bytes: u64, code: Seq<char>) -> bool {
    &&& error.kind == ErrorKind::Internal
    &&& error.message@ == "upstream response exceeded the "@ + decimal_digits(limit_bytes as nat)
        + "-byte caller materialization budget"@
    &&& error.data matches ErrorData::ResponseTooLarge { code: told } && told@ == code
}

/// The answer to a read whose result exceeds what the caller can take, under the
/// code by which the caller knows that case.
pub fn response_too_large(limit_bytes: u64, code: &str) -> (r: PoolError)
    ensures
        says_too_large(r, limit_bytes, code@),
{
    let limit = decimal(limit_bytes as u128);
    PoolError {
        kind: ErrorKind::Internal,
        message: join3(
            "upstream response exceeded the ",
            limit.as_str(),
            "-byte caller materialization budget",
        ),
        data: ErrorData::ResponseTooLarge { code: code.to_owned() },
    }
}

/// A request for resources, with the limit that a read puts on its answer.
#[derive(Clone, Copy, Debug, PartialEq, Eq, Structural)]
pub enum ResourceRequest {
    List,
    ListTemplates,
    Read { limit_bytes: Option<u64> },
}

impl ResourceRequest {
    /// The size the answer may have, where the request limits it.
    pub open spec fn limit(self) -> Option<usize> {
        match self {
            ResourceRequest::Read { limit_bytes: Some(limit) } => if limit <= usize::MAX {
                Some(limit as usize)
            } else {
                None
            },
            _ => None,
        }
    }

    /// The size the answer may have. Lists are not limited, and neither is a read
    /// whose limit no answer could reach.
    pub fn response_materialization_limit(&self) -> (r: Option<usize>)
        ensures
            r == self.limit(),
    {
        match *self {
            ResourceRequest::Read { limit_bytes: Some(limit) } => {
                if limit <= usize::MAX as u64 {
                    Some(limit as usize)
                } else {
                    None
                }
            },
            _ => None,
        }
    }
}

/// Admit a resource request: the upstream is registered and stays, it can bound
/// the read where a bound is asked for, and it needs no delegated identity,
/// which resource forwarding does not carry.
pub fn admit_resource_request(
    server: &str,
    entry: Option<&UpstreamEntry>,
    request: ResourceRequest,
) -> (r: Result<(), PoolError>)
    ensures
        match (entry, r) {
            (None, Err(error)) => plain(
                error,
                ErrorKind::InvalidParams,
                "unknown upstream: "@ + server@,
            ),
            (Some(entry), Err(error)) => {
                let manifest = entry.manifest.deep_view();
                if entry.removed {
                    plain(error, ErrorKind::InvalidParams, about(server@, "` is being removed"@))
                } else if request.limit() is Some && manifest.transport != Transport::Http {
                    says_bounded_unsupported(error, manifest.transport)
                } else {
                    &&& !manifest.serves_resources()
                    &&& plain(
                        error,
                        ErrorKind::Internal,
                        about(
                            server@,
                            "` requires delegated identity that MCP resource forwarding does not support"@,
                        ),
                    )
                }
            },
            (Some(entry), Ok(_)) => {
                &&& !entry.removed
                &&& request.limit() is Some ==> entry.manifest.deep_view().transport == Transport::Http
                &&& entry.manifest.deep_view().serves_resources()
            },
            (None, Ok(_)) => false,
        },
{
    let entry = match entry {
        Some(entry) => entry,
        None => return Err(unknown_upstream(server)),
    };
    if entry.removed {
        return Err(being_removed(server));
    }
    if request.response_materialization_limit().is_some() && entry.manifest.transport != Transport::Http {
        return Err(bounded_resource_read_unsupported(entry.manifest.transport));
    }
    if !manifest_supports_resource_operations(&entry.manifest) {
        return Err(
            PoolError {
                kind: ErrorKind::Internal,
                message: join3(
                    "upstream `",
                    server,
                    "` requires delegated identity that MCP resource forwarding does not support",
                ),
                data: ErrorData::Bare,
            },
        );
    }
    Ok(())
}

/// Look at the lane that was checked out, while it cannot be exchanged. The
/// request was set up under `snapshot`; the answer is how to run it.
pub fn resource_lane_held(
    server: &str,
    entry: &UpstreamEntry,
    lane: usize,
    snapshot: &UpstreamManifest,
) -> (r: Result<SessionIsolation, CallRefusal>)
    requires
        lane < entry.lanes.len(),
    ensures
        match r {
            Ok(isolation) => {
                &&& entry.lanes@[lane as int] is Some
                &&& !entry.removed
                &&& snapshot.deep_view().committed() == entry.manifest.deep_view().committed()
                &&& isolation == spec_resolve_isolation(snapshot.deep_view())
            },
            Err(refusal) => if entry.lanes@[lane as int] is None {
                &&& refusal.permit == PermitDisposition::Failure
                &&& refusal.fault == LaneFault::Recorded(UpstreamErrorClass::Transport)
                &&& plain(
                    refusal.error,
                    ErrorKind::Internal,
                    about(server@, "` is not connected"@),
                )
            } else if entry.removed {
                &&& neutral(refusal)
                &&& plain(
                    refusal.error,
                    ErrorKind::InvalidParams,
                    about(server@, "` is being removed"@),
                )
            } else {
                &&& snapshot.deep_view().committed() != entry.manifest.deep_view().committed()
                &&& neutral(refusal)
                &&& plain(
                    refusal.error,
                    ErrorKind::Internal,
                    about(
                        server@,
                        "` connection shape or identity changed during resource request setup — retry the request"@,
                    ),
                )
            },
        },
{
    if entry.lanes[lane].is_none() {
        return Err(
            CallRefusal {
                permit: PermitDisposition::Failure,
                fault: LaneFault::Recorded(UpstreamErrorClass::Transport),
                error: not_connected(server),
            },
        );
    }
    if entry.removed {
        return Err(
            CallRefusal {
                permit: PermitDisposition::Neutral,
                fault: LaneFault::Healthy,
                error: being_removed(server),
            },
        );
    }
    if !redial_committed_fields_eq(snapshot, &entry.manifest) {
        return Err(
            CallRefusal {
                permit: PermitDisposition::Neutral,
                fault: LaneFault::Healthy,
                error: PoolError {
                    kind: ErrorKind::Internal,
                    message: join3(
                        "upstream `",
                        server,
                        "` connection shape or identity changed during resource request setup — retry the request",
                    ),
                    data: ErrorData::Bare,
                },
            },
        );
    }
    Ok(resolve_isolation(snapshot))
}

/// The per-call session for a resource request could not be dialed.
pub fn resource_dial_failed(server: &str, error: DialError, detail: &str) -> (r: CallRefusal)
    ensures
        r.permit == PermitDisposition::Failure,
        r.fault == LaneFault::Recorded(UpstreamErrorClass::spec_from_dial_error(error)),
        plain(
            r.error,
            ErrorKind::Internal,
            about(server@, "` resource-session dial failed: "@) + detail@,
        ),
{
    CallRefusal {
        permit: PermitDisposition::Failure,
        fault: LaneFault::Recorded(UpstreamErrorClass::from_dial_error(error)),
        error: PoolError {
            kind: ErrorKind::Internal,
            message: join4("upstream `", server, "` resource-session dial failed: ", detail),
            data: ErrorData::Bare,
        },
    }
}

/// How a resource request that was sent came out.
#[derive(Debug, PartialEq, Eq)]
pub enum ResourceResult {
    Answered,
    /// The upstream answered with an error of its own.
    Refused,
    /// The answer exceeded what the caller can take.
    TooLarge { limit_bytes: u64 },
    TimedOut { limit: Duration },
    Failed { detail: String },
}

/// What is handed to the caller.
#[derive(Debug, PartialEq, Eq)]
pub enum ResourceReply {
    /// The answer, as it is.
    PassThrough,
    /// The upstream's own refusal, as it is.
    UpstreamRefusal,
    TooLarge { limit_bytes: u64 },
    Error(PoolError),
}

/// How a resource request is settled.
#[derive(Debug, PartialEq, Eq)]
pub struct ResourceSettlement {
    pub permit: PermitDisposition,
    pub fault: LaneFault,
    pub reply: ResourceReply,
}

/// A failure of this class, on the lane that was used.
pub open spec fn fault_on(isolation: SessionIsolation, class: UpstreamErrorClass) -> LaneFault {
    match isolation {
        SessionIsolation::Reuse => LaneFault::Down(class),
        SessionIsolation::PerCall => LaneFault::Recorded(class),
    }
}

pub fn lane_fault(isolation: SessionIsolation, class: UpstreamErrorClass) -> (r: LaneFault)
    ensures
        r == fault_on(isolation, class),
{
    match isolation {
        SessionIsolation::Reuse => LaneFault::Down(class),
        SessionIsolation::PerCall => LaneFault::Recorded(class),
    }
}

/// Settle a resource request. Everything but a timeout and a broken transport
/// shows that the upstream is alive.
pub fn settle_resource(server: &str, isolation: SessionIsolation, result: ResourceResult) -> (r:
    ResourceSettlement)
    ensures
        match result {
            ResourceResult::Answered => r.permit == PermitDisposition::Success && r.fault
                == LaneFault::Healthy && r.reply is PassThrough,
            ResourceResult::Refused => r.permit == PermitDisposition::Success && r.fault
                == LaneFault::Healthy && r.reply is UpstreamRefusal,
            ResourceResult::TooLarge { limit_bytes } => r.permit == PermitDisposition::Success
                && r.fault == LaneFault::Healthy && r.reply == (ResourceReply::TooLarge {
                limit_bytes,
            }),
            ResourceResult::TimedOut { limit } => {
                &&& r.permit == PermitDisposition::Failure
                &&& r.fault == fault_on(isolation, UpstreamErrorClass::Timeout)
                &&& r.reply is Error
                &&& plain(
                    r.reply->Error_0,
                    ErrorKind::Internal,
                    "upstream `"@ + server@ + "` resource request timed out after "@
                        + decimal_digits((limit.nanos / NANOS_PER_SEC) as nat) + "s"@,
                )
            },
            ResourceResult::Failed { detail } => {
                &&& r.permit == PermitDisposition::Failure
                &&& r.fault == fault_on(isolation, UpstreamErrorClass::Transport)
                &&& r.reply is Error
                &&& plain(
                    r.reply->Error_0,
                    ErrorKind::Internal,
                    about(server@, "` resource request: "@) + detail@,
                )
            },
        },
{
    match result {
        ResourceResult::Answered => ResourceSettlement {
            permit: PermitDisposition::Success,
            fault: LaneFault::Healthy,
            reply: ResourceReply::PassThrough,
        },
        ResourceResult::Refused => ResourceSettlement {
            permit: PermitDisposition::Success,
            fault: LaneFault::Healthy,
            reply: ResourceReply::UpstreamRefusal,
        },
        ResourceResult::TooLarge { limit_bytes } => ResourceSettlement {
            permit: PermitDisposition::Success,
            fault: LaneFault::Healthy,
            reply: ResourceReply::TooLarge { limit_bytes },
        },
        ResourceResult::TimedOut { limit } => {
            let secs = decimal(limit.nanos / NANOS_PER_SEC);
            ResourceSettlement {
                permit: PermitDisposition::Failure,
                fault: lane_fault(isolation, UpstreamErrorClass::Timeout),
                reply: ResourceReply::Error(
                    PoolError {
                        kind: ErrorKind::Internal,
                        message: join5(
                            "upstream `",
                            server,
                            "` resource request timed out after ",
                            secs.as_str(),
                            "s",
                        ),
                        data: ErrorData::Bare,
                    },
                ),
            }
        },
        ResourceResult::Failed { detail } => ResourceSettlement {
            permit: PermitDisposition::Failure,
            fault: lane_fault(isolation, UpstreamErrorClass::Transport),
            reply: ResourceReply::Error(
                PoolError {
                    kind: ErrorKind::Internal,
                    message: join4("upstream `", server, "` resource request: ", detail.as_str()),
                    data: ErrorData::Bare,
                },
            ),
        },
    }
}

/// Admit a read on a call's own session: a bounded one needs a transport that
/// can bound it.
pub fn admit_session_read(bounded: bool, bounded_reads_supported: bool) -> (r: Result<
    (),
    PoolError,
>)
    ensures
        r is Ok <==> !bounded || bounded_reads_supported,
        r is Err ==> {
            &&& r->Err_0.kind == ErrorKind::Internal
            &&& r->Err_0.message@
                == "bounded retained-response reads require streamable HTTP transport"@
            &&& r->Err_0.data == ErrorData::BoundedSessionReadUnsupported
        },
{
    if bounded && !bounded_reads_supported {
        return Err(
            PoolError {
                kind: ErrorKind::Internal,
                message: "bounded retained-response reads require streamable HTTP transport".to_owned(),
                data: ErrorData::BoundedSessionReadUnsupported,
            },
        );
    }
    Ok(())
}

/// What the processing of a call's answer is told of a read on that call's own
/// session.
#[derive(Debug, PartialEq, Eq)]
pub enum SessionReadReply {
    /// The resource, as it is.
    PassThrough,
    /// The upstream's own refusal, as it is.
    UpstreamRefusal,
    Refused(PoolError),
    /// The session failed the read, for this reason.
    Broken(String),
}

/// Settle a read on a call's own session. `code` is the one by which the caller
/// knows a result that is too large.
pub fn settle_session_read(server: &str, result: ResourceResult, code: &str) -> (r:
    SessionReadReply)
    ensures
        match result {
            ResourceResult::Answered => r is PassThrough,
            ResourceResult::Refused => r is UpstreamRefusal,
            ResourceResult::TooLarge { limit_bytes } => r is Refused && says_too_large(
                r->Refused_0,
                limit_bytes,
                code@,
            ),
            ResourceResult::TimedOut { limit } => r is Broken && r->Broken_0@ == "upstream `"@
                + server@ + "` retained-resource request timed out after "@ + decimal_digits(
                (limit.nanos / NANOS_PER_SEC) as nat,
            ) + "s"@,
            ResourceResult::Failed { detail } => r is Broken && r->Broken_0@ == about(
                server@,
                "` retained-resource request: "@,
            ) + detail@,
        },
{
    match result {
        ResourceResult::Answered => SessionReadReply::PassThrough,
        ResourceResult::Refused => SessionReadReply::UpstreamRefusal,
        ResourceResult::TooLarge { limit_bytes } => SessionReadReply::Refused(
            response_too_large(limit_bytes, code),
        ),
        ResourceResult::TimedOut { limit } => {
            let secs = decimal(limit.nanos / NANOS_PER_SEC);
            SessionReadReply::Broken(
                join5(
                    "upstream `",
                    server,
                    "` retained-resource request timed out after ",
                    secs.as_str(),
                    "s",
                ),
            )
        },
        ResourceResult::Failed { detail } => SessionReadReply::Broken(
            join4("upstream `", server, "` retained-resource request: ", detail.as_str()),
        ),
    }
}

/// A text begins with another.
pub open spec fn begins_with(text: Seq<char>, prefix: Seq<char>) -> bool {
    prefix.len() <= text.len() && text.take(prefix.len() as int) == prefix
}

/// Whether a text begins with another.
pub fn text_begins_with(text: &str, prefix: &str) -> (b: bool)
    ensures
        b == begins_with(text@, prefix@),
{
    let all = chars_of(text);
    let head = chars_of(prefix);
    if head.len() > all.len() {
        return false;
    }
    let mut i: usize = 0;
    while i < head.len()
        invariant
            i <= head.len(),
            head.len() <= all.len(),
            all@ == text@,
            head@ == prefix@,
            forall|j: int| 0 <= j < i ==> all@[j] == head@[j],
        decreases head.len() - i,
    {
        if all[i] != head[i] {
            proof {
                assert(text@.take(prefix@.len() as int)[i as int] == text@[i as int]);
            }
            return false;
        }
        i = i + 1;
    }
    proof {
        assert(text@.take(prefix@.len() as int) =~= prefix@);
    }
    true
}

/// What a resource read was authorized against.
#[derive(Debug, PartialEq, Eq)]
pub struct ResourceReadAdmission {
    /// Routing generation of the authorization.
    pub generation: u64,
    pub server: String,
    /// The claim that covered the URI, or none for a server without claims.
    pub claim: Option<ResourceClaim>,
}

/// The ownership under which a read was authorized is still in force: the same
/// claim of the same risk covers the URI, or there is still no claim at all.
pub open spec fn ownership_holds(claim: Option<Claim>, claims: Seq<Claim>, uri: Seq<char>) -> bool {
    match claim {
        Some(admitted) => claims.contains(admitted) && begins_with(uri, admitted.uri_prefix),
        None => claims.len() == 0,
    }
}

/// The read was authorized for this server under the routing in force.
pub open spec fn routed(
    admitted: ResourceReadAdmission,
    server: Seq<char>,
    current_generation: u64,
) -> bool {
    admitted.generation == current_generation && admitted.server@ == server
}

/// Why an authorized read is refused.
#[derive(Debug, PartialEq, Eq)]
pub enum AdmittedResourceReadError {
    /// Resource routing moved on since the authorization.
    RoutingChanged,
    /// The transport cannot bound the read.
    BoundedUnsupported { transport: Transport },
    Upstream(PoolError),
}

/// Check an authorized read against the routing now in force.
pub fn admit_resource_read(
    admitted: &ResourceReadAdmission,
    server: &str,
    current_generation: u64,
    entry: Option<&UpstreamEntry>,
    uri: &str,
    bounded: bool,
) -> (r: Result<(), AdmittedResourceReadError>)
    ensures
        ({
            let routed = routed(*admitted, server@, current_generation);
            match r {
                Ok(_) => {
                    &&& routed
                    &&& entry is Some
                    &&& ownership_holds(
                        admitted.claim.deep_view(),
                        entry->0.manifest.deep_view().resources,
                        uri@,
                    )
                    &&& bounded ==> entry->0.manifest.transport == Transport::Http
                },
                Err(AdmittedResourceReadError::RoutingChanged) => !routed || (entry is Some
                    && !ownership_holds(
                    admitted.claim.deep_view(),
                    entry->0.manifest.deep_view().resources,
                    uri@,
                )),
                Err(AdmittedResourceReadError::Upstream(error)) => routed && entry is None && plain(
                    error,
                    ErrorKind::InvalidParams,
                    "unknown upstream: "@ + server@,
                ),
                Err(AdmittedResourceReadError::BoundedUnsupported { transport }) => {
                    &&& routed
                    &&& entry is Some
                    &&& ownership_holds(
                        admitted.claim.deep_view(),
                        entry->0.manifest.deep_view().resources,
                        uri@,
                    )
                    &&& bounded
                    &&& transport == entry->0.manifest.transport
                    &&& transport != Transport::Http
                },
            }
        }),
{
    if admitted.generation != current_generation || !text_eq(admitted.server.as_str(), server) {
        return Err(AdmittedResourceReadError::RoutingChanged);
    }
    let entry = match entry {
        Some(entry) => entry,
        None => return Err(AdmittedResourceReadError::Upstream(unknown_upstream(server))),
    };
    let holds = match &admitted.claim {
        Some(claim) => crate::value::contains(&entry.manifest.resources, claim) && text_begins_with(
            uri,
            claim.uri_prefix.as_str(),
        ),
        None => entry.manifest.resources.len() == 0,
    };
    proof {
        assert(entry.manifest.resources.deep_view().len() == entry.manifest.resources.len());
    }
    if !holds {
        return Err(AdmittedResourceReadError::RoutingChanged);
    }
    if bounded && entry.manifest.transport != Transport::Http {
        return Err(
            AdmittedResourceReadError::BoundedUnsupported { transport: entry.manifest.transport },
        );
    }
    Ok(())
}

/// Whether some lane of an upstream advertised resources, for an upstream that
/// may serve them at all.
pub fn resource_capability_advertised(entry: &UpstreamEntry) -> (b: bool)
    ensures
        b == (entry.manifest.deep_view().serves_resources() && exists|k: int|
            0 <= k < entry.lanes.len() && (#[trigger] entry.lanes@[k]) is Some
                && entry.lanes@[k]->0.resource_capability_advertised),
{
    if !manifest_supports_resource_operations(&entry.manifest) {
        return false;
    }
    let mut k: usize = 0;
    while k < entry.lanes.len()
        invariant
            k <= entry.lanes.len(),
            entry.manifest.deep_view().serves_resources(),
            forall|j: int|
                0 <= j < k && (#[trigger] entry.lanes@[j]) is Some
                    ==> !entry.lanes@[j]->0.resource_capability_advertised,
        decreases entry.lanes.len() - k,
    {
        if let Some(conn) = &entry.lanes[k] {
            if conn.resource_capability_advertised {
                return true;
            }
        }
        k = k + 1;
    }
    false
}

/// The claims of a registry, server by server in the given order.
pub open spec fn claims_in_order(registry: Registry, names: Seq<Seq<char>>) -> Seq<(
    Seq<char>,
    Claim,
)>
    decreases names.len(),
{
    if names.len() == 0 {
        Seq::empty()
    } else {
        let name = names.last();
        claims_in_order(registry, names.drop_last()) + registry[name].manifest.deep_view().resources.map_values(
            |claim: Claim| (name, claim),
        )
    }
}

/// Every resource claim of the registry, ordered by server name.
pub fn admitted_resource_routing_claims(entries: &Assoc<UpstreamEntry>) -> (r: Vec<(
    String,
    ResourceClaim,
)>)
    ensures
        exists|names: Seq<Seq<char>>|
            sorted(names) && names.no_duplicates() && names.to_set() == entries@.dom()
                && r.deep_view() == #[trigger] claims_in_order(entries@, names),
{
    let keys = entries.keys();
    let names = sort_names(&keys);
    proof {
        lemma_same_names(keys.deep_view(), names.deep_view());
    }
    let ghost order = names.deep_view();
    let mut out: Vec<(String, ResourceClaim)> = Vec::new();
    let mut i: usize = 0;
    proof {
        assert(order.take(0) =~= Seq::empty());
        assert(out.deep_view() =~= Seq::<(Seq<char>, Claim)>::empty());
    }
    while i < names.len()
        invariant
            i <= names.len(),
            order == names.deep_view(),
            order.to_set() == entries@.dom(),
            out.deep_view() == claims_in_order(entries@, order.take(i as int)),
        decreases names.len() - i,
    {
        proof {
            let next = order.take(i + 1);
            assert(next.drop_last() =~= order.take(i as int));
            assert(next.last() == order[i as int]);
            assert(order.to_set().contains(order[i as int]));
        }
        if let Some(entry) = entries.get(names[i].as_str()) {
            push_claims(&mut out, &names[i], &entry.manifest.resources);
        }
        i = i + 1;
    }
    proof {
        assert(order.take(order.len() as int) =~= order);
    }
    out
}

proof fn lemma_same_names(keys: Seq<Seq<char>>, names: Seq<Seq<char>>)
    requires
        keys.no_duplicates(),
        names.to_multiset() == keys.to_multiset(),
    ensures
        names.no_duplicates(),
        names.to_set() == keys.to_set(),
{
    keys.lemma_multiset_has_no_duplicates();
    assert forall|x: Seq<char>| names.to_multiset().contains(x) implies names.to_multiset().count(x)
        == 1 by {
        assert(keys.to_multiset().contains(x));
    }
    names.lemma_multiset_has_no_duplicates_conv();
    assert forall|x: Seq<char>| #[trigger] names.to_set().contains(x) <==> keys.to_set().contains(x) by {
        vstd::seq_lib::to_multiset_contains(names, x);
        vstd::seq_lib::to_multiset_contains(keys, x);
    }
    assert(names.to_set() =~= keys.to_set());
}

fn push_claims(out: &mut Vec<(String, ResourceClaim)>, name: &String, claims: &Vec<ResourceClaim>)
    ensures
        final(out).deep_view() == old(out).deep_view() + claims.deep_view().map_values(
            |claim: Claim| (name@, claim),
        ),
{
    let ghost start = out.deep_view();
    let ghost pair = |claim: Claim| (name@, claim);
    let ghost all = claims.deep_view();
    let mut i: usize = 0;
    proof {
        assert(out.deep_view() =~= start + all.take(0).map_values(pair));
    }
    while i < claims.len()
        invariant
            i <= claims.len(),
            all == claims.deep_view(),
            pair == (|claim: Claim| (name@, claim)),
            out.deep_view() == start + all.take(i as int).map_values(pair),
        decreases claims.len() - i,
    {
        let ghost before = out.deep_view();
        let item = (name.clone(), claims[i].dup());
        let ghost meaning = item.deep_view();
        out.push(item);
        proof {
            assert(out.deep_view() =~= before.push(meaning));
            assert(all.take(i + 1).map_values(pair) =~= all.take(i as int).map_values(pair).push(
                meaning,
            ));
        }
        i = i + 1;
    }
    proof {
        assert(all.take(all.len() as int) =~= all);
    }
}

/// A read authorized under a claim covers its URI by that claim, and no routing
/// honors both such a read and one authorized without any claim.
pub proof fn claimed_and_unclaimed_reads_exclude_each_other(
    claim: Claim,
    claims: Seq<Claim>,
    uri: Seq<char>,
)
    requires
        ownership_holds(Some(claim), claims, uri),
    ensures
        claims.len() > 0,
        begins_with(uri, claim.uri_prefix),
        !ownership_holds(None, claims, uri),
{
}

/// A read is bounded by the limit it names, where that fits a length; no other
/// request is bounded.
pub proof fn reads_are_bounded_by_their_limit(limit_bytes: u64, request: ResourceRequest)
    ensures
        limit_bytes <= usize::MAX ==> (ResourceRequest::Read {
            limit_bytes: Some(limit_bytes),
        }).limit() == Some(limit_bytes as usize),
        limit_bytes > usize::MAX ==> (ResourceRequest::Read {
            limit_bytes: Some(limit_bytes),
        }).limit() is None,
        (ResourceRequest::Read { limit_bytes: None }).limit() is None,
        !(request is Read) ==> request.limit() is None,
{
}

/// A fault takes down the lane whose session is reused and is only recorded
/// where each request has its own.
pub proof fn reused_lanes_go_down(class: UpstreamErrorClass)
    ensures
        fault_on(SessionIsolation::Reuse, class) == LaneFault::Down(class),
        fault_on(SessionIsolation::PerCall, class) == LaneFault::Recorded(class),
{
}

/// A text begins with a prefix exactly where something follows the prefix to
/// make the text.
pub proof fn a_prefix_is_followed_by_the_rest(
    text: Seq<char>,
    prefix: Seq<char>,
    rest: Seq<char>,
)
    ensures
        text == prefix + rest ==> begins_with(text, prefix),
        begins_with(text, prefix) ==> text == prefix + text.skip(prefix.len() as int),
        begins_with(text, Seq::empty()),
        begins_with(text, text),
{
    if text == prefix + rest {
        assert(text.take(prefix.len() as int) =~= prefix);
    }
    if begins_with(text, prefix) {
        assert(text =~= prefix + text.skip(prefix.len() as int));
    }
    assert(text.take(0) =~= Seq::<char>::empty());
    assert(text.take(text.len() as int) =~= text);
}

/// An admitted claim still owns a resource exactly where the upstream still
/// makes that claim and the resource is under its prefix; a read that no claim
/// admitted is right exactly where the upstream makes none.
pub proof fn claims_own_what_is_under_them(claim: Claim, claims: Seq<Claim>, uri: Seq<char>)
    ensures
        claims.contains(claim) && begins_with(uri, claim.uri_prefix) ==> ownership_holds(
            Some(claim),
            claims,
            uri,
        ),
        !claims.contains(claim) ==> !ownership_holds(Some(claim), claims, uri),
        !begins_with(uri, claim.uri_prefix) ==> !ownership_holds(Some(claim), claims, uri),
        ownership_holds(None, claims, uri) <==> claims.len() == 0,
{
}

/// An admission is routed exactly where it is for this server and of the routing
/// generation that stands.
pub proof fn admissions_are_routed_by_their_generation(
    admitted: ResourceReadAdmission,
    server: Seq<char>,
    current: u64,
)
    ensures
        admitted.server@ == server && admitted.generation == current ==> routed(
            admitted,
            server,
            current,
        ),
        admitted.server@ != server ==> !routed(admitted, server, current),
        admitted.generation != current ==> !routed(admitted, server, current),
{
}

/// The routed claims of a list of upstreams are those of each in turn, every one
/// under its upstream's name and in the order its manifest gives.
pub proof fn upstreams_give_their_claims_in_turn(
    registry: Registry,
    names: Seq<Seq<char>>,
    name: Seq<char>,
    i: int,
)
    ensures
        claims_in_order(registry, Seq::empty()).len() == 0,
        ({
            let claims = registry[name].manifest.deep_view().resources;
            let before = claims_in_order(registry, names);
            let after = claims_in_order(registry, names.push(name));
            &&& after.len() == before.len() + claims.len()
            &&& 0 <= i < before.len() ==> after[i] == before[i]
            &&& 0 <= i < claims.len() ==> after[before.len() + i] == (name, claims[i])
        }),
{
    assert(names.push(name).drop_last() =~= names);
    let claims = registry[name].manifest.deep_view().resources;
    let here = claims.map_values(|claim: Claim| (name, claim));
    let before = claims_in_order(registry, names);
    assert(claims_in_order(registry, names.push(name)) == before + here);
    if 0 <= i < claims.len() {
        assert((before + here)[before.len() + i] == here[i]);
    }
}

/// The refusal of a bounded read names the transport that cannot bound it, and
/// the refusal of a large answer the limit and the code it was asked with.
pub proof fn refusals_name_their_bounds(
    error: PoolError,
    transport: Transport,
    limit_bytes: u64,
    code: Seq<char>,
)
    ensures
        says_bounded_unsupported(error, transport) ==> error.kind == ErrorKind::Internal
            && error.data == (ErrorData::BoundedReadUnsupported { transport })
            && error.data.spec_code() == Some("bounded_resource_read_unsupported"@)
            && error.message@ == "bounded resource reads are unsupported for "@ + transport_name(
            transport,
        ) + " transport"@,
        says_too_large(error, limit_bytes, code) ==> error.kind == ErrorKind::Internal
            && error.data.spec_code() == Some(code) && error.message@
            == "upstream response exceeded the "@ + decimal_digits(limit_bytes as nat)
            + "-byte caller materialization budget"@,
        transport_name(Transport::Http) == "http"@,
        transport_name(Transport::Sse) == "sse"@,
        transport_name(Transport::Stdio) == "stdio"@,
{
}

} // verus!
