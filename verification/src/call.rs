//! The gates a tool call passes on its way to an upstream.
//!
//! A call is refused before the breaker is asked wherever that is possible, so
//! that refusals of the gateway's own never count against an upstream. From the
//! moment a lane is held, every refusal tells the breaker exactly one thing.

use vstd::prelude::*;

use crate::admission::{
    admitted_in_catalog, contract_current, dispatch_contract_is_current, entry_admits,
    entry_tool_is_admitted, tool_is_admitted_in_catalog,
};
use crate::binding::InvocationContract;
use crate::discovery::{held_contract, held_verdict, DiscoveryReads};
use crate::dispatch::{
    is_2026, legacy_continuation_refusal, legacy_only, manifest_continuation_refusal, speaks_2026,
    LaneFault, PermitDisposition,
};
use crate::entry::UpstreamEntry;
use crate::error::{
    about, about_tool, being_removed, bounded, bounded_upstream_error, circuit_open,
    circuit_probing, contract_changed_error, no_admitted_tool, not_connected, plain,
    session_contract_differs, unknown_upstream, ErrorKind, PoolError, ToolCallFailurePhase,
};
use crate::health::UpstreamErrorClass;
use crate::lane::Connection;
use crate::manifest::{ClassificationMode, SessionIsolation, UpstreamManifest};
use crate::pool::UpstreamPool;
use crate::text::join5;
use crate::tools::Tool;

verus! {

/// The reason for which a call is refused before anything is spent on it.
pub enum EarlyRefusal {
    UnknownUpstream,
    BeingRemoved,
    NotAdmitted,
    LegacyContinuation,
}

/// The first reason there is.
pub open spec fn early_refusal(
    entry: Option<UpstreamEntry>,
    tool: Seq<char>,
    has_continuation: bool,
) -> Option<EarlyRefusal> {
    match entry {
        None => Some(EarlyRefusal::UnknownUpstream),
        Some(entry) => if entry.removed {
            Some(EarlyRefusal::BeingRemoved)
        } else if !entry_admits(entry.lanes.deep_view(), entry.manifest.deep_view(), tool) {
            Some(EarlyRefusal::NotAdmitted)
        } else if has_continuation && legacy_only(entry.manifest.deep_view()) {
            Some(EarlyRefusal::LegacyContinuation)
        } else {
            None
        },
    }
}

/// Admit a call before the breaker, any identity work or a dial is spent on it:
/// the upstream is registered and stays, it admits the tool, and a continuation
/// is aimed at one that can have issued the pause.
pub fn admit_call(
    server: &str,
    tool_name: &str,
    entry: Option<&UpstreamEntry>,
    has_continuation: bool,
) -> (r: Result<(), PoolError>)
    ensures
        ({
            let refusal = early_refusal(
                match entry {
                    Some(entry) => Some(*entry),
                    None => None,
                },
                tool_name@,
                has_continuation,
            );
            match (refusal, r) {
                (None, Ok(_)) => true,
                (Some(EarlyRefusal::UnknownUpstream), Err(error)) => plain(
                    error,
                    ErrorKind::InvalidParams,
                    "unknown upstream: "@ + server@,
                ),
                (Some(EarlyRefusal::BeingRemoved), Err(error)) => plain(
                    error,
                    ErrorKind::InvalidParams,
                    about(server@, "` is being removed"@),
                ),
                (Some(EarlyRefusal::NotAdmitted), Err(error)) => plain(
                    error,
                    ErrorKind::InvalidParams,
                    about_tool(server@, "` has no admitted tool `"@, tool_name@, "`"@),
                ),
                (Some(EarlyRefusal::LegacyContinuation), Err(error)) => plain(
                    error,
                    ErrorKind::Internal,
                    about(
                        server@,
                        "` is configured for the legacy protocol generation and cannot have issued an MRTR pause; the continuation cannot be delivered — retry the call from the beginning without `inputResponses`/`requestState`"@,
                    ),
                ),
                _ => false,
            }
        }),
{
    let entry = match entry {
        Some(entry) => entry,
        None => return Err(unknown_upstream(server)),
    };
    if entry.removed {
        return Err(being_removed(server));
    }
    if !entry_tool_is_admitted(&entry.lanes, &entry.manifest, tool_name) {
        return Err(no_admitted_tool(server, tool_name));
    }
    match manifest_continuation_refusal(server, has_continuation, &entry.manifest) {
        Some(error) => Err(error),
        None => Ok(()),
    }
}

/// How a caller proved who they are.
#[derive(Clone, Copy, Debug, PartialEq, Eq, Structural)]
pub enum AuthMethod {
    Oauth,
    ApiKey,
}

/// Whether a stored upstream session of the caller is looked up: the upstream
/// opted into token exchange and the caller came by OAuth. Sessions are written
/// for OAuth callers alone; an API key that happens to name the same subject
/// must not borrow one.
pub fn should_consult_tier_a_session(auth_method: AuthMethod, manifest: &UpstreamManifest) -> (b: bool)
    ensures
        b == (manifest.deep_view().exchange is Some && auth_method == AuthMethod::Oauth),
{
    manifest.exchange.is_some() && auth_method == AuthMethod::Oauth
}

/// Refuse, before the exchange, a call to an upstream that insists on the
/// caller's own session when none could be found. The exchange would otherwise
/// fall back to the gateway's bearer, which is what the flag is there to refuse.
pub fn refuse_when_no_durable_session(
    manifest: &UpstreamManifest,
    stored: Option<&String>,
    server: &str,
    principal_sub: &str,
) -> (r: Result<(), PoolError>)
    ensures
        r is Err <==> manifest.tier_a_required && stored is None,
        r is Err ==> plain(
            r->Err_0,
            ErrorKind::Internal,
            about_tool(
                server@,
                "` requires Tier-A (durable upstream session); no session available for principal `"@,
                principal_sub@,
                "`. Have the user complete an OAuth login (waygate-as) before retrying."@,
            ),
        ),
{
    if manifest.tier_a_required && stored.is_none() {
        return Err(
            PoolError {
                kind: ErrorKind::Internal,
                message: join5(
                    "upstream `",
                    server,
                    "` requires Tier-A (durable upstream session); no session available for principal `",
                    principal_sub,
                    "`. Have the user complete an OAuth login (waygate-as) before retrying.",
                ),
                data: crate::error::ErrorData::Bare,
            },
        );
    }
    Ok(())
}

/// Refuse, after the exchange, a call to an upstream that insists on the
/// caller's own session when the exchange produced no token.
pub fn refuse_when_exchange_failed(
    manifest: &UpstreamManifest,
    exchanged_bearer: Option<&String>,
    server: &str,
    principal_sub: &str,
) -> (r: Result<(), PoolError>)
    ensures
        r is Err <==> manifest.tier_a_required && exchanged_bearer is None,
        r is Err ==> plain(
            r->Err_0,
            ErrorKind::Internal,
            about_tool(
                server@,
                "` requires Tier-A but the RFC 8693 token exchange failed for principal `"@,
                principal_sub@,
                "`. The durable session is present; check the IdP token-exchange endpoint, audience configuration, and upstream issuer reachability."@,
            ),
        ),
{
    if manifest.tier_a_required && exchanged_bearer.is_none() {
        return Err(
            PoolError {
                kind: ErrorKind::Internal,
                message: join5(
                    "upstream `",
                    server,
                    "` requires Tier-A but the RFC 8693 token exchange failed for principal `",
                    principal_sub,
                    "`. The durable session is present; check the IdP token-exchange endpoint, audience configuration, and upstream issuer reachability.",
                ),
                data: crate::error::ErrorData::Bare,
            },
        );
    }
    Ok(())
}

/// The audience of the identity minted for a call: the federated peer's issuer
/// where one is configured, and otherwise the server's name.
pub fn identity_audience(server: &str, tier_c_audience: Option<&String>) -> (r: String)
    ensures
        r@ == match tier_c_audience {
            Some(issuer) => issuer@,
            None => server@,
        },
{
    match tier_c_audience {
        Some(issuer) => issuer.clone(),
        None => server.to_owned(),
    }
}

/// Why a breaker admits no call.
#[derive(Clone, Copy, Debug, PartialEq, Eq, Structural)]
pub enum BreakerError {
    Open,
    ProbeInFlight,
}

pub fn breaker_refusal(server: &str, error: BreakerError) -> (r: PoolError)
    ensures
        plain(
            r,
            ErrorKind::Internal,
            about(
                server@,
                match error {
                    BreakerError::Open => "` circuit open"@,
                    BreakerError::ProbeInFlight => "` circuit probing recovery"@,
                },
            ),
        ),
{
    match error {
        BreakerError::Open => circuit_open(server),
        BreakerError::ProbeInFlight => circuit_probing(server),
    }
}

/// Where a call that holds a lane stands.
#[derive(Clone, Copy, Debug, PartialEq, Eq, Structural)]
pub enum CallStage {
    LaneHeld,
    /// Recording what the lane advertises for review, before a per-call dial.
    ObservingReviews,
    CheckingReview,
    /// Comparing the contract with the one admitted earlier.
    CheckingContract,
    /// Reading what the shared session advertises now, in annotation mode.
    ReadingSession,
    ObservingSession,
    CheckingSessionReview,
    /// All gates are passed: run a per-call execution.
    Executing,
    /// All gates are passed: send on the lane's session.
    Dispatching,
    Refused,
}

/// A call that holds a lane.
pub struct CallFlow {
    pub server: String,
    pub tool_name: String,
    pub trace_id: String,
    pub isolation: SessionIsolation,
    pub has_continuation: bool,
    /// An earlier stage admitted an exact contract.
    pub has_admitted: bool,
    pub annotation_mode: bool,
    /// The lane speaks the generation that can honor a continuation.
    pub lane_is_2026: bool,
    pub lane_passed: bool,
    pub review_passed: bool,
    pub contract_passed: bool,
    pub session_admitted: bool,
    pub session_passed: bool,
    pub stage: CallStage,
}

/// What a refused call leaves behind.
#[derive(Debug, PartialEq, Eq)]
pub struct CallRefusal {
    pub permit: PermitDisposition,
    pub fault: LaneFault,
    pub error: PoolError,
}

/// What the program does next.
#[derive(Debug, PartialEq, Eq)]
pub enum CallAction {
    ObserveReviews,
    CheckReview,
    CheckContract,
    ReadSession,
    ObserveSession,
    CheckSessionReview,
    Execute,
    Dispatch,
    Refuse(CallRefusal),
}

/// A refusal of the gateway's own: the breaker learns nothing and the lane is
/// left as it is.
pub open spec fn neutral(refusal: CallRefusal) -> bool {
    refusal.permit == PermitDisposition::Neutral && refusal.fault == LaneFault::Healthy
}

/// The refusal says that the contract changed during setup.
pub open spec fn says_contract_changed(refusal: CallRefusal, server: Seq<char>, tool: Seq<char>) -> bool {
    &&& neutral(refusal)
    &&& plain(
        refusal.error,
        ErrorKind::Internal,
        about_tool(
            server,
            "` configuration or approved contract for `"@,
            tool,
            "` changed during call setup — retry the call"@,
        ),
    )
}

/// The refusal says that the lane cannot take the continuation.
pub open spec fn says_legacy_lane(refusal: CallRefusal, server: Seq<char>) -> bool {
    &&& neutral(refusal)
    &&& plain(
        refusal.error,
        ErrorKind::Internal,
        about(
            server,
            "` lane no longer speaks MCP 2026-07-28; the MRTR continuation cannot be delivered — retry the call from the beginning"@,
        ),
    )
}

impl CallFlow {
    /// No stage is reached before the gates that lead to it are passed.
    pub open spec fn wf(self) -> bool {
        let reviewed = self.lane_passed && self.review_passed;
        let bound = reviewed && (self.has_admitted ==> self.contract_passed);
        match self.stage {
            CallStage::LaneHeld | CallStage::Refused => true,
            CallStage::ObservingReviews => self.lane_passed && self.isolation
                == SessionIsolation::PerCall,
            CallStage::CheckingReview => self.lane_passed,
            CallStage::CheckingContract => reviewed,
            CallStage::ReadingSession | CallStage::ObservingSession
            | CallStage::CheckingSessionReview => bound && self.isolation
                == SessionIsolation::Reuse && self.annotation_mode,
            CallStage::Executing => bound && self.isolation == SessionIsolation::PerCall,
            CallStage::Dispatching => {
                &&& bound
                &&& self.isolation == SessionIsolation::Reuse
                &&& self.annotation_mode ==> self.session_passed && self.session_admitted
                &&& self.has_continuation ==> self.lane_is_2026
            },
        }
    }

    /// What a call is about does not change on its way.
    pub open spec fn same_call(self, other: Self) -> bool {
        &&& self.server == other.server
        &&& self.tool_name == other.tool_name
        &&& self.trace_id == other.trace_id
        &&& self.isolation == other.isolation
        &&& self.has_continuation == other.has_continuation
        &&& self.has_admitted == other.has_admitted
    }

    /// The same call on the same lane.
    pub open spec fn same_lane(self, other: Self) -> bool {
        &&& self.same_call(other)
        &&& self.annotation_mode == other.annotation_mode
        &&& self.lane_is_2026 == other.lane_is_2026
    }

    pub fn begin(
        server: &str,
        tool_name: &str,
        trace_id: &str,
        isolation: SessionIsolation,
        has_continuation: bool,
        has_admitted: bool,
    ) -> (r: Self)
        ensures
            r.wf(),
            r.server@ == server@,
            r.tool_name@ == tool_name@,
            r.trace_id@ == trace_id@,
            r.isolation == isolation,
            r.has_continuation == has_continuation,
            r.has_admitted == has_admitted,
            r.stage == CallStage::LaneHeld,
            !r.lane_passed && !r.review_passed && !r.contract_passed,
            !r.session_admitted && !r.session_passed,
    {
        CallFlow {
            server: server.to_owned(),
            tool_name: tool_name.to_owned(),
            trace_id: trace_id.to_owned(),
            isolation,
            has_continuation,
            has_admitted,
            annotation_mode: false,
            lane_is_2026: false,
            lane_passed: false,
            review_passed: false,
            contract_passed: false,
            session_admitted: false,
            session_passed: false,
            stage: CallStage::LaneHeld,
        }
    }

    fn refuse_changed(&mut self) -> (action: CallAction)
        ensures
            *final(self) == (CallFlow { stage: CallStage::Refused, ..*old(self) }),
            action is Refuse,
            says_contract_changed(action->Refuse_0, old(self).server@, old(self).tool_name@),
    {
        self.stage = CallStage::Refused;
        CallAction::Refuse(
            CallRefusal {
                permit: PermitDisposition::Neutral,
                fault: LaneFault::Healthy,
                error: contract_changed_error(self.server.as_str(), self.tool_name.as_str()),
            },
        )
    }

    /// Look at the lane that was checked out, while it cannot be exchanged. The
    /// call was set up under `snapshot`.
    #[verifier::rlimit(60)]
    pub fn lane_held(
        &mut self,
        entry: &UpstreamEntry,
        lane: usize,
        snapshot: &UpstreamManifest,
        local_quarantine_authoritative: bool,
    ) -> (action: CallAction)
        requires
            old(self).wf(),
            old(self).stage == CallStage::LaneHeld,
            lane < entry.lanes.len(),
        ensures
            final(self).wf(),
            final(self).same_call(*old(self)),
            *final(self) == (CallFlow {
                stage: final(self).stage,
                annotation_mode: final(self).annotation_mode,
                lane_is_2026: final(self).lane_is_2026,
                lane_passed: old(self).lane_passed || !(action is Refuse),
                ..*old(self)
            }),
            match entry.lanes@[lane as int] {
                None => {
                    &&& final(self).stage == CallStage::Refused
                    &&& action is Refuse
                    &&& action->Refuse_0.permit == PermitDisposition::Failure
                    &&& action->Refuse_0.fault == LaneFault::Recorded(UpstreamErrorClass::Transport)
                    &&& plain(
                        action->Refuse_0.error,
                        ErrorKind::Internal,
                        about(old(self).server@, "` is not connected"@),
                    )
                },
                Some(conn) => if entry.removed {
                    &&& final(self).stage == CallStage::Refused
                    &&& action is Refuse
                    &&& neutral(action->Refuse_0)
                    &&& plain(
                        action->Refuse_0.error,
                        ErrorKind::InvalidParams,
                        about(old(self).server@, "` is being removed"@),
                    )
                } else if !contract_current(
                    snapshot.deep_view(),
                    entry.manifest.deep_view(),
                    entry.quarantined.deep_view(),
                    conn.live_tools.deep_view(),
                    old(self).tool_name@,
                    local_quarantine_authoritative,
                ) {
                    &&& final(self).stage == CallStage::Refused
                    &&& action is Refuse
                    &&& says_contract_changed(
                        action->Refuse_0,
                        old(self).server@,
                        old(self).tool_name@,
                    )
                } else {
                    &&& final(self).annotation_mode == (entry.manifest.classification_mode
                        == ClassificationMode::McpAnnotations)
                    &&& final(self).lane_is_2026 == speaks_2026(
                        conn.negotiated_protocol.deep_view(),
                    )
                    &&& if old(self).isolation == SessionIsolation::PerCall {
                        final(self).stage == CallStage::ObservingReviews
                            && action is ObserveReviews
                    } else {
                        final(self).stage == CallStage::CheckingReview && action is CheckReview
                    }
                },
            },
    {
        let conn = match &entry.lanes[lane] {
            Some(conn) => conn,
            None => {
                self.stage = CallStage::Refused;
                return CallAction::Refuse(
                    CallRefusal {
                        permit: PermitDisposition::Failure,
                        fault: LaneFault::Recorded(UpstreamErrorClass::Transport),
                        error: not_connected(self.server.as_str()),
                    },
                );
            },
        };
        if entry.removed {
            self.stage = CallStage::Refused;
            return CallAction::Refuse(
                CallRefusal {
                    permit: PermitDisposition::Neutral,
                    fault: LaneFault::Healthy,
                    error: being_removed(self.server.as_str()),
                },
            );
        }
        if !dispatch_contract_is_current(
            snapshot,
            &entry.manifest,
            &entry.quarantined,
            &conn.live_tools,
            self.tool_name.as_str(),
            local_quarantine_authoritative,
        ) {
            return self.refuse_changed();
        }
        self.lane_passed = true;
        self.annotation_mode = entry.manifest.classification_mode
            == ClassificationMode::McpAnnotations;
        self.lane_is_2026 = is_2026(conn.negotiated_protocol.as_ref());
        if self.isolation == SessionIsolation::PerCall {
            self.stage = CallStage::ObservingReviews;
            CallAction::ObserveReviews
        } else {
            self.stage = CallStage::CheckingReview;
            CallAction::CheckReview
        }
    }

    /// What the lane advertises was recorded for review, or could not be.
    pub fn reviews_observed(&mut self, recorded: bool) -> (action: CallAction)
        requires
            old(self).wf(),
            old(self).stage == CallStage::ObservingReviews,
        ensures
            final(self).wf(),
            final(self).same_lane(*old(self)),
            *final(self) == (CallFlow { stage: final(self).stage, ..*old(self) }),
            if recorded {
                final(self).stage == CallStage::CheckingReview && action is CheckReview
            } else {
                &&& final(self).stage == CallStage::Refused
                &&& action is Refuse
                &&& says_contract_changed(
                    action->Refuse_0,
                    old(self).server@,
                    old(self).tool_name@,
                )
            },
    {
        if !recorded {
            return self.refuse_changed();
        }
        self.stage = CallStage::CheckingReview;
        CallAction::CheckReview
    }

    /// What follows once the contract is bound: a per-call execution, a look at
    /// the shared session, or the dispatch.
    pub open spec fn after_binding(self, next: CallFlow, action: CallAction) -> bool {
        if self.isolation == SessionIsolation::PerCall {
            next.stage == CallStage::Executing && action is Execute
        } else if self.annotation_mode {
            next.stage == CallStage::ReadingSession && action is ReadSession
        } else {
            self.at_dispatch(next, action)
        }
    }

    /// What follows once every gate but the last is passed.
    pub open spec fn at_dispatch(self, next: CallFlow, action: CallAction) -> bool {
        if self.has_continuation && !self.lane_is_2026 {
            &&& next.stage == CallStage::Refused
            &&& action is Refuse
            &&& says_legacy_lane(action->Refuse_0, self.server@)
        } else {
            next.stage == CallStage::Dispatching && action is Dispatch
        }
    }

    fn to_dispatch(&mut self) -> (action: CallAction)
        requires
            old(self).lane_passed,
            old(self).review_passed,
            old(self).has_admitted ==> old(self).contract_passed,
            old(self).isolation == SessionIsolation::Reuse,
            old(self).annotation_mode ==> old(self).session_passed && old(self).session_admitted,
        ensures
            final(self).wf(),
            final(self).same_lane(*old(self)),
            *final(self) == (CallFlow { stage: final(self).stage, ..*old(self) }),
            old(self).at_dispatch(*final(self), action),
    {
        if self.has_continuation && !self.lane_is_2026 {
            self.stage = CallStage::Refused;
            return match legacy_continuation_refusal(self.server.as_str(), true, None) {
                Some(error) => CallAction::Refuse(
                    CallRefusal {
                        permit: PermitDisposition::Neutral,
                        fault: LaneFault::Healthy,
                        error,
                    },
                ),
                None => CallAction::Dispatch,
            };
        }
        self.stage = CallStage::Dispatching;
        CallAction::Dispatch
    }

    fn bound(&mut self) -> (action: CallAction)
        requires
            old(self).lane_passed,
            old(self).review_passed,
            old(self).has_admitted ==> old(self).contract_passed,
        ensures
            final(self).wf(),
            final(self).same_lane(*old(self)),
            *final(self) == (CallFlow { stage: final(self).stage, ..*old(self) }),
            old(self).after_binding(*final(self), action),
    {
        if self.isolation == SessionIsolation::PerCall {
            self.stage = CallStage::Executing;
            CallAction::Execute
        } else if self.annotation_mode {
            self.stage = CallStage::ReadingSession;
            CallAction::ReadSession
        } else {
            self.to_dispatch()
        }
    }

    /// The review of the tool allows the call, or does not.
    pub fn review_decided(&mut self, allowed: bool) -> (action: CallAction)
        requires
            old(self).wf(),
            old(self).stage == CallStage::CheckingReview,
        ensures
            final(self).wf(),
            final(self).same_lane(*old(self)),
            *final(self) == (CallFlow {
                stage: final(self).stage,
                review_passed: old(self).review_passed || allowed,
                ..*old(self)
            }),
            if !allowed {
                &&& final(self).stage == CallStage::Refused
                &&& action is Refuse
                &&& says_contract_changed(
                    action->Refuse_0,
                    old(self).server@,
                    old(self).tool_name@,
                )
            } else if old(self).has_admitted {
                final(self).stage == CallStage::CheckingContract && action is CheckContract
            } else {
                old(self).after_binding(*final(self), action)
            },
    {
        if !allowed {
            return self.refuse_changed();
        }
        self.review_passed = true;
        if self.has_admitted {
            self.stage = CallStage::CheckingContract;
            return CallAction::CheckContract;
        }
        self.bound()
    }

    /// Compare the contract that the request would run under, on the held session
    /// and under the manifest now in force, with the admitted one.
    pub fn contract_checked(
        &mut self,
        pool: &mut UpstreamPool,
        manifest: &UpstreamManifest,
        conn: &Connection,
        reads: &DiscoveryReads,
        admitted: &InvocationContract,
    ) -> (action: CallAction)
        requires
            old(self).wf(),
            old(self).stage == CallStage::CheckingContract,
        ensures
            final(self).wf(),
            final(self).same_lane(*old(self)),
            *final(self) == (CallFlow {
                stage: final(self).stage,
                contract_passed: final(self).contract_passed,
                ..*old(self)
            }),
            *final(pool) == old(pool).after_read(
                held_verdict(
                    old(self).server@,
                    old(self).tool_name@,
                    manifest.deep_view(),
                    conn.deep_view(),
                    *reads,
                    old(pool).catalog_policy,
                ) is Unavailable,
            ),
            if held_contract(
                old(self).server@,
                old(self).tool_name@,
                manifest.deep_view(),
                conn.deep_view(),
                *reads,
                old(pool).catalog_policy,
            ) == Some(admitted.deep_view()) {
                final(self).contract_passed && old(self).after_binding(*final(self), action)
            } else {
                &&& final(self).contract_passed == old(self).contract_passed
                &&& final(self).stage == CallStage::Refused
                &&& action is Refuse
                &&& says_contract_changed(
                    action->Refuse_0,
                    old(self).server@,
                    old(self).tool_name@,
                )
            },
    {
        if !pool.admitted_contract_is_current(
            self.server.as_str(),
            &self.tool_name,
            manifest,
            conn,
            reads,
            admitted,
        ) {
            return self.refuse_changed();
        }
        self.contract_passed = true;
        self.bound()
    }

    /// The shared session's listing was read. A session dialed long ago may
    /// advertise something else by now, and what it advertises is what it runs.
    pub fn session_read(&mut self, manifest: &UpstreamManifest, tools: &Vec<Tool>) -> (action:
        CallAction)
        requires
            old(self).wf(),
            old(self).stage == CallStage::ReadingSession,
        ensures
            final(self).wf(),
            final(self).same_lane(*old(self)),
            *final(self) == (CallFlow {
                stage: final(self).stage,
                session_admitted: final(self).session_admitted,
                ..*old(self)
            }),
            final(self).stage == CallStage::ObservingSession,
            final(self).session_admitted == admitted_in_catalog(
                manifest.deep_view(),
                tools.deep_view(),
                old(self).tool_name@,
            ),
            action is ObserveSession,
    {
        self.session_admitted = tool_is_admitted_in_catalog(
            manifest,
            tools,
            self.tool_name.as_str(),
        );
        self.stage = CallStage::ObservingSession;
        CallAction::ObserveSession
    }

    /// The shared session's listing could not be read; the lane is suspect.
    pub fn session_read_failed(&mut self, class: UpstreamErrorClass) -> (action: CallAction)
        requires
            old(self).wf(),
            old(self).stage == CallStage::ReadingSession,
        ensures
            final(self).wf(),
            final(self).same_lane(*old(self)),
            *final(self) == (CallFlow { stage: final(self).stage, ..*old(self) }),
            final(self).stage == CallStage::Refused,
            action is Refuse,
            action->Refuse_0.permit == PermitDisposition::Failure,
            action->Refuse_0.fault == LaneFault::Down(class),
            bounded(
                action->Refuse_0.error,
                old(self).server@,
                ToolCallFailurePhase::PreDispatch,
                false,
                1,
                old(self).trace_id@,
            ),
    {
        self.stage = CallStage::Refused;
        CallAction::Refuse(
            CallRefusal {
                permit: PermitDisposition::Failure,
                fault: LaneFault::Down(class),
                error: bounded_upstream_error(
                    self.server.as_str(),
                    ToolCallFailurePhase::PreDispatch,
                    false,
                    1,
                    self.trace_id.as_str(),
                ),
            },
        )
    }

    /// What the session advertises was recorded for review, or could not be.
    pub fn session_observed(&mut self, recorded: bool) -> (action: CallAction)
        requires
            old(self).wf(),
            old(self).stage == CallStage::ObservingSession,
        ensures
            final(self).wf(),
            final(self).same_lane(*old(self)),
            *final(self) == (CallFlow { stage: final(self).stage, ..*old(self) }),
            final(self).session_admitted == old(self).session_admitted,
            if recorded {
                final(self).stage == CallStage::CheckingSessionReview
                    && action is CheckSessionReview
            } else {
                &&& final(self).stage == CallStage::Refused
                &&& action is Refuse
                &&& says_contract_changed(
                    action->Refuse_0,
                    old(self).server@,
                    old(self).tool_name@,
                )
            },
    {
        if !recorded {
            return self.refuse_changed();
        }
        self.stage = CallStage::CheckingSessionReview;
        CallAction::CheckSessionReview
    }

    /// The review of what the session advertises allows the call, or does not.
    /// A session that drifted from the approved behavior counts against the
    /// breaker, so that persistent drift leads to a new dial.
    pub fn session_review_decided(&mut self, allowed: bool) -> (action: CallAction)
        requires
            old(self).wf(),
            old(self).stage == CallStage::CheckingSessionReview,
        ensures
            final(self).wf(),
            final(self).same_lane(*old(self)),
            *final(self) == (CallFlow {
                stage: final(self).stage,
                session_passed: old(self).session_passed || (allowed && old(self).session_admitted),
                ..*old(self)
            }),
            if !allowed {
                &&& final(self).stage == CallStage::Refused
                &&& action is Refuse
                &&& says_contract_changed(
                    action->Refuse_0,
                    old(self).server@,
                    old(self).tool_name@,
                )
            } else if !old(self).session_admitted {
                &&& final(self).stage == CallStage::Refused
                &&& action is Refuse
                &&& action->Refuse_0.permit == PermitDisposition::Failure
                &&& action->Refuse_0.fault == LaneFault::Recorded(UpstreamErrorClass::Protocol)
                &&& plain(
                    action->Refuse_0.error,
                    ErrorKind::Internal,
                    about_tool(
                        old(self).server@,
                        "` session advertises a different contract for `"@,
                        old(self).tool_name@,
                        "` than the approved behavior"@,
                    ),
                )
            } else {
                old(self).at_dispatch(*final(self), action)
            },
    {
        if !allowed {
            return self.refuse_changed();
        }
        if !self.session_admitted {
            self.stage = CallStage::Refused;
            return CallAction::Refuse(
                CallRefusal {
                    permit: PermitDisposition::Failure,
                    fault: LaneFault::Recorded(UpstreamErrorClass::Protocol),
                    error: session_contract_differs(
                        self.server.as_str(),
                        self.tool_name.as_str(),
                    ),
                },
            );
        }
        self.session_passed = true;
        self.to_dispatch()
    }
}

/// A request reaches an upstream only through every gate: the lane was connected
/// and served the contract of the setup, its review allowed the call, the
/// admitted contract was still in force, and in annotation mode the session that
/// runs the call advertised the approved behavior.
pub proof fn dispatch_passed_every_gate(flow: CallFlow)
    requires
        flow.wf(),
        flow.stage == CallStage::Dispatching || flow.stage == CallStage::Executing,
    ensures
        flow.lane_passed,
        flow.review_passed,
        flow.has_admitted ==> flow.contract_passed,
        flow.stage == CallStage::Dispatching && flow.annotation_mode ==> flow.session_passed
            && flow.session_admitted,
        flow.stage == CallStage::Dispatching && flow.has_continuation ==> flow.lane_is_2026,
{
}

/// A removed upstream takes no call, whatever the tool: each is refused before
/// anything is spent on it.
pub proof fn removed_upstreams_take_no_calls(
    entry: UpstreamEntry,
    tool: Seq<char>,
    has_continuation: bool,
)
    requires
        entry.removed,
    ensures
        early_refusal(Some(entry), tool, has_continuation) == Some(EarlyRefusal::BeingRemoved),
{
}

/// A call is let in exactly where its upstream is known and not being removed,
/// admits the tool, and can have issued what the call continues; otherwise it is
/// refused for the first of these that fails.
pub proof fn admitted_calls_are_let_in(
    entry: UpstreamEntry,
    tool: Seq<char>,
    has_continuation: bool,
)
    ensures
        early_refusal(None, tool, has_continuation) == Some(EarlyRefusal::UnknownUpstream),
        entry.removed ==> early_refusal(Some(entry), tool, has_continuation) == Some(
            EarlyRefusal::BeingRemoved,
        ),
        !entry.removed && !entry_admits(
            entry.lanes.deep_view(),
            entry.manifest.deep_view(),
            tool,
        ) ==> early_refusal(Some(entry), tool, has_continuation) == Some(EarlyRefusal::NotAdmitted),
        !entry.removed && entry_admits(entry.lanes.deep_view(), entry.manifest.deep_view(), tool)
            && has_continuation && legacy_only(entry.manifest.deep_view()) ==> early_refusal(
            Some(entry),
            tool,
            has_continuation,
        ) == Some(EarlyRefusal::LegacyContinuation),
        !entry.removed && entry_admits(entry.lanes.deep_view(), entry.manifest.deep_view(), tool)
            && (!has_continuation || !legacy_only(entry.manifest.deep_view())) ==> early_refusal(
            Some(entry),
            tool,
            has_continuation,
        ) is None,
{
}

/// A refusal that tells of a changed contract names the server and the tool,
/// counts against neither the breaker nor the lane, and is an internal error.
pub proof fn changed_contracts_blame_nobody(
    refusal: CallRefusal,
    server: Seq<char>,
    tool: Seq<char>,
)
    requires
        says_contract_changed(refusal, server, tool),
    ensures
        refusal.permit == PermitDisposition::Neutral,
        refusal.fault == LaneFault::Healthy,
        refusal.error.kind == ErrorKind::Internal,
        refusal.error.message@ == "upstream `"@ + server
            + "` configuration or approved contract for `"@ + tool
            + "` changed during call setup — retry the call"@,
{
}

/// A refusal that tells of an older lane names the server and counts against
/// neither the breaker nor the lane.
pub proof fn older_lanes_blame_nobody(refusal: CallRefusal, server: Seq<char>)
    requires
        says_legacy_lane(refusal, server),
    ensures
        refusal.permit == PermitDisposition::Neutral,
        refusal.fault == LaneFault::Healthy,
        refusal.error.kind == ErrorKind::Internal,
        refusal.error.message@ == "upstream `"@ + server
            + "` lane no longer speaks MCP 2026-07-28; the MRTR continuation cannot be delivered — retry the call from the beginning"@,
{
}

/// Once its contract is bound, a call that has a session of its own is executed
/// on it; one on a reused session reads that session first where the annotation
/// authority governs, and is dispatched at once where the manifest does, unless
/// it continues an exchange that the lane cannot carry.
pub proof fn bound_calls_go_on(flow: CallFlow, next: CallFlow, action: CallAction)
    requires
        flow.after_binding(next, action),
    ensures
        flow.isolation == SessionIsolation::PerCall ==> next.stage == CallStage::Executing
            && action is Execute,
        flow.isolation == SessionIsolation::Reuse && flow.annotation_mode ==> next.stage
            == CallStage::ReadingSession && action is ReadSession,
        flow.isolation == SessionIsolation::Reuse && !flow.annotation_mode && (
        !flow.has_continuation || flow.lane_is_2026) ==> next.stage == CallStage::Dispatching
            && action is Dispatch,
        flow.isolation == SessionIsolation::Reuse && !flow.annotation_mode && flow.has_continuation
            && !flow.lane_is_2026 ==> next.stage == CallStage::Refused && action is Refuse
            && says_legacy_lane(action->Refuse_0, flow.server@),
{
}

/// At the dispatch a call goes out unless it continues an exchange that the lane
/// cannot carry.
pub proof fn calls_at_the_dispatch_go_out(flow: CallFlow, next: CallFlow, action: CallAction)
    requires
        flow.at_dispatch(next, action),
    ensures
        !flow.has_continuation || flow.lane_is_2026 ==> next.stage == CallStage::Dispatching
            && action is Dispatch,
        flow.has_continuation && !flow.lane_is_2026 ==> next.stage == CallStage::Refused && action
            is Refuse && says_legacy_lane(action->Refuse_0, flow.server@),
{
}

/// Two steps of one call agree on what it calls, under which isolation, what it
/// continues and what admitted it; on one lane also on the authority and the
/// generation of the lane.
pub proof fn a_call_keeps_its_terms(a: CallFlow, b: CallFlow)
    ensures
        a.same_call(b) <==> a.server == b.server && a.tool_name == b.tool_name && a.trace_id
            == b.trace_id && a.isolation == b.isolation && a.has_continuation == b.has_continuation
            && a.has_admitted == b.has_admitted,
        a.same_lane(b) <==> a.same_call(b) && a.annotation_mode == b.annotation_mode
            && a.lane_is_2026 == b.lane_is_2026,
{
}

} // verus!
