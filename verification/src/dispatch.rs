//! Dispatching a tool call to an upstream.

use vstd::prelude::*;

use crate::clock::Duration;
use crate::binding::{Contract, InvocationContract};
use crate::error::{about, plain, ErrorKind, PoolError, ToolCallFailurePhase};
use crate::health::{DialError, UpstreamErrorClass};
use crate::manifest::{Manifest, SessionIsolation, Transport, UpstreamManifest, UpstreamProtocol};
use crate::names::{name_lt, text_lt};
use crate::shape::pinned_2026_manifest;
use crate::text::join3;
use crate::value::Value;

verus! {

/// Ways in which a request on an established session fails.
#[derive(Clone, Copy, Debug, PartialEq, Eq, Structural)]
pub enum ServiceError {
    /// The upstream answered with an error of its own.
    Refused,
    Timeout { timeout: Duration },
    Cancelled,
    UnexpectedResponse,
    /// The transport failed.
    Transport,
}

/// A failed attempt at one tool request.
#[derive(Clone, Copy, Debug, PartialEq, Eq, Structural)]
pub struct ToolCallAttemptError {
    pub phase: ToolCallFailurePhase,
    pub source: ServiceError,
    pub retryable: bool,
}

impl ToolCallAttemptError {
    pub open spec fn spec_error_class(self) -> UpstreamErrorClass {
        match self.source {
            ServiceError::Timeout { .. } | ServiceError::Cancelled => UpstreamErrorClass::Timeout,
            ServiceError::Refused | ServiceError::UnexpectedResponse => UpstreamErrorClass::Protocol,
            ServiceError::Transport => UpstreamErrorClass::Transport,
        }
    }

    pub fn error_class(&self) -> (r: UpstreamErrorClass)
        ensures
            r == self.spec_error_class(),
    {
        match self.source {
            ServiceError::Timeout { .. } | ServiceError::Cancelled => UpstreamErrorClass::Timeout,
            ServiceError::Refused | ServiceError::UnexpectedResponse => UpstreamErrorClass::Protocol,
            ServiceError::Transport => UpstreamErrorClass::Transport,
        }
    }

    /// The request was not accepted by the transport.
    pub fn before_dispatch(source: ServiceError) -> (r: Self)
        ensures
            r == (ToolCallAttemptError {
                phase: ToolCallFailurePhase::PreDispatch,
                source,
                retryable: false,
            }),
    {
        ToolCallAttemptError { phase: ToolCallFailurePhase::PreDispatch, source, retryable: false }
    }

    /// The request was accepted by the transport, and then this happened. Only
    /// the upstream's own refusal is a known outcome.
    pub fn after_dispatch(source: ServiceError) -> (r: Self)
        ensures
            r == (ToolCallAttemptError {
                phase: if source == ServiceError::Refused {
                    ToolCallFailurePhase::DispatchedKnownRefusal
                } else {
                    ToolCallFailurePhase::DispatchedUnknownOutcome
                },
                source,
                retryable: false,
            }),
    {
        ToolCallAttemptError {
            phase: ToolCallFailurePhase::from_service_error(source),
            source,
            retryable: false,
        }
    }
}

impl ToolCallFailurePhase {
    pub open spec fn spec_from_dial_error(error: DialError) -> Self {
        if error == DialError::Init || error == DialError::HandshakeTimeout {
            ToolCallFailurePhase::Initialize
        } else {
            ToolCallFailurePhase::Dial
        }
    }

    pub fn from_dial_error(error: DialError) -> (r: Self)
        ensures
            r == Self::spec_from_dial_error(error),
    {
        match error {
            DialError::Init | DialError::HandshakeTimeout => ToolCallFailurePhase::Initialize,
            _ => ToolCallFailurePhase::Dial,
        }
    }

    pub fn from_service_error(error: ServiceError) -> (r: Self)
        ensures
            r == if error == ServiceError::Refused {
                ToolCallFailurePhase::DispatchedKnownRefusal
            } else {
                ToolCallFailurePhase::DispatchedUnknownOutcome
            },
    {
        if error == ServiceError::Refused {
            ToolCallFailurePhase::DispatchedKnownRefusal
        } else {
            ToolCallFailurePhase::DispatchedUnknownOutcome
        }
    }
}

/// Repeating the call cannot do harm: the admitted contract is free of side
/// effects and is known to ask for no approval, nothing gated the call, and it
/// continues no earlier one.
pub open spec fn replay_safe(
    admitted: Option<Contract>,
    has_continuation: bool,
    approval_gated: bool,
) -> bool {
    &&& !has_continuation
    &&& !approval_gated
    &&& admitted is Some
    &&& !admitted->0.facts.side_effects
    &&& admitted->0.facts.requires_approval_known
    &&& !admitted->0.facts.requires_approval
}

pub fn admitted_safe_retry(
    admitted: Option<&InvocationContract>,
    has_continuation: bool,
    approval_gated: bool,
) -> (b: bool)
    ensures
        b == replay_safe(admitted.deep_view(), has_continuation, approval_gated),
{
    !has_continuation && !approval_gated && match admitted {
        Some(contract) => !contract.facts.side_effects && contract.facts.requires_approval_known
            && !contract.facts.requires_approval,
        None => false,
    }
}

/// A lower-case hexadecimal digit.
pub open spec fn hex_digit(c: char) -> bool {
    '0' <= c <= '9' || 'a' <= c <= 'f'
}

/// The text of a random identifier: hexadecimal digits, of which two tell its
/// version and its variant.
pub open spec fn random_id(text: Seq<char>) -> bool {
    &&& text.len() == 32
    &&& forall|i: int| 0 <= i < text.len() ==> hex_digit(#[trigger] text[i])
    &&& text[12] == '4'
    &&& text[16] == '8' || text[16] == '9' || text[16] == 'a' || text[16] == 'b'
}

/// `uuid::Uuid::new_v4` in its simple form: thirty-two lower-case hexadecimal
/// digits, of which two tell the version and the variant of a random
/// identifier. The others are left to chance.
#[verifier::external_body]
fn draw_trace_id() -> (r: String)
    ensures
        random_id(r@),
{
    uuid::Uuid::new_v4().simple().to_string()
}

/// The identifier under which a call can be looked up: that of the trace it
/// belongs to, or a fresh one.
pub fn call_trace_id(current: Option<String>) -> (r: String)
    ensures
        match current {
            Some(id) => r@ == id@,
            None => random_id(r@),
        },
{
    match current {
        Some(id) => id,
        None => draw_trace_id(),
    }
}

/// `rmcp::model::ProtocolVersion::V_2026_07_28`, as text.
#[verifier::external_body]
fn stateless_generation() -> (r: String)
    ensures
        r@ == "2026-07-28"@,
{
    rmcp::model::ProtocolVersion::V_2026_07_28.as_str().to_owned()
}

/// A negotiated version belongs to the 2026-07-28 generation or a later one.
/// Versions are dates, so their order is that of their text.
pub open spec fn speaks_2026(version: Option<Seq<char>>) -> bool {
    version is Some && !name_lt(version->0, "2026-07-28"@)
}

/// Whether a negotiated version belongs to the 2026-07-28 generation or later.
pub fn is_2026(version: Option<&String>) -> (b: bool)
    ensures
        b == speaks_2026(version.deep_view()),
{
    match version {
        Some(version) => {
            let generation = stateless_generation();
            !text_lt(version.as_str(), generation.as_str())
        },
        None => false,
    }
}

/// The manifest can never negotiate the 2026-07-28 generation.
pub open spec fn legacy_only(manifest: Manifest) -> bool {
    manifest.transport == Transport::Sse || manifest.protocol == UpstreamProtocol::Legacy
}

/// Refuse a continuation aimed at an upstream that cannot have issued the pause
/// it answers. What a caller sends never forces a protocol generation that the
/// operator disabled.
pub fn manifest_continuation_refusal(
    server: &str,
    has_continuation: bool,
    manifest: &UpstreamManifest,
) -> (r: Option<PoolError>)
    ensures
        r is Some <==> has_continuation && legacy_only(manifest.deep_view()),
        r is Some ==> plain(
            r->0,
            ErrorKind::Internal,
            about(
                server@,
                "` is configured for the legacy protocol generation and cannot have issued an MRTR pause; the continuation cannot be delivered — retry the call from the beginning without `inputResponses`/`requestState`"@,
            ),
        ),
{
    if !has_continuation {
        return None;
    }
    if !(manifest.transport == Transport::Sse || manifest.protocol == UpstreamProtocol::Legacy) {
        return None;
    }
    Some(
        PoolError {
            kind: ErrorKind::Internal,
            message: join3(
                "upstream `",
                server,
                "` is configured for the legacy protocol generation and cannot have issued an MRTR pause; the continuation cannot be delivered — retry the call from the beginning without `inputResponses`/`requestState`",
            ),
            data: crate::error::ErrorData::Bare,
        },
    )
}

/// Refuse a continuation on a lane that does not speak the generation which can
/// honor it.
pub fn legacy_continuation_refusal(
    server: &str,
    has_continuation: bool,
    negotiated_protocol: Option<&String>,
) -> (r: Option<PoolError>)
    ensures
        r is Some <==> has_continuation && !speaks_2026(negotiated_protocol.deep_view()),
        r is Some ==> plain(
            r->0,
            ErrorKind::Internal,
            about(
                server@,
                "` lane no longer speaks MCP 2026-07-28; the MRTR continuation cannot be delivered — retry the call from the beginning"@,
            ),
        ),
{
    if !has_continuation || is_2026(negotiated_protocol) {
        return None;
    }
    Some(
        PoolError {
            kind: ErrorKind::Internal,
            message: join3(
                "upstream `",
                server,
                "` lane no longer speaks MCP 2026-07-28; the MRTR continuation cannot be delivered — retry the call from the beginning",
            ),
            data: crate::error::ErrorData::Bare,
        },
    )
}

/// What a client declares it can do, each member as JSON text.
#[derive(Debug, PartialEq, Eq)]
pub struct ClientCapabilities {
    pub elicitation: Option<String>,
    pub sampling: Option<String>,
    pub roots: Option<String>,
    pub extensions: Option<String>,
    pub experimental: Option<String>,
}

/// What [`ClientCapabilities`] say.
#[verifier::ext_equal]
pub struct Capabilities {
    pub elicitation: Option<Seq<char>>,
    pub sampling: Option<Seq<char>>,
    pub roots: Option<Seq<char>>,
    pub extensions: Option<Seq<char>>,
    pub experimental: Option<Seq<char>>,
}

impl DeepView for ClientCapabilities {
    type V = Capabilities;

    open spec fn deep_view(&self) -> Capabilities {
        Capabilities {
            elicitation: self.elicitation.deep_view(),
            sampling: self.sampling.deep_view(),
            roots: self.roots.deep_view(),
            extensions: self.extensions.deep_view(),
            experimental: self.experimental.deep_view(),
        }
    }
}

impl Capabilities {
    /// Nothing but the given elicitation capability.
    pub open spec fn only_elicitation(elicitation: Option<Seq<char>>) -> Self {
        Capabilities {
            elicitation,
            sampling: None,
            roots: None,
            extensions: None,
            experimental: None,
        }
    }
}

/// The capabilities a per-call dial declares upstream, where it has to mirror
/// its caller: elicitation alone, the one kind of pause that is relayed. A
/// caller that can receive pauses and declares nothing still mirrors an empty
/// set, because it too needs the generation guarantee.
pub open spec fn mirrored(
    caller: Option<Capabilities>,
    negotiated_protocol: Option<Seq<char>>,
) -> Option<Capabilities> {
    if caller is Some && speaks_2026(negotiated_protocol) {
        Some(Capabilities::only_elicitation(caller->0.elicitation))
    } else {
        None
    }
}

pub fn mirrored_dial_capabilities(
    caller: Option<&ClientCapabilities>,
    negotiated_protocol: Option<&String>,
) -> (r: Option<ClientCapabilities>)
    ensures
        r.deep_view() == mirrored(caller.deep_view(), negotiated_protocol.deep_view()),
{
    let caller = match caller {
        Some(caller) => caller,
        None => return None,
    };
    if !is_2026(negotiated_protocol) {
        return None;
    }
    Some(
        ClientCapabilities {
            elicitation: caller.elicitation.dup(),
            sampling: None,
            roots: None,
            extensions: None,
            experimental: None,
        },
    )
}

/// How to dial a per-call session.
pub struct PerCallDialPlan {
    pub manifest: UpstreamManifest,
    pub capabilities: Option<ClientCapabilities>,
}

/// Plan a per-call dial. It is pinned to the 2026-07-28 generation when it
/// mirrors its caller or carries a continuation, so that an upstream rolled back
/// meanwhile fails the dial instead of losing the continuation.
pub fn per_call_dial_plan(
    manifest: &UpstreamManifest,
    caller: Option<&ClientCapabilities>,
    negotiated_protocol: Option<&String>,
    has_continuation: bool,
) -> (r: PerCallDialPlan)
    ensures
        ({
            let mirror = mirrored(caller.deep_view(), negotiated_protocol.deep_view());
            if mirror is None && !has_continuation {
                &&& r.manifest.deep_view() == manifest.deep_view()
                &&& r.capabilities is None
            } else {
                &&& r.manifest.deep_view() == (Manifest {
                    protocol: UpstreamProtocol::V20260728,
                    ..manifest.deep_view()
                })
                &&& r.capabilities.deep_view() == Some(
                    match mirror {
                        Some(capabilities) => capabilities,
                        None => Capabilities::only_elicitation(None),
                    },
                )
            }
        }),
{
    let mirror = mirrored_dial_capabilities(caller, negotiated_protocol);
    if mirror.is_none() && !has_continuation {
        return PerCallDialPlan { manifest: manifest.dup(), capabilities: None };
    }
    let capabilities = match mirror {
        Some(capabilities) => capabilities,
        None => ClientCapabilities {
            elicitation: None,
            sampling: None,
            roots: None,
            extensions: None,
            experimental: None,
        },
    };
    PerCallDialPlan {
        manifest: pinned_2026_manifest(manifest),
        capabilities: Some(capabilities),
    }
}

/// What the breaker is told about a call.
#[derive(Clone, Copy, Debug, PartialEq, Eq, Structural)]
pub enum PermitDisposition {
    Success,
    Failure,
    /// Nothing was learned about the upstream.
    Neutral,
}

/// What a call leaves behind on its lane.
#[derive(Clone, Copy, Debug, PartialEq, Eq, Structural)]
pub enum LaneFault {
    Healthy,
    /// Note the failure; the lane stays.
    Recorded(UpstreamErrorClass),
    /// The lane's session is suspect and goes down.
    Down(UpstreamErrorClass),
}

/// What is counted about a call that used its recovery attempt.
#[derive(Clone, Copy, Debug, PartialEq, Eq, Structural)]
pub enum RetryResult {
    NotUsed,
    Recovered,
    Exhausted,
}

/// How an attempt ended.
#[derive(Clone, Copy, Debug, PartialEq, Eq, Structural)]
pub enum CallResult {
    /// The upstream answered.
    Answered,
    /// The upstream answered and processing the answer failed.
    ProcessingFailed { upstream_failure: bool },
    Failed(ToolCallAttemptError),
}

/// What is handed to the caller.
#[derive(Clone, Copy, Debug, PartialEq, Eq, Structural)]
pub enum CallReply {
    /// The answer, or the processing error, as it is.
    PassThrough,
    /// The upstream's own refusal, as it is.
    UpstreamRefusal,
    /// The bounded error of this phase.
    Bounded { phase: ToolCallFailurePhase, retryable: bool },
}

/// How a finished attempt is settled.
#[derive(Clone, Copy, Debug, PartialEq, Eq, Structural)]
pub struct CallSettlement {
    pub permit: PermitDisposition,
    pub retry: RetryResult,
    pub fault: LaneFault,
    pub reply: CallReply,
}

/// The upstream proved to be alive: it answered, if only with a refusal of its
/// own or an answer the caller could not use.
pub open spec fn proves_alive(result: CallResult) -> bool {
    match result {
        CallResult::Answered => true,
        CallResult::ProcessingFailed { upstream_failure } => !upstream_failure,
        CallResult::Failed(error) => error.phase == ToolCallFailurePhase::DispatchedKnownRefusal,
    }
}

/// The class of a failure of the upstream.
pub open spec fn failure_class_of(result: CallResult) -> UpstreamErrorClass {
    match result {
        CallResult::Failed(error) => error.spec_error_class(),
        _ => UpstreamErrorClass::Protocol,
    }
}

pub open spec fn settlement(result: CallResult, attempts: usize, isolation: SessionIsolation) -> CallSettlement {
    let alive = proves_alive(result);
    CallSettlement {
        permit: if alive {
            PermitDisposition::Success
        } else {
            PermitDisposition::Failure
        },
        retry: if attempts <= 1 {
            RetryResult::NotUsed
        } else if alive {
            RetryResult::Recovered
        } else {
            RetryResult::Exhausted
        },
        fault: if alive {
            LaneFault::Healthy
        } else if isolation == SessionIsolation::Reuse {
            LaneFault::Down(failure_class_of(result))
        } else {
            LaneFault::Recorded(failure_class_of(result))
        },
        reply: match result {
            CallResult::Failed(error) => if error.phase
                == ToolCallFailurePhase::DispatchedKnownRefusal {
                if error.source == ServiceError::Refused {
                    CallReply::UpstreamRefusal
                } else {
                    CallReply::Bounded { phase: error.phase, retryable: false }
                }
            } else {
                CallReply::Bounded { phase: error.phase, retryable: error.retryable }
            },
            _ => CallReply::PassThrough,
        },
    }
}

/// Settle a finished attempt. A failure of the upstream counts against the
/// breaker, and on a shared session takes the lane down.
pub fn finish_call_response(result: CallResult, attempts: usize, isolation: SessionIsolation) -> (r:
    CallSettlement)
    ensures
        r == settlement(result, attempts, isolation),
{
    let (alive, class) = match result {
        CallResult::Answered => (true, UpstreamErrorClass::Protocol),
        CallResult::ProcessingFailed { upstream_failure } => (
            !upstream_failure,
            UpstreamErrorClass::Protocol,
        ),
        CallResult::Failed(error) => (
            error.phase == ToolCallFailurePhase::DispatchedKnownRefusal,
            error.error_class(),
        ),
    };
    let reply = match result {
        CallResult::Failed(error) => {
            if error.phase == ToolCallFailurePhase::DispatchedKnownRefusal {
                if error.source == ServiceError::Refused {
                    CallReply::UpstreamRefusal
                } else {
                    CallReply::Bounded { phase: error.phase, retryable: false }
                }
            } else {
                CallReply::Bounded { phase: error.phase, retryable: error.retryable }
            }
        },
        _ => CallReply::PassThrough,
    };
    CallSettlement {
        permit: if alive {
            PermitDisposition::Success
        } else {
            PermitDisposition::Failure
        },
        retry: if attempts <= 1 {
            RetryResult::NotUsed
        } else if alive {
            RetryResult::Recovered
        } else {
            RetryResult::Exhausted
        },
        fault: if alive {
            LaneFault::Healthy
        } else if isolation == SessionIsolation::Reuse {
            LaneFault::Down(class)
        } else {
            LaneFault::Recorded(class)
        },
        reply,
    }
}

/// The breaker hears of a failure exactly when the lane keeps a mark of it, and
/// a per-call session never takes a shared lane down.
pub proof fn faults_and_permits_agree(
    result: CallResult,
    attempts: usize,
    isolation: SessionIsolation,
)
    ensures
        (settlement(result, attempts, isolation).permit == PermitDisposition::Failure) <==> (
        settlement(result, attempts, isolation).fault != LaneFault::Healthy),
        settlement(result, attempts, isolation).permit != PermitDisposition::Neutral,
        isolation == SessionIsolation::PerCall ==> !(settlement(
            result,
            attempts,
            isolation,
        ).fault is Down),
{
}

/// No version before 2026-07-28 has anything mirrored to it, and nothing but
/// elicitation ever crosses the upstream leg.
pub proof fn only_elicitation_crosses(
    caller: Option<Capabilities>,
    version: Option<Seq<char>>,
)
    ensures
        mirrored(caller, version) is Some ==> speaks_2026(version) && mirrored(caller, version)->0
            == Capabilities::only_elicitation(caller->0.elicitation),
        version is Some && name_lt(version->0, "2026-07-28"@) ==> mirrored(caller, version)
            is None,
        caller is None ==> mirrored(caller, version) is None,
{
}

/// A call is safe to replay exactly where a contract admits it that is known to
/// need no approval and declares no side effects, no approval gates it and it
/// continues no earlier exchange.
pub proof fn harmless_calls_are_replay_safe(
    admitted: Option<Contract>,
    has_continuation: bool,
    approval_gated: bool,
)
    ensures
        admitted is Some && !admitted->0.facts.side_effects && !admitted->0.facts.requires_approval
            && admitted->0.facts.requires_approval_known && !has_continuation && !approval_gated
            ==> replay_safe(admitted, has_continuation, approval_gated),
        admitted is None ==> !replay_safe(admitted, has_continuation, approval_gated),
        admitted is Some && admitted->0.facts.side_effects ==> !replay_safe(
            admitted,
            has_continuation,
            approval_gated,
        ),
        admitted is Some && admitted->0.facts.requires_approval ==> !replay_safe(
            admitted,
            has_continuation,
            approval_gated,
        ),
        admitted is Some && !admitted->0.facts.requires_approval_known ==> !replay_safe(
            admitted,
            has_continuation,
            approval_gated,
        ),
        has_continuation || approval_gated ==> !replay_safe(
            admitted,
            has_continuation,
            approval_gated,
        ),
{
}

/// A lane speaks the 2026 generation exactly where it negotiated a version that
/// is not older; an upstream is held to older ones by SSE or by its manifest.
pub proof fn generations_are_told_apart(version: Option<Seq<char>>, manifest: Manifest)
    ensures
        version is None ==> !speaks_2026(version),
        version is Some ==> (speaks_2026(version) <==> version->0 == "2026-07-28"@ || name_lt(
            "2026-07-28"@,
            version->0,
        )),
        manifest.transport == Transport::Sse ==> legacy_only(manifest),
        manifest.protocol == UpstreamProtocol::Legacy ==> legacy_only(manifest),
        manifest.transport != Transport::Sse && manifest.protocol != UpstreamProtocol::Legacy
            ==> !legacy_only(manifest),
{
    if version is Some {
        crate::names::lemma_lt_total(version->0, "2026-07-28"@);
        crate::names::lemma_lt_irreflexive("2026-07-28"@);
        if name_lt("2026-07-28"@, version->0) {
            crate::names::lemma_lt_asymmetric("2026-07-28"@, version->0);
        }
    }
}

/// A caller's elicitation is mirrored to every lane of the 2026 generation, and
/// none of its other capabilities is.
pub proof fn elicitation_is_mirrored(caller: Capabilities, version: Option<Seq<char>>)
    ensures
        speaks_2026(version) ==> mirrored(Some(caller), version) is Some,
        mirrored(Some(caller), version) is Some ==> {
            let shown = mirrored(Some(caller), version)->0;
            &&& shown.elicitation == caller.elicitation
            &&& shown.sampling is None
            &&& shown.roots is None
            &&& shown.extensions is None
            &&& shown.experimental is None
        },
        !speaks_2026(version) ==> mirrored(Some(caller), version) is None,
        Capabilities::only_elicitation(caller.elicitation).elicitation == caller.elicitation,
        Capabilities::only_elicitation(caller.elicitation).sampling is None,
{
}

/// An answer, a fault of this side in handling one, and a refusal by the upstream
/// all show a live upstream; every other failure counts against it.
pub proof fn refusals_show_a_live_upstream(
    result: CallResult,
    attempts: usize,
    isolation: SessionIsolation,
)
    ensures
        ({
            let settled = settlement(result, attempts, isolation);
            &&& result is Answered ==> settled.permit == PermitDisposition::Success
                && settled.fault == LaneFault::Healthy && settled.reply is PassThrough
            &&& result is ProcessingFailed ==> settled.reply is PassThrough
            &&& result is ProcessingFailed && !result->upstream_failure ==> settled.permit
                == PermitDisposition::Success && settled.fault == LaneFault::Healthy
            &&& result is ProcessingFailed && result->upstream_failure ==> settled.permit
                == PermitDisposition::Failure && settled.fault != LaneFault::Healthy
            &&& result is Failed && result->Failed_0.phase
                == ToolCallFailurePhase::DispatchedKnownRefusal ==> settled.permit
                == PermitDisposition::Success && settled.fault == LaneFault::Healthy
            &&& result is Failed && result->Failed_0.phase
                != ToolCallFailurePhase::DispatchedKnownRefusal ==> settled.permit
                == PermitDisposition::Failure && settled.fault != LaneFault::Healthy
        }),
{
}

/// A failure takes down the lane whose session is reused and is only recorded
/// where each call has its own; its class is that of the error, or a protocol
/// error where the answer could not be handled.
pub proof fn failures_take_down_reused_lanes(
    result: CallResult,
    attempts: usize,
    isolation: SessionIsolation,
)
    ensures
        ({
            let settled = settlement(result, attempts, isolation);
            let class = if result is Failed {
                match result->Failed_0.source {
                    ServiceError::Timeout { .. } => UpstreamErrorClass::Timeout,
                    ServiceError::Cancelled => UpstreamErrorClass::Timeout,
                    ServiceError::Transport => UpstreamErrorClass::Transport,
                    _ => UpstreamErrorClass::Protocol,
                }
            } else {
                UpstreamErrorClass::Protocol
            };
            &&& settled.permit == PermitDisposition::Failure && isolation
                == SessionIsolation::Reuse ==> settled.fault == LaneFault::Down(class)
            &&& settled.permit == PermitDisposition::Failure && isolation
                == SessionIsolation::PerCall ==> settled.fault == LaneFault::Recorded(class)
        }),
{
}

/// A retry is told only where there was one: as recovered where the upstream
/// proved alive after it, as exhausted where it did not.
pub proof fn retries_are_told_by_their_end(
    result: CallResult,
    attempts: usize,
    isolation: SessionIsolation,
)
    ensures
        ({
            let settled = settlement(result, attempts, isolation);
            &&& attempts <= 1 ==> settled.retry == RetryResult::NotUsed
            &&& attempts > 1 && settled.permit == PermitDisposition::Success ==> settled.retry
                == RetryResult::Recovered
            &&& attempts > 1 && settled.permit == PermitDisposition::Failure ==> settled.retry
                == RetryResult::Exhausted
        }),
{
}

/// A refusal by the upstream reaches the caller as it is; any other failure is
/// bounded to its phase, and only one before the dispatch keeps its offer of a
/// retry.
pub proof fn failures_are_bounded_to_their_phase(
    error: ToolCallAttemptError,
    attempts: usize,
    isolation: SessionIsolation,
)
    ensures
        ({
            let reply = settlement(CallResult::Failed(error), attempts, isolation).reply;
            &&& error.phase == ToolCallFailurePhase::DispatchedKnownRefusal && error.source
                == ServiceError::Refused ==> reply == CallReply::UpstreamRefusal
            &&& error.phase == ToolCallFailurePhase::DispatchedKnownRefusal && error.source
                != ServiceError::Refused ==> reply == (CallReply::Bounded {
                phase: error.phase,
                retryable: false,
            })
            &&& error.phase != ToolCallFailurePhase::DispatchedKnownRefusal ==> reply == (
            CallReply::Bounded { phase: error.phase, retryable: error.retryable })
        }),
{
}

/// Only a dial that reached the handshake failed in it.
pub proof fn dials_fail_before_or_in_the_handshake(error: DialError)
    ensures
        error == DialError::Init ==> ToolCallFailurePhase::spec_from_dial_error(error)
            == ToolCallFailurePhase::Initialize,
        error == DialError::HandshakeTimeout ==> ToolCallFailurePhase::spec_from_dial_error(error)
            == ToolCallFailurePhase::Initialize,
        error != DialError::Init && error != DialError::HandshakeTimeout
            ==> ToolCallFailurePhase::spec_from_dial_error(error) == ToolCallFailurePhase::Dial,
{
}

/// A drawn identifier is thirty-two lower-case hexadecimal digits that mark
/// version four and its variant.
pub proof fn drawn_identifiers_are_marked(text: Seq<char>, i: int)
    requires
        random_id(text),
        0 <= i < text.len(),
    ensures
        text.len() == 32,
        text[12] == '4',
        text[16] == '8' || text[16] == '9' || text[16] == 'a' || text[16] == 'b',
        ('0' <= text[i] && text[i] <= '9') || ('a' <= text[i] && text[i] <= 'f'),
{
    assert(hex_digit(text[i]));
}

/// The view of the capabilities of a client says every field of it as it is.
pub proof fn client_capabilities_is_said_whole(value: ClientCapabilities)
    ensures
        value.deep_view().elicitation == value.elicitation.deep_view(),
        value.deep_view().sampling == value.sampling.deep_view(),
        value.deep_view().roots == value.roots.deep_view(),
        value.deep_view().extensions == value.extensions.deep_view(),
        value.deep_view().experimental == value.experimental.deep_view(),
{
}

} // verus!
