//! Conservative recovery of a call that dials a session of its own.
//!
//! A second attempt is made only when the admitted contract is safe to repeat
//! and the failed phase proves that the request never entered the transport.
//! One recovery attempt is shared by every phase of a call.

use vstd::prelude::*;

use crate::admission::{admitted_in_catalog, tool_is_admitted_in_catalog};
use crate::binding::InvocationContract;
use crate::clock::{Duration, Instant};
use crate::dispatch::{
    admitted_safe_retry, replay_safe, CallResult, ServiceError, ToolCallAttemptError,
};
use crate::error::{
    about_tool, bounded, bounded_upstream_error, contract_changed_error,
    per_call_contract_differs, plain, ErrorKind, PoolError, ToolCallFailurePhase,
};
use crate::health::{DialError, UpstreamErrorClass};
use crate::manifest::{ClassificationMode, Manifest, Transport, UpstreamManifest};
use crate::tools::Tool;

verus! {

/// Time left until the deadline.
pub open spec fn time_left(deadline: Option<Instant>, now: Instant) -> Option<Duration> {
    match deadline {
        Some(deadline) => Some(deadline.spec_since(now)),
        None => None,
    }
}

pub fn remaining(deadline: Option<Instant>, now: Instant) -> (r: Option<Duration>)
    ensures
        r == time_left(deadline, now),
{
    match deadline {
        Some(deadline) => Some(deadline.saturating_duration_since(now)),
        None => None,
    }
}

/// The deadline has not come yet, or there is none.
pub open spec fn live(deadline: Option<Instant>, now: Instant) -> bool {
    deadline is None || deadline->0.nanos > now.nanos
}

pub fn deadline_is_live(deadline: Option<Instant>, now: Instant) -> (b: bool)
    ensures
        b == live(deadline, now),
{
    match deadline {
        Some(deadline) => deadline.nanos > now.nanos,
        None => true,
    }
}

/// Time a request may take; a deadline that has come refuses the request before
/// it is handed over.
pub fn handoff_budget(deadline: Option<Instant>, timeout: Option<Duration>, now: Instant) -> (r:
    Result<Option<Duration>, ToolCallAttemptError>)
    ensures
        live(deadline, now) ==> r == Ok::<Option<Duration>, ToolCallAttemptError>(
            time_left(deadline, now),
        ),
        !live(deadline, now) ==> r == Err::<Option<Duration>, ToolCallAttemptError>(
            expired(timeout),
        ),
{
    match remaining(deadline, now) {
        Some(budget) if budget.is_zero() => {
            let limit = match timeout {
                Some(limit) => limit,
                None => Duration::zero(),
            };
            Err(ToolCallAttemptError::before_dispatch(ServiceError::Timeout { timeout: limit }))
        },
        budget => Ok(budget),
    }
}

/// The error of a request that was out of time before it was handed over.
pub open spec fn expired(timeout: Option<Duration>) -> ToolCallAttemptError {
    ToolCallAttemptError {
        phase: ToolCallFailurePhase::PreDispatch,
        source: ServiceError::Timeout {
            timeout: match timeout {
                Some(limit) => limit,
                None => Duration { nanos: 0 },
            },
        },
        retryable: false,
    }
}

/// A failure in this phase may be followed by another attempt.
pub open spec fn retries(
    safe_retry: bool,
    attempts: usize,
    phase: ToolCallFailurePhase,
    deadline: Option<Instant>,
    now: Instant,
) -> bool {
    safe_retry && attempts == 1 && phase.proves_absence() && live(deadline, now)
}

pub fn can_retry(
    safe_retry: bool,
    attempts: usize,
    phase: ToolCallFailurePhase,
    deadline: Option<Instant>,
    now: Instant,
) -> (b: bool)
    ensures
        b == retries(safe_retry, attempts, phase, deadline, now),
{
    safe_retry && attempts == 1 && phase.dispatch_proven_absent() && deadline_is_live(deadline, now)
}

/// A call may be recovered at all: it runs over streamable HTTP, the manifest
/// does not forbid it, and repeating it cannot do harm.
pub open spec fn recoverable(manifest: Manifest, replay_is_safe: bool) -> bool {
    &&& manifest.transport == Transport::Http
    &&& manifest.setup_retry() != Some(false)
    &&& replay_is_safe
}

pub fn safe_retry(
    manifest: &UpstreamManifest,
    admitted: Option<&InvocationContract>,
    has_continuation: bool,
    approval_gated: bool,
) -> (b: bool)
    ensures
        b == recoverable(
            manifest.deep_view(),
            replay_safe(admitted.deep_view(), has_continuation, approval_gated),
        ),
{
    let permitted = match &manifest.session {
        Some(session) => match session.retry_on_setup_failure {
            Some(retry) => retry,
            None => true,
        },
        None => true,
    };
    manifest.transport == Transport::Http && permitted && admitted_safe_retry(
        admitted,
        has_continuation,
        approval_gated,
    )
}

/// Where a per-call execution stands.
#[derive(Clone, Copy, Debug, PartialEq, Eq, Structural)]
pub enum PerCallStage {
    Dialing,
    /// Reading what the session advertises, in annotation mode.
    ReadingContract,
    CheckingReview,
    Sending,
    Ended,
}

/// One per-call session through its complete lifecycle.
pub struct PerCallExecution {
    pub server: String,
    pub tool_name: String,
    pub trace_id: String,
    pub annotation_mode: bool,
    pub safe_retry: bool,
    pub deadline: Option<Instant>,
    pub timeout: Option<Duration>,
    pub attempts: usize,
    pub stage: PerCallStage,
}

/// What the program does next.
#[derive(Debug, PartialEq, Eq)]
pub enum PerCallAction {
    /// Close the session if there is one, count a retry and dial again.
    DialAgain,
    ReadContract,
    CheckReview,
    /// Send the request within this time.
    Send { budget: Option<Duration> },
    /// Close the session; the request was sent or was too late to be sent.
    Finish { result: CallResult, attempts: usize },
    /// Close the session if there is one; the request was never sent.
    Fail { error: PoolError, class: UpstreamErrorClass },
}

impl PerCallExecution {
    /// At most one recovery attempt is made, and only for a safe call.
    pub open spec fn wf(self) -> bool {
        &&& 1 <= self.attempts <= 2
        &&& self.attempts == 2 ==> self.safe_retry
    }

    /// Everything that does not move during an execution.
    pub open spec fn same_call(self, other: Self) -> bool {
        &&& self.server == other.server
        &&& self.tool_name == other.tool_name
        &&& self.trace_id == other.trace_id
        &&& self.annotation_mode == other.annotation_mode
        &&& self.safe_retry == other.safe_retry
        &&& self.deadline == other.deadline
        &&& self.timeout == other.timeout
    }

    /// A failure in this phase is followed by another attempt.
    pub open spec fn recovers(self, phase: ToolCallFailurePhase, now: Instant) -> bool {
        retries(self.safe_retry, self.attempts, phase, self.deadline, now)
    }

    /// Start an execution; its first step is to dial.
    pub fn begin(
        server: &str,
        tool_name: &str,
        trace_id: &str,
        mode: ClassificationMode,
        safe_retry: bool,
        deadline: Option<Instant>,
        timeout: Option<Duration>,
    ) -> (r: Self)
        ensures
            r.wf(),
            r.server@ == server@,
            r.tool_name@ == tool_name@,
            r.trace_id@ == trace_id@,
            r.annotation_mode == (mode == ClassificationMode::McpAnnotations),
            r.safe_retry == safe_retry,
            r.deadline == deadline,
            r.timeout == timeout,
            r.attempts == 1,
            r.stage == PerCallStage::Dialing,
    {
        PerCallExecution {
            server: server.to_owned(),
            tool_name: tool_name.to_owned(),
            trace_id: trace_id.to_owned(),
            annotation_mode: mode == ClassificationMode::McpAnnotations,
            safe_retry,
            deadline,
            timeout,
            attempts: 1,
            stage: PerCallStage::Dialing,
        }
    }

    /// The dial succeeded.
    pub fn dialed(&mut self) -> (action: PerCallAction)
        requires
            old(self).wf(),
            old(self).stage == PerCallStage::Dialing,
        ensures
            final(self).wf(),
            final(self).same_call(*old(self)),
            final(self).attempts == old(self).attempts,
            if old(self).annotation_mode {
                action is ReadContract && final(self).stage == PerCallStage::ReadingContract
            } else {
                action is CheckReview && final(self).stage == PerCallStage::CheckingReview
            },
    {
        if self.annotation_mode {
            self.stage = PerCallStage::ReadingContract;
            PerCallAction::ReadContract
        } else {
            self.stage = PerCallStage::CheckingReview;
            PerCallAction::CheckReview
        }
    }

    /// The dial failed.
    pub fn dial_failed(&mut self, error: DialError, now: Instant) -> (action: PerCallAction)
        requires
            old(self).wf(),
            old(self).stage == PerCallStage::Dialing,
        ensures
            final(self).wf(),
            final(self).same_call(*old(self)),
            ({
                let phase = ToolCallFailurePhase::spec_from_dial_error(error);
                if old(self).recovers(phase, now) {
                    &&& action is DialAgain
                    &&& final(self).attempts == 2
                    &&& final(self).stage == PerCallStage::Dialing
                } else {
                    &&& final(self).attempts == old(self).attempts
                    &&& final(self).stage == PerCallStage::Ended
                    &&& action is Fail
                    &&& bounded(
                        action->Fail_error,
                        old(self).server@,
                        phase,
                        old(self).safe_retry && live(old(self).deadline, now),
                        old(self).attempts,
                        old(self).trace_id@,
                    )
                    &&& action->Fail_class == UpstreamErrorClass::spec_from_dial_error(error)
                }
            }),
    {
        let phase = ToolCallFailurePhase::from_dial_error(error);
        if can_retry(self.safe_retry, self.attempts, phase, self.deadline, now) {
            self.attempts = self.attempts + 1;
            return PerCallAction::DialAgain;
        }
        self.stage = PerCallStage::Ended;
        let retryable = phase.dispatch_proven_absent() && self.safe_retry && deadline_is_live(
            self.deadline,
            now,
        );
        PerCallAction::Fail {
            error: bounded_upstream_error(
                self.server.as_str(),
                phase,
                retryable,
                self.attempts,
                self.trace_id.as_str(),
            ),
            class: UpstreamErrorClass::from_dial_error(error),
        }
    }

    /// The session's listing was read under the manifest now in force. `recorded`
    /// says whether its tool was recorded for review, and `allowed` whether that
    /// review lets it be called.
    pub fn contract_read(
        &mut self,
        manifest: &UpstreamManifest,
        tools: &Vec<Tool>,
        recorded: bool,
        allowed: bool,
    ) -> (action: PerCallAction)
        requires
            old(self).wf(),
            old(self).stage == PerCallStage::ReadingContract,
        ensures
            final(self).wf(),
            final(self).same_call(*old(self)),
            final(self).attempts == old(self).attempts,
            if recorded && allowed && admitted_in_catalog(
                manifest.deep_view(),
                tools.deep_view(),
                old(self).tool_name@,
            ) {
                action is CheckReview && final(self).stage == PerCallStage::CheckingReview
            } else {
                &&& final(self).stage == PerCallStage::Ended
                &&& action is Fail
                &&& plain(
                    action->Fail_error,
                    ErrorKind::Internal,
                    about_tool(
                        old(self).server@,
                        "` per-call session advertises a different contract for `"@,
                        old(self).tool_name@,
                        "` than the approved behavior"@,
                    ),
                )
                &&& action->Fail_class == UpstreamErrorClass::Protocol
            },
    {
        if recorded && allowed && tool_is_admitted_in_catalog(
            manifest,
            tools,
            self.tool_name.as_str(),
        ) {
            self.stage = PerCallStage::CheckingReview;
            return PerCallAction::CheckReview;
        }
        self.stage = PerCallStage::Ended;
        PerCallAction::Fail {
            error: per_call_contract_differs(self.server.as_str(), self.tool_name.as_str()),
            class: UpstreamErrorClass::Protocol,
        }
    }

    /// The session's listing could not be read.
    pub fn contract_read_failed(&mut self, class: UpstreamErrorClass, now: Instant) -> (action:
        PerCallAction)
        requires
            old(self).wf(),
            old(self).stage == PerCallStage::ReadingContract,
        ensures
            final(self).wf(),
            final(self).same_call(*old(self)),
            if old(self).recovers(ToolCallFailurePhase::PreDispatch, now) {
                &&& action is DialAgain
                &&& final(self).attempts == 2
                &&& final(self).stage == PerCallStage::Dialing
            } else {
                &&& final(self).attempts == old(self).attempts
                &&& final(self).stage == PerCallStage::Ended
                &&& action is Fail
                &&& bounded(
                    action->Fail_error,
                    old(self).server@,
                    ToolCallFailurePhase::PreDispatch,
                    old(self).safe_retry,
                    old(self).attempts,
                    old(self).trace_id@,
                )
                &&& action->Fail_class == class
            },
    {
        let phase = ToolCallFailurePhase::PreDispatch;
        if can_retry(self.safe_retry, self.attempts, phase, self.deadline, now) {
            self.attempts = self.attempts + 1;
            self.stage = PerCallStage::Dialing;
            return PerCallAction::DialAgain;
        }
        self.stage = PerCallStage::Ended;
        PerCallAction::Fail {
            error: bounded_upstream_error(
                self.server.as_str(),
                phase,
                self.safe_retry,
                self.attempts,
                self.trace_id.as_str(),
            ),
            class,
        }
    }

    /// The review of the advertised tool allows the call, or does not.
    pub fn review_decided(&mut self, allowed: bool, now: Instant) -> (action: PerCallAction)
        requires
            old(self).wf(),
            old(self).stage == PerCallStage::CheckingReview,
        ensures
            final(self).wf(),
            final(self).same_call(*old(self)),
            final(self).attempts == old(self).attempts,
            if !allowed {
                &&& final(self).stage == PerCallStage::Ended
                &&& action is Fail
                &&& plain(
                    action->Fail_error,
                    ErrorKind::Internal,
                    about_tool(
                        old(self).server@,
                        "` configuration or approved contract for `"@,
                        old(self).tool_name@,
                        "` changed during call setup — retry the call"@,
                    ),
                )
                &&& action->Fail_class == UpstreamErrorClass::Protocol
            } else if live(old(self).deadline, now) {
                &&& final(self).stage == PerCallStage::Sending
                &&& action == (PerCallAction::Send { budget: time_left(old(self).deadline, now) })
            } else {
                &&& final(self).stage == PerCallStage::Ended
                &&& action == (PerCallAction::Finish {
                    result: CallResult::Failed(expired(old(self).timeout)),
                    attempts: old(self).attempts,
                })
            },
    {
        if !allowed {
            self.stage = PerCallStage::Ended;
            return PerCallAction::Fail {
                error: contract_changed_error(self.server.as_str(), self.tool_name.as_str()),
                class: UpstreamErrorClass::Protocol,
            };
        }
        match handoff_budget(self.deadline, self.timeout, now) {
            Ok(budget) => {
                self.stage = PerCallStage::Sending;
                PerCallAction::Send { budget }
            },
            Err(error) => {
                self.stage = PerCallStage::Ended;
                PerCallAction::Finish {
                    result: CallResult::Failed(error),
                    attempts: self.attempts,
                }
            },
        }
    }

    /// The upstream answered.
    pub fn answered(&mut self, result: CallResult) -> (action: PerCallAction)
        requires
            old(self).wf(),
            old(self).stage == PerCallStage::Sending,
            !(result is Failed),
        ensures
            final(self).wf(),
            final(self).same_call(*old(self)),
            final(self).attempts == old(self).attempts,
            final(self).stage == PerCallStage::Ended,
            action == (PerCallAction::Finish { result, attempts: old(self).attempts }),
    {
        self.stage = PerCallStage::Ended;
        PerCallAction::Finish { result, attempts: self.attempts }
    }

    /// The request failed. It is repeated only where it never entered the
    /// transport; otherwise its outcome is unknown and must not be replayed.
    pub fn send_failed(&mut self, error: ToolCallAttemptError, now: Instant) -> (action:
        PerCallAction)
        requires
            old(self).wf(),
            old(self).stage == PerCallStage::Sending,
        ensures
            final(self).wf(),
            final(self).same_call(*old(self)),
            if old(self).recovers(error.phase, now) {
                &&& action is DialAgain
                &&& final(self).attempts == 2
                &&& final(self).stage == PerCallStage::Dialing
            } else {
                &&& final(self).attempts == old(self).attempts
                &&& final(self).stage == PerCallStage::Ended
                &&& action == (PerCallAction::Finish {
                    result: CallResult::Failed(
                        ToolCallAttemptError {
                            retryable: old(self).safe_retry && error.phase.proves_absence()
                                && live(old(self).deadline, now),
                            ..error
                        },
                    ),
                    attempts: old(self).attempts,
                })
            },
    {
        if can_retry(self.safe_retry, self.attempts, error.phase, self.deadline, now) {
            self.attempts = self.attempts + 1;
            self.stage = PerCallStage::Dialing;
            return PerCallAction::DialAgain;
        }
        self.stage = PerCallStage::Ended;
        let retryable = self.safe_retry && error.phase.dispatch_proven_absent()
            && deadline_is_live(self.deadline, now);
        PerCallAction::Finish {
            result: CallResult::Failed(
                ToolCallAttemptError { phase: error.phase, source: error.source, retryable },
            ),
            attempts: self.attempts,
        }
    }
}

/// An attempt is repeated only for a safe call, only once, only before the
/// deadline, and never after the request may have entered the transport.
pub proof fn recovery_is_single_and_safe(
    execution: PerCallExecution,
    phase: ToolCallFailurePhase,
    now: Instant,
)
    requires
        execution.wf(),
        execution.recovers(phase, now),
    ensures
        execution.safe_retry,
        execution.attempts == 1,
        live(execution.deadline, now),
        phase != ToolCallFailurePhase::DispatchedKnownRefusal,
        phase != ToolCallFailurePhase::DispatchedUnknownOutcome,
{
}

/// A side-effecting call, one that needs or may need an approval, and one that
/// continues an earlier one are never repeated.
pub proof fn harmful_calls_are_never_repeated(
    manifest: Manifest,
    admitted: Option<crate::binding::Contract>,
    has_continuation: bool,
    approval_gated: bool,
)
    requires
        has_continuation || approval_gated || admitted is None || admitted->0.facts.side_effects
            || admitted->0.facts.requires_approval || !admitted->0.facts.requires_approval_known,
    ensures
        !recoverable(manifest, replay_safe(admitted, has_continuation, approval_gated)),
{
}

/// A deadline is live until its moment has come, and the time left is the time
/// until then; without a deadline there is no limit.
pub proof fn a_deadline_is_live_until_it_comes(deadline: Option<Instant>, now: Instant)
    ensures
        deadline is None ==> live(deadline, now) && time_left(deadline, now) is None,
        deadline is Some ==> (live(deadline, now) <==> now.nanos < deadline->0.nanos),
        deadline is Some && live(deadline, now) ==> time_left(deadline, now) is Some && now.nanos
            + time_left(deadline, now)->0.nanos == deadline->0.nanos,
        deadline is Some && !live(deadline, now) ==> time_left(deadline, now) is Some && time_left(
            deadline,
            now,
        )->0.nanos == 0,
{
}

/// A call that ran out of time before it was sent says so with the limit it had,
/// and is not offered for a retry.
pub proof fn an_expired_call_tells_its_limit(timeout: Option<Duration>)
    ensures
        expired(timeout).phase == ToolCallFailurePhase::PreDispatch,
        !expired(timeout).retryable,
        expired(timeout).source is Timeout,
        timeout is Some ==> expired(timeout).source->timeout == timeout->0,
        timeout is None ==> expired(timeout).source->timeout.nanos == 0,
{
}

/// A first attempt that provably never reached the upstream is repeated where the
/// call may be repeated and its deadline has not come; nothing else is.
pub proof fn unsent_first_attempts_are_repeated(
    safe_retry: bool,
    attempts: usize,
    phase: ToolCallFailurePhase,
    deadline: Option<Instant>,
    now: Instant,
)
    ensures
        safe_retry && attempts == 1 && (phase == ToolCallFailurePhase::Dial || phase
            == ToolCallFailurePhase::Initialize || phase == ToolCallFailurePhase::PreDispatch) && (
        deadline is None || now.nanos < deadline->0.nanos) ==> retries(
            safe_retry,
            attempts,
            phase,
            deadline,
            now,
        ),
        !safe_retry ==> !retries(safe_retry, attempts, phase, deadline, now),
        attempts != 1 ==> !retries(safe_retry, attempts, phase, deadline, now),
        phase == ToolCallFailurePhase::DispatchedKnownRefusal || phase
            == ToolCallFailurePhase::DispatchedUnknownOutcome ==> !retries(
            safe_retry,
            attempts,
            phase,
            deadline,
            now,
        ),
        deadline is Some && deadline->0.nanos <= now.nanos ==> !retries(
            safe_retry,
            attempts,
            phase,
            deadline,
            now,
        ),
{
}

/// A call over HTTP that is safe to replay may be repeated unless the session
/// block forbids it; no other call may.
pub proof fn safe_calls_over_http_recover(manifest: Manifest, replay_is_safe: bool)
    ensures
        manifest.transport != Transport::Http ==> !recoverable(manifest, replay_is_safe),
        !replay_is_safe ==> !recoverable(manifest, replay_is_safe),
        manifest.session is Some && manifest.session->0.retry_on_setup_failure == Some(false)
            ==> !recoverable(manifest, replay_is_safe),
        manifest.transport == Transport::Http && replay_is_safe && (manifest.session is None
            || manifest.session->0.retry_on_setup_failure != Some(false)) ==> recoverable(
            manifest,
            replay_is_safe,
        ),
{
}

/// What may be repeated is what the call, its attempts and its deadline allow.
pub proof fn an_execution_recovers_by_its_own_terms(
    execution: PerCallExecution,
    phase: ToolCallFailurePhase,
    now: Instant,
)
    ensures
        execution.recovers(phase, now) <==> retries(
            execution.safe_retry,
            execution.attempts,
            phase,
            execution.deadline,
            now,
        ),
{
}

/// An execution keeps what it calls, what governs it, whether it may be repeated
/// and its limits from its first attempt to its last; it makes one or two, and a
/// second only where it may be repeated.
pub proof fn an_execution_keeps_its_terms(a: PerCallExecution, b: PerCallExecution)
    ensures
        a.same_call(b) <==> a.server == b.server && a.tool_name == b.tool_name && a.trace_id
            == b.trace_id && a.annotation_mode == b.annotation_mode && a.safe_retry == b.safe_retry
            && a.deadline == b.deadline && a.timeout == b.timeout,
        a.wf() <==> a.attempts == 1 || (a.attempts == 2 && a.safe_retry),
{
}

} // verus!
