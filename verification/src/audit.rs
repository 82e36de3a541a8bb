//! What operators are told of reconnects, refreshes and drift.

use vstd::prelude::*;

use crate::clock::NANOS_PER_MILLI;
use crate::drift::DriftReport;
use crate::freshness::CatalogFreshnessTrigger;
use crate::manifest::RiskTier;
use crate::reconnect::ReconnectFailure;
use crate::redial::RedialOutcome;
use crate::refusal_record::RejectedOutputSchema;
use crate::text::{decimal, decimal_digits, join3, join4, join5};

verus! {

/// How an event ended.
#[derive(Clone, Copy, Debug, PartialEq, Eq, Structural)]
pub enum AuditOutcome {
    Success,
    ExecutionError,
    Denied,
}

/// What a recorded event says.
#[derive(Debug, PartialEq, Eq)]
pub struct AuditRow {
    pub outcome: AuditOutcome,
    pub reason: String,
}

/// Risk tier as shown in a reason.
pub open spec fn tier_label(risk: Option<RiskTier>) -> Seq<char> {
    match risk {
        Some(RiskTier::Low) => "Low"@,
        Some(RiskTier::Medium) => "Medium"@,
        Some(RiskTier::High) => "High"@,
        None => "unclassified"@,
    }
}

fn risk_label(risk: Option<RiskTier>) -> (r: &'static str)
    ensures
        r@ == tier_label(risk),
{
    match risk {
        Some(RiskTier::Low) => "Low",
        Some(RiskTier::Medium) => "Medium",
        Some(RiskTier::High) => "High",
        None => "unclassified",
    }
}

/// The event of a tool whose behavior changed. A quarantine names both reasons
/// for which a tool may be covered, risk and side effects.
pub fn drift_row(drift: &DriftReport) -> (r: AuditRow)
    ensures
        r.outcome == if drift.quarantined {
            AuditOutcome::Denied
        } else {
            AuditOutcome::Success
        },
        r.reason@ == if drift.quarantined {
            "behavior drift on "@ + tier_label(drift.risk) + "-risk tool (side_effects="@ + (
            if drift.side_effects {
                "true"@
            } else {
                "false"@
            })
                + ") → quarantined (live schemas or security metadata diverged from the last observation)"@
        } else {
            "behavior drift detected (live schemas or security metadata diverged from last observation)"@
        },
{
    if drift.quarantined {
        let effects = if drift.side_effects {
            "true"
        } else {
            "false"
        };
        AuditRow {
            outcome: AuditOutcome::Denied,
            reason: join5(
                "behavior drift on ",
                risk_label(drift.risk),
                "-risk tool (side_effects=",
                effects,
                ") → quarantined (live schemas or security metadata diverged from the last observation)",
            ),
        }
    } else {
        AuditRow {
            outcome: AuditOutcome::Success,
            reason: "behavior drift detected (live schemas or security metadata diverged from last observation)".to_owned(),
        }
    }
}

/// How a re-dial ended, as shown in a reason.
pub open spec fn redial_label(outcome: RedialOutcome) -> Seq<char> {
    match outcome {
        RedialOutcome::Redialed => "outcome=redialed"@,
        RedialOutcome::Failed => "outcome=failed"@,
        RedialOutcome::Superseded => "outcome=superseded"@,
        RedialOutcome::Tombstoned => "outcome=removed"@,
    }
}

/// The event of a catalog refresh, with what scheduled it if anything did.
pub fn refresh_row(outcome: RedialOutcome, trigger: Option<CatalogFreshnessTrigger>) -> (r: AuditRow)
    ensures
        r.outcome == if outcome == RedialOutcome::Redialed {
            AuditOutcome::Success
        } else {
            AuditOutcome::ExecutionError
        },
        r.reason@ == match trigger {
            Some(trigger) => redial_label(outcome) + " trigger="@ + trigger.spec_as_str(),
            None => redial_label(outcome),
        },
{
    let label = match outcome {
        RedialOutcome::Redialed => "outcome=redialed",
        RedialOutcome::Failed => "outcome=failed",
        RedialOutcome::Superseded => "outcome=superseded",
        RedialOutcome::Tombstoned => "outcome=removed",
    };
    AuditRow {
        outcome: if outcome == RedialOutcome::Redialed {
            AuditOutcome::Success
        } else {
            AuditOutcome::ExecutionError
        },
        reason: match trigger {
            Some(trigger) => join3(label, " trigger=", trigger.as_str()),
            None => label.to_owned(),
        },
    }
}

/// The event of a tool that is published without the output schema its upstream
/// advertised.
pub fn refused_schema_row(rejected: &RejectedOutputSchema) -> (r: AuditRow)
    ensures
        r.outcome == AuditOutcome::ExecutionError,
        r.reason@ == "advertised output schema root is `"@ + rejected.observed_type@
            + "`, not `object`; tool published without an output contract. A strict MCP client rejects the entire tools/list response over one such tool — fix the upstream definition."@,
{
    AuditRow {
        outcome: AuditOutcome::ExecutionError,
        reason: join3(
            "advertised output schema root is `",
            rejected.observed_type.as_str(),
            "`, not `object`; tool published without an output contract. A strict MCP client rejects the entire tools/list response over one such tool — fix the upstream definition.",
        ),
    }
}

/// The event of an upstream that recovered.
pub fn reconnected_row(server: &str, tools: usize, healed: usize, failed_attempts: u64) -> (r:
    AuditRow)
    ensures
        r.outcome == AuditOutcome::Success,
        r.reason@ == "server="@ + server@ + " tools="@ + decimal_digits(tools as nat) + " slots="@
            + decimal_digits(healed as nat) + " failed_attempts="@ + decimal_digits(
            failed_attempts as nat,
        ),
{
    let tools = decimal(tools as u128);
    let healed = decimal(healed as u128);
    let attempts = decimal(failed_attempts as u128);
    let mut reason = join5("server=", server, " tools=", tools.as_str(), " slots=");
    reason.append(healed.as_str());
    reason.append(" failed_attempts=");
    reason.append(attempts.as_str());
    AuditRow { outcome: AuditOutcome::Success, reason }
}

/// The event of a failed reconnect. Only the failure that begins an episode is
/// an event; those that follow it are not.
pub fn reconnect_failed_row(server: &str, error: &str, failure: ReconnectFailure) -> (r: Option<
    AuditRow,
>)
    ensures
        r is Some <==> failure.episode_started,
        r is Some ==> r->0.outcome == AuditOutcome::ExecutionError && r->0.reason@ == "server="@
            + server@ + " error="@ + error@ + " episode_attempt=1 next_retry_ms="@
            + decimal_digits((failure.backoff.nanos / NANOS_PER_MILLI) as nat),
{
    if !failure.episode_started {
        return None;
    }
    let wait = decimal(failure.backoff.nanos / NANOS_PER_MILLI);
    let mut reason = join5("server=", server, " error=", error, " episode_attempt=1 next_retry_ms=");
    reason.append(wait.as_str());
    Some(AuditRow { outcome: AuditOutcome::ExecutionError, reason })
}

/// The event of a re-dial all of whose dials failed.
pub fn redial_failed_row(server: &str, detail: Option<&String>) -> (r: AuditRow)
    ensures
        r.outcome == AuditOutcome::ExecutionError,
        r.reason@ == "server="@ + server@ + " error="@ + match detail {
            Some(detail) => detail@,
            None => "unknown"@,
        },
{
    let detail = match detail {
        Some(detail) => detail.as_str(),
        None => "unknown",
    };
    AuditRow {
        outcome: AuditOutcome::ExecutionError,
        reason: join4("server=", server, " error=", detail),
    }
}

/// The event of a re-dial that took effect.
pub fn redialed_row(server: &str, redialed: usize, down: usize) -> (r: AuditRow)
    ensures
        r.outcome == AuditOutcome::Success,
        r.reason@ == "server="@ + server@ + " redialed="@ + decimal_digits(redialed as nat)
            + " down="@ + decimal_digits(down as nat),
{
    let redialed = decimal(redialed as u128);
    let down = decimal(down as u128);
    let mut reason = join5("server=", server, " redialed=", redialed.as_str(), " down=");
    reason.append(down.as_str());
    AuditRow { outcome: AuditOutcome::Success, reason }
}

/// Each tier and each outcome of a re-dial has its own label, and so has a tool
/// without a tier.
pub proof fn labels_tell_rows_apart()
    ensures
        tier_label(Some(RiskTier::Low)) == "Low"@,
        tier_label(Some(RiskTier::Medium)) == "Medium"@,
        tier_label(Some(RiskTier::High)) == "High"@,
        tier_label(None) == "unclassified"@,
        redial_label(RedialOutcome::Redialed) == "outcome=redialed"@,
        redial_label(RedialOutcome::Failed) == "outcome=failed"@,
        redial_label(RedialOutcome::Superseded) == "outcome=superseded"@,
        redial_label(RedialOutcome::Tombstoned) == "outcome=removed"@,
{
}

} // verus!
