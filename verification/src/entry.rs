//! One configured upstream and everything the pool knows about it.

use vstd::prelude::*;

use crate::assoc::Assoc;
use crate::clock::{Instant, WallTime};
use crate::health::{UpstreamErrorClass, UpstreamRecovery};
use crate::lane::{some_connected, BreakerState, Connection};
use crate::manifest::UpstreamManifest;
use crate::names::strictly_sorted;
use crate::reconnect::ReconnectState;
use crate::shape::redial_committed_fields_eq;

verus! {

/// One configured upstream: its manifest, its lanes, and the state of its
/// recovery and governance.
pub struct UpstreamEntry {
    /// Identity of this entry. A rebuilt upstream is another entry of the same
    /// name.
    pub id: u64,
    pub manifest: UpstreamManifest,
    pub lanes: Vec<Option<Connection>>,
    /// Whether calls carry the caller's identity.
    pub forwards_identity: bool,
    /// State of the circuit breaker: as last sampled, and closed by every commit
    /// that puts new sessions into service.
    pub breaker: BreakerState,
    pub recovery: UpstreamRecovery,
    pub reconnect: ReconnectState,
    /// Set when the upstream left the configuration. Such an entry serves out
    /// the calls it has and starts nothing new.
    pub removed: bool,
    /// Hash last observed of every tool.
    pub observed_schemas: Assoc<String>,
    /// Names quarantined by observed drift, in order.
    pub quarantined: Vec<String>,
    /// Generation of the newest reload that updated this entry in place.
    pub last_reload_gen: u64,
}

impl UpstreamEntry {
    pub open spec fn wf(self) -> bool {
        &&& self.reconnect.wf()
        &&& self.lanes.len() >= 1
        &&& strictly_sorted(self.quarantined.deep_view())
    }

    /// Everything but the recovery state is as in another entry.
    pub open spec fn same_but_recovery(self, other: Self) -> bool {
        &&& self.id == other.id
        &&& self.manifest == other.manifest
        &&& self.lanes == other.lanes
        &&& self.forwards_identity == other.forwards_identity
        &&& self.breaker == other.breaker
        &&& self.removed == other.removed
        &&& self.observed_schemas == other.observed_schemas
        &&& self.quarantined == other.quarantined
        &&& self.last_reload_gen == other.last_reload_gen
    }

    /// Whether an entry should be re-dialed: a lane is down, or the breaker is
    /// open and its sessions are presumed dead. A removed entry never is.
    pub open spec fn spec_needs_reconnect(self, breaker_open: bool) -> bool {
        &&& !self.removed
        &&& breaker_open || exists|k: int|
            0 <= k < self.lanes.len() && (#[trigger] self.lanes@[k]) is None
    }

    pub fn needs_reconnect(&self, breaker_open: bool) -> (b: bool)
        ensures
            b == self.spec_needs_reconnect(breaker_open),
    {
        if self.removed {
            return false;
        }
        let mut k: usize = 0;
        while k < self.lanes.len()
            invariant
                k <= self.lanes.len(),
                !self.removed,
                forall|j: int| 0 <= j < k ==> (#[trigger] self.lanes@[j]) is Some,
            decreases self.lanes.len() - k,
        {
            if self.lanes[k].is_none() {
                return true;
            }
            k = k + 1;
        }
        breaker_open
    }

    /// Whether some lane holds a connection.
    pub fn any_connected(&self) -> (b: bool)
        ensures
            b == some_connected(self.lanes.deep_view()),
    {
        let mut k: usize = 0;
        while k < self.lanes.len()
            invariant
                k <= self.lanes.len(),
                forall|j: int| 0 <= j < k ==> (#[trigger] self.lanes.deep_view()[j]) is None,
            decreases self.lanes.len() - k,
        {
            if self.lanes[k].is_some() {
                proof {
                    assert(self.lanes.deep_view()[k as int] is Some);
                }
                return true;
            }
            k = k + 1;
        }
        false
    }

    /// Note a runtime failure in the recovery record.
    pub fn record_runtime_failure(&mut self, error_class: UpstreamErrorClass)
        ensures
            final(self).same_but_recovery(*old(self)),
            final(self).reconnect == old(self).reconnect,
            final(self).recovery == (UpstreamRecovery {
                last_error_class: Some(error_class),
                ..old(self).recovery
            }),
    {
        self.recovery.record_failure(error_class);
    }

    /// Take a lane out of service after a failure on it, and arm its recovery
    /// if this is the entry the registry publishes.
    pub fn mark_slot_down(
        &mut self,
        lane: usize,
        error_class: UpstreamErrorClass,
        is_current: bool,
        now: Instant,
        wall: WallTime,
    ) -> (armed: bool)
        requires
            old(self).wf(),
            lane < old(self).lanes.len(),
        ensures
            final(self).wf(),
            final(self).lanes@ == old(self).lanes@.update(lane as int, None),
            final(self).recovery == (UpstreamRecovery {
                last_error_class: Some(error_class),
                ..old(self).recovery
            }),
            armed == (is_current && !old(self).removed),
            final(self).reconnect == if armed {
                old(self).reconnect.observed(now, wall)
            } else {
                old(self).reconnect
            },
            final(self).manifest == old(self).manifest,
            final(self).removed == old(self).removed,
            final(self).quarantined == old(self).quarantined,
            final(self).observed_schemas == old(self).observed_schemas,
            final(self).id == old(self).id,
            final(self).forwards_identity == old(self).forwards_identity,
            final(self).breaker == old(self).breaker,
            final(self).last_reload_gen == old(self).last_reload_gen,
    {
        self.lanes.set(lane, None);
        self.record_runtime_failure(error_class);
        self.arm_reconnect(is_current, now, wall)
    }

    /// Arm recovery, unless the entry has left the registry or was replaced by
    /// another of its name, whose schedule this would disturb.
    pub fn arm_reconnect(&mut self, is_current: bool, now: Instant, wall: WallTime) -> (armed: bool)
        requires
            old(self).wf(),
        ensures
            final(self).wf(),
            final(self).same_but_recovery(*old(self)),
            final(self).recovery == old(self).recovery,
            armed == (is_current && !old(self).removed),
            final(self).reconnect == if armed {
                old(self).reconnect.observed(now, wall)
            } else {
                old(self).reconnect
            },
    {
        if self.removed || !is_current {
            return false;
        }
        self.reconnect.observe_runtime_failure_at(now, wall);
        true
    }

    /// Whether the entry serves calls: some lane is connected, and the breaker does
    /// not keep calls away.
    pub fn is_serving(&self) -> (b: bool)
        ensures
            b == (some_connected(self.lanes.deep_view()) && self.breaker != BreakerState::Open),
    {
        self.any_connected() && self.breaker != BreakerState::Open
    }

    /// The entry once it is tombstoned.
    pub open spec fn retired_at(self, now: Instant, wall: WallTime) -> Self {
        UpstreamEntry {
            removed: true,
            reconnect: self.reconnect.restarted(false, now, wall),
            ..self
        }
    }

    /// Tombstone the entry: nothing of it is scheduled any more.
    pub fn retire(&mut self, now: Instant, wall: WallTime)
        requires
            old(self).wf(),
        ensures
            final(self).wf(),
            *final(self) == old(self).retired_at(now, wall),
            final(self).reconnect.is_idle(),
    {
        self.removed = true;
        self.reconnect.record_success_at(false, now, wall);
    }

    /// Settle the retry state after a call on a half-open breaker succeeded.
    /// While anything still needs recovery, or the entry is not the one the
    /// registry publishes, the schedule is left to its owner.
    pub fn settle_probe_recovery(
        &mut self,
        recovered: bool,
        is_current: bool,
        breaker_open: bool,
        now: Instant,
        wall: WallTime,
    ) -> (settled: bool)
        requires
            old(self).wf(),
        ensures
            final(self).wf(),
            final(self).same_but_recovery(*old(self)),
            final(self).recovery == old(self).recovery,
            settled == (recovered && !old(self).removed && is_current && !old(
                self,
            ).spec_needs_reconnect(breaker_open)),
            final(self).reconnect == if settled {
                old(self).reconnect.restarted(false, now, wall)
            } else {
                old(self).reconnect
            },
    {
        if !recovered || self.removed || !is_current || self.needs_reconnect(breaker_open) {
            return false;
        }
        self.reconnect.record_success_at(false, now, wall);
        true
    }

    /// Settle a claim whose attempt ended without an outcome: re-armed for the
    /// entry the registry publishes, dropped for one that has been retired or
    /// replaced.
    pub fn abandon_claim(&mut self, claim: u64, is_current: bool, now: Instant, wall: WallTime) -> (released:
        bool)
        requires
            old(self).wf(),
        ensures
            final(self).wf(),
            final(self).same_but_recovery(*old(self)),
            final(self).recovery == old(self).recovery,
            released == (old(self).reconnect.active_claim == Some(claim)),
            final(self).reconnect == if !released {
                old(self).reconnect
            } else if old(self).removed || !is_current {
                old(self).reconnect.cleared()
            } else {
                old(self).reconnect.cleared().scheduled(old(self).reconnect.policy.base, now, wall)
            },
    {
        let rearm = !self.removed && is_current;
        self.reconnect.release_claim(claim, rearm, now, wall)
    }

    /// Whether a candidate keeps the connection shape this entry holds.
    pub fn shape_is_current(&self, candidate: &UpstreamManifest) -> (b: bool)
        ensures
            b == (self.manifest.deep_view().committed() == candidate.deep_view().committed()),
    {
        redial_committed_fields_eq(&self.manifest, candidate)
    }
}

/// A retired entry stays down: nothing of it is scheduled or falls due at any
/// later moment, and it asks for no reconnect.
pub proof fn removed_entries_stay_down(
    entry: UpstreamEntry,
    breaker_open: bool,
    now: Instant,
    wall: WallTime,
    later: Instant,
)
    requires
        entry.wf(),
    ensures
        entry.retired_at(now, wall).removed,
        entry.retired_at(now, wall).reconnect.is_idle(),
        !entry.retired_at(now, wall).reconnect.due(later),
        !entry.retired_at(now, wall).spec_needs_reconnect(breaker_open),
{
}

/// An entry needs a reconnect exactly where it is not being removed and a lane of
/// it is down or its breaker is open.
pub proof fn a_lane_down_needs_a_reconnect(entry: UpstreamEntry, breaker_open: bool, k: int)
    requires
        0 <= k < entry.lanes.len(),
    ensures
        entry.removed ==> !entry.spec_needs_reconnect(breaker_open),
        !entry.removed && entry.lanes@[k] is None ==> entry.spec_needs_reconnect(breaker_open),
        !entry.removed ==> entry.spec_needs_reconnect(true),
        (forall|j: int| 0 <= j < entry.lanes.len() ==> (#[trigger] entry.lanes@[j]) is Some)
            ==> !entry.spec_needs_reconnect(false),
{
}

/// Retiring an entry marks it and ends its retries; its lanes, its manifest and
/// everything else about it stay.
pub proof fn a_retired_entry_is_marked_and_idle(entry: UpstreamEntry, now: Instant, wall: WallTime)
    ensures
        entry.retired_at(now, wall).removed,
        entry.retired_at(now, wall).reconnect.next_retry is None,
        entry.retired_at(now, wall).reconnect.next_retry_at is None,
        entry.retired_at(now, wall).reconnect.active_claim is None,
        (UpstreamEntry {
            removed: entry.removed,
            reconnect: entry.reconnect,
            ..entry.retired_at(now, wall)
        }) == entry,
{
}

/// Two entries are the same but for recovery exactly where giving one the
/// other's recovery and retries makes it the other.
pub proof fn recovery_is_the_only_difference(a: UpstreamEntry, b: UpstreamEntry)
    ensures
        a.same_but_recovery(b) <==> (UpstreamEntry {
            recovery: b.recovery,
            reconnect: b.reconnect,
            ..a
        }) == b,
{
}

/// A sound entry has at least one lane, a sound schedule, and a quarantine that
/// names each tool once.
pub proof fn sound_entries_name_each_tool_once(entry: UpstreamEntry, i: int, j: int)
    requires
        entry.wf(),
    ensures
        entry.lanes.len() >= 1,
        entry.reconnect.wf(),
        0 <= i < j < entry.quarantined.deep_view().len() ==> entry.quarantined.deep_view()[i]
            != entry.quarantined.deep_view()[j],
{
    if 0 <= i < j < entry.quarantined.deep_view().len() {
        crate::names::lemma_strict_has_no_repeats(entry.quarantined.deep_view());
    }
}

} // verus!
