//! What changes the pool: quarantines, refusals, retries and reloads.

use vstd::prelude::*;

use crate::clock::{Duration, Instant, WallTime};
use crate::entry::UpstreamEntry;
use crate::heal::arm_for_reload;
use crate::health::{
    all_refusals, clear_quarantine, one_row_per_tool, rejected_union, released_names, ServedRefusals,
};
use crate::lane::{some_connected, BreakerState};
use crate::names::{
    insert_unique, lemma_not_seen, lemma_strict_has_no_repeats, lemma_take_contains,
    lists_exactly, name_lt, strictly_sorted,
};
use crate::pool::{registry_wf, UpstreamPool};
use crate::reconnect::{CredentialMaterialVersion, ReconnectState};
use crate::refusal_record::{Observation, Refusal, RejectedOutputSchema, ServedModel};
use crate::reload::{Registry, ReloadReport};
use crate::snapshot::names_of;
use crate::transitions::{fenced, released, releases};

verus! {

/// The entry of this identity is the one the registry publishes, and it has not
/// been removed.
pub open spec fn publishes_entry(registry: Registry, server: Seq<char>, id: u64) -> bool {
    registry.contains_key(server) && registry[server].id == id && !registry[server].removed
}

/// The rows a sample of a server owes, given what the server has told so far.
/// Where no record may be opened for it, all of them.
pub open spec fn owed_rows(
    record: Option<ServedModel>,
    may_open: bool,
    at: u64,
    served: Seq<Refusal>,
) -> Seq<Refusal> {
    match record {
        Some(model) => model.owed(at, served),
        None => if may_open {
            ServedModel::fresh().owed(at, served)
        } else {
            served
        },
    }
}

/// What the server has told once the sample is applied.
pub open spec fn record_after(
    record: Option<ServedModel>,
    may_open: bool,
    at: u64,
    served: Seq<Refusal>,
) -> Option<ServedModel> {
    match record {
        Some(model) => Some(model.applied(at, served)),
        None => if may_open {
            Some(ServedModel::fresh().applied(at, served))
        } else {
            None
        },
    }
}

/// What clearing a quarantine did.
#[derive(Debug, PartialEq, Eq)]
pub struct QuarantineRelease {
    /// How many names were released.
    pub count: usize,
    pub remaining: usize,
    /// Refused output schemas that are served again and have to be recorded.
    pub owed: Vec<RejectedOutputSchema>,
}

impl UpstreamPool {
    /// Whether the entry of this identity is the one the registry publishes.
    pub fn is_published_entry(&self, server: &str, id: u64) -> (b: bool)
        ensures
            b == publishes_entry(self.entries@, server@, id),
    {
        match self.entries.get(server) {
            Some(entry) => entry.id == id && !entry.removed,
            None => false,
        }
    }

    /// Apply a sample of the refusals an entry serves and return the rows to
    /// record. A sample taken with every lane down says nothing, and without a
    /// recorder there is nobody to tell.
    pub fn record_new_refusals(
        &mut self,
        server: &str,
        id: u64,
        at: Observation,
        observed: &ServedRefusals,
    ) -> (owed: Vec<RejectedOutputSchema>)
        ensures
            final(self).entries == old(self).entries,
            final(self).same_but_refusals(*old(self)),
            final(self).audited_refusals.stamped() == old(self).audited_refusals.stamped(),
            forall|other: Seq<char>|
                other != server@ ==> #[trigger] final(self).audited_refusals.record_of(other)
                    == old(self).audited_refusals.record_of(other),
            ({
                let told = old(self).evidence_attached && observed.live;
                let record = old(self).audited_refusals.record_of(server@);
                let may_open = publishes_entry(old(self).entries@, server@, id);
                &&& owed.deep_view() == if told {
                    owed_rows(record, may_open, at.stamp, observed.served.deep_view())
                } else {
                    Seq::empty()
                }
                &&& final(self).audited_refusals.record_of(server@) == if told {
                    record_after(record, may_open, at.stamp, observed.served.deep_view())
                } else {
                    record
                }
            }),
    {
        if !self.evidence_attached || !observed.live {
            let none: Vec<RejectedOutputSchema> = Vec::new();
            proof {
                assert(none.deep_view() =~= Seq::empty());
            }
            return none;
        }
        let may_open = self.is_published_entry(server, id);
        self.audited_refusals.apply(server, at, &observed.served, may_open)
    }

    /// Everything but the entries and the record of refusals is as before.
    pub open spec fn same_but_refusals(self, other: Self) -> bool {
        (UpstreamPool {
            audited_refusals: other.audited_refusals,
            entries: other.entries,
            ..self
        }) == other
    }

    /// Sample and record what an upstream serves right now.
    pub fn refresh_rejected_output_schemas(&mut self, server: &str) -> (owed: Option<
        Vec<RejectedOutputSchema>,
    >)
        ensures
            final(self).entries == old(self).entries,
            final(self).same_but_refusals(*old(self)),
            owed is Some <==> old(self).entries@.contains_key(server@) && !old(
                self,
            ).entries@[server@].removed,
            forall|other: Seq<char>|
                other != server@ || owed is None ==> #[trigger] final(self).audited_refusals.record_of(other)
                    == old(self).audited_refusals.record_of(other),
            final(self).audited_refusals.stamped() == if old(self).entries@.contains_key(server@) {
                old(self).audited_refusals.stamped().wrapping_add(1)
            } else {
                old(self).audited_refusals.stamped()
            },
            owed is Some ==> {
                let entry = old(self).entries@[server@];
                let lanes = entry.lanes.deep_view();
                let told = old(self).evidence_attached && some_connected(lanes);
                let record = old(self).audited_refusals.record_of(server@);
                let at = old(self).audited_refusals.stamped().saturating_add(1);
                exists|served: Seq<Refusal>| #[trigger]
                    one_row_per_tool(
                        served,
                        all_refusals(lanes, entry.quarantined.deep_view()),
                    ) && owed->0.deep_view() == (if told {
                        owed_rows(record, true, at, served)
                    } else {
                        Seq::empty()
                    }) && final(self).audited_refusals.record_of(server@) == if told {
                        record_after(record, true, at, served)
                    } else {
                        record
                    }
            },
    {
        let (id, removed, sample) = match self.entries.get(server) {
            Some(entry) => (
                entry.id,
                entry.removed,
                rejected_union(&entry.lanes, &entry.quarantined),
            ),
            None => return None,
        };
        let at = self.audited_refusals.observe();
        if removed {
            return None;
        }
        Some(self.record_new_refusals(server, id, at, &sample))
    }

    /// Clear the local quarantine of an upstream. What durable reviews block
    /// stays blocked; where they could not be read, or the upstream is unknown,
    /// nothing is cleared.
    pub fn clear_quarantine(&mut self, server: &str, durable: Option<&Vec<String>>) -> (r: Option<
        QuarantineRelease,
    >)
        requires
            old(self).wf(),
        ensures
            final(self).wf(),
            r is Some <==> old(self).entries@.contains_key(server@) && durable is Some,
            r is None ==> *final(self) == *old(self),
            r is Some ==> {
                let before = old(self).entries@[server@];
                let after = final(self).entries@[server@];
                &&& forall|name: Seq<char>| #[trigger]
                    final(self).entries@.contains_key(name) <==> old(self).entries@.contains_key(
                        name,
                    )
                &&& forall|name: Seq<char>|
                    name != server@ && #[trigger] final(self).entries@.contains_key(name)
                        ==> final(self).entries@[name] == old(self).entries@[name]
                &&& after == (UpstreamEntry { quarantined: after.quarantined, ..before })
                &&& lists_exactly(
                    after.quarantined.deep_view(),
                    durable->0.deep_view().to_set(),
                )
                &&& r->0.count == released_names(
                    before.quarantined.deep_view(),
                    durable->0.deep_view(),
                ).len()
                &&& r->0.remaining == after.quarantined.len()
                &&& final(self).same_but_refusals(*old(self))
                &&& final(self).audited_refusals.stamped() == old(
                    self,
                ).audited_refusals.stamped().wrapping_add(1)
                &&& exists|served: Seq<Refusal>| #[trigger]
                    one_row_per_tool(
                        served,
                        all_refusals(before.lanes.deep_view(), after.quarantined.deep_view()),
                    ) && {
                        let told = r->0.count > 0 && old(self).evidence_attached && some_connected(
                            before.lanes.deep_view(),
                        );
                        let record = old(self).audited_refusals.record_of(server@);
                        let at = old(self).audited_refusals.stamped().saturating_add(1);
                        &&& r->0.owed.deep_view() == if told {
                            owed_rows(record, !before.removed, at, served)
                        } else {
                            Seq::empty()
                        }
                        &&& final(self).audited_refusals.record_of(server@) == if told {
                            record_after(record, !before.removed, at, served)
                        } else {
                            record
                        }
                    }
                &&& forall|other: Seq<char>|
                    other != server@ ==> #[trigger] final(self).audited_refusals.record_of(other)
                        == old(self).audited_refusals.record_of(other)
            },
    {
        let durable = match durable {
            Some(durable) => durable,
            None => return None,
        };
        if !self.entries.contains_key(server) {
            return None;
        }
        let mut entry = match self.entries.remove(server) {
            Some(entry) => entry,
            None => return None,
        };
        let count: usize = clear_quarantine(&mut entry.quarantined, durable);
        let remaining: usize = entry.quarantined.len();
        let sample = rejected_union(&entry.lanes, &entry.quarantined);
        let id: u64 = entry.id;
        self.entries.insert(server.to_owned(), entry);
        let at = self.audited_refusals.observe();
        let owed = if count > 0 {
            self.record_new_refusals(server, id, at, &sample)
        } else {
            let none: Vec<RejectedOutputSchema> = Vec::new();
            proof {
                assert(none.deep_view() =~= Seq::empty());
            }
            none
        };
        Some(QuarantineRelease { count, remaining, owed })
    }

    /// Whether some tool waits for the catalog to catch up with a reload.
    pub fn catalog_reconcile_pending(&self) -> (b: bool)
        ensures
            b == self.catalog_transitions.some_pending(),
    {
        self.catalog_transitions.pending()
    }

    /// Release the fences that a reconcile of a reload's set covers. Returns
    /// whether there were any.
    pub fn settle_catalog_reconcile(&mut self, report: &ReloadReport) -> (settled: bool)
        ensures
            final(self).same_but_transitions(*old(self)),
            forall|s: Seq<char>, t: Seq<char>| #[trigger]
                final(self).catalog_transitions.state(s, t) == match old(
                    self,
                ).catalog_transitions.state(s, t) {
                    Some(row) => Some(released(row, report.catalog_generation)),
                    None => None,
                },
            settled <==> exists|s: Seq<char>, t: Seq<char>|
                (#[trigger] old(self).catalog_transitions.state(s, t)) is Some && releases(
                    old(self).catalog_transitions.state(s, t)->0,
                    report.catalog_generation,
                ),
    {
        self.catalog_transitions.settle(report.catalog_generation)
    }

    /// Everything but the transition fences is as before.
    pub open spec fn same_but_transitions(self, other: Self) -> bool {
        (UpstreamPool { catalog_transitions: other.catalog_transitions, ..self }) == other
    }

    /// Fence tools of an upstream until the catalog has caught up. Without a
    /// catalog there is nothing to wait for.
    pub fn mark_catalog_transitions(&mut self, server: &str, tools: &Vec<String>, generation: u64)
        ensures
            final(self).same_but_transitions(*old(self)),
            forall|s: Seq<char>, t: Seq<char>| #[trigger]
                final(self).catalog_transitions.state(s, t) == if old(self).catalog_attached && s
                    == server@ && tools.deep_view().contains(t) {
                    Some(fenced(old(self).catalog_transitions.state(s, t), generation))
                } else {
                    old(self).catalog_transitions.state(s, t)
                },
    {
        if self.catalog_attached {
            self.catalog_transitions.mark(server, tools, generation);
        }
    }
}

/// A retry that was due and is now claimed.
#[derive(Debug, PartialEq, Eq)]
pub struct DueReconnect {
    pub name: String,
    /// Identity of the entry whose retry it is.
    pub id: u64,
    pub claim: u64,
}

/// The upstreams whose retries are claimed.
pub open spec fn due_names(due: Seq<DueReconnect>) -> Seq<Seq<char>> {
    due.map_values(|due: DueReconnect| due.name@)
}

/// What an operator's reconnect may do.
#[derive(Clone, Copy, Debug, PartialEq, Eq, Structural)]
pub enum OperatorReconnect {
    /// The upstream is unknown, removed or was replaced meanwhile.
    Gone,
    /// Nothing needs recovery.
    Healthy,
    /// A fresh episode has begun; dial.
    Dial,
}

/// How the attempt of a claimed retry begins.
#[derive(Clone, Copy, Debug, PartialEq, Eq, Structural)]
pub enum ClaimedAttempt {
    /// The claim is no longer the entry's, or the entry was replaced.
    Lapsed,
    /// Nothing needs recovery; the episode is over.
    Settled,
    Dial,
}

/// What to wait for before the next retry.
#[derive(Clone, Copy, Debug, PartialEq, Eq, Structural)]
pub enum ReconnectWait {
    /// A retry is due.
    Due,
    /// The earliest retry is due after this time.
    Sleep(Duration),
    /// No retry is scheduled; wait to be told of one.
    Idle,
}

/// An open breaker of a live entry has no retry scheduled.
pub open spec fn unscheduled_open(entry: UpstreamEntry) -> bool {
    &&& !entry.removed
    &&& entry.breaker == BreakerState::Open
    &&& entry.reconnect.next_retry is None
    &&& entry.reconnect.active_claim is None
}

/// The entry once a missing retry of its open breaker is armed.
pub open spec fn armed_if_open(
    before: UpstreamEntry,
    after: UpstreamEntry,
    now: Instant,
    wall: WallTime,
) -> bool {
    &&& after.same_but_recovery(before)
    &&& after.recovery == before.recovery
    &&& after.reconnect == if unscheduled_open(before) {
        before.reconnect.observed(now, wall)
    } else {
        before.reconnect
    }
}

/// The smallest time until a retry of the registry.
pub open spec fn earliest_delay(registry: Registry, now: Instant, delay: Option<Duration>) -> bool {
    match delay {
        Some(d) => {
            &&& exists|name: Seq<char>| #[trigger]
                registry.contains_key(name) && registry[name].reconnect.spec_delay(now) == Some(d)
            &&& forall|name: Seq<char>| #[trigger]
                registry.contains_key(name) ==> match registry[name].reconnect.spec_delay(now) {
                    Some(other) => d.nanos <= other.nanos,
                    None => true,
                }
        },
        None => forall|name: Seq<char>| #[trigger]
            registry.contains_key(name) ==> registry[name].reconnect.spec_delay(now) is None,
    }
}

/// The entry once its due retry is claimed. A removed entry's claim is dropped
/// again at once.
pub open spec fn claimed_if_due(before: UpstreamEntry, after: UpstreamEntry, now: Instant) -> bool {
    &&& after.same_but_recovery(before)
    &&& after.recovery == before.recovery
    &&& after.reconnect == if !before.reconnect.due(now) {
        before.reconnect
    } else if before.removed {
        before.reconnect.claimed().cleared()
    } else {
        before.reconnect.claimed()
    }
}

impl UpstreamPool {
    /// The time until the earliest retry.
    pub fn next_delay(&self, now: Instant) -> (r: Option<Duration>)
        ensures
            earliest_delay(self.entries@, now, r),
    {
        let names = self.list_servers();
        let mut best: Option<Duration> = None;
        let mut i: usize = 0;
        while i < names.len()
            invariant
                i <= names.len(),
                names_of(self.entries@, names.deep_view()),
                match best {
                    Some(d) => {
                        &&& exists|name: Seq<char>| #[trigger]
                            self.entries@.contains_key(name)
                                && self.entries@[name].reconnect.spec_delay(now) == Some(d)
                        &&& forall|j: int|
                            0 <= j < i ==> match self.entries@[#[trigger] names.deep_view()[j]].reconnect.spec_delay(
                                now,
                            ) {
                                Some(other) => d.nanos <= other.nanos,
                                None => true,
                            }
                    },
                    None => forall|j: int|
                        0 <= j < i
                            ==> self.entries@[#[trigger] names.deep_view()[j]].reconnect.spec_delay(
                            now,
                        ) is None,
                },
            decreases names.len() - i,
        {
            proof {
                assert(names.deep_view().contains(names.deep_view()[i as int]));
            }
            if let Some(entry) = self.entries.get(names[i].as_str()) {
                if let Some(delay) = entry.reconnect.delay(now) {
                    best = match best {
                        Some(shortest) => Some(
                            if delay.nanos < shortest.nanos {
                                delay
                            } else {
                                shortest
                            },
                        ),
                        None => Some(delay),
                    };
                }
            }
            i = i + 1;
        }
        proof {
            assert forall|name: Seq<char>| #[trigger] self.entries@.contains_key(name) implies exists|
                j: int,
            |
                0 <= j < names.len() && #[trigger] names.deep_view()[j] == name by {
                assert(names.deep_view().contains(name));
            }
        }
        best
    }

    /// Arm the retry of every open breaker that has none, and find out what to
    /// wait for.
    pub fn wait_for_reconnect_due(&mut self, now: Instant, wall: WallTime) -> (r: ReconnectWait)
        requires
            old(self).wf(),
        ensures
            final(self).wf(),
            final(self).same_but_entries(*old(self)),
            forall|name: Seq<char>| #[trigger]
                final(self).entries@.contains_key(name) <==> old(self).entries@.contains_key(name),
            forall|name: Seq<char>| #[trigger]
                final(self).entries@.contains_key(name) ==> armed_if_open(
                    old(self).entries@[name],
                    final(self).entries@[name],
                    now,
                    wall,
                ),
            exists|delay: Option<Duration>| #[trigger]
                earliest_delay(final(self).entries@, now, delay) && r == match delay {
                    Some(d) => if d.nanos == 0 {
                        ReconnectWait::Due
                    } else {
                        ReconnectWait::Sleep(d)
                    },
                    None => ReconnectWait::Idle,
                },
    {
        let names = self.list_servers();
        let ghost start = self.entries@;
        let mut i: usize = 0;
        while i < names.len()
            invariant
                i <= names.len(),
                names_of(start, names.deep_view()),
                registry_wf(start),
                self.wf(),
                self.same_but_entries(*old(self)),
                start == old(self).entries@,
                forall|name: Seq<char>|
                    #![trigger self.entries@.contains_key(name)]
                    {
                        let seen = names.deep_view().take(i as int).contains(name);
                        &&& self.entries@.contains_key(name) <==> start.contains_key(name)
                        &&& self.entries@.contains_key(name) && !seen ==> self.entries@[name]
                            == start[name]
                        &&& self.entries@.contains_key(name) && seen ==> armed_if_open(
                            start[name],
                            self.entries@[name],
                            now,
                            wall,
                        )
                    },
            decreases names.len() - i,
        {
            let ghost here = names.deep_view()[i as int];
            proof {
                lemma_take_contains(names.deep_view(), i as int);
                lemma_strict_has_no_repeats(names.deep_view());
                lemma_not_seen(names.deep_view(), i as int);
                assert(self.entries@.contains_key(here) <==> start.contains_key(here));
            }
            if let Some(mut entry) = self.entries.remove(names[i].as_str()) {
                if entry.breaker == BreakerState::Open && !entry.removed
                    && !entry.reconnect.is_scheduled() {
                    entry.arm_reconnect(true, now, wall);
                }
                self.entries.insert(names[i].clone(), entry);
            }
            i = i + 1;
        }
        proof {
            assert(names.deep_view().take(names.len() as int) =~= names.deep_view());
        }
        match self.next_delay(now) {
            Some(delay) => {
                if delay.is_zero() {
                    ReconnectWait::Due
                } else {
                    ReconnectWait::Sleep(delay)
                }
            },
            None => ReconnectWait::Idle,
        }
    }

    /// Claim every retry that is due. The claims come ordered by name.
    pub fn reconnect_due_task(&mut self, now: Instant, wall: WallTime) -> (r: Vec<DueReconnect>)
        requires
            old(self).wf(),
        ensures
            final(self).wf(),
            final(self).same_but_entries(*old(self)),
            forall|name: Seq<char>| #[trigger]
                final(self).entries@.contains_key(name) <==> old(self).entries@.contains_key(name),
            forall|name: Seq<char>| #[trigger]
                final(self).entries@.contains_key(name) ==> claimed_if_due(
                    old(self).entries@[name],
                    final(self).entries@[name],
                    now,
                ),
            lists_exactly(
                due_names(r@),
                Set::new(
                    |name: Seq<char>|
                        old(self).entries@.contains_key(name) && !old(self).entries@[name].removed
                            && old(self).entries@[name].reconnect.due(now),
                ),
            ),
            forall|i: int|
                0 <= i < r.len() ==> {
                    let entry = final(self).entries@[(#[trigger] r@[i]).name@];
                    entry.id == r@[i].id && entry.reconnect.active_claim == Some(r@[i].claim)
                },
    {
        let names = self.list_servers();
        let ghost start = self.entries@;
        let mut out: Vec<DueReconnect> = Vec::new();
        let mut i: usize = 0;
        while i < names.len()
            invariant
                i <= names.len(),
                names_of(start, names.deep_view()),
                registry_wf(start),
                self.wf(),
                self.same_but_entries(*old(self)),
                start == old(self).entries@,
                forall|name: Seq<char>|
                    #![trigger self.entries@.contains_key(name)]
                    {
                        let seen = names.deep_view().take(i as int).contains(name);
                        &&& self.entries@.contains_key(name) <==> start.contains_key(name)
                        &&& self.entries@.contains_key(name) && !seen ==> self.entries@[name]
                            == start[name]
                        &&& self.entries@.contains_key(name) && seen ==> claimed_if_due(
                            start[name],
                            self.entries@[name],
                            now,
                        )
                    },
                strictly_sorted(due_names(out@)),
                forall|name: Seq<char>| #[trigger]
                    due_names(out@).contains(name)
                        <==> names.deep_view().take(i as int).contains(name)
                        && !start[name].removed && start[name].reconnect.due(now),
                forall|j: int|
                    0 <= j < out.len() ==> {
                        let entry = self.entries@[(#[trigger] out@[j]).name@];
                        entry.id == out@[j].id && entry.reconnect.active_claim == Some(
                            out@[j].claim,
                        )
                    },
                forall|j: int|
                    0 <= j < out.len() ==> names.deep_view().take(i as int).contains(
                        (#[trigger] out@[j]).name@,
                    ),
            decreases names.len() - i,
        {
            let ghost here = names.deep_view()[i as int];
            let ghost before = out@;
            proof {
                lemma_take_contains(names.deep_view(), i as int);
                lemma_strict_has_no_repeats(names.deep_view());
                lemma_not_seen(names.deep_view(), i as int);
                assert(names.deep_view().contains(here));
                assert(self.entries@.contains_key(here));
            }
            if let Some(mut entry) = self.entries.remove(names[i].as_str()) {
                let claimed = entry.reconnect.claim_due(now);
                if let Some(claim) = claimed {
                    if entry.removed {
                        entry.abandon_claim(claim, false, now, wall);
                    } else {
                        out.push(DueReconnect { name: names[i].clone(), id: entry.id, claim });
                    }
                }
                self.entries.insert(names[i].clone(), entry);
            }
            proof {
                let listed = due_names(before);
                let now_listed = due_names(out@);
                if out@ != before {
                    assert(now_listed =~= listed.push(here));
                    assert forall|a: int, b: int| 0 <= a < b < now_listed.len() implies name_lt(
                        #[trigger] now_listed[a],
                        #[trigger] now_listed[b],
                    ) by {
                        if b == listed.len() {
                            assert(names.deep_view().take(i as int).contains(before[a].name@));
                            let k = choose|k: int|
                                0 <= k < i && names.deep_view().take(i as int)[k]
                                    == before[a].name@;
                            assert(names.deep_view()[k] == listed[a]);
                        } else {
                            assert(now_listed[a] == listed[a] && now_listed[b] == listed[b]);
                        }
                    }
                    assert forall|name: Seq<char>| #[trigger]
                        now_listed.contains(name) <==> listed.contains(name) || name == here by {
                        if listed.contains(name) {
                            let k = choose|k: int| 0 <= k < listed.len() && listed[k] == name;
                            assert(now_listed[k] == name);
                        }
                        assert(now_listed[listed.len() as int] == here);
                    }
                }
                assert forall|j: int| 0 <= j < out.len() implies {
                    let entry = self.entries@[(#[trigger] out@[j]).name@];
                    entry.id == out@[j].id && entry.reconnect.active_claim == Some(out@[j].claim)
                } by {
                    if j < before.len() {
                        assert(before[j] == out@[j]);
                        assert(names.deep_view().take(i as int).contains(before[j].name@));
                    }
                }
                assert forall|j: int| 0 <= j < out.len() implies names.deep_view().take(
                    i + 1,
                ).contains((#[trigger] out@[j]).name@) by {
                    if j < before.len() {
                        assert(before[j] == out@[j]);
                    }
                }
            }
            i = i + 1;
        }
        proof {
            assert(names.deep_view().take(names.len() as int) =~= names.deep_view());
        }
        out
    }

    /// Upstreams that a reload gives a chance to recover at once, in order.
    pub fn reconnect_candidates(&self) -> (r: Vec<String>)
        ensures
            lists_exactly(
                r.deep_view(),
                Set::new(
                    |name: Seq<char>|
                        self.entries@.contains_key(name)
                            && self.entries@[name].spec_needs_reconnect(
                            self.entries@[name].breaker == BreakerState::Open,
                        ),
                ),
            ),
    {
        let names = self.list_servers();
        let mut out: Vec<String> = Vec::new();
        let mut i: usize = 0;
        while i < names.len()
            invariant
                i <= names.len(),
                names_of(self.entries@, names.deep_view()),
                strictly_sorted(out.deep_view()),
                forall|name: Seq<char>| #[trigger]
                    out.deep_view().contains(name) <==> names.deep_view().take(i as int).contains(
                        name,
                    ) && self.entries@[name].spec_needs_reconnect(
                        self.entries@[name].breaker == BreakerState::Open,
                    ),
            decreases names.len() - i,
        {
            proof {
                lemma_take_contains(names.deep_view(), i as int);
                assert(names.deep_view().contains(names.deep_view()[i as int]));
            }
            if let Some(entry) = self.entries.get(names[i].as_str()) {
                if entry.needs_reconnect(entry.breaker == BreakerState::Open) {
                    insert_unique(&mut out, &names[i]);
                }
            }
            i = i + 1;
        }
        proof {
            assert(names.deep_view().take(names.len() as int) =~= names.deep_view());
        }
        out
    }

    /// Begin an operator's reconnect of the entry they saw. It starts a fresh
    /// episode whose fallback retry is armed, so that a dropped request leaves
    /// automatic recovery behind.
    pub fn reconnect_one(
        &mut self,
        server: &str,
        id: u64,
        needs_reconnect: bool,
        now: Instant,
        wall: WallTime,
    ) -> (r: OperatorReconnect)
        requires
            old(self).wf(),
        ensures
            final(self).wf(),
            final(self).same_but_entries(*old(self)),
            r == if !publishes_entry(old(self).entries@, server@, id) {
                OperatorReconnect::Gone
            } else if !needs_reconnect {
                OperatorReconnect::Healthy
            } else {
                OperatorReconnect::Dial
            },
            forall|name: Seq<char>| #[trigger]
                final(self).entries@.contains_key(name) <==> old(self).entries@.contains_key(name),
            forall|name: Seq<char>| #[trigger]
                final(self).entries@.contains_key(name) && (name != server@
                    || r != OperatorReconnect::Dial) ==> final(self).entries@[name] == old(
                    self,
                ).entries@[name],
            r == OperatorReconnect::Dial ==> {
                let before = old(self).entries@[server@];
                let after = final(self).entries@[server@];
                &&& after.same_but_recovery(before)
                &&& after.recovery == before.recovery
                &&& after.reconnect == before.reconnect.restarted(true, now, wall)
            },
    {
        if !self.is_published_entry(server, id) {
            return OperatorReconnect::Gone;
        }
        if !needs_reconnect {
            return OperatorReconnect::Healthy;
        }
        if let Some(mut entry) = self.entries.remove(server) {
            entry.reconnect.reset_for_operator_at(now, wall);
            self.entries.insert(server.to_owned(), entry);
        }
        OperatorReconnect::Dial
    }

    /// Begin the attempt of a claimed retry. Where nothing needs recovery any
    /// more, or the entry has been removed, the claim is settled at once.
    pub fn reconnect_claimed_entry(
        &mut self,
        server: &str,
        id: u64,
        claim: u64,
        now: Instant,
        wall: WallTime,
    ) -> (r: ClaimedAttempt)
        requires
            old(self).wf(),
        ensures
            final(self).wf(),
            final(self).same_but_entries(*old(self)),
            ({
                let known = old(self).entries@.contains_key(server@) && old(
                    self,
                ).entries@[server@].id == id;
                let before = old(self).entries@[server@];
                let after = final(self).entries@[server@];
                &&& r == if !known || before.reconnect.active_claim != Some(claim) {
                    ClaimedAttempt::Lapsed
                } else if before.spec_needs_reconnect(before.breaker == BreakerState::Open) {
                    ClaimedAttempt::Dial
                } else {
                    ClaimedAttempt::Settled
                }
                &&& r == ClaimedAttempt::Settled ==> {
                    &&& after.same_but_recovery(before)
                    &&& after.recovery == before.recovery
                    &&& after.reconnect == if before.removed {
                        before.reconnect.cleared()
                    } else {
                        before.reconnect.restarted(false, now, wall)
                    }
                }
            }),
            forall|name: Seq<char>| #[trigger]
                final(self).entries@.contains_key(name) <==> old(self).entries@.contains_key(name),
            forall|name: Seq<char>| #[trigger]
                final(self).entries@.contains_key(name) && (name != server@
                    || r != ClaimedAttempt::Settled) ==> final(self).entries@[name] == old(
                    self,
                ).entries@[name],
    {
        match self.entries.get(server) {
            Some(entry) => {
                if entry.id != id || !entry.reconnect.claim_is_active(claim) {
                    return ClaimedAttempt::Lapsed;
                }
                if entry.needs_reconnect(entry.breaker == BreakerState::Open) {
                    return ClaimedAttempt::Dial;
                }
            },
            None => return ClaimedAttempt::Lapsed,
        }
        if let Some(mut entry) = self.entries.remove(server) {
            if entry.removed {
                entry.abandon_claim(claim, false, now, wall);
            } else {
                entry.reconnect.record_success_at(false, now, wall);
            }
            self.entries.insert(server.to_owned(), entry);
        }
        ClaimedAttempt::Settled
    }

    /// Begin the immediate recheck that a reload gives an upstream. Unchanged
    /// credentials keep the failure episode; rotated ones begin a fresh one.
    pub fn begin_recheck(
        &mut self,
        server: &str,
        id: u64,
        credential_version: CredentialMaterialVersion,
        now: Instant,
        wall: WallTime,
    ) -> (dial: bool)
        requires
            old(self).wf(),
        ensures
            final(self).wf(),
            final(self).same_but_entries(*old(self)),
            ({
                let before = old(self).entries@[server@];
                let after = final(self).entries@[server@];
                &&& dial == (publishes_entry(old(self).entries@, server@, id)
                    && before.spec_needs_reconnect(before.breaker == BreakerState::Open))
                &&& dial ==> {
                    &&& after.same_but_recovery(before)
                    &&& after.recovery == before.recovery
                    &&& after.reconnect == if before.reconnect.credential_version
                        != credential_version {
                        (ReconnectState { credential_version, ..before.reconnect }).restarted(
                            true,
                            now,
                            wall,
                        )
                    } else {
                        before.reconnect.observed(now, wall)
                    }
                }
            }),
            forall|name: Seq<char>| #[trigger]
                final(self).entries@.contains_key(name) <==> old(self).entries@.contains_key(name),
            forall|name: Seq<char>| #[trigger]
                final(self).entries@.contains_key(name) && (name != server@ || !dial) ==> final(self).entries@[name] == old(self).entries@[name],
    {
        match self.entries.get(server) {
            Some(entry) => {
                if entry.id != id || entry.removed || !entry.needs_reconnect(
                    entry.breaker == BreakerState::Open,
                ) {
                    return false;
                }
            },
            None => return false,
        }
        if let Some(mut entry) = self.entries.remove(server) {
            arm_for_reload(&mut entry, credential_version, now, wall);
            self.entries.insert(server.to_owned(), entry);
        }
        true
    }
}

/// A due retry that is handed out leaves an active claim on its entry, and while
/// that claim is active nothing more of the entry is due.
pub proof fn handed_out_claims_are_live(before: UpstreamEntry, after: UpstreamEntry, now: Instant)
    requires
        before.wf(),
        claimed_if_due(before, after, now),
        before.reconnect.due(now),
        !before.removed,
    ensures
        after.reconnect.active_claim is Some,
        after.reconnect.spec_delay(now) is None,
        !after.reconnect.due(now),
{
}

/// An operator's reconnect ends every claim that a background retry still holds,
/// together with the failure episode.
pub proof fn operator_resets_end_background_claims(
    state: ReconnectState,
    claim: u64,
    now: Instant,
    wall: WallTime,
)
    ensures
        state.restarted(true, now, wall).active_claim != Some(claim),
        state.restarted(true, now, wall).episode_attempts == 0,
{
}

/// Rechecks after reloads begin a fresh episode once per rotation: with the same
/// credentials again the episode goes on.
pub proof fn rotation_resets_the_episode_once(
    state: ReconnectState,
    version: CredentialMaterialVersion,
    now: Instant,
    wall: WallTime,
)
    requires
        state.credential_version != version,
    ensures
        ({
            let rotated = (ReconnectState { credential_version: version, ..state }).restarted(
                true,
                now,
                wall,
            );
            &&& rotated.credential_version == version
            &&& rotated.episode_attempts == 0
            &&& rotated.observed(now, wall).episode_attempts == 0
            &&& rotated.observed(now, wall).credential_version == version
        }),
        state.observed(now, wall).episode_attempts == state.episode_attempts,
{
}

/// An upstream without a record, new or added again, owes a row for everything it
/// serves.
pub proof fn unrecorded_upstreams_report_everything(
    may_open: bool,
    at: u64,
    served: Seq<Refusal>,
)
    requires
        at > 0,
        forall|i: int, j: int|
            0 <= i < j < served.len() ==> (#[trigger] served[i]).tool != (
            #[trigger] served[j]).tool,
    ensures
        owed_rows(None, may_open, at, served) == served,
    decreases served.len(),
{
    if served.len() > 0 {
        let earlier = served.drop_last();
        assert forall|i: int, j: int| 0 <= i < j < earlier.len() implies (#[trigger] earlier[i]).tool
            != (#[trigger] earlier[j]).tool by {
            assert(served[i].tool != served[j].tool);
        }
        unrecorded_upstreams_report_everything(true, at, earlier);
        assert(!crate::refusal_record::lists(earlier, served.last().tool)) by {
            if crate::refusal_record::lists(earlier, served.last().tool) {
                let i = choose|i: int|
                    0 <= i < earlier.len() && #[trigger] earlier[i].tool == served.last().tool;
                assert(served[i].tool != served[served.len() - 1].tool);
            }
        }
        assert(earlier.push(served.last()) =~= served);
    } else {
        assert(served =~= Seq::empty());
    }
}

/// An entry is the published one of its server exactly where the registry holds
/// it under that name, by its identity, and it is not being removed.
pub proof fn published_entries_are_the_held_ones(registry: Registry, server: Seq<char>, id: u64)
    ensures
        !registry.contains_key(server) ==> !publishes_entry(registry, server, id),
        registry.contains_key(server) && registry[server].id != id ==> !publishes_entry(
            registry,
            server,
            id,
        ),
        registry.contains_key(server) && registry[server].removed ==> !publishes_entry(
            registry,
            server,
            id,
        ),
        registry.contains_key(server) && registry[server].id == id && !registry[server].removed
            ==> publishes_entry(registry, server, id),
{
}

/// A known record owes by what it believes and takes in what was served. Where
/// there is none it is opened for a published entry, and otherwise everything is
/// owed and nothing is kept.
pub proof fn records_open_for_published_entries(
    record: Option<ServedModel>,
    may_open: bool,
    at: u64,
    served: Seq<Refusal>,
)
    ensures
        record is Some ==> owed_rows(record, may_open, at, served) == record->0.owed(at, served),
        record is Some ==> record_after(record, may_open, at, served) == Some(
            record->0.applied(at, served),
        ),
        record is None && may_open ==> record_after(record, may_open, at, served) is Some
            && record_after(record, may_open, at, served)->0.newest == at,
        record is None && may_open && at > 0 ==> forall|tool: Seq<char>| #[trigger]
            record_after(record, may_open, at, served)->0.marks.contains_key(tool) <==> crate::refusal_record::lists(
                served,
                tool,
            ),
        record is None && !may_open ==> owed_rows(record, may_open, at, served) == served
            && record_after(record, may_open, at, served) is None,
{
}

/// Waiting arms the entries whose breaker stands open with nothing scheduled and
/// nothing running, and leaves every other entry as it is.
pub proof fn open_breakers_are_armed(
    before: UpstreamEntry,
    after: UpstreamEntry,
    now: Instant,
    wall: WallTime,
)
    requires
        armed_if_open(before, after, now, wall),
    ensures
        before.breaker == BreakerState::Open && !before.removed && before.reconnect.next_retry
            is None && before.reconnect.active_claim is None ==> after.reconnect
            == before.reconnect.observed(now, wall) && after.reconnect.current_backoff is Some,
        before.breaker != BreakerState::Open || before.removed || before.reconnect.next_retry
            is Some || before.reconnect.active_claim is Some ==> after == before,
        (UpstreamEntry { reconnect: before.reconnect, ..after }) == before,
{
}

/// The pool sleeps until the first retry that any upstream has scheduled, and
/// has nothing to wait for exactly where none has one.
pub proof fn the_first_retry_sets_the_delay(
    registry: Registry,
    now: Instant,
    delay: Option<Duration>,
    name: Seq<char>,
)
    requires
        earliest_delay(registry, now, delay),
        registry.contains_key(name),
        registry[name].reconnect.next_retry is Some,
        registry[name].reconnect.active_claim is None,
    ensures
        delay is Some,
        registry[name].reconnect.next_retry->0.nanos <= now.nanos ==> delay->0.nanos == 0,
        registry[name].reconnect.next_retry->0.nanos > now.nanos ==> now.nanos + delay->0.nanos
            <= registry[name].reconnect.next_retry->0.nanos,
        exists|other: Seq<char>| #[trigger]
            registry.contains_key(other) && registry[other].reconnect.active_claim is None
                && registry[other].reconnect.next_retry is Some
                && registry[other].reconnect.next_retry->0.spec_since(now) == delay->0,
{
    assert(registry[name].reconnect.spec_delay(now) is Some);
    if delay is Some {
        let other = choose|other: Seq<char>| #[trigger]
            registry.contains_key(other) && registry[other].reconnect.spec_delay(now) == Some(
                delay->0,
            );
        assert(registry[other].reconnect.next_retry is Some);
    }
}

/// Without a scheduled retry anywhere there is no delay.
pub proof fn nothing_scheduled_is_nothing_to_wait_for(
    registry: Registry,
    now: Instant,
    delay: Option<Duration>,
)
    requires
        earliest_delay(registry, now, delay),
        forall|name: Seq<char>| #[trigger]
            registry.contains_key(name) ==> registry[name].reconnect.next_retry is None
                || registry[name].reconnect.active_claim is Some,
    ensures
        delay is None,
{
    if delay is Some {
        let other = choose|other: Seq<char>| #[trigger]
            registry.contains_key(other) && registry[other].reconnect.spec_delay(now) == Some(
                delay->0,
            );
        assert(registry[other].reconnect.spec_delay(now) is Some);
    }
}

/// Handing out what is due claims each due entry, gives up the retries of one
/// that is being removed, and leaves alone what is not due.
pub proof fn due_entries_are_claimed(before: UpstreamEntry, after: UpstreamEntry, now: Instant)
    requires
        claimed_if_due(before, after, now),
    ensures
        before.reconnect.active_claim is Some || before.reconnect.next_retry is None
            || before.reconnect.next_retry->0.nanos > now.nanos ==> after == before,
        before.reconnect.active_claim is None && before.reconnect.next_retry is Some
            && before.reconnect.next_retry->0.nanos <= now.nanos && !before.removed
            ==> after.reconnect.active_claim == Some(before.reconnect.next_claim.wrapping_add(1)),
        before.reconnect.active_claim is None && before.reconnect.next_retry is Some
            && before.reconnect.next_retry->0.nanos <= now.nanos && before.removed
            ==> after.reconnect.active_claim is None && after.reconnect.next_retry is None,
        (UpstreamEntry { reconnect: before.reconnect, ..after }) == before,
{
}

/// The names of what is due are those of its items, in order.
pub proof fn due_items_are_named(due: Seq<DueReconnect>, i: int)
    requires
        0 <= i < due.len(),
    ensures
        due_names(due).len() == due.len(),
        due_names(due)[i] == due[i].name@,
{
}

/// Pools that are the same but for refusals differ in their record of refusals
/// and in their entries alone, and those that are the same but for transitions
/// in their fences alone.
pub proof fn frames_leave_everything_else(a: UpstreamPool, b: UpstreamPool)
    ensures
        a.same_but_refusals(b) ==> a.next_reload_gen == b.next_reload_gen && a.applied_reload_gen
            == b.applied_reload_gen && a.resource_routing_generation
            == b.resource_routing_generation && a.catalog_transitions == b.catalog_transitions
            && a.reconnect_policy == b.reconnect_policy && a.call_timeout == b.call_timeout
            && a.redial_dial_timeout == b.redial_dial_timeout && a.catalog_attached
            == b.catalog_attached && a.catalog_policy == b.catalog_policy
            && a.catalog_read_error_generation == b.catalog_read_error_generation
            && a.tool_reviews_attached == b.tool_reviews_attached && a.evidence_attached
            == b.evidence_attached && a.quarantine_threshold == b.quarantine_threshold,
        a.same_but_transitions(b) ==> a.same_but_entries(
            UpstreamPool { catalog_transitions: a.catalog_transitions, ..b },
        ) && a.entries == b.entries && a.audited_refusals == b.audited_refusals,
{
}

} // verus!
