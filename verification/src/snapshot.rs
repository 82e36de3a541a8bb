//! What the pool shows of its upstreams, without changing anything.

use vstd::prelude::*;

use crate::clock::{Duration, Instant};
use crate::contracts::{
    observe_candidate, observed_contracts, observes, CandidateObservation, ObservedContracts,
};
use crate::entry::UpstreamEntry;
use crate::error::{plain, unknown_upstream, ErrorKind, PoolError};
use crate::facts::{manifest_facts, manifest_tool_facts, ToolFacts};
use crate::freshness::{
    catalog_refresh_trigger_if_due, is_earliest, refresh_decidable, refresh_due,
    CatalogFreshnessDeadline, CatalogFreshnessTrigger, ScheduledCatalogRefresh,
};
use crate::health::{describes, health_of, published_tools, visible_tools, UpstreamHealth};
use crate::lane::{some_connected, BreakerState};
use crate::listen::{announces, is_listener_candidate, may_listen};
use crate::manifest::{ResourceClaim, UpstreamManifest};
use crate::names::{
    insert_unique, lemma_take_contains, lists_exactly, sort_unique, sorted, strictly_sorted,
};
use crate::pool::UpstreamPool;
use crate::reload::Registry;
use crate::resources::{admitted_resource_routing_claims, claims_in_order};
use crate::shape::manifest_supports_resource_operations;
use crate::tools::Tool;
use crate::value::Value;

verus! {

/// Manifest and health of one upstream at one moment.
#[derive(Debug, PartialEq, Eq)]
pub struct UpstreamStatus {
    pub manifest: UpstreamManifest,
    pub health: UpstreamHealth,
}

/// Who owns which resources, under one generation of routing.
#[derive(Debug, PartialEq, Eq)]
pub struct ResourceRoutingSnapshot {
    pub generation: u64,
    pub claims: Vec<(String, ResourceClaim)>,
}

/// The health is that of an entry.
pub open spec fn healthy_view(health: UpstreamHealth, name: Seq<char>, entry: UpstreamEntry) -> bool {
    describes(
        health,
        name,
        entry.lanes.deep_view(),
        entry.quarantined.deep_view(),
        entry.breaker,
        entry.recovery,
        entry.reconnect.next_retry_at,
    )
}

/// The names are those of a registry, in order.
pub open spec fn names_of(registry: Registry, names: Seq<Seq<char>>) -> bool {
    lists_exactly(names, registry.dom())
}

impl UpstreamPool {
    /// Names of all upstreams, in order.
    pub fn list_servers(&self) -> (r: Vec<String>)
        ensures
            names_of(self.entries@, r.deep_view()),
    {
        let keys = self.entries.keys();
        sort_unique(&keys)
    }

    /// Every manifest, ordered by the name of its upstream.
    pub fn manifests(&self) -> (r: Vec<UpstreamManifest>)
        ensures
            exists|names: Seq<Seq<char>>| #[trigger]
                names_of(self.entries@, names) && r.len() == names.len() && forall|i: int|
                    0 <= i < names.len() ==> (#[trigger] r.deep_view()[i])
                        == self.entries@[names[i]].manifest.deep_view(),
    {
        let names = self.list_servers();
        let mut out: Vec<UpstreamManifest> = Vec::new();
        let mut i: usize = 0;
        while i < names.len()
            invariant
                i <= names.len(),
                names_of(self.entries@, names.deep_view()),
                out.len() == i,
                forall|j: int|
                    0 <= j < i ==> (#[trigger] out.deep_view()[j])
                        == self.entries@[names.deep_view()[j]].manifest.deep_view(),
            decreases names.len() - i,
        {
            proof {
                assert(names.deep_view().contains(names.deep_view()[i as int]));
            }
            if let Some(entry) = self.entries.get(names[i].as_str()) {
                let manifest = entry.manifest.dup();
                let ghost meaning = manifest.deep_view();
                let ghost before = out.deep_view();
                out.push(manifest);
                proof {
                    assert(out.deep_view() =~= before.push(meaning));
                }
            }
            i = i + 1;
        }
        out
    }

    /// Quarantined tools of an upstream, in order, or none for an unknown one.
    pub fn quarantined_tools(&self, server: &str) -> (r: Option<Vec<String>>)
        ensures
            r is Some <==> self.entries@.contains_key(server@),
            r is Some ==> lists_exactly(
                r->0.deep_view(),
                self.entries@[server@].quarantined.deep_view().to_set(),
            ),
    {
        match self.entries.get(server) {
            Some(entry) => Some(sort_unique(&entry.quarantined)),
            None => None,
        }
    }

    /// Whether an upstream is known and has a connected lane.
    pub fn is_connected(&self, server: &str) -> (b: bool)
        ensures
            b == (self.entries@.contains_key(server@) && some_connected(
                self.entries@[server@].lanes.deep_view(),
            )),
    {
        match self.entries.get(server) {
            Some(entry) => entry.any_connected(),
            None => false,
        }
    }

    /// Breaker of an upstream, or none for an unknown one.
    pub fn breaker_state(&self, server: &str) -> (r: Option<BreakerState>)
        ensures
            r == if self.entries@.contains_key(server@) {
                Some(self.entries@[server@].breaker)
            } else {
                None
            },
    {
        match self.entries.get(server) {
            Some(entry) => Some(entry.breaker),
            None => None,
        }
    }

    /// Manifest and health of every upstream, ordered by name.
    pub fn status_snapshot(&self) -> (r: Vec<UpstreamStatus>)
        ensures
            exists|names: Seq<Seq<char>>| #[trigger]
                names_of(self.entries@, names) && r.len() == names.len() && forall|i: int|
                    0 <= i < names.len() ==> {
                        &&& (#[trigger] r@[i]).manifest.deep_view()
                            == self.entries@[names[i]].manifest.deep_view()
                        &&& healthy_view(r@[i].health, names[i], self.entries@[names[i]])
                    },
    {
        let names = self.list_servers();
        let mut out: Vec<UpstreamStatus> = Vec::new();
        let mut i: usize = 0;
        while i < names.len()
            invariant
                i <= names.len(),
                names_of(self.entries@, names.deep_view()),
                out.len() == i,
                forall|j: int|
                    0 <= j < i ==> {
                        &&& (#[trigger] out@[j]).manifest.deep_view()
                            == self.entries@[names.deep_view()[j]].manifest.deep_view()
                        &&& healthy_view(
                            out@[j].health,
                            names.deep_view()[j],
                            self.entries@[names.deep_view()[j]],
                        )
                    },
            decreases names.len() - i,
        {
            proof {
                assert(names.deep_view().contains(names.deep_view()[i as int]));
            }
            if let Some(entry) = self.entries.get(names[i].as_str()) {
                let (_, next_retry_at) = entry.reconnect.snapshot();
                let health = health_of(
                    &names[i],
                    &entry.lanes,
                    &entry.quarantined,
                    entry.breaker,
                    &entry.recovery,
                    next_retry_at,
                );
                out.push(UpstreamStatus { manifest: entry.manifest.dup(), health });
            }
            i = i + 1;
        }
        out
    }

    /// Health of every upstream, ordered by name.
    pub fn health_snapshot(&self) -> (r: Vec<UpstreamHealth>)
        ensures
            exists|names: Seq<Seq<char>>| #[trigger]
                names_of(self.entries@, names) && r.len() == names.len() && forall|i: int|
                    0 <= i < names.len() ==> healthy_view(
                        #[trigger] r@[i],
                        names[i],
                        self.entries@[names[i]],
                    ),
    {
        let statuses = self.status_snapshot();
        let ghost names = choose|names: Seq<Seq<char>>| #[trigger]
            names_of(self.entries@, names) && statuses.len() == names.len() && forall|i: int|
                0 <= i < names.len() ==> {
                    &&& (#[trigger] statuses@[i]).manifest.deep_view()
                        == self.entries@[names[i]].manifest.deep_view()
                    &&& healthy_view(statuses@[i].health, names[i], self.entries@[names[i]])
                };
        let ghost all = statuses@;
        let mut out: Vec<UpstreamHealth> = Vec::new();
        for status in it: statuses.into_iter()
            invariant
                it.seq() == all,
                all.len() == names.len(),
                names_of(self.entries@, names),
                forall|i: int|
                    0 <= i < names.len() ==> healthy_view(
                        (#[trigger] all[i]).health,
                        names[i],
                        self.entries@[names[i]],
                    ),
                out.len() == it.index(),
                forall|j: int| 0 <= j < out.len() ==> #[trigger] out@[j] == all[j].health,
        {
            out.push(status.health);
        }
        out
    }

    /// Manifest to judge a listener of an upstream by; none where the upstream
    /// is unknown or removed.
    pub fn listener_manifest(&self, server: &str) -> (r: Option<UpstreamManifest>)
        ensures
            r is Some <==> self.entries@.contains_key(server@) && !self.entries@[server@].removed,
            r is Some ==> r->0.deep_view() == self.entries@[server@].manifest.deep_view(),
    {
        match self.entries.get(server) {
            Some(entry) => {
                if entry.removed {
                    None
                } else {
                    Some(entry.manifest.dup())
                }
            },
            None => None,
        }
    }

    /// Upstreams worth a listener, in order.
    pub fn catalog_listener_candidates(&self) -> (r: Vec<String>)
        ensures
            lists_exactly(
                r.deep_view(),
                Set::new(
                    |name: Seq<char>|
                        self.entries@.contains_key(name) && !self.entries@[name].removed
                            && may_listen(self.entries@[name].manifest.deep_view()) && announces(
                            self.entries@[name].lanes.deep_view(),
                        ),
                ),
            ),
    {
        let names = self.list_servers();
        let mut out: Vec<String> = Vec::new();
        let mut i: usize = 0;
        while i < names.len()
            invariant
                i <= names.len(),
                names_of(self.entries@, names.deep_view()),
                strictly_sorted(out.deep_view()),
                forall|name: Seq<char>| #[trigger]
                    out.deep_view().contains(name) <==> names.deep_view().take(i as int).contains(
                        name,
                    ) && !self.entries@[name].removed && may_listen(
                        self.entries@[name].manifest.deep_view(),
                    ) && announces(self.entries@[name].lanes.deep_view()),
            decreases names.len() - i,
        {
            proof {
                lemma_take_contains(names.deep_view(), i as int);
                assert(names.deep_view().contains(names.deep_view()[i as int]));
            }
            if let Some(entry) = self.entries.get(names[i].as_str()) {
                if is_listener_candidate(entry) {
                    insert_unique(&mut out, &names[i]);
                }
            }
            i = i + 1;
        }
        proof {
            assert(names.deep_view().take(names.len() as int) =~= names.deep_view());
        }
        out
    }

    /// Upstreams whose listing is due for a refresh, in order.
    pub fn catalog_refresh_due(&self, floor: Duration, ceiling: Duration, now: Instant) -> (r: Vec<
        String,
    >)
        requires
            forall|name: Seq<char>| #[trigger]
                self.entries@.contains_key(name) ==> refresh_decidable(
                    self.entries@[name],
                    floor,
                    ceiling,
                ),
        ensures
            lists_exactly(
                r.deep_view(),
                Set::new(
                    |name: Seq<char>|
                        self.entries@.contains_key(name) && refresh_due(
                            self.entries@[name],
                            floor,
                            ceiling,
                            now,
                        ),
                ),
            ),
    {
        let names = self.list_servers();
        let mut out: Vec<String> = Vec::new();
        let mut i: usize = 0;
        while i < names.len()
            invariant
                i <= names.len(),
                forall|name: Seq<char>| #[trigger]
                    self.entries@.contains_key(name) ==> refresh_decidable(
                        self.entries@[name],
                        floor,
                        ceiling,
                    ),
                names_of(self.entries@, names.deep_view()),
                strictly_sorted(out.deep_view()),
                forall|name: Seq<char>| #[trigger]
                    out.deep_view().contains(name) <==> names.deep_view().take(i as int).contains(
                        name,
                    ) && refresh_due(self.entries@[name], floor, ceiling, now),
            decreases names.len() - i,
        {
            proof {
                lemma_take_contains(names.deep_view(), i as int);
                assert(names.deep_view().contains(names.deep_view()[i as int]));
            }
            if let Some(entry) = self.entries.get(names[i].as_str()) {
                if catalog_refresh_trigger_if_due(entry, floor, ceiling, now).is_some() {
                    insert_unique(&mut out, &names[i]);
                }
            }
            i = i + 1;
        }
        proof {
            assert(names.deep_view().take(names.len() as int) =~= names.deep_view());
        }
        out
    }

    /// Whether a scheduled refresh of an upstream is to run now, and why; else
    /// how the attempt ends. Decided while the upstream's sessions cannot change.
    pub fn scheduled_catalog_refresh(
        &self,
        server: &str,
        floor: Duration,
        ceiling: Duration,
        now: Instant,
    ) -> (r: Result<CatalogFreshnessTrigger, ScheduledCatalogRefresh>)
        requires
            self.entries@.contains_key(server@) ==> refresh_decidable(
                self.entries@[server@],
                floor,
                ceiling,
            ),
        ensures
            match r {
                Ok(trigger) => {
                    &&& self.entries@.contains_key(server@)
                    &&& refresh_due(self.entries@[server@], floor, ceiling, now)
                    &&& exists|d: CatalogFreshnessDeadline|
                        d.trigger == trigger && d.at.nanos <= now.nanos
                            && #[trigger] is_earliest(
                            self.entries@[server@].reconnect,
                            self.entries@[server@].lanes.deep_view(),
                            floor,
                            ceiling,
                            Some(d),
                        )
                },
                Err(ScheduledCatalogRefresh::Unknown) => !self.entries@.contains_key(server@),
                Err(ScheduledCatalogRefresh::NotDue) => self.entries@.contains_key(server@)
                    && !refresh_due(self.entries@[server@], floor, ceiling, now),
                Err(_) => false,
            },
    {
        match self.entries.get(server) {
            Some(entry) => match catalog_refresh_trigger_if_due(entry, floor, ceiling, now) {
                Some(trigger) => Ok(trigger),
                None => Err(ScheduledCatalogRefresh::NotDue),
            },
            None => Err(ScheduledCatalogRefresh::Unknown),
        }
    }

    /// Whether a candidate keeps the connection shape of the upstream it names;
    /// none for an unknown one.
    pub fn connection_shape_is_current(&self, candidate: &UpstreamManifest) -> (r: Option<bool>)
        ensures
            r == if self.entries@.contains_key(candidate.name@) {
                Some(
                    self.entries@[candidate.name@].manifest.deep_view().committed()
                        == candidate.deep_view().committed(),
                )
            } else {
                None
            },
    {
        match self.entries.get(candidate.name.as_str()) {
            Some(entry) => Some(entry.shape_is_current(candidate)),
            None => None,
        }
    }

    /// Judge a candidate against the live contracts of the upstream it names, on
    /// one view of that upstream.
    pub fn observe_candidate_contracts(&self, candidate: &UpstreamManifest) -> (r: Option<
        CandidateObservation,
    >)
        ensures
            r is Some <==> self.entries@.contains_key(candidate.name@),
            r is Some ==> {
                let entry = self.entries@[candidate.name@];
                let same = entry.manifest.deep_view().committed()
                    == candidate.deep_view().committed();
                match r->0 {
                    CandidateObservation::ShapeChanged => !same,
                    CandidateObservation::Observed(observed) => {
                        &&& same
                        &&& observed.connected == some_connected(entry.lanes.deep_view())
                        &&& observes(entry.lanes.deep_view(), observed.tools.deep_view())
                    },
                }
            },
    {
        match self.entries.get(candidate.name.as_str()) {
            Some(entry) => Some(observe_candidate(&entry.manifest, candidate, &entry.lanes)),
            None => None,
        }
    }

    /// Live contracts of an upstream; none for an unknown one.
    pub fn observed_tool_contracts(&self, server: &str) -> (r: Option<ObservedContracts>)
        ensures
            r is Some <==> self.entries@.contains_key(server@),
            r is Some ==> {
                let entry = self.entries@[server@];
                &&& r->0.connected == some_connected(entry.lanes.deep_view())
                &&& observes(entry.lanes.deep_view(), r->0.tools.deep_view())
            },
    {
        match self.entries.get(server) {
            Some(entry) => Some(observed_contracts(&entry.lanes)),
            None => None,
        }
    }

    /// Tools of an upstream that clients may be shown. With durable reviews
    /// attached the local quarantine does not decide; what of the list resolves
    /// is then left to [`crate::resolution::resolvable_tools`].
    pub fn list_tools(&self, server: &str) -> (r: Result<Vec<Tool>, PoolError>)
        ensures
            match r {
                Ok(tools) => {
                    &&& self.entries@.contains_key(server@)
                    &&& tools.deep_view() == visible_tools(
                        self.entries@[server@].lanes.deep_view(),
                        self.entries@[server@].quarantined.deep_view(),
                        !self.tool_reviews_attached,
                    )
                },
                Err(error) => {
                    &&& !self.entries@.contains_key(server@)
                    &&& plain(error, ErrorKind::InvalidParams, "unknown upstream: "@ + server@)
                },
            },
    {
        match self.entries.get(server) {
            Some(entry) => Ok(
                published_tools(&entry.lanes, &entry.quarantined, !self.tool_reviews_attached),
            ),
            None => Err(unknown_upstream(server)),
        }
    }

    /// Facts that the manifest alone gives of a tool.
    pub fn tool_facts(&self, server: &str, tool_name: &str) -> (r: ToolFacts)
        ensures
            r.deep_view() == manifest_facts(
                if self.entries@.contains_key(server@) {
                    Some(self.entries@[server@].manifest.deep_view())
                } else {
                    None
                },
                server@,
                tool_name@,
            ),
    {
        let manifest = match self.entries.get(server) {
            Some(entry) => Some(&entry.manifest),
            None => None,
        };
        manifest_tool_facts(manifest, server, tool_name)
    }

    /// Resource claims that an upstream declares; none for an unknown one.
    pub fn resource_claims(&self, server: &str) -> (r: Vec<ResourceClaim>)
        ensures
            r.deep_view() == if self.entries@.contains_key(server@) {
                self.entries@[server@].manifest.deep_view().resources
            } else {
                Seq::empty()
            },
    {
        match self.entries.get(server) {
            Some(entry) => entry.manifest.resources.dup(),
            None => {
                let none: Vec<ResourceClaim> = Vec::new();
                proof {
                    assert(none.deep_view() =~= Seq::empty());
                }
                none
            },
        }
    }

    /// Every resource claim, ordered by server name, with the generation under
    /// which it routes.
    pub fn resource_routing_snapshot(&self) -> (r: ResourceRoutingSnapshot)
        ensures
            r.generation == self.resource_routing_generation,
            exists|names: Seq<Seq<char>>|
                sorted(names) && names.no_duplicates() && names.to_set() == self.entries@.dom()
                    && r.claims.deep_view() == #[trigger] claims_in_order(self.entries@, names),
    {
        ResourceRoutingSnapshot {
            generation: self.resource_routing_generation,
            claims: admitted_resource_routing_claims(&self.entries),
        }
    }

    /// Whether an upstream may serve resources at all.
    pub fn resource_operations_supported(&self, server: &str) -> (b: bool)
        ensures
            b == (self.entries@.contains_key(server@)
                && self.entries@[server@].manifest.deep_view().serves_resources()),
    {
        match self.entries.get(server) {
            Some(entry) => manifest_supports_resource_operations(&entry.manifest),
            None => false,
        }
    }
}

/// A list names the upstreams of a registry: every one of them once, in order,
/// and nothing else.
pub proof fn listed_upstreams_are_the_registered_ones(
    registry: Registry,
    names: Seq<Seq<char>>,
    name: Seq<char>,
)
    requires
        names_of(registry, names),
    ensures
        names.contains(name) <==> registry.contains_key(name),
        forall|i: int, j: int|
            0 <= i < j < names.len() ==> crate::names::name_lt(
                #[trigger] names[i],
                #[trigger] names[j],
            ),
{
    assert(registry.dom().contains(name) <==> registry.contains_key(name));
}

/// The health of an entry is that of its lanes, its quarantine, its breaker, its
/// recovery and its next retry.
pub proof fn an_entry_is_seen_as_it_is(
    health: UpstreamHealth,
    name: Seq<char>,
    entry: UpstreamEntry,
)
    ensures
        healthy_view(health, name, entry) <==> describes(
            health,
            name,
            entry.lanes.deep_view(),
            entry.quarantined.deep_view(),
            entry.breaker,
            entry.recovery,
            entry.reconnect.next_retry_at,
        ),
        healthy_view(health, name, entry) ==> {
            &&& health.breaker == entry.breaker
            &&& health.total_lanes == entry.lanes.len()
            &&& health.quarantined_tool_count == entry.quarantined.len()
            &&& health.last_success_at == entry.recovery.last_success_at
            &&& health.last_error_class == entry.recovery.last_error_class
            &&& health.next_retry_at == entry.reconnect.next_retry_at
        },
{
}

} // verus!
