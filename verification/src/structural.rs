//! A reload of the manifest set, from its first look at the registry to the
//! exchange of it.

use vstd::prelude::*;

use crate::assoc::Assoc;
use crate::clock::{Instant, WallTime};
use crate::entry::UpstreamEntry;
use crate::manifest::{Classification, ToolClassification, UpstreamManifest};
use crate::names::{lemma_not_seen, lemma_strict_has_no_repeats, lemma_take_contains, lists_exactly};
use crate::pool::{registry_wf, UpstreamPool};
use crate::reload::{
    absent, apply_commit, commit_publishes_the_asked_for_set, couples_shape_and_resources,
    departed, falls_short, is_added, is_dropped, is_retired, next_entry, plan_commit,
    resource_routing_changed, resource_topology_changed, restart_required, routing_changes,
    shows_other_tools, topology_changes_at, update_in_place, updated_in_place, updates_in_place,
    CommitPlan, InPlaceUpdate, ManifestSet, Registry, ReloadReport, ShapeAction,
};
use crate::resources::{routed, ResourceReadAdmission};
use crate::transitions::fenced;

verus! {

/// A reload that may go on.
#[derive(Debug, PartialEq, Eq)]
pub struct ReloadStart {
    pub generation: u64,
    /// Declared resource ownership changes; routing has moved on already.
    pub routing_changed: bool,
    /// Upstreams come or go; routing moves on with the commit.
    pub topology_changed: bool,
}

/// Some upstream would change shape and resource ownership together.
pub open spec fn refused_as_a_whole(current: Registry, fresh: ManifestSet) -> bool {
    exists|name: Seq<char>| #[trigger] couples_shape_and_resources(current, fresh, name)
}

/// Upstreams that a commit publishes anew.
pub open spec fn added_by(
    live: Registry,
    built: Registry,
    fresh: ManifestSet,
    generation: u64,
) -> Set<Seq<char>> {
    Set::new(|name: Seq<char>| is_added(live, built, fresh, generation, name))
}

/// Upstreams that leave the registry by a commit.
pub open spec fn dropped_by(live: Registry, fresh: ManifestSet) -> Set<Seq<char>> {
    Set::new(|name: Seq<char>| is_dropped(live, fresh, name))
}

/// The registry is exchanged by a commit.
pub open spec fn is_structural(live: Registry, built: Registry, fresh: ManifestSet) -> bool {
    built.len() > 0 || exists|name: Seq<char>| #[trigger] is_dropped(live, fresh, name)
}

/// A commit changes what clients are shown.
pub open spec fn changes_catalog(
    live: Registry,
    built: Registry,
    fresh: ManifestSet,
    generation: u64,
    local_quarantine_authoritative: bool,
) -> bool {
    ||| exists|name: Seq<char>| #[trigger] is_dropped(live, fresh, name)
    ||| exists|name: Seq<char>| #[trigger]
        shows_other_tools(live, built, fresh, generation, local_quarantine_authoritative, name)
}

/// Names that a manifest classifies.
pub open spec fn classified_names(tools: Seq<Classification>) -> Seq<Seq<char>> {
    tools.map_values(|tool: Classification| tool.name)
}

fn list_classified(tools: &Vec<ToolClassification>) -> (r: Vec<String>)
    ensures
        r.deep_view() == classified_names(tools.deep_view()),
{
    let mut out: Vec<String> = Vec::new();
    let mut i: usize = 0;
    while i < tools.len()
        invariant
            i <= tools.len(),
            out.len() == i,
            forall|j: int|
                0 <= j < i ==> #[trigger] out.deep_view()[j] == tools.deep_view()[j].name,
        decreases tools.len() - i,
    {
        let ghost before = out.deep_view();
        out.push(tools[i].name.clone());
        proof {
            assert(out.deep_view() =~= before.push(tools.deep_view()[i as int].name));
        }
        i = i + 1;
    }
    proof {
        assert(out.deep_view() =~= classified_names(tools.deep_view()));
    }
    out
}

fn append_names(list: &mut Vec<String>, more: &Vec<String>)
    ensures
        final(list).deep_view() == old(list).deep_view() + more.deep_view(),
{
    let ghost start = list.deep_view();
    let mut i: usize = 0;
    proof {
        assert(more.deep_view().take(0) =~= Seq::empty());
        assert(start + Seq::empty() =~= start);
    }
    while i < more.len()
        invariant
            i <= more.len(),
            list.deep_view() == start + more.deep_view().take(i as int),
        decreases more.len() - i,
    {
        let ghost before = list.deep_view();
        list.push(more[i].clone());
        proof {
            let name = more.deep_view()[i as int];
            assert(list.deep_view() =~= before.push(name));
            assert(more.deep_view().take(i + 1) =~= more.deep_view().take(i as int).push(name));
        }
        i = i + 1;
    }
    proof {
        assert(more.deep_view().take(more.len() as int) =~= more.deep_view());
    }
}

/// What a structural commit did.
pub struct CommitOutcome {
    /// The registry was exchanged.
    pub published: bool,
    /// The entries it replaced or dropped.
    pub retired: Assoc<UpstreamEntry>,
}

impl UpstreamPool {
    /// The pool once a reload has begun.
    pub open spec fn begun(self, routing_changed: bool) -> Self {
        UpstreamPool {
            next_reload_gen: self.next_reload_gen.wrapping_add(1),
            resource_routing_generation: if routing_changed {
                self.resource_routing_generation.wrapping_add(1)
            } else {
                self.resource_routing_generation
            },
            ..self
        }
    }

    /// Begin a reload. The whole set is refused, and nothing changes but the
    /// generation count, where an upstream would change its shape and its
    /// resource ownership together.
    pub fn begin_reload(&mut self, fresh: &Assoc<UpstreamManifest>) -> (r: (
        Option<ReloadStart>,
        ReloadReport,
    ))
        ensures
            ({
                let (start, report) = r;
                let generation = old(self).next_reload_gen;
                let refused = refused_as_a_whole(old(self).entries@, fresh@);
                &&& report.catalog_generation == generation
                &&& !report.superseded
                &&& lists_exactly(
                    report.resource_shape_restart_required.deep_view(),
                    Set::new(
                        |name: Seq<char>|
                            couples_shape_and_resources(old(self).entries@, fresh@, name),
                    ),
                )
                &&& report.untouched_but_refusals()
                &&& start is None <==> refused
                &&& start is Some ==> {
                    &&& start->0.generation == generation
                    &&& start->0.routing_changed == routing_changes(old(self).entries@, fresh@)
                    &&& start->0.topology_changed == exists|name: Seq<char>| #[trigger]
                        topology_changes_at(old(self).entries@, fresh@, name)
                }
                &&& *final(self) == old(self).begun(start is Some && start->0.routing_changed)
            }),
    {
        let generation: u64 = self.next_reload_gen;
        self.next_reload_gen = generation.wrapping_add(1);
        let mut report = ReloadReport::new(generation);
        let refused = restart_required(&self.entries, fresh);
        if refused.len() > 0 {
            proof {
                assert(refused.deep_view().contains(refused.deep_view()[0]));
                assert(couples_shape_and_resources(
                    self.entries@,
                    fresh@,
                    refused.deep_view()[0],
                ));
            }
            report.resource_shape_restart_required = refused;
            return (None, report);
        }
        proof {
            assert(refused.deep_view().len() == 0);
            assert forall|name: Seq<char>| !#[trigger] couples_shape_and_resources(
                self.entries@,
                fresh@,
                name,
            ) by {
                if couples_shape_and_resources(self.entries@, fresh@, name) {
                    assert(refused.deep_view().contains(name));
                }
            }
        }
        report.resource_shape_restart_required = refused;
        let routing_changed = resource_routing_changed(&self.entries, fresh);
        let topology_changed = resource_topology_changed(&self.entries, fresh);
        if routing_changed {
            self.resource_routing_generation = self.resource_routing_generation.wrapping_add(1);
        }
        (Some(ReloadStart { generation, routing_changed, topology_changed }), report)
    }

    /// Apply to an upstream what needs no new connection, or ask for an entry
    /// to be built. Tools whose classification changes are fenced before their
    /// new classification can be seen.
    pub fn stage_reload(
        &mut self,
        name: &String,
        new: &UpstreamManifest,
        generation: u64,
        report: &mut ReloadReport,
    ) -> (r: Option<InPlaceUpdate>)
        requires
            old(self).wf(),
        ensures
            final(self).wf(),
            r is None <==> absent(old(self).entries@, name@),
            r is None ==> *final(self) == *old(self) && *final(report) == *old(report),
            r is Some ==> {
                &&& forall|other: Seq<char>| #[trigger]
                    final(self).entries@.contains_key(other) <==> old(self).entries@.contains_key(
                        other,
                    )
                &&& forall|other: Seq<char>|
                    other != name@ && #[trigger] final(self).entries@.contains_key(other)
                        ==> final(self).entries@[other] == old(self).entries@[other]
                &&& updates_in_place(
                    old(self).entries@[name@],
                    final(self).entries@[name@],
                    new.deep_view(),
                    generation,
                    r->0,
                )
                &&& old(report).notes_in_place(*final(report), name@, r->0)
                &&& forall|s: Seq<char>, t: Seq<char>| #[trigger]
                    final(self).catalog_transitions.state(s, t) == if old(self).catalog_attached
                        && s == name@ && r->0.fenced.deep_view().contains(t) {
                        Some(fenced(old(self).catalog_transitions.state(s, t), generation))
                    } else {
                        old(self).catalog_transitions.state(s, t)
                    }
                &&& *final(self) == (UpstreamPool {
                    entries: final(self).entries,
                    catalog_transitions: final(self).catalog_transitions,
                    ..*old(self)
                })
            },
    {
        match self.entries.get(name.as_str()) {
            Some(entry) => {
                if entry.removed {
                    return None;
                }
            },
            None => return None,
        }
        match self.entries.remove(name.as_str()) {
            Some(mut entry) => {
                let update = update_in_place(&mut entry, new, generation);
                self.mark_catalog_transitions(name.as_str(), &update.fenced, generation);
                self.entries.insert(name.clone(), entry);
                report.note_in_place(name, &update);
                Some(update)
            },
            None => None,
        }
    }

    /// Whether a reload whose upstreams come or go may still be published after
    /// it waited for exclusive routing: not where the ownership it decided on
    /// has been changed meanwhile. One that held routing exclusively from the
    /// start never waited.
    pub fn topology_still_holds(
        &self,
        start: &ReloadStart,
        fresh: &Assoc<UpstreamManifest>,
        held_exclusively: bool,
        report: &mut ReloadReport,
    ) -> (b: bool)
        ensures
            b == !(start.topology_changed && !held_exclusively && routing_changes(
                self.entries@,
                fresh@,
            )),
            *final(report) == (ReloadReport {
                superseded: old(report).superseded || !b,
                ..*old(report)
            }),
    {
        if start.topology_changed && !held_exclusively && resource_routing_changed(
            &self.entries,
            fresh,
        ) {
            report.superseded = true;
            return false;
        }
        true
    }

    /// A reload of this generation may commit: no newer one has.
    pub open spec fn passes_fence(self, generation: u64) -> bool {
        generation >= self.applied_reload_gen
    }

    /// The pool once a reload has passed the fence.
    pub open spec fn past_fence(self, start: ReloadStart) -> Self {
        UpstreamPool {
            applied_reload_gen: start.generation,
            resource_routing_generation: if start.topology_changed && !start.routing_changed {
                self.resource_routing_generation.wrapping_add(1)
            } else {
                self.resource_routing_generation
            },
            ..self
        }
    }

    /// Pass the generation fence, or learn that a newer reload has committed.
    pub fn fence_commit(&mut self, start: &ReloadStart, report: &mut ReloadReport) -> (b: bool)
        ensures
            b == old(self).passes_fence(start.generation),
            *final(report) == (ReloadReport {
                superseded: old(report).superseded || !b,
                ..*old(report)
            }),
            *final(self) == if b {
                old(self).past_fence(*start)
            } else {
                *old(self)
            },
    {
        if start.generation < self.applied_reload_gen {
            report.superseded = true;
            return false;
        }
        self.applied_reload_gen = start.generation;
        if start.topology_changed && !start.routing_changed {
            self.resource_routing_generation = self.resource_routing_generation.wrapping_add(1);
        }
        true
    }

    /// What the commit of a reload would do.
    pub fn plan_reload(
        &self,
        built: &Assoc<UpstreamEntry>,
        fresh: &Assoc<UpstreamManifest>,
        generation: u64,
    ) -> (r: CommitPlan)
        ensures
            self.planned(built@, fresh@, generation, r),
    {
        plan_commit(&self.entries, built, fresh, generation, !self.tool_reviews_attached)
    }

    /// The plan is that of committing this set.
    pub open spec fn planned(
        self,
        built: Registry,
        fresh: ManifestSet,
        generation: u64,
        plan: CommitPlan,
    ) -> bool {
        &&& lists_exactly(
            plan.added.deep_view(),
            added_by(self.entries@, built, fresh, generation),
        )
        &&& lists_exactly(
            plan.dropped.deep_view(),
            dropped_by(self.entries@, fresh),
        )
        &&& plan.structural == is_structural(self.entries@, built, fresh)
        &&& plan.superseded == exists|name: Seq<char>| #[trigger]
            falls_short(self.entries@, built, fresh, generation, name)
        &&& plan.catalog_changed == changes_catalog(
            self.entries@,
            built,
            fresh,
            generation,
            !self.tool_reviews_attached,
        )
    }
}

impl ReloadReport {
    /// Nothing but a refusal is noted.
    pub open spec fn untouched_but_refusals(self) -> bool {
        &&& self.classifications_updated.len() == 0
        &&& self.identity_updated.len() == 0
        &&& self.session_policy_updated.len() == 0
        &&& self.redialed.len() == 0
        &&& self.redial_failed.len() == 0
        &&& self.added.len() == 0
        &&& self.removed.len() == 0
    }
}

/// The registry is exchanged: the commit is structural, and the search index has
/// taken the inventory where clients are shown another one.
pub open spec fn exchanges(
    pool: UpstreamPool,
    built: Registry,
    fresh: ManifestSet,
    generation: u64,
    index_accepted: bool,
) -> bool {
    is_structural(pool.entries@, built, fresh) && (index_accepted || !changes_catalog(
        pool.entries@,
        built,
        fresh,
        generation,
        !pool.tool_reviews_attached,
    ))
}

/// The fence of a tool once added upstreams are fenced.
pub open spec fn fenced_with_added(
    pool: UpstreamPool,
    built: Registry,
    fresh: ManifestSet,
    generation: u64,
    server: Seq<char>,
    tool: Seq<char>,
) -> Option<crate::transitions::CatalogTransition> {
    let before = pool.catalog_transitions.state(server, tool);
    if pool.catalog_attached && is_added(pool.entries@, built, fresh, generation, server)
        && classified_names(fresh[server].deep_view().tools).contains(tool) {
        Some(fenced(before, generation))
    } else {
        before
    }
}

impl UpstreamPool {
    fn fence_added(&mut self, added: &Vec<String>, fresh: &Assoc<UpstreamManifest>, generation: u64)
        requires
            forall|name: Seq<char>|
                added.deep_view().contains(name) ==> #[trigger] fresh@.contains_key(name),
            added.deep_view().no_duplicates(),
        ensures
            final(self).same_but_transitions(*old(self)),
            forall|s: Seq<char>, t: Seq<char>| #[trigger]
                final(self).catalog_transitions.state(s, t) == if old(self).catalog_attached
                    && added.deep_view().contains(s) && classified_names(
                    fresh@[s].deep_view().tools,
                ).contains(t) {
                    Some(fenced(old(self).catalog_transitions.state(s, t), generation))
                } else {
                    old(self).catalog_transitions.state(s, t)
                },
    {
        let mut i: usize = 0;
        while i < added.len()
            invariant
                i <= added.len(),
                added.deep_view().no_duplicates(),
                forall|name: Seq<char>|
                    added.deep_view().contains(name) ==> #[trigger] fresh@.contains_key(name),
                self.same_but_transitions(*old(self)),
                forall|s: Seq<char>, t: Seq<char>| #[trigger]
                    self.catalog_transitions.state(s, t) == if old(self).catalog_attached
                        && added.deep_view().take(i as int).contains(s) && classified_names(
                        fresh@[s].deep_view().tools,
                    ).contains(t) {
                        Some(fenced(old(self).catalog_transitions.state(s, t), generation))
                    } else {
                        old(self).catalog_transitions.state(s, t)
                    },
            decreases added.len() - i,
        {
            proof {
                lemma_take_contains(added.deep_view(), i as int);
                lemma_not_seen(added.deep_view(), i as int);
                assert(added.deep_view().contains(added.deep_view()[i as int]));
            }
            if let Some(manifest) = fresh.get(added[i].as_str()) {
                let tools = list_classified(&manifest.tools);
                self.mark_catalog_transitions(added[i].as_str(), &tools, generation);
            }
            i = i + 1;
        }
        proof {
            assert(added.deep_view().take(added.len() as int) =~= added.deep_view());
        }
    }

    fn forget_dropped(&mut self, dropped: &Vec<String>)
        ensures
            final(self).entries == old(self).entries,
            final(self).same_but_refusals(*old(self)),
            final(self).audited_refusals.stamped() == old(self).audited_refusals.stamped(),
            forall|server: Seq<char>| #[trigger]
                final(self).audited_refusals.record_of(server) == if dropped.deep_view().contains(
                    server,
                ) {
                    None
                } else {
                    old(self).audited_refusals.record_of(server)
                },
    {
        let mut i: usize = 0;
        while i < dropped.len()
            invariant
                i <= dropped.len(),
                self.entries == old(self).entries,
                self.same_but_refusals(*old(self)),
                self.audited_refusals.stamped() == old(self).audited_refusals.stamped(),
                forall|server: Seq<char>| #[trigger]
                    self.audited_refusals.record_of(server) == if dropped.deep_view().take(
                        i as int,
                    ).contains(server) {
                        None
                    } else {
                        old(self).audited_refusals.record_of(server)
                    },
            decreases dropped.len() - i,
        {
            proof {
                lemma_take_contains(dropped.deep_view(), i as int);
            }
            self.audited_refusals.forget(dropped[i].as_str());
            i = i + 1;
        }
        proof {
            assert(dropped.deep_view().take(dropped.len() as int) =~= dropped.deep_view());
        }
    }

    /// Commit a reload that passed the fence: exchange the registry for exactly
    /// the asked-for set. `index_accepted` says whether the search index took the
    /// inventory that the plan of this commit shows; where it did not, the old
    /// registry stays.
    pub fn commit_reload(
        &mut self,
        built: Assoc<UpstreamEntry>,
        fresh: &Assoc<UpstreamManifest>,
        generation: u64,
        index_accepted: bool,
        report: &mut ReloadReport,
        now: Instant,
        wall: WallTime,
    ) -> (r: CommitOutcome)
        requires
            old(self).wf(),
            registry_wf(built@),
        ensures
            final(self).wf(),
            r.published == exchanges(*old(self), built@, fresh@, generation, index_accepted),
            *final(self) == (UpstreamPool {
                entries: final(self).entries,
                catalog_transitions: final(self).catalog_transitions,
                audited_refusals: final(self).audited_refusals,
                ..*old(self)
            }),
            ({
                let live = old(self).entries@;
                let catalog_changed = changes_catalog(
                    live,
                    built@,
                    fresh@,
                    generation,
                    !old(self).tool_reviews_attached,
                );
                let named = r.published && catalog_changed;
                &&& *final(report) == (ReloadReport {
                    added: final(report).added,
                    removed: final(report).removed,
                    superseded: final(report).superseded,
                    ..*old(report)
                })
                &&& final(report).superseded == (old(report).superseded || (exists|
                    name: Seq<char>,
                | #[trigger] falls_short(live, built@, fresh@, generation, name)) || (
                is_structural(live, built@, fresh@) && !r.published))
                &&& exists|added: Seq<Seq<char>>, dropped: Seq<Seq<char>>|
                    {
                        &&& #[trigger] lists_exactly(
                            added,
                            added_by(live, built@, fresh@, generation),
                        )
                        &&& #[trigger] lists_exactly(
                            dropped,
                            dropped_by(live, fresh@),
                        )
                        &&& final(report).added.deep_view() == if named {
                            old(report).added.deep_view() + added
                        } else {
                            old(report).added.deep_view()
                        }
                        &&& final(report).removed.deep_view() == if named {
                            old(report).removed.deep_view() + dropped
                        } else {
                            old(report).removed.deep_view()
                        }
                    }
                &&& forall|s: Seq<char>, t: Seq<char>| #[trigger]
                    final(self).catalog_transitions.state(s, t) == if named {
                        fenced_with_added(*old(self), built@, fresh@, generation, s, t)
                    } else {
                        old(self).catalog_transitions.state(s, t)
                    }
                &&& forall|server: Seq<char>| #[trigger]
                    final(self).audited_refusals.record_of(server) == if r.published && is_dropped(
                        live,
                        fresh@,
                        server,
                    ) {
                        None
                    } else {
                        old(self).audited_refusals.record_of(server)
                    }
                &&& !r.published ==> final(self).entries == old(self).entries
                    && r.retired@.len() == 0
                &&& r.published ==> {
                    &&& forall|name: Seq<char>|
                        #![trigger final(self).entries@.contains_key(name)]
                        match next_entry(live, built@, fresh@, generation, name) {
                            Some(entry) => final(self).entries@.contains_pair(name, entry),
                            None => !final(self).entries@.contains_key(name),
                        }
                    &&& forall|name: Seq<char>|
                        #![trigger r.retired@.contains_key(name)]
                        {
                            &&& r.retired@.contains_key(name) <==> is_retired(
                                live,
                                built@,
                                fresh@,
                                generation,
                                name,
                            )
                            &&& r.retired@.contains_key(name) ==> r.retired@[name] == departed(
                                live,
                                fresh@,
                                name,
                                now,
                                wall,
                            )
                        }
                }
            }),
    {
        let plan = self.plan_reload(&built, fresh, generation);
        if plan.superseded {
            report.superseded = true;
        }
        let accepted = index_accepted || !plan.catalog_changed;
        if !plan.structural || !accepted {
            if plan.structural {
                report.superseded = true;
            }
            let none: Assoc<UpstreamEntry> = Assoc::new();
            return CommitOutcome { published: false, retired: none };
        }
        let ghost live = self.entries@;
        let ghost made = built@;
        proof {
            lemma_strict_has_no_repeats(plan.added.deep_view());
            assert forall|name: Seq<char>| plan.added.deep_view().contains(name) implies #[trigger] fresh@.contains_key(
                name,
            ) by {
                assert(is_added(live, made, fresh@, generation, name));
            }
        }
        if plan.catalog_changed {
            self.fence_added(&plan.added, fresh, generation);
            append_names(&mut report.added, &plan.added);
            append_names(&mut report.removed, &plan.dropped);
        }
        let retired = apply_commit(&mut self.entries, built, fresh, generation, now, wall);
        self.forget_dropped(&plan.dropped);
        proof {
            assert forall|name: Seq<char>| #[trigger] self.entries@.contains_key(name) implies self.entries@[name].wf() by {
                assert(next_entry(live, made, fresh@, generation, name) is Some);
            }
        }
        CommitOutcome { published: true, retired }
    }
}

/// The newest reload to reach the commit wins: once it has passed the fence, no
/// reload of an earlier generation passes it any more, the fence never recedes,
/// and a reload that begins later has a later generation.
pub proof fn newest_commit_wins(
    pool: UpstreamPool,
    routing_changed: bool,
    later: ReloadStart,
    earlier: u64,
)
    requires
        earlier < later.generation,
        pool.passes_fence(later.generation),
    ensures
        !pool.past_fence(later).passes_fence(earlier),
        pool.past_fence(later).applied_reload_gen >= pool.applied_reload_gen,
        pool.next_reload_gen < u64::MAX ==> pool.next_reload_gen < pool.begun(
            routing_changed,
        ).next_reload_gen,
{
}

/// A read that was authorized before ownership of resources changed, or before
/// upstreams came or went, is refused afterwards.
pub proof fn authorizations_end_with_their_routing(
    pool: UpstreamPool,
    start: ReloadStart,
    admitted: ResourceReadAdmission,
    server: Seq<char>,
)
    requires
        admitted.generation == pool.resource_routing_generation,
    ensures
        start.routing_changed ==> !routed(
            admitted,
            server,
            pool.begun(true).resource_routing_generation,
        ),
        start.topology_changed && !start.routing_changed ==> !routed(
            admitted,
            server,
            pool.past_fence(start).resource_routing_generation,
        ),
{
}

/// A commit that is published and falls short nowhere leaves exactly the asked-for
/// upstreams in the registry.
pub proof fn published_set_is_the_asked_for_set(
    live: Registry,
    built: Registry,
    fresh: ManifestSet,
    generation: u64,
    published: Registry,
)
    requires
        forall|name: Seq<char>| !#[trigger] falls_short(live, built, fresh, generation, name),
        forall|name: Seq<char>|
            #![trigger published.contains_key(name)]
            match next_entry(live, built, fresh, generation, name) {
                Some(entry) => published.contains_pair(name, entry),
                None => !published.contains_key(name),
            },
    ensures
        published.dom() == fresh.dom(),
{
    commit_publishes_the_asked_for_set(live, built, fresh, generation);
    assert forall|name: Seq<char>| published.dom().contains(name) <==> fresh.dom().contains(name) by {
        assert(published.contains_key(name) <==> next_entry(live, built, fresh, generation, name)
            is Some);
    }
    assert(published.dom() =~= fresh.dom());
}

/// A set is live when it names exactly the upstreams of the registry, each with
/// the manifest it has.
pub open spec fn is_live_set(live: Registry, fresh: ManifestSet) -> bool {
    &&& forall|name: Seq<char>| #[trigger]
        live.contains_key(name) <==> #[trigger] fresh.contains_key(name)
    &&& forall|name: Seq<char>| #[trigger]
        live.contains_key(name) ==> !live[name].removed && fresh[name].deep_view()
            == live[name].manifest.deep_view()
}

/// A reload of the set that is live changes nothing: it is not refused, moves no
/// routing, re-dials and rebuilds nothing, fences and publishes no tool, leaves
/// every manifest as it is, notes nothing in its report, and exchanges no
/// registry.
pub proof fn unchanged_sets_change_nothing(
    live: Registry,
    fresh: ManifestSet,
    generation: u64,
    local_quarantine_authoritative: bool,
)
    requires
        is_live_set(live, fresh),
    ensures
        !refused_as_a_whole(live, fresh),
        !routing_changes(live, fresh),
        forall|name: Seq<char>| !#[trigger] topology_changes_at(live, fresh, name),
        forall|name: Seq<char>, updated: UpstreamEntry, update: InPlaceUpdate|
            live.contains_key(name) && #[trigger] updates_in_place(
                live[name],
                updated,
                fresh[name].deep_view(),
                generation,
                update,
            ) ==> {
                &&& updated.manifest.deep_view() == live[name].manifest.deep_view()
                &&& updated.lanes == live[name].lanes
                &&& update.action == ShapeAction::Keep
                &&& update.fenced.len() == 0
                &&& update.publication is None
                &&& forall|before: ReloadReport, after: ReloadReport| #[trigger]
                    before.notes_in_place(after, name, update) ==> (before.noop() ==> after.noop())
            },
        !is_structural(live, Map::empty(), fresh),
        forall|name: Seq<char>| !#[trigger]
            falls_short(live, Map::empty(), fresh, generation, name),
        !changes_catalog(
            live,
            Map::empty(),
            fresh,
            generation,
            local_quarantine_authoritative,
        ),
{
    assert forall|name: Seq<char>, updated: UpstreamEntry, update: InPlaceUpdate|
        live.contains_key(name) && #[trigger] updates_in_place(
            live[name],
            updated,
            fresh[name].deep_view(),
            generation,
            update,
        ) implies {
        &&& updated.manifest.deep_view() == live[name].manifest.deep_view()
        &&& updated.lanes == live[name].lanes
        &&& update.action == ShapeAction::Keep
        &&& update.fenced.len() == 0
        &&& update.publication is None
        &&& forall|before: ReloadReport, after: ReloadReport| #[trigger]
            before.notes_in_place(after, name, update) ==> (before.noop() ==> after.noop())
    } by {
        let manifest = live[name].manifest.deep_view();
        assert(updated_in_place(manifest, manifest) =~= manifest);
        assert(update.fenced.deep_view().len() == update.fenced.len());
        assert forall|before: ReloadReport, after: ReloadReport| #[trigger]
            before.notes_in_place(after, name, update) && before.noop() implies after.noop() by {
            assert(after.classifications_updated.deep_view().len()
                == after.classifications_updated.len());
            assert(before.classifications_updated.deep_view().len()
                == before.classifications_updated.len());
            assert(after.session_policy_updated.deep_view().len()
                == after.session_policy_updated.len());
            assert(before.session_policy_updated.deep_view().len()
                == before.session_policy_updated.len());
            assert(after.identity_updated.deep_view().len() == after.identity_updated.len());
            assert(before.identity_updated.deep_view().len() == before.identity_updated.len());
        }
    }
}

/// A set is refused as a whole where any one upstream of it needs a restart, and
/// only there.
pub proof fn one_coupled_edit_refuses_the_set(current: Registry, fresh: ManifestSet)
    ensures
        forall|name: Seq<char>| #[trigger]
            couples_shape_and_resources(current, fresh, name) ==> refused_as_a_whole(
                current,
                fresh,
            ),
        (forall|name: Seq<char>| !#[trigger] couples_shape_and_resources(current, fresh, name))
            ==> !refused_as_a_whole(current, fresh),
{
}

/// A reload takes the next generation, ends every resource authorization where
/// it changes the routing, and touches nothing else by beginning.
pub proof fn a_reload_begins_a_generation(pool: UpstreamPool)
    ensures
        pool.begun(true).next_reload_gen == pool.next_reload_gen.wrapping_add(1),
        pool.begun(false).next_reload_gen == pool.next_reload_gen.wrapping_add(1),
        pool.begun(true).resource_routing_generation
            == pool.resource_routing_generation.wrapping_add(1),
        pool.begun(true).resource_routing_generation != pool.resource_routing_generation,
        pool.begun(false).resource_routing_generation == pool.resource_routing_generation,
        forall|routing_changed: bool|
            (UpstreamPool {
                next_reload_gen: pool.next_reload_gen,
                resource_routing_generation: pool.resource_routing_generation,
                ..#[trigger] pool.begun(routing_changed)
            }) == pool,
{
}

/// A commit passes the fence exactly where no newer one has passed it; it then
/// stands as the applied generation, and a change of topology that was not
/// announced as a change of routing ends the resource authorizations.
pub proof fn a_commit_passes_the_fence_in_order(pool: UpstreamPool, start: ReloadStart)
    ensures
        pool.passes_fence(start.generation) <==> pool.applied_reload_gen <= start.generation,
        pool.past_fence(start).applied_reload_gen == start.generation,
        start.topology_changed && !start.routing_changed ==> pool.past_fence(
            start,
        ).resource_routing_generation == pool.resource_routing_generation.wrapping_add(1),
        !start.topology_changed || start.routing_changed ==> pool.past_fence(
            start,
        ).resource_routing_generation == pool.resource_routing_generation,
        (UpstreamPool {
            applied_reload_gen: pool.applied_reload_gen,
            resource_routing_generation: pool.resource_routing_generation,
            ..pool.past_fence(start)
        }) == pool,
{
}

/// A plan lists as added every upstream that the commit puts in place of none
/// live, as dropped every one that leaves the set, and calls the commit
/// structural where anything was built or leaves.
pub proof fn a_plan_lists_joins_and_leaves(
    pool: UpstreamPool,
    built: Registry,
    fresh: ManifestSet,
    generation: u64,
    plan: CommitPlan,
    local: bool,
    name: Seq<char>,
)
    requires
        pool.planned(built, fresh, generation, plan),
        local == !pool.tool_reviews_attached,
    ensures
        plan.added.deep_view().contains(name) <==> is_added(
            pool.entries@,
            built,
            fresh,
            generation,
            name,
        ),
        plan.dropped.deep_view().contains(name) <==> pool.entries@.contains_key(name)
            && !fresh.contains_key(name),
        built.len() > 0 ==> plan.structural,
        plan.dropped.len() > 0 ==> plan.structural && plan.catalog_changed,
        built.len() == 0 && plan.dropped.len() == 0 ==> !plan.structural,
        falls_short(pool.entries@, built, fresh, generation, name) ==> plan.superseded,
        shows_other_tools(
            pool.entries@,
            built,
            fresh,
            generation,
            local,
            name,
        ) ==> plan.catalog_changed,
        plan.catalog_changed && plan.dropped.len() == 0 ==> exists|other: Seq<char>| #[trigger]
            shows_other_tools(
                pool.entries@,
                built,
                fresh,
                generation,
                local,
                other,
            ),
        plan.superseded ==> exists|other: Seq<char>| #[trigger]
            falls_short(pool.entries@, built, fresh, generation, other),
{
    let dropped = plan.dropped.deep_view();
    if dropped.len() > 0 {
        let first = dropped[0];
        assert(dropped.contains(first));
        assert(dropped_by(pool.entries@, fresh).contains(first));
        assert(is_dropped(pool.entries@, fresh, first));
    } else {
        assert forall|other: Seq<char>| !#[trigger] is_dropped(pool.entries@, fresh, other) by {
            if is_dropped(pool.entries@, fresh, other) {
                assert(dropped_by(pool.entries@, fresh).contains(other));
                assert(dropped.contains(other));
            }
        }
    }
    assert(dropped_by(pool.entries@, fresh).contains(name) <==> is_dropped(
        pool.entries@,
        fresh,
        name,
    ));
    assert(added_by(pool.entries@, built, fresh, generation).contains(name) <==> is_added(
        pool.entries@,
        built,
        fresh,
        generation,
        name,
    ));
}

/// A structural commit is published where the search index takes the new
/// inventory, and without asking it where the inventory is not another one; what
/// is not structural is not published.
pub proof fn commits_publish_what_the_index_takes(
    pool: UpstreamPool,
    built: Registry,
    fresh: ManifestSet,
    generation: u64,
    plan: CommitPlan,
)
    requires
        pool.planned(built, fresh, generation, plan),
    ensures
        plan.structural ==> exchanges(pool, built, fresh, generation, true),
        plan.structural && !plan.catalog_changed ==> exchanges(
            pool,
            built,
            fresh,
            generation,
            false,
        ),
        plan.structural && plan.catalog_changed ==> !exchanges(
            pool,
            built,
            fresh,
            generation,
            false,
        ),
        !plan.structural ==> forall|index_accepted: bool|
            !#[trigger] exchanges(pool, built, fresh, generation, index_accepted),
{
}

/// With a catalog attached every tool that an added upstream declares is fenced
/// until the catalog has caught up; no other tool is, and none without a catalog.
pub proof fn added_tools_are_fenced(
    pool: UpstreamPool,
    built: Registry,
    fresh: ManifestSet,
    generation: u64,
    server: Seq<char>,
    tool: Seq<char>,
)
    ensures
        pool.catalog_attached && is_added(pool.entries@, built, fresh, generation, server)
            && (exists|i: int|
            0 <= i < fresh[server].deep_view().tools.len() && (
            #[trigger] fresh[server].deep_view().tools[i]).name == tool) ==> fenced_with_added(
            pool,
            built,
            fresh,
            generation,
            server,
            tool,
        ) == Some(fenced(pool.catalog_transitions.state(server, tool), generation)),
        !pool.catalog_attached || !is_added(pool.entries@, built, fresh, generation, server) || (
        forall|i: int|
            0 <= i < fresh[server].deep_view().tools.len() ==> (
            #[trigger] fresh[server].deep_view().tools[i]).name != tool) ==> fenced_with_added(
            pool,
            built,
            fresh,
            generation,
            server,
            tool,
        ) == pool.catalog_transitions.state(server, tool),
{
    let tools = fresh[server].deep_view().tools;
    let names = classified_names(tools);
    if exists|i: int| 0 <= i < tools.len() && (#[trigger] tools[i]).name == tool {
        let i = choose|i: int| 0 <= i < tools.len() && (#[trigger] tools[i]).name == tool;
        assert(names[i] == tool);
    }
    if names.contains(tool) {
        let i = choose|i: int| 0 <= i < names.len() && names[i] == tool;
        assert(tools[i].name == tool);
    }
}

/// A report of a reload that was refused names nothing but what it was refused
/// for.
pub proof fn refused_reloads_report_refusals_alone(report: ReloadReport)
    ensures
        report.untouched_but_refusals() && report.resource_shape_restart_required.len() == 0
            ==> report.noop(),
        report.noop() ==> report.untouched_but_refusals(),
        report.untouched_but_refusals() ==> report.classifications_updated.len() == 0
            && report.added.len() == 0 && report.removed.len() == 0 && report.redialed.len() == 0
            && report.redial_failed.len() == 0,
{
}

} // verus!
