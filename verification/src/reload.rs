//! Applying a fresh manifest set to the live pool.
//!
//! Edits of an existing upstream are applied in place, re-dialed or rebuilt;
//! additions and removals are committed together as one registry. Every reload
//! carries a generation, and nothing that a newer one has done is undone by an
//! older one that arrives late.

use vstd::prelude::*;

use crate::admission::{partition_live_tools, published_subset};
use crate::assoc::Assoc;
use crate::clock::{Instant, WallTime};
use crate::drift::{DriftReport, QuarantineThreshold};
use crate::entry::UpstreamEntry;
use crate::health::{published_tools, visible_tools};
use crate::lane::{
    find_connected, lanes_agree, some_connected, synchronize_published_catalogs, with_published,
    Connection, Lanes,
};
use crate::manifest::{Manifest, UpstreamManifest};
use crate::names::{
    insert_unique, lemma_not_seen, lemma_take_contains, lists_exactly, sort_names, sorted,
    strictly_sorted,
};
use crate::redial::{
    collect_live_catalogs, collect_published, live_catalogs, observe_session, observed_drift,
    published_now, Publication, RedialOutcome,
};
use crate::shape::{
    changed_classified_tools, changed_tool_names, connection_shape_eq,
    kept_declarations_are_no_changes, lanes_stay, manifest_supports_resource_operations,
    new_declarations_are_changes, resource_shape_change_requires_restart, setup_retry_policy_eq,
    slot_count_stable,
};
use crate::tools::{
    common_catalog, common_tool_catalog, descriptors_by_name, tool_catalogs_equal, Tool,
};
use crate::value::Value;

verus! {

/// What a reload changed, by upstream name.
#[derive(Debug, PartialEq, Eq)]
pub struct ReloadReport {
    /// Generation of the manifest set this report is about.
    pub catalog_generation: u64,
    pub classifications_updated: Vec<String>,
    /// Identity posture changed and is in force.
    pub identity_updated: Vec<String>,
    /// Setup-retry policy changed without a connection being replaced.
    pub session_policy_updated: Vec<String>,
    /// Connection shape changed and is in force.
    pub redialed: Vec<String>,
    /// Connection shape changed but every dial of it failed; the old one serves.
    pub redial_failed: Vec<String>,
    /// Connection shape and resource ownership changed together; the whole set
    /// was refused.
    pub resource_shape_restart_required: Vec<String>,
    pub added: Vec<String>,
    pub removed: Vec<String>,
    /// The set is not the one now live.
    pub superseded: bool,
}

impl ReloadReport {
    pub fn new(generation: u64) -> (r: Self)
        ensures
            r.catalog_generation == generation,
            r.noop(),
            !r.superseded,
    {
        ReloadReport {
            catalog_generation: generation,
            classifications_updated: Vec::new(),
            identity_updated: Vec::new(),
            session_policy_updated: Vec::new(),
            redialed: Vec::new(),
            redial_failed: Vec::new(),
            resource_shape_restart_required: Vec::new(),
            added: Vec::new(),
            removed: Vec::new(),
            superseded: false,
        }
    }

    /// No upstream is named anywhere in the report.
    pub open spec fn noop(self) -> bool {
        &&& self.classifications_updated.len() == 0
        &&& self.identity_updated.len() == 0
        &&& self.session_policy_updated.len() == 0
        &&& self.redialed.len() == 0
        &&& self.redial_failed.len() == 0
        &&& self.resource_shape_restart_required.len() == 0
        &&& self.added.len() == 0
        &&& self.removed.len() == 0
    }

    pub fn is_noop(&self) -> (b: bool)
        ensures
            b == self.noop(),
    {
        self.classifications_updated.is_empty() && self.identity_updated.is_empty()
            && self.session_policy_updated.is_empty() && self.redialed.is_empty()
            && self.redial_failed.is_empty() && self.resource_shape_restart_required.is_empty()
            && self.added.is_empty() && self.removed.is_empty()
    }

    /// Whether something changed that cannot be applied live: a shape whose
    /// every dial failed, or a set refused as a whole.
    pub fn requires_restart(&self) -> (b: bool)
        ensures
            b == (self.redial_failed.len() > 0 || self.resource_shape_restart_required.len() > 0),
    {
        !self.redial_failed.is_empty() || !self.resource_shape_restart_required.is_empty()
    }

    /// Put every list in order.
    pub fn sort(&mut self)
        ensures
            sorted_form(old(self).classifications_updated.deep_view(), final(self).classifications_updated.deep_view()),
            sorted_form(old(self).identity_updated.deep_view(), final(self).identity_updated.deep_view()),
            sorted_form(old(self).session_policy_updated.deep_view(), final(self).session_policy_updated.deep_view()),
            sorted_form(old(self).redialed.deep_view(), final(self).redialed.deep_view()),
            sorted_form(old(self).redial_failed.deep_view(), final(self).redial_failed.deep_view()),
            sorted_form(old(self).resource_shape_restart_required.deep_view(), final(self).resource_shape_restart_required.deep_view()),
            sorted_form(old(self).added.deep_view(), final(self).added.deep_view()),
            sorted_form(old(self).removed.deep_view(), final(self).removed.deep_view()),
            final(self).catalog_generation == old(self).catalog_generation,
            final(self).superseded == old(self).superseded,
    {
        self.classifications_updated = sort_names(&self.classifications_updated);
        self.identity_updated = sort_names(&self.identity_updated);
        self.session_policy_updated = sort_names(&self.session_policy_updated);
        self.redialed = sort_names(&self.redialed);
        self.redial_failed = sort_names(&self.redial_failed);
        self.resource_shape_restart_required = sort_names(&self.resource_shape_restart_required);
        self.added = sort_names(&self.added);
        self.removed = sort_names(&self.removed);
    }
}

/// The second list is the first one in order.
pub open spec fn sorted_form(before: Seq<Seq<char>>, after: Seq<Seq<char>>) -> bool {
    &&& sorted(after)
    &&& after.to_multiset() == before.to_multiset()
}

/// How the shape part of an edit is applied.
#[derive(Clone, Copy, Debug, PartialEq, Eq, Structural)]
pub enum ShapeAction {
    /// The connections stay.
    Keep,
    /// The lanes are re-dialed in place.
    Redial,
    /// The number of lanes changes, so a fresh entry replaces this one.
    Rebuild,
}

/// The shape part of an edit.
pub open spec fn shape_action(before: Manifest, after: Manifest) -> ShapeAction {
    if before.shape() == after.shape() {
        ShapeAction::Keep
    } else if lanes_stay(before, after) {
        ShapeAction::Redial
    } else {
        ShapeAction::Rebuild
    }
}

/// The classification of tools changes.
pub open spec fn reclassifies(before: Manifest, after: Manifest) -> bool {
    before.tools != after.tools || before.classification_mode != after.classification_mode
        || before.approval_mode != after.approval_mode
}

/// The identity posture changes.
pub open spec fn changes_identity(before: Manifest, after: Manifest) -> bool {
    before.exchange != after.exchange || before.tier_a_required != after.tier_a_required
        || before.tier_c_peer != after.tier_c_peer
}

/// The manifest once an edit has been applied in place. Classifications advance
/// whatever becomes of the connections, because the governed catalog advances
/// with them. Everything coupled to the connections waits for them to be
/// replaced, so that old credentials never serve under a new posture.
pub open spec fn updated_in_place(before: Manifest, after: Manifest) -> Manifest {
    let classified = Manifest {
        tools: after.tools,
        classification_mode: after.classification_mode,
        approval_mode: after.approval_mode,
        ..before
    };
    if before.shape() == after.shape() {
        Manifest {
            resources: after.resources,
            session: after.session,
            exchange: after.exchange,
            tier_a_required: after.tier_a_required,
            tier_c_peer: after.tier_c_peer,
            ..classified
        }
    } else {
        classified
    }
}

/// What updating an entry in place found.
#[derive(Debug, PartialEq, Eq)]
pub struct InPlaceUpdate {
    /// A newer reload has been here; nothing was changed.
    pub stale: bool,
    pub action: ShapeAction,
    /// The manifest the shape transition starts from.
    pub from_shape: Option<UpstreamManifest>,
    pub tools_changed: bool,
    pub resources_changed: bool,
    pub identity_changed: bool,
    pub retry_policy_changed: bool,
    /// Tools to fence until the catalog has caught up.
    pub fenced: Vec<String>,
    /// The inventory to publish under the new classifications.
    pub publication: Option<Publication>,
}

/// What updating an entry in place changes and reports.
pub open spec fn updates_in_place(
    entry: UpstreamEntry,
    updated: UpstreamEntry,
    after: Manifest,
    generation: u64,
    r: InPlaceUpdate,
) -> bool {
    let before = entry.manifest.deep_view();
    &&& updated.lanes == entry.lanes
    &&& updated.id == entry.id
    &&& updated.forwards_identity == entry.forwards_identity
    &&& updated.breaker == entry.breaker
    &&& updated.recovery == entry.recovery
    &&& updated.reconnect == entry.reconnect
    &&& updated.removed == entry.removed
    &&& updated.observed_schemas == entry.observed_schemas
    &&& updated.quarantined == entry.quarantined
    &&& r.stale == (generation < entry.last_reload_gen)
    &&& r.stale ==> {
        &&& updated == entry
        &&& r.action == ShapeAction::Keep
        &&& !r.tools_changed && !r.resources_changed && !r.identity_changed
            && !r.retry_policy_changed
        &&& r.from_shape is None && r.publication is None && r.fenced.len() == 0
    }
    &&& !r.stale ==> {
        &&& updated.last_reload_gen == generation
        &&& updated.manifest.deep_view() == updated_in_place(before, after)
        &&& r.action == shape_action(before, after)
        &&& r.tools_changed == reclassifies(before, after)
        &&& r.resources_changed == (before.resources != after.resources)
        &&& r.identity_changed == changes_identity(before, after)
        &&& r.retry_policy_changed == (before.setup_retry() != after.setup_retry())
        &&& (r.action == ShapeAction::Redial) == (r.from_shape is Some)
        &&& r.from_shape is Some ==> r.from_shape->0.deep_view() == before
        &&& r.fenced.deep_view() == if r.tools_changed {
            changed_tool_names(before, after)
        } else {
            Seq::empty()
        }
        &&& r.publication is Some <==> r.tools_changed && some_connected(entry.lanes.deep_view())
        &&& r.publication is Some ==> reclassified_publication(
            entry.lanes.deep_view(),
            after,
            r.publication->0,
        )
    }
}

/// Apply the part of an edit that needs no new connection. An edit older than
/// the entry's newest update changes nothing.
#[verifier::rlimit(60)]
pub fn update_in_place(entry: &mut UpstreamEntry, new: &UpstreamManifest, generation: u64) -> (r:
    InPlaceUpdate)
    requires
        old(entry).wf(),
    ensures
        final(entry).wf(),
        updates_in_place(*old(entry), *final(entry), new.deep_view(), generation, r),
{
    if generation < entry.last_reload_gen {
        return InPlaceUpdate {
            stale: true,
            action: ShapeAction::Keep,
            from_shape: None,
            tools_changed: false,
            resources_changed: false,
            identity_changed: false,
            retry_policy_changed: false,
            fenced: Vec::new(),
            publication: None,
        };
    }
    let ghost before = entry.manifest.deep_view();
    entry.last_reload_gen = generation;
    let shape_kept = connection_shape_eq(&entry.manifest, new);
    let action = if shape_kept {
        ShapeAction::Keep
    } else if slot_count_stable(&entry.manifest, new) {
        ShapeAction::Redial
    } else {
        ShapeAction::Rebuild
    };
    let from_shape = if action == ShapeAction::Redial {
        Some(entry.manifest.dup())
    } else {
        None
    };
    let tools_changed = !entry.manifest.tools.same(&new.tools)
        || entry.manifest.classification_mode != new.classification_mode
        || entry.manifest.approval_mode != new.approval_mode;
    let resources_changed = !entry.manifest.resources.same(&new.resources);
    let identity_changed = !entry.manifest.exchange.same(&new.exchange)
        || entry.manifest.tier_a_required != new.tier_a_required
        || !entry.manifest.tier_c_peer.same(&new.tier_c_peer);
    let retry_policy_changed = !setup_retry_policy_eq(&entry.manifest, new);
    let mut fenced: Vec<String> = Vec::new();
    proof {
        assert(fenced.deep_view() =~= Seq::<Seq<char>>::empty());
    }
    let mut publication: Option<Publication> = None;
    if tools_changed {
        fenced = changed_classified_tools(&entry.manifest, new);
        entry.manifest.tools = new.tools.dup();
        entry.manifest.classification_mode = new.classification_mode;
        entry.manifest.approval_mode = new.approval_mode;
        publication = prepare_reclassification(&entry.lanes, new);
    }
    if shape_kept {
        if resources_changed {
            entry.manifest.resources = new.resources.dup();
        }
        entry.manifest.session = new.session.dup();
        entry.manifest.exchange = new.exchange.dup();
        entry.manifest.tier_a_required = new.tier_a_required;
        entry.manifest.tier_c_peer = new.tier_c_peer;
    }
    proof {
        assert(entry.manifest.deep_view() =~= updated_in_place(before, new.deep_view()));
    }
    InPlaceUpdate {
        stale: false,
        action,
        from_shape,
        tools_changed,
        resources_changed,
        identity_changed,
        retry_policy_changed,
        fenced,
        publication,
    }
}

/// The inventory that connected lanes share, admitted by a manifest.
pub open spec fn reclassified_publication(
    lanes: Lanes,
    manifest: Manifest,
    publication: Publication,
) -> bool {
    &&& publication.publish_index < lanes.len()
    &&& lanes[publication.publish_index as int] is Some
    &&& forall|k: int| 0 <= k < publication.publish_index ==> (#[trigger] lanes[k]) is None
    &&& publication.common_live_tools.deep_view() == common_catalog(
        live_catalogs(lanes),
        manifest.classification_mode,
    )
    &&& publication.published.deep_view() == published_subset(
        manifest.tools,
        manifest.classification_mode,
        publication.common_live_tools.deep_view(),
    )
    &&& publication.previous_tools.deep_view() == published_now(lanes)
}

/// What connected lanes publish under a manifest, if any lane is connected.
pub fn prepare_reclassification(lanes: &Vec<Option<Connection>>, new: &UpstreamManifest) -> (r: Option<
    Publication,
>)
    ensures
        r is Some <==> some_connected(lanes.deep_view()),
        r is Some ==> reclassified_publication(lanes.deep_view(), new.deep_view(), r->0),
{
    proof {
        crate::lane::lemma_first_connected(lanes.deep_view());
    }
    let publish_index: usize = match find_connected(lanes) {
        Some(k) => k,
        None => return None,
    };
    let catalogs = collect_live_catalogs(lanes);
    let common_live_tools = common_tool_catalog(&catalogs, new.classification_mode);
    let (published, _, _) = partition_live_tools(
        &new.tools,
        new.classification_mode,
        &common_live_tools,
    );
    Some(
        Publication {
            publish_index,
            common_live_tools,
            published,
            previous_tools: collect_published(lanes),
        },
    )
}

/// Let the next connected lane stand for the inventory that the search index did
/// not take. Returns whether there is one.
pub fn publish_from_next_lane(
    publication: &mut Publication,
    lanes: &Vec<Option<Connection>>,
) -> (b: bool)
    requires
        old(publication).publish_index < lanes.len(),
    ensures
        *final(publication) == (Publication {
            publish_index: final(publication).publish_index,
            ..*old(publication)
        }),
        b ==> {
            &&& old(publication).publish_index < final(publication).publish_index < lanes.len()
            &&& lanes@[final(publication).publish_index as int] is Some
            &&& forall|k: int|
                old(publication).publish_index < k < final(publication).publish_index ==> (
                #[trigger] lanes@[k]) is None
        },
        !b ==> {
            &&& final(publication).publish_index == old(publication).publish_index
            &&& forall|k: int|
                old(publication).publish_index < k < lanes.len() ==> (#[trigger] lanes@[k]) is None
        },
{
    let from: usize = publication.publish_index;
    let mut k: usize = from + 1;
    while k < lanes.len()
        invariant
            from < k <= lanes.len(),
            from == old(publication).publish_index,
            *publication == *old(publication),
            forall|j: int| from < j < k ==> (#[trigger] lanes@[j]) is None,
        decreases lanes.len() - k,
    {
        if lanes[k].is_some() {
            publication.publish_index = k;
            return true;
        }
        k = k + 1;
    }
    false
}

/// Install a reclassified inventory on every lane once the search index took it.
pub fn commit_reclassification(
    entry: &mut UpstreamEntry,
    publication: &Publication,
    threshold: QuarantineThreshold,
) -> (drift: Vec<DriftReport>)
    requires
        old(entry).wf(),
        publication.publish_index < old(entry).lanes.len(),
        old(entry).lanes@[publication.publish_index as int] is Some,
    ensures
        final(entry).wf(),
        final(entry).lanes.len() == old(entry).lanes.len(),
        forall|k: int|
            0 <= k < final(entry).lanes.len() ==> (#[trigger] final(entry).lanes.deep_view()[k])
                == with_published(
                old(entry).lanes.deep_view()[k],
                publication.published.deep_view(),
            ),
        lanes_agree(final(entry).lanes.deep_view()),
        observed_drift(
            *old(entry),
            *final(entry),
            old(entry).lanes@[publication.publish_index as int]->0.live_tools.deep_view(),
            threshold,
            drift.deep_view(),
        ),
        final(entry).manifest == old(entry).manifest,
        final(entry).reconnect == old(entry).reconnect,
        final(entry).recovery == old(entry).recovery,
        final(entry).id == old(entry).id,
        final(entry).removed == old(entry).removed,
        final(entry).forwards_identity == old(entry).forwards_identity,
        final(entry).breaker == old(entry).breaker,
        final(entry).last_reload_gen == old(entry).last_reload_gen,
{
    let mut lanes: Vec<Option<Connection>> = Vec::new();
    lanes.push(None);
    std::mem::swap(&mut entry.lanes, &mut lanes);
    let drift = observe_session(entry, &lanes, publication.publish_index, threshold);
    synchronize_published_catalogs(&mut lanes, &publication.published);
    entry.lanes = lanes;
    drift
}

/// Whether updating an upstream in place counts as a change of classification
/// right away: its tools were reclassified, or its resource claims moved on
/// connections that stay.
pub open spec fn reports_classification(update: InPlaceUpdate) -> bool {
    update.tools_changed || (update.resources_changed && update.action == ShapeAction::Keep)
}

impl ReloadReport {
    /// The lists that an update in place does not touch are as before.
    pub open spec fn same_commit_lists(self, other: Self) -> bool {
        &&& self.redialed == other.redialed
        &&& self.redial_failed == other.redial_failed
        &&& self.resource_shape_restart_required == other.resource_shape_restart_required
        &&& self.added == other.added
        &&& self.removed == other.removed
        &&& self.superseded == other.superseded
        &&& self.catalog_generation == other.catalog_generation
    }

    /// The report once an update in place is noted.
    pub open spec fn notes_in_place(self, after: Self, name: Seq<char>, update: InPlaceUpdate) -> bool {
        &&& after.same_commit_lists(self)
        &&& after.classifications_updated.deep_view() == if reports_classification(update) {
            self.classifications_updated.deep_view().push(name)
        } else {
            self.classifications_updated.deep_view()
        }
        &&& after.session_policy_updated.deep_view() == if update.action == ShapeAction::Keep
            && update.retry_policy_changed {
            self.session_policy_updated.deep_view().push(name)
        } else {
            self.session_policy_updated.deep_view()
        }
        &&& after.identity_updated.deep_view() == if update.action == ShapeAction::Keep
            && update.identity_changed {
            self.identity_updated.deep_view().push(name)
        } else {
            self.identity_updated.deep_view()
        }
    }

    /// Note what was applied in place.
    pub fn note_in_place(&mut self, name: &String, update: &InPlaceUpdate)
        ensures
            old(self).notes_in_place(*final(self), name@, *update),
    {
        if update.tools_changed || (update.resources_changed && update.action == ShapeAction::Keep) {
            push_name(&mut self.classifications_updated, name);
        }
        if update.action == ShapeAction::Keep {
            if update.retry_policy_changed {
                push_name(&mut self.session_policy_updated, name);
            }
            if update.identity_changed {
                push_name(&mut self.identity_updated, name);
            }
        }
    }

    /// Note how a re-dial ended. What was deferred to it is reported only once
    /// it has landed; a superseded or tombstoned one is reported by its winner.
    pub fn note_redial(&mut self, name: &String, outcome: RedialOutcome, update: &InPlaceUpdate)
        ensures
            final(self).redialed.deep_view() == if outcome == RedialOutcome::Redialed {
                old(self).redialed.deep_view().push(name@)
            } else {
                old(self).redialed.deep_view()
            },
            final(self).classifications_updated.deep_view() == if outcome == RedialOutcome::Redialed
                && update.resources_changed && !update.tools_changed {
                old(self).classifications_updated.deep_view().push(name@)
            } else {
                old(self).classifications_updated.deep_view()
            },
            final(self).identity_updated.deep_view() == if outcome == RedialOutcome::Redialed
                && update.identity_changed {
                old(self).identity_updated.deep_view().push(name@)
            } else {
                old(self).identity_updated.deep_view()
            },
            final(self).redial_failed.deep_view() == if outcome == RedialOutcome::Failed {
                old(self).redial_failed.deep_view().push(name@)
            } else {
                old(self).redial_failed.deep_view()
            },
            final(self).session_policy_updated == old(self).session_policy_updated,
            final(self).resource_shape_restart_required == old(
                self,
            ).resource_shape_restart_required,
            final(self).added == old(self).added,
            final(self).removed == old(self).removed,
            final(self).superseded == old(self).superseded,
            final(self).catalog_generation == old(self).catalog_generation,
    {
        match outcome {
            RedialOutcome::Redialed => {
                if update.resources_changed && !update.tools_changed {
                    push_name(&mut self.classifications_updated, name);
                }
                push_name(&mut self.redialed, name);
                if update.identity_changed {
                    push_name(&mut self.identity_updated, name);
                }
            },
            RedialOutcome::Failed => {
                push_name(&mut self.redial_failed, name);
            },
            RedialOutcome::Tombstoned | RedialOutcome::Superseded => {},
        }
    }

    /// Note how a rebuild ended: one connected lane is enough to replace the
    /// old entry, and without any the old entry keeps serving.
    pub fn note_rebuild(&mut self, name: &String, connected: bool, update: &InPlaceUpdate)
        ensures
            final(self).redialed.deep_view() == if connected {
                old(self).redialed.deep_view().push(name@)
            } else {
                old(self).redialed.deep_view()
            },
            final(self).redial_failed.deep_view() == if connected {
                old(self).redial_failed.deep_view()
            } else {
                old(self).redial_failed.deep_view().push(name@)
            },
            final(self).classifications_updated.deep_view() == if connected
                && update.resources_changed && !update.tools_changed {
                old(self).classifications_updated.deep_view().push(name@)
            } else {
                old(self).classifications_updated.deep_view()
            },
            final(self).identity_updated == old(self).identity_updated,
            final(self).session_policy_updated == old(self).session_policy_updated,
            final(self).resource_shape_restart_required == old(
                self,
            ).resource_shape_restart_required,
            final(self).added == old(self).added,
            final(self).removed == old(self).removed,
            final(self).superseded == old(self).superseded,
            final(self).catalog_generation == old(self).catalog_generation,
    {
        if connected {
            if update.resources_changed && !update.tools_changed {
                push_name(&mut self.classifications_updated, name);
            }
            push_name(&mut self.redialed, name);
        } else {
            push_name(&mut self.redial_failed, name);
        }
    }
}

fn push_name(list: &mut Vec<String>, name: &String)
    ensures
        final(list).deep_view() == old(list).deep_view().push(name@),
{
    let ghost before = list.deep_view();
    list.push(name.clone());
    proof {
        assert(list.deep_view() =~= before.push(name@));
    }
}

/// The manifests a registry serves.
pub type Registry = Map<Seq<char>, UpstreamEntry>;

/// The manifests a reload asks for.
pub type ManifestSet = Map<Seq<char>, UpstreamManifest>;

/// An existing upstream would change shape and resource ownership together.
pub open spec fn couples_shape_and_resources(
    current: Registry,
    fresh: ManifestSet,
    name: Seq<char>,
) -> bool {
    &&& current.contains_key(name)
    &&& fresh.contains_key(name)
    &&& !current[name].removed
    &&& current[name].manifest.deep_view().resources != fresh[name].deep_view().resources
    &&& current[name].manifest.deep_view().shape() != fresh[name].deep_view().shape()
}

/// The upstreams for whose sake the whole set has to be refused.
pub fn restart_required(current: &Assoc<UpstreamEntry>, fresh: &Assoc<UpstreamManifest>) -> (r: Vec<
    String,
>)
    ensures
        lists_exactly(
            r.deep_view(),
            Set::new(|name: Seq<char>| couples_shape_and_resources(current@, fresh@, name)),
        ),
{
    let names = current.keys();
    let mut out: Vec<String> = Vec::new();
    let mut i: usize = 0;
    while i < names.len()
        invariant
            i <= names.len(),
            strictly_sorted(out.deep_view()),
            forall|name: Seq<char>| #[trigger]
                out.deep_view().contains(name) <==> couples_shape_and_resources(
                    current@,
                    fresh@,
                    name,
                ) && names.deep_view().take(i as int).contains(name),
        decreases names.len() - i,
    {
        proof {
            lemma_take_contains(names.deep_view(), i as int);
        }
        if let Some(entry) = current.get(names[i].as_str()) {
            if !entry.removed {
                if let Some(manifest) = fresh.get(names[i].as_str()) {
                    if resource_shape_change_requires_restart(&entry.manifest, manifest) {
                        insert_unique(&mut out, &names[i]);
                    }
                }
            }
        }
        i = i + 1;
    }
    proof {
        assert(names.deep_view().take(names.len() as int) =~= names.deep_view());
        assert forall|name: Seq<char>| current@.contains_key(name) implies names.deep_view().contains(
            name,
        ) by {
            assert(names.deep_view().to_set().contains(name));
        }
    }
    out
}

/// The resource claims an entry routes.
pub open spec fn routed_claims(entry: UpstreamEntry) -> Seq<crate::manifest::Claim> {
    if entry.removed {
        Seq::empty()
    } else {
        entry.manifest.deep_view().resources
    }
}

/// Whether resource routing changes at one upstream: its claims are others, or
/// whether it may serve resources at all is another answer.
pub open spec fn routing_changes_at(current: Registry, fresh: ManifestSet, name: Seq<char>) -> bool {
    if current.contains_key(name) {
        let entry = current[name];
        if fresh.contains_key(name) {
            let manifest = fresh[name].deep_view();
            routed_claims(entry) != manifest.resources || (!entry.removed
                && entry.manifest.deep_view().serves_resources() != manifest.serves_resources())
        } else {
            routed_claims(entry).len() > 0
        }
    } else {
        fresh.contains_key(name) && fresh[name].deep_view().resources.len() > 0
    }
}

pub open spec fn routing_changes(current: Registry, fresh: ManifestSet) -> bool {
    exists|name: Seq<char>| #[trigger] routing_changes_at(current, fresh, name)
}

fn routing_changed_at(
    current: &Assoc<UpstreamEntry>,
    fresh: &Assoc<UpstreamManifest>,
    name: &String,
) -> (b: bool)
    ensures
        b == routing_changes_at(current@, fresh@, name@),
{
    match (current.get(name.as_str()), fresh.get(name.as_str())) {
        (Some(entry), Some(manifest)) => {
            proof {
                assert(manifest.resources.deep_view().len() == manifest.resources.len());
                if entry.removed {
                    assert(manifest.resources.len() == 0 ==> manifest.resources.deep_view()
                        =~= Seq::empty());
                }
            }
            if entry.removed {
                manifest.resources.len() > 0
            } else {
                !entry.manifest.resources.same(&manifest.resources)
                    || manifest_supports_resource_operations(&entry.manifest)
                    != manifest_supports_resource_operations(manifest)
            }
        },
        (Some(entry), None) => {
            proof {
                assert(entry.manifest.resources.deep_view().len() == entry.manifest.resources.len());
            }
            !entry.removed && entry.manifest.resources.len() > 0
        },
        (None, Some(manifest)) => {
            proof {
                assert(manifest.resources.deep_view().len() == manifest.resources.len());
            }
            manifest.resources.len() > 0
        },
        (None, None) => false,
    }
}

/// Whether a reload changes declared ownership, or whether an existing server
/// may take part in native resource operations.
pub fn resource_routing_changed(current: &Assoc<UpstreamEntry>, fresh: &Assoc<UpstreamManifest>) -> (b:
    bool)
    ensures
        b == routing_changes(current@, fresh@),
{
    let names = current.keys();
    let mut i: usize = 0;
    while i < names.len()
        invariant
            i <= names.len(),
            forall|j: int|
                0 <= j < i ==> !routing_changes_at(current@, fresh@, #[trigger] names.deep_view()[j]),
        decreases names.len() - i,
    {
        if routing_changed_at(current, fresh, &names[i]) {
            return true;
        }
        i = i + 1;
    }
    let wanted = fresh.keys();
    let mut k: usize = 0;
    while k < wanted.len()
        invariant
            k <= wanted.len(),
            forall|j: int|
                0 <= j < k ==> !routing_changes_at(
                    current@,
                    fresh@,
                    #[trigger] wanted.deep_view()[j],
                ),
        decreases wanted.len() - k,
    {
        if routing_changed_at(current, fresh, &wanted[k]) {
            return true;
        }
        k = k + 1;
    }
    proof {
        assert forall|name: Seq<char>| !#[trigger] routing_changes_at(current@, fresh@, name) by {
            if current@.contains_key(name) {
                assert(names.deep_view().to_set().contains(name));
                let j = choose|j: int| 0 <= j < names.len() && names.deep_view()[j] == name;
                assert(!routing_changes_at(current@, fresh@, names.deep_view()[j]));
            } else if fresh@.contains_key(name) {
                assert(wanted.deep_view().to_set().contains(name));
                let j = choose|j: int| 0 <= j < wanted.len() && wanted.deep_view()[j] == name;
                assert(!routing_changes_at(current@, fresh@, wanted.deep_view()[j]));
            }
        }
    }
    false
}

/// An upstream serves now and is not asked for, or is asked for and does not
/// serve now.
pub open spec fn topology_changes_at(current: Registry, fresh: ManifestSet, name: Seq<char>) -> bool {
    (current.contains_key(name) && !current[name].removed) != fresh.contains_key(name)
}

/// Whether a reload adds or removes an upstream.
pub fn resource_topology_changed(current: &Assoc<UpstreamEntry>, fresh: &Assoc<UpstreamManifest>) -> (b:
    bool)
    ensures
        b == exists|name: Seq<char>| #[trigger] topology_changes_at(current@, fresh@, name),
{
    let names = current.keys();
    let mut i: usize = 0;
    while i < names.len()
        invariant
            i <= names.len(),
            forall|j: int|
                0 <= j < i ==> !topology_changes_at(
                    current@,
                    fresh@,
                    #[trigger] names.deep_view()[j],
                ),
        decreases names.len() - i,
    {
        let serves = match current.get(names[i].as_str()) {
            Some(entry) => !entry.removed,
            None => false,
        };
        if serves != fresh.contains_key(names[i].as_str()) {
            proof {
                assert(topology_changes_at(current@, fresh@, names@[i as int]@));
            }
            return true;
        }
        i = i + 1;
    }
    let wanted = fresh.keys();
    let mut k: usize = 0;
    while k < wanted.len()
        invariant
            k <= wanted.len(),
            forall|j: int|
                0 <= j < k ==> !topology_changes_at(
                    current@,
                    fresh@,
                    #[trigger] wanted.deep_view()[j],
                ),
        decreases wanted.len() - k,
    {
        let serves = match current.get(wanted[k].as_str()) {
            Some(entry) => !entry.removed,
            None => false,
        };
        if serves != fresh.contains_key(wanted[k].as_str()) {
            proof {
                assert(topology_changes_at(current@, fresh@, wanted@[k as int]@));
            }
            return true;
        }
        k = k + 1;
    }
    proof {
        assert forall|name: Seq<char>| !#[trigger] topology_changes_at(current@, fresh@, name) by {
            if current@.contains_key(name) {
                assert(names.deep_view().to_set().contains(name));
                let j = choose|j: int| 0 <= j < names.len() && names.deep_view()[j] == name;
                assert(!topology_changes_at(current@, fresh@, names.deep_view()[j]));
            } else if fresh@.contains_key(name) {
                assert(wanted.deep_view().to_set().contains(name));
                let j = choose|j: int| 0 <= j < wanted.len() && wanted.deep_view()[j] == name;
                assert(!topology_changes_at(current@, fresh@, wanted.deep_view()[j]));
            }
        }
    }
    false
}

/// The entry a committed reload publishes under a name: the one it built, unless
/// a newer reload has meanwhile updated the live one in place; else the live one.
pub open spec fn next_entry(
    live: Registry,
    built: Registry,
    fresh: ManifestSet,
    generation: u64,
    name: Seq<char>,
) -> Option<UpstreamEntry> {
    if !fresh.contains_key(name) {
        None
    } else if built.contains_key(name) && !outdated(live, generation, name) {
        Some(built[name])
    } else if live.contains_key(name) {
        Some(live[name])
    } else {
        None
    }
}

/// A reload newer than this generation has updated the live entry in place.
pub open spec fn outdated(live: Registry, generation: u64, name: Seq<char>) -> bool {
    live.contains_key(name) && live[name].last_reload_gen > generation
}

/// The registry has no live entry of this name.
pub open spec fn absent(live: Registry, name: Seq<char>) -> bool {
    !live.contains_key(name) || live[name].removed
}

/// The upstream is newly published by the commit.
pub open spec fn is_added(
    live: Registry,
    built: Registry,
    fresh: ManifestSet,
    generation: u64,
    name: Seq<char>,
) -> bool {
    next_entry(live, built, fresh, generation, name) is Some && absent(live, name)
}

/// The upstream leaves the registry by the commit.
pub open spec fn is_dropped(live: Registry, fresh: ManifestSet, name: Seq<char>) -> bool {
    live.contains_key(name) && !fresh.contains_key(name)
}

/// The live entry of this name is not the one published by the commit.
pub open spec fn is_retired(
    live: Registry,
    built: Registry,
    fresh: ManifestSet,
    generation: u64,
    name: Seq<char>,
) -> bool {
    live.contains_key(name) && (!fresh.contains_key(name) || (built.contains_key(name) && !outdated(
        live,
        generation,
        name,
    )))
}

/// The entry as it leaves the registry: tombstoned where its upstream is dropped,
/// and otherwise as it is, to serve out its calls.
pub open spec fn departed(
    live: Registry,
    fresh: ManifestSet,
    name: Seq<char>,
    now: Instant,
    wall: WallTime,
) -> UpstreamEntry {
    if fresh.contains_key(name) {
        live[name]
    } else {
        live[name].retired_at(now, wall)
    }
}

/// The commit cannot bring about the asked-for set at this name: a concurrent
/// reload removed what this one did not build, or has updated what it did.
pub open spec fn falls_short(
    live: Registry,
    built: Registry,
    fresh: ManifestSet,
    generation: u64,
    name: Seq<char>,
) -> bool {
    &&& fresh.contains_key(name)
    &&& (!built.contains_key(name) && absent(live, name)) || (built.contains_key(name) && outdated(
        live,
        generation,
        name,
    ))
}

/// The tools that clients are shown under a name change by the commit.
pub open spec fn shows_other_tools(
    live: Registry,
    built: Registry,
    fresh: ManifestSet,
    generation: u64,
    local_quarantine_authoritative: bool,
    name: Seq<char>,
) -> bool {
    &&& built.contains_key(name)
    &&& next_entry(live, built, fresh, generation, name) is Some
    &&& absent(live, name) || (live[name].id != next_entry(
        live,
        built,
        fresh,
        generation,
        name,
    )->0.id && descriptors_by_name(
        visible_tools(
            live[name].lanes.deep_view(),
            live[name].quarantined.deep_view(),
            local_quarantine_authoritative,
        ),
    ) != descriptors_by_name(
        visible_tools(
            next_entry(live, built, fresh, generation, name)->0.lanes.deep_view(),
            next_entry(live, built, fresh, generation, name)->0.quarantined.deep_view(),
            local_quarantine_authoritative,
        ),
    ))
}

/// What a structural commit would do.
#[derive(Debug, PartialEq, Eq)]
pub struct CommitPlan {
    pub added: Vec<String>,
    pub dropped: Vec<String>,
    /// The registry has to be exchanged at all.
    pub structural: bool,
    /// Clients have to be told, and the search index rebuilt.
    pub catalog_changed: bool,
    /// The asked-for set is not the one that would be live.
    pub superseded: bool,
}

fn choice_is_built(
    live: &Assoc<UpstreamEntry>,
    built: &Assoc<UpstreamEntry>,
    generation: u64,
    name: &String,
) -> (b: bool)
    ensures
        b == (built@.contains_key(name@) && !outdated(live@, generation, name@)),
{
    if !built.contains_key(name.as_str()) {
        return false;
    }
    match live.get(name.as_str()) {
        Some(entry) => entry.last_reload_gen <= generation,
        None => true,
    }
}

/// Plan the structural commit of a reload that no newer one has overtaken.
/// Reconciling to exactly the asked-for set, rather than applying a delta, makes
/// the published registry always one reload's complete view.
pub fn plan_commit(
    live: &Assoc<UpstreamEntry>,
    built: &Assoc<UpstreamEntry>,
    fresh: &Assoc<UpstreamManifest>,
    generation: u64,
    local_quarantine_authoritative: bool,
) -> (r: CommitPlan)
    ensures
        lists_exactly(
            r.added.deep_view(),
            Set::new(|name: Seq<char>| is_added(live@, built@, fresh@, generation, name)),
        ),
        lists_exactly(
            r.dropped.deep_view(),
            Set::new(|name: Seq<char>| is_dropped(live@, fresh@, name)),
        ),
        r.structural == (built@.len() > 0 || exists|name: Seq<char>| #[trigger]
            is_dropped(live@, fresh@, name)),
        r.superseded == exists|name: Seq<char>| #[trigger]
            falls_short(live@, built@, fresh@, generation, name),
        r.catalog_changed == ((exists|name: Seq<char>| #[trigger]
            is_dropped(live@, fresh@, name)) || (exists|name: Seq<char>| #[trigger]
            shows_other_tools(
                live@,
                built@,
                fresh@,
                generation,
                local_quarantine_authoritative,
                name,
            ))),
{
    let mut dropped: Vec<String> = Vec::new();
    let names = live.keys();
    let mut i: usize = 0;
    while i < names.len()
        invariant
            i <= names.len(),
            strictly_sorted(dropped.deep_view()),
            forall|name: Seq<char>| #[trigger]
                dropped.deep_view().contains(name) <==> names.deep_view().take(i as int).contains(
                    name,
                ) && !fresh@.contains_key(name),
        decreases names.len() - i,
    {
        proof {
            lemma_take_contains(names.deep_view(), i as int);
        }
        if !fresh.contains_key(names[i].as_str()) {
            insert_unique(&mut dropped, &names[i]);
        }
        i = i + 1;
    }
    proof {
        assert(names.deep_view().take(names.len() as int) =~= names.deep_view());
        assert forall|name: Seq<char>| #[trigger]
            dropped.deep_view().contains(name) <==> is_dropped(live@, fresh@, name) by {
            assert(names.deep_view().to_set().contains(name) <==> live@.contains_key(name));
        }
    }
    let mut added: Vec<String> = Vec::new();
    let mut superseded = false;
    let mut catalog_changed = dropped.len() > 0;
    let wanted = fresh.keys();
    let mut k: usize = 0;
    proof {
        if dropped.len() > 0 {
            assert(dropped.deep_view().contains(dropped.deep_view()[0]));
        }
        if exists|name: Seq<char>| #[trigger] is_dropped(live@, fresh@, name) {
            let name = choose|name: Seq<char>| #[trigger] is_dropped(live@, fresh@, name);
            assert(dropped.deep_view().contains(name));
        }
    }
    let any_dropped = dropped.len() > 0;
    while k < wanted.len()
        invariant
            k <= wanted.len(),
            forall|name: Seq<char>| #[trigger]
                wanted.deep_view().to_set().contains(name) <==> fresh@.contains_key(name),
            any_dropped == exists|name: Seq<char>| #[trigger] is_dropped(live@, fresh@, name),
            strictly_sorted(added.deep_view()),
            forall|name: Seq<char>| #[trigger]
                added.deep_view().contains(name) <==> wanted.deep_view().take(k as int).contains(
                    name,
                ) && is_added(live@, built@, fresh@, generation, name),
            superseded <==> exists|j: int|
                0 <= j < k && falls_short(
                    live@,
                    built@,
                    fresh@,
                    generation,
                    #[trigger] wanted.deep_view()[j],
                ),
            catalog_changed <==> any_dropped || exists|j: int|
                0 <= j < k && shows_other_tools(
                    live@,
                    built@,
                    fresh@,
                    generation,
                    local_quarantine_authoritative,
                    #[trigger] wanted.deep_view()[j],
                ),
        decreases wanted.len() - k,
    {
        let ghost here = wanted.deep_view()[k as int];
        proof {
            lemma_take_contains(wanted.deep_view(), k as int);
            assert(wanted.deep_view().to_set().contains(here));
            assert(fresh@.contains_key(here));
        }
        let name = &wanted[k];
        let has_built = built.contains_key(name.as_str());
        let use_built = choice_is_built(live, built, generation, name);
        let is_absent = match live.get(name.as_str()) {
            Some(entry) => entry.removed,
            None => true,
        };
        let published = use_built || live.contains_key(name.as_str());
        if published && is_absent {
            insert_unique(&mut added, name);
        }
        if (!has_built && is_absent) || (has_built && !use_built) {
            superseded = true;
            proof {
                assert(falls_short(live@, built@, fresh@, generation, wanted.deep_view()[k as int]));
            }
        }
        let other = has_built && published && (is_absent || built_shows_other_tools(
            live,
            built,
            use_built,
            local_quarantine_authoritative,
            name,
        ));
        proof {
            assert(other == shows_other_tools(
                live@,
                built@,
                fresh@,
                generation,
                local_quarantine_authoritative,
                wanted.deep_view()[k as int],
            ));
        }
        if other {
            catalog_changed = true;
        }
        k = k + 1;
    }
    proof {
        assert(wanted.deep_view().take(wanted.len() as int) =~= wanted.deep_view());
        assert forall|name: Seq<char>| fresh@.contains_key(name) implies wanted.deep_view().contains(
            name,
        ) by {
            assert(wanted.deep_view().to_set().contains(name));
        }
        assert forall|name: Seq<char>| #[trigger]
            falls_short(live@, built@, fresh@, generation, name) implies superseded by {
            assert(wanted.deep_view().contains(name));
            let j = choose|j: int| 0 <= j < wanted.len() && wanted.deep_view()[j] == name;
            assert(falls_short(live@, built@, fresh@, generation, wanted.deep_view()[j]));
        }
        assert forall|name: Seq<char>| #[trigger]
            shows_other_tools(
                live@,
                built@,
                fresh@,
                generation,
                local_quarantine_authoritative,
                name,
            ) implies catalog_changed by {
            assert(wanted.deep_view().contains(name));
            let j = choose|j: int| 0 <= j < wanted.len() && wanted.deep_view()[j] == name;
            assert(shows_other_tools(
                live@,
                built@,
                fresh@,
                generation,
                local_quarantine_authoritative,
                wanted.deep_view()[j],
            ));
        }
        if catalog_changed && !any_dropped {
            let j = choose|j: int|
                0 <= j < wanted.len() && shows_other_tools(
                    live@,
                    built@,
                    fresh@,
                    generation,
                    local_quarantine_authoritative,
                    #[trigger] wanted.deep_view()[j],
                );
        }
    }
    let built_count: usize = built.len();
    CommitPlan {
        added,
        dropped,
        structural: built_count > 0 || any_dropped,
        catalog_changed,
        superseded,
    }
}

fn built_shows_other_tools(
    live: &Assoc<UpstreamEntry>,
    built: &Assoc<UpstreamEntry>,
    use_built: bool,
    local_quarantine_authoritative: bool,
    name: &String,
) -> (b: bool)
    requires
        live@.contains_key(name@),
        built@.contains_key(name@),
    ensures
        b == (use_built && live@[name@].id != built@[name@].id && descriptors_by_name(
            visible_tools(
                live@[name@].lanes.deep_view(),
                live@[name@].quarantined.deep_view(),
                local_quarantine_authoritative,
            ),
        ) != descriptors_by_name(
            visible_tools(
                built@[name@].lanes.deep_view(),
                built@[name@].quarantined.deep_view(),
                local_quarantine_authoritative,
            ),
        )),
{
    match (live.get(name.as_str()), built.get(name.as_str())) {
        (Some(previous), Some(next)) => {
            if !use_built || previous.id == next.id {
                return false;
            }
            let before = published_tools(
                &previous.lanes,
                &previous.quarantined,
                local_quarantine_authoritative,
            );
            let after = published_tools(
                &next.lanes,
                &next.quarantined,
                local_quarantine_authoritative,
            );
            !tool_catalogs_equal(&before, &after)
        },
        _ => false,
    }
}

/// The inventory shows of an upstream what its next entry publishes.
pub open spec fn inventory_at(
    inventory: Map<Seq<char>, Vec<Tool>>,
    next: Option<UpstreamEntry>,
    local_quarantine_authoritative: bool,
    name: Seq<char>,
) -> bool {
    &&& inventory.contains_key(name) <==> next is Some
    &&& next is Some ==> inventory[name].deep_view() == visible_tools(
        next->0.lanes.deep_view(),
        next->0.quarantined.deep_view(),
        local_quarantine_authoritative,
    )
}

/// The complete inventory that a commit shows to clients, for the search index
/// to take before the registry is exchanged.
pub fn next_inventory(
    live: &Assoc<UpstreamEntry>,
    built: &Assoc<UpstreamEntry>,
    fresh: &Assoc<UpstreamManifest>,
    generation: u64,
    local_quarantine_authoritative: bool,
) -> (r: Assoc<Vec<Tool>>)
    ensures
        forall|name: Seq<char>| #[trigger]
            inventory_at(
                r@,
                next_entry(live@, built@, fresh@, generation, name),
                local_quarantine_authoritative,
                name,
            ),
{
    let names = fresh.keys();
    let mut out: Assoc<Vec<Tool>> = Assoc::new();
    let mut i: usize = 0;
    while i < names.len()
        invariant
            i <= names.len(),
            names.deep_view().no_duplicates(),
            forall|name: Seq<char>| #[trigger]
                names.deep_view().to_set().contains(name) <==> fresh@.contains_key(name),
            forall|name: Seq<char>|
                #![trigger out@.contains_key(name)]
                inventory_at(
                    out@,
                    if names.deep_view().take(i as int).contains(name) {
                        next_entry(live@, built@, fresh@, generation, name)
                    } else {
                        None
                    },
                    local_quarantine_authoritative,
                    name,
                ),
        decreases names.len() - i,
    {
        let ghost before = out@;
        proof {
            lemma_take_contains(names.deep_view(), i as int);
            lemma_not_seen(names.deep_view(), i as int);
            assert(names.deep_view().to_set().contains(names.deep_view()[i as int]));
        }
        let name = &names[i];
        let next = if choice_is_built(live, built, generation, name) {
            built.get(name.as_str())
        } else {
            live.get(name.as_str())
        };
        if let Some(entry) = next {
            let shown = published_tools(
                &entry.lanes,
                &entry.quarantined,
                local_quarantine_authoritative,
            );
            out.insert(name.clone(), shown);
        }
        i = i + 1;
        proof {
            assert forall|other: Seq<char>|
                #![trigger out@.contains_key(other)]
                inventory_at(
                    out@,
                    if names.deep_view().take(i as int).contains(other) {
                        next_entry(live@, built@, fresh@, generation, other)
                    } else {
                        None
                    },
                    local_quarantine_authoritative,
                    other,
                ) by {
                assert(before.contains_key(other) || !before.contains_key(other));
            }
        }
    }
    proof {
        assert(names.deep_view().take(names.len() as int) =~= names.deep_view());
        assert forall|name: Seq<char>| #[trigger]
            inventory_at(
                out@,
                next_entry(live@, built@, fresh@, generation, name),
                local_quarantine_authoritative,
                name,
            ) by {
            assert(names.deep_view().to_set().contains(name) <==> fresh@.contains_key(name));
            assert(out@.contains_key(name) || !out@.contains_key(name));
        }
    }
    out
}

/// Exchange the registry for the one a reload asks for. Entries that leave are
/// tombstoned; entries that are merely replaced serve out their calls. Both are
/// handed back.
pub fn apply_commit(
    entries: &mut Assoc<UpstreamEntry>,
    built: Assoc<UpstreamEntry>,
    fresh: &Assoc<UpstreamManifest>,
    generation: u64,
    now: Instant,
    wall: WallTime,
) -> (retired: Assoc<UpstreamEntry>)
    requires
        forall|name: Seq<char>| #[trigger]
            old(entries)@.contains_key(name) ==> old(entries)@[name].wf(),
    ensures
        forall|name: Seq<char>|
            #![trigger final(entries)@.contains_key(name)]
            match next_entry(old(entries)@, built@, fresh@, generation, name) {
                Some(entry) => final(entries)@.contains_pair(name, entry),
                None => !final(entries)@.contains_key(name),
            },
        forall|name: Seq<char>|
            #![trigger retired@.contains_key(name)]
            {
                &&& retired@.contains_key(name) <==> is_retired(
                    old(entries)@,
                    built@,
                    fresh@,
                    generation,
                    name,
                )
                &&& retired@.contains_key(name) ==> retired@[name] == departed(
                    old(entries)@,
                    fresh@,
                    name,
                    now,
                    wall,
                )
            },
{
    let ghost live = old(entries)@;
    let ghost made = built@;
    let mut pending = built;
    let mut next: Assoc<UpstreamEntry> = Assoc::new();
    let wanted = fresh.keys();
    let mut k: usize = 0;
    while k < wanted.len()
        invariant
            k <= wanted.len(),
            wanted.deep_view().no_duplicates(),
            forall|name: Seq<char>| #[trigger]
                wanted.deep_view().to_set().contains(name) <==> fresh@.contains_key(name),
            forall|name: Seq<char>|
                #![trigger next@.contains_key(name)]
                if wanted.deep_view().take(k as int).contains(name) {
                    match next_entry(live, made, fresh@, generation, name) {
                        Some(entry) => next@.contains_pair(name, entry),
                        None => !next@.contains_key(name),
                    }
                } else {
                    !next@.contains_key(name)
                },
            forall|name: Seq<char>|
                #![trigger entries@.contains_key(name)]
                {
                    &&& entries@.contains_key(name) <==> live.contains_key(name) && !(
                    wanted.deep_view().take(k as int).contains(name) && !(made.contains_key(name)
                        && !outdated(live, generation, name)))
                    &&& entries@.contains_key(name) ==> entries@[name] == live[name]
                },
            forall|name: Seq<char>|
                !wanted.deep_view().take(k as int).contains(name) ==> (
                #[trigger] pending@.contains_key(name) <==> made.contains_key(name)) && (
                pending@.contains_key(name) ==> pending@[name] == made[name]),
        decreases wanted.len() - k,
    {
        let ghost here = wanted.deep_view()[k as int];
        proof {
            lemma_take_contains(wanted.deep_view(), k as int);
            assert(wanted.deep_view().to_set().contains(here));
            assert(!wanted.deep_view().take(k as int).contains(here)) by {
                if wanted.deep_view().take(k as int).contains(here) {
                    let j = choose|j: int|
                        0 <= j < k && wanted.deep_view().take(k as int)[j] == here;
                    assert(wanted.deep_view()[j] == wanted.deep_view()[k as int]);
                }
            }
            assert(pending@.contains_key(here) <==> made.contains_key(here));
            assert(entries@.contains_key(here) <==> live.contains_key(here));
            assert(!next@.contains_key(here));
        }
        if choice_is_built(entries, &pending, generation, &wanted[k]) {
            if let Some(entry) = pending.remove(wanted[k].as_str()) {
                next.insert(wanted[k].clone(), entry);
            }
        } else if let Some(entry) = entries.remove(wanted[k].as_str()) {
            next.insert(wanted[k].clone(), entry);
        }
        k = k + 1;
    }
    proof {
        assert(wanted.deep_view().take(wanted.len() as int) =~= wanted.deep_view());
        assert forall|name: Seq<char>| #[trigger]
            wanted.deep_view().contains(name) <==> fresh@.contains_key(name) by {
            assert(wanted.deep_view().to_set().contains(name) <==> fresh@.contains_key(name));
        }
    }
    let ghost left = entries@;
    std::mem::swap(entries, &mut next);
    let retired = retire_dropped(next, fresh, now, wall);
    retired
}

fn retire_dropped(
    leaving: Assoc<UpstreamEntry>,
    fresh: &Assoc<UpstreamManifest>,
    now: Instant,
    wall: WallTime,
) -> (retired: Assoc<UpstreamEntry>)
    requires
        forall|name: Seq<char>| #[trigger] leaving@.contains_key(name) ==> leaving@[name].wf(),
    ensures
        forall|name: Seq<char>|
            #![trigger retired@.contains_key(name)]
            {
                &&& retired@.contains_key(name) <==> leaving@.contains_key(name)
                &&& retired@.contains_key(name) ==> retired@[name] == departed(
                    leaving@,
                    fresh@,
                    name,
                    now,
                    wall,
                )
            },
{
    let ghost start = leaving@;
    let mut retired = leaving;
    let names = retired.keys();
    let mut i: usize = 0;
    while i < names.len()
        invariant
            i <= names.len(),
            names.deep_view().no_duplicates(),
            forall|name: Seq<char>| #[trigger] start.contains_key(name) ==> start[name].wf(),
            forall|name: Seq<char>|
                #![trigger retired@.contains_key(name)]
                {
                    let seen = names.deep_view().take(i as int).contains(name);
                    &&& retired@.contains_key(name) <==> start.contains_key(name)
                    &&& retired@.contains_key(name) && !seen ==> retired@[name] == start[name]
                    &&& retired@.contains_key(name) && seen ==> retired@[name] == departed(
                        start,
                        fresh@,
                        name,
                        now,
                        wall,
                    )
                },
        decreases names.len() - i,
    {
        let ghost here = names.deep_view()[i as int];
        proof {
            lemma_take_contains(names.deep_view(), i as int);
            assert(!names.deep_view().take(i as int).contains(here)) by {
                if names.deep_view().take(i as int).contains(here) {
                    let j = choose|j: int|
                        0 <= j < i && names.deep_view().take(i as int)[j] == here;
                    assert(names.deep_view()[j] == names.deep_view()[i as int]);
                }
            }
            assert(retired@.contains_key(here) <==> start.contains_key(here));
        }
        if !fresh.contains_key(names[i].as_str()) {
            if let Some(mut entry) = retired.remove(names[i].as_str()) {
                entry.retire(now, wall);
                retired.insert(names[i].clone(), entry);
            }
        }
        i = i + 1;
    }
    proof {
        assert(names.deep_view().take(names.len() as int) =~= names.deep_view());
        assert forall|name: Seq<char>| start.contains_key(name) implies names.deep_view().contains(
            name,
        ) by {
            assert(names.deep_view().to_set().contains(name));
        }
    }
    retired
}

/// Updating in place leaves either the old connections under the old posture or
/// the same connections under the new one, never a mixture of the two.
pub proof fn update_never_mixes_postures(before: Manifest, after: Manifest)
    ensures
        updated_in_place(before, after).committed() == if before.shape() == after.shape() {
            after.committed()
        } else {
            before.committed()
        },
        before.shape() != after.shape() ==> updated_in_place(before, after).resources
            == before.resources,
        updated_in_place(before, after).tools == after.tools,
{
}

/// An update in place, and the re-dial where it asks for one, together arrive
/// at exactly the asked-for manifest.
pub proof fn update_and_redial_complete_the_edit(before: Manifest, after: Manifest)
    requires
        before.name == after.name,
    ensures
        shape_action(before, after) == ShapeAction::Keep ==> updated_in_place(before, after)
            == after,
        crate::redial::advanced(updated_in_place(before, after), after) == after,
{
}

/// A reload that falls short nowhere leaves exactly the asked-for upstreams.
pub proof fn commit_publishes_the_asked_for_set(
    live: Registry,
    built: Registry,
    fresh: ManifestSet,
    generation: u64,
)
    requires
        forall|name: Seq<char>| !#[trigger] falls_short(live, built, fresh, generation, name),
    ensures
        forall|name: Seq<char>|
            (#[trigger] next_entry(live, built, fresh, generation, name)) is Some
                <==> fresh.contains_key(name),
{
    assert forall|name: Seq<char>|
        (#[trigger] next_entry(live, built, fresh, generation, name)) is Some
            <==> fresh.contains_key(name) by {
        assert(!falls_short(live, built, fresh, generation, name));
    }
}

/// An upstream that a newer reload has updated in place is kept as it is: an
/// older reload neither updates it nor replaces it with an entry it built.
pub proof fn newer_updates_survive_older_reloads(
    live: Registry,
    built: Registry,
    fresh: ManifestSet,
    generation: u64,
    name: Seq<char>,
)
    requires
        fresh.contains_key(name),
        outdated(live, generation, name),
    ensures
        forall|updated: UpstreamEntry, asked: Manifest, update: InPlaceUpdate| #[trigger]
            updates_in_place(live[name], updated, asked, generation, update) ==> updated
                == live[name],
        next_entry(live, built, fresh, generation, name) == Some(live[name]),
        built.contains_key(name) ==> falls_short(live, built, fresh, generation, name),
{
}

/// An update in place that no newer reload forestalls takes the new
/// classifications and modes at once and says so: it reports changed tools
/// exactly where the tools, the authority or the approval mode differ from those
/// held before, and then prepares a publication wherever a lane is connected.
pub proof fn reclassifications_are_reported(
    entry: UpstreamEntry,
    updated: UpstreamEntry,
    after: Manifest,
    generation: u64,
    r: InPlaceUpdate,
)
    requires
        updates_in_place(entry, updated, after, generation, r),
        generation >= entry.last_reload_gen,
    ensures
        !r.stale,
        updated.last_reload_gen == generation,
        updated.manifest.deep_view().tools == after.tools,
        updated.manifest.deep_view().classification_mode == after.classification_mode,
        updated.manifest.deep_view().approval_mode == after.approval_mode,
        updated.manifest.deep_view().tools != entry.manifest.deep_view().tools ==> r.tools_changed,
        updated.manifest.classification_mode != entry.manifest.classification_mode
            ==> r.tools_changed,
        updated.manifest.approval_mode != entry.manifest.approval_mode ==> r.tools_changed,
        updated.manifest.deep_view().tools == entry.manifest.deep_view().tools
            && updated.manifest.classification_mode == entry.manifest.classification_mode
            && updated.manifest.approval_mode == entry.manifest.approval_mode
            ==> !r.tools_changed && r.fenced.len() == 0,
        forall|k: int|
            0 <= k < entry.lanes.len() && (#[trigger] entry.lanes.deep_view()[k]) is Some
                && r.tools_changed ==> r.publication is Some,
        (forall|k: int|
            0 <= k < entry.lanes.len() ==> (#[trigger] entry.lanes.deep_view()[k]) is None)
            || !r.tools_changed ==> r.publication is None,
{
    assert(r.fenced.len() == r.fenced.deep_view().len());
}

/// Every tool of the new manifest whose classification is not one held before is
/// fenced, and so is every tool of it where the authority or the approval mode
/// changes; nothing else of the new manifest is, and nothing outside it.
pub proof fn reclassified_tools_are_fenced(
    entry: UpstreamEntry,
    updated: UpstreamEntry,
    after: Manifest,
    generation: u64,
    r: InPlaceUpdate,
    i: int,
)
    requires
        updates_in_place(entry, updated, after, generation, r),
        generation >= entry.last_reload_gen,
        0 <= i < after.tools.len(),
    ensures
        !entry.manifest.deep_view().tools.contains(after.tools[i]) ==> r.fenced.deep_view().contains(
            after.tools[i].name,
        ),
        entry.manifest.classification_mode != after.classification_mode
            || entry.manifest.approval_mode != after.approval_mode
            ==> r.fenced.deep_view().contains(after.tools[i].name),
        entry.manifest.classification_mode == after.classification_mode
            && entry.manifest.approval_mode == after.approval_mode && (forall|k: int, j: int|
            0 <= k < after.tools.len() && 0 <= j < entry.manifest.deep_view().tools.len() && (
            #[trigger] after.tools[k]).name == after.tools[i].name && (
            #[trigger] entry.manifest.deep_view().tools[j]).name == after.tools[i].name
                ==> after.tools[k] == entry.manifest.deep_view().tools[j])
            && entry.manifest.deep_view().tools.contains(after.tools[i])
            ==> !r.fenced.deep_view().contains(after.tools[i].name),
        forall|name: Seq<char>| #[trigger]
            r.fenced.deep_view().contains(name) ==> exists|k: int|
                0 <= k < after.tools.len() && (#[trigger] after.tools[k]).name == name,
{
    let before = entry.manifest.deep_view();
    let name = after.tools[i].name;
    if !before.tools.contains(after.tools[i]) || before.classification_mode
        != after.classification_mode || before.approval_mode != after.approval_mode {
        if before.tools == after.tools {
            assert(before.tools[i] == after.tools[i]);
        }
        new_declarations_are_changes(before, after, i);
    }
    kept_declarations_are_no_changes(before, after, name);
    if before.tools.contains(after.tools[i]) {
        let j = choose|j: int| 0 <= j < before.tools.len() && before.tools[j] == after.tools[i];
        assert(before.tools[j].name == name);
    }
    assert forall|other: Seq<char>| #[trigger] r.fenced.deep_view().contains(other) implies exists|
        k: int,
    |
        0 <= k < after.tools.len() && (#[trigger] after.tools[k]).name == other by {
        kept_declarations_are_no_changes(before, after, other);
    }
}

/// An update in place reports changed resources, a changed identity posture and
/// a changed setup-retry policy exactly where those differ from what was held.
pub proof fn edits_in_place_are_reported(
    entry: UpstreamEntry,
    updated: UpstreamEntry,
    after: Manifest,
    generation: u64,
    r: InPlaceUpdate,
)
    requires
        updates_in_place(entry, updated, after, generation, r),
        generation >= entry.last_reload_gen,
    ensures
        ({
            let before = entry.manifest.deep_view();
            &&& r.resources_changed <==> before.resources != after.resources
            &&& before.exchange != after.exchange ==> r.identity_changed
            &&& before.tier_a_required != after.tier_a_required ==> r.identity_changed
            &&& before.tier_c_peer != after.tier_c_peer ==> r.identity_changed
            &&& before.exchange == after.exchange && before.tier_a_required == after.tier_a_required
                && before.tier_c_peer == after.tier_c_peer ==> !r.identity_changed
            &&& r.retry_policy_changed <==> before.setup_retry() != after.setup_retry()
        }),
{
}

/// Connections are kept exactly where the new manifest asks for the same ones.
/// They are dialed anew in their lanes where the number of lanes provably stays,
/// and the entry is built anew where it may not.
pub proof fn changed_shapes_are_dialed_anew(
    entry: UpstreamEntry,
    updated: UpstreamEntry,
    after: Manifest,
    generation: u64,
    r: InPlaceUpdate,
)
    requires
        updates_in_place(entry, updated, after, generation, r),
        generation >= entry.last_reload_gen,
    ensures
        ({
            let before = entry.manifest.deep_view();
            &&& before.shape() == after.shape() ==> r.action == ShapeAction::Keep
            &&& before.shape() != after.shape() && lanes_stay(before, after) ==> r.action
                == ShapeAction::Redial && r.from_shape is Some && r.from_shape->0.deep_view()
                == before
            &&& before.shape() != after.shape() && !lanes_stay(before, after) ==> r.action
                == ShapeAction::Rebuild
            &&& r.action != ShapeAction::Redial ==> r.from_shape is None
        }),
{
}

/// Where the connections are kept the update in place completes the edit. Where
/// they are not, nothing that dialing uses, no identity posture, no session
/// policy and no resource claim advances ahead of the connections.
pub proof fn postures_advance_with_their_connections(
    entry: UpstreamEntry,
    updated: UpstreamEntry,
    after: Manifest,
    generation: u64,
    r: InPlaceUpdate,
)
    requires
        updates_in_place(entry, updated, after, generation, r),
        generation >= entry.last_reload_gen,
    ensures
        ({
            let before = entry.manifest.deep_view();
            let held = updated.manifest.deep_view();
            &&& held.name == before.name
            &&& held.transport == before.transport
            &&& held.protocol == before.protocol
            &&& held.url == before.url
            &&& held.command == before.command
            &&& held.auth == before.auth
            &&& held.mtls == before.mtls
            &&& r.action == ShapeAction::Keep ==> {
                &&& held.resources == after.resources
                &&& held.session == after.session
                &&& held.exchange == after.exchange
                &&& held.tier_a_required == after.tier_a_required
                &&& held.tier_c_peer == after.tier_c_peer
                &&& before.name == after.name ==> held == after
            }
            &&& r.action != ShapeAction::Keep ==> {
                &&& held.resources == before.resources
                &&& held.session == before.session
                &&& held.exchange == before.exchange
                &&& held.tier_a_required == before.tier_a_required
                &&& held.tier_c_peer == before.tier_c_peer
            }
        }),
{
}

/// A reload older than the last one that reached an entry changes nothing of it
/// and reports nothing; and no update in place touches a lane, a quarantine or
/// the recovery of an entry.
pub proof fn older_reloads_change_nothing(
    entry: UpstreamEntry,
    updated: UpstreamEntry,
    after: Manifest,
    generation: u64,
    r: InPlaceUpdate,
)
    requires
        updates_in_place(entry, updated, after, generation, r),
    ensures
        generation < entry.last_reload_gen ==> {
            &&& r.stale
            &&& updated == entry
            &&& !r.tools_changed
            &&& !r.resources_changed
            &&& !r.identity_changed
            &&& !r.retry_policy_changed
            &&& r.action == ShapeAction::Keep
            &&& r.fenced.len() == 0
            &&& r.publication is None
            &&& r.from_shape is None
        },
        updated.last_reload_gen >= entry.last_reload_gen,
        (UpstreamEntry {
            manifest: entry.manifest,
            last_reload_gen: entry.last_reload_gen,
            ..updated
        }) == entry,
{
}

/// What is prepared for publication is the admitted part of the catalog that the
/// connected lanes share, under the new classifications and the new authority,
/// to be published from the first connected lane in place of what is published now.
pub proof fn reclassification_publishes_the_admitted_part(
    entry: UpstreamEntry,
    updated: UpstreamEntry,
    after: Manifest,
    generation: u64,
    r: InPlaceUpdate,
)
    requires
        updates_in_place(entry, updated, after, generation, r),
        r.publication is Some,
    ensures
        ({
            let lanes = entry.lanes.deep_view();
            let publication = r.publication->0;
            &&& !r.stale
            &&& publication.publish_index < lanes.len()
            &&& lanes[publication.publish_index as int] is Some
            &&& forall|k: int|
                0 <= k < publication.publish_index ==> (#[trigger] lanes[k]) is None
            &&& publication.published.deep_view() == published_subset(
                updated.manifest.deep_view().tools,
                updated.manifest.deep_view().classification_mode,
                common_catalog(
                    live_catalogs(lanes),
                    updated.manifest.deep_view().classification_mode,
                ),
            )
            &&& publication.previous_tools.deep_view() == published_now(lanes)
        }),
{
}

/// A report names an upstream once more under classifications where its tools
/// changed, or its resources did on connections that were kept; under session
/// policy and identity where those changed on connections that were kept; and
/// nowhere else.
pub proof fn reports_name_what_changed(
    before: ReloadReport,
    after: ReloadReport,
    name: Seq<char>,
    update: InPlaceUpdate,
)
    requires
        before.notes_in_place(after, name, update),
    ensures
        update.tools_changed ==> after.classifications_updated.deep_view()
            == before.classifications_updated.deep_view().push(name),
        update.resources_changed && update.action == ShapeAction::Keep
            ==> after.classifications_updated.deep_view()
            == before.classifications_updated.deep_view().push(name),
        !update.tools_changed && (!update.resources_changed || update.action != ShapeAction::Keep)
            ==> after.classifications_updated.deep_view()
            == before.classifications_updated.deep_view(),
        update.retry_policy_changed && update.action == ShapeAction::Keep
            ==> after.session_policy_updated.deep_view()
            == before.session_policy_updated.deep_view().push(name),
        !update.retry_policy_changed || update.action != ShapeAction::Keep
            ==> after.session_policy_updated.deep_view()
            == before.session_policy_updated.deep_view(),
        update.identity_changed && update.action == ShapeAction::Keep
            ==> after.identity_updated.deep_view() == before.identity_updated.deep_view().push(name),
        !update.identity_changed || update.action != ShapeAction::Keep
            ==> after.identity_updated.deep_view() == before.identity_updated.deep_view(),
        after.redialed == before.redialed,
        after.redial_failed == before.redial_failed,
        after.resource_shape_restart_required == before.resource_shape_restart_required,
        after.added == before.added,
        after.removed == before.removed,
        after.superseded == before.superseded,
        after.catalog_generation == before.catalog_generation,
        update.tools_changed ==> !after.noop(),
        update.action == ShapeAction::Keep && (update.resources_changed
            || update.retry_policy_changed || update.identity_changed) ==> !after.noop(),
        after.noop() ==> before.noop(),
{
    let classified = after.classifications_updated.deep_view();
    let policies = after.session_policy_updated.deep_view();
    let identities = after.identity_updated.deep_view();
    assert(classified.len() == after.classifications_updated.len());
    assert(policies.len() == after.session_policy_updated.len());
    assert(identities.len() == after.identity_updated.len());
    assert(before.classifications_updated.deep_view().len()
        == before.classifications_updated.len());
    assert(before.session_policy_updated.deep_view().len() == before.session_policy_updated.len());
    assert(before.identity_updated.deep_view().len() == before.identity_updated.len());
}

/// A report is empty exactly where it names no upstream under any heading.
pub proof fn a_report_that_names_something_is_not_empty(report: ReloadReport)
    ensures
        report.noop() <==> report.classifications_updated.len() + report.identity_updated.len()
            + report.session_policy_updated.len() + report.redialed.len()
            + report.redial_failed.len() + report.resource_shape_restart_required.len()
            + report.added.len() + report.removed.len() == 0,
{
}

/// Sorting a list of names keeps every name as often as it was there and leaves
/// none before a smaller one.
pub proof fn sorting_keeps_the_names(
    before: Seq<Seq<char>>,
    after: Seq<Seq<char>>,
    name: Seq<char>,
)
    requires
        sorted_form(before, after),
    ensures
        after.len() == before.len(),
        after.contains(name) <==> before.contains(name),
        forall|i: int, j: int|
            0 <= i < j < after.len() ==> !crate::names::name_lt(
                #[trigger] after[j],
                #[trigger] after[i],
            ),
{
    before.to_multiset_ensures();
    after.to_multiset_ensures();
    assert(after.to_multiset().count(name) == before.to_multiset().count(name));
}

/// A set is refused for an upstream exactly where that upstream is live, stays in
/// the set, and changes both its connections and its resource claims.
pub proof fn coupled_edits_need_a_restart(
    current: Registry,
    fresh: ManifestSet,
    name: Seq<char>,
)
    ensures
        !current.contains_key(name) || !fresh.contains_key(name) ==> !couples_shape_and_resources(
            current,
            fresh,
            name,
        ),
        current.contains_key(name) && fresh.contains_key(name) ==> ({
            let held = current[name].manifest.deep_view();
            let asked = fresh[name].deep_view();
            couples_shape_and_resources(current, fresh, name) <==> !current[name].removed
                && held.resources != asked.resources && held.shape() != asked.shape()
        }),
{
}

/// Resource routing changes with an upstream exactly where the claims it routes
/// change, those of an absent or removed upstream being none, or where a live
/// upstream starts or stops serving resources.
pub proof fn routing_changes_with_claims_or_service(
    current: Registry,
    fresh: ManifestSet,
    name: Seq<char>,
)
    ensures
        routing_changes_at(current, fresh, name) ==> routing_changes(current, fresh),
        !current.contains_key(name) && fresh.contains_key(name) ==> (routing_changes_at(
            current,
            fresh,
            name,
        ) <==> fresh[name].deep_view().resources.len() > 0),
        !current.contains_key(name) && !fresh.contains_key(name) ==> !routing_changes_at(
            current,
            fresh,
            name,
        ),
        current.contains_key(name) && !fresh.contains_key(name) ==> (routing_changes_at(
            current,
            fresh,
            name,
        ) <==> !current[name].removed && current[name].manifest.deep_view().resources.len() > 0),
        current.contains_key(name) && fresh.contains_key(name) && current[name].removed ==> (
        routing_changes_at(current, fresh, name) <==> fresh[name].deep_view().resources.len() > 0),
        current.contains_key(name) && fresh.contains_key(name) && !current[name].removed ==> ({
            let held = current[name].manifest.deep_view();
            let asked = fresh[name].deep_view();
            routing_changes_at(current, fresh, name) <==> held.resources != asked.resources
                || held.serves_resources() != asked.serves_resources()
        }),
{
    if current.contains_key(name) && fresh.contains_key(name) && current[name].removed {
        if fresh[name].deep_view().resources.len() == 0 {
            assert(fresh[name].deep_view().resources =~= Seq::empty());
        }
    }
}

/// The topology changes with an upstream exactly where it is live and leaves the
/// set, or joins the set and is not live.
pub proof fn topology_changes_with_joins_and_leaves(
    current: Registry,
    fresh: ManifestSet,
    name: Seq<char>,
)
    ensures
        current.contains_key(name) && !current[name].removed && !fresh.contains_key(name)
            ==> topology_changes_at(current, fresh, name),
        current.contains_key(name) && !current[name].removed && fresh.contains_key(name)
            ==> !topology_changes_at(current, fresh, name),
        (!current.contains_key(name) || current[name].removed) ==> (topology_changes_at(
            current,
            fresh,
            name,
        ) <==> fresh.contains_key(name)),
{
}

/// What a commit leaves under a name: nothing where the set lacks it, the entry
/// built for it unless a newer reload has reached the live one, and otherwise the
/// live one.
pub proof fn a_commit_takes_what_was_built(
    live: Registry,
    built: Registry,
    fresh: ManifestSet,
    generation: u64,
    name: Seq<char>,
)
    ensures
        !fresh.contains_key(name) ==> next_entry(live, built, fresh, generation, name) is None,
        fresh.contains_key(name) && built.contains_key(name) && (!live.contains_key(name)
            || live[name].last_reload_gen <= generation) ==> next_entry(
            live,
            built,
            fresh,
            generation,
            name,
        ) == Some(built[name]),
        fresh.contains_key(name) && live.contains_key(name) && (!built.contains_key(name)
            || live[name].last_reload_gen > generation) ==> next_entry(
            live,
            built,
            fresh,
            generation,
            name,
        ) == Some(live[name]),
        fresh.contains_key(name) && !live.contains_key(name) && !built.contains_key(name)
            ==> next_entry(live, built, fresh, generation, name) is None,
{
}

/// What a commit says of a name: added where it is in place and was not live,
/// dropped where it was there and the set lacks it, short of the set where
/// nothing serves it or a newer reload kept what was built out.
pub proof fn a_commit_names_joins_and_leaves(
    live: Registry,
    built: Registry,
    fresh: ManifestSet,
    generation: u64,
    name: Seq<char>,
)
    ensures
        live.contains_key(name) && !live[name].removed ==> !is_added(
            live,
            built,
            fresh,
            generation,
            name,
        ),
        !fresh.contains_key(name) ==> !is_added(live, built, fresh, generation, name),
        fresh.contains_key(name) && built.contains_key(name) && !live.contains_key(name)
            ==> is_added(live, built, fresh, generation, name),
        fresh.contains_key(name) && live.contains_key(name) && live[name].removed ==> is_added(
            live,
            built,
            fresh,
            generation,
            name,
        ),
        fresh.contains_key(name) && !built.contains_key(name) && !live.contains_key(name)
            ==> !is_added(live, built, fresh, generation, name) && falls_short(
            live,
            built,
            fresh,
            generation,
            name,
        ),
        is_dropped(live, fresh, name) <==> live.contains_key(name) && !fresh.contains_key(name),
        !fresh.contains_key(name) ==> !falls_short(live, built, fresh, generation, name),
        fresh.contains_key(name) && built.contains_key(name) ==> (falls_short(
            live,
            built,
            fresh,
            generation,
            name,
        ) <==> live.contains_key(name) && live[name].last_reload_gen > generation),
        fresh.contains_key(name) && !built.contains_key(name) ==> (falls_short(
            live,
            built,
            fresh,
            generation,
            name,
        ) <==> !live.contains_key(name) || live[name].removed),
{
}

/// A commit retires what it takes out: every upstream that left the set, marked
/// as removed and with no retry in view, and every one that was replaced, as it
/// stood. What stays is not retired.
pub proof fn a_commit_retires_what_it_takes_out(
    live: Registry,
    built: Registry,
    fresh: ManifestSet,
    generation: u64,
    name: Seq<char>,
    now: Instant,
    wall: WallTime,
)
    requires
        live.contains_key(name),
    ensures
        !fresh.contains_key(name) ==> is_retired(live, built, fresh, generation, name) && departed(
            live,
            fresh,
            name,
            now,
            wall,
        ).removed && departed(live, fresh, name, now, wall).reconnect.next_retry is None
            && departed(live, fresh, name, now, wall).lanes == live[name].lanes && departed(
            live,
            fresh,
            name,
            now,
            wall,
        ).manifest == live[name].manifest,
        fresh.contains_key(name) ==> departed(live, fresh, name, now, wall) == live[name],
        fresh.contains_key(name) && built.contains_key(name) && live[name].last_reload_gen
            <= generation ==> is_retired(live, built, fresh, generation, name),
        fresh.contains_key(name) && (!built.contains_key(name) || live[name].last_reload_gen
            > generation) ==> !is_retired(live, built, fresh, generation, name),
        !is_retired(live, built, fresh, generation, name) ==> next_entry(
            live,
            built,
            fresh,
            generation,
            name,
        ) == Some(live[name]),
{
}

/// The catalog is another one after a commit where an upstream was built that
/// was not live before, or where the one built shows clients other tools than the
/// one it replaces; it is the same where they are shown the same.
pub proof fn a_replacement_that_shows_the_same_changes_nothing(
    live: Registry,
    built: Registry,
    fresh: ManifestSet,
    generation: u64,
    local: bool,
    name: Seq<char>,
)
    ensures
        !built.contains_key(name) || !fresh.contains_key(name) ==> !shows_other_tools(
            live,
            built,
            fresh,
            generation,
            local,
            name,
        ),
        built.contains_key(name) && fresh.contains_key(name) && (!live.contains_key(name)
            || live[name].removed) ==> shows_other_tools(
            live,
            built,
            fresh,
            generation,
            local,
            name,
        ),
        built.contains_key(name) && fresh.contains_key(name) && live.contains_key(name)
            && !live[name].removed && live[name].last_reload_gen <= generation && built[name].id
            != live[name].id ==> (shows_other_tools(
            live,
            built,
            fresh,
            generation,
            local,
            name,
        ) <==> descriptors_by_name(
            visible_tools(
                live[name].lanes.deep_view(),
                live[name].quarantined.deep_view(),
                local,
            ),
        ) != descriptors_by_name(
            visible_tools(
                built[name].lanes.deep_view(),
                built[name].quarantined.deep_view(),
                local,
            ),
        )),
        live.contains_key(name) && !live[name].removed && live[name].last_reload_gen > generation
            ==> !shows_other_tools(live, built, fresh, generation, local, name),
{
}

/// The inventory after a commit lists every upstream that is then in place, with
/// the tools it shows, and no other.
pub proof fn the_inventory_lists_what_is_in_place(
    inventory: Map<Seq<char>, Vec<Tool>>,
    next: Option<UpstreamEntry>,
    local: bool,
    name: Seq<char>,
)
    requires
        inventory_at(inventory, next, local, name),
    ensures
        next is None ==> !inventory.contains_key(name),
        next is Some ==> inventory.contains_key(name) && inventory[name].deep_view()
            == visible_tools(
            next->0.lanes.deep_view(),
            next->0.quarantined.deep_view(),
            local,
        ),
{
}

/// An upstream is absent exactly where nothing is registered under its name or
/// what is there is being removed.
pub proof fn removed_upstreams_are_absent(live: Registry, name: Seq<char>)
    ensures
        !live.contains_key(name) ==> absent(live, name),
        live.contains_key(name) ==> (absent(live, name) <==> live[name].removed),
        outdated(live, u64::MAX, name) ==> false,
        live.contains_key(name) ==> !outdated(live, live[name].last_reload_gen, name),
{
}

} // verus!
