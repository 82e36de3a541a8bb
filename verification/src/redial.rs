//! Replacing the sessions of a live upstream in one step.
//!
//! Every lane is dialed first, while the old sessions keep serving. Only once a
//! replacement exists are the manifest and the lanes exchanged together, and
//! only if nothing that the exchange writes has moved since.

use vstd::prelude::*;

use crate::admission::{partition_live_tools, published_subset};
use crate::clock::{Instant, WallTime};
use crate::drift::{
    baseline_after, baseline_of, drift_in, quarantines, record_observed_schemas_against,
    DriftReport, QuarantineThreshold,
};
use crate::entry::UpstreamEntry;
use crate::health::{UpstreamErrorClass, UpstreamRecovery};
use crate::lane::{
    connected_count, find_connected, first_connected, lanes_agree, some_connected,
    synchronize_published_catalogs, with_published, BreakerState, Connection, Lanes,
};
use crate::manifest::{ClassificationMode, Manifest, RiskTier, UpstreamManifest};
use crate::reconnect::{CredentialMaterialVersion, ReconnectState};
use crate::shape::redial_committed_fields_eq;
use crate::tools::{
    common_catalog, common_tool_catalog, descriptors_by_name, inventory_diff,
    tool_catalogs_equal, tool_inventory_diff, Descriptor, Tool,
};
use crate::value::Value;

verus! {

/// Outcome of a live re-dial.
#[derive(Clone, Copy, Debug, PartialEq, Eq, Structural)]
pub enum RedialOutcome {
    /// At least one lane adopted the new shape and the manifest advanced.
    Redialed,
    /// Nothing changed: every dial failed, or publication did.
    Failed,
    /// The entry was retired meanwhile; the dialed sessions are dropped.
    Tombstoned,
    /// A newer transition committed another shape meanwhile; the stale dial is
    /// dropped rather than rolled over it.
    Superseded,
}

/// Why sessions are replaced.
#[derive(Clone, Copy, Debug, PartialEq, Eq, Structural)]
pub enum RedialSource {
    ConnectionShape,
    CatalogRefresh,
}

impl RedialSource {
    pub open spec fn spec_publish_label(self) -> Seq<char> {
        match self {
            RedialSource::ConnectionShape => "redial"@,
            RedialSource::CatalogRefresh => "catalog_refresh"@,
        }
    }

    pub fn publish_label(self) -> (r: &'static str)
        ensures
            r@ == self.spec_publish_label(),
    {
        match self {
            RedialSource::ConnectionShape => "redial",
            RedialSource::CatalogRefresh => "catalog_refresh",
        }
    }
}

/// Why one lane's dial failed.
#[derive(Debug, PartialEq, Eq)]
pub struct RedialFailure {
    pub class: UpstreamErrorClass,
    pub detail: String,
}

/// The error class a re-dial leaves behind: the failed lane's while a lane is
/// down, and none once every lane is up.
pub fn partial_redial_error_class(down_lanes: usize, last_failure: Option<&RedialFailure>) -> (r:
    Option<UpstreamErrorClass>)
    ensures
        r == partial_class(down_lanes as nat, failure_class(last_failure)),
{
    if down_lanes == 0 {
        None
    } else {
        match last_failure {
            Some(failure) => Some(failure.class),
            None => None,
        }
    }
}

pub open spec fn partial_class(
    down_lanes: nat,
    last_class: Option<UpstreamErrorClass>,
) -> Option<UpstreamErrorClass> {
    if down_lanes == 0 {
        None
    } else {
        last_class
    }
}

pub open spec fn failure_class(failure: Option<&RedialFailure>) -> Option<UpstreamErrorClass> {
    match failure {
        Some(failure) => Some(failure.class),
        None => None,
    }
}

/// The last failure among the dials.
pub open spec fn last_failure_of(results: Seq<Result<Connection, RedialFailure>>) -> Option<
    RedialFailure,
>
    decreases results.len(),
{
    if results.len() == 0 {
        None
    } else {
        match results.last() {
            Err(failure) => Some(failure),
            Ok(_) => last_failure_of(results.drop_last()),
        }
    }
}

/// Sort the settled dials into sessions, lane by lane, and the last failure.
pub fn collect_dials(results: Vec<Result<Connection, RedialFailure>>) -> (r: (
    Vec<Option<Connection>>,
    Option<RedialFailure>,
))
    ensures
        r.0.len() == results.len(),
        forall|k: int|
            0 <= k < results.len() ==> (#[trigger] r.0@[k]) == match results@[k] {
                Ok(conn) => Some(conn),
                Err(_) => None,
            },
        r.1 == last_failure_of(results@),
{
    let mut dialed: Vec<Option<Connection>> = Vec::new();
    let mut last: Option<RedialFailure> = None;
    let ghost all = results@;
    proof {
        assert(all.take(0) =~= Seq::empty());
    }
    for result in it: results.into_iter()
        invariant
            it.seq() == all,
            dialed.len() == it.index(),
            forall|k: int|
                0 <= k < it.index() ==> (#[trigger] dialed@[k]) == match all[k] {
                    Ok(conn) => Some(conn),
                    Err(_) => None,
                },
            last == last_failure_of(all.take(it.index() as int)),
    {
        proof {
            let next = all.take(it.index() + 1);
            assert(next.drop_last() =~= all.take(it.index() as int));
            assert(next.last() == all[it.index() as int]);
        }
        match result {
            Ok(conn) => {
                dialed.push(Some(conn));
            },
            Err(failure) => {
                last = Some(failure);
                dialed.push(None);
            },
        }
    }
    proof {
        assert(all.take(all.len() as int) =~= all);
    }
    (dialed, last)
}

/// How a commit that found the entry in this state has to end, if not in a
/// commit: retired entries are not revived, and nothing is rolled back.
pub open spec fn blocked(entry: UpstreamEntry, is_current: bool, from_shape: Manifest) -> Option<
    RedialOutcome,
> {
    if entry.removed {
        Some(RedialOutcome::Tombstoned)
    } else if !is_current || entry.manifest.deep_view().committed() != from_shape.committed() {
        Some(RedialOutcome::Superseded)
    } else {
        None
    }
}

fn commit_blocked(entry: &UpstreamEntry, is_current: bool, from_shape: &UpstreamManifest) -> (r:
    Option<RedialOutcome>)
    ensures
        r == blocked(*entry, is_current, from_shape.deep_view()),
{
    if entry.removed {
        Some(RedialOutcome::Tombstoned)
    } else if !is_current || !redial_committed_fields_eq(&entry.manifest, from_shape) {
        Some(RedialOutcome::Superseded)
    } else {
        None
    }
}

/// End a re-dial whose every lane failed. The failure is noted only while this
/// is the published entry and still has the shape the dial started from, so an
/// older failure never follows a newer success.
pub fn redial_all_failed(
    entry: &mut UpstreamEntry,
    is_current: bool,
    from_shape: &UpstreamManifest,
    last_failure: Option<&RedialFailure>,
) -> (outcome: RedialOutcome)
    ensures
        outcome == match blocked(*old(entry), is_current, from_shape.deep_view()) {
            Some(blocking) => blocking,
            None => RedialOutcome::Failed,
        },
        final(entry).same_but_recovery(*old(entry)),
        final(entry).reconnect == old(entry).reconnect,
        final(entry).recovery == if outcome == RedialOutcome::Failed && last_failure is Some {
            UpstreamRecovery {
                last_error_class: failure_class(last_failure),
                ..old(entry).recovery
            }
        } else {
            old(entry).recovery
        },
{
    if let Some(blocking) = commit_blocked(entry, is_current, from_shape) {
        return blocking;
    }
    if let Some(failure) = last_failure {
        entry.record_runtime_failure(failure.class);
    }
    RedialOutcome::Failed
}

/// The inventory a transaction publishes before it installs any session, and
/// the one to restore should the search index refuse it.
#[derive(Debug, PartialEq, Eq)]
pub struct Publication {
    /// First lane with a new session.
    pub publish_index: usize,
    /// What every serving lane advertises.
    pub common_live_tools: Vec<Tool>,
    /// The admitted part of that.
    pub published: Vec<Tool>,
    pub previous_tools: Vec<Tool>,
}

/// The catalogs that the connected lanes advertise, lane by lane.
pub open spec fn live_catalogs(lanes: Lanes) -> Seq<Seq<Descriptor>>
    decreases lanes.len(),
{
    if lanes.len() == 0 {
        Seq::empty()
    } else {
        match lanes.last() {
            Some(conn) => live_catalogs(lanes.drop_last()).push(conn.live_tools),
            None => live_catalogs(lanes.drop_last()),
        }
    }
}

/// The tools that the first connected lane publishes.
pub open spec fn published_now(lanes: Lanes) -> Seq<Descriptor> {
    match first_connected(lanes) {
        Some(conn) => conn.tools,
        None => Seq::empty(),
    }
}

/// The catalogs that the connected lanes advertise.
pub fn collect_live_catalogs(lanes: &Vec<Option<Connection>>) -> (r: Vec<&Vec<Tool>>)
    ensures
        r.deep_view() == live_catalogs(lanes.deep_view()),
{
    let ghost all = lanes.deep_view();
    let mut out: Vec<&Vec<Tool>> = Vec::new();
    let mut k: usize = 0;
    proof {
        assert(all.take(0) =~= Seq::empty());
        assert(out.deep_view() =~= Seq::<Seq<Descriptor>>::empty());
    }
    while k < lanes.len()
        invariant
            k <= lanes.len(),
            all == lanes.deep_view(),
            out.deep_view() == live_catalogs(all.take(k as int)),
        decreases lanes.len() - k,
    {
        proof {
            let next = all.take(k + 1);
            assert(next.drop_last() =~= all.take(k as int));
            assert(next.last() == all[k as int]);
        }
        if let Some(conn) = &lanes[k] {
            let ghost before = out.deep_view();
            out.push(&conn.live_tools);
            proof {
                assert(out.deep_view() =~= before.push(conn.live_tools.deep_view()));
            }
        }
        k = k + 1;
    }
    proof {
        assert(all.take(all.len() as int) =~= all);
    }
    out
}

/// The tools that the first connected lane publishes.
pub fn collect_published(lanes: &Vec<Option<Connection>>) -> (r: Vec<Tool>)
    ensures
        r.deep_view() == published_now(lanes.deep_view()),
{
    if let Some(k) = find_connected(lanes) {
        if let Some(conn) = &lanes[k] {
            return conn.tools.dup();
        }
    }
    let none: Vec<Tool> = Vec::new();
    proof {
        assert(none.deep_view() =~= Seq::<Descriptor>::empty());
    }
    none
}

/// Decide whether a re-dial may commit and what it publishes: the admitted part
/// of the catalog that all new sessions share.
pub fn prepare_redial(
    entry: &UpstreamEntry,
    is_current: bool,
    from_shape: &UpstreamManifest,
    dialed: &Vec<Option<Connection>>,
) -> (r: Result<Publication, RedialOutcome>)
    requires
        some_connected(dialed.deep_view()),
    ensures
        match r {
            Err(outcome) => blocked(*entry, is_current, from_shape.deep_view()) == Some(outcome),
            Ok(publication) => {
                let manifest = entry.manifest.deep_view();
                &&& blocked(*entry, is_current, from_shape.deep_view()) is None
                &&& publication.publish_index < dialed.len()
                &&& dialed@[publication.publish_index as int] is Some
                &&& forall|k: int|
                    0 <= k < publication.publish_index ==> (#[trigger] dialed@[k]) is None
                &&& publication.common_live_tools.deep_view() == common_catalog(
                    live_catalogs(dialed.deep_view()),
                    manifest.classification_mode,
                )
                &&& publication.published.deep_view() == published_subset(
                    manifest.tools,
                    manifest.classification_mode,
                    publication.common_live_tools.deep_view(),
                )
                &&& publication.previous_tools.deep_view() == published_now(
                    entry.lanes.deep_view(),
                )
            },
        },
{
    if let Some(blocking) = commit_blocked(entry, is_current, from_shape) {
        return Err(blocking);
    }
    let publish_index: usize = match find_connected(dialed) {
        Some(k) => k,
        None => {
            proof {
                crate::lane::lemma_first_connected(dialed.deep_view());
            }
            0
        },
    };
    let mode = entry.manifest.classification_mode;
    let catalogs = collect_live_catalogs(dialed);
    let common_live_tools = common_tool_catalog(&catalogs, mode);
    let (published, _, _) = partition_live_tools(&entry.manifest.tools, mode, &common_live_tools);
    Ok(
        Publication {
            publish_index,
            common_live_tools,
            published,
            previous_tools: collect_published(&entry.lanes),
        },
    )
}

/// The manifest with everything a re-dial commits taken from another one. Tool
/// classifications are not among it; resource claims are, because they route to
/// the backend that is exchanged.
pub open spec fn advanced(manifest: Manifest, new: Manifest) -> Manifest {
    Manifest {
        transport: new.transport,
        protocol: new.protocol,
        url: new.url,
        command: new.command,
        auth: new.auth,
        mtls: new.mtls,
        session: new.session,
        resources: new.resources,
        exchange: new.exchange,
        tier_a_required: new.tier_a_required,
        tier_c_peer: new.tier_c_peer,
        ..manifest
    }
}

fn advance_manifest(manifest: &mut UpstreamManifest, new: &UpstreamManifest)
    ensures
        final(manifest).deep_view() == advanced(old(manifest).deep_view(), new.deep_view()),
        final(manifest).tools == old(manifest).tools,
        final(manifest).classification_mode == old(manifest).classification_mode,
{
    manifest.transport = new.transport;
    manifest.protocol = new.protocol;
    manifest.url = new.url.dup();
    manifest.command = new.command.dup();
    manifest.auth = new.auth.dup();
    manifest.mtls = new.mtls.dup();
    manifest.session = new.session.dup();
    manifest.resources = new.resources.dup();
    manifest.exchange = new.exchange.dup();
    manifest.tier_a_required = new.tier_a_required;
    manifest.tier_c_peer = new.tier_c_peer;
}

/// What a committed re-dial did.
pub struct RedialInstall {
    pub redialed: usize,
    pub down: usize,
    /// Revision of the recovery state at the moment of the commit.
    pub revision: u64,
    pub drift: Vec<DriftReport>,
    /// Whether clients have to be told: the inventory or the quarantine changed.
    pub catalog_changed: bool,
}

/// The lanes after a commit: every one from the new dials, publishing the same
/// catalog; a lane whose dial failed is down.
pub open spec fn redialed_lanes(dialed: Lanes, published: Seq<Descriptor>) -> Lanes {
    Seq::new(dialed.len(), |k: int| with_published(dialed[k], published))
}

/// Exchange the manifest and every lane in one step. The breaker is reset with
/// them, so that no failure of the old sessions keeps calls from the new ones.
pub fn commit_redial(
    entry: &mut UpstreamEntry,
    new: &UpstreamManifest,
    dialed: Vec<Option<Connection>>,
    publication: &Publication,
    threshold: QuarantineThreshold,
) -> (install: RedialInstall)
    requires
        old(entry).wf(),
        dialed.len() == old(entry).lanes.len(),
        publication.publish_index < dialed.len(),
        dialed@[publication.publish_index as int] is Some,
    ensures
        final(entry).wf(),
        final(entry).manifest.deep_view() == advanced(
            old(entry).manifest.deep_view(),
            new.deep_view(),
        ),
        final(entry).lanes.deep_view() == redialed_lanes(
            dialed.deep_view(),
            publication.published.deep_view(),
        ),
        install.redialed == connected_count(dialed.deep_view()),
        install.redialed + install.down == dialed.len(),
        install.revision == old(entry).reconnect.revision,
        observed_drift(
            *old(entry),
            *final(entry),
            dialed@[publication.publish_index as int]->0.live_tools.deep_view(),
            threshold,
            install.drift.deep_view(),
        ),
        install.catalog_changed == (descriptors_by_name(publication.published.deep_view())
            != descriptors_by_name(publication.previous_tools.deep_view()) || some_quarantined(
            install.drift.deep_view(),
        )),
        final(entry).reconnect == old(entry).reconnect,
        final(entry).recovery == old(entry).recovery,
        final(entry).id == old(entry).id,
        final(entry).removed == old(entry).removed,
        final(entry).forwards_identity == old(entry).forwards_identity,
        final(entry).breaker == BreakerState::Closed,
        final(entry).last_reload_gen == old(entry).last_reload_gen,
{
    let mut sessions = dialed;
    let ghost fresh = sessions.deep_view();
    let total: usize = sessions.len();
    let redialed: usize = crate::lane::count_connected(&sessions);
    let drift = observe_session(entry, &sessions, publication.publish_index, threshold);
    let quarantine_changed = any_quarantined(&drift);
    let catalog_changed = !tool_catalogs_equal(
        &publication.published,
        &publication.previous_tools,
    ) || quarantine_changed;
    synchronize_published_catalogs(&mut sessions, &publication.published);
    advance_manifest(&mut entry.manifest, new);
    entry.lanes = sessions;
    entry.breaker = BreakerState::Closed;
    proof {
        assert(entry.lanes.deep_view() =~= redialed_lanes(
            fresh,
            publication.published.deep_view(),
        ));
    }
    RedialInstall {
        redialed,
        down: total - redialed,
        revision: entry.reconnect.revision(),
        drift,
        catalog_changed,
    }
}

/// The governance state follows from observing one listing under the
/// classifications in force.
pub open spec fn observed_drift(
    before: UpstreamEntry,
    after: UpstreamEntry,
    listing: Seq<Descriptor>,
    threshold: QuarantineThreshold,
    drift: Seq<crate::drift::Drift>,
) -> bool {
    let manifest = before.manifest.deep_view();
    &&& drift == drift_in(
        baseline_of(before.observed_schemas@),
        listing,
        manifest.tools,
        manifest.classification_mode,
        threshold,
    )
    &&& baseline_of(after.observed_schemas@) == baseline_after(
        baseline_of(before.observed_schemas@),
        listing,
        manifest.classification_mode,
    )
    &&& forall|tool: Seq<char>| #[trigger]
        after.quarantined.deep_view().contains(tool) <==> before.quarantined.deep_view().contains(
            tool,
        ) || quarantines(drift, tool)
}

/// Some report says that its tool was quarantined.
pub open spec fn some_quarantined(drift: Seq<crate::drift::Drift>) -> bool {
    exists|i: int| 0 <= i < drift.len() && (#[trigger] drift[i]).quarantined
}

pub fn any_quarantined(drift: &Vec<DriftReport>) -> (b: bool)
    ensures
        b == some_quarantined(drift.deep_view()),
{
    let mut i: usize = 0;
    while i < drift.len()
        invariant
            i <= drift.len(),
            forall|j: int| 0 <= j < i ==> !(#[trigger] drift.deep_view()[j]).quarantined,
        decreases drift.len() - i,
    {
        if drift[i].quarantined {
            proof {
                assert(drift.deep_view()[i as int].quarantined);
            }
            return true;
        }
        i = i + 1;
    }
    false
}

/// Observe the listing of one new session under the classifications in force.
pub fn observe_session(
    entry: &mut UpstreamEntry,
    sessions: &Vec<Option<Connection>>,
    lane: usize,
    threshold: QuarantineThreshold,
) -> (drift: Vec<DriftReport>)
    requires
        old(entry).wf(),
        lane < sessions.len(),
        sessions@[lane as int] is Some,
    ensures
        final(entry).wf(),
        observed_drift(
            *old(entry),
            *final(entry),
            sessions@[lane as int]->0.live_tools.deep_view(),
            threshold,
            drift.deep_view(),
        ),
        final(entry).manifest == old(entry).manifest,
        final(entry).lanes == old(entry).lanes,
        final(entry).reconnect == old(entry).reconnect,
        final(entry).recovery == old(entry).recovery,
        final(entry).id == old(entry).id,
        final(entry).removed == old(entry).removed,
        final(entry).forwards_identity == old(entry).forwards_identity,
        final(entry).breaker == old(entry).breaker,
        final(entry).last_reload_gen == old(entry).last_reload_gen,
{
    let mode = entry.manifest.classification_mode;
    match &sessions[lane] {
        Some(conn) => record_observed_schemas_against(
            &mut entry.observed_schemas,
            &mut entry.quarantined,
            &conn.live_tools,
            threshold,
            &entry.manifest.tools,
            mode,
        ),
        None => Vec::new(),
    }
}

/// Settle the outcome of a committed re-dial. A newer failure or operator
/// transition that came in between owns the recovery state.
pub fn settle_redial(
    entry: &mut UpstreamEntry,
    is_current: bool,
    install: &RedialInstall,
    credential_version: CredentialMaterialVersion,
    last_failure: Option<&RedialFailure>,
    now: Instant,
    wall: WallTime,
) -> (outcome: RedialOutcome)
    requires
        old(entry).wf(),
    ensures
        final(entry).wf(),
        final(entry).same_but_recovery(*old(entry)),
        outcome == if old(entry).removed {
            RedialOutcome::Tombstoned
        } else if !is_current {
            RedialOutcome::Superseded
        } else {
            RedialOutcome::Redialed
        },
        ({
            let converged = outcome == RedialOutcome::Redialed && old(entry).reconnect.revision
                == install.revision;
            &&& final(entry).reconnect == if converged {
                (ReconnectState { credential_version, ..old(entry).reconnect }).restarted(
                    install.down > 0,
                    now,
                    wall,
                )
            } else {
                old(entry).reconnect
            }
            &&& final(entry).recovery == if converged {
                old(entry).recovery.reconnected(
                    install.redialed,
                    old(entry).lanes.len(),
                    partial_class(install.down as nat, failure_class(last_failure)),
                    wall,
                )
            } else {
                old(entry).recovery
            }
        }),
{
    if entry.removed {
        return RedialOutcome::Tombstoned;
    }
    if !is_current {
        return RedialOutcome::Superseded;
    }
    if entry.reconnect.record_success_if_revision(
        install.revision,
        install.down > 0,
        credential_version,
        now,
        wall,
    ) {
        entry.recovery.record_reconnect(
            install.redialed,
            entry.lanes.len(),
            partial_redial_error_class(install.down, last_failure),
            wall,
        );
    }
    RedialOutcome::Redialed
}

/// A committed re-dial leaves no old session behind and no old setting in
/// force: every connected lane carries a new session, all lanes publish the
/// same catalog, and every committed field is the new one.
pub proof fn redial_never_mixes_generations(
    manifest: Manifest,
    new: Manifest,
    dialed: Lanes,
    published: Seq<Descriptor>,
)
    ensures
        advanced(manifest, new).committed() == new.committed(),
        advanced(manifest, new).resources == new.resources,
        advanced(manifest, new).tools == manifest.tools,
        advanced(manifest, new).classification_mode == manifest.classification_mode,
        lanes_agree(redialed_lanes(dialed, published)),
        forall|k: int|
            #![trigger redialed_lanes(dialed, published)[k]]
            0 <= k < dialed.len() ==> {
                &&& redialed_lanes(dialed, published)[k] is Some <==> dialed[k] is Some
                &&& dialed[k] is Some ==> redialed_lanes(dialed, published)[k]->0.session
                    == dialed[k]->0.session && redialed_lanes(dialed, published)[k]->0.tools
                    == published
            },
{
    let lanes = redialed_lanes(dialed, published);
    assert forall|i: int, j: int|
        0 <= i < lanes.len() && 0 <= j < lanes.len() && (#[trigger] lanes[i]) is Some && (
        #[trigger] lanes[j]) is Some implies lanes[i]->0.tools == lanes[j]->0.tools by {
        assert(lanes[i] == with_published(dialed[i], published));
        assert(lanes[j] == with_published(dialed[j], published));
    }
}

/// A catalog refresh re-dials from and to the same manifest, which changes no
/// setting, so it never interrupts what watches the connection shape.
pub proof fn refresh_changes_no_setting(manifest: Manifest)
    ensures
        advanced(manifest, manifest) == manifest,
{
}

/// Whether a forced catalog refresh changed the published inventory.
#[derive(Clone, Copy, Debug, PartialEq, Eq, Structural)]
pub enum CatalogRefreshOutcome {
    Updated,
    Unchanged,
    Failed,
    Superseded,
    Removed,
}

impl CatalogRefreshOutcome {
    pub open spec fn spec_as_str(self) -> Seq<char> {
        match self {
            CatalogRefreshOutcome::Updated => "updated"@,
            CatalogRefreshOutcome::Unchanged => "unchanged"@,
            CatalogRefreshOutcome::Failed => "failed"@,
            CatalogRefreshOutcome::Superseded => "superseded"@,
            CatalogRefreshOutcome::Removed => "removed"@,
        }
    }

    pub fn as_str(self) -> (r: &'static str)
        ensures
            r@ == self.spec_as_str(),
    {
        match self {
            CatalogRefreshOutcome::Updated => "updated",
            CatalogRefreshOutcome::Unchanged => "unchanged",
            CatalogRefreshOutcome::Failed => "failed",
            CatalogRefreshOutcome::Superseded => "superseded",
            CatalogRefreshOutcome::Removed => "removed",
        }
    }
}

/// Result of putting an upstream through a fresh initialization and publishing
/// the inventory of its new sessions.
#[derive(Debug, PartialEq, Eq)]
pub struct CatalogRefreshReport {
    pub server: String,
    pub outcome: CatalogRefreshOutcome,
    pub session_replaced: bool,
    pub before_tool_count: usize,
    pub after_tool_count: usize,
    pub added: Vec<String>,
    pub removed: Vec<String>,
    /// Names whose descriptor is another one than before.
    pub schema_changed: Vec<String>,
}

/// Classify a failed refresh against the registry as it is now: an overlapping
/// reload may have replaced or removed the entry while the dial was failing.
pub fn effective_redial(outcome: RedialOutcome, removed: bool, is_current: bool) -> (r: RedialOutcome)
    ensures
        r == if outcome != RedialOutcome::Failed {
            outcome
        } else if removed {
            RedialOutcome::Tombstoned
        } else if !is_current {
            RedialOutcome::Superseded
        } else {
            RedialOutcome::Failed
        },
{
    if outcome != RedialOutcome::Failed {
        outcome
    } else if removed {
        RedialOutcome::Tombstoned
    } else if !is_current {
        RedialOutcome::Superseded
    } else {
        RedialOutcome::Failed
    }
}

/// Report a refresh from the inventory shown before and after it.
pub fn catalog_refresh_report(
    server: &str,
    before: &Vec<Tool>,
    after: &Vec<Tool>,
    redial: RedialOutcome,
) -> (r: CatalogRefreshReport)
    ensures
        r.server@ == server@,
        r.session_replaced == (redial == RedialOutcome::Redialed),
        r.before_tool_count == before.len(),
        r.after_tool_count == after.len(),
        inventory_diff(
            before.deep_view(),
            after.deep_view(),
            r.added.deep_view(),
            r.removed.deep_view(),
            r.schema_changed.deep_view(),
        ),
        r.outcome == match redial {
            RedialOutcome::Redialed => if descriptors_by_name(before.deep_view())
                == descriptors_by_name(after.deep_view()) {
                CatalogRefreshOutcome::Unchanged
            } else {
                CatalogRefreshOutcome::Updated
            },
            RedialOutcome::Failed => CatalogRefreshOutcome::Failed,
            RedialOutcome::Superseded => CatalogRefreshOutcome::Superseded,
            RedialOutcome::Tombstoned => CatalogRefreshOutcome::Removed,
        },
{
    let (added, removed, schema_changed) = tool_inventory_diff(before, after);
    proof {
        crate::tools::empty_diff_means_equal_catalogs(
            before.deep_view(),
            after.deep_view(),
            added.deep_view(),
            removed.deep_view(),
            schema_changed.deep_view(),
        );
        assert(added.deep_view().len() == added.len());
        assert(removed.deep_view().len() == removed.len());
        assert(schema_changed.deep_view().len() == schema_changed.len());
    }
    let outcome = match redial {
        RedialOutcome::Redialed => if added.len() == 0 && removed.len() == 0
            && schema_changed.len() == 0 {
            CatalogRefreshOutcome::Unchanged
        } else {
            CatalogRefreshOutcome::Updated
        },
        RedialOutcome::Failed => CatalogRefreshOutcome::Failed,
        RedialOutcome::Superseded => CatalogRefreshOutcome::Superseded,
        RedialOutcome::Tombstoned => CatalogRefreshOutcome::Removed,
    };
    CatalogRefreshReport {
        server: server.to_owned(),
        outcome,
        session_replaced: redial == RedialOutcome::Redialed,
        before_tool_count: before.len(),
        after_tool_count: after.len(),
        added,
        removed,
        schema_changed,
    }
}

/// A partial re-dial tells the class of the last failure where a lane is down,
/// and none where every lane is up.
pub proof fn a_full_redial_has_no_error(
    down_lanes: nat,
    last_class: Option<UpstreamErrorClass>,
)
    ensures
        down_lanes == 0 ==> partial_class(down_lanes, last_class) is None,
        down_lanes > 0 ==> partial_class(down_lanes, last_class) == last_class,
{
}

/// The failure of a re-dial is the one of the last lane whose dial failed.
pub proof fn the_last_failed_dial_is_told(results: Seq<Result<Connection, RedialFailure>>, k: int)
    requires
        -1 <= k < results.len(),
        forall|j: int| k < j < results.len() ==> (#[trigger] results[j]) is Ok,
        0 <= k ==> results[k] is Err,
    ensures
        k < 0 ==> last_failure_of(results) is None,
        0 <= k ==> last_failure_of(results) == Some(results[k]->Err_0),
    decreases results.len(),
{
    if results.len() > 0 && k < results.len() - 1 {
        let front = results.drop_last();
        assert(results[results.len() - 1] is Ok);
        assert forall|j: int| k < j < front.len() implies (#[trigger] front[j]) is Ok by {
            assert(results[j] is Ok);
        }
        the_last_failed_dial_is_told(front, k);
    }
}

/// A re-dial goes on exactly where the entry is still the published one, is not
/// being removed and still holds every committed field that the dial started
/// from. A removed entry is told as such, any other obstacle as superseded.
pub proof fn a_redial_needs_what_it_started_from(
    entry: UpstreamEntry,
    is_current: bool,
    from_shape: Manifest,
)
    ensures
        entry.removed ==> blocked(entry, is_current, from_shape) == Some(RedialOutcome::Tombstoned),
        !entry.removed && !is_current ==> blocked(entry, is_current, from_shape) == Some(
            RedialOutcome::Superseded,
        ),
        !entry.removed && entry.manifest.deep_view().committed() != from_shape.committed()
            ==> blocked(entry, is_current, from_shape) == Some(RedialOutcome::Superseded),
        !entry.removed && is_current && entry.manifest.deep_view().committed()
            == from_shape.committed() ==> blocked(entry, is_current, from_shape) is None,
{
}

/// The live catalogs are those of the connected lanes, in their order.
pub proof fn connected_lanes_give_their_catalogs(lanes: Lanes, conn: crate::lane::LaneModel)
    ensures
        live_catalogs(Seq::empty()).len() == 0,
        live_catalogs(lanes.push(Some(conn))) == live_catalogs(lanes).push(conn.live_tools),
        live_catalogs(lanes.push(None)) == live_catalogs(lanes),
{
    assert(lanes.push(Some(conn)).drop_last() =~= lanes);
    assert(lanes.push(None).drop_last() =~= lanes);
}

/// What is published now is what the first connected lane publishes.
pub proof fn the_first_connected_lane_publishes(lanes: Lanes, k: int)
    requires
        0 <= k <= lanes.len(),
        forall|j: int| 0 <= j < k ==> (#[trigger] lanes[j]) is None,
        k < lanes.len() ==> lanes[k] is Some,
    ensures
        k < lanes.len() ==> published_now(lanes) == lanes[k]->0.tools,
        k == lanes.len() ==> published_now(lanes).len() == 0,
{
    crate::lane::the_first_connected_lane_speaks(lanes, k);
}

/// A re-dial takes over every field that dialing uses, the session block, the
/// resource claims and the identity posture of the new manifest, and keeps the
/// name, the tools and the modes.
pub proof fn a_redial_advances_every_committed_field(manifest: Manifest, new: Manifest)
    ensures
        ({
            let held = advanced(manifest, new);
            &&& held.transport == new.transport
            &&& held.protocol == new.protocol
            &&& held.url == new.url
            &&& held.command == new.command
            &&& held.auth == new.auth
            &&& held.mtls == new.mtls
            &&& held.session == new.session
            &&& held.resources == new.resources
            &&& held.exchange == new.exchange
            &&& held.tier_a_required == new.tier_a_required
            &&& held.tier_c_peer == new.tier_c_peer
            &&& held.name == manifest.name
            &&& held.tools == manifest.tools
            &&& held.classification_mode == manifest.classification_mode
            &&& held.approval_mode == manifest.approval_mode
        }),
{
}

/// After a re-dial every lane holds the session that was dialed for it, with the
/// new publication, and a lane whose dial failed holds none.
pub proof fn a_redial_replaces_every_lane(dialed: Lanes, published: Seq<Descriptor>, k: int)
    requires
        0 <= k < dialed.len(),
    ensures
        redialed_lanes(dialed, published).len() == dialed.len(),
        dialed[k] is None ==> redialed_lanes(dialed, published)[k] is None,
        dialed[k] is Some ==> redialed_lanes(dialed, published)[k] == Some(
            crate::lane::LaneModel { tools: published, ..dialed[k]->0 },
        ),
{
}

/// A tool that drifted is quarantined where the threshold covers its declared
/// side effects or its declared risk, and what was quarantined stays so.
pub proof fn observed_drift_quarantines(
    before: UpstreamEntry,
    after: UpstreamEntry,
    listing: Seq<Descriptor>,
    threshold: QuarantineThreshold,
    drift: Seq<crate::drift::Drift>,
    i: int,
    k: int,
)
    requires
        observed_drift(before, after, listing, threshold, drift),
        crate::tools::names_distinct(listing),
        0 <= i < listing.len(),
        0 <= k < before.manifest.deep_view().tools.len(),
        before.manifest.deep_view().tools[k].name == listing[i].name,
        forall|j: int|
            0 <= j < k ==> (#[trigger] before.manifest.deep_view().tools[j]).name
                != listing[i].name,
        baseline_of(before.observed_schemas@).contains_key(listing[i].name),
        baseline_of(before.observed_schemas@)[listing[i].name] != (if before.manifest.classification_mode
            == ClassificationMode::Manifest {
            listing[i].schema_hash
        } else {
            listing[i].behavior_hash
        }),
    ensures
        ({
            let declared = before.manifest.deep_view().tools[k];
            let quarantined = after.quarantined.deep_view().contains(listing[i].name);
            &&& threshold == QuarantineThreshold::All ==> quarantined
            &&& threshold != QuarantineThreshold::Off && (declared.side_effects
                || before.manifest.classification_mode == ClassificationMode::McpAnnotations
                || declared.risk == RiskTier::High) ==> quarantined
            &&& threshold == QuarantineThreshold::Medium && declared.risk == RiskTier::Medium
                ==> quarantined
        }),
        forall|tool: Seq<char>|
            before.quarantined.deep_view().contains(tool)
                ==> #[trigger] after.quarantined.deep_view().contains(tool),
        baseline_of(after.observed_schemas@).contains_key(listing[i].name),
        baseline_of(after.observed_schemas@)[listing[i].name] == (if before.manifest.classification_mode
            == ClassificationMode::Manifest {
            listing[i].schema_hash
        } else {
            listing[i].behavior_hash
        }),
{
    let manifest = before.manifest.deep_view();
    let baseline = baseline_of(before.observed_schemas@);
    crate::drift::drift_quarantines_by_risk_or_side_effects(
        baseline,
        listing,
        manifest.tools,
        manifest.classification_mode,
        threshold,
        i,
        k,
    );
    assert forall|j: int| i < j < listing.len() implies (#[trigger] listing[j]).name
        != listing[i].name by {
        assert(listing[i].name != listing[j].name);
    }
    crate::drift::baseline_holds_the_last_listing(
        baseline,
        listing,
        manifest.classification_mode,
        listing[i].name,
        i,
    );
}

/// A tool that did not drift is quarantined after an observation exactly where
/// it was before.
pub proof fn steady_tools_keep_their_standing(
    before: UpstreamEntry,
    after: UpstreamEntry,
    listing: Seq<Descriptor>,
    threshold: QuarantineThreshold,
    drift: Seq<crate::drift::Drift>,
    name: Seq<char>,
)
    requires
        observed_drift(before, after, listing, threshold, drift),
        crate::tools::names_distinct(listing),
        forall|i: int|
            0 <= i < listing.len() && (#[trigger] listing[i]).name == name && baseline_of(
                before.observed_schemas@,
            ).contains_key(name) ==> baseline_of(before.observed_schemas@)[name] == (
            if before.manifest.classification_mode == ClassificationMode::Manifest {
                listing[i].schema_hash
            } else {
                listing[i].behavior_hash
            }),
    ensures
        after.quarantined.deep_view().contains(name) <==> before.quarantined.deep_view().contains(
            name,
        ),
        forall|r: int| 0 <= r < drift.len() ==> (#[trigger] drift[r]).tool != name,
{
    let manifest = before.manifest.deep_view();
    crate::drift::steady_tools_are_not_quarantined(
        baseline_of(before.observed_schemas@),
        listing,
        manifest.tools,
        manifest.classification_mode,
        threshold,
        name,
    );
    crate::drift::drifted_tools_are_reported(
        baseline_of(before.observed_schemas@),
        listing,
        manifest.tools,
        manifest.classification_mode,
        threshold,
        name,
    );
}

/// A drift quarantines something exactly where one of its reports says so.
pub proof fn one_quarantined_report_counts(
    drift: Seq<crate::drift::Drift>,
    next: crate::drift::Drift,
)
    ensures
        !some_quarantined(Seq::empty()),
        some_quarantined(drift.push(next)) <==> some_quarantined(drift) || next.quarantined,
{
    let all = drift.push(next);
    if some_quarantined(drift) {
        let i = choose|i: int| 0 <= i < drift.len() && (#[trigger] drift[i]).quarantined;
        assert(all[i].quarantined);
    }
    assert(all[drift.len() as int] == next);
    if some_quarantined(all) {
        let i = choose|i: int| 0 <= i < all.len() && (#[trigger] all[i]).quarantined;
        if i < drift.len() {
            assert(drift[i].quarantined);
        }
    }
}

/// A re-dial publishes under the label of what asked for it, and a failure is
/// told by its class.
pub proof fn redials_are_labelled_by_their_source(failure: RedialFailure)
    ensures
        RedialSource::ConnectionShape.spec_publish_label() == "redial"@,
        RedialSource::CatalogRefresh.spec_publish_label() == "catalog_refresh"@,
        failure_class(Some(&failure)) == Some(failure.class),
        failure_class(None) is None,
        CatalogRefreshOutcome::Updated.spec_as_str() == "updated"@,
        CatalogRefreshOutcome::Unchanged.spec_as_str() == "unchanged"@,
        CatalogRefreshOutcome::Failed.spec_as_str() == "failed"@,
        CatalogRefreshOutcome::Superseded.spec_as_str() == "superseded"@,
        CatalogRefreshOutcome::Removed.spec_as_str() == "removed"@,
{
}

} // verus!
