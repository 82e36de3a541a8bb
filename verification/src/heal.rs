//! Bringing the lanes of an upstream back after failures.
//!
//! With the breaker closed only the lanes that are down are dialed. An open
//! breaker presumes every session dead, so then all lanes are dialed and
//! replaced.

use vstd::prelude::*;

use crate::admission::{partition_live_tools, published_subset};
use crate::clock::{Instant, WallTime};
use crate::drift::{DriftReport, QuarantineThreshold};
use crate::entry::UpstreamEntry;
use crate::health::{UpstreamErrorClass, UpstreamRecovery};
use crate::lane::{
    connected_count, count_connected, lanes_agree, swap_lane, synchronize_reconnect_catalogs,
    with_published, BreakerState, Connection, LaneModel, Lanes,
};
use crate::manifest::UpstreamManifest;
use crate::reconnect::{CredentialMaterialVersion, ReconnectFailure, ReconnectState};
use crate::redial::{
    any_quarantined, collect_published, live_catalogs, observe_session, observed_drift,
    published_now, some_quarantined, Publication, RedialFailure,
};
use crate::shape::redial_committed_fields_eq;
use crate::text::join2;
use crate::tools::{
    common_catalog, common_tool_catalog, descriptors_by_name, tool_catalogs_equal, Descriptor, Tool,
};

verus! {

/// Which lanes an attempt dials.
pub fn lanes_to_dial(lanes: &Vec<Option<Connection>>, breaker_open: bool) -> (r: Vec<bool>)
    ensures
        r.len() == lanes.len(),
        forall|k: int|
            0 <= k < r.len() ==> (#[trigger] r@[k]) == (breaker_open || lanes@[k] is None),
{
    let mut out: Vec<bool> = Vec::new();
    let mut k: usize = 0;
    while k < lanes.len()
        invariant
            k <= lanes.len(),
            out.len() == k,
            forall|j: int|
                0 <= j < k ==> (#[trigger] out@[j]) == (breaker_open || lanes@[j] is None),
        decreases lanes.len() - k,
    {
        out.push(breaker_open || lanes[k].is_none());
        k = k + 1;
    }
    out
}

/// The last failure among the dials that were made.
pub open spec fn last_dial_failure(
    results: Seq<Option<Result<Connection, RedialFailure>>>,
) -> Option<RedialFailure>
    decreases results.len(),
{
    if results.len() == 0 {
        None
    } else {
        match results.last() {
            Some(Err(failure)) => Some(failure),
            _ => last_dial_failure(results.drop_last()),
        }
    }
}

/// Sort the settled dials of an attempt into sessions, lane by lane, and the last
/// failure. A lane that was not dialed has neither.
pub fn collect_attempt(results: Vec<Option<Result<Connection, RedialFailure>>>) -> (r: (
    Vec<Option<Connection>>,
    Option<RedialFailure>,
))
    ensures
        r.0.len() == results.len(),
        forall|k: int|
            0 <= k < results.len() ==> (#[trigger] r.0@[k]) == match results@[k] {
                Some(Ok(conn)) => Some(conn),
                _ => None,
            },
        r.1 == last_dial_failure(results@),
{
    let mut dialed: Vec<Option<Connection>> = Vec::new();
    let mut last: Option<RedialFailure> = None;
    let ghost all = results@;
    proof {
        assert(all.take(0) =~= Seq::empty());
    }
    for result in it: results.into_iter()
        invariant
            it.seq() == all,
            dialed.len() == it.index(),
            forall|k: int|
                0 <= k < it.index() ==> (#[trigger] dialed@[k]) == match all[k] {
                    Some(Ok(conn)) => Some(conn),
                    _ => None,
                },
            last == last_dial_failure(all.take(it.index() as int)),
    {
        proof {
            let next = all.take(it.index() + 1);
            assert(next.drop_last() =~= all.take(it.index() as int));
            assert(next.last() == all[it.index() as int]);
        }
        match result {
            Some(Ok(conn)) => {
                dialed.push(Some(conn));
            },
            Some(Err(failure)) => {
                last = Some(failure);
                dialed.push(None);
            },
            None => {
                dialed.push(None);
            },
        }
    }
    proof {
        assert(all.take(all.len() as int) =~= all);
    }
    (dialed, last)
}

/// The failure of an attempt whose inventory the search index refused.
pub fn publication_refused(detail: &str) -> (r: RedialFailure)
    ensures
        r.class == UpstreamErrorClass::Catalog,
        r.detail@ == "search index publish failed: "@ + detail@,
{
    RedialFailure {
        class: UpstreamErrorClass::Catalog,
        detail: join2("search index publish failed: ", detail),
    }
}

/// Whether an attempt may commit.
#[derive(Clone, Copy, Debug, PartialEq, Eq, Structural)]
pub enum HealGate {
    /// The entry left the registry or was replaced: drop the dials and the
    /// claim without touching the successor's schedule.
    Discard,
    /// The connection shape moved on: drop the dials and re-arm the claim.
    Rearm,
    Proceed,
}

pub fn heal_gate(entry: &UpstreamEntry, is_current: bool, dialed_from: &UpstreamManifest) -> (r: HealGate)
    ensures
        r == if !is_current || entry.removed {
            HealGate::Discard
        } else if entry.manifest.deep_view().committed() != dialed_from.deep_view().committed() {
            HealGate::Rearm
        } else {
            HealGate::Proceed
        },
{
    if !is_current || entry.removed {
        HealGate::Discard
    } else if !redial_committed_fields_eq(&entry.manifest, dialed_from) {
        HealGate::Rearm
    } else {
        HealGate::Proceed
    }
}

/// Whether the session dialed for a lane goes into service: it was wanted, it
/// was made, and the lane is still down or presumed dead. A lane that proved
/// healthy while the dials were in flight is left alone.
pub open spec fn installs(
    wanted: bool,
    dialed: Option<LaneModel>,
    lane: Option<LaneModel>,
    breaker_open: bool,
) -> bool {
    wanted && dialed is Some && (breaker_open || lane is None)
}

pub open spec fn spec_installable(
    lanes: Lanes,
    wanted: Seq<bool>,
    dialed: Lanes,
    breaker_open: bool,
) -> Seq<bool> {
    Seq::new(lanes.len(), |k: int| installs(wanted[k], dialed[k], lanes[k], breaker_open))
}

/// Which of the dialed sessions go into service.
pub fn installable(
    lanes: &Vec<Option<Connection>>,
    wanted: &Vec<bool>,
    dialed: &Vec<Option<Connection>>,
    breaker_open: bool,
) -> (r: Vec<bool>)
    requires
        wanted.len() == lanes.len(),
        dialed.len() == lanes.len(),
    ensures
        r@ == spec_installable(lanes.deep_view(), wanted@, dialed.deep_view(), breaker_open),
{
    let mut out: Vec<bool> = Vec::new();
    let mut k: usize = 0;
    while k < lanes.len()
        invariant
            k <= lanes.len(),
            wanted.len() == lanes.len(),
            dialed.len() == lanes.len(),
            out.len() == k,
            forall|j: int|
                0 <= j < k ==> (#[trigger] out@[j]) == installs(
                    wanted@[j],
                    dialed.deep_view()[j],
                    lanes.deep_view()[j],
                    breaker_open,
                ),
        decreases lanes.len() - k,
    {
        out.push(wanted[k] && dialed[k].is_some() && (breaker_open || lanes[k].is_none()));
        k = k + 1;
    }
    proof {
        assert(out@ =~= spec_installable(
            lanes.deep_view(),
            wanted@,
            dialed.deep_view(),
            breaker_open,
        ));
    }
    out
}

/// Number of sessions that go into service.
pub open spec fn install_count(install: Seq<bool>) -> nat
    decreases install.len(),
{
    if install.len() == 0 {
        0
    } else {
        install_count(install.drop_last()) + if install.last() {
            1nat
        } else {
            0nat
        }
    }
}

fn count_installs(install: &Vec<bool>) -> (n: usize)
    ensures
        n == install_count(install@),
        n <= install.len(),
{
    let mut n: usize = 0;
    let mut k: usize = 0;
    proof {
        assert(install@.take(0) =~= Seq::empty());
    }
    while k < install.len()
        invariant
            k <= install.len(),
            n <= k,
            n == install_count(install@.take(k as int)),
        decreases install.len() - k,
    {
        proof {
            let next = install@.take(k + 1);
            assert(next.drop_last() =~= install@.take(k as int));
            assert(next.last() == install@[k as int]);
        }
        if install[k] {
            n = n + 1;
        }
        k = k + 1;
    }
    proof {
        assert(install@.take(install.len() as int) =~= install@);
    }
    n
}

/// The sessions that serve once the attempt commits: the new ones, and the old
/// ones beside them unless the breaker presumes those dead.
pub open spec fn serving_lanes(
    lanes: Lanes,
    dialed: Lanes,
    install: Seq<bool>,
    breaker_open: bool,
) -> Lanes {
    Seq::new(
        lanes.len(),
        |k: int|
            if install[k] {
                dialed[k]
            } else if breaker_open {
                None
            } else {
                lanes[k]
            },
    )
}

fn collect_serving_catalogs<'a>(
    lanes: &'a Vec<Option<Connection>>,
    dialed: &'a Vec<Option<Connection>>,
    install: &Vec<bool>,
    breaker_open: bool,
) -> (r: Vec<&'a Vec<Tool>>)
    requires
        dialed.len() == lanes.len(),
        install.len() == lanes.len(),
    ensures
        r.deep_view() == live_catalogs(
            serving_lanes(lanes.deep_view(), dialed.deep_view(), install@, breaker_open),
        ),
{
    let ghost all = serving_lanes(lanes.deep_view(), dialed.deep_view(), install@, breaker_open);
    let mut out: Vec<&Vec<Tool>> = Vec::new();
    let mut k: usize = 0;
    proof {
        assert(all.take(0) =~= Seq::empty());
        assert(out.deep_view() =~= Seq::<Seq<Descriptor>>::empty());
    }
    while k < lanes.len()
        invariant
            k <= lanes.len(),
            dialed.len() == lanes.len(),
            install.len() == lanes.len(),
            all == serving_lanes(lanes.deep_view(), dialed.deep_view(), install@, breaker_open),
            out.deep_view() == live_catalogs(all.take(k as int)),
        decreases lanes.len() - k,
    {
        proof {
            let next = all.take(k + 1);
            assert(next.drop_last() =~= all.take(k as int));
            assert(next.last() == all[k as int]);
        }
        let ghost before = out.deep_view();
        if install[k] {
            if let Some(conn) = &dialed[k] {
                out.push(&conn.live_tools);
                proof {
                    assert(out.deep_view() =~= before.push(conn.live_tools.deep_view()));
                }
            }
        } else if !breaker_open {
            if let Some(conn) = &lanes[k] {
                out.push(&conn.live_tools);
                proof {
                    assert(out.deep_view() =~= before.push(conn.live_tools.deep_view()));
                }
            }
        }
        k = k + 1;
    }
    proof {
        assert(all.take(all.len() as int) =~= all);
    }
    out
}

/// What an attempt publishes, if it puts any session into service: the admitted
/// part of the catalog that all sessions serving afterwards share.
pub fn prepare_heal(
    entry: &UpstreamEntry,
    dialed: &Vec<Option<Connection>>,
    install: &Vec<bool>,
    breaker_open: bool,
) -> (r: Option<Publication>)
    requires
        dialed.len() == entry.lanes.len(),
        install.len() == entry.lanes.len(),
    ensures
        r is None <==> forall|k: int| 0 <= k < install.len() ==> !(#[trigger] install@[k]),
        r is Some ==> {
            let manifest = entry.manifest.deep_view();
            let publication = r->0;
            &&& publication.publish_index < install.len()
            &&& install@[publication.publish_index as int]
            &&& forall|k: int| 0 <= k < publication.publish_index ==> !(#[trigger] install@[k])
            &&& publication.common_live_tools.deep_view() == common_catalog(
                live_catalogs(
                    serving_lanes(
                        entry.lanes.deep_view(),
                        dialed.deep_view(),
                        install@,
                        breaker_open,
                    ),
                ),
                manifest.classification_mode,
            )
            &&& publication.published.deep_view() == published_subset(
                manifest.tools,
                manifest.classification_mode,
                publication.common_live_tools.deep_view(),
            )
            &&& publication.previous_tools.deep_view() == published_now(entry.lanes.deep_view())
        },
{
    let mut k: usize = 0;
    while k < install.len()
        invariant
            k <= install.len(),
            dialed.len() == entry.lanes.len(),
            install.len() == entry.lanes.len(),
            forall|j: int| 0 <= j < k ==> !(#[trigger] install@[j]),
        decreases install.len() - k,
    {
        if install[k] {
            let mode = entry.manifest.classification_mode;
            let catalogs = collect_serving_catalogs(&entry.lanes, dialed, install, breaker_open);
            let common_live_tools = common_tool_catalog(&catalogs, mode);
            let (published, _, _) = partition_live_tools(
                &entry.manifest.tools,
                mode,
                &common_live_tools,
            );
            return Some(
                Publication {
                    publish_index: k,
                    common_live_tools,
                    published,
                    previous_tools: collect_published(&entry.lanes),
                },
            );
        }
        k = k + 1;
    }
    None
}

/// What a commit did to the lanes.
pub struct HealInstall {
    pub healed: usize,
    /// The breaker was open when the attempt committed.
    pub breaker_open: bool,
    pub connected_after: usize,
    /// Tools published by the sessions that serve now.
    pub tool_count: usize,
    /// Revision of the recovery state at the moment of the commit.
    pub revision: u64,
    pub drift: Vec<DriftReport>,
    pub catalog_changed: bool,
}

/// A lane after the commit. With nothing published no session goes into
/// service. An open breaker takes every lane down that was dialed in vain.
pub open spec fn healed_lane(
    lane: Option<LaneModel>,
    dialed: Option<LaneModel>,
    wanted: bool,
    install: bool,
    breaker_open: bool,
    published: Option<Seq<Descriptor>>,
) -> Option<LaneModel> {
    match published {
        Some(tools) => if install {
            with_published(dialed, tools)
        } else if breaker_open {
            if wanted {
                None
            } else {
                lane
            }
        } else {
            with_published(lane, tools)
        },
        None => if breaker_open && wanted && !install {
            None
        } else {
            lane
        },
    }
}

pub open spec fn healed_lanes(
    lanes: Lanes,
    dialed: Lanes,
    wanted: Seq<bool>,
    install: Seq<bool>,
    breaker_open: bool,
    published: Option<Seq<Descriptor>>,
) -> Lanes {
    Seq::new(
        lanes.len(),
        |k: int|
            healed_lane(lanes[k], dialed[k], wanted[k], install[k], breaker_open, published),
    )
}

fn install_sessions(
    lanes: &mut Vec<Option<Connection>>,
    dialed: &mut Vec<Option<Connection>>,
    install: &Vec<bool>,
)
    requires
        old(dialed).len() == old(lanes).len(),
        install.len() == old(lanes).len(),
    ensures
        final(lanes).len() == old(lanes).len(),
        forall|k: int|
            0 <= k < final(lanes).len() ==> (#[trigger] final(lanes).deep_view()[k]) == if install@[k] {
                old(dialed).deep_view()[k]
            } else {
                old(lanes).deep_view()[k]
            },
{
    let ghost before = lanes.deep_view();
    let ghost fresh = dialed.deep_view();
    let mut k: usize = 0;
    while k < lanes.len()
        invariant
            k <= lanes.len(),
            lanes.len() == old(lanes).len(),
            dialed.len() == lanes.len(),
            install.len() == lanes.len(),
            before == old(lanes).deep_view(),
            fresh == old(dialed).deep_view(),
            forall|j: int|
                0 <= j < k ==> (#[trigger] lanes.deep_view()[j]) == if install@[j] {
                    fresh[j]
                } else {
                    before[j]
                },
            forall|j: int| k <= j < lanes.len() ==> (#[trigger] lanes.deep_view()[j]) == before[j],
            forall|j: int| k <= j < lanes.len() ==> (#[trigger] dialed.deep_view()[j]) == fresh[j],
        decreases lanes.len() - k,
    {
        if install[k] {
            let session = swap_lane(dialed, k, None);
            swap_lane(lanes, k, session);
        }
        k = k + 1;
    }
}

fn drop_dead_lanes(lanes: &mut Vec<Option<Connection>>, wanted: &Vec<bool>, install: &Vec<bool>)
    requires
        wanted.len() == old(lanes).len(),
        install.len() == old(lanes).len(),
    ensures
        final(lanes).len() == old(lanes).len(),
        forall|k: int|
            0 <= k < final(lanes).len() ==> (#[trigger] final(lanes).deep_view()[k]) == if wanted@[k]
                && !install@[k] {
                None
            } else {
                old(lanes).deep_view()[k]
            },
{
    let ghost before = lanes.deep_view();
    let mut k: usize = 0;
    while k < lanes.len()
        invariant
            k <= lanes.len(),
            lanes.len() == old(lanes).len(),
            wanted.len() == lanes.len(),
            install.len() == lanes.len(),
            before == old(lanes).deep_view(),
            forall|j: int|
                0 <= j < k ==> (#[trigger] lanes.deep_view()[j]) == if wanted@[j] && !install@[j] {
                    None
                } else {
                    before[j]
                },
            forall|j: int| k <= j < lanes.len() ==> (#[trigger] lanes.deep_view()[j]) == before[j],
        decreases lanes.len() - k,
    {
        if wanted[k] && !install[k] {
            swap_lane(lanes, k, None);
        }
        k = k + 1;
    }
}

/// Put the new sessions into service in one step. `publication` is what the
/// search index accepted; without it nothing goes into service. Once a session
/// does, the breaker is reset, so that no older failure keeps calls from it.
pub fn commit_heal(
    entry: &mut UpstreamEntry,
    dialed: Vec<Option<Connection>>,
    wanted: &Vec<bool>,
    install: &Vec<bool>,
    breaker_open: bool,
    publication: Option<&Publication>,
    threshold: QuarantineThreshold,
) -> (r: HealInstall)
    requires
        old(entry).wf(),
        dialed.len() == old(entry).lanes.len(),
        wanted.len() == old(entry).lanes.len(),
        install.len() == old(entry).lanes.len(),
        publication is Some ==> publication->0.publish_index < dialed.len()
            && dialed@[publication->0.publish_index as int] is Some,
    ensures
        final(entry).wf(),
        final(entry).lanes.deep_view() == healed_lanes(
            old(entry).lanes.deep_view(),
            dialed.deep_view(),
            wanted@,
            install@,
            breaker_open,
            match publication {
                Some(publication) => Some(publication.published.deep_view()),
                None => None,
            },
        ),
        r.healed == match publication {
            Some(_) => install_count(install@),
            None => 0,
        },
        r.breaker_open == breaker_open,
        r.connected_after == connected_count(final(entry).lanes.deep_view()),
        r.tool_count == match publication {
            Some(publication) => publication.published.len() as nat,
            None => published_now(old(entry).lanes.deep_view()).len(),
        },
        r.revision == old(entry).reconnect.revision,
        match publication {
            Some(publication) => {
                &&& observed_drift(
                    *old(entry),
                    *final(entry),
                    dialed@[publication.publish_index as int]->0.live_tools.deep_view(),
                    threshold,
                    r.drift.deep_view(),
                )
                &&& r.catalog_changed == (descriptors_by_name(publication.published.deep_view())
                    != descriptors_by_name(publication.previous_tools.deep_view())
                    || some_quarantined(r.drift.deep_view()))
            },
            None => {
                &&& r.drift.len() == 0
                &&& !r.catalog_changed
                &&& final(entry).quarantined == old(entry).quarantined
                &&& final(entry).observed_schemas == old(entry).observed_schemas
            },
        },
        final(entry).manifest == old(entry).manifest,
        final(entry).reconnect == old(entry).reconnect,
        final(entry).recovery == old(entry).recovery,
        final(entry).id == old(entry).id,
        final(entry).removed == old(entry).removed,
        final(entry).forwards_identity == old(entry).forwards_identity,
        final(entry).breaker == if r.healed > 0 {
            BreakerState::Closed
        } else {
            old(entry).breaker
        },
        final(entry).last_reload_gen == old(entry).last_reload_gen,
{
    let mut sessions = dialed;
    let ghost before = entry.lanes.deep_view();
    let ghost fresh = sessions.deep_view();
    let mut healed: usize = 0;
    let mut tool_count: usize = 0;
    let mut drift: Vec<DriftReport> = Vec::new();
    let mut catalog_changed = false;
    let revision: u64 = entry.reconnect.revision();
    match publication {
        Some(publication) => {
            drift = observe_session(entry, &sessions, publication.publish_index, threshold);
            catalog_changed = !tool_catalogs_equal(
                &publication.published,
                &publication.previous_tools,
            ) || any_quarantined(&drift);
            tool_count = publication.published.len();
            healed = count_installs(install);
            synchronize_reconnect_catalogs(
                breaker_open,
                &mut entry.lanes,
                &mut sessions,
                install,
                &publication.published,
            );
            install_sessions(&mut entry.lanes, &mut sessions, install);
        },
        None => {
            let shown = collect_published(&entry.lanes);
            tool_count = shown.len();
            proof {
                assert(shown.deep_view().len() == shown.len());
            }
        },
    }
    if breaker_open {
        drop_dead_lanes(&mut entry.lanes, wanted, install);
    }
    proof {
        let published = match publication {
            Some(publication) => Some(publication.published.deep_view()),
            None => None,
        };
        assert(entry.lanes.deep_view() =~= healed_lanes(
            before,
            fresh,
            wanted@,
            install@,
            breaker_open,
            published,
        ));
    }
    if healed > 0 {
        entry.breaker = BreakerState::Closed;
    }
    let connected_after: usize = count_connected(&entry.lanes);
    HealInstall {
        healed,
        breaker_open,
        connected_after,
        tool_count,
        revision,
        drift,
        catalog_changed,
    }
}

/// How an attempt ended.
#[derive(Clone, Copy, Debug, PartialEq, Eq, Structural)]
pub enum HealOutcome {
    /// The entry was retired or replaced meanwhile; its claim is dropped.
    Retired,
    /// Sessions went into service after this many failed attempts.
    Reconnected { failed_attempts: u64 },
    /// A call on the half-open breaker restored service; the dials count for
    /// nothing.
    ProbeRecovered,
    /// The attempt failed.
    Failed { class: UpstreamErrorClass, failure: ReconnectFailure },
    /// A newer transition owns the recovery state.
    Stale,
    /// Every lane was healthy by itself; there is nothing to report.
    Nothing,
}

/// Settle an attempt on the state sampled when its lanes were installed. An
/// outcome is applied only while no newer transition has moved that state. A
/// breaker that was open when the attempt began and no longer was when it
/// committed had been closed by a call meanwhile.
pub fn settle_heal(
    entry: &mut UpstreamEntry,
    is_current: bool,
    install: &HealInstall,
    claim: Option<u64>,
    breaker_open_at_start: bool,
    breaker_open_now: bool,
    last_failure: Option<UpstreamErrorClass>,
    credential_version: CredentialMaterialVersion,
    now: Instant,
    wall: WallTime,
) -> (outcome: HealOutcome)
    requires
        old(entry).wf(),
    ensures
        final(entry).wf(),
        final(entry).same_but_recovery(*old(entry)),
        ({
            let before = old(entry).reconnect;
            let with_version = ReconnectState { credential_version, ..before };
            let lanes_missing = install.connected_after < old(entry).lanes.len();
            let fresh = before.revision == install.revision;
            let probed = breaker_open_at_start && !install.breaker_open;
            if old(entry).removed || !is_current {
                &&& outcome == HealOutcome::Retired
                &&& final(entry).reconnect == if claim is Some && before.active_claim == claim {
                    before.cleared()
                } else {
                    before
                }
                &&& final(entry).recovery == old(entry).recovery
            } else if install.healed > 0 {
                &&& outcome == if fresh {
                    HealOutcome::Reconnected { failed_attempts: before.episode_attempts }
                } else {
                    HealOutcome::Stale
                }
                &&& final(entry).reconnect == if fresh {
                    with_version.restarted(lanes_missing, now, wall)
                } else {
                    before
                }
                &&& final(entry).recovery == if fresh {
                    old(entry).recovery.reconnected(
                        install.connected_after,
                        old(entry).lanes.len(),
                        last_failure,
                        wall,
                    )
                } else {
                    old(entry).recovery
                }
            } else if probed && !breaker_open_now {
                &&& outcome == if fresh {
                    HealOutcome::ProbeRecovered
                } else {
                    HealOutcome::Stale
                }
                &&& final(entry).reconnect == if fresh {
                    with_version.restarted(lanes_missing, now, wall)
                } else {
                    before
                }
                &&& final(entry).recovery == old(entry).recovery
            } else if last_failure is Some {
                &&& fresh ==> outcome == (HealOutcome::Failed {
                    class: last_failure->0,
                    failure: ReconnectFailure {
                        episode_started: before.episode_attempts == 0,
                        episode_attempt: final(entry).reconnect.episode_attempts,
                        backoff: final(entry).reconnect.current_backoff->0,
                    },
                })
                &&& !fresh ==> outcome == HealOutcome::Stale
                &&& final(entry).reconnect == if fresh {
                    with_version.failed(now, wall)
                } else {
                    before
                }
                &&& final(entry).recovery == if fresh {
                    UpstreamRecovery { last_error_class: last_failure, ..old(entry).recovery }
                } else {
                    old(entry).recovery
                }
            } else {
                &&& outcome == HealOutcome::Nothing
                &&& final(entry).reconnect == if claim is None || before.active_claim != claim {
                    before
                } else if lanes_missing || breaker_open_now {
                    before.cleared().scheduled(before.policy.base, now, wall)
                } else {
                    before.cleared()
                }
                &&& final(entry).recovery == old(entry).recovery
            }
        }),
{
    let total: usize = entry.lanes.len();
    let lanes_missing = install.connected_after < total;
    if entry.removed || !is_current {
        if let Some(claim) = claim {
            entry.reconnect.release_claim(claim, false, now, wall);
        }
        return HealOutcome::Retired;
    }
    if install.healed > 0 {
        let failed_attempts: u64 = entry.reconnect.episode_attempts();
        if !entry.reconnect.record_success_if_revision(
            install.revision,
            lanes_missing,
            credential_version,
            now,
            wall,
        ) {
            return HealOutcome::Stale;
        }
        entry.recovery.record_reconnect(install.connected_after, total, last_failure, wall);
        return HealOutcome::Reconnected { failed_attempts };
    }
    if breaker_open_at_start && !install.breaker_open && !breaker_open_now {
        if !entry.reconnect.record_success_if_revision(
            install.revision,
            lanes_missing,
            credential_version,
            now,
            wall,
        ) {
            return HealOutcome::Stale;
        }
        return HealOutcome::ProbeRecovered;
    }
    if let Some(class) = last_failure {
        match entry.reconnect.record_failure_if_revision(
            install.revision,
            credential_version,
            now,
            wall,
        ) {
            Some(failure) => {
                entry.recovery.record_failure(class);
                return HealOutcome::Failed { class, failure };
            },
            None => return HealOutcome::Stale,
        }
    }
    if let Some(claim) = claim {
        entry.reconnect.release_claim(claim, lanes_missing || breaker_open_now, now, wall);
    }
    HealOutcome::Nothing
}

/// Settle an attempt that found every lane up and the breaker closed: nothing
/// was dialed, and the episode is over.
pub fn settle_nothing_to_dial(
    entry: &mut UpstreamEntry,
    is_current: bool,
    claim: Option<u64>,
    credential_version: CredentialMaterialVersion,
    now: Instant,
    wall: WallTime,
) -> (settled: bool)
    requires
        old(entry).wf(),
    ensures
        final(entry).wf(),
        final(entry).same_but_recovery(*old(entry)),
        final(entry).recovery == old(entry).recovery,
        settled == (is_current && !old(entry).removed),
        final(entry).reconnect == if settled {
            (ReconnectState { credential_version, ..old(entry).reconnect }).restarted(
                false,
                now,
                wall,
            )
        } else if claim is Some && old(entry).reconnect.active_claim == claim {
            old(entry).reconnect.cleared()
        } else {
            old(entry).reconnect
        },
{
    if entry.removed || !is_current {
        if let Some(claim) = claim {
            entry.reconnect.release_claim(claim, false, now, wall);
        }
        return false;
    }
    entry.reconnect.update_credential_version(credential_version);
    entry.reconnect.record_success_at(false, now, wall);
    true
}

/// Prepare an attempt that a reload asked for. A rotated credential starts a
/// fresh episode; an unchanged one keeps the episode and its backoff.
pub fn arm_for_reload(
    entry: &mut UpstreamEntry,
    credential_version: CredentialMaterialVersion,
    now: Instant,
    wall: WallTime,
) -> (rotated: bool)
    requires
        old(entry).wf(),
    ensures
        final(entry).wf(),
        final(entry).same_but_recovery(*old(entry)),
        final(entry).recovery == old(entry).recovery,
        rotated == (old(entry).reconnect.credential_version != credential_version),
        final(entry).reconnect == if rotated {
            (ReconnectState { credential_version, ..old(entry).reconnect }).restarted(
                true,
                now,
                wall,
            )
        } else {
            old(entry).reconnect.observed(now, wall)
        },
{
    if entry.reconnect.update_credential_version(credential_version) {
        entry.reconnect.reset_for_operator_at(now, wall);
        true
    } else {
        entry.reconnect.observe_runtime_failure_at(now, wall);
        false
    }
}

/// With the breaker closed a heal only adds: every session in service before
/// stays, and with something published all connected lanes publish the same.
pub proof fn heal_keeps_healthy_sessions(
    lanes: Lanes,
    dialed: Lanes,
    wanted: Seq<bool>,
    published: Option<Seq<Descriptor>>,
    k: int,
)
    requires
        dialed.len() == lanes.len(),
        wanted.len() == lanes.len(),
        0 <= k < lanes.len(),
        lanes[k] is Some,
    ensures
        ({
            let after = healed_lanes(
                lanes,
                dialed,
                wanted,
                spec_installable(lanes, wanted, dialed, false),
                false,
                published,
            );
            &&& after[k] is Some
            &&& after[k]->0.session == lanes[k]->0.session
            &&& after[k]->0.live_tools == lanes[k]->0.live_tools
        }),
{
}

/// Once something was published, all lanes that serve agree on the catalog,
/// and with the breaker open no session from before the dials is left.
pub proof fn heal_publishes_one_catalog(
    lanes: Lanes,
    dialed: Lanes,
    published: Seq<Descriptor>,
    breaker_open: bool,
)
    requires
        dialed.len() == lanes.len(),
    ensures
        ({
            let wanted = Seq::new(lanes.len(), |k: int| breaker_open || lanes[k] is None);
            let install = spec_installable(lanes, wanted, dialed, breaker_open);
            let after = healed_lanes(lanes, dialed, wanted, install, breaker_open, Some(published));
            &&& lanes_agree(after)
            &&& forall|k: int|
                0 <= k < lanes.len() && (#[trigger] after[k]) is Some ==> after[k]->0.tools
                    == published
            &&& breaker_open ==> forall|k: int|
                0 <= k < lanes.len() && (#[trigger] after[k]) is Some ==> dialed[k] is Some
                    && after[k]->0.session == dialed[k]->0.session
        }),
{
    let wanted = Seq::new(lanes.len(), |k: int| breaker_open || lanes[k] is None);
    let install = spec_installable(lanes, wanted, dialed, breaker_open);
    let after = healed_lanes(lanes, dialed, wanted, install, breaker_open, Some(published));
    assert forall|k: int| 0 <= k < lanes.len() && (#[trigger] after[k]) is Some implies after[k]->0.tools
        == published && (breaker_open ==> dialed[k] is Some && after[k]->0.session
        == dialed[k]->0.session) by {
        assert(after[k] == healed_lane(
            lanes[k],
            dialed[k],
            wanted[k],
            install[k],
            breaker_open,
            Some(published),
        ));
    }
}

/// The failure of an attempt is the one of the last lane whose dial failed.
pub proof fn the_last_failed_lane_is_told(
    results: Seq<Option<Result<Connection, RedialFailure>>>,
    k: int,
)
    requires
        -1 <= k < results.len(),
        forall|j: int|
            k < j < results.len() ==> (#[trigger] results[j]) is None || results[j]->0 is Ok,
        0 <= k ==> results[k] is Some && results[k]->0 is Err,
    ensures
        k < 0 ==> last_dial_failure(results) is None,
        0 <= k ==> last_dial_failure(results) == Some(results[k]->0->Err_0),
    decreases results.len(),
{
    if results.len() > 0 && k < results.len() - 1 {
        let front = results.drop_last();
        let last = results[results.len() - 1];
        assert(last is None || last->0 is Ok);
        assert forall|j: int| k < j < front.len() implies (#[trigger] front[j]) is None
            || front[j]->0 is Ok by {
            assert(results[j] is None || results[j]->0 is Ok);
        }
        the_last_failed_lane_is_told(front, k);
    }
}

/// A dialed session is put in place where it was asked for and its lane is still
/// without one, or the breaker is open; it is put in place nowhere else.
pub proof fn dialed_sessions_fill_empty_lanes(
    lanes: Lanes,
    wanted: Seq<bool>,
    dialed: Lanes,
    breaker_open: bool,
    k: int,
)
    requires
        0 <= k < lanes.len(),
        wanted.len() == lanes.len(),
        dialed.len() == lanes.len(),
    ensures
        spec_installable(lanes, wanted, dialed, breaker_open).len() == lanes.len(),
        wanted[k] && dialed[k] is Some && lanes[k] is None ==> spec_installable(
            lanes,
            wanted,
            dialed,
            breaker_open,
        )[k],
        wanted[k] && dialed[k] is Some && breaker_open ==> spec_installable(
            lanes,
            wanted,
            dialed,
            breaker_open,
        )[k],
        !wanted[k] || dialed[k] is None || (lanes[k] is Some && !breaker_open)
            ==> !spec_installable(lanes, wanted, dialed, breaker_open)[k],
{
}

/// Each session put in place counts once.
pub proof fn installs_count_once(install: Seq<bool>)
    ensures
        install_count(Seq::empty()) == 0,
        install_count(install.push(true)) == install_count(install) + 1,
        install_count(install.push(false)) == install_count(install),
{
    assert(install.push(true).drop_last() =~= install);
    assert(install.push(false).drop_last() =~= install);
}

/// The lanes that will serve are those put in place and, unless the breaker is
/// open, those that were connected already.
pub proof fn serving_lanes_are_old_and_new(
    lanes: Lanes,
    dialed: Lanes,
    install: Seq<bool>,
    k: int,
)
    requires
        0 <= k < lanes.len(),
        install.len() == lanes.len(),
        dialed.len() == lanes.len(),
    ensures
        forall|breaker_open: bool|
            (#[trigger] serving_lanes(lanes, dialed, install, breaker_open)).len() == lanes.len()
                && (install[k] ==> serving_lanes(lanes, dialed, install, breaker_open)[k]
                == dialed[k]),
        !install[k] ==> serving_lanes(lanes, dialed, install, true)[k] is None,
        !install[k] ==> serving_lanes(lanes, dialed, install, false)[k] == lanes[k],
{
}

/// After a heal that publishes, a lane holds the session put in place, with the
/// new publication; a lane left alone keeps its session with the new
/// publication where the breaker is closed, and where it is open is down if it
/// was to be dialed and as it was if not.
pub proof fn a_heal_puts_its_sessions_in_place(
    lanes: Lanes,
    dialed: Lanes,
    wanted: Seq<bool>,
    install: Seq<bool>,
    published: Seq<Descriptor>,
    k: int,
)
    requires
        0 <= k < lanes.len(),
        wanted.len() == lanes.len(),
        install.len() == lanes.len(),
        dialed.len() == lanes.len(),
    ensures
        forall|breaker_open: bool|
            install[k] && dialed[k] is Some ==> {
                let lane = #[trigger] healed_lanes(
                    lanes,
                    dialed,
                    wanted,
                    install,
                    breaker_open,
                    Some(published),
                )[k];
                lane == Some(LaneModel { tools: published, ..dialed[k]->0 })
            },
        !install[k] && lanes[k] is Some ==> healed_lanes(
            lanes,
            dialed,
            wanted,
            install,
            false,
            Some(published),
        )[k] == Some(LaneModel { tools: published, ..lanes[k]->0 }),
        !install[k] && lanes[k] is None ==> healed_lanes(
            lanes,
            dialed,
            wanted,
            install,
            false,
            Some(published),
        )[k] is None,
        !install[k] && wanted[k] ==> healed_lanes(
            lanes,
            dialed,
            wanted,
            install,
            true,
            Some(published),
        )[k] is None,
        !install[k] && !wanted[k] ==> healed_lanes(
            lanes,
            dialed,
            wanted,
            install,
            true,
            Some(published),
        )[k] == lanes[k],
{
}

/// A heal that publishes nothing puts no session in place: it takes down, where
/// the breaker is open, the lanes that were to be dialed and were not, and leaves
/// every other lane as it was.
pub proof fn a_heal_without_publication_installs_nothing(
    lanes: Lanes,
    dialed: Lanes,
    wanted: Seq<bool>,
    install: Seq<bool>,
    k: int,
)
    requires
        0 <= k < lanes.len(),
        wanted.len() == lanes.len(),
        install.len() == lanes.len(),
        dialed.len() == lanes.len(),
    ensures
        healed_lanes(lanes, dialed, wanted, install, false, None)[k] == lanes[k],
        wanted[k] && !install[k] ==> healed_lanes(lanes, dialed, wanted, install, true, None)[k]
            is None,
        !wanted[k] || install[k] ==> healed_lanes(lanes, dialed, wanted, install, true, None)[k]
            == lanes[k],
{
}

} // verus!
