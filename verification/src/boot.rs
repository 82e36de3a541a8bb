//! Building an upstream entry and choosing among its lanes.

use vstd::prelude::*;

use crate::assoc::Assoc;
use crate::clock::{Instant, WallTime};
use crate::drift::{
    baseline_after, baseline_of, drift_in, quarantines, record_observed_schemas_against,
    DriftReport, QuarantineThreshold,
};
use crate::entry::UpstreamEntry;
use crate::health::{DialError, UpstreamErrorClass, UpstreamRecovery};
use crate::lane::{
    connected_count, count_connected, find_connected, first_connected, lanes_agree,
    synchronize_published_catalogs, with_published, BreakerState, Connection, Lanes,
};
use crate::manifest::{Transport, UpstreamManifest};
use crate::reconnect::{CredentialMaterialVersion, ReconnectPolicy, ReconnectState};
use crate::redial::Publication;
use crate::tools::Descriptor;
use crate::value::Value;
use vstd::utf8::encode_utf8;

verus! {

/// Which lane a call takes.
#[derive(Clone, Copy, Debug, PartialEq, Eq, Structural)]
pub enum Checkout {
    /// This lane is free.
    Take(usize),
    /// Every lane is busy; queue for this one.
    WaitFor(usize),
}

/// A lane is free and connected.
pub open spec fn ready(lanes: Lanes, busy: Seq<bool>, k: int) -> bool {
    !busy[k] && lanes[k] is Some
}

/// Choose a lane: the first that is free and connected, else the first that is
/// free, else the first of all, to wait for.
pub fn choose_lane(lanes: &Vec<Option<Connection>>, busy: &Vec<bool>) -> (r: Checkout)
    requires
        lanes.len() >= 1,
        busy.len() == lanes.len(),
    ensures
        match r {
            Checkout::Take(k) => {
                &&& k < lanes.len()
                &&& !busy@[k as int]
                &&& lanes@[k as int] is Some ==> forall|j: int|
                    0 <= j < k ==> !#[trigger] ready(lanes.deep_view(), busy@, j)
                &&& lanes@[k as int] is None ==> {
                    &&& forall|j: int|
                        0 <= j < lanes.len() ==> !#[trigger] ready(lanes.deep_view(), busy@, j)
                    &&& forall|j: int| 0 <= j < k ==> #[trigger] busy@[j]
                }
            },
            Checkout::WaitFor(k) => k == 0 && forall|j: int|
                0 <= j < busy.len() ==> #[trigger] busy@[j],
        },
{
    let mut k: usize = 0;
    while k < lanes.len()
        invariant
            k <= lanes.len(),
            busy.len() == lanes.len(),
            forall|j: int| 0 <= j < k ==> !#[trigger] ready(lanes.deep_view(), busy@, j),
        decreases lanes.len() - k,
    {
        if !busy[k] && lanes[k].is_some() {
            return Checkout::Take(k);
        }
        proof {
            assert(lanes.deep_view()[k as int] is Some <==> lanes@[k as int] is Some);
        }
        k = k + 1;
    }
    let mut f: usize = 0;
    while f < lanes.len()
        invariant
            f <= lanes.len(),
            busy.len() == lanes.len(),
            forall|j: int| 0 <= j < lanes.len() ==> !#[trigger] ready(lanes.deep_view(), busy@, j),
            forall|j: int| 0 <= j < f ==> #[trigger] busy@[j],
        decreases lanes.len() - f,
    {
        if !busy[f] {
            proof {
                assert(!ready(lanes.deep_view(), busy@, f as int));
                assert(lanes.deep_view()[f as int] is Some <==> lanes@[f as int] is Some);
            }
            return Checkout::Take(f);
        }
        f = f + 1;
    }
    Checkout::WaitFor(0)
}

/// How one lane's first dial ended.
pub enum BootDial {
    Connected(Connection),
    Failed(DialError),
    /// The dial hung; no further lane is tried.
    TimedOut,
}

/// The error class of a failed dial.
pub open spec fn boot_class(dial: BootDial) -> Option<UpstreamErrorClass> {
    match dial {
        BootDial::Connected(_) => None,
        BootDial::Failed(error) => Some(UpstreamErrorClass::spec_from_dial_error(error)),
        BootDial::TimedOut => Some(UpstreamErrorClass::Timeout),
    }
}

/// The class of the last failed dial.
pub open spec fn last_boot_class(dials: Seq<BootDial>) -> Option<UpstreamErrorClass>
    decreases dials.len(),
{
    if dials.len() == 0 {
        None
    } else if boot_class(dials.last()) is Some {
        boot_class(dials.last())
    } else {
        last_boot_class(dials.drop_last())
    }
}

/// A row of first dials in which none follows a hung one.
pub open spec fn stops_when_hung(dials: Seq<BootDial>) -> bool {
    forall|k: int| 0 <= k < dials.len() - 1 ==> !((#[trigger] dials[k]) is TimedOut)
}

/// No further lane is dialed: every one was, or the last dial hung.
pub open spec fn row_ended(dials: Seq<BootDial>, lanes: nat) -> bool {
    dials.len() >= lanes || (dials.len() > 0 && dials.last() is TimedOut)
}

/// Whether the first dials of an upstream are done. One that hangs ends them, so
/// that a hung upstream holds up its gateway for the time of one dial alone.
pub fn boot_dials_done(dials: &Vec<BootDial>, lanes: usize) -> (b: bool)
    ensures
        b == row_ended(dials@, lanes as nat),
{
    if dials.len() >= lanes {
        return true;
    }
    dials.len() > 0 && matches!(dials[dials.len() - 1], BootDial::TimedOut)
}

/// Sort the first dials of an upstream into lanes. A hung dial ends the row, and
/// the lanes not tried stay down for recovery.
pub fn settle_boot_dials(dials: Vec<BootDial>, lanes: usize) -> (r: (
    Vec<Option<Connection>>,
    Option<UpstreamErrorClass>,
))
    requires
        dials.len() <= lanes,
        stops_when_hung(dials@),
        row_ended(dials@, lanes as nat),
    ensures
        r.0.len() == lanes,
        forall|k: int|
            0 <= k < dials.len() ==> (#[trigger] r.0@[k]) == match dials@[k] {
                BootDial::Connected(conn) => Some(conn),
                _ => None,
            },
        forall|k: int| dials.len() <= k < lanes ==> (#[trigger] r.0@[k]) is None,
        r.1 == last_boot_class(dials@),
{
    let mut out: Vec<Option<Connection>> = Vec::new();
    let mut class: Option<UpstreamErrorClass> = None;
    let ghost all = dials@;
    let count: usize = dials.len();
    proof {
        assert(all.take(0) =~= Seq::empty());
    }
    for dial in it: dials.into_iter()
        invariant
            it.seq() == all,
            out.len() == it.index(),
            forall|k: int|
                0 <= k < it.index() ==> (#[trigger] out@[k]) == match all[k] {
                    BootDial::Connected(conn) => Some(conn),
                    _ => None,
                },
            class == last_boot_class(all.take(it.index() as int)),
    {
        proof {
            let next = all.take(it.index() + 1);
            assert(next.drop_last() =~= all.take(it.index() as int));
            assert(next.last() == all[it.index() as int]);
        }
        match dial {
            BootDial::Connected(conn) => {
                out.push(Some(conn));
            },
            BootDial::Failed(error) => {
                class = Some(UpstreamErrorClass::from_dial_error(error));
                out.push(None);
            },
            BootDial::TimedOut => {
                class = Some(UpstreamErrorClass::Timeout);
                out.push(None);
            },
        }
    }
    proof {
        assert(all.take(all.len() as int) =~= all);
    }
    while out.len() < lanes
        invariant
            count <= out.len() <= lanes,
            count == all.len(),
            forall|k: int|
                0 <= k < count ==> (#[trigger] out@[k]) == match all[k] {
                    BootDial::Connected(conn) => Some(conn),
                    _ => None,
                },
            forall|k: int| count <= k < out.len() ==> (#[trigger] out@[k]) is None,
        decreases lanes - out.len(),
    {
        out.push(None);
    }
    (out, class)
}

/// Install what the search index accepted on the first lanes of an upstream, or
/// take them all down where it refused.
pub fn commit_boot(
    lanes: &mut Vec<Option<Connection>>,
    publication: &Publication,
    accepted: bool,
) -> (class: Option<UpstreamErrorClass>)
    ensures
        final(lanes).len() == old(lanes).len(),
        class == if accepted {
            None
        } else {
            Some(UpstreamErrorClass::Catalog)
        },
        forall|k: int|
            0 <= k < final(lanes).len() ==> (#[trigger] final(lanes).deep_view()[k]) == if accepted {
                with_published(old(lanes).deep_view()[k], publication.published.deep_view())
            } else {
                None
            },
        lanes_agree(final(lanes).deep_view()),
{
    if accepted {
        synchronize_published_catalogs(lanes, &publication.published);
        return None;
    }
    let mut k: usize = 0;
    while k < lanes.len()
        invariant
            k <= lanes.len(),
            lanes.len() == old(lanes).len(),
            forall|j: int| 0 <= j < k ==> (#[trigger] lanes@[j]) is None,
        decreases lanes.len() - k,
    {
        lanes.set(k, None);
        k = k + 1;
    }
    proof {
        assert forall|j: int| 0 <= j < lanes.len() implies (#[trigger] lanes.deep_view()[j])
            is None by {
            assert(lanes@[j] is None);
        }
    }
    Some(UpstreamErrorClass::Catalog)
}

/// The listing that seeds an entry's drift baseline: that of the first connected
/// lane.
pub open spec fn seed_listing(lanes: Lanes) -> Seq<Descriptor> {
    match first_connected(lanes) {
        Some(conn) => conn.live_tools,
        None => Seq::empty(),
    }
}

impl UpstreamEntry {
    /// Build an entry around its first lanes. It is built even when no lane is
    /// up; recovery then brings it up. `generation` fences it against reloads
    /// older than the one that built it.
    pub fn build(
        id: u64,
        name: &str,
        manifest: UpstreamManifest,
        lanes: Vec<Option<Connection>>,
        last_error_class: Option<UpstreamErrorClass>,
        has_issuer: bool,
        policy: ReconnectPolicy,
        credential_version: CredentialMaterialVersion,
        generation: u64,
        now: Instant,
        wall: WallTime,
    ) -> (r: Self)
        requires
            policy.is_valid(),
            lanes.len() >= 1,
        ensures
            r.wf(),
            r.id == id,
            r.manifest == manifest,
            r.lanes == lanes,
            r.forwards_identity == (has_issuer && manifest.deep_view().networked()),
            r.breaker == BreakerState::Closed,
            ({
                let connected = connected_count(lanes.deep_view());
                &&& r.recovery.last_success_at == if connected > 0 {
                    Some(wall)
                } else {
                    None
                }
                &&& r.recovery.last_error_class == if connected == lanes.len() {
                    None
                } else {
                    last_error_class
                }
                &&& r.reconnect == ReconnectState::booted(
                    policy.spec_for_server(encode_utf8(name@)),
                    connected < lanes.len(),
                    credential_version,
                    now,
                    wall,
                )
            }),
            !r.removed,
            r.quarantined.len() == 0,
            baseline_of(r.observed_schemas@) == baseline_after(
                Map::empty(),
                seed_listing(lanes.deep_view()),
                manifest.classification_mode,
            ),
            r.last_reload_gen == generation,
    {
        let connected: usize = count_connected(&lanes);
        let total: usize = lanes.len();
        let recovery = UpstreamRecovery::after_boot(connected, total, last_error_class, wall);
        let reconnect = ReconnectState::after_boot_at(
            policy,
            name,
            connected < total,
            credential_version,
            now,
            wall,
        );
        let mut observed_schemas: Assoc<String> = Assoc::new();
        let mut ignored: Vec<String> = Vec::new();
        proof {
            assert(baseline_of(observed_schemas@) =~= Map::empty());
        }
        if let Some(k) = find_connected(&lanes) {
            if let Some(conn) = &lanes[k] {
                record_observed_schemas_against(
                    &mut observed_schemas,
                    &mut ignored,
                    &conn.live_tools,
                    QuarantineThreshold::Off,
                    &manifest.tools,
                    manifest.classification_mode,
                );
            }
        }
        let forwards_identity = has_issuer && manifest.transport != Transport::Stdio;
        UpstreamEntry {
            id,
            manifest,
            lanes,
            forwards_identity,
            breaker: BreakerState::Closed,
            recovery,
            reconnect,
            removed: false,
            observed_schemas,
            quarantined: Vec::new(),
            last_reload_gen: generation,
        }
    }

    /// Carry quarantine and baseline over from the entry this one replaces, then
    /// observe the new sessions against them. A rebuild thus neither lifts a
    /// quarantine nor lets a change of behavior pass unseen.
    pub fn inherit_drift_state(&mut self, replaced: &UpstreamEntry, threshold: QuarantineThreshold) -> (drift:
        Vec<DriftReport>)
        requires
            old(self).wf(),
            replaced.wf(),
        ensures
            final(self).wf(),
            ({
                let manifest = old(self).manifest.deep_view();
                let listing = seed_listing(old(self).lanes.deep_view());
                let baseline = baseline_of(replaced.observed_schemas@);
                &&& drift.deep_view() == drift_in(
                    baseline,
                    listing,
                    manifest.tools,
                    manifest.classification_mode,
                    threshold,
                )
                &&& baseline_of(final(self).observed_schemas@) == baseline_after(
                    baseline,
                    listing,
                    manifest.classification_mode,
                )
                &&& forall|tool: Seq<char>| #[trigger]
                    final(self).quarantined.deep_view().contains(tool)
                        <==> replaced.quarantined.deep_view().contains(tool) || quarantines(
                        drift.deep_view(),
                        tool,
                    )
            }),
            final(self).manifest == old(self).manifest,
            final(self).lanes == old(self).lanes,
            final(self).reconnect == old(self).reconnect,
            final(self).recovery == old(self).recovery,
            final(self).id == old(self).id,
            final(self).removed == old(self).removed,
            final(self).forwards_identity == old(self).forwards_identity,
            final(self).breaker == old(self).breaker,
            final(self).last_reload_gen == old(self).last_reload_gen,
    {
        self.observed_schemas = replaced.observed_schemas.copy();
        self.quarantined = replaced.quarantined.dup();
        let none: Vec<DriftReport> = Vec::new();
        proof {
            assert(none.deep_view() =~= Seq::empty());
        }
        let mode = self.manifest.classification_mode;
        match find_connected(&self.lanes) {
            Some(k) => match &self.lanes[k] {
                Some(conn) => record_observed_schemas_against(
                    &mut self.observed_schemas,
                    &mut self.quarantined,
                    &conn.live_tools,
                    threshold,
                    &self.manifest.tools,
                    mode,
                ),
                None => none,
            },
            None => none,
        }
    }
}

/// A lane is ready exactly where it is connected and no call holds it.
pub proof fn ready_lanes_are_connected_and_free(lanes: Lanes, busy: Seq<bool>, k: int)
    requires
        0 <= k < lanes.len(),
        busy.len() == lanes.len(),
    ensures
        busy[k] ==> !ready(lanes, busy, k),
        lanes[k] is None ==> !ready(lanes, busy, k),
        lanes[k] is Some && !busy[k] ==> ready(lanes, busy, k),
{
}

/// The error class of a boot is that of the last dial that failed, a timeout
/// being one; without a failed dial there is none.
pub proof fn the_last_failed_dial_gives_the_class(dials: Seq<BootDial>, k: int)
    requires
        -1 <= k < dials.len(),
        forall|j: int| k < j < dials.len() ==> (#[trigger] dials[j]) is Connected,
        0 <= k ==> !(dials[k] is Connected),
    ensures
        k < 0 ==> last_boot_class(dials) is None,
        0 <= k && dials[k] is TimedOut ==> last_boot_class(dials) == Some(
            UpstreamErrorClass::Timeout,
        ),
        0 <= k && dials[k] is Failed ==> last_boot_class(dials) == Some(
            UpstreamErrorClass::spec_from_dial_error(dials[k]->Failed_0),
        ),
    decreases dials.len(),
{
    if dials.len() > 0 && k < dials.len() - 1 {
        let front = dials.drop_last();
        assert(dials[dials.len() - 1] is Connected);
        assert forall|j: int| k < j < front.len() implies (#[trigger] front[j]) is Connected by {
            assert(dials[j] is Connected);
        }
        the_last_failed_dial_gives_the_class(front, k);
    }
}

/// A row of boot dials goes on until every lane has had one, unless one hangs:
/// the row ends with it.
pub proof fn a_hung_dial_ends_the_row(dials: Seq<BootDial>, lanes: nat)
    ensures
        dials.len() >= lanes ==> row_ended(dials, lanes),
        dials.len() > 0 && dials.last() is TimedOut ==> row_ended(dials, lanes),
        dials.len() < lanes && (dials.len() == 0 || !(dials.last() is TimedOut)) ==> !row_ended(
            dials,
            lanes,
        ),
        stops_when_hung(dials) <==> forall|k: int|
            0 <= k < dials.len() && (#[trigger] dials[k]) is TimedOut ==> k == dials.len() - 1,
{
}

/// The first baseline is what the first connected lane listed.
pub proof fn the_first_connected_lane_seeds_the_baseline(lanes: Lanes, k: int)
    requires
        0 <= k <= lanes.len(),
        forall|j: int| 0 <= j < k ==> (#[trigger] lanes[j]) is None,
        k < lanes.len() ==> lanes[k] is Some,
    ensures
        k < lanes.len() ==> seed_listing(lanes) == lanes[k]->0.live_tools,
        k == lanes.len() ==> seed_listing(lanes).len() == 0,
{
    crate::lane::the_first_connected_lane_speaks(lanes, k);
}

} // verus!
