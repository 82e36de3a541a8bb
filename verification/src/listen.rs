//! Listening for an upstream's announcements that its tools changed.
//!
//! An announcement is an untrusted hint: it may bring a refresh forward, at a
//! bounded rate, and a burst of announcements ends in one trailing refresh. The
//! ordinary freshness schedule stays in force beside it.

use vstd::prelude::*;

use crate::clock::{Duration, Instant};
use crate::dispatch::{is_2026, speaks_2026};
use crate::entry::UpstreamEntry;
use crate::lane::Lanes;
use crate::manifest::{Manifest, Transport, UpstreamManifest, UpstreamProtocol};
use crate::shape::redial_committed_fields_eq;
use crate::value::Value;

verus! {

/// How often a listener looks whether it is still wanted, in nanoseconds.
pub const LIFECYCLE_CHECK_INTERVAL_NANOS: u128 = 30_000_000_000;

/// How long establishing a listener may take, in nanoseconds.
pub const LISTEN_ESTABLISH_TIMEOUT_NANOS: u128 = 30_000_000_000;

/// Why a catalog listener returned.
#[derive(Clone, Copy, Debug, PartialEq, Eq, Structural)]
pub enum CatalogListenerExit {
    /// The upstream cannot serve this listener as it is configured, or refused.
    Unsupported,
    /// The stream ended after it was established.
    Ended,
    /// The upstream was removed.
    Removed,
    /// The connection shape moved on; a fresh listener should dial it.
    ManifestChanged,
    Shutdown,
}

/// A finished listener: why it returned, and the manifest it ran against.
#[derive(Debug, PartialEq, Eq)]
pub struct CatalogListenerOutcome {
    pub exit: CatalogListenerExit,
    /// None only when the server was gone before there was a snapshot.
    pub shape: Option<UpstreamManifest>,
}

/// A listener can work under this manifest.
pub open spec fn may_listen(manifest: Manifest) -> bool {
    manifest.transport == Transport::Http && manifest.protocol != UpstreamProtocol::Legacy
}

/// Some connected lane negotiated the generation that has announcements.
pub open spec fn announces(lanes: Lanes) -> bool {
    exists|k: int|
        0 <= k < lanes.len() && (#[trigger] lanes[k]) is Some && speaks_2026(
            lanes[k]->0.negotiated_protocol,
        )
}

/// Whether an entry is worth a listener.
pub fn is_listener_candidate(entry: &UpstreamEntry) -> (b: bool)
    ensures
        b == (!entry.removed && may_listen(entry.manifest.deep_view()) && announces(
            entry.lanes.deep_view(),
        )),
{
    if entry.removed || entry.manifest.transport != Transport::Http || entry.manifest.protocol
        == UpstreamProtocol::Legacy {
        return false;
    }
    let ghost all = entry.lanes.deep_view();
    let mut k: usize = 0;
    while k < entry.lanes.len()
        invariant
            k <= entry.lanes.len(),
            all == entry.lanes.deep_view(),
            !entry.removed,
            may_listen(entry.manifest.deep_view()),
            forall|j: int|
                0 <= j < k && (#[trigger] all[j]) is Some ==> !speaks_2026(
                    all[j]->0.negotiated_protocol,
                ),
        decreases entry.lanes.len() - k,
    {
        if let Some(conn) = &entry.lanes[k] {
            if is_2026(conn.negotiated_protocol.as_ref()) {
                proof {
                    assert(all[k as int] == Some(conn.deep_view()));
                }
                return true;
            }
        }
        k = k + 1;
    }
    false
}

/// Whether a listener may be dialed: the manifest to dial, or why not.
pub fn listener_gate(entry: Option<&UpstreamEntry>) -> (r: Result<UpstreamManifest, CatalogListenerOutcome>)
    ensures
        match (entry, r) {
            (None, Err(outcome)) => outcome.exit == CatalogListenerExit::Removed
                && outcome.shape is None,
            (Some(entry), Err(outcome)) => {
                &&& outcome.shape.deep_view() == Some(entry.manifest.deep_view())
                &&& if entry.removed {
                    outcome.exit == CatalogListenerExit::Removed
                } else {
                    outcome.exit == CatalogListenerExit::Unsupported && !may_listen(
                        entry.manifest.deep_view(),
                    )
                }
            },
            (Some(entry), Ok(manifest)) => {
                &&& !entry.removed
                &&& may_listen(entry.manifest.deep_view())
                &&& manifest.deep_view() == entry.manifest.deep_view()
            },
            (None, Ok(_)) => false,
        },
{
    let entry = match entry {
        Some(entry) => entry,
        None => {
            return Err(
                CatalogListenerOutcome { exit: CatalogListenerExit::Removed, shape: None },
            );
        },
    };
    if entry.removed {
        return Err(
            CatalogListenerOutcome {
                exit: CatalogListenerExit::Removed,
                shape: Some(entry.manifest.dup()),
            },
        );
    }
    if entry.manifest.transport != Transport::Http || entry.manifest.protocol
        == UpstreamProtocol::Legacy {
        return Err(
            CatalogListenerOutcome {
                exit: CatalogListenerExit::Unsupported,
                shape: Some(entry.manifest.dup()),
            },
        );
    }
    Ok(entry.manifest.dup())
}

/// What came of an attempt to establish a listener.
#[derive(Clone, Copy, Debug, PartialEq, Eq, Structural)]
pub enum EstablishEvent {
    /// The upstream could not be dialed.
    DialFailed,
    /// The upstream refused to be listened to.
    Refused,
    /// The upstream did not acknowledge in time.
    TimedOut,
    Shutdown,
    /// The upstream acknowledged, and said this of changes of its tools.
    Acknowledged { tools_list_changed: Option<bool> },
}

/// How the attempt to establish a listener ends, or nothing where the listener is
/// established: only an upstream that acknowledges changes of its tools can serve
/// it.
pub fn settle_establish(dialed: &UpstreamManifest, event: EstablishEvent) -> (r: Option<
    CatalogListenerOutcome,
>)
    ensures
        r is None <==> event == (EstablishEvent::Acknowledged { tools_list_changed: Some(true) }),
        r is Some ==> {
            &&& r->0.exit == if event == EstablishEvent::Shutdown {
                CatalogListenerExit::Shutdown
            } else {
                CatalogListenerExit::Unsupported
            }
            &&& r->0.shape.deep_view() == Some(dialed.deep_view())
        },
{
    let exit = match event {
        EstablishEvent::Acknowledged { tools_list_changed: Some(true) } => return None,
        EstablishEvent::Shutdown => CatalogListenerExit::Shutdown,
        _ => CatalogListenerExit::Unsupported,
    };
    Some(CatalogListenerOutcome { exit, shape: Some(dialed.dup()) })
}

/// Whether an established listener has to end: the upstream is gone, or its
/// connection shape is not the one that was dialed.
pub fn lifecycle_check(entry: Option<&UpstreamEntry>, dialed: &UpstreamManifest) -> (r: Option<
    CatalogListenerExit,
>)
    ensures
        r == match entry {
            None => Some(CatalogListenerExit::Removed),
            Some(entry) => if entry.removed {
                Some(CatalogListenerExit::Removed)
            } else if dialed.deep_view().committed() != entry.manifest.deep_view().committed() {
                Some(CatalogListenerExit::ManifestChanged)
            } else {
                None
            },
        },
{
    let entry = match entry {
        Some(entry) => entry,
        None => return Some(CatalogListenerExit::Removed),
    };
    if entry.removed {
        return Some(CatalogListenerExit::Removed);
    }
    if !redial_committed_fields_eq(dialed, &entry.manifest) {
        return Some(CatalogListenerExit::ManifestChanged);
    }
    None
}

/// What happened to an established listener.
#[derive(Clone, Copy, Debug, PartialEq, Eq, Structural)]
pub enum ListenerEvent {
    /// The upstream announced that its tools changed.
    ToolsChanged,
    /// The upstream announced something else.
    Other,
    /// The stream ended or broke.
    StreamEnded,
    Shutdown,
    /// A timer ran out.
    Woken,
}

/// The rate bound of an established listener.
#[derive(Clone, Copy, Debug, PartialEq, Eq, Structural)]
pub struct RefreshPacer {
    pub min_interval: Duration,
    pub last_refresh: Option<Instant>,
    /// An announcement has not been acted on yet.
    pub pending: bool,
}

impl RefreshPacer {
    pub fn new(min_interval: Duration) -> (r: Self)
        ensures
            r == (RefreshPacer { min_interval, last_refresh: None, pending: false }),
    {
        RefreshPacer { min_interval, last_refresh: None, pending: false }
    }

    /// A refresh is owed and may run now.
    pub open spec fn due(self, now: Instant) -> bool {
        self.pending && (self.last_refresh is None || self.last_refresh->0.nanos
            + self.min_interval.nanos <= now.nanos)
    }

    /// Take in an event; the reason to end, if it is one.
    pub fn observe(&mut self, event: ListenerEvent) -> (exit: Option<CatalogListenerExit>)
        ensures
            *final(self) == (RefreshPacer {
                pending: old(self).pending || event == ListenerEvent::ToolsChanged,
                ..*old(self)
            }),
            exit == match event {
                ListenerEvent::StreamEnded => Some(CatalogListenerExit::Ended),
                ListenerEvent::Shutdown => Some(CatalogListenerExit::Shutdown),
                _ => None,
            },
    {
        match event {
            ListenerEvent::ToolsChanged => {
                self.pending = true;
                None
            },
            ListenerEvent::StreamEnded => Some(CatalogListenerExit::Ended),
            ListenerEvent::Shutdown => Some(CatalogListenerExit::Shutdown),
            ListenerEvent::Other | ListenerEvent::Woken => None,
        }
    }

    /// Take the refresh that is owed, if it may run now.
    pub fn take_refresh(&mut self, now: Instant) -> (run: bool)
        ensures
            run == old(self).due(now),
            *final(self) == if run {
                RefreshPacer { pending: false, last_refresh: Some(now), ..*old(self) }
            } else {
                *old(self)
            },
    {
        if !self.pending {
            return false;
        }
        let waits = match self.last_refresh {
            Some(at) => match at.nanos.checked_add(self.min_interval.nanos) {
                Some(earliest) => earliest > now.nanos,
                None => true,
            },
            None => false,
        };
        if waits {
            return false;
        }
        self.pending = false;
        self.last_refresh = Some(now);
        true
    }

    /// When to wake up for a refresh that is owed and may not run yet.
    pub fn flush_at(&self) -> (r: Option<Instant>)
        ensures
            r == if self.pending && self.last_refresh is Some {
                self.last_refresh->0.spec_checked_add(self.min_interval)
            } else {
                None
            },
    {
        if !self.pending {
            return None;
        }
        match self.last_refresh {
            Some(at) => at.checked_add(self.min_interval),
            None => None,
        }
    }
}

/// Refreshes that announcements drive are never closer together than the
/// minimum interval, however many announcements come in.
pub proof fn refreshes_keep_their_distance(pacer: RefreshPacer, now: Instant, later: Instant)
    requires
        pacer.due(now),
        now.nanos <= later.nanos,
        (RefreshPacer { pending: true, last_refresh: Some(now), ..pacer }).due(later),
    ensures
        now.nanos + pacer.min_interval.nanos <= later.nanos,
{
}

/// No announcement is lost: it stays owed until a refresh runs, and the moment
/// to wake up for it is one at which the refresh may run.
pub proof fn announcements_are_never_dropped(pacer: RefreshPacer, now: Instant)
    requires
        pacer.pending,
    ensures
        pacer.due(now) || (pacer.last_refresh is Some && match pacer.last_refresh->0.spec_checked_add(
            pacer.min_interval,
        ) {
            Some(at) => pacer.due(at) && now.nanos < at.nanos,
            None => true,
        }),
{
}

/// The refresh a listener triggers changes nothing it watches, so a listener
/// never ends itself.
pub proof fn listener_never_ends_itself(manifest: Manifest)
    ensures
        crate::redial::advanced(manifest, manifest).committed() == manifest.committed(),
{
}

/// An upstream may be listened to exactly over HTTP and not in the legacy
/// generation, and announces changes exactly where a connected lane speaks the
/// 2026 one.
pub proof fn listeners_need_http_and_2026(
    manifest: Manifest,
    lanes: Lanes,
    lane: Option<crate::lane::LaneModel>,
)
    ensures
        manifest.transport != Transport::Http ==> !may_listen(manifest),
        manifest.protocol == UpstreamProtocol::Legacy ==> !may_listen(manifest),
        manifest.transport == Transport::Http && manifest.protocol != UpstreamProtocol::Legacy
            ==> may_listen(manifest),
        !announces(Seq::empty()),
        announces(lanes.push(lane)) <==> announces(lanes) || (lane is Some && speaks_2026(
            lane->0.negotiated_protocol,
        )),
{
    let all = lanes.push(lane);
    if announces(lanes) {
        let k = choose|k: int|
            0 <= k < lanes.len() && (#[trigger] lanes[k]) is Some && speaks_2026(
                lanes[k]->0.negotiated_protocol,
            );
        assert(all[k] == lanes[k]);
    }
    assert(all[lanes.len() as int] == lane);
    if announces(all) {
        let k = choose|k: int|
            0 <= k < all.len() && (#[trigger] all[k]) is Some && speaks_2026(
                all[k]->0.negotiated_protocol,
            );
        if k < lanes.len() {
            assert(lanes[k] == all[k]);
        }
    }
}

/// A refresh runs exactly where a change was announced and the last refresh, if
/// there was one, lies at least the interval back.
pub proof fn announced_changes_run_after_the_interval(pacer: RefreshPacer, now: Instant)
    ensures
        !pacer.pending ==> !pacer.due(now),
        pacer.pending && pacer.last_refresh is None ==> pacer.due(now),
        pacer.pending && pacer.last_refresh is Some ==> (pacer.due(now)
            <==> pacer.last_refresh->0.nanos + pacer.min_interval.nanos <= now.nanos),
{
}

} // verus!
